use sps2_builder::error_handling::{
    CompilationFailedRecovery, DependencyConflictRecovery, DiskSpaceRecovery,
    NetworkErrorRecovery, RecoveryAction, TestsFailedRecovery,
};
use sps2_builder::errors::BuildError;
use sps2_builder::string_map::StringMap;
use std::time::Duration;

#[test]
fn test_recovery_actions() {
    let retry = RecoveryAction::Retry {
        config_changes: StringMap::new(),
        delay: Duration::from_secs(1),
    };
    assert_eq!(
        retry,
        RecoveryAction::Retry {
            config_changes: StringMap::new(),
            delay: Duration::from_secs(1),
        }
    );

    let skip = RecoveryAction::Skip {
        warning: "test".to_string(),
    };
    assert_eq!(
        skip,
        RecoveryAction::Skip {
            warning: "test".to_string(),
        }
    );
}

#[test]
fn test_recovery_strategies() {
    let dep_recovery = DependencyConflictRecovery;
    assert!(dep_recovery.can_handle(&BuildError::DependencyConflict {
        message: "test".to_string()
    }));

    let compile_recovery = CompilationFailedRecovery;
    assert!(compile_recovery.can_handle(&BuildError::CompilationFailed {
        message: "test".to_string()
    }));

    let test_recovery = TestsFailedRecovery;
    assert!(test_recovery.can_handle(&BuildError::TestsFailed {
        passed: 5,
        total: 10
    }));

    let network_recovery = NetworkErrorRecovery::new();
    assert!(network_recovery.can_handle(&BuildError::FetchFailed {
        url: "http://test".to_string()
    }));

    let disk_recovery = DiskSpaceRecovery;
    assert!(disk_recovery.can_handle(&BuildError::Failed {
        message: "disk full".to_string()
    }));
}
