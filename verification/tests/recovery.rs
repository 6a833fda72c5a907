use sps2_builder::error_handling::{
    recovery_step, BuildCheckpoint, BuildErrorHandler, BuildState, CheckpointManager, RecoveryAction,
    RecoveryStep, TestFailureBand,
};
use sps2_builder::errors::BuildError;
use sps2_builder::string_map::StringMap;
use std::time::Duration;

fn state(step: &str) -> BuildState {
    let mut env_vars = StringMap::new();
    env_vars.insert("TEST".to_string(), "value".to_string());
    BuildState {
        env_vars,
        completed_steps: vec![step.to_string()],
        artifacts: vec!["/tmp/test.o".to_string()],
        config: StringMap::new(),
    }
}

fn checkpoint(id: &str, stage: &str, timestamp: u64) -> BuildCheckpoint {
    BuildCheckpoint {
        id: id.to_string(),
        stage: stage.to_string(),
        timestamp,
        state: state("configure"),
        metadata: StringMap::new(),
    }
}

#[test]
fn error_handler_skips_few_test_failures() {
    let handler = BuildErrorHandler::new("/tmp/checkpoints".to_string());
    let error = BuildError::TestsFailed { passed: 9, total: 10 };
    match handler.handle_error(&error, "test", "/out", 0, TestFailureBand::Few) {
        RecoveryAction::Skip { warning } => {
            assert!(warning.contains("Skipping test failures"));
            assert_eq!(warning, "Skipping test failures (9/10 passed) for test");
        }
        other => panic!("Expected skip action, got {other:?}"),
    }
}

#[test]
fn error_handler_gives_up_after_retries() {
    let handler = BuildErrorHandler::new("/tmp/checkpoints".to_string()).with_max_retries(2).with_retry_delay(1);
    let error = BuildError::FetchFailed { url: "http://x".to_string() };
    match handler.handle_error(&error, "test", "/out", 2, TestFailureBand::Few) {
        RecoveryAction::Abort { message, suggestions } => {
            assert_eq!(message, "Max retries (2) exceeded");
            assert_eq!(suggestions, vec!["Manual intervention required".to_string()]);
        }
        other => panic!("unexpected {other:?}"),
    }
    match handler.handle_error(&error, "test", "/out", 1, TestFailureBand::Few) {
        RecoveryAction::Retry { config_changes, delay } => {
            assert_eq!(delay, Duration::from_secs(10));
            assert_eq!(config_changes.get("fetch_retries"), Some(&"3".to_string()));
        }
        other => panic!("unexpected {other:?}"),
    }
    match handler.handle_error(&BuildError::NetworkAccessDenied, "test", "/out", 0, TestFailureBand::Few) {
        RecoveryAction::Alternative { method, config } => {
            assert_eq!(method, "Use local cache or offline mode");
            assert_eq!(config.get("offline_mode"), Some(&"true".to_string()));
        }
        other => panic!("unexpected {other:?}"),
    }
    match handler.handle_error(&BuildError::Failed { message: "No space left on device".to_string() }, "zlib", "/out", 0, TestFailureBand::Few) {
        RecoveryAction::CleanRetry { clean_paths, delay } => {
            assert_eq!(delay, Duration::from_secs(5));
            assert_eq!(
                clean_paths,
                vec!["/out/build".to_string(), "/out/tmp".to_string(), "/tmp/sps2-build-zlib".to_string()]
            );
        }
        other => panic!("unexpected {other:?}"),
    }
    match handler.handle_error(&BuildError::TestsFailed { passed: 1, total: 10 }, "t", "/o", 0, TestFailureBand::Many) {
        RecoveryAction::Abort { message, .. } => assert_eq!(message, "Too many test failures: 1/10 passed"),
        other => panic!("unexpected {other:?}"),
    }
}

#[test]
fn checkpoints_latest_per_stage() {
    let mut manager = CheckpointManager::new("/tmp/checkpoints".to_string());
    assert!(manager.get_latest_checkpoint("build").is_none());
    manager.add_checkpoint(checkpoint("build-1", "build", 100));
    manager.add_checkpoint(checkpoint("configure-1", "configure", 150));
    manager.add_checkpoint(checkpoint("build-2", "build", 200));
    manager.add_checkpoint(checkpoint("build-3", "build", 200));
    assert_eq!(manager.list_checkpoints().len(), 4);
    let latest = manager.get_latest_checkpoint("build").unwrap();
    assert_eq!(latest.id, "build-3");
    assert_eq!(latest.state.completed_steps, vec!["configure".to_string()]);
    assert_eq!(manager.get_latest_checkpoint("configure").unwrap().id, "configure-1");
    assert!(manager.get_latest_checkpoint("package").is_none());
}

#[test]
fn recovery_steps_of_actions() {
    match recovery_step(RecoveryAction::Retry { config_changes: StringMap::new(), delay: Duration::from_secs(3) }) {
        RecoveryStep::RetryAfter { delay } => assert_eq!(delay, Duration::from_secs(3)),
        other => panic!("unexpected {other:?}"),
    }
    match recovery_step(RecoveryAction::CleanRetry { clean_paths: vec!["/x".to_string()], delay: Duration::from_secs(5) }) {
        RecoveryStep::CleanThenRetry { clean_paths, delay } => {
            assert_eq!(clean_paths, vec!["/x".to_string()]);
            assert_eq!(delay, Duration::from_secs(5));
        }
        other => panic!("unexpected {other:?}"),
    }
    match recovery_step(RecoveryAction::Abort {
        message: "Build failed: x".to_string(),
        suggestions: vec!["a".to_string(), "b".to_string()],
    }) {
        RecoveryStep::GiveUp { warnings, error } => {
            assert_eq!(warnings, vec!["Suggestion: a".to_string(), "Suggestion: b".to_string()]);
            assert_eq!(error, BuildError::Failed { message: "Build failed: x".to_string() });
        }
        other => panic!("unexpected {other:?}"),
    }
    match recovery_step(RecoveryAction::Skip { warning: "w".to_string() }) {
        RecoveryStep::GiveUp { warnings, error } => {
            assert_eq!(warnings, vec!["w".to_string()]);
            assert_eq!(error, BuildError::Failed { message: "Operation skipped due to error".to_string() });
        }
        other => panic!("unexpected {other:?}"),
    }
}

#[test]
fn eleventh_checkpoint_drops_the_oldest() {
    let mut manager = CheckpointManager::new("/tmp/ck".to_string());
    let times = [50u64, 10, 30, 10, 90, 70, 20, 60, 80, 40];
    for (i, t) in times.iter().enumerate() {
        let removed = manager.add_checkpoint(checkpoint(&format!("c{i}"), "build", *t));
        assert!(removed.is_empty());
    }
    let ids: Vec<_> = manager.list_checkpoints().iter().map(|c| c.id.clone()).collect();
    assert_eq!(ids.len(), 10);
    assert_eq!(ids[0], "c0");
    let removed = manager.add_checkpoint(checkpoint("c10", "build", 10));
    assert_eq!(removed, vec!["/tmp/ck/c1.json".to_string()]);
    let ids: Vec<_> = manager.list_checkpoints().iter().map(|c| c.id.clone()).collect();
    assert_eq!(ids, vec!["c3", "c10", "c6", "c2", "c9", "c0", "c7", "c5", "c8", "c4"]);
    let times: Vec<_> = manager.list_checkpoints().iter().map(|c| c.timestamp).collect();
    assert!(times.windows(2).all(|w| w[0] <= w[1]));
}
