//! Build systems: their fixed configuration, the arguments and environment
//! they hand to their tools, and the parsers for what their test runners print.
pub mod autotools;
pub mod cargo;
pub mod cmake;
pub mod common;
pub mod context;
pub mod detect;
pub mod go;
pub mod lockfile;
pub mod nodejs;
pub mod python;

pub use self::common::BuildSystemConfig;
pub use self::common::TestFailure;
pub use self::common::TestFailureView;
pub use self::cargo::CargoBuildSystem;
pub use self::cmake::CMakeBuildSystem;
pub use self::go::GoBuildSystem;
pub use self::python::PythonBuildSystem;
pub use self::nodejs::{NodeJsBuildSystem, PackageManager};
pub use self::autotools::AutotoolsBuildSystem;
