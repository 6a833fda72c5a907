//! Validators that scan staged files for build paths.
pub mod archive;
pub mod hardcoded;
pub mod macho;
pub mod staging;

pub use self::archive::ArchiveScanner;
pub use self::hardcoded::HardcodedScanner;
pub use self::macho::MachOScanner;
pub use self::staging::StagingScanner;
