//! Patchers that repair staged files.
pub mod binary_string;
pub mod codesigner;
pub mod permissions;
pub mod pkgconfig;
pub mod python_bytecode_cleanup;
pub mod rpath;

pub use self::binary_string::BinaryStringPatcher;
pub use self::codesigner::CodeSigner;
pub use self::permissions::PermissionsFixer;
pub use self::pkgconfig::PkgConfigPatcher;
pub use self::python_bytecode_cleanup::PythonBytecodeCleanupPatcher;
pub use self::rpath::{RPathPatcher, RpathStyle};

use vstd::prelude::*;

verus! {

/// Replaces the build placeholder prefix in text files.
pub struct PlaceholderPatcher;

/// Fixes build paths in installed headers.
pub struct HeaderPatcher;

/// Removes libtool `.la` archives.
pub struct LaFileCleaner;

/// Removes stray object files.
pub struct ObjectFileCleaner;

/// Wraps Python entry points so they run in their own environment.
pub struct PythonIsolationPatcher;

} // verus!
