//! Re-signs binaries after patching to fix code signature issues on macOS.
use crate::artifact_qa::patchers::permissions::is_dynamic_library_name;
use crate::artifact_qa::patchers::permissions::PermissionsFixer;
use vstd::prelude::*;

verus! {

/// Re-signs patched Mach-O binaries with an ad-hoc signature.
pub struct CodeSigner;

impl CodeSigner {
    /// Create a new code signer
    pub fn new() -> CodeSigner {
        CodeSigner
    }

    /// A file to re-sign: a dynamic library by its name, or a Mach-O file
    /// (`is_macho`, read from the file).
    pub fn is_macho_binary(path: &str, is_macho: bool) -> (r: bool)
        ensures
            r == (is_dynamic_library_name(path@) || is_macho),
    {
        PermissionsFixer::is_dynamic_library(path) || is_macho
    }
}

} // verus!
