//! Which build system a source directory uses, from the files it holds.
use crate::errors::BuildError;
use crate::text::owned;
use vstd::prelude::*;

verus! {

/// The files of a source directory that tell its build system.
#[derive(Clone, Copy, Debug)]
pub struct SourceMarkers {
    /// `configure`
    pub configure: bool,
    /// `configure.ac`
    pub configure_ac: bool,
    /// `configure.in`
    pub configure_in: bool,
    /// `Makefile.am`
    pub makefile_am: bool,
    /// `CMakeLists.txt`
    pub cmake_lists: bool,
    /// `Cargo.toml`
    pub cargo_toml: bool,
    /// `go.mod`
    pub go_mod: bool,
    /// Some `*.go` file at the top level
    pub go_files: bool,
    /// `pyproject.toml`
    pub pyproject: bool,
    /// `setup.py`
    pub setup_py: bool,
    /// `setup.cfg`
    pub setup_cfg: bool,
    /// `package.json`
    pub package_json: bool,
}

/// An autotools project: a `configure` script, its sources, or automake input.
pub open spec fn is_autotools(m: SourceMarkers) -> bool {
    m.configure || m.configure_ac || m.configure_in || m.makefile_am
}

/// A Go project: a module file or Go sources.
pub open spec fn is_go(m: SourceMarkers) -> bool {
    m.go_mod || m.go_files
}

/// A Python project: PEP 517/518 metadata, or a legacy setup script or file.
pub open spec fn is_python(m: SourceMarkers) -> bool {
    m.pyproject || m.setup_py || m.setup_cfg
}

/// The build system of a source directory: the first that recognises it, in
/// the order autotools, CMake, Cargo, Go, Python, Node.js.
pub open spec fn detected_system(m: SourceMarkers) -> Option<Seq<char>> {
    if is_autotools(m) {
        Some("autotools"@)
    } else if m.cmake_lists {
        Some("cmake"@)
    } else if m.cargo_toml {
        Some("cargo"@)
    } else if is_go(m) {
        Some("go"@)
    } else if is_python(m) {
        Some("python"@)
    } else if m.package_json {
        Some("nodejs"@)
    } else {
        None
    }
}

/// Which system a directory is detected as, by its marker files: autotools
/// exactly when it has `configure`, `configure.ac`, `configure.in` or
/// `Makefile.am`; otherwise CMake exactly when it has `CMakeLists.txt`;
/// otherwise Cargo with `Cargo.toml`; otherwise Go with `go.mod` or Go
/// sources; otherwise Python with `pyproject.toml`, `setup.py` or
/// `setup.cfg`; otherwise Node.js with `package.json`; and none without any.
pub proof fn lemma_detection_by_markers(m: SourceMarkers)
    ensures
        (detected_system(m) == Some("autotools"@)) <==> (m.configure || m.configure_ac || m.configure_in || m.makefile_am),
        (detected_system(m) == Some("cmake"@)) <==> (!(m.configure || m.configure_ac || m.configure_in || m.makefile_am)
            && m.cmake_lists),
        (detected_system(m) == Some("cargo"@)) <==> (!(m.configure || m.configure_ac || m.configure_in || m.makefile_am)
            && !m.cmake_lists && m.cargo_toml),
        (detected_system(m) == Some("go"@)) <==> (!(m.configure || m.configure_ac || m.configure_in || m.makefile_am)
            && !m.cmake_lists && !m.cargo_toml && (m.go_mod || m.go_files)),
        (detected_system(m) == Some("python"@)) <==> (!(m.configure || m.configure_ac || m.configure_in || m.makefile_am)
            && !m.cmake_lists && !m.cargo_toml && !(m.go_mod || m.go_files) && (m.pyproject || m.setup_py || m.setup_cfg)),
        (detected_system(m) == Some("nodejs"@)) <==> (!(m.configure || m.configure_ac || m.configure_in || m.makefile_am)
            && !m.cmake_lists && !m.cargo_toml && !(m.go_mod || m.go_files) && !(m.pyproject || m.setup_py || m.setup_cfg)
            && m.package_json),
        (detected_system(m) is None) <==> !(m.configure || m.configure_ac || m.configure_in || m.makefile_am
            || m.cmake_lists || m.cargo_toml || m.go_mod || m.go_files || m.pyproject || m.setup_py || m.setup_cfg
            || m.package_json),
{
    reveal_strlit("autotools");
    reveal_strlit("cmake");
    reveal_strlit("cargo");
    reveal_strlit("go");
    reveal_strlit("python");
    reveal_strlit("nodejs");
    assert("autotools"@[0] == 'a' && "cmake"@[0] == 'c' && "cargo"@[0] == 'c' && "go"@[0] == 'g'
        && "python"@[0] == 'p' && "nodejs"@[0] == 'n');
    assert("cmake"@[1] == 'm' && "cargo"@[1] == 'a');
}

/// The name of the build system a source directory uses; an error naming
/// the directory where none recognises it.
pub fn detect_build_system(markers: &SourceMarkers, source_dir: &str) -> (r: Result<&'static str, BuildError>)
    ensures
        match detected_system(*markers) {
            Some(n) => r matches Ok(s) && s@ == n,
            None => r matches Err(BuildError::NoBuildSystemDetected { path }) && path@ == source_dir@,
        },
{
    let m = markers;
    if m.configure || m.configure_ac || m.configure_in || m.makefile_am {
        Ok("autotools")
    } else if m.cmake_lists {
        Ok("cmake")
    } else if m.cargo_toml {
        Ok("cargo")
    } else if m.go_mod || m.go_files {
        Ok("go")
    } else if m.pyproject || m.setup_py || m.setup_cfg {
        Ok("python")
    } else if m.package_json {
        Ok("nodejs")
    } else {
        Err(BuildError::NoBuildSystemDetected { path: owned(source_dir) })
    }
}

} // verus!
