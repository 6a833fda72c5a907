//! Fixes install names and `LC_RPATH` entries of Mach-O dylibs and executables.
use crate::paths::{file_name, file_name_of};
use crate::text::{
    chars_eq, concat, contains, contains_str, decimal, from_chars, owned, push_all, skip_chars,
    starts_with, starts_with_str, string_views, to_chars, usize_to_string,
};
use vstd::prelude::*;

verus! {

/// How libraries are referenced after patching.
#[derive(Clone, Copy, Debug, PartialEq, Eq, Structural)]
pub enum RpathStyle {
    /// `@rpath/` references with an RPATH to the live library directory.
    Modern,
    /// Absolute paths into the live library directory.
    Absolute,
}

/// Fixes install names and RPATHs.
pub struct RPathPatcher {
    style: RpathStyle,
}

impl RPathPatcher {
    /// A patcher for the given style.
    pub closed spec fn with_style(style: RpathStyle) -> RPathPatcher {
        RPathPatcher { style }
    }

    /// The style this patcher fixes towards.
    pub closed spec fn style_of(&self) -> RpathStyle {
        self.style
    }

    /// Create a new `RPathPatcher` with the specified style
    pub fn new(style: RpathStyle) -> (r: Self)
        ensures
            r == Self::with_style(style),
            r.style_of() == style,
    {
        RPathPatcher { style }
    }

    /// Check if a file is a dylib based on its name (also versioned ones).
    pub fn is_dylib(path: &str) -> (r: bool)
        ensures
            r == (file_name_of(path@) matches Some(n) && contains(n, ".dylib"@)),
    {
        match file_name(path) {
            Some(n) => contains_str(n.as_slice(), ".dylib"),
            None => false,
        }
    }

    /// Whether a staged entry is processed: a regular file that is a dylib
    /// or shared object by name, or a Mach-O file (`is_macho`, read from it).
    pub fn should_process_file(path: &str, is_file: bool, is_macho: bool) -> (r: bool)
        ensures
            r == (is_file && (crate::artifact_qa::patchers::permissions::is_dynamic_library_name(path@) || is_macho)),
    {
        if !is_file {
            return false;
        }
        crate::artifact_qa::patchers::permissions::PermissionsFixer::is_dynamic_library(path) || is_macho
    }

    /// Check if an install name needs fixing based on the style.
    pub fn needs_install_name_fix(&self, install_name: &str) -> (r: bool)
        ensures
            r == install_name_needs_fix(self.style_of(), install_name@),
    {
        let v = to_chars(install_name);
        let n = v.as_slice();
        let build_path = contains_str(n, "/opt/pm/build") || contains_str(n, "/private/");
        match self.style {
            RpathStyle::Modern => {
                if starts_with_str(n, "@rpath/") || starts_with_str(n, "@loader_path/") || starts_with_str(
                    n,
                    "@executable_path/",
                ) {
                    return false;
                }
                build_path
            },
            RpathStyle::Absolute => {
                if starts_with_str(n, "@loader_path/") || starts_with_str(n, "@executable_path/") {
                    return false;
                }
                starts_with_str(n, "@rpath/") || build_path
            },
        }
    }

    /// The rename that the headerpad fallback makes in the files referencing
    /// a dylib whose install name could not be changed: from the dylib's
    /// current install name, where it has one that needs fixing, to
    /// `<lib_path>/<file name>`; nothing for a path without a file name.
    pub fn headerpad_rename(&self, dylib: &str, current_name: Option<&str>, lib_path: &str) -> (r: Option<(String, String)>)
        ensures
            match (current_name, file_name_of(dylib@)) {
                (Some(n), Some(f)) => if install_name_needs_fix(self.style_of(), n@) {
                    r matches Some(p) && p.0@ == n@ && p.1@ == lib_path@ + "/"@ + f
                } else {
                    r is None
                },
                _ => r is None,
            },
    {
        match current_name {
            Some(n) => {
                if file_name(dylib).is_some() && self.needs_install_name_fix(n) {
                    Some((crate::text::owned(n), new_install_name(lib_path, dylib)))
                } else {
                    None
                }
            },
            None => None,
        }
    }

    /// Whether a file's dependencies reference a dylib by a name: one of them
    /// holds the name.
    pub fn references_dylib(deps: &Vec<String>, name: &str) -> (r: bool)
        ensures
            r == exists|i: int| 0 <= i < deps@.len() && contains(#[trigger] deps@[i]@, name@),
    {
        for i in 0..deps.len()
            invariant
                forall|j: int| 0 <= j < i ==> !contains(#[trigger] deps@[j]@, name@),
        {
            if contains_str(to_chars(deps[i].as_str()).as_slice(), name) {
                return true;
            }
        }
        false
    }

    /// What to do with a file's RPATH entries, given them and the file's
    /// dependencies.
    pub fn plan_rpaths(
        &self,
        rpath_entries: &Vec<String>,
        deps: &Vec<String>,
        lib_path: &str,
        build_paths: &Vec<String>,
    ) -> (r: RpathPlan)
        ensures
            string_views(r.bad_rpaths@) == bad_rpaths(string_views(rpath_entries@), lib_path@, string_views(build_paths@)),
            r.need_good == uses_rpath(string_views(deps@)),
            r.add_rpath == (r.need_good && self.style_of() == RpathStyle::Modern && !string_views(rpath_entries@).contains(lib_path@)),
            r.changed == (r.need_good || r.bad_rpaths@.len() > 0),
    {
        let lib = to_chars(lib_path);
        let mut has_good = false;
        let mut bad: Vec<String> = Vec::new();
        let ghost es = string_views(rpath_entries@);
        let ghost bps = string_views(build_paths@);
        for i in 0..rpath_entries.len()
            invariant
                lib@ == lib_path@,
                es == string_views(rpath_entries@),
                bps == string_views(build_paths@),
                has_good == es.take(i as int).contains(lib_path@),
                string_views(bad@) == bad_rpaths(es.take(i as int), lib_path@, bps),
        {
            proof {
                assert(es.take(i + 1).drop_last() == es.take(i as int));
            }
            let e = to_chars(rpath_entries[i].as_str());
            if chars_eq(e.as_slice(), lib.as_slice()) {
                has_good = true;
                assert(es.take(i + 1).contains(lib_path@)) by {
                    assert(es.take(i + 1)[i as int] == lib_path@);
                }
            } else {
                proof {
                    assert(es.take(i + 1) == es.take(i as int).push(es[i as int]));
                    if es.take(i as int).contains(lib_path@) {
                        let j = choose|j: int| 0 <= j < i && es.take(i as int)[j] == lib_path@;
                        assert(es.take(i + 1)[j] == lib_path@);
                    }
                    if es.take(i + 1).contains(lib_path@) {
                        let j = choose|j: int| 0 <= j < i + 1 && #[trigger] es.take(i + 1)[j] == lib_path@;
                        assert(es.take(i as int)[j] == lib_path@);
                    }
                }
                if any_contained(e.as_slice(), build_paths) {
                    bad.push(rpath_entries[i].clone());
                    assert(string_views(bad@) =~= bad_rpaths(es.take(i as int), lib_path@, bps).push(es[i as int]));
                }
            }
        }
        assert(es.take(rpath_entries@.len() as int) == es);
        let mut need_good = false;
        let ghost ds = string_views(deps@);
        for i in 0..deps.len()
            invariant
                ds == string_views(deps@),
                need_good == uses_rpath(ds.take(i as int)),
        {
            proof {
                assert(ds.take(i + 1) == ds.take(i as int).push(ds[i as int]));
                lemma_uses_rpath_push(ds.take(i as int), ds[i as int]);
            }
            if contains_str(to_chars(deps[i].as_str()).as_slice(), "@rpath/") {
                need_good = true;
            }
        }
        assert(ds.take(deps@.len() as int) == ds);
        let add_rpath = need_good && self.style == RpathStyle::Modern && !has_good;
        let changed = need_good || bad.len() > 0;
        RpathPlan { need_good, add_rpath, bad_rpaths: bad, changed }
    }

    /// The `@rpath/` dependencies to rewrite as absolute paths (only in the
    /// absolute style): each dependency and its path under `lib_path`.
    pub fn rpath_dependency_fixes(&self, deps: &Vec<String>, lib_path: &str) -> (r: Vec<(String, String)>)
        ensures
            r@.map_values(|p: (String, String)| (p.0@, p.1@)) == if self.style_of() == RpathStyle::Absolute {
                dependency_fixes(string_views(deps@), lib_path@)
            } else {
                Seq::empty()
            },
    {
        let mut r: Vec<(String, String)> = Vec::new();
        if self.style != RpathStyle::Absolute {
            assert(r@.map_values(|p: (String, String)| (p.0@, p.1@)) =~= Seq::<(Seq<char>, Seq<char>)>::empty());
            return r;
        }
        let ghost ds = string_views(deps@);
        for i in 0..deps.len()
            invariant
                ds == string_views(deps@),
                r@.map_values(|p: (String, String)| (p.0@, p.1@)) == dependency_fixes(ds.take(i as int), lib_path@),
        {
            proof {
                assert(ds.take(i + 1).drop_last() == ds.take(i as int));
            }
            let d = to_chars(deps[i].as_str());
            if starts_with_str(d.as_slice(), "@rpath/") {
                proof {
                    reveal_strlit("@rpath/");
                    reveal_strlit("/");
                }
                let name = skip_chars(d.as_slice(), 7);
                let mut np = to_chars(lib_path);
                np.push('/');
                push_all(&mut np, name.as_slice());
                assert(ds[i as int] == d@);
                assert(np@ =~= lib_path@ + "/"@ + ds[i as int].skip(7));
                r.push((deps[i].clone(), from_chars(np.as_slice())));
                assert(r@.map_values(|p: (String, String)| (p.0@, p.1@)) =~= dependency_fixes(ds.take(i as int), lib_path@).push(
                    (ds[i as int], lib_path@ + "/"@ + ds[i as int].skip(7)),
                ));
            }
        }
        assert(ds.take(deps@.len() as int) == ds);
        r
    }
}

/// What `plan_rpaths` decides for one file.
pub struct RpathPlan {
    /// Some dependency is referenced through `@rpath/`.
    pub need_good: bool,
    /// The live library directory is to be added as an RPATH.
    pub add_rpath: bool,
    /// The RPATH entries that point into the build tree, to delete.
    pub bad_rpaths: Vec<String>,
    /// The file's RPATHs count as changed.
    pub changed: bool,
}

/// Whether an install name is fixed: in the modern style, names that point
/// into the build tree (`/opt/pm/build`, `/private/`) unless relative
/// (`@rpath/`, `@loader_path/`, `@executable_path/`); in the absolute style,
/// also `@rpath/` names, keeping only loader- and executable-relative ones.
pub open spec fn install_name_needs_fix(style: RpathStyle, name: Seq<char>) -> bool {
    let build_path = contains(name, "/opt/pm/build"@) || contains(name, "/private/"@);
    match style {
        RpathStyle::Modern => !(starts_with(name, "@rpath/"@) || starts_with(name, "@loader_path/"@)
            || starts_with(name, "@executable_path/"@)) && build_path,
        RpathStyle::Absolute => !(starts_with(name, "@loader_path/"@) || starts_with(name, "@executable_path/"@))
            && (starts_with(name, "@rpath/"@) || build_path),
    }
}

/// The RPATH entries, other than `lib_path`, that contain a build path.
pub open spec fn bad_rpaths(entries: Seq<Seq<char>>, lib_path: Seq<char>, build_paths: Seq<Seq<char>>) -> Seq<Seq<char>>
    decreases entries.len(),
{
    if entries.len() == 0 {
        seq![]
    } else {
        let prev = bad_rpaths(entries.drop_last(), lib_path, build_paths);
        let e = entries.last();
        if e != lib_path && contains_any(e, build_paths) {
            prev.push(e)
        } else {
            prev
        }
    }
}

/// Some of `paths` occurs in `s`.
pub open spec fn contains_any(s: Seq<char>, paths: Seq<Seq<char>>) -> bool {
    exists|j: int| 0 <= j < paths.len() && contains(s, #[trigger] paths[j])
}

/// Some dependency is referenced through `@rpath/`.
pub open spec fn uses_rpath(deps: Seq<Seq<char>>) -> bool {
    exists|j: int| 0 <= j < deps.len() && contains(#[trigger] deps[j], "@rpath/"@)
}

/// Each `@rpath/<name>` dependency paired with `<lib_path>/<name>`.
pub open spec fn dependency_fixes(deps: Seq<Seq<char>>, lib_path: Seq<char>) -> Seq<(Seq<char>, Seq<char>)>
    decreases deps.len(),
{
    if deps.len() == 0 {
        seq![]
    } else {
        let prev = dependency_fixes(deps.drop_last(), lib_path);
        let d = deps.last();
        if starts_with(d, "@rpath/"@) {
            prev.push((d, lib_path + "/"@ + d.skip(7)))
        } else {
            prev
        }
    }
}

proof fn lemma_uses_rpath_push(s: Seq<Seq<char>>, x: Seq<char>)
    ensures
        uses_rpath(s.push(x)) == (uses_rpath(s) || contains(x, "@rpath/"@)),
{
    if uses_rpath(s) {
        let i = choose|i: int| 0 <= i < s.len() && contains(#[trigger] s[i], "@rpath/"@);
        assert(s.push(x)[i] == s[i]);
    }
    if uses_rpath(s.push(x)) {
        let i = choose|i: int| 0 <= i < s.len() + 1 && contains(#[trigger] s.push(x)[i], "@rpath/"@);
        if i < s.len() {
            assert(s[i] == s.push(x)[i]);
        }
    }
    if contains(x, "@rpath/"@) {
        assert(s.push(x)[s.len() as int] == x);
    }
}

/// Whether any of the build paths occurs in `s`.
fn any_contained(s: &[char], build_paths: &Vec<String>) -> (r: bool)
    ensures
        r == contains_any(s@, string_views(build_paths@)),
{
    let ghost bps = string_views(build_paths@);
    for i in 0..build_paths.len()
        invariant
            bps == string_views(build_paths@),
            forall|j: int| 0 <= j < i ==> !contains(s@, #[trigger] bps[j]),
    {
        if contains_str(s, build_paths[i].as_str()) {
            assert(bps[i as int] == build_paths@[i as int]@);
            assert(contains(s@, bps[i as int]));
            return true;
        }
    }
    false
}

/// The install name a dylib gets: `<lib_path>/<file name>` (an empty name
/// where the path has none).
pub fn new_install_name(lib_path: &str, path: &str) -> (r: String)
    ensures
        r@ == lib_path@ + "/"@ + match file_name_of(path@) {
            Some(n) => n,
            None => Seq::empty(),
        },
{
    let mut v = to_chars(lib_path);
    v.push('/');
    proof {
        reveal_strlit("/");
    }
    match file_name(path) {
        Some(n) => push_all(&mut v, n.as_slice()),
        None => {},
    }
    from_chars(v.as_slice())
}

/// The message for a failed install-name change: a headerpad error (the new
/// load commands do not fit) is marked for the fallback; others name the tool.
pub fn install_name_error(path: &str, error: &str) -> (r: String)
    ensures
        r@ == if contains(error@, "larger updated load commands do not fit"@) {
            "HEADERPAD_ERROR: "@ + path@
        } else {
            "install_name_tool failed on "@ + path@ + ": "@ + error@
        },
{
    if contains_str(to_chars(error).as_slice(), "larger updated load commands do not fit") {
        concat("HEADERPAD_ERROR: ", path)
    } else {
        let a = concat("install_name_tool failed on ", path);
        let b = concat(a.as_str(), ": ");
        concat(b.as_str(), error)
    }
}

/// Whether a failure message marks a headerpad error.
pub fn is_headerpad_error(msg: &str) -> (r: bool)
    ensures
        r == starts_with(msg@, "HEADERPAD_ERROR:"@),
{
    starts_with_str(to_chars(msg).as_slice(), "HEADERPAD_ERROR:")
}

/// `"s"` after a count above one.
pub open spec fn plural(n: nat) -> Seq<char> {
    if n > 1 {
        "s"@
    } else {
        seq![]
    }
}

/// The summary the patcher adds as a warning: the adjusted RPATHs and the
/// updated install names, each where there were any, joined by `, `.
pub open spec fn fix_summary_spec(rpath_fixes: nat, install_name_fixes: nat) -> Option<Seq<char>> {
    let a = "adjusted "@ + decimal(rpath_fixes) + " RPATH"@ + plural(rpath_fixes);
    let b = "updated "@ + decimal(install_name_fixes) + " install name"@ + plural(install_name_fixes);
    if rpath_fixes > 0 && install_name_fixes > 0 {
        Some(a + ", "@ + b)
    } else if rpath_fixes > 0 {
        Some(a)
    } else if install_name_fixes > 0 {
        Some(b)
    } else {
        None
    }
}

/// The summary of the fixes made, if any.
pub fn fix_summary(rpath_fixes: usize, install_name_fixes: usize) -> (r: Option<String>)
    ensures
        match r {
            Some(s) => fix_summary_spec(rpath_fixes as nat, install_name_fixes as nat) == Some(s@),
            None => fix_summary_spec(rpath_fixes as nat, install_name_fixes as nat) is None,
        },
{
    let a = {
        let x = concat("adjusted ", usize_to_string(rpath_fixes).as_str());
        let y = concat(x.as_str(), " RPATH");
        if rpath_fixes > 1 {
            concat(y.as_str(), "s")
        } else {
            y
        }
    };
    let b = {
        let x = concat("updated ", usize_to_string(install_name_fixes).as_str());
        let y = concat(x.as_str(), " install name");
        if install_name_fixes > 1 {
            concat(y.as_str(), "s")
        } else {
            y
        }
    };
    proof {
        reveal_strlit("s");
    }
    assert(a@ == "adjusted "@ + decimal(rpath_fixes as nat) + " RPATH"@ + plural(rpath_fixes as nat));
    assert(b@ == "updated "@ + decimal(install_name_fixes as nat) + " install name"@ + plural(install_name_fixes as nat));
    if rpath_fixes > 0 && install_name_fixes > 0 {
        let x = concat(a.as_str(), ", ");
        Some(concat(x.as_str(), b.as_str()))
    } else if rpath_fixes > 0 {
        Some(a)
    } else if install_name_fixes > 0 {
        Some(b)
    } else {
        None
    }
}

/// What the patcher gathered over the files it processed.
#[derive(Debug)]
pub struct RpathTally {
    /// Files it changed
    pub changed: Vec<String>,
    /// Files whose RPATHs it adjusted
    pub rpath_fixes: usize,
    /// Files whose install names it updated
    pub install_name_fixes: usize,
    /// Dylibs whose install names had no room to be rewritten
    pub headerpad_errors: Vec<String>,
    /// Warnings for the report
    pub warnings: Vec<String>,
}

impl RpathTally {
    /// Nothing gathered yet.
    pub fn new() -> (r: Self)
        ensures
            r.changed@.len() == 0,
            r.rpath_fixes == 0,
            r.install_name_fixes == 0,
            r.headerpad_errors@.len() == 0,
            r.warnings@.len() == 0,
    {
        RpathTally {
            changed: Vec::new(),
            rpath_fixes: 0,
            install_name_fixes: 0,
            headerpad_errors: Vec::new(),
            warnings: Vec::new(),
        }
    }

    /// Takes in the outcome of one file: whether its RPATHs changed, whether
    /// its install name was fixed, and the error message of a failed fix. A
    /// headerpad error puts the file aside for the fallback; another error
    /// becomes a warning.
    pub fn record(&mut self, path: &str, rpath_changed: bool, name_fixed: bool, error: Option<&str>)
        requires
            old(self).rpath_fixes < usize::MAX,
            old(self).install_name_fixes < usize::MAX,
        ensures
            final(self).rpath_fixes == old(self).rpath_fixes + (if rpath_changed { 1int } else { 0int }),
            final(self).install_name_fixes == old(self).install_name_fixes + (if name_fixed { 1int } else { 0int }),
            string_views(final(self).changed@) == if rpath_changed || name_fixed {
                string_views(old(self).changed@).push(path@)
            } else {
                string_views(old(self).changed@)
            },
            string_views(final(self).headerpad_errors@) == match error {
                Some(m) => if starts_with(m@, "HEADERPAD_ERROR:"@) {
                    string_views(old(self).headerpad_errors@).push(path@)
                } else {
                    string_views(old(self).headerpad_errors@)
                },
                None => string_views(old(self).headerpad_errors@),
            },
            string_views(final(self).warnings@) == match error {
                Some(m) => if starts_with(m@, "HEADERPAD_ERROR:"@) {
                    string_views(old(self).warnings@)
                } else {
                    string_views(old(self).warnings@).push(path@ + ": install name fix failed"@)
                },
                None => string_views(old(self).warnings@),
            },
    {
        match error {
            Some(m) => {
                if is_headerpad_error(m) {
                    let ghost prev = self.headerpad_errors@;
                    self.headerpad_errors.push(owned(path));
                    assert(string_views(self.headerpad_errors@) =~= string_views(prev).push(path@));
                } else {
                    let ghost prev = self.warnings@;
                    self.warnings.push(concat(path, ": install name fix failed"));
                    assert(string_views(self.warnings@) =~= string_views(prev).push(path@ + ": install name fix failed"@));
                }
            },
            None => {},
        }
        if rpath_changed {
            self.rpath_fixes = self.rpath_fixes + 1;
        }
        if name_fixed {
            self.install_name_fixes = self.install_name_fixes + 1;
        }
        if rpath_changed || name_fixed {
            let ghost prev = self.changed@;
            self.changed.push(owned(path));
            assert(string_views(self.changed@) =~= string_views(prev).push(path@));
        }
    }
}

/// The warning that opens the fallback for dylibs with headerpad errors.
pub fn headerpad_fallback_warning(count: usize) -> (r: String)
    ensures
        r@ == "Found "@ + decimal(count as nat) + " dylibs with headerpad errors; attempting fallback reference updates"@,
{
    let a = concat("Found ", usize_to_string(count).as_str());
    concat(a.as_str(), " dylibs with headerpad errors; attempting fallback reference updates")
}

/// The warning of a dylib whose references could not be updated.
pub fn reference_update_warning(file_name: &str, error: &str) -> (r: String)
    ensures
        r@ == "Failed to update references for "@ + file_name@ + ": "@ + error@,
{
    let a = concat("Failed to update references for ", file_name);
    let b = concat(a.as_str(), ": ");
    concat(b.as_str(), error)
}

} // verus!
