//! Fixes *.pc and *Config.cmake so downstream builds never see build paths.
use crate::paths::{extension, extension_of, file_name, file_name_of};
use crate::text::{concat, contains, contains_str, ends_with, ends_with_str, eq_str, replace_all, replace_str, to_chars};
use vstd::prelude::*;

verus! {

/// Rewrites build paths in pkg-config and CMake package files.
pub struct PkgConfigPatcher;

/// A pkg-config file (`.pc`) or a CMake package file (`*Config.cmake`).
pub open spec fn is_package_file(p: Seq<char>) -> bool {
    extension_of(p) == Some("pc"@) || (file_name_of(p) matches Some(n) && ends_with(n, "Config.cmake"@))
}

/// One step of the rewrite: where `from` occurs, every occurrence becomes `to`.
pub open spec fn rewrite_step(text: Seq<char>, changed: bool, from: Seq<char>, to: Seq<char>) -> (Seq<char>, bool) {
    if contains(text, from) {
        (replace_all(text, from, to), true)
    } else {
        (text, changed)
    }
}

/// The text with build paths pointed at the live prefix, most specific
/// first: `<prefix>/src`, the prefix, then `/opt/pm/build`; and whether any
/// was found.
pub open spec fn rewritten(text: Seq<char>, build_prefix: Seq<char>) -> (Seq<char>, bool) {
    let a = rewrite_step(text, false, build_prefix + "/src"@, "/opt/pm/live"@);
    let b = rewrite_step(a.0, a.1, build_prefix, "/opt/pm/live"@);
    rewrite_step(b.0, b.1, "/opt/pm/build"@, "/opt/pm/live"@)
}

impl PkgConfigPatcher {
    /// Whether a staged file is one this patcher rewrites.
    pub fn is_package_file(path: &str) -> (r: bool)
        ensures
            r == is_package_file(path@),
    {
        let by_ext = match extension(path) {
            Some(e) => eq_str(e.as_slice(), "pc"),
            None => false,
        };
        if by_ext {
            return true;
        }
        match file_name(path) {
            Some(n) => ends_with_str(n.as_slice(), "Config.cmake"),
            None => false,
        }
    }

    /// Rewrites the build paths in a package file's text: the new text
    /// where any was found, `None` where the file stays as it is.
    pub fn rewrite(text: &str, build_prefix: &str) -> (r: Option<String>)
        ensures
            match r {
                Some(t) => rewritten(text@, build_prefix@).1 && t@ == rewritten(text@, build_prefix@).0,
                None => !rewritten(text@, build_prefix@).1,
            },
    {
        let actual = "/opt/pm/live";
        let src = concat(build_prefix, "/src");
        let mut result = crate::text::owned(text);
        let mut modified = false;
        if contains_str(to_chars(result.as_str()).as_slice(), src.as_str()) {
            result = replace_str(result.as_str(), src.as_str(), actual);
            modified = true;
        }
        if contains_str(to_chars(result.as_str()).as_slice(), build_prefix) {
            result = replace_str(result.as_str(), build_prefix, actual);
            modified = true;
        }
        if contains_str(to_chars(result.as_str()).as_slice(), "/opt/pm/build") {
            result = replace_str(result.as_str(), "/opt/pm/build", actual);
            modified = true;
        }
        if modified {
            Some(result)
        } else {
            None
        }
    }
}

/// No occurrence of the build root can straddle the live prefix that
/// replaces it.
proof fn lemma_live_cannot_form_build_root()
    ensures
        forall|i: int| 0 <= i < "/opt/pm/live"@.len() ==> #[trigger] crate::text::clash("/opt/pm/live"@.skip(i), "/opt/pm/build"@),
        forall|j: int| 1 <= j < "/opt/pm/build"@.len() ==> #[trigger] crate::text::clash("/opt/pm/build"@.skip(j), "/opt/pm/live"@),
{
    reveal_strlit("/opt/pm/live");
    reveal_strlit("/opt/pm/build");
    let live = "/opt/pm/live"@;
    let base = "/opt/pm/build"@;
    assert forall|i: int| 0 <= i < live.len() implies #[trigger] crate::text::clash(live.skip(i), base) by {
        let k: int = if i == 0 { 8 } else if i == 4 || i == 7 { 1 } else { 0 };
        assert(live.skip(i)[k] != base[k]);
    }
    assert forall|j: int| 1 <= j < base.len() implies #[trigger] crate::text::clash(base.skip(j), live) by {
        let k: int = if j == 4 || j == 7 { 1 } else { 0 };
        assert(base.skip(j)[k] != live[k]);
    }
}

/// After the rewrite no text holds the build root; where the build prefix
/// lies under the build root, it holds neither the prefix nor its `src`
/// directory.
pub proof fn lemma_rewrite_relocates(text: Seq<char>, build_prefix: Seq<char>)
    ensures
        !contains(rewritten(text, build_prefix).0, "/opt/pm/build"@),
        crate::text::starts_with(build_prefix, "/opt/pm/build"@) ==> !contains(rewritten(text, build_prefix).0, build_prefix)
            && !contains(rewritten(text, build_prefix).0, build_prefix + "/src"@),
{
    let a = rewrite_step(text, false, build_prefix + "/src"@, "/opt/pm/live"@);
    let b = rewrite_step(a.0, a.1, build_prefix, "/opt/pm/live"@);
    let c = rewritten(text, build_prefix).0;
    let base = "/opt/pm/build"@;
    if contains(b.0, base) {
        lemma_live_cannot_form_build_root();
        reveal_strlit("/opt/pm/build");
        crate::text::lemma_replace_removes(b.0, base, "/opt/pm/live"@);
    }
    if crate::text::starts_with(build_prefix, base) {
        if contains(c, build_prefix) {
            let i = choose|i: int| crate::text::occurs_at(c, build_prefix, i);
            assert(crate::text::occurs_at(c, base, i)) by {
                assert(c.subrange(i, i + base.len()) =~= c.subrange(i, i + build_prefix.len()).take(base.len() as int));
            }
        }
        if contains(c, build_prefix + "/src"@) {
            let q = build_prefix + "/src"@;
            let i = choose|i: int| crate::text::occurs_at(c, q, i);
            assert(crate::text::occurs_at(c, base, i)) by {
                assert(q.take(base.len() as int) =~= build_prefix.take(base.len() as int));
                assert(c.subrange(i, i + base.len()) =~= c.subrange(i, i + q.len()).take(base.len() as int));
            }
        }
    }
}

} // verus!
