//! The operations a recipe calls while it obtains and builds its source:
//! where downloads and clones go, which archives are unpacked and how, and
//! what the permission and RPATH fixes report.
use crate::artifact_qa::patchers::rpath::RpathStyle;
use crate::environment::types::{BuildCommandResult, IsolationLevel};
use crate::errors::BuildError;
use crate::paths::{extension_of, join, parent_of, path_join};
use crate::string_map::StringMap;
use crate::text::{
    clone_strings, concat, copy_bytes, decimal, ends_with, ends_with_str, eq_str, from_chars, join_strings, join_with, owned,
    split_char, split_on, string_views, to_chars, u64_to_string, usize_to_string,
};
use std::io::Read;
use vstd::prelude::*;

verus! {

/// The kinds of archive a download can be.
#[derive(Clone, Copy, Debug, PartialEq, Eq, Structural)]
pub enum ArchiveKind {
    TarGz,
    TarBz2,
    TarXz,
    Zip,
}

/// The archive kind a download is unpacked as: by its extension where it has
/// one, else by the magic number of its first bytes (of which there must be
/// four); none for anything else.
pub open spec fn archive_kind_of(path: Seq<char>, head: Seq<u8>) -> Option<ArchiveKind> {
    match extension_of(path) {
        Some(e) => if e == "gz"@ || e == "tgz"@ {
            Some(ArchiveKind::TarGz)
        } else if e == "bz2"@ {
            Some(ArchiveKind::TarBz2)
        } else if e == "xz"@ {
            Some(ArchiveKind::TarXz)
        } else if e == "zip"@ {
            Some(ArchiveKind::Zip)
        } else {
            None
        },
        None => if head.len() >= 4 {
            if head[0] == 0x1f && head[1] == 0x8b {
                Some(ArchiveKind::TarGz)
            } else if head[0] == 0x50 && head[1] == 0x4b {
                Some(ArchiveKind::Zip)
            } else if head[0] == 0x42 && head[1] == 0x5a {
                Some(ArchiveKind::TarBz2)
            } else {
                None
            }
        } else {
            None
        },
    }
}

/// How to unpack a download, from its path and its first bytes.
pub fn archive_kind(path: &str, head: &[u8]) -> (r: Option<ArchiveKind>)
    ensures
        r == archive_kind_of(path@, head@),
{
    match crate::paths::extension(path) {
        Some(e) => {
            if eq_str(e.as_slice(), "gz") || eq_str(e.as_slice(), "tgz") {
                Some(ArchiveKind::TarGz)
            } else if eq_str(e.as_slice(), "bz2") {
                Some(ArchiveKind::TarBz2)
            } else if eq_str(e.as_slice(), "xz") {
                Some(ArchiveKind::TarXz)
            } else if eq_str(e.as_slice(), "zip") {
                Some(ArchiveKind::Zip)
            } else {
                None
            }
        },
        None => {
            if head.len() >= 4 {
                if head[0] == 0x1f && head[1] == 0x8b {
                    Some(ArchiveKind::TarGz)
                } else if head[0] == 0x50 && head[1] == 0x4b {
                    Some(ArchiveKind::Zip)
                } else if head[0] == 0x42 && head[1] == 0x5a {
                    Some(ArchiveKind::TarBz2)
                } else {
                    None
                }
            } else {
                None
            }
        },
    }
}

/// The last `/`-separated piece of a URL.
pub open spec fn url_file_name(url: Seq<char>) -> Seq<char> {
    split_char(url, '/').last()
}

/// The name of a repository: the last piece of its URL, without `.git`.
pub open spec fn repo_name_of(url: Seq<char>) -> Seq<char> {
    let last = url_file_name(url);
    if ends_with(last, ".git"@) {
        last.take(last.len() - 4)
    } else {
        last
    }
}

/// The arguments of the shallow clone of a repository at a reference;
/// `HEAD` takes no `--branch`.
pub open spec fn clone_args_of(url: Seq<char>, ref_: Seq<char>, dest: Seq<char>) -> Seq<Seq<char>> {
    if ref_ == "HEAD"@ {
        seq!["clone"@, "--depth"@, "1"@, url, dest]
    } else {
        seq!["clone"@, "--depth"@, "1"@, "--branch"@, ref_, url, dest]
    }
}

/// Where archives unpack: the working directory, or the named directory
/// beside it (inside it where it has no parent).
pub open spec fn extraction_base_of(working_dir: Seq<char>, extract_to: Option<Seq<char>>) -> Seq<char> {
    match extract_to {
        Some(t) => match parent_of(working_dir) {
            Some(p) => path_join(p, t),
            None => path_join(working_dir, t),
        },
        None => working_dir,
    }
}

/// Whether a zip archive's entries all sit in one top-level directory: the
/// entries (as their path components and whether they are directories)
/// name exactly one top-level directory and no top-level file.
pub open spec fn zip_single_root(entries: Seq<(Seq<Seq<char>>, bool)>) -> bool {
    let tops = Set::new(|d: Seq<char>| exists|i: int| 0 <= i < entries.len() && entries[i].0.len() == 1 && entries[i].1
        && #[trigger] entries[i].0[0] == d);
    let root_file = exists|i: int| 0 <= i < entries.len() && (#[trigger] entries[i]).0.len() == 1 && !entries[i].1;
    !root_file && exists|d: Seq<char>| tops == set![d]
}

/// Where a zip entry goes: the base joined with its components, with the
/// first dropped where the archive has a single root; none for the root
/// entry itself when it is dropped.
pub open spec fn zip_entry_target_of(base: Seq<char>, components: Seq<Seq<char>>, strip: bool) -> Option<Seq<char>> {
    if !strip {
        Some(join_all(base, components))
    } else if components.len() > 1 {
        Some(join_all(base, components.skip(1)))
    } else {
        None
    }
}

/// Where a tar entry goes: the base joined with its components after the
/// first; none for entries with one component or none.
pub open spec fn tar_entry_target_of(base: Seq<char>, components: Seq<Seq<char>>) -> Option<Seq<char>> {
    if components.len() <= 1 {
        None
    } else {
        Some(join_all(base, components.skip(1)))
    }
}

/// A base joined with each component in turn.
pub open spec fn join_all(base: Seq<char>, components: Seq<Seq<char>>) -> Seq<char>
    decreases components.len(),
{
    if components.len() == 0 {
        base
    } else {
        path_join(join_all(base, components.drop_last()), components.last())
    }
}

/// The mode that makes a file executable by those who can read it; none
/// where some execute bit is already set.
pub open spec fn executable_mode_of(mode: u32) -> Option<u32> {
    if mode & 0o111 != 0 {
        None
    } else {
        Some(mode | ((mode & 0o444) >> 2))
    }
}

/// Adding execute bits where there are read bits keeps every other bit and
/// gives execute exactly to whoever may read.
pub proof fn lemma_executable_mode_mirrors_read(mode: u32)
    requires
        mode & 0o111 == 0,
    ensures
        executable_mode_of(mode) matches Some(m) && m & 0o111 == (mode & 0o444) >> 2 && m & !0o111u32 == mode,
{
    let m = mode | ((mode & 0o444) >> 2);
    assert(m & 0o111 == (mode & 0o444) >> 2) by (bit_vector)
        requires
            mode & 0o111 == 0,
            m == mode | ((mode & 0o444) >> 2),
    ;
    assert(m & !0o111u32 == mode) by (bit_vector)
        requires
            mode & 0o111 == 0,
            m == mode | ((mode & 0o444) >> 2),
    ;
}

/// The mode that makes a file executable by those who can read it.
pub fn executable_mode(mode: u32) -> (r: Option<u32>)
    ensures
        r == executable_mode_of(mode),
{
    if mode & 0o111 != 0 {
        None
    } else {
        Some(mode | ((mode & 0o444) >> 2))
    }
}

/// The name of an RPATH style in reports.
pub open spec fn rpath_style_name(style: RpathStyle) -> Seq<char> {
    match style {
        RpathStyle::Modern => "Modern"@,
        RpathStyle::Absolute => "Absolute"@,
    }
}

/// The result of a run that succeeds where nothing went wrong, with the
/// errors, one per line, as its error output.
pub open spec fn report_ok(r: BuildCommandResult, errors: Seq<Seq<char>>, stdout: Seq<char>) -> bool {
    &&& r.success == (errors.len() == 0)
    &&& r.exit_code == Some(if errors.len() == 0 { 0i32 } else { 1i32 })
    &&& r.stdout@ == stdout
    &&& r.stderr@ == (if errors.len() == 0 { Seq::<char>::empty() } else { join_with(errors, "\n"@) })
}

fn report(errors: &Vec<String>, stdout: String) -> (r: BuildCommandResult)
    ensures
        report_ok(r, string_views(errors@), stdout@),
{
    let success = errors.len() == 0;
    let stderr = if success {
        let e: Vec<char> = Vec::new();
        from_chars(e.as_slice())
    } else {
        join_strings(errors, "\n")
    };
    assert(string_views(errors@).len() == errors@.len());
    let code: i32 = if success { 0 } else { 1 };
    BuildCommandResult { success, exit_code: Some(code), stdout, stderr }
}

/// The report of an RPATH patching run.
pub fn patch_rpaths_report(patched: usize, style: RpathStyle, errors: &Vec<String>) -> (r: BuildCommandResult)
    ensures
        report_ok(r, string_views(errors@), "Patched "@ + decimal(patched as nat) + " files with "@ + rpath_style_name(style) + " style"@),
{
    let a = concat("Patched ", usize_to_string(patched).as_str());
    let b = concat(a.as_str(), " files with ");
    let c = concat(b.as_str(), match style {
        RpathStyle::Modern => "Modern",
        RpathStyle::Absolute => "Absolute",
    });
    report(errors, concat(c.as_str(), " style"))
}

/// The report of a permission fixing run.
pub fn fix_permissions_report(fixed: usize, errors: &Vec<String>) -> (r: BuildCommandResult)
    ensures
        report_ok(
            r,
            string_views(errors@),
            if fixed > 0 {
                "Fixed permissions on "@ + decimal(fixed as nat) + " files"@
            } else {
                "No files needed permission fixes"@
            },
        ),
{
    let stdout = if fixed > 0 {
        let a = concat("Fixed permissions on ", usize_to_string(fixed).as_str());
        concat(a.as_str(), " files")
    } else {
        owned("No files needed permission fixes")
    };
    report(errors, stdout)
}

/// The message of a file whose permissions could not be fixed.
pub fn fix_failure_message(path: &str, error: &str) -> (r: String)
    ensures
        r@ == "Failed to fix "@ + path@ + ": "@ + error@,
{
    let a = concat("Failed to fix ", path);
    let b = concat(a.as_str(), ": ");
    concat(b.as_str(), error)
}

/// Where a download or clone of a recipe goes, or where it went already.
#[derive(Debug)]
pub enum FetchPlan {
    /// Already downloaded or cloned to this path
    Cached(String),
    /// Download or clone to this path
    Fetch(String),
}

/// The state of a recipe's source operations.
#[derive(Debug)]
pub struct BuilderApi {
    /// Where the source is worked on
    pub working_dir: String,
    /// Downloads and clones so far, by URL
    pub downloads: StringMap,
    /// Whether the build may use the network
    pub allow_network: bool,
    /// Whether an SBOM is made
    pub auto_sbom: bool,
    /// Patterns the SBOM leaves out
    pub sbom_excludes: Vec<String>,
    /// Whether the recipe asked to install the package
    pub install_requested: bool,
    /// Metadata recorded by the build
    pub build_metadata: StringMap,
    /// The isolation level the recipe set, if it did
    pub explicit_isolation_level: Option<IsolationLevel>,
}

impl BuilderApi {
    /// Its maps are well formed.
    pub open spec fn wf(&self) -> bool {
        self.downloads.wf() && self.build_metadata.wf()
    }

    /// New source operations in a working directory: no downloads, no
    /// network, an SBOM without debug symbols and static or libtool archives.
    pub fn new(working_dir: String) -> (r: Self)
        ensures
            r.wf(),
            r.working_dir == working_dir,
            r.downloads@ == Map::<Seq<char>, Seq<char>>::empty(),
            !r.allow_network,
            r.auto_sbom,
            string_views(r.sbom_excludes@) == seq!["./*.dSYM"@, "./*.pdb"@, "./*.a"@, "./*.la"@],
            !r.install_requested,
            r.build_metadata@ == Map::<Seq<char>, Seq<char>>::empty(),
            r.explicit_isolation_level is None,
    {
        let mut ex: Vec<String> = Vec::new();
        ex.push(owned("./*.dSYM"));
        ex.push(owned("./*.pdb"));
        ex.push(owned("./*.a"));
        ex.push(owned("./*.la"));
        assert(string_views(ex@) =~= seq!["./*.dSYM"@, "./*.pdb"@, "./*.a"@, "./*.la"@]);
        BuilderApi {
            working_dir,
            downloads: StringMap::new(),
            allow_network: false,
            auto_sbom: true,
            sbom_excludes: ex,
            install_requested: false,
            build_metadata: StringMap::new(),
            explicit_isolation_level: None,
        }
    }

    /// Allows or forbids the network.
    pub fn allow_network(&mut self, allow: bool)
        ensures
            *final(self) == (Self { allow_network: allow, ..*old(self) }),
    {
        self.allow_network = allow;
    }

    /// Moves the work to another directory.
    pub fn set_working_dir(&mut self, dir: String)
        ensures
            *final(self) == (Self { working_dir: dir, ..*old(self) }),
    {
        self.working_dir = dir;
    }

    /// Where a download of `url` goes: the path it went to before, else its
    /// file name in the working directory.
    pub fn fetch_target(&self, url: &str) -> (r: FetchPlan)
        requires
            self.wf(),
        ensures
            match r {
                FetchPlan::Cached(p) => self.downloads@.contains_key(url@) && p@ == self.downloads@[url@],
                FetchPlan::Fetch(p) => !self.downloads@.contains_key(url@)
                    && p@ == path_join(self.working_dir@, url_file_name(url@)),
            },
    {
        match self.downloads.get(url) {
            Some(p) => FetchPlan::Cached(p.clone()),
            None => {
                let pieces = split_on(to_chars(url).as_slice(), '/');
                assert(views_last(pieces@) == url_file_name(url@));
                let name = from_chars(pieces[pieces.len() - 1].as_slice());
                FetchPlan::Fetch(join(self.working_dir.as_str(), name.as_str()))
            },
        }
    }

    /// Where a clone of `url` goes: the path it went to before, else the
    /// repository's name in the working directory.
    pub fn clone_target(&self, url: &str) -> (r: FetchPlan)
        requires
            self.wf(),
        ensures
            match r {
                FetchPlan::Cached(p) => self.downloads@.contains_key(url@) && p@ == self.downloads@[url@],
                FetchPlan::Fetch(p) => !self.downloads@.contains_key(url@)
                    && p@ == path_join(self.working_dir@, repo_name_of(url@)),
            },
    {
        match self.downloads.get(url) {
            Some(p) => FetchPlan::Cached(p.clone()),
            None => {
                let name = repo_name(url);
                FetchPlan::Fetch(join(self.working_dir.as_str(), name.as_str()))
            },
        }
    }

    /// Records a finished download.
    pub fn record_download(&mut self, url: &str, path: String)
        requires
            old(self).wf(),
        ensures
            final(self).wf(),
            final(self).downloads@ == old(self).downloads@.insert(url@, path@),
            final(self).working_dir == old(self).working_dir,
            final(self).build_metadata == old(self).build_metadata,
    {
        self.downloads.insert(owned(url), path);
    }

    /// Records a finished clone, and works in it from now on.
    pub fn record_clone(&mut self, url: &str, path: String)
        requires
            old(self).wf(),
        ensures
            final(self).wf(),
            final(self).downloads@ == old(self).downloads@.insert(url@, path@),
            final(self).working_dir@ == path@,
            final(self).build_metadata == old(self).build_metadata,
    {
        let p = path.clone();
        self.downloads.insert(owned(url), path);
        self.working_dir = p;
    }

    /// Where archives unpack.
    pub fn extraction_base(&self, extract_to: Option<&str>) -> (r: String)
        ensures
            r@ == extraction_base_of(
                self.working_dir@,
                match extract_to {
                    Some(t) => Some(t@),
                    None => None,
                },
            ),
    {
        match extract_to {
            Some(t) => match crate::paths::parent(self.working_dir.as_str()) {
                Some(p) => join(p.as_str(), t),
                None => join(self.working_dir.as_str(), t),
            },
            None => self.working_dir.clone(),
        }
    }

    /// Records that the package should be installed after it is built.
    pub fn install(&mut self) -> (r: BuildCommandResult)
        ensures
            final(self).install_requested,
            *final(self) == (Self { install_requested: true, ..*old(self) }),
            r.success,
            r.exit_code == Some(0i32),
            r.stdout@ == "Installation request recorded"@,
            r.stderr@ == Seq::<char>::empty(),
    {
        self.install_requested = true;
        proof {
            reveal_strlit("");
        }
        BuildCommandResult {
            success: true,
            exit_code: Some(0),
            stdout: owned("Installation request recorded"),
            stderr: owned(""),
        }
    }

    /// Turns SBOM generation on or off.
    pub fn auto_sbom(&mut self, enable: bool)
        ensures
            *final(self) == (Self { auto_sbom: enable, ..*old(self) }),
    {
        self.auto_sbom = enable;
    }

    /// Sets what the SBOM leaves out.
    pub fn sbom_excludes(&mut self, patterns: Vec<String>)
        ensures
            *final(self) == (Self { sbom_excludes: patterns, ..*old(self) }),
    {
        self.sbom_excludes = patterns;
    }

    /// Whether an SBOM is made, and what it leaves out.
    pub fn sbom_config(&self) -> (r: (bool, &[String]))
        ensures
            r.0 == self.auto_sbom,
            r.1@ == self.sbom_excludes@,
    {
        (self.auto_sbom, self.sbom_excludes.as_slice())
    }

    /// Whether the recipe asked to install the package.
    pub fn is_install_requested(&self) -> (r: bool)
        ensures
            r == self.install_requested,
    {
        self.install_requested
    }

    /// Sets the isolation level.
    pub fn set_isolation(&mut self, level: IsolationLevel)
        ensures
            *final(self) == (Self { explicit_isolation_level: Some(level), ..*old(self) }),
    {
        self.explicit_isolation_level = Some(level);
    }

    /// The isolation level the recipe set, if it did.
    pub fn explicit_isolation_level(&self) -> (r: Option<IsolationLevel>)
        ensures
            r == self.explicit_isolation_level,
    {
        self.explicit_isolation_level
    }

    /// Whether the recipe set the isolation level.
    pub fn is_isolation_explicitly_set(&self) -> (r: bool)
        ensures
            r == self.explicit_isolation_level.is_some(),
    {
        self.explicit_isolation_level.is_some()
    }

    /// Takes the recorded metadata, leaving none.
    pub fn take_build_metadata(&mut self) -> (r: StringMap)
        requires
            old(self).wf(),
        ensures
            r == old(self).build_metadata,
            final(self).wf(),
            final(self).build_metadata@ == Map::<Seq<char>, Seq<char>>::empty(),
            final(self).downloads == old(self).downloads,
    {
        let mut m = StringMap::new();
        std::mem::swap(&mut m, &mut self.build_metadata);
        m
    }
}

/// The last view of a nonempty sequence of character vectors.
pub open spec fn views_last(v: Seq<Vec<char>>) -> Seq<char> {
    v.last()@
}

/// The name of a repository, from its URL.
pub fn repo_name(url: &str) -> (r: String)
    ensures
        r@ == repo_name_of(url@),
{
    let pieces = split_on(to_chars(url).as_slice(), '/');
    assert(crate::text::views(pieces@).last() == pieces@[pieces@.len() - 1]@);
    let last = &pieces[pieces.len() - 1];
    if ends_with_str(last.as_slice(), ".git") {
        proof {
            reveal_strlit(".git");
        }
        let n = last.len() - 4;
        from_chars(crate::text::take_chars(last.as_slice(), n).as_slice())
    } else {
        from_chars(last.as_slice())
    }
}

/// The arguments of the clone of a repository at a reference into a directory.
pub fn clone_args(url: &str, ref_: &str, dest: &str) -> (r: Vec<String>)
    ensures
        string_views(r@) == clone_args_of(url@, ref_@, dest@),
{
    let mut r: Vec<String> = Vec::new();
    r.push(owned("clone"));
    r.push(owned("--depth"));
    r.push(owned("1"));
    if !eq_str(to_chars(ref_).as_slice(), "HEAD") {
        r.push(owned("--branch"));
        r.push(owned(ref_));
    }
    r.push(owned(url));
    r.push(owned(dest));
    assert(string_views(r@) =~= clone_args_of(url@, ref_@, dest@));
    r
}

/// The message of a failed clone.
pub fn clone_failure_message(url: &str, stderr: &str) -> (r: String)
    ensures
        r@ == "Failed to clone "@ + url@ + ": "@ + stderr@,
{
    let a = concat("Failed to clone ", url);
    let b = concat(a.as_str(), ": ");
    concat(b.as_str(), stderr)
}

fn join_components(base: &str, components: &Vec<String>, from: usize) -> (r: String)
    requires
        from <= components@.len(),
    ensures
        r@ == join_all(base@, string_views(components@).skip(from as int)),
{
    let mut acc = owned(base);
    let ghost cs = string_views(components@).skip(from as int);
    let mut i = from;
    while i < components.len()
        invariant
            from <= i <= components@.len(),
            cs == string_views(components@).skip(from as int),
            acc@ == join_all(base@, cs.take(i - from)),
        decreases components@.len() - i,
    {
        assert(cs.take(i + 1 - from).drop_last() =~= cs.take(i - from));
        assert(cs.take(i + 1 - from).last() == components@[i as int]@);
        acc = join(acc.as_str(), components[i].as_str());
        i = i + 1;
    }
    assert(cs.take(components@.len() - from) =~= cs);
    acc
}

/// Where a zip entry goes.
pub fn zip_entry_target(base: &str, components: &Vec<String>, strip: bool) -> (r: Option<String>)
    ensures
        match r {
            Some(t) => zip_entry_target_of(base@, string_views(components@), strip) == Some(t@),
            None => zip_entry_target_of(base@, string_views(components@), strip) is None,
        },
{
    if !strip {
        let t = join_components(base, components, 0);
        assert(string_views(components@).skip(0) =~= string_views(components@));
        Some(t)
    } else if components.len() > 1 {
        Some(join_components(base, components, 1))
    } else {
        None
    }
}

/// Where a tar entry goes.
pub fn tar_entry_target(base: &str, components: &Vec<String>) -> (r: Option<String>)
    ensures
        match r {
            Some(t) => tar_entry_target_of(base@, string_views(components@)) == Some(t@),
            None => tar_entry_target_of(base@, string_views(components@)) is None,
        },
{
    if components.len() <= 1 {
        None
    } else {
        Some(join_components(base, components, 1))
    }
}

/// Whether an entry is a top-level directory named `d`.
pub open spec fn is_top_dir(e: (Seq<Seq<char>>, bool), d: Seq<char>) -> bool {
    e.0.len() == 1 && e.1 && e.0[0] == d
}

/// Whether a zip archive has a single top-level directory, from its entries'
/// components and whether each is a directory.
pub fn zip_has_single_root(entries: &Vec<(Vec<String>, bool)>) -> (r: bool)
    ensures
        r == zip_single_root(entries@.map_values(|e: (Vec<String>, bool)| (string_views(e.0@), e.1))),
{
    let ghost es = entries@.map_values(|e: (Vec<String>, bool)| (string_views(e.0@), e.1));
    let mut tops: Vec<String> = Vec::new();
    let mut root_file = false;
    for i in 0..entries.len()
        invariant
            es == entries@.map_values(|e: (Vec<String>, bool)| (string_views(e.0@), e.1)),
            root_file == exists|k: int| 0 <= k < i && (#[trigger] es[k]).0.len() == 1 && !es[k].1,
            string_views(tops@).no_duplicates(),
            forall|d: Seq<char>| string_views(tops@).contains(d) <==> exists|k: int| 0 <= k < i && #[trigger] is_top_dir(es[k], d),
    {
        let ghost old_tops = string_views(tops@);
        let comps = &entries[i].0;
        assert(es[i as int].0 == string_views(comps@));
        assert(es[i as int].1 == entries@[i as int].1);
        if comps.len() == 1 && entries[i].1 {
            let name = &comps[0];
            assert(es[i as int].0[0] == name@);
            let mut seen = false;
            for j in 0..tops.len()
                invariant
                    seen == exists|k: int| 0 <= k < j && string_views(tops@)[k] == name@,
            {
                if tops[j] == *name {
                    assert(string_views(tops@)[j as int] == name@);
                    seen = true;
                }
            }
            if !seen {
                tops.push(name.clone());
                assert(string_views(tops@) =~= old_tops.push(name@));
                assert(string_views(tops@).no_duplicates()) by {
                    assert forall|x: int, y: int| 0 <= x < y < string_views(tops@).len() implies string_views(tops@)[x]
                        != string_views(tops@)[y] by {
                        if y == old_tops.len() {
                            assert(old_tops[x] != name@);
                        } else {
                            assert(old_tops[x] != old_tops[y]);
                        }
                    }
                }
            } else {
                proof {
                    let k = choose|k: int| 0 <= k < tops@.len() && string_views(tops@)[k] == name@;
                    assert(old_tops[k] == name@);
                    assert(old_tops.contains(name@));
                }
            }
            assert forall|d: Seq<char>| string_views(tops@).contains(d) <==> exists|k: int| 0 <= k < i + 1 && #[trigger] is_top_dir(es[k], d) by {
                if exists|k: int| 0 <= k < i + 1 && #[trigger] is_top_dir(es[k], d) {
                    let k = choose|k: int| 0 <= k < i + 1 && #[trigger] is_top_dir(es[k], d);
                    if k < i {
                        assert(old_tops.contains(d));
                        let j = choose|j: int| 0 <= j < old_tops.len() && old_tops[j] == d;
                        assert(string_views(tops@)[j] == d);
                    } else {
                        assert(d == name@);
                        if !seen {
                            assert(string_views(tops@)[old_tops.len() as int] == d);
                        } else {
                            let j = choose|j: int| 0 <= j < old_tops.len() && old_tops[j] == d;
                            assert(string_views(tops@)[j] == d);
                        }
                    }
                }
                if string_views(tops@).contains(d) {
                    let j = choose|j: int| 0 <= j < string_views(tops@).len() && string_views(tops@)[j] == d;
                    if j < old_tops.len() {
                        assert(old_tops[j] == d);
                        assert(old_tops.contains(d));
                    } else {
                        assert(is_top_dir(es[i as int], d));
                    }
                }
            }
        } else {
            if comps.len() == 1 {
                root_file = true;
            }
            assert forall|d: Seq<char>| string_views(tops@).contains(d) <==> exists|k: int| 0 <= k < i + 1 && #[trigger] is_top_dir(es[k], d) by {
                if exists|k: int| 0 <= k < i + 1 && #[trigger] is_top_dir(es[k], d) {
                    let k = choose|k: int| 0 <= k < i + 1 && #[trigger] is_top_dir(es[k], d);
                    assert(k < i);
                }
            }
        }
    }
    let single = tops.len() == 1 && !root_file;
    proof {
        let tset = Set::new(|d: Seq<char>| exists|i: int| 0 <= i < es.len() && es[i].0.len() == 1 && es[i].1
            && #[trigger] es[i].0[0] == d);
        assert forall|d: Seq<char>| tset.contains(d) <==> string_views(tops@).contains(d) by {
            if tset.contains(d) {
                let k = choose|k: int| 0 <= k < es.len() && es[k].0.len() == 1 && es[k].1 && #[trigger] es[k].0[0] == d;
                assert(is_top_dir(es[k], d));
            }
            if string_views(tops@).contains(d) {
                let k = choose|k: int| 0 <= k < es.len() && #[trigger] is_top_dir(es[k], d);
                assert(es[k].0[0] == d);
            }
        }
        if tops@.len() == 1 {
            let d0 = string_views(tops@)[0];
            assert(tset =~= set![d0]) by {
                assert forall|d: Seq<char>| tset.contains(d) <==> d == d0 by {
                    if tset.contains(d) {
                        let j = choose|j: int| 0 <= j < string_views(tops@).len() && string_views(tops@)[j] == d;
                    }
                    if d == d0 {
                        assert(string_views(tops@).contains(d0));
                    }
                }
            }
        } else {
            if exists|d: Seq<char>| tset == set![d] {
                let d = choose|d: Seq<char>| tset == set![d];
                assert(tset.contains(d));
                assert(string_views(tops@).contains(d));
                let a = string_views(tops@)[0];
                let b = string_views(tops@)[1];
                assert(string_views(tops@).contains(a));
                assert(string_views(tops@).contains(b));
                assert(tset.contains(a));
                assert(tset.contains(b));
                assert(a != b);
            }
        }
    }
    single
}

/// One entry of a zip archive as read: the components of its enclosed name
/// (none where the name is unsafe to extract or unreadable), whether it is a
/// directory, its Unix mode, and its contents.
pub struct ZipEntry {
    pub components: Option<Vec<String>>,
    pub is_dir: bool,
    pub unix_mode: Option<u32>,
    pub contents: Vec<u8>,
}

/// The view of a zip entry.
pub struct ZipEntryView {
    pub components: Option<Seq<Seq<char>>>,
    pub is_dir: bool,
    pub unix_mode: Option<u32>,
    pub contents: Seq<u8>,
}

impl View for ZipEntry {
    type V = ZipEntryView;

    open spec fn view(&self) -> ZipEntryView {
        ZipEntryView {
            components: match self.components {
                Some(c) => Some(string_views(c@)),
                None => None,
            },
            is_dir: self.is_dir,
            unix_mode: self.unix_mode,
            contents: self.contents@,
        }
    }
}

/// The views of zip entries.
pub open spec fn zip_entry_views(v: Seq<ZipEntry>) -> Seq<ZipEntryView> {
    v.map_values(|e: ZipEntry| e@)
}

/// The entries that `zip::ZipArchive` reads from an archive's bytes, in the
/// order of its central directory; nothing where the archive, an entry or
/// an entry's contents cannot be read.
pub uninterp spec fn zip_listing(bytes: Seq<u8>) -> Option<Seq<ZipEntryView>>;

/// `zip::ZipArchive::new` over the bytes, then, for each index, `by_index`,
/// `read_to_end`, and the entry's `enclosed_name` (as its components),
/// `is_dir` and `unix_mode`; the contract names the result.
#[verifier::external_body]
fn zip_entries(bytes: &[u8]) -> (r: Option<Vec<ZipEntry>>)
    ensures
        match r {
            Some(v) => zip_listing(bytes@) == Some(zip_entry_views(v@)),
            None => zip_listing(bytes@) is None,
        },
{
    let mut archive = zip::ZipArchive::new(std::io::Cursor::new(bytes)).ok()?;
    let mut out = Vec::new();
    for i in 0..archive.len() {
        let mut f = archive.by_index(i).ok()?;
        let mut contents = Vec::new();
        f.read_to_end(&mut contents).ok()?;
        let name = f.enclosed_name().map(|p| p.components().map(|c| c.as_os_str().to_string_lossy().into_owned()).collect());
        out.push(ZipEntry { components: name, is_dir: f.is_dir(), unix_mode: f.unix_mode(), contents });
    }
    Some(out)
}

/// One thing an extraction writes: a directory or a file at a path, with
/// the mode the archive gives it.
pub struct ZipWrite {
    pub path: String,
    pub is_dir: bool,
    pub mode: Option<u32>,
    pub contents: Vec<u8>,
}

/// The view of a write.
pub struct ZipWriteView {
    pub path: Seq<char>,
    pub is_dir: bool,
    pub mode: Option<u32>,
    pub contents: Seq<u8>,
}

/// The views of writes.
pub open spec fn zip_write_views(v: Seq<ZipWrite>) -> Seq<ZipWriteView> {
    v.map_values(|w: ZipWrite| ZipWriteView { path: w.path@, is_dir: w.is_dir, mode: w.mode, contents: w.contents@ })
}

/// The entries that have an enclosed name, as their components and whether
/// each is a directory.
pub open spec fn named_zip_entries(es: Seq<ZipEntryView>) -> Seq<(Seq<Seq<char>>, bool)>
    decreases es.len(),
{
    if es.len() == 0 {
        seq![]
    } else {
        let rest = named_zip_entries(es.drop_last());
        match es.last().components {
            Some(c) => rest.push((c, es.last().is_dir)),
            None => rest,
        }
    }
}

/// What extracting `es` under `base` writes, in order: each entry with an
/// enclosed name and a target, at that target.
pub open spec fn zip_writes_from(base: Seq<char>, es: Seq<ZipEntryView>, strip: bool) -> Seq<ZipWriteView>
    decreases es.len(),
{
    if es.len() == 0 {
        seq![]
    } else {
        let rest = zip_writes_from(base, es.drop_last(), strip);
        let e = es.last();
        match e.components {
            Some(c) => match zip_entry_target_of(base, c, strip) {
                Some(t) => rest.push(ZipWriteView { path: t, is_dir: e.is_dir, mode: e.unix_mode, contents: e.contents }),
                None => rest,
            },
            None => rest,
        }
    }
}

/// What extracting `es` under `base` writes: without the single top-level
/// directory where the named entries have exactly one.
pub open spec fn zip_writes_of(base: Seq<char>, es: Seq<ZipEntryView>) -> Seq<ZipWriteView> {
    zip_writes_from(base, es, zip_single_root(named_zip_entries(es)))
}

/// The writes that extracting the entries under `base` makes: entries
/// without an enclosed name are skipped, and the single top-level directory
/// is dropped where there is one.
pub fn plan_zip_writes(base: &str, entries: &Vec<ZipEntry>) -> (r: Vec<ZipWrite>)
    ensures
        zip_write_views(r@) == zip_writes_of(base@, zip_entry_views(entries@)),
{
    let ghost es = zip_entry_views(entries@);
    let mut named: Vec<(Vec<String>, bool)> = Vec::new();
    for i in 0..entries.len()
        invariant
            es == zip_entry_views(entries@),
            named@.map_values(|e: (Vec<String>, bool)| (string_views(e.0@), e.1)) == named_zip_entries(es.take(i as int)),
    {
        assert(es.take(i + 1).drop_last() =~= es.take(i as int));
        assert(es.take(i + 1).last() == entries@[i as int]@);
        let ghost prev = named@;
        match &entries[i].components {
            Some(c) => {
                named.push((clone_strings(c), entries[i].is_dir));
                assert(named@.map_values(|e: (Vec<String>, bool)| (string_views(e.0@), e.1)) =~= prev.map_values(
                    |e: (Vec<String>, bool)| (string_views(e.0@), e.1),
                ).push((string_views(c@), entries@[i as int].is_dir)));
            },
            None => {},
        }
    }
    assert(es.take(entries@.len() as int) =~= es);
    let strip = zip_has_single_root(&named);
    let mut out: Vec<ZipWrite> = Vec::new();
    for i in 0..entries.len()
        invariant
            es == zip_entry_views(entries@),
            zip_write_views(out@) == zip_writes_from(base@, es.take(i as int), strip),
    {
        assert(es.take(i + 1).drop_last() =~= es.take(i as int));
        assert(es.take(i + 1).last() == entries@[i as int]@);
        let ghost prev = out@;
        match &entries[i].components {
            Some(c) => match zip_entry_target(base, c, strip) {
                Some(t) => {
                    let e = &entries[i];
                    out.push(ZipWrite { path: t, is_dir: e.is_dir, mode: e.unix_mode, contents: copy_bytes(e.contents.as_slice()) });
                    assert(zip_write_views(out@) =~= zip_write_views(prev).push(
                        ZipWriteView { path: t@, is_dir: e.is_dir, mode: e.unix_mode, contents: e.contents@ },
                    ));
                },
                None => {},
            },
            None => {},
        }
    }
    assert(es.take(entries@.len() as int) =~= es);
    out
}

/// What extracting a zip archive's bytes under `base` writes; an archive
/// that cannot be read fails the extraction.
pub fn plan_zip_extraction(base: &str, bytes: &[u8]) -> (r: Result<Vec<ZipWrite>, BuildError>)
    ensures
        match zip_listing(bytes@) {
            None => r matches Err(BuildError::ExtractionFailed { message }) && message@ == "Failed to read zip archive"@,
            Some(es) => r matches Ok(ws) && zip_write_views(ws@) == zip_writes_of(base@, es),
        },
{
    match zip_entries(bytes) {
        Some(entries) => Ok(plan_zip_writes(base, &entries)),
        None => Err(BuildError::ExtractionFailed { message: owned("Failed to read zip archive") }),
    }
}

/// The MD5 digest of some bytes, as `md-5` computes it, written in
/// lower-case hexadecimal.
pub uninterp spec fn md5_hex_of(bytes: Seq<u8>) -> Seq<char>;

/// The SHA-256 digest of some bytes, as `sha2` computes it, written in
/// lower-case hexadecimal.
pub uninterp spec fn sha256_hex_of(bytes: Seq<u8>) -> Seq<char>;

/// `md5::Md5::digest` of the bytes, formatted with `{:x}`; the contract
/// names the result.
#[verifier::external_body]
fn md5_hex(bytes: &[u8]) -> (r: String)
    ensures
        r@ == md5_hex_of(bytes@),
{
    format!("{:x}", <md5::Md5 as md5::Digest>::digest(bytes))
}

/// `sha2::Sha256::digest` of the bytes, formatted with `{:x}`; the contract
/// names the result.
#[verifier::external_body]
fn sha256_hex(bytes: &[u8]) -> (r: String)
    ensures
        r@ == sha256_hex_of(bytes@),
{
    format!("{:x}", <sha2::Sha256 as sha2::Digest>::digest(bytes))
}

/// The name a download is reported under: its file name, or `unknown`.
pub open spec fn download_name(path: Seq<char>) -> Seq<char> {
    match crate::paths::file_name_of(path) {
        Some(n) => n,
        None => "unknown"@,
    }
}

/// The outcome of comparing a download's digest with the expected one:
/// they match where they are equal up to ASCII case.
pub open spec fn digest_matches(expected: Seq<char>, actual: Seq<char>) -> bool {
    crate::compression::ascii_lowercase(actual) == crate::compression::ascii_lowercase(expected)
}

/// Compares the digest computed for a download with the expected one,
/// ignoring ASCII case; a mismatch names the file and both digests.
pub fn check_digest(path: &str, expected: &str, actual: String) -> (r: Result<(), BuildError>)
    ensures
        digest_matches(expected@, actual@) ==> r is Ok,
        !digest_matches(expected@, actual@) ==> (r matches Err(BuildError::HashMismatch { file, expected: e, actual: a })
            && file@ == download_name(path@) && e@ == expected@ && a@ == actual@),
{
    let la = crate::compression::ascii_lowercase_exec(actual.as_str());
    let le = crate::compression::ascii_lowercase_exec(expected);
    if crate::text::chars_eq(la.as_slice(), le.as_slice()) {
        Ok(())
    } else {
        let file = match crate::paths::file_name(path) {
            Some(n) => from_chars(n.as_slice()),
            None => owned("unknown"),
        };
        Err(BuildError::HashMismatch { file, expected: owned(expected), actual })
    }
}

/// Checks a download's MD5 digest against the expected one.
pub fn verify_md5(path: &str, bytes: &[u8], expected: &str) -> (r: Result<(), BuildError>)
    ensures
        digest_matches(expected@, md5_hex_of(bytes@)) ==> r is Ok,
        !digest_matches(expected@, md5_hex_of(bytes@)) ==> (r matches Err(
            BuildError::HashMismatch { file, expected: e, actual: a },
        ) && file@ == download_name(path@) && e@ == expected@ && a@ == md5_hex_of(bytes@)),
{
    let actual = md5_hex(bytes);
    check_digest(path, expected, actual)
}

/// Checks a download's SHA-256 digest against the expected one.
pub fn verify_sha256(path: &str, bytes: &[u8], expected: &str) -> (r: Result<(), BuildError>)
    ensures
        digest_matches(expected@, sha256_hex_of(bytes@)) ==> r is Ok,
        !digest_matches(expected@, sha256_hex_of(bytes@)) ==> (r matches Err(
            BuildError::HashMismatch { file, expected: e, actual: a },
        ) && file@ == download_name(path@) && e@ == expected@ && a@ == sha256_hex_of(bytes@)),
{
    let actual = sha256_hex(bytes);
    check_digest(path, expected, actual)
}

/// The arguments of `./configure`: the live prefix first unless one is given.
pub open spec fn configure_args_of(args: Seq<Seq<char>>) -> Seq<Seq<char>> {
    if crate::build_systems::context::any_starts_with(args, "--prefix="@) {
        args
    } else {
        seq!["--prefix=/opt/pm/live"@] + args
    }
}

/// The shell line that runs `./configure` with the recipe's arguments.
pub fn configure_line(args: &[String]) -> (r: String)
    ensures
        r@ == "./configure "@ + join_with(configure_args_of(string_views(args@)), " "@),
{
    let mut v: Vec<String> = Vec::new();
    if !crate::build_systems::context::any_arg_starts_with(args, "--prefix=") {
        v.push(owned("--prefix=/opt/pm/live"));
    }
    let ghost head = string_views(v@);
    for i in 0..args.len()
        invariant
            string_views(v@) == head + string_views(args@).take(i as int),
    {
        let ghost prev = v@;
        v.push(args[i].clone());
        assert(string_views(args@).take(i + 1) =~= string_views(args@).take(i as int).push(args@[i as int]@));
        assert(string_views(v@) =~= string_views(prev).push(args@[i as int]@));
    }
    assert(string_views(args@).take(args@.len() as int) =~= string_views(args@));
    proof {
        if !crate::build_systems::context::any_starts_with(string_views(args@), "--prefix="@) {
            assert(head =~= seq!["--prefix=/opt/pm/live"@]);
        } else {
            assert(head =~= Seq::<Seq<char>>::empty());
            assert(string_views(v@) =~= string_views(args@));
        }
    }
    concat("./configure ", join_strings(&v, " ").as_str())
}

/// The arguments of `make`: every `DESTDIR=` argument points at the staging
/// directory.
pub open spec fn make_args_of(args: Seq<Seq<char>>, staging: Seq<char>) -> Seq<Seq<char>> {
    args.map_values(|a: Seq<char>| if crate::text::starts_with(a, "DESTDIR="@) { "DESTDIR="@ + staging } else { a })
}

/// The arguments the recipe's `make` step runs with.
pub fn make_args(args: &[String], staging_dir: &str) -> (r: Vec<String>)
    ensures
        string_views(r@) == make_args_of(string_views(args@), staging_dir@),
{
    let mut v: Vec<String> = Vec::new();
    for i in 0..args.len()
        invariant
            string_views(v@) == make_args_of(string_views(args@).take(i as int), staging_dir@),
    {
        let ghost prev = v@;
        let a = to_chars(args[i].as_str());
        let item = if crate::text::starts_with_str(a.as_slice(), "DESTDIR=") {
            concat("DESTDIR=", staging_dir)
        } else {
            args[i].clone()
        };
        let ghost x = args@[i as int]@;
        assert(item@ == (if crate::text::starts_with(x, "DESTDIR="@) { "DESTDIR="@ + staging_dir@ } else { x }));
        v.push(item);
        assert(string_views(args@).take(i + 1) =~= string_views(args@).take(i as int).push(x));
        assert(string_views(v@) =~= string_views(prev).push(item@));
        assert(make_args_of(string_views(args@).take(i + 1), staging_dir@) =~= make_args_of(
            string_views(args@).take(i as int),
            staging_dir@,
        ).push(item@));
    }
    assert(string_views(args@).take(args@.len() as int) =~= string_views(args@));
    v
}

/// The arguments of `patch` for a patch file.
pub fn patch_args(patch_path: &str) -> (r: Vec<String>)
    ensures
        string_views(r@) == seq!["-p1"@, "-i"@, patch_path@],
{
    let mut v: Vec<String> = Vec::new();
    v.push(owned("-p1"));
    v.push(owned("-i"));
    v.push(owned(patch_path));
    assert(string_views(v@) =~= seq!["-p1"@, "-i"@, patch_path@]);
    v
}

impl BuilderApi {
    /// The context a build system runs in: the working directory, built in
    /// its `build` directory for out-of-source build systems, with the
    /// network allowed as the recipe allows it.
    pub fn system_context(&self, env: crate::environment::build_env::BuildEnvironment, out_of_source: bool) -> (r: crate::build_systems::context::BuildSystemContext)
        requires
            env.wf(),
        ensures
            r.wf(),
            r.env == env,
            r.source_dir == self.working_dir,
            r.build_dir@ == (if out_of_source { path_join(self.working_dir@, "build"@) } else { self.working_dir@ }),
            r.network_allowed == self.allow_network,
            r.prefix@ == "/opt/pm/live"@,
            r.jobs == crate::build_systems::context::jobs_from(env.env_vars@),
            r.extra_env@ == Map::<Seq<char>, Seq<char>>::empty(),
            r.cache_config.is_none(),
            r.cross_compilation.is_none(),
    {
        let mut ctx = crate::build_systems::context::BuildSystemContext::new(env, self.working_dir.clone());
        if out_of_source {
            ctx.build_dir = join(self.working_dir.as_str(), "build");
        }
        ctx.network_allowed = self.allow_network;
        ctx
    }
}

} // verus!
