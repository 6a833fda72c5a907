//! Compiler cache integration, source download caches and incremental build
//! tracking.
use crate::paths::join;
use crate::string_map::StringMap;
use crate::text::{concat, decimal, owned, string_views, u64_to_string};
use vstd::prelude::*;

verus! {

/// Type of compiler cache
#[derive(Debug, Clone, Copy, PartialEq, Eq, Structural)]
pub enum CompilerCacheType {
    /// ccache
    CCache,
    /// sccache
    SCCache,
    /// No cache
    NoCache,
}

/// Compiler cache integration
#[derive(Debug)]
pub struct CompilerCache {
    cache_type: CompilerCacheType,
    cache_dir: String,
    max_size: u64,
}

/// Whether a program can be found on the `PATH`, with `which::which`.
#[verifier::external_body]
fn program_on_path(name: &str) -> bool {
    which::which(name).is_ok()
}

/// The size limit, in whole GiB, followed by `G`.
pub open spec fn size_text(max_size: u64) -> Seq<char> {
    decimal((max_size / 1073741824) as nat) + "G"@
}

impl CompilerCache {
    /// The cache in use.
    pub closed spec fn kind(&self) -> CompilerCacheType {
        self.cache_type
    }

    /// The cache directory.
    pub closed spec fn dir(&self) -> String {
        self.cache_dir
    }

    /// The size limit in bytes.
    pub closed spec fn limit(&self) -> u64 {
        self.max_size
    }

    /// The environment a build gets for the cache: its directory and size
    /// limit, and for sccache the Rust compiler wrapper; nothing without a
    /// cache.
    pub open spec fn env(&self) -> Map<Seq<char>, Seq<char>> {
        match self.kind() {
            CompilerCacheType::CCache => Map::<Seq<char>, Seq<char>>::empty().insert("CCACHE_DIR"@, self.dir()@).insert(
                "CCACHE_MAXSIZE"@,
                size_text(self.limit()),
            ),
            CompilerCacheType::SCCache => Map::<Seq<char>, Seq<char>>::empty().insert("SCCACHE_DIR"@, self.dir()@).insert(
                "SCCACHE_CACHE_SIZE"@,
                size_text(self.limit()),
            ).insert("RUSTC_WRAPPER"@, "sccache"@),
            CompilerCacheType::NoCache => Map::<Seq<char>, Seq<char>>::empty(),
        }
    }

    /// The cache to use given which tools are installed: sccache first, then ccache.
    pub fn detect_type(sccache_available: bool, ccache_available: bool) -> (r: CompilerCacheType)
        ensures
            r == if sccache_available {
                CompilerCacheType::SCCache
            } else if ccache_available {
                CompilerCacheType::CCache
            } else {
                CompilerCacheType::NoCache
            },
    {
        if sccache_available {
            CompilerCacheType::SCCache
        } else if ccache_available {
            CompilerCacheType::CCache
        } else {
            CompilerCacheType::NoCache
        }
    }

    /// A compiler cache of the given type in a directory, limited to 5 GiB.
    pub fn with_type(cache_type: CompilerCacheType, cache_dir: String) -> (r: Self)
        ensures
            r.kind() == cache_type,
            r.dir() == cache_dir,
            r.limit() == 5368709120u64,
    {
        CompilerCache { cache_type, cache_dir, max_size: 5 * 1024 * 1024 * 1024 }
    }

    /// The compiler cache installed on this machine (sccache preferred to
    /// ccache), in a directory, limited to 5 GiB.
    pub fn new(cache_dir: String) -> (r: Self)
        ensures
            r.dir() == cache_dir,
            r.limit() == 5368709120u64,
    {
        let sccache = program_on_path("sccache");
        let ccache = if sccache { false } else { program_on_path("ccache") };
        Self::with_type(Self::detect_type(sccache, ccache), cache_dir)
    }

    /// Get environment variables for compiler cache: its directory and size
    /// limit, and for sccache the Rust compiler wrapper.
    pub fn get_env_vars(&self) -> (r: StringMap)
        ensures
            r.wf(),
            r@ == self.env(),
    {
        let mut vars = StringMap::new();
        let size = concat(u64_to_string(self.max_size / (1024 * 1024 * 1024)).as_str(), "G");
        match self.cache_type {
            CompilerCacheType::CCache => {
                vars.insert(owned("CCACHE_DIR"), self.cache_dir.clone());
                vars.insert(owned("CCACHE_MAXSIZE"), size);
            },
            CompilerCacheType::SCCache => {
                vars.insert(owned("SCCACHE_DIR"), self.cache_dir.clone());
                vars.insert(owned("SCCACHE_CACHE_SIZE"), size);
                vars.insert(owned("RUSTC_WRAPPER"), owned("sccache"));
            },
            CompilerCacheType::NoCache => {},
        }
        vars
    }

    /// Get wrapper command for compiler
    pub fn get_wrapper(&self) -> (r: Option<&'static str>)
        ensures
            match self.kind() {
                CompilerCacheType::CCache => r matches Some(w) && w@ == "ccache"@,
                CompilerCacheType::SCCache => r matches Some(w) && w@ == "sccache"@,
                CompilerCacheType::NoCache => r is None,
            },
    {
        match self.cache_type {
            CompilerCacheType::CCache => Some("ccache"),
            CompilerCacheType::SCCache => Some("sccache"),
            CompilerCacheType::NoCache => None,
        }
    }
}

/// A compiler cache sets environment variables exactly when it wraps the
/// compiler: only without a cache are both empty.
pub proof fn lemma_env_iff_wrapper(c: CompilerCache)
    ensures
        (c.env().dom().len() == 0) <==> (c.kind() == CompilerCacheType::NoCache),
{
    if c.kind() != CompilerCacheType::NoCache {
        let m = c.env();
        let k = if c.kind() == CompilerCacheType::CCache { "CCACHE_MAXSIZE"@ } else { "RUSTC_WRAPPER"@ };
        assert(m.dom().contains(k));
        assert(m.dom().finite());
        vstd::set::axiom_set_contains_len(m.dom(), k);
    }
}

/// Simple source cache for downloads and git repositories
#[derive(Debug)]
pub struct SourceCache {
    cache_dir: String,
    downloads: StringMap,
    git_repos: StringMap,
}

impl SourceCache {
    /// Both maps are well formed.
    pub closed spec fn wf(&self) -> bool {
        self.downloads.wf() && self.git_repos.wf()
    }

    /// The cached downloads, by URL.
    pub closed spec fn downloads(&self) -> Map<Seq<char>, Seq<char>> {
        self.downloads@
    }

    /// The cached repositories, by URL.
    pub closed spec fn repos(&self) -> Map<Seq<char>, Seq<char>> {
        self.git_repos@
    }

    /// The directory the cache lives in.
    pub closed spec fn dir(&self) -> Seq<char> {
        self.cache_dir@
    }

    /// Create new source cache in a directory
    pub fn new(cache_dir: String) -> (r: Self)
        ensures
            r.wf(),
            r.dir() == cache_dir@,
            r.downloads() == Map::<Seq<char>, Seq<char>>::empty(),
            r.repos() == Map::<Seq<char>, Seq<char>>::empty(),
    {
        SourceCache { cache_dir, downloads: StringMap::new(), git_repos: StringMap::new() }
    }

    /// Cache a downloaded file
    pub fn cache_download(&mut self, url: String, path: String)
        requires
            old(self).wf(),
        ensures
            final(self).wf(),
            final(self).downloads() == old(self).downloads().insert(url@, path@),
            final(self).repos() == old(self).repos(),
    {
        self.downloads.insert(url, path);
    }

    /// Get cached download path
    pub fn get_download(&self, url: &str) -> (r: Option<String>)
        requires
            self.wf(),
        ensures
            match r {
                Some(p) => self.downloads().contains_key(url@) && self.downloads()[url@] == p@,
                None => !self.downloads().contains_key(url@),
            },
    {
        match self.downloads.get(url) {
            Some(p) => Some(p.clone()),
            None => None,
        }
    }

    /// Cache a git repository
    pub fn cache_git_repo(&mut self, url: String, path: String)
        requires
            old(self).wf(),
        ensures
            final(self).wf(),
            final(self).repos() == old(self).repos().insert(url@, path@),
            final(self).downloads() == old(self).downloads(),
    {
        self.git_repos.insert(url, path);
    }

    /// Get cached git repository path
    pub fn get_git_repo(&self, url: &str) -> (r: Option<String>)
        requires
            self.wf(),
        ensures
            match r {
                Some(p) => self.repos().contains_key(url@) && self.repos()[url@] == p@,
                None => !self.repos().contains_key(url@),
            },
    {
        match self.git_repos.get(url) {
            Some(p) => Some(p.clone()),
            None => None,
        }
    }

    /// Clear all cached entries
    pub fn clear(&mut self)
        ensures
            final(self).wf(),
            final(self).downloads() == Map::<Seq<char>, Seq<char>>::empty(),
            final(self).repos() == Map::<Seq<char>, Seq<char>>::empty(),
    {
        self.downloads = StringMap::new();
        self.git_repos = StringMap::new();
    }
}

/// A download cached under a URL is what a lookup of that URL gives back,
/// and caching leaves the other URLs as they were.
pub proof fn lemma_download_roundtrip(before: Map<Seq<char>, Seq<char>>, url: Seq<char>, path: Seq<char>, other: Seq<char>)
    requires
        other != url,
    ensures
        before.insert(url, path).contains_key(url) && before.insert(url, path)[url] == path,
        before.insert(url, path).contains_key(other) == before.contains_key(other),
        before.contains_key(other) ==> before.insert(url, path)[other] == before[other],
{
}

/// Cache statistics
#[derive(Debug, Clone, Copy)]
pub struct CacheStatistics {
    /// Number of cache hits
    pub cache_hits: u64,
    /// Number of cache misses
    pub cache_misses: u64,
    /// Number of artifacts cached
    pub artifacts_cached: u64,
    /// Number of evictions
    pub evictions: u64,
}

impl Default for CacheStatistics {
    fn default() -> (r: Self)
        ensures
            r.cache_hits == 0 && r.cache_misses == 0 && r.artifacts_cached == 0 && r.evictions == 0,
    {
        CacheStatistics { cache_hits: 0, cache_misses: 0, artifacts_cached: 0, evictions: 0 }
    }
}

/// Incremental build tracking: the files that changed since the last build,
/// the modification times seen, and which files each target depends on.
#[derive(Debug)]
pub struct IncrementalBuildTracker {
    changed_files: Vec<String>,
    file_mtimes: Vec<(String, u128)>,
    dep_edges: Vec<(String, String)>,
}

/// The modification time last recorded for a path in a log of records.
pub open spec fn last_mtime(log: Seq<(String, u128)>, path: Seq<char>) -> Option<u128>
    decreases log.len(),
{
    if log.len() == 0 {
        None
    } else if log.last().0@ == path {
        Some(log.last().1)
    } else {
        last_mtime(log.drop_last(), path)
    }
}

/// The dependencies recorded for a target, in the order they were added.
pub open spec fn deps_of(edges: Seq<(String, String)>, target: Seq<char>) -> Seq<Seq<char>>
    decreases edges.len(),
{
    if edges.len() == 0 {
        Seq::empty()
    } else if edges.last().0@ == target {
        deps_of(edges.drop_last(), target).push(edges.last().1@)
    } else {
        deps_of(edges.drop_last(), target)
    }
}

impl IncrementalBuildTracker {
    /// The changed files, each once, in the order they were marked.
    pub closed spec fn changed(&self) -> Seq<Seq<char>> {
        string_views(self.changed_files@)
    }

    /// The modification time recorded for a path, if one was.
    pub closed spec fn recorded_mtime(&self, path: Seq<char>) -> Option<u128> {
        last_mtime(self.file_mtimes@, path)
    }

    /// The dependencies recorded for a target.
    pub closed spec fn dependencies(&self, target: Seq<char>) -> Seq<Seq<char>> {
        deps_of(self.dep_edges@, target)
    }

    /// Create new incremental build tracker
    pub fn new() -> (r: Self)
        ensures
            r.changed().len() == 0,
            forall|p: Seq<char>| r.recorded_mtime(p) is None,
            forall|t: Seq<char>| r.dependencies(t).len() == 0,
    {
        let r = IncrementalBuildTracker { changed_files: Vec::new(), file_mtimes: Vec::new(), dep_edges: Vec::new() };
        assert(r.changed() =~= Seq::<Seq<char>>::empty());
        r
    }

    /// Records a file's modification time, where it could be read.
    pub fn track_file(&mut self, path: String, mtime: Option<u128>)
        ensures
            forall|p: Seq<char>| #[trigger] final(self).recorded_mtime(p) == match mtime {
                Some(m) => if p == path@ { Some(m) } else { old(self).recorded_mtime(p) },
                None => old(self).recorded_mtime(p),
            },
            final(self).changed() == old(self).changed(),
            forall|t: Seq<char>| #[trigger] final(self).dependencies(t) == old(self).dependencies(t),
    {
        match mtime {
            Some(m) => {
                let ghost prev = self.file_mtimes@;
                self.file_mtimes.push((path, m));
                assert(self.file_mtimes@.drop_last() == prev);
            },
            None => {},
        }
    }

    /// Whether a file changed since it was tracked: its current modification
    /// time is later than the one recorded; where either is unknown, it
    /// counts as changed.
    pub fn has_changed(&self, path: &str, current_mtime: Option<u128>) -> (r: bool)
        ensures
            r == changed_since(self.recorded_mtime(path@), current_mtime),
    {
        let stored = self.lookup_mtime(path);
        Self::has_file_changed(stored, current_mtime)
    }

    fn lookup_mtime(&self, path: &str) -> (r: Option<u128>)
        ensures
            r == self.recorded_mtime(path@),
    {
        let mut i = self.file_mtimes.len();
        assert(self.file_mtimes@.take(i as int) =~= self.file_mtimes@);
        while i > 0
            invariant
                i <= self.file_mtimes@.len(),
                last_mtime(self.file_mtimes@, path@) == last_mtime(self.file_mtimes@.take(i as int), path@),
            decreases i,
        {
            let ghost t = self.file_mtimes@.take(i as int);
            assert(t.drop_last() =~= self.file_mtimes@.take(i - 1));
            assert(t.last() == self.file_mtimes@[i - 1]);
            if self.file_mtimes[i - 1].0 == owned(path) {
                return Some(self.file_mtimes[i - 1].1);
            }
            i = i - 1;
        }
        None
    }

    /// Records that a target depends on a file.
    pub fn add_dependency(&mut self, target: String, dependency: String)
        ensures
            forall|t: Seq<char>| #[trigger] final(self).dependencies(t) == if t == target@ {
                old(self).dependencies(t).push(dependency@)
            } else {
                old(self).dependencies(t)
            },
            final(self).changed() == old(self).changed(),
            forall|p: Seq<char>| #[trigger] final(self).recorded_mtime(p) == old(self).recorded_mtime(p),
    {
        let ghost prev = self.dep_edges@;
        self.dep_edges.push((target, dependency));
        assert(self.dep_edges@.drop_last() == prev);
    }

    /// The dependencies recorded for a target.
    pub fn get_dependencies(&self, target: &str) -> (r: Vec<String>)
        ensures
            string_views(r@) == self.dependencies(target@),
    {
        let mut r: Vec<String> = Vec::new();
        for i in 0..self.dep_edges.len()
            invariant
                string_views(r@) == deps_of(self.dep_edges@.take(i as int), target@),
        {
            let ghost t = self.dep_edges@.take(i + 1);
            assert(t.drop_last() =~= self.dep_edges@.take(i as int));
            assert(t.last() == self.dep_edges@[i as int]);
            if self.dep_edges[i].0 == owned(target) {
                let ghost prev = r@;
                r.push(self.dep_edges[i].1.clone());
                assert(string_views(r@) =~= string_views(prev).push(self.dep_edges@[i as int].1@));
            }
        }
        assert(self.dep_edges@.take(self.dep_edges@.len() as int) =~= self.dep_edges@);
        r
    }

    /// Whether a file changed: its current modification time is later than
    /// the one recorded; where either is unknown, it counts as changed.
    pub fn has_file_changed(stored_mtime: Option<u128>, current_mtime: Option<u128>) -> (r: bool)
        ensures
            r == changed_since(stored_mtime, current_mtime),
    {
        match (stored_mtime, current_mtime) {
            (Some(s), Some(c)) => c > s,
            _ => true,
        }
    }

    /// Mark file as changed (once).
    pub fn mark_changed(&mut self, path: String)
        ensures
            final(self).changed() == if old(self).changed().contains(path@) {
                old(self).changed()
            } else {
                old(self).changed().push(path@)
            },
            forall|p: Seq<char>| #[trigger] final(self).recorded_mtime(p) == old(self).recorded_mtime(p),
            forall|t: Seq<char>| #[trigger] final(self).dependencies(t) == old(self).dependencies(t),
    {
        let mut found = false;
        for i in 0..self.changed_files.len()
            invariant
                found == exists|j: int| 0 <= j < i && self.changed_files@[j]@ == path@,
        {
            if self.changed_files[i] == path {
                found = true;
            }
        }
        proof {
            if found {
                let j = choose|j: int| 0 <= j < self.changed_files@.len() && self.changed_files@[j]@ == path@;
                assert(self.changed()[j] == path@);
            }
            if self.changed().contains(path@) {
                let j = choose|j: int| 0 <= j < self.changed().len() && self.changed()[j] == path@;
                assert(self.changed_files@[j]@ == path@);
            }
        }
        if !found {
            let ghost prev = self.changed_files@;
            self.changed_files.push(path);
            assert(string_views(self.changed_files@) =~= string_views(prev).push(path@));
        }
    }

    /// Get files that need rebuilding
    pub fn get_files_to_rebuild(&self) -> (r: &Vec<String>)
        ensures
            string_views(r@) == self.changed(),
    {
        &self.changed_files
    }

    /// Clear changed files after build
    pub fn clear_changed_files(&mut self)
        ensures
            final(self).changed().len() == 0,
            forall|p: Seq<char>| #[trigger] final(self).recorded_mtime(p) == old(self).recorded_mtime(p),
            forall|t: Seq<char>| #[trigger] final(self).dependencies(t) == old(self).dependencies(t),
    {
        self.changed_files = Vec::new();
        assert(self.changed() =~= Seq::<Seq<char>>::empty());
    }
}

/// Whether a file counts as changed: its current modification time is later
/// than the recorded one; where either is unknown, it counts as changed.
pub open spec fn changed_since(stored: Option<u128>, current: Option<u128>) -> bool {
    match (stored, current) {
        (Some(s), Some(c)) => c > s,
        _ => true,
    }
}

/// A file tracked at a modification time has not changed as long as it
/// keeps that time, and has changed once it has a later one.
pub proof fn lemma_tracked_file_unchanged(t: IncrementalBuildTracker, path: Seq<char>, m: u128, later: u128)
    requires
        t.recorded_mtime(path) == Some(m),
        later > m,
    ensures
        !changed_since(t.recorded_mtime(path), Some(m)),
        changed_since(t.recorded_mtime(path), Some(later)),
        changed_since(t.recorded_mtime(path), None),
{
}

/// Build cache for compiler caching and source downloads
#[derive(Debug)]
pub struct BuildCache {
    cache_root: String,
    source_cache: SourceCache,
    compiler_cache: CompilerCache,
    stats: CacheStatistics,
}

impl BuildCache {
    /// The source cache is well formed.
    pub closed spec fn wf(&self) -> bool {
        self.source_cache.wf()
    }

    /// The cache root.
    pub closed spec fn root(&self) -> Seq<char> {
        self.cache_root@
    }

    /// The source cache.
    pub closed spec fn sources(&self) -> SourceCache {
        self.source_cache
    }

    /// The statistics so far.
    pub closed spec fn statistics(&self) -> CacheStatistics {
        self.stats
    }

    /// A cache under a root directory: sources in `sources`, compiler
    /// output in `compiler`, no statistics yet.
    pub fn new(cache_root: String) -> (r: Self)
        ensures
            r.wf(),
            r.root() == cache_root@,
            r.sources().downloads() == Map::<Seq<char>, Seq<char>>::empty(),
            r.sources().repos() == Map::<Seq<char>, Seq<char>>::empty(),
            r.statistics() == CacheStatistics::default_spec(),
    {
        let sources = join(cache_root.as_str(), "sources");
        let compiler = join(cache_root.as_str(), "compiler");
        BuildCache {
            cache_root,
            source_cache: SourceCache::new(sources),
            compiler_cache: CompilerCache::new(compiler),
            stats: CacheStatistics { cache_hits: 0, cache_misses: 0, artifacts_cached: 0, evictions: 0 },
        }
    }

    /// The cache root.
    pub fn cache_root(&self) -> (r: &String)
        ensures
            r@ == self.root(),
    {
        &self.cache_root
    }

    /// The compiler cache.
    pub fn compiler_cache(&self) -> (r: &CompilerCache)
    {
        &self.compiler_cache
    }

    /// The source cache.
    pub fn source_cache(&self) -> (r: &SourceCache)
        ensures
            *r == self.sources(),
    {
        &self.source_cache
    }

    /// The statistics so far.
    pub fn get_statistics(&self) -> (r: CacheStatistics)
        ensures
            r == self.statistics(),
    {
        self.stats
    }

    /// Empties the source cache and resets the statistics.
    pub fn clear_all(&mut self)
        ensures
            final(self).wf(),
            final(self).root() == old(self).root(),
            final(self).sources().downloads() == Map::<Seq<char>, Seq<char>>::empty(),
            final(self).sources().repos() == Map::<Seq<char>, Seq<char>>::empty(),
            final(self).statistics() == CacheStatistics::default_spec(),
    {
        self.source_cache.clear();
        self.stats = CacheStatistics { cache_hits: 0, cache_misses: 0, artifacts_cached: 0, evictions: 0 };
    }
}

impl CacheStatistics {
    /// No hits, misses, artifacts or evictions.
    pub open spec fn default_spec() -> CacheStatistics {
        CacheStatistics { cache_hits: 0, cache_misses: 0, artifacts_cached: 0, evictions: 0 }
    }
}

} // verus!
