//! Dependency management: dependency kinds, feature-gated dependencies, and
//! the dependency graph with its topological order and cycle detection.
use crate::errors::BuildError;
use crate::text::{clone_strings, concat, from_chars, owned, string_views, to_chars};
use vstd::prelude::*;
use vstd::set_lib::{lemma_int_range, lemma_len_subset, lemma_subset_equality, set_int_range};

verus! {

/// The resolver's dependency kinds.
#[derive(Debug, Clone, Copy, PartialEq, Eq, Structural)]
pub enum DepKind {
    Build,
    Runtime,
}

/// Extended dependency kinds for cross-compilation support
#[derive(Debug, Clone, Copy, PartialEq, Eq, Hash, Structural)]
pub enum ExtendedDepKind {
    /// Build dependencies - needed at build time (compilers, build tools)
    Build,
    /// Host dependencies - needed on the build machine (pkg-config, cmake)
    Host,
    /// Target dependencies - needed on the target machine (runtime libs)
    Target,
    /// Runtime dependencies - alias for Target
    Runtime,
}

impl ExtendedDepKind {
    /// Convert to standard DepKind for resolver compatibility: build and
    /// host dependencies are build dependencies, the others runtime ones.
    pub fn to_standard(&self) -> (r: DepKind)
        ensures
            r == (if *self == ExtendedDepKind::Build || *self == ExtendedDepKind::Host {
                DepKind::Build
            } else {
                DepKind::Runtime
            }),
    {
        match self {
            ExtendedDepKind::Build => DepKind::Build,
            ExtendedDepKind::Host => DepKind::Build,
            ExtendedDepKind::Target => DepKind::Runtime,
            ExtendedDepKind::Runtime => DepKind::Runtime,
        }
    }

    /// The kind's name: `build`, `host`, `target` or `runtime`.
    pub fn name(&self) -> (r: &'static str)
        ensures
            r@ == match *self {
                ExtendedDepKind::Build => "build"@,
                ExtendedDepKind::Host => "host"@,
                ExtendedDepKind::Target => "target"@,
                ExtendedDepKind::Runtime => "runtime"@,
            },
    {
        match self {
            ExtendedDepKind::Build => "build",
            ExtendedDepKind::Host => "host",
            ExtendedDepKind::Target => "target",
            ExtendedDepKind::Runtime => "runtime",
        }
    }
}

/// Dependency with optional feature flags
#[derive(Debug, Clone)]
pub struct Dependency {
    /// Package specification (`name>=version` and the like)
    pub spec: String,
    /// Dependency kind
    pub kind: ExtendedDepKind,
    /// Optional - only needed if certain features are enabled
    pub optional: bool,
    /// Features that enable this dependency, each once
    pub features: Vec<String>,
}

/// The strings of `s` without repeats, first occurrences kept, in order.
pub open spec fn dedup(s: Seq<Seq<char>>) -> Seq<Seq<char>>
    decreases s.len(),
{
    if s.len() == 0 {
        seq![]
    } else if dedup(s.drop_last()).contains(s.last()) {
        dedup(s.drop_last())
    } else {
        dedup(s.drop_last()).push(s.last())
    }
}

fn contains_string(v: &Vec<String>, s: &String) -> (r: bool)
    ensures
        r == string_views(v@).contains(s@),
{
    for i in 0..v.len()
        invariant
            forall|j: int| 0 <= j < i ==> v@[j]@ != s@,
    {
        if v[i] == *s {
            assert(string_views(v@)[i as int] == s@);
            return true;
        }
    }
    proof {
        if string_views(v@).contains(s@) {
            let j = choose|j: int| 0 <= j < string_views(v@).len() && string_views(v@)[j] == s@;
            assert(v@[j]@ == s@);
        }
    }
    false
}

impl Dependency {
    /// Create a new dependency: required, with no features.
    pub fn new(spec: String, kind: ExtendedDepKind) -> (r: Self)
        ensures
            r.spec == spec,
            r.kind == kind,
            !r.optional,
            r.features@.len() == 0,
    {
        Dependency { spec, kind, optional: false, features: Vec::new() }
    }

    /// Mark dependency as optional with features (each kept once).
    pub fn with_features(self, features: Vec<String>) -> (r: Self)
        ensures
            r.optional,
            string_views(r.features@) == dedup(string_views(features@)),
            r.spec == self.spec,
            r.kind == self.kind,
    {
        let mut set: Vec<String> = Vec::new();
        let ghost fs = string_views(features@);
        let mut features = features;
        let n = features.len();
        let mut i: usize = 0;
        while i < n
            invariant
                n == features@.len(),
                fs == string_views(features@),
                i <= n,
                string_views(set@) == dedup(fs.take(i as int)),
            decreases n - i,
        {
            proof {
                assert(fs.take(i + 1).drop_last() == fs.take(i as int));
            }
            let f = features[i].clone();
            if !contains_string(&set, &f) {
                let ghost prev = set@;
                set.push(f);
                assert(string_views(set@) =~= string_views(prev).push(fs[i as int]));
            }
            i = i + 1;
        }
        assert(fs.take(n as int) == fs);
        let mut s = self;
        s.optional = true;
        s.features = set;
        s
    }
}

/// Dependency resolution context with features
#[derive(Debug, Clone)]
pub struct DependencyContext {
    /// Build dependencies
    pub build_deps: Vec<Dependency>,
    /// Host dependencies
    pub host_deps: Vec<Dependency>,
    /// Target dependencies
    pub target_deps: Vec<Dependency>,
    /// Enabled features, each once
    pub enabled_features: Vec<String>,
    /// Target architecture (for cross-compilation)
    pub target_arch: Option<String>,
    /// Host architecture
    pub host_arch: String,
}

/// A dependency is active when it is required, or when one of its features
/// is enabled.
pub open spec fn is_active(dep: Dependency, enabled: Seq<Seq<char>>) -> bool {
    !dep.optional || exists|i: int| 0 <= i < dep.features@.len() && enabled.contains(#[trigger] dep.features@[i]@)
}

/// The active dependencies among `deps`, in order.
pub open spec fn active_among(deps: Seq<Dependency>, enabled: Seq<Seq<char>>) -> Seq<Dependency>
    decreases deps.len(),
{
    if deps.len() == 0 {
        seq![]
    } else if is_active(deps.last(), enabled) {
        active_among(deps.drop_last(), enabled).push(deps.last())
    } else {
        active_among(deps.drop_last(), enabled)
    }
}

impl DependencyContext {
    /// Create new dependency context for a host architecture.
    pub fn new(host_arch: String) -> (r: Self)
        ensures
            r.build_deps@.len() == 0,
            r.host_deps@.len() == 0,
            r.target_deps@.len() == 0,
            r.enabled_features@.len() == 0,
            r.target_arch is None,
            r.host_arch == host_arch,
    {
        DependencyContext {
            build_deps: Vec::new(),
            host_deps: Vec::new(),
            target_deps: Vec::new(),
            enabled_features: Vec::new(),
            target_arch: None,
            host_arch,
        }
    }

    /// Add a dependency to the list of its kind (runtime ones to the target list).
    pub fn add_dependency(&mut self, dep: Dependency)
        ensures
            final(self).build_deps@ == if dep.kind == ExtendedDepKind::Build {
                old(self).build_deps@.push(dep)
            } else {
                old(self).build_deps@
            },
            final(self).host_deps@ == if dep.kind == ExtendedDepKind::Host {
                old(self).host_deps@.push(dep)
            } else {
                old(self).host_deps@
            },
            final(self).target_deps@ == if dep.kind == ExtendedDepKind::Target || dep.kind == ExtendedDepKind::Runtime {
                old(self).target_deps@.push(dep)
            } else {
                old(self).target_deps@
            },
            final(self).enabled_features == old(self).enabled_features,
            final(self).target_arch == old(self).target_arch,
            final(self).host_arch == old(self).host_arch,
    {
        match dep.kind {
            ExtendedDepKind::Build => self.build_deps.push(dep),
            ExtendedDepKind::Host => self.host_deps.push(dep),
            ExtendedDepKind::Target => self.target_deps.push(dep),
            ExtendedDepKind::Runtime => self.target_deps.push(dep),
        }
    }

    /// Enable a feature (enabling it twice changes nothing).
    pub fn enable_feature(&mut self, feature: String)
        ensures
            string_views(final(self).enabled_features@) == if string_views(old(self).enabled_features@).contains(feature@) {
                string_views(old(self).enabled_features@)
            } else {
                string_views(old(self).enabled_features@).push(feature@)
            },
            final(self).build_deps == old(self).build_deps,
            final(self).host_deps == old(self).host_deps,
            final(self).target_deps == old(self).target_deps,
            final(self).target_arch == old(self).target_arch,
            final(self).host_arch == old(self).host_arch,
    {
        if !contains_string(&self.enabled_features, &feature) {
            let ghost prev = self.enabled_features@;
            self.enabled_features.push(feature);
            assert(string_views(self.enabled_features@) =~= string_views(prev).push(feature@));
        }
    }

    /// Check if cross-compiling: a target architecture other than the host's.
    pub fn is_cross_compiling(&self) -> (r: bool)
        ensures
            r == (self.target_arch matches Some(t) && t@ != self.host_arch@),
    {
        match &self.target_arch {
            Some(t) => !(*t == self.host_arch),
            None => false,
        }
    }

    /// Check if a dependency is active based on features
    pub fn is_dependency_active(&self, dep: &Dependency) -> (r: bool)
        ensures
            r == is_active(*dep, string_views(self.enabled_features@)),
    {
        if !dep.optional {
            return true;
        }
        for i in 0..dep.features.len()
            invariant
                dep.optional,
                forall|j: int| 0 <= j < i ==> !string_views(self.enabled_features@).contains(#[trigger] dep.features@[j]@),
        {
            if contains_string(&self.enabled_features, &dep.features[i]) {
                return true;
            }
        }
        false
    }

    /// Filter dependencies by enabled features: the active build, then host,
    /// then target dependencies.
    pub fn active_dependencies(&self) -> (r: Vec<&Dependency>)
        ensures
            r@.map_values(|d: &Dependency| *d) == active_among(self.build_deps@, string_views(self.enabled_features@))
                + active_among(self.host_deps@, string_views(self.enabled_features@)) + active_among(
                self.target_deps@,
                string_views(self.enabled_features@),
            ),
    {
        let ghost en = string_views(self.enabled_features@);
        let mut deps: Vec<&Dependency> = Vec::new();
        for i in 0..self.build_deps.len()
            invariant
                en == string_views(self.enabled_features@),
                deps@.map_values(|d: &Dependency| *d) == active_among(self.build_deps@.take(i as int), en),
        {
            proof {
                assert(self.build_deps@.take(i + 1).drop_last() == self.build_deps@.take(i as int));
            }
            if self.is_dependency_active(&self.build_deps[i]) {
                deps.push(&self.build_deps[i]);
                assert(deps@.map_values(|d: &Dependency| *d) =~= active_among(self.build_deps@.take(i as int), en).push(
                    self.build_deps@[i as int],
                ));
            }
        }
        assert(self.build_deps@.take(self.build_deps@.len() as int) == self.build_deps@);
        let ghost after_build = deps@.map_values(|d: &Dependency| *d);
        for i in 0..self.host_deps.len()
            invariant
                en == string_views(self.enabled_features@),
                deps@.map_values(|d: &Dependency| *d) == after_build + active_among(self.host_deps@.take(i as int), en),
        {
            proof {
                assert(self.host_deps@.take(i + 1).drop_last() == self.host_deps@.take(i as int));
            }
            if self.is_dependency_active(&self.host_deps[i]) {
                let ghost prev = deps@;
                deps.push(&self.host_deps[i]);
                assert(deps@.map_values(|d: &Dependency| *d) =~= prev.map_values(|d: &Dependency| *d).push(
                    self.host_deps@[i as int],
                ));
                assert(deps@.map_values(|d: &Dependency| *d) =~= after_build + active_among(self.host_deps@.take(i as int), en).push(
                    self.host_deps@[i as int],
                ));
            }
        }
        assert(self.host_deps@.take(self.host_deps@.len() as int) == self.host_deps@);
        let ghost after_host = deps@.map_values(|d: &Dependency| *d);
        for i in 0..self.target_deps.len()
            invariant
                en == string_views(self.enabled_features@),
                deps@.map_values(|d: &Dependency| *d) == after_host + active_among(self.target_deps@.take(i as int), en),
        {
            proof {
                assert(self.target_deps@.take(i + 1).drop_last() == self.target_deps@.take(i as int));
            }
            if self.is_dependency_active(&self.target_deps[i]) {
                let ghost prev = deps@;
                deps.push(&self.target_deps[i]);
                assert(deps@.map_values(|d: &Dependency| *d) =~= prev.map_values(|d: &Dependency| *d).push(
                    self.target_deps@[i as int],
                ));
                assert(deps@.map_values(|d: &Dependency| *d) =~= after_host + active_among(self.target_deps@.take(i as int), en).push(
                    self.target_deps@[i as int],
                ));
            }
        }
        assert(self.target_deps@.take(self.target_deps@.len() as int) == self.target_deps@);
        deps
    }
}

/// Dependency graph node
#[derive(Debug, Clone)]
pub struct DependencyNode {
    /// Package name
    pub name: String,
    /// Package version
    pub version: String,
    /// Dependencies of this node
    pub dependencies: Vec<Dependency>,
    /// Whether this is a virtual node (for grouping)
    pub virtual_node: bool,
}

/// The key of a node: `<name>-<version>`.
pub open spec fn node_key(n: DependencyNode) -> Seq<char> {
    n.name@ + "-"@ + n.version@
}

/// Dependency graph for visualization and analysis: nodes under their keys,
/// and edges from dependents to their dependencies.
#[derive(Debug, Clone)]
pub struct DependencyGraph {
    keys: Vec<String>,
    nodes: Vec<DependencyNode>,
    edges: Vec<(String, String)>,
}

/// The index of `k` among distinct keys, or -1.
pub open spec fn key_index(keys: Seq<Seq<char>>, k: Seq<char>) -> int {
    if keys.contains(k) {
        choose|i: int| 0 <= i < keys.len() && keys[i] == k
    } else {
        -1
    }
}

/// `order` is a topological order of the graph with node keys `keys` and
/// edges `edges`: every node exactly once, only nodes, and each edge's
/// source before its target.
pub open spec fn is_topological_order(order: Seq<Seq<char>>, keys: Seq<Seq<char>>, edges: Seq<(Seq<char>, Seq<char>)>) -> bool {
    &&& order.len() == keys.len()
    &&& order.no_duplicates()
    &&& forall|i: int| 0 <= i < keys.len() ==> order.contains(#[trigger] keys[i])
    &&& forall|i: int| 0 <= i < order.len() ==> keys.contains(#[trigger] order[i])
    &&& forall|j: int| 0 <= j < edges.len() ==> source_first(order, #[trigger] edges[j])
}

/// The edge's source comes before its target in `order`.
pub open spec fn source_first(order: Seq<Seq<char>>, e: (Seq<char>, Seq<char>)) -> bool {
    exists|a: int, b: int| 0 <= a < b < order.len() && order[a] == e.0 && order[b] == e.1
}

/// The graph's nodes can be put in a topological order: it has no cycle.
pub open spec fn has_topological_order(keys: Seq<Seq<char>>, edges: Seq<(Seq<char>, Seq<char>)>) -> bool {
    exists|order: Seq<Seq<char>>| is_topological_order(order, keys, edges)
}

/// The number of edges, among the first `k`, into node `v` whose source is
/// not yet done, not counting those from `u` before `j`.
pub open spec fn pending(src: Seq<int>, dst: Seq<int>, v: int, done: Set<int>, u: int, j: int, k: int) -> nat
    decreases k,
{
    if k <= 0 {
        0
    } else {
        pending(src, dst, v, done, u, j, k - 1) + (if dst[k - 1] == v && !(src[k - 1] >= 0 && done.contains(src[k - 1]))
            && !(src[k - 1] == u && k - 1 < j) {
            1nat
        } else {
            0nat
        })
    }
}

proof fn lemma_pending_step(src: Seq<int>, dst: Seq<int>, v: int, done: Set<int>, u: int, j: int, k: int)
    requires
        0 <= j < k,
        u >= 0,
        !done.contains(u),
    ensures
        pending(src, dst, v, done, u, j + 1, k) + (if src[j] == u && dst[j] == v { 1int } else { 0int })
            == pending(src, dst, v, done, u, j, k),
    decreases k,
{
    if k - 1 > j {
        lemma_pending_step(src, dst, v, done, u, j, k - 1);
    } else {
        lemma_pending_same(src, dst, v, done, u, j, j + 1, k - 1);
    }
}

proof fn lemma_pending_same(src: Seq<int>, dst: Seq<int>, v: int, done: Set<int>, u: int, j1: int, j2: int, k: int)
    requires
        k <= j1,
        k <= j2,
    ensures
        pending(src, dst, v, done, u, j1, k) == pending(src, dst, v, done, u, j2, k),
    decreases k,
{
    if k > 0 {
        lemma_pending_same(src, dst, v, done, u, j1, j2, k - 1);
    }
}

proof fn lemma_pending_done(src: Seq<int>, dst: Seq<int>, v: int, done: Set<int>, u: int, k: int)
    requires
        u >= 0,
    ensures
        pending(src, dst, v, done, u, k, k) == pending(src, dst, v, done.insert(u), -1, 0, k),
    decreases k,
{
    if k > 0 {
        lemma_pending_done(src, dst, v, done, u, k - 1);
        lemma_pending_same(src, dst, v, done, u, k, k - 1, k - 1);
    }
}

proof fn lemma_pending_positive(src: Seq<int>, dst: Seq<int>, v: int, done: Set<int>, k: int)
    requires
        pending(src, dst, v, done, -1, 0, k) > 0,
    ensures
        exists|j: int| 0 <= j < k && dst[j] == v && !(src[j] >= 0 && done.contains(src[j])),
    decreases k,
{
    if k > 0 {
        if !(dst[k - 1] == v && !(src[k - 1] >= 0 && done.contains(src[k - 1]))) {
            lemma_pending_positive(src, dst, v, done, k - 1);
            let j = choose|j: int| 0 <= j < k - 1 && dst[j] == v && !(src[j] >= 0 && done.contains(src[j]));
            assert(0 <= j < k && dst[j] == v);
        }
    }
}

proof fn lemma_pending_zero(src: Seq<int>, dst: Seq<int>, v: int, done: Set<int>, k: int, j: int)
    requires
        pending(src, dst, v, done, -1, 0, k) == 0,
        0 <= j < k,
        dst[j] == v,
    ensures
        src[j] >= 0 && done.contains(src[j]),
    decreases k,
{
    if j < k - 1 {
        lemma_pending_zero(src, dst, v, done, k - 1, j);
    }
}

/// The node indices among the first `h` of the queue.
pub open spec fn done_set(q: Seq<usize>, h: int) -> Set<int> {
    Set::new(|x: int| exists|i: int| 0 <= i < h && q[i] as int == x)
}

proof fn lemma_pending_any_u(src: Seq<int>, dst: Seq<int>, v: int, done: Set<int>, u1: int, u2: int, k: int)
    ensures
        pending(src, dst, v, done, u1, 0, k) == pending(src, dst, v, done, u2, 0, k),
    decreases k,
{
    if k > 0 {
        lemma_pending_any_u(src, dst, v, done, u1, u2, k - 1);
    }
}

proof fn lemma_done_set_prefix(q1: Seq<usize>, q2: Seq<usize>, h: int)
    requires
        0 <= h <= q1.len(),
        h <= q2.len(),
        forall|i: int| 0 <= i < h ==> q1[i] == q2[i],
    ensures
        done_set(q1, h) == done_set(q2, h),
{
    assert forall|x: int| done_set(q1, h).contains(x) <==> done_set(q2, h).contains(x) by {
        if done_set(q1, h).contains(x) {
            let i = choose|i: int| 0 <= i < h && q1[i] as int == x;
            assert(q2[i] as int == x);
        }
        if done_set(q2, h).contains(x) {
            let i = choose|i: int| 0 <= i < h && q2[i] as int == x;
            assert(q1[i] as int == x);
        }
    }
    assert(done_set(q1, h) =~= done_set(q2, h));
}

proof fn lemma_pending_step_other(src: Seq<int>, dst: Seq<int>, done: Set<int>, u: int, j: int, k: int)
    requires
        0 <= j < k,
        u >= 0,
        !done.contains(u),
    ensures
        forall|v: int| #[trigger] pending(src, dst, v, done, u, j + 1, k) + (if src[j] == u && dst[j] == v { 1int } else { 0int })
            == pending(src, dst, v, done, u, j, k),
{
    assert forall|v: int| #[trigger] pending(src, dst, v, done, u, j + 1, k) + (if src[j] == u && dst[j] == v { 1int } else { 0int })
        == pending(src, dst, v, done, u, j, k) by {
        lemma_pending_step(src, dst, v, done, u, j, k);
    }
}

proof fn lemma_pending_zero_general(src: Seq<int>, dst: Seq<int>, v: int, done: Set<int>, u: int, j: int, k: int)
    requires
        pending(src, dst, v, done, u, j, k) == 0,
    ensures
        forall|jj: int| 0 <= jj < k && dst[jj] == v ==> (src[jj] >= 0 && done.contains(src[jj])) || (src[jj] == u && jj < j),
    decreases k,
{
    if k > 0 {
        lemma_pending_zero_general(src, dst, v, done, u, j, k - 1);
    }
}

/// A queue without repeats of indices below `n` is no longer than `n`, and
/// holds every index when it is exactly that long.
proof fn lemma_nodup_bounded(q: Seq<usize>, n: int)
    requires
        q.no_duplicates(),
        n >= 0,
        forall|i: int| 0 <= i < q.len() ==> #[trigger] q[i] < n,
    ensures
        q.len() <= n,
        q.len() == n ==> forall|v: usize| (v as int) < n ==> #[trigger] q.contains(v),
{
    let qi = q.map_values(|x: usize| x as int);
    assert(qi.no_duplicates()) by {
        assert forall|a: int, b: int| 0 <= a < b < qi.len() implies qi[a] != qi[b] by {
            assert(q[a] != q[b]);
        }
    }
    qi.unique_seq_to_set();
    lemma_int_range(0, n);
    assert(qi.to_set().subset_of(set_int_range(0, n))) by {
        assert forall|x: int| qi.to_set().contains(x) implies set_int_range(0, n).contains(x) by {
            let i = choose|i: int| 0 <= i < qi.len() && qi[i] == x;
            assert(q[i] < n);
        }
    }
    lemma_len_subset(qi.to_set(), set_int_range(0, n));
    if q.len() == n {
        lemma_subset_equality(qi.to_set(), set_int_range(0, n));
        assert forall|v: usize| (v as int) < n implies #[trigger] q.contains(v) by {
            assert(set_int_range(0, n).contains(v as int));
            assert(qi.to_set().contains(v as int));
            let i = choose|i: int| 0 <= i < qi.len() && qi[i] == v as int;
            assert(q[i] == v);
        }
    }
}

/// A queue without repeats that holds every index below `n` is at least `n` long.
proof fn lemma_full_queue(q: Seq<usize>, n: int)
    requires
        0 <= n <= usize::MAX,
        forall|v: usize| (v as int) < n ==> #[trigger] q.contains(v),
    ensures
        q.len() >= n,
{
    let qi = q.map_values(|x: usize| x as int);
    qi.lemma_cardinality_of_set();
    lemma_int_range(0, n);
    assert(set_int_range(0, n).subset_of(qi.to_set())) by {
        assert forall|x: int| set_int_range(0, n).contains(x) implies qi.to_set().contains(x) by {
            assert(q.contains(x as usize));
            assert((x as usize) as int == x);
            let i = choose|i: int| 0 <= i < q.len() && q[i] == x as usize;
            assert(qi[i] == x);
        }
    }
    lemma_len_subset(set_int_range(0, n), qi.to_set());
}

/// A full queue in which every edge's source comes before its target is a
/// topological order.
proof fn lemma_queue_is_order(
    keys: Seq<Seq<char>>,
    es: Seq<(Seq<char>, Seq<char>)>,
    src: Seq<int>,
    dst: Seq<int>,
    q: Seq<usize>,
)
    requires
        keys.no_duplicates(),
        keys.len() <= usize::MAX,
        q.len() == keys.len(),
        q.no_duplicates(),
        forall|i: int| 0 <= i < q.len() ==> #[trigger] q[i] < keys.len(),
        src == Seq::new(es.len(), |j: int| key_index(keys, es[j].0)),
        dst == Seq::new(es.len(), |j: int| key_index(keys, es[j].1)),
        forall|j: int| 0 <= j < es.len() ==> keys.contains(#[trigger] es[j].1),
        forall|i: int, j: int| #![trigger q[i], dst[j]] 0 <= i < q.len() && 0 <= j < es.len() && dst[j] == q[i] as int
            ==> src[j] >= 0 && exists|i2: int| 0 <= i2 < i && #[trigger] q[i2] as int == src[j],
    ensures
        is_topological_order(Seq::new(keys.len(), |i: int| keys[q[i] as int]), keys, es),
{
    let n = keys.len() as int;
    let order = Seq::new(keys.len(), |i: int| keys[q[i] as int]);
    lemma_nodup_bounded(q, n);
    assert(order.no_duplicates()) by {
        assert forall|a: int, b: int| 0 <= a < b < order.len() implies order[a] != order[b] by {
            assert(q[a] != q[b]);
        }
    }
    assert forall|i: int| 0 <= i < keys.len() implies order.contains(#[trigger] keys[i]) by {
        assert(q.contains(i as usize));
        assert((i as usize) as int == i);
        let p = choose|p: int| 0 <= p < q.len() && q[p] == i as usize;
        assert(order[p] == keys[i]);
    }
    assert forall|i: int| 0 <= i < order.len() implies keys.contains(#[trigger] order[i]) by {
        assert(keys[q[i] as int] == order[i]);
    }
    assert forall|j: int| 0 <= j < es.len() implies source_first(order, #[trigger] es[j]) by {
        assert(keys.contains(es[j].1));
        let t = dst[j];
        assert(0 <= t < n && keys[t] == es[j].1);
        assert(q.contains(t as usize));
        let b = choose|b: int| 0 <= b < q.len() && q[b] == t as usize;
        assert(dst[j] == q[b] as int);
        assert(src[j] >= 0);
        let a = choose|a: int| 0 <= a < b && #[trigger] q[a] as int == src[j];
        assert(keys.contains(es[j].0));
        assert(keys[src[j]] == es[j].0);
        assert(order[a] == es[j].0);
        assert(order[b] == es[j].1);
        assert(0 <= a < b < order.len() && order[a] == es[j].0 && order[b] == es[j].1);
    }

}

/// The first position of `order` whose key's index is not in the queue.
proof fn first_unqueued(keys: Seq<Seq<char>>, order: Seq<Seq<char>>, q: Seq<usize>, i: int) -> (r: int)
    requires
        0 <= i < order.len(),
        !q.contains(key_index(keys, order[i]) as usize),
    ensures
        0 <= r <= i,
        !q.contains(key_index(keys, order[r]) as usize),
        forall|k: int| 0 <= k < r ==> q.contains(key_index(keys, #[trigger] order[k]) as usize),
    decreases i,
{
    if exists|k: int| 0 <= k < i && !q.contains(key_index(keys, #[trigger] order[k]) as usize) {
        let k = choose|k: int| 0 <= k < i && !q.contains(key_index(keys, #[trigger] order[k]) as usize);
        first_unqueued(keys, order, q, k)
    } else {
        i
    }
}

/// When the queue stops short of every node, the graph has no topological
/// order: the first unqueued node of any order would have an edge from a
/// node that is queued before it.
proof fn lemma_stuck_means_cycle(
    keys: Seq<Seq<char>>,
    es: Seq<(Seq<char>, Seq<char>)>,
    src: Seq<int>,
    dst: Seq<int>,
    q: Seq<usize>,
    indeg: Seq<usize>,
)
    requires
        keys.no_duplicates(),
        keys.len() <= usize::MAX,
        q.len() < keys.len(),
        q.no_duplicates(),
        indeg.len() == keys.len(),
        src == Seq::new(es.len(), |j: int| key_index(keys, es[j].0)),
        dst == Seq::new(es.len(), |j: int| key_index(keys, es[j].1)),
        forall|w: int| 0 <= w < keys.len() ==> #[trigger] indeg[w] == pending(src, dst, w, done_set(q, q.len() as int), -1, 0, es.len() as int),
        forall|w: int| 0 <= w < keys.len() ==> (q.contains(w as usize) <==> #[trigger] indeg[w] == 0),
    ensures
        !has_topological_order(keys, es),
{
    let n = keys.len() as int;
    if has_topological_order(keys, es) {
        let order = choose|order: Seq<Seq<char>>| is_topological_order(order, keys, es);
        // some node is not queued
        if forall|v: usize| (v as int) < n ==> #[trigger] q.contains(v) {
            lemma_full_queue(q, n);
        }
        let vu = choose|vu: usize| (vu as int) < n && !q.contains(vu);
        let v = vu as int;
        assert(order.contains(keys[v]));
        let iv = choose|iv: int| 0 <= iv < order.len() && order[iv] == keys[v];
        lemma_key_index(keys, v);
        let p = first_unqueued(keys, order, q, iv);
        assert(keys.contains(order[p]));
        let r = key_index(keys, order[p]);
        assert(0 <= r < n && keys[r] == order[p]);
        assert(indeg[r] != 0);
        lemma_pending_positive(src, dst, r, done_set(q, q.len() as int), es.len() as int);
        let j = choose|j: int| 0 <= j < es.len() && dst[j] == r && !(src[j] >= 0 && done_set(q, q.len() as int).contains(src[j]));
        assert(source_first(order, es[j]));
        let (a, b) = choose|a: int, b: int| 0 <= a < b < order.len() && order[a] == es[j].0 && order[b] == es[j].1;
        assert(keys.contains(es[j].1));
        assert(keys[dst[j]] == es[j].1);
        assert(order[b] == order[p]);
        assert(b == p);
        assert(keys.contains(order[a]));
        assert(q.contains(key_index(keys, order[a]) as usize));
        assert(src[j] == key_index(keys, order[a]));
        let iq = choose|iq: int| 0 <= iq < q.len() && q[iq] == src[j] as usize;
        assert(src[j] >= 0 && src[j] < n);
        assert(q[iq] as int == src[j]);
        assert(done_set(q, q.len() as int).contains(src[j]));
    }
}

fn find_key(keys: &Vec<String>, k: &String) -> (r: Option<usize>)
    ensures
        match r {
            Some(i) => i < keys@.len() && keys@[i as int]@ == k@,
            None => !string_views(keys@).contains(k@),
        },
{
    for i in 0..keys.len()
        invariant
            forall|j: int| 0 <= j < i ==> keys@[j]@ != k@,
    {
        if keys[i] == *k {
            return Some(i);
        }
    }
    proof {
        if string_views(keys@).contains(k@) {
            let j = choose|j: int| 0 <= j < string_views(keys@).len() && string_views(keys@)[j] == k@;
            assert(keys@[j]@ == k@);
        }
    }
    None
}

/// Distinct keys: the index of a key present is where it stands.
proof fn lemma_key_index(keys: Seq<Seq<char>>, i: int)
    requires
        keys.no_duplicates(),
        0 <= i < keys.len(),
    ensures
        key_index(keys, keys[i]) == i,
{
    assert(keys.contains(keys[i]));
    let c = choose|c: int| 0 <= c < keys.len() && keys[c] == keys[i];
    assert(c == i);
}

/// An edge from `a` to `b` is among the edges.
pub open spec fn has_edge(es: Seq<(Seq<char>, Seq<char>)>, a: Seq<char>, b: Seq<char>) -> bool {
    exists|j: int| 0 <= j < es.len() && #[trigger] es[j] == (a, b)
}

/// Consecutive entries of `p` are joined by edges.
pub open spec fn is_walk(p: Seq<Seq<char>>, es: Seq<(Seq<char>, Seq<char>)>) -> bool {
    forall|i: int| 0 <= i < p.len() - 1 ==> has_edge(es, #[trigger] p[i], p[i + 1])
}

/// `c` is a cycle: a walk whose last entry has an edge back to its first.
pub open spec fn is_cycle(c: Seq<Seq<char>>, es: Seq<(Seq<char>, Seq<char>)>) -> bool {
    c.len() >= 1 && is_walk(c, es) && has_edge(es, c.last(), c[0])
}

/// `x` has been visited and is off the current path: the search from it is
/// complete.
pub open spec fn finished(visited: Seq<Seq<char>>, path: Seq<Seq<char>>, x: Seq<char>) -> bool {
    visited.contains(x) && !path.contains(x)
}

/// Every edge that leaves a finished entry ends at a finished entry.
pub open spec fn finished_closed(visited: Seq<Seq<char>>, path: Seq<Seq<char>>, es: Seq<(Seq<char>, Seq<char>)>) -> bool {
    forall|j: int| 0 <= j < es.len() && finished(visited, path, (#[trigger] es[j]).0) ==> finished(visited, path, es[j].1)
}

/// No cycle passes through a finished entry.
pub open spec fn finished_acyclic(visited: Seq<Seq<char>>, path: Seq<Seq<char>>, es: Seq<(Seq<char>, Seq<char>)>) -> bool {
    forall|c: Seq<Seq<char>>, i: int| is_cycle(c, es) && 0 <= i < c.len() ==> !(#[trigger] finished(visited, path, c[i]))
}

/// `x` can be reached along edges from one of `starts`.
pub open spec fn reachable_from(starts: Seq<Seq<char>>, es: Seq<(Seq<char>, Seq<char>)>, x: Seq<char>) -> bool {
    exists|w: Seq<Seq<char>>| #[trigger] is_walk(w, es) && w.len() > 0 && starts.contains(w[0]) && w.last() == x
}

/// Entering a node that was not visited, on both the visited list and the
/// path, leaves the finished entries as they were.
proof fn lemma_enter_node(vs: Seq<Seq<char>>, ps: Seq<Seq<char>>, node: Seq<char>, es: Seq<(Seq<char>, Seq<char>)>)
    requires
        !vs.contains(node),
        finished_closed(vs, ps, es),
        finished_acyclic(vs, ps, es),
    ensures
        finished_closed(vs.push(node), ps.push(node), es),
        finished_acyclic(vs.push(node), ps.push(node), es),
{
    broadcast use vstd::seq_lib::lemma_seq_contains_after_push;
    assert forall|x: Seq<char>| #[trigger] finished(vs.push(node), ps.push(node), x) == finished(vs, ps, x) by {}
    assert forall|j: int| 0 <= j < es.len() && finished(vs.push(node), ps.push(node), (#[trigger] es[j]).0)
        implies finished(vs.push(node), ps.push(node), es[j].1) by {
        assert(finished(vs, ps, es[j].0));
    }
    assert forall|c: Seq<Seq<char>>, i: int| is_cycle(c, es) && 0 <= i < c.len()
        implies !(#[trigger] finished(vs.push(node), ps.push(node), c[i])) by {
        assert(!finished(vs, ps, c[i]));
    }
}

/// Once every edge out of `node` ends at a finished entry, taking `node` off
/// the path finishes it and keeps the finished entries closed and acyclic.
proof fn lemma_finish_node(vs: Seq<Seq<char>>, p0: Seq<Seq<char>>, node: Seq<char>, es: Seq<(Seq<char>, Seq<char>)>)
    requires
        vs.contains(node),
        !p0.contains(node),
        finished_closed(vs, p0.push(node), es),
        finished_acyclic(vs, p0.push(node), es),
        forall|j: int| 0 <= j < es.len() && (#[trigger] es[j]).0 == node ==> finished(vs, p0.push(node), es[j].1),
    ensures
        finished(vs, p0, node),
        finished_closed(vs, p0, es),
        finished_acyclic(vs, p0, es),
{
    broadcast use vstd::seq_lib::lemma_seq_contains_after_push;
    let pn = p0.push(node);
    assert forall|x: Seq<char>| #[trigger] finished(vs, p0, x) == (x == node || finished(vs, pn, x)) by {}
    assert forall|j: int| 0 <= j < es.len() && finished(vs, p0, (#[trigger] es[j]).0) implies finished(vs, p0, es[j].1) by {
        if es[j].0 != node {
            assert(finished(vs, pn, es[j].0));
        }
        assert(finished(vs, pn, es[j].1));
    }
    assert forall|c: Seq<Seq<char>>, i: int| is_cycle(c, es) && 0 <= i < c.len() implies !(#[trigger] finished(vs, p0, c[i])) by {
        if c[i] == node {
            let k = if i < c.len() - 1 { i + 1 } else { 0 };
            assert(has_edge(es, c[i], c[k])) by {
                if i < c.len() - 1 {
                    assert(has_edge(es, c[i], c[i + 1]));
                }
            }
            let j = choose|j: int| 0 <= j < es.len() && #[trigger] es[j] == (c[i], c[k]);
            assert(es[j].0 == node);
            assert(finished(vs, pn, c[k]));
            assert(!finished(vs, pn, c[k]));
        } else {
            assert(!finished(vs, pn, c[i]));
        }
    }
}

/// A walk that starts at a finished entry, where the finished entries are
/// closed under the edges, ends at a finished entry.
proof fn lemma_walk_stays_finished(vs: Seq<Seq<char>>, ps: Seq<Seq<char>>, es: Seq<(Seq<char>, Seq<char>)>, w: Seq<Seq<char>>)
    requires
        finished_closed(vs, ps, es),
        is_walk(w, es),
        w.len() > 0,
        finished(vs, ps, w[0]),
    ensures
        finished(vs, ps, w.last()),
    decreases w.len(),
{
    if w.len() > 1 {
        let w0 = w.drop_last();
        assert forall|i: int| 0 <= i < w0.len() - 1 implies has_edge(es, #[trigger] w0[i], w0[i + 1]) by {
            assert(w0[i] == w[i]);
            assert(w0[i + 1] == w[i + 1]);
            assert(has_edge(es, w[i], w[i + 1]));
        }
        lemma_walk_stays_finished(vs, ps, es, w0);
        let n = w.len() - 2;
        assert(w0.last() == w[n]);
        assert(has_edge(es, w[n], w[n + 1]));
        let j = choose|j: int| 0 <= j < es.len() && #[trigger] es[j] == (w[n], w[n + 1]);
        assert(finished(vs, ps, es[j].0));
    }
}

/// A successor of `x` among `r`, where it has one.
spec fn successor_in(r: Seq<Seq<char>>, es: Seq<(Seq<char>, Seq<char>)>, x: Seq<char>) -> Seq<char> {
    choose|y: Seq<char>| r.contains(y) && has_edge(es, x, y)
}

/// The walk of `n` steps from `x` that always moves to a successor among `r`.
#[verifier::opaque]
spec fn follow(r: Seq<Seq<char>>, es: Seq<(Seq<char>, Seq<char>)>, x: Seq<char>, n: nat) -> Seq<Seq<char>>
    decreases n,
{
    if n == 0 {
        seq![x]
    } else {
        let w = follow(r, es, x, (n - 1) as nat);
        w.push(successor_in(r, es, w.last()))
    }
}

proof fn lemma_follow(r: Seq<Seq<char>>, es: Seq<(Seq<char>, Seq<char>)>, x: Seq<char>, n: nat)
    requires
        r.contains(x),
        forall|z: Seq<char>| #[trigger] r.contains(z) ==> leads_into(r, es, z),
    ensures
        follow(r, es, x, n).len() == n + 1,
        follow(r, es, x, n)[0] == x,
        forall|i: int| 0 <= i < n + 1 ==> r.contains(#[trigger] follow(r, es, x, n)[i]),
        is_walk(follow(r, es, x, n), es),
    decreases n,
{
    reveal(follow);
    if n > 0 {
        let w = follow(r, es, x, (n - 1) as nat);
        lemma_follow(r, es, x, (n - 1) as nat);
        let z = w.last();
        assert(r.contains(w[n - 1]));
        assert(r.contains(z));
        let y = successor_in(r, es, z);
        assert(r.contains(y) && has_edge(es, z, y));
        let w2 = follow(r, es, x, n);
        assert(w2 == w.push(y));
        assert forall|i: int| 0 <= i < n + 1 implies r.contains(#[trigger] w2[i]) by {
            if i < n {
                assert(w2[i] == w[i]);
            }
        }
        assert forall|i: int| 0 <= i < w2.len() - 1 implies has_edge(es, #[trigger] w2[i], w2[i + 1]) by {
            if i < n - 1 {
                assert(w2[i] == w[i]);
                assert(w2[i + 1] == w[i + 1]);
                assert(has_edge(es, w[i], w[i + 1]));
            } else {
                assert(w2[i] == z);
            }
        }
    }
}

/// A list longer than a list of distinct entries that holds all its entries
/// repeats one.
proof fn lemma_longer_repeats(w: Seq<Seq<char>>, r: Seq<Seq<char>>)
    requires
        w.len() > r.len(),
        forall|i: int| 0 <= i < w.len() ==> r.contains(#[trigger] w[i]),
    ensures
        !w.no_duplicates(),
{
    broadcast use vstd::seq_lib::seq_to_set_is_finite;
    if w.no_duplicates() {
        w.unique_seq_to_set();
        r.lemma_cardinality_of_set();
        assert forall|a: Seq<char>| w.to_set().contains(a) implies r.to_set().contains(a) by {
            let i = choose|i: int| 0 <= i < w.len() && w[i] == a;
            assert(r.contains(w[i]));
        }
        vstd::set_lib::lemma_len_subset(w.to_set(), r.to_set());
    }
}

/// A walk that comes back to an entry holds a cycle.
proof fn lemma_repeat_is_cycle(w: Seq<Seq<char>>, es: Seq<(Seq<char>, Seq<char>)>, i: int, j: int)
    requires
        is_walk(w, es),
        0 <= i < j < w.len(),
        w[i] == w[j],
    ensures
        is_cycle(w.subrange(i, j), es),
{
    let c = w.subrange(i, j);
    assert forall|k: int| 0 <= k < c.len() - 1 implies has_edge(es, #[trigger] c[k], c[k + 1]) by {
        assert(c[k] == w[i + k]);
        assert(c[k + 1] == w[i + k + 1]);
        assert(has_edge(es, w[i + k], w[i + k + 1]));
    }
    assert(c.last() == w[j - 1]);
    assert(has_edge(es, w[j - 1], w[j - 1 + 1]));
}

/// `z` has an edge to an entry of `r`.
spec fn leads_into(r: Seq<Seq<char>>, es: Seq<(Seq<char>, Seq<char>)>, z: Seq<char>) -> bool {
    exists|y: Seq<char>| r.contains(y) && has_edge(es, z, y)
}

/// Where every entry of a nonempty `r` has an edge to an entry of `r`,
/// following such edges closes a cycle.
proof fn lemma_cycle_without_sink(r: Seq<Seq<char>>, es: Seq<(Seq<char>, Seq<char>)>) -> (c: Seq<Seq<char>>)
    requires
        r.len() > 0,
        forall|z: Seq<char>| #[trigger] r.contains(z) ==> leads_into(r, es, z),
    ensures
        is_cycle(c, es),
{
    assert(r.contains(r[0]));
    let n = r.len();
    lemma_follow(r, es, r[0], n);
    let w = follow(r, es, r[0], n);
    lemma_longer_repeats(w, r);
    let (i0, j0) = choose|i: int, j: int| 0 <= i < w.len() && 0 <= j < w.len() && i != j && w[i] == w[j];
    if i0 < j0 {
        lemma_repeat_is_cycle(w, es, i0, j0);
        w.subrange(i0, j0)
    } else {
        lemma_repeat_is_cycle(w, es, j0, i0);
        w.subrange(j0, i0)
    }
}

/// In a graph without cycles, every nonempty list of entries has one with no
/// edge to an entry of the list.
proof fn lemma_sink_exists(r: Seq<Seq<char>>, es: Seq<(Seq<char>, Seq<char>)>) -> (x: Seq<char>)
    requires
        r.len() > 0,
        forall|c: Seq<Seq<char>>| !is_cycle(c, es),
    ensures
        r.contains(x),
        !leads_into(r, es, x),
{
    if exists|x: Seq<char>| r.contains(x) && !leads_into(r, es, x) {
        choose|x: Seq<char>| r.contains(x) && !leads_into(r, es, x)
    } else {
        let c = lemma_cycle_without_sink(r, es);
        assert(!is_cycle(c, es));
        r[0]
    }
}

/// In a graph without cycles, the distinct entries `r` can be listed so that
/// each edge between two of them goes forward.
proof fn lemma_order_of(r: Seq<Seq<char>>, es: Seq<(Seq<char>, Seq<char>)>) -> (o: Seq<Seq<char>>)
    requires
        r.no_duplicates(),
        forall|c: Seq<Seq<char>>| !is_cycle(c, es),
    ensures
        o.len() == r.len(),
        o.no_duplicates(),
        forall|i: int| 0 <= i < r.len() ==> o.contains(#[trigger] r[i]),
        forall|i: int| 0 <= i < o.len() ==> r.contains(#[trigger] o[i]),
        forall|j: int| 0 <= j < es.len() && r.contains((#[trigger] es[j]).0) && r.contains(es[j].1) ==> source_first(o, es[j]),
    decreases r.len(),
{
    if r.len() == 0 {
        seq![]
    } else {
        let x = lemma_sink_exists(r, es);
        let k = choose|k: int| 0 <= k < r.len() && r[k] == x;
        let r2 = r.remove(k);
        assert(r2.len() == r.len() - 1);
        assert forall|i: int| 0 <= i < r2.len() implies r2[i] == (if i < k { r[i] } else { r[i + 1] }) by {}
        assert(r2.no_duplicates()) by {
            assert forall|a: int, b: int| 0 <= a < r2.len() && 0 <= b < r2.len() && a != b implies r2[a] != r2[b] by {
                let ia = if a < k { a } else { a + 1 };
                let ib = if b < k { b } else { b + 1 };
                assert(r2[a] == r[ia]);
                assert(r2[b] == r[ib]);
            }
        }
        // membership in r2: the entries of r other than x
        assert forall|y: Seq<char>| r.contains(y) && y != x implies r2.contains(y) by {
            let i = choose|i: int| 0 <= i < r.len() && r[i] == y;
            assert(i != k);
            let i2 = if i < k { i } else { i - 1 };
            assert(r2[i2] == y);
        }
        assert forall|y: Seq<char>| r2.contains(y) implies r.contains(y) && y != x by {
            let i = choose|i: int| 0 <= i < r2.len() && r2[i] == y;
            let i1 = if i < k { i } else { i + 1 };
            assert(r[i1] == y);
            assert(i1 != k);
        }
        let o2 = lemma_order_of(r2, es);
        let o = o2.push(x);
        assert(!o2.contains(x)) by {
            if o2.contains(x) {
                let i = choose|i: int| 0 <= i < o2.len() && o2[i] == x;
                assert(r2.contains(o2[i]));
            }
        }
        assert(o.no_duplicates()) by {
            assert forall|a: int, b: int| 0 <= a < o.len() && 0 <= b < o.len() && a != b implies o[a] != o[b] by {
                if a < o2.len() && b < o2.len() {
                    assert(o[a] == o2[a]);
                    assert(o[b] == o2[b]);
                } else if a < o2.len() {
                    assert(o[a] == o2[a]);
                    assert(o2.contains(o2[a]));
                } else if b < o2.len() {
                    assert(o[b] == o2[b]);
                    assert(o2.contains(o2[b]));
                }
            }
        }
        assert forall|i: int| 0 <= i < r.len() implies o.contains(#[trigger] r[i]) by {
            if r[i] == x {
                assert(o[o.len() - 1] == x);
            } else {
                assert(r.contains(r[i]));
                assert(r2.contains(r[i]));
                let i2 = choose|i2: int| 0 <= i2 < r2.len() && r2[i2] == r[i];
                assert(o2.contains(r2[i2]));
                let p = choose|p: int| 0 <= p < o2.len() && o2[p] == r[i];
                assert(o[p] == r[i]);
            }
        }
        assert forall|i: int| 0 <= i < o.len() implies r.contains(#[trigger] o[i]) by {
            if i < o2.len() {
                assert(o[i] == o2[i]);
                assert(r2.contains(o2[i]));
            } else {
                assert(r[k] == x);
            }
        }
        assert forall|j: int| 0 <= j < es.len() && r.contains((#[trigger] es[j]).0) && r.contains(es[j].1)
            implies source_first(o, es[j]) by {
            let (a, b) = es[j];
            assert(has_edge(es, a, b));
            assert(a != x) by {
                if a == x {
                    assert(r.contains(b) && has_edge(es, x, b));
                    assert(leads_into(r, es, x));
                }
            }
            assert(r2.contains(a));
            if b == x {
                let p = choose|p: int| 0 <= p < r2.len() && r2[p] == a;
                assert(o2.contains(r2[p]));
                let q = choose|q: int| 0 <= q < o2.len() && o2[q] == a;
                assert(o[q] == a);
                assert(o[o2.len() as int] == b);
            } else {
                assert(r2.contains(b));
                assert(source_first(o2, es[j]));
                let (p, q) = choose|p: int, q: int| 0 <= p < q < o2.len() && o2[p] == es[j].0 && o2[q] == es[j].1;
                assert(o[p] == o2[p]);
                assert(o[q] == o2[q]);
            }
        }
        o
    }
}

/// A graph whose edges join node keys has a topological order exactly when it
/// has no cycle, and exactly when no cycle can be reached from a node key:
/// the condition under which cycle detection finds none.
pub proof fn lemma_topological_order_iff_acyclic(keys: Seq<Seq<char>>, es: Seq<(Seq<char>, Seq<char>)>)
    requires
        keys.no_duplicates(),
        forall|j: int| 0 <= j < es.len() ==> keys.contains((#[trigger] es[j]).0) && keys.contains(es[j].1),
    ensures
        has_topological_order(keys, es) <==> (forall|c: Seq<Seq<char>>| !is_cycle(c, es)),
        has_topological_order(keys, es) <==> (forall|c: Seq<Seq<char>>, i: int| is_cycle(c, es) && 0 <= i < c.len()
            ==> !reachable_from(keys, es, #[trigger] c[i])),
{
    assert forall|c: Seq<Seq<char>>, i: int| is_cycle(c, es) && 0 <= i < c.len() implies reachable_from(keys, es, #[trigger] c[i]) by {
        let p = if i > 0 { i - 1 } else { c.len() - 1 };
        assert(has_edge(es, c[p], c[i])) by {
            if i > 0 {
                assert(has_edge(es, c[i - 1], c[i - 1 + 1]));
            }
        }
        let j = choose|j: int| 0 <= j < es.len() && #[trigger] es[j] == (c[p], c[i]);
        assert(keys.contains(es[j].1));
        let w = seq![c[i]];
        assert(is_walk(w, es));
    }
    if forall|c: Seq<Seq<char>>| !is_cycle(c, es) {
        let o = lemma_order_of(keys, es);
        assert(is_topological_order(o, keys, es));
    }
    if has_topological_order(keys, es) {
        let o = choose|o: Seq<Seq<char>>| is_topological_order(o, keys, es);
        assert forall|c: Seq<Seq<char>>| !is_cycle(c, es) by {
            if is_cycle(c, es) {
                lemma_cycle_blocks_order(c, o, keys, es);
            }
        }
    }
}

/// Everything a walk can visit: the node keys and the edges' ends.
pub open spec fn universe(keys: Seq<Seq<char>>, es: Seq<(Seq<char>, Seq<char>)>) -> Set<Seq<char>> {
    (keys + es.map_values(|e: (Seq<char>, Seq<char>)| e.0) + es.map_values(|e: (Seq<char>, Seq<char>)| e.1)).to_set()
}

/// No graph with a cycle has a topological order.
pub proof fn lemma_cycle_blocks_order(
    c: Seq<Seq<char>>,
    order: Seq<Seq<char>>,
    keys: Seq<Seq<char>>,
    es: Seq<(Seq<char>, Seq<char>)>,
)
    requires
        is_cycle(c, es),
    ensures
        !is_topological_order(order, keys, es),
{
    if is_topological_order(order, keys, es) {
        // positions strictly increase along the cycle and wrap around
        let pos = |x: Seq<char>| choose|i: int| 0 <= i < order.len() && order[i] == x;
        assert forall|i: int| 0 <= i < c.len() implies order.contains(#[trigger] c[i]) && 0 <= pos(c[i]) < order.len()
            && order[pos(c[i])] == c[i] by {
            let e = if i < c.len() - 1 { (c[i], c[i + 1]) } else { (c.last(), c[0]) };
            assert(has_edge(es, e.0, e.1));
            let j = choose|j: int| 0 <= j < es.len() && #[trigger] es[j] == e;
            assert(source_first(order, es[j]));
            let (a, b) = choose|a: int, b: int| 0 <= a < b < order.len() && order[a] == es[j].0 && order[b] == es[j].1;
            assert(order[a] == c[i]);
        }
        assert forall|i: int| 0 <= i < c.len() - 1 implies pos(#[trigger] c[i]) < pos(c[i + 1]) by {
            assert(has_edge(es, c[i], c[i + 1]));
            let j = choose|j: int| 0 <= j < es.len() && #[trigger] es[j] == (c[i], c[i + 1]);
            assert(source_first(order, es[j]));
            let (a, b) = choose|a: int, b: int| 0 <= a < b < order.len() && order[a] == es[j].0 && order[b] == es[j].1;
            assert(order[pos(c[i])] == order[a]);
            assert(order[pos(c[i + 1])] == order[b]);
            assert(pos(c[i]) == a);
            assert(pos(c[i + 1]) == b);
        }
        lemma_increasing_along(c, pos);
        assert(has_edge(es, c.last(), c[0]));
        let j = choose|j: int| 0 <= j < es.len() && #[trigger] es[j] == (c.last(), c[0]);
        assert(source_first(order, es[j]));
        let (a, b) = choose|a: int, b: int| 0 <= a < b < order.len() && order[a] == es[j].0 && order[b] == es[j].1;
        assert(order[pos(c.last())] == order[a]);
        assert(order[pos(c[0])] == order[b]);
        assert(pos(c.last()) == a);
        assert(pos(c[0]) == b);
    }
}

proof fn lemma_increasing_along(c: Seq<Seq<char>>, pos: spec_fn(Seq<char>) -> int)
    requires
        c.len() >= 1,
        forall|i: int| 0 <= i < c.len() - 1 ==> pos(#[trigger] c[i]) < pos(c[i + 1]),
    ensures
        pos(c[0]) <= pos(c.last()),
    decreases c.len(),
{
    if c.len() > 1 {
        lemma_increasing_along(c.drop_last(), pos);
        assert(c.drop_last().last() == c[c.len() - 2]);
        assert(pos(c[c.len() - 2]) < pos(c[c.len() - 1]));
    }
}

/// A walk from `from` to `to` that repeats no entry.
pub open spec fn is_simple_path(p: Seq<Seq<char>>, from: Seq<char>, to: Seq<char>, es: Seq<(Seq<char>, Seq<char>)>) -> bool {
    p.len() >= 1 && p[0] == from && p.last() == to && is_walk(p, es) && p.no_duplicates()
}

/// The targets of the edges.
pub open spec fn edge_targets(es: Seq<(Seq<char>, Seq<char>)>) -> Set<Seq<char>> {
    es.map_values(|e: (Seq<char>, Seq<char>)| e.1).to_set()
}

/// How many edge targets a walk has yet to visit.
pub open spec fn unvisited_targets(es: Seq<(Seq<char>, Seq<char>)>, p: Seq<Seq<char>>) -> nat {
    edge_targets(es).difference(p.to_set()).len()
}

/// Extending a walk by an edge target it has not visited leaves fewer to visit.
pub proof fn lemma_unvisited_shrinks(es: Seq<(Seq<char>, Seq<char>)>, p: Seq<Seq<char>>, i: int)
    requires
        0 <= i < es.len(),
        !p.contains(es[i].1),
    ensures
        unvisited_targets(es, p.push(es[i].1)) < unvisited_targets(es, p),
{
    broadcast use vstd::set::group_set_axioms;
    let x = es[i].1;
    let t = edge_targets(es);
    vstd::seq_lib::seq_to_set_is_finite(es.map_values(|e: (Seq<char>, Seq<char>)| e.1));
    assert(es.map_values(|e: (Seq<char>, Seq<char>)| e.1)[i] == x);
    assert(t.contains(x));
    assert(p.push(x).to_set() =~= p.to_set().insert(x)) by {
        assert forall|y: Seq<char>| p.push(x).to_set().contains(y) <==> p.to_set().insert(x).contains(y) by {
            if p.push(x).to_set().contains(y) {
                let k = choose|k: int| 0 <= k < p.push(x).len() && p.push(x)[k] == y;
                if k < p.len() {
                    assert(p[k] == y);
                }
            }
            if p.to_set().contains(y) {
                let k = choose|k: int| 0 <= k < p.len() && p[k] == y;
                assert(p.push(x)[k] == y);
            }
            if y == x {
                assert(p.push(x)[p.len() as int] == y);
            }
        }
    }
    assert(!p.to_set().contains(x));
    let d = t.difference(p.to_set());
    assert(t.difference(p.push(x).to_set()) =~= d.remove(x));
    vstd::set_lib::lemma_len_subset(d, t);
    assert(d.contains(x));
}

/// The simple paths to `target` that the search finds from the walk `p`,
/// in the order it finds them: the walk itself where it ends at the target,
/// else those through each edge from its end, in the order the edges were
/// added, to a node the walk has not visited.
pub open spec fn found_paths(es: Seq<(Seq<char>, Seq<char>)>, p: Seq<Seq<char>>, target: Seq<char>) -> Seq<Seq<Seq<char>>>
    decreases unvisited_targets(es, p), 1nat, 0nat,
{
    if p.len() > 0 && p.last() == target {
        seq![p]
    } else {
        found_via(es, p, target, es.len())
    }
}

/// The paths the search finds from `p` through the first `j` edges.
pub open spec fn found_via(es: Seq<(Seq<char>, Seq<char>)>, p: Seq<Seq<char>>, target: Seq<char>, j: nat) -> Seq<Seq<Seq<char>>>
    decreases unvisited_targets(es, p), 0nat, j,
{
    if j == 0 || j > es.len() {
        seq![]
    } else {
        let prev = found_via(es, p, target, (j - 1) as nat);
        let e = es[j - 1];
        if p.len() > 0 && e.0 == p.last() && !p.contains(e.1) {
            proof {
                lemma_unvisited_shrinks(es, p, j - 1);
            }
            prev + found_paths(es, p.push(e.1), target)
        } else {
            prev
        }
    }
}

/// The views of a sequence of paths.
pub open spec fn paths_views(v: Seq<Vec<String>>) -> Seq<Seq<Seq<char>>> {
    v.map_values(|p: Vec<String>| string_views(p@))
}

/// A node's DOT label: its name in italics for a virtual node, else its
/// name and version on two lines.
pub open spec fn dot_label(n: DependencyNode) -> Seq<char> {
    if n.virtual_node {
        "<<i>"@ + n.name@ + "</i>>"@
    } else {
        "\""@ + n.name@ + "\\n"@ + n.version@ + "\""@
    }
}

/// A node's DOT line.
pub open spec fn dot_node_line(n: DependencyNode, key: Seq<char>) -> Seq<char> {
    "  \""@ + key + "\" [label="@ + dot_label(n) + "];\n"@
}

/// The DOT lines of the first `k` nodes.
pub open spec fn dot_node_lines(nodes: Seq<DependencyNode>, keys: Seq<Seq<char>>, k: int) -> Seq<char>
    decreases k,
{
    if k <= 0 {
        seq![]
    } else {
        dot_node_lines(nodes, keys, k - 1) + dot_node_line(nodes[k - 1], keys[k - 1])
    }
}

/// An edge's DOT line.
pub open spec fn dot_edge_line(from: Seq<char>, to: Seq<char>) -> Seq<char> {
    "  \""@ + from + "\" -> \""@ + to + "\";\n"@
}

/// The DOT lines of the edges among the first `k` that leave `from`.
pub open spec fn dot_edges_from(es: Seq<(Seq<char>, Seq<char>)>, from: Seq<char>, k: int) -> Seq<char>
    decreases k,
{
    if k <= 0 {
        seq![]
    } else {
        dot_edges_from(es, from, k - 1) + if es[k - 1].0 == from {
            dot_edge_line(from, es[k - 1].1)
        } else {
            seq![]
        }
    }
}

/// The DOT lines of the edges, grouped by source, the sources in the order
/// they first appear.
pub open spec fn dot_edge_groups(es: Seq<(Seq<char>, Seq<char>)>, sources: Seq<Seq<char>>, k: int) -> Seq<char>
    decreases k,
{
    if k <= 0 {
        seq![]
    } else {
        dot_edge_groups(es, sources, k - 1) + dot_edges_from(es, sources[k - 1], es.len() as int)
    }
}

/// The graph in DOT: a header, one line per node, a blank line, the edges
/// grouped by source, and the closing brace.
pub open spec fn dot_text(nodes: Seq<DependencyNode>, keys: Seq<Seq<char>>, es: Seq<(Seq<char>, Seq<char>)>) -> Seq<char> {
    let sources = dedup(es.map_values(|e: (Seq<char>, Seq<char>)| e.0));
    "digraph Dependencies {\n  rankdir=LR;\n  node [shape=box];\n\n"@ + dot_node_lines(nodes, keys, keys.len() as int)
        + "\n"@ + dot_edge_groups(es, sources, sources.len() as int) + "}\n"@
}

fn push_str_chars(out: &mut Vec<char>, s: &str)
    ensures
        final(out)@ == old(out)@ + s@,
{
    let v = to_chars(s);
    crate::text::push_all(out, v.as_slice());
}

impl DependencyGraph {
    /// The keys of the nodes, in the order they were added.
    pub closed spec fn node_keys(&self) -> Seq<Seq<char>> {
        string_views(self.keys@)
    }

    /// The node under each key.
    pub closed spec fn node_list(&self) -> Seq<DependencyNode> {
        self.nodes@
    }

    /// The edges, in the order they were added.
    pub closed spec fn edge_list(&self) -> Seq<(Seq<char>, Seq<char>)> {
        self.edges@.map_values(|e: (String, String)| (e.0@, e.1@))
    }

    /// Each key names one node.
    pub closed spec fn wf(&self) -> bool {
        &&& self.keys@.len() == self.nodes@.len()
        &&& string_views(self.keys@).no_duplicates()
        &&& forall|i: int| 0 <= i < self.keys@.len() ==> self.keys@[i]@ == node_key(#[trigger] self.nodes@[i])
    }

    /// A well-formed graph names each node under a distinct key.
    pub proof fn lemma_keys_distinct(&self)
        requires
            self.wf(),
        ensures
            self.node_keys().no_duplicates(),
    {
    }

    /// A well-formed graph whose edges join its node keys can be sorted
    /// topologically exactly when it has no cycle, and exactly when no cycle
    /// can be reached from a node key (when cycle detection finds none).
    pub proof fn lemma_sortable_iff_acyclic(&self)
        requires
            self.wf(),
            forall|j: int| 0 <= j < self.edge_list().len() ==> self.node_keys().contains((#[trigger] self.edge_list()[j]).0)
                && self.node_keys().contains(self.edge_list()[j].1),
        ensures
            has_topological_order(self.node_keys(), self.edge_list()) <==> (forall|c: Seq<Seq<char>>| !is_cycle(c, self.edge_list())),
            has_topological_order(self.node_keys(), self.edge_list()) <==> (forall|c: Seq<Seq<char>>, i: int|
                is_cycle(c, self.edge_list()) && 0 <= i < c.len() ==> !reachable_from(self.node_keys(), self.edge_list(), #[trigger] c[i])),
    {
        lemma_topological_order_iff_acyclic(self.node_keys(), self.edge_list());
    }

    /// Create new empty graph
    pub fn new() -> (r: Self)
        ensures
            r.wf(),
            r.node_keys().len() == 0,
            r.edge_list().len() == 0,
    {
        let r = DependencyGraph { keys: Vec::new(), nodes: Vec::new(), edges: Vec::new() };
        assert(r.node_keys() =~= Seq::<Seq<char>>::empty());
        assert(r.edge_list() =~= Seq::<(Seq<char>, Seq<char>)>::empty());
        r
    }

    /// The number of nodes.
    pub fn node_count(&self) -> (r: usize)
        ensures
            r == self.node_keys().len(),
    {
        self.keys.len()
    }

    /// Add a node to the graph under its key `<name>-<version>`; a node with
    /// the same key is replaced.
    pub fn add_node(&mut self, node: DependencyNode)
        requires
            old(self).wf(),
        ensures
            final(self).wf(),
            final(self).node_keys() == if old(self).node_keys().contains(node_key(node)) {
                old(self).node_keys()
            } else {
                old(self).node_keys().push(node_key(node))
            },
            final(self).node_keys().contains(node_key(node)),
            final(self).node_list()[key_index(final(self).node_keys(), node_key(node))] == node,
            final(self).edge_list() == old(self).edge_list(),
    {
        let a = concat(node.name.as_str(), "-");
        let key = concat(a.as_str(), node.version.as_str());
        match find_key(&self.keys, &key) {
            Some(i) => {
                let ghost before = self.nodes@;
                self.nodes.set(i, node);
                proof {
                    assert(string_views(self.keys@)[i as int] == key@);
                    lemma_key_index(string_views(self.keys@), i as int);
                    assert forall|j: int| 0 <= j < self.keys@.len() implies self.keys@[j]@ == node_key(
                        #[trigger] self.nodes@[j],
                    ) by {
                        if j != i {
                            assert(self.nodes@[j] == before[j]);
                        }
                    }
                }
            },
            None => {
                let ghost before = self.keys@;
                self.keys.push(key);
                self.nodes.push(node);
                proof {
                    assert(string_views(self.keys@) =~= string_views(before).push(key@));
                    assert(string_views(self.keys@)[self.keys@.len() - 1] == key@);
                    lemma_key_index(string_views(self.keys@), self.keys@.len() - 1);
                }
            },
        }
    }

    /// Add an edge from a dependent to one of its dependencies.
    pub fn add_edge(&mut self, from: &str, to: &str)
        ensures
            final(self).edge_list() == old(self).edge_list().push((from@, to@)),
            final(self).node_keys() == old(self).node_keys(),
            final(self).node_list() == old(self).node_list(),
            final(self).wf() == old(self).wf(),
    {
        let ghost before = self.edges@;
        self.edges.push((owned(from), owned(to)));
        assert(self.edge_list() =~= before.map_values(|e: (String, String)| (e.0@, e.1@)).push((from@, to@)));
    }

    /// DFS helper for cycle detection: visits `node` and what it reaches,
    /// extending the current path; a neighbor already on the path closes a
    /// cycle, returned from that neighbor on.
    fn dfs_cycle_detect(&self, node: &String, visited: &mut Vec<String>, path: &mut Vec<String>) -> (r: Option<Vec<String>>)
        requires
            universe(self.node_keys(), self.edge_list()).contains(node@),
            !string_views(old(visited)@).contains(node@),
            is_walk(string_views(old(path)@), self.edge_list()),
            old(path)@.len() > 0 ==> has_edge(self.edge_list(), string_views(old(path)@).last(), node@),
            forall|i: int| 0 <= i < old(path)@.len() ==> string_views(old(visited)@).contains(#[trigger] old(path)@[i]@),
            finished_closed(string_views(old(visited)@), string_views(old(path)@), self.edge_list()),
            finished_acyclic(string_views(old(visited)@), string_views(old(path)@), self.edge_list()),
        ensures
            r matches Some(c) ==> is_cycle(string_views(c@), self.edge_list()),
            r is None ==> final(path)@ == old(path)@,
            r is None ==> finished(string_views(final(visited)@), string_views(final(path)@), node@),
            r is None ==> finished_closed(string_views(final(visited)@), string_views(final(path)@), self.edge_list()),
            r is None ==> finished_acyclic(string_views(final(visited)@), string_views(final(path)@), self.edge_list()),
            string_views(old(visited)@).to_set().subset_of(string_views(final(visited)@).to_set()),
        decreases universe(self.node_keys(), self.edge_list()).difference(string_views(old(visited)@).to_set()).len(),
    {
        let ghost es = self.edge_list();
        let ghost uni = universe(self.node_keys(), self.edge_list());
        let ghost v0 = string_views(visited@).to_set();
        let ghost p0 = path@;
        let ghost prev_v = visited@;
        visited.push(node.clone());
        assert(string_views(visited@) =~= string_views(prev_v).push(node@));
        let ghost prev_p = path@;
        path.push(node.clone());
        assert(string_views(path@) =~= string_views(prev_p).push(node@));
        proof {
            lemma_enter_node(string_views(prev_v), string_views(prev_p), node@, es);
            assert forall|i: int| 0 <= i < string_views(path@).len() - 1 implies has_edge(es, #[trigger] string_views(path@)[i], string_views(path@)[i + 1]) by {
                if i < prev_p.len() - 1 {
                    assert(string_views(prev_p)[i] == string_views(path@)[i]);
                    assert(string_views(prev_p)[i + 1] == string_views(path@)[i + 1]);
                }
            }
            assert forall|x: Seq<char>| v0.contains(x) implies string_views(visited@).to_set().contains(x) by {
                let k = choose|k: int| 0 <= k < string_views(prev_v).len() && string_views(prev_v)[k] == x;
                assert(string_views(visited@)[k] == x);
            }
            assert(string_views(visited@)[visited@.len() - 1] == node@);
            assert(string_views(visited@).contains(node@));
            assert forall|i: int| 0 <= i < path@.len() implies string_views(visited@).contains(#[trigger] path@[i]@) by {
                if i < prev_p.len() {
                    assert(string_views(prev_v).contains(prev_p[i]@));
                    let k = choose|k: int| 0 <= k < string_views(prev_v).len() && string_views(prev_v)[k] == prev_p[i]@;
                    assert(string_views(visited@)[k] == path@[i]@);
                } else {
                    assert(path@[i]@ == node@);
                }
            }
        }
        let m = self.edges.len();
        for j in 0..m
            invariant
                es == self.edge_list(),
                m == es.len(),
                uni == universe(self.node_keys(), self.edge_list()),
                uni.contains(node@),
                !v0.contains(node@),
                v0 == string_views(old(visited)@).to_set(),
                path@ == p0.push(*node),
                p0 == old(path)@,
                is_walk(string_views(path@), es),
                string_views(path@).last() == node@,
                string_views(visited@).to_set().contains(node@),
                v0.subset_of(string_views(visited@).to_set()),
                forall|i: int| 0 <= i < path@.len() ==> string_views(visited@).contains(#[trigger] path@[i]@),
                finished_closed(string_views(visited@), string_views(path@), es),
                finished_acyclic(string_views(visited@), string_views(path@), es),
                forall|jj: int| 0 <= jj < j && (#[trigger] es[jj]).0 == node@ ==> finished(string_views(visited@), string_views(path@), es[jj].1),
        {
            assert(es[j as int] == (self.edges@[j as int].0@, self.edges@[j as int].1@));
            if self.edges[j].0 == *node {
                let nb = &self.edges[j].1;
                proof {
                    assert(has_edge(es, node@, nb@));
                    let sq = self.node_keys() + es.map_values(|e: (Seq<char>, Seq<char>)| e.0) + es.map_values(
                        |e: (Seq<char>, Seq<char>)| e.1,
                    );
                    assert(sq[self.node_keys().len() + es.len() + j] == nb@);
                    assert(uni.contains(nb@));
                }
                if !contains_string(visited, nb) {
                    proof {
                        broadcast use vstd::set::group_set_axioms;
                        let vn = string_views(visited@).to_set();
                        assert(!vn.contains(nb@)) by {
                            if vn.contains(nb@) {
                                let k = choose|k: int| 0 <= k < string_views(visited@).len() && string_views(visited@)[k] == nb@;
                                assert(string_views(visited@).contains(nb@));
                            }
                        }
                        vstd::seq_lib::seq_to_set_is_finite(self.node_keys() + es.map_values(
                            |e: (Seq<char>, Seq<char>)| e.0,
                        ) + es.map_values(|e: (Seq<char>, Seq<char>)| e.1));
                        assert(uni.difference(vn).subset_of(uni.difference(v0).remove(node@)));
                        vstd::set_lib::lemma_len_subset(uni.difference(vn), uni.difference(v0).remove(node@));
                        assert(uni.difference(v0).contains(node@));
                        assert forall|i: int| 0 <= i < path@.len() implies string_views(visited@).contains(#[trigger] path@[i]@) by {}
                    }
                    let ghost before_call = visited@;
                    match self.dfs_cycle_detect(nb, visited, path) {
                        Some(c) => {
                            return Some(c);
                        },
                        None => {},
                    }
                    proof {
                        assert forall|i: int| 0 <= i < path@.len() implies string_views(visited@).contains(#[trigger] path@[i]@) by {
                            assert(string_views(before_call).contains(path@[i]@));
                            let k = choose|k: int| 0 <= k < string_views(before_call).len() && string_views(before_call)[k] == path@[i]@;
                            assert(string_views(before_call).to_set().contains(path@[i]@));
                            assert(string_views(visited@).to_set().contains(path@[i]@));
                        }
                        assert(string_views(before_call).to_set().contains(node@));
                        assert forall|jj: int| 0 <= jj < j + 1 && (#[trigger] es[jj]).0 == node@
                            implies finished(string_views(visited@), string_views(path@), es[jj].1) by {
                            if jj < j {
                                assert(finished(string_views(before_call), string_views(path@), es[jj].1));
                                assert(string_views(before_call).to_set().contains(es[jj].1));
                            }
                        }
                    }
                } else if contains_string(path, nb) {
                    let ghost pv = string_views(path@);
                    let mut start: usize = 0;
                    while start < path.len() && !(path[start] == *nb)
                        invariant
                            start <= path@.len(),
                            pv == string_views(path@),
                            pv.contains(nb@),
                            forall|k: int| 0 <= k < start ==> pv[k] != nb@,
                        decreases path@.len() - start,
                    {
                        start = start + 1;
                    }
                    proof {
                        if start >= path@.len() {
                            let k = choose|k: int| 0 <= k < pv.len() && pv[k] == nb@;
                        }
                    }
                    let mut cycle: Vec<String> = Vec::new();
                    let mut k = start;
                    while k < path.len()
                        invariant
                            start <= k <= path@.len(),
                            start < path@.len(),
                            pv == string_views(path@),
                            string_views(cycle@) == pv.subrange(start as int, k as int),
                        decreases path@.len() - k,
                    {
                        let ghost prev_c = cycle@;
                        cycle.push(path[k].clone());
                        assert(string_views(cycle@) =~= string_views(prev_c).push(pv[k as int]));
                        assert(pv.subrange(start as int, k + 1) =~= pv.subrange(start as int, k as int).push(pv[k as int]));
                        k = k + 1;
                    }
                    proof {
                        let c = string_views(cycle@);
                        assert(c == pv.subrange(start as int, pv.len() as int));
                        assert(c[0] == nb@);
                        assert(c.last() == node@);
                        assert forall|i: int| 0 <= i < c.len() - 1 implies has_edge(es, #[trigger] c[i], c[i + 1]) by {
                            assert(c[i] == pv[start + i]);
                            assert(c[i + 1] == pv[start + i + 1]);
                        }
                    }
                    return Some(cycle);
                }
            }
        }
        let ghost before_pop = path@;
        path.pop();
        assert(path@ =~= p0);
        proof {
            assert(string_views(before_pop) =~= string_views(p0).push(node@));
            assert(!string_views(p0).contains(node@)) by {
                if string_views(p0).contains(node@) {
                    let i = choose|i: int| 0 <= i < string_views(p0).len() && string_views(p0)[i] == node@;
                    assert(string_views(old(visited)@).contains(p0[i]@));
                }
            }
            lemma_finish_node(string_views(visited@), string_views(p0), node@, es);
        }
        None
    }

    /// Detect cycles using DFS from each node in turn: a cycle of edges,
    /// listed from the node where it closes.
    pub fn detect_cycle(&self) -> (r: Option<Vec<String>>)
        requires
            self.wf(),
        ensures
            r matches Some(c) ==> is_cycle(string_views(c@), self.edge_list()),
            r matches Some(c) ==> !has_topological_order(self.node_keys(), self.edge_list()),
            r is None ==> forall|c: Seq<Seq<char>>, i: int| is_cycle(c, self.edge_list()) && 0 <= i < c.len()
                ==> !reachable_from(self.node_keys(), self.edge_list(), #[trigger] c[i]),
    {
        let ghost es = self.edge_list();
        let mut visited: Vec<String> = Vec::new();
        let mut path: Vec<String> = Vec::new();
        proof {
            assert(string_views(visited@) =~= Seq::<Seq<char>>::empty());
            assert(string_views(path@) =~= Seq::<Seq<char>>::empty());
        }
        for k in 0..self.keys.len()
            invariant
                es == self.edge_list(),
                self.wf(),
                path@.len() == 0,
                forall|i: int| 0 <= i < path@.len() ==> string_views(visited@).contains(#[trigger] path@[i]@),
                finished_closed(string_views(visited@), string_views(path@), es),
                finished_acyclic(string_views(visited@), string_views(path@), es),
                forall|kk: int| 0 <= kk < k ==> string_views(visited@).contains(#[trigger] self.node_keys()[kk]),
        {
            let ghost before = visited@;
            assert(string_views(path@) =~= Seq::<Seq<char>>::empty());
            if !contains_string(&visited, &self.keys[k]) {
                proof {
                    let sq = self.node_keys() + self.edge_list().map_values(|e: (Seq<char>, Seq<char>)| e.0) + self.edge_list().map_values(
                        |e: (Seq<char>, Seq<char>)| e.1,
                    );
                    assert(sq[k as int] == self.keys@[k as int]@);
                }
                match self.dfs_cycle_detect(&self.keys[k], &mut visited, &mut path) {
                    Some(c) => {
                        proof {
                            if has_topological_order(self.node_keys(), self.edge_list()) {
                                let o = choose|o: Seq<Seq<char>>| is_topological_order(o, self.node_keys(), self.edge_list());
                                lemma_cycle_blocks_order(string_views(c@), o, self.node_keys(), self.edge_list());
                            }
                        }
                        return Some(c);
                    },
                    None => {},
                }
                proof {
                    assert(string_views(path@) =~= Seq::<Seq<char>>::empty());
                    assert forall|kk: int| 0 <= kk < k + 1 implies string_views(visited@).contains(#[trigger] self.node_keys()[kk]) by {
                        if kk < k {
                            assert(string_views(before).to_set().contains(self.node_keys()[kk]));
                        }
                    }
                }
            }
        }
        proof {
            let vs = string_views(visited@);
            let ps = string_views(path@);
            assert(ps =~= Seq::<Seq<char>>::empty());
            assert forall|c: Seq<Seq<char>>, i: int| is_cycle(c, es) && 0 <= i < c.len()
                implies !reachable_from(self.node_keys(), es, #[trigger] c[i]) by {
                if reachable_from(self.node_keys(), es, c[i]) {
                    let w = choose|w: Seq<Seq<char>>| #[trigger] is_walk(w, es) && w.len() > 0
                        && self.node_keys().contains(w[0]) && w.last() == c[i];
                    let kk = choose|kk: int| 0 <= kk < self.node_keys().len() && self.node_keys()[kk] == w[0];
                    assert(vs.contains(self.node_keys()[kk]));
                    lemma_walk_stays_finished(vs, ps, es, w);
                    assert(finished(vs, ps, c[i]));
                }
            }
        }
        None
    }

    /// Find all paths between two nodes: every walk from `from` to `to`
    /// that repeats no entry.
    pub fn find_paths(&self, from: &str, to: &str) -> (r: Vec<Vec<String>>)
        ensures
            forall|k: int| 0 <= k < r@.len() ==> is_simple_path(string_views(#[trigger] r@[k]@), from@, to@, self.edge_list()),
            paths_views(r@) == found_paths(self.edge_list(), seq![from@], to@),
    {
        let mut paths: Vec<Vec<String>> = Vec::new();
        let mut current: Vec<String> = Vec::new();
        current.push(owned(from));
        let mut visited: Vec<String> = Vec::new();
        let start = owned(from);
        let target = owned(to);
        proof {
            assert(string_views(current@) =~= seq![from@]);
            assert(string_views(visited@) =~= string_views(current@).drop_last());
        }
        self.dfs_find_paths(&start, &target, &mut current, &mut visited, &mut paths);
        assert(paths_views(paths@) =~= found_paths(self.edge_list(), seq![from@], to@)) by {
            assert(paths_views(Seq::<Vec<String>>::empty()) =~= Seq::<Seq<Seq<char>>>::empty());
        }
        paths
    }

    /// DFS helper for finding paths: `path` ends at `current`; `visited`
    /// holds the entries of `path` before `current`.
    fn dfs_find_paths(
        &self,
        current: &String,
        target: &String,
        path: &mut Vec<String>,
        visited: &mut Vec<String>,
        paths: &mut Vec<Vec<String>>,
    )
        requires
            old(path)@.len() >= 1,
            string_views(old(path)@).last() == current@,
            is_walk(string_views(old(path)@), self.edge_list()),
            string_views(old(path)@).no_duplicates(),
            string_views(old(visited)@) == string_views(old(path)@).drop_last(),
            forall|k: int| 0 <= k < old(paths)@.len() ==> is_simple_path(string_views(#[trigger] old(paths)@[k]@), string_views(old(path)@)[0], target@, self.edge_list()),
        ensures
            final(path)@ == old(path)@,
            final(visited)@ == old(visited)@,
            forall|k: int| 0 <= k < final(paths)@.len() ==> is_simple_path(string_views(#[trigger] final(paths)@[k]@), string_views(old(path)@)[0], target@, self.edge_list()),
            paths_views(final(paths)@) == paths_views(old(paths)@) + found_paths(self.edge_list(), string_views(old(path)@), target@),
        decreases universe(self.node_keys(), self.edge_list()).difference(string_views(old(visited)@).to_set()).len(),
    {
        let ghost es = self.edge_list();
        let ghost uni = universe(self.node_keys(), self.edge_list());
        let ghost first = string_views(path@)[0];
        let ghost v_set = string_views(visited@).to_set();
        let ghost pv = string_views(path@);
        let ghost paths0 = paths_views(paths@);
        if *current == *target {
            let copy = clone_strings(path);
            let ghost before = paths@;
            paths.push(copy);
            proof {
                assert(paths_views(paths@) =~= paths_views(before).push(pv));
                assert(found_paths(es, pv, target@) == seq![pv]);
                assert(paths_views(paths@) =~= paths0 + found_paths(es, pv, target@));
                assert forall|k: int| 0 <= k < paths@.len() implies is_simple_path(string_views(#[trigger] paths@[k]@), first, target@, es) by {
                    if k == paths@.len() - 1 {
                        assert(string_views(paths@[k]@) == string_views(path@));
                    }
                }
            }
            return;
        }
        let ghost v_old = visited@;
        let ghost p_old = path@;
        proof {
            assert(!v_set.contains(current@)) by {
                if v_set.contains(current@) {
                    let k = choose|k: int| 0 <= k < string_views(v_old).len() && string_views(v_old)[k] == current@;
                    assert(string_views(p_old)[k] == string_views(p_old)[string_views(p_old).len() - 1]);
                }
            }
        }
        visited.push(current.clone());
        proof {
            assert(string_views(visited@) =~= string_views(v_old).push(current@));
            assert(string_views(p_old) =~= string_views(p_old).drop_last().push(current@));
        }
        let m = self.edges.len();
        for j in 0..m
            invariant
                es == self.edge_list(),
                uni == universe(self.node_keys(), self.edge_list()),
                m == es.len(),
                path@ == p_old,
                string_views(visited@) == string_views(p_old),
                visited@ == v_old.push(*current),
                v_old == old(visited)@,
                v_set == string_views(v_old).to_set(),
                !v_set.contains(current@),
                string_views(p_old).last() == current@,
                string_views(p_old).len() >= 1,
                first == string_views(p_old)[0],
                is_walk(string_views(p_old), es),
                string_views(p_old).no_duplicates(),
                forall|k: int| 0 <= k < paths@.len() ==> is_simple_path(string_views(#[trigger] paths@[k]@), first, target@, es),
                pv == string_views(p_old),
                pv.last() != target@,
                paths0 == paths_views(old(paths)@),
                paths_views(paths@) == paths0 + found_via(es, pv, target@, j as nat),
        {
            assert(es[j as int] == (self.edges@[j as int].0@, self.edges@[j as int].1@));
            if self.edges[j].0 == *current {
                let nb = &self.edges[j].1;
                if !contains_string(visited, nb) {
                    let ghost pp = path@;
                    path.push(nb.clone());
                    proof {
                        broadcast use vstd::set::group_set_axioms;
                        assert(string_views(path@) =~= string_views(pp).push(nb@));
                        assert(has_edge(es, current@, nb@));
                        assert forall|i: int| 0 <= i < string_views(path@).len() - 1 implies has_edge(es, #[trigger] string_views(path@)[i], string_views(path@)[i + 1]) by {
                            if i < string_views(pp).len() - 1 {
                                assert(string_views(pp)[i] == string_views(path@)[i]);
                                assert(string_views(pp)[i + 1] == string_views(path@)[i + 1]);
                            }
                        }
                        assert(string_views(path@).no_duplicates()) by {
                            assert forall|a: int, b: int| 0 <= a < b < string_views(path@).len() implies string_views(path@)[a] != string_views(path@)[b] by {
                                if b == string_views(path@).len() - 1 {
                                    assert(string_views(pp)[a] == string_views(visited@)[a]);
                                }
                            }
                        }
                        assert(string_views(path@)[0] == first);
                        assert(string_views(visited@) =~= string_views(path@).drop_last());
                        // the search space shrinks: `current` is a source of an edge
                        let sq = self.node_keys() + es.map_values(|e: (Seq<char>, Seq<char>)| e.0) + es.map_values(
                            |e: (Seq<char>, Seq<char>)| e.1,
                        );
                        assert(sq[self.node_keys().len() + j] == current@);
                        assert(uni.contains(current@));
                        vstd::seq_lib::seq_to_set_is_finite(sq);
                        let vn = string_views(visited@).to_set();
                        assert(vn =~= v_set.insert(current@)) by {
                            assert forall|x: Seq<char>| vn.contains(x) <==> v_set.insert(current@).contains(x) by {
                                if vn.contains(x) {
                                    let k = choose|k: int| 0 <= k < string_views(visited@).len() && string_views(visited@)[k] == x;
                                    if k < string_views(v_old).len() {
                                        assert(string_views(v_old)[k] == x);
                                    }
                                }
                                if v_set.contains(x) {
                                    let k = choose|k: int| 0 <= k < string_views(v_old).len() && string_views(v_old)[k] == x;
                                    assert(string_views(visited@)[k] == x);
                                }
                                if x == current@ {
                                    assert(string_views(visited@)[string_views(visited@).len() - 1] == x);
                                }
                            }
                        }
                        assert(uni.difference(vn) =~= uni.difference(v_set).remove(current@));
                        vstd::set_lib::lemma_len_subset(uni.difference(v_set), uni);
                        assert(uni.difference(v_set).contains(current@));
                        assert(uni.difference(vn).len() < uni.difference(v_set).len());
                        assert(string_views(visited@).to_set() == vn);
                    }
                    let ghost before = paths_views(paths@);
                    self.dfs_find_paths(nb, target, path, visited, paths);
                    path.pop();
                    proof {
                        assert(path@ =~= pp);
                        assert(es[j as int].0 == pv.last());
                        assert(!pv.contains(nb@));
                        assert(found_via(es, pv, target@, (j + 1) as nat) == found_via(es, pv, target@, j as nat)
                            + found_paths(es, pv.push(nb@), target@));
                        assert(paths_views(paths@) =~= paths0 + found_via(es, pv, target@, (j + 1) as nat));
                    }
                } else {
                    proof {
                        assert(pv.contains(nb@));
                        assert(found_via(es, pv, target@, (j + 1) as nat) == found_via(es, pv, target@, j as nat));
                    }
                }
            } else {
                proof {
                    assert(es[j as int].0 != pv.last());
                    assert(found_via(es, pv, target@, (j + 1) as nat) == found_via(es, pv, target@, j as nat));
                }
            }
        }
        visited.pop();
        assert(visited@ =~= v_old);
        assert(found_paths(es, pv, target@) == found_via(es, pv, target@, es.len()));
    }

    /// Generate DOT format for visualization
    #[verifier::spinoff_prover]
    #[verifier::rlimit(40)]
    pub fn to_dot(&self) -> (r: String)
        requires
            self.wf(),
        ensures
            r@ == dot_text(self.node_list(), self.node_keys(), self.edge_list()),
    {
        let ghost nl = self.node_list();
        let ghost ks = self.node_keys();
        let ghost es = self.edge_list();
        let mut out: Vec<char> = Vec::new();
        push_str_chars(&mut out, "digraph Dependencies {\n  rankdir=LR;\n  node [shape=box];\n\n");
        let ghost head = out@;
        for i in 0..self.keys.len()
            invariant
                nl == self.node_list(),
                ks == self.node_keys(),
                self.wf(),
                out@ == head + dot_node_lines(nl, ks, i as int),
        {
            let ghost before = out@;
            let n = &self.nodes[i];
            push_str_chars(&mut out, "  \"");
            push_str_chars(&mut out, self.keys[i].as_str());
            push_str_chars(&mut out, "\" [label=");
            if n.virtual_node {
                push_str_chars(&mut out, "<<i>");
                push_str_chars(&mut out, n.name.as_str());
                push_str_chars(&mut out, "</i>>");
            } else {
                push_str_chars(&mut out, "\"");
                push_str_chars(&mut out, n.name.as_str());
                push_str_chars(&mut out, "\\n");
                push_str_chars(&mut out, n.version.as_str());
                push_str_chars(&mut out, "\"");
            }
            push_str_chars(&mut out, "];\n");
            assert(out@ =~= before + dot_node_line(nl[i as int], ks[i as int]));
        }
        push_str_chars(&mut out, "\n");
        let ghost mid = out@;
        // the distinct sources, in order of first appearance
        let mut sources: Vec<String> = Vec::new();
        let ghost srcs = es.map_values(|e: (Seq<char>, Seq<char>)| e.0);
        for j in 0..self.edges.len()
            invariant
                es == self.edge_list(),
                srcs == es.map_values(|e: (Seq<char>, Seq<char>)| e.0),
                string_views(sources@) == dedup(srcs.take(j as int)),
        {
            proof {
                assert(srcs.take(j + 1).drop_last() == srcs.take(j as int));
                assert(srcs[j as int] == self.edges@[j as int].0@);
            }
            if !contains_string(&sources, &self.edges[j].0) {
                let ghost prev = sources@;
                sources.push(self.edges[j].0.clone());
                assert(string_views(sources@) =~= string_views(prev).push(srcs[j as int]));
            }
        }
        assert(srcs.take(self.edges@.len() as int) == srcs);
        let ghost sv = string_views(sources@);
        for k in 0..sources.len()
            invariant
                es == self.edge_list(),
                sv == string_views(sources@),
                out@ == mid + dot_edge_groups(es, sv, k as int),
        {
            let ghost before = out@;
            for j in 0..self.edges.len()
                invariant
                    es == self.edge_list(),
                    sv == string_views(sources@),
                    k < sources@.len(),
                    out@ == before + dot_edges_from(es, sv[k as int], j as int),
            {
                assert(es[j as int] == (self.edges@[j as int].0@, self.edges@[j as int].1@));
                if self.edges[j].0 == sources[k] {
                    let ghost b2 = out@;
                    push_str_chars(&mut out, "  \"");
                    push_str_chars(&mut out, sources[k].as_str());
                    push_str_chars(&mut out, "\" -> \"");
                    push_str_chars(&mut out, self.edges[j].1.as_str());
                    push_str_chars(&mut out, "\";\n");
                    assert(out@ =~= b2 + dot_edge_line(sv[k as int], es[j as int].1));
                }
                assert(out@ =~= before + dot_edges_from(es, sv[k as int], j + 1));
            }
            assert(out@ =~= mid + dot_edge_groups(es, sv, k + 1));
        }
        push_str_chars(&mut out, "}\n");
        from_chars(out.as_slice())
    }

    /// Get topological order (returns None if cycles exist): dependents
    /// before their dependencies, nodes without incoming edges first.
    pub fn topological_sort(&self) -> (r: Option<Vec<String>>)
        requires
            self.wf(),
            forall|j: int| 0 <= j < self.edge_list().len() ==> self.node_keys().contains(#[trigger] self.edge_list()[j].1),
        ensures
            r is Some <==> has_topological_order(self.node_keys(), self.edge_list()),
            r matches Some(order) ==> is_topological_order(string_views(order@), self.node_keys(), self.edge_list()),
    {
        let ghost keys = self.node_keys();
        let ghost es = self.edge_list();
        let n = self.keys.len();
        let m = self.edges.len();
        // The edges as node indices: the source's index, or `n` for a source
        // that is not a node; the target's index.
        let mut sv: Vec<usize> = Vec::new();
        let mut dv: Vec<usize> = Vec::new();
        let ghost src: Seq<int> = Seq::new(m as nat, |j: int| key_index(keys, es[j].0));
        let ghost dst: Seq<int> = Seq::new(m as nat, |j: int| key_index(keys, es[j].1));
        for j in 0..m
            invariant
                n == keys.len(),
                m == es.len(),
                keys == self.node_keys(),
                es == self.edge_list(),
                self.wf(),
                forall|j: int| 0 <= j < es.len() ==> keys.contains(#[trigger] es[j].1),
                src == Seq::new(m as nat, |j: int| key_index(keys, es[j].0)),
                dst == Seq::new(m as nat, |j: int| key_index(keys, es[j].1)),
                sv@.len() == j,
                dv@.len() == j,
                forall|k: int| 0 <= k < j ==> (#[trigger] sv@[k] as int) == (if src[k] < 0 { n as int } else { src[k] }),
                forall|k: int| 0 <= k < j ==> (#[trigger] dv@[k] as int) == dst[k] && dst[k] < n,
        {
            assert(es[j as int] == (self.edges@[j as int].0@, self.edges@[j as int].1@));
            match find_key(&self.keys, &self.edges[j].0) {
                Some(i) => {
                    proof {
                        assert(keys[i as int] == es[j as int].0);
                        lemma_key_index(keys, i as int);
                    }
                    sv.push(i);
                },
                None => {
                    sv.push(n);
                },
            }
            match find_key(&self.keys, &self.edges[j].1) {
                Some(i) => {
                    proof {
                        assert(keys[i as int] == es[j as int].1);
                        lemma_key_index(keys, i as int);
                    }
                    dv.push(i);
                },
                None => {
                    proof {
                        assert(keys.contains(es[j as int].1));
                    }
                    dv.push(0);
                },
            }
        }
        // In-degrees over all edges.
        let mut indeg: Vec<usize> = Vec::new();
        for v in 0..n
            invariant
                indeg@.len() == v,
                forall|w: int| 0 <= w < v ==> #[trigger] indeg@[w] == 0,
        {
            indeg.push(0);
        }
        for j in 0..m
            invariant
                n == keys.len(),
                m == src.len(),
                m == dst.len(),
                indeg@.len() == n,
                dv@.len() == m,
                forall|k: int| 0 <= k < m ==> (#[trigger] dv@[k] as int) == dst[k] && dst[k] < n,
                forall|w: int| 0 <= w < n ==> #[trigger] indeg@[w] == pending(src, dst, w, Set::empty(), -1, 0, j as int),
                forall|w: int| 0 <= w < n ==> #[trigger] indeg@[w] <= j,
        {
            let t = dv[j];
            assert(indeg@[t as int] <= j);
            indeg.set(t, indeg[t] + 1);
        }
        // The queue: nodes whose pending in-degree reached zero, in order.
        let mut q: Vec<usize> = Vec::new();
        for v in 0..n
            invariant
                indeg@.len() == n,
                q@.len() <= v,
                q@.no_duplicates(),
                forall|i: int| 0 <= i < q@.len() ==> #[trigger] q@[i] < v,
                forall|w: int| 0 <= w < v ==> (q@.contains(w as usize) <==> #[trigger] indeg@[w] == 0),
        {
            let ghost prev = q@;
            if indeg[v] == 0 {
                q.push(v);
            }
            proof {
                assert forall|w: int| 0 <= w < v + 1 implies (q@.contains(w as usize) <==> #[trigger] indeg@[w] == 0) by {
                    if w < v {
                        if prev.contains(w as usize) {
                            let i = choose|i: int| 0 <= i < prev.len() && prev[i] == w as usize;
                            assert(q@[i] == w as usize);
                        }
                        if q@.contains(w as usize) {
                            let i = choose|i: int| 0 <= i < q@.len() && q@[i] == w as usize;
                            if i < prev.len() {
                                assert(prev[i] == w as usize);
                            }
                        }
                    } else {
                        if indeg@[w] == 0 {
                            assert(q@[q@.len() - 1] == w as usize);
                        }
                        if q@.contains(w as usize) {
                            let i = choose|i: int| 0 <= i < q@.len() && q@[i] == w as usize;
                            if i < prev.len() {
                                assert(prev[i] < v);
                            }
                        }
                    }
                }
            }
        }
        proof {
            assert(done_set(q@, 0) =~= Set::<int>::empty());
            lemma_nodup_bounded(q@, n as int);
            assert forall|i: int, j: int| #![trigger q@[i], dst[j]] 0 <= i < q@.len() && 0 <= j < m && dst[j] == q@[i] as int
                implies src[j] >= 0 && exists|i2: int| 0 <= i2 < i && #[trigger] q@[i2] as int == src[j] by {
                let w = q@[i] as int;
                assert(q@.contains(q@[i]));
                assert(indeg@[w] == 0);
                lemma_pending_zero_general(src, dst, w, Set::<int>::empty(), -1, 0, m as int);
            }
        }
        let mut h: usize = 0;
        let mut result: Vec<String> = Vec::new();
        while h < q.len()
            invariant
                n == keys.len(),
                m == es.len(),
                keys == self.node_keys(),
                es == self.edge_list(),
                self.wf(),
                self.keys@.len() == n,
                m == src.len(),
                m == dst.len(),
                sv@.len() == m,
                dv@.len() == m,
                forall|k: int| 0 <= k < m ==> (#[trigger] sv@[k] as int) == (if src[k] < 0 { n as int } else { src[k] }),
                forall|k: int| 0 <= k < m ==> (#[trigger] dv@[k] as int) == dst[k] && dst[k] < n,
                forall|k: int| 0 <= k < m ==> src[k] < n,
                indeg@.len() == n,
                h <= q@.len() <= n,
                q@.no_duplicates(),
                forall|i: int| 0 <= i < q@.len() ==> #[trigger] q@[i] < n,
                forall|w: int| 0 <= w < n ==> #[trigger] indeg@[w] == pending(src, dst, w, done_set(q@, h as int), -1, 0, m as int),
                forall|w: int| 0 <= w < n ==> (q@.contains(w as usize) <==> #[trigger] indeg@[w] == 0),
                forall|i: int, j: int| #![trigger q@[i], dst[j]] 0 <= i < q@.len() && 0 <= j < m && dst[j] == q@[i] as int
                    ==> src[j] >= 0 && exists|i2: int| 0 <= i2 < i && #[trigger] q@[i2] as int == src[j],
                string_views(result@) == Seq::new(h as nat, |i: int| keys[q@[i] as int]),
            decreases n - h,
        {
            let u = q[h];
            let ghost done_old = done_set(q@, h as int);
            let ghost q_old = q@;
            proof {
                assert(!done_old.contains(u as int)) by {
                    if done_old.contains(u as int) {
                        let i = choose|i: int| 0 <= i < h && q@[i] as int == u as int;
                        assert(q@[i] == q@[h as int]);
                    }
                }
            }
            h = h + 1;
            let ghost prev_result = result@;
            result.push(self.keys[u].clone());
            proof {
                assert(string_views(result@) =~= string_views(prev_result).push(self.keys@[u as int]@));
                assert(string_views(result@) =~= Seq::new(h as nat, |i: int| keys[q@[i] as int]));
                assert forall|w: int| 0 <= w < n implies #[trigger] indeg@[w] == pending(src, dst, w, done_old, u as int, 0, m as int) by {
                    lemma_pending_any_u(src, dst, w, done_old, -1, u as int, m as int);
                }
            }
            for j in 0..m
                invariant
                    n == keys.len(),
                    m == src.len(),
                    m == dst.len(),
                    sv@.len() == m,
                    dv@.len() == m,
                    forall|k: int| 0 <= k < m ==> (#[trigger] sv@[k] as int) == (if src[k] < 0 { n as int } else { src[k] }),
                    forall|k: int| 0 <= k < m ==> (#[trigger] dv@[k] as int) == dst[k] && dst[k] < n,
                    forall|k: int| 0 <= k < m ==> src[k] < n,
                    u < n,
                    !done_old.contains(u as int),
                    1 <= h <= q@.len() <= n,
                    q@[h - 1] == u,
                    q@.take(h as int) == q_old.take(h as int),
                    done_old == done_set(q@, h - 1),
                    indeg@.len() == n,
                    q@.no_duplicates(),
                    forall|i: int| 0 <= i < q@.len() ==> #[trigger] q@[i] < n,
                    forall|w: int| 0 <= w < n ==> #[trigger] indeg@[w] == pending(src, dst, w, done_old, u as int, j as int, m as int),
                    forall|w: int| 0 <= w < n ==> (q@.contains(w as usize) <==> #[trigger] indeg@[w] == 0),
                    forall|i: int, j: int| #![trigger q@[i], dst[j]] 0 <= i < q@.len() && 0 <= j < m && dst[j] == q@[i] as int
                        ==> src[j] >= 0 && exists|i2: int| 0 <= i2 < i && #[trigger] q@[i2] as int == src[j],
            {
                if sv[j] == u {
                    let w = dv[j];
                    proof {
                        lemma_pending_step(src, dst, w as int, done_old, u as int, j as int, m as int);
                        lemma_pending_step_other(src, dst, done_old, u as int, j as int, m as int);
                    }
                    indeg.set(w, indeg[w] - 1);
                    if indeg[w] == 0 {
                        let ghost qp = q@;
                        proof {
                            assert(!qp.contains(w));
                        }
                        q.push(w);
                        proof {
                            lemma_done_set_prefix(q@, qp, h - 1);
                            lemma_pending_zero_general(src, dst, w as int, done_old, u as int, (j + 1) as int, m as int);
                            assert forall|i: int, jj: int| #![trigger q@[i], dst[jj]] 0 <= i < q@.len() && 0 <= jj < m && dst[jj] == q@[i] as int
                                implies src[jj] >= 0 && exists|i2: int| 0 <= i2 < i && #[trigger] q@[i2] as int == src[jj] by {
                                if i < qp.len() {
                                    assert(qp[i] == q@[i]);
                                    let i2 = choose|i2: int| 0 <= i2 < i && #[trigger] qp[i2] as int == src[jj];
                                    assert(q@[i2] == qp[i2]);
                                } else {
                                    if src[jj] >= 0 && done_old.contains(src[jj]) {
                                        let i2 = choose|i2: int| 0 <= i2 < h - 1 && q@[i2] as int == src[jj];
                                        assert(q@[i2] as int == src[jj]);
                                    } else {
                                        assert(q@[h - 1] as int == src[jj]);
                                    }
                                }
                            }
                            assert forall|x: int| 0 <= x < n implies (q@.contains(x as usize) <==> #[trigger] indeg@[x] == 0) by {
                                if x == w {
                                    assert(q@[q@.len() - 1] == w);
                                } else {
                                    if qp.contains(x as usize) {
                                        let i = choose|i: int| 0 <= i < qp.len() && qp[i] == x as usize;
                                        assert(q@[i] == x as usize);
                                    }
                                    if q@.contains(x as usize) {
                                        let i = choose|i: int| 0 <= i < q@.len() && q@[i] == x as usize;
                                        assert(qp[i] == x as usize);
                                    }
                                }
                            }
                            assert(done_set(q@, h - 1) =~= done_old);
                            assert(q@.take(h as int) =~= q_old.take(h as int)) by {
                                assert(qp.take(h as int) == q_old.take(h as int));
                            }
                            lemma_nodup_bounded(q@, n as int);
                        }
                    }
                } else {
                    proof {
                        lemma_pending_step_other(src, dst, done_old, u as int, j as int, m as int);
                    }
                }
            }
            proof {
                assert forall|w: int| 0 <= w < n implies #[trigger] indeg@[w] == pending(src, dst, w, done_set(q@, h as int), -1, 0, m as int) by {
                    lemma_pending_done(src, dst, w, done_old, u as int, m as int);
                    assert(done_old.insert(u as int) =~= done_set(q@, h as int));
                }
                assert(string_views(result@) =~= Seq::new(h as nat, |i: int| keys[q@[i] as int])) by {
                    assert forall|i: int| 0 <= i < h implies q@[i] == q_old[i] by {
                        assert(q@.take(h as int)[i] == q_old.take(h as int)[i]);
                    }
                }
            }
        }
        if q.len() == n {
            proof {
                lemma_queue_is_order(keys, es, src, dst, q@);
                assert(string_views(result@) =~= Seq::new(n as nat, |i: int| keys[q@[i] as int]));
            }
            Some(result)
        } else {
            proof {
                assert(done_set(q@, h as int) =~= done_set(q@, q@.len() as int));
                lemma_stuck_means_cycle(keys, es, src, dst, q@, indeg@);
            }
            None
        }
    }
}

/// The resolver's kind of an extended kind.
pub open spec fn standard_kind(k: ExtendedDepKind) -> DepKind {
    if k == ExtendedDepKind::Build || k == ExtendedDepKind::Host {
        DepKind::Build
    } else {
        DepKind::Runtime
    }
}

/// The package specifications of the dependencies of a resolver kind, in order.
pub open spec fn specs_of_kind(ds: Seq<Dependency>, k: DepKind) -> Seq<Seq<char>>
    decreases ds.len(),
{
    if ds.len() == 0 {
        seq![]
    } else if standard_kind(ds.last().kind) == k {
        specs_of_kind(ds.drop_last(), k).push(ds.last().spec@)
    } else {
        specs_of_kind(ds.drop_last(), k)
    }
}

/// The active dependencies of a context: build, then host, then target.
pub open spec fn active_of(ctx: DependencyContext) -> Seq<Dependency> {
    let en = string_views(ctx.enabled_features@);
    active_among(ctx.build_deps@, en) + active_among(ctx.host_deps@, en) + active_among(ctx.target_deps@, en)
}

/// The distinct keys of a sequence, in the order first seen.
pub open spec fn distinct_keys(ks: Seq<Seq<char>>) -> Seq<Seq<char>>
    decreases ks.len(),
{
    if ks.len() == 0 {
        seq![]
    } else if distinct_keys(ks.drop_last()).contains(ks.last()) {
        distinct_keys(ks.drop_last())
    } else {
        distinct_keys(ks.drop_last()).push(ks.last())
    }
}

/// The keys of resolved packages, as names and versions.
pub open spec fn resolved_keys(resolved: Seq<(String, String)>) -> Seq<Seq<char>> {
    resolved.map_values(|p: (String, String)| p.0@ + "-"@ + p.1@)
}

impl DependencyContext {
    /// What is handed to the resolver: the specifications of the active
    /// dependencies that it resolves as build dependencies, and of those it
    /// resolves as runtime dependencies, each in order.
    pub fn resolution_request(&self) -> (r: (Vec<String>, Vec<String>))
        ensures
            string_views(r.0@) == specs_of_kind(active_of(*self), DepKind::Build),
            string_views(r.1@) == specs_of_kind(active_of(*self), DepKind::Runtime),
    {
        let active = self.active_dependencies();
        let ghost ds = active@.map_values(|d: &Dependency| *d);
        let mut build: Vec<String> = Vec::new();
        let mut runtime: Vec<String> = Vec::new();
        for i in 0..active.len()
            invariant
                ds == active@.map_values(|d: &Dependency| *d),
                string_views(build@) == specs_of_kind(ds.take(i as int), DepKind::Build),
                string_views(runtime@) == specs_of_kind(ds.take(i as int), DepKind::Runtime),
        {
            let d = active[i];
            assert(ds.take(i + 1).drop_last() =~= ds.take(i as int));
            assert(ds.take(i + 1).last() == *d);
            match d.kind.to_standard() {
                DepKind::Build => {
                    let ghost prev = build@;
                    build.push(d.spec.clone());
                    assert(string_views(build@) =~= string_views(prev).push(d.spec@));
                },
                DepKind::Runtime => {
                    let ghost prev = runtime@;
                    runtime.push(d.spec.clone());
                    assert(string_views(runtime@) =~= string_views(prev).push(d.spec@));
                },
            }
        }
        assert(ds.take(ds.len() as int) =~= ds);
        (build, runtime)
    }
}

/// The graph of a resolution: a node for each resolved package (its name and
/// version, no dependencies, not virtual), and no edges. A graph with a
/// cycle would be refused; one without edges never has one.
pub fn graph_from_resolution(resolved: &Vec<(String, String)>) -> (r: Result<DependencyGraph, BuildError>)
    ensures
        r matches Ok(g) && g.wf() && g.node_keys() == distinct_keys(resolved_keys(resolved@)) && g.edge_list().len() == 0,
{
    let mut g = DependencyGraph::new();
    let ghost ks = resolved_keys(resolved@);
    for i in 0..resolved.len()
        invariant
            ks == resolved_keys(resolved@),
            g.wf(),
            g.node_keys() == distinct_keys(ks.take(i as int)),
            g.edge_list().len() == 0,
    {
        assert(ks.take(i + 1).drop_last() =~= ks.take(i as int));
        let node = DependencyNode {
            name: resolved[i].0.clone(),
            version: resolved[i].1.clone(),
            dependencies: Vec::new(),
            virtual_node: false,
        };
        g.add_node(node);
    }
    assert(ks.take(ks.len() as int) =~= ks);
    match g.detect_cycle() {
        Some(cycle) => {
            proof {
                assert(!has_edge(g.edge_list(), string_views(cycle@).last(), string_views(cycle@)[0]));
            }
            let text = crate::text::join_strings(&cycle, " -> ");
            Err(BuildError::DependencyConflict { message: concat("Dependency cycle detected: ", text.as_str()) })
        },
        None => Ok(g),
    }
}

} // verus!
