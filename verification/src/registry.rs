//! Capability registry and dependency resolver.
//!
//! A capability describes one installable tool: its identity, the ids of the
//! capabilities it depends on, and whether its installation may run
//! concurrently with others. The resolver expands requested ids into the
//! transitive closure, ordered so that every dependency precedes its
//! dependent, with no id repeated; an unknown id or a dependency cycle is
//! reported as an error rather than looped on.

use vstd::prelude::*;
use vstd::seq_lib::*;
use vstd::set_lib::lemma_len_subset;

use crate::errors::{BootstrapError, BootstrapResult};
use crate::strutil::str_eq;

verus! {

/// What an installable tool exposes to the orchestrator.
pub struct Capability {
    /// Unique identifier
    pub id: String,
    /// Human-readable name
    pub name: String,
    /// Description for help text
    pub description: String,
    /// Ids of the capabilities this one depends on
    pub dependencies: Vec<String>,
    /// Whether installation may run concurrently with other tools
    pub concurrency_safe: bool,
}

/// The mathematical content of a capability.
pub ghost struct CapView {
    pub id: Seq<char>,
    pub name: Seq<char>,
    pub description: Seq<char>,
    pub dependencies: Seq<Seq<char>>,
    pub concurrency_safe: bool,
}

impl View for Capability {
    type V = CapView;

    open spec fn view(&self) -> CapView {
        CapView {
            id: self.id@,
            name: self.name@,
            description: self.description@,
            dependencies: self.dependencies.deep_view(),
            concurrency_safe: self.concurrency_safe,
        }
    }
}

impl Capability {
    /// Build a capability from its parts.
    pub fn new(
        id: &str,
        name: &str,
        description: &str,
        dependencies: Vec<String>,
        concurrency_safe: bool,
    ) -> (r: Capability)
        ensures
            r@.id == id@,
            r@.name == name@,
            r@.description == description@,
            r@.dependencies == dependencies.deep_view(),
            r@.concurrency_safe == concurrency_safe,
    {
        Capability {
            id: id.to_owned(),
            name: name.to_owned(),
            description: description.to_owned(),
            dependencies,
            concurrency_safe,
        }
    }

    /// An exact copy of the capability.
    pub fn duplicate(&self) -> (r: Capability)
        ensures
            r@ == self@,
    {
        let mut deps: Vec<String> = Vec::new();
        let mut k: usize = 0;
        while k < self.dependencies.len()
            invariant
                k <= self.dependencies@.len(),
                deps@.len() == k,
                forall|i: int| 0 <= i < k ==> deps@[i]@ == self.dependencies@[i]@,
            decreases self.dependencies@.len() - k,
        {
            let d = self.dependencies[k].clone();
            deps.push(d);
            k = k + 1;
        }
        proof {
            assert forall|i: int| 0 <= i < deps@.len() implies deps.deep_view()[i]
                == self.dependencies.deep_view()[i] by {
                assert(deps@[i]@ == self.dependencies@[i]@);
            }
            assert(deps.deep_view() =~= self.dependencies.deep_view());
        }
        let r = Capability {
            id: self.id.clone(),
            name: self.name.clone(),
            description: self.description.clone(),
            dependencies: deps,
            concurrency_safe: self.concurrency_safe,
        };
        assert(r@ == self@);
        r
    }
}

/// Registry of capabilities, keyed by id.
pub struct InstallerRegistry {
    /// The registered capabilities, with pairwise distinct ids.
    pub installers: Vec<Capability>,
}

impl View for InstallerRegistry {
    type V = Seq<CapView>;

    open spec fn view(&self) -> Seq<CapView> {
        self.installers@.map_values(|c: Capability| c@)
    }
}

/// Whether the registry holds pairwise distinct ids.
pub open spec fn distinct_ids(g: Seq<CapView>) -> bool {
    forall|i: int, j: int| 0 <= i < j < g.len() ==> g[i].id != g[j].id
}

/// Whether some registered capability has the given id.
pub open spec fn reg_contains(g: Seq<CapView>, id: Seq<char>) -> bool {
    exists|k: int| 0 <= k < g.len() && g[k].id == id
}

/// The index of the first registered capability with the given id, or -1.
pub open spec fn reg_index(g: Seq<CapView>, id: Seq<char>, from: int) -> int
    decreases g.len() - from
        when 0 <= from <= g.len()
{
    if from >= g.len() {
        -1
    } else if g[from].id == id {
        from
    } else {
        reg_index(g, id, from + 1)
    }
}

/// The registered capability with the given id.
pub open spec fn cap_of(g: Seq<CapView>, id: Seq<char>) -> CapView {
    g[reg_index(g, id, 0)]
}

/// Whether capability `a` is registered and names `b` among its dependencies.
pub open spec fn has_dep(g: Seq<CapView>, a: Seq<char>, b: Seq<char>) -> bool {
    reg_contains(g, a) && cap_of(g, a).dependencies.contains(b)
}

/// Whether `c` is a dependency cycle of the registry.
pub open spec fn is_cycle(g: Seq<CapView>, c: Seq<Seq<char>>) -> bool {
    &&& c.len() > 0
    &&& forall|i: int| 0 <= i < c.len() - 1 ==> has_dep(g, #[trigger] c[i], c[i + 1])
    &&& has_dep(g, c[c.len() - 1], c[0])
}

/// Whether the registry's dependency graph holds a cycle.
pub open spec fn has_cycle(g: Seq<CapView>) -> bool {
    exists|c: Seq<Seq<char>>| is_cycle(g, c)
}

/// Whether every dependency of every registered capability is registered.
pub open spec fn reg_closed(g: Seq<CapView>) -> bool {
    forall|k: int, d: int|
        0 <= k < g.len() && 0 <= d < g[k].dependencies.len() ==> reg_contains(
            g,
            #[trigger] g[k].dependencies[d],
        )
}

pub proof fn lemma_reg_index_works(g: Seq<CapView>, id: Seq<char>, from: int)
    requires
        0 <= from <= g.len(),
    ensures
        reg_index(g, id, from) == -1 ==> forall|k: int|
            from <= k < g.len() ==> g[k].id != id,
        reg_index(g, id, from) != -1 ==> from <= reg_index(g, id, from) < g.len() && g[reg_index(
            g,
            id,
            from,
        )].id == id,
    decreases g.len() - from,
{
    if from < g.len() && g[from].id != id {
        lemma_reg_index_works(g, id, from + 1);
    }
}

/// A sequence of distinct ids, all registered in a registry with distinct
/// ids, is no longer than the registry.
pub proof fn lemma_distinct_registered_bound(g: Seq<CapView>, s: Seq<Seq<char>>)
    requires
        s.no_duplicates(),
        forall|k: int| 0 <= k < s.len() ==> reg_contains(g, #[trigger] s[k]),
    ensures
        s.len() <= g.len(),
{
    broadcast use seq_to_set_is_finite;

    let reg_ids = g.map_values(|c: CapView| c.id);
    assert(forall|k: int| 0 <= k < s.len() ==> reg_ids.contains(#[trigger] s[k])) by {
        assert forall|k: int| 0 <= k < s.len() implies reg_ids.contains(#[trigger] s[k]) by {
            let w = choose|w: int| 0 <= w < g.len() && g[w].id == s[k];
            assert(reg_ids[w] == s[k]);
        }
    }
    s.unique_seq_to_set();
    assert(s.to_set().subset_of(reg_ids.to_set()));
    lemma_len_subset(s.to_set(), reg_ids.to_set());
    reg_ids.lemma_cardinality_of_set();
}

/// The sequence of ids of a sequence of capabilities.
pub open spec fn ids_of(s: Seq<CapView>) -> Seq<Seq<char>> {
    s.map_values(|c: CapView| c.id)
}

/// Resolver output invariant: ids are unique, every entry is the registry's
/// capability for its id, and every dependency of an entry appears earlier.
pub open spec fn resolved_wf(g: Seq<CapView>, out: Seq<CapView>) -> bool {
    &&& ids_of(out).no_duplicates()
    &&& forall|i: int|
        0 <= i < out.len() ==> reg_contains(g, (#[trigger] out[i]).id) && out[i] == cap_of(
            g,
            out[i].id,
        )
    &&& forall|i: int, d: int|
        #![trigger out[i].dependencies[d]]
        0 <= i < out.len() && 0 <= d < out[i].dependencies.len() ==> dep_appears_before(
            out,
            i,
            out[i].dependencies[d],
        )
}

/// Whether some capability before position `i` carries the given id.
pub open spec fn dep_appears_before(out: Seq<CapView>, i: int, id: Seq<char>) -> bool {
    exists|j: int| 0 <= j < i && out[j].id == id
}

/// Stack invariant during depth-first expansion: distinct registered ids
/// where each entry names the next among its dependencies.
pub open spec fn chain_wf(g: Seq<CapView>, ip: Seq<Seq<char>>) -> bool {
    &&& ip.no_duplicates()
    &&& forall|k: int| 0 <= k < ip.len() ==> reg_contains(g, #[trigger] ip[k])
    &&& forall|k: int| 0 <= k < ip.len() - 1 ==> has_dep(g, #[trigger] ip[k], ip[k + 1])
}

/// A chain that loops back to one of its members is a cycle.
proof fn lemma_chain_cycle(g: Seq<CapView>, ip: Seq<Seq<char>>, p: int)
    requires
        chain_wf(g, ip),
        0 <= p < ip.len(),
        has_dep(g, ip[ip.len() - 1], ip[p]),
    ensures
        has_cycle(g),
{
    let c = ip.subrange(p, ip.len() as int);
    assert(c.len() > 0);
    assert(forall|i: int| 0 <= i < c.len() ==> c[i] == ip[p + i]);
    assert(has_dep(g, c[c.len() - 1], c[0]));
    assert(is_cycle(g, c));
}

impl InstallerRegistry {
    /// Whether the registry is well formed: ids are pairwise distinct.
    pub open spec fn wf(&self) -> bool {
        distinct_ids(self@)
    }

    /// Create an empty registry.
    pub fn empty() -> (r: InstallerRegistry)
        ensures
            r@ =~= Seq::<CapView>::empty(),
            r.wf(),
    {
        InstallerRegistry { installers: Vec::new() }
    }

    /// Register a capability; a capability with the same id is replaced.
    pub fn register(&mut self, cap: Capability)
        requires
            old(self).wf(),
        ensures
            final(self).wf(),
            final(self)@.len() <= old(self)@.len() + 1,
            reg_contains(final(self)@, cap@.id),
            cap_of(final(self)@, cap@.id) == cap@,
            forall|id: Seq<char>|
                id != cap@.id ==> (reg_contains(final(self)@, id) == reg_contains(
                    old(self)@,
                    id,
                ) && (reg_contains(old(self)@, id) ==> cap_of(final(self)@, id) == cap_of(
                    old(self)@,
                    id,
                ))),
    {
        let ghost g0 = self@;
        let mut k: usize = 0;
        let n = self.installers.len();
        let mut found: bool = false;
        let mut at: usize = 0;
        while k < n
            invariant
                k <= n == self.installers@.len(),
                self@ == g0,
                !found ==> forall|t: int| 0 <= t < k ==> g0[t].id != cap@.id,
                found ==> 0 <= at < k && g0[at as int].id == cap@.id,
            decreases n - k,
        {
            if !found && str_eq(self.installers[k].id.as_str(), cap.id.as_str()) {
                found = true;
                at = k;
            }
            k = k + 1;
        }
        if found {
            let ghost capv = cap@;
            self.installers.set(at, cap);
            proof {
                assert(self@ =~= g0.update(at as int, capv));
                lemma_updated_registry(g0, self@, at as int, capv);
            }
        } else {
            let ghost capv = cap@;
            self.installers.push(cap);
            proof {
                assert(self@ =~= g0.push(capv));
                assert(!reg_contains(g0, capv.id));
                lemma_extended_registry(g0, self@, capv);
            }
        }
    }

    /// Look up a capability by id.
    pub fn get(&self, id: &str) -> (r: Option<&Capability>)
        requires
            self.wf(),
        ensures
            match r {
                Some(c) => reg_contains(self@, id@) && c@ == cap_of(self@, id@),
                None => !reg_contains(self@, id@),
            },
    {
        proof {
            lemma_reg_index_works(self@, id@, 0);
        }
        let mut k: usize = 0;
        let n = self.installers.len();
        while k < n
            invariant
                self.wf(),
                k <= n == self.installers@.len(),
                forall|t: int| 0 <= t < k ==> self@[t].id != id@,
            decreases n - k,
        {
            if str_eq(self.installers[k].id.as_str(), id) {
                proof {
                    lemma_reg_index_at(self@, id@, k as int);
                }
                return Some(&self.installers[k]);
            }
            k = k + 1;
        }
        None
    }
}

/// Replacing the entry that held an id leaves lookups of all ids intact
/// except that the new capability now answers for its id.
proof fn lemma_updated_registry(g0: Seq<CapView>, g1: Seq<CapView>, at: int, cap: CapView)
    requires
        distinct_ids(g0),
        0 <= at < g0.len(),
        g0[at].id == cap.id,
        g1 =~= g0.update(at, cap),
    ensures
        distinct_ids(g1),
        reg_contains(g1, cap.id),
        cap_of(g1, cap.id) == cap,
        forall|id: Seq<char>|
            id != cap.id ==> (reg_contains(g1, id) == reg_contains(g0, id) && (reg_contains(
                g0,
                id,
            ) ==> cap_of(g1, id) == cap_of(g0, id))),
{
    assert(distinct_ids(g1));
    lemma_reg_index_at(g1, cap.id, at);
    assert forall|id: Seq<char>| id != cap.id implies (reg_contains(g1, id) == reg_contains(
        g0,
        id,
    ) && (reg_contains(g0, id) ==> cap_of(g1, id) == cap_of(g0, id))) by {
        if reg_contains(g0, id) {
            let w = choose|w: int| 0 <= w < g0.len() && g0[w].id == id;
            assert(g1[w].id == id);
            lemma_reg_index_at(g0, id, w);
            lemma_reg_index_at(g1, id, w);
        } else {
            if reg_contains(g1, id) {
                let w = choose|w: int| 0 <= w < g1.len() && g1[w].id == id;
                assert(g0[w].id == id);
            }
        }
    }
}

/// Appending a fresh id leaves lookups of older ids intact.
proof fn lemma_extended_registry(g0: Seq<CapView>, g1: Seq<CapView>, cap: CapView)
    requires
        distinct_ids(g0),
        !reg_contains(g0, cap.id),
        g1 =~= g0.push(cap),
    ensures
        distinct_ids(g1),
        reg_contains(g1, cap.id),
        cap_of(g1, cap.id) == cap,
        forall|id: Seq<char>|
            id != cap.id ==> (reg_contains(g1, id) == reg_contains(g0, id) && (reg_contains(
                g0,
                id,
            ) ==> cap_of(g1, id) == cap_of(g0, id))),
{
    assert(distinct_ids(g1));
    assert(g1[g0.len() as int] == cap);
    lemma_reg_index_at(g1, cap.id, g0.len() as int);
    assert forall|id: Seq<char>| id != cap.id implies (reg_contains(g1, id) == reg_contains(
        g0,
        id,
    ) && (reg_contains(g0, id) ==> cap_of(g1, id) == cap_of(g0, id))) by {
        if reg_contains(g0, id) {
            let w = choose|w: int| 0 <= w < g0.len() && g0[w].id == id;
            assert(g1[w].id == id);
            lemma_reg_index_at(g0, id, w);
            lemma_reg_index_at(g1, id, w);
        } else {
            if reg_contains(g1, id) {
                let w = choose|w: int| 0 <= w < g1.len() && g1[w].id == id;
                assert(w < g0.len() ==> g0[w].id == id);
                assert(w == g0.len() ==> g1[w] == cap);
            }
        }
    }
}

/// The views of a vector of capabilities.
pub open spec fn caps_view(v: Seq<Capability>) -> Seq<CapView> {
    v.map_values(|c: Capability| c@)
}

/// Whether `t` is named as a dependency by some registered capability.
pub open spec fn dep_of_some_cap(g: Seq<CapView>, t: Seq<char>) -> bool {
    exists|k: int, d: int|
        0 <= k < g.len() && 0 <= d < g[k].dependencies.len() && g[k].dependencies[d] == t
}

/// Whether a sequence of capability views holds one with the given id.
pub open spec fn out_contains(out: Seq<CapView>, id: Seq<char>) -> bool {
    exists|j: int| 0 <= j < out.len() && out[j].id == id
}

/// Whether `x` is named as a dependency by some member of the output.
pub open spec fn dep_of_output(out: Seq<CapView>, x: Seq<char>) -> bool {
    exists|i: int, d: int|
        0 <= i < out.len() && 0 <= d < out[i].dependencies.len() && out[i].dependencies[d] == x
}

/// Being a member's dependency carries over to any extension of the output.
proof fn lemma_dep_of_output_prefix(a: Seq<CapView>, b: Seq<CapView>, x: Seq<char>)
    requires
        a.is_prefix_of(b),
        dep_of_output(a, x),
    ensures
        dep_of_output(b, x),
{
    let (i, d) = choose|i: int, d: int|
        0 <= i < a.len() && 0 <= d < a[i].dependencies.len() && a[i].dependencies[d] == x;
    assert(b[i] == a.subrange(0, a.len() as int)[i]);
    assert(b[i].dependencies[d] == x);
}

/// Whether every string of `ids` has a capability in `out`.
pub open spec fn all_included(out: Seq<CapView>, ids: Seq<Seq<char>>) -> bool {
    forall|k: int| 0 <= k < ids.len() ==> out_contains(out, #[trigger] ids[k])
}


/// The outcome of the reference depth-first expansion.
pub ghost enum SpecResolve {
    /// Expansion finished with this output.
    Done(Seq<CapView>),
    /// The first unregistered id met, in traversal order.
    Missing(Seq<char>),
    /// A dependency cycle was met.
    Cycle,
}

/// The reference expansion of one id, depth first: an id already in the
/// output is kept once; an id still under expansion is a cycle; an
/// unregistered id is missing; a registered one has its dependencies
/// expanded in declared order and is then appended. This function pins the
/// resolver's output order completely: first requested, then first
/// discovered dependency.
pub open spec fn spec_resolve_id(
    g: Seq<CapView>,
    id: Seq<char>,
    out: Seq<CapView>,
    ip: Seq<Seq<char>>,
) -> SpecResolve
    decreases g.len() - ip.len(), 0int, 0int
        when ip.len() <= g.len()
{
    if out_contains(out, id) {
        SpecResolve::Done(out)
    } else if ip.contains(id) {
        SpecResolve::Cycle
    } else if !reg_contains(g, id) {
        SpecResolve::Missing(id)
    } else if ip.len() >= g.len() {
        // Unreachable when the expansion stack holds distinct registered
        // ids; closes the recursion for the measure.
        SpecResolve::Cycle
    } else {
        match spec_resolve_deps(g, cap_of(g, id).dependencies, 0, out, ip.push(id)) {
            SpecResolve::Done(out2) => SpecResolve::Done(out2.push(cap_of(g, id))),
            e => e,
        }
    }
}

/// The reference expansion of a dependency list from position `k` on.
pub open spec fn spec_resolve_deps(
    g: Seq<CapView>,
    deps: Seq<Seq<char>>,
    k: int,
    out: Seq<CapView>,
    ip: Seq<Seq<char>>,
) -> SpecResolve
    decreases g.len() - ip.len(), 1int, deps.len() - k
        when ip.len() <= g.len() && 0 <= k <= deps.len()
{
    if k >= deps.len() {
        SpecResolve::Done(out)
    } else {
        match spec_resolve_id(g, deps[k], out, ip) {
            SpecResolve::Done(out2) => spec_resolve_deps(g, deps, k + 1, out2, ip),
            e => e,
        }
    }
}

/// The reference expansion of the requested ids from position `k` on.
pub open spec fn spec_resolve_all(
    g: Seq<CapView>,
    ids: Seq<Seq<char>>,
    k: int,
    out: Seq<CapView>,
) -> SpecResolve
    decreases ids.len() - k
        when 0 <= k <= ids.len()
{
    if k >= ids.len() {
        SpecResolve::Done(out)
    } else {
        match spec_resolve_id(g, ids[k], out, Seq::<Seq<char>>::empty()) {
            SpecResolve::Done(out2) => spec_resolve_all(g, ids, k + 1, out2),
            e => e,
        }
    }
}

/// The reference resolution of a request against a registry.
pub open spec fn spec_resolution(g: Seq<CapView>, ids: Seq<Seq<char>>) -> SpecResolve {
    spec_resolve_all(g, ids, 0, Seq::<CapView>::empty())
}

/// Whether a string vector holds a string with the given characters.
fn contains_str(v: &Vec<String>, id: &str) -> (r: bool)
    ensures
        r == v.deep_view().contains(id@),
{
    let mut k: usize = 0;
    while k < v.len()
        invariant
            k <= v@.len(),
            forall|t: int| 0 <= t < k ==> v.deep_view()[t] != id@,
        decreases v@.len() - k,
    {
        if str_eq(v[k].as_str(), id) {
            proof {
                assert(v.deep_view()[k as int] == id@);
            }
            return true;
        }
        k = k + 1;
    }
    false
}

/// Whether a capability vector holds one with the given id.
fn contains_cap(v: &Vec<Capability>, id: &str) -> (r: bool)
    ensures
        r == out_contains(caps_view(v@), id@),
{
    let mut k: usize = 0;
    while k < v.len()
        invariant
            k <= v@.len(),
            forall|t: int| 0 <= t < k ==> caps_view(v@)[t].id != id@,
        decreases v@.len() - k,
    {
        if str_eq(v[k].id.as_str(), id) {
            proof {
                assert(caps_view(v@)[k as int].id == id@);
            }
            return true;
        }
        k = k + 1;
    }
    false
}

impl InstallerRegistry {
    /// Depth-first expansion of one id: every dependency is appended before
    /// the capability itself, an unknown id or a cycle is an error.
    #[verifier::loop_isolation(false)]
    fn resolve_rec(
        &self,
        id: &String,
        resolved: &mut Vec<Capability>,
        in_progress: &mut Vec<String>,
    ) -> (r: Result<(), BootstrapError>)
        requires
            self.wf(),
            resolved_wf(self@, caps_view(old(resolved)@)),
            chain_wf(self@, old(in_progress).deep_view()),
            old(in_progress).deep_view().len() > 0 ==> has_dep(
                self@,
                old(in_progress).deep_view().last(),
                id@,
            ),
            forall|j: int|
                0 <= j < old(resolved)@.len() ==> !old(in_progress).deep_view().contains(
                    caps_view(old(resolved)@)[j].id,
                ),
        ensures
            match r {
                Ok(()) => {
                    &&& spec_resolve_id(
                        self@,
                        id@,
                        caps_view(old(resolved)@),
                        old(in_progress).deep_view(),
                    ) == SpecResolve::Done(caps_view(final(resolved)@))
                    &&& resolved_wf(self@, caps_view(final(resolved)@))
                    &&& final(in_progress).deep_view() == old(in_progress).deep_view()
                    &&& caps_view(old(resolved)@).is_prefix_of(caps_view(final(resolved)@))
                    &&& out_contains(caps_view(final(resolved)@), id@)
                    &&& forall|j: int|
                        0 <= j < final(resolved)@.len() ==> !old(
                            in_progress,
                        ).deep_view().contains(caps_view(final(resolved)@)[j].id)
                    &&& forall|j: int|
                        old(resolved)@.len() <= j < final(resolved)@.len() ==> (caps_view(
                            final(resolved)@,
                        )[j].id == id@ || dep_of_output(
                            caps_view(final(resolved)@),
                            caps_view(final(resolved)@)[j].id,
                        ))
                },
                Err(e) => {
                    &&& match e {
                        BootstrapError::ToolNotFound(t) => !reg_contains(self@, t@) && (t@ == id@
                            || dep_of_some_cap(self@, t@)) && spec_resolve_id(
                            self@,
                            id@,
                            caps_view(old(resolved)@),
                            old(in_progress).deep_view(),
                        ) == SpecResolve::Missing(t@),
                        BootstrapError::CyclicDependency => has_cycle(self@) && spec_resolve_id(
                            self@,
                            id@,
                            caps_view(old(resolved)@),
                            old(in_progress).deep_view(),
                        ) == SpecResolve::Cycle,
                        _ => false,
                    }
                },
            },
        decreases self@.len() - old(in_progress)@.len(),
    {
        proof {
            lemma_distinct_registered_bound(self@, in_progress.deep_view());
        }
        if contains_cap(resolved, id.as_str()) {
            return Ok(());
        }
        if contains_str(in_progress, id.as_str()) {
            proof {
                let ip = in_progress.deep_view();
                let p = choose|p: int| 0 <= p < ip.len() && ip[p] == id@;
                assert(has_dep(self@, ip[ip.len() - 1], ip[p]));
                lemma_chain_cycle(self@, ip, p);
            }
            return Err(BootstrapError::CyclicDependency);
        }
        let cap = match self.get(id.as_str()) {
            Some(c) => c,
            None => {
                return Err(BootstrapError::ToolNotFound(id.clone()));
            },
        };
        let ghost g = self@;
        let ghost capv = cap@;
        let ghost ip0 = in_progress.deep_view();
        let ghost out0 = caps_view(resolved@);
        proof {
            lemma_reg_index_works(g, id@, 0);
            assert(reg_index(g, id@, 0) != -1) by {
                if reg_index(g, id@, 0) == -1 {
                    let t = choose|t: int| 0 <= t < g.len() && g[t].id == id@;
                    assert(g[t].id != id@);
                }
            }
            assert(capv.id == id@);
        }
        in_progress.push(id.clone());
        proof {
            assert(in_progress.deep_view() =~= ip0.push(id@));
            lemma_distinct_registered_bound(g, in_progress.deep_view());
        }
        let ghost ip1 = in_progress.deep_view();
        let n = cap.dependencies.len();
        let mut k: usize = 0;
        while k < n
            invariant
                self.wf(),
                self@ == g,
                k <= n == cap.dependencies@.len(),
                capv == cap@,
                capv == cap_of(g, id@),
                reg_contains(g, id@),
                in_progress.deep_view() == ip1,
                ip1 =~= ip0.push(id@),
                chain_wf(g, ip1),
                ip1.len() <= g.len(),
                resolved_wf(g, caps_view(resolved@)),
                out0.is_prefix_of(caps_view(resolved@)),
                forall|t: int|
                    0 <= t < k ==> out_contains(
                        caps_view(resolved@),
                        capv.dependencies[t],
                    ),
                forall|j: int|
                    0 <= j < resolved@.len() ==> !ip1.contains(caps_view(resolved@)[j].id),
                forall|j: int|
                    out0.len() <= j < caps_view(resolved@).len() ==> (capv.dependencies.contains(
                        caps_view(resolved@)[j].id,
                    ) || dep_of_output(caps_view(resolved@), caps_view(resolved@)[j].id)),
                spec_resolve_deps(g, capv.dependencies, 0, out0, ip1) == spec_resolve_deps(
                    g,
                    capv.dependencies,
                    k as int,
                    caps_view(resolved@),
                    ip1,
                ),
            decreases n - k,
        {
            proof {
                assert(capv.dependencies[k as int] == cap.dependencies.deep_view()[k as int]);
                assert(has_dep(g, id@, capv.dependencies[k as int]));
                assert(ip1.last() == id@);
            }
            let dep = &cap.dependencies[k];
            let ghost out_mid = caps_view(resolved@);
            proof {
                assert(in_progress@.len() == in_progress.deep_view().len());
                assert(in_progress@.len() <= g.len());
                assert(in_progress@.len() == ip0.len() + 1);
            }
            let res = self.resolve_rec(dep, resolved, in_progress);
            match res {
                Ok(()) => {},
                Err(e) => {
                    proof {
                        assert(capv.dependencies[k as int] == dep@);
                        let w = reg_index(g, id@, 0);
                        lemma_reg_index_works(g, id@, 0);
                        assert(g[w].dependencies[k as int] == dep@);
                        assert(dep_of_some_cap(g, dep@));
                        // The reference expansion meets the same error.
                        assert(spec_resolve_deps(g, capv.dependencies, k as int, out_mid, ip1)
                            == spec_resolve_id(g, dep@, out_mid, ip1));
                        assert(spec_resolve_id(g, id@, out0, ip0) == spec_resolve_deps(
                            g,
                            capv.dependencies,
                            0,
                            out0,
                            ip1,
                        ));
                    }
                    return Err(e);
                },
            }
            proof {
                let out_new = caps_view(resolved@);
                lemma_prefix_keeps_contains(out_mid, out_new);
                assert(out0.is_prefix_of(out_new)) by {
                    assert(forall|t: int| 0 <= t < out0.len() ==> out0[t] == out_mid[t]);
                    assert(out0 =~= out_new.subrange(0, out0.len() as int));
                }
                assert(spec_resolve_deps(g, capv.dependencies, k as int, out_mid, ip1)
                    == spec_resolve_deps(g, capv.dependencies, k as int + 1, out_new, ip1));
                assert forall|j: int|
                    out0.len() <= j < out_new.len() implies (capv.dependencies.contains(
                    out_new[j].id,
                ) || dep_of_output(out_new, out_new[j].id)) by {
                    if j < out_mid.len() {
                        assert(out_new[j] == out_mid[j]);
                        if dep_of_output(out_mid, out_mid[j].id) {
                            lemma_dep_of_output_prefix(out_mid, out_new, out_mid[j].id);
                        }
                    } else {
                        // An entry the child added: the child's own id, which
                        // is this capability's dependency, or already a
                        // member's dependency.
                        if out_new[j].id == dep@ {
                            assert(capv.dependencies[k as int] == dep@);
                        }
                    }
                }
            }
            k = k + 1;
        }
        let ghost raw1 = in_progress@;
        let _ = in_progress.pop();
        proof {
            assert(raw1.len() == ip1.len());
            assert forall|i: int| 0 <= i < in_progress@.len() implies in_progress.deep_view()[i]
                == ip0[i] by {
                assert(in_progress.deep_view()[i] == in_progress@[i]@);
                assert(in_progress@[i] == raw1[i]);
                assert(raw1[i]@ == ip1[i]);
            }
            assert(in_progress.deep_view() =~= ip0);
        }
        let dup = cap.duplicate();
        let ghost out1 = caps_view(resolved@);
        proof {
            assert(ip1[ip1.len() - 1] == id@);
            assert(ip1.contains(id@));
            assert forall|j: int| 0 <= j < out1.len() implies out1[j].id != id@ by {
                assert(!ip1.contains(out1[j].id));
            }
            assert(!out_contains(out1, id@));
            assert(!ip0.contains(id@));
            assert forall|j: int| 0 <= j < out1.len() implies !ip0.contains(out1[j].id) by {
                if ip0.contains(out1[j].id) {
                    let w = choose|w: int| 0 <= w < ip0.len() && ip0[w] == out1[j].id;
                    assert(ip1[w] == out1[j].id);
                    assert(ip1.contains(out1[j].id));
                }
            }
        }
        resolved.push(dup);
        proof {
            assert(caps_view(resolved@) =~= out1.push(capv));
            assert(spec_resolve_deps(g, capv.dependencies, capv.dependencies.len() as int, out1, ip1)
                == SpecResolve::Done(out1));
            assert(!out_contains(out0, id@));
            assert(!ip0.contains(id@));
            assert(reg_contains(g, id@));
            assert(ip1.len() == ip0.len() + 1 && ip1.len() <= g.len());
            assert(ip1 == ip0.push(id@));
            assert(cap_of(g, id@) == capv);
            assert(spec_resolve_deps(g, capv.dependencies, 0, out0, ip1)
                == SpecResolve::Done(out1));
            assert(spec_resolve_deps(g, capv.dependencies, 0, out0, ip0.push(id@))
                == SpecResolve::Done(out1));
            assert(spec_resolve_id(g, id@, out0, ip0) == SpecResolve::Done(out1.push(capv)));
            lemma_resolved_push(g, out1, capv, id@, ip0);
            assert(out0.is_prefix_of(caps_view(resolved@))) by {
                assert(forall|t: int| 0 <= t < out0.len() ==> out0[t] == out1[t]);
                assert(out0 =~= caps_view(resolved@).subrange(0, out0.len() as int));
            }
            let out2 = caps_view(resolved@);
            assert forall|j: int|
                out0.len() <= j < out2.len() implies (out2[j].id == id@ || dep_of_output(
                out2,
                out2[j].id,
            )) by {
                if j < out1.len() {
                    assert(out2[j] == out1[j]);
                    if capv.dependencies.contains(out1[j].id) {
                        let d = choose|d: int|
                            0 <= d < capv.dependencies.len() && capv.dependencies[d] == out1[j].id;
                        assert(out2[out1.len() as int].dependencies[d] == out1[j].id);
                    } else {
                        assert(out1.is_prefix_of(out2));
                        lemma_dep_of_output_prefix(out1, out2, out1[j].id);
                    }
                } else {
                    assert(out2[j] == capv);
                }
            }
        }
        Ok(())
    }
}

/// Containment of an id in a prefix carries over to the longer sequence.
proof fn lemma_prefix_keeps_contains(a: Seq<CapView>, b: Seq<CapView>)
    requires
        a.is_prefix_of(b),
    ensures
        forall|id: Seq<char>| out_contains(a, id) ==> out_contains(b, id),
        forall|t: int| 0 <= t < a.len() ==> a[t] == b[t],
{
    assert forall|id: Seq<char>| out_contains(a, id) implies out_contains(b, id) by {
        let j = choose|j: int| 0 <= j < a.len() && a[j].id == id;
        assert(b[j].id == id);
    }
}

/// Appending a capability whose dependencies are already present preserves
/// the resolver output invariant.
proof fn lemma_resolved_push(
    g: Seq<CapView>,
    out: Seq<CapView>,
    capv: CapView,
    id: Seq<char>,
    ip0: Seq<Seq<char>>,
)
    requires
        resolved_wf(g, out),
        capv == cap_of(g, id),
        reg_contains(g, id),
        capv.id == id,
        !out_contains(out, id),
        forall|t: int|
            0 <= t < capv.dependencies.len() ==> out_contains(
                out,
                #[trigger] capv.dependencies[t],
            ),
        !ip0.contains(id),
        forall|j: int| 0 <= j < out.len() ==> !ip0.contains(out[j].id),
    ensures
        resolved_wf(g, out.push(capv)),
        out.is_prefix_of(out.push(capv)),
        out_contains(out.push(capv), id),
        forall|j: int| 0 <= j < out.push(capv).len() ==> !ip0.contains(out.push(capv)[j].id),
{
    let out2 = out.push(capv);
    assert(out2[out.len() as int] == capv);
    assert(ids_of(out2).no_duplicates()) by {
        assert forall|i: int, j: int|
            (0 <= i < ids_of(out2).len() && 0 <= j < ids_of(out2).len() && i != j) implies ids_of(
            out2,
        )[i] != ids_of(out2)[j] by {
            assert(ids_of(out2)[i] == out2[i].id);
            assert(ids_of(out2)[j] == out2[j].id);
            if i < out.len() && j < out.len() {
                assert(ids_of(out)[i] == out[i].id && ids_of(out)[j] == out[j].id);
            } else if j < out.len() {
                // i is the appended element
                if out2[j].id == id {
                    assert(out_contains(out, id));
                }
            } else {
                if out2[i].id == id {
                    assert(out_contains(out, id));
                }
            }
        }
    }
    assert forall|i: int, d: int|
        #![trigger out2[i].dependencies[d]]
        0 <= i < out2.len() && 0 <= d < out2[i].dependencies.len() implies dep_appears_before(
        out2,
        i,
        out2[i].dependencies[d],
    ) by {
        if i < out.len() {
            assert(out2[i] == out[i]);
            assert(0 <= i < out.len() && 0 <= d < out[i].dependencies.len());
            assert(dep_appears_before(out, i, out[i].dependencies[d]));
            let j = choose|j: int| 0 <= j < i && out[j].id == out[i].dependencies[d];
            assert(out2[j].id == out2[i].dependencies[d]);
        } else {
            assert(out_contains(out, capv.dependencies[d]));
            let j = choose|j: int| 0 <= j < out.len() && out[j].id == capv.dependencies[d];
            assert(out2[j].id == out2[i].dependencies[d]);
        }
    }
}

/// In a registry with distinct ids, the first index found for an id is any
/// index that holds it.
proof fn lemma_reg_index_at(g: Seq<CapView>, id: Seq<char>, w: int)
    requires
        distinct_ids(g),
        0 <= w < g.len(),
        g[w].id == id,
    ensures
        reg_index(g, id, 0) == w,
        cap_of(g, id) == g[w],
        reg_contains(g, id),
{
    lemma_reg_index_works(g, id, 0);
    let r = reg_index(g, id, 0);
    if r != w {
        assert(g[r].id == g[w].id);
    }
}

impl InstallerRegistry {
    /// Resolve the transitive dependency closure of the requested ids, in an
    /// order where every dependency precedes its dependent and no id repeats.
    /// An id that is not registered fails with `ToolNotFound`; a dependency
    /// cycle fails with `CyclicDependency`. On a registry whose dependencies
    /// are all registered and cycle-free, resolution of known ids always
    /// succeeds.
    #[verifier::loop_isolation(false)]
    pub fn resolve_dependencies(&self, ids: &Vec<String>) -> (r: BootstrapResult<Vec<Capability>>)
        requires
            self.wf(),
        ensures
            match r {
                Ok(out) => {
                    // The output is exactly the reference depth-first
                    // expansion: first requested, then first discovered
                    // dependency; repeated runs agree.
                    &&& spec_resolution(self@, ids.deep_view()) == SpecResolve::Done(
                        caps_view(out@),
                    )
                    &&& resolved_wf(self@, caps_view(out@))
                    &&& all_included(caps_view(out@), ids.deep_view())
                    // Nothing beyond the closure: every member was requested
                    // or is a dependency of a member.
                    &&& forall|j: int|
                        0 <= j < caps_view(out@).len() ==> (ids.deep_view().contains(
                            caps_view(out@)[j].id,
                        ) || dep_of_output(caps_view(out@), caps_view(out@)[j].id))
                },
                Err(e) => match e {
                    // The named id is the first missing one the reference
                    // expansion meets.
                    BootstrapError::ToolNotFound(t) => !reg_contains(self@, t@) && (
                    ids.deep_view().contains(t@) || dep_of_some_cap(self@, t@)) && spec_resolution(
                        self@,
                        ids.deep_view(),
                    ) == SpecResolve::Missing(t@),
                    BootstrapError::CyclicDependency => has_cycle(self@) && spec_resolution(
                        self@,
                        ids.deep_view(),
                    ) == SpecResolve::Cycle,
                    _ => false,
                },
            },
            // Success exactly when the reference expansion completes.
            r is Ok <==> spec_resolution(self@, ids.deep_view()) is Done,
            (reg_closed(self@) && !has_cycle(self@) && (forall|k: int|
                0 <= k < ids.deep_view().len() ==> reg_contains(
                    self@,
                    #[trigger] ids.deep_view()[k],
                ))) ==> r is Ok,
    {
        let ghost g = self@;
        let mut resolved: Vec<Capability> = Vec::new();
        let mut in_progress: Vec<String> = Vec::new();
        proof {
            assert(caps_view(resolved@) =~= Seq::<CapView>::empty());
            assert(in_progress.deep_view() =~= Seq::<Seq<char>>::empty());
        }
        let n = ids.len();
        let mut k: usize = 0;
        while k < n
            invariant
                n == ids@.len(),
                k <= n,
                in_progress.deep_view() =~= Seq::<Seq<char>>::empty(),
                resolved_wf(g, caps_view(resolved@)),
                forall|t: int|
                    0 <= t < k ==> out_contains(caps_view(resolved@), #[trigger] ids.deep_view()[t]),
                forall|j: int|
                    0 <= j < caps_view(resolved@).len() ==> (ids.deep_view().contains(
                        caps_view(resolved@)[j].id,
                    ) || dep_of_output(caps_view(resolved@), caps_view(resolved@)[j].id)),
                spec_resolve_all(g, ids.deep_view(), 0, Seq::<CapView>::empty())
                    == spec_resolve_all(g, ids.deep_view(), k as int, caps_view(resolved@)),
            decreases n - k,
        {
            let ghost out_mid = caps_view(resolved@);
            let ghost ip_pre = in_progress.deep_view();
            let res = self.resolve_rec(&ids[k], &mut resolved, &mut in_progress);
            match res {
                Ok(()) => {},
                Err(e) => {
                    proof {
                        assert(ids.deep_view()[k as int] == ids@[k as int]@);
                        assert(ip_pre == Seq::<Seq<char>>::empty());
                        assert(spec_resolve_all(g, ids.deep_view(), k as int, out_mid)
                            == spec_resolve_id(
                            g,
                            ids.deep_view()[k as int],
                            out_mid,
                            Seq::<Seq<char>>::empty(),
                        ));
                    }
                    return Err(e);
                },
            }
            proof {
                let out_new = caps_view(resolved@);
                lemma_prefix_keeps_contains(out_mid, out_new);
                assert(ids.deep_view()[k as int] == ids@[k as int]@);
                assert(ip_pre == Seq::<Seq<char>>::empty());
                assert(spec_resolve_all(g, ids.deep_view(), k as int, out_mid)
                    == spec_resolve_all(g, ids.deep_view(), k as int + 1, out_new));
                assert forall|j: int|
                    0 <= j < out_new.len() implies (ids.deep_view().contains(out_new[j].id)
                    || dep_of_output(out_new, out_new[j].id)) by {
                    if j < out_mid.len() {
                        assert(out_new[j] == out_mid[j]);
                        if dep_of_output(out_mid, out_mid[j].id) {
                            lemma_dep_of_output_prefix(out_mid, out_new, out_mid[j].id);
                        }
                    } else {
                        if out_new[j].id == ids@[k as int]@ {
                            assert(ids.deep_view()[k as int] == out_new[j].id);
                        }
                    }
                }
            }
            k = k + 1;
        }
        proof {
            assert(spec_resolve_all(g, ids.deep_view(), n as int, caps_view(resolved@))
                == SpecResolve::Done(caps_view(resolved@)));
        }
        Ok(resolved)
    }
}

/// The position of the capability with the given id.
pub open spec fn pos_in(out: Seq<CapView>, id: Seq<char>) -> int {
    choose|j: int| 0 <= j < out.len() && out[j].id == id
}

/// In resolver output, a dependency's position lies strictly before its
/// dependent's.
proof fn lemma_dep_pos_decreases(g: Seq<CapView>, out: Seq<CapView>, a: Seq<char>, b: Seq<char>)
    requires
        resolved_wf(g, out),
        out_contains(out, a),
        out_contains(out, b),
        has_dep(g, a, b),
    ensures
        0 <= pos_in(out, b) < pos_in(out, a) < out.len(),
        out[pos_in(out, a)].id == a,
        out[pos_in(out, b)].id == b,
{
    let pa = pos_in(out, a);
    let pb = pos_in(out, b);
    assert(0 <= pa < out.len() && out[pa].id == a);
    assert(0 <= pb < out.len() && out[pb].id == b);
    assert(out[pa] == cap_of(g, out[pa].id));
    let deps = cap_of(g, a).dependencies;
    assert(deps.contains(b));
    let d = choose|d: int| 0 <= d < deps.len() && deps[d] == b;
    assert(out[pa].dependencies[d] == b);
    assert(dep_appears_before(out, pa, out[pa].dependencies[d]));
    let j = choose|j: int| 0 <= j < pa && out[j].id == b;
    assert(ids_of(out)[j] == b && ids_of(out)[pb] == b);
    if j != pb {
        assert(ids_of(out).no_duplicates());
        assert(ids_of(out)[j] != ids_of(out)[pb]);
    }
}

/// Positions strictly decrease along the edges of a cycle.
proof fn lemma_cycle_pos_bound(g: Seq<CapView>, out: Seq<CapView>, c: Seq<Seq<char>>, i: int)
    requires
        resolved_wf(g, out),
        is_cycle(g, c),
        forall|t: int| 0 <= t < c.len() ==> out_contains(out, #[trigger] c[t]),
        0 <= i < c.len(),
    ensures
        pos_in(out, c[i]) <= pos_in(out, c[0]) - i,
    decreases i,
{
    if i > 0 {
        lemma_cycle_pos_bound(g, out, c, i - 1);
        assert(has_dep(g, c[i - 1], c[i]));
        lemma_dep_pos_decreases(g, out, c[i - 1], c[i]);
    }
}

/// No dependency cycle runs through the resolver's output: the output orders
/// every dependency strictly before its dependent, which no cycle can
/// satisfy.
pub proof fn lemma_resolved_excludes_cycle(g: Seq<CapView>, out: Seq<CapView>, c: Seq<Seq<char>>)
    requires
        resolved_wf(g, out),
        forall|t: int| 0 <= t < c.len() ==> out_contains(out, #[trigger] c[t]),
    ensures
        !is_cycle(g, c),
{
    if is_cycle(g, c) {
        let n = c.len() as int;
        lemma_cycle_pos_bound(g, out, c, n - 1);
        assert(has_dep(g, c[n - 1], c[0]));
        lemma_dep_pos_decreases(g, out, c[n - 1], c[0]);
    }
}

} // verus!
