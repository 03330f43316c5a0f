//! The agent registry: a local directory of agents and what they provide.
use crate::manifest::{first_named, names, AgentManifest, AgentManifestView, CapabilityDeclView};
use crate::order;
use crate::table::{self, Group, Key, Table};
use crate::text;
use crate::twin::Twin;
use crate::types::Did;
use vstd::prelude::*;

verus! {

/// Local registry of agents and their declared capabilities.
#[derive(Debug, PartialEq, Eq)]
pub struct AgentRegistry {
    agents: Table<Did, AgentManifest>,
    index: Vec<(String, Did)>,
}

/// The index entries of all agents but one, in order.
pub open spec fn others(index: Seq<(Seq<char>, Seq<char>)>, did: Seq<char>) -> Seq<
    (Seq<char>, Seq<char>),
>
    decreases index.len(),
{
    if index.len() == 0 {
        Seq::empty()
    } else {
        let rest = others(index.drop_last(), did);
        if index.last().1 == did {
            rest
        } else {
            rest.push(index.last())
        }
    }
}

/// The names that declarations give, each once, in order of first appearance.
pub open spec fn distinct_names(decls: Seq<CapabilityDeclView>) -> Seq<Seq<char>>
    decreases decls.len(),
{
    if decls.len() == 0 {
        Seq::empty()
    } else {
        table::joined(distinct_names(decls.drop_last()), decls.last().name)
    }
}

/// One index entry for each name that an agent declares.
pub open spec fn entries(decls: Seq<CapabilityDeclView>, did: Seq<char>) -> Seq<
    (Seq<char>, Seq<char>),
> {
    let all = distinct_names(decls);
    Seq::new(all.len(), |i: int| (all[i], did))
}

/// The manifests that the index lists under a name, in order.
pub open spec fn listed_under(
    index: Seq<(Seq<char>, Seq<char>)>,
    agents: Seq<(Seq<char>, AgentManifestView)>,
    name: Seq<char>,
) -> Seq<AgentManifestView>
    decreases index.len(),
{
    if index.len() == 0 {
        Seq::empty()
    } else {
        let rest = listed_under(index.drop_last(), agents, name);
        if index.last().0 == name && table::holds(agents, index.last().1) {
            rest.push(table::at(agents, index.last().1))
        } else {
            rest
        }
    }
}

/// The price of the first capability with a name.
pub open spec fn price_named(manifest: AgentManifestView, name: Seq<char>) -> u64 {
    match first_named(manifest.provides, name) {
        Some(decl) => decl.price_per_unit,
        None => u64::MAX,
    }
}

/// Whether an index lists exactly what registered agents provide.
pub open spec fn consistent(
    index: Seq<(Seq<char>, Seq<char>)>,
    agents: Seq<(Seq<char>, AgentManifestView)>,
) -> bool {
    forall|name: Seq<char>, did: Seq<char>| #[trigger]
        index.contains((name, did)) <==> table::holds(agents, did) && names(
            table::at(agents, did).provides,
            name,
        )
}

/// Whether manifests stand under their own agents, each agent has one, and the
/// index lists exactly what they provide, nothing twice.
pub open spec fn well_kept(
    index: Seq<(Seq<char>, Seq<char>)>,
    agents: Seq<(Seq<char>, AgentManifestView)>,
) -> bool {
    &&& consistent(index, agents)
    &&& index.no_duplicates()
    &&& table::distinct(agents)
    &&& forall|i: int| 0 <= i < agents.len() ==> (#[trigger] agents[i]).1.did == agents[i].0
}

proof fn lemma_distinct_names(decls: Seq<CapabilityDeclView>)
    ensures
        distinct_names(decls).no_duplicates(),
        forall|name: Seq<char>| #[trigger]
            distinct_names(decls).contains(name) <==> names(decls, name),
    decreases decls.len(),
{
    let all = distinct_names(decls);
    if decls.len() > 0 {
        let front = decls.drop_last();
        let before = distinct_names(front);
        let last = decls.last().name;
        lemma_distinct_names(front);
        assert forall|name: Seq<char>| #[trigger] all.contains(name) <==> names(decls, name) by {
            lemma_push_contains(before, last, name);
            if names(front, name) {
                let i = choose|i: int| 0 <= i < front.len() && (#[trigger] front[i]).name == name;
                assert(decls[i].name == name);
            }
            if names(decls, name) {
                let i = choose|i: int| 0 <= i < decls.len() && (#[trigger] decls[i]).name == name;
                if i < front.len() {
                    assert(front[i].name == name);
                }
            }
            if name == last {
                assert(decls[decls.len() - 1].name == name);
            }
        }
        assert forall|i: int, j: int| 0 <= i < all.len() && 0 <= j < all.len() && i != j implies all[i]
            != all[j] by {
            if i < before.len() {
                assert(before.contains(before[i]));
            }
            if j < before.len() {
                assert(before.contains(before[j]));
            }
        }
    }
}

proof fn lemma_others_distinct(index: Seq<(Seq<char>, Seq<char>)>, did: Seq<char>)
    requires
        index.no_duplicates(),
    ensures
        others(index, did).no_duplicates(),
    decreases index.len(),
{
    if index.len() > 0 {
        let front = index.drop_last();
        let rest = others(front, did);
        let all = others(index, did);
        lemma_others_distinct(front, did);
        lemma_others(front, did);
        assert(!front.contains(index.last())) by {
            if front.contains(index.last()) {
                let i = front.index_of(index.last());
                assert(index[i] == index[index.len() - 1]);
            }
        }
        assert forall|i: int, j: int| 0 <= i < all.len() && 0 <= j < all.len() && i != j implies all[i]
            != all[j] by {
            if i < rest.len() {
                assert(rest.contains(rest[i]));
            }
            if j < rest.len() {
                assert(rest.contains(rest[j]));
            }
        }
    }
}

proof fn lemma_others(index: Seq<(Seq<char>, Seq<char>)>, did: Seq<char>)
    ensures
        forall|e: (Seq<char>, Seq<char>)| #[trigger]
            others(index, did).contains(e) <==> index.contains(e) && e.1 != did,
    decreases index.len(),
{
    if index.len() > 0 {
        let front = index.drop_last();
        lemma_others(front, did);
        let rest = others(front, did);
        assert(index =~= front.push(index.last()));
        assert forall|e: (Seq<char>, Seq<char>)| #[trigger]
            others(index, did).contains(e) <==> index.contains(e) && e.1 != did by {
            lemma_push_contains(front, index.last(), e);
            lemma_push_contains(rest, index.last(), e);
        }
    }
}

proof fn lemma_push_contains<A>(s: Seq<A>, last: A, e: A)
    ensures
        s.push(last).contains(e) <==> s.contains(e) || e == last,
{
    let t = s.push(last);
    if s.contains(e) {
        let i = s.index_of(e);
        assert(t[i] == e);
    }
    if e == last {
        assert(t[s.len() as int] == e);
    }
    if t.contains(e) && e != last {
        let i = t.index_of(e);
        assert(s[i] == e);
    }
}

/// Registering an agent keeps the registry in order.
#[verifier::spinoff_prover]
#[verifier::rlimit(40)]
pub proof fn lemma_register_consistent(
    index: Seq<(Seq<char>, Seq<char>)>,
    agents: Seq<(Seq<char>, AgentManifestView)>,
    manifest: AgentManifestView,
)
    requires
        well_kept(index, agents),
    ensures
        well_kept(
            others(index, manifest.did) + entries(manifest.provides, manifest.did),
            table::put(agents, manifest.did, manifest),
        ),
{
    let mine = entries(manifest.provides, manifest.did);
    let rest = others(index, manifest.did);
    let after = rest + mine;
    let all = distinct_names(manifest.provides);
    let agents1 = table::put(agents, manifest.did, manifest);
    lemma_others(index, manifest.did);
    lemma_others_distinct(index, manifest.did);
    lemma_distinct_names(manifest.provides);
    table::lemma_put_distinct(agents, manifest.did, manifest);
    assert forall|name: Seq<char>, did: Seq<char>| #[trigger]
        after.contains((name, did)) <==> table::holds(agents1, did) && names(
            table::at(agents1, did).provides,
            name,
        ) by {
        table::lemma_put_find(agents, manifest.did, manifest, did);
        if after.contains((name, did)) {
            let i = after.index_of((name, did));
            if i < rest.len() {
                assert(rest[i] == (name, did));
                assert(rest.contains((name, did)));
                assert(index.contains((name, did)));
            } else {
                assert(mine[i - rest.len()] == (name, did));
                assert(all[i - rest.len()] == name);
                assert(all.contains(name));
            }
        }
        if did == manifest.did {
            if names(manifest.provides, name) {
                assert(all.contains(name));
                let i = all.index_of(name);
                assert(after[rest.len() + i] == (name, did));
            }
        } else {
            assert(table::find(agents1, did) == table::find(agents, did));
            if index.contains((name, did)) {
                assert(rest.contains((name, did)));
                assert(after[rest.index_of((name, did))] == (name, did));
            }
        }
    }
    assert forall|i: int, j: int| 0 <= i < after.len() && 0 <= j < after.len() && i != j implies after[i]
        != after[j] by {
        if i < rest.len() {
            assert(rest.contains(rest[i]));
        }
        if j < rest.len() {
            assert(rest.contains(rest[j]));
        }
    }
}

/// Removing an agent keeps the registry in order.
pub proof fn lemma_unregister_consistent(
    index: Seq<(Seq<char>, Seq<char>)>,
    agents: Seq<(Seq<char>, AgentManifestView)>,
    gone: Seq<char>,
)
    requires
        well_kept(index, agents),
    ensures
        well_kept(others(index, gone), table::without(agents, gone)),
{
    let agents1 = table::without(agents, gone);
    lemma_others(index, gone);
    lemma_others_distinct(index, gone);
    table::lemma_without_find(agents, gone, gone);
    assert forall|name: Seq<char>, did: Seq<char>| #[trigger]
        others(index, gone).contains((name, did)) <==> table::holds(agents1, did) && names(
            table::at(agents1, did).provides,
            name,
        ) by {
        table::lemma_without_find(agents, gone, did);
        if did != gone {
            assert(table::find(agents1, did) == table::find(agents, did));
            assert(others(index, gone).contains((name, did)) == index.contains((name, did)));
        }
    }
}

#[verifier::spinoff_prover]
#[verifier::rlimit(40)]
proof fn lemma_listed_from(
    index: Seq<(Seq<char>, Seq<char>)>,
    agents: Seq<(Seq<char>, AgentManifestView)>,
    name: Seq<char>,
)
    requires
        index.no_duplicates(),
        forall|i: int| 0 <= i < agents.len() ==> (#[trigger] agents[i]).1.did == agents[i].0,
    ensures
        forall|m: AgentManifestView| #[trigger]
            listed_under(index, agents, name).contains(m) <==> index.contains((name, m.did))
                && table::find(agents, m.did) == Some(m),
        forall|i: int, j: int|
            0 <= i < j < listed_under(index, agents, name).len() ==> (#[trigger] listed_under(
                index,
                agents,
                name,
            )[i]).did != (#[trigger] listed_under(index, agents, name)[j]).did,
    decreases index.len(),
{
    if index.len() > 0 {
        let front = index.drop_last();
        let last = index.last();
        let rest = listed_under(front, agents, name);
        let all = listed_under(index, agents, name);
        lemma_listed_from(front, agents, name);
        assert(index =~= front.push(last));
        assert(!front.contains(last)) by {
            if front.contains(last) {
                let i = front.index_of(last);
                assert(index[i] == index[index.len() - 1]);
            }
        }
        if table::holds(agents, last.1) {
            let p = table::place(agents, last.1);
            assert(agents[p].0 == last.1);
            assert(table::at(agents, last.1).did == last.1);
        }
        let found = table::at(agents, last.1);
        assert forall|m: AgentManifestView| #[trigger] all.contains(m) <==> index.contains(
            (name, m.did),
        ) && table::find(agents, m.did) == Some(m) by {
            lemma_push_contains(front, last, (name, m.did));
            lemma_push_contains(rest, found, m);
        }
        assert forall|i: int, j: int| 0 <= i < j < all.len() implies (#[trigger] all[i]).did != (
        #[trigger] all[j]).did by {
            assert(all[i] == rest[i]);
            if j < rest.len() {
                assert(all[j] == rest[j]);
            } else {
                assert(rest.contains(rest[i]));
            }
        }
    }
}

/// A search by capability finds exactly the registered agents that provide it,
/// and each of them once.
pub proof fn lemma_providers_are_found_once(
    index: Seq<(Seq<char>, Seq<char>)>,
    agents: Seq<(Seq<char>, AgentManifestView)>,
    name: Seq<char>,
)
    requires
        well_kept(index, agents),
    ensures
        forall|m: AgentManifestView| #[trigger]
            listed_under(index, agents, name).contains(m) <==> table::find(agents, m.did) == Some(m)
                && names(m.provides, name),
        forall|i: int, j: int|
            0 <= i < j < listed_under(index, agents, name).len() ==> (#[trigger] listed_under(
                index,
                agents,
                name,
            )[i]).did != (#[trigger] listed_under(index, agents, name)[j]).did,
{
    lemma_listed_from(index, agents, name);
    assert forall|m: AgentManifestView| #[trigger]
        listed_under(index, agents, name).contains(m) <==> table::find(agents, m.did) == Some(m)
            && names(m.provides, name) by {
        assert(index.contains((name, m.did)) <==> table::holds(agents, m.did) && names(
            table::at(agents, m.did).provides,
            name,
        ));
    }
}

/// The prices of found agents for a capability.
pub open spec fn prices_of(found: Seq<AgentManifestView>, name: Seq<char>) -> Seq<u64> {
    Seq::new(found.len(), |i: int| price_named(found[i], name))
}

/// The cheapest agent for a capability is registered, provides it, and asks for
/// no more than any other registered provider.
pub proof fn lemma_cheapest_is_least(
    index: Seq<(Seq<char>, Seq<char>)>,
    agents: Seq<(Seq<char>, AgentManifestView)>,
    name: Seq<char>,
)
    requires
        well_kept(index, agents),
        listed_under(index, agents, name).len() > 0,
    ensures
        ({
            let found = listed_under(index, agents, name);
            let best = found[order::least_at(prices_of(found, name))];
            &&& table::find(agents, best.did) == Some(best)
            &&& names(best.provides, name)
            &&& forall|m: AgentManifestView|
                table::find(agents, m.did) == Some(m) && names(m.provides, name) ==> price_named(
                    best,
                    name,
                ) <= #[trigger] price_named(m, name)
        }),
{
    let found = listed_under(index, agents, name);
    let prices = prices_of(found, name);
    lemma_providers_are_found_once(index, agents, name);
    order::lemma_least_at(prices);
    let best = found[order::least_at(prices)];
    assert(found.contains(best));
    assert forall|m: AgentManifestView|
        table::find(agents, m.did) == Some(m) && names(m.provides, name) implies price_named(
        best,
        name,
    ) <= #[trigger] price_named(m, name) by {
        assert(found.contains(m));
        let i = found.index_of(m);
        assert(prices[i] == price_named(m, name));
    }
}

impl AgentRegistry {
    /// The manifests by agent, in order of first registration.
    pub closed spec fn agents(&self) -> Seq<(Seq<char>, AgentManifestView)> {
        self.agents.rows()
    }

    /// The capability index: which agent provides which name, in order of
    /// registration.
    pub closed spec fn index(&self) -> Seq<(Seq<char>, Seq<char>)> {
        self.index.deep_view()
    }

    /// The index lists exactly what the agents provide, nothing twice.
    pub open spec fn wf(&self) -> bool {
        well_kept(self.index(), self.agents())
    }

    /// An empty registry.
    pub fn new() -> (r: Self)
        ensures
            r.wf(),
            r.agents() == Seq::<(Seq<char>, AgentManifestView)>::empty(),
            r.index() == Seq::<(Seq<char>, Seq<char>)>::empty(),
    {
        let r = AgentRegistry { agents: Table::new(), index: Vec::new() };
        assert(r.index() =~= Seq::<(Seq<char>, Seq<char>)>::empty());
        r
    }

    fn without_entries(&self, did: &Did) -> (r: Vec<(String, Did)>)
        ensures
            r.deep_view() == others(self.index(), did.deep_view()),
    {
        let mut r: Vec<(String, Did)> = Vec::new();
        let mut i: usize = 0;
        let ghost index = self.index();
        assert(r.deep_view() =~= Seq::<(Seq<char>, Seq<char>)>::empty());
        while i < self.index.len()
            invariant
                i <= self.index@.len(),
                index == self.index.deep_view(),
                r.deep_view() == others(index.subrange(0, i as int), did.deep_view()),
            decreases self.index@.len() - i,
        {
            let ghost before = r.deep_view();
            proof {
                let upto = index.subrange(0, i + 1);
                assert(upto.drop_last() =~= index.subrange(0, i as int));
                assert(upto.last() == self.index@[i as int].deep_view());
            }
            if !self.index[i].1.same(did) {
                r.push(self.index[i].twin());
                assert(r.deep_view() =~= before.push(index[i as int]));
            }
            i = i + 1;
        }
        assert(index.subrange(0, i as int) =~= index);
        r
    }

    /// Registers an agent, or replaces its manifest.
    pub fn register(&mut self, manifest: AgentManifest)
        requires
            old(self).wf(),
        ensures
            final(self).wf(),
            final(self).agents() == table::put(
                old(self).agents(),
                manifest.deep_view().did,
                manifest.deep_view(),
            ),
            final(self).index() == others(old(self).index(), manifest.deep_view().did) + entries(
                manifest.deep_view().provides,
                manifest.deep_view().did,
            ),
    {
        let ghost kept = others(self.index(), manifest.deep_view().did);
        let ghost mine = entries(manifest.deep_view().provides, manifest.deep_view().did);
        proof {
            lemma_register_consistent(self.index(), self.agents(), manifest.deep_view());
        }
        let mut index = self.without_entries(&manifest.did);
        let ghost decls = manifest.deep_view().provides;
        let mut given: Group<String> = Group::new();
        let mut i: usize = 0;
        assert(decls.subrange(0, 0) =~= Seq::<CapabilityDeclView>::empty());
        while i < manifest.provides.len()
            invariant
                i <= manifest.provides@.len(),
                decls == manifest.provides.deep_view(),
                given.members() == distinct_names(decls.subrange(0, i as int)),
            decreases manifest.provides@.len() - i,
        {
            proof {
                let upto = decls.subrange(0, i + 1);
                assert(upto.drop_last() =~= decls.subrange(0, i as int));
                assert(upto.last() == manifest.provides@[i as int].deep_view());
            }
            given.insert(manifest.provides[i].name.twin());
            i = i + 1;
        }
        assert(decls.subrange(0, i as int) =~= decls);
        let mut k: usize = 0;
        assert(kept + mine.subrange(0, 0) =~= kept);
        while k < given.len()
            invariant
                k <= given.members().len(),
                given.members() == distinct_names(manifest.deep_view().provides),
                mine == entries(manifest.deep_view().provides, manifest.deep_view().did),
                index.deep_view() == kept + mine.subrange(0, k as int),
            decreases given.members().len() - k,
        {
            let ghost before = index.deep_view();
            index.push((given.at(k).twin(), manifest.did.twin()));
            assert(index.deep_view() =~= before.push(mine[k as int]));
            assert(index.deep_view() =~= kept + mine.subrange(0, k + 1));
            k = k + 1;
        }
        assert(mine.subrange(0, k as int) =~= mine);
        self.index = index;
        self.agents.insert(manifest.did.twin(), manifest);
    }

    /// Removes an agent.
    pub fn unregister(&mut self, did: &Did)
        requires
            old(self).wf(),
        ensures
            final(self).wf(),
            final(self).agents() == table::without(old(self).agents(), did.deep_view()),
            final(self).index() == others(old(self).index(), did.deep_view()),
    {
        proof {
            lemma_unregister_consistent(self.index(), self.agents(), did.deep_view());
        }
        let index = self.without_entries(did);
        self.index = index;
        self.agents.remove(did);
    }

    /// The manifest of an agent.
    pub fn get(&self, did: &Did) -> (r: Option<&AgentManifest>)
        ensures
            r.deep_view() == table::find(self.agents(), did.deep_view()),
    {
        self.agents.get(did)
    }

    /// The agents that provide a capability, in order of registration.
    pub fn find_by_capability(&self, capability: &str) -> (r: Vec<&AgentManifest>)
        ensures
            r.deep_view() == listed_under(self.index(), self.agents(), capability@),
    {
        let mut r: Vec<&AgentManifest> = Vec::new();
        let mut i: usize = 0;
        let ghost index = self.index();
        assert(r.deep_view() =~= Seq::<AgentManifestView>::empty());
        while i < self.index.len()
            invariant
                i <= self.index@.len(),
                index == self.index.deep_view(),
                r.deep_view() == listed_under(
                    index.subrange(0, i as int),
                    self.agents(),
                    capability@,
                ),
            decreases self.index@.len() - i,
        {
            let ghost before = r.deep_view();
            proof {
                let upto = index.subrange(0, i + 1);
                assert(upto.drop_last() =~= index.subrange(0, i as int));
                assert(upto.last() == self.index@[i as int].deep_view());
            }
            if text::same_text(self.index[i].0.as_str(), capability) {
                match self.agents.get(&self.index[i].1) {
                    Some(manifest) => {
                        r.push(manifest);
                        assert(r.deep_view() =~= before.push(manifest.deep_view()));
                    },
                    None => {},
                }
            }
            i = i + 1;
        }
        assert(index.subrange(0, i as int) =~= index);
        r
    }

    /// All known agents.
    pub fn all(&self) -> (r: Vec<&AgentManifest>)
        ensures
            r.deep_view() == table::values(self.agents()),
    {
        let n = self.agents.len();
        let mut r: Vec<&AgentManifest> = Vec::new();
        while r.len() < n
            invariant
                n == self.agents().len(),
                r@.len() <= n,
                forall|j: int|
                    0 <= j < r@.len() ==> (#[trigger] r@[j]).deep_view() == self.agents()[j].1,
            decreases n - r@.len(),
        {
            r.push(self.agents.value_at(r.len()));
        }
        assert(r.deep_view() =~= table::values(self.agents()));
        r
    }

    /// The number of known agents.
    pub fn len(&self) -> (r: usize)
        ensures
            r == self.agents().len(),
    {
        self.agents.len()
    }

    /// Whether no agent is known.
    pub fn is_empty(&self) -> (r: bool)
        ensures
            r == (self.agents().len() == 0),
    {
        self.agents.len() == 0
    }

    /// The cheapest agent for a capability; of several, the first registered.
    pub fn cheapest_for(&self, capability: &str) -> (r: Option<&AgentManifest>)
        ensures
            ({
                let found = listed_under(self.index(), self.agents(), capability@);
                let prices = prices_of(found, capability@);
                if found.len() == 0 {
                    r is None
                } else {
                    r.deep_view() == Some(found[order::least_at(prices)])
                }
            }),
    {
        let found = self.find_by_capability(capability);
        if found.len() == 0 {
            return None;
        }
        let mut prices: Vec<u64> = Vec::new();
        while prices.len() < found.len()
            invariant
                prices@.len() <= found@.len(),
                forall|j: int|
                    0 <= j < prices@.len() ==> #[trigger] prices@[j] == price_named(
                        found.deep_view()[j],
                        capability@,
                    ),
            decreases found@.len() - prices@.len(),
        {
            let manifest = found[prices.len()];
            let price = match manifest.find_provided(capability) {
                Some(decl) => decl.price_per_unit,
                None => u64::MAX,
            };
            prices.push(price);
        }
        assert(prices@ =~= prices_of(found.deep_view(), capability@));
        Some(found[order::find_least(&prices)])
    }
}

} // verus!
