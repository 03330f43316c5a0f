//! Replay from a checkpoint: what a checkpoint and the rest of a log make up is
//! what a replay of the whole log makes up.
use crate::chains::{base_keys, filed, kept, lemma_upright_ids, upright};
use crate::event_log::{
    after, by_replay, convicted, described, lemma_replay_keys, lemma_suffix_replay_suffices,
    replayed, resumed, SocialEventLogView,
};
use crate::memory::{restored, SocialMemoryCheckpointView};
use crate::order;
use crate::protocol::{
    equivocates, evidence_key, lemma_evidence_key_names_events, EquivocationProofView,
    SocialEventKindView, SocialEventView,
};
use crate::society::{
    applied, nothing_known, registered, with_effect, with_effects, with_evidence, SocietyView,
};
use crate::table;
use crate::task_market::{self, TaskMarketEffectView};
use vstd::prelude::*;

verus! {

/// Whether two societies differ at most in the order in which agents became
/// known, and in the order of evidence and which of its forms is kept.
pub open spec fn alike(v: SocietyView, w: SocietyView) -> bool {
    &&& w == (SocietyView { agents: w.agents, equivocations: w.equivocations, ..v })
    &&& forall|did: Seq<char>| v.agents.contains(did) <==> #[trigger] w.agents.contains(did)
    &&& forall|key: (Seq<char>, Seq<char>)|
        table::holds(v.equivocations, key) <==> #[trigger] table::holds(w.equivocations, key)
}

/// Whether members are those of another list and some more.
spec fn more<A>(a: Seq<A>, b: Seq<A>, extra: Set<A>) -> bool {
    forall|x: A| #[trigger] b.contains(x) <==> a.contains(x) || extra.contains(x)
}

/// Whether keys are those of other rows and some more.
spec fn more_keys<K, V>(a: Seq<(K, V)>, b: Seq<(K, V)>, extra: Set<K>) -> bool {
    forall|k: K| #[trigger] table::holds(b, k) <==> table::holds(a, k) || extra.contains(k)
}

/// Whether a society differs from another by agents and evidence that it knows
/// besides.
spec fn extends(
    v: SocietyView,
    w: SocietyView,
    dids: Set<Seq<char>>,
    keys: Set<(Seq<char>, Seq<char>)>,
) -> bool {
    &&& w == (SocietyView { agents: w.agents, equivocations: w.equivocations, ..v })
    &&& more(v.agents, w.agents, dids)
    &&& more_keys(v.equivocations, w.equivocations, keys)
}

broadcast proof fn lemma_joined_more<A>(a: Seq<A>, b: Seq<A>, extra: Set<A>, x: A)
    requires
        more(a, b, extra),
    ensures
        #[trigger] more(table::joined(a, x), table::joined(b, x), extra),
{
    assert forall|y: A| #[trigger]
        table::joined(b, x).contains(y) <==> table::joined(a, x).contains(y) || extra.contains(y) by {
        table::lemma_joined_contains(a, x, y);
        table::lemma_joined_contains(b, x, y);
    }
}

broadcast proof fn lemma_joined_all_more<A>(a: Seq<A>, b: Seq<A>, extra: Set<A>, xs: Seq<A>)
    requires
        more(a, b, extra),
    ensures
        #[trigger] more(table::joined_all(a, xs), table::joined_all(b, xs), extra),
    decreases xs.len(),
{
    if xs.len() > 0 {
        lemma_joined_all_more(a, b, extra, xs.drop_last());
        lemma_joined_more(
            table::joined_all(a, xs.drop_last()),
            table::joined_all(b, xs.drop_last()),
            extra,
            xs.last(),
        );
    }
}

proof fn lemma_evidence_extends(
    v: SocietyView,
    w: SocietyView,
    p: EquivocationProofView,
    dids: Set<Seq<char>>,
    keys: Set<(Seq<char>, Seq<char>)>,
)
    requires
        extends(v, w, dids, keys),
    ensures
        extends(with_evidence(v, p), with_evidence(w, p), dids, keys),
{
    if equivocates(p) is Ok {
        let k = (p.author, evidence_key(p));
        lemma_joined_more(v.agents, w.agents, dids, p.author);
        let a = with_evidence(v, p).equivocations;
        let b = with_evidence(w, p).equivocations;
        assert forall|other: (Seq<char>, Seq<char>)| #[trigger]
            table::holds(b, other) <==> table::holds(a, other) || keys.contains(other) by {
            table::lemma_put_new_holds(v.equivocations, k, p, other);
            table::lemma_put_new_holds(w.equivocations, k, p, other);
        }
    }
}

#[verifier::spinoff_prover]
#[verifier::rlimit(40)]
proof fn lemma_effect_extends(
    v: SocietyView,
    w: SocietyView,
    e: TaskMarketEffectView,
    dids: Set<Seq<char>>,
    keys: Set<(Seq<char>, Seq<char>)>,
)
    requires
        extends(v, w, dids, keys),
    ensures
        extends(with_effect(v, e), with_effect(w, e), dids, keys),
{
    broadcast use lemma_joined_more;

}

proof fn lemma_effects_extend(
    v: SocietyView,
    w: SocietyView,
    effects: Seq<TaskMarketEffectView>,
    dids: Set<Seq<char>>,
    keys: Set<(Seq<char>, Seq<char>)>,
)
    requires
        extends(v, w, dids, keys),
    ensures
        extends(with_effects(v, effects), with_effects(w, effects), dids, keys),
    decreases effects.len(),
{
    if effects.len() > 0 {
        lemma_effects_extend(v, w, effects.drop_last(), dids, keys);
        lemma_effect_extends(
            with_effects(v, effects.drop_last()),
            with_effects(w, effects.drop_last()),
            effects.last(),
            dids,
            keys,
        );
    }
}

/// What a society knows besides stays known, and changes nothing else.
#[verifier::spinoff_prover]
#[verifier::rlimit(60)]
proof fn lemma_applied_extends(
    v: SocietyView,
    w: SocietyView,
    e: SocialEventView,
    dids: Set<Seq<char>>,
    keys: Set<(Seq<char>, Seq<char>)>,
)
    requires
        extends(v, w, dids, keys),
    ensures
        extends(applied(v, e), applied(w, e), dids, keys),
{
    broadcast use {lemma_joined_more, lemma_joined_all_more};

    let a = registered(v, e.author);
    let b = registered(w, e.author);
    assert(extends(a, b, dids, keys));
    match e.kind {
        SocialEventKindView::EquivocationObserved { evidence } => {
            lemma_evidence_extends(a, b, *evidence, dids, keys);
        },
        SocialEventKindView::TaskPublished { task } => {
            let change = task_market::with_task(a.market, task);
            let x = registered(a, task.publisher);
            let y = registered(b, task.publisher);
            lemma_effects_extend(
                SocietyView { market: change.0, ..x },
                SocietyView { market: change.0, ..y },
                change.1,
                dids,
                keys,
            );
        },
        SocialEventKindView::TaskOffered { offer } => {
            let change = task_market::with_offer(a.market, offer);
            let x = registered(a, offer.bidder);
            let y = registered(b, offer.bidder);
            lemma_effects_extend(
                SocietyView { market: change.0, ..x },
                SocietyView { market: change.0, ..y },
                change.1,
                dids,
                keys,
            );
        },
        SocialEventKindView::TaskAccepted { acceptance } => {
            let change = task_market::with_known_acceptance(a.market, acceptance);
            let x = registered(
                registered(a, acceptance.publisher),
                acceptance.bidder,
            );
            let y = registered(
                registered(b, acceptance.publisher),
                acceptance.bidder,
            );
            lemma_effects_extend(
                SocietyView { market: change.0, ..x },
                SocietyView { market: change.0, ..y },
                change.1,
                dids,
                keys,
            );
        },
        SocialEventKindView::TaskCompleted { result } => {
            let change = task_market::with_claim(a.market, result, e.timestamp);
            let x = registered(a, result.executor);
            let y = registered(b, result.executor);
            lemma_effects_extend(
                SocietyView { market: change.0, ..x },
                SocietyView { market: change.0, ..y },
                change.1,
                dids,
                keys,
            );
        },
        SocialEventKindView::TaskDisputed { dispute } => {
            let change = task_market::with_dispute(a.market, dispute);
            let x = registered(
                registered(a, dispute.disputer),
                dispute.target,
            );
            let y = registered(
                registered(b, dispute.disputer),
                dispute.target,
            );
            if let Some(effect) = change.1 {
                lemma_effect_extends(
                    SocietyView { market: change.0, ..x },
                    SocietyView { market: change.0, ..y },
                    effect,
                    dids,
                    keys,
                );
            }
        },
        _ => {},
    }
}

proof fn lemma_replayed_extends(
    v: SocietyView,
    w: SocietyView,
    events: Seq<SocialEventView>,
    dids: Set<Seq<char>>,
    keys: Set<(Seq<char>, Seq<char>)>,
)
    requires
        extends(v, w, dids, keys),
    ensures
        extends(replayed(v, events), replayed(w, events), dids, keys),
    decreases events.len(),
{
    if events.len() > 0 {
        lemma_replayed_extends(v, w, events.drop_last(), dids, keys);
        lemma_applied_extends(
            replayed(v, events.drop_last()),
            replayed(w, events.drop_last()),
            events.last(),
            dids,
            keys,
        );
    }
}

proof fn lemma_convicted_extends(
    v: SocietyView,
    w: SocietyView,
    proofs: Seq<EquivocationProofView>,
    dids: Set<Seq<char>>,
    keys: Set<(Seq<char>, Seq<char>)>,
)
    requires
        extends(v, w, dids, keys),
    ensures
        extends(convicted(v, proofs), convicted(w, proofs), dids, keys),
    decreases proofs.len(),
{
    if proofs.len() > 0 {
        lemma_convicted_extends(v, w, proofs.drop_last(), dids, keys);
        lemma_evidence_extends(
            convicted(v, proofs.drop_last()),
            convicted(w, proofs.drop_last()),
            proofs.last(),
            dids,
            keys,
        );
    }
}

/// Those whom evidence convicts.
spec fn convicts(proofs: Seq<EquivocationProofView>) -> Set<Seq<char>>
    decreases proofs.len(),
{
    if proofs.len() == 0 {
        Set::empty()
    } else if equivocates(proofs.last()) is Ok {
        convicts(proofs.drop_last()).insert(proofs.last().author)
    } else {
        convicts(proofs.drop_last())
    }
}

/// The keys of evidence that holds.
spec fn proved(proofs: Seq<EquivocationProofView>) -> Set<(Seq<char>, Seq<char>)>
    decreases proofs.len(),
{
    if proofs.len() == 0 {
        Set::empty()
    } else if equivocates(proofs.last()) is Ok {
        proved(proofs.drop_last()).insert((proofs.last().author, evidence_key(proofs.last())))
    } else {
        proved(proofs.drop_last())
    }
}

#[verifier::spinoff_prover]
#[verifier::rlimit(40)]
proof fn lemma_convicted(v: SocietyView, proofs: Seq<EquivocationProofView>)
    ensures
        extends(v, convicted(v, proofs), convicts(proofs), proved(proofs)),
    decreases proofs.len(),
{
    if proofs.len() > 0 {
        let front = proofs.drop_last();
        let p = proofs.last();
        let w = convicted(v, front);
        let next = with_evidence(w, p);
        lemma_convicted(v, front);
        assert forall|did: Seq<char>| #[trigger]
            next.agents.contains(did) <==> v.agents.contains(did) || convicts(proofs).contains(
                did,
            ) by {
            table::lemma_joined_contains(w.agents, p.author, did);
        }
        assert forall|key: (Seq<char>, Seq<char>)| #[trigger]
            table::holds(next.equivocations, key) <==> table::holds(v.equivocations, key)
                || proved(proofs).contains(key) by {
            table::lemma_put_new_holds(w.equivocations, (p.author, evidence_key(p)), p, key);
        }
    }
}

proof fn lemma_convicted_concat(
    s: SocietyView,
    a: Seq<EquivocationProofView>,
    b: Seq<EquivocationProofView>,
)
    ensures
        convicted(s, a + b) == convicted(convicted(s, a), b),
    decreases b.len(),
{
    if b.len() == 0 {
        assert(a + b =~= a);
    } else {
        assert((a + b).drop_last() =~= a + b.drop_last());
        assert((a + b).last() == b.last());
        lemma_convicted_concat(s, a, b.drop_last());
    }
}

/// Evidence that is taken before events, rather than after them, leads to a
/// society alike.
pub proof fn lemma_evidence_may_come_first(
    s: SocietyView,
    proofs: Seq<EquivocationProofView>,
    events: Seq<SocialEventView>,
    later: Seq<EquivocationProofView>,
)
    ensures
        alike(
            convicted(replayed(convicted(s, proofs), events), later),
            convicted(replayed(s, events), proofs + later),
        ),
{
    let dids = convicts(proofs);
    let keys = proved(proofs);
    let x = replayed(convicted(s, proofs), events);
    let y = convicted(replayed(s, events), proofs);
    lemma_convicted(s, proofs);
    lemma_replayed_extends(s, convicted(s, proofs), events, dids, keys);
    lemma_convicted(replayed(s, events), proofs);
    assert(extends(x, y, Set::empty(), Set::empty()));
    lemma_convicted_extends(x, y, later, Set::empty(), Set::empty());
    lemma_convicted_concat(replayed(s, events), proofs, later);
}

/// A checkpoint of the beginning of a log leads to a society like that of a
/// replay of the whole log.
#[verifier::spinoff_prover]
#[verifier::rlimit(40)]
pub proof fn lemma_checkpoint_stands_for_replay(
    v: SocialEventLogView,
    c: SocialMemoryCheckpointView,
)
    requires
        restored(v, c) is Some,
        c.society == described(
            SocialEventLogView {
                events: v.events.subrange(0, c.replayed_events as int),
                equivocation_proofs: v.equivocation_proofs.subrange(
                    0,
                    c.replayed_equivocation_proofs as int,
                ),
                ..v
            },
            nothing_known(),
        ),
    ensures
        restored(v, c) matches Some(s) && alike(s, described(v, nothing_known())),
{
    let base = match v.compacted_base {
        Some(base) => base.society,
        None => nothing_known(),
    };
    let n = c.replayed_events as int;
    let m = c.replayed_equivocation_proofs as int;
    let first_events = v.events.subrange(0, n);
    let first_proofs = v.equivocation_proofs.subrange(0, m);
    let later = after(v.equivocation_proofs, m);
    let suffix = order::sort_by_key(after(v.events, n), by_replay());
    let start = replayed(base, order::sort_by_key(first_events, by_replay()));
    assert(after(first_events, 0) =~= first_events);
    assert(after(first_proofs, 0) =~= first_proofs);
    assert(after(v.equivocation_proofs, 0) =~= v.equivocation_proofs);
    assert(c.society == convicted(start, first_proofs));
    lemma_evidence_may_come_first(start, first_proofs, suffix, later);
    assert(first_proofs + later =~= v.equivocation_proofs);
    lemma_suffix_replay_suffices(v, base, n);
    let first = SocialEventLogView {
        events: first_events,
        equivocation_proofs: Seq::empty(),
        ..v
    };
    assert(after(first.equivocation_proofs, 0) =~= Seq::<EquivocationProofView>::empty());
    assert(resumed(first, base, 0, 0) == start);
    assert(resumed(v, start, n, 0) == convicted(replayed(start, suffix), v.equivocation_proofs));
}

/// Replay applies every event of a log once, in ascending order of position,
/// identifier and author, and then every piece of evidence.
pub proof fn lemma_replay_is_in_order(v: SocialEventLogView, s: SocietyView)
    requires
        v.compacted_base is None,
    ensures
        ({
            let calls = order::sort_by_key(v.events, by_replay());
            &&& described(v, s) == convicted(replayed(s, calls), v.equivocation_proofs)
            &&& order::keys_ascend(calls, by_replay())
            &&& calls.to_multiset() == v.events.to_multiset()
            &&& calls.len() == v.events.len()
        }),
{
    order::lemma_sort_by_key(v.events, by_replay());
    assert(after(v.events, 0) =~= v.events);
    assert(after(v.equivocation_proofs, 0) =~= v.equivocation_proofs);
}

/// Logs that hold the same events replay them in one order, whatever the order
/// and the times of arrival.
pub proof fn lemma_replay_order_is_unique(x: SocialEventLogView, y: SocialEventLogView)
    requires
        upright(x),
        x.events.to_multiset() == y.events.to_multiset(),
    ensures
        order::sort_by_key(x.events, by_replay()) == order::sort_by_key(y.events, by_replay()),
{
    lemma_upright_ids(x);
    lemma_replay_keys(x.events);
    order::lemma_sort_permuted(x.events, y.events, by_replay());
}

proof fn lemma_convicts(proofs: Seq<EquivocationProofView>, i: int)
    requires
        0 <= i < proofs.len(),
        equivocates(proofs[i]) is Ok,
    ensures
        convicts(proofs).contains(proofs[i].author),
        proved(proofs).contains((proofs[i].author, evidence_key(proofs[i]))),
    decreases proofs.len(),
{
    if i < proofs.len() - 1 {
        assert(proofs.drop_last()[i] == proofs[i]);
        lemma_convicts(proofs.drop_last(), i);
    }
}

proof fn lemma_convicts_from(
    proofs: Seq<EquivocationProofView>,
    did: Seq<char>,
    key: (Seq<char>, Seq<char>),
)
    ensures
        convicts(proofs).contains(did) ==> exists|i: int|
            0 <= i < proofs.len() && (#[trigger] proofs[i]).author == did,
        proved(proofs).contains(key) ==> exists|i: int|
            0 <= i < proofs.len() && ((#[trigger] proofs[i]).author, evidence_key(proofs[i])) == key,
    decreases proofs.len(),
{
    if proofs.len() > 0 {
        let front = proofs.drop_last();
        lemma_convicts_from(front, did, key);
        let last = proofs.len() - 1;
        if convicts(front).contains(did) {
            let i = choose|i: int| 0 <= i < front.len() && (#[trigger] front[i]).author == did;
            assert(proofs[i].author == did);
        } else if convicts(proofs).contains(did) {
            assert(proofs[last].author == did);
        }
        if proved(front).contains(key) {
            let i = choose|i: int|
                0 <= i < front.len() && ((#[trigger] front[i]).author, evidence_key(front[i])) == key;
            assert((proofs[i].author, evidence_key(proofs[i])) == key);
        } else if proved(proofs).contains(key) {
            assert((proofs[last].author, evidence_key(proofs[last])) == key);
        }
    }
}

/// What evidence of one log shows, evidence of another log shows that knows the
/// same evidence.
#[verifier::spinoff_prover]
#[verifier::rlimit(40)]
proof fn lemma_evidence_shared(x: SocialEventLogView, y: SocialEventLogView, i: int)
    requires
        filed(x),
        filed(y),
        base_keys(x) == base_keys(y),
        forall|key: Seq<char>| #[trigger]
            x.equivocation_index.contains(key) ==> y.equivocation_index.contains(key),
        0 <= i < x.equivocation_proofs.len(),
    ensures
        convicts(y.equivocation_proofs).contains(x.equivocation_proofs[i].author),
        proved(y.equivocation_proofs).contains(
            (x.equivocation_proofs[i].author, evidence_key(x.equivocation_proofs[i])),
        ),
{
    let p = x.equivocation_proofs[i];
    let key = evidence_key(p);
    assert(kept(x.equivocation_proofs, key));
    assert(x.equivocation_index.contains(key));
    assert(!base_keys(x).contains(key));
    assert(kept(y.equivocation_proofs, key));
    let j = choose|j: int|
        0 <= j < y.equivocation_proofs.len() && evidence_key(#[trigger] y.equivocation_proofs[j])
            == key;
    assert(equivocates(p) is Ok);
    assert(equivocates(y.equivocation_proofs[j]) is Ok);
    lemma_evidence_key_names_events(p, y.equivocation_proofs[j]);
    lemma_convicts(y.equivocation_proofs, j);
}

/// Logs that hold the same events and know the same evidence, both in whatever
/// order they arrived, describe societies alike.
#[verifier::spinoff_prover]
#[verifier::rlimit(40)]
pub proof fn lemma_logs_converge_alike(
    x: SocialEventLogView,
    y: SocialEventLogView,
    s: SocietyView,
)
    requires
        upright(x),
        upright(y),
        x.compacted_base == y.compacted_base,
        x.events.to_multiset() == y.events.to_multiset(),
        forall|key: Seq<char>|
            x.equivocation_index.contains(key) <==> #[trigger] y.equivocation_index.contains(key),
    ensures
        alike(described(x, s), described(y, s)),
{
    reveal(upright);
    lemma_replay_order_is_unique(x, y);
    let start = match x.compacted_base {
        Some(base) => base.society,
        None => s,
    };
    let px = x.equivocation_proofs;
    let py = y.equivocation_proofs;
    let r = replayed(start, order::sort_by_key(x.events, by_replay()));
    assert(after(x.events, 0) =~= x.events);
    assert(after(y.events, 0) =~= y.events);
    assert(after(px, 0) =~= px);
    assert(after(py, 0) =~= py);
    lemma_convicted(r, px);
    lemma_convicted(r, py);
    assert forall|did: Seq<char>| convicts(px).contains(did) <==> convicts(py).contains(did) by {
        lemma_convicts_from(px, did, (did, did));
        lemma_convicts_from(py, did, (did, did));
        if convicts(px).contains(did) {
            let i = choose|i: int| 0 <= i < px.len() && (#[trigger] px[i]).author == did;
            lemma_evidence_shared(x, y, i);
        }
        if convicts(py).contains(did) {
            let i = choose|i: int| 0 <= i < py.len() && (#[trigger] py[i]).author == did;
            lemma_evidence_shared(y, x, i);
        }
    }
    assert forall|key: (Seq<char>, Seq<char>)| proved(px).contains(key) <==> proved(py).contains(
        key,
    ) by {
        lemma_convicts_from(px, key.0, key);
        lemma_convicts_from(py, key.0, key);
        if proved(px).contains(key) {
            let i = choose|i: int|
                0 <= i < px.len() && ((#[trigger] px[i]).author, evidence_key(px[i])) == key;
            lemma_evidence_shared(x, y, i);
        }
        if proved(py).contains(key) {
            let i = choose|i: int|
                0 <= i < py.len() && ((#[trigger] py[i]).author, evidence_key(py[i])) == key;
            lemma_evidence_shared(y, x, i);
        }
    }
    assert(convicts(px) =~= convicts(py));
    assert(proved(px) =~= proved(py));
}

} // verus!
