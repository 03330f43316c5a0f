//! Delivery in any order: however the events of whole chains reach a log, it
//! ends with all of them, and with one society.
use crate::chains::{clash, clear, lemma_clear_without, skipping};
use crate::event_log::{
    accepted, all_appended, appended, chained, continues, dated, described, drained, empty_log,
    heads_after, identified_by, ids_distinct, lemma_logs_converge, linked, may_act, next_seq,
    placed_at, ready, received, sound, succeeded, swept, ChainHeadView, SocialEventLogView,
};
use crate::facts::{IdentityRecoveryApprovalView, IdentityRecoveryPolicyView, IdentityRotationView};
use crate::order;
use crate::protocol::{event_valid, SocialEventKindView, SocialEventView, SocialProtocolErrorView};
use crate::recovery::{
    approval_key, approved_rotations, by_approval, by_rotation, counted, named, tidy, votes_for,
    with_approval, with_policy, with_recovery, with_rotation, SuccessionView,
};
use crate::society::SocietyView;
use crate::table;
use vstd::multiset::Multiset;
use vstd::prelude::*;

verus! {

/// Whether an event comes directly before another in a chain.
pub open spec fn precedes(a: SocialEventView, b: SocialEventView) -> bool {
    a.author == b.author && a.seq + 1 == b.seq && b.prev == Some(a.id)
}

/// Whether an event starts a chain or follows another of the events.
pub open spec fn rooted(events: Seq<SocialEventView>, e: SocialEventView) -> bool {
    if e.seq == 0 {
        e.prev is None
    } else {
        exists|j: int| 0 <= j < events.len() && precedes(#[trigger] events[j], e)
    }
}

/// Whether an event hands an identity over.
pub open spec fn rotates(e: SocialEventView, did: Seq<char>) -> bool {
    e.kind matches SocialEventKindView::IdentityRotated { rotation } && rotation.previous == did
}

/// Whether an event names the guardians of an identity.
pub open spec fn protects(e: SocialEventView, did: Seq<char>) -> bool {
    e.kind matches SocialEventKindView::IdentityRecoveryPolicy { policy } && policy.identity == did
}

/// Whether an event is a guardian's word on an identity.
pub open spec fn speaks_of(e: SocialEventView, did: Seq<char>) -> bool {
    e.kind matches SocialEventKindView::IdentityRecoveryApproved { approval } && approval.identity
        == did
}

/// Whether an identity that is handed over signs nothing afterwards, and
/// guardians do not speak of an identity that they could recover.
#[verifier::opaque]
pub open spec fn orderly(events: Seq<SocialEventView>) -> bool {
    &&& forall|i: int, j: int|
        0 <= i < events.len() && 0 <= j < events.len() && rotates(
            #[trigger] events[i],
            (#[trigger] events[j]).author,
        ) ==> events[j].seq <= events[i].seq
    &&& forall|i: int, j: int, did: Seq<char>|
        0 <= i < events.len() && 0 <= j < events.len() && #[trigger] protects(events[i], did)
            ==> !#[trigger] speaks_of(events[j], did)
}

/// Whether events make up chains without gap and without fork, in which
/// identities are handed over in order.
pub open spec fn whole(events: Seq<SocialEventView>) -> bool {
    &&& forall|i: int|
        0 <= i < events.len() ==> {
            &&& event_valid(#[trigger] events[i]) is Ok
            &&& rooted(events, events[i])
        }
    &&& forall|i: int, j: int|
        0 <= i < j < events.len() ==> !clash(#[trigger] events[i], #[trigger] events[j])
    &&& orderly(events)
}

/// The events of arrivals.
pub open spec fn arrived(items: Seq<(SocialEventView, u64)>) -> Seq<SocialEventView> {
    Seq::new(items.len(), |i: int| items[i].0)
}

/// Whether no arrival is dated too far ahead.
pub open spec fn timely(items: Seq<(SocialEventView, u64)>) -> bool {
    forall|i: int| 0 <= i < items.len() ==> dated((#[trigger] items[i]).0, items[i].1) is Ok
}

/// Whether events are among others.
spec fn among(s: Seq<SocialEventView>, all: Seq<SocialEventView>) -> bool {
    forall|i: int| 0 <= i < s.len() ==> all.contains(#[trigger] s[i])
}

/// Whether an event hands an identity over.
spec fn rotated_in(events: Seq<SocialEventView>, did: Seq<char>) -> bool {
    exists|k: int| 0 <= k < events.len() && rotates(#[trigger] events[k], did)
}

/// Whether an event names the guardians of an identity.
spec fn protected_in(events: Seq<SocialEventView>, did: Seq<char>) -> bool {
    exists|k: int| 0 <= k < events.len() && protects(#[trigger] events[k], did)
}

/// Whether an event is a guardian's word on an identity.
spec fn spoken_of_in(events: Seq<SocialEventView>, did: Seq<char>) -> bool {
    exists|k: int| 0 <= k < events.len() && speaks_of(#[trigger] events[k], did)
}

/// Whether all that is known of the succession comes from events.
#[verifier::opaque]
spec fn informed(s: SuccessionView, events: Seq<SocialEventView>) -> bool {
    &&& forall|did: Seq<char>| #[trigger]
        table::holds(s.rotations, did) ==> rotated_in(events, did)
    &&& forall|did: Seq<char>| #[trigger]
        table::holds(s.policies, did) ==> protected_in(events, did)
    &&& forall|r: int|
        0 <= r < s.approvals.len() ==> spoken_of_in(events, (#[trigger] s.approvals[r]).1.identity)
}

/// What holds of a log that took some events of whole chains.
spec fn undisturbed(v: SocialEventLogView, all: Seq<SocialEventView>) -> bool {
    &&& sound(v)
    &&& chained(v)
    &&& clear(v)
    &&& among(v.events, all)
    &&& among(v.pending, all)
    &&& informed(v.succession, v.events)
    &&& v.compacted_base is None
    &&& v.equivocation_proofs == empty_log().equivocation_proofs
    &&& v.equivocation_index == empty_log().equivocation_index
}

/// Whether no waiting event of the authors in question continues a chain.
spec fn idle(v: SocialEventLogView, busy: Option<Seq<char>>) -> bool {
    forall|k: int|
        0 <= k < v.pending.len() && Some((#[trigger] v.pending[k]).author) != busy ==> continues(
            v.heads,
            v.pending[k],
        ) == Ok::<bool, SocialProtocolErrorView>(false)
}

proof fn lemma_swept_clear(v: SocialEventLogView, e: SocialEventView, n: int)
    requires
        0 <= n <= v.pending.len(),
        v.pending.len() == v.pending_observed_at.len(),
        forall|k: int| 0 <= k < v.pending.len() ==> !clash(#[trigger] v.pending[k], e),
    ensures
        swept(v, e, n) == (SocialEventLogView {
            pending: v.pending.subrange(0, n),
            pending_observed_at: v.pending_observed_at.subrange(0, n),
            ..v
        }),
    decreases n,
{
    if n > 0 {
        lemma_swept_clear(v, e, n - 1);
        assert(!clash(v.pending[n - 1], e));
        assert(v.pending.subrange(0, n) =~= v.pending.subrange(0, n - 1).push(v.pending[n - 1]));
        assert(v.pending_observed_at.subrange(0, n) =~= v.pending_observed_at.subrange(
            0,
            n - 1,
        ).push(v.pending_observed_at[n - 1]));
    } else {
        assert(v.pending.subrange(0, 0) =~= Seq::empty());
        assert(v.pending_observed_at.subrange(0, 0) =~= Seq::empty());
    }
}

/// Where no guardian spoke of an identity, nothing is recovered.
proof fn lemma_no_recovery(s: SuccessionView, did: Seq<char>)
    requires
        table::holds(s.policies, did) ==> forall|r: int|
            0 <= r < s.approvals.len() ==> (#[trigger] s.approvals[r]).1.identity != did,
    ensures
        with_recovery(s, did) == s,
{
    if table::holds(s.policies, did) {
        let keep = counted(table::at(s.policies, did), did);
        let all = table::values(s.approvals);
        assert forall|r: int| 0 <= r < all.len() implies !keep(#[trigger] all[r]) by {
            assert(all[r] == s.approvals[r].1);
        }
        lemma_none_kept(all, keep);
        order::lemma_sort_by_key(all.filter(keep), by_approval());
        assert(all.filter(keep).to_multiset().len() == 0) by {
            broadcast use vstd::seq_lib::group_to_multiset_ensures;

        }
        let votes = votes_for(s, did);
        assert(votes.len() == 0) by {
            broadcast use vstd::seq_lib::group_to_multiset_ensures;

            assert(votes.to_multiset().len() == votes.len());
        }
        let found = approved_rotations(did, votes, table::at(s.policies, did).threshold, named(votes));
        assert(found.len() == 0);
        order::lemma_sort_by_key(found, by_rotation());
        assert(order::sort_by_key(found, by_rotation()).len() == 0) by {
            broadcast use vstd::seq_lib::group_to_multiset_ensures;

            let sorted = order::sort_by_key(found, by_rotation());
            assert(sorted.to_multiset().len() == sorted.len());
        }
    }
}

proof fn lemma_none_kept<A>(s: Seq<A>, keep: spec_fn(A) -> bool)
    requires
        forall|i: int| 0 <= i < s.len() ==> !keep(#[trigger] s[i]),
    ensures
        s.filter(keep).len() == 0,
    decreases s.len(),
{
    reveal(Seq::filter);
    if s.len() > 0 {
        assert(!keep(s[s.len() - 1]));
        lemma_none_kept(s.drop_last(), keep);
    }
}

proof fn lemma_informed_later(s: SuccessionView, events: Seq<SocialEventView>, e: SocialEventView)
    requires
        informed(s, events),
    ensures
        informed(s, events.push(e)),
{
    reveal(informed);
    let more = events.push(e);
    assert forall|did: Seq<char>| #[trigger] table::holds(s.rotations, did) implies rotated_in(
        more,
        did,
    ) by {
        assert(rotated_in(events, did));
        let k = choose|k: int| 0 <= k < events.len() && rotates(#[trigger] events[k], did);
        assert(rotates(more[k], did));
    }
    assert forall|did: Seq<char>| #[trigger] table::holds(s.policies, did) implies protected_in(
        more,
        did,
    ) by {
        assert(protected_in(events, did));
        let k = choose|k: int| 0 <= k < events.len() && protects(#[trigger] events[k], did);
        assert(protects(more[k], did));
    }
    assert forall|r: int| 0 <= r < s.approvals.len() implies spoken_of_in(
        more,
        (#[trigger] s.approvals[r]).1.identity,
    ) by {
        let did = s.approvals[r].1.identity;
        assert(spoken_of_in(events, did));
        let k = choose|k: int| 0 <= k < events.len() && speaks_of(#[trigger] events[k], did);
        assert(speaks_of(more[k], did));
    }
}

proof fn lemma_informed_of_rotation(
    s: SuccessionView,
    events: Seq<SocialEventView>,
    r: IdentityRotationView,
)
    requires
        informed(s, events),
        rotated_in(events, r.previous),
    ensures
        informed(with_rotation(s, r), events),
{
    reveal(informed);
    assert forall|did: Seq<char>| #[trigger]
        table::holds(with_rotation(s, r).rotations, did) implies rotated_in(events, did) by {
        table::lemma_put_holds(s.rotations, r.previous, r.next, did);
    }
}

#[verifier::spinoff_prover]
#[verifier::rlimit(40)]
proof fn lemma_informed_of_policy(
    s: SuccessionView,
    events: Seq<SocialEventView>,
    author: Seq<char>,
    policy: IdentityRecoveryPolicyView,
    all: Seq<SocialEventView>,
)
    requires
        whole(all),
        among(events, all),
        informed(s, events),
        protected_in(events, policy.identity),
    ensures
        informed(with_policy(s, author, policy), events),
{
    reveal(informed);
    let p = tidy(policy);
    let policies = match table::find(s.policies, p.identity) {
        Some(known) if p.updated_at < known.updated_at => s.policies,
        _ => table::put(s.policies, p.identity, p),
    };
    let next = SuccessionView { policies, ..s };
    assert forall|did: Seq<char>| #[trigger] table::holds(next.policies, did) implies protected_in(
        events,
        did,
    ) by {
        if !table::holds(s.policies, did) {
            table::lemma_put_holds(s.policies, p.identity, p, did);
        }
    }
    assert(informed(next, events));
    lemma_nothing_recovered(next, events, author, all);
}

#[verifier::spinoff_prover]
#[verifier::rlimit(40)]
proof fn lemma_informed_of_approval(
    s: SuccessionView,
    events: Seq<SocialEventView>,
    a: IdentityRecoveryApprovalView,
    all: Seq<SocialEventView>,
)
    requires
        whole(all),
        among(events, all),
        informed(s, events),
        spoken_of_in(events, a.identity),
    ensures
        informed(with_approval(s, a), events),
{
    reveal(informed);
    let approvals = match table::find(s.approvals, approval_key(a)) {
        Some(known) if a.approved_at < known.approved_at => s.approvals,
        _ => table::put(s.approvals, approval_key(a), a),
    };
    let next = SuccessionView { approvals, ..s };
    assert forall|r: int| 0 <= r < next.approvals.len() implies spoken_of_in(
        events,
        (#[trigger] next.approvals[r]).1.identity,
    ) by {
        if r < s.approvals.len() {
            assert(spoken_of_in(events, s.approvals[r].1.identity));
        }
    }
    assert(informed(next, events));
    lemma_nothing_recovered(next, events, a.identity, all);
}

proof fn lemma_nothing_recovered(
    s: SuccessionView,
    events: Seq<SocialEventView>,
    did: Seq<char>,
    all: Seq<SocialEventView>,
)
    requires
        whole(all),
        among(events, all),
        informed(s, events),
    ensures
        with_recovery(s, did) == s,
{
    reveal(informed);
    if table::holds(s.policies, did) {
        assert(protected_in(events, did));
        lemma_unguarded(events, did, all);
        assert forall|r: int| 0 <= r < s.approvals.len() implies (
        #[trigger] s.approvals[r]).1.identity != did by {
            assert(spoken_of_in(events, s.approvals[r].1.identity));
        }
    }
    lemma_no_recovery(s, did);
}

/// What is known of the succession after an event comes from events.
proof fn lemma_informed(
    s: SuccessionView,
    events: Seq<SocialEventView>,
    e: SocialEventView,
    all: Seq<SocialEventView>,
)
    requires
        whole(all),
        among(events, all),
        all.contains(e),
        informed(s, events),
    ensures
        informed(succeeded(s, e), events.push(e)),
{
    let more = events.push(e);
    let last = events.len() as int;
    assert(more[last] == e);
    lemma_informed_later(s, events, e);
    assert(among(more, all));
    match e.kind {
        SocialEventKindView::IdentityRotated { rotation } => {
            assert(rotates(more[last], rotation.previous));
            lemma_informed_of_rotation(s, more, rotation);
        },
        SocialEventKindView::IdentityRecoveryPolicy { policy } => {
            assert(protects(more[last], policy.identity));
            lemma_informed_of_policy(s, more, e.author, policy, all);
        },
        SocialEventKindView::IdentityRecoveryApproved { approval } => {
            assert(speaks_of(more[last], approval.identity));
            lemma_informed_of_approval(s, more, approval, all);
        },
        _ => {},
    }
}

proof fn lemma_unguarded(events: Seq<SocialEventView>, did: Seq<char>, all: Seq<SocialEventView>)
    requires
        whole(all),
        among(events, all),
        protected_in(events, did),
    ensures
        !spoken_of_in(events, did),
{
    reveal(orderly);
    let k = choose|k: int| 0 <= k < events.len() && protects(#[trigger] events[k], did);
    assert(all.contains(events[k]));
    let a = all.index_of(events[k]);
    assert(protects(all[a], did));
    if spoken_of_in(events, did) {
        let m = choose|m: int| 0 <= m < events.len() && speaks_of(#[trigger] events[m], did);
        assert(all.contains(events[m]));
        let b = all.index_of(events[m]);
        assert(speaks_of(all[b], did));
    }
}

/// The author of an event that is missing from a log may still act.
#[verifier::spinoff_prover]
#[verifier::rlimit(40)]
proof fn lemma_may_act(v: SocialEventLogView, e: SocialEventView, all: Seq<SocialEventView>)
    requires
        whole(all),
        undisturbed(v, all),
        all.contains(e),
        forall|k: int| 0 <= k < v.events.len() ==> !clash(#[trigger] v.events[k], e),
    ensures
        may_act(v, e.author) is Ok,
{
    reveal(informed);
    reveal(orderly);
    if table::holds(v.succession.rotations, e.author) {
        assert(rotated_in(v.events, e.author));
        let k = choose|k: int| 0 <= k < v.events.len() && rotates(#[trigger] v.events[k], e.author);
        let r = v.events[k];
        assert(event_valid(r) is Ok);
        assert(r.author == e.author);
        assert(all.contains(r));
        let i = all.index_of(r);
        let j = all.index_of(e);
        assert(rotates(all[i], all[j].author));
        assert(e.seq <= r.seq);
        lemma_chain_complete(v.events, e.author);
        assert(present(v.events, e.author, e.seq));
        let t = choose|t: int|
            0 <= t < v.events.len() && placed_at(e.author, e.seq)(#[trigger] v.events[t]);
        assert(clash(v.events[t], e));
    }
}

/// An event that clashes with nothing is accepted without further effect.
#[verifier::spinoff_prover]
#[verifier::rlimit(40)]
proof fn lemma_accepted_clear(
    v: SocialEventLogView,
    e: SocialEventView,
    at: u64,
    all: Seq<SocialEventView>,
)
    requires
        whole(all),
        undisturbed(v, all),
        all.contains(e),
        continues(v.heads, e) == Ok::<bool, SocialProtocolErrorView>(true),
        forall|k: int| 0 <= k < v.events.len() ==> !clash(#[trigger] v.events[k], e),
        forall|k: int| 0 <= k < v.pending.len() ==> !clash(#[trigger] v.pending[k], e),
    ensures
        accepted(v, e, at) == (SocialEventLogView {
            heads: table::put(v.heads, e.author, ChainHeadView { seq: e.seq, id: e.id }),
            succession: succeeded(v.succession, e),
            events: v.events.push(e),
            observed_at: v.observed_at.push(at),
            ..v
        }),
        undisturbed(accepted(v, e, at), all),
{
    let known = SocialEventLogView {
        heads: table::put(v.heads, e.author, ChainHeadView { seq: e.seq, id: e.id }),
        succession: succeeded(v.succession, e),
        ..v
    };
    lemma_swept_clear(known, e, v.pending.len() as int);
    assert(v.pending.subrange(0, v.pending.len() as int) =~= v.pending);
    assert(v.pending_observed_at.subrange(0, v.pending.len() as int) =~= v.pending_observed_at);
    let r = accepted(v, e, at);
    assert(r.events.drop_last() =~= v.events);
    assert(event_valid(all[all.index_of(e)]) is Ok);
    assert forall|i: int| 0 <= i < r.events.len() implies all.contains(#[trigger] r.events[i])
        && event_valid(r.events[i]) is Ok by {
        if i < v.events.len() {
            assert(r.events[i] == v.events[i]);
        }
    }
    lemma_informed(v.succession, v.events, e, all);
    assert forall|i: int, j: int| 0 <= i < j < r.events.len() implies !clash(
        #[trigger] r.events[i],
        #[trigger] r.events[j],
    ) by {
        assert(r.events[i] == v.events[i]);
        if j < v.events.len() {
            assert(r.events[j] == v.events[j]);
        }
    }
    assert forall|i: int, j: int|
        0 <= i < r.events.len() && 0 <= j < r.pending.len() implies !clash(
        #[trigger] r.events[i],
        #[trigger] r.pending[j],
    ) by {
        if i < v.events.len() {
            assert(r.events[i] == v.events[i]);
        }
        assert(!clash(v.pending[j], e));
    }
}

proof fn lemma_heads_distinct(heads: Seq<(Seq<char>, ChainHeadView)>, events: Seq<SocialEventView>)
    requires
        table::distinct(heads),
    ensures
        table::distinct(heads_after(heads, events)),
    decreases events.len(),
{
    if events.len() > 0 {
        let e = events.last();
        lemma_heads_distinct(heads, events.drop_last());
        table::lemma_put_distinct(
            heads_after(heads, events.drop_last()),
            e.author,
            ChainHeadView { seq: e.seq, id: e.id },
        );
    }
}

/// An accepted event concerns the waiting events of its author alone.
#[verifier::spinoff_prover]
#[verifier::rlimit(40)]
proof fn lemma_others_stay_idle(
    v: SocialEventLogView,
    e: SocialEventView,
    at: u64,
    all: Seq<SocialEventView>,
)
    requires
        undisturbed(v, all),
        undisturbed(accepted(v, e, at), all),
        idle(v, Some(e.author)),
        accepted(v, e, at).pending == v.pending,
        accepted(v, e, at).heads == table::put(
            v.heads,
            e.author,
            ChainHeadView { seq: e.seq, id: e.id },
        ),
    ensures
        idle(accepted(v, e, at), Some(e.author)),
{
    lemma_heads_distinct(Seq::empty(), v.events);
    let r = accepted(v, e, at);
    assert forall|k: int|
        0 <= k < r.pending.len() && Some((#[trigger] r.pending[k]).author) != Some(e.author) implies continues(
        r.heads,
        r.pending[k],
    ) == Ok::<bool, SocialProtocolErrorView>(false) by {
        assert(r.pending[k] == v.pending[k]);
        table::lemma_put_find(
            v.heads,
            e.author,
            ChainHeadView { seq: e.seq, id: e.id },
            v.pending[k].author,
        );
    }
}

/// A log without one of its waiting events.
spec fn without_pending(v: SocialEventLogView, i: int) -> SocialEventLogView {
    SocialEventLogView {
        pending: v.pending.remove(i),
        pending_observed_at: v.pending_observed_at.remove(i),
        ..v
    }
}

#[verifier::spinoff_prover]
#[verifier::rlimit(40)]
proof fn lemma_taken(v: SocialEventLogView, i: int, all: Seq<SocialEventView>)
    requires
        undisturbed(v, all),
        0 <= i < v.pending.len(),
    ensures
        undisturbed(without_pending(v, i), all),
        forall|k: int| 0 <= k < v.events.len() ==> !clash(#[trigger] v.events[k], v.pending[i]),
        forall|k: int|
            0 <= k < without_pending(v, i).pending.len() ==> !clash(
                #[trigger] without_pending(v, i).pending[k],
                v.pending[i],
            ),
{
    let left = without_pending(v, i).pending;
    lemma_clear_without(v, i);
    assert forall|k: int| 0 <= k < left.len() implies event_valid(#[trigger] left[k]) is Ok
        && all.contains(left[k]) by {
        assert(left[k] == v.pending[skipping(i, k)]);
    }
    assert(sound(without_pending(v, i)));
    assert(among(left, all));
}

/// All events of a log, waiting ones among them.
spec fn contents(v: SocialEventLogView) -> Multiset<SocialEventView> {
    v.events.to_multiset().add(v.pending.to_multiset())
}

/// A waiting event that is ready is accepted, and nothing is lost.
#[verifier::spinoff_prover]
#[verifier::rlimit(40)]
proof fn lemma_drain_step(
    v: SocialEventLogView,
    author: Seq<char>,
    i: int,
    all: Seq<SocialEventView>,
)
    requires
        whole(all),
        undisturbed(v, all),
        idle(v, Some(author)),
        0 <= i < v.pending.len(),
        ready(v.heads, author)(v.pending[i]),
    ensures
        ({
            let left = without_pending(v, i);
            let next = accepted(left, v.pending[i], v.pending_observed_at[i]);
            &&& may_act(left, author) is Ok
            &&& undisturbed(next, all)
            &&& idle(next, Some(author))
            &&& next.pending.len() == v.pending.len() - 1
            &&& contents(next) == contents(v)
        }),
{
    let e = v.pending[i];
    let left = without_pending(v, i);
    let at = v.pending_observed_at[i];
    lemma_taken(v, i, all);
    assert(all.contains(v.pending[i]));
    lemma_may_act(left, e, all);
    lemma_accepted_clear(left, e, at, all);
    assert(idle(left, Some(author))) by {
        assert forall|k: int|
            0 <= k < left.pending.len() && Some((#[trigger] left.pending[k]).author) != Some(
                author,
            ) implies continues(left.heads, left.pending[k]) == Ok::<bool, SocialProtocolErrorView>(
            false,
        ) by {
            assert(left.pending[k] == v.pending[skipping(i, k)]);
        }
    }
    lemma_others_stay_idle(left, e, at, all);
    let next = accepted(left, e, at);
    assert(contents(next) =~= contents(v)) by {
        broadcast use vstd::seq_lib::group_to_multiset_ensures;

        vstd::seq_lib::to_multiset_remove(v.pending, i);
    }
}

/// Draining leaves nothing of the author ready, and loses nothing.
#[verifier::spinoff_prover]
#[verifier::rlimit(40)]
proof fn lemma_drained_clear(
    v: SocialEventLogView,
    author: Seq<char>,
    fuel: nat,
    all: Seq<SocialEventView>,
)
    requires
        whole(all),
        undisturbed(v, all),
        idle(v, Some(author)),
        fuel >= v.pending.len(),
    ensures
        drained(v, author, fuel).0 is Ok,
        undisturbed(drained(v, author, fuel).1, all),
        idle(drained(v, author, fuel).1, None),
        contents(drained(v, author, fuel).1) == contents(v),
    decreases fuel,
{
    order::lemma_first_where(v.pending, ready(v.heads, author));
    match order::first_where(v.pending, ready(v.heads, author)) {
        None => {
            assert forall|k: int|
                0 <= k < v.pending.len() && Some((#[trigger] v.pending[k]).author) != None::<
                    Seq<char>,
                > implies continues(v.heads, v.pending[k]) == Ok::<bool, SocialProtocolErrorView>(
                false,
            ) by {
                assert(!ready(v.heads, author)(v.pending[k]));
                assert(all.contains(v.pending[k]));
                assert(rooted(all, all[all.index_of(v.pending[k])]));
            }
        },
        Some(i) => {
            lemma_drain_step(v, author, i, all);
            lemma_drained_clear(
                accepted(without_pending(v, i), v.pending[i], v.pending_observed_at[i]),
                author,
                (fuel - 1) as nat,
                all,
            );
        },
    }
}

/// An event that clashes with nothing finds its place, or waits.
#[verifier::spinoff_prover]
#[verifier::rlimit(40)]
proof fn lemma_appended_clear(
    v: SocialEventLogView,
    e: SocialEventView,
    at: u64,
    all: Seq<SocialEventView>,
)
    requires
        whole(all),
        undisturbed(v, all),
        idle(v, None),
        all.contains(e),
        dated(e, at) is Ok,
        forall|k: int| 0 <= k < v.events.len() ==> !clash(#[trigger] v.events[k], e),
        forall|k: int| 0 <= k < v.pending.len() ==> !clash(#[trigger] v.pending[k], e),
    ensures
        appended(v, e, at).0 == Ok::<bool, SocialProtocolErrorView>(true),
        undisturbed(appended(v, e, at).1, all),
        idle(appended(v, e, at).1, None),
        contents(appended(v, e, at).1) == contents(v).insert(e),
{
    broadcast use vstd::seq_lib::group_to_multiset_ensures;

    order::lemma_first_where(v.events, identified_by(e.id));
    order::lemma_first_where(v.pending, identified_by(e.id));
    order::lemma_first_where(v.events, placed_at(e.author, e.seq));
    order::lemma_first_where(v.pending, placed_at(e.author, e.seq));
    assert(event_valid(all[all.index_of(e)]) is Ok && rooted(all, all[all.index_of(e)]));
    assert(appended(v, e, at) == received(v, e, at));
    lemma_may_act(v, e, all);
    if continues(v.heads, e) == Ok::<bool, SocialProtocolErrorView>(true) {
        lemma_accepted_clear(v, e, at, all);
        lemma_others_stay_idle(v, e, at, all);
        let next = accepted(v, e, at);
        assert(contents(next) =~= contents(v).insert(e));
        lemma_drained_clear(next, e.author, next.pending.len(), all);
    } else {
        let r = appended(v, e, at).1;
        assert forall|i: int| 0 <= i < r.pending.len() implies {
            &&& event_valid(#[trigger] r.pending[i]) is Ok
            &&& all.contains(r.pending[i])
            &&& continues(r.heads, r.pending[i]) == Ok::<bool, SocialProtocolErrorView>(false)
        } by {
            if i < v.pending.len() {
                assert(r.pending[i] == v.pending[i]);
            }
        }
        assert forall|i: int, j: int| 0 <= i < j < r.pending.len() implies !clash(
            #[trigger] r.pending[i],
            #[trigger] r.pending[j],
        ) by {
            assert(r.pending[i] == v.pending[i]);
            if j < v.pending.len() {
                assert(r.pending[j] == v.pending[j]);
            }
        }
        assert forall|i: int, j: int|
            0 <= i < r.events.len() && 0 <= j < r.pending.len() implies !clash(
            #[trigger] r.events[i],
            #[trigger] r.pending[j],
        ) by {
            if j < v.pending.len() {
                assert(r.pending[j] == v.pending[j]);
            }
        }
        assert(contents(r) =~= contents(v).insert(e));
    }
}

/// Whether an event of the author at the position is among the events.
spec fn present(events: Seq<SocialEventView>, author: Seq<char>, seq: u64) -> bool {
    exists|k: int| 0 <= k < events.len() && placed_at(author, seq)(#[trigger] events[k])
}

/// The head of a chain is its last event, and no position before it is missing.
#[verifier::spinoff_prover]
#[verifier::rlimit(40)]
proof fn lemma_chain_complete(events: Seq<SocialEventView>, author: Seq<char>)
    requires
        linked(Seq::empty(), events),
    ensures
        match table::find(heads_after(Seq::empty(), events), author) {
            None => forall|k: int| 0 <= k < events.len() ==> (#[trigger] events[k]).author != author,
            Some(head) => {
                &&& forall|s: u64| s <= head.seq ==> #[trigger] present(events, author, s)
                &&& forall|k: int|
                    0 <= k < events.len() && (#[trigger] events[k]).author == author ==> events[k].seq
                        <= head.seq
                &&& exists|k: int|
                    0 <= k < events.len() && (#[trigger] events[k]).author == author
                        && events[k].seq == head.seq && events[k].id == head.id
            },
        },
    decreases events.len(),
{
    if events.len() > 0 {
        let front = events.drop_last();
        let e = events.last();
        let last = events.len() - 1;
        let before = heads_after(Seq::empty(), front);
        let head = ChainHeadView { seq: e.seq, id: e.id };
        lemma_chain_complete(front, author);
        lemma_heads_distinct(Seq::empty(), front);
        table::lemma_put_find(before, e.author, head, author);
        assert forall|s: u64| present(front, author, s) implies present(events, author, s) by {
            let k = choose|k: int| 0 <= k < front.len() && placed_at(author, s)(#[trigger] front[k]);
            assert(placed_at(author, s)(events[k]));
        }
        if e.author == author {
            assert forall|s: u64| s <= e.seq implies #[trigger] present(events, author, s) by {
                if s == e.seq {
                    assert(placed_at(author, s)(events[last]));
                } else {
                    assert(present(front, author, s));
                }
            }
            assert forall|k: int|
                0 <= k < events.len() && (#[trigger] events[k]).author == author implies events[k].seq
                <= e.seq by {
                if k < last {
                    assert(front[k] == events[k]);
                }
            }
            assert(events[last].author == author && events[last].seq == head.seq && events[last].id
                == head.id);
        } else {
            assert forall|k: int|
                0 <= k < events.len() && (#[trigger] events[k]).author == author implies k < last
                && front[k] == events[k] by {
            }
            if let Some(h) = table::find(before, author) {
                let k = choose|k: int|
                    0 <= k < front.len() && (#[trigger] front[k]).author == author && front[k].seq
                        == h.seq && front[k].id == h.id;
                assert(events[k] == front[k]);
            }
        }
    }
}

proof fn lemma_lowest(s: Seq<SocialEventView>) -> (m: int)
    requires
        s.len() > 0,
    ensures
        0 <= m < s.len(),
        forall|k: int| 0 <= k < s.len() ==> s[m].seq <= (#[trigger] s[k]).seq,
    decreases s.len(),
{
    if s.len() == 1 {
        0
    } else {
        let front = s.drop_last();
        let m = lemma_lowest(front);
        assert forall|k: int| 0 <= k < s.len() - 1 implies front[m].seq <= (#[trigger] s[k]).seq by {
            assert(front[k] == s[k]);
        }
        if s.last().seq < front[m].seq {
            s.len() - 1
        } else {
            m
        }
    }
}

/// Once all events of whole chains are there, none waits.
#[verifier::spinoff_prover]
#[verifier::rlimit(40)]
proof fn lemma_nothing_waits(v: SocialEventLogView, all: Seq<SocialEventView>)
    requires
        undisturbed(v, all),
        idle(v, None),
        whole(all),
        contents(v) == all.to_multiset(),
    ensures
        v.pending.len() == 0,
{
    broadcast use vstd::seq_lib::group_to_multiset_ensures;

    if v.pending.len() > 0 {
        let m = lemma_lowest(v.pending);
        let x = v.pending[m];
        lemma_chain_complete(v.events, x.author);
        assert(continues(v.heads, x) == Ok::<bool, SocialProtocolErrorView>(false));
        assert(v.pending.to_multiset().count(x) > 0);
        assert(all.to_multiset().count(x) > 0);
        assert(all.contains(x));
        let ix = all.index_of(x);
        assert(rooted(all, all[ix]));
        let head = table::find(v.heads, x.author);
        if x.seq == 0 {
            assert(head is Some);
            assert(present(v.events, x.author, 0));
            let k = choose|k: int|
                0 <= k < v.events.len() && placed_at(x.author, 0)(#[trigger] v.events[k]);
            assert(clash(v.events[k], v.pending[m]));
        } else {
            let j = choose|j: int| 0 <= j < all.len() && precedes(#[trigger] all[j], x);
            let y = all[j];
            assert(all.contains(y));
            assert(all.to_multiset().count(y) > 0);
            if v.pending.to_multiset().count(y) > 0 {
                assert(v.pending.contains(y));
                let k = v.pending.index_of(y);
                assert(v.pending[m].seq <= v.pending[k].seq);
            }
            assert(v.events.to_multiset().count(y) > 0);
            assert(v.events.contains(y));
            let k = v.events.index_of(y);
            assert(v.events[k].author == x.author);
            assert(head is Some);
            let h = head->0;
            if h.seq == y.seq {
                let t = choose|t: int|
                    0 <= t < v.events.len() && (#[trigger] v.events[t]).author == x.author
                        && v.events[t].seq == h.seq && v.events[t].id == h.id;
                if t < k {
                    assert(clash(v.events[t], v.events[k]));
                } else if k < t {
                    assert(clash(v.events[k], v.events[t]));
                }
                assert(h.id == y.id);
                assert(x.seq == next_seq(h.seq));
            } else {
                assert(present(v.events, x.author, x.seq));
                let t = choose|t: int|
                    0 <= t < v.events.len() && placed_at(x.author, x.seq)(#[trigger] v.events[t]);
                assert(clash(v.events[t], v.pending[m]));
            }
        }
        assert(false);
    }
}

#[verifier::spinoff_prover]
#[verifier::rlimit(40)]
proof fn lemma_delivered_so_far(items: Seq<(SocialEventView, u64)>, n: int)
    requires
        0 <= n <= items.len(),
        whole(arrived(items)),
        timely(items),
    ensures
        ({
            let r = all_appended(Ok(empty_log()), items.subrange(0, n));
            &&& r is Ok
            &&& undisturbed(r->Ok_0, arrived(items))
            &&& idle(r->Ok_0, None)
            &&& contents(r->Ok_0) == arrived(items.subrange(0, n)).to_multiset()
        }),
    decreases n,
{
    broadcast use vstd::seq_lib::group_to_multiset_ensures;

    let all = arrived(items);
    let part = items.subrange(0, n);
    if n == 0 {
        reveal(informed);
        assert(part =~= Seq::empty());
        assert(arrived(part) =~= Seq::empty());
        assert(contents(empty_log()) =~= arrived(part).to_multiset());
    } else {
        lemma_delivered_so_far(items, n - 1);
        let before = items.subrange(0, n - 1);
        assert(part.drop_last() =~= before);
        let v = all_appended(Ok(empty_log()), before)->Ok_0;
        let e = items[n - 1].0;
        let at = items[n - 1].1;
        assert(part.last() == items[n - 1]);
        assert(all[n - 1] == e);
        assert(arrived(part) =~= arrived(before).push(e));
        assert forall|x: SocialEventView| contents(v).count(x) > 0 implies !clash(x, e) by {
            assert(arrived(before).contains(x));
            let k = arrived(before).index_of(x);
            assert(all[k] == x);
            assert(!clash(all[k], all[n - 1]));
        }
        assert forall|k: int| 0 <= k < v.events.len() implies !clash(#[trigger] v.events[k], e) by {
            assert(v.events.contains(v.events[k]));
            assert(contents(v).count(v.events[k]) > 0);
        }
        assert forall|k: int| 0 <= k < v.pending.len() implies !clash(#[trigger] v.pending[k], e) by {
            assert(v.pending.contains(v.pending[k]));
            assert(contents(v).count(v.pending[k]) > 0);
        }
        lemma_appended_clear(v, e, at, all);
    }
}

/// However the events of whole chains arrive, the log takes each of them, holds
/// all of them in the end and nothing else, and finds no fork.
pub proof fn lemma_delivery_is_complete(items: Seq<(SocialEventView, u64)>)
    requires
        whole(arrived(items)),
        timely(items),
    ensures
        all_appended(Ok(empty_log()), items) matches Ok(log) && {
            &&& log.events.to_multiset() == arrived(items).to_multiset()
            &&& log.pending.len() == 0
            &&& log.equivocation_proofs.len() == 0
        },
{
    broadcast use vstd::seq_lib::group_to_multiset_ensures;

    lemma_delivered_so_far(items, items.len() as int);
    assert(items.subrange(0, items.len() as int) =~= items);
    let log = all_appended(Ok(empty_log()), items)->Ok_0;
    lemma_nothing_waits(log, arrived(items));
    assert(log.events.to_multiset() =~= contents(log));
}

/// Two logs that were given the same whole chains, in whatever order and at
/// whatever times, describe the same society.
pub proof fn lemma_delivery_converges(
    a: Seq<(SocialEventView, u64)>,
    b: Seq<(SocialEventView, u64)>,
    s: SocietyView,
)
    requires
        whole(arrived(a)),
        whole(arrived(b)),
        timely(a),
        timely(b),
        arrived(a).to_multiset() == arrived(b).to_multiset(),
    ensures
        all_appended(Ok(empty_log()), a) matches Ok(x) && all_appended(Ok(empty_log()), b) matches Ok(
            y,
        ) && described(x, s) == described(y, s),
{
    lemma_delivery_is_complete(a);
    lemma_delivery_is_complete(b);
    lemma_delivered_so_far(a, a.len() as int);
    lemma_delivered_so_far(b, b.len() as int);
    assert(a.subrange(0, a.len() as int) =~= a);
    assert(b.subrange(0, b.len() as int) =~= b);
    let x = all_appended(Ok(empty_log()), a)->Ok_0;
    let y = all_appended(Ok(empty_log()), b)->Ok_0;
    assert(ids_distinct(x));
    lemma_logs_converge(x, y, s);
}

} // verus!
