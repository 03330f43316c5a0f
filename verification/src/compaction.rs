//! Compaction: a base stands for the events that it replaced.
use crate::chains::{clash, clear, filed, rebuilt, unforked, upright};
use crate::event_log::{
    accepted, after, all_appended, all_proved, appended, assembled, base_heads, base_of, based,
    by_replay, chained, compacted, compacted_count, compacted_proofs, continues, convicted,
    count_sum, described, drained, heads_after, identified_by, lemma_append_refused,
    lemma_proofs_refused, lemma_suffix_replay_suffices, linked, placed_at, ready, received,
    replayed, resumed, sound, zipped, ChainHeadView, CompactedEventLogBaseView, SocialEventLogView,
};
use crate::order;
use crate::protocol::{
    equivocates, evidence_key, EquivocationProofView, SocialEventView, SocialProtocolErrorView,
};
use crate::resume::{alike, lemma_evidence_may_come_first};
use crate::society::nothing_known;
use vstd::prelude::*;

verus! {

/// Whether the events from a position on come after the others in the order of
/// replay.
pub open spec fn ordered_from(events: Seq<SocialEventView>, start: int) -> bool {
    forall|i: int, j: int|
        0 <= i < start <= j < events.len() ==> order::key_le(
            by_replay()(#[trigger] events[i]),
            by_replay()(#[trigger] events[j]),
        )
}

spec fn events_of(items: Seq<(SocialEventView, u64)>) -> Seq<SocialEventView> {
    Seq::new(items.len(), |i: int| items[i].0)
}

/// An event that continues a chain and clashes with nothing is added to a log
/// in which nothing waits.
#[verifier::spinoff_prover]
#[verifier::rlimit(40)]
proof fn lemma_appended_next(v: SocialEventLogView, e: SocialEventView, at: u64)
    requires
        v.pending.len() == 0,
        v.pending_observed_at.len() == 0,
        continues(v.heads, e) == Ok::<bool, SocialProtocolErrorView>(true),
        forall|k: int| 0 <= k < v.events.len() ==> !clash(#[trigger] v.events[k], e),
        appended(v, e, at).0 is Ok,
    ensures
        ({
            let w = appended(v, e, at).1;
            &&& w.events == v.events.push(e)
            &&& w.pending.len() == 0
            &&& w.pending_observed_at.len() == 0
            &&& w.heads == heads_after(v.heads, seq![e])
            &&& w.compacted_base == v.compacted_base
            &&& w.equivocation_proofs == v.equivocation_proofs
            &&& w.equivocation_index == v.equivocation_index
        }),
{
    order::lemma_first_where(v.events, identified_by(e.id));
    order::lemma_first_where(v.pending, identified_by(e.id));
    order::lemma_first_where(v.events, placed_at(e.author, e.seq));
    order::lemma_first_where(v.pending, placed_at(e.author, e.seq));
    assert(appended(v, e, at) == received(v, e, at));
    let next = accepted(v, e, at);
    assert(next.pending.len() == 0);
    order::lemma_first_where(next.pending, ready(next.heads, e.author));
    assert(drained(next, e.author, next.pending.len()).1 == next);
    assert(seq![e].drop_last() =~= Seq::empty());
    assert(heads_after(v.heads, seq![e].drop_last()) == v.heads);
}

proof fn lemma_heads_push(
    heads: Seq<(Seq<char>, ChainHeadView)>,
    events: Seq<SocialEventView>,
    e: SocialEventView,
)
    ensures
        heads_after(heads, events.push(e)) == heads_after(heads_after(heads, events), seq![e]),
{
    assert(events.push(e).drop_last() =~= events);
    assert(seq![e].drop_last() =~= Seq::empty());
    let start = heads_after(heads, events);
    assert(heads_after(start, seq![e].drop_last()) == start);
}

/// Chained events are added to a log as they come.
#[verifier::spinoff_prover]
#[verifier::rlimit(40)]
proof fn lemma_appended_in_turn(v: SocialEventLogView, items: Seq<(SocialEventView, u64)>)
    requires
        v.pending.len() == 0,
        v.pending_observed_at.len() == 0,
        unforked(v.events + events_of(items)),
        linked(v.heads, events_of(items)),
        all_appended(Ok(v), items) is Ok,
    ensures
        ({
            let w = all_appended(Ok(v), items)->Ok_0;
            &&& w.events == v.events + events_of(items)
            &&& w.pending.len() == 0
            &&& w.pending_observed_at.len() == 0
            &&& w.heads == heads_after(v.heads, events_of(items))
            &&& w.compacted_base == v.compacted_base
            &&& w.equivocation_proofs == v.equivocation_proofs
            &&& w.equivocation_index == v.equivocation_index
        }),
    decreases items.len(),
{
    let all = events_of(items);
    if items.len() == 0 {
        assert(v.events + all =~= v.events);
    } else {
        let front = items.drop_last();
        let e = items.last().0;
        assert(events_of(front) =~= all.drop_last());
        assert(all =~= events_of(front).push(e));
        let whole = v.events + all;
        let part = v.events + events_of(front);
        assert(whole =~= part.push(e));
        assert forall|i: int, j: int| 0 <= i < j < part.len() implies !clash(
            #[trigger] part[i],
            #[trigger] part[j],
        ) by {
            assert(whole[i] == part[i] && whole[j] == part[j]);
        }
        lemma_appended_in_turn(v, front);
        let before = all_appended(Ok(v), front)->Ok_0;
        assert forall|k: int| 0 <= k < before.events.len() implies !clash(
            #[trigger] before.events[k],
            e,
        ) by {
            assert(whole[k] == before.events[k]);
            assert(!clash(whole[k], whole[part.len() as int]));
        }
        lemma_appended_next(before, e, items.last().1);
        lemma_heads_push(v.heads, events_of(front), e);
    }
}

proof fn lemma_linked_parts(
    heads: Seq<(Seq<char>, ChainHeadView)>,
    a: Seq<SocialEventView>,
    b: Seq<SocialEventView>,
)
    requires
        linked(heads, a + b),
    ensures
        linked(heads, a),
        linked(heads_after(heads, a), b),
        heads_after(heads, a + b) == heads_after(heads_after(heads, a), b),
    decreases b.len(),
{
    if b.len() == 0 {
        assert(a + b =~= a);
    } else {
        assert((a + b).drop_last() =~= a + b.drop_last());
        lemma_linked_parts(heads, a, b.drop_last());
        assert((a + b).last() == b.last());
    }
}

#[verifier::spinoff_prover]
#[verifier::rlimit(40)]
proof fn lemma_proved_in_turn(v: SocialEventLogView, proofs: Seq<EquivocationProofView>)
    requires
        all_proved(Ok(v), proofs) is Ok,
        forall|i: int, j: int|
            0 <= i < j < proofs.len() ==> evidence_key(#[trigger] proofs[i]) != evidence_key(
                #[trigger] proofs[j],
            ),
        forall|i: int|
            0 <= i < proofs.len() ==> !v.equivocation_index.contains(
                evidence_key(#[trigger] proofs[i]),
            ),
    ensures
        ({
            let w = all_proved(Ok(v), proofs)->Ok_0;
            &&& w == (SocialEventLogView {
                equivocation_proofs: v.equivocation_proofs + proofs,
                equivocation_index: w.equivocation_index,
                ..v
            })
            &&& forall|key: Seq<char>| #[trigger]
                w.equivocation_index.contains(key) ==> v.equivocation_index.contains(key) || exists|
                    i: int,
                |
                    0 <= i < proofs.len() && evidence_key(#[trigger] proofs[i]) == key
        }),
    decreases proofs.len(),
{
    if proofs.len() == 0 {
        assert(v.equivocation_proofs + proofs =~= v.equivocation_proofs);
    } else {
        let front = proofs.drop_last();
        let p = proofs.last();
        let last = proofs.len() - 1;
        assert forall|i: int, j: int| 0 <= i < j < front.len() implies evidence_key(
            #[trigger] front[i],
        ) != evidence_key(#[trigger] front[j]) by {
            assert(proofs[i] == front[i] && proofs[j] == front[j]);
        }
        assert forall|i: int| 0 <= i < front.len() implies !v.equivocation_index.contains(
            evidence_key(#[trigger] front[i]),
        ) by {
            assert(proofs[i] == front[i]);
        }
        lemma_proved_in_turn(v, front);
        let before = all_proved(Ok(v), front)->Ok_0;
        assert(!before.equivocation_index.contains(evidence_key(p))) by {
            if before.equivocation_index.contains(evidence_key(p)) {
                assert(!v.equivocation_index.contains(evidence_key(proofs[last])));
                let i = choose|i: int|
                    0 <= i < front.len() && evidence_key(#[trigger] front[i]) == evidence_key(p);
                assert(proofs[i] == front[i]);
                assert(evidence_key(proofs[i]) != evidence_key(proofs[last]));
            }
        }
        let w = all_proved(Ok(v), proofs)->Ok_0;
        assert((v.equivocation_proofs + front).push(p) =~= v.equivocation_proofs + proofs);
        assert forall|key: Seq<char>| #[trigger]
            w.equivocation_index.contains(key) implies v.equivocation_index.contains(key) || exists|
                i: int,
            |
                0 <= i < proofs.len() && evidence_key(#[trigger] proofs[i]) == key by {
            let k = w.equivocation_index.index_of(key);
            if k < before.equivocation_index.len() {
                assert(before.equivocation_index[k] == key);
                assert(before.equivocation_index.contains(key));
                if !v.equivocation_index.contains(key) {
                    let i = choose|i: int|
                        0 <= i < front.len() && evidence_key(#[trigger] front[i]) == key;
                    assert(proofs[i] == front[i]);
                }
            } else {
                assert(evidence_key(proofs[last]) == key);
            }
        }
    }
}

/// The log of the events that are compacted.
#[verifier::spinoff_prover]
#[verifier::rlimit(40)]
proof fn lemma_first_part(v: SocialEventLogView, start: int)
    requires
        0 <= start <= v.events.len(),
        v.events.len() == v.observed_at.len(),
        chained(v),
        clear(v),
        filed(v),
        all_proved(
            all_appended(
                based(v.compacted_base),
                zipped(v.events, v.observed_at).subrange(0, start),
            ),
            v.equivocation_proofs,
        ) is Ok,
    ensures
        ({
            let made = all_proved(
                all_appended(
                    based(v.compacted_base),
                    zipped(v.events, v.observed_at).subrange(0, start),
                ),
                v.equivocation_proofs,
            )->Ok_0;
            &&& made.events == v.events.subrange(0, start)
            &&& made.heads == heads_after(base_heads(v), v.events.subrange(0, start))
            &&& made.compacted_base == v.compacted_base
            &&& made.equivocation_proofs == v.equivocation_proofs
        }),
{
    let first = zipped(v.events, v.observed_at).subrange(0, start);
    let a = v.events.subrange(0, start);
    assert(events_of(first) =~= a);
    assert(a + v.events.subrange(start, v.events.len() as int) =~= v.events);
    lemma_linked_parts(base_heads(v), a, v.events.subrange(start, v.events.len() as int));
    if based(v.compacted_base) is Err {
        lemma_append_refused(based(v.compacted_base), first);
        lemma_proofs_refused(based(v.compacted_base), v.equivocation_proofs);
    }
    let ground = based(v.compacted_base)->Ok_0;
    if all_appended(based(v.compacted_base), first) is Err {
        lemma_proofs_refused(all_appended(based(v.compacted_base), first), v.equivocation_proofs);
    }
    assert(ground.events + a =~= a);
    assert forall|i: int, j: int| 0 <= i < j < a.len() implies !clash(
        #[trigger] a[i],
        #[trigger] a[j],
    ) by {
        assert(!clash(v.events[i], v.events[j]));
    }
    lemma_appended_in_turn(ground, first);
    let so_far = all_appended(based(v.compacted_base), first)->Ok_0;
    lemma_proved_in_turn(so_far, v.equivocation_proofs);
    assert(so_far.equivocation_proofs + v.equivocation_proofs =~= v.equivocation_proofs);
}

/// The log of the events that stay.
#[verifier::spinoff_prover]
#[verifier::rlimit(40)]
proof fn lemma_second_part(v: SocialEventLogView, base: CompactedEventLogBaseView, start: int)
    requires
        0 <= start <= v.events.len(),
        v.events.len() == v.observed_at.len(),
        chained(v),
        clear(v),
        base.heads == heads_after(base_heads(v), v.events.subrange(0, start)),
        assembled(
            Some(base),
            zipped(v.events, v.observed_at).subrange(start, v.events.len() as int),
            Seq::empty(),
            Seq::empty(),
        ) is Ok,
    ensures
        ({
            let log = assembled(
                Some(base),
                zipped(v.events, v.observed_at).subrange(start, v.events.len() as int),
                Seq::empty(),
                Seq::empty(),
            )->Ok_0;
            &&& log.events == v.events.subrange(start, v.events.len() as int)
            &&& log.pending.len() == 0
            &&& log.equivocation_proofs.len() == 0
            &&& log.compacted_base == Some(base)
        }),
{
    let rest = zipped(v.events, v.observed_at).subrange(start, v.events.len() as int);
    let b = v.events.subrange(start, v.events.len() as int);
    assert(events_of(rest) =~= b);
    assert(v.events.subrange(0, start) + b =~= v.events);
    lemma_linked_parts(base_heads(v), v.events.subrange(0, start), b);
    let none: Seq<(SocialEventView, u64)> = Seq::empty();
    let no_proofs: Seq<EquivocationProofView> = Seq::empty();
    let grown = all_appended(based(Some(base)), rest);
    assert(all_appended(grown, none) == grown);
    assert(all_proved(grown, no_proofs) == grown);
    if based(Some(base)) is Err {
        lemma_append_refused(based(Some(base)), rest);
    }
    let floor = based(Some(base))->Ok_0;
    assert(floor.events + b =~= b);
    assert forall|i: int, j: int| 0 <= i < j < b.len() implies !clash(
        #[trigger] b[i],
        #[trigger] b[j],
    ) by {
        assert(!clash(v.events[start + i], v.events[start + j]));
    }
    lemma_appended_in_turn(floor, rest);
}

/// A base with the society of the first events and the evidence leads to a
/// society like that of the whole log.
#[verifier::spinoff_prover]
#[verifier::rlimit(40)]
proof fn lemma_base_suffices(
    v: SocialEventLogView,
    made: SocialEventLogView,
    log: SocialEventLogView,
    start: int,
)
    requires
        0 <= start <= v.events.len(),
        ordered_from(v.events, start),
        made.events == v.events.subrange(0, start),
        made.compacted_base == v.compacted_base,
        made.equivocation_proofs == v.equivocation_proofs,
        log.events == v.events.subrange(start, v.events.len() as int),
        log.equivocation_proofs.len() == 0,
        log.compacted_base matches Some(base) && base.society == described(made, nothing_known()),
    ensures
        alike(described(log, nothing_known()), described(v, nothing_known())),
{
    let a = v.events.subrange(0, start);
    let b = v.events.subrange(start, v.events.len() as int);
    let no_proofs: Seq<EquivocationProofView> = Seq::empty();
    let ground = match v.compacted_base {
        Some(base) => base.society,
        None => nothing_known(),
    };
    let society = replayed(ground, order::sort_by_key(a, by_replay()));
    let suffix = order::sort_by_key(b, by_replay());
    assert(after(a, 0) =~= a);
    assert(after(b, 0) =~= b);
    assert(after(v.events, start) =~= b);
    assert(after(v.equivocation_proofs, 0) =~= v.equivocation_proofs);
    assert(after(log.equivocation_proofs, 0) =~= no_proofs);
    assert(after(no_proofs, 0) =~= no_proofs);
    assert(described(made, nothing_known()) == convicted(society, v.equivocation_proofs));
    assert(described(log, nothing_known()) == convicted(
        replayed(convicted(society, v.equivocation_proofs), suffix),
        no_proofs,
    ));
    lemma_suffix_replay_suffices(v, ground, start);
    let short = SocialEventLogView { events: a, equivocation_proofs: no_proofs, ..v };
    assert(resumed(short, ground, 0, 0) == society);
    lemma_evidence_may_come_first(society, v.equivocation_proofs, suffix, no_proofs);
    assert(v.equivocation_proofs + no_proofs =~= v.equivocation_proofs);
}

proof fn lemma_appended_concat(
    v: Result<SocialEventLogView, SocialProtocolErrorView>,
    a: Seq<(SocialEventView, u64)>,
    b: Seq<(SocialEventView, u64)>,
)
    ensures
        all_appended(v, a + b) == all_appended(all_appended(v, a), b),
    decreases b.len(),
{
    if b.len() == 0 {
        assert(a + b =~= a);
    } else {
        assert((a + b).drop_last() =~= a + b.drop_last());
        assert((a + b).last() == b.last());
        lemma_appended_concat(v, a, b.drop_last());
    }
}

proof fn lemma_all_proved(v: SocialEventLogView, proofs: Seq<EquivocationProofView>)
    requires
        forall|i: int| 0 <= i < proofs.len() ==> equivocates(#[trigger] proofs[i]) is Ok,
    ensures
        all_proved(Ok(v), proofs) matches Ok(w) && w == (SocialEventLogView {
            equivocation_proofs: w.equivocation_proofs,
            equivocation_index: w.equivocation_index,
            ..v
        }),
    decreases proofs.len(),
{
    if proofs.len() > 0 {
        assert forall|i: int| 0 <= i < proofs.drop_last().len() implies equivocates(
            #[trigger] proofs.drop_last()[i],
        ) is Ok by {
            assert(proofs[i] == proofs.drop_last()[i]);
        }
        lemma_all_proved(v, proofs.drop_last());
        assert(equivocates(proofs[proofs.len() - 1]) is Ok);
    }
}

/// What an event in its turn is answered depends on the heads and the succession
/// alone.
#[verifier::spinoff_prover]
#[verifier::rlimit(40)]
proof fn lemma_next_carries_over(
    v: SocialEventLogView,
    w: SocialEventLogView,
    e: SocialEventView,
    at: u64,
)
    requires
        v.pending.len() == 0,
        v.pending_observed_at.len() == 0,
        w.pending.len() == 0,
        w.pending_observed_at.len() == 0,
        v.heads == w.heads,
        v.succession == w.succession,
        continues(v.heads, e) == Ok::<bool, SocialProtocolErrorView>(true),
        forall|k: int| 0 <= k < v.events.len() ==> !clash(#[trigger] v.events[k], e),
        forall|k: int| 0 <= k < w.events.len() ==> !clash(#[trigger] w.events[k], e),
        appended(v, e, at).0 is Ok,
    ensures
        appended(w, e, at).0 is Ok,
        appended(v, e, at).1.succession == appended(w, e, at).1.succession,
{
    order::lemma_first_where(v.events, identified_by(e.id));
    order::lemma_first_where(v.pending, identified_by(e.id));
    order::lemma_first_where(v.events, placed_at(e.author, e.seq));
    order::lemma_first_where(v.pending, placed_at(e.author, e.seq));
    order::lemma_first_where(w.events, identified_by(e.id));
    order::lemma_first_where(w.pending, identified_by(e.id));
    order::lemma_first_where(w.events, placed_at(e.author, e.seq));
    order::lemma_first_where(w.pending, placed_at(e.author, e.seq));
    assert(appended(v, e, at) == received(v, e, at));
    assert(appended(w, e, at) == received(w, e, at));
    let x = accepted(v, e, at);
    let y = accepted(w, e, at);
    assert(x.pending.len() == 0 && y.pending.len() == 0);
    order::lemma_first_where(x.pending, ready(x.heads, e.author));
    order::lemma_first_where(y.pending, ready(y.heads, e.author));
    assert(drained(x, e.author, x.pending.len()).1 == x);
    assert(drained(y, e.author, y.pending.len()).1 == y);
}

/// Chained events that one log takes, another with the same heads and succession
/// takes as well.
#[verifier::spinoff_prover]
#[verifier::rlimit(40)]
proof fn lemma_turn_carries_over(
    v: SocialEventLogView,
    w: SocialEventLogView,
    items: Seq<(SocialEventView, u64)>,
)
    requires
        v.pending.len() == 0,
        v.pending_observed_at.len() == 0,
        w.pending.len() == 0,
        w.pending_observed_at.len() == 0,
        v.heads == w.heads,
        v.succession == w.succession,
        unforked(v.events + events_of(items)),
        unforked(w.events + events_of(items)),
        linked(v.heads, events_of(items)),
        all_appended(Ok(v), items) is Ok,
    ensures
        all_appended(Ok(w), items) is Ok,
        all_appended(Ok(v), items)->Ok_0.succession == all_appended(Ok(w), items)->Ok_0.succession,
    decreases items.len(),
{
    if items.len() > 0 {
        let front = items.drop_last();
        let e = items.last().0;
        let at = items.last().1;
        let all = events_of(items);
        assert(events_of(front) =~= all.drop_last());
        let last = all.len() - 1;
        assert(all[last] == e);
        lemma_unforked_front(v.events, items);
        lemma_unforked_front(w.events, items);
        lemma_turn_carries_over(v, w, front);
        lemma_appended_in_turn(v, front);
        lemma_appended_in_turn(w, front);
        lemma_next_carries_over(
            all_appended(Ok(v), front)->Ok_0,
            all_appended(Ok(w), front)->Ok_0,
            e,
            at,
        );
    }
}

proof fn lemma_unforked_front(events: Seq<SocialEventView>, items: Seq<(SocialEventView, u64)>)
    requires
        items.len() > 0,
        unforked(events + events_of(items)),
    ensures
        unforked(events + events_of(items.drop_last())),
        forall|k: int|
            0 <= k < (events + events_of(items.drop_last())).len() ==> !clash(
                #[trigger] (events + events_of(items.drop_last()))[k],
                items.last().0,
            ),
{
    let whole = events + events_of(items);
    let part = events + events_of(items.drop_last());
    assert(whole =~= part.push(items.last().0));
    assert forall|i: int, j: int| 0 <= i < j < part.len() implies !clash(
        #[trigger] part[i],
        #[trigger] part[j],
    ) by {
        assert(whole[i] == part[i] && whole[j] == part[j]);
    }
    assert forall|k: int| 0 <= k < part.len() implies !clash(#[trigger] part[k], items.last().0) by {
        assert(!clash(whole[k], whole[part.len() as int]));
    }
}

/// The base that a compaction of a log makes.
spec fn next_base(v: SocialEventLogView, start: int) -> CompactedEventLogBaseView {
    base_of(
        all_proved(
            all_appended(
                based(v.compacted_base),
                zipped(v.events, v.observed_at).subrange(0, start),
            ),
            v.equivocation_proofs,
        )->Ok_0,
        count_sum(compacted_count(v), start as usize),
        count_sum(compacted_proofs(v), v.equivocation_proofs.len() as usize),
    )
}

/// Where all offers are taken, those up to a position are, and the others after
/// them.
proof fn lemma_taken_in_parts(
    ground: Result<SocialEventLogView, SocialProtocolErrorView>,
    items: Seq<(SocialEventView, u64)>,
    start: int,
)
    requires
        0 <= start <= items.len(),
        all_appended(ground, items) is Ok,
    ensures
        ground is Ok,
        all_appended(ground, items.subrange(0, start)) is Ok,
        all_appended(
            all_appended(ground, items.subrange(0, start)),
            items.subrange(start, items.len() as int),
        ) is Ok,
{
    let first = items.subrange(0, start);
    let rest = items.subrange(start, items.len() as int);
    assert(first + rest =~= items);
    lemma_appended_concat(ground, first, rest);
    if ground is Err {
        lemma_append_refused(ground, items);
    }
    if all_appended(ground, first) is Err {
        lemma_append_refused(all_appended(ground, first), rest);
    }
}

/// The log of the first events, where it is taken.
proof fn lemma_first_events(v: SocialEventLogView, ground: SocialEventLogView, start: int)
    requires
        0 <= start <= v.events.len(),
        v.events.len() == v.observed_at.len(),
        chained(v),
        clear(v),
        ground.events.len() == 0,
        ground.pending.len() == 0,
        ground.pending_observed_at.len() == 0,
        ground.heads == base_heads(v),
        all_appended(Ok(ground), zipped(v.events, v.observed_at).subrange(0, start)) is Ok,
    ensures
        ({
            let so_far = all_appended(
                Ok(ground),
                zipped(v.events, v.observed_at).subrange(0, start),
            )->Ok_0;
            &&& so_far.pending.len() == 0
            &&& so_far.pending_observed_at.len() == 0
            &&& so_far.events == v.events.subrange(0, start)
            &&& so_far.heads == heads_after(base_heads(v), v.events.subrange(0, start))
        }),
{
    let first = zipped(v.events, v.observed_at).subrange(0, start);
    let a = v.events.subrange(0, start);
    let b = v.events.subrange(start, v.events.len() as int);
    assert(events_of(first) =~= a);
    assert(a + b =~= v.events);
    lemma_linked_parts(base_heads(v), a, b);
    assert(ground.events + a =~= a);
    assert forall|i: int, j: int| 0 <= i < j < a.len() implies !clash(
        #[trigger] a[i],
        #[trigger] a[j],
    ) by {
        assert(!clash(v.events[i], v.events[j]));
    }
    lemma_appended_in_turn(ground, first);
}

#[verifier::spinoff_prover]
#[verifier::rlimit(40)]
proof fn lemma_first_part_stands(v: SocialEventLogView, start: int)
    requires
        0 <= start <= v.events.len(),
        sound(v),
        chained(v),
        clear(v),
        filed(v),
        rebuilt(v),
    ensures
        ({
            let items = zipped(v.events, v.observed_at);
            let so_far = all_appended(based(v.compacted_base), items.subrange(0, start));
            let made = all_proved(so_far, v.equivocation_proofs);
            &&& so_far is Ok
            &&& so_far->Ok_0.pending.len() == 0
            &&& so_far->Ok_0.pending_observed_at.len() == 0
            &&& so_far->Ok_0.events == v.events.subrange(0, start)
            &&& so_far->Ok_0.heads == heads_after(base_heads(v), v.events.subrange(0, start))
            &&& all_appended(so_far, items.subrange(start, v.events.len() as int)) is Ok
            &&& made is Ok
            &&& made->Ok_0.heads == so_far->Ok_0.heads
            &&& made->Ok_0.succession == so_far->Ok_0.succession
        }),
{
    let items = zipped(v.events, v.observed_at);
    lemma_taken_in_parts(based(v.compacted_base), items, start);
    let ground = based(v.compacted_base)->Ok_0;
    lemma_first_events(v, ground, start);
    let so_far = all_appended(based(v.compacted_base), items.subrange(0, start))->Ok_0;
    lemma_all_proved(so_far, v.equivocation_proofs);
}

/// A log with the heads and the succession of the first events takes the rest.
#[verifier::spinoff_prover]
#[verifier::rlimit(40)]
proof fn lemma_rest_is_taken(
    v: SocialEventLogView,
    so_far: SocialEventLogView,
    floor: SocialEventLogView,
    start: int,
)
    requires
        0 <= start <= v.events.len(),
        v.events.len() == v.observed_at.len(),
        chained(v),
        clear(v),
        so_far.events == v.events.subrange(0, start),
        so_far.heads == heads_after(base_heads(v), v.events.subrange(0, start)),
        so_far.pending.len() == 0,
        so_far.pending_observed_at.len() == 0,
        floor.events.len() == 0,
        floor.heads == so_far.heads,
        floor.succession == so_far.succession,
        floor.pending.len() == 0,
        floor.pending_observed_at.len() == 0,
        all_appended(
            Ok(so_far),
            zipped(v.events, v.observed_at).subrange(start, v.events.len() as int),
        ) is Ok,
    ensures
        all_appended(
            Ok(floor),
            zipped(v.events, v.observed_at).subrange(start, v.events.len() as int),
        ) matches Ok(log) && log.heads == v.heads,
{
    let rest = zipped(v.events, v.observed_at).subrange(start, v.events.len() as int);
    let a = v.events.subrange(0, start);
    let b = v.events.subrange(start, v.events.len() as int);
    assert(events_of(rest) =~= b);
    assert(a + b =~= v.events);
    lemma_linked_parts(base_heads(v), a, b);
    assert(floor.events + b =~= b);
    assert forall|i: int, j: int| 0 <= i < j < b.len() implies !clash(
        #[trigger] b[i],
        #[trigger] b[j],
    ) by {
        assert(!clash(v.events[start + i], v.events[start + j]));
    }
    assert(unforked(v.events));
    lemma_turn_carries_over(so_far, floor, rest);
    lemma_appended_in_turn(floor, rest);
}

#[verifier::spinoff_prover]
#[verifier::rlimit(40)]
proof fn lemma_second_part_stands(v: SocialEventLogView, start: int)
    requires
        0 <= start <= v.events.len(),
        sound(v),
        chained(v),
        clear(v),
        filed(v),
        rebuilt(v),
    ensures
        ({
            let rest = zipped(v.events, v.observed_at).subrange(start, v.events.len() as int);
            let log = assembled(
                Some(next_base(v, start)),
                rest,
                Seq::empty(),
                Seq::empty(),
            );
            &&& log is Ok
            &&& log->Ok_0.heads == v.heads
        }),
{
    let items = zipped(v.events, v.observed_at);
    let rest = items.subrange(start, v.events.len() as int);
    lemma_first_part_stands(v, start);
    let so_far = all_appended(based(v.compacted_base), items.subrange(0, start))->Ok_0;
    let floor = based(Some(next_base(v, start)))->Ok_0;
    lemma_rest_is_taken(v, so_far, floor, start);
    let grown = all_appended(based(Some(next_base(v, start))), rest);
    let none: Seq<(SocialEventView, u64)> = Seq::empty();
    let no_proofs: Seq<EquivocationProofView> = Seq::empty();
    assert(all_appended(grown, none) == grown);
    assert(all_proved(grown, no_proofs) == grown);
}

/// Compaction succeeds on every log with enough events in which nothing waits,
/// and changes no other log. It keeps the most recent events, the number of
/// events, and every author's position.
#[verifier::spinoff_prover]
#[verifier::rlimit(40)]
pub proof fn lemma_compaction_keeps_chains(v: SocialEventLogView, retain: usize)
    requires
        sound(v),
        upright(v),
        compacted_count(v) + v.events.len() <= usize::MAX,
    ensures
        ({
            let done = compacted(v, retain);
            if v.events.len() <= retain {
                done == (Ok::<bool, SocialProtocolErrorView>(false), v)
            } else if v.pending.len() > 0 {
                done.0 is Err && done.1 == v
            } else {
                &&& done.0 == Ok::<bool, SocialProtocolErrorView>(true)
                &&& done.1.events == v.events.subrange(
                    v.events.len() - retain,
                    v.events.len() as int,
                )
                &&& done.1.pending.len() == 0
                &&& compacted_count(done.1) + retain == compacted_count(v) + v.events.len()
                &&& done.1.heads == v.heads
            }
        }),
{
    reveal(upright);
    if v.events.len() > retain && v.pending.len() == 0 {
        let start = v.events.len() - retain;
        lemma_first_part_stands(v, start);
        lemma_second_part_stands(v, start);
        lemma_first_part(v, start);
        lemma_second_part(v, next_base(v, start), start);
    }
}

/// Compaction keeps what a log says: where the events that stay come after the
/// others in the order of replay, the compacted log describes a society like
/// that of the whole log.
#[verifier::spinoff_prover]
#[verifier::rlimit(40)]
pub proof fn lemma_compaction_keeps_society(v: SocialEventLogView, retain: usize)
    requires
        sound(v),
        upright(v),
        retain < v.events.len(),
        v.pending.len() == 0,
        ordered_from(v.events, v.events.len() - retain),
    ensures
        alike(
            described(compacted(v, retain).1, nothing_known()),
            described(v, nothing_known()),
        ),
{
    reveal(upright);
    let start = v.events.len() - retain;
    let made = all_proved(
        all_appended(based(v.compacted_base), zipped(v.events, v.observed_at).subrange(0, start)),
        v.equivocation_proofs,
    )->Ok_0;
    lemma_first_part_stands(v, start);
    lemma_second_part_stands(v, start);
    lemma_first_part(v, start);
    lemma_second_part(v, next_base(v, start), start);
    lemma_base_suffices(v, made, compacted(v, retain).1, start);
}

} // verus!
