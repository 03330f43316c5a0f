//! What every log keeps, whatever is offered to it.
use crate::event_log::{
    accepted, all_appended, appended, based, chained, continues, dated, drained, identified_by,
    ids_distinct, lemma_accepted, lemma_append_is_idempotent, lemma_append_keeps_chains, may_act,
    placed_at, ready, received, sound, succeeded, swept, with_proof, zipped, ChainHeadView,
    CompactedEventLogBaseView, SocialEventLogView,
};
use crate::order;
use crate::protocol::{
    equivocates, event_valid, evidence_key, evidence_of, lemma_evidence_key_names_events,
    EquivocationProofView, SocialEventView, SocialProtocolErrorView,
};
use crate::table;
use vstd::prelude::*;

verus! {

/// Whether two events cannot both be in one log.
pub open spec fn clash(a: SocialEventView, b: SocialEventView) -> bool {
    a.id == b.id || a.author == b.author && a.seq == b.seq
}

/// Whether no two of some events clash.
pub open spec fn unforked(events: Seq<SocialEventView>) -> bool {
    forall|i: int, j: int|
        0 <= i < j < events.len() ==> !clash(#[trigger] events[i], #[trigger] events[j])
}

/// Whether no two events of a log clash, waiting ones among them.
pub open spec fn clear(v: SocialEventLogView) -> bool {
    &&& forall|i: int, j: int|
        0 <= i < j < v.events.len() ==> !clash(#[trigger] v.events[i], #[trigger] v.events[j])
    &&& forall|i: int, j: int|
        0 <= i < j < v.pending.len() ==> !clash(#[trigger] v.pending[i], #[trigger] v.pending[j])
    &&& forall|i: int, j: int|
        0 <= i < v.events.len() && 0 <= j < v.pending.len() ==> !clash(
            #[trigger] v.events[i],
            #[trigger] v.pending[j],
        )
}

/// Whether the evidence of a log holds, each piece is kept once and new to the
/// base, and exactly what is kept or stands in the base is known.
pub open spec fn filed(v: SocialEventLogView) -> bool {
    &&& forall|i: int|
        0 <= i < v.equivocation_proofs.len() ==> equivocates(
            #[trigger] v.equivocation_proofs[i],
        ) is Ok
    &&& forall|i: int, j: int|
        0 <= i < j < v.equivocation_proofs.len() ==> evidence_key(
            #[trigger] v.equivocation_proofs[i],
        ) != evidence_key(#[trigger] v.equivocation_proofs[j])
    &&& forall|i: int|
        0 <= i < v.equivocation_proofs.len() ==> !base_keys(v).contains(
            evidence_key(#[trigger] v.equivocation_proofs[i]),
        )
    &&& forall|key: Seq<char>| #[trigger]
        v.equivocation_index.contains(key) <==> base_keys(v).contains(key) || kept(
            v.equivocation_proofs,
            key,
        )
}

/// The keys of the evidence that a base stands for.
pub open spec fn base_keys(v: SocialEventLogView) -> Seq<Seq<char>> {
    match v.compacted_base {
        Some(base) => base.equivocation_proof_keys,
        None => Seq::empty(),
    }
}

/// Whether a piece of evidence with a key is kept.
pub open spec fn kept(proofs: Seq<EquivocationProofView>, key: Seq<char>) -> bool {
    exists|i: int| 0 <= i < proofs.len() && evidence_key(#[trigger] proofs[i]) == key
}

/// A log with its events, but nothing that waits and no evidence of its own.
pub open spec fn bare(v: SocialEventLogView) -> SocialEventLogView {
    SocialEventLogView {
        pending: Seq::empty(),
        pending_observed_at: Seq::empty(),
        equivocation_proofs: Seq::empty(),
        equivocation_index: base_keys(v),
        ..v
    }
}

/// Whether a log is what its events make up, offered in their order.
pub open spec fn rebuilt(v: SocialEventLogView) -> bool {
    all_appended(based(v.compacted_base), zipped(v.events, v.observed_at)) == Ok::<
        SocialEventLogView,
        SocialProtocolErrorView,
    >(bare(v))
}

/// Whether no waiting event is dated too far ahead of its observation.
pub open spec fn waiting_dated(v: SocialEventLogView) -> bool {
    forall|i: int|
        0 <= i < v.pending.len() ==> dated(
            #[trigger] v.pending[i],
            v.pending_observed_at[i],
        ) is Ok
}

/// What holds of every log: chains have no gap, no two events clash, the
/// evidence is in order, and the log is what its events make up.
#[verifier::opaque]
pub open spec fn upright(v: SocialEventLogView) -> bool {
    &&& chained(v)
    &&& clear(v)
    &&& filed(v)
    &&& rebuilt(v)
    &&& waiting_dated(v)
}

/// Where an element stood before one was removed.
pub open spec fn skipping(removed: int, k: int) -> int {
    if k < removed {
        k
    } else {
        k + 1
    }
}

/// Taking out a waiting event leaves nothing that clashes, with it or without.
pub proof fn lemma_clear_without(v: SocialEventLogView, i: int)
    requires
        clear(v),
        0 <= i < v.pending.len(),
    ensures
        clear(
            SocialEventLogView {
                pending: v.pending.remove(i),
                pending_observed_at: v.pending_observed_at.remove(i),
                ..v
            },
        ),
        forall|k: int| 0 <= k < v.events.len() ==> !clash(#[trigger] v.events[k], v.pending[i]),
        forall|k: int|
            0 <= k < v.pending.remove(i).len() ==> !clash(
                #[trigger] v.pending.remove(i)[k],
                v.pending[i],
            ),
{
    let left = v.pending.remove(i);
    assert forall|k: int| 0 <= k < left.len() implies #[trigger] left[k] == v.pending[skipping(
        i,
        k,
    )] by {
    }
    assert forall|k: int| 0 <= k < left.len() implies !clash(#[trigger] left[k], v.pending[i]) by {
        if k < i {
            assert(!clash(v.pending[k], v.pending[i]));
        } else {
            assert(!clash(v.pending[i], v.pending[k + 1]));
        }
    }
    assert forall|a: int, b: int| 0 <= a < b < left.len() implies !clash(
        #[trigger] left[a],
        #[trigger] left[b],
    ) by {
        assert(!clash(v.pending[skipping(i, a)], v.pending[skipping(i, b)]));
    }
    assert forall|a: int, b: int| 0 <= a < v.events.len() && 0 <= b < left.len() implies !clash(
        #[trigger] v.events[a],
        #[trigger] left[b],
    ) by {
        assert(!clash(v.events[a], v.pending[skipping(i, b)]));
    }
}

#[verifier::spinoff_prover]
#[verifier::rlimit(40)]
proof fn lemma_proof_filed(v: SocialEventLogView, p: EquivocationProofView)
    requires
        filed(v),
    ensures
        filed(with_proof(v, p).1),
{
    let w = with_proof(v, p).1;
    let new = evidence_key(p);
    if w.equivocation_proofs.len() != v.equivocation_proofs.len() {
        let last = v.equivocation_proofs.len() as int;
        assert(w.equivocation_proofs[last] == p);
        assert forall|i: int| 0 <= i < last implies #[trigger] w.equivocation_proofs[i]
            == v.equivocation_proofs[i] && evidence_key(w.equivocation_proofs[i]) != new by {
            assert(kept(v.equivocation_proofs, evidence_key(v.equivocation_proofs[i])));
        }
        assert forall|key: Seq<char>| #[trigger]
            w.equivocation_index.contains(key) <==> base_keys(w).contains(key) || kept(
                w.equivocation_proofs,
                key,
            ) by {
            if w.equivocation_index.contains(key) {
                let k = w.equivocation_index.index_of(key);
                if k < v.equivocation_index.len() {
                    assert(v.equivocation_index[k] == key);
                    assert(v.equivocation_index.contains(key));
                } else {
                    assert(evidence_key(w.equivocation_proofs[last]) == key);
                }
            }
            if kept(v.equivocation_proofs, key) {
                let i = choose|i: int|
                    0 <= i < v.equivocation_proofs.len() && evidence_key(
                        #[trigger] v.equivocation_proofs[i],
                    ) == key;
                assert(evidence_key(w.equivocation_proofs[i]) == key);
            }
            if kept(w.equivocation_proofs, key) {
                let i = choose|i: int|
                    0 <= i < w.equivocation_proofs.len() && evidence_key(
                        #[trigger] w.equivocation_proofs[i],
                    ) == key;
                if i < last {
                    assert(evidence_key(v.equivocation_proofs[i]) == key);
                }
            }
            if v.equivocation_index.contains(key) {
                let k = v.equivocation_index.index_of(key);
                assert(w.equivocation_index[k] == key);
            }
            assert(w.equivocation_index[v.equivocation_index.len() as int] == new);
        }
    }
}

proof fn lemma_swept_filed(v: SocialEventLogView, e: SocialEventView, n: int)
    requires
        filed(v),
        0 <= n <= v.pending.len(),
    ensures
        filed(swept(v, e, n)),
    decreases n,
{
    if n > 0 {
        lemma_swept_filed(v, e, n - 1);
        lemma_proof_filed(swept(v, e, n - 1), evidence_of(e, v.pending[n - 1]));
    }
}

proof fn lemma_accepted_filed(v: SocialEventLogView, e: SocialEventView, at: u64)
    requires
        filed(v),
    ensures
        filed(accepted(v, e, at)),
{
    let known = SocialEventLogView {
        heads: table::put(v.heads, e.author, ChainHeadView { seq: e.seq, id: e.id }),
        succession: succeeded(v.succession, e),
        ..v
    };
    lemma_swept_filed(known, e, v.pending.len() as int);
}

proof fn lemma_drained_filed(v: SocialEventLogView, author: Seq<char>, fuel: nat)
    requires
        filed(v),
    ensures
        filed(drained(v, author, fuel).1),
    decreases fuel,
{
    if let Some(i) = order::first_where(v.pending, ready(v.heads, author)) {
        if fuel > 0 {
            let e = v.pending[i];
            let left = SocialEventLogView {
                pending: v.pending.remove(i),
                pending_observed_at: v.pending_observed_at.remove(i),
                ..v
            };
            lemma_accepted_filed(left, e, v.pending_observed_at[i]);
            lemma_drained_filed(
                accepted(left, e, v.pending_observed_at[i]),
                author,
                (fuel - 1) as nat,
            );
        }
    }
}

/// Whatever is offered to a log, no piece of its evidence is kept twice.
pub proof fn lemma_append_keeps_evidence_filed(
    v: SocialEventLogView,
    e: SocialEventView,
    observed_at: u64,
)
    requires
        filed(v),
    ensures
        filed(appended(v, e, observed_at).1),
{
    if let Some(i) = order::first_where(v.events, placed_at(e.author, e.seq)) {
        lemma_proof_filed(v, evidence_of(v.events[i], e));
    }
    if let Some(i) = order::first_where(v.pending, placed_at(e.author, e.seq)) {
        lemma_proof_filed(v, evidence_of(v.pending[i], e));
    }
    lemma_accepted_filed(v, e, observed_at);
    let next = accepted(v, e, observed_at);
    lemma_drained_filed(next, e.author, next.pending.len());
}

/// What waits after an event was accepted waited before, and does not clash
/// with it.
proof fn lemma_swept_parted(v: SocialEventLogView, e: SocialEventView, n: int)
    requires
        0 <= n <= v.pending.len(),
        unforked(v.pending),
        forall|k: int| 0 <= k < v.pending.len() ==> (#[trigger] v.pending[k]).id != e.id,
    ensures
        forall|k: int|
            0 <= k < swept(v, e, n).pending.len() ==> !clash(
                e,
                #[trigger] swept(v, e, n).pending[k],
            ) && exists|m: int| 0 <= m < n && v.pending[m] == swept(v, e, n).pending[k],
        unforked(swept(v, e, n).pending),
    decreases n,
{
    if n > 0 {
        lemma_swept_parted(v, e, n - 1);
        let before = swept(v, e, n - 1).pending;
        let now = swept(v, e, n).pending;
        let p = v.pending[n - 1];
        assert forall|k: int| 0 <= k < now.len() implies !clash(e, #[trigger] now[k]) && exists|
            m: int,
        |
            0 <= m < n && v.pending[m] == now[k] by {
            if k < before.len() {
                assert(now[k] == before[k]);
                let m = choose|m: int| 0 <= m < n - 1 && v.pending[m] == before[k];
                assert(v.pending[m] == now[k]);
            } else {
                assert(v.pending[n - 1] == now[k]);
            }
        }
        assert forall|i: int, j: int| 0 <= i < j < now.len() implies !clash(
            #[trigger] now[i],
            #[trigger] now[j],
        ) by {
            assert(now[i] == before[i]);
            if j < before.len() {
                assert(now[j] == before[j]);
            } else {
                let m = choose|m: int| 0 <= m < n - 1 && v.pending[m] == before[i];
                assert(!clash(v.pending[m], v.pending[n - 1]));
            }
        }
    }
}

#[verifier::spinoff_prover]
#[verifier::rlimit(40)]
proof fn lemma_accepted_parted(v: SocialEventLogView, e: SocialEventView, at: u64)
    requires
        clear(v),
        forall|k: int| 0 <= k < v.events.len() ==> !clash(#[trigger] v.events[k], e),
        forall|k: int| 0 <= k < v.pending.len() ==> (#[trigger] v.pending[k]).id != e.id,
    ensures
        clear(accepted(v, e, at)),
{
    let known = SocialEventLogView {
        heads: table::put(v.heads, e.author, ChainHeadView { seq: e.seq, id: e.id }),
        succession: succeeded(v.succession, e),
        ..v
    };
    lemma_swept_parted(known, e, v.pending.len() as int);
    let r = accepted(v, e, at);
    assert forall|i: int, j: int| 0 <= i < j < r.events.len() implies !clash(
        #[trigger] r.events[i],
        #[trigger] r.events[j],
    ) by {
        assert(r.events[i] == v.events[i]);
        if j < v.events.len() {
            assert(r.events[j] == v.events[j]);
        }
    }
    assert forall|i: int, j: int|
        0 <= i < r.events.len() && 0 <= j < r.pending.len() implies !clash(
        #[trigger] r.events[i],
        #[trigger] r.pending[j],
    ) by {
        let m = choose|m: int| 0 <= m < v.pending.len() && known.pending[m] == r.pending[j];
        if i < v.events.len() {
            assert(r.events[i] == v.events[i]);
            assert(!clash(v.events[i], v.pending[m]));
        }
    }
}

proof fn lemma_drained_parted(v: SocialEventLogView, author: Seq<char>, fuel: nat)
    requires
        clear(v),
    ensures
        clear(drained(v, author, fuel).1),
    decreases fuel,
{
    order::lemma_first_where(v.pending, ready(v.heads, author));
    if let Some(i) = order::first_where(v.pending, ready(v.heads, author)) {
        if fuel > 0 {
            let e = v.pending[i];
            lemma_clear_without(v, i);
            let left = SocialEventLogView {
                pending: v.pending.remove(i),
                pending_observed_at: v.pending_observed_at.remove(i),
                ..v
            };
            lemma_accepted_parted(left, e, v.pending_observed_at[i]);
            lemma_drained_parted(
                accepted(left, e, v.pending_observed_at[i]),
                author,
                (fuel - 1) as nat,
            );
        }
    }
}

/// Whatever is offered to a log, no two of its events clash: no identifier and
/// no position of an author is taken twice.
#[verifier::spinoff_prover]
#[verifier::rlimit(40)]
pub proof fn lemma_append_keeps_clear(v: SocialEventLogView, e: SocialEventView, observed_at: u64)
    requires
        clear(v),
    ensures
        clear(appended(v, e, observed_at).1),
{
    order::lemma_first_where(v.events, identified_by(e.id));
    order::lemma_first_where(v.pending, identified_by(e.id));
    order::lemma_first_where(v.events, placed_at(e.author, e.seq));
    order::lemma_first_where(v.pending, placed_at(e.author, e.seq));
    if order::first_where(v.events, identified_by(e.id)) is None && order::first_where(
        v.pending,
        identified_by(e.id),
    ) is None && order::first_where(v.events, placed_at(e.author, e.seq)) is None
        && order::first_where(v.pending, placed_at(e.author, e.seq)) is None {
        assert forall|k: int| 0 <= k < v.events.len() implies !clash(#[trigger] v.events[k], e) by {
            assert(!identified_by(e.id)(v.events[k]));
            assert(!placed_at(e.author, e.seq)(v.events[k]));
        }
        assert forall|k: int| 0 <= k < v.pending.len() implies !clash(#[trigger] v.pending[k], e) by {
            assert(!identified_by(e.id)(v.pending[k]));
            assert(!placed_at(e.author, e.seq)(v.pending[k]));
        }
        lemma_accepted_parted(v, e, observed_at);
        let next = accepted(v, e, observed_at);
        lemma_drained_parted(next, e.author, next.pending.len());
        let waiting = v.pending.push(e);
        assert forall|i: int, j: int| 0 <= i < j < waiting.len() implies !clash(
            #[trigger] waiting[i],
            #[trigger] waiting[j],
        ) by {
            assert(waiting[i] == v.pending[i]);
            if j < v.pending.len() {
                assert(waiting[j] == v.pending[j]);
            }
        }
        assert forall|i: int, j: int|
            0 <= i < v.events.len() && 0 <= j < waiting.len() implies !clash(
            #[trigger] v.events[i],
            #[trigger] waiting[j],
        ) by {
            if j < v.pending.len() {
                assert(waiting[j] == v.pending[j]);
            }
        }
    }
}

/// Taking note of evidence, and letting events wait, concerns nothing else.
proof fn lemma_swept_apart(v: SocialEventLogView, e: SocialEventView, n: int)
    requires
        0 <= n <= v.pending.len(),
        v.pending.len() == v.pending_observed_at.len(),
        waiting_dated(v),
    ensures
        swept(v, e, n) == (SocialEventLogView {
            pending: swept(v, e, n).pending,
            pending_observed_at: swept(v, e, n).pending_observed_at,
            equivocation_proofs: swept(v, e, n).equivocation_proofs,
            equivocation_index: swept(v, e, n).equivocation_index,
            ..v
        }),
        swept(v, e, n).pending.len() == swept(v, e, n).pending_observed_at.len(),
        waiting_dated(swept(v, e, n)),
    decreases n,
{
    if n > 0 {
        lemma_swept_apart(v, e, n - 1);
        let before = swept(v, e, n - 1);
        let now = swept(v, e, n);
        assert(dated(v.pending[n - 1], v.pending_observed_at[n - 1]) is Ok);
        assert forall|i: int| 0 <= i < now.pending.len() implies dated(
            #[trigger] now.pending[i],
            now.pending_observed_at[i],
        ) is Ok by {
            if i < before.pending.len() {
                assert(now.pending[i] == before.pending[i]);
                assert(now.pending_observed_at[i] == before.pending_observed_at[i]);
            }
        }
    }
}

#[verifier::spinoff_prover]
#[verifier::rlimit(40)]
proof fn lemma_accepted_apart(v: SocialEventLogView, e: SocialEventView, at: u64)
    requires
        v.pending.len() == v.pending_observed_at.len(),
        waiting_dated(v),
    ensures
        bare(accepted(v, e, at)) == accepted(bare(v), e, at),
        accepted(bare(v), e, at).pending.len() == 0,
        accepted(v, e, at).compacted_base == v.compacted_base,
        waiting_dated(accepted(v, e, at)),
{
    let known = SocialEventLogView {
        heads: table::put(v.heads, e.author, ChainHeadView { seq: e.seq, id: e.id }),
        succession: succeeded(v.succession, e),
        ..v
    };
    lemma_swept_apart(known, e, v.pending.len() as int);
    let bare_known = SocialEventLogView {
        heads: table::put(v.heads, e.author, ChainHeadView { seq: e.seq, id: e.id }),
        succession: succeeded(v.succession, e),
        ..bare(v)
    };
    assert(swept(bare_known, e, 0) == bare_known);
}

/// Accepting the next event of a chain keeps a log what its events make up.
#[verifier::spinoff_prover]
#[verifier::rlimit(40)]
proof fn lemma_accepted_rebuilt(v: SocialEventLogView, e: SocialEventView, at: u64)
    requires
        sound(v),
        rebuilt(v),
        waiting_dated(v),
        event_valid(e) is Ok,
        dated(e, at) is Ok,
        may_act(v, e.author) is Ok,
        continues(v.heads, e) == Ok::<bool, SocialProtocolErrorView>(true),
        forall|k: int| 0 <= k < v.events.len() ==> !clash(#[trigger] v.events[k], e),
    ensures
        rebuilt(accepted(v, e, at)),
        waiting_dated(accepted(v, e, at)),
{
    let b = bare(v);
    order::lemma_first_where(b.events, identified_by(e.id));
    order::lemma_first_where(b.pending, identified_by(e.id));
    order::lemma_first_where(b.events, placed_at(e.author, e.seq));
    order::lemma_first_where(b.pending, placed_at(e.author, e.seq));
    lemma_accepted_apart(v, e, at);
    let next = accepted(b, e, at);
    order::lemma_first_where(next.pending, ready(next.heads, e.author));
    assert(appended(b, e, at) == received(b, e, at));
    assert(appended(b, e, at) == (Ok::<bool, SocialProtocolErrorView>(true), next));
    let after = accepted(v, e, at);
    lemma_accepted(v, e, at);
    let items = zipped(after.events, after.observed_at);
    assert(items.drop_last() =~= zipped(v.events, v.observed_at));
    assert(items.last() == (e, at));
}

#[verifier::spinoff_prover]
#[verifier::rlimit(40)]
proof fn lemma_drained_rebuilt(v: SocialEventLogView, author: Seq<char>, fuel: nat)
    requires
        sound(v),
        clear(v),
        rebuilt(v),
        waiting_dated(v),
    ensures
        rebuilt(drained(v, author, fuel).1),
        waiting_dated(drained(v, author, fuel).1),
    decreases fuel,
{
    order::lemma_first_where(v.pending, ready(v.heads, author));
    if let Some(i) = order::first_where(v.pending, ready(v.heads, author)) {
        if fuel > 0 {
            let e = v.pending[i];
            let at = v.pending_observed_at[i];
            let left = SocialEventLogView {
                pending: v.pending.remove(i),
                pending_observed_at: v.pending_observed_at.remove(i),
                ..v
            };
            lemma_clear_without(v, i);
            assert(bare(left) == bare(v));
            assert forall|k: int| 0 <= k < left.pending.len() implies dated(
                #[trigger] left.pending[k],
                left.pending_observed_at[k],
            ) is Ok && event_valid(left.pending[k]) is Ok by {
                assert(left.pending[k] == v.pending[skipping(i, k)]);
                assert(left.pending_observed_at[k] == v.pending_observed_at[skipping(i, k)]);
            }
            assert(sound(left));
            assert(dated(v.pending[i], v.pending_observed_at[i]) is Ok);
            if may_act(left, e.author) is Ok {
                lemma_accepted_rebuilt(left, e, at);
                lemma_accepted_parted(left, e, at);
                lemma_accepted(left, e, at);
                lemma_drained_rebuilt(accepted(left, e, at), author, (fuel - 1) as nat);
            }
        }
    }
}

#[verifier::spinoff_prover]
#[verifier::rlimit(40)]
proof fn lemma_append_keeps_rebuilt(v: SocialEventLogView, e: SocialEventView, at: u64)
    requires
        sound(v),
        clear(v),
        rebuilt(v),
        waiting_dated(v),
    ensures
        rebuilt(appended(v, e, at).1),
        waiting_dated(appended(v, e, at).1),
{
    let w = appended(v, e, at).1;
    order::lemma_first_where(v.events, identified_by(e.id));
    order::lemma_first_where(v.pending, identified_by(e.id));
    order::lemma_first_where(v.events, placed_at(e.author, e.seq));
    order::lemma_first_where(v.pending, placed_at(e.author, e.seq));
    if event_valid(e) is Ok && dated(e, at) is Ok && order::first_where(
        v.events,
        identified_by(e.id),
    ) is None && order::first_where(v.pending, identified_by(e.id)) is None && order::first_where(
        v.events,
        placed_at(e.author, e.seq),
    ) is None && order::first_where(v.pending, placed_at(e.author, e.seq)) is None {
        assert(w == received(v, e, at).1);
        assert forall|k: int| 0 <= k < v.events.len() implies !clash(#[trigger] v.events[k], e) by {
            assert(!identified_by(e.id)(v.events[k]));
            assert(!placed_at(e.author, e.seq)(v.events[k]));
        }
        assert forall|k: int| 0 <= k < v.pending.len() implies (#[trigger] v.pending[k]).id
            != e.id by {
            assert(!identified_by(e.id)(v.pending[k]));
        }
        if may_act(v, e.author) is Ok {
            if continues(v.heads, e) == Ok::<bool, SocialProtocolErrorView>(true) {
                let next = accepted(v, e, at);
                lemma_accepted_rebuilt(v, e, at);
                lemma_accepted_parted(v, e, at);
                lemma_accepted(v, e, at);
                lemma_drained_rebuilt(next, e.author, next.pending.len());
            } else {
                assert(bare(w) == bare(v));
                assert forall|i: int| 0 <= i < w.pending.len() implies dated(
                    #[trigger] w.pending[i],
                    w.pending_observed_at[i],
                ) is Ok by {
                    if i < v.pending.len() {
                        assert(w.pending[i] == v.pending[i]);
                        assert(w.pending_observed_at[i] == v.pending_observed_at[i]);
                    }
                }
            }
        }
    } else {
        assert(w.pending == v.pending && w.pending_observed_at == v.pending_observed_at);
        assert(bare(w) == bare(v));
    }
}

/// Whatever is offered to a log, all that holds of every log holds of it
/// afterwards.
#[verifier::spinoff_prover]
#[verifier::rlimit(40)]
pub proof fn lemma_append_keeps_upright(v: SocialEventLogView, e: SocialEventView, observed_at: u64)
    requires
        sound(v),
        upright(v),
    ensures
        upright(appended(v, e, observed_at).1),
{
    reveal(upright);
    lemma_append_keeps_chains(v, e, observed_at);
    lemma_append_keeps_clear(v, e, observed_at);
    lemma_append_keeps_evidence_filed(v, e, observed_at);
    lemma_append_keeps_rebuilt(v, e, observed_at);
}

/// Whatever evidence is offered to a log, all that holds of every log holds of
/// it afterwards.
pub proof fn lemma_proof_keeps_upright(v: SocialEventLogView, p: EquivocationProofView)
    requires
        upright(v),
    ensures
        upright(with_proof(v, p).1),
{
    reveal(upright);
    lemma_proof_filed(v, p);
    assert(bare(with_proof(v, p).1) == bare(v));
}

/// What holds of every log holds of one that is only a base.
pub proof fn lemma_base_upright(base: Option<CompactedEventLogBaseView>)
    ensures
        based(base) matches Ok(v) ==> upright(v),
{
    reveal(upright);
    if let Ok(v) = based(base) {
        assert(zipped(v.events, v.observed_at) =~= Seq::empty());
        assert(bare(v) == v);
        assert(base_keys(v) =~= v.equivocation_index);
    }
}

/// No identifier occurs twice in a log.
pub proof fn lemma_upright_ids(v: SocialEventLogView)
    requires
        upright(v),
    ensures
        ids_distinct(v),
{
    reveal(upright);
    assert forall|i: int, j: int| 0 <= i < j < v.events.len() implies (#[trigger] v.events[i]).id
        != (#[trigger] v.events[j]).id by {
        assert(!clash(v.events[i], v.events[j]));
    }
    assert forall|i: int, j: int| 0 <= i < j < v.pending.len() implies (#[trigger] v.pending[i]).id
        != (#[trigger] v.pending[j]).id by {
        assert(!clash(v.pending[i], v.pending[j]));
    }
    assert forall|i: int, j: int|
        0 <= i < v.events.len() && 0 <= j < v.pending.len() implies (#[trigger] v.events[i]).id != (
    #[trigger] v.pending[j]).id by {
        assert(!clash(v.events[i], v.pending[j]));
    }
}

/// Whether evidence that holds is about two events.
pub open spec fn shows(p: EquivocationProofView, a: SocialEventView, b: SocialEventView) -> bool {
    &&& equivocates(p) is Ok
    &&& p.event_a.id == a.id && p.event_b.id == b.id || p.event_a.id == b.id && p.event_b.id
        == a.id
}

/// A second event by an author for a position that is taken is not accepted, and
/// the log then keeps evidence of the two events that holds, unless its base
/// stands for it.
#[verifier::spinoff_prover]
#[verifier::rlimit(40)]
pub proof fn lemma_fork_becomes_evidence(
    v: SocialEventLogView,
    e: SocialEventView,
    observed_at: u64,
    i: int,
)
    requires
        sound(v),
        upright(v),
        event_valid(e) is Ok,
        dated(e, observed_at) is Ok,
        0 <= i < v.events.len(),
        v.events[i].author == e.author,
        v.events[i].seq == e.seq,
        v.events[i].id != e.id,
        order::first_where(v.events, identified_by(e.id)) is None,
        order::first_where(v.pending, identified_by(e.id)) is None,
    ensures
        ({
            let done = appended(v, e, observed_at);
            &&& done.0 is Ok
            &&& done.1.events == v.events
            &&& done.1.pending == v.pending
            &&& base_keys(v).contains(evidence_key(evidence_of(v.events[i], e))) || exists|k: int|
                0 <= k < done.1.equivocation_proofs.len() && shows(
                    #[trigger] done.1.equivocation_proofs[k],
                    v.events[i],
                    e,
                )
        }),
{
    lemma_append_keeps_upright(v, e, observed_at);
    reveal(upright);
    let w = appended(v, e, observed_at).1;
    order::lemma_first_where(v.events, placed_at(e.author, e.seq));
    let first = order::first_where(v.events, placed_at(e.author, e.seq));
    assert(placed_at(e.author, e.seq)(v.events[i]));
    let f = first->0;
    if f < i {
        assert(clash(v.events[f], v.events[i]));
    } else if i < f {
        assert(!placed_at(e.author, e.seq)(v.events[i]));
    }
    assert(first == Some(i));
    let p = evidence_of(v.events[i], e);
    let key = evidence_key(p);
    assert(event_valid(v.events[i]) is Ok);
    assert(equivocates(p) is Ok);
    assert(w.equivocation_index.contains(key)) by {
        if !v.equivocation_index.contains(key) {
            assert(w.equivocation_index[v.equivocation_index.len() as int] == key);
        }
    }
    if !base_keys(v).contains(key) {
        assert(kept(w.equivocation_proofs, key));
        let k = choose|k: int|
            0 <= k < w.equivocation_proofs.len() && evidence_key(
                #[trigger] w.equivocation_proofs[k],
            ) == key;
        lemma_evidence_key_names_events(w.equivocation_proofs[k], p);
        assert(shows(w.equivocation_proofs[k], v.events[i], e));
    }
}
/// An event that is not valid, or dated too far ahead, is refused and changes
/// nothing. Any other that is taken, offered again, is not new and changes
/// nothing.
pub proof fn lemma_offer_is_answered_once(
    v: SocialEventLogView,
    e: SocialEventView,
    observed_at: u64,
)
    requires
        sound(v),
        upright(v),
    ensures
        ({
            let done = appended(v, e, observed_at);
            &&& event_valid(e) is Err || dated(e, observed_at) is Err ==> done.0 is Err && done.1
                == v
            &&& done.0 is Ok ==> appended(done.1, e, observed_at) == (
                Ok::<bool, SocialProtocolErrorView>(false),
                done.1,
            )
        }),
{
    if appended(v, e, observed_at).0 is Ok {
        lemma_upright_ids(v);
        lemma_append_is_idempotent(v, e, observed_at, observed_at);
    }
}

} // verus!
