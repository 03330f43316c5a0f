//! What the log and the memory promise: which events they take, how a chain is
//! continued, what an old record becomes, and who can read an envelope.
use crate::confidential::{
    envelope_aad, envelope_key, envelope_key_id, found_in, listed_bytes, sealing, secret_matches,
    well_formed, ConfidentialEnvelopeErrorView, EncryptedSocialEnvelopeView,
};
use crate::event_log::{
    accepted, appended, by_replay, continues, dated, drained, identified_by, latest, legacy_head,
    legacy_heads, merged, migrated_log, observed, placed_at, ready, received, replayed, swept,
    with_proof, ChainHeadView, SocialEventLogView, MAX_FUTURE_TIMESTAMP_SKEW_SECS,
};
use crate::facts::IdentityRecoveryApprovalView;
use crate::identity;
use crate::legacy::{
    as_chain_event, by_author, legacy_content, legacy_items, legacy_valid, migrated, unchained,
    LegacySocialEventView, MigrationView,
};
use crate::memory::{
    all_taken, checkpoint_of, current, framed, framed_all, ingested, little_endian, next_place,
    remembered, restored, signed_chain, taken, ReceivedView, SocialMemoryView,
    MAX_SOCIAL_EVENT_JSON_BYTES,
};
use crate::order;
use crate::outside;
use crate::protocol::{
    claims_own, content_hash, equivocates, event_content, event_valid, evidence_key,
    EquivocationProofView, SocialEventKindView, SocialEventView, SocialProtocolErrorView,
};
use crate::recovery::{first_reason, recovery, with_recovery, SuccessionView};
use crate::society::{applied, SocietyView};
use crate::table;
use crate::wire::{self, WireView};
use vstd::prelude::*;
use vstd::string::*;
use vstd::utf8::encode_utf8;

verus! {

/// An event may be dated ahead of its observation by the allowed skew and no
/// further.
pub proof fn lemma_skew_is_allowed(e: SocialEventView, observed_at: u64)
    ensures
        dated(e, observed_at) is Ok <==> e.timestamp <= observed_at
            + MAX_FUTURE_TIMESTAMP_SKEW_SECS,
        e.timestamp <= observed_at ==> dated(e, observed_at) is Ok,
{
}

/// Whether an event is the next of its author's chain: the first has position
/// zero and no predecessor, any other comes right after the head and names it.
pub open spec fn is_next(heads: Seq<(Seq<char>, ChainHeadView)>, e: SocialEventView) -> bool {
    match table::find(heads, e.author) {
        None => e.seq == 0 && e.prev is None,
        Some(head) => e.seq == head.seq + 1 && e.prev == Some(head.id),
    }
}

/// An event continues a chain that can still grow exactly when it is the next; a
/// first event that names a predecessor is refused.
pub proof fn lemma_next_event_continues(
    heads: Seq<(Seq<char>, ChainHeadView)>,
    e: SocialEventView,
)
    requires
        table::find(heads, e.author) matches Some(head) ==> head.seq < u64::MAX,
    ensures
        continues(heads, e) == Ok::<bool, SocialProtocolErrorView>(true) <==> is_next(heads, e),
        continues(heads, e) is Err <==> table::find(heads, e.author) is None && e.seq == 0
            && e.prev is Some,
{
}

/// Whether an event stands free in a log: none of its events, waiting ones among
/// them, has its identifier or its place.
pub open spec fn stands_free(v: SocialEventLogView, e: SocialEventView) -> bool {
    &&& forall|i: int|
        0 <= i < v.events.len() ==> (#[trigger] v.events[i]).id != e.id && !(v.events[i].author
            == e.author && v.events[i].seq == e.seq)
    &&& forall|i: int|
        0 <= i < v.pending.len() ==> (#[trigger] v.pending[i]).id != e.id && !(v.pending[i].author
            == e.author && v.pending[i].seq == e.seq)
}

#[verifier::spinoff_prover]
#[verifier::rlimit(60)]
proof fn lemma_free_is_received(v: SocialEventLogView, e: SocialEventView, observed_at: u64)
    requires
        event_valid(e) is Ok,
        dated(e, observed_at) is Ok,
        stands_free(v, e),
    ensures
        appended(v, e, observed_at) == received(v, e, observed_at),
{
    order::lemma_first_where(v.events, identified_by(e.id));
    order::lemma_first_where(v.pending, identified_by(e.id));
    order::lemma_first_where(v.events, placed_at(e.author, e.seq));
    order::lemma_first_where(v.pending, placed_at(e.author, e.seq));
}

proof fn lemma_nothing_swept(v: SocialEventLogView, e: SocialEventView, n: int)
    requires
        0 <= n <= v.pending.len(),
        v.pending.len() == v.pending_observed_at.len(),
        forall|i: int|
            0 <= i < v.pending.len() ==> !((#[trigger] v.pending[i]).author == e.author
                && v.pending[i].seq == e.seq),
    ensures
        swept(v, e, n) == (SocialEventLogView {
            pending: v.pending.subrange(0, n),
            pending_observed_at: v.pending_observed_at.subrange(0, n),
            ..v
        }),
    decreases n,
{
    if n == 0 {
        assert(v.pending.subrange(0, 0) =~= Seq::empty());
        assert(v.pending_observed_at.subrange(0, 0) =~= Seq::empty());
    } else {
        lemma_nothing_swept(v, e, n - 1);
        assert(v.pending[n - 1] == v.pending[n - 1]);
        assert(v.pending.subrange(0, n) =~= v.pending.subrange(0, n - 1).push(v.pending[n - 1]));
        assert(v.pending_observed_at.subrange(0, n) =~= v.pending_observed_at.subrange(
            0,
            n - 1,
        ).push(v.pending_observed_at[n - 1]));
    }
}

/// A valid event that is dated in time, stands free and is the next of an author
/// who may act is taken at once: it becomes the last event and the head of its
/// chain, and the chains of others stay as they are.
#[verifier::spinoff_prover]
#[verifier::rlimit(40)]
pub proof fn lemma_next_event_is_taken(
    v: SocialEventLogView,
    e: SocialEventView,
    observed_at: u64,
    other: Seq<char>,
)
    requires
        v.pending.len() == v.pending_observed_at.len(),
        table::distinct(v.heads),
        table::find(v.heads, e.author) matches Some(head) ==> head.seq < u64::MAX,
        event_valid(e) is Ok,
        e.timestamp <= observed_at + MAX_FUTURE_TIMESTAMP_SKEW_SECS,
        stands_free(v, e),
        table::find(v.succession.rotations, e.author) is None,
        is_next(v.heads, e),
        forall|i: int| 0 <= i < v.pending.len() ==> (#[trigger] v.pending[i]).author != e.author,
    ensures
        ({
            let (answer, after) = appended(v, e, observed_at);
            &&& answer == Ok::<bool, SocialProtocolErrorView>(true)
            &&& after.events == v.events.push(e)
            &&& after.observed_at == v.observed_at.push(observed_at)
            &&& after.pending == v.pending
            &&& after.equivocation_proofs == v.equivocation_proofs
            &&& table::find(after.heads, e.author) == Some(ChainHeadView { seq: e.seq, id: e.id })
            &&& other != e.author ==> table::find(after.heads, other) == table::find(
                v.heads,
                other,
            )
        }),
{
    lemma_free_is_received(v, e, observed_at);
    lemma_next_event_continues(v.heads, e);
    let head = ChainHeadView { seq: e.seq, id: e.id };
    let known = SocialEventLogView {
        heads: table::put(v.heads, e.author, head),
        succession: crate::event_log::succeeded(v.succession, e),
        ..v
    };
    lemma_nothing_swept(known, e, v.pending.len() as int);
    assert(v.pending.subrange(0, v.pending.len() as int) =~= v.pending);
    assert(v.pending_observed_at.subrange(0, v.pending.len() as int) =~= v.pending_observed_at);
    let next = accepted(v, e, observed_at);
    assert(next.pending == v.pending);
    order::lemma_first_where(next.pending, ready(next.heads, e.author));
    assert(drained(next, e.author, next.pending.len()) == (Ok::<(), SocialProtocolErrorView>(()), next));
    table::lemma_put_find(v.heads, e.author, head, other);
}

/// A valid event that comes before its predecessor waits: it is new, but neither
/// the events nor the chains change.
#[verifier::spinoff_prover]
#[verifier::rlimit(60)]
pub proof fn lemma_early_event_waits(v: SocialEventLogView, e: SocialEventView, observed_at: u64)
    requires
        table::find(v.heads, e.author) matches Some(head) ==> head.seq < u64::MAX,
        event_valid(e) is Ok,
        e.timestamp <= observed_at + MAX_FUTURE_TIMESTAMP_SKEW_SECS,
        stands_free(v, e),
        table::find(v.succession.rotations, e.author) is None,
        !is_next(v.heads, e),
        !(table::find(v.heads, e.author) is None && e.seq == 0),
    ensures
        appended(v, e, observed_at) == (
            Ok::<bool, SocialProtocolErrorView>(true),
            (SocialEventLogView {
                pending: v.pending.push(e),
                pending_observed_at: v.pending_observed_at.push(observed_at),
                ..v
            }),
        ),
{
    lemma_free_is_received(v, e, observed_at);
    lemma_next_event_continues(v.heads, e);
}

/// What is invalid, dated too far ahead or signed by an identity that was handed
/// over is refused, and the log stays as it was.
#[verifier::spinoff_prover]
#[verifier::rlimit(60)]
pub proof fn lemma_bad_event_is_refused(
    v: SocialEventLogView,
    e: SocialEventView,
    observed_at: u64,
)
    ensures
        event_valid(e) is Err || e.timestamp > observed_at + MAX_FUTURE_TIMESTAMP_SKEW_SECS || (
        stands_free(v, e) && table::find(v.succession.rotations, e.author) is Some) ==> appended(
            v,
            e,
            observed_at,
        ).0 is Err && appended(v, e, observed_at).1 == v,
{
    if event_valid(e) is Ok && dated(e, observed_at) is Ok && stands_free(v, e) {
        lemma_free_is_received(v, e, observed_at);
    }
}

/// Evidence that does not hold is refused; evidence that is known is not new; any
/// other is kept behind the rest.
#[verifier::spinoff_prover]
#[verifier::rlimit(60)]
pub proof fn lemma_new_evidence_is_kept(v: SocialEventLogView, p: EquivocationProofView)
    ensures
        equivocates(p) is Err <==> with_proof(v, p).0 is Err,
        equivocates(p) is Err ==> with_proof(v, p).1 == v,
        equivocates(p) is Ok && v.equivocation_index.contains(evidence_key(p)) ==> with_proof(v, p)
            == (Ok::<bool, SocialProtocolErrorView>(false), v),
        equivocates(p) is Ok && !v.equivocation_index.contains(evidence_key(p)) ==> with_proof(
            v,
            p,
        ).0 == Ok::<bool, SocialProtocolErrorView>(true) && with_proof(v, p).1.equivocation_proofs
            == v.equivocation_proofs.push(p) && with_proof(v, p).1.equivocation_index.contains(
            evidence_key(p),
        ),
{
    let more = v.equivocation_index.push(evidence_key(p));
    assert(more[v.equivocation_index.len() as int] == evidence_key(p));
}

/// The next event of an author comes right after the head and names it; of one
/// who has said nothing it is the first.
pub proof fn lemma_next_place_continues(v: SocialEventLogView, e: SocialEventView)
    requires
        table::find(v.heads, e.author) matches Some(head) ==> head.seq < u64::MAX,
    ensures
        is_next(v.heads, e) <==> (e.seq, e.prev) == next_place(v, e.author),
{
}

/// Events signed one after the other make up a chain: each is the author's, says
/// what was given at the time that was given, comes right after the one before and
/// names it, and the first stands at the start.
pub proof fn lemma_signed_events_are_chained(
    seed: Seq<u8>,
    author: Seq<char>,
    start: (u64, Option<Seq<char>>),
    items: Seq<(u64, SocialEventKindView)>,
    i: int,
)
    requires
        0 <= i < items.len(),
        start.0 + items.len() < u64::MAX,
    ensures
        ({
            let all = signed_chain(seed, author, start, items);
            &&& all.len() == items.len()
            &&& all[i].author == author
            &&& all[i].timestamp == items[i].0
            &&& all[i].kind == items[i].1
            &&& all[i].seq == start.0 + i
            &&& all[i].prev == if i == 0 {
                start.1
            } else {
                Some(all[i - 1].id)
            }
            &&& all[i].id == content_hash(event_content(all[i]))
            &&& all[i].signature == Some(outside::signature_of(seed, event_content(all[i])))
        }),
    decreases items.len(),
{
    let front = items.drop_last();
    let before = signed_chain(seed, author, start, front);
    let all = signed_chain(seed, author, start, items);
    if front.len() > 0 {
        lemma_signed_events_are_chained(seed, author, start, front, front.len() - 1);
    }
    if i < front.len() {
        lemma_signed_events_are_chained(seed, author, start, front, i);
        assert(all[i] == before[i]);
        if i > 0 {
            assert(all[i - 1] == before[i - 1]);
        }
        assert(front[i] == items[i]);
    } else if front.len() > 0 {
        assert(all[i - 1] == before[i - 1]);
        assert(before.last() == before[before.len() - 1]);
    }
}

/// What is received is taken exactly when it is small enough and can be read.
pub proof fn lemma_small_event_is_taken(r: ReceivedView)
    ensures
        taken(r) is Ok <==> r.size <= MAX_SOCIAL_EVENT_JSON_BYTES && r.decoded is Ok,
        taken(r) matches Ok(e) ==> r.decoded == Ok::<SocialEventView, Seq<char>>(e),
        r.size > MAX_SOCIAL_EVENT_JSON_BYTES ==> taken(r) == Err::<
            SocialEventView,
            SocialProtocolErrorView,
        >(
            SocialProtocolErrorView::EventTooLarge {
                actual: r.size,
                max: MAX_SOCIAL_EVENT_JSON_BYTES,
            },
        ),
{
}

/// After a new event the society is the one that the log describes; after one
/// that is known or refused the society is as it was.
pub proof fn lemma_memory_follows_log(v: SocialMemoryView, e: SocialEventView, now: u64)
    ensures
        ({
            let (answer, after) = ingested(v, e, now);
            &&& answer == appended(v.log, e, now).0
            &&& after.log == appended(v.log, e, now).1
            &&& answer == Ok::<bool, SocialProtocolErrorView>(true) ==> current(after)
            &&& answer != Ok::<bool, SocialProtocolErrorView>(true) ==> after.society == v.society
        }),
{
}

/// The checkpoint of a log belongs to that log.
pub proof fn lemma_checkpoint_belongs_to_log(v: SocialEventLogView, society: SocietyView)
    requires
        v.events.len() <= usize::MAX,
        v.equivocation_proofs.len() <= usize::MAX,
    ensures
        restored(v, checkpoint_of(v, society)) == Some(society),
{
    assert(crate::event_log::after(v.events, v.events.len() as int) =~= Seq::empty());
    assert(order::sort_by_key(
        Seq::<SocialEventView>::empty(),
        crate::event_log::by_replay(),
    ) =~= Seq::empty()) by {
        order::lemma_sort_by_key(
            Seq::<SocialEventView>::empty(),
            crate::event_log::by_replay(),
        );
    }
    assert(crate::event_log::after(
        v.equivocation_proofs,
        v.equivocation_proofs.len() as int,
    ) =~= Seq::empty());
}

/// A checkpoint of another version, or of more than a log holds, does not belong
/// to the log.
pub proof fn lemma_foreign_checkpoint_is_dropped(
    v: SocialEventLogView,
    c: crate::memory::SocialMemoryCheckpointView,
)
    ensures
        c.version != 1 || c.replayed_events > v.events.len() || c.replayed_equivocation_proofs
            > v.equivocation_proofs.len() ==> restored(v, c) is None,
        restored(v, c) is Some ==> c.log_digest == crate::memory::digest(
            v,
            c.replayed_events as int,
            c.replayed_equivocation_proofs as int,
        ),
{
}

/// An old event counts exactly when its identifier is the hash of its content and
/// its author signed that content.
pub proof fn lemma_old_event_counts(v: LegacySocialEventView)
    ensures
        legacy_valid(v) is Ok <==> v.id == content_hash(
            legacy_content(v.author, v.timestamp, v.kind),
        ) && (v.signature matches Some(s) && identity::did_accepts(
            v.author,
            legacy_content(v.author, v.timestamp, v.kind),
            s,
        ) is Ok),
{
}

/// An old event is applied exactly when it counts, is new, and claims what is its
/// author's to claim. It is counted once: as applied, as a duplicate, or as
/// unsupported; and only an applied one changes the society.
pub proof fn lemma_old_event_is_counted_once(m: MigrationView, e: LegacySocialEventView)
    requires
        m.report.migrated_events < usize::MAX,
        m.report.duplicate_events < usize::MAX,
        m.report.unsupported_events < usize::MAX,
    ensures
        ({
            let after = migrated(m, e);
            let good = legacy_valid(e) is Ok;
            let known = m.seen.contains(e.id);
            let own = claims_own(e.author, e.kind) is Ok;
            let takes = good && !known && own;
            let repeats = good && known;
            &&& takes ==> after.report.migrated_events == m.report.migrated_events + 1
                && after.report.duplicate_events == m.report.duplicate_events
                && after.report.unsupported_events == m.report.unsupported_events
            &&& repeats ==> after.report.migrated_events == m.report.migrated_events
                && after.report.duplicate_events == m.report.duplicate_events + 1
                && after.report.unsupported_events == m.report.unsupported_events
            &&& !takes && !repeats ==> after.report.migrated_events == m.report.migrated_events
                && after.report.duplicate_events == m.report.duplicate_events
                && after.report.unsupported_events == m.report.unsupported_events + 1
            &&& takes ==> after.society == applied(m.society, as_chain_event(e))
                && after.authors.contains(e.author)
            &&& !takes ==> after.society == m.society && after.authors == m.authors
            &&& good ==> after.seen.contains(e.id)
            &&& !good ==> after.seen == m.seen
        }),
{
    let more = m.seen.push(e.id);
    assert(more[m.seen.len() as int] == e.id);
    table::lemma_joined_contains(m.authors, e.author, e.author);
}

/// An old event that comes again is a duplicate.
pub proof fn lemma_repeated_old_event_is_duplicate(m: MigrationView, e: LegacySocialEventView)
    requires
        legacy_valid(e) is Ok,
        m.report.duplicate_events < usize::MAX - 1,
    ensures
        ({
            let once = migrated(m, e);
            let twice = migrated(once, e);
            &&& twice.report.duplicate_events == once.report.duplicate_events + 1
            &&& twice.society == once.society
        }),
{
    let more = m.seen.push(e.id);
    assert(more[m.seen.len() as int] == e.id);
}

/// The old events in a document are those of a list, of the list under `events`,
/// or of the one under `events` of `log`; any other document is one event.
pub proof fn lemma_old_events_in_document(w: WireView, items: Seq<WireView>)
    ensures
        w == WireView::List(items) ==> legacy_items(w) == items,
        !(w is List) && wire::field(w, "events"@) == Some(WireView::List(items)) ==> legacy_items(w)
            == items,
        !(w is List) && !(wire::field(w, "events"@) matches Some(WireView::List(_))) && (wire::field(
            w,
            "log"@,
        ) matches Some(log) && wire::field(log, "events"@) == Some(WireView::List(items)))
            ==> legacy_items(w) == items,
        !(w is List) && !(wire::field(w, "events"@) matches Some(WireView::List(_))) && wire::field(
            w,
            "log"@,
        ) is None ==> legacy_items(w) == seq![w],
{
}

/// An envelope is well formed exactly when it has the one version, recipients, a
/// nonce of its size and a ciphertext that can be read.
pub proof fn lemma_envelope_form(v: EncryptedSocialEnvelopeView)
    ensures
        well_formed(v) is Ok <==> v.version == 1 && v.recipients.len() > 0 && (outside::hex_parse(
            encode_utf8(v.nonce_hex),
        ) matches Ok(nonce) && nonce.len() == 12) && outside::hex_parse(
            encode_utf8(v.ciphertext_hex),
        ) is Ok,
{
}

/// Nobody but a recipient who holds the secret reads an envelope.
pub proof fn lemma_only_recipients_read(
    v: EncryptedSocialEnvelopeView,
    who: Seq<char>,
    secret: Seq<u8>,
)
    ensures
        found_in(v, who, secret) is Ok ==> v.recipients.contains(who) && secret.len() > 0
            && secret_matches(v, secret) == Ok::<bool, ConfidentialEnvelopeErrorView>(true),
        well_formed(v) is Ok && secret.len() > 0 && !v.recipients.contains(who) ==> found_in(
            v,
            who,
            secret,
        ) == Err::<Seq<u8>, ConfidentialEnvelopeErrorView>(
            ConfidentialEnvelopeErrorView::RecipientNotAllowed(who),
        ),
{
}

/// What one recipient finds in an envelope, every other finds too.
pub proof fn lemma_recipients_read_alike(
    v: EncryptedSocialEnvelopeView,
    one: Seq<char>,
    other: Seq<char>,
    secret: Seq<u8>,
)
    requires
        v.recipients.contains(one),
        v.recipients.contains(other),
    ensures
        found_in(v, one, secret) == found_in(v, other, secret),
{
}

/// An envelope is sealed only for someone and under a secret, and it is for those
/// who were named and nobody else.
pub proof fn lemma_sealed_for_those_named(
    recipients: Seq<Seq<char>>,
    secret: Seq<u8>,
    nonce: Seq<u8>,
    payload: Seq<u8>,
    who: Seq<char>,
)
    ensures
        sealing(recipients, secret, nonce, payload) matches Ok(v) ==> recipients.len() > 0
            && secret.len() > 0 && v.version == 1 && (v.recipients.contains(who)
            <==> recipients.contains(who)) && v.nonce_hex == outside::hex_text(nonce),
        recipients.len() == 0 ==> sealing(recipients, secret, nonce, payload) is Err,
        secret.len() == 0 ==> sealing(recipients, secret, nonce, payload) is Err,
{
    crate::confidential::lemma_addressed(recipients, who);
}

/// The latest of several times is one of them, and none is later.
pub proof fn lemma_latest_is_last(times: Seq<u64>)
    ensures
        latest(times) is None <==> times.len() == 0,
        latest(times) matches Some(t) ==> times.contains(t) && forall|i: int|
            0 <= i < times.len() ==> #[trigger] times[i] <= t,
    decreases times.len(),
{
    if times.len() > 0 {
        let front = times.drop_last();
        lemma_latest_is_last(front);
        let t = latest(times)->Some_0;
        assert(times[times.len() - 1] == times.last());
        if front.contains(t) {
            assert(times[front.index_of(t)] == t);
        }
        assert forall|i: int| 0 <= i < times.len() implies #[trigger] times[i] <= t by {
            if i < front.len() {
                assert(front[i] == times[i]);
            }
        }
    }
}

/// Merging counts the events that were new, at most as many as there are; the
/// first that is refused ends it, and the log stays as it was then.
pub proof fn lemma_merge_counts_new_events(
    v: SocialEventLogView,
    events: Seq<SocialEventView>,
    times: Seq<u64>,
    e: SocialEventView,
    now: u64,
)
    requires
        events.len() == times.len(),
    ensures
        merged(v, Seq::empty(), Seq::empty()) == (Ok::<int, SocialProtocolErrorView>(0), v),
        ({
            let before = merged(v, events, times);
            let after = merged(v, events.push(e), times.push(now));
            let step = appended(before.1, e, now);
            &&& before.0 is Err ==> after == before
            &&& before.0 matches Ok(n) ==> {
                &&& 0 <= n <= events.len()
                &&& step.0 is Err ==> after.0 is Err
                &&& step.0 == Ok::<bool, SocialProtocolErrorView>(true) ==> after.0 == Ok::<
                    int,
                    SocialProtocolErrorView,
                >(n + 1)
                &&& step.0 == Ok::<bool, SocialProtocolErrorView>(false) ==> after.0 == Ok::<
                    int,
                    SocialProtocolErrorView,
                >(n)
                &&& after.1 == step.1
            }
        }),
{
    assert(events.push(e).drop_last() =~= events);
    assert(times.push(now).drop_last() =~= times);
    lemma_merge_counts_within(v, events, times);
}

proof fn lemma_merge_counts_within(
    v: SocialEventLogView,
    events: Seq<SocialEventView>,
    times: Seq<u64>,
)
    ensures
        merged(v, events, times).0 matches Ok(n) ==> 0 <= n <= events.len(),
    decreases events.len(),
{
    if events.len() > 0 {
        lemma_merge_counts_within(v, events.drop_last(), times.drop_last());
    }
}

/// Every event has its own time of observation where that is known, and the
/// given time where it is not.
pub proof fn lemma_missing_times_are_filled(
    events: Seq<SocialEventView>,
    times: Seq<u64>,
    fallback: u64,
    i: int,
)
    requires
        0 <= i < events.len(),
    ensures
        observed(events, times, fallback).len() == events.len(),
        observed(events, times, fallback)[i].0 == events[i],
        i < times.len() ==> observed(events, times, fallback)[i].1 == times[i],
        i >= times.len() ==> observed(events, times, fallback)[i].1 == fallback,
{
}

/// Replay goes by position: an event with a smaller position is applied before one
/// with a greater.
pub proof fn lemma_replay_goes_by_position(events: Seq<SocialEventView>, i: int, j: int)
    requires
        0 <= i < j < events.len(),
    ensures
        ({
            let all = order::sort_by_key(events, by_replay());
            &&& all.len() == events.len()
            &&& all.to_multiset() == events.to_multiset()
            &&& all[i].seq <= all[j].seq
            &&& all[i].seq == all[j].seq ==> crate::text::text_le(all[i].id, all[j].id)
        }),
{
    let all = order::sort_by_key(events, by_replay());
    order::lemma_sort_by_key(events, by_replay());
    let (x, y) = (by_replay()(all[i]), by_replay()(all[j]));
    assert(order::key_le(x, y));
    order::lemma_key_le_parts(x, y);
    if all[i].seq == all[j].seq {
        order::lemma_key_le_parts(x.drop_first(), y.drop_first());
    }
}

/// What is replayed is applied one after the other, and evidence after that.
pub proof fn lemma_replay_applies_each(
    s: SocietyView,
    events: Seq<SocialEventView>,
    e: SocialEventView,
)
    ensures
        replayed(s, Seq::empty()) == s,
        replayed(s, events.push(e)) == applied(replayed(s, events), e),
{
    assert(events.push(e).drop_last() =~= events);
}

/// The reason of a recovery is the first that is given; there is none where no
/// vote gives one.
pub proof fn lemma_first_reason_is_given(votes: Seq<IdentityRecoveryApprovalView>)
    ensures
        first_reason(votes) is None <==> forall|i: int|
            0 <= i < votes.len() ==> (#[trigger] votes[i]).reason is None,
        first_reason(votes) matches Some(reason) ==> exists|k: int|
            0 <= k < votes.len() && (#[trigger] votes[k]).reason == Some(reason) && forall|i: int|
                0 <= i < k ==> (#[trigger] votes[i]).reason is None,
    decreases votes.len(),
{
    if votes.len() > 0 {
        let front = votes.drop_last();
        lemma_first_reason_is_given(front);
        match first_reason(front) {
            Some(reason) => {
                let k = choose|k: int|
                    0 <= k < front.len() && (#[trigger] front[k]).reason == Some(reason) && forall|
                        i: int,
                    |
                        0 <= i < k ==> (#[trigger] front[i]).reason is None;
                assert(votes[k].reason == Some(reason));
                assert forall|i: int| 0 <= i < k implies (#[trigger] votes[i]).reason is None by {
                    assert(front[i] == votes[i]);
                }
            },
            None => {
                assert forall|i: int| 0 <= i < front.len() implies (
                #[trigger] votes[i]).reason is None by {
                    assert(front[i] == votes[i]);
                }
                let n = votes.len() - 1;
                if votes[n].reason is Some {
                    assert(votes[n].reason == first_reason(votes));
                }
            },
        }
    }
}

/// Once guardians have brought a recovery about, its successor is the one who acts
/// for the identity.
pub proof fn lemma_recovered_identity_acts(v: SuccessionView, did: Seq<char>)
    requires
        table::distinct(v.rotations),
        recovery(v, did) is Some,
        recovery(v, did)->Some_0.previous == did,
    ensures
        table::find(with_recovery(v, did).rotations, did) == Some(recovery(v, did)->Some_0.next),
        with_recovery(v, did).policies == v.policies,
        with_recovery(v, did).approvals == v.approvals,
{
    let r = recovery(v, did)->Some_0;
    table::lemma_put_find(v.rotations, did, r.next, did);
}

/// Old events are taken author by author, each from the earliest on.
pub proof fn lemma_old_events_go_by_author(events: Seq<LegacySocialEventView>, i: int, j: int)
    requires
        0 <= i < j < events.len(),
    ensures
        ({
            let all = order::sort_by_key(events, by_author());
            &&& all.len() == events.len()
            &&& all.to_multiset() == events.to_multiset()
            &&& crate::text::text_le(all[i].author, all[j].author)
            &&& all[i].author == all[j].author ==> all[i].timestamp <= all[j].timestamp
            &&& all[i].author == all[j].author && all[i].timestamp == all[j].timestamp
                ==> crate::text::text_le(all[i].id, all[j].id)
        }),
{
    let all = order::sort_by_key(events, by_author());
    order::lemma_sort_by_key(events, by_author());
    let (x, y) = (by_author()(all[i]), by_author()(all[j]));
    assert(order::key_le(x, y));
    order::lemma_key_le_parts(x, y);
    if all[i].author == all[j].author {
        let (x, y) = (x.drop_first(), y.drop_first());
        order::lemma_key_le_parts(x, y);
        if all[i].timestamp == all[j].timestamp {
            order::lemma_key_le_parts(x.drop_first(), y.drop_first());
        }
    }
}

/// An entry is an old event exactly when it has no place in a chain, neither a
/// position nor a predecessor.
pub proof fn lemma_old_entries_have_no_place(w: WireView)
    ensures
        unchained()(w) <==> wire::field(w, "seq"@) is None && wire::field(w, "prev"@) is None,
{
}

/// An old event becomes the first of a chain: it says the same, by the same author
/// at the same time.
pub proof fn lemma_old_event_keeps_its_word(v: LegacySocialEventView)
    ensures
        ({
            let e = as_chain_event(v);
            &&& e.id == v.id
            &&& e.author == v.author
            &&& e.timestamp == v.timestamp
            &&& e.kind == v.kind
            &&& e.signature == v.signature
            &&& e.seq == 0
            &&& e.prev is None
        }),
{
}

/// The log that old events become holds no event of its own, but a base that
/// stands for them: their society, their number, and a chain for each author, which
/// goes on from position one.
pub proof fn lemma_old_events_become_base(
    society: SocietyView,
    authors: Seq<Seq<char>>,
    event_count: usize,
    author: Seq<char>,
)
    ensures
        ({
            let log = migrated_log(society, authors, event_count);
            &&& log.events.len() == 0 && log.pending.len() == 0
            &&& log.equivocation_proofs.len() == 0
            &&& log.compacted_base matches Some(base) && base.society == society
                && base.event_count == event_count && base.heads == log.heads
            &&& log.succession == society.succession
            &&& table::find(log.heads, author) is Some <==> authors.contains(author)
            &&& table::find(log.heads, author) matches Some(head) ==> head.seq == 0
            &&& authors.contains(author) ==> next_place(log, author).0 == 1
            &&& !authors.contains(author) ==> next_place(log, author) == (
                0u64,
                None::<Seq<char>>,
            )
        }),
{
    lemma_old_heads(authors, author);
}

proof fn lemma_old_heads(authors: Seq<Seq<char>>, author: Seq<char>)
    ensures
        table::distinct(legacy_heads(authors)),
        table::find(legacy_heads(authors), author) == if authors.contains(author) {
            Some(legacy_head(author))
        } else {
            None
        },
    decreases authors.len(),
{
    if authors.len() > 0 {
        let front = authors.drop_last();
        lemma_old_heads(front, author);
        table::lemma_put_find(
            legacy_heads(front),
            authors.last(),
            legacy_head(authors.last()),
            author,
        );
        if front.contains(author) {
            assert(authors[front.index_of(author)] == author);
        }
        if authors.contains(author) && !front.contains(author) {
            let i = authors.index_of(author);
            if i < front.len() {
                assert(front[i] == author);
            }
        }
        assert(authors[authors.len() - 1] == authors.last());
    }
}

/// A memory holds the log that it was given; without a checkpoint that belongs to
/// it the society is the one that the log describes, and the checkpoint is made
/// anew.
pub proof fn lemma_memory_holds_log(
    v: SocialEventLogView,
    c: Option<crate::memory::SocialMemoryCheckpointView>,
)
    ensures
        remembered(v, c).log == v,
        c is None ==> current(remembered(v, c)),
        c matches Some(checkpoint) ==> (restored(v, checkpoint) is None ==> current(
            remembered(v, c),
        )),
        c matches Some(checkpoint) ==> (restored(v, checkpoint) matches Some(s) ==> remembered(
            v,
            c,
        ).society == s && remembered(v, c).checkpoint == c),
        remembered(v, c).checkpoint is Some,
{
}

/// Of several received events each is answered for itself: one that is too large
/// or cannot be read is answered with the error and leaves the log as it was, any
/// other as if it had come alone.
pub proof fn lemma_received_are_answered_each(
    v: SocialEventLogView,
    all: Seq<ReceivedView>,
    times: Seq<u64>,
    r: ReceivedView,
    now: u64,
)
    requires
        all.len() == times.len(),
    ensures
        ({
            let before = all_taken(v, all, times);
            let after = all_taken(v, all.push(r), times.push(now));
            &&& before.0.len() == all.len()
            &&& taken(r) matches Err(e) ==> after.1 == before.1 && after.0 == before.0.push(Err(e))
            &&& taken(r) matches Ok(e) ==> after.1 == appended(before.1, e, now).1 && after.0
                == before.0.push(appended(before.1, e, now).0)
        }),
{
    assert(all.push(r).drop_last() =~= all);
    assert(times.push(now).drop_last() =~= times);
    lemma_all_answered(v, all, times);
}

proof fn lemma_all_answered(v: SocialEventLogView, all: Seq<ReceivedView>, times: Seq<u64>)
    ensures
        all_taken(v, all, times).0.len() == all.len(),
    decreases all.len(),
{
    if all.len() > 0 {
        lemma_all_answered(v, all.drop_last(), times.drop_last());
    }
}

#[verifier::opaque]
spec fn conclusive(p: EquivocationProofView) -> bool {
    equivocates(p) is Ok
}

#[verifier::spinoff_prover]
#[verifier::rlimit(60)]
proof fn lemma_proof_is_indexed(v: SocialEventLogView, p: EquivocationProofView, key: Seq<char>)
    ensures
        conclusive(p) ==> with_proof(v, p).1.equivocation_index.contains(evidence_key(p)),
        v.equivocation_index.contains(key) ==> with_proof(v, p).1.equivocation_index.contains(key),
        with_proof(v, p).1.pending == v.pending,
        with_proof(v, p).1.events == v.events,
{
    reveal(conclusive);
    let more = v.equivocation_index.push(evidence_key(p));
    assert(more[v.equivocation_index.len() as int] == evidence_key(p));
    if v.equivocation_index.contains(key) {
        assert(more[v.equivocation_index.index_of(key)] == key);
    }
}

#[verifier::spinoff_prover]
#[verifier::rlimit(60)]
proof fn lemma_sweep_keeps_index(v: SocialEventLogView, e: SocialEventView, n: int, key: Seq<char>)
    requires
        0 <= n <= v.pending.len(),
        v.equivocation_index.contains(key),
    ensures
        swept(v, e, n).equivocation_index.contains(key),
    decreases n,
{
    if n > 0 {
        lemma_sweep_keeps_index(v, e, n - 1, key);
        lemma_proof_is_indexed(
            swept(v, e, n - 1),
            crate::protocol::evidence_of(e, v.pending[n - 1]),
            key,
        );
    }
}

#[verifier::spinoff_prover]
#[verifier::rlimit(60)]
proof fn lemma_sweep_indexes(v: SocialEventLogView, e: SocialEventView, n: int, k: int)
    requires
        0 <= k < n <= v.pending.len(),
        v.pending[k].author == e.author,
        v.pending[k].seq == e.seq,
        v.pending[k].id != e.id,
        conclusive(crate::protocol::evidence_of(e, v.pending[k])),
    ensures
        swept(v, e, n).equivocation_index.contains(
            evidence_key(crate::protocol::evidence_of(e, v.pending[k])),
        ),
    decreases n,
{
    let key = evidence_key(crate::protocol::evidence_of(e, v.pending[k]));
    let proof_of_last = crate::protocol::evidence_of(e, v.pending[n - 1]);
    if k < n - 1 {
        lemma_sweep_indexes(v, e, n - 1, k);
        lemma_proof_is_indexed(swept(v, e, n - 1), proof_of_last, key);
    } else {
        lemma_proof_is_indexed(swept(v, e, n - 1), proof_of_last, key);
        assert(swept(v, e, n) == with_proof(swept(v, e, n - 1), proof_of_last).1);
    }
}

/// An accepted event convicts its author of every other event that waits at its
/// place.
#[verifier::spinoff_prover]
#[verifier::rlimit(60)]
pub proof fn lemma_sweep_convicts(v: SocialEventLogView, e: SocialEventView, n: int, k: int)
    requires
        0 <= k < n <= v.pending.len(),
        v.pending[k].author == e.author,
        v.pending[k].seq == e.seq,
        v.pending[k].id != e.id,
        equivocates(crate::protocol::evidence_of(e, v.pending[k])) is Ok,
    ensures
        swept(v, e, n).equivocation_index.contains(
            evidence_key(crate::protocol::evidence_of(e, v.pending[k])),
        ),
{
    assert(conclusive(crate::protocol::evidence_of(e, v.pending[k]))) by {
        reveal(conclusive);
    }
    lemma_sweep_indexes(v, e, n, k);
}

/// Once an event is accepted, none waits at its place, and every other that
/// waited still does.
#[verifier::spinoff_prover]
#[verifier::rlimit(60)]
pub proof fn lemma_sweep_clears_place(
    v: SocialEventLogView,
    e: SocialEventView,
    n: int,
    p: SocialEventView,
)
    requires
        0 <= n <= v.pending.len(),
    ensures
        swept(v, e, n).pending.contains(p) <==> v.pending.subrange(0, n).contains(p) && !(p.author
            == e.author && p.seq == e.seq),
        swept(v, e, n).events == v.events,
        swept(v, e, n).heads == v.heads,
    decreases n,
{
    let some = v.pending.subrange(0, n);
    if n > 0 {
        let r = swept(v, e, n - 1);
        let before = v.pending.subrange(0, n - 1);
        let q = v.pending[n - 1];
        lemma_sweep_clears_place(v, e, n - 1, p);
        lemma_proof_is_indexed(r, crate::protocol::evidence_of(e, q), Seq::empty());
        assert(some =~= before.push(q));
        if before.contains(p) {
            assert(some[before.index_of(p)] == p);
        }
        assert(some[n - 1] == q);
        if some.contains(p) && !before.contains(p) {
            let i = some.index_of(p);
            if i < n - 1 {
                assert(before[i] == p);
            }
            assert(p == q);
        }
        let more = r.pending.push(q);
        assert(more[r.pending.len() as int] == q);
        if r.pending.contains(p) {
            assert(more[r.pending.index_of(p)] == p);
        }
        if more.contains(p) && !r.pending.contains(p) {
            let i = more.index_of(p);
            if i < r.pending.len() {
                assert(r.pending[i] == p);
            }
            assert(p == q);
        }
    }
}

/// An event at the place of one that waits is evidence against its author, and
/// changes neither the events nor what waits.
#[verifier::spinoff_prover]
#[verifier::rlimit(60)]
pub proof fn lemma_fork_of_waiting_is_evidence(
    v: SocialEventLogView,
    e: SocialEventView,
    observed_at: u64,
    i: int,
)
    requires
        event_valid(e) is Ok,
        dated(e, observed_at) is Ok,
        forall|k: int|
            0 <= k < v.events.len() ==> (#[trigger] v.events[k]).id != e.id && !(v.events[k].author
                == e.author && v.events[k].seq == e.seq),
        forall|k: int| 0 <= k < v.pending.len() ==> (#[trigger] v.pending[k]).id != e.id,
        0 <= i < v.pending.len(),
        v.pending[i].author == e.author,
        v.pending[i].seq == e.seq,
    ensures
        ({
            let done = appended(v, e, observed_at);
            &&& done.1.events == v.events
            &&& done.1.pending == v.pending
            &&& exists|k: int|
                0 <= k <= i && (#[trigger] v.pending[k]).author == e.author && v.pending[k].seq
                    == e.seq && done == with_proof(
                    v,
                    crate::protocol::evidence_of(v.pending[k], e),
                )
        }),
{
    order::lemma_first_where(v.events, identified_by(e.id));
    order::lemma_first_where(v.pending, identified_by(e.id));
    order::lemma_first_where(v.events, placed_at(e.author, e.seq));
    order::lemma_first_where(v.pending, placed_at(e.author, e.seq));
    let test = placed_at(e.author, e.seq);
    assert(test(v.pending[i]));
    let k = order::first_where(v.pending, test)->Some_0;
    assert(test(v.pending[k]));
    lemma_proof_is_indexed(v, crate::protocol::evidence_of(v.pending[k], e), Seq::empty());
}

/// The digest of a log commits to the number and the identifiers of its first
/// events, and to the number and the keys of its first evidence.
pub proof fn lemma_digest_commits(v: SocialEventLogView, events: int, proofs: int)
    requires
        0 <= events <= v.events.len(),
        0 <= proofs <= v.equivocation_proofs.len(),
    ensures
        exists|ids: Seq<Seq<char>>, keys: Seq<Seq<char>>|
            ids.len() == events && keys.len() == proofs && (forall|i: int|
                0 <= i < events ==> #[trigger] ids[i] == v.events[i].id) && (forall|i: int|
                0 <= i < proofs ==> #[trigger] keys[i] == evidence_key(v.equivocation_proofs[i]))
                && crate::memory::digest(v, events, proofs) == outside::hex_text(
                outside::sha256_of(
                    encode_utf8("nexus:social-memory-checkpoint:v1"@) + little_endian(
                        events as nat,
                        8,
                    ) + #[trigger] framed_all(ids) + little_endian(proofs as nat, 8)
                        + #[trigger] framed_all(keys),
                ),
            ),
{
    let ids = crate::memory::first_ids(v, events);
    let keys = crate::memory::first_keys(v, proofs);
    assert(ids.len() == events && keys.len() == proofs);
    assert(crate::memory::digest(v, events, proofs) == outside::hex_text(
        outside::sha256_of(
            encode_utf8("nexus:social-memory-checkpoint:v1"@) + little_endian(events as nat, 8)
                + framed_all(ids) + little_endian(proofs as nat, 8) + framed_all(keys),
        ),
    ));
}

/// A number in bytes has as many as asked for, and its first byte is the least
/// significant.
pub proof fn lemma_little_end_first(n: nat, count: nat)
    ensures
        little_endian(n, count).len() == count,
        count > 0 ==> little_endian(n, count)[0] == n % 256,
        count > 0 ==> little_endian(n, count).skip(1) == little_endian(
            n / 256,
            (count - 1) as nat,
        ),
    decreases count,
{
    if count > 0 {
        lemma_little_end_first(n / 256, (count - 1) as nat);
        assert(little_endian(n, count).skip(1) =~= little_endian(n / 256, (count - 1) as nat));
    }
}

/// A framed text is its bytes behind eight that tell their number; framed texts
/// stand one behind the other.
pub proof fn lemma_texts_are_framed(all: Seq<Seq<char>>, s: Seq<char>)
    ensures
        framed(s).len() == 8 + encode_utf8(s).len(),
        framed(s).skip(8) == encode_utf8(s),
        framed_all(Seq::empty()).len() == 0,
        framed_all(all.push(s)) == framed_all(all) + framed(s),
{
    lemma_little_end_first(encode_utf8(s).len(), 8);
    assert(framed(s).skip(8) =~= encode_utf8(s));
    assert(all.push(s).drop_last() =~= all);
}

/// The key of an envelope comes from the secret and from all recipients; its
/// identifier and what is bound to the ciphertext tell the recipients too.
pub proof fn lemma_envelope_binds_recipients(
    secret: Seq<u8>,
    recipients: Seq<Seq<char>>,
    key: Seq<u8>,
    key_id: Seq<char>,
    one: Seq<char>,
)
    ensures
        envelope_key(secret, recipients) == outside::hmac_of(
            secret,
            encode_utf8("nexus:confidential-social-envelope:key:v1"@) + listed_bytes(recipients),
        ),
        envelope_key_id(key, recipients) == outside::hex_text(
            outside::sha256_of(
                encode_utf8("nexus:confidential-social-envelope:key-id:v1"@) + key + listed_bytes(
                    recipients,
                ),
            ).subrange(0, 16),
        ),
        envelope_aad(recipients, key_id) == encode_utf8(
            "nexus:confidential-social-envelope:aad:v1:"@ + key_id + ":"@,
        ) + listed_bytes(recipients),
        listed_bytes(Seq::empty()).len() == 0,
        listed_bytes(recipients.push(one)) == (listed_bytes(recipients) + encode_utf8(one)).push(0),
{
    assert(recipients.push(one).drop_last() =~= recipients);
}

} // verus!
