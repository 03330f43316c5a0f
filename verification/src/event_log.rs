//! The append-only log of social events.
//!
//! The log checks authorship, drops duplicates, keeps each author's chain in
//! order and replays what it accepted into a society.
use crate::chains::{
    lemma_append_keeps_upright, lemma_base_upright, lemma_proof_keeps_upright, upright,
};
use crate::facts::IdentityRecoveryPolicy;
use crate::order::{self, KeyPart, KeyPartView, SortKey};
use crate::outside;
use crate::protocol::{
    equivocates, event_content, event_valid, evidence_key, evidence_of, EquivocationProof,
    EquivocationProofView, SocialEvent, SocialEventKind, SocialEventKindView, SocialEventView,
    SocialProtocolError, SocialProtocolErrorView,
};
use crate::recovery::{
    with_approval, with_policy, with_rotation, Succession, SuccessionView,
};
use crate::society::{applied, nothing_known, with_evidence, Society, SocietyView};
use crate::table::{self, Group, Key, Table};
use crate::text;
use crate::twin::{lemma_bytes_view, outcome, Twin};
use crate::types::{same_bytes, Did};
use vstd::prelude::*;
use vstd::string::*;
use vstd::utf8::*;

verus! {

broadcast use lemma_bytes_view;

/// How far ahead of its observation an event may be dated, in seconds.
pub const MAX_FUTURE_TIMESTAMP_SKEW_SECS: u64 = 300;

/// The version of compacted bases.
pub const COMPACTED_BASE_VERSION: u16 = 1;

/// The last accepted event of an author.
#[derive(Debug, PartialEq, Eq)]
pub struct ChainHead {
    pub seq: u64,
    pub id: String,
}

/// The mathematical form of [`ChainHead`].
#[verifier::ext_equal]
pub struct ChainHeadView {
    pub seq: u64,
    pub id: Seq<char>,
}

impl DeepView for ChainHead {
    type V = ChainHeadView;

    open spec fn deep_view(&self) -> ChainHeadView {
        ChainHeadView {
            seq: self.seq.deep_view(),
            id: self.id.deep_view(),
        }
    }
}

impl Twin for ChainHead {
    fn twin(&self) -> (r: Self) {
        ChainHead {
            seq: self.seq.twin(),
            id: self.id.twin(),
        }
    }
}

impl Clone for ChainHead {
    fn clone(&self) -> (r: Self)
        ensures
            r.deep_view() == self.deep_view(),
    {
        self.twin()
    }
}

/// What a log keeps of events that it no longer retains.
#[derive(Debug, PartialEq, Eq)]
pub struct CompactedEventLogBase {
    pub version: u16,
    pub event_count: usize,
    pub equivocation_proof_count: usize,
    pub last_observed_at: Option<u64>,
    pub society: Society,
    pub heads: Table<Did, ChainHead>,
    pub succession: Succession,
    pub equivocation_proof_keys: Group<String>,
}

/// The mathematical form of [`CompactedEventLogBase`].
#[verifier::ext_equal]
pub struct CompactedEventLogBaseView {
    pub version: u16,
    pub event_count: usize,
    pub equivocation_proof_count: usize,
    pub last_observed_at: Option<u64>,
    pub society: SocietyView,
    pub heads: Seq<(Seq<char>, ChainHeadView)>,
    pub succession: SuccessionView,
    pub equivocation_proof_keys: Seq<Seq<char>>,
}

impl DeepView for CompactedEventLogBase {
    type V = CompactedEventLogBaseView;

    closed spec fn deep_view(&self) -> CompactedEventLogBaseView {
        CompactedEventLogBaseView {
            version: self.version.deep_view(),
            event_count: self.event_count.deep_view(),
            equivocation_proof_count: self.equivocation_proof_count.deep_view(),
            last_observed_at: self.last_observed_at.deep_view(),
            society: self.society.deep_view(),
            heads: self.heads.deep_view(),
            succession: self.succession.deep_view(),
            equivocation_proof_keys: self.equivocation_proof_keys.deep_view(),
        }
    }
}

impl Twin for CompactedEventLogBase {
    fn twin(&self) -> (r: Self) {
        CompactedEventLogBase {
            version: self.version.twin(),
            event_count: self.event_count.twin(),
            equivocation_proof_count: self.equivocation_proof_count.twin(),
            last_observed_at: self.last_observed_at.twin(),
            society: self.society.twin(),
            heads: self.heads.twin(),
            succession: self.succession.twin(),
            equivocation_proof_keys: self.equivocation_proof_keys.twin(),
        }
    }
}

impl Clone for CompactedEventLogBase {
    fn clone(&self) -> (r: Self)
        ensures
            r.deep_view() == self.deep_view(),
    {
        self.twin()
    }
}

/// An append-only set of signed social events.
#[derive(Debug, PartialEq, Eq)]
pub struct SocialEventLog {
    compacted_base: Option<CompactedEventLogBase>,
    events: Vec<SocialEvent>,
    observed_at: Vec<u64>,
    pending: Vec<SocialEvent>,
    pending_observed_at: Vec<u64>,
    equivocation_proofs: Vec<EquivocationProof>,
    heads: Table<Did, ChainHead>,
    succession: Succession,
    equivocation_index: Group<String>,
}

/// The mathematical form of [`SocialEventLog`].
#[verifier::ext_equal]
pub struct SocialEventLogView {
    pub compacted_base: Option<CompactedEventLogBaseView>,
    pub events: Seq<SocialEventView>,
    pub observed_at: Seq<u64>,
    pub pending: Seq<SocialEventView>,
    pub pending_observed_at: Seq<u64>,
    pub equivocation_proofs: Seq<EquivocationProofView>,
    pub heads: Seq<(Seq<char>, ChainHeadView)>,
    pub succession: SuccessionView,
    pub equivocation_index: Seq<Seq<char>>,
}

impl DeepView for SocialEventLog {
    type V = SocialEventLogView;

    closed spec fn deep_view(&self) -> SocialEventLogView {
        SocialEventLogView {
            compacted_base: self.compacted_base.deep_view(),
            events: self.events.deep_view(),
            observed_at: self.observed_at.deep_view(),
            pending: self.pending.deep_view(),
            pending_observed_at: self.pending_observed_at.deep_view(),
            equivocation_proofs: self.equivocation_proofs.deep_view(),
            heads: self.heads.deep_view(),
            succession: self.succession.deep_view(),
            equivocation_index: self.equivocation_index.deep_view(),
        }
    }
}

impl Twin for SocialEventLog {
    fn twin(&self) -> (r: Self) {
        SocialEventLog {
            compacted_base: self.compacted_base.twin(),
            events: self.events.twin(),
            observed_at: self.observed_at.twin(),
            pending: self.pending.twin(),
            pending_observed_at: self.pending_observed_at.twin(),
            equivocation_proofs: self.equivocation_proofs.twin(),
            heads: self.heads.twin(),
            succession: self.succession.twin(),
            equivocation_index: self.equivocation_index.twin(),
        }
    }
}

impl Clone for SocialEventLog {
    fn clone(&self) -> (r: Self)
        ensures
            r.deep_view() == self.deep_view(),
    {
        self.twin()
    }
}

/// A log without events.
pub open spec fn empty_log() -> SocialEventLogView {
    SocialEventLogView {
        compacted_base: None,
        events: Seq::empty(),
        observed_at: Seq::empty(),
        pending: Seq::empty(),
        pending_observed_at: Seq::empty(),
        equivocation_proofs: Seq::empty(),
        heads: Seq::empty(),
        succession: SuccessionView {
            rotations: Seq::empty(),
            policies: Seq::empty(),
            approvals: Seq::empty(),
        },
        equivocation_index: Seq::empty(),
    }
}

/// Every event has its time of observation, and every event is valid.
pub open spec fn sound(v: SocialEventLogView) -> bool {
    &&& v.events.len() == v.observed_at.len()
    &&& v.pending.len() == v.pending_observed_at.len()
    &&& forall|i: int| 0 <= i < v.events.len() ==> event_valid(#[trigger] v.events[i]) is Ok
    &&& forall|i: int| 0 <= i < v.pending.len() ==> event_valid(#[trigger] v.pending[i]) is Ok
}

/// Events with an identifier.
pub open spec fn identified_by(id: Seq<char>) -> spec_fn(SocialEventView) -> bool {
    |e: SocialEventView| e.id == id
}

/// Events of an author at a position.
pub open spec fn placed_at(author: Seq<char>, seq: u64) -> spec_fn(SocialEventView) -> bool {
    |e: SocialEventView| e.author == author && e.seq == seq
}

/// The position after another.
pub open spec fn next_seq(seq: u64) -> u64 {
    if seq < u64::MAX {
        (seq + 1) as u64
    } else {
        seq
    }
}

/// Whether an event continues its author's chain: the first one has position
/// zero and no predecessor, every other one names the head.
pub open spec fn continues(heads: Seq<(Seq<char>, ChainHeadView)>, e: SocialEventView) -> Result<
    bool,
    SocialProtocolErrorView,
> {
    match table::find(heads, e.author) {
        None => if e.seq != 0 {
            Ok(false)
        } else if e.prev is None {
            Ok(true)
        } else {
            Err(SocialProtocolErrorView::InvalidChainGenesis { author: e.author })
        },
        Some(head) => Ok(e.seq == next_seq(head.seq) && e.prev == Some(head.id)),
    }
}

/// Events of an author that continue the chain.
pub open spec fn ready(heads: Seq<(Seq<char>, ChainHeadView)>, author: Seq<char>) -> spec_fn(
    SocialEventView,
) -> bool {
    |e: SocialEventView|
        e.author == author && continues(heads, e) == Ok::<bool, SocialProtocolErrorView>(true)
}

/// The latest time that an event observed at a time may claim.
pub open spec fn latest_allowed(observed_at: u64) -> u64 {
    if observed_at <= u64::MAX - MAX_FUTURE_TIMESTAMP_SKEW_SECS {
        (observed_at + MAX_FUTURE_TIMESTAMP_SKEW_SECS) as u64
    } else {
        u64::MAX
    }
}

/// Whether an event is dated no later than its observation allows.
pub open spec fn dated(e: SocialEventView, observed_at: u64) -> Result<
    (),
    SocialProtocolErrorView,
> {
    if e.timestamp <= latest_allowed(observed_at) {
        Ok(())
    } else {
        Err(
            SocialProtocolErrorView::EventTimestampTooFarAhead {
                author: e.author,
                timestamp: e.timestamp,
                observed_at,
                max_future_skew_secs: MAX_FUTURE_TIMESTAMP_SKEW_SECS,
            },
        )
    }
}

/// The log after evidence of equivocation, and whether it is new.
pub open spec fn with_proof(v: SocialEventLogView, p: EquivocationProofView) -> (
    Result<bool, SocialProtocolErrorView>,
    SocialEventLogView,
) {
    match equivocates(p) {
        Err(e) => (Err(e), v),
        Ok(_) => if v.equivocation_index.contains(evidence_key(p)) {
            (Ok(false), v)
        } else {
            (
                Ok(true),
                SocialEventLogView {
                    equivocation_index: v.equivocation_index.push(evidence_key(p)),
                    equivocation_proofs: v.equivocation_proofs.push(p),
                    ..v
                },
            )
        },
    }
}

/// The log after the first pending events were held against an accepted one:
/// those at its position are no longer pending, and become evidence.
pub open spec fn swept(v: SocialEventLogView, accepted: SocialEventView, n: int) -> SocialEventLogView
    decreases n,
{
    if n <= 0 {
        SocialEventLogView { pending: Seq::empty(), pending_observed_at: Seq::empty(), ..v }
    } else {
        let r = swept(v, accepted, n - 1);
        let p = v.pending[n - 1];
        if p.author == accepted.author && p.seq == accepted.seq {
            if p.id == accepted.id {
                r
            } else {
                with_proof(r, evidence_of(accepted, p)).1
            }
        } else {
            SocialEventLogView {
                pending: r.pending.push(p),
                pending_observed_at: r.pending_observed_at.push(v.pending_observed_at[n - 1]),
                ..r
            }
        }
    }
}

/// What an accepted event means for the succession of identities.
pub open spec fn succeeded(s: SuccessionView, e: SocialEventView) -> SuccessionView {
    match e.kind {
        SocialEventKindView::IdentityRotated { rotation } => with_rotation(s, rotation),
        SocialEventKindView::IdentityRecoveryPolicy { policy } => with_policy(
            s,
            e.author,
            policy,
        ),
        SocialEventKindView::IdentityRecoveryApproved { approval } => with_approval(s, approval),
        _ => s,
    }
}

/// The log after an event was accepted.
pub open spec fn accepted(v: SocialEventLogView, e: SocialEventView, observed_at: u64) -> SocialEventLogView {
    let known = SocialEventLogView {
        heads: table::put(v.heads, e.author, ChainHeadView { seq: e.seq, id: e.id }),
        succession: succeeded(v.succession, e),
        ..v
    };
    let r = swept(known, e, v.pending.len() as int);
    SocialEventLogView {
        events: v.events.push(e),
        observed_at: v.observed_at.push(observed_at),
        ..r
    }
}

/// Whether an author may still act.
pub open spec fn may_act(v: SocialEventLogView, author: Seq<char>) -> Result<(), SocialProtocolErrorView> {
    match table::find(v.succession.rotations, author) {
        Some(successor) => Err(SocialProtocolErrorView::IdentityRotated { author, successor }),
        None => Ok(()),
    }
}

/// The log after pending events of an author were accepted one after the other,
/// as long as one continues the chain.
pub open spec fn drained(v: SocialEventLogView, author: Seq<char>, fuel: nat) -> (
    Result<(), SocialProtocolErrorView>,
    SocialEventLogView,
)
    decreases fuel,
{
    match order::first_where(v.pending, ready(v.heads, author)) {
        None => (Ok(()), v),
        Some(i) => if fuel == 0 {
            (Ok(()), v)
        } else {
            let e = v.pending[i];
            let left = SocialEventLogView {
                pending: v.pending.remove(i),
                pending_observed_at: v.pending_observed_at.remove(i),
                ..v
            };
            match may_act(left, e.author) {
                Err(e) => (Err(e), left),
                Ok(_) => drained(
                    accepted(left, e, v.pending_observed_at[i]),
                    author,
                    (fuel - 1) as nat,
                ),
            }
        },
    }
}

/// The log after an event that no known event stands against.
pub open spec fn received(v: SocialEventLogView, e: SocialEventView, observed_at: u64) -> (
    Result<bool, SocialProtocolErrorView>,
    SocialEventLogView,
) {
    match may_act(v, e.author) {
        Err(e) => (Err(e), v),
        Ok(_) => match continues(v.heads, e) {
            Err(e) => (Err(e), v),
            Ok(true) => {
                let next = accepted(v, e, observed_at);
                let done = drained(next, e.author, next.pending.len());
                (
                    match done.0 {
                        Ok(_) => Ok(true),
                        Err(e) => Err(e),
                    },
                    done.1,
                )
            },
            Ok(false) => (
                Ok(true),
                SocialEventLogView {
                    pending: v.pending.push(e),
                    pending_observed_at: v.pending_observed_at.push(observed_at),
                    ..v
                },
            ),
        },
    }
}

/// The log after an event was offered to it, and whether it is new.
pub open spec fn appended(v: SocialEventLogView, e: SocialEventView, observed_at: u64) -> (
    Result<bool, SocialProtocolErrorView>,
    SocialEventLogView,
) {
    match event_valid(e) {
        Err(e) => (Err(e), v),
        Ok(_) => match dated(e, observed_at) {
            Err(e) => (Err(e), v),
            Ok(_) => match order::first_where(v.events, identified_by(e.id)) {
                Some(i) => if event_content(v.events[i]) == event_content(e)
                    && v.events[i].signature == e.signature {
                    (Ok(false), v)
                } else {
                    (Err(SocialProtocolErrorView::DuplicateEventConflict { event_id: e.id }), v)
                },
                None => if order::first_where(v.pending, identified_by(e.id)) is Some {
                    (Ok(false), v)
                } else {
                    match order::first_where(v.events, placed_at(e.author, e.seq)) {
                        Some(i) => with_proof(v, evidence_of(v.events[i], e)),
                        None => match order::first_where(v.pending, placed_at(e.author, e.seq)) {
                            Some(i) => with_proof(v, evidence_of(v.pending[i], e)),
                            None => received(v, e, observed_at),
                        },
                    }
                },
            },
        },
    }
}

/// The order of replay: position, then identifier, then author.
pub open spec fn by_replay() -> spec_fn(SocialEventView) -> SortKey {
    |v: SocialEventView|
        seq![
            KeyPartView::Num(v.seq as int),
            KeyPartView::Text(v.id),
            KeyPartView::Text(v.author),
        ]
}

fn by_replay_of(v: &SocialEvent) -> (k: Vec<KeyPart>)
    ensures
        k.deep_view() == by_replay()(v.deep_view()),
{
    let k = vec![
            KeyPart::Num(v.seq as i128),
            KeyPart::Text(v.id.twin()),
            KeyPart::Text(v.author.to_string()),
        ];
    assert(k.deep_view() =~= by_replay()(v.deep_view()));
    k
}

/// A log that starts from a base.
pub open spec fn based(base: Option<CompactedEventLogBaseView>) -> Result<
    SocialEventLogView,
    SocialProtocolErrorView,
> {
    match base {
        None => Ok(empty_log()),
        Some(b) => if b.version != COMPACTED_BASE_VERSION {
            Err(
                SocialProtocolErrorView::InvalidCompactedLog {
                    reason: "unsupported compacted base version "@ + text::decimal(
                        b.version as nat,
                    ),
                },
            )
        } else {
            Ok(
                SocialEventLogView {
                    compacted_base: Some(b),
                    heads: b.heads,
                    succession: b.succession,
                    equivocation_index: b.equivocation_proof_keys,
                    ..empty_log()
                },
            )
        },
    }
}

/// The log after several events in turn; the first refusal ends it.
pub open spec fn all_appended(
    v: Result<SocialEventLogView, SocialProtocolErrorView>,
    items: Seq<(SocialEventView, u64)>,
) -> Result<SocialEventLogView, SocialProtocolErrorView>
    decreases items.len(),
{
    if items.len() == 0 {
        v
    } else {
        match all_appended(v, items.drop_last()) {
            Err(e) => Err(e),
            Ok(before) => {
                let next = appended(before, items.last().0, items.last().1);
                match next.0 {
                    Err(e) => Err(e),
                    Ok(_) => Ok(next.1),
                }
            },
        }
    }
}

/// The log after several pieces of evidence; the first refusal ends it.
pub open spec fn all_proved(
    v: Result<SocialEventLogView, SocialProtocolErrorView>,
    proofs: Seq<EquivocationProofView>,
) -> Result<SocialEventLogView, SocialProtocolErrorView>
    decreases proofs.len(),
{
    if proofs.len() == 0 {
        v
    } else {
        match all_proved(v, proofs.drop_last()) {
            Err(e) => Err(e),
            Ok(before) => {
                let next = with_proof(before, proofs.last());
                match next.0 {
                    Err(e) => Err(e),
                    Ok(_) => Ok(next.1),
                }
            },
        }
    }
}

/// The log that parts make up.
pub open spec fn assembled(
    base: Option<CompactedEventLogBaseView>,
    events: Seq<(SocialEventView, u64)>,
    pending: Seq<(SocialEventView, u64)>,
    proofs: Seq<EquivocationProofView>,
) -> Result<SocialEventLogView, SocialProtocolErrorView> {
    all_proved(all_appended(all_appended(based(base), events), pending), proofs)
}

/// Events with their times of observation.
pub open spec fn zipped(events: Seq<SocialEventView>, times: Seq<u64>) -> Seq<
    (SocialEventView, u64),
> {
    Seq::new(events.len(), |i: int| (events[i], times[i]))
}

/// Events with their times of observation, as far as these are known, and with a
/// time for the others.
pub open spec fn observed(events: Seq<SocialEventView>, times: Seq<u64>, fallback: u64) -> Seq<
    (SocialEventView, u64),
> {
    Seq::new(
        events.len(),
        |i: int|
            (
                events[i],
                if i < times.len() {
                    times[i]
                } else {
                    fallback
                },
            ),
    )
}

/// Gives stored events their times of observation, and a time to those whose
/// time was not stored.
pub fn fill_observed_times(events: &Vec<SocialEvent>, times: &Vec<u64>, fallback: u64) -> (r: Vec<
    (SocialEvent, u64),
>)
    ensures
        r.deep_view() == observed(events.deep_view(), times@, fallback),
{
    let mut r: Vec<(SocialEvent, u64)> = Vec::new();
    while r.len() < events.len()
        invariant
            r@.len() <= events@.len(),
            forall|j: int|
                0 <= j < r@.len() ==> (#[trigger] r@[j]).deep_view() == observed(
                    events.deep_view(),
                    times@,
                    fallback,
                )[j],
        decreases events@.len() - r@.len(),
    {
        let i = r.len();
        let at = if i < times.len() {
            times[i]
        } else {
            fallback
        };
        r.push((events[i].twin(), at));
    }
    assert(r.deep_view() =~= observed(events.deep_view(), times@, fallback));
    r
}

/// Events that are all observed at one time.
pub open spec fn all_at(events: Seq<SocialEventView>, now: u64) -> Seq<(SocialEventView, u64)> {
    Seq::new(events.len(), |i: int| (events[i], now))
}

/// The society after events in their order.
pub open spec fn replayed(s: SocietyView, events: Seq<SocialEventView>) -> SocietyView
    decreases events.len(),
{
    if events.len() == 0 {
        s
    } else {
        applied(replayed(s, events.drop_last()), events.last())
    }
}

/// The society after pieces of evidence.
pub open spec fn convicted(s: SocietyView, proofs: Seq<EquivocationProofView>) -> SocietyView
    decreases proofs.len(),
{
    if proofs.len() == 0 {
        s
    } else {
        with_evidence(convicted(s, proofs.drop_last()), proofs.last())
    }
}

/// What follows a number of elements.
pub open spec fn after<A>(s: Seq<A>, n: int) -> Seq<A> {
    if n >= s.len() {
        Seq::empty()
    } else {
        s.subrange(n, s.len() as int)
    }
}

/// The society after the replay of a suffix of events and evidence.
pub open spec fn resumed(
    v: SocialEventLogView,
    s: SocietyView,
    event_start: int,
    proof_start: int,
) -> SocietyView {
    convicted(
        replayed(s, order::sort_by_key(after(v.events, event_start), by_replay())),
        after(v.equivocation_proofs, proof_start),
    )
}

/// The society that a log describes, starting from another: a base replaces it.
pub open spec fn described(v: SocialEventLogView, s: SocietyView) -> SocietyView {
    resumed(
        v,
        match v.compacted_base {
            Some(base) => base.society,
            None => s,
        },
        0,
        0,
    )
}

/// Where the chain of an author from before chains ends.
pub open spec fn legacy_head(author: Seq<char>) -> ChainHeadView {
    ChainHeadView {
        seq: 0,
        id: outside::hex_text(
            outside::sha256_of(encode_utf8("nexus:legacy-chain:v1:"@ + author)),
        ),
    }
}

/// Where the chains of authors from before chains end.
pub open spec fn legacy_heads(authors: Seq<Seq<char>>) -> Seq<(Seq<char>, ChainHeadView)>
    decreases authors.len(),
{
    if authors.len() == 0 {
        Seq::empty()
    } else {
        table::put(legacy_heads(authors.drop_last()), authors.last(), legacy_head(authors.last()))
    }
}

/// A log whose base stands for events from before chains.
pub open spec fn migrated_log(
    society: SocietyView,
    authors: Seq<Seq<char>>,
    event_count: usize,
) -> SocialEventLogView {
    SocialEventLogView {
        compacted_base: Some(
            CompactedEventLogBaseView {
                version: COMPACTED_BASE_VERSION,
                event_count,
                equivocation_proof_count: 0,
                last_observed_at: None,
                society,
                heads: legacy_heads(authors),
                succession: society.succession,
                equivocation_proof_keys: Seq::empty(),
            },
        ),
        heads: legacy_heads(authors),
        succession: society.succession,
        ..empty_log()
    }
}

/// The latest of several times.
pub open spec fn latest(times: Seq<u64>) -> Option<u64>
    decreases times.len(),
{
    if times.len() == 0 {
        None
    } else {
        match latest(times.drop_last()) {
            Some(t) if t > times.last() => Some(t),
            _ => Some(times.last()),
        }
    }
}

/// The sum of two counts, as far as a count reaches.
pub open spec fn count_sum(a: usize, b: usize) -> usize {
    if a + b <= usize::MAX {
        (a + b) as usize
    } else {
        usize::MAX
    }
}

/// How many events a base stands for.
pub open spec fn compacted_count(v: SocialEventLogView) -> usize {
    match v.compacted_base {
        Some(base) => base.event_count,
        None => 0,
    }
}

/// How much evidence a base stands for.
pub open spec fn compacted_proofs(v: SocialEventLogView) -> usize {
    match v.compacted_base {
        Some(base) => base.equivocation_proof_count,
        None => 0,
    }
}

/// The base that stands for the first events of a log, made from the log that
/// they make up.
pub open spec fn base_of(b: SocialEventLogView, event_count: usize, proof_count: usize) -> CompactedEventLogBaseView {
    CompactedEventLogBaseView {
        version: COMPACTED_BASE_VERSION,
        event_count,
        equivocation_proof_count: proof_count,
        last_observed_at: latest(b.observed_at),
        society: described(b, nothing_known()),
        heads: b.heads,
        succession: b.succession,
        equivocation_proof_keys: b.equivocation_index,
    }
}

/// The log after all but its most recent events were compacted, and whether any
/// were. A log with gaps in a chain is left as it is.
pub open spec fn compacted(v: SocialEventLogView, retain: usize) -> (Result<bool, SocialProtocolErrorView>, SocialEventLogView) {
    if v.events.len() <= retain {
        (Ok(false), v)
    } else if v.pending.len() > 0 {
        (
            Err(
                SocialProtocolErrorView::InvalidCompactedLog {
                    reason: "cannot compact while author-chain gaps are pending"@,
                },
            ),
            v,
        )
    } else {
        let start = v.events.len() - retain;
        let first = zipped(v.events, v.observed_at).subrange(0, start as int);
        let rest = zipped(v.events, v.observed_at).subrange(start as int, v.events.len() as int);
        match all_proved(
            all_appended(based(v.compacted_base), first),
            v.equivocation_proofs,
        ) {
            Err(e) => (Err(e), v),
            Ok(b) => {
                let base = base_of(
                    b,
                    count_sum(compacted_count(v), start as usize),
                    count_sum(compacted_proofs(v), v.equivocation_proofs.len() as usize),
                );
                match assembled(Some(base), rest, Seq::empty(), Seq::empty()) {
                    Ok(log) => (Ok(true), log),
                    Err(e) => (Err(e), empty_log()),
                }
            },
        }
    }
}

/// The log after events of another were offered to it at given times, and how
/// many were new; the first refusal ends it.
pub open spec fn merged(v: SocialEventLogView, events: Seq<SocialEventView>, times: Seq<u64>) -> (
    Result<int, SocialProtocolErrorView>,
    SocialEventLogView,
)
    decreases events.len(),
{
    if events.len() == 0 {
        (Ok(0), v)
    } else {
        let before = merged(v, events.drop_last(), times.drop_last());
        match before.0 {
            Err(e) => before,
            Ok(n) => {
                let next = appended(before.1, events.last(), times.last());
                (
                    match next.0 {
                        Err(e) => Err(e),
                        Ok(new) => Ok(
                            if new {
                                n + 1
                            } else {
                                n
                            },
                        ),
                    },
                    next.1,
                )
            },
        }
    }
}

proof fn lemma_swept(v: SocialEventLogView, e: SocialEventView, n: int)
    requires
        0 <= n <= v.pending.len(),
        v.pending.len() == v.pending_observed_at.len(),
        forall|i: int| 0 <= i < v.pending.len() ==> event_valid(#[trigger] v.pending[i]) is Ok,
    ensures
        swept(v, e, n).pending.len() == swept(v, e, n).pending_observed_at.len(),
        swept(v, e, n).pending.len() <= n,
        forall|i: int|
            0 <= i < swept(v, e, n).pending.len() ==> event_valid(
                #[trigger] swept(v, e, n).pending[i],
            ) is Ok,
        swept(v, e, n).events == v.events,
        swept(v, e, n).observed_at == v.observed_at,
        swept(v, e, n).heads == v.heads,
        swept(v, e, n).succession == v.succession,
        swept(v, e, n).compacted_base == v.compacted_base,
    decreases n,
{
    if n > 0 {
        lemma_swept(v, e, n - 1);
    }
}

/// An accepted event is the last of its log and the head of its chain.
pub proof fn lemma_accepted(v: SocialEventLogView, e: SocialEventView, observed_at: u64)
    requires
        sound(v),
        event_valid(e) is Ok,
    ensures
        sound(accepted(v, e, observed_at)),
        accepted(v, e, observed_at).pending.len() <= v.pending.len(),
        accepted(v, e, observed_at).events == v.events.push(e),
        accepted(v, e, observed_at).heads == table::put(
            v.heads,
            e.author,
            ChainHeadView { seq: e.seq, id: e.id },
        ),
        accepted(v, e, observed_at).compacted_base == v.compacted_base,
        accepted(v, e, observed_at).succession == succeeded(v.succession, e),
{
    let known = SocialEventLogView {
        heads: table::put(v.heads, e.author, ChainHeadView { seq: e.seq, id: e.id }),
        succession: succeeded(v.succession, e),
        ..v
    };
    lemma_swept(known, e, v.pending.len() as int);
    let r = accepted(v, e, observed_at);
    assert forall|i: int| 0 <= i < r.events.len() implies event_valid(#[trigger] r.events[i]) is Ok by {
        if i < v.events.len() {
            assert(r.events[i] == v.events[i]);
        }
    }
}

proof fn lemma_removed(v: SocialEventLogView, i: int)
    requires
        sound(v),
        0 <= i < v.pending.len(),
    ensures
        sound(
            SocialEventLogView {
                pending: v.pending.remove(i),
                pending_observed_at: v.pending_observed_at.remove(i),
                ..v
            },
        ),
{
    let left = v.pending.remove(i);
    assert forall|k: int| 0 <= k < left.len() implies event_valid(#[trigger] left[k]) is Ok by {
        if k < i {
            assert(left[k] == v.pending[k]);
        } else {
            assert(left[k] == v.pending[k + 1]);
        }
    }
}

impl CompactedEventLogBase {
    fn from_log_state(
        log: &SocialEventLog,
        society: Society,
        event_count: usize,
        equivocation_proof_count: usize,
    ) -> (r: Self)
        requires
            society.deep_view() == described(log.deep_view(), nothing_known()),
        ensures
            r.deep_view() == base_of(log.deep_view(), event_count, equivocation_proof_count),
    {
        CompactedEventLogBase {
            version: COMPACTED_BASE_VERSION,
            event_count,
            equivocation_proof_count,
            last_observed_at: latest_of(&log.observed_at),
            society,
            heads: log.heads.twin(),
            succession: log.succession.twin(),
            equivocation_proof_keys: log.equivocation_index.twin(),
        }
    }

    /// The society of the events that the base stands for.
    pub fn society(&self) -> (r: &Society)
        ensures
            r.deep_view() == self.deep_view().society,
    {
        &self.society
    }
}

fn latest_of(times: &Vec<u64>) -> (r: Option<u64>)
    ensures
        r == latest(times.deep_view()),
{
    let ghost all = times.deep_view();
    let mut r: Option<u64> = None;
    let mut i: usize = 0;
    while i < times.len()
        invariant
            i <= times@.len(),
            all == times.deep_view(),
            r == latest(all.subrange(0, i as int)),
        decreases times@.len() - i,
    {
        proof {
            let upto = all.subrange(0, i + 1);
            assert(upto.drop_last() =~= all.subrange(0, i as int));
            assert(upto.last() == times@[i as int]);
        }
        let t = times[i];
        r = match r {
            Some(best) => if best > t {
                Some(best)
            } else {
                Some(t)
            },
            None => Some(t),
        };
        i = i + 1;
    }
    assert(all.subrange(0, i as int) =~= all);
    r
}

impl SocialEventLog {
    /// Every event is valid and has its time of observation, and what holds of
    /// every log holds of this one.
    pub open spec fn wf(&self) -> bool {
        sound(self.deep_view()) && upright(self.deep_view())
    }

    /// A log without events.
    pub fn new() -> (r: Self)
        ensures
            r.deep_view() == empty_log(),
            r.wf(),
    {
        let r = SocialEventLog {
            compacted_base: None,
            events: Vec::new(),
            observed_at: Vec::new(),
            pending: Vec::new(),
            pending_observed_at: Vec::new(),
            equivocation_proofs: Vec::new(),
            heads: Table::new(),
            succession: Succession::new(),
            equivocation_index: Group::new(),
        };
        assert(r.deep_view() =~~= empty_log());
        proof {
            lemma_base_upright(None);
        }
        r
    }

    fn record_equivocation(&mut self, evidence: EquivocationProof) -> (r: Result<
        bool,
        SocialProtocolError,
    >)
        ensures
            (outcome(r), final(self).deep_view()) == with_proof(
                old(self).deep_view(),
                evidence.deep_view(),
            ),
            sound(old(self).deep_view()) ==> sound(final(self).deep_view()),
    {
        if let Err(e) = evidence.verify() {
            return Err(e);
        }
        let key = evidence.evidence_key();
        if !self.equivocation_index.insert(key) {
            return Ok(false);
        }
        let ghost before = self.equivocation_proofs.deep_view();
        self.equivocation_proofs.push(evidence);
        assert(self.equivocation_proofs.deep_view() =~= before.push(evidence.deep_view()));
        Ok(true)
    }

    fn record_pending_equivocations(&mut self, event: &SocialEvent)
        requires
            old(self).deep_view().pending.len() == old(self).deep_view().pending_observed_at.len(),
        ensures
            final(self).deep_view() == swept(
                old(self).deep_view(),
                event.deep_view(),
                old(self).deep_view().pending.len() as int,
            ),
    {
        let ghost before = self.deep_view();
        let mut pending: Vec<SocialEvent> = Vec::new();
        let mut times: Vec<u64> = Vec::new();
        std::mem::swap(&mut pending, &mut self.pending);
        std::mem::swap(&mut times, &mut self.pending_observed_at);
        let mut i: usize = 0;
        proof {
            assert(self.pending.deep_view() =~= Seq::<SocialEventView>::empty());
            assert(self.pending_observed_at.deep_view() =~= Seq::<u64>::empty());
        }
        while i < pending.len()
            invariant
                i <= pending@.len(),
                pending@.len() == times@.len(),
                before.pending == pending.deep_view(),
                before.pending_observed_at == times.deep_view(),
                self.deep_view() == swept(before, event.deep_view(), i as int),
            decreases pending@.len() - i,
        {
            let p = &pending[i];
            assert(before.pending[i as int] == p.deep_view());
            if p.author.same(&event.author) && p.seq == event.seq {
                if !p.id.same(&event.id) {
                    match EquivocationProof::new(event.twin(), p.twin()) {
                        Ok(evidence) => {
                            let _new = self.record_equivocation(evidence);
                        },
                        Err(_) => {},
                    }
                }
            } else {
                let ghost held = self.pending.deep_view();
                let ghost held_times = self.pending_observed_at.deep_view();
                self.pending.push(p.twin());
                self.pending_observed_at.push(times[i]);
                proof {
                    assert(self.pending.deep_view() =~= held.push(p.deep_view()));
                    assert(self.pending_observed_at.deep_view() =~= held_times.push(
                        times@[i as int],
                    ));
                }
            }
            i = i + 1;
        }
    }

    fn record_succession(&mut self, event: &SocialEvent)
        ensures
            final(self).deep_view() == (SocialEventLogView {
                succession: succeeded(old(self).deep_view().succession, event.deep_view()),
                ..old(self).deep_view()
            }),
    {
        match &event.kind {
            SocialEventKind::IdentityRotated { rotation } => {
                self.succession.record_rotation(rotation);
            },
            SocialEventKind::IdentityRecoveryPolicy { policy } => {
                self.succession.record_policy(&event.author, policy);
            },
            SocialEventKind::IdentityRecoveryApproved { approval } => {
                self.succession.record_approval(approval);
            },
            _ => {},
        }
    }

    fn accept_event(&mut self, event: SocialEvent, observed_at: u64)
        requires
            sound(old(self).deep_view()),
            event_valid(event.deep_view()) is Ok,
        ensures
            final(self).deep_view() == accepted(
                old(self).deep_view(),
                event.deep_view(),
                observed_at,
            ),
            sound(final(self).deep_view()),
    {
        let ghost given = event.deep_view();
        proof {
            lemma_accepted(self.deep_view(), given, observed_at);
        }
        let ghost before = self.deep_view();
        let head = ChainHead { seq: event.seq, id: event.id.twin() };
        self.heads.insert(event.author.twin(), head);
        self.record_succession(&event);
        proof {
            lemma_swept(self.deep_view(), given, before.pending.len() as int);
        }
        self.record_pending_equivocations(&event);
        let ghost held = self.deep_view();
        self.observed_at.push(observed_at);
        self.events.push(event);
        proof {
            assert(self.observed_at.deep_view() =~= held.observed_at.push(observed_at));
            assert(self.events.deep_view() =~= held.events.push(given));
        }
    }

    fn can_accept(&self, event: &SocialEvent) -> (r: Result<bool, SocialProtocolError>)
        ensures
            outcome(r) == continues(self.deep_view().heads, event.deep_view()),
    {
        match self.heads.get(&event.author) {
            None => {
                if event.seq != 0 {
                    Ok(false)
                } else if event.prev.is_none() {
                    Ok(true)
                } else {
                    Err(
                        SocialProtocolError::InvalidChainGenesis { author: event.author.twin() },
                    )
                }
            },
            Some(head) => {
                let next: u64 = if head.seq < u64::MAX {
                    head.seq + 1
                } else {
                    head.seq
                };
                let linked = match &event.prev {
                    Some(prev) => prev.same(&head.id),
                    None => false,
                };
                Ok(event.seq == next && linked)
            },
        }
    }

    fn validate_identity_rotation_authority(&self, author: &Did) -> (r: Result<
        (),
        SocialProtocolError,
    >)
        ensures
            outcome(r) == may_act(self.deep_view(), author.deep_view()),
    {
        match self.succession.next_of(author) {
            Some(successor) => Err(
                SocialProtocolError::IdentityRotated {
                    author: author.twin(),
                    successor: successor.twin(),
                },
            ),
            None => Ok(()),
        }
    }

    fn validate_observed_timestamp(&self, event: &SocialEvent, observed_at: u64) -> (r: Result<
        (),
        SocialProtocolError,
    >)
        ensures
            outcome(r) == dated(event.deep_view(), observed_at),
    {
        let latest: u64 = if observed_at <= u64::MAX - MAX_FUTURE_TIMESTAMP_SKEW_SECS {
            observed_at + MAX_FUTURE_TIMESTAMP_SKEW_SECS
        } else {
            u64::MAX
        };
        if event.timestamp <= latest {
            Ok(())
        } else {
            Err(
                SocialProtocolError::EventTimestampTooFarAhead {
                    author: event.author.twin(),
                    timestamp: event.timestamp,
                    observed_at,
                    max_future_skew_secs: MAX_FUTURE_TIMESTAMP_SKEW_SECS,
                },
            )
        }
    }

    fn first_ready(&self, author: &Did) -> (r: Option<usize>)
        ensures
            match r {
                Some(i) => i < self.deep_view().pending.len() && order::first_where(
                    self.deep_view().pending,
                    ready(self.deep_view().heads, author.deep_view()),
                ) == Some(i as int),
                None => order::first_where(
                    self.deep_view().pending,
                    ready(self.deep_view().heads, author.deep_view()),
                ) is None,
            },
    {
        let ghost test = ready(self.deep_view().heads, author.deep_view());
        let is_ready = |e: &SocialEvent| -> (b: bool)
            ensures
                b == test(e.deep_view()),
            {
                e.author.same(author) && match self.can_accept(e) {
                    Ok(b) => b,
                    Err(_) => false,
                }
            };
        order::find_first(&self.pending, is_ready, Ghost(test))
    }

    fn drain_pending_for(&mut self, author: &Did) -> (r: Result<(), SocialProtocolError>)
        requires
            sound(old(self).deep_view()),
        ensures
            (outcome(r), final(self).deep_view()) == drained(
                old(self).deep_view(),
                author.deep_view(),
                old(self).deep_view().pending.len(),
            ),
            sound(final(self).deep_view()),
    {
        let ghost who = author.deep_view();
        let ghost start = self.deep_view();
        let ghost mut fuel: nat = self.deep_view().pending.len();
        loop
            invariant
                sound(self.deep_view()),
                who == author.deep_view(),
                self.deep_view().pending.len() <= fuel,
                drained(start, who, start.pending.len()) == drained(self.deep_view(), who, fuel),
                start == old(self).deep_view(),
            decreases fuel,
        {
            match self.first_ready(author) {
                None => {
                    return Ok(());
                },
                Some(i) => {
                    let ghost before = self.deep_view();
                    proof {
                        order::lemma_first_where(before.pending, ready(before.heads, who));
                        lemma_removed(before, i as int);
                    }
                    assert(self.pending_observed_at@.len() == self.pending@.len()) by {
                        assert(before.pending.len() == before.pending_observed_at.len());
                    }
                    let event = self.pending.remove(i);
                    let observed_at = self.pending_observed_at.remove(i);
                    proof {
                        assert(self.pending.deep_view() =~= before.pending.remove(i as int));
                        assert(self.pending_observed_at.deep_view()
                            =~= before.pending_observed_at.remove(i as int));
                        assert(event.deep_view() == before.pending[i as int]);
                        assert(observed_at == before.pending_observed_at[i as int]);
                    }
                    if let Err(e) = self.validate_identity_rotation_authority(&event.author) {
                        return Err(e);
                    }
                    proof {
                        lemma_accepted(self.deep_view(), event.deep_view(), observed_at);
                        fuel = (fuel - 1) as nat;
                    }
                    self.accept_event(event, observed_at);
                },
            }
        }
    }

    fn find_identified(events: &Vec<SocialEvent>, id: &String) -> (r: Option<usize>)
        ensures
            match r {
                Some(i) => i < events@.len() && order::first_where(
                    events.deep_view(),
                    identified_by(id@),
                ) == Some(i as int),
                None => order::first_where(events.deep_view(), identified_by(id@)) is None,
            },
    {
        let test = |e: &SocialEvent| -> (b: bool)
            ensures
                b == identified_by(id@)(e.deep_view()),
            { e.id.same(id) };
        order::find_first(events, test, Ghost(identified_by(id@)))
    }

    fn find_placed(events: &Vec<SocialEvent>, author: &Did, seq: u64) -> (r: Option<usize>)
        ensures
            match r {
                Some(i) => i < events@.len() && order::first_where(
                    events.deep_view(),
                    placed_at(author.deep_view(), seq),
                ) == Some(i as int),
                None => order::first_where(
                    events.deep_view(),
                    placed_at(author.deep_view(), seq),
                ) is None,
            },
    {
        let test = |e: &SocialEvent| -> (b: bool)
            ensures
                b == placed_at(author.deep_view(), seq)(e.deep_view()),
            { e.author.same(author) && e.seq == seq };
        order::find_first(events, test, Ghost(placed_at(author.deep_view(), seq)))
    }

    fn record_conflict(&mut self, known: SocialEvent, event: SocialEvent) -> (r: Result<
        bool,
        SocialProtocolError,
    >)
        ensures
            (outcome(r), final(self).deep_view()) == with_proof(
                old(self).deep_view(),
                evidence_of(known.deep_view(), event.deep_view()),
            ),
            sound(old(self).deep_view()) ==> sound(final(self).deep_view()),
    {
        match EquivocationProof::new(known, event) {
            Err(e) => Err(e),
            Ok(evidence) => self.record_equivocation(evidence),
        }
    }

    fn receive(&mut self, event: SocialEvent, observed_at: u64) -> (r: Result<
        bool,
        SocialProtocolError,
    >)
        requires
            sound(old(self).deep_view()),
            event_valid(event.deep_view()) is Ok,
        ensures
            (outcome(r), final(self).deep_view()) == received(
                old(self).deep_view(),
                event.deep_view(),
                observed_at,
            ),
            sound(final(self).deep_view()),
    {
        if let Err(e) = self.validate_identity_rotation_authority(&event.author) {
            return Err(e);
        }
        match self.can_accept(&event) {
            Err(e) => Err(e),
            Ok(continuing) => {
                if continuing {
                    let author = event.author.twin();
                    self.accept_event(event, observed_at);
                    match self.drain_pending_for(&author) {
                        Err(e) => Err(e),
                        Ok(_) => Ok(true),
                    }
                } else {
                    let ghost before = self.deep_view();
                    let ghost given = event.deep_view();
                    self.pending_observed_at.push(observed_at);
                    self.pending.push(event);
                    proof {
                        assert(self.pending.deep_view() =~= before.pending.push(given));
                        assert(self.pending_observed_at.deep_view()
                            =~= before.pending_observed_at.push(observed_at));
                        let after = self.deep_view();
                        assert forall|i: int| 0 <= i < after.pending.len() implies event_valid(
                            #[trigger] after.pending[i],
                        ) is Ok by {
                            if i < before.pending.len() {
                                assert(after.pending[i] == before.pending[i]);
                            }
                        }
                    }
                    Ok(true)
                }
            },
        }
    }

    /// Offers a signed event to the log, with the time at which it was observed.
    /// Reports whether it is new.
    pub fn append_observed(&mut self, event: SocialEvent, observed_at: u64) -> (r: Result<
        bool,
        SocialProtocolError,
    >)
        requires
            old(self).wf(),
        ensures
            (outcome(r), final(self).deep_view()) == appended(
                old(self).deep_view(),
                event.deep_view(),
                observed_at,
            ),
            final(self).wf(),
    {
        proof {
            lemma_append_keeps_upright(self.deep_view(), event.deep_view(), observed_at);
        }
        if let Err(e) = event.validate() {
            return Err(e);
        }
        if let Err(e) = self.validate_observed_timestamp(&event, observed_at) {
            return Err(e);
        }
        if let Some(i) = Self::find_identified(&self.events, &event.id) {
            let known = &self.events[i];
            assert(self.deep_view().events[i as int] == known.deep_view());
            let same_content = same_bytes(
                known.signing_payload().as_slice(),
                event.signing_payload().as_slice(),
            );
            if same_content && same_signature(&known.signature, &event.signature) {
                return Ok(false);
            }
            return Err(SocialProtocolError::DuplicateEventConflict { event_id: event.id });
        }
        if Self::find_identified(&self.pending, &event.id).is_some() {
            return Ok(false);
        }
        if let Some(i) = Self::find_placed(&self.events, &event.author, event.seq) {
            assert(self.deep_view().events[i as int] == self.events@[i as int].deep_view());
            let known = self.events[i].twin();
            return self.record_conflict(known, event);
        }
        if let Some(i) = Self::find_placed(&self.pending, &event.author, event.seq) {
            assert(self.deep_view().pending[i as int] == self.pending@[i as int].deep_view());
            let known = self.pending[i].twin();
            return self.record_conflict(known, event);
        }
        self.receive(event, observed_at)
    }

    /// Offers a signed event to the log now. Reports whether it is new.
    pub fn append(&mut self, event: SocialEvent) -> (r: Result<bool, SocialProtocolError>)
        requires
            old(self).wf(),
        ensures
            exists|now: u64|
                (outcome(r), final(self).deep_view()) == #[trigger] appended(
                    old(self).deep_view(),
                    event.deep_view(),
                    now,
                ),
            final(self).wf(),
    {
        let now = outside::unix_now();
        self.append_observed(event, now)
    }

    /// Offers the events of another node to the log. Reports how many are new.
    pub fn merge(&mut self, events: Vec<SocialEvent>) -> (r: Result<usize, SocialProtocolError>)
        requires
            old(self).wf(),
        ensures
            exists|times: Seq<u64>|
                #![trigger merged(old(self).deep_view(), events.deep_view(), times)]
                times.len() == events.deep_view().len() && ({
                    let done = merged(old(self).deep_view(), events.deep_view(), times);
                    &&& final(self).deep_view() == done.1
                    &&& match r {
                        Ok(n) => done.0 == Ok::<int, SocialProtocolErrorView>(n as int),
                        Err(e) => done.0 == Err::<int, SocialProtocolErrorView>(e.deep_view()),
                    }
                }),
            final(self).wf(),
    {
        let ghost start = self.deep_view();
        let ghost all = events.deep_view();
        let ghost mut times: Seq<u64> = Seq::empty();
        let mut inserted: usize = 0;
        let mut i: usize = 0;
        while i < events.len()
            invariant
                i <= events@.len(),
                all == events.deep_view(),
                self.wf(),
                start == old(self).deep_view(),
                times.len() == i,
                inserted <= i,
                merged(start, all.subrange(0, i as int), times) == (
                    Ok::<int, SocialProtocolErrorView>(inserted as int),
                    self.deep_view(),
                ),
            decreases events@.len() - i,
        {
            let now = outside::unix_now();
            let ghost upto = all.subrange(0, i + 1);
            proof {
                assert(upto.drop_last() =~= all.subrange(0, i as int));
                assert(upto.last() == events@[i as int].deep_view());
                assert(times.push(now).drop_last() =~= times);
                times = times.push(now);
            }
            match self.append_observed(events[i].twin(), now) {
                Err(e) => {
                    proof {
                        lemma_merge_ends(start, all, times, i + 1);
                    }
                    return Err(e);
                },
                Ok(new) => {
                    if new {
                        inserted = inserted + 1;
                    }
                },
            }
            i = i + 1;
        }
        assert(all.subrange(0, i as int) =~= all);
        Ok(inserted)
    }

    fn from_base(base: Option<CompactedEventLogBase>) -> (r: Result<Self, SocialProtocolError>)
        ensures
            outcome(r) == based(base.deep_view()),
            r matches Ok(log) ==> log.wf(),
    {
        proof {
            lemma_base_upright(base.deep_view());
        }
        let mut log = Self::new();
        match base {
            None => Ok(log),
            Some(b) => {
                if b.version != COMPACTED_BASE_VERSION {
                    let version = text::decimal_text(b.version as u64);
                    return Err(
                        SocialProtocolError::InvalidCompactedLog {
                            reason: text::joined_pair(
                                "unsupported compacted base version ",
                                version.as_str(),
                            ),
                        },
                    );
                }
                log.heads = b.heads.twin();
                log.succession = b.succession.twin();
                log.equivocation_index = b.equivocation_proof_keys.twin();
                log.compacted_base = Some(b);
                Ok(log)
            },
        }
    }

    fn append_all(&mut self, items: &Vec<(SocialEvent, u64)>) -> (r: Result<
        (),
        SocialProtocolError,
    >)
        requires
            old(self).wf(),
        ensures
            match r {
                Ok(_) => all_appended(Ok(old(self).deep_view()), items.deep_view()) == Ok::<
                    SocialEventLogView,
                    SocialProtocolErrorView,
                >(final(self).deep_view()),
                Err(e) => all_appended(Ok(old(self).deep_view()), items.deep_view()) == Err::<
                    SocialEventLogView,
                    SocialProtocolErrorView,
                >(e.deep_view()),
            },
            final(self).wf(),
    {
        let ghost start: Result<SocialEventLogView, SocialProtocolErrorView> = Ok(self.deep_view());
        let ghost all = items.deep_view();
        let mut i: usize = 0;
        while i < items.len()
            invariant
                i <= items@.len(),
                all == items.deep_view(),
                start == Ok::<SocialEventLogView, SocialProtocolErrorView>(old(self).deep_view()),
                self.wf(),
                all_appended(start, all.subrange(0, i as int)) == Ok::<
                    SocialEventLogView,
                    SocialProtocolErrorView,
                >(self.deep_view()),
            decreases items@.len() - i,
        {
            proof {
                let upto = all.subrange(0, i + 1);
                assert(upto.drop_last() =~= all.subrange(0, i as int));
                assert(upto.last() == items@[i as int].deep_view());
            }
            let event = items[i].0.twin();
            let observed_at = items[i].1;
            if let Err(e) = self.append_observed(event, observed_at) {
                proof {
                    lemma_append_ends(start, all, i + 1);
                }
                return Err(e);
            }
            i = i + 1;
        }
        assert(all.subrange(0, i as int) =~= all);
        Ok(())
    }

    fn prove_all(&mut self, proofs: &Vec<EquivocationProof>) -> (r: Result<
        (),
        SocialProtocolError,
    >)
        requires
            old(self).wf(),
        ensures
            match r {
                Ok(_) => all_proved(Ok(old(self).deep_view()), proofs.deep_view()) == Ok::<
                    SocialEventLogView,
                    SocialProtocolErrorView,
                >(final(self).deep_view()),
                Err(e) => all_proved(Ok(old(self).deep_view()), proofs.deep_view()) == Err::<
                    SocialEventLogView,
                    SocialProtocolErrorView,
                >(e.deep_view()),
            },
            final(self).wf(),
    {
        let ghost start: Result<SocialEventLogView, SocialProtocolErrorView> = Ok(self.deep_view());
        let ghost all = proofs.deep_view();
        let mut i: usize = 0;
        while i < proofs.len()
            invariant
                i <= proofs@.len(),
                all == proofs.deep_view(),
                start == Ok::<SocialEventLogView, SocialProtocolErrorView>(old(self).deep_view()),
                self.wf(),
                all_proved(start, all.subrange(0, i as int)) == Ok::<
                    SocialEventLogView,
                    SocialProtocolErrorView,
                >(self.deep_view()),
            decreases proofs@.len() - i,
        {
            proof {
                let upto = all.subrange(0, i + 1);
                assert(upto.drop_last() =~= all.subrange(0, i as int));
                assert(upto.last() == proofs@[i as int].deep_view());
            }
            let evidence = proofs[i].twin();
            proof {
                lemma_proof_keeps_upright(self.deep_view(), evidence.deep_view());
            }
            if let Err(e) = self.record_equivocation(evidence) {
                proof {
                    lemma_proofs_end(start, all, i + 1);
                }
                return Err(e);
            }
            i = i + 1;
        }
        assert(all.subrange(0, i as int) =~= all);
        Ok(())
    }

    /// Assembles a log from stored parts; every event is checked again.
    pub fn from_parts(
        base: Option<CompactedEventLogBase>,
        events: &Vec<(SocialEvent, u64)>,
        pending: &Vec<(SocialEvent, u64)>,
        proofs: &Vec<EquivocationProof>,
    ) -> (r: Result<Self, SocialProtocolError>)
        ensures
            outcome(r) == assembled(
                base.deep_view(),
                events.deep_view(),
                pending.deep_view(),
                proofs.deep_view(),
            ),
            r matches Ok(log) ==> log.wf(),
    {
        let mut log = match Self::from_base(base) {
            Err(e) => {
                proof {
                    lemma_append_refused(based(base.deep_view()), events.deep_view());
                    lemma_append_refused(based(base.deep_view()), pending.deep_view());
                    lemma_proofs_refused(based(base.deep_view()), proofs.deep_view());
                }
                return Err(e);
            },
            Ok(log) => log,
        };
        if let Err(e) = log.append_all(events) {
            proof {
                let refused: Result<SocialEventLogView, SocialProtocolErrorView> = Err(e.deep_view());
                lemma_append_refused(refused, pending.deep_view());
                lemma_proofs_refused(refused, proofs.deep_view());
            }
            return Err(e);
        }
        if let Err(e) = log.append_all(pending) {
            proof {
                let refused: Result<SocialEventLogView, SocialProtocolErrorView> = Err(e.deep_view());
                lemma_proofs_refused(refused, proofs.deep_view());
            }
            return Err(e);
        }
        if let Err(e) = log.prove_all(proofs) {
            return Err(e);
        }
        Ok(log)
    }

    /// Restores a stored log; every event is checked again, and events without a
    /// stored time count as observed now.
    pub fn from_stored(
        base: Option<CompactedEventLogBase>,
        events: &Vec<SocialEvent>,
        observed_at: &Vec<u64>,
        pending: &Vec<SocialEvent>,
        pending_observed_at: &Vec<u64>,
        proofs: &Vec<EquivocationProof>,
    ) -> (r: Result<Self, SocialProtocolError>)
        ensures
            exists|now: u64|
                outcome(r) == assembled(
                    base.deep_view(),
                    #[trigger] observed(events.deep_view(), observed_at@, now),
                    observed(pending.deep_view(), pending_observed_at@, now),
                    proofs.deep_view(),
                ),
            r matches Ok(log) ==> log.wf(),
    {
        let now = outside::unix_now();
        let taken = fill_observed_times(events, observed_at, now);
        let waiting = fill_observed_times(pending, pending_observed_at, now);
        let r = Self::from_parts(base, &taken, &waiting, proofs);
        assert(outcome(r) == assembled(
            base.deep_view(),
            observed(events.deep_view(), observed_at@, now),
            observed(pending.deep_view(), pending_observed_at@, now),
            proofs.deep_view(),
        ));
        r
    }

    /// A log whose base stands for events from before chains: each of their
    /// authors continues from position zero.
    pub fn from_migrated_legacy_base(society: &Society, authors: &Group<Did>, event_count: usize) -> (r:
        Self)
        ensures
            r.deep_view() == migrated_log(society.deep_view(), authors.deep_view(), event_count),
            r.wf(),
    {
        let ghost names = authors.members();
        let n = authors.len();
        let mut heads: Table<Did, ChainHead> = Table::new();
        let mut i: usize = 0;
        while i < n
            invariant
                i <= n,
                n == names.len(),
                names == authors.members(),
                heads.rows() == legacy_heads(names.subrange(0, i as int)),
            decreases n - i,
        {
            proof {
                let upto = names.subrange(0, i + 1);
                assert(upto.drop_last() =~= names.subrange(0, i as int));
                assert(upto.last() == names[i as int]);
            }
            let author = authors.at(i);
            let mark = text::joined_pair("nexus:legacy-chain:v1:", author.as_str());
            let bytes = text::bytes_of(mark.as_str());
            let id = outside::hex_encode(outside::sha256(bytes.as_slice()).as_slice());
            heads.insert(author.twin(), ChainHead { seq: 0, id });
            i = i + 1;
        }
        assert(names.subrange(0, i as int) =~= names);
        let mut log = Self::new();
        log.heads = heads.twin();
        log.succession = society.succession().twin();
        log.compacted_base = Some(
            CompactedEventLogBase {
                version: COMPACTED_BASE_VERSION,
                event_count,
                equivocation_proof_count: 0,
                last_observed_at: None,
                society: society.twin(),
                heads,
                succession: society.succession().twin(),
                equivocation_proof_keys: Group::new(),
            },
        );
        proof {
            lemma_base_upright(log.deep_view().compacted_base);
        }
        log
    }

    /// Builds a log from events that are observed now.
    pub fn from_events(events: Vec<SocialEvent>) -> (r: Result<Self, SocialProtocolError>)
        ensures
            exists|now: u64|
                outcome(r) == assembled(
                    None,
                    #[trigger] all_at(events.deep_view(), now),
                    Seq::empty(),
                    Seq::empty(),
                ),
            r matches Ok(log) ==> log.wf(),
    {
        let now = outside::unix_now();
        let mut items: Vec<(SocialEvent, u64)> = Vec::new();
        while items.len() < events.len()
            invariant
                items@.len() <= events@.len(),
                forall|j: int|
                    0 <= j < items@.len() ==> (#[trigger] items@[j]).deep_view() == (
                        events.deep_view()[j],
                        now,
                    ),
            decreases events@.len() - items@.len(),
        {
            items.push((events[items.len()].twin(), now));
        }
        let none: Vec<(SocialEvent, u64)> = Vec::new();
        let no_proofs: Vec<EquivocationProof> = Vec::new();
        proof {
            assert(items.deep_view() =~= all_at(events.deep_view(), now));
            assert(none.deep_view() =~= Seq::<(SocialEventView, u64)>::empty());
            assert(no_proofs.deep_view() =~= Seq::<EquivocationProofView>::empty());
        }
        Self::from_parts(None, &items, &none, &no_proofs)
    }

    fn timed(events: &Vec<SocialEvent>, times: &Vec<u64>, from: usize, to: usize) -> (r: Vec<
        (SocialEvent, u64),
    >)
        requires
            from <= to <= events@.len(),
            events@.len() == times@.len(),
        ensures
            r.deep_view() == zipped(events.deep_view(), times.deep_view()).subrange(
                from as int,
                to as int,
            ),
    {
        let mut r: Vec<(SocialEvent, u64)> = Vec::new();
        while r.len() < to - from
            invariant
                from <= to <= events@.len(),
                events@.len() == times@.len(),
                r@.len() <= to - from,
                forall|j: int|
                    0 <= j < r@.len() ==> (#[trigger] r@[j]).deep_view() == (
                        events.deep_view()[from + j],
                        times.deep_view()[from + j],
                    ),
            decreases to - from - r@.len(),
        {
            let at = from + r.len();
            r.push((events[at].twin(), times[at]));
        }
        assert(r.deep_view() =~= zipped(events.deep_view(), times.deep_view()).subrange(
            from as int,
            to as int,
        ));
        r
    }

    /// Assembles the log anew from its own parts.
    pub fn rebuild_index(&mut self) -> (r: Result<(), SocialProtocolError>)
        requires
            old(self).wf(),
        ensures
            ({
                let v = old(self).deep_view();
                match assembled(
                    v.compacted_base,
                    zipped(v.events, v.observed_at),
                    zipped(v.pending, v.pending_observed_at),
                    v.equivocation_proofs,
                ) {
                    Ok(log) => r is Ok && final(self).deep_view() == log,
                    Err(e) => outcome(r) == Err::<(), SocialProtocolErrorView>(e)
                        && final(self).deep_view() == empty_log(),
                }
            }),
            final(self).wf(),
    {
        let events = Self::timed(&self.events, &self.observed_at, 0, self.events.len());
        let pending = Self::timed(
            &self.pending,
            &self.pending_observed_at,
            0,
            self.pending.len(),
        );
        proof {
            let v = self.deep_view();
            assert(events.deep_view() =~= zipped(v.events, v.observed_at));
            assert(pending.deep_view() =~= zipped(v.pending, v.pending_observed_at));
        }
        match Self::from_parts(
            self.compacted_base.twin(),
            &events,
            &pending,
            &self.equivocation_proofs,
        ) {
            Ok(log) => {
                *self = log;
                Ok(())
            },
            Err(e) => {
                *self = Self::new();
                Err(e)
            },
        }
    }

    /// Compacts all but the most recent events into a base.
    pub fn compact_retaining_recent(&mut self, retain_events: usize) -> (r: Result<
        bool,
        SocialProtocolError,
    >)
        requires
            old(self).wf(),
        ensures
            (outcome(r), final(self).deep_view()) == compacted(
                old(self).deep_view(),
                retain_events,
            ),
            final(self).wf(),
    {
        if self.events.len() <= retain_events {
            return Ok(false);
        }
        if self.pending.len() > 0 {
            return Err(
                SocialProtocolError::InvalidCompactedLog {
                    reason: text::owned("cannot compact while author-chain gaps are pending"),
                },
            );
        }
        let start: usize = self.events.len() - retain_events;
        let first = Self::timed(&self.events, &self.observed_at, 0, start);
        let rest = Self::timed(&self.events, &self.observed_at, start, self.events.len());
        let mut base_log = match Self::from_base(self.compacted_base.twin()) {
            Err(e) => {
                proof {
                    let v = self.deep_view();
                    lemma_append_refused(based(v.compacted_base), first.deep_view());
                    lemma_proofs_refused(based(v.compacted_base), v.equivocation_proofs);
                }
                return Err(e);
            },
            Ok(log) => log,
        };
        if let Err(e) = base_log.append_all(&first) {
            proof {
                let refused: Result<SocialEventLogView, SocialProtocolErrorView> = Err(e.deep_view());
                lemma_proofs_refused(refused, self.deep_view().equivocation_proofs);
            }
            return Err(e);
        }
        if let Err(e) = base_log.prove_all(&self.equivocation_proofs) {
            return Err(e);
        }
        let society = base_log.to_society();
        let event_count = add_counts(self.compacted_event_count(), start);
        let known_proofs = match &self.compacted_base {
            Some(base) => base.equivocation_proof_count,
            None => 0,
        };
        let proof_count = add_counts(known_proofs, self.equivocation_proofs.len());
        let base = CompactedEventLogBase::from_log_state(
            &base_log,
            society,
            event_count,
            proof_count,
        );
        let none: Vec<(SocialEvent, u64)> = Vec::new();
        let no_proofs: Vec<EquivocationProof> = Vec::new();
        proof {
            assert(none.deep_view() =~= Seq::<(SocialEventView, u64)>::empty());
            assert(no_proofs.deep_view() =~= Seq::<EquivocationProofView>::empty());
        }
        match Self::from_parts(Some(base), &rest, &none, &no_proofs) {
            Ok(log) => {
                *self = log;
                Ok(true)
            },
            Err(e) => {
                *self = Self::new();
                Err(e)
            },
        }
    }

    /// The number of events, those in the base among them.
    pub fn len(&self) -> (r: usize)
        requires
            compacted_count(self.deep_view()) + self.deep_view().events.len() <= usize::MAX,
        ensures
            r == compacted_count(self.deep_view()) + self.deep_view().events.len(),
    {
        self.compacted_event_count() + self.events.len()
    }

    /// The number of events that are retained.
    pub fn retained_len(&self) -> (r: usize)
        ensures
            r == self.deep_view().events.len(),
    {
        self.events.len()
    }

    /// The number of events in the base.
    pub fn compacted_event_count(&self) -> (r: usize)
        ensures
            r == compacted_count(self.deep_view()),
    {
        match &self.compacted_base {
            Some(base) => base.event_count,
            None => 0,
        }
    }

    /// Whether the log has no events.
    pub fn is_empty(&self) -> (r: bool)
        ensures
            r == (compacted_count(self.deep_view()) + self.deep_view().events.len() == 0),
    {
        self.compacted_event_count() == 0 && self.events.len() == 0
    }

    /// The retained events in order of acceptance.
    pub fn events(&self) -> (r: &[SocialEvent])
        ensures
            r.deep_view() == self.deep_view().events,
    {
        let all = self.events.as_slice();
        assert(all.deep_view() =~= self.events.deep_view());
        all
    }

    /// When the retained events were observed.
    pub fn observed_times(&self) -> (r: &[u64])
        ensures
            r.deep_view() == self.deep_view().observed_at,
    {
        let all = self.observed_at.as_slice();
        assert(all.deep_view() =~= self.observed_at.deep_view());
        all
    }

    /// The events that wait for a predecessor.
    pub fn pending_events(&self) -> (r: &[SocialEvent])
        ensures
            r.deep_view() == self.deep_view().pending,
    {
        let all = self.pending.as_slice();
        assert(all.deep_view() =~= self.pending.deep_view());
        all
    }

    /// When the waiting events were observed.
    pub fn pending_observed_times(&self) -> (r: &[u64])
        ensures
            r.deep_view() == self.deep_view().pending_observed_at,
    {
        let all = self.pending_observed_at.as_slice();
        assert(all.deep_view() =~= self.pending_observed_at.deep_view());
        all
    }

    /// The evidence of equivocation that is retained.
    pub fn equivocation_proofs(&self) -> (r: &[EquivocationProof])
        ensures
            r.deep_view() == self.deep_view().equivocation_proofs,
    {
        let all = self.equivocation_proofs.as_slice();
        assert(all.deep_view() =~= self.equivocation_proofs.deep_view());
        all
    }

    /// The base, if events were compacted.
    pub fn compacted_base(&self) -> (r: Option<&CompactedEventLogBase>)
        ensures
            r.deep_view() == self.deep_view().compacted_base,
    {
        match &self.compacted_base {
            Some(base) => Some(base),
            None => None,
        }
    }

    /// Whether an event is retained or waits.
    pub fn contains(&self, event_id: &str) -> (r: bool)
        ensures
            r == (order::first_where(self.deep_view().events, identified_by(event_id@)) is Some
                || order::first_where(self.deep_view().pending, identified_by(event_id@)) is Some),
    {
        let id = text::owned(event_id);
        Self::find_identified(&self.events, &id).is_some() || Self::find_identified(
            &self.pending,
            &id,
        ).is_some()
    }

    /// The position and the predecessor of the next event of an author.
    pub fn next_position(&self, author: &Did) -> (r: (u64, Option<String>))
        ensures
            (r.0, r.1.deep_view()) == (match table::find(
                self.deep_view().heads,
                author.deep_view(),
            ) {
                Some(head) => (next_seq(head.seq), Some(head.id)),
                None => (0, None),
            }),
    {
        match self.heads.get(author) {
            Some(head) => {
                let next: u64 = if head.seq < u64::MAX {
                    head.seq + 1
                } else {
                    head.seq
                };
                (next, Some(head.id.twin()))
            },
            None => (0, None),
        }
    }

    /// Replays a suffix of events, in the order of replay, and of evidence.
    pub fn replay_from(&self, society: &mut Society, event_start: usize, proof_start: usize)
        ensures
            final(society).deep_view() == resumed(
                self.deep_view(),
                old(society).deep_view(),
                event_start as int,
                proof_start as int,
            ),
    {
        let ghost start = society.deep_view();
        let mut suffix: Vec<&SocialEvent> = Vec::new();
        let mut i: usize = event_start;
        while i < self.events.len()
            invariant
                event_start <= i,
                i <= self.events@.len() || i == event_start,
                suffix@.len() == i - event_start,
                forall|j: int|
                    0 <= j < suffix@.len() ==> (#[trigger] suffix@[j]).deep_view()
                        == self.events.deep_view()[event_start + j],
            decreases self.events@.len() - i,
        {
            suffix.push(&self.events[i]);
            i = i + 1;
        }
        assert(suffix.deep_view() =~= after(self.events.deep_view(), event_start as int));
        let key = |e: &SocialEvent| -> (k: Vec<KeyPart>)
            ensures
                k.deep_view() == by_replay()(e.deep_view()),
            { by_replay_of(e) };
        let ordered = order::sorted(suffix, key, Ghost(by_replay()));
        let ghost all = ordered.deep_view();
        let mut k: usize = 0;
        while k < ordered.len()
            invariant
                k <= ordered@.len(),
                all == ordered.deep_view(),
                society.deep_view() == replayed(start, all.subrange(0, k as int)),
            decreases ordered@.len() - k,
        {
            proof {
                let upto = all.subrange(0, k + 1);
                assert(upto.drop_last() =~= all.subrange(0, k as int));
                assert(upto.last() == ordered@[k as int].deep_view());
            }
            society.apply_event(ordered[k]);
            k = k + 1;
        }
        assert(all.subrange(0, k as int) =~= all);
        let ghost middle = society.deep_view();
        let ghost proofs = after(self.equivocation_proofs.deep_view(), proof_start as int);
        let mut m: usize = proof_start;
        assert(proofs.subrange(0, 0) =~= Seq::<EquivocationProofView>::empty());
        while m < self.equivocation_proofs.len()
            invariant
                proof_start <= m,
                m <= self.equivocation_proofs@.len() || m == proof_start,
                proofs == after(self.equivocation_proofs.deep_view(), proof_start as int),
                m - proof_start <= proofs.len(),
                society.deep_view() == convicted(
                    middle,
                    proofs.subrange(0, m - proof_start),
                ),
            decreases self.equivocation_proofs@.len() - m,
        {
            proof {
                let upto = proofs.subrange(0, m + 1 - proof_start);
                assert(upto.drop_last() =~= proofs.subrange(0, m - proof_start));
                assert(upto.last() == self.equivocation_proofs@[m as int].deep_view());
            }
            society.record_equivocation_proof(self.equivocation_proofs[m].twin());
            m = m + 1;
        }
        assert(proofs.subrange(0, m - proof_start) =~= proofs);
    }

    /// Replays the log: author chains by position, and events of several authors
    /// at one position by identifier. What authors say of the time decides
    /// nothing.
    pub fn replay_into(&self, society: &mut Society)
        ensures
            final(society).deep_view() == described(
                self.deep_view(),
                old(society).deep_view(),
            ),
    {
        if let Some(base) = &self.compacted_base {
            *society = base.society.twin();
        }
        self.replay_from(society, 0, 0);
    }

    /// Whether the events of a suffix all come after those before it in the order
    /// of replay.
    pub fn suffix_replay_is_ordered(&self, event_start: usize) -> (r: bool)
        ensures
            r == forall|i: int, j: int|
                0 <= i < event_start <= j < self.deep_view().events.len() ==> order::key_le(
                    by_replay()(#[trigger] self.deep_view().events[i]),
                    by_replay()(#[trigger] self.deep_view().events[j]),
                ),
    {
        let ghost all = self.deep_view().events;
        let mut j: usize = event_start;
        while j < self.events.len()
            invariant
                event_start <= j,
                all == self.events.deep_view(),
                forall|a: int, b: int|
                    0 <= a < event_start <= b < j && b < all.len() ==> order::key_le(
                        by_replay()(#[trigger] all[a]),
                        by_replay()(#[trigger] all[b]),
                    ),
            decreases self.events@.len() - j,
        {
            let later = by_replay_of(&self.events[j]);
            let mut i: usize = 0;
            while i < event_start
                invariant
                    i <= event_start <= j < self.events@.len(),
                    all == self.events.deep_view(),
                    all == self.deep_view().events,
                    later.deep_view() == by_replay()(all[j as int]),
                    forall|a: int|
                        0 <= a < i ==> order::key_le(
                            by_replay()(#[trigger] all[a]),
                            by_replay()(all[j as int]),
                        ),
                decreases event_start - i,
            {
                let earlier = by_replay_of(&self.events[i]);
                assert(all[i as int] == self.events@[i as int].deep_view());
                if !order::key_at_most(&earlier, &later) {
                    assert(!order::key_le(by_replay()(all[i as int]), by_replay()(all[j as int])));
                    return false;
                }
                i = i + 1;
            }
            j = j + 1;
        }
        true
    }

    /// The society that the log describes.
    pub fn to_society(&self) -> (r: Society)
        ensures
            r.deep_view() == described(self.deep_view(), nothing_known()),
    {
        let mut society = Society::new();
        self.replay_into(&mut society);
        society
    }
}

fn add_counts(a: usize, b: usize) -> (r: usize)
    ensures
        r == count_sum(a, b),
{
    if a <= usize::MAX - b {
        a + b
    } else {
        usize::MAX
    }
}

fn same_signature(a: &Option<Vec<u8>>, b: &Option<Vec<u8>>) -> (r: bool)
    ensures
        r == (a.deep_view() == b.deep_view()),
{
    match (a, b) {
        (Some(x), Some(y)) => same_bytes(x.as_slice(), y.as_slice()),
        (None, None) => true,
        _ => false,
    }
}

proof fn lemma_merge_ends(v: SocialEventLogView, events: Seq<SocialEventView>, times: Seq<u64>, n: int)
    requires
        0 <= n <= events.len(),
        times.len() == n,
        merged(v, events.subrange(0, n), times).0 is Err,
    ensures
        exists|more: Seq<u64>|
            #![trigger merged(v, events, more)]
            more.len() == events.len() && merged(v, events, more) == merged(
                v,
                events.subrange(0, n),
                times,
            ),
    decreases events.len(),
{
    if n == events.len() {
        assert(events.subrange(0, n) =~= events);
        assert(merged(v, events, times) == merged(v, events.subrange(0, n), times));
    } else {
        let front = events.drop_last();
        assert(front.subrange(0, n) =~= events.subrange(0, n));
        lemma_merge_ends(v, front, times, n);
        let more = choose|more: Seq<u64>|
            #![trigger merged(v, front, more)]
            more.len() == front.len() && merged(v, front, more) == merged(
                v,
                front.subrange(0, n),
                times,
            );
        assert(more.push(0).drop_last() =~= more);
        assert(merged(v, events, more.push(0)) == merged(v, front, more));
    }
}

/// A refusal ends a sequence of offers, whatever follows.
pub proof fn lemma_append_ends(
    v: Result<SocialEventLogView, SocialProtocolErrorView>,
    items: Seq<(SocialEventView, u64)>,
    n: int,
)
    requires
        0 <= n <= items.len(),
        all_appended(v, items.subrange(0, n)) is Err,
    ensures
        all_appended(v, items) == all_appended(v, items.subrange(0, n)),
    decreases items.len(),
{
    if n == items.len() {
        assert(items.subrange(0, n) =~= items);
    } else {
        assert(items.drop_last().subrange(0, n) =~= items.subrange(0, n));
        lemma_append_ends(v, items.drop_last(), n);
    }
}

proof fn lemma_proofs_end(
    v: Result<SocialEventLogView, SocialProtocolErrorView>,
    proofs: Seq<EquivocationProofView>,
    n: int,
)
    requires
        0 <= n <= proofs.len(),
        all_proved(v, proofs.subrange(0, n)) is Err,
    ensures
        all_proved(v, proofs) == all_proved(v, proofs.subrange(0, n)),
    decreases proofs.len(),
{
    if n == proofs.len() {
        assert(proofs.subrange(0, n) =~= proofs);
    } else {
        assert(proofs.drop_last().subrange(0, n) =~= proofs.subrange(0, n));
        lemma_proofs_end(v, proofs.drop_last(), n);
    }
}

/// A log that was refused stays refused, whatever is offered to it.
pub proof fn lemma_append_refused(
    v: Result<SocialEventLogView, SocialProtocolErrorView>,
    items: Seq<(SocialEventView, u64)>,
)
    requires
        v is Err,
    ensures
        all_appended(v, items) == v,
    decreases items.len(),
{
    if items.len() > 0 {
        lemma_append_refused(v, items.drop_last());
    }
}

/// A log that was refused stays refused, whatever evidence is offered to it.
pub proof fn lemma_proofs_refused(
    v: Result<SocialEventLogView, SocialProtocolErrorView>,
    proofs: Seq<EquivocationProofView>,
)
    requires
        v is Err,
    ensures
        all_proved(v, proofs) == v,
    decreases proofs.len(),
{
    if proofs.len() > 0 {
        lemma_proofs_refused(v, proofs.drop_last());
    }
}

/// The heads after events.
pub open spec fn heads_after(
    heads: Seq<(Seq<char>, ChainHeadView)>,
    events: Seq<SocialEventView>,
) -> Seq<(Seq<char>, ChainHeadView)>
    decreases events.len(),
{
    if events.len() == 0 {
        heads
    } else {
        table::put(
            heads_after(heads, events.drop_last()),
            events.last().author,
            ChainHeadView { seq: events.last().seq, id: events.last().id },
        )
    }
}

/// Whether each event continues the chain of its author.
pub open spec fn linked(
    heads: Seq<(Seq<char>, ChainHeadView)>,
    events: Seq<SocialEventView>,
) -> bool
    decreases events.len(),
{
    events.len() == 0 || {
        &&& linked(heads, events.drop_last())
        &&& continues(heads_after(heads, events.drop_last()), events.last()) == Ok::<
            bool,
            SocialProtocolErrorView,
        >(true)
    }
}

/// The heads that a log starts from.
pub open spec fn base_heads(v: SocialEventLogView) -> Seq<(Seq<char>, ChainHeadView)> {
    match v.compacted_base {
        Some(base) => base.heads,
        None => Seq::empty(),
    }
}

/// Whether the chains of a log have no gap and no fork, and end in its heads.
pub open spec fn chained(v: SocialEventLogView) -> bool {
    &&& linked(base_heads(v), v.events)
    &&& v.heads == heads_after(base_heads(v), v.events)
}

/// Whether no two events of a log, waiting ones among them, have one identifier.
pub open spec fn ids_distinct(v: SocialEventLogView) -> bool {
    &&& forall|i: int, j: int|
        0 <= i < j < v.events.len() ==> (#[trigger] v.events[i]).id != (#[trigger] v.events[j]).id
    &&& forall|i: int, j: int|
        0 <= i < j < v.pending.len() ==> (#[trigger] v.pending[i]).id != (
        #[trigger] v.pending[j]).id
    &&& forall|i: int, j: int|
        0 <= i < v.events.len() && 0 <= j < v.pending.len() ==> (#[trigger] v.events[i]).id != (
        #[trigger] v.pending[j]).id
}

proof fn lemma_accept_keeps_chains(v: SocialEventLogView, e: SocialEventView, observed_at: u64)
    requires
        sound(v),
        chained(v),
        event_valid(e) is Ok,
        continues(v.heads, e) == Ok::<bool, SocialProtocolErrorView>(true),
    ensures
        chained(accepted(v, e, observed_at)),
{
    lemma_accepted(v, e, observed_at);
    assert(v.events.push(e).drop_last() =~= v.events);
}

proof fn lemma_drain_keeps_chains(v: SocialEventLogView, author: Seq<char>, fuel: nat)
    requires
        sound(v),
        chained(v),
    ensures
        chained(drained(v, author, fuel).1),
        sound(drained(v, author, fuel).1),
    decreases fuel,
{
    order::lemma_first_where(v.pending, ready(v.heads, author));
    if let Some(i) = order::first_where(v.pending, ready(v.heads, author)) {
        if fuel > 0 {
            let e = v.pending[i];
            let left = SocialEventLogView {
                pending: v.pending.remove(i),
                pending_observed_at: v.pending_observed_at.remove(i),
                ..v
            };
            lemma_removed(v, i);
            if may_act(left, e.author) is Ok {
                lemma_accept_keeps_chains(left, e, v.pending_observed_at[i]);
                lemma_accepted(left, e, v.pending_observed_at[i]);
                lemma_drain_keeps_chains(
                    accepted(left, e, v.pending_observed_at[i]),
                    author,
                    (fuel - 1) as nat,
                );
            }
        }
    }
}

/// Whatever is offered to a log, each author's chain in it stays without gap and
/// without fork.
pub proof fn lemma_append_keeps_chains(v: SocialEventLogView, e: SocialEventView, observed_at: u64)
    requires
        sound(v),
        chained(v),
    ensures
        chained(appended(v, e, observed_at).1),
{
    if event_valid(e) is Ok {
        if continues(v.heads, e) == Ok::<bool, SocialProtocolErrorView>(true) {
            lemma_accept_keeps_chains(v, e, observed_at);
            lemma_accepted(v, e, observed_at);
            let next = accepted(v, e, observed_at);
            lemma_drain_keeps_chains(next, e.author, next.pending.len());
        }
    }
}

proof fn lemma_swept_ids(v: SocialEventLogView, e: SocialEventView, n: int)
    requires
        0 <= n <= v.pending.len(),
        forall|i: int, j: int|
            0 <= i < j < v.pending.len() ==> (#[trigger] v.pending[i]).id != (
            #[trigger] v.pending[j]).id,
    ensures
        forall|k: int|
            0 <= k < swept(v, e, n).pending.len() ==> exists|m: int|
                0 <= m < n && v.pending[m] == #[trigger] swept(v, e, n).pending[k],
        forall|i: int, j: int|
            0 <= i < j < swept(v, e, n).pending.len() ==> (#[trigger] swept(v, e, n).pending[i]).id
                != (#[trigger] swept(v, e, n).pending[j]).id,
    decreases n,
{
    if n > 0 {
        lemma_swept_ids(v, e, n - 1);
        let before = swept(v, e, n - 1).pending;
        let after = swept(v, e, n).pending;
        assert forall|k: int| 0 <= k < after.len() implies exists|m: int|
            0 <= m < n && v.pending[m] == #[trigger] after[k] by {
            if k < before.len() {
                assert(after[k] == before[k]);
                let m = choose|m: int| 0 <= m < n - 1 && v.pending[m] == before[k];
                assert(v.pending[m] == after[k]);
            } else {
                assert(v.pending[n - 1] == after[k]);
            }
        }
        assert forall|i: int, j: int| 0 <= i < j < after.len() implies (#[trigger] after[i]).id != (
        #[trigger] after[j]).id by {
            assert(after[i] == before[i]);
            if j < before.len() {
                assert(after[j] == before[j]);
            } else {
                let m = choose|m: int| 0 <= m < n - 1 && v.pending[m] == before[i];
                assert(v.pending[m].id != v.pending[n - 1].id);
            }
        }
    }
}

/// What acceptance leaves pending was pending before.
proof fn lemma_accept_pending(v: SocialEventLogView, e: SocialEventView, observed_at: u64)
    requires
        sound(v),
        event_valid(e) is Ok,
        ids_distinct(v),
        forall|i: int| 0 <= i < v.events.len() ==> (#[trigger] v.events[i]).id != e.id,
        forall|i: int| 0 <= i < v.pending.len() ==> (#[trigger] v.pending[i]).id != e.id,
    ensures
        ids_distinct(accepted(v, e, observed_at)),
        forall|k: int|
            0 <= k < accepted(v, e, observed_at).pending.len() ==> v.pending.contains(
                #[trigger] accepted(v, e, observed_at).pending[k],
            ),
{
    let known = SocialEventLogView {
        heads: table::put(v.heads, e.author, ChainHeadView { seq: e.seq, id: e.id }),
        succession: succeeded(v.succession, e),
        ..v
    };
    lemma_swept_ids(known, e, v.pending.len() as int);
    lemma_accepted(v, e, observed_at);
    let after = accepted(v, e, observed_at);
    assert(after.pending == swept(known, e, v.pending.len() as int).pending);
    assert forall|k: int| 0 <= k < after.pending.len() implies v.pending.contains(
        #[trigger] after.pending[k],
    ) by {
        let m = choose|m: int| 0 <= m < v.pending.len() && known.pending[m] == after.pending[k];
        assert(v.pending[m] == after.pending[k]);
    }
    assert forall|i: int, j: int| 0 <= i < j < after.events.len() implies (
    #[trigger] after.events[i]).id != (#[trigger] after.events[j]).id by {
        assert(after.events[i] == v.events[i]);
        if j < v.events.len() {
            assert(after.events[j] == v.events[j]);
        }
    }
    assert forall|i: int, j: int|
        0 <= i < after.events.len() && 0 <= j < after.pending.len() implies (
    #[trigger] after.events[i]).id != (#[trigger] after.pending[j]).id by {
        assert(v.pending.contains(after.pending[j]));
        let m = v.pending.index_of(after.pending[j]);
        assert(v.pending[m] == after.pending[j]);
        if i < v.events.len() {
            assert(after.events[i] == v.events[i]);
        }
    }
}

/// What is left when a waiting event is taken out.
proof fn lemma_removed_ids(v: SocialEventLogView, i: int)
    requires
        ids_distinct(v),
        0 <= i < v.pending.len(),
    ensures
        ({
            let left = SocialEventLogView {
                pending: v.pending.remove(i),
                pending_observed_at: v.pending_observed_at.remove(i),
                ..v
            };
            &&& ids_distinct(left)
            &&& forall|k: int|
                0 <= k < left.pending.len() ==> v.pending.contains(#[trigger] left.pending[k])
                    && left.pending[k].id != v.pending[i].id
            &&& forall|k: int|
                0 <= k < left.events.len() ==> (#[trigger] left.events[k]).id != v.pending[i].id
        }),
{
    let e = v.pending[i];
    let left = v.pending.remove(i);
    assert forall|k: int| 0 <= k < left.len() implies v.pending.contains(#[trigger] left[k])
        && left[k].id != e.id by {
        let k0 = if k < i { k } else { k + 1 };
        assert(v.pending[k0] == left[k]);
        if k0 < i {
            assert(v.pending[k0].id != v.pending[i].id);
        } else {
            assert(v.pending[i].id != v.pending[k0].id);
        }
    }
    assert forall|a: int, b: int| 0 <= a < b < left.len() implies (#[trigger] left[a]).id != (
    #[trigger] left[b]).id by {
        let a0 = if a < i { a } else { a + 1 };
        let b0 = if b < i { b } else { b + 1 };
        assert(v.pending[a0].id != v.pending[b0].id);
    }
    assert forall|a: int, b: int| 0 <= a < v.events.len() && 0 <= b < left.len() implies (
    #[trigger] v.events[a]).id != (#[trigger] left[b]).id by {
        let b0 = if b < i { b } else { b + 1 };
        assert(v.events[a].id != v.pending[b0].id);
    }
}

/// Draining keeps the events that are there and adds only ones that waited.
#[verifier::spinoff_prover]
#[verifier::rlimit(40)]
proof fn lemma_drain_ids(v: SocialEventLogView, author: Seq<char>, fuel: nat)
    requires
        sound(v),
        ids_distinct(v),
    ensures
        ids_distinct(drained(v, author, fuel).1),
        sound(drained(v, author, fuel).1),
        drained(v, author, fuel).1.events.len() >= v.events.len(),
        forall|i: int|
            0 <= i < v.events.len() ==> #[trigger] drained(v, author, fuel).1.events[i]
                == v.events[i],
        forall|i: int|
            v.events.len() <= i < drained(v, author, fuel).1.events.len() ==> v.pending.contains(
                #[trigger] drained(v, author, fuel).1.events[i],
            ),
    decreases fuel,
{
    order::lemma_first_where(v.pending, ready(v.heads, author));
    if let Some(i) = order::first_where(v.pending, ready(v.heads, author)) {
        if fuel > 0 {
            let e = v.pending[i];
            let left = SocialEventLogView {
                pending: v.pending.remove(i),
                pending_observed_at: v.pending_observed_at.remove(i),
                ..v
            };
            lemma_removed(v, i);
            lemma_removed_ids(v, i);
            if may_act(left, e.author) is Ok {
                let at = v.pending_observed_at[i];
                lemma_accept_pending(left, e, at);
                lemma_accepted(left, e, at);
                let next = accepted(left, e, at);
                lemma_drain_ids(next, author, (fuel - 1) as nat);
                let done = drained(next, author, (fuel - 1) as nat).1;
                assert forall|k: int| v.events.len() <= k < done.events.len() implies v.pending.contains(
                    #[trigger] done.events[k],
                ) by {
                    if k == v.events.len() {
                        assert(done.events[k] == next.events[k]);
                        assert(v.pending[i] == e);
                    } else {
                        assert(next.pending.contains(done.events[k]));
                        let m = next.pending.index_of(done.events[k]);
                        assert(left.pending.contains(next.pending[m]));
                        let q = left.pending.index_of(next.pending[m]);
                        assert(left.pending[q] == done.events[k]);
                    }
                }
                assert forall|k: int| 0 <= k < v.events.len() implies #[trigger] done.events[k]
                    == v.events[k] by {
                    assert(done.events[k] == next.events[k]);
                }
            }
        }
    }
}

/// No identifier occurs twice in a log, whatever is offered to it.
pub proof fn lemma_append_keeps_ids_distinct(v: SocialEventLogView, e: SocialEventView, observed_at: u64)
    requires
        sound(v),
        ids_distinct(v),
    ensures
        ids_distinct(appended(v, e, observed_at).1),
{
    order::lemma_first_where(v.events, identified_by(e.id));
    order::lemma_first_where(v.pending, identified_by(e.id));
    if event_valid(e) is Ok && order::first_where(v.events, identified_by(e.id)) is None
        && order::first_where(v.pending, identified_by(e.id)) is None {
        assert forall|i: int| 0 <= i < v.events.len() implies (#[trigger] v.events[i]).id != e.id by {
            assert(!identified_by(e.id)(v.events[i]));
        }
        assert forall|i: int| 0 <= i < v.pending.len() implies (#[trigger] v.pending[i]).id
            != e.id by {
            assert(!identified_by(e.id)(v.pending[i]));
        }
        lemma_accept_pending(v, e, observed_at);
        lemma_accepted(v, e, observed_at);
        let next = accepted(v, e, observed_at);
        lemma_drain_ids(next, e.author, next.pending.len());
    }
}

/// An event that a log took, offered again, is not new and changes nothing.
pub proof fn lemma_append_is_idempotent(
    v: SocialEventLogView,
    e: SocialEventView,
    observed_at: u64,
    again_at: u64,
)
    requires
        sound(v),
        ids_distinct(v),
        appended(v, e, observed_at).0 is Ok,
        dated(e, again_at) is Ok,
    ensures
        appended(appended(v, e, observed_at).1, e, again_at) == (
            Ok::<bool, SocialProtocolErrorView>(false),
            appended(v, e, observed_at).1,
        ),
{
    let done = appended(v, e, observed_at).1;
    let same = identified_by(e.id);
    let place = placed_at(e.author, e.seq);
    order::lemma_first_where(v.events, same);
    order::lemma_first_where(v.pending, same);
    if order::first_where(v.events, same) is None && order::first_where(v.pending, same) is None {
        if let Some(i) = order::first_where(v.events, place) {
            let p = evidence_of(v.events[i], e);
            lemma_known_proof(v, p);
        } else if let Some(i) = order::first_where(v.pending, place) {
            let p = evidence_of(v.pending[i], e);
            lemma_known_proof(v, p);
        } else if continues(v.heads, e) == Ok::<bool, SocialProtocolErrorView>(true) {
            assert forall|i: int| 0 <= i < v.events.len() implies (#[trigger] v.events[i]).id
                != e.id by {
                assert(!same(v.events[i]));
            }
            assert forall|i: int| 0 <= i < v.pending.len() implies (#[trigger] v.pending[i]).id
                != e.id by {
                assert(!same(v.pending[i]));
            }
            lemma_accept_pending(v, e, observed_at);
            lemma_accepted(v, e, observed_at);
            let next = accepted(v, e, observed_at);
            lemma_drain_ids(next, e.author, next.pending.len());
            let n = v.events.len() as int;
            assert(done.events[n] == next.events[n]);
            assert(same(done.events[n]));
            assert forall|j: int| 0 <= j < n implies !same(#[trigger] done.events[j]) by {
                assert(done.events[j] == next.events[j]);
                assert(next.events[j] == v.events[j]);
            }
            order::lemma_is_first_where(done.events, same, n);
        } else {
            order::lemma_first_where(done.events, same);
            let n = v.pending.len() as int;
            assert(same(done.pending[n]));
            assert forall|j: int| 0 <= j < n implies !same(#[trigger] done.pending[j]) by {
                assert(done.pending[j] == v.pending[j]);
            }
            order::lemma_is_first_where(done.pending, same, n);
        }
    }
}

proof fn lemma_known_proof(v: SocialEventLogView, p: EquivocationProofView)
    ensures
        equivocates(p) is Ok ==> with_proof(with_proof(v, p).1, p) == (
            Ok::<bool, SocialProtocolErrorView>(false),
            with_proof(v, p).1,
        ),
{
    let after = with_proof(v, p).1.equivocation_index;
    if equivocates(p) is Ok && !v.equivocation_index.contains(evidence_key(p)) {
        assert(after[v.equivocation_index.len() as int] == evidence_key(p));
    }
}

/// The order of replay tells events with distinct identifiers apart.
pub proof fn lemma_replay_keys(events: Seq<SocialEventView>)
    requires
        forall|i: int, j: int|
            0 <= i < j < events.len() ==> (#[trigger] events[i]).id != (#[trigger] events[j]).id,
    ensures
        order::told_apart(events, by_replay()),
{
    assert forall|i: int, j: int|
        0 <= i < events.len() && 0 <= j < events.len() && by_replay()(#[trigger] events[i])
            == by_replay()(#[trigger] events[j]) implies events[i] == events[j] by {
        assert(by_replay()(events[i])[1] == by_replay()(events[j])[1]);
        if i < j {
            assert(events[i].id != events[j].id);
        } else if j < i {
            assert(events[j].id != events[i].id);
        }
    }
}

/// Logs that hold the same events describe the same society, in whatever order
/// and at whatever times the events arrived.
pub proof fn lemma_logs_converge(x: SocialEventLogView, y: SocialEventLogView, s: SocietyView)
    requires
        ids_distinct(x),
        x.compacted_base == y.compacted_base,
        x.equivocation_proofs == y.equivocation_proofs,
        x.events.to_multiset() == y.events.to_multiset(),
    ensures
        described(x, s) == described(y, s),
{
    lemma_replay_keys(x.events);
    order::lemma_sort_permuted(x.events, y.events, by_replay());
    lemma_after_nothing(x.events);
    lemma_after_nothing(y.events);
}

proof fn lemma_after_nothing<A>(s: Seq<A>)
    ensures
        after(s, 0) == s,
{
    assert(after(s, 0) =~= s);
}

proof fn lemma_replayed_concat(s: SocietyView, a: Seq<SocialEventView>, b: Seq<SocialEventView>)
    ensures
        replayed(s, a + b) == replayed(replayed(s, a), b),
    decreases b.len(),
{
    if b.len() == 0 {
        assert(a + b =~= a);
    } else {
        assert((a + b).drop_last() =~= a + b.drop_last());
        assert((a + b).last() == b.last());
        lemma_replayed_concat(s, a, b.drop_last());
    }
}

/// Where a suffix of events comes after the rest in the order of replay, the
/// society of the whole log can be had from that of the rest by replaying the
/// suffix alone.
pub proof fn lemma_suffix_replay_suffices(v: SocialEventLogView, s: SocietyView, event_start: int)
    requires
        0 <= event_start <= v.events.len(),
        forall|i: int, j: int|
            0 <= i < event_start <= j < v.events.len() ==> order::key_le(
                by_replay()(#[trigger] v.events[i]),
                by_replay()(#[trigger] v.events[j]),
            ),
    ensures
        ({
            let first = SocialEventLogView {
                events: v.events.subrange(0, event_start),
                equivocation_proofs: Seq::empty(),
                ..v
            };
            resumed(v, resumed(first, s, 0, 0), event_start, 0) == resumed(v, s, 0, 0)
        }),
{
    let a = v.events.subrange(0, event_start);
    let b = v.events.subrange(event_start, v.events.len() as int);
    let first = SocialEventLogView { events: a, equivocation_proofs: Seq::empty(), ..v };
    assert(a + b =~= v.events);
    assert forall|i: int, j: int| 0 <= i < a.len() && 0 <= j < b.len() implies order::key_le(
        by_replay()(#[trigger] a[i]),
        by_replay()(#[trigger] b[j]),
    ) by {
        assert(a[i] == v.events[i] && b[j] == v.events[event_start + j]);
    }
    order::lemma_sort_concat(a, b, by_replay());
    lemma_after_nothing(v.events);
    lemma_after_nothing(a);
    lemma_after_nothing(v.equivocation_proofs);
    assert(after(first.equivocation_proofs, 0) =~= Seq::<EquivocationProofView>::empty());
    assert(after(v.events, event_start) =~= b);
    lemma_replayed_concat(
        s,
        order::sort_by_key(a, by_replay()),
        order::sort_by_key(b, by_replay()),
    );
    assert(convicted(
        replayed(s, order::sort_by_key(a, by_replay())),
        Seq::<EquivocationProofView>::empty(),
    ) == replayed(s, order::sort_by_key(a, by_replay())));
}

} // verus!
