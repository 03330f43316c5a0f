//! Local social memory: the verified event log and the society it describes.
use crate::chains::upright;
use crate::event_log::{
    appended, described, empty_log, merged, next_seq, resumed, sound, SocialEventLog,
    SocialEventLogView,
};
use crate::event_log::{by_replay, compacted, lemma_suffix_replay_suffices};
use crate::identity::NodeIdentity;
use crate::order;
use crate::outside;
use crate::protocol::{
    event_content, event_signed, evidence_key, unsigned_event, EquivocationProofView, SocialEvent,
    SocialEventKind, SocialEventKindView, SocialEventView, SocialProtocolError,
    SocialProtocolErrorView,
};
use crate::society::{nothing_known, Society, SocietyView};
use crate::table::{self, Key};
use crate::text;
use crate::twin::{lemma_bytes_view, outcome, Twin};
use vstd::prelude::*;
use vstd::string::*;
use vstd::utf8::*;

verus! {

broadcast use lemma_bytes_view;

/// The largest JSON form of a social event, in bytes.
pub const MAX_SOCIAL_EVENT_JSON_BYTES: usize = 262_144;

/// A society as it was after the first events of a log.
#[derive(Debug, PartialEq, Eq)]
pub struct SocialMemoryCheckpoint {
    pub version: u16,
    pub replayed_events: usize,
    pub replayed_equivocation_proofs: usize,
    pub log_digest: String,
    pub society: Society,
}

/// The mathematical form of [`SocialMemoryCheckpoint`].
#[verifier::ext_equal]
pub struct SocialMemoryCheckpointView {
    pub version: u16,
    pub replayed_events: usize,
    pub replayed_equivocation_proofs: usize,
    pub log_digest: Seq<char>,
    pub society: SocietyView,
}

impl DeepView for SocialMemoryCheckpoint {
    type V = SocialMemoryCheckpointView;

    open spec fn deep_view(&self) -> SocialMemoryCheckpointView {
        SocialMemoryCheckpointView {
            version: self.version.deep_view(),
            replayed_events: self.replayed_events.deep_view(),
            replayed_equivocation_proofs: self.replayed_equivocation_proofs.deep_view(),
            log_digest: self.log_digest.deep_view(),
            society: self.society.deep_view(),
        }
    }
}

impl Twin for SocialMemoryCheckpoint {
    fn twin(&self) -> (r: Self) {
        SocialMemoryCheckpoint {
            version: self.version.twin(),
            replayed_events: self.replayed_events.twin(),
            replayed_equivocation_proofs: self.replayed_equivocation_proofs.twin(),
            log_digest: self.log_digest.twin(),
            society: self.society.twin(),
        }
    }
}

impl Clone for SocialMemoryCheckpoint {
    fn clone(&self) -> (r: Self)
        ensures
            r.deep_view() == self.deep_view(),
    {
        self.twin()
    }
}

/// A verified event log and the society that it describes.
#[derive(Debug, PartialEq, Eq)]
pub struct SocialMemory {
    log: SocialEventLog,
    checkpoint: Option<SocialMemoryCheckpoint>,
    society: Society,
}

/// The mathematical form of [`SocialMemory`].
#[verifier::ext_equal]
pub struct SocialMemoryView {
    pub log: SocialEventLogView,
    pub checkpoint: Option<SocialMemoryCheckpointView>,
    pub society: SocietyView,
}

impl DeepView for SocialMemory {
    type V = SocialMemoryView;

    closed spec fn deep_view(&self) -> SocialMemoryView {
        SocialMemoryView {
            log: self.log.deep_view(),
            checkpoint: self.checkpoint.deep_view(),
            society: self.society.deep_view(),
        }
    }
}

impl Twin for SocialMemory {
    fn twin(&self) -> (r: Self) {
        SocialMemory {
            log: self.log.twin(),
            checkpoint: self.checkpoint.twin(),
            society: self.society.twin(),
        }
    }
}

impl Clone for SocialMemory {
    fn clone(&self) -> (r: Self)
        ensures
            r.deep_view() == self.deep_view(),
    {
        self.twin()
    }
}

/// A number as bytes, least significant first.
pub open spec fn little_endian(n: nat, count: nat) -> Seq<u8>
    decreases count,
{
    if count == 0 {
        Seq::empty()
    } else {
        seq![(n % 256) as u8] + little_endian(n / 256, (count - 1) as nat)
    }
}

/// A text as bytes behind their number.
pub open spec fn framed(s: Seq<char>) -> Seq<u8> {
    little_endian(encode_utf8(s).len(), 8) + encode_utf8(s)
}

/// Texts as bytes, each behind their number.
pub open spec fn framed_all(all: Seq<Seq<char>>) -> Seq<u8>
    decreases all.len(),
{
    if all.len() == 0 {
        Seq::empty()
    } else {
        framed_all(all.drop_last()) + framed(all.last())
    }
}

/// The identifiers of the first events of a log.
pub open spec fn first_ids(v: SocialEventLogView, n: int) -> Seq<Seq<char>> {
    Seq::new(n as nat, |i: int| v.events[i].id)
}

/// The keys of the first evidence of a log.
pub open spec fn first_keys(v: SocialEventLogView, n: int) -> Seq<Seq<char>> {
    Seq::new(n as nat, |i: int| evidence_key(v.equivocation_proofs[i]))
}

/// The digest of the beginning of a log.
pub open spec fn digest(v: SocialEventLogView, events: int, proofs: int) -> Seq<char> {
    outside::hex_text(
        outside::sha256_of(
            encode_utf8("nexus:social-memory-checkpoint:v1"@) + little_endian(events as nat, 8)
                + framed_all(first_ids(v, events)) + little_endian(proofs as nat, 8) + framed_all(
                first_keys(v, proofs),
            ),
        ),
    )
}

/// The checkpoint of a whole log.
pub open spec fn checkpoint_of(v: SocialEventLogView, society: SocietyView) -> SocialMemoryCheckpointView {
    SocialMemoryCheckpointView {
        version: 1,
        replayed_events: v.events.len() as usize,
        replayed_equivocation_proofs: v.equivocation_proofs.len() as usize,
        log_digest: digest(v, v.events.len() as int, v.equivocation_proofs.len() as int),
        society,
    }
}

/// The society that a checkpoint and the rest of a log make up, if the
/// checkpoint belongs to the log and the rest follows in the order of replay.
pub open spec fn restored(v: SocialEventLogView, c: SocialMemoryCheckpointView) -> Option<SocietyView> {
    if c.version == 1 && c.replayed_events <= v.events.len() && c.replayed_equivocation_proofs
        <= v.equivocation_proofs.len() && digest(
        v,
        c.replayed_events as int,
        c.replayed_equivocation_proofs as int,
    ) == c.log_digest && (forall|i: int, j: int|
        0 <= i < c.replayed_events <= j < v.events.len() ==> order::key_le(
            by_replay()(#[trigger] v.events[i]),
            by_replay()(#[trigger] v.events[j]),
        )) {
        Some(
            resumed(
                v,
                c.society,
                c.replayed_events as int,
                c.replayed_equivocation_proofs as int,
            ),
        )
    } else {
        None
    }
}

/// The memory of a log, with the society of its checkpoint where that holds.
pub open spec fn remembered(v: SocialEventLogView, c: Option<SocialMemoryCheckpointView>) -> SocialMemoryView {
    let society = match c {
        Some(checkpoint) => restored(v, checkpoint),
        None => None,
    };
    match society {
        Some(s) => SocialMemoryView { log: v, checkpoint: c, society: s },
        None => {
            let s = described(v, nothing_known());
            SocialMemoryView { log: v, checkpoint: Some(checkpoint_of(v, s)), society: s }
        },
    }
}

/// Whether the society is the one that the log describes.
pub open spec fn current(v: SocialMemoryView) -> bool {
    v.society == described(v.log, nothing_known())
}

/// The memory with another log, its society brought up to date.
pub open spec fn refreshed(log: SocialEventLogView) -> SocialMemoryView {
    let s = described(log, nothing_known());
    SocialMemoryView { log, checkpoint: Some(checkpoint_of(log, s)), society: s }
}

/// The memory after an event was offered to it, and whether it is new.
pub open spec fn ingested(v: SocialMemoryView, e: SocialEventView, now: u64) -> (
    Result<bool, SocialProtocolErrorView>,
    SocialMemoryView,
) {
    let step = appended(v.log, e, now);
    (
        step.0,
        if step.0 == Ok::<bool, SocialProtocolErrorView>(true) {
            refreshed(step.1)
        } else {
            SocialMemoryView { log: step.1, ..v }
        },
    )
}

/// Whether the JSON form of an event is small enough.
pub open spec fn small_enough(size: usize) -> Result<(), SocialProtocolErrorView> {
    if size > MAX_SOCIAL_EVENT_JSON_BYTES {
        Err(
            SocialProtocolErrorView::EventTooLarge {
                actual: size,
                max: MAX_SOCIAL_EVENT_JSON_BYTES,
            },
        )
    } else {
        Ok(())
    }
}

/// A received event: the size of its bytes, and what they decode to.
pub struct Received {
    pub size: usize,
    pub decoded: Result<SocialEvent, String>,
}

/// The mathematical form of [`Received`].
pub struct ReceivedView {
    pub size: usize,
    pub decoded: Result<SocialEventView, Seq<char>>,
}

impl DeepView for Received {
    type V = ReceivedView;

    open spec fn deep_view(&self) -> ReceivedView {
        ReceivedView {
            size: self.size,
            decoded: outcome(self.decoded),
        }
    }
}

/// The event that was received, or why there is none: size comes before form.
pub open spec fn taken(r: ReceivedView) -> Result<SocialEventView, SocialProtocolErrorView> {
    match small_enough(r.size) {
        Err(e) => Err(e),
        Ok(_) => match r.decoded {
            Err(message) => Err(SocialProtocolErrorView::EventDecode(message)),
            Ok(e) => Ok(e),
        },
    }
}

/// What became of each of several received events, and the log after them.
pub open spec fn all_taken(v: SocialEventLogView, all: Seq<ReceivedView>, times: Seq<u64>) -> (
    Seq<Result<bool, SocialProtocolErrorView>>,
    SocialEventLogView,
)
    decreases all.len(),
{
    if all.len() == 0 {
        (Seq::empty(), v)
    } else {
        let before = all_taken(v, all.drop_last(), times.drop_last());
        match taken(all.last()) {
            Err(e) => (before.0.push(Err(e)), before.1),
            Ok(e) => {
                let step = appended(before.1, e, times.last());
                (before.0.push(step.0), step.1)
            },
        }
    }
}

/// The event that an identity signs at a position of its chain.
pub open spec fn signed_event(
    seed: Seq<u8>,
    author: Seq<char>,
    seq: u64,
    prev: Option<Seq<char>>,
    timestamp: u64,
    kind: SocialEventKindView,
) -> SocialEventView {
    let e = unsigned_event(author, seq, prev, timestamp, kind);
    SocialEventView { signature: Some(outside::signature_of(seed, event_content(e))), ..e }
}

/// The position and the predecessor of the next event of an author.
pub open spec fn next_place(v: SocialEventLogView, author: Seq<char>) -> (u64, Option<Seq<char>>) {
    match table::find(v.heads, author) {
        Some(head) => (next_seq(head.seq), Some(head.id)),
        None => (0, None),
    }
}

/// Events that an identity signs one after the other, from a position on.
pub open spec fn signed_chain(
    seed: Seq<u8>,
    author: Seq<char>,
    start: (u64, Option<Seq<char>>),
    items: Seq<(u64, SocialEventKindView)>,
) -> Seq<SocialEventView>
    decreases items.len(),
{
    if items.len() == 0 {
        Seq::empty()
    } else {
        let before = signed_chain(seed, author, start, items.drop_last());
        let at = place_after(start, before);
        before.push(signed_event(seed, author, at.0, at.1, items.last().0, items.last().1))
    }
}

/// The position and the predecessor after events in a chain.
pub open spec fn place_after(
    start: (u64, Option<Seq<char>>),
    events: Seq<SocialEventView>,
) -> (u64, Option<Seq<char>>)
    decreases events.len(),
{
    if events.len() == 0 {
        start
    } else {
        (next_seq(events.last().seq), Some(events.last().id))
    }
}

/// The text that a checkpoint keeps of the CBOR form of its society, from which
/// the form can be read again.
pub fn society_cbor_hex(cbor: &[u8]) -> (r: String)
    ensures
        r@ == outside::hex_text(cbor@),
        outside::hex_parse(encode_utf8(r@)) == Ok::<Seq<u8>, outside::HexError>(cbor@),
{
    proof {
        outside::lemma_hex_roundtrip(cbor@);
    }
    outside::hex_encode(cbor)
}

/// The CBOR form of a society in the text of a checkpoint; nothing where the
/// text is not hexadecimal.
pub fn society_cbor(text: &str) -> (r: Option<Vec<u8>>)
    ensures
        r.deep_view() == (match outside::hex_parse(encode_utf8(text@)) {
            Ok(cbor) => Some(cbor),
            Err(_) => None,
        }),
{
    match outside::hex_decode(text) {
        Ok(cbor) => Some(cbor),
        Err(_) => None,
    }
}

/// A checkpoint of the beginning of a log, made before any evidence, leads to
/// the society that a replay of the whole log leads to.
pub proof fn lemma_checkpoint_saves_replay(v: SocialEventLogView, c: SocialMemoryCheckpointView)
    requires
        c.replayed_events <= v.events.len(),
        c.replayed_equivocation_proofs == 0,
        c.society == described(
            SocialEventLogView {
                events: v.events.subrange(0, c.replayed_events as int),
                equivocation_proofs: Seq::empty(),
                ..v
            },
            nothing_known(),
        ),
        restored(v, c) is Some,
    ensures
        restored(v, c) == Some(described(v, nothing_known())),
{
    let base = match v.compacted_base {
        Some(base) => base.society,
        None => nothing_known(),
    };
    lemma_suffix_replay_suffices(v, base, c.replayed_events as int);
}

fn push_number(out: &mut Vec<u8>, n: u64)
    ensures
        final(out)@ == old(out)@ + little_endian(n as nat, 8),
{
    let ghost before = out@;
    let mut rest: u64 = n;
    let mut i: u64 = 0;
    assert(before + little_endian(n as nat, 8) =~= out@ + little_endian(rest as nat, 8));
    while i < 8
        invariant
            i <= 8,
            before + little_endian(n as nat, 8) == out@ + little_endian(
                rest as nat,
                (8 - i) as nat,
            ),
        decreases 8 - i,
    {
        let byte = (rest % 256) as u8;
        let ghost done = out@;
        proof {
            let left = (8 - i) as nat;
            assert(little_endian(rest as nat, left) == seq![byte] + little_endian(
                rest as nat / 256,
                (left - 1) as nat,
            ));
            assert(done + (seq![byte] + little_endian(rest as nat / 256, (left - 1) as nat))
                =~= done.push(byte) + little_endian(rest as nat / 256, (left - 1) as nat));
        }
        out.push(byte);
        rest = rest / 256;
        i = i + 1;
    }
    assert(out@ + little_endian(rest as nat, 0) =~= out@);
}

fn push_framed(out: &mut Vec<u8>, s: &str)
    ensures
        final(out)@ == old(out)@ + framed(s@),
{
    let ghost before = out@;
    let mut bytes = text::bytes_of(s);
    let ghost whole = bytes@;
    push_number(out, bytes.len() as u64);
    out.append(&mut bytes);
    assert(out@ =~= before + (little_endian(whole.len(), 8) + whole));
}

fn log_digest(log: &SocialEventLog, event_count: usize, proof_count: usize) -> (r: String)
    requires
        event_count <= log.deep_view().events.len(),
        proof_count <= log.deep_view().equivocation_proofs.len(),
    ensures
        r@ == digest(log.deep_view(), event_count as int, proof_count as int),
{
    let ghost v = log.deep_view();
    let events = log.events();
    let proofs = log.equivocation_proofs();
    let mut out = text::bytes_of("nexus:social-memory-checkpoint:v1");
    push_number(&mut out, event_count as u64);
    let ghost head = out@;
    let ghost ids = first_ids(v, event_count as int);
    let mut i: usize = 0;
    assert(head + framed_all(ids.subrange(0, 0)) =~= head);
    while i < event_count
        invariant
            i <= event_count,
            event_count <= events@.len(),
            v.events == events.deep_view(),
            ids == first_ids(v, event_count as int),
            out@ == head + framed_all(ids.subrange(0, i as int)),
        decreases event_count - i,
    {
        proof {
            let upto = ids.subrange(0, i + 1);
            assert(upto.drop_last() =~= ids.subrange(0, i as int));
            assert(upto.last() == events@[i as int].deep_view().id);
            assert(head + framed_all(ids.subrange(0, i as int)) + framed(upto.last()) =~= head
                + framed_all(upto));
        }
        push_framed(&mut out, events[i].id.as_str());
        i = i + 1;
    }
    assert(ids.subrange(0, i as int) =~= ids);
    push_number(&mut out, proof_count as u64);
    let ghost middle = out@;
    let ghost keys = first_keys(v, proof_count as int);
    let mut k: usize = 0;
    assert(middle + framed_all(keys.subrange(0, 0)) =~= middle);
    while k < proof_count
        invariant
            k <= proof_count,
            proof_count <= proofs@.len(),
            v.equivocation_proofs == proofs.deep_view(),
            keys == first_keys(v, proof_count as int),
            out@ == middle + framed_all(keys.subrange(0, k as int)),
        decreases proof_count - k,
    {
        proof {
            let upto = keys.subrange(0, k + 1);
            assert(upto.drop_last() =~= keys.subrange(0, k as int));
            assert(upto.last() == evidence_key(proofs@[k as int].deep_view()));
            assert(middle + framed_all(keys.subrange(0, k as int)) + framed(upto.last())
                =~= middle + framed_all(upto));
        }
        let key = proofs[k].evidence_key();
        push_framed(&mut out, key.as_str());
        k = k + 1;
    }
    assert(keys.subrange(0, k as int) =~= keys);
    outside::hex_encode(outside::sha256(out.as_slice()).as_slice())
}

fn checkpoint_for(log: &SocialEventLog, society: &Society) -> (r: SocialMemoryCheckpoint)
    ensures
        r.deep_view() == checkpoint_of(log.deep_view(), society.deep_view()),
{
    let replayed_events = log.events().len();
    let replayed_equivocation_proofs = log.equivocation_proofs().len();
    SocialMemoryCheckpoint {
        version: 1,
        replayed_events,
        replayed_equivocation_proofs,
        log_digest: log_digest(log, replayed_events, replayed_equivocation_proofs),
        society: society.twin(),
    }
}

fn society_from_valid_checkpoint(
    log: &SocialEventLog,
    checkpoint: &SocialMemoryCheckpoint,
) -> (r: Option<Society>)
    ensures
        r.deep_view() == restored(log.deep_view(), checkpoint.deep_view()),
{
    if checkpoint.version != 1 {
        return None;
    }
    let events = checkpoint.replayed_events;
    let proofs = checkpoint.replayed_equivocation_proofs;
    if events > log.events().len() || proofs > log.equivocation_proofs().len() {
        return None;
    }
    if !log_digest(log, events, proofs).same(&checkpoint.log_digest) {
        return None;
    }
    if !log.suffix_replay_is_ordered(events) {
        return None;
    }
    let mut society = checkpoint.society.twin();
    log.replay_from(&mut society, events, proofs);
    Some(society)
}

/// Refuses an event whose JSON form is too large.
pub fn reject_oversized_event_json(data: &[u8]) -> (r: Result<(), SocialProtocolError>)
    ensures
        outcome(r) == small_enough(data@.len() as usize),
{
    check_size(data.len())
}

fn check_size(size: usize) -> (r: Result<(), SocialProtocolError>)
    ensures
        outcome(r) == small_enough(size),
{
    if size > MAX_SOCIAL_EVENT_JSON_BYTES {
        return Err(
            SocialProtocolError::EventTooLarge {
                actual: size,
                max: MAX_SOCIAL_EVENT_JSON_BYTES,
            },
        );
    }
    Ok(())
}

fn take(received: Received) -> (r: Result<SocialEvent, SocialProtocolError>)
    ensures
        outcome(r) == taken(received.deep_view()),
{
    if let Err(e) = check_size(received.size) {
        return Err(e);
    }
    match received.decoded {
        Ok(event) => Ok(event),
        Err(message) => Err(SocialProtocolError::EventDecode(message)),
    }
}

impl SocialMemory {
    /// What holds of every log holds of this one's.
    pub open spec fn wf(&self) -> bool {
        sound(self.deep_view().log) && upright(self.deep_view().log)
    }

    /// A memory without events.
    pub fn new() -> (r: Self)
        ensures
            r.deep_view() == (SocialMemoryView {
                log: empty_log(),
                checkpoint: None,
                society: nothing_known(),
            }),
            r.wf(),
            current(r.deep_view()),
    {
        let r = SocialMemory {
            log: SocialEventLog::new(),
            checkpoint: None,
            society: Society::new(),
        };
        proof {
            assert(crate::event_log::after(
                Seq::<SocialEventView>::empty(),
                0,
            ) =~= Seq::<SocialEventView>::empty());
            assert(crate::event_log::after(
                Seq::<EquivocationProofView>::empty(),
                0,
            ) =~= Seq::<EquivocationProofView>::empty());
        }
        r
    }

    /// The memory of a log.
    pub fn from_log(log: SocialEventLog) -> (r: Self)
        requires
            log.wf(),
        ensures
            r.deep_view() == remembered(log.deep_view(), None),
            r.wf(),
            current(r.deep_view()),
    {
        Self::from_log_with_checkpoint(log, None)
    }

    /// The memory of a log and a stored checkpoint. A checkpoint that does not
    /// belong to the log is replaced by a full replay.
    pub fn from_log_with_checkpoint(
        log: SocialEventLog,
        checkpoint: Option<SocialMemoryCheckpoint>,
    ) -> (r: Self)
        requires
            log.wf(),
        ensures
            r.deep_view() == remembered(log.deep_view(), checkpoint.deep_view()),
            r.wf(),
    {
        if let Some(checkpoint) = checkpoint {
            if let Some(society) = society_from_valid_checkpoint(&log, &checkpoint) {
                return SocialMemory { log, checkpoint: Some(checkpoint), society };
            }
        }
        let society = log.to_society();
        let checkpoint = Some(checkpoint_for(&log, &society));
        SocialMemory { log, checkpoint, society }
    }

    /// The log.
    pub fn log(&self) -> (r: &SocialEventLog)
        ensures
            r.deep_view() == self.deep_view().log,
    {
        &self.log
    }

    /// The checkpoint, if there is one.
    pub fn checkpoint(&self) -> (r: Option<&SocialMemoryCheckpoint>)
        ensures
            r.deep_view() == self.deep_view().checkpoint,
    {
        match &self.checkpoint {
            Some(checkpoint) => Some(checkpoint),
            None => None,
        }
    }

    /// The retained events.
    pub fn events(&self) -> (r: &[SocialEvent])
        ensures
            r.deep_view() == self.deep_view().log.events,
    {
        self.log.events()
    }

    /// The events that wait for a predecessor.
    pub fn pending_events(&self) -> (r: &[SocialEvent])
        ensures
            r.deep_view() == self.deep_view().log.pending,
    {
        self.log.pending_events()
    }

    /// The society.
    pub fn society(&self) -> (r: &Society)
        ensures
            r.deep_view() == self.deep_view().society,
    {
        &self.society
    }

    /// The number of events, compacted ones among them.
    pub fn event_count(&self) -> (r: usize)
        requires
            crate::event_log::compacted_count(self.deep_view().log) + self.deep_view().log.events.len()
                <= usize::MAX,
        ensures
            r == crate::event_log::compacted_count(self.deep_view().log)
                + self.deep_view().log.events.len(),
    {
        self.log.len()
    }

    /// The number of retained events.
    pub fn retained_event_count(&self) -> (r: usize)
        ensures
            r == self.deep_view().log.events.len(),
    {
        self.log.retained_len()
    }

    /// The number of compacted events.
    pub fn compacted_event_count(&self) -> (r: usize)
        ensures
            r == crate::event_log::compacted_count(self.deep_view().log),
    {
        self.log.compacted_event_count()
    }

    /// The number of known agents.
    pub fn agent_count(&self) -> (r: usize)
        ensures
            r == self.deep_view().society.agents.len(),
    {
        self.society.agent_count()
    }

    /// Signs the next event of an identity.
    pub fn sign_event(&self, identity: &NodeIdentity, timestamp: u64, kind: SocialEventKind) -> (r:
        Result<SocialEvent, SocialProtocolError>)
        ensures
            r is Ok,
            ({
                let at = next_place(self.deep_view().log, identity.name());
                outcome(r) == Ok::<SocialEventView, SocialProtocolErrorView>(
                    signed_event(
                        identity.seed(),
                        identity.name(),
                        at.0,
                        at.1,
                        timestamp,
                        kind.deep_view(),
                    ),
                )
            }),
            r matches Ok(event) ==> event_signed(event.deep_view()) is Ok,
    {
        let (seq, prev) = self.log.next_position(identity.did());
        SocialEvent::new_chained(identity.did().twin(), seq, prev, timestamp, kind).sign(identity)
    }

    /// Signs the next events of an identity one after the other.
    pub fn sign_event_sequence(
        &self,
        identity: &NodeIdentity,
        events: Vec<(u64, SocialEventKind)>,
    ) -> (r: Result<Vec<SocialEvent>, SocialProtocolError>)
        ensures
            outcome(r) == Ok::<Seq<SocialEventView>, SocialProtocolErrorView>(
                signed_chain(
                    identity.seed(),
                    identity.name(),
                    next_place(self.deep_view().log, identity.name()),
                    events.deep_view(),
                ),
            ),
    {
        let ghost seed = identity.seed();
        let ghost author = identity.name();
        let ghost start = next_place(self.deep_view().log, author);
        let ghost all = events.deep_view();
        let (mut seq, mut prev) = self.log.next_position(identity.did());
        let mut signed: Vec<SocialEvent> = Vec::new();
        let mut i: usize = 0;
        assert(signed.deep_view() =~= Seq::<SocialEventView>::empty());
        while i < events.len()
            invariant
                i <= events@.len(),
                all == events.deep_view(),
                seed == identity.seed(),
                author == identity.name(),
                signed.deep_view() == signed_chain(
                    seed,
                    author,
                    start,
                    all.subrange(0, i as int),
                ),
                (seq, prev.deep_view()) == place_after(start, signed.deep_view()),
                start == next_place(self.deep_view().log, author),
            decreases events@.len() - i,
        {
            proof {
                let upto = all.subrange(0, i + 1);
                assert(upto.drop_last() =~= all.subrange(0, i as int));
                assert(upto.last() == events@[i as int].deep_view());
            }
            let ghost before = signed.deep_view();
            let timestamp = events[i].0;
            let kind = events[i].1.twin();
            match SocialEvent::new_chained(
                identity.did().twin(),
                seq,
                prev,
                timestamp,
                kind,
            ).sign(identity) {
                Err(e) => {
                    return Err(e);
                },
                Ok(event) => {
                    if seq < u64::MAX {
                        seq = seq + 1;
                    }
                    prev = Some(event.id.twin());
                    let ghost added = event.deep_view();
                    signed.push(event);
                    assert(signed.deep_view() =~= before.push(added));
                },
            }
            i = i + 1;
        }
        assert(all.subrange(0, i as int) =~= all);
        Ok(signed)
    }

    fn refresh(&mut self)
        ensures
            final(self).deep_view() == refreshed(old(self).deep_view().log),
    {
        self.society = self.log.to_society();
        self.checkpoint = Some(checkpoint_for(&self.log, &self.society));
    }

    /// Offers an event to the memory. Reports whether it is new.
    pub fn ingest_event(&mut self, event: SocialEvent) -> (r: Result<bool, SocialProtocolError>)
        requires
            old(self).wf(),
        ensures
            exists|now: u64|
                (outcome(r), final(self).deep_view()) == #[trigger] ingested(
                    old(self).deep_view(),
                    event.deep_view(),
                    now,
                ),
            final(self).wf(),
            r is Ok && current(old(self).deep_view()) ==> current(final(self).deep_view()),
    {
        let ghost before = self.deep_view();
        let now = outside::unix_now();
        let r = self.log.append_observed(event, now);
        if let Ok(inserted) = &r {
            if *inserted {
                self.refresh();
            }
        }
        assert((outcome(r), self.deep_view()) == ingested(before, event.deep_view(), now));
        r
    }

    /// Offers several events to the memory and brings the society up to date
    /// once. Reports how many are new.
    pub fn ingest_events(&mut self, events: Vec<SocialEvent>) -> (r: Result<
        usize,
        SocialProtocolError,
    >)
        requires
            old(self).wf(),
        ensures
            exists|times: Seq<u64>|
                #![trigger merged(old(self).deep_view().log, events.deep_view(), times)]
                times.len() == events.deep_view().len() && ({
                    let done = merged(old(self).deep_view().log, events.deep_view(), times);
                    match r {
                        Ok(n) => done.0 == Ok::<int, SocialProtocolErrorView>(n as int)
                            && final(self).deep_view() == (if n > 0 {
                            refreshed(done.1)
                        } else {
                            SocialMemoryView { log: done.1, ..old(self).deep_view() }
                        }),
                        Err(e) => done.0 == Err::<int, SocialProtocolErrorView>(e.deep_view())
                            && final(self).deep_view() == (SocialMemoryView {
                            log: done.1,
                            ..old(self).deep_view()
                        }),
                    }
                }),
            final(self).wf(),
    {
        let r = self.log.merge(events);
        if let Ok(inserted) = &r {
            if *inserted > 0 {
                self.refresh();
            }
        }
        r
    }

    /// Offers an event to the memory as it was received: the number of its bytes,
    /// and what they decode to.
    pub fn ingest_received(&mut self, received: Received) -> (r: Result<bool, SocialProtocolError>)
        requires
            old(self).wf(),
        ensures
            match taken(received.deep_view()) {
                Err(e) => outcome(r) == Err::<bool, SocialProtocolErrorView>(e)
                    && final(self).deep_view() == old(self).deep_view(),
                Ok(e) => exists|now: u64|
                    (outcome(r), final(self).deep_view()) == #[trigger] ingested(
                        old(self).deep_view(),
                        e,
                        now,
                    ),
            },
            final(self).wf(),
    {
        match take(received) {
            Err(e) => Err(e),
            Ok(event) => self.ingest_event(event),
        }
    }

    /// Offers several received events to the memory and brings the society up to
    /// date once. Reports what became of each.
    pub fn ingest_received_batch(&mut self, received: Vec<Received>) -> (r: Vec<
        Result<bool, SocialProtocolError>,
    >)
        requires
            old(self).wf(),
        ensures
            r@.len() == received@.len(),
            exists|times: Seq<u64>|
                #![trigger all_taken(old(self).deep_view().log, received.deep_view(), times)]
                times.len() == received.deep_view().len() && ({
                    let done = all_taken(
                        old(self).deep_view().log,
                        received.deep_view(),
                        times,
                    );
                    &&& done.0.len() == r@.len()
                    &&& forall|i: int| 0 <= i < r@.len() ==> outcome(#[trigger] r@[i]) == done.0[i]
                    &&& final(self).deep_view() == (if exists|i: int|
                        0 <= i < done.0.len() && #[trigger] done.0[i] == Ok::<
                            bool,
                            SocialProtocolErrorView,
                        >(true) {
                        refreshed(done.1)
                    } else {
                        SocialMemoryView { log: done.1, ..old(self).deep_view() }
                    })
                }),
            final(self).wf(),
    {
        let ghost start = self.deep_view();
        let ghost all = received.deep_view();
        let ghost mut times: Seq<u64> = Seq::empty();
        let mut rest = received;
        let mut r: Vec<Result<bool, SocialProtocolError>> = Vec::new();
        let mut any = false;
        let n = rest.len();
        let mut waiting: Vec<Received> = Vec::new();
        while rest.len() > 0
            invariant
                n == all.len(),
                rest@.len() + waiting@.len() == n,
                forall|j: int| 0 <= j < rest@.len() ==> (#[trigger] rest@[j]).deep_view() == all[j],
                forall|j: int|
                    0 <= j < waiting@.len() ==> (#[trigger] waiting@[j]).deep_view() == all[n - 1
                        - j],
            decreases rest@.len(),
        {
            if let Some(one) = rest.pop() {
                waiting.push(one);
            }
        }
        assert(all.subrange(0, 0) =~= Seq::<ReceivedView>::empty());
        while waiting.len() > 0
            invariant
                n == all.len(),
                waiting@.len() <= n,
                r@.len() == n - waiting@.len(),
                times.len() == r@.len(),
                self.wf(),
                start == old(self).deep_view(),
                self.deep_view() == (SocialMemoryView {
                    log: all_taken(start.log, all.subrange(0, r@.len() as int), times).1,
                    ..start
                }),
                all_taken(start.log, all.subrange(0, r@.len() as int), times).0.len() == r@.len(),
                forall|i: int|
                    0 <= i < r@.len() ==> outcome(#[trigger] r@[i]) == all_taken(
                        start.log,
                        all.subrange(0, r@.len() as int),
                        times,
                    ).0[i],
                any == exists|i: int|
                    0 <= i < r@.len() && #[trigger] all_taken(
                        start.log,
                        all.subrange(0, r@.len() as int),
                        times,
                    ).0[i] == Ok::<bool, SocialProtocolErrorView>(true),
                forall|j: int|
                    0 <= j < waiting@.len() ==> (#[trigger] waiting@[j]).deep_view() == all[n - 1
                        - j],
            decreases waiting@.len(),
        {
            let ghost k = r@.len() as int;
            let ghost before = all_taken(start.log, all.subrange(0, k), times);
            if let Some(one) = waiting.pop() {
                let now = outside::unix_now();
                proof {
                    let upto = all.subrange(0, k + 1);
                    assert(upto.drop_last() =~= all.subrange(0, k));
                    assert(upto.last() == one.deep_view());
                    assert(times.push(now).drop_last() =~= times);
                    times = times.push(now);
                }
                let result = match take(one) {
                    Err(e) => Err(e),
                    Ok(event) => self.log.append_observed(event, now),
                };
                let new = match &result {
                    Ok(b) => *b,
                    Err(_) => false,
                };
                let ghost step = outcome(result);
                r.push(result);
                proof {
                    let done = all_taken(start.log, all.subrange(0, k + 1), times);
                    assert(done.0 == before.0.push(step));
                    assert(done.0[k] == step);
                    assert forall|i: int| 0 <= i < k + 1 implies outcome(#[trigger] r@[i])
                        == done.0[i] by {
                        if i < k {
                            assert(done.0[i] == before.0[i]);
                        }
                    }
                    let yes: Result<bool, SocialProtocolErrorView> = Ok(true);
                    assert((any || new) == exists|i: int|
                        0 <= i < k + 1 && #[trigger] done.0[i] == yes) by {
                        if any {
                            let i = choose|i: int| 0 <= i < k && #[trigger] before.0[i] == yes;
                            assert(done.0[i] == yes);
                        }
                        if new {
                            assert(done.0[k] == yes);
                        }
                        if exists|i: int| 0 <= i < k + 1 && #[trigger] done.0[i] == yes {
                            let i = choose|i: int| 0 <= i < k + 1 && #[trigger] done.0[i] == yes;
                            if i < k {
                                assert(before.0[i] == yes);
                            }
                        }
                    }
                }
                any = any || new;
            }
        }
        assert(all.subrange(0, n as int) =~= all);
        if any {
            self.refresh();
        }
        r
    }

    /// Compacts all but the most recent events.
    pub fn compact_retaining_recent(&mut self, retain_events: usize) -> (r: Result<
        bool,
        SocialProtocolError,
    >)
        requires
            old(self).wf(),
        ensures
            ({
                let step = compacted(old(self).deep_view().log, retain_events);
                &&& outcome(r) == step.0
                &&& final(self).deep_view() == (if step.0 == Ok::<bool, SocialProtocolErrorView>(
                    true,
                ) {
                    refreshed(step.1)
                } else {
                    SocialMemoryView { log: step.1, ..old(self).deep_view() }
                })
            }),
            final(self).wf(),
    {
        let r = self.log.compact_retaining_recent(retain_events);
        if let Ok(done) = &r {
            if *done {
                self.refresh();
            }
        }
        r
    }
}

} // verus!
