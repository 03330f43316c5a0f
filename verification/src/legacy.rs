//! Migration of social events from before author chains.
use crate::event_log::{migrated_log, SocialEventLog};
use crate::identity::{self, IdentitySignatureError, NodeIdentity};
use crate::memory::{current, remembered, SocialMemory};
use crate::order::{self, KeyPart, KeyPartView, SortKey};
use crate::outside;
use crate::protocol::{
    claims_own, content_hash, kind_wire, signature_verdict, SocialEvent, SocialEventKind,
    SocialEventKindView, SocialEventView, SocialProtocolError, SocialProtocolErrorView,
};
use crate::society::{applied, nothing_known, Society, SocietyView};
use crate::table::{self, Group, Key};
use crate::twin::{both, lemma_bytes_view, outcome, Twin};
use crate::types::Did;
use crate::wire::{self, Encode, Fields, WireView};
use vstd::prelude::*;
use vstd::string::*;

verus! {

broadcast use lemma_bytes_view;

/// What became of the events of a migration.
#[derive(Debug, PartialEq, Eq)]
pub struct LegacySocialMemoryMigration {
    pub legacy_events: usize,
    pub migrated_events: usize,
    pub duplicate_events: usize,
    pub unsupported_events: usize,
}

/// The mathematical form of [`LegacySocialMemoryMigration`].
#[verifier::ext_equal]
pub struct LegacySocialMemoryMigrationView {
    pub legacy_events: usize,
    pub migrated_events: usize,
    pub duplicate_events: usize,
    pub unsupported_events: usize,
}

impl DeepView for LegacySocialMemoryMigration {
    type V = LegacySocialMemoryMigrationView;

    open spec fn deep_view(&self) -> LegacySocialMemoryMigrationView {
        LegacySocialMemoryMigrationView {
            legacy_events: self.legacy_events.deep_view(),
            migrated_events: self.migrated_events.deep_view(),
            duplicate_events: self.duplicate_events.deep_view(),
            unsupported_events: self.unsupported_events.deep_view(),
        }
    }
}

impl Twin for LegacySocialMemoryMigration {
    fn twin(&self) -> (r: Self) {
        LegacySocialMemoryMigration {
            legacy_events: self.legacy_events.twin(),
            migrated_events: self.migrated_events.twin(),
            duplicate_events: self.duplicate_events.twin(),
            unsupported_events: self.unsupported_events.twin(),
        }
    }
}

impl Clone for LegacySocialMemoryMigration {
    fn clone(&self) -> (r: Self)
        ensures
            r.deep_view() == self.deep_view(),
    {
        self.twin()
    }
}

/// A social event from before author chains.
#[derive(Debug, PartialEq, Eq)]
pub struct LegacySocialEvent {
    pub id: String,
    pub author: Did,
    pub timestamp: u64,
    pub kind: SocialEventKind,
    pub signature: Option<Vec<u8>>,
}

/// The mathematical form of [`LegacySocialEvent`].
#[verifier::ext_equal]
pub struct LegacySocialEventView {
    pub id: Seq<char>,
    pub author: Seq<char>,
    pub timestamp: u64,
    pub kind: SocialEventKindView,
    pub signature: Option<Seq<u8>>,
}

impl DeepView for LegacySocialEvent {
    type V = LegacySocialEventView;

    open spec fn deep_view(&self) -> LegacySocialEventView {
        LegacySocialEventView {
            id: self.id.deep_view(),
            author: self.author.deep_view(),
            timestamp: self.timestamp.deep_view(),
            kind: self.kind.deep_view(),
            signature: self.signature.deep_view(),
        }
    }
}

impl Twin for LegacySocialEvent {
    fn twin(&self) -> (r: Self) {
        LegacySocialEvent {
            id: self.id.twin(),
            author: self.author.twin(),
            timestamp: self.timestamp.twin(),
            kind: self.kind.twin(),
            signature: self.signature.twin(),
        }
    }
}

impl Clone for LegacySocialEvent {
    fn clone(&self) -> (r: Self)
        ensures
            r.deep_view() == self.deep_view(),
    {
        self.twin()
    }
}

/// A migration in progress.
pub struct Migration {
    pub society: Society,
    pub seen: Group<String>,
    pub authors: Group<Did>,
    pub report: LegacySocialMemoryMigration,
}

/// The mathematical form of [`Migration`].
#[verifier::ext_equal]
pub struct MigrationView {
    pub society: SocietyView,
    pub seen: Seq<Seq<char>>,
    pub authors: Seq<Seq<char>>,
    pub report: LegacySocialMemoryMigrationView,
}

impl DeepView for Migration {
    type V = MigrationView;

    open spec fn deep_view(&self) -> MigrationView {
        MigrationView {
            society: self.society.deep_view(),
            seen: self.seen.deep_view(),
            authors: self.authors.deep_view(),
            report: self.report.deep_view(),
        }
    }
}

/// Events by author, time and identifier.
pub open spec fn by_author() -> spec_fn(LegacySocialEventView) -> SortKey {
    |v: LegacySocialEventView|
        seq![
            KeyPartView::Text(v.author),
            KeyPartView::Num(v.timestamp as int),
            KeyPartView::Text(v.id),
        ]
}

fn by_author_of(v: &LegacySocialEvent) -> (k: Vec<KeyPart>)
    ensures
        k.deep_view() == by_author()(v.deep_view()),
{
    let k = vec![
            KeyPart::Text(v.author.to_string()),
            KeyPart::Num(v.timestamp as i128),
            KeyPart::Text(v.id.twin()),
        ];
    assert(k.deep_view() =~= by_author()(v.deep_view()));
    k
}

/// The content of an event as it was signed before author chains.
pub open spec fn legacy_content(author: Seq<char>, timestamp: u64, kind: SocialEventKindView) -> Seq<
    u8,
> {
    wire::json(
        WireView::Record(
            Seq::<(Seq<char>, WireView)>::empty()
                .push(("author"@, Did::wire(author)))
                .push(("timestamp"@, u64::wire(timestamp)))
                .push(("kind"@, kind_wire(kind))),
        ),
    )
}

/// Whether an event has the identifier of its content and its author's
/// signature.
pub open spec fn legacy_valid(v: LegacySocialEventView) -> Result<(), SocialProtocolErrorView> {
    let bytes = legacy_content(v.author, v.timestamp, v.kind);
    both(
        if v.id == content_hash(bytes) {
            Ok(())
        } else {
            Err(
                SocialProtocolErrorView::EventIdMismatch {
                    actual: v.id,
                    expected: content_hash(bytes),
                },
            )
        },
        match v.signature {
            None => Err(SocialProtocolErrorView::MissingSignature),
            Some(s) => signature_verdict(identity::did_accepts(v.author, bytes, s)),
        },
    )
}

/// The event as the first of a chain.
pub open spec fn as_chain_event(v: LegacySocialEventView) -> SocialEventView {
    SocialEventView {
        id: v.id,
        author: v.author,
        seq: 0,
        prev: None,
        timestamp: v.timestamp,
        kind: v.kind,
        signature: v.signature,
    }
}

/// The migration after one event: an invalid one and one that speaks for
/// someone else are unsupported, one that was seen is a duplicate, and any other
/// is applied.
pub open spec fn migrated(m: MigrationView, e: LegacySocialEventView) -> MigrationView {
    if legacy_valid(e) is Err {
        MigrationView {
            report: LegacySocialMemoryMigrationView {
                unsupported_events: (m.report.unsupported_events + 1) as usize,
                ..m.report
            },
            ..m
        }
    } else if m.seen.contains(e.id) {
        MigrationView {
            report: LegacySocialMemoryMigrationView {
                duplicate_events: (m.report.duplicate_events + 1) as usize,
                ..m.report
            },
            ..m
        }
    } else if claims_own(e.author, e.kind) is Err {
        MigrationView {
            seen: m.seen.push(e.id),
            report: LegacySocialMemoryMigrationView {
                unsupported_events: (m.report.unsupported_events + 1) as usize,
                ..m.report
            },
            ..m
        }
    } else {
        MigrationView {
            seen: m.seen.push(e.id),
            authors: table::joined(m.authors, e.author),
            society: applied(m.society, as_chain_event(e)),
            report: LegacySocialMemoryMigrationView {
                migrated_events: (m.report.migrated_events + 1) as usize,
                ..m.report
            },
        }
    }
}

/// The migration of events in their order.
pub open spec fn migration(events: Seq<LegacySocialEventView>, total: usize) -> MigrationView
    decreases events.len(),
{
    if events.len() == 0 {
        MigrationView {
            society: nothing_known(),
            seen: Seq::empty(),
            authors: Seq::empty(),
            report: LegacySocialMemoryMigrationView {
                legacy_events: total,
                migrated_events: 0,
                duplicate_events: 0,
                unsupported_events: 0,
            },
        }
    } else {
        migrated(migration(events.drop_last(), total), events.last())
    }
}

/// Every event of a migration is counted once.
pub proof fn lemma_migration_counts_all(events: Seq<LegacySocialEventView>, total: usize)
    requires
        events.len() <= usize::MAX,
    ensures
        ({
            let report = migration(events, total).report;
            &&& report.legacy_events == total
            &&& report.migrated_events + report.duplicate_events + report.unsupported_events
                == events.len()
        }),
    decreases events.len(),
{
    if events.len() > 0 {
        lemma_migration_counts_all(events.drop_last(), total);
    }
}

impl LegacySocialEvent {
    /// The bytes that the author signed.
    pub fn signing_payload(&self) -> (r: Vec<u8>)
        ensures
            r@ == legacy_content(
                self.deep_view().author,
                self.deep_view().timestamp,
                self.deep_view().kind,
            ),
    {
        legacy_signing_payload_for(&self.author, self.timestamp, &self.kind)
    }

    /// The identifier that the content gives the event.
    pub fn content_id(&self) -> (r: String)
        ensures
            r@ == content_hash(
                legacy_content(
                    self.deep_view().author,
                    self.deep_view().timestamp,
                    self.deep_view().kind,
                ),
            ),
    {
        let payload = self.signing_payload();
        outside::hex_encode(outside::sha256(payload.as_slice()).as_slice())
    }

    /// Checks identifier and signature.
    pub fn validate(&self) -> (r: Result<(), SocialProtocolError>)
        ensures
            outcome(r) == legacy_valid(self.deep_view()),
    {
        let expected = self.content_id();
        if !self.id.same(&expected) {
            return Err(
                SocialProtocolError::EventIdMismatch { actual: self.id.twin(), expected },
            );
        }
        match &self.signature {
            None => Err(SocialProtocolError::MissingSignature),
            Some(s) => {
                let payload = self.signing_payload();
                match identity::verify_did_signature(
                    &self.author,
                    payload.as_slice(),
                    s.as_slice(),
                ) {
                    Ok(_) => Ok(()),
                    Err(IdentitySignatureError::InvalidDid(e)) => Err(
                        SocialProtocolError::InvalidAuthorDid(e),
                    ),
                    Err(IdentitySignatureError::InvalidVerifyingKey) => Err(
                        SocialProtocolError::InvalidVerifyingKey,
                    ),
                    Err(IdentitySignatureError::InvalidSignatureBytes) => Err(
                        SocialProtocolError::InvalidSignatureBytes,
                    ),
                    Err(IdentitySignatureError::VerificationFailed) => Err(
                        SocialProtocolError::SignatureVerificationFailed,
                    ),
                }
            },
        }
    }
}

fn legacy_signing_payload_for(author: &Did, timestamp: u64, kind: &SocialEventKind) -> (r: Vec<u8>)
    ensures
        r@ == legacy_content(author.deep_view(), timestamp, kind.deep_view()),
{
    let document = Fields::new()
        .with("author", author.to_wire())
        .with("timestamp", timestamp.to_wire())
        .with("kind", kind.to_wire())
        .done();
    wire::json_bytes(&document)
}

fn legacy_event_as_unverified_chain_event(event: &LegacySocialEvent) -> (r: SocialEvent)
    ensures
        r.deep_view() == as_chain_event(event.deep_view()),
{
    SocialEvent {
        id: event.id.twin(),
        author: event.author.twin(),
        seq: 0,
        prev: None,
        timestamp: event.timestamp,
        kind: event.kind.twin(),
        signature: event.signature.twin(),
    }
}

/// The events in a document: the document itself where it is a list, the list
/// under `events`, or the one under `events` of `log`; and where there is no
/// list, the document as the only event.
pub open spec fn legacy_items(w: WireView) -> Seq<WireView> {
    match (w, wire::field(w, "events"@), wire::field(w, "log"@)) {
        (WireView::List(items), _, _) => items,
        (_, Some(WireView::List(items)), _) => items,
        (_, _, Some(log)) => match wire::field(log, "events"@) {
            Some(WireView::List(items)) => items,
            _ => seq![w],
        },
        _ => seq![w],
    }
}

/// Entries from before author chains, which have no place in one.
pub open spec fn unchained() -> spec_fn(WireView) -> bool {
    |w: WireView| wire::field(w, "seq"@) is None && wire::field(w, "prev"@) is None
}

/// The JSON forms of documents.
pub open spec fn written(items: Seq<WireView>) -> Seq<Seq<u8>> {
    Seq::new(items.len(), |i: int| outside::json_of(items[i]))
}

/// Whether an entry is from before author chains.
fn is_legacy_entry(entry: &serde_json::Value) -> (r: bool)
    ensures
        r == unchained()(outside::json_model(*entry)),
{
    outside::json_field(entry, "seq").is_none() && outside::json_field(entry, "prev").is_none()
}

/// The items of a list under a name, if there is one.
fn items_under<'a>(value: &'a serde_json::Value, name: &str) -> (r: Option<
    &'a Vec<serde_json::Value>,
>)
    ensures
        match (r, wire::field(outside::json_model(*value), name@)) {
            (Some(items), Some(WireView::List(all))) => all == Seq::new(
                items@.len(),
                |i: int| outside::json_model(items@[i]),
            ),
            (None, Some(WireView::List(_))) => false,
            (Some(_), _) => false,
            (None, _) => true,
        },
{
    match outside::json_field(value, name) {
        Some(found) => outside::json_items(found),
        None => None,
    }
}

fn write_legacy_entries(items: &Vec<serde_json::Value>) -> (r: Vec<Vec<u8>>)
    ensures
        r.deep_view() == written(
            Seq::new(items@.len(), |i: int| outside::json_model(items@[i])).filter(unchained()),
        ),
{
    let ghost all = Seq::new(items@.len(), |i: int| outside::json_model(items@[i]));
    let mut r: Vec<Vec<u8>> = Vec::new();
    let mut i: usize = 0;
    proof {
        reveal(Seq::filter);
        assert(r.deep_view() =~= written(all.subrange(0, 0).filter(unchained())));
    }
    while i < items.len()
        invariant
            i <= items@.len(),
            all == Seq::new(items@.len(), |i: int| outside::json_model(items@[i])),
            r.deep_view() == written(all.subrange(0, i as int).filter(unchained())),
        decreases items@.len() - i,
    {
        let ghost kept = all.subrange(0, i as int).filter(unchained());
        proof {
            reveal(Seq::filter);
            let upto = all.subrange(0, i + 1);
            assert(upto.drop_last() =~= all.subrange(0, i as int));
            assert(upto.last() == outside::json_model(items@[i as int]));
        }
        if is_legacy_entry(&items[i]) {
            let bytes = outside::json_write(&items[i]);
            let ghost before = r.deep_view();
            r.push(bytes);
            assert(r.deep_view() =~= before.push(bytes@));
            assert(written(kept.push(all[i as int])) =~= written(kept).push(bytes@));
        }
        i = i + 1;
    }
    assert(all.subrange(0, i as int) =~= all);
    r
}

/// The events from before author chains in a stored document, each in its JSON
/// form; entries that have a place in a chain are left out.
pub fn legacy_entries_in(document: serde_json::Value) -> (r: Vec<Vec<u8>>)
    ensures
        r.deep_view() == written(
            legacy_items(outside::json_model(document)).filter(unchained()),
        ),
{
    if let Some(items) = outside::json_items(&document) {
        return write_legacy_entries(items);
    }
    if let Some(items) = items_under(&document, "events") {
        return write_legacy_entries(items);
    }
    if let Some(log) = outside::json_field(&document, "log") {
        if let Some(items) = items_under(log, "events") {
            return write_legacy_entries(items);
        }
    }
    let ghost model = outside::json_model(document);
    let mut single: Vec<serde_json::Value> = Vec::new();
    single.push(document);
    assert(Seq::new(single@.len(), |i: int| outside::json_model(single@[i])) =~= seq![model]);
    write_legacy_entries(&single)
}

/// The events from before author chains in stored bytes, each in its JSON form.
pub fn legacy_event_entries(data: &[u8]) -> (r: Result<Vec<Vec<u8>>, SocialProtocolError>)
    ensures
        outcome(r) == (match outside::json_read(data@) {
            Err(message) => Err(SocialProtocolErrorView::EventDecode(message)),
            Ok(document) => Ok(written(legacy_items(document).filter(unchained()))),
        }),
{
    match outside::json_parse(data) {
        Err(message) => Err(SocialProtocolError::EventDecode(message)),
        Ok(document) => Ok(legacy_entries_in(document)),
    }
}

/// The JSON form of an event as it was written before author chains.
pub fn legacy_social_event_json(
    author: Did,
    timestamp: u64,
    kind: SocialEventKind,
    identity: &NodeIdentity,
) -> (r: Vec<u8>)
    ensures
        r@ == ({
            let bytes = legacy_content(author.deep_view(), timestamp, kind.deep_view());
            wire::json(
                WireView::Record(
                    Seq::<(Seq<char>, WireView)>::empty()
                        .push(("id"@, String::wire(content_hash(bytes))))
                        .push(("author"@, Did::wire(author.deep_view())))
                        .push(("timestamp"@, u64::wire(timestamp)))
                        .push(("kind"@, kind_wire(kind.deep_view())))
                        .push(
                            (
                                "signature"@,
                                <Vec<u8> as Encode>::wire(
                                    outside::signature_of(identity.seed(), bytes),
                                ),
                            ),
                        ),
                ),
            )
        }),
{
    let payload = legacy_signing_payload_for(&author, timestamp, &kind);
    let id = outside::hex_encode(outside::sha256(payload.as_slice()).as_slice());
    let signature = identity.sign(payload.as_slice());
    let document = Fields::new()
        .with("id", id.to_wire())
        .with("author", author.to_wire())
        .with("timestamp", timestamp.to_wire())
        .with("kind", kind.to_wire())
        .with("signature", signature.to_wire())
        .done();
    wire::json_bytes(&document)
}

impl Migration {
    fn start(total: usize) -> (r: Self)
        ensures
            r.deep_view() == migration(Seq::empty(), total),
    {
        Migration {
            society: Society::new(),
            seen: Group::new(),
            authors: Group::new(),
            report: LegacySocialMemoryMigration {
                legacy_events: total,
                migrated_events: 0,
                duplicate_events: 0,
                unsupported_events: 0,
            },
        }
    }

    fn step(&mut self, event: &LegacySocialEvent)
        requires
            old(self).report.unsupported_events < usize::MAX,
            old(self).report.duplicate_events < usize::MAX,
            old(self).report.migrated_events < usize::MAX,
        ensures
            final(self).deep_view() == migrated(old(self).deep_view(), event.deep_view()),
    {
        if event.validate().is_err() {
            self.report.unsupported_events = self.report.unsupported_events + 1;
            return;
        }
        if !self.seen.insert(event.id.twin()) {
            self.report.duplicate_events = self.report.duplicate_events + 1;
            return;
        }
        let chain_event = legacy_event_as_unverified_chain_event(event);
        if chain_event.validate_author_claims().is_err() {
            self.report.unsupported_events = self.report.unsupported_events + 1;
            return;
        }
        self.authors.insert(event.author.twin());
        self.society.apply_event(&chain_event);
        self.report.migrated_events = self.report.migrated_events + 1;
    }
}

/// Migrates events: those that are valid become the base of a new memory.
pub fn migrate_legacy_social_events(legacy_events: Vec<LegacySocialEvent>) -> (r: (
    SocialMemory,
    LegacySocialMemoryMigration,
))
    ensures
        ({
            let all = legacy_events.deep_view();
            let done = migration(order::sort_by_key(all, by_author()), all.len() as usize);
            &&& r.1.deep_view() == done.report
            &&& r.0.deep_view() == remembered(
                migrated_log(done.society, done.authors, done.report.migrated_events),
                None,
            )
        }),
        r.0.wf(),
        current(r.0.deep_view()),
{
    let total = legacy_events.len();
    let mut keys: Vec<Vec<KeyPart>> = Vec::new();
    while keys.len() < legacy_events.len()
        invariant
            keys@.len() <= legacy_events@.len(),
            forall|j: int|
                0 <= j < keys@.len() ==> (#[trigger] keys@[j]).deep_view() == by_author()(
                    legacy_events@[j].deep_view(),
                ),
        decreases legacy_events@.len() - keys@.len(),
    {
        let key = by_author_of(&legacy_events[keys.len()]);
        keys.push(key);
    }
    let sorted = order::sort_keyed(legacy_events, keys, Ghost(by_author()));
    let ghost all = sorted.deep_view();
    let mut m = Migration::start(total);
    let mut i: usize = 0;
    assert(all.subrange(0, 0) =~= Seq::<LegacySocialEventView>::empty());
    while i < sorted.len()
        invariant
            i <= sorted@.len(),
            all == sorted.deep_view(),
            m.deep_view() == migration(all.subrange(0, i as int), total),
        decreases sorted@.len() - i,
    {
        proof {
            lemma_migration_counts_all(all.subrange(0, i as int), total);
            let upto = all.subrange(0, i + 1);
            assert(upto.drop_last() =~= all.subrange(0, i as int));
            assert(upto.last() == sorted@[i as int].deep_view());
        }
        m.step(&sorted[i]);
        i = i + 1;
    }
    assert(all.subrange(0, i as int) =~= all);
    let log = SocialEventLog::from_migrated_legacy_base(
        &m.society,
        &m.authors,
        m.report.migrated_events,
    );
    (SocialMemory::from_log(log), m.report)
}

} // verus!
