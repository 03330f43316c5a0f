//! Settlement and authority anchors for economic facts.
//!
//! The signed event log and its rules of adoption are the primary authority.
//! External chains, Lightning and attestation reports are optional evidence.
use crate::identity;
use crate::outside;
use crate::text;
use crate::twin::{both, lemma_bytes_view, outcome, Twin};
use crate::types::Did;
use crate::wire::{
    self, push_some, some_wire, text_wire, to_some_wire, Encode, Fields, Wire, WireView,
};
use vstd::prelude::*;
use vstd::string::*;
use vstd::utf8::*;

verus! {

broadcast use lemma_bytes_view;

/// What stands behind an anchor.
#[derive(Clone, Copy, Debug, PartialEq, Eq, Hash, Structural)]
pub enum AuthorityKind {
    SovereignSociety,
    LocalSignature,
    CollectiveQuorum,
    Bitcoin,
    Lightning,
    ExternalChain,
    TeeAttestation,
    ZeroKnowledgeProof,
}

impl DeepView for AuthorityKind {
    type V = AuthorityKind;

    open spec fn deep_view(&self) -> AuthorityKind {
        *self
    }
}

impl Twin for AuthorityKind {
    fn twin(&self) -> (r: Self) {
        *self
    }
}

impl Encode for AuthorityKind {
    open spec fn wire(v: AuthorityKind) -> WireView {
        WireView::Text(
            match v {
                AuthorityKind::SovereignSociety => "SovereignSociety"@,
                AuthorityKind::LocalSignature => "LocalSignature"@,
                AuthorityKind::CollectiveQuorum => "CollectiveQuorum"@,
                AuthorityKind::Bitcoin => "Bitcoin"@,
                AuthorityKind::Lightning => "Lightning"@,
                AuthorityKind::ExternalChain => "ExternalChain"@,
                AuthorityKind::TeeAttestation => "TeeAttestation"@,
                AuthorityKind::ZeroKnowledgeProof => "ZeroKnowledgeProof"@,
            },
        )
    }

    fn to_wire(&self) -> (r: Wire) {
        match self {
            AuthorityKind::SovereignSociety => text_wire("SovereignSociety"),
            AuthorityKind::LocalSignature => text_wire("LocalSignature"),
            AuthorityKind::CollectiveQuorum => text_wire("CollectiveQuorum"),
            AuthorityKind::Bitcoin => text_wire("Bitcoin"),
            AuthorityKind::Lightning => text_wire("Lightning"),
            AuthorityKind::ExternalChain => text_wire("ExternalChain"),
            AuthorityKind::TeeAttestation => text_wire("TeeAttestation"),
            AuthorityKind::ZeroKnowledgeProof => text_wire("ZeroKnowledgeProof"),
        }
    }
}

/// A commitment to the state of a subject at a point in time.
#[derive(Debug, PartialEq, Eq)]
pub struct StateCheckpoint {
    pub version: u32,
    pub subject: String,
    pub social_root_hex: Option<String>,
    pub workspace_root_hex: Option<String>,
    pub ledger_root_hex: Option<String>,
    pub policy_id: String,
    pub timestamp: u64,
}

/// The mathematical form of [`StateCheckpoint`].
#[verifier::ext_equal]
pub struct StateCheckpointView {
    pub version: u32,
    pub subject: Seq<char>,
    pub social_root_hex: Option<Seq<char>>,
    pub workspace_root_hex: Option<Seq<char>>,
    pub ledger_root_hex: Option<Seq<char>>,
    pub policy_id: Seq<char>,
    pub timestamp: u64,
}

impl DeepView for StateCheckpoint {
    type V = StateCheckpointView;

    open spec fn deep_view(&self) -> StateCheckpointView {
        StateCheckpointView {
            version: self.version.deep_view(),
            subject: self.subject.deep_view(),
            social_root_hex: self.social_root_hex.deep_view(),
            workspace_root_hex: self.workspace_root_hex.deep_view(),
            ledger_root_hex: self.ledger_root_hex.deep_view(),
            policy_id: self.policy_id.deep_view(),
            timestamp: self.timestamp.deep_view(),
        }
    }
}

impl Twin for StateCheckpoint {
    fn twin(&self) -> (r: Self) {
        StateCheckpoint {
            version: self.version.twin(),
            subject: self.subject.twin(),
            social_root_hex: self.social_root_hex.twin(),
            workspace_root_hex: self.workspace_root_hex.twin(),
            ledger_root_hex: self.ledger_root_hex.twin(),
            policy_id: self.policy_id.twin(),
            timestamp: self.timestamp.twin(),
        }
    }
}

impl Clone for StateCheckpoint {
    fn clone(&self) -> (r: Self)
        ensures
            r.deep_view() == self.deep_view(),
    {
        self.twin()
    }
}

impl Encode for StateCheckpoint {
    open spec fn wire(v: StateCheckpointView) -> WireView {
        WireView::Record(
            push_some(
push_some(
push_some(
Seq::<(Seq<char>, WireView)>::empty()
            .push(("version"@, u32::wire(v.version)))
            .push(("subject"@, String::wire(v.subject))),
"social_root_hex"@,
some_wire::<String>(v.social_root_hex),
),
"workspace_root_hex"@,
some_wire::<String>(v.workspace_root_hex),
),
"ledger_root_hex"@,
some_wire::<String>(v.ledger_root_hex),
)
            .push(("policy_id"@, String::wire(v.policy_id)))
            .push(("timestamp"@, u64::wire(v.timestamp))),
        )
    }

    fn to_wire(&self) -> (r: Wire) {
        Fields::new()
            .with("version", self.version.to_wire())
            .with("subject", self.subject.to_wire())
            .with_some("social_root_hex", to_some_wire(&self.social_root_hex))
            .with_some("workspace_root_hex", to_some_wire(&self.workspace_root_hex))
            .with_some("ledger_root_hex", to_some_wire(&self.ledger_root_hex))
            .with("policy_id", self.policy_id.to_wire())
            .with("timestamp", self.timestamp.to_wire())
            .done()
    }
}

/// Evidence from an authority for a commitment.
#[derive(Debug, PartialEq, Eq)]
pub struct AuthorityAnchor {
    pub kind: AuthorityKind,
    pub commitment_hex: String,
    pub locator: Option<String>,
    pub attestors: Vec<Did>,
    pub threshold: Option<usize>,
}

/// The mathematical form of [`AuthorityAnchor`].
#[verifier::ext_equal]
pub struct AuthorityAnchorView {
    pub kind: AuthorityKind,
    pub commitment_hex: Seq<char>,
    pub locator: Option<Seq<char>>,
    pub attestors: Seq<Seq<char>>,
    pub threshold: Option<usize>,
}

impl DeepView for AuthorityAnchor {
    type V = AuthorityAnchorView;

    open spec fn deep_view(&self) -> AuthorityAnchorView {
        AuthorityAnchorView {
            kind: self.kind.deep_view(),
            commitment_hex: self.commitment_hex.deep_view(),
            locator: self.locator.deep_view(),
            attestors: self.attestors.deep_view(),
            threshold: self.threshold.deep_view(),
        }
    }
}

impl Twin for AuthorityAnchor {
    fn twin(&self) -> (r: Self) {
        AuthorityAnchor {
            kind: self.kind.twin(),
            commitment_hex: self.commitment_hex.twin(),
            locator: self.locator.twin(),
            attestors: self.attestors.twin(),
            threshold: self.threshold.twin(),
        }
    }
}

impl Clone for AuthorityAnchor {
    fn clone(&self) -> (r: Self)
        ensures
            r.deep_view() == self.deep_view(),
    {
        self.twin()
    }
}

impl Encode for AuthorityAnchor {
    open spec fn wire(v: AuthorityAnchorView) -> WireView {
        WireView::Record(
            push_some(
push_some(
Seq::<(Seq<char>, WireView)>::empty()
            .push(("kind"@, AuthorityKind::wire(v.kind)))
            .push(("commitment_hex"@, String::wire(v.commitment_hex))),
"locator"@,
some_wire::<String>(v.locator),
)
            .push(("attestors"@, <Vec<Did> as Encode>::wire(v.attestors))),
"threshold"@,
some_wire::<usize>(v.threshold),
),
        )
    }

    fn to_wire(&self) -> (r: Wire) {
        Fields::new()
            .with("kind", self.kind.to_wire())
            .with("commitment_hex", self.commitment_hex.to_wire())
            .with_some("locator", to_some_wire(&self.locator))
            .with("attestors", self.attestors.to_wire())
            .with_some("threshold", to_some_wire(&self.threshold))
            .done()
    }
}

/// A settlement on a mutual credit line, signed by the counterparty.
#[derive(Debug, PartialEq, Eq)]
pub struct MutualCreditSettlement {
    pub counterparty: Did,
    pub amount: u64,
    pub ledger_tx_id: String,
    pub counterparty_signature: Vec<u8>,
}

/// The mathematical form of [`MutualCreditSettlement`].
#[verifier::ext_equal]
pub struct MutualCreditSettlementView {
    pub counterparty: Seq<char>,
    pub amount: u64,
    pub ledger_tx_id: Seq<char>,
    pub counterparty_signature: Seq<u8>,
}

impl DeepView for MutualCreditSettlement {
    type V = MutualCreditSettlementView;

    open spec fn deep_view(&self) -> MutualCreditSettlementView {
        MutualCreditSettlementView {
            counterparty: self.counterparty.deep_view(),
            amount: self.amount.deep_view(),
            ledger_tx_id: self.ledger_tx_id.deep_view(),
            counterparty_signature: self.counterparty_signature.deep_view(),
        }
    }
}

impl Twin for MutualCreditSettlement {
    fn twin(&self) -> (r: Self) {
        MutualCreditSettlement {
            counterparty: self.counterparty.twin(),
            amount: self.amount.twin(),
            ledger_tx_id: self.ledger_tx_id.twin(),
            counterparty_signature: self.counterparty_signature.twin(),
        }
    }
}

impl Clone for MutualCreditSettlement {
    fn clone(&self) -> (r: Self)
        ensures
            r.deep_view() == self.deep_view(),
    {
        self.twin()
    }
}

impl Encode for MutualCreditSettlement {
    open spec fn wire(v: MutualCreditSettlementView) -> WireView {
        WireView::Record(
            Seq::<(Seq<char>, WireView)>::empty()
            .push(("counterparty"@, Did::wire(v.counterparty)))
            .push(("amount"@, u64::wire(v.amount)))
            .push(("ledger_tx_id"@, String::wire(v.ledger_tx_id)))
            .push(("counterparty_signature"@, <Vec<u8> as Encode>::wire(v.counterparty_signature))),
        )
    }

    fn to_wire(&self) -> (r: Wire) {
        Fields::new()
            .with("counterparty", self.counterparty.to_wire())
            .with("amount", self.amount.to_wire())
            .with("ledger_tx_id", self.ledger_tx_id.to_wire())
            .with("counterparty_signature", self.counterparty_signature.to_wire())
            .done()
    }
}

/// A settlement by a payment on an outside network.
#[derive(Debug, PartialEq, Eq)]
pub struct ExternalPaymentSettlement {
    pub authority: AuthorityKind,
    pub asset: String,
    pub amount: u64,
    pub payment_id: String,
    pub recipient: String,
    pub confirmations: u32,
    pub min_confirmations: u32,
}

/// The mathematical form of [`ExternalPaymentSettlement`].
#[verifier::ext_equal]
pub struct ExternalPaymentSettlementView {
    pub authority: AuthorityKind,
    pub asset: Seq<char>,
    pub amount: u64,
    pub payment_id: Seq<char>,
    pub recipient: Seq<char>,
    pub confirmations: u32,
    pub min_confirmations: u32,
}

impl DeepView for ExternalPaymentSettlement {
    type V = ExternalPaymentSettlementView;

    open spec fn deep_view(&self) -> ExternalPaymentSettlementView {
        ExternalPaymentSettlementView {
            authority: self.authority.deep_view(),
            asset: self.asset.deep_view(),
            amount: self.amount.deep_view(),
            payment_id: self.payment_id.deep_view(),
            recipient: self.recipient.deep_view(),
            confirmations: self.confirmations.deep_view(),
            min_confirmations: self.min_confirmations.deep_view(),
        }
    }
}

impl Twin for ExternalPaymentSettlement {
    fn twin(&self) -> (r: Self) {
        ExternalPaymentSettlement {
            authority: self.authority.twin(),
            asset: self.asset.twin(),
            amount: self.amount.twin(),
            payment_id: self.payment_id.twin(),
            recipient: self.recipient.twin(),
            confirmations: self.confirmations.twin(),
            min_confirmations: self.min_confirmations.twin(),
        }
    }
}

impl Clone for ExternalPaymentSettlement {
    fn clone(&self) -> (r: Self)
        ensures
            r.deep_view() == self.deep_view(),
    {
        self.twin()
    }
}

impl Encode for ExternalPaymentSettlement {
    open spec fn wire(v: ExternalPaymentSettlementView) -> WireView {
        WireView::Record(
            Seq::<(Seq<char>, WireView)>::empty()
            .push(("authority"@, AuthorityKind::wire(v.authority)))
            .push(("asset"@, String::wire(v.asset)))
            .push(("amount"@, u64::wire(v.amount)))
            .push(("payment_id"@, String::wire(v.payment_id)))
            .push(("recipient"@, String::wire(v.recipient)))
            .push(("confirmations"@, u32::wire(v.confirmations)))
            .push(("min_confirmations"@, u32::wire(v.min_confirmations))),
        )
    }

    fn to_wire(&self) -> (r: Wire) {
        Fields::new()
            .with("authority", self.authority.to_wire())
            .with("asset", self.asset.to_wire())
            .with("amount", self.amount.to_wire())
            .with("payment_id", self.payment_id.to_wire())
            .with("recipient", self.recipient.to_wire())
            .with("confirmations", self.confirmations.to_wire())
            .with("min_confirmations", self.min_confirmations.to_wire())
            .done()
    }
}

/// A settlement by a Lightning payment and its preimage.
#[derive(Debug, PartialEq, Eq)]
pub struct LightningSettlement {
    pub amount_msat: u64,
    pub payment_hash_hex: String,
    pub preimage_hex: String,
}

/// The mathematical form of [`LightningSettlement`].
#[verifier::ext_equal]
pub struct LightningSettlementView {
    pub amount_msat: u64,
    pub payment_hash_hex: Seq<char>,
    pub preimage_hex: Seq<char>,
}

impl DeepView for LightningSettlement {
    type V = LightningSettlementView;

    open spec fn deep_view(&self) -> LightningSettlementView {
        LightningSettlementView {
            amount_msat: self.amount_msat.deep_view(),
            payment_hash_hex: self.payment_hash_hex.deep_view(),
            preimage_hex: self.preimage_hex.deep_view(),
        }
    }
}

impl Twin for LightningSettlement {
    fn twin(&self) -> (r: Self) {
        LightningSettlement {
            amount_msat: self.amount_msat.twin(),
            payment_hash_hex: self.payment_hash_hex.twin(),
            preimage_hex: self.preimage_hex.twin(),
        }
    }
}

impl Clone for LightningSettlement {
    fn clone(&self) -> (r: Self)
        ensures
            r.deep_view() == self.deep_view(),
    {
        self.twin()
    }
}

impl Encode for LightningSettlement {
    open spec fn wire(v: LightningSettlementView) -> WireView {
        WireView::Record(
            Seq::<(Seq<char>, WireView)>::empty()
            .push(("amount_msat"@, u64::wire(v.amount_msat)))
            .push(("payment_hash_hex"@, String::wire(v.payment_hash_hex)))
            .push(("preimage_hex"@, String::wire(v.preimage_hex))),
        )
    }

    fn to_wire(&self) -> (r: Wire) {
        Fields::new()
            .with("amount_msat", self.amount_msat.to_wire())
            .with("payment_hash_hex", self.payment_hash_hex.to_wire())
            .with("preimage_hex", self.preimage_hex.to_wire())
            .done()
    }
}

/// A checkpoint and the anchor that commits to it.
#[derive(Debug, PartialEq, Eq)]
pub struct AnchoredCheckpoint {
    pub checkpoint: StateCheckpoint,
    pub anchor: AuthorityAnchor,
}

/// The mathematical form of [`AnchoredCheckpoint`].
#[verifier::ext_equal]
pub struct AnchoredCheckpointView {
    pub checkpoint: StateCheckpointView,
    pub anchor: AuthorityAnchorView,
}

impl DeepView for AnchoredCheckpoint {
    type V = AnchoredCheckpointView;

    open spec fn deep_view(&self) -> AnchoredCheckpointView {
        AnchoredCheckpointView {
            checkpoint: self.checkpoint.deep_view(),
            anchor: self.anchor.deep_view(),
        }
    }
}

impl Twin for AnchoredCheckpoint {
    fn twin(&self) -> (r: Self) {
        AnchoredCheckpoint {
            checkpoint: self.checkpoint.twin(),
            anchor: self.anchor.twin(),
        }
    }
}

impl Clone for AnchoredCheckpoint {
    fn clone(&self) -> (r: Self)
        ensures
            r.deep_view() == self.deep_view(),
    {
        self.twin()
    }
}

impl Encode for AnchoredCheckpoint {
    open spec fn wire(v: AnchoredCheckpointView) -> WireView {
        WireView::Record(
            Seq::<(Seq<char>, WireView)>::empty()
            .push(("checkpoint"@, StateCheckpoint::wire(v.checkpoint)))
            .push(("anchor"@, AuthorityAnchor::wire(v.anchor))),
        )
    }

    fn to_wire(&self) -> (r: Wire) {
        Fields::new()
            .with("checkpoint", self.checkpoint.to_wire())
            .with("anchor", self.anchor.to_wire())
            .done()
    }
}

/// How a settlement is proved.
#[derive(Debug, PartialEq, Eq)]
pub enum SettlementProof {
    /// By the signed event itself.
    Sovereign,
    MutualCredit(MutualCreditSettlement),
    ExternalPayment(ExternalPaymentSettlement),
    Lightning(LightningSettlement),
    AnchoredCheckpoint(AnchoredCheckpoint),
}

/// The mathematical form of [`SettlementProof`].
pub enum SettlementProofView {
    Sovereign,
    MutualCredit(MutualCreditSettlementView),
    ExternalPayment(ExternalPaymentSettlementView),
    Lightning(LightningSettlementView),
    AnchoredCheckpoint(AnchoredCheckpointView),
}

impl DeepView for SettlementProof {
    type V = SettlementProofView;

    open spec fn deep_view(&self) -> SettlementProofView {
        match self {
            SettlementProof::Sovereign => SettlementProofView::Sovereign,
            SettlementProof::MutualCredit(a0) => SettlementProofView::MutualCredit(a0.deep_view()),
            SettlementProof::ExternalPayment(a0) => SettlementProofView::ExternalPayment(a0.deep_view()),
            SettlementProof::Lightning(a0) => SettlementProofView::Lightning(a0.deep_view()),
            SettlementProof::AnchoredCheckpoint(a0) => SettlementProofView::AnchoredCheckpoint(a0.deep_view()),
        }
    }
}

impl Twin for SettlementProof {
    fn twin(&self) -> (r: Self) {
        match self {
            SettlementProof::Sovereign => SettlementProof::Sovereign,
            SettlementProof::MutualCredit(a0) => SettlementProof::MutualCredit(a0.twin()),
            SettlementProof::ExternalPayment(a0) => SettlementProof::ExternalPayment(a0.twin()),
            SettlementProof::Lightning(a0) => SettlementProof::Lightning(a0.twin()),
            SettlementProof::AnchoredCheckpoint(a0) => SettlementProof::AnchoredCheckpoint(a0.twin()),
        }
    }
}

impl Clone for SettlementProof {
    fn clone(&self) -> (r: Self)
        ensures
            r.deep_view() == self.deep_view(),
    {
        self.twin()
    }
}

/// The tag and content of a proof.
pub open spec fn proof_record(kind: Seq<char>, content: Option<WireView>) -> WireView {
    WireView::Record(
        push_some(
            Seq::<(Seq<char>, WireView)>::empty().push(("kind"@, WireView::Text(kind))),
            "proof"@,
            content,
        ),
    )
}

fn to_proof_record(kind: &str, content: Option<Wire>) -> (r: Wire)
    ensures
        r.deep_view() == proof_record(kind@, content.deep_view()),
{
    Fields::new().with("kind", text_wire(kind)).with_some("proof", content).done()
}

impl Encode for SettlementProof {
    open spec fn wire(v: SettlementProofView) -> WireView {
        match v {
            SettlementProofView::Sovereign => proof_record("Sovereign"@, None),
            SettlementProofView::MutualCredit(p) => proof_record(
                "MutualCredit"@,
                Some(MutualCreditSettlement::wire(p)),
            ),
            SettlementProofView::ExternalPayment(p) => proof_record(
                "ExternalPayment"@,
                Some(ExternalPaymentSettlement::wire(p)),
            ),
            SettlementProofView::Lightning(p) => proof_record(
                "Lightning"@,
                Some(LightningSettlement::wire(p)),
            ),
            SettlementProofView::AnchoredCheckpoint(p) => proof_record(
                "AnchoredCheckpoint"@,
                Some(AnchoredCheckpoint::wire(p)),
            ),
        }
    }

    fn to_wire(&self) -> (r: Wire) {
        match self {
            SettlementProof::Sovereign => to_proof_record("Sovereign", None),
            SettlementProof::MutualCredit(p) => to_proof_record("MutualCredit", Some(p.to_wire())),
            SettlementProof::ExternalPayment(p) => to_proof_record("ExternalPayment", Some(p.to_wire())),
            SettlementProof::Lightning(p) => to_proof_record("Lightning", Some(p.to_wire())),
            SettlementProof::AnchoredCheckpoint(p) => to_proof_record("AnchoredCheckpoint", Some(p.to_wire())),
        }
    }
}

/// Why a settlement is refused.
#[derive(Debug, PartialEq, Eq)]
pub enum SettlementError {
    MissingField { field: &'static str },
    ZeroAmount { field: &'static str },
    InvalidHashHex { field: &'static str },
    InsufficientConfirmations { confirmations: u32, required: u32 },
    LightningPreimageMismatch,
    AnchorCommitmentMismatch,
    InsufficientQuorum { attestors: usize, threshold: usize },
    /// The counterparty did not sign the terms.
    InvalidCounterpartySignature,
    Serialization(String),
}

/// The mathematical form of [`SettlementError`].
pub enum SettlementErrorView {
    MissingField { field: Seq<char> },
    ZeroAmount { field: Seq<char> },
    InvalidHashHex { field: Seq<char> },
    InsufficientConfirmations { confirmations: u32, required: u32 },
    LightningPreimageMismatch,
    AnchorCommitmentMismatch,
    InsufficientQuorum { attestors: usize, threshold: usize },
    InvalidCounterpartySignature,
    Serialization(Seq<char>),
}

impl DeepView for SettlementError {
    type V = SettlementErrorView;

    open spec fn deep_view(&self) -> SettlementErrorView {
        match self {
            SettlementError::MissingField { field } => SettlementErrorView::MissingField {
                field: field.deep_view(),
            },
            SettlementError::ZeroAmount { field } => SettlementErrorView::ZeroAmount {
                field: field.deep_view(),
            },
            SettlementError::InvalidHashHex { field } => SettlementErrorView::InvalidHashHex {
                field: field.deep_view(),
            },
            SettlementError::InsufficientConfirmations { confirmations, required } => SettlementErrorView::InsufficientConfirmations {
                confirmations: confirmations.deep_view(),
                required: required.deep_view(),
            },
            SettlementError::LightningPreimageMismatch => SettlementErrorView::LightningPreimageMismatch,
            SettlementError::AnchorCommitmentMismatch => SettlementErrorView::AnchorCommitmentMismatch,
            SettlementError::InsufficientQuorum { attestors, threshold } => SettlementErrorView::InsufficientQuorum {
                attestors: attestors.deep_view(),
                threshold: threshold.deep_view(),
            },
            SettlementError::InvalidCounterpartySignature => SettlementErrorView::InvalidCounterpartySignature,
            SettlementError::Serialization(a0) => SettlementErrorView::Serialization(a0.deep_view()),
        }
    }
}

impl Twin for SettlementError {
    fn twin(&self) -> (r: Self) {
        match self {
            SettlementError::MissingField { field } => SettlementError::MissingField {
                field: *field,
            },
            SettlementError::ZeroAmount { field } => SettlementError::ZeroAmount {
                field: *field,
            },
            SettlementError::InvalidHashHex { field } => SettlementError::InvalidHashHex {
                field: *field,
            },
            SettlementError::InsufficientConfirmations { confirmations, required } => SettlementError::InsufficientConfirmations {
                confirmations: confirmations.twin(),
                required: required.twin(),
            },
            SettlementError::LightningPreimageMismatch => SettlementError::LightningPreimageMismatch,
            SettlementError::AnchorCommitmentMismatch => SettlementError::AnchorCommitmentMismatch,
            SettlementError::InsufficientQuorum { attestors, threshold } => SettlementError::InsufficientQuorum {
                attestors: attestors.twin(),
                threshold: threshold.twin(),
            },
            SettlementError::InvalidCounterpartySignature => SettlementError::InvalidCounterpartySignature,
            SettlementError::Serialization(a0) => SettlementError::Serialization(a0.twin()),
        }
    }
}

impl Clone for SettlementError {
    fn clone(&self) -> (r: Self)
        ensures
            r.deep_view() == self.deep_view(),
    {
        self.twin()
    }
}

/// Whether a required text is there.
pub open spec fn present(field: Seq<char>, value: Seq<char>) -> Result<(), SettlementErrorView> {
    if text::blank(value) {
        Err(SettlementErrorView::MissingField { field })
    } else {
        Ok(())
    }
}

/// Whether an amount is positive.
pub open spec fn positive(field: Seq<char>, value: u64) -> Result<(), SettlementErrorView> {
    if value == 0 {
        Err(SettlementErrorView::ZeroAmount { field })
    } else {
        Ok(())
    }
}

/// Whether a text is sixty-four hexadecimal digits.
pub open spec fn is_hash_hex(value: Seq<char>) -> bool {
    &&& encode_utf8(value).len() == 64
    &&& outside::hex_parse(encode_utf8(value)) is Ok
}

/// Whether a text is the hexadecimal form of a hash.
pub open spec fn hash_form(field: Seq<char>, value: Seq<char>) -> Result<(), SettlementErrorView> {
    if is_hash_hex(value) {
        Ok(())
    } else {
        Err(SettlementErrorView::InvalidHashHex { field })
    }
}

/// Whether a text, where there is one, is the hexadecimal form of a hash.
pub open spec fn optional_hash(field: Seq<char>, value: Option<Seq<char>>) -> Result<
    (),
    SettlementErrorView,
> {
    match value {
        Some(s) => hash_form(field, s),
        None => Ok(()),
    }
}

fn require_non_empty(field: &'static str, value: &str) -> (r: Result<(), SettlementError>)
    ensures
        outcome(r) == present(field@, value@),
{
    if text::is_blank(value) {
        Err(SettlementError::MissingField { field })
    } else {
        Ok(())
    }
}

fn require_positive(field: &'static str, value: u64) -> (r: Result<(), SettlementError>)
    ensures
        outcome(r) == positive(field@, value),
{
    if value == 0 {
        Err(SettlementError::ZeroAmount { field })
    } else {
        Ok(())
    }
}

fn validate_optional_hash(field: &'static str, value: &Option<String>) -> (r: Result<
    (),
    SettlementError,
>)
    ensures
        outcome(r) == optional_hash(field@, value.deep_view()),
{
    match value {
        Some(s) => validate_hash_hex(field, s.as_str()),
        None => Ok(()),
    }
}

/// A hexadecimal text of sixty-four digits stands for thirty-two bytes.
proof fn lemma_hash_len(value: Seq<char>)
    requires
        is_hash_hex(value),
    ensures
        outside::hex_parse(encode_utf8(value))->Ok_0.len() == 32,
{
}

fn validate_hash_hex(field: &'static str, value: &str) -> (r: Result<(), SettlementError>)
    ensures
        outcome(r) == hash_form(field@, value@),
{
    match decode_hash_hex(field, value) {
        Err(e) => Err(e),
        Ok(bytes) => {
            proof {
                lemma_hash_len(value@);
            }
            if bytes.len() == 32 {
                Ok(())
            } else {
                Err(SettlementError::InvalidHashHex { field })
            }
        },
    }
}

fn decode_hash_hex(field: &'static str, value: &str) -> (r: Result<Vec<u8>, SettlementError>)
    ensures
        match r {
            Ok(bytes) => is_hash_hex(value@) && outside::hex_parse(encode_utf8(value@)) == Ok::<
                Seq<u8>,
                outside::HexError,
            >(bytes@),
            Err(e) => !is_hash_hex(value@) && e.deep_view() == (
            SettlementErrorView::InvalidHashHex { field: field@ }),
        },
{
    let raw = text::bytes_of(value);
    if raw.len() != 64 {
        return Err(SettlementError::InvalidHashHex { field });
    }
    match outside::hex_decode(value) {
        Ok(bytes) => Ok(bytes),
        Err(_) => Err(SettlementError::InvalidHashHex { field }),
    }
}

/// Whether a checkpoint is well formed.
pub open spec fn checkpoint_valid(v: StateCheckpointView) -> Result<(), SettlementErrorView> {
    both(
        present("subject"@, v.subject),
        both(
            present("policy_id"@, v.policy_id),
            both(
                optional_hash("social_root_hex"@, v.social_root_hex),
                both(
                    optional_hash("workspace_root_hex"@, v.workspace_root_hex),
                    optional_hash("ledger_root_hex"@, v.ledger_root_hex),
                ),
            ),
        ),
    )
}

/// The commitment to a checkpoint: the hash of its JSON form.
pub open spec fn commitment(v: StateCheckpointView) -> Seq<char> {
    outside::hex_text(outside::sha256_of(wire::json(StateCheckpoint::wire(v))))
}

impl StateCheckpoint {
    /// Checks that subject and policy are named and that roots are hashes.
    pub fn validate(&self) -> (r: Result<(), SettlementError>)
        ensures
            outcome(r) == checkpoint_valid(self.deep_view()),
    {
        if let Err(e) = require_non_empty("subject", self.subject.as_str()) {
            return Err(e);
        }
        if let Err(e) = require_non_empty("policy_id", self.policy_id.as_str()) {
            return Err(e);
        }
        if let Err(e) = validate_optional_hash("social_root_hex", &self.social_root_hex) {
            return Err(e);
        }
        if let Err(e) = validate_optional_hash("workspace_root_hex", &self.workspace_root_hex) {
            return Err(e);
        }
        validate_optional_hash("ledger_root_hex", &self.ledger_root_hex)
    }

    /// The commitment to a valid checkpoint.
    pub fn commitment_hex(&self) -> (r: Result<String, SettlementError>)
        ensures
            outcome(r) == (match checkpoint_valid(self.deep_view()) {
                Ok(_) => Ok(commitment(self.deep_view())),
                Err(e) => Err(e),
            }),
    {
        match self.validate() {
            Err(e) => Err(e),
            Ok(_) => {
                let payload = wire::json_bytes(&self.to_wire());
                Ok(outside::hex_encode(outside::sha256(payload.as_slice()).as_slice()))
            },
        }
    }
}

/// Whether an anchor is well formed: a quorum needs its attestors, a chain
/// needs a place on it.
pub open spec fn anchor_valid(v: AuthorityAnchorView) -> Result<(), SettlementErrorView> {
    both(
        hash_form("commitment_hex"@, v.commitment_hex),
        match v.kind {
            AuthorityKind::CollectiveQuorum => {
                let threshold = match v.threshold {
                    Some(n) => n,
                    None => 0,
                };
                if threshold == 0 {
                    Err(SettlementErrorView::MissingField { field: "threshold"@ })
                } else if v.attestors.len() < threshold {
                    Err(
                        SettlementErrorView::InsufficientQuorum {
                            attestors: v.attestors.len() as usize,
                            threshold,
                        },
                    )
                } else {
                    Ok(())
                }
            },
            AuthorityKind::Bitcoin | AuthorityKind::ExternalChain => present(
                "locator"@,
                match v.locator {
                    Some(s) => s,
                    None => Seq::empty(),
                },
            ),
            _ => Ok(()),
        },
    )
}

impl AuthorityAnchor {
    /// Checks the commitment and what the kind of authority requires.
    pub fn validate(&self) -> (r: Result<(), SettlementError>)
        ensures
            outcome(r) == anchor_valid(self.deep_view()),
    {
        if let Err(e) = validate_hash_hex("commitment_hex", self.commitment_hex.as_str()) {
            return Err(e);
        }
        match self.kind {
            AuthorityKind::CollectiveQuorum => {
                let threshold: usize = match self.threshold {
                    Some(n) => n,
                    None => 0,
                };
                if threshold == 0 {
                    return Err(SettlementError::MissingField { field: "threshold" });
                }
                if self.attestors.len() < threshold {
                    return Err(
                        SettlementError::InsufficientQuorum {
                            attestors: self.attestors.len(),
                            threshold,
                        },
                    );
                }
                Ok(())
            },
            AuthorityKind::Bitcoin | AuthorityKind::ExternalChain => {
                match &self.locator {
                    Some(s) => require_non_empty("locator", s.as_str()),
                    None => {
                        assert(text::blank(Seq::<char>::empty()));
                        Err(SettlementError::MissingField { field: "locator" })
                    },
                }
            },
            _ => Ok(()),
        }
    }
}

/// Whether a proof is valid by itself.
pub open spec fn proof_valid(v: SettlementProofView) -> Result<(), SettlementErrorView> {
    match v {
        SettlementProofView::Sovereign => Ok(()),
        SettlementProofView::MutualCredit(p) => mutual_valid(p),
        SettlementProofView::ExternalPayment(p) => payment_valid(p),
        SettlementProofView::Lightning(p) => lightning_valid(p),
        SettlementProofView::AnchoredCheckpoint(p) => anchored_valid(p),
    }
}

/// Whether a proof is valid for a settlement between two parties: a mutual
/// credit settlement also needs the counterparty's signature on the terms.
pub open spec fn proof_settles(
    v: SettlementProofView,
    payer: Seq<char>,
    payee: Seq<char>,
    amount: u64,
) -> Result<(), SettlementErrorView> {
    both(
        proof_valid(v),
        match v {
            SettlementProofView::MutualCredit(p) => if identity::did_accepts(
                p.counterparty,
                terms_payload(p.ledger_tx_id, amount, payer, payee),
                p.counterparty_signature,
            ) is Ok {
                Ok(())
            } else {
                Err(SettlementErrorView::InvalidCounterpartySignature)
            },
            _ => Ok(()),
        },
    )
}

impl SettlementProof {
    /// Checks the proof by itself.
    pub fn validate(&self) -> (r: Result<(), SettlementError>)
        ensures
            outcome(r) == proof_valid(self.deep_view()),
    {
        match self {
            SettlementProof::Sovereign => Ok(()),
            SettlementProof::MutualCredit(p) => p.validate(),
            SettlementProof::ExternalPayment(p) => p.validate(),
            SettlementProof::Lightning(p) => p.validate(),
            SettlementProof::AnchoredCheckpoint(p) => p.validate(),
        }
    }

    /// Checks the proof for the terms of a settlement.
    pub fn validate_for_settlement(&self, payer: &Did, payee: &Did, amount: u64) -> (r: Result<
        (),
        SettlementError,
    >)
        ensures
            outcome(r) == proof_settles(
                self.deep_view(),
                payer.deep_view(),
                payee.deep_view(),
                amount,
            ),
    {
        if let Err(e) = self.validate() {
            return Err(e);
        }
        match self {
            SettlementProof::MutualCredit(p) => {
                let payload = MutualCreditSettlement::counterparty_signing_payload(
                    p.ledger_tx_id.as_str(),
                    amount,
                    payer,
                    payee,
                );
                match identity::verify_did_signature(
                    &p.counterparty,
                    payload.as_slice(),
                    p.counterparty_signature.as_slice(),
                ) {
                    Ok(_) => Ok(()),
                    Err(_) => Err(SettlementError::InvalidCounterpartySignature),
                }
            },
            _ => Ok(()),
        }
    }
}

/// The terms of a mutual credit settlement as the counterparty signs them.
pub open spec fn terms_payload(
    ledger_tx_id: Seq<char>,
    amount: u64,
    payer: Seq<char>,
    payee: Seq<char>,
) -> Seq<u8> {
    wire::json(
        WireView::Record(
            Seq::<(Seq<char>, WireView)>::empty()
                .push(("domain"@, WireView::Text("nexus:mutual-credit-settlement:v1"@)))
                .push(("ledger_tx_id"@, WireView::Text(ledger_tx_id)))
                .push(("amount"@, u64::wire(amount)))
                .push(("payer"@, Did::wire(payer)))
                .push(("payee"@, Did::wire(payee))),
        ),
    )
}

/// Whether a mutual credit settlement is complete.
pub open spec fn mutual_valid(v: MutualCreditSettlementView) -> Result<(), SettlementErrorView> {
    both(
        positive("amount"@, v.amount),
        both(
            present("ledger_tx_id"@, v.ledger_tx_id),
            if v.counterparty_signature.len() == 0 {
                Err(SettlementErrorView::MissingField { field: "counterparty_signature"@ })
            } else {
                Ok(())
            },
        ),
    )
}

impl MutualCreditSettlement {
    /// Checks that amount, transaction and signature are there.
    pub fn validate(&self) -> (r: Result<(), SettlementError>)
        ensures
            outcome(r) == mutual_valid(self.deep_view()),
    {
        if let Err(e) = require_positive("amount", self.amount) {
            return Err(e);
        }
        if let Err(e) = require_non_empty("ledger_tx_id", self.ledger_tx_id.as_str()) {
            return Err(e);
        }
        if self.counterparty_signature.len() == 0 {
            return Err(SettlementError::MissingField { field: "counterparty_signature" });
        }
        Ok(())
    }

    /// The bytes that the counterparty signs.
    pub fn counterparty_signing_payload(
        ledger_tx_id: &str,
        amount: u64,
        payer: &Did,
        payee: &Did,
    ) -> (r: Vec<u8>)
        ensures
            r@ == terms_payload(ledger_tx_id@, amount, payer.deep_view(), payee.deep_view()),
    {
        let document = Fields::new()
            .with("domain", text_wire("nexus:mutual-credit-settlement:v1"))
            .with("ledger_tx_id", text_wire(ledger_tx_id))
            .with("amount", amount.to_wire())
            .with("payer", payer.to_wire())
            .with("payee", payee.to_wire())
            .done();
        wire::json_bytes(&document)
    }
}

/// Whether an outside payment is complete and confirmed.
pub open spec fn payment_valid(v: ExternalPaymentSettlementView) -> Result<
    (),
    SettlementErrorView,
> {
    both(
        positive("amount"@, v.amount),
        both(
            present("asset"@, v.asset),
            both(
                present("payment_id"@, v.payment_id),
                both(
                    present("recipient"@, v.recipient),
                    if v.confirmations < v.min_confirmations {
                        Err(
                            SettlementErrorView::InsufficientConfirmations {
                                confirmations: v.confirmations,
                                required: v.min_confirmations,
                            },
                        )
                    } else if v.authority == AuthorityKind::Bitcoin {
                        hash_form("payment_id"@, v.payment_id)
                    } else {
                        Ok(())
                    },
                ),
            ),
        ),
    )
}

impl ExternalPaymentSettlement {
    /// Checks the fields and the number of confirmations.
    pub fn validate(&self) -> (r: Result<(), SettlementError>)
        ensures
            outcome(r) == payment_valid(self.deep_view()),
    {
        if let Err(e) = require_positive("amount", self.amount) {
            return Err(e);
        }
        if let Err(e) = require_non_empty("asset", self.asset.as_str()) {
            return Err(e);
        }
        if let Err(e) = require_non_empty("payment_id", self.payment_id.as_str()) {
            return Err(e);
        }
        if let Err(e) = require_non_empty("recipient", self.recipient.as_str()) {
            return Err(e);
        }
        if self.confirmations < self.min_confirmations {
            return Err(
                SettlementError::InsufficientConfirmations {
                    confirmations: self.confirmations,
                    required: self.min_confirmations,
                },
            );
        }
        if self.authority == AuthorityKind::Bitcoin {
            return validate_hash_hex("payment_id", self.payment_id.as_str());
        }
        Ok(())
    }
}

/// Whether a Lightning preimage hashes to the payment hash.
pub open spec fn lightning_valid(v: LightningSettlementView) -> Result<(), SettlementErrorView> {
    both(
        positive("amount_msat"@, v.amount_msat),
        both(
            hash_form("payment_hash_hex"@, v.payment_hash_hex),
            both(
                hash_form("preimage_hex"@, v.preimage_hex),
                if outside::hex_text(
                    outside::sha256_of(outside::hex_parse(encode_utf8(v.preimage_hex))->Ok_0),
                ) == text::lower(v.payment_hash_hex) {
                    Ok(())
                } else {
                    Err(SettlementErrorView::LightningPreimageMismatch)
                },
            ),
        ),
    )
}

impl LightningSettlement {
    /// Checks that the preimage hashes to the payment hash.
    pub fn validate(&self) -> (r: Result<(), SettlementError>)
        ensures
            outcome(r) == lightning_valid(self.deep_view()),
    {
        if let Err(e) = require_positive("amount_msat", self.amount_msat) {
            return Err(e);
        }
        if let Err(e) = validate_hash_hex("payment_hash_hex", self.payment_hash_hex.as_str()) {
            return Err(e);
        }
        match decode_hash_hex("preimage_hex", self.preimage_hex.as_str()) {
            Err(e) => Err(e),
            Ok(preimage) => {
                let expected = outside::hex_encode(
                    outside::sha256(preimage.as_slice()).as_slice(),
                );
                let given = text::lower_text(self.payment_hash_hex.as_str());
                if text::same_text(expected.as_str(), given.as_str()) {
                    Ok(())
                } else {
                    Err(SettlementError::LightningPreimageMismatch)
                }
            },
        }
    }
}

/// Whether an anchor commits to its checkpoint.
pub open spec fn anchored_valid(v: AnchoredCheckpointView) -> Result<(), SettlementErrorView> {
    both(
        checkpoint_valid(v.checkpoint),
        both(
            anchor_valid(v.anchor),
            if commitment(v.checkpoint) == text::lower(v.anchor.commitment_hex) {
                Ok(())
            } else {
                Err(SettlementErrorView::AnchorCommitmentMismatch)
            },
        ),
    )
}

impl AnchoredCheckpoint {
    /// Checks checkpoint and anchor and that they belong together.
    pub fn validate(&self) -> (r: Result<(), SettlementError>)
        ensures
            outcome(r) == anchored_valid(self.deep_view()),
    {
        if let Err(e) = self.checkpoint.validate() {
            return Err(e);
        }
        if let Err(e) = self.anchor.validate() {
            return Err(e);
        }
        match self.checkpoint.commitment_hex() {
            Err(e) => Err(e),
            Ok(expected) => {
                let given = text::lower_text(self.anchor.commitment_hex.as_str());
                if text::same_text(expected.as_str(), given.as_str()) {
                    Ok(())
                } else {
                    Err(SettlementError::AnchorCommitmentMismatch)
                }
            },
        }
    }
}

} // verus!
