//! The wire-level social protocol: signed events that form an append-only
//! stream.
use crate::capability::{self, SigningError, SigningErrorView};
use crate::did::{DidError, DidErrorView};
use crate::facts::{
    optional_anchor_valid, settlement_valid, AgentIntent, AgentIntentView, CapabilityGrant,
    CapabilityGrantView, CapabilityRevocation, CapabilityRevocationView, CollectiveDecision,
    CollectiveDecisionView, CollectiveProposal, CollectiveProposalView, CollectiveVote,
    CollectiveVoteView, IdentityRecoveryApproval, IdentityRecoveryApprovalView,
    IdentityRecoveryPolicy, IdentityRecoveryPolicyView, IdentityRevocation, IdentityRevocationView,
    IdentityRotation, IdentityRotationView, IntentResponse, IntentResponseView, Interaction,
    InteractionView, RelationKind, SettlementRecord, SettlementRecordView, TaskDispute,
    TaskDisputeView, WorkspaceOwnershipClaim, WorkspaceOwnershipClaimView, WorkspaceRun,
    WorkspaceRunView, WorkspaceSnapshot, WorkspaceSnapshotView,
};
use crate::identity::{self, IdentitySignatureError, IdentitySignatureErrorView, NodeIdentity};
use crate::manifest::{AgentManifest, AgentManifestView};
use crate::outside;
use crate::settlement::{SettlementError, SettlementErrorView};
use crate::table::Key;
use crate::task::{
    attestation_signed, receipt_proves, ExecutionAttestation, ExecutionAttestationView,
    ExecutionReceiptError, ExecutionReceiptErrorView, TaskAcceptance, TaskAcceptanceView,
    TaskCancellation, TaskCancellationView, TaskOffer, TaskOfferView, TaskResult, TaskResultView,
    TaskSpec, TaskSpecView,
};
use crate::text;
use crate::twin::{both, lemma_bytes_view, outcome, Twin};
use crate::types::{Did, WorkspaceId};
use crate::wire::{self, text_wire, Encode, Fields, Wire, WireView};
use vstd::prelude::*;
use vstd::string::*;

verus! {

broadcast use lemma_bytes_view;

/// Why a social event is refused.
#[derive(Debug, PartialEq, Eq)]
pub enum SocialProtocolError {
    /// Someone other than the author signs.
    AuthorSignerMismatch { author: Did, signer: Did },
    /// The event speaks for someone other than its author.
    AuthorSubjectMismatch { event: &'static str, author: Did, subject: Did },
    MissingSignature,
    InvalidAuthorDid(DidError),
    InvalidVerifyingKey,
    InvalidSignatureBytes,
    SignatureVerificationFailed,
    InvalidExecutionReceipt(ExecutionReceiptError),
    InvalidCapabilityGrant(SigningError),
    InvalidSettlementProof(SettlementError),
    /// A known identifier comes with other content.
    DuplicateEventConflict { event_id: String },
    /// The identifier is not the hash of the content.
    EventIdMismatch { actual: String, expected: String },
    /// The first event of an author names a predecessor.
    InvalidChainGenesis { author: Did },
    /// The author has handed over to a successor.
    IdentityRotated { author: Did, successor: Did },
    EventTimestampTooFarAhead { author: Did, timestamp: u64, observed_at: u64, max_future_skew_secs: u64 },
    EventTooLarge { actual: usize, max: usize },
    EquivocationAuthorMismatch { left: Did, right: Did },
    EquivocationSeqMismatch { left_seq: u64, right_seq: u64 },
    EquivocationEventsIdentical { event_id: String },
    InvalidCompactedLog { reason: String },
    /// The bytes are no event.
    EventDecode(String),
}

/// The mathematical form of [`SocialProtocolError`].
pub enum SocialProtocolErrorView {
    AuthorSignerMismatch { author: Seq<char>, signer: Seq<char> },
    AuthorSubjectMismatch { event: Seq<char>, author: Seq<char>, subject: Seq<char> },
    MissingSignature,
    InvalidAuthorDid(DidErrorView),
    InvalidVerifyingKey,
    InvalidSignatureBytes,
    SignatureVerificationFailed,
    InvalidExecutionReceipt(ExecutionReceiptErrorView),
    InvalidCapabilityGrant(SigningErrorView),
    InvalidSettlementProof(SettlementErrorView),
    DuplicateEventConflict { event_id: Seq<char> },
    EventIdMismatch { actual: Seq<char>, expected: Seq<char> },
    InvalidChainGenesis { author: Seq<char> },
    IdentityRotated { author: Seq<char>, successor: Seq<char> },
    EventTimestampTooFarAhead { author: Seq<char>, timestamp: u64, observed_at: u64, max_future_skew_secs: u64 },
    EventTooLarge { actual: usize, max: usize },
    EquivocationAuthorMismatch { left: Seq<char>, right: Seq<char> },
    EquivocationSeqMismatch { left_seq: u64, right_seq: u64 },
    EquivocationEventsIdentical { event_id: Seq<char> },
    InvalidCompactedLog { reason: Seq<char> },
    EventDecode(Seq<char>),
}

impl DeepView for SocialProtocolError {
    type V = SocialProtocolErrorView;

    open spec fn deep_view(&self) -> SocialProtocolErrorView {
        match self {
            SocialProtocolError::AuthorSignerMismatch { author, signer } => SocialProtocolErrorView::AuthorSignerMismatch {
                author: author.deep_view(),
                signer: signer.deep_view(),
            },
            SocialProtocolError::AuthorSubjectMismatch { event, author, subject } => SocialProtocolErrorView::AuthorSubjectMismatch {
                event: event.deep_view(),
                author: author.deep_view(),
                subject: subject.deep_view(),
            },
            SocialProtocolError::MissingSignature => SocialProtocolErrorView::MissingSignature,
            SocialProtocolError::InvalidAuthorDid(a0) => SocialProtocolErrorView::InvalidAuthorDid(a0.deep_view()),
            SocialProtocolError::InvalidVerifyingKey => SocialProtocolErrorView::InvalidVerifyingKey,
            SocialProtocolError::InvalidSignatureBytes => SocialProtocolErrorView::InvalidSignatureBytes,
            SocialProtocolError::SignatureVerificationFailed => SocialProtocolErrorView::SignatureVerificationFailed,
            SocialProtocolError::InvalidExecutionReceipt(a0) => SocialProtocolErrorView::InvalidExecutionReceipt(a0.deep_view()),
            SocialProtocolError::InvalidCapabilityGrant(a0) => SocialProtocolErrorView::InvalidCapabilityGrant(a0.deep_view()),
            SocialProtocolError::InvalidSettlementProof(a0) => SocialProtocolErrorView::InvalidSettlementProof(a0.deep_view()),
            SocialProtocolError::DuplicateEventConflict { event_id } => SocialProtocolErrorView::DuplicateEventConflict {
                event_id: event_id.deep_view(),
            },
            SocialProtocolError::EventIdMismatch { actual, expected } => SocialProtocolErrorView::EventIdMismatch {
                actual: actual.deep_view(),
                expected: expected.deep_view(),
            },
            SocialProtocolError::InvalidChainGenesis { author } => SocialProtocolErrorView::InvalidChainGenesis {
                author: author.deep_view(),
            },
            SocialProtocolError::IdentityRotated { author, successor } => SocialProtocolErrorView::IdentityRotated {
                author: author.deep_view(),
                successor: successor.deep_view(),
            },
            SocialProtocolError::EventTimestampTooFarAhead { author, timestamp, observed_at, max_future_skew_secs } => SocialProtocolErrorView::EventTimestampTooFarAhead {
                author: author.deep_view(),
                timestamp: timestamp.deep_view(),
                observed_at: observed_at.deep_view(),
                max_future_skew_secs: max_future_skew_secs.deep_view(),
            },
            SocialProtocolError::EventTooLarge { actual, max } => SocialProtocolErrorView::EventTooLarge {
                actual: actual.deep_view(),
                max: max.deep_view(),
            },
            SocialProtocolError::EquivocationAuthorMismatch { left, right } => SocialProtocolErrorView::EquivocationAuthorMismatch {
                left: left.deep_view(),
                right: right.deep_view(),
            },
            SocialProtocolError::EquivocationSeqMismatch { left_seq, right_seq } => SocialProtocolErrorView::EquivocationSeqMismatch {
                left_seq: left_seq.deep_view(),
                right_seq: right_seq.deep_view(),
            },
            SocialProtocolError::EquivocationEventsIdentical { event_id } => SocialProtocolErrorView::EquivocationEventsIdentical {
                event_id: event_id.deep_view(),
            },
            SocialProtocolError::InvalidCompactedLog { reason } => SocialProtocolErrorView::InvalidCompactedLog {
                reason: reason.deep_view(),
            },
            SocialProtocolError::EventDecode(a0) => SocialProtocolErrorView::EventDecode(a0.deep_view()),
        }
    }
}

impl Twin for SocialProtocolError {
    fn twin(&self) -> (r: Self) {
        match self {
            SocialProtocolError::AuthorSignerMismatch { author, signer } => SocialProtocolError::AuthorSignerMismatch {
                author: author.twin(),
                signer: signer.twin(),
            },
            SocialProtocolError::AuthorSubjectMismatch { event, author, subject } => SocialProtocolError::AuthorSubjectMismatch {
                event: *event,
                author: author.twin(),
                subject: subject.twin(),
            },
            SocialProtocolError::MissingSignature => SocialProtocolError::MissingSignature,
            SocialProtocolError::InvalidAuthorDid(a0) => SocialProtocolError::InvalidAuthorDid(a0.twin()),
            SocialProtocolError::InvalidVerifyingKey => SocialProtocolError::InvalidVerifyingKey,
            SocialProtocolError::InvalidSignatureBytes => SocialProtocolError::InvalidSignatureBytes,
            SocialProtocolError::SignatureVerificationFailed => SocialProtocolError::SignatureVerificationFailed,
            SocialProtocolError::InvalidExecutionReceipt(a0) => SocialProtocolError::InvalidExecutionReceipt(a0.twin()),
            SocialProtocolError::InvalidCapabilityGrant(a0) => SocialProtocolError::InvalidCapabilityGrant(a0.twin()),
            SocialProtocolError::InvalidSettlementProof(a0) => SocialProtocolError::InvalidSettlementProof(a0.twin()),
            SocialProtocolError::DuplicateEventConflict { event_id } => SocialProtocolError::DuplicateEventConflict {
                event_id: event_id.twin(),
            },
            SocialProtocolError::EventIdMismatch { actual, expected } => SocialProtocolError::EventIdMismatch {
                actual: actual.twin(),
                expected: expected.twin(),
            },
            SocialProtocolError::InvalidChainGenesis { author } => SocialProtocolError::InvalidChainGenesis {
                author: author.twin(),
            },
            SocialProtocolError::IdentityRotated { author, successor } => SocialProtocolError::IdentityRotated {
                author: author.twin(),
                successor: successor.twin(),
            },
            SocialProtocolError::EventTimestampTooFarAhead { author, timestamp, observed_at, max_future_skew_secs } => SocialProtocolError::EventTimestampTooFarAhead {
                author: author.twin(),
                timestamp: timestamp.twin(),
                observed_at: observed_at.twin(),
                max_future_skew_secs: max_future_skew_secs.twin(),
            },
            SocialProtocolError::EventTooLarge { actual, max } => SocialProtocolError::EventTooLarge {
                actual: actual.twin(),
                max: max.twin(),
            },
            SocialProtocolError::EquivocationAuthorMismatch { left, right } => SocialProtocolError::EquivocationAuthorMismatch {
                left: left.twin(),
                right: right.twin(),
            },
            SocialProtocolError::EquivocationSeqMismatch { left_seq, right_seq } => SocialProtocolError::EquivocationSeqMismatch {
                left_seq: left_seq.twin(),
                right_seq: right_seq.twin(),
            },
            SocialProtocolError::EquivocationEventsIdentical { event_id } => SocialProtocolError::EquivocationEventsIdentical {
                event_id: event_id.twin(),
            },
            SocialProtocolError::InvalidCompactedLog { reason } => SocialProtocolError::InvalidCompactedLog {
                reason: reason.twin(),
            },
            SocialProtocolError::EventDecode(a0) => SocialProtocolError::EventDecode(a0.twin()),
        }
    }
}

impl Clone for SocialProtocolError {
    fn clone(&self) -> (r: Self)
        ensures
            r.deep_view() == self.deep_view(),
    {
        self.twin()
    }
}

/// A signed or unsigned social protocol event.
#[derive(Debug, PartialEq, Eq)]
pub struct SocialEvent {
    /// The hash of the content.
    pub id: String,
    pub author: Did,
    /// The position in the author's chain.
    pub seq: u64,
    /// The identifier of the author's previous event.
    pub prev: Option<String>,
    pub timestamp: u64,
    pub kind: SocialEventKind,
    /// Detached Ed25519 signature over the content.
    pub signature: Option<Vec<u8>>,
}

/// Evidence that one author signed two different events for one position.
#[derive(Debug, PartialEq, Eq)]
pub struct EquivocationProof {
    pub author: Did,
    pub seq: u64,
    pub event_a: Box<SocialEvent>,
    pub event_b: Box<SocialEvent>,
}

/// Event kinds that form the protocol.
#[derive(Debug, PartialEq, Eq)]
pub enum SocialEventKind {
    /// Publish evidence that an author forked their own chain.
    EquivocationObserved { evidence: Box<EquivocationProof> },
    /// Publish or refresh an agent's public profile.
    ManifestPublished { manifest: AgentManifest },
    /// Revoke the author's identity.
    IdentityRevoked { revocation: IdentityRevocation },
    /// Hand the author's identity over to a successor.
    IdentityRotated { rotation: IdentityRotation },
    /// Name the guardians of the author's identity.
    IdentityRecoveryPolicy { policy: IdentityRecoveryPolicy },
    /// Approve a successor for a lost identity, as a guardian.
    IdentityRecoveryApproved { approval: IdentityRecoveryApproval },
    /// Join a workspace.
    WorkspaceJoined { workspace: WorkspaceId },
    /// Claim a workspace.
    WorkspaceOwnershipClaimed { claim: WorkspaceOwnershipClaim },
    /// Hand a workspace over.
    WorkspaceOwnershipTransferred { claim: WorkspaceOwnershipClaim },
    /// Declare or update a relation to another agent.
    RelationDeclared { peer: Did, relation: RelationKind, note: Option<String> },
    /// Record a social memory of an interaction.
    InteractionRecorded { interaction: Interaction },
    /// Create or update a collective.
    CollectiveDeclared { collective_id: String, name: String, purpose: String, members: Vec<Did> },
    /// Join a collective as the event author.
    CollectiveJoined { collective_id: String },
    /// Attach a workspace to a collective.
    CollectiveWorkspaceAttached { collective_id: String, workspace: WorkspaceId },
    /// Publish a proposal inside a collective.
    CollectiveProposalPublished { proposal: CollectiveProposal },
    /// Cast or replace the author's vote.
    CollectiveVoteCast { vote: CollectiveVote },
    /// Record an observed collective decision.
    CollectiveDecisionRecorded { decision: CollectiveDecision },
    /// Publish a signed capability grant.
    CapabilityIssued { grant: CapabilityGrant },
    /// Revoke a capability token.
    CapabilityRevoked { revocation: CapabilityRevocation },
    /// Record an observed root of a workspace.
    WorkspaceSnapshotted { snapshot: WorkspaceSnapshot },
    /// Record a command run in a workspace.
    WorkspaceRunRecorded { run: Box<WorkspaceRun> },
    /// Publish a goal, need, offer, proposal or status.
    IntentPublished { intent: AgentIntent },
    /// Respond to another agent's intent.
    IntentResponded { response: IntentResponse },
    /// Publish a task.
    TaskPublished { task: TaskSpec },
    /// Offer to perform a task.
    TaskOffered { offer: TaskOffer },
    /// Accept an offer and assign a task.
    TaskAccepted { acceptance: TaskAcceptance },
    /// Cancel a task before completion.
    TaskCancelled { cancellation: TaskCancellation },
    /// Report a task result.
    TaskCompleted { result: TaskResult },
    /// Attest the execution behind a task result.
    TaskExecutionAttested { attestation: ExecutionAttestation },
    /// Dispute a task result or execution claim.
    TaskDisputed { dispute: TaskDispute },
    /// Record an economic settlement.
    SettlementRecorded { settlement: SettlementRecord },
}

/// The mathematical form of [`SocialEvent`].
#[verifier::ext_equal]
pub struct SocialEventView {
    pub id: Seq<char>,
    pub author: Seq<char>,
    pub seq: u64,
    pub prev: Option<Seq<char>>,
    pub timestamp: u64,
    pub kind: SocialEventKindView,
    pub signature: Option<Seq<u8>>,
}

/// The mathematical form of [`EquivocationProof`].
#[verifier::ext_equal]
pub struct EquivocationProofView {
    pub author: Seq<char>,
    pub seq: u64,
    pub event_a: Box<SocialEventView>,
    pub event_b: Box<SocialEventView>,
}

/// The mathematical form of [`SocialEventKind`].
pub enum SocialEventKindView {
    EquivocationObserved { evidence: Box<EquivocationProofView> },
    ManifestPublished { manifest: AgentManifestView },
    IdentityRevoked { revocation: IdentityRevocationView },
    IdentityRotated { rotation: IdentityRotationView },
    IdentityRecoveryPolicy { policy: IdentityRecoveryPolicyView },
    IdentityRecoveryApproved { approval: IdentityRecoveryApprovalView },
    WorkspaceJoined { workspace: Seq<u8> },
    WorkspaceOwnershipClaimed { claim: WorkspaceOwnershipClaimView },
    WorkspaceOwnershipTransferred { claim: WorkspaceOwnershipClaimView },
    RelationDeclared { peer: Seq<char>, relation: RelationKind, note: Option<Seq<char>> },
    InteractionRecorded { interaction: InteractionView },
    CollectiveDeclared { collective_id: Seq<char>, name: Seq<char>, purpose: Seq<char>, members: Seq<Seq<char>> },
    CollectiveJoined { collective_id: Seq<char> },
    CollectiveWorkspaceAttached { collective_id: Seq<char>, workspace: Seq<u8> },
    CollectiveProposalPublished { proposal: CollectiveProposalView },
    CollectiveVoteCast { vote: CollectiveVoteView },
    CollectiveDecisionRecorded { decision: CollectiveDecisionView },
    CapabilityIssued { grant: CapabilityGrantView },
    CapabilityRevoked { revocation: CapabilityRevocationView },
    WorkspaceSnapshotted { snapshot: WorkspaceSnapshotView },
    WorkspaceRunRecorded { run: WorkspaceRunView },
    IntentPublished { intent: AgentIntentView },
    IntentResponded { response: IntentResponseView },
    TaskPublished { task: TaskSpecView },
    TaskOffered { offer: TaskOfferView },
    TaskAccepted { acceptance: TaskAcceptanceView },
    TaskCancelled { cancellation: TaskCancellationView },
    TaskCompleted { result: TaskResultView },
    TaskExecutionAttested { attestation: ExecutionAttestationView },
    TaskDisputed { dispute: TaskDisputeView },
    SettlementRecorded { settlement: SettlementRecordView },
}

/// The mathematical form of an event.
pub open spec fn event_view(e: SocialEvent) -> SocialEventView
    decreases e,
{
    SocialEventView {
        id: e.id.deep_view(),
        author: e.author.deep_view(),
        seq: e.seq,
        prev: e.prev.deep_view(),
        timestamp: e.timestamp,
        kind: kind_view(e.kind),
        signature: e.signature.deep_view(),
    }
}

/// The mathematical form of evidence of equivocation.
pub open spec fn proof_view(p: EquivocationProof) -> EquivocationProofView
    decreases p,
{
    EquivocationProofView {
        author: p.author.deep_view(),
        seq: p.seq,
        event_a: Box::new(event_view(*p.event_a)),
        event_b: Box::new(event_view(*p.event_b)),
    }
}

/// The mathematical form of an event kind.
pub open spec fn kind_view(k: SocialEventKind) -> SocialEventKindView
    decreases k,
{
    match k {
        SocialEventKind::EquivocationObserved { evidence } =>
            SocialEventKindView::EquivocationObserved { evidence: Box::new(proof_view(*evidence)) },
        SocialEventKind::ManifestPublished { manifest } => SocialEventKindView::ManifestPublished {
            manifest: manifest.deep_view(),
        },
        SocialEventKind::IdentityRevoked { revocation } => SocialEventKindView::IdentityRevoked {
            revocation: revocation.deep_view(),
        },
        SocialEventKind::IdentityRotated { rotation } => SocialEventKindView::IdentityRotated {
            rotation: rotation.deep_view(),
        },
        SocialEventKind::IdentityRecoveryPolicy { policy } => SocialEventKindView::IdentityRecoveryPolicy {
            policy: policy.deep_view(),
        },
        SocialEventKind::IdentityRecoveryApproved { approval } => SocialEventKindView::IdentityRecoveryApproved {
            approval: approval.deep_view(),
        },
        SocialEventKind::WorkspaceJoined { workspace } => SocialEventKindView::WorkspaceJoined {
            workspace: workspace.deep_view(),
        },
        SocialEventKind::WorkspaceOwnershipClaimed { claim } => SocialEventKindView::WorkspaceOwnershipClaimed {
            claim: claim.deep_view(),
        },
        SocialEventKind::WorkspaceOwnershipTransferred { claim } => SocialEventKindView::WorkspaceOwnershipTransferred {
            claim: claim.deep_view(),
        },
        SocialEventKind::RelationDeclared { peer, relation, note } => SocialEventKindView::RelationDeclared {
            peer: peer.deep_view(),
            relation: relation.deep_view(),
            note: note.deep_view(),
        },
        SocialEventKind::InteractionRecorded { interaction } => SocialEventKindView::InteractionRecorded {
            interaction: interaction.deep_view(),
        },
        SocialEventKind::CollectiveDeclared { collective_id, name, purpose, members } => SocialEventKindView::CollectiveDeclared {
            collective_id: collective_id.deep_view(),
            name: name.deep_view(),
            purpose: purpose.deep_view(),
            members: members.deep_view(),
        },
        SocialEventKind::CollectiveJoined { collective_id } => SocialEventKindView::CollectiveJoined {
            collective_id: collective_id.deep_view(),
        },
        SocialEventKind::CollectiveWorkspaceAttached { collective_id, workspace } => SocialEventKindView::CollectiveWorkspaceAttached {
            collective_id: collective_id.deep_view(),
            workspace: workspace.deep_view(),
        },
        SocialEventKind::CollectiveProposalPublished { proposal } => SocialEventKindView::CollectiveProposalPublished {
            proposal: proposal.deep_view(),
        },
        SocialEventKind::CollectiveVoteCast { vote } => SocialEventKindView::CollectiveVoteCast {
            vote: vote.deep_view(),
        },
        SocialEventKind::CollectiveDecisionRecorded { decision } => SocialEventKindView::CollectiveDecisionRecorded {
            decision: decision.deep_view(),
        },
        SocialEventKind::CapabilityIssued { grant } => SocialEventKindView::CapabilityIssued {
            grant: grant.deep_view(),
        },
        SocialEventKind::CapabilityRevoked { revocation } => SocialEventKindView::CapabilityRevoked {
            revocation: revocation.deep_view(),
        },
        SocialEventKind::WorkspaceSnapshotted { snapshot } => SocialEventKindView::WorkspaceSnapshotted {
            snapshot: snapshot.deep_view(),
        },
        SocialEventKind::WorkspaceRunRecorded { run } => SocialEventKindView::WorkspaceRunRecorded {
            run: run.deep_view(),
        },
        SocialEventKind::IntentPublished { intent } => SocialEventKindView::IntentPublished {
            intent: intent.deep_view(),
        },
        SocialEventKind::IntentResponded { response } => SocialEventKindView::IntentResponded {
            response: response.deep_view(),
        },
        SocialEventKind::TaskPublished { task } => SocialEventKindView::TaskPublished {
            task: task.deep_view(),
        },
        SocialEventKind::TaskOffered { offer } => SocialEventKindView::TaskOffered {
            offer: offer.deep_view(),
        },
        SocialEventKind::TaskAccepted { acceptance } => SocialEventKindView::TaskAccepted {
            acceptance: acceptance.deep_view(),
        },
        SocialEventKind::TaskCancelled { cancellation } => SocialEventKindView::TaskCancelled {
            cancellation: cancellation.deep_view(),
        },
        SocialEventKind::TaskCompleted { result } => SocialEventKindView::TaskCompleted {
            result: result.deep_view(),
        },
        SocialEventKind::TaskExecutionAttested { attestation } => SocialEventKindView::TaskExecutionAttested {
            attestation: attestation.deep_view(),
        },
        SocialEventKind::TaskDisputed { dispute } => SocialEventKindView::TaskDisputed {
            dispute: dispute.deep_view(),
        },
        SocialEventKind::SettlementRecorded { settlement } => SocialEventKindView::SettlementRecorded {
            settlement: settlement.deep_view(),
        },
    }
}

impl DeepView for SocialEvent {
    type V = SocialEventView;

    open spec fn deep_view(&self) -> SocialEventView {
        event_view(*self)
    }
}

impl Twin for SocialEvent {
    fn twin(&self) -> (r: Self) {
        event_twin(self)
    }
}

impl Clone for SocialEvent {
    fn clone(&self) -> (r: Self)
        ensures
            r.deep_view() == self.deep_view(),
    {
        self.twin()
    }
}

impl Encode for SocialEvent {
    open spec fn wire(v: SocialEventView) -> WireView {
        event_wire(v)
    }

    fn to_wire(&self) -> (r: Wire) {
        event_to_wire(self)
    }
}

impl DeepView for EquivocationProof {
    type V = EquivocationProofView;

    open spec fn deep_view(&self) -> EquivocationProofView {
        proof_view(*self)
    }
}

impl Twin for EquivocationProof {
    fn twin(&self) -> (r: Self) {
        proof_twin(self)
    }
}

impl Clone for EquivocationProof {
    fn clone(&self) -> (r: Self)
        ensures
            r.deep_view() == self.deep_view(),
    {
        self.twin()
    }
}

impl Encode for EquivocationProof {
    open spec fn wire(v: EquivocationProofView) -> WireView {
        proof_wire(v)
    }

    fn to_wire(&self) -> (r: Wire) {
        proof_to_wire(self)
    }
}

impl DeepView for SocialEventKind {
    type V = SocialEventKindView;

    open spec fn deep_view(&self) -> SocialEventKindView {
        kind_view(*self)
    }
}

impl Twin for SocialEventKind {
    fn twin(&self) -> (r: Self) {
        kind_twin(self)
    }
}

impl Clone for SocialEventKind {
    fn clone(&self) -> (r: Self)
        ensures
            r.deep_view() == self.deep_view(),
    {
        self.twin()
    }
}

impl Encode for SocialEventKind {
    open spec fn wire(v: SocialEventKindView) -> WireView {
        kind_wire(v)
    }

    fn to_wire(&self) -> (r: Wire) {
        kind_to_wire(self)
    }
}

fn event_twin(e: &SocialEvent) -> (r: SocialEvent)
    ensures
        r.deep_view() == e.deep_view(),
    decreases e,
{
    SocialEvent {
        id: e.id.twin(),
        author: e.author.twin(),
        seq: e.seq,
        prev: e.prev.twin(),
        timestamp: e.timestamp,
        kind: kind_twin(&e.kind),
        signature: e.signature.twin(),
    }
}

fn proof_twin(p: &EquivocationProof) -> (r: EquivocationProof)
    ensures
        r.deep_view() == p.deep_view(),
    decreases p,
{
    EquivocationProof {
        author: p.author.twin(),
        seq: p.seq,
        event_a: Box::new(event_twin(&*p.event_a)),
        event_b: Box::new(event_twin(&*p.event_b)),
    }
}

fn kind_twin(k: &SocialEventKind) -> (r: SocialEventKind)
    ensures
        r.deep_view() == k.deep_view(),
    decreases k,
{
    match k {
        SocialEventKind::EquivocationObserved { evidence } => SocialEventKind::EquivocationObserved {
            evidence: Box::new(proof_twin(&**evidence)),
        },
        SocialEventKind::ManifestPublished { manifest } => SocialEventKind::ManifestPublished {
            manifest: manifest.twin(),
        },
        SocialEventKind::IdentityRevoked { revocation } => SocialEventKind::IdentityRevoked {
            revocation: revocation.twin(),
        },
        SocialEventKind::IdentityRotated { rotation } => SocialEventKind::IdentityRotated {
            rotation: rotation.twin(),
        },
        SocialEventKind::IdentityRecoveryPolicy { policy } => SocialEventKind::IdentityRecoveryPolicy {
            policy: policy.twin(),
        },
        SocialEventKind::IdentityRecoveryApproved { approval } => SocialEventKind::IdentityRecoveryApproved {
            approval: approval.twin(),
        },
        SocialEventKind::WorkspaceJoined { workspace } => SocialEventKind::WorkspaceJoined {
            workspace: workspace.twin(),
        },
        SocialEventKind::WorkspaceOwnershipClaimed { claim } => SocialEventKind::WorkspaceOwnershipClaimed {
            claim: claim.twin(),
        },
        SocialEventKind::WorkspaceOwnershipTransferred { claim } => SocialEventKind::WorkspaceOwnershipTransferred {
            claim: claim.twin(),
        },
        SocialEventKind::RelationDeclared { peer, relation, note } => SocialEventKind::RelationDeclared {
            peer: peer.twin(),
            relation: relation.twin(),
            note: note.twin(),
        },
        SocialEventKind::InteractionRecorded { interaction } => SocialEventKind::InteractionRecorded {
            interaction: interaction.twin(),
        },
        SocialEventKind::CollectiveDeclared { collective_id, name, purpose, members } => SocialEventKind::CollectiveDeclared {
            collective_id: collective_id.twin(),
            name: name.twin(),
            purpose: purpose.twin(),
            members: members.twin(),
        },
        SocialEventKind::CollectiveJoined { collective_id } => SocialEventKind::CollectiveJoined {
            collective_id: collective_id.twin(),
        },
        SocialEventKind::CollectiveWorkspaceAttached { collective_id, workspace } => SocialEventKind::CollectiveWorkspaceAttached {
            collective_id: collective_id.twin(),
            workspace: workspace.twin(),
        },
        SocialEventKind::CollectiveProposalPublished { proposal } => SocialEventKind::CollectiveProposalPublished {
            proposal: proposal.twin(),
        },
        SocialEventKind::CollectiveVoteCast { vote } => SocialEventKind::CollectiveVoteCast {
            vote: vote.twin(),
        },
        SocialEventKind::CollectiveDecisionRecorded { decision } => SocialEventKind::CollectiveDecisionRecorded {
            decision: decision.twin(),
        },
        SocialEventKind::CapabilityIssued { grant } => SocialEventKind::CapabilityIssued {
            grant: grant.twin(),
        },
        SocialEventKind::CapabilityRevoked { revocation } => SocialEventKind::CapabilityRevoked {
            revocation: revocation.twin(),
        },
        SocialEventKind::WorkspaceSnapshotted { snapshot } => SocialEventKind::WorkspaceSnapshotted {
            snapshot: snapshot.twin(),
        },
        SocialEventKind::WorkspaceRunRecorded { run } => SocialEventKind::WorkspaceRunRecorded {
            run: run.twin(),
        },
        SocialEventKind::IntentPublished { intent } => SocialEventKind::IntentPublished {
            intent: intent.twin(),
        },
        SocialEventKind::IntentResponded { response } => SocialEventKind::IntentResponded {
            response: response.twin(),
        },
        SocialEventKind::TaskPublished { task } => SocialEventKind::TaskPublished {
            task: task.twin(),
        },
        SocialEventKind::TaskOffered { offer } => SocialEventKind::TaskOffered {
            offer: offer.twin(),
        },
        SocialEventKind::TaskAccepted { acceptance } => SocialEventKind::TaskAccepted {
            acceptance: acceptance.twin(),
        },
        SocialEventKind::TaskCancelled { cancellation } => SocialEventKind::TaskCancelled {
            cancellation: cancellation.twin(),
        },
        SocialEventKind::TaskCompleted { result } => SocialEventKind::TaskCompleted {
            result: result.twin(),
        },
        SocialEventKind::TaskExecutionAttested { attestation } => SocialEventKind::TaskExecutionAttested {
            attestation: attestation.twin(),
        },
        SocialEventKind::TaskDisputed { dispute } => SocialEventKind::TaskDisputed {
            dispute: dispute.twin(),
        },
        SocialEventKind::SettlementRecorded { settlement } => SocialEventKind::SettlementRecorded {
            settlement: settlement.twin(),
        },
    }
}

/// The document of an event.
pub open spec fn event_wire(v: SocialEventView) -> WireView
    decreases v,
{
    WireView::Record(
        Seq::<(Seq<char>, WireView)>::empty()
            .push(("id"@, String::wire(v.id)))
            .push(("author"@, Did::wire(v.author)))
            .push(("seq"@, u64::wire(v.seq)))
            .push(("prev"@, <Option<String> as Encode>::wire(v.prev)))
            .push(("timestamp"@, u64::wire(v.timestamp)))
            .push(("kind"@, kind_wire(v.kind)))
            .push(("signature"@, <Option<Vec<u8>> as Encode>::wire(v.signature))),
    )
}

/// The document of evidence of equivocation.
pub open spec fn proof_wire(v: EquivocationProofView) -> WireView
    decreases v,
{
    WireView::Record(
        Seq::<(Seq<char>, WireView)>::empty()
            .push(("author"@, Did::wire(v.author)))
            .push(("seq"@, u64::wire(v.seq)))
            .push(("event_a"@, event_wire(*v.event_a)))
            .push(("event_b"@, event_wire(*v.event_b))),
    )
}

/// A document with its type beside it.
pub open spec fn tagged(kind: Seq<char>, payload: WireView) -> WireView {
    WireView::Record(
        Seq::<(Seq<char>, WireView)>::empty().push(("type"@, WireView::Text(kind))).push(
            ("payload"@, payload),
        ),
    )
}

fn to_tagged(kind: &str, payload: Wire) -> (r: Wire)
    ensures
        r.deep_view() == tagged(kind@, payload.deep_view()),
{
    Fields::new().with("type", text_wire(kind)).with("payload", payload).done()
}

/// The document of an event kind.
pub open spec fn kind_wire(v: SocialEventKindView) -> WireView
    decreases v,
{
    match v {
        SocialEventKindView::EquivocationObserved { evidence } => tagged(
            "EquivocationObserved"@,
            WireView::Record(
                Seq::<(Seq<char>, WireView)>::empty().push(("proof"@, proof_wire(*evidence))),
            ),
        ),
        SocialEventKindView::ManifestPublished { manifest } => tagged(
            "ManifestPublished"@,
            WireView::Record(Seq::<(Seq<char>, WireView)>::empty().push(("manifest"@, AgentManifest::wire(manifest)))),
        ),
        SocialEventKindView::IdentityRevoked { revocation } => tagged(
            "IdentityRevoked"@,
            WireView::Record(Seq::<(Seq<char>, WireView)>::empty().push(("revocation"@, IdentityRevocation::wire(revocation)))),
        ),
        SocialEventKindView::IdentityRotated { rotation } => tagged(
            "IdentityRotated"@,
            WireView::Record(Seq::<(Seq<char>, WireView)>::empty().push(("rotation"@, IdentityRotation::wire(rotation)))),
        ),
        SocialEventKindView::IdentityRecoveryPolicy { policy } => tagged(
            "IdentityRecoveryPolicy"@,
            WireView::Record(Seq::<(Seq<char>, WireView)>::empty().push(("policy"@, IdentityRecoveryPolicy::wire(policy)))),
        ),
        SocialEventKindView::IdentityRecoveryApproved { approval } => tagged(
            "IdentityRecoveryApproved"@,
            WireView::Record(Seq::<(Seq<char>, WireView)>::empty().push(("approval"@, IdentityRecoveryApproval::wire(approval)))),
        ),
        SocialEventKindView::WorkspaceJoined { workspace } => tagged(
            "WorkspaceJoined"@,
            WireView::Record(Seq::<(Seq<char>, WireView)>::empty().push(("workspace"@, WorkspaceId::wire(workspace)))),
        ),
        SocialEventKindView::WorkspaceOwnershipClaimed { claim } => tagged(
            "WorkspaceOwnershipClaimed"@,
            WireView::Record(Seq::<(Seq<char>, WireView)>::empty().push(("claim"@, WorkspaceOwnershipClaim::wire(claim)))),
        ),
        SocialEventKindView::WorkspaceOwnershipTransferred { claim } => tagged(
            "WorkspaceOwnershipTransferred"@,
            WireView::Record(Seq::<(Seq<char>, WireView)>::empty().push(("claim"@, WorkspaceOwnershipClaim::wire(claim)))),
        ),
        SocialEventKindView::RelationDeclared { peer, relation, note } => tagged(
            "RelationDeclared"@,
            WireView::Record(Seq::<(Seq<char>, WireView)>::empty().push(("peer"@, Did::wire(peer))).push(("relation"@, RelationKind::wire(relation))).push(("note"@, <Option<String> as Encode>::wire(note)))),
        ),
        SocialEventKindView::InteractionRecorded { interaction } => tagged(
            "InteractionRecorded"@,
            WireView::Record(Seq::<(Seq<char>, WireView)>::empty().push(("interaction"@, Interaction::wire(interaction)))),
        ),
        SocialEventKindView::CollectiveDeclared { collective_id, name, purpose, members } => tagged(
            "CollectiveDeclared"@,
            WireView::Record(Seq::<(Seq<char>, WireView)>::empty().push(("collective_id"@, String::wire(collective_id))).push(("name"@, String::wire(name))).push(("purpose"@, String::wire(purpose))).push(("members"@, <Vec<Did> as Encode>::wire(members)))),
        ),
        SocialEventKindView::CollectiveJoined { collective_id } => tagged(
            "CollectiveJoined"@,
            WireView::Record(Seq::<(Seq<char>, WireView)>::empty().push(("collective_id"@, String::wire(collective_id)))),
        ),
        SocialEventKindView::CollectiveWorkspaceAttached { collective_id, workspace } => tagged(
            "CollectiveWorkspaceAttached"@,
            WireView::Record(Seq::<(Seq<char>, WireView)>::empty().push(("collective_id"@, String::wire(collective_id))).push(("workspace"@, WorkspaceId::wire(workspace)))),
        ),
        SocialEventKindView::CollectiveProposalPublished { proposal } => tagged(
            "CollectiveProposalPublished"@,
            WireView::Record(Seq::<(Seq<char>, WireView)>::empty().push(("proposal"@, CollectiveProposal::wire(proposal)))),
        ),
        SocialEventKindView::CollectiveVoteCast { vote } => tagged(
            "CollectiveVoteCast"@,
            WireView::Record(Seq::<(Seq<char>, WireView)>::empty().push(("vote"@, CollectiveVote::wire(vote)))),
        ),
        SocialEventKindView::CollectiveDecisionRecorded { decision } => tagged(
            "CollectiveDecisionRecorded"@,
            WireView::Record(Seq::<(Seq<char>, WireView)>::empty().push(("decision"@, CollectiveDecision::wire(decision)))),
        ),
        SocialEventKindView::CapabilityIssued { grant } => tagged(
            "CapabilityIssued"@,
            WireView::Record(Seq::<(Seq<char>, WireView)>::empty().push(("grant"@, CapabilityGrant::wire(grant)))),
        ),
        SocialEventKindView::CapabilityRevoked { revocation } => tagged(
            "CapabilityRevoked"@,
            WireView::Record(Seq::<(Seq<char>, WireView)>::empty().push(("revocation"@, CapabilityRevocation::wire(revocation)))),
        ),
        SocialEventKindView::WorkspaceSnapshotted { snapshot } => tagged(
            "WorkspaceSnapshotted"@,
            WireView::Record(Seq::<(Seq<char>, WireView)>::empty().push(("snapshot"@, WorkspaceSnapshot::wire(snapshot)))),
        ),
        SocialEventKindView::WorkspaceRunRecorded { run } => tagged(
            "WorkspaceRunRecorded"@,
            WireView::Record(Seq::<(Seq<char>, WireView)>::empty().push(("run"@, <Box<WorkspaceRun> as Encode>::wire(run)))),
        ),
        SocialEventKindView::IntentPublished { intent } => tagged(
            "IntentPublished"@,
            WireView::Record(Seq::<(Seq<char>, WireView)>::empty().push(("intent"@, AgentIntent::wire(intent)))),
        ),
        SocialEventKindView::IntentResponded { response } => tagged(
            "IntentResponded"@,
            WireView::Record(Seq::<(Seq<char>, WireView)>::empty().push(("response"@, IntentResponse::wire(response)))),
        ),
        SocialEventKindView::TaskPublished { task } => tagged(
            "TaskPublished"@,
            WireView::Record(Seq::<(Seq<char>, WireView)>::empty().push(("task"@, TaskSpec::wire(task)))),
        ),
        SocialEventKindView::TaskOffered { offer } => tagged(
            "TaskOffered"@,
            WireView::Record(Seq::<(Seq<char>, WireView)>::empty().push(("offer"@, TaskOffer::wire(offer)))),
        ),
        SocialEventKindView::TaskAccepted { acceptance } => tagged(
            "TaskAccepted"@,
            WireView::Record(Seq::<(Seq<char>, WireView)>::empty().push(("acceptance"@, TaskAcceptance::wire(acceptance)))),
        ),
        SocialEventKindView::TaskCancelled { cancellation } => tagged(
            "TaskCancelled"@,
            WireView::Record(Seq::<(Seq<char>, WireView)>::empty().push(("cancellation"@, TaskCancellation::wire(cancellation)))),
        ),
        SocialEventKindView::TaskCompleted { result } => tagged(
            "TaskCompleted"@,
            WireView::Record(Seq::<(Seq<char>, WireView)>::empty().push(("result"@, TaskResult::wire(result)))),
        ),
        SocialEventKindView::TaskExecutionAttested { attestation } => tagged(
            "TaskExecutionAttested"@,
            WireView::Record(Seq::<(Seq<char>, WireView)>::empty().push(("attestation"@, ExecutionAttestation::wire(attestation)))),
        ),
        SocialEventKindView::TaskDisputed { dispute } => tagged(
            "TaskDisputed"@,
            WireView::Record(Seq::<(Seq<char>, WireView)>::empty().push(("dispute"@, TaskDispute::wire(dispute)))),
        ),
        SocialEventKindView::SettlementRecorded { settlement } => tagged(
            "SettlementRecorded"@,
            WireView::Record(Seq::<(Seq<char>, WireView)>::empty().push(("settlement"@, SettlementRecord::wire(settlement)))),
        ),
    }
}

fn event_to_wire(e: &SocialEvent) -> (r: Wire)
    ensures
        r.deep_view() == event_wire(e.deep_view()),
    decreases e,
{
    let kind = kind_to_wire(&e.kind);
    Fields::new()
        .with("id", e.id.to_wire())
        .with("author", e.author.to_wire())
        .with("seq", e.seq.to_wire())
        .with("prev", e.prev.to_wire())
        .with("timestamp", e.timestamp.to_wire())
        .with("kind", kind)
        .with("signature", e.signature.to_wire())
        .done()
}

fn proof_to_wire(p: &EquivocationProof) -> (r: Wire)
    ensures
        r.deep_view() == proof_wire(p.deep_view()),
    decreases p,
{
    let a = event_to_wire(&*p.event_a);
    let b = event_to_wire(&*p.event_b);
    Fields::new()
        .with("author", p.author.to_wire())
        .with("seq", p.seq.to_wire())
        .with("event_a", a)
        .with("event_b", b)
        .done()
}

fn kind_to_wire(k: &SocialEventKind) -> (r: Wire)
    ensures
        r.deep_view() == kind_wire(k.deep_view()),
    decreases k,
{
    match k {
        SocialEventKind::EquivocationObserved { evidence } => {
            let inner = proof_to_wire(&**evidence);
            to_tagged("EquivocationObserved", Fields::new().with("proof", inner).done())
        },
        SocialEventKind::ManifestPublished { manifest } => to_tagged(
            "ManifestPublished",
            Fields::new().with("manifest", manifest.to_wire()).done(),
        ),
        SocialEventKind::IdentityRevoked { revocation } => to_tagged(
            "IdentityRevoked",
            Fields::new().with("revocation", revocation.to_wire()).done(),
        ),
        SocialEventKind::IdentityRotated { rotation } => to_tagged(
            "IdentityRotated",
            Fields::new().with("rotation", rotation.to_wire()).done(),
        ),
        SocialEventKind::IdentityRecoveryPolicy { policy } => to_tagged(
            "IdentityRecoveryPolicy",
            Fields::new().with("policy", policy.to_wire()).done(),
        ),
        SocialEventKind::IdentityRecoveryApproved { approval } => to_tagged(
            "IdentityRecoveryApproved",
            Fields::new().with("approval", approval.to_wire()).done(),
        ),
        SocialEventKind::WorkspaceJoined { workspace } => to_tagged(
            "WorkspaceJoined",
            Fields::new().with("workspace", workspace.to_wire()).done(),
        ),
        SocialEventKind::WorkspaceOwnershipClaimed { claim } => to_tagged(
            "WorkspaceOwnershipClaimed",
            Fields::new().with("claim", claim.to_wire()).done(),
        ),
        SocialEventKind::WorkspaceOwnershipTransferred { claim } => to_tagged(
            "WorkspaceOwnershipTransferred",
            Fields::new().with("claim", claim.to_wire()).done(),
        ),
        SocialEventKind::RelationDeclared { peer, relation, note } => to_tagged(
            "RelationDeclared",
            Fields::new().with("peer", peer.to_wire()).with("relation", relation.to_wire()).with("note", note.to_wire()).done(),
        ),
        SocialEventKind::InteractionRecorded { interaction } => to_tagged(
            "InteractionRecorded",
            Fields::new().with("interaction", interaction.to_wire()).done(),
        ),
        SocialEventKind::CollectiveDeclared { collective_id, name, purpose, members } => to_tagged(
            "CollectiveDeclared",
            Fields::new().with("collective_id", collective_id.to_wire()).with("name", name.to_wire()).with("purpose", purpose.to_wire()).with("members", members.to_wire()).done(),
        ),
        SocialEventKind::CollectiveJoined { collective_id } => to_tagged(
            "CollectiveJoined",
            Fields::new().with("collective_id", collective_id.to_wire()).done(),
        ),
        SocialEventKind::CollectiveWorkspaceAttached { collective_id, workspace } => to_tagged(
            "CollectiveWorkspaceAttached",
            Fields::new().with("collective_id", collective_id.to_wire()).with("workspace", workspace.to_wire()).done(),
        ),
        SocialEventKind::CollectiveProposalPublished { proposal } => to_tagged(
            "CollectiveProposalPublished",
            Fields::new().with("proposal", proposal.to_wire()).done(),
        ),
        SocialEventKind::CollectiveVoteCast { vote } => to_tagged(
            "CollectiveVoteCast",
            Fields::new().with("vote", vote.to_wire()).done(),
        ),
        SocialEventKind::CollectiveDecisionRecorded { decision } => to_tagged(
            "CollectiveDecisionRecorded",
            Fields::new().with("decision", decision.to_wire()).done(),
        ),
        SocialEventKind::CapabilityIssued { grant } => to_tagged(
            "CapabilityIssued",
            Fields::new().with("grant", grant.to_wire()).done(),
        ),
        SocialEventKind::CapabilityRevoked { revocation } => to_tagged(
            "CapabilityRevoked",
            Fields::new().with("revocation", revocation.to_wire()).done(),
        ),
        SocialEventKind::WorkspaceSnapshotted { snapshot } => to_tagged(
            "WorkspaceSnapshotted",
            Fields::new().with("snapshot", snapshot.to_wire()).done(),
        ),
        SocialEventKind::WorkspaceRunRecorded { run } => to_tagged(
            "WorkspaceRunRecorded",
            Fields::new().with("run", run.to_wire()).done(),
        ),
        SocialEventKind::IntentPublished { intent } => to_tagged(
            "IntentPublished",
            Fields::new().with("intent", intent.to_wire()).done(),
        ),
        SocialEventKind::IntentResponded { response } => to_tagged(
            "IntentResponded",
            Fields::new().with("response", response.to_wire()).done(),
        ),
        SocialEventKind::TaskPublished { task } => to_tagged(
            "TaskPublished",
            Fields::new().with("task", task.to_wire()).done(),
        ),
        SocialEventKind::TaskOffered { offer } => to_tagged(
            "TaskOffered",
            Fields::new().with("offer", offer.to_wire()).done(),
        ),
        SocialEventKind::TaskAccepted { acceptance } => to_tagged(
            "TaskAccepted",
            Fields::new().with("acceptance", acceptance.to_wire()).done(),
        ),
        SocialEventKind::TaskCancelled { cancellation } => to_tagged(
            "TaskCancelled",
            Fields::new().with("cancellation", cancellation.to_wire()).done(),
        ),
        SocialEventKind::TaskCompleted { result } => to_tagged(
            "TaskCompleted",
            Fields::new().with("result", result.to_wire()).done(),
        ),
        SocialEventKind::TaskExecutionAttested { attestation } => to_tagged(
            "TaskExecutionAttested",
            Fields::new().with("attestation", attestation.to_wire()).done(),
        ),
        SocialEventKind::TaskDisputed { dispute } => to_tagged(
            "TaskDisputed",
            Fields::new().with("dispute", dispute.to_wire()).done(),
        ),
        SocialEventKind::SettlementRecorded { settlement } => to_tagged(
            "SettlementRecorded",
            Fields::new().with("settlement", settlement.to_wire()).done(),
        ),
    }
}

/// The content of an event as it is signed: everything but identifier and
/// signature.
pub open spec fn content(
    author: Seq<char>,
    seq: u64,
    prev: Option<Seq<char>>,
    timestamp: u64,
    kind: SocialEventKindView,
) -> Seq<u8> {
    wire::json(
        WireView::Record(
            Seq::<(Seq<char>, WireView)>::empty()
                .push(("author"@, Did::wire(author)))
                .push(("seq"@, u64::wire(seq)))
                .push(("prev"@, <Option<String> as Encode>::wire(prev)))
                .push(("timestamp"@, u64::wire(timestamp)))
                .push(("kind"@, kind_wire(kind))),
        ),
    )
}

/// The content of an event.
pub open spec fn event_content(v: SocialEventView) -> Seq<u8> {
    content(v.author, v.seq, v.prev, v.timestamp, v.kind)
}

/// The identifier that content gives an event.
pub open spec fn content_hash(bytes: Seq<u8>) -> Seq<char> {
    outside::hex_text(outside::sha256_of(bytes))
}

/// A signature check as an error of the protocol.
pub open spec fn signature_verdict(r: Result<(), IdentitySignatureErrorView>) -> Result<
    (),
    SocialProtocolErrorView,
> {
    match r {
        Ok(_) => Ok(()),
        Err(IdentitySignatureErrorView::InvalidDid(e)) => Err(
            SocialProtocolErrorView::InvalidAuthorDid(e),
        ),
        Err(IdentitySignatureErrorView::InvalidVerifyingKey) => Err(
            SocialProtocolErrorView::InvalidVerifyingKey,
        ),
        Err(IdentitySignatureErrorView::InvalidSignatureBytes) => Err(
            SocialProtocolErrorView::InvalidSignatureBytes,
        ),
        Err(IdentitySignatureErrorView::VerificationFailed) => Err(
            SocialProtocolErrorView::SignatureVerificationFailed,
        ),
    }
}

/// Whether the identifier is the hash of the content.
pub open spec fn identified(v: SocialEventView) -> Result<(), SocialProtocolErrorView> {
    let expected = content_hash(event_content(v));
    if v.id == expected {
        Ok(())
    } else {
        Err(SocialProtocolErrorView::EventIdMismatch { actual: v.id, expected })
    }
}

/// Whether the author signed the content under its identifier.
pub open spec fn event_signed(v: SocialEventView) -> Result<(), SocialProtocolErrorView> {
    both(
        identified(v),
        match v.signature {
            None => Err(SocialProtocolErrorView::MissingSignature),
            Some(s) => signature_verdict(identity::did_accepts(v.author, event_content(v), s)),
        },
    )
}

/// Whether an event speaks for its author.
pub open spec fn speaks_for(event: Seq<char>, author: Seq<char>, subject: Seq<char>) -> Result<
    (),
    SocialProtocolErrorView,
> {
    if subject == author {
        Ok(())
    } else {
        Err(SocialProtocolErrorView::AuthorSubjectMismatch { event, author, subject })
    }
}

/// Whether an event speaks for its author about each of several subjects.
pub open spec fn speaks_for_all(
    event: Seq<char>,
    author: Seq<char>,
    subjects: Seq<Seq<char>>,
) -> Result<(), SocialProtocolErrorView>
    decreases subjects.len(),
{
    if subjects.len() == 0 {
        Ok(())
    } else {
        both(
            speaks_for_all(event, author, subjects.drop_last()),
            speaks_for(event, author, subjects.last()),
        )
    }
}

/// The check of a receipt as an error of the protocol.
pub open spec fn receipt_verdict(r: Result<(), ExecutionReceiptErrorView>) -> Result<
    (),
    SocialProtocolErrorView,
> {
    match r {
        Ok(_) => Ok(()),
        Err(e) => Err(SocialProtocolErrorView::InvalidExecutionReceipt(e)),
    }
}

/// The check of a capability as an error of the protocol.
pub open spec fn grant_verdict(r: Result<(), SigningErrorView>) -> Result<
    (),
    SocialProtocolErrorView,
> {
    match r {
        Ok(_) => Ok(()),
        Err(e) => Err(SocialProtocolErrorView::InvalidCapabilityGrant(e)),
    }
}

/// The check of a settlement as an error of the protocol.
pub open spec fn settlement_verdict(r: Result<(), SettlementErrorView>) -> Result<
    (),
    SocialProtocolErrorView,
> {
    match r {
        Ok(_) => Ok(()),
        Err(e) => Err(SocialProtocolErrorView::InvalidSettlementProof(e)),
    }
}

/// Whether what an event claims of its author is the author's to claim.
pub open spec fn claims_own(author: Seq<char>, kind: SocialEventKindView) -> Result<
    (),
    SocialProtocolErrorView,
>
    decreases kind,
{
    match kind {
        SocialEventKindView::EquivocationObserved { evidence } => equivocates(*evidence),
        SocialEventKindView::ManifestPublished { manifest } => speaks_for("manifest"@, author, manifest.did),
        SocialEventKindView::IdentityRevoked { revocation } => speaks_for("identity revocation"@, author, revocation.did),
        SocialEventKindView::IdentityRotated { rotation } => speaks_for("identity rotation"@, author, rotation.previous),
        SocialEventKindView::IdentityRecoveryPolicy { policy } => speaks_for("identity recovery policy"@, author, policy.identity),
        SocialEventKindView::IdentityRecoveryApproved { approval } => speaks_for("identity recovery approval"@, author, approval.guardian),
        SocialEventKindView::WorkspaceOwnershipClaimed { claim } => speaks_for("workspace ownership claim"@, author, claim.owner),
        SocialEventKindView::InteractionRecorded { interaction } => speaks_for("interaction"@, author, interaction.from),
        SocialEventKindView::CollectiveProposalPublished { proposal } => speaks_for("collective proposal"@, author, proposal.proposer),
        SocialEventKindView::CollectiveVoteCast { vote } => speaks_for("collective vote"@, author, vote.voter),
        SocialEventKindView::CollectiveDecisionRecorded { decision } => both(
            speaks_for("collective decision"@, author, decision.decider),
            settlement_verdict(optional_anchor_valid(decision.anchor)),
        ),
        SocialEventKindView::CapabilityIssued { grant } => both(
            speaks_for("capability grant"@, author, grant.capability.issuer),
            grant_verdict(capability::verified(grant.capability, grant.issued_at)),
        ),
        SocialEventKindView::CapabilityRevoked { revocation } => speaks_for("capability revocation"@, author, revocation.issuer),
        SocialEventKindView::WorkspaceSnapshotted { snapshot } => speaks_for("workspace snapshot"@, author, snapshot.actor),
        SocialEventKindView::WorkspaceRunRecorded { run } => speaks_for("workspace run"@, author, run.actor),
        SocialEventKindView::IntentPublished { intent } => speaks_for("intent"@, author, intent.author),
        SocialEventKindView::IntentResponded { response } => speaks_for("intent response"@, author, response.responder),
        SocialEventKindView::TaskPublished { task } => speaks_for("task publication"@, author, task.publisher),
        SocialEventKindView::TaskOffered { offer } => speaks_for("task offer"@, author, offer.bidder),
        SocialEventKindView::TaskAccepted { acceptance } => speaks_for("task acceptance"@, author, acceptance.publisher),
        SocialEventKindView::TaskCancelled { cancellation } => speaks_for("task cancellation"@, author, cancellation.publisher),
        SocialEventKindView::TaskCompleted { result } => both(
            speaks_for("task result"@, author, result.executor),
            receipt_verdict(receipt_proves(result)),
        ),
        SocialEventKindView::TaskExecutionAttested { attestation } => both(
            speaks_for("task execution attestation"@, author, attestation.attestor),
            receipt_verdict(attestation_signed(attestation)),
        ),
        SocialEventKindView::TaskDisputed { dispute } => speaks_for("task dispute"@, author, dispute.disputer),
        SocialEventKindView::SettlementRecorded { settlement } => both(
            speaks_for("settlement"@, author, settlement.payer),
            settlement_verdict(settlement_valid(settlement)),
        ),
        SocialEventKindView::WorkspaceOwnershipTransferred { claim } => match claim.previous_owner {
            Some(previous) => speaks_for("workspace ownership transfer"@, author, previous),
            None => Ok(()),
        },
        SocialEventKindView::CollectiveDeclared { members, .. } => speaks_for_all(
            "collective membership"@,
            author,
            members,
        ),
        _ => Ok(()),
    }
}

/// Whether an event is valid: signed by its author, and claiming only what is
/// the author's to claim.
pub open spec fn event_valid(v: SocialEventView) -> Result<(), SocialProtocolErrorView>
    decreases v,
{
    both(event_signed(v), claims_own(v.author, v.kind))
}

/// Whether evidence shows two valid, different events by one author for one
/// position.
pub open spec fn equivocates(v: EquivocationProofView) -> Result<(), SocialProtocolErrorView>
    decreases v,
{
    let a = *v.event_a;
    let b = *v.event_b;
    both(
        event_valid(a),
        both(
            event_valid(b),
            if a.author != b.author {
                Err(
                    SocialProtocolErrorView::EquivocationAuthorMismatch {
                        left: a.author,
                        right: b.author,
                    },
                )
            } else if a.seq != b.seq {
                Err(
                    SocialProtocolErrorView::EquivocationSeqMismatch {
                        left_seq: a.seq,
                        right_seq: b.seq,
                    },
                )
            } else if a.id == b.id {
                Err(SocialProtocolErrorView::EquivocationEventsIdentical { event_id: a.id })
            } else if v.author != a.author || v.seq != a.seq {
                Err(
                    SocialProtocolErrorView::EquivocationAuthorMismatch {
                        left: v.author,
                        right: a.author,
                    },
                )
            } else {
                Ok(())
            },
        ),
    )
}

/// The key of evidence: author, position and the two events in order.
pub open spec fn evidence_key(v: EquivocationProofView) -> Seq<char> {
    let a = v.event_a.id;
    let b = v.event_b.id;
    let parts = if text::text_le(a, b) {
        seq![v.author, text::decimal(v.seq as nat), a, b]
    } else {
        seq![v.author, text::decimal(v.seq as nat), b, a]
    };
    text::joined(parts, "|"@)
}

/// The evidence of two events.
pub open spec fn evidence_of(a: SocialEventView, b: SocialEventView) -> EquivocationProofView {
    EquivocationProofView {
        author: a.author,
        seq: a.seq,
        event_a: Box::new(a),
        event_b: Box::new(b),
    }
}

/// Texts before a separator and after it are told apart by what follows the last
/// one.
#[verifier::spinoff_prover]
#[verifier::rlimit(40)]
pub proof fn lemma_last_part(a: Seq<char>, x: Seq<char>, b: Seq<char>, y: Seq<char>, bar: char)
    requires
        a.push(bar) + x == b.push(bar) + y,
        !x.contains(bar),
        !y.contains(bar),
    ensures
        a == b,
        x == y,
{
    let whole = a.push(bar) + x;
    let other = b.push(bar) + y;
    assert(whole[a.len() as int] == bar);
    assert(other[b.len() as int] == bar);
    assert(whole.len() == a.len() + 1 + x.len());
    assert(other.len() == b.len() + 1 + y.len());
    if a.len() < b.len() {
        let k = b.len() - a.len() - 1;
        assert(0 <= k < x.len());
        assert(whole[a.len() + 1 + k] == x[k]);
        assert(x[k] == bar);
    } else if b.len() < a.len() {
        let k = a.len() - b.len() - 1;
        assert(0 <= k < y.len());
        assert(other[b.len() + 1 + k] == y[k]);
        assert(y[k] == bar);
    }
    assert(a =~= whole.subrange(0, a.len() as int));
    assert(b =~= other.subrange(0, b.len() as int));
    assert(x =~= whole.subrange(a.len() as int + 1, whole.len() as int));
    assert(y =~= other.subrange(b.len() as int + 1, other.len() as int));
}

proof fn lemma_key_parts(author: Seq<char>, seq: Seq<char>, x: Seq<char>, y: Seq<char>)
    ensures
        text::joined(seq![author, seq, x, y], "|"@) == (text::joined(
            seq![author, seq],
            "|"@,
        ).push('|') + x).push('|') + y,
{
    reveal_strlit("|");
    let four = seq![author, seq, x, y];
    let three = seq![author, seq, x];
    let two = seq![author, seq];
    assert(four.drop_last() =~= three);
    assert(three.drop_last() =~= two);
    assert(text::joined(three, "|"@) =~= text::joined(two, "|"@).push('|') + x);
    assert(text::joined(four, "|"@) =~= text::joined(three, "|"@).push('|') + y);
}

/// The identifier of a valid event is hexadecimal and has no separator.
proof fn lemma_identifier_is_plain(v: SocialEventView)
    requires
        event_valid(v) is Ok,
    ensures
        !v.id.contains('|'),
{
    let bytes = outside::sha256_of(event_content(v));
    assert(v.id == outside::hex_text(bytes));
    if v.id.contains('|') {
        let i = v.id.index_of('|');
        assert(0 <= bytes[i / 2] as int / 16 < 16);
        assert(0 <= bytes[i / 2] as int % 16 < 16);
    }
}

#[verifier::spinoff_prover]
#[verifier::rlimit(40)]
proof fn lemma_key_names_parts(
    author: Seq<char>,
    s: Seq<char>,
    x: Seq<char>,
    y: Seq<char>,
    other: Seq<char>,
    t: Seq<char>,
    z: Seq<char>,
    w: Seq<char>,
)
    requires
        text::joined(seq![author, s, x, y], "|"@) == text::joined(seq![other, t, z, w], "|"@),
        !x.contains('|'),
        !y.contains('|'),
        !z.contains('|'),
        !w.contains('|'),
        !s.contains('|'),
        !t.contains('|'),
    ensures
        author == other,
        x == z,
        y == w,
{
    lemma_key_parts(author, s, x, y);
    lemma_key_parts(other, t, z, w);
    let a = text::joined(seq![author, s], "|"@);
    let b = text::joined(seq![other, t], "|"@);
    lemma_last_part(a.push('|') + x, y, b.push('|') + z, w, '|');
    lemma_last_part(a, x, b, z, '|');
    lemma_two_parts(author, s);
    lemma_two_parts(other, t);
    lemma_last_part(author, s, other, t, '|');
}

/// Two texts joined by a bar.
pub proof fn lemma_two_parts(author: Seq<char>, s: Seq<char>)
    ensures
        text::joined(seq![author, s], "|"@) == author.push('|') + s,
{
    reveal_strlit("|");
    let two = seq![author, s];
    assert(two.drop_last() =~= seq![author]);
    assert(text::joined(seq![author], "|"@) == author);
    assert(text::joined(two, "|"@) =~= author.push('|') + s);
}

proof fn lemma_decimal_is_plain(n: nat)
    ensures
        !text::decimal(n).contains('|'),
    decreases n,
{
    let d = text::decimal(n);
    if n >= 10 {
        lemma_decimal_is_plain(n / 10);
        let front = text::decimal(n / 10);
        if d.contains('|') {
            let i = d.index_of('|');
            if i < front.len() {
                assert(front[i] == '|');
            }
        }
    } else if d.contains('|') {
        assert(d[0] == d[d.index_of('|')]);
    }
}

proof fn lemma_evidence_is_plain(p: EquivocationProofView)
    requires
        equivocates(p) is Ok,
    ensures
        !p.event_a.id.contains('|'),
        !p.event_b.id.contains('|'),
{
    lemma_identifier_is_plain(*p.event_a);
    lemma_identifier_is_plain(*p.event_b);
}

/// The identifiers of the two events of evidence, in order.
pub open spec fn evidence_pair(p: EquivocationProofView) -> (Seq<char>, Seq<char>) {
    if text::text_le(p.event_a.id, p.event_b.id) {
        (p.event_a.id, p.event_b.id)
    } else {
        (p.event_b.id, p.event_a.id)
    }
}

proof fn lemma_key_of_pair(p: EquivocationProofView)
    ensures
        evidence_key(p) == text::joined(
            seq![
                p.author,
                text::decimal(p.seq as nat),
                evidence_pair(p).0,
                evidence_pair(p).1,
            ],
            "|"@,
        ),
{
}

#[verifier::spinoff_prover]
#[verifier::rlimit(40)]
proof fn lemma_plain_key_names_pair(p: EquivocationProofView, q: EquivocationProofView)
    requires
        !p.event_a.id.contains('|'),
        !p.event_b.id.contains('|'),
        !q.event_a.id.contains('|'),
        !q.event_b.id.contains('|'),
        evidence_key(p) == evidence_key(q),
    ensures
        p.author == q.author,
        evidence_pair(p) == evidence_pair(q),
{
    lemma_decimal_is_plain(p.seq as nat);
    lemma_decimal_is_plain(q.seq as nat);
    lemma_key_of_pair(p);
    lemma_key_of_pair(q);
    lemma_key_names_parts(
        p.author,
        text::decimal(p.seq as nat),
        evidence_pair(p).0,
        evidence_pair(p).1,
        q.author,
        text::decimal(q.seq as nat),
        evidence_pair(q).0,
        evidence_pair(q).1,
    );
}

/// Pieces of evidence that hold and have one key are about the same author and
/// the same two events.
#[verifier::spinoff_prover]
#[verifier::rlimit(40)]
pub proof fn lemma_evidence_key_names_events(p: EquivocationProofView, q: EquivocationProofView)
    requires
        equivocates(p) is Ok,
        equivocates(q) is Ok,
        evidence_key(p) == evidence_key(q),
    ensures
        p.author == q.author,
        p.event_a.id == q.event_a.id && p.event_b.id == q.event_b.id || p.event_a.id
            == q.event_b.id && p.event_b.id == q.event_a.id,
{
    lemma_evidence_is_plain(p);
    lemma_evidence_is_plain(q);
    lemma_plain_key_names_pair(p, q);
}

/// Evidence of equivocation does not depend on which event was seen first.
pub proof fn lemma_evidence_is_symmetric(a: SocialEventView, b: SocialEventView)
    requires
        equivocates(evidence_of(a, b)) is Ok,
    ensures
        equivocates(evidence_of(b, a)) is Ok,
        evidence_key(evidence_of(a, b)) == evidence_key(evidence_of(b, a)),
{
    text::lemma_text_le_total(a.id, b.id);
    if text::text_le(a.id, b.id) && text::text_le(b.id, a.id) {
        text::lemma_text_le_antisym(a.id, b.id);
    }
}

/// A valid event can be no other event by the same author under the same
/// identifier, unless two contents have one hash.
pub proof fn lemma_identifier_commits_to_content(a: SocialEventView, b: SocialEventView)
    requires
        event_valid(a) is Ok,
        event_valid(b) is Ok,
        a.id == b.id,
    ensures
        content_hash(event_content(a)) == content_hash(event_content(b)),
{
}

fn check_grant(r: Result<(), SigningError>) -> (out: Result<(), SocialProtocolError>)
    ensures
        outcome(out) == grant_verdict(outcome(r)),
{
    match r {
        Ok(_) => Ok(()),
        Err(e) => Err(SocialProtocolError::InvalidCapabilityGrant(e)),
    }
}

fn check_receipt(r: Result<(), ExecutionReceiptError>) -> (out: Result<(), SocialProtocolError>)
    ensures
        outcome(out) == receipt_verdict(outcome(r)),
{
    match r {
        Ok(_) => Ok(()),
        Err(e) => Err(SocialProtocolError::InvalidExecutionReceipt(e)),
    }
}

fn check_settlement(r: Result<(), SettlementError>) -> (out: Result<(), SocialProtocolError>)
    ensures
        outcome(out) == settlement_verdict(outcome(r)),
{
    match r {
        Ok(_) => Ok(()),
        Err(e) => Err(SocialProtocolError::InvalidSettlementProof(e)),
    }
}

fn ensure_subject(event: &'static str, author: &Did, subject: &Did) -> (r: Result<
    (),
    SocialProtocolError,
>)
    ensures
        outcome(r) == speaks_for(event@, author.deep_view(), subject.deep_view()),
{
    if subject.same(author) {
        return Ok(());
    }
    Err(
        SocialProtocolError::AuthorSubjectMismatch {
            event,
            author: author.twin(),
            subject: subject.twin(),
        },
    )
}

fn ensure_subjects(event: &'static str, author: &Did, subjects: &Vec<Did>) -> (r: Result<
    (),
    SocialProtocolError,
>)
    ensures
        outcome(r) == speaks_for_all(event@, author.deep_view(), subjects.deep_view()),
{
    let ghost all = subjects.deep_view();
    let mut i: usize = 0;
    while i < subjects.len()
        invariant
            i <= subjects@.len(),
            all == subjects.deep_view(),
            speaks_for_all(event@, author.deep_view(), all.subrange(0, i as int)) is Ok,
        decreases subjects@.len() - i,
    {
        proof {
            let upto = all.subrange(0, i + 1);
            assert(upto.drop_last() =~= all.subrange(0, i as int));
            assert(upto.last() == subjects@[i as int].deep_view());
        }
        if let Err(e) = ensure_subject(event, author, &subjects[i]) {
            proof {
                lemma_first_mismatch(event@, author.deep_view(), all, i + 1);
            }
            return Err(e);
        }
        i = i + 1;
    }
    assert(all.subrange(0, i as int) =~= all);
    Ok(())
}

proof fn lemma_first_mismatch(
    event: Seq<char>,
    author: Seq<char>,
    subjects: Seq<Seq<char>>,
    n: int,
)
    requires
        0 <= n <= subjects.len(),
        speaks_for_all(event, author, subjects.subrange(0, n)) is Err,
    ensures
        speaks_for_all(event, author, subjects) == speaks_for_all(
            event,
            author,
            subjects.subrange(0, n),
        ),
    decreases subjects.len(),
{
    if n == subjects.len() {
        assert(subjects.subrange(0, n) =~= subjects);
    } else {
        let front = subjects.drop_last();
        assert(front.subrange(0, n) =~= subjects.subrange(0, n));
        lemma_first_mismatch(event, author, front, n);
    }
}

fn kind_claims(author: &Did, kind: &SocialEventKind) -> (r: Result<(), SocialProtocolError>)
    ensures
        outcome(r) == claims_own(author.deep_view(), kind.deep_view()),
    decreases kind,
{
    match kind {
            SocialEventKind::EquivocationObserved { evidence } => evidence_verify(&**evidence),
            SocialEventKind::ManifestPublished { manifest } => ensure_subject(
                "manifest",
                author,
                &manifest.did,
            ),
            SocialEventKind::IdentityRevoked { revocation } => ensure_subject(
                "identity revocation",
                author,
                &revocation.did,
            ),
            SocialEventKind::IdentityRotated { rotation } => ensure_subject(
                "identity rotation",
                author,
                &rotation.previous,
            ),
            SocialEventKind::IdentityRecoveryPolicy { policy } => ensure_subject(
                "identity recovery policy",
                author,
                &policy.identity,
            ),
            SocialEventKind::IdentityRecoveryApproved { approval } => ensure_subject(
                "identity recovery approval",
                author,
                &approval.guardian,
            ),
            SocialEventKind::WorkspaceOwnershipClaimed { claim } => ensure_subject(
                "workspace ownership claim",
                author,
                &claim.owner,
            ),
            SocialEventKind::InteractionRecorded { interaction } => ensure_subject(
                "interaction",
                author,
                &interaction.from,
            ),
            SocialEventKind::CollectiveProposalPublished { proposal } => ensure_subject(
                "collective proposal",
                author,
                &proposal.proposer,
            ),
            SocialEventKind::CollectiveVoteCast { vote } => ensure_subject(
                "collective vote",
                author,
                &vote.voter,
            ),
            SocialEventKind::CollectiveDecisionRecorded { decision } => {
                if let Err(e) = ensure_subject("collective decision", author, &decision.decider) {
                    return Err(e);
                }
                check_settlement(decision.validate_anchor())
            },
            SocialEventKind::CapabilityIssued { grant } => {
                if let Err(e) = ensure_subject("capability grant", author, &grant.capability.issuer) {
                    return Err(e);
                }
                check_grant(capability::verify_capability(&grant.capability, grant.issued_at))
            },
            SocialEventKind::CapabilityRevoked { revocation } => ensure_subject(
                "capability revocation",
                author,
                &revocation.issuer,
            ),
            SocialEventKind::WorkspaceSnapshotted { snapshot } => ensure_subject(
                "workspace snapshot",
                author,
                &snapshot.actor,
            ),
            SocialEventKind::WorkspaceRunRecorded { run } => ensure_subject(
                "workspace run",
                author,
                &run.actor,
            ),
            SocialEventKind::IntentPublished { intent } => ensure_subject(
                "intent",
                author,
                &intent.author,
            ),
            SocialEventKind::IntentResponded { response } => ensure_subject(
                "intent response",
                author,
                &response.responder,
            ),
            SocialEventKind::TaskPublished { task } => ensure_subject(
                "task publication",
                author,
                &task.publisher,
            ),
            SocialEventKind::TaskOffered { offer } => ensure_subject(
                "task offer",
                author,
                &offer.bidder,
            ),
            SocialEventKind::TaskAccepted { acceptance } => ensure_subject(
                "task acceptance",
                author,
                &acceptance.publisher,
            ),
            SocialEventKind::TaskCancelled { cancellation } => ensure_subject(
                "task cancellation",
                author,
                &cancellation.publisher,
            ),
            SocialEventKind::TaskCompleted { result } => {
                if let Err(e) = ensure_subject("task result", author, &result.executor) {
                    return Err(e);
                }
                check_receipt(result.validate_receipt())
            },
            SocialEventKind::TaskExecutionAttested { attestation } => {
                if let Err(e) = ensure_subject("task execution attestation", author, &attestation.attestor) {
                    return Err(e);
                }
                check_receipt(attestation.verify_signature())
            },
            SocialEventKind::TaskDisputed { dispute } => ensure_subject(
                "task dispute",
                author,
                &dispute.disputer,
            ),
            SocialEventKind::SettlementRecorded { settlement } => {
                if let Err(e) = ensure_subject("settlement", author, &settlement.payer) {
                    return Err(e);
                }
                check_settlement(settlement.validate())
            },
            SocialEventKind::WorkspaceOwnershipTransferred { claim } => {
                match &claim.previous_owner {
                    Some(previous) => ensure_subject(
                        "workspace ownership transfer",
                        author,
                        previous,
                    ),
                    None => Ok(()),
                }
            },
            SocialEventKind::CollectiveDeclared { members, .. } => ensure_subjects(
                "collective membership",
                author,
                members,
            ),
            _ => Ok(()),
    }
}

fn evidence_verify(p: &EquivocationProof) -> (r: Result<(), SocialProtocolError>)
    ensures
        outcome(r) == equivocates(p.deep_view()),
    decreases p,
{
    let a = &*p.event_a;
    let b = &*p.event_b;
    if let Err(e) = event_validate(a) {
        return Err(e);
    }
    if let Err(e) = event_validate(b) {
        return Err(e);
    }
    if !a.author.same(&b.author) {
        return Err(
            SocialProtocolError::EquivocationAuthorMismatch {
                left: a.author.twin(),
                right: b.author.twin(),
            },
        );
    }
    if a.seq != b.seq {
        return Err(
            SocialProtocolError::EquivocationSeqMismatch { left_seq: a.seq, right_seq: b.seq },
        );
    }
    if a.id.same(&b.id) {
        return Err(
            SocialProtocolError::EquivocationEventsIdentical { event_id: a.id.twin() },
        );
    }
    if !p.author.same(&a.author) || p.seq != a.seq {
        return Err(
            SocialProtocolError::EquivocationAuthorMismatch {
                left: p.author.twin(),
                right: a.author.twin(),
            },
        );
    }
    Ok(())
}

fn event_validate(e: &SocialEvent) -> (r: Result<(), SocialProtocolError>)
    ensures
        outcome(r) == event_valid(e.deep_view()),
    decreases e,
{
    if let Err(e) = e.verify_signature() {
        return Err(e);
    }
    kind_claims(&e.author, &e.kind)
}

impl SocialEvent {
    /// The first event of an author, unsigned.
    pub fn new(author: Did, timestamp: u64, kind: SocialEventKind) -> (r: Self)
        ensures
            r.deep_view() == unsigned_event(
                author.deep_view(),
                0,
                None,
                timestamp,
                kind.deep_view(),
            ),
    {
        Self::new_chained(author, 0, None, timestamp, kind)
    }

    /// An event at a position in the chain of its author, unsigned.
    pub fn new_chained(
        author: Did,
        seq: u64,
        prev: Option<String>,
        timestamp: u64,
        kind: SocialEventKind,
    ) -> (r: Self)
        ensures
            r.deep_view() == unsigned_event(
                author.deep_view(),
                seq,
                prev.deep_view(),
                timestamp,
                kind.deep_view(),
            ),
    {
        let id = Self::content_id_for(&author, seq, &prev, timestamp, &kind);
        SocialEvent { id, author, seq, prev, timestamp, kind, signature: None }
    }

    fn signing_payload_for(
        author: &Did,
        seq: u64,
        prev: &Option<String>,
        timestamp: u64,
        kind: &SocialEventKind,
    ) -> (r: Vec<u8>)
        ensures
            r@ == content(
                author.deep_view(),
                seq,
                prev.deep_view(),
                timestamp,
                kind.deep_view(),
            ),
    {
        let document = Fields::new()
            .with("author", author.to_wire())
            .with("seq", seq.to_wire())
            .with("prev", prev.to_wire())
            .with("timestamp", timestamp.to_wire())
            .with("kind", kind.to_wire())
            .done();
        wire::json_bytes(&document)
    }

    fn content_id_for(
        author: &Did,
        seq: u64,
        prev: &Option<String>,
        timestamp: u64,
        kind: &SocialEventKind,
    ) -> (r: String)
        ensures
            r@ == content_hash(
                content(
                    author.deep_view(),
                    seq,
                    prev.deep_view(),
                    timestamp,
                    kind.deep_view(),
                ),
            ),
    {
        let payload = Self::signing_payload_for(author, seq, prev, timestamp, kind);
        outside::hex_encode(outside::sha256(payload.as_slice()).as_slice())
    }

    /// The bytes that are signed and hashed: everything but identifier and
    /// signature.
    pub fn signing_payload(&self) -> (r: Vec<u8>)
        ensures
            r@ == event_content(self.deep_view()),
    {
        Self::signing_payload_for(
            &self.author,
            self.seq,
            &self.prev,
            self.timestamp,
            &self.kind,
        )
    }

    /// The identifier that the content gives the event.
    pub fn content_id(&self) -> (r: String)
        ensures
            r@ == content_hash(event_content(self.deep_view())),
    {
        Self::content_id_for(&self.author, self.seq, &self.prev, self.timestamp, &self.kind)
    }

    /// The event with a detached signature.
    pub fn with_signature(self, signature: Vec<u8>) -> (r: Self)
        ensures
            r.deep_view() == (SocialEventView {
                signature: Some(signature@),
                ..self.deep_view()
            }),
    {
        let mut r = self;
        r.signature = Some(signature);
        r
    }

    /// Signs the event; only its author may. A signed event verifies.
    pub fn sign(self, identity: &NodeIdentity) -> (r: Result<Self, SocialProtocolError>)
        ensures
            outcome(r) == (if self.deep_view().author == identity.name() {
                Ok(
                    SocialEventView {
                        id: content_hash(event_content(self.deep_view())),
                        signature: Some(
                            outside::signature_of(
                                identity.seed(),
                                event_content(self.deep_view()),
                            ),
                        ),
                        ..self.deep_view()
                    },
                )
            } else {
                Err(
                    SocialProtocolErrorView::AuthorSignerMismatch {
                        author: self.deep_view().author,
                        signer: identity.name(),
                    },
                )
            }),
            r matches Ok(event) ==> event_signed(event.deep_view()) is Ok,
    {
        let mut r = self;
        if !r.author.same(identity.did()) {
            return Err(
                SocialProtocolError::AuthorSignerMismatch {
                    author: r.author,
                    signer: identity.did().twin(),
                },
            );
        }
        r.id = r.content_id();
        let payload = r.signing_payload();
        r.signature = Some(identity.sign(payload.as_slice()));
        Ok(r)
    }

    /// Checks that the identifier is the hash of the content.
    pub fn verify_content_id(&self) -> (r: Result<(), SocialProtocolError>)
        ensures
            outcome(r) == identified(self.deep_view()),
    {
        let expected = self.content_id();
        if self.id.same(&expected) {
            Ok(())
        } else {
            Err(SocialProtocolError::EventIdMismatch { actual: self.id.twin(), expected })
        }
    }

    /// Checks identifier and signature.
    pub fn verify_signature(&self) -> (r: Result<(), SocialProtocolError>)
        ensures
            outcome(r) == event_signed(self.deep_view()),
    {
        if let Err(e) = self.verify_content_id() {
            return Err(e);
        }
        match &self.signature {
            None => Err(SocialProtocolError::MissingSignature),
            Some(s) => {
                let payload = self.signing_payload();
                match identity::verify_did_signature(
                    &self.author,
                    payload.as_slice(),
                    s.as_slice(),
                ) {
                    Ok(_) => Ok(()),
                    Err(IdentitySignatureError::InvalidDid(e)) => Err(
                        SocialProtocolError::InvalidAuthorDid(e),
                    ),
                    Err(IdentitySignatureError::InvalidVerifyingKey) => Err(
                        SocialProtocolError::InvalidVerifyingKey,
                    ),
                    Err(IdentitySignatureError::InvalidSignatureBytes) => Err(
                        SocialProtocolError::InvalidSignatureBytes,
                    ),
                    Err(IdentitySignatureError::VerificationFailed) => Err(
                        SocialProtocolError::SignatureVerificationFailed,
                    ),
                }
            },
        }
    }

    /// Checks the signature and what the event claims of its author.
    pub fn validate(&self) -> (r: Result<(), SocialProtocolError>)
        ensures
            outcome(r) == event_valid(self.deep_view()),
    {
        event_validate(self)
    }

    /// Checks that the event does not make another agent appear to have acted.
    pub fn validate_author_claims(&self) -> (r: Result<(), SocialProtocolError>)
        ensures
            outcome(r) == claims_own(self.deep_view().author, self.deep_view().kind),
    {
        kind_claims(&self.author, &self.kind)
    }

    /// The JSON form for gossip.
    pub fn to_json(&self) -> (r: Vec<u8>)
        ensures
            r@ == wire::json(event_wire(self.deep_view())),
    {
        wire::json_bytes(&self.to_wire())
    }
}

/// An unsigned event with the identifier that its content gives it.
pub open spec fn unsigned_event(
    author: Seq<char>,
    seq: u64,
    prev: Option<Seq<char>>,
    timestamp: u64,
    kind: SocialEventKindView,
) -> SocialEventView {
    SocialEventView {
        id: content_hash(content(author, seq, prev, timestamp, kind)),
        author,
        seq,
        prev,
        timestamp,
        kind,
        signature: None,
    }
}

impl EquivocationProof {
    /// The evidence of two events, if it holds.
    pub fn new(event_a: SocialEvent, event_b: SocialEvent) -> (r: Result<Self, SocialProtocolError>)
        ensures
            outcome(r) == (match equivocates(
                evidence_of(event_a.deep_view(), event_b.deep_view()),
            ) {
                Ok(_) => Ok(evidence_of(event_a.deep_view(), event_b.deep_view())),
                Err(e) => Err(e),
            }),
    {
        let p = EquivocationProof {
            author: event_a.author.twin(),
            seq: event_a.seq,
            event_a: Box::new(event_a),
            event_b: Box::new(event_b),
        };
        match p.verify() {
            Ok(_) => Ok(p),
            Err(e) => Err(e),
        }
    }

    /// Checks that the evidence holds.
    pub fn verify(&self) -> (r: Result<(), SocialProtocolError>)
        ensures
            outcome(r) == equivocates(self.deep_view()),
    {
        evidence_verify(self)
    }

    /// The key of the evidence.
    pub fn evidence_key(&self) -> (r: String)
        ensures
            r@ == evidence_key(self.deep_view()),
    {
        let a = &self.event_a.id;
        let b = &self.event_b.id;
        let parts = if text::text_at_most(a.as_str(), b.as_str()) {
            vec![self.author.to_string(), text::decimal_text(self.seq), a.twin(), b.twin()]
        } else {
            vec![self.author.to_string(), text::decimal_text(self.seq), b.twin(), a.twin()]
        };
        proof {
            let v = self.deep_view();
            let n = text::decimal(v.seq as nat);
            if text::text_le(v.event_a.id, v.event_b.id) {
                assert(parts.deep_view() =~= seq![v.author, n, v.event_a.id, v.event_b.id]);
            } else {
                assert(parts.deep_view() =~= seq![v.author, n, v.event_b.id, v.event_a.id]);
            }
        }
        text::piped(&parts)
    }
}

} // verus!
