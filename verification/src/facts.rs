//! The facts of the society: relations, collectives, decisions, disputes,
//! settlements, grants, workspace history and intents.
use crate::outside;
use crate::settlement::{
    anchor_valid, anchored_valid, proof_settles, AuthorityAnchor, AuthorityAnchorView,
    SettlementError, SettlementErrorView, SettlementProof, SettlementProofView,
};
use crate::table::Group;
use crate::task::{random_form, random_id, TaskResult, TaskResultView};
use crate::text;
use crate::twin::{lemma_bytes_view, outcome, Twin};
use crate::types::{
    Capability, CapabilityView, Cid, Did, ResourceUsage, ResourceUsageView, WorkspaceId,
};
use crate::wire::{
    self, nonempty_wire, push_some, some_wire, text_wire, to_nonempty_wire, to_some_wire, Encode,
    Fields, Wire, WireView,
};
use vstd::prelude::*;
use vstd::string::*;

verus! {

broadcast use lemma_bytes_view;

/// A broad social relation between two agents.
#[derive(Clone, Copy, Debug, PartialEq, Eq, Hash, Structural)]
pub enum RelationKind {
    /// General awareness without history.
    Acquaintance,
    /// Repeated positive collaboration.
    Collaborator,
    /// Provides or consumes a capability.
    ServiceProvider,
    /// Teaches.
    Mentor,
    /// Shares stewardship of a workspace or collective.
    CoOwner,
    /// Has conflicting goals or an open dispute.
    Rival,
    /// Locally muted or avoided.
    Blocked,
}

impl DeepView for RelationKind {
    type V = RelationKind;

    open spec fn deep_view(&self) -> RelationKind {
        *self
    }
}

impl Twin for RelationKind {
    fn twin(&self) -> (r: Self) {
        *self
    }
}

impl Encode for RelationKind {
    open spec fn wire(v: RelationKind) -> WireView {
        WireView::Text(
            match v {
                RelationKind::Acquaintance => "Acquaintance"@,
                RelationKind::Collaborator => "Collaborator"@,
                RelationKind::ServiceProvider => "ServiceProvider"@,
                RelationKind::Mentor => "Mentor"@,
                RelationKind::CoOwner => "CoOwner"@,
                RelationKind::Rival => "Rival"@,
                RelationKind::Blocked => "Blocked"@,
            },
        )
    }

    fn to_wire(&self) -> (r: Wire) {
        match self {
            RelationKind::Acquaintance => text_wire("Acquaintance"),
            RelationKind::Collaborator => text_wire("Collaborator"),
            RelationKind::ServiceProvider => text_wire("ServiceProvider"),
            RelationKind::Mentor => text_wire("Mentor"),
            RelationKind::CoOwner => text_wire("CoOwner"),
            RelationKind::Rival => text_wire("Rival"),
            RelationKind::Blocked => text_wire("Blocked"),
        }
    }
}

/// The outcome of an interaction.
#[derive(Clone, Copy, Debug, PartialEq, Eq, Hash, Structural)]
pub enum InteractionOutcome {
    Success,
    Neutral,
    Failure,
    Dispute,
}

impl DeepView for InteractionOutcome {
    type V = InteractionOutcome;

    open spec fn deep_view(&self) -> InteractionOutcome {
        *self
    }
}

impl Twin for InteractionOutcome {
    fn twin(&self) -> (r: Self) {
        *self
    }
}

impl Encode for InteractionOutcome {
    open spec fn wire(v: InteractionOutcome) -> WireView {
        WireView::Text(
            match v {
                InteractionOutcome::Success => "Success"@,
                InteractionOutcome::Neutral => "Neutral"@,
                InteractionOutcome::Failure => "Failure"@,
                InteractionOutcome::Dispute => "Dispute"@,
            },
        )
    }

    fn to_wire(&self) -> (r: Wire) {
        match self {
            InteractionOutcome::Success => text_wire("Success"),
            InteractionOutcome::Neutral => text_wire("Neutral"),
            InteractionOutcome::Failure => text_wire("Failure"),
            InteractionOutcome::Dispute => text_wire("Dispute"),
        }
    }
}

/// A vote on a collective proposal.
#[derive(Clone, Copy, Debug, PartialEq, Eq, Hash, Structural)]
pub enum CollectiveVoteChoice {
    Approve,
    Reject,
    Abstain,
    Block,
}

impl DeepView for CollectiveVoteChoice {
    type V = CollectiveVoteChoice;

    open spec fn deep_view(&self) -> CollectiveVoteChoice {
        *self
    }
}

impl Twin for CollectiveVoteChoice {
    fn twin(&self) -> (r: Self) {
        *self
    }
}

impl Encode for CollectiveVoteChoice {
    open spec fn wire(v: CollectiveVoteChoice) -> WireView {
        WireView::Text(
            match v {
                CollectiveVoteChoice::Approve => "Approve"@,
                CollectiveVoteChoice::Reject => "Reject"@,
                CollectiveVoteChoice::Abstain => "Abstain"@,
                CollectiveVoteChoice::Block => "Block"@,
            },
        )
    }

    fn to_wire(&self) -> (r: Wire) {
        match self {
            CollectiveVoteChoice::Approve => text_wire("Approve"),
            CollectiveVoteChoice::Reject => text_wire("Reject"),
            CollectiveVoteChoice::Abstain => text_wire("Abstain"),
            CollectiveVoteChoice::Block => text_wire("Block"),
        }
    }
}

/// Whether a fact is only signed by its claimant or independently anchored.
#[derive(Clone, Copy, Debug, PartialEq, Eq, Hash, Structural)]
pub enum FactTruthStatus {
    Claimed,
    Anchored,
}

impl DeepView for FactTruthStatus {
    type V = FactTruthStatus;

    open spec fn deep_view(&self) -> FactTruthStatus {
        *self
    }
}

impl Twin for FactTruthStatus {
    fn twin(&self) -> (r: Self) {
        *self
    }
}

/// The outcome of a collective decision.
#[derive(Clone, Copy, Debug, PartialEq, Eq, Hash, Structural)]
pub enum CollectiveDecisionOutcome {
    Accepted,
    Rejected,
    Deferred,
    Disputed,
}

impl DeepView for CollectiveDecisionOutcome {
    type V = CollectiveDecisionOutcome;

    open spec fn deep_view(&self) -> CollectiveDecisionOutcome {
        *self
    }
}

impl Twin for CollectiveDecisionOutcome {
    fn twin(&self) -> (r: Self) {
        *self
    }
}

impl Encode for CollectiveDecisionOutcome {
    open spec fn wire(v: CollectiveDecisionOutcome) -> WireView {
        WireView::Text(
            match v {
                CollectiveDecisionOutcome::Accepted => "Accepted"@,
                CollectiveDecisionOutcome::Rejected => "Rejected"@,
                CollectiveDecisionOutcome::Deferred => "Deferred"@,
                CollectiveDecisionOutcome::Disputed => "Disputed"@,
            },
        )
    }

    fn to_wire(&self) -> (r: Wire) {
        match self {
            CollectiveDecisionOutcome::Accepted => text_wire("Accepted"),
            CollectiveDecisionOutcome::Rejected => text_wire("Rejected"),
            CollectiveDecisionOutcome::Deferred => text_wire("Deferred"),
            CollectiveDecisionOutcome::Disputed => text_wire("Disputed"),
        }
    }
}

/// What an intent is.
#[derive(Clone, Copy, Debug, PartialEq, Eq, Hash, Structural)]
pub enum IntentKind {
    Goal,
    Need,
    Offer,
    Proposal,
    Status,
}

impl DeepView for IntentKind {
    type V = IntentKind;

    open spec fn deep_view(&self) -> IntentKind {
        *self
    }
}

impl Twin for IntentKind {
    fn twin(&self) -> (r: Self) {
        *self
    }
}

impl Encode for IntentKind {
    open spec fn wire(v: IntentKind) -> WireView {
        WireView::Text(
            match v {
                IntentKind::Goal => "Goal"@,
                IntentKind::Need => "Need"@,
                IntentKind::Offer => "Offer"@,
                IntentKind::Proposal => "Proposal"@,
                IntentKind::Status => "Status"@,
            },
        )
    }

    fn to_wire(&self) -> (r: Wire) {
        match self {
            IntentKind::Goal => text_wire("Goal"),
            IntentKind::Need => text_wire("Need"),
            IntentKind::Offer => text_wire("Offer"),
            IntentKind::Proposal => text_wire("Proposal"),
            IntentKind::Status => text_wire("Status"),
        }
    }
}

/// How an intent is answered.
#[derive(Clone, Copy, Debug, PartialEq, Eq, Hash, Structural)]
pub enum IntentResponseKind {
    Interested,
    Accept,
    Decline,
    Counter,
    Fulfilled,
}

impl DeepView for IntentResponseKind {
    type V = IntentResponseKind;

    open spec fn deep_view(&self) -> IntentResponseKind {
        *self
    }
}

impl Twin for IntentResponseKind {
    fn twin(&self) -> (r: Self) {
        *self
    }
}

impl Encode for IntentResponseKind {
    open spec fn wire(v: IntentResponseKind) -> WireView {
        WireView::Text(
            match v {
                IntentResponseKind::Interested => "Interested"@,
                IntentResponseKind::Accept => "Accept"@,
                IntentResponseKind::Decline => "Decline"@,
                IntentResponseKind::Counter => "Counter"@,
                IntentResponseKind::Fulfilled => "Fulfilled"@,
            },
        )
    }

    fn to_wire(&self) -> (r: Wire) {
        match self {
            IntentResponseKind::Interested => text_wire("Interested"),
            IntentResponseKind::Accept => text_wire("Accept"),
            IntentResponseKind::Decline => text_wire("Decline"),
            IntentResponseKind::Counter => text_wire("Counter"),
            IntentResponseKind::Fulfilled => text_wire("Fulfilled"),
        }
    }
}

/// A directed, subjective view of one agent on another. The outcomes of their
/// interactions are kept in order; subjective scores are folded from them.
#[derive(Debug, PartialEq, Eq)]
pub struct SocialEdge {
    pub from: Did,
    pub to: Did,
    pub kind: RelationKind,
    /// The outcomes seen so far.
    pub history: Vec<InteractionOutcome>,
    pub created_at: u64,
    pub updated_at: u64,
    pub notes: Vec<String>,
}

/// The mathematical form of [`SocialEdge`].
#[verifier::ext_equal]
pub struct SocialEdgeView {
    pub from: Seq<char>,
    pub to: Seq<char>,
    pub kind: RelationKind,
    pub history: Seq<InteractionOutcome>,
    pub created_at: u64,
    pub updated_at: u64,
    pub notes: Seq<Seq<char>>,
}

impl DeepView for SocialEdge {
    type V = SocialEdgeView;

    open spec fn deep_view(&self) -> SocialEdgeView {
        SocialEdgeView {
            from: self.from.deep_view(),
            to: self.to.deep_view(),
            kind: self.kind.deep_view(),
            history: self.history.deep_view(),
            created_at: self.created_at.deep_view(),
            updated_at: self.updated_at.deep_view(),
            notes: self.notes.deep_view(),
        }
    }
}

impl Twin for SocialEdge {
    fn twin(&self) -> (r: Self) {
        SocialEdge {
            from: self.from.twin(),
            to: self.to.twin(),
            kind: self.kind.twin(),
            history: self.history.twin(),
            created_at: self.created_at.twin(),
            updated_at: self.updated_at.twin(),
            notes: self.notes.twin(),
        }
    }
}

impl Clone for SocialEdge {
    fn clone(&self) -> (r: Self)
        ensures
            r.deep_view() == self.deep_view(),
    {
        self.twin()
    }
}

/// What one agent remembers of its interactions with another.
#[derive(Debug, PartialEq, Eq)]
pub struct ReputationScore {
    /// Who is remembered.
    pub subject: Did,
    /// The outcomes seen so far.
    pub history: Vec<InteractionOutcome>,
    /// Those of them by which the agent was judged.
    pub judged: Vec<InteractionOutcome>,
    pub first_seen: u64,
    pub last_seen: u64,
}

/// The mathematical form of [`ReputationScore`].
#[verifier::ext_equal]
pub struct ReputationScoreView {
    pub subject: Seq<char>,
    pub history: Seq<InteractionOutcome>,
    pub judged: Seq<InteractionOutcome>,
    pub first_seen: u64,
    pub last_seen: u64,
}

impl DeepView for ReputationScore {
    type V = ReputationScoreView;

    open spec fn deep_view(&self) -> ReputationScoreView {
        ReputationScoreView {
            subject: self.subject.deep_view(),
            history: self.history.deep_view(),
            judged: self.judged.deep_view(),
            first_seen: self.first_seen.deep_view(),
            last_seen: self.last_seen.deep_view(),
        }
    }
}

impl Twin for ReputationScore {
    fn twin(&self) -> (r: Self) {
        ReputationScore {
            subject: self.subject.twin(),
            history: self.history.twin(),
            judged: self.judged.twin(),
            first_seen: self.first_seen.twin(),
            last_seen: self.last_seen.twin(),
        }
    }
}

impl Clone for ReputationScore {
    fn clone(&self) -> (r: Self)
        ensures
            r.deep_view() == self.deep_view(),
    {
        self.twin()
    }
}

/// A social memory of an interaction.
#[derive(Debug, PartialEq, Eq)]
pub struct Interaction {
    pub id: String,
    pub from: Did,
    pub to: Did,
    pub workspace: Option<WorkspaceId>,
    pub topic: String,
    pub outcome: InteractionOutcome,
    pub timestamp: u64,
    pub evidence: Option<String>,
}

/// The mathematical form of [`Interaction`].
#[verifier::ext_equal]
pub struct InteractionView {
    pub id: Seq<char>,
    pub from: Seq<char>,
    pub to: Seq<char>,
    pub workspace: Option<Seq<u8>>,
    pub topic: Seq<char>,
    pub outcome: InteractionOutcome,
    pub timestamp: u64,
    pub evidence: Option<Seq<char>>,
}

impl DeepView for Interaction {
    type V = InteractionView;

    open spec fn deep_view(&self) -> InteractionView {
        InteractionView {
            id: self.id.deep_view(),
            from: self.from.deep_view(),
            to: self.to.deep_view(),
            workspace: self.workspace.deep_view(),
            topic: self.topic.deep_view(),
            outcome: self.outcome.deep_view(),
            timestamp: self.timestamp.deep_view(),
            evidence: self.evidence.deep_view(),
        }
    }
}

impl Twin for Interaction {
    fn twin(&self) -> (r: Self) {
        Interaction {
            id: self.id.twin(),
            from: self.from.twin(),
            to: self.to.twin(),
            workspace: self.workspace.twin(),
            topic: self.topic.twin(),
            outcome: self.outcome.twin(),
            timestamp: self.timestamp.twin(),
            evidence: self.evidence.twin(),
        }
    }
}

impl Clone for Interaction {
    fn clone(&self) -> (r: Self)
        ensures
            r.deep_view() == self.deep_view(),
    {
        self.twin()
    }
}

impl Encode for Interaction {
    open spec fn wire(v: InteractionView) -> WireView {
        WireView::Record(
            Seq::<(Seq<char>, WireView)>::empty()
            .push(("id"@, String::wire(v.id)))
            .push(("from"@, Did::wire(v.from)))
            .push(("to"@, Did::wire(v.to)))
            .push(("workspace"@, <Option<WorkspaceId> as Encode>::wire(v.workspace)))
            .push(("topic"@, String::wire(v.topic)))
            .push(("outcome"@, InteractionOutcome::wire(v.outcome)))
            .push(("timestamp"@, u64::wire(v.timestamp)))
            .push(("evidence"@, <Option<String> as Encode>::wire(v.evidence))),
        )
    }

    fn to_wire(&self) -> (r: Wire) {
        Fields::new()
            .with("id", self.id.to_wire())
            .with("from", self.from.to_wire())
            .with("to", self.to.to_wire())
            .with("workspace", self.workspace.to_wire())
            .with("topic", self.topic.to_wire())
            .with("outcome", self.outcome.to_wire())
            .with("timestamp", self.timestamp.to_wire())
            .with("evidence", self.evidence.to_wire())
            .done()
    }
}

/// A group, institution or temporary working collective.
#[derive(Debug, PartialEq, Eq)]
pub struct Collective {
    pub id: String,
    pub name: String,
    pub purpose: String,
    pub members: Group<Did>,
    pub workspaces: Group<WorkspaceId>,
    pub created_at: u64,
}

/// The mathematical form of [`Collective`].
#[verifier::ext_equal]
pub struct CollectiveView {
    pub id: Seq<char>,
    pub name: Seq<char>,
    pub purpose: Seq<char>,
    pub members: Seq<Seq<char>>,
    pub workspaces: Seq<Seq<u8>>,
    pub created_at: u64,
}

impl DeepView for Collective {
    type V = CollectiveView;

    open spec fn deep_view(&self) -> CollectiveView {
        CollectiveView {
            id: self.id.deep_view(),
            name: self.name.deep_view(),
            purpose: self.purpose.deep_view(),
            members: self.members.deep_view(),
            workspaces: self.workspaces.deep_view(),
            created_at: self.created_at.deep_view(),
        }
    }
}

impl Twin for Collective {
    fn twin(&self) -> (r: Self) {
        Collective {
            id: self.id.twin(),
            name: self.name.twin(),
            purpose: self.purpose.twin(),
            members: self.members.twin(),
            workspaces: self.workspaces.twin(),
            created_at: self.created_at.twin(),
        }
    }
}

impl Clone for Collective {
    fn clone(&self) -> (r: Self)
        ensures
            r.deep_view() == self.deep_view(),
    {
        self.twin()
    }
}

/// A proposal inside a collective.
#[derive(Debug, PartialEq, Eq)]
pub struct CollectiveProposal {
    pub id: String,
    pub collective_id: String,
    pub proposer: Did,
    pub title: String,
    pub body: String,
    pub workspace: Option<WorkspaceId>,
    pub created_at: u64,
    pub deadline: u64,
}

/// The mathematical form of [`CollectiveProposal`].
#[verifier::ext_equal]
pub struct CollectiveProposalView {
    pub id: Seq<char>,
    pub collective_id: Seq<char>,
    pub proposer: Seq<char>,
    pub title: Seq<char>,
    pub body: Seq<char>,
    pub workspace: Option<Seq<u8>>,
    pub created_at: u64,
    pub deadline: u64,
}

impl DeepView for CollectiveProposal {
    type V = CollectiveProposalView;

    open spec fn deep_view(&self) -> CollectiveProposalView {
        CollectiveProposalView {
            id: self.id.deep_view(),
            collective_id: self.collective_id.deep_view(),
            proposer: self.proposer.deep_view(),
            title: self.title.deep_view(),
            body: self.body.deep_view(),
            workspace: self.workspace.deep_view(),
            created_at: self.created_at.deep_view(),
            deadline: self.deadline.deep_view(),
        }
    }
}

impl Twin for CollectiveProposal {
    fn twin(&self) -> (r: Self) {
        CollectiveProposal {
            id: self.id.twin(),
            collective_id: self.collective_id.twin(),
            proposer: self.proposer.twin(),
            title: self.title.twin(),
            body: self.body.twin(),
            workspace: self.workspace.twin(),
            created_at: self.created_at.twin(),
            deadline: self.deadline.twin(),
        }
    }
}

impl Clone for CollectiveProposal {
    fn clone(&self) -> (r: Self)
        ensures
            r.deep_view() == self.deep_view(),
    {
        self.twin()
    }
}

impl Encode for CollectiveProposal {
    open spec fn wire(v: CollectiveProposalView) -> WireView {
        WireView::Record(
            Seq::<(Seq<char>, WireView)>::empty()
            .push(("id"@, String::wire(v.id)))
            .push(("collective_id"@, String::wire(v.collective_id)))
            .push(("proposer"@, Did::wire(v.proposer)))
            .push(("title"@, String::wire(v.title)))
            .push(("body"@, String::wire(v.body)))
            .push(("workspace"@, <Option<WorkspaceId> as Encode>::wire(v.workspace)))
            .push(("created_at"@, u64::wire(v.created_at)))
            .push(("deadline"@, u64::wire(v.deadline))),
        )
    }

    fn to_wire(&self) -> (r: Wire) {
        Fields::new()
            .with("id", self.id.to_wire())
            .with("collective_id", self.collective_id.to_wire())
            .with("proposer", self.proposer.to_wire())
            .with("title", self.title.to_wire())
            .with("body", self.body.to_wire())
            .with("workspace", self.workspace.to_wire())
            .with("created_at", self.created_at.to_wire())
            .with("deadline", self.deadline.to_wire())
            .done()
    }
}

/// The latest vote of an agent on a proposal.
#[derive(Debug, PartialEq, Eq)]
pub struct CollectiveVote {
    pub proposal_id: String,
    pub collective_id: String,
    pub voter: Did,
    pub choice: CollectiveVoteChoice,
    pub rationale: String,
    pub timestamp: u64,
}

/// The mathematical form of [`CollectiveVote`].
#[verifier::ext_equal]
pub struct CollectiveVoteView {
    pub proposal_id: Seq<char>,
    pub collective_id: Seq<char>,
    pub voter: Seq<char>,
    pub choice: CollectiveVoteChoice,
    pub rationale: Seq<char>,
    pub timestamp: u64,
}

impl DeepView for CollectiveVote {
    type V = CollectiveVoteView;

    open spec fn deep_view(&self) -> CollectiveVoteView {
        CollectiveVoteView {
            proposal_id: self.proposal_id.deep_view(),
            collective_id: self.collective_id.deep_view(),
            voter: self.voter.deep_view(),
            choice: self.choice.deep_view(),
            rationale: self.rationale.deep_view(),
            timestamp: self.timestamp.deep_view(),
        }
    }
}

impl Twin for CollectiveVote {
    fn twin(&self) -> (r: Self) {
        CollectiveVote {
            proposal_id: self.proposal_id.twin(),
            collective_id: self.collective_id.twin(),
            voter: self.voter.twin(),
            choice: self.choice.twin(),
            rationale: self.rationale.twin(),
            timestamp: self.timestamp.twin(),
        }
    }
}

impl Clone for CollectiveVote {
    fn clone(&self) -> (r: Self)
        ensures
            r.deep_view() == self.deep_view(),
    {
        self.twin()
    }
}

impl Encode for CollectiveVote {
    open spec fn wire(v: CollectiveVoteView) -> WireView {
        WireView::Record(
            Seq::<(Seq<char>, WireView)>::empty()
            .push(("proposal_id"@, String::wire(v.proposal_id)))
            .push(("collective_id"@, String::wire(v.collective_id)))
            .push(("voter"@, Did::wire(v.voter)))
            .push(("choice"@, CollectiveVoteChoice::wire(v.choice)))
            .push(("rationale"@, String::wire(v.rationale)))
            .push(("timestamp"@, u64::wire(v.timestamp))),
        )
    }

    fn to_wire(&self) -> (r: Wire) {
        Fields::new()
            .with("proposal_id", self.proposal_id.to_wire())
            .with("collective_id", self.collective_id.to_wire())
            .with("voter", self.voter.to_wire())
            .with("choice", self.choice.to_wire())
            .with("rationale", self.rationale.to_wire())
            .with("timestamp", self.timestamp.to_wire())
            .done()
    }
}

/// A signed statement that an agent owns a workspace.
#[derive(Debug, PartialEq, Eq)]
pub struct WorkspaceOwnershipClaim {
    pub workspace: WorkspaceId,
    pub owner: Did,
    pub previous_owner: Option<Did>,
    pub root: Option<Cid>,
    pub anchor: Option<AuthorityAnchor>,
    pub claimed_at: u64,
}

/// The mathematical form of [`WorkspaceOwnershipClaim`].
#[verifier::ext_equal]
pub struct WorkspaceOwnershipClaimView {
    pub workspace: Seq<u8>,
    pub owner: Seq<char>,
    pub previous_owner: Option<Seq<char>>,
    pub root: Option<Seq<u8>>,
    pub anchor: Option<AuthorityAnchorView>,
    pub claimed_at: u64,
}

impl DeepView for WorkspaceOwnershipClaim {
    type V = WorkspaceOwnershipClaimView;

    open spec fn deep_view(&self) -> WorkspaceOwnershipClaimView {
        WorkspaceOwnershipClaimView {
            workspace: self.workspace.deep_view(),
            owner: self.owner.deep_view(),
            previous_owner: self.previous_owner.deep_view(),
            root: self.root.deep_view(),
            anchor: self.anchor.deep_view(),
            claimed_at: self.claimed_at.deep_view(),
        }
    }
}

impl Twin for WorkspaceOwnershipClaim {
    fn twin(&self) -> (r: Self) {
        WorkspaceOwnershipClaim {
            workspace: self.workspace.twin(),
            owner: self.owner.twin(),
            previous_owner: self.previous_owner.twin(),
            root: self.root.twin(),
            anchor: self.anchor.twin(),
            claimed_at: self.claimed_at.twin(),
        }
    }
}

impl Clone for WorkspaceOwnershipClaim {
    fn clone(&self) -> (r: Self)
        ensures
            r.deep_view() == self.deep_view(),
    {
        self.twin()
    }
}

impl Encode for WorkspaceOwnershipClaim {
    open spec fn wire(v: WorkspaceOwnershipClaimView) -> WireView {
        WireView::Record(
            push_some(
push_some(
push_some(
Seq::<(Seq<char>, WireView)>::empty()
            .push(("workspace"@, WorkspaceId::wire(v.workspace)))
            .push(("owner"@, Did::wire(v.owner))),
"previous_owner"@,
some_wire::<Did>(v.previous_owner),
),
"root"@,
some_wire::<Cid>(v.root),
),
"anchor"@,
some_wire::<AuthorityAnchor>(v.anchor),
)
            .push(("claimed_at"@, u64::wire(v.claimed_at))),
        )
    }

    fn to_wire(&self) -> (r: Wire) {
        Fields::new()
            .with("workspace", self.workspace.to_wire())
            .with("owner", self.owner.to_wire())
            .with_some("previous_owner", to_some_wire(&self.previous_owner))
            .with_some("root", to_some_wire(&self.root))
            .with_some("anchor", to_some_wire(&self.anchor))
            .with("claimed_at", self.claimed_at.to_wire())
            .done()
    }
}

/// An ownership claim and whether it is anchored.
#[derive(Debug, PartialEq, Eq)]
pub struct WorkspaceOwnershipFact {
    pub claim: WorkspaceOwnershipClaim,
    pub truth_status: FactTruthStatus,
}

/// The mathematical form of [`WorkspaceOwnershipFact`].
#[verifier::ext_equal]
pub struct WorkspaceOwnershipFactView {
    pub claim: WorkspaceOwnershipClaimView,
    pub truth_status: FactTruthStatus,
}

impl DeepView for WorkspaceOwnershipFact {
    type V = WorkspaceOwnershipFactView;

    open spec fn deep_view(&self) -> WorkspaceOwnershipFactView {
        WorkspaceOwnershipFactView {
            claim: self.claim.deep_view(),
            truth_status: self.truth_status.deep_view(),
        }
    }
}

impl Twin for WorkspaceOwnershipFact {
    fn twin(&self) -> (r: Self) {
        WorkspaceOwnershipFact {
            claim: self.claim.twin(),
            truth_status: self.truth_status.twin(),
        }
    }
}

impl Clone for WorkspaceOwnershipFact {
    fn clone(&self) -> (r: Self)
        ensures
            r.deep_view() == self.deep_view(),
    {
        self.twin()
    }
}

/// A recorded decision on a collective proposal.
#[derive(Debug, PartialEq, Eq)]
pub struct CollectiveDecision {
    pub proposal_id: String,
    pub collective_id: String,
    pub decider: Did,
    pub outcome: CollectiveDecisionOutcome,
    /// The task that is judged, if any.
    pub task_id: Option<String>,
    /// The result claim that is judged, if any.
    pub claim_id: Option<String>,
    /// The agent that is judged, if any.
    pub target: Option<Did>,
    /// Evidence that makes this a witnessed fact.
    pub anchor: Option<AuthorityAnchor>,
    pub reason: String,
    pub timestamp: u64,
}

/// The mathematical form of [`CollectiveDecision`].
#[verifier::ext_equal]
pub struct CollectiveDecisionView {
    pub proposal_id: Seq<char>,
    pub collective_id: Seq<char>,
    pub decider: Seq<char>,
    pub outcome: CollectiveDecisionOutcome,
    pub task_id: Option<Seq<char>>,
    pub claim_id: Option<Seq<char>>,
    pub target: Option<Seq<char>>,
    pub anchor: Option<AuthorityAnchorView>,
    pub reason: Seq<char>,
    pub timestamp: u64,
}

impl DeepView for CollectiveDecision {
    type V = CollectiveDecisionView;

    open spec fn deep_view(&self) -> CollectiveDecisionView {
        CollectiveDecisionView {
            proposal_id: self.proposal_id.deep_view(),
            collective_id: self.collective_id.deep_view(),
            decider: self.decider.deep_view(),
            outcome: self.outcome.deep_view(),
            task_id: self.task_id.deep_view(),
            claim_id: self.claim_id.deep_view(),
            target: self.target.deep_view(),
            anchor: self.anchor.deep_view(),
            reason: self.reason.deep_view(),
            timestamp: self.timestamp.deep_view(),
        }
    }
}

impl Twin for CollectiveDecision {
    fn twin(&self) -> (r: Self) {
        CollectiveDecision {
            proposal_id: self.proposal_id.twin(),
            collective_id: self.collective_id.twin(),
            decider: self.decider.twin(),
            outcome: self.outcome.twin(),
            task_id: self.task_id.twin(),
            claim_id: self.claim_id.twin(),
            target: self.target.twin(),
            anchor: self.anchor.twin(),
            reason: self.reason.twin(),
            timestamp: self.timestamp.twin(),
        }
    }
}

impl Clone for CollectiveDecision {
    fn clone(&self) -> (r: Self)
        ensures
            r.deep_view() == self.deep_view(),
    {
        self.twin()
    }
}

impl Encode for CollectiveDecision {
    open spec fn wire(v: CollectiveDecisionView) -> WireView {
        WireView::Record(
            push_some(
Seq::<(Seq<char>, WireView)>::empty()
            .push(("proposal_id"@, String::wire(v.proposal_id)))
            .push(("collective_id"@, String::wire(v.collective_id)))
            .push(("decider"@, Did::wire(v.decider)))
            .push(("outcome"@, CollectiveDecisionOutcome::wire(v.outcome)))
            .push(("task_id"@, <Option<String> as Encode>::wire(v.task_id)))
            .push(("claim_id"@, <Option<String> as Encode>::wire(v.claim_id)))
            .push(("target"@, <Option<Did> as Encode>::wire(v.target))),
"anchor"@,
some_wire::<AuthorityAnchor>(v.anchor),
)
            .push(("reason"@, String::wire(v.reason)))
            .push(("timestamp"@, u64::wire(v.timestamp))),
        )
    }

    fn to_wire(&self) -> (r: Wire) {
        Fields::new()
            .with("proposal_id", self.proposal_id.to_wire())
            .with("collective_id", self.collective_id.to_wire())
            .with("decider", self.decider.to_wire())
            .with("outcome", self.outcome.to_wire())
            .with("task_id", self.task_id.to_wire())
            .with("claim_id", self.claim_id.to_wire())
            .with("target", self.target.to_wire())
            .with_some("anchor", to_some_wire(&self.anchor))
            .with("reason", self.reason.to_wire())
            .with("timestamp", self.timestamp.to_wire())
            .done()
    }
}

/// A decision about a task or an exact result claim.
#[derive(Debug, PartialEq, Eq)]
pub struct TaskClaimJudgment {
    pub collective_id: String,
    pub proposal_id: String,
    pub decider: Did,
    pub outcome: CollectiveDecisionOutcome,
    pub task_id: Option<String>,
    pub claim_id: Option<String>,
    pub target: Option<Did>,
    pub truth_status: FactTruthStatus,
    pub reason: String,
    pub timestamp: u64,
}

/// The mathematical form of [`TaskClaimJudgment`].
#[verifier::ext_equal]
pub struct TaskClaimJudgmentView {
    pub collective_id: Seq<char>,
    pub proposal_id: Seq<char>,
    pub decider: Seq<char>,
    pub outcome: CollectiveDecisionOutcome,
    pub task_id: Option<Seq<char>>,
    pub claim_id: Option<Seq<char>>,
    pub target: Option<Seq<char>>,
    pub truth_status: FactTruthStatus,
    pub reason: Seq<char>,
    pub timestamp: u64,
}

impl DeepView for TaskClaimJudgment {
    type V = TaskClaimJudgmentView;

    open spec fn deep_view(&self) -> TaskClaimJudgmentView {
        TaskClaimJudgmentView {
            collective_id: self.collective_id.deep_view(),
            proposal_id: self.proposal_id.deep_view(),
            decider: self.decider.deep_view(),
            outcome: self.outcome.deep_view(),
            task_id: self.task_id.deep_view(),
            claim_id: self.claim_id.deep_view(),
            target: self.target.deep_view(),
            truth_status: self.truth_status.deep_view(),
            reason: self.reason.deep_view(),
            timestamp: self.timestamp.deep_view(),
        }
    }
}

impl Twin for TaskClaimJudgment {
    fn twin(&self) -> (r: Self) {
        TaskClaimJudgment {
            collective_id: self.collective_id.twin(),
            proposal_id: self.proposal_id.twin(),
            decider: self.decider.twin(),
            outcome: self.outcome.twin(),
            task_id: self.task_id.twin(),
            claim_id: self.claim_id.twin(),
            target: self.target.twin(),
            truth_status: self.truth_status.twin(),
            reason: self.reason.twin(),
            timestamp: self.timestamp.twin(),
        }
    }
}

impl Clone for TaskClaimJudgment {
    fn clone(&self) -> (r: Self)
        ensures
            r.deep_view() == self.deep_view(),
    {
        self.twin()
    }
}

/// A dispute against a task result or execution claim.
#[derive(Debug, PartialEq, Eq)]
pub struct TaskDispute {
    pub task_id: String,
    pub disputer: Did,
    pub target: Did,
    /// The result claim that is disputed, if any.
    pub claim_id: Option<String>,
    pub reason: String,
    pub evidence: Option<String>,
    pub timestamp: u64,
}

/// The mathematical form of [`TaskDispute`].
#[verifier::ext_equal]
pub struct TaskDisputeView {
    pub task_id: Seq<char>,
    pub disputer: Seq<char>,
    pub target: Seq<char>,
    pub claim_id: Option<Seq<char>>,
    pub reason: Seq<char>,
    pub evidence: Option<Seq<char>>,
    pub timestamp: u64,
}

impl DeepView for TaskDispute {
    type V = TaskDisputeView;

    open spec fn deep_view(&self) -> TaskDisputeView {
        TaskDisputeView {
            task_id: self.task_id.deep_view(),
            disputer: self.disputer.deep_view(),
            target: self.target.deep_view(),
            claim_id: self.claim_id.deep_view(),
            reason: self.reason.deep_view(),
            evidence: self.evidence.deep_view(),
            timestamp: self.timestamp.deep_view(),
        }
    }
}

impl Twin for TaskDispute {
    fn twin(&self) -> (r: Self) {
        TaskDispute {
            task_id: self.task_id.twin(),
            disputer: self.disputer.twin(),
            target: self.target.twin(),
            claim_id: self.claim_id.twin(),
            reason: self.reason.twin(),
            evidence: self.evidence.twin(),
            timestamp: self.timestamp.twin(),
        }
    }
}

impl Clone for TaskDispute {
    fn clone(&self) -> (r: Self)
        ensures
            r.deep_view() == self.deep_view(),
    {
        self.twin()
    }
}

impl Encode for TaskDispute {
    open spec fn wire(v: TaskDisputeView) -> WireView {
        WireView::Record(
            Seq::<(Seq<char>, WireView)>::empty()
            .push(("task_id"@, String::wire(v.task_id)))
            .push(("disputer"@, Did::wire(v.disputer)))
            .push(("target"@, Did::wire(v.target)))
            .push(("claim_id"@, <Option<String> as Encode>::wire(v.claim_id)))
            .push(("reason"@, String::wire(v.reason)))
            .push(("evidence"@, <Option<String> as Encode>::wire(v.evidence)))
            .push(("timestamp"@, u64::wire(v.timestamp))),
        )
    }

    fn to_wire(&self) -> (r: Wire) {
        Fields::new()
            .with("task_id", self.task_id.to_wire())
            .with("disputer", self.disputer.to_wire())
            .with("target", self.target.to_wire())
            .with("claim_id", self.claim_id.to_wire())
            .with("reason", self.reason.to_wire())
            .with("evidence", self.evidence.to_wire())
            .with("timestamp", self.timestamp.to_wire())
            .done()
    }
}

/// A signed claim that something was economically settled.
#[derive(Debug, PartialEq, Eq)]
pub struct SettlementRecord {
    pub id: String,
    pub task_id: Option<String>,
    pub claim_id: Option<String>,
    pub payer: Did,
    pub payee: Did,
    pub amount: u64,
    pub proof_of_payment: SettlementProof,
    pub settled_at: u64,
}

/// The mathematical form of [`SettlementRecord`].
#[verifier::ext_equal]
pub struct SettlementRecordView {
    pub id: Seq<char>,
    pub task_id: Option<Seq<char>>,
    pub claim_id: Option<Seq<char>>,
    pub payer: Seq<char>,
    pub payee: Seq<char>,
    pub amount: u64,
    pub proof_of_payment: SettlementProofView,
    pub settled_at: u64,
}

impl DeepView for SettlementRecord {
    type V = SettlementRecordView;

    open spec fn deep_view(&self) -> SettlementRecordView {
        SettlementRecordView {
            id: self.id.deep_view(),
            task_id: self.task_id.deep_view(),
            claim_id: self.claim_id.deep_view(),
            payer: self.payer.deep_view(),
            payee: self.payee.deep_view(),
            amount: self.amount.deep_view(),
            proof_of_payment: self.proof_of_payment.deep_view(),
            settled_at: self.settled_at.deep_view(),
        }
    }
}

impl Twin for SettlementRecord {
    fn twin(&self) -> (r: Self) {
        SettlementRecord {
            id: self.id.twin(),
            task_id: self.task_id.twin(),
            claim_id: self.claim_id.twin(),
            payer: self.payer.twin(),
            payee: self.payee.twin(),
            amount: self.amount.twin(),
            proof_of_payment: self.proof_of_payment.twin(),
            settled_at: self.settled_at.twin(),
        }
    }
}

impl Clone for SettlementRecord {
    fn clone(&self) -> (r: Self)
        ensures
            r.deep_view() == self.deep_view(),
    {
        self.twin()
    }
}

impl Encode for SettlementRecord {
    open spec fn wire(v: SettlementRecordView) -> WireView {
        WireView::Record(
            Seq::<(Seq<char>, WireView)>::empty()
            .push(("id"@, String::wire(v.id)))
            .push(("task_id"@, <Option<String> as Encode>::wire(v.task_id)))
            .push(("claim_id"@, <Option<String> as Encode>::wire(v.claim_id)))
            .push(("payer"@, Did::wire(v.payer)))
            .push(("payee"@, Did::wire(v.payee)))
            .push(("amount"@, u64::wire(v.amount)))
            .push(("proof"@, SettlementProof::wire(v.proof_of_payment)))
            .push(("settled_at"@, u64::wire(v.settled_at))),
        )
    }

    fn to_wire(&self) -> (r: Wire) {
        Fields::new()
            .with("id", self.id.to_wire())
            .with("task_id", self.task_id.to_wire())
            .with("claim_id", self.claim_id.to_wire())
            .with("payer", self.payer.to_wire())
            .with("payee", self.payee.to_wire())
            .with("amount", self.amount.to_wire())
            .with("proof", self.proof_of_payment.to_wire())
            .with("settled_at", self.settled_at.to_wire())
            .done()
    }
}

/// A result as it was claimed at a time.
#[derive(Debug, PartialEq, Eq)]
pub struct TaskResultClaim {
    pub result: TaskResult,
    pub timestamp: u64,
}

/// The mathematical form of [`TaskResultClaim`].
#[verifier::ext_equal]
pub struct TaskResultClaimView {
    pub result: TaskResultView,
    pub timestamp: u64,
}

impl DeepView for TaskResultClaim {
    type V = TaskResultClaimView;

    open spec fn deep_view(&self) -> TaskResultClaimView {
        TaskResultClaimView {
            result: self.result.deep_view(),
            timestamp: self.timestamp.deep_view(),
        }
    }
}

impl Twin for TaskResultClaim {
    fn twin(&self) -> (r: Self) {
        TaskResultClaim {
            result: self.result.twin(),
            timestamp: self.timestamp.twin(),
        }
    }
}

impl Clone for TaskResultClaim {
    fn clone(&self) -> (r: Self)
        ensures
            r.deep_view() == self.deep_view(),
    {
        self.twin()
    }
}

/// Evidence that an agent has performed a capability.
#[derive(Debug, PartialEq, Eq)]
pub struct VerifiedCapability {
    pub name: String,
    pub successful_tasks: usize,
    pub independently_attested_tasks: usize,
    pub latest_task_id: String,
    pub latest_observed_at: u64,
}

/// The mathematical form of [`VerifiedCapability`].
#[verifier::ext_equal]
pub struct VerifiedCapabilityView {
    pub name: Seq<char>,
    pub successful_tasks: usize,
    pub independently_attested_tasks: usize,
    pub latest_task_id: Seq<char>,
    pub latest_observed_at: u64,
}

impl DeepView for VerifiedCapability {
    type V = VerifiedCapabilityView;

    open spec fn deep_view(&self) -> VerifiedCapabilityView {
        VerifiedCapabilityView {
            name: self.name.deep_view(),
            successful_tasks: self.successful_tasks.deep_view(),
            independently_attested_tasks: self.independently_attested_tasks.deep_view(),
            latest_task_id: self.latest_task_id.deep_view(),
            latest_observed_at: self.latest_observed_at.deep_view(),
        }
    }
}

impl Twin for VerifiedCapability {
    fn twin(&self) -> (r: Self) {
        VerifiedCapability {
            name: self.name.twin(),
            successful_tasks: self.successful_tasks.twin(),
            independently_attested_tasks: self.independently_attested_tasks.twin(),
            latest_task_id: self.latest_task_id.twin(),
            latest_observed_at: self.latest_observed_at.twin(),
        }
    }
}

impl Clone for VerifiedCapability {
    fn clone(&self) -> (r: Self)
        ensures
            r.deep_view() == self.deep_view(),
    {
        self.twin()
    }
}

/// A collective decision as it bears on an agent.
#[derive(Debug, PartialEq, Eq)]
pub struct GovernanceSignal {
    pub collective_id: String,
    pub proposal_id: String,
    pub decider: Did,
    pub outcome: CollectiveDecisionOutcome,
    pub task_id: Option<String>,
    pub claim_id: Option<String>,
    pub truth_status: FactTruthStatus,
    pub reason: String,
    pub timestamp: u64,
}

/// The mathematical form of [`GovernanceSignal`].
#[verifier::ext_equal]
pub struct GovernanceSignalView {
    pub collective_id: Seq<char>,
    pub proposal_id: Seq<char>,
    pub decider: Seq<char>,
    pub outcome: CollectiveDecisionOutcome,
    pub task_id: Option<Seq<char>>,
    pub claim_id: Option<Seq<char>>,
    pub truth_status: FactTruthStatus,
    pub reason: Seq<char>,
    pub timestamp: u64,
}

impl DeepView for GovernanceSignal {
    type V = GovernanceSignalView;

    open spec fn deep_view(&self) -> GovernanceSignalView {
        GovernanceSignalView {
            collective_id: self.collective_id.deep_view(),
            proposal_id: self.proposal_id.deep_view(),
            decider: self.decider.deep_view(),
            outcome: self.outcome.deep_view(),
            task_id: self.task_id.deep_view(),
            claim_id: self.claim_id.deep_view(),
            truth_status: self.truth_status.deep_view(),
            reason: self.reason.deep_view(),
            timestamp: self.timestamp.deep_view(),
        }
    }
}

impl Twin for GovernanceSignal {
    fn twin(&self) -> (r: Self) {
        GovernanceSignal {
            collective_id: self.collective_id.twin(),
            proposal_id: self.proposal_id.twin(),
            decider: self.decider.twin(),
            outcome: self.outcome.twin(),
            task_id: self.task_id.twin(),
            claim_id: self.claim_id.twin(),
            truth_status: self.truth_status.twin(),
            reason: self.reason.twin(),
            timestamp: self.timestamp.twin(),
        }
    }
}

impl Clone for GovernanceSignal {
    fn clone(&self) -> (r: Self)
        ensures
            r.deep_view() == self.deep_view(),
    {
        self.twin()
    }
}

/// A signed workspace capability made known to the society.
#[derive(Debug, PartialEq, Eq)]
pub struct CapabilityGrant {
    pub capability: Capability,
    pub issued_at: u64,
    pub note: Option<String>,
}

/// The mathematical form of [`CapabilityGrant`].
#[verifier::ext_equal]
pub struct CapabilityGrantView {
    pub capability: CapabilityView,
    pub issued_at: u64,
    pub note: Option<Seq<char>>,
}

impl DeepView for CapabilityGrant {
    type V = CapabilityGrantView;

    open spec fn deep_view(&self) -> CapabilityGrantView {
        CapabilityGrantView {
            capability: self.capability.deep_view(),
            issued_at: self.issued_at.deep_view(),
            note: self.note.deep_view(),
        }
    }
}

impl Twin for CapabilityGrant {
    fn twin(&self) -> (r: Self) {
        CapabilityGrant {
            capability: self.capability.twin(),
            issued_at: self.issued_at.twin(),
            note: self.note.twin(),
        }
    }
}

impl Clone for CapabilityGrant {
    fn clone(&self) -> (r: Self)
        ensures
            r.deep_view() == self.deep_view(),
    {
        self.twin()
    }
}

impl Encode for CapabilityGrant {
    open spec fn wire(v: CapabilityGrantView) -> WireView {
        WireView::Record(
            Seq::<(Seq<char>, WireView)>::empty()
            .push(("capability"@, Capability::wire(v.capability)))
            .push(("issued_at"@, u64::wire(v.issued_at)))
            .push(("note"@, <Option<String> as Encode>::wire(v.note))),
        )
    }

    fn to_wire(&self) -> (r: Wire) {
        Fields::new()
            .with("capability", self.capability.to_wire())
            .with("issued_at", self.issued_at.to_wire())
            .with("note", self.note.to_wire())
            .done()
    }
}

/// A fact that revokes a capability token.
#[derive(Debug, PartialEq, Eq)]
pub struct CapabilityRevocation {
    pub issuer: Did,
    pub capability_signature_id: String,
    pub reason: Option<String>,
    pub revoked_at: u64,
}

/// The mathematical form of [`CapabilityRevocation`].
#[verifier::ext_equal]
pub struct CapabilityRevocationView {
    pub issuer: Seq<char>,
    pub capability_signature_id: Seq<char>,
    pub reason: Option<Seq<char>>,
    pub revoked_at: u64,
}

impl DeepView for CapabilityRevocation {
    type V = CapabilityRevocationView;

    open spec fn deep_view(&self) -> CapabilityRevocationView {
        CapabilityRevocationView {
            issuer: self.issuer.deep_view(),
            capability_signature_id: self.capability_signature_id.deep_view(),
            reason: self.reason.deep_view(),
            revoked_at: self.revoked_at.deep_view(),
        }
    }
}

impl Twin for CapabilityRevocation {
    fn twin(&self) -> (r: Self) {
        CapabilityRevocation {
            issuer: self.issuer.twin(),
            capability_signature_id: self.capability_signature_id.twin(),
            reason: self.reason.twin(),
            revoked_at: self.revoked_at.twin(),
        }
    }
}

impl Clone for CapabilityRevocation {
    fn clone(&self) -> (r: Self)
        ensures
            r.deep_view() == self.deep_view(),
    {
        self.twin()
    }
}

impl Encode for CapabilityRevocation {
    open spec fn wire(v: CapabilityRevocationView) -> WireView {
        WireView::Record(
            Seq::<(Seq<char>, WireView)>::empty()
            .push(("issuer"@, Did::wire(v.issuer)))
            .push(("capability_signature_id"@, String::wire(v.capability_signature_id)))
            .push(("reason"@, <Option<String> as Encode>::wire(v.reason)))
            .push(("revoked_at"@, u64::wire(v.revoked_at))),
        )
    }

    fn to_wire(&self) -> (r: Wire) {
        Fields::new()
            .with("issuer", self.issuer.to_wire())
            .with("capability_signature_id", self.capability_signature_id.to_wire())
            .with("reason", self.reason.to_wire())
            .with("revoked_at", self.revoked_at.to_wire())
            .done()
    }
}

/// A fact that marks an identity as revoked.
#[derive(Debug, PartialEq, Eq)]
pub struct IdentityRevocation {
    pub did: Did,
    pub reason: Option<String>,
    pub revoked_at: u64,
}

/// The mathematical form of [`IdentityRevocation`].
#[verifier::ext_equal]
pub struct IdentityRevocationView {
    pub did: Seq<char>,
    pub reason: Option<Seq<char>>,
    pub revoked_at: u64,
}

impl DeepView for IdentityRevocation {
    type V = IdentityRevocationView;

    open spec fn deep_view(&self) -> IdentityRevocationView {
        IdentityRevocationView {
            did: self.did.deep_view(),
            reason: self.reason.deep_view(),
            revoked_at: self.revoked_at.deep_view(),
        }
    }
}

impl Twin for IdentityRevocation {
    fn twin(&self) -> (r: Self) {
        IdentityRevocation {
            did: self.did.twin(),
            reason: self.reason.twin(),
            revoked_at: self.revoked_at.twin(),
        }
    }
}

impl Clone for IdentityRevocation {
    fn clone(&self) -> (r: Self)
        ensures
            r.deep_view() == self.deep_view(),
    {
        self.twin()
    }
}

impl Encode for IdentityRevocation {
    open spec fn wire(v: IdentityRevocationView) -> WireView {
        WireView::Record(
            Seq::<(Seq<char>, WireView)>::empty()
            .push(("did"@, Did::wire(v.did)))
            .push(("reason"@, <Option<String> as Encode>::wire(v.reason)))
            .push(("revoked_at"@, u64::wire(v.revoked_at))),
        )
    }

    fn to_wire(&self) -> (r: Wire) {
        Fields::new()
            .with("did", self.did.to_wire())
            .with("reason", self.reason.to_wire())
            .with("revoked_at", self.revoked_at.to_wire())
            .done()
    }
}

/// A fact that hands an identity over to a successor.
#[derive(Debug, PartialEq, Eq)]
pub struct IdentityRotation {
    pub previous: Did,
    pub next: Did,
    pub reason: Option<String>,
    pub rotated_at: u64,
}

/// The mathematical form of [`IdentityRotation`].
#[verifier::ext_equal]
pub struct IdentityRotationView {
    pub previous: Seq<char>,
    pub next: Seq<char>,
    pub reason: Option<Seq<char>>,
    pub rotated_at: u64,
}

impl DeepView for IdentityRotation {
    type V = IdentityRotationView;

    open spec fn deep_view(&self) -> IdentityRotationView {
        IdentityRotationView {
            previous: self.previous.deep_view(),
            next: self.next.deep_view(),
            reason: self.reason.deep_view(),
            rotated_at: self.rotated_at.deep_view(),
        }
    }
}

impl Twin for IdentityRotation {
    fn twin(&self) -> (r: Self) {
        IdentityRotation {
            previous: self.previous.twin(),
            next: self.next.twin(),
            reason: self.reason.twin(),
            rotated_at: self.rotated_at.twin(),
        }
    }
}

impl Clone for IdentityRotation {
    fn clone(&self) -> (r: Self)
        ensures
            r.deep_view() == self.deep_view(),
    {
        self.twin()
    }
}

impl Encode for IdentityRotation {
    open spec fn wire(v: IdentityRotationView) -> WireView {
        WireView::Record(
            Seq::<(Seq<char>, WireView)>::empty()
            .push(("previous"@, Did::wire(v.previous)))
            .push(("next"@, Did::wire(v.next)))
            .push(("reason"@, <Option<String> as Encode>::wire(v.reason)))
            .push(("rotated_at"@, u64::wire(v.rotated_at))),
        )
    }

    fn to_wire(&self) -> (r: Wire) {
        Fields::new()
            .with("previous", self.previous.to_wire())
            .with("next", self.next.to_wire())
            .with("reason", self.reason.to_wire())
            .with("rotated_at", self.rotated_at.to_wire())
            .done()
    }
}

/// Which guardians may recover an identity, and how many of them it takes.
#[derive(Debug, PartialEq, Eq)]
pub struct IdentityRecoveryPolicy {
    pub identity: Did,
    pub guardians: Vec<Did>,
    pub threshold: usize,
    pub updated_at: u64,
}

/// The mathematical form of [`IdentityRecoveryPolicy`].
#[verifier::ext_equal]
pub struct IdentityRecoveryPolicyView {
    pub identity: Seq<char>,
    pub guardians: Seq<Seq<char>>,
    pub threshold: usize,
    pub updated_at: u64,
}

impl DeepView for IdentityRecoveryPolicy {
    type V = IdentityRecoveryPolicyView;

    open spec fn deep_view(&self) -> IdentityRecoveryPolicyView {
        IdentityRecoveryPolicyView {
            identity: self.identity.deep_view(),
            guardians: self.guardians.deep_view(),
            threshold: self.threshold.deep_view(),
            updated_at: self.updated_at.deep_view(),
        }
    }
}

impl Twin for IdentityRecoveryPolicy {
    fn twin(&self) -> (r: Self) {
        IdentityRecoveryPolicy {
            identity: self.identity.twin(),
            guardians: self.guardians.twin(),
            threshold: self.threshold.twin(),
            updated_at: self.updated_at.twin(),
        }
    }
}

impl Clone for IdentityRecoveryPolicy {
    fn clone(&self) -> (r: Self)
        ensures
            r.deep_view() == self.deep_view(),
    {
        self.twin()
    }
}

impl Encode for IdentityRecoveryPolicy {
    open spec fn wire(v: IdentityRecoveryPolicyView) -> WireView {
        WireView::Record(
            Seq::<(Seq<char>, WireView)>::empty()
            .push(("identity"@, Did::wire(v.identity)))
            .push(("guardians"@, <Vec<Did> as Encode>::wire(v.guardians)))
            .push(("threshold"@, usize::wire(v.threshold)))
            .push(("updated_at"@, u64::wire(v.updated_at))),
        )
    }

    fn to_wire(&self) -> (r: Wire) {
        Fields::new()
            .with("identity", self.identity.to_wire())
            .with("guardians", self.guardians.to_wire())
            .with("threshold", self.threshold.to_wire())
            .with("updated_at", self.updated_at.to_wire())
            .done()
    }
}

/// A guardian's approval of a successor for a lost identity.
#[derive(Debug, PartialEq, Eq)]
pub struct IdentityRecoveryApproval {
    pub identity: Did,
    pub guardian: Did,
    pub recovered: Did,
    pub reason: Option<String>,
    pub approved_at: u64,
}

/// The mathematical form of [`IdentityRecoveryApproval`].
#[verifier::ext_equal]
pub struct IdentityRecoveryApprovalView {
    pub identity: Seq<char>,
    pub guardian: Seq<char>,
    pub recovered: Seq<char>,
    pub reason: Option<Seq<char>>,
    pub approved_at: u64,
}

impl DeepView for IdentityRecoveryApproval {
    type V = IdentityRecoveryApprovalView;

    open spec fn deep_view(&self) -> IdentityRecoveryApprovalView {
        IdentityRecoveryApprovalView {
            identity: self.identity.deep_view(),
            guardian: self.guardian.deep_view(),
            recovered: self.recovered.deep_view(),
            reason: self.reason.deep_view(),
            approved_at: self.approved_at.deep_view(),
        }
    }
}

impl Twin for IdentityRecoveryApproval {
    fn twin(&self) -> (r: Self) {
        IdentityRecoveryApproval {
            identity: self.identity.twin(),
            guardian: self.guardian.twin(),
            recovered: self.recovered.twin(),
            reason: self.reason.twin(),
            approved_at: self.approved_at.twin(),
        }
    }
}

impl Clone for IdentityRecoveryApproval {
    fn clone(&self) -> (r: Self)
        ensures
            r.deep_view() == self.deep_view(),
    {
        self.twin()
    }
}

impl Encode for IdentityRecoveryApproval {
    open spec fn wire(v: IdentityRecoveryApprovalView) -> WireView {
        WireView::Record(
            Seq::<(Seq<char>, WireView)>::empty()
            .push(("identity"@, Did::wire(v.identity)))
            .push(("guardian"@, Did::wire(v.guardian)))
            .push(("recovered"@, Did::wire(v.recovered)))
            .push(("reason"@, <Option<String> as Encode>::wire(v.reason)))
            .push(("approved_at"@, u64::wire(v.approved_at))),
        )
    }

    fn to_wire(&self) -> (r: Wire) {
        Fields::new()
            .with("identity", self.identity.to_wire())
            .with("guardian", self.guardian.to_wire())
            .with("recovered", self.recovered.to_wire())
            .with("reason", self.reason.to_wire())
            .with("approved_at", self.approved_at.to_wire())
            .done()
    }
}

/// A signed claim that an agent saw or made a workspace snapshot.
#[derive(Debug, PartialEq, Eq)]
pub struct WorkspaceSnapshot {
    pub workspace: WorkspaceId,
    pub actor: Did,
    pub root: Cid,
    pub label: Option<String>,
    pub note: Option<String>,
    pub timestamp: u64,
}

/// The mathematical form of [`WorkspaceSnapshot`].
#[verifier::ext_equal]
pub struct WorkspaceSnapshotView {
    pub workspace: Seq<u8>,
    pub actor: Seq<char>,
    pub root: Seq<u8>,
    pub label: Option<Seq<char>>,
    pub note: Option<Seq<char>>,
    pub timestamp: u64,
}

impl DeepView for WorkspaceSnapshot {
    type V = WorkspaceSnapshotView;

    open spec fn deep_view(&self) -> WorkspaceSnapshotView {
        WorkspaceSnapshotView {
            workspace: self.workspace.deep_view(),
            actor: self.actor.deep_view(),
            root: self.root.deep_view(),
            label: self.label.deep_view(),
            note: self.note.deep_view(),
            timestamp: self.timestamp.deep_view(),
        }
    }
}

impl Twin for WorkspaceSnapshot {
    fn twin(&self) -> (r: Self) {
        WorkspaceSnapshot {
            workspace: self.workspace.twin(),
            actor: self.actor.twin(),
            root: self.root.twin(),
            label: self.label.twin(),
            note: self.note.twin(),
            timestamp: self.timestamp.twin(),
        }
    }
}

impl Clone for WorkspaceSnapshot {
    fn clone(&self) -> (r: Self)
        ensures
            r.deep_view() == self.deep_view(),
    {
        self.twin()
    }
}

impl Encode for WorkspaceSnapshot {
    open spec fn wire(v: WorkspaceSnapshotView) -> WireView {
        WireView::Record(
            Seq::<(Seq<char>, WireView)>::empty()
            .push(("workspace"@, WorkspaceId::wire(v.workspace)))
            .push(("actor"@, Did::wire(v.actor)))
            .push(("root"@, Cid::wire(v.root)))
            .push(("label"@, <Option<String> as Encode>::wire(v.label)))
            .push(("note"@, <Option<String> as Encode>::wire(v.note)))
            .push(("timestamp"@, u64::wire(v.timestamp))),
        )
    }

    fn to_wire(&self) -> (r: Wire) {
        Fields::new()
            .with("workspace", self.workspace.to_wire())
            .with("actor", self.actor.to_wire())
            .with("root", self.root.to_wire())
            .with("label", self.label.to_wire())
            .with("note", self.note.to_wire())
            .with("timestamp", self.timestamp.to_wire())
            .done()
    }
}

/// Evidence of the input of a workspace run.
#[derive(Debug, PartialEq, Eq)]
pub struct WorkspaceRunStdin {
    pub bytes: u64,
    pub cid: Cid,
}

/// The mathematical form of [`WorkspaceRunStdin`].
#[verifier::ext_equal]
pub struct WorkspaceRunStdinView {
    pub bytes: u64,
    pub cid: Seq<u8>,
}

impl DeepView for WorkspaceRunStdin {
    type V = WorkspaceRunStdinView;

    open spec fn deep_view(&self) -> WorkspaceRunStdinView {
        WorkspaceRunStdinView {
            bytes: self.bytes.deep_view(),
            cid: self.cid.deep_view(),
        }
    }
}

impl Twin for WorkspaceRunStdin {
    fn twin(&self) -> (r: Self) {
        WorkspaceRunStdin {
            bytes: self.bytes.twin(),
            cid: self.cid.twin(),
        }
    }
}

impl Clone for WorkspaceRunStdin {
    fn clone(&self) -> (r: Self)
        ensures
            r.deep_view() == self.deep_view(),
    {
        self.twin()
    }
}

impl Encode for WorkspaceRunStdin {
    open spec fn wire(v: WorkspaceRunStdinView) -> WireView {
        WireView::Record(
            Seq::<(Seq<char>, WireView)>::empty()
            .push(("bytes"@, u64::wire(v.bytes)))
            .push(("cid"@, Cid::wire(v.cid))),
        )
    }

    fn to_wire(&self) -> (r: Wire) {
        Fields::new()
            .with("bytes", self.bytes.to_wire())
            .with("cid", self.cid.to_wire())
            .done()
    }
}

/// How a workspace run was invoked, without secrets.
#[derive(Debug, PartialEq, Eq)]
pub struct WorkspaceRunContext {
    pub working_dir: Option<String>,
    pub env_keys: Vec<String>,
    pub stdin: Option<WorkspaceRunStdin>,
    pub timeout_ms: Option<u64>,
}

/// The mathematical form of [`WorkspaceRunContext`].
#[verifier::ext_equal]
pub struct WorkspaceRunContextView {
    pub working_dir: Option<Seq<char>>,
    pub env_keys: Seq<Seq<char>>,
    pub stdin: Option<WorkspaceRunStdinView>,
    pub timeout_ms: Option<u64>,
}

impl DeepView for WorkspaceRunContext {
    type V = WorkspaceRunContextView;

    open spec fn deep_view(&self) -> WorkspaceRunContextView {
        WorkspaceRunContextView {
            working_dir: self.working_dir.deep_view(),
            env_keys: self.env_keys.deep_view(),
            stdin: self.stdin.deep_view(),
            timeout_ms: self.timeout_ms.deep_view(),
        }
    }
}

impl Twin for WorkspaceRunContext {
    fn twin(&self) -> (r: Self) {
        WorkspaceRunContext {
            working_dir: self.working_dir.twin(),
            env_keys: self.env_keys.twin(),
            stdin: self.stdin.twin(),
            timeout_ms: self.timeout_ms.twin(),
        }
    }
}

impl Clone for WorkspaceRunContext {
    fn clone(&self) -> (r: Self)
        ensures
            r.deep_view() == self.deep_view(),
    {
        self.twin()
    }
}

impl Encode for WorkspaceRunContext {
    open spec fn wire(v: WorkspaceRunContextView) -> WireView {
        WireView::Record(
            push_some(
push_some(
push_some(
push_some(
Seq::<(Seq<char>, WireView)>::empty(),
"working_dir"@,
some_wire::<String>(v.working_dir),
),
"env_keys"@,
nonempty_wire::<String>(v.env_keys),
),
"stdin"@,
some_wire::<WorkspaceRunStdin>(v.stdin),
),
"timeout_ms"@,
some_wire::<u64>(v.timeout_ms),
),
        )
    }

    fn to_wire(&self) -> (r: Wire) {
        Fields::new()
            .with_some("working_dir", to_some_wire(&self.working_dir))
            .with_some("env_keys", to_nonempty_wire(&self.env_keys))
            .with_some("stdin", to_some_wire(&self.stdin))
            .with_some("timeout_ms", to_some_wire(&self.timeout_ms))
            .done()
    }
}

/// Why a run produced no process output.
#[derive(Debug, PartialEq, Eq)]
pub struct WorkspaceRunFailure {
    pub kind: String,
    pub message: String,
}

/// The mathematical form of [`WorkspaceRunFailure`].
#[verifier::ext_equal]
pub struct WorkspaceRunFailureView {
    pub kind: Seq<char>,
    pub message: Seq<char>,
}

impl DeepView for WorkspaceRunFailure {
    type V = WorkspaceRunFailureView;

    open spec fn deep_view(&self) -> WorkspaceRunFailureView {
        WorkspaceRunFailureView {
            kind: self.kind.deep_view(),
            message: self.message.deep_view(),
        }
    }
}

impl Twin for WorkspaceRunFailure {
    fn twin(&self) -> (r: Self) {
        WorkspaceRunFailure {
            kind: self.kind.twin(),
            message: self.message.twin(),
        }
    }
}

impl Clone for WorkspaceRunFailure {
    fn clone(&self) -> (r: Self)
        ensures
            r.deep_view() == self.deep_view(),
    {
        self.twin()
    }
}

impl Encode for WorkspaceRunFailure {
    open spec fn wire(v: WorkspaceRunFailureView) -> WireView {
        WireView::Record(
            Seq::<(Seq<char>, WireView)>::empty()
            .push(("kind"@, String::wire(v.kind)))
            .push(("message"@, String::wire(v.message))),
        )
    }

    fn to_wire(&self) -> (r: Wire) {
        Fields::new()
            .with("kind", self.kind.to_wire())
            .with("message", self.message.to_wire())
            .done()
    }
}

/// A signed claim that an agent ran a command in a workspace.
#[derive(Debug, PartialEq, Eq)]
pub struct WorkspaceRun {
    pub workspace: WorkspaceId,
    pub actor: Did,
    pub command: String,
    pub args: Vec<String>,
    pub exit_code: i32,
    pub stdout: Cid,
    pub stderr: Cid,
    pub output_root: Option<Cid>,
    pub resources: ResourceUsage,
    pub context: Option<WorkspaceRunContext>,
    pub failure: Option<WorkspaceRunFailure>,
    pub started_at: u64,
    pub finished_at: u64,
    pub note: Option<String>,
}

/// The mathematical form of [`WorkspaceRun`].
#[verifier::ext_equal]
pub struct WorkspaceRunView {
    pub workspace: Seq<u8>,
    pub actor: Seq<char>,
    pub command: Seq<char>,
    pub args: Seq<Seq<char>>,
    pub exit_code: i32,
    pub stdout: Seq<u8>,
    pub stderr: Seq<u8>,
    pub output_root: Option<Seq<u8>>,
    pub resources: ResourceUsageView,
    pub context: Option<WorkspaceRunContextView>,
    pub failure: Option<WorkspaceRunFailureView>,
    pub started_at: u64,
    pub finished_at: u64,
    pub note: Option<Seq<char>>,
}

impl DeepView for WorkspaceRun {
    type V = WorkspaceRunView;

    open spec fn deep_view(&self) -> WorkspaceRunView {
        WorkspaceRunView {
            workspace: self.workspace.deep_view(),
            actor: self.actor.deep_view(),
            command: self.command.deep_view(),
            args: self.args.deep_view(),
            exit_code: self.exit_code.deep_view(),
            stdout: self.stdout.deep_view(),
            stderr: self.stderr.deep_view(),
            output_root: self.output_root.deep_view(),
            resources: self.resources.deep_view(),
            context: self.context.deep_view(),
            failure: self.failure.deep_view(),
            started_at: self.started_at.deep_view(),
            finished_at: self.finished_at.deep_view(),
            note: self.note.deep_view(),
        }
    }
}

impl Twin for WorkspaceRun {
    fn twin(&self) -> (r: Self) {
        WorkspaceRun {
            workspace: self.workspace.twin(),
            actor: self.actor.twin(),
            command: self.command.twin(),
            args: self.args.twin(),
            exit_code: self.exit_code.twin(),
            stdout: self.stdout.twin(),
            stderr: self.stderr.twin(),
            output_root: self.output_root.twin(),
            resources: self.resources.twin(),
            context: self.context.twin(),
            failure: self.failure.twin(),
            started_at: self.started_at.twin(),
            finished_at: self.finished_at.twin(),
            note: self.note.twin(),
        }
    }
}

impl Clone for WorkspaceRun {
    fn clone(&self) -> (r: Self)
        ensures
            r.deep_view() == self.deep_view(),
    {
        self.twin()
    }
}

impl Encode for WorkspaceRun {
    open spec fn wire(v: WorkspaceRunView) -> WireView {
        WireView::Record(
            push_some(
push_some(
Seq::<(Seq<char>, WireView)>::empty()
            .push(("workspace"@, WorkspaceId::wire(v.workspace)))
            .push(("actor"@, Did::wire(v.actor)))
            .push(("command"@, String::wire(v.command)))
            .push(("args"@, <Vec<String> as Encode>::wire(v.args)))
            .push(("exit_code"@, i32::wire(v.exit_code)))
            .push(("stdout"@, Cid::wire(v.stdout)))
            .push(("stderr"@, Cid::wire(v.stderr)))
            .push(("output_root"@, <Option<Cid> as Encode>::wire(v.output_root)))
            .push(("resources"@, ResourceUsage::wire(v.resources))),
"context"@,
some_wire::<WorkspaceRunContext>(v.context),
),
"failure"@,
some_wire::<WorkspaceRunFailure>(v.failure),
)
            .push(("started_at"@, u64::wire(v.started_at)))
            .push(("finished_at"@, u64::wire(v.finished_at)))
            .push(("note"@, <Option<String> as Encode>::wire(v.note))),
        )
    }

    fn to_wire(&self) -> (r: Wire) {
        Fields::new()
            .with("workspace", self.workspace.to_wire())
            .with("actor", self.actor.to_wire())
            .with("command", self.command.to_wire())
            .with("args", self.args.to_wire())
            .with("exit_code", self.exit_code.to_wire())
            .with("stdout", self.stdout.to_wire())
            .with("stderr", self.stderr.to_wire())
            .with("output_root", self.output_root.to_wire())
            .with("resources", self.resources.to_wire())
            .with_some("context", to_some_wire(&self.context))
            .with_some("failure", to_some_wire(&self.failure))
            .with("started_at", self.started_at.to_wire())
            .with("finished_at", self.finished_at.to_wire())
            .with("note", self.note.to_wire())
            .done()
    }
}

/// A signed declaration of what an agent wants, needs, offers or proposes.
#[derive(Debug, PartialEq, Eq)]
pub struct AgentIntent {
    pub id: String,
    pub author: Did,
    pub kind: IntentKind,
    pub title: String,
    pub body: String,
    pub workspace: Option<WorkspaceId>,
    pub task_id: Option<String>,
    pub capability: Option<String>,
    pub tags: Vec<String>,
    pub created_at: u64,
    pub expires_at: Option<u64>,
}

/// The mathematical form of [`AgentIntent`].
#[verifier::ext_equal]
pub struct AgentIntentView {
    pub id: Seq<char>,
    pub author: Seq<char>,
    pub kind: IntentKind,
    pub title: Seq<char>,
    pub body: Seq<char>,
    pub workspace: Option<Seq<u8>>,
    pub task_id: Option<Seq<char>>,
    pub capability: Option<Seq<char>>,
    pub tags: Seq<Seq<char>>,
    pub created_at: u64,
    pub expires_at: Option<u64>,
}

impl DeepView for AgentIntent {
    type V = AgentIntentView;

    open spec fn deep_view(&self) -> AgentIntentView {
        AgentIntentView {
            id: self.id.deep_view(),
            author: self.author.deep_view(),
            kind: self.kind.deep_view(),
            title: self.title.deep_view(),
            body: self.body.deep_view(),
            workspace: self.workspace.deep_view(),
            task_id: self.task_id.deep_view(),
            capability: self.capability.deep_view(),
            tags: self.tags.deep_view(),
            created_at: self.created_at.deep_view(),
            expires_at: self.expires_at.deep_view(),
        }
    }
}

impl Twin for AgentIntent {
    fn twin(&self) -> (r: Self) {
        AgentIntent {
            id: self.id.twin(),
            author: self.author.twin(),
            kind: self.kind.twin(),
            title: self.title.twin(),
            body: self.body.twin(),
            workspace: self.workspace.twin(),
            task_id: self.task_id.twin(),
            capability: self.capability.twin(),
            tags: self.tags.twin(),
            created_at: self.created_at.twin(),
            expires_at: self.expires_at.twin(),
        }
    }
}

impl Clone for AgentIntent {
    fn clone(&self) -> (r: Self)
        ensures
            r.deep_view() == self.deep_view(),
    {
        self.twin()
    }
}

impl Encode for AgentIntent {
    open spec fn wire(v: AgentIntentView) -> WireView {
        WireView::Record(
            Seq::<(Seq<char>, WireView)>::empty()
            .push(("id"@, String::wire(v.id)))
            .push(("author"@, Did::wire(v.author)))
            .push(("kind"@, IntentKind::wire(v.kind)))
            .push(("title"@, String::wire(v.title)))
            .push(("body"@, String::wire(v.body)))
            .push(("workspace"@, <Option<WorkspaceId> as Encode>::wire(v.workspace)))
            .push(("task_id"@, <Option<String> as Encode>::wire(v.task_id)))
            .push(("capability"@, <Option<String> as Encode>::wire(v.capability)))
            .push(("tags"@, <Vec<String> as Encode>::wire(v.tags)))
            .push(("created_at"@, u64::wire(v.created_at)))
            .push(("expires_at"@, <Option<u64> as Encode>::wire(v.expires_at))),
        )
    }

    fn to_wire(&self) -> (r: Wire) {
        Fields::new()
            .with("id", self.id.to_wire())
            .with("author", self.author.to_wire())
            .with("kind", self.kind.to_wire())
            .with("title", self.title.to_wire())
            .with("body", self.body.to_wire())
            .with("workspace", self.workspace.to_wire())
            .with("task_id", self.task_id.to_wire())
            .with("capability", self.capability.to_wire())
            .with("tags", self.tags.to_wire())
            .with("created_at", self.created_at.to_wire())
            .with("expires_at", self.expires_at.to_wire())
            .done()
    }
}

/// A signed response to another agent's intent.
#[derive(Debug, PartialEq, Eq)]
pub struct IntentResponse {
    pub id: String,
    pub intent_id: String,
    pub responder: Did,
    pub kind: IntentResponseKind,
    pub body: String,
    pub workspace: Option<WorkspaceId>,
    pub task_id: Option<String>,
    pub capability: Option<String>,
    pub evidence: Option<String>,
    pub created_at: u64,
}

/// The mathematical form of [`IntentResponse`].
#[verifier::ext_equal]
pub struct IntentResponseView {
    pub id: Seq<char>,
    pub intent_id: Seq<char>,
    pub responder: Seq<char>,
    pub kind: IntentResponseKind,
    pub body: Seq<char>,
    pub workspace: Option<Seq<u8>>,
    pub task_id: Option<Seq<char>>,
    pub capability: Option<Seq<char>>,
    pub evidence: Option<Seq<char>>,
    pub created_at: u64,
}

impl DeepView for IntentResponse {
    type V = IntentResponseView;

    open spec fn deep_view(&self) -> IntentResponseView {
        IntentResponseView {
            id: self.id.deep_view(),
            intent_id: self.intent_id.deep_view(),
            responder: self.responder.deep_view(),
            kind: self.kind.deep_view(),
            body: self.body.deep_view(),
            workspace: self.workspace.deep_view(),
            task_id: self.task_id.deep_view(),
            capability: self.capability.deep_view(),
            evidence: self.evidence.deep_view(),
            created_at: self.created_at.deep_view(),
        }
    }
}

impl Twin for IntentResponse {
    fn twin(&self) -> (r: Self) {
        IntentResponse {
            id: self.id.twin(),
            intent_id: self.intent_id.twin(),
            responder: self.responder.twin(),
            kind: self.kind.twin(),
            body: self.body.twin(),
            workspace: self.workspace.twin(),
            task_id: self.task_id.twin(),
            capability: self.capability.twin(),
            evidence: self.evidence.twin(),
            created_at: self.created_at.twin(),
        }
    }
}

impl Clone for IntentResponse {
    fn clone(&self) -> (r: Self)
        ensures
            r.deep_view() == self.deep_view(),
    {
        self.twin()
    }
}

impl Encode for IntentResponse {
    open spec fn wire(v: IntentResponseView) -> WireView {
        WireView::Record(
            Seq::<(Seq<char>, WireView)>::empty()
            .push(("id"@, String::wire(v.id)))
            .push(("intent_id"@, String::wire(v.intent_id)))
            .push(("responder"@, Did::wire(v.responder)))
            .push(("kind"@, IntentResponseKind::wire(v.kind)))
            .push(("body"@, String::wire(v.body)))
            .push(("workspace"@, <Option<WorkspaceId> as Encode>::wire(v.workspace)))
            .push(("task_id"@, <Option<String> as Encode>::wire(v.task_id)))
            .push(("capability"@, <Option<String> as Encode>::wire(v.capability)))
            .push(("evidence"@, <Option<String> as Encode>::wire(v.evidence)))
            .push(("created_at"@, u64::wire(v.created_at))),
        )
    }

    fn to_wire(&self) -> (r: Wire) {
        Fields::new()
            .with("id", self.id.to_wire())
            .with("intent_id", self.intent_id.to_wire())
            .with("responder", self.responder.to_wire())
            .with("kind", self.kind.to_wire())
            .with("body", self.body.to_wire())
            .with("workspace", self.workspace.to_wire())
            .with("task_id", self.task_id.to_wire())
            .with("capability", self.capability.to_wire())
            .with("evidence", self.evidence.to_wire())
            .with("created_at", self.created_at.to_wire())
            .done()
    }
}

/// The text, or nothing.
pub open spec fn or_empty(v: Option<Seq<char>>) -> Seq<char> {
    match v {
        Some(s) => s,
        None => Seq::empty(),
    }
}

/// The text, or nothing.
pub fn text_or_empty(v: &Option<String>) -> (r: String)
    ensures
        r@ == or_empty(v.deep_view()),
{
    match v {
        Some(s) => s.twin(),
        None => String::new(),
    }
}

/// Whether two optional texts are equal.
pub fn same_optional(a: &Option<String>, b: &str) -> (r: bool)
    ensures
        r == (a.deep_view() == Some(b@)),
{
    match a {
        Some(s) => text::same_text(s.as_str(), b),
        None => false,
    }
}

/// The identifier of a result claim: it commits to the whole result.
pub open spec fn claim_id(v: TaskResultView) -> Seq<char> {
    outside::hex_text(outside::sha256_of(wire::json(TaskResult::wire(v))))
}

/// The stable identifier of a task result claim.
pub fn task_result_claim_id(result: &TaskResult) -> (r: String)
    ensures
        r@ == claim_id(result.deep_view()),
{
    let payload = wire::json_bytes(&result.to_wire());
    outside::hex_encode(outside::sha256(payload.as_slice()).as_slice())
}

/// Draws a random identifier.
pub fn random_social_id() -> (r: String)
    ensures
        random_form(r@),
{
    random_id()
}

/// The identifier of a capability signature.
pub fn capability_signature_id(signature: &[u8]) -> (r: String)
    ensures
        r@ == outside::hex_text(outside::sha256_of(signature@)),
{
    outside::hex_encode(outside::sha256(signature).as_slice())
}

/// Tests for one of two outcomes.
pub open spec fn either(a: InteractionOutcome, b: InteractionOutcome) -> spec_fn(
    InteractionOutcome,
) -> bool {
    |o: InteractionOutcome| o == a || o == b
}

/// How often an outcome occurs, of one or the other kind.
pub open spec fn occurrences(
    history: Seq<InteractionOutcome>,
    a: InteractionOutcome,
    b: InteractionOutcome,
) -> nat {
    history.filter(either(a, b)).len()
}

fn count_outcomes(history: &Vec<InteractionOutcome>, a: InteractionOutcome, b: InteractionOutcome) -> (r:
    u64)
    ensures
        r == occurrences(history.deep_view(), a, b),
{
    let ghost all = history.deep_view();
    let ghost test = either(a, b);
    let mut count: u64 = 0;
    let mut i: usize = 0;
    proof {
        reveal(Seq::filter);
        assert(all.subrange(0, 0).filter(test).len() == 0);
    }
    while i < history.len()
        invariant
            i <= history@.len(),
            all == history.deep_view(),
            test == either(a, b),
            count <= i,
            count == all.subrange(0, i as int).filter(test).len(),
        decreases history@.len() - i,
    {
        proof {
            reveal(Seq::filter);
            let upto = all.subrange(0, i + 1);
            assert(upto.drop_last() =~= all.subrange(0, i as int));
            assert(upto.last() == history@[i as int]);
        }
        let o = history[i];
        if o == a || o == b {
            count = count + 1;
        }
        i = i + 1;
    }
    assert(all.subrange(0, i as int) =~= all);
    count
}

impl SocialEdge {
    /// A relation without history.
    pub fn new(from: Did, to: Did, kind: RelationKind, now: u64) -> (r: Self)
        ensures
            r.deep_view() == new_edge(from.deep_view(), to.deep_view(), kind, now),
    {
        let r = SocialEdge {
            from,
            to,
            kind,
            history: Vec::new(),
            created_at: now,
            updated_at: now,
            notes: Vec::new(),
        };
        assert(r.deep_view() =~~= new_edge(from.deep_view(), to.deep_view(), kind, now));
        r
    }

    /// The number of successful interactions.
    pub fn successes(&self) -> (r: u64)
        ensures
            r == occurrences(
                self.deep_view().history,
                InteractionOutcome::Success,
                InteractionOutcome::Success,
            ),
    {
        count_outcomes(&self.history, InteractionOutcome::Success, InteractionOutcome::Success)
    }

    /// The number of failed or disputed interactions.
    pub fn failures(&self) -> (r: u64)
        ensures
            r == occurrences(
                self.deep_view().history,
                InteractionOutcome::Failure,
                InteractionOutcome::Dispute,
            ),
    {
        count_outcomes(&self.history, InteractionOutcome::Failure, InteractionOutcome::Dispute)
    }

    /// Remembers the outcome of an interaction.
    pub fn record_outcome(&mut self, outcome: InteractionOutcome, now: u64)
        ensures
            final(self).deep_view() == edge_after(old(self).deep_view(), outcome, now),
    {
        let ghost before = self.history.deep_view();
        self.history.push(outcome);
        assert(self.history.deep_view() =~= before.push(outcome));
        self.updated_at = now;
    }
}

/// A relation without history.
pub open spec fn new_edge(
    from: Seq<char>,
    to: Seq<char>,
    kind: RelationKind,
    now: u64,
) -> SocialEdgeView {
    SocialEdgeView {
        from,
        to,
        kind,
        history: Seq::empty(),
        created_at: now,
        updated_at: now,
        notes: Seq::empty(),
    }
}

/// A relation after an interaction.
pub open spec fn edge_after(v: SocialEdgeView, outcome: InteractionOutcome, now: u64) -> SocialEdgeView {
    SocialEdgeView { history: v.history.push(outcome), updated_at: now, ..v }
}

/// A memory without history.
pub open spec fn new_reputation(subject: Seq<char>, now: u64) -> ReputationScoreView {
    ReputationScoreView {
        subject,
        history: Seq::empty(),
        judged: Seq::empty(),
        first_seen: now,
        last_seen: now,
    }
}

/// A memory after an outcome was counted, without a judgment by it.
pub open spec fn counted_after(
    v: ReputationScoreView,
    outcome: InteractionOutcome,
    now: u64,
) -> ReputationScoreView {
    ReputationScoreView { history: v.history.push(outcome), last_seen: now, ..v }
}

/// A memory after an interaction, by which the agent is judged.
pub open spec fn reputation_after(
    v: ReputationScoreView,
    outcome: InteractionOutcome,
    now: u64,
) -> ReputationScoreView {
    ReputationScoreView { judged: v.judged.push(outcome), ..counted_after(v, outcome, now) }
}

impl ReputationScore {
    /// A memory without history.
    pub fn new(subject: Did, now: u64) -> (r: Self)
        ensures
            r.deep_view() == new_reputation(subject.deep_view(), now),
    {
        let r = ReputationScore {
            subject,
            history: Vec::new(),
            judged: Vec::new(),
            first_seen: now,
            last_seen: now,
        };
        assert(r.deep_view() =~~= new_reputation(subject.deep_view(), now));
        r
    }

    fn count(&mut self, outcome: InteractionOutcome, now: u64)
        ensures
            final(self).deep_view() == counted_after(old(self).deep_view(), outcome, now),
    {
        let ghost before = self.history.deep_view();
        self.history.push(outcome);
        assert(self.history.deep_view() =~= before.push(outcome));
        self.last_seen = now;
    }

    /// Remembers an outcome and judges the agent by it.
    pub fn record(&mut self, outcome: InteractionOutcome, now: u64)
        ensures
            final(self).deep_view() == reputation_after(old(self).deep_view(), outcome, now),
    {
        let ghost before = self.judged.deep_view();
        self.judged.push(outcome);
        assert(self.judged.deep_view() =~= before.push(outcome));
        self.count(outcome, now);
    }

    /// Counts a successful interaction.
    pub fn record_success(&mut self, now: u64)
        ensures
            final(self).deep_view() == counted_after(
                old(self).deep_view(),
                InteractionOutcome::Success,
                now,
            ),
    {
        self.count(InteractionOutcome::Success, now);
    }

    /// Counts a failed interaction.
    pub fn record_failure(&mut self, now: u64)
        ensures
            final(self).deep_view() == counted_after(
                old(self).deep_view(),
                InteractionOutcome::Failure,
                now,
            ),
    {
        self.count(InteractionOutcome::Failure, now);
    }

    /// The number of successful interactions.
    pub fn successes(&self) -> (r: u64)
        ensures
            r == occurrences(
                self.deep_view().history,
                InteractionOutcome::Success,
                InteractionOutcome::Success,
            ),
    {
        count_outcomes(&self.history, InteractionOutcome::Success, InteractionOutcome::Success)
    }

    /// The number of failed or disputed interactions.
    pub fn failures(&self) -> (r: u64)
        ensures
            r == occurrences(
                self.deep_view().history,
                InteractionOutcome::Failure,
                InteractionOutcome::Dispute,
            ),
    {
        count_outcomes(&self.history, InteractionOutcome::Failure, InteractionOutcome::Dispute)
    }
}

impl Interaction {
    /// A memory with a random identifier and no evidence.
    pub fn new(
        from: Did,
        to: Did,
        workspace: Option<WorkspaceId>,
        topic: &str,
        outcome: InteractionOutcome,
        timestamp: u64,
    ) -> (r: Self)
        ensures
            random_form(r.deep_view().id),
            r.deep_view() == (InteractionView {
                id: r.deep_view().id,
                from: from.deep_view(),
                to: to.deep_view(),
                workspace: workspace.deep_view(),
                topic: topic@,
                outcome,
                timestamp,
                evidence: None,
            }),
    {
        Interaction {
            id: random_id(),
            from,
            to,
            workspace,
            topic: text::owned(topic),
            outcome,
            timestamp,
            evidence: None,
        }
    }
}

/// Whether an optional anchor is well formed.
pub open spec fn optional_anchor_valid(anchor: Option<AuthorityAnchorView>) -> Result<
    (),
    SettlementErrorView,
> {
    match anchor {
        Some(a) => anchor_valid(a),
        None => Ok(()),
    }
}

impl CollectiveDecision {
    /// Checks the anchor, where there is one.
    pub fn validate_anchor(&self) -> (r: Result<(), SettlementError>)
        ensures
            outcome(r) == optional_anchor_valid(self.deep_view().anchor),
    {
        match &self.anchor {
            Some(anchor) => anchor.validate(),
            None => Ok(()),
        }
    }
}

/// Whether the proof of a settlement holds for its terms.
pub open spec fn settlement_valid(v: SettlementRecordView) -> Result<(), SettlementErrorView> {
    proof_settles(v.proof_of_payment, v.payer, v.payee, v.amount)
}

impl SettlementRecord {
    /// Checks the proof against the terms.
    pub fn validate(&self) -> (r: Result<(), SettlementError>)
        ensures
            outcome(r) == settlement_valid(self.deep_view()),
    {
        self.proof_of_payment.validate_for_settlement(&self.payer, &self.payee, self.amount)
    }

    /// Whether the proof by itself is anchored.
    pub fn truth_status(&self) -> (r: FactTruthStatus)
        ensures
            r == (match self.deep_view().proof_of_payment {
                SettlementProofView::AnchoredCheckpoint(p) => if anchored_valid(p) is Ok {
                    FactTruthStatus::Anchored
                } else {
                    FactTruthStatus::Claimed
                },
                _ => FactTruthStatus::Claimed,
            }),
    {
        match &self.proof_of_payment {
            SettlementProof::AnchoredCheckpoint(p) => if p.validate().is_ok() {
                FactTruthStatus::Anchored
            } else {
                FactTruthStatus::Claimed
            },
            _ => FactTruthStatus::Claimed,
        }
    }

    /// The anchor of the proof, if it has one.
    pub fn authority_anchor(&self) -> (r: Option<&AuthorityAnchor>)
        ensures
            r.deep_view() == (match self.deep_view().proof_of_payment {
                SettlementProofView::AnchoredCheckpoint(p) => Some(p.anchor),
                _ => None,
            }),
    {
        match &self.proof_of_payment {
            SettlementProof::AnchoredCheckpoint(p) => Some(&p.anchor),
            _ => None,
        }
    }

    /// The subject of the checkpoint, if there is one.
    pub fn checkpoint_subject(&self) -> (r: Option<&str>)
        ensures
            (match r {
                Some(s) => Some(s@),
                None => None,
            }) == (match self.deep_view().proof_of_payment {
                SettlementProofView::AnchoredCheckpoint(p) => Some(p.checkpoint.subject),
                _ => None,
            }),
    {
        match &self.proof_of_payment {
            SettlementProof::AnchoredCheckpoint(p) => Some(p.checkpoint.subject.as_str()),
            _ => None,
        }
    }
}

impl WorkspaceRunContext {
    /// Whether nothing is recorded.
    pub fn is_empty(&self) -> (r: bool)
        ensures
            r == ({
                let v = self.deep_view();
                &&& v.working_dir is None
                &&& v.env_keys.len() == 0
                &&& v.stdin is None
                &&& v.timeout_ms is None
            }),
    {
        self.working_dir.is_none() && self.env_keys.len() == 0 && self.stdin.is_none()
            && self.timeout_ms.is_none()
    }
}

impl AgentIntent {
    /// An intent with a random identifier.
    pub fn new(
        author: Did,
        kind: IntentKind,
        title: &str,
        body: &str,
        workspace: Option<WorkspaceId>,
        task_id: Option<String>,
        capability: Option<String>,
        tags: Vec<String>,
        created_at: u64,
        expires_at: Option<u64>,
    ) -> (r: Self)
        ensures
            random_form(r.deep_view().id),
            r.deep_view() == (AgentIntentView {
                id: r.deep_view().id,
                author: author.deep_view(),
                kind,
                title: title@,
                body: body@,
                workspace: workspace.deep_view(),
                task_id: task_id.deep_view(),
                capability: capability.deep_view(),
                tags: tags.deep_view(),
                created_at,
                expires_at: expires_at.deep_view(),
            }),
    {
        AgentIntent {
            id: random_social_id(),
            author,
            kind,
            title: text::owned(title),
            body: text::owned(body),
            workspace,
            task_id,
            capability,
            tags,
            created_at,
            expires_at,
        }
    }
}

impl IntentResponse {
    /// A response with a random identifier.
    pub fn new(
        intent_id: &str,
        responder: Did,
        kind: IntentResponseKind,
        body: &str,
        workspace: Option<WorkspaceId>,
        task_id: Option<String>,
        capability: Option<String>,
        evidence: Option<String>,
        created_at: u64,
    ) -> (r: Self)
        ensures
            random_form(r.deep_view().id),
            r.deep_view() == (IntentResponseView {
                id: r.deep_view().id,
                intent_id: intent_id@,
                responder: responder.deep_view(),
                kind,
                body: body@,
                workspace: workspace.deep_view(),
                task_id: task_id.deep_view(),
                capability: capability.deep_view(),
                evidence: evidence.deep_view(),
                created_at,
            }),
    {
        IntentResponse {
            id: random_social_id(),
            intent_id: text::owned(intent_id),
            responder,
            kind,
            body: text::owned(body),
            workspace,
            task_id,
            capability,
            evidence,
            created_at,
        }
    }
}

} // verus!
