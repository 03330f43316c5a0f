//! What documents promise: no two facts have the same document, so that a
//! signature or a hash over a document commits to the whole fact.
use crate::facts::{
    AgentIntent, AgentIntentView, CapabilityRevocation, CapabilityRevocationView,
    CollectiveDecision, CollectiveDecisionOutcome, CollectiveDecisionView, CollectiveProposal,
    CollectiveProposalView, CollectiveVote, CollectiveVoteChoice, CollectiveVoteView,
    IdentityRecoveryApproval, IdentityRecoveryApprovalView, IdentityRecoveryPolicy,
    IdentityRecoveryPolicyView, IdentityRevocation, IdentityRevocationView, IdentityRotation,
    IdentityRotationView, IntentKind, IntentResponse, IntentResponseKind, IntentResponseView,
    Interaction, InteractionOutcome, InteractionView, RelationKind, TaskDispute, TaskDisputeView,
    WorkspaceOwnershipClaim, WorkspaceOwnershipClaimView, WorkspaceRun, WorkspaceRunContext,
    WorkspaceRunContextView, WorkspaceRunFailure, WorkspaceRunFailureView, WorkspaceRunStdin,
    WorkspaceRunStdinView, WorkspaceRunView, WorkspaceSnapshot, WorkspaceSnapshotView,
};
use crate::manifest::{AgentManifest, AgentManifestView, CapabilityDecl, CapabilityDeclView};
use crate::outside;
use crate::settlement::{
    AuthorityAnchor, AuthorityAnchorView, AuthorityKind, ExternalPaymentSettlement,
    ExternalPaymentSettlementView, LightningSettlement, LightningSettlementView,
    MutualCreditSettlement, MutualCreditSettlementView, StateCheckpoint, StateCheckpointView,
};
use crate::task::{
    ExecutionAttestation, ExecutionAttestationView, ExecutionReceipt, ExecutionReceiptView, Task,
    TaskAcceptance, TaskAcceptanceView, TaskCancellation, TaskCancellationView, TaskOffer,
    TaskOfferView, TaskResult, TaskResultView, TaskSpec, TaskSpecView, TaskState, TaskView,
};
use crate::types::{
    Cid, Did, PermissionSet, ResourceUsage, ResourceUsageView, Span, SpanView, WorkspaceId,
};
use crate::wire::{self, nonempty_wire, push_some, some_wire, Encode, WireView};
use vstd::prelude::*;
use vstd::string::*;

verus! {

/// Whether a document tells what it is made of: different values have different
/// documents.
pub open spec fn telling<T: Encode>() -> bool {
    forall|a: T::V, b: T::V|
        #![trigger T::wire(a), T::wire(b)]
        T::wire(a) == T::wire(b) ==> a == b
}

/// Whether no document of a type is the one of an absent value.
pub open spec fn substantial<T: Encode>() -> bool {
    forall|a: T::V| !((#[trigger] T::wire(a)) is Null)
}

/// Texts, numbers and byte strings are told by their documents.
pub proof fn lemma_plain_values_tell()
    ensures
        telling::<String>() && substantial::<String>(),
        telling::<Did>() && substantial::<Did>(),
        telling::<bool>() && substantial::<bool>(),
        telling::<u8>() && substantial::<u8>(),
        telling::<u16>() && substantial::<u16>(),
        telling::<u32>() && substantial::<u32>(),
        telling::<u64>() && substantial::<u64>(),
        telling::<usize>() && substantial::<usize>(),
        telling::<i32>() && substantial::<i32>(),
        telling::<WorkspaceId>() && substantial::<WorkspaceId>(),
        telling::<Cid>() && substantial::<Cid>(),
{
    assert forall|a: Seq<u8>, b: Seq<u8>|
        crate::wire::bytes_wire(a) == crate::wire::bytes_wire(b) implies a == b by {
        let (x, y) = (crate::wire::bytes_wire(a)->List_0, crate::wire::bytes_wire(b)->List_0);
        assert(x.len() == a.len() && y.len() == b.len());
        assert forall|i: int| 0 <= i < a.len() implies a[i] == b[i] by {
            assert(x[i] == WireView::Unsigned(a[i] as u64));
            assert(y[i] == WireView::Unsigned(b[i] as u64));
        }
        assert(a =~= b);
    }
}

/// An optional value is told by its document, whether it is there and what it is.
pub proof fn lemma_option_tells<T: Encode>()
    requires
        telling::<T>(),
        substantial::<T>(),
    ensures
        telling::<Option<T>>(),
{
}

/// A list is told by its document, item by item.
pub proof fn lemma_list_tells<T: Encode>()
    requires
        telling::<T>(),
    ensures
        telling::<Vec<T>>(),
        substantial::<Vec<T>>(),
{
    assert forall|a: Seq<T::V>, b: Seq<T::V>|
        #![trigger <Vec<T> as Encode>::wire(a), <Vec<T> as Encode>::wire(b)]
        <Vec<T> as Encode>::wire(a) == <Vec<T> as Encode>::wire(b) implies a == b by {
        let (x, y) = (
            <Vec<T> as Encode>::wire(a)->List_0,
            <Vec<T> as Encode>::wire(b)->List_0,
        );
        assert(x.len() == a.len() && y.len() == b.len());
        assert forall|i: int| 0 <= i < a.len() implies a[i] == b[i] by {
            assert(x[i] == T::wire(a[i]));
            assert(y[i] == T::wire(b[i]));
        }
        assert(a =~= b);
    }
}

/// The document of a relation kind tells which one it is.
pub proof fn lemma_relation_kind_tells()
    ensures
        telling::<RelationKind>(),
        substantial::<RelationKind>(),
{
    reveal_strlit("Acquaintance");
    reveal_strlit("Collaborator");
    reveal_strlit("ServiceProvider");
    reveal_strlit("Mentor");
    reveal_strlit("CoOwner");
    reveal_strlit("Rival");
    reveal_strlit("Blocked");
    assert("Acquaintance"@[0] != "Collaborator"@[0]);
    assert("Acquaintance"@.len() != "ServiceProvider"@.len());
    assert("Acquaintance"@.len() != "Mentor"@.len());
    assert("Acquaintance"@.len() != "CoOwner"@.len());
    assert("Acquaintance"@.len() != "Rival"@.len());
    assert("Acquaintance"@.len() != "Blocked"@.len());
    assert("Collaborator"@.len() != "ServiceProvider"@.len());
    assert("Collaborator"@.len() != "Mentor"@.len());
    assert("Collaborator"@.len() != "CoOwner"@.len());
    assert("Collaborator"@.len() != "Rival"@.len());
    assert("Collaborator"@.len() != "Blocked"@.len());
    assert("ServiceProvider"@.len() != "Mentor"@.len());
    assert("ServiceProvider"@.len() != "CoOwner"@.len());
    assert("ServiceProvider"@.len() != "Rival"@.len());
    assert("ServiceProvider"@.len() != "Blocked"@.len());
    assert("Mentor"@.len() != "CoOwner"@.len());
    assert("Mentor"@.len() != "Rival"@.len());
    assert("Mentor"@.len() != "Blocked"@.len());
    assert("CoOwner"@.len() != "Rival"@.len());
    assert("CoOwner"@[0] != "Blocked"@[0]);
    assert("Rival"@.len() != "Blocked"@.len());
}

/// The document of an interaction outcome tells which one it is.
pub proof fn lemma_interaction_outcome_tells()
    ensures
        telling::<InteractionOutcome>(),
        substantial::<InteractionOutcome>(),
{
    reveal_strlit("Success");
    reveal_strlit("Neutral");
    reveal_strlit("Failure");
    reveal_strlit("Dispute");
    assert("Success"@[0] != "Neutral"@[0]);
    assert("Success"@[0] != "Failure"@[0]);
    assert("Success"@[0] != "Dispute"@[0]);
    assert("Neutral"@[0] != "Failure"@[0]);
    assert("Neutral"@[0] != "Dispute"@[0]);
    assert("Failure"@[0] != "Dispute"@[0]);
}

/// The document of a collective vote choice tells which one it is.
pub proof fn lemma_collective_vote_choice_tells()
    ensures
        telling::<CollectiveVoteChoice>(),
        substantial::<CollectiveVoteChoice>(),
{
    reveal_strlit("Approve");
    reveal_strlit("Reject");
    reveal_strlit("Abstain");
    reveal_strlit("Block");
    assert("Approve"@.len() != "Reject"@.len());
    assert("Approve"@[1] != "Abstain"@[1]);
    assert("Approve"@.len() != "Block"@.len());
    assert("Reject"@.len() != "Abstain"@.len());
    assert("Reject"@.len() != "Block"@.len());
    assert("Abstain"@.len() != "Block"@.len());
}

/// The document of a collective decision outcome tells which one it is.
pub proof fn lemma_collective_decision_outcome_tells()
    ensures
        telling::<CollectiveDecisionOutcome>(),
        substantial::<CollectiveDecisionOutcome>(),
{
    reveal_strlit("Accepted");
    reveal_strlit("Rejected");
    reveal_strlit("Deferred");
    reveal_strlit("Disputed");
    assert("Accepted"@[0] != "Rejected"@[0]);
    assert("Accepted"@[0] != "Deferred"@[0]);
    assert("Accepted"@[0] != "Disputed"@[0]);
    assert("Rejected"@[0] != "Deferred"@[0]);
    assert("Rejected"@[0] != "Disputed"@[0]);
    assert("Deferred"@[1] != "Disputed"@[1]);
}

/// The document of an intent kind tells which one it is.
pub proof fn lemma_intent_kind_tells()
    ensures
        telling::<IntentKind>(),
        substantial::<IntentKind>(),
{
    reveal_strlit("Goal");
    reveal_strlit("Need");
    reveal_strlit("Offer");
    reveal_strlit("Proposal");
    reveal_strlit("Status");
    assert("Goal"@[0] != "Need"@[0]);
    assert("Goal"@.len() != "Offer"@.len());
    assert("Goal"@.len() != "Proposal"@.len());
    assert("Goal"@.len() != "Status"@.len());
    assert("Need"@.len() != "Offer"@.len());
    assert("Need"@.len() != "Proposal"@.len());
    assert("Need"@.len() != "Status"@.len());
    assert("Offer"@.len() != "Proposal"@.len());
    assert("Offer"@.len() != "Status"@.len());
    assert("Proposal"@.len() != "Status"@.len());
}

/// The document of an intent response kind tells which one it is.
pub proof fn lemma_intent_response_kind_tells()
    ensures
        telling::<IntentResponseKind>(),
        substantial::<IntentResponseKind>(),
{
    reveal_strlit("Interested");
    reveal_strlit("Accept");
    reveal_strlit("Decline");
    reveal_strlit("Counter");
    reveal_strlit("Fulfilled");
    assert("Interested"@.len() != "Accept"@.len());
    assert("Interested"@.len() != "Decline"@.len());
    assert("Interested"@.len() != "Counter"@.len());
    assert("Interested"@.len() != "Fulfilled"@.len());
    assert("Accept"@.len() != "Decline"@.len());
    assert("Accept"@.len() != "Counter"@.len());
    assert("Accept"@.len() != "Fulfilled"@.len());
    assert("Decline"@[0] != "Counter"@[0]);
    assert("Decline"@.len() != "Fulfilled"@.len());
    assert("Counter"@.len() != "Fulfilled"@.len());
}

/// The document of an authority kind tells which one it is.
pub proof fn lemma_authority_kind_tells()
    ensures
        telling::<AuthorityKind>(),
        substantial::<AuthorityKind>(),
{
    reveal_strlit("SovereignSociety");
    reveal_strlit("LocalSignature");
    reveal_strlit("CollectiveQuorum");
    reveal_strlit("Bitcoin");
    reveal_strlit("Lightning");
    reveal_strlit("ExternalChain");
    reveal_strlit("TeeAttestation");
    reveal_strlit("ZeroKnowledgeProof");
    assert("SovereignSociety"@.len() != "LocalSignature"@.len());
    assert("SovereignSociety"@[0] != "CollectiveQuorum"@[0]);
    assert("SovereignSociety"@.len() != "Bitcoin"@.len());
    assert("SovereignSociety"@.len() != "Lightning"@.len());
    assert("SovereignSociety"@.len() != "ExternalChain"@.len());
    assert("SovereignSociety"@.len() != "TeeAttestation"@.len());
    assert("SovereignSociety"@.len() != "ZeroKnowledgeProof"@.len());
    assert("LocalSignature"@.len() != "CollectiveQuorum"@.len());
    assert("LocalSignature"@.len() != "Bitcoin"@.len());
    assert("LocalSignature"@.len() != "Lightning"@.len());
    assert("LocalSignature"@.len() != "ExternalChain"@.len());
    assert("LocalSignature"@[0] != "TeeAttestation"@[0]);
    assert("LocalSignature"@.len() != "ZeroKnowledgeProof"@.len());
    assert("CollectiveQuorum"@.len() != "Bitcoin"@.len());
    assert("CollectiveQuorum"@.len() != "Lightning"@.len());
    assert("CollectiveQuorum"@.len() != "ExternalChain"@.len());
    assert("CollectiveQuorum"@.len() != "TeeAttestation"@.len());
    assert("CollectiveQuorum"@.len() != "ZeroKnowledgeProof"@.len());
    assert("Bitcoin"@.len() != "Lightning"@.len());
    assert("Bitcoin"@.len() != "ExternalChain"@.len());
    assert("Bitcoin"@.len() != "TeeAttestation"@.len());
    assert("Bitcoin"@.len() != "ZeroKnowledgeProof"@.len());
    assert("Lightning"@.len() != "ExternalChain"@.len());
    assert("Lightning"@.len() != "TeeAttestation"@.len());
    assert("Lightning"@.len() != "ZeroKnowledgeProof"@.len());
    assert("ExternalChain"@.len() != "TeeAttestation"@.len());
    assert("ExternalChain"@.len() != "ZeroKnowledgeProof"@.len());
    assert("TeeAttestation"@.len() != "ZeroKnowledgeProof"@.len());
}

/// The document of a task state tells which one it is.
pub proof fn lemma_task_state_tells()
    ensures
        telling::<TaskState>(),
        substantial::<TaskState>(),
{
    reveal_strlit("Published");
    reveal_strlit("InProgress");
    reveal_strlit("Completed");
    reveal_strlit("Failed");
    reveal_strlit("Cancelled");
    assert("Published"@.len() != "InProgress"@.len());
    assert("Published"@[0] != "Completed"@[0]);
    assert("Published"@.len() != "Failed"@.len());
    assert("Published"@[0] != "Cancelled"@[0]);
    assert("InProgress"@.len() != "Completed"@.len());
    assert("InProgress"@.len() != "Failed"@.len());
    assert("InProgress"@.len() != "Cancelled"@.len());
    assert("Completed"@.len() != "Failed"@.len());
    assert("Completed"@[1] != "Cancelled"@[1]);
    assert("Failed"@.len() != "Cancelled"@.len());
}

/// The document of an interaction tells all of it.
pub proof fn lemma_interaction_tells()
    ensures
        telling::<Interaction>(),
        substantial::<Interaction>(),
{
    lemma_plain_values_tell();
    lemma_option_tells::<WorkspaceId>();
    lemma_interaction_outcome_tells();
    lemma_option_tells::<String>();
    assert forall|a: InteractionView, b: InteractionView|
        #![trigger Interaction::wire(a), Interaction::wire(b)]
        Interaction::wire(a) == Interaction::wire(b) implies a == b by {
        let (x, y) = (Interaction::wire(a)->Record_0, Interaction::wire(b)->Record_0);
        assert(x[0] == y[0]);
        assert(x[1] == y[1]);
        assert(x[2] == y[2]);
        assert(x[3] == y[3]);
        assert(x[4] == y[4]);
        assert(x[5] == y[5]);
        assert(x[6] == y[6]);
        assert(x[7] == y[7]);
        assert(String::wire(a.id) == String::wire(b.id));
        assert(Did::wire(a.from) == Did::wire(b.from));
        assert(Did::wire(a.to) == Did::wire(b.to));
        assert(<Option<WorkspaceId> as Encode>::wire(a.workspace) == <Option<WorkspaceId> as Encode>::wire(b.workspace));
        assert(String::wire(a.topic) == String::wire(b.topic));
        assert(InteractionOutcome::wire(a.outcome) == InteractionOutcome::wire(b.outcome));
        assert(u64::wire(a.timestamp) == u64::wire(b.timestamp));
        assert(<Option<String> as Encode>::wire(a.evidence) == <Option<String> as Encode>::wire(b.evidence));
    }
}

/// The document of a collective proposal tells all of it.
pub proof fn lemma_collective_proposal_tells()
    ensures
        telling::<CollectiveProposal>(),
        substantial::<CollectiveProposal>(),
{
    lemma_plain_values_tell();
    lemma_option_tells::<WorkspaceId>();
    assert forall|a: CollectiveProposalView, b: CollectiveProposalView|
        #![trigger CollectiveProposal::wire(a), CollectiveProposal::wire(b)]
        CollectiveProposal::wire(a) == CollectiveProposal::wire(b) implies a == b by {
        let (x, y) = (CollectiveProposal::wire(a)->Record_0, CollectiveProposal::wire(b)->Record_0);
        assert(x[0] == y[0]);
        assert(x[1] == y[1]);
        assert(x[2] == y[2]);
        assert(x[3] == y[3]);
        assert(x[4] == y[4]);
        assert(x[5] == y[5]);
        assert(x[6] == y[6]);
        assert(x[7] == y[7]);
        assert(String::wire(a.id) == String::wire(b.id));
        assert(String::wire(a.collective_id) == String::wire(b.collective_id));
        assert(Did::wire(a.proposer) == Did::wire(b.proposer));
        assert(String::wire(a.title) == String::wire(b.title));
        assert(String::wire(a.body) == String::wire(b.body));
        assert(<Option<WorkspaceId> as Encode>::wire(a.workspace) == <Option<WorkspaceId> as Encode>::wire(b.workspace));
        assert(u64::wire(a.created_at) == u64::wire(b.created_at));
        assert(u64::wire(a.deadline) == u64::wire(b.deadline));
    }
}

/// The document of a collective vote tells all of it.
pub proof fn lemma_collective_vote_tells()
    ensures
        telling::<CollectiveVote>(),
        substantial::<CollectiveVote>(),
{
    lemma_plain_values_tell();
    lemma_collective_vote_choice_tells();
    assert forall|a: CollectiveVoteView, b: CollectiveVoteView|
        #![trigger CollectiveVote::wire(a), CollectiveVote::wire(b)]
        CollectiveVote::wire(a) == CollectiveVote::wire(b) implies a == b by {
        let (x, y) = (CollectiveVote::wire(a)->Record_0, CollectiveVote::wire(b)->Record_0);
        assert(x[0] == y[0]);
        assert(x[1] == y[1]);
        assert(x[2] == y[2]);
        assert(x[3] == y[3]);
        assert(x[4] == y[4]);
        assert(x[5] == y[5]);
        assert(String::wire(a.proposal_id) == String::wire(b.proposal_id));
        assert(String::wire(a.collective_id) == String::wire(b.collective_id));
        assert(Did::wire(a.voter) == Did::wire(b.voter));
        assert(CollectiveVoteChoice::wire(a.choice) == CollectiveVoteChoice::wire(b.choice));
        assert(String::wire(a.rationale) == String::wire(b.rationale));
        assert(u64::wire(a.timestamp) == u64::wire(b.timestamp));
    }
}

/// The document of a task dispute tells all of it.
pub proof fn lemma_task_dispute_tells()
    ensures
        telling::<TaskDispute>(),
        substantial::<TaskDispute>(),
{
    lemma_plain_values_tell();
    lemma_option_tells::<String>();
    assert forall|a: TaskDisputeView, b: TaskDisputeView|
        #![trigger TaskDispute::wire(a), TaskDispute::wire(b)]
        TaskDispute::wire(a) == TaskDispute::wire(b) implies a == b by {
        let (x, y) = (TaskDispute::wire(a)->Record_0, TaskDispute::wire(b)->Record_0);
        assert(x[0] == y[0]);
        assert(x[1] == y[1]);
        assert(x[2] == y[2]);
        assert(x[3] == y[3]);
        assert(x[4] == y[4]);
        assert(x[5] == y[5]);
        assert(x[6] == y[6]);
        assert(String::wire(a.task_id) == String::wire(b.task_id));
        assert(Did::wire(a.disputer) == Did::wire(b.disputer));
        assert(Did::wire(a.target) == Did::wire(b.target));
        assert(<Option<String> as Encode>::wire(a.claim_id) == <Option<String> as Encode>::wire(b.claim_id));
        assert(String::wire(a.reason) == String::wire(b.reason));
        assert(<Option<String> as Encode>::wire(a.evidence) == <Option<String> as Encode>::wire(b.evidence));
        assert(u64::wire(a.timestamp) == u64::wire(b.timestamp));
    }
}

/// The document of a capability revocation tells all of it.
pub proof fn lemma_capability_revocation_tells()
    ensures
        telling::<CapabilityRevocation>(),
        substantial::<CapabilityRevocation>(),
{
    lemma_plain_values_tell();
    lemma_option_tells::<String>();
    assert forall|a: CapabilityRevocationView, b: CapabilityRevocationView|
        #![trigger CapabilityRevocation::wire(a), CapabilityRevocation::wire(b)]
        CapabilityRevocation::wire(a) == CapabilityRevocation::wire(b) implies a == b by {
        let (x, y) = (CapabilityRevocation::wire(a)->Record_0, CapabilityRevocation::wire(b)->Record_0);
        assert(x[0] == y[0]);
        assert(x[1] == y[1]);
        assert(x[2] == y[2]);
        assert(x[3] == y[3]);
        assert(Did::wire(a.issuer) == Did::wire(b.issuer));
        assert(String::wire(a.capability_signature_id) == String::wire(b.capability_signature_id));
        assert(<Option<String> as Encode>::wire(a.reason) == <Option<String> as Encode>::wire(b.reason));
        assert(u64::wire(a.revoked_at) == u64::wire(b.revoked_at));
    }
}

/// The document of an identity revocation tells all of it.
pub proof fn lemma_identity_revocation_tells()
    ensures
        telling::<IdentityRevocation>(),
        substantial::<IdentityRevocation>(),
{
    lemma_plain_values_tell();
    lemma_option_tells::<String>();
    assert forall|a: IdentityRevocationView, b: IdentityRevocationView|
        #![trigger IdentityRevocation::wire(a), IdentityRevocation::wire(b)]
        IdentityRevocation::wire(a) == IdentityRevocation::wire(b) implies a == b by {
        let (x, y) = (IdentityRevocation::wire(a)->Record_0, IdentityRevocation::wire(b)->Record_0);
        assert(x[0] == y[0]);
        assert(x[1] == y[1]);
        assert(x[2] == y[2]);
        assert(Did::wire(a.did) == Did::wire(b.did));
        assert(<Option<String> as Encode>::wire(a.reason) == <Option<String> as Encode>::wire(b.reason));
        assert(u64::wire(a.revoked_at) == u64::wire(b.revoked_at));
    }
}

/// The document of an identity rotation tells all of it.
pub proof fn lemma_identity_rotation_tells()
    ensures
        telling::<IdentityRotation>(),
        substantial::<IdentityRotation>(),
{
    lemma_plain_values_tell();
    lemma_option_tells::<String>();
    assert forall|a: IdentityRotationView, b: IdentityRotationView|
        #![trigger IdentityRotation::wire(a), IdentityRotation::wire(b)]
        IdentityRotation::wire(a) == IdentityRotation::wire(b) implies a == b by {
        let (x, y) = (IdentityRotation::wire(a)->Record_0, IdentityRotation::wire(b)->Record_0);
        assert(x[0] == y[0]);
        assert(x[1] == y[1]);
        assert(x[2] == y[2]);
        assert(x[3] == y[3]);
        assert(Did::wire(a.previous) == Did::wire(b.previous));
        assert(Did::wire(a.next) == Did::wire(b.next));
        assert(<Option<String> as Encode>::wire(a.reason) == <Option<String> as Encode>::wire(b.reason));
        assert(u64::wire(a.rotated_at) == u64::wire(b.rotated_at));
    }
}

/// The document of an identity recovery policy tells all of it.
pub proof fn lemma_identity_recovery_policy_tells()
    ensures
        telling::<IdentityRecoveryPolicy>(),
        substantial::<IdentityRecoveryPolicy>(),
{
    lemma_plain_values_tell();
    lemma_list_tells::<Did>();
    assert forall|a: IdentityRecoveryPolicyView, b: IdentityRecoveryPolicyView|
        #![trigger IdentityRecoveryPolicy::wire(a), IdentityRecoveryPolicy::wire(b)]
        IdentityRecoveryPolicy::wire(a) == IdentityRecoveryPolicy::wire(b) implies a == b by {
        let (x, y) = (IdentityRecoveryPolicy::wire(a)->Record_0, IdentityRecoveryPolicy::wire(b)->Record_0);
        assert(x[0] == y[0]);
        assert(x[1] == y[1]);
        assert(x[2] == y[2]);
        assert(x[3] == y[3]);
        assert(Did::wire(a.identity) == Did::wire(b.identity));
        assert(<Vec<Did> as Encode>::wire(a.guardians) == <Vec<Did> as Encode>::wire(b.guardians));
        assert(usize::wire(a.threshold) == usize::wire(b.threshold));
        assert(u64::wire(a.updated_at) == u64::wire(b.updated_at));
    }
}

/// The document of an identity recovery approval tells all of it.
pub proof fn lemma_identity_recovery_approval_tells()
    ensures
        telling::<IdentityRecoveryApproval>(),
        substantial::<IdentityRecoveryApproval>(),
{
    lemma_plain_values_tell();
    lemma_option_tells::<String>();
    assert forall|a: IdentityRecoveryApprovalView, b: IdentityRecoveryApprovalView|
        #![trigger IdentityRecoveryApproval::wire(a), IdentityRecoveryApproval::wire(b)]
        IdentityRecoveryApproval::wire(a) == IdentityRecoveryApproval::wire(b) implies a == b by {
        let (x, y) = (IdentityRecoveryApproval::wire(a)->Record_0, IdentityRecoveryApproval::wire(b)->Record_0);
        assert(x[0] == y[0]);
        assert(x[1] == y[1]);
        assert(x[2] == y[2]);
        assert(x[3] == y[3]);
        assert(x[4] == y[4]);
        assert(Did::wire(a.identity) == Did::wire(b.identity));
        assert(Did::wire(a.guardian) == Did::wire(b.guardian));
        assert(Did::wire(a.recovered) == Did::wire(b.recovered));
        assert(<Option<String> as Encode>::wire(a.reason) == <Option<String> as Encode>::wire(b.reason));
        assert(u64::wire(a.approved_at) == u64::wire(b.approved_at));
    }
}

/// The document of a workspace snapshot tells all of it.
pub proof fn lemma_workspace_snapshot_tells()
    ensures
        telling::<WorkspaceSnapshot>(),
        substantial::<WorkspaceSnapshot>(),
{
    lemma_plain_values_tell();
    lemma_option_tells::<String>();
    assert forall|a: WorkspaceSnapshotView, b: WorkspaceSnapshotView|
        #![trigger WorkspaceSnapshot::wire(a), WorkspaceSnapshot::wire(b)]
        WorkspaceSnapshot::wire(a) == WorkspaceSnapshot::wire(b) implies a == b by {
        let (x, y) = (WorkspaceSnapshot::wire(a)->Record_0, WorkspaceSnapshot::wire(b)->Record_0);
        assert(x[0] == y[0]);
        assert(x[1] == y[1]);
        assert(x[2] == y[2]);
        assert(x[3] == y[3]);
        assert(x[4] == y[4]);
        assert(x[5] == y[5]);
        assert(WorkspaceId::wire(a.workspace) == WorkspaceId::wire(b.workspace));
        assert(Did::wire(a.actor) == Did::wire(b.actor));
        assert(Cid::wire(a.root) == Cid::wire(b.root));
        assert(<Option<String> as Encode>::wire(a.label) == <Option<String> as Encode>::wire(b.label));
        assert(<Option<String> as Encode>::wire(a.note) == <Option<String> as Encode>::wire(b.note));
        assert(u64::wire(a.timestamp) == u64::wire(b.timestamp));
    }
}

/// The document of a workspace run stdin tells all of it.
pub proof fn lemma_workspace_run_stdin_tells()
    ensures
        telling::<WorkspaceRunStdin>(),
        substantial::<WorkspaceRunStdin>(),
{
    lemma_plain_values_tell();
    assert forall|a: WorkspaceRunStdinView, b: WorkspaceRunStdinView|
        #![trigger WorkspaceRunStdin::wire(a), WorkspaceRunStdin::wire(b)]
        WorkspaceRunStdin::wire(a) == WorkspaceRunStdin::wire(b) implies a == b by {
        let (x, y) = (WorkspaceRunStdin::wire(a)->Record_0, WorkspaceRunStdin::wire(b)->Record_0);
        assert(x[0] == y[0]);
        assert(x[1] == y[1]);
        assert(u64::wire(a.bytes) == u64::wire(b.bytes));
        assert(Cid::wire(a.cid) == Cid::wire(b.cid));
    }
}

/// The document of a workspace run failure tells all of it.
pub proof fn lemma_workspace_run_failure_tells()
    ensures
        telling::<WorkspaceRunFailure>(),
        substantial::<WorkspaceRunFailure>(),
{
    lemma_plain_values_tell();
    assert forall|a: WorkspaceRunFailureView, b: WorkspaceRunFailureView|
        #![trigger WorkspaceRunFailure::wire(a), WorkspaceRunFailure::wire(b)]
        WorkspaceRunFailure::wire(a) == WorkspaceRunFailure::wire(b) implies a == b by {
        let (x, y) = (WorkspaceRunFailure::wire(a)->Record_0, WorkspaceRunFailure::wire(b)->Record_0);
        assert(x[0] == y[0]);
        assert(x[1] == y[1]);
        assert(String::wire(a.kind) == String::wire(b.kind));
        assert(String::wire(a.message) == String::wire(b.message));
    }
}

/// The document of an agent intent tells all of it.
pub proof fn lemma_agent_intent_tells()
    ensures
        telling::<AgentIntent>(),
        substantial::<AgentIntent>(),
{
    lemma_plain_values_tell();
    lemma_intent_kind_tells();
    lemma_option_tells::<WorkspaceId>();
    lemma_option_tells::<String>();
    lemma_list_tells::<String>();
    lemma_option_tells::<u64>();
    assert forall|a: AgentIntentView, b: AgentIntentView|
        #![trigger AgentIntent::wire(a), AgentIntent::wire(b)]
        AgentIntent::wire(a) == AgentIntent::wire(b) implies a == b by {
        let (x, y) = (AgentIntent::wire(a)->Record_0, AgentIntent::wire(b)->Record_0);
        assert(x[0] == y[0]);
        assert(x[1] == y[1]);
        assert(x[2] == y[2]);
        assert(x[3] == y[3]);
        assert(x[4] == y[4]);
        assert(x[5] == y[5]);
        assert(x[6] == y[6]);
        assert(x[7] == y[7]);
        assert(x[8] == y[8]);
        assert(x[9] == y[9]);
        assert(x[10] == y[10]);
        assert(String::wire(a.id) == String::wire(b.id));
        assert(Did::wire(a.author) == Did::wire(b.author));
        assert(IntentKind::wire(a.kind) == IntentKind::wire(b.kind));
        assert(String::wire(a.title) == String::wire(b.title));
        assert(String::wire(a.body) == String::wire(b.body));
        assert(<Option<WorkspaceId> as Encode>::wire(a.workspace) == <Option<WorkspaceId> as Encode>::wire(b.workspace));
        assert(<Option<String> as Encode>::wire(a.task_id) == <Option<String> as Encode>::wire(b.task_id));
        assert(<Option<String> as Encode>::wire(a.capability) == <Option<String> as Encode>::wire(b.capability));
        assert(<Vec<String> as Encode>::wire(a.tags) == <Vec<String> as Encode>::wire(b.tags));
        assert(u64::wire(a.created_at) == u64::wire(b.created_at));
        assert(<Option<u64> as Encode>::wire(a.expires_at) == <Option<u64> as Encode>::wire(b.expires_at));
    }
}

/// The document of an intent response tells all of it.
pub proof fn lemma_intent_response_tells()
    ensures
        telling::<IntentResponse>(),
        substantial::<IntentResponse>(),
{
    lemma_plain_values_tell();
    lemma_intent_response_kind_tells();
    lemma_option_tells::<WorkspaceId>();
    lemma_option_tells::<String>();
    assert forall|a: IntentResponseView, b: IntentResponseView|
        #![trigger IntentResponse::wire(a), IntentResponse::wire(b)]
        IntentResponse::wire(a) == IntentResponse::wire(b) implies a == b by {
        let (x, y) = (IntentResponse::wire(a)->Record_0, IntentResponse::wire(b)->Record_0);
        assert(x[0] == y[0]);
        assert(x[1] == y[1]);
        assert(x[2] == y[2]);
        assert(x[3] == y[3]);
        assert(x[4] == y[4]);
        assert(x[5] == y[5]);
        assert(x[6] == y[6]);
        assert(x[7] == y[7]);
        assert(x[8] == y[8]);
        assert(x[9] == y[9]);
        assert(String::wire(a.id) == String::wire(b.id));
        assert(String::wire(a.intent_id) == String::wire(b.intent_id));
        assert(Did::wire(a.responder) == Did::wire(b.responder));
        assert(IntentResponseKind::wire(a.kind) == IntentResponseKind::wire(b.kind));
        assert(String::wire(a.body) == String::wire(b.body));
        assert(<Option<WorkspaceId> as Encode>::wire(a.workspace) == <Option<WorkspaceId> as Encode>::wire(b.workspace));
        assert(<Option<String> as Encode>::wire(a.task_id) == <Option<String> as Encode>::wire(b.task_id));
        assert(<Option<String> as Encode>::wire(a.capability) == <Option<String> as Encode>::wire(b.capability));
        assert(<Option<String> as Encode>::wire(a.evidence) == <Option<String> as Encode>::wire(b.evidence));
        assert(u64::wire(a.created_at) == u64::wire(b.created_at));
    }
}

/// The document of a capability decl tells all of it.
pub proof fn lemma_capability_decl_tells()
    ensures
        telling::<CapabilityDecl>(),
        substantial::<CapabilityDecl>(),
{
    lemma_plain_values_tell();
    assert forall|a: CapabilityDeclView, b: CapabilityDeclView|
        #![trigger CapabilityDecl::wire(a), CapabilityDecl::wire(b)]
        CapabilityDecl::wire(a) == CapabilityDecl::wire(b) implies a == b by {
        let (x, y) = (CapabilityDecl::wire(a)->Record_0, CapabilityDecl::wire(b)->Record_0);
        assert(x[0] == y[0]);
        assert(x[1] == y[1]);
        assert(x[2] == y[2]);
        assert(x[3] == y[3]);
        assert(x[4] == y[4]);
        assert(String::wire(a.name) == String::wire(b.name));
        assert(String::wire(a.description) == String::wire(b.description));
        assert(String::wire(a.version) == String::wire(b.version));
        assert(u64::wire(a.price_per_unit) == u64::wire(b.price_per_unit));
        assert(String::wire(a.price_unit) == String::wire(b.price_unit));
    }
}

/// The document of an agent manifest tells all of it.
pub proof fn lemma_agent_manifest_tells()
    ensures
        telling::<AgentManifest>(),
        substantial::<AgentManifest>(),
{
    lemma_plain_values_tell();
    lemma_capability_decl_tells();
    lemma_list_tells::<CapabilityDecl>();
    lemma_list_tells::<String>();
    assert forall|a: AgentManifestView, b: AgentManifestView|
        #![trigger AgentManifest::wire(a), AgentManifest::wire(b)]
        AgentManifest::wire(a) == AgentManifest::wire(b) implies a == b by {
        let (x, y) = (AgentManifest::wire(a)->Record_0, AgentManifest::wire(b)->Record_0);
        assert(x[0] == y[0]);
        assert(x[1] == y[1]);
        assert(x[2] == y[2]);
        assert(x[3] == y[3]);
        assert(x[4] == y[4]);
        assert(x[5] == y[5]);
        assert(x[6] == y[6]);
        assert(x[7] == y[7]);
        assert(x[8] == y[8]);
        assert(x[9] == y[9]);
        assert(x[10] == y[10]);
        assert(Did::wire(a.did) == Did::wire(b.did));
        assert(String::wire(a.name) == String::wire(b.name));
        assert(String::wire(a.description) == String::wire(b.description));
        assert(<Vec<CapabilityDecl> as Encode>::wire(a.provides) == <Vec<CapabilityDecl> as Encode>::wire(b.provides));
        assert(<Vec<CapabilityDecl> as Encode>::wire(a.requires_caps) == <Vec<CapabilityDecl> as Encode>::wire(b.requires_caps));
        assert(<Vec<String> as Encode>::wire(a.goals) == <Vec<String> as Encode>::wire(b.goals));
        assert(<Vec<String> as Encode>::wire(a.values) == <Vec<String> as Encode>::wire(b.values));
        assert(<Vec<String> as Encode>::wire(a.preferences) == <Vec<String> as Encode>::wire(b.preferences));
        assert(<Vec<String> as Encode>::wire(a.workspace_roles) == <Vec<String> as Encode>::wire(b.workspace_roles));
        assert(String::wire(a.agent_version) == String::wire(b.agent_version));
        assert(u64::wire(a.created_at) == u64::wire(b.created_at));
    }
}

/// The document of a mutual credit settlement tells all of it.
pub proof fn lemma_mutual_credit_settlement_tells()
    ensures
        telling::<MutualCreditSettlement>(),
        substantial::<MutualCreditSettlement>(),
{
    lemma_plain_values_tell();
    lemma_list_tells::<u8>();
    assert forall|a: MutualCreditSettlementView, b: MutualCreditSettlementView|
        #![trigger MutualCreditSettlement::wire(a), MutualCreditSettlement::wire(b)]
        MutualCreditSettlement::wire(a) == MutualCreditSettlement::wire(b) implies a == b by {
        let (x, y) = (MutualCreditSettlement::wire(a)->Record_0, MutualCreditSettlement::wire(b)->Record_0);
        assert(x[0] == y[0]);
        assert(x[1] == y[1]);
        assert(x[2] == y[2]);
        assert(x[3] == y[3]);
        assert(Did::wire(a.counterparty) == Did::wire(b.counterparty));
        assert(u64::wire(a.amount) == u64::wire(b.amount));
        assert(String::wire(a.ledger_tx_id) == String::wire(b.ledger_tx_id));
        assert(<Vec<u8> as Encode>::wire(a.counterparty_signature) == <Vec<u8> as Encode>::wire(b.counterparty_signature));
    }
}

/// The document of an external payment settlement tells all of it.
pub proof fn lemma_external_payment_settlement_tells()
    ensures
        telling::<ExternalPaymentSettlement>(),
        substantial::<ExternalPaymentSettlement>(),
{
    lemma_authority_kind_tells();
    lemma_plain_values_tell();
    assert forall|a: ExternalPaymentSettlementView, b: ExternalPaymentSettlementView|
        #![trigger ExternalPaymentSettlement::wire(a), ExternalPaymentSettlement::wire(b)]
        ExternalPaymentSettlement::wire(a) == ExternalPaymentSettlement::wire(b) implies a == b by {
        let (x, y) = (ExternalPaymentSettlement::wire(a)->Record_0, ExternalPaymentSettlement::wire(b)->Record_0);
        assert(x[0] == y[0]);
        assert(x[1] == y[1]);
        assert(x[2] == y[2]);
        assert(x[3] == y[3]);
        assert(x[4] == y[4]);
        assert(x[5] == y[5]);
        assert(x[6] == y[6]);
        assert(AuthorityKind::wire(a.authority) == AuthorityKind::wire(b.authority));
        assert(String::wire(a.asset) == String::wire(b.asset));
        assert(u64::wire(a.amount) == u64::wire(b.amount));
        assert(String::wire(a.payment_id) == String::wire(b.payment_id));
        assert(String::wire(a.recipient) == String::wire(b.recipient));
        assert(u32::wire(a.confirmations) == u32::wire(b.confirmations));
        assert(u32::wire(a.min_confirmations) == u32::wire(b.min_confirmations));
    }
}

/// The document of a lightning settlement tells all of it.
pub proof fn lemma_lightning_settlement_tells()
    ensures
        telling::<LightningSettlement>(),
        substantial::<LightningSettlement>(),
{
    lemma_plain_values_tell();
    assert forall|a: LightningSettlementView, b: LightningSettlementView|
        #![trigger LightningSettlement::wire(a), LightningSettlement::wire(b)]
        LightningSettlement::wire(a) == LightningSettlement::wire(b) implies a == b by {
        let (x, y) = (LightningSettlement::wire(a)->Record_0, LightningSettlement::wire(b)->Record_0);
        assert(x[0] == y[0]);
        assert(x[1] == y[1]);
        assert(x[2] == y[2]);
        assert(u64::wire(a.amount_msat) == u64::wire(b.amount_msat));
        assert(String::wire(a.payment_hash_hex) == String::wire(b.payment_hash_hex));
        assert(String::wire(a.preimage_hex) == String::wire(b.preimage_hex));
    }
}

/// The document of a task tells all of it.
pub proof fn lemma_task_tells()
    ensures
        telling::<Task>(),
        substantial::<Task>(),
{
    lemma_plain_values_tell();
    lemma_list_tells::<String>();
    lemma_option_tells::<String>();
    lemma_task_state_tells();
    lemma_option_tells::<Did>();
    assert forall|a: TaskView, b: TaskView|
        #![trigger Task::wire(a), Task::wire(b)]
        Task::wire(a) == Task::wire(b) implies a == b by {
        let (x, y) = (Task::wire(a)->Record_0, Task::wire(b)->Record_0);
        assert(x[0] == y[0]);
        assert(x[1] == y[1]);
        assert(x[2] == y[2]);
        assert(x[3] == y[3]);
        assert(x[4] == y[4]);
        assert(x[5] == y[5]);
        assert(x[6] == y[6]);
        assert(x[7] == y[7]);
        assert(x[8] == y[8]);
        assert(x[9] == y[9]);
        assert(x[10] == y[10]);
        assert(x[11] == y[11]);
        assert(String::wire(a.id) == String::wire(b.id));
        assert(Did::wire(a.publisher) == Did::wire(b.publisher));
        assert(String::wire(a.description) == String::wire(b.description));
        assert(String::wire(a.required_capability) == String::wire(b.required_capability));
        assert(String::wire(a.command) == String::wire(b.command));
        assert(<Vec<String> as Encode>::wire(a.args) == <Vec<String> as Encode>::wire(b.args));
        assert(<Option<String> as Encode>::wire(a.input) == <Option<String> as Encode>::wire(b.input));
        assert(u64::wire(a.max_budget) == u64::wire(b.max_budget));
        assert(u64::wire(a.deadline) == u64::wire(b.deadline));
        assert(TaskState::wire(a.state) == TaskState::wire(b.state));
        assert(<Option<Did> as Encode>::wire(a.assigned_to) == <Option<Did> as Encode>::wire(b.assigned_to));
        assert(u64::wire(a.created_at) == u64::wire(b.created_at));
    }
}

/// The document of a task offer tells all of it.
pub proof fn lemma_task_offer_tells()
    ensures
        telling::<TaskOffer>(),
        substantial::<TaskOffer>(),
{
    lemma_plain_values_tell();
    assert forall|a: TaskOfferView, b: TaskOfferView|
        #![trigger TaskOffer::wire(a), TaskOffer::wire(b)]
        TaskOffer::wire(a) == TaskOffer::wire(b) implies a == b by {
        let (x, y) = (TaskOffer::wire(a)->Record_0, TaskOffer::wire(b)->Record_0);
        assert(x[0] == y[0]);
        assert(x[1] == y[1]);
        assert(x[2] == y[2]);
        assert(x[3] == y[3]);
        assert(x[4] == y[4]);
        assert(String::wire(a.task_id) == String::wire(b.task_id));
        assert(Did::wire(a.bidder) == Did::wire(b.bidder));
        assert(u64::wire(a.price) == u64::wire(b.price));
        assert(u64::wire(a.estimated_time_secs) == u64::wire(b.estimated_time_secs));
        assert(String::wire(a.rationale) == String::wire(b.rationale));
    }
}

/// The document of a task acceptance tells all of it.
pub proof fn lemma_task_acceptance_tells()
    ensures
        telling::<TaskAcceptance>(),
        substantial::<TaskAcceptance>(),
{
    lemma_plain_values_tell();
    assert forall|a: TaskAcceptanceView, b: TaskAcceptanceView|
        #![trigger TaskAcceptance::wire(a), TaskAcceptance::wire(b)]
        TaskAcceptance::wire(a) == TaskAcceptance::wire(b) implies a == b by {
        let (x, y) = (TaskAcceptance::wire(a)->Record_0, TaskAcceptance::wire(b)->Record_0);
        assert(x[0] == y[0]);
        assert(x[1] == y[1]);
        assert(x[2] == y[2]);
        assert(x[3] == y[3]);
        assert(x[4] == y[4]);
        assert(String::wire(a.task_id) == String::wire(b.task_id));
        assert(Did::wire(a.publisher) == Did::wire(b.publisher));
        assert(Did::wire(a.bidder) == Did::wire(b.bidder));
        assert(u64::wire(a.price) == u64::wire(b.price));
        assert(u64::wire(a.accepted_at) == u64::wire(b.accepted_at));
    }
}

/// The document of a task cancellation tells all of it.
pub proof fn lemma_task_cancellation_tells()
    ensures
        telling::<TaskCancellation>(),
        substantial::<TaskCancellation>(),
{
    lemma_plain_values_tell();
    assert forall|a: TaskCancellationView, b: TaskCancellationView|
        #![trigger TaskCancellation::wire(a), TaskCancellation::wire(b)]
        TaskCancellation::wire(a) == TaskCancellation::wire(b) implies a == b by {
        let (x, y) = (TaskCancellation::wire(a)->Record_0, TaskCancellation::wire(b)->Record_0);
        assert(x[0] == y[0]);
        assert(x[1] == y[1]);
        assert(x[2] == y[2]);
        assert(x[3] == y[3]);
        assert(String::wire(a.task_id) == String::wire(b.task_id));
        assert(Did::wire(a.publisher) == Did::wire(b.publisher));
        assert(String::wire(a.reason) == String::wire(b.reason));
        assert(u64::wire(a.cancelled_at) == u64::wire(b.cancelled_at));
    }
}

/// The document of an execution attestation tells all of it.
pub proof fn lemma_execution_attestation_tells()
    ensures
        telling::<ExecutionAttestation>(),
        substantial::<ExecutionAttestation>(),
{
    lemma_plain_values_tell();
    lemma_option_tells::<Cid>();
    lemma_list_tells::<u8>();
    lemma_option_tells::<Vec<u8>>();
    assert forall|a: ExecutionAttestationView, b: ExecutionAttestationView|
        #![trigger ExecutionAttestation::wire(a), ExecutionAttestation::wire(b)]
        ExecutionAttestation::wire(a) == ExecutionAttestation::wire(b) implies a == b by {
        let (x, y) = (ExecutionAttestation::wire(a)->Record_0, ExecutionAttestation::wire(b)->Record_0);
        assert(x[0] == y[0]);
        assert(x[1] == y[1]);
        assert(x[2] == y[2]);
        assert(x[3] == y[3]);
        assert(x[4] == y[4]);
        assert(x[5] == y[5]);
        assert(x[6] == y[6]);
        assert(x[7] == y[7]);
        assert(x[8] == y[8]);
        assert(x[9] == y[9]);
        assert(String::wire(a.task_id) == String::wire(b.task_id));
        assert(Did::wire(a.executor) == Did::wire(b.executor));
        assert(Did::wire(a.attestor) == Did::wire(b.attestor));
        assert(String::wire(a.receipt_signature_hex) == String::wire(b.receipt_signature_hex));
        assert(i32::wire(a.exit_code) == i32::wire(b.exit_code));
        assert(Cid::wire(a.stdout_cid) == Cid::wire(b.stdout_cid));
        assert(Cid::wire(a.stderr_cid) == Cid::wire(b.stderr_cid));
        assert(<Option<Cid> as Encode>::wire(a.output_root) == <Option<Cid> as Encode>::wire(b.output_root));
        assert(u64::wire(a.observed_at) == u64::wire(b.observed_at));
        assert(<Option<Vec<u8>> as Encode>::wire(a.signature) == <Option<Vec<u8>> as Encode>::wire(b.signature));
    }
}

/// The document of a task spec tells all of it.
pub proof fn lemma_task_spec_tells()
    ensures
        telling::<TaskSpec>(),
        substantial::<TaskSpec>(),
{
    lemma_plain_values_tell();
    lemma_list_tells::<String>();
    assert forall|a: TaskSpecView, b: TaskSpecView|
        #![trigger TaskSpec::wire(a), TaskSpec::wire(b)]
        TaskSpec::wire(a) == TaskSpec::wire(b) implies a == b by {
        let (x, y) = (TaskSpec::wire(a)->Record_0, TaskSpec::wire(b)->Record_0);
        assert(x[0] == y[0]);
        assert(x[1] == y[1]);
        assert(x[2] == y[2]);
        assert(x[3] == y[3]);
        assert(x[4] == y[4]);
        assert(x[5] == y[5]);
        assert(x[6] == y[6]);
        assert(x[7] == y[7]);
        assert(x[8] == y[8]);
        assert(String::wire(a.id) == String::wire(b.id));
        assert(Did::wire(a.publisher) == Did::wire(b.publisher));
        assert(String::wire(a.description) == String::wire(b.description));
        assert(String::wire(a.required_capability) == String::wire(b.required_capability));
        assert(String::wire(a.command) == String::wire(b.command));
        assert(<Vec<String> as Encode>::wire(a.args) == <Vec<String> as Encode>::wire(b.args));
        assert(u64::wire(a.max_budget) == u64::wire(b.max_budget));
        assert(u64::wire(a.deadline) == u64::wire(b.deadline));
        assert(u64::wire(a.created_at) == u64::wire(b.created_at));
    }
}

/// The document of a permission set tells all of it.
pub proof fn lemma_permission_set_tells()
    ensures
        telling::<PermissionSet>(),
        substantial::<PermissionSet>(),
{
    lemma_plain_values_tell();
    assert forall|a: PermissionSet, b: PermissionSet|
        #![trigger PermissionSet::wire(a), PermissionSet::wire(b)]
        PermissionSet::wire(a) == PermissionSet::wire(b) implies a == b by {
        let (x, y) = (PermissionSet::wire(a)->Record_0, PermissionSet::wire(b)->Record_0);
        assert(x[0] == y[0]);
        assert(x[1] == y[1]);
        assert(x[2] == y[2]);
        assert(x[3] == y[3]);
        assert(bool::wire(a.read) == bool::wire(b.read));
        assert(bool::wire(a.write) == bool::wire(b.write));
        assert(bool::wire(a.execute) == bool::wire(b.execute));
        assert(bool::wire(a.admin) == bool::wire(b.admin));
    }
}

/// The document of a span tells all of it.
pub proof fn lemma_span_tells()
    ensures
        telling::<Span>(),
        substantial::<Span>(),
{
    lemma_plain_values_tell();
    assert forall|a: SpanView, b: SpanView|
        #![trigger Span::wire(a), Span::wire(b)]
        Span::wire(a) == Span::wire(b) implies a == b by {
        let (x, y) = (Span::wire(a)->Record_0, Span::wire(b)->Record_0);
        assert(x[0] == y[0]);
        assert(x[1] == y[1]);
        assert(u64::wire(a.secs) == u64::wire(b.secs));
        assert(u32::wire(a.nanos) == u32::wire(b.nanos));
    }
}

/// The document of a resource usage tells all of it.
pub proof fn lemma_resource_usage_tells()
    ensures
        telling::<ResourceUsage>(),
        substantial::<ResourceUsage>(),
{
    lemma_span_tells();
    lemma_plain_values_tell();
    lemma_option_tells::<u64>();
    assert forall|a: ResourceUsageView, b: ResourceUsageView|
        #![trigger ResourceUsage::wire(a), ResourceUsage::wire(b)]
        ResourceUsage::wire(a) == ResourceUsage::wire(b) implies a == b by {
        let (x, y) = (ResourceUsage::wire(a)->Record_0, ResourceUsage::wire(b)->Record_0);
        assert(x[0] == y[0]);
        assert(x[1] == y[1]);
        assert(x[2] == y[2]);
        assert(x[3] == y[3]);
        assert(x[4] == y[4]);
        assert(x[5] == y[5]);
        assert(x[6] == y[6]);
        assert(Span::wire(a.wall_time) == Span::wire(b.wall_time));
        assert(Span::wire(a.cpu_user) == Span::wire(b.cpu_user));
        assert(Span::wire(a.cpu_kernel) == Span::wire(b.cpu_kernel));
        assert(<Option<u64> as Encode>::wire(a.peak_memory_bytes) == <Option<u64> as Encode>::wire(b.peak_memory_bytes));
        assert(u64::wire(a.fs_read_bytes) == u64::wire(b.fs_read_bytes));
        assert(u64::wire(a.fs_write_bytes) == u64::wire(b.fs_write_bytes));
        assert(u64::wire(a.process_count) == u64::wire(b.process_count));
    }
}

/// The document of an execution receipt tells all of it.
pub proof fn lemma_execution_receipt_tells()
    ensures
        telling::<ExecutionReceipt>(),
        substantial::<ExecutionReceipt>(),
{
    lemma_plain_values_tell();
    lemma_option_tells::<WorkspaceId>();
    lemma_list_tells::<String>();
    lemma_option_tells::<Cid>();
    lemma_resource_usage_tells();
    lemma_list_tells::<u8>();
    lemma_option_tells::<Vec<u8>>();
    assert forall|a: ExecutionReceiptView, b: ExecutionReceiptView|
        #![trigger ExecutionReceipt::wire(a), ExecutionReceipt::wire(b)]
        ExecutionReceipt::wire(a) == ExecutionReceipt::wire(b) implies a == b by {
        let (x, y) = (ExecutionReceipt::wire(a)->Record_0, ExecutionReceipt::wire(b)->Record_0);
        assert(x[0] == y[0]);
        assert(x[1] == y[1]);
        assert(x[2] == y[2]);
        assert(x[3] == y[3]);
        assert(x[4] == y[4]);
        assert(x[5] == y[5]);
        assert(x[6] == y[6]);
        assert(x[7] == y[7]);
        assert(x[8] == y[8]);
        assert(x[9] == y[9]);
        assert(x[10] == y[10]);
        assert(x[11] == y[11]);
        assert(x[12] == y[12]);
        assert(String::wire(a.task_id) == String::wire(b.task_id));
        assert(Did::wire(a.executor) == Did::wire(b.executor));
        assert(<Option<WorkspaceId> as Encode>::wire(a.workspace) == <Option<WorkspaceId> as Encode>::wire(b.workspace));
        assert(String::wire(a.command) == String::wire(b.command));
        assert(<Vec<String> as Encode>::wire(a.args) == <Vec<String> as Encode>::wire(b.args));
        assert(i32::wire(a.exit_code) == i32::wire(b.exit_code));
        assert(Cid::wire(a.stdout_cid) == Cid::wire(b.stdout_cid));
        assert(Cid::wire(a.stderr_cid) == Cid::wire(b.stderr_cid));
        assert(<Option<Cid> as Encode>::wire(a.output_root) == <Option<Cid> as Encode>::wire(b.output_root));
        assert(ResourceUsage::wire(a.resources) == ResourceUsage::wire(b.resources));
        assert(u64::wire(a.started_at) == u64::wire(b.started_at));
        assert(u64::wire(a.finished_at) == u64::wire(b.finished_at));
        assert(<Option<Vec<u8>> as Encode>::wire(a.signature) == <Option<Vec<u8>> as Encode>::wire(b.signature));
    }
}

spec fn lacks(fields: Seq<(Seq<char>, WireView)>, name: Seq<char>) -> bool {
    forall|i: int| 0 <= i < fields.len() ==> (#[trigger] fields[i]).0 != name
}

proof fn lemma_lacks(
    fields: Seq<(Seq<char>, WireView)>,
    name: Seq<char>,
    value: Option<WireView>,
    other: Seq<char>,
)
    ensures
        lacks(fields, other) && name != other ==> lacks(push_some(fields, name, value), other),
{
}

proof fn lemma_peel(
    s: Seq<(Seq<char>, WireView)>,
    t: Seq<(Seq<char>, WireView)>,
    name: Seq<char>,
    x: Option<WireView>,
    y: Option<WireView>,
)
    requires
        push_some(s, name, x) == push_some(t, name, y),
        x is Some && y is Some || lacks(s, name) && lacks(t, name),
    ensures
        s == t,
        x == y,
{
    let (a, b) = (push_some(s, name, x), push_some(t, name, y));
    if x is Some && y is Some {
        assert(a.drop_last() =~= s);
        assert(b.drop_last() =~= t);
        assert(a.last() == (name, x->Some_0));
        assert(b.last() == (name, y->Some_0));
    } else if x is Some {
        assert(a[s.len() as int].0 == name);
        assert(t[s.len() as int].0 == name);
    } else if y is Some {
        assert(b[t.len() as int].0 == name);
        assert(s[t.len() as int].0 == name);
    }
}

proof fn lemma_some_tells<T: Encode>(x: Option<T::V>, y: Option<T::V>)
    requires
        telling::<T>(),
        some_wire::<T>(x) == some_wire::<T>(y),
    ensures
        x == y,
{
    if x is Some && y is Some {
        assert(T::wire(x->Some_0) == T::wire(y->Some_0));
    }
}

proof fn lemma_nonempty_tells<T: Encode>(x: Seq<T::V>, y: Seq<T::V>)
    requires
        telling::<T>(),
        nonempty_wire::<T>(x) == nonempty_wire::<T>(y),
    ensures
        x == y,
{
    lemma_list_tells::<T>();
    if x.len() > 0 {
        assert(<Vec<T> as Encode>::wire(x) == <Vec<T> as Encode>::wire(y));
    } else {
        assert(x =~= y);
    }
}

proof fn lemma_box_tells<T: Encode>()
    requires
        telling::<T>(),
        substantial::<T>(),
    ensures
        telling::<Box<T>>(),
        substantial::<Box<T>>(),
{
    assert forall|a: T::V, b: T::V|
        #![trigger <Box<T> as Encode>::wire(a), <Box<T> as Encode>::wire(b)]
        <Box<T> as Encode>::wire(a) == <Box<T> as Encode>::wire(b) implies a == b by {
        assert(T::wire(a) == T::wire(b));
    }
}

/// Results with the same content, and only they, have the same document to be
/// named by.
pub proof fn lemma_claim_commits_to_result(a: TaskResultView, b: TaskResultView)
    ensures
        TaskResult::wire(a) == TaskResult::wire(b) <==> a == b,
        a == b ==> crate::facts::claim_id(a) == crate::facts::claim_id(b),
        crate::facts::claim_id(a) == outside::hex_text(
            outside::sha256_of(wire::json(TaskResult::wire(a))),
        ),
{
    lemma_task_result_tells();
}

/// The document of an authority anchor tells all of it.
#[verifier::spinoff_prover]
#[verifier::rlimit(60)]
pub proof fn lemma_authority_anchor_tells()
    ensures
        telling::<AuthorityAnchor>(),
        substantial::<AuthorityAnchor>(),
{
    lemma_authority_kind_tells();
    lemma_plain_values_tell();
    lemma_list_tells::<Did>();
    reveal_strlit("kind");
    reveal_strlit("commitment_hex");
    reveal_strlit("locator");
    reveal_strlit("attestors");
    reveal_strlit("threshold");
    assert("kind"@.len() != "locator"@.len());
    assert("commitment_hex"@.len() != "locator"@.len());
    assert("kind"@.len() != "threshold"@.len());
    assert("commitment_hex"@.len() != "threshold"@.len());
    assert("locator"@.len() != "threshold"@.len());
    assert("attestors"@[0] != "threshold"@[0]);
    assert forall|a: AuthorityAnchorView, b: AuthorityAnchorView|
        #![trigger AuthorityAnchor::wire(a), AuthorityAnchor::wire(b)]
        AuthorityAnchor::wire(a) == AuthorityAnchor::wire(b) implies a == b by {
        let x0 = Seq::<(Seq<char>, WireView)>::empty();
        let x1 = push_some(x0, "kind"@, Some(AuthorityKind::wire(a.kind)));
        let x2 = push_some(x1, "commitment_hex"@, Some(String::wire(a.commitment_hex)));
        let x3 = push_some(x2, "locator"@, some_wire::<String>(a.locator));
        let x4 = push_some(x3, "attestors"@, Some(<Vec<Did> as Encode>::wire(a.attestors)));
        let x5 = push_some(x4, "threshold"@, some_wire::<usize>(a.threshold));
        let y0 = Seq::<(Seq<char>, WireView)>::empty();
        let y1 = push_some(y0, "kind"@, Some(AuthorityKind::wire(b.kind)));
        let y2 = push_some(y1, "commitment_hex"@, Some(String::wire(b.commitment_hex)));
        let y3 = push_some(y2, "locator"@, some_wire::<String>(b.locator));
        let y4 = push_some(y3, "attestors"@, Some(<Vec<Did> as Encode>::wire(b.attestors)));
        let y5 = push_some(y4, "threshold"@, some_wire::<usize>(b.threshold));
        assert(AuthorityAnchor::wire(a) == WireView::Record(x5));
        assert(AuthorityAnchor::wire(b) == WireView::Record(y5));
        lemma_lacks(x0, "kind"@, Some(AuthorityKind::wire(a.kind)), "threshold"@);
        lemma_lacks(y0, "kind"@, Some(AuthorityKind::wire(b.kind)), "threshold"@);
        lemma_lacks(x1, "commitment_hex"@, Some(String::wire(a.commitment_hex)), "threshold"@);
        lemma_lacks(y1, "commitment_hex"@, Some(String::wire(b.commitment_hex)), "threshold"@);
        lemma_lacks(x2, "locator"@, some_wire::<String>(a.locator), "threshold"@);
        lemma_lacks(y2, "locator"@, some_wire::<String>(b.locator), "threshold"@);
        lemma_lacks(x3, "attestors"@, Some(<Vec<Did> as Encode>::wire(a.attestors)), "threshold"@);
        lemma_lacks(y3, "attestors"@, Some(<Vec<Did> as Encode>::wire(b.attestors)), "threshold"@);
        lemma_peel(x4, y4, "threshold"@, some_wire::<usize>(a.threshold), some_wire::<usize>(b.threshold));
        lemma_some_tells::<usize>(a.threshold, b.threshold);
        lemma_peel(x3, y3, "attestors"@, Some(<Vec<Did> as Encode>::wire(a.attestors)), Some(<Vec<Did> as Encode>::wire(b.attestors)));
        assert(<Vec<Did> as Encode>::wire(a.attestors) == <Vec<Did> as Encode>::wire(b.attestors));
        lemma_lacks(x0, "kind"@, Some(AuthorityKind::wire(a.kind)), "locator"@);
        lemma_lacks(y0, "kind"@, Some(AuthorityKind::wire(b.kind)), "locator"@);
        lemma_lacks(x1, "commitment_hex"@, Some(String::wire(a.commitment_hex)), "locator"@);
        lemma_lacks(y1, "commitment_hex"@, Some(String::wire(b.commitment_hex)), "locator"@);
        lemma_peel(x2, y2, "locator"@, some_wire::<String>(a.locator), some_wire::<String>(b.locator));
        lemma_some_tells::<String>(a.locator, b.locator);
        lemma_peel(x1, y1, "commitment_hex"@, Some(String::wire(a.commitment_hex)), Some(String::wire(b.commitment_hex)));
        assert(String::wire(a.commitment_hex) == String::wire(b.commitment_hex));
        lemma_peel(x0, y0, "kind"@, Some(AuthorityKind::wire(a.kind)), Some(AuthorityKind::wire(b.kind)));
        assert(AuthorityKind::wire(a.kind) == AuthorityKind::wire(b.kind));
    }
}

/// The document of a state checkpoint tells all of it.
#[verifier::spinoff_prover]
#[verifier::rlimit(60)]
pub proof fn lemma_state_checkpoint_tells()
    ensures
        telling::<StateCheckpoint>(),
        substantial::<StateCheckpoint>(),
{
    lemma_plain_values_tell();
    reveal_strlit("version");
    reveal_strlit("subject");
    reveal_strlit("social_root_hex");
    reveal_strlit("workspace_root_hex");
    reveal_strlit("ledger_root_hex");
    assert("version"@.len() != "social_root_hex"@.len());
    assert("subject"@.len() != "social_root_hex"@.len());
    assert("version"@.len() != "workspace_root_hex"@.len());
    assert("subject"@.len() != "workspace_root_hex"@.len());
    assert("social_root_hex"@.len() != "workspace_root_hex"@.len());
    assert("version"@.len() != "ledger_root_hex"@.len());
    assert("subject"@.len() != "ledger_root_hex"@.len());
    assert("social_root_hex"@[0] != "ledger_root_hex"@[0]);
    assert("workspace_root_hex"@.len() != "ledger_root_hex"@.len());
    assert forall|a: StateCheckpointView, b: StateCheckpointView|
        #![trigger StateCheckpoint::wire(a), StateCheckpoint::wire(b)]
        StateCheckpoint::wire(a) == StateCheckpoint::wire(b) implies a == b by {
        let x0 = Seq::<(Seq<char>, WireView)>::empty();
        let x1 = push_some(x0, "version"@, Some(u32::wire(a.version)));
        let x2 = push_some(x1, "subject"@, Some(String::wire(a.subject)));
        let x3 = push_some(x2, "social_root_hex"@, some_wire::<String>(a.social_root_hex));
        let x4 = push_some(x3, "workspace_root_hex"@, some_wire::<String>(a.workspace_root_hex));
        let x5 = push_some(x4, "ledger_root_hex"@, some_wire::<String>(a.ledger_root_hex));
        let x6 = push_some(x5, "policy_id"@, Some(String::wire(a.policy_id)));
        let x7 = push_some(x6, "timestamp"@, Some(u64::wire(a.timestamp)));
        let y0 = Seq::<(Seq<char>, WireView)>::empty();
        let y1 = push_some(y0, "version"@, Some(u32::wire(b.version)));
        let y2 = push_some(y1, "subject"@, Some(String::wire(b.subject)));
        let y3 = push_some(y2, "social_root_hex"@, some_wire::<String>(b.social_root_hex));
        let y4 = push_some(y3, "workspace_root_hex"@, some_wire::<String>(b.workspace_root_hex));
        let y5 = push_some(y4, "ledger_root_hex"@, some_wire::<String>(b.ledger_root_hex));
        let y6 = push_some(y5, "policy_id"@, Some(String::wire(b.policy_id)));
        let y7 = push_some(y6, "timestamp"@, Some(u64::wire(b.timestamp)));
        assert(StateCheckpoint::wire(a) == WireView::Record(x7));
        assert(StateCheckpoint::wire(b) == WireView::Record(y7));
        lemma_peel(x6, y6, "timestamp"@, Some(u64::wire(a.timestamp)), Some(u64::wire(b.timestamp)));
        assert(u64::wire(a.timestamp) == u64::wire(b.timestamp));
        lemma_peel(x5, y5, "policy_id"@, Some(String::wire(a.policy_id)), Some(String::wire(b.policy_id)));
        assert(String::wire(a.policy_id) == String::wire(b.policy_id));
        lemma_lacks(x0, "version"@, Some(u32::wire(a.version)), "ledger_root_hex"@);
        lemma_lacks(y0, "version"@, Some(u32::wire(b.version)), "ledger_root_hex"@);
        lemma_lacks(x1, "subject"@, Some(String::wire(a.subject)), "ledger_root_hex"@);
        lemma_lacks(y1, "subject"@, Some(String::wire(b.subject)), "ledger_root_hex"@);
        lemma_lacks(x2, "social_root_hex"@, some_wire::<String>(a.social_root_hex), "ledger_root_hex"@);
        lemma_lacks(y2, "social_root_hex"@, some_wire::<String>(b.social_root_hex), "ledger_root_hex"@);
        lemma_lacks(x3, "workspace_root_hex"@, some_wire::<String>(a.workspace_root_hex), "ledger_root_hex"@);
        lemma_lacks(y3, "workspace_root_hex"@, some_wire::<String>(b.workspace_root_hex), "ledger_root_hex"@);
        lemma_peel(x4, y4, "ledger_root_hex"@, some_wire::<String>(a.ledger_root_hex), some_wire::<String>(b.ledger_root_hex));
        lemma_some_tells::<String>(a.ledger_root_hex, b.ledger_root_hex);
        lemma_lacks(x0, "version"@, Some(u32::wire(a.version)), "workspace_root_hex"@);
        lemma_lacks(y0, "version"@, Some(u32::wire(b.version)), "workspace_root_hex"@);
        lemma_lacks(x1, "subject"@, Some(String::wire(a.subject)), "workspace_root_hex"@);
        lemma_lacks(y1, "subject"@, Some(String::wire(b.subject)), "workspace_root_hex"@);
        lemma_lacks(x2, "social_root_hex"@, some_wire::<String>(a.social_root_hex), "workspace_root_hex"@);
        lemma_lacks(y2, "social_root_hex"@, some_wire::<String>(b.social_root_hex), "workspace_root_hex"@);
        lemma_peel(x3, y3, "workspace_root_hex"@, some_wire::<String>(a.workspace_root_hex), some_wire::<String>(b.workspace_root_hex));
        lemma_some_tells::<String>(a.workspace_root_hex, b.workspace_root_hex);
        lemma_lacks(x0, "version"@, Some(u32::wire(a.version)), "social_root_hex"@);
        lemma_lacks(y0, "version"@, Some(u32::wire(b.version)), "social_root_hex"@);
        lemma_lacks(x1, "subject"@, Some(String::wire(a.subject)), "social_root_hex"@);
        lemma_lacks(y1, "subject"@, Some(String::wire(b.subject)), "social_root_hex"@);
        lemma_peel(x2, y2, "social_root_hex"@, some_wire::<String>(a.social_root_hex), some_wire::<String>(b.social_root_hex));
        lemma_some_tells::<String>(a.social_root_hex, b.social_root_hex);
        lemma_peel(x1, y1, "subject"@, Some(String::wire(a.subject)), Some(String::wire(b.subject)));
        assert(String::wire(a.subject) == String::wire(b.subject));
        lemma_peel(x0, y0, "version"@, Some(u32::wire(a.version)), Some(u32::wire(b.version)));
        assert(u32::wire(a.version) == u32::wire(b.version));
    }
}

/// The document of a workspace run context tells all of it.
#[verifier::spinoff_prover]
#[verifier::rlimit(60)]
pub proof fn lemma_workspace_run_context_tells()
    ensures
        telling::<WorkspaceRunContext>(),
        substantial::<WorkspaceRunContext>(),
{
    lemma_plain_values_tell();
    lemma_workspace_run_stdin_tells();
    reveal_strlit("working_dir");
    reveal_strlit("env_keys");
    reveal_strlit("stdin");
    reveal_strlit("timeout_ms");
    assert("working_dir"@.len() != "env_keys"@.len());
    assert("working_dir"@.len() != "stdin"@.len());
    assert("env_keys"@.len() != "stdin"@.len());
    assert("working_dir"@.len() != "timeout_ms"@.len());
    assert("env_keys"@.len() != "timeout_ms"@.len());
    assert("stdin"@.len() != "timeout_ms"@.len());
    assert forall|a: WorkspaceRunContextView, b: WorkspaceRunContextView|
        #![trigger WorkspaceRunContext::wire(a), WorkspaceRunContext::wire(b)]
        WorkspaceRunContext::wire(a) == WorkspaceRunContext::wire(b) implies a == b by {
        let x0 = Seq::<(Seq<char>, WireView)>::empty();
        let x1 = push_some(x0, "working_dir"@, some_wire::<String>(a.working_dir));
        let x2 = push_some(x1, "env_keys"@, nonempty_wire::<String>(a.env_keys));
        let x3 = push_some(x2, "stdin"@, some_wire::<WorkspaceRunStdin>(a.stdin));
        let x4 = push_some(x3, "timeout_ms"@, some_wire::<u64>(a.timeout_ms));
        let y0 = Seq::<(Seq<char>, WireView)>::empty();
        let y1 = push_some(y0, "working_dir"@, some_wire::<String>(b.working_dir));
        let y2 = push_some(y1, "env_keys"@, nonempty_wire::<String>(b.env_keys));
        let y3 = push_some(y2, "stdin"@, some_wire::<WorkspaceRunStdin>(b.stdin));
        let y4 = push_some(y3, "timeout_ms"@, some_wire::<u64>(b.timeout_ms));
        assert(WorkspaceRunContext::wire(a) == WireView::Record(x4));
        assert(WorkspaceRunContext::wire(b) == WireView::Record(y4));
        lemma_lacks(x0, "working_dir"@, some_wire::<String>(a.working_dir), "timeout_ms"@);
        lemma_lacks(y0, "working_dir"@, some_wire::<String>(b.working_dir), "timeout_ms"@);
        lemma_lacks(x1, "env_keys"@, nonempty_wire::<String>(a.env_keys), "timeout_ms"@);
        lemma_lacks(y1, "env_keys"@, nonempty_wire::<String>(b.env_keys), "timeout_ms"@);
        lemma_lacks(x2, "stdin"@, some_wire::<WorkspaceRunStdin>(a.stdin), "timeout_ms"@);
        lemma_lacks(y2, "stdin"@, some_wire::<WorkspaceRunStdin>(b.stdin), "timeout_ms"@);
        lemma_peel(x3, y3, "timeout_ms"@, some_wire::<u64>(a.timeout_ms), some_wire::<u64>(b.timeout_ms));
        lemma_some_tells::<u64>(a.timeout_ms, b.timeout_ms);
        lemma_lacks(x0, "working_dir"@, some_wire::<String>(a.working_dir), "stdin"@);
        lemma_lacks(y0, "working_dir"@, some_wire::<String>(b.working_dir), "stdin"@);
        lemma_lacks(x1, "env_keys"@, nonempty_wire::<String>(a.env_keys), "stdin"@);
        lemma_lacks(y1, "env_keys"@, nonempty_wire::<String>(b.env_keys), "stdin"@);
        lemma_peel(x2, y2, "stdin"@, some_wire::<WorkspaceRunStdin>(a.stdin), some_wire::<WorkspaceRunStdin>(b.stdin));
        lemma_some_tells::<WorkspaceRunStdin>(a.stdin, b.stdin);
        lemma_lacks(x0, "working_dir"@, some_wire::<String>(a.working_dir), "env_keys"@);
        lemma_lacks(y0, "working_dir"@, some_wire::<String>(b.working_dir), "env_keys"@);
        lemma_peel(x1, y1, "env_keys"@, nonempty_wire::<String>(a.env_keys), nonempty_wire::<String>(b.env_keys));
        lemma_nonempty_tells::<String>(a.env_keys, b.env_keys);
        lemma_peel(x0, y0, "working_dir"@, some_wire::<String>(a.working_dir), some_wire::<String>(b.working_dir));
        lemma_some_tells::<String>(a.working_dir, b.working_dir);
    }
}

/// The document of a workspace run tells all of it.
#[verifier::spinoff_prover]
#[verifier::rlimit(60)]
pub proof fn lemma_workspace_run_tells()
    ensures
        telling::<WorkspaceRun>(),
        substantial::<WorkspaceRun>(),
{
    lemma_plain_values_tell();
    lemma_list_tells::<String>();
    lemma_option_tells::<Cid>();
    lemma_resource_usage_tells();
    lemma_workspace_run_context_tells();
    lemma_workspace_run_failure_tells();
    lemma_option_tells::<String>();
    reveal_strlit("workspace");
    reveal_strlit("actor");
    reveal_strlit("command");
    reveal_strlit("args");
    reveal_strlit("exit_code");
    reveal_strlit("stdout");
    reveal_strlit("stderr");
    reveal_strlit("output_root");
    reveal_strlit("resources");
    reveal_strlit("context");
    reveal_strlit("failure");
    assert("workspace"@.len() != "context"@.len());
    assert("actor"@.len() != "context"@.len());
    assert("command"@[2] != "context"@[2]);
    assert("args"@.len() != "context"@.len());
    assert("exit_code"@.len() != "context"@.len());
    assert("stdout"@.len() != "context"@.len());
    assert("stderr"@.len() != "context"@.len());
    assert("output_root"@.len() != "context"@.len());
    assert("resources"@.len() != "context"@.len());
    assert("workspace"@.len() != "failure"@.len());
    assert("actor"@.len() != "failure"@.len());
    assert("command"@[0] != "failure"@[0]);
    assert("args"@.len() != "failure"@.len());
    assert("exit_code"@.len() != "failure"@.len());
    assert("stdout"@.len() != "failure"@.len());
    assert("stderr"@.len() != "failure"@.len());
    assert("output_root"@.len() != "failure"@.len());
    assert("resources"@.len() != "failure"@.len());
    assert("context"@[0] != "failure"@[0]);
    assert forall|a: WorkspaceRunView, b: WorkspaceRunView|
        #![trigger WorkspaceRun::wire(a), WorkspaceRun::wire(b)]
        WorkspaceRun::wire(a) == WorkspaceRun::wire(b) implies a == b by {
        let x0 = Seq::<(Seq<char>, WireView)>::empty();
        let x1 = push_some(x0, "workspace"@, Some(WorkspaceId::wire(a.workspace)));
        let x2 = push_some(x1, "actor"@, Some(Did::wire(a.actor)));
        let x3 = push_some(x2, "command"@, Some(String::wire(a.command)));
        let x4 = push_some(x3, "args"@, Some(<Vec<String> as Encode>::wire(a.args)));
        let x5 = push_some(x4, "exit_code"@, Some(i32::wire(a.exit_code)));
        let x6 = push_some(x5, "stdout"@, Some(Cid::wire(a.stdout)));
        let x7 = push_some(x6, "stderr"@, Some(Cid::wire(a.stderr)));
        let x8 = push_some(x7, "output_root"@, Some(<Option<Cid> as Encode>::wire(a.output_root)));
        let x9 = push_some(x8, "resources"@, Some(ResourceUsage::wire(a.resources)));
        let x10 = push_some(x9, "context"@, some_wire::<WorkspaceRunContext>(a.context));
        let x11 = push_some(x10, "failure"@, some_wire::<WorkspaceRunFailure>(a.failure));
        let x12 = push_some(x11, "started_at"@, Some(u64::wire(a.started_at)));
        let x13 = push_some(x12, "finished_at"@, Some(u64::wire(a.finished_at)));
        let x14 = push_some(x13, "note"@, Some(<Option<String> as Encode>::wire(a.note)));
        let y0 = Seq::<(Seq<char>, WireView)>::empty();
        let y1 = push_some(y0, "workspace"@, Some(WorkspaceId::wire(b.workspace)));
        let y2 = push_some(y1, "actor"@, Some(Did::wire(b.actor)));
        let y3 = push_some(y2, "command"@, Some(String::wire(b.command)));
        let y4 = push_some(y3, "args"@, Some(<Vec<String> as Encode>::wire(b.args)));
        let y5 = push_some(y4, "exit_code"@, Some(i32::wire(b.exit_code)));
        let y6 = push_some(y5, "stdout"@, Some(Cid::wire(b.stdout)));
        let y7 = push_some(y6, "stderr"@, Some(Cid::wire(b.stderr)));
        let y8 = push_some(y7, "output_root"@, Some(<Option<Cid> as Encode>::wire(b.output_root)));
        let y9 = push_some(y8, "resources"@, Some(ResourceUsage::wire(b.resources)));
        let y10 = push_some(y9, "context"@, some_wire::<WorkspaceRunContext>(b.context));
        let y11 = push_some(y10, "failure"@, some_wire::<WorkspaceRunFailure>(b.failure));
        let y12 = push_some(y11, "started_at"@, Some(u64::wire(b.started_at)));
        let y13 = push_some(y12, "finished_at"@, Some(u64::wire(b.finished_at)));
        let y14 = push_some(y13, "note"@, Some(<Option<String> as Encode>::wire(b.note)));
        assert(WorkspaceRun::wire(a) == WireView::Record(x14));
        assert(WorkspaceRun::wire(b) == WireView::Record(y14));
        lemma_peel(x13, y13, "note"@, Some(<Option<String> as Encode>::wire(a.note)), Some(<Option<String> as Encode>::wire(b.note)));
        assert(<Option<String> as Encode>::wire(a.note) == <Option<String> as Encode>::wire(b.note));
        lemma_peel(x12, y12, "finished_at"@, Some(u64::wire(a.finished_at)), Some(u64::wire(b.finished_at)));
        assert(u64::wire(a.finished_at) == u64::wire(b.finished_at));
        lemma_peel(x11, y11, "started_at"@, Some(u64::wire(a.started_at)), Some(u64::wire(b.started_at)));
        assert(u64::wire(a.started_at) == u64::wire(b.started_at));
        lemma_lacks(x0, "workspace"@, Some(WorkspaceId::wire(a.workspace)), "failure"@);
        lemma_lacks(y0, "workspace"@, Some(WorkspaceId::wire(b.workspace)), "failure"@);
        lemma_lacks(x1, "actor"@, Some(Did::wire(a.actor)), "failure"@);
        lemma_lacks(y1, "actor"@, Some(Did::wire(b.actor)), "failure"@);
        lemma_lacks(x2, "command"@, Some(String::wire(a.command)), "failure"@);
        lemma_lacks(y2, "command"@, Some(String::wire(b.command)), "failure"@);
        lemma_lacks(x3, "args"@, Some(<Vec<String> as Encode>::wire(a.args)), "failure"@);
        lemma_lacks(y3, "args"@, Some(<Vec<String> as Encode>::wire(b.args)), "failure"@);
        lemma_lacks(x4, "exit_code"@, Some(i32::wire(a.exit_code)), "failure"@);
        lemma_lacks(y4, "exit_code"@, Some(i32::wire(b.exit_code)), "failure"@);
        lemma_lacks(x5, "stdout"@, Some(Cid::wire(a.stdout)), "failure"@);
        lemma_lacks(y5, "stdout"@, Some(Cid::wire(b.stdout)), "failure"@);
        lemma_lacks(x6, "stderr"@, Some(Cid::wire(a.stderr)), "failure"@);
        lemma_lacks(y6, "stderr"@, Some(Cid::wire(b.stderr)), "failure"@);
        lemma_lacks(x7, "output_root"@, Some(<Option<Cid> as Encode>::wire(a.output_root)), "failure"@);
        lemma_lacks(y7, "output_root"@, Some(<Option<Cid> as Encode>::wire(b.output_root)), "failure"@);
        lemma_lacks(x8, "resources"@, Some(ResourceUsage::wire(a.resources)), "failure"@);
        lemma_lacks(y8, "resources"@, Some(ResourceUsage::wire(b.resources)), "failure"@);
        lemma_lacks(x9, "context"@, some_wire::<WorkspaceRunContext>(a.context), "failure"@);
        lemma_lacks(y9, "context"@, some_wire::<WorkspaceRunContext>(b.context), "failure"@);
        lemma_peel(x10, y10, "failure"@, some_wire::<WorkspaceRunFailure>(a.failure), some_wire::<WorkspaceRunFailure>(b.failure));
        lemma_some_tells::<WorkspaceRunFailure>(a.failure, b.failure);
        lemma_lacks(x0, "workspace"@, Some(WorkspaceId::wire(a.workspace)), "context"@);
        lemma_lacks(y0, "workspace"@, Some(WorkspaceId::wire(b.workspace)), "context"@);
        lemma_lacks(x1, "actor"@, Some(Did::wire(a.actor)), "context"@);
        lemma_lacks(y1, "actor"@, Some(Did::wire(b.actor)), "context"@);
        lemma_lacks(x2, "command"@, Some(String::wire(a.command)), "context"@);
        lemma_lacks(y2, "command"@, Some(String::wire(b.command)), "context"@);
        lemma_lacks(x3, "args"@, Some(<Vec<String> as Encode>::wire(a.args)), "context"@);
        lemma_lacks(y3, "args"@, Some(<Vec<String> as Encode>::wire(b.args)), "context"@);
        lemma_lacks(x4, "exit_code"@, Some(i32::wire(a.exit_code)), "context"@);
        lemma_lacks(y4, "exit_code"@, Some(i32::wire(b.exit_code)), "context"@);
        lemma_lacks(x5, "stdout"@, Some(Cid::wire(a.stdout)), "context"@);
        lemma_lacks(y5, "stdout"@, Some(Cid::wire(b.stdout)), "context"@);
        lemma_lacks(x6, "stderr"@, Some(Cid::wire(a.stderr)), "context"@);
        lemma_lacks(y6, "stderr"@, Some(Cid::wire(b.stderr)), "context"@);
        lemma_lacks(x7, "output_root"@, Some(<Option<Cid> as Encode>::wire(a.output_root)), "context"@);
        lemma_lacks(y7, "output_root"@, Some(<Option<Cid> as Encode>::wire(b.output_root)), "context"@);
        lemma_lacks(x8, "resources"@, Some(ResourceUsage::wire(a.resources)), "context"@);
        lemma_lacks(y8, "resources"@, Some(ResourceUsage::wire(b.resources)), "context"@);
        lemma_peel(x9, y9, "context"@, some_wire::<WorkspaceRunContext>(a.context), some_wire::<WorkspaceRunContext>(b.context));
        lemma_some_tells::<WorkspaceRunContext>(a.context, b.context);
        lemma_peel(x8, y8, "resources"@, Some(ResourceUsage::wire(a.resources)), Some(ResourceUsage::wire(b.resources)));
        assert(ResourceUsage::wire(a.resources) == ResourceUsage::wire(b.resources));
        lemma_peel(x7, y7, "output_root"@, Some(<Option<Cid> as Encode>::wire(a.output_root)), Some(<Option<Cid> as Encode>::wire(b.output_root)));
        assert(<Option<Cid> as Encode>::wire(a.output_root) == <Option<Cid> as Encode>::wire(b.output_root));
        lemma_peel(x6, y6, "stderr"@, Some(Cid::wire(a.stderr)), Some(Cid::wire(b.stderr)));
        assert(Cid::wire(a.stderr) == Cid::wire(b.stderr));
        lemma_peel(x5, y5, "stdout"@, Some(Cid::wire(a.stdout)), Some(Cid::wire(b.stdout)));
        assert(Cid::wire(a.stdout) == Cid::wire(b.stdout));
        lemma_peel(x4, y4, "exit_code"@, Some(i32::wire(a.exit_code)), Some(i32::wire(b.exit_code)));
        assert(i32::wire(a.exit_code) == i32::wire(b.exit_code));
        lemma_peel(x3, y3, "args"@, Some(<Vec<String> as Encode>::wire(a.args)), Some(<Vec<String> as Encode>::wire(b.args)));
        assert(<Vec<String> as Encode>::wire(a.args) == <Vec<String> as Encode>::wire(b.args));
        lemma_peel(x2, y2, "command"@, Some(String::wire(a.command)), Some(String::wire(b.command)));
        assert(String::wire(a.command) == String::wire(b.command));
        lemma_peel(x1, y1, "actor"@, Some(Did::wire(a.actor)), Some(Did::wire(b.actor)));
        assert(Did::wire(a.actor) == Did::wire(b.actor));
        lemma_peel(x0, y0, "workspace"@, Some(WorkspaceId::wire(a.workspace)), Some(WorkspaceId::wire(b.workspace)));
        assert(WorkspaceId::wire(a.workspace) == WorkspaceId::wire(b.workspace));
    }
}

/// The document of a collective decision tells all of it.
#[verifier::spinoff_prover]
#[verifier::rlimit(60)]
pub proof fn lemma_collective_decision_tells()
    ensures
        telling::<CollectiveDecision>(),
        substantial::<CollectiveDecision>(),
{
    lemma_plain_values_tell();
    lemma_collective_decision_outcome_tells();
    lemma_option_tells::<String>();
    lemma_option_tells::<Did>();
    lemma_authority_anchor_tells();
    reveal_strlit("proposal_id");
    reveal_strlit("collective_id");
    reveal_strlit("decider");
    reveal_strlit("outcome");
    reveal_strlit("task_id");
    reveal_strlit("claim_id");
    reveal_strlit("target");
    reveal_strlit("anchor");
    assert("proposal_id"@.len() != "anchor"@.len());
    assert("collective_id"@.len() != "anchor"@.len());
    assert("decider"@.len() != "anchor"@.len());
    assert("outcome"@.len() != "anchor"@.len());
    assert("task_id"@.len() != "anchor"@.len());
    assert("claim_id"@.len() != "anchor"@.len());
    assert("target"@[0] != "anchor"@[0]);
    assert forall|a: CollectiveDecisionView, b: CollectiveDecisionView|
        #![trigger CollectiveDecision::wire(a), CollectiveDecision::wire(b)]
        CollectiveDecision::wire(a) == CollectiveDecision::wire(b) implies a == b by {
        let x0 = Seq::<(Seq<char>, WireView)>::empty();
        let x1 = push_some(x0, "proposal_id"@, Some(String::wire(a.proposal_id)));
        let x2 = push_some(x1, "collective_id"@, Some(String::wire(a.collective_id)));
        let x3 = push_some(x2, "decider"@, Some(Did::wire(a.decider)));
        let x4 = push_some(x3, "outcome"@, Some(CollectiveDecisionOutcome::wire(a.outcome)));
        let x5 = push_some(x4, "task_id"@, Some(<Option<String> as Encode>::wire(a.task_id)));
        let x6 = push_some(x5, "claim_id"@, Some(<Option<String> as Encode>::wire(a.claim_id)));
        let x7 = push_some(x6, "target"@, Some(<Option<Did> as Encode>::wire(a.target)));
        let x8 = push_some(x7, "anchor"@, some_wire::<AuthorityAnchor>(a.anchor));
        let x9 = push_some(x8, "reason"@, Some(String::wire(a.reason)));
        let x10 = push_some(x9, "timestamp"@, Some(u64::wire(a.timestamp)));
        let y0 = Seq::<(Seq<char>, WireView)>::empty();
        let y1 = push_some(y0, "proposal_id"@, Some(String::wire(b.proposal_id)));
        let y2 = push_some(y1, "collective_id"@, Some(String::wire(b.collective_id)));
        let y3 = push_some(y2, "decider"@, Some(Did::wire(b.decider)));
        let y4 = push_some(y3, "outcome"@, Some(CollectiveDecisionOutcome::wire(b.outcome)));
        let y5 = push_some(y4, "task_id"@, Some(<Option<String> as Encode>::wire(b.task_id)));
        let y6 = push_some(y5, "claim_id"@, Some(<Option<String> as Encode>::wire(b.claim_id)));
        let y7 = push_some(y6, "target"@, Some(<Option<Did> as Encode>::wire(b.target)));
        let y8 = push_some(y7, "anchor"@, some_wire::<AuthorityAnchor>(b.anchor));
        let y9 = push_some(y8, "reason"@, Some(String::wire(b.reason)));
        let y10 = push_some(y9, "timestamp"@, Some(u64::wire(b.timestamp)));
        assert(CollectiveDecision::wire(a) == WireView::Record(x10));
        assert(CollectiveDecision::wire(b) == WireView::Record(y10));
        lemma_peel(x9, y9, "timestamp"@, Some(u64::wire(a.timestamp)), Some(u64::wire(b.timestamp)));
        assert(u64::wire(a.timestamp) == u64::wire(b.timestamp));
        lemma_peel(x8, y8, "reason"@, Some(String::wire(a.reason)), Some(String::wire(b.reason)));
        assert(String::wire(a.reason) == String::wire(b.reason));
        lemma_lacks(x0, "proposal_id"@, Some(String::wire(a.proposal_id)), "anchor"@);
        lemma_lacks(y0, "proposal_id"@, Some(String::wire(b.proposal_id)), "anchor"@);
        lemma_lacks(x1, "collective_id"@, Some(String::wire(a.collective_id)), "anchor"@);
        lemma_lacks(y1, "collective_id"@, Some(String::wire(b.collective_id)), "anchor"@);
        lemma_lacks(x2, "decider"@, Some(Did::wire(a.decider)), "anchor"@);
        lemma_lacks(y2, "decider"@, Some(Did::wire(b.decider)), "anchor"@);
        lemma_lacks(x3, "outcome"@, Some(CollectiveDecisionOutcome::wire(a.outcome)), "anchor"@);
        lemma_lacks(y3, "outcome"@, Some(CollectiveDecisionOutcome::wire(b.outcome)), "anchor"@);
        lemma_lacks(x4, "task_id"@, Some(<Option<String> as Encode>::wire(a.task_id)), "anchor"@);
        lemma_lacks(y4, "task_id"@, Some(<Option<String> as Encode>::wire(b.task_id)), "anchor"@);
        lemma_lacks(x5, "claim_id"@, Some(<Option<String> as Encode>::wire(a.claim_id)), "anchor"@);
        lemma_lacks(y5, "claim_id"@, Some(<Option<String> as Encode>::wire(b.claim_id)), "anchor"@);
        lemma_lacks(x6, "target"@, Some(<Option<Did> as Encode>::wire(a.target)), "anchor"@);
        lemma_lacks(y6, "target"@, Some(<Option<Did> as Encode>::wire(b.target)), "anchor"@);
        lemma_peel(x7, y7, "anchor"@, some_wire::<AuthorityAnchor>(a.anchor), some_wire::<AuthorityAnchor>(b.anchor));
        lemma_some_tells::<AuthorityAnchor>(a.anchor, b.anchor);
        lemma_peel(x6, y6, "target"@, Some(<Option<Did> as Encode>::wire(a.target)), Some(<Option<Did> as Encode>::wire(b.target)));
        assert(<Option<Did> as Encode>::wire(a.target) == <Option<Did> as Encode>::wire(b.target));
        lemma_peel(x5, y5, "claim_id"@, Some(<Option<String> as Encode>::wire(a.claim_id)), Some(<Option<String> as Encode>::wire(b.claim_id)));
        assert(<Option<String> as Encode>::wire(a.claim_id) == <Option<String> as Encode>::wire(b.claim_id));
        lemma_peel(x4, y4, "task_id"@, Some(<Option<String> as Encode>::wire(a.task_id)), Some(<Option<String> as Encode>::wire(b.task_id)));
        assert(<Option<String> as Encode>::wire(a.task_id) == <Option<String> as Encode>::wire(b.task_id));
        lemma_peel(x3, y3, "outcome"@, Some(CollectiveDecisionOutcome::wire(a.outcome)), Some(CollectiveDecisionOutcome::wire(b.outcome)));
        assert(CollectiveDecisionOutcome::wire(a.outcome) == CollectiveDecisionOutcome::wire(b.outcome));
        lemma_peel(x2, y2, "decider"@, Some(Did::wire(a.decider)), Some(Did::wire(b.decider)));
        assert(Did::wire(a.decider) == Did::wire(b.decider));
        lemma_peel(x1, y1, "collective_id"@, Some(String::wire(a.collective_id)), Some(String::wire(b.collective_id)));
        assert(String::wire(a.collective_id) == String::wire(b.collective_id));
        lemma_peel(x0, y0, "proposal_id"@, Some(String::wire(a.proposal_id)), Some(String::wire(b.proposal_id)));
        assert(String::wire(a.proposal_id) == String::wire(b.proposal_id));
    }
}

/// The document of a workspace ownership claim tells all of it.
#[verifier::spinoff_prover]
#[verifier::rlimit(60)]
pub proof fn lemma_workspace_ownership_claim_tells()
    ensures
        telling::<WorkspaceOwnershipClaim>(),
        substantial::<WorkspaceOwnershipClaim>(),
{
    lemma_plain_values_tell();
    lemma_authority_anchor_tells();
    reveal_strlit("workspace");
    reveal_strlit("owner");
    reveal_strlit("previous_owner");
    reveal_strlit("root");
    reveal_strlit("anchor");
    assert("workspace"@.len() != "previous_owner"@.len());
    assert("owner"@.len() != "previous_owner"@.len());
    assert("workspace"@.len() != "root"@.len());
    assert("owner"@.len() != "root"@.len());
    assert("previous_owner"@.len() != "root"@.len());
    assert("workspace"@.len() != "anchor"@.len());
    assert("owner"@.len() != "anchor"@.len());
    assert("previous_owner"@.len() != "anchor"@.len());
    assert("root"@.len() != "anchor"@.len());
    assert forall|a: WorkspaceOwnershipClaimView, b: WorkspaceOwnershipClaimView|
        #![trigger WorkspaceOwnershipClaim::wire(a), WorkspaceOwnershipClaim::wire(b)]
        WorkspaceOwnershipClaim::wire(a) == WorkspaceOwnershipClaim::wire(b) implies a == b by {
        let x0 = Seq::<(Seq<char>, WireView)>::empty();
        let x1 = push_some(x0, "workspace"@, Some(WorkspaceId::wire(a.workspace)));
        let x2 = push_some(x1, "owner"@, Some(Did::wire(a.owner)));
        let x3 = push_some(x2, "previous_owner"@, some_wire::<Did>(a.previous_owner));
        let x4 = push_some(x3, "root"@, some_wire::<Cid>(a.root));
        let x5 = push_some(x4, "anchor"@, some_wire::<AuthorityAnchor>(a.anchor));
        let x6 = push_some(x5, "claimed_at"@, Some(u64::wire(a.claimed_at)));
        let y0 = Seq::<(Seq<char>, WireView)>::empty();
        let y1 = push_some(y0, "workspace"@, Some(WorkspaceId::wire(b.workspace)));
        let y2 = push_some(y1, "owner"@, Some(Did::wire(b.owner)));
        let y3 = push_some(y2, "previous_owner"@, some_wire::<Did>(b.previous_owner));
        let y4 = push_some(y3, "root"@, some_wire::<Cid>(b.root));
        let y5 = push_some(y4, "anchor"@, some_wire::<AuthorityAnchor>(b.anchor));
        let y6 = push_some(y5, "claimed_at"@, Some(u64::wire(b.claimed_at)));
        assert(WorkspaceOwnershipClaim::wire(a) == WireView::Record(x6));
        assert(WorkspaceOwnershipClaim::wire(b) == WireView::Record(y6));
        lemma_peel(x5, y5, "claimed_at"@, Some(u64::wire(a.claimed_at)), Some(u64::wire(b.claimed_at)));
        assert(u64::wire(a.claimed_at) == u64::wire(b.claimed_at));
        lemma_lacks(x0, "workspace"@, Some(WorkspaceId::wire(a.workspace)), "anchor"@);
        lemma_lacks(y0, "workspace"@, Some(WorkspaceId::wire(b.workspace)), "anchor"@);
        lemma_lacks(x1, "owner"@, Some(Did::wire(a.owner)), "anchor"@);
        lemma_lacks(y1, "owner"@, Some(Did::wire(b.owner)), "anchor"@);
        lemma_lacks(x2, "previous_owner"@, some_wire::<Did>(a.previous_owner), "anchor"@);
        lemma_lacks(y2, "previous_owner"@, some_wire::<Did>(b.previous_owner), "anchor"@);
        lemma_lacks(x3, "root"@, some_wire::<Cid>(a.root), "anchor"@);
        lemma_lacks(y3, "root"@, some_wire::<Cid>(b.root), "anchor"@);
        lemma_peel(x4, y4, "anchor"@, some_wire::<AuthorityAnchor>(a.anchor), some_wire::<AuthorityAnchor>(b.anchor));
        lemma_some_tells::<AuthorityAnchor>(a.anchor, b.anchor);
        lemma_lacks(x0, "workspace"@, Some(WorkspaceId::wire(a.workspace)), "root"@);
        lemma_lacks(y0, "workspace"@, Some(WorkspaceId::wire(b.workspace)), "root"@);
        lemma_lacks(x1, "owner"@, Some(Did::wire(a.owner)), "root"@);
        lemma_lacks(y1, "owner"@, Some(Did::wire(b.owner)), "root"@);
        lemma_lacks(x2, "previous_owner"@, some_wire::<Did>(a.previous_owner), "root"@);
        lemma_lacks(y2, "previous_owner"@, some_wire::<Did>(b.previous_owner), "root"@);
        lemma_peel(x3, y3, "root"@, some_wire::<Cid>(a.root), some_wire::<Cid>(b.root));
        lemma_some_tells::<Cid>(a.root, b.root);
        lemma_lacks(x0, "workspace"@, Some(WorkspaceId::wire(a.workspace)), "previous_owner"@);
        lemma_lacks(y0, "workspace"@, Some(WorkspaceId::wire(b.workspace)), "previous_owner"@);
        lemma_lacks(x1, "owner"@, Some(Did::wire(a.owner)), "previous_owner"@);
        lemma_lacks(y1, "owner"@, Some(Did::wire(b.owner)), "previous_owner"@);
        lemma_peel(x2, y2, "previous_owner"@, some_wire::<Did>(a.previous_owner), some_wire::<Did>(b.previous_owner));
        lemma_some_tells::<Did>(a.previous_owner, b.previous_owner);
        lemma_peel(x1, y1, "owner"@, Some(Did::wire(a.owner)), Some(Did::wire(b.owner)));
        assert(Did::wire(a.owner) == Did::wire(b.owner));
        lemma_peel(x0, y0, "workspace"@, Some(WorkspaceId::wire(a.workspace)), Some(WorkspaceId::wire(b.workspace)));
        assert(WorkspaceId::wire(a.workspace) == WorkspaceId::wire(b.workspace));
    }
}

/// The document of a task result tells all of it.
#[verifier::spinoff_prover]
#[verifier::rlimit(60)]
pub proof fn lemma_task_result_tells()
    ensures
        telling::<TaskResult>(),
        substantial::<TaskResult>(),
{
    lemma_plain_values_tell();
    lemma_option_tells::<String>();
    lemma_execution_receipt_tells();
    lemma_box_tells::<ExecutionReceipt>();
    lemma_option_tells::<Box<ExecutionReceipt>>();
    lemma_execution_attestation_tells();
    reveal_strlit("task_id");
    reveal_strlit("executor");
    reveal_strlit("success");
    reveal_strlit("exit_code");
    reveal_strlit("stdout");
    reveal_strlit("stderr");
    reveal_strlit("actual_cost");
    reveal_strlit("error");
    reveal_strlit("receipt");
    reveal_strlit("attestations");
    assert("task_id"@.len() != "attestations"@.len());
    assert("executor"@.len() != "attestations"@.len());
    assert("success"@.len() != "attestations"@.len());
    assert("exit_code"@.len() != "attestations"@.len());
    assert("stdout"@.len() != "attestations"@.len());
    assert("stderr"@.len() != "attestations"@.len());
    assert("actual_cost"@.len() != "attestations"@.len());
    assert("error"@.len() != "attestations"@.len());
    assert("receipt"@.len() != "attestations"@.len());
    assert forall|a: TaskResultView, b: TaskResultView|
        #![trigger TaskResult::wire(a), TaskResult::wire(b)]
        TaskResult::wire(a) == TaskResult::wire(b) implies a == b by {
        let x0 = Seq::<(Seq<char>, WireView)>::empty();
        let x1 = push_some(x0, "task_id"@, Some(String::wire(a.task_id)));
        let x2 = push_some(x1, "executor"@, Some(Did::wire(a.executor)));
        let x3 = push_some(x2, "success"@, Some(bool::wire(a.success)));
        let x4 = push_some(x3, "exit_code"@, Some(i32::wire(a.exit_code)));
        let x5 = push_some(x4, "stdout"@, Some(String::wire(a.stdout)));
        let x6 = push_some(x5, "stderr"@, Some(String::wire(a.stderr)));
        let x7 = push_some(x6, "actual_cost"@, Some(u64::wire(a.actual_cost)));
        let x8 = push_some(x7, "error"@, Some(<Option<String> as Encode>::wire(a.error)));
        let x9 = push_some(x8, "receipt"@, Some(<Option<Box<ExecutionReceipt>> as Encode>::wire(a.receipt)));
        let x10 = push_some(x9, "attestations"@, nonempty_wire::<ExecutionAttestation>(a.attestations));
        let y0 = Seq::<(Seq<char>, WireView)>::empty();
        let y1 = push_some(y0, "task_id"@, Some(String::wire(b.task_id)));
        let y2 = push_some(y1, "executor"@, Some(Did::wire(b.executor)));
        let y3 = push_some(y2, "success"@, Some(bool::wire(b.success)));
        let y4 = push_some(y3, "exit_code"@, Some(i32::wire(b.exit_code)));
        let y5 = push_some(y4, "stdout"@, Some(String::wire(b.stdout)));
        let y6 = push_some(y5, "stderr"@, Some(String::wire(b.stderr)));
        let y7 = push_some(y6, "actual_cost"@, Some(u64::wire(b.actual_cost)));
        let y8 = push_some(y7, "error"@, Some(<Option<String> as Encode>::wire(b.error)));
        let y9 = push_some(y8, "receipt"@, Some(<Option<Box<ExecutionReceipt>> as Encode>::wire(b.receipt)));
        let y10 = push_some(y9, "attestations"@, nonempty_wire::<ExecutionAttestation>(b.attestations));
        assert(TaskResult::wire(a) == WireView::Record(x10));
        assert(TaskResult::wire(b) == WireView::Record(y10));
        lemma_lacks(x0, "task_id"@, Some(String::wire(a.task_id)), "attestations"@);
        lemma_lacks(y0, "task_id"@, Some(String::wire(b.task_id)), "attestations"@);
        lemma_lacks(x1, "executor"@, Some(Did::wire(a.executor)), "attestations"@);
        lemma_lacks(y1, "executor"@, Some(Did::wire(b.executor)), "attestations"@);
        lemma_lacks(x2, "success"@, Some(bool::wire(a.success)), "attestations"@);
        lemma_lacks(y2, "success"@, Some(bool::wire(b.success)), "attestations"@);
        lemma_lacks(x3, "exit_code"@, Some(i32::wire(a.exit_code)), "attestations"@);
        lemma_lacks(y3, "exit_code"@, Some(i32::wire(b.exit_code)), "attestations"@);
        lemma_lacks(x4, "stdout"@, Some(String::wire(a.stdout)), "attestations"@);
        lemma_lacks(y4, "stdout"@, Some(String::wire(b.stdout)), "attestations"@);
        lemma_lacks(x5, "stderr"@, Some(String::wire(a.stderr)), "attestations"@);
        lemma_lacks(y5, "stderr"@, Some(String::wire(b.stderr)), "attestations"@);
        lemma_lacks(x6, "actual_cost"@, Some(u64::wire(a.actual_cost)), "attestations"@);
        lemma_lacks(y6, "actual_cost"@, Some(u64::wire(b.actual_cost)), "attestations"@);
        lemma_lacks(x7, "error"@, Some(<Option<String> as Encode>::wire(a.error)), "attestations"@);
        lemma_lacks(y7, "error"@, Some(<Option<String> as Encode>::wire(b.error)), "attestations"@);
        lemma_lacks(x8, "receipt"@, Some(<Option<Box<ExecutionReceipt>> as Encode>::wire(a.receipt)), "attestations"@);
        lemma_lacks(y8, "receipt"@, Some(<Option<Box<ExecutionReceipt>> as Encode>::wire(b.receipt)), "attestations"@);
        lemma_peel(x9, y9, "attestations"@, nonempty_wire::<ExecutionAttestation>(a.attestations), nonempty_wire::<ExecutionAttestation>(b.attestations));
        lemma_nonempty_tells::<ExecutionAttestation>(a.attestations, b.attestations);
        lemma_peel(x8, y8, "receipt"@, Some(<Option<Box<ExecutionReceipt>> as Encode>::wire(a.receipt)), Some(<Option<Box<ExecutionReceipt>> as Encode>::wire(b.receipt)));
        assert(<Option<Box<ExecutionReceipt>> as Encode>::wire(a.receipt) == <Option<Box<ExecutionReceipt>> as Encode>::wire(b.receipt));
        lemma_peel(x7, y7, "error"@, Some(<Option<String> as Encode>::wire(a.error)), Some(<Option<String> as Encode>::wire(b.error)));
        assert(<Option<String> as Encode>::wire(a.error) == <Option<String> as Encode>::wire(b.error));
        lemma_peel(x6, y6, "actual_cost"@, Some(u64::wire(a.actual_cost)), Some(u64::wire(b.actual_cost)));
        assert(u64::wire(a.actual_cost) == u64::wire(b.actual_cost));
        lemma_peel(x5, y5, "stderr"@, Some(String::wire(a.stderr)), Some(String::wire(b.stderr)));
        assert(String::wire(a.stderr) == String::wire(b.stderr));
        lemma_peel(x4, y4, "stdout"@, Some(String::wire(a.stdout)), Some(String::wire(b.stdout)));
        assert(String::wire(a.stdout) == String::wire(b.stdout));
        lemma_peel(x3, y3, "exit_code"@, Some(i32::wire(a.exit_code)), Some(i32::wire(b.exit_code)));
        assert(i32::wire(a.exit_code) == i32::wire(b.exit_code));
        lemma_peel(x2, y2, "success"@, Some(bool::wire(a.success)), Some(bool::wire(b.success)));
        assert(bool::wire(a.success) == bool::wire(b.success));
        lemma_peel(x1, y1, "executor"@, Some(Did::wire(a.executor)), Some(Did::wire(b.executor)));
        assert(Did::wire(a.executor) == Did::wire(b.executor));
        lemma_peel(x0, y0, "task_id"@, Some(String::wire(a.task_id)), Some(String::wire(b.task_id)));
        assert(String::wire(a.task_id) == String::wire(b.task_id));
    }
}

} // verus!
