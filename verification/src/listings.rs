//! What the listings of the society promise: each holds exactly the facts that
//! it is about, in an order that can be relied on.
use crate::facts::{
    AgentIntentView, CapabilityGrantView, CapabilityRevocationView, CollectiveDecisionView,
    CollectiveProposalView, CollectiveView, CollectiveVoteView, FactTruthStatus,
    IdentityRevocationView, IntentResponseView, InteractionView, ReputationScoreView,
    SettlementRecordView, SocialEdgeView, TaskDisputeView, TaskResultClaimView,
    WorkspaceOwnershipClaimView, WorkspaceRunView, WorkspaceSnapshotView,
};
use crate::order;
use crate::outside;
use crate::protocol::EquivocationProofView;
use crate::reach::memories_of;
use crate::recovery::by_name;
use crate::society::{
    answers, answers_by, answers_in, by_agent_run, by_agents, by_collective, by_decision,
    by_evidence, by_fork, by_grant, by_grant_revocation, by_intent, by_interaction, by_own_intent,
    by_ownership, by_pair, by_proposal, by_response, by_revocation, by_run, by_settlement,
    by_snapshot, by_voter, claims_workspace, decision_status, forks_of, grants_on, grants_to,
    intents_in, intents_of, involves, joined_some, judges_agent, judges_claim, judges_task,
    judgments, mentioned, ownership_fact, ownership_status, proposal_key, proposed_in, runs_by,
    runs_in, settles_task, snapshots_of, touching, votes_on, SocietyView,
};
use crate::table;
use crate::task::{
    ExecutionAttestationView, TaskAcceptanceView, TaskCancellationView, TaskResultView, TaskState,
    TaskView,
};
use crate::task_market;
use crate::text;
use vstd::prelude::*;

verus! {

/// Settlements are listed from the earliest on, all of them.
pub proof fn lemma_settlements_listed(
    v: SocietyView,
    item: SettlementRecordView,
    i: int,
    j: int,
)
    ensures
        ({
            let all = order::listed(v.settlements, order::every(), by_settlement());
            &&& all.contains(item) <==> table::values(v.settlements).contains(item)
            &&& 0 <= i < j < all.len() ==> {
                let (a, b) = (all[i], all[j]);
                &&& a.settled_at <= b.settled_at
                &&& a.settled_at == b.settled_at ==> text::text_le(a.id, b.id)
            }
        }),
{
    let all = order::listed(v.settlements, order::every(), by_settlement());
    order::lemma_listed(v.settlements, order::every(), by_settlement());
    assert(all.contains(item) <==> table::values(v.settlements).contains(item));
    if 0 <= i < j < all.len() {
        let (a, b) = (all[i], all[j]);
        let (x, y) = (by_settlement()(a), by_settlement()(b));
        assert(order::key_le(x, y));
        order::lemma_key_le_parts(x, y);
        if a.settled_at == b.settled_at {
            let (x, y) = (x.drop_first(), y.drop_first());
            order::lemma_key_le_parts(x, y);
        }
    }
}

/// The settlements of a task are all those that name it, from the earliest on.
pub proof fn lemma_task_settlements_listed(
    v: SocietyView,
    task_id: Seq<char>,
    item: SettlementRecordView,
    i: int,
    j: int,
)
    ensures
        ({
            let all = order::listed(v.settlements, settles_task(task_id), by_settlement());
            &&& all.contains(item) <==> table::values(v.settlements).contains(item)
                && item.task_id == Some(task_id)
            &&& 0 <= i < j < all.len() ==> {
                let (a, b) = (all[i], all[j]);
                &&& a.settled_at <= b.settled_at
                &&& a.settled_at == b.settled_at ==> text::text_le(a.id, b.id)
            }
        }),
{
    let all = order::listed(v.settlements, settles_task(task_id), by_settlement());
    order::lemma_listed(v.settlements, settles_task(task_id), by_settlement());
    assert(all.contains(item) <==> table::values(v.settlements).contains(item)
                && item.task_id == Some(task_id));
    if 0 <= i < j < all.len() {
        let (a, b) = (all[i], all[j]);
        let (x, y) = (by_settlement()(a), by_settlement()(b));
        assert(order::key_le(x, y));
        order::lemma_key_le_parts(x, y);
        if a.settled_at == b.settled_at {
            let (x, y) = (x.drop_first(), y.drop_first());
            order::lemma_key_le_parts(x, y);
        }
    }
}

/// Relations are listed by the one who holds them and then by the peer, all of
/// them.
pub proof fn lemma_relations_listed(
    v: SocietyView,
    item: SocialEdgeView,
    i: int,
    j: int,
)
    ensures
        ({
            let all = order::listed(v.edges, order::every(), by_pair());
            &&& all.contains(item) <==> table::values(v.edges).contains(item)
            &&& 0 <= i < j < all.len() ==> {
                let (a, b) = (all[i], all[j]);
                &&& text::text_le(a.from, b.from)
                &&& a.from == b.from ==> text::text_le(a.to, b.to)
            }
        }),
{
    let all = order::listed(v.edges, order::every(), by_pair());
    order::lemma_listed(v.edges, order::every(), by_pair());
    assert(all.contains(item) <==> table::values(v.edges).contains(item));
    if 0 <= i < j < all.len() {
        let (a, b) = (all[i], all[j]);
        let (x, y) = (by_pair()(a), by_pair()(b));
        assert(order::key_le(x, y));
        order::lemma_key_le_parts(x, y);
        if a.from == b.from {
            let (x, y) = (x.drop_first(), y.drop_first());
            order::lemma_key_le_parts(x, y);
        }
    }
}

/// Evidence is listed by author and position, all of it.
pub proof fn lemma_evidence_listed(
    v: SocietyView,
    item: EquivocationProofView,
    i: int,
    j: int,
)
    ensures
        ({
            let all = order::listed(v.equivocations, order::every(), by_evidence());
            &&& all.contains(item) <==> table::values(v.equivocations).contains(item)
            &&& 0 <= i < j < all.len() ==> {
                let (a, b) = (all[i], all[j]);
                &&& text::text_le(a.author, b.author)
                &&& a.author == b.author ==> a.seq <= b.seq
            }
        }),
{
    let all = order::listed(v.equivocations, order::every(), by_evidence());
    order::lemma_listed(v.equivocations, order::every(), by_evidence());
    assert(all.contains(item) <==> table::values(v.equivocations).contains(item));
    if 0 <= i < j < all.len() {
        let (a, b) = (all[i], all[j]);
        let (x, y) = (by_evidence()(a), by_evidence()(b));
        assert(order::key_le(x, y));
        order::lemma_key_le_parts(x, y);
        if a.author == b.author {
            let (x, y) = (x.drop_first(), y.drop_first());
            order::lemma_key_le_parts(x, y);
        }
    }
}

/// The forks of an author are all those on record, from the first position on.
pub proof fn lemma_forks_listed(
    v: SocietyView,
    author: Seq<char>,
    item: EquivocationProofView,
    i: int,
    j: int,
)
    ensures
        ({
            let all = order::listed(v.equivocations, forks_of(author), by_fork());
            &&& all.contains(item) <==> table::values(v.equivocations).contains(item)
                && item.author == author
            &&& 0 <= i < j < all.len() ==> {
                let (a, b) = (all[i], all[j]);
                &&& a.seq <= b.seq
            }
        }),
{
    let all = order::listed(v.equivocations, forks_of(author), by_fork());
    order::lemma_listed(v.equivocations, forks_of(author), by_fork());
    assert(all.contains(item) <==> table::values(v.equivocations).contains(item)
                && item.author == author);
    if 0 <= i < j < all.len() {
        let (a, b) = (all[i], all[j]);
        let (x, y) = (by_fork()(a), by_fork()(b));
        assert(order::key_le(x, y));
        order::lemma_key_le_parts(x, y);
    }
}

/// Revoked identities are listed from the earliest revocation on, all of them.
pub proof fn lemma_revoked_identities_listed(
    v: SocietyView,
    item: IdentityRevocationView,
    i: int,
    j: int,
)
    ensures
        ({
            let all = order::listed(v.identity_revocations, order::every(), by_revocation());
            &&& all.contains(item) <==> table::values(v.identity_revocations).contains(item)
            &&& 0 <= i < j < all.len() ==> {
                let (a, b) = (all[i], all[j]);
                &&& a.revoked_at <= b.revoked_at
                &&& a.revoked_at == b.revoked_at ==> text::text_le(a.did, b.did)
            }
        }),
{
    let all = order::listed(v.identity_revocations, order::every(), by_revocation());
    order::lemma_listed(v.identity_revocations, order::every(), by_revocation());
    assert(all.contains(item) <==> table::values(v.identity_revocations).contains(item));
    if 0 <= i < j < all.len() {
        let (a, b) = (all[i], all[j]);
        let (x, y) = (by_revocation()(a), by_revocation()(b));
        assert(order::key_le(x, y));
        order::lemma_key_le_parts(x, y);
        if a.revoked_at == b.revoked_at {
            let (x, y) = (x.drop_first(), y.drop_first());
            order::lemma_key_le_parts(x, y);
        }
    }
}

/// Grants are listed by workspace, issuer, subject and time, all of them.
pub proof fn lemma_grants_listed(
    v: SocietyView,
    item: CapabilityGrantView,
    i: int,
    j: int,
)
    ensures
        ({
            let all = order::listed(v.capability_grants, order::every(), by_grant());
            &&& all.contains(item) <==> table::values(v.capability_grants).contains(item)
            &&& 0 <= i < j < all.len() ==> {
                let (a, b) = (all[i], all[j]);
                &&& text::text_le(outside::hex_text(a.capability.workspace), outside::hex_text(b.capability.workspace))
                &&& a.capability.workspace == b.capability.workspace ==> text::text_le(a.capability.issuer, b.capability.issuer)
                &&& a.capability.workspace == b.capability.workspace && a.capability.issuer == b.capability.issuer ==> text::text_le(a.capability.subject, b.capability.subject)
                &&& a.capability.workspace == b.capability.workspace && a.capability.issuer == b.capability.issuer && a.capability.subject == b.capability.subject ==> a.issued_at <= b.issued_at
            }
        }),
{
    let all = order::listed(v.capability_grants, order::every(), by_grant());
    order::lemma_listed(v.capability_grants, order::every(), by_grant());
    assert(all.contains(item) <==> table::values(v.capability_grants).contains(item));
    if 0 <= i < j < all.len() {
        let (a, b) = (all[i], all[j]);
        let (x, y) = (by_grant()(a), by_grant()(b));
        assert(order::key_le(x, y));
        order::lemma_key_le_parts(x, y);
        if a.capability.workspace == b.capability.workspace {
            let (x, y) = (x.drop_first(), y.drop_first());
            order::lemma_key_le_parts(x, y);
            if a.capability.issuer == b.capability.issuer {
                let (x, y) = (x.drop_first(), y.drop_first());
                order::lemma_key_le_parts(x, y);
                if a.capability.subject == b.capability.subject {
                    let (x, y) = (x.drop_first(), y.drop_first());
                    order::lemma_key_le_parts(x, y);
                }
            }
        }
    }
}

/// The grants on a workspace are all those that are for it.
pub proof fn lemma_workspace_grants_listed(
    v: SocietyView,
    workspace: Seq<u8>,
    item: CapabilityGrantView,
    i: int,
    j: int,
)
    ensures
        ({
            let all = order::listed(v.capability_grants, grants_on(workspace), by_grant());
            &&& all.contains(item) <==> table::values(v.capability_grants).contains(item)
                && item.capability.workspace == workspace
            &&& 0 <= i < j < all.len() ==> {
                let (a, b) = (all[i], all[j]);
                &&& text::text_le(outside::hex_text(a.capability.workspace), outside::hex_text(b.capability.workspace))
                &&& a.capability.workspace == b.capability.workspace ==> text::text_le(a.capability.issuer, b.capability.issuer)
                &&& a.capability.workspace == b.capability.workspace && a.capability.issuer == b.capability.issuer ==> text::text_le(a.capability.subject, b.capability.subject)
                &&& a.capability.workspace == b.capability.workspace && a.capability.issuer == b.capability.issuer && a.capability.subject == b.capability.subject ==> a.issued_at <= b.issued_at
            }
        }),
{
    let all = order::listed(v.capability_grants, grants_on(workspace), by_grant());
    order::lemma_listed(v.capability_grants, grants_on(workspace), by_grant());
    assert(all.contains(item) <==> table::values(v.capability_grants).contains(item)
                && item.capability.workspace == workspace);
    if 0 <= i < j < all.len() {
        let (a, b) = (all[i], all[j]);
        let (x, y) = (by_grant()(a), by_grant()(b));
        assert(order::key_le(x, y));
        order::lemma_key_le_parts(x, y);
        if a.capability.workspace == b.capability.workspace {
            let (x, y) = (x.drop_first(), y.drop_first());
            order::lemma_key_le_parts(x, y);
            if a.capability.issuer == b.capability.issuer {
                let (x, y) = (x.drop_first(), y.drop_first());
                order::lemma_key_le_parts(x, y);
                if a.capability.subject == b.capability.subject {
                    let (x, y) = (x.drop_first(), y.drop_first());
                    order::lemma_key_le_parts(x, y);
                }
            }
        }
    }
}

/// The grants of an agent are all those of which it is the subject.
pub proof fn lemma_grants_to_agent_listed(
    v: SocietyView,
    subject: Seq<char>,
    item: CapabilityGrantView,
    i: int,
    j: int,
)
    ensures
        ({
            let all = order::listed(v.capability_grants, grants_to(subject), by_grant());
            &&& all.contains(item) <==> table::values(v.capability_grants).contains(item)
                && item.capability.subject == subject
            &&& 0 <= i < j < all.len() ==> {
                let (a, b) = (all[i], all[j]);
                &&& text::text_le(outside::hex_text(a.capability.workspace), outside::hex_text(b.capability.workspace))
                &&& a.capability.workspace == b.capability.workspace ==> text::text_le(a.capability.issuer, b.capability.issuer)
                &&& a.capability.workspace == b.capability.workspace && a.capability.issuer == b.capability.issuer ==> text::text_le(a.capability.subject, b.capability.subject)
                &&& a.capability.workspace == b.capability.workspace && a.capability.issuer == b.capability.issuer && a.capability.subject == b.capability.subject ==> a.issued_at <= b.issued_at
            }
        }),
{
    let all = order::listed(v.capability_grants, grants_to(subject), by_grant());
    order::lemma_listed(v.capability_grants, grants_to(subject), by_grant());
    assert(all.contains(item) <==> table::values(v.capability_grants).contains(item)
                && item.capability.subject == subject);
    if 0 <= i < j < all.len() {
        let (a, b) = (all[i], all[j]);
        let (x, y) = (by_grant()(a), by_grant()(b));
        assert(order::key_le(x, y));
        order::lemma_key_le_parts(x, y);
        if a.capability.workspace == b.capability.workspace {
            let (x, y) = (x.drop_first(), y.drop_first());
            order::lemma_key_le_parts(x, y);
            if a.capability.issuer == b.capability.issuer {
                let (x, y) = (x.drop_first(), y.drop_first());
                order::lemma_key_le_parts(x, y);
                if a.capability.subject == b.capability.subject {
                    let (x, y) = (x.drop_first(), y.drop_first());
                    order::lemma_key_le_parts(x, y);
                }
            }
        }
    }
}

/// Revoked grants are listed from the earliest revocation on, all of them.
pub proof fn lemma_revoked_grants_listed(
    v: SocietyView,
    item: CapabilityRevocationView,
    i: int,
    j: int,
)
    ensures
        ({
            let all = order::listed(v.capability_revocations, order::every(), by_grant_revocation());
            &&& all.contains(item) <==> table::values(v.capability_revocations).contains(item)
            &&& 0 <= i < j < all.len() ==> {
                let (a, b) = (all[i], all[j]);
                &&& a.revoked_at <= b.revoked_at
                &&& a.revoked_at == b.revoked_at ==> text::text_le(a.issuer, b.issuer)
                &&& a.revoked_at == b.revoked_at && a.issuer == b.issuer ==> text::text_le(a.capability_signature_id, b.capability_signature_id)
            }
        }),
{
    let all = order::listed(v.capability_revocations, order::every(), by_grant_revocation());
    order::lemma_listed(v.capability_revocations, order::every(), by_grant_revocation());
    assert(all.contains(item) <==> table::values(v.capability_revocations).contains(item));
    if 0 <= i < j < all.len() {
        let (a, b) = (all[i], all[j]);
        let (x, y) = (by_grant_revocation()(a), by_grant_revocation()(b));
        assert(order::key_le(x, y));
        order::lemma_key_le_parts(x, y);
        if a.revoked_at == b.revoked_at {
            let (x, y) = (x.drop_first(), y.drop_first());
            order::lemma_key_le_parts(x, y);
            if a.issuer == b.issuer {
                let (x, y) = (x.drop_first(), y.drop_first());
                order::lemma_key_le_parts(x, y);
            }
        }
    }
}

/// The snapshots of a workspace are all those of it, from the earliest on.
pub proof fn lemma_snapshots_listed(
    v: SocietyView,
    workspace: Seq<u8>,
    item: WorkspaceSnapshotView,
    i: int,
    j: int,
)
    ensures
        ({
            let all = order::listed(v.workspace_snapshots, snapshots_of(workspace), by_snapshot());
            &&& all.contains(item) <==> table::values(v.workspace_snapshots).contains(item)
                && item.workspace == workspace
            &&& 0 <= i < j < all.len() ==> {
                let (a, b) = (all[i], all[j]);
                &&& a.timestamp <= b.timestamp
                &&& a.timestamp == b.timestamp ==> text::text_le(a.actor, b.actor)
                &&& a.timestamp == b.timestamp && a.actor == b.actor ==> text::text_le(outside::hex_text(a.root), outside::hex_text(b.root))
            }
        }),
{
    let all = order::listed(v.workspace_snapshots, snapshots_of(workspace), by_snapshot());
    order::lemma_listed(v.workspace_snapshots, snapshots_of(workspace), by_snapshot());
    assert(all.contains(item) <==> table::values(v.workspace_snapshots).contains(item)
                && item.workspace == workspace);
    if 0 <= i < j < all.len() {
        let (a, b) = (all[i], all[j]);
        let (x, y) = (by_snapshot()(a), by_snapshot()(b));
        assert(order::key_le(x, y));
        order::lemma_key_le_parts(x, y);
        if a.timestamp == b.timestamp {
            let (x, y) = (x.drop_first(), y.drop_first());
            order::lemma_key_le_parts(x, y);
            if a.actor == b.actor {
                let (x, y) = (x.drop_first(), y.drop_first());
                order::lemma_key_le_parts(x, y);
            }
        }
    }
}

/// The runs in a workspace are all those in it, in the order of their start.
pub proof fn lemma_runs_listed(
    v: SocietyView,
    workspace: Seq<u8>,
    item: WorkspaceRunView,
    i: int,
    j: int,
)
    ensures
        ({
            let all = order::listed(v.workspace_runs, runs_in(workspace), by_run());
            &&& all.contains(item) <==> table::values(v.workspace_runs).contains(item)
                && item.workspace == workspace
            &&& 0 <= i < j < all.len() ==> {
                let (a, b) = (all[i], all[j]);
                &&& a.started_at <= b.started_at
                &&& a.started_at == b.started_at ==> a.finished_at <= b.finished_at
                &&& a.started_at == b.started_at && a.finished_at == b.finished_at ==> text::text_le(a.actor, b.actor)
                &&& a.started_at == b.started_at && a.finished_at == b.finished_at && a.actor == b.actor ==> text::text_le(a.command, b.command)
            }
        }),
{
    let all = order::listed(v.workspace_runs, runs_in(workspace), by_run());
    order::lemma_listed(v.workspace_runs, runs_in(workspace), by_run());
    assert(all.contains(item) <==> table::values(v.workspace_runs).contains(item)
                && item.workspace == workspace);
    if 0 <= i < j < all.len() {
        let (a, b) = (all[i], all[j]);
        let (x, y) = (by_run()(a), by_run()(b));
        assert(order::key_le(x, y));
        order::lemma_key_le_parts(x, y);
        if a.started_at == b.started_at {
            let (x, y) = (x.drop_first(), y.drop_first());
            order::lemma_key_le_parts(x, y);
            if a.finished_at == b.finished_at {
                let (x, y) = (x.drop_first(), y.drop_first());
                order::lemma_key_le_parts(x, y);
                if a.actor == b.actor {
                    let (x, y) = (x.drop_first(), y.drop_first());
                    order::lemma_key_le_parts(x, y);
                }
            }
        }
    }
}

/// The runs of an agent are all its own, in the order of their start.
pub proof fn lemma_agent_runs_listed(
    v: SocietyView,
    actor: Seq<char>,
    item: WorkspaceRunView,
    i: int,
    j: int,
)
    ensures
        ({
            let all = order::listed(v.workspace_runs, runs_by(actor), by_agent_run());
            &&& all.contains(item) <==> table::values(v.workspace_runs).contains(item)
                && item.actor == actor
            &&& 0 <= i < j < all.len() ==> {
                let (a, b) = (all[i], all[j]);
                &&& a.started_at <= b.started_at
                &&& a.started_at == b.started_at ==> text::text_le(outside::hex_text(a.workspace), outside::hex_text(b.workspace))
                &&& a.started_at == b.started_at && a.workspace == b.workspace ==> text::text_le(a.command, b.command)
            }
        }),
{
    let all = order::listed(v.workspace_runs, runs_by(actor), by_agent_run());
    order::lemma_listed(v.workspace_runs, runs_by(actor), by_agent_run());
    assert(all.contains(item) <==> table::values(v.workspace_runs).contains(item)
                && item.actor == actor);
    if 0 <= i < j < all.len() {
        let (a, b) = (all[i], all[j]);
        let (x, y) = (by_agent_run()(a), by_agent_run()(b));
        assert(order::key_le(x, y));
        order::lemma_key_le_parts(x, y);
        if a.started_at == b.started_at {
            let (x, y) = (x.drop_first(), y.drop_first());
            order::lemma_key_le_parts(x, y);
            if a.workspace == b.workspace {
                let (x, y) = (x.drop_first(), y.drop_first());
                order::lemma_key_le_parts(x, y);
            }
        }
    }
}

/// Intents are listed from the oldest on, all of them.
pub proof fn lemma_intents_listed(
    v: SocietyView,
    item: AgentIntentView,
    i: int,
    j: int,
)
    ensures
        ({
            let all = order::listed(v.intents, order::every(), by_intent());
            &&& all.contains(item) <==> table::values(v.intents).contains(item)
            &&& 0 <= i < j < all.len() ==> {
                let (a, b) = (all[i], all[j]);
                &&& a.created_at <= b.created_at
                &&& a.created_at == b.created_at ==> text::text_le(a.author, b.author)
                &&& a.created_at == b.created_at && a.author == b.author ==> text::text_le(a.id, b.id)
            }
        }),
{
    let all = order::listed(v.intents, order::every(), by_intent());
    order::lemma_listed(v.intents, order::every(), by_intent());
    assert(all.contains(item) <==> table::values(v.intents).contains(item));
    if 0 <= i < j < all.len() {
        let (a, b) = (all[i], all[j]);
        let (x, y) = (by_intent()(a), by_intent()(b));
        assert(order::key_le(x, y));
        order::lemma_key_le_parts(x, y);
        if a.created_at == b.created_at {
            let (x, y) = (x.drop_first(), y.drop_first());
            order::lemma_key_le_parts(x, y);
            if a.author == b.author {
                let (x, y) = (x.drop_first(), y.drop_first());
                order::lemma_key_le_parts(x, y);
            }
        }
    }
}

/// The intents of an agent are all its own, from the oldest on.
pub proof fn lemma_agent_intents_listed(
    v: SocietyView,
    author: Seq<char>,
    item: AgentIntentView,
    i: int,
    j: int,
)
    ensures
        ({
            let all = order::listed(v.intents, intents_of(author), by_own_intent());
            &&& all.contains(item) <==> table::values(v.intents).contains(item)
                && item.author == author
            &&& 0 <= i < j < all.len() ==> {
                let (a, b) = (all[i], all[j]);
                &&& a.created_at <= b.created_at
                &&& a.created_at == b.created_at ==> text::text_le(a.id, b.id)
            }
        }),
{
    let all = order::listed(v.intents, intents_of(author), by_own_intent());
    order::lemma_listed(v.intents, intents_of(author), by_own_intent());
    assert(all.contains(item) <==> table::values(v.intents).contains(item)
                && item.author == author);
    if 0 <= i < j < all.len() {
        let (a, b) = (all[i], all[j]);
        let (x, y) = (by_own_intent()(a), by_own_intent()(b));
        assert(order::key_le(x, y));
        order::lemma_key_le_parts(x, y);
        if a.created_at == b.created_at {
            let (x, y) = (x.drop_first(), y.drop_first());
            order::lemma_key_le_parts(x, y);
        }
    }
}

/// The intents in a workspace are all those that name it, from the oldest on.
pub proof fn lemma_workspace_intents_listed(
    v: SocietyView,
    workspace: Seq<u8>,
    item: AgentIntentView,
    i: int,
    j: int,
)
    ensures
        ({
            let all = order::listed(v.intents, intents_in(workspace), by_intent());
            &&& all.contains(item) <==> table::values(v.intents).contains(item)
                && item.workspace == Some(workspace)
            &&& 0 <= i < j < all.len() ==> {
                let (a, b) = (all[i], all[j]);
                &&& a.created_at <= b.created_at
                &&& a.created_at == b.created_at ==> text::text_le(a.author, b.author)
                &&& a.created_at == b.created_at && a.author == b.author ==> text::text_le(a.id, b.id)
            }
        }),
{
    let all = order::listed(v.intents, intents_in(workspace), by_intent());
    order::lemma_listed(v.intents, intents_in(workspace), by_intent());
    assert(all.contains(item) <==> table::values(v.intents).contains(item)
                && item.workspace == Some(workspace));
    if 0 <= i < j < all.len() {
        let (a, b) = (all[i], all[j]);
        let (x, y) = (by_intent()(a), by_intent()(b));
        assert(order::key_le(x, y));
        order::lemma_key_le_parts(x, y);
        if a.created_at == b.created_at {
            let (x, y) = (x.drop_first(), y.drop_first());
            order::lemma_key_le_parts(x, y);
            if a.author == b.author {
                let (x, y) = (x.drop_first(), y.drop_first());
                order::lemma_key_le_parts(x, y);
            }
        }
    }
}

/// Responses are listed from the oldest on, all of them.
pub proof fn lemma_responses_listed(
    v: SocietyView,
    item: IntentResponseView,
    i: int,
    j: int,
)
    ensures
        ({
            let all = order::listed(v.intent_responses, order::every(), by_response());
            &&& all.contains(item) <==> table::values(v.intent_responses).contains(item)
            &&& 0 <= i < j < all.len() ==> {
                let (a, b) = (all[i], all[j]);
                &&& a.created_at <= b.created_at
                &&& a.created_at == b.created_at ==> text::text_le(a.intent_id, b.intent_id)
                &&& a.created_at == b.created_at && a.intent_id == b.intent_id ==> text::text_le(a.responder, b.responder)
                &&& a.created_at == b.created_at && a.intent_id == b.intent_id && a.responder == b.responder ==> text::text_le(a.id, b.id)
            }
        }),
{
    let all = order::listed(v.intent_responses, order::every(), by_response());
    order::lemma_listed(v.intent_responses, order::every(), by_response());
    assert(all.contains(item) <==> table::values(v.intent_responses).contains(item));
    if 0 <= i < j < all.len() {
        let (a, b) = (all[i], all[j]);
        let (x, y) = (by_response()(a), by_response()(b));
        assert(order::key_le(x, y));
        order::lemma_key_le_parts(x, y);
        if a.created_at == b.created_at {
            let (x, y) = (x.drop_first(), y.drop_first());
            order::lemma_key_le_parts(x, y);
            if a.intent_id == b.intent_id {
                let (x, y) = (x.drop_first(), y.drop_first());
                order::lemma_key_le_parts(x, y);
                if a.responder == b.responder {
                    let (x, y) = (x.drop_first(), y.drop_first());
                    order::lemma_key_le_parts(x, y);
                }
            }
        }
    }
}

/// The responses to an intent are all those that name it, from the oldest on.
pub proof fn lemma_responses_to_intent_listed(
    v: SocietyView,
    intent_id: Seq<char>,
    item: IntentResponseView,
    i: int,
    j: int,
)
    ensures
        ({
            let all = order::listed(v.intent_responses, answers(intent_id), by_response());
            &&& all.contains(item) <==> table::values(v.intent_responses).contains(item)
                && item.intent_id == intent_id
            &&& 0 <= i < j < all.len() ==> {
                let (a, b) = (all[i], all[j]);
                &&& a.created_at <= b.created_at
                &&& a.created_at == b.created_at ==> text::text_le(a.intent_id, b.intent_id)
                &&& a.created_at == b.created_at && a.intent_id == b.intent_id ==> text::text_le(a.responder, b.responder)
                &&& a.created_at == b.created_at && a.intent_id == b.intent_id && a.responder == b.responder ==> text::text_le(a.id, b.id)
            }
        }),
{
    let all = order::listed(v.intent_responses, answers(intent_id), by_response());
    order::lemma_listed(v.intent_responses, answers(intent_id), by_response());
    assert(all.contains(item) <==> table::values(v.intent_responses).contains(item)
                && item.intent_id == intent_id);
    if 0 <= i < j < all.len() {
        let (a, b) = (all[i], all[j]);
        let (x, y) = (by_response()(a), by_response()(b));
        assert(order::key_le(x, y));
        order::lemma_key_le_parts(x, y);
        if a.created_at == b.created_at {
            let (x, y) = (x.drop_first(), y.drop_first());
            order::lemma_key_le_parts(x, y);
            if a.intent_id == b.intent_id {
                let (x, y) = (x.drop_first(), y.drop_first());
                order::lemma_key_le_parts(x, y);
                if a.responder == b.responder {
                    let (x, y) = (x.drop_first(), y.drop_first());
                    order::lemma_key_le_parts(x, y);
                }
            }
        }
    }
}

/// The responses of an agent are all its own, from the oldest on.
pub proof fn lemma_agent_responses_listed(
    v: SocietyView,
    responder: Seq<char>,
    item: IntentResponseView,
    i: int,
    j: int,
)
    ensures
        ({
            let all = order::listed(v.intent_responses, answers_by(responder), by_response());
            &&& all.contains(item) <==> table::values(v.intent_responses).contains(item)
                && item.responder == responder
            &&& 0 <= i < j < all.len() ==> {
                let (a, b) = (all[i], all[j]);
                &&& a.created_at <= b.created_at
                &&& a.created_at == b.created_at ==> text::text_le(a.intent_id, b.intent_id)
                &&& a.created_at == b.created_at && a.intent_id == b.intent_id ==> text::text_le(a.responder, b.responder)
                &&& a.created_at == b.created_at && a.intent_id == b.intent_id && a.responder == b.responder ==> text::text_le(a.id, b.id)
            }
        }),
{
    let all = order::listed(v.intent_responses, answers_by(responder), by_response());
    order::lemma_listed(v.intent_responses, answers_by(responder), by_response());
    assert(all.contains(item) <==> table::values(v.intent_responses).contains(item)
                && item.responder == responder);
    if 0 <= i < j < all.len() {
        let (a, b) = (all[i], all[j]);
        let (x, y) = (by_response()(a), by_response()(b));
        assert(order::key_le(x, y));
        order::lemma_key_le_parts(x, y);
        if a.created_at == b.created_at {
            let (x, y) = (x.drop_first(), y.drop_first());
            order::lemma_key_le_parts(x, y);
            if a.intent_id == b.intent_id {
                let (x, y) = (x.drop_first(), y.drop_first());
                order::lemma_key_le_parts(x, y);
                if a.responder == b.responder {
                    let (x, y) = (x.drop_first(), y.drop_first());
                    order::lemma_key_le_parts(x, y);
                }
            }
        }
    }
}

/// The responses in a workspace are all those that name it, from the oldest on.
pub proof fn lemma_workspace_responses_listed(
    v: SocietyView,
    workspace: Seq<u8>,
    item: IntentResponseView,
    i: int,
    j: int,
)
    ensures
        ({
            let all = order::listed(v.intent_responses, answers_in(workspace), by_response());
            &&& all.contains(item) <==> table::values(v.intent_responses).contains(item)
                && item.workspace == Some(workspace)
            &&& 0 <= i < j < all.len() ==> {
                let (a, b) = (all[i], all[j]);
                &&& a.created_at <= b.created_at
                &&& a.created_at == b.created_at ==> text::text_le(a.intent_id, b.intent_id)
                &&& a.created_at == b.created_at && a.intent_id == b.intent_id ==> text::text_le(a.responder, b.responder)
                &&& a.created_at == b.created_at && a.intent_id == b.intent_id && a.responder == b.responder ==> text::text_le(a.id, b.id)
            }
        }),
{
    let all = order::listed(v.intent_responses, answers_in(workspace), by_response());
    order::lemma_listed(v.intent_responses, answers_in(workspace), by_response());
    assert(all.contains(item) <==> table::values(v.intent_responses).contains(item)
                && item.workspace == Some(workspace));
    if 0 <= i < j < all.len() {
        let (a, b) = (all[i], all[j]);
        let (x, y) = (by_response()(a), by_response()(b));
        assert(order::key_le(x, y));
        order::lemma_key_le_parts(x, y);
        if a.created_at == b.created_at {
            let (x, y) = (x.drop_first(), y.drop_first());
            order::lemma_key_le_parts(x, y);
            if a.intent_id == b.intent_id {
                let (x, y) = (x.drop_first(), y.drop_first());
                order::lemma_key_le_parts(x, y);
                if a.responder == b.responder {
                    let (x, y) = (x.drop_first(), y.drop_first());
                    order::lemma_key_le_parts(x, y);
                }
            }
        }
    }
}

/// Collectives are listed by identifier, all of them.
pub proof fn lemma_collectives_listed(
    v: SocietyView,
    item: CollectiveView,
    i: int,
    j: int,
)
    ensures
        ({
            let all = order::listed(v.collectives, order::every(), by_collective());
            &&& all.contains(item) <==> table::values(v.collectives).contains(item)
            &&& 0 <= i < j < all.len() ==> {
                let (a, b) = (all[i], all[j]);
                &&& text::text_le(a.id, b.id)
            }
        }),
{
    let all = order::listed(v.collectives, order::every(), by_collective());
    order::lemma_listed(v.collectives, order::every(), by_collective());
    assert(all.contains(item) <==> table::values(v.collectives).contains(item));
    if 0 <= i < j < all.len() {
        let (a, b) = (all[i], all[j]);
        let (x, y) = (by_collective()(a), by_collective()(b));
        assert(order::key_le(x, y));
        order::lemma_key_le_parts(x, y);
    }
}

/// The proposals in a collective are all those that name it, from the oldest
/// on.
pub proof fn lemma_proposals_listed(
    v: SocietyView,
    collective_id: Seq<char>,
    item: CollectiveProposalView,
    i: int,
    j: int,
)
    ensures
        ({
            let all = order::listed(v.collective_proposals, proposed_in(collective_id), by_proposal());
            &&& all.contains(item) <==> table::values(v.collective_proposals).contains(item)
                && item.collective_id == collective_id
            &&& 0 <= i < j < all.len() ==> {
                let (a, b) = (all[i], all[j]);
                &&& a.created_at <= b.created_at
                &&& a.created_at == b.created_at ==> text::text_le(a.id, b.id)
            }
        }),
{
    let all = order::listed(v.collective_proposals, proposed_in(collective_id), by_proposal());
    order::lemma_listed(v.collective_proposals, proposed_in(collective_id), by_proposal());
    assert(all.contains(item) <==> table::values(v.collective_proposals).contains(item)
                && item.collective_id == collective_id);
    if 0 <= i < j < all.len() {
        let (a, b) = (all[i], all[j]);
        let (x, y) = (by_proposal()(a), by_proposal()(b));
        assert(order::key_le(x, y));
        order::lemma_key_le_parts(x, y);
        if a.created_at == b.created_at {
            let (x, y) = (x.drop_first(), y.drop_first());
            order::lemma_key_le_parts(x, y);
        }
    }
}

/// The votes on a proposal are all those on it, by voter.
pub proof fn lemma_votes_listed(
    v: SocietyView,
    key: Seq<char>,
    item: CollectiveVoteView,
    i: int,
    j: int,
)
    ensures
        ({
            let all = order::listed(v.collective_votes, votes_on(key), by_voter());
            &&& all.contains(item) <==> table::values(v.collective_votes).contains(item)
                && proposal_key(item.collective_id, item.proposal_id) == key
            &&& 0 <= i < j < all.len() ==> {
                let (a, b) = (all[i], all[j]);
                &&& text::text_le(a.voter, b.voter)
            }
        }),
{
    let all = order::listed(v.collective_votes, votes_on(key), by_voter());
    order::lemma_listed(v.collective_votes, votes_on(key), by_voter());
    assert(all.contains(item) <==> table::values(v.collective_votes).contains(item)
                && proposal_key(item.collective_id, item.proposal_id) == key);
    if 0 <= i < j < all.len() {
        let (a, b) = (all[i], all[j]);
        let (x, y) = (by_voter()(a), by_voter()(b));
        assert(order::key_le(x, y));
        order::lemma_key_le_parts(x, y);
    }
}

/// The decisions on a task are all those that name it, from the earliest on.
pub proof fn lemma_task_judgments_listed(
    v: SocietyView,
    task_id: Seq<char>,
    item: CollectiveDecisionView,
    i: int,
    j: int,
)
    ensures
        ({
            let all = order::listed(v.collective_decisions, judges_task(task_id), by_decision());
            &&& all.contains(item) <==> table::values(v.collective_decisions).contains(item)
                && item.task_id == Some(task_id)
            &&& 0 <= i < j < all.len() ==> {
                let (a, b) = (all[i], all[j]);
                &&& a.timestamp <= b.timestamp
                &&& a.timestamp == b.timestamp ==> text::text_le(a.collective_id, b.collective_id)
                &&& a.timestamp == b.timestamp && a.collective_id == b.collective_id ==> text::text_le(a.proposal_id, b.proposal_id)
                &&& a.timestamp == b.timestamp && a.collective_id == b.collective_id && a.proposal_id == b.proposal_id ==> text::text_le(a.decider, b.decider)
            }
        }),
{
    let all = order::listed(v.collective_decisions, judges_task(task_id), by_decision());
    order::lemma_listed(v.collective_decisions, judges_task(task_id), by_decision());
    assert(all.contains(item) <==> table::values(v.collective_decisions).contains(item)
                && item.task_id == Some(task_id));
    if 0 <= i < j < all.len() {
        let (a, b) = (all[i], all[j]);
        let (x, y) = (by_decision()(a), by_decision()(b));
        assert(order::key_le(x, y));
        order::lemma_key_le_parts(x, y);
        if a.timestamp == b.timestamp {
            let (x, y) = (x.drop_first(), y.drop_first());
            order::lemma_key_le_parts(x, y);
            if a.collective_id == b.collective_id {
                let (x, y) = (x.drop_first(), y.drop_first());
                order::lemma_key_le_parts(x, y);
                if a.proposal_id == b.proposal_id {
                    let (x, y) = (x.drop_first(), y.drop_first());
                    order::lemma_key_le_parts(x, y);
                }
            }
        }
    }
}

/// The decisions on a claim are all those that name it and its task, from the
/// earliest on.
pub proof fn lemma_claim_judgments_listed(
    v: SocietyView,
    task_id: Seq<char>,
    claim: Seq<char>,
    item: CollectiveDecisionView,
    i: int,
    j: int,
)
    ensures
        ({
            let all = order::listed(v.collective_decisions, judges_claim(task_id, claim), by_decision());
            &&& all.contains(item) <==> table::values(v.collective_decisions).contains(item)
                && item.task_id == Some(task_id) && item.claim_id == Some(claim)
            &&& 0 <= i < j < all.len() ==> {
                let (a, b) = (all[i], all[j]);
                &&& a.timestamp <= b.timestamp
                &&& a.timestamp == b.timestamp ==> text::text_le(a.collective_id, b.collective_id)
                &&& a.timestamp == b.timestamp && a.collective_id == b.collective_id ==> text::text_le(a.proposal_id, b.proposal_id)
                &&& a.timestamp == b.timestamp && a.collective_id == b.collective_id && a.proposal_id == b.proposal_id ==> text::text_le(a.decider, b.decider)
            }
        }),
{
    let all = order::listed(v.collective_decisions, judges_claim(task_id, claim), by_decision());
    order::lemma_listed(v.collective_decisions, judges_claim(task_id, claim), by_decision());
    assert(all.contains(item) <==> table::values(v.collective_decisions).contains(item)
                && item.task_id == Some(task_id) && item.claim_id == Some(claim));
    if 0 <= i < j < all.len() {
        let (a, b) = (all[i], all[j]);
        let (x, y) = (by_decision()(a), by_decision()(b));
        assert(order::key_le(x, y));
        order::lemma_key_le_parts(x, y);
        if a.timestamp == b.timestamp {
            let (x, y) = (x.drop_first(), y.drop_first());
            order::lemma_key_le_parts(x, y);
            if a.collective_id == b.collective_id {
                let (x, y) = (x.drop_first(), y.drop_first());
                order::lemma_key_le_parts(x, y);
                if a.proposal_id == b.proposal_id {
                    let (x, y) = (x.drop_first(), y.drop_first());
                    order::lemma_key_le_parts(x, y);
                }
            }
        }
    }
}

/// The decisions on an agent are all those that name it, from the earliest on.
pub proof fn lemma_agent_judgments_listed(
    v: SocietyView,
    target: Seq<char>,
    item: CollectiveDecisionView,
    i: int,
    j: int,
)
    ensures
        ({
            let all = order::listed(v.collective_decisions, judges_agent(target), by_decision());
            &&& all.contains(item) <==> table::values(v.collective_decisions).contains(item)
                && item.target == Some(target)
            &&& 0 <= i < j < all.len() ==> {
                let (a, b) = (all[i], all[j]);
                &&& a.timestamp <= b.timestamp
                &&& a.timestamp == b.timestamp ==> text::text_le(a.collective_id, b.collective_id)
                &&& a.timestamp == b.timestamp && a.collective_id == b.collective_id ==> text::text_le(a.proposal_id, b.proposal_id)
                &&& a.timestamp == b.timestamp && a.collective_id == b.collective_id && a.proposal_id == b.proposal_id ==> text::text_le(a.decider, b.decider)
            }
        }),
{
    let all = order::listed(v.collective_decisions, judges_agent(target), by_decision());
    order::lemma_listed(v.collective_decisions, judges_agent(target), by_decision());
    assert(all.contains(item) <==> table::values(v.collective_decisions).contains(item)
                && item.target == Some(target));
    if 0 <= i < j < all.len() {
        let (a, b) = (all[i], all[j]);
        let (x, y) = (by_decision()(a), by_decision()(b));
        assert(order::key_le(x, y));
        order::lemma_key_le_parts(x, y);
        if a.timestamp == b.timestamp {
            let (x, y) = (x.drop_first(), y.drop_first());
            order::lemma_key_le_parts(x, y);
            if a.collective_id == b.collective_id {
                let (x, y) = (x.drop_first(), y.drop_first());
                order::lemma_key_le_parts(x, y);
                if a.proposal_id == b.proposal_id {
                    let (x, y) = (x.drop_first(), y.drop_first());
                    order::lemma_key_le_parts(x, y);
                }
            }
        }
    }
}

/// Tasks are listed by identifier, all of them.
pub proof fn lemma_tasks_listed(
    v: SocietyView,
    item: TaskView,
    i: int,
    j: int,
)
    ensures
        ({
            let all = order::listed(v.market.tasks, order::every(), task_market::by_task_id());
            &&& all.contains(item) <==> table::values(v.market.tasks).contains(item)
            &&& 0 <= i < j < all.len() ==> {
                let (a, b) = (all[i], all[j]);
                &&& text::text_le(a.id, b.id)
            }
        }),
{
    let all = order::listed(v.market.tasks, order::every(), task_market::by_task_id());
    order::lemma_listed(v.market.tasks, order::every(), task_market::by_task_id());
    assert(all.contains(item) <==> table::values(v.market.tasks).contains(item));
    if 0 <= i < j < all.len() {
        let (a, b) = (all[i], all[j]);
        let (x, y) = (task_market::by_task_id()(a), task_market::by_task_id()(b));
        assert(order::key_le(x, y));
        order::lemma_key_le_parts(x, y);
    }
}

/// The tasks open for a capability are all those published that require it, by
/// identifier.
pub proof fn lemma_open_tasks_listed(
    v: SocietyView,
    capability: Seq<char>,
    item: TaskView,
    i: int,
    j: int,
)
    ensures
        ({
            let all = order::listed(v.market.tasks, task_market::open_needing(capability), task_market::by_task_id());
            &&& all.contains(item) <==> table::values(v.market.tasks).contains(item)
                && item.state == TaskState::Published && item.required_capability == capability
            &&& 0 <= i < j < all.len() ==> {
                let (a, b) = (all[i], all[j]);
                &&& text::text_le(a.id, b.id)
            }
        }),
{
    let all = order::listed(v.market.tasks, task_market::open_needing(capability), task_market::by_task_id());
    order::lemma_listed(v.market.tasks, task_market::open_needing(capability), task_market::by_task_id());
    assert(all.contains(item) <==> table::values(v.market.tasks).contains(item)
                && item.state == TaskState::Published && item.required_capability == capability);
    if 0 <= i < j < all.len() {
        let (a, b) = (all[i], all[j]);
        let (x, y) = (task_market::by_task_id()(a), task_market::by_task_id()(b));
        assert(order::key_le(x, y));
        order::lemma_key_le_parts(x, y);
    }
}

/// The claims on a task are all those that name it, from the earliest on.
pub proof fn lemma_claims_listed(
    v: SocietyView,
    task_id: Seq<char>,
    item: TaskResultClaimView,
    i: int,
    j: int,
)
    ensures
        ({
            let all = order::listed(v.market.task_result_claims, task_market::claims_task(task_id), task_market::by_claim());
            &&& all.contains(item) <==> table::values(v.market.task_result_claims).contains(item)
                && item.result.task_id == task_id
            &&& 0 <= i < j < all.len() ==> {
                let (a, b) = (all[i], all[j]);
                &&& a.timestamp <= b.timestamp
                &&& a.timestamp == b.timestamp ==> task_market::started(a.result) <= task_market::started(b.result)
                &&& a.timestamp == b.timestamp && task_market::started(a.result) == task_market::started(b.result) ==> task_market::finished(a.result) <= task_market::finished(b.result)
                &&& a.timestamp == b.timestamp && task_market::started(a.result) == task_market::started(b.result) && task_market::finished(a.result) == task_market::finished(b.result) ==> text::text_le(a.result.executor, b.result.executor)
            }
        }),
{
    let all = order::listed(v.market.task_result_claims, task_market::claims_task(task_id), task_market::by_claim());
    order::lemma_listed(v.market.task_result_claims, task_market::claims_task(task_id), task_market::by_claim());
    assert(all.contains(item) <==> table::values(v.market.task_result_claims).contains(item)
                && item.result.task_id == task_id);
    if 0 <= i < j < all.len() {
        let (a, b) = (all[i], all[j]);
        let (x, y) = (task_market::by_claim()(a), task_market::by_claim()(b));
        assert(order::key_le(x, y));
        order::lemma_key_le_parts(x, y);
        if a.timestamp == b.timestamp {
            let (x, y) = (x.drop_first(), y.drop_first());
            order::lemma_key_le_parts(x, y);
            if task_market::started(a.result) == task_market::started(b.result) {
                let (x, y) = (x.drop_first(), y.drop_first());
                order::lemma_key_le_parts(x, y);
                if task_market::finished(a.result) == task_market::finished(b.result) {
                    let (x, y) = (x.drop_first(), y.drop_first());
                    order::lemma_key_le_parts(x, y);
                }
            }
        }
    }
}

/// The claims of an agent are all its own, by task and then by the time of
/// execution.
pub proof fn lemma_agent_claims_listed(
    v: SocietyView,
    executor: Seq<char>,
    item: TaskResultClaimView,
    i: int,
    j: int,
)
    ensures
        ({
            let all = order::listed(v.market.task_result_claims, task_market::claimed_by(executor), task_market::by_agent_claim());
            &&& all.contains(item) <==> table::values(v.market.task_result_claims).contains(item)
                && item.result.executor == executor
            &&& 0 <= i < j < all.len() ==> {
                let (a, b) = (all[i], all[j]);
                &&& text::text_le(a.result.task_id, b.result.task_id)
                &&& a.result.task_id == b.result.task_id ==> task_market::started(a.result) <= task_market::started(b.result)
                &&& a.result.task_id == b.result.task_id && task_market::started(a.result) == task_market::started(b.result) ==> task_market::finished(a.result) <= task_market::finished(b.result)
            }
        }),
{
    let all = order::listed(v.market.task_result_claims, task_market::claimed_by(executor), task_market::by_agent_claim());
    order::lemma_listed(v.market.task_result_claims, task_market::claimed_by(executor), task_market::by_agent_claim());
    assert(all.contains(item) <==> table::values(v.market.task_result_claims).contains(item)
                && item.result.executor == executor);
    if 0 <= i < j < all.len() {
        let (a, b) = (all[i], all[j]);
        let (x, y) = (task_market::by_agent_claim()(a), task_market::by_agent_claim()(b));
        assert(order::key_le(x, y));
        order::lemma_key_le_parts(x, y);
        if a.result.task_id == b.result.task_id {
            let (x, y) = (x.drop_first(), y.drop_first());
            order::lemma_key_le_parts(x, y);
            if task_market::started(a.result) == task_market::started(b.result) {
                let (x, y) = (x.drop_first(), y.drop_first());
                order::lemma_key_le_parts(x, y);
            }
        }
    }
}

/// The attestations of a task are all those that name it, from the earliest on.
pub proof fn lemma_attestations_listed(
    v: SocietyView,
    task_id: Seq<char>,
    item: ExecutionAttestationView,
    i: int,
    j: int,
)
    ensures
        ({
            let all = order::listed(v.market.task_execution_attestations, task_market::attests_task(task_id), task_market::by_attestation());
            &&& all.contains(item) <==> table::values(v.market.task_execution_attestations).contains(item)
                && item.task_id == task_id
            &&& 0 <= i < j < all.len() ==> {
                let (a, b) = (all[i], all[j]);
                &&& a.observed_at <= b.observed_at
                &&& a.observed_at == b.observed_at ==> text::text_le(a.executor, b.executor)
                &&& a.observed_at == b.observed_at && a.executor == b.executor ==> text::text_le(a.attestor, b.attestor)
                &&& a.observed_at == b.observed_at && a.executor == b.executor && a.attestor == b.attestor ==> text::text_le(a.receipt_signature_hex, b.receipt_signature_hex)
            }
        }),
{
    let all = order::listed(v.market.task_execution_attestations, task_market::attests_task(task_id), task_market::by_attestation());
    order::lemma_listed(v.market.task_execution_attestations, task_market::attests_task(task_id), task_market::by_attestation());
    assert(all.contains(item) <==> table::values(v.market.task_execution_attestations).contains(item)
                && item.task_id == task_id);
    if 0 <= i < j < all.len() {
        let (a, b) = (all[i], all[j]);
        let (x, y) = (task_market::by_attestation()(a), task_market::by_attestation()(b));
        assert(order::key_le(x, y));
        order::lemma_key_le_parts(x, y);
        if a.observed_at == b.observed_at {
            let (x, y) = (x.drop_first(), y.drop_first());
            order::lemma_key_le_parts(x, y);
            if a.executor == b.executor {
                let (x, y) = (x.drop_first(), y.drop_first());
                order::lemma_key_le_parts(x, y);
                if a.attestor == b.attestor {
                    let (x, y) = (x.drop_first(), y.drop_first());
                    order::lemma_key_le_parts(x, y);
                }
            }
        }
    }
}

/// The results of an agent are all its own, by task.
pub proof fn lemma_agent_results_listed(
    v: SocietyView,
    executor: Seq<char>,
    item: TaskResultView,
    i: int,
    j: int,
)
    ensures
        ({
            let all = order::listed(v.market.task_results, task_market::made_by(executor), task_market::by_result());
            &&& all.contains(item) <==> table::values(v.market.task_results).contains(item)
                && item.executor == executor
            &&& 0 <= i < j < all.len() ==> {
                let (a, b) = (all[i], all[j]);
                &&& text::text_le(a.task_id, b.task_id)
                &&& a.task_id == b.task_id ==> a.exit_code <= b.exit_code
            }
        }),
{
    let all = order::listed(v.market.task_results, task_market::made_by(executor), task_market::by_result());
    order::lemma_listed(v.market.task_results, task_market::made_by(executor), task_market::by_result());
    assert(all.contains(item) <==> table::values(v.market.task_results).contains(item)
                && item.executor == executor);
    if 0 <= i < j < all.len() {
        let (a, b) = (all[i], all[j]);
        let (x, y) = (task_market::by_result()(a), task_market::by_result()(b));
        assert(order::key_le(x, y));
        order::lemma_key_le_parts(x, y);
        if a.task_id == b.task_id {
            let (x, y) = (x.drop_first(), y.drop_first());
            order::lemma_key_le_parts(x, y);
        }
    }
}

/// The disputes of a task are all those that name it, from the earliest on.
pub proof fn lemma_disputes_listed(
    v: SocietyView,
    task_id: Seq<char>,
    item: TaskDisputeView,
    i: int,
    j: int,
)
    ensures
        ({
            let all = order::listed(v.market.task_disputes, task_market::disputes_task(task_id), task_market::by_dispute());
            &&& all.contains(item) <==> table::values(v.market.task_disputes).contains(item)
                && item.task_id == task_id
            &&& 0 <= i < j < all.len() ==> {
                let (a, b) = (all[i], all[j]);
                &&& a.timestamp <= b.timestamp
                &&& a.timestamp == b.timestamp ==> text::text_le(a.disputer, b.disputer)
                &&& a.timestamp == b.timestamp && a.disputer == b.disputer ==> text::text_le(a.target, b.target)
            }
        }),
{
    let all = order::listed(v.market.task_disputes, task_market::disputes_task(task_id), task_market::by_dispute());
    order::lemma_listed(v.market.task_disputes, task_market::disputes_task(task_id), task_market::by_dispute());
    assert(all.contains(item) <==> table::values(v.market.task_disputes).contains(item)
                && item.task_id == task_id);
    if 0 <= i < j < all.len() {
        let (a, b) = (all[i], all[j]);
        let (x, y) = (task_market::by_dispute()(a), task_market::by_dispute()(b));
        assert(order::key_le(x, y));
        order::lemma_key_le_parts(x, y);
        if a.timestamp == b.timestamp {
            let (x, y) = (x.drop_first(), y.drop_first());
            order::lemma_key_le_parts(x, y);
            if a.disputer == b.disputer {
                let (x, y) = (x.drop_first(), y.drop_first());
                order::lemma_key_le_parts(x, y);
            }
        }
    }
}

/// The latest snapshot of a workspace is the last of those listed: no other of the
/// workspace is later.
pub proof fn lemma_last_snapshot_is_latest(
    v: SocietyView,
    workspace: Seq<u8>,
    item: WorkspaceSnapshotView,
)
    requires
        table::values(v.workspace_snapshots).contains(item),
        item.workspace == workspace,
    ensures
        ({
            let all = order::listed(v.workspace_snapshots, snapshots_of(workspace), by_snapshot());
            all.len() > 0 && all.last().workspace == workspace && item.timestamp
                <= all.last().timestamp
        }),
{
    let all = order::listed(v.workspace_snapshots, snapshots_of(workspace), by_snapshot());
    lemma_snapshots_listed(v, workspace, item, 0, 0);
    let i = all.index_of(item);
    lemma_snapshots_listed(v, workspace, all.last(), i, all.len() - 1);
    assert(all.contains(all.last()));
}

/// The interactions of an agent are those that it had with others or others had
/// with it, from the earliest on.
pub proof fn lemma_interactions_listed(
    v: SocietyView,
    agent: Seq<char>,
    item: InteractionView,
    i: int,
    j: int,
)
    ensures
        ({
            let all = order::sort_by_key(v.interactions.filter(involves(agent)), by_interaction());
            &&& all.contains(item) <==> v.interactions.contains(item) && (item.from == agent
                || item.to == agent)
            &&& 0 <= i < j < all.len() ==> {
                let (a, b) = (all[i], all[j]);
                &&& a.timestamp <= b.timestamp
                &&& a.timestamp == b.timestamp ==> text::text_le(a.id, b.id)
            }
        }),
{
    let some = v.interactions.filter(involves(agent));
    let all = order::sort_by_key(some, by_interaction());
    order::lemma_sort_by_key(some, by_interaction());
    order::lemma_sorted_contains(some, by_interaction(), item);
    order::lemma_kept_contains(v.interactions, involves(agent), item);
    if 0 <= i < j < all.len() {
        let (a, b) = (all[i], all[j]);
        let (x, y) = (by_interaction()(a), by_interaction()(b));
        assert(order::key_le(x, y));
        order::lemma_key_le_parts(x, y);
        if a.timestamp == b.timestamp {
            order::lemma_key_le_parts(x.drop_first(), y.drop_first());
        }
    }
}

/// The memories of an agent are those that it has of others and others have of
/// it, by the two agents.
pub proof fn lemma_memories_listed(
    v: SocietyView,
    agent: Seq<char>,
    item: ((Seq<char>, Seq<char>), ReputationScoreView),
    i: int,
    j: int,
)
    ensures
        ({
            let all = order::sort_by_key(v.reputations.filter(touching(Some(agent))), by_agents());
            &&& all.contains(item) <==> v.reputations.contains(item) && (item.0.0 == agent
                || item.0.1 == agent)
            &&& 0 <= i < j < all.len() ==> {
                let (a, b) = (all[i].0, all[j].0);
                &&& text::text_le(a.0, b.0)
                &&& a.0 == b.0 ==> text::text_le(a.1, b.1)
            }
        }),
        ({
            let all = order::sort_by_key(v.reputations.filter(touching(None)), by_agents());
            all.contains(item) <==> v.reputations.contains(item)
        }),
{
    let some = v.reputations.filter(touching(Some(agent)));
    let all = order::sort_by_key(some, by_agents());
    order::lemma_sort_by_key(some, by_agents());
    order::lemma_sorted_contains(some, by_agents(), item);
    order::lemma_kept_contains(v.reputations, touching(Some(agent)), item);
    let every = v.reputations.filter(touching(None));
    order::lemma_sorted_contains(every, by_agents(), item);
    order::lemma_kept_contains(v.reputations, touching(None), item);
    if 0 <= i < j < all.len() {
        let (x, y) = (by_agents()(all[i]), by_agents()(all[j]));
        assert(order::key_le(x, y));
        order::lemma_key_le_parts(x, y);
        if all[i].0.0 == all[j].0.0 {
            order::lemma_key_le_parts(x.drop_first(), y.drop_first());
        }
    }
}

/// The acceptance in effect on a task is its publisher's, of an offer of the agent
/// that the task is assigned to, and none such is earlier.
pub proof fn lemma_effective_acceptance(
    v: SocietyView,
    task_id: Seq<char>,
    rival: TaskAcceptanceView,
)
    ensures
        ({
            let market = v.market;
            let best = order::first(
                order::listed(
                    market.task_acceptances,
                    task_market::effective(market, task_id),
                    task_market::by_acceptance(),
                ),
            );
            let stands = |a: TaskAcceptanceView|
                table::values(market.task_acceptances).contains(a) && a.task_id == task_id && (
                table::find(market.tasks, task_id) matches Some(task) && task.publisher
                    == a.publisher && task.assigned_to == Some(a.bidder)) && exists|i: int|
                    0 <= i < task_market::offers_on(market, task_id).len() && (
                    #[trigger] task_market::offers_on(market, task_id)[i]).bidder == a.bidder
                        && task_market::offers_on(market, task_id)[i].price == a.price;
            &&& best matches Some(a) ==> stands(a)
            &&& stands(rival) ==> best is Some && best->Some_0.accepted_at <= rival.accepted_at
        }),
{
    let market = v.market;
    let keep = task_market::effective(market, task_id);
    let key = task_market::by_acceptance();
    order::lemma_first_listed(market.task_acceptances, keep, key);
    if let Some(best) = order::first(order::listed(market.task_acceptances, keep, key)) {
        if keep(rival) && table::values(market.task_acceptances).contains(rival) {
            order::lemma_key_le_parts(key(best), key(rival));
        }
    }
}

/// The cancellation of a cancelled task is its publisher's, and none such is
/// earlier; a task in any other state has none.
pub proof fn lemma_effective_cancellation(
    v: SocietyView,
    task_id: Seq<char>,
    rival: TaskCancellationView,
)
    ensures
        ({
            let market = v.market;
            let best = order::first(
                order::listed(
                    market.task_cancellations,
                    task_market::cancelled_by(market, task_id),
                    task_market::by_cancellation(),
                ),
            );
            let stands = |c: TaskCancellationView|
                table::values(market.task_cancellations).contains(c) && c.task_id == task_id && (
                table::find(market.tasks, task_id) matches Some(task) && task.publisher
                    == c.publisher && task.state == TaskState::Cancelled);
            &&& best matches Some(c) ==> stands(c)
            &&& stands(rival) ==> best is Some && best->Some_0.cancelled_at <= rival.cancelled_at
        }),
{
    let market = v.market;
    let keep = task_market::cancelled_by(market, task_id);
    let key = task_market::by_cancellation();
    order::lemma_first_listed(market.task_cancellations, keep, key);
    if let Some(best) = order::first(order::listed(market.task_cancellations, keep, key)) {
        if keep(rival) && table::values(market.task_cancellations).contains(rival) {
            order::lemma_key_le_parts(key(best), key(rival));
        }
    }
}

/// Agents are listed by name, each as often as it is known.
pub proof fn lemma_agents_listed(agents: Seq<Seq<char>>, someone: Seq<char>, i: int, j: int)
    ensures
        ({
            let all = order::sort_by_key(agents, by_name());
            &&& all.contains(someone) <==> agents.contains(someone)
            &&& all.len() == agents.len()
            &&& 0 <= i < j < all.len() ==> text::text_le(all[i], all[j])
        }),
{
    let all = order::sort_by_key(agents, by_name());
    order::lemma_sort_by_key(agents, by_name());
    order::lemma_sorted_contains(agents, by_name(), someone);
    if 0 <= i < j < all.len() {
        assert(order::key_le(by_name()(all[i]), by_name()(all[j])));
        order::lemma_key_le_parts(by_name()(all[i]), by_name()(all[j]));
    }
}

proof fn lemma_joined_some(members: Seq<Seq<u8>>, more: Seq<Option<Seq<u8>>>, w: Seq<u8>)
    ensures
        joined_some(members, more).contains(w) <==> members.contains(w) || more.contains(Some(w)),
    decreases more.len(),
{
    if more.len() > 0 {
        let front = more.drop_last();
        lemma_joined_some(members, front, w);
        if let Some(x) = more.last() {
            table::lemma_joined_contains(joined_some(members, front), x, w);
        }
        if front.contains(Some(w)) {
            assert(more[front.index_of(Some(w))] == Some(w));
        }
        if more.contains(Some(w)) && !front.contains(Some(w)) {
            let i = more.index_of(Some(w));
            if i < front.len() {
                assert(front[i] == Some(w));
            }
        }
        assert(more[more.len() - 1] == more.last());
    }
}

/// A workspace is mentioned exactly when someone joined it, was granted something
/// on it, intended, answered, saw or ran something in it.
#[verifier::spinoff_prover]
#[verifier::rlimit(40)]
pub proof fn lemma_mentioned_workspaces(v: SocietyView, w: Seq<u8>)
    ensures
        mentioned(v).contains(w) <==> {
            ||| exists|i: int| 0 <= i < v.presence.len() && (#[trigger] v.presence[i]).0 == w
            ||| exists|i: int|
                0 <= i < v.capability_grants.len() && (
                #[trigger] v.capability_grants[i]).1.capability.workspace == w
            ||| exists|i: int|
                0 <= i < v.intents.len() && (#[trigger] v.intents[i]).1.workspace == Some(w)
            ||| exists|i: int|
                0 <= i < v.intent_responses.len() && (#[trigger] v.intent_responses[i]).1.workspace
                    == Some(w)
            ||| exists|i: int|
                0 <= i < v.workspace_snapshots.len() && (
                #[trigger] v.workspace_snapshots[i]).1.workspace == w
            ||| exists|i: int|
                0 <= i < v.workspace_runs.len() && (#[trigger] v.workspace_runs[i]).1.workspace
                    == w
        },
{
    let a = Seq::new(v.presence.len(), |i: int| Some(v.presence[i].0));
    let b = Seq::new(
        v.capability_grants.len(),
        |i: int| Some(v.capability_grants[i].1.capability.workspace),
    );
    let c = Seq::new(v.intents.len(), |i: int| v.intents[i].1.workspace);
    let d = Seq::new(v.intent_responses.len(), |i: int| v.intent_responses[i].1.workspace);
    let e = Seq::new(
        v.workspace_snapshots.len(),
        |i: int| Some(v.workspace_snapshots[i].1.workspace),
    );
    let f = Seq::new(v.workspace_runs.len(), |i: int| Some(v.workspace_runs[i].1.workspace));
    let s1 = joined_some(Seq::empty(), a);
    let s2 = joined_some(s1, b);
    let s3 = joined_some(s2, c);
    let s4 = joined_some(s3, d);
    let s5 = joined_some(s4, e);
    lemma_joined_some(Seq::empty(), a, w);
    lemma_joined_some(s1, b, w);
    lemma_joined_some(s2, c, w);
    lemma_joined_some(s3, d, w);
    lemma_joined_some(s4, e, w);
    lemma_joined_some(s5, f, w);
    assert(mentioned(v) == joined_some(s5, f));
    assert(a.contains(Some(w)) <==> exists|i: int|
        0 <= i < v.presence.len() && (#[trigger] v.presence[i]).0 == w) by {
        if exists|i: int| 0 <= i < v.presence.len() && (#[trigger] v.presence[i]).0 == w {
            let i = choose|i: int| 0 <= i < v.presence.len() && (#[trigger] v.presence[i]).0 == w;
            assert(a[i] == Some(w));
        }
        if a.contains(Some(w)) {
            let i = a.index_of(Some(w));
            assert(v.presence[i].0 == w);
        }
    }
    assert(b.contains(Some(w)) <==> exists|i: int|
        0 <= i < v.capability_grants.len() && (
        #[trigger] v.capability_grants[i]).1.capability.workspace == w) by {
        if exists|i: int|
            0 <= i < v.capability_grants.len() && (
            #[trigger] v.capability_grants[i]).1.capability.workspace == w {
            let i = choose|i: int|
                0 <= i < v.capability_grants.len() && (
                #[trigger] v.capability_grants[i]).1.capability.workspace == w;
            assert(b[i] == Some(w));
        }
        if b.contains(Some(w)) {
            let i = b.index_of(Some(w));
            assert(v.capability_grants[i].1.capability.workspace == w);
        }
    }
    assert(c.contains(Some(w)) <==> exists|i: int|
        0 <= i < v.intents.len() && (#[trigger] v.intents[i]).1.workspace == Some(w)) by {
        if exists|i: int|
            0 <= i < v.intents.len() && (#[trigger] v.intents[i]).1.workspace == Some(w) {
            let i = choose|i: int|
                0 <= i < v.intents.len() && (#[trigger] v.intents[i]).1.workspace == Some(w);
            assert(c[i] == Some(w));
        }
        if c.contains(Some(w)) {
            let i = c.index_of(Some(w));
            assert(v.intents[i].1.workspace == Some(w));
        }
    }
    assert(d.contains(Some(w)) <==> exists|i: int|
        0 <= i < v.intent_responses.len() && (#[trigger] v.intent_responses[i]).1.workspace == Some(
            w,
        )) by {
        if exists|i: int|
            0 <= i < v.intent_responses.len() && (#[trigger] v.intent_responses[i]).1.workspace
                == Some(w) {
            let i = choose|i: int|
                0 <= i < v.intent_responses.len() && (#[trigger] v.intent_responses[i]).1.workspace
                    == Some(w);
            assert(d[i] == Some(w));
        }
        if d.contains(Some(w)) {
            let i = d.index_of(Some(w));
            assert(v.intent_responses[i].1.workspace == Some(w));
        }
    }
    assert(e.contains(Some(w)) <==> exists|i: int|
        0 <= i < v.workspace_snapshots.len() && (#[trigger] v.workspace_snapshots[i]).1.workspace
            == w) by {
        if exists|i: int|
            0 <= i < v.workspace_snapshots.len() && (
            #[trigger] v.workspace_snapshots[i]).1.workspace == w {
            let i = choose|i: int|
                0 <= i < v.workspace_snapshots.len() && (
                #[trigger] v.workspace_snapshots[i]).1.workspace == w;
            assert(e[i] == Some(w));
        }
        if e.contains(Some(w)) {
            let i = e.index_of(Some(w));
            assert(v.workspace_snapshots[i].1.workspace == w);
        }
    }
    assert(f.contains(Some(w)) <==> exists|i: int|
        0 <= i < v.workspace_runs.len() && (#[trigger] v.workspace_runs[i]).1.workspace == w) by {
        if exists|i: int|
            0 <= i < v.workspace_runs.len() && (#[trigger] v.workspace_runs[i]).1.workspace == w {
            let i = choose|i: int|
                0 <= i < v.workspace_runs.len() && (#[trigger] v.workspace_runs[i]).1.workspace
                    == w;
            assert(f[i] == Some(w));
        }
        if f.contains(Some(w)) {
            let i = f.index_of(Some(w));
            assert(v.workspace_runs[i].1.workspace == w);
        }
    }
}

/// Judgments tell the decisions that they stand for, and how far these hold.
pub proof fn lemma_judgments_tell_decisions(
    v: SocietyView,
    ds: Seq<CollectiveDecisionView>,
    i: int,
)
    requires
        0 <= i < ds.len(),
    ensures
        ({
            let j = judgments(v, ds)[i];
            &&& judgments(v, ds).len() == ds.len()
            &&& j.collective_id == ds[i].collective_id
            &&& j.proposal_id == ds[i].proposal_id
            &&& j.decider == ds[i].decider
            &&& j.outcome == ds[i].outcome
            &&& j.task_id == ds[i].task_id
            &&& j.claim_id == ds[i].claim_id
            &&& j.target == ds[i].target
            &&& j.truth_status == decision_status(v, ds[i])
            &&& j.reason == ds[i].reason
            &&& j.timestamp == ds[i].timestamp
        }),
{
}

/// A claim on a workspace is told with its standing.
pub proof fn lemma_ownership_told_with_standing(c: WorkspaceOwnershipClaimView)
    ensures
        ownership_fact(c).claim == c,
        ownership_fact(c).truth_status == ownership_status(c),
{
}

/// The claims on a workspace are all those on it: anchored ones first, and among
/// those of equal standing the latest.
pub proof fn lemma_ownership_claims_listed(
    v: SocietyView,
    workspace: Seq<u8>,
    item: WorkspaceOwnershipClaimView,
    i: int,
    j: int,
)
    ensures
        ({
            let all = order::listed(
                v.workspace_ownership_claims,
                claims_workspace(workspace),
                by_ownership(),
            );
            &&& all.contains(item) <==> table::values(v.workspace_ownership_claims).contains(item)
                && item.workspace == workspace
            &&& 0 <= i < j < all.len() ==> {
                let (a, b) = (all[i], all[j]);
                &&& ownership_status(b) == FactTruthStatus::Anchored ==> ownership_status(a)
                    == FactTruthStatus::Anchored
                &&& ownership_status(a) == ownership_status(b) ==> a.claimed_at >= b.claimed_at
                &&& ownership_status(a) == ownership_status(b) && a.claimed_at == b.claimed_at
                    ==> text::text_le(a.owner, b.owner)
            }
        }),
{
    let all = order::listed(
        v.workspace_ownership_claims,
        claims_workspace(workspace),
        by_ownership(),
    );
    order::lemma_listed(v.workspace_ownership_claims, claims_workspace(workspace), by_ownership());
    assert(all.contains(item) <==> table::values(v.workspace_ownership_claims).contains(item)
        && item.workspace == workspace);
    if 0 <= i < j < all.len() {
        let (a, b) = (all[i], all[j]);
        let (x, y) = (by_ownership()(a), by_ownership()(b));
        assert(order::key_le(x, y));
        order::lemma_key_le_parts(x, y);
        if ownership_status(a) == ownership_status(b) {
            let (x, y) = (x.drop_first(), y.drop_first());
            order::lemma_key_le_parts(x, y);
            if a.claimed_at == b.claimed_at {
                order::lemma_key_le_parts(x.drop_first(), y.drop_first());
            }
        }
    }
}

/// The results of claims are theirs, in the same order.
pub proof fn lemma_results_of_claims(claims: Seq<TaskResultClaimView>, i: int)
    requires
        0 <= i < claims.len(),
    ensures
        task_market::claimed_results(claims).len() == claims.len(),
        task_market::claimed_results(claims)[i] == claims[i].result,
{
}

/// Those who remember an agent are all who do, whatever the agent remembers.
pub proof fn lemma_witnesses_remember(
    v: SocietyView,
    target: Seq<char>,
    item: ((Seq<char>, Seq<char>), ReputationScoreView),
)
    ensures
        order::sort_by_key(
            v.reputations.filter(touching(Some(target))),
            by_agents(),
        ).filter(memories_of(target)).contains(item) <==> v.reputations.contains(item) && item.0.1
            == target,
{
    let whole = order::sort_by_key(v.reputations.filter(touching(Some(target))), by_agents());
    lemma_memories_listed(v, target, item, 0, 0);
    order::lemma_kept_contains(whole, memories_of(target), item);
}

} // verus!
