//! The society: identities, relationships, collectives, workspaces, intents and
//! tasks, as a sequence of events makes them known.
use crate::anchor::{
    anchor_collective_id, checkpoint_subject_matches_settlement, collective_in,
    decision_anchor_subject_matches, is_about, locates, meets_quorum, quorum,
};
use crate::facts::{
    capability_signature_id, edge_after, new_edge, new_reputation, or_empty, reputation_after,
    same_optional, settlement_valid, AgentIntent, AgentIntentView, CapabilityGrant,
    CapabilityGrantView, CapabilityRevocation, CapabilityRevocationView, Collective,
    CollectiveDecision, CollectiveDecisionView, CollectiveProposal, CollectiveProposalView,
    CollectiveView, CollectiveVote, CollectiveVoteView, FactTruthStatus, GovernanceSignal,
    GovernanceSignalView, IdentityRevocation, IdentityRevocationView, IntentResponse,
    IntentResponseView, Interaction, InteractionView, RelationKind, ReputationScore,
    ReputationScoreView, SettlementRecord, SettlementRecordView, SocialEdge, SocialEdgeView,
    TaskClaimJudgment, TaskClaimJudgmentView, TaskDispute, TaskDisputeView, VerifiedCapability,
    VerifiedCapabilityView, WorkspaceOwnershipClaim, WorkspaceOwnershipClaimView,
    WorkspaceOwnershipFact, WorkspaceOwnershipFactView, WorkspaceRun, WorkspaceRunView,
    WorkspaceSnapshot, WorkspaceSnapshotView,
};
use crate::manifest::{AgentManifest, AgentManifestView};
use crate::order::{self, KeyPart, KeyPartView, SortKey};
use crate::outside;
use crate::protocol::{
    equivocates, evidence_key, EquivocationProof, EquivocationProofView, SocialEvent,
    SocialEventKind, SocialEventKindView, SocialEventView,
};
use crate::recovery::{
    by_name, by_name_of, successor, with_approval, with_policy, with_rotation, Succession,
    SuccessionView,
};
use crate::settlement::{
    anchor_valid, anchored_valid, AuthorityKind, SettlementProof, SettlementProofView,
};
use crate::table::{self, Group, Key, Table};
use crate::task::{
    ExecutionAttestation, Task, TaskAcceptance, TaskCancellation, TaskOffer, TaskResult, TaskSpec,
};
use crate::task_market::{
    self, TaskMarketEffect, TaskMarketEffectView, TaskMarketProjection, TaskMarketProjectionView,
};
use crate::text;
use crate::twin::{lemma_bytes_view, Twin};
use crate::types::{Did, WorkspaceId};
use crate::wire::{self, Encode};
use vstd::prelude::*;
use vstd::string::*;

verus! {

broadcast use lemma_bytes_view;

/// The social graph of autonomous agents.
#[derive(Debug, PartialEq, Eq)]
pub struct Society {
    pub agents: Group<Did>,
    pub identity_revocations: Table<Did, IdentityRevocation>,
    pub succession: Succession,
    pub manifests: Table<Did, AgentManifest>,
    pub edges: Table<(Did, Did), SocialEdge>,
    pub reputations: Table<(Did, Did), ReputationScore>,
    pub interactions: Vec<Interaction>,
    pub collectives: Table<String, Collective>,
    pub collective_proposals: Table<String, CollectiveProposal>,
    pub collective_votes: Table<(String, Did), CollectiveVote>,
    pub collective_decisions: Table<String, CollectiveDecision>,
    pub presence: Group<(WorkspaceId, Did)>,
    pub capability_grants: Table<String, CapabilityGrant>,
    pub capability_revocations: Table<String, CapabilityRevocation>,
    pub workspace_snapshots: Table<String, WorkspaceSnapshot>,
    pub workspace_ownership_claims: Table<String, WorkspaceOwnershipClaim>,
    pub workspace_current_owners: Table<WorkspaceId, Did>,
    pub workspace_runs: Table<String, WorkspaceRun>,
    pub intents: Table<String, AgentIntent>,
    pub intent_responses: Table<String, IntentResponse>,
    pub market: TaskMarketProjection,
    pub settlements: Table<String, SettlementRecord>,
    pub equivocations: Table<(Did, String), EquivocationProof>,
}

/// The mathematical form of [`Society`].
#[verifier::ext_equal]
pub struct SocietyView {
    pub agents: Seq<Seq<char>>,
    pub identity_revocations: Seq<(Seq<char>, IdentityRevocationView)>,
    pub succession: SuccessionView,
    pub manifests: Seq<(Seq<char>, AgentManifestView)>,
    pub edges: Seq<((Seq<char>, Seq<char>), SocialEdgeView)>,
    pub reputations: Seq<((Seq<char>, Seq<char>), ReputationScoreView)>,
    pub interactions: Seq<InteractionView>,
    pub collectives: Seq<(Seq<char>, CollectiveView)>,
    pub collective_proposals: Seq<(Seq<char>, CollectiveProposalView)>,
    pub collective_votes: Seq<((Seq<char>, Seq<char>), CollectiveVoteView)>,
    pub collective_decisions: Seq<(Seq<char>, CollectiveDecisionView)>,
    pub presence: Seq<(Seq<u8>, Seq<char>)>,
    pub capability_grants: Seq<(Seq<char>, CapabilityGrantView)>,
    pub capability_revocations: Seq<(Seq<char>, CapabilityRevocationView)>,
    pub workspace_snapshots: Seq<(Seq<char>, WorkspaceSnapshotView)>,
    pub workspace_ownership_claims: Seq<(Seq<char>, WorkspaceOwnershipClaimView)>,
    pub workspace_current_owners: Seq<(Seq<u8>, Seq<char>)>,
    pub workspace_runs: Seq<(Seq<char>, WorkspaceRunView)>,
    pub intents: Seq<(Seq<char>, AgentIntentView)>,
    pub intent_responses: Seq<(Seq<char>, IntentResponseView)>,
    pub market: TaskMarketProjectionView,
    pub settlements: Seq<(Seq<char>, SettlementRecordView)>,
    pub equivocations: Seq<((Seq<char>, Seq<char>), EquivocationProofView)>,
}

impl DeepView for Society {
    type V = SocietyView;

    closed spec fn deep_view(&self) -> SocietyView {
        SocietyView {
            agents: self.agents.deep_view(),
            identity_revocations: self.identity_revocations.deep_view(),
            succession: self.succession.deep_view(),
            manifests: self.manifests.deep_view(),
            edges: self.edges.deep_view(),
            reputations: self.reputations.deep_view(),
            interactions: self.interactions.deep_view(),
            collectives: self.collectives.deep_view(),
            collective_proposals: self.collective_proposals.deep_view(),
            collective_votes: self.collective_votes.deep_view(),
            collective_decisions: self.collective_decisions.deep_view(),
            presence: self.presence.deep_view(),
            capability_grants: self.capability_grants.deep_view(),
            capability_revocations: self.capability_revocations.deep_view(),
            workspace_snapshots: self.workspace_snapshots.deep_view(),
            workspace_ownership_claims: self.workspace_ownership_claims.deep_view(),
            workspace_current_owners: self.workspace_current_owners.deep_view(),
            workspace_runs: self.workspace_runs.deep_view(),
            intents: self.intents.deep_view(),
            intent_responses: self.intent_responses.deep_view(),
            market: self.market.deep_view(),
            settlements: self.settlements.deep_view(),
            equivocations: self.equivocations.deep_view(),
        }
    }
}

impl Twin for Society {
    fn twin(&self) -> (r: Self) {
        Society {
            agents: self.agents.twin(),
            identity_revocations: self.identity_revocations.twin(),
            succession: self.succession.twin(),
            manifests: self.manifests.twin(),
            edges: self.edges.twin(),
            reputations: self.reputations.twin(),
            interactions: self.interactions.twin(),
            collectives: self.collectives.twin(),
            collective_proposals: self.collective_proposals.twin(),
            collective_votes: self.collective_votes.twin(),
            collective_decisions: self.collective_decisions.twin(),
            presence: self.presence.twin(),
            capability_grants: self.capability_grants.twin(),
            capability_revocations: self.capability_revocations.twin(),
            workspace_snapshots: self.workspace_snapshots.twin(),
            workspace_ownership_claims: self.workspace_ownership_claims.twin(),
            workspace_current_owners: self.workspace_current_owners.twin(),
            workspace_runs: self.workspace_runs.twin(),
            intents: self.intents.twin(),
            intent_responses: self.intent_responses.twin(),
            market: self.market.twin(),
            settlements: self.settlements.twin(),
            equivocations: self.equivocations.twin(),
        }
    }
}

impl Clone for Society {
    fn clone(&self) -> (r: Self)
        ensures
            r.deep_view() == self.deep_view(),
    {
        self.twin()
    }
}

/// The key of a grant.
pub open spec fn grant_key(v: CapabilityGrantView) -> Seq<char> {
    text::joined(seq![outside::hex_text(v.capability.workspace), v.capability.issuer, v.capability.subject, text::decimal(v.capability.expires_at as nat)], "|"@)
}

fn grant_key_of(v: &CapabilityGrant) -> (r: String)
    ensures
        r@ == grant_key(v.deep_view()),
{
    let parts = vec![v.capability.workspace.to_string(), v.capability.issuer.to_string(), v.capability.subject.to_string(), text::decimal_text(v.capability.expires_at)];
    assert(parts.deep_view() =~= seq![outside::hex_text(v.deep_view().capability.workspace), v.deep_view().capability.issuer, v.deep_view().capability.subject, text::decimal(v.deep_view().capability.expires_at as nat)]);
    text::piped(&parts)
}

/// The key of a snapshot.
pub open spec fn snapshot_key(v: WorkspaceSnapshotView) -> Seq<char> {
    text::joined(seq![outside::hex_text(v.workspace), v.actor, outside::hex_text(v.root), text::decimal(v.timestamp as nat)], "|"@)
}

fn snapshot_key_of(v: &WorkspaceSnapshot) -> (r: String)
    ensures
        r@ == snapshot_key(v.deep_view()),
{
    let parts = vec![v.workspace.to_string(), v.actor.to_string(), v.root.to_string(), text::decimal_text(v.timestamp)];
    assert(parts.deep_view() =~= seq![outside::hex_text(v.deep_view().workspace), v.deep_view().actor, outside::hex_text(v.deep_view().root), text::decimal(v.deep_view().timestamp as nat)]);
    text::piped(&parts)
}

/// The key of an ownership claim.
pub open spec fn ownership_key(v: WorkspaceOwnershipClaimView) -> Seq<char> {
    text::joined(
        seq![
            outside::hex_text(v.workspace),
            v.owner,
            or_empty(v.previous_owner),
            root_text(v.root),
        ],
        "|"@,
    )
}

/// A root in hexadecimal, or nothing.
pub open spec fn root_text(root: Option<Seq<u8>>) -> Seq<char> {
    match root {
        Some(cid) => outside::hex_text(cid),
        None => Seq::empty(),
    }
}

fn ownership_key_of(v: &WorkspaceOwnershipClaim) -> (r: String)
    ensures
        r@ == ownership_key(v.deep_view()),
{
    let previous = match &v.previous_owner {
        Some(did) => did.to_string(),
        None => String::new(),
    };
    let root = match &v.root {
        Some(cid) => cid.to_string(),
        None => String::new(),
    };
    let parts = vec![v.workspace.to_string(), v.owner.to_string(), previous, root];
    assert(parts.deep_view() =~= seq![
        outside::hex_text(v.deep_view().workspace),
        v.deep_view().owner,
        or_empty(v.deep_view().previous_owner),
        root_text(v.deep_view().root),
    ]);
    text::piped(&parts)
}

/// The key of a run: the hash of all that is said of it.
pub open spec fn run_key(v: WorkspaceRunView) -> Seq<char> {
    outside::hex_text(outside::sha256_of(wire::json(WorkspaceRun::wire(v))))
}

fn run_key_of(v: &WorkspaceRun) -> (r: String)
    ensures
        r@ == run_key(v.deep_view()),
{
    let payload = wire::json_bytes(&v.to_wire());
    outside::hex_encode(outside::sha256(payload.as_slice()).as_slice())
}

/// The key of a proposal in a collective.
pub open spec fn proposal_key(collective_id: Seq<char>, proposal_id: Seq<char>) -> Seq<char> {
    text::joined(seq![collective_id, proposal_id], "|"@)
}

fn collective_proposal_key(collective_id: &str, proposal_id: &str) -> (r: String)
    ensures
        r@ == proposal_key(collective_id@, proposal_id@),
{
    let parts = vec![text::owned(collective_id), text::owned(proposal_id)];
    assert(parts.deep_view() =~= seq![collective_id@, proposal_id@]);
    text::piped(&parts)
}

/// Arguments as they follow a command in a note.
pub open spec fn args_note(args: Seq<Seq<char>>) -> Seq<char> {
    if args.len() == 0 {
        Seq::empty()
    } else {
        " "@ + text::joined(args, " "@)
    }
}

fn format_args_for_note(args: &Vec<String>) -> (r: String)
    ensures
        r@ == args_note(args.deep_view()),
{
    if args.len() == 0 {
        String::new()
    } else {
        let all = text::join_texts(args, " ");
        text::joined_pair(" ", all.as_str())
    }
}

/// Whether a snapshot was derived from a run or a result.
pub open spec fn derived(v: WorkspaceSnapshotView) -> bool {
    v.label == Some("workspace-run"@) || v.label == Some("task-result"@)
}

fn is_derived_snapshot(v: &WorkspaceSnapshot) -> (r: bool)
    ensures
        r == derived(v.deep_view()),
{
    same_optional(&v.label, "workspace-run") || same_optional(&v.label, "task-result")
}

/// A society of which nothing is known.
pub open spec fn nothing_known() -> SocietyView {
    SocietyView {
        agents: Seq::empty(),
        identity_revocations: Seq::empty(),
        succession: SuccessionView {
            rotations: Seq::empty(),
            policies: Seq::empty(),
            approvals: Seq::empty(),
        },
        manifests: Seq::empty(),
        edges: Seq::empty(),
        reputations: Seq::empty(),
        interactions: Seq::empty(),
        collectives: Seq::empty(),
        collective_proposals: Seq::empty(),
        collective_votes: Seq::empty(),
        collective_decisions: Seq::empty(),
        presence: Seq::empty(),
        capability_grants: Seq::empty(),
        capability_revocations: Seq::empty(),
        workspace_snapshots: Seq::empty(),
        workspace_ownership_claims: Seq::empty(),
        workspace_current_owners: Seq::empty(),
        workspace_runs: Seq::empty(),
        intents: Seq::empty(),
        intent_responses: Seq::empty(),
        market: task_market::empty_board(),
        settlements: Seq::empty(),
        equivocations: Seq::empty(),
    }
}

/// The society with an agent in it.
pub open spec fn registered(v: SocietyView, did: Seq<char>) -> SocietyView {
    SocietyView { agents: table::joined(v.agents, did), ..v }
}

/// The society after an identity was revoked: the first revocation stands.
pub open spec fn with_revocation(v: SocietyView, r: IdentityRevocationView) -> SocietyView {
    SocietyView {
        agents: table::joined(v.agents, r.did),
        identity_revocations: table::put_new(v.identity_revocations, r.did, r),
        ..v
    }
}

/// The society after a manifest: the last one stands.
pub open spec fn with_manifest(v: SocietyView, m: AgentManifestView) -> SocietyView {
    SocietyView {
        agents: table::joined(v.agents, m.did),
        manifests: table::put(v.manifests, m.did, m),
        ..v
    }
}

/// The society after an agent joined a workspace.
pub open spec fn with_presence(v: SocietyView, agent: Seq<char>, workspace: Seq<u8>) -> SocietyView {
    SocietyView {
        agents: table::joined(v.agents, agent),
        presence: table::joined(v.presence, (workspace, agent)),
        ..v
    }
}

/// Whether an ownership claim is anchored.
pub open spec fn ownership_status(c: WorkspaceOwnershipClaimView) -> FactTruthStatus {
    match c.anchor {
        Some(anchor) if anchor_valid(anchor) is Ok => FactTruthStatus::Anchored,
        _ => FactTruthStatus::Claimed,
    }
}

fn workspace_ownership_truth_status(claim: &WorkspaceOwnershipClaim) -> (r: FactTruthStatus)
    ensures
        r == ownership_status(claim.deep_view()),
{
    match &claim.anchor {
        Some(anchor) => if anchor.validate().is_ok() {
            FactTruthStatus::Anchored
        } else {
            FactTruthStatus::Claimed
        },
        None => FactTruthStatus::Claimed,
    }
}

fn unanchored(claim: &WorkspaceOwnershipClaim) -> (r: u64)
    ensures
        r == (if ownership_status(claim.deep_view()) == FactTruthStatus::Anchored {
            0u64
        } else {
            1u64
        }),
{
    match workspace_ownership_truth_status(claim) {
        FactTruthStatus::Anchored => 0,
        FactTruthStatus::Claimed => 1,
    }
}

/// Claims by standing: anchored first, then the latest, then by owner.
pub open spec fn by_ownership() -> spec_fn(WorkspaceOwnershipClaimView) -> SortKey {
    |v: WorkspaceOwnershipClaimView|
        seq![
            KeyPartView::Num((if ownership_status(v) == FactTruthStatus::Anchored { 0u64 } else { 1u64 }) as int),
            KeyPartView::Num(order::opposite(v.claimed_at as int)),
            KeyPartView::Text(v.owner),
        ]
}

fn by_ownership_of(v: &WorkspaceOwnershipClaim) -> (k: Vec<KeyPart>)
    ensures
        k.deep_view() == by_ownership()(v.deep_view()),
{
    let k = vec![
            KeyPart::Num(unanchored(v) as i128),
            KeyPart::Num(order::negated(v.claimed_at)),
            KeyPart::Text(v.owner.to_string()),
        ];
    assert(k.deep_view() =~= by_ownership()(v.deep_view()));
    k
}

/// Claims on a workspace.
pub open spec fn claims_workspace(workspace: Seq<u8>) -> spec_fn(WorkspaceOwnershipClaimView) -> bool {
    |v: WorkspaceOwnershipClaimView| v.workspace == workspace
}

/// The owner of a workspace: the one in possession, or else the best claimant.
pub open spec fn owner_of(v: SocietyView, workspace: Seq<u8>) -> Option<Seq<char>> {
    match table::find(v.workspace_current_owners, workspace) {
        Some(owner) => Some(owner),
        None => match order::first(
            order::listed(
                v.workspace_ownership_claims,
                claims_workspace(workspace),
                by_ownership(),
            ),
        ) {
            Some(claim) => Some(claim.owner),
            None => None,
        },
    }
}

/// The society after an ownership claim was adopted.
pub open spec fn with_owner(v: SocietyView, c: WorkspaceOwnershipClaimView) -> SocietyView {
    SocietyView {
        agents: table::joined(v.agents, c.owner),
        workspace_current_owners: table::put(v.workspace_current_owners, c.workspace, c.owner),
        workspace_ownership_claims: match table::find(
            v.workspace_ownership_claims,
            ownership_key(c),
        ) {
            Some(known) if c.claimed_at < known.claimed_at => v.workspace_ownership_claims,
            _ => table::put(v.workspace_ownership_claims, ownership_key(c), c),
        },
        ..v
    }
}

/// Whether a claim can be adopted: it names no previous owner, and nobody else
/// owns the workspace.
pub open spec fn claim_stands(v: SocietyView, c: WorkspaceOwnershipClaimView) -> bool {
    &&& c.previous_owner is None
    &&& owner_of(v, c.workspace) matches Some(owner) ==> owner == c.owner
}

/// Whether a transfer can be adopted: its signer owns the workspace and says so.
pub open spec fn transfer_stands(
    v: SocietyView,
    signer: Seq<char>,
    c: WorkspaceOwnershipClaimView,
) -> bool {
    &&& c.previous_owner == Some(signer)
    &&& owner_of(v, c.workspace) == Some(signer)
}

/// The society after a grant: the first of a key stands.
pub open spec fn with_grant(v: SocietyView, g: CapabilityGrantView) -> SocietyView {
    SocietyView {
        agents: table::joined(
            table::joined(v.agents, g.capability.issuer),
            g.capability.subject,
        ),
        capability_grants: table::put_new(v.capability_grants, grant_key(g), g),
        ..v
    }
}

/// The identifier of a capability's signature.
pub open spec fn signature_id(g: CapabilityGrantView) -> Seq<char> {
    outside::hex_text(outside::sha256_of(g.capability.signature))
}

/// Whether an issuer granted a capability with this signature.
pub open spec fn granted(v: SocietyView, issuer: Seq<char>, id: Seq<char>) -> bool {
    exists|i: int|
        0 <= i < v.capability_grants.len() && (
        #[trigger] v.capability_grants[i]).1.capability.issuer == issuer && signature_id(
            v.capability_grants[i].1,
        ) == id
}

/// The society after a revocation of a grant: only its issuer can revoke it.
pub open spec fn with_grant_revoked(v: SocietyView, r: CapabilityRevocationView) -> SocietyView {
    SocietyView {
        agents: table::joined(v.agents, r.issuer),
        capability_revocations: if granted(v, r.issuer, r.capability_signature_id) {
            table::put_new(v.capability_revocations, r.capability_signature_id, r)
        } else {
            v.capability_revocations
        },
        ..v
    }
}

/// The society after a snapshot. The first of a key stands, but what was seen
/// replaces what was derived.
pub open spec fn with_snapshot(v: SocietyView, s: WorkspaceSnapshotView) -> SocietyView {
    SocietyView {
        agents: table::joined(v.agents, s.actor),
        workspace_snapshots: match table::find(v.workspace_snapshots, snapshot_key(s)) {
            Some(known) if !derived(known) || derived(s) => v.workspace_snapshots,
            _ => table::put(v.workspace_snapshots, snapshot_key(s), s),
        },
        ..v
    }
}

/// The snapshot that a run implies, if any.
pub open spec fn run_snapshot(r: WorkspaceRunView) -> Option<WorkspaceSnapshotView> {
    match r.output_root {
        Some(root) => Some(
            WorkspaceSnapshotView {
                workspace: r.workspace,
                actor: r.actor,
                root,
                label: Some("workspace-run"@),
                note: Some("run "@ + r.command + args_note(r.args)),
                timestamp: r.finished_at,
            },
        ),
        None => None,
    }
}

/// The society after a run; a known one changes nothing.
pub open spec fn with_run(v: SocietyView, r: WorkspaceRunView) -> SocietyView {
    let known = registered(v, r.actor);
    if table::holds(v.workspace_runs, run_key(r)) {
        known
    } else {
        let seen = match run_snapshot(r) {
            Some(s) => with_snapshot(known, s),
            None => known,
        };
        SocietyView { workspace_runs: table::put(v.workspace_runs, run_key(r), r), ..seen }
    }
}

/// The society after an intent: the first of an identifier stands.
pub open spec fn with_intent(v: SocietyView, i: AgentIntentView) -> SocietyView {
    SocietyView {
        agents: table::joined(v.agents, i.author),
        intents: table::put_new(v.intents, i.id, i),
        ..v
    }
}

/// The society after a response: the first of an identifier stands.
pub open spec fn with_response(v: SocietyView, r: IntentResponseView) -> SocietyView {
    SocietyView {
        agents: table::joined(v.agents, r.responder),
        intent_responses: table::put_new(v.intent_responses, r.id, r),
        ..v
    }
}

/// The society after a relation was declared.
pub open spec fn with_relation(
    v: SocietyView,
    from: Seq<char>,
    to: Seq<char>,
    kind: RelationKind,
    now: u64,
) -> SocietyView {
    SocietyView {
        agents: table::joined(table::joined(v.agents, from), to),
        edges: table::put(
            v.edges,
            (from, to),
            match table::find(v.edges, (from, to)) {
                Some(edge) => SocialEdgeView { kind, updated_at: now, ..edge },
                None => new_edge(from, to, kind, now),
            },
        ),
        ..v
    }
}

/// The society after a note on a relation.
pub open spec fn with_note(
    v: SocietyView,
    from: Seq<char>,
    to: Seq<char>,
    note: Seq<char>,
) -> SocietyView {
    match table::find(v.edges, (from, to)) {
        Some(edge) => SocietyView {
            edges: table::put(
                v.edges,
                (from, to),
                SocialEdgeView { notes: edge.notes.push(note), ..edge },
            ),
            ..v
        },
        None => v,
    }
}

/// The society after an interaction: relation and memory of one agent about the
/// other take note of the outcome.
pub open spec fn with_interaction(v: SocietyView, i: InteractionView) -> SocietyView {
    let pair = (i.from, i.to);
    let edge = match table::find(v.edges, pair) {
        Some(edge) => edge,
        None => new_edge(i.from, i.to, RelationKind::Acquaintance, i.timestamp),
    };
    let memory = match table::find(v.reputations, pair) {
        Some(memory) => memory,
        None => new_reputation(i.to, i.timestamp),
    };
    SocietyView {
        agents: table::joined(table::joined(v.agents, i.from), i.to),
        edges: table::put(v.edges, pair, edge_after(edge, i.outcome, i.timestamp)),
        reputations: table::put(
            v.reputations,
            pair,
            reputation_after(memory, i.outcome, i.timestamp),
        ),
        interactions: v.interactions.push(i),
        ..v
    }
}

/// A collective of which only the identifier is known.
pub open spec fn bare_collective(id: Seq<char>, created_at: u64) -> CollectiveView {
    CollectiveView {
        id,
        name: Seq::empty(),
        purpose: Seq::empty(),
        members: Seq::empty(),
        workspaces: Seq::empty(),
        created_at,
    }
}

/// The society with a collective in it.
pub open spec fn with_collective(v: SocietyView, id: Seq<char>, created_at: u64) -> SocietyView {
    SocietyView {
        collectives: table::put_new(v.collectives, id, bare_collective(id, created_at)),
        ..v
    }
}

/// The society after a collective was declared: name and purpose are replaced,
/// members are added.
pub open spec fn with_declared(
    v: SocietyView,
    id: Seq<char>,
    name: Seq<char>,
    purpose: Seq<char>,
    members: Seq<Seq<char>>,
    created_at: u64,
) -> SocietyView {
    SocietyView {
        agents: table::joined_all(v.agents, members),
        collectives: table::put(
            v.collectives,
            id,
            match table::find(v.collectives, id) {
                Some(c) => CollectiveView {
                    name,
                    purpose,
                    members: table::joined_all(c.members, members),
                    created_at: if c.created_at == 0 {
                        created_at
                    } else {
                        c.created_at
                    },
                    ..c
                },
                None => CollectiveView {
                    id,
                    name,
                    purpose,
                    members: table::joined_all(Seq::empty(), members),
                    workspaces: Seq::empty(),
                    created_at,
                },
            },
        ),
        ..v
    }
}

/// The society after an agent joined a collective.
pub open spec fn with_member(
    v: SocietyView,
    id: Seq<char>,
    member: Seq<char>,
    joined_at: u64,
) -> SocietyView {
    let c = match table::find(v.collectives, id) {
        Some(c) => c,
        None => bare_collective(id, joined_at),
    };
    SocietyView {
        agents: table::joined(v.agents, member),
        collectives: table::put(
            v.collectives,
            id,
            CollectiveView { members: table::joined(c.members, member), ..c },
        ),
        ..v
    }
}

/// The society after a workspace was attached to a collective.
pub open spec fn with_attached(v: SocietyView, id: Seq<char>, workspace: Seq<u8>) -> SocietyView {
    let c = match table::find(v.collectives, id) {
        Some(c) => c,
        None => bare_collective(id, 0),
    };
    SocietyView {
        collectives: table::put(
            v.collectives,
            id,
            CollectiveView { workspaces: table::joined(c.workspaces, workspace), ..c },
        ),
        ..v
    }
}

/// The society after a proposal: the first of a key stands.
pub open spec fn with_proposal(v: SocietyView, p: CollectiveProposalView) -> SocietyView {
    let known = with_collective(registered(v, p.proposer), p.collective_id, p.created_at);
    SocietyView {
        collective_proposals: table::put_new(
            v.collective_proposals,
            proposal_key(p.collective_id, p.id),
            p,
        ),
        ..known
    }
}

/// The society after a vote: the last of a voter stands.
pub open spec fn with_vote(v: SocietyView, b: CollectiveVoteView) -> SocietyView {
    let known = with_collective(registered(v, b.voter), b.collective_id, b.timestamp);
    SocietyView {
        collective_votes: table::put(
            v.collective_votes,
            (proposal_key(b.collective_id, b.proposal_id), b.voter),
            b,
        ),
        ..known
    }
}

/// The society after a decision: the last of a proposal stands.
pub open spec fn with_decision(v: SocietyView, d: CollectiveDecisionView) -> SocietyView {
    let known = with_collective(registered(v, d.decider), d.collective_id, d.timestamp);
    SocietyView {
        collective_decisions: table::put(
            v.collective_decisions,
            proposal_key(d.collective_id, d.proposal_id),
            d,
        ),
        ..known
    }
}

/// The society after a settlement: one whose proof does not hold is left out,
/// and the first of an identifier stands.
pub open spec fn with_settlement(v: SocietyView, s: SettlementRecordView) -> SocietyView {
    if settlement_valid(s) is Ok {
        SocietyView {
            agents: table::joined(table::joined(v.agents, s.payer), s.payee),
            settlements: table::put_new(v.settlements, s.id, s),
            ..v
        }
    } else {
        v
    }
}

/// The society after evidence of equivocation: evidence that does not hold is
/// left out.
pub open spec fn with_evidence(v: SocietyView, p: EquivocationProofView) -> SocietyView {
    if equivocates(p) is Ok {
        SocietyView {
            agents: table::joined(v.agents, p.author),
            equivocations: table::put_new(v.equivocations, (p.author, evidence_key(p)), p),
            ..v
        }
    } else {
        v
    }
}

/// The society after one effect of the task board.
pub open spec fn with_effect(v: SocietyView, e: TaskMarketEffectView) -> SocietyView {
    match e {
        TaskMarketEffectView::WorkspaceSnapshot(s) => with_snapshot(v, s),
        TaskMarketEffectView::Interaction(i) => with_interaction(v, i),
    }
}

/// The society after effects of the task board.
pub open spec fn with_effects(v: SocietyView, effects: Seq<TaskMarketEffectView>) -> SocietyView
    decreases effects.len(),
{
    if effects.len() == 0 {
        v
    } else {
        with_effect(with_effects(v, effects.drop_last()), effects.last())
    }
}

/// The society after a change of the task board and its effects.
pub open spec fn with_market(
    v: SocietyView,
    change: (TaskMarketProjectionView, Seq<TaskMarketEffectView>),
) -> SocietyView {
    with_effects(SocietyView { market: change.0, ..v }, change.1)
}

/// The society after a dispute.
pub open spec fn with_dispute(v: SocietyView, d: TaskDisputeView) -> SocietyView {
    let known = registered(registered(v, d.disputer), d.target);
    let change = task_market::with_dispute(known.market, d);
    let noted = SocietyView { market: change.0, ..known };
    match change.1 {
        Some(effect) => with_effect(noted, effect),
        None => noted,
    }
}

/// The society after an event.
pub open spec fn applied(before: SocietyView, e: SocialEventView) -> SocietyView {
    let v = registered(before, e.author);
    match e.kind {
        SocialEventKindView::EquivocationObserved { evidence } => with_evidence(v, *evidence),
        SocialEventKindView::ManifestPublished { manifest } => with_manifest(v, manifest),
        SocialEventKindView::IdentityRevoked { revocation } => with_revocation(v, revocation),
        SocialEventKindView::IdentityRotated { rotation } => {
            let known = registered(registered(v, rotation.previous), rotation.next);
            SocietyView { succession: with_rotation(v.succession, rotation), ..known }
        },
        SocialEventKindView::IdentityRecoveryPolicy { policy } => SocietyView {
            succession: with_policy(v.succession, e.author, policy),
            ..v
        },
        SocialEventKindView::IdentityRecoveryApproved { approval } => SocietyView {
            succession: with_approval(v.succession, approval),
            ..v
        },
        SocialEventKindView::WorkspaceJoined { workspace } => with_presence(
            v,
            e.author,
            workspace,
        ),
        SocialEventKindView::WorkspaceOwnershipClaimed { claim } => if claim_stands(v, claim) {
            with_owner(v, claim)
        } else {
            v
        },
        SocialEventKindView::WorkspaceOwnershipTransferred { claim } => if transfer_stands(
            v,
            e.author,
            claim,
        ) {
            with_owner(v, claim)
        } else {
            v
        },
        SocialEventKindView::RelationDeclared { peer, relation, note } => {
            let related = with_relation(v, e.author, peer, relation, e.timestamp);
            match note {
                Some(text) => with_note(related, e.author, peer, text),
                None => related,
            }
        },
        SocialEventKindView::InteractionRecorded { interaction } => with_interaction(
            v,
            interaction,
        ),
        SocialEventKindView::CollectiveDeclared { collective_id, name, purpose, members } =>
            with_declared(v, collective_id, name, purpose, members, e.timestamp),
        SocialEventKindView::CollectiveJoined { collective_id } => with_member(
            v,
            collective_id,
            e.author,
            e.timestamp,
        ),
        SocialEventKindView::CollectiveWorkspaceAttached { collective_id, workspace } =>
            with_attached(
            with_member(v, collective_id, e.author, e.timestamp),
            collective_id,
            workspace,
        ),
        SocialEventKindView::CollectiveProposalPublished { proposal } => with_proposal(
            v,
            proposal,
        ),
        SocialEventKindView::CollectiveVoteCast { vote } => with_vote(v, vote),
        SocialEventKindView::CollectiveDecisionRecorded { decision } => with_decision(v, decision),
        SocialEventKindView::CapabilityIssued { grant } => with_grant(v, grant),
        SocialEventKindView::CapabilityRevoked { revocation } => with_grant_revoked(v, revocation),
        SocialEventKindView::WorkspaceSnapshotted { snapshot } => with_snapshot(v, snapshot),
        SocialEventKindView::WorkspaceRunRecorded { run } => with_run(v, run),
        SocialEventKindView::IntentPublished { intent } => with_intent(v, intent),
        SocialEventKindView::IntentResponded { response } => with_response(v, response),
        SocialEventKindView::TaskPublished { task } => {
            let known = registered(v, task.publisher);
            with_market(known, task_market::with_task(known.market, task))
        },
        SocialEventKindView::TaskOffered { offer } => {
            let known = registered(v, offer.bidder);
            with_market(known, task_market::with_offer(known.market, offer))
        },
        SocialEventKindView::TaskAccepted { acceptance } => {
            let known = registered(registered(v, acceptance.publisher), acceptance.bidder);
            with_market(known, task_market::with_known_acceptance(known.market, acceptance))
        },
        SocialEventKindView::TaskCancelled { cancellation } => {
            let known = registered(v, cancellation.publisher);
            SocietyView {
                market: task_market::with_known_cancellation(known.market, cancellation),
                ..known
            }
        },
        SocialEventKindView::TaskCompleted { result } => {
            let known = registered(v, result.executor);
            with_market(known, task_market::with_claim(known.market, result, e.timestamp))
        },
        SocialEventKindView::TaskExecutionAttested { attestation } => {
            let known = registered(registered(v, attestation.executor), attestation.attestor);
            SocietyView {
                market: task_market::with_attestation(known.market, attestation),
                ..known
            }
        },
        SocialEventKindView::TaskDisputed { dispute } => with_dispute(v, dispute),
        SocialEventKindView::SettlementRecorded { settlement } => with_settlement(v, settlement),
    }
}

impl Society {
    /// A society of which nothing is known.
    pub fn new() -> (r: Self)
        ensures
            r.deep_view() == nothing_known(),
    {
        let r = Society {
            agents: Group::new(),
            identity_revocations: Table::new(),
            succession: Succession::new(),
            manifests: Table::new(),
            edges: Table::new(),
            reputations: Table::new(),
            interactions: Vec::new(),
            collectives: Table::new(),
            collective_proposals: Table::new(),
            collective_votes: Table::new(),
            collective_decisions: Table::new(),
            presence: Group::new(),
            capability_grants: Table::new(),
            capability_revocations: Table::new(),
            workspace_snapshots: Table::new(),
            workspace_ownership_claims: Table::new(),
            workspace_current_owners: Table::new(),
            workspace_runs: Table::new(),
            intents: Table::new(),
            intent_responses: Table::new(),
            market: TaskMarketProjection::new(),
            settlements: Table::new(),
            equivocations: Table::new(),
        };
        assert(r.interactions.deep_view() =~= Seq::<InteractionView>::empty());
        r
    }

    /// Makes an agent known.
    pub fn register_agent(&mut self, did: Did)
        ensures
            final(self).deep_view() == registered(old(self).deep_view(), did.deep_view()),
    {
        self.agents.insert(did);
    }

    /// Takes note of a revoked identity.
    pub fn record_identity_revocation(&mut self, revocation: IdentityRevocation)
        ensures
            final(self).deep_view() == with_revocation(
                old(self).deep_view(),
                revocation.deep_view(),
            ),
    {
        self.agents.insert(revocation.did.twin());
        self.identity_revocations.insert_new(revocation.did.twin(), revocation);
    }

    fn record_manifest(&mut self, manifest: AgentManifest)
        ensures
            final(self).deep_view() == with_manifest(old(self).deep_view(), manifest.deep_view()),
    {
        self.agents.insert(manifest.did.twin());
        self.manifests.insert(manifest.did.twin(), manifest);
    }

    /// Declares or updates a relation.
    pub fn relate(&mut self, from: Did, to: Did, kind: RelationKind, now: u64)
        ensures
            final(self).deep_view() == with_relation(
                old(self).deep_view(),
                from.deep_view(),
                to.deep_view(),
                kind,
                now,
            ),
    {
        self.agents.insert(from.twin());
        self.agents.insert(to.twin());
        let pair = (from.twin(), to.twin());
        let edge = match self.edges.get(&pair) {
            Some(edge) => {
                let mut edge = edge.twin();
                edge.kind = kind;
                edge.updated_at = now;
                edge
            },
            None => SocialEdge::new(from, to, kind, now),
        };
        self.edges.insert(pair, edge);
    }

    fn annotate(&mut self, from: &Did, to: &Did, note: &String)
        ensures
            final(self).deep_view() == with_note(
                old(self).deep_view(),
                from.deep_view(),
                to.deep_view(),
                note.deep_view(),
            ),
    {
        let pair = (from.twin(), to.twin());
        let mut edge = match self.edges.get(&pair) {
            Some(edge) => edge.twin(),
            None => {
                return;
            },
        };
        let ghost before = edge.notes.deep_view();
        edge.notes.push(note.twin());
        assert(edge.notes.deep_view() =~= before.push(note.deep_view()));
        self.edges.insert(pair, edge);
    }

    /// Makes the presence of an agent in a workspace known.
    pub fn join_workspace(&mut self, agent: Did, workspace: WorkspaceId)
        ensures
            final(self).deep_view() == with_presence(
                old(self).deep_view(),
                agent.deep_view(),
                workspace.deep_view(),
            ),
    {
        self.agents.insert(agent.twin());
        self.presence.insert((workspace, agent));
    }

    fn ownership_claims(&self, workspace: &WorkspaceId) -> (r: Vec<&WorkspaceOwnershipClaim>)
        ensures
            r.deep_view() == order::listed(self.deep_view().workspace_ownership_claims, claims_workspace(workspace.deep_view()), by_ownership()),
    {
        let keep = |v: &WorkspaceOwnershipClaim| -> (b: bool)
            ensures
                b == (claims_workspace(workspace.deep_view()))(v.deep_view()),
            { v.workspace.same(workspace) };
        let key = |v: &WorkspaceOwnershipClaim| -> (k: Vec<KeyPart>)
            ensures
                k.deep_view() == by_ownership()(v.deep_view()),
            { by_ownership_of(v) };
        order::listing(&self.workspace_ownership_claims, keep, key, Ghost(claims_workspace(workspace.deep_view())), Ghost(by_ownership()))
    }

    /// The owner of a workspace.
    pub fn workspace_claimed_owner(&self, workspace: &WorkspaceId) -> (r: Option<Did>)
        ensures
            r.deep_view() == owner_of(self.deep_view(), workspace.deep_view()),
    {
        match self.workspace_current_owners.get(workspace) {
            Some(owner) => Some(owner.twin()),
            None => {
                let claims = self.ownership_claims(workspace);
                if claims.len() > 0 {
                    assert(claims.deep_view()[0] == claims@[0].deep_view());
                    Some(claims[0].owner.twin())
                } else {
                    None
                }
            },
        }
    }

    fn adopt_workspace_ownership_claim(&mut self, claim: WorkspaceOwnershipClaim)
        ensures
            final(self).deep_view() == with_owner(old(self).deep_view(), claim.deep_view()),
    {
        self.agents.insert(claim.owner.twin());
        self.workspace_current_owners.insert(claim.workspace, claim.owner.twin());
        let key = ownership_key_of(&claim);
        let stale = match self.workspace_ownership_claims.get(&key) {
            Some(known) => claim.claimed_at < known.claimed_at,
            None => false,
        };
        if !stale {
            self.workspace_ownership_claims.insert(key, claim);
        }
    }

    /// Adopts a claim on a workspace that nobody else owns; reports whether it
    /// did.
    pub fn record_workspace_ownership_claim(&mut self, claim: WorkspaceOwnershipClaim) -> (r: bool)
        ensures
            r == claim_stands(old(self).deep_view(), claim.deep_view()),
            final(self).deep_view() == (if r {
                with_owner(old(self).deep_view(), claim.deep_view())
            } else {
                old(self).deep_view()
            }),
    {
        if claim.previous_owner.is_some() {
            return false;
        }
        if let Some(owner) = self.workspace_claimed_owner(&claim.workspace) {
            if !owner.same(&claim.owner) {
                return false;
            }
        }
        self.adopt_workspace_ownership_claim(claim);
        true
    }

    /// Adopts a transfer of a workspace by its owner; reports whether it did.
    pub fn record_workspace_ownership_transfer(
        &mut self,
        signer: &Did,
        claim: WorkspaceOwnershipClaim,
    ) -> (r: bool)
        ensures
            r == transfer_stands(
                old(self).deep_view(),
                signer.deep_view(),
                claim.deep_view(),
            ),
            final(self).deep_view() == (if r {
                with_owner(old(self).deep_view(), claim.deep_view())
            } else {
                old(self).deep_view()
            }),
    {
        match &claim.previous_owner {
            None => {
                return false;
            },
            Some(previous) => {
                if !signer.same(previous) {
                    return false;
                }
            },
        }
        match self.workspace_claimed_owner(&claim.workspace) {
            None => {
                return false;
            },
            Some(owner) => {
                if !owner.same(signer) {
                    return false;
                }
            },
        }
        self.adopt_workspace_ownership_claim(claim);
        true
    }

    /// Takes note of a grant.
    pub fn record_capability_grant(&mut self, grant: CapabilityGrant)
        ensures
            final(self).deep_view() == with_grant(old(self).deep_view(), grant.deep_view()),
    {
        self.agents.insert(grant.capability.issuer.twin());
        self.agents.insert(grant.capability.subject.twin());
        self.capability_grants.insert_new(grant_key_of(&grant), grant);
    }

    fn is_granted(&self, issuer: &Did, id: &str) -> (r: bool)
        ensures
            r == granted(self.deep_view(), issuer.deep_view(), id@),
    {
        let ghost rows = self.capability_grants.rows();
        let n = self.capability_grants.len();
        let mut i: usize = 0;
        while i < n
            invariant
                i <= n,
                n == rows.len(),
                rows == self.capability_grants.rows(),
                forall|j: int|
                    0 <= j < i ==> !((#[trigger] rows[j]).1.capability.issuer
                        == issuer.deep_view() && signature_id(rows[j].1) == id@),
            decreases n - i,
        {
            let grant = self.capability_grants.value_at(i);
            let known = capability_signature_id(grant.capability.signature.as_slice());
            if grant.capability.issuer.same(issuer) && text::same_text(known.as_str(), id) {
                assert(rows[i as int].1.capability.issuer == issuer.deep_view());
                return true;
            }
            i = i + 1;
        }
        false
    }

    /// Takes note of a revocation by the issuer of a known grant.
    pub fn record_capability_revocation(&mut self, revocation: CapabilityRevocation)
        ensures
            final(self).deep_view() == with_grant_revoked(
                old(self).deep_view(),
                revocation.deep_view(),
            ),
    {
        self.agents.insert(revocation.issuer.twin());
        if self.is_granted(&revocation.issuer, revocation.capability_signature_id.as_str()) {
            let key = revocation.capability_signature_id.twin();
            self.capability_revocations.insert_new(key, revocation);
        }
    }

    /// Takes note of a workspace snapshot.
    pub fn record_workspace_snapshot(&mut self, snapshot: WorkspaceSnapshot)
        ensures
            final(self).deep_view() == with_snapshot(old(self).deep_view(), snapshot.deep_view()),
    {
        self.agents.insert(snapshot.actor.twin());
        let key = snapshot_key_of(&snapshot);
        let stands = match self.workspace_snapshots.get(&key) {
            Some(known) => !is_derived_snapshot(known) || is_derived_snapshot(&snapshot),
            None => false,
        };
        if !stands {
            self.workspace_snapshots.insert(key, snapshot);
        }
    }

    /// Takes note of a workspace run.
    pub fn record_workspace_run(&mut self, run: WorkspaceRun)
        ensures
            final(self).deep_view() == with_run(old(self).deep_view(), run.deep_view()),
    {
        self.agents.insert(run.actor.twin());
        let key = run_key_of(&run);
        if self.workspace_runs.contains(&key) {
            return;
        }
        if let Some(snapshot) = snapshot_of_run(&run) {
            self.record_workspace_snapshot(snapshot);
        }
        self.workspace_runs.insert(key, run);
    }

    /// Takes note of an intent.
    pub fn record_intent(&mut self, intent: AgentIntent)
        ensures
            final(self).deep_view() == with_intent(old(self).deep_view(), intent.deep_view()),
    {
        self.agents.insert(intent.author.twin());
        self.intents.insert_new(intent.id.twin(), intent);
    }

    /// Takes note of a response to an intent.
    pub fn record_intent_response(&mut self, response: IntentResponse)
        ensures
            final(self).deep_view() == with_response(old(self).deep_view(), response.deep_view()),
    {
        self.agents.insert(response.responder.twin());
        self.intent_responses.insert_new(response.id.twin(), response);
    }

    /// Takes note of an interaction.
    pub fn record_interaction(&mut self, interaction: Interaction)
        ensures
            final(self).deep_view() == with_interaction(
                old(self).deep_view(),
                interaction.deep_view(),
            ),
    {
        self.agents.insert(interaction.from.twin());
        self.agents.insert(interaction.to.twin());
        let pair = (interaction.from.twin(), interaction.to.twin());
        let mut edge = match self.edges.get(&pair) {
            Some(edge) => edge.twin(),
            None => SocialEdge::new(
                interaction.from.twin(),
                interaction.to.twin(),
                RelationKind::Acquaintance,
                interaction.timestamp,
            ),
        };
        edge.record_outcome(interaction.outcome, interaction.timestamp);
        self.edges.insert(pair.twin(), edge);
        let mut memory = match self.reputations.get(&pair) {
            Some(memory) => memory.twin(),
            None => ReputationScore::new(interaction.to.twin(), interaction.timestamp),
        };
        memory.record(interaction.outcome, interaction.timestamp);
        self.reputations.insert(pair, memory);
        let ghost before = self.interactions.deep_view();
        self.interactions.push(interaction);
        assert(self.interactions.deep_view() =~= before.push(interaction.deep_view()));
    }

    /// Declares a collective, or adds to what is known of it.
    pub fn create_collective(
        &mut self,
        id: String,
        name: String,
        purpose: String,
        members: Vec<Did>,
        created_at: u64,
    )
        ensures
            final(self).deep_view() == with_declared(
                old(self).deep_view(),
                id@,
                name@,
                purpose@,
                members.deep_view(),
                created_at,
            ),
    {
        self.agents.insert_all(&members);
        let collective = match self.collectives.get(&id) {
            Some(known) => {
                let mut c = known.twin();
                c.name = name;
                c.purpose = purpose;
                c.members.insert_all(&members);
                if c.created_at == 0 {
                    c.created_at = created_at;
                }
                c
            },
            None => {
                let mut all: Group<Did> = Group::new();
                all.insert_all(&members);
                Collective {
                    id: id.twin(),
                    name,
                    purpose,
                    members: all,
                    workspaces: Group::new(),
                    created_at,
                }
            },
        };
        self.collectives.insert(id, collective);
    }

    fn collective_or_bare(&self, id: &str, created_at: u64) -> (r: Collective)
        ensures
            r.deep_view() == (match table::find(self.deep_view().collectives, id@) {
                Some(c) => c,
                None => bare_collective(id@, created_at),
            }),
    {
        match self.collectives.get(&text::owned(id)) {
            Some(known) => known.twin(),
            None => Collective {
                id: text::owned(id),
                name: String::new(),
                purpose: String::new(),
                members: Group::new(),
                workspaces: Group::new(),
                created_at,
            },
        }
    }

    /// Adds a member to a collective.
    pub fn join_collective(&mut self, collective_id: String, member: Did, joined_at: u64)
        ensures
            final(self).deep_view() == with_member(
                old(self).deep_view(),
                collective_id@,
                member.deep_view(),
                joined_at,
            ),
    {
        self.agents.insert(member.twin());
        let mut c = self.collective_or_bare(collective_id.as_str(), joined_at);
        c.members.insert(member);
        self.collectives.insert(collective_id, c);
    }

    /// Attaches a workspace to a collective.
    pub fn attach_workspace(&mut self, collective_id: &str, workspace: WorkspaceId) -> (r: bool)
        ensures
            r,
            final(self).deep_view() == with_attached(
                old(self).deep_view(),
                collective_id@,
                workspace.deep_view(),
            ),
    {
        let mut c = self.collective_or_bare(collective_id, 0);
        c.workspaces.insert(workspace);
        self.collectives.insert(text::owned(collective_id), c);
        true
    }

    fn ensure_collective(&mut self, collective_id: &str, created_at: u64)
        ensures
            final(self).deep_view() == with_collective(
                old(self).deep_view(),
                collective_id@,
                created_at,
            ),
    {
        let bare = Collective {
            id: text::owned(collective_id),
            name: String::new(),
            purpose: String::new(),
            members: Group::new(),
            workspaces: Group::new(),
            created_at,
        };
        assert(bare.deep_view() =~~= bare_collective(collective_id@, created_at));
        self.collectives.insert_new(text::owned(collective_id), bare);
    }

    /// Takes note of a proposal.
    pub fn record_collective_proposal(&mut self, proposal: CollectiveProposal)
        ensures
            final(self).deep_view() == with_proposal(old(self).deep_view(), proposal.deep_view()),
    {
        self.agents.insert(proposal.proposer.twin());
        self.ensure_collective(proposal.collective_id.as_str(), proposal.created_at);
        let key = collective_proposal_key(proposal.collective_id.as_str(), proposal.id.as_str());
        self.collective_proposals.insert_new(key, proposal);
    }

    /// Takes note of a vote.
    pub fn record_collective_vote(&mut self, vote: CollectiveVote)
        ensures
            final(self).deep_view() == with_vote(old(self).deep_view(), vote.deep_view()),
    {
        self.agents.insert(vote.voter.twin());
        self.ensure_collective(vote.collective_id.as_str(), vote.timestamp);
        let key = collective_proposal_key(vote.collective_id.as_str(), vote.proposal_id.as_str());
        self.collective_votes.insert((key, vote.voter.twin()), vote);
    }

    /// Takes note of a decision.
    pub fn record_collective_decision(&mut self, decision: CollectiveDecision)
        ensures
            final(self).deep_view() == with_decision(old(self).deep_view(), decision.deep_view()),
    {
        self.agents.insert(decision.decider.twin());
        self.ensure_collective(decision.collective_id.as_str(), decision.timestamp);
        let key = collective_proposal_key(
            decision.collective_id.as_str(),
            decision.proposal_id.as_str(),
        );
        self.collective_decisions.insert(key, decision);
    }

    fn record_settlement(&mut self, settlement: SettlementRecord)
        ensures
            final(self).deep_view() == with_settlement(
                old(self).deep_view(),
                settlement.deep_view(),
            ),
    {
        if settlement.validate().is_err() {
            return;
        }
        self.agents.insert(settlement.payer.twin());
        self.agents.insert(settlement.payee.twin());
        self.settlements.insert_new(settlement.id.twin(), settlement);
    }

    /// Takes note of evidence of equivocation that holds.
    pub fn record_equivocation_proof(&mut self, evidence: EquivocationProof)
        ensures
            final(self).deep_view() == with_evidence(old(self).deep_view(), evidence.deep_view()),
    {
        if evidence.verify().is_err() {
            return;
        }
        self.agents.insert(evidence.author.twin());
        let key = (evidence.author.twin(), evidence.evidence_key());
        self.equivocations.insert_new(key, evidence);
    }

    fn apply_effect(&mut self, effect: TaskMarketEffect)
        ensures
            final(self).deep_view() == with_effect(old(self).deep_view(), effect.deep_view()),
    {
        match effect {
            TaskMarketEffect::WorkspaceSnapshot(s) => self.record_workspace_snapshot(s),
            TaskMarketEffect::Interaction(i) => self.record_interaction(i),
        }
    }

    fn apply_effects(&mut self, effects: &Vec<TaskMarketEffect>)
        ensures
            final(self).deep_view() == with_effects(old(self).deep_view(), effects.deep_view()),
    {
        let ghost before = self.deep_view();
        let ghost all = effects.deep_view();
        let mut i: usize = 0;
        while i < effects.len()
            invariant
                i <= effects@.len(),
                all == effects.deep_view(),
                self.deep_view() == with_effects(before, all.subrange(0, i as int)),
            decreases effects@.len() - i,
        {
            proof {
                let upto = all.subrange(0, i + 1);
                assert(upto.drop_last() =~= all.subrange(0, i as int));
                assert(upto.last() == effects@[i as int].deep_view());
            }
            self.apply_effect(effects[i].twin());
            i = i + 1;
        }
        assert(all.subrange(0, i as int) =~= all);
    }

    fn record_task(&mut self, task: TaskSpec)
        ensures
            final(self).deep_view() == ({
                let known = registered(old(self).deep_view(), task.deep_view().publisher);
                with_market(known, task_market::with_task(known.market, task.deep_view()))
            }),
    {
        self.agents.insert(task.publisher.twin());
        let effects = self.market.publish_task(task);
        self.apply_effects(&effects);
    }

    fn record_task_offer(&mut self, offer: TaskOffer)
        ensures
            final(self).deep_view() == ({
                let known = registered(old(self).deep_view(), offer.deep_view().bidder);
                with_market(known, task_market::with_offer(known.market, offer.deep_view()))
            }),
    {
        self.agents.insert(offer.bidder.twin());
        let effects = self.market.record_offer(offer);
        self.apply_effects(&effects);
    }

    fn record_task_acceptance(&mut self, acceptance: TaskAcceptance)
        ensures
            final(self).deep_view() == ({
                let a = acceptance.deep_view();
                let known = registered(registered(old(self).deep_view(), a.publisher), a.bidder);
                with_market(known, task_market::with_known_acceptance(known.market, a))
            }),
    {
        self.agents.insert(acceptance.publisher.twin());
        self.agents.insert(acceptance.bidder.twin());
        let effects = self.market.record_acceptance(acceptance);
        self.apply_effects(&effects);
    }

    fn record_task_cancellation(&mut self, cancellation: TaskCancellation)
        ensures
            final(self).deep_view() == ({
                let c = cancellation.deep_view();
                let known = registered(old(self).deep_view(), c.publisher);
                SocietyView {
                    market: task_market::with_known_cancellation(known.market, c),
                    ..known
                }
            }),
    {
        self.agents.insert(cancellation.publisher.twin());
        self.market.record_cancellation(cancellation);
    }

    fn record_task_result(&mut self, result: TaskResult, timestamp: u64)
        ensures
            final(self).deep_view() == ({
                let r = result.deep_view();
                let known = registered(old(self).deep_view(), r.executor);
                with_market(known, task_market::with_claim(known.market, r, timestamp))
            }),
    {
        self.agents.insert(result.executor.twin());
        let effects = self.market.record_result(result, timestamp);
        self.apply_effects(&effects);
    }

    fn record_task_execution_attestation(&mut self, attestation: ExecutionAttestation)
        ensures
            final(self).deep_view() == ({
                let a = attestation.deep_view();
                let known = registered(registered(old(self).deep_view(), a.executor), a.attestor);
                SocietyView {
                    market: task_market::with_attestation(known.market, a),
                    ..known
                }
            }),
    {
        self.agents.insert(attestation.executor.twin());
        self.agents.insert(attestation.attestor.twin());
        self.market.record_execution_attestation(attestation);
    }

    fn record_task_dispute(&mut self, dispute: TaskDispute)
        ensures
            final(self).deep_view() == with_dispute(old(self).deep_view(), dispute.deep_view()),
    {
        self.agents.insert(dispute.disputer.twin());
        self.agents.insert(dispute.target.twin());
        match self.market.record_dispute(dispute) {
            Some(effect) => self.apply_effect(effect),
            None => {},
        }
    }

    /// Applies an event.
    #[verifier::spinoff_prover]
    #[verifier::rlimit(60)]
    pub fn apply_event(&mut self, event: &SocialEvent)
        ensures
            final(self).deep_view() == applied(old(self).deep_view(), event.deep_view()),
    {
        self.register_agent(event.author.twin());
        match &event.kind {
            SocialEventKind::EquivocationObserved { evidence } => {
                self.record_equivocation_proof((**evidence).twin());
            },
            SocialEventKind::ManifestPublished { manifest } => {
                self.record_manifest(manifest.twin());
            },
            SocialEventKind::IdentityRevoked { revocation } => {
                self.record_identity_revocation(revocation.twin());
            },
            SocialEventKind::IdentityRotated { rotation } => {
                self.register_agent(rotation.previous.twin());
                self.register_agent(rotation.next.twin());
                self.succession.record_rotation(rotation);
            },
            SocialEventKind::IdentityRecoveryPolicy { policy } => {
                self.succession.record_policy(&event.author, policy);
            },
            SocialEventKind::IdentityRecoveryApproved { approval } => {
                self.succession.record_approval(approval);
            },
            SocialEventKind::WorkspaceJoined { workspace } => {
                self.join_workspace(event.author.twin(), workspace.twin());
            },
            SocialEventKind::WorkspaceOwnershipClaimed { claim } => {
                self.record_workspace_ownership_claim(claim.twin());
            },
            SocialEventKind::WorkspaceOwnershipTransferred { claim } => {
                self.record_workspace_ownership_transfer(&event.author, claim.twin());
            },
            SocialEventKind::RelationDeclared { peer, relation, note } => {
                self.relate(event.author.twin(), peer.twin(), *relation, event.timestamp);
                if let Some(text) = note {
                    self.annotate(&event.author, peer, text);
                }
            },
            SocialEventKind::InteractionRecorded { interaction } => {
                self.record_interaction(interaction.twin());
            },
            SocialEventKind::CollectiveDeclared { collective_id, name, purpose, members } => {
                self.create_collective(
                    collective_id.twin(),
                    name.twin(),
                    purpose.twin(),
                    members.twin(),
                    event.timestamp,
                );
            },
            SocialEventKind::CollectiveJoined { collective_id } => {
                self.join_collective(collective_id.twin(), event.author.twin(), event.timestamp);
            },
            SocialEventKind::CollectiveWorkspaceAttached { collective_id, workspace } => {
                self.join_collective(collective_id.twin(), event.author.twin(), event.timestamp);
                self.attach_workspace(collective_id.as_str(), workspace.twin());
            },
            SocialEventKind::CollectiveProposalPublished { proposal } => {
                self.record_collective_proposal(proposal.twin());
            },
            SocialEventKind::CollectiveVoteCast { vote } => {
                self.record_collective_vote(vote.twin());
            },
            SocialEventKind::CollectiveDecisionRecorded { decision } => {
                self.record_collective_decision(decision.twin());
            },
            SocialEventKind::CapabilityIssued { grant } => {
                self.record_capability_grant(grant.twin());
            },
            SocialEventKind::CapabilityRevoked { revocation } => {
                self.record_capability_revocation(revocation.twin());
            },
            SocialEventKind::WorkspaceSnapshotted { snapshot } => {
                self.record_workspace_snapshot(snapshot.twin());
            },
            SocialEventKind::WorkspaceRunRecorded { run } => {
                self.record_workspace_run((**run).twin());
            },
            SocialEventKind::IntentPublished { intent } => {
                self.record_intent(intent.twin());
            },
            SocialEventKind::IntentResponded { response } => {
                self.record_intent_response(response.twin());
            },
            SocialEventKind::TaskPublished { task } => {
                self.record_task(task.twin());
            },
            SocialEventKind::TaskOffered { offer } => {
                self.record_task_offer(offer.twin());
            },
            SocialEventKind::TaskAccepted { acceptance } => {
                self.record_task_acceptance(acceptance.twin());
            },
            SocialEventKind::TaskCancelled { cancellation } => {
                self.record_task_cancellation(cancellation.twin());
            },
            SocialEventKind::TaskCompleted { result } => {
                self.record_task_result(result.twin(), event.timestamp);
            },
            SocialEventKind::TaskExecutionAttested { attestation } => {
                self.record_task_execution_attestation(attestation.twin());
            },
            SocialEventKind::TaskDisputed { dispute } => {
                self.record_task_dispute(dispute.twin());
            },
            SocialEventKind::SettlementRecorded { settlement } => {
                self.record_settlement(settlement.twin());
            },
        }
    }

    /// The number of known agents.
    pub fn agent_count(&self) -> (r: usize)
        ensures
            r == self.deep_view().agents.len(),
    {
        self.agents.len()
    }

    /// The number of manifests.
    pub fn manifest_count(&self) -> (r: usize)
        ensures
            r == self.deep_view().manifests.len(),
    {
        self.manifests.len()
    }

    /// The number of interactions.
    pub fn interaction_count(&self) -> (r: usize)
        ensures
            r == self.deep_view().interactions.len(),
    {
        self.interactions.len()
    }

    /// The number of tasks.
    pub fn task_count(&self) -> (r: usize)
        ensures
            r == self.deep_view().market.tasks.len(),
    {
        self.market.task_count()
    }

    /// All interactions in the order in which they became known.
    pub fn interactions(&self) -> (r: &[Interaction])
        ensures
            r.deep_view() == self.deep_view().interactions,
    {
        let all = self.interactions.as_slice();
        assert(all.deep_view() =~= self.interactions.deep_view());
        all
    }

    /// Whether an agent is known.
    pub fn has_agent(&self, did: &Did) -> (r: bool)
        ensures
            r == self.deep_view().agents.contains(did.deep_view()),
    {
        self.agents.contains(did)
    }

    /// All known agents, by name.
    pub fn agents(&self) -> (r: Vec<&Did>)
        ensures
            r.deep_view() == order::sort_by_key(self.deep_view().agents, by_name()),
    {
        let key = |d: &Did| -> (k: Vec<KeyPart>)
            ensures
                k.deep_view() == by_name()(d.deep_view()),
            { by_name_of(d) };
        order::sorted(self.agents.refs(), key, Ghost(by_name()))
    }

    /// Whether an author is known to have forked their chain.
    pub fn is_equivocating(&self, author: &Did) -> (r: bool)
        ensures
            r == forked(self.deep_view(), author.deep_view()),
    {
        let ghost rows = self.equivocations.rows();
        let n = self.equivocations.len();
        let mut i: usize = 0;
        while i < n
            invariant
                i <= n,
                n == rows.len(),
                rows == self.equivocations.rows(),
                forall|j: int| 0 <= j < i ==> (#[trigger] rows[j]).0.0 != author.deep_view(),
            decreases n - i,
        {
            if self.equivocations.key_at(i).0.same(author) {
                assert(self.deep_view().equivocations[i as int].0.0 == author.deep_view());
                return true;
            }
            i = i + 1;
        }
        false
    }

    /// All evidence of equivocation.
    pub fn equivocation_proofs(&self) -> (r: Vec<&EquivocationProof>)
        ensures
            r.deep_view() == order::listed(self.deep_view().equivocations, order::every(), by_evidence()),
    {
        let keep = |v: &EquivocationProof| -> (b: bool)
            ensures
                b == (order::every())(v.deep_view()),
            { true };
        let key = |v: &EquivocationProof| -> (k: Vec<KeyPart>)
            ensures
                k.deep_view() == by_evidence()(v.deep_view()),
            { by_evidence_of(v) };
        order::listing(&self.equivocations, keep, key, Ghost(order::every()), Ghost(by_evidence()))
    }

    /// The evidence against an author.
    pub fn agent_equivocations(&self, author: &Did) -> (r: Vec<&EquivocationProof>)
        ensures
            r.deep_view() == order::listed(self.deep_view().equivocations, forks_of(author.deep_view()), by_fork()),
    {
        let keep = |v: &EquivocationProof| -> (b: bool)
            ensures
                b == (forks_of(author.deep_view()))(v.deep_view()),
            { v.author.same(author) };
        let key = |v: &EquivocationProof| -> (k: Vec<KeyPart>)
            ensures
                k.deep_view() == by_fork()(v.deep_view()),
            { by_fork_of(v) };
        order::listing(&self.equivocations, keep, key, Ghost(forks_of(author.deep_view())), Ghost(by_fork()))
    }

    /// All settlements.
    pub fn settlements(&self) -> (r: Vec<&SettlementRecord>)
        ensures
            r.deep_view() == order::listed(self.deep_view().settlements, order::every(), by_settlement()),
    {
        let keep = |v: &SettlementRecord| -> (b: bool)
            ensures
                b == (order::every())(v.deep_view()),
            { true };
        let key = |v: &SettlementRecord| -> (k: Vec<KeyPart>)
            ensures
                k.deep_view() == by_settlement()(v.deep_view()),
            { by_settlement_of(v) };
        order::listing(&self.settlements, keep, key, Ghost(order::every()), Ghost(by_settlement()))
    }

    /// The settlements of a task.
    pub fn task_settlements(&self, task_id: &str) -> (r: Vec<&SettlementRecord>)
        ensures
            r.deep_view() == order::listed(self.deep_view().settlements, settles_task(task_id@), by_settlement()),
    {
        let keep = |v: &SettlementRecord| -> (b: bool)
            ensures
                b == (settles_task(task_id@))(v.deep_view()),
            { same_optional(&v.task_id, task_id) };
        let key = |v: &SettlementRecord| -> (k: Vec<KeyPart>)
            ensures
                k.deep_view() == by_settlement()(v.deep_view()),
            { by_settlement_of(v) };
        order::listing(&self.settlements, keep, key, Ghost(settles_task(task_id@)), Ghost(by_settlement()))
    }

    /// The settlement with an identifier.
    pub fn settlement(&self, id: &str) -> (r: Option<&SettlementRecord>)
        ensures
            r.deep_view() == table::find(self.deep_view().settlements, id@),
    {
        self.settlements.get(&text::owned(id))
    }

    fn settlement_anchor_valid(&self, settlement: &SettlementRecord) -> (r: bool)
        ensures
            r == settlement_anchored(self.deep_view(), settlement.deep_view()),
    {
        match &settlement.proof_of_payment {
            SettlementProof::AnchoredCheckpoint(p) => {
                if p.validate().is_err() {
                    return false;
                }
                if !checkpoint_subject_matches_settlement(
                    p.checkpoint.subject.as_str(),
                    settlement,
                ) {
                    return false;
                }
                if p.anchor.kind != AuthorityKind::CollectiveQuorum {
                    return true;
                }
                match anchor_collective_id(&p.anchor) {
                    None => false,
                    Some(id) => match self.collectives.get(&id) {
                        None => false,
                        Some(c) => meets_quorum(&p.anchor, &c.members),
                    },
                }
            },
            _ => false,
        }
    }

    /// Whether a settlement is anchored in this society.
    pub fn settlement_truth_status(&self, settlement: &SettlementRecord) -> (r: FactTruthStatus)
        ensures
            r == (if settlement_anchored(self.deep_view(), settlement.deep_view()) {
                FactTruthStatus::Anchored
            } else {
                FactTruthStatus::Claimed
            }),
    {
        if self.settlement_anchor_valid(settlement) {
            FactTruthStatus::Anchored
        } else {
            FactTruthStatus::Claimed
        }
    }

    /// The interactions of an agent.
    pub fn agent_interactions(&self, agent: &Did) -> (r: Vec<&Interaction>)
        ensures
            r.deep_view() == order::sort_by_key(
                self.deep_view().interactions.filter(involves(agent.deep_view())),
                by_interaction(),
            ),
    {
        let mut all: Vec<&Interaction> = Vec::new();
        while all.len() < self.interactions.len()
            invariant
                all@.len() <= self.interactions@.len(),
                forall|j: int|
                    0 <= j < all@.len() ==> (#[trigger] all@[j]).deep_view()
                        == self.interactions.deep_view()[j],
            decreases self.interactions@.len() - all@.len(),
        {
            all.push(&self.interactions[all.len()]);
        }
        assert(all.deep_view() =~= self.interactions.deep_view());
        let keep = |v: &Interaction| -> (b: bool)
            ensures
                b == involves(agent.deep_view())(v.deep_view()),
            { v.from.same(agent) || v.to.same(agent) };
        let key = |v: &Interaction| -> (k: Vec<KeyPart>)
            ensures
                k.deep_view() == by_interaction()(v.deep_view()),
            { by_interaction_of(v) };
        let mine = order::kept(all, keep, Ghost(involves(agent.deep_view())));
        order::sorted(mine, key, Ghost(by_interaction()))
    }

    /// The revocation of an identity.
    pub fn identity_revocation(&self, did: &Did) -> (r: Option<&IdentityRevocation>)
        ensures
            r.deep_view() == table::find(self.deep_view().identity_revocations, did.deep_view()),
    {
        self.identity_revocations.get(did)
    }

    /// All revoked identities.
    pub fn identity_revocations(&self) -> (r: Vec<&IdentityRevocation>)
        ensures
            r.deep_view() == order::listed(self.deep_view().identity_revocations, order::every(), by_revocation()),
    {
        let keep = |v: &IdentityRevocation| -> (b: bool)
            ensures
                b == (order::every())(v.deep_view()),
            { true };
        let key = |v: &IdentityRevocation| -> (k: Vec<KeyPart>)
            ensures
                k.deep_view() == by_revocation()(v.deep_view()),
            { by_revocation_of(v) };
        order::listing(&self.identity_revocations, keep, key, Ghost(order::every()), Ghost(by_revocation()))
    }

    /// Whether an identity is revoked.
    pub fn is_identity_revoked(&self, did: &Did) -> (r: bool)
        ensures
            r == table::holds(self.deep_view().identity_revocations, did.deep_view()),
    {
        self.identity_revocations.contains(did)
    }

    /// Which identity follows which.
    pub fn succession(&self) -> (r: &Succession)
        ensures
            r.deep_view() == self.deep_view().succession,
    {
        &self.succession
    }

    /// The identity that acts for another now.
    pub fn active_identity(&self, did: &Did) -> (r: Did)
        ensures
            r.deep_view() == successor(
                self.deep_view().succession.rotations,
                did.deep_view(),
                self.deep_view().succession.rotations.len(),
            ),
    {
        self.succession.active(did)
    }

    /// The manifest of an agent.
    pub fn agent_manifest(&self, did: &Did) -> (r: Option<&AgentManifest>)
        ensures
            r.deep_view() == table::find(self.deep_view().manifests, did.deep_view()),
    {
        self.manifests.get(did)
    }

    /// All manifests, in order of first publication.
    pub fn manifests(&self) -> (r: Vec<&AgentManifest>)
        ensures
            r.deep_view() == table::values(self.deep_view().manifests),
    {
        self.manifests.refs()
    }

    /// The capabilities that adopted results show an agent to have, by name.
    pub fn agent_verified_capabilities(&self, agent: &Did) -> (r: Vec<VerifiedCapability>)
        ensures
            r.deep_view() == task_market::verified_capabilities(
                self.deep_view().market,
                agent.deep_view(),
            ),
    {
        self.market.agent_verified_capabilities(agent)
    }

    /// The evidence for one capability of an agent.
    pub fn verified_capability(&self, agent: &Did, capability: &str) -> (r: Option<
        VerifiedCapability,
    >)
        ensures
            r.deep_view() == evidence_named(
                task_market::verified_capabilities(self.deep_view().market, agent.deep_view()),
                capability@,
            ),
    {
        let all = self.agent_verified_capabilities(agent);
        let ghost list = all.deep_view();
        let mut i: usize = 0;
        assert(list.skip(0) =~= list);
        while i < all.len()
            invariant
                i <= all@.len(),
                list == all.deep_view(),
                list == task_market::verified_capabilities(
                    self.deep_view().market,
                    agent.deep_view(),
                ),
                evidence_named(list, capability@) == evidence_named(
                    list.skip(i as int),
                    capability@,
                ),
            decreases all@.len() - i,
        {
            assert(list.skip(i as int)[0] == all@[i as int].deep_view());
            assert(list.skip(i as int).skip(1) =~= list.skip(i + 1));
            if text::same_text(all[i].name.as_str(), capability) {
                return Some(all[i].twin());
            }
            i = i + 1;
        }
        None
    }

    /// The relation of one agent to another.
    pub fn edge(&self, from: &Did, to: &Did) -> (r: Option<&SocialEdge>)
        ensures
            r.deep_view() == table::find(self.deep_view().edges, (from.deep_view(), to.deep_view())),
    {
        self.edges.get(&(from.twin(), to.twin()))
    }

    /// All relations.
    pub fn edges(&self) -> (r: Vec<&SocialEdge>)
        ensures
            r.deep_view() == order::listed(self.deep_view().edges, order::every(), by_pair()),
    {
        let keep = |v: &SocialEdge| -> (b: bool)
            ensures
                b == (order::every())(v.deep_view()),
            { true };
        let key = |v: &SocialEdge| -> (k: Vec<KeyPart>)
            ensures
                k.deep_view() == by_pair()(v.deep_view()),
            { by_pair_of(v) };
        order::listing(&self.edges, keep, key, Ghost(order::every()), Ghost(by_pair()))
    }

    /// What one agent remembers of another.
    pub fn reputation(&self, from: &Did, to: &Did) -> (r: Option<&ReputationScore>)
        ensures
            r.deep_view() == table::find(self.deep_view().reputations, (from.deep_view(), to.deep_view())),
    {
        self.reputations.get(&(from.twin(), to.twin()))
    }

    fn memories(&self, agent: Option<&Did>) -> (r: Vec<(&(Did, Did), &ReputationScore)>)
        ensures
            r.deep_view() == order::sort_by_key(
                self.deep_view().reputations.filter(touching(agent.deep_view())),
                by_agents(),
            ),
    {
        let all = self.reputations.row_refs();
        let ghost rows = all.deep_view();
        let ghost keep = touching(agent.deep_view());
        let mut r: Vec<(&(Did, Did), &ReputationScore)> = Vec::new();
        let mut keys: Vec<Vec<KeyPart>> = Vec::new();
        let mut i: usize = 0;
        proof {
            reveal(Seq::filter);
            assert(r.deep_view() =~= rows.subrange(0, 0).filter(keep));
        }
        while i < all.len()
            invariant
                i <= all@.len(),
                rows == all.deep_view(),
                keep == touching(agent.deep_view()),
                r.deep_view() == rows.subrange(0, i as int).filter(keep),
                r@.len() == keys@.len(),
                forall|j: int|
                    0 <= j < r@.len() ==> (#[trigger] keys@[j]).deep_view() == by_agents()(
                        r@[j].deep_view(),
                    ),
            decreases all@.len() - i,
        {
            proof {
                reveal(Seq::filter);
                let upto = rows.subrange(0, i + 1);
                assert(upto.drop_last() =~= rows.subrange(0, i as int));
                assert(upto.last() == all@[i as int].deep_view());
            }
            let pair = all[i].0;
            let memory = all[i].1;
            let wanted = match agent {
                Some(did) => pair.0.same(did) || pair.1.same(did),
                None => true,
            };
            if wanted {
                let ghost before = r.deep_view();
                let key = vec![
                    KeyPart::Text(pair.0.to_string()),
                    KeyPart::Text(pair.1.to_string()),
                ];
                assert(key.deep_view() =~= by_agents()(all@[i as int].deep_view()));
                keys.push(key);
                r.push((pair, memory));
                assert(r.deep_view() =~= before.push(all@[i as int].deep_view()));
            }
            i = i + 1;
        }
        assert(rows.subrange(0, i as int) =~= rows);
        order::sort_keyed(r, keys, Ghost(by_agents()))
    }

    /// All memories with the agent that has them and the agent they are of.
    pub fn reputations(&self) -> (r: Vec<(&(Did, Did), &ReputationScore)>)
        ensures
            r.deep_view() == order::sort_by_key(
                self.deep_view().reputations.filter(touching(None)),
                by_agents(),
            ),
    {
        self.memories(None)
    }

    /// The memories that involve an agent.
    pub fn agent_reputations(&self, agent: &Did) -> (r: Vec<(&(Did, Did), &ReputationScore)>)
        ensures
            r.deep_view() == order::sort_by_key(
                self.deep_view().reputations.filter(touching(Some(agent.deep_view()))),
                by_agents(),
            ),
    {
        self.memories(Some(agent))
    }

    /// The claims on a workspace with their standing, best first.
    pub fn workspace_ownership_claims(&self, workspace: &WorkspaceId) -> (r: Vec<
        WorkspaceOwnershipFact,
    >)
        ensures
            r.deep_view() == ({
                let claims = order::listed(
                    self.deep_view().workspace_ownership_claims,
                    claims_workspace(workspace.deep_view()),
                    by_ownership(),
                );
                Seq::new(claims.len(), |i: int| ownership_fact(claims[i]))
            }),
    {
        let claims = self.ownership_claims(workspace);
        let mut r: Vec<WorkspaceOwnershipFact> = Vec::new();
        while r.len() < claims.len()
            invariant
                r@.len() <= claims@.len(),
                forall|j: int|
                    0 <= j < r@.len() ==> (#[trigger] r@[j]).deep_view() == ownership_fact(
                        claims.deep_view()[j],
                    ),
            decreases claims@.len() - r@.len(),
        {
            let claim = claims[r.len()];
            let truth_status = workspace_ownership_truth_status(claim);
            r.push(WorkspaceOwnershipFact { claim: claim.twin(), truth_status });
        }
        proof {
            let list = claims.deep_view();
            assert(r.deep_view() =~= Seq::new(list.len(), |i: int| ownership_fact(list[i])));
        }
        r
    }

    /// The agents present in a workspace, by name.
    pub fn workspace_members(&self, workspace: &WorkspaceId) -> (r: Vec<&Did>)
        ensures
            r.deep_view() == order::sort_by_key(
                present(self.deep_view().presence, workspace.deep_view()),
                by_name(),
            ),
    {
        let ghost all = self.presence.members();
        let n = self.presence.len();
        let mut found: Vec<&Did> = Vec::new();
        let mut i: usize = 0;
        assert(found.deep_view() =~= Seq::<Seq<char>>::empty());
        while i < n
            invariant
                i <= n,
                n == all.len(),
                all == self.presence.members(),
                found.deep_view() == present(all.subrange(0, i as int), workspace.deep_view()),
            decreases n - i,
        {
            let ghost before = found.deep_view();
            let pair = self.presence.at(i);
            proof {
                let upto = all.subrange(0, i + 1);
                assert(upto.drop_last() =~= all.subrange(0, i as int));
                assert(upto.last() == pair.deep_view());
            }
            if pair.0.same(workspace) {
                found.push(&pair.1);
                assert(found.deep_view() =~= before.push(pair.1.deep_view()));
            }
            i = i + 1;
        }
        assert(all.subrange(0, i as int) =~= all);
        let key = |d: &Did| -> (k: Vec<KeyPart>)
            ensures
                k.deep_view() == by_name()(d.deep_view()),
            { by_name_of(d) };
        order::sorted(found, key, Ghost(by_name()))
    }

    /// The workspaces in which an agent is present, by identifier.
    pub fn agent_workspaces(&self, agent: &Did) -> (r: Vec<WorkspaceId>)
        ensures
            r.deep_view() == order::sort_by_key(
                places(self.deep_view().presence, agent.deep_view()),
                by_place(),
            ),
    {
        let ghost all = self.presence.members();
        let n = self.presence.len();
        let mut found: Vec<WorkspaceId> = Vec::new();
        let mut keys: Vec<Vec<KeyPart>> = Vec::new();
        let mut i: usize = 0;
        assert(found.deep_view() =~= Seq::<Seq<u8>>::empty());
        while i < n
            invariant
                i <= n,
                n == all.len(),
                all == self.presence.members(),
                found.deep_view() == places(all.subrange(0, i as int), agent.deep_view()),
                found@.len() == keys@.len(),
                forall|j: int|
                    0 <= j < found@.len() ==> (#[trigger] keys@[j]).deep_view() == by_place()(
                        found@[j].deep_view(),
                    ),
            decreases n - i,
        {
            let ghost before = found.deep_view();
            let pair = self.presence.at(i);
            proof {
                let upto = all.subrange(0, i + 1);
                assert(upto.drop_last() =~= all.subrange(0, i as int));
                assert(upto.last() == pair.deep_view());
            }
            if pair.1.same(agent) {
                keys.push(by_place_of(&pair.0));
                found.push(pair.0.twin());
                assert(found.deep_view() =~= before.push(pair.0.deep_view()));
            }
            i = i + 1;
        }
        assert(all.subrange(0, i as int) =~= all);
        order::sort_keyed(found, keys, Ghost(by_place()))
    }

    /// All grants.
    pub fn capability_grants(&self) -> (r: Vec<&CapabilityGrant>)
        ensures
            r.deep_view() == order::listed(self.deep_view().capability_grants, order::every(), by_grant()),
    {
        let keep = |v: &CapabilityGrant| -> (b: bool)
            ensures
                b == (order::every())(v.deep_view()),
            { true };
        let key = |v: &CapabilityGrant| -> (k: Vec<KeyPart>)
            ensures
                k.deep_view() == by_grant()(v.deep_view()),
            { by_grant_of(v) };
        order::listing(&self.capability_grants, keep, key, Ghost(order::every()), Ghost(by_grant()))
    }

    /// The grants on a workspace.
    pub fn workspace_capability_grants(&self, workspace: &WorkspaceId) -> (r: Vec<&CapabilityGrant>)
        ensures
            r.deep_view() == order::listed(self.deep_view().capability_grants, grants_on(workspace.deep_view()), by_grant()),
    {
        let keep = |v: &CapabilityGrant| -> (b: bool)
            ensures
                b == (grants_on(workspace.deep_view()))(v.deep_view()),
            { v.capability.workspace.same(workspace) };
        let key = |v: &CapabilityGrant| -> (k: Vec<KeyPart>)
            ensures
                k.deep_view() == by_grant()(v.deep_view()),
            { by_grant_of(v) };
        order::listing(&self.capability_grants, keep, key, Ghost(grants_on(workspace.deep_view())), Ghost(by_grant()))
    }

    /// The grants to a subject.
    pub fn agent_capability_grants(&self, subject: &Did) -> (r: Vec<&CapabilityGrant>)
        ensures
            r.deep_view() == order::listed(self.deep_view().capability_grants, grants_to(subject.deep_view()), by_grant()),
    {
        let keep = |v: &CapabilityGrant| -> (b: bool)
            ensures
                b == (grants_to(subject.deep_view()))(v.deep_view()),
            { v.capability.subject.same(subject) };
        let key = |v: &CapabilityGrant| -> (k: Vec<KeyPart>)
            ensures
                k.deep_view() == by_grant()(v.deep_view()),
            { by_grant_of(v) };
        order::listing(&self.capability_grants, keep, key, Ghost(grants_to(subject.deep_view())), Ghost(by_grant()))
    }

    /// The revocation of a grant by its issuer.
    pub fn capability_revocation(&self, grant: &CapabilityGrant) -> (r: Option<
        &CapabilityRevocation,
    >)
        ensures
            r.deep_view() == (match table::find(
                self.deep_view().capability_revocations,
                signature_id(grant.deep_view()),
            ) {
                Some(known) if known.issuer == grant.deep_view().capability.issuer => Some(known),
                _ => None,
            }),
    {
        let id = capability_signature_id(grant.capability.signature.as_slice());
        match self.capability_revocations.get(&id) {
            Some(known) => if known.issuer.same(&grant.capability.issuer) {
                Some(known)
            } else {
                None
            },
            None => None,
        }
    }

    /// All revocations of grants.
    pub fn capability_revocations(&self) -> (r: Vec<&CapabilityRevocation>)
        ensures
            r.deep_view() == order::listed(self.deep_view().capability_revocations, order::every(), by_grant_revocation()),
    {
        let keep = |v: &CapabilityRevocation| -> (b: bool)
            ensures
                b == (order::every())(v.deep_view()),
            { true };
        let key = |v: &CapabilityRevocation| -> (k: Vec<KeyPart>)
            ensures
                k.deep_view() == by_grant_revocation()(v.deep_view()),
            { by_grant_revocation_of(v) };
        order::listing(&self.capability_revocations, keep, key, Ghost(order::every()), Ghost(by_grant_revocation()))
    }

    /// The snapshots of a workspace.
    pub fn workspace_snapshots(&self, workspace: &WorkspaceId) -> (r: Vec<&WorkspaceSnapshot>)
        ensures
            r.deep_view() == order::listed(self.deep_view().workspace_snapshots, snapshots_of(workspace.deep_view()), by_snapshot()),
    {
        let keep = |v: &WorkspaceSnapshot| -> (b: bool)
            ensures
                b == (snapshots_of(workspace.deep_view()))(v.deep_view()),
            { v.workspace.same(workspace) };
        let key = |v: &WorkspaceSnapshot| -> (k: Vec<KeyPart>)
            ensures
                k.deep_view() == by_snapshot()(v.deep_view()),
            { by_snapshot_of(v) };
        order::listing(&self.workspace_snapshots, keep, key, Ghost(snapshots_of(workspace.deep_view())), Ghost(by_snapshot()))
    }

    /// The latest snapshot of a workspace.
    pub fn latest_workspace_snapshot(&self, workspace: &WorkspaceId) -> (r: Option<
        &WorkspaceSnapshot,
    >)
        ensures
            r.deep_view() == ({
                let all = order::listed(
                    self.deep_view().workspace_snapshots,
                    snapshots_of(workspace.deep_view()),
                    by_snapshot(),
                );
                if all.len() > 0 {
                    Some(all.last())
                } else {
                    None
                }
            }),
    {
        let all = self.workspace_snapshots(workspace);
        if all.len() > 0 {
            assert(all.deep_view().last() == all@[all@.len() - 1].deep_view());
            Some(all[all.len() - 1])
        } else {
            None
        }
    }

    /// The runs in a workspace.
    pub fn workspace_runs(&self, workspace: &WorkspaceId) -> (r: Vec<&WorkspaceRun>)
        ensures
            r.deep_view() == order::listed(self.deep_view().workspace_runs, runs_in(workspace.deep_view()), by_run()),
    {
        let keep = |v: &WorkspaceRun| -> (b: bool)
            ensures
                b == (runs_in(workspace.deep_view()))(v.deep_view()),
            { v.workspace.same(workspace) };
        let key = |v: &WorkspaceRun| -> (k: Vec<KeyPart>)
            ensures
                k.deep_view() == by_run()(v.deep_view()),
            { by_run_of(v) };
        order::listing(&self.workspace_runs, keep, key, Ghost(runs_in(workspace.deep_view())), Ghost(by_run()))
    }

    /// The runs of an agent.
    pub fn agent_workspace_runs(&self, actor: &Did) -> (r: Vec<&WorkspaceRun>)
        ensures
            r.deep_view() == order::listed(self.deep_view().workspace_runs, runs_by(actor.deep_view()), by_agent_run()),
    {
        let keep = |v: &WorkspaceRun| -> (b: bool)
            ensures
                b == (runs_by(actor.deep_view()))(v.deep_view()),
            { v.actor.same(actor) };
        let key = |v: &WorkspaceRun| -> (k: Vec<KeyPart>)
            ensures
                k.deep_view() == by_agent_run()(v.deep_view()),
            { by_agent_run_of(v) };
        order::listing(&self.workspace_runs, keep, key, Ghost(runs_by(actor.deep_view())), Ghost(by_agent_run()))
    }

    /// All intents.
    pub fn intents(&self) -> (r: Vec<&AgentIntent>)
        ensures
            r.deep_view() == order::listed(self.deep_view().intents, order::every(), by_intent()),
    {
        let keep = |v: &AgentIntent| -> (b: bool)
            ensures
                b == (order::every())(v.deep_view()),
            { true };
        let key = |v: &AgentIntent| -> (k: Vec<KeyPart>)
            ensures
                k.deep_view() == by_intent()(v.deep_view()),
            { by_intent_of(v) };
        order::listing(&self.intents, keep, key, Ghost(order::every()), Ghost(by_intent()))
    }

    /// The intents of an author.
    pub fn agent_intents(&self, author: &Did) -> (r: Vec<&AgentIntent>)
        ensures
            r.deep_view() == order::listed(self.deep_view().intents, intents_of(author.deep_view()), by_own_intent()),
    {
        let keep = |v: &AgentIntent| -> (b: bool)
            ensures
                b == (intents_of(author.deep_view()))(v.deep_view()),
            { v.author.same(author) };
        let key = |v: &AgentIntent| -> (k: Vec<KeyPart>)
            ensures
                k.deep_view() == by_own_intent()(v.deep_view()),
            { by_own_intent_of(v) };
        order::listing(&self.intents, keep, key, Ghost(intents_of(author.deep_view())), Ghost(by_own_intent()))
    }

    /// The intents in a workspace.
    pub fn workspace_intents(&self, workspace: &WorkspaceId) -> (r: Vec<&AgentIntent>)
        ensures
            r.deep_view() == order::listed(self.deep_view().intents, intents_in(workspace.deep_view()), by_intent()),
    {
        let keep = |v: &AgentIntent| -> (b: bool)
            ensures
                b == (intents_in(workspace.deep_view()))(v.deep_view()),
            { match &v.workspace {
                Some(w) => w.same(workspace),
                None => false,
            } };
        let key = |v: &AgentIntent| -> (k: Vec<KeyPart>)
            ensures
                k.deep_view() == by_intent()(v.deep_view()),
            { by_intent_of(v) };
        order::listing(&self.intents, keep, key, Ghost(intents_in(workspace.deep_view())), Ghost(by_intent()))
    }

    /// All responses.
    pub fn intent_responses(&self) -> (r: Vec<&IntentResponse>)
        ensures
            r.deep_view() == order::listed(self.deep_view().intent_responses, order::every(), by_response()),
    {
        let keep = |v: &IntentResponse| -> (b: bool)
            ensures
                b == (order::every())(v.deep_view()),
            { true };
        let key = |v: &IntentResponse| -> (k: Vec<KeyPart>)
            ensures
                k.deep_view() == by_response()(v.deep_view()),
            { by_response_of(v) };
        order::listing(&self.intent_responses, keep, key, Ghost(order::every()), Ghost(by_response()))
    }

    /// The responses to an intent.
    pub fn responses_for_intent(&self, intent_id: &str) -> (r: Vec<&IntentResponse>)
        ensures
            r.deep_view() == order::listed(self.deep_view().intent_responses, answers(intent_id@), by_response()),
    {
        let keep = |v: &IntentResponse| -> (b: bool)
            ensures
                b == (answers(intent_id@))(v.deep_view()),
            { text::same_text(v.intent_id.as_str(), intent_id) };
        let key = |v: &IntentResponse| -> (k: Vec<KeyPart>)
            ensures
                k.deep_view() == by_response()(v.deep_view()),
            { by_response_of(v) };
        order::listing(&self.intent_responses, keep, key, Ghost(answers(intent_id@)), Ghost(by_response()))
    }

    /// The responses of an agent.
    pub fn agent_intent_responses(&self, responder: &Did) -> (r: Vec<&IntentResponse>)
        ensures
            r.deep_view() == order::listed(self.deep_view().intent_responses, answers_by(responder.deep_view()), by_response()),
    {
        let keep = |v: &IntentResponse| -> (b: bool)
            ensures
                b == (answers_by(responder.deep_view()))(v.deep_view()),
            { v.responder.same(responder) };
        let key = |v: &IntentResponse| -> (k: Vec<KeyPart>)
            ensures
                k.deep_view() == by_response()(v.deep_view()),
            { by_response_of(v) };
        order::listing(&self.intent_responses, keep, key, Ghost(answers_by(responder.deep_view())), Ghost(by_response()))
    }

    /// The responses in a workspace.
    pub fn workspace_intent_responses(&self, workspace: &WorkspaceId) -> (r: Vec<&IntentResponse>)
        ensures
            r.deep_view() == order::listed(self.deep_view().intent_responses, answers_in(workspace.deep_view()), by_response()),
    {
        let keep = |v: &IntentResponse| -> (b: bool)
            ensures
                b == (answers_in(workspace.deep_view()))(v.deep_view()),
            { match &v.workspace {
                Some(w) => w.same(workspace),
                None => false,
            } };
        let key = |v: &IntentResponse| -> (k: Vec<KeyPart>)
            ensures
                k.deep_view() == by_response()(v.deep_view()),
            { by_response_of(v) };
        order::listing(&self.intent_responses, keep, key, Ghost(answers_in(workspace.deep_view())), Ghost(by_response()))
    }

    /// The workspaces that any fact mentions, by identifier.
    pub fn workspace_ids(&self) -> (r: Vec<WorkspaceId>)
        ensures
            r.deep_view() == order::sort_by_key(mentioned(self.deep_view()), by_place()),
    {
        let ghost v = self.deep_view();
        let mut all: Group<WorkspaceId> = Group::new();
        let mut here: Vec<Option<WorkspaceId>> = Vec::new();
        let n_here = self.presence.len();
        while here.len() < n_here
            invariant
                n_here == v.presence.len(),
                v == self.deep_view(),
                here@.len() <= n_here,
                forall|j: int|
                    0 <= j < here@.len() ==> (#[trigger] here@[j]).deep_view() == Some(v.presence[j].0),
            decreases n_here - here@.len(),
        {
            here.push(Some(self.presence.at(here.len()).0.twin()));
        }
        assert(here.deep_view() =~= Seq::new(v.presence.len(), |i: int| Some(v.presence[i].0)));
        join_some(&mut all, &here);
        let mut granted: Vec<Option<WorkspaceId>> = Vec::new();
        let n_granted = self.capability_grants.len();
        while granted.len() < n_granted
            invariant
                n_granted == v.capability_grants.len(),
                v == self.deep_view(),
                granted@.len() <= n_granted,
                forall|j: int|
                    0 <= j < granted@.len() ==> (#[trigger] granted@[j]).deep_view() == Some(v.capability_grants[j].1.capability.workspace),
            decreases n_granted - granted@.len(),
        {
            granted.push(Some(self.capability_grants.value_at(granted.len()).capability.workspace));
        }
        assert(granted.deep_view() =~= Seq::new(v.capability_grants.len(), |i: int| Some(v.capability_grants[i].1.capability.workspace)));
        join_some(&mut all, &granted);
        let mut wanted: Vec<Option<WorkspaceId>> = Vec::new();
        let n_wanted = self.intents.len();
        while wanted.len() < n_wanted
            invariant
                n_wanted == v.intents.len(),
                v == self.deep_view(),
                wanted@.len() <= n_wanted,
                forall|j: int|
                    0 <= j < wanted@.len() ==> (#[trigger] wanted@[j]).deep_view() == v.intents[j].1.workspace,
            decreases n_wanted - wanted@.len(),
        {
            wanted.push(self.intents.value_at(wanted.len()).workspace.twin());
        }
        assert(wanted.deep_view() =~= Seq::new(v.intents.len(), |i: int| v.intents[i].1.workspace));
        join_some(&mut all, &wanted);
        let mut answered: Vec<Option<WorkspaceId>> = Vec::new();
        let n_answered = self.intent_responses.len();
        while answered.len() < n_answered
            invariant
                n_answered == v.intent_responses.len(),
                v == self.deep_view(),
                answered@.len() <= n_answered,
                forall|j: int|
                    0 <= j < answered@.len() ==> (#[trigger] answered@[j]).deep_view() == v.intent_responses[j].1.workspace,
            decreases n_answered - answered@.len(),
        {
            answered.push(self.intent_responses.value_at(answered.len()).workspace.twin());
        }
        assert(answered.deep_view() =~= Seq::new(v.intent_responses.len(), |i: int| v.intent_responses[i].1.workspace));
        join_some(&mut all, &answered);
        let mut seen: Vec<Option<WorkspaceId>> = Vec::new();
        let n_seen = self.workspace_snapshots.len();
        while seen.len() < n_seen
            invariant
                n_seen == v.workspace_snapshots.len(),
                v == self.deep_view(),
                seen@.len() <= n_seen,
                forall|j: int|
                    0 <= j < seen@.len() ==> (#[trigger] seen@[j]).deep_view() == Some(v.workspace_snapshots[j].1.workspace),
            decreases n_seen - seen@.len(),
        {
            seen.push(Some(self.workspace_snapshots.value_at(seen.len()).workspace));
        }
        assert(seen.deep_view() =~= Seq::new(v.workspace_snapshots.len(), |i: int| Some(v.workspace_snapshots[i].1.workspace)));
        join_some(&mut all, &seen);
        let mut ran: Vec<Option<WorkspaceId>> = Vec::new();
        let n_ran = self.workspace_runs.len();
        while ran.len() < n_ran
            invariant
                n_ran == v.workspace_runs.len(),
                v == self.deep_view(),
                ran@.len() <= n_ran,
                forall|j: int|
                    0 <= j < ran@.len() ==> (#[trigger] ran@[j]).deep_view() == Some(v.workspace_runs[j].1.workspace),
            decreases n_ran - ran@.len(),
        {
            ran.push(Some(self.workspace_runs.value_at(ran.len()).workspace));
        }
        assert(ran.deep_view() =~= Seq::new(v.workspace_runs.len(), |i: int| Some(v.workspace_runs[i].1.workspace)));
        join_some(&mut all, &ran);
        let ghost names = all.members();
        let n = all.len();
        let mut found: Vec<WorkspaceId> = Vec::new();
        let mut keys: Vec<Vec<KeyPart>> = Vec::new();
        while found.len() < n
            invariant
                n == names.len(),
                names == all.members(),
                found@.len() <= n,
                found@.len() == keys@.len(),
                forall|j: int|
                    0 <= j < found@.len() ==> (#[trigger] found@[j]).deep_view() == names[j],
                forall|j: int|
                    0 <= j < found@.len() ==> (#[trigger] keys@[j]).deep_view() == by_place()(
                        found@[j].deep_view(),
                    ),
            decreases n - found@.len(),
        {
            let w = all.at(found.len()).twin();
            keys.push(by_place_of(&w));
            found.push(w);
        }
        assert(found.deep_view() =~= names);
        order::sort_keyed(found, keys, Ghost(by_place()))
    }

    /// The collective with an identifier.
    pub fn collective(&self, id: &str) -> (r: Option<&Collective>)
        ensures
            r.deep_view() == table::find(self.deep_view().collectives, id@),
    {
        self.collectives.get(&text::owned(id))
    }

    /// All collectives.
    pub fn collectives(&self) -> (r: Vec<&Collective>)
        ensures
            r.deep_view() == order::listed(self.deep_view().collectives, order::every(), by_collective()),
    {
        let keep = |v: &Collective| -> (b: bool)
            ensures
                b == (order::every())(v.deep_view()),
            { true };
        let key = |v: &Collective| -> (k: Vec<KeyPart>)
            ensures
                k.deep_view() == by_collective()(v.deep_view()),
            { by_collective_of(v) };
        order::listing(&self.collectives, keep, key, Ghost(order::every()), Ghost(by_collective()))
    }

    /// The proposals of a collective.
    pub fn collective_proposals(&self, collective_id: &str) -> (r: Vec<&CollectiveProposal>)
        ensures
            r.deep_view() == order::listed(self.deep_view().collective_proposals, proposed_in(collective_id@), by_proposal()),
    {
        let keep = |v: &CollectiveProposal| -> (b: bool)
            ensures
                b == (proposed_in(collective_id@))(v.deep_view()),
            { text::same_text(v.collective_id.as_str(), collective_id) };
        let key = |v: &CollectiveProposal| -> (k: Vec<KeyPart>)
            ensures
                k.deep_view() == by_proposal()(v.deep_view()),
            { by_proposal_of(v) };
        order::listing(&self.collective_proposals, keep, key, Ghost(proposed_in(collective_id@)), Ghost(by_proposal()))
    }

    /// The votes on a proposal.
    pub fn collective_votes(&self, collective_id: &str, proposal_id: &str) -> (r: Vec<
        &CollectiveVote,
    >)
        ensures
            r.deep_view() == order::listed(
                self.deep_view().collective_votes,
                votes_on(proposal_key(collective_id@, proposal_id@)),
                by_voter(),
            ),
    {
        let wanted = collective_proposal_key(collective_id, proposal_id);
        let ghost on = votes_on(proposal_key(collective_id@, proposal_id@));
        let keep = |v: &CollectiveVote| -> (b: bool)
            ensures
                b == on(v.deep_view()),
            {
                let mine = collective_proposal_key(
                    v.collective_id.as_str(),
                    v.proposal_id.as_str(),
                );
                mine.same(&wanted)
            };
        let key = |v: &CollectiveVote| -> (k: Vec<KeyPart>)
            ensures
                k.deep_view() == by_voter()(v.deep_view()),
            { by_voter_of(v) };
        order::listing(&self.collective_votes, keep, key, Ghost(on), Ghost(by_voter()))
    }

    /// The decision on a proposal.
    pub fn collective_decision(&self, collective_id: &str, proposal_id: &str) -> (r: Option<
        &CollectiveDecision,
    >)
        ensures
            r.deep_view() == table::find(
                self.deep_view().collective_decisions,
                proposal_key(collective_id@, proposal_id@),
            ),
    {
        self.collective_decisions.get(&collective_proposal_key(collective_id, proposal_id))
    }

    fn collective_decision_anchor_valid(&self, decision: &CollectiveDecision) -> (r: bool)
        ensures
            r == decision_anchored(self.deep_view(), decision.deep_view()),
    {
        match &decision.anchor {
            None => false,
            Some(anchor) => {
                if anchor.validate().is_err() {
                    return false;
                }
                if !decision_anchor_subject_matches(anchor, decision) {
                    return false;
                }
                if anchor.kind != AuthorityKind::CollectiveQuorum {
                    return true;
                }
                match self.collectives.get(&decision.collective_id) {
                    None => false,
                    Some(c) => meets_quorum(anchor, &c.members),
                }
            },
        }
    }

    /// Whether a decision is anchored in this society.
    pub fn collective_decision_truth_status(&self, decision: &CollectiveDecision) -> (r:
        FactTruthStatus)
        ensures
            r == decision_status(self.deep_view(), decision.deep_view()),
    {
        if self.collective_decision_anchor_valid(decision) {
            FactTruthStatus::Anchored
        } else {
            FactTruthStatus::Claimed
        }
    }

    fn judgments_of(&self, decisions: Vec<&CollectiveDecision>) -> (r: Vec<TaskClaimJudgment>)
        ensures
            r.deep_view() == judgments(self.deep_view(), decisions.deep_view()),
    {
        let mut r: Vec<TaskClaimJudgment> = Vec::new();
        while r.len() < decisions.len()
            invariant
                r@.len() <= decisions@.len(),
                forall|j: int|
                    0 <= j < r@.len() ==> (#[trigger] r@[j]).deep_view() == judgment(
                        self.deep_view(),
                        decisions.deep_view()[j],
                    ),
            decreases decisions@.len() - r@.len(),
        {
            let d = decisions[r.len()];
            let truth_status = self.collective_decision_truth_status(d);
            r.push(
                TaskClaimJudgment {
                    collective_id: d.collective_id.twin(),
                    proposal_id: d.proposal_id.twin(),
                    decider: d.decider.twin(),
                    outcome: d.outcome,
                    task_id: d.task_id.twin(),
                    claim_id: d.claim_id.twin(),
                    target: d.target.twin(),
                    truth_status,
                    reason: d.reason.twin(),
                    timestamp: d.timestamp,
                },
            );
        }
        assert(r.deep_view() =~= judgments(self.deep_view(), decisions.deep_view()));
        r
    }

    fn decisions_on_task(&self, task_id: &str) -> (r: Vec<&CollectiveDecision>)
        ensures
            r.deep_view() == order::listed(self.deep_view().collective_decisions, judges_task(task_id@), by_decision()),
    {
        let keep = |v: &CollectiveDecision| -> (b: bool)
            ensures
                b == (judges_task(task_id@))(v.deep_view()),
            { same_optional(&v.task_id, task_id) };
        let key = |v: &CollectiveDecision| -> (k: Vec<KeyPart>)
            ensures
                k.deep_view() == by_decision()(v.deep_view()),
            { by_decision_of(v) };
        order::listing(&self.collective_decisions, keep, key, Ghost(judges_task(task_id@)), Ghost(by_decision()))
    }

    fn decisions_on_claim(&self, task_id: &str, claim_id: &str) -> (r: Vec<&CollectiveDecision>)
        ensures
            r.deep_view() == order::listed(self.deep_view().collective_decisions, judges_claim(task_id@, claim_id@), by_decision()),
    {
        let keep = |v: &CollectiveDecision| -> (b: bool)
            ensures
                b == (judges_claim(task_id@, claim_id@))(v.deep_view()),
            { same_optional(&v.task_id, task_id) && same_optional(&v.claim_id, claim_id) };
        let key = |v: &CollectiveDecision| -> (k: Vec<KeyPart>)
            ensures
                k.deep_view() == by_decision()(v.deep_view()),
            { by_decision_of(v) };
        order::listing(&self.collective_decisions, keep, key, Ghost(judges_claim(task_id@, claim_id@)), Ghost(by_decision()))
    }

    fn decisions_on_agent(&self, target: &Did) -> (r: Vec<&CollectiveDecision>)
        ensures
            r.deep_view() == order::listed(self.deep_view().collective_decisions, judges_agent(target.deep_view()), by_decision()),
    {
        let keep = |v: &CollectiveDecision| -> (b: bool)
            ensures
                b == (judges_agent(target.deep_view()))(v.deep_view()),
            { match &v.target {
                Some(did) => did.same(target),
                None => false,
            } };
        let key = |v: &CollectiveDecision| -> (k: Vec<KeyPart>)
            ensures
                k.deep_view() == by_decision()(v.deep_view()),
            { by_decision_of(v) };
        order::listing(&self.collective_decisions, keep, key, Ghost(judges_agent(target.deep_view())), Ghost(by_decision()))
    }

    /// The judgments on a task.
    pub fn task_claim_judgments(&self, task_id: &str) -> (r: Vec<TaskClaimJudgment>)
        ensures
            r.deep_view() == judgments(
                self.deep_view(),
                order::listed(
                    self.deep_view().collective_decisions,
                    judges_task(task_id@),
                    by_decision(),
                ),
            ),
    {
        self.judgments_of(self.decisions_on_task(task_id))
    }

    /// The judgments on a result claim.
    pub fn result_claim_judgments(&self, task_id: &str, claim_id: &str) -> (r: Vec<
        TaskClaimJudgment,
    >)
        ensures
            r.deep_view() == judgments(
                self.deep_view(),
                order::listed(
                    self.deep_view().collective_decisions,
                    judges_claim(task_id@, claim_id@),
                    by_decision(),
                ),
            ),
    {
        self.judgments_of(self.decisions_on_claim(task_id, claim_id))
    }

    /// The latest decisions on an agent, at most so many.
    pub fn governance_signals_for(&self, target: &Did, limit: usize) -> (r: Vec<GovernanceSignal>)
        ensures
            r.deep_view() == signals_for(self.deep_view(), target.deep_view(), limit),
    {
        let all = self.decisions_on_agent(target);
        let start: usize = if all.len() > limit {
            all.len() - limit
        } else {
            0
        };
        let ghost list = all.deep_view();
        let mut r: Vec<GovernanceSignal> = Vec::new();
        while r.len() < all.len() - start
            invariant
                start <= all@.len(),
                list == all.deep_view(),
                r@.len() <= all@.len() - start,
                forall|j: int|
                    0 <= j < r@.len() ==> (#[trigger] r@[j]).deep_view() == signal(
                        self.deep_view(),
                        list[start + j],
                    ),
            decreases all@.len() - start - r@.len(),
        {
            let d = all[start + r.len()];
            let truth_status = self.collective_decision_truth_status(d);
            r.push(
                GovernanceSignal {
                    collective_id: d.collective_id.twin(),
                    proposal_id: d.proposal_id.twin(),
                    decider: d.decider.twin(),
                    outcome: d.outcome,
                    task_id: d.task_id.twin(),
                    claim_id: d.claim_id.twin(),
                    truth_status,
                    reason: d.reason.twin(),
                    timestamp: d.timestamp,
                },
            );
        }
        assert(r.deep_view() =~= signals_for(self.deep_view(), target.deep_view(), limit));
        r
    }

    /// The task with an identifier.
    pub fn task(&self, task_id: &str) -> (r: Option<&Task>)
        ensures
            r.deep_view() == table::find(self.deep_view().market.tasks, task_id@),
    {
        self.market.task(task_id)
    }

    /// All tasks.
    pub fn tasks(&self) -> (r: Vec<&Task>)
        ensures
            r.deep_view() == order::listed(self.deep_view().market.tasks, order::every(), task_market::by_task_id()),
    {
        self.market.tasks()
    }

    /// The offers on a task, best first.
    pub fn task_offers(&self, task_id: &str) -> (r: &[TaskOffer])
        ensures
            r.deep_view() == task_market::offers_on(self.deep_view().market, task_id@),
    {
        self.market.task_offers(task_id)
    }

    /// The adopted result of a task.
    pub fn task_result(&self, task_id: &str) -> (r: Option<&TaskResult>)
        ensures
            r.deep_view() == table::find(self.deep_view().market.task_results, task_id@),
    {
        self.market.task_result(task_id)
    }

    /// The results that are claimed of a task.
    pub fn task_result_claims(&self, task_id: &str) -> (r: Vec<&TaskResult>)
        ensures
            r.deep_view() == task_market::claimed_results(order::listed(self.deep_view().market.task_result_claims, task_market::claims_task(task_id@), task_market::by_claim())),
    {
        self.market.task_result_claims(task_id)
    }

    /// The attestations that are known of a task.
    pub fn task_execution_attestations(&self, task_id: &str) -> (r: Vec<&ExecutionAttestation>)
        ensures
            r.deep_view() == order::listed(self.deep_view().market.task_execution_attestations, task_market::attests_task(task_id@), task_market::by_attestation()),
    {
        self.market.task_execution_attestations(task_id)
    }

    /// The attestations that support a result.
    pub fn task_result_attestations<'a>(&'a self, result: &'a TaskResult) -> (r: Vec<
        &'a ExecutionAttestation,
    >)
        ensures
            r.deep_view() == task_market::support(self.deep_view().market, result.deep_view()),
    {
        self.market.task_result_attestations(result)
    }

    /// The adopted results of an agent.
    pub fn agent_task_results(&self, executor: &Did) -> (r: Vec<&TaskResult>)
        ensures
            r.deep_view() == order::listed(self.deep_view().market.task_results, task_market::made_by(executor.deep_view()), task_market::by_result()),
    {
        self.market.agent_task_results(executor)
    }

    /// The results that an agent claims.
    pub fn agent_task_result_claims(&self, executor: &Did) -> (r: Vec<&TaskResult>)
        ensures
            r.deep_view() == task_market::claimed_results(order::listed(self.deep_view().market.task_result_claims, task_market::claimed_by(executor.deep_view()), task_market::by_agent_claim())),
    {
        self.market.agent_task_result_claims(executor)
    }

    /// The acceptance in effect for a task.
    pub fn task_acceptance(&self, task_id: &str) -> (r: Option<&TaskAcceptance>)
        ensures
            r.deep_view() == order::first(order::listed(self.deep_view().market.task_acceptances, task_market::effective(self.deep_view().market, task_id@), task_market::by_acceptance())),
    {
        self.market.task_acceptance(task_id)
    }

    /// The cancellation in effect for a task.
    pub fn task_cancellation(&self, task_id: &str) -> (r: Option<&TaskCancellation>)
        ensures
            r.deep_view() == order::first(order::listed(self.deep_view().market.task_cancellations, task_market::cancelled_by(self.deep_view().market, task_id@), task_market::by_cancellation())),
    {
        self.market.task_cancellation(task_id)
    }

    /// The disputes of a task.
    pub fn task_disputes(&self, task_id: &str) -> (r: Vec<&TaskDispute>)
        ensures
            r.deep_view() == order::listed(self.deep_view().market.task_disputes, task_market::disputes_task(task_id@), task_market::by_dispute()),
    {
        self.market.task_disputes(task_id)
    }

    /// The open tasks that require a capability, by identifier.
    pub fn open_tasks_for(&self, capability: &str) -> (r: Vec<&Task>)
        ensures
            r.deep_view() == order::listed(self.deep_view().market.tasks, task_market::open_needing(capability@), task_market::by_task_id()),
    {
        self.market.open_tasks_for(capability)
    }

}

fn snapshot_of_run(run: &WorkspaceRun) -> (r: Option<WorkspaceSnapshot>)
    ensures
        r.deep_view() == run_snapshot(run.deep_view()),
{
    match &run.output_root {
        Some(root) => {
            let args = format_args_for_note(&run.args);
            let note = text::joined_pair("run ", run.command.as_str());
            Some(
                WorkspaceSnapshot {
                    workspace: run.workspace,
                    actor: run.actor.twin(),
                    root: root.twin(),
                    label: Some(text::owned("workspace-run")),
                    note: Some(text::joined_pair(note.as_str(), args.as_str())),
                    timestamp: run.finished_at,
                },
            )
        },
        None => None,
    }
}

/// Settlements by time and identifier.
pub open spec fn by_settlement() -> spec_fn(SettlementRecordView) -> SortKey {
    |v: SettlementRecordView|
        seq![
            KeyPartView::Num(v.settled_at as int),
            KeyPartView::Text(v.id),
        ]
}

fn by_settlement_of(v: &SettlementRecord) -> (k: Vec<KeyPart>)
    ensures
        k.deep_view() == by_settlement()(v.deep_view()),
{
    let k = vec![
            KeyPart::Num(v.settled_at as i128),
            KeyPart::Text(v.id.twin()),
        ];
    assert(k.deep_view() =~= by_settlement()(v.deep_view()));
    k
}

/// Settlements of a task.
pub open spec fn settles_task(task_id: Seq<char>) -> spec_fn(SettlementRecordView) -> bool {
    |v: SettlementRecordView| v.task_id == Some(task_id)
}

/// Evidence by author, position and key.
pub open spec fn by_evidence() -> spec_fn(EquivocationProofView) -> SortKey {
    |v: EquivocationProofView|
        seq![
            KeyPartView::Text(v.author),
            KeyPartView::Num(v.seq as int),
            KeyPartView::Text(evidence_key(v)),
        ]
}

fn by_evidence_of(v: &EquivocationProof) -> (k: Vec<KeyPart>)
    ensures
        k.deep_view() == by_evidence()(v.deep_view()),
{
    let k = vec![
            KeyPart::Text(v.author.to_string()),
            KeyPart::Num(v.seq as i128),
            KeyPart::Text(v.evidence_key()),
        ];
    assert(k.deep_view() =~= by_evidence()(v.deep_view()));
    k
}

/// Evidence by position and key.
pub open spec fn by_fork() -> spec_fn(EquivocationProofView) -> SortKey {
    |v: EquivocationProofView|
        seq![
            KeyPartView::Num(v.seq as int),
            KeyPartView::Text(evidence_key(v)),
        ]
}

fn by_fork_of(v: &EquivocationProof) -> (k: Vec<KeyPart>)
    ensures
        k.deep_view() == by_fork()(v.deep_view()),
{
    let k = vec![
            KeyPart::Num(v.seq as i128),
            KeyPart::Text(v.evidence_key()),
        ];
    assert(k.deep_view() =~= by_fork()(v.deep_view()));
    k
}

/// Evidence against an author.
pub open spec fn forks_of(author: Seq<char>) -> spec_fn(EquivocationProofView) -> bool {
    |v: EquivocationProofView| v.author == author
}

/// Interactions by time and identifier.
pub open spec fn by_interaction() -> spec_fn(InteractionView) -> SortKey {
    |v: InteractionView|
        seq![
            KeyPartView::Num(v.timestamp as int),
            KeyPartView::Text(v.id),
        ]
}

fn by_interaction_of(v: &Interaction) -> (k: Vec<KeyPart>)
    ensures
        k.deep_view() == by_interaction()(v.deep_view()),
{
    let k = vec![
            KeyPart::Num(v.timestamp as i128),
            KeyPart::Text(v.id.twin()),
        ];
    assert(k.deep_view() =~= by_interaction()(v.deep_view()));
    k
}

/// Interactions of an agent.
pub open spec fn involves(agent: Seq<char>) -> spec_fn(InteractionView) -> bool {
    |v: InteractionView| v.from == agent || v.to == agent
}

/// Revocations by time and identity.
pub open spec fn by_revocation() -> spec_fn(IdentityRevocationView) -> SortKey {
    |v: IdentityRevocationView|
        seq![
            KeyPartView::Num(v.revoked_at as int),
            KeyPartView::Text(v.did),
        ]
}

fn by_revocation_of(v: &IdentityRevocation) -> (k: Vec<KeyPart>)
    ensures
        k.deep_view() == by_revocation()(v.deep_view()),
{
    let k = vec![
            KeyPart::Num(v.revoked_at as i128),
            KeyPart::Text(v.did.to_string()),
        ];
    assert(k.deep_view() =~= by_revocation()(v.deep_view()));
    k
}

/// Relations by the two agents.
pub open spec fn by_pair() -> spec_fn(SocialEdgeView) -> SortKey {
    |v: SocialEdgeView|
        seq![
            KeyPartView::Text(v.from),
            KeyPartView::Text(v.to),
        ]
}

fn by_pair_of(v: &SocialEdge) -> (k: Vec<KeyPart>)
    ensures
        k.deep_view() == by_pair()(v.deep_view()),
{
    let k = vec![
            KeyPart::Text(v.from.to_string()),
            KeyPart::Text(v.to.to_string()),
        ];
    assert(k.deep_view() =~= by_pair()(v.deep_view()));
    k
}

/// Grants by workspace, issuer, subject and time.
pub open spec fn by_grant() -> spec_fn(CapabilityGrantView) -> SortKey {
    |v: CapabilityGrantView|
        seq![
            KeyPartView::Text(outside::hex_text(v.capability.workspace)),
            KeyPartView::Text(v.capability.issuer),
            KeyPartView::Text(v.capability.subject),
            KeyPartView::Num(v.issued_at as int),
        ]
}

fn by_grant_of(v: &CapabilityGrant) -> (k: Vec<KeyPart>)
    ensures
        k.deep_view() == by_grant()(v.deep_view()),
{
    let k = vec![
            KeyPart::Text(v.capability.workspace.to_string()),
            KeyPart::Text(v.capability.issuer.to_string()),
            KeyPart::Text(v.capability.subject.to_string()),
            KeyPart::Num(v.issued_at as i128),
        ];
    assert(k.deep_view() =~= by_grant()(v.deep_view()));
    k
}

/// Grants on a workspace.
pub open spec fn grants_on(workspace: Seq<u8>) -> spec_fn(CapabilityGrantView) -> bool {
    |v: CapabilityGrantView| v.capability.workspace == workspace
}

/// Grants to a subject.
pub open spec fn grants_to(subject: Seq<char>) -> spec_fn(CapabilityGrantView) -> bool {
    |v: CapabilityGrantView| v.capability.subject == subject
}

/// Revocations by time, issuer and signature.
pub open spec fn by_grant_revocation() -> spec_fn(CapabilityRevocationView) -> SortKey {
    |v: CapabilityRevocationView|
        seq![
            KeyPartView::Num(v.revoked_at as int),
            KeyPartView::Text(v.issuer),
            KeyPartView::Text(v.capability_signature_id),
        ]
}

fn by_grant_revocation_of(v: &CapabilityRevocation) -> (k: Vec<KeyPart>)
    ensures
        k.deep_view() == by_grant_revocation()(v.deep_view()),
{
    let k = vec![
            KeyPart::Num(v.revoked_at as i128),
            KeyPart::Text(v.issuer.to_string()),
            KeyPart::Text(v.capability_signature_id.twin()),
        ];
    assert(k.deep_view() =~= by_grant_revocation()(v.deep_view()));
    k
}

/// Snapshots by time, actor and root.
pub open spec fn by_snapshot() -> spec_fn(WorkspaceSnapshotView) -> SortKey {
    |v: WorkspaceSnapshotView|
        seq![
            KeyPartView::Num(v.timestamp as int),
            KeyPartView::Text(v.actor),
            KeyPartView::Text(outside::hex_text(v.root)),
        ]
}

fn by_snapshot_of(v: &WorkspaceSnapshot) -> (k: Vec<KeyPart>)
    ensures
        k.deep_view() == by_snapshot()(v.deep_view()),
{
    let k = vec![
            KeyPart::Num(v.timestamp as i128),
            KeyPart::Text(v.actor.to_string()),
            KeyPart::Text(v.root.to_string()),
        ];
    assert(k.deep_view() =~= by_snapshot()(v.deep_view()));
    k
}

/// Snapshots of a workspace.
pub open spec fn snapshots_of(workspace: Seq<u8>) -> spec_fn(WorkspaceSnapshotView) -> bool {
    |v: WorkspaceSnapshotView| v.workspace == workspace
}

/// Runs by time, actor and command.
pub open spec fn by_run() -> spec_fn(WorkspaceRunView) -> SortKey {
    |v: WorkspaceRunView|
        seq![
            KeyPartView::Num(v.started_at as int),
            KeyPartView::Num(v.finished_at as int),
            KeyPartView::Text(v.actor),
            KeyPartView::Text(v.command),
        ]
}

fn by_run_of(v: &WorkspaceRun) -> (k: Vec<KeyPart>)
    ensures
        k.deep_view() == by_run()(v.deep_view()),
{
    let k = vec![
            KeyPart::Num(v.started_at as i128),
            KeyPart::Num(v.finished_at as i128),
            KeyPart::Text(v.actor.to_string()),
            KeyPart::Text(v.command.twin()),
        ];
    assert(k.deep_view() =~= by_run()(v.deep_view()));
    k
}

/// Runs in a workspace.
pub open spec fn runs_in(workspace: Seq<u8>) -> spec_fn(WorkspaceRunView) -> bool {
    |v: WorkspaceRunView| v.workspace == workspace
}

/// Runs by time, workspace and command.
pub open spec fn by_agent_run() -> spec_fn(WorkspaceRunView) -> SortKey {
    |v: WorkspaceRunView|
        seq![
            KeyPartView::Num(v.started_at as int),
            KeyPartView::Text(outside::hex_text(v.workspace)),
            KeyPartView::Text(v.command),
        ]
}

fn by_agent_run_of(v: &WorkspaceRun) -> (k: Vec<KeyPart>)
    ensures
        k.deep_view() == by_agent_run()(v.deep_view()),
{
    let k = vec![
            KeyPart::Num(v.started_at as i128),
            KeyPart::Text(v.workspace.to_string()),
            KeyPart::Text(v.command.twin()),
        ];
    assert(k.deep_view() =~= by_agent_run()(v.deep_view()));
    k
}

/// Runs by an agent.
pub open spec fn runs_by(actor: Seq<char>) -> spec_fn(WorkspaceRunView) -> bool {
    |v: WorkspaceRunView| v.actor == actor
}

/// Intents by time, author and identifier.
pub open spec fn by_intent() -> spec_fn(AgentIntentView) -> SortKey {
    |v: AgentIntentView|
        seq![
            KeyPartView::Num(v.created_at as int),
            KeyPartView::Text(v.author),
            KeyPartView::Text(v.id),
        ]
}

fn by_intent_of(v: &AgentIntent) -> (k: Vec<KeyPart>)
    ensures
        k.deep_view() == by_intent()(v.deep_view()),
{
    let k = vec![
            KeyPart::Num(v.created_at as i128),
            KeyPart::Text(v.author.to_string()),
            KeyPart::Text(v.id.twin()),
        ];
    assert(k.deep_view() =~= by_intent()(v.deep_view()));
    k
}

/// Intents by time and identifier.
pub open spec fn by_own_intent() -> spec_fn(AgentIntentView) -> SortKey {
    |v: AgentIntentView|
        seq![
            KeyPartView::Num(v.created_at as int),
            KeyPartView::Text(v.id),
        ]
}

fn by_own_intent_of(v: &AgentIntent) -> (k: Vec<KeyPart>)
    ensures
        k.deep_view() == by_own_intent()(v.deep_view()),
{
    let k = vec![
            KeyPart::Num(v.created_at as i128),
            KeyPart::Text(v.id.twin()),
        ];
    assert(k.deep_view() =~= by_own_intent()(v.deep_view()));
    k
}

/// Intents of an author.
pub open spec fn intents_of(author: Seq<char>) -> spec_fn(AgentIntentView) -> bool {
    |v: AgentIntentView| v.author == author
}

/// Intents in a workspace.
pub open spec fn intents_in(workspace: Seq<u8>) -> spec_fn(AgentIntentView) -> bool {
    |v: AgentIntentView| v.workspace == Some(workspace)
}

/// Responses by time, intent, responder and identifier.
pub open spec fn by_response() -> spec_fn(IntentResponseView) -> SortKey {
    |v: IntentResponseView|
        seq![
            KeyPartView::Num(v.created_at as int),
            KeyPartView::Text(v.intent_id),
            KeyPartView::Text(v.responder),
            KeyPartView::Text(v.id),
        ]
}

fn by_response_of(v: &IntentResponse) -> (k: Vec<KeyPart>)
    ensures
        k.deep_view() == by_response()(v.deep_view()),
{
    let k = vec![
            KeyPart::Num(v.created_at as i128),
            KeyPart::Text(v.intent_id.twin()),
            KeyPart::Text(v.responder.to_string()),
            KeyPart::Text(v.id.twin()),
        ];
    assert(k.deep_view() =~= by_response()(v.deep_view()));
    k
}

/// Responses to an intent.
pub open spec fn answers(intent_id: Seq<char>) -> spec_fn(IntentResponseView) -> bool {
    |v: IntentResponseView| v.intent_id == intent_id
}

/// Responses of an agent.
pub open spec fn answers_by(responder: Seq<char>) -> spec_fn(IntentResponseView) -> bool {
    |v: IntentResponseView| v.responder == responder
}

/// Responses in a workspace.
pub open spec fn answers_in(workspace: Seq<u8>) -> spec_fn(IntentResponseView) -> bool {
    |v: IntentResponseView| v.workspace == Some(workspace)
}

/// Collectives by identifier.
pub open spec fn by_collective() -> spec_fn(CollectiveView) -> SortKey {
    |v: CollectiveView|
        seq![
            KeyPartView::Text(v.id),
        ]
}

fn by_collective_of(v: &Collective) -> (k: Vec<KeyPart>)
    ensures
        k.deep_view() == by_collective()(v.deep_view()),
{
    let k = vec![
            KeyPart::Text(v.id.twin()),
        ];
    assert(k.deep_view() =~= by_collective()(v.deep_view()));
    k
}

/// Proposals by time and identifier.
pub open spec fn by_proposal() -> spec_fn(CollectiveProposalView) -> SortKey {
    |v: CollectiveProposalView|
        seq![
            KeyPartView::Num(v.created_at as int),
            KeyPartView::Text(v.id),
        ]
}

fn by_proposal_of(v: &CollectiveProposal) -> (k: Vec<KeyPart>)
    ensures
        k.deep_view() == by_proposal()(v.deep_view()),
{
    let k = vec![
            KeyPart::Num(v.created_at as i128),
            KeyPart::Text(v.id.twin()),
        ];
    assert(k.deep_view() =~= by_proposal()(v.deep_view()));
    k
}

/// Proposals of a collective.
pub open spec fn proposed_in(collective_id: Seq<char>) -> spec_fn(CollectiveProposalView) -> bool {
    |v: CollectiveProposalView| v.collective_id == collective_id
}

/// Votes by voter.
pub open spec fn by_voter() -> spec_fn(CollectiveVoteView) -> SortKey {
    |v: CollectiveVoteView|
        seq![
            KeyPartView::Text(v.voter),
        ]
}

fn by_voter_of(v: &CollectiveVote) -> (k: Vec<KeyPart>)
    ensures
        k.deep_view() == by_voter()(v.deep_view()),
{
    let k = vec![
            KeyPart::Text(v.voter.to_string()),
        ];
    assert(k.deep_view() =~= by_voter()(v.deep_view()));
    k
}

/// Votes on a proposal.
pub open spec fn votes_on(key: Seq<char>) -> spec_fn(CollectiveVoteView) -> bool {
    |v: CollectiveVoteView| proposal_key(v.collective_id, v.proposal_id) == key
}

/// Decisions by time, collective, proposal and decider.
pub open spec fn by_decision() -> spec_fn(CollectiveDecisionView) -> SortKey {
    |v: CollectiveDecisionView|
        seq![
            KeyPartView::Num(v.timestamp as int),
            KeyPartView::Text(v.collective_id),
            KeyPartView::Text(v.proposal_id),
            KeyPartView::Text(v.decider),
        ]
}

fn by_decision_of(v: &CollectiveDecision) -> (k: Vec<KeyPart>)
    ensures
        k.deep_view() == by_decision()(v.deep_view()),
{
    let k = vec![
            KeyPart::Num(v.timestamp as i128),
            KeyPart::Text(v.collective_id.twin()),
            KeyPart::Text(v.proposal_id.twin()),
            KeyPart::Text(v.decider.to_string()),
        ];
    assert(k.deep_view() =~= by_decision()(v.deep_view()));
    k
}

/// Decisions on a task.
pub open spec fn judges_task(task_id: Seq<char>) -> spec_fn(CollectiveDecisionView) -> bool {
    |v: CollectiveDecisionView| v.task_id == Some(task_id)
}

/// Decisions on a result claim.
pub open spec fn judges_claim(task_id: Seq<char>, claim: Seq<char>) -> spec_fn(CollectiveDecisionView) -> bool {
    |v: CollectiveDecisionView| v.task_id == Some(task_id) && v.claim_id == Some(claim)
}

/// Decisions on an agent.
pub open spec fn judges_agent(target: Seq<char>) -> spec_fn(CollectiveDecisionView) -> bool {
    |v: CollectiveDecisionView| v.target == Some(target)
}

/// Workspaces by identifier.
pub open spec fn by_place() -> spec_fn(Seq<u8>) -> SortKey {
    |v: Seq<u8>|
        seq![
            KeyPartView::Text(outside::hex_text(v)),
        ]
}

fn by_place_of(v: &WorkspaceId) -> (k: Vec<KeyPart>)
    ensures
        k.deep_view() == by_place()(v.deep_view()),
{
    let k = vec![
            KeyPart::Text(v.to_string()),
        ];
    assert(k.deep_view() =~= by_place()(v.deep_view()));
    k
}

/// Whether an author is known to have forked their chain.
pub open spec fn forked(v: SocietyView, author: Seq<char>) -> bool {
    exists|i: int| 0 <= i < v.equivocations.len() && (#[trigger] v.equivocations[i]).0.0 == author
}

/// The agents that are present in a workspace.
pub open spec fn present(presence: Seq<(Seq<u8>, Seq<char>)>, workspace: Seq<u8>) -> Seq<Seq<char>>
    decreases presence.len(),
{
    if presence.len() == 0 {
        Seq::empty()
    } else {
        let rest = present(presence.drop_last(), workspace);
        if presence.last().0 == workspace {
            rest.push(presence.last().1)
        } else {
            rest
        }
    }
}

/// The workspaces in which an agent is present.
pub open spec fn places(presence: Seq<(Seq<u8>, Seq<char>)>, agent: Seq<char>) -> Seq<Seq<u8>>
    decreases presence.len(),
{
    if presence.len() == 0 {
        Seq::empty()
    } else {
        let rest = places(presence.drop_last(), agent);
        if presence.last().1 == agent {
            rest.push(presence.last().0)
        } else {
            rest
        }
    }
}

/// Rows of memories that involve an agent, or all of them.
pub open spec fn touching(agent: Option<Seq<char>>) -> spec_fn(
    ((Seq<char>, Seq<char>), ReputationScoreView),
) -> bool {
    |row: ((Seq<char>, Seq<char>), ReputationScoreView)|
        agent matches Some(did) ==> row.0.0 == did || row.0.1 == did
}

/// Rows of memories by the two agents.
pub open spec fn by_agents() -> spec_fn(
    ((Seq<char>, Seq<char>), ReputationScoreView),
) -> SortKey {
    |row: ((Seq<char>, Seq<char>), ReputationScoreView)|
        seq![KeyPartView::Text(row.0.0), KeyPartView::Text(row.0.1)]
}

/// The first evidence for a capability with a name.
pub open spec fn evidence_named(all: Seq<VerifiedCapabilityView>, name: Seq<char>) -> Option<
    VerifiedCapabilityView,
>
    decreases all.len(),
{
    if all.len() == 0 {
        None
    } else if all[0].name == name {
        Some(all[0])
    } else {
        evidence_named(all.skip(1), name)
    }
}

/// A claim with its standing.
pub open spec fn ownership_fact(c: WorkspaceOwnershipClaimView) -> WorkspaceOwnershipFactView {
    WorkspaceOwnershipFactView { claim: c, truth_status: ownership_status(c) }
}

/// Whether the anchor of a decision holds: it is well formed and about the
/// decision, and a quorum is one of the collective's members.
pub open spec fn decision_anchored(v: SocietyView, d: CollectiveDecisionView) -> bool {
    match d.anchor {
        None => false,
        Some(anchor) => {
            &&& anchor_valid(anchor) is Ok
            &&& locates(anchor.locator, d)
            &&& anchor.kind == AuthorityKind::CollectiveQuorum ==> (table::find(
                v.collectives,
                d.collective_id,
            ) matches Some(c) && quorum(anchor, c.members))
        },
    }
}

/// The standing of a decision.
pub open spec fn decision_status(v: SocietyView, d: CollectiveDecisionView) -> FactTruthStatus {
    if decision_anchored(v, d) {
        FactTruthStatus::Anchored
    } else {
        FactTruthStatus::Claimed
    }
}

/// Whether the anchor of a settlement holds: its checkpoint is about the
/// settlement, and a quorum is one of the members of the collective that its
/// locator names.
pub open spec fn settlement_anchored(v: SocietyView, s: SettlementRecordView) -> bool {
    match s.proof_of_payment {
        SettlementProofView::AnchoredCheckpoint(p) => {
            &&& anchored_valid(p) is Ok
            &&& is_about(p.checkpoint.subject, s)
            &&& p.anchor.kind == AuthorityKind::CollectiveQuorum ==> (collective_in(
                p.anchor.locator,
            ) matches Some(id) && table::find(v.collectives, id) matches Some(c) && quorum(
                p.anchor,
                c.members,
            ))
        },
        _ => false,
    }
}

/// A decision as a judgment.
pub open spec fn judgment(v: SocietyView, d: CollectiveDecisionView) -> TaskClaimJudgmentView {
    TaskClaimJudgmentView {
        collective_id: d.collective_id,
        proposal_id: d.proposal_id,
        decider: d.decider,
        outcome: d.outcome,
        task_id: d.task_id,
        claim_id: d.claim_id,
        target: d.target,
        truth_status: decision_status(v, d),
        reason: d.reason,
        timestamp: d.timestamp,
    }
}

/// Decisions as judgments.
pub open spec fn judgments(v: SocietyView, ds: Seq<CollectiveDecisionView>) -> Seq<
    TaskClaimJudgmentView,
> {
    Seq::new(ds.len(), |i: int| judgment(v, ds[i]))
}

/// A decision as a signal.
pub open spec fn signal(v: SocietyView, d: CollectiveDecisionView) -> GovernanceSignalView {
    GovernanceSignalView {
        collective_id: d.collective_id,
        proposal_id: d.proposal_id,
        decider: d.decider,
        outcome: d.outcome,
        task_id: d.task_id,
        claim_id: d.claim_id,
        truth_status: decision_status(v, d),
        reason: d.reason,
        timestamp: d.timestamp,
    }
}

/// The latest decisions on an agent as signals, at most so many.
pub open spec fn signals_for(v: SocietyView, target: Seq<char>, limit: usize) -> Seq<
    GovernanceSignalView,
> {
    let all = order::listed(v.collective_decisions, judges_agent(target), by_decision());
    let start = if all.len() > limit {
        all.len() - limit
    } else {
        0
    };
    Seq::new((all.len() - start) as nat, |i: int| signal(v, all[start + i]))
}

/// The workspaces that any fact mentions, in order of appearance.
pub open spec fn mentioned(v: SocietyView) -> Seq<Seq<u8>> {
    let here = joined_some(
        Seq::empty(),
        Seq::new(v.presence.len(), |i: int| Some(v.presence[i].0)),
    );
    let granted = joined_some(
        here,
        Seq::new(
            v.capability_grants.len(),
            |i: int| Some(v.capability_grants[i].1.capability.workspace),
        ),
    );
    let wanted = joined_some(
        granted,
        Seq::new(v.intents.len(), |i: int| v.intents[i].1.workspace),
    );
    let answered = joined_some(
        wanted,
        Seq::new(v.intent_responses.len(), |i: int| v.intent_responses[i].1.workspace),
    );
    let seen = joined_some(
        answered,
        Seq::new(
            v.workspace_snapshots.len(),
            |i: int| Some(v.workspace_snapshots[i].1.workspace),
        ),
    );
    joined_some(
        seen,
        Seq::new(v.workspace_runs.len(), |i: int| Some(v.workspace_runs[i].1.workspace)),
    )
}

/// Adds those of several members that there are.
pub open spec fn joined_some(members: Seq<Seq<u8>>, more: Seq<Option<Seq<u8>>>) -> Seq<Seq<u8>>
    decreases more.len(),
{
    if more.len() == 0 {
        members
    } else {
        let rest = joined_some(members, more.drop_last());
        match more.last() {
            Some(w) => table::joined(rest, w),
            None => rest,
        }
    }
}

fn join_some(members: &mut Group<WorkspaceId>, more: &Vec<Option<WorkspaceId>>)
    ensures
        final(members).members() == joined_some(old(members).members(), more.deep_view()),
{
    let ghost all = more.deep_view();
    let ghost before = members.members();
    let mut i: usize = 0;
    while i < more.len()
        invariant
            i <= more@.len(),
            all == more.deep_view(),
            members.members() == joined_some(before, all.subrange(0, i as int)),
        decreases more@.len() - i,
    {
        proof {
            let upto = all.subrange(0, i + 1);
            assert(upto.drop_last() =~= all.subrange(0, i as int));
            assert(upto.last() == more@[i as int].deep_view());
        }
        if let Some(w) = &more[i] {
            members.insert(w.twin());
        }
        i = i + 1;
    }
    assert(all.subrange(0, i as int) =~= all);
}

/// Whether one list of members extends another.
pub open spec fn extends(after: Seq<Seq<char>>, before: Seq<Seq<char>>) -> bool {
    forall|did: Seq<char>| #[trigger] before.contains(did) ==> after.contains(did)
}

proof fn lemma_joined_extends(members: Seq<Seq<char>>, did: Seq<char>)
    ensures
        extends(table::joined(members, did), members),
        table::joined(members, did).contains(did),
{
    let after = table::joined(members, did);
    if !members.contains(did) {
        assert(after.last() == did);
        assert forall|x: Seq<char>| #[trigger] members.contains(x) implies after.contains(x) by {
            let i = members.index_of(x);
            assert(after[i] == x);
        }
    }
}

proof fn lemma_joined_all_extends(members: Seq<Seq<char>>, more: Seq<Seq<char>>)
    ensures
        extends(table::joined_all(members, more), members),
    decreases more.len(),
{
    if more.len() > 0 {
        lemma_joined_all_extends(members, more.drop_last());
        lemma_joined_extends(table::joined_all(members, more.drop_last()), more.last());
    }
}

proof fn lemma_joined_twice_extends(members: Seq<Seq<char>>, a: Seq<char>, b: Seq<char>)
    ensures
        extends(table::joined(table::joined(members, a), b), members),
{
    lemma_joined_extends(members, a);
    lemma_joined_extends(table::joined(members, a), b);
}

proof fn lemma_effects_extend(v: SocietyView, effects: Seq<TaskMarketEffectView>)
    ensures
        extends(with_effects(v, effects).agents, v.agents),
    decreases effects.len(),
{
    if effects.len() > 0 {
        let front = effects.drop_last();
        lemma_effects_extend(v, front);
        let mid = with_effects(v, front);
        match effects.last() {
            TaskMarketEffectView::WorkspaceSnapshot(s) => {
                lemma_joined_extends(mid.agents, s.actor);
            },
            TaskMarketEffectView::Interaction(i) => {
                lemma_joined_twice_extends(mid.agents, i.from, i.to);
            },
        }
    }
}

/// An event makes its author known, and no event makes an agent unknown.
#[verifier::spinoff_prover]
#[verifier::rlimit(60)]
pub proof fn lemma_agents_stay_known(v: SocietyView, e: SocialEventView)
    ensures
        applied(v, e).agents.contains(e.author),
        extends(applied(v, e).agents, v.agents),
{
    let known = registered(v, e.author);
    lemma_joined_extends(v.agents, e.author);
    assert(known.agents.contains(e.author));
    assert(extends(applied(v, e).agents, known.agents)) by {
        match e.kind {
            SocialEventKindView::EquivocationObserved { evidence } => {
                lemma_joined_extends(known.agents, evidence.author);
            },
            SocialEventKindView::ManifestPublished { manifest } => {
                lemma_joined_extends(known.agents, manifest.did);
            },
            SocialEventKindView::IdentityRevoked { revocation } => {
                lemma_joined_extends(known.agents, revocation.did);
            },
            SocialEventKindView::IdentityRotated { rotation } => {
                lemma_joined_twice_extends(known.agents, rotation.previous, rotation.next);
            },
            SocialEventKindView::WorkspaceJoined { workspace } => {
                lemma_joined_extends(known.agents, e.author);
            },
            SocialEventKindView::WorkspaceOwnershipClaimed { claim } => {
                lemma_joined_extends(known.agents, claim.owner);
            },
            SocialEventKindView::WorkspaceOwnershipTransferred { claim } => {
                lemma_joined_extends(known.agents, claim.owner);
            },
            SocialEventKindView::RelationDeclared { peer, relation, note } => {
                lemma_joined_twice_extends(known.agents, e.author, peer);
            },
            SocialEventKindView::InteractionRecorded { interaction } => {
                lemma_joined_twice_extends(known.agents, interaction.from, interaction.to);
            },
            SocialEventKindView::CollectiveDeclared { collective_id, name, purpose, members } => {
                lemma_joined_all_extends(known.agents, members);
            },
            SocialEventKindView::CollectiveJoined { collective_id } => {
                lemma_joined_extends(known.agents, e.author);
            },
            SocialEventKindView::CollectiveWorkspaceAttached { collective_id, workspace } => {
                lemma_joined_extends(known.agents, e.author);
            },
            SocialEventKindView::CollectiveProposalPublished { proposal } => {
                lemma_joined_extends(known.agents, proposal.proposer);
            },
            SocialEventKindView::CollectiveVoteCast { vote } => {
                lemma_joined_extends(known.agents, vote.voter);
            },
            SocialEventKindView::CollectiveDecisionRecorded { decision } => {
                lemma_joined_extends(known.agents, decision.decider);
            },
            SocialEventKindView::CapabilityIssued { grant } => {
                lemma_joined_twice_extends(
                    known.agents,
                    grant.capability.issuer,
                    grant.capability.subject,
                );
            },
            SocialEventKindView::CapabilityRevoked { revocation } => {
                lemma_joined_extends(known.agents, revocation.issuer);
            },
            SocialEventKindView::WorkspaceSnapshotted { snapshot } => {
                lemma_joined_extends(known.agents, snapshot.actor);
            },
            SocialEventKindView::WorkspaceRunRecorded { run } => {
                lemma_joined_twice_extends(known.agents, run.actor, run.actor);
                lemma_joined_extends(known.agents, run.actor);
            },
            SocialEventKindView::IntentPublished { intent } => {
                lemma_joined_extends(known.agents, intent.author);
            },
            SocialEventKindView::IntentResponded { response } => {
                lemma_joined_extends(known.agents, response.responder);
            },
            SocialEventKindView::TaskPublished { task } => {
                let seen = registered(known, task.publisher);
                lemma_joined_extends(known.agents, task.publisher);
                let change = task_market::with_task(seen.market, task);
                lemma_effects_extend(SocietyView { market: change.0, ..seen }, change.1);
            },
            SocialEventKindView::TaskOffered { offer } => {
                let seen = registered(known, offer.bidder);
                lemma_joined_extends(known.agents, offer.bidder);
                let change = task_market::with_offer(seen.market, offer);
                lemma_effects_extend(SocietyView { market: change.0, ..seen }, change.1);
            },
            SocialEventKindView::TaskAccepted { acceptance } => {
                let seen = registered(
                    registered(known, acceptance.publisher),
                    acceptance.bidder,
                );
                lemma_joined_twice_extends(
                    known.agents,
                    acceptance.publisher,
                    acceptance.bidder,
                );
                let change = task_market::with_known_acceptance(seen.market, acceptance);
                lemma_effects_extend(SocietyView { market: change.0, ..seen }, change.1);
            },
            SocialEventKindView::TaskCancelled { cancellation } => {
                lemma_joined_extends(known.agents, cancellation.publisher);
            },
            SocialEventKindView::TaskCompleted { result } => {
                let seen = registered(known, result.executor);
                lemma_joined_extends(known.agents, result.executor);
                let change = task_market::with_claim(seen.market, result, e.timestamp);
                lemma_effects_extend(SocietyView { market: change.0, ..seen }, change.1);
            },
            SocialEventKindView::TaskExecutionAttested { attestation } => {
                lemma_joined_twice_extends(
                    known.agents,
                    attestation.executor,
                    attestation.attestor,
                );
            },
            SocialEventKindView::TaskDisputed { dispute } => {
                let seen = registered(registered(known, dispute.disputer), dispute.target);
                lemma_joined_twice_extends(known.agents, dispute.disputer, dispute.target);
                let change = task_market::with_dispute(seen.market, dispute);
                let noted = SocietyView { market: change.0, ..seen };
                if let Some(TaskMarketEffectView::Interaction(i)) = change.1 {
                    lemma_joined_twice_extends(noted.agents, i.from, i.to);
                }
            },
            SocialEventKindView::SettlementRecorded { settlement } => {
                lemma_joined_twice_extends(known.agents, settlement.payer, settlement.payee);
            },
            _ => {},
        }
    }
}

/// Whether an event can change what agents remember of each other.
pub open spec fn can_change_memory(kind: SocialEventKindView) -> bool {
    ||| kind is InteractionRecorded
    ||| kind is TaskPublished
    ||| kind is TaskOffered
    ||| kind is TaskAccepted
    ||| kind is TaskCompleted
    ||| kind is TaskDisputed
}

/// Reputation comes from interactions and tasks alone: no other event, a
/// settlement among them, changes what agents remember of each other.
#[verifier::spinoff_prover]
#[verifier::rlimit(40)]
pub proof fn lemma_only_interactions_make_reputation(v: SocietyView, e: SocialEventView)
    requires
        !can_change_memory(e.kind),
    ensures
        applied(v, e).reputations == v.reputations,
        applied(v, e).interactions == v.interactions,
{
}

/// An interaction adds one outcome to what one agent remembers of another, and
/// changes no other memory.
pub proof fn lemma_interaction_is_remembered_once(
    v: SocietyView,
    i: InteractionView,
    from: Seq<char>,
    to: Seq<char>,
)
    requires
        table::distinct(v.reputations),
    ensures
        ({
            let after = with_interaction(v, i);
            let before = match table::find(v.reputations, (i.from, i.to)) {
                Some(memory) => memory,
                None => new_reputation(i.to, i.timestamp),
            };
            &&& table::find(after.reputations, (i.from, i.to)) matches Some(memory)
                && memory.history == before.history.push(i.outcome) && memory.judged
                == before.judged.push(i.outcome) && memory.last_seen == i.timestamp
            &&& (from, to) != (i.from, i.to) ==> table::find(after.reputations, (from, to))
                == table::find(v.reputations, (from, to))
        }),
{
    let memory = match table::find(v.reputations, (i.from, i.to)) {
        Some(memory) => memory,
        None => new_reputation(i.to, i.timestamp),
    };
    table::lemma_put_find(
        v.reputations,
        (i.from, i.to),
        reputation_after(memory, i.outcome, i.timestamp),
        (from, to),
    );
}

/// A workspace changes hands only by its owner: a claim of someone else on an
/// owned workspace is not adopted, nor is a transfer that its owner did not
/// sign.
pub proof fn lemma_ownership_is_held(
    v: SocietyView,
    owner: Seq<char>,
    claim: WorkspaceOwnershipClaimView,
    signer: Seq<char>,
)
    requires
        owner_of(v, claim.workspace) == Some(owner),
    ensures
        claim.owner != owner ==> !claim_stands(v, claim),
        signer != owner ==> !transfer_stands(v, signer, claim),
{
}

/// An adopted claim makes its owner the owner, and changes the owner of no other
/// workspace that has one.
pub proof fn lemma_adoption_makes_owner(
    v: SocietyView,
    claim: WorkspaceOwnershipClaimView,
    other: Seq<u8>,
)
    requires
        table::distinct(v.workspace_current_owners),
    ensures
        owner_of(with_owner(v, claim), claim.workspace) == Some(claim.owner),
        other != claim.workspace && table::holds(v.workspace_current_owners, other) ==> owner_of(
            with_owner(v, claim),
            other,
        ) == owner_of(v, other),
{
    table::lemma_put_find(
        v.workspace_current_owners,
        claim.workspace,
        claim.owner,
        other,
    );
}

/// A grant is revoked by its issuer alone.
pub proof fn lemma_revocation_is_the_issuers(v: SocietyView, r: CapabilityRevocationView)
    requires
        with_grant_revoked(v, r).capability_revocations != v.capability_revocations,
    ensures
        granted(v, r.issuer, r.capability_signature_id),
{
}

/// What is revoked stays revoked, whatever comes later.
#[verifier::spinoff_prover]
#[verifier::rlimit(60)]
pub proof fn lemma_revoked_identity_stays_revoked(v: SocietyView, e: SocialEventView, did: Seq<char>)
    requires
        table::holds(v.identity_revocations, did),
    ensures
        table::holds(applied(v, e).identity_revocations, did),
{
    let rows = v.identity_revocations;
    let p = table::place(rows, did);
    assert(rows[p].0 == did);
    if let SocialEventKindView::IdentityRevoked { revocation } = e.kind {
        let after = table::put_new(rows, revocation.did, revocation);
        assert(after[p] == rows[p]);
    } else {
        assert(keeps_revocations(v, e)) by {
            lemma_keeps_revocations(v, e);
        }
        assert(applied(v, e).identity_revocations == rows);
    }
}

/// Whether a task event leaves the revoked identities alone.
pub open spec fn keeps_revocations(v: SocietyView, e: SocialEventView) -> bool {
    !(e.kind is IdentityRevoked) ==> applied(v, e).identity_revocations == v.identity_revocations
}

proof fn lemma_effects_keep_revocations(v: SocietyView, effects: Seq<TaskMarketEffectView>)
    ensures
        with_effects(v, effects).identity_revocations == v.identity_revocations,
    decreases effects.len(),
{
    if effects.len() > 0 {
        lemma_effects_keep_revocations(v, effects.drop_last());
    }
}

#[verifier::spinoff_prover]
#[verifier::rlimit(60)]
proof fn lemma_keeps_revocations(v: SocietyView, e: SocialEventView)
    ensures
        keeps_revocations(v, e),
{
    let known = registered(v, e.author);
    match e.kind {
        SocialEventKindView::TaskPublished { task } => {
            let seen = registered(known, task.publisher);
            let change = task_market::with_task(seen.market, task);
            lemma_effects_keep_revocations(SocietyView { market: change.0, ..seen }, change.1);
        },
        SocialEventKindView::TaskOffered { offer } => {
            let seen = registered(known, offer.bidder);
            let change = task_market::with_offer(seen.market, offer);
            lemma_effects_keep_revocations(SocietyView { market: change.0, ..seen }, change.1);
        },
        SocialEventKindView::TaskAccepted { acceptance } => {
            let seen = registered(registered(known, acceptance.publisher), acceptance.bidder);
            let change = task_market::with_known_acceptance(seen.market, acceptance);
            lemma_effects_keep_revocations(SocietyView { market: change.0, ..seen }, change.1);
        },
        SocialEventKindView::TaskCompleted { result } => {
            let seen = registered(known, result.executor);
            let change = task_market::with_claim(seen.market, result, e.timestamp);
            lemma_effects_keep_revocations(SocietyView { market: change.0, ..seen }, change.1);
        },
        _ => {},
    }
}

} // verus!
