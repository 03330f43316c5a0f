//! What an event does to the society: which fact it makes known, which earlier
//! fact it replaces, and what it leaves alone.
use crate::anchor::{collective_in, is_about, locates, quorum};
use crate::facts::{
    settlement_valid, CapabilityGrantView, CollectiveDecisionView, FactTruthStatus,
    IdentityRevocationView, InteractionOutcome, InteractionView, RelationKind, SettlementRecordView,
    SocialEdgeView, WorkspaceOwnershipClaimView, WorkspaceRunView, WorkspaceSnapshotView,
};
use crate::manifest::AgentManifestView;
use crate::order;
use crate::protocol::{
    equivocates, evidence_key, EquivocationProofView, SocialEventKindView, SocialEventView,
};
use crate::settlement::{anchor_valid, anchored_valid, AuthorityKind, SettlementProofView};
use crate::society::{
    applied, by_decision, by_ownership, claims_workspace, decision_status, forked, grant_key,
    granted, judges_agent, owner_of, ownership_key, ownership_status, present, proposal_key,
    run_key, run_snapshot, settlement_anchored, signal, signals_for, snapshot_key, with_collective,
    with_effects, with_interaction, with_relation, with_snapshot, SocietyView,
};
use crate::table;
use crate::task_market::{self, TaskMarketEffectView};
use crate::text;
use vstd::prelude::*;
use vstd::string::*;

verus! {

/// After an event its author is known.
#[verifier::spinoff_prover]
#[verifier::rlimit(40)]
pub proof fn lemma_author_is_known(v: SocietyView, e: SocialEventView)
    ensures
        applied(v, e).agents.contains(e.author),
{
    crate::society::lemma_agents_stay_known(crate::society::registered(v, e.author), e);
    table::lemma_joined_contains(v.agents, e.author, e.author);
    let known = crate::society::registered(v, e.author);
    assert(table::joined(known.agents, e.author) == known.agents);
    assert(crate::society::registered(known, e.author) == known);
}

/// The last manifest of an agent stands, and those of others stay.
pub proof fn lemma_last_manifest_stands(
    v: SocietyView,
    e: SocialEventView,
    m: AgentManifestView,
    other: Seq<char>,
)
    requires
        table::distinct(v.manifests),
        e.kind == (SocialEventKindView::ManifestPublished { manifest: m }),
    ensures
        table::find(applied(v, e).manifests, m.did) == Some(m),
        other != m.did ==> table::find(applied(v, e).manifests, other) == table::find(
            v.manifests,
            other,
        ),
{
    table::lemma_put_find(v.manifests, m.did, m, other);
}

/// The first revocation of an identity stands.
pub proof fn lemma_first_revocation_stands(
    v: SocietyView,
    e: SocialEventView,
    r: IdentityRevocationView,
)
    requires
        table::distinct(v.identity_revocations),
        e.kind == (SocialEventKindView::IdentityRevoked { revocation: r }),
    ensures
        table::find(applied(v, e).identity_revocations, r.did) == match table::find(
            v.identity_revocations,
            r.did,
        ) {
            Some(known) => Some(known),
            None => Some(r),
        },
{
    table::lemma_put_new_find(v.identity_revocations, r.did, r, r.did);
}

/// Who joins a workspace is present in it, and nobody else anywhere becomes so.
pub proof fn lemma_joining_is_presence(
    v: SocietyView,
    e: SocialEventView,
    workspace: Seq<u8>,
    place: Seq<u8>,
    agent: Seq<char>,
)
    requires
        e.kind == (SocialEventKindView::WorkspaceJoined { workspace }),
    ensures
        applied(v, e).presence.contains((place, agent)) <==> v.presence.contains((place, agent))
            || (place == workspace && agent == e.author),
{
    table::lemma_joined_contains(v.presence, (workspace, e.author), (place, agent));
}

/// A declared relation has the declared kind from then on, and the note, where
/// there is one, behind those made before. What happened between the two stays,
/// and so does every other relation, the one in the other direction included.
pub proof fn lemma_declared_relation_holds(
    v: SocietyView,
    e: SocialEventView,
    peer: Seq<char>,
    relation: RelationKind,
    note: Option<Seq<char>>,
    from: Seq<char>,
    to: Seq<char>,
)
    requires
        table::distinct(v.edges),
        e.kind == (SocialEventKindView::RelationDeclared { peer, relation, note }),
    ensures
        table::find(applied(v, e).edges, (e.author, peer)) matches Some(edge) && {
            let before = table::find(v.edges, (e.author, peer));
            let notes = match before {
                Some(known) => known.notes,
                None => Seq::empty(),
            };
            &&& edge.kind == relation
            &&& edge.updated_at == e.timestamp
            &&& edge.notes == match note {
                Some(text) => notes.push(text),
                None => notes,
            }
            &&& before matches Some(known) ==> edge.history == known.history && edge.created_at
                == known.created_at && edge.from == known.from && edge.to == known.to
            &&& before is None ==> edge.history.len() == 0 && edge.created_at == e.timestamp
                && edge.from == e.author && edge.to == peer
        },
        (from, to) != (e.author, peer) ==> table::find(applied(v, e).edges, (from, to))
            == table::find(v.edges, (from, to)),
{
    let known = crate::society::registered(v, e.author);
    let pair = (e.author, peer);
    let related = with_relation(known, e.author, peer, relation, e.timestamp);
    let edge = match table::find(v.edges, pair) {
        Some(edge) => SocialEdgeView { kind: relation, updated_at: e.timestamp, ..edge },
        None => crate::facts::new_edge(e.author, peer, relation, e.timestamp),
    };
    table::lemma_put_find(v.edges, pair, edge, (from, to));
    if let Some(text) = note {
        table::lemma_put_find(
            related.edges,
            pair,
            SocialEdgeView { notes: edge.notes.push(text), ..edge },
            (from, to),
        );
    }
}

/// An interaction adds its outcome to the relation of one agent to the other, as
/// an acquaintance where there was none, and touches no other relation.
pub proof fn lemma_interaction_marks_relation(
    v: SocietyView,
    i: InteractionView,
    from: Seq<char>,
    to: Seq<char>,
)
    requires
        table::distinct(v.edges),
    ensures
        table::find(with_interaction(v, i).edges, (i.from, i.to)) matches Some(edge) && {
            let before = table::find(v.edges, (i.from, i.to));
            &&& edge.updated_at == i.timestamp
            &&& before matches Some(known) ==> edge.history == known.history.push(i.outcome)
                && edge.kind == known.kind && edge.notes == known.notes && edge.created_at
                == known.created_at
            &&& before is None ==> edge.history == seq![i.outcome] && edge.kind
                == RelationKind::Acquaintance && edge.from == i.from && edge.to == i.to
                && edge.created_at == i.timestamp
        },
        (from, to) != (i.from, i.to) ==> table::find(with_interaction(v, i).edges, (from, to))
            == table::find(v.edges, (from, to)),
        with_interaction(v, i).interactions == v.interactions.push(i),
{
    let pair = (i.from, i.to);
    let edge = match table::find(v.edges, pair) {
        Some(edge) => edge,
        None => crate::facts::new_edge(i.from, i.to, RelationKind::Acquaintance, i.timestamp),
    };
    table::lemma_put_find(
        v.edges,
        pair,
        crate::facts::edge_after(edge, i.outcome, i.timestamp),
        (from, to),
    );
    assert(Seq::<InteractionOutcome>::empty().push(i.outcome) =~= seq![i.outcome]);
}

proof fn lemma_joined_all_contains<K>(members: Seq<K>, more: Seq<K>, other: K)
    ensures
        table::joined_all(members, more).contains(other) <==> members.contains(other)
            || more.contains(other),
    decreases more.len(),
{
    if more.len() > 0 {
        let front = more.drop_last();
        lemma_joined_all_contains(members, front, other);
        table::lemma_joined_contains(table::joined_all(members, front), more.last(), other);
        if front.contains(other) {
            assert(more[front.index_of(other)] == other);
        }
        if more.contains(other) && !front.contains(other) {
            let i = more.index_of(other);
            if i < front.len() {
                assert(front[i] == other);
            }
        }
        assert(more[more.len() - 1] == more.last());
    }
}

/// Declaring a collective gives it name and purpose and adds members; nobody
/// leaves it by that, and its workspaces stay.
pub proof fn lemma_declared_collective_grows(
    v: SocietyView,
    e: SocialEventView,
    id: Seq<char>,
    name: Seq<char>,
    purpose: Seq<char>,
    members: Seq<Seq<char>>,
    someone: Seq<char>,
)
    requires
        table::distinct(v.collectives),
        e.kind == (SocialEventKindView::CollectiveDeclared {
            collective_id: id,
            name,
            purpose,
            members,
        }),
    ensures
        table::find(applied(v, e).collectives, id) matches Some(c) && {
            let before = table::find(v.collectives, id);
            &&& c.name == name
            &&& c.purpose == purpose
            &&& c.members.contains(someone) <==> members.contains(someone) || (
            before matches Some(known) && known.members.contains(someone))
            &&& before matches Some(known) ==> c.workspaces == known.workspaces && c.id == known.id
                && (known.created_at != 0 ==> c.created_at == known.created_at)
            &&& before is None || before->Some_0.created_at == 0 ==> c.created_at == e.timestamp
            &&& before is None ==> c.workspaces.len() == 0 && c.id == id
        },
        members.contains(someone) ==> applied(v, e).agents.contains(someone),
{
    let known = crate::society::registered(v, e.author);
    let before = match table::find(v.collectives, id) {
        Some(c) => c.members,
        None => Seq::empty(),
    };
    lemma_joined_all_contains(before, members, someone);
    lemma_joined_all_contains(known.agents, members, someone);
    let after = applied(v, e).collectives;
    let c = match table::find(v.collectives, id) {
        Some(c) => crate::facts::CollectiveView {
            name,
            purpose,
            members: table::joined_all(c.members, members),
            created_at: if c.created_at == 0 {
                e.timestamp
            } else {
                c.created_at
            },
            ..c
        },
        None => crate::facts::CollectiveView {
            id,
            name,
            purpose,
            members: table::joined_all(Seq::empty(), members),
            workspaces: Seq::empty(),
            created_at: e.timestamp,
        },
    };
    table::lemma_put_find(v.collectives, id, c, id);
}

/// Who joins a collective is a member, beside those who were, and no other
/// collective changes.
pub proof fn lemma_joining_makes_member(
    v: SocietyView,
    e: SocialEventView,
    id: Seq<char>,
    someone: Seq<char>,
    other: Seq<char>,
)
    requires
        table::distinct(v.collectives),
        e.kind == (SocialEventKindView::CollectiveJoined { collective_id: id }),
    ensures
        table::find(applied(v, e).collectives, id) matches Some(c) && {
            let before = table::find(v.collectives, id);
            &&& c.members.contains(someone) <==> someone == e.author || (
            before matches Some(known) && known.members.contains(someone))
            &&& before matches Some(known) ==> c.name == known.name && c.purpose == known.purpose
                && c.workspaces == known.workspaces && c.created_at == known.created_at
        },
        other != id ==> table::find(applied(v, e).collectives, other) == table::find(
            v.collectives,
            other,
        ),
{
    let c = match table::find(v.collectives, id) {
        Some(c) => c,
        None => crate::society::bare_collective(id, e.timestamp),
    };
    table::lemma_joined_contains(c.members, e.author, someone);
    table::lemma_put_find(
        v.collectives,
        id,
        crate::facts::CollectiveView { members: table::joined(c.members, e.author), ..c },
        other,
    );
}

/// The first proposal of a key stands, the last vote of a voter, and the last
/// decision on a proposal.
pub proof fn lemma_which_word_stands(
    v: SocietyView,
    e: SocialEventView,
    voter: Seq<char>,
)
    requires
        table::distinct(v.collective_proposals),
        table::distinct(v.collective_votes),
        table::distinct(v.collective_decisions),
    ensures
        e.kind matches SocialEventKindView::CollectiveProposalPublished { proposal: p }
            ==> table::find(
            applied(v, e).collective_proposals,
            proposal_key(p.collective_id, p.id),
        ) == match table::find(v.collective_proposals, proposal_key(p.collective_id, p.id)) {
            Some(known) => Some(known),
            None => Some(p),
        },
        e.kind matches SocialEventKindView::CollectiveVoteCast { vote: b } ==> table::find(
            applied(v, e).collective_votes,
            (proposal_key(b.collective_id, b.proposal_id), b.voter),
        ) == Some(b),
        e.kind matches SocialEventKindView::CollectiveVoteCast { vote: b } ==> voter != b.voter
            ==> table::find(
            applied(v, e).collective_votes,
            (proposal_key(b.collective_id, b.proposal_id), voter),
        ) == table::find(
            v.collective_votes,
            (proposal_key(b.collective_id, b.proposal_id), voter),
        ),
        e.kind matches SocialEventKindView::CollectiveDecisionRecorded { decision: d }
            ==> table::find(
            applied(v, e).collective_decisions,
            proposal_key(d.collective_id, d.proposal_id),
        ) == Some(d),
{
    match e.kind {
        SocialEventKindView::CollectiveProposalPublished { proposal: p } => {
            let key = proposal_key(p.collective_id, p.id);
            table::lemma_put_new_find(v.collective_proposals, key, p, key);
        },
        SocialEventKindView::CollectiveVoteCast { vote: b } => {
            let key = proposal_key(b.collective_id, b.proposal_id);
            table::lemma_put_find(v.collective_votes, (key, b.voter), b, (key, voter));
        },
        SocialEventKindView::CollectiveDecisionRecorded { decision: d } => {
            let key = proposal_key(d.collective_id, d.proposal_id);
            table::lemma_put_find(v.collective_decisions, key, d, key);
        },
        _ => {},
    }
}

/// The first intent, the first response and the first grant of a name stand.
pub proof fn lemma_first_word_stands(v: SocietyView, e: SocialEventView)
    requires
        table::distinct(v.intents),
        table::distinct(v.intent_responses),
        table::distinct(v.capability_grants),
    ensures
        e.kind matches SocialEventKindView::IntentPublished { intent: i } ==> table::find(
            applied(v, e).intents,
            i.id,
        ) == match table::find(v.intents, i.id) {
            Some(known) => Some(known),
            None => Some(i),
        },
        e.kind matches SocialEventKindView::IntentResponded { response: r } ==> table::find(
            applied(v, e).intent_responses,
            r.id,
        ) == match table::find(v.intent_responses, r.id) {
            Some(known) => Some(known),
            None => Some(r),
        },
        e.kind matches SocialEventKindView::CapabilityIssued { grant: g } ==> table::find(
            applied(v, e).capability_grants,
            grant_key(g),
        ) == match table::find(v.capability_grants, grant_key(g)) {
            Some(known) => Some(known),
            None => Some(g),
        },
{
    match e.kind {
        SocialEventKindView::IntentPublished { intent: i } => {
            table::lemma_put_new_find(v.intents, i.id, i, i.id);
        },
        SocialEventKindView::IntentResponded { response: r } => {
            table::lemma_put_new_find(v.intent_responses, r.id, r, r.id);
        },
        SocialEventKindView::CapabilityIssued { grant: g } => {
            table::lemma_put_new_find(v.capability_grants, grant_key(g), g, grant_key(g));
        },
        _ => {},
    }
}

/// A grant is revoked by a revocation of its issuer, whoever tells of it, and by
/// no other.
pub proof fn lemma_issuer_revokes(
    v: SocietyView,
    e: SocialEventView,
    r: crate::facts::CapabilityRevocationView,
)
    requires
        table::distinct(v.capability_revocations),
        e.kind == (SocialEventKindView::CapabilityRevoked { revocation: r }),
    ensures
        ({
            let before = v.capability_revocations;
            let after = applied(v, e).capability_revocations;
            let issued = exists|g: CapabilityGrantView| #[trigger]
                table::values(v.capability_grants).contains(g) && g.capability.issuer == r.issuer
                    && crate::society::signature_id(g) == r.capability_signature_id;
            &&& issued && table::find(before, r.capability_signature_id) is None ==> table::find(
                after,
                r.capability_signature_id,
            ) == Some(r)
            &&& !issued || table::find(before, r.capability_signature_id) is Some ==> after
                == before
        }),
{
    let all = table::values(v.capability_grants);
    if granted(v, r.issuer, r.capability_signature_id) {
        let i = choose|i: int|
            0 <= i < v.capability_grants.len() && (
            #[trigger] v.capability_grants[i]).1.capability.issuer == r.issuer
                && crate::society::signature_id(v.capability_grants[i].1)
                == r.capability_signature_id;
        assert(all[i] == v.capability_grants[i].1);
        assert(all.contains(all[i]));
    }
    if exists|g: CapabilityGrantView| #[trigger]
        all.contains(g) && g.capability.issuer == r.issuer && crate::society::signature_id(g)
            == r.capability_signature_id {
        let g = choose|g: CapabilityGrantView| #[trigger]
            all.contains(g) && g.capability.issuer == r.issuer && crate::society::signature_id(g)
                == r.capability_signature_id;
        let i = all.index_of(g);
        assert(v.capability_grants[i].1 == g);
    }
    table::lemma_put_new_find(
        v.capability_revocations,
        r.capability_signature_id,
        r,
        r.capability_signature_id,
    );
}

/// A snapshot is known from then on. One that was seen takes the place of one
/// that was derived from a run or a result, and is never displaced.
pub proof fn lemma_seen_snapshot_stands(v: SocietyView, s: WorkspaceSnapshotView)
    requires
        table::distinct(v.workspace_snapshots),
    ensures
        ({
            let before = table::find(v.workspace_snapshots, snapshot_key(s));
            let after = table::find(with_snapshot(v, s).workspace_snapshots, snapshot_key(s));
            let made = s.label == Some("workspace-run"@) || s.label == Some("task-result"@);
            &&& before is None ==> after == Some(s)
            &&& before matches Some(known) ==> {
                let old_made = known.label == Some("workspace-run"@) || known.label == Some(
                    "task-result"@,
                );
                &&& old_made && !made ==> after == Some(s)
                &&& !old_made || made ==> after == before
            }
        }),
{
    table::lemma_put_find(v.workspace_snapshots, snapshot_key(s), s, snapshot_key(s));
}

/// A run is known from then on, and its output, where it has one, is a snapshot
/// of the workspace by the same agent at the end of the run.
pub proof fn lemma_run_leaves_snapshot(
    v: SocietyView,
    e: SocialEventView,
    r: WorkspaceRunView,
)
    requires
        table::distinct(v.workspace_runs),
        table::distinct(v.workspace_snapshots),
        e.kind == (SocialEventKindView::WorkspaceRunRecorded { run: r }),
    ensures
        table::holds(applied(v, e).workspace_runs, run_key(r)),
        table::find(v.workspace_runs, run_key(r)) is None ==> table::find(
            applied(v, e).workspace_runs,
            run_key(r),
        ) == Some(r),
        table::find(v.workspace_runs, run_key(r)) is Some ==> applied(v, e).workspace_runs
            == v.workspace_runs && applied(v, e).workspace_snapshots == v.workspace_snapshots,
        r.output_root is None ==> applied(v, e).workspace_snapshots == v.workspace_snapshots,
        table::find(v.workspace_runs, run_key(r)) is None ==> (r.output_root matches Some(root)
            ==> exists|s: WorkspaceSnapshotView|
            s.workspace == r.workspace && s.actor == r.actor && s.root == root && s.timestamp
                == r.finished_at && table::holds(
                applied(v, e).workspace_snapshots,
                #[trigger] snapshot_key(s),
            )),
{
    table::lemma_put_find(v.workspace_runs, run_key(r), r, run_key(r));
    if !table::holds(v.workspace_runs, run_key(r)) {
        if let Some(s) = crate::society::run_snapshot(r) {
            table::lemma_put_holds(v.workspace_snapshots, snapshot_key(s), s, snapshot_key(s));
            assert(table::holds(applied(v, e).workspace_snapshots, snapshot_key(s)));
        }
    }
}

/// A settlement is known from then on exactly when its proof holds; the first of
/// an identifier stands.
pub proof fn lemma_proved_settlement_stands(
    v: SocietyView,
    e: SocialEventView,
    s: SettlementRecordView,
)
    requires
        table::distinct(v.settlements),
        e.kind == (SocialEventKindView::SettlementRecorded { settlement: s }),
    ensures
        settlement_valid(s) is Err ==> applied(v, e).settlements == v.settlements,
        settlement_valid(s) is Ok ==> table::find(applied(v, e).settlements, s.id) == match table::find(
            v.settlements,
            s.id,
        ) {
            Some(known) => Some(known),
            None => Some(s),
        },
{
    table::lemma_put_new_find(v.settlements, s.id, s, s.id);
}

/// Evidence that holds, and no other, shows that its author forked a chain;
/// nobody else's standing changes.
#[verifier::spinoff_prover]
#[verifier::rlimit(40)]
pub proof fn lemma_evidence_convicts_author(
    v: SocietyView,
    e: SocialEventView,
    evidence: EquivocationProofView,
    someone: Seq<char>,
)
    requires
        e.kind == (SocialEventKindView::EquivocationObserved { evidence: Box::new(evidence) }),
    ensures
        forked(applied(v, e), someone) <==> forked(v, someone) || (equivocates(evidence) is Ok
            && someone == evidence.author),
{
    let before = v.equivocations;
    let after = applied(v, e).equivocations;
    let key = (evidence.author, evidence_key(evidence));
    if equivocates(evidence) is Ok {
        assert(after == table::put_new(before, key, evidence));
        if table::holds(before, key) {
            let i = choose|i: int| 0 <= i < before.len() && (#[trigger] before[i]).0 == key;
            assert(before[i].0.0 == evidence.author);
        } else {
            assert(after[before.len() as int].0.0 == evidence.author);
            if forked(v, someone) {
                let i = choose|i: int|
                    0 <= i < before.len() && (#[trigger] before[i]).0.0 == someone;
                assert(after[i].0.0 == someone);
            }
            if forked(applied(v, e), someone) {
                let i = choose|i: int|
                    0 <= i < after.len() && (#[trigger] after[i]).0.0 == someone;
                if i < before.len() {
                    assert(before[i].0.0 == someone);
                }
            }
        }
    }
}

proof fn lemma_effects_touch_little(v: SocietyView, effects: Seq<TaskMarketEffectView>)
    ensures
        ({
            let w = with_effects(v, effects);
            untouched(v, w) && w.market == v.market
        }),
    decreases effects.len(),
{
    if effects.len() > 0 {
        lemma_effects_touch_little(v, effects.drop_last());
    }
}

/// Whether two societies agree in all but agents, tasks, snapshots, relations and
/// interactions.
pub open spec fn untouched(v: SocietyView, w: SocietyView) -> bool {
    &&& w.manifests == v.manifests
    &&& w.identity_revocations == v.identity_revocations
    &&& w.succession == v.succession
    &&& w.collectives == v.collectives
    &&& w.collective_proposals == v.collective_proposals
    &&& w.collective_votes == v.collective_votes
    &&& w.collective_decisions == v.collective_decisions
    &&& w.presence == v.presence
    &&& w.capability_grants == v.capability_grants
    &&& w.capability_revocations == v.capability_revocations
    &&& w.workspace_ownership_claims == v.workspace_ownership_claims
    &&& w.workspace_current_owners == v.workspace_current_owners
    &&& w.workspace_runs == v.workspace_runs
    &&& w.intents == v.intents
    &&& w.intent_responses == v.intent_responses
    &&& w.settlements == v.settlements
    &&& w.equivocations == v.equivocations
}

/// Whether an event is about tasks.
pub open spec fn about_tasks(kind: SocialEventKindView) -> bool {
    ||| kind is TaskPublished
    ||| kind is TaskOffered
    ||| kind is TaskAccepted
    ||| kind is TaskCancelled
    ||| kind is TaskCompleted
    ||| kind is TaskExecutionAttested
    ||| kind is TaskDisputed
}

/// Events about tasks touch tasks, agents, snapshots, relations and interactions
/// alone.
#[verifier::spinoff_prover]
#[verifier::rlimit(40)]
pub proof fn lemma_task_events_touch_little(v: SocietyView, e: SocialEventView)
    requires
        about_tasks(e.kind),
    ensures
        untouched(v, applied(v, e)),
{
    let known = crate::society::registered(v, e.author);
    match e.kind {
        SocialEventKindView::TaskPublished { task } => {
            let seen = crate::society::registered(known, task.publisher);
            let change = task_market::with_task(seen.market, task);
            lemma_effects_touch_little(SocietyView { market: change.0, ..seen }, change.1);
        },
        SocialEventKindView::TaskOffered { offer } => {
            let seen = crate::society::registered(known, offer.bidder);
            let change = task_market::with_offer(seen.market, offer);
            lemma_effects_touch_little(SocietyView { market: change.0, ..seen }, change.1);
        },
        SocialEventKindView::TaskAccepted { acceptance } => {
            let seen = crate::society::registered(
                crate::society::registered(known, acceptance.publisher),
                acceptance.bidder,
            );
            let change = task_market::with_known_acceptance(seen.market, acceptance);
            lemma_effects_touch_little(SocietyView { market: change.0, ..seen }, change.1);
        },
        SocialEventKindView::TaskCompleted { result } => {
            let seen = crate::society::registered(known, result.executor);
            let change = task_market::with_claim(seen.market, result, e.timestamp);
            lemma_effects_touch_little(SocietyView { market: change.0, ..seen }, change.1);
        },
        _ => {},
    }
}

/// Every fact is made by events of its own kind: no other event changes it.
#[verifier::spinoff_prover]
#[verifier::rlimit(40)]
pub proof fn lemma_events_touch_their_own(v: SocietyView, e: SocialEventView)
    ensures
        ({
            let w = applied(v, e);
            let kind = e.kind;
            &&& !(kind is ManifestPublished) ==> w.manifests == v.manifests
            &&& !(kind is IdentityRevoked) ==> w.identity_revocations == v.identity_revocations
            &&& !(kind is IdentityRotated || kind is IdentityRecoveryPolicy
                || kind is IdentityRecoveryApproved) ==> w.succession == v.succession
            &&& !(kind is WorkspaceJoined) ==> w.presence == v.presence
            &&& !(kind is WorkspaceOwnershipClaimed || kind is WorkspaceOwnershipTransferred)
                ==> w.workspace_ownership_claims == v.workspace_ownership_claims
                && w.workspace_current_owners == v.workspace_current_owners
            &&& !(kind is CollectiveProposalPublished) ==> w.collective_proposals
                == v.collective_proposals
            &&& !(kind is CollectiveVoteCast) ==> w.collective_votes == v.collective_votes
            &&& !(kind is CollectiveDecisionRecorded) ==> w.collective_decisions
                == v.collective_decisions
            &&& !(kind is CapabilityIssued) ==> w.capability_grants == v.capability_grants
            &&& !(kind is CapabilityRevoked) ==> w.capability_revocations
                == v.capability_revocations
            &&& !(kind is WorkspaceRunRecorded) ==> w.workspace_runs == v.workspace_runs
            &&& !(kind is IntentPublished) ==> w.intents == v.intents
            &&& !(kind is IntentResponded) ==> w.intent_responses == v.intent_responses
            &&& !(kind is SettlementRecorded) ==> w.settlements == v.settlements
            &&& !(kind is EquivocationObserved) ==> w.equivocations == v.equivocations
            &&& !about_tasks(kind) ==> w.market == v.market
            &&& !about_tasks(kind) && !(kind is RelationDeclared || kind is InteractionRecorded)
                ==> w.edges == v.edges
        }),
{
    if about_tasks(e.kind) {
        lemma_task_events_touch_little(v, e);
    }
}

/// A claim on a workspace makes its claimant the owner where nobody else owns it
/// and it names no previous owner; otherwise it changes nothing but who is known.
pub proof fn lemma_free_workspace_is_claimed(
    v: SocietyView,
    e: SocialEventView,
    claim: WorkspaceOwnershipClaimView,
)
    requires
        table::distinct(v.workspace_current_owners),
        e.kind == (SocialEventKindView::WorkspaceOwnershipClaimed { claim }),
    ensures
        ({
            let free = claim.previous_owner is None && (owner_of(v, claim.workspace) is None
                || owner_of(v, claim.workspace) == Some(claim.owner));
            &&& free ==> owner_of(applied(v, e), claim.workspace) == Some(claim.owner)
            &&& !free ==> applied(v, e).workspace_current_owners == v.workspace_current_owners
                && applied(v, e).workspace_ownership_claims == v.workspace_ownership_claims
        }),
{
    table::lemma_put_find(
        v.workspace_current_owners,
        claim.workspace,
        claim.owner,
        claim.workspace,
    );
}

/// A transfer that the owner of a workspace signed and that names it as the
/// previous owner makes the new one the owner; any other changes nothing but who
/// is known.
pub proof fn lemma_owner_hands_over(
    v: SocietyView,
    e: SocialEventView,
    claim: WorkspaceOwnershipClaimView,
)
    requires
        table::distinct(v.workspace_current_owners),
        e.kind == (SocialEventKindView::WorkspaceOwnershipTransferred { claim }),
    ensures
        ({
            let own = claim.previous_owner == Some(e.author) && owner_of(v, claim.workspace)
                == Some(e.author);
            &&& own ==> owner_of(applied(v, e), claim.workspace) == Some(claim.owner)
            &&& !own ==> applied(v, e).workspace_current_owners == v.workspace_current_owners
                && applied(v, e).workspace_ownership_claims == v.workspace_ownership_claims
        }),
{
    table::lemma_put_find(
        v.workspace_current_owners,
        claim.workspace,
        claim.owner,
        claim.workspace,
    );
}

/// Of a workspace that nobody was put in possession of, the owner is a claimant
/// of it: an anchored one before any other, and among those of equal standing the
/// latest. Without a claim there is none.
pub proof fn lemma_best_claimant_owns(
    v: SocietyView,
    workspace: Seq<u8>,
    rival: WorkspaceOwnershipClaimView,
)
    requires
        table::find(v.workspace_current_owners, workspace) is None,
        table::values(v.workspace_ownership_claims).contains(rival),
        rival.workspace == workspace,
    ensures
        exists|c: WorkspaceOwnershipClaimView| #[trigger]
            table::values(v.workspace_ownership_claims).contains(c) && c.workspace == workspace
                && owner_of(v, workspace) == Some(c.owner) && (ownership_status(rival)
                == FactTruthStatus::Anchored ==> ownership_status(c) == FactTruthStatus::Anchored)
                && (ownership_status(rival) == ownership_status(c) ==> rival.claimed_at
                <= c.claimed_at),
{
    let keep = claims_workspace(workspace);
    let all = order::listed(v.workspace_ownership_claims, keep, by_ownership());
    order::lemma_first_listed(v.workspace_ownership_claims, keep, by_ownership());
    assert(keep(rival));
    assert(order::first(all) is Some);
    let c = all[0];
    let (x, y) = (by_ownership()(c), by_ownership()(rival));
    assert(order::key_le(x, y));
    order::lemma_key_le_parts(x, y);
    if ownership_status(rival) == ownership_status(c) {
        order::lemma_key_le_parts(x.drop_first(), y.drop_first());
    }
    assert(table::values(v.workspace_ownership_claims).contains(c));
}

/// A workspace that nobody claimed or was put in possession of has no owner, and
/// possession goes before every claim.
pub proof fn lemma_possession_goes_first(v: SocietyView, workspace: Seq<u8>)
    ensures
        table::find(v.workspace_current_owners, workspace) matches Some(owner) ==> owner_of(
            v,
            workspace,
        ) == Some(owner),
        table::find(v.workspace_current_owners, workspace) is None && (forall|
            c: WorkspaceOwnershipClaimView,
        | #[trigger]
            table::values(v.workspace_ownership_claims).contains(c) ==> c.workspace != workspace)
            ==> owner_of(v, workspace) is None,
{
    let keep = claims_workspace(workspace);
    order::lemma_first_listed(v.workspace_ownership_claims, keep, by_ownership());
}

/// A claim is anchored exactly when it has an anchor that is well formed.
pub proof fn lemma_anchor_makes_claim_stand(c: WorkspaceOwnershipClaimView)
    ensures
        ownership_status(c) == FactTruthStatus::Anchored <==> (c.anchor matches Some(anchor)
            && anchor_valid(anchor) is Ok),
{
}

/// A decision is anchored exactly when it has an anchor that is well formed and
/// speaks of the decision, and, where the anchor is a quorum, enough members of
/// the deciding collective stand behind it.
pub proof fn lemma_decision_needs_anchor(v: SocietyView, d: CollectiveDecisionView)
    ensures
        d.anchor is None ==> decision_status(v, d) == FactTruthStatus::Claimed,
        d.anchor matches Some(anchor) ==> {
            &&& anchor_valid(anchor) is Err ==> decision_status(v, d) == FactTruthStatus::Claimed
            &&& !locates(anchor.locator, d) ==> decision_status(v, d) == FactTruthStatus::Claimed
            &&& anchor.kind == AuthorityKind::CollectiveQuorum && table::find(
                v.collectives,
                d.collective_id,
            ) is None ==> decision_status(v, d) == FactTruthStatus::Claimed
            &&& anchor.kind != AuthorityKind::CollectiveQuorum && anchor_valid(anchor) is Ok
                && locates(anchor.locator, d) ==> decision_status(v, d) == FactTruthStatus::Anchored
            &&& anchor.kind == AuthorityKind::CollectiveQuorum && anchor_valid(anchor) is Ok
                && locates(anchor.locator, d) ==> (table::find(
                v.collectives,
                d.collective_id,
            ) matches Some(c) ==> (decision_status(v, d) == FactTruthStatus::Anchored <==> quorum(
                anchor,
                c.members,
            )))
        },
{
}

/// A decision once anchored stays so while its collective only grows: it is not
/// undone by an event that adds members, nor by one on anything else.
pub proof fn lemma_anchored_decision_survives_growth(
    v: SocietyView,
    e: SocialEventView,
    d: CollectiveDecisionView,
)
    requires
        table::distinct(v.collectives),
        decision_status(v, d) == FactTruthStatus::Anchored,
        e.kind is CollectiveJoined,
    ensures
        decision_status(applied(v, e), d) == FactTruthStatus::Anchored,
{
    let id = e.kind->CollectiveJoined_collective_id;
    let c = match table::find(v.collectives, id) {
        Some(c) => c,
        None => crate::society::bare_collective(id, e.timestamp),
    };
    let next = crate::facts::CollectiveView { members: table::joined(c.members, e.author), ..c };
    table::lemma_put_find(v.collectives, id, next, d.collective_id);
    let anchor = d.anchor->Some_0;
    if anchor.kind == AuthorityKind::CollectiveQuorum && d.collective_id == id {
        crate::anchor::lemma_quorum_survives_growth(anchor, c.members, e.author);
    }
}

/// A settlement is anchored only by a checkpoint that holds and is about the
/// settlement, and by a quorum only where the collective that the locator names
/// is known and enough of its members stand behind it.
pub proof fn lemma_settlement_needs_checkpoint(v: SocietyView, s: SettlementRecordView)
    ensures
        !(s.proof_of_payment is AnchoredCheckpoint) ==> !settlement_anchored(v, s),
        s.proof_of_payment matches SettlementProofView::AnchoredCheckpoint(p) ==> {
            &&& anchored_valid(p) is Err ==> !settlement_anchored(v, s)
            &&& !is_about(p.checkpoint.subject, s) ==> !settlement_anchored(v, s)
            &&& p.anchor.kind != AuthorityKind::CollectiveQuorum && anchored_valid(p) is Ok
                && is_about(p.checkpoint.subject, s) ==> settlement_anchored(v, s)
            &&& p.anchor.kind == AuthorityKind::CollectiveQuorum && collective_in(
                p.anchor.locator,
            ) is None ==> !settlement_anchored(v, s)
            &&& p.anchor.kind == AuthorityKind::CollectiveQuorum ==> (collective_in(
                p.anchor.locator,
            ) matches Some(id) ==> match table::find(v.collectives, id) {
                None => !settlement_anchored(v, s),
                Some(c) => anchored_valid(p) is Ok && is_about(p.checkpoint.subject, s) ==> (
                settlement_anchored(v, s) <==> quorum(p.anchor, c.members)),
            })
        },
{
}

/// What a locator may say to speak of a decision: it is absent, or it names the
/// proposal, the task or the claim somewhere; one that names none of these does
/// not.
pub proof fn lemma_locator_names_subject(
    d: CollectiveDecisionView,
    before: Seq<char>,
    after: Seq<char>,
)
    ensures
        locates(None, d),
        locates(Some(before + ("proposal:"@ + d.proposal_id) + after), d),
        d.task_id matches Some(id) ==> locates(Some(before + ("task:"@ + id) + after), d),
        d.claim_id matches Some(id) ==> locates(Some(before + ("claim:"@ + id) + after), d),
        d.task_id is None && d.claim_id is None ==> forall|s: Seq<char>|
            #[trigger] locates(Some(s), d) ==> exists|at: int|
                0 <= at && at + 9 + d.proposal_id.len() <= s.len() && #[trigger] s.subrange(
                    at,
                    at + 9 + d.proposal_id.len(),
                ) == "proposal:"@ + d.proposal_id,
{
    lemma_part_occurs(before, "proposal:"@ + d.proposal_id, after);
    if let Some(id) = d.task_id {
        lemma_part_occurs(before, "task:"@ + id, after);
    }
    if let Some(id) = d.claim_id {
        lemma_part_occurs(before, "claim:"@ + id, after);
    }
    reveal_strlit("proposal:");
    assert forall|s: Seq<char>|
        d.task_id is None && d.claim_id is None && #[trigger] locates(Some(s), d) implies exists|
        at: int,
    |
        0 <= at && at + 9 + d.proposal_id.len() <= s.len() && #[trigger] s.subrange(
            at,
            at + 9 + d.proposal_id.len(),
        ) == "proposal:"@ + d.proposal_id by {
        let needle = "proposal:"@ + d.proposal_id;
        let at = choose|at: int| text::occurs_at(s, needle, at);
        assert(needle.len() == 9 + d.proposal_id.len());
        assert(s.subrange(at, at + 9 + d.proposal_id.len()) == needle);
    }
}

proof fn lemma_part_occurs(before: Seq<char>, part: Seq<char>, after: Seq<char>)
    ensures
        text::occurs_in(before + part + after, part),
{
    let all = before + part + after;
    assert(all.subrange(before.len() as int, (before.len() + part.len()) as int) =~= part);
    assert(text::occurs_at(all, part, before.len() as int));
}

/// The signals on an agent are decisions on that agent and no other, the latest of
/// them, from the earlier to the later: whatever is left out is no later than
/// anything that is given.
pub proof fn lemma_signals_are_the_latest(
    v: SocietyView,
    target: Seq<char>,
    limit: usize,
    i: int,
) -> (d: CollectiveDecisionView)
    requires
        0 <= i < signals_for(v, target, limit).len(),
    ensures
        signals_for(v, target, limit).len() <= limit,
        table::values(v.collective_decisions).contains(d),
        d.target == Some(target),
        ({
            let all = signals_for(v, target, limit);
            &&& all[i].timestamp == d.timestamp
            &&& all[i].collective_id == d.collective_id
            &&& all[i].proposal_id == d.proposal_id
            &&& all[i].decider == d.decider
            &&& all[i].outcome == d.outcome
            &&& all[i].task_id == d.task_id
            &&& all[i].claim_id == d.claim_id
            &&& all[i].reason == d.reason
            &&& all[i].truth_status == decision_status(v, d)
            &&& i > 0 ==> all[i - 1].timestamp <= all[i].timestamp
        }),
{
    let all = order::listed(v.collective_decisions, judges_agent(target), by_decision());
    let start: int = if all.len() > limit {
        all.len() - limit
    } else {
        0
    };
    order::lemma_listed(v.collective_decisions, judges_agent(target), by_decision());
    let d = all[start + i];
    assert(all.contains(d));
    if i > 0 {
        let c = all[start + i - 1];
        assert(order::key_le(by_decision()(c), by_decision()(d)));
        order::lemma_key_le_parts(by_decision()(c), by_decision()(d));
    }
    d
}

/// Every decision on an agent is among the signals, unless there are as many as
/// were asked for and none of them is earlier.
pub proof fn lemma_no_later_signal_is_left_out(
    v: SocietyView,
    target: Seq<char>,
    limit: usize,
    d: CollectiveDecisionView,
)
    requires
        table::values(v.collective_decisions).contains(d),
        d.target == Some(target),
    ensures
        ({
            let all = signals_for(v, target, limit);
            ||| exists|i: int| 0 <= i < all.len() && #[trigger] all[i] == signal(v, d)
            ||| all.len() == limit && forall|i: int|
                0 <= i < all.len() ==> d.timestamp <= (#[trigger] all[i]).timestamp
        }),
{
    let known = order::listed(v.collective_decisions, judges_agent(target), by_decision());
    let start: int = if known.len() > limit {
        known.len() - limit
    } else {
        0
    };
    order::lemma_listed(v.collective_decisions, judges_agent(target), by_decision());
    assert(known.contains(d));
    let k = known.index_of(d);
    let all = signals_for(v, target, limit);
    if k >= start {
        assert(all[k - start] == signal(v, d));
    } else {
        assert forall|i: int| 0 <= i < all.len() implies d.timestamp <= (
        #[trigger] all[i]).timestamp by {
            let c = known[start + i];
            assert(order::key_le(by_decision()(d), by_decision()(c)));
            order::lemma_key_le_parts(by_decision()(d), by_decision()(c));
        }
    }
}

/// The agents present in a workspace are those who joined it.
pub proof fn lemma_present_joined(
    presence: Seq<(Seq<u8>, Seq<char>)>,
    workspace: Seq<u8>,
    agent: Seq<char>,
)
    ensures
        present(presence, workspace).contains(agent) <==> presence.contains((workspace, agent)),
    decreases presence.len(),
{
    if presence.len() > 0 {
        let front = presence.drop_last();
        let rest = present(front, workspace);
        lemma_present_joined(front, workspace, agent);
        if front.contains((workspace, agent)) {
            assert(presence[front.index_of((workspace, agent))] == (workspace, agent));
        }
        if presence.contains((workspace, agent)) && !front.contains((workspace, agent)) {
            let i = presence.index_of((workspace, agent));
            if i < front.len() {
                assert(front[i] == (workspace, agent));
            }
        }
        if presence.last().0 == workspace {
            let all = rest.push(presence.last().1);
            if rest.contains(agent) {
                assert(all[rest.index_of(agent)] == agent);
            }
            assert(all[rest.len() as int] == presence.last().1);
            if all.contains(agent) {
                let i = all.index_of(agent);
                if i < rest.len() {
                    assert(rest[i] == agent);
                } else {
                    assert(presence[presence.len() - 1] == (workspace, agent));
                }
            }
        }
    }
}

/// A workspace attached to a collective is one of its workspaces, beside those
/// that were; and who attaches it is a member.
pub proof fn lemma_attached_workspace_stays(
    v: SocietyView,
    e: SocialEventView,
    id: Seq<char>,
    workspace: Seq<u8>,
    other: Seq<u8>,
    someone: Seq<char>,
)
    requires
        table::distinct(v.collectives),
        e.kind == (SocialEventKindView::CollectiveWorkspaceAttached {
            collective_id: id,
            workspace,
        }),
    ensures
        table::find(applied(v, e).collectives, id) matches Some(c) && {
            let before = table::find(v.collectives, id);
            &&& c.workspaces.contains(other) <==> other == workspace || (
            before matches Some(known) && known.workspaces.contains(other))
            &&& c.members.contains(someone) <==> someone == e.author || (
            before matches Some(known) && known.members.contains(someone))
            &&& before is None ==> c.created_at == e.timestamp
        },
{
    let known = crate::society::registered(v, e.author);
    let c = match table::find(v.collectives, id) {
        Some(c) => c,
        None => crate::society::bare_collective(id, e.timestamp),
    };
    let joined = crate::facts::CollectiveView {
        members: table::joined(c.members, e.author),
        ..c
    };
    let between = crate::society::with_member(known, id, e.author, e.timestamp);
    table::lemma_put_find(v.collectives, id, joined, id);
    table::lemma_joined_contains(c.members, e.author, someone);
    table::lemma_joined_contains(joined.workspaces, workspace, other);
    table::lemma_put_find(
        between.collectives,
        id,
        crate::facts::CollectiveView {
            workspaces: table::joined(joined.workspaces, workspace),
            ..joined
        },
        id,
    );
}

/// A collective of which something is said is known from then on, without members
/// where it was not known before; what was known of it stays.
pub proof fn lemma_collective_becomes_known(
    v: SocietyView,
    id: Seq<char>,
    at: u64,
    other: Seq<char>,
)
    requires
        table::distinct(v.collectives),
    ensures
        ({
            let after = with_collective(v, id, at).collectives;
            &&& table::find(v.collectives, id) matches Some(known) ==> after == v.collectives
            &&& table::find(v.collectives, id) is None ==> (table::find(after, id) matches Some(c)
                && c.id == id && c.members.len() == 0 && c.workspaces.len() == 0 && c.created_at
                == at && c.name.len() == 0)
            &&& other != id ==> table::find(after, other) == table::find(v.collectives, other)
        }),
{
    table::lemma_put_new_find(
        v.collectives,
        id,
        crate::society::bare_collective(id, at),
        other,
    );
}

/// The snapshot of a run is of its output, in its workspace, by its actor, at its
/// end, and marked as derived from a run.
pub proof fn lemma_snapshot_of_run(r: WorkspaceRunView)
    ensures
        run_snapshot(r) is Some <==> r.output_root is Some,
        run_snapshot(r) matches Some(s) ==> r.output_root == Some(s.root) && s.workspace
            == r.workspace && s.actor == r.actor && s.timestamp == r.finished_at && s.label == Some(
            "workspace-run"@,
        ),
{
}

/// Everyone whom an event names is known after it.
#[verifier::spinoff_prover]
#[verifier::rlimit(60)]
pub proof fn lemma_named_agents_are_known(v: SocietyView, e: SocialEventView)
    ensures
        ({
            let agents = applied(v, e).agents;
            match e.kind {
                SocialEventKindView::ManifestPublished { manifest } => agents.contains(manifest.did),
                SocialEventKindView::IdentityRevoked { revocation } => agents.contains(
                    revocation.did,
                ),
                SocialEventKindView::IdentityRotated { rotation } => agents.contains(
                    rotation.previous,
                ) && agents.contains(rotation.next),
                SocialEventKindView::RelationDeclared { peer, .. } => agents.contains(peer),
                SocialEventKindView::InteractionRecorded { interaction } => agents.contains(
                    interaction.from,
                ) && agents.contains(interaction.to),
                SocialEventKindView::CapabilityIssued { grant } => agents.contains(
                    grant.capability.issuer,
                ) && agents.contains(grant.capability.subject),
                SocialEventKindView::CapabilityRevoked { revocation } => agents.contains(
                    revocation.issuer,
                ),
                SocialEventKindView::IntentPublished { intent } => agents.contains(intent.author),
                SocialEventKindView::IntentResponded { response } => agents.contains(
                    response.responder,
                ),
                SocialEventKindView::CollectiveVoteCast { vote } => agents.contains(vote.voter),
                SocialEventKindView::TaskExecutionAttested { attestation } => agents.contains(
                    attestation.executor,
                ) && agents.contains(attestation.attestor),
                SocialEventKindView::SettlementRecorded { settlement } => settlement_valid(
                    settlement,
                ) is Ok ==> agents.contains(settlement.payer) && agents.contains(settlement.payee),
                _ => agents.contains(e.author),
            }
        }),
{
    lemma_author_is_known(v, e);
    let known = table::joined(v.agents, e.author);
    match e.kind {
        SocialEventKindView::ManifestPublished { manifest } => {
            table::lemma_joined_contains(known, manifest.did, manifest.did);
        },
        SocialEventKindView::IdentityRevoked { revocation } => {
            table::lemma_joined_contains(known, revocation.did, revocation.did);
        },
        SocialEventKindView::IdentityRotated { rotation } => {
            lemma_both_known(known, rotation.previous, rotation.next);
        },
        SocialEventKindView::RelationDeclared { peer, relation, note } => {
            table::lemma_joined_contains(table::joined(known, e.author), peer, peer);
        },
        SocialEventKindView::InteractionRecorded { interaction } => {
            lemma_both_known(known, interaction.from, interaction.to);
        },
        SocialEventKindView::CapabilityIssued { grant } => {
            lemma_both_known(known, grant.capability.issuer, grant.capability.subject);
        },
        SocialEventKindView::CapabilityRevoked { revocation } => {
            table::lemma_joined_contains(known, revocation.issuer, revocation.issuer);
        },
        SocialEventKindView::IntentPublished { intent } => {
            table::lemma_joined_contains(known, intent.author, intent.author);
        },
        SocialEventKindView::IntentResponded { response } => {
            table::lemma_joined_contains(known, response.responder, response.responder);
        },
        SocialEventKindView::CollectiveVoteCast { vote } => {
            table::lemma_joined_contains(known, vote.voter, vote.voter);
        },
        SocialEventKindView::TaskExecutionAttested { attestation } => {
            lemma_both_known(known, attestation.executor, attestation.attestor);
        },
        SocialEventKindView::SettlementRecorded { settlement } => {
            lemma_both_known(known, settlement.payer, settlement.payee);
        },
        _ => {},
    }
}

proof fn lemma_both_known(known: Seq<Seq<char>>, a: Seq<char>, b: Seq<char>)
    ensures
        table::joined(table::joined(known, a), b).contains(a),
        table::joined(table::joined(known, a), b).contains(b),
{
    table::lemma_joined_contains(known, a, a);
    table::lemma_joined_contains(table::joined(known, a), b, a);
    table::lemma_joined_contains(table::joined(known, a), b, b);
}

/// A checkpoint is about a settlement exactly when its subject is the settlement,
/// or the settlement of its task or of its claim.
pub proof fn lemma_subject_is_settlement(subject: Seq<char>, s: SettlementRecordView)
    ensures
        is_about("settlement:"@ + s.id, s),
        s.task_id matches Some(id) ==> is_about("task:"@ + id + ":settlement:"@ + s.id, s),
        s.claim_id matches Some(id) ==> is_about("claim:"@ + id + ":settlement:"@ + s.id, s),
        is_about(subject, s) && subject != "settlement:"@ + s.id ==> (s.task_id matches Some(id)
            && subject == "task:"@ + id + ":settlement:"@ + s.id) || (s.claim_id matches Some(id)
            && subject == "claim:"@ + id + ":settlement:"@ + s.id),
{
}

/// An adopted claim is on record from then on, unless the same claim was made
/// later before.
pub proof fn lemma_adopted_claim_is_recorded(v: SocietyView, c: WorkspaceOwnershipClaimView)
    requires
        table::distinct(v.workspace_ownership_claims),
    ensures
        table::find(
            crate::society::with_owner(v, c).workspace_ownership_claims,
            ownership_key(c),
        ) == Some(
            match table::find(v.workspace_ownership_claims, ownership_key(c)) {
                Some(known) if known.claimed_at > c.claimed_at => known,
                _ => c,
            },
        ),
{
    table::lemma_put_find(v.workspace_ownership_claims, ownership_key(c), c, ownership_key(c));
}

} // verus!
