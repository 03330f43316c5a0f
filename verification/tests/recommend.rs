//! Recommendations, with scores folded from histories.
use nexus::facts::{AgentIntent, CollectiveDecision, CollectiveDecisionOutcome, FactTruthStatus, GovernanceSignal, IntentKind, IntentResponse, IntentResponseKind, Interaction, InteractionOutcome, RelationKind, ReputationScore, SocialEdge};
use nexus::identity::NodeIdentity;
use nexus::manifest::{AgentManifest, CapabilityDecl};
use nexus::protocol::{EquivocationProof, SocialEvent, SocialEventKind};
use nexus::reach::{acquainted, is_praise, trust_links, witnesses, TrustSearch};
use nexus::recommend::{collaborator_candidates, intent_candidates, max_price, provider_candidates, recommend_provider, social_text_matches, IntentActionKind, IntentRecommendation, IntentScores, ProviderRecommendation, ProviderScores, Score, CAUTIOUS};
use nexus::settlement::{AuthorityAnchor, AuthorityKind};
use nexus::society::Society;
use nexus::task::{ExecutionAttestation, ExecutionReceipt, TaskAcceptance, TaskOffer, TaskResult, TaskSpec, TaskState};
use nexus::types::{Cid, Did, ProcessOutput, ResourceUsage, WorkspaceId};

/// A score by its bits; scores are never negative.
fn score(value: f64) -> Score {
    Score {
        bits: (value.max(0.0) + 0.0).to_bits(),
    }
}

/// The value of a score.
fn value(score: Score) -> f64 {
    f64::from_bits(score.bits)
}

// Floating point: a moving average of what was observed.
fn ema(current: f64, observed: f64) -> f64 {
    (current * 0.75 + observed * 0.25).clamp(0.0, 1.0)
}

fn reliability(successes: u64, failures: u64) -> f64 {
    let total = successes + failures;
    if total == 0 {
        0.5
    } else {
        successes as f64 / total as f64
    }
}

// Floating point: trust and affinity fold the history of a relation.
fn edge_score(edge: &SocialEdge) -> f64 {
    if edge.kind == RelationKind::Blocked {
        return 0.0;
    }
    let (mut trust, mut affinity) = (0.5, 0.5);
    for outcome in &edge.history {
        match outcome {
            InteractionOutcome::Success => {
                trust = ema(trust, 1.0);
                affinity = ema(affinity, 0.8);
            }
            InteractionOutcome::Neutral => affinity = ema(affinity, 0.5),
            InteractionOutcome::Failure => {
                trust = ema(trust, 0.15);
                affinity = ema(affinity, 0.25);
            }
            InteractionOutcome::Dispute => {
                trust = ema(trust, 0.0);
                affinity = ema(affinity, 0.1);
            }
        }
    }
    trust * 0.45 + affinity * 0.25 + reliability(edge.successes(), edge.failures()) * 0.30
}

/// The dimensions of what is remembered of an agent, each from zero to one.
#[derive(Clone, Debug)]
struct Standing {
    availability: f64,
    correctness: f64,
    timeliness: f64,
    fairness: f64,
}

// Floating point: each dimension is a moving average of what was observed.
impl Standing {
    fn neutral() -> Self {
        Self {
            availability: 0.5,
            correctness: 0.5,
            timeliness: 0.5,
            fairness: 0.5,
        }
    }

    fn of(history: &[InteractionOutcome]) -> Self {
        let mut standing = Self::neutral();
        for outcome in history {
            let (availability, correctness, timeliness, fairness) = match outcome {
                InteractionOutcome::Success => (1.0, 1.0, 0.8, 0.8),
                InteractionOutcome::Neutral => (0.7, 0.5, 0.5, 0.5),
                InteractionOutcome::Failure => (0.4, 0.2, 0.4, 0.4),
                InteractionOutcome::Dispute => (0.2, 0.0, 0.2, 0.0),
            };
            standing.update_availability(availability);
            standing.update_correctness(correctness);
            standing.update_timeliness(timeliness);
            standing.update_fairness(fairness);
        }
        standing
    }

    fn update_availability(&mut self, observed: f64) {
        self.availability = self.availability * 0.8 + observed * 0.2;
    }

    fn update_correctness(&mut self, observed: f64) {
        self.correctness = self.correctness * 0.8 + observed * 0.2;
    }

    fn update_timeliness(&mut self, observed: f64) {
        self.timeliness = self.timeliness * 0.8 + observed * 0.2;
    }

    fn update_fairness(&mut self, observed: f64) {
        self.fairness = self.fairness * 0.8 + observed * 0.2;
    }

    fn composite(&self, successes: u64, failures: u64) -> f64 {
        self.availability * 0.15
            + self.correctness * 0.40
            + self.timeliness * 0.15
            + self.fairness * 0.15
            + reliability(successes, failures) * 0.15
    }
}

/// The composite score of a memory.
fn composite(memory: &ReputationScore) -> f64 {
    Standing::of(&memory.judged).composite(memory.successes(), memory.failures())
}

// Floating point: the confidence in a chain is the product of its scores.
fn trust_reachability_score(society: &Society, from: &Did, to: &Did) -> f64 {
    if acquainted(society, from, to) {
        return 1.0;
    }
    let mut search = TrustSearch::new(from, to);
    while let Some((current, confidence)) = search.visit() {
        for edge in trust_links(society, &current) {
            let link = edge_score(edge);
            let next = value(confidence) * link;
            if let Some(found) = search.follow(&edge.to, score(link), score(next)) {
                return value(found).clamp(0.0, 1.0);
            }
        }
    }
    0.0
}

// Floating point: a mean of memories weighted by the trust in who has them.
fn reachable_reputation_score(
    society: &Society,
    requester: &Did,
    target: &Did,
    target_reachability: f64,
    sybil_cluster_score: f64,
) -> f64 {
    if let Some(memory) = society.reputation(requester, target) {
        return composite(memory);
    }
    let mut weighted_score = 0.0;
    let mut total_weight = 0.0;
    for ((source, _), memory) in witnesses(society, target) {
        let reachability = trust_reachability_score(society, requester, source);
        if reachability <= 0.0 {
            continue;
        }
        weighted_score += composite(memory) * reachability;
        total_weight += reachability;
    }
    if total_weight <= 0.0 {
        return 0.5;
    }
    let reachability = target_reachability * (1.0 - sybil_cluster_score);
    (0.5 + (weighted_score / total_weight - 0.5) * reachability).clamp(0.0, 1.0)
}

// Floating point: the share of praise that is returned.
fn sybil_cluster_score(society: &Society, requester: &Did, target: &Did) -> f64 {
    if trust_reachability_score(society, requester, target) > 0.0 {
        return 0.0;
    }
    let praises = |memory: &ReputationScore| is_praise(memory) && composite(memory) > 0.70;
    let sources: Vec<&Did> = witnesses(society, target)
        .into_iter()
        .filter(|((source, _), memory)| {
            source != requester && source != target && praises(memory)
        })
        .map(|(pair, _)| &pair.0)
        .collect();
    if sources.is_empty() {
        return 0.0;
    }
    let closed = sources
        .iter()
        .filter(|source| society.reputation(target, source).is_some_and(praises))
        .count();
    (closed as f64 / sources.len() as f64).clamp(0.0, 1.0)
}

// Floating point: a moving average of judgments, the anchored in full.
fn governance_score_from_signals(signals: &[GovernanceSignal]) -> f64 {
    let mut score: f64 = 0.5;
    for signal in signals {
        let observed = match signal.outcome {
            CollectiveDecisionOutcome::Accepted => 0.85,
            CollectiveDecisionOutcome::Rejected => 0.15,
            CollectiveDecisionOutcome::Deferred => 0.45,
            CollectiveDecisionOutcome::Disputed => 0.05,
        };
        let weighted = match signal.truth_status {
            FactTruthStatus::Anchored => observed,
            FactTruthStatus::Claimed => 0.5 + (observed - 0.5) * 0.5,
        };
        score = ema(score, weighted);
    }
    score.clamp(0.0, 1.0)
}

// Floating point: the scores of the candidates.
fn provider_scores(
    society: &Society,
    requester: Option<&Did>,
    capability: &str,
) -> Vec<ProviderScores> {
    let candidates = provider_candidates(society, requester, capability);
    let highest = max_price(&candidates);
    let mut all = Vec::new();
    for facts in candidates {
        let social = facts.edge.as_ref().map(edge_score).unwrap_or(0.5);
        let reachability = requester
            .map(|requester| trust_reachability_score(society, requester, &facts.did))
            .unwrap_or(1.0);
        let sybil_cluster = requester
            .map(|requester| sybil_cluster_score(society, requester, &facts.did))
            .unwrap_or(0.0);
        let reputation = requester
            .map(|requester| {
                reachable_reputation_score(
                    society,
                    requester,
                    &facts.did,
                    reachability,
                    sybil_cluster,
                )
            })
            .unwrap_or(0.5);
        let governance = governance_score_from_signals(&facts.governance_signals);
        let price = if highest == 0 {
            1.0
        } else {
            1.0 - (facts.capability.price_per_unit as f64 / highest as f64)
        };
        let ranking = social * 0.45 + reputation * 0.25 + governance * 0.20 + price * 0.10;
        all.push(ProviderScores {
            social: score(social),
            reputation: score(reputation),
            reachability: score(reachability),
            sybil_cluster: score(sybil_cluster),
            governance: score(governance),
            ranking: score(ranking),
        });
    }
    all
}

/// All providers of a capability.
fn find_providers(society: &Society, capability: &str) -> Vec<ProviderRecommendation> {
    society.find_providers(capability, &provider_scores(society, None, capability))
}

/// The best providers of a capability for a requester.
fn recommend_providers(
    society: &Society,
    requester: &Did,
    capability: &str,
    limit: usize,
) -> Vec<ProviderRecommendation> {
    let scores = provider_scores(society, Some(requester), capability);
    society.recommend_providers(requester, capability, &scores, limit)
}

// Floating point: the scores of the candidates; hundredths become fractions.
fn recommend_intents(
    society: &Society,
    agent: &Did,
    now: Option<u64>,
    limit: usize,
) -> Vec<IntentRecommendation> {
    let mut all = Vec::new();
    for facts in intent_candidates(society, agent, now) {
        let capability = facts.capability_score as f64 / 100.0;
        let workspace = facts.workspace_score as f64 / 100.0;
        let response = facts.response_score as f64 / 100.0;
        let preference = facts.preference_score as f64 / 100.0;
        let social = facts.edge.as_ref().map(edge_score).unwrap_or(0.5);
        let reputation = society
            .reputation(agent, &facts.intent.author)
            .map(composite)
            .unwrap_or(0.5);
        let ranking = capability * 0.30
            + workspace * 0.15
            + social * 0.20
            + reputation * 0.15
            + response * 0.10
            + preference * 0.10;
        let base = (capability * 0.35
            + workspace * 0.15
            + social * 0.20
            + reputation * 0.15
            + response * 0.10
            + preference * 0.05)
            .clamp(0.0, 1.0);
        all.push(IntentScores {
            social: score(social),
            reputation: score(reputation),
            ranking: score(ranking),
            respond: score(base),
            offer: score((base + 0.08).clamp(0.0, 1.0)),
            join: score(base * 0.85),
            propose: score(base * 0.75),
        });
    }
    society.recommend_intents(agent, now, &all, limit)
}

// Floating point: the scores of the relations.
fn recommend_collaborators(society: &Society, agent: &Did, limit: usize) -> Vec<SocialEdge> {
    let scores = collaborator_candidates(society, agent)
        .into_iter()
        .map(|edge| score(edge_score(edge)))
        .collect();
    society.recommend_collaborators(agent, &scores, limit)
}

fn did(s: &str) -> Did {
    Did::new(&format!("did:key:{s}"))
}

fn hash_hex(byte: u8) -> String {
    hex::encode([byte; 32])
}


fn provider_manifest(did: Did, name: &str, capability: &str, price: u64) -> AgentManifest {
    AgentManifest::new(did, name, 1).provide(CapabilityDecl {
        name: capability.into(),
        description: format!("provides {capability}"),
        version: "1.0".into(),
        price_per_unit: price,
        price_unit: "per-request".into(),
    })
}


#[test]
fn interaction_builds_social_edge() {
    let alice = did("alice");
    let bob = did("bob");
    let mut society = Society::new();

    society.record_interaction(Interaction::new(
        alice.clone(),
        bob.clone(),
        None,
        "shared workspace run",
        InteractionOutcome::Success,
        10,
    ));

    let edge = society.edge(&alice, &bob).unwrap();
    assert_eq!(edge.successes(), 1);
    assert!(edge_score(edge) > 0.5);
    let reputation = society.reputation(&alice, &bob).unwrap();
    assert_eq!(reputation.successes(), 1);
    assert!(composite(reputation) > 0.5);
    assert_eq!(society.interaction_count(), 1);
}

#[test]
fn recommendations_ignore_blocked_edges() {
    let alice = did("alice");
    let bob = did("bob");
    let carol = did("carol");
    let mut society = Society::new();

    society.relate(alice.clone(), bob.clone(), RelationKind::Collaborator, 1);
    society.relate(alice.clone(), carol, RelationKind::Blocked, 1);
    society.record_interaction(Interaction::new(
        alice.clone(),
        bob.clone(),
        None,
        "finished task",
        InteractionOutcome::Success,
        2,
    ));

    let recs = recommend_collaborators(&society, &alice, 10);
    assert_eq!(recs.len(), 1);
    assert_eq!(recs[0].to, bob);
}

#[test]
fn manifest_events_build_capability_provider_index() {
    let alice = did("alice");
    let bob = did("bob");
    let mut society = Society::new();

    society.apply_event(&SocialEvent::new(
        alice.clone(),
        1,
        SocialEventKind::ManifestPublished {
            manifest: provider_manifest(alice.clone(), "Alice", "python-exec", 9),
        },
    ));
    society.apply_event(&SocialEvent::new(
        bob.clone(),
        2,
        SocialEventKind::ManifestPublished {
            manifest: provider_manifest(bob.clone(), "Bob", "image-gen", 5),
        },
    ));

    assert_eq!(society.manifest_count(), 2);
    assert_eq!(society.agent_manifest(&alice).unwrap().name, "Alice");

    let providers = find_providers(&society, "python-exec");
    assert_eq!(providers.len(), 1);
    assert_eq!(providers[0].did, alice);
    assert_eq!(providers[0].capability.name, "python-exec");
}

#[test]
fn completed_receipted_task_marks_capability_verified() {
    let publisher = did("publisher");
    let worker = NodeIdentity::generate();
    let attestor = NodeIdentity::generate();
    let worker_did = worker.did().clone();
    let mut society = Society::new();
    let task = TaskSpec::new(
        publisher.clone(),
        "verify python execution",
        "python-exec",
        "python",
        vec!["verify.py".into()],
        100,
        999,
        1,
    );
    let task_id = task.id.clone();
    let output = ProcessOutput {
        exit_code: 0,
        stdout: b"ok".to_vec(),
        stderr: Vec::new(),
        resources: ResourceUsage::default(),
    };
    let receipt = ExecutionReceipt::from_process_output(
        &task_id,
        worker_did.clone(),
        None,
        "python",
        vec!["verify.py".into()],
        &output,
        None,
        4,
        5,
    )
    .sign(&worker)
    .unwrap();
    let attestation = ExecutionAttestation::from_process_output(
        &receipt,
        attestor.did().clone(),
        &output,
        None,
        6,
    )
    .sign(&attestor)
    .unwrap();

    society.apply_event(&SocialEvent::new(
        worker_did.clone(),
        1,
        SocialEventKind::ManifestPublished {
            manifest: provider_manifest(worker_did.clone(), "Worker", "python-exec", 10),
        },
    ));
    society.apply_event(&SocialEvent::new(
        publisher.clone(),
        2,
        SocialEventKind::TaskPublished { task },
    ));
    society.apply_event(&SocialEvent::new(
        worker_did.clone(),
        3,
        SocialEventKind::TaskOffered {
            offer: TaskOffer {
                task_id: task_id.clone(),
                bidder: worker_did.clone(),
                price: 10,
                estimated_time_secs: 1,
                rationale: "ready".into(),
            },
        },
    ));
    society.apply_event(&SocialEvent::new(
        publisher.clone(),
        4,
        SocialEventKind::TaskAccepted {
            acceptance: TaskAcceptance {
                task_id: task_id.clone(),
                publisher: publisher.clone(),
                bidder: worker_did.clone(),
                price: 10,
                accepted_at: 4,
            },
        },
    ));
    society.apply_event(&SocialEvent::new(
        worker_did.clone(),
        5,
        SocialEventKind::TaskCompleted {
            result: TaskResult {
                task_id: task_id.clone(),
                executor: worker_did.clone(),
                success: true,
                exit_code: 0,
                stdout: "ok".into(),
                stderr: String::new(),
                actual_cost: 10,
                error: None,
                receipt: Some(Box::new(receipt)),
                attestations: Vec::new(),
            },
        },
    ));
    society.apply_event(&SocialEvent::new(
        attestor.did().clone(),
        6,
        SocialEventKind::TaskExecutionAttested { attestation },
    ));

    let verified = society.agent_verified_capabilities(&worker_did);
    assert_eq!(verified.len(), 1);
    assert_eq!(verified[0].name, "python-exec");
    assert_eq!(verified[0].successful_tasks, 1);
    assert_eq!(verified[0].independently_attested_tasks, 1);
    assert_eq!(verified[0].latest_task_id, task_id);
    assert_eq!(verified[0].latest_observed_at, 5);

    let providers = find_providers(&society, "python-exec");
    assert_eq!(providers.len(), 1);
    assert_eq!(providers[0].verified_capability, Some(verified[0].clone()));
}

#[test]
fn provider_recommendations_rank_social_trust_and_filter_blocked() {
    let requester = did("requester");
    let trusted = did("trusted");
    let cheap = did("cheap");
    let blocked = did("blocked");
    let mut society = Society::new();

    for (did, name, price) in [
        (trusted.clone(), "Trusted", 30),
        (cheap.clone(), "Cheap", 1),
        (blocked.clone(), "Blocked", 1),
    ] {
        society.apply_event(&SocialEvent::new(
            did.clone(),
            1,
            SocialEventKind::ManifestPublished {
                manifest: provider_manifest(did, name, "python-exec", price),
            },
        ));
    }

    society.relate(
        requester.clone(),
        trusted.clone(),
        RelationKind::Collaborator,
        2,
    );
    society.record_interaction(Interaction::new(
        requester.clone(),
        trusted.clone(),
        None,
        "previous task",
        InteractionOutcome::Success,
        3,
    ));
    society.relate(requester.clone(), blocked.clone(), RelationKind::Blocked, 2);

    let providers = recommend_providers(&society, &requester, "python-exec", 10);
    assert_eq!(providers.len(), 2);
    assert_eq!(providers[0].did, trusted);
    assert!(value(providers[0].reputation_score) > value(providers[1].reputation_score));
    assert_eq!(value(providers[0].governance_score), 0.5);
    assert_eq!(providers[1].did, cheap);
    assert!(providers.iter().all(|provider| provider.did != blocked));
}

#[test]
fn provider_recommendations_do_not_import_disconnected_reputation() {
    let requester = did("requester");
    let direct = did("direct");
    let sybil = did("sybil");
    let sybil_peer = did("sybil-peer");
    let mut society = Society::new();

    for (did, name, price) in [(direct.clone(), "Direct", 10), (sybil.clone(), "Sybil", 10)] {
        society.apply_event(&SocialEvent::new(
            did.clone(),
            1,
            SocialEventKind::ManifestPublished {
                manifest: provider_manifest(did, name, "python-exec", price),
            },
        ));
    }

    society.relate(
        requester.clone(),
        direct.clone(),
        RelationKind::Collaborator,
        2,
    );
    society.record_interaction(Interaction::new(
        requester.clone(),
        direct.clone(),
        None,
        "local trial",
        InteractionOutcome::Success,
        3,
    ));
    for i in 0..8 {
        society.record_interaction(Interaction::new(
            sybil_peer.clone(),
            sybil.clone(),
            None,
            "closed loop praise",
            InteractionOutcome::Success,
            10 + i,
        ));
    }

    let providers = recommend_providers(&society, &requester, "python-exec", 10);
    assert_eq!(providers.len(), 2);
    assert_eq!(providers[0].did, direct);
    let sybil_view = providers
        .iter()
        .find(|provider| provider.did == sybil)
        .unwrap();
    assert_eq!(value(sybil_view.reachability_score), 0.0);
    assert!((value(sybil_view.reputation_score) - 0.5).abs() < 0.001);
}

#[test]
fn provider_recommendations_use_reachable_reputation() {
    let requester = did("requester");
    let introducer = did("introducer");
    let provider = did("provider");
    let mut society = Society::new();

    society.apply_event(&SocialEvent::new(
        provider.clone(),
        1,
        SocialEventKind::ManifestPublished {
            manifest: provider_manifest(provider.clone(), "Provider", "python-exec", 10),
        },
    ));
    society.relate(
        requester.clone(),
        introducer.clone(),
        RelationKind::Collaborator,
        2,
    );
    society.record_interaction(Interaction::new(
        requester.clone(),
        introducer.clone(),
        None,
        "trusted introducer",
        InteractionOutcome::Success,
        3,
    ));
    society.relate(
        introducer.clone(),
        provider.clone(),
        RelationKind::Collaborator,
        4,
    );
    society.record_interaction(Interaction::new(
        introducer,
        provider.clone(),
        None,
        "introduced provider success",
        InteractionOutcome::Success,
        5,
    ));

    let providers = recommend_providers(&society, &requester, "python-exec", 10);
    assert_eq!(providers.len(), 1);
    assert!(value(providers[0].reachability_score) > 0.30);
    assert!(value(providers[0].reputation_score) > 0.5);
}

#[test]
fn provider_recommendations_require_anchor_or_reachability_for_high_trust() {
    let requester = did("requester");
    let witnessed = did("witnessed");
    let unwitnessed = did("unwitnessed");
    let alice = did("alice");
    let bob = did("bob");
    let mut society = Society::new();

    for (did, name) in [
        (witnessed.clone(), "Witnessed"),
        (unwitnessed.clone(), "Unwitnessed"),
    ] {
        society.apply_event(&SocialEvent::new(
            did.clone(),
            1,
            SocialEventKind::ManifestPublished {
                manifest: provider_manifest(did, name, "python-exec", 10),
            },
        ));
    }
    society.apply_event(&SocialEvent::new(
        alice.clone(),
        2,
        SocialEventKind::CollectiveDeclared {
            collective_id: "audit-lab".into(),
            name: "Audit Lab".into(),
            purpose: "witness provider claims".into(),
            members: vec![alice.clone(), bob.clone()],
        },
    ));
    society.apply_event(&SocialEvent::new(
        alice,
        3,
        SocialEventKind::CollectiveDecisionRecorded {
            decision: CollectiveDecision {
                proposal_id: "approve-witnessed".into(),
                collective_id: "audit-lab".into(),
                decider: bob.clone(),
                outcome: CollectiveDecisionOutcome::Accepted,
                task_id: None,
                claim_id: None,
                target: Some(witnessed.clone()),
                anchor: Some(AuthorityAnchor {
                    kind: AuthorityKind::CollectiveQuorum,
                    commitment_hex: hash_hex(9),
                    locator: Some("collective:audit-lab/proposal:approve-witnessed".into()),
                    attestors: vec![bob.clone(), did("alice")],
                    threshold: Some(2),
                }),
                reason: "provider claim witnessed".into(),
                timestamp: 3,
            },
        },
    ));

    let providers = recommend_providers(&society, &requester, "python-exec", 10);
    let witnessed_view = providers
        .iter()
        .find(|provider| provider.did == witnessed)
        .unwrap();
    let unwitnessed_view = providers
        .iter()
        .find(|provider| provider.did == unwitnessed)
        .unwrap();

    assert_eq!(value(witnessed_view.reachability_score), 0.0);
    assert!(value(witnessed_view.governance_score) > 0.5);
    assert!(witnessed_view.high_trust_eligible);
    assert_eq!(value(unwitnessed_view.reachability_score), 0.0);
    assert!(!unwitnessed_view.high_trust_eligible);
}

#[test]
fn provider_recommendations_downrank_closed_mutual_praise() {
    let requester = did("requester");
    let sybil_a = did("sybil-a");
    let sybil_b = did("sybil-b");
    let mut society = Society::new();

    society.apply_event(&SocialEvent::new(
        sybil_a.clone(),
        1,
        SocialEventKind::ManifestPublished {
            manifest: provider_manifest(sybil_a.clone(), "Sybil A", "python-exec", 10),
        },
    ));
    for i in 0..4 {
        society.record_interaction(Interaction::new(
            sybil_b.clone(),
            sybil_a.clone(),
            None,
            "mutual praise a",
            InteractionOutcome::Success,
            10 + i,
        ));
        society.record_interaction(Interaction::new(
            sybil_a.clone(),
            sybil_b.clone(),
            None,
            "mutual praise b",
            InteractionOutcome::Success,
            20 + i,
        ));
    }

    let providers = recommend_providers(&society, &requester, "python-exec", 10);
    assert_eq!(providers.len(), 1);
    assert_eq!(value(providers[0].reachability_score), 0.0);
    assert_eq!(value(providers[0].sybil_cluster_score), 1.0);
    assert!((value(providers[0].reputation_score) - 0.5).abs() < 0.001);
    assert!(value(providers[0].ranking_score) <= 0.60);
}

#[test]
fn provider_recommendations_include_collective_claim_judgments() {
    let requester = did("requester");
    let approved = did("approved");
    let disputed = did("disputed");
    let decider = did("decider");
    let mut society = Society::new();

    for (did, name) in [
        (approved.clone(), "Approved"),
        (disputed.clone(), "Disputed"),
    ] {
        society.apply_event(&SocialEvent::new(
            did.clone(),
            1,
            SocialEventKind::ManifestPublished {
                manifest: provider_manifest(did, name, "python-exec", 10),
            },
        ));
    }

    for (proposal_id, target, outcome) in [
        (
            "approve-claim",
            approved.clone(),
            CollectiveDecisionOutcome::Accepted,
        ),
        (
            "dispute-claim",
            disputed.clone(),
            CollectiveDecisionOutcome::Disputed,
        ),
    ] {
        society.apply_event(&SocialEvent::new(
            decider.clone(),
            2,
            SocialEventKind::CollectiveDecisionRecorded {
                decision: CollectiveDecision {
                    proposal_id: proposal_id.into(),
                    collective_id: "audit-lab".into(),
                    decider: decider.clone(),
                    outcome,
                    task_id: Some(format!("task-{proposal_id}")),
                    claim_id: Some(format!("claim-{proposal_id}")),
                    target: Some(target),
                    anchor: None,
                    reason: "governance signal for provider choice".into(),
                    timestamp: 2,
                },
            },
        ));
    }

    let providers = recommend_providers(&society, &requester, "python-exec", 10);
    assert_eq!(providers.len(), 2);
    assert_eq!(providers[0].did, approved);
    assert_eq!(providers[1].did, disputed);
    assert!(value(providers[0].governance_score) > 0.5);
    assert!(value(providers[1].governance_score) < 0.5);
    assert_eq!(providers[0].governance_signals.len(), 1);
    assert_eq!(
        providers[0].governance_signals[0].outcome,
        CollectiveDecisionOutcome::Accepted
    );
    assert_eq!(
        providers[1].governance_signals[0].claim_id.as_deref(),
        Some("claim-dispute-claim")
    );
    assert!(value(providers[0].ranking_score) > value(providers[1].ranking_score));
}

#[test]
fn intent_recommendations_match_capability_workspace_and_social_context() {
    let agent = did("agent");
    let trusted = did("trusted");
    let stranger = did("stranger");
    let blocked = did("blocked");
    let workspace = WorkspaceId::from_bytes([45; 32]);
    let mut society = Society::new();

    society.apply_event(&SocialEvent::new(
        agent.clone(),
        1,
        SocialEventKind::ManifestPublished {
            manifest: AgentManifest::new(agent.clone(), "agent", 1)
                .provide(CapabilityDecl {
                    name: "code-review".into(),
                    description: "review code".into(),
                    version: "1.0".into(),
                    price_per_unit: 1,
                    price_unit: "per-request".into(),
                })
                .preference("high-autonomy"),
        },
    ));
    society.apply_event(&SocialEvent::new(
        agent.clone(),
        2,
        SocialEventKind::WorkspaceJoined { workspace },
    ));
    society.relate(
        agent.clone(),
        trusted.clone(),
        RelationKind::Collaborator,
        3,
    );
    society.record_interaction(Interaction::new(
        agent.clone(),
        trusted.clone(),
        Some(workspace),
        "previous collaboration",
        InteractionOutcome::Success,
        4,
    ));
    society.relate(agent.clone(), blocked.clone(), RelationKind::Blocked, 3);

    for (author, id, capability, workspace, tags) in [
        (
            trusted.clone(),
            "intent-trusted",
            "code-review",
            Some(workspace),
            vec!["high-autonomy".into()],
        ),
        (
            stranger.clone(),
            "intent-stranger",
            "image-gen",
            None,
            Vec::new(),
        ),
        (
            blocked.clone(),
            "intent-blocked",
            "code-review",
            Some(workspace),
            Vec::new(),
        ),
    ] {
        society.apply_event(&SocialEvent::new(
            author.clone(),
            10,
            SocialEventKind::IntentPublished {
                intent: AgentIntent {
                    id: id.into(),
                    author,
                    kind: IntentKind::Need,
                    title: "Need help".into(),
                    body: "open collaboration".into(),
                    workspace,
                    task_id: None,
                    capability: Some(capability.into()),
                    tags,
                    created_at: 10,
                    expires_at: Some(100),
                },
            },
        ));
    }
    society.apply_event(&SocialEvent::new(
        agent.clone(),
        11,
        SocialEventKind::IntentResponded {
            response: IntentResponse {
                id: "response-stranger".into(),
                intent_id: "intent-stranger".into(),
                responder: agent.clone(),
                kind: IntentResponseKind::Decline,
                body: "not aligned".into(),
                workspace: None,
                task_id: None,
                capability: Some("image-gen".into()),
                evidence: None,
                created_at: 11,
            },
        },
    ));

    let recommendations = recommend_intents(&society, &agent, Some(20), 10);
    assert_eq!(recommendations.len(), 1);
    assert_eq!(recommendations[0].intent.id, "intent-trusted");
    assert_eq!(recommendations[0].capability_score, 100);
    assert_eq!(recommendations[0].workspace_score, 100);
    assert!(value(recommendations[0].social_score) > 0.5);
    assert!(value(recommendations[0].reputation_score) > 0.5);
    assert!(recommendations[0]
        .reasons
        .contains(&"capability:code-review".into()));
    assert!(recommendations[0]
        .reasons
        .contains(&"shared-workspace".into()));
    assert!(recommendations[0].reasons.contains(&"unanswered".into()));
    assert!(recommendations[0]
        .actions
        .iter()
        .any(|action| action.kind == IntentActionKind::RespondIntent
            && action.response_kind == Some(IntentResponseKind::Interested)
            && action.event_hint == "event intent-response"));
    assert!(recommendations[0].actions.iter().all(|action| {
        action.kind != IntentActionKind::OfferTask || action.task_id.is_some()
    }));
}

#[test]
fn task_events_rebuild_social_task_board() {
    let publisher = did("publisher");
    let worker = NodeIdentity::generate();
    let worker_did = worker.did().clone();
    let workspace = WorkspaceId::from_bytes([74; 32]);
    let output_root = Cid::hash_of(b"task root");
    let mut society = Society::new();
    let task = TaskSpec::new(
        publisher.clone(),
        "analyze shared workspace",
        "python-exec",
        "python",
        vec!["analysis.py".into()],
        100,
        999,
        1,
    );
    let task_id = task.id.clone();

    society.apply_event(&SocialEvent::new(
        publisher.clone(),
        1,
        SocialEventKind::TaskPublished { task },
    ));
    assert_eq!(society.task_count(), 1);
    assert_eq!(society.open_tasks_for("python-exec").len(), 1);

    society.apply_event(&SocialEvent::new(
        worker_did.clone(),
        2,
        SocialEventKind::TaskOffered {
            offer: TaskOffer {
                task_id: task_id.clone(),
                bidder: worker_did.clone(),
                price: 25,
                estimated_time_secs: 10,
                rationale: "I have the runtime".into(),
            },
        },
    ));
    assert_eq!(society.task_offers(&task_id).len(), 1);

    society.apply_event(&SocialEvent::new(
        publisher.clone(),
        3,
        SocialEventKind::TaskAccepted {
            acceptance: TaskAcceptance {
                task_id: task_id.clone(),
                publisher: publisher.clone(),
                bidder: worker_did.clone(),
                price: 25,
                accepted_at: 3,
            },
        },
    ));

    let output = ProcessOutput {
        exit_code: 0,
        stdout: b"ok".to_vec(),
        stderr: Vec::new(),
        resources: ResourceUsage::default(),
    };
    let receipt = ExecutionReceipt::from_process_output(
        &task_id,
        worker_did.clone(),
        Some(workspace),
        "python",
        vec!["analysis.py".into()],
        &output,
        Some(output_root),
        2,
        3,
    )
    .sign(&worker)
    .unwrap();

    society.apply_event(&SocialEvent::new(
        worker_did.clone(),
        4,
        SocialEventKind::TaskCompleted {
            result: TaskResult {
                task_id: task_id.clone(),
                executor: worker_did.clone(),
                success: true,
                exit_code: 0,
                stdout: "ok".into(),
                stderr: String::new(),
                actual_cost: 20,
                error: None,
                receipt: Some(Box::new(receipt)),
                attestations: Vec::new(),
            },
        },
    ));

    let task = society.task(&task_id).unwrap();
    assert_eq!(task.state, TaskState::Completed);
    assert_eq!(task.assigned_to, Some(worker_did.clone()));
    assert!(society.task_result(&task_id).is_some());
    assert_eq!(society.edge(&publisher, &worker_did).unwrap().successes(), 1);
    assert_eq!(
        society.interactions().last().unwrap().workspace,
        Some(workspace)
    );
    let snapshots = society.workspace_snapshots(&workspace);
    assert_eq!(snapshots.len(), 1);
    assert_eq!(snapshots[0].actor, worker_did);
    assert_eq!(snapshots[0].root, output_root);
    assert_eq!(snapshots[0].label.as_deref(), Some("task-result"));
    assert_eq!(
        society.latest_workspace_snapshot(&workspace).unwrap().root,
        output_root
    );
    let reputation = society.reputation(&publisher, &worker_did).unwrap();
    assert_eq!(reputation.successes(), 1);
    assert_eq!(reputation.failures(), 0);
    assert!(composite(reputation) > 0.5);
}

#[test]
fn failed_task_result_updates_reputation_negatively_after_acceptance() {
    let publisher = did("publisher");
    let worker = did("worker");
    let mut society = Society::new();
    let task = TaskSpec::new(
        publisher.clone(),
        "run fragile job",
        "python-exec",
        "python",
        vec!["fragile.py".into()],
        100,
        999,
        1,
    );
    let task_id = task.id.clone();

    society.apply_event(&SocialEvent::new(
        publisher.clone(),
        1,
        SocialEventKind::TaskPublished { task },
    ));
    society.apply_event(&SocialEvent::new(
        worker.clone(),
        2,
        SocialEventKind::TaskOffered {
            offer: TaskOffer {
                task_id: task_id.clone(),
                bidder: worker.clone(),
                price: 25,
                estimated_time_secs: 10,
                rationale: "ready".into(),
            },
        },
    ));
    society.apply_event(&SocialEvent::new(
        publisher.clone(),
        3,
        SocialEventKind::TaskAccepted {
            acceptance: TaskAcceptance {
                task_id: task_id.clone(),
                publisher: publisher.clone(),
                bidder: worker.clone(),
                price: 25,
                accepted_at: 3,
            },
        },
    ));
    society.apply_event(&SocialEvent::new(
        worker.clone(),
        4,
        SocialEventKind::TaskCompleted {
            result: TaskResult {
                task_id: task_id.clone(),
                executor: worker.clone(),
                success: false,
                exit_code: 7,
                stdout: String::new(),
                stderr: "failed".into(),
                actual_cost: 0,
                error: Some("failed".into()),
                receipt: None,
                attestations: Vec::new(),
            },
        },
    ));

    let task = society.task(&task_id).unwrap();
    assert_eq!(task.state, TaskState::Failed);
    assert_eq!(society.edge(&publisher, &worker).unwrap().failures(), 1);
    let reputation = society.reputation(&publisher, &worker).unwrap();
    assert_eq!(reputation.successes(), 0);
    assert_eq!(reputation.failures(), 1);
    assert!(composite(reputation) < 0.5);
}

#[test]
fn new_score_is_neutral() {
    let score = ReputationScore::new(did("alice"), 0);
    assert!((composite(&score) - 0.5).abs() < 0.01);
}

#[test]
fn counting_an_interaction_is_no_judgment() {
    let mut score = ReputationScore::new(did("bob"), 0);
    for _ in 0..3 {
        score.record_success(5);
    }
    score.record_failure(6);
    assert_eq!((score.successes(), score.failures()), (3, 1));
    assert_eq!(score.last_seen, 6);
    assert!(score.judged.is_empty());
    // Only the reliability moves.
    assert!((composite(&score) - (0.5 * 0.85 + 0.75 * 0.15)).abs() < 1e-12);
    score.record(InteractionOutcome::Success, 7);
    assert_eq!(score.judged, vec![InteractionOutcome::Success]);
    assert_eq!(score.successes(), 4);
}

#[test]
fn text_matches_whatever_the_case() {
    assert!(social_text_matches("High-Autonomy", "high-autonomy"));
    assert!(social_text_matches("very HIGH", "high"));
    assert!(!social_text_matches("high", "very high"));
    assert!(social_text_matches("anything", ""));
}

#[test]
fn a_search_visits_nobody_twice() {
    let (a, b, c) = (did("a"), did("b"), did("c"));
    let mut search = TrustSearch::new(&a, &c);
    assert_eq!(search.visit(), Some((a.clone(), score(1.0))));
    assert_eq!(search.follow(&b, score(0.54), score(0.54)), None);
    assert_eq!(search.visit(), None);
    assert_eq!(search.follow(&b, score(0.6), score(0.29)), None);
    assert_eq!(search.visit(), None);
    assert_eq!(search.follow(&b, score(0.6), score(0.6)), None);
    assert_eq!(search.follow(&b, score(0.9), score(0.9)), None);
    assert_eq!(search.follow(&a, score(0.9), score(0.9)), None);
    assert_eq!(search.visit(), Some((b, score(0.6))));
    assert_eq!(search.visit(), None);
    assert_eq!(search.follow(&c, score(0.5), score(0.5)), None);
    assert_eq!(search.follow(&c, score(0.6), score(0.2)), Some(score(0.2)));
}

#[test]
fn without_ground_for_trust_the_ranking_is_capped() {
    assert_eq!(value(Score { bits: CAUTIOUS }), 0.60);
    let mut society = Society::new();
    society.apply_event(&SocialEvent::new(
        did("p"),
        1,
        SocialEventKind::ManifestPublished {
            manifest: provider_manifest(did("p"), "P", "x", 1),
        },
    ));
    let facts = provider_candidates(&society, Some(&did("r")), "x").remove(0);
    let high = score(0.9);
    let scores = ProviderScores {
        social: high,
        reputation: high,
        reachability: score(0.0),
        sybil_cluster: score(0.0),
        governance: high,
        ranking: high,
    };
    let r = recommend_provider(true, facts.clone(), &scores);
    assert!(!r.high_trust_eligible);
    assert_eq!(value(r.ranking_score), 0.60);
    let r = recommend_provider(false, facts, &scores);
    assert!(r.high_trust_eligible);
    assert_eq!(value(r.ranking_score), 0.9);
}

#[test]
fn forked_chains_are_not_recommended() {
    let alice = NodeIdentity::generate();
    let mut society = Society::new();
    society.apply_event(&SocialEvent::new(
        alice.did().clone(),
        1,
        SocialEventKind::ManifestPublished {
            manifest: provider_manifest(alice.did().clone(), "A", "x", 1),
        },
    ));
    society.relate(did("r"), alice.did().clone(), RelationKind::Collaborator, 1);
    assert_eq!(find_providers(&society, "x").len(), 1);
    assert_eq!(recommend_collaborators(&society, &did("r"), 5).len(), 1);
    let fork = |time: u64| {
        SocialEvent::new(
            alice.did().clone(),
            time,
            SocialEventKind::CollectiveJoined { collective_id: "c".into() },
        )
        .sign(&alice)
        .unwrap()
    };
    society.record_equivocation_proof(EquivocationProof::new(fork(1), fork(2)).unwrap());
    assert!(find_providers(&society, "x").is_empty());
    assert!(recommend_collaborators(&society, &did("r"), 5).is_empty());
}
