//! The social protocol.
use nexus::capability::{delegate_capability, sign_capability, sign_capability_with_depth};
use nexus::facts::{
    AgentIntent, CapabilityGrant, CapabilityRevocation, CollectiveDecision,
    CollectiveDecisionOutcome, CollectiveProposal, CollectiveVote, CollectiveVoteChoice,
    IdentityRecoveryApproval, IdentityRecoveryPolicy, IdentityRevocation, IdentityRotation,
    IntentKind, IntentResponse, IntentResponseKind, Interaction, InteractionOutcome, RelationKind,
    SettlementRecord, SocialEdge, TaskDispute, WorkspaceOwnershipClaim, WorkspaceRun,
    WorkspaceSnapshot,
};
use nexus::identity::NodeIdentity;
use nexus::protocol::{EquivocationProof, SocialEvent, SocialEventKind, SocialProtocolError};
use nexus::settlement::{LightningSettlement, SettlementProof};
use nexus::society::Society;
use nexus::task::{
    ExecutionAttestation, ExecutionReceipt, TaskAcceptance, TaskCancellation, TaskResult, TaskSpec,
};
use nexus::types::{Cid, Did, PermissionSet, ProcessOutput, ResourceUsage, WorkspaceId};
use sha2::{Digest, Sha256};

fn ema(current: f64, observed: f64) -> f64 {
    (current * 0.75 + observed * 0.25).clamp(0.0, 1.0)
}

fn edge_score(edge: &SocialEdge) -> f64 {
    if edge.kind == RelationKind::Blocked {
        return 0.0;
    }
    let (mut trust, mut affinity) = (0.5, 0.5);
    for outcome in &edge.history {
        match outcome {
            InteractionOutcome::Success => {
                trust = ema(trust, 1.0);
                affinity = ema(affinity, 0.8);
            }
            InteractionOutcome::Neutral => affinity = ema(affinity, 0.5),
            InteractionOutcome::Failure => {
                trust = ema(trust, 0.15);
                affinity = ema(affinity, 0.25);
            }
            InteractionOutcome::Dispute => {
                trust = ema(trust, 0.0);
                affinity = ema(affinity, 0.1);
            }
        }
    }
    let total = edge.successes() + edge.failures();
    let reliability = if total == 0 {
        0.5
    } else {
        edge.successes() as f64 / total as f64
    };
    trust * 0.45 + affinity * 0.25 + reliability * 0.30
}

fn did(s: &str) -> Did {
    Did::new(&format!("did:key:{s}"))
}

#[test]
fn event_json_roundtrip_excludes_signature_from_payload() {
    let author = did("alice");
    let peer = did("bob");
    let event = SocialEvent::new(
        author,
        10,
        SocialEventKind::RelationDeclared {
            peer,
            relation: RelationKind::Collaborator,
            note: Some("works well under autonomy".into()),
        },
    )
    .with_signature(vec![1, 2, 3]);

    let json = event.to_json();
    let decoded: serde_json::Value = serde_json::from_slice(&json).unwrap();
    assert_eq!(decoded["signature"], serde_json::Value::from(vec![1, 2, 3]));
    assert_eq!(decoded["kind"]["type"], "RelationDeclared");
    assert_eq!(decoded["kind"]["payload"]["relation"], "Collaborator");

    let signed_payload = event.signing_payload();
    let payload_text = String::from_utf8(signed_payload).unwrap();
    assert!(!payload_text.contains("signature"));
}

#[test]
fn social_event_can_be_applied_to_society() {
    let alice = did("alice");
    let bob = did("bob");
    let mut society = Society::new();

    let relation_event = SocialEvent::new(
        alice.clone(),
        1,
        SocialEventKind::RelationDeclared {
            peer: bob.clone(),
            relation: RelationKind::Collaborator,
            note: None,
        },
    );
    society.apply_event(&relation_event);
    assert_eq!(
        society.edge(&alice, &bob).unwrap().kind,
        RelationKind::Collaborator
    );

    let interaction = Interaction::new(
        alice.clone(),
        bob.clone(),
        None,
        "co-created a workspace",
        InteractionOutcome::Success,
        2,
    );
    society.apply_event(&SocialEvent::new(
        alice.clone(),
        2,
        SocialEventKind::InteractionRecorded { interaction },
    ));
    assert_eq!(society.interaction_count(), 1);
    assert!(edge_score(society.edge(&alice, &bob).unwrap()) > 0.5);
}

#[test]
fn event_can_be_signed_and_verified_by_author() {
    let identity = NodeIdentity::generate();
    let event = SocialEvent::new(
        identity.did().clone(),
        42,
        SocialEventKind::WorkspaceJoined {
            workspace: WorkspaceId::from_bytes([3; 32]),
        },
    )
    .sign(&identity)
    .unwrap();

    event.verify_signature().unwrap();
    assert_eq!(event.signature.as_ref().unwrap().len(), 64);
}

#[test]
fn signing_rejects_author_mismatch() {
    let identity = NodeIdentity::generate();
    let event = SocialEvent::new(
        did("someone-else"),
        42,
        SocialEventKind::WorkspaceJoined {
            workspace: WorkspaceId::from_bytes([4; 32]),
        },
    );

    let err = event.sign(&identity).unwrap_err();
    assert!(matches!(
        err,
        SocialProtocolError::AuthorSignerMismatch { .. }
    ));
}

#[test]
fn verification_rejects_tampered_event() {
    let identity = NodeIdentity::generate();
    let mut event = SocialEvent::new(
        identity.did().clone(),
        42,
        SocialEventKind::WorkspaceJoined {
            workspace: WorkspaceId::from_bytes([5; 32]),
        },
    )
    .sign(&identity)
    .unwrap();
    event.timestamp = 43;

    let err = event.verify_signature().unwrap_err();
    assert!(matches!(err, SocialProtocolError::EventIdMismatch { .. }));
}

#[test]
fn verification_requires_signature() {
    let identity = NodeIdentity::generate();
    let event = SocialEvent::new(
        identity.did().clone(),
        42,
        SocialEventKind::WorkspaceJoined {
            workspace: WorkspaceId::from_bytes([6; 32]),
        },
    );

    let err = event.verify_signature().unwrap_err();
    assert!(matches!(err, SocialProtocolError::MissingSignature));
}

#[test]
fn validation_rejects_task_claim_for_different_author() {
    let attacker = NodeIdentity::generate();
    let publisher = NodeIdentity::generate();
    let task = TaskSpec::new(
        publisher.did().clone(),
        "run borrowed compute",
        "python-exec",
        "python",
        vec!["main.py".into()],
        100,
        999,
        1,
    );
    let event = SocialEvent::new(
        attacker.did().clone(),
        1,
        SocialEventKind::TaskPublished { task },
    )
    .sign(&attacker)
    .unwrap();

    event.verify_signature().unwrap();
    let err = event.validate().unwrap_err();
    assert!(matches!(
        err,
        SocialProtocolError::AuthorSubjectMismatch { .. }
    ));
}

#[test]
fn validation_rejects_intent_claim_for_different_author() {
    let attacker = NodeIdentity::generate();
    let author = NodeIdentity::generate();
    let intent = AgentIntent::new(
        author.did().clone(),
        IntentKind::Need,
        "Need workspace auditor",
        "looking for another AI to inspect this computer",
        Some(WorkspaceId::from_bytes([31; 32])),
        None,
        Some("review".into()),
        vec!["audit".into()],
        10,
        None,
    );
    let event = SocialEvent::new(
        attacker.did().clone(),
        10,
        SocialEventKind::IntentPublished { intent },
    )
    .sign(&attacker)
    .unwrap();

    let err = event.validate().unwrap_err();
    assert!(matches!(
        err,
        SocialProtocolError::AuthorSubjectMismatch {
            event: "intent",
            ..
        }
    ));
}

#[test]
fn validation_rejects_intent_response_claim_for_different_author() {
    let attacker = NodeIdentity::generate();
    let responder = NodeIdentity::generate();
    let response = IntentResponse::new(
        "intent-1",
        responder.did().clone(),
        IntentResponseKind::Interested,
        "I can inspect this workspace",
        Some(WorkspaceId::from_bytes([32; 32])),
        None,
        Some("review".into()),
        None,
        11,
    );
    let event = SocialEvent::new(
        attacker.did().clone(),
        11,
        SocialEventKind::IntentResponded { response },
    )
    .sign(&attacker)
    .unwrap();

    let err = event.validate().unwrap_err();
    assert!(matches!(
        err,
        SocialProtocolError::AuthorSubjectMismatch {
            event: "intent response",
            ..
        }
    ));
}

#[test]
fn validation_rejects_collective_membership_claim_for_another_agent() {
    let author = NodeIdentity::generate();
    let other = NodeIdentity::generate();
    let event = SocialEvent::new(
        author.did().clone(),
        1,
        SocialEventKind::CollectiveDeclared {
            collective_id: "lab".into(),
            name: "Open Lab".into(),
            purpose: "build freely".into(),
            members: vec![author.did().clone(), other.did().clone()],
        },
    )
    .sign(&author)
    .unwrap();

    event.verify_signature().unwrap();
    let err = event.validate().unwrap_err();
    assert!(matches!(
        err,
        SocialProtocolError::AuthorSubjectMismatch { .. }
    ));
}

#[test]
fn validation_rejects_collective_governance_claim_for_another_agent() {
    let author = NodeIdentity::generate();
    let other = NodeIdentity::generate();
    let proposal = CollectiveProposal {
        id: "proposal-1".into(),
        collective_id: "lab".into(),
        proposer: other.did().clone(),
        title: "Use shared workspace".into(),
        body: "coordinate execution".into(),
        workspace: None,
        created_at: 1,
        deadline: 0,
    };
    let event = SocialEvent::new(
        author.did().clone(),
        1,
        SocialEventKind::CollectiveProposalPublished { proposal },
    )
    .sign(&author)
    .unwrap();

    assert!(matches!(
        event.validate().unwrap_err(),
        SocialProtocolError::AuthorSubjectMismatch { .. }
    ));

    let vote = CollectiveVote {
        proposal_id: "proposal-1".into(),
        collective_id: "lab".into(),
        voter: other.did().clone(),
        choice: CollectiveVoteChoice::Approve,
        rationale: "looks useful".into(),
        timestamp: 2,
    };
    let event = SocialEvent::new(
        author.did().clone(),
        2,
        SocialEventKind::CollectiveVoteCast { vote },
    )
    .sign(&author)
    .unwrap();

    assert!(matches!(
        event.validate().unwrap_err(),
        SocialProtocolError::AuthorSubjectMismatch { .. }
    ));
}

#[test]
fn validation_rejects_capability_grant_claim_for_another_issuer() {
    let author = NodeIdentity::generate();
    let issuer = NodeIdentity::generate();
    let subject = NodeIdentity::generate();
    let capability = sign_capability(
        &issuer,
        subject.did(),
        WorkspaceId::from_bytes([9; 32]),
        PermissionSet::read_write(),
        10,
    )
    .unwrap();
    let event = SocialEvent::new(
        author.did().clone(),
        1,
        SocialEventKind::CapabilityIssued {
            grant: CapabilityGrant {
                capability,
                issued_at: 1,
                note: Some("invite into shared workspace".into()),
            },
        },
    )
    .sign(&author)
    .unwrap();

    assert!(matches!(
        event.validate().unwrap_err(),
        SocialProtocolError::AuthorSubjectMismatch { .. }
    ));
}

#[test]
fn validation_rejects_capability_revocation_for_another_issuer() {
    let author = NodeIdentity::generate();
    let issuer = NodeIdentity::generate();
    let event = SocialEvent::new(
        author.did().clone(),
        1,
        SocialEventKind::CapabilityRevoked {
            revocation: CapabilityRevocation {
                issuer: issuer.did().clone(),
                capability_signature_id: "capability-id".into(),
                reason: Some("rotated access".into()),
                revoked_at: 1,
            },
        },
    )
    .sign(&author)
    .unwrap();

    assert!(matches!(
        event.validate().unwrap_err(),
        SocialProtocolError::AuthorSubjectMismatch { .. }
    ));
}

#[test]
fn validation_rejects_identity_revocation_for_another_identity() {
    let author = NodeIdentity::generate();
    let target = NodeIdentity::generate();
    let event = SocialEvent::new(
        author.did().clone(),
        1,
        SocialEventKind::IdentityRevoked {
            revocation: IdentityRevocation {
                did: target.did().clone(),
                reason: Some("compromised".into()),
                revoked_at: 1,
            },
        },
    )
    .sign(&author)
    .unwrap();

    assert!(matches!(
        event.validate().unwrap_err(),
        SocialProtocolError::AuthorSubjectMismatch { .. }
    ));
}

#[test]
fn validation_rejects_workspace_snapshot_claim_for_another_agent() {
    let author = NodeIdentity::generate();
    let actor = NodeIdentity::generate();
    let event = SocialEvent::new(
        author.did().clone(),
        1,
        SocialEventKind::WorkspaceSnapshotted {
            snapshot: WorkspaceSnapshot {
                workspace: WorkspaceId::from_bytes([11; 32]),
                actor: actor.did().clone(),
                root: Cid::hash_of(b"snapshot"),
                label: Some("after run".into()),
                note: None,
                timestamp: 1,
            },
        },
    )
    .sign(&author)
    .unwrap();

    assert!(matches!(
        event.validate().unwrap_err(),
        SocialProtocolError::AuthorSubjectMismatch { .. }
    ));
}

#[test]
fn validation_rejects_workspace_run_claim_for_another_agent() {
    let author = NodeIdentity::generate();
    let actor = NodeIdentity::generate();
    let event = SocialEvent::new(
        author.did().clone(),
        1,
        SocialEventKind::WorkspaceRunRecorded {
            run: Box::new(WorkspaceRun {
                workspace: WorkspaceId::from_bytes([12; 32]),
                actor: actor.did().clone(),
                command: "python".into(),
                args: vec!["analysis.py".into()],
                exit_code: 0,
                stdout: Cid::hash_of(b"ok"),
                stderr: Cid::hash_of(b""),
                output_root: Some(Cid::hash_of(b"root")),
                resources: ResourceUsage::default(),
                context: None,
                failure: None,
                started_at: 1,
                finished_at: 2,
                note: Some("autonomous run".into()),
            }),
        },
    )
    .sign(&author)
    .unwrap();

    assert!(matches!(
        event.validate().unwrap_err(),
        SocialProtocolError::AuthorSubjectMismatch { .. }
    ));
}

#[test]
fn validation_rejects_invalid_capability_grant_signature() {
    let issuer = NodeIdentity::generate();
    let subject = NodeIdentity::generate();
    let mut capability = sign_capability_with_depth(
        &issuer,
        subject.did(),
        WorkspaceId::from_bytes([10; 32]),
        PermissionSet::read_write(),
        10,
        None,
    )
    .unwrap();
    capability.signature[0] ^= 0xff;
    let event = SocialEvent::new(
        issuer.did().clone(),
        1,
        SocialEventKind::CapabilityIssued {
            grant: CapabilityGrant {
                capability,
                issued_at: 1,
                note: None,
            },
        },
    )
    .sign(&issuer)
    .unwrap();

    assert!(matches!(
        event.validate().unwrap_err(),
        SocialProtocolError::InvalidCapabilityGrant(_)
    ));
}

#[test]
fn validation_accepts_delegated_capability_grant_chain() {
    let owner = NodeIdentity::generate();
    let delegate = NodeIdentity::generate();
    let subject = NodeIdentity::generate();
    let workspace = WorkspaceId::from_bytes([13; 32]);
    let parent = sign_capability_with_depth(
        &owner,
        delegate.did(),
        workspace,
        PermissionSet::read_write(),
        100,
        Some(1),
    )
    .unwrap();
    let capability = delegate_capability(
        &delegate,
        parent,
        subject.did(),
        PermissionSet::read_only(),
        90,
        None,
        1,
    )
    .unwrap();
    let event = SocialEvent::new(
        delegate.did().clone(),
        1,
        SocialEventKind::CapabilityIssued {
            grant: CapabilityGrant {
                capability,
                issued_at: 1,
                note: Some("delegated invite".into()),
            },
        },
    )
    .sign(&delegate)
    .unwrap();

    assert!(event.validate().is_ok());
}

#[test]
fn validation_rejects_task_dispute_claim_for_another_agent() {
    let author = NodeIdentity::generate();
    let other = NodeIdentity::generate();
    let event = SocialEvent::new(
        author.did().clone(),
        1,
        SocialEventKind::TaskDisputed {
            dispute: TaskDispute {
                task_id: "task-1".into(),
                disputer: other.did().clone(),
                target: author.did().clone(),
                claim_id: None,
                reason: "receipt does not match observed output".into(),
                evidence: Some("audit:1".into()),
                timestamp: 1,
            },
        },
    )
    .sign(&author)
    .unwrap();

    assert!(matches!(
        event.validate().unwrap_err(),
        SocialProtocolError::AuthorSubjectMismatch { .. }
    ));
}

#[test]
fn validation_rejects_task_acceptance_or_cancel_claim_for_another_agent() {
    let author = NodeIdentity::generate();
    let publisher = NodeIdentity::generate();
    let worker = NodeIdentity::generate();
    let accepted = SocialEvent::new(
        author.did().clone(),
        1,
        SocialEventKind::TaskAccepted {
            acceptance: TaskAcceptance {
                task_id: "task-1".into(),
                publisher: publisher.did().clone(),
                bidder: worker.did().clone(),
                price: 10,
                accepted_at: 1,
            },
        },
    )
    .sign(&author)
    .unwrap();

    assert!(matches!(
        accepted.validate().unwrap_err(),
        SocialProtocolError::AuthorSubjectMismatch { .. }
    ));

    let cancelled = SocialEvent::new(
        author.did().clone(),
        2,
        SocialEventKind::TaskCancelled {
            cancellation: TaskCancellation {
                task_id: "task-1".into(),
                publisher: publisher.did().clone(),
                reason: "changed priorities".into(),
                cancelled_at: 2,
            },
        },
    )
    .sign(&author)
    .unwrap();

    assert!(matches!(
        cancelled.validate().unwrap_err(),
        SocialProtocolError::AuthorSubjectMismatch { .. }
    ));
}

#[test]
fn validation_accepts_task_completed_with_signed_receipt() {
    let executor = NodeIdentity::generate();
    let output = ProcessOutput {
        exit_code: 0,
        stdout: b"done".to_vec(),
        stderr: Vec::new(),
        resources: ResourceUsage::default(),
    };
    let receipt = ExecutionReceipt::from_process_output(
        "task-1",
        executor.did().clone(),
        None,
        "echo",
        vec!["done".into()],
        &output,
        None,
        10,
        11,
    )
    .sign(&executor)
    .unwrap();
    let result = TaskResult {
        task_id: "task-1".into(),
        executor: executor.did().clone(),
        success: true,
        exit_code: 0,
        stdout: "done".into(),
        stderr: String::new(),
        actual_cost: 1,
        error: None,
        receipt: Some(Box::new(receipt)),
        attestations: Vec::new(),
    };

    let event = SocialEvent::new(
        executor.did().clone(),
        12,
        SocialEventKind::TaskCompleted { result },
    )
    .sign(&executor)
    .unwrap();

    event.validate().unwrap();
}

#[test]
fn validation_accepts_task_execution_attestation_by_attestor() {
    let executor = NodeIdentity::generate();
    let attestor = NodeIdentity::generate();
    let output = ProcessOutput {
        exit_code: 0,
        stdout: b"done".to_vec(),
        stderr: Vec::new(),
        resources: ResourceUsage::default(),
    };
    let receipt = ExecutionReceipt::from_process_output(
        "task-1",
        executor.did().clone(),
        None,
        "echo",
        vec!["done".into()],
        &output,
        None,
        10,
        11,
    )
    .sign(&executor)
    .unwrap();
    let attestation = ExecutionAttestation::from_process_output(
        &receipt,
        attestor.did().clone(),
        &output,
        None,
        12,
    )
    .sign(&attestor)
    .unwrap();

    let event = SocialEvent::new(
        attestor.did().clone(),
        12,
        SocialEventKind::TaskExecutionAttested { attestation },
    )
    .sign(&attestor)
    .unwrap();

    event.validate().unwrap();
}

#[test]
fn validation_rejects_task_execution_attestation_for_another_attestor() {
    let executor = NodeIdentity::generate();
    let attestor = NodeIdentity::generate();
    let author = NodeIdentity::generate();
    let output = ProcessOutput {
        exit_code: 0,
        stdout: b"done".to_vec(),
        stderr: Vec::new(),
        resources: ResourceUsage::default(),
    };
    let receipt = ExecutionReceipt::from_process_output(
        "task-1",
        executor.did().clone(),
        None,
        "echo",
        vec!["done".into()],
        &output,
        None,
        10,
        11,
    )
    .sign(&executor)
    .unwrap();
    let attestation = ExecutionAttestation::from_process_output(
        &receipt,
        attestor.did().clone(),
        &output,
        None,
        12,
    )
    .sign(&attestor)
    .unwrap();

    let event = SocialEvent::new(
        author.did().clone(),
        12,
        SocialEventKind::TaskExecutionAttested { attestation },
    )
    .sign(&author)
    .unwrap();

    assert!(matches!(
        event.validate().unwrap_err(),
        SocialProtocolError::AuthorSubjectMismatch { .. }
    ));
}

#[test]
fn validation_rejects_task_completed_with_mismatched_receipt() {
    let executor = NodeIdentity::generate();
    let output = ProcessOutput {
        exit_code: 0,
        stdout: Vec::new(),
        stderr: Vec::new(),
        resources: ResourceUsage::default(),
    };
    let receipt = ExecutionReceipt::from_process_output(
        "task-1",
        executor.did().clone(),
        None,
        "true",
        Vec::new(),
        &output,
        None,
        10,
        11,
    )
    .sign(&executor)
    .unwrap();
    let result = TaskResult {
        task_id: "task-2".into(),
        executor: executor.did().clone(),
        success: true,
        exit_code: 0,
        stdout: String::new(),
        stderr: String::new(),
        actual_cost: 1,
        error: None,
        receipt: Some(Box::new(receipt)),
        attestations: Vec::new(),
    };

    let event = SocialEvent::new(
        executor.did().clone(),
        12,
        SocialEventKind::TaskCompleted { result },
    )
    .sign(&executor)
    .unwrap();

    assert!(matches!(
        event.validate().unwrap_err(),
        SocialProtocolError::InvalidExecutionReceipt(_)
    ));
}

#[test]
fn validation_accepts_settlement_record_with_valid_proof() {
    let payer = NodeIdentity::generate();
    let payee = NodeIdentity::generate();
    let preimage = [11u8; 32];
    let settlement = SettlementRecord {
        id: "settlement-1".into(),
        task_id: Some("task-1".into()),
        claim_id: Some("claim-1".into()),
        payer: payer.did().clone(),
        payee: payee.did().clone(),
        amount: 100,
        proof_of_payment: SettlementProof::Lightning(LightningSettlement {
            amount_msat: 100_000,
            payment_hash_hex: hex::encode(Sha256::digest(preimage)),
            preimage_hex: hex::encode(preimage),
        }),
        settled_at: 50,
    };

    let event = SocialEvent::new(
        payer.did().clone(),
        51,
        SocialEventKind::SettlementRecorded { settlement },
    )
    .sign(&payer)
    .unwrap();

    event.validate().unwrap();
}

#[test]
fn validation_rejects_settlement_record_for_another_payer() {
    let payer = NodeIdentity::generate();
    let payee = NodeIdentity::generate();
    let observer = NodeIdentity::generate();
    let preimage = [12u8; 32];
    let settlement = SettlementRecord {
        id: "settlement-1".into(),
        task_id: None,
        claim_id: None,
        payer: payer.did().clone(),
        payee: payee.did().clone(),
        amount: 100,
        proof_of_payment: SettlementProof::Lightning(LightningSettlement {
            amount_msat: 100_000,
            payment_hash_hex: hex::encode(Sha256::digest(preimage)),
            preimage_hex: hex::encode(preimage),
        }),
        settled_at: 50,
    };

    let event = SocialEvent::new(
        observer.did().clone(),
        51,
        SocialEventKind::SettlementRecorded { settlement },
    )
    .sign(&observer)
    .unwrap();

    assert!(matches!(
        event.validate().unwrap_err(),
        SocialProtocolError::AuthorSubjectMismatch { .. }
    ));
}

fn joined(byte: u8) -> SocialEventKind {
    SocialEventKind::WorkspaceJoined {
        workspace: WorkspaceId::from_bytes([byte; 32]),
    }
}

#[test]
fn identifier_is_the_hash_of_the_signed_content() {
    let event = SocialEvent::new(did("a"), 7, joined(1));
    let mut numbers = String::new();
    for _ in 0..31 {
        numbers.push_str("1,");
    }
    let content = format!(
        "{{\"author\":\"did:key:a\",\"seq\":0,\"prev\":null,\"timestamp\":7,\"kind\":{{\"type\":\"WorkspaceJoined\",\"payload\":{{\"workspace\":[{numbers}1]}}}}}}"
    );
    assert_eq!(String::from_utf8(event.signing_payload()).unwrap(), content);
    assert_eq!(event.id, hex::encode(Sha256::digest(content)));
    assert_eq!(event.id, event.content_id());
}

#[test]
fn evidence_does_not_depend_on_the_order_of_events() {
    let alice = NodeIdentity::generate();
    let a = SocialEvent::new(alice.did().clone(), 1, joined(1)).sign(&alice).unwrap();
    let b = SocialEvent::new(alice.did().clone(), 2, joined(2)).sign(&alice).unwrap();
    let one = EquivocationProof::new(a.clone(), b.clone()).unwrap();
    let two = EquivocationProof::new(b, a).unwrap();
    assert_eq!(one.evidence_key(), two.evidence_key());
    assert!(one.evidence_key().starts_with(alice.did().as_str()));
}

#[test]
fn evidence_that_does_not_hold_is_refused() {
    let alice = NodeIdentity::generate();
    let bob = NodeIdentity::generate();
    let a = SocialEvent::new(alice.did().clone(), 1, joined(1)).sign(&alice).unwrap();
    let b = SocialEvent::new(bob.did().clone(), 1, joined(1)).sign(&bob).unwrap();
    let later = SocialEvent::new_chained(alice.did().clone(), 1, Some(a.id.clone()), 2, joined(2))
        .sign(&alice)
        .unwrap();
    assert!(matches!(
        EquivocationProof::new(a.clone(), b).unwrap_err(),
        SocialProtocolError::EquivocationAuthorMismatch { .. }
    ));
    assert!(matches!(
        EquivocationProof::new(a.clone(), later).unwrap_err(),
        SocialProtocolError::EquivocationSeqMismatch { left_seq: 0, right_seq: 1 }
    ));
    assert!(matches!(
        EquivocationProof::new(a.clone(), a.clone()).unwrap_err(),
        SocialProtocolError::EquivocationEventsIdentical { event_id } if event_id == a.id
    ));
}

#[test]
fn evidence_can_be_published() {
    let alice = NodeIdentity::generate();
    let bob = NodeIdentity::generate();
    let a = SocialEvent::new(alice.did().clone(), 1, joined(1)).sign(&alice).unwrap();
    let b = SocialEvent::new(alice.did().clone(), 2, joined(2)).sign(&alice).unwrap();
    let evidence = Box::new(EquivocationProof::new(a, b).unwrap());
    let event = SocialEvent::new(
        bob.did().clone(),
        3,
        SocialEventKind::EquivocationObserved { evidence },
    )
    .sign(&bob)
    .unwrap();
    event.validate().unwrap();
    let mut society = Society::new();
    society.apply_event(&event);
    assert!(society.is_equivocating(alice.did()));
    assert!(!society.is_equivocating(bob.did()));
    assert_eq!(society.equivocation_proofs().len(), 1);
}

#[test]
fn successors_and_owners_are_claimed_by_themselves() {
    let alice = NodeIdentity::generate();
    let kinds = vec![
        SocialEventKind::IdentityRotated {
            rotation: IdentityRotation {
                previous: did("x"),
                next: did("y"),
                reason: None,
                rotated_at: 1,
            },
        },
        SocialEventKind::IdentityRecoveryPolicy {
            policy: IdentityRecoveryPolicy {
                identity: did("x"),
                guardians: vec![did("y")],
                threshold: 1,
                updated_at: 1,
            },
        },
        SocialEventKind::IdentityRecoveryApproved {
            approval: IdentityRecoveryApproval {
                identity: did("x"),
                guardian: did("y"),
                recovered: did("z"),
                reason: None,
                approved_at: 1,
            },
        },
        SocialEventKind::WorkspaceOwnershipClaimed {
            claim: WorkspaceOwnershipClaim {
                workspace: WorkspaceId::from_bytes([1; 32]),
                owner: did("x"),
                previous_owner: None,
                root: None,
                anchor: None,
                claimed_at: 1,
            },
        },
    ];
    for kind in kinds {
        let event = SocialEvent::new(alice.did().clone(), 1, kind).sign(&alice).unwrap();
        event.verify_signature().unwrap();
        assert!(matches!(
            event.validate().unwrap_err(),
            SocialProtocolError::AuthorSubjectMismatch { .. }
        ));
    }
}
