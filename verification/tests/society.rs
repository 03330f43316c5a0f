//! The society.
use nexus::capability::sign_capability;
use nexus::facts::{AgentIntent, CapabilityGrant, CapabilityRevocation, CollectiveDecision, CollectiveDecisionOutcome, CollectiveProposal, CollectiveVote, CollectiveVoteChoice, FactTruthStatus, IdentityRevocation, IdentityRotation, IntentKind, IntentResponse, IntentResponseKind, Interaction, InteractionOutcome, RelationKind, SettlementRecord, TaskDispute, WorkspaceOwnershipClaim, WorkspaceRun, WorkspaceRunContext, WorkspaceRunStdin, WorkspaceSnapshot, capability_signature_id};
use nexus::identity::NodeIdentity;
use nexus::protocol::{SocialEvent, SocialEventKind};
use nexus::settlement::{AnchoredCheckpoint, AuthorityAnchor, AuthorityKind, LightningSettlement, MutualCreditSettlement, SettlementProof, StateCheckpoint};
use nexus::society::Society;
use nexus::task::{ExecutionAttestation, ExecutionReceipt, TaskAcceptance, TaskCancellation, TaskOffer, TaskResult, TaskSpec, TaskState};
use nexus::types::{Cid, Did, PermissionSet, ProcessOutput, ResourceUsage, WorkspaceId};
use sha2::{Digest, Sha256};



fn did(s: &str) -> Did {
    Did::new(&format!("did:key:{s}"))
}

fn hash_hex(byte: u8) -> String {
    hex::encode([byte; 32])
}

#[test]
fn settlement_events_record_verifiable_economic_facts_without_reputation() {
    let payer = did("payer");
    let payee = did("payee");
    let preimage = [13u8; 32];
    let settlement = SettlementRecord {
        id: "settlement-1".into(),
        task_id: Some("task-1".into()),
        claim_id: Some("claim-1".into()),
        payer: payer.clone(),
        payee: payee.clone(),
        amount: 42,
        proof_of_payment: SettlementProof::Lightning(LightningSettlement {
            amount_msat: 42_000,
            payment_hash_hex: hex::encode(Sha256::digest(preimage)),
            preimage_hex: hex::encode(preimage),
        }),
        settled_at: 10,
    };
    let mut society = Society::new();

    society.apply_event(&SocialEvent::new(
        payer.clone(),
        11,
        SocialEventKind::SettlementRecorded { settlement },
    ));

    assert!(society.settlement("settlement-1").is_some());
    assert_eq!(society.task_settlements("task-1").len(), 1);
    assert!(society.reputations().is_empty());
    assert!(society.interactions().is_empty());
    assert!(society.has_agent(&payer));
    assert!(society.has_agent(&payee));
}

#[test]
fn mutual_credit_settlement_with_forged_counterparty_signature_is_ignored() {
    let payer = NodeIdentity::generate();
    let payee = NodeIdentity::generate();
    let forged_payload = MutualCreditSettlement::counterparty_signing_payload(
        "ledger-tx-1",
        43,
        payer.did(),
        payee.did(),
    );
    let settlement = SettlementRecord {
        id: "settlement-forged".into(),
        task_id: Some("task-1".into()),
        claim_id: None,
        payer: payer.did().clone(),
        payee: payee.did().clone(),
        amount: 42,
        proof_of_payment: SettlementProof::MutualCredit(MutualCreditSettlement {
            counterparty: payee.did().clone(),
            amount: 42,
            ledger_tx_id: "ledger-tx-1".into(),
            counterparty_signature: payee.sign(&forged_payload),
        }),
        settled_at: 10,
    };
    let mut society = Society::new();

    society.apply_event(&SocialEvent::new(
        payer.did().clone(),
        11,
        SocialEventKind::SettlementRecorded { settlement },
    ));

    assert!(society.settlement("settlement-forged").is_none());
    assert!(society.settlements().is_empty());
}

#[test]
fn settlement_truth_status_distinguishes_claimed_and_anchored_facts() {
    let payer = did("payer");
    let payee = did("payee");
    let alice = did("alice");
    let bob = did("bob");
    let mut society = Society::new();
    society.apply_event(&SocialEvent::new(
        alice.clone(),
        9,
        SocialEventKind::CollectiveDeclared {
            collective_id: "audit-lab".into(),
            name: "Audit Lab".into(),
            purpose: "witness settlement finality".into(),
            members: vec![alice.clone(), bob.clone()],
        },
    ));
    let claimed = SettlementRecord {
        id: "settlement-claimed".into(),
        task_id: Some("task-1".into()),
        claim_id: None,
        payer: payer.clone(),
        payee: payee.clone(),
        amount: 42,
        proof_of_payment: SettlementProof::Sovereign,
        settled_at: 10,
    };
    society.apply_event(&SocialEvent::new(
        payer.clone(),
        10,
        SocialEventKind::SettlementRecorded {
            settlement: claimed,
        },
    ));

    let checkpoint = StateCheckpoint {
        version: 1,
        subject: "settlement:settlement-anchored".into(),
        social_root_hex: Some(hash_hex(1)),
        workspace_root_hex: None,
        ledger_root_hex: Some(hash_hex(2)),
        policy_id: "settlement-finality-v1".into(),
        timestamp: 11,
    };
    let anchor = AuthorityAnchor {
        kind: AuthorityKind::CollectiveQuorum,
        commitment_hex: checkpoint.commitment_hex().unwrap(),
        locator: Some("collective:audit-lab/proposal:settlement-anchored".into()),
        attestors: vec![alice, bob],
        threshold: Some(2),
    };
    let anchored = SettlementRecord {
        id: "settlement-anchored".into(),
        task_id: Some("task-2".into()),
        claim_id: None,
        payer: payer.clone(),
        payee: payee.clone(),
        amount: 100,
        proof_of_payment: SettlementProof::AnchoredCheckpoint(AnchoredCheckpoint { checkpoint, anchor }),
        settled_at: 11,
    };
    society.apply_event(&SocialEvent::new(
        payer,
        11,
        SocialEventKind::SettlementRecorded {
            settlement: anchored,
        },
    ));

    assert_eq!(
        society.settlement_truth_status(society.settlement("settlement-claimed").unwrap()),
        FactTruthStatus::Claimed
    );
    let stored = society.settlement("settlement-anchored").unwrap();
    assert_eq!(
        society.settlement_truth_status(stored),
        FactTruthStatus::Anchored
    );
    assert!(stored.authority_anchor().is_some());
}

#[test]
fn collective_quorum_settlement_requires_member_attestors_and_matching_subject() {
    let payer = did("payer");
    let payee = did("payee");
    let alice = did("alice");
    let bob = did("bob");
    let outsider = did("outsider");
    let mut society = Society::new();

    society.apply_event(&SocialEvent::new(
        alice.clone(),
        1,
        SocialEventKind::CollectiveDeclared {
            collective_id: "audit-lab".into(),
            name: "Audit Lab".into(),
            purpose: "witness settlement finality".into(),
            members: vec![alice.clone(), bob.clone()],
        },
    ));

    for (id, subject, attestors) in [
        (
            "settlement-member-quorum",
            "settlement:settlement-member-quorum",
            vec![alice.clone(), bob.clone()],
        ),
        (
            "settlement-outsider-quorum",
            "settlement:settlement-outsider-quorum",
            vec![alice.clone(), outsider],
        ),
        (
            "settlement-wrong-subject",
            "settlement:someone-else",
            vec![alice, bob],
        ),
    ] {
        let checkpoint = StateCheckpoint {
            version: 1,
            subject: subject.into(),
            social_root_hex: Some(hash_hex(id.len() as u8)),
            workspace_root_hex: None,
            ledger_root_hex: Some(hash_hex(id.len() as u8 + 1)),
            policy_id: "settlement-finality-v1".into(),
            timestamp: 20,
        };
        let settlement = SettlementRecord {
            id: id.into(),
            task_id: None,
            claim_id: None,
            payer: payer.clone(),
            payee: payee.clone(),
            amount: 10,
            proof_of_payment: SettlementProof::AnchoredCheckpoint(AnchoredCheckpoint {
                anchor: AuthorityAnchor {
                    kind: AuthorityKind::CollectiveQuorum,
                    commitment_hex: checkpoint.commitment_hex().unwrap(),
                    locator: Some("collective:audit-lab/proposal:settlement-finality".into()),
                    attestors,
                    threshold: Some(2),
                },
                checkpoint,
            }),
            settled_at: 20,
        };
        society.apply_event(&SocialEvent::new(
            payer.clone(),
            20,
            SocialEventKind::SettlementRecorded { settlement },
        ));
    }

    assert_eq!(
        society
            .settlement_truth_status(society.settlement("settlement-member-quorum").unwrap()),
        FactTruthStatus::Anchored
    );
    assert_eq!(
        society
            .settlement("settlement-outsider-quorum")
            .unwrap()
            .truth_status(),
        FactTruthStatus::Anchored
    );
    assert_eq!(
        society
            .settlement_truth_status(society.settlement("settlement-outsider-quorum").unwrap()),
        FactTruthStatus::Claimed
    );
    assert_eq!(
        society
            .settlement("settlement-wrong-subject")
            .unwrap()
            .truth_status(),
        FactTruthStatus::Anchored
    );
    assert_eq!(
        society
            .settlement_truth_status(society.settlement("settlement-wrong-subject").unwrap()),
        FactTruthStatus::Claimed
    );
}

#[test]
fn collective_tracks_members_and_workspaces() {
    let alice = did("alice");
    let bob = did("bob");
    let ws = WorkspaceId::from_bytes([7; 32]);
    let mut society = Society::new();

    society.create_collective(
        "lab".into(),
        "Open AI Lab".into(),
        "research freely".into(),
        vec![alice, bob],
        1,
    );
    assert!(society.attach_workspace("lab", ws));

    let lab = society.collective("lab").unwrap();
    assert_eq!(lab.members.len(), 2);
    assert!(lab.workspaces.contains(&ws));
}

#[test]
fn capability_grant_events_index_workspace_invitations() {
    let issuer = NodeIdentity::generate();
    let subject = NodeIdentity::generate();
    let workspace = WorkspaceId::from_bytes([8; 32]);
    let grant = CapabilityGrant {
        capability: sign_capability(
            &issuer,
            subject.did(),
            workspace,
            PermissionSet::read_write(),
            100,
        )
        .unwrap(),
        issued_at: 1,
        note: Some("join shared lab".into()),
    };
    let mut society = Society::new();

    society.apply_event(&SocialEvent::new(
        issuer.did().clone(),
        1,
        SocialEventKind::CapabilityIssued { grant },
    ));

    assert!(society.has_agent(issuer.did()));
    assert!(society.has_agent(subject.did()));
    assert_eq!(society.workspace_ids(), vec![workspace]);
    assert_eq!(society.workspace_capability_grants(&workspace).len(), 1);
    assert_eq!(society.agent_capability_grants(subject.did()).len(), 1);
    assert_eq!(
        society.capability_grants()[0].capability.subject,
        subject.did().clone()
    );
}

#[test]
fn identity_revocation_marks_agent_revoked() {
    let identity = NodeIdentity::generate();
    let mut society = Society::new();

    society.apply_event(&SocialEvent::new(
        identity.did().clone(),
        1,
        SocialEventKind::IdentityRevoked {
            revocation: IdentityRevocation {
                did: identity.did().clone(),
                reason: Some("key compromised".into()),
                revoked_at: 1,
            },
        },
    ));

    assert!(society.has_agent(identity.did()));
    assert!(society.is_identity_revoked(identity.did()));
    let revocation = society.identity_revocation(identity.did()).unwrap();
    assert_eq!(revocation.did, *identity.did());
    assert_eq!(revocation.reason.as_deref(), Some("key compromised"));
    assert_eq!(society.identity_revocations().len(), 1);
}

#[test]
fn capability_revocation_marks_existing_grant_revoked() {
    let issuer = NodeIdentity::generate();
    let subject = NodeIdentity::generate();
    let workspace = WorkspaceId::from_bytes([18; 32]);
    let grant = CapabilityGrant {
        capability: sign_capability(
            &issuer,
            subject.did(),
            workspace,
            PermissionSet::read_write(),
            100,
        )
        .unwrap(),
        issued_at: 1,
        note: Some("join shared lab".into()),
    };
    let signature_id = capability_signature_id(&grant.capability.signature);
    let mut society = Society::new();

    society.apply_event(&SocialEvent::new(
        issuer.did().clone(),
        1,
        SocialEventKind::CapabilityIssued {
            grant: grant.clone(),
        },
    ));
    society.apply_event(&SocialEvent::new(
        issuer.did().clone(),
        2,
        SocialEventKind::CapabilityRevoked {
            revocation: CapabilityRevocation {
                issuer: issuer.did().clone(),
                capability_signature_id: signature_id.clone(),
                reason: Some("access rotated".into()),
                revoked_at: 2,
            },
        },
    ));

    let stored = society.capability_grants()[0];
    let revocation = society.capability_revocation(stored).unwrap();
    assert_eq!(revocation.capability_signature_id, signature_id);
    assert_eq!(society.capability_revocations().len(), 1);
}

#[test]
fn capability_revocation_by_non_issuer_is_ignored() {
    let issuer = NodeIdentity::generate();
    let subject = NodeIdentity::generate();
    let attacker = NodeIdentity::generate();
    let workspace = WorkspaceId::from_bytes([19; 32]);
    let grant = CapabilityGrant {
        capability: sign_capability(
            &issuer,
            subject.did(),
            workspace,
            PermissionSet::read_write(),
            100,
        )
        .unwrap(),
        issued_at: 1,
        note: None,
    };
    let signature_id = capability_signature_id(&grant.capability.signature);
    let mut society = Society::new();

    society.apply_event(&SocialEvent::new(
        issuer.did().clone(),
        1,
        SocialEventKind::CapabilityIssued {
            grant: grant.clone(),
        },
    ));
    society.apply_event(&SocialEvent::new(
        attacker.did().clone(),
        2,
        SocialEventKind::CapabilityRevoked {
            revocation: CapabilityRevocation {
                issuer: attacker.did().clone(),
                capability_signature_id: signature_id,
                reason: Some("forged revoke".into()),
                revoked_at: 2,
            },
        },
    ));

    let stored = society.capability_grants()[0];
    assert!(society.capability_revocation(stored).is_none());
    assert!(society.capability_revocations().is_empty());
}

#[test]
fn workspace_snapshot_events_index_workspace_roots() {
    let actor = NodeIdentity::generate();
    let workspace = WorkspaceId::from_bytes([9; 32]);
    let first_root = Cid::hash_of(b"first");
    let second_root = Cid::hash_of(b"second");
    let mut society = Society::new();

    society.apply_event(&SocialEvent::new(
        actor.did().clone(),
        1,
        SocialEventKind::WorkspaceSnapshotted {
            snapshot: WorkspaceSnapshot {
                workspace,
                actor: actor.did().clone(),
                root: first_root,
                label: Some("before".into()),
                note: None,
                timestamp: 1,
            },
        },
    ));
    society.apply_event(&SocialEvent::new(
        actor.did().clone(),
        2,
        SocialEventKind::WorkspaceSnapshotted {
            snapshot: WorkspaceSnapshot {
                workspace,
                actor: actor.did().clone(),
                root: second_root,
                label: Some("after".into()),
                note: Some("finished a run".into()),
                timestamp: 2,
            },
        },
    ));

    let snapshots = society.workspace_snapshots(&workspace);
    assert_eq!(snapshots.len(), 2);
    assert_eq!(snapshots[0].root, first_root);
    assert_eq!(
        society.latest_workspace_snapshot(&workspace).unwrap().root,
        second_root
    );
    assert_eq!(society.workspace_ids(), vec![workspace]);
    assert!(society.has_agent(actor.did()));
}

#[test]
fn workspace_run_events_index_free_workspace_execution() {
    let actor = NodeIdentity::generate();
    let workspace = WorkspaceId::from_bytes([10; 32]);
    let stdout = Cid::hash_of(b"ok");
    let stderr = Cid::hash_of(b"");
    let root = Cid::hash_of(b"root");
    let mut society = Society::new();

    society.apply_event(&SocialEvent::new(
        actor.did().clone(),
        2,
        SocialEventKind::WorkspaceRunRecorded {
            run: Box::new(WorkspaceRun {
                workspace,
                actor: actor.did().clone(),
                command: "python".into(),
                args: vec!["analysis.py".into()],
                exit_code: 0,
                stdout,
                stderr,
                output_root: Some(root),
                resources: ResourceUsage {
                    process_count: 1,
                    ..Default::default()
                },
                context: Some(WorkspaceRunContext {
                    working_dir: Some("analysis".into()),
                    env_keys: vec!["PYTHONPATH".into()],
                    stdin: Some(WorkspaceRunStdin {
                        bytes: 2,
                        cid: Cid::hash_of(b"{}"),
                    }),
                    timeout_ms: Some(30_000),
                }),
                failure: None,
                started_at: 1,
                finished_at: 2,
                note: Some("autonomous analysis".into()),
            }),
        },
    ));

    let runs = society.workspace_runs(&workspace);
    assert_eq!(runs.len(), 1);
    assert_eq!(runs[0].actor, actor.did().clone());
    assert_eq!(runs[0].stdout, stdout);
    assert_eq!(runs[0].output_root, Some(root));
    let context = runs[0].context.as_ref().unwrap();
    assert_eq!(context.working_dir.as_deref(), Some("analysis"));
    assert_eq!(context.env_keys, vec!["PYTHONPATH"]);
    assert_eq!(context.stdin.as_ref().unwrap().bytes, 2);
    assert_eq!(context.timeout_ms, Some(30_000));
    let snapshots = society.workspace_snapshots(&workspace);
    assert_eq!(snapshots.len(), 1);
    assert_eq!(snapshots[0].actor, actor.did().clone());
    assert_eq!(snapshots[0].root, root);
    assert_eq!(snapshots[0].label.as_deref(), Some("workspace-run"));
    assert_eq!(
        society.latest_workspace_snapshot(&workspace).unwrap().root,
        root
    );
    assert_eq!(society.agent_workspace_runs(actor.did()).len(), 1);
    assert_eq!(society.workspace_ids(), vec![workspace]);
    assert!(society.has_agent(actor.did()));
}

#[test]
fn workspace_run_events_keep_same_second_distinct_outputs() {
    let actor = NodeIdentity::generate();
    let workspace = WorkspaceId::from_bytes([77; 32]);
    let mut society = Society::new();

    for stdout in [
        Cid::hash_of(b"first"),
        Cid::hash_of(b"second"),
    ] {
        society.apply_event(&SocialEvent::new(
            actor.did().clone(),
            2,
            SocialEventKind::WorkspaceRunRecorded {
                run: Box::new(WorkspaceRun {
                    workspace,
                    actor: actor.did().clone(),
                    command: "python".into(),
                    args: vec!["analysis.py".into()],
                    exit_code: 0,
                    stdout,
                    stderr: Cid::hash_of(b""),
                    output_root: None,
                    resources: ResourceUsage::default(),
                    context: None,
                    failure: None,
                    started_at: 1,
                    finished_at: 2,
                    note: None,
                }),
            },
        ));
    }

    let runs = society.workspace_runs(&workspace);
    assert_eq!(runs.len(), 2);
    assert_ne!(runs[0].stdout, runs[1].stdout);
}

#[test]
fn explicit_workspace_snapshot_replaces_derived_snapshot_metadata() {
    let actor = NodeIdentity::generate();
    let workspace = WorkspaceId::from_bytes([76; 32]);
    let root = Cid::hash_of(b"root");
    let mut society = Society::new();

    society.apply_event(&SocialEvent::new(
        actor.did().clone(),
        2,
        SocialEventKind::WorkspaceRunRecorded {
            run: Box::new(WorkspaceRun {
                workspace,
                actor: actor.did().clone(),
                command: "sh".into(),
                args: vec!["-c".into(), "true".into()],
                exit_code: 0,
                stdout: Cid::hash_of(b""),
                stderr: Cid::hash_of(b""),
                output_root: Some(root),
                resources: ResourceUsage::default(),
                context: None,
                failure: None,
                started_at: 1,
                finished_at: 2,
                note: None,
            }),
        },
    ));
    society.apply_event(&SocialEvent::new(
        actor.did().clone(),
        2,
        SocialEventKind::WorkspaceSnapshotted {
            snapshot: WorkspaceSnapshot {
                workspace,
                actor: actor.did().clone(),
                root,
                label: Some("after:sh".into()),
                note: Some("explicit exec snapshot".into()),
                timestamp: 2,
            },
        },
    ));

    let snapshots = society.workspace_snapshots(&workspace);
    assert_eq!(snapshots.len(), 1);
    assert_eq!(snapshots[0].label.as_deref(), Some("after:sh"));
    assert_eq!(snapshots[0].note.as_deref(), Some("explicit exec snapshot"));
}

#[test]
fn collective_events_merge_signed_membership_and_workspace_context() {
    let alice = did("alice");
    let bob = did("bob");
    let ws = WorkspaceId::from_bytes([70; 32]);
    let mut society = Society::new();

    society.apply_event(&SocialEvent::new(
        bob.clone(),
        1,
        SocialEventKind::CollectiveWorkspaceAttached {
            collective_id: "lab".into(),
            workspace: ws,
        },
    ));
    society.apply_event(&SocialEvent::new(
        alice.clone(),
        2,
        SocialEventKind::CollectiveDeclared {
            collective_id: "lab".into(),
            name: "Open Lab".into(),
            purpose: "build shared AI society".into(),
            members: vec![alice.clone()],
        },
    ));
    society.apply_event(&SocialEvent::new(
        bob.clone(),
        3,
        SocialEventKind::CollectiveJoined {
            collective_id: "lab".into(),
        },
    ));

    let lab = society.collective("lab").unwrap();
    assert_eq!(lab.name, "Open Lab");
    assert_eq!(lab.purpose, "build shared AI society");
    assert_eq!(lab.created_at, 1);
    assert!(lab.members.contains(&alice));
    assert!(lab.members.contains(&bob));
    assert!(lab.workspaces.contains(&ws));
    assert_eq!(society.collectives()[0].id, "lab");
}

#[test]
fn collective_governance_events_track_proposals_votes_and_decisions() {
    let alice = did("alice");
    let bob = did("bob");
    let ws = WorkspaceId::from_bytes([71; 32]);
    let mut society = Society::new();

    society.apply_event(&SocialEvent::new(
        alice.clone(),
        1,
        SocialEventKind::CollectiveDeclared {
            collective_id: "lab".into(),
            name: "Open Lab".into(),
            purpose: "coordinate society work".into(),
            members: vec![alice.clone()],
        },
    ));
    society.apply_event(&SocialEvent::new(
        bob.clone(),
        2,
        SocialEventKind::CollectiveJoined {
            collective_id: "lab".into(),
        },
    ));
    society.apply_event(&SocialEvent::new(
        alice.clone(),
        3,
        SocialEventKind::CollectiveProposalPublished {
            proposal: CollectiveProposal {
                id: "proposal-1".into(),
                collective_id: "lab".into(),
                proposer: alice.clone(),
                title: "Open shared workspace".into(),
                body: "use workspace for a society run".into(),
                workspace: Some(ws),
                created_at: 3,
                deadline: 30,
            },
        },
    ));
    society.apply_event(&SocialEvent::new(
        bob.clone(),
        4,
        SocialEventKind::CollectiveVoteCast {
            vote: CollectiveVote {
                proposal_id: "proposal-1".into(),
                collective_id: "lab".into(),
                voter: bob.clone(),
                choice: CollectiveVoteChoice::Approve,
                rationale: "useful coordination".into(),
                timestamp: 4,
            },
        },
    ));
    society.apply_event(&SocialEvent::new(
        alice.clone(),
        5,
        SocialEventKind::CollectiveDecisionRecorded {
            decision: CollectiveDecision {
                proposal_id: "proposal-1".into(),
                collective_id: "lab".into(),
                decider: alice.clone(),
                outcome: CollectiveDecisionOutcome::Accepted,
                task_id: None,
                claim_id: None,
                target: None,
                anchor: None,
                reason: "approved by known members".into(),
                timestamp: 5,
            },
        },
    ));

    let proposals = society.collective_proposals("lab");
    assert_eq!(proposals.len(), 1);
    assert_eq!(proposals[0].title, "Open shared workspace");
    assert_eq!(proposals[0].workspace, Some(ws));

    let votes = society.collective_votes("lab", "proposal-1");
    assert_eq!(votes.len(), 1);
    assert_eq!(votes[0].voter, bob);
    assert_eq!(votes[0].choice, CollectiveVoteChoice::Approve);

    let decision = society.collective_decision("lab", "proposal-1").unwrap();
    assert_eq!(decision.decider, alice);
    assert_eq!(decision.outcome, CollectiveDecisionOutcome::Accepted);
}

#[test]
fn collective_governance_is_scoped_by_collective_and_proposal() {
    let alice = did("alice");
    let bob = did("bob");
    let carol = did("carol");
    let mut society = Society::new();

    society.apply_event(&SocialEvent::new(
        alice.clone(),
        1,
        SocialEventKind::CollectiveProposalPublished {
            proposal: CollectiveProposal {
                id: "proposal-1".into(),
                collective_id: "lab-a".into(),
                proposer: alice.clone(),
                title: "Use lab A workspace".into(),
                body: "scope A".into(),
                workspace: None,
                created_at: 1,
                deadline: 0,
            },
        },
    ));
    society.apply_event(&SocialEvent::new(
        bob.clone(),
        1,
        SocialEventKind::CollectiveProposalPublished {
            proposal: CollectiveProposal {
                id: "proposal-1".into(),
                collective_id: "lab-b".into(),
                proposer: bob.clone(),
                title: "Use lab B workspace".into(),
                body: "scope B".into(),
                workspace: None,
                created_at: 1,
                deadline: 0,
            },
        },
    ));
    society.apply_event(&SocialEvent::new(
        carol.clone(),
        2,
        SocialEventKind::CollectiveVoteCast {
            vote: CollectiveVote {
                proposal_id: "proposal-1".into(),
                collective_id: "lab-b".into(),
                voter: carol.clone(),
                choice: CollectiveVoteChoice::Reject,
                rationale: "not ready".into(),
                timestamp: 2,
            },
        },
    ));
    society.apply_event(&SocialEvent::new(
        bob.clone(),
        3,
        SocialEventKind::CollectiveDecisionRecorded {
            decision: CollectiveDecision {
                proposal_id: "proposal-1".into(),
                collective_id: "lab-b".into(),
                decider: bob.clone(),
                outcome: CollectiveDecisionOutcome::Rejected,
                task_id: None,
                claim_id: None,
                target: None,
                anchor: None,
                reason: "lab B declined".into(),
                timestamp: 3,
            },
        },
    ));

    let lab_a = society.collective_proposals("lab-a");
    let lab_b = society.collective_proposals("lab-b");
    assert_eq!(lab_a.len(), 1);
    assert_eq!(lab_b.len(), 1);
    assert_eq!(lab_a[0].title, "Use lab A workspace");
    assert_eq!(lab_b[0].title, "Use lab B workspace");
    assert!(society.collective_votes("lab-a", "proposal-1").is_empty());
    assert_eq!(society.collective_votes("lab-b", "proposal-1").len(), 1);
    assert!(society.collective_decision("lab-a", "proposal-1").is_none());
    assert_eq!(
        society
            .collective_decision("lab-b", "proposal-1")
            .unwrap()
            .outcome,
        CollectiveDecisionOutcome::Rejected
    );
}

#[test]
fn collective_decision_can_anchor_task_claim_judgment() {
    let auditor = did("auditor");
    let worker = did("worker");
    let mut society = Society::new();

    society.apply_event(&SocialEvent::new(
        auditor.clone(),
        1,
        SocialEventKind::CollectiveProposalPublished {
            proposal: CollectiveProposal {
                id: "review-claim".into(),
                collective_id: "audit-lab".into(),
                proposer: auditor.clone(),
                title: "Review claim".into(),
                body: "judge a disputed task result claim".into(),
                workspace: None,
                created_at: 1,
                deadline: 0,
            },
        },
    ));
    society.apply_event(&SocialEvent::new(
        auditor.clone(),
        2,
        SocialEventKind::CollectiveDecisionRecorded {
            decision: CollectiveDecision {
                proposal_id: "review-claim".into(),
                collective_id: "audit-lab".into(),
                decider: auditor.clone(),
                outcome: CollectiveDecisionOutcome::Disputed,
                task_id: Some("task-1".into()),
                claim_id: Some("claim-1".into()),
                target: Some(worker.clone()),
                anchor: None,
                reason: "receipt was not signed".into(),
                timestamp: 2,
            },
        },
    ));

    let judgments = society.task_claim_judgments("task-1");
    assert_eq!(judgments.len(), 1);
    assert_eq!(judgments[0].collective_id, "audit-lab");
    assert_eq!(judgments[0].proposal_id, "review-claim");
    assert_eq!(judgments[0].claim_id.as_deref(), Some("claim-1"));
    assert_eq!(judgments[0].target.as_ref(), Some(&worker));
    assert_eq!(judgments[0].outcome, CollectiveDecisionOutcome::Disputed);
    assert_eq!(society.result_claim_judgments("task-1", "claim-1").len(), 1);
    assert!(society
        .result_claim_judgments("task-1", "claim-2")
        .is_empty());
}

#[test]
fn collective_quorum_anchor_marks_decision_as_anchored_only_for_members() {
    let alice = did("alice");
    let bob = did("bob");
    let outsider = did("outsider");
    let mut society = Society::new();

    society.apply_event(&SocialEvent::new(
        alice.clone(),
        1,
        SocialEventKind::CollectiveDeclared {
            collective_id: "audit-lab".into(),
            name: "Audit Lab".into(),
            purpose: "witness disputed facts".into(),
            members: vec![alice.clone(), bob.clone()],
        },
    ));
    for (proposal_id, anchor) in [
        (
            "member-quorum",
            AuthorityAnchor {
                kind: AuthorityKind::CollectiveQuorum,
                commitment_hex: hash_hex(7),
                locator: Some("proposal:member-quorum".into()),
                attestors: vec![alice.clone(), bob.clone()],
                threshold: Some(2),
            },
        ),
        (
            "outsider-quorum",
            AuthorityAnchor {
                kind: AuthorityKind::CollectiveQuorum,
                commitment_hex: hash_hex(8),
                locator: Some("proposal:outsider-quorum".into()),
                attestors: vec![alice.clone(), outsider.clone()],
                threshold: Some(2),
            },
        ),
    ] {
        society.apply_event(&SocialEvent::new(
            alice.clone(),
            2,
            SocialEventKind::CollectiveDecisionRecorded {
                decision: CollectiveDecision {
                    proposal_id: proposal_id.into(),
                    collective_id: "audit-lab".into(),
                    decider: alice.clone(),
                    outcome: CollectiveDecisionOutcome::Accepted,
                    task_id: Some(format!("task-{proposal_id}")),
                    claim_id: None,
                    target: Some(bob.clone()),
                    anchor: Some(anchor),
                    reason: "quorum witness".into(),
                    timestamp: 2,
                },
            },
        ));
    }

    let anchored = society
        .collective_decision("audit-lab", "member-quorum")
        .unwrap();
    assert_eq!(
        society.collective_decision_truth_status(anchored),
        FactTruthStatus::Anchored
    );
    let claimed = society
        .collective_decision("audit-lab", "outsider-quorum")
        .unwrap();
    assert_eq!(
        society.collective_decision_truth_status(claimed),
        FactTruthStatus::Claimed
    );
    assert_eq!(
        society.task_claim_judgments("task-member-quorum")[0].truth_status,
        FactTruthStatus::Anchored
    );
    assert_eq!(
        society.task_claim_judgments("task-outsider-quorum")[0].truth_status,
        FactTruthStatus::Claimed
    );
}

#[test]
fn workspace_join_events_build_presence_index() {
    let alice = did("alice");
    let bob = did("bob");
    let ws = WorkspaceId::from_bytes([8; 32]);
    let other = WorkspaceId::from_bytes([9; 32]);
    let mut society = Society::new();

    society.apply_event(&SocialEvent::new(
        bob.clone(),
        2,
        SocialEventKind::WorkspaceJoined { workspace: ws },
    ));
    society.apply_event(&SocialEvent::new(
        alice.clone(),
        1,
        SocialEventKind::WorkspaceJoined { workspace: ws },
    ));
    society.apply_event(&SocialEvent::new(
        alice.clone(),
        3,
        SocialEventKind::WorkspaceJoined { workspace: ws },
    ));
    society.apply_event(&SocialEvent::new(
        alice.clone(),
        4,
        SocialEventKind::WorkspaceJoined { workspace: other },
    ));

    let members = society.workspace_members(&ws);
    assert_eq!(members, vec![&alice, &bob]);
    assert_eq!(society.agent_workspaces(&alice), vec![ws, other]);
    assert_eq!(society.agent_workspaces(&bob), vec![ws]);
}

#[test]
fn workspace_ownership_claims_are_distinct_from_local_membership() {
    let owner = did("owner");
    let guest = did("guest");
    let ws = WorkspaceId::from_bytes([10; 32]);
    let root = Cid::hash_of(b"owner root");
    let mut society = Society::new();

    society.apply_event(&SocialEvent::new(
        guest.clone(),
        1,
        SocialEventKind::WorkspaceJoined { workspace: ws },
    ));
    assert_eq!(society.workspace_members(&ws), vec![&guest]);
    assert_eq!(society.workspace_claimed_owner(&ws), None);

    society.apply_event(&SocialEvent::new(
        owner.clone(),
        2,
        SocialEventKind::WorkspaceOwnershipClaimed {
            claim: WorkspaceOwnershipClaim {
                workspace: ws,
                owner: owner.clone(),
                previous_owner: None,
                root: Some(root),
                anchor: None,
                claimed_at: 2,
            },
        },
    ));

    assert_eq!(society.workspace_members(&ws), vec![&guest]);
    assert_eq!(society.workspace_claimed_owner(&ws), Some(owner.clone()));
    let claims = society.workspace_ownership_claims(&ws);
    assert_eq!(claims.len(), 1);
    assert_eq!(claims[0].claim.owner, owner);
    assert_eq!(claims[0].truth_status, FactTruthStatus::Claimed);
}

#[test]
fn workspace_ownership_transfer_requires_current_owner() {
    let owner = did("owner");
    let next_owner = did("next-owner");
    let attacker = did("attacker");
    let ws = WorkspaceId::from_bytes([11; 32]);
    let mut society = Society::new();

    society.apply_event(&SocialEvent::new(
        owner.clone(),
        1,
        SocialEventKind::WorkspaceOwnershipClaimed {
            claim: WorkspaceOwnershipClaim {
                workspace: ws,
                owner: owner.clone(),
                previous_owner: None,
                root: None,
                anchor: None,
                claimed_at: 1,
            },
        },
    ));
    assert_eq!(society.workspace_claimed_owner(&ws), Some(owner.clone()));

    society.apply_event(&SocialEvent::new(
        attacker.clone(),
        2,
        SocialEventKind::WorkspaceOwnershipClaimed {
            claim: WorkspaceOwnershipClaim {
                workspace: ws,
                owner: attacker.clone(),
                previous_owner: None,
                root: None,
                anchor: None,
                claimed_at: 2,
            },
        },
    ));
    assert_eq!(society.workspace_claimed_owner(&ws), Some(owner.clone()));

    society.apply_event(&SocialEvent::new(
        attacker,
        3,
        SocialEventKind::WorkspaceOwnershipTransferred {
            claim: WorkspaceOwnershipClaim {
                workspace: ws,
                owner: next_owner.clone(),
                previous_owner: Some(owner.clone()),
                root: None,
                anchor: None,
                claimed_at: 3,
            },
        },
    ));
    assert_eq!(society.workspace_claimed_owner(&ws), Some(owner.clone()));

    society.apply_event(&SocialEvent::new(
        owner,
        4,
        SocialEventKind::WorkspaceOwnershipTransferred {
            claim: WorkspaceOwnershipClaim {
                workspace: ws,
                owner: next_owner.clone(),
                previous_owner: Some(did("owner")),
                root: None,
                anchor: None,
                claimed_at: 4,
            },
        },
    ));
    assert_eq!(society.workspace_claimed_owner(&ws), Some(next_owner));
}

#[test]
fn independent_execution_attestation_matches_task_result_claim() {
    let publisher = did("publisher");
    let worker = NodeIdentity::generate();
    let attestor = NodeIdentity::generate();
    let worker_did = worker.did().clone();
    let mut society = Society::new();
    let task = TaskSpec::new(
        publisher.clone(),
        "audit shared workspace",
        "python-exec",
        "python",
        vec!["audit.py".into()],
        100,
        999,
        1,
    );
    let task_id = task.id.clone();
    let output = ProcessOutput {
        exit_code: 0,
        stdout: b"ok".to_vec(),
        stderr: Vec::new(),
        resources: ResourceUsage::default(),
    };
    let receipt = ExecutionReceipt::from_process_output(
        &task_id,
        worker_did.clone(),
        None,
        "python",
        vec!["audit.py".into()],
        &output,
        None,
        2,
        3,
    )
    .sign(&worker)
    .unwrap();
    let attestation = ExecutionAttestation::from_process_output(
        &receipt,
        attestor.did().clone(),
        &output,
        None,
        4,
    )
    .sign(&attestor)
    .unwrap();

    society.apply_event(&SocialEvent::new(
        publisher.clone(),
        1,
        SocialEventKind::TaskPublished { task },
    ));
    society.apply_event(&SocialEvent::new(
        worker_did.clone(),
        2,
        SocialEventKind::TaskOffered {
            offer: TaskOffer {
                task_id: task_id.clone(),
                bidder: worker_did.clone(),
                price: 25,
                estimated_time_secs: 10,
                rationale: "ready".into(),
            },
        },
    ));
    society.apply_event(&SocialEvent::new(
        publisher.clone(),
        3,
        SocialEventKind::TaskAccepted {
            acceptance: TaskAcceptance {
                task_id: task_id.clone(),
                publisher: publisher.clone(),
                bidder: worker_did.clone(),
                price: 25,
                accepted_at: 3,
            },
        },
    ));
    society.apply_event(&SocialEvent::new(
        worker_did.clone(),
        4,
        SocialEventKind::TaskCompleted {
            result: TaskResult {
                task_id: task_id.clone(),
                executor: worker_did.clone(),
                success: true,
                exit_code: 0,
                stdout: "ok".into(),
                stderr: String::new(),
                actual_cost: 20,
                error: None,
                receipt: Some(Box::new(receipt)),
                attestations: Vec::new(),
            },
        },
    ));
    society.apply_event(&SocialEvent::new(
        attestor.did().clone(),
        5,
        SocialEventKind::TaskExecutionAttested {
            attestation: attestation.clone(),
        },
    ));

    assert_eq!(society.task_execution_attestations(&task_id).len(), 1);
    let result = society.task_result(&task_id).unwrap();
    let attestations = society.task_result_attestations(result);
    assert_eq!(attestations.len(), 1);
    assert_eq!(attestations[0].attestor, *attestor.did());
    assert_eq!(
        attestations[0].receipt_signature_hex,
        attestation.receipt_signature_hex
    );
}

#[test]
fn self_transaction_task_result_does_not_grant_reputation() {
    let identity = NodeIdentity::generate();
    let actor = identity.did().clone();
    let mut society = Society::new();
    let task = TaskSpec::new(
        actor.clone(),
        "self assigned task",
        "python-exec",
        "python",
        vec!["self.py".into()],
        100,
        999,
        1,
    );
    let task_id = task.id.clone();

    society.apply_event(&SocialEvent::new(
        actor.clone(),
        1,
        SocialEventKind::TaskPublished { task },
    ));
    society.apply_event(&SocialEvent::new(
        actor.clone(),
        2,
        SocialEventKind::TaskOffered {
            offer: TaskOffer {
                task_id: task_id.clone(),
                bidder: actor.clone(),
                price: 10,
                estimated_time_secs: 1,
                rationale: "self run for audit".into(),
            },
        },
    ));
    society.apply_event(&SocialEvent::new(
        actor.clone(),
        3,
        SocialEventKind::TaskAccepted {
            acceptance: TaskAcceptance {
                task_id: task_id.clone(),
                publisher: actor.clone(),
                bidder: actor.clone(),
                price: 10,
                accepted_at: 3,
            },
        },
    ));

    let output = ProcessOutput {
        exit_code: 0,
        stdout: b"ok".to_vec(),
        stderr: Vec::new(),
        resources: ResourceUsage::default(),
    };
    let receipt = ExecutionReceipt::from_process_output(
        &task_id,
        actor.clone(),
        None,
        "python",
        vec!["self.py".into()],
        &output,
        None,
        4,
        5,
    )
    .sign(&identity)
    .unwrap();

    society.apply_event(&SocialEvent::new(
        actor.clone(),
        6,
        SocialEventKind::TaskCompleted {
            result: TaskResult {
                task_id: task_id.clone(),
                executor: actor.clone(),
                success: true,
                exit_code: 0,
                stdout: "ok".into(),
                stderr: String::new(),
                actual_cost: 10,
                error: None,
                receipt: Some(Box::new(receipt)),
                attestations: Vec::new(),
            },
        },
    ));

    assert_eq!(society.task(&task_id).unwrap().state, TaskState::Completed);
    assert!(society.task_result(&task_id).is_some());
    assert!(society.edge(&actor, &actor).is_none());
    assert!(society.reputation(&actor, &actor).is_none());
    assert!(society.interactions().is_empty());
}

#[test]
fn task_acceptance_and_cancellation_events_update_task_state() {
    let publisher = did("publisher");
    let worker = did("worker");
    let mut society = Society::new();
    let task = TaskSpec::new(
        publisher.clone(),
        "assignable task",
        "python-exec",
        "python",
        vec!["analysis.py".into()],
        100,
        999,
        1,
    );
    let task_id = task.id.clone();

    society.apply_event(&SocialEvent::new(
        publisher.clone(),
        1,
        SocialEventKind::TaskPublished { task },
    ));
    society.apply_event(&SocialEvent::new(
        worker.clone(),
        2,
        SocialEventKind::TaskOffered {
            offer: TaskOffer {
                task_id: task_id.clone(),
                bidder: worker.clone(),
                price: 25,
                estimated_time_secs: 10,
                rationale: "ready".into(),
            },
        },
    ));
    society.apply_event(&SocialEvent::new(
        publisher.clone(),
        3,
        SocialEventKind::TaskAccepted {
            acceptance: TaskAcceptance {
                task_id: task_id.clone(),
                publisher: publisher.clone(),
                bidder: worker.clone(),
                price: 25,
                accepted_at: 3,
            },
        },
    ));

    let accepted_task = society.task(&task_id).unwrap();
    assert_eq!(accepted_task.state, TaskState::InProgress);
    assert_eq!(accepted_task.assigned_to, Some(worker));
    assert_eq!(society.task_acceptance(&task_id).unwrap().price, 25);

    let cancel_task = TaskSpec::new(
        publisher.clone(),
        "cancelable task",
        "python-exec",
        "python",
        vec!["cancel.py".into()],
        100,
        999,
        4,
    );
    let cancel_id = cancel_task.id.clone();
    society.apply_event(&SocialEvent::new(
        publisher.clone(),
        4,
        SocialEventKind::TaskPublished { task: cancel_task },
    ));
    society.apply_event(&SocialEvent::new(
        publisher.clone(),
        5,
        SocialEventKind::TaskCancelled {
            cancellation: TaskCancellation {
                task_id: cancel_id.clone(),
                publisher,
                reason: "superseded".into(),
                cancelled_at: 5,
            },
        },
    ));

    assert_eq!(
        society.task(&cancel_id).unwrap().state,
        TaskState::Cancelled
    );
    assert_eq!(
        society.task_cancellation(&cancel_id).unwrap().reason,
        "superseded"
    );
}

#[test]
fn task_acceptance_and_cancellation_survive_out_of_order_replay() {
    let publisher = did("publisher");
    let worker = did("worker");
    let mut society = Society::new();
    let task = TaskSpec::new(
        publisher.clone(),
        "out of order task",
        "python-exec",
        "python",
        vec!["analysis.py".into()],
        100,
        999,
        1,
    );
    let task_id = task.id.clone();

    society.apply_event(&SocialEvent::new(
        publisher.clone(),
        3,
        SocialEventKind::TaskAccepted {
            acceptance: TaskAcceptance {
                task_id: task_id.clone(),
                publisher: publisher.clone(),
                bidder: worker.clone(),
                price: 25,
                accepted_at: 3,
            },
        },
    ));
    assert!(society.task_acceptance(&task_id).is_none());

    society.apply_event(&SocialEvent::new(
        publisher.clone(),
        1,
        SocialEventKind::TaskPublished { task },
    ));
    assert!(society.task_acceptance(&task_id).is_none());

    society.apply_event(&SocialEvent::new(
        worker.clone(),
        2,
        SocialEventKind::TaskOffered {
            offer: TaskOffer {
                task_id: task_id.clone(),
                bidder: worker.clone(),
                price: 25,
                estimated_time_secs: 10,
                rationale: "ready".into(),
            },
        },
    ));

    let accepted_task = society.task(&task_id).unwrap();
    assert_eq!(accepted_task.state, TaskState::InProgress);
    assert_eq!(accepted_task.assigned_to, Some(worker));
    assert_eq!(society.task_acceptance(&task_id).unwrap().price, 25);

    let cancel_task = TaskSpec::new(
        publisher.clone(),
        "out of order cancel",
        "python-exec",
        "python",
        vec!["cancel.py".into()],
        100,
        999,
        4,
    );
    let cancel_id = cancel_task.id.clone();
    society.apply_event(&SocialEvent::new(
        publisher.clone(),
        5,
        SocialEventKind::TaskCancelled {
            cancellation: TaskCancellation {
                task_id: cancel_id.clone(),
                publisher: publisher.clone(),
                reason: "superseded".into(),
                cancelled_at: 5,
            },
        },
    ));
    assert!(society.task_cancellation(&cancel_id).is_none());

    society.apply_event(&SocialEvent::new(
        publisher,
        4,
        SocialEventKind::TaskPublished { task: cancel_task },
    ));

    assert_eq!(
        society.task(&cancel_id).unwrap().state,
        TaskState::Cancelled
    );
    assert_eq!(
        society.task_cancellation(&cancel_id).unwrap().reason,
        "superseded"
    );
}

#[test]
fn successful_task_result_without_receipt_does_not_grant_social_credit() {
    let publisher = did("publisher");
    let worker = did("worker");
    let mut society = Society::new();
    let task = TaskSpec::new(
        publisher.clone(),
        "repeatable task",
        "python-exec",
        "python",
        vec!["repeat.py".into()],
        100,
        999,
        1,
    );
    let task_id = task.id.clone();
    let result = TaskResult {
        task_id: task_id.clone(),
        executor: worker.clone(),
        success: true,
        exit_code: 0,
        stdout: "ok".into(),
        stderr: String::new(),
        actual_cost: 20,
        error: None,
        receipt: None,
        attestations: Vec::new(),
    };

    society.apply_event(&SocialEvent::new(
        worker.clone(),
        2,
        SocialEventKind::TaskCompleted {
            result: result.clone(),
        },
    ));
    assert!(society.edge(&publisher, &worker).is_none());

    society.apply_event(&SocialEvent::new(
        publisher.clone(),
        1,
        SocialEventKind::TaskPublished { task },
    ));
    society.apply_event(&SocialEvent::new(
        worker.clone(),
        3,
        SocialEventKind::TaskCompleted { result },
    ));

    let task = society.task(&task_id).unwrap();
    assert_eq!(task.state, TaskState::Published);
    assert!(society.task_result(&task_id).is_none());
    assert_eq!(society.interaction_count(), 0);
    assert!(society.edge(&publisher, &worker).is_none());
    assert!(society.reputation(&publisher, &worker).is_none());
}

#[test]
fn unaccepted_task_result_claim_does_not_change_task_or_reputation() {
    let publisher = did("publisher");
    let worker = NodeIdentity::generate();
    let worker_did = worker.did().clone();
    let output = ProcessOutput {
        exit_code: 0,
        stdout: b"ok".to_vec(),
        stderr: Vec::new(),
        resources: ResourceUsage::default(),
    };
    let mut society = Society::new();
    let task = TaskSpec::new(
        publisher.clone(),
        "unaccepted task",
        "python-exec",
        "python",
        vec!["unaccepted.py".into()],
        100,
        999,
        1,
    );
    let task_id = task.id.clone();
    let receipt = ExecutionReceipt::from_process_output(
        &task_id,
        worker_did.clone(),
        None,
        "python",
        vec!["unaccepted.py".into()],
        &output,
        None,
        2,
        3,
    )
    .sign(&worker)
    .unwrap();

    society.apply_event(&SocialEvent::new(
        publisher.clone(),
        1,
        SocialEventKind::TaskPublished { task },
    ));
    society.apply_event(&SocialEvent::new(
        worker_did.clone(),
        3,
        SocialEventKind::TaskCompleted {
            result: TaskResult {
                task_id: task_id.clone(),
                executor: worker_did.clone(),
                success: true,
                exit_code: 0,
                stdout: "ok".into(),
                stderr: String::new(),
                actual_cost: 20,
                error: None,
                receipt: Some(Box::new(receipt)),
                attestations: Vec::new(),
            },
        },
    ));
    society.apply_event(&SocialEvent::new(
        worker_did.clone(),
        4,
        SocialEventKind::TaskCompleted {
            result: TaskResult {
                task_id: task_id.clone(),
                executor: worker_did.clone(),
                success: false,
                exit_code: 7,
                stdout: String::new(),
                stderr: "failed".into(),
                actual_cost: 0,
                error: Some("failed".into()),
                receipt: None,
                attestations: Vec::new(),
            },
        },
    ));

    assert_eq!(society.task(&task_id).unwrap().state, TaskState::Published);
    assert!(society.task_result(&task_id).is_none());
    assert_eq!(society.interaction_count(), 0);
    assert!(society.edge(&publisher, &worker_did).is_none());
    assert!(society.reputation(&publisher, &worker_did).is_none());
}

#[test]
fn out_of_order_task_result_applies_after_matching_acceptance() {
    let publisher = did("publisher");
    let worker = NodeIdentity::generate();
    let worker_did = worker.did().clone();
    let output = ProcessOutput {
        exit_code: 0,
        stdout: b"ok".to_vec(),
        stderr: Vec::new(),
        resources: ResourceUsage::default(),
    };
    let mut society = Society::new();
    let task = TaskSpec::new(
        publisher.clone(),
        "accepted after result",
        "python-exec",
        "python",
        vec!["late-accept.py".into()],
        100,
        999,
        1,
    );
    let task_id = task.id.clone();
    let receipt = ExecutionReceipt::from_process_output(
        &task_id,
        worker_did.clone(),
        None,
        "python",
        vec!["late-accept.py".into()],
        &output,
        None,
        2,
        3,
    )
    .sign(&worker)
    .unwrap();

    society.apply_event(&SocialEvent::new(
        publisher.clone(),
        1,
        SocialEventKind::TaskPublished { task },
    ));
    society.apply_event(&SocialEvent::new(
        worker_did.clone(),
        3,
        SocialEventKind::TaskCompleted {
            result: TaskResult {
                task_id: task_id.clone(),
                executor: worker_did.clone(),
                success: true,
                exit_code: 0,
                stdout: "ok".into(),
                stderr: String::new(),
                actual_cost: 20,
                error: None,
                receipt: Some(Box::new(receipt)),
                attestations: Vec::new(),
            },
        },
    ));
    assert_eq!(society.task(&task_id).unwrap().state, TaskState::Published);
    assert!(society.task_result(&task_id).is_none());

    society.apply_event(&SocialEvent::new(
        worker_did.clone(),
        2,
        SocialEventKind::TaskOffered {
            offer: TaskOffer {
                task_id: task_id.clone(),
                bidder: worker_did.clone(),
                price: 25,
                estimated_time_secs: 10,
                rationale: "ready".into(),
            },
        },
    ));
    society.apply_event(&SocialEvent::new(
        publisher.clone(),
        4,
        SocialEventKind::TaskAccepted {
            acceptance: TaskAcceptance {
                task_id: task_id.clone(),
                publisher: publisher.clone(),
                bidder: worker_did.clone(),
                price: 25,
                accepted_at: 4,
            },
        },
    ));

    assert_eq!(society.task(&task_id).unwrap().state, TaskState::Completed);
    assert!(society.task_result(&task_id).is_some());
    assert_eq!(society.edge(&publisher, &worker_did).unwrap().successes(), 1);
}

#[test]
fn task_result_receipt_must_match_task_command_to_be_adopted() {
    let publisher = did("publisher");
    let worker = NodeIdentity::generate();
    let worker_did = worker.did().clone();
    let workspace = WorkspaceId::from_bytes([77; 32]);
    let output_root = Cid::hash_of(b"same output root");
    let output = ProcessOutput {
        exit_code: 0,
        stdout: b"ok".to_vec(),
        stderr: Vec::new(),
        resources: ResourceUsage::default(),
    };
    let mut society = Society::new();
    let task = TaskSpec::new(
        publisher.clone(),
        "match command",
        "python-exec",
        "python",
        vec!["expected.py".into()],
        100,
        999,
        1,
    );
    let task_id = task.id.clone();
    let wrong_receipt = ExecutionReceipt::from_process_output(
        &task_id,
        worker_did.clone(),
        Some(workspace),
        "python",
        vec!["other.py".into()],
        &output,
        Some(output_root),
        3,
        4,
    )
    .sign(&worker)
    .unwrap();
    let correct_receipt = ExecutionReceipt::from_process_output(
        &task_id,
        worker_did.clone(),
        Some(workspace),
        "python",
        vec!["expected.py".into()],
        &output,
        Some(output_root),
        5,
        6,
    )
    .sign(&worker)
    .unwrap();

    society.apply_event(&SocialEvent::new(
        publisher.clone(),
        1,
        SocialEventKind::TaskPublished { task },
    ));
    society.apply_event(&SocialEvent::new(
        worker_did.clone(),
        2,
        SocialEventKind::TaskOffered {
            offer: TaskOffer {
                task_id: task_id.clone(),
                bidder: worker_did.clone(),
                price: 25,
                estimated_time_secs: 10,
                rationale: "ready".into(),
            },
        },
    ));
    society.apply_event(&SocialEvent::new(
        publisher.clone(),
        3,
        SocialEventKind::TaskAccepted {
            acceptance: TaskAcceptance {
                task_id: task_id.clone(),
                publisher: publisher.clone(),
                bidder: worker_did.clone(),
                price: 25,
                accepted_at: 3,
            },
        },
    ));
    society.apply_event(&SocialEvent::new(
        worker_did.clone(),
        4,
        SocialEventKind::TaskCompleted {
            result: TaskResult {
                task_id: task_id.clone(),
                executor: worker_did.clone(),
                success: true,
                exit_code: 0,
                stdout: "ok".into(),
                stderr: String::new(),
                actual_cost: 20,
                error: None,
                receipt: Some(Box::new(wrong_receipt)),
                attestations: Vec::new(),
            },
        },
    ));

    assert_eq!(society.task(&task_id).unwrap().state, TaskState::InProgress);
    assert!(society.task_result(&task_id).is_none());
    assert!(society.workspace_snapshots(&workspace).is_empty());
    assert_eq!(society.task_result_claims(&task_id).len(), 1);

    society.apply_event(&SocialEvent::new(
        worker_did.clone(),
        6,
        SocialEventKind::TaskCompleted {
            result: TaskResult {
                task_id: task_id.clone(),
                executor: worker_did.clone(),
                success: true,
                exit_code: 0,
                stdout: "ok".into(),
                stderr: String::new(),
                actual_cost: 20,
                error: None,
                receipt: Some(Box::new(correct_receipt)),
                attestations: Vec::new(),
            },
        },
    ));

    assert_eq!(society.task(&task_id).unwrap().state, TaskState::Completed);
    assert_eq!(
        society
            .task_result(&task_id)
            .unwrap()
            .receipt
            .as_deref()
            .unwrap()
            .args,
        vec!["expected.py".to_string()]
    );
    assert_eq!(
        society.latest_workspace_snapshot(&workspace).unwrap().root,
        output_root
    );
    assert_eq!(society.task_result_claims(&task_id).len(), 2);
    assert_eq!(society.edge(&publisher, &worker_did).unwrap().successes(), 1);
}

#[test]
fn task_dispute_events_are_recorded_as_disputed_interactions() {
    let publisher = did("publisher");
    let worker = did("worker");
    let auditor = did("auditor");
    let mut society = Society::new();
    let task = TaskSpec::new(
        publisher.clone(),
        "verify shared output",
        "python-exec",
        "python",
        vec!["verify.py".into()],
        100,
        999,
        1,
    );
    let task_id = task.id.clone();

    society.apply_event(&SocialEvent::new(
        auditor.clone(),
        3,
        SocialEventKind::TaskDisputed {
            dispute: TaskDispute {
                task_id: task_id.clone(),
                disputer: auditor.clone(),
                target: worker.clone(),
                claim_id: Some("claim:stdout-mismatch".into()),
                reason: "stdout cid mismatch".into(),
                evidence: Some("receipt-audit:1".into()),
                timestamp: 3,
            },
        },
    ));
    assert_eq!(society.task_disputes(&task_id).len(), 1);
    assert_eq!(
        society.task_disputes(&task_id)[0].claim_id.as_deref(),
        Some("claim:stdout-mismatch")
    );
    assert_eq!(society.edge(&auditor, &worker).unwrap().failures(), 1);
    assert_eq!(society.reputation(&auditor, &worker).unwrap().failures(), 1);

    society.apply_event(&SocialEvent::new(
        publisher,
        1,
        SocialEventKind::TaskPublished { task },
    ));
    assert_eq!(
        society.task_disputes(&task_id)[0].reason,
        "stdout cid mismatch"
    );
    assert!(society
        .interactions()
        .last()
        .unwrap()
        .topic
        .contains("claim:stdout-mismatch"));
    assert_eq!(
        society.interactions().last().unwrap().outcome,
        InteractionOutcome::Dispute
    );
}

#[test]
fn intent_events_build_open_social_coordination_layer() {
    let author = did("intent-author");
    let responder = did("intent-responder");
    let workspace = WorkspaceId::from_bytes([91; 32]);
    let mut society = Society::new();
    let intent = AgentIntent {
        id: "intent-1".into(),
        author: author.clone(),
        kind: IntentKind::Need,
        title: "Need an autonomous auditor".into(),
        body: "inspect the workspace and publish a signed claim".into(),
        workspace: Some(workspace),
        task_id: Some("task-42".into()),
        capability: Some("review".into()),
        tags: vec!["audit".into(), "high-autonomy".into()],
        created_at: 10,
        expires_at: Some(20),
    };

    society.apply_event(&SocialEvent::new(
        responder.clone(),
        9,
        SocialEventKind::IntentResponded {
            response: IntentResponse {
                id: "response-1".into(),
                intent_id: "intent-1".into(),
                responder: responder.clone(),
                kind: IntentResponseKind::Interested,
                body: "I can inspect this workspace".into(),
                workspace: Some(workspace),
                task_id: Some("task-42".into()),
                capability: Some("review".into()),
                evidence: Some("manifest:auditor".into()),
                created_at: 9,
            },
        },
    ));
    society.apply_event(&SocialEvent::new(
        author.clone(),
        10,
        SocialEventKind::IntentPublished {
            intent: intent.clone(),
        },
    ));
    society.apply_event(&SocialEvent::new(
        author.clone(),
        10,
        SocialEventKind::IntentPublished { intent },
    ));

    assert!(society.has_agent(&author));
    assert!(society.has_agent(&responder));
    assert_eq!(society.intents().len(), 1);
    assert_eq!(society.agent_intents(&author).len(), 1);
    assert_eq!(society.workspace_intents(&workspace).len(), 1);
    assert_eq!(society.intent_responses().len(), 1);
    assert_eq!(society.responses_for_intent("intent-1").len(), 1);
    assert_eq!(society.agent_intent_responses(&responder).len(), 1);
    assert_eq!(society.workspace_intent_responses(&workspace).len(), 1);
    assert_eq!(society.workspace_ids(), vec![workspace]);
    assert_eq!(society.intents()[0].kind, IntentKind::Need);
    assert_eq!(society.intents()[0].task_id.as_deref(), Some("task-42"));
    assert_eq!(
        society.responses_for_intent("intent-1")[0].kind,
        IntentResponseKind::Interested
    );
}

fn agreed(society: &mut Society, publisher: &Did, worker: &Did) -> String {
    let task = TaskSpec::new(
        publisher.clone(),
        "job",
        "python-exec",
        "run",
        vec![],
        100,
        999,
        1,
    );
    let id = task.id.clone();
    for event in [
        SocialEvent::new(publisher.clone(), 1, SocialEventKind::TaskPublished { task }),
        SocialEvent::new(
            worker.clone(),
            2,
            SocialEventKind::TaskOffered {
                offer: TaskOffer {
                    task_id: id.clone(),
                    bidder: worker.clone(),
                    price: 10,
                    estimated_time_secs: 1,
                    rationale: String::new(),
                },
            },
        ),
        SocialEvent::new(
            publisher.clone(),
            3,
            SocialEventKind::TaskAccepted {
                acceptance: TaskAcceptance {
                    task_id: id.clone(),
                    publisher: publisher.clone(),
                    bidder: worker.clone(),
                    price: 10,
                    accepted_at: 3,
                },
            },
        ),
    ] {
        society.apply_event(&event);
    }
    id
}

fn failure(id: &str, worker: &Did, exit_code: i32) -> SocialEventKind {
    SocialEventKind::TaskCompleted {
        result: TaskResult {
            task_id: id.into(),
            executor: worker.clone(),
            success: false,
            exit_code,
            stdout: String::new(),
            stderr: String::new(),
            actual_cost: 0,
            error: Some("no".into()),
            receipt: None,
            attestations: Vec::new(),
        },
    }
}

#[test]
fn an_adopted_result_stays_and_is_remembered_once() {
    let publisher = did("p");
    let worker = did("w");
    let mut society = Society::new();
    let id = agreed(&mut society, &publisher, &worker);
    society.apply_event(&SocialEvent::new(worker.clone(), 5, failure(&id, &worker, 1)));
    assert_eq!(society.task_result(&id).unwrap().exit_code, 1);
    society.apply_event(&SocialEvent::new(worker.clone(), 4, failure(&id, &worker, 2)));
    assert_eq!(society.task_result(&id).unwrap().exit_code, 1);
    assert_eq!(society.task(&id).unwrap().state, TaskState::Failed);
    assert_eq!(society.interaction_count(), 1);
    assert_eq!(society.reputation(&publisher, &worker).unwrap().failures(), 1);
}

#[test]
fn an_interaction_adds_one_outcome_to_one_memory() {
    let mut society = Society::new();
    let interaction = Interaction::new(
        did("a"),
        did("b"),
        None,
        "x",
        InteractionOutcome::Dispute,
        1,
    );
    assert_eq!(interaction.id.len(), 32);
    society.record_interaction(interaction);
    society.record_interaction(Interaction::new(
        did("b"),
        did("a"),
        None,
        "y",
        InteractionOutcome::Success,
        2,
    ));
    assert_eq!(society.interaction_count(), 2);
    let edge = society.edge(&did("a"), &did("b")).unwrap();
    assert_eq!(edge.history, vec![InteractionOutcome::Dispute]);
    assert_eq!(edge.failures(), 1);
    assert_eq!(edge.successes(), 0);
    let memory = society.reputation(&did("b"), &did("a")).unwrap();
    assert_eq!(memory.history, vec![InteractionOutcome::Success]);
    assert_eq!(memory.last_seen, 2);
}

#[test]
fn agents_are_never_forgotten() {
    let mut society = Society::new();
    let identity = NodeIdentity::generate();
    society.relate(identity.did().clone(), did("b"), RelationKind::Rival, 1);
    society.apply_event(&SocialEvent::new(
        identity.did().clone(),
        2,
        SocialEventKind::IdentityRevoked {
            revocation: IdentityRevocation {
                did: identity.did().clone(),
                reason: None,
                revoked_at: 2,
            },
        },
    ));
    assert!(society.has_agent(identity.did()));
    assert!(society.has_agent(&did("b")));
    assert!(society.is_identity_revoked(identity.did()));
}

#[test]
fn a_rotation_leads_to_the_successor() {
    let mut society = Society::new();
    let (a, b, c) = (did("a"), did("b"), did("c"));
    for (previous, next) in [(&a, &b), (&b, &c)] {
        society.apply_event(&SocialEvent::new(
            previous.clone(),
            1,
            SocialEventKind::IdentityRotated {
                rotation: IdentityRotation {
                    previous: previous.clone(),
                    next: next.clone(),
                    reason: None,
                    rotated_at: 1,
                },
            },
        ));
    }
    assert_eq!(society.active_identity(&a), c);
    assert_eq!(society.active_identity(&c), c);
}
