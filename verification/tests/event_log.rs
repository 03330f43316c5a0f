//! The social event log.
use nexus::event_log::{fill_observed_times, SocialEventLog, MAX_FUTURE_TIMESTAMP_SKEW_SECS};
use nexus::facts::{
    IdentityRecoveryApproval, IdentityRecoveryPolicy, IdentityRotation, RelationKind,
};
use nexus::identity::NodeIdentity;
use nexus::protocol::{SocialEvent, SocialEventKind, SocialProtocolError};
use nexus::society::Society;
use nexus::types::WorkspaceId;

fn rebuilt(log: &SocialEventLog) -> SocialEventLog {
    let zip = |events: &[SocialEvent], times: &[u64]| -> Vec<(SocialEvent, u64)> {
        events.iter().cloned().zip(times.iter().copied()).collect()
    };
    SocialEventLog::from_parts(
        log.compacted_base().cloned(),
        &zip(log.events(), log.observed_times()),
        &zip(log.pending_events(), log.pending_observed_times()),
        &log.equivocation_proofs().to_vec(),
    )
    .unwrap()
}

fn signed_relation(
    identity: &NodeIdentity,
    peer: &NodeIdentity,
    timestamp: u64,
) -> SocialEvent {
    SocialEvent::new(
        identity.did().clone(),
        timestamp,
        SocialEventKind::RelationDeclared {
            peer: peer.did().clone(),
            relation: RelationKind::Collaborator,
            note: Some("shared society log".into()),
        },
    )
    .sign(identity)
    .unwrap()
}

#[test]
fn log_appends_signed_events_and_deduplicates_gossip() {
    let alice = NodeIdentity::generate();
    let bob = NodeIdentity::generate();
    let event = signed_relation(&alice, &bob, 1);

    let mut log = SocialEventLog::new();
    assert!(log.append(event.clone()).unwrap());
    assert!(!log.append(event.clone()).unwrap());
    assert_eq!(log.len(), 1);
    assert!(log.contains(&event.id));
}

#[test]
fn log_rejects_unsigned_events() {
    let alice = NodeIdentity::generate();
    let event = SocialEvent::new(
        alice.did().clone(),
        1,
        SocialEventKind::WorkspaceJoined {
            workspace: WorkspaceId::from_bytes([9; 32]),
        },
    );

    let err = SocialEventLog::new().append(event).unwrap_err();
    assert!(matches!(err, SocialProtocolError::MissingSignature));
}

#[test]
fn log_rejects_duplicate_id_with_different_payload() {
    let alice = NodeIdentity::generate();
    let bob = NodeIdentity::generate();
    let first = signed_relation(&alice, &bob, 1);
    let mut second = signed_relation(&alice, &bob, 2);
    second.id = first.id.clone();

    let mut log = SocialEventLog::new();
    assert!(log.append(first.clone()).unwrap());
    let err = log.append(second).unwrap_err();
    assert!(matches!(err, SocialProtocolError::EventIdMismatch { .. }));
}

#[test]
fn content_hash_id_changes_when_payload_changes() {
    let alice = NodeIdentity::generate();
    let bob = NodeIdentity::generate();
    let first = signed_relation(&alice, &bob, 1);
    let second = signed_relation(&alice, &bob, 2);

    assert_ne!(first.id, second.id);
    assert_eq!(first.id, first.content_id());
    assert_eq!(second.id, second.content_id());
}

#[test]
fn out_of_order_author_chain_drains_when_predecessor_arrives() {
    let alice = NodeIdentity::generate();
    let bob = NodeIdentity::generate();
    let first = SocialEvent::new_chained(
        alice.did().clone(),
        0,
        None,
        1,
        SocialEventKind::WorkspaceJoined {
            workspace: WorkspaceId::from_bytes([7; 32]),
        },
    )
    .sign(&alice)
    .unwrap();
    let second = SocialEvent::new_chained(
        alice.did().clone(),
        1,
        Some(first.id.clone()),
        2,
        SocialEventKind::RelationDeclared {
            peer: bob.did().clone(),
            relation: RelationKind::Collaborator,
            note: Some("arrived before predecessor".into()),
        },
    )
    .sign(&alice)
    .unwrap();

    let mut log = SocialEventLog::new();
    assert!(log.append(second.clone()).unwrap());
    assert_eq!(log.len(), 0);
    assert_eq!(log.pending_events().len(), 1);
    assert!(log.contains(&second.id));

    assert!(log.append(first).unwrap());
    assert_eq!(log.len(), 2);
    assert!(log.pending_events().is_empty());

    let society = log.to_society();
    assert_eq!(
        society.edge(alice.did(), bob.did()).unwrap().kind,
        RelationKind::Collaborator
    );
}

#[test]
fn identity_rotation_requires_successor_for_future_events() {
    let previous = NodeIdentity::generate();
    let next = NodeIdentity::generate();
    let peer = NodeIdentity::generate();
    let rotation = SocialEvent::new_chained(
        previous.did().clone(),
        0,
        None,
        1,
        SocialEventKind::IdentityRotated {
            rotation: IdentityRotation {
                previous: previous.did().clone(),
                next: next.did().clone(),
                reason: Some("routine rotation".into()),
                rotated_at: 1,
            },
        },
    )
    .sign(&previous)
    .unwrap();
    let old_key_event = SocialEvent::new_chained(
        previous.did().clone(),
        1,
        Some(rotation.id.clone()),
        2,
        SocialEventKind::RelationDeclared {
            peer: peer.did().clone(),
            relation: RelationKind::Collaborator,
            note: Some("old key should no longer act".into()),
        },
    )
    .sign(&previous)
    .unwrap();
    let successor_event = SocialEvent::new(
        next.did().clone(),
        2,
        SocialEventKind::RelationDeclared {
            peer: peer.did().clone(),
            relation: RelationKind::Collaborator,
            note: Some("successor key now acts".into()),
        },
    )
    .sign(&next)
    .unwrap();

    let mut log = SocialEventLog::new();
    assert!(log.append(rotation.clone()).unwrap());
    assert_eq!(
        log.to_society().active_identity(previous.did()),
        next.did().clone()
    );
    let err = log.append(old_key_event).unwrap_err();
    assert!(matches!(
        err,
        SocialProtocolError::IdentityRotated { author, successor }
            if author == *previous.did() && successor == *next.did()
    ));
    assert!(log.append(successor_event).unwrap());
    assert!(!log.append(rotation).unwrap());
}

#[test]
fn identity_recovery_threshold_requires_successor_for_future_events() {
    let identity = NodeIdentity::generate();
    let guardian_a = NodeIdentity::generate();
    let guardian_b = NodeIdentity::generate();
    let recovered = NodeIdentity::generate();
    let peer = NodeIdentity::generate();

    let policy = SocialEvent::new(
        identity.did().clone(),
        1,
        SocialEventKind::IdentityRecoveryPolicy {
            policy: IdentityRecoveryPolicy {
                identity: identity.did().clone(),
                guardians: vec![guardian_a.did().clone(), guardian_b.did().clone()],
                threshold: 2,
                updated_at: 1,
            },
        },
    )
    .sign(&identity)
    .unwrap();
    let approval_a = SocialEvent::new(
        guardian_a.did().clone(),
        2,
        SocialEventKind::IdentityRecoveryApproved {
            approval: IdentityRecoveryApproval {
                identity: identity.did().clone(),
                guardian: guardian_a.did().clone(),
                recovered: recovered.did().clone(),
                reason: Some("lost old key".into()),
                approved_at: 2,
            },
        },
    )
    .sign(&guardian_a)
    .unwrap();
    let approval_b = SocialEvent::new(
        guardian_b.did().clone(),
        3,
        SocialEventKind::IdentityRecoveryApproved {
            approval: IdentityRecoveryApproval {
                identity: identity.did().clone(),
                guardian: guardian_b.did().clone(),
                recovered: recovered.did().clone(),
                reason: Some("second guardian".into()),
                approved_at: 3,
            },
        },
    )
    .sign(&guardian_b)
    .unwrap();

    let mut log = SocialEventLog::new();
    assert!(log.append(policy.clone()).unwrap());
    assert!(log.append(approval_a).unwrap());
    assert_eq!(
        log.to_society().active_identity(identity.did()),
        *identity.did()
    );
    assert!(log.append(approval_b).unwrap());
    assert_eq!(
        log.to_society().active_identity(identity.did()),
        recovered.did().clone()
    );

    let old_key_event = SocialEvent::new_chained(
        identity.did().clone(),
        1,
        Some(policy.id.clone()),
        4,
        SocialEventKind::RelationDeclared {
            peer: peer.did().clone(),
            relation: RelationKind::Collaborator,
            note: Some("old key should no longer act".into()),
        },
    )
    .sign(&identity)
    .unwrap();
    assert!(matches!(
        log.append(old_key_event).unwrap_err(),
        SocialProtocolError::IdentityRotated { author, successor }
            if author == *identity.did() && successor == *recovered.did()
    ));

    let recovered_event = SocialEvent::new(
        recovered.did().clone(),
        4,
        SocialEventKind::RelationDeclared {
            peer: peer.did().clone(),
            relation: RelationKind::Collaborator,
            note: Some("recovered key now acts".into()),
        },
    )
    .sign(&recovered)
    .unwrap();
    assert!(log.append(recovered_event).unwrap());
}

#[test]
fn log_rejects_events_too_far_ahead_of_observation_time() {
    let alice = NodeIdentity::generate();
    let bob = NodeIdentity::generate();
    let observed_at = 1_700_000_000;
    let event = signed_relation(
        &alice,
        &bob,
        observed_at + MAX_FUTURE_TIMESTAMP_SKEW_SECS + 1,
    );

    let err = SocialEventLog::new()
        .append_observed(event, observed_at)
        .unwrap_err();
    assert!(matches!(
        err,
        SocialProtocolError::EventTimestampTooFarAhead { .. }
    ));
}

#[test]
fn event_observation_time_survives_pending_drain_and_rebuild() {
    let alice = NodeIdentity::generate();
    let bob = NodeIdentity::generate();
    let first = SocialEvent::new_chained(
        alice.did().clone(),
        0,
        None,
        100,
        SocialEventKind::WorkspaceJoined {
            workspace: WorkspaceId::from_bytes([17; 32]),
        },
    )
    .sign(&alice)
    .unwrap();
    let second = SocialEvent::new_chained(
        alice.did().clone(),
        1,
        Some(first.id.clone()),
        90,
        SocialEventKind::RelationDeclared {
            peer: bob.did().clone(),
            relation: RelationKind::Collaborator,
            note: None,
        },
    )
    .sign(&alice)
    .unwrap();

    let mut log = SocialEventLog::new();
    assert!(log.append_observed(second, 200).unwrap());
    assert!(log.append_observed(first, 150).unwrap());

    assert_eq!(log.observed_times(), &[150, 200]);

    let decoded = rebuilt(&log);
    assert_eq!(decoded.observed_times(), &[150, 200]);
}

#[test]
fn replay_uses_author_sequence_not_self_reported_timestamp() {
    let alice = NodeIdentity::generate();
    let bob = NodeIdentity::generate();
    let first = SocialEvent::new_chained(
        alice.did().clone(),
        0,
        None,
        1_000,
        SocialEventKind::RelationDeclared {
            peer: bob.did().clone(),
            relation: RelationKind::Collaborator,
            note: Some("first in Alice's chain".into()),
        },
    )
    .sign(&alice)
    .unwrap();
    let second = SocialEvent::new_chained(
        alice.did().clone(),
        1,
        Some(first.id.clone()),
        10,
        SocialEventKind::RelationDeclared {
            peer: bob.did().clone(),
            relation: RelationKind::Blocked,
            note: Some("second in Alice's chain despite older timestamp".into()),
        },
    )
    .sign(&alice)
    .unwrap();

    let mut log = SocialEventLog::new();
    assert!(log.append_observed(second, 1_100).unwrap());
    assert!(log.append_observed(first, 1_100).unwrap());

    let society = log.to_society();
    let edge = society.edge(alice.did(), bob.did()).unwrap();
    assert_eq!(edge.kind, RelationKind::Blocked);
    assert_eq!(edge.updated_at, 10);
}

#[test]
fn same_author_sequence_conflict_records_equivocation_proof() {
    let alice = NodeIdentity::generate();
    let bob = NodeIdentity::generate();
    let first = signed_relation(&alice, &bob, 1);
    let fork = SocialEvent::new_chained(
        alice.did().clone(),
        0,
        None,
        2,
        SocialEventKind::WorkspaceJoined {
            workspace: WorkspaceId::from_bytes([8; 32]),
        },
    )
    .sign(&alice)
    .unwrap();

    let mut log = SocialEventLog::new();
    assert!(log.append(first.clone()).unwrap());
    assert!(log.append(fork.clone()).unwrap());

    assert_eq!(log.len(), 1);
    assert_eq!(log.equivocation_proofs().len(), 1);
    let proof = &log.equivocation_proofs()[0];
    proof.verify().unwrap();
    assert_eq!(proof.author, *alice.did());
    assert_eq!(proof.seq, 0);
    assert_ne!(proof.event_a.id, proof.event_b.id);

    let society = log.to_society();
    assert!(society.is_equivocating(alice.did()));
    assert_eq!(society.agent_equivocations(alice.did()).len(), 1);
}

#[test]
fn tampering_with_signed_content_invalidates_id_and_signature() {
    let alice = NodeIdentity::generate();
    let bob = NodeIdentity::generate();
    let mut first = signed_relation(&alice, &bob, 1);
    first.timestamp = 99;
    assert!(matches!(
        first.verify_signature().unwrap_err(),
        SocialProtocolError::EventIdMismatch { .. }
    ));
}

#[test]
fn replay_builds_society_from_deterministic_event_order() {
    let alice = NodeIdentity::generate();
    let bob = NodeIdentity::generate();
    let relation = signed_relation(&alice, &bob, 5);
    let joined = SocialEvent::new(
        bob.did().clone(),
        1,
        SocialEventKind::WorkspaceJoined {
            workspace: WorkspaceId::from_bytes([11; 32]),
        },
    )
    .sign(&bob)
    .unwrap();

    let mut log = SocialEventLog::new();
    assert_eq!(log.merge(vec![relation, joined]).unwrap(), 2);

    let mut society = Society::new();
    log.replay_into(&mut society);
    assert!(society.has_agent(alice.did()));
    assert!(society.has_agent(bob.did()));
    assert_eq!(
        society.edge(alice.did(), bob.did()).unwrap().kind,
        RelationKind::Collaborator
    );
}

#[test]
fn deserialized_log_rebuilds_index_and_verifies_events() {
    let alice = NodeIdentity::generate();
    let bob = NodeIdentity::generate();
    let event = signed_relation(&alice, &bob, 1);
    let mut log = SocialEventLog::new();
    assert!(log.append(event.clone()).unwrap());

    let mut decoded = rebuilt(&log);

    assert_eq!(decoded.len(), 1);
    assert!(!decoded.append(event).unwrap());
    assert_eq!(decoded.len(), 1);
}

#[test]
fn compacted_log_replays_base_state_and_allows_chain_continuation() {
    let alice = NodeIdentity::generate();
    let bob = NodeIdentity::generate();
    let first = SocialEvent::new_chained(
        alice.did().clone(),
        0,
        None,
        1,
        SocialEventKind::WorkspaceJoined {
            workspace: WorkspaceId::from_bytes([31; 32]),
        },
    )
    .sign(&alice)
    .unwrap();
    let second = SocialEvent::new_chained(
        alice.did().clone(),
        1,
        Some(first.id.clone()),
        2,
        SocialEventKind::RelationDeclared {
            peer: bob.did().clone(),
            relation: RelationKind::Collaborator,
            note: Some("before compaction".into()),
        },
    )
    .sign(&alice)
    .unwrap();
    let third = SocialEvent::new_chained(
        alice.did().clone(),
        2,
        Some(second.id.clone()),
        3,
        SocialEventKind::RelationDeclared {
            peer: bob.did().clone(),
            relation: RelationKind::Blocked,
            note: Some("retained tail".into()),
        },
    )
    .sign(&alice)
    .unwrap();
    let mut log = SocialEventLog::new();
    assert_eq!(log.merge(vec![first, second, third]).unwrap(), 3);

    assert!(log.compact_retaining_recent(1).unwrap());
    assert_eq!(log.len(), 3);
    assert_eq!(log.retained_len(), 1);
    assert_eq!(log.compacted_event_count(), 2);
    assert!(log.compacted_base().is_some());
    assert_eq!(
        log.to_society().edge(alice.did(), bob.did()).unwrap().kind,
        RelationKind::Blocked
    );
    assert_eq!(log.next_position(alice.did()).0, 3);

    let next = SocialEvent::new_chained(
        alice.did().clone(),
        3,
        log.next_position(alice.did()).1,
        4,
        SocialEventKind::WorkspaceJoined {
            workspace: WorkspaceId::from_bytes([32; 32]),
        },
    )
    .sign(&alice)
    .unwrap();
    assert!(log.append(next).unwrap());
    assert_eq!(log.len(), 4);
}

fn chain(identity: &NodeIdentity, count: u64) -> Vec<SocialEvent> {
    let mut prev = None;
    let mut events = Vec::new();
    for seq in 0..count {
        let event = SocialEvent::new_chained(
            identity.did().clone(),
            seq,
            prev.clone(),
            seq,
            SocialEventKind::WorkspaceJoined {
                workspace: WorkspaceId::from_bytes([seq as u8; 32]),
            },
        )
        .sign(identity)
        .unwrap();
        prev = Some(event.id.clone());
        events.push(event);
    }
    events
}

#[test]
fn logs_converge_whatever_the_order_of_arrival() {
    let alice = NodeIdentity::generate();
    let bob = NodeIdentity::generate();
    let mut events = chain(&alice, 3);
    events.extend(chain(&bob, 2));
    events.push(SocialEvent::new_chained(
        bob.did().clone(),
        2,
        Some(events[4].id.clone()),
        9,
        SocialEventKind::RelationDeclared {
            peer: alice.did().clone(),
            relation: RelationKind::Mentor,
            note: None,
        },
    ).sign(&bob).unwrap());
    let mut forward = SocialEventLog::new();
    let mut backward = SocialEventLog::new();
    for event in &events {
        assert!(forward.append_observed(event.clone(), 100).unwrap());
    }
    for event in events.iter().rev() {
        assert!(backward.append_observed(event.clone(), 200).unwrap());
    }
    assert_eq!(forward.len(), 6);
    assert_eq!(backward.len(), 6);
    assert_eq!(forward.to_society(), backward.to_society());
    // Each chain is in order, whatever arrived first.
    for author in [alice.did(), bob.did()] {
        let seqs: Vec<u64> = backward
            .events()
            .iter()
            .filter(|e| e.author == *author)
            .map(|e| e.seq)
            .collect();
        assert_eq!(seqs, vec![0, 1, 2]);
    }
    for event in &events {
        assert!(!backward.append_observed(event.clone(), 300).unwrap());
    }
    assert_eq!(backward.len(), 6);
}

#[test]
fn genesis_with_a_predecessor_is_refused() {
    let alice = NodeIdentity::generate();
    let event = SocialEvent::new_chained(
        alice.did().clone(),
        0,
        Some("before".into()),
        1,
        SocialEventKind::CollectiveJoined { collective_id: "c".into() },
    )
    .sign(&alice)
    .unwrap();
    assert!(matches!(
        SocialEventLog::new().append_observed(event, 1).unwrap_err(),
        SocialProtocolError::InvalidChainGenesis { .. }
    ));
}

#[test]
fn waiting_forks_become_evidence() {
    let alice = NodeIdentity::generate();
    let bob = NodeIdentity::generate();
    let events = chain(&alice, 2);
    let fork = SocialEvent::new_chained(
        alice.did().clone(),
        1,
        Some("elsewhere".into()),
        5,
        SocialEventKind::RelationDeclared {
            peer: bob.did().clone(),
            relation: RelationKind::Rival,
            note: None,
        },
    )
    .sign(&alice)
    .unwrap();
    let mut log = SocialEventLog::new();
    assert!(log.append_observed(fork.clone(), 10).unwrap());
    assert!(log.append_observed(events[1].clone(), 10).unwrap());
    assert_eq!(log.pending_events().len(), 1);
    assert_eq!(log.equivocation_proofs().len(), 1);
    assert!(!log.append_observed(events[1].clone(), 10).unwrap());
    assert!(log.append_observed(events[0].clone(), 10).unwrap());
    assert_eq!(log.len(), 1);
    assert_eq!(log.pending_events().len(), 1);
}

#[test]
fn a_log_with_gaps_is_not_compacted() {
    let alice = NodeIdentity::generate();
    let events = chain(&alice, 3);
    let mut log = SocialEventLog::new();
    assert!(log.append_observed(events[0].clone(), 10).unwrap());
    assert!(log.append_observed(events[2].clone(), 10).unwrap());
    assert!(!log.compact_retaining_recent(1).unwrap());
    assert!(matches!(
        log.compact_retaining_recent(0).unwrap_err(),
        SocialProtocolError::InvalidCompactedLog { reason }
            if reason == "cannot compact while author-chain gaps are pending"
    ));
}

#[test]
fn compaction_keeps_counts_and_positions() {
    let alice = NodeIdentity::generate();
    let bob = NodeIdentity::generate();
    let mut log = SocialEventLog::new();
    for event in chain(&alice, 3).into_iter().chain(chain(&bob, 2)) {
        log.append_observed(event, 10).unwrap();
    }
    let before = log.clone();
    assert!(!log.compact_retaining_recent(5).unwrap());
    assert_eq!(log, before);
    assert!(log.compact_retaining_recent(2).unwrap());
    assert_eq!(log.len(), 5);
    assert_eq!(log.retained_len(), 2);
    assert_eq!(log.compacted_event_count(), 3);
    assert_eq!(log.events(), &before.events()[3..]);
    for author in [alice.did(), bob.did()] {
        assert_eq!(log.next_position(author), before.next_position(author));
    }
}

#[test]
fn suffix_replay_equals_full_replay_where_it_is_ordered() {
    let alice = NodeIdentity::generate();
    let events = chain(&alice, 4);
    let mut log = SocialEventLog::new();
    for event in events {
        log.append_observed(event, 10).unwrap();
    }
    assert!(log.suffix_replay_is_ordered(2));
    let mut first = SocialEventLog::new();
    for event in &log.events()[..2] {
        first.append_observed(event.clone(), 10).unwrap();
    }
    let mut society = first.to_society();
    log.replay_from(&mut society, 2, 0);
    assert_eq!(society, log.to_society());

    let bob = NodeIdentity::generate();
    log.append_observed(chain(&bob, 1).remove(0), 10).unwrap();
    assert!(!log.suffix_replay_is_ordered(4));
    assert!(log.suffix_replay_is_ordered(0));
}

#[test]
fn rebuilding_changes_nothing() {
    let alice = NodeIdentity::generate();
    let mut log = SocialEventLog::new();
    for event in chain(&alice, 3) {
        log.append_observed(event, 10).unwrap();
    }
    let before = log.clone();
    log.rebuild_index().unwrap();
    assert_eq!(log, before);
    assert!(log.compact_retaining_recent(1).unwrap());
    let compacted = log.clone();
    log.rebuild_index().unwrap();
    assert_eq!(log, compacted);
    assert_eq!(log.to_society(), before.to_society());
}

#[test]
fn stored_events_without_a_time_count_as_observed_now() {
    let alice = NodeIdentity::generate();
    let events = chain(&alice, 3);
    let log = SocialEventLog::from_stored(
        None,
        &events[..2].to_vec(),
        &vec![7],
        &events[2..].to_vec(),
        &vec![9],
        &Vec::new(),
    )
    .unwrap();
    assert_eq!(log.len(), 3);
    assert_eq!(log.observed_times()[0], 7);
    assert!(log.observed_times()[1] > 1_600_000_000);
    assert_eq!(log.observed_times()[2], 9);
    let filled = fill_observed_times(&events, &vec![1, 2], 5);
    let times: Vec<u64> = filled.iter().map(|(_, time)| *time).collect();
    assert_eq!(times, vec![1, 2, 5]);
}

#[test]
fn from_events_checks_every_event() {
    let alice = NodeIdentity::generate();
    let mut events = chain(&alice, 2);
    assert_eq!(SocialEventLog::from_events(events.clone()).unwrap().len(), 2);
    events[1].timestamp = 77;
    assert!(SocialEventLog::from_events(events).is_err());
}
