//! Social memory.
use nexus::event_log::SocialEventLog;
use nexus::facts::RelationKind;
use nexus::identity::NodeIdentity;
use nexus::memory::{
    reject_oversized_event_json, society_cbor, society_cbor_hex, Received, SocialMemory,
    MAX_SOCIAL_EVENT_JSON_BYTES,
};
use nexus::protocol::{SocialEvent, SocialEventKind, SocialProtocolError};
use nexus::society::Society;
use nexus::types::WorkspaceId;
use sha2::{Digest, Sha256};

fn received(data: &[u8], event: &SocialEvent) -> Received {
    Received {
        size: data.len(),
        decoded: match serde_json::from_slice::<serde_json::Value>(data) {
            Ok(_) => Ok(event.clone()),
            Err(err) => Err(err.to_string()),
        },
    }
}

fn undecodable(data: &[u8]) -> Received {
    Received {
        size: data.len(),
        decoded: Err("expected value".into()),
    }
}

fn stored(memory: &SocialMemory) -> SocialMemory {
    let log = memory.log();
    let zip = |events: &[SocialEvent], times: &[u64]| -> Vec<(SocialEvent, u64)> {
        events.iter().cloned().zip(times.iter().copied()).collect()
    };
    let log = SocialEventLog::from_parts(
        log.compacted_base().cloned(),
        &zip(log.events(), log.observed_times()),
        &zip(log.pending_events(), log.pending_observed_times()),
        &log.equivocation_proofs().to_vec(),
    )
    .unwrap();
    SocialMemory::from_log_with_checkpoint(log, memory.checkpoint().cloned())
}

#[test]
fn memory_ingests_signed_event_bytes_and_replays_society() {
    let alice = NodeIdentity::generate();
    let bob = NodeIdentity::generate();
    let event = SocialEvent::new(
        alice.did().clone(),
        1,
        SocialEventKind::RelationDeclared {
            peer: bob.did().clone(),
            relation: RelationKind::Collaborator,
            note: Some("gossiped relation".into()),
        },
    )
    .sign(&alice)
    .unwrap();
    let event_bytes = event.to_json();

    let mut memory = SocialMemory::new();
    assert!(memory.ingest_received(received(&event_bytes, &event)).unwrap());
    assert!(!memory.ingest_received(received(&event_bytes, &event)).unwrap());
    assert_eq!(memory.event_count(), 1);
    assert_eq!(memory.agent_count(), 2);
    assert_eq!(
        memory.society().edge(alice.did(), bob.did()).unwrap().kind,
        RelationKind::Collaborator
    );
}

#[test]
fn memory_rejects_unsigned_or_invalid_event_bytes() {
    let alice = NodeIdentity::generate();
    let event = SocialEvent::new(
        alice.did().clone(),
        1,
        SocialEventKind::WorkspaceJoined {
            workspace: WorkspaceId::from_bytes([12; 32]),
        },
    );
    let event_bytes = event.to_json();
    let mut memory = SocialMemory::new();

    let err = memory.ingest_received(received(&event_bytes, &event)).unwrap_err();
    assert!(matches!(err, SocialProtocolError::MissingSignature));

    let err = memory.ingest_received(received(b"not-json", &event)).unwrap_err();
    assert!(matches!(err, SocialProtocolError::EventDecode(_)));
}

#[test]
fn memory_rejects_oversized_event_bytes_before_decode() {
    let mut memory = SocialMemory::new();
    let oversized = vec![b' '; MAX_SOCIAL_EVENT_JSON_BYTES + 1];

    let err = memory.ingest_received(undecodable(&oversized)).unwrap_err();
    assert!(matches!(
        err,
        SocialProtocolError::EventTooLarge {
            actual,
            max: MAX_SOCIAL_EVENT_JSON_BYTES
        } if actual == MAX_SOCIAL_EVENT_JSON_BYTES + 1
    ));
    assert_eq!(memory.event_count(), 0);

    let results = memory.ingest_received_batch(vec![undecodable(&oversized)]);
    assert_eq!(results.len(), 1);
    assert!(matches!(
        results[0].as_ref().unwrap_err(),
        SocialProtocolError::EventTooLarge { .. }
    ));
    assert_eq!(memory.event_count(), 0);
}

#[test]
fn deserialized_memory_rebuilds_society_from_log() {
    let alice = NodeIdentity::generate();
    let event = SocialEvent::new(
        alice.did().clone(),
        1,
        SocialEventKind::WorkspaceJoined {
            workspace: WorkspaceId::from_bytes([13; 32]),
        },
    )
    .sign(&alice)
    .unwrap();
    let mut memory = SocialMemory::new();
    assert!(memory.ingest_event(event).unwrap());

    let decoded = stored(&memory);

    assert_eq!(decoded.event_count(), 1);
    assert!(decoded.society().has_agent(alice.did()));
    assert_eq!(decoded.events().len(), 1);
    assert!(memory.checkpoint().is_some());
}

#[test]
fn deserialized_memory_uses_valid_checkpoint_for_log_tail() {
    let alice = NodeIdentity::generate();
    let bob = NodeIdentity::generate();
    let first = SocialEvent::new(
        alice.did().clone(),
        1,
        SocialEventKind::WorkspaceJoined {
            workspace: WorkspaceId::from_bytes([15; 32]),
        },
    )
    .sign(&alice)
    .unwrap();
    let second = SocialEvent::new(
        bob.did().clone(),
        2,
        SocialEventKind::WorkspaceJoined {
            workspace: WorkspaceId::from_bytes([16; 32]),
        },
    )
    .sign(&bob)
    .unwrap();

    let mut checkpointed = SocialMemory::new();
    assert!(checkpointed.ingest_event(first).unwrap());
    let log = SocialEventLog::from_parts(
        None,
        &vec![(checkpointed.events()[0].clone(), 10), (second, 10)],
        &Vec::new(),
        &Vec::new(),
    )
    .unwrap();
    let decoded =
        SocialMemory::from_log_with_checkpoint(log, checkpointed.checkpoint().cloned());

    assert_eq!(decoded.event_count(), 2);
    assert!(decoded.society().has_agent(alice.did()));
    assert!(decoded.society().has_agent(bob.did()));
}

#[test]
fn invalid_checkpoint_falls_back_to_full_replay() {
    let alice = NodeIdentity::generate();
    let event = SocialEvent::new(
        alice.did().clone(),
        1,
        SocialEventKind::WorkspaceJoined {
            workspace: WorkspaceId::from_bytes([17; 32]),
        },
    )
    .sign(&alice)
    .unwrap();
    let mut memory = SocialMemory::new();
    assert!(memory.ingest_event(event).unwrap());
    let mut checkpoint = memory.checkpoint().unwrap().clone();
    checkpoint.log_digest = "tampered".into();
    checkpoint.society = Society::new();

    let decoded = SocialMemory::from_log_with_checkpoint(memory.log().clone(), Some(checkpoint));

    assert_eq!(decoded.event_count(), 1);
    assert!(decoded.society().has_agent(alice.did()));
}

#[test]
fn memory_batch_ingest_rebuilds_society_once_for_many_events() {
    let alice = NodeIdentity::generate();
    let bob = NodeIdentity::generate();
    let events = vec![
        SocialEvent::new(
            alice.did().clone(),
            1,
            SocialEventKind::WorkspaceJoined {
                workspace: WorkspaceId::from_bytes([14; 32]),
            },
        )
        .sign(&alice)
        .unwrap(),
        SocialEvent::new(
            bob.did().clone(),
            2,
            SocialEventKind::RelationDeclared {
                peer: alice.did().clone(),
                relation: RelationKind::Collaborator,
                note: None,
            },
        )
        .sign(&bob)
        .unwrap(),
    ];
    let mut memory = SocialMemory::new();

    assert_eq!(memory.ingest_events(events).unwrap(), 2);

    assert_eq!(memory.event_count(), 2);
    assert!(memory.society().has_agent(alice.did()));
    assert!(memory.society().has_agent(bob.did()));
}

#[test]
fn memory_compaction_retains_log_tail_and_checkpointed_society() {
    let alice = NodeIdentity::generate();
    let bob = NodeIdentity::generate();
    let mut memory = SocialMemory::new();
    let events = memory
        .sign_event_sequence(
            &alice,
            vec![
                (
                    1,
                    SocialEventKind::WorkspaceJoined {
                        workspace: WorkspaceId::from_bytes([41; 32]),
                    },
                ),
                (
                    2,
                    SocialEventKind::RelationDeclared {
                        peer: bob.did().clone(),
                        relation: RelationKind::Collaborator,
                        note: Some("compacted prefix".into()),
                    },
                ),
                (
                    3,
                    SocialEventKind::RelationDeclared {
                        peer: bob.did().clone(),
                        relation: RelationKind::Blocked,
                        note: Some("retained tail".into()),
                    },
                ),
            ],
        )
        .unwrap();
    assert_eq!(memory.ingest_events(events).unwrap(), 3);

    assert!(memory.compact_retaining_recent(1).unwrap());
    assert_eq!(memory.event_count(), 3);
    assert_eq!(memory.retained_event_count(), 1);
    assert_eq!(memory.compacted_event_count(), 2);
    assert_eq!(
        memory.society().edge(alice.did(), bob.did()).unwrap().kind,
        RelationKind::Blocked
    );

    let decoded = stored(&memory);
    assert_eq!(decoded.event_count(), 3);
    assert_eq!(decoded.retained_event_count(), 1);
    assert_eq!(
        decoded.society().edge(alice.did(), bob.did()).unwrap().kind,
        RelationKind::Blocked
    );
}

#[test]
fn a_checkpoint_saves_replay() {
    let alice = NodeIdentity::generate();
    let mut memory = SocialMemory::new();
    let kinds: Vec<(u64, SocialEventKind)> = (1..5u8)
        .map(|i| {
            (
                i as u64,
                SocialEventKind::WorkspaceJoined {
                    workspace: WorkspaceId::from_bytes([i; 32]),
                },
            )
        })
        .collect();
    let events = memory.sign_event_sequence(&alice, kinds).unwrap();
    assert_eq!(memory.ingest_events(events[..2].to_vec()).unwrap(), 2);
    let checkpoint = memory.checkpoint().unwrap().clone();
    assert_eq!(checkpoint.replayed_events, 2);
    assert_eq!(memory.ingest_events(events[2..].to_vec()).unwrap(), 2);
    let again = SocialMemory::from_log_with_checkpoint(memory.log().clone(), Some(checkpoint));
    assert_eq!(again.society(), memory.society());
    assert_eq!(again.checkpoint().unwrap().replayed_events, 2);
    assert_eq!(*memory.society(), memory.log().to_society());
}

#[test]
fn a_checkpoint_with_evidence_stands_for_replay() {
    let alice = NodeIdentity::generate();
    let bob = NodeIdentity::generate();
    let mut memory = SocialMemory::new();
    for id in ["one", "two"] {
        let event = SocialEvent::new(
            alice.did().clone(),
            1,
            SocialEventKind::CollectiveJoined { collective_id: id.into() },
        )
        .sign(&alice)
        .unwrap();
        memory.ingest_event(event).unwrap();
    }
    assert!(memory.society().is_equivocating(alice.did()));
    let checkpoint = memory.checkpoint().unwrap().clone();
    assert_eq!(checkpoint.replayed_equivocation_proofs, 1);
    let mut log = memory.log().clone();
    let tail = (0..2)
        .scan(None, |prev: &mut Option<String>, seq| {
            let event = SocialEvent::new_chained(
                bob.did().clone(),
                seq,
                prev.clone(),
                2,
                SocialEventKind::WorkspaceJoined {
                    workspace: WorkspaceId::from_bytes([seq as u8; 32]),
                },
            )
            .sign(&bob)
            .unwrap();
            *prev = Some(event.id.clone());
            Some(event)
        })
        .collect::<Vec<_>>();
    for event in tail {
        assert!(log.append_observed(event, 10).unwrap());
    }
    let full = log.to_society();
    let again = SocialMemory::from_log_with_checkpoint(log, Some(checkpoint));
    assert!(again.society().is_equivocating(alice.did()));
    assert!(again.society().has_agent(bob.did()));
    assert_eq!(again.society().agent_count(), full.agent_count());
    assert_eq!(again.society().agent_workspaces(bob.did()), full.agent_workspaces(bob.did()));
    assert_eq!(
        again.society().equivocation_proofs().len(),
        full.equivocation_proofs().len()
    );
}

#[test]
fn the_text_of_a_snapshot_is_hexadecimal() {
    assert_eq!(society_cbor_hex(&[0xa0, 0x01]), "a001");
    assert_eq!(society_cbor("A001"), Some(vec![0xa0, 0x01]));
    assert_eq!(society_cbor("a0 1"), None);
    assert_eq!(society_cbor("a"), None);
}

#[test]
fn the_digest_of_an_empty_log_is_known() {
    let memory = SocialMemory::from_log(SocialEventLog::new());
    let mut bytes = b"nexus:social-memory-checkpoint:v1".to_vec();
    bytes.extend_from_slice(&[0; 16]);
    assert_eq!(
        memory.checkpoint().unwrap().log_digest,
        hex::encode(Sha256::digest(bytes))
    );
}

#[test]
fn the_digest_frames_identifiers() {
    let alice = NodeIdentity::generate();
    let mut memory = SocialMemory::new();
    let event = memory
        .sign_event(&alice, 1, SocialEventKind::CollectiveJoined { collective_id: "c".into() })
        .unwrap();
    assert!(memory.ingest_event(event.clone()).unwrap());
    let mut bytes = b"nexus:social-memory-checkpoint:v1".to_vec();
    bytes.extend_from_slice(&1u64.to_le_bytes());
    bytes.extend_from_slice(&64u64.to_le_bytes());
    bytes.extend_from_slice(event.id.as_bytes());
    bytes.extend_from_slice(&0u64.to_le_bytes());
    assert_eq!(
        memory.checkpoint().unwrap().log_digest,
        hex::encode(Sha256::digest(bytes))
    );
}

#[test]
fn a_batch_reports_each_event() {
    let alice = NodeIdentity::generate();
    let mut memory = SocialMemory::new();
    let event = memory
        .sign_event(&alice, 1, SocialEventKind::CollectiveJoined { collective_id: "c".into() })
        .unwrap();
    let bytes = event.to_json();
    let results = memory.ingest_received_batch(vec![
        received(&bytes, &event),
        undecodable(b"x"),
        received(&bytes, &event),
    ]);
    assert_eq!(results.len(), 3);
    assert!(matches!(results[0], Ok(true)));
    assert!(matches!(results[1], Err(SocialProtocolError::EventDecode(_))));
    assert!(matches!(results[2], Ok(false)));
    assert!(memory.society().has_agent(alice.did()));
    assert!(reject_oversized_event_json(&bytes).is_ok());
}
