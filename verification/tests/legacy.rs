//! Migration of events from before author chains.
use nexus::facts::RelationKind;
use nexus::identity::NodeIdentity;
use nexus::legacy::{
    legacy_event_entries, legacy_social_event_json, migrate_legacy_social_events,
    LegacySocialEvent,
};
use nexus::protocol::{SocialEventKind, SocialProtocolError};
use nexus::types::{Did, WorkspaceId};

fn legacy(
    author: &Did,
    timestamp: u64,
    kind: SocialEventKind,
    identity: &NodeIdentity,
) -> LegacySocialEvent {
    let bytes = legacy_social_event_json(author.clone(), timestamp, kind.clone(), identity);
    let value: serde_json::Value = serde_json::from_slice(&bytes).unwrap();
    assert_eq!(value["author"], author.as_str());
    LegacySocialEvent {
        id: value["id"].as_str().unwrap().into(),
        author: author.clone(),
        timestamp: value["timestamp"].as_u64().unwrap(),
        kind,
        signature: Some(
            value["signature"]
                .as_array()
                .unwrap()
                .iter()
                .map(|byte| byte.as_u64().unwrap() as u8)
                .collect(),
        ),
    }
}

fn joined(byte: u8) -> SocialEventKind {
    SocialEventKind::WorkspaceJoined {
        workspace: WorkspaceId::from_bytes([byte; 32]),
    }
}

#[test]
fn migrates_pre_chain_events_into_compacted_base() {
    let alice = NodeIdentity::generate();
    let bob = NodeIdentity::generate();
    let first = legacy(
        alice.did(),
        10,
        SocialEventKind::RelationDeclared {
            peer: bob.did().clone(),
            relation: RelationKind::Collaborator,
            note: Some("old wire".into()),
        },
        &alice,
    );
    let second = legacy(alice.did(), 11, joined(7), &alice);

    let (mut memory, report) = migrate_legacy_social_events(vec![first, second]);

    assert_eq!(report.legacy_events, 2);
    assert_eq!(report.migrated_events, 2);
    assert_eq!(report.unsupported_events, 0);
    assert_eq!(memory.event_count(), 2);
    assert_eq!(memory.retained_event_count(), 0);
    assert_eq!(memory.compacted_event_count(), 2);
    assert_eq!(
        memory.society().edge(alice.did(), bob.did()).unwrap().kind,
        RelationKind::Collaborator
    );

    let next = memory.sign_event(&alice, 12, joined(8)).unwrap();
    assert_eq!(next.seq, 1);
    assert!(next.prev.is_some());
    assert!(memory.ingest_event(next).unwrap());
    assert_eq!(memory.event_count(), 3);
}

#[test]
fn migration_skips_invalid_legacy_signatures() {
    let alice = NodeIdentity::generate();
    let mut event = legacy(alice.did(), 10, joined(9), &alice);
    event.timestamp = 11;

    let (memory, report) = migrate_legacy_social_events(vec![event]);

    assert_eq!(report.legacy_events, 1);
    assert_eq!(report.migrated_events, 0);
    assert_eq!(report.unsupported_events, 1);
    assert_eq!(memory.event_count(), 0);
}

#[test]
fn entries_are_found_where_they_are_stored() {
    let one = br#"{"id":"a"}"#.to_vec();
    let two = br#"{"id":"b","n":-3,"f":1.5}"#.to_vec();
    for text in [
        r#" [ {"id":"a"}, {"id":"b","n":-3,"f":1.5} ] "#,
        r#"{"events":[{"id":"a"},{"id":"b","n":-3,"f":1.5}]}"#,
        r#"{"log":{"events":[{"id":"a"},{"id":"b","n":-3,"f":1.5}]}}"#,
        r#"{"events":3,"log":{"events":[{"id":"a"},{"id":"b","n":-3,"f":1.5}]}}"#,
    ] {
        assert_eq!(
            legacy_event_entries(text.as_bytes()).unwrap(),
            vec![one.clone(), two.clone()]
        );
    }
    // Without a list the document is the only entry.
    assert_eq!(legacy_event_entries(&one).unwrap(), vec![one.clone()]);
    assert_eq!(legacy_event_entries(b" 7 ").unwrap(), vec![b"7".to_vec()]);
    // Entries with a place in a chain are left out, whatever it is.
    assert_eq!(
        legacy_event_entries(br#"[{"id":"a","seq":null},{"id":"a"},{"prev":1}]"#).unwrap(),
        vec![one]
    );
    assert!(legacy_event_entries(br#"[]"#).unwrap().is_empty());
    assert!(matches!(
        legacy_event_entries(b"not json").unwrap_err(),
        SocialProtocolError::EventDecode(_)
    ));
}

#[test]
fn a_stored_event_is_an_entry() {
    let alice = NodeIdentity::generate();
    let bytes = legacy_social_event_json(alice.did().clone(), 1, joined(1), &alice);
    assert_eq!(legacy_event_entries(&bytes).unwrap(), vec![bytes]);
}

#[test]
fn every_legacy_event_is_counted_once() {
    let alice = NodeIdentity::generate();
    let bob = NodeIdentity::generate();
    let good = legacy(alice.did(), 1, joined(1), &alice);
    let mut unsigned = legacy(alice.did(), 2, joined(2), &alice);
    unsigned.signature = None;
    assert!(matches!(
        unsigned.validate().unwrap_err(),
        SocialProtocolError::MissingSignature
    ));
    // Signed by its author, but speaking for someone else.
    let foreign = legacy(
        alice.did(),
        3,
        SocialEventKind::CollectiveDeclared {
            collective_id: "c".into(),
            name: "n".into(),
            purpose: "p".into(),
            members: vec![bob.did().clone()],
        },
        &alice,
    );
    let (_, report) =
        migrate_legacy_social_events(vec![good.clone(), unsigned, foreign, good]);
    assert_eq!(report.legacy_events, 4);
    assert_eq!(report.migrated_events, 1);
    assert_eq!(report.duplicate_events, 1);
    assert_eq!(report.unsupported_events, 2);
}
