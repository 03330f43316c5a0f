//! Capability tokens.
use nexus::capability::{
    canonical_encode, canonical_encode_legacy, delegate_capability, domain_separated_cbor,
    permissions_within_parent, sign_capability, sign_capability_with_depth, signing_payload,
    verify_capability, verify_capability_for_caller, SigningError,
};
use nexus::did::DidError;
use nexus::identity::NodeIdentity;
use nexus::types::{Capability, Did, PermissionSet, WorkspaceId};

fn ts_now() -> u64 {
    std::time::SystemTime::now()
        .duration_since(std::time::UNIX_EPOCH)
        .unwrap()
        .as_secs()
}

#[test]
fn sign_and_verify_valid_capability() {
    let issuer = NodeIdentity::generate();
    let subject_id = NodeIdentity::generate();
    let subject = subject_id.did().clone();
    let ws = WorkspaceId::from_bytes([0xabu8; 32]);
    let perms = PermissionSet::read_write();
    let expires = ts_now() + 3600;

    let cap = sign_capability(&issuer, &subject, ws, perms.clone(), expires)
        .expect("signing must succeed");

    assert!(verify_capability(&cap, ts_now()).is_ok());
}

#[test]
fn new_capability_signature_uses_domain_separated_payload() {
    let issuer = NodeIdentity::generate();
    let subject = NodeIdentity::generate().did().clone();
    let ws = WorkspaceId::from_bytes([0xacu8; 32]);
    let expires = ts_now() + 3600;
    let cap = sign_capability(&issuer, &subject, ws, PermissionSet::read_only(), expires)
        .expect("signing must succeed");
    let unsigned = cap.clone();
    let old_payload = canonical_encode(&unsigned);
    let new_payload = signing_payload(&unsigned);
    let verifying_key = issuer.verifying_key();

    assert!(NodeIdentity::verify(&verifying_key, &new_payload, &cap.signature).is_ok());
    assert!(NodeIdentity::verify(&verifying_key, &old_payload, &cap.signature).is_err());
}

#[test]
fn legacy_capability_signature_still_verifies() {
    let issuer = NodeIdentity::generate();
    let subject = NodeIdentity::generate().did().clone();
    let ws = WorkspaceId::from_bytes([0xadu8; 32]);
    let expires = ts_now() + 3600;
    let unsigned = Capability {
        issuer: issuer.did().clone(),
        subject: subject.clone(),
        workspace: ws,
        permissions: PermissionSet::read_only(),
        expires_at: expires,
        parent: None,
        delegation_depth: None,
        signature: Vec::new(),
    };
    let legacy_payload = canonical_encode(&unsigned);
    let signature = issuer.sign(&legacy_payload);
    let cap = Capability {
        issuer: unsigned.issuer,
        subject,
        workspace: ws,
        permissions: PermissionSet::read_only(),
        expires_at: expires,
        parent: None,
        delegation_depth: None,
        signature,
    };

    assert!(verify_capability(&cap, ts_now()).is_ok());
}

#[test]
fn expired_capability_rejected() {
    let issuer = NodeIdentity::generate();
    let subject = NodeIdentity::generate().did().clone();
    let ws = WorkspaceId::from_bytes([0xbu8; 32]);
    let expires = ts_now() - 1; // already expired

    let cap = sign_capability(&issuer, &subject, ws, PermissionSet::read_only(), expires)
        .expect("signing must succeed");

    let err = verify_capability(&cap, ts_now()).unwrap_err();
    assert!(matches!(err, SigningError::Expired { .. }));
}

#[test]
fn tampered_signature_rejected() {
    let issuer = NodeIdentity::generate();
    let subject = NodeIdentity::generate().did().clone();
    let ws = WorkspaceId::from_bytes([0xcdu8; 32]);
    let expires = ts_now() + 3600;

    let mut cap = sign_capability(&issuer, &subject, ws, PermissionSet::read_only(), expires)
        .expect("signing must succeed");

    // Flip a byte in the signature
    if let Some(b) = cap.signature.first_mut() {
        *b ^= 0xff;
    }

    let err = verify_capability(&cap, ts_now()).unwrap_err();
    assert!(matches!(err, SigningError::InvalidSignature));
}

#[test]
fn caller_mismatch_rejected() {
    let issuer = NodeIdentity::generate();
    let bob = NodeIdentity::generate();
    let charlie = NodeIdentity::generate();
    let ws = WorkspaceId::from_bytes([0xefu8; 32]);
    let expires = ts_now() + 3600;

    let cap = sign_capability(&issuer, bob.did(), ws, PermissionSet::read_only(), expires)
        .expect("signing must succeed");

    // Charlie tries to use Bob's capability
    let err = verify_capability_for_caller(&cap, charlie.did(), ws, ts_now()).unwrap_err();
    assert!(matches!(err, SigningError::SubjectMismatch { .. }));
}

#[test]
fn delegated_capability_chain_verifies_with_bounded_depth() {
    let owner = NodeIdentity::generate();
    let delegate = NodeIdentity::generate();
    let grantee = NodeIdentity::generate();
    let ws = WorkspaceId::from_bytes([0x11u8; 32]);
    let now = ts_now();
    let parent = sign_capability_with_depth(
        &owner,
        delegate.did(),
        ws,
        PermissionSet::read_write(),
        now + 3600,
        Some(1),
    )
    .unwrap();

    let delegated = delegate_capability(
        &delegate,
        parent.clone(),
        grantee.did(),
        PermissionSet::read_only(),
        now + 1800,
        None,
        now,
    )
    .expect("delegation must succeed");

    assert_eq!(delegated.issuer, *delegate.did());
    assert_eq!(delegated.subject, *grantee.did());
    assert!(delegated.parent.is_some());
    assert!(verify_capability(&delegated, now).is_ok());
    assert!(verify_capability_for_caller(&delegated, grantee.did(), ws, now).is_ok());
}

#[test]
fn delegated_capability_cannot_exceed_parent_permissions_or_depth() {
    let owner = NodeIdentity::generate();
    let delegate = NodeIdentity::generate();
    let grantee = NodeIdentity::generate();
    let ws = WorkspaceId::from_bytes([0x12u8; 32]);
    let now = ts_now();
    let parent = sign_capability_with_depth(
        &owner,
        delegate.did(),
        ws,
        PermissionSet::read_only(),
        now + 3600,
        Some(1),
    )
    .unwrap();

    let err = delegate_capability(
        &delegate,
        parent.clone(),
        grantee.did(),
        PermissionSet::read_write(),
        now + 1800,
        None,
        now,
    )
    .unwrap_err();
    assert!(matches!(
        err,
        SigningError::DelegationPermissionsExceedParent
    ));

    let delegated = delegate_capability(
        &delegate,
        parent,
        grantee.did(),
        PermissionSet::read_only(),
        now + 1800,
        None,
        now,
    )
    .unwrap();
    let err = delegate_capability(
        &grantee,
        delegated,
        owner.did(),
        PermissionSet::read_only(),
        now + 1200,
        None,
        now,
    )
    .unwrap_err();
    assert!(matches!(err, SigningError::DelegationDepthExceeded));
}

#[test]
fn domain_changes_payload_bytes() {
    let payload = 7u64;
    let left = domain_separated_cbor("nexus:test:left", &payload).unwrap();
    let right = domain_separated_cbor("nexus:test:right", &payload).unwrap();

    assert_ne!(left, right);
}

#[test]
fn domain_separated_bytes_are_cbor() {
    let bytes = domain_separated_cbor("d", &7u64).unwrap();
    // {"domain": "d", "payload": 7}
    let mut expected = vec![0xa2, 0x66];
    expected.extend_from_slice(b"domain");
    expected.extend_from_slice(&[0x61, b'd', 0x67]);
    expected.extend_from_slice(b"payload");
    expected.push(7);
    assert_eq!(bytes, expected);
}

#[test]
fn undelegated_form_still_verifies() {
    let issuer = NodeIdentity::generate();
    let subject = NodeIdentity::generate().did().clone();
    let mut cap = Capability {
        issuer: issuer.did().clone(),
        subject,
        workspace: WorkspaceId::from_bytes([3; 32]),
        permissions: PermissionSet::read_only(),
        expires_at: 100,
        parent: None,
        delegation_depth: None,
        signature: Vec::new(),
    };
    cap.signature = issuer.sign(&canonical_encode_legacy(&cap));
    assert!(verify_capability(&cap, 99).is_ok());
    assert!(matches!(
        verify_capability(&cap, 100).unwrap_err(),
        SigningError::Expired { expires_at: 100, now: 100 }
    ));
}

#[test]
fn workspace_mismatch_rejected() {
    let issuer = NodeIdentity::generate();
    let bob = NodeIdentity::generate();
    let cap = sign_capability(
        &issuer,
        bob.did(),
        WorkspaceId::from_bytes([1; 32]),
        PermissionSet::read_only(),
        100,
    )
    .unwrap();
    let err = verify_capability_for_caller(&cap, bob.did(), WorkspaceId::from_bytes([2; 32]), 1)
        .unwrap_err();
    assert!(matches!(err, SigningError::WorkspaceMismatch { .. }));
}

#[test]
fn issuer_that_is_no_key_rejected() {
    let issuer = NodeIdentity::generate();
    let bob = NodeIdentity::generate();
    let mut cap = sign_capability(
        &issuer,
        bob.did(),
        WorkspaceId::from_bytes([1; 32]),
        PermissionSet::read_only(),
        100,
    )
    .unwrap();
    cap.issuer = Did::new("did:web:example.com");
    assert!(matches!(
        verify_capability(&cap, 1).unwrap_err(),
        SigningError::DidParse(DidError::InvalidPrefix(_))
    ));
}

#[test]
fn delegation_by_someone_else_or_beyond_expiry_rejected() {
    let owner = NodeIdentity::generate();
    let delegate = NodeIdentity::generate();
    let other = NodeIdentity::generate();
    let ws = WorkspaceId::from_bytes([7; 32]);
    let parent = sign_capability_with_depth(
        &owner,
        delegate.did(),
        ws,
        PermissionSet::full(),
        100,
        Some(2),
    )
    .unwrap();
    let err = delegate_capability(
        &other,
        parent.clone(),
        owner.did(),
        PermissionSet::read_only(),
        50,
        None,
        1,
    )
    .unwrap_err();
    assert!(matches!(err, SigningError::DelegationIssuerMismatch { .. }));
    let err = delegate_capability(
        &delegate,
        parent.clone(),
        other.did(),
        PermissionSet::read_only(),
        101,
        None,
        1,
    )
    .unwrap_err();
    assert!(matches!(
        err,
        SigningError::DelegationExpiryExceedsParent { child_expires_at: 101, parent_expires_at: 100 }
    ));
    let child = delegate_capability(
        &delegate,
        parent,
        other.did(),
        PermissionSet::read_only(),
        50,
        Some(1),
        1,
    )
    .unwrap();
    assert!(permissions_within_parent(
        &child.permissions,
        &child.parent.as_ref().unwrap().permissions
    ));
}
