//! Identities, workspaces and permissions.
use nexus::types::{Cid, Did, PermissionSet, WorkspaceId};

#[test]
fn permission_set_read_only() {
    let p = PermissionSet::read_only();
    assert!(p.can_read());
    assert!(!p.can_write());
    assert!(!p.can_exec());
    assert!(!p.is_admin());
}

#[test]
fn permission_set_full() {
    let p = PermissionSet::full();
    assert!(p.can_read());
    assert!(p.can_write());
    assert!(p.can_exec());
    assert!(p.is_admin());
}

#[test]
fn workspace_id_roundtrip() {
    let bytes = [42u8; 32];
    let id = WorkspaceId::from_bytes(bytes);
    assert_eq!(id.as_bytes(), &bytes);
}

#[test]
fn did_display() {
    let did = Did::new("did:key:z6MkhaXgBZDvotDkL5257faiztiGiC2QtKLGpbnnEGta2doK");
    assert_eq!(
        did.to_string(),
        "did:key:z6MkhaXgBZDvotDkL5257faiztiGiC2QtKLGpbnnEGta2doK"
    );
}

#[test]
fn permission_set_read_write() {
    let p = PermissionSet::read_write();
    assert!(p.can_read());
    assert!(p.can_write());
    assert!(!p.can_exec());
    assert!(!p.is_admin());
}

#[test]
fn workspace_id_prints_in_hexadecimal() {
    let id = WorkspaceId::from_bytes([0xab; 32]);
    assert_eq!(id.to_string(), "ab".repeat(32));
}

#[test]
fn content_identifier_is_a_sha256_digest() {
    assert_eq!(
        Cid::hash_of(b"abc").to_string(),
        "ba7816bf8f01cfea414140de5dae2223b00361a396177a9cb410ff61f20015ad"
    );
}
