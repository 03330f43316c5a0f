//! Confidential envelopes.
use nexus::confidential::{ConfidentialEnvelopeError, EncryptedSocialEnvelope};
use nexus::facts::RelationKind;
use nexus::protocol::SocialEventKind;
use nexus::types::Did;
use sha2::{Digest, Sha256};

fn did(name: &str) -> Did {
    Did::new(&format!("did:key:{name}"))
}

#[test]
fn encrypted_envelope_hides_and_recovers_social_payload() {
    let alice = did("alice");
    let bob = did("bob");
    let payload = SocialEventKind::RelationDeclared {
        peer: bob.clone(),
        relation: RelationKind::Collaborator,
        note: Some("private relation".into()),
    };

    let envelope =
        EncryptedSocialEnvelope::encrypt(vec![alice.clone(), bob.clone()], b"shared", &payload)
            .unwrap();

    assert!(!envelope.ciphertext_hex.contains("private relation"));
    let plain = envelope.decrypt_for(&bob, b"shared").unwrap();
    let value: serde_json::Value = serde_json::from_slice(&plain).unwrap();
    assert_eq!(value["type"], "RelationDeclared");
    assert_eq!(value["payload"]["peer"], bob.as_str());
    assert_eq!(value["payload"]["relation"], "Collaborator");
    assert_eq!(value["payload"]["note"], "private relation");
    assert!(envelope.decrypt_for(&did("mallory"), b"shared").is_err());
    assert!(envelope.decrypt_for(&bob, b"wrong").is_err());
}

#[test]
fn what_is_sealed_is_found_by_every_recipient() {
    let to = vec![did("b"), did("a"), did("b")];
    let envelope = EncryptedSocialEnvelope::seal(to, b"secret", &[5; 12], b"payload").unwrap();
    assert_eq!(envelope.recipients, vec![did("a"), did("b")]);
    assert_eq!(envelope.nonce_hex, "05".repeat(12));
    assert_eq!(envelope.key_id.len(), 32);
    // Ciphertext and a tag of sixteen bytes.
    assert_eq!(envelope.ciphertext_hex.len(), 2 * (7 + 16));
    for who in ["a", "b"] {
        assert_eq!(envelope.decrypt_for(&did(who), b"secret").unwrap(), b"payload");
    }
    assert!(envelope.includes_recipient(&did("a")));
    assert!(envelope.matches_shared_secret(b"secret").unwrap());
    assert!(!envelope.matches_shared_secret(b"other").unwrap());
}

#[test]
fn the_key_of_an_envelope_is_an_hmac_of_the_recipients() {
    let envelope =
        EncryptedSocialEnvelope::seal(vec![did("a")], b"secret", &[1; 12], b"payload").unwrap();
    let context = b"did:key:a\0";
    let mac = ring::hmac::Key::new(ring::hmac::HMAC_SHA256, b"secret");
    let message = [b"nexus:confidential-social-envelope:key:v1".as_slice(), context].concat();
    let key = ring::hmac::sign(&mac, &message);
    let id = [
        b"nexus:confidential-social-envelope:key-id:v1".as_slice(),
        key.as_ref(),
        context,
    ]
    .concat();
    assert_eq!(envelope.key_id, hex::encode(&Sha256::digest(id)[..16]));
    let aad = [
        format!("nexus:confidential-social-envelope:aad:v1:{}:", envelope.key_id).as_bytes(),
        context,
    ]
    .concat();
    let aead = ring::aead::LessSafeKey::new(
        ring::aead::UnboundKey::new(&ring::aead::CHACHA20_POLY1305, key.as_ref()).unwrap(),
    );
    let mut sealed = b"payload".to_vec();
    aead.seal_in_place_append_tag(
        ring::aead::Nonce::assume_unique_for_key([1; 12]),
        ring::aead::Aad::from(aad),
        &mut sealed,
    )
    .unwrap();
    assert_eq!(envelope.ciphertext_hex, hex::encode(sealed));
}

#[test]
fn envelope_errors_name_their_cause() {
    use_errors(EncryptedSocialEnvelope::seal(vec![], b"s", &[0; 12], b"p"), "none");
    use_errors(EncryptedSocialEnvelope::seal(vec![did("a")], b"", &[0; 12], b"p"), "secret");
    let envelope = EncryptedSocialEnvelope::seal(vec![did("a")], b"s", &[0; 12], b"p").unwrap();
    assert!(matches!(
        envelope.decrypt_for(&did("x"), b"s").unwrap_err(),
        ConfidentialEnvelopeError::RecipientNotAllowed(who) if who == did("x")
    ));
    assert!(matches!(
        envelope.decrypt_for(&did("a"), b"t").unwrap_err(),
        ConfidentialEnvelopeError::DecryptionFailed
    ));
    let mut changed = envelope.clone();
    changed.ciphertext_hex = "00".repeat(17);
    assert!(matches!(
        changed.decrypt_for(&did("a"), b"s").unwrap_err(),
        ConfidentialEnvelopeError::DecryptionFailed
    ));
    changed.ciphertext_hex = "0".into();
    assert!(matches!(
        changed.validate_metadata().unwrap_err(),
        ConfidentialEnvelopeError::InvalidCiphertextHex(_)
    ));
    changed.nonce_hex = "zz".into();
    assert!(matches!(
        changed.validate_metadata().unwrap_err(),
        ConfidentialEnvelopeError::InvalidNonceHex(_)
    ));
    changed.nonce_hex = "00".into();
    assert!(matches!(
        changed.validate_metadata().unwrap_err(),
        ConfidentialEnvelopeError::InvalidNonceLength { expected: 12, actual: 1 }
    ));
    changed.recipients = Vec::new();
    assert!(matches!(
        changed.validate_metadata().unwrap_err(),
        ConfidentialEnvelopeError::NoRecipients
    ));
    changed.version = 2;
    assert!(matches!(
        changed.validate_metadata().unwrap_err(),
        ConfidentialEnvelopeError::UnsupportedVersion(2)
    ));
}

fn use_errors(r: Result<EncryptedSocialEnvelope, ConfidentialEnvelopeError>, what: &str) {
    match r.unwrap_err() {
        ConfidentialEnvelopeError::NoRecipients => assert_eq!(what, "none"),
        ConfidentialEnvelopeError::EmptySharedSecret => assert_eq!(what, "secret"),
        other => panic!("unexpected error: {other:?}"),
    }
}
