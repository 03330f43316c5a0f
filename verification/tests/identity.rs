//! Node identities.
use nexus::identity::{
    decrypt_seed, lock_seed, verify_did_signature, IdentitySignatureError, IdentityStorageError,
    NodeIdentity,
};
use nexus::types::Did;

#[test]
fn generate_creates_valid_did() {
    let id = NodeIdentity::generate();
    let did = id.did().to_string();
    assert!(did.starts_with("did:key:z"), "got: {did}");
}

#[test]
fn deterministic_did_from_signing_key() {
    let id1 = NodeIdentity::generate();
    let sk_bytes = *id1.signing_key();

    // Reconstruct from the same key bytes
    let id2 = NodeIdentity::from_signing_key(sk_bytes);

    assert_eq!(id1.did(), id2.did());
    assert_eq!(id1.verifying_key(), id2.verifying_key());
}

#[test]
fn stored_identity_opens_again() {
    let id = NodeIdentity::generate();
    let stored = id.to_stored("test-passphrase").unwrap();
    let key = stored.key.as_ref().unwrap();
    assert!(stored.seed_hex.is_none());
    assert_eq!(key.kdf, "pbkdf2-sha256");
    assert_eq!(key.iterations, 210_000);

    let (loaded, migrate) = NodeIdentity::from_stored(&stored, "test-passphrase").unwrap();
    assert_eq!(id.did(), loaded.did());
    assert_eq!(id.to_seed_bytes(), loaded.to_seed_bytes());
    assert!(!migrate);
}

#[test]
fn stored_plaintext_seed_asks_for_migration() {
    let id = NodeIdentity::generate();
    let mut stored = id.to_stored("test-passphrase").unwrap();
    stored.key = None;
    stored.seed_hex = Some(hex::encode(id.to_seed_bytes()));
    let (loaded, migrate) = NodeIdentity::from_stored(&stored, "test-passphrase").unwrap();
    assert_eq!(id.did(), loaded.did());
    assert!(migrate);
}

#[test]
fn stored_identity_with_wrong_passphrase_or_did_is_refused() {
    let id = NodeIdentity::generate();
    let other = NodeIdentity::generate();
    let mut stored = id.to_stored("test-passphrase").unwrap();
    let err = match NodeIdentity::from_stored(&stored, "wrong-passphrase") {
        Ok(_) => panic!("wrong passphrase must fail"),
        Err(err) => err,
    };
    assert!(matches!(err, IdentityStorageError::DecryptionFailed));

    stored.key = None;
    stored.seed_hex = Some(hex::encode(other.to_seed_bytes()));
    let err = match NodeIdentity::from_stored(&stored, "test-passphrase") {
        Ok(_) => panic!("another seed must fail"),
        Err(err) => err,
    };
    assert!(matches!(err, IdentityStorageError::DidMismatch { .. }));

    assert!(matches!(
        id.to_stored("").unwrap_err(),
        IdentityStorageError::EmptyPassphrase
    ));
}

#[test]
fn sign_and_verify() {
    let id = NodeIdentity::generate();
    let msg = b"hello nexus";

    let sig = id.sign(msg);
    let vk = id.verifying_key();

    NodeIdentity::verify(&vk, msg, &sig).expect("signature must verify");

    // Tampered message must fail
    let bad = NodeIdentity::verify(&vk, b"hello nexsus", &sig);
    assert!(bad.is_err());
}

#[test]
fn verify_did_signature_checks_message_and_signature() {
    let id = NodeIdentity::generate();
    let msg = b"detached claim";
    let signature = id.sign(msg);

    verify_did_signature(id.did(), msg, &signature).unwrap();
    assert!(verify_did_signature(id.did(), b"tampered claim", &signature).is_err());

    let mut tampered_signature = signature.clone();
    tampered_signature[0] ^= 0xff;
    assert!(verify_did_signature(id.did(), msg, &tampered_signature).is_err());
}

#[test]
fn known_seed_has_known_public_key() {
    let seed = hex::decode("9d61b19deffd5a60ba844af492ec2cc44449c5697b326919703bac031cae7f60").unwrap();
    let mut bytes = [0u8; 32];
    bytes.copy_from_slice(&seed);
    let id = NodeIdentity::from_seed_bytes(&bytes);
    assert_eq!(
        hex::encode(id.verifying_key()),
        "d75a980182b10ab7d54bfed3c964073a0ee172f3daa62325af021a68f707511a"
    );
    assert_eq!(
        hex::encode(id.sign(b"")),
        "e5564300c360ac729086e2cc806e828a84877f1eb8e5d974d873e065224901555fb8821590a33bacc61e39701cf9b46bd25bf5f0595bbe24655141438e7a100b"
    );
}

#[test]
fn signature_errors_name_their_cause() {
    let id = NodeIdentity::generate();
    assert!(matches!(
        verify_did_signature(id.did(), b"m", &[1, 2, 3]).unwrap_err(),
        IdentitySignatureError::InvalidSignatureBytes
    ));
    assert!(matches!(
        verify_did_signature(&Did::new("did:web:x"), b"m", &[0; 64]).unwrap_err(),
        IdentitySignatureError::InvalidDid(_)
    ));
    assert!(matches!(
        verify_did_signature(id.did(), b"m", &[0; 64]).unwrap_err(),
        IdentitySignatureError::VerificationFailed
    ));
}

#[test]
fn a_locked_seed_is_sealed_under_the_derived_key() {
    let seed = [4; 32];
    let locked = lock_seed(seed, "did:key:z", "open", &[2; 16], &[3; 12]).unwrap();
    assert_eq!(locked.salt_hex, "02".repeat(16));
    assert_eq!(locked.nonce_hex, "03".repeat(12));
    let mut key = [0u8; 32];
    ring::pbkdf2::derive(
        ring::pbkdf2::PBKDF2_HMAC_SHA256,
        std::num::NonZeroU32::new(210_000).unwrap(),
        &[2; 16],
        b"open",
        &mut key,
    );
    let aead = ring::aead::LessSafeKey::new(
        ring::aead::UnboundKey::new(&ring::aead::CHACHA20_POLY1305, &key).unwrap(),
    );
    let mut sealed = seed.to_vec();
    aead.seal_in_place_append_tag(
        ring::aead::Nonce::assume_unique_for_key([3; 12]),
        ring::aead::Aad::from(b"nexus-identity-key-v1:did:key:z"),
        &mut sealed,
    )
    .unwrap();
    assert_eq!(locked.ciphertext_hex, hex::encode(sealed));
    assert_eq!(decrypt_seed(&locked, "did:key:z", "open").unwrap(), seed);
}
