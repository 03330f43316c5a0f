//! Settlement proofs and anchors.
use nexus::identity::NodeIdentity;
use nexus::settlement::{
    AnchoredCheckpoint, AuthorityAnchor, AuthorityKind, ExternalPaymentSettlement,
    LightningSettlement, MutualCreditSettlement, SettlementError, SettlementProof, StateCheckpoint,
};
use nexus::types::Did;
use sha2::{Digest, Sha256};

fn hash_hex(byte: u8) -> String {
    hex::encode([byte; 32])
}

#[test]
fn lightning_settlement_validates_preimage_hash() {
    let preimage = [7u8; 32];
    let proof = LightningSettlement {
        amount_msat: 1_000,
        payment_hash_hex: hex::encode(Sha256::digest(preimage)),
        preimage_hex: hex::encode(preimage),
    };

    proof.validate().unwrap();

    let mut tampered = proof;
    tampered.preimage_hex = hash_hex(8);
    assert_eq!(
        tampered.validate().unwrap_err(),
        SettlementError::LightningPreimageMismatch
    );
}

#[test]
fn anchored_checkpoint_requires_matching_commitment() {
    let checkpoint = StateCheckpoint {
        version: 1,
        subject: "society:local".into(),
        social_root_hex: Some(hash_hex(1)),
        workspace_root_hex: Some(hash_hex(2)),
        ledger_root_hex: Some(hash_hex(3)),
        policy_id: "adopted-facts-v1".into(),
        timestamp: 42,
    };
    let anchor = AuthorityAnchor {
        kind: AuthorityKind::Bitcoin,
        commitment_hex: checkpoint.commitment_hex().unwrap(),
        locator: Some(hash_hex(9)),
        attestors: Vec::new(),
        threshold: None,
    };

    AnchoredCheckpoint {
        checkpoint: checkpoint.clone(),
        anchor,
    }
    .validate()
    .unwrap();

    let wrong_anchor = AuthorityAnchor {
        kind: AuthorityKind::Bitcoin,
        commitment_hex: hash_hex(8),
        locator: Some(hash_hex(9)),
        attestors: Vec::new(),
        threshold: None,
    };
    assert_eq!(
        AnchoredCheckpoint {
            checkpoint,
            anchor: wrong_anchor,
        }
        .validate()
        .unwrap_err(),
        SettlementError::AnchorCommitmentMismatch
    );
}

#[test]
fn collective_anchor_requires_quorum() {
    let anchor = AuthorityAnchor {
        kind: AuthorityKind::CollectiveQuorum,
        commitment_hex: hash_hex(4),
        locator: None,
        attestors: vec![Did::new("did:key:a")],
        threshold: Some(2),
    };

    assert_eq!(
        anchor.validate().unwrap_err(),
        SettlementError::InsufficientQuorum {
            attestors: 1,
            threshold: 2,
        }
    );
}

#[test]
fn sovereign_settlement_is_valid_by_signed_event_authority() {
    SettlementProof::Sovereign.validate().unwrap();
}

#[test]
fn bitcoin_payment_requires_confirmed_txid() {
    let proof = ExternalPaymentSettlement {
        authority: AuthorityKind::Bitcoin,
        asset: "BTC".into(),
        amount: 25_000,
        payment_id: hash_hex(6),
        recipient: "bc1qexample".into(),
        confirmations: 2,
        min_confirmations: 3,
    };

    assert_eq!(
        proof.validate().unwrap_err(),
        SettlementError::InsufficientConfirmations {
            confirmations: 2,
            required: 3,
        }
    );
}

#[test]
fn fields_are_checked_in_order() {
    let mut checkpoint = StateCheckpoint {
        version: 1,
        subject: " \t".into(),
        social_root_hex: None,
        workspace_root_hex: Some("zz".into()),
        ledger_root_hex: None,
        policy_id: String::new(),
        timestamp: 1,
    };
    assert_eq!(
        checkpoint.validate().unwrap_err(),
        SettlementError::MissingField { field: "subject" }
    );
    checkpoint.subject = "s".into();
    assert_eq!(
        checkpoint.validate().unwrap_err(),
        SettlementError::MissingField { field: "policy_id" }
    );
    checkpoint.policy_id = "p".into();
    assert_eq!(
        checkpoint.commitment_hex().unwrap_err(),
        SettlementError::InvalidHashHex { field: "workspace_root_hex" }
    );
    checkpoint.workspace_root_hex = None;
    let json = r#"{"version":1,"subject":"s","policy_id":"p","timestamp":1}"#;
    assert_eq!(
        checkpoint.commitment_hex().unwrap(),
        hex::encode(Sha256::digest(json))
    );
}

#[test]
fn anchors_need_what_their_kind_asks_for() {
    let mut anchor = AuthorityAnchor {
        kind: AuthorityKind::CollectiveQuorum,
        commitment_hex: hash_hex(1),
        locator: None,
        attestors: Vec::new(),
        threshold: None,
    };
    assert_eq!(
        anchor.validate().unwrap_err(),
        SettlementError::MissingField { field: "threshold" }
    );
    anchor.kind = AuthorityKind::ExternalChain;
    assert_eq!(
        anchor.validate().unwrap_err(),
        SettlementError::MissingField { field: "locator" }
    );
    anchor.kind = AuthorityKind::TeeAttestation;
    anchor.validate().unwrap();
    anchor.commitment_hex = "00".into();
    assert_eq!(
        anchor.validate().unwrap_err(),
        SettlementError::InvalidHashHex { field: "commitment_hex" }
    );
}

#[test]
fn bitcoin_payment_id_is_a_hash() {
    let mut payment = ExternalPaymentSettlement {
        authority: AuthorityKind::Bitcoin,
        asset: "BTC".into(),
        amount: 1,
        payment_id: "abc".into(),
        recipient: "bc1q".into(),
        confirmations: 3,
        min_confirmations: 3,
    };
    assert_eq!(
        payment.validate().unwrap_err(),
        SettlementError::InvalidHashHex { field: "payment_id" }
    );
    payment.authority = AuthorityKind::ExternalChain;
    payment.validate().unwrap();
    payment.amount = 0;
    assert_eq!(
        payment.validate().unwrap_err(),
        SettlementError::ZeroAmount { field: "amount" }
    );
}

#[test]
fn mutual_credit_needs_the_counterparty() {
    let payer = NodeIdentity::generate();
    let payee = NodeIdentity::generate();
    let terms = MutualCreditSettlement::counterparty_signing_payload(
        "tx-1",
        42,
        payer.did(),
        payee.did(),
    );
    let settlement = |signature: Vec<u8>| {
        SettlementProof::MutualCredit(MutualCreditSettlement {
            counterparty: payee.did().clone(),
            amount: 42,
            ledger_tx_id: "tx-1".into(),
            counterparty_signature: signature,
        })
    };
    let signed = settlement(payee.sign(&terms));
    signed
        .validate_for_settlement(payer.did(), payee.did(), 42)
        .unwrap();
    assert_eq!(
        signed
            .validate_for_settlement(payer.did(), payee.did(), 43)
            .unwrap_err(),
        SettlementError::InvalidCounterpartySignature
    );
    assert_eq!(
        settlement(Vec::new())
            .validate_for_settlement(payer.did(), payee.did(), 42)
            .unwrap_err(),
        SettlementError::MissingField { field: "counterparty_signature" }
    );
    assert_eq!(
        settlement(payer.sign(&terms))
            .validate_for_settlement(payer.did(), payee.did(), 42)
            .unwrap_err(),
        SettlementError::InvalidCounterpartySignature
    );
}

#[test]
fn lightning_hash_may_be_in_upper_case() {
    let preimage = [9u8; 32];
    LightningSettlement {
        amount_msat: 1,
        payment_hash_hex: hex::encode(Sha256::digest(preimage)).to_uppercase(),
        preimage_hex: hex::encode(preimage),
    }
    .validate()
    .unwrap();
}
