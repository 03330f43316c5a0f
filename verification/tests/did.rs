//! Decentralized identifiers and base58.
use nexus::base58::{bs58_decode, bs58_encode};
use nexus::did::{derive_did, parse_did, DidError};
use nexus::identity::NodeIdentity;

#[test]
fn derive_and_parse_roundtrip() {
    let id = NodeIdentity::generate();
    let vk = id.verifying_key();
    let did_str = derive_did(&vk);

    assert!(did_str.starts_with("did:key:z"), "got: {did_str}");

    let parsed = parse_did(&did_str).expect("parse_did failed");
    assert_eq!(parsed, id.verifying_key());
}

#[test]
fn parse_invalid_prefix() {
    let err = parse_did("did:web:example.com").unwrap_err();
    assert!(matches!(err, DidError::InvalidPrefix(_)));
}

#[test]
fn parse_wrong_encoding() {
    let err = parse_did("did:key:xdeadbeef").unwrap_err();
    assert!(matches!(err, DidError::UnsupportedEncoding('x')));
}

#[test]
fn parse_garbage_data() {
    let err = parse_did("did:key:z1234").unwrap_err();
    assert!(
        matches!(err, DidError::Base58Decode(_)) | matches!(err, DidError::InvalidKeyLength(_))
    );
}

#[test]
fn bs58_roundtrip() {
    let data = b"hello world";
    let encoded = bs58_encode(data);
    let decoded = bs58_decode(&encoded).unwrap();
    assert_eq!(data, decoded.as_slice());
}

#[test]
fn bs58_leading_zeros() {
    let data = [0u8, 0u8, 1u8];
    let encoded = bs58_encode(&data);
    assert!(encoded.starts_with("11"));
    let decoded = bs58_decode(&encoded).unwrap();
    assert_eq!(&data[..], &decoded[..]);
}

#[test]
fn bs58_known_values() {
    assert_eq!(bs58_encode(b"Hello World!"), "2NEpo7TZRRrLZSi2U");
    assert_eq!(bs58_encode(b""), "");
    assert_eq!(bs58_encode(&[0, 0, 0]), "111");
    assert_eq!(bs58_decode("2NEpo7TZRRrLZSi2U").unwrap(), b"Hello World!");
}

#[test]
fn bs58_refuses_other_characters() {
    assert!(bs58_decode("0").is_err());
    assert!(bs58_decode("l").is_err());
    assert!(bs58_decode("\u{141}").is_err());
}

#[test]
fn did_of_a_known_key() {
    let did = derive_did(&[0u8; 32]);
    assert_eq!(parse_did(&did).unwrap(), [0u8; 32]);
    assert!(did.starts_with("did:key:z6Mk"));
}

#[test]
fn parse_refuses_wrong_length() {
    let short = format!("did:key:z{}", bs58_encode(&[0xed, 0x01, 5]));
    assert!(matches!(
        parse_did(&short).unwrap_err(),
        DidError::InvalidKeyLength(_)
    ));
}

#[test]
fn a_key_that_is_too_long_or_too_short_is_refused() {
    for extra in [0usize, 1, 20, 31, 33, 40] {
        let mut bytes = vec![0xed, 0x01];
        bytes.extend(vec![7u8; extra]);
        let text = format!("did:key:z{}", bs58_encode(&bytes));
        assert!(matches!(
            parse_did(&text).unwrap_err(),
            DidError::InvalidKeyLength(length) if length == extra
        ));
    }
    let mut bytes = vec![0xed, 0x01];
    bytes.extend([7u8; 32]);
    let text = format!("did:key:z{}", bs58_encode(&bytes));
    assert_eq!(derive_did(&parse_did(&text).unwrap()), text);
}

#[test]
fn a_key_of_another_type_is_refused_as_such() {
    for extra in [32usize, 33, 64] {
        let mut bytes = vec![0xe7, 0x01];
        bytes.extend(vec![2u8; extra]);
        let text = format!("did:key:z{}", bs58_encode(&bytes));
        assert!(matches!(
            parse_did(&text).unwrap_err(),
            DidError::UnsupportedMulticodec
        ));
    }
    let text = format!("did:key:z{}", bs58_encode(&[0xe7, 0x01, 2, 2]));
    assert!(matches!(
        parse_did(&text).unwrap_err(),
        DidError::InvalidKeyLength(2)
    ));
}
