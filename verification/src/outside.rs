//! The boundary to the cryptographic and encoding crates.
//!
//! Everything here is believed rather than proved; each item says what is
//! claimed of the function it calls.
use crate::twin::Twin;
use crate::wire::{self, WireView};
use ed25519_dalek::{Signer, Verifier};
use rand::RngCore;
use sha2::Digest;
use vstd::prelude::*;
use vstd::string::*;
use vstd::utf8::*;

verus! {

/// Why a text is not hexadecimal.
#[derive(Clone, Copy, Debug, PartialEq, Eq, Structural)]
pub enum HexError {
    /// A byte that is no hexadecimal digit, and where it stands.
    InvalidHexCharacter { c: char, index: usize },
    /// An odd number of digits.
    OddLength,
    /// A number of digits that does not fit the target.
    InvalidStringLength,
}

impl DeepView for HexError {
    type V = HexError;

    open spec fn deep_view(&self) -> HexError {
        *self
    }
}

impl Twin for HexError {
    fn twin(&self) -> (r: Self) {
        *self
    }
}

/// The lower-case hexadecimal digit of a value below sixteen.
pub open spec fn hex_digit(n: int) -> char {
    if n < 10 {
        (('0' as u32) + n) as char
    } else {
        (('a' as u32) + (n - 10)) as char
    }
}

/// Two lower-case digits per byte, the high half first.
pub open spec fn hex_text(bytes: Seq<u8>) -> Seq<char> {
    Seq::new(
        2 * bytes.len(),
        |i: int|
            hex_digit(
                if i % 2 == 0 {
                    bytes[i / 2] as int / 16
                } else {
                    bytes[i / 2] as int % 16
                },
            ),
    )
}

/// The value of a hexadecimal digit of either case.
pub open spec fn nibble(b: u8) -> Option<int> {
    if 48 <= b <= 57 {
        Some(b - 48)
    } else if 65 <= b <= 70 {
        Some(b - 55)
    } else if 97 <= b <= 102 {
        Some(b - 87)
    } else {
        None
    }
}

/// Whether `i` is the first byte that is no hexadecimal digit.
pub open spec fn first_bad(bytes: Seq<u8>, i: int) -> bool {
    &&& 0 <= i < bytes.len()
    &&& nibble(bytes[i]) is None
    &&& forall|j: int| 0 <= j < i ==> nibble(#[trigger] bytes[j]) is Some
}

/// Reads pairs of hexadecimal digits.
pub open spec fn hex_parse(bytes: Seq<u8>) -> Result<Seq<u8>, HexError> {
    if bytes.len() % 2 != 0 {
        Err(HexError::OddLength)
    } else if forall|j: int| 0 <= j < bytes.len() ==> nibble(#[trigger] bytes[j]) is Some {
        Ok(
            Seq::new(
                bytes.len() / 2,
                |i: int| (16 * nibble(bytes[2 * i])->0 + nibble(bytes[2 * i + 1])->0) as u8,
            ),
        )
    } else {
        let i = choose|i: int| first_bad(bytes, i);
        Err(HexError::InvalidHexCharacter { c: bytes[i] as char, index: i as usize })
    }
}

/// Reading the hexadecimal form of bytes gives the bytes back.
pub proof fn lemma_hex_roundtrip(bytes: Seq<u8>)
    ensures
        hex_parse(encode_utf8(hex_text(bytes))) == Ok::<Seq<u8>, HexError>(bytes),
{
    let t = hex_text(bytes);
    assert forall|i: int| 0 <= i < t.len() implies (t[i] as u32) < 128 by {
        assert(0 <= bytes[i / 2] as int / 16 < 16);
        assert(0 <= bytes[i / 2] as int % 16 < 16);
    }
    assert(is_ascii_chars(t));
    is_ascii_chars_encode_utf8(t);
    let b = encode_utf8(t);
    assert forall|i: int| 0 <= i < b.len() implies nibble(#[trigger] b[i]) == Some(
        if i % 2 == 0 {
            bytes[i / 2] as int / 16
        } else {
            bytes[i / 2] as int % 16
        },
    ) by {
        assert(b[i] == t[i] as u8);
        assert(0 <= bytes[i / 2] as int / 16 < 16);
        assert(0 <= bytes[i / 2] as int % 16 < 16);
    }
    let back = hex_parse(b)->Ok_0;
    assert(b.len() == 2 * bytes.len());
    assert forall|i: int| 0 <= i < bytes.len() implies back[i] == bytes[i] by {
        assert(nibble(b[2 * i]) == Some(bytes[i] as int / 16));
        assert(nibble(b[2 * i + 1]) == Some(bytes[i] as int % 16));
    }
    assert(back =~= bytes);
}

/// The view of a result that carries bytes.
pub open spec fn bytes_result<E>(r: Result<Vec<u8>, E>) -> Result<Seq<u8>, E> {
    match r {
        Ok(v) => Ok(v@),
        Err(e) => Err(e),
    }
}

/// The view of an option that carries bytes.
pub open spec fn bytes_option(r: Option<Vec<u8>>) -> Option<Seq<u8>> {
    match r {
        Some(v) => Some(v@),
        None => None,
    }
}

/// `hex::encode`: two lower-case digits per byte.
#[verifier::external_body]
pub(crate) fn hex_encode(bytes: &[u8]) -> (r: String)
    ensures
        r@ == hex_text(bytes@),
{
    hex::encode(bytes)
}

/// `hex::decode`: pairs of digits of either case, read from the UTF-8 bytes;
/// an odd length is refused first, then the first byte that is no digit.
#[verifier::external_body]
pub(crate) fn hex_decode(text: &str) -> (r: Result<Vec<u8>, HexError>)
    ensures
        bytes_result(r) == hex_parse(text.spec_bytes()),
{
    hex::decode(text).map_err(|e| match e {
        hex::FromHexError::InvalidHexCharacter { c, index } => HexError::InvalidHexCharacter { c, index },
        hex::FromHexError::OddLength => HexError::OddLength,
        hex::FromHexError::InvalidStringLength => HexError::InvalidStringLength,
    })
}

/// The SHA-256 digest of a byte string.
pub uninterp spec fn sha256_of(bytes: Seq<u8>) -> Seq<u8>;

/// `sha2::Sha256::digest`: thirty-two bytes that depend on the input alone.
#[verifier::external_body]
pub(crate) fn sha256(bytes: &[u8]) -> (r: [u8; 32])
    ensures
        r@ == sha256_of(bytes@),
{
    sha2::Sha256::digest(bytes).into()
}

/// No input of HMAC-SHA-256 may have more bytes than this.
pub const DIGEST_LIMIT: u64 = 0x0FFF_FFFF_FFFF_FFFF;

/// The HMAC-SHA-256 tag of a message under a key.
pub uninterp spec fn hmac_of(key: Seq<u8>, message: Seq<u8>) -> Seq<u8>;

/// `ring::hmac::sign` with HMAC-SHA-256: a thirty-two byte tag that depends on
/// key and message alone. It panics on inputs whose length in bits overflows.
#[verifier::external_body]
pub(crate) fn hmac_sha256(key: &[u8], message: &[u8]) -> (r: Vec<u8>)
    requires
        key@.len() <= DIGEST_LIMIT,
        message@.len() <= DIGEST_LIMIT,
    ensures
        r@ == hmac_of(key@, message@),
        r@.len() == 32,
{
    let key = ring::hmac::Key::new(ring::hmac::HMAC_SHA256, key);
    ring::hmac::sign(&key, message).as_ref().to_vec()
}

/// The PBKDF2-HMAC-SHA-256 key of thirty-two bytes.
pub uninterp spec fn pbkdf2_of(iterations: u32, salt: Seq<u8>, secret: Seq<u8>) -> Seq<u8>;

/// `ring::pbkdf2::derive` with HMAC-SHA-256 and a thirty-two byte output, which
/// depends on the arguments alone. It panics on inputs whose length in bits
/// overflows.
#[verifier::external_body]
pub(crate) fn pbkdf2_sha256(iterations: u32, salt: &[u8], secret: &[u8]) -> (r: [u8; 32])
    requires
        iterations > 0,
        salt@.len() <= DIGEST_LIMIT,
        secret@.len() <= DIGEST_LIMIT,
    ensures
        r@ == pbkdf2_of(iterations, salt@, secret@),
{
    let rounds = std::num::NonZeroU32::new(iterations).unwrap_or(std::num::NonZeroU32::MIN);
    let mut key = [0u8; 32];
    ring::pbkdf2::derive(ring::pbkdf2::PBKDF2_HMAC_SHA256, rounds, salt, secret, &mut key);
    key
}

/// What ChaCha20-Poly1305 sealing produces: ciphertext and tag.
pub uninterp spec fn sealed(
    key: Seq<u8>,
    nonce: Seq<u8>,
    aad: Seq<u8>,
    plain: Seq<u8>,
) -> Option<Seq<u8>>;

/// What ChaCha20-Poly1305 opening recovers.
pub uninterp spec fn opened(
    key: Seq<u8>,
    nonce: Seq<u8>,
    aad: Seq<u8>,
    cipher: Seq<u8>,
) -> Option<Seq<u8>>;

/// `ring::aead::LessSafeKey::seal_in_place_append_tag` with CHACHA20_POLY1305:
/// the result depends on the arguments alone; inputs of at most
/// 274877906880 bytes are sealed; and what was sealed opens, under the same
/// key, nonce and associated data, to the plaintext.
#[verifier::external_body]
pub(crate) fn aead_seal(key: &[u8; 32], nonce: &[u8; 12], aad: &[u8], plain: &[u8]) -> (r: Option<Vec<u8>>)
    ensures
        bytes_option(r) == sealed(key@, nonce@, aad@, plain@),
        plain@.len() <= 274877906880 ==> r is Some,
        r matches Some(c) ==> opened(key@, nonce@, aad@, c@) == Some(plain@),
{
    let unbound = ring::aead::UnboundKey::new(&ring::aead::CHACHA20_POLY1305, key).ok()?;
    let mut data = plain.to_vec();
    ring::aead::LessSafeKey::new(unbound)
        .seal_in_place_append_tag(
            ring::aead::Nonce::assume_unique_for_key(*nonce),
            ring::aead::Aad::from(aad),
            &mut data,
        )
        .ok()?;
    Some(data)
}

/// `ring::aead::LessSafeKey::open_in_place` with CHACHA20_POLY1305: the result
/// depends on the arguments alone.
#[verifier::external_body]
pub(crate) fn aead_open(key: &[u8; 32], nonce: &[u8; 12], aad: &[u8], cipher: &[u8]) -> (r: Option<Vec<u8>>)
    ensures
        bytes_option(r) == opened(key@, nonce@, aad@, cipher@),
{
    let unbound = ring::aead::UnboundKey::new(&ring::aead::CHACHA20_POLY1305, key).ok()?;
    let mut data = cipher.to_vec();
    ring::aead::LessSafeKey::new(unbound)
        .open_in_place(
            ring::aead::Nonce::assume_unique_for_key(*nonce),
            ring::aead::Aad::from(aad),
            &mut data,
        )
        .ok()
        .map(|plain| plain.to_vec())
}

/// The Ed25519 public key of a seed.
pub uninterp spec fn public_key_of(seed: Seq<u8>) -> Seq<u8>;

/// Whether thirty-two bytes decompress to an Ed25519 public key.
pub uninterp spec fn is_public_key(key: Seq<u8>) -> bool;

/// The Ed25519 signature of a message under a seed.
pub uninterp spec fn signature_of(seed: Seq<u8>, message: Seq<u8>) -> Seq<u8>;

/// Whether Ed25519 verification accepts a signature.
pub uninterp spec fn accepts(key: Seq<u8>, message: Seq<u8>, signature: Seq<u8>) -> bool;

/// `ed25519_dalek::SigningKey::from_bytes` and `verifying_key`: the key depends
/// on the seed alone, and it is a public key.
#[verifier::external_body]
pub(crate) fn ed25519_public_key(seed: &[u8; 32]) -> (r: [u8; 32])
    ensures
        r@ == public_key_of(seed@),
        is_public_key(r@),
{
    ed25519_dalek::SigningKey::from_bytes(seed).verifying_key().to_bytes()
}

/// `ed25519_dalek::VerifyingKey::from_bytes`: whether the bytes decompress to a
/// curve point, which depends on the bytes alone.
#[verifier::external_body]
pub(crate) fn ed25519_key_valid(key: &[u8; 32]) -> (r: bool)
    ensures
        r == is_public_key(key@),
{
    ed25519_dalek::VerifyingKey::from_bytes(key).is_ok()
}

/// `ed25519_dalek::SigningKey::sign`: sixty-four bytes that depend on seed and
/// message alone, and that verification under the seed's public key accepts.
#[verifier::external_body]
pub(crate) fn ed25519_sign(seed: &[u8; 32], message: &[u8]) -> (r: Vec<u8>)
    ensures
        r@ == signature_of(seed@, message@),
        r@.len() == 64,
        accepts(public_key_of(seed@), message@, r@),
{
    ed25519_dalek::SigningKey::from_bytes(seed).sign(message).to_bytes().to_vec()
}

/// `ed25519_dalek::VerifyingKey::verify` on a key and a signature of the right
/// shape: the answer depends on the arguments alone.
#[verifier::external_body]
pub(crate) fn ed25519_verify(key: &[u8; 32], message: &[u8], signature: &[u8]) -> (r: bool)
    requires
        is_public_key(key@),
        signature@.len() == 64,
    ensures
        r == accepts(key@, message@, signature@),
{
    match (ed25519_dalek::VerifyingKey::from_bytes(key), ed25519_dalek::Signature::from_slice(signature)) {
        (Ok(key), Ok(signature)) => key.verify(message, &signature).is_ok(),
        _ => false,
    }
}

/// `rand::rngs::OsRng::fill_bytes`: as many bytes as asked for, with nothing
/// said about their values.
#[verifier::external_body]
pub(crate) fn random_bytes(count: usize) -> (r: Vec<u8>)
    ensures
        r@.len() == count,
{
    let mut bytes = vec![0u8; count];
    rand::rngs::OsRng.fill_bytes(&mut bytes);
    bytes
}

/// `std::time::SystemTime::elapsed` of the start of 1970: the whole seconds since
/// then, or nothing where the clock stands before it, with nothing said about
/// the clock.
#[verifier::external_body]
fn seconds_since_epoch() -> (r: Option<u64>) {
    std::time::UNIX_EPOCH.elapsed().ok().map(|elapsed| elapsed.as_secs())
}

/// The seconds since 1970, or zero before that.
pub(crate) fn unix_now() -> (r: u64) {
    match seconds_since_epoch() {
        Some(seconds) => seconds,
        None => 0,
    }
}

/// A JSON value of `serde_json`.
#[verifier::external_type_specification]
#[verifier::external_body]
pub struct ExJsonValue(serde_json::Value);

/// A CBOR value of `ciborium`.
#[verifier::external_type_specification]
#[verifier::external_body]
pub struct ExCborValue(ciborium::Value);

/// What a JSON value holds, as a document.
pub uninterp spec fn json_model(value: serde_json::Value) -> WireView;

/// What a CBOR value holds, as a document.
pub uninterp spec fn cbor_model(value: ciborium::Value) -> WireView;

/// The compact JSON bytes of a document.
pub uninterp spec fn json_of(document: WireView) -> Seq<u8>;

/// The CBOR bytes of a document.
pub uninterp spec fn cbor_of(document: WireView) -> Seq<u8>;

/// `serde_json::Value::Null`.
#[verifier::external_body]
pub(crate) fn json_null() -> (r: serde_json::Value)
    ensures
        json_model(r) == WireView::Null,
{
    serde_json::Value::Null
}

/// `serde_json::Value::Bool`.
#[verifier::external_body]
pub(crate) fn json_bool(b: bool) -> (r: serde_json::Value)
    ensures
        json_model(r) == WireView::Bool(b),
{
    serde_json::Value::Bool(b)
}

/// `serde_json::Value::from` for an unsigned number.
#[verifier::external_body]
pub(crate) fn json_unsigned(n: u64) -> (r: serde_json::Value)
    ensures
        json_model(r) == WireView::Unsigned(n),
{
    serde_json::Value::from(n)
}

/// `serde_json::Value::from` for a negative number.
#[verifier::external_body]
pub(crate) fn json_signed(n: i64) -> (r: serde_json::Value)
    requires
        n < 0,
    ensures
        json_model(r) == WireView::Signed(n),
{
    serde_json::Value::from(n)
}

/// `serde_json::Value::String`.
#[verifier::external_body]
pub(crate) fn json_text(t: String) -> (r: serde_json::Value)
    ensures
        json_model(r) == WireView::Text(t@),
{
    serde_json::Value::String(t)
}

/// `serde_json::Value::Array`: the items in order.
#[verifier::external_body]
pub(crate) fn json_list(items: Vec<serde_json::Value>) -> (r: serde_json::Value)
    ensures
        json_model(r) == WireView::List(Seq::new(items@.len(), |i: int| json_model(items@[i]))),
{
    serde_json::Value::Array(items)
}

/// `serde_json::Value::Object` from a map that keeps insertion order: the last
/// value given for a name stands, at the place where the name first came.
#[verifier::external_body]
pub(crate) fn json_record(fields: Vec<(String, serde_json::Value)>) -> (r: serde_json::Value)
    ensures
        json_model(r) == WireView::Record(
            wire::latest(
                Seq::new(fields@.len(), |i: int| (fields@[i].0@, json_model(fields@[i].1))),
            ),
        ),
{
    serde_json::Value::Object(fields.into_iter().collect())
}

/// What `serde_json` reads from bytes: a document, or a message.
pub uninterp spec fn json_read(bytes: Seq<u8>) -> Result<WireView, Seq<char>>;

/// `serde_json::from_slice` into a JSON value: what is read, or why nothing is,
/// depends on the bytes alone.
#[verifier::external_body]
pub(crate) fn json_parse(data: &[u8]) -> (r: Result<serde_json::Value, String>)
    ensures
        match r {
            Ok(value) => json_read(data@) == Ok::<WireView, Seq<char>>(json_model(value)),
            Err(message) => json_read(data@) == Err::<WireView, Seq<char>>(message@),
        },
{
    serde_json::from_slice(data).map_err(|e| e.to_string())
}

/// `serde_json::Value::get` with a name: the field of an object, and nothing for
/// any other value.
#[verifier::external_body]
pub(crate) fn json_field<'a>(value: &'a serde_json::Value, name: &str) -> (r: Option<
    &'a serde_json::Value,
>)
    ensures
        match r {
            Some(found) => wire::field(json_model(*value), name@) == Some(json_model(*found)),
            None => wire::field(json_model(*value), name@) is None,
        },
{
    value.get(name)
}

/// `serde_json::Value::as_array`: the items of an array in order, and nothing
/// for any other value.
#[verifier::external_body]
pub(crate) fn json_items(value: &serde_json::Value) -> (r: Option<&Vec<serde_json::Value>>)
    ensures
        match r {
            Some(items) => json_model(*value) == WireView::List(
                Seq::new(items@.len(), |i: int| json_model(items@[i])),
            ),
            None => !(json_model(*value) is List),
        },
{
    value.as_array()
}

/// `serde_json::to_vec` of a JSON value: it succeeds, and its bytes depend on
/// what the value holds alone.
#[verifier::external_body]
pub(crate) fn json_write(value: &serde_json::Value) -> (r: Vec<u8>)
    ensures
        r@ == json_of(json_model(*value)),
{
    serde_json::to_vec(value).unwrap_or_default()
}

/// `ciborium::Value::Null`.
#[verifier::external_body]
pub(crate) fn cbor_null() -> (r: ciborium::Value)
    ensures
        cbor_model(r) == WireView::Null,
{
    ciborium::Value::Null
}

/// `ciborium::Value::Bool`.
#[verifier::external_body]
pub(crate) fn cbor_bool(b: bool) -> (r: ciborium::Value)
    ensures
        cbor_model(r) == WireView::Bool(b),
{
    ciborium::Value::Bool(b)
}

/// `ciborium::Value::from` for an unsigned number.
#[verifier::external_body]
pub(crate) fn cbor_unsigned(n: u64) -> (r: ciborium::Value)
    ensures
        cbor_model(r) == WireView::Unsigned(n),
{
    ciborium::Value::from(n)
}

/// `ciborium::Value::from` for a negative number.
#[verifier::external_body]
pub(crate) fn cbor_signed(n: i64) -> (r: ciborium::Value)
    requires
        n < 0,
    ensures
        cbor_model(r) == WireView::Signed(n),
{
    ciborium::Value::from(n)
}

/// `ciborium::Value::Text`.
#[verifier::external_body]
pub(crate) fn cbor_text(t: String) -> (r: ciborium::Value)
    ensures
        cbor_model(r) == WireView::Text(t@),
{
    ciborium::Value::Text(t)
}

/// `ciborium::Value::Array`: the items in order.
#[verifier::external_body]
pub(crate) fn cbor_list(items: Vec<ciborium::Value>) -> (r: ciborium::Value)
    ensures
        cbor_model(r) == WireView::List(Seq::new(items@.len(), |i: int| cbor_model(items@[i]))),
{
    ciborium::Value::Array(items)
}

/// `ciborium::Value::Map` with text keys: the fields in order.
#[verifier::external_body]
pub(crate) fn cbor_record(fields: Vec<(String, ciborium::Value)>) -> (r: ciborium::Value)
    ensures
        cbor_model(r) == WireView::Record(
            Seq::new(fields@.len(), |i: int| (fields@[i].0@, cbor_model(fields@[i].1))),
        ),
{
    let pairs = fields.into_iter().map(|f| (ciborium::Value::Text(f.0), f.1));
    ciborium::Value::Map(pairs.collect())
}

/// `ciborium::into_writer` into memory: it succeeds, and its bytes depend on
/// what the value holds alone.
#[verifier::external_body]
pub(crate) fn cbor_write(value: &ciborium::Value) -> (r: Vec<u8>)
    ensures
        r@ == cbor_of(cbor_model(*value)),
{
    let mut bytes = Vec::new();
    let _ = ciborium::into_writer(value, &mut bytes);
    bytes
}

} // verus!
