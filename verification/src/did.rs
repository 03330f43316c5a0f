//! `did:key` identifiers: derivation from and parsing to Ed25519 public keys.
use crate::base58;
use crate::text;
use crate::twin::Twin;
use vstd::prelude::*;
use vstd::string::*;

verus! {

/// What is wrong with an identifier.
#[derive(Debug, PartialEq, Eq)]
pub enum DidError {
    /// The text does not start with `did:key:`.
    InvalidPrefix(String),
    /// The multibase prefix is not that of Base58.
    UnsupportedEncoding(char),
    /// The key is no Ed25519 public key.
    UnsupportedMulticodec,
    /// The key has not thirty-two bytes.
    InvalidKeyLength(usize),
    /// The key is no Base58.
    Base58Decode(String),
    /// The key could not be encoded.
    Base58Encode(String),
}

/// The mathematical form of [`DidError`].
pub enum DidErrorView {
    InvalidPrefix(Seq<char>),
    UnsupportedEncoding(char),
    UnsupportedMulticodec,
    InvalidKeyLength(usize),
    Base58Decode(Seq<char>),
    Base58Encode(Seq<char>),
}

impl DeepView for DidError {
    type V = DidErrorView;

    open spec fn deep_view(&self) -> DidErrorView {
        match self {
            DidError::InvalidPrefix(a0) => DidErrorView::InvalidPrefix(a0.deep_view()),
            DidError::UnsupportedEncoding(a0) => DidErrorView::UnsupportedEncoding(*a0),
            DidError::UnsupportedMulticodec => DidErrorView::UnsupportedMulticodec,
            DidError::InvalidKeyLength(a0) => DidErrorView::InvalidKeyLength(a0.deep_view()),
            DidError::Base58Decode(a0) => DidErrorView::Base58Decode(a0.deep_view()),
            DidError::Base58Encode(a0) => DidErrorView::Base58Encode(a0.deep_view()),
        }
    }
}

impl Twin for DidError {
    fn twin(&self) -> (r: Self) {
        match self {
            DidError::InvalidPrefix(a0) => DidError::InvalidPrefix(a0.twin()),
            DidError::UnsupportedEncoding(a0) => DidError::UnsupportedEncoding(*a0),
            DidError::UnsupportedMulticodec => DidError::UnsupportedMulticodec,
            DidError::InvalidKeyLength(a0) => DidError::InvalidKeyLength(a0.twin()),
            DidError::Base58Decode(a0) => DidError::Base58Decode(a0.twin()),
            DidError::Base58Encode(a0) => DidError::Base58Encode(a0.twin()),
        }
    }
}

impl Clone for DidError {
    fn clone(&self) -> (r: Self)
        ensures
            r.deep_view() == self.deep_view(),
    {
        self.twin()
    }
}

/// The identifier of an Ed25519 public key: the multicodec prefix and the key
/// in Base58, behind `did:key:z`.
pub open spec fn did_of(public_key: Seq<u8>) -> Seq<char> {
    "did:key:"@.push('z') + base58::encoded(seq![0xedu8, 0x01u8] + public_key)
}

/// The public key of an identifier, or what is wrong with it.
pub open spec fn did_key(did: Seq<char>) -> Result<Seq<u8>, DidErrorView> {
    if !text::occurs_at(did, "did:key:"@, 0) {
        Err(DidErrorView::InvalidPrefix(did))
    } else {
        let rest = did.subrange("did:key:"@.len() as int, did.len() as int);
        if rest.len() == 0 {
            Err(DidErrorView::UnsupportedEncoding('\0'))
        } else if rest[0] != 'z' {
            Err(DidErrorView::UnsupportedEncoding(rest[0]))
        } else {
            match base58::decoded(rest.drop_first()) {
                Err(message) => Err(DidErrorView::Base58Decode(message)),
                Ok(bytes) => if bytes.len() < 34 {
                    Err(
                        DidErrorView::InvalidKeyLength(
                            if bytes.len() < 2 {
                                0
                            } else {
                                (bytes.len() - 2) as usize
                            },
                        ),
                    )
                } else if bytes[0] != 0xed || bytes[1] != 0x01 {
                    Err(DidErrorView::UnsupportedMulticodec)
                } else if bytes.len() > 34 {
                    Err(DidErrorView::InvalidKeyLength((bytes.len() - 2) as usize))
                } else {
                    Ok(bytes.subrange(2, 34))
                },
            }
        }
    }
}

/// Parsing a derived identifier gives the public key back.
pub proof fn lemma_did_roundtrip(public_key: Seq<u8>)
    requires
        public_key.len() == 32,
    ensures
        did_key(did_of(public_key)) == Ok::<Seq<u8>, DidErrorView>(public_key),
{
    reveal_strlit("did:key:");
    let did = did_of(public_key);
    let bytes = seq![0xedu8, 0x01u8] + public_key;
    base58::lemma_base58_roundtrip(bytes);
    assert(did.subrange(0, 8) =~= "did:key:"@);
    assert(text::occurs_at(did, "did:key:"@, 0));
    let rest = did.subrange(8, did.len() as int);
    assert(rest[0] == 'z');
    assert(rest.drop_first() =~= base58::encoded(bytes));
    assert(bytes.subrange(2, 34) =~= public_key);
}

/// A text names a key only if it is the identifier derived from that key, so
/// that every key has one name.
pub proof fn lemma_did_canonical(did: Seq<char>)
    ensures
        did_key(did) matches Ok(key) ==> key.len() == 32 && did == did_of(key),
{
    if let Ok(key) = did_key(did) {
        reveal_strlit("did:key:");
        let rest = did.subrange(8, did.len() as int);
        let bytes = base58::decoded(rest.drop_first())->Ok_0;
        base58::lemma_base58_canonical(rest.drop_first());
        assert(seq![0xedu8, 0x01u8] + key =~= bytes);
        assert(did =~= did.subrange(0, 8).push('z') + rest.drop_first());
    }
}

/// Derives the identifier of an Ed25519 public key.
pub fn derive_did(verifying_key: &[u8; 32]) -> (r: String)
    ensures
        r@ == did_of(verifying_key@),
        did_key(r@) == Ok::<Seq<u8>, DidErrorView>(verifying_key@),
{
    let mut buf: Vec<u8> = Vec::new();
    buf.push(0xed);
    buf.push(0x01);
    let mut i: usize = 0;
    while i < 32
        invariant
            i <= 32,
            buf@ == seq![0xedu8, 0x01u8] + verifying_key@.subrange(0, i as int),
        decreases 32 - i,
    {
        buf.push(verifying_key[i]);
        i = i + 1;
        assert(verifying_key@.subrange(0, i as int) =~= verifying_key@.subrange(0, i - 1).push(
            verifying_key@[i - 1],
        ));
        assert(buf@ =~= seq![0xedu8, 0x01u8] + verifying_key@.subrange(0, i as int));
    }
    assert(verifying_key@.subrange(0, 32) =~= verifying_key@);
    let encoded = base58::bs58_encode(buf.as_slice());
    let mut r = text::owned("did:key:");
    r.push('z');
    r.append(encoded.as_str());
    proof {
        lemma_did_roundtrip(verifying_key@);
    }
    r
}

/// The first thirty-two bytes of a slice.
pub fn array32(bytes: &[u8]) -> (r: [u8; 32])
    requires
        bytes@.len() >= 32,
    ensures
        r@ == bytes@.subrange(0, 32),
{
    let mut r = [0u8; 32];
    let mut i: usize = 0;
    while i < 32
        invariant
            i <= 32,
            bytes@.len() >= 32,
            r@.len() == 32,
            forall|j: int| 0 <= j < i ==> r@[j] == bytes@[j],
        decreases 32 - i,
    {
        r[i] = bytes[i];
        i = i + 1;
    }
    assert(r@ =~= bytes@.subrange(0, 32));
    r
}

/// The first twelve bytes of a slice.
pub fn array12(bytes: &[u8]) -> (r: [u8; 12])
    requires
        bytes@.len() >= 12,
    ensures
        r@ == bytes@.subrange(0, 12),
{
    let mut r = [0u8; 12];
    let mut i: usize = 0;
    while i < 12
        invariant
            i <= 12,
            bytes@.len() >= 12,
            r@.len() == 12,
            forall|j: int| 0 <= j < i ==> r@[j] == bytes@[j],
        decreases 12 - i,
    {
        r[i] = bytes[i];
        i = i + 1;
    }
    assert(r@ =~= bytes@.subrange(0, 12));
    r
}

/// Part of a character vector as a text.
fn tail_text(chars: &Vec<char>, from: usize) -> (r: String)
    requires
        from <= chars@.len(),
    ensures
        r@ == chars@.subrange(from as int, chars@.len() as int),
{
    let mut r = String::new();
    let mut i: usize = from;
    while i < chars.len()
        invariant
            from <= i <= chars@.len(),
            r@ == chars@.subrange(from as int, i as int),
        decreases chars@.len() - i,
    {
        r.push(chars[i]);
        i = i + 1;
        assert(chars@.subrange(from as int, i as int) =~= chars@.subrange(
            from as int,
            i - 1,
        ).push(chars@[i - 1]));
    }
    r
}

/// Parses an identifier to the public key in it.
pub fn parse_did(did: &str) -> (r: Result<[u8; 32], DidError>)
    ensures
        match r {
            Ok(key) => did_key(did@) == Ok::<Seq<u8>, DidErrorView>(key@) && did@ == did_of(key@),
            Err(e) => did_key(did@) == Err::<Seq<u8>, DidErrorView>(e.deep_view()),
        },
{
    proof {
        reveal_strlit("did:key:");
    }
    let chars = text::chars_of(did);
    let prefix = text::chars_of("did:key:");
    let mut i: usize = 0;
    while i < 8
        invariant
            i <= 8,
            chars@ == did@,
            prefix@ == "did:key:"@,
            prefix@.len() == 8,
            i <= chars@.len(),
            forall|j: int| 0 <= j < i ==> chars@[j] == prefix@[j],
        decreases 8 - i,
    {
        if i >= chars.len() || chars[i] != prefix[i] {
            proof {
                if text::occurs_at(did@, "did:key:"@, 0) {
                    assert(did@.subrange(0, 8)[i as int] == did@[i as int]);
                }
            }
            return Err(DidError::InvalidPrefix(text::owned(did)));
        }
        i = i + 1;
    }
    assert(did@.subrange(0, 8) =~= "did:key:"@);
    let ghost rest = did@.subrange(8, did@.len() as int);
    if chars.len() == 8 {
        return Err(DidError::UnsupportedEncoding('\0'));
    }
    assert(rest[0] == did@[8]);
    if chars[8] != 'z' {
        return Err(DidError::UnsupportedEncoding(chars[8]));
    }
    let encoded = tail_text(&chars, 9);
    assert(encoded@ =~= rest.drop_first());
    let decoded = match base58::bs58_decode(encoded.as_str()) {
        Ok(bytes) => bytes,
        Err(message) => {
            return Err(DidError::Base58Decode(message));
        },
    };
    if decoded.len() < 34 {
        let length: usize = if decoded.len() < 2 {
            0
        } else {
            decoded.len() - 2
        };
        return Err(DidError::InvalidKeyLength(length));
    }
    if decoded[0] != 0xed || decoded[1] != 0x01 {
        return Err(DidError::UnsupportedMulticodec);
    }
    if decoded.len() > 34 {
        return Err(DidError::InvalidKeyLength(decoded.len() - 2));
    }
    let mut key = [0u8; 32];
    let mut k: usize = 0;
    while k < 32
        invariant
            k <= 32,
            decoded@.len() == 34,
            key@.len() == 32,
            forall|j: int| 0 <= j < k ==> key@[j] == decoded@[j + 2],
        decreases 32 - k,
    {
        key[k] = decoded[k + 2];
        k = k + 1;
    }
    assert(key@ =~= decoded@.subrange(2, 34));
    proof {
        lemma_did_canonical(did@);
    }
    Ok(key)
}

} // verus!
