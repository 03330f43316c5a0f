//! Confidential envelopes for social events.
//!
//! A payload is sealed under a key that is derived from a shared secret and the
//! list of recipients.
use crate::did;
use crate::order::{self, KeyPart};
use crate::outside::{self, HexError};
use crate::protocol::{kind_wire, SocialEventKind};
use crate::recovery::{by_name, by_name_of, lists, name_mark};
use crate::table::Key;
use crate::text;
use crate::twin::{lemma_bytes_view, outcome, Twin};
use crate::types::Did;
use crate::wire::{self, Encode};
use vstd::prelude::*;
use vstd::string::*;
use vstd::utf8::*;

verus! {

broadcast use lemma_bytes_view;

/// A sealed payload and who may open it.
#[derive(Debug, PartialEq, Eq)]
pub struct EncryptedSocialEnvelope {
    pub version: u16,
    pub recipients: Vec<Did>,
    pub key_id: String,
    pub nonce_hex: String,
    pub ciphertext_hex: String,
}

/// The mathematical form of [`EncryptedSocialEnvelope`].
#[verifier::ext_equal]
pub struct EncryptedSocialEnvelopeView {
    pub version: u16,
    pub recipients: Seq<Seq<char>>,
    pub key_id: Seq<char>,
    pub nonce_hex: Seq<char>,
    pub ciphertext_hex: Seq<char>,
}

impl DeepView for EncryptedSocialEnvelope {
    type V = EncryptedSocialEnvelopeView;

    open spec fn deep_view(&self) -> EncryptedSocialEnvelopeView {
        EncryptedSocialEnvelopeView {
            version: self.version.deep_view(),
            recipients: self.recipients.deep_view(),
            key_id: self.key_id.deep_view(),
            nonce_hex: self.nonce_hex.deep_view(),
            ciphertext_hex: self.ciphertext_hex.deep_view(),
        }
    }
}

impl Twin for EncryptedSocialEnvelope {
    fn twin(&self) -> (r: Self) {
        EncryptedSocialEnvelope {
            version: self.version.twin(),
            recipients: self.recipients.twin(),
            key_id: self.key_id.twin(),
            nonce_hex: self.nonce_hex.twin(),
            ciphertext_hex: self.ciphertext_hex.twin(),
        }
    }
}

impl Clone for EncryptedSocialEnvelope {
    fn clone(&self) -> (r: Self)
        ensures
            r.deep_view() == self.deep_view(),
    {
        self.twin()
    }
}

/// Why an envelope cannot be sealed or opened.
#[derive(Debug, PartialEq, Eq)]
pub enum ConfidentialEnvelopeError {
    NoRecipients,
    EmptySharedSecret,
    InvalidNonceHex(HexError),
    InvalidCiphertextHex(HexError),
    InvalidNonceLength { expected: usize, actual: usize },
    UnsupportedVersion(u16),
    RecipientNotAllowed(Did),
    EncryptionFailed,
    DecryptionFailed,
    /// The payload is no event.
    Json(String),
}

/// The mathematical form of [`ConfidentialEnvelopeError`].
pub enum ConfidentialEnvelopeErrorView {
    NoRecipients,
    EmptySharedSecret,
    InvalidNonceHex(HexError),
    InvalidCiphertextHex(HexError),
    InvalidNonceLength { expected: usize, actual: usize },
    UnsupportedVersion(u16),
    RecipientNotAllowed(Seq<char>),
    EncryptionFailed,
    DecryptionFailed,
    Json(Seq<char>),
}

impl DeepView for ConfidentialEnvelopeError {
    type V = ConfidentialEnvelopeErrorView;

    open spec fn deep_view(&self) -> ConfidentialEnvelopeErrorView {
        match self {
            ConfidentialEnvelopeError::NoRecipients => ConfidentialEnvelopeErrorView::NoRecipients,
            ConfidentialEnvelopeError::EmptySharedSecret => ConfidentialEnvelopeErrorView::EmptySharedSecret,
            ConfidentialEnvelopeError::InvalidNonceHex(a0) => ConfidentialEnvelopeErrorView::InvalidNonceHex(a0.deep_view()),
            ConfidentialEnvelopeError::InvalidCiphertextHex(a0) => ConfidentialEnvelopeErrorView::InvalidCiphertextHex(a0.deep_view()),
            ConfidentialEnvelopeError::InvalidNonceLength { expected, actual } => ConfidentialEnvelopeErrorView::InvalidNonceLength {
                expected: expected.deep_view(),
                actual: actual.deep_view(),
            },
            ConfidentialEnvelopeError::UnsupportedVersion(a0) => ConfidentialEnvelopeErrorView::UnsupportedVersion(a0.deep_view()),
            ConfidentialEnvelopeError::RecipientNotAllowed(a0) => ConfidentialEnvelopeErrorView::RecipientNotAllowed(a0.deep_view()),
            ConfidentialEnvelopeError::EncryptionFailed => ConfidentialEnvelopeErrorView::EncryptionFailed,
            ConfidentialEnvelopeError::DecryptionFailed => ConfidentialEnvelopeErrorView::DecryptionFailed,
            ConfidentialEnvelopeError::Json(a0) => ConfidentialEnvelopeErrorView::Json(a0.deep_view()),
        }
    }
}

impl Twin for ConfidentialEnvelopeError {
    fn twin(&self) -> (r: Self) {
        match self {
            ConfidentialEnvelopeError::NoRecipients => ConfidentialEnvelopeError::NoRecipients,
            ConfidentialEnvelopeError::EmptySharedSecret => ConfidentialEnvelopeError::EmptySharedSecret,
            ConfidentialEnvelopeError::InvalidNonceHex(a0) => ConfidentialEnvelopeError::InvalidNonceHex(a0.twin()),
            ConfidentialEnvelopeError::InvalidCiphertextHex(a0) => ConfidentialEnvelopeError::InvalidCiphertextHex(a0.twin()),
            ConfidentialEnvelopeError::InvalidNonceLength { expected, actual } => ConfidentialEnvelopeError::InvalidNonceLength {
                expected: expected.twin(),
                actual: actual.twin(),
            },
            ConfidentialEnvelopeError::UnsupportedVersion(a0) => ConfidentialEnvelopeError::UnsupportedVersion(a0.twin()),
            ConfidentialEnvelopeError::RecipientNotAllowed(a0) => ConfidentialEnvelopeError::RecipientNotAllowed(a0.twin()),
            ConfidentialEnvelopeError::EncryptionFailed => ConfidentialEnvelopeError::EncryptionFailed,
            ConfidentialEnvelopeError::DecryptionFailed => ConfidentialEnvelopeError::DecryptionFailed,
            ConfidentialEnvelopeError::Json(a0) => ConfidentialEnvelopeError::Json(a0.twin()),
        }
    }
}

impl Clone for ConfidentialEnvelopeError {
    fn clone(&self) -> (r: Self)
        ensures
            r.deep_view() == self.deep_view(),
    {
        self.twin()
    }
}

/// Recipients in order and none twice.
pub open spec fn addressed(recipients: Seq<Seq<char>>) -> Seq<Seq<char>> {
    order::without_repeats(order::sort_by_key(recipients, by_name()), name_mark())
}

/// Recipients as bytes, each followed by a zero.
pub open spec fn listed_bytes(recipients: Seq<Seq<char>>) -> Seq<u8>
    decreases recipients.len(),
{
    if recipients.len() == 0 {
        Seq::empty()
    } else {
        (listed_bytes(recipients.drop_last()) + encode_utf8(recipients.last())).push(0)
    }
}

/// The key of an envelope.
pub open spec fn envelope_key(secret: Seq<u8>, recipients: Seq<Seq<char>>) -> Seq<u8> {
    outside::hmac_of(
        secret,
        encode_utf8("nexus:confidential-social-envelope:key:v1"@) + listed_bytes(recipients),
    )
}

/// Whether a secret and a list of recipients are short enough to make a key of.
pub open spec fn keyable(secret: Seq<u8>, recipients: Seq<Seq<char>>) -> bool {
    secret.len() <= outside::DIGEST_LIMIT && encode_utf8(
        "nexus:confidential-social-envelope:key:v1"@,
    ).len() + listed_bytes(recipients).len() <= outside::DIGEST_LIMIT
}

proof fn lemma_listed_removed(s: Seq<Seq<char>>, i: int)
    requires
        0 <= i < s.len(),
    ensures
        listed_bytes(s).len() == listed_bytes(s.remove(i)).len() + encode_utf8(s[i]).len() + 1,
    decreases s.len(),
{
    let front = s.drop_last();
    if i == front.len() {
        assert(s.remove(i) =~= front);
    } else {
        lemma_listed_removed(front, i);
        let less = s.remove(i);
        assert(less.drop_last() =~= front.remove(i));
        assert(less.last() == s.last());
    }
}

proof fn lemma_listed_permuted(a: Seq<Seq<char>>, b: Seq<Seq<char>>)
    requires
        a.to_multiset() == b.to_multiset(),
    ensures
        listed_bytes(a).len() == listed_bytes(b).len(),
    decreases a.len(),
{
    broadcast use vstd::seq_lib::group_to_multiset_ensures;

    if a.len() == 0 {
        assert(a.to_multiset().len() == 0 && b.to_multiset().len() == b.len());
    } else {
        let last = a.len() - 1;
        assert(a.to_multiset().count(a[last]) > 0);
        assert(b.contains(a[last]));
        let i = b.index_of(a[last]);
        lemma_listed_removed(a, last);
        lemma_listed_removed(b, i);
        vstd::seq_lib::to_multiset_remove(a, last);
        vstd::seq_lib::to_multiset_remove(b, i);
        lemma_listed_permuted(a.remove(last), b.remove(i));
    }
}

proof fn lemma_listed_once(s: Seq<Seq<char>>)
    ensures
        listed_bytes(order::without_repeats(s, name_mark())).len() <= listed_bytes(s).len(),
    decreases s.len(),
{
    if s.len() > 0 {
        let front = s.drop_last();
        lemma_listed_once(front);
        let kept = order::without_repeats(front, name_mark());
        assert(kept.push(s.last()).drop_last() =~= kept);
    }
}

/// What a list of recipients can make a key of, the list in order and without
/// repetition can.
pub proof fn lemma_addressed_keyable(secret: Seq<u8>, recipients: Seq<Seq<char>>)
    requires
        keyable(secret, recipients),
    ensures
        keyable(secret, addressed(recipients)),
{
    let sorted = order::sort_by_key(recipients, by_name());
    order::lemma_sort_by_key(recipients, by_name());
    lemma_listed_permuted(recipients, sorted);
    lemma_listed_once(sorted);
}

/// The identifier of a key.
pub open spec fn envelope_key_id(key: Seq<u8>, recipients: Seq<Seq<char>>) -> Seq<char> {
    outside::hex_text(
        outside::sha256_of(
            encode_utf8("nexus:confidential-social-envelope:key-id:v1"@) + key + listed_bytes(
                recipients,
            ),
        ).subrange(0, 16),
    )
}

/// What an envelope binds to its ciphertext.
pub open spec fn envelope_aad(recipients: Seq<Seq<char>>, key_id: Seq<char>) -> Seq<u8> {
    encode_utf8("nexus:confidential-social-envelope:aad:v1:"@ + key_id + ":"@) + listed_bytes(
        recipients,
    )
}

/// The nonce in an envelope.
pub open spec fn nonce_in(value: Seq<char>) -> Result<Seq<u8>, ConfidentialEnvelopeErrorView> {
    match outside::hex_parse(encode_utf8(value)) {
        Err(e) => Err(ConfidentialEnvelopeErrorView::InvalidNonceHex(e)),
        Ok(bytes) => if bytes.len() == 12 {
            Ok(bytes)
        } else {
            Err(
                ConfidentialEnvelopeErrorView::InvalidNonceLength {
                    expected: 12,
                    actual: bytes.len() as usize,
                },
            )
        },
    }
}

/// Whether an envelope is well formed.
pub open spec fn well_formed(v: EncryptedSocialEnvelopeView) -> Result<
    (),
    ConfidentialEnvelopeErrorView,
> {
    if v.version != 1 {
        Err(ConfidentialEnvelopeErrorView::UnsupportedVersion(v.version))
    } else if v.recipients.len() == 0 {
        Err(ConfidentialEnvelopeErrorView::NoRecipients)
    } else {
        match nonce_in(v.nonce_hex) {
            Err(e) => Err(e),
            Ok(_) => match outside::hex_parse(encode_utf8(v.ciphertext_hex)) {
                Err(e) => Err(ConfidentialEnvelopeErrorView::InvalidCiphertextHex(e)),
                Ok(_) => Ok(()),
            },
        }
    }
}

/// Whether a secret is the one that an envelope was sealed with.
pub open spec fn secret_matches(v: EncryptedSocialEnvelopeView, secret: Seq<u8>) -> Result<
    bool,
    ConfidentialEnvelopeErrorView,
> {
    match well_formed(v) {
        Err(e) => Err(e),
        Ok(_) => if secret.len() == 0 {
            Err(ConfidentialEnvelopeErrorView::EmptySharedSecret)
        } else {
            Ok(envelope_key_id(envelope_key(secret, v.recipients), v.recipients) == v.key_id)
        },
    }
}

/// What a recipient finds in an envelope.
pub open spec fn found_in(
    v: EncryptedSocialEnvelopeView,
    recipient: Seq<char>,
    secret: Seq<u8>,
) -> Result<Seq<u8>, ConfidentialEnvelopeErrorView> {
    match well_formed(v) {
        Err(e) => Err(e),
        Ok(_) => if secret.len() == 0 {
            Err(ConfidentialEnvelopeErrorView::EmptySharedSecret)
        } else if !v.recipients.contains(recipient) {
            Err(ConfidentialEnvelopeErrorView::RecipientNotAllowed(recipient))
        } else {
            let key = envelope_key(secret, v.recipients);
            if envelope_key_id(key, v.recipients) != v.key_id {
                Err(ConfidentialEnvelopeErrorView::DecryptionFailed)
            } else {
                match outside::opened(
                    key,
                    nonce_in(v.nonce_hex)->Ok_0,
                    envelope_aad(v.recipients, v.key_id),
                    outside::hex_parse(encode_utf8(v.ciphertext_hex))->Ok_0,
                ) {
                    Some(plain) => Ok(plain),
                    None => Err(ConfidentialEnvelopeErrorView::DecryptionFailed),
                }
            }
        },
    }
}

/// The envelope for recipients under a nonce, with a given ciphertext.
pub open spec fn envelope_of(
    recipients: Seq<Seq<char>>,
    secret: Seq<u8>,
    nonce: Seq<u8>,
    cipher: Seq<u8>,
) -> EncryptedSocialEnvelopeView {
    let to = addressed(recipients);
    EncryptedSocialEnvelopeView {
        version: 1,
        recipients: to,
        key_id: envelope_key_id(envelope_key(secret, to), to),
        nonce_hex: outside::hex_text(nonce),
        ciphertext_hex: outside::hex_text(cipher),
    }
}

/// What sealing a payload yields.
pub open spec fn sealing(
    recipients: Seq<Seq<char>>,
    secret: Seq<u8>,
    nonce: Seq<u8>,
    payload: Seq<u8>,
) -> Result<EncryptedSocialEnvelopeView, ConfidentialEnvelopeErrorView> {
    if recipients.len() == 0 {
        Err(ConfidentialEnvelopeErrorView::NoRecipients)
    } else if secret.len() == 0 {
        Err(ConfidentialEnvelopeErrorView::EmptySharedSecret)
    } else {
        let to = addressed(recipients);
        let key = envelope_key(secret, to);
        match outside::sealed(key, nonce, envelope_aad(to, envelope_key_id(key, to)), payload) {
            Some(cipher) => Ok(envelope_of(recipients, secret, nonce, cipher)),
            None => Err(ConfidentialEnvelopeErrorView::EncryptionFailed),
        }
    }
}

/// The order of recipients keeps every one of them.
pub proof fn lemma_addressed(recipients: Seq<Seq<char>>, who: Seq<char>)
    ensures
        addressed(recipients).contains(who) <==> recipients.contains(who),
{
    broadcast use vstd::seq_lib::group_to_multiset_ensures;

    let sorted = order::sort_by_key(recipients, by_name());
    order::lemma_sort_by_key(recipients, by_name());
    assert(sorted.contains(who) <==> recipients.contains(who)) by {
        assert(sorted.to_multiset().count(who) == recipients.to_multiset().count(who));
    }
    lemma_unrepeated(sorted, who);
}

proof fn lemma_unrepeated(s: Seq<Seq<char>>, who: Seq<char>)
    ensures
        order::without_repeats(s, name_mark()).contains(who) <==> s.contains(who),
    decreases s.len(),
{
    if s.len() > 0 {
        let front = s.drop_last();
        lemma_unrepeated(front, who);
        let kept = order::without_repeats(front, name_mark());
        let all = order::without_repeats(s, name_mark());
        if s.contains(who) {
            let i = s.index_of(who);
            if i < front.len() {
                assert(front[i] == who);
                let k = kept.index_of(who);
                assert(all[k] == who);
            } else if all.len() == kept.len() {
                assert(all.last() == who);
            } else {
                assert(all[kept.len() as int] == who);
            }
        }
        if all.contains(who) {
            let k = all.index_of(who);
            if k < kept.len() {
                assert(kept[k] == who);
                let i = front.index_of(who);
                assert(s[i] == who);
            } else {
                assert(s[s.len() - 1] == who);
            }
        }
    }
}

/// What was sealed for recipients under a secret is found, under the same
/// secret, by each of them, and by nobody else.
pub proof fn lemma_envelope_roundtrip(
    recipients: Seq<Seq<char>>,
    secret: Seq<u8>,
    nonce: Seq<u8>,
    cipher: Seq<u8>,
    payload: Seq<u8>,
    who: Seq<char>,
)
    requires
        recipients.len() > 0,
        secret.len() > 0,
        nonce.len() == 12,
        ({
            let to = addressed(recipients);
            let key = envelope_key(secret, to);
            outside::opened(key, nonce, envelope_aad(to, envelope_key_id(key, to)), cipher)
                == Some(payload)
        }),
    ensures
        found_in(envelope_of(recipients, secret, nonce, cipher), who, secret) == (
        if recipients.contains(who) {
            Ok::<Seq<u8>, ConfidentialEnvelopeErrorView>(payload)
        } else {
            Err(ConfidentialEnvelopeErrorView::RecipientNotAllowed(who))
        }),
{
    outside::lemma_hex_roundtrip(nonce);
    outside::lemma_hex_roundtrip(cipher);
    lemma_addressed(recipients, who);
    lemma_addressed(recipients, recipients[0]);
    assert(recipients.contains(recipients[0]));
    assert(addressed(recipients).len() > 0);
}

fn addressed_of(recipients: &Vec<Did>) -> (r: Vec<Did>)
    ensures
        r.deep_view() == addressed(recipients.deep_view()),
{
    let mut refs: Vec<&Did> = Vec::new();
    while refs.len() < recipients.len()
        invariant
            refs@.len() <= recipients@.len(),
            forall|j: int|
                0 <= j < refs@.len() ==> (#[trigger] refs@[j]).deep_view()
                    == recipients.deep_view()[j],
        decreases recipients@.len() - refs@.len(),
    {
        refs.push(&recipients[refs.len()]);
    }
    assert(refs.deep_view() =~= recipients.deep_view());
    let key = |d: &Did| -> (k: Vec<KeyPart>)
        ensures
            k.deep_view() == by_name()(d.deep_view()),
        { by_name_of(d) };
    let mark = |d: &Did| -> (k: String)
        ensures
            k@ == name_mark()(d.deep_view()),
        { d.to_string() };
    let sorted = order::sorted(refs, key, Ghost(by_name()));
    let single = order::unrepeated(sorted, mark, Ghost(name_mark()));
    let mut r: Vec<Did> = Vec::new();
    while r.len() < single.len()
        invariant
            r@.len() <= single@.len(),
            forall|j: int|
                0 <= j < r@.len() ==> (#[trigger] r@[j]).deep_view() == single.deep_view()[j],
        decreases single@.len() - r@.len(),
    {
        r.push(single[r.len()].twin());
    }
    assert(r.deep_view() =~= single.deep_view());
    r
}

fn list_into(out: &mut Vec<u8>, recipients: &Vec<Did>)
    ensures
        final(out)@ == old(out)@ + listed_bytes(recipients.deep_view()),
{
    let ghost before = out@;
    let ghost all = recipients.deep_view();
    let mut i: usize = 0;
    assert(before + listed_bytes(all.subrange(0, 0)) =~= before);
    while i < recipients.len()
        invariant
            i <= recipients@.len(),
            all == recipients.deep_view(),
            out@ == before + listed_bytes(all.subrange(0, i as int)),
        decreases recipients@.len() - i,
    {
        proof {
            let upto = all.subrange(0, i + 1);
            assert(upto.drop_last() =~= all.subrange(0, i as int));
            assert(upto.last() == recipients@[i as int].deep_view());
        }
        let mut bytes = text::bytes_of(recipients[i].as_str());
        let ghost done = out@;
        let ghost name = bytes@;
        out.append(&mut bytes);
        out.push(0);
        assert(out@ =~= before + (listed_bytes(all.subrange(0, i as int)) + name).push(0));
        i = i + 1;
    }
    assert(all.subrange(0, i as int) =~= all);
}

fn key_for(secret: &[u8], recipients: &Vec<Did>) -> (r: [u8; 32])
    requires
        keyable(secret@, recipients.deep_view()),
    ensures
        r@ == envelope_key(secret@, recipients.deep_view()),
{
    let mut message = text::bytes_of("nexus:confidential-social-envelope:key:v1");
    list_into(&mut message, recipients);
    let tag = outside::hmac_sha256(secret, message.as_slice());
    assert(tag@.subrange(0, 32) =~= tag@);
    did::array32(tag.as_slice())
}

fn key_id_for(key: &[u8; 32], recipients: &Vec<Did>) -> (r: String)
    ensures
        r@ == envelope_key_id(key@, recipients.deep_view()),
{
    let mut message = text::bytes_of("nexus:confidential-social-envelope:key-id:v1");
    let ghost domain = message@;
    let mut i: usize = 0;
    assert(key@.subrange(0, 0) =~= Seq::<u8>::empty());
    assert(domain + key@.subrange(0, 0) =~= domain);
    while i < 32
        invariant
            i <= 32,
            key@.len() == 32,
            message@ == domain + key@.subrange(0, i as int),
        decreases 32 - i,
    {
        message.push(key[i]);
        assert(domain + key@.subrange(0, i + 1) =~= (domain + key@.subrange(0, i as int)).push(
            key@[i as int],
        ));
        i = i + 1;
    }
    assert(key@.subrange(0, 32) =~= key@);
    list_into(&mut message, recipients);
    let digest = outside::sha256(message.as_slice());
    let short = vstd::slice::slice_subrange(digest.as_slice(), 0, 16);
    outside::hex_encode(short)
}

fn aad_for(recipients: &Vec<Did>, key_id: &str) -> (r: Vec<u8>)
    ensures
        r@ == envelope_aad(recipients.deep_view(), key_id@),
{
    let head = text::joined_pair("nexus:confidential-social-envelope:aad:v1:", key_id);
    let head = text::joined_pair(head.as_str(), ":");
    let mut aad = text::bytes_of(head.as_str());
    list_into(&mut aad, recipients);
    aad
}

fn nonce_from_hex(value: &str) -> (r: Result<[u8; 12], ConfidentialEnvelopeError>)
    ensures
        match r {
            Ok(nonce) => nonce_in(value@) == Ok::<Seq<u8>, ConfidentialEnvelopeErrorView>(nonce@),
            Err(e) => nonce_in(value@) == Err::<Seq<u8>, ConfidentialEnvelopeErrorView>(
                e.deep_view(),
            ),
        },
{
    match outside::hex_decode(value) {
        Err(e) => Err(ConfidentialEnvelopeError::InvalidNonceHex(e)),
        Ok(bytes) => {
            if bytes.len() != 12 {
                return Err(
                    ConfidentialEnvelopeError::InvalidNonceLength {
                        expected: 12,
                        actual: bytes.len(),
                    },
                );
            }
            assert(bytes@.subrange(0, 12) =~= bytes@);
            Ok(did::array12(bytes.as_slice()))
        },
    }
}

impl EncryptedSocialEnvelope {
    /// Seals the JSON form of an event kind for recipients.
    pub fn encrypt(recipients: Vec<Did>, shared_secret: &[u8], payload: &SocialEventKind) -> (r:
        Result<Self, ConfidentialEnvelopeError>)
        requires
            keyable(shared_secret@, recipients.deep_view()),
        ensures
            exists|nonce: Seq<u8>|
                nonce.len() == 12 && outcome(r) == #[trigger] sealing(
                    recipients.deep_view(),
                    shared_secret@,
                    nonce,
                    wire::json(kind_wire(payload.deep_view())),
                ),
            recipients@.len() > 0 && shared_secret@.len() > 0 && wire::json(
                kind_wire(payload.deep_view()),
            ).len() <= 274877906880 ==> r is Ok,
            r matches Ok(envelope) ==> forall|who: Seq<char>|
                #[trigger] found_in(envelope.deep_view(), who, shared_secret@) == (
                if recipients.deep_view().contains(who) {
                    Ok::<Seq<u8>, ConfidentialEnvelopeErrorView>(
                        wire::json(kind_wire(payload.deep_view())),
                    )
                } else {
                    Err(ConfidentialEnvelopeErrorView::RecipientNotAllowed(who))
                }),
    {
        let nonce = outside::random_bytes(12);
        let bytes = wire::json_bytes(&payload.to_wire());
        Self::seal(recipients, shared_secret, &did::array12(nonce.as_slice()), bytes.as_slice())
    }

    /// Seals bytes for recipients under a nonce. Each of them finds the bytes
    /// again, and nobody else does.
    pub fn seal(recipients: Vec<Did>, shared_secret: &[u8], nonce: &[u8; 12], payload: &[u8]) -> (r:
        Result<Self, ConfidentialEnvelopeError>)
        requires
            keyable(shared_secret@, recipients.deep_view()),
        ensures
            outcome(r) == sealing(recipients.deep_view(), shared_secret@, nonce@, payload@),
            recipients@.len() > 0 && shared_secret@.len() > 0 && payload@.len() <= 274877906880
                ==> r is Ok,
            r matches Ok(envelope) ==> forall|who: Seq<char>|
                #[trigger] found_in(envelope.deep_view(), who, shared_secret@) == (
                if recipients.deep_view().contains(who) {
                    Ok::<Seq<u8>, ConfidentialEnvelopeErrorView>(payload@)
                } else {
                    Err(ConfidentialEnvelopeErrorView::RecipientNotAllowed(who))
                }),
    {
        if recipients.len() == 0 {
            return Err(ConfidentialEnvelopeError::NoRecipients);
        }
        if shared_secret.len() == 0 {
            return Err(ConfidentialEnvelopeError::EmptySharedSecret);
        }
        let to = addressed_of(&recipients);
        proof {
            lemma_addressed_keyable(shared_secret@, recipients.deep_view());
        }
        let key = key_for(shared_secret, &to);
        let key_id = key_id_for(&key, &to);
        let aad = aad_for(&to, key_id.as_str());
        match outside::aead_seal(&key, nonce, aad.as_slice(), payload) {
            None => Err(ConfidentialEnvelopeError::EncryptionFailed),
            Some(cipher) => {
                let envelope = EncryptedSocialEnvelope {
                    version: 1,
                    recipients: to,
                    key_id,
                    nonce_hex: outside::hex_encode(nonce.as_slice()),
                    ciphertext_hex: outside::hex_encode(cipher.as_slice()),
                };
                proof {
                    let all = recipients.deep_view();
                    assert(envelope.deep_view() == envelope_of(
                        all,
                        shared_secret@,
                        nonce@,
                        cipher@,
                    ));
                    assert forall|who: Seq<char>| #[trigger]
                        found_in(envelope.deep_view(), who, shared_secret@) == (if all.contains(
                            who,
                        ) {
                            Ok::<Seq<u8>, ConfidentialEnvelopeErrorView>(payload@)
                        } else {
                            Err(ConfidentialEnvelopeErrorView::RecipientNotAllowed(who))
                        }) by {
                        lemma_envelope_roundtrip(
                            all,
                            shared_secret@,
                            nonce@,
                            cipher@,
                            payload@,
                            who,
                        );
                    }
                }
                Ok(envelope)
            },
        }
    }

    /// What a recipient finds in the envelope: the JSON form of an event kind.
    pub fn decrypt_for(&self, recipient: &Did, shared_secret: &[u8]) -> (r: Result<
        Vec<u8>,
        ConfidentialEnvelopeError,
    >)
        requires
            keyable(shared_secret@, self.deep_view().recipients),
        ensures
            outcome(r) == found_in(self.deep_view(), recipient.deep_view(), shared_secret@),
    {
        if let Err(e) = self.validate_metadata() {
            return Err(e);
        }
        if shared_secret.len() == 0 {
            return Err(ConfidentialEnvelopeError::EmptySharedSecret);
        }
        if !self.includes_recipient(recipient) {
            return Err(ConfidentialEnvelopeError::RecipientNotAllowed(recipient.twin()));
        }
        let key = key_for(shared_secret, &self.recipients);
        let key_id = key_id_for(&key, &self.recipients);
        if !key_id.same(&self.key_id) {
            return Err(ConfidentialEnvelopeError::DecryptionFailed);
        }
        let nonce = match nonce_from_hex(self.nonce_hex.as_str()) {
            Err(e) => {
                return Err(e);
            },
            Ok(nonce) => nonce,
        };
        let cipher = match outside::hex_decode(self.ciphertext_hex.as_str()) {
            Err(e) => {
                return Err(ConfidentialEnvelopeError::InvalidCiphertextHex(e));
            },
            Ok(cipher) => cipher,
        };
        let aad = aad_for(&self.recipients, self.key_id.as_str());
        match outside::aead_open(&key, &nonce, aad.as_slice(), cipher.as_slice()) {
            Some(plain) => Ok(plain),
            None => Err(ConfidentialEnvelopeError::DecryptionFailed),
        }
    }

    /// Checks that the envelope is well formed.
    pub fn validate_metadata(&self) -> (r: Result<(), ConfidentialEnvelopeError>)
        ensures
            outcome(r) == well_formed(self.deep_view()),
    {
        if self.version != 1 {
            return Err(ConfidentialEnvelopeError::UnsupportedVersion(self.version));
        }
        if self.recipients.len() == 0 {
            return Err(ConfidentialEnvelopeError::NoRecipients);
        }
        if let Err(e) = nonce_from_hex(self.nonce_hex.as_str()) {
            return Err(e);
        }
        match outside::hex_decode(self.ciphertext_hex.as_str()) {
            Err(e) => Err(ConfidentialEnvelopeError::InvalidCiphertextHex(e)),
            Ok(_) => Ok(()),
        }
    }

    /// Whether the envelope is addressed to a recipient.
    pub fn includes_recipient(&self, recipient: &Did) -> (r: bool)
        ensures
            r == self.deep_view().recipients.contains(recipient.deep_view()),
    {
        lists(&self.recipients, recipient)
    }

    /// Whether the envelope was sealed with a secret.
    pub fn matches_shared_secret(&self, shared_secret: &[u8]) -> (r: Result<
        bool,
        ConfidentialEnvelopeError,
    >)
        requires
            keyable(shared_secret@, self.deep_view().recipients),
        ensures
            outcome(r) == secret_matches(self.deep_view(), shared_secret@),
    {
        if let Err(e) = self.validate_metadata() {
            return Err(e);
        }
        if shared_secret.len() == 0 {
            return Err(ConfidentialEnvelopeError::EmptySharedSecret);
        }
        let key = key_for(shared_secret, &self.recipients);
        let key_id = key_id_for(&key, &self.recipients);
        Ok(key_id.same(&self.key_id))
    }
}

} // verus!
