//! Node identities: Ed25519 keys, their identifiers, detached signatures, and
//! the encrypted form in which a key is stored.
use crate::did::{self, DidError, DidErrorView};
use crate::outside::{self, HexError};
use crate::text;
use crate::twin::{lemma_bytes_view, outcome, Twin};
use crate::types::Did;
use vstd::prelude::*;
use vstd::string::*;
use vstd::utf8::*;

verus! {

broadcast use lemma_bytes_view;

/// Why a detached signature is refused.
#[derive(Debug, PartialEq, Eq)]
pub enum IdentitySignatureError {
    /// The signer is no usable identifier.
    InvalidDid(DidError),
    /// The signer key is no curve point.
    InvalidVerifyingKey,
    /// The signature has not sixty-four bytes.
    InvalidSignatureBytes,
    /// The signature does not belong to the message.
    VerificationFailed,
}

/// The mathematical form of [`IdentitySignatureError`].
pub enum IdentitySignatureErrorView {
    InvalidDid(DidErrorView),
    InvalidVerifyingKey,
    InvalidSignatureBytes,
    VerificationFailed,
}

impl DeepView for IdentitySignatureError {
    type V = IdentitySignatureErrorView;

    open spec fn deep_view(&self) -> IdentitySignatureErrorView {
        match self {
            IdentitySignatureError::InvalidDid(a0) => IdentitySignatureErrorView::InvalidDid(a0.deep_view()),
            IdentitySignatureError::InvalidVerifyingKey => IdentitySignatureErrorView::InvalidVerifyingKey,
            IdentitySignatureError::InvalidSignatureBytes => IdentitySignatureErrorView::InvalidSignatureBytes,
            IdentitySignatureError::VerificationFailed => IdentitySignatureErrorView::VerificationFailed,
        }
    }
}

impl Twin for IdentitySignatureError {
    fn twin(&self) -> (r: Self) {
        match self {
            IdentitySignatureError::InvalidDid(a0) => IdentitySignatureError::InvalidDid(a0.twin()),
            IdentitySignatureError::InvalidVerifyingKey => IdentitySignatureError::InvalidVerifyingKey,
            IdentitySignatureError::InvalidSignatureBytes => IdentitySignatureError::InvalidSignatureBytes,
            IdentitySignatureError::VerificationFailed => IdentitySignatureError::VerificationFailed,
        }
    }
}

impl Clone for IdentitySignatureError {
    fn clone(&self) -> (r: Self)
        ensures
            r.deep_view() == self.deep_view(),
    {
        self.twin()
    }
}

/// Why an identity could not be stored or read back.
#[derive(Debug, PartialEq, Eq)]
pub enum IdentityStorageError {
    Io(String),
    Json(String),
    Hex(HexError),
    MissingPassphrase,
    EmptyPassphrase,
    MissingKeyMaterial,
    UnsupportedVersion(u32),
    UnsupportedKeyScheme(String),
    UnsupportedKdf(String),
    UnsupportedCipher(String),
    InvalidLength { field: &'static str, expected: usize, actual: usize },
    InvalidKdfIterations,
    EncryptionFailed,
    DecryptionFailed,
    DidMismatch { stored: String, actual: String },
}

/// The mathematical form of [`IdentityStorageError`].
pub enum IdentityStorageErrorView {
    Io(Seq<char>),
    Json(Seq<char>),
    Hex(HexError),
    MissingPassphrase,
    EmptyPassphrase,
    MissingKeyMaterial,
    UnsupportedVersion(u32),
    UnsupportedKeyScheme(Seq<char>),
    UnsupportedKdf(Seq<char>),
    UnsupportedCipher(Seq<char>),
    InvalidLength { field: Seq<char>, expected: usize, actual: usize },
    InvalidKdfIterations,
    EncryptionFailed,
    DecryptionFailed,
    DidMismatch { stored: Seq<char>, actual: Seq<char> },
}

impl DeepView for IdentityStorageError {
    type V = IdentityStorageErrorView;

    open spec fn deep_view(&self) -> IdentityStorageErrorView {
        match self {
            IdentityStorageError::Io(a0) => IdentityStorageErrorView::Io(a0.deep_view()),
            IdentityStorageError::Json(a0) => IdentityStorageErrorView::Json(a0.deep_view()),
            IdentityStorageError::Hex(a0) => IdentityStorageErrorView::Hex(a0.deep_view()),
            IdentityStorageError::MissingPassphrase => IdentityStorageErrorView::MissingPassphrase,
            IdentityStorageError::EmptyPassphrase => IdentityStorageErrorView::EmptyPassphrase,
            IdentityStorageError::MissingKeyMaterial => IdentityStorageErrorView::MissingKeyMaterial,
            IdentityStorageError::UnsupportedVersion(a0) => IdentityStorageErrorView::UnsupportedVersion(a0.deep_view()),
            IdentityStorageError::UnsupportedKeyScheme(a0) => IdentityStorageErrorView::UnsupportedKeyScheme(a0.deep_view()),
            IdentityStorageError::UnsupportedKdf(a0) => IdentityStorageErrorView::UnsupportedKdf(a0.deep_view()),
            IdentityStorageError::UnsupportedCipher(a0) => IdentityStorageErrorView::UnsupportedCipher(a0.deep_view()),
            IdentityStorageError::InvalidLength { field, expected, actual } => IdentityStorageErrorView::InvalidLength {
                field: field.deep_view(),
                expected: expected.deep_view(),
                actual: actual.deep_view(),
            },
            IdentityStorageError::InvalidKdfIterations => IdentityStorageErrorView::InvalidKdfIterations,
            IdentityStorageError::EncryptionFailed => IdentityStorageErrorView::EncryptionFailed,
            IdentityStorageError::DecryptionFailed => IdentityStorageErrorView::DecryptionFailed,
            IdentityStorageError::DidMismatch { stored, actual } => IdentityStorageErrorView::DidMismatch {
                stored: stored.deep_view(),
                actual: actual.deep_view(),
            },
        }
    }
}

impl Twin for IdentityStorageError {
    fn twin(&self) -> (r: Self) {
        match self {
            IdentityStorageError::Io(a0) => IdentityStorageError::Io(a0.twin()),
            IdentityStorageError::Json(a0) => IdentityStorageError::Json(a0.twin()),
            IdentityStorageError::Hex(a0) => IdentityStorageError::Hex(a0.twin()),
            IdentityStorageError::MissingPassphrase => IdentityStorageError::MissingPassphrase,
            IdentityStorageError::EmptyPassphrase => IdentityStorageError::EmptyPassphrase,
            IdentityStorageError::MissingKeyMaterial => IdentityStorageError::MissingKeyMaterial,
            IdentityStorageError::UnsupportedVersion(a0) => IdentityStorageError::UnsupportedVersion(a0.twin()),
            IdentityStorageError::UnsupportedKeyScheme(a0) => IdentityStorageError::UnsupportedKeyScheme(a0.twin()),
            IdentityStorageError::UnsupportedKdf(a0) => IdentityStorageError::UnsupportedKdf(a0.twin()),
            IdentityStorageError::UnsupportedCipher(a0) => IdentityStorageError::UnsupportedCipher(a0.twin()),
            IdentityStorageError::InvalidLength { field, expected, actual } => IdentityStorageError::InvalidLength {
                field: field,
                expected: expected.twin(),
                actual: actual.twin(),
            },
            IdentityStorageError::InvalidKdfIterations => IdentityStorageError::InvalidKdfIterations,
            IdentityStorageError::EncryptionFailed => IdentityStorageError::EncryptionFailed,
            IdentityStorageError::DecryptionFailed => IdentityStorageError::DecryptionFailed,
            IdentityStorageError::DidMismatch { stored, actual } => IdentityStorageError::DidMismatch {
                stored: stored.twin(),
                actual: actual.twin(),
            },
        }
    }
}

impl Clone for IdentityStorageError {
    fn clone(&self) -> (r: Self)
        ensures
            r.deep_view() == self.deep_view(),
    {
        self.twin()
    }
}

/// An encrypted signing key and how to open it.
#[derive(Debug, PartialEq, Eq)]
pub struct EncryptedIdentityKey {
    pub scheme: String,
    pub kdf: String,
    pub iterations: u32,
    pub salt_hex: String,
    pub cipher: String,
    pub nonce_hex: String,
    pub ciphertext_hex: String,
}

/// The mathematical form of [`EncryptedIdentityKey`].
#[verifier::ext_equal]
pub struct EncryptedIdentityKeyView {
    pub scheme: Seq<char>,
    pub kdf: Seq<char>,
    pub iterations: u32,
    pub salt_hex: Seq<char>,
    pub cipher: Seq<char>,
    pub nonce_hex: Seq<char>,
    pub ciphertext_hex: Seq<char>,
}

impl DeepView for EncryptedIdentityKey {
    type V = EncryptedIdentityKeyView;

    open spec fn deep_view(&self) -> EncryptedIdentityKeyView {
        EncryptedIdentityKeyView {
            scheme: self.scheme.deep_view(),
            kdf: self.kdf.deep_view(),
            iterations: self.iterations.deep_view(),
            salt_hex: self.salt_hex.deep_view(),
            cipher: self.cipher.deep_view(),
            nonce_hex: self.nonce_hex.deep_view(),
            ciphertext_hex: self.ciphertext_hex.deep_view(),
        }
    }
}

impl Twin for EncryptedIdentityKey {
    fn twin(&self) -> (r: Self) {
        EncryptedIdentityKey {
            scheme: self.scheme.twin(),
            kdf: self.kdf.twin(),
            iterations: self.iterations.twin(),
            salt_hex: self.salt_hex.twin(),
            cipher: self.cipher.twin(),
            nonce_hex: self.nonce_hex.twin(),
            ciphertext_hex: self.ciphertext_hex.twin(),
        }
    }
}

impl Clone for EncryptedIdentityKey {
    fn clone(&self) -> (r: Self)
        ensures
            r.deep_view() == self.deep_view(),
    {
        self.twin()
    }
}

/// What an identity file holds.
#[derive(Debug, PartialEq, Eq)]
pub struct StoredIdentityFile {
    pub version: u32,
    pub did: String,
    pub key: Option<EncryptedIdentityKey>,
    /// The plaintext seed of old files.
    pub seed_hex: Option<String>,
}

/// The mathematical form of [`StoredIdentityFile`].
#[verifier::ext_equal]
pub struct StoredIdentityFileView {
    pub version: u32,
    pub did: Seq<char>,
    pub key: Option<EncryptedIdentityKeyView>,
    pub seed_hex: Option<Seq<char>>,
}

impl DeepView for StoredIdentityFile {
    type V = StoredIdentityFileView;

    open spec fn deep_view(&self) -> StoredIdentityFileView {
        StoredIdentityFileView {
            version: self.version.deep_view(),
            did: self.did.deep_view(),
            key: self.key.deep_view(),
            seed_hex: self.seed_hex.deep_view(),
        }
    }
}

impl Twin for StoredIdentityFile {
    fn twin(&self) -> (r: Self) {
        StoredIdentityFile {
            version: self.version.twin(),
            did: self.did.twin(),
            key: self.key.twin(),
            seed_hex: self.seed_hex.twin(),
        }
    }
}

impl Clone for StoredIdentityFile {
    fn clone(&self) -> (r: Self)
        ensures
            r.deep_view() == self.deep_view(),
    {
        self.twin()
    }
}

/// Whether a signature by the holder of a public key is accepted.
pub open spec fn key_accepts(
    key: Seq<u8>,
    message: Seq<u8>,
    signature: Seq<u8>,
) -> Result<(), IdentitySignatureErrorView> {
    if !outside::is_public_key(key) {
        Err(IdentitySignatureErrorView::InvalidVerifyingKey)
    } else if signature.len() != 64 {
        Err(IdentitySignatureErrorView::InvalidSignatureBytes)
    } else if outside::accepts(key, message, signature) {
        Ok(())
    } else {
        Err(IdentitySignatureErrorView::VerificationFailed)
    }
}

/// Whether a detached signature by an identifier is accepted.
pub open spec fn did_accepts(
    did: Seq<char>,
    message: Seq<u8>,
    signature: Seq<u8>,
) -> Result<(), IdentitySignatureErrorView> {
    if signature.len() != 64 {
        Err(IdentitySignatureErrorView::InvalidSignatureBytes)
    } else {
        match did::did_key(did) {
            Err(e) => Err(IdentitySignatureErrorView::InvalidDid(e)),
            Ok(key) => key_accepts(key, message, signature),
        }
    }
}

/// A node's cryptographic identity.
pub struct NodeIdentity {
    seed: [u8; 32],
    did: Did,
}

impl NodeIdentity {
    /// The seed of the signing key.
    pub closed spec fn seed(&self) -> Seq<u8> {
        self.seed@
    }

    /// The characters of the identifier.
    pub closed spec fn name(&self) -> Seq<char> {
        self.did@
    }

    #[verifier::type_invariant]
    spec fn inv(&self) -> bool {
        &&& self.did@ == did::did_of(outside::public_key_of(self.seed@))
        &&& did::did_key(self.did@) == Ok::<Seq<u8>, DidErrorView>(
            outside::public_key_of(self.seed@),
        )
        &&& outside::is_public_key(outside::public_key_of(self.seed@))
    }

    /// A fresh identity from operating-system randomness.
    pub fn generate() -> (r: Self)
        ensures
            r.name() == did::did_of(outside::public_key_of(r.seed())),
    {
        let bytes = outside::random_bytes(32);
        Self::from_seed_bytes(&did::array32(bytes.as_slice()))
    }

    /// The identity of a signing key, given by its seed.
    pub fn from_signing_key(signing_key: [u8; 32]) -> (r: Self)
        ensures
            r.seed() == signing_key@,
            r.name() == did::did_of(outside::public_key_of(signing_key@)),
    {
        let public_key = outside::ed25519_public_key(&signing_key);
        let did_text = did::derive_did(&public_key);
        NodeIdentity { seed: signing_key, did: Did::new(did_text.as_str()) }
    }

    /// The self-sovereign identifier.
    pub fn did(&self) -> (r: &Did)
        ensures
            r.deep_view() == self.name(),
            self.name() == did::did_of(outside::public_key_of(self.seed())),
    {
        proof {
            use_type_invariant(self);
        }
        &self.did
    }

    /// The Ed25519 public key.
    pub fn verifying_key(&self) -> (r: [u8; 32])
        ensures
            r@ == outside::public_key_of(self.seed()),
            did::did_key(self.name()) == Ok::<Seq<u8>, DidErrorView>(r@),
            outside::is_public_key(r@),
    {
        proof {
            use_type_invariant(self);
        }
        outside::ed25519_public_key(&self.seed)
    }

    /// The signing key, given by its seed.
    pub fn signing_key(&self) -> (r: &[u8; 32])
        ensures
            r@ == self.seed(),
    {
        &self.seed
    }

    /// The seed of the signing key.
    pub fn to_seed_bytes(&self) -> (r: [u8; 32])
        ensures
            r@ == self.seed(),
    {
        self.seed
    }

    /// The identity of a seed.
    pub fn from_seed_bytes(seed: &[u8; 32]) -> (r: Self)
        ensures
            r.seed() == seed@,
            r.name() == did::did_of(outside::public_key_of(seed@)),
    {
        Self::from_signing_key(*seed)
    }

    /// Signs a message; the signature is accepted for this identity.
    pub fn sign(&self, message: &[u8]) -> (r: Vec<u8>)
        ensures
            r@ == outside::signature_of(self.seed(), message@),
            r@.len() == 64,
            did_accepts(self.name(), message@, r@) is Ok,
    {
        proof {
            use_type_invariant(self);
        }
        outside::ed25519_sign(&self.seed, message)
    }

    /// Checks a signature by the holder of a public key.
    pub fn verify(verifying_key: &[u8; 32], message: &[u8], signature: &[u8]) -> (r: Result<
        (),
        IdentitySignatureError,
    >)
        ensures
            outcome(r) == key_accepts(verifying_key@, message@, signature@),
    {
        if !outside::ed25519_key_valid(verifying_key) {
            return Err(IdentitySignatureError::InvalidVerifyingKey);
        }
        if signature.len() != 64 {
            return Err(IdentitySignatureError::InvalidSignatureBytes);
        }
        if outside::ed25519_verify(verifying_key, message, signature) {
            Ok(())
        } else {
            Err(IdentitySignatureError::VerificationFailed)
        }
    }
}

/// Checks a detached signature against the key in an identifier.
pub fn verify_did_signature(did: &Did, message: &[u8], signature: &[u8]) -> (r: Result<
    (),
    IdentitySignatureError,
>)
    ensures
        outcome(r) == did_accepts(did.deep_view(), message@, signature@),
{
    if signature.len() != 64 {
        return Err(IdentitySignatureError::InvalidSignatureBytes);
    }
    match did::parse_did(did.as_str()) {
        Err(e) => Err(IdentitySignatureError::InvalidDid(e)),
        Ok(key) => NodeIdentity::verify(&key, message, signature),
    }
}

/// The associated data that binds an encrypted key to an identifier.
pub open spec fn identity_aad(did: Seq<char>) -> Seq<u8> {
    encode_utf8("nexus-identity-key-v1:"@ + did)
}

/// Reads a hexadecimal text of a fixed number of bytes.
pub open spec fn fixed_hex(field: Seq<char>, value: Seq<char>, expected: usize) -> Result<
    Seq<u8>,
    IdentityStorageErrorView,
> {
    match outside::hex_parse(encode_utf8(value)) {
        Err(e) => Err(IdentityStorageErrorView::Hex(e)),
        Ok(bytes) => if bytes.len() == expected {
            Ok(bytes)
        } else {
            Err(
                IdentityStorageErrorView::InvalidLength {
                    field,
                    expected,
                    actual: bytes.len() as usize,
                },
            )
        },
    }
}

/// The seed in an encrypted key, or why it cannot be had.
pub open spec fn unlocked(
    encrypted: EncryptedIdentityKeyView,
    did: Seq<char>,
    passphrase: Seq<char>,
) -> Result<Seq<u8>, IdentityStorageErrorView> {
    if passphrase.len() == 0 {
        Err(IdentityStorageErrorView::EmptyPassphrase)
    } else if encrypted.scheme != "nexus-identity-key-v1"@ {
        Err(IdentityStorageErrorView::UnsupportedKeyScheme(encrypted.scheme))
    } else if encrypted.kdf != "pbkdf2-sha256"@ {
        Err(IdentityStorageErrorView::UnsupportedKdf(encrypted.kdf))
    } else if encrypted.cipher != "chacha20-poly1305"@ {
        Err(IdentityStorageErrorView::UnsupportedCipher(encrypted.cipher))
    } else {
        match fixed_hex("salt_hex"@, encrypted.salt_hex, 16) {
            Err(e) => Err(e),
            Ok(salt) => match fixed_hex("nonce_hex"@, encrypted.nonce_hex, 12) {
                Err(e) => Err(e),
                Ok(nonce) => if encrypted.iterations == 0 {
                    Err(IdentityStorageErrorView::InvalidKdfIterations)
                } else {
                    let key = outside::pbkdf2_of(
                        encrypted.iterations,
                        salt,
                        encode_utf8(passphrase),
                    );
                    match outside::hex_parse(encode_utf8(encrypted.ciphertext_hex)) {
                        Err(e) => Err(IdentityStorageErrorView::Hex(e)),
                        Ok(cipher) => match outside::opened(key, nonce, identity_aad(did), cipher) {
                            None => Err(IdentityStorageErrorView::DecryptionFailed),
                            Some(seed) => if seed.len() == 32 {
                                Ok(seed)
                            } else {
                                Err(
                                    IdentityStorageErrorView::InvalidLength {
                                        field: "seed"@,
                                        expected: 32,
                                        actual: seed.len() as usize,
                                    },
                                )
                            },
                        },
                    }
                },
            },
        }
    }
}

fn aad_bytes(did: &str) -> (r: Vec<u8>)
    ensures
        r@ == identity_aad(did@),
{
    let t = text::joined_pair("nexus-identity-key-v1:", did);
    text::bytes_of(t.as_str())
}

/// Refuses an empty passphrase.
pub fn ensure_passphrase(passphrase: &str) -> (r: Result<(), IdentityStorageError>)
    ensures
        outcome(r) == (if passphrase@.len() == 0 {
            Err::<(), IdentityStorageErrorView>(IdentityStorageErrorView::EmptyPassphrase)
        } else {
            Ok(())
        }),
{
    if passphrase.is_empty() {
        Err(IdentityStorageError::EmptyPassphrase)
    } else {
        Ok(())
    }
}

/// Encrypts a seed with the given salt and nonce; the result opens, under the
/// same identifier and passphrase, to the seed.
pub fn lock_seed(
    seed: [u8; 32],
    did: &str,
    passphrase: &str,
    salt: &[u8],
    nonce: &[u8; 12],
) -> (r: Result<EncryptedIdentityKey, IdentityStorageError>)
    requires
        salt@.len() == 16,
        encode_utf8(passphrase@).len() <= outside::DIGEST_LIMIT,
    ensures
        (r is Err) == (passphrase@.len() == 0),
        r matches Err(e) ==> e.deep_view() == IdentityStorageErrorView::EmptyPassphrase,
        r matches Ok(k) ==> {
            let v = k.deep_view();
            &&& v.scheme == "nexus-identity-key-v1"@
            &&& v.kdf == "pbkdf2-sha256"@
            &&& v.iterations == 210_000
            &&& v.cipher == "chacha20-poly1305"@
            &&& v.salt_hex == outside::hex_text(salt@)
            &&& v.nonce_hex == outside::hex_text(nonce@)
            &&& exists|c: Seq<u8>|
                v.ciphertext_hex == #[trigger] outside::hex_text(c) && outside::sealed(
                    outside::pbkdf2_of(210_000, salt@, encode_utf8(passphrase@)),
                    nonce@,
                    identity_aad(did@),
                    seed@,
                ) == Some(c)
            &&& unlocked(v, did@, passphrase@) == Ok::<Seq<u8>, IdentityStorageErrorView>(seed@)
        },
{
    if passphrase.is_empty() {
        return Err(IdentityStorageError::EmptyPassphrase);
    }
    let secret = text::bytes_of(passphrase);
    let key = outside::pbkdf2_sha256(210_000, salt, secret.as_slice());
    let aad = aad_bytes(did);
    let ciphertext = match outside::aead_seal(&key, nonce, aad.as_slice(), seed.as_slice()) {
        Some(c) => c,
        None => {
            return Err(IdentityStorageError::EncryptionFailed);
        },
    };
    let r = EncryptedIdentityKey {
        scheme: text::owned("nexus-identity-key-v1"),
        kdf: text::owned("pbkdf2-sha256"),
        iterations: 210_000,
        salt_hex: outside::hex_encode(salt),
        cipher: text::owned("chacha20-poly1305"),
        nonce_hex: outside::hex_encode(nonce.as_slice()),
        ciphertext_hex: outside::hex_encode(ciphertext.as_slice()),
    };
    proof {
        outside::lemma_hex_roundtrip(salt@);
        outside::lemma_hex_roundtrip(nonce@);
        outside::lemma_hex_roundtrip(ciphertext@);
        assert(r.deep_view().ciphertext_hex == outside::hex_text(ciphertext@));
    }
    Ok(r)
}

/// Encrypts a seed with a fresh salt and nonce.
pub fn encrypt_seed(seed: [u8; 32], did: &str, passphrase: &str) -> (r: Result<
    EncryptedIdentityKey,
    IdentityStorageError,
>)
    requires
        encode_utf8(passphrase@).len() <= outside::DIGEST_LIMIT,
    ensures
        (r is Err) == (passphrase@.len() == 0),
        r matches Err(e) ==> e.deep_view() == IdentityStorageErrorView::EmptyPassphrase,
        r matches Ok(k) ==> k.deep_view().iterations == 210_000 && unlocked(
            k.deep_view(),
            did@,
            passphrase@,
        ) == Ok::<Seq<u8>, IdentityStorageErrorView>(seed@),
{
    let salt = outside::random_bytes(16);
    let nonce = outside::random_bytes(12);
    lock_seed(seed, did, passphrase, salt.as_slice(), &did::array12(nonce.as_slice()))
}

fn fixed_bytes(field: &'static str, value: &str, expected: usize) -> (r: Result<
    Vec<u8>,
    IdentityStorageError,
>)
    ensures
        outcome(r) == fixed_hex(field@, value@, expected),
{
    match outside::hex_decode(value) {
        Err(e) => Err(IdentityStorageError::Hex(e)),
        Ok(bytes) => if bytes.len() == expected {
            Ok(bytes)
        } else {
            Err(
                IdentityStorageError::InvalidLength {
                    field,
                    expected,
                    actual: bytes.len(),
                },
            )
        },
    }
}

/// Recovers the seed from an encrypted key.
pub fn decrypt_seed(encrypted: &EncryptedIdentityKey, did: &str, passphrase: &str) -> (r: Result<
    [u8; 32],
    IdentityStorageError,
>)
    requires
        encode_utf8(passphrase@).len() <= outside::DIGEST_LIMIT,
    ensures
        match r {
            Ok(seed) => unlocked(encrypted.deep_view(), did@, passphrase@) == Ok::<
                Seq<u8>,
                IdentityStorageErrorView,
            >(seed@),
            Err(e) => unlocked(encrypted.deep_view(), did@, passphrase@) == Err::<
                Seq<u8>,
                IdentityStorageErrorView,
            >(e.deep_view()),
        },
{
    if passphrase.is_empty() {
        return Err(IdentityStorageError::EmptyPassphrase);
    }
    if !text::same_text(encrypted.scheme.as_str(), "nexus-identity-key-v1") {
        return Err(IdentityStorageError::UnsupportedKeyScheme(encrypted.scheme.clone()));
    }
    if !text::same_text(encrypted.kdf.as_str(), "pbkdf2-sha256") {
        return Err(IdentityStorageError::UnsupportedKdf(encrypted.kdf.clone()));
    }
    if !text::same_text(encrypted.cipher.as_str(), "chacha20-poly1305") {
        return Err(IdentityStorageError::UnsupportedCipher(encrypted.cipher.clone()));
    }
    let salt = match fixed_bytes("salt_hex", encrypted.salt_hex.as_str(), 16) {
        Ok(salt) => salt,
        Err(e) => {
            return Err(e);
        },
    };
    let nonce = match fixed_bytes("nonce_hex", encrypted.nonce_hex.as_str(), 12) {
        Ok(nonce) => nonce,
        Err(e) => {
            return Err(e);
        },
    };
    if encrypted.iterations == 0 {
        return Err(IdentityStorageError::InvalidKdfIterations);
    }
    let secret = text::bytes_of(passphrase);
    let key = outside::pbkdf2_sha256(encrypted.iterations, salt.as_slice(), secret.as_slice());
    let ciphertext = match outside::hex_decode(encrypted.ciphertext_hex.as_str()) {
        Ok(bytes) => bytes,
        Err(e) => {
            return Err(IdentityStorageError::Hex(e));
        },
    };
    let aad = aad_bytes(did);
    let nonce12 = did::array12(nonce.as_slice());
    assert(nonce@.subrange(0, 12) =~= nonce@);
    match outside::aead_open(&key, &nonce12, aad.as_slice(), ciphertext.as_slice()) {
        None => Err(IdentityStorageError::DecryptionFailed),
        Some(seed) => if seed.len() == 32 {
            assert(seed@.subrange(0, 32) =~= seed@);
            Ok(did::array32(seed.as_slice()))
        } else {
            Err(
                IdentityStorageError::InvalidLength {
                    field: "seed",
                    expected: 32,
                    actual: seed.len(),
                },
            )
        },
    }
}

/// What an identity file yields: the seed, and whether the file is of the old
/// plaintext form and is to be written anew.
pub open spec fn restored(stored: StoredIdentityFileView, passphrase: Seq<char>) -> Result<
    (Seq<u8>, bool),
    IdentityStorageErrorView,
> {
    if passphrase.len() == 0 {
        Err(IdentityStorageErrorView::EmptyPassphrase)
    } else {
        let seed = match stored.key {
            Some(key) => if stored.version != 1 {
                Err(IdentityStorageErrorView::UnsupportedVersion(stored.version))
            } else {
                unlocked(key, stored.did, passphrase)
            },
            None => match stored.seed_hex {
                Some(hex) => fixed_hex("seed_hex"@, hex, 32),
                None => Err(IdentityStorageErrorView::MissingKeyMaterial),
            },
        };
        match seed {
            Err(e) => Err(e),
            Ok(seed) => {
                let actual = did::did_of(outside::public_key_of(seed));
                if stored.did == actual {
                    Ok((seed, stored.key is None))
                } else {
                    Err(IdentityStorageErrorView::DidMismatch { stored: stored.did, actual })
                }
            },
        }
    }
}

impl NodeIdentity {
    /// The encrypted file content of this identity, which restores to it.
    pub fn to_stored(&self, passphrase: &str) -> (r: Result<
        StoredIdentityFile,
        IdentityStorageError,
    >)
        requires
            encode_utf8(passphrase@).len() <= outside::DIGEST_LIMIT,
        ensures
            (r is Err) == (passphrase@.len() == 0),
            r matches Err(e) ==> e.deep_view() == IdentityStorageErrorView::EmptyPassphrase,
            r matches Ok(f) ==> {
                &&& f.deep_view().version == 1
                &&& f.deep_view().did == self.name()
                &&& f.deep_view().seed_hex is None
                &&& f.deep_view().key matches Some(key) && key.iterations == 210_000
                &&& restored(f.deep_view(), passphrase@) == Ok::<
                    (Seq<u8>, bool),
                    IdentityStorageErrorView,
                >((self.seed(), false))
            },
    {
        proof {
            use_type_invariant(self);
        }
        match encrypt_seed(self.seed, self.did.as_str(), passphrase) {
            Err(e) => Err(e),
            Ok(key) => Ok(
                StoredIdentityFile {
                    version: 1,
                    did: self.did.to_string(),
                    key: Some(key),
                    seed_hex: None,
                },
            ),
        }
    }

    /// Restores the identity of a file content; the flag tells whether the
    /// content is of the old plaintext form and is to be written anew.
    pub fn from_stored(stored: &StoredIdentityFile, passphrase: &str) -> (r: Result<
        (NodeIdentity, bool),
        IdentityStorageError,
    >)
        requires
            encode_utf8(passphrase@).len() <= outside::DIGEST_LIMIT,
        ensures
            match r {
                Ok((identity, migrate)) => restored(stored.deep_view(), passphrase@) == Ok::<
                    (Seq<u8>, bool),
                    IdentityStorageErrorView,
                >((identity.seed(), migrate)),
                Err(e) => restored(stored.deep_view(), passphrase@) == Err::<
                    (Seq<u8>, bool),
                    IdentityStorageErrorView,
                >(e.deep_view()),
            },
    {
        if passphrase.is_empty() {
            return Err(IdentityStorageError::EmptyPassphrase);
        }
        let seed = match &stored.key {
            Some(key) => {
                if stored.version != 1 {
                    return Err(IdentityStorageError::UnsupportedVersion(stored.version));
                }
                match decrypt_seed(key, stored.did.as_str(), passphrase) {
                    Ok(seed) => seed,
                    Err(e) => {
                        return Err(e);
                    },
                }
            },
            None => match &stored.seed_hex {
                Some(hex) => match fixed_bytes("seed_hex", hex.as_str(), 32) {
                    Ok(bytes) => {
                        assert(bytes@.subrange(0, 32) =~= bytes@);
                        did::array32(bytes.as_slice())
                    },
                    Err(e) => {
                        return Err(e);
                    },
                },
                None => {
                    return Err(IdentityStorageError::MissingKeyMaterial);
                },
            },
        };
        let identity = NodeIdentity::from_seed_bytes(&seed);
        let actual = identity.did().to_string();
        if text::same_text(stored.did.as_str(), actual.as_str()) {
            Ok((identity, stored.key.is_none()))
        } else {
            Err(IdentityStorageError::DidMismatch { stored: stored.did.clone(), actual })
        }
    }
}

} // verus!
