//! ed25519 keys and signatures, held as their byte encodings.
//!
//! The curve arithmetic is that of `ed25519_dalek`; the types here carry the
//! bytes that the rest of the library reads and writes.
use vstd::prelude::*;
use crate::error::KmError;
use ed25519_dalek::Signer;

verus! {

/// The 32-byte public key that `ed25519_dalek` derives from the 32-byte
/// secret key `secret`.
pub uninterp spec fn ed25519_public_key(secret: Seq<u8>) -> Seq<u8>;

/// The 64-byte signature that `ed25519_dalek` computes for `message` under
/// the secret key `secret` (ed25519 signing is deterministic).
pub uninterp spec fn ed25519_sign(secret: Seq<u8>, message: Seq<u8>) -> Seq<u8>;

/// Whether `ed25519_dalek::VerifyingKey::from_bytes` accepts `public`, that
/// is whether it decompresses to a curve point.
pub uninterp spec fn ed25519_point_valid(public: Seq<u8>) -> bool;

/// Whether `VerifyingKey::verify_strict` accepts `signature` on `message`
/// under the public key `public`.
pub uninterp spec fn ed25519_verify_strict(
    public: Seq<u8>,
    message: Seq<u8>,
    signature: Seq<u8>,
) -> bool;

/// The compressed encoding of the identity point: y = 1 and a positive x.
pub open spec fn identity_point_encoding() -> Seq<u8> {
    seq![1u8] + Seq::new(31, |i: int| 0u8)
}

/// `SigningKey::from_bytes(secret).verifying_key().to_bytes()`.
///
/// Claims that the result is `ed25519_public_key(secret)`, and that it is
/// the compressed encoding of a curve point, which `VerifyingKey::from_bytes`
/// accepts back.
#[verifier::external_body]
fn derive_public_key(secret: &[u8; 32]) -> (public: [u8; 32])
    ensures
        public@ == ed25519_public_key(secret@),
        ed25519_point_valid(public@),
{
    ed25519_dalek::SigningKey::from_bytes(secret).verifying_key().to_bytes()
}

/// `SigningKey::from_bytes(secret).sign(message).to_bytes()`.
///
/// Claims that the result is `ed25519_sign(secret, message)`, and that strict
/// verification under the matching public key accepts it unless its first
/// half R encodes the identity: the public key of a clamped secret is never
/// of small order and the scalar half is reduced, so `verify_strict`'s only
/// other refusal, a small-order R, leaves R = r·B the identity.
#[verifier::external_body]
fn sign_bytes(secret: &[u8; 32], message: &[u8]) -> (signature: [u8; 64])
    ensures
        signature@ == ed25519_sign(secret@, message@),
        signature@.take(32) != identity_point_encoding() ==> ed25519_verify_strict(
            ed25519_public_key(secret@),
            message@,
            signature@,
        ),
{
    ed25519_dalek::SigningKey::from_bytes(secret).sign(message).to_bytes()
}

/// `VerifyingKey::from_bytes(public).is_ok()`.
///
/// Claims that the result is `ed25519_point_valid(public)`.
#[verifier::external_body]
fn point_is_valid(public: &[u8; 32]) -> (valid: bool)
    ensures
        valid == ed25519_point_valid(public@),
{
    ed25519_dalek::VerifyingKey::from_bytes(public).is_ok()
}

/// `VerifyingKey::verify_strict` on a key that decompresses (so the `Err`
/// arm of `from_bytes` is not taken) and a 64-byte signature.
///
/// Claims that the result is `ed25519_verify_strict(public, message,
/// signature)`, and that it accepts the signature that a 32-byte secret key
/// makes on the message under its own public key, unless the signature's
/// first half R encodes the identity (see `sign_bytes`).
#[verifier::external_body]
fn verify_strict_bytes(public: &[u8; 32], message: &[u8], signature: &[u8; 64]) -> (ok: bool)
    requires
        ed25519_point_valid(public@),
    ensures
        ok == ed25519_verify_strict(public@, message@, signature@),
        forall|secret: Seq<u8>|
            secret.len() == 32 && public@ == ed25519_public_key(secret) && signature@ == #[trigger] ed25519_sign(
                secret,
                message@,
            ) && signature@.take(32) != identity_point_encoding() ==> ok,
{
    match ed25519_dalek::VerifyingKey::from_bytes(public) {
        Ok(key) => key.verify_strict(message, &ed25519_dalek::Signature::from_bytes(signature)).is_ok(),
        Err(_) => false,
    }
}

/// `SigningKey::generate(&mut OsRng).to_bytes()`: 32 bytes from the
/// operating system's random source. Nothing is claimed of their value.
#[verifier::external_body]
fn random_secret() -> (secret: [u8; 32]) {
    ed25519_dalek::SigningKey::generate(&mut rand::rngs::OsRng).to_bytes()
}

/// An ed25519 secret key: its 32-byte seed.
pub struct SigningKey {
    pub(crate) secret: [u8; 32],
}

/// An ed25519 public key: the 32-byte encoding of a curve point.
pub struct VerifyingKey {
    pub(crate) public: [u8; 32],
}

/// An ed25519 signature: 64 bytes.
pub struct Signature {
    pub(crate) bytes: [u8; 64],
}

impl View for SigningKey {
    type V = Seq<u8>;

    closed spec fn view(&self) -> Seq<u8> {
        self.secret@
    }
}

impl View for VerifyingKey {
    type V = Seq<u8>;

    closed spec fn view(&self) -> Seq<u8> {
        self.public@
    }
}

impl View for Signature {
    type V = Seq<u8>;

    closed spec fn view(&self) -> Seq<u8> {
        self.bytes@
    }
}

/// A signing key is 32 bytes long.
pub broadcast proof fn lemma_signing_key_len(key: SigningKey)
    ensures
        #[trigger] key@.len() == 32,
{
}

/// A verifying key is 32 bytes long.
pub broadcast proof fn lemma_verifying_key_len(key: VerifyingKey)
    ensures
        #[trigger] key@.len() == 32,
{
}

/// A signature is 64 bytes long.
pub broadcast proof fn lemma_signature_len(signature: Signature)
    ensures
        #[trigger] signature@.len() == 64,
{
}

/// The lengths of keys and signatures.
pub broadcast group group_key_lengths {
    lemma_signing_key_len,
    lemma_verifying_key_len,
    lemma_signature_len,
}

impl SigningKey {
    /// The signing key with the 32-byte seed `secret`.
    pub fn from_bytes(secret: &[u8; 32]) -> (key: SigningKey)
        ensures
            key@ == secret@,
    {
        SigningKey { secret: *secret }
    }

    /// A signing key from the operating system's random source.
    pub fn generate() -> (key: SigningKey)
        ensures
            key@.len() == 32,
    {
        SigningKey { secret: random_secret() }
    }

    /// The 32-byte seed.
    pub fn to_bytes(&self) -> (secret: [u8; 32])
        ensures
            secret@ == self@,
    {
        self.secret
    }

    /// The public key of this secret key.
    pub fn verifying_key(&self) -> (key: VerifyingKey)
        ensures
            key@ == ed25519_public_key(self@),
    {
        let public = derive_public_key(&self.secret);
        VerifyingKey { public }
    }

    /// The ed25519 signature of `message`, which strict verification under
    /// this key's public key accepts unless its R half is the identity.
    pub fn sign(&self, message: &[u8]) -> (signature: Signature)
        ensures
            signature@ == ed25519_sign(self@, message@),
            signature@.take(32) != identity_point_encoding() ==> ed25519_verify_strict(
                ed25519_public_key(self@),
                message@,
                signature@,
            ),
    {
        Signature { bytes: sign_bytes(&self.secret, message) }
    }
}

impl VerifyingKey {
    #[verifier::type_invariant]
    spec fn decompresses(self) -> bool {
        ed25519_point_valid(self.public@)
    }

    /// The public key encoded by `public`; an error where the bytes do not
    /// decompress to a curve point.
    pub fn from_bytes(public: &[u8; 32]) -> (key: Result<VerifyingKey, KmError>)
        ensures
            ed25519_point_valid(public@) <==> key is Ok,
            key matches Ok(k) ==> k@ == public@,
            key matches Err(e) ==> e == KmError::InvalidPublicKey,
    {
        if point_is_valid(public) {
            Ok(VerifyingKey { public: *public })
        } else {
            Err(KmError::InvalidPublicKey)
        }
    }

    /// The 32-byte encoding.
    pub fn to_bytes(&self) -> (public: [u8; 32])
        ensures
            public@ == self@,
    {
        self.public
    }

    /// Strict ed25519 verification of `signature` on `message`; it accepts
    /// the signature of the matching secret key unless its R half is the
    /// identity.
    pub fn verify_strict(&self, message: &[u8], signature: &Signature) -> (ok: bool)
        ensures
            ok == ed25519_verify_strict(self@, message@, signature@),
            forall|secret: Seq<u8>|
                secret.len() == 32 && self@ == ed25519_public_key(secret) && signature@ == #[trigger] ed25519_sign(
                    secret,
                    message@,
                ) && signature@.take(32) != identity_point_encoding() ==> ok,
    {
        proof {
            use_type_invariant(self);
        }
        verify_strict_bytes(&self.public, message, &signature.bytes)
    }
}

impl Signature {
    /// The signature with the 64 bytes `bytes`.
    pub fn from_bytes(bytes: &[u8; 64]) -> (signature: Signature)
        ensures
            signature@ == bytes@,
    {
        Signature { bytes: *bytes }
    }

    /// The 64 bytes.
    pub fn to_bytes(&self) -> (bytes: [u8; 64])
        ensures
            bytes@ == self@,
    {
        self.bytes
    }
}

} // verus!
