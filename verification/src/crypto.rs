//! Password-based encryption of key material.
//!
//! Encryption: the password and the salt (a fixed prefix followed by 32
//! random bytes) go through Argon2id into a 256-bit key; AES-256-GCM under
//! that key and a random 96-bit nonce gives the ciphertext and its tag.
//! Decryption derives the same key from the stored salt and parameters and
//! opens the ciphertext, failing where the password is wrong or the data was
//! altered.
use vstd::prelude::*;
use vstd::utf8::encode_utf8;
use aes_gcm::aead::{Aead, AeadCore, KeyInit};
use rand::RngCore;
use sha2::Digest;
use crate::bytes::{concat, prefix_array};
use crate::encoding::{
    base64_decode, base64_decode_text, base64_encode, base64_encode_bytes, lemma_base64_roundtrip, opt_bytes,
};
use crate::error::KmError;

verus! {

// ------------------------------------------------------------ outside calls

/// The cost parameters of the `argon2` crate, opaque here.
#[verifier::external_type_specification]
#[verifier::external_body]
pub struct ExArgon2Params(argon2::Params);

/// Argon2 cost parameters as `argon2::Params` holds them, beside the three
/// numbers they were made from. Only `argon2_params` builds a value of this
/// type, so the numbers are those inside `params`.
pub(crate) struct Argon2Costs {
    params: argon2::Params,
    memory_cost_kib: u32,
    time_cost: u32,
    parallelism: u32,
}

/// Whether `argon2::Params::new(m, t, p, Some(32))` accepts the costs: at
/// least 8 KiB and 8 KiB per lane of memory, at least one pass, and between
/// 1 and 2^24 - 1 lanes.
pub open spec fn argon2_params_accepted(m: u32, t: u32, p: u32) -> bool {
    &&& m >= 8
    &&& m >= p * 8
    &&& t >= 1
    &&& 1 <= p <= 0xFF_FFFF
}

/// Where `argon2::Params::new` panics (in a build with overflow checks): it
/// computes `p * 8` in `u32` once the memory cost is at least 8, which
/// overflows for a parallelism of 2^29 or more.
pub open spec fn argon2_params_overflow(m: u32, p: u32) -> bool {
    m >= 8 && p * 8 > u32::MAX
}

/// `argon2::Params::new(m, t, p, Some(32))`.
///
/// Claims that it succeeds exactly when `argon2_params_accepted(m, t, p)`,
/// as the crate's checks read, and that the value keeps the three
/// numbers.
#[verifier::external_body]
fn argon2_params(m: u32, t: u32, p: u32) -> (costs: Option<Argon2Costs>)
    requires
        !argon2_params_overflow(m, p),
    ensures
        costs is Some <==> argon2_params_accepted(m, t, p),
        costs matches Some(c) ==> c.memory_cost_kib == m && c.time_cost == t && c.parallelism == p,
{
    match argon2::Params::new(m, t, p, Some(32)) {
        Ok(params) => Some(Argon2Costs { params, memory_cost_kib: m, time_cost: t, parallelism: p }),
        Err(_) => None,
    }
}

/// The 32-byte Argon2id (version 0x13) output for `password` and `salt` with
/// memory cost `m` KiB, `t` passes and `p` lanes.
pub uninterp spec fn argon2id_key(password: Seq<u8>, salt: Seq<u8>, m: u32, t: u32, p: u32) -> Seq<u8>;

/// `Argon2::new(Argon2id, V0x13, params).hash_password_into(password, salt,
/// &mut [u8; 32])`.
///
/// Claims that it succeeds exactly when the password is at most 2^32 - 1
/// bytes and the salt between 8 and 2^32 - 1 bytes (its other checks concern
/// the output length, fixed here at 32), and that the key is
/// `argon2id_key` of its inputs. Left unsaid: the call allocates `m` KiB
/// and runs `t` passes over them, which the machine may not afford.
#[verifier::external_body]
fn argon2id_hash(costs: &Argon2Costs, password: &[u8], salt: &[u8]) -> (key: Option<[u8; 32]>)
    ensures
        (key is Some) == (password@.len() <= u32::MAX && 8 <= salt@.len() && salt@.len() <= u32::MAX),
        key matches Some(k) ==> k@ == argon2id_key(password@, salt@, costs.memory_cost_kib, costs.time_cost, costs.parallelism),
{
    let mut key = [0u8; 32];
    let hasher = argon2::Argon2::new(argon2::Algorithm::Argon2id, argon2::Version::V0x13, costs.params.clone());
    match hasher.hash_password_into(password, salt, &mut key) {
        Ok(()) => Some(key),
        Err(_) => None,
    }
}

/// The longest plaintext that AES-256-GCM encrypts: 2^36 bytes.
pub open spec fn aes_gcm_max_plaintext() -> nat {
    0x10_0000_0000
}

/// The AES-256-GCM ciphertext, with its 16-byte tag appended, of
/// `plaintext` under `key` and `nonce` (no associated data).
pub uninterp spec fn aes256gcm_seal(key: Seq<u8>, nonce: Seq<u8>, plaintext: Seq<u8>) -> Seq<u8>;

/// The AES-256-GCM decryption of `ciphertext` under `key` and `nonce`, or
/// `None` where the tag does not authenticate it.
pub uninterp spec fn aes256gcm_open(key: Seq<u8>, nonce: Seq<u8>, ciphertext: Seq<u8>) -> Option<Seq<u8>>;

/// `Aes256Gcm::new(key).encrypt(nonce, plaintext)`, with its error mapped to
/// `None`.
///
/// Claims that it succeeds exactly when the plaintext is at most 2^36 bytes
/// (the crate's `P_MAX`), with `aes256gcm_seal` of its inputs, which is as
/// long as the plaintext and its 16-byte tag.
#[verifier::external_body]
fn aes256gcm_encrypt(key: &[u8; 32], nonce: &[u8; 12], plaintext: &[u8]) -> (ciphertext: Option<Vec<u8>>)
    ensures
        ciphertext is Some <==> plaintext@.len() <= aes_gcm_max_plaintext(),
        ciphertext matches Some(c) ==> c@ == aes256gcm_seal(key@, nonce@, plaintext@) && c@.len()
            == plaintext@.len() + 16,
{
    let cipher = aes_gcm::Aes256Gcm::new(key.into());
    cipher.encrypt(nonce.into(), plaintext).ok()
}

/// `Aes256Gcm::new(key).decrypt(nonce, ciphertext)`, with its error mapped
/// to `None`.
///
/// Claims that the result is `aes256gcm_open` of its inputs, and that a
/// ciphertext sealed under the same key and nonce opens to its plaintext.
#[verifier::external_body]
fn aes256gcm_decrypt(key: &[u8; 32], nonce: &[u8; 12], ciphertext: &[u8]) -> (plaintext: Option<Vec<u8>>)
    ensures
        opt_bytes(plaintext) == aes256gcm_open(key@, nonce@, ciphertext@),
        forall|p: Seq<u8>|
            #[trigger] aes256gcm_seal(key@, nonce@, p) == ciphertext@ && p.len() <= aes_gcm_max_plaintext()
                ==> opt_bytes(plaintext) == Some(p),
{
    let cipher = aes_gcm::Aes256Gcm::new(key.into());
    cipher.decrypt(nonce.into(), ciphertext).ok()
}

/// `OsRng.fill_bytes` on 32 bytes: a salt from the operating system's random
/// source. Nothing is claimed of its value.
#[verifier::external_body]
fn random_salt() -> (salt: [u8; 32]) {
    let mut salt = [0u8; 32];
    aes_gcm::aead::OsRng.fill_bytes(&mut salt);
    salt
}

/// `Aes256Gcm::generate_nonce(&mut OsRng)`: a 96-bit nonce from the
/// operating system's random source. Nothing is claimed of its value.
#[verifier::external_body]
fn random_nonce() -> (nonce: [u8; 12]) {
    aes_gcm::Aes256Gcm::generate_nonce(&mut aes_gcm::aead::OsRng).into()
}

/// The SHA-256 digest of `data`.
pub uninterp spec fn sha256(data: Seq<u8>) -> Seq<u8>;

/// `Sha256::digest(data)`.
///
/// Claims that the 32-byte digest is `sha256(data)`.
#[verifier::external_body]
fn sha256_digest(data: &[u8]) -> (digest: [u8; 32])
    ensures
        digest@ == sha256(data@),
{
    sha2::Sha256::digest(data).into()
}

// ------------------------------------------------------------ the model

/// The prefix of every key-derivation salt: the bytes of `solana-km-v1`.
pub open spec fn salt_prefix() -> Seq<u8> {
    seq![115u8, 111u8, 108u8, 97u8, 110u8, 97u8, 45u8, 107u8, 109u8, 45u8, 118u8, 49u8]
}

/// Argon2id parameters as stored beside a ciphertext.
#[derive(Clone)]
pub struct KdfParams {
    pub algorithm: String,
    pub memory_cost_kib: u32,
    pub time_cost: u32,
    pub parallelism: u32,
}

/// The contents of a `KdfParams`.
pub struct KdfParamsView {
    pub algorithm: Seq<char>,
    pub memory_cost_kib: u32,
    pub time_cost: u32,
    pub parallelism: u32,
}

impl View for KdfParams {
    type V = KdfParamsView;

    open spec fn view(&self) -> KdfParamsView {
        KdfParamsView {
            algorithm: self.algorithm@,
            memory_cost_kib: self.memory_cost_kib,
            time_cost: self.time_cost,
            parallelism: self.parallelism,
        }
    }
}

/// The parameters used for every new encryption: Argon2id with 19 MiB of
/// memory, 2 passes and 1 lane.
pub open spec fn default_kdf() -> KdfParamsView {
    KdfParamsView { algorithm: "argon2id"@, memory_cost_kib: 19456, time_cost: 2, parallelism: 1 }
}

impl Default for KdfParams {
    fn default() -> (params: Self)
        ensures
            params@ == default_kdf(),
    {
        KdfParams {
            algorithm: "argon2id".to_owned(),
            memory_cost_kib: 19456,
            time_cost: 2,
            parallelism: 1,
        }
    }
}

/// An encrypted payload with all that decryption needs besides the password.
#[derive(Clone)]
pub struct EncryptedPayload {
    /// Base64 of the ciphertext with its 16-byte tag appended.
    pub ciphertext: String,
    /// Base64 of the 96-bit nonce.
    pub nonce: String,
    /// Base64 of the random part of the key-derivation salt.
    pub salt: String,
    /// The key-derivation parameters.
    pub kdf: KdfParams,
}

/// The contents of an `EncryptedPayload`.
pub struct EncryptedPayloadView {
    pub ciphertext: Seq<char>,
    pub nonce: Seq<char>,
    pub salt: Seq<char>,
    pub kdf: KdfParamsView,
}

impl View for EncryptedPayload {
    type V = EncryptedPayloadView;

    open spec fn view(&self) -> EncryptedPayloadView {
        EncryptedPayloadView {
            ciphertext: self.ciphertext@,
            nonce: self.nonce@,
            salt: self.salt@,
            kdf: self.kdf@,
        }
    }
}

/// The contents of the result of an encryption.
pub open spec fn payload_result(r: Result<EncryptedPayload, KmError>) -> Result<EncryptedPayloadView, KmError> {
    match r {
        Ok(p) => Ok(p@),
        Err(e) => Err(e),
    }
}

/// The contents of a result that carries bytes.
pub open spec fn bytes_result<const N: usize>(r: Result<[u8; N], KmError>) -> Result<Seq<u8>, KmError> {
    match r {
        Ok(b) => Ok(b@),
        Err(e) => Err(e),
    }
}

/// The contents of a result that carries a byte vector.
pub open spec fn vec_result(r: Result<Vec<u8>, KmError>) -> Result<Seq<u8>, KmError> {
    match r {
        Ok(b) => Ok(b@),
        Err(e) => Err(e),
    }
}

/// The 256-bit key that Argon2id derives from `password` and `salt` under
/// `kdf` (whatever its `algorithm` names), or why it fails.
pub open spec fn derived_key(password: Seq<char>, salt: Seq<u8>, kdf: KdfParamsView) -> Result<Seq<u8>, KmError> {
    let pw = encode_utf8(password);
    if !argon2_params_accepted(kdf.memory_cost_kib, kdf.time_cost, kdf.parallelism) {
        Err(KmError::KdfParams)
    } else if !(pw.len() <= u32::MAX && 8 <= salt.len() <= u32::MAX) {
        Err(KmError::KeyDerivation)
    } else {
        Ok(argon2id_key(pw, salt, kdf.memory_cost_kib, kdf.time_cost, kdf.parallelism))
    }
}

/// The payload that encrypting `plaintext` under `password` gives when the
/// random salt is `salt` (32 bytes) and the random nonce is `nonce` (12
/// bytes), or why it fails.
pub open spec fn encryption(plaintext: Seq<u8>, password: Seq<char>, salt: Seq<u8>, nonce: Seq<u8>) -> Result<EncryptedPayloadView, KmError> {
    match derived_key(password, salt_prefix() + salt, default_kdf()) {
        Err(e) => Err(e),
        Ok(key) => if plaintext.len() <= aes_gcm_max_plaintext() {
            Ok(
                EncryptedPayloadView {
                    ciphertext: base64_encode(aes256gcm_seal(key, nonce, plaintext)),
                    nonce: base64_encode(nonce),
                    salt: base64_encode(salt),
                    kdf: default_kdf(),
                },
            )
        } else {
            Err(KmError::Encryption)
        },
    }
}

/// The plaintext that decrypting `payload` under `password` gives, or why
/// it fails.
pub open spec fn decryption(payload: EncryptedPayloadView, password: Seq<char>) -> Result<Seq<u8>, KmError> {
    match base64_decode(payload.ciphertext) {
        None => Err(KmError::InvalidCiphertextEncoding),
        Some(ciphertext) => match base64_decode(payload.nonce) {
            None => Err(KmError::InvalidNonceEncoding),
            Some(nonce) => match base64_decode(payload.salt) {
                None => Err(KmError::InvalidSaltEncoding),
                Some(salt) => match derived_key(password, salt_prefix() + salt, payload.kdf) {
                    Err(e) => Err(e),
                    Ok(key) => if nonce.len() != 12 {
                        Err(KmError::InvalidNonceLength(nonce.len() as usize))
                    } else {
                        match aes256gcm_open(key, nonce, ciphertext) {
                            Some(plaintext) => Ok(plaintext),
                            None => Err(KmError::Decryption),
                        }
                    },
                },
            },
        },
    }
}

// ------------------------------------------------------------ the functions

/// The fixed prefix of every key-derivation salt.
fn salt_prefix_bytes() -> (prefix: [u8; 12])
    ensures
        prefix@ == salt_prefix(),
{
    let prefix: [u8; 12] = [115u8, 111u8, 108u8, 97u8, 110u8, 97u8, 45u8, 107u8, 109u8, 45u8, 118u8, 49u8];
    assert(prefix@ =~= salt_prefix());
    prefix
}

/// Derives a 256-bit key from `password` and `salt` with Argon2id under the
/// costs of `params`.
fn derive_key(password: &str, salt: &[u8], params: &KdfParams) -> (key: Result<[u8; 32], KmError>)
    ensures
        bytes_result(key) == derived_key(password@, salt@, params@),
{
    if params.memory_cost_kib >= 8 && params.parallelism > 0x1FFF_FFFF {
        // more lanes than Argon2 allows; `Params::new` would overflow on them
        return Err(KmError::KdfParams);
    }
    let costs = match argon2_params(params.memory_cost_kib, params.time_cost, params.parallelism) {
        Some(c) => c,
        None => {
            return Err(KmError::KdfParams);
        },
    };
    match argon2id_hash(&costs, password.as_bytes(), salt) {
        Some(k) => Ok(k),
        None => Err(KmError::KeyDerivation),
    }
}

/// Encrypts `plaintext` under `password` with the given salt and nonce;
/// `encrypt` calls it with fresh random ones.
pub fn encrypt_with(plaintext: &[u8], password: &str, salt: &[u8; 32], nonce: &[u8; 12]) -> (payload: Result<EncryptedPayload, KmError>)
    ensures
        payload_result(payload) == encryption(plaintext@, password@, salt@, nonce@),
        payload matches Ok(p) ==> exists|c: Seq<u8>|
            c.len() == plaintext@.len() + 16 && p.ciphertext@ == #[trigger] base64_encode(c),
{
    let prefix = salt_prefix_bytes();
    let full_salt = concat(prefix.as_slice(), salt.as_slice());
    let params = KdfParams::default();
    let key = derive_key(password, full_salt.as_slice(), &params)?;
    let ciphertext = match aes256gcm_encrypt(&key, nonce, plaintext) {
        Some(c) => c,
        None => {
            return Err(KmError::Encryption);
        },
    };
    Ok(
        EncryptedPayload {
            ciphertext: base64_encode_bytes(ciphertext.as_slice()),
            nonce: base64_encode_bytes(nonce.as_slice()),
            salt: base64_encode_bytes(salt.as_slice()),
            kdf: params,
        },
    )
}

/// Encrypts `plaintext` under `password`, with a fresh random salt and
/// nonce.
pub fn encrypt(plaintext: &[u8], password: &str) -> (payload: Result<EncryptedPayload, KmError>)
    ensures
        exists|salt: Seq<u8>, nonce: Seq<u8>|
            salt.len() == 32 && nonce.len() == 12 && payload_result(payload)
                == #[trigger] encryption(plaintext@, password@, salt, nonce),
        payload matches Ok(p) ==> exists|c: Seq<u8>|
            c.len() == plaintext@.len() + 16 && p.ciphertext@ == #[trigger] base64_encode(c),
{
    let salt = random_salt();
    let nonce = random_nonce();
    let payload = encrypt_with(plaintext, password, &salt, &nonce);
    assert(payload_result(payload) == encryption(plaintext@, password@, salt@, nonce@));
    payload
}

/// Decrypts `payload` under `password`: the plaintext, or an error where a
/// field is not base64, the parameters are refused, the nonce is not 96
/// bits, or authentication fails (wrong password or altered data). A payload that `encrypt_with`
/// made under the same password decrypts to its plaintext.
pub fn decrypt(payload: &EncryptedPayload, password: &str) -> (plaintext: Result<Vec<u8>, KmError>)
    ensures
        vec_result(plaintext) == decryption(payload@, password@),
        forall|p: Seq<u8>, salt: Seq<u8>, nonce: Seq<u8>|
            salt.len() == 32 && nonce.len() == 12 && #[trigger] encryption(p, password@, salt, nonce)
                == Ok::<EncryptedPayloadView, KmError>(payload@) ==> vec_result(plaintext) == Ok::<Seq<u8>, KmError>(p),
{
    let ciphertext = match base64_decode_text(payload.ciphertext.as_str()) {
        Some(c) => c,
        None => {
            return Err(KmError::InvalidCiphertextEncoding);
        },
    };
    let nonce_bytes = match base64_decode_text(payload.nonce.as_str()) {
        Some(n) => n,
        None => {
            return Err(KmError::InvalidNonceEncoding);
        },
    };
    let salt = match base64_decode_text(payload.salt.as_str()) {
        Some(s) => s,
        None => {
            return Err(KmError::InvalidSaltEncoding);
        },
    };
    let prefix = salt_prefix_bytes();
    let full_salt = concat(prefix.as_slice(), salt.as_slice());
    let key = derive_key(password, full_salt.as_slice(), &payload.kdf)?;
    if nonce_bytes.len() != 12 {
        return Err(KmError::InvalidNonceLength(nonce_bytes.len()));
    }
    let nonce: [u8; 12] = prefix_array(nonce_bytes.as_slice());
    assert(nonce@ =~= nonce_bytes@);
    match aes256gcm_decrypt(&key, &nonce, ciphertext.as_slice()) {
        Some(p) => Ok(p),
        None => Err(KmError::Decryption),
    }
}

/// Hashes a password into a short check value: the base64 of the first 8
/// bytes of its SHA-256 digest.
pub fn password_verification_hash(password: &str) -> (check: String)
    ensures
        check@ == base64_encode(sha256(encode_utf8(password@)).take(8)),
{
    let digest = sha256_digest(password.as_bytes());
    let head = vstd::slice::slice_subrange(digest.as_slice(), 0, 8);
    base64_encode_bytes(head)
}

// ------------------------------------------------------------ laws

/// The key is derived from the whole password: whenever the costs and
/// lengths are accepted, the Argon2id input is all of the password's UTF-8
/// bytes, so two passwords that differ anywhere hand Argon2id different
/// inputs.
pub proof fn lemma_key_uses_whole_password(
    password: Seq<char>,
    other: Seq<char>,
    salt: Seq<u8>,
    kdf: KdfParamsView,
)
    requires
        argon2_params_accepted(kdf.memory_cost_kib, kdf.time_cost, kdf.parallelism),
        encode_utf8(password).len() <= u32::MAX,
        8 <= salt.len() <= u32::MAX,
    ensures
        derived_key(password, salt, kdf) == Ok::<Seq<u8>, KmError>(
            argon2id_key(encode_utf8(password), salt, kdf.memory_cost_kib, kdf.time_cost, kdf.parallelism),
        ),
        password != other ==> encode_utf8(password) != encode_utf8(other),
{
    vstd::utf8::encode_utf8_decode_utf8(password);
    vstd::utf8::encode_utf8_decode_utf8(other);
}

/// What decrypting under a password `q` gives for a payload that encryption
/// made under a password `p`: AES-256-GCM opening, with the key Argon2id
/// derives from all of `q`'s bytes, of the sealing of the plaintext with the
/// key derived from all of `p`'s bytes (same salt, nonce and costs), and an
/// error wherever opening fails. (That opening under the right password
/// gives the plaintext back is part of `decrypt`'s contract.)
pub proof fn lemma_decryption_under_password(
    plaintext: Seq<u8>,
    p: Seq<char>,
    q: Seq<char>,
    salt: Seq<u8>,
    nonce: Seq<u8>,
)
    requires
        salt.len() == 32,
        nonce.len() == 12,
        encryption(plaintext, p, salt, nonce) is Ok,
        encode_utf8(q).len() <= u32::MAX,
    ensures
        decryption(encryption(plaintext, p, salt, nonce)->Ok_0, q) == match aes256gcm_open(
            argon2id_key(encode_utf8(q), salt_prefix() + salt, 19456, 2, 1),
            nonce,
            aes256gcm_seal(argon2id_key(encode_utf8(p), salt_prefix() + salt, 19456, 2, 1), nonce, plaintext),
        ) {
            Some(x) => Ok::<Seq<u8>, KmError>(x),
            None => Err(KmError::Decryption),
        },
{
    let full = salt_prefix() + salt;
    assert(full.len() == 44);
    lemma_key_uses_whole_password(p, q, full, default_kdf());
    lemma_key_uses_whole_password(q, p, full, default_kdf());
    let key = argon2id_key(encode_utf8(p), full, 19456, 2, 1);
    lemma_base64_roundtrip(aes256gcm_seal(key, nonce, plaintext));
    lemma_base64_roundtrip(nonce);
    lemma_base64_roundtrip(salt);
}

} // verus!
