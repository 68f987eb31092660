//! Key generation, import and export.
//!
//! Two ways to a new keypair: random bytes, or a BIP39 mnemonic, whose seed
//! (PBKDF2-HMAC-SHA512 of its normalized words) gives the secret key along
//! the HD path m/44'/501'/0'/0' by SLIP-0010 ed25519 derivation. Keypairs are exported and imported as Solana's 64 bytes
//! (secret key then public key), in base58 or as a JSON array.
use vstd::prelude::*;
use vstd::utf8::encode_utf8;
use crate::bytes::{concat, prefix_array};
use crate::ed25519::{
    ed25519_public_key, ed25519_sign, ed25519_verify_strict, group_key_lengths, identity_point_encoding,
    Signature, SigningKey, VerifyingKey,
};
use crate::encoding::{
    base58_decode, base58_decode_text, base58_encode, base58_encode_bytes, json_byte_array,
    json_parse_byte_array, json_read_byte_array, json_write_byte_array,
};
use crate::error::KmError;
use crate::text::{all_ascii, word_count};

verus! {

broadcast use group_key_lengths;

// ------------------------------------------------------------ outside calls

/// The words of the mnemonic that `bip39::Mnemonic::parse` reads from
/// `phrase`, joined by single spaces as its `Display` writes them (the
/// phrase normalized), or `None` where the phrase is not an English BIP39
/// mnemonic (word count, words or checksum).
pub uninterp spec fn bip39_normal_form(phrase: Seq<char>) -> Option<Seq<char>>;

/// Whether `phrase` is a valid BIP39 mnemonic.
pub open spec fn bip39_valid(phrase: Seq<char>) -> bool {
    bip39_normal_form(phrase) is Some
}

/// Whether a BIP39 mnemonic may have `n` words: 12 to 24, a multiple of 3.
pub open spec fn bip39_word_count_ok(n: nat) -> bool {
    12 <= n && n <= 24 && n % 3 == 0
}

/// `Mnemonic::parse(phrase)` followed by `to_string()`, with the error
/// mapped to `None`.
///
/// Claims that the result is `bip39_normal_form(phrase)`; that the words it
/// gives are a mnemonic of an accepted word count, written with single
/// spaces, which `parse` reads back as the same words; and that an ASCII
/// phrase whose number of white-space separated words is not an accepted
/// count is refused (`parse` counts the words of the phrase, which NFKD
/// normalization leaves unchanged when it is ASCII, before anything else).
/// Nothing is claimed here of which word lists and checksums are accepted.
#[verifier::external_body]
fn bip39_normalize(phrase: &str) -> (words: Option<String>)
    ensures
        opt_chars(words) == bip39_normal_form(phrase@),
        words matches Some(w) ==> bip39_normal_form(w@) == Some(w@) && bip39_word_count_ok(
            word_count(w@),
        ),
        all_ascii(phrase@) && !bip39_word_count_ok(word_count(phrase@)) ==> words is None,
{
    match bip39::Mnemonic::parse(phrase) {
        Ok(m) => Some(m.to_string()),
        Err(_) => None,
    }
}

/// `Mnemonic::generate(word_count)` followed by `to_string()`, with the
/// error mapped to `None`: a mnemonic of fresh random entropy.
///
/// Claims that it succeeds exactly for the word counts that the crate
/// accepts (12 to 24, a multiple of 3), that the phrase has that many
/// words (its `Display` joins the words with single spaces), and that
/// `Mnemonic::parse` reads the phrase back as the same words, so that it
/// is its own normal form. Nothing is claimed of the words.
#[verifier::external_body]
fn bip39_generate(word_count: usize) -> (phrase: Option<String>)
    ensures
        phrase is Some <==> (12 <= word_count && word_count <= 24 && word_count % 3 == 0),
        phrase matches Some(p) ==> bip39_normal_form(p@) == Some(p@) && crate::text::word_count(p@)
            == word_count,
{
    match bip39::Mnemonic::generate(word_count) {
        Ok(m) => Some(m.to_string()),
        Err(_) => None,
    }
}

/// The 64-byte PBKDF2-HMAC-SHA512 output for `password`, `salt` and
/// `rounds` iterations.
pub uninterp spec fn pbkdf2_hmac_sha512(password: Seq<u8>, salt: Seq<u8>, rounds: u32) -> Seq<u8>;

/// `pbkdf2::pbkdf2::<Hmac<Sha512>>(password, salt, rounds, &mut [u8; 64])`,
/// whose `Result` is ignored: HMAC takes keys of any length, so it is
/// always `Ok`.
///
/// Claims that the output is `pbkdf2_hmac_sha512` of the inputs.
#[verifier::external_body]
fn pbkdf2_sha512(password: &[u8], salt: &[u8], rounds: u32) -> (out: [u8; 64])
    ensures
        out@ == pbkdf2_hmac_sha512(password@, salt@, rounds),
{
    let mut out = [0u8; 64];
    let _ = pbkdf2::pbkdf2::<hmac::Hmac<sha2::Sha512>>(password, salt, rounds, &mut out);
    out
}

/// The 64-byte HMAC-SHA512 of `data` under `key`.
pub uninterp spec fn hmac_sha512(key: Seq<u8>, data: Seq<u8>) -> Seq<u8>;

/// `Hmac::<Sha512>::new_from_slice(key)`, then `update(data)` and
/// `finalize()`; HMAC takes keys of any length, so the key is never
/// refused.
///
/// Claims that the 64-byte tag is `hmac_sha512(key, data)`.
#[verifier::external_body]
fn hmac_sha512_tag(key: &[u8], data: &[u8]) -> (tag: [u8; 64])
    ensures
        tag@ == hmac_sha512(key@, data@),
{
    let mut mac = <hmac::Hmac<sha2::Sha512> as hmac::Mac>::new_from_slice(key).expect("HMAC accepts any key length");
    hmac::Mac::update(&mut mac, data);
    hmac::Mac::finalize(mac).into_bytes().into()
}

// ------------------------------------------------------------ the model

/// A generated or imported keypair, with the mnemonic it came from, if any.
pub struct GeneratedKey {
    /// The ed25519 secret key (32-byte seed).
    pub signing_key: SigningKey,
    /// The public key.
    pub verifying_key: VerifyingKey,
    /// The BIP39 mnemonic, where the key was derived from one.
    pub mnemonic: Option<String>,
    /// The public key in base58.
    pub pubkey_base58: String,
    /// The derivation path recorded with a mnemonic key.
    pub derivation_path: Option<String>,
}

/// The contents of a `GeneratedKey`.
pub struct GeneratedKeyView {
    pub signing_key: Seq<u8>,
    pub verifying_key: Seq<u8>,
    pub mnemonic: Option<Seq<char>>,
    pub pubkey_base58: Seq<char>,
    pub derivation_path: Option<Seq<char>>,
}

/// The characters of an optional string.
pub open spec fn opt_chars(o: Option<String>) -> Option<Seq<char>> {
    match o {
        Some(s) => Some(s@),
        None => None,
    }
}

impl View for GeneratedKey {
    type V = GeneratedKeyView;

    open spec fn view(&self) -> GeneratedKeyView {
        GeneratedKeyView {
            signing_key: self.signing_key@,
            verifying_key: self.verifying_key@,
            mnemonic: opt_chars(self.mnemonic),
            pubkey_base58: self.pubkey_base58@,
            derivation_path: opt_chars(self.derivation_path),
        }
    }
}

/// The contents of a result that carries a keypair.
pub open spec fn key_result(r: Result<GeneratedKey, KmError>) -> Result<GeneratedKeyView, KmError> {
    match r {
        Ok(k) => Ok(k@),
        Err(e) => Err(e),
    }
}

/// The derivation path recorded with mnemonic keys.
pub open spec fn solana_derivation_path() -> Seq<char> {
    "m/44'/501'/0'/0'"@
}

/// The BIP39 seed salt: the bytes of `mnemonic`.
pub open spec fn mnemonic_salt() -> Seq<u8> {
    seq![109u8, 110u8, 101u8, 109u8, 111u8, 110u8, 105u8, 99u8]
}

/// The 64-byte BIP39 seed (empty passphrase) of the normalized phrase
/// `words`: PBKDF2-HMAC-SHA512 of its UTF-8 bytes with the salt `mnemonic`
/// and 2048 rounds.
pub open spec fn mnemonic_seed(words: Seq<char>) -> Seq<u8> {
    pbkdf2_hmac_sha512(encode_utf8(words), mnemonic_salt(), 2048)
}

/// The HMAC key of the SLIP-0010 ed25519 master node: the bytes of
/// `ed25519 seed`.
pub open spec fn slip10_ed25519_domain() -> Seq<u8> {
    seq![101u8, 100u8, 50u8, 53u8, 53u8, 49u8, 57u8, 32u8, 115u8, 101u8, 101u8, 100u8]
}

/// The four big-endian bytes of the hardened index `i` (below 2^31), that
/// is of `i + 2^31`.
pub open spec fn hardened_index_bytes(i: u32) -> Seq<u8> {
    seq![
        (128 + i / 0x100_0000) as u8,
        ((i / 0x1_0000) % 256) as u8,
        ((i / 256) % 256) as u8,
        (i % 256) as u8,
    ]
}

/// The SLIP-0010 ed25519 node (secret key, then chain code) at the
/// hardened path `path` from `seed`.
pub open spec fn slip10_node(seed: Seq<u8>, path: Seq<u32>) -> Seq<u8>
    decreases path.len(),
{
    if path.len() == 0 {
        hmac_sha512(slip10_ed25519_domain(), seed)
    } else {
        let parent = slip10_node(seed, path.drop_last());
        hmac_sha512(parent.skip(32), seq![0u8] + parent.take(32) + hardened_index_bytes(path.last()))
    }
}

/// The Solana derivation path m/44'/501'/0'/0'.
pub open spec fn solana_path() -> Seq<u32> {
    seq![44u32, 501u32, 0u32, 0u32]
}

/// The secret key of a seed: the key half of its SLIP-0010 node at the
/// Solana path.
pub open spec fn seed_secret(seed: Seq<u8>) -> Seq<u8> {
    slip10_node(seed, solana_path()).take(32)
}

/// The keypair of `secret`, with a mnemonic and derivation path as given.
pub open spec fn keypair(secret: Seq<u8>, mnemonic: Option<Seq<char>>, path: Option<Seq<char>>) -> GeneratedKeyView {
    GeneratedKeyView {
        signing_key: secret,
        verifying_key: ed25519_public_key(secret),
        mnemonic: mnemonic,
        pubkey_base58: base58_encode(ed25519_public_key(secret)),
        derivation_path: path,
    }
}

/// The keypair of `secret`, with no mnemonic.
pub open spec fn plain_keypair(secret: Seq<u8>) -> GeneratedKeyView {
    keypair(secret, None, None)
}

/// The keypair that restoring the mnemonic `phrase` gives (the phrase is
/// recorded as given), or why it fails.
pub open spec fn restoration(phrase: Seq<char>) -> Result<GeneratedKeyView, KmError> {
    match bip39_normal_form(phrase) {
        Some(words) => Ok(
            keypair(seed_secret(mnemonic_seed(words)), Some(phrase), Some(solana_derivation_path())),
        ),
        None => Err(KmError::InvalidMnemonic),
    }
}

/// The keypair that importing the 64 Solana keypair bytes `decoded` gives
/// (its secret key is the first 32 bytes; the public half is not read), or
/// why it fails.
pub open spec fn keypair_import(decoded: Seq<u8>) -> Result<GeneratedKeyView, KmError> {
    if decoded.len() != 64 {
        Err(KmError::WrongKeypairLength(decoded.len() as usize))
    } else {
        Ok(plain_keypair(decoded.take(32)))
    }
}

/// The 64 bytes by which Solana stores the keypair of `secret`: the secret
/// key followed by the public key.
pub open spec fn solana_keypair_bytes(secret: Seq<u8>) -> Seq<u8> {
    secret + ed25519_public_key(secret)
}

// ------------------------------------------------------------ the functions

/// The keypair of the 32-byte secret key `secret`, with no mnemonic.
pub fn keypair_from_secret(secret: &[u8; 32]) -> (key: GeneratedKey)
    ensures
        key@ == plain_keypair(secret@),
{
    let signing_key = SigningKey::from_bytes(secret);
    let verifying_key = signing_key.verifying_key();
    let public = verifying_key.to_bytes();
    GeneratedKey {
        pubkey_base58: base58_encode_bytes(public.as_slice()),
        signing_key,
        verifying_key,
        mnemonic: None,
        derivation_path: None,
    }
}

/// Generates a random ed25519 keypair, with no mnemonic.
pub fn generate_random() -> (key: Result<GeneratedKey, KmError>)
    ensures
        key matches Ok(k) && k@.signing_key.len() == 32 && k@ == plain_keypair(k@.signing_key),
{
    let signing_key = SigningKey::generate();
    let secret = signing_key.to_bytes();
    Ok(keypair_from_secret(&secret))
}

/// The 64-byte BIP39 seed of `phrase` (of its normalized words, with the
/// empty passphrase); an error where it is not a valid mnemonic, as for an
/// ASCII phrase whose word count is not 12 to 24 and a multiple of 3.
pub fn mnemonic_to_seed(phrase: &str) -> (seed: Result<[u8; 64], KmError>)
    ensures
        bip39_valid(phrase@) <==> seed is Ok,
        seed matches Ok(s) ==> s@ == mnemonic_seed(bip39_normal_form(phrase@)->Some_0),
        seed matches Err(e) ==> e == KmError::InvalidMnemonic,
        all_ascii(phrase@) && !bip39_word_count_ok(word_count(phrase@)) ==> seed is Err,
{
    let words = match bip39_normalize(phrase) {
        Some(w) => w,
        None => {
            return Err(KmError::InvalidMnemonic);
        },
    };
    let salt: [u8; 8] = [109u8, 110u8, 101u8, 109u8, 111u8, 110u8, 105u8, 99u8];
    assert(salt@ =~= mnemonic_salt());
    Ok(pbkdf2_sha512(words.as_str().as_bytes(), salt.as_slice(), 2048))
}

/// The four bytes of the hardened index `i`.
fn hardened_index(i: u32) -> (bytes: [u8; 4])
    requires
        i < 0x8000_0000,
    ensures
        bytes@ == hardened_index_bytes(i),
{
    let bytes: [u8; 4] = [
        (128 + i / 0x100_0000) as u8,
        ((i / 0x1_0000) % 256) as u8,
        ((i / 256) % 256) as u8,
        (i % 256) as u8,
    ];
    assert(bytes@ =~= hardened_index_bytes(i));
    bytes
}

/// Derives the ed25519 signing key of a 64-byte seed along the Solana path
/// m/44'/501'/0'/0' by SLIP-0010 (never an error).
fn seed_to_signing_key(seed: &[u8; 64]) -> (key: Result<SigningKey, KmError>)
    ensures
        key matches Ok(k) && k@ == seed_secret(seed@),
{
    let domain: [u8; 12] = [101u8, 100u8, 50u8, 53u8, 53u8, 49u8, 57u8, 32u8, 115u8, 101u8, 101u8, 100u8];
    assert(domain@ =~= slip10_ed25519_domain());
    let mut node: [u8; 64] = hmac_sha512_tag(domain.as_slice(), seed.as_slice());
    let path: [u32; 4] = [44u32, 501u32, 0u32, 0u32];
    assert(path@ =~= solana_path());
    assert(solana_path().take(0) =~= Seq::<u32>::empty());
    let mut i: usize = 0;
    while i < 4
        invariant
            i <= 4,
            path@ == solana_path(),
            node@ == slip10_node(seed@, solana_path().take(i as int)),
        decreases 4 - i,
    {
        let index = hardened_index(path[i]);
        let key_half = vstd::slice::slice_subrange(node.as_slice(), 0, 32);
        let chain_half = vstd::slice::slice_subrange(node.as_slice(), 32, 64);
        let zero: [u8; 1] = [0u8];
        let head = concat(zero.as_slice(), key_half);
        let data = concat(head.as_slice(), index.as_slice());
        let ghost parent = node@;
        node = hmac_sha512_tag(chain_half, data.as_slice());
        proof {
            let p = solana_path().take(i + 1);
            assert(p.drop_last() =~= solana_path().take(i as int));
            assert(p.last() == path@[i as int]);
            assert(data@ =~= seq![0u8] + parent.take(32) + hardened_index_bytes(p.last()));
        }
        i = i + 1;
    }
    assert(solana_path().take(4) =~= solana_path());
    let secret: [u8; 32] = prefix_array(node.as_slice());
    Ok(SigningKey::from_bytes(&secret))
}

/// The keypair of a mnemonic that has been checked.
fn keypair_from_mnemonic(phrase: &str) -> (key: Result<GeneratedKey, KmError>)
    ensures
        key_result(key) == restoration(phrase@),
{
    let seed = mnemonic_to_seed(phrase)?;
    let signing_key = match seed_to_signing_key(&seed) {
        Ok(k) => k,
        Err(e) => {
            return Err(e);
        },
    };
    let verifying_key = signing_key.verifying_key();
    let public = verifying_key.to_bytes();
    Ok(
        GeneratedKey {
            pubkey_base58: base58_encode_bytes(public.as_slice()),
            signing_key,
            verifying_key,
            mnemonic: Some(phrase.to_owned()),
            derivation_path: Some("m/44'/501'/0'/0'".to_owned()),
        },
    )
}

/// Generates a BIP39 mnemonic of `word_count` words (12 or 24) and derives
/// its keypair; the result is what restoring that mnemonic gives.
pub fn generate_from_mnemonic(word_count: usize) -> (key: Result<GeneratedKey, KmError>)
    ensures
        key is Ok <==> (word_count == 12 || word_count == 24),
        !(word_count == 12 || word_count == 24) ==> key == Err::<GeneratedKey, KmError>(
            KmError::UnsupportedWordCount(word_count),
        ),
        key matches Ok(k) ==> (k@.mnemonic matches Some(phrase) && crate::text::word_count(phrase)
            == word_count && bip39_normal_form(phrase) == Some(phrase) && restoration(phrase)
            == Ok::<GeneratedKeyView, KmError>(k@)),
{
    if word_count != 12 && word_count != 24 {
        return Err(KmError::UnsupportedWordCount(word_count));
    }
    let phrase = match bip39_generate(word_count) {
        Some(p) => p,
        None => {
            return Err(KmError::MnemonicGeneration);
        },
    };
    keypair_from_mnemonic(phrase.as_str())
}

/// Restores the keypair of the BIP39 mnemonic `phrase`; an error where it
/// is not a valid mnemonic.
pub fn restore_from_mnemonic(phrase: &str) -> (key: Result<GeneratedKey, KmError>)
    ensures
        key_result(key) == restoration(phrase@),
        all_ascii(phrase@) && !bip39_word_count_ok(word_count(phrase@)) ==> key
            == Err::<GeneratedKey, KmError>(KmError::InvalidMnemonic),
{
    if bip39_normalize(phrase).is_none() {
        return Err(KmError::InvalidMnemonic);
    }
    keypair_from_mnemonic(phrase)
}

/// Imports a keypair from the base58 text of its 64 Solana bytes. Importing
/// the base58 text of any 64 bytes gives the keypair of their first 32.
pub fn import_from_base58(secret_b58: &str) -> (key: Result<GeneratedKey, KmError>)
    ensures
        key_result(key) == match base58_decode(secret_b58@) {
            None => Err(KmError::InvalidSecretKeyEncoding),
            Some(decoded) => keypair_import(decoded),
        },
        forall|x: Seq<u8>|
            x.len() == 64 && #[trigger] base58_encode(x) == secret_b58@
                ==> key_result(key) == Ok::<GeneratedKeyView, KmError>(plain_keypair(x.take(32))),
{
    let bytes = match base58_decode_text(secret_b58) {
        Some(b) => b,
        None => {
            return Err(KmError::InvalidSecretKeyEncoding);
        },
    };
    if bytes.len() != 64 {
        return Err(KmError::WrongKeypairLength(bytes.len()));
    }
    let secret: [u8; 32] = prefix_array(bytes.as_slice());
    Ok(keypair_from_secret(&secret))
}

/// Imports a keypair from a Solana keypair file: a JSON array of its 64
/// bytes. Importing the JSON array of any 64 bytes gives the keypair of
/// their first 32.
pub fn import_from_json(json_bytes: &[u8]) -> (key: Result<GeneratedKey, KmError>)
    ensures
        key_result(key) == match json_parse_byte_array(json_bytes@) {
            None => Err(KmError::InvalidKeypairJson),
            Some(decoded) => keypair_import(decoded),
        },
        forall|x: Seq<u8>|
            x.len() == 64 && #[trigger] encode_utf8(json_byte_array(x)) == json_bytes@
                ==> key_result(key) == Ok::<GeneratedKeyView, KmError>(plain_keypair(x.take(32))),
{
    let bytes = match json_read_byte_array(json_bytes) {
        Some(b) => b,
        None => {
            return Err(KmError::InvalidKeypairJson);
        },
    };
    if bytes.len() != 64 {
        return Err(KmError::WrongKeypairLength(bytes.len()));
    }
    let secret: [u8; 32] = prefix_array(bytes.as_slice());
    Ok(keypair_from_secret(&secret))
}

/// The 64 Solana keypair bytes of `signing_key`.
fn solana_keypair(signing_key: &SigningKey) -> (bytes: Vec<u8>)
    ensures
        bytes@ == solana_keypair_bytes(signing_key@),
        bytes@.len() == 64,
{
    let secret = signing_key.to_bytes();
    let public = signing_key.verifying_key().to_bytes();
    concat(secret.as_slice(), public.as_slice())
}

/// Exports `signing_key` as the base58 text of its 64 Solana keypair bytes.
pub fn export_to_base58(signing_key: &SigningKey) -> (text: String)
    ensures
        text@ == base58_encode(solana_keypair_bytes(signing_key@)),
        solana_keypair_bytes(signing_key@).len() == 64,
{
    let bytes = solana_keypair(signing_key);
    base58_encode_bytes(bytes.as_slice())
}

/// Exports `signing_key` as a Solana keypair file: the JSON array of its 64
/// keypair bytes.
pub fn export_to_json(signing_key: &SigningKey) -> (text: String)
    ensures
        text@ == json_byte_array(solana_keypair_bytes(signing_key@)),
        solana_keypair_bytes(signing_key@).len() == 64,
{
    let bytes = solana_keypair(signing_key);
    json_write_byte_array(&bytes)
}

/// Signs `message` with `signing_key`; strict verification under its public
/// key accepts the signature unless its R half is the identity.
pub fn sign_message(signing_key: &SigningKey, message: &[u8]) -> (signature: Signature)
    ensures
        signature@ == ed25519_sign(signing_key@, message@),
        signature@.take(32) != identity_point_encoding() ==> ed25519_verify_strict(
            ed25519_public_key(signing_key@),
            message@,
            signature@,
        ),
{
    signing_key.sign(message)
}

/// The base58 text of a public key.
pub fn pubkey_to_base58(verifying_key: &VerifyingKey) -> (text: String)
    ensures
        text@ == base58_encode(verifying_key@),
{
    let public = verifying_key.to_bytes();
    base58_encode_bytes(public.as_slice())
}

// ------------------------------------------------------------ laws

/// A mnemonic key restores to itself: whatever keypair restoring a phrase
/// gives records that phrase, and restoring the recorded phrase gives the
/// same keypair again (so `restore_from_mnemonic` reproduces what
/// `generate_from_mnemonic` returned).
pub proof fn lemma_restore_is_reproducible(phrase: Seq<char>, key: GeneratedKeyView)
    requires
        restoration(phrase) == Ok::<GeneratedKeyView, KmError>(key),
    ensures
        key.mnemonic == Some(phrase),
        restoration(key.mnemonic->Some_0) == Ok::<GeneratedKeyView, KmError>(key),
        key.pubkey_base58 == base58_encode(key.verifying_key),
{
}

/// Restoring depends only on the mnemonic's words: two phrases that read as
/// the same words (say, with other spacing) give the same keys.
pub proof fn lemma_restore_depends_on_words(p1: Seq<char>, p2: Seq<char>)
    requires
        bip39_normal_form(p1) is Some,
        bip39_normal_form(p1) == bip39_normal_form(p2),
    ensures
        restoration(p1) is Ok,
        restoration(p2) is Ok,
        restoration(p1)->Ok_0.signing_key == restoration(p2)->Ok_0.signing_key,
        restoration(p1)->Ok_0.pubkey_base58 == restoration(p2)->Ok_0.pubkey_base58,
{
}

/// The seed of a mnemonic depends only on its words: two phrases that read
/// as the same words give the same seed, that of the normalized words.
pub proof fn lemma_seed_depends_on_words(p1: Seq<char>, p2: Seq<char>)
    requires
        bip39_normal_form(p1) is Some,
        bip39_normal_form(p1) == bip39_normal_form(p2),
    ensures
        bip39_valid(p1),
        bip39_valid(p2),
        mnemonic_seed(bip39_normal_form(p1)->Some_0) == mnemonic_seed(bip39_normal_form(p2)->Some_0),
        restoration(p1)->Ok_0.signing_key == seed_secret(mnemonic_seed(bip39_normal_form(p2)->Some_0)),
{
}

/// An imported keypair is the one the 64 bytes hold: its secret key is
/// exactly their first 32 bytes, its public key is the public key of that
/// secret (in base58 too), and it has no mnemonic; importing the base58
/// text of the bytes gives the same keypair.
pub proof fn lemma_import_keeps_secret_half(x: Seq<u8>)
    requires
        x.len() == 64,
    ensures
        keypair_import(x) is Ok,
        keypair_import(x)->Ok_0.signing_key == x.take(32),
        keypair_import(x)->Ok_0.verifying_key == ed25519_public_key(x.take(32)),
        keypair_import(x)->Ok_0.pubkey_base58 == base58_encode(ed25519_public_key(x.take(32))),
        keypair_import(x)->Ok_0.mnemonic is None,
        keypair_import(x)->Ok_0.derivation_path is None,
        (match base58_decode(base58_encode(x)) {
            None => Err(KmError::InvalidSecretKeyEncoding),
            Some(decoded) => keypair_import(decoded),
        }) == keypair_import(x),
{
    crate::encoding::lemma_base58_roundtrip(x);
}

/// The keypair of a secret key holds that very secret key and its public
/// key, whatever the key's bytes.
pub proof fn lemma_plain_keypair_holds_secret(secret: Seq<u8>)
    ensures
        plain_keypair(secret).signing_key == secret,
        plain_keypair(secret).verifying_key == ed25519_public_key(secret),
        plain_keypair(secret).pubkey_base58 == base58_encode(ed25519_public_key(secret)),
{
}

/// The 64 exported bytes of a 32-byte secret key are that secret key
/// followed by its public key, so the public half always matches the
/// secret half, and importing them gives back the exported key with the
/// exported public half as its public key.
pub proof fn lemma_export_layout(secret: Seq<u8>)
    requires
        secret.len() == 32,
    ensures
        solana_keypair_bytes(secret).take(32) == secret,
        solana_keypair_bytes(secret).skip(32) == ed25519_public_key(secret),
        ed25519_public_key(secret).len() == 32 ==> keypair_import(solana_keypair_bytes(secret))->Ok_0.verifying_key
            == solana_keypair_bytes(secret).skip(32),
{
    assert(solana_keypair_bytes(secret).take(32) =~= secret);
    assert(solana_keypair_bytes(secret).skip(32) =~= ed25519_public_key(secret));
}

/// Exporting a keypair in either format and importing it again gives the
/// same keypair, public key text included: the 64 exported bytes are the
/// secret key followed by its public key, and import keeps the first 32.
pub proof fn lemma_export_import_keeps_key(secret: Seq<u8>)
    requires
        secret.len() == 32,
        ed25519_public_key(secret).len() == 32,
    ensures
        keypair_import(solana_keypair_bytes(secret)) == Ok::<GeneratedKeyView, KmError>(
            plain_keypair(secret),
        ),
{
    assert(solana_keypair_bytes(secret).take(32) =~= secret);
}

} // verus!
