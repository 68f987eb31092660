//! Decisions of the command-line front end that do not touch the terminal or
//! the disk: the default name of a new identity, and reading a public key
//! given in base58.
use vstd::prelude::*;
use vstd::string::StringExecFns;
use vstd::utf8::{encode_utf8, is_char_boundary};
use crate::bytes::prefix_array;
use crate::ed25519::{ed25519_point_valid, VerifyingKey};
use crate::encoding::{base58_decode, base58_decode_text, base58_encode, lemma_base58_roundtrip};
use crate::error::KmError;

verus! {

/// The name under which a new identity is saved: the name given, or
/// `wallet-` followed by the first 8 bytes of its base58 public key.
pub open spec fn identity_name(name: Option<Seq<char>>, pubkey_base58: Seq<char>) -> Seq<u8> {
    match name {
        Some(n) => encode_utf8(n),
        None => encode_utf8("wallet-"@) + encode_utf8(pubkey_base58).take(8),
    }
}

/// The characters of an optional string.
pub open spec fn opt_string(o: Option<String>) -> Option<Seq<char>> {
    match o {
        Some(s) => Some(s@),
        None => None,
    }
}

/// The name for a new identity: `name` where given, else `wallet-` and the
/// first 8 bytes of the public key text.
pub fn default_identity_name(name: Option<String>, pubkey_base58: &str) -> (chosen: String)
    requires
        name is None ==> is_char_boundary(encode_utf8(pubkey_base58@), 8),
    ensures
        encode_utf8(chosen@) == identity_name(opt_string(name), pubkey_base58@),
{
    match name {
        Some(n) => n,
        None => {
            let (head, _) = pubkey_base58.split_at(8);
            let chosen = "wallet-".to_owned().concat(head);
            proof {
                crate::text::lemma_encode_utf8_concat("wallet-"@, head@);
            }
            chosen
        },
    }
}

/// The outcome of reading the base58 text `text` as a public key.
pub open spec fn public_key_reading(text: Seq<char>) -> Result<Seq<u8>, KmError> {
    match base58_decode(text) {
        None => Err(KmError::InvalidPublicKeyEncoding),
        Some(bytes) => if bytes.len() != 32 {
            Err(KmError::WrongPublicKeyLength(bytes.len() as usize))
        } else if !ed25519_point_valid(bytes) {
            Err(KmError::InvalidPublicKey)
        } else {
            Ok(bytes)
        },
    }
}

/// The contents of a result that carries a public key.
pub open spec fn verifying_key_result(r: Result<VerifyingKey, KmError>) -> Result<Seq<u8>, KmError> {
    match r {
        Ok(k) => Ok(k@),
        Err(e) => Err(e),
    }
}

/// Reads a public key given in base58: an error where the text is not
/// base58, does not hold 32 bytes, or does not encode a curve point.
pub fn parse_public_key(text: &str) -> (key: Result<VerifyingKey, KmError>)
    ensures
        verifying_key_result(key) == public_key_reading(text@),
{
    let bytes = match base58_decode_text(text) {
        Some(b) => b,
        None => {
            return Err(KmError::InvalidPublicKeyEncoding);
        },
    };
    if bytes.len() != 32 {
        return Err(KmError::WrongPublicKeyLength(bytes.len()));
    }
    let array: [u8; 32] = prefix_array(bytes.as_slice());
    assert(array@ =~= bytes@);
    VerifyingKey::from_bytes(&array)
}

/// Every 32 bytes that decode to a curve point are read back, from their
/// base58 text, as that public key; and whatever is read as a key is 32
/// bytes of a curve point whose base58 text is the text read.
pub proof fn lemma_valid_public_key_is_read(b: Seq<u8>, text: Seq<char>)
    requires
        b.len() == 32,
        ed25519_point_valid(b),
    ensures
        public_key_reading(base58_encode(b)) == Ok::<Seq<u8>, KmError>(b),
        public_key_reading(text) matches Ok(k) ==> k.len() == 32 && ed25519_point_valid(k)
            && base58_encode(k) == text,
{
    lemma_base58_roundtrip(b);
}

} // verus!
