//! Message signing and signature verification, with signatures written in
//! base58, and Solana's off-chain message encoding (version 0).
use vstd::prelude::*;
use vstd::utf8::encode_utf8;
use crate::bytes::{concat, prefix_array};
use crate::ed25519::{
    ed25519_public_key, ed25519_sign, ed25519_verify_strict, group_key_lengths, identity_point_encoding,
    Signature, SigningKey, VerifyingKey,
};
use crate::encoding::{base58_decode, base58_decode_text, base58_encode, base58_encode_bytes};
use crate::error::KmError;

verus! {

broadcast use group_key_lengths;

/// The outcome of checking the base58 signature text `signature_b58` on
/// `message` under the public key `public`: an error where the text is not
/// base58 or not 64 bytes, else whether strict verification accepts it.
pub open spec fn signature_check(public: Seq<u8>, message: Seq<u8>, signature_b58: Seq<char>) -> Result<bool, KmError> {
    match base58_decode(signature_b58) {
        None => Err(KmError::InvalidSignatureEncoding),
        Some(signature) => if signature.len() != 64 {
            Err(KmError::WrongSignatureLength(signature.len() as usize))
        } else {
            Ok(ed25519_verify_strict(public, message, signature))
        },
    }
}

/// `signature_b58` is the base58 text of the signature that the 32-byte
/// secret key `secret`, whose public key is `public`, makes on `message`,
/// and the R half of that signature is not the identity.
pub open spec fn own_signature(secret: Seq<u8>, public: Seq<u8>, message: Seq<u8>, signature_b58: Seq<char>) -> bool {
    &&& secret.len() == 32
    &&& public == ed25519_public_key(secret)
    &&& ed25519_sign(secret, message).len() == 64
    &&& signature_b58 == base58_encode(ed25519_sign(secret, message))
    &&& ed25519_sign(secret, message).take(32) != identity_point_encoding()
}

/// The signing domain of Solana off-chain messages: the byte 0xff followed
/// by `solana offchain`.
pub open spec fn offchain_signing_domain() -> Seq<u8> {
    seq![
        0xffu8, 115u8, 111u8, 108u8, 97u8, 110u8, 97u8, 32u8,
        111u8, 102u8, 102u8, 99u8, 104u8, 97u8, 105u8, 110u8,
    ]
}

/// The longest off-chain message body of version 0: 65535 less the 20
/// header bytes.
pub open spec fn offchain_max_len() -> nat {
    65515
}

/// The longest body that fits a ledger packet: 1232 less the 20 header
/// bytes.
pub open spec fn offchain_max_ledger_len() -> nat {
    1212
}

/// Whether every byte is printable ASCII (0x20 to 0x7e).
pub open spec fn printable_ascii(bytes: Seq<u8>) -> bool {
    forall|i: int| 0 <= i < bytes.len() ==> 0x20 <= #[trigger] bytes[i] <= 0x7e
}

/// The format byte of a UTF-8 body: 0 (restricted ASCII) for printable
/// ASCII that fits a packet, 1 (limited UTF-8) for other text that fits,
/// 2 (extended UTF-8) for longer text.
pub open spec fn offchain_format(body: Seq<u8>) -> u8 {
    if body.len() <= offchain_max_ledger_len() {
        if printable_ascii(body) {
            0
        } else {
            1
        }
    } else {
        2
    }
}

/// The bytes that Solana signs for the off-chain message `message`: the
/// signing domain, header version 0, the format byte, the length of the
/// UTF-8 body as a little-endian `u16`, then the body; an error for an
/// empty body or one longer than `offchain_max_len`.
pub open spec fn solana_offchain_message(message: Seq<char>) -> Result<Seq<u8>, KmError> {
    let body = encode_utf8(message);
    if body.len() == 0 || body.len() > offchain_max_len() {
        Err(KmError::OffchainMessageLength(body.len() as usize))
    } else {
        Ok(
            offchain_signing_domain() + seq![
                0u8,
                offchain_format(body),
                (body.len() % 256) as u8,
                (body.len() / 256) as u8,
            ] + body,
        )
    }
}

/// The contents of a result that carries bytes.
pub open spec fn message_result(r: Result<Vec<u8>, KmError>) -> Result<Seq<u8>, KmError> {
    match r {
        Ok(b) => Ok(b@),
        Err(e) => Err(e),
    }
}

/// Signs `message` with `signing_key`; strict verification under its public
/// key accepts the signature unless its R half is the identity.
pub fn sign_message(signing_key: &SigningKey, message: &[u8]) -> (signature: Signature)
    ensures
        signature@ == ed25519_sign(signing_key@, message@),
        signature@.take(32) != identity_point_encoding() ==> ed25519_verify_strict(
            ed25519_public_key(signing_key@),
            message@,
            signature@,
        ),
{
    signing_key.sign(message)
}

/// Signs the bytes `message`, giving the signature in base58.
fn sign_bytes_base58(signing_key: &SigningKey, message: &[u8]) -> (signature_b58: String)
    ensures
        signature_b58@ == base58_encode(ed25519_sign(signing_key@, message@)),
        ed25519_sign(signing_key@, message@).len() == 64,
        ed25519_sign(signing_key@, message@).take(32) != identity_point_encoding() ==> own_signature(
            signing_key@,
            ed25519_public_key(signing_key@),
            message@,
            signature_b58@,
        ),
{
    let signature = sign_message(signing_key, message);
    let bytes = signature.to_bytes();
    base58_encode_bytes(bytes.as_slice())
}

/// Signs the UTF-8 bytes of `message`, giving the signature in base58.
pub fn sign_string(signing_key: &SigningKey, message: &str) -> (signature_b58: String)
    ensures
        signature_b58@ == base58_encode(ed25519_sign(signing_key@, encode_utf8(message@))),
        ed25519_sign(signing_key@, encode_utf8(message@)).len() == 64,
        ed25519_sign(signing_key@, encode_utf8(message@)).take(32) != identity_point_encoding()
            ==> own_signature(signing_key@, ed25519_public_key(signing_key@), encode_utf8(message@), signature_b58@),
{
    sign_bytes_base58(signing_key, message.as_bytes())
}

/// Checks the base58 signature `signature_b58` on `message` under
/// `verifying_key`: `Ok(valid)`, or an error where the text is not base58
/// or does not hold 64 bytes. The base58 text of any 64-byte signature is
/// checked as that very signature, and a signature made by the matching
/// secret key is accepted unless its R half is the identity.
pub fn verify_signature(verifying_key: &VerifyingKey, message: &[u8], signature_b58: &str) -> (valid: Result<bool, KmError>)
    ensures
        valid == signature_check(verifying_key@, message@, signature_b58@),
        forall|signature: Seq<u8>|
            signature.len() == 64 && #[trigger] base58_encode(signature) == signature_b58@ ==> valid
                == Ok::<bool, KmError>(ed25519_verify_strict(verifying_key@, message@, signature)),
        forall|secret: Seq<u8>|
            #[trigger] own_signature(secret, verifying_key@, message@, signature_b58@) ==> valid == Ok::<
                bool,
                KmError,
            >(true),
{
    let bytes = match base58_decode_text(signature_b58) {
        Some(b) => b,
        None => {
            return Err(KmError::InvalidSignatureEncoding);
        },
    };
    if bytes.len() != 64 {
        return Err(KmError::WrongSignatureLength(bytes.len()));
    }
    let array: [u8; 64] = prefix_array(bytes.as_slice());
    assert(array@ =~= bytes@);
    let signature = Signature::from_bytes(&array);
    let ok = verifying_key.verify_strict(message, &signature);
    proof {
        assert forall|secret: Seq<u8>| #[trigger]
            own_signature(secret, verifying_key@, message@, signature_b58@) implies ok by {
            assert(bytes@ == ed25519_sign(secret, message@));
        }
    }
    Ok(ok)
}

/// Checks a base58 signature on the UTF-8 bytes of `message`; one made by
/// the matching secret key is accepted unless its R half is the identity.
pub fn verify_string(verifying_key: &VerifyingKey, message: &str, signature_b58: &str) -> (valid: Result<bool, KmError>)
    ensures
        valid == signature_check(verifying_key@, encode_utf8(message@), signature_b58@),
        forall|signature: Seq<u8>|
            signature.len() == 64 && #[trigger] base58_encode(signature) == signature_b58@ ==> valid
                == Ok::<bool, KmError>(ed25519_verify_strict(verifying_key@, encode_utf8(message@), signature)),
        forall|secret: Seq<u8>|
            #[trigger] own_signature(secret, verifying_key@, encode_utf8(message@), signature_b58@) ==> valid
                == Ok::<bool, KmError>(true),
{
    verify_signature(verifying_key, message.as_bytes(), signature_b58)
}

/// The bytes that Solana signs for the off-chain message `message`
/// (version 0); an error for an empty message or one longer than 65515
/// bytes. They are 20 bytes longer than the message.
pub fn format_solana_offchain_message(message: &str) -> (formatted: Result<Vec<u8>, KmError>)
    ensures
        message_result(formatted) == solana_offchain_message(message@),
        formatted matches Ok(f) ==> f@.len() == encode_utf8(message@).len() + 20,
{
    let body = message.as_bytes();
    let n = body.len();
    if n == 0 || n > 65515 {
        return Err(KmError::OffchainMessageLength(n));
    }
    let mut printable = true;
    let mut i: usize = 0;
    while i < n
        invariant
            n == body@.len(),
            i <= n,
            printable == (forall|j: int| 0 <= j < i ==> 0x20 <= #[trigger] body@[j] <= 0x7e),
        decreases n - i,
    {
        if body[i] < 0x20 || body[i] > 0x7e {
            printable = false;
        }
        i = i + 1;
    }
    let format: u8 = if n <= 1212 {
        if printable {
            0
        } else {
            1
        }
    } else {
        2
    };
    let header: [u8; 20] = [
        0xffu8, 115u8, 111u8, 108u8, 97u8, 110u8, 97u8, 32u8, 111u8, 102u8, 102u8, 99u8, 104u8, 97u8,
        105u8, 110u8, 0u8, format, (n % 256) as u8, (n / 256) as u8,
    ];
    let formatted = concat(header.as_slice(), body);
    assert(header@ =~= offchain_signing_domain() + seq![0u8, format, (n % 256) as u8, (n / 256) as u8]);
    assert(formatted@ =~= solana_offchain_message(message@)->Ok_0);
    Ok(formatted)
}

/// Signs `message` as a Solana off-chain message, giving the signature in
/// base58; an error where the message cannot be encoded.
pub fn sign_solana_message(signing_key: &SigningKey, message: &str) -> (signature_b58: Result<String, KmError>)
    ensures
        match solana_offchain_message(message@) {
            Err(e) => signature_b58 == Err::<String, KmError>(e),
            Ok(bytes) => signature_b58 matches Ok(s) && s@ == base58_encode(ed25519_sign(signing_key@, bytes))
                && ed25519_sign(signing_key@, bytes).len() == 64 && (ed25519_sign(signing_key@, bytes).take(32)
                != identity_point_encoding() ==> own_signature(
                signing_key@,
                ed25519_public_key(signing_key@),
                bytes,
                s@,
            )),
        },
{
    let formatted = format_solana_offchain_message(message)?;
    Ok(sign_bytes_base58(signing_key, formatted.as_slice()))
}

/// Checks a base58 signature on `message` as a Solana off-chain message; an
/// error where the message cannot be encoded. One made by the matching
/// secret key is accepted unless its R half is the identity.
pub fn verify_solana_message(verifying_key: &VerifyingKey, message: &str, signature_b58: &str) -> (valid: Result<bool, KmError>)
    ensures
        match solana_offchain_message(message@) {
            Err(e) => valid == Err::<bool, KmError>(e),
            Ok(bytes) => {
                &&& valid == signature_check(verifying_key@, bytes, signature_b58@)
                &&& forall|secret: Seq<u8>|
                    #[trigger] own_signature(secret, verifying_key@, bytes, signature_b58@) ==> valid
                        == Ok::<bool, KmError>(true)
            },
        },
{
    let formatted = format_solana_offchain_message(message)?;
    verify_signature(verifying_key, formatted.as_slice(), signature_b58)
}

// ------------------------------------------------------------ laws

/// The off-chain encoding loses nothing: two messages with the same encoded
/// bytes are the same message, and the encoding is 20 bytes longer than the
/// message's UTF-8 bytes.
pub proof fn lemma_offchain_message_injective(m1: Seq<char>, m2: Seq<char>)
    requires
        solana_offchain_message(m1) is Ok,
        solana_offchain_message(m1) == solana_offchain_message(m2),
    ensures
        m1 == m2,
        solana_offchain_message(m1)->Ok_0.len() == encode_utf8(m1).len() + 20,
{
    let b1 = solana_offchain_message(m1)->Ok_0;
    assert(b1.skip(20) =~= encode_utf8(m1));
    assert(b1.skip(20) =~= encode_utf8(m2));
    vstd::utf8::encode_utf8_decode_utf8(m1);
    vstd::utf8::encode_utf8_decode_utf8(m2);
}

} // verus!
