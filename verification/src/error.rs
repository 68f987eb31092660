//! The errors that the key manager reports, and their messages.
use vstd::prelude::*;
use crate::text::{decimal, decimal_string};

verus! {

/// Why an operation of the key manager failed.
#[derive(Debug, PartialEq, Eq)]
pub enum KmError {
    /// The Argon2id cost parameters are out of the ranges that Argon2 accepts.
    KdfParams,
    /// Argon2id refused the password or the salt (password or salt too long).
    KeyDerivation,
    /// AES-256-GCM refused the plaintext (longer than 2^36 bytes).
    Encryption,
    /// The stored ciphertext is not valid base64.
    InvalidCiphertextEncoding,
    /// The stored nonce is not valid base64.
    InvalidNonceEncoding,
    /// The stored salt is not valid base64.
    InvalidSaltEncoding,
    /// The stored nonce is not 12 bytes long; it had this many.
    InvalidNonceLength(usize),
    /// Authenticated decryption failed: wrong password or corrupted data.
    Decryption,
    /// A mnemonic of this many words was asked for; only 12 and 24 are offered.
    UnsupportedWordCount(usize),
    /// The mnemonic generator failed.
    MnemonicGeneration,
    /// The phrase is not a valid BIP39 mnemonic.
    InvalidMnemonic,
    /// The secret key text is not valid base58.
    InvalidSecretKeyEncoding,
    /// The keypair file is not a JSON array of bytes.
    InvalidKeypairJson,
    /// A keypair must be 64 bytes long; it had this many.
    WrongKeypairLength(usize),
    /// The signature text is not valid base58.
    InvalidSignatureEncoding,
    /// A signature must be 64 bytes long; it had this many.
    WrongSignatureLength(usize),
    /// An off-chain message must hold 1 to 65515 bytes; it had this many.
    OffchainMessageLength(usize),
    /// The public key text is not valid base58.
    InvalidPublicKeyEncoding,
    /// A public key must be 32 bytes long; it had this many.
    WrongPublicKeyLength(usize),
    /// The 32 bytes are not the encoding of a curve point.
    InvalidPublicKey,
    /// The decrypted secret is shorter than an ed25519 secret key.
    DecryptedKeyTooShort,
    /// The stored identity could not be unlocked with the password.
    WrongPasswordOrCorrupted(Box<KmError>),
    /// The home directory is not known (the variable `HOME` is not set).
    HomeNotSet,
}

/// The message by which the key manager reports `e`; where a count is
/// part of the error, its decimal numeral is part of the message, and a
/// wrapped error's message follows that of the wrapper.
pub open spec fn message_text(e: KmError) -> Seq<char>
    decreases e,
{
    match e {
        KmError::KdfParams => "Argon2 params error"@,
        KmError::KeyDerivation => "Argon2id key derivation failed"@,
        KmError::Encryption => "Encryption failed"@,
        KmError::InvalidCiphertextEncoding => "Invalid ciphertext base64"@,
        KmError::InvalidNonceEncoding => "Invalid nonce base64"@,
        KmError::InvalidSaltEncoding => "Invalid salt base64"@,
        KmError::InvalidNonceLength(n) => "Invalid nonce: expected 12 bytes, got "@ + decimal(
            n as nat,
        ),
        KmError::Decryption => "Decryption failed \u{2014} wrong password or corrupted file"@,
        KmError::UnsupportedWordCount(n) => "Unsupported word count: "@ + decimal(n as nat)
            + ". Use 12 or 24."@,
        KmError::MnemonicGeneration => "Mnemonic generation failed"@,
        KmError::InvalidMnemonic => "Invalid mnemonic"@,
        KmError::InvalidSecretKeyEncoding => "Invalid base58 secret key"@,
        KmError::InvalidKeypairJson => "Invalid keypair JSON format"@,
        KmError::WrongKeypairLength(n) => "Expected 64 bytes for Solana keypair, got "@ + decimal(
            n as nat,
        ),
        KmError::InvalidSignatureEncoding => "Invalid signature base58 encoding"@,
        KmError::WrongSignatureLength(n) => "Invalid signature: expected 64 bytes, got "@
            + decimal(n as nat),
        KmError::OffchainMessageLength(n) => "Off-chain message must hold 1 to 65515 bytes, got "@
            + decimal(n as nat),
        KmError::InvalidPublicKeyEncoding => "Invalid public key"@,
        KmError::WrongPublicKeyLength(n) => "Expected 32-byte public key, got "@ + decimal(
            n as nat,
        ),
        KmError::InvalidPublicKey => "signature error: cannot decompress Edwards point"@,
        KmError::DecryptedKeyTooShort => "Decrypted data too short for ed25519 key"@,
        KmError::WrongPasswordOrCorrupted(cause) => "Wrong password or corrupted identity file: "@
            + message_text(*cause),
        KmError::HomeNotSet => "HOME not set"@,
    }
}

/// `text` followed by the decimal numeral of `n`.
fn with_count(text: &str, n: usize) -> (s: String)
    ensures
        s@ == text@ + decimal(n as nat),
{
    let mut s = String::from_str(text);
    let digits = decimal_string(n);
    s.append(digits.as_str());
    s
}

impl KmError {
    /// The message by which the key manager reports this error.
    pub fn message(&self) -> (text: String)
        ensures
            text@ == message_text(*self),
        decreases self,
    {
        match self {
            KmError::KdfParams => String::from_str("Argon2 params error"),
            KmError::KeyDerivation => String::from_str("Argon2id key derivation failed"),
            KmError::Encryption => String::from_str("Encryption failed"),
            KmError::InvalidCiphertextEncoding => String::from_str("Invalid ciphertext base64"),
            KmError::InvalidNonceEncoding => String::from_str("Invalid nonce base64"),
            KmError::InvalidSaltEncoding => String::from_str("Invalid salt base64"),
            KmError::InvalidNonceLength(n) => with_count("Invalid nonce: expected 12 bytes, got ", *n),
            KmError::Decryption => String::from_str(
                "Decryption failed \u{2014} wrong password or corrupted file",
            ),
            KmError::UnsupportedWordCount(n) => {
                let mut s = with_count("Unsupported word count: ", *n);
                s.append(". Use 12 or 24.");
                s
            },
            KmError::MnemonicGeneration => String::from_str("Mnemonic generation failed"),
            KmError::InvalidMnemonic => String::from_str("Invalid mnemonic"),
            KmError::InvalidSecretKeyEncoding => String::from_str("Invalid base58 secret key"),
            KmError::InvalidKeypairJson => String::from_str("Invalid keypair JSON format"),
            KmError::WrongKeypairLength(n) => with_count(
                "Expected 64 bytes for Solana keypair, got ",
                *n,
            ),
            KmError::InvalidSignatureEncoding => String::from_str(
                "Invalid signature base58 encoding",
            ),
            KmError::WrongSignatureLength(n) => with_count(
                "Invalid signature: expected 64 bytes, got ",
                *n,
            ),
            KmError::OffchainMessageLength(n) => with_count(
                "Off-chain message must hold 1 to 65515 bytes, got ",
                *n,
            ),
            KmError::InvalidPublicKeyEncoding => String::from_str("Invalid public key"),
            KmError::WrongPublicKeyLength(n) => with_count("Expected 32-byte public key, got ", *n),
            KmError::InvalidPublicKey => String::from_str(
                "signature error: cannot decompress Edwards point",
            ),
            KmError::DecryptedKeyTooShort => String::from_str(
                "Decrypted data too short for ed25519 key",
            ),
            KmError::WrongPasswordOrCorrupted(cause) => {
                let mut s = String::from_str("Wrong password or corrupted identity file: ");
                let inner = cause.message();
                s.append(inner.as_str());
                s
            },
            KmError::HomeNotSet => String::from_str("HOME not set"),
        }
    }
}

} // verus!
