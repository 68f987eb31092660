use solana_km::error::KmError;
use solana_km::text::decimal_string;

#[test]
fn decimal_string_writes_numerals() {
    assert_eq!(decimal_string(0), "0");
    assert_eq!(decimal_string(7), "7");
    assert_eq!(decimal_string(10), "10");
    assert_eq!(decimal_string(65515), "65515");
}

#[test]
fn error_messages_are_the_reported_texts() {
    assert_eq!(KmError::InvalidMnemonic.message(), "Invalid mnemonic");
    assert_eq!(KmError::HomeNotSet.message(), "HOME not set");
    assert_eq!(
        KmError::Decryption.message(),
        "Decryption failed \u{2014} wrong password or corrupted file"
    );
    assert_eq!(
        KmError::InvalidNonceLength(3).message(),
        "Invalid nonce: expected 12 bytes, got 3"
    );
    assert_eq!(
        KmError::UnsupportedWordCount(15).message(),
        "Unsupported word count: 15. Use 12 or 24."
    );
    assert_eq!(
        KmError::WrongKeypairLength(63).message(),
        "Expected 64 bytes for Solana keypair, got 63"
    );
    assert_eq!(
        KmError::WrongSignatureLength(0).message(),
        "Invalid signature: expected 64 bytes, got 0"
    );
    assert_eq!(
        KmError::OffchainMessageLength(65516).message(),
        "Off-chain message must hold 1 to 65515 bytes, got 65516"
    );
    assert_eq!(
        KmError::WrongPublicKeyLength(31).message(),
        "Expected 32-byte public key, got 31"
    );
    assert_eq!(
        KmError::InvalidPublicKey.message(),
        "signature error: cannot decompress Edwards point"
    );
}

#[test]
fn wrapped_error_message_follows_the_wrapper() {
    let e = KmError::WrongPasswordOrCorrupted(Box::new(KmError::Decryption));
    assert_eq!(
        e.message(),
        "Wrong password or corrupted identity file: Decryption failed \u{2014} wrong password or corrupted file"
    );
}
