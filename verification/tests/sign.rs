use solana_km::ed25519::SigningKey;
use solana_km::error::KmError;
use solana_km::keygen;
use solana_km::sign::{
    format_solana_offchain_message, sign_solana_message, sign_string, verify_signature, verify_solana_message,
    verify_string,
};

const RFC_SECRET: [u8; 32] = [
    157, 97, 177, 157, 239, 253, 90, 96, 186, 132, 74, 244, 146, 236, 44, 196, 68, 73, 197, 105, 123, 50,
    105, 25, 112, 59, 172, 3, 28, 174, 127, 96,
];

#[test]
fn test_sign_and_verify_roundtrip() {
    let k = keygen::generate_random().unwrap();
    let sig = sign_string(&k.signing_key, "hello world");
    assert!(verify_string(&k.verifying_key, "hello world", &sig).unwrap());
}

#[test]
fn test_wrong_message_fails() {
    let k = keygen::generate_random().unwrap();
    let sig = sign_string(&k.signing_key, "original");
    assert!(!verify_string(&k.verifying_key, "tampered", &sig).unwrap());
}

#[test]
fn test_wrong_key_fails() {
    let k1 = keygen::generate_random().unwrap();
    let k2 = keygen::generate_random().unwrap();
    let sig = sign_string(&k1.signing_key, "test");
    assert!(!verify_string(&k2.verifying_key, "test", &sig).unwrap());
}

#[test]
fn test_solana_message_format() {
    let k = keygen::generate_random().unwrap();
    let sig = sign_solana_message(&k.signing_key, "Login to dApp").unwrap();
    assert!(verify_solana_message(&k.verifying_key, "Login to dApp", &sig).unwrap());
}

#[test]
fn offchain_format_is_solana_v0_encoding() {
    let mut expected = b"\xffsolana offchain".to_vec();
    expected.extend_from_slice(&[0, 0, 13, 0]);
    expected.extend_from_slice(b"Login to dApp");
    assert_eq!(format_solana_offchain_message("Login to dApp").unwrap(), expected);
    // non-ASCII text is "limited UTF-8", format 1; the length counts UTF-8 bytes
    let mut expected = b"\xffsolana offchain".to_vec();
    expected.extend_from_slice(&[0, 1, 2, 0]);
    expected.extend_from_slice("é".as_bytes());
    assert_eq!(format_solana_offchain_message("é").unwrap(), expected);
    // a control character is not printable ASCII either
    assert_eq!(format_solana_offchain_message("a\n").unwrap()[17], 1);
    // past 1212 bytes the format is "extended UTF-8", format 2
    let long = "a".repeat(1213);
    let f = format_solana_offchain_message(&long).unwrap();
    assert_eq!(&f[17..20], &[2, 0xbd, 0x04]);
    assert_eq!(f.len(), 1213 + 20);
}

#[test]
fn offchain_message_length_limits() {
    assert_eq!(format_solana_offchain_message("").err(), Some(KmError::OffchainMessageLength(0)));
    let too_long = "a".repeat(65516);
    assert_eq!(format_solana_offchain_message(&too_long).err(), Some(KmError::OffchainMessageLength(65516)));
    assert!(format_solana_offchain_message(&"a".repeat(65515)).is_ok());
    let sk = SigningKey::from_bytes(&RFC_SECRET);
    assert_eq!(sign_solana_message(&sk, "").err(), Some(KmError::OffchainMessageLength(0)));
    assert_eq!(verify_solana_message(&sk.verifying_key(), "", "112"), Err(KmError::OffchainMessageLength(0)));
}

#[test]
fn known_signatures() {
    let sk = SigningKey::from_bytes(&RFC_SECRET);
    assert_eq!(
        sign_string(&sk, "hello world"),
        "tQWwu95Sx5bCpxtpzDsTAMDXwhaC1hWKp4vyQgAMpaTXDzcij1ecqjJw9WaEB3Yq4GAkwiCbRWgzLJepcDFMkhf"
    );
    assert_eq!(
        sign_solana_message(&sk, "Login to dApp").unwrap(),
        "4ijuVo2HES2uXWMCvowg6f2DA6SbS7hSBQrHU5fqs7XmNirp3wBG8NshKJNvNLus6ZQJa56G6s3V5z7uq6kYZNJn"
    );
}

#[test]
fn plain_signature_does_not_verify_as_offchain_message() {
    let sk = SigningKey::from_bytes(&RFC_SECRET);
    let vk = sk.verifying_key();
    let sig = sign_string(&sk, "Login to dApp");
    assert!(!verify_solana_message(&vk, "Login to dApp", &sig).unwrap());
}

#[test]
fn signature_text_errors() {
    let sk = SigningKey::from_bytes(&RFC_SECRET);
    let vk = sk.verifying_key();
    assert_eq!(verify_string(&vk, "m", "0OIl"), Err(KmError::InvalidSignatureEncoding));
    assert_eq!(verify_string(&vk, "m", "112"), Err(KmError::WrongSignatureLength(3)));
    assert_eq!(verify_signature(&vk, b"m", ""), Err(KmError::WrongSignatureLength(0)));
}
