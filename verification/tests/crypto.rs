use solana_km::crypto::{
    decrypt, encrypt, encrypt_with, password_verification_hash,
    EncryptedPayload, KdfParams,
};
use solana_km::error::KmError;

#[test]
fn test_encrypt_decrypt_roundtrip() {
    let plaintext = b"This is a secret ed25519 keypair!";
    let password = "correct-horse-battery-staple";

    let payload = encrypt(plaintext, password).unwrap();
    let decrypted = decrypt(&payload, password).unwrap();

    assert_eq!(decrypted, plaintext);
}

#[test]
fn test_wrong_password_fails() {
    let payload = encrypt(b"secret data", "right-password").unwrap();
    let result = decrypt(&payload, "wrong-password");
    assert!(result.is_err());
}

#[test]
fn test_different_plaintext_different_ciphertext() {
    let p1 = encrypt(b"hello", "pw").unwrap();
    let p2 = encrypt(b"world", "pw").unwrap();
    assert_ne!(p1.ciphertext, p2.ciphertext);
}

#[test]
fn test_same_plaintext_different_ciphertext() {
    let p1 = encrypt(b"hello", "pw").unwrap();
    let p2 = encrypt(b"hello", "pw").unwrap();
    assert_ne!(p1.ciphertext, p2.ciphertext);
    assert_ne!(p1.nonce, p2.nonce);
}

#[test]
fn default_kdf_params_are_argon2id_19mib() {
    let p = KdfParams::default();
    assert_eq!(p.algorithm, "argon2id");
    assert_eq!(p.memory_cost_kib, 19456);
    assert_eq!(p.time_cost, 2);
    assert_eq!(p.parallelism, 1);
}

#[test]
fn encrypt_with_fixed_salt_and_nonce_is_deterministic_and_encodes_them() {
    let salt = [7u8; 32];
    let nonce = [9u8; 12];
    let a = encrypt_with(b"abc", "pw", &salt, &nonce).unwrap();
    let b = encrypt_with(b"abc", "pw", &salt, &nonce).unwrap();
    assert_eq!(a.ciphertext, b.ciphertext);
    assert_eq!(a.nonce, "CQkJCQkJCQkJCQkJ");
    assert_eq!(a.salt, "BwcHBwcHBwcHBwcHBwcHBwcHBwcHBwcHBwcHBwcHBwc=");
    assert_eq!(a.kdf.memory_cost_kib, 19456);
    // 3 bytes of plaintext and a 16-byte tag: 19 bytes, 28 base64 characters
    assert_eq!(a.ciphertext.len(), 28);
    assert_eq!(decrypt(&a, "pw").unwrap(), b"abc".to_vec());
}

#[test]
fn empty_plaintext_roundtrips() {
    let payload = encrypt(b"", "pw").unwrap();
    assert_eq!(decrypt(&payload, "pw").unwrap(), Vec::<u8>::new());
}

#[test]
fn decrypt_reports_bad_base64_fields() {
    let good = encrypt(b"x", "pw").unwrap();
    let mut p = good.clone();
    p.ciphertext = "not base64!".to_string();
    assert_eq!(decrypt(&p, "pw"), Err(KmError::InvalidCiphertextEncoding));
    let mut p = good.clone();
    p.nonce = "%%%".to_string();
    assert_eq!(decrypt(&p, "pw"), Err(KmError::InvalidNonceEncoding));
    let mut p = good.clone();
    p.salt = "@".to_string();
    assert_eq!(decrypt(&p, "pw"), Err(KmError::InvalidSaltEncoding));
}

#[test]
fn decrypt_reports_refused_kdf_params() {
    let mut p = encrypt(b"x", "pw").unwrap();
    p.kdf.time_cost = 0;
    assert_eq!(decrypt(&p, "pw"), Err(KmError::KdfParams));
    let mut p = encrypt(b"x", "pw").unwrap();
    p.kdf.memory_cost_kib = 4;
    assert_eq!(decrypt(&p, "pw"), Err(KmError::KdfParams));
}

#[test]
fn decrypt_reports_tampered_ciphertext() {
    let p = encrypt(b"secret", "pw").unwrap();
    let mut q = p.clone();
    // replace the ciphertext with that of another message under another nonce
    let other = encrypt(b"secreT", "pw").unwrap();
    q.ciphertext = other.ciphertext;
    assert_eq!(decrypt(&q, "pw"), Err(KmError::Decryption));
}

#[test]
fn short_nonce_is_an_error() {
    let mut p: EncryptedPayload = encrypt(b"x", "pw").unwrap();
    p.nonce = "AAAA".to_string(); // three bytes
    assert_eq!(decrypt(&p, "pw"), Err(KmError::InvalidNonceLength(3)));
    let q = EncryptedPayload {
        ciphertext: "AAAAAAAAAAAAAAAAAAAAAA==".into(),
        nonce: "AAAA".into(),
        salt: "AAAA".into(),
        kdf: KdfParams::default(),
    };
    assert_eq!(decrypt(&q, "pw"), Err(KmError::InvalidNonceLength(3)));
}

#[test]
fn overflowing_parallelism_is_refused() {
    let mut p = encrypt(b"x", "pw").unwrap();
    p.kdf.parallelism = 0x2000_0000;
    assert_eq!(decrypt(&p, "pw"), Err(KmError::KdfParams));
    p.kdf.memory_cost_kib = 7;
    assert_eq!(decrypt(&p, "pw"), Err(KmError::KdfParams));
}

#[test]
fn password_verification_hash_is_base64_of_sha256_prefix() {
    assert_eq!(password_verification_hash("pw"), "MMlS+rEiw/k=");
    assert_eq!(password_verification_hash("pw"), password_verification_hash("pw"));
    assert_ne!(password_verification_hash("pw"), password_verification_hash("pw2"));
}

#[test]
fn decrypt_refuses_non_canonical_base64() {
    let good = encrypt(b"x", "pw").unwrap();
    // the last digit carries bits that no byte string sets
    let mut p = good.clone();
    p.ciphertext = "AB==".to_string();
    assert_eq!(decrypt(&p, "pw"), Err(KmError::InvalidCiphertextEncoding));
    // padding left out
    let mut p = good.clone();
    p.nonce = "AA".to_string();
    assert_eq!(decrypt(&p, "pw"), Err(KmError::InvalidNonceEncoding));
    // "AA==" is the canonical text of one zero byte
    let mut p = good.clone();
    p.nonce = "AA==".to_string();
    assert_eq!(decrypt(&p, "pw"), Err(KmError::InvalidNonceLength(1)));
}
