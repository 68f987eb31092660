use solana_km::commands::{default_identity_name, parse_public_key};
use solana_km::error::KmError;
use solana_km::keygen;
use solana_km::wallet::{
    config_path, identities_dir, identity_path, is_identity_file, list_identities, load_identity,
    save_identity, wallet_dir, StoredIdentity,
};

#[test]
fn test_save_load_delete_identity() {
    let k = keygen::generate_random().unwrap();
    let path = identity_path(Some("/home/user"), "__test__").unwrap();
    assert!(path.ends_with("/.solana-key-manager/identities/__test__.enc"));

    let saved = save_identity("__test__", &k.signing_key, "test-pw", false).unwrap();

    let loaded = load_identity(saved.clone(), "test-pw").unwrap();
    assert_eq!(loaded.pubkey, k.pubkey_base58);

    assert!(load_identity(saved, "wrong-pw").is_err());
}

#[test]
fn saved_identity_decrypts_to_its_key() {
    let k = keygen::generate_random().unwrap();
    let saved = save_identity("main", &k.signing_key, "pw", true).unwrap();
    assert_eq!(saved.name, "main");
    assert!(saved.has_mnemonic);
    assert_eq!(saved.decrypt_signing_key("pw").unwrap().to_bytes(), k.signing_key.to_bytes());
    match saved.decrypt_signing_key("nope") {
        Err(KmError::Decryption) => {}
        _ => panic!("a wrong password must fail authentication"),
    }
}

#[test]
fn wrong_password_is_reported_with_its_cause() {
    let k = keygen::generate_random().unwrap();
    let saved = save_identity("main", &k.signing_key, "pw", false).unwrap();
    assert_eq!(
        load_identity(saved, "other").err(),
        Some(KmError::WrongPasswordOrCorrupted(Box::new(KmError::Decryption)))
    );
}

#[test]
fn short_secret_is_refused() {
    let k = keygen::generate_random().unwrap();
    let mut saved = save_identity("main", &k.signing_key, "pw", false).unwrap();
    saved.encrypted = solana_km::crypto::encrypt(&[1u8; 16], "pw").unwrap();
    assert_eq!(saved.decrypt_signing_key("pw").err(), Some(KmError::DecryptedKeyTooShort));
}

#[test]
fn load_reports_a_malformed_nonce() {
    let k = keygen::generate_random().unwrap();
    let mut saved: StoredIdentity = save_identity("main", &k.signing_key, "pw", false).unwrap();
    saved.encrypted.nonce = "AAAA".to_string();
    assert_eq!(
        load_identity(saved, "pw").err(),
        Some(KmError::WrongPasswordOrCorrupted(Box::new(KmError::InvalidNonceLength(3))))
    );
}

#[test]
fn wallet_paths() {
    assert_eq!(wallet_dir(Some("/home/u")).unwrap(), "/home/u/.solana-key-manager");
    assert_eq!(wallet_dir(Some("/home/alice/")).unwrap(), "/home/alice/.solana-key-manager");
    assert_eq!(wallet_dir(None).err(), Some(KmError::HomeNotSet));
    assert_eq!(identities_dir(Some("/home/u")).unwrap(), "/home/u/.solana-key-manager/identities");
    assert_eq!(identities_dir(Some("/home/u/")).unwrap(), "/home/u/.solana-key-manager/identities");
    assert_eq!(identities_dir(Some("")).unwrap(), ".solana-key-manager/identities");
    assert_eq!(config_path(Some("/root")).unwrap(), "/root/.solana-key-manager/config.toml");
    assert_eq!(identity_path(Some("/h"), "dev").unwrap(), "/h/.solana-key-manager/identities/dev.enc");
    // an absolute name replaces the directory, as PathBuf::join does
    assert_eq!(identity_path(Some("/h"), "/tmp/x").unwrap(), "/tmp/x.enc");
    assert_eq!(identity_path(None, "dev").err(), Some(KmError::HomeNotSet));
}

#[test]
fn identity_file_names() {
    assert!(is_identity_file("main.enc"));
    assert!(is_identity_file("a.b.enc"));
    assert!(!is_identity_file(".enc"));
    assert!(!is_identity_file("main.enc.bak"));
    assert!(!is_identity_file("config.toml"));
    assert!(!is_identity_file("enc"));
}

#[test]
fn listing_is_sorted_by_name() {
    let k = keygen::generate_random().unwrap();
    let a = save_identity("zeta", &k.signing_key, "pw", true).unwrap();
    let b = save_identity("alpha", &k.signing_key, "pw", false).unwrap();
    let c = save_identity("Mid", &k.signing_key, "pw", false).unwrap();
    let list = list_identities(vec![a, b, c]);
    let names: Vec<&str> = list.iter().map(|s| s.name.as_str()).collect();
    assert_eq!(names, vec!["Mid", "alpha", "zeta"]);
    assert!(list[1].name == "alpha" && !list[1].has_mnemonic);
    assert!(list[2].has_mnemonic);
    assert_eq!(list[0].pubkey, k.pubkey_base58);
    assert!(list_identities(Vec::new()).is_empty());
}

#[test]
fn default_names() {
    assert_eq!(default_identity_name(Some("x".to_string()), "ABCDEFGHIJ"), "x");
    assert_eq!(default_identity_name(None, "FVen3X669xLzsi6N2V91DoiyzHzg1uAgqiT8jZ9nS96Z"), "wallet-FVen3X66");
}

#[test]
fn public_key_parsing() {
    let vk = parse_public_key("FVen3X669xLzsi6N2V91DoiyzHzg1uAgqiT8jZ9nS96Z").unwrap();
    assert_eq!(keygen::pubkey_to_base58(&vk), "FVen3X669xLzsi6N2V91DoiyzHzg1uAgqiT8jZ9nS96Z");
    assert_eq!(parse_public_key("0OIl").err(), Some(KmError::InvalidPublicKeyEncoding));
    assert_eq!(parse_public_key("112").err(), Some(KmError::WrongPublicKeyLength(3)));
    // y = 2 is not the y-coordinate of a curve point
    assert_eq!(
        parse_public_key("8opHzTAnfzRpPEx21XtnrVTX28YQuCpAjcn1PczScKh").err(),
        Some(KmError::InvalidPublicKey)
    );
}

#[test]
fn listing_keeps_found_order_for_equal_names() {
    let k1 = keygen::generate_random().unwrap();
    let k2 = keygen::generate_random().unwrap();
    let a = save_identity("same", &k1.signing_key, "pw", false).unwrap();
    let b = save_identity("same", &k2.signing_key, "pw", false).unwrap();
    let c = save_identity("aaa", &k2.signing_key, "pw", false).unwrap();
    let list = list_identities(vec![a, b, c]);
    assert_eq!(list[0].name, "aaa");
    assert_eq!(list[1].pubkey, k1.pubkey_base58);
    assert_eq!(list[2].pubkey, k2.pubkey_base58);
}
