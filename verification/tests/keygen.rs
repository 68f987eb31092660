use solana_km::ed25519::SigningKey;
use solana_km::error::KmError;
use solana_km::keygen::{
    export_to_base58, export_to_json, generate_from_mnemonic, generate_random, import_from_base58,
    import_from_json, keypair_from_secret, mnemonic_to_seed, pubkey_to_base58, restore_from_mnemonic,
    sign_message,
};

const RFC_SECRET: [u8; 32] = [
    157, 97, 177, 157, 239, 253, 90, 96, 186, 132, 74, 244, 146, 236, 44, 196, 68, 73, 197, 105, 123, 50,
    105, 25, 112, 59, 172, 3, 28, 174, 127, 96,
];

#[test]
fn test_generate_random_produces_unique_keys() {
    let k1 = generate_random().unwrap();
    let k2 = generate_random().unwrap();
    assert_ne!(k1.pubkey_base58, k2.pubkey_base58);
}

#[test]
fn test_generate_24_word_mnemonic() {
    let k = generate_from_mnemonic(24).unwrap();
    let phrase = k.mnemonic.unwrap();
    let words: Vec<&str> = phrase.split_whitespace().collect();
    assert_eq!(words.len(), 24);
}

#[test]
fn test_restore_from_mnemonic_is_deterministic() {
    let generated = generate_from_mnemonic(24).unwrap();
    let phrase = generated.mnemonic.clone().unwrap();
    let restored = restore_from_mnemonic(&phrase).unwrap();
    assert_eq!(generated.pubkey_base58, restored.pubkey_base58);
}

#[test]
fn test_import_export_base58_roundtrip() {
    let k = generate_random().unwrap();
    let exported = export_to_base58(&k.signing_key);
    let imported = import_from_base58(&exported).unwrap();
    assert_eq!(k.pubkey_base58, imported.pubkey_base58);
}

#[test]
fn test_import_export_json_roundtrip() {
    let k = generate_random().unwrap();
    let exported = export_to_json(&k.signing_key);
    let imported = import_from_json(exported.as_bytes()).unwrap();
    assert_eq!(k.pubkey_base58, imported.pubkey_base58);
}

#[test]
fn test_invalid_mnemonic_restore_fails() {
    assert!(restore_from_mnemonic("this is not a valid bip39 mnemonic phrase at all").is_err());
}

#[test]
fn twelve_word_mnemonic_has_twelve_words_and_the_derivation_path() {
    let k = generate_from_mnemonic(12).unwrap();
    assert_eq!(k.mnemonic.as_ref().unwrap().split_whitespace().count(), 12);
    assert_eq!(k.derivation_path.as_deref(), Some("m/44'/501'/0'/0'"));
}

#[test]
fn unsupported_word_counts_are_refused() {
    assert_eq!(generate_from_mnemonic(15).err(), Some(KmError::UnsupportedWordCount(15)));
    assert_eq!(generate_from_mnemonic(0).err(), Some(KmError::UnsupportedWordCount(0)));
}

#[test]
fn known_mnemonic_restores_known_key() {
    let phrase = "abandon abandon abandon abandon abandon abandon abandon abandon abandon abandon abandon about";
    let k = restore_from_mnemonic(phrase).unwrap();
    assert_eq!(
        k.signing_key.to_bytes(),
        [
            55, 223, 87, 59, 58, 196, 173, 91, 82, 46, 6, 78, 37, 182, 62, 161, 107, 203, 231, 157, 68, 158, 129,
            160, 38, 141, 16, 71, 148, 139, 180, 69
        ]
    );
    assert_eq!(k.pubkey_base58, "HAgk14JpMQLgt6rVgv7cBQFJWFto5Dqxi472uT3DKpqk");
    assert_eq!(k.mnemonic.as_deref(), Some(phrase));
}

#[test]
fn mnemonic_spacing_does_not_change_the_key() {
    let spaced = "  abandon  abandon abandon abandon abandon abandon abandon abandon abandon abandon abandon about ";
    let k = restore_from_mnemonic(spaced).unwrap();
    assert_eq!(k.pubkey_base58, "HAgk14JpMQLgt6rVgv7cBQFJWFto5Dqxi472uT3DKpqk");
    assert_eq!(k.mnemonic.as_deref(), Some(spaced));
}

#[test]
fn mnemonic_with_bad_checksum_is_refused() {
    let phrase = "abandon abandon abandon abandon abandon abandon abandon abandon abandon abandon abandon abandon";
    assert_eq!(restore_from_mnemonic(phrase).err(), Some(KmError::InvalidMnemonic));
}

#[test]
fn rfc8032_key_has_its_known_public_key() {
    let k = keypair_from_secret(&RFC_SECRET);
    assert_eq!(k.pubkey_base58, "FVen3X669xLzsi6N2V91DoiyzHzg1uAgqiT8jZ9nS96Z");
    assert_eq!(pubkey_to_base58(&k.verifying_key), "FVen3X669xLzsi6N2V91DoiyzHzg1uAgqiT8jZ9nS96Z");
    assert!(k.mnemonic.is_none());
    assert!(k.derivation_path.is_none());
}

#[test]
fn exports_of_known_key_have_known_text() {
    let sk = SigningKey::from_bytes(&RFC_SECRET);
    assert_eq!(
        export_to_base58(&sk),
        "49W385L4rePHy6PAaQUovbD2aacgN4HsKXSMeUzRg4fmwXszN91JuMFrQRj3vMDpZuRF3ZknQBuRBoWQJEfXstMw"
    );
    assert_eq!(
        export_to_json(&sk),
        "[157,97,177,157,239,253,90,96,186,132,74,244,146,236,44,196,68,73,197,105,123,50,105,25,112,59,172,3,28,174,127,96,215,90,152,1,130,177,10,183,213,75,254,211,201,100,7,58,14,225,114,243,218,166,35,37,175,2,26,104,247,7,81,26]"
    );
}

#[test]
fn import_keeps_only_the_secret_half() {
    let sk = SigningKey::from_bytes(&RFC_SECRET);
    let mut json = String::from("[");
    for (i, b) in RFC_SECRET.iter().chain([0u8; 32].iter()).enumerate() {
        if i > 0 {
            json.push(',');
        }
        json.push_str(&b.to_string());
    }
    json.push(']');
    let imported = import_from_json(json.as_bytes()).unwrap();
    assert_eq!(imported.signing_key.to_bytes(), sk.to_bytes());
    assert_eq!(imported.pubkey_base58, "FVen3X669xLzsi6N2V91DoiyzHzg1uAgqiT8jZ9nS96Z");
}

#[test]
fn import_errors() {
    assert_eq!(import_from_base58("0OIl").err(), Some(KmError::InvalidSecretKeyEncoding));
    assert_eq!(import_from_base58("112").err(), Some(KmError::WrongKeypairLength(3)));
    assert_eq!(import_from_json(b"not json").err(), Some(KmError::InvalidKeypairJson));
    assert_eq!(import_from_json(b"[1,2,3]").err(), Some(KmError::WrongKeypairLength(3)));
    assert_eq!(import_from_json(b"[256]").err(), Some(KmError::InvalidKeypairJson));
}

#[test]
fn json_import_accepts_whitespace() {
    let sk = SigningKey::from_bytes(&RFC_SECRET);
    let spaced = export_to_json(&sk).replace(',', ", ");
    let imported = import_from_json(spaced.as_bytes()).unwrap();
    assert_eq!(imported.signing_key.to_bytes(), RFC_SECRET);
}

#[test]
fn sign_message_matches_rfc8032_empty_message() {
    let sk = SigningKey::from_bytes(&RFC_SECRET);
    let sig = sign_message(&sk, b"");
    let expected: [u8; 64] = [
        0xe5, 0x56, 0x43, 0x00, 0xc3, 0x60, 0xac, 0x72, 0x90, 0x86, 0xe2, 0xcc, 0x80, 0x6e, 0x82, 0x8a, 0x84, 0x87,
        0x7f, 0x1e, 0xb8, 0xe5, 0xd9, 0x74, 0xd8, 0x73, 0xe0, 0x65, 0x22, 0x49, 0x01, 0x55, 0x5f, 0xb8, 0x82,
        0x15, 0x90, 0xa3, 0x3b, 0xac, 0xc6, 0x1e, 0x39, 0x70, 0x1c, 0xf9, 0xb4, 0x6b, 0xd2, 0x5b, 0xf5, 0xf0,
        0x59, 0x5b, 0xbe, 0x24, 0x65, 0x51, 0x41, 0x43, 0x8e, 0x7a, 0x10, 0x0b,
    ];
    assert_eq!(sig.to_bytes(), expected);
}

fn hex(bytes: &[u8]) -> String {
    bytes.iter().map(|b| format!("{:02x}", b)).collect()
}

#[test]
fn mnemonic_seed_is_the_bip39_seed_of_the_words() {
    let phrase = "abandon abandon abandon abandon abandon abandon abandon abandon abandon abandon abandon about";
    let seed = mnemonic_to_seed(phrase).unwrap();
    assert_eq!(
        hex(&seed),
        "5eb00bbddcf069084889a8ab9155568165f5c453ccb85e70811aaed6f6da5fc19a5ac40b389cd370d086206dec8aa6c43daea6690f20ad3d8d48b2d2ce9e38e4"
    );
    // other spacing, same words: same seed
    let spaced = "abandon\tabandon  abandon abandon abandon abandon abandon abandon abandon abandon abandon about\n";
    assert_eq!(mnemonic_to_seed(spaced).unwrap(), seed);
}

#[test]
fn mnemonic_seed_refuses_bad_phrases() {
    let eleven = "abandon abandon abandon abandon abandon abandon abandon abandon abandon abandon about";
    assert_eq!(mnemonic_to_seed(eleven).err(), Some(KmError::InvalidMnemonic));
    assert_eq!(mnemonic_to_seed("").err(), Some(KmError::InvalidMnemonic));
    assert_eq!(restore_from_mnemonic(eleven).err(), Some(KmError::InvalidMnemonic));
}

#[test]
fn base58_import_refuses_text_outside_the_alphabet() {
    // `!` and `0` are not base58 digits
    assert_eq!(import_from_base58("abc!").err(), Some(KmError::InvalidSecretKeyEncoding));
    assert_eq!(import_from_base58("10").err(), Some(KmError::InvalidSecretKeyEncoding));
    // the empty text decodes to no bytes at all
    assert_eq!(import_from_base58("").err(), Some(KmError::WrongKeypairLength(0)));
    // a leading `1` is a zero byte
    assert_eq!(import_from_base58("11").err(), Some(KmError::WrongKeypairLength(2)));
}
