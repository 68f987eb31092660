# solana_km

An ed25519 key manager for Solana, verified with Verus: BIP39 mnemonics,
import and export of Solana keypairs (base58 and JSON), password-encrypted
identity records (Argon2id + AES-256-GCM), and message signing in plain and
Solana off-chain format.

Layout:

- `src/` — the verified library.
  - `ed25519.rs` — key and signature types held as bytes; curve operations
    come from `ed25519-dalek` behind trusted wrappers.
  - `encoding.rs` — base58, base64 and JSON byte arrays (`bs58`, `base64`,
    `serde_json`); both text codecs are proved one-to-one, so decoding is
    stated exactly.
  - `crypto.rs` — key derivation, encryption and decryption of payloads
    (`argon2`, `aes-gcm`, `sha2`), with the round trip proved.
  - `keygen.rs` — random keys, and mnemonic keys by BIP39 seed and SLIP-0010
    derivation (`bip39`, `pbkdf2`, `hmac`), import and
    export.
  - `sign.rs` — signatures in base58 and Solana's off-chain message encoding.
  - `wallet.rs` — wallet paths, identity records, loading and listing.
  - `commands.rs` — decisions of the command line that need no I/O.
  - `text.rs`, `bytes.rs`, `error.rs` — helpers, the error type and its
    messages.
- `tests/` — tests that run the library with the real outside crates.
- `app/` — the `solana-km` command line: argument parsing, prompts, output,
  and the identity files on disk.
