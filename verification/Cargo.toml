[package]
name = "solana_km"
version = "0.1.0"
edition = "2021"
publish = false

[dependencies]
aes-gcm = "0.10"
argon2 = "0.5"
base64 = "0.22"
bip39 = { version = "2", features = ["rand"] }
bs58 = "0.5"
ed25519-dalek = { version = "2", features = ["rand_core"] }
hmac = "0.12"
pbkdf2 = "0.12"
rand = "0.8"
sha2 = "0.10"
serde = { version = "1", features = ["derive"] }
serde_json = "1"
anyhow = "1"
clap = { version = "4", features = ["derive"] }
colored = "2"
rpassword = "7"
