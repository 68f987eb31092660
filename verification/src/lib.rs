//! A key manager for ed25519 (Solana) keypairs: generation from BIP39
//! mnemonics, import and export, password-encrypted storage records, and
//! message signing and verification.
use vstd::prelude::*;

pub mod bytes;
pub mod commands;
pub mod crypto;
pub mod ed25519;
pub mod encoding;
pub mod keygen;
pub mod sign;
pub mod error;
pub mod text;
pub mod wallet;

verus! {
} // verus!
