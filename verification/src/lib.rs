//! Core of a local password vault: Argon2id key derivation, AES-256-GCM
//! authenticated encryption of the whole vault as one blob, and the canonical
//! byte encoding of the plaintext vault. No I/O happens here; reading and
//! writing the encrypted blob and the salt belong to the persistence layer.

pub mod aesgcm;
pub mod codec;
pub mod errors;
pub mod kdf;
pub mod types;
pub mod vault;
