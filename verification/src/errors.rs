use vstd::prelude::*;

verus! {

/// Failure vocabulary for every cryptographic operation of this crate.
///
/// No variant carries secret material: keys, passwords and plaintext never
/// appear in an error value.
#[derive(Debug, Clone, Copy, PartialEq, Eq, Structural)]
pub enum CryptoError {
    /// The cipher rejected the key.
    InvalidKey,
    /// The nonce does not have the required length.
    InvalidNonce,
    /// The stored format version is not the current one; carries the version
    /// byte that was seen.
    UnsupportedVersion(u8),
    /// The encryption primitive refused the operation.
    EncryptionFailed,
    /// Decryption failed: wrong key, corrupted data, or a payload that does
    /// not decode to a vault. Deliberately undifferentiated, so that a caller
    /// cannot tell a wrong password from tampered data.
    DecryptionFailed,
}

impl CryptoError {
    /// A short description fit to show a user; carries no secret material.
    pub fn message(&self) -> (r: &'static str)
        ensures
            self is InvalidKey ==> r@ == "invalid encryption key"@,
            self is InvalidNonce ==> r@ == "invalid or malformed nonce"@,
            self is UnsupportedVersion ==> r@ == "unsupported vault version"@,
            self is EncryptionFailed ==> r@ == "encryption failed"@,
            self is DecryptionFailed ==> r@ == "decryption failed (wrong password or corrupted data)"@,
    {
        match self {
            CryptoError::InvalidKey => "invalid encryption key",
            CryptoError::InvalidNonce => "invalid or malformed nonce",
            CryptoError::UnsupportedVersion(_) => "unsupported vault version",
            CryptoError::EncryptionFailed => "encryption failed",
            CryptoError::DecryptionFailed => "decryption failed (wrong password or corrupted data)",
        }
    }
}

} // verus!
