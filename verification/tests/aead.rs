use nestkey::aesgcm::decrypt_vault;
use nestkey::aesgcm::encrypt_vault;
use nestkey::errors::CryptoError;
use nestkey::types::EncryptedVault;

const KEY: [u8; 32] = [7u8; 32];

#[test]
fn test_encrypt_round_trips_bytes() {
    let plaintext = b"an arbitrary payload";
    let encrypted = encrypt_vault(&KEY, plaintext).expect("encryption failed");
    assert_eq!(encrypted.version, 1);
    assert_eq!(encrypted.nonce.len(), 12);
    assert_eq!(encrypted.ciphertext.len(), plaintext.len() + 16);
    assert_ne!(&encrypted.ciphertext[..plaintext.len()], &plaintext[..]);
    let decrypted = decrypt_vault(&KEY, &encrypted).expect("decryption failed");
    assert_eq!(decrypted, plaintext);
}

#[test]
fn test_nonces_are_unique_across_calls() {
    let plaintext = b"same plaintext every time";
    let first = encrypt_vault(&KEY, plaintext).expect("encryption failed");
    let second = encrypt_vault(&KEY, plaintext).expect("encryption failed");
    assert_ne!(first.nonce, second.nonce);
    assert_ne!(first.ciphertext, second.ciphertext);
}

#[test]
fn test_any_single_bit_flip_is_detected() {
    let plaintext = b"tamper detection payload";
    let encrypted = encrypt_vault(&KEY, plaintext).expect("encryption failed");
    for i in 0..encrypted.ciphertext.len() {
        for bit in 0..8 {
            let mut tampered = encrypted.clone();
            tampered.ciphertext[i] ^= 1u8 << bit;
            let r = decrypt_vault(&KEY, &tampered);
            assert_eq!(r.unwrap_err(), CryptoError::DecryptionFailed);
        }
    }
    for i in 0..encrypted.nonce.len() {
        for bit in 0..8 {
            let mut tampered = encrypted.clone();
            tampered.nonce[i] ^= 1u8 << bit;
            let r = decrypt_vault(&KEY, &tampered);
            assert_eq!(r.unwrap_err(), CryptoError::DecryptionFailed);
        }
    }
}

#[test]
fn test_version_gating() {
    let encrypted = encrypt_vault(&KEY, b"versioned payload").expect("encryption failed");
    let mut old = encrypted.clone();
    old.version = 2;
    let r = decrypt_vault(&KEY, &old);
    assert_eq!(r.unwrap_err(), CryptoError::UnsupportedVersion(2));
    let mut zero = encrypted;
    zero.version = 0;
    let r = decrypt_vault(&KEY, &zero);
    assert_eq!(r.unwrap_err(), CryptoError::UnsupportedVersion(0));
}

#[test]
fn test_bad_nonce_length_is_rejected_before_decryption() {
    let mut encrypted = encrypt_vault(&KEY, b"payload").expect("encryption failed");
    encrypted.nonce.push(0);
    let r = decrypt_vault(&KEY, &encrypted);
    assert_eq!(r.unwrap_err(), CryptoError::InvalidNonce);
}

#[test]
fn test_validate_checks_structure_only() {
    let good = encrypt_vault(&KEY, b"payload").expect("encryption failed");
    assert!(good.validate());
    let mut wrong_version = good.clone();
    wrong_version.version = 3;
    assert!(!wrong_version.validate());
    let mut short_nonce = good.clone();
    short_nonce.nonce.pop();
    assert!(!short_nonce.validate());
    let mut long_nonce = good.clone();
    long_nonce.nonce.push(0);
    assert!(!long_nonce.validate());
    let empty_ciphertext = EncryptedVault { version: 1, nonce: good.nonce.clone(), ciphertext: Vec::new() };
    assert!(!empty_ciphertext.validate());
    // validate never checks the key: a tampered but well-shaped record passes
    let mut tampered = good;
    tampered.ciphertext[0] ^= 1;
    assert!(tampered.validate());
}

#[test]
fn test_error_messages_carry_no_payload() {
    assert_eq!(CryptoError::InvalidKey.message(), "invalid encryption key");
    assert_eq!(CryptoError::InvalidNonce.message(), "invalid or malformed nonce");
    assert_eq!(CryptoError::UnsupportedVersion(9).message(), "unsupported vault version");
    assert_eq!(CryptoError::EncryptionFailed.message(), "encryption failed");
    assert_eq!(
        CryptoError::DecryptionFailed.message(),
        "decryption failed (wrong password or corrupted data)"
    );
}

#[test]
fn test_empty_or_short_ciphertext_fails_decryption() {
    let empty = EncryptedVault { version: 1, nonce: vec![0u8; 12], ciphertext: Vec::new() };
    assert_eq!(decrypt_vault(&KEY, &empty).unwrap_err(), CryptoError::DecryptionFailed);
    let short = EncryptedVault { version: 1, nonce: vec![0u8; 12], ciphertext: vec![0u8; 15] };
    assert_eq!(decrypt_vault(&KEY, &short).unwrap_err(), CryptoError::DecryptionFailed);
}

#[test]
fn test_encrypting_empty_plaintext_succeeds() {
    let encrypted = encrypt_vault(&KEY, b"").expect("encryption failed");
    assert_eq!(encrypted.ciphertext.len(), 16);
    let decrypted = decrypt_vault(&KEY, &encrypted).expect("decryption failed");
    assert!(decrypted.is_empty());
}
