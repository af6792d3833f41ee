use nestkey::errors::CryptoError;
use nestkey::kdf::derive_key;
use nestkey::kdf::generate_salt;
use nestkey::vault::decrypt_to_plain_vault;
use nestkey::vault::encrypt_plain_vault;
use nestkey::vault::PasswordEntry;
use nestkey::vault::Vault;

fn now_mock() -> u64 {
    1_700_000_000
}

fn example_vault() -> Vault {
    let mut vault = Vault::new(now_mock());
    vault.entries.push(PasswordEntry::new(
        "Example".into(),
        "user".into(),
        "secret".into(),
        "note".into(),
        now_mock(),
    ));
    vault
}

#[test]
fn test_encrypt_decrypt_vault_round_trip() {
    let salt = generate_salt();
    let key = derive_key("test-password", &salt);

    let vault = example_vault();

    let encrypted = encrypt_plain_vault(&key, &vault).expect("encryption failed");
    let decrypted = decrypt_to_plain_vault(&key, &encrypted).expect("decryption failed");

    assert_eq!(decrypted.entries.len(), 1);
    assert_eq!(decrypted.entries[0].title, "Example");
}

#[test]
fn test_round_trip_preserves_every_field() {
    let key = [3u8; 32];
    let mut vault = example_vault();
    vault.entries.push(PasswordEntry::new(
        "Unicode κλειδί 🔑".into(),
        "ユーザー".into(),
        "p@ss wörd".into(),
        "".into(),
        42,
    ));
    let encrypted = encrypt_plain_vault(&key, &vault).expect("encryption failed");
    let decrypted = decrypt_to_plain_vault(&key, &encrypted).expect("decryption failed");
    assert_eq!(decrypted, vault);
}

#[test]
fn test_empty_vault_round_trip() {
    let key = [0u8; 32];
    let vault = Vault::new(7);
    let encrypted = encrypt_plain_vault(&key, &vault).expect("encryption failed");
    let decrypted = decrypt_to_plain_vault(&key, &encrypted).expect("decryption failed");
    assert_eq!(decrypted.entries.len(), 0);
    assert_eq!(decrypted.created_at, 7);
    assert_eq!(decrypted.updated_at, 7);
}

#[test]
fn test_wrong_key_fails_cleanly() {
    let salt = generate_salt();
    let right = derive_key("test-password", &salt);
    let wrong = derive_key("other-password", &salt);
    assert_ne!(right, wrong);

    let vault = example_vault();
    let encrypted = encrypt_plain_vault(&right, &vault).expect("encryption failed");
    let r = decrypt_to_plain_vault(&wrong, &encrypted);
    assert_eq!(r.unwrap_err(), CryptoError::DecryptionFailed);
}

#[test]
fn test_entry_ids_are_fresh() {
    let a = PasswordEntry::new("a".into(), "b".into(), "c".into(), "d".into(), 1);
    let b = PasswordEntry::new("a".into(), "b".into(), "c".into(), "d".into(), 1);
    assert_ne!(a.id, b.id);
}

#[test]
fn test_new_vault_is_empty_and_stamped() {
    let v = Vault::new(123);
    assert!(v.entries.is_empty());
    assert_eq!(v.created_at, 123);
    assert_eq!(v.updated_at, 123);
    let d = Vault::default();
    assert!(d.entries.is_empty());
    assert_eq!(d.created_at, 0);
    assert_eq!(d.updated_at, 0);
}
