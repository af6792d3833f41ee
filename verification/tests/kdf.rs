use nestkey::kdf::derive_key;
use nestkey::kdf::generate_salt;

#[test]
fn test_key_derivation_is_deterministic() {
    let salt = generate_salt();
    let key1 = derive_key("test-password", &salt);
    let key2 = derive_key("test-password", &salt);
    assert_eq!(key1, key2);
}

#[test]
fn test_key_derivation_changes_with_salt() {
    let salt1 = generate_salt();
    let salt2 = generate_salt();
    let key1 = derive_key("test-password", &salt1);
    let key2 = derive_key("test-password", &salt2);
    assert_ne!(key1, key2);
}

#[test]
fn test_generated_salts_differ() {
    let salt1 = generate_salt();
    let salt2 = generate_salt();
    assert_ne!(salt1.value, salt2.value);
    assert_eq!(salt1.value.len(), 22);
    assert_eq!(salt2.value.len(), 22);
}

#[test]
fn test_derived_key_is_not_the_password() {
    let salt = generate_salt();
    let key = derive_key("test-password", &salt);
    assert_eq!(key.len(), 32);
    assert_ne!(&key[..], "test-password".as_bytes());
    assert_ne!(key, [0u8; 32]);
}
