use nestkey::codec::decode_vault;
use nestkey::codec::encode_vault;
use nestkey::vault::PasswordEntry;
use nestkey::vault::Vault;

fn le64_bytes(x: u64) -> Vec<u8> {
    let mut out = Vec::new();
    for i in 0..8 {
        out.push(((x >> (8 * i)) & 0xff) as u8);
    }
    out
}

#[test]
fn test_empty_vault_encoding_is_exact() {
    let vault = Vault::new(1_700_000_000);
    let bytes = encode_vault(&vault);
    let mut expected = Vec::new();
    expected.extend_from_slice(&le64_bytes(1_700_000_000));
    expected.extend_from_slice(&le64_bytes(1_700_000_000));
    expected.extend_from_slice(&le64_bytes(0));
    assert_eq!(bytes, expected);
}

#[test]
fn test_encode_decode_round_trip() {
    let mut vault = Vault::new(5);
    vault.updated_at = 6;
    vault.entries.push(PasswordEntry {
        id: 0x0102_0304_0506_0708_090a_0b0c_0d0e_0f10,
        title: "Example".into(),
        username: "user".into(),
        password: "secret".into(),
        notes: "note".into(),
        created_at: 5,
        updated_at: 6,
    });
    vault.entries.push(PasswordEntry {
        id: u128::MAX,
        title: "".into(),
        username: "ユーザー".into(),
        password: "p@ss wörd 🔑".into(),
        notes: "multi\nline".into(),
        created_at: u64::MAX,
        updated_at: 0,
    });
    let bytes = encode_vault(&vault);
    let decoded = decode_vault(&bytes).expect("decoding failed");
    assert_eq!(decoded, vault);
}

#[test]
fn test_single_entry_encoding_layout() {
    let mut vault = Vault::new(1);
    vault.entries.push(PasswordEntry {
        id: 2,
        title: "ab".into(),
        username: "".into(),
        password: "x".into(),
        notes: "".into(),
        created_at: 3,
        updated_at: 4,
    });
    let bytes = encode_vault(&vault);
    let mut expected = Vec::new();
    expected.extend_from_slice(&le64_bytes(1)); // created_at
    expected.extend_from_slice(&le64_bytes(1)); // updated_at
    expected.extend_from_slice(&le64_bytes(1)); // entry count
    expected.extend_from_slice(&[2u8]); // id, low byte first
    expected.extend_from_slice(&[0u8; 15]);
    expected.extend_from_slice(&le64_bytes(2));
    expected.extend_from_slice(b"ab");
    expected.extend_from_slice(&le64_bytes(0));
    expected.extend_from_slice(&le64_bytes(1));
    expected.extend_from_slice(b"x");
    expected.extend_from_slice(&le64_bytes(0));
    expected.extend_from_slice(&le64_bytes(3));
    expected.extend_from_slice(&le64_bytes(4));
    assert_eq!(bytes, expected);
    let decoded = decode_vault(&bytes).expect("decoding failed");
    assert_eq!(decoded, vault);
}

#[test]
fn test_decode_rejects_truncation_and_garbage() {
    let mut vault = Vault::new(9);
    vault.entries.push(PasswordEntry {
        id: 1,
        title: "t".into(),
        username: "u".into(),
        password: "p".into(),
        notes: "n".into(),
        created_at: 9,
        updated_at: 9,
    });
    let bytes = encode_vault(&vault);
    for len in 0..bytes.len() {
        let truncated = bytes[..len].to_vec();
        assert!(decode_vault(&truncated).is_none());
    }
    let mut trailing = bytes.clone();
    trailing.push(0);
    assert!(decode_vault(&trailing).is_none());
    let garbage = vec![0xffu8; 40];
    assert!(decode_vault(&garbage).is_none());
}

#[test]
fn test_decode_rejects_invalid_utf8_in_a_field() {
    let mut bytes = Vec::new();
    bytes.extend_from_slice(&le64_bytes(1)); // created_at
    bytes.extend_from_slice(&le64_bytes(1)); // updated_at
    bytes.extend_from_slice(&le64_bytes(1)); // one entry
    bytes.extend_from_slice(&[0u8; 16]); // id
    bytes.extend_from_slice(&le64_bytes(1)); // title: one byte...
    bytes.push(0xff); // ...that is not UTF-8
    bytes.extend_from_slice(&le64_bytes(0)); // username empty
    bytes.extend_from_slice(&le64_bytes(0)); // password empty
    bytes.extend_from_slice(&le64_bytes(0)); // notes empty
    bytes.extend_from_slice(&le64_bytes(1)); // created_at
    bytes.extend_from_slice(&le64_bytes(1)); // updated_at
    assert!(decode_vault(&bytes).is_none());

    // the same record with a valid one-byte title decodes
    let mut good = bytes.clone();
    good[48] = b'A';
    let decoded = decode_vault(&good).expect("decoding failed");
    assert_eq!(decoded.entries[0].title, "A");
}
