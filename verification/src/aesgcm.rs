use vstd::prelude::*;
use aes_gcm::aead::Aead;
use aes_gcm::aead::KeyInit;
use aes_gcm::aead::rand_core::RngCore;
use crate::errors::CryptoError;
use crate::types::CURRENT_VERSION;
use crate::types::EncryptedVault;
use crate::types::NONCE_LEN;

verus! {

/// Length in bytes of the authentication tag that AES-256-GCM appends to the
/// ciphertext.
pub const TAG_LEN: usize = 16;

/// The largest plaintext AES-GCM accepts (the aes-gcm crate's P_MAX): one
/// byte beyond it and encryption refuses the call.
pub const MAX_PLAINTEXT_LEN: u64 = 0x10_0000_0000;

/// The ciphertext (authentication tag appended) that AES-256-GCM produces
/// from a 32-byte key, a 12-byte nonce and a plaintext. Left uninterpreted:
/// the cipher's definition lives in the aes-gcm crate; the contracts here use
/// only that it is a function of (key, nonce, plaintext) alone.
pub uninterp spec fn aead_ct_of(key: Seq<u8>, nonce: Seq<u8>, plaintext: Seq<u8>) -> Seq<u8>;

/// Relies on the OS random source re-exported by aes_gcm (rand_core::OsRng
/// fill_bytes): 12 fresh random bytes on every call.
#[verifier::external_body]
fn random_nonce() -> (r: Vec<u8>)
    ensures
        r@.len() == NONCE_LEN,
{
    let mut nonce = [0u8; 12];
    aes_gcm::aead::OsRng.fill_bytes(&mut nonce);
    nonce.to_vec()
}

/// Relies on aes_gcm::Aes256Gcm (new_from_slice, then Aead::encrypt):
/// AES-256-GCM encryption. The ciphertext is the plaintext's length plus the
/// 16-byte tag, and is a function of (key, nonce, plaintext) alone; a 32-byte
/// key is always accepted, and the one refusal is a plaintext beyond the
/// cipher's limit of 2^36 bytes.
#[verifier::external_body]
fn aead_encrypt(key: &[u8; 32], nonce: &Vec<u8>, plaintext: &[u8]) -> (r: Option<Vec<u8>>)
    requires
        nonce@.len() == NONCE_LEN,
    ensures
        r matches Some(ct) ==> ct@ == aead_ct_of(key@, nonce@, plaintext@)
            && ct@.len() == plaintext@.len() + TAG_LEN,
        plaintext@.len() <= MAX_PLAINTEXT_LEN ==> r is Some,
{
    let cipher = match aes_gcm::Aes256Gcm::new_from_slice(key) {
        Ok(c) => c,
        Err(_) => return None,
    };
    let nonce = aes_gcm::Nonce::from_slice(nonce.as_slice());
    match cipher.encrypt(nonce, plaintext) {
        Ok(ct) => Some(ct),
        Err(_) => None,
    }
}

/// Relies on aes_gcm::Aes256Gcm (new_from_slice, then Aead::decrypt):
/// AES-256-GCM decrypt-and-verify. Whatever AES-256-GCM encrypts under a key
/// and nonce, decrypting under the same key and nonce returns exactly that
/// plaintext; a successful decryption returns the plaintext whose encryption
/// the ciphertext is, 16 bytes shorter than the ciphertext, so a ciphertext
/// below the tag length never decrypts; every failure (wrong key, tampered
/// data, missing tag) is None.
#[verifier::external_body]
fn aead_decrypt(key: &[u8; 32], nonce: &Vec<u8>, ciphertext: &Vec<u8>) -> (r: Option<Vec<u8>>)
    requires
        nonce@.len() == NONCE_LEN,
    ensures
        r is None ==> forall|pt: Seq<u8>| ciphertext@ != aead_ct_of(key@, nonce@, pt),
        r matches Some(p) ==> forall|pt: Seq<u8>|
            ciphertext@ == aead_ct_of(key@, nonce@, pt) ==> p@ == pt,
        r matches Some(p) ==> ciphertext@ == aead_ct_of(key@, nonce@, p@),
        r matches Some(p) ==> ciphertext@.len() == p@.len() + TAG_LEN,
{
    let cipher = match aes_gcm::Aes256Gcm::new_from_slice(key) {
        Ok(c) => c,
        Err(_) => return None,
    };
    let nonce = aes_gcm::Nonce::from_slice(nonce.as_slice());
    match cipher.decrypt(nonce, ciphertext.as_slice()) {
        Ok(pt) => Some(pt),
        Err(_) => None,
    }
}

/// Encrypt a serialized vault under a 32-byte key. A fresh random nonce is
/// drawn from the OS random source on every call: a nonce is never reused
/// under the same key. The result carries the current format version.
pub fn encrypt_vault(key: &[u8; 32], plaintext: &[u8]) -> (r: Result<EncryptedVault, CryptoError>)
    ensures
        r matches Ok(ev) ==> ev.wf()
            && ev.version == CURRENT_VERSION
            && ev.nonce@.len() == NONCE_LEN
            && ev.ciphertext@ == aead_ct_of(key@, ev.nonce@, plaintext@)
            && ev.ciphertext@.len() == plaintext@.len() + TAG_LEN,
        plaintext@.len() <= MAX_PLAINTEXT_LEN ==> r is Ok,
        r matches Err(e) ==> e == CryptoError::EncryptionFailed,
{
    let nonce = random_nonce();
    match aead_encrypt(key, &nonce, plaintext) {
        Some(ciphertext) => Ok(EncryptedVault { version: CURRENT_VERSION, nonce, ciphertext }),
        None => Err(CryptoError::EncryptionFailed),
    }
}

/// Decrypt an encrypted vault record under a 32-byte key. The nonce length
/// and the version are checked before any cryptography; every cryptographic
/// failure (wrong key, corrupted ciphertext, tampered tag) is the one
/// undifferentiated `DecryptionFailed`, so that an attacker cannot tell a
/// wrong password from tampered data.
pub fn decrypt_vault(key: &[u8; 32], encrypted: &EncryptedVault) -> (r: Result<Vec<u8>, CryptoError>)
    ensures
        r == Err::<Vec<u8>, CryptoError>(CryptoError::InvalidNonce)
            <==> encrypted.nonce@.len() != NONCE_LEN,
        encrypted.nonce@.len() == NONCE_LEN && encrypted.version != CURRENT_VERSION
            ==> r == Err::<Vec<u8>, CryptoError>(CryptoError::UnsupportedVersion(encrypted.version)),
        encrypted.nonce@.len() == NONCE_LEN && encrypted.version == CURRENT_VERSION && r is Err
            ==> r == Err::<Vec<u8>, CryptoError>(CryptoError::DecryptionFailed),
        r matches Err(e) ==> (e == CryptoError::InvalidNonce
            || e matches CryptoError::UnsupportedVersion(_)
            || e == CryptoError::DecryptionFailed),
        r matches Ok(pt) ==> encrypted.nonce@.len() == NONCE_LEN
            && encrypted.version == CURRENT_VERSION
            && encrypted.ciphertext@ == aead_ct_of(key@, encrypted.nonce@, pt@)
            && encrypted.ciphertext@.len() == pt@.len() + TAG_LEN,
        forall|pt: Seq<u8>| encrypted.nonce@.len() == NONCE_LEN
            && encrypted.version == CURRENT_VERSION
            && encrypted.ciphertext@ == aead_ct_of(key@, encrypted.nonce@, pt)
            ==> (r matches Ok(p) && p@ == pt),
{
    if encrypted.nonce.len() != NONCE_LEN {
        return Err(CryptoError::InvalidNonce);
    }
    if encrypted.version != CURRENT_VERSION {
        return Err(CryptoError::UnsupportedVersion(encrypted.version));
    }
    match aead_decrypt(key, &encrypted.nonce, &encrypted.ciphertext) {
        Some(pt) => Ok(pt),
        None => Err(CryptoError::DecryptionFailed),
    }
}

} // verus!
