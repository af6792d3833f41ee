use vstd::prelude::*;
use vstd::string::StringSliceAdditionalSpecFns;
use vstd::utf8::encode_utf8;

verus! {

/// Length of the derived key in bytes (AES-256 needs 32).
pub const KEY_LEN: usize = 32;

/// What Argon2id with this crate's fixed cost parameters derives from a
/// password and a salt. Left uninterpreted: the algorithm's definition lives
/// in the argon2 crate; the contracts here use only that the result is a
/// function of (password, salt) alone.
pub uninterp spec fn kdf_of(password: Seq<u8>, salt: Seq<u8>) -> Seq<u8>;

/// A random salt for key derivation. It is not secret: it is stored next to
/// the ciphertext, and must be supplied unchanged on every later derivation
/// for the same vault, or the derived key will differ.
#[derive(Debug, Clone, PartialEq, Eq)]
pub struct Salt {
    /// Base64 text, as the password-hash salt convention writes it.
    pub value: String,
}

impl Salt {
    /// The bytes that key derivation consumes: the UTF-8 bytes of the salt
    /// text.
    pub open spec fn bytes(self) -> Seq<u8> {
        encode_utf8(self.value@)
    }

    /// Length bounds under which the derivation primitive accepts the salt.
    pub open spec fn wf(self) -> bool {
        8 <= self.bytes().len() <= 64
    }
}

/// Relies on password_hash::SaltString::generate: a fresh 16-byte salt from
/// the OS random source, encoded as 22 base64 (ASCII) characters.
#[verifier::external_body]
fn fresh_salt_string() -> (r: String)
    ensures
        encode_utf8(r@).len() == 22,
{
    argon2::password_hash::SaltString::generate(argon2::password_hash::rand_core::OsRng)
        .as_str()
        .to_string()
}

/// Generate a fresh, cryptographically random salt. Every call draws new
/// randomness, so two calls coincide only with negligible probability.
pub fn generate_salt() -> (r: Salt)
    ensures
        r.wf(),
        r.bytes().len() == 22,
{
    Salt { value: fresh_salt_string() }
}

/// Relies on argon2::Argon2::hash_password_into (Argon2id, version 0x13,
/// fixed cost parameters: 19456 KiB of memory, 2 iterations, 1 lane, no
/// secret): fills the 32-byte output deterministically from (password, salt).
/// The bounds in `requires` are the ones under which the argon2 crate accepts
/// the call (MIN_SALT_LEN = 8, maximum lengths of 0xFFFF_FFFF).
#[verifier::external_body]
fn argon2id_hash(password: &[u8], salt: &[u8]) -> (r: [u8; 32])
    requires
        password@.len() <= 0xFFFF_FFFF,
        8 <= salt@.len() <= 0xFFFF_FFFF,
    ensures
        r@ == kdf_of(password@, salt@),
{
    let argon2 = argon2::Argon2::new(
        argon2::Algorithm::Argon2id,
        argon2::Version::V0x13,
        argon2::Params::new(19456, 2, 1, None).expect("invalid Argon2 parameters"),
    );
    let mut key = [0u8; 32];
    argon2
        .hash_password_into(password, salt, &mut key)
        .expect("Argon2 key derivation failed");
    key
}

/// Relies on zeroize::Zeroize for Vec<u8>: overwrites the vector's bytes and
/// its spare capacity with zeros and leaves the vector empty.
#[verifier::external_body]
fn wipe(buf: &mut Vec<u8>)
    ensures
        final(buf)@.len() == 0,
{
    zeroize::Zeroize::zeroize(buf);
}

/// Derive the 32-byte vault key from the master password and the salt with
/// Argon2id. Deterministic: identical (password, salt) always yields the
/// identical key. The password's in-memory byte copy is overwritten with
/// zeros before returning.
pub fn derive_key(master_password: &str, salt: &Salt) -> (key: [u8; 32])
    requires
        salt.wf(),
        master_password.spec_bytes().len() <= 0xFFFF_FFFF,
    ensures
        key@ == kdf_of(master_password.spec_bytes(), salt.bytes()),
{
    let mut password_buf: Vec<u8> = master_password.as_bytes_vec();
    let key = argon2id_hash(password_buf.as_slice(), salt.value.as_str().as_bytes());
    wipe(&mut password_buf);
    key
}

/// Key derivation is deterministic: two derivations from the same password
/// bytes and the same salt bytes yield the same key.
pub proof fn lemma_derive_key_deterministic(k1: Seq<u8>, k2: Seq<u8>, password: Seq<u8>, salt: Seq<u8>)
    requires
        k1 == kdf_of(password, salt),
        k2 == kdf_of(password, salt),
    ensures
        k1 == k2,
{
}

} // verus!
