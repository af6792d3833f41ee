use vstd::prelude::*;

verus! {

/// Current vault format version. Bumped whenever the on-disk structure
/// changes.
pub const CURRENT_VERSION: u8 = 1;

/// Length in bytes of the AES-GCM nonce.
pub const NONCE_LEN: usize = 12;

/// The encrypted vault record handed to the persistence layer. Produced by
/// encryption, consumed once by decryption; never mutated in place.
#[derive(Debug, Clone, PartialEq, Eq)]
pub struct EncryptedVault {
    /// Version of the vault format; decryption proceeds only when it equals
    /// [`CURRENT_VERSION`].
    pub version: u8,
    /// AES-GCM nonce; must be exactly [`NONCE_LEN`] bytes.
    pub nonce: Vec<u8>,
    /// AES-GCM ciphertext with the 16-byte authentication tag appended; must
    /// be non-empty.
    pub ciphertext: Vec<u8>,
}

impl EncryptedVault {
    /// The record's structural invariant: current version, 12-byte nonce,
    /// non-empty ciphertext.
    pub open spec fn wf(self) -> bool {
        &&& self.version == CURRENT_VERSION
        &&& self.nonce@.len() == NONCE_LEN
        &&& self.ciphertext@.len() > 0
    }

    /// Cheap syntactic pre-flight check before attempting decryption. It
    /// never verifies authenticity or that a key is correct.
    pub fn validate(&self) -> (r: bool)
        ensures
            r == self.wf(),
    {
        self.version == CURRENT_VERSION && self.nonce.len() == NONCE_LEN && self.ciphertext.len() > 0
    }
}

} // verus!
