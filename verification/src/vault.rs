use vstd::prelude::*;
use crate::errors::CryptoError;
use crate::types::EncryptedVault;
use crate::types::CURRENT_VERSION;
use crate::types::NONCE_LEN;
use crate::aesgcm::aead_ct_of;
use crate::aesgcm::decrypt_vault;
use crate::aesgcm::encrypt_vault;
use crate::aesgcm::MAX_PLAINTEXT_LEN;
use crate::aesgcm::TAG_LEN;
use crate::codec::decode_vault;
use crate::codec::enc_vault;
use crate::codec::encode_vault;
use crate::codec::spec_decode;
use crate::codec::vault_fits;

verus! {

/// Mathematical model of a password entry: its identifier, its text fields as
/// character sequences, and its timestamps.
pub ghost struct EntryModel {
    pub id: u128,
    pub title: Seq<char>,
    pub username: Seq<char>,
    pub password: Seq<char>,
    pub notes: Seq<char>,
    pub created_at: u64,
    pub updated_at: u64,
}

/// Mathematical model of a vault: an ordered sequence of entry models and the
/// vault's timestamps.
pub ghost struct VaultModel {
    pub entries: Seq<EntryModel>,
    pub created_at: u64,
    pub updated_at: u64,
}

/// A single password entry in the vault. The identifier is assigned once at
/// creation; uniqueness across a vault is a collaborator's concern.
#[derive(Debug, Clone, PartialEq, Eq)]
pub struct PasswordEntry {
    pub id: u128,
    pub title: String,
    pub username: String,
    pub password: String,
    pub notes: String,
    pub created_at: u64,
    pub updated_at: u64,
}

impl View for PasswordEntry {
    type V = EntryModel;

    open spec fn view(&self) -> EntryModel {
        EntryModel {
            id: self.id,
            title: self.title@,
            username: self.username@,
            password: self.password@,
            notes: self.notes@,
            created_at: self.created_at,
            updated_at: self.updated_at,
        }
    }
}

/// The plaintext vault held in memory: an ordered sequence of entries and the
/// epoch-second timestamps of creation and last update.
#[derive(Debug, Clone, PartialEq, Eq)]
pub struct Vault {
    pub entries: Vec<PasswordEntry>,
    pub created_at: u64,
    pub updated_at: u64,
}

impl View for Vault {
    type V = VaultModel;

    open spec fn view(&self) -> VaultModel {
        VaultModel {
            entries: self.entries@.map_values(|e: PasswordEntry| e@),
            created_at: self.created_at,
            updated_at: self.updated_at,
        }
    }
}

/// Relies on uuid::Uuid::new_v4 (and as_u128): a fresh random 128-bit
/// identifier from the OS random source on every call.
#[verifier::external_body]
fn new_entry_id() -> u128 {
    uuid::Uuid::new_v4().as_u128()
}

impl PasswordEntry {
    /// Create an entry with a fresh random identifier, stamped with the given
    /// time.
    pub fn new(title: String, username: String, password: String, notes: String, timestamp: u64) -> (r: PasswordEntry)
        ensures
            r@.title == title@,
            r@.username == username@,
            r@.password == password@,
            r@.notes == notes@,
            r@.created_at == timestamp,
            r@.updated_at == timestamp,
    {
        PasswordEntry {
            id: new_entry_id(),
            title,
            username,
            password,
            notes,
            created_at: timestamp,
            updated_at: timestamp,
        }
    }
}

impl Vault {
    /// Create a new, empty vault stamped with the given time.
    pub fn new(timestamp: u64) -> (r: Vault)
        ensures
            r@.entries.len() == 0,
            r@.created_at == timestamp,
            r@.updated_at == timestamp,
    {
        Vault { entries: Vec::new(), created_at: timestamp, updated_at: timestamp }
    }
}

impl Default for Vault {
    /// An empty vault with both timestamps zero.
    fn default() -> (r: Vault)
        ensures
            r@.entries.len() == 0,
            r@.created_at == 0,
            r@.updated_at == 0,
    {
        Vault::new(0)
    }
}

/// Serialize a vault into its canonical byte encoding and encrypt it under
/// the given key with a fresh random nonce.
pub fn encrypt_plain_vault(key: &[u8; 32], vault: &Vault) -> (r: Result<EncryptedVault, CryptoError>)
    ensures
        r matches Ok(ev) ==> ev.wf()
            && vault_fits(vault@)
            && ev.ciphertext@ == aead_ct_of(key@, ev.nonce@, enc_vault(vault@))
            && ev.ciphertext@.len() == enc_vault(vault@).len() + TAG_LEN,
        enc_vault(vault@).len() <= MAX_PLAINTEXT_LEN ==> r is Ok,
        r matches Err(e) ==> e == CryptoError::EncryptionFailed,
{
    let plaintext = encode_vault(vault);
    encrypt_vault(key, plaintext.as_slice())
}

/// Decrypt an encrypted vault record and decode the plaintext back into a
/// vault. A payload that authenticates but does not decode to a vault yields
/// the same `DecryptionFailed` as an authentication failure, so the two
/// cannot be told apart from outside (deliberate: no decryption oracle).
pub fn decrypt_to_plain_vault(key: &[u8; 32], encrypted: &EncryptedVault) -> (r: Result<Vault, CryptoError>)
    ensures
        r == Err::<Vault, CryptoError>(CryptoError::InvalidNonce)
            <==> encrypted.nonce@.len() != NONCE_LEN,
        encrypted.nonce@.len() == NONCE_LEN && encrypted.version != CURRENT_VERSION
            ==> r == Err::<Vault, CryptoError>(CryptoError::UnsupportedVersion(encrypted.version)),
        encrypted.nonce@.len() == NONCE_LEN && encrypted.version == CURRENT_VERSION && r is Err
            ==> r == Err::<Vault, CryptoError>(CryptoError::DecryptionFailed),
        r matches Err(e) ==> (e == CryptoError::InvalidNonce
            || e matches CryptoError::UnsupportedVersion(_)
            || e == CryptoError::DecryptionFailed),
        r matches Ok(v) ==> exists|pt: Seq<u8>|
            encrypted.ciphertext@ == aead_ct_of(key@, encrypted.nonce@, pt)
                && spec_decode(pt) == Some(v@),
        forall|vm: VaultModel| vault_fits(vm)
            && encrypted.nonce@.len() == NONCE_LEN
            && encrypted.version == CURRENT_VERSION
            && encrypted.ciphertext@ == aead_ct_of(key@, encrypted.nonce@, enc_vault(vm))
            ==> (r matches Ok(v) && v@ == vm),
{
    let plaintext = match decrypt_vault(key, encrypted) {
        Ok(pt) => pt,
        Err(e) => {
            proof {
                assert forall|vm: VaultModel| vault_fits(vm)
                    && encrypted.nonce@.len() == NONCE_LEN
                    && encrypted.version == CURRENT_VERSION
                    && encrypted.ciphertext@ == aead_ct_of(key@, encrypted.nonce@, enc_vault(vm))
                    implies false by {}
            }
            return Err(e);
        },
    };
    match decode_vault(&plaintext) {
        Some(v) => {
            proof {
                assert forall|vm: VaultModel| vault_fits(vm)
                    && encrypted.nonce@.len() == NONCE_LEN
                    && encrypted.version == CURRENT_VERSION
                    && encrypted.ciphertext@ == aead_ct_of(key@, encrypted.nonce@, enc_vault(vm))
                    implies v@ == vm by {
                    crate::codec::lemma_spec_decode_enc_vault(vm);
                }
            }
            Ok(v)
        },
        None => {
            proof {
                assert forall|vm: VaultModel| vault_fits(vm)
                    && encrypted.nonce@.len() == NONCE_LEN
                    && encrypted.version == CURRENT_VERSION
                    && encrypted.ciphertext@ == aead_ct_of(key@, encrypted.nonce@, enc_vault(vm))
                    implies false by {
                    crate::codec::lemma_spec_decode_enc_vault(vm);
                }
            }
            Err(CryptoError::DecryptionFailed)
        },
    }
}

} // verus!
