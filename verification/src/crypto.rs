//! At-rest encryption of stored secrets: AES-256-GCM with a key derived by HKDF-SHA256
//! from the machine id. Stored form: 12-byte nonce followed by ciphertext and tag.
use vstd::prelude::*;
use aes_gcm::aead::{Aead, KeyInit, OsRng};
use aes_gcm::{Aes256Gcm, Nonce};
use rand::RngCore;

verus! {

/// Nonce length of the stored form.
pub const NONCE_LEN: usize = 12;

/// Largest plaintext AES-GCM accepts (2^36 bytes).
pub const MAX_PLAINTEXT: u64 = 68719476736;

/// HKDF-SHA256 output of 32 bytes for `(salt, ikm, info)`.
pub uninterp spec fn hkdf_sha256_32(salt: Seq<u8>, ikm: Seq<u8>, info: Seq<u8>) -> Seq<u8>;

/// AES-256-GCM ciphertext-with-tag of `plaintext` under `key` and `nonce`.
pub uninterp spec fn aes256gcm_seal(key: Seq<u8>, nonce: Seq<u8>, plaintext: Seq<u8>) -> Seq<u8>;

/// AES-256-GCM authenticated decryption: the plaintext, or `None` when the tag does not verify.
pub uninterp spec fn aes256gcm_open(key: Seq<u8>, nonce: Seq<u8>, ciphertext: Seq<u8>) -> Option<Seq<u8>>;

/// `hkdf::Hkdf::<Sha256>::new(Some(salt), ikm)` then `expand(info, 32 bytes)`.
/// Claims: the 32 output bytes are the named HKDF value of the three inputs
/// (expand only fails for outputs longer than 255 hash blocks).
#[verifier::external_body]
fn hkdf_expand_32(salt: &[u8], ikm: &[u8], info: &[u8]) -> (okm: Vec<u8>)
    ensures
        okm@ == hkdf_sha256_32(salt@, ikm@, info@),
        okm@.len() == 32,
{
    let hk = hkdf::Hkdf::<sha2::Sha256>::new(Some(salt), ikm);
    let mut okm = [0u8; 32];
    let _ = hk.expand(info, &mut okm);
    okm.to_vec()
}

/// `Aes256Gcm::new_from_slice(key)` then `Aead::encrypt(nonce, plaintext)`.
/// Claims: succeeds exactly when the plaintext is at most 2^36 bytes (the crate's `P_MAX`);
/// the output is the named ciphertext, 16 bytes (the tag) longer than the plaintext, and
/// authenticated decryption of it under the same key and nonce gives the plaintext back.
#[verifier::external_body]
fn aes256gcm_encrypt(key: &[u8], nonce: &[u8], plaintext: &[u8]) -> (r: Option<Vec<u8>>)
    requires
        key@.len() == 32,
        nonce@.len() == 12,
    ensures
        r is Some <==> plaintext@.len() <= MAX_PLAINTEXT,
        r matches Some(c) ==> {
            &&& c@ == aes256gcm_seal(key@, nonce@, plaintext@)
            &&& c@.len() == plaintext@.len() + 16
            &&& aes256gcm_open(key@, nonce@, c@) == Some(plaintext@)
        },
{
    let cipher = Aes256Gcm::new_from_slice(key).ok()?;
    cipher.encrypt(Nonce::from_slice(nonce), plaintext).ok()
}

/// `Aes256Gcm::new_from_slice(key)` then `Aead::decrypt(nonce, ciphertext)`.
/// Claims: the result is the named authenticated decryption.
#[verifier::external_body]
fn aes256gcm_decrypt(key: &[u8], nonce: &[u8], ciphertext: &[u8]) -> (r: Option<Vec<u8>>)
    requires
        key@.len() == 32,
        nonce@.len() == 12,
    ensures
        r matches Some(p) ==> aes256gcm_open(key@, nonce@, ciphertext@) == Some(p@),
        r is None ==> aes256gcm_open(key@, nonce@, ciphertext@) is None,
{
    let cipher = Aes256Gcm::new_from_slice(key).ok()?;
    cipher.decrypt(Nonce::from_slice(nonce), ciphertext).ok()
}

/// `OsRng.try_fill_bytes` on 12 bytes. Claims only the length: the bytes are random,
/// and `None` when the system random source fails.
#[verifier::external_body]
fn random_nonce() -> (r: Option<Vec<u8>>)
    ensures
        r matches Some(n) ==> n@.len() == 12,
{
    let mut n = [0u8; 12];
    OsRng.try_fill_bytes(&mut n).ok()?;
    Some(n.to_vec())
}

/// HKDF salt: the bytes of `voice-input-api-key-v1`.
pub open spec fn key_salt() -> Seq<u8> {
    seq![118, 111, 105, 99, 101, 45, 105, 110, 112, 117, 116, 45, 97, 112, 105, 45, 107, 101, 121, 45, 118, 49]
}

/// HKDF info: the bytes of `api-key-encryption`.
pub open spec fn key_info() -> Seq<u8> {
    seq![97, 112, 105, 45, 107, 101, 121, 45, 101, 110, 99, 114, 121, 112, 116, 105, 111, 110]
}

/// The encryption key for a machine id.
pub open spec fn machine_key(machine_id: Seq<u8>) -> Seq<u8> {
    hkdf_sha256_32(key_salt(), machine_id, key_info())
}

#[derive(Debug, Clone, Copy, PartialEq, Eq)]
pub enum KeyringError {
    /// No machine id to derive the key from.
    NoMachineId,
    /// The system random source failed.
    NoRandomness,
    /// The plaintext is too long for AES-GCM.
    EncryptionFailed,
    /// Stored data shorter than a nonce plus one byte.
    TooShort,
    /// Authentication failed: another machine, or corrupted data.
    DecryptionFailed,
}

impl KeyringError {
    pub fn message(&self) -> (s: &'static str)
        ensures
            s@ == keyring_error_message(*self),
    {
        match self {
            KeyringError::NoMachineId => "cannot find machine-id",
            KeyringError::NoRandomness => "random source unavailable",
            KeyringError::EncryptionFailed => "encryption failed",
            KeyringError::TooShort => "encrypted data too short",
            KeyringError::DecryptionFailed => "decryption failed — wrong machine? key corrupted?",
        }
    }
}

pub open spec fn keyring_error_message(e: KeyringError) -> Seq<char> {
    match e {
        KeyringError::NoMachineId => "cannot find machine-id"@,
        KeyringError::NoRandomness => "random source unavailable"@,
        KeyringError::EncryptionFailed => "encryption failed"@,
        KeyringError::TooShort => "encrypted data too short"@,
        KeyringError::DecryptionFailed => "decryption failed — wrong machine? key corrupted?"@,
    }
}

/// Derives the 32-byte key from the machine id; an empty id is refused.
pub fn derive_key(machine_id: &[u8]) -> (r: Result<Vec<u8>, KeyringError>)
    ensures
        machine_id@.len() == 0 ==> r == Err::<Vec<u8>, KeyringError>(KeyringError::NoMachineId),
        machine_id@.len() > 0 ==> (r matches Ok(k) && k@ == machine_key(machine_id@) && k@.len() == 32),
{
    if machine_id.len() == 0 {
        return Err(KeyringError::NoMachineId);
    }
    let salt: Vec<u8> = vec![118, 111, 105, 99, 101, 45, 105, 110, 112, 117, 116, 45, 97, 112, 105, 45, 107, 101, 121, 45, 118, 49];
    let info: Vec<u8> = vec![97, 112, 105, 45, 107, 101, 121, 45, 101, 110, 99, 114, 121, 112, 116, 105, 111, 110];
    assert(salt@ =~= key_salt());
    assert(info@ =~= key_info());
    Ok(hkdf_expand_32(&salt, machine_id, &info))
}

/// What decrypting stored bytes yields for a machine id.
pub open spec fn decryption(machine_id: Seq<u8>, data: Seq<u8>) -> Result<Seq<u8>, KeyringError> {
    if data.len() < NONCE_LEN + 1 {
        Err(KeyringError::TooShort)
    } else if machine_id.len() == 0 {
        Err(KeyringError::NoMachineId)
    } else {
        match aes256gcm_open(machine_key(machine_id), data.take(12), data.skip(12)) {
            Some(p) => Ok(p),
            None => Err(KeyringError::DecryptionFailed),
        }
    }
}

/// Encrypts for storage: a fresh random nonce, then the AES-256-GCM ciphertext and tag.
/// Whatever nonce was drawn, decrypting the result on the same machine gives `plaintext` back.
pub fn encrypt_bytes(machine_id: &[u8], plaintext: &[u8]) -> (r: Result<Vec<u8>, KeyringError>)
    ensures
        machine_id@.len() == 0 ==> r == Err::<Vec<u8>, KeyringError>(KeyringError::NoMachineId),
        machine_id@.len() > 0 && plaintext@.len() > MAX_PLAINTEXT ==> r
            == Err::<Vec<u8>, KeyringError>(KeyringError::EncryptionFailed)
            || r == Err::<Vec<u8>, KeyringError>(KeyringError::NoRandomness),
        machine_id@.len() > 0 && plaintext@.len() <= MAX_PLAINTEXT ==> r is Ok || r
            == Err::<Vec<u8>, KeyringError>(KeyringError::NoRandomness),
        r matches Ok(data) ==> {
            &&& data@.len() == plaintext@.len() + 28
            &&& data@.skip(12) == aes256gcm_seal(machine_key(machine_id@), data@.take(12), plaintext@)
            &&& decryption(machine_id@, data@) == Ok::<Seq<u8>, KeyringError>(plaintext@)
        },
{
    let key = derive_key(machine_id)?;
    let nonce = match random_nonce() {
        Some(n) => n,
        None => return Err(KeyringError::NoRandomness),
    };
    let ct = match aes256gcm_encrypt(&key, &nonce, plaintext) {
        Some(c) => c,
        None => return Err(KeyringError::EncryptionFailed),
    };
    let mut out = nonce.clone();
    let mut i: usize = 0;
    while i < ct.len()
        invariant
            i <= ct@.len(),
            out@ == nonce@ + ct@.take(i as int),
        decreases ct.len() - i,
    {
        out.push(ct[i]);
        assert(nonce@ + ct@.take(i + 1) =~= (nonce@ + ct@.take(i as int)).push(ct@[i as int]));
        i += 1;
    }
    assert(ct@.take(ct@.len() as int) =~= ct@);
    assert(out@.take(12) =~= nonce@);
    assert(out@.skip(12) =~= ct@);
    Ok(out)
}

/// Decrypts stored bytes (nonce, then ciphertext and tag).
pub fn decrypt_bytes(machine_id: &[u8], data: &[u8]) -> (r: Result<Vec<u8>, KeyringError>)
    ensures
        match r {
            Ok(p) => decryption(machine_id@, data@) == Ok::<Seq<u8>, KeyringError>(p@),
            Err(e) => decryption(machine_id@, data@) == Err::<Seq<u8>, KeyringError>(e),
        },
{
    if data.len() < NONCE_LEN + 1 {
        return Err(KeyringError::TooShort);
    }
    let key = derive_key(machine_id)?;
    let nonce = crate::crypto::bytes_slice(data, 0, 12);
    let ct = crate::crypto::bytes_slice(data, 12, data.len());
    assert(nonce@ =~= data@.take(12));
    assert(ct@ =~= data@.skip(12));
    match aes256gcm_decrypt(&key, &nonce, &ct) {
        Some(p) => Ok(p),
        None => Err(KeyringError::DecryptionFailed),
    }
}

/// The bytes `v[a..b]`.
pub fn bytes_slice(v: &[u8], a: usize, b: usize) -> (r: Vec<u8>)
    requires
        a <= b <= v@.len(),
    ensures
        r@ == v@.subrange(a as int, b as int),
{
    let mut r: Vec<u8> = Vec::new();
    let mut i = a;
    while i < b
        invariant
            a <= i <= b <= v@.len(),
            r@ == v@.subrange(a as int, i as int),
        decreases b - i,
    {
        r.push(v[i]);
        assert(v@.subrange(a as int, i as int).push(v@[i as int]) =~= v@.subrange(a as int, i + 1));
        i += 1;
    }
    r
}

/// Encrypted form: longer than a nonce and not pure ASCII (plaintext keys are ASCII).
pub open spec fn looks_encrypted_spec(data: Seq<u8>) -> bool {
    data.len() > NONCE_LEN && exists|i: int| 0 <= i < data.len() && data[i] >= 128
}

pub fn looks_encrypted(data: &[u8]) -> (b: bool)
    ensures
        b == looks_encrypted_spec(data@),
{
    if data.len() <= NONCE_LEN {
        return false;
    }
    let mut i: usize = 0;
    while i < data.len()
        invariant
            i <= data@.len(),
            data@.len() > NONCE_LEN,
            forall|j: int| 0 <= j < i ==> data@[j] < 128,
        decreases data.len() - i,
    {
        if data[i] >= 128 {
            assert(data@[i as int] >= 128);
            return true;
        }
        i += 1;
    }
    false
}

} // verus!
