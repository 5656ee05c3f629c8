//! Encrypted backups: the key is derived from the password with Argon2id, the backup is
//! sealed with AES-256-GCM, and salt, nonce and sealed bytes travel in standard base64.

use aes_gcm::aead::{Aead, KeyInit};
use base64::Engine;
use rand::RngCore;
use vstd::prelude::*;
use vstd::string::StringExecFns;
use crate::error::AppError;
use crate::settings_api::{
    BackupEnvelope, BACKUP_ENVELOPE_VERSION, BACKUP_NONCE_BYTES, BACKUP_SALT_BYTES,
    check_backup_envelope, check_backup_key_material, validate_backup_password,
};

verus! {

/// The 32-byte key that Argon2id (default parameters) derives from a password's UTF-8
/// bytes and a salt, or the text of its error.
pub uninterp spec fn argon2id_key_of(password: Seq<char>, salt: Seq<u8>) -> Result<Seq<u8>, Seq<char>>;

/// The AES-256-GCM sealing (ciphertext and tag) of a plaintext under a key and a nonce, or
/// `None` where the cipher refuses it.
pub uninterp spec fn aes_gcm_sealed_of(key: Seq<u8>, nonce: Seq<u8>, plaintext: Seq<u8>) -> Option<Seq<u8>>;

/// The plaintext that AES-256-GCM opens from sealed bytes under a key and a nonce, or `None`
/// where the tag does not match.
pub uninterp spec fn aes_gcm_opened_of(key: Seq<u8>, nonce: Seq<u8>, sealed: Seq<u8>) -> Option<Seq<u8>>;

/// The standard base64 text (with padding) of some bytes.
pub open spec fn base64_std_of(bytes: Seq<u8>) -> Seq<char> {
    crate::auth::base64_text(bytes, false, true)
}

/// The bytes that standard base64 decoding reads from a text, or the text of its error.
pub uninterp spec fn base64_std_decoded_of(text: Seq<char>) -> Result<Seq<u8>, Seq<char>>;

pub open spec fn opt_bytes(r: Option<Vec<u8>>) -> Option<Seq<u8>> {
    match r {
        Some(v) => Some(v@),
        None => None,
    }
}

pub open spec fn decoded_ok(bytes: Seq<u8>) -> Result<Seq<u8>, Seq<char>> {
    Ok(bytes)
}

pub open spec fn bytes_result(r: Result<Vec<u8>, String>) -> Result<Seq<u8>, Seq<char>> {
    match r {
        Ok(v) => Ok(v@),
        Err(e) => Err(e@),
    }
}

/// `argon2::Argon2::default().hash_password_into` of the password's bytes and the salt into
/// 32 bytes: the key named by `argon2id_key_of`, or the error's text.
#[verifier::external_body]
fn argon2id_key(password: &str, salt: &[u8]) -> (r: Result<Vec<u8>, String>)
    ensures
        bytes_result(r) == argon2id_key_of(password@, salt@),
        r matches Ok(k) ==> k@.len() == 32,
{
    let mut key = [0u8; 32];
    match argon2::Argon2::default().hash_password_into(password.as_bytes(), salt, &mut key) {
        Ok(()) => Ok(key.to_vec()),
        Err(err) => Err(err.to_string()),
    }
}

/// `aes_gcm::Aes256Gcm::encrypt` of the plaintext under the key and nonce, named by
/// `aes_gcm_sealed_of`. What it seals, `decrypt` opens again under the same key and nonce.
#[verifier::external_body]
fn aes_gcm_seal(key: &[u8], nonce: &[u8], plaintext: &[u8]) -> (r: Option<Vec<u8>>)
    requires
        key@.len() == 32,
        nonce@.len() == 12,
    ensures
        opt_bytes(r) == aes_gcm_sealed_of(key@, nonce@, plaintext@),
        r matches Some(c) ==> aes_gcm_opened_of(key@, nonce@, c@) == Some(plaintext@),
{
    match aes_gcm::Aes256Gcm::new_from_slice(key) {
        Ok(cipher) => cipher.encrypt(aes_gcm::Nonce::from_slice(nonce), plaintext).ok(),
        Err(_) => None,
    }
}

/// `aes_gcm::Aes256Gcm::decrypt` of the sealed bytes under the key and nonce, named by
/// `aes_gcm_opened_of`.
#[verifier::external_body]
pub(crate) fn aes_gcm_open(key: &[u8], nonce: &[u8], sealed: &[u8]) -> (r: Option<Vec<u8>>)
    requires
        key@.len() == 32,
        nonce@.len() == 12,
    ensures
        opt_bytes(r) == aes_gcm_opened_of(key@, nonce@, sealed@),
{
    match aes_gcm::Aes256Gcm::new_from_slice(key) {
        Ok(cipher) => cipher.decrypt(aes_gcm::Nonce::from_slice(nonce), sealed).ok(),
        Err(_) => None,
    }
}

/// `base64::engine::general_purpose::STANDARD.encode`: the standard base64 text with padding
/// (see [`base64_std_of`]); decoding it gives the bytes back.
#[verifier::external_body]
fn base64_std_encode(bytes: &[u8]) -> (r: String)
    ensures
        r@ == base64_std_of(bytes@),
        base64_std_decoded_of(r@) == decoded_ok(bytes@),
{
    base64::engine::general_purpose::STANDARD.encode(bytes)
}

/// `base64::engine::general_purpose::STANDARD.decode`, named by `base64_std_decoded_of`.
#[verifier::external_body]
fn base64_std_decode(text: &str) -> (r: Result<Vec<u8>, String>)
    ensures
        bytes_result(r) == base64_std_decoded_of(text@),
{
    match base64::engine::general_purpose::STANDARD.decode(text) {
        Ok(bytes) => Ok(bytes),
        Err(err) => Err(err.to_string()),
    }
}

/// `rand::rng().fill_bytes` on `n` bytes: random bytes from the thread-local generator.
/// Nothing is promised of them but their number.
#[verifier::external_body]
pub(crate) fn random_filled(n: usize) -> (r: Vec<u8>)
    ensures
        r@.len() == n,
{
    let mut bytes = vec![0u8; n];
    rand::rng().fill_bytes(&mut bytes);
    bytes
}

/// A failure of the backup functions: a request error (`true`) or an internal one, with its
/// message.
pub open spec fn failure_is(e: AppError, f: (bool, Seq<char>)) -> bool {
    if f.0 {
        e matches AppError::Validation(m) && m@ == f.1
    } else {
        e matches AppError::Internal(m) && m@ == f.1
    }
}

/// A result of the backup functions against its expected outcome.
pub open spec fn outcome_is(r: Result<Vec<u8>, AppError>, o: Result<Seq<u8>, (bool, Seq<char>)>) -> bool {
    match o {
        Ok(p) => r matches Ok(v) && v@ == p,
        Err(f) => r matches Err(e) && failure_is(e, f),
    }
}

/// The key of a backup derived from its password and salt, or the derivation's failure.
pub open spec fn backup_key_outcome(password: Seq<char>, salt: Seq<u8>) -> Result<Seq<u8>, (bool, Seq<char>)> {
    match argon2id_key_of(password, salt) {
        Ok(k) => Ok(k),
        Err(e) => Err((false, "backup key derivation failed: "@ + e)),
    }
}

/// Derives the 32-byte key of a backup from its password and salt with Argon2id.
pub fn backup_key(password: &str, salt: &[u8]) -> (r: Result<Vec<u8>, AppError>)
    ensures
        outcome_is(r, backup_key_outcome(password@, salt@)),
        r matches Ok(k) ==> k@.len() == 32,
{
    match argon2id_key(password, salt) {
        Ok(k) => Ok(k),
        Err(e) => {
            let mut m = String::from_str("backup key derivation failed: ");
            m.append(e.as_str());
            Err(AppError::Internal(m))
        },
    }
}

/// What opening an encrypted backup with a password gives, step by step: the password's
/// length, the envelope's format, the base64 of salt, nonce and data, the lengths of salt
/// and nonce, the key, and the authenticated decryption.
pub open spec fn backup_opened(password: Seq<char>, env: BackupEnvelope) -> Result<Seq<u8>, (bool, Seq<char>)> {
    if !(4 <= password.len() <= 256) {
        Err((true, "backup password must be between 4 and 256 characters"@))
    } else if !(env.version == BACKUP_ENVELOPE_VERSION && env.kdf@ == "argon2id"@ && env.cipher@
        == "aes-256-gcm"@) {
        Err((true, "unsupported backup format"@))
    } else {
        match base64_std_decoded_of(env.salt@) {
            Err(e) => Err((true, "invalid backup salt: "@ + e)),
            Ok(salt) => match base64_std_decoded_of(env.nonce@) {
                Err(e) => Err((true, "invalid backup nonce: "@ + e)),
                Ok(nonce) => match base64_std_decoded_of(env.data@) {
                    Err(e) => Err((true, "invalid backup data: "@ + e)),
                    Ok(data) => if salt.len() != BACKUP_SALT_BYTES {
                        Err((true, "invalid backup salt length"@))
                    } else if nonce.len() != BACKUP_NONCE_BYTES {
                        Err((true, "invalid backup nonce length"@))
                    } else {
                        match backup_key_outcome(password, salt) {
                            Err(f) => Err(f),
                            Ok(key) => match aes_gcm_opened_of(key, nonce, data) {
                                Some(p) => Ok(p),
                                None => Err((true, "backup password is invalid"@)),
                            },
                        }
                    },
                },
            },
        }
    }
}

fn validation(m: String) -> (r: AppError)
    ensures
        r matches AppError::Validation(s) && s@ == m@,
{
    AppError::Validation(m)
}

fn prefixed(prefix: &str, detail: &str) -> (r: String)
    ensures
        r@ == prefix@ + detail@,
{
    let mut m = String::from_str(prefix);
    m.append(detail);
    m
}

/// Opens an encrypted backup (see [`backup_opened`]): the serialized backup, or the first
/// failure.
pub fn decrypt_backup(password: &str, envelope: &BackupEnvelope) -> (r: Result<Vec<u8>, AppError>)
    ensures
        outcome_is(r, backup_opened(password@, *envelope)),
{
    match validate_backup_password(password) {
        Err(e) => return Err(validation(e)),
        Ok(()) => {},
    }
    match check_backup_envelope(envelope) {
        Err(e) => return Err(validation(e)),
        Ok(()) => {},
    }
    let salt = match base64_std_decode(envelope.salt.as_str()) {
        Ok(b) => b,
        Err(e) => return Err(validation(prefixed("invalid backup salt: ", e.as_str()))),
    };
    let nonce = match base64_std_decode(envelope.nonce.as_str()) {
        Ok(b) => b,
        Err(e) => return Err(validation(prefixed("invalid backup nonce: ", e.as_str()))),
    };
    let data = match base64_std_decode(envelope.data.as_str()) {
        Ok(b) => b,
        Err(e) => return Err(validation(prefixed("invalid backup data: ", e.as_str()))),
    };
    match check_backup_key_material(salt.len(), nonce.len()) {
        Err(e) => return Err(validation(e)),
        Ok(()) => {},
    }
    let key = match backup_key(password, salt.as_slice()) {
        Ok(k) => k,
        Err(e) => return Err(e),
    };
    match aes_gcm_open(key.as_slice(), nonce.as_slice(), data.as_slice()) {
        Some(p) => Ok(p),
        None => Err(validation(String::from_str("backup password is invalid"))),
    }
}

/// An envelope that seals a plaintext under a password: the current format, and some salt
/// and nonce of the right lengths, in base64 beside the sealing under the derived key.
pub open spec fn sealed_envelope(password: Seq<char>, plaintext: Seq<u8>, env: BackupEnvelope) -> bool {
    &&& env.version == BACKUP_ENVELOPE_VERSION
    &&& env.kdf@ == "argon2id"@
    &&& env.cipher@ == "aes-256-gcm"@
    &&& exists|salt: Seq<u8>, nonce: Seq<u8>, key: Seq<u8>, c: Seq<u8>|
        {
            &&& salt.len() == BACKUP_SALT_BYTES
            &&& nonce.len() == BACKUP_NONCE_BYTES
            &&& argon2id_key_of(password, salt) == Ok::<Seq<u8>, Seq<char>>(key)
            &&& aes_gcm_sealed_of(key, nonce, plaintext) == Some(c)
            &&& env.salt@ == base64_std_of(salt)
            &&& env.nonce@ == base64_std_of(nonce)
            &&& env.data@ == base64_std_of(c)
        }
}

/// Encrypts a serialized backup under a password, with a fresh random salt and nonce. A
/// password of the wrong length is refused; otherwise the result is the envelope, or an
/// internal failure of the key derivation or the cipher for the salt and nonce drawn. What
/// it returns, [`decrypt_backup`] opens with the same password to the same bytes.
pub fn encrypt_backup(password: &str, plaintext: &[u8]) -> (r: Result<BackupEnvelope, AppError>)
    ensures
        !(4 <= password@.len() <= 256) ==> (r matches Err(AppError::Validation(m)) && m@
            == "backup password must be between 4 and 256 characters"@),
        (4 <= password@.len() <= 256) ==> (r is Ok || r matches Err(AppError::Internal(_))),
        r matches Err(AppError::Internal(m)) ==> (exists|salt: Seq<u8>|
            salt.len() == BACKUP_SALT_BYTES && match argon2id_key_of(password@, salt) {
                Err(e) => m@ == "backup key derivation failed: "@ + e,
                Ok(_) => m@ == "backup encryption failed"@,
            }),
        r matches Ok(env) ==> sealed_envelope(password@, plaintext@, env),
        r matches Ok(env) ==> backup_opened(password@, env) == Ok::<Seq<u8>, (bool, Seq<char>)>(
            plaintext@,
        ),
{
    match validate_backup_password(password) {
        Err(e) => return Err(validation(e)),
        Ok(()) => {},
    }
    let salt = random_filled(BACKUP_SALT_BYTES);
    let nonce = random_filled(BACKUP_NONCE_BYTES);
    let key = match backup_key(password, salt.as_slice()) {
        Ok(k) => k,
        Err(e) => return Err(e),
    };
    let sealed = match aes_gcm_seal(key.as_slice(), nonce.as_slice(), plaintext) {
        Some(c) => c,
        None => return Err(AppError::Internal(String::from_str("backup encryption failed"))),
    };
    let env = BackupEnvelope {
        version: BACKUP_ENVELOPE_VERSION,
        kdf: String::from_str("argon2id"),
        cipher: String::from_str("aes-256-gcm"),
        salt: base64_std_encode(salt.as_slice()),
        nonce: base64_std_encode(nonce.as_slice()),
        data: base64_std_encode(sealed.as_slice()),
    };
    proof {
        reveal_strlit("argon2id");
        reveal_strlit("aes-256-gcm");
        assert(sealed_envelope(password@, plaintext@, env));
    }
    Ok(env)
}

} // verus!
