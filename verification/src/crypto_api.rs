//! The encrypted forms of the panel: a key sealed for the server and fields sealed with it,
//! and the checks on what unsealing gives.

use base64::Engine;
use rsa::pkcs8::{DecodePrivateKey, EncodePrivateKey, EncodePublicKey};
use vstd::prelude::*;
use vstd::string::StringExecFns;
use crate::backup_crypto::{aes_gcm_open, aes_gcm_opened_of, bytes_result};
use crate::error::AppError;

verus! {

/// The algorithms a browser seals forms with.
pub const SEALING_ALGORITHM: &'static str = "RSA-OAEP-256/AES-256-GCM";

/// The bytes of the key a form is sealed with.
pub const REQUEST_KEY_BYTES: usize = 32;

/// The bytes of a field's nonce.
pub const FIELD_IV_BYTES: usize = 12;

/// The server's public key and how to use it.
#[derive(Debug)]
pub struct PublicKeyResponse {
    pub algorithm: &'static str,
    pub public_key_pem: String,
}

/// A sealed form: its key sealed with the server's public key, and its fields by name.
#[derive(Debug)]
pub struct EncryptedRequest {
    pub encrypted_key: String,
    pub fields: Vec<(String, EncryptedField)>,
}

/// One sealed field: its nonce and sealed value, in URL-safe base64.
#[derive(Debug)]
pub struct EncryptedField {
    pub iv: String,
    pub value: String,
}

/// The answer that carries the public key.
pub fn public_key_response(public_key_pem: String) -> (r: PublicKeyResponse)
    ensures
        r.algorithm@ == SEALING_ALGORITHM@,
        r.public_key_pem == public_key_pem,
{
    PublicKeyResponse { algorithm: SEALING_ALGORITHM, public_key_pem }
}

/// The unsealed form key must have 32 bytes.
pub fn check_request_key(len: usize) -> (r: Result<(), String>)
    ensures
        r is Ok <==> len == REQUEST_KEY_BYTES,
        r matches Err(e) ==> e@ == "encrypted request key must decrypt to 32 bytes"@,
{
    if len != REQUEST_KEY_BYTES {
        return Err(String::from_str("encrypted request key must decrypt to 32 bytes"));
    }
    Ok(())
}

/// A field's decoded nonce must have 12 bytes.
pub fn check_field_iv(len: usize) -> (r: Result<(), String>)
    ensures
        r is Ok <==> len == FIELD_IV_BYTES,
        r matches Err(e) ==> e@ == "encrypted field iv must be 12 bytes"@,
{
    if len != FIELD_IV_BYTES {
        return Err(String::from_str("encrypted field iv must be 12 bytes"));
    }
    Ok(())
}

/// The error of a form that lacks a field.
pub fn missing_field_error(name: &str) -> (r: String)
    ensures
        r@ == "missing encrypted field `"@ + name@ + "`"@,
{
    let mut r = String::from_str("missing encrypted field `");
    r.append(name);
    r.append("`");
    r
}

/// The server's key pair for sealed forms: the private key in PKCS#8 DER, and the public key
/// as PEM text.
pub struct CryptoKeys {
    private_key_der: Vec<u8>,
    public_key_pem: String,
}

/// The PEM text (LF line ends) of the public key of an RSA private key given in PKCS#8 DER,
/// or the text of the error of reading the key or writing the PEM.
pub uninterp spec fn rsa_public_pem_of(key_der: Seq<u8>) -> Result<Seq<char>, Seq<char>>;

/// What RSA-OAEP over SHA-256 decrypts from sealed bytes with an RSA private key given in
/// PKCS#8 DER, or the text of the error of reading the key or decrypting.
pub uninterp spec fn rsa_oaep_decrypted_of(key_der: Seq<u8>, sealed: Seq<u8>) -> Result<Seq<u8>, Seq<char>>;

pub open spec fn text_result(r: Result<String, String>) -> Result<Seq<char>, Seq<char>> {
    match r {
        Ok(v) => Ok(v@),
        Err(e) => Err(e@),
    }
}

/// `rsa::RsaPrivateKey::new` with the operating system's generator and 2048 bits, written by
/// `to_pkcs8_der`; or the error's text. The key is random: nothing is promised of it.
#[verifier::external_body]
fn rsa_generate_der() -> (r: Result<Vec<u8>, String>) {
    match rsa::RsaPrivateKey::new(&mut rsa::rand_core::OsRng, 2048) {
        Ok(key) => match key.to_pkcs8_der() {
            Ok(doc) => Ok(doc.as_bytes().to_vec()),
            Err(err) => Err(err.to_string()),
        },
        Err(err) => Err(err.to_string()),
    }
}

/// `rsa::RsaPrivateKey::from_pkcs8_der`, then `rsa::RsaPublicKey::from` and
/// `to_public_key_pem` with LF line ends: named by `rsa_public_pem_of`.
#[verifier::external_body]
fn rsa_public_pem(key_der: &[u8]) -> (r: Result<String, String>)
    ensures
        text_result(r) == rsa_public_pem_of(key_der@),
{
    match rsa::RsaPrivateKey::from_pkcs8_der(key_der) {
        Ok(key) => match rsa::RsaPublicKey::from(&key).to_public_key_pem(rsa::pkcs8::LineEnding::LF) {
            Ok(pem) => Ok(pem),
            Err(err) => Err(err.to_string()),
        },
        Err(err) => Err(err.to_string()),
    }
}

/// `rsa::RsaPrivateKey::from_pkcs8_der`, then `decrypt` with OAEP padding over SHA-256:
/// named by `rsa_oaep_decrypted_of`.
#[verifier::external_body]
fn rsa_oaep_decrypt(key_der: &[u8], sealed: &[u8]) -> (r: Result<Vec<u8>, String>)
    ensures
        bytes_result(r) == rsa_oaep_decrypted_of(key_der@, sealed@),
{
    match rsa::RsaPrivateKey::from_pkcs8_der(key_der) {
        Ok(key) => match key.decrypt(rsa::Oaep::new::<sha2::Sha256>(), sealed) {
            Ok(bytes) => Ok(bytes),
            Err(err) => Err(err.to_string()),
        },
        Err(err) => Err(err.to_string()),
    }
}

/// The bytes that URL-safe base64 without padding reads from a text, or its error's text.
pub uninterp spec fn base64_url_decoded_of(text: Seq<char>) -> Result<Seq<u8>, Seq<char>>;

/// `base64::engine::general_purpose::URL_SAFE_NO_PAD.decode`, named by
/// `base64_url_decoded_of`.
#[verifier::external_body]
fn base64_url_decode(text: &str) -> (r: Result<Vec<u8>, String>)
    ensures
        bytes_result(r) == base64_url_decoded_of(text@),
{
    match base64::engine::general_purpose::URL_SAFE_NO_PAD.decode(text) {
        Ok(bytes) => Ok(bytes),
        Err(err) => Err(err.to_string()),
    }
}

/// A value in URL-safe base64, or the form's error for it.
pub open spec fn b64_field(text: Seq<char>) -> Result<Seq<u8>, Seq<char>> {
    match base64_url_decoded_of(text) {
        Ok(b) => Ok(b),
        Err(e) => Err("invalid base64url value: "@ + e),
    }
}

/// Decodes a value in URL-safe base64 (see [`b64_field`]).
pub fn decode_b64(value: &str) -> (r: Result<Vec<u8>, String>)
    ensures
        bytes_result(r) == b64_field(value@),
{
    match base64_url_decode(value) {
        Ok(b) => Ok(b),
        Err(e) => {
            let mut m = String::from_str("invalid base64url value: ");
            m.append(e.as_str());
            Err(m)
        },
    }
}

/// One sealed field opened with the form key: its nonce decoded and 12 bytes long, its value
/// decoded, and the authenticated decryption.
pub open spec fn field_opened(key: Seq<u8>, iv: Seq<char>, value: Seq<char>) -> Result<Seq<u8>, Seq<char>> {
    match b64_field(iv) {
        Err(e) => Err(e),
        Ok(n) => if n.len() != FIELD_IV_BYTES {
            Err("encrypted field iv must be 12 bytes"@)
        } else {
            match b64_field(value) {
                Err(e) => Err(e),
                Ok(c) => match aes_gcm_opened_of(key, n, c) {
                    Some(p) => Ok(p),
                    None => Err("failed to decrypt encrypted field"@),
                },
            }
        },
    }
}

/// The first `k` fields opened in turn, or the first error.
pub open spec fn fields_opened(key: Seq<u8>, fields: Seq<(String, EncryptedField)>, k: int) -> Result<
    Seq<Seq<u8>>,
    Seq<char>,
>
    decreases k,
{
    if k <= 0 {
        Ok(Seq::empty())
    } else {
        match fields_opened(key, fields, k - 1) {
            Err(e) => Err(e),
            Ok(ps) => match field_opened(key, fields[k - 1].1.iv@, fields[k - 1].1.value@) {
                Err(e) => Err(e),
                Ok(p) => Ok(ps.push(p)),
            },
        }
    }
}

pub open spec fn byte_views(v: Seq<Vec<u8>>) -> Seq<Seq<u8>> {
    v.map_values(|b: Vec<u8>| b@)
}

/// What a form gives with an unsealed form key: a key of 32 bytes, then every field opened
/// (see [`fields_opened`]).
pub open spec fn form_opened(key: Seq<u8>, fields: Seq<(String, EncryptedField)>) -> Result<Seq<Seq<u8>>, Seq<char>> {
    if key.len() != REQUEST_KEY_BYTES {
        Err("encrypted request key must decrypt to 32 bytes"@)
    } else {
        fields_opened(key, fields, fields.len() as int)
    }
}

proof fn lemma_fields_error_stays(key: Seq<u8>, fields: Seq<(String, EncryptedField)>, k: int, j: int)
    requires
        0 <= k <= j,
        fields_opened(key, fields, k) is Err,
    ensures
        fields_opened(key, fields, j) == fields_opened(key, fields, k),
    decreases j - k,
{
    if j > k {
        lemma_fields_error_stays(key, fields, k, j - 1);
    }
}

/// Opens the fields of a form with its unsealed key (see [`form_opened`]): the serialized
/// field of each, in order, or the first failure, as a request error.
pub fn open_form_fields(key: &[u8], request: &EncryptedRequest) -> (r: Result<Vec<Vec<u8>>, AppError>)
    ensures
        match form_opened(key@, request.fields@) {
            Ok(ps) => r matches Ok(v) && byte_views(v@) == ps,
            Err(e) => r matches Err(AppError::Validation(m)) && m@ == e,
        },
{
    match check_request_key(key.len()) {
        Err(e) => return Err(AppError::Validation(e)),
        Ok(()) => {},
    }
    let ghost fs = request.fields@;
    let n = request.fields.len();
    let mut out: Vec<Vec<u8>> = Vec::new();
    let mut i: usize = 0;
    assert(byte_views(out@) =~= Seq::<Seq<u8>>::empty());
    while i < n
        invariant
            n == fs.len(),
            fs == request.fields@,
            key@.len() == REQUEST_KEY_BYTES,
            i <= n,
            out@.len() == i,
            fields_opened(key@, fs, i as int) == Ok::<Seq<Seq<u8>>, Seq<char>>(byte_views(out@)),
        decreases n - i,
    {
        let field = &request.fields[i].1;
        let iv = match decode_b64(field.iv.as_str()) {
            Ok(b) => b,
            Err(e) => {
                proof {
                    lemma_fields_error_stays(key@, fs, i + 1, n as int);
                }
                return Err(AppError::Validation(e));
            },
        };
        match check_field_iv(iv.len()) {
            Err(e) => {
                proof {
                    lemma_fields_error_stays(key@, fs, i + 1, n as int);
                }
                return Err(AppError::Validation(e));
            },
            Ok(()) => {},
        }
        let sealed = match decode_b64(field.value.as_str()) {
            Ok(b) => b,
            Err(e) => {
                proof {
                    lemma_fields_error_stays(key@, fs, i + 1, n as int);
                }
                return Err(AppError::Validation(e));
            },
        };
        match aes_gcm_open(key, iv.as_slice(), sealed.as_slice()) {
            None => {
                proof {
                    lemma_fields_error_stays(key@, fs, i + 1, n as int);
                }
                return Err(AppError::Validation(String::from_str("failed to decrypt encrypted field")));
            },
            Some(p) => {
                let ghost before = byte_views(out@);
                out.push(p);
                assert(byte_views(out@) =~= before.push(out@[i as int]@));
            },
        }
        i = i + 1;
    }
    Ok(out)
}

impl CryptoKeys {
    /// The private key, in PKCS#8 DER.
    pub closed spec fn key_der(&self) -> Seq<u8> {
        self.private_key_der@
    }

    /// The PEM text of the public key.
    pub closed spec fn public_pem(&self) -> Seq<char> {
        self.public_key_pem@
    }

    /// A fresh key pair: a random 2048-bit RSA key and its public key as PEM text. A failure
    /// of either step is an internal error that carries the crate's message.
    pub fn generate() -> (r: Result<CryptoKeys, AppError>)
        ensures
            r matches Ok(k) ==> rsa_public_pem_of(k.key_der()) == Ok::<Seq<char>, Seq<char>>(
                k.public_pem(),
            ),
            r matches Err(e) ==> (e matches AppError::Internal(m) && ((exists|d: Seq<char>|
                m@ == "failed to generate RSA key: "@ + d) || (exists|der: Seq<u8>|
                #[trigger] rsa_public_pem_of(der) is Err && m@ == "failed to encode public key: "@
                    + rsa_public_pem_of(der)->Err_0))),
    {
        let private_key_der = match rsa_generate_der() {
            Ok(k) => k,
            Err(e) => {
                let mut m = String::from_str("failed to generate RSA key: ");
                m.append(e.as_str());
                return Err(AppError::Internal(m));
            },
        };
        let public_key_pem = match rsa_public_pem(private_key_der.as_slice()) {
            Ok(p) => p,
            Err(e) => {
                let mut m = String::from_str("failed to encode public key: ");
                m.append(e.as_str());
                return Err(AppError::Internal(m));
            },
        };
        Ok(CryptoKeys { private_key_der, public_key_pem })
    }

    /// The answer that carries the public key.
    pub fn public_key(&self) -> (r: PublicKeyResponse)
        ensures
            r.algorithm@ == SEALING_ALGORITHM@,
            r.public_key_pem@ == self.public_pem(),
    {
        public_key_response(self.public_key_pem.clone())
    }

    /// Unseals a form: the form key is decoded from URL-safe base64 and decrypted with the
    /// private key (RSA-OAEP over SHA-256), then each field is opened with it (see
    /// [`open_form_fields`]). Every failure is a request error.
    pub fn decrypt_fields(&self, request: &EncryptedRequest) -> (r: Result<Vec<Vec<u8>>, AppError>)
        ensures
            match b64_field(request.encrypted_key@) {
                Err(e) => r matches Err(AppError::Validation(m)) && m@ == e,
                Ok(sealed) => match rsa_oaep_decrypted_of(self.key_der(), sealed) {
                    Err(e) => r matches Err(AppError::Validation(m)) && m@ == "failed to decrypt request key: "@
                        + e,
                    Ok(key) => match form_opened(key, request.fields@) {
                        Ok(ps) => r matches Ok(v) && byte_views(v@) == ps,
                        Err(e) => r matches Err(AppError::Validation(m)) && m@ == e,
                    },
                },
            },
    {
        let sealed_key = match decode_b64(request.encrypted_key.as_str()) {
            Ok(b) => b,
            Err(e) => return Err(AppError::Validation(e)),
        };
        let key = match rsa_oaep_decrypt(self.private_key_der.as_slice(), sealed_key.as_slice()) {
            Ok(k) => k,
            Err(e) => {
                let mut m = String::from_str("failed to decrypt request key: ");
                m.append(e.as_str());
                return Err(AppError::Validation(m));
            },
        };
        open_form_fields(key.as_slice(), request)
    }
}

} // verus!
