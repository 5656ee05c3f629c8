use aes_gcm::aead::{Aead, KeyInit};
use base64::Engine;
use embypanel::crypto_api::{open_form_fields, decode_b64, CryptoKeys, EncryptedField, EncryptedRequest};
use embypanel::error::AppError;
use rsa::pkcs8::DecodePublicKey;

fn b64(bytes: &[u8]) -> String {
    base64::engine::general_purpose::URL_SAFE_NO_PAD.encode(bytes)
}

fn sealed_field(key: &[u8], iv: &[u8], plaintext: &[u8]) -> EncryptedField {
    let cipher = aes_gcm::Aes256Gcm::new_from_slice(key).unwrap();
    let sealed = cipher.encrypt(aes_gcm::Nonce::from_slice(iv), plaintext).unwrap();
    EncryptedField { iv: b64(iv), value: b64(&sealed) }
}

fn validation(r: Result<Vec<Vec<u8>>, AppError>) -> String {
    match r {
        Err(AppError::Validation(m)) => m,
        other => panic!("expected a validation error, got {other:?}"),
    }
}

#[test]
fn form_fields_open_with_the_form_key() {
    let key = [7u8; 32];
    let request = EncryptedRequest {
        encrypted_key: String::new(),
        fields: vec![
            ("a".to_string(), sealed_field(&key, &[1u8; 12], br#"{"name":"a","value":1}"#)),
            ("b".to_string(), sealed_field(&key, &[2u8; 12], br#"{"name":"b","value":"x"}"#)),
        ],
    };
    let opened = open_form_fields(&key, &request).unwrap();
    assert_eq!(opened, vec![br#"{"name":"a","value":1}"#.to_vec(), br#"{"name":"b","value":"x"}"#.to_vec()]);

    assert_eq!(
        validation(open_form_fields(&[7u8; 16], &request)),
        "encrypted request key must decrypt to 32 bytes"
    );
    assert_eq!(validation(open_form_fields(&[8u8; 32], &request)), "failed to decrypt encrypted field");
}

#[test]
fn form_field_nonce_and_encoding_are_checked() {
    let key = [7u8; 32];
    let mut field = sealed_field(&key, &[1u8; 12], b"{}");
    field.iv = b64(&[1u8; 8]);
    let request = EncryptedRequest { encrypted_key: String::new(), fields: vec![("a".to_string(), field)] };
    assert_eq!(validation(open_form_fields(&key, &request)), "encrypted field iv must be 12 bytes");

    let bad = EncryptedRequest {
        encrypted_key: String::new(),
        fields: vec![("a".to_string(), EncryptedField { iv: "***".to_string(), value: String::new() })],
    };
    assert!(validation(open_form_fields(&key, &bad)).starts_with("invalid base64url value: "));
    assert_eq!(decode_b64("AQID").unwrap(), vec![1, 2, 3]);
}

#[test]
fn sealed_form_round_trip_through_the_key_pair() {
    let keys = CryptoKeys::generate().unwrap();
    let answer = keys.public_key();
    assert_eq!(answer.algorithm, "RSA-OAEP-256/AES-256-GCM");
    let public = rsa::RsaPublicKey::from_public_key_pem(&answer.public_key_pem).unwrap();
    let form_key = [9u8; 32];
    let sealed_key = public
        .encrypt(&mut rsa::rand_core::OsRng, rsa::Oaep::new::<sha2::Sha256>(), &form_key)
        .unwrap();
    let request = EncryptedRequest {
        encrypted_key: b64(&sealed_key),
        fields: vec![("p".to_string(), sealed_field(&form_key, &[3u8; 12], b"{\"name\":\"p\",\"value\":true}"))],
    };
    let opened = keys.decrypt_fields(&request).unwrap();
    assert_eq!(opened, vec![b"{\"name\":\"p\",\"value\":true}".to_vec()]);

    let garbled = EncryptedRequest { encrypted_key: b64(&[1u8; 256]), fields: vec![] };
    assert!(validation(keys.decrypt_fields(&garbled)).starts_with("failed to decrypt request key: "));
    let unencoded = EncryptedRequest { encrypted_key: "***".to_string(), fields: vec![] };
    assert!(validation(keys.decrypt_fields(&unencoded)).starts_with("invalid base64url value: "));
}
