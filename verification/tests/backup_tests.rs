use embypanel::backup_crypto::{backup_key, decrypt_backup, encrypt_backup};
use embypanel::error::AppError;
use embypanel::settings_api::{encrypted_backup_password, restore_plan, BackupContents, BackupEnvelope};

fn validation_text(r: Result<Vec<u8>, AppError>) -> String {
    match r {
        Err(AppError::Validation(m)) => m,
        other => panic!("expected a validation error, got {other:?}"),
    }
}

#[test]
fn encrypted_backup_opens_with_its_password() {
    let plaintext = br#"{"schema_version":2}"#.to_vec();
    let envelope = encrypt_backup("correct horse", &plaintext).unwrap();
    assert_eq!(envelope.version, 1);
    assert_eq!(envelope.kdf, "argon2id");
    assert_eq!(envelope.cipher, "aes-256-gcm");
    assert_ne!(envelope.data, "");
    assert_eq!(decrypt_backup("correct horse", &envelope).unwrap(), plaintext);
}

#[test]
fn encrypted_backup_refuses_a_wrong_password() {
    let envelope = encrypt_backup("correct horse", b"secret").unwrap();
    assert_eq!(validation_text(decrypt_backup("wrong horse", &envelope)), "backup password is invalid");
}

#[test]
fn backup_password_length_is_checked_first() {
    match encrypt_backup("abc", b"x") {
        Err(AppError::Validation(m)) => {
            assert_eq!(m, "backup password must be between 4 and 256 characters")
        }
        other => panic!("unexpected {other:?}"),
    }
    let envelope = encrypt_backup("abcd", b"x").unwrap();
    assert_eq!(
        validation_text(decrypt_backup("abc", &envelope)),
        "backup password must be between 4 and 256 characters"
    );
}

#[test]
fn backup_envelope_format_and_lengths_are_checked() {
    let mut envelope = encrypt_backup("abcd", b"x").unwrap();
    envelope.cipher = "chacha20".to_string();
    assert_eq!(validation_text(decrypt_backup("abcd", &envelope)), "unsupported backup format");

    let mut short = encrypt_backup("abcd", b"x").unwrap();
    short.nonce = "AAAA".to_string();
    assert_eq!(validation_text(decrypt_backup("abcd", &short)), "invalid backup nonce length");

    let mut salt = encrypt_backup("abcd", b"x").unwrap();
    salt.salt = "AAAA".to_string();
    assert_eq!(validation_text(decrypt_backup("abcd", &salt)), "invalid backup salt length");

    let mut bad = encrypt_backup("abcd", b"x").unwrap();
    bad.data = "!!!".to_string();
    assert!(validation_text(decrypt_backup("abcd", &bad)).starts_with("invalid backup data: "));
}

#[test]
fn backup_envelope_with_bad_salt_text() {
    let envelope = BackupEnvelope {
        version: 1,
        kdf: "argon2id".to_string(),
        cipher: "aes-256-gcm".to_string(),
        salt: "%%".to_string(),
        nonce: String::new(),
        data: String::new(),
    };
    assert!(validation_text(decrypt_backup("abcd", &envelope)).starts_with("invalid backup salt: "));
}

#[test]
fn backup_key_is_32_bytes_and_repeatable() {
    let a = backup_key("password", b"0123456789abcdef").unwrap();
    let b = backup_key("password", b"0123456789abcdef").unwrap();
    let c = backup_key("password", b"fedcba9876543210").unwrap();
    assert_eq!(a.len(), 32);
    assert_eq!(a, b);
    assert_ne!(a, c);
}

#[test]
fn restore_plan_follows_the_schema_version() {
    let legacy = BackupContents {
        schema_version: 1,
        client_control: true,
        system_log_config: false,
        user_policies: false,
        user_templates: true,
    };
    let plan = restore_plan(&legacy).unwrap();
    assert!(plan.client_control && !plan.system_log_config && !plan.user_policies && plan.user_templates);

    let snapshot = BackupContents { schema_version: 2, ..legacy };
    let plan = restore_plan(&snapshot).unwrap();
    assert!(plan.client_control && plan.system_log_config && plan.user_policies && plan.user_templates);

    match restore_plan(&BackupContents { schema_version: 7, ..legacy }) {
        Err(AppError::Validation(m)) => assert_eq!(m, "unsupported backup schema version 7"),
        other => panic!("unexpected {other:?}"),
    }
}

#[test]
fn encrypted_restore_needs_a_password() {
    assert_eq!(encrypted_backup_password(Some("  pw1234 ")).unwrap(), "pw1234");
    for missing in [None, Some("   ")] {
        match encrypted_backup_password(missing) {
            Err(AppError::Validation(m)) => assert_eq!(m, "backup password is required"),
            other => panic!("unexpected {other:?}"),
        }
    }
}

#[test]
fn backup_round_trip_restores_payload() {
    let payload = br#"{"schema_version":2,"application_version":"v-test","runtime_config":{}}"#.to_vec();
    let backup = encrypt_backup("strong-password", &payload).unwrap();
    let restored = decrypt_backup("strong-password", &backup).unwrap();
    assert_eq!(restored, payload);
    assert!(String::from_utf8(restored).unwrap().contains("v-test"));
}

#[test]
fn backup_rejects_wrong_password() {
    let backup = encrypt_backup("correct-password", b"{}").unwrap();
    let err = validation_text(decrypt_backup("wrong-password", &backup));
    assert!(err.contains("backup password is invalid"));
}

#[test]
fn backup_rejects_short_password() {
    match encrypt_backup("abc", b"{}") {
        Err(AppError::Validation(m)) => assert!(m.contains("between 4 and 256")),
        other => panic!("unexpected {other:?}"),
    }
}

#[test]
fn backup_rejects_invalid_nonce_length() {
    let standard = base64::engine::general_purpose::STANDARD;
    let envelope = BackupEnvelope {
        version: embypanel::settings_api::BACKUP_ENVELOPE_VERSION,
        kdf: "argon2id".to_string(),
        cipher: "aes-256-gcm".to_string(),
        salt: base64::Engine::encode(&standard, [0_u8; embypanel::settings_api::BACKUP_SALT_BYTES]),
        nonce: base64::Engine::encode(&standard, [0_u8; 1]),
        data: base64::Engine::encode(&standard, [0_u8; 16]),
    };
    let err = validation_text(decrypt_backup("strong-password", &envelope));
    assert!(err.contains("invalid backup nonce length"));
}

#[test]
fn backup_rejects_oversized_text() {
    let oversized = "x".repeat(embypanel::settings_api::MAX_BACKUP_TEXT_BYTES + 1);
    assert_eq!(
        embypanel::settings_api::validate_backup_text_size(&oversized).unwrap_err(),
        "backup file is larger than 8 MiB"
    );
}
