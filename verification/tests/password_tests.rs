use embypanel::auth::{check_current_password, hash_password, password_check_event, verify_password, LoginEvent};
use embypanel::error::AppError;

#[test]
fn hashed_password_verifies_and_others_do_not() {
    let hash = hash_password("s3cret-pass").unwrap();
    assert!(hash.starts_with("$argon2id$"));
    assert!(verify_password("s3cret-pass", &hash).is_ok());
    match verify_password("wrong", &hash) {
        Err(AppError::Unauthorized(m)) => assert_eq!(m, "invalid username or password"),
        other => panic!("unexpected {other:?}"),
    }
    let again = hash_password("s3cret-pass").unwrap();
    assert_ne!(hash, again);
}

#[test]
fn unreadable_stored_hash_is_an_internal_error() {
    match verify_password("x", "not a hash") {
        Err(AppError::Internal(m)) => assert!(m.starts_with("invalid password hash: ")),
        other => panic!("unexpected {other:?}"),
    }
}

#[test]
fn password_outcomes_feed_the_sign_in_and_change_steps() {
    let hash = hash_password("pw1234").unwrap();
    assert!(matches!(password_check_event("pw1234", &hash), LoginEvent::PasswordChecked(Ok(()))));
    assert!(matches!(
        password_check_event("nope", &hash),
        LoginEvent::PasswordChecked(Err(AppError::Unauthorized(_)))
    ));
    assert!(check_current_password("pw1234", &hash).is_ok());
    match check_current_password("nope", &hash) {
        Err(AppError::Validation(m)) => assert_eq!(m, "current password is incorrect"),
        other => panic!("unexpected {other:?}"),
    }
}
