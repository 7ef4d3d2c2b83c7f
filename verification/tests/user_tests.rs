use live_bet::handlers::users::{create, UserForm};
use live_bet::models::user::{create_user, new_user, verify_password, PasswordHashError};

#[test]
fn test_verify_password_correct() {
    let hash = bcrypt::hash("secret123", 4).unwrap(); // cost=4 for fast tests
    assert!(verify_password(&hash, "secret123"));
}

#[test]
fn test_verify_password_wrong() {
    let hash = bcrypt::hash("secret123", 4).unwrap();
    assert!(!verify_password(&hash, "wrong_password"));
}

#[test]
fn test_verify_password_invalid_hash() {
    assert!(!verify_password("not-a-bcrypt-hash", "anything"));
}

#[test]
fn created_user_verifies_its_password() {
    let u = create_user("Harry", "Hwang", "harry@example.com", "secret123").unwrap();
    assert_eq!(u.first_name, "Harry");
    assert_eq!(u.last_name, "Hwang");
    assert_eq!(u.email, "harry@example.com");
    assert_eq!(u.password_digest.len(), 60);
    assert!(u.password_digest.starts_with("$2b$12$"));
    assert!(verify_password(&u.password_digest, "secret123"));
    assert!(!verify_password(&u.password_digest, "secret124"));
}

#[test]
fn sign_up_form_defaults_to_empty_fields() {
    let form = UserForm { first_name: Some("Ann".into()), last_name: None, email: None, password: None };
    let u = create(&form).unwrap();
    assert_eq!(u.first_name, "Ann");
    assert_eq!(u.last_name, "");
    assert_eq!(u.email, "");
    assert!(verify_password(&u.password_digest, ""));
}

#[test]
fn new_user_row_from_digest() {
    let u = new_user("A", "B", "c@d", Ok("digest".to_string())).unwrap();
    assert_eq!(u.first_name, "A");
    assert_eq!(u.last_name, "B");
    assert_eq!(u.email, "c@d");
    assert_eq!(u.password_digest, "digest");
    assert!(matches!(
        new_user("A", "B", "c@d", Err(PasswordHashError::CostNotAllowed(3))),
        Err(PasswordHashError::CostNotAllowed(3))
    ));
    assert!(matches!(new_user("A", "B", "c@d", Err(PasswordHashError::Rand)), Err(PasswordHashError::Rand)));
}
