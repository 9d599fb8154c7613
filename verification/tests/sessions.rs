use finanalize::auth::{login_subject, registration_hash};
use finanalize::error::{AuthError, FinanalizeError};
use finanalize::jwt::{subject_of, DecodedClaims, TokenFactory, TokenPair};
use finanalize::models::User;

fn make_test_factory() -> TokenFactory {
    TokenFactory::new("test")
}

fn generate_test_token() -> Result<TokenPair, FinanalizeError> {
    make_test_factory().generate_token("test".to_string())
}

#[test]
fn test_generate_token() {
    generate_test_token().unwrap();
}

#[test]
fn test_subject() {
    let factory = make_test_factory();
    let token = generate_test_token().unwrap();
    let subject = factory.subject(token.access()).unwrap();
    assert_eq!(subject, "test");
}

#[test]
fn test_token_pair() {
    let token = generate_test_token().unwrap();
    assert_eq!(token.access(), token.access());
    assert_eq!(token.refresh(), token.refresh());
    assert_ne!(token.access(), token.refresh());
}

#[test]
fn refresh_tokens_name_their_subject_too() {
    let factory = make_test_factory();
    let pair = factory.generate_token("user:42".to_string()).unwrap();
    assert_eq!(factory.subject(pair.refresh()).unwrap(), "user:42");
    assert_eq!(pair.access().split('.').count(), 3);
}

#[test]
fn tokens_of_another_secret_are_refused() {
    let pair = TokenFactory::new("one secret").generate_token("test".to_string()).unwrap();
    match TokenFactory::new("another secret").subject(pair.access()) {
        Err(FinanalizeError::Jwt(_)) => {}
        other => panic!("expected a JWT error, got {:?}", other),
    }
}

#[test]
fn garbage_is_no_token() {
    let e = make_test_factory().subject("not a token").unwrap_err();
    assert!(matches!(e, FinanalizeError::Jwt(_)));
    assert_eq!(e.status_code(), 500);
}

#[test]
fn subjects_of_decoded_claims() {
    let complete = DecodedClaims {
        exp: Some(10),
        iat: Some(5),
        iss: Some("Finanalize Backend".to_string()),
        sub: Some("alice".to_string()),
    };
    assert_eq!(subject_of(complete).unwrap(), "alice");
    let without_iat = DecodedClaims { exp: Some(10), iat: None, iss: Some("x".to_string()), sub: Some("bob".to_string()) };
    assert!(matches!(subject_of(without_iat), Err(FinanalizeError::Jwt(_))));
    let without_sub = DecodedClaims { exp: Some(10), iat: Some(5), iss: Some("x".to_string()), sub: None };
    assert!(matches!(subject_of(without_sub), Err(FinanalizeError::Jwt(_))));
}

#[test]
fn a_registered_password_logs_in() {
    let hash = registration_hash(false, "hunter42").unwrap();
    assert_ne!(hash, "hunter42");
    assert!(hash.starts_with("$argon2id$"));
    let user = User { id: "user:1".to_string(), email: "a@b.c".to_string(), password: hash.clone() };
    assert_eq!(login_subject(Some(user), "hunter42").unwrap(), "user:1");
    let user = User { id: "user:1".to_string(), email: "a@b.c".to_string(), password: hash };
    assert!(matches!(login_subject(Some(user), "hunter43"), Err(FinanalizeError::Argon2(_))));
}

#[test]
fn logins_without_a_user_or_a_readable_hash_fail() {
    assert!(matches!(
        login_subject(None, "pw"),
        Err(FinanalizeError::Unauthorized(AuthError::InvalidCredentials))
    ));
    let user = User { id: "u".to_string(), email: "e".to_string(), password: "not a hash".to_string() };
    let e = login_subject(Some(user), "pw").unwrap_err();
    assert!(matches!(e, FinanalizeError::Argon2(_)));
    assert_eq!(e.status_code(), 500);
}

#[test]
fn taken_emails_are_refused() {
    let e = registration_hash(true, "pw").unwrap_err();
    assert!(matches!(e, FinanalizeError::Unauthorized(AuthError::EmailAlreadyExists)));
    assert_eq!(e.status_code(), 401);
}

#[test]
fn two_registrations_hash_differently() {
    let a = registration_hash(false, "same").unwrap();
    let b = registration_hash(false, "same").unwrap();
    assert_ne!(a, b);
}
