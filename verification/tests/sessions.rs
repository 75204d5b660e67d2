use gitcloner::auth::{bearer_token, AuthError, AuthManager};
use gitcloner::models::User;

fn user(name: &str, hash: &str) -> User {
    User {
        id: 1,
        username: name.to_string(),
        password_hash: hash.to_string(),
        created_at: 0,
    }
}

#[test]
fn created_session_validates() {
    let mut auth = AuthManager::new();
    let token = auth.create_session("alice");
    assert_eq!(auth.validate_session(&token), Some("alice".to_string()));
}

#[test]
fn token_is_hyphenated_uuid_length() {
    let mut auth = AuthManager::new();
    let token = auth.create_session("alice");
    assert_eq!(token.chars().count(), 36);
}

#[test]
fn unknown_token_does_not_validate() {
    let auth = AuthManager::new();
    assert_eq!(auth.validate_session("no-such-token"), None);
}

#[test]
fn sessions_are_isolated() {
    let mut auth = AuthManager::new();
    let t1 = auth.create_session("alice");
    let t2 = auth.create_session("bob");
    assert_ne!(t1, t2);
    assert_eq!(auth.validate_session(&t1), Some("alice".to_string()));
    assert_eq!(auth.validate_session(&t2), Some("bob".to_string()));
    auth.remove_session(&t1);
    assert_eq!(auth.validate_session(&t1), None);
    assert_eq!(auth.validate_session(&t2), Some("bob".to_string()));
}

#[test]
fn removing_absent_token_changes_nothing() {
    let mut auth = AuthManager::new();
    let t1 = auth.create_session("alice");
    auth.remove_session("not-a-token");
    assert_eq!(auth.validate_session(&t1), Some("alice".to_string()));
}

#[test]
fn removal_is_idempotent() {
    let mut auth = AuthManager::new();
    let t1 = auth.create_session("alice");
    auth.remove_session(&t1);
    auth.remove_session(&t1);
    assert_eq!(auth.validate_session(&t1), None);
}

#[test]
fn verify_password_accepts_matching_password() {
    let hash = bcrypt::hash("open sesame", 4).unwrap();
    assert_eq!(AuthManager::verify_password("open sesame", &hash), Ok(true));
}

#[test]
fn verify_password_refuses_wrong_password() {
    let hash = bcrypt::hash("open sesame", 4).unwrap();
    assert_eq!(AuthManager::verify_password("open says me", &hash), Ok(false));
}

#[test]
fn verify_password_reports_unparseable_hash() {
    assert_eq!(
        AuthManager::verify_password("anything", "not a bcrypt hash"),
        Err(AuthError::InvalidHash)
    );
}

#[test]
fn authenticate_issues_token_for_good_credentials() {
    let hash = bcrypt::hash("pw1", 4).unwrap();
    let mut auth = AuthManager::new();
    let token = auth.authenticate(&Some(user("alice", &hash)), "pw1");
    let token = token.expect("expected a session token");
    assert_eq!(auth.validate_session(&token), Some("alice".to_string()));
}

#[test]
fn authenticate_refuses_wrong_password() {
    let hash = bcrypt::hash("pw1", 4).unwrap();
    let mut auth = AuthManager::new();
    assert_eq!(auth.authenticate(&Some(user("alice", &hash)), "pw2"), None);
}

#[test]
fn authenticate_refuses_unknown_user() {
    let mut auth = AuthManager::new();
    assert_eq!(auth.authenticate(&None, "pw1"), None);
}

#[test]
fn bearer_token_strips_prefix() {
    assert_eq!(bearer_token("Bearer abc123"), Some("abc123".to_string()));
}

#[test]
fn bearer_token_allows_empty_token() {
    assert_eq!(bearer_token("Bearer "), Some("".to_string()));
}

#[test]
fn bearer_token_refuses_other_schemes() {
    assert_eq!(bearer_token("Basic abc123"), None);
    assert_eq!(bearer_token("bearer abc123"), None);
    assert_eq!(bearer_token("Bearer"), None);
}
