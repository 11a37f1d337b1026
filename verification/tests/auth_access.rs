use chat_core::auth::{create_jwt, create_jwt_at, decode_jwt, hash_password, verify_password, AuthError};
use chat_core::middleware::{bearer_token, decision_of, AuthDecision, Authentication};

#[test]
fn password_hash_verifies_and_rejects() {
    let hash = hash_password("hunter2").expect("hashing succeeds");
    assert_ne!(hash, "hunter2");
    assert!(verify_password("hunter2", &hash).unwrap());
    assert!(!verify_password("wrong", &hash).unwrap());
}

#[test]
fn malformed_hash_is_an_error() {
    assert_eq!(verify_password("anything", "not a bcrypt hash"), Err(AuthError::Hash));
}

#[test]
fn token_round_trip_keeps_the_subject() {
    let token = create_jwt("42", "server-secret").expect("issuing succeeds");
    let claims = decode_jwt(&token, "server-secret").expect("a fresh token verifies");
    assert_eq!(claims.sub, "42");
}

#[test]
fn token_with_wrong_secret_is_rejected() {
    let token = create_jwt("42", "server-secret").unwrap();
    assert!(matches!(decode_jwt(&token, "other-secret"), Err(AuthError::Token)));
}

#[test]
fn issued_token_expires_seven_days_after_issue() {
    // Issued as of a fixed future instant, so the expiry is exact.
    let token = create_jwt_at("9", "server-secret", 2_000_000_000).unwrap();
    let claims = decode_jwt(&token, "server-secret").unwrap();
    assert_eq!(claims.sub, "9");
    assert_eq!(claims.exp, 2_000_000_000 + 604_800);
}

#[test]
fn expired_token_is_rejected() {
    // Issued as of the epoch: its seven-day expiry is long past.
    let token = create_jwt_at("42", "server-secret", 0).unwrap();
    assert!(matches!(decode_jwt(&token, "server-secret"), Err(AuthError::Token)));
}

#[test]
fn bearer_prefix_is_stripped() {
    assert_eq!(bearer_token("Bearer abc.def"), Some("abc.def"));
    assert_eq!(bearer_token("Basic abc"), None);
    assert_eq!(bearer_token("Bearer"), None);
    assert_eq!(bearer_token(""), None);
    assert_eq!(bearer_token("Bearer "), Some(""));
}

#[test]
fn guard_turns_away_missing_and_malformed_headers() {
    let guard = Authentication;
    assert!(matches!(guard.authorize(None, "s"), AuthDecision::Unauthorized));
    assert!(matches!(guard.authorize(Some("Token x"), "s"), AuthDecision::Unauthorized));
    assert!(matches!(guard.authorize(Some("Bearer garbage"), "s"), AuthDecision::Unauthorized));
}

#[test]
fn guard_admits_a_valid_token() {
    let token = create_jwt("7", "server-secret").unwrap();
    let header = format!("Bearer {}", token);
    let guard = Authentication;
    match guard.authorize(Some(&header), "server-secret") {
        AuthDecision::Authorized(claims) => assert_eq!(claims.sub, "7"),
        AuthDecision::Unauthorized => panic!("a fresh token must be admitted"),
    }
}

#[test]
fn decision_maps_the_verifier_answer() {
    let granted = decision_of(Ok(chat_core::auth::Claims { sub: "9".to_string(), exp: 1 }));
    match granted {
        AuthDecision::Authorized(c) => {
            assert_eq!(c.sub, "9");
            assert_eq!(c.exp, 1);
        },
        AuthDecision::Unauthorized => panic!("accepted claims must authorize"),
    }
    assert!(matches!(decision_of(Err(AuthError::Token)), AuthDecision::Unauthorized));
}
