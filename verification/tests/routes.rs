use chat_core::auth::decode_jwt;
use chat_core::handlers::{
    like_pattern, login_attempt, register_request, register_response, store_response, u128_to_string,
    ApiError, AuthPayload, LoginOutcome, RegisterError,
};
use chat_core::models::{ChatRoom, User};
use chat_core::session::{Frame, SessionAction, WsSession};
use chat_core::ws::StoreError;

fn account(id: u128, username: &str, password: &str) -> User {
    let req = register_request(&AuthPayload {
        username: username.to_string(),
        password: password.to_string(),
    })
    .expect("hashing succeeds");
    User {
        id,
        username: req.username,
        password_hash: req.password_hash,
        created_at: 1_700_000_000,
    }
}

#[test]
fn registration_hashes_and_keeps_the_username() {
    let req = register_request(&AuthPayload {
        username: "alice".to_string(),
        password: "hunter2".to_string(),
    })
    .unwrap();
    assert_eq!(req.username, "alice");
    assert_ne!(req.password_hash, "hunter2");
    assert!(chat_core::auth::verify_password("hunter2", &req.password_hash).unwrap());
}

#[test]
fn registration_surfaces_a_store_refusal() {
    assert_eq!(register_response(Err(StoreError)), Err(RegisterError::Store));
    let created = register_response(Ok(account(3, "bob", "pw"))).unwrap();
    assert_eq!(created.id, 3);
    assert_eq!(created.username, "bob");
}

#[test]
fn login_issues_a_token_whose_subject_is_the_user_id() {
    let user = account(5, "alice", "hunter2");
    match login_attempt(Some(user), "hunter2", "server-secret") {
        LoginOutcome::Token(t) => {
            let claims = decode_jwt(&t, "server-secret").unwrap();
            assert_eq!(claims.sub, "5");
        },
        _ => panic!("matching credentials must yield a token"),
    }
}

#[test]
fn login_turns_away_bad_credentials() {
    assert!(matches!(
        login_attempt(None, "anything", "s"),
        LoginOutcome::Unauthorized
    ));
    let user = account(5, "alice", "hunter2");
    assert!(matches!(
        login_attempt(Some(user), "wrong", "s"),
        LoginOutcome::Unauthorized
    ));
    let unreadable = User {
        id: 6,
        username: "mallory".to_string(),
        password_hash: "not a hash".to_string(),
        created_at: 0,
    };
    assert!(matches!(
        login_attempt(Some(unreadable), "pw", "s"),
        LoginOutcome::Unauthorized
    ));
}

#[test]
fn decimal_rendering() {
    assert_eq!(u128_to_string(0), "0");
    assert_eq!(u128_to_string(7), "7");
    assert_eq!(u128_to_string(10), "10");
    assert_eq!(u128_to_string(409), "409");
    assert_eq!(u128_to_string(u128::MAX), "340282366920938463463374607431768211455");
}

#[test]
fn search_pattern_wraps_the_fragment() {
    assert_eq!(like_pattern("bo"), "%bo%");
    assert_eq!(like_pattern(""), "%%");
}

#[test]
fn store_backed_routes_map_errors() {
    let room = ChatRoom { id: 1, name: "general".to_string(), created_at: 0 };
    let out = store_response(Ok(room)).unwrap();
    assert_eq!(out.name, "general");
    assert_eq!(store_response::<ChatRoom>(Err(StoreError)), Err(ApiError));
}

#[test]
fn session_frames_become_actions() {
    let session = WsSession::new(100, 10);
    match session.handle_frame(Frame::Text("hi".to_string())) {
        SessionAction::Forward(m) => {
            assert_eq!(m.room_id, 10);
            assert_eq!(m.user_id, 100);
            assert_eq!(m.content, "hi");
        },
        _ => panic!("text must be forwarded"),
    }
    assert!(matches!(session.handle_frame(Frame::Close), SessionAction::CloseAndStop));
    assert!(matches!(
        session.handle_frame(Frame::ProtocolError),
        SessionAction::CloseAndStop
    ));
    assert!(matches!(session.handle_frame(Frame::Other), SessionAction::Ignore));
}

#[test]
fn session_announces_its_identity() {
    let session = WsSession::new(100, 10);
    let c = session.connect_message(4);
    assert_eq!((c.addr, c.room_id, c.user_id), (4, 10, 100));
    let d = session.disconnect_message();
    assert_eq!((d.room_id, d.user_id), (10, 100));
}
