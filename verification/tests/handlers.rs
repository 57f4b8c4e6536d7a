use whisper::errors::DbError;
use whisper::errors::ServiceError;
use whisper::message_handlers::auth_handler::login_user;
use whisper::message_handlers::auth_handler::login_user_response;
use whisper::message_handlers::auth_handler::password_matches;
use whisper::message_handlers::auth_handler::revoke_token_outcome;
use whisper::message_handlers::auth_handler::verify_token_outcome;
use whisper::message_handlers::hash_password_text;
use whisper::message_handlers::search_handlers::username_like_pattern;
use whisper::message_handlers::user_handlers::hash_new_user_password;
use whisper::message_handlers::user_handlers::profile_api_of;
use whisper::message_handlers::user_handlers::user_api;
use whisper::message_handlers::user_handlers::users_with_profiles;
use whisper::message_handlers::user_handlers::whisper_profile_for;
use whisper::models::profile::Profile;
use whisper::models::timestamp::Timestamp;
use whisper::models::user::CreateUser;
use whisper::models::user::ProfileAPI;
use whisper::models::user::User;

const ABC_DIGEST: &str = "6437b3ac38465133ffb63b75273a8db548c558465d79db03fd359c6cd5bd9d85";

fn user(id: i32, username: Option<&str>, password: Option<String>) -> User {
    User {
        id,
        solana_pubkey: None,
        ethereum_pubkey: None,
        username: username.map(|s| s.to_string()),
        email: None,
        password,
        avatar: Some("a.png".to_string()),
        created_at: Timestamp { secs: 0, nanos: 0 },
        updated_at: None,
        deleted_at: None,
    }
}

fn profile(user_id: i32, status: Option<&str>) -> Profile {
    Profile {
        id: 1,
        user_id,
        status: status.map(|s| s.to_string()),
        description: None,
        created_at: Timestamp { secs: 0, nanos: 0 },
        updated_at: None,
        deleted_at: None,
    }
}

#[test]
fn passwords_are_stored_as_blake3_hex() {
    assert_eq!(hash_password_text("abc"), ABC_DIGEST);
    let stored = hash_new_user_password(CreateUser {
        username: "bob".to_string(),
        email: "bob@example.com".to_string(),
        password: "abc".to_string(),
    });
    assert_eq!(stored.password, ABC_DIGEST);
    assert_eq!(stored.username, "bob");
    assert_eq!(stored.email, "bob@example.com");
}

#[test]
fn registered_password_logs_in() {
    let stored = hash_new_user_password(CreateUser {
        username: "bob".to_string(),
        email: "b@e.c".to_string(),
        password: "s3cret-pass".to_string(),
    });
    assert!(password_matches(&Some(stored.password.clone()), "s3cret-pass"));
    assert!(!password_matches(&Some(stored.password), "wrong"));
    assert!(!password_matches(&None, ""));
}

#[test]
fn login_checks_the_last_user_found() {
    let found = vec![user(1, Some("a"), Some(hash_password_text("x"))), user(2, Some("b"), Some(hash_password_text("y")))];
    assert_eq!(login_user(found, "y").map(|u| u.id), Some(2));
    let found = vec![user(1, Some("a"), Some(hash_password_text("x"))), user(2, Some("b"), Some(hash_password_text("y")))];
    assert!(login_user(found, "x").is_none());
    assert!(login_user(vec![], "x").is_none());
}

#[test]
fn login_response_fills_missing_texts() {
    let r = login_user_response(&user(3, None, None));
    assert_eq!(r.user_id, 3);
    assert_eq!(r.username, "");
    assert_eq!(r.email, "");
    assert_eq!(r.avatar, "a.png");
}

#[test]
fn token_outcomes() {
    assert_eq!(verify_token_outcome(Ok(true)).ok().as_deref(), Some("token is valid"));
    assert!(matches!(verify_token_outcome(Ok(false)), Err(ServiceError::Unauthorized)));
    assert!(matches!(verify_token_outcome(Err(DbError::Other)), Err(ServiceError::Unauthorized)));
    assert_eq!(revoke_token_outcome(1).ok().as_deref(), Some("token revoked successfully"));
    assert!(matches!(revoke_token_outcome(0), Err(DbError::NotFound)));
    assert!(matches!(revoke_token_outcome(2), Err(DbError::NotFound)));
}

#[test]
fn search_pattern_wraps_username() {
    assert_eq!(username_like_pattern("bo"), "%bo%");
    assert_eq!(username_like_pattern(""), "%%");
}

#[test]
fn new_users_get_an_empty_profile() {
    let p = whisper_profile_for(12);
    assert_eq!((p.user_id, p.status.as_str(), p.description.as_str()), (12, "", ""));
}

#[test]
fn public_profile_from_rows() {
    let p = profile_api_of(&vec![profile(1, Some("busy")), profile(1, Some("later"))]);
    assert_eq!(p.status.as_deref(), Some("busy"));
    assert_eq!(p.description, None);
    let p = profile_api_of(&vec![]);
    assert_eq!(p.status.as_deref(), Some(""));
    assert_eq!(p.description.as_deref(), Some(""));
}

#[test]
fn users_are_paired_with_their_profiles() {
    let users = vec![user(1, Some("a"), None), user(2, Some("b"), None), user(3, Some("c"), None)];
    let grouped = vec![vec![profile(1, Some("here"))], vec![]];
    let r = users_with_profiles(users, grouped);
    assert_eq!(r.len(), 2);
    assert_eq!(r[0].user.id, 1);
    assert_eq!(r[0].profile.status.as_deref(), Some("here"));
    assert_eq!(r[1].user.id, 2);
    assert_eq!(r[1].profile.status.as_deref(), Some(""));
}

#[test]
fn user_with_counters() {
    let u = user_api(user(4, None, None), ProfileAPI { status: None, description: None }, 3, 5);
    assert_eq!((u.user.id, u.counters.feeds, u.counters.followers), (4, 3, 5));
}
