use vstd::prelude::*;
use crate::errors::DbError;
use crate::errors::ServiceError;
use crate::message_handlers::hash_password_text;
use crate::message_handlers::password_digest;
use crate::message_handlers::user_handlers::opt_text;
use crate::models::user::CreateUserResponse;
use crate::models::user::User;

verus! {

/// Whether `attempt` is the password whose digest is stored (a user without
/// a stored digest counts as having the empty text stored).
pub open spec fn password_accepted(stored: Option<Seq<char>>, attempt: Seq<char>) -> bool {
    match stored {
        Some(s) => s == password_digest(attempt),
        None => Seq::<char>::empty() == password_digest(attempt),
    }
}

/// Checks a login attempt against the stored digest (see [`password_accepted`]).
pub fn password_matches(stored: &Option<String>, attempt: &str) -> (ok: bool)
    ensures
        ok == password_accepted(opt_text(*stored), attempt@),
{
    let digest = hash_password_text(attempt);
    match stored {
        Some(s) => *s == digest,
        None => String::new() == digest,
    }
}

/// The user a login lets in: of the users found by username or email, the
/// last one, where `password` is its password; `None` otherwise.
pub fn login_user(found_users: Vec<User>, password: &str) -> (user: Option<User>)
    ensures
        user is Some <==> (found_users@.len() > 0 && password_accepted(
            opt_text(found_users@.last().password),
            password@,
        )),
        user matches Some(u) ==> u == found_users@.last(),
{
    let mut found_users = found_users;
    match found_users.pop() {
        Some(user) => {
            if password_matches(&user.password, password) {
                Some(user)
            } else {
                None
            }
        },
        None => None,
    }
}

/// A text, or the empty text in place of none.
fn text_or_empty(o: &Option<String>) -> (t: String)
    ensures
        t@ == match opt_text(*o) {
            Some(s) => s,
            None => Seq::<char>::empty(),
        },
{
    match o {
        Some(s) => s.clone(),
        None => String::new(),
    }
}

/// What a client learns of the user it logged in as: id, and username,
/// email and avatar with empty texts in place of missing ones.
pub fn login_user_response(user: &User) -> (r: CreateUserResponse)
    ensures
        r.user_id == user.id,
        r.username@ == opt_text(user.username).unwrap_or(Seq::<char>::empty()),
        r.email@ == opt_text(user.email).unwrap_or(Seq::<char>::empty()),
        r.avatar@ == opt_text(user.avatar).unwrap_or(Seq::<char>::empty()),
{
    CreateUserResponse {
        user_id: user.id,
        username: text_or_empty(&user.username),
        email: text_or_empty(&user.email),
        avatar: text_or_empty(&user.avatar),
    }
}

/// The answer to a token check: valid only where the query for an
/// unexpired token with that access text succeeded and found one.
pub fn verify_token_outcome(token_exists: Result<bool, DbError>) -> (r: Result<String, ServiceError>)
    ensures
        r matches Ok(t) ==> t@ == "token is valid"@,
        r is Ok <==> token_exists == Ok::<bool, DbError>(true),
        r is Err ==> r == Err::<String, ServiceError>(ServiceError::Unauthorized),
{
    match token_exists {
        Ok(true) => Ok(String::from_str("token is valid")),
        _ => Err(ServiceError::Unauthorized),
    }
}

/// The answer to a token revocation that deleted `deleted_rows` rows:
/// success only where exactly one token went.
pub fn revoke_token_outcome(deleted_rows: usize) -> (r: Result<String, DbError>)
    ensures
        r matches Ok(t) ==> t@ == "token revoked successfully"@,
        r is Ok <==> deleted_rows == 1,
        r is Err ==> r == Err::<String, DbError>(DbError::NotFound),
{
    if deleted_rows == 1 {
        Ok(String::from_str("token revoked successfully"))
    } else {
        Err(DbError::NotFound)
    }
}

/// A user registered with a password logs in with that same password: the
/// digest stored at registration is accepted for it.
pub proof fn lemma_registered_password_accepted(password: Seq<char>)
    ensures
        password_accepted(Some(password_digest(password)), password),
{
}

} // verus!
