use vstd::prelude::*;
use vstd::string::StrSliceExecFns;
use crate::models::timestamp::Timestamp;

verus! {

/// A registered user (a row of the `users` table). `password` holds the
/// hex digest of the password, never the password itself.
#[derive(Debug, Clone)]
pub struct User {
    pub id: i32,
    pub solana_pubkey: Option<String>,
    pub ethereum_pubkey: Option<String>,
    pub username: Option<String>,
    pub email: Option<String>,
    pub password: Option<String>,
    pub avatar: Option<String>,
    pub created_at: Timestamp,
    pub updated_at: Option<Timestamp>,
    pub deleted_at: Option<Timestamp>,
}

/// A registration request.
#[derive(Debug)]
pub struct CreateUser {
    pub username: String,
    pub email: String,
    pub password: String,
}

/// What a client learns of a user after registration or login.
#[derive(Debug)]
pub struct CreateUserResponse {
    pub user_id: i32,
    pub username: String,
    pub email: String,
    pub avatar: String,
}

/// A user with profile and follower counters.
#[derive(Debug)]
pub struct UserAPI {
    pub user: User,
    pub profile: ProfileAPI,
    pub counters: Counters,
}

/// The public part of a profile.
#[derive(Debug, Clone)]
pub struct ProfileAPI {
    pub status: Option<String>,
    pub description: Option<String>,
}

/// How many users a user follows (`feeds`) and how many follow it.
#[derive(Debug, Clone, Copy)]
pub struct Counters {
    pub feeds: i64,
    pub followers: i64,
}

/// A user with its profile, without counters.
#[derive(Debug)]
pub struct UserAPIWithoutCounters {
    pub user: User,
    pub profile: ProfileAPI,
}

/// Request to record a new avatar address for a user.
pub struct SetAvatarRequest {
    pub user_id: i32,
    pub avatar: String,
}

/// The address of an uploaded avatar.
#[derive(Debug)]
pub struct SetAvatarResponse {
    pub avatar: String,
}

/// The fields of a registration that can fail validation.
#[derive(Debug, Clone, Copy, PartialEq, Eq, Structural)]
pub enum CreateUserField {
    Username,
    Email,
    Password,
}

/// Whether the `validator` crate accepts a text as an email address.
pub uninterp spec fn email_accepted(text: Seq<char>) -> bool;

/// Calls `validator::validate_email`. Its rules (a local part and a domain
/// checked by regular expressions, IDN domains) are the crate's; the
/// contract names the result and claims the one thing the source checks
/// first: an accepted address contains `@`.
#[verifier::external_body]
fn validate_email_text(text: &str) -> (ok: bool)
    ensures
        ok == email_accepted(text@),
        ok ==> text@.contains('@'),
{
    validator::validate_email(text)
}

/// The fields of a registration that break its rules, in field order: a
/// username of fewer than 3 characters, an address the email check
/// refuses, a password of fewer than 8 characters.
pub open spec fn invalid_fields(u: CreateUser) -> Seq<CreateUserField> {
    (if u.username@.len() < 3 {
        seq![CreateUserField::Username]
    } else {
        Seq::empty()
    }) + (if !email_accepted(u.email@) {
        seq![CreateUserField::Email]
    } else {
        Seq::empty()
    }) + (if u.password@.len() < 8 {
        seq![CreateUserField::Password]
    } else {
        Seq::empty()
    })
}

/// Each rule refuses exactly its own case, counting characters (not bytes):
/// the username is refused exactly when it has fewer than 3 characters, the
/// email exactly when the email check refuses it, the password exactly when
/// it has fewer than 8 characters; and a registration breaks no rule
/// exactly when none of these holds.
pub proof fn lemma_invalid_fields(u: CreateUser)
    ensures
        invalid_fields(u).contains(CreateUserField::Username) <==> u.username@.len() < 3,
        invalid_fields(u).contains(CreateUserField::Email) <==> !email_accepted(u.email@),
        invalid_fields(u).contains(CreateUserField::Password) <==> u.password@.len() < 8,
        invalid_fields(u).len() == 0 <==> (u.username@.len() >= 3 && email_accepted(u.email@)
            && u.password@.len() >= 8),
{
    let f = invalid_fields(u);
    let a = if u.username@.len() < 3 {
        seq![CreateUserField::Username]
    } else {
        Seq::empty()
    };
    let b = if !email_accepted(u.email@) {
        seq![CreateUserField::Email]
    } else {
        Seq::empty()
    };
    let c = if u.password@.len() < 8 {
        seq![CreateUserField::Password]
    } else {
        Seq::empty()
    };
    assert(f == a + b + c);
    assert forall|x: CreateUserField| f.contains(x) <==> (a.contains(x) || b.contains(x) || c.contains(x)) by {
        if f.contains(x) {
            let k = choose|k: int| 0 <= k < f.len() && f[k] == x;
            if k < a.len() {
                assert(a[k] == x);
            } else if k < a.len() + b.len() {
                assert(b[k - a.len()] == x);
            } else {
                assert(c[k - a.len() - b.len()] == x);
            }
        }
        if a.contains(x) {
            let k = choose|k: int| 0 <= k < a.len() && a[k] == x;
            assert(f[k] == x);
        }
        if b.contains(x) {
            let k = choose|k: int| 0 <= k < b.len() && b[k] == x;
            assert(f[a.len() + k] == x);
        }
        if c.contains(x) {
            let k = choose|k: int| 0 <= k < c.len() && c[k] == x;
            assert(f[a.len() + b.len() + k] == x);
        }
    }
    if u.username@.len() < 3 {
        assert(a[0] == CreateUserField::Username);
    }
    if !email_accepted(u.email@) {
        assert(b[0] == CreateUserField::Email);
    }
    if u.password@.len() < 8 {
        assert(c[0] == CreateUserField::Password);
    }
}

impl CreateUser {
    /// Checks a registration against its rules (see [`invalid_fields`]):
    /// `Ok` where it breaks none, else the fields that break them.
    pub fn validate(&self) -> (r: Result<(), Vec<CreateUserField>>)
        ensures
            r is Ok <==> invalid_fields(*self).len() == 0,
            r matches Err(fields) ==> fields@ == invalid_fields(*self),
            r is Ok <==> (self.username@.len() >= 3 && email_accepted(self.email@)
                && self.password@.len() >= 8),
            self.username@.len() < 3 ==> (r matches Err(f) && f@.contains(CreateUserField::Username)),
            !email_accepted(self.email@) ==> (r matches Err(f) && f@.contains(CreateUserField::Email)),
            self.password@.len() < 8 ==> (r matches Err(f) && f@.contains(CreateUserField::Password)),
    {
        proof {
            lemma_invalid_fields(*self);
        }
        let mut fields: Vec<CreateUserField> = Vec::new();
        if self.username.as_str().unicode_len() < 3 {
            fields.push(CreateUserField::Username);
        }
        if !validate_email_text(self.email.as_str()) {
            fields.push(CreateUserField::Email);
        }
        if self.password.as_str().unicode_len() < 8 {
            fields.push(CreateUserField::Password);
        }
        assert(fields@ =~= invalid_fields(*self));
        if fields.len() == 0 {
            Ok(())
        } else {
            Err(fields)
        }
    }
}

} // verus!
