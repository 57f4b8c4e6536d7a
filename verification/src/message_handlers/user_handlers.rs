use vstd::prelude::*;
use crate::message_handlers::hash_password_text;
use crate::message_handlers::password_digest;
use crate::models::profile::CreateProfile;
use crate::models::profile::Profile;
use crate::models::user::Counters;
use crate::models::user::CreateUser;
use crate::models::user::ProfileAPI;
use crate::models::user::User;
use crate::models::user::UserAPI;
use crate::models::user::UserAPIWithoutCounters;

verus! {

/// The texts of an optional string.
pub open spec fn opt_text(o: Option<String>) -> Option<Seq<char>> {
    match o {
        Some(s) => Some(s@),
        None => None,
    }
}

/// A copy of an optional string.
fn copy_opt_text(o: &Option<String>) -> (c: Option<String>)
    ensures
        opt_text(c) == opt_text(*o),
{
    match o {
        Some(s) => Some(s.clone()),
        None => None,
    }
}

/// The registration as it is stored: the password replaced by its digest
/// (64 hex characters), the other fields as given.
pub fn hash_new_user_password(new_user: CreateUser) -> (stored: CreateUser)
    ensures
        stored.username@ == new_user.username@,
        stored.email@ == new_user.email@,
        stored.password@ == password_digest(new_user.password@),
        stored.password@.len() == 64,
{
    let mut new_user = new_user;
    new_user.password = hash_password_text(new_user.password.as_str());
    new_user
}

/// The profile created with each new user: empty status and description.
pub fn whisper_profile_for(user_id: i32) -> (p: CreateProfile)
    ensures
        p.user_id == user_id,
        p.status@ == Seq::<char>::empty(),
        p.description@ == Seq::<char>::empty(),
{
    CreateProfile {
        user_id,
        status: String::new(),
        description: String::new(),
    }
}

/// The public profile of a user from its profile rows: the first row's
/// status and description, or empty texts where the user has none.
pub open spec fn profile_api_view(profiles: Seq<Profile>) -> (Option<Seq<char>>, Option<Seq<char>>) {
    if profiles.len() > 0 {
        (opt_text(profiles[0].status), opt_text(profiles[0].description))
    } else {
        (Some(Seq::<char>::empty()), Some(Seq::<char>::empty()))
    }
}

/// The public profile of a user from its profile rows (see [`profile_api_view`]).
pub fn profile_api_of(profiles: &Vec<Profile>) -> (p: ProfileAPI)
    ensures
        (opt_text(p.status), opt_text(p.description)) == profile_api_view(profiles@),
{
    if profiles.len() > 0 {
        ProfileAPI {
            status: copy_opt_text(&profiles[0].status),
            description: copy_opt_text(&profiles[0].description),
        }
    } else {
        ProfileAPI {
            status: Some(String::new()),
            description: Some(String::new()),
        }
    }
}

/// Pairs each user with its profile rows (`grouped[i]` belongs to
/// `users[i]`), as far as both lists go, and gives each its public profile.
pub fn users_with_profiles(users: Vec<User>, grouped: Vec<Vec<Profile>>) -> (r: Vec<
    UserAPIWithoutCounters,
>)
    ensures
        r@.len() == if users@.len() <= grouped@.len() {
            users@.len()
        } else {
            grouped@.len()
        },
        forall|i: int|
            0 <= i < r@.len() ==> (#[trigger] r@[i]).user == users@[i] && (
            opt_text(r@[i].profile.status),
            opt_text(r@[i].profile.description),
            ) == profile_api_view(grouped@[i]@),
{
    let n = if users.len() <= grouped.len() {
        users.len()
    } else {
        grouped.len()
    };
    let ghost original = users@;
    let mut users = users;
    let mut r: Vec<UserAPIWithoutCounters> = Vec::new();
    let mut i: usize = 0;
    while i < n
        invariant
            n <= original.len(),
            n <= grouped@.len(),
            0 <= i <= n,
            users@ == original.subrange(i as int, original.len() as int),
            r@.len() == i,
            forall|j: int|
                0 <= j < i ==> (#[trigger] r@[j]).user == original[j] && (
                opt_text(r@[j].profile.status),
                opt_text(r@[j].profile.description),
                ) == profile_api_view(grouped@[j]@),
        decreases n - i,
    {
        let user = users.remove(0);
        let profile = profile_api_of(&grouped[i]);
        r.push(UserAPIWithoutCounters { user, profile });
        i += 1;
        assert(users@ =~= original.subrange(i as int, original.len() as int));
    }
    r
}

/// A user with its public profile and its two follower counts.
pub fn user_api(user: User, profile: ProfileAPI, following: i64, followers: i64) -> (u: UserAPI)
    ensures
        u.user == user,
        opt_text(u.profile.status) == opt_text(profile.status),
        opt_text(u.profile.description) == opt_text(profile.description),
        u.counters.feeds == following,
        u.counters.followers == followers,
{
    UserAPI { user, profile, counters: Counters { feeds: following, followers } }
}

} // verus!
