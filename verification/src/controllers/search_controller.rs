use vstd::prelude::*;

verus! {

/// The query string of a user search: the text to look for in usernames.
pub struct SearchUsersQueryStrings {
    pub username: String,
}

} // verus!
