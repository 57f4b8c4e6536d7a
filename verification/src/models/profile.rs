use vstd::prelude::*;
use crate::models::timestamp::Timestamp;

verus! {

/// A user's public profile (a row of the `profiles` table).
#[derive(Debug, Clone)]
pub struct Profile {
    pub id: i32,
    pub user_id: i32,
    pub status: Option<String>,
    pub description: Option<String>,
    pub created_at: Timestamp,
    pub updated_at: Option<Timestamp>,
    pub deleted_at: Option<Timestamp>,
}

/// A profile to be inserted for a newly registered user.
#[derive(Debug, Clone)]
pub struct CreateProfile {
    pub user_id: i32,
    pub status: String,
    pub description: String,
}

/// Request for the profile of the user with this id.
pub struct GetUserProfile {
    pub id: usize,
}

/// Request to change the status line of the sender's profile.
#[derive(Debug)]
pub struct SetStatusRequest {
    pub sender: i32,
    pub status: String,
}

impl SetStatusRequest {
    /// Replaces the claimed sender with the user id taken from the caller's token.
    pub fn set_sender_id_from_jwt(&mut self, sender_id: i32)
        ensures
            final(self).sender == sender_id,
            final(self).status@ == old(self).status@,
    {
        self.sender = sender_id
    }
}

} // verus!
