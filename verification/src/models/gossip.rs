use vstd::prelude::*;
use crate::models::timestamp::Timestamp;

verus! {

/// A user's entry in the list of conversations (a row of the `gossips` table).
#[derive(Debug, Clone)]
pub struct Gossip {
    pub id: i32,
    pub user_id: i32,
    pub kind: String,
    pub target_id: i32,
    pub last_message_id: i32,
    pub unread_messages: i32,
    pub created_at: Timestamp,
    pub updated_at: Option<Timestamp>,
}

/// A conversation entry to be inserted.
#[derive(Debug, Clone)]
pub struct CreateGossip {
    pub user_id: i32,
    pub target_id: i32,
    pub last_message_id: i32,
    pub kind: String,
}

} // verus!
