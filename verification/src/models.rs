use vstd::prelude::*;
use crate::models::timestamp::Timestamp;

pub mod delivery_report;
pub mod gossip;
pub mod message;
pub mod profile;
pub mod timestamp;
pub mod user;
pub mod user_requests;

verus! {

/// A message row in the first layout of the `messages` table.
#[derive(Debug, Clone)]
pub struct Message {
    pub id: i32,
    pub user_id: i32,
    pub to_user_id: i32,
    pub content: String,
    pub created_at: Timestamp,
    pub updated_at: Option<Timestamp>,
    pub deleted_at: Option<Timestamp>,
}

/// A message to be inserted in the first layout of the `messages` table.
#[derive(Debug, Clone)]
pub struct CreateMessage {
    pub user_id: i32,
    pub to_user_id: i32,
    pub content: String,
}

} // verus!
