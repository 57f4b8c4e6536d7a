use vstd::prelude::*;
use crate::models::timestamp::Timestamp;

verus! {

/// A stored direct message (a row of the `messages` table).
#[derive(Debug, Clone)]
pub struct Message {
    pub id: i32,
    pub sender: i32,
    pub receiver: i32,
    pub content: String,
    pub delivered: bool,
    pub deleted_delivered: bool,
    pub created_at: Timestamp,
    pub updated_at: Option<Timestamp>,
    pub deleted_at: Option<Timestamp>,
}

/// The event that hands a reconnecting user the messages waiting for it.
#[derive(Debug)]
pub struct NewMessagesArray {
    pub event: String,
    pub data: NewMessagesArrayContent,
}

impl Default for NewMessagesArray {
    /// An empty batch under the event name `new-messages-array`.
    fn default() -> (r: NewMessagesArray)
        ensures
            r.event@ == "new-messages-array"@,
            r.data.messages@.len() == 0,
    {
        NewMessagesArray {
            event: String::from_str("new-messages-array"),
            data: NewMessagesArrayContent { messages: Vec::new() },
        }
    }
}

/// Body of a [`NewMessagesArray`].
#[derive(Debug)]
pub struct NewMessagesArrayContent {
    pub messages: Vec<Message>,
}

/// A message to be inserted: who wrote it, to whom, and its text.
#[derive(Debug, Clone)]
pub struct CreateMessage {
    pub sender: i32,
    pub receiver: i32,
    pub content: String,
}

/// The event that tells a reconnecting user which messages were deleted.
#[derive(Debug)]
pub struct NewDeletedMessagesArray {
    pub event: String,
    pub data: NewDeletedMessagesArrayContent,
}

impl Default for NewDeletedMessagesArray {
    /// An empty list under the event name `new-deleted-messages-array`.
    fn default() -> (r: NewDeletedMessagesArray)
        ensures
            r.event@ == "new-deleted-messages-array"@,
            r.data.messages_ids@.len() == 0,
    {
        NewDeletedMessagesArray {
            event: String::from_str("new-deleted-messages-array"),
            data: NewDeletedMessagesArrayContent { messages_ids: Vec::new() },
        }
    }
}

/// Body of a [`NewDeletedMessagesArray`].
#[derive(Debug)]
pub struct NewDeletedMessagesArrayContent {
    pub messages_ids: Vec<i32>,
}

} // verus!
