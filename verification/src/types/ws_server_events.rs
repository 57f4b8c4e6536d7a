use vstd::prelude::*;

verus! {

/// A client's request to delete some of its messages.
#[derive(Default, Debug, Clone, PartialEq)]
pub struct DestroyMessage {
    pub event: String,
    pub data: DestroyMessageContent,
}

/// Body of a [`DestroyMessage`]: the messages to delete.
#[derive(Default, Debug, Clone, PartialEq)]
pub struct DestroyMessageContent {
    pub messages: Vec<MobileMessage>,
}

/// A message as the mobile and web clients hold it.
#[derive(Default, Debug, Clone, PartialEq)]
pub struct MobileMessage {
    pub local_id: Option<usize>,
    pub id: usize,
    pub sender: usize,
    pub receiver: usize,
    pub content: String,
    pub created_at: Option<String>,
}

/// The event that tells a receiver which of its messages were deleted.
#[derive(Debug)]
pub struct DestroyMessageDeliveryToReceiver {
    pub event: String,
    pub data: DestroyMessageDeliveryToReceiverContent,
}

/// Body of a [`DestroyMessageDeliveryToReceiver`].
#[derive(Debug)]
pub struct DestroyMessageDeliveryToReceiverContent {
    pub message_ids: Vec<i32>,
}

} // verus!
