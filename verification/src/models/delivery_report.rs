use vstd::prelude::*;

verus! {

/// A client's report that the listed messages reached it.
#[derive(Debug)]
pub struct DeliveryReport {
    pub event: String,
    pub data: DeliveryReportContent,
}

/// Body of a [`DeliveryReport`]: who reports, and which message ids.
#[derive(Default, Debug, PartialEq)]
pub struct DeliveryReportContent {
    pub sender: usize,
    pub ids: Vec<i32>,
}

impl DeliveryReportContent {
    /// Replaces the claimed sender with the user id taken from the caller's token.
    pub fn set_sender_id_from_jwt(&mut self, sender_id: usize)
        ensures
            final(self).sender == sender_id,
            final(self).ids@ == old(self).ids@,
    {
        self.sender = sender_id
    }
}

/// A client's report that it has seen the deletion of the listed messages.
#[derive(Debug)]
pub struct DeliveryDeletedReport {
    pub event: String,
    pub data: DeliveryDeletedContent,
}

/// Body of a [`DeliveryDeletedReport`].
#[derive(Default, Debug, PartialEq)]
pub struct DeliveryDeletedContent {
    pub sender: usize,
    pub ids: Vec<i32>,
}

impl DeliveryDeletedContent {
    /// Replaces the claimed sender with the user id taken from the caller's token.
    pub fn set_sender_id_from_jwt(&mut self, sender_id: usize)
        ensures
            final(self).sender == sender_id,
            final(self).ids@ == old(self).ids@,
    {
        self.sender = sender_id
    }
}

} // verus!
