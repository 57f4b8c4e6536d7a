use vstd::prelude::*;

verus! {

/// Request for one user by id.
pub struct GetUserByIDReq {
    pub id: i32,
}

/// Request for several users by id.
#[derive(Debug)]
pub struct GetMultipleUsers {
    pub ids: Vec<i32>,
}

} // verus!
