//! Answers of the account endpoint.

use vstd::prelude::*;

verus! {

/// The signed-in user.
#[derive(Clone, Debug)]
pub struct UserProfile {
    pub userId: i64,
    pub nickname: String,
}

/// The answer of the account endpoint.
#[derive(Clone, Debug)]
pub struct GetUserRes {
    pub code: i64,
    pub profile: UserProfile,
}

} // verus!
