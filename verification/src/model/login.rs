//! Answers of the QR-code login endpoints.

use vstd::prelude::*;

verus! {

/// The key that a QR-code login session is identified by.
#[derive(Clone, Debug)]
pub struct QrcodeUnikey {
    pub unikey: String,
}

/// The state of a QR-code login session.
#[derive(Clone, Debug)]
pub struct QrcodeCheck {
    pub message: String,
    pub code: i32,
}

} // verus!
