//! The data the service answers with.

pub mod login;
pub mod playlist;
pub mod user;
