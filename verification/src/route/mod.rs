//! What stands between a caller and the cached records: tokens, the guard
//! that checks them, and the answers that are built from a user.

pub mod auth;
pub mod route;
