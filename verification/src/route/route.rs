//! The answers that are built from the user behind a request.

use vstd::prelude::*;
use crate::common::user::user::User;

verus! {

/// What a caller is told of its own user.
#[derive(Debug)]
pub struct UserResponse {
    pub username: String,
    pub email: String,
}

/// The answer for the user that the guard let in: its uid and its mail
/// address.
pub fn get_user(user: &User) -> (response: UserResponse)
    ensures
        response.username@ == user@.uid,
        response.email@ == user@.mail,
{
    UserResponse { username: user.uid.clone(), email: user.mail.clone() }
}

} // verus!
