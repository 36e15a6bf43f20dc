//! Tagged, salted password records.

use vstd::prelude::*;

pub mod hash_type;
pub mod password;
pub mod ssha;

pub use password::Password;

verus! {

/// The scheme under which new passwords are recorded.
pub const DEFAULT_HASH: hash_type::Hash = hash_type::Hash::SSHA;

} // verus!
