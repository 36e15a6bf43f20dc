//! Users: the attribute registry, the record and its parser, update
//! requests and their changes.

pub mod modify_user;
pub mod user;
pub mod user_attribute;
pub mod user_builder;
pub mod users;

pub use modify_user::ModifyUser;
pub use user::User;
pub use user_attribute::UserAttribute;
pub use user_builder::UserBuilder;
pub use users::Users;
