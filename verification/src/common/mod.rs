//! The directory's records, their caches and the password scheme.

pub mod config;
pub mod directory;
pub mod entry;
pub mod group;
pub mod ldap;
pub mod password;
pub mod store;
pub mod user;

pub use config::Config;
pub use ldap::Ldap;
