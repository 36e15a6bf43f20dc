//! An in-process view of a directory's users and groups.
//!
//! The crate parses directory entries into typed records, keeps them in
//! caches that are refreshed from search replies, turns sparse update
//! requests into minimal change lists, checks credentials against salted
//! SHA-1 password records and issues and validates short-lived bearer tokens.
//!
//! Nothing in here talks to the directory: every exchange is described as a
//! request value handed to the caller, and its outcome comes back as a reply
//! value.

pub mod text;
pub mod common;
pub mod route;
