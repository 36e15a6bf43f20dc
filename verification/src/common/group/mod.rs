//! Groups: the record and its parser, with what a distinguished name tells
//! of the groups above a group, and the cache.

pub mod group;
pub mod groups;

pub use group::Group;
pub use groups::Groups;
