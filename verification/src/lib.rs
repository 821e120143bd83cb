//! A small book of git identities: pairs of an email address and a name,
//! kept in order, stored as one JSON document, and applied to a repository
//! one at a time.

pub mod command;
pub mod error;
pub mod git;
pub mod identity;
pub mod index;
pub mod json;
pub mod list;
pub mod order;
pub mod render;
pub mod store;
