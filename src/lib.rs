//! Core of a similarity-search handler: locating the index header in object
//! storage, and the decisions taken around the remote index while one query
//! is answered.

pub mod error;
pub mod handler;
pub mod key;
