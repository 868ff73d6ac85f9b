//! Client-side core of a line-oriented, comma-delimited market-data feed.
//!
//! The crate holds what can be stated and proved about the feed client: how the
//! byte stream of a connection is cut into frames, how one frame is read into a
//! typed message, and which commands the client sends. Sockets, queues and the
//! reading of binary floats stay with the caller.

pub mod client;
pub mod connection_manager;
pub mod errors;
pub mod models;
pub mod outside;
pub mod split;
