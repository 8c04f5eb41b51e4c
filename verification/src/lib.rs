//! Image URL cache for a media rich-presence relay.
//!
//! The core of the crate is the artwork URL cache: given a media item
//! identifier it decides whether a previously uploaded artwork URL can be
//! reused or whether a fresh upload is needed, and it encodes the cache as a
//! JSON array so that the decision survives process restarts.

pub mod codec;
pub mod config;
pub mod entry;
pub mod resolver;
pub mod store;
pub mod strutil;
pub mod upload;
