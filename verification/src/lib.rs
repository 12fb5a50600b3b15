//! The write path of a content-addressable store: digests, the canonical
//! layout of content under a cache root, and the commit protocol that only
//! indexes content whose digest and size are what the caller declared.

pub mod async_put;
pub mod content;
pub mod errors;
pub mod hasher;
pub mod hex;
pub mod index;
pub mod integrity;
pub mod put;
