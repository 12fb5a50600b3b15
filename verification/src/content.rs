//! Content addressed by its digest: where it lies and how it gets there.

pub mod path;
pub mod write;
