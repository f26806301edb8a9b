//! A build-artifact cache: an action cache and a content-addressable store
//! behind one storage interface, with write-once entries.

pub mod backend;
pub mod text;
pub mod storage;
