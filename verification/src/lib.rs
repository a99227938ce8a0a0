//! Mirroring of a software-distribution tree: which artifacts of a release
//! manifest must be fetched, how the manifest is rewritten for the mirror,
//! and which local files may be reclaimed afterwards.
//!
//! The library decides and computes; it reads no file and opens no
//! connection. Its caller fetches, reads, writes and deletes, and hands the
//! library what it found.

pub mod bindings;
pub mod channel;
pub mod date;
pub mod error;
pub mod gc;
pub mod hash;
pub mod manifest;
pub mod mirror;
pub mod names;
pub mod path;
pub mod planner;
pub mod refs;
pub mod selfupdate;
pub mod text;
pub mod transfer;
pub mod tree;
