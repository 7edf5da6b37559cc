//! Test fixtures used within the crate and by the applications built on it.
//!
//! Not part of the public API proper; subject to change.
pub mod albums;
