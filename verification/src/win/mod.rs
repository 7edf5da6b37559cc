//! Windows CD-ROM data structures and the decisions around hardware access.
//!
//! The structures mirror those of the Windows API; the calls that fill them (handles,
//! `DeviceIoControl`) are made outside this library, which receives their bytes.
pub mod bindings;
pub mod convert;
pub mod drive;
pub mod toc;
pub mod audiocd;

use vstd::prelude::*;

verus! {

/// Max size of a windows dos-compatible path (260 ASCII chars), with room for `\\.\` and the
/// terminating null.
pub const MAX_PATH_CHARS: usize = 265;

} // verus!
