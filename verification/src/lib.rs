//! A minimal name-registration record store: a fixed-layout binary record
//! binding a human-readable name to an owner identity and a creation time,
//! together with the register and resolve operations over a storage slot.
use vstd::prelude::*;

pub mod codec;
pub mod errors;
pub mod instruction;
pub mod ops;
pub mod record;
pub mod utf8;

verus! {

/// Longest name, in bytes, that a record may carry.
pub const MAX_NAME_LENGTH: usize = 64;

/// Capacity of a storage slot; no encoded record may exceed it.
pub const MAX_RECORD_SIZE: usize = 256;

} // verus!
