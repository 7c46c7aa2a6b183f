//! The name record: a binding of a human-readable name to the identity that
//! paid for its slot and the time at which it was registered.
use vstd::prelude::*;

use crate::utf8::is_utf8;
use crate::MAX_NAME_LENGTH;

verus! {

/// A registered name binding. The slot's wire format of this record is fixed
/// by `crate::codec`.
#[derive(Clone, Debug)]
pub struct NameRecord {
    /// The registered name: UTF-8 text of 1 to `MAX_NAME_LENGTH` bytes.
    pub name: Vec<u8>,
    /// The identity that paid for the slot, 32 opaque bytes, recorded
    /// verbatim at creation.
    pub owner: Vec<u8>,
    /// Wall-clock time at registration, as the execution environment gave it.
    pub created_at: i64,
}

/// A name that a record may carry: non-empty, at most `MAX_NAME_LENGTH`
/// bytes, and valid UTF-8.
pub open spec fn valid_name(name: Seq<u8>) -> bool {
    &&& 1 <= name.len() <= MAX_NAME_LENGTH
    &&& is_utf8(name)
}

impl NameRecord {
    /// A well-formed record: a valid name and a 32-byte owner identity.
    pub open spec fn valid(self) -> bool {
        &&& valid_name(self.name@)
        &&& self.owner@.len() == 32
    }
}

} // verus!
