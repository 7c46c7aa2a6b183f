use vstd::prelude::*;

verus! {

/// Why a registry operation failed.
#[derive(Clone, Copy, Debug, PartialEq, Eq, Structural)]
pub enum RegistryError {
    /// The request was malformed: an empty instruction, an unknown opcode, a
    /// name that is empty, longer than `MAX_NAME_LENGTH` bytes or not valid
    /// UTF-8, or an owner identity that is not exactly 32 bytes.
    InvalidInput,
    /// The external allocator rejected the slot-creation request, for
    /// example because the payer lacks funds or the slot is already in use.
    AllocationFailed,
    /// A record could not be encoded into, or decoded from, a slot buffer:
    /// the buffer is truncated, malformed, or too small for the record.
    CodecError,
}

} // verus!
