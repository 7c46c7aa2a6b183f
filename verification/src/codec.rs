//! The record codec: the fixed wire format of a `NameRecord` inside a
//! storage slot, its encoder and decoder, and the laws that relate them.
//!
//! Wire format, from offset 0 of the slot buffer:
//! a 4-byte little-endian length prefix for the name, the name's UTF-8
//! bytes, the 32-byte owner identity, and the 8-byte little-endian
//! two's-complement creation timestamp. Bytes after the record are ignored
//! by the decoder, so a record may sit at the front of a larger slot.
use vstd::prelude::*;

use vstd::bytes::lemma_auto_spec_u32_to_from_le_bytes;
use vstd::bytes::lemma_auto_spec_u64_to_from_le_bytes;
use vstd::bytes::spec_u32_from_le_bytes;
use vstd::bytes::spec_u32_to_le_bytes;
use vstd::bytes::spec_u64_from_le_bytes;
use vstd::bytes::spec_u64_to_le_bytes;
use vstd::bytes::u32_from_le_bytes;
use vstd::bytes::u32_to_le_bytes;
use vstd::bytes::u64_from_le_bytes;
use vstd::bytes::u64_to_le_bytes;

use crate::errors::RegistryError;
use crate::record::valid_name;
use crate::record::NameRecord;
use crate::utf8::check_utf8;
use crate::utf8::is_utf8;
use crate::MAX_NAME_LENGTH;
use crate::MAX_RECORD_SIZE;

verus! {

/// The encoding of a record with the given fields: length-prefixed name,
/// owner identity, little-endian timestamp.
pub open spec fn record_bytes(name: Seq<u8>, owner: Seq<u8>, created_at: i64) -> Seq<u8> {
    spec_u32_to_le_bytes(name.len() as u32) + name + owner + spec_u64_to_le_bytes(
        created_at as u64,
    )
}

/// What decoding a slot buffer yields: the record's fields, or `None` when
/// the buffer is truncated, carries a length prefix outside `1..=64`, or
/// holds a name that is not UTF-8 text. Bytes beyond the encoded record are
/// ignored.
pub open spec fn decoded(bytes: Seq<u8>) -> Option<(Seq<u8>, Seq<u8>, i64)> {
    if bytes.len() < 4 {
        None
    } else {
        let n = spec_u32_from_le_bytes(bytes.take(4)) as int;
        if n < 1 || n > MAX_NAME_LENGTH {
            None
        } else if bytes.len() < 44 + n {
            None
        } else {
            let name = bytes.subrange(4, 4 + n);
            if !is_utf8(name) {
                None
            } else {
                let owner = bytes.subrange(4 + n, 36 + n);
                let created_at = spec_u64_from_le_bytes(bytes.subrange(36 + n, 44 + n)) as i64;
                Some((name, owner, created_at))
            }
        }
    }
}

/// Casting a timestamp to its unsigned bit pattern and back recovers it.
proof fn lemma_i64_cast_roundtrip(x: i64)
    ensures
        (x as u64) as i64 == x,
{
    assert((x as u64) as i64 == x) by (bit_vector);
}

/// Casting a bit pattern to a signed timestamp and back recovers it.
proof fn lemma_u64_cast_roundtrip(x: u64)
    ensures
        (x as i64) as u64 == x,
{
    assert((x as i64) as u64 == x) by (bit_vector);
}

/// Size bound: a valid record encodes to exactly 44 bytes plus its name, and
/// never to more than `MAX_RECORD_SIZE` bytes.
pub proof fn lemma_encoding_size_bound(name: Seq<u8>, owner: Seq<u8>, created_at: i64)
    requires
        1 <= name.len() <= MAX_NAME_LENGTH,
        owner.len() == 32,
    ensures
        record_bytes(name, owner, created_at).len() == 44 + name.len(),
        record_bytes(name, owner, created_at).len() <= MAX_RECORD_SIZE,
{
    lemma_auto_spec_u32_to_from_le_bytes();
    lemma_auto_spec_u64_to_from_le_bytes();
}

/// Round trip: decoding the encoding of any valid record recovers its
/// fields exactly, whatever bytes trail the record in the slot.
pub proof fn lemma_round_trip_with_tail(name: Seq<u8>, owner: Seq<u8>, created_at: i64, tail: Seq<u8>)
    requires
        valid_name(name),
        owner.len() == 32,
    ensures
        decoded(record_bytes(name, owner, created_at) + tail) == Some((name, owner, created_at)),
{
    lemma_auto_spec_u32_to_from_le_bytes();
    lemma_auto_spec_u64_to_from_le_bytes();
    let n = name.len() as int;
    let enc = record_bytes(name, owner, created_at) + tail;
    assert(enc.take(4) =~= spec_u32_to_le_bytes(name.len() as u32));
    assert(spec_u32_from_le_bytes(enc.take(4)) == name.len() as u32);
    assert(enc.subrange(4, 4 + n) =~= name);
    assert(enc.subrange(4 + n, 36 + n) =~= owner);
    assert(enc.subrange(36 + n, 44 + n) =~= spec_u64_to_le_bytes(created_at as u64));
    lemma_i64_cast_roundtrip(created_at);
}

/// Round trip: `decoded` inverts `record_bytes` on every valid record.
pub proof fn lemma_round_trip(name: Seq<u8>, owner: Seq<u8>, created_at: i64)
    requires
        valid_name(name),
        owner.len() == 32,
    ensures
        decoded(record_bytes(name, owner, created_at)) == Some((name, owner, created_at)),
{
    lemma_round_trip_with_tail(name, owner, created_at, Seq::<u8>::empty());
    assert(record_bytes(name, owner, created_at) + Seq::<u8>::empty() =~= record_bytes(
        name,
        owner,
        created_at,
    ));
}

/// Decode robustness: whatever a buffer decodes to re-encodes to exactly the
/// bytes that were read, so a successful decode never invents or loses data.
pub proof fn lemma_decoded_reencodes(bytes: Seq<u8>, name: Seq<u8>, owner: Seq<u8>, created_at: i64)
    requires
        decoded(bytes) == Some((name, owner, created_at)),
    ensures
        valid_name(name),
        owner.len() == 32,
        record_bytes(name, owner, created_at) == bytes.take(44 + name.len() as int),
{
    lemma_auto_spec_u32_to_from_le_bytes();
    lemma_auto_spec_u64_to_from_le_bytes();
    let x = spec_u32_from_le_bytes(bytes.take(4));
    let n = x as int;
    assert(name =~= bytes.subrange(4, 4 + n));
    assert(name.len() == n);
    assert(spec_u32_to_le_bytes(name.len() as u32) =~= bytes.take(4));
    let ts_bytes = bytes.subrange(36 + n, 44 + n);
    lemma_u64_cast_roundtrip(spec_u64_from_le_bytes(ts_bytes));
    assert(spec_u64_to_le_bytes(created_at as u64) =~= ts_bytes);
    assert(record_bytes(name, owner, created_at) =~= bytes.take(44 + n));
}

/// Encodes a record for storage in a slot.
///
/// Succeeds exactly on well-formed records and yields the record's wire
/// format; an empty, oversized or non-UTF-8 name, or an owner identity that
/// is not 32 bytes, is rejected before any encoding happens. The encoded
/// size is checked against `MAX_RECORD_SIZE` rather than assumed.
pub fn encode(record: &NameRecord) -> (r: Result<Vec<u8>, RegistryError>)
    ensures
        match r {
            Ok(bytes) => {
                &&& record.valid()
                &&& bytes@ == record_bytes(record.name@, record.owner@, record.created_at)
                &&& bytes@.len() == 44 + record.name@.len()
                &&& bytes@.len() <= MAX_RECORD_SIZE
            },
            Err(e) => {
                &&& e == RegistryError::InvalidInput
                &&& !record.valid()
            },
        },
{
    let n = record.name.len();
    if n == 0 || n > MAX_NAME_LENGTH {
        return Err(RegistryError::InvalidInput);
    }
    if record.owner.len() != 32 {
        return Err(RegistryError::InvalidInput);
    }
    if !check_utf8(&record.name) {
        return Err(RegistryError::InvalidInput);
    }
    proof {
        lemma_auto_spec_u32_to_from_le_bytes();
        lemma_auto_spec_u64_to_from_le_bytes();
    }
    let mut out = u32_to_le_bytes(n as u32);
    let mut i: usize = 0;
    while i < record.name.len()
        invariant
            i <= record.name@.len(),
            out@ == spec_u32_to_le_bytes(record.name@.len() as u32) + record.name@.take(i as int),
        decreases record.name@.len() - i,
    {
        out.push(record.name[i]);
        proof {
            assert(out@ =~= spec_u32_to_le_bytes(record.name@.len() as u32) + record.name@.take(
                i + 1,
            ));
        }
        i = i + 1;
    }
    proof {
        assert(record.name@.take(record.name@.len() as int) =~= record.name@);
    }
    let mut j: usize = 0;
    while j < record.owner.len()
        invariant
            j <= record.owner@.len(),
            out@ == spec_u32_to_le_bytes(record.name@.len() as u32) + record.name@
                + record.owner@.take(j as int),
        decreases record.owner@.len() - j,
    {
        out.push(record.owner[j]);
        proof {
            assert(out@ =~= spec_u32_to_le_bytes(record.name@.len() as u32) + record.name@
                + record.owner@.take(j + 1));
        }
        j = j + 1;
    }
    proof {
        assert(record.owner@.take(record.owner@.len() as int) =~= record.owner@);
    }
    let ts_pattern: u64 = #[verifier::truncate] (record.created_at as u64);
    let mut ts_bytes = u64_to_le_bytes(ts_pattern);
    out.append(&mut ts_bytes);
    proof {
        assert(out@ =~= record_bytes(record.name@, record.owner@, record.created_at));
        lemma_encoding_size_bound(record.name@, record.owner@, record.created_at);
    }
    // cannot fire once the name passed validation — the contract proves the
    // bound — but the capacity is checked rather than assumed
    if out.len() > MAX_RECORD_SIZE {
        return Err(RegistryError::CodecError);
    }
    Ok(out)
}

/// Decodes the record stored at the front of a slot buffer.
///
/// Succeeds exactly when `decoded` does — the buffer holds a complete
/// record with a name length in `1..=MAX_NAME_LENGTH` and UTF-8 name text —
/// and then returns precisely that record; every malformed buffer is
/// rejected with `CodecError`.
pub fn decode(bytes: &Vec<u8>) -> (r: Result<NameRecord, RegistryError>)
    ensures
        match r {
            Ok(rec) => {
                &&& rec.valid()
                &&& decoded(bytes@) == Some((rec.name@, rec.owner@, rec.created_at))
                &&& bytes@.len() >= 44 + rec.name@.len()
            },
            Err(e) => {
                &&& e == RegistryError::CodecError
                &&& decoded(bytes@) is None
            },
        },
{
    if bytes.len() < 4 {
        return Err(RegistryError::CodecError);
    }
    let mut len_bytes: Vec<u8> = Vec::new();
    len_bytes.push(bytes[0]);
    len_bytes.push(bytes[1]);
    len_bytes.push(bytes[2]);
    len_bytes.push(bytes[3]);
    proof {
        assert(len_bytes@ =~= bytes@.take(4));
    }
    let x = u32_from_le_bytes(len_bytes.as_slice());
    if x == 0 || x > MAX_NAME_LENGTH as u32 {
        return Err(RegistryError::CodecError);
    }
    let n = x as usize;
    if bytes.len() < 44 + n {
        return Err(RegistryError::CodecError);
    }
    let mut name: Vec<u8> = Vec::new();
    let mut i: usize = 0;
    proof {
        assert(name@ =~= bytes@.subrange(4, 4));
    }
    while i < n
        invariant
            n <= MAX_NAME_LENGTH,
            bytes@.len() >= 44 + n,
            i <= n,
            name@ == bytes@.subrange(4, 4 + i as int),
        decreases n - i,
    {
        name.push(bytes[4 + i]);
        proof {
            assert(name@ =~= bytes@.subrange(4, 4 + (i + 1)));
        }
        i = i + 1;
    }
    if !check_utf8(&name) {
        return Err(RegistryError::CodecError);
    }
    let mut owner: Vec<u8> = Vec::new();
    let mut j: usize = 0;
    proof {
        assert(owner@ =~= bytes@.subrange(4 + n as int, 4 + n as int));
    }
    while j < 32
        invariant
            n <= MAX_NAME_LENGTH,
            bytes@.len() >= 44 + n,
            j <= 32,
            owner@ == bytes@.subrange(4 + n as int, 4 + n + j),
        decreases 32 - j,
    {
        owner.push(bytes[4 + n + j]);
        proof {
            assert(owner@ =~= bytes@.subrange(4 + n as int, 4 + n + (j + 1)));
        }
        j = j + 1;
    }
    let mut ts_bytes: Vec<u8> = Vec::new();
    let mut k: usize = 0;
    proof {
        assert(ts_bytes@ =~= bytes@.subrange(36 + n as int, 36 + n as int));
    }
    while k < 8
        invariant
            n <= MAX_NAME_LENGTH,
            bytes@.len() >= 44 + n,
            k <= 8,
            ts_bytes@ == bytes@.subrange(36 + n as int, 36 + n + k),
        decreases 8 - k,
    {
        ts_bytes.push(bytes[36 + n + k]);
        proof {
            assert(ts_bytes@ =~= bytes@.subrange(36 + n as int, 36 + n + (k + 1)));
        }
        k = k + 1;
    }
    let ts_pattern = u64_from_le_bytes(ts_bytes.as_slice());
    let created_at: i64 = #[verifier::truncate] (ts_pattern as i64);
    Ok(NameRecord { name, owner, created_at })
}

} // verus!
