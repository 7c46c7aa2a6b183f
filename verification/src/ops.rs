//! The two record operations.
//!
//! `Register` is split around its one external step, slot allocation: the
//! caller first asks `plan_register` to validate the name and size the slot,
//! then has the external allocator create the slot funded by the payer, and
//! finally calls `complete_register` to build the record and write its
//! encoding into the slot. `Resolve` is `resolve_record`: it decodes the
//! slot and mutates nothing.
use vstd::prelude::*;

use crate::codec::decode;
use crate::codec::decoded;
use crate::codec::encode;
use crate::codec::lemma_round_trip_with_tail;
use crate::codec::record_bytes;
use crate::errors::RegistryError;
use crate::record::valid_name;
use crate::record::NameRecord;
use crate::utf8::check_utf8;
use crate::MAX_NAME_LENGTH;
use crate::MAX_RECORD_SIZE;

verus! {

/// Byte-for-byte copy of a buffer.
fn copy_bytes(v: &Vec<u8>) -> (r: Vec<u8>)
    ensures
        r@ == v@,
{
    let mut out: Vec<u8> = Vec::new();
    let mut i: usize = 0;
    while i < v.len()
        invariant
            i <= v@.len(),
            out@ == v@.take(i as int),
        decreases v@.len() - i,
    {
        out.push(v[i]);
        proof {
            assert(out@ =~= v@.take(i + 1));
        }
        i = i + 1;
    }
    proof {
        assert(v@.take(v@.len() as int) =~= v@);
    }
    out
}

/// Validates a registration request and sizes its slot.
///
/// Succeeds exactly on a valid name — non-empty, at most `MAX_NAME_LENGTH`
/// bytes, UTF-8 — and then asks for the full `MAX_RECORD_SIZE` bytes of
/// slot space, deliberately over-provisioning rather than sizing by the
/// name. An invalid name is rejected here, before any allocation request
/// is made.
pub fn plan_register(name: &Vec<u8>) -> (r: Result<usize, RegistryError>)
    ensures
        match r {
            Ok(space) => space == MAX_RECORD_SIZE && valid_name(name@),
            Err(e) => e == RegistryError::InvalidInput && !valid_name(name@),
        },
{
    if name.len() == 0 || name.len() > MAX_NAME_LENGTH {
        return Err(RegistryError::InvalidInput);
    }
    if !check_utf8(name) {
        return Err(RegistryError::InvalidInput);
    }
    Ok(MAX_RECORD_SIZE)
}

/// Builds the record for a freshly allocated slot and writes its encoding
/// at offset 0, leaving the rest of the slot unchanged.
///
/// The record's owner is the payer's identity, verbatim, and its timestamp
/// is the wall-clock time the caller captured at registration. Succeeds
/// exactly when the name is valid, the payer identity is 32 bytes, and the
/// slot is large enough for the encoded record; on failure the slot keeps
/// its old contents. On success the slot decodes back to exactly the
/// record that was written.
pub fn complete_register(
    slot: &mut Vec<u8>,
    name: &Vec<u8>,
    payer: &Vec<u8>,
    created_at: i64,
) -> (r: Result<NameRecord, RegistryError>)
    ensures
        match r {
            Ok(rec) => {
                &&& rec.name@ == name@
                &&& rec.owner@ == payer@
                &&& rec.created_at == created_at
                &&& rec.valid()
                &&& final(slot)@.len() == old(slot)@.len()
                &&& final(slot)@ == record_bytes(name@, payer@, created_at) + old(slot)@.skip(
                    44 + name@.len() as int,
                )
                &&& decoded(final(slot)@) == Some((name@, payer@, created_at))
            },
            Err(e) => {
                &&& final(slot)@ == old(slot)@
                &&& if !(valid_name(name@) && payer@.len() == 32) {
                    e == RegistryError::InvalidInput
                } else {
                    &&& e == RegistryError::CodecError
                    &&& old(slot)@.len() < 44 + name@.len()
                }
            },
        },
{
    let record = NameRecord {
        name: copy_bytes(name),
        owner: copy_bytes(payer),
        created_at,
    };
    let encoded = match encode(&record) {
        Ok(bytes) => bytes,
        Err(e) => {
            return Err(e);
        },
    };
    if encoded.len() > slot.len() {
        return Err(RegistryError::CodecError);
    }
    let mut filled = encoded;
    let mut i: usize = filled.len();
    let ghost enc = filled@;
    while i < slot.len()
        invariant
            enc.len() <= i <= slot@.len(),
            filled@ == enc + slot@.subrange(enc.len() as int, i as int),
        decreases slot@.len() - i,
    {
        filled.push(slot[i]);
        proof {
            assert(filled@ =~= enc + slot@.subrange(enc.len() as int, i + 1));
        }
        i = i + 1;
    }
    *slot = filled;
    proof {
        assert(slot@ =~= record_bytes(name@, payer@, created_at) + old(slot)@.skip(
            44 + name@.len() as int,
        ));
        lemma_round_trip_with_tail(
            name@,
            payer@,
            created_at,
            old(slot)@.skip(44 + name@.len() as int),
        );
    }
    Ok(record)
}

/// Reads the record held by a slot.
///
/// Decodes the slot's buffer and returns the record it holds; the slot is
/// never mutated. Fails with `CodecError` exactly when the buffer does not
/// hold a well-formed record — absent, truncated, or malformed bytes, as an
/// uninitialized slot's are.
pub fn resolve_record(slot: &Vec<u8>) -> (r: Result<NameRecord, RegistryError>)
    ensures
        match r {
            Ok(rec) => {
                &&& rec.valid()
                &&& decoded(slot@) == Some((rec.name@, rec.owner@, rec.created_at))
            },
            Err(e) => {
                &&& e == RegistryError::CodecError
                &&& decoded(slot@) is None
            },
        },
{
    decode(slot)
}

/// Owner binding: a slot that `complete_register` filled for payer `P`
/// resolves to a record whose owner is `P`, whatever name was registered,
/// whatever timestamp was captured, and whatever bytes trail the record in
/// the slot.
pub proof fn lemma_owner_binding(name: Seq<u8>, payer: Seq<u8>, created_at: i64, tail: Seq<u8>)
    requires
        valid_name(name),
        payer.len() == 32,
    ensures
        decoded(record_bytes(name, payer, created_at) + tail) matches Some(fields)
            && fields.1 == payer,
{
    lemma_round_trip_with_tail(name, payer, created_at, tail);
}

} // verus!
