//! The instruction boundary: one opcode byte followed by a payload, parsed
//! into a closed enumeration of the supported operations.
use vstd::prelude::*;

use crate::errors::RegistryError;

verus! {

/// An operation the registry supports, with its typed payload.
#[derive(Clone, Debug)]
pub enum Instruction {
    /// Bind a name — the raw bytes that followed opcode 0 — to the payer.
    Register { name: Vec<u8> },
    /// Read the record held by the target slot; opcode 1's payload is
    /// ignored.
    Resolve,
}

/// Parses an instruction buffer: `[opcode, payload..]`.
///
/// Opcode 0 yields `Register` carrying the payload as the raw name; opcode
/// 1 yields `Resolve`. An empty buffer or any other opcode is rejected with
/// `InvalidInput` — before any account or slot is touched.
pub fn parse_instruction(data: &Vec<u8>) -> (r: Result<Instruction, RegistryError>)
    ensures
        match r {
            Ok(inst) => {
                &&& data@.len() >= 1
                &&& (inst matches Instruction::Register { name } ==> data@[0] == 0 && name@
                    == data@.skip(1))
                &&& (inst is Resolve ==> data@[0] == 1)
            },
            Err(e) => {
                &&& e == RegistryError::InvalidInput
                &&& (data@.len() == 0 || (data@[0] != 0 && data@[0] != 1))
            },
        },
{
    if data.len() == 0 {
        return Err(RegistryError::InvalidInput);
    }
    let opcode = data[0];
    if opcode == 0 {
        let mut name: Vec<u8> = Vec::new();
        let mut i: usize = 1;
        proof {
            assert(name@ =~= data@.subrange(1, 1));
        }
        while i < data.len()
            invariant
                1 <= i <= data@.len(),
                name@ == data@.subrange(1, i as int),
            decreases data@.len() - i,
        {
            name.push(data[i]);
            proof {
                assert(name@ =~= data@.subrange(1, i + 1));
            }
            i = i + 1;
        }
        proof {
            assert(data@.subrange(1, data@.len() as int) =~= data@.skip(1));
        }
        Ok(Instruction::Register { name })
    } else if opcode == 1 {
        Ok(Instruction::Resolve)
    } else {
        Err(RegistryError::InvalidInput)
    }
}

} // verus!
