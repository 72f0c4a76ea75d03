use crate::codec::metadata::{Version, MAGIC};
use crate::codec::traits::DeserializationError;
use crate::codec::v1::deserialize::{decoded_view, read_opcodes, read_u32_le};
use crate::codec::v1::format::{decode_spec, u32_le};
use crate::types::bytecode::ByteCode;
use vstd::prelude::*;

verus! {

/// Reads a persisted bytecode: the header, then opcodes until the input
/// ends. The result is the bytecode, or the first reason why the input holds
/// none.
pub fn deserialize(input: &Vec<u8>) -> (r: Result<ByteCode, DeserializationError>)
    ensures
        decoded_view(r) == decode_spec(input@),
{
    if input.len() < 4 {
        return Err(DeserializationError::InvalidMagic);
    }
    let magic_number: u32 = read_u32_le(input, 0);
    assert((magic_number == MAGIC) == (input@.subrange(0, 4) == u32_le(MAGIC))) by {
        if magic_number == MAGIC {
            assert(input@.subrange(0, 4) =~= u32_le(MAGIC));
        } else {
            assert(input@.subrange(0, 4)[0] == input@[0]);
            assert(input@.subrange(0, 4)[1] == input@[1]);
            assert(input@.subrange(0, 4)[2] == input@[2]);
            assert(input@.subrange(0, 4)[3] == input@[3]);
        }
    }
    if magic_number != MAGIC {
        return Err(DeserializationError::InvalidMagic);
    }
    if input.len() < 5 {
        return Err(DeserializationError::Truncated(4));
    }
    let version: u8 = input[4];
    if version != Version::V1 {
        return Err(DeserializationError::UnsupportedVersion);
    }
    read_opcodes(input, 5)
}

} // verus!
