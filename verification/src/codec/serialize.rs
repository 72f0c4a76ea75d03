use crate::codec::metadata::Version;
use crate::codec::traits::{Serializable, SerializationError};
use crate::codec::v1::format::{encodable, encodable_opcode, encode_spec};
use crate::codec::v1::serialize::Serializer;
use crate::types::bytecode::ByteCode;
use vstd::prelude::*;

verus! {

/// The bytes of `bytecode` in the given version of the format. Only version
/// 1 exists: for any other the result is `UnsupportedVersion`. A bytecode
/// with a string literal longer than 65535 bytes gives `StringTooLong` with
/// the index of the first such opcode.
pub fn serialize(version: u8, bytecode: &ByteCode) -> (r: Result<Vec<u8>, SerializationError>)
    ensures
        match r {
            Ok(data) => version == Version::V1 && encodable(bytecode@) && data@ == encode_spec(
                bytecode@,
            ),
            Err(SerializationError::StringTooLong(i)) => {
                &&& version == Version::V1
                &&& i < bytecode@.len()
                &&& !encodable_opcode(bytecode@[i as int])
                &&& forall|j: int| 0 <= j < i ==> encodable_opcode(#[trigger] bytecode@[j])
            },
            Err(SerializationError::UnsupportedVersion) => version != Version::V1,
        },
{
    if version == Version::V1 {
        Serializer::new().serialize(bytecode)
    } else {
        Err(SerializationError::UnsupportedVersion)
    }
}

} // verus!
