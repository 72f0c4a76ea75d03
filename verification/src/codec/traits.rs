use crate::types::bytecode::ByteCode;
use vstd::prelude::*;

verus! {

/// Why a bytecode could not be written.
#[derive(Debug, Clone, Copy, PartialEq, Eq, Structural)]
pub enum SerializationError {
    /// The string literal of the opcode at this index is longer than 65535
    /// bytes.
    StringTooLong(usize),
    /// There is no format of the version asked for.
    UnsupportedVersion,
}

/// Why bytes could not be read as a bytecode. Where a variant holds a
/// number, it is the offset in the input of the first byte of the opcode that
/// could not be read.
#[derive(Debug, Clone, Copy, PartialEq, Eq, Structural)]
pub enum DeserializationError {
    /// The input does not start with the magic number.
    InvalidMagic,
    /// The version byte names no known version.
    UnsupportedVersion,
    /// The input ends before the header or the opcode does.
    Truncated(usize),
    /// The opcode's first byte names no category.
    UnknownOpcode(usize),
    /// The opcode's second byte names nothing in its category, or a boolean's
    /// byte is neither 0 nor 1.
    UnknownSubtag(usize),
    /// A string literal's bytes are not UTF-8.
    InvalidUtf8(usize),
}

/// A writer of bytecode in one version of the format.
pub trait Serializable {
    type Output;

    fn serialize(&self, bytecode: &ByteCode) -> Self::Output;
}

/// A reader of bytecode in one version of the format.
pub trait Deserializable {
    fn deserialize(&self, input: &Vec<u8>) -> Result<ByteCode, DeserializationError>;
}

} // verus!
