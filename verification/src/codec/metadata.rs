use vstd::prelude::*;

verus! {

/// The number that every persisted bytecode starts with, least significant
/// byte first.
pub const MAGIC: u32 = 0x765F4172;

/// The versions of the format.
pub struct Version;

impl Version {
    pub const V1: u8 = 1;
}

/// What stands at the head of a persisted bytecode, and where its parts
/// begin.
pub struct Metadata {
    pub magic: u32,
    pub version: u8,
    pub code_offset: u32,
    pub data_offset: u32,
}

impl Metadata {
    /// The metadata of a version 1 file with the given offsets.
    pub fn new(code_offset: u32, data_offset: u32) -> (r: Self)
        ensures
            r == (Metadata { magic: MAGIC, version: Version::V1, code_offset, data_offset }),
    {
        Self { magic: MAGIC, version: Version::V1, code_offset, data_offset }
    }
}

} // verus!
