//! The binary format in which bytecode is persisted: a header of magic
//! number and version, then the opcodes one after another.

pub mod metadata;
pub mod traits;
pub mod v1;
pub mod serialize;
pub mod deserialize;
