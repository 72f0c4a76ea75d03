//! Version 1 of the format.

pub mod constants;
pub mod opcode;
pub mod format;
pub mod round_trip;
pub mod serialize;
pub mod deserialize;
