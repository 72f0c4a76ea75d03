//! The data shared by every component: guest values, the opcode alphabet and
//! the bytecode container.

pub mod text;
pub mod value;
pub mod opcode;
pub mod bytecode;
pub mod ast;
pub mod arbitrary;
