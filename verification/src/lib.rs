//! A small toolchain for a toy language: lowering of a syntax tree to a flat
//! bytecode, a binary codec for that bytecode, and the stack machine that
//! executes it. Every function states its behaviour over mathematical models
//! of the data it handles.

pub mod types;
pub mod vm;
pub mod codec;
pub mod compiler;
pub mod pipeline;
