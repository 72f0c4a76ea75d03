//! From a syntax tree to bytecode: the tree is lowered to a graph of basic
//! blocks, and the graph is flattened to a linear sequence of opcodes.

pub mod error;
pub mod types;
pub mod parse_tree;
pub mod parser;
pub mod ir;
pub mod program;
pub mod ir_builder;
pub mod layout;
pub mod ir_compiler;
pub mod resolved;
