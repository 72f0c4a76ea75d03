use vstd::prelude::*;

verus! {

/// Why a program could not be compiled.
#[derive(Debug, Clone, Copy, PartialEq, Eq, Structural)]
pub enum CompileError {
    /// A parse tree is not as the grammar builds it, a syntax tree holds an
    /// unknown operator, an instruction has no opcode, or an instruction was
    /// to be added where no block stands.
    MalformedAst,
    /// A call names no function, a jump names no block, or the program is too
    /// long for 32-bit addresses.
    LinkError,
}

} // verus!
