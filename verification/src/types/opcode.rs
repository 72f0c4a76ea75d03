use crate::types::value::{Value, ValueView};
use vstd::prelude::*;

verus! {

/// The four arithmetic operations.
#[derive(Debug, Clone, Copy, PartialEq, Eq, Structural)]
pub enum ArithmeticOpcode {
    Add,
    Sub,
    Mul,
    Div,
}

/// The four operations on booleans.
#[derive(Debug, Clone, Copy, PartialEq, Eq, Structural)]
pub enum LogicOpcode {
    And,
    Xor,
    Or,
    Not,
}

/// The six comparisons.
#[derive(Debug, Clone, Copy, PartialEq, Eq, Structural)]
pub enum ComparisonOpcode {
    Eq,
    Ne,
    Lt,
    Le,
    Gt,
    Ge,
}

/// Access to the variable store; the variable's name is taken from the stack.
#[derive(Debug, Clone, Copy, PartialEq, Eq, Structural)]
pub enum MemoryOpcode {
    Load,
    Store,
}

/// Input and output.
#[derive(Debug, Clone, Copy, PartialEq, Eq, Structural)]
pub enum IOOpcode {
    Print,
    Scan,
}

/// Control flow. An address is the index of an opcode in the bytecode.
#[derive(Debug, Clone, Copy, PartialEq, Eq, Structural)]
pub enum FlowOpcode {
    JumpIfFalse(u32),
    JumpIfTrue(u32),
    Jump(u32),
    Call(u32),
    Return,
}

/// An opcode as contracts see it.
pub enum OpcodeView {
    Halt,
    Literal(ValueView),
    Arithmetic(ArithmeticOpcode),
    Logic(LogicOpcode),
    Comparison(ComparisonOpcode),
    Memory(MemoryOpcode),
    IO(IOOpcode),
    Flow(FlowOpcode),
    Dup,
    Pop,
    Swap,
}

/// One instruction of the stack machine.
#[derive(Debug, Eq)]
pub enum Opcode {
    Halt,
    Literal(Value),
    Arithmetic(ArithmeticOpcode),
    Logic(LogicOpcode),
    Comparison(ComparisonOpcode),
    Memory(MemoryOpcode),
    IO(IOOpcode),
    Flow(FlowOpcode),
    Dup,
    Pop,
    Swap,
}

impl View for Opcode {
    type V = OpcodeView;

    open spec fn view(&self) -> OpcodeView {
        match self {
            Opcode::Halt => OpcodeView::Halt,
            Opcode::Literal(v) => OpcodeView::Literal(v@),
            Opcode::Arithmetic(op) => OpcodeView::Arithmetic(*op),
            Opcode::Logic(op) => OpcodeView::Logic(*op),
            Opcode::Comparison(op) => OpcodeView::Comparison(*op),
            Opcode::Memory(op) => OpcodeView::Memory(*op),
            Opcode::IO(op) => OpcodeView::IO(*op),
            Opcode::Flow(op) => OpcodeView::Flow(*op),
            Opcode::Dup => OpcodeView::Dup,
            Opcode::Pop => OpcodeView::Pop,
            Opcode::Swap => OpcodeView::Swap,
        }
    }
}

impl Clone for Opcode {
    fn clone(&self) -> (r: Self)
        ensures
            r@ == self@,
    {
        match self {
            Opcode::Halt => Opcode::Halt,
            Opcode::Literal(v) => Opcode::Literal(v.clone()),
            Opcode::Arithmetic(op) => Opcode::Arithmetic(*op),
            Opcode::Logic(op) => Opcode::Logic(*op),
            Opcode::Comparison(op) => Opcode::Comparison(*op),
            Opcode::Memory(op) => Opcode::Memory(*op),
            Opcode::IO(op) => Opcode::IO(*op),
            Opcode::Flow(op) => Opcode::Flow(*op),
            Opcode::Dup => Opcode::Dup,
            Opcode::Pop => Opcode::Pop,
            Opcode::Swap => Opcode::Swap,
        }
    }
}

impl PartialEq for Opcode {
    fn eq(&self, other: &Self) -> (r: bool) {
        match (self, other) {
            (Opcode::Halt, Opcode::Halt) => true,
            (Opcode::Literal(a), Opcode::Literal(b)) => *a == *b,
            (Opcode::Arithmetic(a), Opcode::Arithmetic(b)) => *a == *b,
            (Opcode::Logic(a), Opcode::Logic(b)) => *a == *b,
            (Opcode::Comparison(a), Opcode::Comparison(b)) => *a == *b,
            (Opcode::Memory(a), Opcode::Memory(b)) => *a == *b,
            (Opcode::IO(a), Opcode::IO(b)) => *a == *b,
            (Opcode::Flow(a), Opcode::Flow(b)) => *a == *b,
            (Opcode::Dup, Opcode::Dup) => true,
            (Opcode::Pop, Opcode::Pop) => true,
            (Opcode::Swap, Opcode::Swap) => true,
            _ => false,
        }
    }
}

impl vstd::std_specs::cmp::PartialEqSpecImpl for Opcode {
    open spec fn obeys_eq_spec() -> bool {
        true
    }

    /// Two opcodes are equal when they are the same instruction with the
    /// same payload.
    open spec fn eq_spec(&self, other: &Self) -> bool {
        self@ == other@
    }
}

/// Whether two lists hold equal opcodes in the same order.
pub fn opcodes_eq(a: &Vec<Opcode>, b: &Vec<Opcode>) -> (r: bool)
    ensures
        r == (opcodes_view(a@) == opcodes_view(b@)),
{
    if a.len() != b.len() {
        assert(opcodes_view(a@).len() != opcodes_view(b@).len());
        return false;
    }
    let mut i: usize = 0;
    while i < a.len()
        invariant
            i <= a.len(),
            a.len() == b.len(),
            forall|j: int| 0 <= j < i ==> a[j]@ == b[j]@,
        decreases a.len() - i,
    {
        if !(a[i] == b[i]) {
            assert(opcodes_view(a@)[i as int] != opcodes_view(b@)[i as int]);
            return false;
        }
        i += 1;
    }
    assert(opcodes_view(a@) =~= opcodes_view(b@));
    true
}

/// The models of a sequence of opcodes, in order.
pub open spec fn opcodes_view(ops: Seq<Opcode>) -> Seq<OpcodeView> {
    Seq::new(ops.len(), |i: int| ops[i]@)
}

/// Copies a list of opcodes, one by one.
pub fn clone_opcodes(ops: &Vec<Opcode>) -> (r: Vec<Opcode>)
    ensures
        opcodes_view(r@) == opcodes_view(ops@),
{
    let mut out: Vec<Opcode> = Vec::new();
    let mut i: usize = 0;
    while i < ops.len()
        invariant
            i <= ops.len(),
            out.len() == i,
            forall|j: int| 0 <= j < i ==> out[j]@ == ops[j]@,
        decreases ops.len() - i,
    {
        out.push(ops[i].clone());
        i += 1;
    }
    assert(opcodes_view(out@) =~= opcodes_view(ops@));
    out
}

} // verus!
