use crate::codec::v1::constants;
use crate::types::opcode::{
    ArithmeticOpcode, ComparisonOpcode, FlowOpcode, IOOpcode, LogicOpcode, MemoryOpcode, Opcode,
    OpcodeView,
};
use crate::types::value::{Value, ValueView};
use vstd::prelude::*;

verus! {

/// The byte that names an opcode's category.
pub open spec fn opcode_byte(opcode: OpcodeView) -> u8 {
    match opcode {
        OpcodeView::Halt => constants::HALT,
        OpcodeView::Literal(_) => constants::LITERAL,
        OpcodeView::Arithmetic(_) => constants::ARITHMETIC,
        OpcodeView::Logic(_) => constants::LOGIC,
        OpcodeView::Comparison(_) => constants::COMPARISON,
        OpcodeView::Memory(_) => constants::MEMORY,
        OpcodeView::IO(_) => constants::IO,
        OpcodeView::Flow(_) => constants::FLOW,
        OpcodeView::Dup => constants::DUP,
        OpcodeView::Pop => constants::POP,
        OpcodeView::Swap => constants::SWAP,
    }
}

/// The byte that names a literal's variant.
pub open spec fn literal_byte(value: ValueView) -> u8 {
    match value {
        ValueView::UInt(_) => constants::LITERAL_UINT,
        ValueView::Bool(_) => constants::LITERAL_BOOL,
        ValueView::String(_) => constants::LITERAL_STRING,
        ValueView::Null => constants::LITERAL_NULL,
    }
}

/// The byte that names an arithmetic operation.
pub open spec fn arithmetic_byte(opcode: ArithmeticOpcode) -> u8 {
    match opcode {
        ArithmeticOpcode::Add => constants::ARITHMETIC_ADD,
        ArithmeticOpcode::Sub => constants::ARITHMETIC_SUB,
        ArithmeticOpcode::Mul => constants::ARITHMETIC_MUL,
        ArithmeticOpcode::Div => constants::ARITHMETIC_DIV,
    }
}

/// The byte that names a logic operation.
pub open spec fn logic_byte(opcode: LogicOpcode) -> u8 {
    match opcode {
        LogicOpcode::And => constants::LOGIC_AND,
        LogicOpcode::Or => constants::LOGIC_OR,
        LogicOpcode::Xor => constants::LOGIC_XOR,
        LogicOpcode::Not => constants::LOGIC_NOT,
    }
}

/// The byte that names a comparison.
pub open spec fn comparison_byte(opcode: ComparisonOpcode) -> u8 {
    match opcode {
        ComparisonOpcode::Eq => constants::COMPARISON_EQ,
        ComparisonOpcode::Ne => constants::COMPARISON_NE,
        ComparisonOpcode::Lt => constants::COMPARISON_LT,
        ComparisonOpcode::Le => constants::COMPARISON_LE,
        ComparisonOpcode::Gt => constants::COMPARISON_GT,
        ComparisonOpcode::Ge => constants::COMPARISON_GE,
    }
}

/// The byte that names a memory operation.
pub open spec fn memory_byte(opcode: MemoryOpcode) -> u8 {
    match opcode {
        MemoryOpcode::Load => constants::MEMORY_LOAD,
        MemoryOpcode::Store => constants::MEMORY_STORE,
    }
}

/// The byte that names an input or output operation.
pub open spec fn io_byte(opcode: IOOpcode) -> u8 {
    match opcode {
        IOOpcode::Print => constants::IO_PRINT,
        IOOpcode::Scan => constants::IO_SCAN,
    }
}

/// The byte that names a flow operation.
pub open spec fn flow_byte(opcode: FlowOpcode) -> u8 {
    match opcode {
        FlowOpcode::JumpIfFalse(_) => constants::FLOW_JUMP_IF_FALSE,
        FlowOpcode::JumpIfTrue(_) => constants::FLOW_JUMP_IF_TRUE,
        FlowOpcode::Jump(_) => constants::FLOW_JUMP,
        FlowOpcode::Call(_) => constants::FLOW_CALL,
        FlowOpcode::Return => constants::FLOW_RETURN,
    }
}

pub fn get_opcode_byte(opcode: &Opcode) -> (r: u8)
    ensures
        r == opcode_byte(opcode@),
{
    match opcode {
        Opcode::Halt => constants::HALT,
        Opcode::Literal(_) => constants::LITERAL,
        Opcode::Arithmetic(_) => constants::ARITHMETIC,
        Opcode::Logic(_) => constants::LOGIC,
        Opcode::Comparison(_) => constants::COMPARISON,
        Opcode::Memory(_) => constants::MEMORY,
        Opcode::IO(_) => constants::IO,
        Opcode::Flow(_) => constants::FLOW,
        Opcode::Dup => constants::DUP,
        Opcode::Pop => constants::POP,
        Opcode::Swap => constants::SWAP,
    }
}

pub fn get_literal_opcode_byte(value: &Value) -> (r: u8)
    ensures
        r == literal_byte(value@),
{
    match value {
        Value::UInt(_) => constants::LITERAL_UINT,
        Value::Bool(_) => constants::LITERAL_BOOL,
        Value::String(_) => constants::LITERAL_STRING,
        Value::Null => constants::LITERAL_NULL,
    }
}

pub fn get_arithmetic_opcode_byte(opcode: &ArithmeticOpcode) -> (r: u8)
    ensures
        r == arithmetic_byte(*opcode),
{
    match opcode {
        ArithmeticOpcode::Add => constants::ARITHMETIC_ADD,
        ArithmeticOpcode::Sub => constants::ARITHMETIC_SUB,
        ArithmeticOpcode::Mul => constants::ARITHMETIC_MUL,
        ArithmeticOpcode::Div => constants::ARITHMETIC_DIV,
    }
}

pub fn get_logic_opcode_byte(opcode: &LogicOpcode) -> (r: u8)
    ensures
        r == logic_byte(*opcode),
{
    match opcode {
        LogicOpcode::And => constants::LOGIC_AND,
        LogicOpcode::Or => constants::LOGIC_OR,
        LogicOpcode::Xor => constants::LOGIC_XOR,
        LogicOpcode::Not => constants::LOGIC_NOT,
    }
}

pub fn get_comparison_opcode_byte(opcode: &ComparisonOpcode) -> (r: u8)
    ensures
        r == comparison_byte(*opcode),
{
    match opcode {
        ComparisonOpcode::Eq => constants::COMPARISON_EQ,
        ComparisonOpcode::Ne => constants::COMPARISON_NE,
        ComparisonOpcode::Lt => constants::COMPARISON_LT,
        ComparisonOpcode::Le => constants::COMPARISON_LE,
        ComparisonOpcode::Gt => constants::COMPARISON_GT,
        ComparisonOpcode::Ge => constants::COMPARISON_GE,
    }
}

pub fn get_memory_opcode_byte(opcode: &MemoryOpcode) -> (r: u8)
    ensures
        r == memory_byte(*opcode),
{
    match opcode {
        MemoryOpcode::Load => constants::MEMORY_LOAD,
        MemoryOpcode::Store => constants::MEMORY_STORE,
    }
}

pub fn get_io_opcode_byte(opcode: &IOOpcode) -> (r: u8)
    ensures
        r == io_byte(*opcode),
{
    match opcode {
        IOOpcode::Print => constants::IO_PRINT,
        IOOpcode::Scan => constants::IO_SCAN,
    }
}

pub fn get_flow_opcode_byte(opcode: &FlowOpcode) -> (r: u8)
    ensures
        r == flow_byte(*opcode),
{
    match opcode {
        FlowOpcode::JumpIfFalse(_) => constants::FLOW_JUMP_IF_FALSE,
        FlowOpcode::JumpIfTrue(_) => constants::FLOW_JUMP_IF_TRUE,
        FlowOpcode::Jump(_) => constants::FLOW_JUMP,
        FlowOpcode::Call(_) => constants::FLOW_CALL,
        FlowOpcode::Return => constants::FLOW_RETURN,
    }
}

} // verus!
