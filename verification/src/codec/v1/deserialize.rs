use crate::codec::traits::{Deserializable, DeserializationError};
use crate::codec::v1::constants;
use crate::codec::v1::format::{
    decode_flow, decode_literal, decode_opcode, decode_opcodes, lemma_decode_advances, prepend,
    simple_of, u16_at, u32_at,
};
use crate::types::bytecode::ByteCode;
use crate::types::opcode::{
    ArithmeticOpcode, ComparisonOpcode, FlowOpcode, IOOpcode, LogicOpcode, MemoryOpcode, Opcode,
    OpcodeView,
};
use crate::types::value::Value;
use vstd::prelude::*;
use vstd::utf8::{encode_utf8, valid_utf8};

verus! {

/// The model of what a reader returns.
pub open spec fn decoded_view(r: Result<ByteCode, DeserializationError>) -> Result<
    Seq<OpcodeView>,
    DeserializationError,
> {
    match r {
        Ok(bytecode) => Ok(bytecode@),
        Err(e) => Err(e),
    }
}

/// The model of one decoded opcode and the offset after it.
pub open spec fn decoded_one_view(r: Result<(Opcode, usize), DeserializationError>) -> Result<
    (OpcodeView, int),
    DeserializationError,
> {
    match r {
        Ok((op, next)) => Ok((op@, next as int)),
        Err(e) => Err(e),
    }
}

/// Calls `String::from_utf8`, which accepts exactly the byte strings that
/// are UTF-8 and returns the string that is made of those bytes.
#[verifier::external_body]
fn string_from_utf8(bytes: Vec<u8>) -> (r: Option<String>)
    ensures
        match r {
            Some(s) => valid_utf8(bytes@) && encode_utf8(s@) == bytes@,
            None => !valid_utf8(bytes@),
        },
{
    match String::from_utf8(bytes) {
        Ok(s) => Some(s),
        Err(_) => None,
    }
}

/// Reads the 16-bit number at `pos`.
fn read_u16_le(input: &Vec<u8>, pos: usize) -> (r: u16)
    requires
        pos + 2 <= input.len(),
    ensures
        r == u16_at(input@, pos as int),
{
    let low: u16 = input[pos] as u16;
    let high: u16 = input[pos + 1] as u16;
    low + high * 256
}

/// Reads the 32-bit number at `pos`.
pub(crate) fn read_u32_le(input: &Vec<u8>, pos: usize) -> (r: u32)
    requires
        pos + 4 <= input.len(),
    ensures
        r == u32_at(input@, pos as int),
{
    let b0: u32 = input[pos] as u32;
    let b1: u32 = input[pos + 1] as u32;
    let b2: u32 = input[pos + 2] as u32;
    let b3: u32 = input[pos + 3] as u32;
    b0 + b1 * 256 + b2 * 65536 + b3 * 16777216
}

/// Copies the bytes from `from` up to `to`.
fn copy_range(input: &Vec<u8>, from: usize, to: usize) -> (r: Vec<u8>)
    requires
        from <= to <= input.len(),
    ensures
        r@ == input@.subrange(from as int, to as int),
{
    let mut out: Vec<u8> = Vec::new();
    let mut i: usize = from;
    while i < to
        invariant
            from <= i <= to,
            to <= input.len(),
            out@ == input@.subrange(from as int, i as int),
        decreases to - i,
    {
        out.push(input[i]);
        i += 1;
        assert(out@ =~= input@.subrange(from as int, i as int));
    }
    out
}

/// Reads the literal whose category byte stands at `pos`.
fn read_literal(input: &Vec<u8>, pos: usize) -> (r: Result<(Opcode, usize), DeserializationError>)
    requires
        pos < input.len(),
    ensures
        decoded_one_view(r) == decode_literal(input@, pos as int),
{
    let left: usize = input.len() - pos;
    if left < 2 {
        return Err(DeserializationError::Truncated(pos));
    }
    let sub: u8 = input[pos + 1];
    if sub == constants::LITERAL_UINT {
        if left < 6 {
            return Err(DeserializationError::Truncated(pos));
        }
        Ok((Opcode::Literal(Value::UInt(read_u32_le(input, pos + 2))), pos + 6))
    } else if sub == constants::LITERAL_BOOL {
        if left < 3 {
            return Err(DeserializationError::Truncated(pos));
        }
        let flag: u8 = input[pos + 2];
        if flag == 0 {
            Ok((Opcode::Literal(Value::Bool(false)), pos + 3))
        } else if flag == 1 {
            Ok((Opcode::Literal(Value::Bool(true)), pos + 3))
        } else {
            Err(DeserializationError::UnknownSubtag(pos))
        }
    } else if sub == constants::LITERAL_STRING {
        if left < 4 {
            return Err(DeserializationError::Truncated(pos));
        }
        let n: usize = read_u16_le(input, pos + 2) as usize;
        if left - 4 < n {
            return Err(DeserializationError::Truncated(pos));
        }
        let payload = copy_range(input, pos + 4, pos + 4 + n);
        match string_from_utf8(payload) {
            Some(s) => {
                proof {
                    vstd::utf8::encode_utf8_decode_utf8(s@);
                }
                Ok((Opcode::Literal(Value::String(s)), pos + 4 + n))
            },
            None => Err(DeserializationError::InvalidUtf8(pos)),
        }
    } else if sub == constants::LITERAL_NULL {
        Ok((Opcode::Literal(Value::Null), pos + 2))
    } else {
        Err(DeserializationError::UnknownSubtag(pos))
    }
}

/// Reads the flow opcode whose category byte stands at `pos`.
fn read_flow(input: &Vec<u8>, pos: usize) -> (r: Result<(Opcode, usize), DeserializationError>)
    requires
        pos < input.len(),
    ensures
        decoded_one_view(r) == decode_flow(input@, pos as int),
{
    let left: usize = input.len() - pos;
    if left < 2 {
        return Err(DeserializationError::Truncated(pos));
    }
    let sub: u8 = input[pos + 1];
    if sub == constants::FLOW_RETURN {
        return Ok((Opcode::Flow(FlowOpcode::Return), pos + 2));
    }
    if sub > constants::FLOW_RETURN {
        return Err(DeserializationError::UnknownSubtag(pos));
    }
    if left < 6 {
        return Err(DeserializationError::Truncated(pos));
    }
    let address: u32 = read_u32_le(input, pos + 2);
    let flow = if sub == constants::FLOW_JUMP_IF_FALSE {
        FlowOpcode::JumpIfFalse(address)
    } else if sub == constants::FLOW_JUMP_IF_TRUE {
        FlowOpcode::JumpIfTrue(address)
    } else if sub == constants::FLOW_JUMP {
        FlowOpcode::Jump(address)
    } else {
        FlowOpcode::Call(address)
    };
    Ok((Opcode::Flow(flow), pos + 6))
}

/// The opcode of two bytes that a category and a second byte name.
fn read_simple(tag: u8, sub: u8) -> (r: Option<Opcode>)
    ensures
        match r {
            Some(op) => simple_of(tag, sub) == Some(op@),
            None => simple_of(tag, sub) is None,
        },
{
    if tag == constants::ARITHMETIC {
        if sub == constants::ARITHMETIC_ADD {
            Some(Opcode::Arithmetic(ArithmeticOpcode::Add))
        } else if sub == constants::ARITHMETIC_SUB {
            Some(Opcode::Arithmetic(ArithmeticOpcode::Sub))
        } else if sub == constants::ARITHMETIC_MUL {
            Some(Opcode::Arithmetic(ArithmeticOpcode::Mul))
        } else if sub == constants::ARITHMETIC_DIV {
            Some(Opcode::Arithmetic(ArithmeticOpcode::Div))
        } else {
            None
        }
    } else if tag == constants::LOGIC {
        if sub == constants::LOGIC_AND {
            Some(Opcode::Logic(LogicOpcode::And))
        } else if sub == constants::LOGIC_OR {
            Some(Opcode::Logic(LogicOpcode::Or))
        } else if sub == constants::LOGIC_XOR {
            Some(Opcode::Logic(LogicOpcode::Xor))
        } else if sub == constants::LOGIC_NOT {
            Some(Opcode::Logic(LogicOpcode::Not))
        } else {
            None
        }
    } else if tag == constants::COMPARISON {
        if sub == constants::COMPARISON_EQ {
            Some(Opcode::Comparison(ComparisonOpcode::Eq))
        } else if sub == constants::COMPARISON_NE {
            Some(Opcode::Comparison(ComparisonOpcode::Ne))
        } else if sub == constants::COMPARISON_LT {
            Some(Opcode::Comparison(ComparisonOpcode::Lt))
        } else if sub == constants::COMPARISON_LE {
            Some(Opcode::Comparison(ComparisonOpcode::Le))
        } else if sub == constants::COMPARISON_GT {
            Some(Opcode::Comparison(ComparisonOpcode::Gt))
        } else if sub == constants::COMPARISON_GE {
            Some(Opcode::Comparison(ComparisonOpcode::Ge))
        } else {
            None
        }
    } else if tag == constants::MEMORY {
        if sub == constants::MEMORY_LOAD {
            Some(Opcode::Memory(MemoryOpcode::Load))
        } else if sub == constants::MEMORY_STORE {
            Some(Opcode::Memory(MemoryOpcode::Store))
        } else {
            None
        }
    } else if tag == constants::IO {
        if sub == constants::IO_PRINT {
            Some(Opcode::IO(IOOpcode::Print))
        } else if sub == constants::IO_SCAN {
            Some(Opcode::IO(IOOpcode::Scan))
        } else {
            None
        }
    } else {
        None
    }
}

/// Reads the opcode whose first byte stands at `pos`.
fn read_opcode(input: &Vec<u8>, pos: usize) -> (r: Result<(Opcode, usize), DeserializationError>)
    requires
        pos < input.len(),
    ensures
        decoded_one_view(r) == decode_opcode(input@, pos as int),
{
    let tag: u8 = input[pos];
    if tag == constants::HALT {
        Ok((Opcode::Halt, pos + 1))
    } else if tag == constants::DUP {
        Ok((Opcode::Dup, pos + 1))
    } else if tag == constants::POP {
        Ok((Opcode::Pop, pos + 1))
    } else if tag == constants::SWAP {
        Ok((Opcode::Swap, pos + 1))
    } else if tag == constants::LITERAL {
        read_literal(input, pos)
    } else if tag == constants::FLOW {
        read_flow(input, pos)
    } else if tag > constants::SWAP {
        Err(DeserializationError::UnknownOpcode(pos))
    } else if input.len() - pos < 2 {
        Err(DeserializationError::Truncated(pos))
    } else {
        match read_simple(tag, input[pos + 1]) {
            Some(op) => Ok((op, pos + 2)),
            None => Err(DeserializationError::UnknownSubtag(pos)),
        }
    }
}

/// Reads the opcodes that stand from `start` to the end of the input.
pub(crate) fn read_opcodes(input: &Vec<u8>, start: usize) -> (r: Result<
    ByteCode,
    DeserializationError,
>)
    ensures
        decoded_view(r) == decode_opcodes(input@, start as int),
{
    let mut bytecode = ByteCode::new();
    let mut pos: usize = start;
    while pos < input.len()
        invariant
            decode_opcodes(input@, start as int) == prepend(
                bytecode@,
                decode_opcodes(input@, pos as int),
            ),
        decreases input.len() - pos,
    {
        proof {
            lemma_decode_advances(input@, pos as int);
        }
        match read_opcode(input, pos) {
            Ok((op, next)) => {
                let ghost before = bytecode@;
                let ghost rest = decode_opcodes(input@, next as int);
                bytecode.add_opcode(op);
                proof {
                    match rest {
                        Ok(more) => {
                            assert(before + (seq![op@] + more) =~= before.push(op@) + more);
                        },
                        Err(_) => {},
                    }
                }
                pos = next;
            },
            Err(e) => {
                return Err(e);
            },
        }
    }
    assert(bytecode@ + Seq::<OpcodeView>::empty() =~= bytecode@);
    Ok(bytecode)
}

/// The reader of version 1.
pub struct Deserializer {}

impl Deserializer {
    pub fn new() -> Self {
        Self {  }
    }
}

impl Deserializable for Deserializer {
    /// Reads opcodes, without a header, until the input ends. The result is
    /// the bytecode, or the reason why the first opcode that could not be
    /// read could not.
    fn deserialize(&self, input: &Vec<u8>) -> (r: Result<ByteCode, DeserializationError>)
        ensures
            decoded_view(r) == decode_opcodes(input@, 0),
    {
        read_opcodes(input, 0)
    }
}

} // verus!
