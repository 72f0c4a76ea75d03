use crate::codec::metadata::MAGIC;
use crate::codec::traits::DeserializationError;
use crate::codec::v1::constants;
use crate::codec::v1::opcode::{
    arithmetic_byte, comparison_byte, flow_byte, io_byte, literal_byte, logic_byte, memory_byte,
    opcode_byte,
};
use crate::types::opcode::{
    ArithmeticOpcode, ComparisonOpcode, FlowOpcode, IOOpcode, LogicOpcode, MemoryOpcode,
    OpcodeView,
};
use crate::types::value::ValueView;
use vstd::prelude::*;
use vstd::utf8::{decode_utf8, encode_utf8, valid_utf8};

verus! {

/// The two bytes of a 16-bit number, least significant first.
pub open spec fn u16_le(n: u16) -> Seq<u8> {
    seq![(n % 256) as u8, (n / 256) as u8]
}

/// The four bytes of a 32-bit number, least significant first.
pub open spec fn u32_le(n: u32) -> Seq<u8> {
    seq![
        (n % 256) as u8,
        (n / 256 % 256) as u8,
        (n / 65536 % 256) as u8,
        (n / 16777216) as u8,
    ]
}

/// The 16-bit number whose bytes, least significant first, stand at `pos`.
pub open spec fn u16_at(b: Seq<u8>, pos: int) -> u16 {
    (b[pos] + b[pos + 1] * 256) as u16
}

/// The 32-bit number whose bytes, least significant first, stand at `pos`.
pub open spec fn u32_at(b: Seq<u8>, pos: int) -> u32 {
    (b[pos] + b[pos + 1] * 256 + b[pos + 2] * 65536 + b[pos + 3] * 16777216) as u32
}

/// The header of a version 1 file: the magic number, then the version.
pub open spec fn header() -> Seq<u8> {
    u32_le(MAGIC).push(1u8)
}

/// The bytes of a literal after the category byte.
pub open spec fn encode_value(v: ValueView) -> Seq<u8> {
    match v {
        ValueView::UInt(n) => seq![literal_byte(v)] + u32_le(n),
        ValueView::Bool(b) => seq![literal_byte(v), if b { 1u8 } else { 0u8 }],
        ValueView::String(s) => seq![literal_byte(v)] + u16_le(encode_utf8(s).len() as u16)
            + encode_utf8(s),
        ValueView::Null => seq![literal_byte(v)],
    }
}

/// The bytes of a flow opcode after the category byte.
pub open spec fn encode_flow(op: FlowOpcode) -> Seq<u8> {
    match op {
        FlowOpcode::JumpIfFalse(a) => seq![flow_byte(op)] + u32_le(a),
        FlowOpcode::JumpIfTrue(a) => seq![flow_byte(op)] + u32_le(a),
        FlowOpcode::Jump(a) => seq![flow_byte(op)] + u32_le(a),
        FlowOpcode::Call(a) => seq![flow_byte(op)] + u32_le(a),
        FlowOpcode::Return => seq![flow_byte(op)],
    }
}

/// The bytes of one opcode.
pub open spec fn encode_opcode(op: OpcodeView) -> Seq<u8> {
    match op {
        OpcodeView::Literal(v) => seq![opcode_byte(op)] + encode_value(v),
        OpcodeView::Arithmetic(o) => seq![opcode_byte(op), arithmetic_byte(o)],
        OpcodeView::Logic(o) => seq![opcode_byte(op), logic_byte(o)],
        OpcodeView::Comparison(o) => seq![opcode_byte(op), comparison_byte(o)],
        OpcodeView::Memory(o) => seq![opcode_byte(op), memory_byte(o)],
        OpcodeView::IO(o) => seq![opcode_byte(op), io_byte(o)],
        OpcodeView::Flow(o) => seq![opcode_byte(op)] + encode_flow(o),
        _ => seq![opcode_byte(op)],
    }
}

/// The bytes of a sequence of opcodes: those of each, in order.
pub open spec fn encode_opcodes(ops: Seq<OpcodeView>) -> Seq<u8>
    decreases ops.len(),
{
    if ops.len() == 0 {
        Seq::empty()
    } else {
        encode_opcode(ops[0]) + encode_opcodes(ops.drop_first())
    }
}

/// The bytes of a persisted bytecode: the header, then the opcodes.
pub open spec fn encode_spec(ops: Seq<OpcodeView>) -> Seq<u8> {
    header() + encode_opcodes(ops)
}

/// Whether an opcode can be written: a string literal must not be longer
/// than 65535 bytes in UTF-8.
pub open spec fn encodable_opcode(op: OpcodeView) -> bool {
    match op {
        OpcodeView::Literal(ValueView::String(s)) => encode_utf8(s).len() <= 0xffff,
        _ => true,
    }
}

/// Whether every opcode of a sequence can be written.
pub open spec fn encodable(ops: Seq<OpcodeView>) -> bool {
    forall|i: int| 0 <= i < ops.len() ==> encodable_opcode(#[trigger] ops[i])
}

/// The arithmetic operation that a byte names.
pub open spec fn arithmetic_of(sub: u8) -> Option<ArithmeticOpcode> {
    if sub == constants::ARITHMETIC_ADD {
        Some(ArithmeticOpcode::Add)
    } else if sub == constants::ARITHMETIC_SUB {
        Some(ArithmeticOpcode::Sub)
    } else if sub == constants::ARITHMETIC_MUL {
        Some(ArithmeticOpcode::Mul)
    } else if sub == constants::ARITHMETIC_DIV {
        Some(ArithmeticOpcode::Div)
    } else {
        None
    }
}

/// The logic operation that a byte names.
pub open spec fn logic_of(sub: u8) -> Option<LogicOpcode> {
    if sub == constants::LOGIC_AND {
        Some(LogicOpcode::And)
    } else if sub == constants::LOGIC_OR {
        Some(LogicOpcode::Or)
    } else if sub == constants::LOGIC_XOR {
        Some(LogicOpcode::Xor)
    } else if sub == constants::LOGIC_NOT {
        Some(LogicOpcode::Not)
    } else {
        None
    }
}

/// The comparison that a byte names.
pub open spec fn comparison_of(sub: u8) -> Option<ComparisonOpcode> {
    if sub == constants::COMPARISON_EQ {
        Some(ComparisonOpcode::Eq)
    } else if sub == constants::COMPARISON_NE {
        Some(ComparisonOpcode::Ne)
    } else if sub == constants::COMPARISON_LT {
        Some(ComparisonOpcode::Lt)
    } else if sub == constants::COMPARISON_LE {
        Some(ComparisonOpcode::Le)
    } else if sub == constants::COMPARISON_GT {
        Some(ComparisonOpcode::Gt)
    } else if sub == constants::COMPARISON_GE {
        Some(ComparisonOpcode::Ge)
    } else {
        None
    }
}

/// The memory operation that a byte names.
pub open spec fn memory_of(sub: u8) -> Option<MemoryOpcode> {
    if sub == constants::MEMORY_LOAD {
        Some(MemoryOpcode::Load)
    } else if sub == constants::MEMORY_STORE {
        Some(MemoryOpcode::Store)
    } else {
        None
    }
}

/// The input or output operation that a byte names.
pub open spec fn io_of(sub: u8) -> Option<IOOpcode> {
    if sub == constants::IO_PRINT {
        Some(IOOpcode::Print)
    } else if sub == constants::IO_SCAN {
        Some(IOOpcode::Scan)
    } else {
        None
    }
}

/// The opcode of two bytes that a category and a second byte name.
pub open spec fn simple_of(tag: u8, sub: u8) -> Option<OpcodeView> {
    if tag == constants::ARITHMETIC {
        match arithmetic_of(sub) {
            Some(o) => Some(OpcodeView::Arithmetic(o)),
            None => None,
        }
    } else if tag == constants::LOGIC {
        match logic_of(sub) {
            Some(o) => Some(OpcodeView::Logic(o)),
            None => None,
        }
    } else if tag == constants::COMPARISON {
        match comparison_of(sub) {
            Some(o) => Some(OpcodeView::Comparison(o)),
            None => None,
        }
    } else if tag == constants::MEMORY {
        match memory_of(sub) {
            Some(o) => Some(OpcodeView::Memory(o)),
            None => None,
        }
    } else if tag == constants::IO {
        match io_of(sub) {
            Some(o) => Some(OpcodeView::IO(o)),
            None => None,
        }
    } else {
        None
    }
}

/// The literal whose category byte stands at `pos`, and the offset after it.
pub open spec fn decode_literal(b: Seq<u8>, pos: int) -> Result<
    (OpcodeView, int),
    DeserializationError,
> {
    if pos + 2 > b.len() {
        Err(DeserializationError::Truncated(pos as usize))
    } else if b[pos + 1] == constants::LITERAL_UINT {
        if pos + 6 > b.len() {
            Err(DeserializationError::Truncated(pos as usize))
        } else {
            Ok((OpcodeView::Literal(ValueView::UInt(u32_at(b, pos + 2))), pos + 6))
        }
    } else if b[pos + 1] == constants::LITERAL_BOOL {
        if pos + 3 > b.len() {
            Err(DeserializationError::Truncated(pos as usize))
        } else if b[pos + 2] == 0 {
            Ok((OpcodeView::Literal(ValueView::Bool(false)), pos + 3))
        } else if b[pos + 2] == 1 {
            Ok((OpcodeView::Literal(ValueView::Bool(true)), pos + 3))
        } else {
            Err(DeserializationError::UnknownSubtag(pos as usize))
        }
    } else if b[pos + 1] == constants::LITERAL_STRING {
        if pos + 4 > b.len() {
            Err(DeserializationError::Truncated(pos as usize))
        } else if pos + 4 + u16_at(b, pos + 2) > b.len() {
            Err(DeserializationError::Truncated(pos as usize))
        } else {
            let payload = b.subrange(pos + 4, pos + 4 + u16_at(b, pos + 2));
            if valid_utf8(payload) {
                Ok(
                    (
                        OpcodeView::Literal(ValueView::String(decode_utf8(payload))),
                        pos + 4 + u16_at(b, pos + 2),
                    ),
                )
            } else {
                Err(DeserializationError::InvalidUtf8(pos as usize))
            }
        }
    } else if b[pos + 1] == constants::LITERAL_NULL {
        Ok((OpcodeView::Literal(ValueView::Null), pos + 2))
    } else {
        Err(DeserializationError::UnknownSubtag(pos as usize))
    }
}

/// The flow opcode whose category byte stands at `pos`, and the offset
/// after it.
pub open spec fn decode_flow(b: Seq<u8>, pos: int) -> Result<
    (OpcodeView, int),
    DeserializationError,
> {
    if pos + 2 > b.len() {
        Err(DeserializationError::Truncated(pos as usize))
    } else if b[pos + 1] == constants::FLOW_RETURN {
        Ok((OpcodeView::Flow(FlowOpcode::Return), pos + 2))
    } else if b[pos + 1] > constants::FLOW_RETURN {
        Err(DeserializationError::UnknownSubtag(pos as usize))
    } else if pos + 6 > b.len() {
        Err(DeserializationError::Truncated(pos as usize))
    } else {
        let a = u32_at(b, pos + 2);
        let op = if b[pos + 1] == constants::FLOW_JUMP_IF_FALSE {
            FlowOpcode::JumpIfFalse(a)
        } else if b[pos + 1] == constants::FLOW_JUMP_IF_TRUE {
            FlowOpcode::JumpIfTrue(a)
        } else if b[pos + 1] == constants::FLOW_JUMP {
            FlowOpcode::Jump(a)
        } else {
            FlowOpcode::Call(a)
        };
        Ok((OpcodeView::Flow(op), pos + 6))
    }
}

/// The opcode whose first byte stands at `pos`, and the offset after it; or
/// why there is none.
pub open spec fn decode_opcode(b: Seq<u8>, pos: int) -> Result<
    (OpcodeView, int),
    DeserializationError,
> {
    let tag = b[pos];
    if tag == constants::HALT {
        Ok((OpcodeView::Halt, pos + 1))
    } else if tag == constants::DUP {
        Ok((OpcodeView::Dup, pos + 1))
    } else if tag == constants::POP {
        Ok((OpcodeView::Pop, pos + 1))
    } else if tag == constants::SWAP {
        Ok((OpcodeView::Swap, pos + 1))
    } else if tag == constants::LITERAL {
        decode_literal(b, pos)
    } else if tag == constants::FLOW {
        decode_flow(b, pos)
    } else if tag > constants::SWAP {
        Err(DeserializationError::UnknownOpcode(pos as usize))
    } else if pos + 2 > b.len() {
        Err(DeserializationError::Truncated(pos as usize))
    } else {
        match simple_of(tag, b[pos + 1]) {
            Some(op) => Ok((op, pos + 2)),
            None => Err(DeserializationError::UnknownSubtag(pos as usize)),
        }
    }
}

/// A decoded opcode ends after the place where it begins.
pub proof fn lemma_decode_advances(b: Seq<u8>, pos: int)
    ensures
        decode_opcode(b, pos) matches Ok((_, next)) ==> next > pos,
{
}

/// `ops` before whatever `rest` holds.
pub open spec fn prepend(ops: Seq<OpcodeView>, rest: Result<Seq<OpcodeView>, DeserializationError>)
    -> Result<Seq<OpcodeView>, DeserializationError> {
    match rest {
        Ok(more) => Ok(ops + more),
        Err(e) => Err(e),
    }
}

/// The opcodes that stand from `pos` to the end of the input, or the first
/// reason why those bytes are no opcodes.
pub open spec fn decode_opcodes(b: Seq<u8>, pos: int) -> Result<
    Seq<OpcodeView>,
    DeserializationError,
>
    decreases b.len() - pos,
{
    if pos >= b.len() || pos < 0 {
        Ok(Seq::empty())
    } else {
        match decode_opcode(b, pos) {
            Ok((op, next)) => {
                proof {
                    lemma_decode_advances(b, pos);
                }
                prepend(seq![op], decode_opcodes(b, next))
            },
            Err(e) => Err(e),
        }
    }
}

/// The bytecode that the bytes of a file hold. An input that does not begin
/// with the four bytes of the magic number is `InvalidMagic`; one that ends
/// there is `Truncated`; a version byte other than 1 is `UnsupportedVersion`.
pub open spec fn decode_spec(b: Seq<u8>) -> Result<Seq<OpcodeView>, DeserializationError> {
    if b.len() < 4 || b.subrange(0, 4) != u32_le(MAGIC) {
        Err(DeserializationError::InvalidMagic)
    } else if b.len() < 5 {
        Err(DeserializationError::Truncated(4))
    } else if b[4] != 1 {
        Err(DeserializationError::UnsupportedVersion)
    } else {
        decode_opcodes(b, 5)
    }
}

} // verus!
