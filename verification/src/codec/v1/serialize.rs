use crate::codec::metadata::MAGIC;
use crate::codec::traits::{Serializable, SerializationError};
use crate::codec::v1::format::{
    encodable, encodable_opcode, encode_flow, encode_opcode, encode_opcodes, encode_spec,
    encode_value, header, u16_le, u32_le,
};
use crate::codec::v1::opcode::{
    get_arithmetic_opcode_byte, get_comparison_opcode_byte, get_flow_opcode_byte,
    get_io_opcode_byte, get_literal_opcode_byte, get_logic_opcode_byte, get_memory_opcode_byte,
    get_opcode_byte,
};
use crate::types::bytecode::ByteCode;
use crate::types::opcode::{FlowOpcode, Opcode, OpcodeView};
use crate::types::value::Value;
use vstd::prelude::*;

verus! {

/// The bytes of a sequence with one more opcode are the bytes of the
/// sequence, then those of the opcode.
pub proof fn lemma_encode_opcodes_push(ops: Seq<OpcodeView>, op: OpcodeView)
    ensures
        encode_opcodes(ops.push(op)) == encode_opcodes(ops) + encode_opcode(op),
    decreases ops.len(),
{
    if ops.len() == 0 {
        assert(ops.push(op).drop_first() =~= Seq::<OpcodeView>::empty());
        assert(encode_opcodes(ops.push(op).drop_first()) =~= Seq::<u8>::empty());
        assert(encode_opcodes(ops) =~= Seq::<u8>::empty());
        assert(encode_opcodes(ops.push(op)) =~= encode_opcodes(ops) + encode_opcode(op));
    } else {
        lemma_encode_opcodes_push(ops.drop_first(), op);
        assert(ops.push(op).drop_first() =~= ops.drop_first().push(op));
        assert(encode_opcodes(ops.push(op)) =~= encode_opcodes(ops) + encode_opcode(op));
    }
}

/// Appends the two bytes of `n`, least significant first.
fn push_u16_le(data: &mut Vec<u8>, n: u16)
    ensures
        final(data)@ == old(data)@ + u16_le(n),
{
    data.push((n % 256) as u8);
    data.push((n / 256) as u8);
    assert(data@ =~= old(data)@ + u16_le(n));
}

/// Appends the four bytes of `n`, least significant first.
fn push_u32_le(data: &mut Vec<u8>, n: u32)
    ensures
        final(data)@ == old(data)@ + u32_le(n),
{
    data.push((n % 256) as u8);
    data.push((n / 256 % 256) as u8);
    data.push((n / 65536 % 256) as u8);
    data.push((n / 16777216) as u8);
    assert(data@ =~= old(data)@ + u32_le(n));
}

/// Appends `bytes`.
fn push_bytes(data: &mut Vec<u8>, bytes: &[u8])
    ensures
        final(data)@ == old(data)@ + bytes@,
{
    let mut i: usize = 0;
    while i < bytes.len()
        invariant
            i <= bytes.len(),
            data@ == old(data)@ + bytes@.take(i as int),
        decreases bytes.len() - i,
    {
        data.push(bytes[i]);
        i += 1;
        assert(data@ =~= old(data)@ + bytes@.take(i as int));
    }
    assert(bytes@.take(bytes.len() as int) =~= bytes@);
}

/// Appends the bytes of a literal after the category byte, unless it is a
/// string too long to be written.
fn write_value(data: &mut Vec<u8>, value: &Value) -> (r: bool)
    ensures
        r == encodable_opcode(OpcodeView::Literal(value@)),
        r ==> final(data)@ == old(data)@ + encode_value(value@),
        !r ==> final(data)@ == old(data)@,
{
    match value {
        Value::UInt(n) => {
            data.push(get_literal_opcode_byte(value));
            push_u32_le(data, *n);
            assert(data@ =~= old(data)@ + encode_value(value@));
            true
        },
        Value::Bool(b) => {
            data.push(get_literal_opcode_byte(value));
            data.push(if *b { 1 } else { 0 });
            assert(data@ =~= old(data)@ + encode_value(value@));
            true
        },
        Value::String(s) => {
            let bytes = s.as_str().as_bytes();
            if bytes.len() > 0xffff {
                return false;
            }
            data.push(get_literal_opcode_byte(value));
            push_u16_le(data, bytes.len() as u16);
            push_bytes(data, bytes);
            assert(data@ =~= old(data)@ + encode_value(value@));
            true
        },
        Value::Null => {
            data.push(get_literal_opcode_byte(value));
            assert(data@ =~= old(data)@ + encode_value(value@));
            true
        },
    }
}

/// Appends the bytes of a flow opcode after the category byte.
fn write_flow(data: &mut Vec<u8>, flow: &FlowOpcode)
    ensures
        final(data)@ == old(data)@ + encode_flow(*flow),
{
    data.push(get_flow_opcode_byte(flow));
    match flow {
        FlowOpcode::JumpIfFalse(v) => {
            push_u32_le(data, *v);
        },
        FlowOpcode::JumpIfTrue(v) => {
            push_u32_le(data, *v);
        },
        FlowOpcode::Jump(v) => {
            push_u32_le(data, *v);
        },
        FlowOpcode::Call(v) => {
            push_u32_le(data, *v);
        },
        FlowOpcode::Return => {},
    }
    assert(data@ =~= old(data)@ + encode_flow(*flow));
}

/// Appends the bytes of one opcode, unless it cannot be written.
fn write_opcode(data: &mut Vec<u8>, opcode: &Opcode) -> (r: bool)
    ensures
        r == encodable_opcode(opcode@),
        r ==> final(data)@ == old(data)@ + encode_opcode(opcode@),
        !r ==> final(data)@ == old(data)@,
{
    match opcode {
        Opcode::Literal(value) => {
            let mut bytes: Vec<u8> = Vec::new();
            bytes.push(get_opcode_byte(opcode));
            if !write_value(&mut bytes, value) {
                return false;
            }
            push_bytes(data, bytes.as_slice());
            assert(data@ =~= old(data)@ + encode_opcode(opcode@));
        },
        Opcode::Arithmetic(arith) => {
            data.push(get_opcode_byte(opcode));
            data.push(get_arithmetic_opcode_byte(arith));
        },
        Opcode::Logic(logic) => {
            data.push(get_opcode_byte(opcode));
            data.push(get_logic_opcode_byte(logic));
        },
        Opcode::Comparison(comparison) => {
            data.push(get_opcode_byte(opcode));
            data.push(get_comparison_opcode_byte(comparison));
        },
        Opcode::Memory(memory) => {
            data.push(get_opcode_byte(opcode));
            data.push(get_memory_opcode_byte(memory));
        },
        Opcode::IO(io) => {
            data.push(get_opcode_byte(opcode));
            data.push(get_io_opcode_byte(io));
        },
        Opcode::Flow(flow) => {
            data.push(get_opcode_byte(opcode));
            write_flow(data, flow);
        },
        Opcode::Halt => {
            data.push(get_opcode_byte(opcode));
        },
        Opcode::Dup => {
            data.push(get_opcode_byte(opcode));
        },
        Opcode::Pop => {
            data.push(get_opcode_byte(opcode));
        },
        Opcode::Swap => {
            data.push(get_opcode_byte(opcode));
        },
    }
    assert(data@ =~= old(data)@ + encode_opcode(opcode@));
    true
}

/// The writer of version 1.
pub struct Serializer {
    magic_number: u32,
    version: u8,
}

impl Serializer {
    #[verifier::type_invariant]
    spec fn holds_version_one(self) -> bool {
        self.magic_number == MAGIC && self.version == 1
    }

    /// The magic number that this writer puts at the head of a file.
    pub closed spec fn magic(&self) -> u32 {
        self.magic_number
    }

    /// The version byte that this writer puts behind the magic number.
    pub closed spec fn wire_version(&self) -> u8 {
        self.version
    }

    /// The writer of version 1: it heads a file with the magic number and
    /// the version byte 1.
    pub fn new() -> (r: Self)
        ensures
            r.magic() == MAGIC,
            r.wire_version() == 1,
    {
        Self { magic_number: MAGIC, version: 1 }
    }
}

impl Serializable for Serializer {
    type Output = Result<Vec<u8>, SerializationError>;

    /// Writes the header and then every opcode. The result is the file's
    /// bytes, or `StringTooLong` with the index of the first opcode whose
    /// string literal is longer than 65535 bytes.
    fn serialize(&self, bytecode: &ByteCode) -> (r: Result<Vec<u8>, SerializationError>)
        ensures
            match r {
                Ok(data) => encodable(bytecode@) && data@ == encode_spec(bytecode@),
                Err(SerializationError::StringTooLong(i)) => {
                    &&& i < bytecode@.len()
                    &&& !encodable_opcode(bytecode@[i as int])
                    &&& forall|j: int| 0 <= j < i ==> encodable_opcode(#[trigger] bytecode@[j])
                },
                Err(SerializationError::UnsupportedVersion) => false,
            },
    {
        proof {
            use_type_invariant(self);
        }
        let mut data: Vec<u8> = Vec::new();
        push_u32_le(&mut data, self.magic_number);
        data.push(self.version);
        assert(data@ =~= header());
        let mut i: usize = 0;
        while i < bytecode.opcodes.len()
            invariant
                i <= bytecode.opcodes.len(),
                data@ == header() + encode_opcodes(bytecode@.take(i as int)),
                forall|j: int| 0 <= j < i ==> encodable_opcode(#[trigger] bytecode@[j]),
            decreases bytecode.opcodes.len() - i,
        {
            if !write_opcode(&mut data, &bytecode.opcodes[i]) {
                return Err(SerializationError::StringTooLong(i));
            }
            proof {
                lemma_encode_opcodes_push(bytecode@.take(i as int), bytecode@[i as int]);
                assert(bytecode@.take(i as int).push(bytecode@[i as int]) =~= bytecode@.take(
                    i as int + 1,
                ));
            }
            i += 1;
        }
        assert(bytecode@.take(i as int) =~= bytecode@);
        Ok(data)
    }
}

} // verus!
