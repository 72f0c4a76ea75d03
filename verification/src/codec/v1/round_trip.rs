use crate::codec::traits::DeserializationError;
use crate::codec::v1::format::{
    decode_opcode, decode_opcodes, decode_spec, encodable, encodable_opcode, encode_opcode,
    encode_opcodes, encode_spec, header, u16_at, u16_le, u32_at, u32_le,
};
use crate::types::opcode::{FlowOpcode, OpcodeView};
use crate::types::value::ValueView;
use vstd::prelude::*;
use vstd::utf8::encode_utf8;

verus! {

/// The four bytes of a number, read back, give the number.
proof fn lemma_u32_at_le(b: Seq<u8>, pos: int, n: u32)
    requires
        0 <= pos,
        pos + 4 <= b.len(),
        b.subrange(pos, pos + 4) == u32_le(n),
    ensures
        u32_at(b, pos) == n,
{
    let s = b.subrange(pos, pos + 4);
    assert(s[0] == b[pos] && s[1] == b[pos + 1] && s[2] == b[pos + 2] && s[3] == b[pos + 3]);
}

/// The two bytes of a number, read back, give the number.
proof fn lemma_u16_at_le(b: Seq<u8>, pos: int, n: u16)
    requires
        0 <= pos,
        pos + 2 <= b.len(),
        b.subrange(pos, pos + 2) == u16_le(n),
    ensures
        u16_at(b, pos) == n,
{
    let s = b.subrange(pos, pos + 2);
    assert(s[0] == b[pos] && s[1] == b[pos + 1]);
}

/// Where the bytes of an opcode that can be written stand in an input, that
/// opcode is read, and the reading ends where its bytes end.
pub proof fn lemma_decode_encoded_opcode(b: Seq<u8>, pos: int, op: OpcodeView)
    requires
        0 <= pos,
        encodable_opcode(op),
        pos + encode_opcode(op).len() <= b.len(),
        b.subrange(pos, pos + encode_opcode(op).len()) == encode_opcode(op),
    ensures
        decode_opcode(b, pos) == Ok::<(OpcodeView, int), DeserializationError>((op, pos + encode_opcode(op).len())),
{
    let e = encode_opcode(op);
    let s = b.subrange(pos, pos + e.len());
    assert(forall|i: int| 0 <= i < e.len() ==> b[pos + i] == #[trigger] s[i]);
    assert(s[0] == b[pos]);
    match op {
        OpcodeView::Literal(v) => {
            assert(s[1] == b[pos + 1]);
            match v {
                ValueView::UInt(n) => {
                    assert(b.subrange(pos + 2, pos + 6) =~= u32_le(n)) by {
                        assert forall|i: int| 0 <= i < 4 implies b.subrange(pos + 2, pos + 6)[i]
                            == u32_le(n)[i] by {
                            assert(b[pos + 2 + i] == s[2 + i]);
                        }
                    }
                    lemma_u32_at_le(b, pos + 2, n);
                },
                ValueView::Bool(x) => {
                    assert(s[2] == b[pos + 2]);
                },
                ValueView::String(t) => {
                    let bytes = encode_utf8(t);
                    let n = bytes.len() as u16;
                    assert(e =~= seq![1u8, 2u8] + u16_le(n) + bytes);
                    assert(b.subrange(pos + 2, pos + 4) =~= u16_le(n)) by {
                        assert forall|i: int| 0 <= i < 2 implies b.subrange(pos + 2, pos + 4)[i]
                            == u16_le(n)[i] by {
                            assert(b[pos + 2 + i] == s[2 + i]);
                        }
                    }
                    lemma_u16_at_le(b, pos + 2, n);
                    assert(b.subrange(pos + 4, pos + 4 + n) =~= bytes) by {
                        assert forall|i: int| 0 <= i < n implies b.subrange(pos + 4, pos + 4 + n)[i]
                            == bytes[i] by {
                            assert(b[pos + 4 + i] == s[4 + i]);
                        }
                    }
                    vstd::utf8::encode_utf8_valid_utf8(t);
                    vstd::utf8::encode_utf8_decode_utf8(t);
                },
                ValueView::Null => {},
            }
        },
        OpcodeView::Flow(o) => {
            assert(s[1] == b[pos + 1]);
            match o {
                FlowOpcode::Return => {},
                FlowOpcode::JumpIfFalse(a) | FlowOpcode::JumpIfTrue(a) | FlowOpcode::Jump(a)
                | FlowOpcode::Call(a) => {
                    assert(b.subrange(pos + 2, pos + 6) =~= u32_le(a)) by {
                        assert forall|i: int| 0 <= i < 4 implies b.subrange(pos + 2, pos + 6)[i]
                            == u32_le(a)[i] by {
                            assert(b[pos + 2 + i] == s[2 + i]);
                        }
                    }
                    lemma_u32_at_le(b, pos + 2, a);
                },
            }
        },
        OpcodeView::Arithmetic(_) | OpcodeView::Logic(_) | OpcodeView::Comparison(_)
        | OpcodeView::Memory(_) | OpcodeView::IO(_) => {
            assert(s[1] == b[pos + 1]);
        },
        _ => {},
    }
}

/// Where an input holds, from `pos` to its end, the bytes of a sequence of
/// opcodes that can be written, that sequence is read from `pos`.
pub proof fn lemma_decode_encoded_opcodes(b: Seq<u8>, pos: int, ops: Seq<OpcodeView>)
    requires
        0 <= pos <= b.len(),
        encodable(ops),
        b.subrange(pos, b.len() as int) == encode_opcodes(ops),
    ensures
        decode_opcodes(b, pos) == Ok::<Seq<OpcodeView>, DeserializationError>(ops),
    decreases ops.len(),
{
    if ops.len() == 0 {
        assert(b.subrange(pos, b.len() as int).len() == 0);
        assert(ops =~= Seq::empty());
    } else {
        let first = encode_opcode(ops[0]);
        let rest = encode_opcodes(ops.drop_first());
        let tail = b.subrange(pos, b.len() as int);
        assert(tail == first + rest);
        assert(first.len() >= 1);
        assert(b.subrange(pos, pos + first.len()) =~= first) by {
            assert forall|i: int| 0 <= i < first.len() implies b.subrange(pos, pos + first.len())[i]
                == first[i] by {
                assert(tail[i] == b[pos + i]);
            }
        }
        lemma_decode_encoded_opcode(b, pos, ops[0]);
        let next = pos + first.len();
        assert(b.subrange(next, b.len() as int) =~= rest) by {
            assert forall|i: int| 0 <= i < rest.len() implies b.subrange(next, b.len() as int)[i]
                == rest[i] by {
                assert(tail[first.len() + i] == b[pos + first.len() + i]);
            }
        }
        assert forall|i: int| 0 <= i < ops.drop_first().len() implies encodable_opcode(
            #[trigger] ops.drop_first()[i],
        ) by {
            assert(ops.drop_first()[i] == ops[i + 1]);
        }
        lemma_decode_encoded_opcodes(b, next, ops.drop_first());
        assert(seq![ops[0]] + ops.drop_first() =~= ops);
    }
}

/// A bytecode whose string literals are each at most 65535 bytes long is
/// read back from its own bytes unchanged.
pub proof fn lemma_round_trip(ops: Seq<OpcodeView>)
    requires
        encodable(ops),
    ensures
        decode_spec(encode_spec(ops)) == Ok::<Seq<OpcodeView>, DeserializationError>(ops),
{
    let b = encode_spec(ops);
    assert(header().len() == 5);
    assert(b.subrange(0, 4) =~= u32_le(crate::codec::metadata::MAGIC));
    assert(b[4] == 1);
    assert(b.subrange(5, b.len() as int) =~= encode_opcodes(ops));
    lemma_decode_encoded_opcodes(b, 5, ops);
}

/// The bytes of every persisted bytecode begin with the magic number,
/// `72 41 5F 76` in hexadecimal, and the version byte 1.
pub proof fn lemma_encoded_header(ops: Seq<OpcodeView>)
    ensures
        encode_spec(ops).len() >= 5,
        encode_spec(ops).subrange(0, 5) == seq![0x72u8, 0x41u8, 0x5Fu8, 0x76u8, 0x01u8],
{
    assert(header() =~= seq![0x72u8, 0x41u8, 0x5Fu8, 0x76u8, 0x01u8]);
    assert(encode_spec(ops).subrange(0, 5) =~= header());
}

} // verus!
