use vmo2::codec::deserialize::deserialize;
use vmo2::codec::metadata::{Metadata, Version, MAGIC};
use vmo2::codec::serialize::serialize;
use vmo2::codec::traits::{Deserializable, DeserializationError, Serializable, SerializationError};
use vmo2::codec::v1::deserialize::Deserializer;
use vmo2::codec::v1::opcode::{
    get_arithmetic_opcode_byte, get_comparison_opcode_byte, get_flow_opcode_byte,
    get_io_opcode_byte, get_literal_opcode_byte, get_logic_opcode_byte, get_memory_opcode_byte,
    get_opcode_byte,
};
use vmo2::codec::v1::serialize::Serializer;
use vmo2::types::bytecode::ByteCode;
use vmo2::types::opcode::{
    ArithmeticOpcode, ComparisonOpcode, FlowOpcode, IOOpcode, LogicOpcode, MemoryOpcode, Opcode,
};
use vmo2::types::value::Value;

const HEADER: [u8; 5] = [0x72, 0x41, 0x5F, 0x76, 0x01];

fn file(body: &[u8]) -> Vec<u8> {
    let mut v = HEADER.to_vec();
    v.extend_from_slice(body);
    v
}

#[test]
fn test_non_literal_opcodes() {
    let bytecode = ByteCode::from(vec![
        Opcode::Halt,
        Opcode::Arithmetic(ArithmeticOpcode::Add),
        Opcode::Arithmetic(ArithmeticOpcode::Sub),
        Opcode::Arithmetic(ArithmeticOpcode::Mul),
        Opcode::Arithmetic(ArithmeticOpcode::Div),
        Opcode::Logic(LogicOpcode::And),
        Opcode::Logic(LogicOpcode::Xor),
        Opcode::Logic(LogicOpcode::Or),
        Opcode::Logic(LogicOpcode::Not),
        Opcode::Comparison(ComparisonOpcode::Eq),
        Opcode::Comparison(ComparisonOpcode::Ne),
        Opcode::Comparison(ComparisonOpcode::Lt),
        Opcode::Comparison(ComparisonOpcode::Le),
        Opcode::Comparison(ComparisonOpcode::Gt),
        Opcode::Comparison(ComparisonOpcode::Ge),
        Opcode::Memory(MemoryOpcode::Load),
        Opcode::Memory(MemoryOpcode::Store),
        Opcode::IO(IOOpcode::Print),
        Opcode::IO(IOOpcode::Scan),
    ]);

    let serializer = Serializer::new();
    let data = serializer.serialize(&bytecode).unwrap();

    match deserialize(&data) {
        Ok(deserialized_bytecode) => assert_eq!(bytecode, deserialized_bytecode),
        Err(e) => panic!("failed to deserialize: {:?}", e),
    }
}

#[test]
fn test_literal_opcodes() {
    let bytecode = ByteCode::from(vec![
        Opcode::Literal(Value::Bool(true)),
        Opcode::Literal(Value::UInt(32)),
        Opcode::Literal(Value::String("abc".to_string())),
    ]);

    let data = serialize(Version::V1, &bytecode).unwrap();

    match deserialize(&data) {
        Ok(deseri) => assert_eq!(bytecode, deseri),
        Err(e) => panic!("failed to deserialize: {:?}", e),
    }
}

#[test]
fn exact_bytes() {
    let bytecode = ByteCode::from(vec![
        Opcode::Literal(Value::UInt(0x0102_0304)),
        Opcode::Literal(Value::Bool(true)),
        Opcode::Literal(Value::Bool(false)),
        Opcode::Literal(Value::String("hé".to_string())),
        Opcode::Literal(Value::Null),
        Opcode::Arithmetic(ArithmeticOpcode::Div),
        Opcode::Logic(LogicOpcode::Or),
        Opcode::Logic(LogicOpcode::Xor),
        Opcode::Comparison(ComparisonOpcode::Ge),
        Opcode::Memory(MemoryOpcode::Store),
        Opcode::IO(IOOpcode::Scan),
        Opcode::Flow(FlowOpcode::JumpIfFalse(1)),
        Opcode::Flow(FlowOpcode::JumpIfTrue(0x100)),
        Opcode::Flow(FlowOpcode::Jump(0x10000)),
        Opcode::Flow(FlowOpcode::Call(0xFFFF_FFFF)),
        Opcode::Flow(FlowOpcode::Return),
        Opcode::Dup,
        Opcode::Pop,
        Opcode::Swap,
        Opcode::Halt,
    ]);
    let expected: Vec<u8> = vec![
        0x72, 0x41, 0x5F, 0x76, 0x01, // header
        0x01, 0x00, 0x04, 0x03, 0x02, 0x01, // UInt
        0x01, 0x01, 0x01, // true
        0x01, 0x01, 0x00, // false
        0x01, 0x02, 0x03, 0x00, b'h', 0xC3, 0xA9, // "hé"
        0x01, 0x03, // Null
        0x02, 0x03, // Div
        0x03, 0x01, // Or
        0x03, 0x02, // Xor
        0x04, 0x05, // Ge
        0x05, 0x01, // Store
        0x06, 0x01, // Scan
        0x07, 0x00, 0x01, 0x00, 0x00, 0x00, // JumpIfFalse
        0x07, 0x01, 0x00, 0x01, 0x00, 0x00, // JumpIfTrue
        0x07, 0x02, 0x00, 0x00, 0x01, 0x00, // Jump
        0x07, 0x03, 0xFF, 0xFF, 0xFF, 0xFF, // Call
        0x07, 0x04, // Return
        0x08, 0x09, 0x0A, 0x00,
    ];
    let data = serialize(Version::V1, &bytecode).unwrap();
    assert_eq!(data, expected);
    assert_eq!(deserialize(&expected), Ok(bytecode));
}

#[test]
fn header_of_every_file() {
    let data = serialize(Version::V1, &ByteCode::new()).unwrap();
    assert_eq!(data, HEADER.to_vec());
    assert_eq!(MAGIC.to_le_bytes(), [0x72, 0x41, 0x5F, 0x76]);
    assert_eq!(deserialize(&data), Ok(ByteCode::new()));
}

#[test]
fn rejects_bad_magic() {
    assert_eq!(
        deserialize(&vec![0, 0, 0, 0, 1, 0]),
        Err(DeserializationError::InvalidMagic)
    );
    assert_eq!(deserialize(&vec![]), Err(DeserializationError::InvalidMagic));
    assert_eq!(
        deserialize(&vec![0x72, 0x41, 0x5F]),
        Err(DeserializationError::InvalidMagic)
    );
}

#[test]
fn rejects_bad_header() {
    assert_eq!(
        deserialize(&vec![0x72, 0x41, 0x5F, 0x76]),
        Err(DeserializationError::Truncated(4))
    );
    assert_eq!(
        deserialize(&vec![0x72, 0x41, 0x5F, 0x76, 2, 0]),
        Err(DeserializationError::UnsupportedVersion)
    );
    assert_eq!(
        deserialize(&vec![0x72, 0x41, 0x5F, 0x76, 0]),
        Err(DeserializationError::UnsupportedVersion)
    );
}

#[test]
fn rejects_truncated_string() {
    assert_eq!(
        deserialize(&file(&[0x01, 0x02, 0x05, 0x00, b'a', b'b', b'c'])),
        Err(DeserializationError::Truncated(5))
    );
}

#[test]
fn rejects_truncated_payloads() {
    assert_eq!(
        deserialize(&file(&[0x00, 0x01])),
        Err(DeserializationError::Truncated(6))
    );
    assert_eq!(
        deserialize(&file(&[0x01, 0x00, 1, 2, 3])),
        Err(DeserializationError::Truncated(5))
    );
    assert_eq!(
        deserialize(&file(&[0x01, 0x01])),
        Err(DeserializationError::Truncated(5))
    );
    assert_eq!(
        deserialize(&file(&[0x01, 0x02, 0x01])),
        Err(DeserializationError::Truncated(5))
    );
    assert_eq!(
        deserialize(&file(&[0x02])),
        Err(DeserializationError::Truncated(5))
    );
    assert_eq!(
        deserialize(&file(&[0x08, 0x07, 0x02, 0, 0, 0])),
        Err(DeserializationError::Truncated(6))
    );
    assert_eq!(
        deserialize(&file(&[0x07])),
        Err(DeserializationError::Truncated(5))
    );
}

#[test]
fn rejects_unknown_tags() {
    assert_eq!(
        deserialize(&file(&[0x00, 0x0B])),
        Err(DeserializationError::UnknownOpcode(6))
    );
    assert_eq!(
        deserialize(&file(&[0xFF])),
        Err(DeserializationError::UnknownOpcode(5))
    );
    assert_eq!(
        deserialize(&file(&[0x02, 0x04])),
        Err(DeserializationError::UnknownSubtag(5))
    );
    assert_eq!(
        deserialize(&file(&[0x03, 0x04])),
        Err(DeserializationError::UnknownSubtag(5))
    );
    assert_eq!(
        deserialize(&file(&[0x04, 0x06])),
        Err(DeserializationError::UnknownSubtag(5))
    );
    assert_eq!(
        deserialize(&file(&[0x05, 0x02])),
        Err(DeserializationError::UnknownSubtag(5))
    );
    assert_eq!(
        deserialize(&file(&[0x06, 0x02])),
        Err(DeserializationError::UnknownSubtag(5))
    );
    assert_eq!(
        deserialize(&file(&[0x07, 0x05])),
        Err(DeserializationError::UnknownSubtag(5))
    );
    assert_eq!(
        deserialize(&file(&[0x01, 0x04])),
        Err(DeserializationError::UnknownSubtag(5))
    );
    assert_eq!(
        deserialize(&file(&[0x01, 0x01, 0x02])),
        Err(DeserializationError::UnknownSubtag(5))
    );
}

#[test]
fn rejects_invalid_utf8() {
    assert_eq!(
        deserialize(&file(&[0x09, 0x01, 0x02, 0x02, 0x00, 0xC3, 0x28])),
        Err(DeserializationError::InvalidUtf8(6))
    );
}

#[test]
fn rejects_long_strings() {
    let long = "a".repeat(65536);
    let bytecode = ByteCode::from(vec![
        Opcode::Literal(Value::String("a".repeat(65535))),
        Opcode::Literal(Value::String(long)),
        Opcode::Halt,
    ]);
    assert_eq!(
        serialize(Version::V1, &bytecode),
        Err(SerializationError::StringTooLong(1))
    );
    let fits = ByteCode::from(vec![Opcode::Literal(Value::String("é".repeat(32767)))]);
    let data = serialize(Version::V1, &fits).unwrap();
    assert_eq!(data.len(), 5 + 4 + 65534);
    assert_eq!(&data[5..9], &[0x01, 0x02, 0xFE, 0xFF]);
    assert_eq!(deserialize(&data), Ok(fits));
    let too_many_bytes = ByteCode::from(vec![Opcode::Literal(Value::String("é".repeat(32768)))]);
    assert_eq!(
        serialize(Version::V1, &too_many_bytes),
        Err(SerializationError::StringTooLong(0))
    );
}

#[test]
fn rejects_unknown_version() {
    assert_eq!(
        serialize(2, &ByteCode::new()),
        Err(SerializationError::UnsupportedVersion)
    );
    assert_eq!(
        serialize(0, &ByteCode::new()),
        Err(SerializationError::UnsupportedVersion)
    );
}

#[test]
fn version_one_reader_takes_no_header() {
    let reader = Deserializer::new();
    assert_eq!(
        reader.deserialize(&vec![0x08, 0x00]),
        Ok(ByteCode::from(vec![Opcode::Dup, Opcode::Halt]))
    );
    assert_eq!(reader.deserialize(&vec![]), Ok(ByteCode::new()));
    assert_eq!(
        reader.deserialize(&vec![0x00, 0x02]),
        Err(DeserializationError::Truncated(1))
    );
}

#[test]
fn tag_bytes() {
    assert_eq!(get_opcode_byte(&Opcode::Halt), 0);
    assert_eq!(get_opcode_byte(&Opcode::Literal(Value::Null)), 1);
    assert_eq!(get_opcode_byte(&Opcode::Arithmetic(ArithmeticOpcode::Add)), 2);
    assert_eq!(get_opcode_byte(&Opcode::Logic(LogicOpcode::And)), 3);
    assert_eq!(get_opcode_byte(&Opcode::Comparison(ComparisonOpcode::Eq)), 4);
    assert_eq!(get_opcode_byte(&Opcode::Memory(MemoryOpcode::Load)), 5);
    assert_eq!(get_opcode_byte(&Opcode::IO(IOOpcode::Print)), 6);
    assert_eq!(get_opcode_byte(&Opcode::Flow(FlowOpcode::Return)), 7);
    assert_eq!(get_opcode_byte(&Opcode::Dup), 8);
    assert_eq!(get_opcode_byte(&Opcode::Pop), 9);
    assert_eq!(get_opcode_byte(&Opcode::Swap), 10);
    assert_eq!(get_literal_opcode_byte(&Value::UInt(7)), 0);
    assert_eq!(get_literal_opcode_byte(&Value::Bool(true)), 1);
    assert_eq!(get_literal_opcode_byte(&Value::String(String::new())), 2);
    assert_eq!(get_literal_opcode_byte(&Value::Null), 3);
    assert_eq!(get_arithmetic_opcode_byte(&ArithmeticOpcode::Add), 0);
    assert_eq!(get_arithmetic_opcode_byte(&ArithmeticOpcode::Sub), 1);
    assert_eq!(get_arithmetic_opcode_byte(&ArithmeticOpcode::Mul), 2);
    assert_eq!(get_arithmetic_opcode_byte(&ArithmeticOpcode::Div), 3);
    assert_eq!(get_logic_opcode_byte(&LogicOpcode::And), 0);
    assert_eq!(get_logic_opcode_byte(&LogicOpcode::Or), 1);
    assert_eq!(get_logic_opcode_byte(&LogicOpcode::Xor), 2);
    assert_eq!(get_logic_opcode_byte(&LogicOpcode::Not), 3);
    assert_eq!(get_comparison_opcode_byte(&ComparisonOpcode::Eq), 0);
    assert_eq!(get_comparison_opcode_byte(&ComparisonOpcode::Ne), 1);
    assert_eq!(get_comparison_opcode_byte(&ComparisonOpcode::Lt), 2);
    assert_eq!(get_comparison_opcode_byte(&ComparisonOpcode::Le), 3);
    assert_eq!(get_comparison_opcode_byte(&ComparisonOpcode::Gt), 4);
    assert_eq!(get_comparison_opcode_byte(&ComparisonOpcode::Ge), 5);
    assert_eq!(get_memory_opcode_byte(&MemoryOpcode::Load), 0);
    assert_eq!(get_memory_opcode_byte(&MemoryOpcode::Store), 1);
    assert_eq!(get_io_opcode_byte(&IOOpcode::Print), 0);
    assert_eq!(get_io_opcode_byte(&IOOpcode::Scan), 1);
    assert_eq!(get_flow_opcode_byte(&FlowOpcode::JumpIfFalse(0)), 0);
    assert_eq!(get_flow_opcode_byte(&FlowOpcode::JumpIfTrue(0)), 1);
    assert_eq!(get_flow_opcode_byte(&FlowOpcode::Jump(0)), 2);
    assert_eq!(get_flow_opcode_byte(&FlowOpcode::Call(0)), 3);
    assert_eq!(get_flow_opcode_byte(&FlowOpcode::Return), 4);
}

#[test]
fn metadata_of_version_one() {
    let m = Metadata::new(5, 9);
    assert_eq!(m.magic, 0x765F4172);
    assert_eq!(m.version, 1);
    assert_eq!(m.code_offset, 5);
    assert_eq!(m.data_offset, 9);
}
