use quickcheck::{Arbitrary, Gen};
use vmo2::codec::deserialize::deserialize;
use vmo2::codec::metadata::Version;
use vmo2::codec::serialize::serialize;
use vmo2::types::arbitrary::OpcodeDraw;
use vmo2::types::ast::Ast;
use vmo2::types::bytecode::ByteCode;
use vmo2::types::opcode::{
    ArithmeticOpcode, ComparisonOpcode, FlowOpcode, IOOpcode, LogicOpcode, MemoryOpcode, Opcode,
};
use vmo2::types::value::Value;

#[derive(Clone, Debug)]
struct AnyByteCode(ByteCode);

impl Arbitrary for AnyByteCode {
    fn arbitrary(g: &mut Gen) -> Self {
        AnyByteCode(ByteCode::arbitrary(g))
    }
}

#[derive(Clone, Debug)]
struct AnyOpcode(Opcode);

impl Arbitrary for AnyOpcode {
    fn arbitrary(g: &mut Gen) -> Self {
        AnyOpcode(Opcode::arbitrary(g))
    }
}

fn round_trips(bytecode: AnyByteCode) -> bool {
    let data = match serialize(Version::V1, &bytecode.0) {
        Ok(data) => data,
        Err(_) => return false,
    };
    if let Ok(deser) = deserialize(&data) {
        bytecode.0 == deser
    } else {
        false
    }
}

fn ends_in_halt(bytecode: AnyByteCode) -> bool {
    let opcodes = &bytecode.0.opcodes;
    !opcodes.is_empty() && opcodes.len() <= 256 && opcodes.last() == Some(&Opcode::Halt)
}

fn opcode_round_trips(opcode: AnyOpcode) -> bool {
    let bytecode = ByteCode::from(vec![opcode.0]);
    match serialize(Version::V1, &bytecode) {
        Ok(data) => {
            data.starts_with(&[0x72, 0x41, 0x5F, 0x76, 0x01]) && deserialize(&data) == Ok(bytecode)
        }
        Err(_) => false,
    }
}

#[test]
fn test_quickcheck_v1() {
    quickcheck::quickcheck(round_trips as fn(AnyByteCode) -> bool);
}

#[test]
fn bytecode_arbitrary_property() {
    quickcheck::quickcheck(ends_in_halt as fn(AnyByteCode) -> bool);
}

#[test]
fn opcode_arbitrary_property() {
    quickcheck::quickcheck(opcode_round_trips as fn(AnyOpcode) -> bool);
}

#[test]
fn generators_need_a_size() {
    let mut empty = Gen::new(0);
    assert_eq!(ByteCode::try_arbitrary(&mut empty), None);
    assert_eq!(Ast::try_arbitrary(&mut empty), None);
    let mut g = Gen::new(10);
    let bytecode = ByteCode::try_arbitrary(&mut g).unwrap();
    assert_eq!(bytecode.opcodes.last(), Some(&Opcode::Halt));
    let ast = Ast::arbitrary(&mut g);
    assert_eq!(ast.opcodes.last(), Some(&Opcode::Halt));
    assert!(ast.opcodes.len() <= 256);
}

#[test]
fn every_variant_is_generated() {
    let mut g = Gen::new(10);
    let mut values = [false; 4];
    let mut flows = [false; 5];
    let mut arithmetic = [false; 4];
    let mut logic = [false; 4];
    let mut comparison = [false; 6];
    let mut memory = [false; 2];
    let mut io = [false; 2];
    for _ in 0..2000 {
        match Value::arbitrary(&mut g) {
            Value::UInt(_) => values[0] = true,
            Value::Bool(_) => values[1] = true,
            Value::String(_) => values[2] = true,
            Value::Null => values[3] = true,
        }
        match FlowOpcode::arbitrary(&mut g) {
            FlowOpcode::JumpIfFalse(_) => flows[0] = true,
            FlowOpcode::JumpIfTrue(_) => flows[1] = true,
            FlowOpcode::Jump(_) => flows[2] = true,
            FlowOpcode::Call(_) => flows[3] = true,
            FlowOpcode::Return => flows[4] = true,
        }
        match ArithmeticOpcode::arbitrary(&mut g) {
            ArithmeticOpcode::Add => arithmetic[0] = true,
            ArithmeticOpcode::Sub => arithmetic[1] = true,
            ArithmeticOpcode::Mul => arithmetic[2] = true,
            ArithmeticOpcode::Div => arithmetic[3] = true,
        }
        match LogicOpcode::arbitrary(&mut g) {
            LogicOpcode::And => logic[0] = true,
            LogicOpcode::Xor => logic[1] = true,
            LogicOpcode::Or => logic[2] = true,
            LogicOpcode::Not => logic[3] = true,
        }
        match ComparisonOpcode::arbitrary(&mut g) {
            ComparisonOpcode::Eq => comparison[0] = true,
            ComparisonOpcode::Ne => comparison[1] = true,
            ComparisonOpcode::Lt => comparison[2] = true,
            ComparisonOpcode::Le => comparison[3] = true,
            ComparisonOpcode::Gt => comparison[4] = true,
            ComparisonOpcode::Ge => comparison[5] = true,
        }
        match MemoryOpcode::arbitrary(&mut g) {
            MemoryOpcode::Load => memory[0] = true,
            MemoryOpcode::Store => memory[1] = true,
        }
        match IOOpcode::arbitrary(&mut g) {
            IOOpcode::Print => io[0] = true,
            IOOpcode::Scan => io[1] = true,
        }
    }
    assert!(values.iter().all(|seen| *seen));
    assert!(flows.iter().all(|seen| *seen));
    assert!(arithmetic.iter().all(|seen| *seen));
    assert!(logic.iter().all(|seen| *seen));
    assert!(comparison.iter().all(|seen| *seen));
    assert!(memory.iter().all(|seen| *seen));
    assert!(io.iter().all(|seen| *seen));
}

#[test]
fn choices_pick_variants() {
    let s = || "s".to_string();
    assert_eq!(Value::from_choice(1, true, 7, s()), Some(Value::Bool(true)));
    assert_eq!(Value::from_choice(2, true, 7, s()), Some(Value::UInt(7)));
    assert_eq!(Value::from_choice(3, true, 7, s()), Some(Value::String(s())));
    assert_eq!(Value::from_choice(4, true, 7, s()), Some(Value::Null));
    assert_eq!(Value::from_choice(0, true, 7, s()), None);
    assert_eq!(Value::from_choice(5, true, 7, s()), None);

    assert_eq!(FlowOpcode::from_choice(0, 9), Some(FlowOpcode::JumpIfFalse(9)));
    assert_eq!(FlowOpcode::from_choice(1, 9), Some(FlowOpcode::JumpIfTrue(9)));
    assert_eq!(FlowOpcode::from_choice(2, 9), Some(FlowOpcode::Jump(9)));
    assert_eq!(FlowOpcode::from_choice(3, 9), Some(FlowOpcode::Call(9)));
    assert_eq!(FlowOpcode::from_choice(4, 9), Some(FlowOpcode::Return));
    assert_eq!(FlowOpcode::from_choice(5, 9), None);

    let draw = || OpcodeDraw {
        value: Value::UInt(3),
        arithmetic: ArithmeticOpcode::Mul,
        logic: LogicOpcode::Xor,
        comparison: ComparisonOpcode::Le,
        memory: MemoryOpcode::Store,
        io: IOOpcode::Scan,
        flow: FlowOpcode::Call(4),
    };
    let expected = [
        Opcode::Halt,
        Opcode::Literal(Value::UInt(3)),
        Opcode::Arithmetic(ArithmeticOpcode::Mul),
        Opcode::Logic(LogicOpcode::Xor),
        Opcode::Comparison(ComparisonOpcode::Le),
        Opcode::Memory(MemoryOpcode::Store),
        Opcode::IO(IOOpcode::Scan),
        Opcode::Flow(FlowOpcode::Call(4)),
        Opcode::Dup,
        Opcode::Pop,
        Opcode::Swap,
    ];
    for (i, opcode) in expected.into_iter().enumerate() {
        assert_eq!(Opcode::from_choice(i as u8 + 1, draw()), Some(opcode));
    }
    assert_eq!(Opcode::from_choice(0, draw()), None);
    assert_eq!(Opcode::from_choice(12, draw()), None);
}

#[test]
fn every_opcode_category_is_generated() {
    let mut g = Gen::new(10);
    let mut seen = [false; 11];
    for _ in 0..3000 {
        let i = match Opcode::arbitrary(&mut g) {
            Opcode::Halt => 0,
            Opcode::Literal(_) => 1,
            Opcode::Arithmetic(_) => 2,
            Opcode::Logic(_) => 3,
            Opcode::Comparison(_) => 4,
            Opcode::Memory(_) => 5,
            Opcode::IO(_) => 6,
            Opcode::Flow(_) => 7,
            Opcode::Dup => 8,
            Opcode::Pop => 9,
            Opcode::Swap => 10,
        };
        seen[i] = true;
    }
    assert!(seen.iter().all(|s| *s));
}
