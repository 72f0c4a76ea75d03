use vmo2::types::bytecode::ByteCode;
use vmo2::types::opcode::Opcode;
use vmo2::types::value::Value;
use vmo2::vm::machine::VMError;

#[test]
fn test_value_arithmetic() {
    assert_eq!(Value::UInt(5) + Value::UInt(3), Ok(Value::UInt(8)));
    assert_eq!(
        Value::String("hello".to_string()) + Value::String(" world".to_string()),
        Ok(Value::String("hello world".to_string()))
    );
    assert_eq!(Value::UInt(5) - Value::UInt(3), Ok(Value::UInt(2)));
    assert_eq!(Value::UInt(5) * Value::UInt(3), Ok(Value::UInt(15)));
    assert_eq!(Value::UInt(6) / Value::UInt(2), Ok(Value::UInt(3)));
}

#[test]
fn test_value_logic() {
    assert_eq!(!Value::Bool(true), Ok(Value::Bool(false)));
    assert_eq!(!Value::Bool(false), Ok(Value::Bool(true)));
    assert_eq!(Value::Bool(true).and(Value::Bool(true)), Ok(Value::Bool(true)));
    assert_eq!(
        Value::Bool(true).and(Value::Bool(false)),
        Ok(Value::Bool(false))
    );
    assert_eq!(
        Value::Bool(false).and(Value::Bool(false)),
        Ok(Value::Bool(false))
    );
    assert_eq!(Value::Bool(true).or(Value::Bool(true)), Ok(Value::Bool(true)));
    assert_eq!(Value::Bool(true).or(Value::Bool(false)), Ok(Value::Bool(true)));
    assert_eq!(
        Value::Bool(false).or(Value::Bool(false)),
        Ok(Value::Bool(false))
    );
    assert_eq!(Value::Bool(true).xor(Value::Bool(true)), Ok(Value::Bool(false)));
    assert_eq!(Value::Bool(true).xor(Value::Bool(false)), Ok(Value::Bool(true)));
    assert_eq!(
        Value::Bool(false).xor(Value::Bool(false)),
        Ok(Value::Bool(false))
    );
}

#[test]
fn test_bytecode_creation() {
    let mut bytecode = ByteCode::new();
    assert!(bytecode.opcodes.is_empty());

    bytecode.add_opcode(Opcode::Halt);
    assert_eq!(bytecode.opcodes.len(), 1);
    assert_eq!(bytecode.opcodes[0], Opcode::Halt);
}

#[test]
fn test_bytecode_from_vec() {
    let opcodes = vec![Opcode::Halt, Opcode::Literal(Value::UInt(42))];
    let bytecode = ByteCode::from(opcodes.clone());
    assert_eq!(bytecode.opcodes, opcodes);
}

#[test]
fn arithmetic_failures() {
    assert_eq!(
        Value::UInt(u32::MAX) + Value::UInt(1),
        Err(VMError::ArithmeticOverflow)
    );
    assert_eq!(Value::UInt(1) / Value::UInt(0), Err(VMError::DivideByZero));
    assert_eq!(Value::UInt(1) + Value::Null, Err(VMError::TypeMismatch));
}

#[test]
fn values_are_ordered() {
    assert!(Value::UInt(1) < Value::UInt(2));
    assert!(Value::Bool(false) < Value::Bool(true));
    assert!(Value::String("a".to_string()) < Value::String("ab".to_string()));
    assert!(Value::String("ab".to_string()) < Value::String("b".to_string()));
    assert!(Value::UInt(u32::MAX) < Value::Bool(false));
    assert!(Value::Bool(true) < Value::String(String::new()));
    assert!(Value::String("z".to_string()) < Value::Null);
    assert_eq!(Value::Null, Value::Null);
    assert_ne!(Value::UInt(0), Value::Bool(false));
    assert_ne!(Value::String("a".to_string()), Value::String("b".to_string()));
}

#[test]
fn less_than_within_a_variant() {
    assert_eq!(Value::UInt(1).less_than(&Value::UInt(2)), Ok(true));
    assert_eq!(Value::UInt(2).less_than(&Value::UInt(2)), Ok(false));
    assert_eq!(Value::Bool(false).less_than(&Value::Bool(true)), Ok(true));
    assert_eq!(Value::Bool(true).less_than(&Value::Bool(true)), Ok(false));
    let s = |t: &str| Value::String(t.to_string());
    assert_eq!(s("a").less_than(&s("ab")), Ok(true));
    assert_eq!(s("ab").less_than(&s("a")), Ok(false));
    assert_eq!(s("ab").less_than(&s("b")), Ok(true));
    assert_eq!(s("").less_than(&s("")), Ok(false));
    assert_eq!(s("z").less_than(&s("é")), Ok(true));
    assert_eq!(Value::Null.less_than(&Value::Null), Ok(false));
    assert_eq!(Value::Null.less_than(&Value::UInt(0)), Err(VMError::TypeMismatch));
    assert_eq!(s("1").less_than(&Value::UInt(2)), Err(VMError::TypeMismatch));
}

#[test]
fn logic_on_other_values() {
    assert_eq!(Value::UInt(1).and(Value::Bool(true)), Err(VMError::TypeMismatch));
    assert_eq!(Value::Bool(true).or(Value::Null), Err(VMError::TypeMismatch));
    assert_eq!(Value::Null.xor(Value::Null), Err(VMError::TypeMismatch));
    assert_eq!(!Value::UInt(0), Err(VMError::TypeMismatch));
    assert_eq!(Value::UInt(3) - Value::UInt(5), Err(VMError::ArithmeticOverflow));
    assert_eq!(
        Value::UInt(65536) * Value::UInt(65536),
        Err(VMError::ArithmeticOverflow)
    );
    assert_eq!(Value::UInt(7) / Value::UInt(2), Ok(Value::UInt(3)));
    assert_eq!(
        Value::String("a".to_string()) - Value::String("a".to_string()),
        Err(VMError::TypeMismatch)
    );
}

#[test]
fn text_of_values() {
    assert_eq!(Value::UInt(0).to_text(), "UInt(0)");
    assert_eq!(Value::UInt(4294967295).to_text(), "UInt(4294967295)");
    assert_eq!(Value::Bool(true).to_text(), "Bool(true)");
    assert_eq!(Value::Null.to_text(), "Null");
    assert_eq!(Value::String("a\nb".to_string()).to_text(), "String(\"a\\nb\")");
}

#[test]
fn clones_are_equal() {
    let v = Value::String("abc".to_string());
    assert_eq!(v.clone(), v);
    let b = ByteCode::from(vec![Opcode::Literal(v), Opcode::Halt]);
    assert_eq!(b.clone(), b);
    assert_eq!(b.len(), 2);
    assert_eq!(b.get(1), Some(&Opcode::Halt));
    assert_eq!(b.get(2), None);
}
