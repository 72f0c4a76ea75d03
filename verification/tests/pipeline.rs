use vmo2::codec::serialize::serialize;
use vmo2::codec::traits::{DeserializationError, SerializationError};
use vmo2::compiler::error::CompileError;
use vmo2::compiler::types::{AstExpression, AstLiteral, AstProgram, AstStatement};
use vmo2::pipeline::{compile, compile_and_run, run_bytecode, run_bytes, PipelineError};
use vmo2::types::bytecode::ByteCode;
use vmo2::types::opcode::{ArithmeticOpcode, Opcode};
use vmo2::types::value::Value;
use vmo2::vm::machine::VMError;

fn num(n: u32) -> AstExpression {
    AstExpression::Literal(AstLiteral::UInt(n))
}

fn var(name: &str) -> AstExpression {
    AstExpression::Variable(name.to_string())
}

fn binary(op: &str, left: AstExpression, right: AstExpression) -> AstExpression {
    AstExpression::BinaryOperation(op.to_string(), Box::new(left), Box::new(right))
}

/// x = 5; while (x >= 2) { x = x / 2; } y = x * 7;
fn halving() -> AstProgram {
    AstProgram {
        statements: vec![
            AstStatement::Assignment("x".to_string(), num(5)),
            AstStatement::While(
                binary(">=", var("x"), num(2)),
                vec![AstStatement::Assignment(
                    "x".to_string(),
                    binary("/", var("x"), num(2)),
                )],
            ),
            AstStatement::Assignment("y".to_string(), binary("*", var("x"), num(7))),
        ],
    }
}

#[test]
fn the_codec_changes_nothing_of_a_run() {
    let direct = compile_and_run(halving(), false).ok().unwrap();
    let persisted = compile_and_run(halving(), true).ok().unwrap();
    assert!(direct.result.is_ok());
    assert_eq!(direct.result, persisted.result);
    assert_eq!(direct.vm.stack, persisted.vm.stack);
    assert_eq!(direct.vm.pc, persisted.vm.pc);
    assert_eq!(direct.vm.profile, persisted.vm.profile);
    assert_eq!(direct.vm.bytecode, persisted.vm.bytecode);
    assert_eq!(direct.vm.heap.get("x"), Some(&Value::UInt(1)));
    assert_eq!(persisted.vm.heap.get("x"), Some(&Value::UInt(1)));
    assert_eq!(persisted.vm.heap.get("y"), Some(&Value::UInt(7)));
    assert_eq!(persisted.vm.heap.len(), 2);
}

#[test]
fn every_operator_runs_left_to_right() {
    let cases: [(&str, u32, u32, Value); 10] = [
        ("+", 10, 3, Value::UInt(13)),
        ("-", 10, 3, Value::UInt(7)),
        ("*", 10, 3, Value::UInt(30)),
        ("/", 10, 3, Value::UInt(3)),
        ("==", 10, 3, Value::Bool(false)),
        ("!=", 10, 3, Value::Bool(true)),
        ("<", 10, 3, Value::Bool(false)),
        (">", 10, 3, Value::Bool(true)),
        ("<=", 3, 10, Value::Bool(true)),
        (">=", 3, 10, Value::Bool(false)),
    ];
    for (op, left, right, expected) in cases {
        let program = AstProgram {
            statements: vec![AstStatement::Expression(binary(op, num(left), num(right)))],
        };
        let end = compile_and_run(program, true).ok().unwrap();
        assert!(end.result.is_ok());
        assert_eq!(end.vm.stack, vec![expected]);
    }
}

#[test]
fn failures_end_the_pipeline() {
    let unknown = AstProgram {
        statements: vec![AstStatement::Expression(binary("^", num(1), num(2)))],
    };
    assert_eq!(
        compile_and_run(unknown, false).err(),
        Some(PipelineError::Compile(CompileError::MalformedAst))
    );
    let unlinked = AstProgram {
        statements: vec![AstStatement::Expression(AstExpression::FunctionCall(
            "f".to_string(),
            vec![],
        ))],
    };
    assert_eq!(compile(unlinked), Err(CompileError::LinkError));

    let long = || AstProgram {
        statements: vec![
            AstStatement::Assignment("a".to_string(), num(1)),
            AstStatement::Expression(AstExpression::Literal(AstLiteral::String(
                "s".repeat(70000),
            ))),
        ],
    };
    assert_eq!(
        compile_and_run(long(), true).err(),
        Some(PipelineError::Encode(SerializationError::StringTooLong(3)))
    );
    let end = compile_and_run(long(), false).ok().unwrap();
    assert!(end.result.is_ok());
    assert_eq!(end.vm.stack.len(), 1);
}

#[test]
fn a_failing_run_keeps_its_state() {
    let program = AstProgram {
        statements: vec![
            AstStatement::Assignment("x".to_string(), num(1)),
            AstStatement::Assignment("y".to_string(), binary("/", var("x"), num(0))),
        ],
    };
    let end = compile_and_run(program, true).ok().unwrap();
    assert_eq!(end.result, Err(VMError::DivideByZero));
    assert_eq!(end.vm.heap.get("x"), Some(&Value::UInt(1)));
    assert_eq!(end.vm.heap.get("y"), None);
    assert_eq!(
        end.vm.bytecode.opcodes[end.vm.pc - 1],
        Opcode::Arithmetic(ArithmeticOpcode::Div)
    );
}

#[test]
fn bytes_are_read_and_run() {
    let bytecode = ByteCode::from(vec![
        Opcode::Literal(Value::UInt(2)),
        Opcode::Literal(Value::UInt(40)),
        Opcode::Arithmetic(ArithmeticOpcode::Add),
        Opcode::Halt,
    ]);
    let bytes = serialize(1, &bytecode).unwrap();
    let end = run_bytes(&bytes).ok().unwrap();
    assert_eq!(end.result.map(|p| p.executed_instructions), Ok(4));
    assert_eq!(end.vm.stack, vec![Value::UInt(42)]);
    let same = run_bytecode(bytecode);
    assert_eq!(same.vm.stack, end.vm.stack);
    assert_eq!(same.result, end.result);

    assert_eq!(
        run_bytes(&vec![1, 2, 3]).err(),
        Some(PipelineError::Decode(DeserializationError::InvalidMagic))
    );
    let mut cut = bytes.clone();
    cut.truncate(8);
    assert_eq!(
        run_bytes(&cut).err(),
        Some(PipelineError::Decode(DeserializationError::Truncated(5)))
    );
}
