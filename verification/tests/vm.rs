use vmo2::types::bytecode::ByteCode;
use vmo2::types::opcode::{
    ArithmeticOpcode, ComparisonOpcode, FlowOpcode, IOOpcode, LogicOpcode, MemoryOpcode, Opcode,
};
use vmo2::types::value::Value;
use vmo2::vm::machine::{VMError, VMResult, VM};

fn text(s: &str) -> Opcode {
    Opcode::Literal(Value::String(s.to_owned()))
}

fn uint(n: u32) -> Opcode {
    Opcode::Literal(Value::UInt(n))
}

fn run(opcodes: Vec<Opcode>) -> (VM, Result<vmo2::vm::profile::Profile, VMError>) {
    let mut vm = VM::new(ByteCode::from(opcodes));
    let r = vm.run();
    (vm, r)
}

#[test]
fn test_arithmetic_with_memory() {
    let bytecode = ByteCode::from(vec![
        // Store x = 3
        Opcode::Literal(Value::UInt(3)),
        Opcode::Literal(Value::String("x".to_owned())),
        Opcode::Memory(MemoryOpcode::Store),
        // Store y = 4
        Opcode::Literal(Value::UInt(4)),
        Opcode::Literal(Value::String("y".to_owned())),
        Opcode::Memory(MemoryOpcode::Store),
        // Load x
        Opcode::Literal(Value::String("x".to_owned())),
        Opcode::Memory(MemoryOpcode::Load),
        // Load y
        Opcode::Literal(Value::String("y".to_owned())),
        Opcode::Memory(MemoryOpcode::Load),
        // Add
        Opcode::Arithmetic(ArithmeticOpcode::Add),
        Opcode::Halt,
    ]);

    let mut vm = VM::new(bytecode);
    _ = vm.run().unwrap();

    assert_eq!(vm.stack.pop().unwrap(), Value::UInt(7));
}

#[test]
fn constant_store_and_load() {
    let (vm, r) = run(vec![
        uint(1),
        text("x"),
        Opcode::Memory(MemoryOpcode::Store),
        text("x"),
        Opcode::Memory(MemoryOpcode::Load),
        Opcode::Halt,
    ]);
    let profile = r.unwrap();
    assert_eq!(vm.stack.last(), Some(&Value::UInt(1)));
    assert_eq!(vm.heap.len(), 1);
    assert_eq!(vm.heap.get("x"), Some(&Value::UInt(1)));
    assert_eq!(profile.executed_instructions, 6);
    assert_eq!(profile.total_memory_writes, 1);
    assert_eq!(profile.total_memory_reads, 1);
    assert_eq!(profile.total_stack_pushes, 4);
    assert_eq!(profile.total_stack_pops, 3);
    assert_eq!(vm.profile, profile);
    assert_eq!(vm.pc, 6);
}

#[test]
fn new_machine_is_empty() {
    let vm = VM::new(ByteCode::from(vec![Opcode::Halt]));
    assert!(vm.stack.is_empty());
    assert!(vm.call_stack.is_empty());
    assert_eq!(vm.heap.len(), 0);
    assert_eq!(vm.pc, 0);
    assert_eq!(vm.profile.executed_instructions, 0);
    assert!(vm.output.is_empty());
    assert!(vm.input.is_empty());
}

#[test]
fn left_operand_is_on_top() {
    // 10 - 3: the right operand is pushed first.
    let (vm, r) = run(vec![
        uint(3),
        uint(10),
        Opcode::Arithmetic(ArithmeticOpcode::Sub),
        Opcode::Halt,
    ]);
    assert!(r.is_ok());
    assert_eq!(vm.stack, vec![Value::UInt(7)]);

    let (vm, r) = run(vec![
        uint(4),
        uint(20),
        Opcode::Arithmetic(ArithmeticOpcode::Div),
        Opcode::Halt,
    ]);
    assert!(r.is_ok());
    assert_eq!(vm.stack, vec![Value::UInt(5)]);

    let (vm, r) = run(vec![
        uint(10),
        uint(3),
        Opcode::Comparison(ComparisonOpcode::Lt),
        Opcode::Halt,
    ]);
    assert!(r.is_ok());
    assert_eq!(vm.stack, vec![Value::Bool(true)]);
}

#[test]
fn arithmetic_errors() {
    let (vm, r) = run(vec![
        uint(10),
        uint(3),
        Opcode::Arithmetic(ArithmeticOpcode::Sub),
        Opcode::Halt,
    ]);
    assert_eq!(r, Err(VMError::ArithmeticOverflow));
    assert!(vm.stack.is_empty());
    assert_eq!(vm.pc, 3);

    let (_, r) = run(vec![
        uint(0),
        uint(3),
        Opcode::Arithmetic(ArithmeticOpcode::Div),
        Opcode::Halt,
    ]);
    assert_eq!(r, Err(VMError::DivideByZero));

    let (_, r) = run(vec![
        uint(u32::MAX),
        uint(2),
        Opcode::Arithmetic(ArithmeticOpcode::Mul),
        Opcode::Halt,
    ]);
    assert_eq!(r, Err(VMError::ArithmeticOverflow));

    let (_, r) = run(vec![
        text("a"),
        uint(2),
        Opcode::Arithmetic(ArithmeticOpcode::Add),
        Opcode::Halt,
    ]);
    assert_eq!(r, Err(VMError::TypeMismatch));
}

#[test]
fn string_concatenation() {
    let (vm, r) = run(vec![
        text(" world"),
        text("hello"),
        Opcode::Arithmetic(ArithmeticOpcode::Add),
        Opcode::Halt,
    ]);
    assert!(r.is_ok());
    assert_eq!(vm.stack, vec![Value::String("hello world".to_owned())]);
}

#[test]
fn logic_opcodes() {
    let (vm, r) = run(vec![
        Opcode::Literal(Value::Bool(true)),
        Opcode::Logic(LogicOpcode::Not),
        Opcode::Literal(Value::Bool(true)),
        Opcode::Logic(LogicOpcode::Xor),
        Opcode::Literal(Value::Bool(false)),
        Opcode::Logic(LogicOpcode::Or),
        Opcode::Literal(Value::Bool(true)),
        Opcode::Logic(LogicOpcode::And),
        Opcode::Halt,
    ]);
    let profile = r.unwrap();
    assert_eq!(vm.stack, vec![Value::Bool(true)]);
    assert_eq!(profile.total_stack_pops, 7);
    assert_eq!(profile.total_stack_pushes, 8);

    let (_, r) = run(vec![uint(1), Opcode::Logic(LogicOpcode::Not), Opcode::Halt]);
    assert_eq!(r, Err(VMError::TypeMismatch));
}

#[test]
fn comparisons() {
    let (vm, r) = run(vec![
        uint(1),
        Opcode::Literal(Value::Null),
        Opcode::Comparison(ComparisonOpcode::Eq),
        uint(2),
        uint(2),
        Opcode::Comparison(ComparisonOpcode::Ge),
        text("b"),
        text("a"),
        Opcode::Comparison(ComparisonOpcode::Lt),
        Opcode::Literal(Value::Bool(true)),
        Opcode::Literal(Value::Bool(false)),
        Opcode::Comparison(ComparisonOpcode::Gt),
        text("ab"),
        text("a"),
        Opcode::Comparison(ComparisonOpcode::Le),
        Opcode::Literal(Value::Null),
        uint(0),
        Opcode::Comparison(ComparisonOpcode::Ne),
        Opcode::Halt,
    ]);
    assert!(r.is_ok());
    assert_eq!(
        vm.stack,
        vec![
            Value::Bool(false),
            Value::Bool(true),
            Value::Bool(true),
            Value::Bool(false),
            Value::Bool(true),
            Value::Bool(true),
        ]
    );

    let (_, r) = run(vec![
        uint(1),
        Opcode::Literal(Value::Bool(true)),
        Opcode::Comparison(ComparisonOpcode::Lt),
        Opcode::Halt,
    ]);
    assert_eq!(r, Err(VMError::TypeMismatch));
}

#[test]
fn memory_errors() {
    let (_, r) = run(vec![text("x"), Opcode::Memory(MemoryOpcode::Load), Opcode::Halt]);
    assert_eq!(r, Err(VMError::UndefinedVariable));
    let (_, r) = run(vec![uint(1), Opcode::Memory(MemoryOpcode::Load), Opcode::Halt]);
    assert_eq!(r, Err(VMError::TypeMismatch));
    let (_, r) = run(vec![uint(1), uint(2), Opcode::Memory(MemoryOpcode::Store)]);
    assert_eq!(r, Err(VMError::TypeMismatch));
    let (vm, r) = run(vec![text("x"), Opcode::Memory(MemoryOpcode::Store)]);
    assert_eq!(r, Err(VMError::StackUnderflow));
    assert_eq!(vm.profile.total_stack_pops, 1);
    assert_eq!(vm.profile.total_memory_writes, 0);
}

#[test]
fn last_write_wins() {
    let (vm, r) = run(vec![
        uint(1),
        text("x"),
        Opcode::Memory(MemoryOpcode::Store),
        uint(2),
        text("x"),
        Opcode::Memory(MemoryOpcode::Store),
        Opcode::Halt,
    ]);
    assert_eq!(r.unwrap().total_memory_writes, 2);
    assert_eq!(vm.heap.len(), 1);
    assert_eq!(vm.heap.get("x"), Some(&Value::UInt(2)));
}

#[test]
fn stack_opcodes() {
    let (vm, r) = run(vec![uint(1), uint(2), Opcode::Swap, Opcode::Dup, Opcode::Halt]);
    let profile = r.unwrap();
    assert_eq!(vm.stack, vec![Value::UInt(2), Value::UInt(1), Value::UInt(1)]);
    assert_eq!(profile.total_stack_pushes, 5);
    assert_eq!(profile.total_stack_pops, 2);

    let (vm, r) = run(vec![uint(1), uint(2), Opcode::Pop, Opcode::Halt]);
    assert!(r.is_ok());
    assert_eq!(vm.stack, vec![Value::UInt(1)]);

    let (_, r) = run(vec![Opcode::Dup]);
    assert_eq!(r, Err(VMError::StackUnderflow));
    let (_, r) = run(vec![Opcode::Pop]);
    assert_eq!(r, Err(VMError::StackUnderflow));
    let (_, r) = run(vec![uint(1), Opcode::Swap]);
    assert_eq!(r, Err(VMError::StackUnderflow));
    let (_, r) = run(vec![Opcode::Arithmetic(ArithmeticOpcode::Add)]);
    assert_eq!(r, Err(VMError::StackUnderflow));
}

#[test]
fn jumps() {
    let (vm, r) = run(vec![
        Opcode::Flow(FlowOpcode::Jump(2)),
        uint(1),
        Opcode::Literal(Value::Bool(true)),
        Opcode::Flow(FlowOpcode::JumpIfTrue(5)),
        uint(2),
        Opcode::Literal(Value::Bool(true)),
        Opcode::Flow(FlowOpcode::JumpIfFalse(0)),
        uint(3),
        Opcode::Halt,
    ]);
    let profile = r.unwrap();
    assert_eq!(vm.stack, vec![Value::UInt(3)]);
    assert_eq!(profile.executed_instructions, 7);
    assert_eq!(profile.total_stack_pops, 2);

    let (_, r) = run(vec![uint(1), Opcode::Flow(FlowOpcode::JumpIfTrue(0))]);
    assert_eq!(r, Err(VMError::TypeMismatch));
    let (_, r) = run(vec![Opcode::Flow(FlowOpcode::JumpIfFalse(0))]);
    assert_eq!(r, Err(VMError::StackUnderflow));
}

#[test]
fn call_and_return() {
    let (vm, r) = run(vec![
        Opcode::Flow(FlowOpcode::Call(3)),
        uint(2),
        Opcode::Halt,
        uint(1),
        Opcode::Flow(FlowOpcode::Return),
    ]);
    let profile = r.unwrap();
    assert_eq!(vm.stack, vec![Value::UInt(1), Value::UInt(2)]);
    assert!(vm.call_stack.is_empty());
    assert_eq!(profile.executed_instructions, 5);

    let (_, r) = run(vec![Opcode::Flow(FlowOpcode::Return)]);
    assert_eq!(r, Err(VMError::CallStackUnderflow));
}

#[test]
fn running_off_the_end() {
    let (vm, r) = run(vec![uint(1)]);
    assert_eq!(r, Err(VMError::PCOutOfBounds));
    assert_eq!(vm.pc, 1);
    assert_eq!(vm.profile.executed_instructions, 1);
    assert_eq!(vm.stack, vec![Value::UInt(1)]);

    let (_, r) = run(vec![]);
    assert_eq!(r, Err(VMError::PCOutOfBounds));
    let (_, r) = run(vec![Opcode::Flow(FlowOpcode::Jump(7)), Opcode::Halt]);
    assert_eq!(r, Err(VMError::PCOutOfBounds));
}

#[test]
fn exhausted_profile_cancels() {
    let mut vm = VM::new(ByteCode::from(vec![Opcode::Halt]));
    vm.profile.total_stack_pushes = usize::MAX - 1;
    assert_eq!(vm.step(), VMResult::Error(VMError::Cancelled));
    assert_eq!(vm.pc, 0);
    vm.profile.total_stack_pushes = usize::MAX - 2;
    assert_eq!(vm.step(), VMResult::Halt);
}

#[test]
fn print_collects_lines() {
    let (vm, r) = run(vec![
        uint(42),
        Opcode::IO(IOOpcode::Print),
        text("a\"b"),
        Opcode::IO(IOOpcode::Print),
        Opcode::Literal(Value::Bool(false)),
        Opcode::IO(IOOpcode::Print),
        Opcode::Literal(Value::Null),
        Opcode::IO(IOOpcode::Print),
        uint(0),
        Opcode::IO(IOOpcode::Print),
        Opcode::Halt,
    ]);
    assert_eq!(r.unwrap().total_stack_pops, 5);
    assert_eq!(
        vm.output,
        vec![
            "UInt(42)".to_owned(),
            "String(\"a\\\"b\")".to_owned(),
            "Bool(false)".to_owned(),
            "Null".to_owned(),
            "UInt(0)".to_owned(),
        ]
    );
    let (_, r) = run(vec![Opcode::IO(IOOpcode::Print)]);
    assert_eq!(r, Err(VMError::StackUnderflow));
}

#[test]
fn scan_reads_lines() {
    let mut vm = VM::new(ByteCode::from(vec![
        Opcode::IO(IOOpcode::Scan),
        Opcode::IO(IOOpcode::Scan),
        Opcode::IO(IOOpcode::Scan),
        Opcode::IO(IOOpcode::Scan),
        Opcode::Halt,
    ]));
    assert!(vm.awaits_input());
    vm.input.push_back("first\n".to_owned());
    vm.input.push_back("second\n\n".to_owned());
    vm.input.push_back("last".to_owned());
    assert!(!vm.awaits_input());
    assert!(vm.run().is_ok());
    assert_eq!(
        vm.stack,
        vec![
            Value::String("first".to_owned()),
            Value::String("second\n".to_owned()),
            Value::String("last".to_owned()),
            Value::String(String::new()),
        ]
    );
    assert!(vm.input.is_empty());
}

#[test]
fn step_by_step() {
    let mut vm = VM::new(ByteCode::from(vec![uint(1), Opcode::Pop, Opcode::Halt]));
    assert_eq!(vm.step(), VMResult::Continue);
    assert_eq!(vm.pc, 1);
    assert_eq!(vm.step(), VMResult::Continue);
    assert_eq!(vm.step(), VMResult::Halt);
    assert_eq!(vm.pc, 3);
    assert_eq!(vm.step(), VMResult::Error(VMError::PCOutOfBounds));
    assert_eq!(vm.profile.executed_instructions, 3);
}

#[test]
fn two_runs_agree() {
    let program = vec![
        uint(3),
        text("x"),
        Opcode::Memory(MemoryOpcode::Store),
        text("x"),
        Opcode::Memory(MemoryOpcode::Load),
        Opcode::Dup,
        Opcode::IO(IOOpcode::Print),
        uint(5),
        Opcode::Arithmetic(ArithmeticOpcode::Mul),
        Opcode::Halt,
    ];
    let (a, ra) = run(program.clone());
    let (b, rb) = run(program);
    assert_eq!(ra, rb);
    assert_eq!(a.stack, b.stack);
    assert_eq!(a.heap.get("x"), b.heap.get("x"));
    assert_eq!(a.heap.len(), b.heap.len());
    assert_eq!(a.profile, b.profile);
    assert_eq!(a.output, b.output);
    assert_eq!(a.stack, vec![Value::UInt(15)]);
}
