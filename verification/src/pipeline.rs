use crate::codec::deserialize::deserialize;
use crate::codec::metadata::Version;
use crate::codec::serialize::serialize;
use crate::codec::traits::{DeserializationError, SerializationError};
use crate::codec::v1::format::{decode_spec, encodable, encodable_opcode};
use crate::codec::v1::round_trip::lemma_round_trip;
use crate::compiler::error::CompileError;
use crate::compiler::ir::{binary_instruction, lower_expr, IrInstructionView};
use crate::compiler::ir_builder::{emit_stmt, emit_stmts, Emitted};
use crate::compiler::ir_compiler::{
    block_parts, bytecode_spec, code_parts, compile_spec, compile_to_ir, concat_all,
    flatten_spec, flattened_view, function_parts, ir_to_bytecode, lower_function, lower_instr,
};
use crate::compiler::layout::{
    block_lens, function_len, function_lens, instr_lens, program_len, total,
};
use crate::compiler::program::{
    empty_block, find_function, fresh_function, BasicBlockView, IrFunctionView, IrProgramView,
};
use crate::compiler::types::{AstProgram, ExprView, StmtView};
use crate::types::bytecode::ByteCode;
use crate::types::opcode::{ArithmeticOpcode, ComparisonOpcode, OpcodeView};
use crate::types::value::ValueView;
use crate::vm::laws::lemma_left_operand_on_top;
use crate::vm::machine::{binary_result, run_spec, VMError, VmState, VM};
use crate::vm::profile::Profile;
use vstd::prelude::*;

verus! {

/// Why a program did not come to run: the stage that failed, and its error.
#[derive(Debug, Clone, Copy, PartialEq, Eq, Structural)]
pub enum PipelineError {
    Compile(CompileError),
    Encode(SerializationError),
    Decode(DeserializationError),
}

/// A machine after its run, and what the run came to. The machine's stack,
/// variable store, counters and output can be read whether it halted or
/// failed.
pub struct Outcome {
    pub vm: VM,
    pub result: Result<Profile, VMError>,
}

/// Compiles a program: lowers it, then flattens what it was lowered to. The
/// first error ends the compilation.
pub fn compile(program: AstProgram) -> (r: Result<ByteCode, CompileError>)
    ensures
        flattened_view(r) == bytecode_spec(program@),
{
    match compile_to_ir(program) {
        Ok(ir) => ir_to_bytecode(ir),
        Err(e) => Err(e),
    }
}

/// Runs a bytecode on a fresh machine without input.
pub fn run_bytecode(bytecode: ByteCode) -> (r: Outcome)
    ensures
        (r.vm@, r.result) == run_spec(VmState::initial(bytecode@)),
{
    let mut vm = VM::new(bytecode);
    let result = vm.run();
    Outcome { vm, result }
}

/// Reads a persisted bytecode and runs it on a fresh machine without input.
/// Bytes that hold no bytecode end the pipeline before anything runs.
pub fn run_bytes(bytes: &Vec<u8>) -> (r: Result<Outcome, PipelineError>)
    ensures
        match decode_spec(bytes@) {
            Ok(code) => r matches Ok(end) && (end.vm@, end.result) == run_spec(
                VmState::initial(code),
            ),
            Err(e) => r matches Err(stage) && stage == PipelineError::Decode(e),
        },
{
    match deserialize(bytes) {
        Ok(bytecode) => Ok(run_bytecode(bytecode)),
        Err(e) => Err(PipelineError::Decode(e)),
    }
}

/// Compiles a program and runs it on a fresh machine without input. With
/// `persist` the bytecode goes through the codec on its way to the machine,
/// which changes nothing of the run: what is written is read back as it was.
/// A program that does not compile, and with `persist` a string literal too
/// long to be written, end the pipeline before anything runs.
pub fn compile_and_run(program: AstProgram, persist: bool) -> (r: Result<Outcome, PipelineError>)
    ensures
        match bytecode_spec(program@) {
            Err(e) => r matches Err(stage) && stage == PipelineError::Compile(e),
            Ok(code) => if persist && !encodable(code) {
                r matches Err(PipelineError::Encode(SerializationError::StringTooLong(i))) && i
                    < code.len() && !encodable_opcode(code[i as int]) && forall|j: int|
                    0 <= j < i ==> encodable_opcode(#[trigger] code[j])
            } else {
                r matches Ok(end) && (end.vm@, end.result) == run_spec(VmState::initial(code))
            },
        },
{
    let bytecode = match compile(program) {
        Ok(bytecode) => bytecode,
        Err(e) => {
            return Err(PipelineError::Compile(e));
        },
    };
    if !persist {
        return Ok(run_bytecode(bytecode));
    }
    let bytes = match serialize(Version::V1, &bytecode) {
        Ok(bytes) => bytes,
        Err(e) => {
            return Err(PipelineError::Encode(e));
        },
    };
    proof {
        lemma_round_trip(bytecode@);
    }
    match deserialize(&bytes) {
        Ok(read_back) => Ok(run_bytecode(read_back)),
        Err(e) => Err(PipelineError::Decode(e)),
    }
}

/// The opcode that an operator between two operands is compiled to.
pub open spec fn operator_opcode(op: Seq<char>) -> Option<OpcodeView> {
    match binary_instruction(op) {
        Some(IrInstructionView::Add) => Some(OpcodeView::Arithmetic(ArithmeticOpcode::Add)),
        Some(IrInstructionView::Sub) => Some(OpcodeView::Arithmetic(ArithmeticOpcode::Sub)),
        Some(IrInstructionView::Mul) => Some(OpcodeView::Arithmetic(ArithmeticOpcode::Mul)),
        Some(IrInstructionView::Div) => Some(OpcodeView::Arithmetic(ArithmeticOpcode::Div)),
        Some(IrInstructionView::Eq) => Some(OpcodeView::Comparison(ComparisonOpcode::Eq)),
        Some(IrInstructionView::Ne) => Some(OpcodeView::Comparison(ComparisonOpcode::Ne)),
        Some(IrInstructionView::Lt) => Some(OpcodeView::Comparison(ComparisonOpcode::Lt)),
        Some(IrInstructionView::Gt) => Some(OpcodeView::Comparison(ComparisonOpcode::Gt)),
        Some(IrInstructionView::Le) => Some(OpcodeView::Comparison(ComparisonOpcode::Le)),
        Some(IrInstructionView::Ge) => Some(OpcodeView::Comparison(ComparisonOpcode::Ge)),
        _ => None,
    }
}

/// The program that consists of the one expression `left op right`, both
/// operands literals.
pub open spec fn operation_program(op: Seq<char>, left: ValueView, right: ValueView) -> Seq<
    StmtView,
> {
    seq![
        StmtView::Expression(
            ExprView::Binary(
                op,
                Box::new(ExprView::Literal(left)),
                Box::new(ExprView::Literal(right)),
            ),
        ),
    ]
}

/// An expression `left op right` of two literals is compiled to four
/// opcodes: the right operand is pushed, then the left one, then comes the
/// operator's opcode, then `Halt`.
pub proof fn lemma_operation_compiled(op: Seq<char>, left: ValueView, right: ValueView)
    requires
        operator_opcode(op) is Some,
    ensures
        bytecode_spec(operation_program(op, left, right)) == Ok::<Seq<OpcodeView>, CompileError>(
            seq![
                OpcodeView::Literal(right),
                OpcodeView::Literal(left),
                operator_opcode(op).unwrap(),
                OpcodeView::Halt,
            ],
        ),
{
    let i = binary_instruction(op).unwrap();
    let opcode = operator_opcode(op).unwrap();
    let e = ExprView::Binary(
        op,
        Box::new(ExprView::Literal(left)),
        Box::new(ExprView::Literal(right)),
    );
    let program = operation_program(op, left, right);
    let push_r = IrInstructionView::Push(right);
    let push_l = IrInstructionView::Push(left);
    let code = seq![push_r, push_l, i];
    assert(lower_expr(e) == Ok::<Seq<IrInstructionView>, CompileError>(code)) by {
        assert(lower_expr(ExprView::Literal(right)).unwrap() =~= seq![push_r]);
        assert(lower_expr(ExprView::Literal(left)).unwrap() =~= seq![push_l]);
        assert((seq![push_r] + seq![push_l]).push(i) =~= code);
    }
    let main = "main"@;
    let s0 = Emitted::start(IrProgramView::empty(), main).function(main);
    let f0 = fresh_function(main, Seq::empty());
    assert(s0.ir.functions =~= seq![f0]);
    assert(find_function(s0.ir.functions, main, 0) == Some(0int));
    assert(s0.ir.cursor_valid());

    // The three instructions go to block 0 of `main`, one after another.
    let c1 = code.drop_last();
    let c0 = c1.drop_last();
    assert(c0 =~= seq![push_r]);
    assert(c0.drop_last() =~= Seq::<IrInstructionView>::empty());
    assert(s0.emit_code(c0.drop_last()) == s0);
    let s1 = s0.emit(push_r);
    assert(s0.emit_code(c0) == s1);
    let b1 = BasicBlockView { instructions: seq![push_r], ..empty_block() };
    let f1 = IrFunctionView { blocks: seq![b1], ..f0 };
    assert(s1.ir.functions =~= seq![f1]) by {
        assert(empty_block().instructions.push(push_r) =~= seq![push_r]);
        assert(f0.blocks.update(0, b1) =~= seq![b1]);
    }
    assert(find_function(s1.ir.functions, main, 0) == Some(0int));
    let s2 = s1.emit(push_l);
    assert(s0.emit_code(c1) == s2);
    let b2 = BasicBlockView { instructions: seq![push_r, push_l], ..empty_block() };
    let f2 = IrFunctionView { blocks: seq![b2], ..f0 };
    assert(s2.ir.functions =~= seq![f2]) by {
        assert(b1.instructions.push(push_l) =~= seq![push_r, push_l]);
        assert(f1.blocks.update(0, b2) =~= seq![b2]);
    }
    assert(find_function(s2.ir.functions, main, 0) == Some(0int));
    let s3 = s2.emit(i);
    assert(s0.emit_code(code) == s3);
    let b3 = BasicBlockView { instructions: code, ..empty_block() };
    let f3 = IrFunctionView { blocks: seq![b3], ..f0 };
    assert(s3.ir.functions =~= seq![f3]) by {
        assert(b2.instructions.push(i) =~= code);
        assert(f2.blocks.update(0, b3) =~= seq![b3]);
    }
    assert(s0.expr(e) == s3);
    assert(program.drop_last() =~= Seq::<StmtView>::empty());
    assert(emit_stmts(s0, program.drop_last()) == s0);
    assert(emit_stmts(s0, program) == emit_stmt(s0, program.last()));
    assert(emit_stmts(s0, program) == s3);
    assert(compile_spec(program) == Ok::<IrProgramView, CompileError>(s3.ir));

    // The program is four opcodes long.
    let fs = s3.ir.functions;
    assert(instr_lens(code) =~= seq![1nat, 1nat, 1nat]);
    assert(total(instr_lens(code)) == 3) by {
        let l = instr_lens(code);
        assert(l.drop_last() =~= seq![1nat, 1nat]);
        assert(l.drop_last().drop_last() =~= seq![1nat]);
        assert(l.drop_last().drop_last().drop_last() =~= Seq::<nat>::empty());
        reveal_with_fuel(total, 4);
    }
    assert(block_lens(f3.blocks) =~= seq![3nat]);
    assert(total(block_lens(f3.blocks)) == 3) by {
        assert(block_lens(f3.blocks).drop_last() =~= Seq::<nat>::empty());
        reveal_with_fuel(total, 2);
    }
    assert(function_len(f3) == 4);
    assert(function_lens(fs) =~= seq![4nat]);
    assert(program_len(fs) == 4) by {
        assert(function_lens(fs).drop_last() =~= Seq::<nat>::empty());
        reveal_with_fuel(total, 2);
    }

    // Each instruction becomes its opcode.
    let parts = code_parts(fs, 0, code);
    let o_r = seq![OpcodeView::Literal(right)];
    let o_l = seq![OpcodeView::Literal(left)];
    let o_i = seq![opcode];
    assert(lower_instr(fs, 0, i) == Ok::<Seq<OpcodeView>, CompileError>(o_i));
    assert(parts =~= seq![
        Ok::<Seq<OpcodeView>, CompileError>(o_r),
        Ok::<Seq<OpcodeView>, CompileError>(o_l),
        Ok::<Seq<OpcodeView>, CompileError>(o_i),
    ]);
    let body = seq![OpcodeView::Literal(right), OpcodeView::Literal(left), opcode];
    assert(concat_all(parts) == Ok::<Seq<OpcodeView>, CompileError>(body)) by {
        assert(parts.drop_last() =~= seq![
            Ok::<Seq<OpcodeView>, CompileError>(o_r),
            Ok::<Seq<OpcodeView>, CompileError>(o_l),
        ]);
        assert(parts.drop_last().drop_last() =~= seq![Ok::<Seq<OpcodeView>, CompileError>(o_r)]);
        assert(parts.drop_last().drop_last().drop_last() =~= Seq::empty());
        reveal_with_fuel(concat_all, 4);
        assert(Seq::<OpcodeView>::empty() + o_r =~= o_r);
        assert((o_r + o_l) + o_i =~= body);
    }
    let blocks = block_parts(fs, 0);
    assert(blocks =~= seq![Ok::<Seq<OpcodeView>, CompileError>(body)]);
    assert(concat_all(blocks) == Ok::<Seq<OpcodeView>, CompileError>(body)) by {
        assert(blocks.drop_last() =~= Seq::empty());
        reveal_with_fuel(concat_all, 2);
        assert(Seq::<OpcodeView>::empty() + body =~= body);
    }
    let whole = seq![
        OpcodeView::Literal(right),
        OpcodeView::Literal(left),
        opcode,
        OpcodeView::Halt,
    ];
    assert(lower_function(fs, 0) == Ok::<Seq<OpcodeView>, CompileError>(whole)) by {
        assert(body + seq![OpcodeView::Halt] =~= whole);
    }
    let functions = function_parts(fs);
    assert(functions =~= seq![Ok::<Seq<OpcodeView>, CompileError>(whole)]);
    assert(concat_all(functions) == Ok::<Seq<OpcodeView>, CompileError>(whole)) by {
        assert(functions.drop_last() =~= Seq::empty());
        reveal_with_fuel(concat_all, 2);
        assert(Seq::<OpcodeView>::empty() + whole =~= whole);
    }
    assert(flatten_spec(s3.ir) == Ok::<Seq<OpcodeView>, CompileError>(whole));
}

/// Operands keep their order from the source to the machine: the program
/// `left op right` of two literals compiles, and a fresh machine that runs
/// its bytecode ends with the value of `left op right` as the only value on
/// its stack, or fails as that operation fails.
pub proof fn lemma_operands_keep_their_order(op: Seq<char>, left: ValueView, right: ValueView)
    requires
        operator_opcode(op) is Some,
    ensures
        bytecode_spec(operation_program(op, left, right)) is Ok,
        ({
            let code = bytecode_spec(operation_program(op, left, right)).unwrap();
            let end = run_spec(VmState::initial(code));
            match binary_result(operator_opcode(op).unwrap(), left, right) {
                Ok(v) => end.1 is Ok && end.0.stack == seq![v],
                Err(e) => end.1 == Err::<Profile, VMError>(e),
            }
        }),
{
    lemma_operation_compiled(op, left, right);
    lemma_left_operand_on_top(operator_opcode(op).unwrap(), left, right);
}

} // verus!
