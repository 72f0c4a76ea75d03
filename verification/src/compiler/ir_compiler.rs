use crate::codec::v1::format::encode_spec;
use crate::compiler::error::CompileError;
use crate::compiler::ir::{instrs_view, IrInstruction, IrInstructionView};
use crate::compiler::ir_builder::{
    emit_stmts, lemma_emit_stmts_keep_well_formed, Emitted, IrBuilder,
};
use crate::compiler::layout::{
    block_address, block_addresses, entry_address, holds_addresses, is_main, program_len,
};
use crate::compiler::program::{
    find_index, functions_view, lemma_operations_keep_well_formed, well_formed, IrFunction,
    IrFunctionView, IrProgram, IrProgramView,
};
use crate::compiler::types::{AstProgram, StmtView};
use crate::types::bytecode::ByteCode;
use crate::types::opcode::{
    ArithmeticOpcode, ComparisonOpcode, FlowOpcode, IOOpcode, MemoryOpcode, Opcode, OpcodeView,
};
use crate::types::text::str_eq;
use crate::types::value::{Value, ValueView};
use vstd::prelude::*;

verus! {

/// The program that a sequence of statements is lowered to: the statements
/// go into a function called `main`, one after another.
pub open spec fn compile_spec(stmts: Seq<StmtView>) -> Result<IrProgramView, CompileError> {
    let built = emit_stmts(
        Emitted::start(IrProgramView::empty(), "main"@).function("main"@),
        stmts,
    );
    match built.error {
        Some(e) => Err(e),
        None => Ok(built.ir),
    }
}

/// The model of the result of lowering a program.
pub open spec fn compiled_view(r: Result<IrProgram, CompileError>) -> Result<
    IrProgramView,
    CompileError,
> {
    match r {
        Ok(ir) => Ok(ir@),
        Err(e) => Err(e),
    }
}

/// The model of the result of flattening a program.
pub open spec fn flattened_view(r: Result<ByteCode, CompileError>) -> Result<
    Seq<OpcodeView>,
    CompileError,
> {
    match r {
        Ok(bytecode) => Ok(bytecode@),
        Err(e) => Err(e),
    }
}

/// Lowers a program to its intermediate representation. The result is the
/// first error, if lowering meets one.
pub fn compile_to_ir(program: AstProgram) -> (r: Result<IrProgram, CompileError>)
    ensures
        compiled_view(r) == compile_spec(program@),
{
    let mut ir = IrProgram::new();
    let mut builder = IrBuilder::new(&mut ir, "main");
    let built = builder.emit_body(&program.statements);
    match built {
        Ok(()) => Ok(ir),
        Err(e) => Err(e),
    }
}

/// Every program that lowering builds is well formed: its functions have
/// names of their own, and each has a block 0 in which it begins.
pub proof fn lemma_compiled_well_formed(stmts: Seq<StmtView>)
    ensures
        compile_spec(stmts) matches Ok(ir) ==> well_formed(ir),
{
    let start = Emitted::start(IrProgramView::empty(), "main"@);
    lemma_operations_keep_well_formed(
        IrProgramView::empty(),
        "main"@,
        Seq::empty(),
        IrInstructionView::Return,
        0,
        0,
    );
    lemma_emit_stmts_keep_well_formed(start.function("main"@), stmts);
}

/// `first`, then `second`, where both are opcodes; else the first error.
pub open spec fn then_opcodes(
    first: Result<Seq<OpcodeView>, CompileError>,
    second: Result<Seq<OpcodeView>, CompileError>,
) -> Result<Seq<OpcodeView>, CompileError> {
    match (first, second) {
        (Ok(a), Ok(b)) => Ok(a + b),
        (Err(e), _) => Err(e),
        (_, Err(e)) => Err(e),
    }
}

/// Several runs of opcodes, one after another; or the first error among
/// them.
pub open spec fn concat_all(parts: Seq<Result<Seq<OpcodeView>, CompileError>>) -> Result<
    Seq<OpcodeView>,
    CompileError,
>
    decreases parts.len(),
{
    if parts.len() == 0 {
        Ok(Seq::empty())
    } else {
        then_opcodes(concat_all(parts.drop_last()), parts.last())
    }
}

/// With one more part, the whole is what came before, then that part.
pub proof fn lemma_concat_step(parts: Seq<Result<Seq<OpcodeView>, CompileError>>, i: int)
    requires
        0 <= i < parts.len(),
    ensures
        concat_all(parts.take(i + 1)) == then_opcodes(concat_all(parts.take(i)), parts[i]),
{
    assert(parts.take(i + 1).drop_last() =~= parts.take(i));
}

/// An error among the first parts is the error of the whole.
pub proof fn lemma_concat_prefix_error(parts: Seq<Result<Seq<OpcodeView>, CompileError>>, i: int)
    requires
        0 <= i <= parts.len(),
        concat_all(parts.take(i)) is Err,
    ensures
        concat_all(parts) == concat_all(parts.take(i)),
    decreases parts.len() - i,
{
    if i == parts.len() {
        assert(parts.take(i) =~= parts);
    } else {
        lemma_concat_step(parts, i);
        lemma_concat_prefix_error(parts, i + 1);
    }
}

/// The opcodes of one instruction of function `fi`. A jump to a block that
/// the function does not have and a call of a function that the program does
/// not have are `LinkError`; an instruction without an opcode is
/// `MalformedAst`.
pub open spec fn lower_instr(fs: Seq<IrFunctionView>, fi: int, i: IrInstructionView) -> Result<
    Seq<OpcodeView>,
    CompileError,
> {
    match i {
        IrInstructionView::Push(v) => Ok(seq![OpcodeView::Literal(v)]),
        IrInstructionView::Pop => Ok(seq![OpcodeView::Pop]),
        IrInstructionView::Dup => Ok(seq![OpcodeView::Dup]),
        IrInstructionView::Swap => Ok(seq![OpcodeView::Swap]),
        IrInstructionView::Load(name) => Ok(
            seq![
                OpcodeView::Literal(ValueView::String(name)),
                OpcodeView::Memory(MemoryOpcode::Load),
            ],
        ),
        IrInstructionView::Store(name) => Ok(
            seq![
                OpcodeView::Literal(ValueView::String(name)),
                OpcodeView::Memory(MemoryOpcode::Store),
            ],
        ),
        IrInstructionView::Add => Ok(seq![OpcodeView::Arithmetic(ArithmeticOpcode::Add)]),
        IrInstructionView::Sub => Ok(seq![OpcodeView::Arithmetic(ArithmeticOpcode::Sub)]),
        IrInstructionView::Mul => Ok(seq![OpcodeView::Arithmetic(ArithmeticOpcode::Mul)]),
        IrInstructionView::Div => Ok(seq![OpcodeView::Arithmetic(ArithmeticOpcode::Div)]),
        IrInstructionView::Eq => Ok(seq![OpcodeView::Comparison(ComparisonOpcode::Eq)]),
        IrInstructionView::Ne => Ok(seq![OpcodeView::Comparison(ComparisonOpcode::Ne)]),
        IrInstructionView::Lt => Ok(seq![OpcodeView::Comparison(ComparisonOpcode::Lt)]),
        IrInstructionView::Gt => Ok(seq![OpcodeView::Comparison(ComparisonOpcode::Gt)]),
        IrInstructionView::Le => Ok(seq![OpcodeView::Comparison(ComparisonOpcode::Le)]),
        IrInstructionView::Ge => Ok(seq![OpcodeView::Comparison(ComparisonOpcode::Ge)]),
        IrInstructionView::Jump(b) => if b < fs[fi].blocks.len() {
            Ok(seq![OpcodeView::Flow(FlowOpcode::Jump(block_address(fs, fi, b as int) as u32))])
        } else {
            Err(CompileError::LinkError)
        },
        IrInstructionView::JumpIf(t, e) => if t < fs[fi].blocks.len() && e < fs[fi].blocks.len() {
            Ok(
                seq![
                    OpcodeView::Flow(FlowOpcode::JumpIfTrue(block_address(fs, fi, t as int) as u32)),
                    OpcodeView::Flow(FlowOpcode::Jump(block_address(fs, fi, e as int) as u32)),
                ],
            )
        } else {
            Err(CompileError::LinkError)
        },
        IrInstructionView::Call(name) => match entry_address(fs, name) {
            Some(a) => Ok(seq![OpcodeView::Flow(FlowOpcode::Call(a as u32))]),
            None => Err(CompileError::LinkError),
        },
        IrInstructionView::Return => Ok(seq![OpcodeView::Flow(FlowOpcode::Return)]),
        IrInstructionView::Print => Ok(seq![OpcodeView::IO(IOOpcode::Print)]),
        IrInstructionView::NoOp => Err(CompileError::MalformedAst),
        IrInstructionView::Neg => Err(CompileError::MalformedAst),
    }
}

/// The opcodes of each instruction of a run, in order.
pub open spec fn code_parts(fs: Seq<IrFunctionView>, fi: int, code: Seq<IrInstructionView>) -> Seq<
    Result<Seq<OpcodeView>, CompileError>,
> {
    Seq::new(code.len(), |k: int| lower_instr(fs, fi, code[k]))
}

/// The opcodes of each block of function `fi`, in order.
pub open spec fn block_parts(fs: Seq<IrFunctionView>, fi: int) -> Seq<
    Result<Seq<OpcodeView>, CompileError>,
> {
    Seq::new(
        fs[fi].blocks.len(),
        |b: int| concat_all(code_parts(fs, fi, fs[fi].blocks[b].instructions)),
    )
}

/// What ends a function: `Halt` for `main`, nothing for any other.
pub open spec fn function_end(f: IrFunctionView) -> Seq<OpcodeView> {
    if is_main(f) {
        seq![OpcodeView::Halt]
    } else {
        Seq::empty()
    }
}

/// The opcodes of function `fi`: those of its blocks in the order of their
/// indices, then what ends it.
pub open spec fn lower_function(fs: Seq<IrFunctionView>, fi: int) -> Result<
    Seq<OpcodeView>,
    CompileError,
> {
    then_opcodes(concat_all(block_parts(fs, fi)), Ok(function_end(fs[fi])))
}

/// The opcodes of each function, in order.
pub open spec fn function_parts(fs: Seq<IrFunctionView>) -> Seq<
    Result<Seq<OpcodeView>, CompileError>,
> {
    Seq::new(fs.len(), |fi: int| lower_function(fs, fi))
}

/// The bytecode of a program: its functions one after another, with every
/// jump and call resolved to the address of its target. A program of more
/// opcodes than 32 bits can count is `LinkError`; else the result is the
/// first error among the instructions in their order, if there is one.
///
/// Nothing is put between the blocks: a block that does not end in a jump
/// runs on into the block that is laid out after it, and the machine starts
/// at address 0, whichever function stands there. In a lowered program that
/// is `main`, whose `Halt` keeps it from running on into the functions behind
/// it.
pub open spec fn flatten_spec(ir: IrProgramView) -> Result<Seq<OpcodeView>, CompileError> {
    if program_len(ir.functions) > u32::MAX {
        Err(CompileError::LinkError)
    } else {
        concat_all(function_parts(ir.functions))
    }
}

/// The bytecode that a sequence of statements is compiled to: the
/// statements are lowered, and the program is flattened.
pub open spec fn bytecode_spec(stmts: Seq<StmtView>) -> Result<Seq<OpcodeView>, CompileError> {
    match compile_spec(stmts) {
        Ok(ir) => flatten_spec(ir),
        Err(e) => Err(e),
    }
}

/// Two programs that are equal as trees are compiled to the same bytecode,
/// or fail with the same error; and equal bytecode is persisted as equal
/// bytes.
pub proof fn lemma_compilation_deterministic(a: AstProgram, b: AstProgram)
    requires
        a@ == b@,
    ensures
        bytecode_spec(a@) == bytecode_spec(b@),
        bytecode_spec(a@) matches Ok(ops) ==> encode_spec(ops) == encode_spec(
            bytecode_spec(b@).unwrap(),
        ),
{
}

/// Appends the opcodes of one instruction of function `fi`.
fn flatten_instr(
    out: &mut ByteCode,
    functions: &Vec<IrFunction>,
    starts: &Vec<Vec<u32>>,
    fi: usize,
    instr: &IrInstruction,
) -> (r: Result<(), CompileError>)
    requires
        fi < functions.len(),
        program_len(functions_view(functions@)) <= u32::MAX,
        holds_addresses(functions_view(functions@), starts@),
    ensures
        then_opcodes(Ok(old(out)@), lower_instr(functions_view(functions@), fi as int, instr@))
            == (match r {
            Ok(()) => Ok(final(out)@),
            Err(e) => Err(e),
        }),
{
    let ghost fs = functions_view(functions@);
    let ghost before = out@;
    match instr {
        IrInstruction::Push(val) => {
            out.add_opcode(Opcode::Literal(val.clone()));
        },
        IrInstruction::Pop => {
            out.add_opcode(Opcode::Pop);
        },
        IrInstruction::Dup => {
            out.add_opcode(Opcode::Dup);
        },
        IrInstruction::Swap => {
            out.add_opcode(Opcode::Swap);
        },
        IrInstruction::Load(name) => {
            out.add_opcode(Opcode::Literal(Value::String(name.clone())));
            out.add_opcode(Opcode::Memory(MemoryOpcode::Load));
        },
        IrInstruction::Store(name) => {
            out.add_opcode(Opcode::Literal(Value::String(name.clone())));
            out.add_opcode(Opcode::Memory(MemoryOpcode::Store));
        },
        IrInstruction::Add => {
            out.add_opcode(Opcode::Arithmetic(ArithmeticOpcode::Add));
        },
        IrInstruction::Sub => {
            out.add_opcode(Opcode::Arithmetic(ArithmeticOpcode::Sub));
        },
        IrInstruction::Mul => {
            out.add_opcode(Opcode::Arithmetic(ArithmeticOpcode::Mul));
        },
        IrInstruction::Div => {
            out.add_opcode(Opcode::Arithmetic(ArithmeticOpcode::Div));
        },
        IrInstruction::Eq => {
            out.add_opcode(Opcode::Comparison(ComparisonOpcode::Eq));
        },
        IrInstruction::Ne => {
            out.add_opcode(Opcode::Comparison(ComparisonOpcode::Ne));
        },
        IrInstruction::Lt => {
            out.add_opcode(Opcode::Comparison(ComparisonOpcode::Lt));
        },
        IrInstruction::Gt => {
            out.add_opcode(Opcode::Comparison(ComparisonOpcode::Gt));
        },
        IrInstruction::Le => {
            out.add_opcode(Opcode::Comparison(ComparisonOpcode::Le));
        },
        IrInstruction::Ge => {
            out.add_opcode(Opcode::Comparison(ComparisonOpcode::Ge));
        },
        IrInstruction::Jump(b) => {
            if *b >= functions[fi].blocks.len() {
                return Err(CompileError::LinkError);
            }
            out.add_opcode(Opcode::Flow(FlowOpcode::Jump(starts[fi][*b])));
        },
        IrInstruction::JumpIf(t, e) => {
            if *t >= functions[fi].blocks.len() || *e >= functions[fi].blocks.len() {
                return Err(CompileError::LinkError);
            }
            out.add_opcode(Opcode::Flow(FlowOpcode::JumpIfTrue(starts[fi][*t])));
            out.add_opcode(Opcode::Flow(FlowOpcode::Jump(starts[fi][*e])));
        },
        IrInstruction::Call(name) => {
            let j = match find_index(functions, name.as_str()) {
                Some(j) => j,
                None => {
                    return Err(CompileError::LinkError);
                },
            };
            let entry = functions[j].entry_block;
            if entry >= functions[j].blocks.len() {
                return Err(CompileError::LinkError);
            }
            out.add_opcode(Opcode::Flow(FlowOpcode::Call(starts[j][entry])));
        },
        IrInstruction::Return => {
            out.add_opcode(Opcode::Flow(FlowOpcode::Return));
        },
        IrInstruction::Print => {
            out.add_opcode(Opcode::IO(IOOpcode::Print));
        },
        IrInstruction::NoOp => {
            return Err(CompileError::MalformedAst);
        },
        IrInstruction::Neg => {
            return Err(CompileError::MalformedAst);
        },
    }
    proof {
        let lowered = lower_instr(fs, fi as int, instr@);
        assert(lowered is Ok);
        assert(out@ =~= before + lowered.unwrap());
    }
    Ok(())
}

/// Appends the opcodes of the instructions of one block of function `fi`.
fn flatten_block(
    out: &mut ByteCode,
    functions: &Vec<IrFunction>,
    starts: &Vec<Vec<u32>>,
    fi: usize,
    b: usize,
) -> (r: Result<(), CompileError>)
    requires
        fi < functions.len(),
        b < functions[fi as int].blocks.len(),
        program_len(functions_view(functions@)) <= u32::MAX,
        holds_addresses(functions_view(functions@), starts@),
    ensures
        then_opcodes(Ok(old(out)@), block_parts(functions_view(functions@), fi as int)[b as int])
            == (match r {
            Ok(()) => Ok(final(out)@),
            Err(e) => Err(e),
        }),
{
    let ghost fs = functions_view(functions@);
    let ghost before = out@;
    let instructions = &functions[fi].blocks[b].instructions;
    let ghost parts = code_parts(fs, fi as int, instrs_view(instructions@));
    assert(parts == code_parts(fs, fi as int, fs[fi as int].blocks[b as int].instructions));
    assert(concat_all(parts) == block_parts(fs, fi as int)[b as int]);
    let mut k: usize = 0;
    assert(parts.take(0) =~= Seq::empty());
    assert(before + Seq::<OpcodeView>::empty() =~= before);
    while k < instructions.len()
        invariant
            k <= instructions.len(),
            fi < functions.len(),
            fs == functions_view(functions@),
            program_len(fs) <= u32::MAX,
            holds_addresses(fs, starts@),
            parts == code_parts(fs, fi as int, instrs_view(instructions@)),
            concat_all(parts) == block_parts(fs, fi as int)[b as int],
            then_opcodes(Ok(before), concat_all(parts.take(k as int))) == Ok::<
                Seq<OpcodeView>,
                CompileError,
            >(out@),
        decreases instructions.len() - k,
    {
        proof {
            lemma_concat_step(parts, k as int);
        }
        let ghost so_far = out@;
        match flatten_instr(out, functions, starts, fi, &instructions[k]) {
            Ok(()) => {
                proof {
                    let done = concat_all(parts.take(k as int)).unwrap();
                    let more = parts[k as int].unwrap();
                    assert(before + (done + more) =~= (before + done) + more);
                }
            },
            Err(e) => {
                proof {
                    lemma_concat_prefix_error(parts, k as int + 1);
                }
                return Err(e);
            },
        }
        k += 1;
    }
    assert(parts.take(k as int) =~= parts);
    Ok(())
}

/// Appends the opcodes of function `fi`.
fn flatten_function(
    out: &mut ByteCode,
    functions: &Vec<IrFunction>,
    starts: &Vec<Vec<u32>>,
    fi: usize,
) -> (r: Result<(), CompileError>)
    requires
        fi < functions.len(),
        program_len(functions_view(functions@)) <= u32::MAX,
        holds_addresses(functions_view(functions@), starts@),
    ensures
        then_opcodes(Ok(old(out)@), lower_function(functions_view(functions@), fi as int)) == (
        match r {
            Ok(()) => Ok(final(out)@),
            Err(e) => Err(e),
        }),
{
    let ghost fs = functions_view(functions@);
    let ghost before = out@;
    let ghost parts = block_parts(fs, fi as int);
    let function = &functions[fi];
    let mut b: usize = 0;
    assert(parts.take(0) =~= Seq::empty());
    assert(before + Seq::<OpcodeView>::empty() =~= before);
    while b < function.blocks.len()
        invariant
            b <= function.blocks.len(),
            fi < functions.len(),
            function == functions[fi as int],
            fs == functions_view(functions@),
            program_len(fs) <= u32::MAX,
            holds_addresses(fs, starts@),
            parts == block_parts(fs, fi as int),
            then_opcodes(Ok(before), concat_all(parts.take(b as int))) == Ok::<
                Seq<OpcodeView>,
                CompileError,
            >(out@),
        decreases function.blocks.len() - b,
    {
        proof {
            lemma_concat_step(parts, b as int);
        }
        match flatten_block(out, functions, starts, fi, b) {
            Ok(()) => {
                proof {
                    let done = concat_all(parts.take(b as int)).unwrap();
                    let more = parts[b as int].unwrap();
                    assert(before + (done + more) =~= (before + done) + more);
                }
            },
            Err(e) => {
                proof {
                    lemma_concat_prefix_error(parts, b as int + 1);
                }
                return Err(e);
            },
        }
        b += 1;
    }
    assert(parts.take(b as int) =~= parts);
    let ghost body = concat_all(parts).unwrap();
    if str_eq(function.name.as_str(), "main") {
        out.add_opcode(Opcode::Halt);
        assert(out@ =~= before + (body + function_end(fs[fi as int])));
    } else {
        assert(out@ =~= before + (body + function_end(fs[fi as int])));
    }
    Ok(())
}

/// Flattens a program to bytecode: every block gets its address, and every
/// instruction becomes its opcodes. The result is `LinkError` or
/// `MalformedAst` where the program cannot be flattened.
pub fn ir_to_bytecode(ir: IrProgram) -> (r: Result<ByteCode, CompileError>)
    ensures
        flattened_view(r) == flatten_spec(ir@),
{
    let ghost fs = functions_view(ir.functions@);
    let ghost parts = function_parts(fs);
    let starts = match block_addresses(&ir.functions) {
        Some(starts) => starts,
        None => {
            return Err(CompileError::LinkError);
        },
    };
    let mut bytecode = ByteCode::new();
    let mut fi: usize = 0;
    assert(parts.take(0) =~= Seq::empty());
    while fi < ir.functions.len()
        invariant
            fi <= ir.functions.len(),
            fs == functions_view(ir.functions@),
            program_len(fs) <= u32::MAX,
            holds_addresses(fs, starts@),
            parts == function_parts(fs),
            concat_all(parts.take(fi as int)) == Ok::<Seq<OpcodeView>, CompileError>(bytecode@),
        decreases ir.functions.len() - fi,
    {
        proof {
            lemma_concat_step(parts, fi as int);
        }
        match flatten_function(&mut bytecode, &ir.functions, &starts, fi) {
            Ok(()) => {},
            Err(e) => {
                proof {
                    lemma_concat_prefix_error(parts, fi as int + 1);
                }
                return Err(e);
            },
        }
        fi += 1;
    }
    assert(parts.take(fi as int) =~= parts);
    Ok(bytecode)
}

} // verus!
