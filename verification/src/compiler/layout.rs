use crate::compiler::ir::{instrs_view, IrInstruction, IrInstructionView};
use crate::compiler::program::{
    find_function, functions_view, BasicBlockView, IrFunction, IrFunctionView,
};
use crate::types::text::str_eq;
use vstd::prelude::*;

verus! {

/// The sum of some lengths.
pub open spec fn total(lens: Seq<nat>) -> nat
    decreases lens.len(),
{
    if lens.len() == 0 {
        0
    } else {
        total(lens.drop_last()) + lens.last()
    }
}

/// The sum of one more length is the sum so far and that length.
pub proof fn lemma_total_step(lens: Seq<nat>, i: int)
    requires
        0 <= i < lens.len(),
    ensures
        total(lens.take(i + 1)) == total(lens.take(i)) + lens[i],
{
    assert(lens.take(i + 1).drop_last() =~= lens.take(i));
}

/// The sum of the first lengths is at most the sum of all.
pub proof fn lemma_total_prefix(lens: Seq<nat>, i: int)
    requires
        0 <= i <= lens.len(),
    ensures
        total(lens.take(i)) <= total(lens),
    decreases lens.len() - i,
{
    if i == lens.len() {
        assert(lens.take(i) =~= lens);
    } else {
        lemma_total_step(lens, i);
        lemma_total_prefix(lens, i + 1);
    }
}

/// The number of opcodes that an instruction becomes: two for `Load`,
/// `Store` and `JumpIf`, one for every other that has an opcode.
pub open spec fn instr_len(i: IrInstructionView) -> nat {
    match i {
        IrInstructionView::Load(_) => 2,
        IrInstructionView::Store(_) => 2,
        IrInstructionView::JumpIf(_, _) => 2,
        _ => 1,
    }
}

/// The lengths of some instructions, in order.
pub open spec fn instr_lens(code: Seq<IrInstructionView>) -> Seq<nat> {
    Seq::new(code.len(), |i: int| instr_len(code[i]))
}

/// The number of opcodes that a block becomes.
pub open spec fn block_len(b: BasicBlockView) -> nat {
    total(instr_lens(b.instructions))
}

/// The lengths of some blocks, in order.
pub open spec fn block_lens(blocks: Seq<BasicBlockView>) -> Seq<nat> {
    Seq::new(blocks.len(), |i: int| block_len(blocks[i]))
}

/// Whether a function is the program's entry: the one called `main`.
pub open spec fn is_main(f: IrFunctionView) -> bool {
    f.name == "main"@
}

/// The number of opcodes that a function becomes: those of its blocks, and
/// the `Halt` that ends `main`.
pub open spec fn function_len(f: IrFunctionView) -> nat {
    total(block_lens(f.blocks)) + if is_main(f) {
        1nat
    } else {
        0nat
    }
}

/// The lengths of some functions, in order.
pub open spec fn function_lens(fs: Seq<IrFunctionView>) -> Seq<nat> {
    Seq::new(fs.len(), |i: int| function_len(fs[i]))
}

/// The number of opcodes that a program becomes.
pub open spec fn program_len(fs: Seq<IrFunctionView>) -> nat {
    total(function_lens(fs))
}

/// The address of block `b` of function `fi`: the functions are laid out
/// one after another in their order, and within a function its blocks in the
/// order of their indices.
pub open spec fn block_address(fs: Seq<IrFunctionView>, fi: int, b: int) -> nat {
    total(function_lens(fs).take(fi)) + total(block_lens(fs[fi].blocks).take(b))
}

/// The address at which the function called `name` begins, if there is
/// such a function and the block in which it begins exists.
pub open spec fn entry_address(fs: Seq<IrFunctionView>, name: Seq<char>) -> Option<nat> {
    match find_function(fs, name, 0) {
        Some(j) => if fs[j].entry_block < fs[j].blocks.len() {
            Some(block_address(fs, j, fs[j].entry_block as int))
        } else {
            None
        },
        None => None,
    }
}

/// Whether `starts` holds, for every block of every function, its address.
pub open spec fn holds_addresses(fs: Seq<IrFunctionView>, starts: Seq<Vec<u32>>) -> bool {
    &&& starts.len() == fs.len()
    &&& forall|fi: int|
        0 <= fi < fs.len() ==> (#[trigger] starts[fi]).len() == fs[fi].blocks.len()
    &&& forall|fi: int, b: int|
        0 <= fi < fs.len() && 0 <= b < fs[fi].blocks.len() ==> #[trigger] starts[fi][b]
            == block_address(fs, fi, b)
}

/// The address of every block of a program lies within the program.
pub proof fn lemma_address_in_program(fs: Seq<IrFunctionView>, fi: int, b: int)
    requires
        0 <= fi < fs.len(),
        0 <= b <= fs[fi].blocks.len(),
    ensures
        block_address(fs, fi, b) <= program_len(fs),
{
    lemma_total_prefix(block_lens(fs[fi].blocks), b);
    lemma_total_step(function_lens(fs), fi);
    lemma_total_prefix(function_lens(fs), fi + 1);
}

/// The number of opcodes that a block's instructions become, unless it is
/// more than 32 bits hold.
fn code_length(instructions: &Vec<IrInstruction>) -> (r: Option<u32>)
    ensures
        match r {
            Some(n) => n == total(instr_lens(instrs_view(instructions@))),
            None => total(instr_lens(instrs_view(instructions@))) > u32::MAX,
        },
{
    let ghost lens = instr_lens(instrs_view(instructions@));
    let mut n: u32 = 0;
    let mut i: usize = 0;
    assert(lens.take(0) =~= Seq::<nat>::empty());
    while i < instructions.len()
        invariant
            i <= instructions.len(),
            lens == instr_lens(instrs_view(instructions@)),
            n == total(lens.take(i as int)),
        decreases instructions.len() - i,
    {
        let step: u32 = match &instructions[i] {
            IrInstruction::Load(_) => 2,
            IrInstruction::Store(_) => 2,
            IrInstruction::JumpIf(_, _) => 2,
            _ => 1,
        };
        proof {
            lemma_total_step(lens, i as int);
            lemma_total_prefix(lens, i as int + 1);
        }
        if n > u32::MAX - step {
            return None;
        }
        n = n + step;
        i += 1;
    }
    assert(lens.take(i as int) =~= lens);
    Some(n)
}

/// The addresses of the blocks of one function that begins at `base`, and
/// the address after the function; unless that is more than 32 bits hold.
fn function_addresses(function: &IrFunction, base: u32) -> (r: Option<(Vec<u32>, u32)>)
    ensures
        match r {
            Some((starts, end)) => {
                &&& end == base + function_len(function@)
                &&& starts.len() == function.blocks.len()
                &&& forall|b: int|
                    0 <= b < starts.len() ==> #[trigger] starts[b] == base + total(
                        block_lens(function@.blocks).take(b),
                    )
            },
            None => base + function_len(function@) > u32::MAX,
        },
{
    let ghost lens = block_lens(function@.blocks);
    let mut starts: Vec<u32> = Vec::new();
    let mut at: u32 = base;
    let mut b: usize = 0;
    assert(lens.take(0) =~= Seq::<nat>::empty());
    while b < function.blocks.len()
        invariant
            b <= function.blocks.len(),
            lens == block_lens(function@.blocks),
            at == base + total(lens.take(b as int)),
            starts.len() == b,
            forall|k: int| 0 <= k < b ==> #[trigger] starts[k] == base + total(lens.take(k)),
        decreases function.blocks.len() - b,
    {
        proof {
            lemma_total_step(lens, b as int);
            lemma_total_prefix(lens, b as int + 1);
        }
        starts.push(at);
        match code_length(&function.blocks[b].instructions) {
            Some(n) => {
                if at > u32::MAX - n {
                    return None;
                }
                at = at + n;
            },
            None => {
                return None;
            },
        }
        b += 1;
    }
    assert(lens.take(b as int) =~= lens);
    if str_eq(function.name.as_str(), "main") {
        if at == u32::MAX {
            return None;
        }
        at = at + 1;
    }
    Some((starts, at))
}

/// The address of every block of every function, unless the program is
/// longer than 32 bits can count.
pub fn block_addresses(functions: &Vec<IrFunction>) -> (r: Option<Vec<Vec<u32>>>)
    ensures
        match r {
            Some(starts) => program_len(functions_view(functions@)) <= u32::MAX
                && holds_addresses(functions_view(functions@), starts@),
            None => program_len(functions_view(functions@)) > u32::MAX,
        },
{
    let ghost fs = functions_view(functions@);
    let ghost lens = function_lens(fs);
    let mut all: Vec<Vec<u32>> = Vec::new();
    let mut at: u32 = 0;
    let mut fi: usize = 0;
    assert(lens.take(0) =~= Seq::<nat>::empty());
    while fi < functions.len()
        invariant
            fi <= functions.len(),
            fs == functions_view(functions@),
            lens == function_lens(fs),
            at == total(lens.take(fi as int)),
            all.len() == fi,
            forall|k: int| 0 <= k < fi ==> (#[trigger] all[k]).len() == fs[k].blocks.len(),
            forall|k: int, b: int|
                0 <= k < fi && 0 <= b < fs[k].blocks.len() ==> #[trigger] all[k][b]
                    == block_address(fs, k, b),
        decreases functions.len() - fi,
    {
        proof {
            lemma_total_step(lens, fi as int);
            lemma_total_prefix(lens, fi as int + 1);
        }
        match function_addresses(&functions[fi], at) {
            Some((starts, end)) => {
                all.push(starts);
                at = end;
            },
            None => {
                return None;
            },
        }
        fi += 1;
    }
    assert(lens.take(fi as int) =~= lens);
    Some(all)
}

} // verus!
