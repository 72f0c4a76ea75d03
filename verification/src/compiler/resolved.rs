use crate::compiler::error::CompileError;
use crate::compiler::ir::IrInstructionView;
use crate::compiler::ir_compiler::{
    block_parts, code_parts, concat_all, flatten_spec, function_end, function_parts,
    lower_function, lower_instr,
};
use crate::compiler::layout::{
    block_lens, function_lens, instr_lens, lemma_address_in_program, program_len, total,
};
use crate::compiler::program::{IrFunctionView, IrProgramView};
use crate::types::opcode::{FlowOpcode, OpcodeView};
use crate::types::value::ValueView;
use vstd::prelude::*;

verus! {

/// The address that an opcode jumps to or calls, if it has one.
pub open spec fn target(op: OpcodeView) -> Option<u32> {
    match op {
        OpcodeView::Flow(FlowOpcode::Jump(a)) => Some(a),
        OpcodeView::Flow(FlowOpcode::JumpIfTrue(a)) => Some(a),
        OpcodeView::Flow(FlowOpcode::JumpIfFalse(a)) => Some(a),
        OpcodeView::Flow(FlowOpcode::Call(a)) => Some(a),
        _ => None,
    }
}

/// Whether opcodes are linked as flattening links them: no jump or call
/// leads further than `bound`, and every access to the variable store comes
/// directly after the literal that names the variable.
pub open spec fn linked(ops: Seq<OpcodeView>, bound: nat) -> bool {
    &&& forall|i: int|
        0 <= i < ops.len() && target(#[trigger] ops[i]) is Some ==> target(ops[i]).unwrap()
            <= bound
    &&& forall|i: int|
        0 <= i < ops.len() && #[trigger] ops[i] is Memory ==> i > 0 && ops[i - 1] matches OpcodeView::Literal(
            ValueView::String(_),
        )
}

/// The lengths of some runs of opcodes, in order.
pub open spec fn part_lens(parts: Seq<Result<Seq<OpcodeView>, CompileError>>) -> Seq<nat> {
    Seq::new(
        parts.len(),
        |k: int|
            match parts[k] {
                Ok(p) => p.len(),
                Err(_) => 0,
            },
    )
}

/// Two linked runs of opcodes, one after the other, are linked.
pub proof fn lemma_linked_append(a: Seq<OpcodeView>, b: Seq<OpcodeView>, bound: nat)
    requires
        linked(a, bound),
        linked(b, bound),
    ensures
        linked(a + b, bound),
{
    let c = a + b;
    assert forall|i: int| 0 <= i < c.len() && target(#[trigger] c[i]) is Some implies target(
        c[i],
    ).unwrap() <= bound by {
        if i < a.len() {
            assert(c[i] == a[i]);
        } else {
            assert(c[i] == b[i - a.len()]);
        }
    }
    assert forall|i: int| 0 <= i < c.len() && #[trigger] c[i] is Memory implies i > 0 && c[i
        - 1] matches OpcodeView::Literal(ValueView::String(_)) by {
        if i < a.len() {
            assert(c[i] == a[i]);
            assert(c[i - 1] == a[i - 1]);
        } else {
            assert(c[i] == b[i - a.len()]);
            assert(i - a.len() > 0);
            assert(c[i - 1] == b[i - a.len() - 1]);
        }
    }
}

/// Where every part is linked, the whole is linked, and it is as long as
/// its parts together.
pub proof fn lemma_concat_linked(parts: Seq<Result<Seq<OpcodeView>, CompileError>>, bound: nat)
    requires
        concat_all(parts) is Ok,
        forall|k: int|
            0 <= k < parts.len() ==> (#[trigger] parts[k] matches Ok(p) ==> linked(p, bound)),
    ensures
        linked(concat_all(parts).unwrap(), bound),
        concat_all(parts).unwrap().len() == total(part_lens(parts)),
        forall|k: int| 0 <= k < parts.len() ==> #[trigger] parts[k] is Ok,
    decreases parts.len(),
{
    if parts.len() > 0 {
        let init = parts.drop_last();
        assert forall|k: int| 0 <= k < init.len() implies (#[trigger] init[k] matches Ok(p)
            ==> linked(p, bound)) by {
            assert(init[k] == parts[k]);
        }
        lemma_concat_linked(init, bound);
        assert forall|k: int| 0 <= k < parts.len() implies #[trigger] parts[k] is Ok by {
            if k < init.len() {
                assert(init[k] == parts[k]);
            }
        }
        lemma_linked_append(concat_all(init).unwrap(), parts.last().unwrap(), bound);
        assert(part_lens(parts).drop_last() =~= part_lens(init));
    }
}

/// The opcodes of one instruction are linked, and as many as the layout
/// counts for it.
pub proof fn lemma_instr_linked(fs: Seq<IrFunctionView>, fi: int, i: IrInstructionView)
    requires
        0 <= fi < fs.len(),
        program_len(fs) <= u32::MAX,
    ensures
        lower_instr(fs, fi, i) matches Ok(p) ==> linked(p, program_len(fs)) && p.len()
            == crate::compiler::layout::instr_len(i),
{
    match i {
        IrInstructionView::Jump(b) => {
            if b < fs[fi].blocks.len() {
                lemma_address_in_program(fs, fi, b as int);
            }
        },
        IrInstructionView::JumpIf(t, e) => {
            if t < fs[fi].blocks.len() && e < fs[fi].blocks.len() {
                lemma_address_in_program(fs, fi, t as int);
                lemma_address_in_program(fs, fi, e as int);
            }
        },
        IrInstructionView::Call(name) => {
            crate::compiler::program::lemma_find_function(fs, name, 0);
            match crate::compiler::program::find_function(fs, name, 0) {
                Some(j) => {
                    if fs[j].entry_block < fs[j].blocks.len() {
                        lemma_address_in_program(fs, j, fs[j].entry_block as int);
                    }
                },
                None => {},
            }
        },
        _ => {},
    }
}

/// The opcodes of one function are linked, and as many as the layout counts
/// for it.
pub proof fn lemma_function_linked(fs: Seq<IrFunctionView>, fi: int)
    requires
        0 <= fi < fs.len(),
        program_len(fs) <= u32::MAX,
    ensures
        lower_function(fs, fi) matches Ok(p) ==> linked(p, program_len(fs)) && p.len()
            == function_lens(fs)[fi],
{
    if lower_function(fs, fi) is Ok {
        let bound = program_len(fs);
        let blocks = block_parts(fs, fi);
        assert(concat_all(blocks) is Ok);
        assert forall|b: int| 0 <= b < blocks.len() implies (#[trigger] blocks[b] matches Ok(p)
            ==> linked(p, bound) && p.len() == block_lens(fs[fi].blocks)[b]) by {
            if blocks[b] is Ok {
                let code = fs[fi].blocks[b].instructions;
                let parts = code_parts(fs, fi, code);
                assert forall|k: int| 0 <= k < parts.len() implies (#[trigger] parts[k] matches Ok(
                    p,
                ) ==> linked(p, bound)) by {
                    lemma_instr_linked(fs, fi, code[k]);
                }
                lemma_concat_linked(parts, bound);
                assert(part_lens(parts) =~= instr_lens(code)) by {
                    assert forall|k: int| 0 <= k < parts.len() implies part_lens(parts)[k]
                        == instr_lens(code)[k] by {
                        lemma_instr_linked(fs, fi, code[k]);
                    }
                }
            }
        }
        lemma_concat_linked(blocks, bound);
        assert(part_lens(blocks) =~= block_lens(fs[fi].blocks));
        lemma_linked_append(concat_all(blocks).unwrap(), function_end(fs[fi]), bound);
    }
}

/// What flattening returns is linked: it is as long as the layout counts,
/// every jump and call leads to an address within it or to its end, and
/// every `Load` and `Store` comes directly after the literal that names its
/// variable.
pub proof fn lemma_flattened_linked(ir: IrProgramView)
    ensures
        flatten_spec(ir) matches Ok(ops) ==> ops.len() == program_len(ir.functions) && linked(
            ops,
            ops.len(),
        ),
{
    if flatten_spec(ir) is Ok {
        let fs = ir.functions;
        let parts = function_parts(fs);
        assert forall|k: int| 0 <= k < parts.len() implies (#[trigger] parts[k] matches Ok(p)
            ==> linked(p, program_len(fs)) && p.len() == function_lens(fs)[k]) by {
            lemma_function_linked(fs, k);
        }
        lemma_concat_linked(parts, program_len(fs));
        assert(part_lens(parts) =~= function_lens(fs));
    }
}

} // verus!
