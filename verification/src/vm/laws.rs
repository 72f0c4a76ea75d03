use crate::types::opcode::{IOOpcode, OpcodeView};
use crate::types::value::ValueView;
use crate::vm::machine::{
    binary_result, lemma_step_counts, run_spec, step_spec, VMError, VMResult, VmState,
};
use crate::vm::profile::Profile;
use vstd::prelude::*;

verus! {

/// Whether a program holds no `Scan`.
pub open spec fn reads_no_input(code: Seq<OpcodeView>) -> bool {
    forall|i: int| 0 <= i < code.len() ==> code[i] != OpcodeView::IO(IOOpcode::Scan)
}

/// Whether two states differ at most in the input that is pending.
pub open spec fn same_but_input(a: VmState, b: VmState) -> bool {
    a == (VmState { input: a.input, ..b })
}

/// A step keeps the program and lowers no counter.
pub proof fn lemma_step_grows(s: VmState)
    ensures
        step_spec(s).0.code == s.code,
        step_spec(s).0.profile.at_least(s.profile),
{
}

/// A run keeps the program and lowers no counter.
pub proof fn lemma_run_grows(s: VmState)
    ensures
        run_spec(s).0.code == s.code,
        run_spec(s).0.profile.at_least(s.profile),
    decreases usize::MAX - s.profile.executed_instructions,
{
    lemma_step_grows(s);
    lemma_step_counts(s);
    if step_spec(s).1 == VMResult::Continue {
        lemma_run_grows(step_spec(s).0);
    }
}

/// After `Halt` a run reports the counters that the machine holds.
pub proof fn lemma_run_reports_profile(s: VmState)
    ensures
        run_spec(s).1 matches Ok(p) ==> p == run_spec(s).0.profile,
    decreases usize::MAX - s.profile.executed_instructions,
{
    lemma_step_counts(s);
    if step_spec(s).1 == VMResult::Continue {
        lemma_run_reports_profile(step_spec(s).0);
    }
}

/// In a program without `Scan`, a step does not depend on the pending
/// input.
pub proof fn lemma_step_ignores_input(a: VmState, b: VmState)
    requires
        reads_no_input(a.code),
        same_but_input(a, b),
    ensures
        step_spec(a).1 == step_spec(b).1,
        same_but_input(step_spec(a).0, step_spec(b).0),
{
}

/// In a program without `Scan`, a run does not depend on the pending input:
/// two machines that differ in nothing else stop with the same result, the
/// same stack, variable store, counters and output.
pub proof fn lemma_run_ignores_input(a: VmState, b: VmState)
    requires
        reads_no_input(a.code),
        same_but_input(a, b),
    ensures
        run_spec(a).1 == run_spec(b).1,
        same_but_input(run_spec(a).0, run_spec(b).0),
    decreases usize::MAX - a.profile.executed_instructions,
{
    lemma_step_ignores_input(a, b);
    lemma_step_counts(a);
    lemma_step_grows(a);
    if step_spec(a).1 == VMResult::Continue {
        lemma_run_ignores_input(step_spec(a).0, step_spec(b).0);
    }
}

/// Two fresh machines on one program without `Scan`, whatever input was
/// queued for each, run to the same result, the same final stack, the same
/// variable store and the same counters.
pub proof fn lemma_runs_agree(code: Seq<OpcodeView>, first: Seq<Seq<char>>, second: Seq<Seq<char>>)
    requires
        reads_no_input(code),
    ensures
        ({
            let a = run_spec(VmState { input: first, ..VmState::initial(code) });
            let b = run_spec(VmState { input: second, ..VmState::initial(code) });
            &&& a.1 == b.1
            &&& a.0.stack == b.0.stack
            &&& a.0.heap == b.0.heap
            &&& a.0.profile == b.0.profile
            &&& a.0.pc == b.0.pc
            &&& a.0.call_stack == b.0.call_stack
            &&& a.0.output == b.0.output
        }),
{
    lemma_run_ignores_input(
        VmState { input: first, ..VmState::initial(code) },
        VmState { input: second, ..VmState::initial(code) },
    );
}

/// Whether an opcode takes two operands.
pub open spec fn is_binary(op: OpcodeView) -> bool {
    match op {
        OpcodeView::Arithmetic(_) => true,
        OpcodeView::Comparison(_) => true,
        OpcodeView::Logic(o) => o != crate::types::opcode::LogicOpcode::Not,
        _ => false,
    }
}

/// The program that pushes `rhs`, then `lhs`, applies `op` and halts: a
/// fresh machine ends with `lhs op rhs` as the only value on its stack, or
/// fails as the operation fails and leaves the stack empty.
pub proof fn lemma_left_operand_on_top(op: OpcodeView, lhs: ValueView, rhs: ValueView)
    requires
        is_binary(op),
    ensures
        ({
            let code = seq![OpcodeView::Literal(rhs), OpcodeView::Literal(lhs), op, OpcodeView::Halt];
            let end = run_spec(VmState::initial(code));
            match binary_result(op, lhs, rhs) {
                Ok(v) => end.1 is Ok && end.0.stack == seq![v],
                Err(e) => end.1 == Err::<Profile, VMError>(e) && end.0.stack == Seq::<
                    ValueView,
                >::empty(),
            }
        }),
{
    let code = seq![OpcodeView::Literal(rhs), OpcodeView::Literal(lhs), op, OpcodeView::Halt];
    let s0 = VmState::initial(code);
    let s1 = step_spec(s0).0;
    assert(step_spec(s0).1 == VMResult::Continue);
    assert(s1.stack =~= seq![rhs]);
    let s2 = step_spec(s1).0;
    assert(step_spec(s1).1 == VMResult::Continue);
    assert(s2.stack =~= seq![rhs, lhs]);
    assert(s2.pc == 2);
    let s3 = step_spec(s2).0;
    assert(s2.stack.last() == lhs);
    assert(s2.pop().stack =~= seq![rhs]);
    assert(s2.fetched().pop().pop().stack =~= Seq::<ValueView>::empty());
    assert(run_spec(s0) == run_spec(s1));
    assert(run_spec(s1) == run_spec(s2));
    match binary_result(op, lhs, rhs) {
        Ok(v) => {
            assert(step_spec(s2).1 == VMResult::Continue);
            assert(s3.stack =~= seq![v]);
            assert(s3.pc == 3);
            assert(run_spec(s2) == run_spec(s3));
            assert(step_spec(s3).1 == VMResult::Halt);
        },
        Err(e) => {
            assert(step_spec(s2).1 == VMResult::Error(e));
        },
    }
}

} // verus!
