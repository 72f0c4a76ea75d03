use crate::compiler::error::CompileError;
use crate::compiler::types::{
    expr_view, exprs_view, lemma_call_view, AstExpression, AstLiteral, ExprView,
};
use crate::types::text::str_eq;
use crate::types::value::{Value, ValueView};
use vstd::prelude::*;

verus! {

/// An instruction of the intermediate representation as contracts see it.
pub enum IrInstructionView {
    Push(ValueView),
    Pop,
    Dup,
    Swap,
    Load(Seq<char>),
    Store(Seq<char>),
    Add,
    Sub,
    Mul,
    Div,
    Eq,
    Ne,
    Lt,
    Gt,
    Le,
    Ge,
    Jump(usize),
    JumpIf(usize, usize),
    Call(Seq<char>),
    Return,
    Print,
    NoOp,
    Neg,
}

/// An instruction of the intermediate representation. `Load` and `Store`
/// name their variable, `Call` its function, and `Jump` and `JumpIf` blocks
/// of the function they stand in, by index.
#[derive(Debug, PartialEq, Eq)]
pub enum IrInstruction {
    Push(Value),
    Pop,
    Dup,
    Swap,
    Load(String),
    Store(String),
    Add,
    Sub,
    Mul,
    Div,
    Eq,
    Ne,
    Lt,
    Gt,
    Le,
    Ge,
    Jump(usize),
    JumpIf(usize, usize),
    Call(String),
    Return,
    Print,
    NoOp,
    Neg,
}

impl View for IrInstruction {
    type V = IrInstructionView;

    open spec fn view(&self) -> IrInstructionView {
        match self {
            IrInstruction::Push(v) => IrInstructionView::Push(v@),
            IrInstruction::Pop => IrInstructionView::Pop,
            IrInstruction::Dup => IrInstructionView::Dup,
            IrInstruction::Swap => IrInstructionView::Swap,
            IrInstruction::Load(n) => IrInstructionView::Load(n@),
            IrInstruction::Store(n) => IrInstructionView::Store(n@),
            IrInstruction::Add => IrInstructionView::Add,
            IrInstruction::Sub => IrInstructionView::Sub,
            IrInstruction::Mul => IrInstructionView::Mul,
            IrInstruction::Div => IrInstructionView::Div,
            IrInstruction::Eq => IrInstructionView::Eq,
            IrInstruction::Ne => IrInstructionView::Ne,
            IrInstruction::Lt => IrInstructionView::Lt,
            IrInstruction::Gt => IrInstructionView::Gt,
            IrInstruction::Le => IrInstructionView::Le,
            IrInstruction::Ge => IrInstructionView::Ge,
            IrInstruction::Jump(b) => IrInstructionView::Jump(*b),
            IrInstruction::JumpIf(t, e) => IrInstructionView::JumpIf(*t, *e),
            IrInstruction::Call(n) => IrInstructionView::Call(n@),
            IrInstruction::Return => IrInstructionView::Return,
            IrInstruction::Print => IrInstructionView::Print,
            IrInstruction::NoOp => IrInstructionView::NoOp,
            IrInstruction::Neg => IrInstructionView::Neg,
        }
    }
}

impl Clone for IrInstruction {
    fn clone(&self) -> (r: Self)
        ensures
            r@ == self@,
    {
        match self {
            IrInstruction::Push(v) => IrInstruction::Push(v.clone()),
            IrInstruction::Pop => IrInstruction::Pop,
            IrInstruction::Dup => IrInstruction::Dup,
            IrInstruction::Swap => IrInstruction::Swap,
            IrInstruction::Load(n) => IrInstruction::Load(n.clone()),
            IrInstruction::Store(n) => IrInstruction::Store(n.clone()),
            IrInstruction::Add => IrInstruction::Add,
            IrInstruction::Sub => IrInstruction::Sub,
            IrInstruction::Mul => IrInstruction::Mul,
            IrInstruction::Div => IrInstruction::Div,
            IrInstruction::Eq => IrInstruction::Eq,
            IrInstruction::Ne => IrInstruction::Ne,
            IrInstruction::Lt => IrInstruction::Lt,
            IrInstruction::Gt => IrInstruction::Gt,
            IrInstruction::Le => IrInstruction::Le,
            IrInstruction::Ge => IrInstruction::Ge,
            IrInstruction::Jump(b) => IrInstruction::Jump(*b),
            IrInstruction::JumpIf(t, e) => IrInstruction::JumpIf(*t, *e),
            IrInstruction::Call(n) => IrInstruction::Call(n.clone()),
            IrInstruction::Return => IrInstruction::Return,
            IrInstruction::Print => IrInstruction::Print,
            IrInstruction::NoOp => IrInstruction::NoOp,
            IrInstruction::Neg => IrInstruction::Neg,
        }
    }
}

/// The models of a sequence of instructions, in order.
pub open spec fn instrs_view(is: Seq<IrInstruction>) -> Seq<IrInstructionView> {
    Seq::new(is.len(), |i: int| is[i]@)
}

/// The model of the result of lowering an expression.
pub open spec fn lowered_view(r: Result<Vec<IrInstruction>, CompileError>) -> Result<
    Seq<IrInstructionView>,
    CompileError,
> {
    match r {
        Ok(is) => Ok(instrs_view(is@)),
        Err(e) => Err(e),
    }
}

/// The instruction for an operator between two operands.
pub open spec fn binary_instruction(op: Seq<char>) -> Option<IrInstructionView> {
    if op == "+"@ {
        Some(IrInstructionView::Add)
    } else if op == "-"@ {
        Some(IrInstructionView::Sub)
    } else if op == "*"@ {
        Some(IrInstructionView::Mul)
    } else if op == "/"@ {
        Some(IrInstructionView::Div)
    } else if op == "=="@ {
        Some(IrInstructionView::Eq)
    } else if op == "!="@ {
        Some(IrInstructionView::Ne)
    } else if op == "<"@ {
        Some(IrInstructionView::Lt)
    } else if op == ">"@ {
        Some(IrInstructionView::Gt)
    } else if op == "<="@ {
        Some(IrInstructionView::Le)
    } else if op == ">="@ {
        Some(IrInstructionView::Ge)
    } else {
        None
    }
}

/// The instruction for an operator before one operand.
pub open spec fn unary_instruction(op: Seq<char>) -> Option<IrInstructionView> {
    if op == "-"@ {
        Some(IrInstructionView::Neg)
    } else {
        None
    }
}

/// `first`, then `second`, where both were lowered.
pub open spec fn then_instrs(
    first: Result<Seq<IrInstructionView>, CompileError>,
    second: Result<Seq<IrInstructionView>, CompileError>,
) -> Result<Seq<IrInstructionView>, CompileError> {
    match (first, second) {
        (Ok(a), Ok(b)) => Ok(a + b),
        (Err(e), _) => Err(e),
        (_, Err(e)) => Err(e),
    }
}

/// `code`, then the instruction `last`, if there is one; an operator that
/// names no instruction is `MalformedAst`.
pub open spec fn then_operator(
    code: Result<Seq<IrInstructionView>, CompileError>,
    last: Option<IrInstructionView>,
) -> Result<Seq<IrInstructionView>, CompileError> {
    match (code, last) {
        (Ok(a), Some(i)) => Ok(a.push(i)),
        (Err(e), _) => Err(e),
        (_, None) => Err(CompileError::MalformedAst),
    }
}

/// The instructions that leave the value of an expression on the stack. Of
/// two operands the right one is computed first, so that the left one lies on
/// top when the operator's instruction runs. The arguments of a call are
/// computed in order.
pub open spec fn lower_expr(e: ExprView) -> Result<Seq<IrInstructionView>, CompileError>
    decreases e,
{
    match e {
        ExprView::Literal(v) => Ok(seq![IrInstructionView::Push(v)]),
        ExprView::Variable(name) => Ok(seq![IrInstructionView::Load(name)]),
        ExprView::Unary(op, inner) => then_operator(lower_expr(*inner), unary_instruction(op)),
        ExprView::Binary(op, left, right) => then_operator(
            then_instrs(lower_expr(*right), lower_expr(*left)),
            binary_instruction(op),
        ),
        ExprView::Call(name, args) => then_operator(
            lower_exprs(args),
            Some(IrInstructionView::Call(name)),
        ),
    }
}

/// The instructions of several expressions, one after another.
pub open spec fn lower_exprs(es: Seq<ExprView>) -> Result<Seq<IrInstructionView>, CompileError>
    decreases es,
{
    if es.len() == 0 {
        Ok(Seq::empty())
    } else {
        then_instrs(lower_exprs(es.drop_last()), lower_expr(es.last()))
    }
}

/// The instruction for an operator between two operands.
fn binary_operator(op: &str) -> (r: Option<IrInstruction>)
    ensures
        match r {
            Some(i) => binary_instruction(op@) == Some(i@),
            None => binary_instruction(op@) is None,
        },
{
    if str_eq(op, "+") {
        Some(IrInstruction::Add)
    } else if str_eq(op, "-") {
        Some(IrInstruction::Sub)
    } else if str_eq(op, "*") {
        Some(IrInstruction::Mul)
    } else if str_eq(op, "/") {
        Some(IrInstruction::Div)
    } else if str_eq(op, "==") {
        Some(IrInstruction::Eq)
    } else if str_eq(op, "!=") {
        Some(IrInstruction::Ne)
    } else if str_eq(op, "<") {
        Some(IrInstruction::Lt)
    } else if str_eq(op, ">") {
        Some(IrInstruction::Gt)
    } else if str_eq(op, "<=") {
        Some(IrInstruction::Le)
    } else if str_eq(op, ">=") {
        Some(IrInstruction::Ge)
    } else {
        None
    }
}

/// Moves the instructions of `more` to the end of `code`.
fn append_instrs(code: &mut Vec<IrInstruction>, more: Vec<IrInstruction>)
    ensures
        instrs_view(final(code)@) == instrs_view(old(code)@) + instrs_view(more@),
{
    let mut more = more;
    let ghost added = more@;
    code.append(&mut more);
    assert(instrs_view(code@) =~= instrs_view(old(code)@) + instrs_view(added));
}

/// Lowers an expression to the instructions that leave its value on the
/// stack. An operator that the language does not have is `MalformedAst`.
pub fn expression_to_ir(expression: &AstExpression) -> (r: Result<
    Vec<IrInstruction>,
    CompileError,
>)
    ensures
        lowered_view(r) == lower_expr(expression@),
    decreases expression,
{
    match expression {
        AstExpression::Literal(literal) => {
            let value = match literal {
                AstLiteral::UInt(n) => Value::UInt(*n),
                AstLiteral::String(s) => Value::String(s.clone()),
                AstLiteral::Bool(b) => Value::Bool(*b),
                AstLiteral::Null => Value::Null,
            };
            let mut instructions: Vec<IrInstruction> = Vec::new();
            instructions.push(IrInstruction::Push(value));
            assert(instrs_view(instructions@) =~= seq![IrInstructionView::Push(literal@)]);
            Ok(instructions)
        },
        AstExpression::Variable(name) => {
            let mut instructions: Vec<IrInstruction> = Vec::new();
            instructions.push(IrInstruction::Load(name.clone()));
            assert(instrs_view(instructions@) =~= seq![IrInstructionView::Load(name@)]);
            Ok(instructions)
        },
        AstExpression::UnaryOperation(op, expr) => {
            let mut instructions = match expression_to_ir(expr) {
                Ok(is) => is,
                Err(e) => {
                    return Err(e);
                },
            };
            if !str_eq(op.as_str(), "-") {
                return Err(CompileError::MalformedAst);
            }
            let ghost before = instrs_view(instructions@);
            instructions.push(IrInstruction::Neg);
            assert(instrs_view(instructions@) =~= before.push(IrInstructionView::Neg));
            Ok(instructions)
        },
        AstExpression::BinaryOperation(op, left, right) => {
            let mut instructions = match expression_to_ir(right) {
                Ok(is) => is,
                Err(e) => {
                    return Err(e);
                },
            };
            match expression_to_ir(left) {
                Ok(is) => {
                    append_instrs(&mut instructions, is);
                },
                Err(e) => {
                    return Err(e);
                },
            }
            match binary_operator(op.as_str()) {
                Some(i) => {
                    let ghost before = instrs_view(instructions@);
                    instructions.push(i);
                    assert(instrs_view(instructions@) =~= before.push(i@));
                    Ok(instructions)
                },
                None => Err(CompileError::MalformedAst),
            }
        },
        AstExpression::FunctionCall(name, args) => {
            proof {
                lemma_call_view(*name, *args);
            }
            let mut instructions: Vec<IrInstruction> = Vec::new();
            let mut i: usize = 0;
            assert(exprs_view(args@).take(0) =~= Seq::<ExprView>::empty());
            assert(instrs_view(instructions@) =~= Seq::<IrInstructionView>::empty());
            while i < args.len()
                invariant
                    i <= args.len(),
                    expression == (AstExpression::FunctionCall(*name, *args)),
                    lower_exprs(exprs_view(args@).take(i as int)) == Ok::<
                        Seq<IrInstructionView>,
                        CompileError,
                    >(instrs_view(instructions@)),
                decreases args.len() - i,
            {
                proof {
                    let es = exprs_view(args@);
                    assert(es.take(i as int + 1).drop_last() =~= es.take(i as int));
                    assert(es.take(i as int + 1).last() == expr_view(args@[i as int]));
                }
                match expression_to_ir(&args[i]) {
                    Ok(is) => {
                        append_instrs(&mut instructions, is);
                    },
                    Err(e) => {
                        proof {
                            let es = exprs_view(args@);
                            lemma_call_view(*name, *args);
                            lemma_lower_expr_fails_one_way(es[i as int]);
                            assert(lower_exprs(es.take(i as int + 1)) is Err);
                            lemma_lower_exprs_prefix_fails(es, i as int + 1);
                        }
                        return Err(e);
                    },
                }
                i += 1;
            }
            assert(exprs_view(args@).take(i as int) =~= exprs_view(args@));
            let ghost before = instrs_view(instructions@);
            instructions.push(IrInstruction::Call(name.clone()));
            assert(instrs_view(instructions@) =~= before.push(IrInstructionView::Call(name@)));
            Ok(instructions)
        },
    }
}

/// Where the first `n` of some expressions cannot be lowered, all of them
/// cannot.
pub proof fn lemma_lower_exprs_prefix_fails(es: Seq<ExprView>, n: int)
    requires
        0 <= n <= es.len(),
        lower_exprs(es.take(n)) is Err,
    ensures
        lower_exprs(es) == Err::<Seq<IrInstructionView>, CompileError>(CompileError::MalformedAst),
    decreases es.len() - n,
{
    lemma_lowering_fails_one_way(es.take(n));
    if n == es.len() {
        assert(es.take(n) =~= es);
    } else {
        assert(es.take(n + 1).drop_last() =~= es.take(n));
        lemma_lower_exprs_prefix_fails(es, n + 1);
    }
}

/// Lowering fails in one way only.
pub proof fn lemma_lowering_fails_one_way(es: Seq<ExprView>)
    ensures
        lower_exprs(es) is Err ==> lower_exprs(es) == Err::<Seq<IrInstructionView>, CompileError>(
            CompileError::MalformedAst,
        ),
    decreases es, 0nat,
{
    if es.len() > 0 {
        lemma_lowering_fails_one_way(es.drop_last());
        lemma_lower_expr_fails_one_way(es.last());
    }
}

/// Lowering fails in one way only.
pub proof fn lemma_lower_expr_fails_one_way(e: ExprView)
    ensures
        lower_expr(e) is Err ==> lower_expr(e) == Err::<Seq<IrInstructionView>, CompileError>(
            CompileError::MalformedAst,
        ),
    decreases e, 1nat,
{
    match e {
        ExprView::Literal(_) => {},
        ExprView::Variable(_) => {},
        ExprView::Unary(_, inner) => {
            lemma_lower_expr_fails_one_way(*inner);
        },
        ExprView::Binary(_, left, right) => {
            lemma_lower_expr_fails_one_way(*left);
            lemma_lower_expr_fails_one_way(*right);
        },
        ExprView::Call(_, args) => {
            lemma_lowering_fails_one_way(args);
        },
    }
}

} // verus!
