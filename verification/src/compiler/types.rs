use crate::types::value::ValueView;
use vstd::prelude::*;

verus! {

/// A literal of the source language.
#[derive(Debug, PartialEq, Eq)]
pub enum AstLiteral {
    UInt(u32),
    String(String),
    Bool(bool),
    Null,
}

/// An expression of the source language. An operator is held as it is
/// written: `+ - * / == != < > <= >=` between two operands, `-` before one.
#[derive(Debug, PartialEq, Eq)]
pub enum AstExpression {
    BinaryOperation(String, Box<AstExpression>, Box<AstExpression>),
    UnaryOperation(String, Box<AstExpression>),
    Literal(AstLiteral),
    FunctionCall(String, Vec<AstExpression>),
    Variable(String),
}

/// A statement of the source language.
#[derive(Debug, PartialEq, Eq)]
pub enum AstStatement {
    Assignment(String, AstExpression),
    FunctionDefinition(String, Vec<AstStatement>),
    While(AstExpression, Vec<AstStatement>),
    Expression(AstExpression),
}

/// A program: its statements, in order.
#[derive(Debug)]
pub struct AstProgram {
    pub statements: Vec<AstStatement>,
}

/// An expression as contracts see it. A literal is the value it denotes.
pub enum ExprView {
    Binary(Seq<char>, Box<ExprView>, Box<ExprView>),
    Unary(Seq<char>, Box<ExprView>),
    Literal(ValueView),
    Call(Seq<char>, Seq<ExprView>),
    Variable(Seq<char>),
}

/// A statement as contracts see it.
pub enum StmtView {
    Assignment(Seq<char>, ExprView),
    FunctionDefinition(Seq<char>, Seq<StmtView>),
    While(ExprView, Seq<StmtView>),
    Expression(ExprView),
}

impl View for AstLiteral {
    type V = ValueView;

    open spec fn view(&self) -> ValueView {
        match self {
            AstLiteral::UInt(n) => ValueView::UInt(*n),
            AstLiteral::String(s) => ValueView::String(s@),
            AstLiteral::Bool(b) => ValueView::Bool(*b),
            AstLiteral::Null => ValueView::Null,
        }
    }
}

/// The model of an expression.
pub open spec fn expr_view(e: AstExpression) -> ExprView
    decreases e,
{
    match e {
        AstExpression::BinaryOperation(op, left, right) => ExprView::Binary(
            op@,
            Box::new(expr_view(*left)),
            Box::new(expr_view(*right)),
        ),
        AstExpression::UnaryOperation(op, inner) => ExprView::Unary(
            op@,
            Box::new(expr_view(*inner)),
        ),
        AstExpression::Literal(literal) => ExprView::Literal(literal@),
        AstExpression::FunctionCall(name, args) => ExprView::Call(
            name@,
            Seq::new(
                args@.len(),
                |i: int|
                    if 0 <= i < args@.len() {
                        expr_view(args@[i])
                    } else {
                        ExprView::Literal(ValueView::Null)
                    },
            ),
        ),
        AstExpression::Variable(name) => ExprView::Variable(name@),
    }
}

/// The models of a sequence of expressions, in order.
pub open spec fn exprs_view(es: Seq<AstExpression>) -> Seq<ExprView> {
    Seq::new(es.len(), |i: int| expr_view(es[i]))
}

/// The model of a statement.
pub open spec fn stmt_view(s: AstStatement) -> StmtView
    decreases s,
{
    match s {
        AstStatement::Assignment(name, e) => StmtView::Assignment(name@, expr_view(e)),
        AstStatement::FunctionDefinition(name, body) => StmtView::FunctionDefinition(
            name@,
            Seq::new(
                body@.len(),
                |i: int|
                    if 0 <= i < body@.len() {
                        stmt_view(body@[i])
                    } else {
                        StmtView::Expression(ExprView::Literal(ValueView::Null))
                    },
            ),
        ),
        AstStatement::While(cond, body) => StmtView::While(
            expr_view(cond),
            Seq::new(
                body@.len(),
                |i: int|
                    if 0 <= i < body@.len() {
                        stmt_view(body@[i])
                    } else {
                        StmtView::Expression(ExprView::Literal(ValueView::Null))
                    },
            ),
        ),
        AstStatement::Expression(e) => StmtView::Expression(expr_view(e)),
    }
}

/// The models of a sequence of statements, in order.
pub open spec fn stmts_view(ss: Seq<AstStatement>) -> Seq<StmtView> {
    Seq::new(ss.len(), |i: int| stmt_view(ss[i]))
}

impl View for AstExpression {
    type V = ExprView;

    open spec fn view(&self) -> ExprView {
        expr_view(*self)
    }
}

impl View for AstStatement {
    type V = StmtView;

    open spec fn view(&self) -> StmtView {
        stmt_view(*self)
    }
}

impl View for AstProgram {
    type V = Seq<StmtView>;

    open spec fn view(&self) -> Seq<StmtView> {
        stmts_view(self.statements@)
    }
}

/// The arguments of a call are modelled one by one.
pub proof fn lemma_call_view(name: String, args: Vec<AstExpression>)
    ensures
        expr_view(AstExpression::FunctionCall(name, args)) == ExprView::Call(
            name@,
            exprs_view(args@),
        ),
{
    match expr_view(AstExpression::FunctionCall(name, args)) {
        ExprView::Call(_, a) => {
            assert(a =~= exprs_view(args@));
        },
        _ => {},
    }
}

/// The body of a function definition is modelled statement by statement.
pub proof fn lemma_definition_view(name: String, body: Vec<AstStatement>)
    ensures
        stmt_view(AstStatement::FunctionDefinition(name, body)) == StmtView::FunctionDefinition(
            name@,
            stmts_view(body@),
        ),
{
    match stmt_view(AstStatement::FunctionDefinition(name, body)) {
        StmtView::FunctionDefinition(_, a) => {
            assert(a =~= stmts_view(body@));
        },
        _ => {},
    }
}

/// The body of a loop is modelled statement by statement.
pub proof fn lemma_while_view(cond: AstExpression, body: Vec<AstStatement>)
    ensures
        stmt_view(AstStatement::While(cond, body)) == StmtView::While(
            expr_view(cond),
            stmts_view(body@),
        ),
{
    match stmt_view(AstStatement::While(cond, body)) {
        StmtView::While(_, a) => {
            assert(a =~= stmts_view(body@));
        },
        _ => {},
    }
}

} // verus!
