use vstd::prelude::*;

verus! {

/// The rules of the grammar by which a parse tree tells what a node is.
/// `Other` stands for every rule that the reading of the tree never asks
/// for: operators, blocks, the characters of a string.
#[derive(Debug, Clone, Copy, PartialEq, Eq, Structural)]
pub enum Rule {
    EndOfInput,
    Program,
    Statements,
    Statement,
    AssignmentStmt,
    Assignment,
    WhileStatement,
    ExpressionStmt,
    Expression,
    EqualityExpr,
    RelationalExpr,
    AdditiveExpr,
    MultiplicativeExpr,
    UnaryExpr,
    PrimaryExpr,
    FunctionCall,
    Arguments,
    Literal,
    Number,
    Bool,
    Null,
    String,
    Inner,
    Identifier,
    Other,
}

/// A node of a parse tree as contracts see it.
pub struct ParseNodeView {
    pub rule: Rule,
    pub text: Seq<char>,
    pub children: Seq<ParseNodeView>,
}

/// A node of a parse tree: the rule that matched, the text that it
/// matched, and the nodes of the rules that matched inside it, in order.
#[derive(Debug)]
pub struct ParseNode {
    pub rule: Rule,
    pub text: String,
    pub children: Vec<ParseNode>,
}

/// The model of a node.
pub open spec fn node_view(n: ParseNode) -> ParseNodeView
    decreases n,
{
    ParseNodeView {
        rule: n.rule,
        text: n.text@,
        children: Seq::new(
            n.children@.len(),
            |i: int|
                if 0 <= i < n.children@.len() {
                    node_view(n.children@[i])
                } else {
                    ParseNodeView { rule: Rule::Other, text: Seq::empty(), children: Seq::empty() }
                },
        ),
    }
}

/// The models of a sequence of nodes, in order.
pub open spec fn nodes_view(ns: Seq<ParseNode>) -> Seq<ParseNodeView> {
    Seq::new(ns.len(), |i: int| node_view(ns[i]))
}

impl View for ParseNode {
    type V = ParseNodeView;

    open spec fn view(&self) -> ParseNodeView {
        node_view(*self)
    }
}

/// The children of a node are modelled one by one.
pub proof fn lemma_node_view(n: ParseNode)
    ensures
        n@.rule == n.rule,
        n@.text == n.text@,
        n@.children == nodes_view(n.children@),
{
    assert(node_view(n).children =~= nodes_view(n.children@));
}

} // verus!
