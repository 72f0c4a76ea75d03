use crate::compiler::error::CompileError;
use crate::compiler::parse_tree::{lemma_node_view, nodes_view, ParseNode, ParseNodeView, Rule};
use crate::compiler::types::{
    exprs_view, lemma_call_view, lemma_while_view, stmts_view, AstExpression, AstLiteral,
    AstProgram, AstStatement, ExprView, StmtView,
};
use crate::types::text::str_eq;
use crate::types::value::ValueView;
use vstd::prelude::*;
use vstd::string::{StrSliceExecFns, StringExecFns};
use vstd::utf8::encode_utf8;

verus! {

/// Whether a character is white space: one of the characters that Unicode
/// gives the property `White_Space`.
pub open spec fn is_white_space(c: char) -> bool {
    let u = c as u32;
    (9 <= u <= 13) || u == 0x20 || u == 0x85 || u == 0xA0 || u == 0x1680 || (0x2000 <= u
        <= 0x200A) || u == 0x2028 || u == 0x2029 || u == 0x202F || u == 0x205F || u == 0x3000
}

/// A text without the white space at its beginning.
pub open spec fn trim_start(s: Seq<char>) -> Seq<char>
    decreases s.len(),
{
    if s.len() > 0 && is_white_space(s[0]) {
        trim_start(s.drop_first())
    } else {
        s
    }
}

/// A text without the white space at its end.
pub open spec fn trim_end(s: Seq<char>) -> Seq<char>
    decreases s.len(),
{
    if s.len() > 0 && is_white_space(s.last()) {
        trim_end(s.drop_last())
    } else {
        s
    }
}

/// A text without the white space at its beginning and at its end.
pub open spec fn trimmed(s: Seq<char>) -> Seq<char> {
    trim_end(trim_start(s))
}

/// Whether a character is white space.
fn is_space(c: char) -> (r: bool)
    ensures
        r == is_white_space(c),
{
    let u: u32 = c as u32;
    (9 <= u && u <= 13) || u == 0x20 || u == 0x85 || u == 0xA0 || u == 0x1680 || (0x2000 <= u
        && u <= 0x200A) || u == 0x2028 || u == 0x2029 || u == 0x202F || u == 0x205F || u
        == 0x3000
}

/// Takes the white space off both ends of a text.
pub fn trim_text(s: &str) -> (r: String)
    ensures
        r@ == trimmed(s@),
{
    let n = s.unicode_len();
    let mut from: usize = 0;
    assert(s@.skip(0) =~= s@);
    while from < n
        invariant
            from <= n,
            n == s@.len(),
            trim_start(s@) == trim_start(s@.skip(from as int)),
        ensures
            from <= n,
            trim_start(s@) == s@.skip(from as int),
        decreases n - from,
    {
        assert(s@.skip(from as int)[0] == s@[from as int]);
        if !is_space(s.get_char(from)) {
            break ;
        }
        assert(s@.skip(from as int).drop_first() =~= s@.skip(from as int + 1));
        from += 1;
    }
    let ghost rest = s@.skip(from as int);
    let mut to: usize = n;
    assert(rest.take(n - from) =~= rest);
    while to > from
        invariant
            from <= to <= n,
            n == s@.len(),
            rest == s@.skip(from as int),
            trim_end(rest) == trim_end(rest.take(to - from)),
        ensures
            from <= to <= n,
            trim_end(rest) == rest.take(to - from),
        decreases to,
    {
        assert(rest.take(to - from).last() == s@[to - 1]);
        if !is_space(s.get_char(to - 1)) {
            break ;
        }
        assert(rest.take(to - from).drop_last() =~= rest.take(to - from - 1));
        to -= 1;
    }
    assert(rest.take(to - from) =~= s@.subrange(from as int, to as int));
    String::from_str(s.substring_char(from, to))
}

/// Whether every byte is a decimal digit.
pub open spec fn all_digits(bytes: Seq<u8>) -> bool {
    forall|i: int| 0 <= i < bytes.len() ==> 48 <= #[trigger] bytes[i] <= 57
}

/// The number that decimal digits write.
pub open spec fn decimal_value(digits: Seq<u8>) -> nat
    decreases digits.len(),
{
    if digits.len() == 0 {
        0
    } else {
        (decimal_value(digits.drop_last()) * 10 + (digits.last() - 48)) as nat
    }
}

/// The 32-bit number that a text writes: an optional `+`, then one decimal
/// digit or more, of a value that 32 bits hold.
pub open spec fn number_of(bytes: Seq<u8>) -> Option<u32> {
    let digits = if bytes.len() > 0 && bytes[0] == 43 {
        bytes.drop_first()
    } else {
        bytes
    };
    if digits.len() > 0 && all_digits(digits) && decimal_value(digits) <= u32::MAX {
        Some(decimal_value(digits) as u32)
    } else {
        None
    }
}

/// The value of the first digits is at most the value of all.
proof fn lemma_decimal_value_grows(digits: Seq<u8>, i: int)
    requires
        all_digits(digits),
        0 <= i <= digits.len(),
    ensures
        decimal_value(digits.take(i)) <= decimal_value(digits),
    decreases digits.len() - i,
{
    if i == digits.len() {
        assert(digits.take(i) =~= digits);
    } else {
        assert(digits.take(i + 1).drop_last() =~= digits.take(i));
        assert(digits.take(i + 1).last() == digits[i]);
        lemma_decimal_value_grows(digits, i + 1);
    }
}

/// Reads a 32-bit number.
pub fn parse_number(text: &str) -> (r: Option<u32>)
    ensures
        r == number_of(encode_utf8(text@)),
{
    let bytes = text.as_bytes();
    let start: usize = if bytes.len() > 0 && bytes[0] == 43 {
        1
    } else {
        0
    };
    let ghost digits = if start == 1 {
        bytes@.drop_first()
    } else {
        bytes@
    };
    if bytes.len() == start {
        return None;
    }
    let mut value: u64 = 0;
    let mut i: usize = start;
    assert(digits.take(0) =~= Seq::<u8>::empty());
    while i < bytes.len()
        invariant
            start <= i <= bytes.len(),
            start <= 1,
            bytes@ == encode_utf8(text@),
            digits.len() == bytes.len() - start,
            digits == (if bytes@.len() > 0 && bytes@[0] == 43 {
                bytes@.drop_first()
            } else {
                bytes@
            }),
            forall|j: int| 0 <= j < digits.len() ==> digits[j] == bytes@[j + start],
            all_digits(digits.take(i - start)),
            value == decimal_value(digits.take(i - start)),
            value <= u32::MAX,
        decreases bytes.len() - i,
    {
        let b: u8 = bytes[i];
        let ghost k = i - start;
        proof {
            assert(digits.take(k + 1).drop_last() =~= digits.take(k));
            assert(digits.take(k + 1).last() == b);
        }
        if b < 48 || b > 57 {
            assert(!all_digits(digits)) by {
                assert(digits[k] == b);
            }
            return None;
        }
        assert(all_digits(digits.take(k + 1))) by {
            assert forall|j: int| 0 <= j < k + 1 implies 48 <= #[trigger] digits.take(k + 1)[j]
                <= 57 by {
                if j < k {
                    assert(digits.take(k)[j] == digits.take(k + 1)[j]);
                }
            }
        }
        value = value * 10 + (b - 48) as u64;
        if value > 0xffff_ffff {
            proof {
                if all_digits(digits) {
                    lemma_decimal_value_grows(digits, k + 1);
                }
            }
            return None;
        }
        i += 1;
    }
    assert(digits.take(i - start) =~= digits);
    Some(value as u32)
}

/// Whether a rule is one of the four levels of operators between two
/// operands.
pub open spec fn is_binary_level(rule: Rule) -> bool {
    rule == Rule::EqualityExpr || rule == Rule::RelationalExpr || rule == Rule::AdditiveExpr
        || rule == Rule::MultiplicativeExpr
}

/// What is returned where a tree is not as the grammar builds it.
pub open spec fn malformed<T>() -> Result<T, CompileError> {
    Err(CompileError::MalformedAst)
}

/// The literal that a node writes.
pub open spec fn literal_of(n: ParseNodeView) -> Result<ValueView, CompileError> {
    match n.rule {
        Rule::Number => match number_of(encode_utf8(n.text)) {
            Some(v) => Ok(ValueView::UInt(v)),
            None => malformed(),
        },
        Rule::Bool => if n.text == "true"@ {
            Ok(ValueView::Bool(true))
        } else if n.text == "false"@ {
            Ok(ValueView::Bool(false))
        } else {
            malformed()
        },
        Rule::Null => Ok(ValueView::Null),
        Rule::String => if n.children.len() > 0 {
            Ok(ValueView::String(n.children[0].text))
        } else {
            malformed()
        },
        Rule::Inner => Ok(ValueView::String(n.text)),
        _ => malformed(),
    }
}

/// The literal expression that the first child of a node writes.
pub open spec fn first_literal_of(n: ParseNodeView) -> Result<ExprView, CompileError> {
    if n.children.len() > 0 {
        match literal_of(n.children[0]) {
            Ok(v) => Ok(ExprView::Literal(v)),
            Err(_) => malformed(),
        }
    } else {
        malformed()
    }
}

/// The expression that a node of a primary expression writes: a variable,
/// a literal, or a call with its arguments.
pub open spec fn primary_of(n: ParseNodeView) -> Result<ExprView, CompileError>
    decreases n, 0nat,
{
    match n.rule {
        Rule::Identifier => Ok(ExprView::Variable(n.text)),
        Rule::Literal => first_literal_of(n),
        Rule::FunctionCall => if n.children.len() == 0 {
            malformed()
        } else if n.children.len() == 1 {
            Ok(ExprView::Call(n.children[0].text, Seq::empty()))
        } else {
            match arguments_of(n.children[1]) {
                Ok(args) => Ok(ExprView::Call(n.children[0].text, args)),
                Err(_) => malformed(),
            }
        },
        Rule::PrimaryExpr => if n.children.len() > 0 {
            primary_of(n.children[0])
        } else {
            malformed()
        },
        _ => malformed(),
    }
}

/// The expressions that the children of a node of arguments write.
pub open spec fn arguments_of(n: ParseNodeView) -> Result<Seq<ExprView>, CompileError>
    decreases n, 0nat,
{
    if n.rule == Rule::Arguments {
        expressions_of(n.children, 0)
    } else {
        malformed()
    }
}

/// The expressions that the nodes from index `k` on write, in order.
pub open spec fn expressions_of(ns: Seq<ParseNodeView>, k: int) -> Result<
    Seq<ExprView>,
    CompileError,
>
    decreases ns, ns.len() - k,
{
    if k < 0 || k >= ns.len() {
        Ok(Seq::empty())
    } else {
        match (expression_of(ns[k]), expressions_of(ns, k + 1)) {
            (Ok(e), Ok(es)) => Ok(seq![e] + es),
            _ => malformed(),
        }
    }
}

/// The expression that a node of a unary expression writes: a primary
/// expression, or an operator before one.
pub open spec fn unary_of(n: ParseNodeView) -> Result<ExprView, CompileError>
    decreases n, 1nat,
{
    match n.rule {
        Rule::UnaryExpr => if n.children.len() == 0 {
            malformed()
        } else if n.children[0].rule == Rule::PrimaryExpr {
            primary_of(n.children[0])
        } else if n.children.len() == 1 {
            malformed()
        } else {
            match primary_of(n.children[1]) {
                Ok(e) => Ok(ExprView::Unary(n.children[0].text, Box::new(e))),
                Err(_) => malformed(),
            }
        },
        Rule::PrimaryExpr => primary_of(n),
        _ => malformed(),
    }
}

/// `left`, combined from the left with every operator and operand that
/// follow from child `k` on.
pub open spec fn chain_of(ns: Seq<ParseNodeView>, k: int, left: ExprView) -> Result<
    ExprView,
    CompileError,
>
    decreases ns, ns.len() - k,
{
    if k < 0 || k >= ns.len() {
        Ok(left)
    } else if k + 1 >= ns.len() {
        malformed()
    } else {
        match expression_of(ns[k + 1]) {
            Ok(right) => chain_of(
                ns,
                k + 2,
                ExprView::Binary(ns[k].text, Box::new(left), Box::new(right)),
            ),
            Err(_) => malformed(),
        }
    }
}

/// The expression that a node of one of the levels of operators writes: its
/// first operand, combined from the left with every operator and operand that
/// follow.
pub open spec fn binary_of(n: ParseNodeView) -> Result<ExprView, CompileError>
    decreases n, 2nat,
{
    if is_binary_level(n.rule) {
        if n.children.len() == 0 {
            malformed()
        } else {
            match expression_of(n.children[0]) {
                Ok(left) => chain_of(n.children, 1, left),
                Err(_) => malformed(),
            }
        }
    } else if n.rule == Rule::UnaryExpr {
        if n.children.len() > 0 {
            unary_of(n.children[0])
        } else {
            malformed()
        }
    } else {
        malformed()
    }
}

/// The expression that a node writes.
pub open spec fn expression_of(n: ParseNodeView) -> Result<ExprView, CompileError>
    decreases n, 3nat,
{
    match n.rule {
        Rule::Expression => if n.children.len() > 0 {
            expression_of(n.children[0])
        } else {
            malformed()
        },
        Rule::Identifier => Ok(ExprView::Variable(n.text)),
        Rule::String => first_literal_of(n),
        Rule::Inner => first_literal_of(n),
        Rule::UnaryExpr => unary_of(n),
        _ => if is_binary_level(n.rule) {
            binary_of(n)
        } else {
            malformed()
        },
    }
}

/// The statement that a node writes.
pub open spec fn statement_of(n: ParseNodeView) -> Result<StmtView, CompileError>
    decreases n, 0nat,
{
    match n.rule {
        Rule::Statement => if n.children.len() > 0 {
            statement_of(n.children[0])
        } else {
            malformed()
        },
        Rule::AssignmentStmt => if n.children.len() > 0 {
            statement_of(n.children[0])
        } else {
            malformed()
        },
        Rule::Assignment => if n.children.len() < 2 {
            malformed()
        } else {
            match expression_of(n.children[1]) {
                Ok(e) => Ok(StmtView::Assignment(trimmed(n.children[0].text), e)),
                Err(_) => malformed(),
            }
        },
        Rule::WhileStatement => if n.children.len() < 2 {
            malformed()
        } else {
            match (
                expression_of(n.children[0]),
                body_of(n.children[1].children, 0),
            ) {
                (Ok(cond), Ok(body)) => Ok(StmtView::While(cond, body)),
                _ => malformed(),
            }
        },
        Rule::ExpressionStmt => if n.children.len() > 0 {
            match expression_of(n.children[0]) {
                Ok(e) => Ok(StmtView::Expression(e)),
                Err(_) => malformed(),
            }
        } else {
            malformed()
        },
        _ => malformed(),
    }
}

/// The statements that the nodes from index `k` on write, in order.
pub open spec fn body_of(ns: Seq<ParseNodeView>, k: int) -> Result<Seq<StmtView>, CompileError>
    decreases ns, ns.len() - k,
{
    if k < 0 || k >= ns.len() {
        Ok(Seq::empty())
    } else {
        match (statement_of(ns[k]), body_of(ns, k + 1)) {
            (Ok(s), Ok(ss)) => Ok(seq![s] + ss),
            _ => malformed(),
        }
    }
}

/// The statements that a node of statements writes.
pub open spec fn statements_of(n: ParseNodeView) -> Result<Seq<StmtView>, CompileError> {
    if n.rule == Rule::Statements {
        body_of(n.children, 0)
    } else {
        malformed()
    }
}

/// The statements that the children of a program's node from index `k` on
/// write: those of each child in order, the end of the input left out.
pub open spec fn program_of(ns: Seq<ParseNodeView>, k: int) -> Result<Seq<StmtView>, CompileError>
    decreases ns.len() - k,
{
    if k < 0 || k >= ns.len() {
        Ok(Seq::empty())
    } else if ns[k].rule == Rule::EndOfInput {
        program_of(ns, k + 1)
    } else {
        match (statements_of(ns[k]), program_of(ns, k + 1)) {
            (Ok(ss), Ok(rest)) => Ok(ss + rest),
            _ => malformed(),
        }
    }
}

/// Reading a program fails in one way only.
pub proof fn lemma_program_fails_one_way(ns: Seq<ParseNodeView>, k: int)
    ensures
        program_of(ns, k) is Err ==> program_of(ns, k) == malformed::<Seq<StmtView>>(),
    decreases ns.len() - k,
{
    if 0 <= k < ns.len() && ns[k].rule == Rule::EndOfInput {
        lemma_program_fails_one_way(ns, k + 1);
    }
}

/// `first`, then what `rest` holds; nothing where `rest` holds nothing.
pub open spec fn before<T>(first: Seq<T>, rest: Result<Seq<T>, CompileError>) -> Result<
    Seq<T>,
    CompileError,
> {
    match rest {
        Ok(more) => Ok(first + more),
        Err(e) => Err(e),
    }
}

/// The model of a literal that was read.
pub open spec fn read_literal_view(r: Result<AstLiteral, CompileError>) -> Result<
    ValueView,
    CompileError,
> {
    match r {
        Ok(l) => Ok(l@),
        Err(e) => Err(e),
    }
}

/// The model of an expression that was read.
pub open spec fn read_expr_view(r: Result<AstExpression, CompileError>) -> Result<
    ExprView,
    CompileError,
> {
    match r {
        Ok(e) => Ok(e@),
        Err(e) => Err(e),
    }
}

/// The model of expressions that were read.
pub open spec fn read_exprs_view(r: Result<Vec<AstExpression>, CompileError>) -> Result<
    Seq<ExprView>,
    CompileError,
> {
    match r {
        Ok(es) => Ok(exprs_view(es@)),
        Err(e) => Err(e),
    }
}

/// The model of a statement that was read.
pub open spec fn read_stmt_view(r: Result<AstStatement, CompileError>) -> Result<
    StmtView,
    CompileError,
> {
    match r {
        Ok(s) => Ok(s@),
        Err(e) => Err(e),
    }
}

/// The model of statements that were read.
pub open spec fn read_stmts_view(r: Result<Vec<AstStatement>, CompileError>) -> Result<
    Seq<StmtView>,
    CompileError,
> {
    match r {
        Ok(ss) => Ok(stmts_view(ss@)),
        Err(e) => Err(e),
    }
}

/// The model of a program that was read.
pub open spec fn read_program_view(r: Result<AstProgram, CompileError>) -> Result<
    Seq<StmtView>,
    CompileError,
> {
    match r {
        Ok(p) => Ok(p@),
        Err(e) => Err(e),
    }
}

/// Reads the literal that a node writes.
pub fn parse_literal(node: &ParseNode) -> (r: Result<AstLiteral, CompileError>)
    ensures
        read_literal_view(r) == literal_of(node@),
{
    proof {
        lemma_node_view(*node);
    }
    match node.rule {
        Rule::Number => match parse_number(node.text.as_str()) {
            Some(v) => Ok(AstLiteral::UInt(v)),
            None => Err(CompileError::MalformedAst),
        },
        Rule::Bool => {
            if str_eq(node.text.as_str(), "true") {
                Ok(AstLiteral::Bool(true))
            } else if str_eq(node.text.as_str(), "false") {
                Ok(AstLiteral::Bool(false))
            } else {
                Err(CompileError::MalformedAst)
            }
        },
        Rule::Null => Ok(AstLiteral::Null),
        Rule::String => {
            if node.children.len() > 0 {
                proof {
                    lemma_node_view(node.children[0]);
                }
                Ok(AstLiteral::String(node.children[0].text.clone()))
            } else {
                Err(CompileError::MalformedAst)
            }
        },
        Rule::Inner => Ok(AstLiteral::String(node.text.clone())),
        _ => Err(CompileError::MalformedAst),
    }
}

/// Reads the literal expression that the first child of a node writes.
fn parse_first_literal(node: &ParseNode) -> (r: Result<AstExpression, CompileError>)
    ensures
        read_expr_view(r) == first_literal_of(node@),
{
    proof {
        lemma_node_view(*node);
    }
    if node.children.len() > 0 {
        match parse_literal(&node.children[0]) {
            Ok(l) => Ok(AstExpression::Literal(l)),
            Err(_) => Err(CompileError::MalformedAst),
        }
    } else {
        Err(CompileError::MalformedAst)
    }
}

/// Reads the expression that a node of a primary expression writes.
pub fn parse_primary_expression(node: &ParseNode) -> (r: Result<AstExpression, CompileError>)
    ensures
        read_expr_view(r) == primary_of(node@),
    decreases node, 0nat,
{
    proof {
        lemma_node_view(*node);
    }
    match node.rule {
        Rule::Identifier => Ok(AstExpression::Variable(node.text.clone())),
        Rule::Literal => parse_first_literal(node),
        Rule::FunctionCall => {
            if node.children.len() == 0 {
                return Err(CompileError::MalformedAst);
            }
            proof {
                lemma_node_view(node.children[0]);
            }
            let name = node.children[0].text.clone();
            let args = if node.children.len() > 1 {
                match parse_arguments(&node.children[1]) {
                    Ok(args) => args,
                    Err(_) => {
                        return Err(CompileError::MalformedAst);
                    },
                }
            } else {
                let none: Vec<AstExpression> = Vec::new();
                assert(exprs_view(none@) =~= Seq::<ExprView>::empty());
                none
            };
            proof {
                lemma_call_view(name, args);
            }
            Ok(AstExpression::FunctionCall(name, args))
        },
        Rule::PrimaryExpr => {
            if node.children.len() > 0 {
                parse_primary_expression(&node.children[0])
            } else {
                Err(CompileError::MalformedAst)
            }
        },
        _ => Err(CompileError::MalformedAst),
    }
}

/// Reads the expressions that the children of a node of arguments write.
pub fn parse_arguments(node: &ParseNode) -> (r: Result<Vec<AstExpression>, CompileError>)
    ensures
        read_exprs_view(r) == arguments_of(node@),
    decreases node, 0nat,
{
    proof {
        lemma_node_view(*node);
    }
    match node.rule {
        Rule::Arguments => {
            let ghost ns = node@.children;
            let mut args: Vec<AstExpression> = Vec::new();
            let mut i: usize = 0;
            assert(exprs_view(args@) =~= Seq::<ExprView>::empty());
            assert(before(Seq::<ExprView>::empty(), expressions_of(ns, 0)) == expressions_of(ns, 0))
                by {
                match expressions_of(ns, 0) {
                    Ok(es) => {
                        assert(Seq::<ExprView>::empty() + es =~= es);
                    },
                    Err(_) => {},
                }
            }
            while i < node.children.len()
                invariant
                    i <= node.children.len(),
                    ns == nodes_view(node.children@),
                    ns == node@.children,
                    node@.rule == Rule::Arguments,
                    expressions_of(ns, 0) == before(exprs_view(args@), expressions_of(ns, i as int)),
                decreases node.children.len() - i,
            {
                match parse_expression(&node.children[i]) {
                    Ok(e) => {
                        let ghost so_far = exprs_view(args@);
                        args.push(e);
                        proof {
                            assert(exprs_view(args@) =~= so_far.push(e@));
                            match expressions_of(ns, i as int + 1) {
                                Ok(rest) => {
                                    assert(so_far + (seq![e@] + rest) =~= so_far.push(e@) + rest);
                                },
                                Err(_) => {},
                            }
                        }
                    },
                    Err(_) => {
                        return Err(CompileError::MalformedAst);
                    },
                }
                i += 1;
            }
            assert(exprs_view(args@) + Seq::<ExprView>::empty() =~= exprs_view(args@));
            Ok(args)
        },
        _ => Err(CompileError::MalformedAst),
    }
}

/// Reads the expression that a node of a unary expression writes.
pub fn parse_unary_expression(node: &ParseNode) -> (r: Result<AstExpression, CompileError>)
    ensures
        read_expr_view(r) == unary_of(node@),
    decreases node, 1nat,
{
    proof {
        lemma_node_view(*node);
    }
    match node.rule {
        Rule::UnaryExpr => {
            if node.children.len() == 0 {
                return Err(CompileError::MalformedAst);
            }
            proof {
                lemma_node_view(node.children[0]);
            }
            let first = &node.children[0];
            // a primary expression stands for itself
            if first.rule == Rule::PrimaryExpr {
                return parse_primary_expression(first);
            }
            // otherwise an operator stands before one
            if node.children.len() == 1 {
                return Err(CompileError::MalformedAst);
            }
            let operator = first.text.clone();
            match parse_primary_expression(&node.children[1]) {
                Ok(expr) => Ok(AstExpression::UnaryOperation(operator, Box::new(expr))),
                Err(_) => Err(CompileError::MalformedAst),
            }
        },
        Rule::PrimaryExpr => parse_primary_expression(node),
        _ => Err(CompileError::MalformedAst),
    }
}

/// Reads the expression that a node of one of the levels of operators
/// writes. Operators of one level associate to the left.
pub fn parse_binary_expression(node: &ParseNode) -> (r: Result<AstExpression, CompileError>)
    ensures
        read_expr_view(r) == binary_of(node@),
    decreases node, 2nat,
{
    proof {
        lemma_node_view(*node);
    }
    match node.rule {
        Rule::EqualityExpr | Rule::RelationalExpr | Rule::AdditiveExpr
        | Rule::MultiplicativeExpr => {
            if node.children.len() == 0 {
                return Err(CompileError::MalformedAst);
            }
            let ghost ns = node@.children;
            let mut left = match parse_expression(&node.children[0]) {
                Ok(e) => e,
                Err(_) => {
                    return Err(CompileError::MalformedAst);
                },
            };
            let mut k: usize = 1;
            while k < node.children.len()
                invariant
                    1 <= k,
                    ns == nodes_view(node.children@),
                    ns == node@.children,
                    binary_of(node@) == chain_of(ns, k as int, left@),
                decreases node.children.len() - k,
            {
                if node.children.len() - k < 2 {
                    return Err(CompileError::MalformedAst);
                }
                proof {
                    lemma_node_view(node.children[k as int]);
                }
                let operator = node.children[k].text.clone();
                match parse_expression(&node.children[k + 1]) {
                    Ok(right) => {
                        left = AstExpression::BinaryOperation(
                            operator,
                            Box::new(left),
                            Box::new(right),
                        );
                    },
                    Err(_) => {
                        return Err(CompileError::MalformedAst);
                    },
                }
                k += 2;
            }
            Ok(left)
        },
        Rule::UnaryExpr => {
            if node.children.len() > 0 {
                parse_unary_expression(&node.children[0])
            } else {
                Err(CompileError::MalformedAst)
            }
        },
        _ => Err(CompileError::MalformedAst),
    }
}

/// Reads the expression that a node writes.
pub fn parse_expression(node: &ParseNode) -> (r: Result<AstExpression, CompileError>)
    ensures
        read_expr_view(r) == expression_of(node@),
    decreases node, 3nat,
{
    proof {
        lemma_node_view(*node);
    }
    match node.rule {
        Rule::Expression => {
            if node.children.len() > 0 {
                parse_expression(&node.children[0])
            } else {
                Err(CompileError::MalformedAst)
            }
        },
        Rule::Identifier => Ok(AstExpression::Variable(node.text.clone())),
        Rule::String | Rule::Inner => parse_first_literal(node),
        Rule::EqualityExpr | Rule::RelationalExpr | Rule::AdditiveExpr
        | Rule::MultiplicativeExpr => parse_binary_expression(node),
        Rule::UnaryExpr => parse_unary_expression(node),
        _ => Err(CompileError::MalformedAst),
    }
}

/// Reads the statements that some nodes write, in order.
fn parse_body(nodes: &Vec<ParseNode>) -> (r: Result<Vec<AstStatement>, CompileError>)
    ensures
        read_stmts_view(r) == body_of(nodes_view(nodes@), 0),
    decreases nodes,
{
    let ghost ns = nodes_view(nodes@);
    let mut body: Vec<AstStatement> = Vec::new();
    let mut i: usize = 0;
    assert(stmts_view(body@) =~= Seq::<StmtView>::empty());
    assert(before(Seq::<StmtView>::empty(), body_of(ns, 0)) == body_of(ns, 0)) by {
        match body_of(ns, 0) {
            Ok(ss) => {
                assert(Seq::<StmtView>::empty() + ss =~= ss);
            },
            Err(_) => {},
        }
    }
    while i < nodes.len()
        invariant
            i <= nodes.len(),
            ns == nodes_view(nodes@),
            body_of(ns, 0) == before(stmts_view(body@), body_of(ns, i as int)),
        decreases nodes.len() - i,
    {
        match parse_statement(&nodes[i]) {
            Ok(s) => {
                let ghost so_far = stmts_view(body@);
                body.push(s);
                proof {
                    assert(stmts_view(body@) =~= so_far.push(s@));
                    match body_of(ns, i as int + 1) {
                        Ok(rest) => {
                            assert(so_far + (seq![s@] + rest) =~= so_far.push(s@) + rest);
                        },
                        Err(_) => {},
                    }
                }
            },
            Err(_) => {
                return Err(CompileError::MalformedAst);
            },
        }
        i += 1;
    }
    assert(stmts_view(body@) + Seq::<StmtView>::empty() =~= stmts_view(body@));
    Ok(body)
}

/// Reads the statement that a node writes.
pub fn parse_statement(node: &ParseNode) -> (r: Result<AstStatement, CompileError>)
    ensures
        read_stmt_view(r) == statement_of(node@),
    decreases node, 0nat,
{
    proof {
        lemma_node_view(*node);
    }
    match node.rule {
        Rule::Statement | Rule::AssignmentStmt => {
            if node.children.len() > 0 {
                parse_statement(&node.children[0])
            } else {
                Err(CompileError::MalformedAst)
            }
        },
        Rule::Assignment => {
            if node.children.len() < 2 {
                return Err(CompileError::MalformedAst);
            }
            proof {
                lemma_node_view(node.children[0]);
            }
            let identifier = trim_text(node.children[0].text.as_str());
            match parse_expression(&node.children[1]) {
                Ok(expr) => Ok(AstStatement::Assignment(identifier, expr)),
                Err(_) => Err(CompileError::MalformedAst),
            }
        },
        Rule::WhileStatement => {
            if node.children.len() < 2 {
                return Err(CompileError::MalformedAst);
            }
            proof {
                lemma_node_view(node.children[1]);
            }
            let condition = match parse_expression(&node.children[0]) {
                Ok(e) => e,
                Err(_) => {
                    return Err(CompileError::MalformedAst);
                },
            };
            match parse_body(&node.children[1].children) {
                Ok(body) => {
                    proof {
                        lemma_while_view(condition, body);
                    }
                    Ok(AstStatement::While(condition, body))
                },
                Err(_) => Err(CompileError::MalformedAst),
            }
        },
        Rule::ExpressionStmt => {
            if node.children.len() > 0 {
                match parse_expression(&node.children[0]) {
                    Ok(expr) => Ok(AstStatement::Expression(expr)),
                    Err(_) => Err(CompileError::MalformedAst),
                }
            } else {
                Err(CompileError::MalformedAst)
            }
        },
        _ => Err(CompileError::MalformedAst),
    }
}

/// Reads the statements that a node of statements writes.
pub fn parse_statements(node: &ParseNode) -> (r: Result<Vec<AstStatement>, CompileError>)
    ensures
        read_stmts_view(r) == statements_of(node@),
{
    proof {
        lemma_node_view(*node);
    }
    match node.rule {
        Rule::Statements => parse_body(&node.children),
        _ => Err(CompileError::MalformedAst),
    }
}

/// Moves the statements of `more` to the end of `body`.
fn append_statements(body: &mut Vec<AstStatement>, more: Vec<AstStatement>)
    ensures
        stmts_view(final(body)@) == stmts_view(old(body)@) + stmts_view(more@),
{
    let mut more = more;
    let ghost added = more@;
    body.append(&mut more);
    assert(stmts_view(body@) =~= stmts_view(old(body)@) + stmts_view(added));
}

/// Reads the program that the root of a parse tree writes: the statements
/// of its children, in order; the node that marks the end of the input holds
/// none.
pub fn parse_program(node: &ParseNode) -> (r: Result<AstProgram, CompileError>)
    ensures
        read_program_view(r) == program_of(node@.children, 0),
{
    proof {
        lemma_node_view(*node);
    }
    let ghost ns = node@.children;
    let mut statements: Vec<AstStatement> = Vec::new();
    let mut i: usize = 0;
    assert(stmts_view(statements@) =~= Seq::<StmtView>::empty());
    assert(before(Seq::<StmtView>::empty(), program_of(ns, 0)) == program_of(ns, 0)) by {
        match program_of(ns, 0) {
            Ok(ss) => {
                assert(Seq::<StmtView>::empty() + ss =~= ss);
            },
            Err(_) => {},
        }
    }
    while i < node.children.len()
        invariant
            i <= node.children.len(),
            ns == nodes_view(node.children@),
            ns == node@.children,
            program_of(ns, 0) == before(stmts_view(statements@), program_of(ns, i as int)),
        decreases node.children.len() - i,
    {
        proof {
            lemma_node_view(node.children[i as int]);
        }
        if node.children[i].rule != Rule::EndOfInput {
            match parse_statements(&node.children[i]) {
                Ok(more) => {
                    let ghost so_far = stmts_view(statements@);
                    let ghost added = stmts_view(more@);
                    append_statements(&mut statements, more);
                    proof {
                        lemma_program_fails_one_way(ns, i as int + 1);
                        match program_of(ns, i as int + 1) {
                            Ok(rest) => {
                                assert(so_far + (added + rest) =~= (so_far + added) + rest);
                            },
                            Err(_) => {},
                        }
                    }
                },
                Err(_) => {
                    return Err(CompileError::MalformedAst);
                },
            }
        }
        i += 1;
    }
    assert(stmts_view(statements@) + Seq::<StmtView>::empty() =~= stmts_view(statements@));
    Ok(AstProgram { statements })
}

} // verus!
