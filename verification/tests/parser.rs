use vmo2::compiler::error::CompileError;
use vmo2::compiler::parse_tree::{ParseNode, Rule};
use vmo2::compiler::parser::{
    parse_arguments, parse_binary_expression, parse_expression, parse_literal, parse_number,
    parse_primary_expression, parse_program, parse_statement, parse_statements,
    parse_unary_expression, trim_text,
};
use vmo2::compiler::types::{AstExpression, AstLiteral, AstStatement};

// The trees below are the ones that the grammar builds for the text that
// is given beside each.

fn node(rule: Rule, text: &str, children: Vec<ParseNode>) -> ParseNode {
    ParseNode {
        rule,
        text: text.to_string(),
        children,
    }
}

fn leaf(rule: Rule, text: &str) -> ParseNode {
    node(rule, text, vec![])
}

fn identifier(name: &str) -> ParseNode {
    leaf(Rule::Identifier, name)
}

fn number(digits: &str) -> ParseNode {
    node(Rule::Literal, digits, vec![leaf(Rule::Number, digits)])
}

fn bool_literal(text: &str) -> ParseNode {
    node(Rule::Literal, text, vec![leaf(Rule::Bool, text)])
}

fn string(inner: &str) -> ParseNode {
    node(
        Rule::String,
        &format!("\"{}\"", inner),
        vec![leaf(Rule::Inner, inner)],
    )
}

fn primary(inner: ParseNode) -> ParseNode {
    let text = inner.text.clone();
    node(Rule::PrimaryExpr, &text, vec![inner])
}

fn unary(inner: ParseNode) -> ParseNode {
    let text = inner.text.clone();
    node(Rule::UnaryExpr, &text, vec![primary(inner)])
}

fn signed(op: &str, inner: ParseNode) -> ParseNode {
    let text = format!("{}{}", op, inner.text);
    node(Rule::UnaryExpr, &text, vec![leaf(Rule::Other, op), primary(inner)])
}

/// A chain of one level: operands with the operators between them.
fn level(rule: Rule, first: ParseNode, rest: Vec<(&str, ParseNode)>) -> ParseNode {
    let mut text = first.text.clone();
    let mut children = vec![first];
    for (op, operand) in rest {
        text = format!("{} {} {}", text, op, operand.text);
        children.push(leaf(Rule::Other, op));
        children.push(operand);
    }
    node(rule, &text, children)
}

fn multiplicative(u: ParseNode) -> ParseNode {
    level(Rule::MultiplicativeExpr, u, vec![])
}

fn additive(u: ParseNode) -> ParseNode {
    level(Rule::AdditiveExpr, multiplicative(u), vec![])
}

fn relational(u: ParseNode) -> ParseNode {
    level(Rule::RelationalExpr, additive(u), vec![])
}

fn equality(u: ParseNode) -> ParseNode {
    level(Rule::EqualityExpr, relational(u), vec![])
}

/// The expression that consists of one primary expression.
fn expression(inner: ParseNode) -> ParseNode {
    let e = equality(unary(inner));
    let text = e.text.clone();
    node(Rule::Expression, &text, vec![e])
}

fn wrap(e: ParseNode) -> ParseNode {
    let text = e.text.clone();
    node(Rule::Expression, &text, vec![e])
}

fn assignment(name: &str, value: ParseNode) -> ParseNode {
    let text = format!("{} = {};", name, value.text);
    node(Rule::Assignment, &text, vec![identifier(name), value])
}

fn statement(inner: ParseNode) -> ParseNode {
    let text = inner.text.clone();
    node(Rule::Statement, &text, vec![inner])
}

fn assignment_statement(name: &str, value: ParseNode) -> ParseNode {
    let a = assignment(name, value);
    let text = a.text.clone();
    statement(node(Rule::AssignmentStmt, &text, vec![a]))
}

fn expression_statement(e: ParseNode) -> ParseNode {
    let text = format!("{};", e.text);
    statement(node(Rule::ExpressionStmt, &text, vec![e]))
}

fn while_statement(cond: ParseNode, body: Vec<ParseNode>) -> ParseNode {
    node(
        Rule::WhileStatement,
        "while",
        vec![cond, node(Rule::Other, "{}", body)],
    )
}

fn program(statements: Vec<ParseNode>) -> ParseNode {
    node(
        Rule::Program,
        "",
        vec![
            node(Rule::Statements, "", statements),
            leaf(Rule::EndOfInput, ""),
        ],
    )
}

fn call(name: &str, arguments: Vec<ParseNode>) -> ParseNode {
    let mut children = vec![identifier(name)];
    if !arguments.is_empty() {
        children.push(node(Rule::Arguments, "", arguments));
    }
    node(Rule::FunctionCall, name, children)
}

/// `x > 0`
fn x_above_zero() -> ParseNode {
    wrap(level(
        Rule::EqualityExpr,
        level(
            Rule::RelationalExpr,
            additive(unary(identifier("x"))),
            vec![(">", additive(unary(number("0"))))],
        ),
        vec![],
    ))
}

/// `x = x - 1;`
fn decrement_x() -> ParseNode {
    assignment_statement(
        "x",
        wrap(level(
            Rule::EqualityExpr,
            level(
                Rule::RelationalExpr,
                level(
                    Rule::AdditiveExpr,
                    multiplicative(unary(identifier("x"))),
                    vec![("-", multiplicative(unary(number("1"))))],
                ),
                vec![],
            ),
            vec![],
        )),
    )
}

fn count_down() -> AstStatement {
    AstStatement::While(
        AstExpression::BinaryOperation(
            ">".to_owned(),
            Box::new(AstExpression::Variable("x".to_owned())),
            Box::new(AstExpression::Literal(AstLiteral::UInt(0))),
        ),
        vec![AstStatement::Assignment(
            "x".to_owned(),
            AstExpression::BinaryOperation(
                "-".to_owned(),
                Box::new(AstExpression::Variable("x".to_owned())),
                Box::new(AstExpression::Literal(AstLiteral::UInt(1))),
            ),
        )],
    )
}

#[test]
fn test_parse_literal() {
    // 42
    let number_literal = parse_literal(&leaf(Rule::Number, "42")).unwrap();
    assert!(matches!(number_literal, AstLiteral::UInt(42)));

    // true
    let bool_literal = parse_literal(&leaf(Rule::Bool, "true")).unwrap();
    assert!(matches!(bool_literal, AstLiteral::Bool(true)));

    // null
    let null_literal = parse_literal(&leaf(Rule::Null, "null")).unwrap();
    assert!(matches!(null_literal, AstLiteral::Null));

    // "hello"
    let string_literal = parse_literal(&string("hello")).unwrap();
    assert_eq!(string_literal, AstLiteral::String("hello".to_string()));

    let string_expr = parse_expression(&string("hello")).unwrap();
    assert_eq!(
        string_expr,
        AstExpression::Literal(AstLiteral::String("hello".to_string()))
    );

    // "seko\"mer"
    let inner_expr = parse_literal(&string("seko\\\"mer")).unwrap();
    assert_eq!(inner_expr, AstLiteral::String("seko\\\"mer".to_string()));
}

#[test]
fn test_parse_identifier() {
    // x
    let identifier_expr = parse_expression(&identifier("x")).unwrap();
    assert!(matches!(identifier_expr, AstExpression::Variable(s) if s == "x"));

    // x = 42;
    let assignment_stmt = parse_statement(&assignment("x", expression(number("42")))).unwrap();
    assert_eq!(
        assignment_stmt,
        AstStatement::Assignment("x".to_owned(), AstExpression::Literal(AstLiteral::UInt(42)))
    );

    // myFunc(1, 2, x)
    let function_call = call(
        "myFunc",
        vec![
            expression(number("1")),
            expression(number("2")),
            expression(identifier("x")),
        ],
    );
    let function_call_stmt = parse_primary_expression(&function_call).unwrap();
    assert_eq!(
        function_call_stmt,
        AstExpression::FunctionCall(
            "myFunc".to_owned(),
            vec![
                AstExpression::Literal(AstLiteral::UInt(1)),
                AstExpression::Literal(AstLiteral::UInt(2)),
                AstExpression::Variable("x".to_owned()),
            ]
        )
    );
}

#[test]
fn test_parse_statement() {
    // x = 42;
    let assignment_stmt = parse_statement(&assignment("x", expression(number("42")))).unwrap();
    match assignment_stmt {
        AstStatement::Assignment(id, expr) => {
            assert_eq!(id, "x");
            assert!(matches!(expr, AstExpression::Literal(AstLiteral::UInt(42))));
        }
        _ => panic!("Expected assignment statement"),
    }
}

#[test]
fn test_parse_program() {
    // x = 42;
    // y = 10;
    let tree = program(vec![
        assignment_statement("x", expression(number("42"))),
        assignment_statement("y", expression(number("10"))),
    ]);
    let program = parse_program(&tree).unwrap();
    assert_eq!(program.statements.len(), 2);

    match &program.statements[0] {
        AstStatement::Assignment(id, expr) => {
            assert_eq!(id, "x");
            assert!(matches!(expr, AstExpression::Literal(AstLiteral::UInt(42))));
        }
        _ => panic!("Expected assignment statement"),
    }

    match &program.statements[1] {
        AstStatement::Assignment(id, expr) => {
            assert_eq!(id, "y");
            assert!(matches!(expr, AstExpression::Literal(AstLiteral::UInt(10))));
        }
        _ => panic!("Expected assignment statement"),
    }
}

#[test]
fn test_parse_swap_a_and_b_with_temp() {
    // temp = a;
    // a = b;
    // b = temp;
    let tree = program(vec![
        assignment_statement("temp", expression(identifier("a"))),
        assignment_statement("a", expression(identifier("b"))),
        assignment_statement("b", expression(identifier("temp"))),
    ]);
    let program = parse_program(&tree).unwrap();
    assert_eq!(program.statements.len(), 3);
    assert_eq!(
        program.statements,
        vec![
            AstStatement::Assignment(
                String::from("temp"),
                AstExpression::Variable(String::from("a"))
            ),
            AstStatement::Assignment(
                String::from("a"),
                AstExpression::Variable(String::from("b"))
            ),
            AstStatement::Assignment(
                String::from("b"),
                AstExpression::Variable(String::from("temp"))
            ),
        ]
    );
}

#[test]
fn test_parse_while_true_statement() {
    // while (true) {
    //     x = 1;
    // }
    let tree = while_statement(
        expression(bool_literal("true")),
        vec![assignment_statement("x", expression(number("1")))],
    );
    let while_stmt = parse_statement(&tree).unwrap();

    assert_eq!(
        while_stmt,
        AstStatement::While(
            AstExpression::Literal(AstLiteral::Bool(true)),
            vec![AstStatement::Assignment(
                "x".to_owned(),
                AstExpression::Literal(AstLiteral::UInt(1))
            )]
        )
    );
}

#[test]
fn test_parse_equality_expr() {
    // x == 1
    let tree = level(
        Rule::EqualityExpr,
        relational(unary(identifier("x"))),
        vec![("==", relational(unary(number("1"))))],
    );
    let equality_expr = parse_expression(&tree).unwrap();
    assert_eq!(
        equality_expr,
        AstExpression::BinaryOperation(
            "==".to_owned(),
            Box::new(AstExpression::Variable("x".to_owned())),
            Box::new(AstExpression::Literal(AstLiteral::UInt(1)))
        )
    );
}

#[test]
fn test_parse_unary_expr() {
    // -y
    let unary_expr = parse_expression(&signed("-", identifier("y"))).unwrap();
    assert_eq!(
        unary_expr,
        AstExpression::UnaryOperation(
            "-".to_owned(),
            Box::new(AstExpression::Variable("y".to_owned()))
        )
    );

    // +x
    let unary_expr = parse_expression(&signed("+", identifier("x"))).unwrap();
    assert_eq!(
        unary_expr,
        AstExpression::UnaryOperation(
            "+".to_owned(),
            Box::new(AstExpression::Variable("x".to_owned()))
        )
    );

    // x
    let unary_expr = parse_unary_expression(&primary(identifier("x"))).unwrap();
    assert_eq!(unary_expr, AstExpression::Variable("x".to_owned()));
}

#[test]
fn test_parse_while_with_condition_statement() {
    // while (x > 0) {
    //     x = x - 1;
    // }
    let tree = program(vec![statement(while_statement(
        x_above_zero(),
        vec![decrement_x()],
    ))]);
    let program = parse_program(&tree).unwrap();

    assert_eq!(program.statements, vec![count_down()]);
}

#[test]
fn test_parse_while_with_after() {
    // while (x > 0)
    // {
    //     x = x - 1;
    // }
    // y = 10;
    // x = y;
    let tree = program(vec![
        statement(while_statement(x_above_zero(), vec![decrement_x()])),
        assignment_statement("y", expression(number("10"))),
        assignment_statement("x", expression(identifier("y"))),
    ]);
    let program = parse_program(&tree).unwrap();

    assert_eq!(
        program.statements,
        vec![
            count_down(),
            AstStatement::Assignment(
                "y".to_owned(),
                AstExpression::Literal(AstLiteral::UInt(10))
            ),
            AstStatement::Assignment("x".to_owned(), AstExpression::Variable("y".to_owned()))
        ]
    );
}

#[test]
fn test_parse_function_call() {
    // myFunc(1, 2, x);
    let tree = program(vec![expression_statement(expression(call(
        "myFunc",
        vec![
            expression(number("1")),
            expression(number("2")),
            expression(identifier("x")),
        ],
    )))]);
    let program = parse_program(&tree).unwrap();
    assert_eq!(program.statements.len(), 1);

    match &program.statements[0] {
        AstStatement::Expression(expr) => match expr {
            AstExpression::FunctionCall(name, args) => {
                assert_eq!(name, "myFunc");
                assert_eq!(args.len(), 3);
                assert_eq!(
                    *args,
                    vec![
                        AstExpression::Literal(AstLiteral::UInt(1)),
                        AstExpression::Literal(AstLiteral::UInt(2)),
                        AstExpression::Variable("x".to_owned()),
                    ]
                );
            }
            _ => panic!("Expected function call expression"),
        },
        _ => panic!("Expected expression statement"),
    }
}

#[test]
fn test_parse_function_call_no_args() {
    // myFunc();
    let tree = program(vec![expression_statement(expression(call("myFunc", vec![])))]);
    let program = parse_program(&tree).unwrap();
    assert_eq!(program.statements.len(), 1);

    match &program.statements[0] {
        AstStatement::Expression(expr) => match expr {
            AstExpression::FunctionCall(name, args) => {
                assert_eq!(name, "myFunc");
                assert_eq!(args.len(), 0);
            }
            _ => panic!("Expected function call expression"),
        },
        _ => panic!("Expected expression statement"),
    }
}

#[test]
fn operators_associate_to_the_left() {
    // a - b + c
    let tree = level(
        Rule::AdditiveExpr,
        multiplicative(unary(identifier("a"))),
        vec![
            ("-", multiplicative(unary(identifier("b")))),
            ("+", multiplicative(unary(identifier("c")))),
        ],
    );
    let var = |n: &str| Box::new(AstExpression::Variable(n.to_owned()));
    assert_eq!(
        parse_binary_expression(&tree),
        Ok(AstExpression::BinaryOperation(
            "+".to_owned(),
            Box::new(AstExpression::BinaryOperation("-".to_owned(), var("a"), var("b"))),
            var("c")
        ))
    );
    // a + b * c
    let tree = level(
        Rule::AdditiveExpr,
        multiplicative(unary(identifier("a"))),
        vec![(
            "+",
            level(
                Rule::MultiplicativeExpr,
                unary(identifier("b")),
                vec![("*", unary(identifier("c")))],
            ),
        )],
    );
    assert_eq!(
        parse_expression(&tree),
        Ok(AstExpression::BinaryOperation(
            "+".to_owned(),
            var("a"),
            Box::new(AstExpression::BinaryOperation("*".to_owned(), var("b"), var("c"))),
        ))
    );
}

#[test]
fn numbers() {
    assert_eq!(parse_number("0"), Some(0));
    assert_eq!(parse_number("007"), Some(7));
    assert_eq!(parse_number("+15"), Some(15));
    assert_eq!(parse_number("4294967295"), Some(u32::MAX));
    assert_eq!(parse_number("4294967296"), None);
    assert_eq!(parse_number("99999999999999999999999"), None);
    assert_eq!(parse_number(""), None);
    assert_eq!(parse_number("+"), None);
    assert_eq!(parse_number("-1"), None);
    assert_eq!(parse_number("1 "), None);
    assert_eq!(parse_number("12a"), None);
    assert_eq!(parse_number("١٢"), None);
    for text in ["0", "+15", "4294967295", "4294967296", "", "+", "-1", "1x", "٣"] {
        assert_eq!(parse_number(text), text.parse::<u32>().ok());
    }
}

#[test]
fn assignment_trims_its_name() {
    let tree = node(
        Rule::Assignment,
        "x  = 1;",
        vec![leaf(Rule::Identifier, " x\t"), expression(number("1"))],
    );
    assert_eq!(
        parse_statement(&tree),
        Ok(AstStatement::Assignment(
            "x".to_owned(),
            AstExpression::Literal(AstLiteral::UInt(1))
        ))
    );
}

#[test]
fn trees_of_another_shape_are_malformed() {
    assert_eq!(
        parse_literal(&leaf(Rule::Number, "x")),
        Err(CompileError::MalformedAst)
    );
    assert_eq!(
        parse_literal(&leaf(Rule::Bool, "yes")),
        Err(CompileError::MalformedAst)
    );
    assert_eq!(
        parse_literal(&leaf(Rule::String, "\"\"")),
        Err(CompileError::MalformedAst)
    );
    assert_eq!(
        parse_literal(&leaf(Rule::Identifier, "x")),
        Err(CompileError::MalformedAst)
    );
    assert_eq!(
        parse_statement(&leaf(Rule::Expression, "x")),
        Err(CompileError::MalformedAst)
    );
    assert_eq!(
        parse_statement(&node(Rule::Assignment, "x", vec![identifier("x")])),
        Err(CompileError::MalformedAst)
    );
    assert_eq!(
        parse_statement(&node(Rule::WhileStatement, "", vec![expression(number("1"))])),
        Err(CompileError::MalformedAst)
    );
    assert_eq!(
        parse_statement(&leaf(Rule::Statement, "")),
        Err(CompileError::MalformedAst)
    );
    assert_eq!(
        parse_statements(&leaf(Rule::Program, "")),
        Err(CompileError::MalformedAst)
    );
    assert_eq!(parse_statements(&leaf(Rule::Statements, "")), Ok(vec![]));
    assert_eq!(
        parse_expression(&leaf(Rule::Number, "1")),
        Err(CompileError::MalformedAst)
    );
    assert_eq!(
        parse_expression(&leaf(Rule::Expression, "")),
        Err(CompileError::MalformedAst)
    );
    // an operator without the operand after it
    let dangling = node(
        Rule::AdditiveExpr,
        "a +",
        vec![multiplicative(unary(identifier("a"))), leaf(Rule::Other, "+")],
    );
    assert_eq!(parse_expression(&dangling), Err(CompileError::MalformedAst));
    assert_eq!(
        parse_binary_expression(&identifier("a")),
        Err(CompileError::MalformedAst)
    );
    assert_eq!(
        parse_unary_expression(&node(Rule::UnaryExpr, "-", vec![leaf(Rule::Other, "-")])),
        Err(CompileError::MalformedAst)
    );
    assert_eq!(
        parse_unary_expression(&leaf(Rule::UnaryExpr, "")),
        Err(CompileError::MalformedAst)
    );
    assert_eq!(
        parse_primary_expression(&leaf(Rule::FunctionCall, "")),
        Err(CompileError::MalformedAst)
    );
    assert_eq!(
        parse_primary_expression(&leaf(Rule::Arguments, "")),
        Err(CompileError::MalformedAst)
    );
    assert_eq!(
        parse_arguments(&leaf(Rule::Literal, "")),
        Err(CompileError::MalformedAst)
    );
    assert_eq!(
        parse_arguments(&node(Rule::Arguments, "", vec![leaf(Rule::Number, "1")])),
        Err(CompileError::MalformedAst)
    );
    let broken = program(vec![assignment_statement("x", leaf(Rule::Number, "1"))]);
    assert_eq!(parse_program(&broken).is_err(), true);
    // a program reads every child but the end of the input
    let two = node(
        Rule::Program,
        "",
        vec![
            node(
                Rule::Statements,
                "",
                vec![assignment_statement("a", expression(number("1")))],
            ),
            leaf(Rule::EndOfInput, ""),
            node(
                Rule::Statements,
                "",
                vec![assignment_statement("b", expression(number("2")))],
            ),
        ],
    );
    assert_eq!(parse_program(&two).unwrap().statements.len(), 2);
    assert_eq!(
        parse_program(&node(Rule::Program, "", vec![leaf(Rule::Number, "1")])).is_err(),
        true
    );
}

#[test]
fn trimming() {
    assert_eq!(trim_text(""), "");
    assert_eq!(trim_text("x"), "x");
    assert_eq!(trim_text("  x y \t\n"), "x y");
    assert_eq!(trim_text(" \r\n "), "");
    assert_eq!(trim_text("\u{a0}é\u{3000}"), "é");
    assert_eq!(trim_text("\u{200b}x"), "\u{200b}x");
    let spaces = [
        '\u{9}', '\u{a}', '\u{b}', '\u{c}', '\u{d}', '\u{20}', '\u{85}', '\u{a0}', '\u{1680}',
        '\u{2000}', '\u{2005}', '\u{200a}', '\u{2028}', '\u{2029}', '\u{202f}', '\u{205f}',
        '\u{3000}',
    ];
    for c in spaces {
        let text = format!("{}a{}b{}", c, c, c);
        assert_eq!(trim_text(&text), format!("a{}b", c));
        assert_eq!(trim_text(&text), text.trim());
    }
    for c in ['\u{8}', '\u{e}', '\u{1f}', '\u{84}', '\u{86}', '\u{180e}', '\u{200b}', '\u{feff}'] {
        let text = format!("{}a{}", c, c);
        assert_eq!(trim_text(&text), text);
        assert_eq!(trim_text(&text), text.trim());
    }
}
