use luau_compiler::frontend::ast::{Expression, Statement};
use luau_compiler::frontend::grammar::{ParseError, ParseErrorKind};
use luau_compiler::frontend::parser::{parse, Parser};
use luau_compiler::frontend::token::{Literal, Token};

fn id(name: &str) -> Token {
    Token::Identifier(name.to_string())
}

fn num(digits: &str) -> Token {
    Token::Literal(Literal::Number(digits.to_string()))
}

fn name(text: &str) -> Expression {
    Expression::Identifier(text.to_string())
}

fn number(digits: &str) -> Expression {
    Expression::Number(digits.to_string())
}

fn boxed(text: &str) -> Box<Expression> {
    Box::new(name(text))
}

fn declare(target: &str, value: Expression) -> Statement {
    Statement::VariableDeclaration { ident: name(target), value }
}

fn discard(value: Expression) -> Statement {
    declare("_", value)
}

fn parameter(text: &str, expected_type: Option<Expression>) -> Expression {
    Expression::Parameter { ident: boxed(text), expected_type: Box::new(expected_type) }
}

fn program(statements: Vec<Statement>) -> Result<Statement, ParseError> {
    Ok(Statement::Scope(statements))
}

fn fails(kind: ParseErrorKind, at: usize) -> Result<Statement, ParseError> {
    Err(ParseError { kind, at })
}

#[test]
fn no_tokens_are_an_empty_scope() {
    assert_eq!(parse(&[]), program(vec![]));
}

#[test]
fn the_root_is_always_a_scope() {
    let tokens = [id("x"), id("y")];
    assert!(matches!(parse(&tokens), Ok(Statement::Scope(_))));
}

#[test]
fn a_scope_has_one_statement_for_each_in_the_input() {
    let tokens = [
        id("let"),
        id("a"),
        Token::Equal,
        num("1"),
        id("b"),
        Token::Equal,
        id("a"),
        id("f"),
        Token::LParen,
        Token::RParen,
        id("return"),
        id("b"),
        Token::Luau("print(b)".to_string()),
    ];
    match parse(&tokens) {
        Ok(Statement::Scope(statements)) => assert_eq!(statements.len(), 5),
        other => panic!("{other:?}"),
    }
}

#[test]
fn let_declares_a_variable() {
    let tokens = [id("let"), id("x"), Token::Equal, num("5")];
    assert_eq!(parse(&tokens), program(vec![declare("x", number("5"))]));
}

#[test]
fn let_with_an_identifier_value() {
    let tokens = [id("let"), id("y"), Token::Equal, id("x")];
    assert_eq!(parse(&tokens), program(vec![declare("y", name("x"))]));
}

#[test]
fn let_without_a_value_is_a_syntax_error() {
    let tokens = [id("let"), id("x"), Token::Equal];
    assert_eq!(parse(&tokens), fails(ParseErrorKind::ExpectedExpression, 3));
}

#[test]
fn let_without_a_value_before_a_closing_brace_is_a_syntax_error() {
    let tokens = [Token::LScope, id("let"), id("x"), Token::Equal, Token::RScope];
    assert_eq!(parse(&tokens), fails(ParseErrorKind::ExpectedExpression, 4));
}

#[test]
fn let_without_equal_is_a_syntax_error() {
    let tokens = [id("let"), id("x"), num("5")];
    assert_eq!(parse(&tokens), fails(ParseErrorKind::ExpectedEqual, 2));
    assert_eq!(parse(&[id("let"), id("x")]), fails(ParseErrorKind::ExpectedEqual, 2));
}

#[test]
fn let_without_a_target_is_a_syntax_error() {
    assert_eq!(parse(&[id("let")]), fails(ParseErrorKind::ExpectedExpression, 1));
    assert_eq!(
        parse(&[id("let"), Token::Equal, num("1")]),
        fails(ParseErrorKind::ExpectedExpression, 1)
    );
}

#[test]
fn literals_map_one_to_one() {
    let tokens = [
        id("let"),
        id("a"),
        Token::Equal,
        Token::Literal(Literal::String("s".to_string())),
        id("let"),
        id("b"),
        Token::Equal,
        Token::Literal(Literal::Char('c')),
        id("let"),
        id("c"),
        Token::Equal,
        Token::Literal(Literal::Bool(true)),
        id("let"),
        id("d"),
        Token::Equal,
        Token::Literal(Literal::Identifier("e".to_string())),
        id("let"),
        id("f"),
        Token::Equal,
        num("2.5"),
    ];
    assert_eq!(
        parse(&tokens),
        program(vec![
            declare("a", Expression::String("s".to_string())),
            declare("b", Expression::Char('c')),
            declare("c", Expression::Bool(true)),
            declare("d", name("e")),
            declare("f", number("2.5")),
        ])
    );
}

#[test]
fn a_function_declaration_has_no_paren_after_its_body() {
    // let f = (a, b: number) { return a }
    let tokens = [
        id("let"),
        id("f"),
        Token::Equal,
        Token::LParen,
        id("a"),
        Token::Comma,
        id("b"),
        Token::Colon,
        id("number"),
        Token::RParen,
        Token::LScope,
        id("return"),
        id("a"),
        Token::RScope,
    ];
    assert_eq!(
        parse(&tokens),
        program(vec![declare(
            "f",
            Expression::Function {
                params: vec![parameter("a", None), parameter("b", Some(name("number")))],
                stmt: Box::new(Statement::Scope(vec![Statement::Return(name("a"))])),
            }
        )])
    );
}

#[test]
fn a_function_declaration_without_parameters() {
    let tokens =
        [id("let"), id("f"), Token::Equal, Token::LParen, Token::RParen, Token::LScope, Token::RScope];
    assert_eq!(
        parse(&tokens),
        program(vec![declare(
            "f",
            Expression::Function { params: vec![], stmt: Box::new(Statement::Scope(vec![])) }
        )])
    );
}

#[test]
fn a_comma_after_the_last_parameter_is_read() {
    let tokens = [
        id("let"),
        id("f"),
        Token::Equal,
        Token::LParen,
        id("a"),
        Token::Comma,
        Token::RParen,
        Token::LScope,
        Token::RScope,
    ];
    assert_eq!(
        parse(&tokens),
        program(vec![declare(
            "f",
            Expression::Function {
                params: vec![parameter("a", None)],
                stmt: Box::new(Statement::Scope(vec![])),
            }
        )])
    );
}

#[test]
fn a_colon_without_a_type_declares_none() {
    let tokens = [
        id("let"),
        id("f"),
        Token::Equal,
        Token::LParen,
        id("a"),
        Token::Colon,
        Token::RParen,
        Token::LScope,
        Token::RScope,
    ];
    assert_eq!(
        parse(&tokens),
        program(vec![declare(
            "f",
            Expression::Function {
                params: vec![parameter("a", None)],
                stmt: Box::new(Statement::Scope(vec![])),
            }
        )])
    );
}

#[test]
fn a_function_without_its_closing_paren_is_a_syntax_error() {
    let tokens = [id("let"), id("f"), Token::Equal, Token::LParen, id("a"), Token::LScope];
    assert_eq!(parse(&tokens), fails(ParseErrorKind::ExpectedRParen, 5));
    let tokens = [id("let"), id("f"), Token::Equal, Token::LParen, num("1"), Token::RParen];
    assert_eq!(parse(&tokens), fails(ParseErrorKind::ExpectedRParen, 4));
}

#[test]
fn a_function_without_its_body_is_a_syntax_error() {
    let tokens = [id("let"), id("f"), Token::Equal, Token::LParen, Token::RParen, id("x")];
    assert_eq!(parse(&tokens), fails(ParseErrorKind::ExpectedLScope, 5));
}

#[test]
fn a_function_without_its_closing_brace_is_a_syntax_error() {
    let tokens = [
        id("let"),
        id("f"),
        Token::Equal,
        Token::LParen,
        Token::RParen,
        Token::LScope,
        id("return"),
        id("x"),
    ];
    assert_eq!(parse(&tokens), fails(ParseErrorKind::ExpectedRScope, 8));
}

#[test]
fn an_anonymous_function_closes_with_brace_and_paren() {
    // f((x) { return x }))
    let tokens = [
        id("f"),
        Token::LParen,
        Token::LParen,
        id("x"),
        Token::RParen,
        Token::LScope,
        id("return"),
        id("x"),
        Token::RScope,
        Token::RParen,
        Token::RParen,
    ];
    assert_eq!(
        parse(&tokens),
        program(vec![discard(Expression::FunctionCall {
            ident: boxed("f"),
            args: vec![Expression::Function {
                params: vec![parameter("x", None)],
                stmt: Box::new(Statement::Scope(vec![Statement::Return(name("x"))])),
            }],
        })])
    );
}

#[test]
fn an_anonymous_function_without_its_last_paren_is_a_syntax_error() {
    let tokens = [
        id("let"),
        id("g"),
        Token::Equal,
        id("f"),
        Token::LParen,
        Token::LParen,
        Token::RParen,
        Token::LScope,
        Token::RScope,
    ];
    assert_eq!(parse(&tokens), fails(ParseErrorKind::ExpectedRParen, 9));
}

#[test]
fn an_expression_alone_is_a_declaration_of_underscore() {
    let tokens = [id("f"), Token::LParen, num("1"), Token::Comma, id("x"), Token::RParen];
    assert_eq!(
        parse(&tokens),
        program(vec![discard(Expression::FunctionCall {
            ident: boxed("f"),
            args: vec![number("1"), name("x")],
        })])
    );
}

#[test]
fn a_literal_alone_is_a_declaration_of_underscore() {
    assert_eq!(parse(&[num("5")]), program(vec![discard(number("5"))]));
}

#[test]
fn a_call_without_arguments() {
    let tokens = [id("f"), Token::LParen, Token::RParen];
    assert_eq!(
        parse(&tokens),
        program(vec![discard(Expression::FunctionCall { ident: boxed("f"), args: vec![] })])
    );
}

#[test]
fn a_comma_after_the_last_argument_is_read() {
    let tokens = [id("f"), Token::LParen, id("a"), Token::Comma, Token::RParen];
    assert_eq!(
        parse(&tokens),
        program(vec![discard(Expression::FunctionCall {
            ident: boxed("f"),
            args: vec![name("a")],
        })])
    );
}

#[test]
fn a_call_without_its_closing_paren_is_a_syntax_error() {
    assert_eq!(
        parse(&[id("f"), Token::LParen, id("a")]),
        fails(ParseErrorKind::ExpectedRParen, 3)
    );
    assert_eq!(
        parse(&[id("f"), Token::LParen, id("a"), id("b"), Token::RParen]),
        fails(ParseErrorKind::ExpectedRParen, 3)
    );
    assert_eq!(parse(&[id("f"), Token::LParen]), fails(ParseErrorKind::ExpectedRParen, 2));
}

#[test]
fn an_argument_that_is_no_expression_is_a_syntax_error() {
    assert_eq!(
        parse(&[id("f"), Token::LParen, Token::Comma, Token::RParen]),
        fails(ParseErrorKind::ExpectedExpression, 2)
    );
}

#[test]
fn an_assignment_follows_an_expression_and_equal() {
    let tokens = [id("x"), Token::Equal, num("1")];
    assert_eq!(
        parse(&tokens),
        program(vec![Statement::VariableAssignment { ident: name("x"), value: number("1") }])
    );
}

#[test]
fn an_assignment_to_a_member() {
    let tokens = [id("a"), Token::Dot, id("b"), Token::Equal, id("c")];
    assert_eq!(
        parse(&tokens),
        program(vec![Statement::VariableAssignment {
            ident: Expression::Indexing(boxed("a"), boxed("b")),
            value: name("c"),
        }])
    );
}

#[test]
fn an_assignment_without_a_value_is_a_syntax_error() {
    assert_eq!(
        parse(&[id("x"), Token::Equal]),
        fails(ParseErrorKind::ExpectedExpression, 2)
    );
}

#[test]
fn a_dot_makes_an_indexing() {
    let tokens = [id("let"), id("v"), Token::Equal, id("a"), Token::Dot, id("b")];
    assert_eq!(
        parse(&tokens),
        program(vec![declare("v", Expression::Indexing(boxed("a"), boxed("b")))])
    );
}

#[test]
fn dots_nest_to_the_right() {
    let tokens = [id("a"), Token::Dot, id("b"), Token::Dot, id("c")];
    assert_eq!(
        parse(&tokens),
        program(vec![discard(Expression::Indexing(
            boxed("a"),
            Box::new(Expression::Indexing(boxed("b"), boxed("c")))
        ))])
    );
}

#[test]
fn a_dot_before_a_call_makes_a_function_call_on_the_member() {
    let tokens = [id("a"), Token::Dot, id("b"), Token::LParen, num("1"), Token::RParen];
    assert_eq!(
        parse(&tokens),
        program(vec![discard(Expression::FunctionCall {
            ident: Box::new(Expression::Indexing(boxed("a"), boxed("b"))),
            args: vec![number("1")],
        })])
    );
}

#[test]
fn a_colon_before_a_call_makes_a_method_call() {
    let tokens = [id("a"), Token::Colon, id("b"), Token::LParen, num("1"), Token::RParen];
    assert_eq!(
        parse(&tokens),
        program(vec![discard(Expression::MethodCall {
            ident: Box::new(Expression::Indexing(boxed("a"), boxed("b"))),
            args: vec![number("1")],
        })])
    );
}

#[test]
fn a_colon_before_a_name_makes_an_indexing() {
    let tokens = [id("a"), Token::Colon, id("b")];
    assert_eq!(
        parse(&tokens),
        program(vec![discard(Expression::Indexing(boxed("a"), boxed("b")))])
    );
}

#[test]
fn a_dot_without_a_member_is_a_syntax_error() {
    assert_eq!(parse(&[id("a"), Token::Dot]), fails(ParseErrorKind::ExpectedExpression, 2));
    assert_eq!(
        parse(&[id("a"), Token::Colon, Token::Equal]),
        fails(ParseErrorKind::ExpectedExpression, 2)
    );
}

#[test]
fn and_joins_two_expressions() {
    let tokens = [id("a"), Token::And, id("b")];
    assert_eq!(
        parse(&tokens),
        program(vec![discard(Expression::And(boxed("a"), boxed("b")))])
    );
}

#[test]
fn connectives_group_to_the_right() {
    let tokens = [id("a"), Token::And, id("b"), Token::Or, id("c")];
    assert_eq!(
        parse(&tokens),
        program(vec![discard(Expression::And(
            boxed("a"),
            Box::new(Expression::Or(boxed("b"), boxed("c")))
        ))])
    );
    let tokens = [id("a"), Token::Or, id("b"), Token::And, id("c")];
    assert_eq!(
        parse(&tokens),
        program(vec![discard(Expression::Or(
            boxed("a"),
            Box::new(Expression::And(boxed("b"), boxed("c")))
        ))])
    );
}

#[test]
fn a_member_takes_the_connective_that_follows_it() {
    let tokens = [id("a"), Token::Dot, id("b"), Token::And, id("c")];
    assert_eq!(
        parse(&tokens),
        program(vec![discard(Expression::Indexing(
            boxed("a"),
            Box::new(Expression::And(boxed("b"), boxed("c")))
        ))])
    );
}

#[test]
fn a_connective_without_a_right_operand_is_a_syntax_error() {
    assert_eq!(parse(&[id("a"), Token::And]), fails(ParseErrorKind::ExpectedExpression, 2));
    assert_eq!(
        parse(&[id("a"), Token::Or, Token::RScope]),
        fails(ParseErrorKind::ExpectedExpression, 2)
    );
}

#[test]
fn if_has_a_condition_and_a_scope() {
    let tokens = [
        id("if"),
        id("a"),
        Token::And,
        id("b"),
        Token::LScope,
        id("return"),
        num("1"),
        Token::RScope,
    ];
    assert_eq!(
        parse(&tokens),
        program(vec![Statement::If {
            expr: Expression::And(boxed("a"), boxed("b")),
            body: Box::new(Statement::Scope(vec![Statement::Return(number("1"))])),
        }])
    );
}

#[test]
fn if_without_a_condition_is_a_syntax_error() {
    assert_eq!(
        parse(&[id("if"), Token::LScope, Token::RScope]),
        fails(ParseErrorKind::ExpectedExpression, 1)
    );
}

#[test]
fn if_without_its_scope_is_a_syntax_error() {
    assert_eq!(parse(&[id("if"), id("a")]), fails(ParseErrorKind::ExpectedLScope, 2));
    assert_eq!(
        parse(&[id("if"), id("a"), Token::LScope, id("b")]),
        fails(ParseErrorKind::ExpectedRScope, 4)
    );
}

#[test]
fn return_without_a_value_returns_nil() {
    assert_eq!(parse(&[id("return")]), program(vec![Statement::Return(name("nil"))]));
    let tokens = [Token::LScope, id("return"), Token::RScope];
    assert_eq!(
        parse(&tokens),
        program(vec![Statement::Scope(vec![Statement::Return(name("nil"))])])
    );
}

#[test]
fn return_with_a_value() {
    let tokens = [id("return"), id("a"), Token::Dot, id("b")];
    assert_eq!(
        parse(&tokens),
        program(vec![Statement::Return(Expression::Indexing(boxed("a"), boxed("b")))])
    );
}

#[test]
fn braces_make_a_nested_scope() {
    let tokens = [
        Token::LScope,
        id("a"),
        Token::LScope,
        id("b"),
        Token::RScope,
        Token::RScope,
        id("c"),
    ];
    assert_eq!(
        parse(&tokens),
        program(vec![
            Statement::Scope(vec![
                discard(name("a")),
                Statement::Scope(vec![discard(name("b"))]),
            ]),
            discard(name("c")),
        ])
    );
}

#[test]
fn an_open_brace_without_its_end_is_a_syntax_error() {
    assert_eq!(parse(&[Token::LScope]), fails(ParseErrorKind::ExpectedRScope, 1));
    assert_eq!(
        parse(&[Token::LScope, Token::LScope, id("a"), Token::RScope]),
        fails(ParseErrorKind::ExpectedRScope, 4)
    );
}

#[test]
fn a_closing_brace_that_closes_nothing_ends_the_program() {
    let tokens = [id("a"), Token::RScope, id("b")];
    assert_eq!(parse(&tokens), program(vec![discard(name("a"))]));
}

#[test]
fn passthrough_becomes_a_luau_statement() {
    let tokens = [Token::Luau("print(\"hi\")".to_string()), id("x")];
    assert_eq!(
        parse(&tokens),
        program(vec![Statement::Luau("print(\"hi\")".to_string()), discard(name("x"))])
    );
}

#[test]
fn a_token_that_begins_no_statement_is_a_syntax_error() {
    assert_eq!(parse(&[Token::Equal]), fails(ParseErrorKind::UnexpectedToken, 0));
    assert_eq!(parse(&[id("a"), Token::Comma]), fails(ParseErrorKind::UnexpectedToken, 1));
    assert_eq!(parse(&[Token::RParen]), fails(ParseErrorKind::UnexpectedToken, 0));
    assert_eq!(parse(&[Token::Dot]), fails(ParseErrorKind::UnexpectedToken, 0));
    assert_eq!(parse(&[Token::Colon]), fails(ParseErrorKind::UnexpectedToken, 0));
    assert_eq!(parse(&[Token::And]), fails(ParseErrorKind::UnexpectedToken, 0));
    assert_eq!(parse(&[Token::Or]), fails(ParseErrorKind::UnexpectedToken, 0));
}

#[test]
fn a_class_has_properties_and_methods() {
    // class Foo { bar = 1  get = (self) { return bar }  baz = "s" }
    let tokens = [
        id("class"),
        id("Foo"),
        Token::LScope,
        id("bar"),
        Token::Equal,
        num("1"),
        id("get"),
        Token::Equal,
        Token::LParen,
        id("self"),
        Token::RParen,
        Token::LScope,
        id("return"),
        id("bar"),
        Token::RScope,
        id("baz"),
        Token::Equal,
        Token::Literal(Literal::String("s".to_string())),
        Token::RScope,
    ];
    assert_eq!(
        parse(&tokens),
        program(vec![Statement::ClassConstructor {
            ident: name("Foo"),
            body: Expression::ClassBody {
                properties: vec![
                    declare("bar", number("1")),
                    declare("baz", Expression::String("s".to_string())),
                ],
                methods: vec![declare(
                    "get",
                    Expression::Function {
                        params: vec![parameter("self", None)],
                        stmt: Box::new(Statement::Scope(vec![Statement::Return(name("bar"))])),
                    }
                )],
            },
        }])
    );
}

#[test]
fn an_empty_class() {
    let tokens = [id("class"), id("Foo"), Token::LScope, Token::RScope];
    assert_eq!(
        parse(&tokens),
        program(vec![Statement::ClassConstructor {
            ident: name("Foo"),
            body: Expression::ClassBody { properties: vec![], methods: vec![] },
        }])
    );
}

#[test]
fn a_class_without_a_name_is_a_syntax_error() {
    assert_eq!(
        parse(&[id("class"), Token::LScope, Token::RScope]),
        fails(ParseErrorKind::ExpectedExpression, 1)
    );
}

#[test]
fn a_class_without_its_body_is_a_syntax_error() {
    assert_eq!(parse(&[id("class"), id("Foo")]), fails(ParseErrorKind::ExpectedLScope, 2));
    assert_eq!(
        parse(&[id("class"), id("Foo"), Token::LScope, id("a"), Token::Equal, num("1")]),
        fails(ParseErrorKind::ExpectedRScope, 6)
    );
}

#[test]
fn a_class_member_without_equal_is_a_syntax_error() {
    assert_eq!(
        parse(&[id("class"), id("Foo"), Token::LScope, id("a"), Token::RScope]),
        fails(ParseErrorKind::ExpectedEqual, 4)
    );
}

#[test]
fn parse_statement_reads_one_statement_at_a_time() {
    let tokens = [id("a"), id("b"), Token::RScope];
    let mut parser = Parser::new(&tokens);
    assert_eq!(parser.parse_statement(), Ok(Some(discard(name("a")))));
    assert_eq!(parser.parse_statement(), Ok(Some(discard(name("b")))));
    assert_eq!(parser.parse_statement(), Ok(None));
    assert_eq!(parser.parse_statement(), Ok(None));
}

#[test]
fn parse_scope_stops_before_a_closing_brace() {
    let tokens = [id("a"), Token::RScope, id("b")];
    let mut parser = Parser::new(&tokens);
    assert_eq!(parser.parse_scope(), Ok(Statement::Scope(vec![discard(name("a"))])));
    assert_eq!(parser.parse_scope(), Ok(Statement::Scope(vec![])));
}

#[test]
fn load_reads_the_whole_program() {
    let tokens = [id("let"), id("x"), Token::Equal, num("5"), id("x")];
    let mut parser = Parser::new(&tokens);
    assert_eq!(
        parser.load(),
        Ok(Statement::Scope(vec![declare("x", number("5")), discard(name("x"))]))
    );
}

#[test]
fn a_cloned_tree_equals_the_tree() {
    let tokens = [
        id("class"),
        id("Foo"),
        Token::LScope,
        id("bar"),
        Token::Equal,
        num("1"),
        id("get"),
        Token::Equal,
        Token::LParen,
        id("self"),
        Token::Colon,
        id("Foo"),
        Token::RParen,
        Token::LScope,
        id("if"),
        id("a"),
        Token::And,
        id("b"),
        Token::Dot,
        id("c"),
        Token::LScope,
        id("return"),
        id("f"),
        Token::LParen,
        Token::Literal(Literal::String("s".to_string())),
        Token::Comma,
        Token::Literal(Literal::Char('c')),
        Token::Comma,
        Token::Literal(Literal::Bool(false)),
        Token::RParen,
        Token::RScope,
        id("x"),
        Token::Colon,
        id("m"),
        Token::LParen,
        Token::RParen,
        Token::Luau("-- raw".to_string()),
        id("y"),
        Token::Equal,
        id("a"),
        Token::Or,
        id("b"),
        Token::RScope,
        Token::RScope,
    ];
    let tree = parse(&tokens).unwrap();
    assert_eq!(tree.clone(), tree);
    match &tree {
        Statement::Scope(statements) => {
            assert_eq!(statements.len(), 1);
            match &statements[0] {
                Statement::ClassConstructor { ident, body } => {
                    assert_eq!(ident.clone(), name("Foo"));
                    assert_eq!(&body.clone(), body);
                }
                other => panic!("{other:?}"),
            }
        }
        other => panic!("{other:?}"),
    }
}
