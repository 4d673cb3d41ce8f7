use luau_compiler::backend::model::GenError;
use luau_compiler::frontend::grammar::{ParseError, ParseErrorKind};
use luau_compiler::frontend::lexer::Lexer;
use luau_compiler::frontend::token::{Literal, Token};
use luau_compiler::{compile_tokens, CompileError};

fn id(name: &str) -> Token {
    Token::Identifier(name.to_string())
}

fn num(digits: &str) -> Token {
    Token::Literal(Literal::Number(digits.to_string()))
}

/// Lexes the text and compiles its tokens, with `and` and `or` made
/// connectives on the way.
fn compile(src: &str) -> Result<String, CompileError> {
    let mut lexer = Lexer::new(src);
    let tokens: Vec<Token> = lexer
        .load()
        .unwrap()
        .iter()
        .map(|token| match token {
            Token::Identifier(word) if word == "and" => Token::And,
            Token::Identifier(word) if word == "or" => Token::Or,
            other => other.clone(),
        })
        .collect();
    compile_tokens(&tokens)
}

#[test]
fn let_x_5_is_a_typed_local() {
    assert_eq!(compile("let x = 5"), Ok("local x: number = 5\n".to_string()));
}

#[test]
fn let_y_x_is_an_untyped_local() {
    assert_eq!(
        compile("let x = 5 let y = x"),
        Ok("local x: number = 5\nlocal y = x\n".to_string())
    );
}

#[test]
fn a_scope_in_a_scope_is_indented_twice() {
    assert_eq!(
        compile("{ { a = 1 } }"),
        Ok("do\n    do\n        a = 1 :: number\n    end\nend\n".to_string())
    );
}

#[test]
fn class_foo_with_a_property() {
    assert_eq!(
        compile("class Foo { bar = 1 }"),
        Ok("local Foo = {}\nfunction Foo.new()\n    local self = {}\n    self.bar = 1 :: number\n    return self\nend\n"
            .to_string())
    );
}

#[test]
fn a_class_with_a_method_writes_only_its_properties() {
    assert_eq!(
        compile("class Foo { bar = \"b\" get = (self) { return self.bar } }"),
        Ok("local Foo = {}\nfunction Foo.new()\n    local self = {}\n    self.bar = \"b\" :: string\n    return self\nend\n"
            .to_string())
    );
}

#[test]
fn a_and_b_is_written_infix() {
    assert_eq!(compile("let c = a and b"), Ok("local c = a and b\n".to_string()));
    assert_eq!(compile("let d = a and b or c"), Ok("local d = a and b or c\n".to_string()));
}

#[test]
fn let_x_without_a_value_gives_no_text() {
    assert_eq!(
        compile("let x ="),
        Err(CompileError::Syntax(ParseError { kind: ParseErrorKind::ExpectedExpression, at: 3 }))
    );
}

#[test]
fn a_whole_program() {
    let src = "
        let greeting = \"hello\"
        let add = (a: number, b: number) {
            return add(a, b)
        }
        if greeting {
            total = add(1, 2.5)
            print(total, 'c')
        }
        config.debug = greeting
        return total
    ";
    assert_eq!(
        compile(src),
        Ok([
            "local greeting: string = \"hello\"",
            "local function add(a: number, b: number)",
            "    return add(a, b)",
            "end",
            "if greeting then",
            "    total = add(1, 2.5)",
            "    local _ = print(total, \"c\")",
            "end",
            "config.debug = greeting",
            "return total",
            "",
        ]
        .join("\n"))
    );
}

#[test]
fn a_method_call_is_parsed_and_then_refused() {
    assert_eq!(
        compile("obj:method(1)"),
        Err(CompileError::Generation(GenError::UnrenderableExpression))
    );
}

#[test]
fn an_assignment_to_a_literal_is_refused_by_the_generator() {
    assert_eq!(compile("5 = x"), Err(CompileError::Generation(GenError::InvalidTarget)));
}

#[test]
fn passthrough_tokens_are_written_untouched() {
    let tokens = [
        Token::Luau("--!strict".to_string()),
        id("let"),
        id("x"),
        Token::Equal,
        num("1"),
        Token::LScope,
        Token::Luau("x += 1".to_string()),
        Token::RScope,
    ];
    assert_eq!(
        compile_tokens(&tokens),
        Ok("--!strict\nlocal x: number = 1\ndo\n    x += 1\nend\n".to_string())
    );
}

#[test]
fn no_tokens_compile_to_no_text() {
    assert_eq!(compile_tokens(&[]), Ok(String::new()));
    assert_eq!(compile(""), Ok(String::new()));
}

#[test]
fn bool_literals_are_typed_boolean() {
    let tokens = [id("let"), id("t"), Token::Equal, Token::Literal(Literal::Bool(true))];
    assert_eq!(compile_tokens(&tokens), Ok("local t: boolean = true\n".to_string()));
}
