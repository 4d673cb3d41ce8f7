use luau_compiler::frontend::lexer::{characters, LexError, LexErrorKind, Lexer};
use luau_compiler::frontend::token::{Literal, Token};

fn lex(src: &str) -> Result<Vec<Token>, LexError> {
    let mut lexer = Lexer::new(src);
    lexer.load().map(|tokens| tokens.clone())
}

fn id(name: &str) -> Token {
    Token::Identifier(name.to_string())
}

fn num(digits: &str) -> Token {
    Token::Literal(Literal::Number(digits.to_string()))
}

fn text(s: &str) -> Token {
    Token::Literal(Literal::String(s.to_string()))
}

#[test]
fn characters_are_the_chars_of_the_text() {
    assert_eq!(characters("aé z"), vec!['a', 'é', ' ', 'z']);
    assert_eq!(characters(""), Vec::<char>::new());
}

#[test]
fn empty_text_has_no_tokens() {
    assert_eq!(lex(""), Ok(vec![]));
    assert_eq!(lex("  \n\t "), Ok(vec![]));
}

#[test]
fn a_declaration_is_four_tokens() {
    assert_eq!(lex("let x = 5"), Ok(vec![id("let"), id("x"), Token::Equal, num("5")]));
}

#[test]
fn structural_characters_map_one_to_one() {
    assert_eq!(
        lex("{}(),=:."),
        Ok(vec![
            Token::LScope,
            Token::RScope,
            Token::LParen,
            Token::RParen,
            Token::Comma,
            Token::Equal,
            Token::Colon,
            Token::Dot,
        ])
    );
}

#[test]
fn identifiers_take_letters_and_underscores() {
    assert_eq!(lex("_private_name"), Ok(vec![id("_private_name")]));
    assert_eq!(lex("Foo.bar"), Ok(vec![id("Foo"), Token::Dot, id("bar")]));
    assert_eq!(lex("ab cd"), Ok(vec![id("ab"), id("cd")]));
}

#[test]
fn identifiers_go_on_with_any_alphabetic_character() {
    assert_eq!(lex("caf\u{e9}"), Ok(vec![id("caf\u{e9}")]));
}

#[test]
fn identifiers_cannot_begin_with_a_letter_outside_ascii() {
    assert_eq!(
        lex("\u{e9}t"),
        Err(LexError { kind: LexErrorKind::UnexpectedCharacter, at: 0 })
    );
}

#[test]
fn a_digit_ends_an_identifier() {
    assert_eq!(lex("x1"), Ok(vec![id("x"), num("1")]));
}

#[test]
fn keywords_are_plain_identifiers() {
    assert_eq!(
        lex("a and b or true"),
        Ok(vec![id("a"), id("and"), id("b"), id("or"), id("true")])
    );
}

#[test]
fn numbers_keep_their_digits() {
    assert_eq!(lex("42"), Ok(vec![num("42")]));
    assert_eq!(lex("1.5"), Ok(vec![num("1.5")]));
    assert_eq!(lex("1.50"), Ok(vec![num("1.50")]));
    assert_eq!(lex("7."), Ok(vec![num("7.")]));
    assert_eq!(lex("3,4"), Ok(vec![num("3"), Token::Comma, num("4")]));
}

#[test]
fn a_number_with_two_points_is_malformed() {
    assert_eq!(
        lex("1.2.3 x"),
        Err(LexError { kind: LexErrorKind::MalformedNumber, at: 5 })
    );
    assert_eq!(lex("1.."), Err(LexError { kind: LexErrorKind::MalformedNumber, at: 3 }));
}

#[test]
fn a_number_with_a_digit_outside_ascii_is_malformed() {
    // U+0663 is ARABIC-INDIC DIGIT THREE, which is numeric.
    assert_eq!(
        lex("1\u{663}"),
        Err(LexError { kind: LexErrorKind::MalformedNumber, at: 2 })
    );
}

#[test]
fn strings_stand_between_double_quotes() {
    assert_eq!(lex("\"hello world\""), Ok(vec![text("hello world")]));
    assert_eq!(lex("\"\""), Ok(vec![text("")]));
    assert_eq!(lex("\"a\" \"b\""), Ok(vec![text("a"), text("b")]));
}

#[test]
fn strings_have_no_escapes() {
    assert_eq!(lex("\"a\\\"b"), Ok(vec![text("a\\"), id("b")]));
    assert_eq!(lex("\"it's {}\""), Ok(vec![text("it's {}")]));
}

#[test]
fn a_string_without_its_end_runs_to_the_end_of_the_text() {
    assert_eq!(lex("\"abc"), Ok(vec![text("abc")]));
    assert_eq!(lex("\""), Ok(vec![text("")]));
}

#[test]
fn a_char_is_one_character_between_single_quotes() {
    assert_eq!(lex("'a'"), Ok(vec![Token::Literal(Literal::Char('a'))]));
    assert_eq!(lex("'\"'"), Ok(vec![Token::Literal(Literal::Char('"'))]));
    assert_eq!(lex("'''"), Ok(vec![Token::Literal(Literal::Char('\''))]));
}

#[test]
fn a_char_of_two_characters_is_malformed() {
    assert_eq!(lex("'ab'"), Err(LexError { kind: LexErrorKind::MalformedChar, at: 2 }));
    assert_eq!(lex("''"), Err(LexError { kind: LexErrorKind::MalformedChar, at: 2 }));
    assert_eq!(lex("'a"), Err(LexError { kind: LexErrorKind::MalformedChar, at: 2 }));
    assert_eq!(lex("x '"), Err(LexError { kind: LexErrorKind::MalformedChar, at: 3 }));
}

#[test]
fn an_unexpected_character_is_an_error_at_its_index() {
    assert_eq!(
        lex("let x = @"),
        Err(LexError { kind: LexErrorKind::UnexpectedCharacter, at: 8 })
    );
    assert_eq!(lex("+"), Err(LexError { kind: LexErrorKind::UnexpectedCharacter, at: 0 }));
}

#[test]
fn white_space_separates_and_is_dropped() {
    assert_eq!(
        lex("  if\ta\n{\r\n}\u{a0}"),
        Ok(vec![id("if"), id("a"), Token::LScope, Token::RScope])
    );
}

#[test]
fn load_keeps_the_tokens_read_before_an_error() {
    let mut lexer = Lexer::new("a = #");
    assert_eq!(
        lexer.load().err(),
        Some(LexError { kind: LexErrorKind::UnexpectedCharacter, at: 4 })
    );
}

#[test]
fn load_twice_adds_nothing() {
    let mut lexer = Lexer::new("a b");
    assert_eq!(lexer.load().map(|t| t.len()), Ok(2));
    assert_eq!(lexer.load().map(|t| t.len()), Ok(2));
}

#[test]
fn a_class_is_lexed_token_by_token() {
    assert_eq!(
        lex("class Foo { bar = 1 }"),
        Ok(vec![
            id("class"),
            id("Foo"),
            Token::LScope,
            id("bar"),
            Token::Equal,
            num("1"),
            Token::RScope,
        ])
    );
}
