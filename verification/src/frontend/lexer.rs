//! The lexer: it turns source text into tokens, by longest match and
//! without looking at what came before.

use crate::cursor::Cursor;
use crate::frontend::token::{token_views, Literal, LiteralView, Token, TokenView};
use vstd::prelude::*;

verus! {

/// Whether `char::is_alphabetic` holds of the character.
pub uninterp spec fn is_alphabetic(c: char) -> bool;

/// Whether `char::is_numeric` holds of the character.
pub uninterp spec fn is_numeric(c: char) -> bool;

/// Whether `char::is_whitespace` holds of the character.
pub uninterp spec fn is_whitespace(c: char) -> bool;

/// `char::is_alphabetic` says whether the character has the Unicode
/// property `Alphabetic`; the answer depends on the character alone.
pub assume_specification[ char::is_alphabetic ](c: char) -> (b: bool)
    ensures
        b == is_alphabetic(c),
;

/// `char::is_numeric` says whether the character is in one of the Unicode
/// general categories for numbers; the answer depends on the character
/// alone.
pub assume_specification[ char::is_numeric ](c: char) -> (b: bool)
    ensures
        b == is_numeric(c),
;

/// `char::is_whitespace` says whether the character has the Unicode
/// property `White_Space`; the answer depends on the character alone.
pub assume_specification[ char::is_whitespace ](c: char) -> (b: bool)
    ensures
        b == is_whitespace(c),
;

/// Why a text has no tokens.
#[derive(Debug, Clone, Copy, PartialEq, Eq)]
pub enum LexErrorKind {
    /// The character begins no token and is not white space.
    UnexpectedCharacter,
    /// A `'` is not followed by one character and a second `'`.
    MalformedChar,
    /// A number has a character that is no decimal digit, or more than one
    /// point.
    MalformedNumber,
}

/// A lexical error: its kind, and the index of the character at which the
/// lexer stopped (the number of characters, at the end of the text).
#[derive(Debug, Clone, Copy, PartialEq, Eq)]
pub struct LexError {
    pub kind: LexErrorKind,
    pub at: usize,
}

/// Whether an identifier can begin with the character.
pub open spec fn starts_identifier(c: char) -> bool {
    c == '_' || ('a' <= c && c <= 'z') || ('A' <= c && c <= 'Z')
}

/// Whether an identifier goes on with the character.
pub open spec fn continues_identifier(c: char) -> bool {
    is_alphabetic(c) || c == '_'
}

/// Whether the character is a decimal digit, with which a number begins.
pub open spec fn is_digit(c: char) -> bool {
    '0' <= c && c <= '9'
}

/// Whether a number goes on with the character.
pub open spec fn continues_number(c: char) -> bool {
    is_numeric(c) || c == '.'
}

/// The punctuation mark that the character stands for, if it is one.
pub open spec fn mark(c: char) -> Option<TokenView> {
    if c == '{' {
        Some(TokenView::LScope)
    } else if c == '}' {
        Some(TokenView::RScope)
    } else if c == '(' {
        Some(TokenView::LParen)
    } else if c == ')' {
        Some(TokenView::RParen)
    } else if c == ',' {
        Some(TokenView::Comma)
    } else if c == '=' {
        Some(TokenView::Equal)
    } else if c == ':' {
        Some(TokenView::Colon)
    } else if c == '.' {
        Some(TokenView::Dot)
    } else {
        None
    }
}

/// The first position from `pos` on at which no character stands with which
/// an identifier goes on.
pub open spec fn identifier_end(cs: Seq<char>, pos: nat) -> nat
    decreases cs.len() - pos,
{
    if pos < cs.len() && continues_identifier(cs[pos as int]) {
        identifier_end(cs, pos + 1)
    } else {
        pos
    }
}

/// The first position from `pos` on at which no character stands with which
/// a number goes on.
pub open spec fn number_end(cs: Seq<char>, pos: nat) -> nat
    decreases cs.len() - pos,
{
    if pos < cs.len() && continues_number(cs[pos as int]) {
        number_end(cs, pos + 1)
    } else {
        pos
    }
}

/// The first position from `pos` on at which a `"` stands, or the length
/// of the text if none does.
pub open spec fn string_end(cs: Seq<char>, pos: nat) -> nat
    decreases cs.len() - pos,
{
    if pos < cs.len() && cs[pos as int] != '"' {
        string_end(cs, pos + 1)
    } else {
        pos
    }
}

/// How many of the characters are points.
pub open spec fn points(text: Seq<char>) -> nat
    decreases text.len(),
{
    if text.len() == 0 {
        0
    } else {
        points(text.drop_last()) + if text.last() == '.' {
            1nat
        } else {
            0nat
        }
    }
}

/// Whether the text is a decimal literal: decimal digits with at most one
/// point among them.
pub open spec fn is_decimal(text: Seq<char>) -> bool {
    &&& forall|i: int| 0 <= i < text.len() ==> is_digit(#[trigger] text[i]) || text[i] == '.'
    &&& points(text) <= 1
}

/// What the lexer does at one position: the token read there, if one is,
/// the error, if there is one, and the position after the token or of the
/// error.
pub ghost struct Step {
    pub token: Option<TokenView>,
    pub error: Option<LexErrorKind>,
    pub next: nat,
}

/// A step that reads a token.
pub open spec fn reads(token: TokenView, next: nat) -> Step {
    Step { token: Some(token), error: None, next }
}

/// A step that fails.
pub open spec fn fails(kind: LexErrorKind, at: nat) -> Step {
    Step { token: None, error: Some(kind), next: at }
}

/// The step of the lexer at a position at which a character stands.
pub open spec fn step(cs: Seq<char>, pos: nat) -> Step
    recommends
        pos < cs.len(),
{
    let p: int = pos as int;
    let c = cs[p];
    if starts_identifier(c) {
        let end = identifier_end(cs, pos + 1);
        reads(TokenView::Identifier(cs.subrange(pos as int, end as int)), end)
    } else if is_digit(c) {
        let end = number_end(cs, pos + 1);
        let text = cs.subrange(pos as int, end as int);
        if is_decimal(text) {
            reads(TokenView::Literal(LiteralView::Number(text)), end)
        } else {
            fails(LexErrorKind::MalformedNumber, end)
        }
    } else if c == '"' {
        let end = string_end(cs, pos + 1);
        reads(
            TokenView::Literal(
                LiteralView::String(cs.subrange(p + 1, end as int)),
            ),
            if end < cs.len() {
                end + 1
            } else {
                end
            },
        )
    } else if c == '\'' {
        if pos + 1 >= cs.len() {
            fails(LexErrorKind::MalformedChar, pos + 1)
        } else if pos + 2 < cs.len() && cs[p + 2] == '\'' {
            reads(
                TokenView::Literal(LiteralView::Char(cs[p + 1])),
                pos + 3,
            )
        } else {
            fails(LexErrorKind::MalformedChar, pos + 2)
        }
    } else if mark(c) is Some {
        reads(mark(c)->0, pos + 1)
    } else if is_whitespace(c) {
        Step { token: None, error: None, next: pos + 1 }
    } else {
        fails(LexErrorKind::UnexpectedCharacter, pos)
    }
}

/// The tokens read from a position on, up to the end of the text or to the
/// first error; the error, if there is one; and the position at which the
/// reading ended.
pub ghost struct Scan {
    pub tokens: Seq<TokenView>,
    pub error: Option<LexErrorKind>,
    pub end: nat,
}

/// `rest`, with the token of `first`, if it has one, in front.
pub open spec fn after(first: Option<TokenView>, rest: Scan) -> Scan {
    match first {
        Some(t) => Scan { tokens: seq![t] + rest.tokens, error: rest.error, end: rest.end },
        None => rest,
    }
}

/// An identifier or a number ends at or after the position from which its
/// end is looked for, and inside the text.
pub proof fn lemma_ends(cs: Seq<char>, pos: nat)
    requires
        pos <= cs.len(),
    ensures
        pos <= identifier_end(cs, pos) <= cs.len(),
        pos <= number_end(cs, pos) <= cs.len(),
        pos <= string_end(cs, pos) <= cs.len(),
    decreases cs.len() - pos,
{
    if pos < cs.len() {
        lemma_ends(cs, pos + 1);
    }
}

/// A step that does not fail moves forward, and no step leaves the text.
pub proof fn lemma_step(cs: Seq<char>, pos: nat)
    requires
        pos < cs.len(),
    ensures
        step(cs, pos).error is None ==> pos < step(cs, pos).next,
        pos <= step(cs, pos).next <= cs.len(),
{
    lemma_ends(cs, pos + 1);
}

/// The reading of the text from a position on.
pub open spec fn lex_from(cs: Seq<char>, pos: nat) -> Scan
    decreases cs.len() - pos,
{
    if pos >= cs.len() {
        Scan { tokens: Seq::empty(), error: None, end: pos }
    } else {
        let s = step(cs, pos);
        if s.error is Some {
            Scan { tokens: Seq::empty(), error: s.error, end: s.next }
        } else {
            proof {
                lemma_step(cs, pos);
            }
            after(s.token, lex_from(cs, s.next))
        }
    }
}

/// The characters of a text, in their order.
pub fn characters(src: &str) -> (chars: Vec<char>)
    ensures
        chars@ == src@,
{
    let mut chars: Vec<char> = Vec::new();
    for c in it: src.chars()
        invariant
            chars@ == it.seq().take(it.index() as int),
            it.seq() == src@,
    {
        chars.push(c);
    }
    chars
}

/// The tokens read before a step, followed by those of the step and of
/// what is read after it, are the tokens read up to after the step, followed
/// by those of what is read after it.
pub proof fn lemma_tokens_after(before: Seq<TokenView>, first: Option<TokenView>, rest: Scan)
    ensures
        before + after(first, rest).tokens == (match first {
            Some(t) => before.push(t),
            None => before,
        }) + rest.tokens,
        after(first, rest).error == rest.error,
        after(first, rest).end == rest.end,
{
}

/// A lexer: the characters of the text, of which some are read, and the
/// tokens read so far.
pub struct Lexer {
    cursor: Cursor<char>,
    tokens: Vec<Token>,
}

/// Whether `after` is `before` one step later, and `r` the result of that
/// step: an error if the step fails, in which case no token is added.
pub open spec fn stepped(before: Lexer, after: Lexer, r: Result<(), LexError>) -> bool {
    let s = step(before.chars(), before.position());
    &&& after.chars() == before.chars()
    &&& after.position() == s.next
    &&& after.tokens() == match s.token {
        Some(t) => before.tokens().push(t),
        None => before.tokens(),
    }
    &&& match s.error {
        Some(kind) => r matches Err(e) && e.kind == kind && e.at == s.next,
        None => r is Ok,
    }
}

impl Lexer {
    /// The characters of the text; they never change.
    pub closed spec fn chars(&self) -> Seq<char> {
        self.cursor.items()
    }

    /// The index of the next character.
    pub closed spec fn position(&self) -> nat {
        self.cursor.position()
    }

    /// The tokens read so far.
    pub closed spec fn tokens(&self) -> Seq<TokenView> {
        token_views(self.tokens@)
    }

    /// Whether a character is still to be read.
    pub open spec fn has_next(&self) -> bool {
        self.position() < self.chars().len()
    }

    /// The next character, where there is one.
    pub open spec fn next_char(&self) -> char {
        self.chars()[self.position() as int]
    }

    /// Adds a token to those read so far.
    fn push(&mut self, token: Token)
        ensures
            final(self).chars() == old(self).chars(),
            final(self).position() == old(self).position(),
            final(self).tokens() == old(self).tokens().push(token@),
    {
        self.tokens.push(token);
    }

    /// Reads an identifier: its first character and all that follow with
    /// which an identifier goes on.
    fn identifier(&mut self)
        requires
            old(self).has_next(),
            starts_identifier(old(self).next_char()),
        ensures
            stepped(*old(self), *final(self), Ok(())),
    {
        let ghost cs = self.chars();
        let ghost start = self.position();
        let mut buffer = String::new();
        match self.cursor.eat() {
            Some(c) => {
                buffer.push(c);
            },
            None => {},
        }
        loop
            invariant_except_break
                identifier_end(cs, (start + 1) as nat) == identifier_end(cs, self.position()),
            invariant
                self.chars() == cs,
                cs == old(self).chars(),
                start == old(self).position(),
                self.tokens() == old(self).tokens(),
                start < self.position() <= cs.len(),
                buffer@ == cs.subrange(start as int, self.position() as int),
            ensures
                identifier_end(cs, (start + 1) as nat) == self.position(),
            decreases cs.len() - self.position(),
        {
            let ghost here = self.position();
            let goes_on = |c: char| -> (b: bool)
                ensures
                    b == continues_identifier(c),
                { c.is_alphabetic() || c == '_' };
            match self.cursor.eat_iff(goes_on) {
                Some(c) => {
                    buffer.push(c);
                },
                None => {
                    break ;
                },
            }
        }
        self.push(Token::Identifier(buffer));
    }

    /// Reads a number: its first digit and all the characters that follow
    /// with which a number goes on. They must make a decimal literal.
    fn number(&mut self) -> (r: Result<(), LexError>)
        requires
            old(self).has_next(),
            is_digit(old(self).next_char()),
        ensures
            stepped(*old(self), *final(self), r),
    {
        let ghost cs = self.chars();
        let ghost start = self.position();
        let mut buffer = String::new();
        let mut plain = true;
        let mut dots: usize = 0;
        let _ = self.cursor.index();
        match self.cursor.eat() {
            Some(c) => {
                buffer.push(c);
            },
            None => {},
        }
        assert(points(buffer@) == 0) by {
            reveal_with_fuel(points, 2);
        }
        loop
            invariant_except_break
                number_end(cs, (start + 1) as nat) == number_end(cs, self.position()),
            invariant
                self.chars() == cs,
                cs == old(self).chars(),
                start == old(self).position(),
                self.tokens() == old(self).tokens(),
                start < self.position() <= cs.len(),
                buffer@ == cs.subrange(start as int, self.position() as int),
                plain == (forall|i: int|
                    0 <= i < buffer@.len() ==> is_digit(#[trigger] buffer@[i]) || buffer@[i]
                        == '.'),
                dots == points(buffer@),
                dots <= buffer@.len(),
                cs.len() <= usize::MAX,
            ensures
                number_end(cs, (start + 1) as nat) == self.position(),
            decreases cs.len() - self.position(),
        {
            let ghost here = self.position();
            let ghost text = buffer@;
            let goes_on = |c: char| -> (b: bool)
                ensures
                    b == continues_number(c),
                { c.is_numeric() || c == '.' };
            match self.cursor.eat_iff(goes_on) {
                Some(c) => {
                    buffer.push(c);
                    assert(buffer@.drop_last() =~= text);
                    if c == '.' {
                        dots += 1;
                    } else if !(c >= '0' && c <= '9') {
                        plain = false;
                    }
                    assert(plain == (forall|i: int|
                        0 <= i < buffer@.len() ==> is_digit(#[trigger] buffer@[i]) || buffer@[i]
                            == '.')) by {
                        if plain {
                            assert forall|i: int| 0 <= i < buffer@.len() implies is_digit(
                                #[trigger] buffer@[i],
                            ) || buffer@[i] == '.' by {
                                if i < text.len() {
                                    assert(buffer@[i] == text[i]);
                                }
                            }
                        } else if is_digit(c) || c == '.' {
                            let i = choose|i: int|
                                0 <= i < text.len() && !(is_digit(#[trigger] text[i]) || text[i]
                                    == '.');
                            assert(buffer@[i] == text[i]);
                        } else {
                            assert(buffer@[buffer@.len() - 1] == c);
                        }
                    }
                },
                None => {
                    break ;
                },
            }
        }
        if plain && dots <= 1 {
            self.push(Token::Literal(Literal::Number(buffer)));
            Ok(())
        } else {
            Err(LexError { kind: LexErrorKind::MalformedNumber, at: self.cursor.index() })
        }
    }

    /// Reads a string: what stands between a `"` and the next `"`, or the
    /// end of the text where no `"` follows. Nothing in it is an escape.
    fn string(&mut self)
        requires
            old(self).has_next(),
            old(self).next_char() == '"',
        ensures
            stepped(*old(self), *final(self), Ok(())),
    {
        let ghost cs = self.chars();
        let ghost start = self.position();
        let mut buffer = String::new();
        let _ = self.cursor.eat();
        loop
            invariant_except_break
                string_end(cs, (start + 1) as nat) == string_end(cs, self.position()),
                buffer@ == cs.subrange(start as int + 1, self.position() as int),
            invariant
                self.chars() == cs,
                cs == old(self).chars(),
                start == old(self).position(),
                self.tokens() == old(self).tokens(),
                start < self.position() <= cs.len(),
            ensures
                buffer@ == cs.subrange(
                    start as int + 1,
                    string_end(cs, (start + 1) as nat) as int,
                ),
                self.position() == if string_end(cs, (start + 1) as nat) < cs.len() {
                    string_end(cs, (start + 1) as nat) + 1
                } else {
                    string_end(cs, (start + 1) as nat)
                },
            decreases cs.len() - self.position(),
        {
            let ghost here = self.position();
            match self.cursor.eat() {
                Some(c) => {
                    if c != '"' {
                        buffer.push(c);
                    } else {
                        break ;
                    }
                },
                None => {
                    break ;
                },
            }
        }
        self.push(Token::Literal(Literal::String(buffer)));
    }

    /// Reads a character: a `'`, one character and a `'`.
    fn char_literal(&mut self) -> (r: Result<(), LexError>)
        requires
            old(self).has_next(),
            old(self).next_char() == '\'',
        ensures
            stepped(*old(self), *final(self), r),
    {
        let _ = self.cursor.eat();
        let c = match self.cursor.eat() {
            Some(c) => c,
            None => {
                return Err(
                    LexError { kind: LexErrorKind::MalformedChar, at: self.cursor.index() },
                );
            },
        };
        let closes = |c: char| -> (b: bool)
            ensures
                b == (c == '\''),
            { c == '\'' };
        match self.cursor.eat_iff(closes) {
            Some(_) => {},
            None => {
                return Err(
                    LexError { kind: LexErrorKind::MalformedChar, at: self.cursor.index() },
                );
            },
        }
        self.push(Token::Literal(Literal::Char(c)));
        Ok(())
    }

    /// Reads the token that begins at the next character, or steps over that
    /// character if it is white space.
    fn next(&mut self) -> (r: Result<(), LexError>)
        requires
            old(self).has_next(),
        ensures
            stepped(*old(self), *final(self), r),
    {
        let c = match self.cursor.peek(None) {
            Some(c) => c,
            None => {
                return Ok(());
            },
        };
        if c == '_' || (c >= 'a' && c <= 'z') || (c >= 'A' && c <= 'Z') {
            self.identifier();
            Ok(())
        } else if c >= '0' && c <= '9' {
            self.number()
        } else if c == '"' {
            self.string();
            Ok(())
        } else if c == '\'' {
            self.char_literal()
        } else if c == '{' {
            let _ = self.cursor.eat();
            self.push(Token::LScope);
            Ok(())
        } else if c == '}' {
            let _ = self.cursor.eat();
            self.push(Token::RScope);
            Ok(())
        } else if c == '(' {
            let _ = self.cursor.eat();
            self.push(Token::LParen);
            Ok(())
        } else if c == ')' {
            let _ = self.cursor.eat();
            self.push(Token::RParen);
            Ok(())
        } else if c == ',' {
            let _ = self.cursor.eat();
            self.push(Token::Comma);
            Ok(())
        } else if c == '=' {
            let _ = self.cursor.eat();
            self.push(Token::Equal);
            Ok(())
        } else if c == ':' {
            let _ = self.cursor.eat();
            self.push(Token::Colon);
            Ok(())
        } else if c == '.' {
            let _ = self.cursor.eat();
            self.push(Token::Dot);
            Ok(())
        } else if c.is_whitespace() {
            let _ = self.cursor.eat();
            Ok(())
        } else {
            Err(LexError { kind: LexErrorKind::UnexpectedCharacter, at: self.cursor.index() })
        }
    }

    /// Reads the rest of the text. The tokens read are added to those read
    /// before, up to the end of the text or to the first error.
    pub fn load(&mut self) -> (r: Result<&Vec<Token>, LexError>)
        ensures
            final(self).chars() == old(self).chars(),
            final(self).tokens() == old(self).tokens() + lex_from(
                old(self).chars(),
                old(self).position(),
            ).tokens,
            final(self).position() == lex_from(old(self).chars(), old(self).position()).end,
            match r {
                Ok(tokens) => lex_from(old(self).chars(), old(self).position()).error is None
                    && token_views(tokens@) == final(self).tokens(),
                Err(e) => lex_from(old(self).chars(), old(self).position()).error == Some(e.kind)
                    && e.at == final(self).position(),
            },
    {
        let ghost cs = self.chars();
        let ghost start = self.position();
        let ghost before = self.tokens();
        loop
            invariant_except_break
                before + lex_from(cs, start).tokens == self.tokens() + lex_from(
                    cs,
                    self.position(),
                ).tokens,
                lex_from(cs, start).error == lex_from(cs, self.position()).error,
                lex_from(cs, start).end == lex_from(cs, self.position()).end,
            invariant
                self.chars() == cs,
                cs == old(self).chars(),
                start == old(self).position(),
                before == old(self).tokens(),
            ensures
                before + lex_from(cs, start).tokens == self.tokens(),
                lex_from(cs, start).error is None,
                lex_from(cs, start).end == self.position(),
            decreases cs.len() - self.position(),
        {
            let ghost here = self.position();
            let ghost had = self.tokens();
            if self.cursor.peek(None).is_none() {
                break ;
            }
            proof {
                lemma_step(cs, here);
                lemma_tokens_after(had, step(cs, here).token, lex_from(cs, step(cs, here).next));
            }
            match self.next() {
                Ok(()) => {},
                Err(e) => {
                    return Err(e);
                },
            }
        }
        Ok(&self.tokens)
    }

    /// A lexer in front of the first character of the text.
    pub fn new(src: &str) -> (l: Self)
        ensures
            l.chars() == src@,
            l.position() == 0,
            l.tokens() == Seq::<TokenView>::empty(),
    {
        let tokens: Vec<Token> = Vec::new();
        Lexer { cursor: Cursor::new(characters(src)), tokens }
    }
}

} // verus!
