//! The grammar of the surface language, as functions from a list of tokens
//! and a position in it to what is read there and the position after it.
//!
//! Reading is by recursive descent with at most two tokens of lookahead.
//! The first construct that cannot be read ends the reading: there is no
//! recovery. No function ever moves backwards; where one compares a position
//! with an earlier one before going on, it is to make that evident, and the
//! comparison always holds (see `lemma_statements` and the lemmas beside
//! it).

use crate::frontend::ast::{ExpressionView, StatementView};
use crate::frontend::token::{LiteralView, TokenView};
use vstd::prelude::*;

verus! {

/// What was expected where reading stopped.
#[derive(Debug, Clone, Copy, PartialEq, Eq)]
pub enum ParseErrorKind {
    /// A value or a name was expected.
    ExpectedExpression,
    /// `=` was expected after the target of a declaration.
    ExpectedEqual,
    /// `)` was expected.
    ExpectedRParen,
    /// `{` was expected.
    ExpectedLScope,
    /// `}` was expected.
    ExpectedRScope,
    /// The token cannot begin what is read there.
    UnexpectedToken,
}

/// A syntax error: what was expected, and the index of the token that stands
/// there instead (the number of tokens, at the end of the input).
#[derive(Debug, Clone, Copy, PartialEq, Eq)]
pub struct ParseError {
    pub kind: ParseErrorKind,
    pub at: usize,
}

/// The result of reading at a position: a value and the position after it,
/// or a failure at a position.
pub ghost enum Parsed<T> {
    Done { value: T, next: nat },
    Failed { kind: ParseErrorKind, at: nat },
}

/// The token at a position, if there is one.
pub open spec fn token_at(ts: Seq<TokenView>, pos: nat) -> Option<TokenView> {
    if pos < ts.len() {
        Some(ts[pos as int])
    } else {
        None
    }
}

/// How many tokens stand at and after a position.
pub open spec fn left(ts: Seq<TokenView>, pos: nat) -> nat {
    if pos <= ts.len() {
        (ts.len() - pos) as nat
    } else {
        0
    }
}

/// `p` with `first` put in front of the values read.
pub open spec fn prepend<T>(first: Seq<T>, p: Parsed<Seq<T>>) -> Parsed<Seq<T>> {
    match p {
        Parsed::Done { value, next } => Parsed::Done { value: first + value, next },
        Parsed::Failed { kind, at } => Parsed::Failed { kind, at },
    }
}

/// Putting `first` and then one more value in front is putting in front
/// `first` with that value at its end.
pub proof fn lemma_prepend_push<T>(first: Seq<T>, value: T, p: Parsed<Seq<T>>)
    ensures
        prepend(first, prepend(seq![value], p)) == prepend(first.push(value), p),
{
    match p {
        Parsed::Done { value: rest, next } => {
            assert(first + (seq![value] + rest) =~= first.push(value) + rest);
        },
        _ => {},
    }
}

/// Putting nothing in front changes nothing.
pub proof fn lemma_prepend_nothing<T>(p: Parsed<Seq<T>>)
    ensures
        prepend(Seq::empty(), p) == p,
{
}

/// Putting `first` in front of a reading that found nothing more leaves
/// `first`.
pub proof fn lemma_prepend_last<T>(first: Seq<T>, next: nat)
    ensures
        prepend(first, Parsed::Done { value: Seq::empty(), next }) == (Parsed::Done {
            value: first,
            next,
        }),
{
}

/// Putting `first` in front of a reading that found one value leaves
/// `first` with that value at its end.
pub proof fn lemma_prepend_one<T>(first: Seq<T>, value: T, next: nat)
    ensures
        prepend(first, Parsed::Done { value: seq![value], next }) == (Parsed::Done {
            value: first.push(value),
            next,
        }),
{
    assert(first + seq![value] =~= first.push(value));
}

/// The expression that a literal token stands for.
pub open spec fn literal_expression(l: LiteralView) -> ExpressionView {
    match l {
        LiteralView::Char(c) => ExpressionView::Char(c),
        LiteralView::Identifier(name) => ExpressionView::Identifier(name),
        LiteralView::Number(digits) => ExpressionView::Number(digits),
        LiteralView::String(s) => ExpressionView::String(s),
        LiteralView::Bool(b) => ExpressionView::Bool(b),
    }
}

/// What `base.member` or `base:member` stands for. Where the member is a
/// call, the call is made on the member of the base: a method call for a
/// colon, a function call for a dot. Any other member is plain access,
/// after a colon too.
pub open spec fn member_access(base: ExpressionView, member: ExpressionView, colon: bool) -> ExpressionView {
    match member {
        ExpressionView::FunctionCall { ident, args } => if colon {
            ExpressionView::MethodCall {
                ident: Box::new(ExpressionView::Indexing(Box::new(base), ident)),
                args,
            }
        } else {
            ExpressionView::FunctionCall {
                ident: Box::new(ExpressionView::Indexing(Box::new(base), ident)),
                args,
            }
        },
        _ => ExpressionView::Indexing(Box::new(base), Box::new(member)),
    }
}

/// Whether a declaration makes a method of a class: its value is a function.
pub open spec fn is_method(s: StatementView) -> bool {
    s matches StatementView::VariableDeclaration { value, .. } && value is Function
}

/// The members that are not methods, in their order.
pub open spec fn properties_of(ms: Seq<StatementView>) -> Seq<StatementView>
    decreases ms.len(),
{
    if ms.len() == 0 {
        Seq::empty()
    } else if is_method(ms.last()) {
        properties_of(ms.drop_last())
    } else {
        properties_of(ms.drop_last()).push(ms.last())
    }
}

/// The members that are methods, in their order.
pub open spec fn methods_of(ms: Seq<StatementView>) -> Seq<StatementView>
    decreases ms.len(),
{
    if ms.len() == 0 {
        Seq::empty()
    } else if is_method(ms.last()) {
        methods_of(ms.drop_last()).push(ms.last())
    } else {
        methods_of(ms.drop_last())
    }
}

/// A parameter: a name and, after a colon, its type, which is a single
/// expression. Nothing is read where no name stands. A colon with no
/// expression after it is read, and declares no type.
#[verifier::opaque]
pub open spec fn parameter(ts: Seq<TokenView>, pos: nat) -> Parsed<Option<ExpressionView>>
    decreases left(ts, pos), 0nat,
{
    match token_at(ts, pos) {
        Some(TokenView::Identifier(name)) => if token_at(ts, pos + 1) == Some(TokenView::Colon) {
            match single_expression(ts, pos + 2) {
                Parsed::Done { value, next } => Parsed::Done {
                    value: Some(
                        ExpressionView::Parameter {
                            ident: Box::new(ExpressionView::Identifier(name)),
                            expected_type: match value {
                                Some(t) => Some(Box::new(t)),
                                None => None,
                            },
                        },
                    ),
                    next,
                },
                Parsed::Failed { kind, at } => Parsed::Failed { kind, at },
            }
        } else {
            Parsed::Done {
                value: Some(
                    ExpressionView::Parameter {
                        ident: Box::new(ExpressionView::Identifier(name)),
                        expected_type: None,
                    },
                ),
                next: pos + 1,
            }
        },
        _ => Parsed::Done { value: None, next: pos },
    }
}

/// Parameters with a comma after each but the last (one after the last is
/// read too), up to where no parameter stands.
#[verifier::opaque]
pub open spec fn parameters(ts: Seq<TokenView>, pos: nat) -> Parsed<Seq<ExpressionView>>
    decreases left(ts, pos), 1nat,
{
    match parameter(ts, pos) {
        Parsed::Done { value: Some(p), next } => if next >= pos && token_at(ts, next) == Some(
            TokenView::Comma,
        ) {
            prepend(seq![p], parameters(ts, next + 1))
        } else {
            Parsed::Done { value: seq![p], next }
        },
        Parsed::Done { value: None, next } => Parsed::Done { value: Seq::empty(), next },
        Parsed::Failed { kind, at } => Parsed::Failed { kind, at },
    }
}

/// What follows the `(` of a function: parameters, `)`, `{`, statements
/// and `}`.
#[verifier::opaque]
pub open spec fn function_rest(ts: Seq<TokenView>, pos: nat) -> Parsed<ExpressionView>
    decreases left(ts, pos), 2nat,
{
    match parameters(ts, pos) {
        Parsed::Done { value: params, next } => if next < pos {
            Parsed::Failed { kind: ParseErrorKind::UnexpectedToken, at: next }
        } else if token_at(ts, next) != Some(TokenView::RParen) {
            Parsed::Failed { kind: ParseErrorKind::ExpectedRParen, at: next }
        } else if token_at(ts, next + 1) != Some(TokenView::LScope) {
            Parsed::Failed { kind: ParseErrorKind::ExpectedLScope, at: next + 1 }
        } else {
            match statements(ts, next + 2) {
                Parsed::Done { value: body, next: end } => if token_at(ts, end) != Some(
                    TokenView::RScope,
                ) {
                    Parsed::Failed { kind: ParseErrorKind::ExpectedRScope, at: end }
                } else {
                    Parsed::Done {
                        value: ExpressionView::Function {
                            params,
                            stmt: Box::new(StatementView::Scope(body)),
                        },
                        next: end + 1,
                    }
                },
                Parsed::Failed { kind, at } => Parsed::Failed { kind, at },
            }
        },
        Parsed::Failed { kind, at } => Parsed::Failed { kind, at },
    }
}

/// A function value, which is written with a `)` after its body:
/// `(a, b) { ... })`.
#[verifier::opaque]
pub open spec fn anonymous_function(ts: Seq<TokenView>, pos: nat) -> Parsed<ExpressionView>
    decreases left(ts, pos), 0nat,
{
    if token_at(ts, pos) != Some(TokenView::LParen) {
        Parsed::Failed { kind: ParseErrorKind::UnexpectedToken, at: pos }
    } else {
        match function_rest(ts, pos + 1) {
            Parsed::Done { value, next } => if token_at(ts, next) != Some(TokenView::RParen) {
                Parsed::Failed { kind: ParseErrorKind::ExpectedRParen, at: next }
            } else {
                Parsed::Done { value, next: next + 1 }
            },
            Parsed::Failed { kind, at } => Parsed::Failed { kind, at },
        }
    }
}

/// The arguments of a call, with a comma after each but the last (one after
/// the last is read too), up to a `)` or the end of the input.
#[verifier::opaque]
pub open spec fn arguments(ts: Seq<TokenView>, pos: nat) -> Parsed<Seq<ExpressionView>>
    decreases left(ts, pos), 4nat,
{
    match token_at(ts, pos) {
        None => Parsed::Done { value: Seq::empty(), next: pos },
        Some(TokenView::RParen) => Parsed::Done { value: Seq::empty(), next: pos },
        Some(_) => match required_expression(ts, pos) {
            Parsed::Done { value: e, next } => if next >= pos && token_at(ts, next) == Some(
                TokenView::Comma,
            ) {
                prepend(seq![e], arguments(ts, next + 1))
            } else {
                Parsed::Done { value: seq![e], next }
            },
            Parsed::Failed { kind, at } => Parsed::Failed { kind, at },
        },
    }
}

/// An expression without a connective at its top: a function value, a
/// literal, or a name. A name with a dot or a colon after it takes a whole
/// expression as its member; a name with a `(` after it is a call. Nothing
/// is read where no expression begins.
#[verifier::opaque]
pub open spec fn single_expression(ts: Seq<TokenView>, pos: nat) -> Parsed<Option<ExpressionView>>
    decreases left(ts, pos), 1nat,
{
    match token_at(ts, pos) {
        Some(TokenView::LParen) => match anonymous_function(ts, pos) {
            Parsed::Done { value, next } => Parsed::Done { value: Some(value), next },
            Parsed::Failed { kind, at } => Parsed::Failed { kind, at },
        },
        Some(TokenView::Identifier(name)) => {
            let after = token_at(ts, pos + 1);
            if after == Some(TokenView::Dot) || after == Some(TokenView::Colon) {
                match required_expression(ts, pos + 2) {
                    Parsed::Done { value: member, next } => Parsed::Done {
                        value: Some(
                            member_access(
                                ExpressionView::Identifier(name),
                                member,
                                after == Some(TokenView::Colon),
                            ),
                        ),
                        next,
                    },
                    Parsed::Failed { kind, at } => Parsed::Failed { kind, at },
                }
            } else if after == Some(TokenView::LParen) {
                match arguments(ts, pos + 2) {
                    Parsed::Done { value: args, next } => if token_at(ts, next) != Some(
                        TokenView::RParen,
                    ) {
                        Parsed::Failed { kind: ParseErrorKind::ExpectedRParen, at: next }
                    } else {
                        Parsed::Done {
                            value: Some(
                                ExpressionView::FunctionCall {
                                    ident: Box::new(ExpressionView::Identifier(name)),
                                    args,
                                },
                            ),
                            next: next + 1,
                        }
                    },
                    Parsed::Failed { kind, at } => Parsed::Failed { kind, at },
                }
            } else {
                Parsed::Done { value: Some(ExpressionView::Identifier(name)), next: pos + 1 }
            }
        },
        Some(TokenView::Literal(l)) => Parsed::Done {
            value: Some(literal_expression(l)),
            next: pos + 1,
        },
        _ => Parsed::Done { value: None, next: pos },
    }
}

/// An expression: a single expression and, if `and` or `or` follows it, a
/// whole expression as the right operand. So connectives group to the
/// right, and neither binds tighter than the other.
#[verifier::opaque]
pub open spec fn expression(ts: Seq<TokenView>, pos: nat) -> Parsed<Option<ExpressionView>>
    decreases left(ts, pos), 2nat,
{
    match single_expression(ts, pos) {
        Parsed::Done { value: Some(l), next } => {
            let after = token_at(ts, next);
            if next >= pos && (after == Some(TokenView::And) || after == Some(TokenView::Or)) {
                match required_expression(ts, next + 1) {
                    Parsed::Done { value: r, next: end } => Parsed::Done {
                        value: Some(
                            if after == Some(TokenView::And) {
                                ExpressionView::And(Box::new(l), Box::new(r))
                            } else {
                                ExpressionView::Or(Box::new(l), Box::new(r))
                            },
                        ),
                        next: end,
                    },
                    Parsed::Failed { kind, at } => Parsed::Failed { kind, at },
                }
            } else {
                Parsed::Done { value: Some(l), next }
            }
        },
        Parsed::Done { value: None, next } => Parsed::Done { value: None, next },
        Parsed::Failed { kind, at } => Parsed::Failed { kind, at },
    }
}

/// An expression that must be there.
#[verifier::opaque]
pub open spec fn required_expression(ts: Seq<TokenView>, pos: nat) -> Parsed<ExpressionView>
    decreases left(ts, pos), 3nat,
{
    match expression(ts, pos) {
        Parsed::Done { value: Some(e), next } => Parsed::Done { value: e, next },
        Parsed::Done { value: None, next } => Parsed::Failed {
            kind: ParseErrorKind::ExpectedExpression,
            at: next,
        },
        Parsed::Failed { kind, at } => Parsed::Failed { kind, at },
    }
}

/// What stands after `let`, and what a member of a class is: a target, `=`
/// and a value. A `(` after the `=` begins a function, which here has no
/// `)` after its body.
#[verifier::opaque]
pub open spec fn variable(ts: Seq<TokenView>, pos: nat) -> Parsed<StatementView>
    decreases left(ts, pos), 4nat,
{
    match required_expression(ts, pos) {
        Parsed::Done { value: ident, next } => if next < pos {
            Parsed::Failed { kind: ParseErrorKind::UnexpectedToken, at: next }
        } else if token_at(ts, next) != Some(TokenView::Equal) {
            Parsed::Failed { kind: ParseErrorKind::ExpectedEqual, at: next }
        } else if token_at(ts, next + 1) == Some(TokenView::LParen) {
            match function_rest(ts, next + 2) {
                Parsed::Done { value, next: end } => Parsed::Done {
                    value: StatementView::VariableDeclaration { ident, value },
                    next: end,
                },
                Parsed::Failed { kind, at } => Parsed::Failed { kind, at },
            }
        } else {
            match required_expression(ts, next + 1) {
                Parsed::Done { value, next: end } => Parsed::Done {
                    value: StatementView::VariableDeclaration { ident, value },
                    next: end,
                },
                Parsed::Failed { kind, at } => Parsed::Failed { kind, at },
            }
        },
        Parsed::Failed { kind, at } => Parsed::Failed { kind, at },
    }
}

/// What stands after `if`: a condition, `{`, statements and `}`.
#[verifier::opaque]
pub open spec fn if_statement(ts: Seq<TokenView>, pos: nat) -> Parsed<StatementView>
    decreases left(ts, pos), 4nat,
{
    match required_expression(ts, pos) {
        Parsed::Done { value: expr, next } => if next < pos {
            Parsed::Failed { kind: ParseErrorKind::UnexpectedToken, at: next }
        } else if token_at(ts, next) != Some(TokenView::LScope) {
            Parsed::Failed { kind: ParseErrorKind::ExpectedLScope, at: next }
        } else {
            match statements(ts, next + 1) {
                Parsed::Done { value: body, next: end } => if token_at(ts, end) != Some(
                    TokenView::RScope,
                ) {
                    Parsed::Failed { kind: ParseErrorKind::ExpectedRScope, at: end }
                } else {
                    Parsed::Done {
                        value: StatementView::If {
                            expr,
                            body: Box::new(StatementView::Scope(body)),
                        },
                        next: end + 1,
                    }
                },
                Parsed::Failed { kind, at } => Parsed::Failed { kind, at },
            }
        },
        Parsed::Failed { kind, at } => Parsed::Failed { kind, at },
    }
}

/// The members of a class, up to a `}` or the end of the input.
#[verifier::opaque]
pub open spec fn members(ts: Seq<TokenView>, pos: nat) -> Parsed<Seq<StatementView>>
    decreases left(ts, pos), 5nat,
{
    match token_at(ts, pos) {
        None => Parsed::Done { value: Seq::empty(), next: pos },
        Some(TokenView::RScope) => Parsed::Done { value: Seq::empty(), next: pos },
        Some(_) => match variable(ts, pos) {
            Parsed::Done { value, next } => if pos < next <= ts.len() {
                prepend(seq![value], members(ts, next))
            } else {
                Parsed::Failed { kind: ParseErrorKind::UnexpectedToken, at: next }
            },
            Parsed::Failed { kind, at } => Parsed::Failed { kind, at },
        },
    }
}

/// The body of a class: `{`, members and `}`. The members whose value is a
/// function are its methods, the others its properties, each in the order
/// in which they were written.
#[verifier::opaque]
pub open spec fn class_body(ts: Seq<TokenView>, pos: nat) -> Parsed<ExpressionView>
    decreases left(ts, pos), 0nat,
{
    if token_at(ts, pos) != Some(TokenView::LScope) {
        Parsed::Failed { kind: ParseErrorKind::ExpectedLScope, at: pos }
    } else {
        match members(ts, pos + 1) {
            Parsed::Done { value, next } => if token_at(ts, next) != Some(TokenView::RScope) {
                Parsed::Failed { kind: ParseErrorKind::ExpectedRScope, at: next }
            } else {
                Parsed::Done {
                    value: ExpressionView::ClassBody {
                        properties: properties_of(value),
                        methods: methods_of(value),
                    },
                    next: next + 1,
                }
            },
            Parsed::Failed { kind, at } => Parsed::Failed { kind, at },
        }
    }
}

/// What stands after `class`: the name of the class and its body.
#[verifier::opaque]
pub open spec fn class(ts: Seq<TokenView>, pos: nat) -> Parsed<StatementView>
    decreases left(ts, pos), 4nat,
{
    match required_expression(ts, pos) {
        Parsed::Done { value: ident, next } => if next < pos {
            Parsed::Failed { kind: ParseErrorKind::UnexpectedToken, at: next }
        } else {
            match class_body(ts, next) {
                Parsed::Done { value: body, next: end } => Parsed::Done {
                    value: StatementView::ClassConstructor { ident, body },
                    next: end,
                },
                Parsed::Failed { kind, at } => Parsed::Failed { kind, at },
            }
        },
        Parsed::Failed { kind, at } => Parsed::Failed { kind, at },
    }
}

/// A statement that begins with an expression: an assignment if `=`
/// follows the expression, and otherwise the expression alone, which is
/// kept as a declaration of `_`.
#[verifier::opaque]
pub open spec fn expression_statement(ts: Seq<TokenView>, pos: nat) -> Parsed<StatementView>
    decreases left(ts, pos), 4nat,
{
    match required_expression(ts, pos) {
        Parsed::Done { value: first, next } => if next >= pos && token_at(ts, next) == Some(
            TokenView::Equal,
        ) {
            match required_expression(ts, next + 1) {
                Parsed::Done { value, next: end } => Parsed::Done {
                    value: StatementView::VariableAssignment { ident: first, value },
                    next: end,
                },
                Parsed::Failed { kind, at } => Parsed::Failed { kind, at },
            }
        } else {
            Parsed::Done {
                value: StatementView::VariableDeclaration {
                    ident: ExpressionView::Identifier("_"@),
                    value: first,
                },
                next,
            }
        },
        Parsed::Failed { kind, at } => Parsed::Failed { kind, at },
    }
}

/// What stands after `return`: the value, or `nil` where none stands.
#[verifier::opaque]
pub open spec fn return_statement(ts: Seq<TokenView>, pos: nat) -> Parsed<StatementView>
    decreases left(ts, pos), 4nat,
{
    match expression(ts, pos) {
        Parsed::Done { value, next } => Parsed::Done {
            value: StatementView::Return(
                match value {
                    Some(e) => e,
                    None => ExpressionView::Identifier("nil"@),
                },
            ),
            next,
        },
        Parsed::Failed { kind, at } => Parsed::Failed { kind, at },
    }
}

/// One statement. Nothing is read at a `}` and at the end of the input.
#[verifier::opaque]
pub open spec fn statement(ts: Seq<TokenView>, pos: nat) -> Parsed<Option<StatementView>>
    decreases left(ts, pos), 5nat,
{
    match token_at(ts, pos) {
        None => Parsed::Done { value: None, next: pos },
        Some(TokenView::RScope) => Parsed::Done { value: None, next: pos },
        Some(TokenView::LScope) => match statements(ts, pos + 1) {
            Parsed::Done { value, next } => if token_at(ts, next) != Some(TokenView::RScope) {
                Parsed::Failed { kind: ParseErrorKind::ExpectedRScope, at: next }
            } else {
                Parsed::Done { value: Some(StatementView::Scope(value)), next: next + 1 }
            },
            Parsed::Failed { kind, at } => Parsed::Failed { kind, at },
        },
        Some(TokenView::Luau(code)) => Parsed::Done {
            value: Some(StatementView::Luau(code)),
            next: pos + 1,
        },
        Some(TokenView::Identifier(name)) => present(
            if name == "let"@ {
                variable(ts, pos + 1)
            } else if name == "class"@ {
                class(ts, pos + 1)
            } else if name == "if"@ {
                if_statement(ts, pos + 1)
            } else if name == "return"@ {
                return_statement(ts, pos + 1)
            } else {
                expression_statement(ts, pos)
            },
        ),
        Some(TokenView::Literal(_)) => present(expression_statement(ts, pos)),
        Some(TokenView::LParen) => present(expression_statement(ts, pos)),
        Some(_) => Parsed::Failed { kind: ParseErrorKind::UnexpectedToken, at: pos },
    }
}

/// `p` with its value marked as present.
pub open spec fn present<T>(p: Parsed<T>) -> Parsed<Option<T>> {
    match p {
        Parsed::Done { value, next } => Parsed::Done { value: Some(value), next },
        Parsed::Failed { kind, at } => Parsed::Failed { kind, at },
    }
}

/// Statements, up to a `}` or the end of the input.
#[verifier::opaque]
pub open spec fn statements(ts: Seq<TokenView>, pos: nat) -> Parsed<Seq<StatementView>>
    decreases left(ts, pos), 6nat,
{
    match statement(ts, pos) {
        Parsed::Done { value: Some(s), next } => if pos < next <= ts.len() {
            prepend(seq![s], statements(ts, next))
        } else {
            Parsed::Failed { kind: ParseErrorKind::UnexpectedToken, at: next }
        },
        Parsed::Done { value: None, next } => Parsed::Done { value: Seq::empty(), next },
        Parsed::Failed { kind, at } => Parsed::Failed { kind, at },
    }
}

/// A whole program: the statements from the start of the input, as one
/// scope. Reading ends at the end of the input or at a `}` that closes
/// nothing.
pub open spec fn program(ts: Seq<TokenView>) -> Result<StatementView, ParseError> {
    match statements(ts, 0) {
        Parsed::Done { value, .. } => Ok(StatementView::Scope(value)),
        Parsed::Failed { kind, at } => Err(ParseError { kind, at: at as usize }),
    }
}

/// Whether a reading from `pos` stays inside the input and does not move
/// backwards.
pub open spec fn forward<T>(ts: Seq<TokenView>, pos: nat, p: Parsed<T>) -> bool {
    match p {
        Parsed::Done { next, .. } => pos <= next <= ts.len(),
        Parsed::Failed { at, .. } => pos <= at <= ts.len(),
    }
}

/// Whether a reading from `pos` stays inside the input and, where it
/// succeeds, takes at least one token.
pub open spec fn advances<T>(ts: Seq<TokenView>, pos: nat, p: Parsed<T>) -> bool {
    match p {
        Parsed::Done { next, .. } => pos < next <= ts.len(),
        Parsed::Failed { at, .. } => pos <= at <= ts.len(),
    }
}

/// Whether a reading from `pos` stays inside the input and, where it finds
/// something, takes at least one token.
pub open spec fn advances_if_some<T>(ts: Seq<TokenView>, pos: nat, p: Parsed<Option<T>>) -> bool {
    match p {
        Parsed::Done { value: Some(_), next } => pos < next <= ts.len(),
        Parsed::Done { value: None, next } => next == pos,
        Parsed::Failed { at, .. } => pos <= at <= ts.len(),
    }
}

/// Reading a parameter stays inside the input, and takes at least one token
/// where it finds a parameter.
#[verifier::spinoff_prover]
pub proof fn lemma_parameter(ts: Seq<TokenView>, pos: nat)
    requires
        pos <= ts.len(),
    ensures
        advances_if_some(ts, pos, parameter(ts, pos)),
    decreases ts.len() - pos, 0nat,
{
    reveal(parameter);
    reveal(single_expression);
    if token_at(ts, pos) is Some && token_at(ts, pos)->0 is Identifier && token_at(ts, pos + 1)
        == Some(TokenView::Colon) {
        lemma_single_expression(ts, pos + 2);
    }
}

/// Reading parameters stays inside the input and never moves backwards.
#[verifier::spinoff_prover]
pub proof fn lemma_parameters(ts: Seq<TokenView>, pos: nat)
    requires
        pos <= ts.len(),
    ensures
        forward(ts, pos, parameters(ts, pos)),
    decreases ts.len() - pos, 1nat,
{
    reveal(parameters);
    reveal(parameter);
    lemma_parameter(ts, pos);
    match parameter(ts, pos) {
        Parsed::Done { value: Some(p), next } => {
            if token_at(ts, next) == Some(TokenView::Comma) {
                lemma_parameters(ts, next + 1);
            }
        },
        _ => {},
    }
}

/// Reading the rest of a function stays inside the input, and takes at least
/// one token where it succeeds.
#[verifier::spinoff_prover]
pub proof fn lemma_function_rest(ts: Seq<TokenView>, pos: nat)
    requires
        pos <= ts.len(),
    ensures
        advances(ts, pos, function_rest(ts, pos)),
    decreases ts.len() - pos, 2nat,
{
    reveal(function_rest);
    reveal(parameters);
    reveal(statements);
    lemma_parameters(ts, pos);
    match parameters(ts, pos) {
        Parsed::Done { value: params, next } => {
            if token_at(ts, next) == Some(TokenView::RParen) && token_at(ts, next + 1) == Some(
                TokenView::LScope,
            ) {
                lemma_statements(ts, next + 2);
            }
        },
        _ => {},
    }
}

/// Reading a function value stays inside the input, and takes at least one
/// token where it succeeds.
#[verifier::spinoff_prover]
pub proof fn lemma_anonymous_function(ts: Seq<TokenView>, pos: nat)
    requires
        pos <= ts.len(),
    ensures
        advances(ts, pos, anonymous_function(ts, pos)),
    decreases ts.len() - pos, 0nat,
{
    reveal(anonymous_function);
    reveal(function_rest);
    if token_at(ts, pos) == Some(TokenView::LParen) {
        lemma_function_rest(ts, pos + 1);
    }
}

/// Reading arguments stays inside the input and never moves backwards.
#[verifier::spinoff_prover]
pub proof fn lemma_arguments(ts: Seq<TokenView>, pos: nat)
    requires
        pos <= ts.len(),
    ensures
        forward(ts, pos, arguments(ts, pos)),
    decreases ts.len() - pos, 4nat,
{
    reveal(arguments);
    reveal(required_expression);
    if token_at(ts, pos) is Some && token_at(ts, pos) != Some(TokenView::RParen) {
        lemma_required_expression(ts, pos);
        match required_expression(ts, pos) {
            Parsed::Done { value: e, next } => {
                if token_at(ts, next) == Some(TokenView::Comma) {
                    lemma_arguments(ts, next + 1);
                }
            },
            _ => {},
        }
    }
}

/// Reading a single expression stays inside the input, and takes at least
/// one token where it finds an expression.
#[verifier::spinoff_prover]
pub proof fn lemma_single_expression(ts: Seq<TokenView>, pos: nat)
    requires
        pos <= ts.len(),
    ensures
        advances_if_some(ts, pos, single_expression(ts, pos)),
    decreases ts.len() - pos, 1nat,
{
    reveal(single_expression);
    reveal(anonymous_function);
    reveal(required_expression);
    reveal(arguments);
    match token_at(ts, pos) {
        Some(TokenView::LParen) => {
            lemma_anonymous_function(ts, pos);
        },
        Some(TokenView::Identifier(name)) => {
            let after = token_at(ts, pos + 1);
            if after == Some(TokenView::Dot) || after == Some(TokenView::Colon) {
                lemma_required_expression(ts, pos + 2);
            } else if after == Some(TokenView::LParen) {
                lemma_arguments(ts, pos + 2);
            }
        },
        _ => {},
    }
}

/// Reading an expression stays inside the input, and takes at least one token
/// where it finds an expression.
#[verifier::spinoff_prover]
pub proof fn lemma_expression(ts: Seq<TokenView>, pos: nat)
    requires
        pos <= ts.len(),
    ensures
        advances_if_some(ts, pos, expression(ts, pos)),
    decreases ts.len() - pos, 2nat,
{
    reveal(expression);
    reveal(single_expression);
    reveal(required_expression);
    lemma_single_expression(ts, pos);
    match single_expression(ts, pos) {
        Parsed::Done { value: Some(l), next } => {
            let after = token_at(ts, next);
            if after == Some(TokenView::And) || after == Some(TokenView::Or) {
                lemma_required_expression(ts, next + 1);
            }
        },
        _ => {},
    }
}

/// Reading an expression that must be there stays inside the input, and
/// takes at least one token where it succeeds.
#[verifier::spinoff_prover]
pub proof fn lemma_required_expression(ts: Seq<TokenView>, pos: nat)
    requires
        pos <= ts.len(),
    ensures
        advances(ts, pos, required_expression(ts, pos)),
    decreases ts.len() - pos, 3nat,
{
    reveal(required_expression);
    reveal(expression);
    lemma_expression(ts, pos);
}

/// Reading a declaration stays inside the input, and takes at least one token
/// where it succeeds.
#[verifier::spinoff_prover]
pub proof fn lemma_variable(ts: Seq<TokenView>, pos: nat)
    requires
        pos <= ts.len(),
    ensures
        advances(ts, pos, variable(ts, pos)),
    decreases ts.len() - pos, 4nat,
{
    reveal(variable);
    reveal(required_expression);
    reveal(function_rest);
    lemma_required_expression(ts, pos);
    match required_expression(ts, pos) {
        Parsed::Done { value: ident, next } => {
            if token_at(ts, next) == Some(TokenView::Equal) {
                if token_at(ts, next + 1) == Some(TokenView::LParen) {
                    lemma_function_rest(ts, next + 2);
                } else {
                    lemma_required_expression(ts, next + 1);
                }
            }
        },
        _ => {},
    }
}

/// Reading a conditional stays inside the input, and takes at least one token
/// where it succeeds.
#[verifier::spinoff_prover]
pub proof fn lemma_if_statement(ts: Seq<TokenView>, pos: nat)
    requires
        pos <= ts.len(),
    ensures
        advances(ts, pos, if_statement(ts, pos)),
    decreases ts.len() - pos, 4nat,
{
    reveal(if_statement);
    reveal(required_expression);
    reveal(statements);
    lemma_required_expression(ts, pos);
    match required_expression(ts, pos) {
        Parsed::Done { value: expr, next } => {
            if token_at(ts, next) == Some(TokenView::LScope) {
                lemma_statements(ts, next + 1);
            }
        },
        _ => {},
    }
}

/// Reading the members of a class stays inside the input and never moves
/// backwards.
#[verifier::spinoff_prover]
pub proof fn lemma_members(ts: Seq<TokenView>, pos: nat)
    requires
        pos <= ts.len(),
    ensures
        forward(ts, pos, members(ts, pos)),
    decreases ts.len() - pos, 5nat,
{
    reveal(members);
    reveal(variable);
    if token_at(ts, pos) is Some && token_at(ts, pos) != Some(TokenView::RScope) {
        lemma_variable(ts, pos);
        match variable(ts, pos) {
            Parsed::Done { value, next } => {
                lemma_members(ts, next);
            },
            _ => {},
        }
    }
}

/// Reading the body of a class stays inside the input, and takes at least one
/// token where it succeeds.
#[verifier::spinoff_prover]
pub proof fn lemma_class_body(ts: Seq<TokenView>, pos: nat)
    requires
        pos <= ts.len(),
    ensures
        advances(ts, pos, class_body(ts, pos)),
    decreases ts.len() - pos, 0nat,
{
    reveal(class_body);
    reveal(members);
    if token_at(ts, pos) == Some(TokenView::LScope) {
        lemma_members(ts, pos + 1);
    }
}

/// Reading a class stays inside the input, and takes at least one token where
/// it succeeds.
#[verifier::spinoff_prover]
pub proof fn lemma_class(ts: Seq<TokenView>, pos: nat)
    requires
        pos <= ts.len(),
    ensures
        advances(ts, pos, class(ts, pos)),
    decreases ts.len() - pos, 4nat,
{
    reveal(class);
    reveal(required_expression);
    reveal(class_body);
    lemma_required_expression(ts, pos);
    match required_expression(ts, pos) {
        Parsed::Done { value: ident, next } => {
            lemma_class_body(ts, next);
        },
        _ => {},
    }
}

/// Reading a statement that begins with an expression stays inside the
/// input, and takes at least one token where it succeeds.
#[verifier::spinoff_prover]
pub proof fn lemma_expression_statement(ts: Seq<TokenView>, pos: nat)
    requires
        pos <= ts.len(),
    ensures
        advances(ts, pos, expression_statement(ts, pos)),
    decreases ts.len() - pos, 4nat,
{
    reveal(expression_statement);
    reveal(required_expression);
    lemma_required_expression(ts, pos);
    match required_expression(ts, pos) {
        Parsed::Done { value: first, next } => {
            if token_at(ts, next) == Some(TokenView::Equal) {
                lemma_required_expression(ts, next + 1);
            }
        },
        _ => {},
    }
}

/// Reading what stands after `return` stays inside the input and never moves
/// backwards.
#[verifier::spinoff_prover]
pub proof fn lemma_return_statement(ts: Seq<TokenView>, pos: nat)
    requires
        pos <= ts.len(),
    ensures
        forward(ts, pos, return_statement(ts, pos)),
    decreases ts.len() - pos, 4nat,
{
    reveal(return_statement);
    reveal(expression);
    lemma_expression(ts, pos);
}

/// Reading a statement stays inside the input, and takes at least one token
/// where it finds a statement.
#[verifier::spinoff_prover]
pub proof fn lemma_statement(ts: Seq<TokenView>, pos: nat)
    requires
        pos <= ts.len(),
    ensures
        advances_if_some(ts, pos, statement(ts, pos)),
    decreases ts.len() - pos, 5nat,
{
    match token_at(ts, pos) {
        Some(TokenView::LScope) => {
            lemma_statements(ts, pos + 1);
            assert(advances_if_some(ts, pos, statement(ts, pos))) by {
                reveal(statement);
                reveal(statements);
            }
        },
        Some(TokenView::Identifier(name)) => {
            if name == "let"@ {
                lemma_variable(ts, pos + 1);
                assert(advances_if_some(ts, pos, statement(ts, pos))) by {
                    reveal(statement);
                    reveal(variable);
                }
            } else if name == "class"@ {
                lemma_class(ts, pos + 1);
                assert(advances_if_some(ts, pos, statement(ts, pos))) by {
                    reveal(statement);
                    reveal(class);
                }
            } else if name == "if"@ {
                lemma_if_statement(ts, pos + 1);
                assert(advances_if_some(ts, pos, statement(ts, pos))) by {
                    reveal(statement);
                    reveal(if_statement);
                }
            } else if name == "return"@ {
                lemma_return_statement(ts, pos + 1);
                assert(advances_if_some(ts, pos, statement(ts, pos))) by {
                    reveal(statement);
                    reveal(return_statement);
                }
            } else {
                lemma_expression_statement(ts, pos);
                assert(advances_if_some(ts, pos, statement(ts, pos))) by {
                    reveal(statement);
                    reveal(expression_statement);
                }
            }
        },
        Some(TokenView::Literal(_)) => {
            lemma_expression_statement(ts, pos);
            assert(advances_if_some(ts, pos, statement(ts, pos))) by {
                reveal(statement);
                reveal(expression_statement);
            }
        },
        Some(TokenView::LParen) => {
            lemma_expression_statement(ts, pos);
            assert(advances_if_some(ts, pos, statement(ts, pos))) by {
                reveal(statement);
                reveal(expression_statement);
            }
        },
        _ => {
            assert(advances_if_some(ts, pos, statement(ts, pos))) by {
                reveal(statement);
            }
        },
    }
}

/// Reading statements stays inside the input and never moves backwards.
#[verifier::spinoff_prover]
pub proof fn lemma_statements(ts: Seq<TokenView>, pos: nat)
    requires
        pos <= ts.len(),
    ensures
        forward(ts, pos, statements(ts, pos)),
    decreases ts.len() - pos, 6nat,
{
    reveal(statements);
    reveal(statement);
    lemma_statement(ts, pos);
    match statement(ts, pos) {
        Parsed::Done { value: Some(s), next } => {
            lemma_statements(ts, next);
        },
        _ => {},
    }
}

/// A program has as many statements as its input holds, one after the
/// other. If the tokens from `cuts[0]` on are cut into pieces so that each
/// piece is read as one statement, and no statement can be read after the
/// last piece (the input ends there, or a `}` stands there), then reading
/// statements from `cuts[0]` on gives these statements, in their order:
/// one for each piece, and no other.
#[verifier::spinoff_prover]
pub proof fn law_statement_count(ts: Seq<TokenView>, cuts: Seq<nat>, stmts: Seq<StatementView>)
    requires
        cuts.len() == stmts.len() + 1,
        cuts[0] <= ts.len(),
        forall|i: int|
            0 <= i < stmts.len() ==> #[trigger] statement(ts, cuts[i]) == (Parsed::Done {
                value: Some(stmts[i]),
                next: cuts[i + 1],
            }),
        statement(ts, cuts.last()) == (Parsed::Done::<Option<StatementView>> {
            value: None,
            next: cuts.last(),
        }),
    ensures
        statements(ts, cuts[0]) == (Parsed::Done { value: stmts, next: cuts.last() }),
        cuts[0] == 0 ==> program(ts) == Ok::<StatementView, ParseError>(
            StatementView::Scope(stmts),
        ),
    decreases stmts.len(),
{
    reveal(statements);
    reveal(statement);
    if stmts.len() == 0 {
        assert(stmts =~= Seq::<StatementView>::empty());
    } else {
        lemma_statement(ts, cuts[0]);
        assert(statement(ts, cuts[0]) == (Parsed::Done {
            value: Some(stmts[0]),
            next: cuts[1],
        }));
        let rest_cuts = cuts.subrange(1, cuts.len() as int);
        let rest = stmts.subrange(1, stmts.len() as int);
        assert forall|i: int| 0 <= i < rest.len() implies #[trigger] statement(ts, rest_cuts[i])
            == (Parsed::Done { value: Some(rest[i]), next: rest_cuts[i + 1] }) by {
            assert(statement(ts, cuts[i + 1]) == (Parsed::Done {
                value: Some(stmts[i + 1]),
                next: cuts[i + 1 + 1],
            }));
        }
        law_statement_count(ts, rest_cuts, rest);
        assert(seq![stmts[0]] + rest =~= stmts);
    }
}

/// A connective takes everything that follows it as its right operand: if
/// a single expression is read from `pos`, `and` or `or` stands after it, and
/// an expression is read after that, then the expression read from `pos` is
/// the connective of the two. So `a and b or c` is `a and (b or c)`, and
/// `a or b and c` is `a or (b and c)`.
#[verifier::spinoff_prover]
pub proof fn law_connective_groups_right(
    ts: Seq<TokenView>,
    pos: nat,
    left_operand: ExpressionView,
    next: nat,
    right_operand: ExpressionView,
    end: nat,
)
    requires
        pos <= ts.len(),
        single_expression(ts, pos) == (Parsed::Done { value: Some(left_operand), next }),
        token_at(ts, next) == Some(TokenView::And) || token_at(ts, next) == Some(TokenView::Or),
        expression(ts, next + 1) == (Parsed::Done { value: Some(right_operand), next: end }),
    ensures
        expression(ts, pos) == (Parsed::Done {
            value: Some(
                if token_at(ts, next) == Some(TokenView::And) {
                    ExpressionView::And(Box::new(left_operand), Box::new(right_operand))
                } else {
                    ExpressionView::Or(Box::new(left_operand), Box::new(right_operand))
                },
            ),
            next: end,
        }),
{
    reveal(expression);
    reveal(single_expression);
    reveal(required_expression);
    lemma_single_expression(ts, pos);
}

/// A declaration without a value is an error: where a target and `=` are
/// read and the input ends after the `=`, the declaration fails there, for
/// want of an expression.
#[verifier::spinoff_prover]
pub proof fn law_declaration_needs_value(
    ts: Seq<TokenView>,
    pos: nat,
    target: ExpressionView,
    next: nat,
)
    requires
        pos <= ts.len(),
        required_expression(ts, pos) == (Parsed::Done { value: target, next }),
        token_at(ts, next) == Some(TokenView::Equal),
        next + 1 == ts.len(),
    ensures
        variable(ts, pos) == (Parsed::Failed::<StatementView> {
            kind: ParseErrorKind::ExpectedExpression,
            at: ts.len(),
        }),
{
    reveal(variable);
    reveal(required_expression);
    reveal(expression);
    reveal(single_expression);
    lemma_required_expression(ts, pos);
}

} // verus!
