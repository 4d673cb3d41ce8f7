//! The parser: it reads a list of tokens by recursive descent, one function
//! for each rule of the grammar, and builds the syntax tree.

use crate::cursor::Cursor;
use crate::frontend::ast::{
    expression_views, lemma_expression_views_empty, lemma_expression_views_push,
    lemma_statement_views_empty, lemma_statement_views_push, optional_view, statement_views,
    Expression, ExpressionView, Statement, StatementView,
};
use crate::frontend::grammar::{
    anonymous_function, arguments, class, class_body, expression, expression_statement,
    function_rest, if_statement, is_method, lemma_parameter, lemma_parameters, lemma_prepend_last,
    lemma_prepend_nothing, lemma_prepend_one, lemma_prepend_push, lemma_required_expression,
    lemma_single_expression, lemma_statement, lemma_variable, members, methods_of, parameter,
    parameters, prepend, program, properties_of, required_expression, return_statement,
    single_expression, statement, statements, token_at, variable, ParseError, ParseErrorKind,
    Parsed,
};
use crate::frontend::token::{token_kind, token_views, Literal, Token, TokenView};
use vstd::prelude::*;

verus! {

/// Whether a result `r`, reached with the reader at `end`, is what the
/// grammar reads: the value and the position after it, or the failure and
/// the position at which it arose.
pub open spec fn agrees<V>(p: Parsed<V>, r: Result<V, ParseError>, end: nat) -> bool {
    match p {
        Parsed::Done { value, next } => r == Ok::<V, ParseError>(value) && end == next,
        Parsed::Failed { kind, at } => r matches Err(e) && e.kind == kind && e.at == at && end
            == at,
    }
}

/// The result with the view of its expression, if it has one.
pub open spec fn optional_expression_result(r: Result<Option<Expression>, ParseError>) -> Result<
    Option<ExpressionView>,
    ParseError,
> {
    match r {
        Ok(e) => Ok(optional_view(e)),
        Err(e) => Err(e),
    }
}

/// The result with the view of its expression.
pub open spec fn expression_result(r: Result<Expression, ParseError>) -> Result<
    ExpressionView,
    ParseError,
> {
    match r {
        Ok(e) => Ok(e@),
        Err(e) => Err(e),
    }
}

/// The result with the views of its expressions.
pub open spec fn expressions_result(r: Result<Vec<Expression>, ParseError>) -> Result<
    Seq<ExpressionView>,
    ParseError,
> {
    match r {
        Ok(es) => Ok(expression_views(es@)),
        Err(e) => Err(e),
    }
}

/// The result with the view of its statement.
pub open spec fn statement_result(r: Result<Statement, ParseError>) -> Result<
    StatementView,
    ParseError,
> {
    match r {
        Ok(s) => Ok(s@),
        Err(e) => Err(e),
    }
}

/// The result with the view of its statement, if it has one.
pub open spec fn optional_statement_result(r: Result<Option<Statement>, ParseError>) -> Result<
    Option<StatementView>,
    ParseError,
> {
    match r {
        Ok(Some(s)) => Ok(Some(s@)),
        Ok(None) => Ok(None),
        Err(e) => Err(e),
    }
}

/// The result with the views of the statements of its scope.
pub open spec fn scope_result(r: Result<Statement, ParseError>) -> Result<
    Seq<StatementView>,
    ParseError,
> {
    match r {
        Ok(s) => Ok(s@->Scope_0),
        Err(e) => Err(e),
    }
}

/// Whether a token is one of the punctuation marks, which have no payload.
pub open spec fn is_mark(t: TokenView) -> bool {
    2 <= token_kind(t) <= 11
}

/// Whether the name is the given word.
fn is_word(name: &String, word: &str) -> (b: bool)
    ensures
        b == (name@ == word@),
{
    let word = String::from_str(word);
    *name == word
}

/// A reader of tokens that builds the syntax tree.
pub struct Parser {
    cursor: Cursor<Token>,
}

impl Parser {
    /// The tokens that the parser reads; they never change.
    pub closed spec fn tokens(&self) -> Seq<TokenView> {
        token_views(self.cursor.items())
    }

    /// The index of the next token.
    pub closed spec fn position(&self) -> nat {
        self.cursor.position()
    }

    /// How many tokens are still to be read.
    pub open spec fn remaining(&self) -> int {
        self.tokens().len() - self.position()
    }

    /// A parser in front of the first of the tokens.
    pub fn new(tokens: &[Token]) -> (p: Self)
        ensures
            p.tokens() == token_views(tokens@),
            p.position() == 0,
    {
        let mut items: Vec<Token> = Vec::new();
        let mut i: usize = 0;
        while i < tokens.len()
            invariant
                i <= tokens.len(),
                items@ == tokens@.take(i as int),
            decreases tokens.len() - i,
        {
            items.push(tokens[i].clone());
            i += 1;
        }
        Parser { cursor: Cursor::new(items) }
    }

    /// The token `ahead` places after the next one, if there is one.
    fn token(&self, ahead: usize) -> (r: Option<Token>)
        requires
            ahead <= 1,
        ensures
            self.position() <= self.tokens().len(),
            match r {
                Some(t) => token_at(self.tokens(), (self.position() + ahead) as nat) == Some(t@),
                None => token_at(self.tokens(), (self.position() + ahead) as nat) is None,
            },
    {
        self.cursor.peek(Some(ahead + 1))
    }

    /// Shows that the index of the next token is at most the number of
    /// tokens.
    fn in_bounds(&self)
        ensures
            self.position() <= self.tokens().len(),
    {
        let _ = self.cursor.index();
    }

    /// An error of the given kind at the next token.
    fn error(&self, kind: ParseErrorKind) -> (e: ParseError)
        ensures
            e.kind == kind,
            e.at == self.position(),
            self.position() <= self.tokens().len(),
    {
        ParseError { kind, at: self.cursor.index() }
    }

    /// Steps over the next token.
    fn skip(&mut self)
        requires
            old(self).position() < old(self).tokens().len(),
        ensures
            final(self).tokens() == old(self).tokens(),
            final(self).position() == old(self).position() + 1,
            final(self).position() <= final(self).tokens().len(),
    {
        let _ = self.cursor.eat();
    }

    /// Steps over the next token if it is the mark `expected`, and fails
    /// with `kind` otherwise.
    fn expect(&mut self, expected: Token, kind: ParseErrorKind) -> (r: Result<(), ParseError>)
        requires
            is_mark(expected@),
        ensures
            final(self).tokens() == old(self).tokens(),
            final(self).position() <= final(self).tokens().len(),
            match r {
                Ok(()) => token_at(old(self).tokens(), old(self).position()) == Some(expected@)
                    && final(self).position() == old(self).position() + 1,
                Err(e) => token_at(old(self).tokens(), old(self).position()) != Some(expected@)
                    && final(self).position() == old(self).position() && e.kind == kind && e.at
                    == old(self).position(),
            },
    {
        let at = self.cursor.index();
        match self.cursor.eat_if(expected) {
            Some(_) => Ok(()),
            None => Err(ParseError { kind, at }),
        }
    }

    /// A parameter: a name and, after a colon, its type. `None` where no
    /// name stands.
    #[verifier::spinoff_prover]
    fn parse_parameter(&mut self) -> (r: Result<Option<Expression>, ParseError>)
        ensures
            final(self).tokens() == old(self).tokens(),
            final(self).position() <= final(self).tokens().len(),
            agrees(
                parameter(old(self).tokens(), old(self).position()),
                optional_expression_result(r),
                final(self).position(),
            ),
        decreases old(self).remaining(), 0nat,
    {
        proof {
            reveal(parameter);
            reveal(single_expression);
        }
        let name = match self.token(0) {
            Some(Token::Identifier(name)) => name,
            _ => {
                return Ok(None);
            },
        };
        let colon = matches!(self.token(1), Some(Token::Colon));
        self.skip();
        let ident = Expression::Identifier(name);
        assert(ident@ == ExpressionView::Identifier(name@));
        if colon {
            self.skip();
            let expected_type = match self.parse_single_expression() {
                Ok(t) => t,
                Err(e) => {
                    return Err(e);
                },
            };
            Ok(
                Some(
                    Expression::Parameter {
                        ident: Box::new(ident),
                        expected_type: Box::new(expected_type),
                    },
                ),
            )
        } else {
            Ok(Some(Expression::Parameter { ident: Box::new(ident), expected_type: Box::new(None) }))
        }
    }

    /// Parameters with a comma after each but the last.
    #[verifier::spinoff_prover]
    fn parse_parameters(&mut self) -> (r: Result<Vec<Expression>, ParseError>)
        ensures
            final(self).tokens() == old(self).tokens(),
            final(self).position() <= final(self).tokens().len(),
            agrees(
                parameters(old(self).tokens(), old(self).position()),
                expressions_result(r),
                final(self).position(),
            ),
        decreases old(self).remaining(), 1nat,
    {
        let ghost ts = self.tokens();
        let ghost start = self.position();
        let mut params: Vec<Expression> = Vec::new();
        self.in_bounds();
        proof {
            lemma_expression_views_empty();
            lemma_prepend_nothing(parameters(ts, start));
        }
        loop
            invariant_except_break
                parameters(ts, start) == prepend(
                    expression_views(params@),
                    parameters(ts, self.position()),
                ),
            invariant
                self.tokens() == ts,
                ts == old(self).tokens(),
                start == old(self).position(),
                start <= self.position() <= ts.len(),
            ensures
                parameters(ts, start) == (Parsed::Done {
                    value: expression_views(params@),
                    next: self.position(),
                }),
            decreases ts.len() - self.position(),
        {
            let ghost here = self.position();
            let ghost done = expression_views(params@);
            proof {
                reveal(parameters);
                reveal(parameter);
                lemma_parameter(ts, here);
            }
            match self.parse_parameter() {
                Ok(Some(p)) => {
                    let ghost next = self.position();
                    proof {
                        lemma_expression_views_push(params@, p);
                        lemma_prepend_push(done, p@, parameters(ts, (next + 1) as nat));
                        lemma_prepend_one(done, p@, next);
                    }
                    params.push(p);
                    match self.token(0) {
                        Some(Token::Comma) => {
                            self.skip();
                        },
                        _ => {
                            break ;
                        },
                    }
                },
                Ok(None) => {
                    proof {
                        lemma_prepend_last(done, here);
                    }
                    break ;
                },
                Err(e) => {
                    return Err(e);
                },
            }
        }
        Ok(params)
    }

    /// What follows the `(` of a function: parameters, `)`, `{`, statements
    /// and `}`.
    #[verifier::spinoff_prover]
    fn parse_function_rest(&mut self) -> (r: Result<Expression, ParseError>)
        ensures
            final(self).tokens() == old(self).tokens(),
            final(self).position() <= final(self).tokens().len(),
            agrees(
                function_rest(old(self).tokens(), old(self).position()),
                expression_result(r),
                final(self).position(),
            ),
        decreases old(self).remaining(), 2nat,
    {
        self.in_bounds();
        proof {
            reveal(function_rest);
            reveal(parameters);
            reveal(statements);
            lemma_parameters(self.tokens(), self.position());
        }
        let params = match self.parse_parameters() {
            Ok(params) => params,
            Err(e) => {
                return Err(e);
            },
        };
        match self.expect(Token::RParen, ParseErrorKind::ExpectedRParen) {
            Ok(()) => {},
            Err(e) => {
                return Err(e);
            },
        }
        match self.expect(Token::LScope, ParseErrorKind::ExpectedLScope) {
            Ok(()) => {},
            Err(e) => {
                return Err(e);
            },
        }
        let scope = match self.parse_scope() {
            Ok(scope) => scope,
            Err(e) => {
                return Err(e);
            },
        };
        match self.expect(Token::RScope, ParseErrorKind::ExpectedRScope) {
            Ok(()) => {},
            Err(e) => {
                return Err(e);
            },
        }
        let f = Expression::Function { params, stmt: Box::new(scope) };
        proof {
            assert(f@->Function_params =~= expression_views(params@));
        }
        Ok(f)
    }

    /// A function value: `(`, parameters, `)`, `{`, statements, `}` and `)`.
    #[verifier::spinoff_prover]
    fn parse_anon_fn(&mut self) -> (r: Result<Expression, ParseError>)
        ensures
            final(self).tokens() == old(self).tokens(),
            final(self).position() <= final(self).tokens().len(),
            agrees(
                anonymous_function(old(self).tokens(), old(self).position()),
                expression_result(r),
                final(self).position(),
            ),
        decreases old(self).remaining(), 0nat,
    {
        proof {
            reveal(anonymous_function);
            reveal(function_rest);
        }
        match self.expect(Token::LParen, ParseErrorKind::UnexpectedToken) {
            Ok(()) => {},
            Err(e) => {
                return Err(e);
            },
        }
        let f = match self.parse_function_rest() {
            Ok(f) => f,
            Err(e) => {
                return Err(e);
            },
        };
        match self.expect(Token::RParen, ParseErrorKind::ExpectedRParen) {
            Ok(()) => {},
            Err(e) => {
                return Err(e);
            },
        }
        Ok(f)
    }

    /// The arguments of a call, with a comma after each but the last, up to
    /// a `)` or the end of the input.
    #[verifier::spinoff_prover]
    fn parse_arguments(&mut self) -> (r: Result<Vec<Expression>, ParseError>)
        ensures
            final(self).tokens() == old(self).tokens(),
            final(self).position() <= final(self).tokens().len(),
            agrees(
                arguments(old(self).tokens(), old(self).position()),
                expressions_result(r),
                final(self).position(),
            ),
        decreases old(self).remaining(), 4nat,
    {
        let ghost ts = self.tokens();
        let ghost start = self.position();
        let mut args: Vec<Expression> = Vec::new();
        self.in_bounds();
        proof {
            lemma_expression_views_empty();
            lemma_prepend_nothing(arguments(ts, start));
        }
        loop
            invariant_except_break
                arguments(ts, start) == prepend(
                    expression_views(args@),
                    arguments(ts, self.position()),
                ),
            invariant
                self.tokens() == ts,
                ts == old(self).tokens(),
                start == old(self).position(),
                start <= self.position() <= ts.len(),
            ensures
                arguments(ts, start) == (Parsed::Done {
                    value: expression_views(args@),
                    next: self.position(),
                }),
            decreases ts.len() - self.position(),
        {
            let ghost here = self.position();
            let ghost done = expression_views(args@);
            proof {
                reveal(arguments);
                reveal(required_expression);
                lemma_required_expression(ts, here);
            }
            match self.token(0) {
                None => {
                    proof {
                        lemma_prepend_last(done, here);
                    }
                    break ;
                },
                Some(Token::RParen) => {
                    proof {
                        lemma_prepend_last(done, here);
                    }
                    break ;
                },
                Some(_) => {},
            }
            match self.require_expression() {
                Ok(e) => {
                    let ghost next = self.position();
                    proof {
                        lemma_expression_views_push(args@, e);
                        lemma_prepend_push(done, e@, arguments(ts, (next + 1) as nat));
                        lemma_prepend_one(done, e@, next);
                    }
                    args.push(e);
                    match self.token(0) {
                        Some(Token::Comma) => {
                            self.skip();
                        },
                        _ => {
                            break ;
                        },
                    }
                },
                Err(e) => {
                    return Err(e);
                },
            }
        }
        Ok(args)
    }

    /// An expression without a connective at its top, or `None` where no
    /// expression begins.
    #[verifier::spinoff_prover]
    fn parse_single_expression(&mut self) -> (r: Result<Option<Expression>, ParseError>)
        ensures
            final(self).tokens() == old(self).tokens(),
            final(self).position() <= final(self).tokens().len(),
            agrees(
                single_expression(old(self).tokens(), old(self).position()),
                optional_expression_result(r),
                final(self).position(),
            ),
        decreases old(self).remaining(), 1nat,
    {
        proof {
            reveal(single_expression);
            reveal(anonymous_function);
            reveal(required_expression);
            reveal(arguments);
        }
        match self.token(0) {
            Some(Token::LParen) => match self.parse_anon_fn() {
                Ok(f) => Ok(Some(f)),
                Err(e) => Err(e),
            },
            Some(Token::Identifier(name)) => {
                let after = self.token(1);
                let dot = matches!(after, Some(Token::Dot));
                let colon = matches!(after, Some(Token::Colon));
                let call = matches!(after, Some(Token::LParen));
                let identifier = Expression::Identifier(name);
                self.skip();
                if dot || colon {
                    self.skip();
                    let indexed = match self.require_expression() {
                        Ok(indexed) => indexed,
                        Err(e) => {
                            return Err(e);
                        },
                    };
                    let whole = match indexed {
                        Expression::FunctionCall { ident, args } => {
                            let ghost callee_view = ExpressionView::Indexing(
                                Box::new(identifier@),
                                Box::new(ident@),
                            );
                            let callee = Expression::Indexing(Box::new(identifier), ident);
                            assert(callee@ == callee_view);
                            if colon {
                                Expression::MethodCall { ident: Box::new(callee), args }
                            } else {
                                Expression::FunctionCall { ident: Box::new(callee), args }
                            }
                        },
                        other => Expression::Indexing(Box::new(identifier), Box::new(other)),
                    };
                    Ok(Some(whole))
                } else if call {
                    self.skip();
                    let args = match self.parse_arguments() {
                        Ok(args) => args,
                        Err(e) => {
                            return Err(e);
                        },
                    };
                    match self.expect(Token::RParen, ParseErrorKind::ExpectedRParen) {
                        Ok(()) => {},
                        Err(e) => {
                            return Err(e);
                        },
                    }
                    let whole = Expression::FunctionCall { ident: Box::new(identifier), args };
                    proof {
                        assert(whole@->FunctionCall_args =~= expression_views(args@));
                    }
                    Ok(Some(whole))
                } else {
                    Ok(Some(identifier))
                }
            },
            Some(Token::Literal(literal)) => {
                self.skip();
                Ok(
                    Some(
                        match literal {
                            Literal::Char(c) => Expression::Char(c),
                            Literal::Identifier(ident) => Expression::Identifier(ident),
                            Literal::Number(number) => Expression::Number(number),
                            Literal::String(string) => Expression::String(string),
                            Literal::Bool(b) => Expression::Bool(b),
                        },
                    ),
                )
            },
            _ => Ok(None),
        }
    }

    /// An expression: a single expression and, after `and` or `or`, a whole
    /// expression as the right operand. `None` where no expression begins.
    #[verifier::spinoff_prover]
    fn parse_expression(&mut self) -> (r: Result<Option<Expression>, ParseError>)
        ensures
            final(self).tokens() == old(self).tokens(),
            final(self).position() <= final(self).tokens().len(),
            agrees(
                expression(old(self).tokens(), old(self).position()),
                optional_expression_result(r),
                final(self).position(),
            ),
        decreases old(self).remaining(), 2nat,
    {
        self.in_bounds();
        proof {
            reveal(expression);
            reveal(single_expression);
            reveal(required_expression);
            lemma_single_expression(self.tokens(), self.position());
        }
        let l = match self.parse_single_expression() {
            Ok(Some(l)) => l,
            Ok(None) => {
                return Ok(None);
            },
            Err(e) => {
                return Err(e);
            },
        };
        match self.token(0) {
            Some(Token::And) => {
                self.skip();
                match self.require_expression() {
                    Ok(r) => Ok(Some(Expression::And(Box::new(l), Box::new(r)))),
                    Err(e) => Err(e),
                }
            },
            Some(Token::Or) => {
                self.skip();
                match self.require_expression() {
                    Ok(r) => Ok(Some(Expression::Or(Box::new(l), Box::new(r)))),
                    Err(e) => Err(e),
                }
            },
            _ => Ok(Some(l)),
        }
    }

    /// An expression that must be there.
    #[verifier::spinoff_prover]
    fn require_expression(&mut self) -> (r: Result<Expression, ParseError>)
        ensures
            final(self).tokens() == old(self).tokens(),
            final(self).position() <= final(self).tokens().len(),
            agrees(
                required_expression(old(self).tokens(), old(self).position()),
                expression_result(r),
                final(self).position(),
            ),
        decreases old(self).remaining(), 3nat,
    {
        proof {
            reveal(required_expression);
            reveal(expression);
        }
        match self.parse_expression() {
            Ok(Some(e)) => Ok(e),
            Ok(None) => Err(self.error(ParseErrorKind::ExpectedExpression)),
            Err(e) => Err(e),
        }
    }

    /// What stands after `let`, and what a member of a class is: a target,
    /// `=` and a value.
    #[verifier::spinoff_prover]
    fn parse_variable(&mut self) -> (r: Result<Statement, ParseError>)
        ensures
            final(self).tokens() == old(self).tokens(),
            final(self).position() <= final(self).tokens().len(),
            agrees(
                variable(old(self).tokens(), old(self).position()),
                statement_result(r),
                final(self).position(),
            ),
        decreases old(self).remaining(), 4nat,
    {
        self.in_bounds();
        proof {
            reveal(variable);
            reveal(required_expression);
            reveal(function_rest);
            lemma_required_expression(self.tokens(), self.position());
        }
        let ident = match self.require_expression() {
            Ok(ident) => ident,
            Err(e) => {
                return Err(e);
            },
        };
        match self.expect(Token::Equal, ParseErrorKind::ExpectedEqual) {
            Ok(()) => {},
            Err(e) => {
                return Err(e);
            },
        }
        if matches!(self.token(0), Some(Token::LParen)) {
            self.skip();
            match self.parse_function_rest() {
                Ok(value) => Ok(Statement::VariableDeclaration { ident, value }),
                Err(e) => Err(e),
            }
        } else {
            match self.require_expression() {
                Ok(value) => Ok(Statement::VariableDeclaration { ident, value }),
                Err(e) => Err(e),
            }
        }
    }

    /// What stands after `if`: a condition, `{`, statements and `}`.
    #[verifier::spinoff_prover]
    fn parse_if_statement(&mut self) -> (r: Result<Statement, ParseError>)
        ensures
            final(self).tokens() == old(self).tokens(),
            final(self).position() <= final(self).tokens().len(),
            agrees(
                if_statement(old(self).tokens(), old(self).position()),
                statement_result(r),
                final(self).position(),
            ),
        decreases old(self).remaining(), 4nat,
    {
        self.in_bounds();
        proof {
            reveal(if_statement);
            reveal(required_expression);
            reveal(statements);
            lemma_required_expression(self.tokens(), self.position());
        }
        let expr = match self.require_expression() {
            Ok(expr) => expr,
            Err(e) => {
                return Err(e);
            },
        };
        match self.expect(Token::LScope, ParseErrorKind::ExpectedLScope) {
            Ok(()) => {},
            Err(e) => {
                return Err(e);
            },
        }
        let body = match self.parse_scope() {
            Ok(body) => body,
            Err(e) => {
                return Err(e);
            },
        };
        match self.expect(Token::RScope, ParseErrorKind::ExpectedRScope) {
            Ok(()) => {},
            Err(e) => {
                return Err(e);
            },
        }
        Ok(Statement::If { expr, body: Box::new(body) })
    }

    /// The body of a class: `{`, members and `}`.
    #[verifier::spinoff_prover]
    fn parse_class_body(&mut self) -> (r: Result<Expression, ParseError>)
        ensures
            final(self).tokens() == old(self).tokens(),
            final(self).position() <= final(self).tokens().len(),
            agrees(
                class_body(old(self).tokens(), old(self).position()),
                expression_result(r),
                final(self).position(),
            ),
        decreases old(self).remaining(), 0nat,
    {
        let ghost ts = self.tokens();
        let mut properties: Vec<Statement> = Vec::new();
        let mut methods: Vec<Statement> = Vec::new();
        proof {
            reveal(class_body);
            reveal(members);
        }
        match self.expect(Token::LScope, ParseErrorKind::ExpectedLScope) {
            Ok(()) => {},
            Err(e) => {
                return Err(e);
            },
        }
        let ghost start = self.position();
        let ghost mut done: Seq<StatementView> = Seq::empty();
        proof {
            lemma_statement_views_empty();
            lemma_prepend_nothing(members(ts, start));
        }
        loop
            invariant_except_break
                members(ts, start) == prepend(done, members(ts, self.position())),
            invariant
                self.tokens() == ts,
                ts == old(self).tokens(),
                start == old(self).position() + 1,
                start <= self.position() <= ts.len(),
                token_at(ts, old(self).position()) == Some(TokenView::LScope),
                statement_views(properties@) == properties_of(done),
                statement_views(methods@) == methods_of(done),
            ensures
                members(ts, start) == (Parsed::Done { value: done, next: self.position() }),
            decreases ts.len() - self.position(),
        {
            let ghost here = self.position();
            proof {
                reveal(class_body);
                reveal(members);
                reveal(variable);
                lemma_variable(ts, here);
            }
            match self.token(0) {
                None => {
                    proof {
                        lemma_prepend_last(done, here);
                    }
                    break ;
                },
                Some(Token::RScope) => {
                    proof {
                        lemma_prepend_last(done, here);
                    }
                    break ;
                },
                Some(_) => {},
            }
            match self.parse_variable() {
                Ok(property) => {
                    let is_method = match &property {
                        Statement::VariableDeclaration { ident: _, value } => {
                            assert(value@ is Function <==> *value is Function);
                            matches!(value, Expression::Function { .. })
                        },
                        _ => false,
                    };
                    proof {
                        lemma_prepend_push(done, property@, members(ts, self.position()));
                        lemma_statement_views_push(properties@, property);
                        lemma_statement_views_push(methods@, property);
                        assert(done.push(property@).drop_last() =~= done);
                        done = done.push(property@);
                    }
                    if is_method {
                        methods.push(property);
                    } else {
                        properties.push(property);
                    }
                },
                Err(e) => {
                    return Err(e);
                },
            }
        }
        match self.expect(Token::RScope, ParseErrorKind::ExpectedRScope) {
            Ok(()) => {},
            Err(e) => {
                return Err(e);
            },
        }
        let body = Expression::ClassBody { properties, methods };
        proof {
            assert(body@->ClassBody_properties =~= statement_views(properties@));
            assert(body@->ClassBody_methods =~= statement_views(methods@));
        }
        Ok(body)
    }

    /// What stands after `class`: the name of the class and its body.
    #[verifier::spinoff_prover]
    fn parse_class(&mut self) -> (r: Result<Statement, ParseError>)
        ensures
            final(self).tokens() == old(self).tokens(),
            final(self).position() <= final(self).tokens().len(),
            agrees(
                class(old(self).tokens(), old(self).position()),
                statement_result(r),
                final(self).position(),
            ),
        decreases old(self).remaining(), 4nat,
    {
        self.in_bounds();
        proof {
            reveal(class);
            reveal(required_expression);
            reveal(class_body);
            lemma_required_expression(self.tokens(), self.position());
        }
        let ident = match self.require_expression() {
            Ok(ident) => ident,
            Err(e) => {
                return Err(e);
            },
        };
        match self.parse_class_body() {
            Ok(body) => Ok(Statement::ClassConstructor { ident, body }),
            Err(e) => Err(e),
        }
    }

    /// What follows the target of an assignment: `=` and the value.
    #[verifier::spinoff_prover]
    fn parse_variable_assignment(&mut self, ident: Expression) -> (r: Result<
        Statement,
        ParseError,
    >)
        requires
            token_at(old(self).tokens(), old(self).position()) == Some(TokenView::Equal),
        ensures
            final(self).tokens() == old(self).tokens(),
            final(self).position() <= final(self).tokens().len(),
            agrees(
                required_expression(old(self).tokens(), old(self).position() + 1),
                match r {
                    Ok(s) => Ok(s@->VariableAssignment_value),
                    Err(e) => Err(e),
                },
                final(self).position(),
            ),
            r matches Ok(s) ==> s@ is VariableAssignment && s@->VariableAssignment_ident == ident@,
        decreases old(self).remaining(), 3nat,
    {
        self.skip();
        match self.require_expression() {
            Ok(value) => Ok(Statement::VariableAssignment { ident, value }),
            Err(e) => Err(e),
        }
    }

    /// An expression that stands alone, kept as a declaration of `_`.
    fn parse_fn_call(ident: Expression) -> (s: Statement)
        ensures
            s@ == (StatementView::VariableDeclaration {
                ident: ExpressionView::Identifier("_"@),
                value: ident@,
            }),
    {
        let target = Expression::Identifier(String::from_str("_"));
        assert(target@ == ExpressionView::Identifier("_"@));
        Statement::VariableDeclaration { ident: target, value: ident }
    }

    /// A statement that begins with an expression: an assignment, or the
    /// expression alone.
    #[verifier::spinoff_prover]
    fn parse_expression_statement(&mut self) -> (r: Result<Statement, ParseError>)
        ensures
            final(self).tokens() == old(self).tokens(),
            final(self).position() <= final(self).tokens().len(),
            agrees(
                expression_statement(old(self).tokens(), old(self).position()),
                statement_result(r),
                final(self).position(),
            ),
        decreases old(self).remaining(), 4nat,
    {
        self.in_bounds();
        proof {
            reveal(expression_statement);
            reveal(required_expression);
            lemma_required_expression(self.tokens(), self.position());
        }
        let index = match self.require_expression() {
            Ok(index) => index,
            Err(e) => {
                return Err(e);
            },
        };
        if matches!(self.token(0), Some(Token::Equal)) {
            self.parse_variable_assignment(index)
        } else {
            Ok(Self::parse_fn_call(index))
        }
    }

    /// What stands after `return`: the value, or `nil` where none stands.
    #[verifier::spinoff_prover]
    fn parse_return(&mut self) -> (r: Result<Statement, ParseError>)
        ensures
            final(self).tokens() == old(self).tokens(),
            final(self).position() <= final(self).tokens().len(),
            agrees(
                return_statement(old(self).tokens(), old(self).position()),
                statement_result(r),
                final(self).position(),
            ),
        decreases old(self).remaining(), 4nat,
    {
        proof {
            reveal(return_statement);
            reveal(expression);
        }
        match self.parse_expression() {
            Ok(Some(e)) => Ok(Statement::Return(e)),
            Ok(None) => {
                let nil = Expression::Identifier(String::from_str("nil"));
                assert(nil@ == ExpressionView::Identifier("nil"@));
                Ok(Statement::Return(nil))
            },
            Err(e) => Err(e),
        }
    }

    /// Reads one statement. `None` at a `}` and at the end of the input,
    /// where nothing is read.
    #[verifier::spinoff_prover]
    pub fn parse_statement(&mut self) -> (r: Result<Option<Statement>, ParseError>)
        ensures
            final(self).tokens() == old(self).tokens(),
            final(self).position() <= final(self).tokens().len(),
            agrees(
                statement(old(self).tokens(), old(self).position()),
                optional_statement_result(r),
                final(self).position(),
            ),
        decreases old(self).remaining(), 5nat,
    {
        proof {
            reveal(statement);
        }
        match self.token(0) {
            Some(Token::Identifier(identifier)) => {
                let r = if is_word(&identifier, "let") {
                    proof {
                        reveal(variable);
                    }
                    self.skip();
                    self.parse_variable()
                } else if is_word(&identifier, "class") {
                    proof {
                        reveal(class);
                    }
                    self.skip();
                    self.parse_class()
                } else if is_word(&identifier, "if") {
                    proof {
                        reveal(if_statement);
                    }
                    self.skip();
                    self.parse_if_statement()
                } else if is_word(&identifier, "return") {
                    proof {
                        reveal(return_statement);
                    }
                    self.skip();
                    self.parse_return()
                } else {
                    proof {
                        reveal(expression_statement);
                    }
                    self.parse_expression_statement()
                };
                match r {
                    Ok(s) => Ok(Some(s)),
                    Err(e) => Err(e),
                }
            },
            Some(Token::Literal(_)) => {
                proof {
                    reveal(expression_statement);
                }
                match self.parse_expression_statement() {
                    Ok(s) => Ok(Some(s)),
                    Err(e) => Err(e),
                }
            },
            Some(Token::LParen) => {
                proof {
                    reveal(expression_statement);
                }
                match self.parse_expression_statement() {
                    Ok(s) => Ok(Some(s)),
                    Err(e) => Err(e),
                }
            },
            Some(Token::LScope) => {
                proof {
                    reveal(statements);
                }
                self.skip();
                let scope = match self.parse_scope() {
                    Ok(scope) => scope,
                    Err(e) => {
                        return Err(e);
                    },
                };
                match self.expect(Token::RScope, ParseErrorKind::ExpectedRScope) {
                    Ok(()) => {},
                    Err(e) => {
                        return Err(e);
                    },
                }
                Ok(Some(scope))
            },
            Some(Token::RScope) => Ok(None),
            Some(Token::Luau(code)) => {
                self.skip();
                Ok(Some(Statement::Luau(code)))
            },
            Some(_) => Err(self.error(ParseErrorKind::UnexpectedToken)),
            None => Ok(None),
        }
    }

    /// Reads statements up to a `}` or the end of the input, and returns
    /// them as one scope.
    #[verifier::spinoff_prover]
    pub fn parse_scope(&mut self) -> (r: Result<Statement, ParseError>)
        ensures
            final(self).tokens() == old(self).tokens(),
            final(self).position() <= final(self).tokens().len(),
            r matches Ok(s) ==> s@ is Scope,
            agrees(
                statements(old(self).tokens(), old(self).position()),
                scope_result(r),
                final(self).position(),
            ),
        decreases old(self).remaining(), 6nat,
    {
        let ghost ts = self.tokens();
        let ghost start = self.position();
        let mut stack: Vec<Statement> = Vec::new();
        self.in_bounds();
        proof {
            lemma_statement_views_empty();
            lemma_prepend_nothing(statements(ts, start));
        }
        loop
            invariant_except_break
                statements(ts, start) == prepend(
                    statement_views(stack@),
                    statements(ts, self.position()),
                ),
            invariant
                self.tokens() == ts,
                ts == old(self).tokens(),
                start == old(self).position(),
                start <= self.position() <= ts.len(),
            ensures
                statements(ts, start) == (Parsed::Done {
                    value: statement_views(stack@),
                    next: self.position(),
                }),
            decreases ts.len() - self.position(),
        {
            let ghost here = self.position();
            let ghost done = statement_views(stack@);
            proof {
                reveal(statements);
                reveal(statement);
                lemma_statement(ts, here);
            }
            match self.parse_statement() {
                Ok(Some(s)) => {
                    proof {
                        lemma_statement_views_push(stack@, s);
                        lemma_prepend_push(done, s@, statements(ts, self.position()));
                    }
                    stack.push(s);
                },
                Ok(None) => {
                    proof {
                        lemma_prepend_last(done, here);
                    }
                    break ;
                },
                Err(e) => {
                    return Err(e);
                },
            }
        }
        let scope = Statement::Scope(stack);
        proof {
            assert(scope@->Scope_0 =~= statement_views(stack@));
        }
        Ok(scope)
    }

    /// Reads the whole program, from the next token on, as one scope.
    pub fn load(&mut self) -> (r: Result<Statement, ParseError>)
        ensures
            final(self).tokens() == old(self).tokens(),
            final(self).position() <= final(self).tokens().len(),
            r matches Ok(s) ==> s@ is Scope,
            agrees(
                statements(old(self).tokens(), old(self).position()),
                scope_result(r),
                final(self).position(),
            ),
    {
        self.parse_scope()
    }
}

/// Reads a whole program from the tokens: its statements, as one scope.
pub fn parse(tokens: &[Token]) -> (r: Result<Statement, ParseError>)
    ensures
        statement_result(r) == program(token_views(tokens@)),
{
    let mut parser = Parser::new(tokens);
    parser.load()
}

} // verus!
