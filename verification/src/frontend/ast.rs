//! The syntax tree: expressions, which stand for values, and statements.

use vstd::prelude::*;

verus! {

/// A node of the tree that stands for a value.
#[derive(Debug, PartialEq)]
pub enum Expression {
    /// A call written with a colon: `object:method(args)`.
    MethodCall { ident: Box<Expression>, args: Vec<Expression> },
    FunctionCall { ident: Box<Expression>, args: Vec<Expression> },
    /// A function value; every parameter is a `Parameter`.
    Function { params: Vec<Expression>, stmt: Box<Statement> },
    Parameter { ident: Box<Expression>, expected_type: Box<Option<Expression>> },
    /// The members of a class: those whose value is a function are its
    /// methods, all others its properties.
    ClassBody { properties: Vec<Statement>, methods: Vec<Statement> },
    Identifier(String),
    /// Dotted access: `object.member`.
    Indexing(Box<Expression>, Box<Expression>),
    And(Box<Expression>, Box<Expression>),
    Or(Box<Expression>, Box<Expression>),
    String(String),
    Bool(bool),
    Char(char),
    /// A number, carried as its decimal text.
    Number(String),
}

/// A node of the tree that stands for an action.
#[derive(Debug, PartialEq)]
#[allow(inconsistent_fields)]
pub enum Statement {
    VariableAssignment { ident: Expression, value: Expression },
    VariableDeclaration { ident: Expression, value: Expression },
    ClassConstructor { ident: Expression, body: Expression },
    Return(Expression),
    If { expr: Expression, body: Box<Statement> },
    Scope(Vec<Statement>),
    /// Luau code that is emitted as it stands.
    Luau(String),
}

/// What an `Expression` stands for.
pub ghost enum ExpressionView {
    MethodCall { ident: Box<ExpressionView>, args: Seq<ExpressionView> },
    FunctionCall { ident: Box<ExpressionView>, args: Seq<ExpressionView> },
    Function { params: Seq<ExpressionView>, stmt: Box<StatementView> },
    Parameter { ident: Box<ExpressionView>, expected_type: Option<Box<ExpressionView>> },
    ClassBody { properties: Seq<StatementView>, methods: Seq<StatementView> },
    Identifier(Seq<char>),
    Indexing(Box<ExpressionView>, Box<ExpressionView>),
    And(Box<ExpressionView>, Box<ExpressionView>),
    Or(Box<ExpressionView>, Box<ExpressionView>),
    String(Seq<char>),
    Bool(bool),
    Char(char),
    Number(Seq<char>),
}

/// What a `Statement` stands for.
#[allow(inconsistent_fields)]
pub ghost enum StatementView {
    VariableAssignment { ident: ExpressionView, value: ExpressionView },
    VariableDeclaration { ident: ExpressionView, value: ExpressionView },
    ClassConstructor { ident: ExpressionView, body: ExpressionView },
    Return(ExpressionView),
    If { expr: ExpressionView, body: Box<StatementView> },
    Scope(Seq<StatementView>),
    Luau(Seq<char>),
}

impl Expression {
    pub open spec fn view(&self) -> ExpressionView
        decreases self,
    {
        match self {
            Expression::MethodCall { ident, args } => ExpressionView::MethodCall {
                ident: Box::new(ident.view()),
                args: Seq::new(
                    args.len() as nat,
                    |i: int|
                        if 0 <= i < args.len() {
                            args@[i].view()
                        } else {
                            ExpressionView::Bool(false)
                        },
                ),
            },
            Expression::FunctionCall { ident, args } => ExpressionView::FunctionCall {
                ident: Box::new(ident.view()),
                args: Seq::new(
                    args.len() as nat,
                    |i: int|
                        if 0 <= i < args.len() {
                            args@[i].view()
                        } else {
                            ExpressionView::Bool(false)
                        },
                ),
            },
            Expression::Function { params, stmt } => ExpressionView::Function {
                params: Seq::new(
                    params.len() as nat,
                    |i: int|
                        if 0 <= i < params.len() {
                            params@[i].view()
                        } else {
                            ExpressionView::Bool(false)
                        },
                ),
                stmt: Box::new(stmt.view()),
            },
            Expression::Parameter { ident, expected_type } => ExpressionView::Parameter {
                ident: Box::new(ident.view()),
                expected_type: match **expected_type {
                    Some(t) => Some(Box::new(t.view())),
                    None => None,
                },
            },
            Expression::ClassBody { properties, methods } => ExpressionView::ClassBody {
                properties: Seq::new(
                    properties.len() as nat,
                    |i: int|
                        if 0 <= i < properties.len() {
                            properties@[i].view()
                        } else {
                            StatementView::Scope(Seq::empty())
                        },
                ),
                methods: Seq::new(
                    methods.len() as nat,
                    |i: int|
                        if 0 <= i < methods.len() {
                            methods@[i].view()
                        } else {
                            StatementView::Scope(Seq::empty())
                        },
                ),
            },
            Expression::Identifier(s) => ExpressionView::Identifier(s@),
            Expression::Indexing(l, r) => ExpressionView::Indexing(
                Box::new(l.view()),
                Box::new(r.view()),
            ),
            Expression::And(l, r) => ExpressionView::And(Box::new(l.view()), Box::new(r.view())),
            Expression::Or(l, r) => ExpressionView::Or(Box::new(l.view()), Box::new(r.view())),
            Expression::String(s) => ExpressionView::String(s@),
            Expression::Bool(b) => ExpressionView::Bool(*b),
            Expression::Char(c) => ExpressionView::Char(*c),
            Expression::Number(s) => ExpressionView::Number(s@),
        }
    }
}

impl Statement {
    pub open spec fn view(&self) -> StatementView
        decreases self,
    {
        match self {
            Statement::VariableAssignment { ident, value } => StatementView::VariableAssignment {
                ident: ident.view(),
                value: value.view(),
            },
            Statement::VariableDeclaration { ident, value } => StatementView::VariableDeclaration {
                ident: ident.view(),
                value: value.view(),
            },
            Statement::ClassConstructor { ident, body } => StatementView::ClassConstructor {
                ident: ident.view(),
                body: body.view(),
            },
            Statement::Return(e) => StatementView::Return(e.view()),
            Statement::If { expr, body } => StatementView::If {
                expr: expr.view(),
                body: Box::new(body.view()),
            },
            Statement::Scope(stmts) => StatementView::Scope(
                Seq::new(
                    stmts.len() as nat,
                    |i: int|
                        if 0 <= i < stmts.len() {
                            stmts@[i].view()
                        } else {
                            StatementView::Scope(Seq::empty())
                        },
                ),
            ),
            Statement::Luau(s) => StatementView::Luau(s@),
        }
    }
}

/// The views of a list of expressions, one for one.
pub open spec fn expression_views(es: Seq<Expression>) -> Seq<ExpressionView> {
    Seq::new(es.len(), |i: int| es[i]@)
}

/// The views of a list of statements, one for one.
pub open spec fn statement_views(ss: Seq<Statement>) -> Seq<StatementView> {
    Seq::new(ss.len(), |i: int| ss[i]@)
}

/// The view of an expression that may be absent.
pub open spec fn optional_view(e: Option<Expression>) -> Option<ExpressionView> {
    match e {
        Some(e) => Some(e@),
        None => None,
    }
}

/// The views of a list with one more expression at its end.
pub proof fn lemma_expression_views_push(es: Seq<Expression>, e: Expression)
    ensures
        expression_views(es.push(e)) == expression_views(es).push(e@),
{
}

/// No expressions have no views.
pub proof fn lemma_expression_views_empty()
    ensures
        expression_views(Seq::<Expression>::empty()) == Seq::<ExpressionView>::empty(),
{
}

/// The views of a list with one more statement at its end.
pub proof fn lemma_statement_views_push(ss: Seq<Statement>, s: Statement)
    ensures
        statement_views(ss.push(s)) == statement_views(ss).push(s@),
{
}

/// No statements have no views.
pub proof fn lemma_statement_views_empty()
    ensures
        statement_views(Seq::<Statement>::empty()) == Seq::<StatementView>::empty(),
{
}

/// A copy of the expressions, one for one.
#[verifier::loop_isolation(false)]
fn clone_expressions(es: &Vec<Expression>) -> (r: Vec<Expression>)
    ensures
        expression_views(r@) == expression_views(es@),
    decreases es, 0nat,
{
    let mut out: Vec<Expression> = Vec::new();
    let mut i: usize = 0;
    while i < es.len()
        invariant
            i <= es.len(),
            out.len() == i,
            forall|j: int| 0 <= j < i ==> out@[j]@ == es@[j]@,
        decreases es.len() - i,
    {
        out.push(clone_expression(&es[i]));
        i += 1;
    }
    out
}

/// A copy of the statements, one for one.
#[verifier::loop_isolation(false)]
fn clone_statements(ss: &Vec<Statement>) -> (r: Vec<Statement>)
    ensures
        statement_views(r@) == statement_views(ss@),
    decreases ss, 0nat,
{
    let mut out: Vec<Statement> = Vec::new();
    let mut i: usize = 0;
    while i < ss.len()
        invariant
            i <= ss.len(),
            out.len() == i,
            forall|j: int| 0 <= j < i ==> out@[j]@ == ss@[j]@,
        decreases ss.len() - i,
    {
        out.push(clone_statement(&ss[i]));
        i += 1;
    }
    out
}

/// A copy of the expression.
fn clone_expression(e: &Expression) -> (r: Expression)
    ensures
        r@ == e@,
    decreases e, 0nat,
{
    match e {
        Expression::MethodCall { ident, args } => {
            let r = Expression::MethodCall {
                ident: Box::new(clone_expression(ident)),
                args: clone_expressions(args),
            };
            assert(r@->MethodCall_args =~= expression_views(args@));
            assert(e@->MethodCall_args =~= expression_views(args@));
            r
        },
        Expression::FunctionCall { ident, args } => {
            let r = Expression::FunctionCall {
                ident: Box::new(clone_expression(ident)),
                args: clone_expressions(args),
            };
            assert(r@->FunctionCall_args =~= expression_views(args@));
            assert(e@->FunctionCall_args =~= expression_views(args@));
            r
        },
        Expression::Function { params, stmt } => {
            let r = Expression::Function {
                params: clone_expressions(params),
                stmt: Box::new(clone_statement(stmt)),
            };
            assert(r@->Function_params =~= expression_views(params@));
            assert(e@->Function_params =~= expression_views(params@));
            r
        },
        Expression::Parameter { ident, expected_type } => {
            let expected_type = match &**expected_type {
                Some(t) => Some(clone_expression(t)),
                None => None,
            };
            Expression::Parameter {
                ident: Box::new(clone_expression(ident)),
                expected_type: Box::new(expected_type),
            }
        },
        Expression::ClassBody { properties, methods } => {
            let r = Expression::ClassBody {
                properties: clone_statements(properties),
                methods: clone_statements(methods),
            };
            assert(r@->ClassBody_properties =~= statement_views(properties@));
            assert(e@->ClassBody_properties =~= statement_views(properties@));
            assert(r@->ClassBody_methods =~= statement_views(methods@));
            assert(e@->ClassBody_methods =~= statement_views(methods@));
            r
        },
        Expression::Identifier(s) => Expression::Identifier(s.clone()),
        Expression::Indexing(l, r) => Expression::Indexing(
            Box::new(clone_expression(l)),
            Box::new(clone_expression(r)),
        ),
        Expression::And(l, r) => Expression::And(
            Box::new(clone_expression(l)),
            Box::new(clone_expression(r)),
        ),
        Expression::Or(l, r) => Expression::Or(
            Box::new(clone_expression(l)),
            Box::new(clone_expression(r)),
        ),
        Expression::String(s) => Expression::String(s.clone()),
        Expression::Bool(b) => Expression::Bool(*b),
        Expression::Char(c) => Expression::Char(*c),
        Expression::Number(s) => Expression::Number(s.clone()),
    }
}

/// A copy of the statement.
fn clone_statement(s: &Statement) -> (r: Statement)
    ensures
        r@ == s@,
    decreases s, 0nat,
{
    match s {
        Statement::VariableAssignment { ident, value } => Statement::VariableAssignment {
            ident: clone_expression(ident),
            value: clone_expression(value),
        },
        Statement::VariableDeclaration { ident, value } => Statement::VariableDeclaration {
            ident: clone_expression(ident),
            value: clone_expression(value),
        },
        Statement::ClassConstructor { ident, body } => Statement::ClassConstructor {
            ident: clone_expression(ident),
            body: clone_expression(body),
        },
        Statement::Return(e) => Statement::Return(clone_expression(e)),
        Statement::If { expr, body } => Statement::If {
            expr: clone_expression(expr),
            body: Box::new(clone_statement(body)),
        },
        Statement::Scope(stmts) => {
            let r = Statement::Scope(clone_statements(stmts));
            assert(r@->Scope_0 =~= statement_views(stmts@));
            assert(s@->Scope_0 =~= statement_views(stmts@));
            r
        },
        Statement::Luau(code) => Statement::Luau(code.clone()),
    }
}

impl Clone for Expression {
    fn clone(&self) -> (r: Self)
        ensures
            r@ == self@,
    {
        clone_expression(self)
    }
}

impl Clone for Statement {
    fn clone(&self) -> (r: Self)
        ensures
            r@ == self@,
    {
        clone_statement(self)
    }
}

} // verus!
