//! What the code generator writes, stated over the views of the syntax tree.
//!
//! The output is a list of lines, each at a nesting level. A line's text is
//! its level's indentation, its code and a line feed.

use crate::frontend::ast::{ExpressionView, StatementView};
use vstd::prelude::*;

verus! {

/// Why a tree cannot be turned into text.
#[derive(Debug, Clone, Copy, PartialEq, Eq)]
pub enum GenError {
    /// The root of the tree is not a scope.
    RootNotScope,
    /// The target of a declaration or an assignment is neither an identifier
    /// nor a dotted access.
    InvalidTarget,
    /// An expression stands where text is needed, and its kind has none.
    UnrenderableExpression,
    /// The body of a class is not a class body.
    InvalidClassBody,
    /// A property of a class is not a declaration.
    InvalidProperty,
}

/// One line of output: code at a nesting level.
pub ghost struct Line {
    pub level: nat,
    pub code: Seq<char>,
}

/// The lines written for a piece of the tree, and the error that ended the
/// writing, if one did.
pub ghost struct Emission {
    pub lines: Seq<Line>,
    pub error: Option<GenError>,
}

/// The indentation of one nesting level.
pub open spec fn indent_unit() -> Seq<char> {
    "    "@
}

/// The indentation in front of a line at the given level.
pub open spec fn indent(level: nat) -> Seq<char>
    decreases level,
{
    if level == 0 {
        Seq::empty()
    } else {
        indent((level - 1) as nat) + indent_unit()
    }
}

/// The text of one line.
pub open spec fn line_text(line: Line) -> Seq<char> {
    indent(line.level) + line.code + "\n"@
}

/// The text of a list of lines.
pub open spec fn render(lines: Seq<Line>) -> Seq<char>
    decreases lines.len(),
{
    if lines.len() == 0 {
        Seq::empty()
    } else {
        render(lines.drop_last()) + line_text(lines.last())
    }
}

/// The parts, with `", "` between each two.
pub open spec fn comma_join(parts: Seq<Seq<char>>) -> Seq<char>
    decreases parts.len(),
{
    if parts.len() == 0 {
        Seq::empty()
    } else if parts.len() == 1 {
        parts[0]
    } else {
        comma_join(parts.drop_last()) + ", "@ + parts.last()
    }
}

/// A binding. A local one has its type, if any, after the name; another has
/// it after the value, as a cast.
pub open spec fn declaration_code(
    local: bool,
    ident: Seq<char>,
    value: Seq<char>,
    value_type: Option<Seq<char>>,
) -> Seq<char> {
    if local {
        match value_type {
            Some(t) => "local "@ + ident + ": "@ + t + " = "@ + value,
            None => "local "@ + ident + " = "@ + value,
        }
    } else {
        match value_type {
            Some(t) => ident + " = "@ + value + " :: "@ + t,
            None => ident + " = "@ + value,
        }
    }
}

/// A call: the callee and, in brackets, the arguments.
pub open spec fn call_code(ident: Seq<char>, values: Seq<Seq<char>>) -> Seq<char> {
    ident + "("@ + comma_join(values) + ")"@
}

/// The line that opens a function.
pub open spec fn function_code(local: bool, ident: Seq<char>, params: Seq<Seq<char>>) -> Seq<
    char,
> {
    if local {
        "local function "@ + ident + "("@ + comma_join(params) + ")"@
    } else {
        "function "@ + ident + "("@ + comma_join(params) + ")"@
    }
}

/// The line that binds a class's name to an empty table.
pub open spec fn class_code(ident: Seq<char>) -> Seq<char> {
    "local "@ + ident + " = {}"@
}

/// The line that opens a conditional.
pub open spec fn if_code(expr: Seq<char>) -> Seq<char> {
    "if "@ + expr + " then"@
}

/// A `return` line.
pub open spec fn return_code(value: Seq<char>) -> Seq<char> {
    "return "@ + value
}

/// Whether the expression has a textual form.
pub open spec fn renderable(e: ExpressionView) -> bool
    decreases e,
{
    match e {
        ExpressionView::Identifier(_) => true,
        ExpressionView::Parameter { ident, .. } => renderable(*ident),
        ExpressionView::Char(_) => true,
        ExpressionView::String(_) => true,
        ExpressionView::Bool(_) => true,
        ExpressionView::Number(_) => true,
        ExpressionView::FunctionCall { ident, args } => renderable(*ident) && forall|i: int|
            0 <= i < args.len() ==> renderable(#[trigger] args[i]),
        ExpressionView::Indexing(l, r) => renderable(*l) && renderable(*r),
        ExpressionView::And(l, r) => renderable(*l) && renderable(*r),
        ExpressionView::Or(l, r) => renderable(*l) && renderable(*r),
        ExpressionView::MethodCall { .. } => false,
        ExpressionView::Function { .. } => false,
        ExpressionView::ClassBody { .. } => false,
    }
}

/// The textual form of a renderable expression.
pub open spec fn expression_text(e: ExpressionView) -> Seq<char>
    decreases e,
{
    match e {
        ExpressionView::Identifier(name) => name,
        ExpressionView::Parameter { ident, .. } => expression_text(*ident),
        ExpressionView::Char(c) => "\""@ + seq![c] + "\""@,
        ExpressionView::String(s) => "\""@ + s + "\""@,
        ExpressionView::Bool(b) => if b {
            "true"@
        } else {
            "false"@
        },
        ExpressionView::Number(digits) => digits,
        ExpressionView::FunctionCall { ident, args } => call_code(
            expression_text(*ident),
            expression_texts(args),
        ),
        ExpressionView::Indexing(l, r) => expression_text(*l) + "."@ + expression_text(*r),
        ExpressionView::And(l, r) => expression_text(*l) + " and "@ + expression_text(*r),
        ExpressionView::Or(l, r) => expression_text(*l) + " or "@ + expression_text(*r),
        ExpressionView::MethodCall { .. } => Seq::empty(),
        ExpressionView::Function { .. } => Seq::empty(),
        ExpressionView::ClassBody { .. } => Seq::empty(),
    }
}

/// The textual forms of a list of expressions, one for one.
pub open spec fn expression_texts(es: Seq<ExpressionView>) -> Seq<Seq<char>>
    decreases es,
{
    if es.len() == 0 {
        Seq::empty()
    } else {
        expression_texts(es.drop_last()).push(expression_text(es.last()))
    }
}

/// `expression_texts` keeps the length and the order.
pub proof fn lemma_expression_texts(es: Seq<ExpressionView>)
    ensures
        expression_texts(es).len() == es.len(),
        forall|i: int|
            0 <= i < es.len() ==> #[trigger] expression_texts(es)[i] == expression_text(es[i]),
    decreases es.len(),
{
    if es.len() > 0 {
        lemma_expression_texts(es.drop_last());
    }
}

/// The type that the shape of a value shows, if it shows one. A connective
/// has the type of its right operand; a parameter has the type it declares.
pub open spec fn inferred_type(e: ExpressionView) -> Option<Seq<char>>
    decreases e,
{
    match e {
        ExpressionView::Bool(_) => Some("boolean"@),
        ExpressionView::Char(_) => Some("string"@),
        ExpressionView::String(_) => Some("string"@),
        ExpressionView::Number(_) => Some("number"@),
        ExpressionView::And(_, r) => inferred_type(*r),
        ExpressionView::Or(_, r) => inferred_type(*r),
        ExpressionView::Parameter { expected_type, .. } => match expected_type {
            Some(t) => Some(expression_text(*t)),
            None => None,
        },
        _ => None,
    }
}

/// Whether a type can be looked for in the expression at all: not in a class
/// body, nor where a declared type has no textual form.
pub open spec fn typeable(e: ExpressionView) -> bool
    decreases e,
{
    match e {
        ExpressionView::And(_, r) => typeable(*r),
        ExpressionView::Or(_, r) => typeable(*r),
        ExpressionView::Parameter { expected_type, .. } => match expected_type {
            Some(t) => renderable(*t),
            None => true,
        },
        ExpressionView::ClassBody { .. } => false,
        _ => true,
    }
}

/// A parameter as it stands in a function's header: its text, then its
/// type where it has one.
pub open spec fn parameter_code(p: ExpressionView) -> Seq<char> {
    match inferred_type(p) {
        Some(t) => expression_text(p) + ": "@ + t,
        None => expression_text(p),
    }
}

/// The parameters of a function's header, one for one.
pub open spec fn parameter_codes(params: Seq<ExpressionView>) -> Seq<Seq<char>> {
    Seq::new(params.len(), |i: int| parameter_code(params[i]))
}

/// Whether every parameter can be written into a header.
pub open spec fn parameters_ok(params: Seq<ExpressionView>) -> bool {
    forall|i: int|
        0 <= i < params.len() ==> typeable(#[trigger] params[i]) && renderable(params[i])
}

/// The name that a declaration or an assignment binds: an identifier, or a
/// dotted access whose two sides have text. Inside a class, `in_class`, a
/// bare identifier names a field of `self`.
pub open spec fn target_text(ident: ExpressionView, in_class: bool) -> Result<Seq<char>, GenError> {
    match ident {
        ExpressionView::Identifier(name) => Ok(
            if in_class {
                "self."@ + name
            } else {
                name
            },
        ),
        ExpressionView::Indexing(l, r) => if renderable(*l) && renderable(*r) {
            Ok(expression_text(*l) + "."@ + expression_text(*r))
        } else {
            Err(GenError::UnrenderableExpression)
        },
        _ => Err(GenError::InvalidTarget),
    }
}

/// Lines written without an error.
pub open spec fn written(lines: Seq<Line>) -> Emission {
    Emission { lines, error: None }
}

/// An error before anything was written.
pub open spec fn refused(error: GenError) -> Emission {
    Emission { lines: Seq::empty(), error: Some(error) }
}

/// One line written without an error.
pub open spec fn one_line(level: nat, code: Seq<char>) -> Emission {
    written(seq![Line { level, code }])
}

/// `first`, and after it `second` unless `first` ended in an error.
pub open spec fn chain(first: Emission, second: Emission) -> Emission {
    if first.error is Some {
        first
    } else {
        Emission { lines: first.lines + second.lines, error: second.error }
    }
}

/// The binding of `value` to `ident`: the value's text and type are found
/// first, the target's name after them.
pub open spec fn binding(
    level: nat,
    local: bool,
    in_class: bool,
    ident: ExpressionView,
    value: ExpressionView,
) -> Emission {
    if !(typeable(value) && renderable(value)) {
        refused(GenError::UnrenderableExpression)
    } else {
        match target_text(ident, in_class) {
            Ok(name) => one_line(
                level,
                declaration_code(local, name, expression_text(value), inferred_type(value)),
            ),
            Err(e) => refused(e),
        }
    }
}

/// What is written for one property of a class, inside its constructor.
pub open spec fn property_emission(p: StatementView, level: nat) -> Emission {
    match p {
        StatementView::VariableDeclaration { ident, value } => binding(
            level,
            false,
            true,
            ident,
            value,
        ),
        _ => refused(GenError::InvalidProperty),
    }
}

/// What is written for the properties of a class, in their order.
pub open spec fn properties_emission(ps: Seq<StatementView>, level: nat) -> Emission
    decreases ps.len(),
{
    if ps.len() == 0 {
        written(Seq::empty())
    } else {
        chain(property_emission(ps[0], level), properties_emission(ps.skip(1), level))
    }
}

/// What is written for one statement at the given nesting level.
pub open spec fn statement_emission(s: StatementView, level: nat) -> Emission
    decreases s, 0nat,
{
    match s {
        StatementView::Return(e) => if renderable(e) {
            one_line(level, return_code(expression_text(e)))
        } else {
            refused(GenError::UnrenderableExpression)
        },
        StatementView::If { expr, body } => if renderable(expr) {
            chain(
                one_line(level, if_code(expression_text(expr))),
                chain(body_emission(*body, level), one_line(level, "end"@)),
            )
        } else {
            refused(GenError::UnrenderableExpression)
        },
        StatementView::Scope(stmts) => chain(
            one_line(level, "do"@),
            chain(statements_emission(stmts, level + 1), one_line(level, "end"@)),
        ),
        StatementView::ClassConstructor { ident, body } => if renderable(ident) {
            chain(
                written(
                    seq![
                        Line { level, code: declaration_code(true, expression_text(ident), "{}"@, None) },
                        Line {
                            level,
                            code: function_code(false, expression_text(ident) + ".new"@, Seq::empty()),
                        },
                    ],
                ),
                chain(constructor_emission(body, level), one_line(level, "end"@)),
            )
        } else {
            refused(GenError::UnrenderableExpression)
        },
        StatementView::VariableDeclaration { ident, value } => declaration_emission(
            true,
            ident,
            value,
            level,
        ),
        StatementView::VariableAssignment { ident, value } => declaration_emission(
            false,
            ident,
            value,
            level,
        ),
        StatementView::Luau(code) => one_line(level, code),
    }
}

/// What is written for a declaration (`local`) or an assignment. A value that
/// is a bare identifier is bound without a type; a function becomes a function
/// definition; any other value is bound with the type that it shows.
pub open spec fn declaration_emission(
    local: bool,
    ident: ExpressionView,
    value: ExpressionView,
    level: nat,
) -> Emission
    decreases value, 0nat,
{
    match value {
        ExpressionView::Identifier(name) => match target_text(ident, false) {
            Ok(target) => one_line(level, declaration_code(local, target, name, None)),
            Err(e) => refused(e),
        },
        ExpressionView::Function { params, stmt } => if parameters_ok(params) && renderable(ident) {
            chain(
                one_line(
                    level,
                    function_code(local, expression_text(ident), parameter_codes(params)),
                ),
                chain(body_emission(*stmt, level), one_line(level, "end"@)),
            )
        } else {
            refused(GenError::UnrenderableExpression)
        },
        _ => binding(level, local, false, ident, value),
    }
}

/// What is written inside the constructor of a class with the given body:
/// the table `self`, one assignment for each property, and the `return`.
/// The methods of the class are not written.
pub open spec fn constructor_emission(body: ExpressionView, level: nat) -> Emission {
    chain(
        one_line(level + 1, declaration_code(true, "self"@, "{}"@, None)),
        match body {
            ExpressionView::ClassBody { properties, .. } => chain(
                properties_emission(properties, level + 1),
                one_line(level + 1, return_code("self"@)),
            ),
            _ => refused(GenError::InvalidClassBody),
        },
    )
}

/// What is written for the body of a conditional or of a function that
/// stands at `level`: the statements of a scope without its `do` and `end`,
/// or the one statement, one level deeper.
pub open spec fn body_emission(body: StatementView, level: nat) -> Emission
    decreases body, 1nat,
{
    match body {
        StatementView::Scope(stmts) => statements_emission(stmts, level + 1),
        _ => statement_emission(body, level + 1),
    }
}

/// What is written for statements in their order, up to the first error.
pub open spec fn statements_emission(stmts: Seq<StatementView>, level: nat) -> Emission
    decreases stmts, 0nat,
{
    if stmts.len() == 0 {
        written(Seq::empty())
    } else {
        chain(
            statement_emission(stmts[0], level),
            statements_emission(stmts.subrange(1, stmts.len() as int), level),
        )
    }
}

/// What is written for a whole program: the statements of the root scope
/// at the given level, without a `do` and an `end` around them. A root that
/// is not a scope is refused.
pub open spec fn program_emission(root: StatementView, level: nat) -> Emission {
    match root {
        StatementView::Scope(stmts) => statements_emission(stmts, level),
        _ => refused(GenError::RootNotScope),
    }
}

/// The Luau text of a program, if it has one, or else the reason why it has
/// none.
pub open spec fn program_text(root: StatementView) -> Result<Seq<char>, GenError> {
    match program_emission(root, 0).error {
        Some(error) => Err(error),
        None => Ok(render(program_emission(root, 0).lines)),
    }
}

/// How a run of the generator ends after the given emission.
pub open spec fn outcome(e: Emission) -> Result<(), GenError> {
    match e.error {
        Some(error) => Err(error),
        None => Ok(()),
    }
}

/// The text of two lists of lines, one after the other, is the text of the
/// first followed by the text of the second.
pub proof fn lemma_render_concat(a: Seq<Line>, b: Seq<Line>)
    ensures
        render(a + b) == render(a) + render(b),
    decreases b.len(),
{
    if b.len() > 0 {
        lemma_render_concat(a, b.drop_last());
        assert((a + b).drop_last() =~= a + b.drop_last());
    }
}

/// The text of a single line.
pub proof fn lemma_render_one(line: Line)
    ensures
        render(seq![line]) == line_text(line),
{
    assert(seq![line].drop_last() =~= Seq::<Line>::empty());
    assert(render(Seq::<Line>::empty()) =~= Seq::<char>::empty());
}

/// `chain` is associative.
pub proof fn lemma_chain_assoc(a: Emission, b: Emission, c: Emission)
    ensures
        chain(chain(a, b), c) == chain(a, chain(b, c)),
{
    assert((a.lines + b.lines) + c.lines =~= a.lines + (b.lines + c.lines));
}

/// Whether `deeper` is `shallower` written one nesting level further in:
/// the same lines in the same order, each one level deeper, and the same
/// error, if any.
pub open spec fn one_level_deeper(shallower: Emission, deeper: Emission) -> bool {
    &&& deeper.error == shallower.error
    &&& deeper.lines.len() == shallower.lines.len()
    &&& forall|i: int|
        0 <= i < shallower.lines.len() ==> #[trigger] deeper.lines[i] == (Line {
            level: shallower.lines[i].level + 1,
            code: shallower.lines[i].code,
        })
}

/// The text of a line one level deeper is the text of the line with one
/// indent unit more after its indentation.
pub proof fn law_indent_unit(level: nat, code: Seq<char>)
    ensures
        indent(level + 1) == indent(level) + indent_unit(),
        line_text(Line { level: level + 1, code }) == indent(level) + indent_unit() + code + "\n"@,
{
}

proof fn lemma_deeper_chain(a: Emission, b: Emission, c: Emission, d: Emission)
    requires
        one_level_deeper(a, c),
        a.error is None ==> one_level_deeper(b, d),
    ensures
        one_level_deeper(chain(a, b), chain(c, d)),
{
    if a.error is None {
        assert forall|i: int| 0 <= i < chain(a, b).lines.len() implies #[trigger] chain(
            c,
            d,
        ).lines[i] == (Line {
            level: chain(a, b).lines[i].level + 1,
            code: chain(a, b).lines[i].code,
        }) by {
            if i < a.lines.len() {
                assert(c.lines[i].code == a.lines[i].code);
            } else {
                assert(d.lines[i - a.lines.len()].code == b.lines[i - a.lines.len()].code);
            }
        }
    }
}

proof fn lemma_deeper_properties(ps: Seq<StatementView>, level: nat)
    ensures
        one_level_deeper(properties_emission(ps, level), properties_emission(ps, level + 1)),
    decreases ps.len(),
{
    if ps.len() > 0 {
        lemma_deeper_properties(ps.skip(1), level);
        lemma_deeper_chain(
            property_emission(ps[0], level),
            properties_emission(ps.skip(1), level),
            property_emission(ps[0], level + 1),
            properties_emission(ps.skip(1), level + 1),
        );
    }
}

proof fn lemma_deeper_constructor(body: ExpressionView, level: nat)
    ensures
        one_level_deeper(constructor_emission(body, level), constructor_emission(body, level + 1)),
{
    match body {
        ExpressionView::ClassBody { properties, .. } => {
            lemma_deeper_properties(properties, level + 1);
            lemma_deeper_chain(
                properties_emission(properties, level + 1),
                one_line(level + 1, return_code("self"@)),
                properties_emission(properties, level + 2),
                one_line(level + 2, return_code("self"@)),
            );
            lemma_deeper_chain(
                one_line(level + 1, declaration_code(true, "self"@, "{}"@, None)),
                chain(
                    properties_emission(properties, level + 1),
                    one_line(level + 1, return_code("self"@)),
                ),
                one_line(level + 2, declaration_code(true, "self"@, "{}"@, None)),
                chain(
                    properties_emission(properties, level + 2),
                    one_line(level + 2, return_code("self"@)),
                ),
            );
        },
        _ => {},
    }
}

proof fn lemma_deeper_statement(s: StatementView, level: nat)
    ensures
        one_level_deeper(statement_emission(s, level), statement_emission(s, level + 1)),
    decreases s, 0nat,
{
    match s {
        StatementView::If { expr, body } => {
            if renderable(expr) {
                lemma_deeper_body(*body, level);
                lemma_deeper_chain(
                    body_emission(*body, level),
                    one_line(level, "end"@),
                    body_emission(*body, level + 1),
                    one_line(level + 1, "end"@),
                );
                lemma_deeper_chain(
                    one_line(level, if_code(expression_text(expr))),
                    chain(body_emission(*body, level), one_line(level, "end"@)),
                    one_line(level + 1, if_code(expression_text(expr))),
                    chain(body_emission(*body, level + 1), one_line(level + 1, "end"@)),
                );
            }
        },
        StatementView::Scope(stmts) => {
            lemma_deeper_statements(stmts, level + 1);
            lemma_deeper_chain(
                statements_emission(stmts, level + 1),
                one_line(level, "end"@),
                statements_emission(stmts, level + 2),
                one_line(level + 1, "end"@),
            );
            lemma_deeper_chain(
                one_line(level, "do"@),
                chain(statements_emission(stmts, level + 1), one_line(level, "end"@)),
                one_line(level + 1, "do"@),
                chain(statements_emission(stmts, level + 2), one_line(level + 1, "end"@)),
            );
        },
        StatementView::ClassConstructor { ident, body } => {
            if renderable(ident) {
                let name = expression_text(ident);
                let head = written(
                    seq![
                        Line { level, code: declaration_code(true, name, "{}"@, None) },
                        Line { level, code: function_code(false, name + ".new"@, Seq::empty()) },
                    ],
                );
                let deeper_head = written(
                    seq![
                        Line { level: level + 1, code: declaration_code(true, name, "{}"@, None) },
                        Line {
                            level: level + 1,
                            code: function_code(false, name + ".new"@, Seq::empty()),
                        },
                    ],
                );
                lemma_deeper_constructor(body, level);
                lemma_deeper_chain(
                    constructor_emission(body, level),
                    one_line(level, "end"@),
                    constructor_emission(body, level + 1),
                    one_line(level + 1, "end"@),
                );
                lemma_deeper_chain(
                    head,
                    chain(constructor_emission(body, level), one_line(level, "end"@)),
                    deeper_head,
                    chain(constructor_emission(body, level + 1), one_line(level + 1, "end"@)),
                );
            }
        },
        StatementView::VariableDeclaration { ident, value } => {
            lemma_deeper_declaration(true, ident, value, level);
        },
        StatementView::VariableAssignment { ident, value } => {
            lemma_deeper_declaration(false, ident, value, level);
        },
        _ => {},
    }
}

proof fn lemma_deeper_declaration(
    local: bool,
    ident: ExpressionView,
    value: ExpressionView,
    level: nat,
)
    ensures
        one_level_deeper(
            declaration_emission(local, ident, value, level),
            declaration_emission(local, ident, value, level + 1),
        ),
    decreases value, 0nat,
{
    match value {
        ExpressionView::Function { params, stmt } => {
            if parameters_ok(params) && renderable(ident) {
                let code = function_code(local, expression_text(ident), parameter_codes(params));
                lemma_deeper_body(*stmt, level);
                lemma_deeper_chain(
                    body_emission(*stmt, level),
                    one_line(level, "end"@),
                    body_emission(*stmt, level + 1),
                    one_line(level + 1, "end"@),
                );
                lemma_deeper_chain(
                    one_line(level, code),
                    chain(body_emission(*stmt, level), one_line(level, "end"@)),
                    one_line(level + 1, code),
                    chain(body_emission(*stmt, level + 1), one_line(level + 1, "end"@)),
                );
            }
        },
        _ => {},
    }
}

proof fn lemma_deeper_body(body: StatementView, level: nat)
    ensures
        one_level_deeper(body_emission(body, level), body_emission(body, level + 1)),
    decreases body, 1nat,
{
    match body {
        StatementView::Scope(stmts) => {
            lemma_deeper_statements(stmts, level + 1);
        },
        _ => {
            lemma_deeper_statement(body, level + 1);
        },
    }
}

proof fn lemma_deeper_statements(stmts: Seq<StatementView>, level: nat)
    ensures
        one_level_deeper(statements_emission(stmts, level), statements_emission(stmts, level + 1)),
    decreases stmts, 0nat,
{
    if stmts.len() > 0 {
        let rest = stmts.subrange(1, stmts.len() as int);
        lemma_deeper_statement(stmts[0], level);
        lemma_deeper_statements(rest, level);
        lemma_deeper_chain(
            statement_emission(stmts[0], level),
            statements_emission(rest, level),
            statement_emission(stmts[0], level + 1),
            statements_emission(rest, level + 1),
        );
    }
}

/// Nesting moves a statement in by exactly one level: what is written for
/// a statement one level deeper is what is written for it at the level
/// above, line for line, with every line one level deeper.
pub proof fn law_nesting_is_one_level(s: StatementView, level: nat)
    ensures
        one_level_deeper(statement_emission(s, level), statement_emission(s, level + 1)),
{
    lemma_deeper_statement(s, level);
}

/// A scope is written as `do`, its statements one level deeper, and `end`;
/// and of two scopes, one in the other, the inner one is closed first. The
/// inner statements stand two levels below the outer `do`.
pub proof fn law_scopes_close_in_reverse(inner: Seq<StatementView>, level: nat)
    requires
        statements_emission(inner, level + 2).error is None,
    ensures
        statement_emission(
            StatementView::Scope(seq![StatementView::Scope(inner)]),
            level,
        ) == written(
            seq![Line { level, code: "do"@ }, Line { level: level + 1, code: "do"@ }]
                + statements_emission(inner, level + 2).lines + seq![
                Line { level: level + 1, code: "end"@ },
                Line { level, code: "end"@ },
            ],
        ),
{
    let inner_scope = StatementView::Scope(inner);
    let outer = seq![inner_scope];
    let middle = statements_emission(inner, level + 2);
    let inner_emission = statement_emission(inner_scope, level + 1);
    assert(inner_emission.lines =~= seq![Line { level: level + 1, code: "do"@ }] + middle.lines
        + seq![Line { level: level + 1, code: "end"@ }]);
    assert(statements_emission(outer, level + 1).lines =~= inner_emission.lines) by {
        reveal_with_fuel(statements_emission, 2);
    }
    assert(statements_emission(outer, level + 1).error is None) by {
        reveal_with_fuel(statements_emission, 2);
    }
    assert(statement_emission(StatementView::Scope(outer), level).lines =~= seq![
        Line { level, code: "do"@ },
        Line { level: level + 1, code: "do"@ },
    ] + middle.lines + seq![
        Line { level: level + 1, code: "end"@ },
        Line { level, code: "end"@ },
    ]);
}

/// Whether a value has a type is read off the value as it is written, and
/// nothing else: a declaration whose value is a bare name is written
/// without a type, whatever the name stands for.
pub proof fn law_alias_has_no_type(target: Seq<char>, name: Seq<char>, level: nat)
    ensures
        statement_emission(
            StatementView::VariableDeclaration {
                ident: ExpressionView::Identifier(target),
                value: ExpressionView::Identifier(name),
            },
            level,
        ) == one_line(level, "local "@ + target + " = "@ + name),
{
}

/// A declaration whose value is a number is written with the type
/// `number`, and the number as it stands.
pub proof fn law_number_is_typed(target: Seq<char>, digits: Seq<char>, level: nat)
    ensures
        statement_emission(
            StatementView::VariableDeclaration {
                ident: ExpressionView::Identifier(target),
                value: ExpressionView::Number(digits),
            },
            level,
        ) == one_line(level, "local "@ + target + ": "@ + "number"@ + " = "@ + digits),
{
}

/// A connective is written between its operands, and nothing is put around
/// them: the text of `a and (b or c)` is `a and b or c`.
pub proof fn law_connectives_are_infix(a: ExpressionView, b: ExpressionView, c: ExpressionView)
    ensures
        expression_text(ExpressionView::And(Box::new(a), Box::new(b))) == expression_text(a)
            + " and "@ + expression_text(b),
        expression_text(ExpressionView::Or(Box::new(a), Box::new(b))) == expression_text(a)
            + " or "@ + expression_text(b),
        expression_text(
            ExpressionView::And(Box::new(a), Box::new(ExpressionView::Or(Box::new(b), Box::new(c)))),
        ) == expression_text(a) + " and "@ + (expression_text(b) + " or "@ + expression_text(c)),
        renderable(ExpressionView::And(Box::new(a), Box::new(b))) == (renderable(a) && renderable(
            b,
        )),
{
    reveal_with_fuel(expression_text, 2);
}

/// A class is written as the binding of its name to an empty table and a
/// constructor `new` without parameters, which makes the table `self`,
/// assigns the properties to it, and returns it. Its methods are not
/// written.
pub proof fn law_class_shape(
    name: Seq<char>,
    properties: Seq<StatementView>,
    methods: Seq<StatementView>,
    level: nat,
)
    requires
        properties_emission(properties, level + 1).error is None,
    ensures
        statement_emission(
            StatementView::ClassConstructor {
                ident: ExpressionView::Identifier(name),
                body: ExpressionView::ClassBody { properties, methods },
            },
            level,
        ) == written(
            seq![
                Line { level, code: declaration_code(true, name, "{}"@, None) },
                Line { level, code: function_code(false, name + ".new"@, Seq::empty()) },
                Line { level: level + 1, code: declaration_code(true, "self"@, "{}"@, None) },
            ] + properties_emission(properties, level + 1).lines + seq![
                Line { level: level + 1, code: return_code("self"@) },
                Line { level, code: "end"@ },
            ],
        ),
        function_code(false, name + ".new"@, Seq::empty()) == "function "@ + name + ".new"@
            + "("@ + ")"@,
{
    let s = StatementView::ClassConstructor {
        ident: ExpressionView::Identifier(name),
        body: ExpressionView::ClassBody { properties, methods },
    };
    assert(statement_emission(s, level).lines =~= seq![
        Line { level, code: declaration_code(true, name, "{}"@, None) },
        Line { level, code: function_code(false, name + ".new"@, Seq::empty()) },
        Line { level: level + 1, code: declaration_code(true, "self"@, "{}"@, None) },
    ] + properties_emission(properties, level + 1).lines + seq![
        Line { level: level + 1, code: return_code("self"@) },
        Line { level, code: "end"@ },
    ]);
    assert(function_code(false, name + ".new"@, Seq::empty()) =~= "function "@ + name + ".new"@
        + "("@ + ")"@);
}

/// A property whose value is a number is assigned to the field of `self`
/// of its name, with the type `number` after the value.
pub proof fn law_numeric_property(field: Seq<char>, digits: Seq<char>, level: nat)
    ensures
        property_emission(
            StatementView::VariableDeclaration {
                ident: ExpressionView::Identifier(field),
                value: ExpressionView::Number(digits),
            },
            level,
        ) == one_line(level, "self."@ + field + " = "@ + digits + " :: "@ + "number"@),
{
}

} // verus!
