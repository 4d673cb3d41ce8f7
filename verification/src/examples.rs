//! Small programs and what the compiler makes of them, proved from the
//! grammar and from the model of the generator.

use crate::backend::model::{
    declaration_code, function_code, law_class_shape, line_text, one_line, program_text,
    properties_emission, property_emission, render, return_code, statement_emission,
    statements_emission, GenError, Line,
};
use crate::frontend::ast::{ExpressionView, StatementView};
use crate::frontend::grammar::{
    class, class_body, expression, expression_statement, members, methods_of, program,
    properties_of, required_expression, single_expression, statement, statements, variable,
    ParseError, ParseErrorKind, Parsed,
};
use crate::frontend::token::{LiteralView, TokenView};
use crate::{translation, CompileError};
use vstd::prelude::*;

verus! {

/// The text of a program of one statement that is written as one line at
/// the outermost level.
proof fn lemma_one_line_program(statement: StatementView, code: Seq<char>)
    requires
        statement_emission(statement, 0) == one_line(0, code),
    ensures
        program_text(StatementView::Scope(seq![statement])) == Ok::<Seq<char>, GenError>(
            code + "\n"@,
        ),
{
    let stmts = seq![statement];
    let line = Line { level: 0, code };
    assert(stmts.subrange(1, stmts.len() as int) =~= Seq::<StatementView>::empty());
    reveal_with_fuel(statements_emission, 2);
    assert(statements_emission(stmts, 0).lines =~= seq![line]);
    reveal_with_fuel(render, 2);
    assert(seq![line].drop_last() =~= Seq::<Line>::empty());
    assert(render(seq![line]) =~= code + "\n"@);
}

/// `let x = 5` declares a local of type `number` with the value `5`.
pub proof fn example_number_declaration()
    ensures
        translation(
            seq![
                TokenView::Identifier("let"@),
                TokenView::Identifier("x"@),
                TokenView::Equal,
                TokenView::Literal(LiteralView::Number("5"@)),
            ],
        ) == Ok::<Seq<char>, CompileError>("local x: number = 5\n"@),
{
    let ts = seq![
        TokenView::Identifier("let"@),
        TokenView::Identifier("x"@),
        TokenView::Equal,
        TokenView::Literal(LiteralView::Number("5"@)),
    ];
    let x = ExpressionView::Identifier("x"@);
    let five = ExpressionView::Number("5"@);
    let declaration = StatementView::VariableDeclaration { ident: x, value: five };
    assert(program(ts) == Ok::<StatementView, ParseError>(
        StatementView::Scope(seq![declaration]),
    )) by {
        reveal_with_fuel(statements, 2);
        reveal(statement);
        reveal(variable);
        reveal(required_expression);
        reveal(expression);
        reveal(single_expression);
        assert(ts.len() == 4);
        assert(ts[0] == TokenView::Identifier("let"@));
        assert(ts[1] == TokenView::Identifier("x"@));
        assert(ts[2] == TokenView::Equal);
        assert(ts[3] == TokenView::Literal(LiteralView::Number("5"@)));
        assert(required_expression(ts, 1) == (Parsed::Done { value: x, next: 2 }));
        assert(required_expression(ts, 3) == (Parsed::Done { value: five, next: 4 }));
        assert(variable(ts, 1) == (Parsed::Done { value: declaration, next: 4 }));
        assert(statement(ts, 0) == (Parsed::Done { value: Some(declaration), next: 4 }));
        assert(statement(ts, 4) == (Parsed::Done::<Option<StatementView>> {
            value: None,
            next: 4,
        }));
        assert(seq![declaration] + Seq::<StatementView>::empty() =~= seq![declaration]);
    }
    let code = declaration_code(true, "x"@, "5"@, Some("number"@));
    lemma_one_line_program(declaration, code);
    assert(code + "\n"@ =~= "local x: number = 5\n"@) by {
        reveal_strlit("local ");
        reveal_strlit("x");
        reveal_strlit(": ");
        reveal_strlit("number");
        reveal_strlit(" = ");
        reveal_strlit("5");
        reveal_strlit("\n");
        reveal_strlit("local x: number = 5\n");
    }
}

/// `let y = x` declares a local without a type: the value is a bare name.
pub proof fn example_alias_declaration()
    ensures
        translation(
            seq![
                TokenView::Identifier("let"@),
                TokenView::Identifier("y"@),
                TokenView::Equal,
                TokenView::Identifier("x"@),
            ],
        ) == Ok::<Seq<char>, CompileError>("local y = x\n"@),
{
    let ts = seq![
        TokenView::Identifier("let"@),
        TokenView::Identifier("y"@),
        TokenView::Equal,
        TokenView::Identifier("x"@),
    ];
    let y = ExpressionView::Identifier("y"@);
    let x = ExpressionView::Identifier("x"@);
    let declaration = StatementView::VariableDeclaration { ident: y, value: x };
    assert(program(ts) == Ok::<StatementView, ParseError>(
        StatementView::Scope(seq![declaration]),
    )) by {
        reveal_with_fuel(statements, 2);
        reveal(statement);
        reveal(variable);
        reveal(required_expression);
        reveal(expression);
        reveal(single_expression);
        assert(ts.len() == 4);
        assert(ts[0] == TokenView::Identifier("let"@));
        assert(ts[1] == TokenView::Identifier("y"@));
        assert(ts[2] == TokenView::Equal);
        assert(ts[3] == TokenView::Identifier("x"@));
        assert(required_expression(ts, 1) == (Parsed::Done { value: y, next: 2 }));
        assert(required_expression(ts, 3) == (Parsed::Done { value: x, next: 4 }));
        assert(variable(ts, 1) == (Parsed::Done { value: declaration, next: 4 }));
        assert(statement(ts, 0) == (Parsed::Done { value: Some(declaration), next: 4 }));
        assert(statement(ts, 4) == (Parsed::Done::<Option<StatementView>> {
            value: None,
            next: 4,
        }));
        assert(seq![declaration] + Seq::<StatementView>::empty() =~= seq![declaration]);
    }
    let code = declaration_code(true, "y"@, "x"@, None);
    lemma_one_line_program(declaration, code);
    assert(code + "\n"@ =~= "local y = x\n"@) by {
        reveal_strlit("local ");
        reveal_strlit("y");
        reveal_strlit(" = ");
        reveal_strlit("x");
        reveal_strlit("\n");
        reveal_strlit("local y = x\n");
    }
}

/// `let x =` is a syntax error: an expression is expected where the input
/// ends, and there is no text.
pub proof fn example_declaration_without_value()
    ensures
        translation(
            seq![TokenView::Identifier("let"@), TokenView::Identifier("x"@), TokenView::Equal],
        ) == Err::<Seq<char>, CompileError>(
            CompileError::Syntax(ParseError { kind: ParseErrorKind::ExpectedExpression, at: 3 }),
        ),
{
    let ts = seq![TokenView::Identifier("let"@), TokenView::Identifier("x"@), TokenView::Equal];
    let x = ExpressionView::Identifier("x"@);
    reveal(statements);
    reveal(statement);
    reveal(variable);
    reveal(required_expression);
    reveal(expression);
    reveal(single_expression);
    assert(ts.len() == 3);
    assert(ts[0] == TokenView::Identifier("let"@));
    assert(ts[1] == TokenView::Identifier("x"@));
    assert(ts[2] == TokenView::Equal);
    assert(required_expression(ts, 1) == (Parsed::Done { value: x, next: 2 }));
    assert(required_expression(ts, 3) == (Parsed::Failed::<ExpressionView> {
        kind: ParseErrorKind::ExpectedExpression,
        at: 3,
    }));
    assert(variable(ts, 1) == (Parsed::Failed::<StatementView> {
        kind: ParseErrorKind::ExpectedExpression,
        at: 3,
    }));
    assert(statement(ts, 0) == (Parsed::Failed::<Option<StatementView>> {
        kind: ParseErrorKind::ExpectedExpression,
        at: 3,
    }));
}

/// `a and b or c` is read as `a and (b or c)`, and written as it was read.
pub proof fn example_connectives()
    ensures
        translation(
            seq![
                TokenView::Identifier("a"@),
                TokenView::And,
                TokenView::Identifier("b"@),
                TokenView::Or,
                TokenView::Identifier("c"@),
            ],
        ) == Ok::<Seq<char>, CompileError>("local _ = a and b or c\n"@),
        program(
            seq![
                TokenView::Identifier("a"@),
                TokenView::And,
                TokenView::Identifier("b"@),
                TokenView::Or,
                TokenView::Identifier("c"@),
            ],
        ) == Ok::<StatementView, ParseError>(
            StatementView::Scope(
                seq![
                    StatementView::VariableDeclaration {
                        ident: ExpressionView::Identifier("_"@),
                        value: ExpressionView::And(
                            Box::new(ExpressionView::Identifier("a"@)),
                            Box::new(
                                ExpressionView::Or(
                                    Box::new(ExpressionView::Identifier("b"@)),
                                    Box::new(ExpressionView::Identifier("c"@)),
                                ),
                            ),
                        ),
                    },
                ],
            ),
        ),
{
    let ts = seq![
        TokenView::Identifier("a"@),
        TokenView::And,
        TokenView::Identifier("b"@),
        TokenView::Or,
        TokenView::Identifier("c"@),
    ];
    let a = ExpressionView::Identifier("a"@);
    let b = ExpressionView::Identifier("b"@);
    let c = ExpressionView::Identifier("c"@);
    let b_or_c = ExpressionView::Or(Box::new(b), Box::new(c));
    let whole = ExpressionView::And(Box::new(a), Box::new(b_or_c));
    let declaration = StatementView::VariableDeclaration {
        ident: ExpressionView::Identifier("_"@),
        value: whole,
    };
    assert(program(ts) == Ok::<StatementView, ParseError>(
        StatementView::Scope(seq![declaration]),
    )) by {
        reveal_with_fuel(statements, 2);
        reveal(statement);
        reveal(expression_statement);
        reveal(required_expression);
        reveal(expression);
        reveal(single_expression);
        reveal_strlit("a");
        reveal_strlit("let");
        reveal_strlit("class");
        reveal_strlit("if");
        reveal_strlit("return");
        assert(ts.len() == 5);
        assert(ts[0] == TokenView::Identifier("a"@));
        assert(ts[1] == TokenView::And);
        assert(ts[2] == TokenView::Identifier("b"@));
        assert(ts[3] == TokenView::Or);
        assert(ts[4] == TokenView::Identifier("c"@));
        assert(single_expression(ts, 4) == (Parsed::Done { value: Some(c), next: 5 }));
        assert(required_expression(ts, 4) == (Parsed::Done { value: c, next: 5 }));
        assert(single_expression(ts, 2) == (Parsed::Done { value: Some(b), next: 3 }));
        assert(required_expression(ts, 2) == (Parsed::Done { value: b_or_c, next: 5 }));
        assert(single_expression(ts, 0) == (Parsed::Done { value: Some(a), next: 1 }));
        assert(required_expression(ts, 0) == (Parsed::Done { value: whole, next: 5 }));
        assert("a"@.len() == 1);
        assert(expression_statement(ts, 0) == (Parsed::Done { value: declaration, next: 5 }));
        assert(statement(ts, 0) == (Parsed::Done { value: Some(declaration), next: 5 }));
        assert(statement(ts, 5) == (Parsed::Done::<Option<StatementView>> {
            value: None,
            next: 5,
        }));
        assert(seq![declaration] + Seq::<StatementView>::empty() =~= seq![declaration]);
    }
    let text = "a"@ + " and "@ + ("b"@ + " or "@ + "c"@);
    let code = declaration_code(true, "_"@, text, None);
    assert(statement_emission(declaration, 0) == one_line(0, code)) by {
        reveal_with_fuel(crate::backend::model::expression_text, 3);
        reveal_with_fuel(crate::backend::model::renderable, 3);
        reveal_with_fuel(crate::backend::model::typeable, 3);
        reveal_with_fuel(crate::backend::model::inferred_type, 3);
    }
    lemma_one_line_program(declaration, code);
    assert(code + "\n"@ =~= "local _ = a and b or c\n"@) by {
        reveal_strlit("local ");
        reveal_strlit("_");
        reveal_strlit(" = ");
        reveal_strlit("a");
        reveal_strlit(" and ");
        reveal_strlit("b");
        reveal_strlit(" or ");
        reveal_strlit("c");
        reveal_strlit("\n");
        reveal_strlit("local _ = a and b or c\n");
    }
}

/// The tokens of `class Foo { bar = 1 }`.
pub open spec fn class_tokens() -> Seq<TokenView> {
    seq![
        TokenView::Identifier("class"@),
        TokenView::Identifier("Foo"@),
        TokenView::LScope,
        TokenView::Identifier("bar"@),
        TokenView::Equal,
        TokenView::Literal(LiteralView::Number("1"@)),
        TokenView::RScope,
    ]
}

/// The property `bar = 1`.
pub open spec fn class_property() -> StatementView {
    StatementView::VariableDeclaration {
        ident: ExpressionView::Identifier("bar"@),
        value: ExpressionView::Number("1"@),
    }
}

/// The tree of `class Foo { bar = 1 }`: a class with one property and no
/// method.
pub open spec fn class_tree() -> StatementView {
    StatementView::Scope(
        seq![
            StatementView::ClassConstructor {
                ident: ExpressionView::Identifier("Foo"@),
                body: ExpressionView::ClassBody {
                    properties: seq![class_property()],
                    methods: Seq::empty(),
                },
            },
        ],
    )
}

/// The lines of `class Foo { bar = 1 }`.
pub open spec fn class_lines() -> Seq<Line> {
    seq![
        Line { level: 0, code: declaration_code(true, "Foo"@, "{}"@, None) },
        Line { level: 0, code: function_code(false, "Foo"@ + ".new"@, Seq::empty()) },
        Line { level: 1, code: declaration_code(true, "self"@, "{}"@, None) },
        Line { level: 1, code: declaration_code(false, "self."@ + "bar"@, "1"@, Some("number"@)) },
        Line { level: 1, code: return_code("self"@) },
        Line { level: 0, code: "end"@ },
    ]
}

/// `class Foo { bar = 1 }` is read as a class with the property `bar`.
#[verifier::spinoff_prover]
pub proof fn example_class_tree()
    ensures
        program(class_tokens()) == Ok::<StatementView, ParseError>(class_tree()),
{
    let ts = class_tokens();
    let foo = ExpressionView::Identifier("Foo"@);
    let bar = ExpressionView::Identifier("bar"@);
    let one = ExpressionView::Number("1"@);
    let property = class_property();
    let body = ExpressionView::ClassBody {
        properties: seq![property],
        methods: Seq::<StatementView>::empty(),
    };
    let constructor = StatementView::ClassConstructor { ident: foo, body };
    assert(ts.len() == 7);
    assert(ts[0] == TokenView::Identifier("class"@));
    assert(ts[1] == TokenView::Identifier("Foo"@));
    assert(ts[2] == TokenView::LScope);
    assert(ts[3] == TokenView::Identifier("bar"@));
    assert(ts[4] == TokenView::Equal);
    assert(ts[5] == TokenView::Literal(LiteralView::Number("1"@)));
    assert(ts[6] == TokenView::RScope);
    assert(required_expression(ts, 1) == (Parsed::Done { value: foo, next: 2 })) by {
        reveal(required_expression);
        reveal(expression);
        reveal(single_expression);
        assert(single_expression(ts, 1) == (Parsed::Done { value: Some(foo), next: 2 }));
    }
    assert(required_expression(ts, 3) == (Parsed::Done { value: bar, next: 4 })) by {
        reveal(required_expression);
        reveal(expression);
        reveal(single_expression);
    }
    assert(required_expression(ts, 5) == (Parsed::Done { value: one, next: 6 })) by {
        reveal(required_expression);
        reveal(expression);
        reveal(single_expression);
    }
    assert(variable(ts, 3) == (Parsed::Done { value: property, next: 6 })) by {
        reveal(variable);
        reveal(required_expression);
    }
    assert(members(ts, 3) == (Parsed::Done { value: seq![property], next: 6 })) by {
        reveal_with_fuel(members, 2);
        reveal(variable);
        assert(seq![property] + Seq::<StatementView>::empty() =~= seq![property]);
    }
    assert(seq![property].drop_last() =~= Seq::<StatementView>::empty());
    assert(properties_of(seq![property]) =~= seq![property]) by {
        reveal_with_fuel(properties_of, 2);
    }
    assert(methods_of(seq![property]) =~= Seq::<StatementView>::empty()) by {
        reveal_with_fuel(methods_of, 2);
    }
    assert(class_body(ts, 2) == (Parsed::Done { value: body, next: 7 })) by {
        reveal(class_body);
        reveal(members);
    }
    assert(class(ts, 1) == (Parsed::Done { value: constructor, next: 7 })) by {
        reveal(class);
        reveal(required_expression);
        reveal(class_body);
    }
    assert(statement(ts, 0) == (Parsed::Done { value: Some(constructor), next: 7 })) by {
        reveal(statement);
        reveal(class);
        reveal_strlit("class");
        reveal_strlit("let");
        assert("class"@.len() == 5 && "let"@.len() == 3);
    }
    assert(statement(ts, 7) == (Parsed::Done::<Option<StatementView>> { value: None, next: 7 }))
        by {
        reveal(statement);
    }
    assert(statements(ts, 0) == (Parsed::Done { value: seq![constructor], next: 7 })) by {
        reveal_with_fuel(statements, 2);
        reveal(statement);
        assert(seq![constructor] + Seq::<StatementView>::empty() =~= seq![constructor]);
    }
}

/// The class is written as six lines, three of them inside the constructor.
#[verifier::spinoff_prover]
pub proof fn example_class_lines()
    ensures
        program_text(class_tree()) == Ok::<Seq<char>, GenError>(render(class_lines())),
{
    let property = class_property();
    let constructor = class_tree()->Scope_0[0];
    let assignment = class_lines()[3];
    assert(properties_emission(seq![property], 1) == crate::backend::model::written(
        seq![assignment],
    )) by {
        reveal_with_fuel(properties_emission, 2);
        assert(seq![property].skip(1) =~= Seq::<StatementView>::empty());
        assert(property_emission(property, 1) == one_line(1, assignment.code));
        assert(properties_emission(seq![property], 1).lines =~= seq![assignment]);
    }
    law_class_shape("Foo"@, seq![property], Seq::empty(), 0);
    assert(statement_emission(constructor, 0).lines =~= class_lines());
    let stmts = seq![constructor];
    assert(stmts.subrange(1, stmts.len() as int) =~= Seq::<StatementView>::empty());
    assert(statements_emission(stmts, 0).lines =~= class_lines() && statements_emission(
        stmts,
        0,
    ).error is None) by {
        reveal_with_fuel(statements_emission, 2);
    }
}

/// The text of a list of lines with one more line at its end.
proof fn lemma_render_push(lines: Seq<Line>, line: Line)
    ensures
        render(lines.push(line)) == render(lines) + line_text(line),
{
    assert(lines.push(line).drop_last() =~= lines);
}

/// The six lines of the class, as text.
#[verifier::spinoff_prover]
pub proof fn example_class_text()
    ensures
        render(class_lines())
            == "local Foo = {}\nfunction Foo.new()\n    local self = {}\n    self.bar = 1 :: number\n    return self\nend\n"@,
{
    let lines = class_lines();
    let none = Seq::<Line>::empty();
    assert(render(none) =~= Seq::<char>::empty());
    lemma_render_push(none, lines[0]);
    lemma_render_push(none.push(lines[0]), lines[1]);
    lemma_render_push(none.push(lines[0]).push(lines[1]), lines[2]);
    lemma_render_push(none.push(lines[0]).push(lines[1]).push(lines[2]), lines[3]);
    lemma_render_push(none.push(lines[0]).push(lines[1]).push(lines[2]).push(lines[3]), lines[4]);
    lemma_render_push(
        none.push(lines[0]).push(lines[1]).push(lines[2]).push(lines[3]).push(lines[4]),
        lines[5],
    );
    assert(none.push(lines[0]).push(lines[1]).push(lines[2]).push(lines[3]).push(lines[4]).push(
        lines[5],
    ) =~= lines);
    assert(line_text(lines[0]) =~= "local Foo = {}\n"@) by {
        reveal_strlit("local ");
        reveal_strlit("Foo");
        reveal_strlit(" = ");
        reveal_strlit("{}");
        reveal_strlit("\n");
        reveal_strlit("local Foo = {}\n");
    }
    assert(line_text(lines[1]) =~= "function Foo.new()\n"@) by {
        reveal_strlit("function ");
        reveal_strlit("Foo");
        reveal_strlit(".new");
        reveal_strlit("(");
        reveal_strlit(")");
        reveal_strlit("\n");
        reveal_strlit("function Foo.new()\n");
    }
    assert(line_text(lines[2]) =~= "    local self = {}\n"@) by {
        reveal_with_fuel(crate::backend::model::indent, 2);
        reveal_strlit("    ");
        reveal_strlit("local ");
        reveal_strlit("self");
        reveal_strlit(" = ");
        reveal_strlit("{}");
        reveal_strlit("\n");
        reveal_strlit("    local self = {}\n");
    }
    assert(line_text(lines[3]) =~= "    self.bar = 1 :: number\n"@) by {
        reveal_with_fuel(crate::backend::model::indent, 2);
        reveal_strlit("    ");
        reveal_strlit("self.");
        reveal_strlit("bar");
        reveal_strlit(" = ");
        reveal_strlit("1");
        reveal_strlit(" :: ");
        reveal_strlit("number");
        reveal_strlit("\n");
        reveal_strlit("    self.bar = 1 :: number\n");
    }
    assert(line_text(lines[4]) =~= "    return self\n"@) by {
        reveal_with_fuel(crate::backend::model::indent, 2);
        reveal_strlit("    ");
        reveal_strlit("return ");
        reveal_strlit("self");
        reveal_strlit("\n");
        reveal_strlit("    return self\n");
    }
    assert(line_text(lines[5]) =~= "end\n"@) by {
        reveal_strlit("end");
        reveal_strlit("\n");
        reveal_strlit("end\n");
    }
    assert("local Foo = {}\n"@ + "function Foo.new()\n"@ + "    local self = {}\n"@
        + "    self.bar = 1 :: number\n"@ + "    return self\n"@ + "end\n"@
        =~= "local Foo = {}\nfunction Foo.new()\n    local self = {}\n    self.bar = 1 :: number\n    return self\nend\n"@)
        by {
        reveal_strlit("local Foo = {}\n");
        reveal_strlit("function Foo.new()\n");
        reveal_strlit("    local self = {}\n");
        reveal_strlit("    self.bar = 1 :: number\n");
        reveal_strlit("    return self\n");
        reveal_strlit("end\n");
        reveal_strlit(
            "local Foo = {}\nfunction Foo.new()\n    local self = {}\n    self.bar = 1 :: number\n    return self\nend\n",
        );
    }
}

/// `class Foo { bar = 1 }` binds `Foo` to an empty table and defines the
/// constructor `Foo.new`, which makes `self`, assigns `1` to `self.bar` as
/// a `number`, and returns `self`.
pub proof fn example_class()
    ensures
        translation(class_tokens()) == Ok::<Seq<char>, CompileError>(
            "local Foo = {}\nfunction Foo.new()\n    local self = {}\n    self.bar = 1 :: number\n    return self\nend\n"@,
        ),
{
    example_class_tree();
    example_class_lines();
    example_class_text();
}

} // verus!
