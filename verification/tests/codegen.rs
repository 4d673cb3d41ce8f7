use luau_compiler::backend::codegen::{generate, CodeGen, GenType};
use luau_compiler::backend::model::GenError;
use luau_compiler::frontend::ast::{Expression, Statement};

fn name(text: &str) -> Expression {
    Expression::Identifier(text.to_string())
}

fn number(digits: &str) -> Expression {
    Expression::Number(digits.to_string())
}

fn boxed(text: &str) -> Box<Expression> {
    Box::new(name(text))
}

fn declare(target: &str, value: Expression) -> Statement {
    Statement::VariableDeclaration { ident: name(target), value }
}

fn assign(target: Expression, value: Expression) -> Statement {
    Statement::VariableAssignment { ident: target, value }
}

fn parameter(text: &str, expected_type: Option<Expression>) -> Expression {
    Expression::Parameter { ident: boxed(text), expected_type: Box::new(expected_type) }
}

fn function(params: Vec<Expression>, body: Vec<Statement>) -> Expression {
    Expression::Function { params, stmt: Box::new(Statement::Scope(body)) }
}

fn text_of(statements: Vec<Statement>) -> Result<String, GenError> {
    generate(Statement::Scope(statements))
}

fn written(code: GenType) -> String {
    let mut generator = CodeGen::new(Statement::Scope(vec![]));
    generator.write(code);
    generator.src
}

fn s(text: &str) -> String {
    text.to_string()
}

#[test]
fn an_empty_program_has_no_text() {
    assert_eq!(text_of(vec![]), Ok(s("")));
}

#[test]
fn the_root_must_be_a_scope() {
    assert_eq!(generate(Statement::Return(name("x"))), Err(GenError::RootNotScope));
    assert_eq!(generate(Statement::Luau(s("x"))), Err(GenError::RootNotScope));
}

#[test]
fn a_number_is_declared_with_its_type() {
    assert_eq!(text_of(vec![declare("x", number("5"))]), Ok(s("local x: number = 5\n")));
}

#[test]
fn an_identifier_is_declared_without_a_type() {
    assert_eq!(text_of(vec![declare("y", name("x"))]), Ok(s("local y = x\n")));
}

#[test]
fn literals_show_their_types() {
    assert_eq!(
        text_of(vec![
            declare("a", Expression::String(s("hi"))),
            declare("b", Expression::Char('c')),
            declare("c", Expression::Bool(true)),
            declare("d", Expression::Bool(false)),
            declare("e", number("1.5")),
        ]),
        Ok(s("local a: string = \"hi\"\nlocal b: string = \"c\"\nlocal c: boolean = true\nlocal d: boolean = false\nlocal e: number = 1.5\n"))
    );
}

#[test]
fn calls_and_indexings_show_no_type() {
    assert_eq!(
        text_of(vec![
            declare("a", Expression::FunctionCall { ident: boxed("f"), args: vec![] }),
            declare("b", Expression::Indexing(boxed("x"), boxed("y"))),
        ]),
        Ok(s("local a = f()\nlocal b = x.y\n"))
    );
}

#[test]
fn a_connective_has_the_type_of_its_right_operand() {
    assert_eq!(
        text_of(vec![
            declare("a", Expression::And(boxed("x"), Box::new(number("1")))),
            declare("b", Expression::Or(Box::new(number("1")), boxed("x"))),
            declare(
                "c",
                Expression::And(
                    boxed("x"),
                    Box::new(Expression::Or(boxed("y"), Box::new(Expression::Bool(true))))
                )
            ),
        ]),
        Ok(s("local a: number = x and 1\nlocal b = 1 or x\nlocal c: boolean = x and y or true\n"))
    );
}

#[test]
fn connectives_are_written_infix() {
    assert_eq!(
        CodeGen::expr_to_value(&Expression::And(boxed("a"), boxed("b"))),
        Ok(s("a and b"))
    );
    assert_eq!(
        CodeGen::expr_to_value(&Expression::Or(boxed("a"), boxed("b"))),
        Ok(s("a or b"))
    );
    assert_eq!(
        CodeGen::expr_to_value(&Expression::And(
            boxed("a"),
            Box::new(Expression::Or(boxed("b"), boxed("c")))
        )),
        Ok(s("a and b or c"))
    );
}

#[test]
fn expressions_have_their_text() {
    assert_eq!(CodeGen::expr_to_value(&name("x")), Ok(s("x")));
    assert_eq!(CodeGen::expr_to_value(&number("3.25")), Ok(s("3.25")));
    assert_eq!(CodeGen::expr_to_value(&Expression::String(s("a b"))), Ok(s("\"a b\"")));
    assert_eq!(CodeGen::expr_to_value(&Expression::Char('\'')), Ok(s("\"'\"")));
    assert_eq!(CodeGen::expr_to_value(&Expression::Bool(true)), Ok(s("true")));
    assert_eq!(CodeGen::expr_to_value(&Expression::Bool(false)), Ok(s("false")));
    assert_eq!(
        CodeGen::expr_to_value(&parameter("p", Some(name("number")))),
        Ok(s("p"))
    );
    assert_eq!(
        CodeGen::expr_to_value(&Expression::Indexing(
            boxed("a"),
            Box::new(Expression::Indexing(boxed("b"), boxed("c")))
        )),
        Ok(s("a.b.c"))
    );
}

#[test]
fn calls_join_their_arguments_with_commas() {
    let call = |args| Expression::FunctionCall { ident: boxed("f"), args };
    assert_eq!(CodeGen::expr_to_value(&call(vec![])), Ok(s("f()")));
    assert_eq!(CodeGen::expr_to_value(&call(vec![name("a")])), Ok(s("f(a)")));
    assert_eq!(
        CodeGen::expr_to_value(&call(vec![name("a"), number("1"), Expression::String(s("x"))])),
        Ok(s("f(a, 1, \"x\")"))
    );
    assert_eq!(
        CodeGen::expr_to_value(&Expression::FunctionCall {
            ident: Box::new(Expression::Indexing(boxed("a"), boxed("b"))),
            args: vec![call(vec![name("c")])],
        }),
        Ok(s("a.b(f(c))"))
    );
}

#[test]
fn some_kinds_of_expression_have_no_text() {
    let unrenderable = Err(GenError::UnrenderableExpression);
    assert_eq!(CodeGen::expr_to_value(&function(vec![], vec![])), unrenderable);
    assert_eq!(
        CodeGen::expr_to_value(&Expression::ClassBody { properties: vec![], methods: vec![] }),
        unrenderable
    );
    assert_eq!(
        CodeGen::expr_to_value(&Expression::MethodCall { ident: boxed("m"), args: vec![] }),
        unrenderable
    );
    assert_eq!(
        CodeGen::expr_to_value(&Expression::FunctionCall {
            ident: boxed("f"),
            args: vec![name("a"), function(vec![], vec![])],
        }),
        unrenderable
    );
    assert_eq!(
        CodeGen::expr_to_value(&Expression::And(boxed("a"), Box::new(function(vec![], vec![])))),
        unrenderable
    );
    assert_eq!(
        CodeGen::indexing_to_value(&name("a"), &function(vec![], vec![])),
        unrenderable
    );
}

#[test]
fn indexing_puts_a_dot_between_the_sides() {
    assert_eq!(CodeGen::indexing_to_value(&name("a"), &name("b")), Ok(s("a.b")));
}

#[test]
fn types_are_read_off_the_expression() {
    let generator = CodeGen::new(Statement::Scope(vec![]));
    assert_eq!(generator.expr_to_value_with_type(&number("5")), Ok((Some(s("number")), s("5"))));
    assert_eq!(generator.expr_to_value_with_type(&name("x")), Ok((None, s("x"))));
    assert_eq!(
        generator.expr_to_value_with_type(&Expression::String(s("t"))),
        Ok((Some(s("string")), s("\"t\"")))
    );
    assert_eq!(
        generator.expr_to_value_with_type(&Expression::Char('c')),
        Ok((Some(s("string")), s("\"c\"")))
    );
    assert_eq!(
        generator.expr_to_value_with_type(&Expression::Bool(true)),
        Ok((Some(s("boolean")), s("true")))
    );
    assert_eq!(
        generator.expr_to_value_with_type(&parameter("p", Some(name("Foo")))),
        Ok((Some(s("Foo")), s("p")))
    );
    assert_eq!(generator.expr_to_value_with_type(&parameter("p", None)), Ok((None, s("p"))));
    assert_eq!(
        generator.expr_to_value_with_type(&function(vec![], vec![])),
        Err(GenError::UnrenderableExpression)
    );
    assert_eq!(
        generator
            .expr_to_value_with_type(&Expression::ClassBody { properties: vec![], methods: vec![] }),
        Err(GenError::UnrenderableExpression)
    );
    assert_eq!(
        generator.expr_to_value_with_type(&parameter("p", Some(function(vec![], vec![])))),
        Err(GenError::UnrenderableExpression)
    );
}

#[test]
fn an_assignment_has_its_type_after_the_value() {
    assert_eq!(
        text_of(vec![
            assign(name("x"), number("1")),
            assign(name("y"), name("x")),
            assign(Expression::Indexing(boxed("a"), boxed("b")), Expression::String(s("t"))),
            assign(name("z"), Expression::FunctionCall { ident: boxed("f"), args: vec![] }),
        ]),
        Ok(s("x = 1 :: number\ny = x\na.b = \"t\" :: string\nz = f()\n"))
    );
}

#[test]
fn a_declaration_of_a_member() {
    assert_eq!(
        text_of(vec![
            Statement::VariableDeclaration {
                ident: Expression::Indexing(boxed("a"), boxed("b")),
                value: name("c"),
            },
            Statement::VariableDeclaration {
                ident: Expression::Indexing(boxed("a"), boxed("b")),
                value: number("2"),
            },
        ]),
        Ok(s("local a.b = c\nlocal a.b: number = 2\n"))
    );
}

#[test]
fn a_target_must_be_an_identifier_or_an_indexing() {
    assert_eq!(text_of(vec![assign(number("5"), name("x"))]), Err(GenError::InvalidTarget));
    assert_eq!(text_of(vec![assign(number("5"), number("1"))]), Err(GenError::InvalidTarget));
    assert_eq!(
        text_of(vec![Statement::VariableDeclaration {
            ident: Expression::FunctionCall { ident: boxed("f"), args: vec![] },
            value: number("1"),
        }]),
        Err(GenError::InvalidTarget)
    );
}

#[test]
fn the_value_is_looked_at_before_the_target() {
    assert_eq!(
        text_of(vec![assign(
            number("5"),
            Expression::MethodCall { ident: boxed("m"), args: vec![] }
        )]),
        Err(GenError::UnrenderableExpression)
    );
}

#[test]
fn a_method_call_cannot_be_written() {
    assert_eq!(
        text_of(vec![declare(
            "_",
            Expression::MethodCall {
                ident: Box::new(Expression::Indexing(boxed("a"), boxed("b"))),
                args: vec![],
            }
        )]),
        Err(GenError::UnrenderableExpression)
    );
}

#[test]
fn a_function_declaration_is_a_local_function() {
    assert_eq!(
        text_of(vec![declare(
            "add",
            function(
                vec![parameter("a", Some(name("number"))), parameter("b", None)],
                vec![Statement::Return(name("a"))]
            )
        )]),
        Ok(s("local function add(a: number, b)\n    return a\nend\n"))
    );
}

#[test]
fn a_function_assignment_is_not_local() {
    assert_eq!(
        text_of(vec![assign(
            Expression::Indexing(boxed("M"), boxed("f")),
            function(vec![], vec![])
        )]),
        Ok(s("function M.f()\nend\n"))
    );
}

#[test]
fn a_function_body_that_is_no_scope_is_written_one_level_in() {
    assert_eq!(
        text_of(vec![declare(
            "f",
            Expression::Function {
                params: vec![],
                stmt: Box::new(Statement::Return(name("x"))),
            }
        )]),
        Ok(s("local function f()\n    return x\nend\n"))
    );
}

#[test]
fn a_parameter_that_cannot_be_written_is_an_error() {
    assert_eq!(
        text_of(vec![declare("f", function(vec![function(vec![], vec![])], vec![]))]),
        Err(GenError::UnrenderableExpression)
    );
}

#[test]
fn if_opens_a_conditional() {
    assert_eq!(
        text_of(vec![Statement::If {
            expr: Expression::And(boxed("a"), boxed("b")),
            body: Box::new(Statement::Scope(vec![Statement::Return(number("1"))])),
        }]),
        Ok(s("if a and b then\n    return 1\nend\n"))
    );
}

#[test]
fn if_with_a_body_that_is_no_scope() {
    assert_eq!(
        text_of(vec![Statement::If {
            expr: name("a"),
            body: Box::new(Statement::Return(number("1"))),
        }]),
        Ok(s("if a then\n    return 1\nend\n"))
    );
}

#[test]
fn if_with_a_condition_that_cannot_be_written() {
    assert_eq!(
        text_of(vec![Statement::If {
            expr: function(vec![], vec![]),
            body: Box::new(Statement::Scope(vec![])),
        }]),
        Err(GenError::UnrenderableExpression)
    );
}

#[test]
fn return_writes_its_value() {
    assert_eq!(text_of(vec![Statement::Return(name("nil"))]), Ok(s("return nil\n")));
    assert_eq!(
        text_of(vec![Statement::Return(function(vec![], vec![]))]),
        Err(GenError::UnrenderableExpression)
    );
}

#[test]
fn passthrough_is_written_as_it_stands() {
    assert_eq!(
        text_of(vec![Statement::Luau(s("print(\"hi\")  -- said"))]),
        Ok(s("print(\"hi\")  -- said\n"))
    );
    assert_eq!(
        text_of(vec![Statement::Scope(vec![Statement::Luau(s("a()\nb()"))])]),
        Ok(s("do\n    a()\nb()\nend\n"))
    );
}

#[test]
fn a_scope_is_a_block() {
    assert_eq!(
        text_of(vec![Statement::Scope(vec![declare("x", number("1"))])]),
        Ok(s("do\n    local x: number = 1\nend\n"))
    );
    assert_eq!(text_of(vec![Statement::Scope(vec![])]), Ok(s("do\nend\n")));
}

#[test]
fn nesting_indents_by_one_unit_and_closes_in_reverse() {
    assert_eq!(
        text_of(vec![Statement::Scope(vec![
            Statement::Return(name("a")),
            Statement::Scope(vec![Statement::Return(name("b"))]),
            Statement::Return(name("c")),
        ])]),
        Ok(s("do\n    return a\n    do\n        return b\n    end\n    return c\nend\n"))
    );
}

#[test]
fn a_statement_one_level_deeper_has_every_line_one_unit_further_in() {
    let statement = || Statement::If {
        expr: name("a"),
        body: Box::new(Statement::Scope(vec![
            declare("f", function(vec![], vec![Statement::Return(name("x"))])),
            Statement::Scope(vec![assign(name("y"), number("2"))]),
        ])),
    };
    let shallow = text_of(vec![statement()]).unwrap();
    let deep = text_of(vec![Statement::If {
        expr: name("outer"),
        body: Box::new(statement()),
    }])
    .unwrap();
    let expected: String = shallow.lines().map(|line| format!("    {line}\n")).collect();
    assert_eq!(deep, format!("if outer then\n{expected}end\n"));
}

#[test]
fn a_class_is_a_table_and_a_constructor() {
    assert_eq!(
        text_of(vec![Statement::ClassConstructor {
            ident: name("Foo"),
            body: Expression::ClassBody {
                properties: vec![declare("bar", number("1"))],
                methods: vec![],
            },
        }]),
        Ok(s("local Foo = {}\nfunction Foo.new()\n    local self = {}\n    self.bar = 1 :: number\n    return self\nend\n"))
    );
}

#[test]
fn the_methods_of_a_class_are_not_written() {
    assert_eq!(
        text_of(vec![Statement::ClassConstructor {
            ident: name("Foo"),
            body: Expression::ClassBody {
                properties: vec![
                    declare("a", name("b")),
                    Statement::VariableDeclaration {
                        ident: Expression::Indexing(boxed("self"), boxed("c")),
                        value: Expression::String(s("t")),
                    },
                ],
                methods: vec![declare("get", function(vec![], vec![]))],
            },
        }]),
        Ok(s("local Foo = {}\nfunction Foo.new()\n    local self = {}\n    self.a = b\n    self.c = \"t\" :: string\n    return self\nend\n"))
    );
}

#[test]
fn an_empty_class_in_a_scope() {
    assert_eq!(
        text_of(vec![Statement::Scope(vec![Statement::ClassConstructor {
            ident: name("C"),
            body: Expression::ClassBody { properties: vec![], methods: vec![] },
        }])]),
        Ok(s("do\n    local C = {}\n    function C.new()\n        local self = {}\n        return self\n    end\nend\n"))
    );
}

#[test]
fn the_body_of_a_class_must_be_a_class_body() {
    assert_eq!(
        text_of(vec![Statement::ClassConstructor { ident: name("Foo"), body: number("1") }]),
        Err(GenError::InvalidClassBody)
    );
}

#[test]
fn a_property_must_be_a_declaration() {
    assert_eq!(
        text_of(vec![Statement::ClassConstructor {
            ident: name("Foo"),
            body: Expression::ClassBody {
                properties: vec![Statement::Return(name("x"))],
                methods: vec![],
            },
        }]),
        Err(GenError::InvalidProperty)
    );
    assert_eq!(
        text_of(vec![Statement::ClassConstructor {
            ident: name("Foo"),
            body: Expression::ClassBody {
                properties: vec![assign(name("a"), number("1"))],
                methods: vec![],
            },
        }]),
        Err(GenError::InvalidProperty)
    );
}

#[test]
fn a_property_with_a_target_that_is_no_name() {
    assert_eq!(
        text_of(vec![Statement::ClassConstructor {
            ident: name("Foo"),
            body: Expression::ClassBody {
                properties: vec![Statement::VariableDeclaration {
                    ident: number("1"),
                    value: number("2"),
                }],
                methods: vec![],
            },
        }]),
        Err(GenError::InvalidTarget)
    );
}

#[test]
fn a_class_with_a_name_that_cannot_be_written() {
    assert_eq!(
        text_of(vec![Statement::ClassConstructor {
            ident: function(vec![], vec![]),
            body: Expression::ClassBody { properties: vec![], methods: vec![] },
        }]),
        Err(GenError::UnrenderableExpression)
    );
}

#[test]
fn an_error_leaves_no_text() {
    let mut generator = CodeGen::new(Statement::Scope(vec![
        declare("x", number("1")),
        Statement::Scope(vec![Statement::Return(function(vec![], vec![]))]),
    ]));
    assert_eq!(generator.run(), Err(GenError::UnrenderableExpression));
    assert_eq!(generator.src, "");
}

#[test]
fn run_appends_the_text_of_the_tree() {
    let mut generator = CodeGen::new(Statement::Scope(vec![declare("x", number("1"))]));
    assert_eq!(generator.run(), Ok(()));
    assert_eq!(generator.src, "local x: number = 1\n");
    assert_eq!(generator.run(), Ok(()));
    assert_eq!(generator.src, "local x: number = 1\nlocal x: number = 1\n");
}

#[test]
fn gen_statement_writes_up_to_the_first_error() {
    let mut generator = CodeGen::new(Statement::Scope(vec![]));
    let statement = Statement::Scope(vec![
        Statement::Return(name("a")),
        Statement::Return(function(vec![], vec![])),
        Statement::Return(name("b")),
    ]);
    assert_eq!(generator.gen_statement(&statement), Err(GenError::UnrenderableExpression));
    assert_eq!(generator.src, "do\n    return a\n");
    assert_eq!(generator.gen_statement(&Statement::Return(name("c"))), Ok(()));
    assert_eq!(generator.src, "do\n    return a\nreturn c\n");
}

#[test]
fn target_names() {
    assert_eq!(CodeGen::target_name(&name("x"), false), Ok(s("x")));
    assert_eq!(CodeGen::target_name(&name("x"), true), Ok(s("self.x")));
    assert_eq!(
        CodeGen::target_name(&Expression::Indexing(boxed("a"), boxed("b")), true),
        Ok(s("a.b"))
    );
    assert_eq!(CodeGen::target_name(&number("1"), false), Err(GenError::InvalidTarget));
    assert_eq!(
        CodeGen::target_name(
            &Expression::Indexing(boxed("a"), Box::new(function(vec![], vec![]))),
            false
        ),
        Err(GenError::UnrenderableExpression)
    );
}

#[test]
fn write_makes_a_line_of_each_kind_of_code() {
    assert_eq!(written(GenType::LScope), "do\n");
    assert_eq!(written(GenType::RScope), "end\n");
    assert_eq!(written(GenType::LIf { expr: s("a") }), "if a then\n");
    assert_eq!(written(GenType::Return { value: s("x") }), "return x\n");
    assert_eq!(written(GenType::Luau { code: s("-- raw") }), "-- raw\n");
    assert_eq!(
        written(GenType::VariableDeclaration {
            local: true,
            ident: s("x"),
            value: s("1"),
            value_type: Some(s("number")),
        }),
        "local x: number = 1\n"
    );
    assert_eq!(
        written(GenType::VariableDeclaration {
            local: true,
            ident: s("x"),
            value: s("y"),
            value_type: None,
        }),
        "local x = y\n"
    );
    assert_eq!(
        written(GenType::VariableDeclaration {
            local: false,
            ident: s("x"),
            value: s("1"),
            value_type: Some(s("number")),
        }),
        "x = 1 :: number\n"
    );
    assert_eq!(
        written(GenType::VariableDeclaration {
            local: false,
            ident: s("x"),
            value: s("y"),
            value_type: None,
        }),
        "x = y\n"
    );
    assert_eq!(
        written(GenType::FunctionCall { ident: s("f"), values: vec![] }),
        "f()\n"
    );
    assert_eq!(
        written(GenType::FunctionCall { ident: s("f"), values: vec![s("a"), s("b"), s("c")] }),
        "f(a, b, c)\n"
    );
    assert_eq!(
        written(GenType::FunctionBody { local: true, ident: s("f"), params: vec![s("a: number")] }),
        "local function f(a: number)\n"
    );
    assert_eq!(
        written(GenType::FunctionBody { local: false, ident: s("M.f"), params: vec![s("a"), s("b")] }),
        "function M.f(a, b)\n"
    );
    assert_eq!(
        written(GenType::ClassConstructor {
            ident: s("Foo"),
            props: s("ignored"),
            methods: vec![Box::new(GenType::LScope)],
        }),
        "local Foo = {}\n"
    );
}
