//! The code generator: it walks the syntax tree and writes Luau text, one
//! line at a time.

use crate::backend::model::{
    binding, body_emission, call_code, chain, class_code, comma_join, constructor_emission,
    declaration_code, declaration_emission, expression_text, expression_texts, function_code,
    if_code, indent, inferred_type, lemma_chain_assoc, lemma_expression_texts, lemma_render_concat,
    lemma_render_one, one_line, outcome, parameter_code, parameter_codes, program_emission,
    program_text, properties_emission, property_emission, refused, render, renderable, return_code,
    statement_emission, statements_emission, target_text, typeable, written, Emission, GenError,
};
use crate::frontend::ast::{statement_views, Expression, ExpressionView, Statement, StatementView};
use crate::text::string_views;
use vstd::prelude::*;

verus! {

/// The code of one line of output, before it is made text.
pub enum GenType {
    VariableDeclaration { local: bool, ident: String, value: String, value_type: Option<String> },
    FunctionCall { ident: String, values: Vec<String> },
    FunctionBody { local: bool, ident: String, params: Vec<String> },
    ClassConstructor { ident: String, props: String, methods: Vec<Box<GenType>> },
    LIf { expr: String },
    Return { value: String },
    LScope,
    RScope,
    /// Luau code that is written as it stands.
    Luau { code: String },
}

/// The view of a string that may be absent.
pub open spec fn optional_text(s: Option<String>) -> Option<Seq<char>> {
    match s {
        Some(s) => Some(s@),
        None => None,
    }
}

impl GenType {
    /// The text of the line, without indentation and line feed.
    pub open spec fn code(&self) -> Seq<char> {
        match self {
            GenType::LScope => "do"@,
            GenType::RScope => "end"@,
            GenType::LIf { expr } => if_code(expr@),
            GenType::VariableDeclaration { local, ident, value, value_type } => declaration_code(
                *local,
                ident@,
                value@,
                optional_text(*value_type),
            ),
            GenType::FunctionCall { ident, values } => call_code(ident@, string_views(values@)),
            GenType::FunctionBody { local, ident, params } => function_code(
                *local,
                ident@,
                string_views(params@),
            ),
            GenType::ClassConstructor { ident, .. } => class_code(ident@),
            GenType::Return { value } => return_code(value@),
            GenType::Luau { code } => code@,
        }
    }
}

/// Joins the parts with `", "` between each two.
fn join_with_commas(parts: &Vec<String>) -> (r: String)
    ensures
        r@ == comma_join(string_views(parts@)),
{
    let mut out = String::new();
    let mut i: usize = 0;
    while i < parts.len()
        invariant
            i <= parts.len(),
            out@ == comma_join(string_views(parts@).take(i as int)),
        decreases parts.len() - i,
    {
        let ghost before = string_views(parts@).take(i as int);
        let ghost after = string_views(parts@).take(i + 1);
        assert(after.drop_last() == before);
        if i > 0 {
            out.append(", ");
        }
        out.append(parts[i].as_str());
        i += 1;
    }
    assert(string_views(parts@).take(i as int) == string_views(parts@));
    out
}

/// Whether `after` is `before` with the lines of `e` written to it and
/// nothing else changed.
pub open spec fn wrote(before: CodeGen, after: CodeGen, e: Emission) -> bool {
    &&& after.written() == before.written() + render(e.lines)
    &&& after.root() == before.root()
    &&& after.nest() == before.nest()
    &&& after.well_formed()
}

/// Writing `first` without an error and then `second` is writing the two
/// together.
pub proof fn lemma_wrote_chain(
    start: CodeGen,
    middle: CodeGen,
    end: CodeGen,
    first: Emission,
    second: Emission,
)
    requires
        wrote(start, middle, first),
        first.error is None,
        wrote(middle, end, second),
    ensures
        wrote(start, end, chain(first, second)),
{
    lemma_render_concat(first.lines, second.lines);
    assert(start.written() + (render(first.lines) + render(second.lines)) =~= start.written()
        + render(first.lines) + render(second.lines));
}

/// Writing nothing leaves the generator as it is.
pub proof fn lemma_wrote_nothing(g: CodeGen, e: Emission)
    requires
        g.well_formed(),
        e.lines.len() == 0,
    ensures
        wrote(g, g, e),
{
}

/// A code generator: the text written so far, the tree to write, and the
/// indentation of the next line, which is that of its nesting level.
pub struct CodeGen {
    pub src: String,
    root_stmt: Statement,
    indent: String,
    nest: Ghost<nat>,
}

impl CodeGen {
    /// The text written so far, `self.src`.
    pub closed spec fn written(&self) -> Seq<char> {
        self.src@
    }

    /// The tree that `run` writes.
    pub closed spec fn root(&self) -> StatementView {
        self.root_stmt@
    }

    /// The nesting level of the next line.
    pub closed spec fn nest(&self) -> nat {
        self.nest@
    }

    /// Whether the indentation kept is that of the nesting level. Every
    /// generator that `new` makes is well formed, and stays so.
    pub closed spec fn well_formed(&self) -> bool {
        self.indent@ == indent(self.nest@)
    }

    /// A generator for the tree `stmt`, with nothing written yet.
    pub fn new(stmt: Statement) -> (g: Self)
        ensures
            g.written() == Seq::<char>::empty(),
            g.root() == stmt@,
            g.nest() == 0,
            g.well_formed(),
    {
        CodeGen { src: String::new(), root_stmt: stmt, indent: String::new(), nest: Ghost(0) }
    }

    /// Moves one nesting level in, and returns the indentation of the
    /// level left.
    fn nest_in(&mut self) -> (outer: String)
        requires
            old(self).well_formed(),
        ensures
            final(self).well_formed(),
            final(self).nest() == old(self).nest() + 1,
            final(self).written() == old(self).written(),
            final(self).root() == old(self).root(),
            outer@ == indent(old(self).nest()),
    {
        let outer = self.indent.clone();
        self.indent.append("    ");
        self.nest = Ghost((self.nest@ + 1) as nat);
        outer
    }

    /// Moves one nesting level out, back to the indentation `outer`.
    fn nest_out(&mut self, outer: String)
        requires
            old(self).nest() > 0,
            outer@ == indent((old(self).nest() - 1) as nat),
        ensures
            final(self).well_formed(),
            final(self).nest() == old(self).nest() - 1,
            final(self).written() == old(self).written(),
            final(self).root() == old(self).root(),
    {
        self.indent = outer;
        self.nest = Ghost((self.nest@ - 1) as nat);
    }

    /// The textual form of the expression, or `UnrenderableExpression` if its
    /// kind, or that of a part of it, has none.
    #[verifier::loop_isolation(false)]
    pub fn expr_to_value(expr: &Expression) -> (r: Result<String, GenError>)
        ensures
            match r {
                Ok(s) => renderable(expr@) && s@ == expression_text(expr@),
                Err(e) => !renderable(expr@) && e == GenError::UnrenderableExpression,
            },
        decreases expr,
    {
        match expr {
            Expression::Identifier(ident) => Ok(ident.clone()),
            Expression::Parameter { ident, .. } => Self::expr_to_value(ident),
            Expression::Char(c) => {
                let mut t = String::from_str("\"");
                t.push(*c);
                t.append("\"");
                Ok(t)
            },
            Expression::String(string) => {
                let mut t = String::from_str("\"");
                t.append(string.as_str());
                t.append("\"");
                Ok(t)
            },
            Expression::Bool(b) => if *b {
                Ok(String::from_str("true"))
            } else {
                Ok(String::from_str("false"))
            },
            Expression::Number(digits) => Ok(digits.clone()),
            Expression::FunctionCall { ident, args } => {
                let mut values: Vec<String> = Vec::new();
                let mut i: usize = 0;
                while i < args.len()
                    invariant
                        i <= args.len(),
                        values.len() == i,
                        forall|j: int|
                            0 <= j < i ==> renderable(#[trigger] args@[j]@) && values@[j]@
                                == expression_text(args@[j]@),
                    decreases args.len() - i,
                {
                    match Self::expr_to_value(&args[i]) {
                        Ok(value) => {
                            values.push(value);
                        },
                        Err(e) => {
                            assert(!renderable(expr@->FunctionCall_args[i as int]));
                            return Err(e);
                        },
                    }
                    i += 1;
                }
                let ident_str = match Self::expr_to_value(ident) {
                    Ok(s) => s,
                    Err(e) => {
                        return Err(e);
                    },
                };
                let args_str = join_with_commas(&values);
                let mut t = ident_str;
                t.append("(");
                t.append(args_str.as_str());
                t.append(")");
                proof {
                    let texts = expression_texts(expr@->FunctionCall_args);
                    lemma_expression_texts(expr@->FunctionCall_args);
                    assert forall|j: int| 0 <= j < expr@->FunctionCall_args.len() implies renderable(
                        #[trigger] expr@->FunctionCall_args[j],
                    ) && string_views(values@)[j] == texts[j] by {
                        assert(expr@->FunctionCall_args[j] == args@[j]@);
                    }
                    assert(string_views(values@) =~= texts);
                }
                Ok(t)
            },
            Expression::Indexing(l, r) => {
                let mut t = match Self::expr_to_value(l) {
                    Ok(s) => s,
                    Err(e) => {
                        return Err(e);
                    },
                };
                let right = match Self::expr_to_value(r) {
                    Ok(s) => s,
                    Err(e) => {
                        return Err(e);
                    },
                };
                t.append(".");
                t.append(right.as_str());
                Ok(t)
            },
            Expression::And(l, r) => {
                let mut t = match Self::expr_to_value(l) {
                    Ok(s) => s,
                    Err(e) => {
                        return Err(e);
                    },
                };
                let right = match Self::expr_to_value(r) {
                    Ok(s) => s,
                    Err(e) => {
                        return Err(e);
                    },
                };
                t.append(" and ");
                t.append(right.as_str());
                Ok(t)
            },
            Expression::Or(l, r) => {
                let mut t = match Self::expr_to_value(l) {
                    Ok(s) => s,
                    Err(e) => {
                        return Err(e);
                    },
                };
                let right = match Self::expr_to_value(r) {
                    Ok(s) => s,
                    Err(e) => {
                        return Err(e);
                    },
                };
                t.append(" or ");
                t.append(right.as_str());
                Ok(t)
            },
            Expression::MethodCall { .. } => Err(GenError::UnrenderableExpression),
            Expression::Function { .. } => Err(GenError::UnrenderableExpression),
            Expression::ClassBody { .. } => Err(GenError::UnrenderableExpression),
        }
    }

    /// The type that the expression shows, if it shows one, and its textual
    /// form; or `UnrenderableExpression` where either cannot be had.
    pub fn expr_to_value_with_type(&self, expr: &Expression) -> (r: Result<
        (Option<String>, String),
        GenError,
    >)
        ensures
            match r {
                Ok((value_type, value)) => {
                    &&& typeable(expr@)
                    &&& renderable(expr@)
                    &&& optional_text(value_type) == inferred_type(expr@)
                    &&& value@ == expression_text(expr@)
                },
                Err(e) => !(typeable(expr@) && renderable(expr@)) && e
                    == GenError::UnrenderableExpression,
            },
        decreases expr,
    {
        let type_str: Option<String> = match expr {
            Expression::Bool(_) => Some(String::from_str("boolean")),
            Expression::And(_, r) => match self.expr_to_value_with_type(r) {
                Ok((t, _)) => t,
                Err(e) => {
                    return Err(e);
                },
            },
            Expression::Or(_, r) => match self.expr_to_value_with_type(r) {
                Ok((t, _)) => t,
                Err(e) => {
                    return Err(e);
                },
            },
            Expression::Parameter { expected_type, .. } => match &**expected_type {
                Some(t) => match Self::expr_to_value(t) {
                    Ok(s) => Some(s),
                    Err(e) => {
                        return Err(e);
                    },
                },
                None => None,
            },
            Expression::Char(_) => Some(String::from_str("string")),
            Expression::String(_) => Some(String::from_str("string")),
            Expression::Number(_) => Some(String::from_str("number")),
            Expression::ClassBody { .. } => {
                return Err(GenError::UnrenderableExpression);
            },
            _ => None,
        };
        match Self::expr_to_value(expr) {
            Ok(value_str) => Ok((type_str, value_str)),
            Err(e) => Err(e),
        }
    }

    /// The text of a dotted access: the two sides with a dot between them.
    pub fn indexing_to_value(l: &Expression, r: &Expression) -> (s: Result<String, GenError>)
        ensures
            match s {
                Ok(s) => renderable(l@) && renderable(r@) && s@ == expression_text(l@) + "."@
                    + expression_text(r@),
                Err(e) => !(renderable(l@) && renderable(r@)) && e
                    == GenError::UnrenderableExpression,
            },
    {
        let mut t = match Self::expr_to_value(l) {
            Ok(s) => s,
            Err(e) => {
                return Err(e);
            },
        };
        let right = match Self::expr_to_value(r) {
            Ok(s) => s,
            Err(e) => {
                return Err(e);
            },
        };
        t.append(".");
        t.append(right.as_str());
        Ok(t)
    }

    /// Writes one line: the indentation of the current nesting level, the
    /// text of `code`, and a line feed.
    pub fn write(&mut self, code: GenType)
        requires
            old(self).well_formed(),
        ensures
            wrote(*old(self), *final(self), one_line(old(self).nest(), code.code())),
    {
        let text: String = match code {
            GenType::LScope => String::from_str("do"),
            GenType::RScope => String::from_str("end"),
            GenType::LIf { expr } => {
                let mut t = String::from_str("if ");
                t.append(expr.as_str());
                t.append(" then");
                t
            },
            GenType::VariableDeclaration { local, ident, value, value_type } => {
                if local {
                    let mut t = String::from_str("local ");
                    t.append(ident.as_str());
                    match value_type {
                        Some(value_type) => {
                            t.append(": ");
                            t.append(value_type.as_str());
                        },
                        None => {},
                    }
                    t.append(" = ");
                    t.append(value.as_str());
                    t
                } else {
                    let mut t = ident;
                    t.append(" = ");
                    t.append(value.as_str());
                    match value_type {
                        Some(value_type) => {
                            t.append(" :: ");
                            t.append(value_type.as_str());
                        },
                        None => {},
                    }
                    t
                }
            },
            GenType::FunctionCall { ident, values } => {
                let values_str = join_with_commas(&values);
                let mut t = ident;
                t.append("(");
                t.append(values_str.as_str());
                t.append(")");
                t
            },
            GenType::FunctionBody { local, ident, params } => {
                let params_str = join_with_commas(&params);
                let mut t = if local {
                    String::from_str("local function ")
                } else {
                    String::from_str("function ")
                };
                t.append(ident.as_str());
                t.append("(");
                t.append(params_str.as_str());
                t.append(")");
                t
            },
            GenType::ClassConstructor { ident, props: _, methods: _ } => {
                let mut t = String::from_str("local ");
                t.append(ident.as_str());
                t.append(" = {}");
                t
            },
            GenType::Return { value } => {
                let mut t = String::from_str("return ");
                t.append(value.as_str());
                t
            },
            GenType::Luau { code } => code,
        };
        self.src.append(self.indent.as_str());
        self.src.append(text.as_str());
        self.src.append("\n");
        proof {
            let line = one_line(old(self).nest(), code.code()).lines[0];
            lemma_render_one(line);
            assert(self.src@ == old(self).src@ + (self.indent@ + text@ + "\n"@));
        }
    }

    /// The name that a declaration or an assignment binds. Inside a class,
    /// `in_class`, a bare identifier names a field of `self`.
    pub fn target_name(ident: &Expression, in_class: bool) -> (r: Result<String, GenError>)
        ensures
            match r {
                Ok(name) => target_text(ident@, in_class) == Ok::<Seq<char>, GenError>(name@),
                Err(e) => target_text(ident@, in_class) == Err::<Seq<char>, GenError>(e),
            },
    {
        match ident {
            Expression::Identifier(name) => {
                if in_class {
                    let mut t = String::from_str("self.");
                    t.append(name.as_str());
                    Ok(t)
                } else {
                    Ok(name.clone())
                }
            },
            Expression::Indexing(l, r) => Self::indexing_to_value(l, r),
            _ => Err(GenError::InvalidTarget),
        }
    }

    /// Writes the binding of `value` to `ident` as one line, or nothing if
    /// the line cannot be made.
    fn gen_binding(&mut self, local: bool, in_class: bool, ident: &Expression, value: &Expression) -> (r:
        Result<(), GenError>)
        requires
            old(self).well_formed(),
        ensures
            wrote(
                *old(self),
                *final(self),
                binding(old(self).nest(), local, in_class, ident@, value@),
            ),
            r == outcome(binding(old(self).nest(), local, in_class, ident@, value@)),
    {
        let (value_type, value_str) = match self.expr_to_value_with_type(value) {
            Ok(pair) => pair,
            Err(e) => {
                proof {
                    lemma_wrote_nothing(*self, refused(e));
                }
                return Err(e);
            },
        };
        let target = match Self::target_name(ident, in_class) {
            Ok(t) => t,
            Err(e) => {
                proof {
                    lemma_wrote_nothing(*self, refused(e));
                }
                return Err(e);
            },
        };
        self.write(GenType::VariableDeclaration { local, ident: target, value: value_str, value_type });
        Ok(())
    }

    /// Writes one assignment to a field of `self` for each property, in
    /// their order, up to the first that cannot be written.
    fn gen_properties(&mut self, properties: &Vec<Statement>) -> (r: Result<(), GenError>)
        requires
            old(self).well_formed(),
        ensures
            wrote(
                *old(self),
                *final(self),
                properties_emission(statement_views(properties@), old(self).nest()),
            ),
            r == outcome(properties_emission(statement_views(properties@), old(self).nest())),
    {
        let ghost all = statement_views(properties@);
        let ghost level = self.nest();
        let ghost mut done = written(Seq::empty());
        let mut i: usize = 0;
        proof {
            lemma_wrote_nothing(*self, done);
            assert(all.skip(0) =~= all);
        }
        while i < properties.len()
            invariant
                i <= properties.len(),
                all == statement_views(properties@),
                level == old(self).nest(),
                done.error is None,
                wrote(*old(self), *self, done),
                properties_emission(all, level) == chain(
                    done,
                    properties_emission(all.skip(i as int), level),
                ),
            decreases properties.len() - i,
        {
            let ghost rest = all.skip(i as int);
            let ghost here = property_emission(rest[0], level);
            let ghost before = *self;
            assert(rest.skip(1) =~= all.skip(i + 1));
            let r = match &properties[i] {
                Statement::VariableDeclaration { ident, value } => self.gen_binding(
                    false,
                    true,
                    ident,
                    value,
                ),
                _ => {
                    proof {
                        lemma_wrote_nothing(*self, refused(GenError::InvalidProperty));
                    }
                    Err(GenError::InvalidProperty)
                },
            };
            proof {
                lemma_wrote_chain(*old(self), before, *self, done, here);
                lemma_chain_assoc(done, here, properties_emission(all.skip(i + 1), level));
                done = chain(done, here);
            }
            match r {
                Ok(()) => {},
                Err(e) => {
                    return Err(e);
                },
            }
            i += 1;
        }
        Ok(())
    }

    /// Writes what stands inside the constructor of a class with the given
    /// body, one level below the current one.
    fn gen_constructor(&mut self, body: &Expression) -> (r: Result<(), GenError>)
        requires
            old(self).well_formed(),
        ensures
            wrote(*old(self), *final(self), constructor_emission(body@, old(self).nest())),
            r == outcome(constructor_emission(body@, old(self).nest())),
    {
        let ghost level = self.nest();
        let outer = self.nest_in();
        let ghost start = *self;
        self.write(
            GenType::VariableDeclaration {
                local: true,
                ident: String::from_str("self"),
                value: String::from_str("{}"),
                value_type: None,
            },
        );
        let ghost first = one_line(level + 1, declaration_code(true, "self"@, "{}"@, None));
        let ghost opened = *self;
        let r = match body {
            Expression::ClassBody { properties, methods: _ } => {
                let r = self.gen_properties(properties);
                let ghost props = properties_emission(statement_views(properties@), level + 1);
                proof {
                    assert(body@->ClassBody_properties =~= statement_views(properties@));
                }
                match r {
                    Ok(()) => {
                        let ghost listed = *self;
                        self.write(GenType::Return { value: String::from_str("self") });
                        proof {
                            lemma_wrote_chain(
                                opened,
                                listed,
                                *self,
                                props,
                                one_line(level + 1, return_code("self"@)),
                            );
                        }
                        Ok(())
                    },
                    Err(e) => Err(e),
                }
            },
            _ => {
                proof {
                    lemma_wrote_nothing(*self, refused(GenError::InvalidClassBody));
                }
                Err(GenError::InvalidClassBody)
            },
        };
        proof {
            let second = match body@ {
                ExpressionView::ClassBody { properties, .. } => chain(
                    properties_emission(properties, level + 1),
                    one_line(level + 1, return_code("self"@)),
                ),
                _ => refused(GenError::InvalidClassBody),
            };
            lemma_wrote_chain(start, opened, *self, first, second);
        }
        self.nest_out(outer);
        r
    }

    /// Writes the statements in their order, up to the first that cannot be
    /// written.
    fn gen_statements(&mut self, stmts: &Vec<Statement>) -> (r: Result<(), GenError>)
        requires
            old(self).well_formed(),
        ensures
            wrote(
                *old(self),
                *final(self),
                statements_emission(statement_views(stmts@), old(self).nest()),
            ),
            r == outcome(statements_emission(statement_views(stmts@), old(self).nest())),
        decreases stmts, 0nat,
    {
        let ghost all = statement_views(stmts@);
        let ghost level = self.nest();
        let ghost mut done = written(Seq::empty());
        let mut i: usize = 0;
        proof {
            lemma_wrote_nothing(*self, done);
            assert(all.subrange(0, all.len() as int) =~= all);
        }
        while i < stmts.len()
            invariant
                i <= stmts.len(),
                all == statement_views(stmts@),
                level == old(self).nest(),
                done.error is None,
                wrote(*old(self), *self, done),
                statements_emission(all, level) == chain(
                    done,
                    statements_emission(all.subrange(i as int, all.len() as int), level),
                ),
            decreases stmts.len() - i,
        {
            let ghost rest = all.subrange(i as int, all.len() as int);
            let ghost here = statement_emission(rest[0], level);
            let ghost before = *self;
            assert(rest.subrange(1, rest.len() as int) =~= all.subrange(i + 1, all.len() as int));
            let r = self.gen_statement(&stmts[i]);
            proof {
                lemma_wrote_chain(*old(self), before, *self, done, here);
                lemma_chain_assoc(
                    done,
                    here,
                    statements_emission(all.subrange(i + 1, all.len() as int), level),
                );
                done = chain(done, here);
            }
            match r {
                Ok(()) => {},
                Err(e) => {
                    return Err(e);
                },
            }
            i += 1;
        }
        Ok(())
    }

    /// Writes the statements one level below the current one.
    fn gen_deeper(&mut self, stmts: &Vec<Statement>) -> (r: Result<(), GenError>)
        requires
            old(self).well_formed(),
        ensures
            wrote(
                *old(self),
                *final(self),
                statements_emission(statement_views(stmts@), old(self).nest() + 1),
            ),
            r == outcome(statements_emission(statement_views(stmts@), old(self).nest() + 1)),
        decreases stmts, 1nat,
    {
        let outer = self.nest_in();
        let r = self.gen_statements(stmts);
        self.nest_out(outer);
        r
    }

    /// Writes the body of a conditional or of a function: the statements of
    /// a scope without its `do` and `end`, or the one statement, one level
    /// below the current one.
    fn gen_body(&mut self, body: &Statement) -> (r: Result<(), GenError>)
        requires
            old(self).well_formed(),
        ensures
            wrote(*old(self), *final(self), body_emission(body@, old(self).nest())),
            r == outcome(body_emission(body@, old(self).nest())),
        decreases body, 1nat,
    {
        match body {
            Statement::Scope(stmts) => {
                proof {
                    assert(body@->Scope_0 =~= statement_views(stmts@));
                }
                self.gen_deeper(stmts)
            },
            _ => {
                let outer = self.nest_in();
                let r = self.gen_statement(body);
                self.nest_out(outer);
                r
            },
        }
    }

    /// Writes a declaration (`local`) or an assignment of `value` to `ident`.
    #[verifier::loop_isolation(false)]
    fn gen_declaration(&mut self, local: bool, ident: &Expression, value: &Expression) -> (r:
        Result<(), GenError>)
        requires
            old(self).well_formed(),
        ensures
            wrote(
                *old(self),
                *final(self),
                declaration_emission(local, ident@, value@, old(self).nest()),
            ),
            r == outcome(declaration_emission(local, ident@, value@, old(self).nest())),
        decreases value, 0nat,
    {
        let ghost level = self.nest();
        match value {
            Expression::Identifier(value_ident) => {
                let target = match Self::target_name(ident, false) {
                    Ok(t) => t,
                    Err(e) => {
                        proof {
                            lemma_wrote_nothing(*self, refused(e));
                        }
                        return Err(e);
                    },
                };
                self.write(
                    GenType::VariableDeclaration {
                        local,
                        ident: target,
                        value: value_ident.clone(),
                        value_type: None,
                    },
                );
                Ok(())
            },
            Expression::Function { params, stmt } => {
                let mut params_str: Vec<String> = Vec::new();
                let mut i: usize = 0;
                while i < params.len()
                    invariant
                        i <= params.len(),
                        params_str.len() == i,
                        *self == *old(self),
                        forall|j: int|
                            0 <= j < i ==> typeable(#[trigger] params@[j]@) && renderable(
                                params@[j]@,
                            ) && params_str@[j]@ == parameter_code(params@[j]@),
                    decreases params.len() - i,
                {
                    let (param_type, param_str) = match self.expr_to_value_with_type(&params[i]) {
                        Ok(pair) => pair,
                        Err(e) => {
                            proof {
                                assert(value@->Function_params[i as int] == params@[i as int]@);
                                lemma_wrote_nothing(*self, refused(e));
                            }
                            return Err(e);
                        },
                    };
                    let mut text = param_str;
                    match param_type {
                        Some(expected_type) => {
                            text.append(": ");
                            text.append(expected_type.as_str());
                        },
                        None => {},
                    }
                    params_str.push(text);
                    i += 1;
                }
                proof {
                    assert forall|j: int| 0 <= j < value@->Function_params.len() implies typeable(
                        #[trigger] value@->Function_params[j],
                    ) && renderable(value@->Function_params[j]) && string_views(params_str@)[j]
                        == parameter_codes(value@->Function_params)[j] by {
                        assert(value@->Function_params[j] == params@[j]@);
                    }
                    assert(string_views(params_str@) =~= parameter_codes(value@->Function_params));
                }
                let name = match Self::expr_to_value(ident) {
                    Ok(name) => name,
                    Err(e) => {
                        proof {
                            lemma_wrote_nothing(*self, refused(e));
                        }
                        return Err(e);
                    },
                };
                let ghost header = one_line(
                    level,
                    function_code(local, name@, parameter_codes(value@->Function_params)),
                );
                let ghost body = body_emission(stmt@, level);
                let ghost close = one_line(level, "end"@);
                self.write(GenType::FunctionBody { local, ident: name, params: params_str });
                let ghost opened = *self;
                let r = self.gen_body(stmt);
                let ghost filled = *self;
                match r {
                    Ok(()) => {
                        self.write(GenType::RScope);
                        proof {
                            lemma_wrote_chain(opened, filled, *self, body, close);
                            lemma_wrote_chain(*old(self), opened, *self, header, chain(body, close));
                        }
                        Ok(())
                    },
                    Err(e) => {
                        proof {
                            lemma_wrote_chain(*old(self), opened, *self, header, chain(body, close));
                        }
                        Err(e)
                    },
                }
            },
            _ => self.gen_binding(local, false, ident, value),
        }
    }

    /// Writes one statement at the current nesting level. The lines of the
    /// statement are written up to the first part that cannot be written,
    /// and the error says why that part cannot.
    pub fn gen_statement(&mut self, stmt: &Statement) -> (r: Result<(), GenError>)
        requires
            old(self).well_formed(),
        ensures
            wrote(*old(self), *final(self), statement_emission(stmt@, old(self).nest())),
            r == outcome(statement_emission(stmt@, old(self).nest())),
        decreases stmt, 0nat,
    {
        let ghost level = self.nest();
        let ghost close = one_line(level, "end"@);
        match stmt {
            Statement::Return(expr) => {
                let value = match Self::expr_to_value(expr) {
                    Ok(value) => value,
                    Err(e) => {
                        proof {
                            lemma_wrote_nothing(*self, refused(e));
                        }
                        return Err(e);
                    },
                };
                self.write(GenType::Return { value });
                Ok(())
            },
            Statement::If { expr, body } => {
                let condition = match Self::expr_to_value(expr) {
                    Ok(condition) => condition,
                    Err(e) => {
                        proof {
                            lemma_wrote_nothing(*self, refused(e));
                        }
                        return Err(e);
                    },
                };
                let ghost header = one_line(level, if_code(condition@));
                let ghost inner = body_emission(body@, level);
                self.write(GenType::LIf { expr: condition });
                let ghost opened = *self;
                let r = self.gen_body(body);
                let ghost filled = *self;
                match r {
                    Ok(()) => {
                        self.write(GenType::RScope);
                        proof {
                            lemma_wrote_chain(opened, filled, *self, inner, close);
                            lemma_wrote_chain(*old(self), opened, *self, header, chain(inner, close));
                        }
                        Ok(())
                    },
                    Err(e) => {
                        proof {
                            lemma_wrote_chain(*old(self), opened, *self, header, chain(inner, close));
                        }
                        Err(e)
                    },
                }
            },
            Statement::Scope(statements) => {
                proof {
                    assert(stmt@->Scope_0 =~= statement_views(statements@));
                }
                let ghost header = one_line(level, "do"@);
                let ghost inner = statements_emission(statement_views(statements@), level + 1);
                self.write(GenType::LScope);
                let ghost opened = *self;
                let r = self.gen_deeper(statements);
                let ghost filled = *self;
                match r {
                    Ok(()) => {
                        self.write(GenType::RScope);
                        proof {
                            lemma_wrote_chain(opened, filled, *self, inner, close);
                            lemma_wrote_chain(*old(self), opened, *self, header, chain(inner, close));
                        }
                        Ok(())
                    },
                    Err(e) => {
                        proof {
                            lemma_wrote_chain(*old(self), opened, *self, header, chain(inner, close));
                        }
                        Err(e)
                    },
                }
            },
            Statement::ClassConstructor { ident, body } => {
                let ident_str = match Self::expr_to_value(ident) {
                    Ok(s) => s,
                    Err(e) => {
                        proof {
                            lemma_wrote_nothing(*self, refused(e));
                        }
                        return Err(e);
                    },
                };
                let mut constructor = ident_str.clone();
                constructor.append(".new");
                let ghost first = one_line(
                    level,
                    declaration_code(true, ident_str@, "{}"@, None),
                );
                let ghost second = one_line(
                    level,
                    function_code(false, ident_str@ + ".new"@, Seq::empty()),
                );
                let ghost inner = constructor_emission(body@, level);
                self.write(
                    GenType::VariableDeclaration {
                        local: true,
                        ident: ident_str,
                        value: String::from_str("{}"),
                        value_type: None,
                    },
                );
                let ghost named = *self;
                self.write(
                    GenType::FunctionBody { local: false, ident: constructor, params: Vec::new() },
                );
                let ghost opened = *self;
                proof {
                    lemma_wrote_chain(*old(self), named, opened, first, second);
                    assert(chain(first, second).lines =~= seq![first.lines[0], second.lines[0]]);
                }
                let r = self.gen_constructor(body);
                let ghost filled = *self;
                match r {
                    Ok(()) => {
                        self.write(GenType::RScope);
                        proof {
                            lemma_wrote_chain(opened, filled, *self, inner, close);
                            lemma_wrote_chain(
                                *old(self),
                                opened,
                                *self,
                                chain(first, second),
                                chain(inner, close),
                            );
                        }
                        Ok(())
                    },
                    Err(e) => {
                        proof {
                            lemma_wrote_chain(
                                *old(self),
                                opened,
                                *self,
                                chain(first, second),
                                chain(inner, close),
                            );
                        }
                        Err(e)
                    },
                }
            },
            Statement::VariableDeclaration { ident, value } => self.gen_declaration(
                true,
                ident,
                value,
            ),
            Statement::VariableAssignment { ident, value } => self.gen_declaration(
                false,
                ident,
                value,
            ),
            Statement::Luau(code) => {
                self.write(GenType::Luau { code: code.clone() });
                Ok(())
            },
        }
    }

    /// Writes the whole tree. Either all of its text is appended to `src`, or
    /// `src` is left as it was and the error says why the tree has no text.
    pub fn run(&mut self) -> (r: Result<(), GenError>)
        requires
            old(self).well_formed(),
        ensures
            final(self).well_formed(),
            final(self).root() == old(self).root(),
            final(self).nest() == old(self).nest(),
            r == outcome(program_emission(old(self).root(), old(self).nest())),
            final(self).written() == if r is Ok {
                old(self).written() + render(
                    program_emission(old(self).root(), old(self).nest()).lines,
                )
            } else {
                old(self).written()
            },
    {
        let saved = self.src.clone();
        let mut root = Statement::Scope(Vec::new());
        core::mem::swap(&mut self.root_stmt, &mut root);
        let r = match &root {
            Statement::Scope(scope) => {
                proof {
                    assert(root@->Scope_0 =~= statement_views(scope@));
                }
                self.gen_statements(scope)
            },
            _ => Err(GenError::RootNotScope),
        };
        core::mem::swap(&mut self.root_stmt, &mut root);
        if r.is_err() {
            self.src = saved;
        }
        r
    }
}

/// The Luau text of the program whose root is `root`.
pub fn generate(root: Statement) -> (r: Result<String, GenError>)
    ensures
        match r {
            Ok(text) => program_text(root@) == Ok::<Seq<char>, GenError>(text@),
            Err(e) => program_text(root@) == Err::<Seq<char>, GenError>(e),
        },
{
    let mut generator = CodeGen::new(root);
    match generator.run() {
        Ok(()) => {
            Ok(generator.src)
        },
        Err(e) => Err(e),
    }
}

} // verus!
