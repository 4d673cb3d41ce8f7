//! A compiler from a small class-based surface language to Luau source text.
//!
//! The pipeline has three stages, each a module of its own: the lexer turns
//! characters into tokens, the parser turns tokens into a syntax tree, and the
//! code generator turns the tree into Luau text. Nothing is recovered from:
//! the first error of a stage ends the compilation, and no text comes out.

use crate::backend::codegen::generate;
use crate::backend::model::{program_text, GenError};
use crate::frontend::grammar::{program, ParseError};
use crate::frontend::parser::parse;
use crate::frontend::token::{token_views, Token, TokenView};
use vstd::prelude::*;

pub mod backend;
pub mod cursor;
pub mod examples;
pub mod frontend;
pub mod text;

verus! {

/// Why a list of tokens has no translation.
#[derive(Debug, Clone, Copy, PartialEq, Eq)]
pub enum CompileError {
    /// The tokens are no program.
    Syntax(ParseError),
    /// The program cannot be written as Luau.
    Generation(GenError),
}

/// The Luau text of the program that the tokens make, or the first error on
/// the way to it.
pub open spec fn translation(tokens: Seq<TokenView>) -> Result<Seq<char>, CompileError> {
    match program(tokens) {
        Ok(root) => match program_text(root) {
            Ok(text) => Ok(text),
            Err(e) => Err(CompileError::Generation(e)),
        },
        Err(e) => Err(CompileError::Syntax(e)),
    }
}

/// Translates a list of tokens to Luau text: parses it, and generates the
/// text of the tree.
pub fn compile_tokens(tokens: &[Token]) -> (r: Result<String, CompileError>)
    ensures
        match r {
            Ok(text) => translation(token_views(tokens@)) == Ok::<Seq<char>, CompileError>(text@),
            Err(e) => translation(token_views(tokens@)) == Err::<Seq<char>, CompileError>(e),
        },
{
    let root = match parse(tokens) {
        Ok(root) => root,
        Err(e) => {
            return Err(CompileError::Syntax(e));
        },
    };
    match generate(root) {
        Ok(text) => Ok(text),
        Err(e) => Err(CompileError::Generation(e)),
    }
}

} // verus!
