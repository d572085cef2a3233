//! A source-to-C transpiler front end for a small "const-assignment"
//! language: every top-level binding is `name :: value ;` where the value
//! is a function, a struct, or an expression.
//!
//! The pipeline is tokenizer -> recursive-descent parser -> C emitter,
//! run by `compile`. Each stage carries a full functional specification:
//! the executable functions are proved to return exactly what the
//! spec-level stage functions describe. A separate module holds the
//! verified core of the JSON-RPC framing that the language-server stub
//! uses.

use vstd::prelude::*;

pub mod ast;
pub mod canonical;
pub mod emitter;
pub mod lexer;
pub mod lsp;
pub mod parser;

use crate::emitter::{EmitError, SpecEmitError, emit, emit_spec};
use crate::lexer::{LexError, lex, lex_spec};
use crate::parser::{ParseError, SpecParseError, parse, parse_spec};

verus! {

/// The first failure of a whole compilation run, by stage. Every kind is
/// terminal: there is no partial output and no multi-error aggregation.
#[derive(Debug, PartialEq, Clone)]
pub enum CompileError {
    Lex(LexError),
    Parse(ParseError),
    Emit(EmitError),
}

/// Model of `CompileError`.
pub enum SpecCompileError {
    Lex(LexError),
    Parse(SpecParseError),
    Emit(SpecEmitError),
}

impl DeepView for CompileError {
    type V = SpecCompileError;

    open spec fn deep_view(&self) -> SpecCompileError {
        match self {
            CompileError::Lex(e) => SpecCompileError::Lex(*e),
            CompileError::Parse(e) => SpecCompileError::Parse(e.deep_view()),
            CompileError::Emit(e) => SpecCompileError::Emit(e.deep_view()),
        }
    }
}

/// The whole pipeline on source text: the emitted C text and the
/// side-channel marker lines, or the first failure of any stage.
pub open spec fn compile_spec(input: Seq<char>, test_mode: bool) -> Result<
    (Seq<char>, Seq<Seq<char>>),
    SpecCompileError,
> {
    match lex_spec(input) {
        Ok(toks) => match parse_spec(toks) {
            Ok(items) => match emit_spec(items, test_mode) {
                Ok(out) => Ok(out),
                Err(e) => Err(SpecCompileError::Emit(e)),
            },
            Err(e) => Err(SpecCompileError::Parse(e)),
        },
        Err(e) => Err(SpecCompileError::Lex(e)),
    }
}

/// Compile source text to C text and side-channel marker lines, or
/// report the first failure. Returns exactly what `compile_spec`
/// describes.
pub fn compile(input: &str, test_mode: bool) -> (r: Result<(String, Vec<String>), CompileError>)
    ensures
        match r {
            Ok(out) => compile_spec(input@, test_mode) == Ok::<
                (Seq<char>, Seq<Seq<char>>),
                SpecCompileError,
            >((out.0@, out.1.deep_view())),
            Err(e) => compile_spec(input@, test_mode) == Err::<
                (Seq<char>, Seq<Seq<char>>),
                SpecCompileError,
            >(e.deep_view()),
        },
{
    let tokens = match lex(input) {
        Ok(tokens) => tokens,
        Err(e) => {
            return Err(CompileError::Lex(e));
        },
    };
    let ast = match parse(tokens) {
        Ok(ast) => ast,
        Err(e) => {
            return Err(CompileError::Parse(e));
        },
    };
    match emit(&ast, test_mode) {
        Ok(out) => Ok(out),
        Err(e) => Err(CompileError::Emit(e)),
    }
}

} // verus!
