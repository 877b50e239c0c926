//! A source-to-source compiler for a small, statically scoped scripting
//! language: lexical analysis, recursive-descent parsing with inline
//! symbol-table-driven type checking, and code emission from the syntax
//! tree, each proved equal to its mathematical definition.

use vstd::prelude::*;

pub mod ast;
pub mod gen;
pub mod lexer;
pub mod numeral;
pub mod parser;
pub mod strutil;
pub mod token;

use crate::lexer::{LexError, Scanner, spec_tokenize, lemma_tokenize_wf};
use crate::parser::{ParseError, ParseErrorV, Parser, spec_parse, view_toks, lemma_view_toks};
use crate::gen::spec_gen_list;

verus! {

/// The failure of a compilation: a fatal lexical malformation, or the first
/// grammar-level or type-level violation the parser reports.
#[derive(Debug, Clone, PartialEq, Eq)]
pub enum CompileError {
    Lex(LexError),
    Parse(ParseError),
}

/// Mathematical model of a `CompileError`.
pub enum CompileErrorV {
    LexV(LexError),
    ParseV(ParseErrorV),
}

impl View for CompileError {
    type V = CompileErrorV;

    open spec fn view(&self) -> CompileErrorV {
        match self {
            CompileError::Lex(e) => CompileErrorV::LexV(*e),
            CompileError::Parse(e) => CompileErrorV::ParseV(e@),
        }
    }
}

/// The whole pipeline, mathematically: scan the text, parse the tokens with
/// an empty symbol table, and emit each top-level statement in order.
pub open spec fn spec_compile(input: Seq<char>) -> Result<Seq<char>, CompileErrorV> {
    match spec_tokenize(input, 0) {
        Err(le) => Err(CompileErrorV::LexV(le)),
        Ok(ts) => match spec_parse(ts, 0, Map::empty()) {
            Err(f) => Err(CompileErrorV::ParseV(f.err)),
            Ok((nodes, pos, tbl)) => Ok(spec_gen_list(nodes, 0)),
        },
    }
}

/// Compiles one source unit to target text, or reports the first error.
pub fn compile(input: String) -> (r: Result<String, CompileError>)
    ensures
        match r {
            Ok(out) => spec_compile(input@) == Ok::<Seq<char>, CompileErrorV>(out@),
            Err(e) => spec_compile(input@) == Err::<Seq<char>, CompileErrorV>(e@),
        },
{
    let mut scanner = Scanner::new(input);
    match scanner.tokenize() {
        Err(le) => {
            return Err(CompileError::Lex(le));
        },
        Ok(_) => (),
    }
    proof {
        lemma_tokenize_wf(scanner.code@, 0);
        lemma_view_toks(scanner.toks@);
        assert(view_toks(scanner.toks@) =~= scanner.toks.deep_view());
    }
    let mut parser = Parser::new(scanner.toks);
    let nodes = match parser.parse() {
        Err(pe) => {
            return Err(CompileError::Parse(pe));
        },
        Ok(v) => v,
    };
    Ok(crate::gen::gen_list_exec(&nodes))
}

} // verus!
