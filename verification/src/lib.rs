//! A verified front end for a small statically typed toy language:
//! a lexer that turns source text into a token sequence, and a
//! recursive-descent parser that turns the token sequence into a module
//! of function declarations.

pub mod ast;
pub mod lexer;
pub mod parser;
pub mod text;
pub mod token;

use vstd::prelude::*;

verus! {

/// The whole pipeline: lexes source text and parses the token sequence
/// into a module, stopping at the first grammar violation.
pub fn parse_source(input: &str) -> (r: Result<ast::Module, parser::ParseError>)
    ensures
        match r {
            Ok(m) => parser::sp_parse(lexer::lex_spec(input@)) == Ok::<
                ast::ModuleV,
                parser::ParseError,
            >(ast::module_view(m)),
            Err(err) => parser::sp_parse(lexer::lex_spec(input@)) == Err::<
                ast::ModuleV,
                parser::ParseError,
            >(err),
        },
{
    parser::parse(lexer::lex(input))
}

} // verus!
