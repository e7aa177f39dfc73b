//! Front end of a small scripting language: a lexer that turns source text
//! into tokens, a recursive-descent parser that turns tokens into expression
//! trees, a printer for those trees, and a diagnostics sink shared by both
//! passes.

mod text;
pub mod token;
pub mod environment;
pub mod lexical;
pub mod scanner;
pub mod expr;
pub mod grammar;
pub mod parser;
pub mod laws;

use vstd::prelude::*;
use crate::environment::Environment;
use crate::lexical::lex;
use crate::scanner::Scanner;
use crate::token::{Token, tokens_view};

verus! {

/// Scans a whole source text, reporting malformed lexemes to `environment`,
/// and returns its tokens, closed by the end-of-input token.
pub fn run(source: String, environment: &mut Environment) -> (r: Vec<Token>)
    requires
        source@.len() < u32::MAX,
    ensures
        tokens_view(r@) == lex(source@).tokens,
        final(environment)@.diagnostics == old(environment)@.diagnostics + lex(source@).diagnostics,
        final(environment)@.had_error == (old(environment)@.had_error || lex(source@).diagnostics.len() > 0),
{
    let mut scanner = Scanner::new(source);
    scanner.scan_tokens(environment);
    proof {
        assert(scanner.scanned() =~= lex(source@).tokens);
    }
    scanner.into_tokens()
}

} // verus!
