//! Both stages in one call: from source text to a program.

use crate::ast::AstNode;
use crate::error::{LexError, ParseError};
use crate::grammar;
use crate::lexer::tokenize;
use crate::parser::Parser;
use crate::scan;
use vstd::prelude::*;

verus! {

/// Why a source text is no program: the first error of the stage that
/// failed.
#[derive(Debug, PartialEq)]
pub enum SyntaxError {
    Lex(LexError),
    Parse(ParseError),
}

/// The program that `source` holds. A lexical error anywhere in the text
/// comes before any error of the grammar.
pub fn parse_source(source: &str) -> (result: Result<AstNode, SyntaxError>)
    ensures
        match scan::tokens_of(source@) {
            Err(error) => result matches Err(SyntaxError::Lex(reported)) && reported@ == error,
            Ok(tokens) => match grammar::program(tokens) {
                Err(error) => result matches Err(SyntaxError::Parse(reported)) && reported@
                    == error,
                Ok(node) => result matches Ok(found) && found@ == node,
            },
        },
{
    match tokenize(source) {
        Err(error) => Err(SyntaxError::Lex(error)),
        Ok(tokens) => {
            let mut parser = Parser::new(tokens);
            match parser.parse() {
                Err(error) => Err(SyntaxError::Parse(error)),
                Ok(node) => Ok(node),
            }
        },
    }
}

} // verus!
