//! The errors of the two stages. Both stages stop at the first error.

use crate::token::{Token, TokenView};
use vstd::prelude::*;

verus! {

/// Why tokenization stopped. Positions count characters from the start of the
/// source text.
#[derive(Debug, PartialEq)]
pub enum LexError {
    /// A character that starts no token, and where it stands.
    UnknownCharacter(char, usize),
    /// A string literal whose closing quote is missing; the position is that
    /// of the opening quote.
    UnterminatedString(usize),
    /// A block comment whose closing marker is missing; the position is that
    /// of its opening marker.
    UnterminatedBlockComment(usize),
    /// A numeral with a decimal point and no digit after it: the text read so
    /// far, dot included, and where it starts.
    MalformedNumber(String, usize),
}

/// The mathematical value of a [`LexError`].
pub enum LexErrorView {
    UnknownCharacter(char, int),
    UnterminatedString(int),
    UnterminatedBlockComment(int),
    MalformedNumber(Seq<char>, int),
}

impl View for LexError {
    type V = LexErrorView;

    open spec fn view(&self) -> LexErrorView {
        match self {
            LexError::UnknownCharacter(c, position) => LexErrorView::UnknownCharacter(
                *c,
                *position as int,
            ),
            LexError::UnterminatedString(position) => LexErrorView::UnterminatedString(
                *position as int,
            ),
            LexError::UnterminatedBlockComment(position) => LexErrorView::UnterminatedBlockComment(
                *position as int,
            ),
            LexError::MalformedNumber(text, position) => LexErrorView::MalformedNumber(
                text@,
                *position as int,
            ),
        }
    }
}

/// Why parsing stopped. Positions are indices into the token sequence.
#[derive(Debug, PartialEq)]
pub enum ParseError {
    /// A token that cannot stand where it was found.
    UnexpectedToken { expected: String, found: Token, position: usize },
    /// The tokens ended where more were needed.
    UnexpectedEndOfInput { expected: String },
}

/// The mathematical value of a [`ParseError`].
pub enum ParseErrorView {
    UnexpectedToken { expected: Seq<char>, found: TokenView, position: int },
    UnexpectedEndOfInput { expected: Seq<char> },
}

impl View for ParseError {
    type V = ParseErrorView;

    open spec fn view(&self) -> ParseErrorView {
        match self {
            ParseError::UnexpectedToken { expected, found, position } => {
                ParseErrorView::UnexpectedToken {
                    expected: expected@,
                    found: found@,
                    position: *position as int,
                }
            },
            ParseError::UnexpectedEndOfInput { expected } => ParseErrorView::UnexpectedEndOfInput {
                expected: expected@,
            },
        }
    }
}

/// The values of a sequence of errors, in order.
pub open spec fn parse_error_views(errors: Seq<ParseError>) -> Seq<ParseErrorView> {
    Seq::new(errors.len(), |i: int| errors[i]@)
}

} // verus!
