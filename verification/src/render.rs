//! The canonical source text of tokens: each token as it is spelled, with one
//! space after it.

use crate::chars::{spec_is_letter, spec_is_word_char};
use crate::scan::{CharClass, keyword_kind, run_end};
use crate::token::{Token, TokenKind, TokenView, token_views};
use vstd::prelude::*;

verus! {

/// The quote that a string literal with the contents `text` is written in:
/// the double quote, unless the contents hold one.
pub open spec fn quote_for(text: Seq<char>) -> char {
    if text.contains('"') {
        '\''
    } else {
        '"'
    }
}

/// The source text of one token.
pub open spec fn lexeme(token: TokenView) -> Seq<char> {
    if token.kind == TokenKind::Identifier || token.kind == TokenKind::Number {
        token.text
    } else if token.kind == TokenKind::String {
        seq![quote_for(token.text)] + token.text + seq![quote_for(token.text)]
    } else {
        token.kind.spelling()
    }
}

/// The source text of a sequence of tokens: the lexeme of each, followed by a
/// space.
pub open spec fn rendering(tokens: Seq<TokenView>) -> Seq<char>
    decreases tokens.len(),
{
    if tokens.len() == 0 {
        Seq::empty()
    } else {
        lexeme(tokens[0]) + seq![' '] + rendering(tokens.drop_first())
    }
}

/// Whether `text` is a numeral: digits, and then, if anything follows, a
/// decimal point and at least one more digit.
pub open spec fn is_numeral(text: Seq<char>) -> bool {
    let whole = run_end(text, 0, CharClass::Digit);
    whole > 0 && (whole == text.len() || (text[whole] == '.' && whole + 1 < text.len() && run_end(
        text,
        whole + 1,
        CharClass::Digit,
    ) == text.len()))
}

/// Whether `text` is the name of an identifier: a letter, then letters,
/// digits and underscores, and no keyword.
pub open spec fn is_name(text: Seq<char>) -> bool {
    &&& text.len() > 0
    &&& spec_is_letter(text[0])
    &&& forall|k: int| 0 <= k < text.len() ==> spec_is_word_char(#[trigger] text[k])
    &&& keyword_kind(text) is None
}

/// Whether a token is one that the tokenizer can produce: a symbol or a
/// keyword of its tables without text, an identifier with a name, a number
/// with a numeral, or a string that some quote can enclose.
pub open spec fn lexable(token: TokenView) -> bool {
    if token.kind == TokenKind::Identifier {
        is_name(token.text)
    } else if token.kind == TokenKind::Number {
        is_numeral(token.text)
    } else if token.kind == TokenKind::String {
        !(token.text.contains('"') && token.text.contains('\''))
    } else {
        (token.kind.is_symbol() || token.kind.is_keyword()) && token.text.len() == 0
    }
}

/// Whether `text` holds the character `c`.
fn holds(text: &str, c: char) -> (found: bool)
    ensures
        found == text@.contains(c),
{
    let mut found = false;
    for d in it: text.chars()
        invariant
            it.seq() == text@,
            found == it.seq().take(it.index()).contains(c),
    {
        proof {
            let before = it.seq().take(it.index());
            let after = it.seq().take(it.index() + 1);
            assert(after =~= before.push(d));
            if before.contains(c) {
                let k = choose|k: int| 0 <= k < before.len() && before[k] == c;
                assert(after[k] == c);
            }
            if d == c {
                assert(after[it.index()] == c);
            }
        }
        if d == c {
            found = true;
        }
    }
    proof {
        assert(text@.take(text@.len() as int) =~= text@);
    }
    found
}

impl Token {
    /// The source text of the token.
    pub fn lexeme(&self) -> (text: String)
        ensures
            text@ == lexeme(self@),
    {
        match self {
            Token::Identifier(text) | Token::Number(text) => text.clone(),
            Token::String(text) => {
                let quote = if holds(text.as_str(), '"') {
                    '\''
                } else {
                    '"'
                };
                let mut literal = String::new();
                literal.push(quote);
                literal.append(text.as_str());
                literal.push(quote);
                assert(literal@ =~= seq![quote] + text@ + seq![quote]);
                literal
            },
            _ => String::from_str(self.kind().spelling_str()),
        }
    }
}

/// The source text of `tokens`: the lexeme of each, followed by a space.
pub fn render(tokens: &Vec<Token>) -> (text: String)
    ensures
        text@ == rendering(token_views(tokens@)),
{
    let ghost views = token_views(tokens@);
    let mut text = String::new();
    let mut i: usize = 0;
    proof {
        assert(views.skip(0) =~= views);
        assert(text@ + rendering(views) =~= rendering(views));
    }
    while i < tokens.len()
        invariant
            i <= tokens.len(),
            views == token_views(tokens@),
            text@ + rendering(views.skip(i as int)) == rendering(views),
        decreases tokens.len() - i,
    {
        let lexeme = tokens[i].lexeme();
        proof {
            let rest = views.skip(i as int);
            assert(rest[0] == tokens@[i as int]@);
            assert(rest.drop_first() =~= views.skip(i + 1));
            assert(text@ + (lexeme@ + seq![' '] + rendering(views.skip(i + 1))) =~= text@ + lexeme@
                + seq![' '] + rendering(views.skip(i + 1)));
        }
        text.append(lexeme.as_str());
        text.push(' ');
        i += 1;
    }
    proof {
        assert(views.skip(i as int).len() == 0);
        assert(text@ + Seq::<char>::empty() =~= text@);
    }
    text
}

} // verus!
