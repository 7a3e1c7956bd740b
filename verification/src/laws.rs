//! Laws of tokenization, proved of the lexical rules.

use crate::chars::{spec_is_digit, spec_is_letter, spec_is_whitespace, spec_is_word_char};
use crate::error::LexErrorView;
use crate::render::{is_name, is_numeral, lexable, lexeme, quote_for, rendering};
use crate::scan::{
    CharClass, Scan, block_comment_end, char_at, fixed, lemma_block_comment_end_bounds,
    lemma_block_comment_end_is, lemma_next_token_advances, lemma_run_end_bounds,
    lemma_run_end_is, lemma_skip_trivia_bounds, line_comment_end, next_token, run_end, scan_token,
    skip_trivia, starts_block_comment, starts_line_comment, symbol_at, tokens_from, tokens_of,
};
use crate::token::{TokenKind, TokenView};
use vstd::prelude::*;

verus! {

/// How the symbols are spelled, character by character.
pub proof fn lemma_symbol_spellings()
    ensures
        TokenKind::LeftParen.spelling() == seq!['('],
        TokenKind::RightParen.spelling() == seq![')'],
        TokenKind::LeftBrace.spelling() == seq!['{'],
        TokenKind::RightBrace.spelling() == seq!['}'],
        TokenKind::LeftBracket.spelling() == seq!['['],
        TokenKind::RightBracket.spelling() == seq![']'],
        TokenKind::Comma.spelling() == seq![','],
        TokenKind::Dot.spelling() == seq!['.'],
        TokenKind::Minus.spelling() == seq!['-'],
        TokenKind::Plus.spelling() == seq!['+'],
        TokenKind::Semicolon.spelling() == seq![';'],
        TokenKind::Slash.spelling() == seq!['/'],
        TokenKind::Star.spelling() == seq!['*'],
        TokenKind::Bang.spelling() == seq!['!'],
        TokenKind::BangEqual.spelling() == seq!['!', '='],
        TokenKind::Equal.spelling() == seq!['='],
        TokenKind::EqualEqual.spelling() == seq!['=', '='],
        TokenKind::Greater.spelling() == seq!['>'],
        TokenKind::GreaterEqual.spelling() == seq!['>', '='],
        TokenKind::Less.spelling() == seq!['<'],
        TokenKind::LessEqual.spelling() == seq!['<', '='],
        TokenKind::Ampersand.spelling() == seq!['&'],
        TokenKind::AmpersandAmpersand.spelling() == seq!['&', '&'],
        TokenKind::Pipe.spelling() == seq!['|'],
        TokenKind::PipePipe.spelling() == seq!['|', '|'],
        TokenKind::Question.spelling() == seq!['?'],
        TokenKind::Colon.spelling() == seq![':'],
        TokenKind::PlusEqual.spelling() == seq!['+', '='],
        TokenKind::MinusEqual.spelling() == seq!['-', '='],
        TokenKind::StarEqual.spelling() == seq!['*', '='],
        TokenKind::SlashEqual.spelling() == seq!['/', '='],
{
    reveal_strlit("(");
    reveal_strlit(")");
    reveal_strlit("{");
    reveal_strlit("}");
    reveal_strlit("[");
    reveal_strlit("]");
    reveal_strlit(",");
    reveal_strlit(".");
    reveal_strlit("-");
    reveal_strlit("+");
    reveal_strlit(";");
    reveal_strlit("/");
    reveal_strlit("*");
    reveal_strlit("!");
    reveal_strlit("!=");
    reveal_strlit("=");
    reveal_strlit("==");
    reveal_strlit(">");
    reveal_strlit(">=");
    reveal_strlit("<");
    reveal_strlit("<=");
    reveal_strlit("&");
    reveal_strlit("&&");
    reveal_strlit("|");
    reveal_strlit("||");
    reveal_strlit("?");
    reveal_strlit(":");
    reveal_strlit("+=");
    reveal_strlit("-=");
    reveal_strlit("*=");
    reveal_strlit("/=");
    assert(TokenKind::LeftParen.spelling() =~= seq!['(']);
    assert(TokenKind::RightParen.spelling() =~= seq![')']);
    assert(TokenKind::LeftBrace.spelling() =~= seq!['{']);
    assert(TokenKind::RightBrace.spelling() =~= seq!['}']);
    assert(TokenKind::LeftBracket.spelling() =~= seq!['[']);
    assert(TokenKind::RightBracket.spelling() =~= seq![']']);
    assert(TokenKind::Comma.spelling() =~= seq![',']);
    assert(TokenKind::Dot.spelling() =~= seq!['.']);
    assert(TokenKind::Minus.spelling() =~= seq!['-']);
    assert(TokenKind::Plus.spelling() =~= seq!['+']);
    assert(TokenKind::Semicolon.spelling() =~= seq![';']);
    assert(TokenKind::Slash.spelling() =~= seq!['/']);
    assert(TokenKind::Star.spelling() =~= seq!['*']);
    assert(TokenKind::Bang.spelling() =~= seq!['!']);
    assert(TokenKind::BangEqual.spelling() =~= seq!['!', '=']);
    assert(TokenKind::Equal.spelling() =~= seq!['=']);
    assert(TokenKind::EqualEqual.spelling() =~= seq!['=', '=']);
    assert(TokenKind::Greater.spelling() =~= seq!['>']);
    assert(TokenKind::GreaterEqual.spelling() =~= seq!['>', '=']);
    assert(TokenKind::Less.spelling() =~= seq!['<']);
    assert(TokenKind::LessEqual.spelling() =~= seq!['<', '=']);
    assert(TokenKind::Ampersand.spelling() =~= seq!['&']);
    assert(TokenKind::AmpersandAmpersand.spelling() =~= seq!['&', '&']);
    assert(TokenKind::Pipe.spelling() =~= seq!['|']);
    assert(TokenKind::PipePipe.spelling() =~= seq!['|', '|']);
    assert(TokenKind::Question.spelling() =~= seq!['?']);
    assert(TokenKind::Colon.spelling() =~= seq![':']);
    assert(TokenKind::PlusEqual.spelling() =~= seq!['+', '=']);
    assert(TokenKind::MinusEqual.spelling() =~= seq!['-', '=']);
    assert(TokenKind::StarEqual.spelling() =~= seq!['*', '=']);
    assert(TokenKind::SlashEqual.spelling() =~= seq!['/', '=']);
}

/// How the keywords are spelled, character by character.
pub proof fn lemma_keyword_spellings()
    ensures
        TokenKind::Var.spelling() == seq!['v', 'a', 'r'],
        TokenKind::If.spelling() == seq!['i', 'f'],
        TokenKind::Else.spelling() == seq!['e', 'l', 's', 'e'],
        TokenKind::While.spelling() == seq!['w', 'h', 'i', 'l', 'e'],
        TokenKind::Function.spelling() == seq!['f', 'u', 'n', 'c', 't', 'i', 'o', 'n'],
        TokenKind::Return.spelling() == seq!['r', 'e', 't', 'u', 'r', 'n'],
        TokenKind::This.spelling() == seq!['t', 'h', 'i', 's'],
        TokenKind::Null.spelling() == seq!['n', 'u', 'l', 'l'],
        TokenKind::True.spelling() == seq!['t', 'r', 'u', 'e'],
        TokenKind::False.spelling() == seq!['f', 'a', 'l', 's', 'e'],
{
    reveal_strlit("var");
    reveal_strlit("if");
    reveal_strlit("else");
    reveal_strlit("while");
    reveal_strlit("function");
    reveal_strlit("return");
    reveal_strlit("this");
    reveal_strlit("null");
    reveal_strlit("true");
    reveal_strlit("false");
    assert(TokenKind::Var.spelling() =~= seq!['v', 'a', 'r']);
    assert(TokenKind::If.spelling() =~= seq!['i', 'f']);
    assert(TokenKind::Else.spelling() =~= seq!['e', 'l', 's', 'e']);
    assert(TokenKind::While.spelling() =~= seq!['w', 'h', 'i', 'l', 'e']);
    assert(TokenKind::Function.spelling() =~= seq!['f', 'u', 'n', 'c', 't', 'i', 'o', 'n']);
    assert(TokenKind::Return.spelling() =~= seq!['r', 'e', 't', 'u', 'r', 'n']);
    assert(TokenKind::This.spelling() =~= seq!['t', 'h', 'i', 's']);
    assert(TokenKind::Null.spelling() =~= seq!['n', 'u', 'l', 'l']);
    assert(TokenKind::True.spelling() =~= seq!['t', 'r', 'u', 'e']);
    assert(TokenKind::False.spelling() =~= seq!['f', 'a', 'l', 's', 'e']);
}

/// That the characters of `s` from `i` on are those of `word`, followed by a
/// space.
pub open spec fn spelled_at(s: Seq<char>, i: int, word: Seq<char>) -> bool {
    &&& 0 <= i
    &&& i + word.len() < s.len()
    &&& s.subrange(i, i + word.len()) == word
    &&& s[i + word.len()] == ' '
}

/// A symbol that is followed by a space is read as itself.
pub proof fn lemma_symbol_read(s: Seq<char>, i: int, kind: TokenKind)
    requires
        kind.is_symbol(),
        spelled_at(s, i, kind.spelling()),
    ensures
        skip_trivia(s, i) == Ok::<int, LexErrorView>(i),
        scan_token(s, i) == (Scan::Found { token: fixed(kind), next: i + kind.spelling().len() }),
{
    lemma_symbol_spellings();
    let word = kind.spelling();
    assert(word.len() == 1 || word.len() == 2);
    assert(s[i] == s.subrange(i, i + word.len())[0]);
    if word.len() == 2 {
        assert(s[i + 1] == s.subrange(i, i + word.len())[1]);
    }
}

/// A keyword that is followed by a space is read as itself.
pub proof fn lemma_keyword_read(s: Seq<char>, i: int, kind: TokenKind)
    requires
        kind.is_keyword(),
        spelled_at(s, i, kind.spelling()),
    ensures
        skip_trivia(s, i) == Ok::<int, LexErrorView>(i),
        scan_token(s, i) == (Scan::Found { token: fixed(kind), next: i + kind.spelling().len() }),
{
    lemma_keyword_spellings();
    let word = kind.spelling();
    let end = i + word.len();
    assert forall|k: int| i <= k < end implies CharClass::Word.admits(#[trigger] s[k]) by {
        assert(s[k] == s.subrange(i, end)[k - i]);
    }
    assert(s[i] == s.subrange(i, end)[0]);
    lemma_run_end_is(s, i, end, CharClass::Word);
}

/// A name that is followed by a space is read as an identifier.
pub proof fn lemma_name_read(s: Seq<char>, i: int, text: Seq<char>)
    requires
        is_name(text),
        spelled_at(s, i, text),
    ensures
        skip_trivia(s, i) == Ok::<int, LexErrorView>(i),
        scan_token(s, i) == (Scan::Found {
            token: TokenView { kind: TokenKind::Identifier, text },
            next: i + text.len(),
        }),
{
    let end = i + text.len();
    assert forall|k: int| i <= k < end implies CharClass::Word.admits(#[trigger] s[k]) by {
        assert(s[k] == s.subrange(i, end)[k - i]);
    }
    assert(s[i] == s.subrange(i, end)[0]);
    lemma_run_end_is(s, i, end, CharClass::Word);
}

/// The run of a class in a part of a text, when it ends inside the part or
/// the part is followed by a character outside the class, is the run in the
/// whole text.
pub proof fn lemma_run_end_in_part(
    s: Seq<char>,
    i: int,
    part: Seq<char>,
    from: int,
    class: CharClass,
)
    requires
        0 <= i,
        0 <= from <= part.len(),
        i + part.len() <= s.len(),
        s.subrange(i, i + part.len()) == part,
        i + part.len() < s.len() ==> !class.admits(s[i + part.len()]),
    ensures
        run_end(s, i + from, class) == i + run_end(part, from, class),
{
    let end = run_end(part, from, class);
    lemma_run_end_bounds(part, from, class);
    assert forall|k: int| i + from <= k < i + end implies class.admits(#[trigger] s[k]) by {
        assert(s[k] == s.subrange(i, i + part.len())[k - i]);
        assert(class.admits(part[k - i]));
    }
    if end < part.len() {
        assert(s[i + end] == s.subrange(i, i + part.len())[end]);
    }
    lemma_run_end_is(s, i + from, i + end, class);
}

/// A numeral that is followed by a space is read as a number.
pub proof fn lemma_numeral_read(s: Seq<char>, i: int, text: Seq<char>)
    requires
        is_numeral(text),
        spelled_at(s, i, text),
    ensures
        skip_trivia(s, i) == Ok::<int, LexErrorView>(i),
        scan_token(s, i) == (Scan::Found {
            token: TokenView { kind: TokenKind::Number, text },
            next: i + text.len(),
        }),
{
    let whole = run_end(text, 0, CharClass::Digit);
    lemma_run_end_bounds(text, 0, CharClass::Digit);
    lemma_run_end_in_part(s, i, text, 0, CharClass::Digit);
    assert(s[i] == s.subrange(i, i + text.len())[0]);
    assert(CharClass::Digit.admits(text[0]));
    if whole < text.len() {
        assert(s[i + whole] == s.subrange(i, i + text.len())[whole]);
        lemma_run_end_in_part(s, i, text, whole + 1, CharClass::Digit);
    }
}

/// A string literal that is followed by a space is read as a string with the
/// contents between its quotes.
pub proof fn lemma_string_read(s: Seq<char>, i: int, text: Seq<char>)
    requires
        !(text.contains('"') && text.contains('\'')),
        spelled_at(s, i, seq![quote_for(text)] + text + seq![quote_for(text)]),
    ensures
        skip_trivia(s, i) == Ok::<int, LexErrorView>(i),
        scan_token(s, i) == (Scan::Found {
            token: TokenView { kind: TokenKind::String, text },
            next: i + text.len() + 2,
        }),
{
    let quote = quote_for(text);
    let literal = seq![quote] + text + seq![quote];
    let close = i + 1 + text.len();
    assert(literal.len() == text.len() + 2);
    assert(s[i] == s.subrange(i, i + literal.len())[0]);
    assert(s[close] == s.subrange(i, i + literal.len())[close - i]);
    assert forall|k: int| i + 1 <= k < close implies CharClass::Quoted(quote).admits(
        #[trigger] s[k],
    ) by {
        assert(s[k] == s.subrange(i, i + literal.len())[k - i]);
        assert(s[k] == text[k - i - 1]);
        assert(text.contains(text[k - i - 1]));
    }
    lemma_run_end_is(s, i + 1, close, CharClass::Quoted(quote));
    assert(s.subrange(i + 1, close) =~= text) by {
        assert forall|k: int| 0 <= k < text.len() implies s.subrange(i + 1, close)[k]
            == text[k] by {
            assert(s[i + 1 + k] == s.subrange(i, i + literal.len())[k + 1]);
        }
    }
}

/// The lexeme of a token that the tokenizer can produce, followed by a
/// space, is read as that token.
pub proof fn lemma_lexeme_read(s: Seq<char>, i: int, token: TokenView)
    requires
        lexable(token),
        spelled_at(s, i, lexeme(token)),
    ensures
        next_token(s, i) == (Scan::Found { token, next: i + lexeme(token).len() }),
        lexeme(token).len() > 0,
{
    if token.kind == TokenKind::Identifier {
        lemma_name_read(s, i, token.text);
    } else if token.kind == TokenKind::Number {
        lemma_run_end_bounds(token.text, 0, CharClass::Digit);
        lemma_numeral_read(s, i, token.text);
    } else if token.kind == TokenKind::String {
        lemma_string_read(s, i, token.text);
    } else {
        assert(token.text =~= Seq::empty());
        if token.kind.is_symbol() {
            lemma_symbol_spellings();
            lemma_symbol_read(s, i, token.kind);
        } else {
            lemma_keyword_spellings();
            lemma_keyword_read(s, i, token.kind);
        }
    }
}

/// Rendering and tokenizing give the tokens back: where every token is one
/// that the tokenizer can produce, the rendering of the tokens, after any
/// text `before` it, is read from the end of `before` as the tokens.
pub proof fn lemma_rendering_read(before: Seq<char>, tokens: Seq<TokenView>)
    requires
        forall|k: int| 0 <= k < tokens.len() ==> lexable(#[trigger] tokens[k]),
    ensures
        tokens_from(before + rendering(tokens), before.len() as int) == Ok::<
            Seq<TokenView>,
            LexErrorView,
        >(tokens),
    decreases tokens.len(),
{
    let s = before + rendering(tokens);
    let i = before.len() as int;
    if tokens.len() == 0 {
        assert(s =~= before);
        assert(tokens =~= Seq::empty());
    } else {
        let token = tokens[0];
        let rest = tokens.drop_first();
        let word = lexeme(token);
        let end = i + word.len();
        assert(s =~= before + word + seq![' '] + rendering(rest));
        assert(s.subrange(i, end) =~= word);
        assert(s[end] == ' ');
        lemma_lexeme_read(s, i, token);
        let next_before = before + word + seq![' '];
        assert(s =~= next_before + rendering(rest));
        assert forall|k: int| 0 <= k < rest.len() implies lexable(#[trigger] rest[k]) by {
            assert(rest[k] == tokens[k + 1]);
        }
        lemma_rendering_read(next_before, rest);
        lemma_space_skipped(s, end);
        assert(seq![token] + rest =~= tokens);
    }
}

/// White space before a token changes nothing about the tokens.
pub proof fn lemma_space_skipped(s: Seq<char>, i: int)
    requires
        0 <= i < s.len(),
        spec_is_whitespace(s[i]),
    ensures
        next_token(s, i) == next_token(s, i + 1),
        tokens_from(s, i) == tokens_from(s, i + 1),
{
}

/// Round trip: the rendering of tokens that the tokenizer can produce is
/// tokenized to the same tokens.
pub proof fn lemma_render_then_tokenize(tokens: Seq<TokenView>)
    requires
        forall|k: int| 0 <= k < tokens.len() ==> lexable(#[trigger] tokens[k]),
    ensures
        tokens_of(rendering(tokens)) == Ok::<Seq<TokenView>, LexErrorView>(tokens),
{
    lemma_rendering_read(Seq::empty(), tokens);
    assert(Seq::<char>::empty() + rendering(tokens) =~= rendering(tokens));
}

/// Every token that is read is one that the tokenizer can produce.
pub proof fn lemma_scanned_is_lexable(s: Seq<char>, i: int)
    requires
        0 <= i < s.len(),
    ensures
        scan_token(s, i) matches Scan::Found { token, .. } ==> lexable(token),
{
    let c = s[i];
    if spec_is_digit(c) {
        let whole_end = run_end(s, i, CharClass::Digit);
        lemma_run_end_bounds(s, i, CharClass::Digit);
        if char_at(s, whole_end) == Some('.') {
            let end = run_end(s, whole_end + 1, CharClass::Digit);
            lemma_run_end_bounds(s, whole_end + 1, CharClass::Digit);
            if end != whole_end + 1 {
                let text = s.subrange(i, end);
                lemma_run_end_is(text, 0, whole_end - i, CharClass::Digit);
                lemma_run_end_is(text, whole_end - i + 1, text.len() as int, CharClass::Digit);
            }
        } else {
            let text = s.subrange(i, whole_end);
            lemma_run_end_is(text, 0, text.len() as int, CharClass::Digit);
        }
    } else if c == '"' || c == '\'' {
        let close = run_end(s, i + 1, CharClass::Quoted(c));
        lemma_run_end_bounds(s, i + 1, CharClass::Quoted(c));
        if close < s.len() {
            let text = s.subrange(i + 1, close);
            if text.contains(c) {
                let k = choose|k: int| 0 <= k < text.len() && text[k] == c;
                assert(CharClass::Quoted(c).admits(s[i + 1 + k]));
            }
        }
    } else if spec_is_letter(c) {
        let end = run_end(s, i, CharClass::Word);
        lemma_run_end_bounds(s, i, CharClass::Word);
        let text = s.subrange(i, end);
        assert forall|k: int| 0 <= k < text.len() implies spec_is_word_char(#[trigger] text[k]) by {
            assert(CharClass::Word.admits(s[i + k]));
        }
    } else {
    }
}

/// Every token of a text is one that the tokenizer can produce.
pub proof fn lemma_tokens_are_lexable(s: Seq<char>, i: int)
    requires
        0 <= i <= s.len(),
    ensures
        tokens_from(s, i) matches Ok(tokens) ==> forall|k: int|
            0 <= k < tokens.len() ==> lexable(#[trigger] tokens[k]),
    decreases s.len() - i,
{
    lemma_next_token_advances(s, i);
    lemma_skip_trivia_bounds(s, i);
    if let Scan::Found { token, next } = next_token(s, i) {
        lemma_scanned_is_lexable(s, skip_trivia(s, i)->Ok_0);
        lemma_tokens_are_lexable(s, next);
    }
}

/// Round trip: the tokens of a text, rendered and tokenized again, are the
/// same tokens.
pub proof fn lemma_round_trip(s: Seq<char>)
    ensures
        tokens_of(s) matches Ok(tokens) ==> tokens_of(rendering(tokens)) == Ok::<
            Seq<TokenView>,
            LexErrorView,
        >(tokens),
{
    lemma_tokens_are_lexable(s, 0);
    if let Ok(tokens) = tokens_of(s) {
        lemma_render_then_tokenize(tokens);
    }
}

/// A single character of white space.
pub open spec fn is_space(piece: Seq<char>) -> bool {
    piece.len() == 1 && spec_is_whitespace(piece[0])
}

/// A line comment with the line feed that ends it: `//`, then anything but a
/// line feed, then the line feed.
pub open spec fn is_line_comment(piece: Seq<char>) -> bool {
    &&& piece.len() >= 3
    &&& piece[0] == '/'
    &&& piece[1] == '/'
    &&& piece[piece.len() - 1] == '\n'
    &&& forall|k: int| 2 <= k < piece.len() - 1 ==> #[trigger] piece[k] != '\n'
}

/// A line comment that no line feed ends: `//`, then anything but a line
/// feed.
pub open spec fn is_open_line_comment(piece: Seq<char>) -> bool {
    &&& piece.len() >= 2
    &&& piece[0] == '/'
    &&& piece[1] == '/'
    &&& forall|k: int| 2 <= k < piece.len() ==> #[trigger] piece[k] != '\n'
}

/// A closed block comment: `/*`, then a text that holds no `*/`, then `*/`.
pub open spec fn is_block_comment(piece: Seq<char>) -> bool {
    &&& piece.len() >= 4
    &&& piece[0] == '/'
    &&& piece[1] == '*'
    &&& piece[piece.len() - 2] == '*'
    &&& piece[piece.len() - 1] == '/'
    &&& forall|k: int|
        2 <= k < piece.len() - 2 ==> !(#[trigger] piece[k] == '*' && piece[k + 1] == '/')
}

/// Pieces of white space and comments. Only the last piece may be a line
/// comment without its line feed: whatever followed it would belong to it.
pub open spec fn is_blank(pieces: Seq<Seq<char>>) -> bool {
    forall|k: int|
        0 <= k < pieces.len() ==> {
            let piece = #[trigger] pieces[k];
            ||| is_space(piece)
            ||| is_line_comment(piece)
            ||| is_block_comment(piece)
            ||| k == pieces.len() - 1 && is_open_line_comment(piece)
        }
}

/// The pieces one after the other.
pub open spec fn joined(pieces: Seq<Seq<char>>) -> Seq<char>
    decreases pieces.len(),
{
    if pieces.len() == 0 {
        Seq::empty()
    } else {
        pieces[0] + joined(pieces.drop_first())
    }
}

/// White space and comments are skipped to the end of the text, whatever
/// stands before them.
pub proof fn lemma_blank_skipped(before: Seq<char>, pieces: Seq<Seq<char>>)
    requires
        is_blank(pieces),
    ensures
        skip_trivia(before + joined(pieces), before.len() as int) == Ok::<int, LexErrorView>(
            (before + joined(pieces)).len() as int,
        ),
    decreases pieces.len(),
{
    let s = before + joined(pieces);
    let i = before.len() as int;
    if pieces.len() == 0 {
        assert(s =~= before);
    } else {
        let piece = pieces[0];
        let rest = pieces.drop_first();
        let end = i + piece.len();
        assert(s =~= before + piece + joined(rest));
        assert forall|k: int| 0 <= k < piece.len() implies s[i + k] == piece[k] by {}
        assert(s[i] == piece[0]);
        assert forall|k: int| 0 <= k < rest.len() implies {
            let other = #[trigger] rest[k];
            ||| is_space(other)
            ||| is_line_comment(other)
            ||| is_block_comment(other)
            ||| k == rest.len() - 1 && is_open_line_comment(other)
        } by {
            assert(rest[k] == pieces[k + 1]);
        }
        lemma_blank_skipped(before + piece, rest);
        assert(s =~= (before + piece) + joined(rest));
        if is_space(piece) {
        } else if is_line_comment(piece) {
            assert(s[i + 1] == piece[1]);
            assert(s[end - 1] == piece[piece.len() - 1]);
            assert forall|k: int| i + 2 <= k < end - 1 implies CharClass::Line.admits(
                #[trigger] s[k],
            ) by {
                assert(s[k] == piece[k - i]);
            }
            lemma_run_end_is(s, i + 2, end - 1, CharClass::Line);
        } else if is_block_comment(piece) {
            assert(s[i + 1] == piece[1]);
            assert(s[end - 2] == piece[piece.len() - 2]);
            assert(s[end - 1] == piece[piece.len() - 1]);
            assert forall|k: int| i + 2 <= k < end - 2 implies !(#[trigger] s[k] == '*' && s[k + 1]
                == '/') by {
                assert(s[k] == piece[k - i]);
                assert(s[k + 1] == piece[k - i + 1]);
            }
            lemma_block_comment_end_is(s, i + 2, end);
        } else {
            assert(rest.len() == 0);
            assert(joined(rest) =~= Seq::empty());
            assert(s[i + 1] == piece[1]);
            assert forall|k: int| i + 2 <= k < end implies CharClass::Line.admits(
                #[trigger] s[k],
            ) by {
                assert(s[k] == piece[k - i]);
            }
            lemma_run_end_is(s, i + 2, end, CharClass::Line);
        }
    }
}

/// A text that consists of white space and comments alone has no tokens.
pub proof fn lemma_blank_has_no_tokens(pieces: Seq<Seq<char>>)
    requires
        is_blank(pieces),
    ensures
        tokens_of(joined(pieces)) == Ok::<Seq<TokenView>, LexErrorView>(Seq::empty()),
{
    lemma_blank_skipped(Seq::empty(), pieces);
    assert(Seq::<char>::empty() + joined(pieces) =~= joined(pieces));
}

/// A comment before a token changes nothing about the tokens: what is read
/// from the start of a closed block comment, or of a line comment, is what
/// is read from its end.
pub proof fn lemma_comment_skipped(s: Seq<char>, i: int)
    requires
        0 <= i,
    ensures
        starts_line_comment(s, i) ==> tokens_from(s, i) == tokens_from(
            s,
            line_comment_end(s, i + 2),
        ),
        starts_block_comment(s, i) ==> match block_comment_end(s, i + 2) {
            Some(end) => tokens_from(s, i) == tokens_from(s, end),
            None => tokens_from(s, i) == Err::<Seq<TokenView>, LexErrorView>(
                LexErrorView::UnterminatedBlockComment(i),
            ),
        },
{
    if starts_line_comment(s, i) {
        lemma_run_end_bounds(s, i + 2, CharClass::Line);
        let end = line_comment_end(s, i + 2);
        assert(next_token(s, i) == next_token(s, end));
    }
    if starts_block_comment(s, i) {
        lemma_block_comment_end_bounds(s, i + 2);
        if let Some(end) = block_comment_end(s, i + 2) {
            assert(next_token(s, i) == next_token(s, end));
        }
    }
}

/// Maximal munch: where a symbol is spelled in the text, the symbol that is
/// read there is at least as long.
pub proof fn lemma_longest_symbol(s: Seq<char>, i: int, kind: TokenKind)
    requires
        kind.is_symbol(),
        0 <= i,
        i + kind.spelling().len() <= s.len(),
        s.subrange(i, i + kind.spelling().len()) == kind.spelling(),
    ensures
        symbol_at(s, i) matches Some((_, len)) && len >= kind.spelling().len(),
{
    lemma_symbol_spellings();
    let word = kind.spelling();
    assert(s[i] == s.subrange(i, i + word.len())[0]);
    if word.len() == 2 {
        assert(s[i + 1] == s.subrange(i, i + word.len())[1]);
    }
}

/// Keywords and identifiers part the words between them: a word is read as
/// one token that spans all of it, which is a keyword where the whole word
/// spells one, and otherwise the identifier of that name.
pub proof fn lemma_word_is_one_token(s: Seq<char>, i: int)
    requires
        0 <= i < s.len(),
        spec_is_letter(s[i]),
    ensures
        scan_token(s, i) matches Scan::Found { token, next } && {
            let word = s.subrange(i, next);
            &&& i < next <= s.len()
            &&& forall|k: int| 0 <= k < word.len() ==> spec_is_word_char(#[trigger] word[k])
            &&& next < s.len() ==> !spec_is_word_char(s[next])
            &&& token.kind == TokenKind::Identifier || token.kind.is_keyword()
            &&& token.kind == TokenKind::Identifier ==> token.text == word
            &&& token.kind.is_keyword() ==> token.kind.spelling() == word
        },
{
    lemma_run_end_bounds(s, i, CharClass::Word);
    let next = run_end(s, i, CharClass::Word);
    let word = s.subrange(i, next);
    assert forall|k: int| 0 <= k < word.len() implies spec_is_word_char(#[trigger] word[k]) by {
        assert(CharClass::Word.admits(s[i + k]));
    }
}

/// That two texts agree from a position of each on: what follows `i1` in
/// `s1` is what follows `i2` in `s2`.
pub open spec fn same_from(s1: Seq<char>, i1: int, s2: Seq<char>, i2: int) -> bool {
    &&& 0 <= i1 <= s1.len()
    &&& 0 <= i2 <= s2.len()
    &&& s1.skip(i1) == s2.skip(i2)
}

/// An error with its position moved by `by` characters.
pub open spec fn moved_error(error: LexErrorView, by: int) -> LexErrorView {
    match error {
        LexErrorView::UnknownCharacter(c, position) => LexErrorView::UnknownCharacter(
            c,
            position + by,
        ),
        LexErrorView::UnterminatedString(position) => LexErrorView::UnterminatedString(
            position + by,
        ),
        LexErrorView::UnterminatedBlockComment(position) => LexErrorView::UnterminatedBlockComment(
            position + by,
        ),
        LexErrorView::MalformedNumber(text, position) => LexErrorView::MalformedNumber(
            text,
            position + by,
        ),
    }
}

/// The outcome of reading a token, with every position moved by `by`
/// characters.
pub open spec fn moved_scan(scan: Scan, by: int) -> Scan {
    match scan {
        Scan::Found { token, next } => Scan::Found { token, next: next + by },
        Scan::End => Scan::End,
        Scan::Failed(error) => Scan::Failed(moved_error(error, by)),
    }
}

/// The tokens of a text, or its first error with its position moved by `by`
/// characters.
pub open spec fn moved_tokens(
    tokens: Result<Seq<TokenView>, LexErrorView>,
    by: int,
) -> Result<Seq<TokenView>, LexErrorView> {
    match tokens {
        Ok(tokens) => Ok(tokens),
        Err(error) => Err(moved_error(error, by)),
    }
}

/// Where two texts agree from a position on, they hold the same characters
/// at the same distance from it.
pub proof fn lemma_same_from_at(s1: Seq<char>, i1: int, s2: Seq<char>, i2: int, j: int)
    requires
        same_from(s1, i1, s2, i2),
        i1 <= j,
    ensures
        s1.len() - i1 == s2.len() - i2,
        char_at(s1, j) == char_at(s2, j + i2 - i1),
        j < s1.len() ==> s1[j] == s2[j + i2 - i1],
{
    assert(s1.skip(i1).len() == s2.skip(i2).len());
    if j < s1.len() {
        assert(s1[j] == s1.skip(i1)[j - i1]);
        assert(s2[j + i2 - i1] == s2.skip(i2)[j - i1]);
    }
}

/// Where two texts agree from a position on, they hold the same text between
/// positions at the same distances from it.
pub proof fn lemma_same_from_between(
    s1: Seq<char>,
    i1: int,
    s2: Seq<char>,
    i2: int,
    from: int,
    to: int,
)
    requires
        same_from(s1, i1, s2, i2),
        i1 <= from <= to <= s1.len(),
    ensures
        s1.subrange(from, to) == s2.subrange(from + i2 - i1, to + i2 - i1),
{
    lemma_same_from_at(s1, i1, s2, i2, from);
    assert forall|k: int| 0 <= k < to - from implies s1.subrange(from, to)[k] == s2.subrange(
        from + i2 - i1,
        to + i2 - i1,
    )[k] by {
        lemma_same_from_at(s1, i1, s2, i2, from + k);
    }
    assert(s1.subrange(from, to) =~= s2.subrange(from + i2 - i1, to + i2 - i1));
}

/// Where two texts agree from a position on, runs end at the same distance
/// from it.
pub proof fn lemma_run_end_moved(
    s1: Seq<char>,
    i1: int,
    s2: Seq<char>,
    i2: int,
    from: int,
    class: CharClass,
)
    requires
        same_from(s1, i1, s2, i2),
        i1 <= from,
    ensures
        run_end(s2, from + i2 - i1, class) == run_end(s1, from, class) + i2 - i1,
    decreases s1.len() - from,
{
    lemma_same_from_at(s1, i1, s2, i2, from);
    if from < s1.len() && class.admits(s1[from]) {
        lemma_run_end_moved(s1, i1, s2, i2, from + 1, class);
    }
}

/// Where two texts agree from a position on, block comments end at the same
/// distance from it.
pub proof fn lemma_block_comment_end_moved(
    s1: Seq<char>,
    i1: int,
    s2: Seq<char>,
    i2: int,
    from: int,
)
    requires
        same_from(s1, i1, s2, i2),
        i1 <= from,
    ensures
        block_comment_end(s2, from + i2 - i1) == match block_comment_end(s1, from) {
            Some(end) => Some(end + i2 - i1),
            None => None,
        },
    decreases s1.len() - from,
{
    lemma_same_from_at(s1, i1, s2, i2, from);
    lemma_same_from_at(s1, i1, s2, i2, from + 1);
    if from + 1 < s1.len() && !(s1[from] == '*' && s1[from + 1] == '/') {
        lemma_block_comment_end_moved(s1, i1, s2, i2, from + 1);
    }
}

/// Where two texts agree from a position on, white space and comments are
/// skipped to the same distance from it.
pub proof fn lemma_skip_trivia_moved(s1: Seq<char>, i1: int, s2: Seq<char>, i2: int, from: int)
    requires
        same_from(s1, i1, s2, i2),
        i1 <= from <= s1.len(),
    ensures
        skip_trivia(s2, from + i2 - i1) == match skip_trivia(s1, from) {
            Ok(start) => Ok::<int, LexErrorView>(start + i2 - i1),
            Err(error) => Err(moved_error(error, i2 - i1)),
        },
    decreases s1.len() - from,
{
    lemma_same_from_at(s1, i1, s2, i2, from);
    lemma_same_from_at(s1, i1, s2, i2, from + 1);
    if from < s1.len() {
        if spec_is_whitespace(s1[from]) {
            lemma_skip_trivia_moved(s1, i1, s2, i2, from + 1);
        } else if starts_line_comment(s1, from) {
            lemma_run_end_bounds(s1, from + 2, CharClass::Line);
            lemma_run_end_moved(s1, i1, s2, i2, from + 2, CharClass::Line);
            lemma_skip_trivia_moved(s1, i1, s2, i2, line_comment_end(s1, from + 2));
        } else if starts_block_comment(s1, from) {
            lemma_block_comment_end_bounds(s1, from + 2);
            lemma_block_comment_end_moved(s1, i1, s2, i2, from + 2);
            if let Some(end) = block_comment_end(s1, from + 2) {
                lemma_skip_trivia_moved(s1, i1, s2, i2, end);
            }
        }
    }
}

/// Where two texts agree from a position on, the same token is read at the
/// same distance from it.
pub proof fn lemma_scan_token_moved(s1: Seq<char>, i1: int, s2: Seq<char>, i2: int, from: int)
    requires
        same_from(s1, i1, s2, i2),
        i1 <= from < s1.len(),
    ensures
        scan_token(s2, from + i2 - i1) == moved_scan(scan_token(s1, from), i2 - i1),
{
    let by = i2 - i1;
    let c = s1[from];
    lemma_same_from_at(s1, i1, s2, i2, from);
    lemma_same_from_at(s1, i1, s2, i2, from + 1);
    if spec_is_digit(c) {
        let whole_end = run_end(s1, from, CharClass::Digit);
        lemma_run_end_bounds(s1, from, CharClass::Digit);
        lemma_run_end_moved(s1, i1, s2, i2, from, CharClass::Digit);
        lemma_same_from_at(s1, i1, s2, i2, whole_end);
        if char_at(s1, whole_end) == Some('.') {
            let end = run_end(s1, whole_end + 1, CharClass::Digit);
            lemma_run_end_bounds(s1, whole_end + 1, CharClass::Digit);
            lemma_run_end_moved(s1, i1, s2, i2, whole_end + 1, CharClass::Digit);
            lemma_same_from_between(s1, i1, s2, i2, from, end);
        } else {
            lemma_same_from_between(s1, i1, s2, i2, from, whole_end);
        }
    } else if c == '"' || c == '\'' {
        let close = run_end(s1, from + 1, CharClass::Quoted(c));
        lemma_run_end_bounds(s1, from + 1, CharClass::Quoted(c));
        lemma_run_end_moved(s1, i1, s2, i2, from + 1, CharClass::Quoted(c));
        if close < s1.len() {
            lemma_same_from_between(s1, i1, s2, i2, from + 1, close);
        }
    } else if spec_is_letter(c) {
        let end = run_end(s1, from, CharClass::Word);
        lemma_run_end_bounds(s1, from, CharClass::Word);
        lemma_run_end_moved(s1, i1, s2, i2, from, CharClass::Word);
        lemma_same_from_between(s1, i1, s2, i2, from, end);
    } else {
    }
}

/// Where two texts agree from a position on, the same token is read next at
/// the same distance from it.
pub proof fn lemma_next_token_moved(s1: Seq<char>, i1: int, s2: Seq<char>, i2: int, from: int)
    requires
        same_from(s1, i1, s2, i2),
        i1 <= from <= s1.len(),
    ensures
        next_token(s2, from + i2 - i1) == moved_scan(next_token(s1, from), i2 - i1),
{
    lemma_same_from_at(s1, i1, s2, i2, from);
    lemma_skip_trivia_moved(s1, i1, s2, i2, from);
    lemma_skip_trivia_bounds(s1, from);
    if let Ok(start) = skip_trivia(s1, from) {
        if start < s1.len() {
            lemma_scan_token_moved(s1, i1, s2, i2, start);
        }
    }
}

/// The tokens depend on nothing but the text that they are read from: where
/// two texts agree from a position on, they have the same tokens from there
/// on, or the same first error at the same distance from it.
pub proof fn lemma_tokens_moved(s1: Seq<char>, i1: int, s2: Seq<char>, i2: int, from: int)
    requires
        same_from(s1, i1, s2, i2),
        i1 <= from <= s1.len(),
    ensures
        tokens_from(s2, from + i2 - i1) == moved_tokens(tokens_from(s1, from), i2 - i1),
    decreases s1.len() - from,
{
    lemma_next_token_moved(s1, i1, s2, i2, from);
    lemma_next_token_advances(s1, from);
    if let Scan::Found { token, next } = next_token(s1, from) {
        lemma_tokens_moved(s1, i1, s2, i2, next);
    }
}

/// That `piece` stands in `s` at `i`.
pub open spec fn stands_at(s: Seq<char>, i: int, piece: Seq<char>) -> bool {
    &&& 0 <= i
    &&& i + piece.len() <= s.len()
    &&& s.subrange(i, i + piece.len()) == piece
}

/// What is read from the start of a closed block comment is what is read
/// from its end.
pub proof fn lemma_block_comment_passed(s: Seq<char>, i: int, comment: Seq<char>)
    requires
        is_block_comment(comment),
        stands_at(s, i, comment),
    ensures
        tokens_from(s, i) == tokens_from(s, i + comment.len()),
{
    let end = i + comment.len();
    assert forall|k: int| i <= k < end implies s[k] == comment[k - i] by {
        assert(s[k] == s.subrange(i, end)[k - i]);
    }
    assert forall|k: int| i + 2 <= k < end - 2 implies !(#[trigger] s[k] == '*' && s[k + 1]
        == '/') by {
        assert(s[k] == comment[k - i]);
        assert(s[k + 1] == comment[k - i + 1]);
    }
    lemma_block_comment_end_is(s, i + 2, end);
    assert(starts_block_comment(s, i));
    lemma_comment_skipped(s, i);
}

/// What is read from the start of a line comment is what is read from
/// behind its line feed.
pub proof fn lemma_line_comment_passed(s: Seq<char>, i: int, comment: Seq<char>)
    requires
        is_line_comment(comment),
        stands_at(s, i, comment),
    ensures
        tokens_from(s, i) == tokens_from(s, i + comment.len()),
{
    let end = i + comment.len();
    assert forall|k: int| i <= k < end implies s[k] == comment[k - i] by {
        assert(s[k] == s.subrange(i, end)[k - i]);
    }
    assert forall|k: int| i + 2 <= k < end - 1 implies CharClass::Line.admits(#[trigger] s[k]) by {
        assert(s[k] == comment[k - i]);
    }
    lemma_run_end_is(s, i + 2, end - 1, CharClass::Line);
    assert(starts_line_comment(s, i));
    assert(line_comment_end(s, i + 2) == end);
    lemma_comment_skipped(s, i);
}

/// Comment transparency: a closed block comment, or a line comment with its
/// line feed, reads as a single space does. Whatever stands `before` and
/// `after` it, the tokens from where the comment starts on are those from
/// where the space stands in its place, and so is the first error, moved by
/// what the comment is longer than the space.
pub proof fn lemma_comment_reads_as_space(
    before: Seq<char>,
    comment: Seq<char>,
    after: Seq<char>,
)
    requires
        is_block_comment(comment) || is_line_comment(comment),
    ensures
        tokens_from(before + comment + after, before.len() as int) == moved_tokens(
            tokens_from(before + seq![' '] + after, before.len() as int),
            comment.len() - 1,
        ),
{
    let with_comment = before + comment + after;
    let with_space = before + seq![' '] + after;
    let i = before.len() as int;
    let end = i + comment.len();
    assert(with_comment.subrange(i, end) =~= comment);
    if is_block_comment(comment) {
        lemma_block_comment_passed(with_comment, i, comment);
    } else {
        lemma_line_comment_passed(with_comment, i, comment);
    }
    assert(with_space[i] == ' ');
    lemma_space_skipped(with_space, i);
    assert(with_space.skip(i + 1) =~= after);
    assert(with_comment.skip(end) =~= after);
    lemma_tokens_moved(with_space, i + 1, with_comment, end, i + 1);
}

} // verus!
