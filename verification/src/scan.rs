//! What tokenization means: the lexical rules as functions on a sequence of
//! characters and a position in it.

use crate::chars::{is_digit, is_letter, is_whitespace, is_word_char};
use crate::error::LexErrorView;
use crate::token::{TokenKind, TokenView};
use vstd::prelude::*;

verus! {

/// A set of characters that a scanner runs across.
#[derive(Clone, Copy)]
pub enum CharClass {
    /// White space.
    Space,
    /// Decimal digits.
    Digit,
    /// Letters, digits and underscore.
    Word,
    /// Everything but a line feed.
    Line,
    /// Everything but the given quote.
    Quoted(char),
}

impl CharClass {
    pub open spec fn admits(self, c: char) -> bool {
        match self {
            CharClass::Space => is_whitespace(c),
            CharClass::Digit => is_digit(c),
            CharClass::Word => is_word_char(c),
            CharClass::Line => c != '\n',
            CharClass::Quoted(quote) => c != quote,
        }
    }
}

/// The character at `i`, if there is one.
pub open spec fn char_at(s: Seq<char>, i: int) -> Option<char> {
    if 0 <= i < s.len() {
        Some(s[i])
    } else {
        None
    }
}

/// Where the longest run of characters of `class` that starts at `from` ends:
/// the first position at or after `from` that holds no character of the class.
pub open spec fn run_end(s: Seq<char>, from: int, class: CharClass) -> int
    decreases s.len() - from,
{
    if 0 <= from < s.len() && class.admits(s[from]) {
        run_end(s, from + 1, class)
    } else {
        from
    }
}

/// Where a line comment whose text starts at `from` ends: after the next line
/// feed, or at the end of the input.
pub open spec fn line_comment_end(s: Seq<char>, from: int) -> int {
    let end = run_end(s, from, CharClass::Line);
    if end < s.len() {
        end + 1
    } else {
        end
    }
}

/// Where a block comment whose text starts at `from` ends: after the first
/// `*/` at or after `from`. `None` if there is no such marker.
pub open spec fn block_comment_end(s: Seq<char>, from: int) -> Option<int>
    decreases s.len() - from,
{
    if from < 0 || from + 1 >= s.len() {
        None
    } else if s[from] == '*' && s[from + 1] == '/' {
        Some(from + 2)
    } else {
        block_comment_end(s, from + 1)
    }
}

pub open spec fn starts_line_comment(s: Seq<char>, i: int) -> bool {
    char_at(s, i) == Some('/') && char_at(s, i + 1) == Some('/')
}

pub open spec fn starts_block_comment(s: Seq<char>, i: int) -> bool {
    char_at(s, i) == Some('/') && char_at(s, i + 1) == Some('*')
}

/// The first position at or after `i` that is neither white space nor inside
/// a comment, or the error of a block comment that is never closed.
pub open spec fn skip_trivia(s: Seq<char>, i: int) -> Result<int, LexErrorView>
    decreases s.len() - i,
{
    if i < 0 || i >= s.len() {
        Ok(i)
    } else if is_whitespace(s[i]) {
        skip_trivia(s, i + 1)
    } else if starts_line_comment(s, i) {
        proof {
            lemma_run_end_bounds(s, i + 2, CharClass::Line);
        }
        skip_trivia(s, line_comment_end(s, i + 2))
    } else if starts_block_comment(s, i) {
        proof {
            lemma_block_comment_end_bounds(s, i + 2);
        }
        match block_comment_end(s, i + 2) {
            Some(end) => skip_trivia(s, end),
            None => Err(LexErrorView::UnterminatedBlockComment(i)),
        }
    } else {
        Ok(i)
    }
}

/// The symbol that a single character spells.
pub open spec fn one_char_symbol(c: char) -> Option<TokenKind> {
    if c == '(' {
        Some(TokenKind::LeftParen)
    } else if c == ')' {
        Some(TokenKind::RightParen)
    } else if c == '{' {
        Some(TokenKind::LeftBrace)
    } else if c == '}' {
        Some(TokenKind::RightBrace)
    } else if c == '[' {
        Some(TokenKind::LeftBracket)
    } else if c == ']' {
        Some(TokenKind::RightBracket)
    } else if c == ',' {
        Some(TokenKind::Comma)
    } else if c == '.' {
        Some(TokenKind::Dot)
    } else if c == '-' {
        Some(TokenKind::Minus)
    } else if c == '+' {
        Some(TokenKind::Plus)
    } else if c == ';' {
        Some(TokenKind::Semicolon)
    } else if c == '/' {
        Some(TokenKind::Slash)
    } else if c == '*' {
        Some(TokenKind::Star)
    } else if c == '!' {
        Some(TokenKind::Bang)
    } else if c == '=' {
        Some(TokenKind::Equal)
    } else if c == '>' {
        Some(TokenKind::Greater)
    } else if c == '<' {
        Some(TokenKind::Less)
    } else if c == '&' {
        Some(TokenKind::Ampersand)
    } else if c == '|' {
        Some(TokenKind::Pipe)
    } else if c == '?' {
        Some(TokenKind::Question)
    } else if c == ':' {
        Some(TokenKind::Colon)
    } else {
        None
    }
}

/// The symbol that two adjacent characters spell.
pub open spec fn two_char_symbol(c: char, d: char) -> Option<TokenKind> {
    if c == '!' && d == '=' {
        Some(TokenKind::BangEqual)
    } else if c == '=' && d == '=' {
        Some(TokenKind::EqualEqual)
    } else if c == '>' && d == '=' {
        Some(TokenKind::GreaterEqual)
    } else if c == '<' && d == '=' {
        Some(TokenKind::LessEqual)
    } else if c == '&' && d == '&' {
        Some(TokenKind::AmpersandAmpersand)
    } else if c == '|' && d == '|' {
        Some(TokenKind::PipePipe)
    } else if c == '+' && d == '=' {
        Some(TokenKind::PlusEqual)
    } else if c == '-' && d == '=' {
        Some(TokenKind::MinusEqual)
    } else if c == '*' && d == '=' {
        Some(TokenKind::StarEqual)
    } else if c == '/' && d == '=' {
        Some(TokenKind::SlashEqual)
    } else {
        None
    }
}

/// The symbol at `i` and its length: the longer symbol wins over the shorter.
pub open spec fn symbol_at(s: Seq<char>, i: int) -> Option<(TokenKind, int)> {
    if 0 <= i && i + 1 < s.len() && two_char_symbol(s[i], s[i + 1]) is Some {
        Some((two_char_symbol(s[i], s[i + 1])->0, 2))
    } else if 0 <= i < s.len() && one_char_symbol(s[i]) is Some {
        Some((one_char_symbol(s[i])->0, 1))
    } else {
        None
    }
}

/// The keyword that `text` spells, if it is one. The comparison is exact:
/// `If` is no keyword.
pub open spec fn keyword_kind(text: Seq<char>) -> Option<TokenKind> {
    if text == TokenKind::Var.spelling() {
        Some(TokenKind::Var)
    } else if text == TokenKind::If.spelling() {
        Some(TokenKind::If)
    } else if text == TokenKind::Else.spelling() {
        Some(TokenKind::Else)
    } else if text == TokenKind::While.spelling() {
        Some(TokenKind::While)
    } else if text == TokenKind::Function.spelling() {
        Some(TokenKind::Function)
    } else if text == TokenKind::Return.spelling() {
        Some(TokenKind::Return)
    } else if text == TokenKind::This.spelling() {
        Some(TokenKind::This)
    } else if text == TokenKind::Null.spelling() {
        Some(TokenKind::Null)
    } else if text == TokenKind::True.spelling() {
        Some(TokenKind::True)
    } else if text == TokenKind::False.spelling() {
        Some(TokenKind::False)
    } else {
        None
    }
}

/// The outcome of reading one token.
pub enum Scan {
    /// A token, and the position after it.
    Found { token: TokenView, next: int },
    /// Nothing but white space and comments was left.
    End,
    /// The input breaks a lexical rule.
    Failed(LexErrorView),
}

/// The token without text of the given category.
pub open spec fn fixed(kind: TokenKind) -> TokenView {
    TokenView { kind, text: Seq::empty() }
}

/// A numeral at `i`: digits, and then, if a decimal point follows, the point
/// and at least one more digit.
pub open spec fn scan_number(s: Seq<char>, i: int) -> Scan {
    let whole_end = run_end(s, i, CharClass::Digit);
    if char_at(s, whole_end) == Some('.') {
        let end = run_end(s, whole_end + 1, CharClass::Digit);
        if end == whole_end + 1 {
            Scan::Failed(LexErrorView::MalformedNumber(s.subrange(i, end), i))
        } else {
            Scan::Found {
                token: TokenView { kind: TokenKind::Number, text: s.subrange(i, end) },
                next: end,
            }
        }
    } else {
        Scan::Found {
            token: TokenView { kind: TokenKind::Number, text: s.subrange(i, whole_end) },
            next: whole_end,
        }
    }
}

/// A string literal at `i`: everything between the quote at `i` and the next
/// occurrence of the same quote.
pub open spec fn scan_string(s: Seq<char>, i: int) -> Scan {
    let close = run_end(s, i + 1, CharClass::Quoted(s[i]));
    if close >= s.len() {
        Scan::Failed(LexErrorView::UnterminatedString(i))
    } else {
        Scan::Found {
            token: TokenView { kind: TokenKind::String, text: s.subrange(i + 1, close) },
            next: close + 1,
        }
    }
}

/// A word at `i`: the longest run of word characters, which is a keyword if
/// the keyword table holds it and an identifier otherwise.
pub open spec fn scan_word(s: Seq<char>, i: int) -> Scan {
    let end = run_end(s, i, CharClass::Word);
    let text = s.subrange(i, end);
    Scan::Found {
        token: match keyword_kind(text) {
            Some(kind) => fixed(kind),
            None => TokenView { kind: TokenKind::Identifier, text },
        },
        next: end,
    }
}

/// The token that starts at `i`, a position that holds a character which is
/// neither white space nor the start of a comment.
pub open spec fn scan_token(s: Seq<char>, i: int) -> Scan {
    let c = s[i];
    if is_digit(c) {
        scan_number(s, i)
    } else if c == '"' || c == '\'' {
        scan_string(s, i)
    } else if is_letter(c) {
        scan_word(s, i)
    } else {
        match symbol_at(s, i) {
            Some((kind, len)) => Scan::Found { token: fixed(kind), next: i + len },
            None => Scan::Failed(LexErrorView::UnknownCharacter(c, i)),
        }
    }
}

/// The next token at or after `i`, once white space and comments are skipped.
pub open spec fn next_token(s: Seq<char>, i: int) -> Scan {
    match skip_trivia(s, i) {
        Err(error) => Scan::Failed(error),
        Ok(start) => if start < 0 || start >= s.len() {
            Scan::End
        } else {
            scan_token(s, start)
        },
    }
}

/// All the tokens from `i` to the end of the input, or the first error.
pub open spec fn tokens_from(s: Seq<char>, i: int) -> Result<Seq<TokenView>, LexErrorView>
    decreases s.len() - i,
{
    match next_token(s, i) {
        Scan::End => Ok(Seq::empty()),
        Scan::Failed(error) => Err(error),
        Scan::Found { token, next } => {
            proof {
                lemma_next_token_advances(s, i);
            }
            match tokens_from(s, next) {
                Ok(rest) => Ok(seq![token] + rest),
                Err(error) => Err(error),
            }
        },
    }
}

/// Where the tokens from `i` to the end of the input start, token by token;
/// up to the first error, if there is one.
pub open spec fn starts_from(s: Seq<char>, i: int) -> Seq<int>
    decreases s.len() - i,
{
    match next_token(s, i) {
        Scan::Found { token, next } => {
            proof {
                lemma_next_token_advances(s, i);
            }
            seq![skip_trivia(s, i)->Ok_0] + starts_from(s, next)
        },
        _ => Seq::empty(),
    }
}

/// The number of line feeds before the position `p`: the line of `p`,
/// counted from zero.
pub open spec fn line_of(s: Seq<char>, p: int) -> int
    decreases p,
{
    if p <= 0 {
        0
    } else if p <= s.len() && s[p - 1] == '\n' {
        line_of(s, p - 1) + 1
    } else {
        line_of(s, p - 1)
    }
}

/// The number of characters between the last line feed before the position
/// `p` and `p`: the column of `p`, counted from zero.
pub open spec fn column_of(s: Seq<char>, p: int) -> int
    decreases p,
{
    if p <= 0 || (p <= s.len() && s[p - 1] == '\n') {
        0
    } else {
        column_of(s, p - 1) + 1
    }
}

/// The tokens of a whole source text, or the first error in it.
pub open spec fn tokens_of(s: Seq<char>) -> Result<Seq<TokenView>, LexErrorView> {
    tokens_from(s, 0)
}

/// A run ends at or after its start, within the input, on a character outside
/// the class, and holds only characters of the class.
pub proof fn lemma_run_end_bounds(s: Seq<char>, from: int, class: CharClass)
    requires
        0 <= from <= s.len(),
    ensures
        from <= run_end(s, from, class) <= s.len(),
        run_end(s, from, class) < s.len() ==> !class.admits(s[run_end(s, from, class)]),
        forall|k: int| from <= k < run_end(s, from, class) ==> class.admits(#[trigger] s[k]),
    decreases s.len() - from,
{
    if from < s.len() && class.admits(s[from]) {
        lemma_run_end_bounds(s, from + 1, class);
    }
}

/// A run that holds only characters of the class and is followed by none ends
/// where it is said to.
pub proof fn lemma_run_end_is(s: Seq<char>, from: int, end: int, class: CharClass)
    requires
        0 <= from <= end <= s.len(),
        forall|k: int| from <= k < end ==> class.admits(#[trigger] s[k]),
        end < s.len() ==> !class.admits(s[end]),
    ensures
        run_end(s, from, class) == end,
    decreases end - from,
{
    if from < end {
        lemma_run_end_is(s, from + 1, end, class);
    }
}

/// A closed block comment ends after its text starts, within the input, on
/// the first closing marker.
pub proof fn lemma_block_comment_end_bounds(s: Seq<char>, from: int)
    requires
        0 <= from,
    ensures
        block_comment_end(s, from) matches Some(end) ==> from + 2 <= end <= s.len() && s[end - 2]
            == '*' && s[end - 1] == '/',
    decreases s.len() - from,
{
    if from + 1 < s.len() && !(s[from] == '*' && s[from + 1] == '/') {
        lemma_block_comment_end_bounds(s, from + 1);
    }
}

/// A closing marker that no other precedes is where the block comment ends.
pub proof fn lemma_block_comment_end_is(s: Seq<char>, from: int, end: int)
    requires
        0 <= from <= end - 2,
        end <= s.len(),
        s[end - 2] == '*',
        s[end - 1] == '/',
        forall|k: int| from <= k < end - 2 ==> !(#[trigger] s[k] == '*' && s[k + 1] == '/'),
    ensures
        block_comment_end(s, from) == Some(end),
    decreases end - from,
{
    if from < end - 2 {
        lemma_block_comment_end_is(s, from + 1, end);
    }
}

/// Skipping white space and comments never moves backwards nor past the end.
pub proof fn lemma_skip_trivia_bounds(s: Seq<char>, i: int)
    requires
        0 <= i <= s.len(),
    ensures
        skip_trivia(s, i) matches Ok(start) ==> i <= start <= s.len(),
    decreases s.len() - i,
{
    if i < s.len() {
        if is_whitespace(s[i]) {
            lemma_skip_trivia_bounds(s, i + 1);
        } else if starts_line_comment(s, i) {
            lemma_run_end_bounds(s, i + 2, CharClass::Line);
            lemma_skip_trivia_bounds(s, line_comment_end(s, i + 2));
        } else if starts_block_comment(s, i) {
            lemma_block_comment_end_bounds(s, i + 2);
            if let Some(end) = block_comment_end(s, i + 2) {
                lemma_skip_trivia_bounds(s, end);
            }
        }
    }
}

/// Skipping white space and comments stops where a token starts or the input
/// ends: on a character that is no white space and starts no comment, from
/// where nothing more is skipped.
pub proof fn lemma_skip_trivia_stops(s: Seq<char>, i: int)
    requires
        0 <= i <= s.len(),
    ensures
        skip_trivia(s, i) matches Ok(start) ==> {
            &&& skip_trivia(s, start) == Ok::<int, LexErrorView>(start)
            &&& start < s.len() ==> !is_whitespace(s[start]) && !starts_line_comment(s, start)
                && !starts_block_comment(s, start)
        },
    decreases s.len() - i,
{
    if i < s.len() {
        if is_whitespace(s[i]) {
            lemma_skip_trivia_stops(s, i + 1);
        } else if starts_line_comment(s, i) {
            lemma_run_end_bounds(s, i + 2, CharClass::Line);
            lemma_skip_trivia_stops(s, line_comment_end(s, i + 2));
        } else if starts_block_comment(s, i) {
            lemma_block_comment_end_bounds(s, i + 2);
            if let Some(end) = block_comment_end(s, i + 2) {
                lemma_skip_trivia_stops(s, end);
            }
        }
    }
}

/// White space before a position changes nothing about what is skipped.
pub proof fn lemma_skip_trivia_over_space(s: Seq<char>, i: int)
    requires
        0 <= i <= s.len(),
    ensures
        skip_trivia(s, i) == skip_trivia(s, run_end(s, i, CharClass::Space)),
    decreases s.len() - i,
{
    if i < s.len() && is_whitespace(s[i]) {
        lemma_skip_trivia_over_space(s, i + 1);
    }
}

/// A token that starts within the input ends after its start and within the
/// input.
pub proof fn lemma_scan_token_advances(s: Seq<char>, i: int)
    requires
        0 <= i < s.len(),
    ensures
        scan_token(s, i) matches Scan::Found { next, .. } ==> i < next <= s.len(),
{
    lemma_run_end_bounds(s, i, CharClass::Digit);
    if run_end(s, i, CharClass::Digit) < s.len() {
        lemma_run_end_bounds(s, run_end(s, i, CharClass::Digit) + 1, CharClass::Digit);
    }
    lemma_run_end_bounds(s, i + 1, CharClass::Quoted(s[i]));
    lemma_run_end_bounds(s, i, CharClass::Word);
}

/// Reading a token consumes at least one character and stays within the
/// input.
pub proof fn lemma_next_token_advances(s: Seq<char>, i: int)
    ensures
        next_token(s, i) matches Scan::Found { next, .. } ==> i < next <= s.len(),
{
    if 0 <= i <= s.len() {
        lemma_skip_trivia_bounds(s, i);
        if let Ok(start) = skip_trivia(s, i) {
            if start < s.len() {
                lemma_scan_token_advances(s, start);
            }
        }
    }
}

} // verus!
