//! The tokenizer: a cursor over the characters of a source text that hands
//! out one token per call.

use crate::chars::{is_digit, is_letter, is_whitespace, is_word_char};
use crate::error::{LexError, LexErrorView};
use crate::scan;
use crate::scan::{CharClass, Scan, char_at};
use crate::token::{Token, TokenKind, TokenView, token_views};
use vstd::prelude::*;

verus! {

/// `String::push` appends the given character to the end of the string: the
/// characters of the string afterwards are those before, followed by `ch`.
pub assume_specification[ std::string::String::push ](s: &mut std::string::String, ch: char)
    ensures
        final(s)@ == old(s)@.push(ch),
;

/// A tokenizer over one source text. Its only state is the cursor.
pub struct Lexer {
    source: Vec<char>,
    pos: usize,
}

impl Lexer {
    #[verifier::type_invariant]
    spec fn cursor_in_bounds(&self) -> bool {
        self.pos <= self.source.len()
    }

    /// The characters of the source text.
    pub closed spec fn source(&self) -> Seq<char> {
        self.source@
    }

    /// The cursor: how many characters have been consumed.
    pub closed spec fn position(&self) -> int {
        self.pos as int
    }

    /// The cursor: how many characters have been consumed.
    pub fn offset(&self) -> (offset: usize)
        ensures
            offset == self.position(),
    {
        self.pos
    }

    /// The line and the column of the character at `offset`, both counted
    /// from zero; those of the end of the text where `offset` lies behind it.
    pub fn line_and_column(&self, offset: usize) -> (place: (usize, usize))
        ensures
            offset <= self.source().len() ==> place.0 == scan::line_of(self.source(), offset as int)
                && place.1 == scan::column_of(self.source(), offset as int),
            offset > self.source().len() ==> place.0 == scan::line_of(
                self.source(),
                self.source().len() as int,
            ) && place.1 == scan::column_of(self.source(), self.source().len() as int),
    {
        let end = if offset < self.source.len() {
            offset
        } else {
            self.source.len()
        };
        let mut line: usize = 0;
        let mut column: usize = 0;
        let mut i: usize = 0;
        while i < end
            invariant
                i <= end <= self.source@.len(),
                line <= i,
                column <= i,
                line == scan::line_of(self.source@, i as int),
                column == scan::column_of(self.source@, i as int),
            decreases end - i,
        {
            if self.source[i] == '\n' {
                line += 1;
                column = 0;
            } else {
                column += 1;
            }
            i += 1;
        }
        (line, column)
    }

    /// A tokenizer at the start of `source`.
    pub fn new(source: &str) -> (lexer: Lexer)
        ensures
            lexer.source() == source@,
            lexer.position() == 0,
    {
        let mut chars: Vec<char> = Vec::new();
        for c in it: source.chars()
            invariant
                chars@ == it.seq().take(it.index()),
                it.seq() == source@,
        {
            chars.push(c);
        }
        Lexer { source: chars, pos: 0 }
    }

    /// The character under the cursor, if any is left.
    pub fn peek(&self) -> (c: Option<char>)
        ensures
            c == char_at(self.source(), self.position()),
    {
        if self.pos < self.source.len() {
            Some(self.source[self.pos])
        } else {
            None
        }
    }

    /// The character `n` places after the cursor, if there is one.
    pub fn peek_n(&self, n: usize) -> (c: Option<char>)
        ensures
            c == char_at(self.source(), self.position() + n),
    {
        proof {
            use_type_invariant(self);
        }
        if n < self.source.len() - self.pos {
            Some(self.source[self.pos + n])
        } else {
            None
        }
    }

    /// Consumes and returns the character under the cursor, if any is left.
    pub fn next(&mut self) -> (c: Option<char>)
        ensures
            c == char_at(old(self).source(), old(self).position()),
            final(self).source() == old(self).source(),
            final(self).position() == old(self).position() + (if c is Some {
                1int
            } else {
                0int
            }),
    {
        if self.pos < self.source.len() {
            let c = self.source[self.pos];
            self.pos += 1;
            Some(c)
        } else {
            None
        }
    }

    /// Moves the cursor over white space, up to the first character that is
    /// none.
    pub fn skip_whitespace(&mut self)
        ensures
            final(self).source() == old(self).source(),
            final(self).position() == scan::run_end(
                old(self).source(),
                old(self).position(),
                CharClass::Space,
            ),
    {
        self.skip_run(CharClass::Space);
    }

    /// Moves the cursor to the end of the line: past the next line feed, or
    /// to the end of the input if there is none.
    pub fn skip_comment(&mut self)
        ensures
            final(self).source() == old(self).source(),
            final(self).position() == scan::line_comment_end(
                old(self).source(),
                old(self).position(),
            ),
    {
        self.skip_run(CharClass::Line);
        if self.pos < self.source.len() {
            self.pos += 1;
        }
    }

    /// Moves the cursor past the next `*/` and returns `true`; if there is
    /// none, moves it to the end of the input and returns `false`.
    pub fn skip_comment_block(&mut self) -> (closed: bool)
        ensures
            final(self).source() == old(self).source(),
            match scan::block_comment_end(old(self).source(), old(self).position()) {
                Some(end) => closed && final(self).position() == end,
                None => !closed && final(self).position() == old(self).source().len(),
            },
    {
        proof {
            use_type_invariant(&*self);
        }
        let len = self.source.len();
        while len - self.pos >= 2
            invariant
                self.pos <= len,
                len == self.source@.len(),
                self.source@ == old(self).source@,
                scan::block_comment_end(self.source@, self.pos as int) == scan::block_comment_end(
                    old(self).source@,
                    old(self).pos as int,
                ),
            decreases len - self.pos,
        {
            if self.source[self.pos] == '*' && self.source[self.pos + 1] == '/' {
                self.pos += 2;
                return true;
            }
            self.pos += 1;
        }
        self.pos = len;
        false
    }

    /// Moves the cursor over white space and comments, up to the first
    /// character that belongs to neither, or to the end of the input. A block
    /// comment that is never closed is an error, and the cursor stays where
    /// it was.
    pub fn skip_trivia(&mut self) -> (result: Result<(), LexError>)
        ensures
            final(self).source() == old(self).source(),
            match scan::skip_trivia(old(self).source(), old(self).position()) {
                Ok(start) => result is Ok && final(self).position() == start,
                Err(error) => {
                    &&& result matches Err(reported)
                    &&& reported@ == error
                    &&& final(self).position() == old(self).position()
                },
            },
    {
        proof {
            use_type_invariant(&*self);
        }
        let start = self.pos;
        let len = self.source.len();
        loop
            invariant
                self.pos <= len,
                start <= len,
                len == self.source@.len(),
                self.source@ == old(self).source@,
                start == old(self).pos,
                scan::skip_trivia(self.source@, self.pos as int) == scan::skip_trivia(
                    self.source@,
                    start as int,
                ),
            decreases len - self.pos,
        {
            proof {
                scan::lemma_skip_trivia_over_space(self.source@, self.pos as int);
                scan::lemma_run_end_bounds(self.source@, self.pos as int, CharClass::Space);
            }
            self.skip_whitespace();
            if self.pos >= len || self.source[self.pos] != '/' {
                return Ok(());
            }
            match self.peek_n(1) {
                Some('/') => {
                    proof {
                        scan::lemma_run_end_bounds(
                            self.source@,
                            self.pos as int + 2,
                            CharClass::Line,
                        );
                    }
                    self.pos += 2;
                    self.skip_comment();
                },
                Some('*') => {
                    let open = self.pos;
                    proof {
                        scan::lemma_block_comment_end_bounds(self.source@, self.pos as int + 2);
                    }
                    self.pos += 2;
                    if !self.skip_comment_block() {
                        self.pos = start;
                        return Err(LexError::UnterminatedBlockComment(open));
                    }
                },
                _ => {
                    return Ok(());
                },
            }
        }
    }

    /// Reads the next token. `Ok(None)` means that nothing but white space
    /// and comments was left. After an error the cursor is back where it was,
    /// so that the same call reports the same error again.
    pub fn next_token(&mut self) -> (result: Result<Option<Token>, LexError>)
        ensures
            final(self).source() == old(self).source(),
            match scan::next_token(old(self).source(), old(self).position()) {
                Scan::Found { token, next } => {
                    &&& result matches Ok(Some(found))
                    &&& found@ == token
                    &&& final(self).position() == next
                },
                Scan::End => {
                    &&& result matches Ok(None)
                    &&& final(self).position() == old(self).source().len()
                },
                Scan::Failed(error) => {
                    &&& result matches Err(reported)
                    &&& reported@ == error
                    &&& final(self).position() == old(self).position()
                },
            },
    {
        proof {
            use_type_invariant(&*self);
            scan::lemma_skip_trivia_bounds(self.source@, self.pos as int);
            scan::lemma_skip_trivia_stops(self.source@, self.pos as int);
        }
        let start = self.pos;
        match self.skip_trivia() {
            Ok(()) => {},
            Err(error) => {
                return Err(error);
            },
        }
        if self.pos >= self.source.len() {
            return Ok(None);
        }
        let c = self.source[self.pos];
        let scanned = if is_digit(c) {
            self.scan_number()
        } else if c == '"' || c == '\'' {
            self.scan_string()
        } else if is_letter(c) {
            Ok(self.scan_identifier())
        } else {
            self.scan_symbol()
        };
        match scanned {
            Ok(token) => Ok(Some(token)),
            Err(error) => {
                self.pos = start;
                Err(error)
            },
        }
    }

    /// Reads the numeral under the cursor.
    fn scan_number(&mut self) -> (result: Result<Token, LexError>)
        requires
            old(self).position() < old(self).source().len(),
        ensures
            final(self).source() == old(self).source(),
            final(self).position() <= final(self).source().len(),
            match scan::scan_number(old(self).source(), old(self).position()) {
                Scan::Found { token, next } => {
                    &&& result matches Ok(found)
                    &&& found@ == token
                    &&& final(self).position() == next
                },
                Scan::End => false,
                Scan::Failed(error) => result matches Err(reported) && reported@ == error,
            },
    {
        let start = self.pos;
        proof {
            scan::lemma_run_end_bounds(self.source@, start as int, CharClass::Digit);
        }
        self.skip_run(CharClass::Digit);
        if self.pos < self.source.len() && self.source[self.pos] == '.' {
            let dot = self.pos;
            proof {
                scan::lemma_run_end_bounds(self.source@, dot as int + 1, CharClass::Digit);
            }
            self.pos += 1;
            self.skip_run(CharClass::Digit);
            if self.pos == dot + 1 {
                return Err(LexError::MalformedNumber(self.text_between(start, self.pos), start));
            }
        }
        Ok(Token::Number(self.text_between(start, self.pos)))
    }

    /// Reads the string literal whose opening quote is under the cursor.
    fn scan_string(&mut self) -> (result: Result<Token, LexError>)
        requires
            old(self).position() < old(self).source().len(),
        ensures
            final(self).source() == old(self).source(),
            final(self).position() <= final(self).source().len(),
            match scan::scan_string(old(self).source(), old(self).position()) {
                Scan::Found { token, next } => {
                    &&& result matches Ok(found)
                    &&& found@ == token
                    &&& final(self).position() == next
                },
                Scan::End => false,
                Scan::Failed(error) => result matches Err(reported) && reported@ == error,
            },
    {
        let start = self.pos;
        let len = self.source.len();
        let quote = self.source[start];
        proof {
            scan::lemma_run_end_bounds(self.source@, start as int + 1, CharClass::Quoted(quote));
        }
        self.pos += 1;
        self.skip_run(CharClass::Quoted(quote));
        if self.pos >= len {
            Err(LexError::UnterminatedString(start))
        } else {
            let text = self.text_between(start + 1, self.pos);
            self.pos += 1;
            Ok(Token::String(text))
        }
    }

    /// Reads the word under the cursor: a keyword or an identifier.
    fn scan_identifier(&mut self) -> (found: Token)
        requires
            old(self).position() < old(self).source().len(),
        ensures
            final(self).source() == old(self).source(),
            final(self).position() <= final(self).source().len(),
            scan::scan_word(old(self).source(), old(self).position()) == (Scan::Found {
                token: found@,
                next: final(self).position(),
            }),
    {
        let start = self.pos;
        proof {
            scan::lemma_run_end_bounds(self.source@, start as int, CharClass::Word);
        }
        self.skip_run(CharClass::Word);
        let end = self.pos;
        if self.spells(start, end, TokenKind::Var) {
            Token::Var
        } else if self.spells(start, end, TokenKind::If) {
            Token::If
        } else if self.spells(start, end, TokenKind::Else) {
            Token::Else
        } else if self.spells(start, end, TokenKind::While) {
            Token::While
        } else if self.spells(start, end, TokenKind::Function) {
            Token::Function
        } else if self.spells(start, end, TokenKind::Return) {
            Token::Return
        } else if self.spells(start, end, TokenKind::This) {
            Token::This
        } else if self.spells(start, end, TokenKind::Null) {
            Token::Null
        } else if self.spells(start, end, TokenKind::True) {
            Token::True
        } else if self.spells(start, end, TokenKind::False) {
            Token::False
        } else {
            Token::Identifier(self.text_between(start, end))
        }
    }

    /// Reads the punctuation or operator under the cursor, which starts
    /// neither a comment, a word nor a literal.
    fn scan_symbol(&mut self) -> (result: Result<Token, LexError>)
        requires
            old(self).position() < old(self).source().len(),
            !scan::starts_line_comment(old(self).source(), old(self).position()),
            !scan::starts_block_comment(old(self).source(), old(self).position()),
        ensures
            final(self).source() == old(self).source(),
            final(self).position() <= final(self).source().len(),
            match scan::symbol_at(old(self).source(), old(self).position()) {
                Some((kind, len)) => {
                    &&& result matches Ok(found)
                    &&& found@ == scan::fixed(kind)
                    &&& final(self).position() == old(self).position() + len
                },
                None => {
                    &&& result matches Err(reported)
                    &&& reported@ == LexErrorView::UnknownCharacter(
                        old(self).source()[old(self).position()],
                        old(self).position(),
                    )
                },
            },
    {
        let c = self.source[self.pos];
        let token = match c {
            '(' => self.single(Token::LeftParen),
            ')' => self.single(Token::RightParen),
            '{' => self.single(Token::LeftBrace),
            '}' => self.single(Token::RightBrace),
            '[' => self.single(Token::LeftBracket),
            ']' => self.single(Token::RightBracket),
            ',' => self.single(Token::Comma),
            '.' => self.single(Token::Dot),
            ';' => self.single(Token::Semicolon),
            '?' => self.single(Token::Question),
            ':' => self.single(Token::Colon),
            '+' => self.either('=', Token::PlusEqual, Token::Plus),
            '-' => self.either('=', Token::MinusEqual, Token::Minus),
            '*' => self.either('=', Token::StarEqual, Token::Star),
            '/' => self.either('=', Token::SlashEqual, Token::Slash),
            '=' => self.either('=', Token::EqualEqual, Token::Equal),
            '!' => self.either('=', Token::BangEqual, Token::Bang),
            '<' => self.either('=', Token::LessEqual, Token::Less),
            '>' => self.either('=', Token::GreaterEqual, Token::Greater),
            '&' => self.either('&', Token::AmpersandAmpersand, Token::Ampersand),
            '|' => self.either('|', Token::PipePipe, Token::Pipe),
            _ => {
                return Err(LexError::UnknownCharacter(c, self.pos));
            },
        };
        Ok(token)
    }

    /// Consumes one character and yields `token`.
    fn single(&mut self, token: Token) -> (found: Token)
        requires
            old(self).position() < old(self).source().len(),
        ensures
            final(self).source() == old(self).source(),
            final(self).position() == old(self).position() + 1,
            found == token,
    {
        assert(self.source.len() == self.source@.len());
        self.pos += 1;
        token
    }

    /// Consumes two characters and yields `long` if `second` follows the
    /// character under the cursor; else consumes one and yields `short`.
    fn either(&mut self, second: char, long: Token, short: Token) -> (found: Token)
        requires
            old(self).position() < old(self).source().len(),
        ensures
            final(self).source() == old(self).source(),
            char_at(old(self).source(), old(self).position() + 1) == Some(second) ==> found == long
                && final(self).position() == old(self).position() + 2,
            char_at(old(self).source(), old(self).position() + 1) != Some(second) ==> found
                == short && final(self).position() == old(self).position() + 1,
    {
        if self.source.len() - self.pos >= 2 && self.source[self.pos + 1] == second {
            self.pos += 2;
            long
        } else {
            self.pos += 1;
            short
        }
    }

    /// The text between two positions of the source.
    fn text_between(&self, start: usize, end: usize) -> (text: String)
        requires
            start <= end <= self.source().len(),
        ensures
            text@ == self.source().subrange(start as int, end as int),
    {
        let mut text = String::new();
        let mut i = start;
        while i < end
            invariant
                start <= i <= end <= self.source@.len(),
                text@ == self.source@.subrange(start as int, i as int),
            decreases end - i,
        {
            text.push(self.source[i]);
            i += 1;
        }
        text
    }

    /// Whether the characters between two positions are the spelling of
    /// `kind`.
    fn spells(&self, start: usize, end: usize, kind: TokenKind) -> (b: bool)
        requires
            start <= end <= self.source().len(),
        ensures
            b == (self.source().subrange(start as int, end as int) == kind.spelling()),
    {
        let word = kind.spelling_str();
        let n = word.unicode_len();
        if end - start != n {
            return false;
        }
        let mut i: usize = 0;
        while i < n
            invariant
                i <= n,
                n == word@.len(),
                n == end - start,
                word@ == kind.spelling(),
                end <= self.source@.len(),
                self.source@.subrange(start as int, start + i) == word@.take(i as int),
            decreases n - i,
        {
            if self.source[start + i] != word.get_char(i) {
                assert(self.source@.subrange(start as int, end as int)[i as int]
                    != word@[i as int]);
                return false;
            }
            i += 1;
            assert(self.source@.subrange(start as int, start + i) =~= word@.take(i as int)) by {
                assert(self.source@.subrange(start as int, start + i - 1) == word@.take(i - 1));
                assert forall|k: int| 0 <= k < i implies self.source@.subrange(
                    start as int,
                    start + i,
                )[k] == word@.take(i as int)[k] by {
                    if k < i - 1 {
                        assert(self.source@.subrange(start as int, start + i - 1)[k] == word@.take(
                            i - 1,
                        )[k]);
                    }
                }
            }
        }
        assert(self.source@.subrange(start as int, end as int) =~= word@.take(n as int));
        assert(word@.take(n as int) =~= word@);
        true
    }

    /// Moves the cursor to the end of the run of `class` that starts under it.
    fn skip_run(&mut self, class: CharClass)
        ensures
            final(self).source() == old(self).source(),
            final(self).position() == scan::run_end(
                old(self).source(),
                old(self).position(),
                class,
            ),
    {
        proof {
            use_type_invariant(&*self);
        }
        while self.pos < self.source.len() && in_class(class, self.source[self.pos])
            invariant
                self.pos <= self.source@.len(),
                self.source@ == old(self).source@,
                scan::run_end(self.source@, self.pos as int, class) == scan::run_end(
                    old(self).source@,
                    old(self).pos as int,
                    class,
                ),
            decreases self.source@.len() - self.pos,
        {
            self.pos += 1;
        }
    }
}

/// Whether `c` belongs to `class`.
fn in_class(class: CharClass, c: char) -> (b: bool)
    ensures
        b == class.admits(c),
{
    match class {
        CharClass::Space => is_whitespace(c),
        CharClass::Digit => is_digit(c),
        CharClass::Word => is_word_char(c),
        CharClass::Line => c != '\n',
        CharClass::Quoted(quote) => c != quote,
    }
}

/// The tokens of `source` in order, or the first lexical error in it.
pub fn tokenize(source: &str) -> (result: Result<Vec<Token>, LexError>)
    ensures
        match scan::tokens_of(source@) {
            Ok(tokens) => result matches Ok(found) && token_views(found@) == tokens,
            Err(error) => result matches Err(reported) && reported@ == error,
        },
{
    match tokenize_with_offsets(source) {
        Ok((tokens, _)) => Ok(tokens),
        Err(error) => Err(error),
    }
}

/// The positions that `offsets` holds, as integers.
pub open spec fn offset_values(offsets: Seq<usize>) -> Seq<int> {
    Seq::new(offsets.len(), |i: int| offsets[i] as int)
}

/// The tokens of `source` in order, and for each of them the position of its
/// first character; or the first lexical error in `source`.
pub fn tokenize_with_offsets(source: &str) -> (result: Result<(Vec<Token>, Vec<usize>), LexError>)
    ensures
        match scan::tokens_of(source@) {
            Ok(tokens) => {
                &&& result matches Ok((found, offsets))
                &&& token_views(found@) == tokens
                &&& offset_values(offsets@) == scan::starts_from(source@, 0)
            },
            Err(error) => result matches Err(reported) && reported@ == error,
        },
{
    let mut lexer = Lexer::new(source);
    let mut tokens: Vec<Token> = Vec::new();
    let mut offsets: Vec<usize> = Vec::new();
    proof {
        assert(offset_values(offsets@) + scan::starts_from(source@, 0) =~= scan::starts_from(
            source@,
            0,
        ));
    }
    loop
        invariant
            lexer.source() == source@,
            0 <= lexer.position() <= source@.len(),
            scan::tokens_of(source@) == prepend(
                token_views(tokens@),
                scan::tokens_from(source@, lexer.position()),
            ),
            scan::starts_from(source@, 0) == offset_values(offsets@) + scan::starts_from(
                source@,
                lexer.position(),
            ),
        decreases source@.len() - lexer.position(),
    {
        let ghost before = lexer.position();
        proof {
            scan::lemma_next_token_advances(source@, before);
            scan::lemma_skip_trivia_stops(source@, before);
            scan::lemma_skip_trivia_bounds(source@, before);
        }
        match lexer.skip_trivia() {
            Ok(()) => {},
            Err(error) => {
                return Err(error);
            },
        }
        let start = lexer.offset();
        assert(scan::next_token(source@, start as int) == scan::next_token(source@, before));
        match lexer.next_token() {
            Ok(Some(token)) => {
                proof {
                    lemma_prepend_push(
                        token_views(tokens@),
                        token@,
                        scan::tokens_from(source@, lexer.position()),
                    );
                    assert(token_views(tokens@.push(token)) == token_views(tokens@).push(token@));
                    assert(offset_values(offsets@.push(start)) =~= offset_values(offsets@).push(
                        start as int,
                    ));
                    assert(offset_values(offsets@) + (seq![start as int] + scan::starts_from(
                        source@,
                        lexer.position(),
                    )) =~= offset_values(offsets@).push(start as int) + scan::starts_from(
                        source@,
                        lexer.position(),
                    ));
                }
                tokens.push(token);
                offsets.push(start);
            },
            Ok(None) => {
                assert(token_views(tokens@) + Seq::<TokenView>::empty() == token_views(tokens@));
                assert(offset_values(offsets@) + Seq::<int>::empty() == offset_values(offsets@));
                return Ok((tokens, offsets));
            },
            Err(error) => {
                return Err(error);
            },
        }
    }
}

/// The result `rest` of tokenizing what follows some tokens `head`, as the
/// result of tokenizing from where `head` started.
spec fn prepend(
    head: Seq<TokenView>,
    rest: Result<Seq<TokenView>, LexErrorView>,
) -> Result<Seq<TokenView>, LexErrorView> {
    match rest {
        Ok(tail) => Ok(head + tail),
        Err(error) => Err(error),
    }
}

proof fn lemma_prepend_push(
    head: Seq<TokenView>,
    token: TokenView,
    rest: Result<Seq<TokenView>, LexErrorView>,
)
    ensures
        prepend(head, prepend(seq![token], rest)) == prepend(head.push(token), rest),
{
    if let Ok(tail) = rest {
        assert(head + (seq![token] + tail) == head.push(token) + tail);
    }
}

} // verus!
