use script_syntax::chars::{is_digit, is_letter, is_whitespace, is_word_char};
use script_syntax::error::LexError;
use script_syntax::lexer::{tokenize, tokenize_with_offsets, Lexer};
use script_syntax::token::{Token, TokenKind};

/// The number token with the given numeral, which must have the given value.
fn number(numeral: &str, value: f64) -> Token {
    assert_eq!(numeral.parse::<f64>(), Ok(value));
    Token::Number(numeral.to_string())
}

fn identifier(name: &str) -> Token {
    Token::Identifier(name.to_string())
}

#[test]
fn test_next_token() {
    let source = "var x = 10;";
    let mut lexer = Lexer::new(source);

    assert_eq!(lexer.next_token(), Ok(Some(Token::Var)));
    assert_eq!(lexer.next_token(), Ok(Some(Token::Identifier("x".to_string()))));
    assert_eq!(lexer.next_token(), Ok(Some(Token::Equal)));
    assert_eq!(lexer.next_token(), Ok(Some(number("10", 10.0))));
    assert_eq!(lexer.next_token(), Ok(Some(Token::Semicolon)));
    assert_eq!(lexer.next_token(), Ok(None));
}

#[test]
fn test_string_token() {
    let source = "var name = \"John\";";
    let mut lexer = Lexer::new(source);

    assert_eq!(lexer.next_token(), Ok(Some(Token::Var)));
    assert_eq!(
        lexer.next_token(),
        Ok(Some(Token::Identifier("name".to_string())))
    );
    assert_eq!(lexer.next_token(), Ok(Some(Token::Equal)));
    assert_eq!(lexer.next_token(), Ok(Some(Token::String("John".to_string()))));
    assert_eq!(lexer.next_token(), Ok(Some(Token::Semicolon)));
    assert_eq!(lexer.next_token(), Ok(None));
}

#[test]
fn test_comparison_tokens() {
    let source = "x > 10 && y < 20";
    let mut lexer = Lexer::new(source);

    assert_eq!(lexer.next_token(), Ok(Some(Token::Identifier("x".to_string()))));
    assert_eq!(lexer.next_token(), Ok(Some(Token::Greater)));
    assert_eq!(lexer.next_token(), Ok(Some(number("10", 10.0))));
    assert_eq!(lexer.next_token(), Ok(Some(Token::AmpersandAmpersand)));
    assert_eq!(lexer.next_token(), Ok(Some(Token::Identifier("y".to_string()))));
    assert_eq!(lexer.next_token(), Ok(Some(Token::Less)));
    assert_eq!(lexer.next_token(), Ok(Some(number("20", 20.0))));
    assert_eq!(lexer.next_token(), Ok(None));
}

#[test]
fn test_number() {
    let mut lexer = Lexer::new("123");
    let token = lexer.next_token();
    assert_eq!(token, Ok(Some(number("123", 123.0))));
}

#[test]
fn test_string() {
    let mut lexer = Lexer::new("\"hello world\"");
    let token = lexer.next_token();
    assert_eq!(token, Ok(Some(Token::String("hello world".to_string()))));
}

#[test]
fn test_identifier() {
    let mut lexer = Lexer::new("var x = 10");
    let token1 = lexer.next_token();
    let token2 = lexer.next_token();
    let token3 = lexer.next_token();
    let token4 = lexer.next_token();
    assert_eq!(token1, Ok(Some(Token::Var)));
    assert_eq!(token2, Ok(Some(Token::Identifier("x".to_string()))));
    assert_eq!(token3, Ok(Some(Token::Equal)));
    assert_eq!(token4, Ok(Some(number("10", 10.0))));
}

#[test]
fn test_operators() {
    let mut lexer = Lexer::new("a + b");
    let token1 = lexer.next_token();
    let token2 = lexer.next_token();
    let token3 = lexer.next_token();
    assert_eq!(token1, Ok(Some(Token::Identifier("a".to_string()))));
    assert_eq!(token2, Ok(Some(Token::Plus)));
    assert_eq!(token3, Ok(Some(Token::Identifier("b".to_string()))));
}

#[test]
fn test_punctuation() {
    let mut lexer = Lexer::new("if (x < 10) {");
    let token1 = lexer.next_token();
    let token2 = lexer.next_token();
    let token3 = lexer.next_token();
    let token4 = lexer.next_token();
    let token5 = lexer.next_token();
    let token6 = lexer.next_token();
    let token7 = lexer.next_token();
    assert_eq!(token1, Ok(Some(Token::If)));
    assert_eq!(token2, Ok(Some(Token::LeftParen)));
    assert_eq!(token3, Ok(Some(Token::Identifier("x".to_string()))));
    assert_eq!(token4, Ok(Some(Token::Less)));
    assert_eq!(token5, Ok(Some(number("10", 10.0))));
    assert_eq!(token6, Ok(Some(Token::RightParen)));
    assert_eq!(token7, Ok(Some(Token::LeftBrace)));
}

#[test]
fn test_comments() {
    let mut lexer = Lexer::new("// this is a comment");
    let token = lexer.next_token();
    assert_eq!(token, Ok(None));
}

#[test]
fn test_multiline_code() {
    let source = "var x = 10;
                      var y = 20;
                      var z = x + y;
                      return z;";
    let mut lexer = Lexer::new(source);

    let token1 = lexer.next_token();
    let token2 = lexer.next_token();
    let token3 = lexer.next_token();
    let token4 = lexer.next_token();
    let token5 = lexer.next_token();
    let token6 = lexer.next_token();
    let token7 = lexer.next_token();
    let token8 = lexer.next_token();
    let token9 = lexer.next_token();
    let token10 = lexer.next_token();
    let token11 = lexer.next_token();
    let token12 = lexer.next_token();
    let token13 = lexer.next_token();

    assert_eq!(token1, Ok(Some(Token::Var)));
    assert_eq!(token2, Ok(Some(Token::Identifier("x".to_string()))));
    assert_eq!(token3, Ok(Some(Token::Equal)));
    assert_eq!(token4, Ok(Some(number("10", 10.0))));
    assert_eq!(token5, Ok(Some(Token::Semicolon)));
    assert_eq!(token6, Ok(Some(Token::Var)));
    assert_eq!(token7, Ok(Some(Token::Identifier("y".to_string()))));
    assert_eq!(token8, Ok(Some(Token::Equal)));
    assert_eq!(token9, Ok(Some(number("20", 20.0))));
    assert_eq!(token10, Ok(Some(Token::Semicolon)));
    assert_eq!(token11, Ok(Some(Token::Var)));
    assert_eq!(token12, Ok(Some(Token::Identifier("z".to_string()))));
    assert_eq!(token13, Ok(Some(Token::Equal)));

    let token14 = lexer.next_token();
    let token15 = lexer.next_token();
    let token16 = lexer.next_token();
    let token17 = lexer.next_token();
    let token18 = lexer.next_token();
    assert_eq!(token14, Ok(Some(Token::Identifier("x".to_string()))));
    assert_eq!(token15, Ok(Some(Token::Plus)));
    assert_eq!(token16, Ok(Some(Token::Identifier("y".to_string()))));
    assert_eq!(token17, Ok(Some(Token::Semicolon)));
    assert_eq!(token18, Ok(Some(Token::Return)));
}

// Comments yield nothing of their own: each call skips them and hands out
// the token behind them.
#[test]
fn test_multiline_code_with_comments() {
    let source = "var x = 10; // x is assigned the value of 10
                      /* This is a block comment
                      var y = 20;
                      */ var z = x + 15; // z is assigned the value of x + 15
                      return z;";
    let mut lexer = Lexer::new(source);

    let token1 = lexer.next_token();
    let token2 = lexer.next_token();
    let token3 = lexer.next_token();
    let token4 = lexer.next_token();
    assert_eq!(token1, Ok(Some(Token::Var)));
    assert_eq!(token2, Ok(Some(Token::Identifier("x".to_string()))));
    assert_eq!(token3, Ok(Some(Token::Equal)));
    assert_eq!(token4, Ok(Some(number("10", 10.0))));

    let token5 = lexer.next_token();
    assert_eq!(token5, Ok(Some(Token::Semicolon)));

    let token6 = lexer.next_token();
    let token7 = lexer.next_token();
    let token8 = lexer.next_token();
    let token9 = lexer.next_token();
    let token10 = lexer.next_token();
    let token11 = lexer.next_token();
    let token12 = lexer.next_token();

    assert_eq!(token6, Ok(Some(Token::Var)));
    assert_eq!(token7, Ok(Some(Token::Identifier("z".to_string()))));
    assert_eq!(token8, Ok(Some(Token::Equal)));
    assert_eq!(token9, Ok(Some(Token::Identifier("x".to_string()))));
    assert_eq!(token10, Ok(Some(Token::Plus)));
    assert_eq!(token11, Ok(Some(number("15", 15.0))));
    assert_eq!(token12, Ok(Some(Token::Semicolon)));

    let token13 = lexer.next_token();
    let token14 = lexer.next_token();
    let token15 = lexer.next_token();

    assert_eq!(token13, Ok(Some(Token::Return)));
    assert_eq!(token14, Ok(Some(Token::Identifier("z".to_string()))));
    assert_eq!(token15, Ok(Some(Token::Semicolon)));

    assert_eq!(lexer.next_token(), Ok(None));
}

#[test]
fn kind_of_token() {
    assert_eq!(Token::Plus.kind(), TokenKind::Plus);
    assert_eq!(identifier("x").kind(), TokenKind::Identifier);
    assert_eq!(Token::String("x".to_string()).kind(), TokenKind::String);
    assert_eq!(Token::Number("1".to_string()).kind(), TokenKind::Number);
    assert_eq!(Token::EOF.kind(), TokenKind::EOF);
    assert_eq!(Token::Setter.kind(), TokenKind::Setter);
}

#[test]
fn text_of_token() {
    assert_eq!(identifier("abc").text(), Some(&"abc".to_string()));
    assert_eq!(Token::Semicolon.text(), None);
}

#[test]
fn clone_keeps_the_token() {
    assert_eq!(identifier("abc").clone(), identifier("abc"));
    assert_eq!(Token::PipePipe.clone(), Token::PipePipe);
}

#[test]
fn spelling_of_kinds() {
    assert_eq!(TokenKind::GreaterEqual.spelling_str(), ">=");
    assert_eq!(TokenKind::Function.spelling_str(), "function");
    assert_eq!(TokenKind::Setter.spelling_str(), "set");
    assert_eq!(TokenKind::Identifier.spelling_str(), "");
    assert_eq!(TokenKind::EOF.spelling_str(), "");
}

#[test]
fn white_space_and_comments_have_no_tokens() {
    assert_eq!(tokenize(""), Ok(vec![]));
    assert_eq!(tokenize(" \t\r\n"), Ok(vec![]));
    assert_eq!(tokenize("\u{A0}\u{2003}\u{3000}"), Ok(vec![]));
    assert_eq!(tokenize("// only a comment"), Ok(vec![]));
    assert_eq!(tokenize("/* a */ // b\n/* c\n d */\n"), Ok(vec![]));
    assert_eq!(tokenize("/**/"), Ok(vec![]));
}

#[test]
fn maximal_munch_greater_equal() {
    assert_eq!(
        tokenize("x >= 10"),
        Ok(vec![identifier("x"), Token::GreaterEqual, number("10", 10.0)])
    );
    assert_eq!(
        tokenize("x > = 10"),
        Ok(vec![identifier("x"), Token::Greater, Token::Equal, number("10", 10.0)])
    );
}

#[test]
fn two_character_operators() {
    assert_eq!(
        tokenize("== != <= >= && || += -= *= /="),
        Ok(vec![
            Token::EqualEqual,
            Token::BangEqual,
            Token::LessEqual,
            Token::GreaterEqual,
            Token::AmpersandAmpersand,
            Token::PipePipe,
            Token::PlusEqual,
            Token::MinusEqual,
            Token::StarEqual,
            Token::SlashEqual,
        ])
    );
}

#[test]
fn one_character_operators() {
    assert_eq!(
        tokenize("(){}[],.-+;/ *!=><&|?:"),
        Ok(vec![
            Token::LeftParen,
            Token::RightParen,
            Token::LeftBrace,
            Token::RightBrace,
            Token::LeftBracket,
            Token::RightBracket,
            Token::Comma,
            Token::Dot,
            Token::Minus,
            Token::Plus,
            Token::Semicolon,
            Token::Slash,
            Token::Star,
            Token::BangEqual,
            Token::Greater,
            Token::Less,
            Token::Ampersand,
            Token::Pipe,
            Token::Question,
            Token::Colon,
        ])
    );
    assert_eq!(tokenize("! ="), Ok(vec![Token::Bang, Token::Equal]));
}

#[test]
fn three_equal_signs_are_two_tokens() {
    assert_eq!(tokenize("==="), Ok(vec![Token::EqualEqual, Token::Equal]));
    assert_eq!(tokenize("++"), Ok(vec![Token::Plus, Token::Plus]));
}

#[test]
fn keyword_is_not_a_prefix() {
    assert_eq!(tokenize("variable"), Ok(vec![identifier("variable")]));
    assert_eq!(tokenize("var iable"), Ok(vec![Token::Var, identifier("iable")]));
    assert_eq!(tokenize("iffy"), Ok(vec![identifier("iffy")]));
    assert_eq!(tokenize("va"), Ok(vec![identifier("va")]));
}

#[test]
fn keywords_are_case_sensitive() {
    assert_eq!(
        tokenize("var if else while function return this null true false"),
        Ok(vec![
            Token::Var,
            Token::If,
            Token::Else,
            Token::While,
            Token::Function,
            Token::Return,
            Token::This,
            Token::Null,
            Token::True,
            Token::False,
        ])
    );
    assert_eq!(
        tokenize("Var IF True False"),
        Ok(vec![identifier("Var"), identifier("IF"), identifier("True"), identifier("False")])
    );
}

#[test]
fn words_of_a_fuller_grammar_are_identifiers() {
    assert_eq!(
        tokenize("break class set let"),
        Ok(vec![identifier("break"), identifier("class"), identifier("set"), identifier("let")])
    );
}

#[test]
fn identifiers_hold_digits_and_underscores() {
    assert_eq!(tokenize("a_1 b2_"), Ok(vec![identifier("a_1"), identifier("b2_")]));
    assert_eq!(tokenize("x1y"), Ok(vec![identifier("x1y")]));
    assert_eq!(tokenize("1x"), Ok(vec![number("1", 1.0), identifier("x")]));
}

#[test]
fn numbers_with_fractions() {
    assert_eq!(tokenize("3.25"), Ok(vec![number("3.25", 3.25)]));
    assert_eq!(tokenize("0.5+1"), Ok(vec![number("0.5", 0.5), Token::Plus, number("1", 1.0)]));
    assert_eq!(
        tokenize("1.2.3"),
        Ok(vec![number("1.2", 1.2), Token::Dot, number("3", 3.0)])
    );
    assert_eq!(tokenize("007"), Ok(vec![number("007", 7.0)]));
}

#[test]
fn malformed_number() {
    assert_eq!(tokenize("1."), Err(LexError::MalformedNumber("1.".to_string(), 0)));
    assert_eq!(tokenize("x = 12.;"), Err(LexError::MalformedNumber("12.".to_string(), 4)));
    assert_eq!(tokenize("1.x"), Err(LexError::MalformedNumber("1.".to_string(), 0)));
    assert_eq!(tokenize("1..2"), Err(LexError::MalformedNumber("1.".to_string(), 0)));
}

#[test]
fn strings_in_either_quote() {
    assert_eq!(tokenize("'it'"), Ok(vec![Token::String("it".to_string())]));
    assert_eq!(tokenize("\"it's\""), Ok(vec![Token::String("it's".to_string())]));
    assert_eq!(tokenize("'say \"hi\"'"), Ok(vec![Token::String("say \"hi\"".to_string())]));
    assert_eq!(tokenize("\"\""), Ok(vec![Token::String("".to_string())]));
    assert_eq!(
        tokenize("\"a // b /* c\""),
        Ok(vec![Token::String("a // b /* c".to_string())])
    );
    assert_eq!(tokenize("\"a\\\""), Ok(vec![Token::String("a\\".to_string())]));
}

#[test]
fn unterminated_string() {
    assert_eq!(tokenize("\"unterminated"), Err(LexError::UnterminatedString(0)));
    assert_eq!(tokenize("x = 'abc\""), Err(LexError::UnterminatedString(4)));
    assert_eq!(tokenize("\""), Err(LexError::UnterminatedString(0)));
}

#[test]
fn unterminated_block_comment() {
    assert_eq!(tokenize("/* never closed"), Err(LexError::UnterminatedBlockComment(0)));
    assert_eq!(tokenize("1 /*/"), Err(LexError::UnterminatedBlockComment(2)));
    assert_eq!(tokenize("/*"), Err(LexError::UnterminatedBlockComment(0)));
}

#[test]
fn unknown_character() {
    assert_eq!(tokenize("a # b"), Err(LexError::UnknownCharacter('#', 2)));
    assert_eq!(tokenize("_x"), Err(LexError::UnknownCharacter('_', 0)));
    assert_eq!(tokenize("^"), Err(LexError::UnknownCharacter('^', 0)));
    assert_eq!(tokenize("é"), Err(LexError::UnknownCharacter('é', 0)));
}

#[test]
fn positions_count_characters() {
    assert_eq!(tokenize("\"é\" #"), Err(LexError::UnknownCharacter('#', 4)));
}

#[test]
fn comments_are_transparent() {
    assert_eq!(tokenize("1 /* c */ + /* c */ 2"), tokenize("1 + 2"));
    assert_eq!(
        tokenize("1 + 2"),
        Ok(vec![number("1", 1.0), Token::Plus, number("2", 2.0)])
    );
    assert_eq!(tokenize("1 // c\n+ 2"), tokenize("1 + 2"));
    assert_eq!(tokenize("a/**/b"), Ok(vec![identifier("a"), identifier("b")]));
    assert_eq!(tokenize("a /* * / */ b"), Ok(vec![identifier("a"), identifier("b")]));
}

#[test]
fn slash_is_a_token_when_no_comment_starts() {
    assert_eq!(tokenize("a / b"), Ok(vec![identifier("a"), Token::Slash, identifier("b")]));
    assert_eq!(tokenize("a /= b"), Ok(vec![identifier("a"), Token::SlashEqual, identifier("b")]));
    assert_eq!(tokenize("/"), Ok(vec![Token::Slash]));
}

#[test]
fn error_leaves_the_lexer_in_place() {
    let mut lexer = Lexer::new("a  #");
    assert_eq!(lexer.next_token(), Ok(Some(identifier("a"))));
    assert_eq!(lexer.next_token(), Err(LexError::UnknownCharacter('#', 3)));
    assert_eq!(lexer.next_token(), Err(LexError::UnknownCharacter('#', 3)));
    assert_eq!(lexer.peek(), Some(' '));
}

#[test]
fn end_of_input_is_reported_again() {
    let mut lexer = Lexer::new("a ");
    assert_eq!(lexer.next_token(), Ok(Some(identifier("a"))));
    assert_eq!(lexer.next_token(), Ok(None));
    assert_eq!(lexer.next_token(), Ok(None));
    assert_eq!(lexer.peek(), None);
}

#[test]
fn cursor_primitives() {
    let mut lexer = Lexer::new("ab \n//c\nd/*e*/f");
    assert_eq!(lexer.peek(), Some('a'));
    assert_eq!(lexer.peek_n(0), Some('a'));
    assert_eq!(lexer.peek_n(1), Some('b'));
    assert_eq!(lexer.peek_n(100), None);
    assert_eq!(lexer.peek_n(usize::MAX), None);
    assert_eq!(lexer.next(), Some('a'));
    assert_eq!(lexer.next(), Some('b'));
    lexer.skip_whitespace();
    assert_eq!(lexer.peek(), Some('/'));
    lexer.skip_whitespace();
    assert_eq!(lexer.peek(), Some('/'));
    lexer.skip_comment();
    assert_eq!(lexer.next(), Some('d'));
    assert_eq!(lexer.next(), Some('/'));
    assert_eq!(lexer.next(), Some('*'));
    assert!(lexer.skip_comment_block());
    assert_eq!(lexer.next(), Some('f'));
    assert_eq!(lexer.next(), None);
    assert_eq!(lexer.peek(), None);
    assert!(!lexer.skip_comment_block());
    lexer.skip_comment();
    assert_eq!(lexer.peek(), None);
}

#[test]
fn skip_comment_stops_after_the_line_feed() {
    let mut lexer = Lexer::new("abc\n\nx");
    lexer.skip_comment();
    assert_eq!(lexer.peek(), Some('\n'));
    lexer.skip_comment();
    assert_eq!(lexer.peek(), Some('x'));
    lexer.skip_comment();
    assert_eq!(lexer.peek(), None);
}

#[test]
fn skip_comment_block_without_marker_goes_to_the_end() {
    let mut lexer = Lexer::new("a * / b *");
    assert!(!lexer.skip_comment_block());
    assert_eq!(lexer.peek(), None);
}

#[test]
fn character_classes() {
    assert!(is_digit('0') && is_digit('9') && !is_digit('a') && !is_digit('٣'));
    assert!(is_letter('a') && is_letter('Z') && !is_letter('_') && !is_letter('é'));
    assert!(is_word_char('_') && is_word_char('q') && is_word_char('5') && !is_word_char('-'));
    for c in ['\t', '\n', '\u{B}', '\u{C}', '\r', ' ', '\u{85}', '\u{A0}', '\u{1680}', '\u{2000}',
        '\u{200A}', '\u{2028}', '\u{2029}', '\u{202F}', '\u{205F}', '\u{3000}']
    {
        assert!(is_whitespace(c));
    }
    for c in ['a', '/', '\u{8}', '\u{E}', '\u{200B}', '\u{FEFF}', '\u{180E}'] {
        assert!(!is_whitespace(c));
    }
}

#[test]
fn white_space_is_what_the_standard_library_says() {
    let mut code: u32 = 0;
    while code <= 0x10FFFF {
        if let Some(c) = char::from_u32(code) {
            assert_eq!(is_whitespace(c), c.is_whitespace());
        }
        code += 1;
    }
}

#[test]
fn offsets_are_where_the_tokens_start() {
    assert_eq!(
        tokenize_with_offsets("  var x=\n/* c */ 'it'; // end"),
        Ok((
            vec![
                Token::Var,
                identifier("x"),
                Token::Equal,
                Token::String("it".to_string()),
                Token::Semicolon,
            ],
            vec![2, 6, 7, 17, 21],
        ))
    );
    assert_eq!(tokenize_with_offsets(" \n"), Ok((vec![], vec![])));
    assert_eq!(tokenize_with_offsets("a 1."), Err(LexError::MalformedNumber("1.".to_string(), 2)));
    assert_eq!(tokenize_with_offsets("a /* "), Err(LexError::UnterminatedBlockComment(2)));
}

#[test]
fn lines_and_columns_count_from_zero() {
    let lexer = Lexer::new("ab\ncd\n\nxyz");
    assert_eq!(lexer.line_and_column(0), (0, 0));
    assert_eq!(lexer.line_and_column(1), (0, 1));
    assert_eq!(lexer.line_and_column(2), (0, 2));
    assert_eq!(lexer.line_and_column(3), (1, 0));
    assert_eq!(lexer.line_and_column(5), (1, 2));
    assert_eq!(lexer.line_and_column(6), (2, 0));
    assert_eq!(lexer.line_and_column(7), (3, 0));
    assert_eq!(lexer.line_and_column(9), (3, 2));
    assert_eq!(lexer.line_and_column(10), (3, 3));
    assert_eq!(lexer.line_and_column(11), (3, 3));
    assert_eq!(lexer.line_and_column(usize::MAX), (3, 3));
    assert_eq!(Lexer::new("").line_and_column(0), (0, 0));
}

#[test]
fn offset_follows_the_cursor() {
    let mut lexer = Lexer::new("  ab /* c */ +");
    assert_eq!(lexer.offset(), 0);
    assert_eq!(lexer.skip_trivia(), Ok(()));
    assert_eq!(lexer.offset(), 2);
    assert_eq!(lexer.skip_trivia(), Ok(()));
    assert_eq!(lexer.offset(), 2);
    assert_eq!(lexer.next_token(), Ok(Some(identifier("ab"))));
    assert_eq!(lexer.offset(), 4);
    assert_eq!(lexer.skip_trivia(), Ok(()));
    assert_eq!(lexer.offset(), 13);
    assert_eq!(lexer.next_token(), Ok(Some(Token::Plus)));
    assert_eq!(lexer.skip_trivia(), Ok(()));
    assert_eq!(lexer.offset(), 14);
}

#[test]
fn skip_trivia_reports_an_open_comment() {
    let mut lexer = Lexer::new(" // a\n /* b");
    assert_eq!(lexer.skip_trivia(), Err(LexError::UnterminatedBlockComment(7)));
    assert_eq!(lexer.offset(), 0);
}
