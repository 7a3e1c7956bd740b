use script_syntax::lexer::tokenize;
use script_syntax::render::render;
use script_syntax::token::Token;

fn round_trip(source: &str) {
    let tokens = tokenize(source).expect("the source has no lexical error");
    let text = render(&tokens);
    assert_eq!(tokenize(&text), Ok(tokens));
}

#[test]
fn lexemes() {
    assert_eq!(Token::Identifier("abc".to_string()).lexeme(), "abc");
    assert_eq!(Token::Number("1.5".to_string()).lexeme(), "1.5");
    assert_eq!(Token::String("it".to_string()).lexeme(), "\"it\"");
    assert_eq!(Token::String("say \"hi\"".to_string()).lexeme(), "'say \"hi\"'");
    assert_eq!(Token::String("it's".to_string()).lexeme(), "\"it's\"");
    assert_eq!(Token::String("".to_string()).lexeme(), "\"\"");
    assert_eq!(Token::GreaterEqual.lexeme(), ">=");
    assert_eq!(Token::While.lexeme(), "while");
    assert_eq!(Token::EOF.lexeme(), "");
}

#[test]
fn rendering_puts_a_space_after_each_token() {
    assert_eq!(render(&vec![]), "");
    assert_eq!(render(&vec![Token::Var]), "var ");
    assert_eq!(
        render(&tokenize("var  x=10;//c").unwrap()),
        "var x = 10 ; "
    );
}

#[test]
fn rendering_is_stable() {
    round_trip("");
    round_trip("x >= 10");
    round_trip("var name = \"John\"; var other = 'say \"hi\"';");
    round_trip("a / b / c /= d * e");
    round_trip("1 /* c */ + /* c */ 2");
    round_trip("1.5 . 2 .3");
    round_trip("function f(a, b) { if (a <= b && !a || b) return a ? b : this; else while (true) a -= 1; }");
    round_trip("= = == ! = != & & && | | ||");
    round_trip("var iable variable null nullable");
}

#[test]
fn adjacent_slashes_stay_two_tokens() {
    let tokens = vec![Token::Slash, Token::Slash, Token::Star, Token::Slash];
    let text = render(&tokens);
    assert_eq!(text, "/ / * / ");
    assert_eq!(tokenize(&text), Ok(tokens));
}

#[test]
fn rendered_text_is_rendered_the_same_again() {
    let first = render(&tokenize("a+b  *\n'c'").unwrap());
    let second = render(&tokenize(&first).unwrap());
    assert_eq!(first, second);
    assert_eq!(first, "a + b * \"c\" ");
}
