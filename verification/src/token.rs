//! The token model: lexeme categories and the payloads that some of them carry.

use vstd::prelude::*;

verus! {

/// The category of a token, without any payload.
///
/// The tokenizer produces the categories for which [`TokenKind::is_symbol`] or
/// [`TokenKind::is_keyword`] holds, and the three literal categories. The
/// remaining operator and word categories are reserved for a fuller grammar:
/// they can be built by hand, and the parser rejects them.
#[derive(Clone, Copy, Debug, PartialEq, Eq, Structural)]
pub enum TokenKind {
    // Single-character tokens
    LeftParen,
    RightParen,
    LeftBrace,
    RightBrace,
    LeftBracket,
    RightBracket,
    Comma,
    Dot,
    Minus,
    Plus,
    Semicolon,
    Slash,
    Star,
    // One or two character tokens
    Bang,
    BangEqual,
    Equal,
    EqualEqual,
    Greater,
    GreaterEqual,
    Less,
    LessEqual,
    GreaterGreater,
    GreaterGreaterEqual,
    LessLess,
    LessLessEqual,
    PlusPlus,
    MinusMinus,
    EqualEqualEqual,
    BangEqualEqual,
    Ampersand,
    AmpersandAmpersand,
    Pipe,
    PipePipe,
    Caret,
    Tilde,
    Question,
    Colon,
    // Compound assignment
    PlusEqual,
    MinusEqual,
    StarEqual,
    SlashEqual,
    // Literals
    Identifier,
    String,
    Number,
    // Keywords
    Break,
    Case,
    Catch,
    Class,
    Const,
    Continue,
    Debugger,
    Default,
    Delete,
    Do,
    Else,
    Export,
    Extends,
    Finally,
    For,
    Function,
    If,
    Import,
    In,
    Instanceof,
    New,
    Return,
    Super,
    Switch,
    This,
    Throw,
    Try,
    Typeof,
    Var,
    Void,
    While,
    With,
    // Future reserved words
    Enum,
    // Null literal
    Null,
    // Boolean literals
    True,
    False,
    // Special words
    Async,
    Await,
    Get,
    Setter,
    Of,
    // End of input
    EOF,
}

/// A lexical unit: a category and, for identifiers and literals, the text it
/// was read from.
///
/// `Identifier` holds the name, `String` the characters between the quotes,
/// and `Number` the numeral as written (`digit+ ('.' digit+)?`), so that no
/// precision is lost before a consumer decides how to evaluate it.
#[derive(Debug, PartialEq)]
pub enum Token {
    // Single-character tokens
    LeftParen,
    RightParen,
    LeftBrace,
    RightBrace,
    LeftBracket,
    RightBracket,
    Comma,
    Dot,
    Minus,
    Plus,
    Semicolon,
    Slash,
    Star,
    // One or two character tokens
    Bang,
    BangEqual,
    Equal,
    EqualEqual,
    Greater,
    GreaterEqual,
    Less,
    LessEqual,
    GreaterGreater,
    GreaterGreaterEqual,
    LessLess,
    LessLessEqual,
    PlusPlus,
    MinusMinus,
    EqualEqualEqual,
    BangEqualEqual,
    Ampersand,
    AmpersandAmpersand,
    Pipe,
    PipePipe,
    Caret,
    Tilde,
    Question,
    Colon,
    // Compound assignment
    PlusEqual,
    MinusEqual,
    StarEqual,
    SlashEqual,
    // Literals
    Identifier(String),
    String(String),
    Number(String),
    // Keywords
    Break,
    Case,
    Catch,
    Class,
    Const,
    Continue,
    Debugger,
    Default,
    Delete,
    Do,
    Else,
    Export,
    Extends,
    Finally,
    For,
    Function,
    If,
    Import,
    In,
    Instanceof,
    New,
    Return,
    Super,
    Switch,
    This,
    Throw,
    Try,
    Typeof,
    Var,
    Void,
    While,
    With,
    // Future reserved words
    Enum,
    // Null literal
    Null,
    // Boolean literals
    True,
    False,
    // Special words
    Async,
    Await,
    Get,
    Setter,
    Of,
    // End of input
    EOF,
}

/// The mathematical value of a [`Token`]: its category and its text, which is
/// empty for every category but identifiers and literals.
pub struct TokenView {
    pub kind: TokenKind,
    pub text: Seq<char>,
}

impl TokenKind {
    /// Identifiers, strings and numbers: the categories that carry text.
    pub open spec fn is_literal(self) -> bool {
        self == TokenKind::Identifier || self == TokenKind::String || self == TokenKind::Number
    }

    /// The punctuation and operator categories that the tokenizer produces.
    pub open spec fn is_symbol(self) -> bool {
        match self {
            TokenKind::LeftParen
            | TokenKind::RightParen
            | TokenKind::LeftBrace
            | TokenKind::RightBrace
            | TokenKind::LeftBracket
            | TokenKind::RightBracket
            | TokenKind::Comma
            | TokenKind::Dot
            | TokenKind::Minus
            | TokenKind::Plus
            | TokenKind::Semicolon
            | TokenKind::Slash
            | TokenKind::Star
            | TokenKind::Bang
            | TokenKind::BangEqual
            | TokenKind::Equal
            | TokenKind::EqualEqual
            | TokenKind::Greater
            | TokenKind::GreaterEqual
            | TokenKind::Less
            | TokenKind::LessEqual
            | TokenKind::Ampersand
            | TokenKind::AmpersandAmpersand
            | TokenKind::Pipe
            | TokenKind::PipePipe
            | TokenKind::Question
            | TokenKind::Colon
            | TokenKind::PlusEqual
            | TokenKind::MinusEqual
            | TokenKind::StarEqual
            | TokenKind::SlashEqual => true,
            _ => false,
        }
    }

    /// The word categories in the tokenizer's keyword table.
    pub open spec fn is_keyword(self) -> bool {
        match self {
            TokenKind::Var
            | TokenKind::If
            | TokenKind::Else
            | TokenKind::While
            | TokenKind::Function
            | TokenKind::Return
            | TokenKind::This
            | TokenKind::Null
            | TokenKind::True
            | TokenKind::False => true,
            _ => false,
        }
    }

    /// The fixed source text of a category; empty for the literal categories
    /// and for the end-of-input marker.
    pub open spec fn spelling(self) -> Seq<char> {
        match self {
            TokenKind::LeftParen => "("@,
            TokenKind::RightParen => ")"@,
            TokenKind::LeftBrace => "{"@,
            TokenKind::RightBrace => "}"@,
            TokenKind::LeftBracket => "["@,
            TokenKind::RightBracket => "]"@,
            TokenKind::Comma => ","@,
            TokenKind::Dot => "."@,
            TokenKind::Minus => "-"@,
            TokenKind::Plus => "+"@,
            TokenKind::Semicolon => ";"@,
            TokenKind::Slash => "/"@,
            TokenKind::Star => "*"@,
            TokenKind::Bang => "!"@,
            TokenKind::BangEqual => "!="@,
            TokenKind::Equal => "="@,
            TokenKind::EqualEqual => "=="@,
            TokenKind::Greater => ">"@,
            TokenKind::GreaterEqual => ">="@,
            TokenKind::Less => "<"@,
            TokenKind::LessEqual => "<="@,
            TokenKind::GreaterGreater => ">>"@,
            TokenKind::GreaterGreaterEqual => ">>="@,
            TokenKind::LessLess => "<<"@,
            TokenKind::LessLessEqual => "<<="@,
            TokenKind::PlusPlus => "++"@,
            TokenKind::MinusMinus => "--"@,
            TokenKind::EqualEqualEqual => "==="@,
            TokenKind::BangEqualEqual => "!=="@,
            TokenKind::Ampersand => "&"@,
            TokenKind::AmpersandAmpersand => "&&"@,
            TokenKind::Pipe => "|"@,
            TokenKind::PipePipe => "||"@,
            TokenKind::Caret => "^"@,
            TokenKind::Tilde => "~"@,
            TokenKind::Question => "?"@,
            TokenKind::Colon => ":"@,
            TokenKind::PlusEqual => "+="@,
            TokenKind::MinusEqual => "-="@,
            TokenKind::StarEqual => "*="@,
            TokenKind::SlashEqual => "/="@,
            TokenKind::Break => "break"@,
            TokenKind::Case => "case"@,
            TokenKind::Catch => "catch"@,
            TokenKind::Class => "class"@,
            TokenKind::Const => "const"@,
            TokenKind::Continue => "continue"@,
            TokenKind::Debugger => "debugger"@,
            TokenKind::Default => "default"@,
            TokenKind::Delete => "delete"@,
            TokenKind::Do => "do"@,
            TokenKind::Else => "else"@,
            TokenKind::Export => "export"@,
            TokenKind::Extends => "extends"@,
            TokenKind::Finally => "finally"@,
            TokenKind::For => "for"@,
            TokenKind::Function => "function"@,
            TokenKind::If => "if"@,
            TokenKind::Import => "import"@,
            TokenKind::In => "in"@,
            TokenKind::Instanceof => "instanceof"@,
            TokenKind::New => "new"@,
            TokenKind::Return => "return"@,
            TokenKind::Super => "super"@,
            TokenKind::Switch => "switch"@,
            TokenKind::This => "this"@,
            TokenKind::Throw => "throw"@,
            TokenKind::Try => "try"@,
            TokenKind::Typeof => "typeof"@,
            TokenKind::Var => "var"@,
            TokenKind::Void => "void"@,
            TokenKind::While => "while"@,
            TokenKind::With => "with"@,
            TokenKind::Enum => "enum"@,
            TokenKind::Null => "null"@,
            TokenKind::True => "true"@,
            TokenKind::False => "false"@,
            TokenKind::Async => "async"@,
            TokenKind::Await => "await"@,
            TokenKind::Get => "get"@,
            TokenKind::Setter => "set"@,
            TokenKind::Of => "of"@,
            _ => Seq::empty(),
        }
    }

    /// The fixed source text of a category, as a string slice.
    pub fn spelling_str(self) -> (text: &'static str)
        ensures
            text@ == self.spelling(),
    {
        match self {
            TokenKind::LeftParen => "(",
            TokenKind::RightParen => ")",
            TokenKind::LeftBrace => "{",
            TokenKind::RightBrace => "}",
            TokenKind::LeftBracket => "[",
            TokenKind::RightBracket => "]",
            TokenKind::Comma => ",",
            TokenKind::Dot => ".",
            TokenKind::Minus => "-",
            TokenKind::Plus => "+",
            TokenKind::Semicolon => ";",
            TokenKind::Slash => "/",
            TokenKind::Star => "*",
            TokenKind::Bang => "!",
            TokenKind::BangEqual => "!=",
            TokenKind::Equal => "=",
            TokenKind::EqualEqual => "==",
            TokenKind::Greater => ">",
            TokenKind::GreaterEqual => ">=",
            TokenKind::Less => "<",
            TokenKind::LessEqual => "<=",
            TokenKind::GreaterGreater => ">>",
            TokenKind::GreaterGreaterEqual => ">>=",
            TokenKind::LessLess => "<<",
            TokenKind::LessLessEqual => "<<=",
            TokenKind::PlusPlus => "++",
            TokenKind::MinusMinus => "--",
            TokenKind::EqualEqualEqual => "===",
            TokenKind::BangEqualEqual => "!==",
            TokenKind::Ampersand => "&",
            TokenKind::AmpersandAmpersand => "&&",
            TokenKind::Pipe => "|",
            TokenKind::PipePipe => "||",
            TokenKind::Caret => "^",
            TokenKind::Tilde => "~",
            TokenKind::Question => "?",
            TokenKind::Colon => ":",
            TokenKind::PlusEqual => "+=",
            TokenKind::MinusEqual => "-=",
            TokenKind::StarEqual => "*=",
            TokenKind::SlashEqual => "/=",
            TokenKind::Break => "break",
            TokenKind::Case => "case",
            TokenKind::Catch => "catch",
            TokenKind::Class => "class",
            TokenKind::Const => "const",
            TokenKind::Continue => "continue",
            TokenKind::Debugger => "debugger",
            TokenKind::Default => "default",
            TokenKind::Delete => "delete",
            TokenKind::Do => "do",
            TokenKind::Else => "else",
            TokenKind::Export => "export",
            TokenKind::Extends => "extends",
            TokenKind::Finally => "finally",
            TokenKind::For => "for",
            TokenKind::Function => "function",
            TokenKind::If => "if",
            TokenKind::Import => "import",
            TokenKind::In => "in",
            TokenKind::Instanceof => "instanceof",
            TokenKind::New => "new",
            TokenKind::Return => "return",
            TokenKind::Super => "super",
            TokenKind::Switch => "switch",
            TokenKind::This => "this",
            TokenKind::Throw => "throw",
            TokenKind::Try => "try",
            TokenKind::Typeof => "typeof",
            TokenKind::Var => "var",
            TokenKind::Void => "void",
            TokenKind::While => "while",
            TokenKind::With => "with",
            TokenKind::Enum => "enum",
            TokenKind::Null => "null",
            TokenKind::True => "true",
            TokenKind::False => "false",
            TokenKind::Async => "async",
            TokenKind::Await => "await",
            TokenKind::Get => "get",
            TokenKind::Setter => "set",
            TokenKind::Of => "of",
            _ => {
                proof {
                    reveal_strlit("");
                }
                assert(""@ =~= Seq::empty());
                ""
            },
        }
    }
}

impl Token {
    /// The category of a token.
    pub open spec fn spec_kind(&self) -> TokenKind {
        match self {
            Token::LeftParen => TokenKind::LeftParen,
            Token::RightParen => TokenKind::RightParen,
            Token::LeftBrace => TokenKind::LeftBrace,
            Token::RightBrace => TokenKind::RightBrace,
            Token::LeftBracket => TokenKind::LeftBracket,
            Token::RightBracket => TokenKind::RightBracket,
            Token::Comma => TokenKind::Comma,
            Token::Dot => TokenKind::Dot,
            Token::Minus => TokenKind::Minus,
            Token::Plus => TokenKind::Plus,
            Token::Semicolon => TokenKind::Semicolon,
            Token::Slash => TokenKind::Slash,
            Token::Star => TokenKind::Star,
            Token::Bang => TokenKind::Bang,
            Token::BangEqual => TokenKind::BangEqual,
            Token::Equal => TokenKind::Equal,
            Token::EqualEqual => TokenKind::EqualEqual,
            Token::Greater => TokenKind::Greater,
            Token::GreaterEqual => TokenKind::GreaterEqual,
            Token::Less => TokenKind::Less,
            Token::LessEqual => TokenKind::LessEqual,
            Token::GreaterGreater => TokenKind::GreaterGreater,
            Token::GreaterGreaterEqual => TokenKind::GreaterGreaterEqual,
            Token::LessLess => TokenKind::LessLess,
            Token::LessLessEqual => TokenKind::LessLessEqual,
            Token::PlusPlus => TokenKind::PlusPlus,
            Token::MinusMinus => TokenKind::MinusMinus,
            Token::EqualEqualEqual => TokenKind::EqualEqualEqual,
            Token::BangEqualEqual => TokenKind::BangEqualEqual,
            Token::Ampersand => TokenKind::Ampersand,
            Token::AmpersandAmpersand => TokenKind::AmpersandAmpersand,
            Token::Pipe => TokenKind::Pipe,
            Token::PipePipe => TokenKind::PipePipe,
            Token::Caret => TokenKind::Caret,
            Token::Tilde => TokenKind::Tilde,
            Token::Question => TokenKind::Question,
            Token::Colon => TokenKind::Colon,
            Token::PlusEqual => TokenKind::PlusEqual,
            Token::MinusEqual => TokenKind::MinusEqual,
            Token::StarEqual => TokenKind::StarEqual,
            Token::SlashEqual => TokenKind::SlashEqual,
            Token::Break => TokenKind::Break,
            Token::Case => TokenKind::Case,
            Token::Catch => TokenKind::Catch,
            Token::Class => TokenKind::Class,
            Token::Const => TokenKind::Const,
            Token::Continue => TokenKind::Continue,
            Token::Debugger => TokenKind::Debugger,
            Token::Default => TokenKind::Default,
            Token::Delete => TokenKind::Delete,
            Token::Do => TokenKind::Do,
            Token::Else => TokenKind::Else,
            Token::Export => TokenKind::Export,
            Token::Extends => TokenKind::Extends,
            Token::Finally => TokenKind::Finally,
            Token::For => TokenKind::For,
            Token::Function => TokenKind::Function,
            Token::If => TokenKind::If,
            Token::Import => TokenKind::Import,
            Token::In => TokenKind::In,
            Token::Instanceof => TokenKind::Instanceof,
            Token::New => TokenKind::New,
            Token::Return => TokenKind::Return,
            Token::Super => TokenKind::Super,
            Token::Switch => TokenKind::Switch,
            Token::This => TokenKind::This,
            Token::Throw => TokenKind::Throw,
            Token::Try => TokenKind::Try,
            Token::Typeof => TokenKind::Typeof,
            Token::Var => TokenKind::Var,
            Token::Void => TokenKind::Void,
            Token::While => TokenKind::While,
            Token::With => TokenKind::With,
            Token::Enum => TokenKind::Enum,
            Token::Null => TokenKind::Null,
            Token::True => TokenKind::True,
            Token::False => TokenKind::False,
            Token::Async => TokenKind::Async,
            Token::Await => TokenKind::Await,
            Token::Get => TokenKind::Get,
            Token::Setter => TokenKind::Setter,
            Token::Of => TokenKind::Of,
            Token::EOF => TokenKind::EOF,
            Token::Identifier(_) => TokenKind::Identifier,
            Token::String(_) => TokenKind::String,
            Token::Number(_) => TokenKind::Number,
        }
    }

    /// The category of a token.
    #[verifier::when_used_as_spec(spec_kind)]
    pub fn kind(&self) -> (kind: TokenKind)
        ensures
            kind == self.spec_kind(),
    {
        match self {
            Token::LeftParen => TokenKind::LeftParen,
            Token::RightParen => TokenKind::RightParen,
            Token::LeftBrace => TokenKind::LeftBrace,
            Token::RightBrace => TokenKind::RightBrace,
            Token::LeftBracket => TokenKind::LeftBracket,
            Token::RightBracket => TokenKind::RightBracket,
            Token::Comma => TokenKind::Comma,
            Token::Dot => TokenKind::Dot,
            Token::Minus => TokenKind::Minus,
            Token::Plus => TokenKind::Plus,
            Token::Semicolon => TokenKind::Semicolon,
            Token::Slash => TokenKind::Slash,
            Token::Star => TokenKind::Star,
            Token::Bang => TokenKind::Bang,
            Token::BangEqual => TokenKind::BangEqual,
            Token::Equal => TokenKind::Equal,
            Token::EqualEqual => TokenKind::EqualEqual,
            Token::Greater => TokenKind::Greater,
            Token::GreaterEqual => TokenKind::GreaterEqual,
            Token::Less => TokenKind::Less,
            Token::LessEqual => TokenKind::LessEqual,
            Token::GreaterGreater => TokenKind::GreaterGreater,
            Token::GreaterGreaterEqual => TokenKind::GreaterGreaterEqual,
            Token::LessLess => TokenKind::LessLess,
            Token::LessLessEqual => TokenKind::LessLessEqual,
            Token::PlusPlus => TokenKind::PlusPlus,
            Token::MinusMinus => TokenKind::MinusMinus,
            Token::EqualEqualEqual => TokenKind::EqualEqualEqual,
            Token::BangEqualEqual => TokenKind::BangEqualEqual,
            Token::Ampersand => TokenKind::Ampersand,
            Token::AmpersandAmpersand => TokenKind::AmpersandAmpersand,
            Token::Pipe => TokenKind::Pipe,
            Token::PipePipe => TokenKind::PipePipe,
            Token::Caret => TokenKind::Caret,
            Token::Tilde => TokenKind::Tilde,
            Token::Question => TokenKind::Question,
            Token::Colon => TokenKind::Colon,
            Token::PlusEqual => TokenKind::PlusEqual,
            Token::MinusEqual => TokenKind::MinusEqual,
            Token::StarEqual => TokenKind::StarEqual,
            Token::SlashEqual => TokenKind::SlashEqual,
            Token::Break => TokenKind::Break,
            Token::Case => TokenKind::Case,
            Token::Catch => TokenKind::Catch,
            Token::Class => TokenKind::Class,
            Token::Const => TokenKind::Const,
            Token::Continue => TokenKind::Continue,
            Token::Debugger => TokenKind::Debugger,
            Token::Default => TokenKind::Default,
            Token::Delete => TokenKind::Delete,
            Token::Do => TokenKind::Do,
            Token::Else => TokenKind::Else,
            Token::Export => TokenKind::Export,
            Token::Extends => TokenKind::Extends,
            Token::Finally => TokenKind::Finally,
            Token::For => TokenKind::For,
            Token::Function => TokenKind::Function,
            Token::If => TokenKind::If,
            Token::Import => TokenKind::Import,
            Token::In => TokenKind::In,
            Token::Instanceof => TokenKind::Instanceof,
            Token::New => TokenKind::New,
            Token::Return => TokenKind::Return,
            Token::Super => TokenKind::Super,
            Token::Switch => TokenKind::Switch,
            Token::This => TokenKind::This,
            Token::Throw => TokenKind::Throw,
            Token::Try => TokenKind::Try,
            Token::Typeof => TokenKind::Typeof,
            Token::Var => TokenKind::Var,
            Token::Void => TokenKind::Void,
            Token::While => TokenKind::While,
            Token::With => TokenKind::With,
            Token::Enum => TokenKind::Enum,
            Token::Null => TokenKind::Null,
            Token::True => TokenKind::True,
            Token::False => TokenKind::False,
            Token::Async => TokenKind::Async,
            Token::Await => TokenKind::Await,
            Token::Get => TokenKind::Get,
            Token::Setter => TokenKind::Setter,
            Token::Of => TokenKind::Of,
            Token::EOF => TokenKind::EOF,
            Token::Identifier(_) => TokenKind::Identifier,
            Token::String(_) => TokenKind::String,
            Token::Number(_) => TokenKind::Number,
        }
    }

    /// The text of an identifier or literal; `None` for every other category.
    pub fn text(&self) -> (text: Option<&String>)
        ensures
            self@.kind.is_literal() ==> text is Some && text->0@ == self@.text,
            !self@.kind.is_literal() ==> text is None,
    {
        match self {
            Token::Identifier(text) | Token::String(text) | Token::Number(text) => Some(text),
            _ => None,
        }
    }
}

impl View for Token {
    type V = TokenView;

    open spec fn view(&self) -> TokenView {
        TokenView {
            kind: self.spec_kind(),
            text: match self {
                Token::Identifier(text) | Token::String(text) | Token::Number(text) => text@,
                _ => Seq::empty(),
            },
        }
    }
}

impl Clone for Token {
    fn clone(&self) -> (copy: Token)
        ensures
            copy@ == self@,
    {
        match self {
            Token::LeftParen => Token::LeftParen,
            Token::RightParen => Token::RightParen,
            Token::LeftBrace => Token::LeftBrace,
            Token::RightBrace => Token::RightBrace,
            Token::LeftBracket => Token::LeftBracket,
            Token::RightBracket => Token::RightBracket,
            Token::Comma => Token::Comma,
            Token::Dot => Token::Dot,
            Token::Minus => Token::Minus,
            Token::Plus => Token::Plus,
            Token::Semicolon => Token::Semicolon,
            Token::Slash => Token::Slash,
            Token::Star => Token::Star,
            Token::Bang => Token::Bang,
            Token::BangEqual => Token::BangEqual,
            Token::Equal => Token::Equal,
            Token::EqualEqual => Token::EqualEqual,
            Token::Greater => Token::Greater,
            Token::GreaterEqual => Token::GreaterEqual,
            Token::Less => Token::Less,
            Token::LessEqual => Token::LessEqual,
            Token::GreaterGreater => Token::GreaterGreater,
            Token::GreaterGreaterEqual => Token::GreaterGreaterEqual,
            Token::LessLess => Token::LessLess,
            Token::LessLessEqual => Token::LessLessEqual,
            Token::PlusPlus => Token::PlusPlus,
            Token::MinusMinus => Token::MinusMinus,
            Token::EqualEqualEqual => Token::EqualEqualEqual,
            Token::BangEqualEqual => Token::BangEqualEqual,
            Token::Ampersand => Token::Ampersand,
            Token::AmpersandAmpersand => Token::AmpersandAmpersand,
            Token::Pipe => Token::Pipe,
            Token::PipePipe => Token::PipePipe,
            Token::Caret => Token::Caret,
            Token::Tilde => Token::Tilde,
            Token::Question => Token::Question,
            Token::Colon => Token::Colon,
            Token::PlusEqual => Token::PlusEqual,
            Token::MinusEqual => Token::MinusEqual,
            Token::StarEqual => Token::StarEqual,
            Token::SlashEqual => Token::SlashEqual,
            Token::Break => Token::Break,
            Token::Case => Token::Case,
            Token::Catch => Token::Catch,
            Token::Class => Token::Class,
            Token::Const => Token::Const,
            Token::Continue => Token::Continue,
            Token::Debugger => Token::Debugger,
            Token::Default => Token::Default,
            Token::Delete => Token::Delete,
            Token::Do => Token::Do,
            Token::Else => Token::Else,
            Token::Export => Token::Export,
            Token::Extends => Token::Extends,
            Token::Finally => Token::Finally,
            Token::For => Token::For,
            Token::Function => Token::Function,
            Token::If => Token::If,
            Token::Import => Token::Import,
            Token::In => Token::In,
            Token::Instanceof => Token::Instanceof,
            Token::New => Token::New,
            Token::Return => Token::Return,
            Token::Super => Token::Super,
            Token::Switch => Token::Switch,
            Token::This => Token::This,
            Token::Throw => Token::Throw,
            Token::Try => Token::Try,
            Token::Typeof => Token::Typeof,
            Token::Var => Token::Var,
            Token::Void => Token::Void,
            Token::While => Token::While,
            Token::With => Token::With,
            Token::Enum => Token::Enum,
            Token::Null => Token::Null,
            Token::True => Token::True,
            Token::False => Token::False,
            Token::Async => Token::Async,
            Token::Await => Token::Await,
            Token::Get => Token::Get,
            Token::Setter => Token::Setter,
            Token::Of => Token::Of,
            Token::EOF => Token::EOF,
            Token::Identifier(text) => Token::Identifier(text.clone()),
            Token::String(text) => Token::String(text.clone()),
            Token::Number(text) => Token::Number(text.clone()),
        }
    }
}

/// The values of a sequence of tokens, in order.
pub open spec fn token_views(tokens: Seq<Token>) -> Seq<TokenView> {
    Seq::new(tokens.len(), |i: int| tokens[i]@)
}

} // verus!
