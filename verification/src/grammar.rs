//! What parsing means: the grammar as functions from a sequence of tokens and
//! a position in it to a tree and the position after it, or to the first
//! error.
//!
//! ```text
//! program        := declaration* EOF
//! declaration    := varDecl | funcDecl | statement
//! varDecl        := 'var' IDENT ('=' expression)? ';'
//! funcDecl       := 'function' IDENT '(' paramList? ')' block
//! statement      := block | ifStmt | whileStmt | returnStmt | exprStmt
//! block          := '{' declaration* '}'
//! ifStmt         := 'if' '(' expression ')' statement ('else' statement)?
//! whileStmt      := 'while' '(' expression ')' statement
//! returnStmt     := 'return' expression? ';'
//! exprStmt       := expression ';'
//! expression     := assignment
//! assignment     := ternary (('=' | '+=' | '-=' | '*=' | '/=') assignment)?
//! ternary        := logicOr ('?' expression ':' expression)?
//! logicOr        := logicAnd ('||' logicAnd)*
//! logicAnd       := equality ('&&' equality)*
//! equality       := comparison (('==' | '!=') comparison)*
//! comparison     := additive (('<' | '>' | '<=' | '>=') additive)*
//! additive       := multiplicative (('+' | '-') multiplicative)*
//! multiplicative := unary (('*' | '/') unary)*
//! unary          := ('!' | '-') unary | call
//! call           := primary ('(' argList? ')')*
//! primary        := NUMBER | STRING | 'true' | 'false' | 'null' | 'this'
//!                 | IDENT | '(' expression ')'
//! ```
//!
//! The tokens end at the first `EOF` marker, or where the sequence ends.

use crate::ast::AstView;
use crate::error::ParseErrorView;
use crate::token::{TokenKind, TokenView};
use vstd::prelude::*;

verus! {

/// A tree and the position after the tokens it was read from, or an error.
pub type Parsed = Result<(AstView, int), ParseErrorView>;

/// A list of trees and the position after the tokens they were read from,
/// or an error.
pub type ParsedList = Result<(Seq<AstView>, int), ParseErrorView>;

/// The category of the token at `p`; `EOF` outside the sequence.
pub open spec fn kind_at(ts: Seq<TokenView>, p: int) -> TokenKind {
    if 0 <= p < ts.len() {
        ts[p].kind
    } else {
        TokenKind::EOF
    }
}

/// The error of finding the token at `p` where `expected` describes what was
/// needed.
pub open spec fn unexpected(ts: Seq<TokenView>, p: int, expected: Seq<char>) -> ParseErrorView {
    if kind_at(ts, p) == TokenKind::EOF {
        ParseErrorView::UnexpectedEndOfInput { expected }
    } else {
        ParseErrorView::UnexpectedToken { expected, found: ts[p], position: p }
    }
}

/// The position after the token at `p` if it is of category `kind`, else the
/// error that carries `expected`.
pub open spec fn expect(ts: Seq<TokenView>, p: int, kind: TokenKind, expected: Seq<char>) -> Result<
    int,
    ParseErrorView,
> {
    if kind_at(ts, p) == kind {
        Ok(p + 1)
    } else {
        Err(unexpected(ts, p, expected))
    }
}

/// That `error` is well placed for a rule applied at `p`: where it names a
/// token, this is the token that the sequence holds at the position given,
/// which is at or after `p`, and it is no end marker.
pub open spec fn placed(ts: Seq<TokenView>, p: int, error: ParseErrorView) -> bool {
    match error {
        ParseErrorView::UnexpectedToken { found, position, .. } => {
            &&& p <= position < ts.len()
            &&& found == ts[position]
            &&& found.kind != TokenKind::EOF
        },
        ParseErrorView::UnexpectedEndOfInput { .. } => true,
    }
}

/// The result `r` of a rule applied at `p`, given that it ends after `p` and
/// within the tokens. Every rule consumes at least one token, so this is `r`
/// itself for every result of a rule: see [`lemma_rules_consume`]. The rules
/// are written with it so that their recursion is well founded.
pub open spec fn consuming(ts: Seq<TokenView>, p: int, r: Parsed) -> Parsed {
    match r {
        Ok((_, next)) => if p < next <= ts.len() {
            r
        } else {
            Err(unexpected(ts, p, Seq::empty()))
        },
        Err(_) => r,
    }
}

/// The levels of binary operators, from the loosest to the tightest.
#[derive(Clone, Copy)]
pub enum Precedence {
    Or,
    And,
    Equality,
    Comparison,
    Additive,
    Multiplicative,
}

impl Precedence {
    /// The next tighter level, if there is one.
    pub open spec fn tighter(self) -> Option<Precedence> {
        match self {
            Precedence::Or => Some(Precedence::And),
            Precedence::And => Some(Precedence::Equality),
            Precedence::Equality => Some(Precedence::Comparison),
            Precedence::Comparison => Some(Precedence::Additive),
            Precedence::Additive => Some(Precedence::Multiplicative),
            Precedence::Multiplicative => None,
        }
    }

    /// The operators of a level.
    pub open spec fn admits(self, kind: TokenKind) -> bool {
        match self {
            Precedence::Or => kind == TokenKind::PipePipe,
            Precedence::And => kind == TokenKind::AmpersandAmpersand,
            Precedence::Equality => kind == TokenKind::EqualEqual || kind == TokenKind::BangEqual,
            Precedence::Comparison => kind == TokenKind::Less || kind == TokenKind::Greater || kind
                == TokenKind::LessEqual || kind == TokenKind::GreaterEqual,
            Precedence::Additive => kind == TokenKind::Plus || kind == TokenKind::Minus,
            Precedence::Multiplicative => kind == TokenKind::Star || kind == TokenKind::Slash,
        }
    }

    /// The node that joins two operands at a level: `||` and `&&` make a
    /// logical expression, every other operator a binary expression.
    pub open spec fn join(self, operator: Seq<char>, left: AstView, right: AstView) -> AstView {
        match self {
            Precedence::Or | Precedence::And => AstView::LogicalExpression {
                operator,
                left: Box::new(left),
                right: Box::new(right),
            },
            _ => AstView::BinaryExpression {
                operator,
                left: Box::new(left),
                right: Box::new(right),
            },
        }
    }

    /// A measure that falls from each level to the next tighter one.
    pub open spec fn rank(self) -> int {
        match self {
            Precedence::Or => 30,
            Precedence::And => 26,
            Precedence::Equality => 22,
            Precedence::Comparison => 18,
            Precedence::Additive => 14,
            Precedence::Multiplicative => 10,
        }
    }
}

/// The operators of an assignment.
pub open spec fn is_assignment_operator(kind: TokenKind) -> bool {
    kind == TokenKind::Equal || kind == TokenKind::PlusEqual || kind == TokenKind::MinusEqual
        || kind == TokenKind::StarEqual || kind == TokenKind::SlashEqual
}

/// The node of the literal token of category `kind` at `p`.
pub open spec fn literal(
    ts: Seq<TokenView>,
    p: int,
    kind: TokenKind,
    expected: Seq<char>,
) -> Parsed {
    if kind_at(ts, p) != kind {
        Err(unexpected(ts, p, expected))
    } else if kind == TokenKind::Number {
        Ok((AstView::NumberLiteral(ts[p].text), p + 1))
    } else if kind == TokenKind::String {
        Ok((AstView::StringLiteral(ts[p].text), p + 1))
    } else {
        Ok((AstView::Identifier(ts[p].text), p + 1))
    }
}

/// `primary := NUMBER | STRING | 'true' | 'false' | 'null' | 'this' | IDENT
/// | '(' expression ')'`
pub open spec fn primary(ts: Seq<TokenView>, p: int) -> Parsed
    decreases ts.len() - p, 3int,
{
    let kind = kind_at(ts, p);
    if kind == TokenKind::Number {
        Ok((AstView::NumberLiteral(ts[p].text), p + 1))
    } else if kind == TokenKind::String {
        Ok((AstView::StringLiteral(ts[p].text), p + 1))
    } else if kind == TokenKind::True {
        Ok((AstView::BooleanLiteral(true), p + 1))
    } else if kind == TokenKind::False {
        Ok((AstView::BooleanLiteral(false), p + 1))
    } else if kind == TokenKind::Null {
        Ok((AstView::NullLiteral, p + 1))
    } else if kind == TokenKind::This {
        Ok((AstView::ThisExpression, p + 1))
    } else if kind == TokenKind::Identifier {
        Ok((AstView::Identifier(ts[p].text), p + 1))
    } else if kind == TokenKind::LeftParen {
        match expression(ts, p + 1) {
            Ok((inner, close)) => match expect(
                ts,
                close,
                TokenKind::RightParen,
                "Expect ')' after expression."@,
            ) {
                Ok(next) => Ok((inner, next)),
                Err(error) => Err(error),
            },
            Err(error) => Err(error),
        }
    } else {
        Err(unexpected(ts, p, "Expect expression."@))
    }
}

/// `call := primary ('(' argList? ')')*`
pub open spec fn call(ts: Seq<TokenView>, p: int) -> Parsed
    decreases ts.len() - p, 4int,
{
    match consuming(ts, p, primary(ts, p)) {
        Ok((callee, next)) => call_tail(ts, next, callee),
        Err(error) => Err(error),
    }
}

/// The argument lists that follow a callee, each of which makes the call so
/// far the callee of the next.
pub open spec fn call_tail(ts: Seq<TokenView>, p: int, callee: AstView) -> Parsed
    decreases ts.len() - p, 50int,
{
    if kind_at(ts, p) == TokenKind::LeftParen {
        match arguments(ts, p + 1, Seq::empty()) {
            Ok((list, next)) => if p + 1 < next <= ts.len() {
                call_tail(
                    ts,
                    next,
                    AstView::CallExpression { callee: Box::new(callee), arguments: list },
                )
            } else {
                Err(unexpected(ts, p, Seq::empty()))
            },
            Err(error) => Err(error),
        }
    } else {
        Ok((callee, p))
    }
}

/// `argList? ')'`, after the arguments `done`: at the very start the list
/// may be empty; later an argument has to follow each comma.
pub open spec fn arguments(ts: Seq<TokenView>, p: int, done: Seq<AstView>) -> ParsedList
    decreases ts.len() - p, 49int,
{
    if done.len() == 0 && kind_at(ts, p) == TokenKind::RightParen {
        Ok((done, p + 1))
    } else {
        match consuming(ts, p, expression(ts, p)) {
            Ok((argument, next)) => if kind_at(ts, next) == TokenKind::Comma {
                arguments(ts, next + 1, done.push(argument))
            } else {
                match expect(ts, next, TokenKind::RightParen, "Expect ')' after arguments."@) {
                    Ok(end) => Ok((done.push(argument), end)),
                    Err(error) => Err(error),
                }
            },
            Err(error) => Err(error),
        }
    }
}

/// `unary := ('!' | '-') unary | call`
pub open spec fn unary(ts: Seq<TokenView>, p: int) -> Parsed
    decreases ts.len() - p, 5int,
{
    let kind = kind_at(ts, p);
    if kind == TokenKind::Bang || kind == TokenKind::Minus {
        match unary(ts, p + 1) {
            Ok((operand, next)) => Ok(
                (
                    AstView::UnaryExpression {
                        operator: kind.spelling(),
                        operand: Box::new(operand),
                    },
                    next,
                ),
            ),
            Err(error) => Err(error),
        }
    } else {
        call(ts, p)
    }
}

/// An operand of the operators of `level`: an expression of the next tighter
/// level, or a unary expression at the tightest.
pub open spec fn operand(ts: Seq<TokenView>, p: int, level: Precedence) -> Parsed
    decreases ts.len() - p, level.rank() - 1,
{
    match level.tighter() {
        Some(inner) => binary(ts, p, inner),
        None => unary(ts, p),
    }
}

/// `operand (operator operand)*` for the operators of `level`, folded to the
/// left.
pub open spec fn binary(ts: Seq<TokenView>, p: int, level: Precedence) -> Parsed
    decreases ts.len() - p, level.rank(),
{
    match consuming(ts, p, operand(ts, p, level)) {
        Ok((left, next)) => binary_tail(ts, next, level, left),
        Err(error) => Err(error),
    }
}

/// `(operator operand)*` after the operand `left`.
pub open spec fn binary_tail(ts: Seq<TokenView>, p: int, level: Precedence, left: AstView) -> Parsed
    decreases ts.len() - p, 50int,
{
    let kind = kind_at(ts, p);
    if level.admits(kind) {
        match consuming(ts, p + 1, operand(ts, p + 1, level)) {
            Ok((right, next)) => binary_tail(
                ts,
                next,
                level,
                level.join(kind.spelling(), left, right),
            ),
            Err(error) => Err(error),
        }
    } else {
        Ok((left, p))
    }
}

/// `ternary := logicOr ('?' expression ':' expression)?`
pub open spec fn ternary(ts: Seq<TokenView>, p: int) -> Parsed
    decreases ts.len() - p, 40int,
{
    match consuming(ts, p, binary(ts, p, Precedence::Or)) {
        Ok((condition, next)) => if kind_at(ts, next) == TokenKind::Question {
            match consuming(ts, next + 1, expression(ts, next + 1)) {
                Ok((then_branch, colon)) => match expect(
                    ts,
                    colon,
                    TokenKind::Colon,
                    "Expect ':' after '?' in ternary operator."@,
                ) {
                    Ok(start) => match expression(ts, start) {
                        Ok((else_branch, end)) => Ok(
                            (
                                AstView::TernaryExpression {
                                    condition: Box::new(condition),
                                    then_branch: Box::new(then_branch),
                                    else_branch: Box::new(else_branch),
                                },
                                end,
                            ),
                        ),
                        Err(error) => Err(error),
                    },
                    Err(error) => Err(error),
                },
                Err(error) => Err(error),
            }
        } else {
            Ok((condition, next))
        },
        Err(error) => Err(error),
    }
}

/// `assignment := ternary (('=' | '+=' | '-=' | '*=' | '/=') assignment)?`
pub open spec fn assignment(ts: Seq<TokenView>, p: int) -> Parsed
    decreases ts.len() - p, 41int,
{
    match consuming(ts, p, ternary(ts, p)) {
        Ok((target, next)) => {
            let kind = kind_at(ts, next);
            if is_assignment_operator(kind) {
                match assignment(ts, next + 1) {
                    Ok((value, end)) => Ok(
                        (
                            AstView::AssignmentExpression {
                                operator: kind.spelling(),
                                left: Box::new(target),
                                right: Box::new(value),
                            },
                            end,
                        ),
                    ),
                    Err(error) => Err(error),
                }
            } else {
                Ok((target, next))
            }
        },
        Err(error) => Err(error),
    }
}

/// `expression := assignment`
pub open spec fn expression(ts: Seq<TokenView>, p: int) -> Parsed
    decreases ts.len() - p, 42int,
{
    assignment(ts, p)
}

/// `exprStmt := expression ';'`. The statement is the expression.
pub open spec fn expression_statement(ts: Seq<TokenView>, p: int) -> Parsed
    decreases ts.len() - p, 50int,
{
    match expression(ts, p) {
        Ok((node, semicolon)) => match expect(
            ts,
            semicolon,
            TokenKind::Semicolon,
            "Expect ';' after expression."@,
        ) {
            Ok(next) => Ok((node, next)),
            Err(error) => Err(error),
        },
        Err(error) => Err(error),
    }
}

/// `expression? ';'`, after `return`.
pub open spec fn return_statement(ts: Seq<TokenView>, p: int) -> Parsed
    decreases ts.len() - p, 50int,
{
    if kind_at(ts, p) == TokenKind::Semicolon {
        Ok((AstView::ReturnStatement { value: None }, p + 1))
    } else {
        match expression(ts, p) {
            Ok((value, semicolon)) => match expect(
                ts,
                semicolon,
                TokenKind::Semicolon,
                "Expect ';' after return value."@,
            ) {
                Ok(next) => Ok((AstView::ReturnStatement { value: Some(Box::new(value)) }, next)),
                Err(error) => Err(error),
            },
            Err(error) => Err(error),
        }
    }
}

/// `'(' expression ')'`, after `if` or `while`: the condition and the
/// position after the closing parenthesis.
pub open spec fn condition(
    ts: Seq<TokenView>,
    p: int,
    expected_open: Seq<char>,
    expected_close: Seq<char>,
) -> Parsed
    decreases ts.len() - p, 50int,
{
    match expect(ts, p, TokenKind::LeftParen, expected_open) {
        Ok(start) => match expression(ts, start) {
            Ok((node, close)) => match expect(ts, close, TokenKind::RightParen, expected_close) {
                Ok(next) => Ok((node, next)),
                Err(error) => Err(error),
            },
            Err(error) => Err(error),
        },
        Err(error) => Err(error),
    }
}

/// `'(' expression ')' statement ('else' statement)?`, after `if`. An
/// `else` belongs to the nearest `if`.
pub open spec fn if_statement(ts: Seq<TokenView>, p: int) -> Parsed
    decreases ts.len() - p, 51int,
{
    match consuming(
        ts,
        p,
        condition(ts, p, "Expect '(' after 'if'."@, "Expect ')' after if condition."@),
    ) {
        Ok((condition, start)) => match consuming(ts, start, statement(ts, start)) {
            Ok((then_branch, next)) => if kind_at(ts, next) == TokenKind::Else {
                match statement(ts, next + 1) {
                    Ok((else_branch, end)) => Ok(
                        (
                            AstView::IfStatement {
                                condition: Box::new(condition),
                                then_branch: Box::new(then_branch),
                                else_branch: Some(Box::new(else_branch)),
                            },
                            end,
                        ),
                    ),
                    Err(error) => Err(error),
                }
            } else {
                Ok(
                    (
                        AstView::IfStatement {
                            condition: Box::new(condition),
                            then_branch: Box::new(then_branch),
                            else_branch: None,
                        },
                        next,
                    ),
                )
            },
            Err(error) => Err(error),
        },
        Err(error) => Err(error),
    }
}

/// `'(' expression ')' statement`, after `while`.
pub open spec fn while_statement(ts: Seq<TokenView>, p: int) -> Parsed
    decreases ts.len() - p, 51int,
{
    match consuming(
        ts,
        p,
        condition(ts, p, "Expect '(' after 'while'."@, "Expect ')' after while condition."@),
    ) {
        Ok((condition, start)) => match statement(ts, start) {
            Ok((body, end)) => Ok(
                (
                    AstView::WhileStatement {
                        condition: Box::new(condition),
                        body: Box::new(body),
                    },
                    end,
                ),
            ),
            Err(error) => Err(error),
        },
        Err(error) => Err(error),
    }
}

/// `declaration* '}'`, after the opening brace and the declarations `done`.
pub open spec fn block(ts: Seq<TokenView>, p: int, done: Seq<AstView>) -> Parsed
    decreases ts.len() - p, 62int,
{
    let kind = kind_at(ts, p);
    if kind == TokenKind::RightBrace {
        Ok((AstView::BlockStatement { body: done }, p + 1))
    } else if kind == TokenKind::EOF {
        Err(unexpected(ts, p, "Expect '}' after block."@))
    } else {
        match consuming(ts, p, declaration(ts, p)) {
            Ok((item, next)) => block(ts, next, done.push(item)),
            Err(error) => Err(error),
        }
    }
}

/// `statement := block | ifStmt | whileStmt | returnStmt | exprStmt`
pub open spec fn statement(ts: Seq<TokenView>, p: int) -> Parsed
    decreases ts.len() - p, 60int,
{
    let kind = kind_at(ts, p);
    if kind == TokenKind::LeftBrace {
        block(ts, p + 1, Seq::empty())
    } else if kind == TokenKind::If {
        if_statement(ts, p + 1)
    } else if kind == TokenKind::While {
        while_statement(ts, p + 1)
    } else if kind == TokenKind::Return {
        return_statement(ts, p + 1)
    } else {
        expression_statement(ts, p)
    }
}

/// `IDENT ('=' expression)? ';'`, after `var`.
pub open spec fn var_declaration(ts: Seq<TokenView>, p: int) -> Parsed
    decreases ts.len() - p, 50int,
{
    if kind_at(ts, p) != TokenKind::Identifier {
        Err(unexpected(ts, p, "Expect variable name."@))
    } else {
        let id = Box::new(AstView::Identifier(ts[p].text));
        if kind_at(ts, p + 1) == TokenKind::Equal {
            match expression(ts, p + 2) {
                Ok((init, semicolon)) => match expect(
                    ts,
                    semicolon,
                    TokenKind::Semicolon,
                    "Expect ';' after variable declaration."@,
                ) {
                    Ok(next) => Ok(
                        (AstView::VariableDeclaration { id, init: Some(Box::new(init)) }, next),
                    ),
                    Err(error) => Err(error),
                },
                Err(error) => Err(error),
            }
        } else {
            match expect(
                ts,
                p + 1,
                TokenKind::Semicolon,
                "Expect ';' after variable declaration."@,
            ) {
                Ok(next) => Ok((AstView::VariableDeclaration { id, init: None }, next)),
                Err(error) => Err(error),
            }
        }
    }
}

/// `paramList? ')'`, after the parameters `done`: at the very start the list
/// may be empty; later a name has to follow each comma.
pub open spec fn parameters(ts: Seq<TokenView>, p: int, done: Seq<AstView>) -> ParsedList
    decreases ts.len() - p,
{
    if done.len() == 0 && kind_at(ts, p) == TokenKind::RightParen {
        Ok((done, p + 1))
    } else if kind_at(ts, p) != TokenKind::Identifier {
        Err(unexpected(ts, p, "Expect parameter name."@))
    } else {
        let list = done.push(AstView::Identifier(ts[p].text));
        if kind_at(ts, p + 1) == TokenKind::Comma {
            parameters(ts, p + 2, list)
        } else {
            match expect(ts, p + 1, TokenKind::RightParen, "Expect ')' after parameters."@) {
                Ok(next) => Ok((list, next)),
                Err(error) => Err(error),
            }
        }
    }
}

/// `IDENT '(' paramList? ')' block`, after `function`. The messages name the
/// `kind` of function that is declared.
pub open spec fn function(ts: Seq<TokenView>, p: int, kind: Seq<char>) -> Parsed
    decreases ts.len() - p, 50int,
{
    if kind_at(ts, p) != TokenKind::Identifier {
        Err(unexpected(ts, p, "Expect "@ + kind + " name."@))
    } else {
        match expect(
            ts,
            p + 1,
            TokenKind::LeftParen,
            "Expect '(' after "@ + kind + " name."@,
        ) {
            Ok(start) => match parameters(ts, start, Seq::empty()) {
                Ok((params, brace)) => match expect(
                    ts,
                    brace,
                    TokenKind::LeftBrace,
                    "Expect '{' before "@ + kind + " body."@,
                ) {
                    Ok(inside) => {
                        proof {
                            lemma_parameters_within(ts, start, Seq::empty());
                        }
                        match block(ts, inside, Seq::empty()) {
                            Ok((body, end)) => Ok(
                                (
                                    AstView::FunctionDeclaration {
                                        id: Box::new(AstView::Identifier(ts[p].text)),
                                        params,
                                        body: Box::new(body),
                                    },
                                    end,
                                ),
                            ),
                            Err(error) => Err(error),
                        }
                    },
                    Err(error) => Err(error),
                },
                Err(error) => Err(error),
            },
            Err(error) => Err(error),
        }
    }
}

/// `declaration := varDecl | funcDecl | statement`
pub open spec fn declaration(ts: Seq<TokenView>, p: int) -> Parsed
    decreases ts.len() - p, 61int,
{
    let kind = kind_at(ts, p);
    if kind == TokenKind::Var {
        var_declaration(ts, p + 1)
    } else if kind == TokenKind::Function {
        function(ts, p + 1, "function"@)
    } else {
        statement(ts, p)
    }
}

/// `declaration* EOF`, after the declarations `done`: the program, and the
/// position at which the tokens end.
pub open spec fn program_from(ts: Seq<TokenView>, p: int, done: Seq<AstView>) -> Parsed
    decreases ts.len() - p, 62int,
{
    if kind_at(ts, p) == TokenKind::EOF {
        Ok((AstView::Program { body: done }, p))
    } else {
        match consuming(ts, p, declaration(ts, p)) {
            Ok((item, next)) => program_from(ts, next, done.push(item)),
            Err(error) => Err(error),
        }
    }
}

/// `program := declaration* EOF`
pub open spec fn program(ts: Seq<TokenView>) -> Result<AstView, ParseErrorView> {
    match program_from(ts, 0, Seq::empty()) {
        Ok((node, _)) => Ok(node),
        Err(error) => Err(error),
    }
}

/// The keywords that start a declaration or a statement.
pub open spec fn starts_statement(kind: TokenKind) -> bool {
    kind == TokenKind::Var || kind == TokenKind::Function || kind == TokenKind::If || kind
        == TokenKind::While || kind == TokenKind::Return
}

/// Where parsing resumes after an error, looking from `p` on: at the first
/// position that follows a semicolon, holds a keyword that starts a
/// statement, or ends the tokens.
pub open spec fn synchronize(ts: Seq<TokenView>, p: int) -> int
    decreases ts.len() - p,
{
    if kind_at(ts, p) == TokenKind::EOF || starts_statement(kind_at(ts, p)) || kind_at(ts, p - 1)
        == TokenKind::Semicolon {
        p
    } else {
        synchronize(ts, p + 1)
    }
}

/// What parsing with recovery yields: the declarations that were parsed, the
/// errors in between, and where it stopped.
pub struct Recovered {
    pub body: Seq<AstView>,
    pub errors: Seq<ParseErrorView>,
    pub end: int,
}

/// `declaration* EOF` with recovery, after the declarations `done` and the
/// errors `errors`. A declaration that fails adds its error and nothing
/// else. Where the error names a token, parsing resumes behind that token at
/// the next statement boundary; where it is the end of the tokens, nothing
/// is left to parse.
pub open spec fn recovering(
    ts: Seq<TokenView>,
    p: int,
    done: Seq<AstView>,
    errors: Seq<ParseErrorView>,
) -> Recovered
    decreases ts.len() - p,
{
    if kind_at(ts, p) == TokenKind::EOF {
        Recovered { body: done, errors, end: p }
    } else {
        proof {
            lemma_declaration_within(ts, p);
        }
        match declaration(ts, p) {
            Ok((item, next)) => recovering(ts, next, done.push(item), errors),
            Err(error) => match error {
                ParseErrorView::UnexpectedToken { position, .. } => {
                    proof {
                        lemma_synchronize_bounds(ts, position + 1);
                    }
                    recovering(ts, synchronize(ts, position + 1), done, errors.push(error))
                },
                ParseErrorView::UnexpectedEndOfInput { .. } => Recovered {
                    body: done,
                    errors: errors.push(error),
                    end: p,
                },
            },
        }
    }
}

/// Synchronizing moves forwards and stays within the tokens.
pub proof fn lemma_synchronize_bounds(ts: Seq<TokenView>, p: int)
    requires
        p <= ts.len(),
    ensures
        p <= synchronize(ts, p) <= ts.len(),
    decreases ts.len() - p,
{
    if !(kind_at(ts, p) == TokenKind::EOF || starts_statement(kind_at(ts, p)) || kind_at(ts, p - 1)
        == TokenKind::Semicolon) {
        lemma_synchronize_bounds(ts, p + 1);
    }
}

/// Every rule that succeeds consumes at least one token and ends within the
/// tokens, so [`consuming`] changes no result of a rule. The lemmas below
/// show it rule by rule, together with where the errors point: a tree ends
/// after the position that the rule started at, and an error that names a
/// token names the one that the sequence holds at the position given. This
/// lemma collects the rules that start a production.
pub proof fn lemma_rules_consume(ts: Seq<TokenView>, p: int)
    ensures
        consuming(ts, p, primary(ts, p)) == primary(ts, p),
        consuming(ts, p, call(ts, p)) == call(ts, p),
        consuming(ts, p, unary(ts, p)) == unary(ts, p),
        forall|level: Precedence|
            consuming(ts, p, #[trigger] operand(ts, p, level)) == operand(ts, p, level),
        forall|level: Precedence|
            consuming(ts, p, #[trigger] binary(ts, p, level)) == binary(ts, p, level),
        consuming(ts, p, ternary(ts, p)) == ternary(ts, p),
        consuming(ts, p, assignment(ts, p)) == assignment(ts, p),
        consuming(ts, p, expression(ts, p)) == expression(ts, p),
        consuming(ts, p, statement(ts, p)) == statement(ts, p),
        consuming(ts, p, declaration(ts, p)) == declaration(ts, p),
        forall|open: Seq<char>, close: Seq<char>|
            consuming(ts, p, #[trigger] condition(ts, p, open, close)) == condition(
                ts,
                p,
                open,
                close,
            ),
{
    lemma_primary_within(ts, p);
    lemma_call_within(ts, p);
    lemma_unary_within(ts, p);
    assert forall|level: Precedence|
        consuming(ts, p, #[trigger] operand(ts, p, level)) == operand(ts, p, level) by {
        lemma_operand_within(ts, p, level);
    }
    assert forall|level: Precedence|
        consuming(ts, p, #[trigger] binary(ts, p, level)) == binary(ts, p, level) by {
        lemma_binary_within(ts, p, level);
    }
    lemma_ternary_within(ts, p);
    lemma_assignment_within(ts, p);
    lemma_expression_within(ts, p);
    lemma_statement_within(ts, p);
    lemma_declaration_within(ts, p);
    assert forall|open: Seq<char>, close: Seq<char>|
        consuming(ts, p, #[trigger] condition(ts, p, open, close)) == condition(
            ts,
            p,
            open,
            close,
        ) by {
        lemma_condition_within(ts, p, open, close);
    }
}

/// What `primary` yields lies within the tokens: a result ends after `p`, and
/// an error is well placed.
pub proof fn lemma_primary_within(ts: Seq<TokenView>, p: int)
    ensures
        primary(ts, p) matches Ok((_, next)) ==> p < next <= ts.len(),
        primary(ts, p) matches Err(error) ==> placed(ts, p, error),
    decreases ts.len() - p, 3int,
{
    if kind_at(ts, p) == TokenKind::LeftParen {
        lemma_expression_within(ts, p + 1);
    }
}

/// What `call` yields lies within the tokens: a result ends after `p`, and
/// an error is well placed.
pub proof fn lemma_call_within(ts: Seq<TokenView>, p: int)
    ensures
        call(ts, p) matches Ok((_, next)) ==> p < next <= ts.len(),
        call(ts, p) matches Err(error) ==> placed(ts, p, error),
    decreases ts.len() - p, 4int,
{
    lemma_primary_within(ts, p);
    if let Ok((callee, next)) = primary(ts, p) {
        lemma_call_tail_within(ts, next, callee);
    }
}

/// What `call_tail` yields lies within the tokens: a result ends at or after
/// `p`, and an error is well placed.
pub proof fn lemma_call_tail_within(ts: Seq<TokenView>, p: int, callee: AstView)
    requires
        p <= ts.len(),
    ensures
        call_tail(ts, p, callee) matches Ok((_, next)) ==> p <= next <= ts.len(),
        call_tail(ts, p, callee) matches Err(error) ==> placed(ts, p, error),
    decreases ts.len() - p, 50int,
{
    if kind_at(ts, p) == TokenKind::LeftParen {
        lemma_arguments_within(ts, p + 1, Seq::empty());
        if let Ok((list, next)) = arguments(ts, p + 1, Seq::empty()) {
            lemma_call_tail_within(
                ts,
                next,
                AstView::CallExpression { callee: Box::new(callee), arguments: list },
            );
        }
    }
}

/// What `arguments` yields lies within the tokens: a result ends after `p`, and
/// an error is well placed.
pub proof fn lemma_arguments_within(ts: Seq<TokenView>, p: int, done: Seq<AstView>)
    ensures
        arguments(ts, p, done) matches Ok((_, next)) ==> p < next <= ts.len(),
        arguments(ts, p, done) matches Err(error) ==> placed(ts, p, error),
    decreases ts.len() - p, 49int,
{
    if !(done.len() == 0 && kind_at(ts, p) == TokenKind::RightParen) {
        lemma_expression_within(ts, p);
        if let Ok((argument, next)) = expression(ts, p) {
            if kind_at(ts, next) == TokenKind::Comma {
                lemma_arguments_within(ts, next + 1, done.push(argument));
            }
        }
    }
}

/// What `unary` yields lies within the tokens: a result ends after `p`, and
/// an error is well placed.
pub proof fn lemma_unary_within(ts: Seq<TokenView>, p: int)
    ensures
        unary(ts, p) matches Ok((_, next)) ==> p < next <= ts.len(),
        unary(ts, p) matches Err(error) ==> placed(ts, p, error),
    decreases ts.len() - p, 5int,
{
    let kind = kind_at(ts, p);
    if kind == TokenKind::Bang || kind == TokenKind::Minus {
        lemma_unary_within(ts, p + 1);
    } else {
        lemma_call_within(ts, p);
    }
}

/// What `operand` yields lies within the tokens: a result ends after `p`, and
/// an error is well placed.
pub proof fn lemma_operand_within(ts: Seq<TokenView>, p: int, level: Precedence)
    ensures
        operand(ts, p, level) matches Ok((_, next)) ==> p < next <= ts.len(),
        operand(ts, p, level) matches Err(error) ==> placed(ts, p, error),
    decreases ts.len() - p, level.rank() - 1,
{
    match level.tighter() {
        Some(inner) => lemma_binary_within(ts, p, inner),
        None => lemma_unary_within(ts, p),
    }
}

/// What `binary` yields lies within the tokens: a result ends after `p`, and
/// an error is well placed.
pub proof fn lemma_binary_within(ts: Seq<TokenView>, p: int, level: Precedence)
    ensures
        binary(ts, p, level) matches Ok((_, next)) ==> p < next <= ts.len(),
        binary(ts, p, level) matches Err(error) ==> placed(ts, p, error),
    decreases ts.len() - p, level.rank(),
{
    lemma_operand_within(ts, p, level);
    if let Ok((left, next)) = operand(ts, p, level) {
        lemma_binary_tail_within(ts, next, level, left);
    }
}

/// What `binary_tail` yields lies within the tokens: a result ends at or after
/// `p`, and an error is well placed.
pub proof fn lemma_binary_tail_within(
    ts: Seq<TokenView>,
    p: int,
    level: Precedence,
    left: AstView,
)
    requires
        p <= ts.len(),
    ensures
        binary_tail(ts, p, level, left) matches Ok((_, next)) ==> p <= next <= ts.len(),
        binary_tail(ts, p, level, left) matches Err(error) ==> placed(ts, p, error),
    decreases ts.len() - p, 50int,
{
    let kind = kind_at(ts, p);
    if level.admits(kind) {
        lemma_operand_within(ts, p + 1, level);
        if let Ok((right, next)) = operand(ts, p + 1, level) {
            lemma_binary_tail_within(ts, next, level, level.join(kind.spelling(), left, right));
        }
    }
}

/// What `ternary` yields lies within the tokens: a result ends after `p`, and
/// an error is well placed.
pub proof fn lemma_ternary_within(ts: Seq<TokenView>, p: int)
    ensures
        ternary(ts, p) matches Ok((_, next)) ==> p < next <= ts.len(),
        ternary(ts, p) matches Err(error) ==> placed(ts, p, error),
    decreases ts.len() - p, 40int,
{
    lemma_binary_within(ts, p, Precedence::Or);
    if let Ok((_, next)) = binary(ts, p, Precedence::Or) {
        if kind_at(ts, next) == TokenKind::Question {
            lemma_expression_within(ts, next + 1);
            if let Ok((_, colon)) = expression(ts, next + 1) {
                if kind_at(ts, colon) == TokenKind::Colon {
                    lemma_expression_within(ts, colon + 1);
                }
            }
        }
    }
}

/// What `assignment` yields lies within the tokens: a result ends after `p`, and
/// an error is well placed.
pub proof fn lemma_assignment_within(ts: Seq<TokenView>, p: int)
    ensures
        assignment(ts, p) matches Ok((_, next)) ==> p < next <= ts.len(),
        assignment(ts, p) matches Err(error) ==> placed(ts, p, error),
    decreases ts.len() - p, 41int,
{
    lemma_ternary_within(ts, p);
    if let Ok((_, next)) = ternary(ts, p) {
        if is_assignment_operator(kind_at(ts, next)) {
            lemma_assignment_within(ts, next + 1);
        }
    }
}

/// What `expression` yields lies within the tokens: a result ends after `p`, and
/// an error is well placed.
pub proof fn lemma_expression_within(ts: Seq<TokenView>, p: int)
    ensures
        expression(ts, p) matches Ok((_, next)) ==> p < next <= ts.len(),
        expression(ts, p) matches Err(error) ==> placed(ts, p, error),
    decreases ts.len() - p, 42int,
{
    lemma_assignment_within(ts, p);
}

/// What `expression_statement` yields lies within the tokens: a result ends after `p`, and
/// an error is well placed.
pub proof fn lemma_expression_statement_within(ts: Seq<TokenView>, p: int)
    ensures
        expression_statement(ts, p) matches Ok((_, next)) ==> p < next <= ts.len(),
        expression_statement(ts, p) matches Err(error) ==> placed(ts, p, error),
    decreases ts.len() - p, 50int,
{
    lemma_expression_within(ts, p);
}

/// What `return_statement` yields lies within the tokens: a result ends after `p`, and
/// an error is well placed.
pub proof fn lemma_return_statement_within(ts: Seq<TokenView>, p: int)
    ensures
        return_statement(ts, p) matches Ok((_, next)) ==> p < next <= ts.len(),
        return_statement(ts, p) matches Err(error) ==> placed(ts, p, error),
    decreases ts.len() - p, 50int,
{
    if kind_at(ts, p) != TokenKind::Semicolon {
        lemma_expression_within(ts, p);
    }
}

/// What `condition` yields lies within the tokens: a result ends after `p`, and
/// an error is well placed.
pub proof fn lemma_condition_within(
    ts: Seq<TokenView>,
    p: int,
    expected_open: Seq<char>,
    expected_close: Seq<char>,
)
    ensures
        condition(ts, p, expected_open, expected_close) matches Ok((_, next)) ==> p < next
            <= ts.len(),
        condition(ts, p, expected_open, expected_close) matches Err(error) ==> placed(ts, p, error),
    decreases ts.len() - p, 50int,
{
    if kind_at(ts, p) == TokenKind::LeftParen {
        lemma_expression_within(ts, p + 1);
    }
}

/// What `if_statement` yields lies within the tokens: a result ends after `p`, and
/// an error is well placed.
pub proof fn lemma_if_statement_within(ts: Seq<TokenView>, p: int)
    ensures
        if_statement(ts, p) matches Ok((_, next)) ==> p < next <= ts.len(),
        if_statement(ts, p) matches Err(error) ==> placed(ts, p, error),
    decreases ts.len() - p, 51int,
{
    let open = "Expect '(' after 'if'."@;
    let close = "Expect ')' after if condition."@;
    lemma_condition_within(ts, p, open, close);
    if let Ok((_, start)) = condition(ts, p, open, close) {
        lemma_statement_within(ts, start);
        if let Ok((_, next)) = statement(ts, start) {
            if kind_at(ts, next) == TokenKind::Else {
                lemma_statement_within(ts, next + 1);
            }
        }
    }
}

/// What `while_statement` yields lies within the tokens: a result ends after `p`, and
/// an error is well placed.
pub proof fn lemma_while_statement_within(ts: Seq<TokenView>, p: int)
    ensures
        while_statement(ts, p) matches Ok((_, next)) ==> p < next <= ts.len(),
        while_statement(ts, p) matches Err(error) ==> placed(ts, p, error),
    decreases ts.len() - p, 51int,
{
    let open = "Expect '(' after 'while'."@;
    let close = "Expect ')' after while condition."@;
    lemma_condition_within(ts, p, open, close);
    if let Ok((_, start)) = condition(ts, p, open, close) {
        lemma_statement_within(ts, start);
    }
}

/// What `block` yields lies within the tokens: a result ends after `p`, and
/// an error is well placed.
pub proof fn lemma_block_within(ts: Seq<TokenView>, p: int, done: Seq<AstView>)
    ensures
        block(ts, p, done) matches Ok((_, next)) ==> p < next <= ts.len(),
        block(ts, p, done) matches Err(error) ==> placed(ts, p, error),
    decreases ts.len() - p, 62int,
{
    let kind = kind_at(ts, p);
    if kind != TokenKind::RightBrace && kind != TokenKind::EOF {
        lemma_declaration_within(ts, p);
        if let Ok((item, next)) = declaration(ts, p) {
            lemma_block_within(ts, next, done.push(item));
        }
    }
}

/// What `statement` yields lies within the tokens: a result ends after `p`, and
/// an error is well placed.
pub proof fn lemma_statement_within(ts: Seq<TokenView>, p: int)
    ensures
        statement(ts, p) matches Ok((_, next)) ==> p < next <= ts.len(),
        statement(ts, p) matches Err(error) ==> placed(ts, p, error),
    decreases ts.len() - p, 60int,
{
    let kind = kind_at(ts, p);
    if kind == TokenKind::LeftBrace {
        lemma_block_within(ts, p + 1, Seq::empty());
    } else if kind == TokenKind::If {
        lemma_if_statement_within(ts, p + 1);
    } else if kind == TokenKind::While {
        lemma_while_statement_within(ts, p + 1);
    } else if kind == TokenKind::Return {
        lemma_return_statement_within(ts, p + 1);
    } else {
        lemma_expression_statement_within(ts, p);
    }
}

/// What `var_declaration` yields lies within the tokens: a result ends after `p`, and
/// an error is well placed.
pub proof fn lemma_var_declaration_within(ts: Seq<TokenView>, p: int)
    ensures
        var_declaration(ts, p) matches Ok((_, next)) ==> p < next <= ts.len(),
        var_declaration(ts, p) matches Err(error) ==> placed(ts, p, error),
    decreases ts.len() - p, 50int,
{
    if kind_at(ts, p) == TokenKind::Identifier && kind_at(ts, p + 1) == TokenKind::Equal {
        lemma_expression_within(ts, p + 2);
    }
}

/// What `function` yields lies within the tokens: a result ends after `p`, and
/// an error is well placed.
pub proof fn lemma_function_within(ts: Seq<TokenView>, p: int, kind: Seq<char>)
    ensures
        function(ts, p, kind) matches Ok((_, next)) ==> p < next <= ts.len(),
        function(ts, p, kind) matches Err(error) ==> placed(ts, p, error),
    decreases ts.len() - p, 50int,
{
    if kind_at(ts, p) == TokenKind::Identifier && kind_at(ts, p + 1) == TokenKind::LeftParen {
        lemma_parameters_within(ts, p + 2, Seq::empty());
        if let Ok((_, brace)) = parameters(ts, p + 2, Seq::empty()) {
            if kind_at(ts, brace) == TokenKind::LeftBrace {
                lemma_block_within(ts, brace + 1, Seq::empty());
            }
        }
    }
}

/// What `declaration` yields lies within the tokens: a result ends after `p`, and
/// an error is well placed.
pub proof fn lemma_declaration_within(ts: Seq<TokenView>, p: int)
    ensures
        declaration(ts, p) matches Ok((_, next)) ==> p < next <= ts.len(),
        declaration(ts, p) matches Err(error) ==> placed(ts, p, error),
    decreases ts.len() - p, 61int,
{
    let kind = kind_at(ts, p);
    if kind == TokenKind::Var {
        lemma_var_declaration_within(ts, p + 1);
    } else if kind == TokenKind::Function {
        lemma_function_within(ts, p + 1, "function"@);
    } else {
        lemma_statement_within(ts, p);
    }
}

/// A parameter list ends after its start and within the tokens.
pub proof fn lemma_parameters_within(ts: Seq<TokenView>, p: int, done: Seq<AstView>)
    ensures
        parameters(ts, p, done) matches Ok((_, next)) ==> p < next <= ts.len(),
        parameters(ts, p, done) matches Err(error) ==> placed(ts, p, error),
    decreases ts.len() - p,
{
    if !(done.len() == 0 && kind_at(ts, p) == TokenKind::RightParen) && kind_at(ts, p)
        == TokenKind::Identifier && kind_at(ts, p + 1) == TokenKind::Comma {
        lemma_parameters_within(ts, p + 2, done.push(AstView::Identifier(ts[p].text)));
    }
}

} // verus!
