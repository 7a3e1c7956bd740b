//! The parser: a cursor over a sequence of tokens, and one function per rule
//! of the grammar. A rule that fails leaves the cursor where it was.

use crate::ast::{AstNode, AstView, lemma_children, node_views};
use crate::error::{ParseError, ParseErrorView, parse_error_views};
use crate::grammar;
use crate::grammar::{Parsed, Precedence, kind_at};
use crate::token::{Token, TokenKind, TokenView, token_views};
use vstd::prelude::*;

verus! {

/// A recursive-descent parser over one sequence of tokens.
pub struct Parser {
    tokens: Vec<Token>,
    current: usize,
}

/// That a rule of the grammar was carried out: `result` is what the rule
/// `parsed` says, the tokens are the same, and the cursor has moved past the
/// tree on success and not at all on failure.
pub open spec fn carried_out(
    before: Parser,
    after: Parser,
    result: Result<AstNode, ParseError>,
    parsed: Parsed,
) -> bool {
    &&& after.tokens() == before.tokens()
    &&& match parsed {
        Ok((node, next)) => {
            &&& result matches Ok(found)
            &&& found@ == node
            &&& after.position() == next
        },
        Err(error) => {
            &&& result matches Err(reported)
            &&& reported@ == error
            &&& after.position() == before.position()
        },
    }
}

impl Parser {
    #[verifier::type_invariant]
    spec fn cursor_in_bounds(&self) -> bool {
        self.current <= self.tokens.len()
    }

    /// The values of the tokens.
    pub closed spec fn tokens(&self) -> Seq<TokenView> {
        token_views(self.tokens@)
    }

    /// The cursor: the index of the next token.
    pub closed spec fn position(&self) -> int {
        self.current as int
    }

    /// How many tokens lie at and after the cursor.
    pub open spec fn remaining(&self) -> int {
        self.tokens().len() - self.position()
    }

    /// A parser at the start of `tokens`.
    pub fn new(tokens: Vec<Token>) -> (parser: Parser)
        ensures
            parser.tokens() == token_views(tokens@),
            parser.position() == 0,
    {
        Parser { tokens, current: 0 }
    }

    /// The category of the token under the cursor; `EOF` when none is left.
    pub fn peek_kind(&self) -> (kind: TokenKind)
        ensures
            kind == kind_at(self.tokens(), self.position()),
    {
        if self.current < self.tokens.len() {
            self.tokens[self.current].kind()
        } else {
            TokenKind::EOF
        }
    }

    /// The token under the cursor, if the sequence holds one there.
    pub fn peek(&self) -> (token: Option<&Token>)
        ensures
            match token {
                Some(token) => 0 <= self.position() < self.tokens().len() && token@
                    == self.tokens()[self.position()],
                None => self.position() == self.tokens().len(),
            },
    {
        proof {
            use_type_invariant(self);
        }
        if self.current < self.tokens.len() {
            Some(&self.tokens[self.current])
        } else {
            None
        }
    }

    /// Whether the tokens have ended: the cursor is at an `EOF` marker or
    /// behind the last token.
    pub fn is_at_end(&self) -> (at_end: bool)
        ensures
            at_end == (kind_at(self.tokens(), self.position()) == TokenKind::EOF),
    {
        self.peek_kind() == TokenKind::EOF
    }

    /// Whether the token under the cursor is of category `kind`.
    pub fn check(&self, kind: TokenKind) -> (found: bool)
        ensures
            found == (kind_at(self.tokens(), self.position()) == kind),
    {
        self.peek_kind() == kind
    }

    /// Moves the cursor over one token, unless the tokens have ended.
    pub fn advance(&mut self)
        ensures
            final(self).tokens() == old(self).tokens(),
            final(self).position() == if kind_at(old(self).tokens(), old(self).position())
                == TokenKind::EOF {
                old(self).position()
            } else {
                old(self).position() + 1
            },
    {
        if self.current < self.tokens.len() && !self.is_at_end() {
            self.current += 1;
        }
    }

    /// Moves the cursor over the token under it if that is of category
    /// `kind`, and says whether it was.
    pub fn match_token(&mut self, kind: TokenKind) -> (found: bool)
        ensures
            final(self).tokens() == old(self).tokens(),
            found == (kind_at(old(self).tokens(), old(self).position()) == kind),
            final(self).position() == if found && kind != TokenKind::EOF {
                old(self).position() + 1
            } else {
                old(self).position()
            },
    {
        if self.check(kind) {
            self.advance();
            true
        } else {
            false
        }
    }

    /// The error of finding the token under the cursor where `message` says
    /// what was needed.
    pub fn unexpected(&self, message: &str) -> (error: ParseError)
        ensures
            error@ == grammar::unexpected(self.tokens(), self.position(), message@),
    {
        if self.current < self.tokens.len() {
            let found = &self.tokens[self.current];
            if found.kind() == TokenKind::EOF {
                ParseError::UnexpectedEndOfInput { expected: String::from_str(message) }
            } else {
                ParseError::UnexpectedToken {
                    expected: String::from_str(message),
                    found: found.clone(),
                    position: self.current,
                }
            }
        } else {
            ParseError::UnexpectedEndOfInput { expected: String::from_str(message) }
        }
    }

    /// Moves the cursor over the token under it and returns it, if it is of
    /// category `kind`; else fails with the error that carries `message`.
    /// The end of the tokens can be asked for, and is not moved over.
    pub fn consume(&mut self, kind: TokenKind, message: &str) -> (result: Result<
        Token,
        ParseError,
    >)
        ensures
            final(self).tokens() == old(self).tokens(),
            kind_at(old(self).tokens(), old(self).position()) == kind ==> {
                &&& result matches Ok(token)
                &&& token@ == if old(self).position() < old(self).tokens().len() {
                    old(self).tokens()[old(self).position()]
                } else {
                    TokenView { kind: TokenKind::EOF, text: Seq::empty() }
                }
                &&& final(self).position() == if kind == TokenKind::EOF {
                    old(self).position()
                } else {
                    old(self).position() + 1
                }
            },
            kind_at(old(self).tokens(), old(self).position()) != kind ==> {
                &&& result matches Err(error)
                &&& error@ == grammar::unexpected(
                    old(self).tokens(),
                    old(self).position(),
                    message@,
                )
                &&& final(self).position() == old(self).position()
            },
    {
        if self.check(kind) {
            if self.current < self.tokens.len() {
                let token = self.tokens[self.current].clone();
                self.advance();
                Ok(token)
            } else {
                Ok(Token::EOF)
            }
        } else {
            Err(self.unexpected(message))
        }
    }

    /// The text of the token under the cursor, which holds one.
    fn text(&self) -> (text: String)
        requires
            kind_at(self.tokens(), self.position()).is_literal(),
        ensures
            text@ == self.tokens()[self.position()].text,
    {
        match self.tokens[self.current].text() {
            Some(text) => text.clone(),
            None => String::new(),
        }
    }

    /// Moves the cursor back to `start`.
    fn rewind(&mut self, start: usize)
        requires
            start <= old(self).position(),
        ensures
            final(self).tokens() == old(self).tokens(),
            final(self).position() == start,
    {
        proof {
            use_type_invariant(&*self);
        }
        self.current = start;
    }

    /// A number literal: the node of the number token under the cursor.
    pub fn parse_number(&mut self) -> (result: Result<AstNode, ParseError>)
        ensures
            carried_out(
                *old(self),
                *final(self),
                result,
                grammar::literal(
                    old(self).tokens(),
                    old(self).position(),
                    TokenKind::Number,
                    "Expect number."@,
                ),
            ),
    {
        if self.check(TokenKind::Number) {
            let text = self.text();
            self.advance();
            Ok(AstNode::NumberLiteral(text))
        } else {
            Err(self.unexpected("Expect number."))
        }
    }

    /// A string literal: the node of the string token under the cursor.
    pub fn parse_string(&mut self) -> (result: Result<AstNode, ParseError>)
        ensures
            carried_out(
                *old(self),
                *final(self),
                result,
                grammar::literal(
                    old(self).tokens(),
                    old(self).position(),
                    TokenKind::String,
                    "Expect string."@,
                ),
            ),
    {
        if self.check(TokenKind::String) {
            let text = self.text();
            self.advance();
            Ok(AstNode::StringLiteral(text))
        } else {
            Err(self.unexpected("Expect string."))
        }
    }

    /// An identifier: the node of the identifier token under the cursor.
    pub fn parse_identifier(&mut self) -> (result: Result<AstNode, ParseError>)
        ensures
            carried_out(
                *old(self),
                *final(self),
                result,
                grammar::literal(
                    old(self).tokens(),
                    old(self).position(),
                    TokenKind::Identifier,
                    "Expect identifier."@,
                ),
            ),
    {
        if self.check(TokenKind::Identifier) {
            let text = self.text();
            self.advance();
            Ok(AstNode::Identifier(text))
        } else {
            Err(self.unexpected("Expect identifier."))
        }
    }

    /// `primary := NUMBER | STRING | 'true' | 'false' | 'null' | 'this' | IDENT
    /// | '(' expression ')'`
    pub fn parse_primary(&mut self) -> (result: Result<AstNode, ParseError>)
        ensures
            carried_out(
                *old(self),
                *final(self),
                result,
                grammar::primary(old(self).tokens(), old(self).position()),
            ),
        decreases old(self).remaining(), 3int,
    {
        let start = self.current;
        let kind = self.peek_kind();
        if kind == TokenKind::Number {
            self.parse_number()
        } else if kind == TokenKind::String {
            self.parse_string()
        } else if kind == TokenKind::Identifier {
            self.parse_identifier()
        } else if kind == TokenKind::True {
            self.advance();
            Ok(AstNode::BooleanLiteral(true))
        } else if kind == TokenKind::False {
            self.advance();
            Ok(AstNode::BooleanLiteral(false))
        } else if kind == TokenKind::Null {
            self.advance();
            Ok(AstNode::NullLiteral)
        } else if kind == TokenKind::This {
            self.advance();
            Ok(AstNode::ThisExpression)
        } else if kind == TokenKind::LeftParen {
            self.advance();
            let inner = match self.parse_expression() {
                Ok(node) => node,
                Err(error) => {
                    self.rewind(start);
                    return Err(error);
                },
            };
            proof {
                grammar::lemma_expression_within(old(self).tokens(), start + 1);
            }
            match self.consume(TokenKind::RightParen, "Expect ')' after expression.") {
                Ok(_) => Ok(inner),
                Err(error) => {
                    self.rewind(start);
                    Err(error)
                },
            }
        } else {
            Err(self.unexpected("Expect expression."))
        }
    }

    /// `call := primary ('(' argList? ')')*`
    pub fn parse_call_expression(&mut self) -> (result: Result<AstNode, ParseError>)
        ensures
            carried_out(
                *old(self),
                *final(self),
                result,
                grammar::call(old(self).tokens(), old(self).position()),
            ),
        decreases old(self).remaining(), 4int,
    {
        let start = self.current;
        let mut callee = match self.parse_primary() {
            Ok(node) => node,
            Err(error) => {
                return Err(error);
            },
        };
        proof {
            grammar::lemma_primary_within(old(self).tokens(), start as int);
        }
        while self.check(TokenKind::LeftParen)
            invariant
                self.tokens() == old(self).tokens(),
                start == old(self).position(),
                start < self.position() <= self.tokens().len(),
                grammar::call_tail(self.tokens(), self.position(), callee@) == grammar::call(
                    self.tokens(),
                    start as int,
                ),
            decreases self.remaining(),
        {
            let open = self.current;
            self.advance();
            let arguments = match self.parse_arguments() {
                Ok(list) => list,
                Err(error) => {
                    self.rewind(start);
                    return Err(error);
                },
            };
            proof {
                grammar::lemma_arguments_within(self.tokens(), open + 1, Seq::empty());
            }
            let ghost before = callee@;
            callee = AstNode::CallExpression { callee: Box::new(callee), arguments };
            proof {
                lemma_children(callee);
                assert(callee@ == AstView::CallExpression {
                    callee: Box::new(before),
                    arguments: node_views(arguments@),
                });
            }
        }
        Ok(callee)
    }

    /// `argList? ')'`, after the opening parenthesis of a call.
    fn parse_arguments(&mut self) -> (result: Result<Vec<AstNode>, ParseError>)
        ensures
            final(self).tokens() == old(self).tokens(),
            match grammar::arguments(old(self).tokens(), old(self).position(), Seq::empty()) {
                Ok((list, next)) => {
                    &&& result matches Ok(found)
                    &&& node_views(found@) == list
                    &&& final(self).position() == next
                },
                Err(error) => {
                    &&& result matches Err(reported)
                    &&& reported@ == error
                    &&& final(self).position() == old(self).position()
                },
            },
        decreases old(self).remaining(), 49int,
    {
        let start = self.current;
        let mut arguments: Vec<AstNode> = Vec::new();
        proof {
            use_type_invariant(&*self);
            assert(node_views(arguments@) =~= Seq::empty());
        }
        if self.match_token(TokenKind::RightParen) {
            return Ok(arguments);
        }
        loop
            invariant
                self.tokens() == old(self).tokens(),
                start == old(self).position(),
                start <= self.position() <= self.tokens().len(),
                !(arguments@.len() == 0 && kind_at(self.tokens(), self.position())
                    == TokenKind::RightParen),
                grammar::arguments(self.tokens(), self.position(), node_views(arguments@))
                    == grammar::arguments(self.tokens(), start as int, Seq::empty()),
            decreases self.remaining(),
        {
            let ghost at = self.position();
            let argument = match self.parse_expression() {
                Ok(node) => node,
                Err(error) => {
                    self.rewind(start);
                    return Err(error);
                },
            };
            proof {
                grammar::lemma_expression_within(self.tokens(), at);
                assert(node_views(arguments@.push(argument)) =~= node_views(arguments@).push(
                    argument@,
                ));
            }
            arguments.push(argument);
            if !self.match_token(TokenKind::Comma) {
                match self.consume(TokenKind::RightParen, "Expect ')' after arguments.") {
                    Ok(_) => {
                        return Ok(arguments);
                    },
                    Err(error) => {
                        self.rewind(start);
                        return Err(error);
                    },
                }
            }
        }
    }

    /// `unary := ('!' | '-') unary | call`
    pub fn parse_unary(&mut self) -> (result: Result<AstNode, ParseError>)
        ensures
            carried_out(
                *old(self),
                *final(self),
                result,
                grammar::unary(old(self).tokens(), old(self).position()),
            ),
        decreases old(self).remaining(), 5int,
    {
        let start = self.current;
        let kind = self.peek_kind();
        if kind == TokenKind::Bang || kind == TokenKind::Minus {
            self.advance();
            match self.parse_unary() {
                Ok(operand) => Ok(
                    AstNode::UnaryExpression {
                        operator: String::from_str(kind.spelling_str()),
                        operand: Box::new(operand),
                    },
                ),
                Err(error) => {
                    self.rewind(start);
                    Err(error)
                },
            }
        } else {
            self.parse_call_expression()
        }
    }

    /// An operand of the operators of `level`.
    fn parse_operand(&mut self, level: Precedence) -> (result: Result<AstNode, ParseError>)
        ensures
            carried_out(
                *old(self),
                *final(self),
                result,
                grammar::operand(old(self).tokens(), old(self).position(), level),
            ),
        decreases old(self).remaining(), level.rank() - 2,
    {
        match level {
            Precedence::Or => self.parse_and(),
            Precedence::And => self.parse_equality(),
            Precedence::Equality => self.parse_comparison(),
            Precedence::Comparison => self.parse_additive(),
            Precedence::Additive => self.parse_multiplicative(),
            Precedence::Multiplicative => self.parse_unary(),
        }
    }

    /// `operand (operator operand)*` for the operators of `level`, folded to
    /// the left.
    fn parse_binary(&mut self, level: Precedence) -> (result: Result<AstNode, ParseError>)
        ensures
            carried_out(
                *old(self),
                *final(self),
                result,
                grammar::binary(old(self).tokens(), old(self).position(), level),
            ),
        decreases old(self).remaining(), level.rank() - 1,
    {
        let start = self.current;
        let mut left = match self.parse_operand(level) {
            Ok(node) => node,
            Err(error) => {
                return Err(error);
            },
        };
        proof {
            grammar::lemma_operand_within(old(self).tokens(), start as int, level);
        }
        loop
            invariant
                self.tokens() == old(self).tokens(),
                start == old(self).position(),
                start < self.position() <= self.tokens().len(),
                grammar::binary_tail(self.tokens(), self.position(), level, left@)
                    == grammar::binary(self.tokens(), start as int, level),
            decreases self.remaining(),
        {
            let kind = self.peek_kind();
            if !admits(level, kind) {
                return Ok(left);
            }
            let ghost at = self.position();
            self.advance();
            let right = match self.parse_operand(level) {
                Ok(node) => node,
                Err(error) => {
                    self.rewind(start);
                    return Err(error);
                },
            };
            proof {
                grammar::lemma_operand_within(self.tokens(), at + 1, level);
            }
            left = join(level, kind, left, right);
        }
    }

    /// `logicOr := logicAnd ('||' logicAnd)*`
    pub fn parse_or(&mut self) -> (result: Result<AstNode, ParseError>)
        ensures
            carried_out(
                *old(self),
                *final(self),
                result,
                grammar::binary(old(self).tokens(), old(self).position(), Precedence::Or),
            ),
        decreases old(self).remaining(), Precedence::Or.rank(),
    {
        self.parse_binary(Precedence::Or)
    }

    /// `logicAnd := equality ('&&' equality)*`
    pub fn parse_and(&mut self) -> (result: Result<AstNode, ParseError>)
        ensures
            carried_out(
                *old(self),
                *final(self),
                result,
                grammar::binary(old(self).tokens(), old(self).position(), Precedence::And),
            ),
        decreases old(self).remaining(), Precedence::And.rank(),
    {
        self.parse_binary(Precedence::And)
    }

    /// `equality := comparison (('==' | '!=') comparison)*`
    pub fn parse_equality(&mut self) -> (result: Result<AstNode, ParseError>)
        ensures
            carried_out(
                *old(self),
                *final(self),
                result,
                grammar::binary(old(self).tokens(), old(self).position(), Precedence::Equality),
            ),
        decreases old(self).remaining(), Precedence::Equality.rank(),
    {
        self.parse_binary(Precedence::Equality)
    }

    /// `comparison := additive (('<' | '>' | '<=' | '>=') additive)*`
    pub fn parse_comparison(&mut self) -> (result: Result<AstNode, ParseError>)
        ensures
            carried_out(
                *old(self),
                *final(self),
                result,
                grammar::binary(old(self).tokens(), old(self).position(), Precedence::Comparison),
            ),
        decreases old(self).remaining(), Precedence::Comparison.rank(),
    {
        self.parse_binary(Precedence::Comparison)
    }

    /// `additive := multiplicative (('+' | '-') multiplicative)*`
    pub fn parse_additive(&mut self) -> (result: Result<AstNode, ParseError>)
        ensures
            carried_out(
                *old(self),
                *final(self),
                result,
                grammar::binary(old(self).tokens(), old(self).position(), Precedence::Additive),
            ),
        decreases old(self).remaining(), Precedence::Additive.rank(),
    {
        self.parse_binary(Precedence::Additive)
    }

    /// `multiplicative := unary (('*' | '/') unary)*`
    pub fn parse_multiplicative(&mut self) -> (result: Result<AstNode, ParseError>)
        ensures
            carried_out(
                *old(self),
                *final(self),
                result,
                grammar::binary(
                    old(self).tokens(),
                    old(self).position(),
                    Precedence::Multiplicative,
                ),
            ),
        decreases old(self).remaining(), Precedence::Multiplicative.rank(),
    {
        self.parse_binary(Precedence::Multiplicative)
    }

    /// `ternary := logicOr ('?' expression ':' expression)?`
    pub fn parse_ternary(&mut self) -> (result: Result<AstNode, ParseError>)
        ensures
            carried_out(
                *old(self),
                *final(self),
                result,
                grammar::ternary(old(self).tokens(), old(self).position()),
            ),
        decreases old(self).remaining(), 40int,
    {
        let start = self.current;
        let condition = match self.parse_or() {
            Ok(node) => node,
            Err(error) => {
                return Err(error);
            },
        };
        proof {
            grammar::lemma_binary_within(old(self).tokens(), start as int, Precedence::Or);
        }
        let ghost question = self.position();
        if !self.match_token(TokenKind::Question) {
            return Ok(condition);
        }
        let then_branch = match self.parse_expression() {
            Ok(node) => node,
            Err(error) => {
                self.rewind(start);
                return Err(error);
            },
        };
        proof {
            grammar::lemma_expression_within(old(self).tokens(), question + 1);
        }
        match self.consume(TokenKind::Colon, "Expect ':' after '?' in ternary operator.") {
            Ok(_) => {},
            Err(error) => {
                self.rewind(start);
                return Err(error);
            },
        }
        match self.parse_expression() {
            Ok(else_branch) => Ok(
                AstNode::TernaryExpression {
                    condition: Box::new(condition),
                    then_branch: Box::new(then_branch),
                    else_branch: Box::new(else_branch),
                },
            ),
            Err(error) => {
                self.rewind(start);
                Err(error)
            },
        }
    }

    /// `assignment := ternary (('=' | '+=' | '-=' | '*=' | '/=') assignment)?`
    pub fn parse_assignment(&mut self) -> (result: Result<AstNode, ParseError>)
        ensures
            carried_out(
                *old(self),
                *final(self),
                result,
                grammar::assignment(old(self).tokens(), old(self).position()),
            ),
        decreases old(self).remaining(), 41int,
    {
        let start = self.current;
        let target = match self.parse_ternary() {
            Ok(node) => node,
            Err(error) => {
                return Err(error);
            },
        };
        proof {
            grammar::lemma_ternary_within(old(self).tokens(), start as int);
        }
        let kind = self.peek_kind();
        if !is_assignment_operator(kind) {
            return Ok(target);
        }
        self.advance();
        match self.parse_assignment() {
            Ok(value) => Ok(
                AstNode::AssignmentExpression {
                    operator: String::from_str(kind.spelling_str()),
                    left: Box::new(target),
                    right: Box::new(value),
                },
            ),
            Err(error) => {
                self.rewind(start);
                Err(error)
            },
        }
    }

    /// `expression := assignment`
    pub fn parse_expression(&mut self) -> (result: Result<AstNode, ParseError>)
        ensures
            carried_out(
                *old(self),
                *final(self),
                result,
                grammar::expression(old(self).tokens(), old(self).position()),
            ),
        decreases old(self).remaining(), 42int,
    {
        self.parse_assignment()
    }

    /// `exprStmt := expression ';'`
    pub fn expression_statement(&mut self) -> (result: Result<AstNode, ParseError>)
        ensures
            carried_out(
                *old(self),
                *final(self),
                result,
                grammar::expression_statement(old(self).tokens(), old(self).position()),
            ),
        decreases old(self).remaining(), 50int,
    {
        let start = self.current;
        let node = match self.parse_expression() {
            Ok(node) => node,
            Err(error) => {
                return Err(error);
            },
        };
        proof {
            grammar::lemma_expression_within(old(self).tokens(), start as int);
        }
        match self.consume(TokenKind::Semicolon, "Expect ';' after expression.") {
            Ok(_) => Ok(node),
            Err(error) => {
                self.rewind(start);
                Err(error)
            },
        }
    }

    /// `expression? ';'`, after `return`.
    pub fn return_statement(&mut self) -> (result: Result<AstNode, ParseError>)
        ensures
            carried_out(
                *old(self),
                *final(self),
                result,
                grammar::return_statement(old(self).tokens(), old(self).position()),
            ),
        decreases old(self).remaining(), 50int,
    {
        let start = self.current;
        if self.match_token(TokenKind::Semicolon) {
            return Ok(AstNode::ReturnStatement { value: None });
        }
        let value = match self.parse_expression() {
            Ok(node) => node,
            Err(error) => {
                return Err(error);
            },
        };
        proof {
            grammar::lemma_expression_within(old(self).tokens(), start as int);
        }
        match self.consume(TokenKind::Semicolon, "Expect ';' after return value.") {
            Ok(_) => Ok(AstNode::ReturnStatement { value: Some(Box::new(value)) }),
            Err(error) => {
                self.rewind(start);
                Err(error)
            },
        }
    }

    /// `'(' expression ')'`, after `if` or `while`.
    fn condition(&mut self, expected_open: &str, expected_close: &str) -> (result: Result<
        AstNode,
        ParseError,
    >)
        ensures
            carried_out(
                *old(self),
                *final(self),
                result,
                grammar::condition(
                    old(self).tokens(),
                    old(self).position(),
                    expected_open@,
                    expected_close@,
                ),
            ),
        decreases old(self).remaining(), 50int,
    {
        let start = self.current;
        match self.consume(TokenKind::LeftParen, expected_open) {
            Ok(_) => {},
            Err(error) => {
                return Err(error);
            },
        }
        let node = match self.parse_expression() {
            Ok(node) => node,
            Err(error) => {
                self.rewind(start);
                return Err(error);
            },
        };
        proof {
            grammar::lemma_expression_within(old(self).tokens(), start + 1);
        }
        match self.consume(TokenKind::RightParen, expected_close) {
            Ok(_) => Ok(node),
            Err(error) => {
                self.rewind(start);
                Err(error)
            },
        }
    }

    /// `'(' expression ')' statement ('else' statement)?`, after `if`.
    pub fn if_statement(&mut self) -> (result: Result<AstNode, ParseError>)
        ensures
            carried_out(
                *old(self),
                *final(self),
                result,
                grammar::if_statement(old(self).tokens(), old(self).position()),
            ),
        decreases old(self).remaining(), 51int,
    {
        let start = self.current;
        let condition = match self.condition(
            "Expect '(' after 'if'.",
            "Expect ')' after if condition.",
        ) {
            Ok(node) => node,
            Err(error) => {
                return Err(error);
            },
        };
        proof {
            grammar::lemma_condition_within(
                old(self).tokens(),
                start as int,
                "Expect '(' after 'if'."@,
                "Expect ')' after if condition."@,
            );
        }
        let ghost body = self.position();
        let then_branch = match self.statement() {
            Ok(node) => node,
            Err(error) => {
                self.rewind(start);
                return Err(error);
            },
        };
        proof {
            grammar::lemma_statement_within(old(self).tokens(), body);
        }
        if !self.match_token(TokenKind::Else) {
            return Ok(
                AstNode::IfStatement {
                    condition: Box::new(condition),
                    then_branch: Box::new(then_branch),
                    else_branch: None,
                },
            );
        }
        match self.statement() {
            Ok(else_branch) => Ok(
                AstNode::IfStatement {
                    condition: Box::new(condition),
                    then_branch: Box::new(then_branch),
                    else_branch: Some(Box::new(else_branch)),
                },
            ),
            Err(error) => {
                self.rewind(start);
                Err(error)
            },
        }
    }

    /// `'(' expression ')' statement`, after `while`.
    pub fn while_statement(&mut self) -> (result: Result<AstNode, ParseError>)
        ensures
            carried_out(
                *old(self),
                *final(self),
                result,
                grammar::while_statement(old(self).tokens(), old(self).position()),
            ),
        decreases old(self).remaining(), 51int,
    {
        let start = self.current;
        let condition = match self.condition(
            "Expect '(' after 'while'.",
            "Expect ')' after while condition.",
        ) {
            Ok(node) => node,
            Err(error) => {
                return Err(error);
            },
        };
        proof {
            grammar::lemma_condition_within(
                old(self).tokens(),
                start as int,
                "Expect '(' after 'while'."@,
                "Expect ')' after while condition."@,
            );
        }
        match self.statement() {
            Ok(body) => Ok(
                AstNode::WhileStatement { condition: Box::new(condition), body: Box::new(body) },
            ),
            Err(error) => {
                self.rewind(start);
                Err(error)
            },
        }
    }

    /// `declaration* '}'`, after the opening brace.
    pub fn block(&mut self) -> (result: Result<AstNode, ParseError>)
        ensures
            carried_out(
                *old(self),
                *final(self),
                result,
                grammar::block(old(self).tokens(), old(self).position(), Seq::empty()),
            ),
        decreases old(self).remaining(), 62int,
    {
        let start = self.current;
        let mut body: Vec<AstNode> = Vec::new();
        proof {
            use_type_invariant(&*self);
            assert(node_views(body@) =~= Seq::empty());
        }
        loop
            invariant
                self.tokens() == old(self).tokens(),
                start == old(self).position(),
                start <= self.position() <= self.tokens().len(),
                grammar::block(self.tokens(), self.position(), node_views(body@)) == grammar::block(
                    self.tokens(),
                    start as int,
                    Seq::empty(),
                ),
            decreases self.remaining(),
        {
            if self.match_token(TokenKind::RightBrace) {
                let node = AstNode::BlockStatement { body };
                proof {
                    lemma_children(node);
                }
                return Ok(node);
            }
            if self.is_at_end() {
                let error = self.unexpected("Expect '}' after block.");
                self.rewind(start);
                return Err(error);
            }
            let ghost at = self.position();
            let item = match self.declaration() {
                Ok(node) => node,
                Err(error) => {
                    self.rewind(start);
                    return Err(error);
                },
            };
            proof {
                grammar::lemma_declaration_within(self.tokens(), at);
                assert(node_views(body@.push(item)) =~= node_views(body@).push(item@));
            }
            body.push(item);
        }
    }

    /// `statement := block | ifStmt | whileStmt | returnStmt | exprStmt`
    pub fn statement(&mut self) -> (result: Result<AstNode, ParseError>)
        ensures
            carried_out(
                *old(self),
                *final(self),
                result,
                grammar::statement(old(self).tokens(), old(self).position()),
            ),
        decreases old(self).remaining(), 60int,
    {
        let start = self.current;
        let kind = self.peek_kind();
        if kind == TokenKind::LeftBrace || kind == TokenKind::If || kind == TokenKind::While
            || kind == TokenKind::Return {
            self.advance();
            let result = if kind == TokenKind::LeftBrace {
                self.block()
            } else if kind == TokenKind::If {
                self.if_statement()
            } else if kind == TokenKind::While {
                self.while_statement()
            } else {
                self.return_statement()
            };
            if result.is_err() {
                self.rewind(start);
            }
            result
        } else {
            self.expression_statement()
        }
    }

    /// `IDENT ('=' expression)? ';'`, after `var`.
    pub fn var_declaration(&mut self) -> (result: Result<AstNode, ParseError>)
        ensures
            carried_out(
                *old(self),
                *final(self),
                result,
                grammar::var_declaration(old(self).tokens(), old(self).position()),
            ),
        decreases old(self).remaining(), 50int,
    {
        let start = self.current;
        let id = match self.consume(TokenKind::Identifier, "Expect variable name.") {
            Ok(name) => Box::new(identifier_node(name)),
            Err(error) => {
                return Err(error);
            },
        };
        let init = if self.match_token(TokenKind::Equal) {
            match self.parse_expression() {
                Ok(node) => Some(Box::new(node)),
                Err(error) => {
                    self.rewind(start);
                    return Err(error);
                },
            }
        } else {
            None
        };
        proof {
            grammar::lemma_expression_within(old(self).tokens(), start + 2);
        }
        match self.consume(TokenKind::Semicolon, "Expect ';' after variable declaration.") {
            Ok(_) => Ok(AstNode::VariableDeclaration { id, init }),
            Err(error) => {
                self.rewind(start);
                Err(error)
            },
        }
    }

    /// `paramList? ')'`, after the opening parenthesis of a declaration.
    fn parameters(&mut self) -> (result: Result<Vec<AstNode>, ParseError>)
        ensures
            final(self).tokens() == old(self).tokens(),
            match grammar::parameters(old(self).tokens(), old(self).position(), Seq::empty()) {
                Ok((list, next)) => {
                    &&& result matches Ok(found)
                    &&& node_views(found@) == list
                    &&& final(self).position() == next
                },
                Err(error) => {
                    &&& result matches Err(reported)
                    &&& reported@ == error
                    &&& final(self).position() == old(self).position()
                },
            },
    {
        let start = self.current;
        let mut parameters: Vec<AstNode> = Vec::new();
        proof {
            use_type_invariant(&*self);
            assert(node_views(parameters@) =~= Seq::empty());
        }
        if self.match_token(TokenKind::RightParen) {
            return Ok(parameters);
        }
        loop
            invariant
                self.tokens() == old(self).tokens(),
                start == old(self).position(),
                start <= self.position() <= self.tokens().len(),
                !(parameters@.len() == 0 && kind_at(self.tokens(), self.position())
                    == TokenKind::RightParen),
                grammar::parameters(self.tokens(), self.position(), node_views(parameters@))
                    == grammar::parameters(self.tokens(), start as int, Seq::empty()),
            decreases self.remaining(),
        {
            let parameter = match self.consume(TokenKind::Identifier, "Expect parameter name.") {
                Ok(name) => identifier_node(name),
                Err(error) => {
                    self.rewind(start);
                    return Err(error);
                },
            };
            proof {
                assert(node_views(parameters@.push(parameter)) =~= node_views(parameters@).push(
                    parameter@,
                ));
            }
            parameters.push(parameter);
            if !self.match_token(TokenKind::Comma) {
                match self.consume(TokenKind::RightParen, "Expect ')' after parameters.") {
                    Ok(_) => {
                        return Ok(parameters);
                    },
                    Err(error) => {
                        self.rewind(start);
                        return Err(error);
                    },
                }
            }
        }
    }

    /// `IDENT '(' paramList? ')' block`, after `function`. The messages of
    /// its errors name the `kind` of function that is declared.
    pub fn function(&mut self, kind: &str) -> (result: Result<AstNode, ParseError>)
        ensures
            carried_out(
                *old(self),
                *final(self),
                result,
                grammar::function(old(self).tokens(), old(self).position(), kind@),
            ),
        decreases old(self).remaining(), 50int,
    {
        let start = self.current;
        let name_message = String::from_str("Expect ").concat(kind).concat(" name.");
        let id = match self.consume(TokenKind::Identifier, name_message.as_str()) {
            Ok(name) => Box::new(identifier_node(name)),
            Err(error) => {
                return Err(error);
            },
        };
        let open_message = String::from_str("Expect '(' after ").concat(kind).concat(" name.");
        match self.consume(TokenKind::LeftParen, open_message.as_str()) {
            Ok(_) => {},
            Err(error) => {
                self.rewind(start);
                return Err(error);
            },
        }
        let params = match self.parameters() {
            Ok(list) => list,
            Err(error) => {
                self.rewind(start);
                return Err(error);
            },
        };
        proof {
            grammar::lemma_parameters_within(old(self).tokens(), start + 2, Seq::empty());
        }
        let brace_message = String::from_str("Expect '{' before ").concat(kind).concat(" body.");
        match self.consume(TokenKind::LeftBrace, brace_message.as_str()) {
            Ok(_) => {},
            Err(error) => {
                self.rewind(start);
                return Err(error);
            },
        }
        match self.block() {
            Ok(body) => {
                let node = AstNode::FunctionDeclaration { id, params, body: Box::new(body) };
                proof {
                    lemma_children(node);
                }
                Ok(node)
            },
            Err(error) => {
                self.rewind(start);
                Err(error)
            },
        }
    }

    /// `declaration := varDecl | funcDecl | statement`
    pub fn declaration(&mut self) -> (result: Result<AstNode, ParseError>)
        ensures
            carried_out(
                *old(self),
                *final(self),
                result,
                grammar::declaration(old(self).tokens(), old(self).position()),
            ),
        decreases old(self).remaining(), 61int,
    {
        let start = self.current;
        if self.match_token(TokenKind::Var) {
            let result = self.var_declaration();
            if result.is_err() {
                self.rewind(start);
            }
            result
        } else if self.match_token(TokenKind::Function) {
            let result = self.function("function");
            if result.is_err() {
                self.rewind(start);
            }
            result
        } else {
            self.statement()
        }
    }

    /// `program := declaration* EOF`: parses all the tokens from the cursor
    /// on into a `Program` node and stops where they end, or fails with the
    /// first error.
    pub fn parse(&mut self) -> (result: Result<AstNode, ParseError>)
        ensures
            carried_out(
                *old(self),
                *final(self),
                result,
                grammar::program_from(old(self).tokens(), old(self).position(), Seq::empty()),
            ),
    {
        let start = self.current;
        let mut body: Vec<AstNode> = Vec::new();
        proof {
            use_type_invariant(&*self);
            assert(node_views(body@) =~= Seq::empty());
        }
        while !self.is_at_end()
            invariant
                self.tokens() == old(self).tokens(),
                start == old(self).position(),
                start <= self.position() <= self.tokens().len(),
                grammar::program_from(self.tokens(), self.position(), node_views(body@))
                    == grammar::program_from(self.tokens(), start as int, Seq::empty()),
            decreases self.remaining(),
        {
            let ghost at = self.position();
            let item = match self.declaration() {
                Ok(node) => node,
                Err(error) => {
                    self.rewind(start);
                    return Err(error);
                },
            };
            proof {
                grammar::lemma_declaration_within(self.tokens(), at);
                assert(node_views(body@.push(item)) =~= node_views(body@).push(item@));
            }
            body.push(item);
        }
        let node = AstNode::Program { body };
        proof {
            lemma_children(node);
        }
        Ok(node)
    }

    /// Moves the cursor to where parsing resumes after an error: to the first
    /// position at or after it that follows a semicolon, holds a keyword that
    /// starts a statement, or ends the tokens.
    pub fn synchronize(&mut self)
        ensures
            final(self).tokens() == old(self).tokens(),
            final(self).position() == grammar::synchronize(
                old(self).tokens(),
                old(self).position(),
            ),
    {
        proof {
            use_type_invariant(&*self);
        }
        loop
            invariant
                self.tokens() == old(self).tokens(),
                self.position() <= self.tokens().len(),
                grammar::synchronize(self.tokens(), self.position()) == grammar::synchronize(
                    old(self).tokens(),
                    old(self).position(),
                ),
            decreases self.remaining(),
        {
            if self.current >= self.tokens.len() {
                return ;
            }
            let kind = self.peek_kind();
            if kind == TokenKind::EOF || starts_statement(kind) {
                return ;
            }
            if self.current > 0 && self.tokens[self.current - 1].kind() == TokenKind::Semicolon {
                return ;
            }
            self.current += 1;
        }
    }

    /// `program := declaration* EOF` with recovery: parses all the tokens
    /// from the cursor on into a `Program` node and collects every error on
    /// the way instead of stopping at the first. A declaration that fails
    /// leaves no node; parsing resumes behind the token that its error names,
    /// at the next statement boundary. The cursor ends where parsing stopped:
    /// at the end of the tokens, or at the declaration that they end in.
    pub fn parse_with_recovery(&mut self) -> (result: (AstNode, Vec<ParseError>))
        ensures
            final(self).tokens() == old(self).tokens(),
            ({
                let recovered = grammar::recovering(
                    old(self).tokens(),
                    old(self).position(),
                    Seq::empty(),
                    Seq::empty(),
                );
                &&& result.0@ == AstView::Program { body: recovered.body }
                &&& parse_error_views(result.1@) == recovered.errors
                &&& final(self).position() == recovered.end
            }),
    {
        let mut body: Vec<AstNode> = Vec::new();
        let mut errors: Vec<ParseError> = Vec::new();
        proof {
            use_type_invariant(&*self);
            assert(node_views(body@) =~= Seq::empty());
            assert(parse_error_views(errors@) =~= Seq::empty());
        }
        loop
            invariant
                self.tokens() == old(self).tokens(),
                self.position() <= self.tokens().len(),
                grammar::recovering(
                    self.tokens(),
                    self.position(),
                    node_views(body@),
                    parse_error_views(errors@),
                ) == grammar::recovering(
                    old(self).tokens(),
                    old(self).position(),
                    Seq::empty(),
                    Seq::empty(),
                ),
            decreases self.remaining(),
        {
            if self.is_at_end() {
                let node = AstNode::Program { body };
                proof {
                    lemma_children(node);
                }
                return (node, errors);
            }
            let ghost at = self.position();
            proof {
                grammar::lemma_declaration_within(self.tokens(), at);
            }
            match self.declaration() {
                Ok(item) => {
                    proof {
                        assert(node_views(body@.push(item)) =~= node_views(body@).push(item@));
                    }
                    body.push(item);
                },
                Err(error) => {
                    proof {
                        assert(parse_error_views(errors@.push(error)) =~= parse_error_views(
                            errors@,
                        ).push(error@));
                    }
                    let resume = resume_position(&error);
                    errors.push(error);
                    match resume {
                        Some(position) => {
                            proof {
                                grammar::lemma_synchronize_bounds(self.tokens(), position + 1);
                            }
                            assert(self.tokens.len() == self.tokens@.len());
                            self.current = position + 1;
                            self.synchronize();
                        },
                        None => {
                            let node = AstNode::Program { body };
                            proof {
                                lemma_children(node);
                            }
                            return (node, errors);
                        },
                    }
                },
            }
        }
    }
}

/// The identifier node that holds the text of `name`.
fn identifier_node(name: Token) -> (node: AstNode)
    ensures
        node@ == AstView::Identifier(name@.text),
{
    match name {
        Token::Identifier(text) | Token::String(text) | Token::Number(text) => AstNode::Identifier(
            text,
        ),
        _ => AstNode::Identifier(String::new()),
    }
}

/// Whether `kind` is an operator of `level`.
fn admits(level: Precedence, kind: TokenKind) -> (b: bool)
    ensures
        b == level.admits(kind),
{
    match level {
        Precedence::Or => kind == TokenKind::PipePipe,
        Precedence::And => kind == TokenKind::AmpersandAmpersand,
        Precedence::Equality => kind == TokenKind::EqualEqual || kind == TokenKind::BangEqual,
        Precedence::Comparison => kind == TokenKind::Less || kind == TokenKind::Greater || kind
            == TokenKind::LessEqual || kind == TokenKind::GreaterEqual,
        Precedence::Additive => kind == TokenKind::Plus || kind == TokenKind::Minus,
        Precedence::Multiplicative => kind == TokenKind::Star || kind == TokenKind::Slash,
    }
}

/// The position of the token that `error` names, if it names one.
fn resume_position(error: &ParseError) -> (position: Option<usize>)
    ensures
        position == match error@ {
            ParseErrorView::UnexpectedToken { position, .. } => Some(position as usize),
            ParseErrorView::UnexpectedEndOfInput { .. } => None,
        },
{
    match error {
        ParseError::UnexpectedToken { position, .. } => Some(*position),
        ParseError::UnexpectedEndOfInput { .. } => None,
    }
}

/// Whether `kind` is a keyword that starts a declaration or a statement.
fn starts_statement(kind: TokenKind) -> (b: bool)
    ensures
        b == grammar::starts_statement(kind),
{
    kind == TokenKind::Var || kind == TokenKind::Function || kind == TokenKind::If || kind
        == TokenKind::While || kind == TokenKind::Return
}

/// Whether `kind` is an operator of an assignment.
fn is_assignment_operator(kind: TokenKind) -> (b: bool)
    ensures
        b == grammar::is_assignment_operator(kind),
{
    kind == TokenKind::Equal || kind == TokenKind::PlusEqual || kind == TokenKind::MinusEqual
        || kind == TokenKind::StarEqual || kind == TokenKind::SlashEqual
}

/// The node that joins two operands with the operator `kind` of `level`.
fn join(level: Precedence, kind: TokenKind, left: AstNode, right: AstNode) -> (node: AstNode)
    ensures
        node@ == level.join(kind.spelling(), left@, right@),
{
    let operator = String::from_str(kind.spelling_str());
    match level {
        Precedence::Or | Precedence::And => AstNode::LogicalExpression {
            operator,
            left: Box::new(left),
            right: Box::new(right),
        },
        _ => AstNode::BinaryExpression { operator, left: Box::new(left), right: Box::new(right) },
    }
}

} // verus!
