use script_syntax::ast::AstNode;
use script_syntax::error::{LexError, ParseError};
use script_syntax::front::{parse_source, SyntaxError};
use script_syntax::lexer::tokenize;
use script_syntax::parser::Parser;
use script_syntax::token::{Token, TokenKind};

/// The number literal with the given numeral, which must have the given
/// value.
fn number(numeral: &str, value: f64) -> AstNode {
    assert_eq!(numeral.parse::<f64>(), Ok(value));
    AstNode::NumberLiteral(numeral.to_string())
}

fn name(text: &str) -> AstNode {
    AstNode::Identifier(text.to_string())
}

fn binary(operator: &str, left: AstNode, right: AstNode) -> AstNode {
    AstNode::BinaryExpression {
        operator: operator.to_string(),
        left: Box::new(left),
        right: Box::new(right),
    }
}

fn logical(operator: &str, left: AstNode, right: AstNode) -> AstNode {
    AstNode::LogicalExpression {
        operator: operator.to_string(),
        left: Box::new(left),
        right: Box::new(right),
    }
}

fn assign(operator: &str, left: AstNode, right: AstNode) -> AstNode {
    AstNode::AssignmentExpression {
        operator: operator.to_string(),
        left: Box::new(left),
        right: Box::new(right),
    }
}

fn unary(operator: &str, operand: AstNode) -> AstNode {
    AstNode::UnaryExpression { operator: operator.to_string(), operand: Box::new(operand) }
}

fn call(callee: AstNode, arguments: Vec<AstNode>) -> AstNode {
    AstNode::CallExpression { callee: Box::new(callee), arguments }
}

fn program(body: Vec<AstNode>) -> AstNode {
    AstNode::Program { body }
}

fn parser_for(source: &str) -> Parser {
    Parser::new(tokenize(source).expect("the source has no lexical error"))
}

fn parse_expression(source: &str) -> Result<AstNode, ParseError> {
    parser_for(source).parse_expression()
}

fn parse(source: &str) -> Result<AstNode, ParseError> {
    parser_for(source).parse()
}

fn expected(message: &str, found: Token, position: usize) -> ParseError {
    ParseError::UnexpectedToken { expected: message.to_string(), found, position }
}

fn ended(message: &str) -> ParseError {
    ParseError::UnexpectedEndOfInput { expected: message.to_string() }
}

#[test]
fn test_parsing_simple_math_expression() {
    let input = "2 + 2";
    let expected_output = AstNode::BinaryExpression {
        operator: "+".to_string(),
        left: Box::new(number("2", 2.0)),
        right: Box::new(number("2", 2.0)),
    };
    let tokens = tokenize(input).unwrap();
    let ast = Parser::new(tokens).parse_expression();
    assert_eq!(ast, Ok(expected_output));
}

#[test]
fn test_parsing_function_call() {
    let input = "add(2, 3)";
    let expected_output = AstNode::CallExpression {
        callee: Box::new(AstNode::Identifier("add".to_string())),
        arguments: vec![number("2", 2.0), number("3", 3.0)],
    };
    let tokens = tokenize(input).unwrap();
    let ast = Parser::new(tokens).parse_expression();
    assert_eq!(ast, Ok(expected_output));
}

// A variable is declared with `var`; `let` is an identifier like any other,
// so that `let x = 5;` is no declaration.
#[test]
fn test_parsing_variable_assignment() {
    let expected_output = AstNode::VariableDeclaration {
        id: Box::new(AstNode::Identifier("x".to_string())),
        init: Some(Box::new(number("5", 5.0))),
    };
    let tokens = tokenize("var x = 5;").unwrap();
    let ast = Parser::new(tokens).declaration();
    assert_eq!(ast, Ok(expected_output));

    let input = "let x = 5;";
    let tokens = tokenize(input).unwrap();
    let ast = Parser::new(tokens).declaration();
    assert_eq!(
        ast,
        Err(expected("Expect ';' after expression.", Token::Identifier("x".to_string()), 1))
    );
}

#[test]
fn multiplication_binds_tighter_than_addition() {
    assert_eq!(
        parse_expression("2 + 3 * 4"),
        Ok(binary("+", number("2", 2.0), binary("*", number("3", 3.0), number("4", 4.0))))
    );
    assert_eq!(
        parse_expression("2 * 3 + 4"),
        Ok(binary("+", binary("*", number("2", 2.0), number("3", 3.0)), number("4", 4.0)))
    );
}

#[test]
fn assignment_associates_to_the_right() {
    assert_eq!(
        parse_expression("a = b = 3"),
        Ok(assign("=", name("a"), assign("=", name("b"), number("3", 3.0))))
    );
}

#[test]
fn compound_assignments() {
    for operator in ["+=", "-=", "*=", "/="] {
        assert_eq!(
            parse_expression(&format!("a {} 1", operator)),
            Ok(assign(operator, name("a"), number("1", 1.0)))
        );
    }
}

#[test]
fn calls_chain() {
    assert_eq!(
        parse_expression("f(1)(2)"),
        Ok(call(call(name("f"), vec![number("1", 1.0)]), vec![number("2", 2.0)]))
    );
    assert_eq!(parse_expression("f()"), Ok(call(name("f"), vec![])));
    assert_eq!(
        parse_expression("f(a, g(b), 3)"),
        Ok(call(name("f"), vec![name("a"), call(name("g"), vec![name("b")]), number("3", 3.0)]))
    );
}

#[test]
fn binary_operators_associate_to_the_left() {
    assert_eq!(
        parse_expression("1 - 2 - 3"),
        Ok(binary("-", binary("-", number("1", 1.0), number("2", 2.0)), number("3", 3.0)))
    );
    assert_eq!(
        parse_expression("8 / 4 / 2"),
        Ok(binary("/", binary("/", number("8", 8.0), number("4", 4.0)), number("2", 2.0)))
    );
}

#[test]
fn every_level_of_precedence() {
    // a || b && c == d < e + f * !g
    assert_eq!(
        parse_expression("a || b && c == d < e + f * !g"),
        Ok(logical(
            "||",
            name("a"),
            logical(
                "&&",
                name("b"),
                binary(
                    "==",
                    name("c"),
                    binary(
                        "<",
                        name("d"),
                        binary("+", name("e"), binary("*", name("f"), unary("!", name("g")))),
                    ),
                ),
            ),
        ))
    );
    assert_eq!(parse_expression("a != b"), Ok(binary("!=", name("a"), name("b"))));
    assert_eq!(parse_expression("a > b"), Ok(binary(">", name("a"), name("b"))));
    assert_eq!(parse_expression("a <= b"), Ok(binary("<=", name("a"), name("b"))));
    assert_eq!(parse_expression("a >= b"), Ok(binary(">=", name("a"), name("b"))));
}

#[test]
fn logical_operators_make_logical_nodes() {
    assert_eq!(
        parse_expression("a && b || c"),
        Ok(logical("||", logical("&&", name("a"), name("b")), name("c")))
    );
}

#[test]
fn parentheses_leave_no_node() {
    assert_eq!(
        parse_expression("(2 + 3) * 4"),
        Ok(binary("*", binary("+", number("2", 2.0), number("3", 3.0)), number("4", 4.0)))
    );
    assert_eq!(parse_expression("((x))"), Ok(name("x")));
}

#[test]
fn unary_operators_nest() {
    assert_eq!(parse_expression("-x"), Ok(unary("-", name("x"))));
    assert_eq!(parse_expression("!-!x"), Ok(unary("!", unary("-", unary("!", name("x"))))));
    assert_eq!(
        parse_expression("-f(1)"),
        Ok(unary("-", call(name("f"), vec![number("1", 1.0)])))
    );
    assert_eq!(parse_expression("a - -b"), Ok(binary("-", name("a"), unary("-", name("b")))));
}

#[test]
fn literals_have_their_own_nodes() {
    assert_eq!(parse_expression("true"), Ok(AstNode::BooleanLiteral(true)));
    assert_eq!(parse_expression("false"), Ok(AstNode::BooleanLiteral(false)));
    assert_eq!(parse_expression("null"), Ok(AstNode::NullLiteral));
    assert_eq!(parse_expression("this"), Ok(AstNode::ThisExpression));
    assert_eq!(parse_expression("'s'"), Ok(AstNode::StringLiteral("s".to_string())));
    assert_eq!(parse_expression("1.50"), Ok(number("1.50", 1.5)));
}

#[test]
fn ternary_expressions() {
    assert_eq!(
        parse_expression("a ? b : c"),
        Ok(AstNode::TernaryExpression {
            condition: Box::new(name("a")),
            then_branch: Box::new(name("b")),
            else_branch: Box::new(name("c")),
        })
    );
    assert_eq!(
        parse_expression("a ? b : c ? d : e"),
        Ok(AstNode::TernaryExpression {
            condition: Box::new(name("a")),
            then_branch: Box::new(name("b")),
            else_branch: Box::new(AstNode::TernaryExpression {
                condition: Box::new(name("c")),
                then_branch: Box::new(name("d")),
                else_branch: Box::new(name("e")),
            }),
        })
    );
    assert_eq!(
        parse_expression("a || b ? x = 1 : y"),
        Ok(AstNode::TernaryExpression {
            condition: Box::new(logical("||", name("a"), name("b"))),
            then_branch: Box::new(assign("=", name("x"), number("1", 1.0))),
            else_branch: Box::new(name("y")),
        })
    );
    assert_eq!(
        parse_expression("a ? b"),
        Err(ended("Expect ':' after '?' in ternary operator."))
    );
}

#[test]
fn expression_stops_where_it_ends() {
    let mut parser = parser_for("a + b c");
    assert_eq!(parser.parse_expression(), Ok(binary("+", name("a"), name("b"))));
    assert_eq!(parser.peek(), Some(&Token::Identifier("c".to_string())));
}

#[test]
fn empty_program() {
    assert_eq!(parse(""), Ok(program(vec![])));
    assert_eq!(parse("// nothing\n"), Ok(program(vec![])));
}

#[test]
fn program_of_statements() {
    assert_eq!(
        parse("var x = 10; var y; x = y + 1;"),
        Ok(program(vec![
            AstNode::VariableDeclaration {
                id: Box::new(name("x")),
                init: Some(Box::new(number("10", 10.0))),
            },
            AstNode::VariableDeclaration { id: Box::new(name("y")), init: None },
            assign("=", name("x"), binary("+", name("y"), number("1", 1.0))),
        ]))
    );
}

#[test]
fn function_declaration() {
    assert_eq!(
        parse("function add(a, b) { return a + b; }"),
        Ok(program(vec![AstNode::FunctionDeclaration {
            id: Box::new(name("add")),
            params: vec![name("a"), name("b")],
            body: Box::new(AstNode::BlockStatement {
                body: vec![AstNode::ReturnStatement {
                    value: Some(Box::new(binary("+", name("a"), name("b")))),
                }],
            }),
        }]))
    );
    assert_eq!(
        parse("function f() {}"),
        Ok(program(vec![AstNode::FunctionDeclaration {
            id: Box::new(name("f")),
            params: vec![],
            body: Box::new(AstNode::BlockStatement { body: vec![] }),
        }]))
    );
}

#[test]
fn function_declaration_errors() {
    assert_eq!(parse("function (a) {}"), Err(expected("Expect function name.", Token::LeftParen, 1)));
    assert_eq!(
        parse("function f a) {}"),
        Err(expected("Expect '(' after function name.", Token::Identifier("a".to_string()), 2))
    );
    assert_eq!(
        parse("function f(1) {}"),
        Err(expected("Expect parameter name.", Token::Number("1".to_string()), 3))
    );
    assert_eq!(
        parse("function f(a,) {}"),
        Err(expected("Expect parameter name.", Token::RightParen, 5))
    );
    assert_eq!(
        parse("function f(a b) {}"),
        Err(expected("Expect ')' after parameters.", Token::Identifier("b".to_string()), 4))
    );
    assert_eq!(
        parse("function f(a) return a;"),
        Err(expected("Expect '{' before function body.", Token::Return, 5))
    );
    assert_eq!(parse("function f(a) { return a;"), Err(ended("Expect '}' after block.")));
    assert_eq!(parse("function"), Err(ended("Expect function name.")));
}

#[test]
fn function_messages_name_the_kind() {
    let mut parser = parser_for("(a) {}");
    assert_eq!(parser.function("method"), Err(expected("Expect method name.", Token::LeftParen, 0)));
    let mut parser = parser_for("m a");
    assert_eq!(
        parser.function("method"),
        Err(expected("Expect '(' after method name.", Token::Identifier("a".to_string()), 1))
    );
    let mut parser = parser_for("m() 1");
    assert_eq!(
        parser.function("method"),
        Err(expected("Expect '{' before method body.", Token::Number("1".to_string()), 3))
    );
}

#[test]
fn blocks_nest() {
    assert_eq!(
        parse("{ var a; { a; } }"),
        Ok(program(vec![AstNode::BlockStatement {
            body: vec![
                AstNode::VariableDeclaration { id: Box::new(name("a")), init: None },
                AstNode::BlockStatement { body: vec![name("a")] },
            ],
        }]))
    );
    assert_eq!(parse("{"), Err(ended("Expect '}' after block.")));
    assert_eq!(parse("}"), Err(expected("Expect expression.", Token::RightBrace, 0)));
}

#[test]
fn if_statements() {
    assert_eq!(
        parse("if (a) b; else c;"),
        Ok(program(vec![AstNode::IfStatement {
            condition: Box::new(name("a")),
            then_branch: Box::new(name("b")),
            else_branch: Some(Box::new(name("c"))),
        }]))
    );
    assert_eq!(
        parse("if (a) { b; }"),
        Ok(program(vec![AstNode::IfStatement {
            condition: Box::new(name("a")),
            then_branch: Box::new(AstNode::BlockStatement { body: vec![name("b")] }),
            else_branch: None,
        }]))
    );
    assert_eq!(parse("if a) b;"), Err(expected("Expect '(' after 'if'.", Token::Identifier("a".to_string()), 1)));
    assert_eq!(parse("if (a b;"), Err(expected("Expect ')' after if condition.", Token::Identifier("b".to_string()), 3)));
}

#[test]
fn else_belongs_to_the_nearest_if() {
    assert_eq!(
        parse("if (a) if (b) c; else d;"),
        Ok(program(vec![AstNode::IfStatement {
            condition: Box::new(name("a")),
            then_branch: Box::new(AstNode::IfStatement {
                condition: Box::new(name("b")),
                then_branch: Box::new(name("c")),
                else_branch: Some(Box::new(name("d"))),
            }),
            else_branch: None,
        }]))
    );
}

#[test]
fn the_branch_of_an_if_is_a_statement() {
    assert_eq!(parse("if (a) var b;"), Err(expected("Expect expression.", Token::Var, 4)));
}

#[test]
fn while_statements() {
    assert_eq!(
        parse("while (i < 10) i = i + 1;"),
        Ok(program(vec![AstNode::WhileStatement {
            condition: Box::new(binary("<", name("i"), number("10", 10.0))),
            body: Box::new(assign("=", name("i"), binary("+", name("i"), number("1", 1.0)))),
        }]))
    );
    assert_eq!(parse("while i"), Err(expected("Expect '(' after 'while'.", Token::Identifier("i".to_string()), 1)));
    assert_eq!(parse("while (i"), Err(ended("Expect ')' after while condition.")));
}

#[test]
fn return_statements() {
    assert_eq!(parse("return;"), Ok(program(vec![AstNode::ReturnStatement { value: None }])));
    assert_eq!(
        parse("return 1;"),
        Ok(program(vec![AstNode::ReturnStatement { value: Some(Box::new(number("1", 1.0))) }]))
    );
    assert_eq!(parse("return 1"), Err(ended("Expect ';' after return value.")));
    assert_eq!(parse("return }"), Err(expected("Expect expression.", Token::RightBrace, 1)));
}

#[test]
fn missing_expression_at_the_end() {
    assert_eq!(parse("var x = "), Err(ended("Expect expression.")));
}

#[test]
fn variable_declaration_errors() {
    assert_eq!(parse("var = 1;"), Err(expected("Expect variable name.", Token::Equal, 1)));
    assert_eq!(parse("var"), Err(ended("Expect variable name.")));
    assert_eq!(parse("var x 1;"), Err(expected("Expect ';' after variable declaration.", Token::Number("1".to_string()), 2)));
    assert_eq!(parse("var x = 1"), Err(ended("Expect ';' after variable declaration.")));
}

#[test]
fn expression_errors() {
    assert_eq!(parse("2 + 2"), Err(ended("Expect ';' after expression.")));
    assert_eq!(parse("(1 + 2;"), Err(expected("Expect ')' after expression.", Token::Semicolon, 4)));
    assert_eq!(parse("f(1;"), Err(expected("Expect ')' after arguments.", Token::Semicolon, 3)));
    assert_eq!(parse("f(1,);"), Err(expected("Expect expression.", Token::RightParen, 4)));
    assert_eq!(parse("f(,1);"), Err(expected("Expect expression.", Token::Comma, 2)));
    assert_eq!(parse("1 + ;"), Err(expected("Expect expression.", Token::Semicolon, 2)));
    assert_eq!(parse("1 +"), Err(ended("Expect expression.")));
    assert_eq!(parse("a = ;"), Err(expected("Expect expression.", Token::Semicolon, 2)));
    assert_eq!(parse("!"), Err(ended("Expect expression.")));
    assert_eq!(parse("a.b;"), Err(expected("Expect ';' after expression.", Token::Dot, 1)));
}

#[test]
fn reserved_tokens_are_rejected() {
    let tokens = vec![Token::Identifier("a".to_string()), Token::PlusPlus, Token::Semicolon];
    assert_eq!(
        Parser::new(tokens).parse(),
        Err(expected("Expect ';' after expression.", Token::PlusPlus, 1))
    );
    assert_eq!(
        Parser::new(vec![Token::Class]).parse(),
        Err(expected("Expect expression.", Token::Class, 0))
    );
}

#[test]
fn end_marker_ends_the_tokens() {
    let tokens = vec![
        Token::Identifier("a".to_string()),
        Token::Semicolon,
        Token::EOF,
        Token::Identifier("b".to_string()),
    ];
    let mut parser = Parser::new(tokens);
    assert_eq!(parser.parse(), Ok(program(vec![name("a")])));
    assert!(parser.is_at_end());
    assert_eq!(parser.peek(), Some(&Token::EOF));

    let tokens = vec![Token::Identifier("a".to_string()), Token::EOF, Token::Semicolon];
    assert_eq!(Parser::new(tokens).parse(), Err(ended("Expect ';' after expression.")));
}

#[test]
fn failure_leaves_the_parser_in_place() {
    let mut parser = parser_for("a; (b + ; c;");
    assert_eq!(parser.declaration(), Ok(name("a")));
    assert_eq!(parser.declaration(), Err(expected("Expect expression.", Token::Semicolon, 5)));
    assert_eq!(parser.peek(), Some(&Token::LeftParen));
    assert_eq!(parser.parse(), Err(expected("Expect expression.", Token::Semicolon, 5)));
    assert_eq!(parser.peek(), Some(&Token::LeftParen));
}

#[test]
fn parser_cursor_primitives() {
    let mut parser = parser_for("var x");
    assert_eq!(parser.peek_kind(), TokenKind::Var);
    assert!(parser.check(TokenKind::Var));
    assert!(!parser.check(TokenKind::Identifier));
    assert!(!parser.is_at_end());
    assert!(!parser.match_token(TokenKind::If));
    assert_eq!(parser.peek(), Some(&Token::Var));
    assert!(parser.match_token(TokenKind::Var));
    assert_eq!(
        parser.consume(TokenKind::Semicolon, "Expect ';'."),
        Err(expected("Expect ';'.", Token::Identifier("x".to_string()), 1))
    );
    assert_eq!(
        parser.unexpected("Expect more."),
        expected("Expect more.", Token::Identifier("x".to_string()), 1)
    );
    assert_eq!(
        parser.consume(TokenKind::Identifier, "Expect name."),
        Ok(Token::Identifier("x".to_string()))
    );
    assert!(parser.is_at_end());
    assert_eq!(parser.peek(), None);
    assert_eq!(parser.peek_kind(), TokenKind::EOF);
    parser.advance();
    assert!(parser.is_at_end());
    assert!(parser.check(TokenKind::EOF));
    assert!(parser.match_token(TokenKind::EOF));
    assert_eq!(parser.consume(TokenKind::EOF, "Expect end."), Ok(Token::EOF));
    assert_eq!(parser.consume(TokenKind::Semicolon, "Expect ';'."), Err(ended("Expect ';'.")));
    assert_eq!(parser.unexpected("Expect more."), ended("Expect more."));
}

#[test]
fn advance_moves_over_one_token() {
    let mut parser = parser_for("a b");
    parser.advance();
    assert_eq!(parser.peek(), Some(&Token::Identifier("b".to_string())));
    parser.advance();
    assert_eq!(parser.peek(), None);
}

#[test]
fn literal_rules() {
    assert_eq!(parser_for("12").parse_number(), Ok(number("12", 12.0)));
    assert_eq!(parser_for("x").parse_number(), Err(expected("Expect number.", Token::Identifier("x".to_string()), 0)));
    assert_eq!(parser_for("'a'").parse_string(), Ok(AstNode::StringLiteral("a".to_string())));
    assert_eq!(parser_for("").parse_string(), Err(ended("Expect string.")));
    assert_eq!(parser_for("x").parse_identifier(), Ok(name("x")));
    assert_eq!(parser_for("1").parse_identifier(), Err(expected("Expect identifier.", Token::Number("1".to_string()), 0)));
}

#[test]
fn rules_by_name() {
    assert_eq!(parser_for("a").parse_primary(), Ok(name("a")));
    assert_eq!(parser_for("a(b)").parse_call_expression(), Ok(call(name("a"), vec![name("b")])));
    assert_eq!(parser_for("-a").parse_unary(), Ok(unary("-", name("a"))));
    assert_eq!(parser_for("a * b").parse_multiplicative(), Ok(binary("*", name("a"), name("b"))));
    assert_eq!(parser_for("a + b").parse_multiplicative(), Ok(name("a")));
    assert_eq!(parser_for("a - b").parse_additive(), Ok(binary("-", name("a"), name("b"))));
    assert_eq!(parser_for("a < b").parse_comparison(), Ok(binary("<", name("a"), name("b"))));
    assert_eq!(parser_for("a == b").parse_equality(), Ok(binary("==", name("a"), name("b"))));
    assert_eq!(parser_for("a && b").parse_and(), Ok(logical("&&", name("a"), name("b"))));
    assert_eq!(parser_for("a || b").parse_and(), Ok(name("a")));
    assert_eq!(parser_for("a || b").parse_or(), Ok(logical("||", name("a"), name("b"))));
    assert_eq!(parser_for("a ? b : c = d").parse_ternary(), Ok(AstNode::TernaryExpression {
        condition: Box::new(name("a")),
        then_branch: Box::new(name("b")),
        else_branch: Box::new(assign("=", name("c"), name("d"))),
    }));
    assert_eq!(parser_for("a = b").parse_assignment(), Ok(assign("=", name("a"), name("b"))));
    assert_eq!(parser_for("a;").expression_statement(), Ok(name("a")));
    assert_eq!(parser_for("a;").statement(), Ok(name("a")));
    assert_eq!(parser_for("a; }").block(), Ok(AstNode::BlockStatement { body: vec![name("a")] }));
    assert_eq!(parser_for(";").return_statement(), Ok(AstNode::ReturnStatement { value: None }));
    assert_eq!(
        parser_for("x;").var_declaration(),
        Ok(AstNode::VariableDeclaration { id: Box::new(name("x")), init: None })
    );
    assert_eq!(
        parser_for("(a) b;").while_statement(),
        Ok(AstNode::WhileStatement { condition: Box::new(name("a")), body: Box::new(name("b")) })
    );
    assert_eq!(
        parser_for("(a) b;").if_statement(),
        Ok(AstNode::IfStatement {
            condition: Box::new(name("a")),
            then_branch: Box::new(name("b")),
            else_branch: None,
        })
    );
}

#[test]
fn source_to_program() {
    assert_eq!(
        parse_source("f(1)(2);"),
        Ok(program(vec![call(call(name("f"), vec![number("1", 1.0)]), vec![number("2", 2.0)])]))
    );
    assert_eq!(
        parse_source("var x = "),
        Err(SyntaxError::Parse(ended("Expect expression.")))
    );
    assert_eq!(
        parse_source("\"unterminated"),
        Err(SyntaxError::Lex(LexError::UnterminatedString(0)))
    );
    assert_eq!(
        parse_source("var = 'a"),
        Err(SyntaxError::Lex(LexError::UnterminatedString(6)))
    );
}

#[test]
fn recovery_collects_every_error() {
    let mut parser = parser_for("var x = ; var y = 2; 1 + ; z;");
    let (tree, errors) = parser.parse_with_recovery();
    assert_eq!(
        tree,
        program(vec![
            AstNode::VariableDeclaration {
                id: Box::new(name("y")),
                init: Some(Box::new(number("2", 2.0))),
            },
            name("z"),
        ])
    );
    assert_eq!(
        errors,
        vec![
            expected("Expect expression.", Token::Semicolon, 3),
            expected("Expect expression.", Token::Semicolon, 11),
        ]
    );
    assert!(parser.is_at_end());
}

#[test]
fn recovery_resumes_at_a_keyword() {
    let mut parser = parser_for("a b c if (x) y;");
    let (tree, errors) = parser.parse_with_recovery();
    assert_eq!(
        tree,
        program(vec![AstNode::IfStatement {
            condition: Box::new(name("x")),
            then_branch: Box::new(name("y")),
            else_branch: None,
        }])
    );
    assert_eq!(
        errors,
        vec![expected("Expect ';' after expression.", Token::Identifier("b".to_string()), 1)]
    );
}

#[test]
fn recovery_stops_where_the_tokens_end() {
    let mut parser = parser_for("a; b +");
    let (tree, errors) = parser.parse_with_recovery();
    assert_eq!(tree, program(vec![name("a")]));
    assert_eq!(errors, vec![ended("Expect expression.")]);
    assert_eq!(parser.peek(), Some(&Token::Identifier("b".to_string())));
}

#[test]
fn recovery_without_errors_is_parsing() {
    let source = "function f(a) { return a * 2; } f(1);";
    let (tree, errors) = parser_for(source).parse_with_recovery();
    assert_eq!(Ok(tree), parse(source));
    assert_eq!(errors, vec![]);
    let (tree, errors) = parser_for("").parse_with_recovery();
    assert_eq!(tree, program(vec![]));
    assert_eq!(errors, vec![]);
}

#[test]
fn recovery_reports_what_parsing_reports_first() {
    for source in ["var x = ; y;", "a b", "if (a", "{ a; ", ")", "f(1,;"] {
        let (_, errors) = parser_for(source).parse_with_recovery();
        assert_eq!(Err(&errors[0]), parse(source).as_ref());
    }
}

#[test]
fn synchronize_finds_the_next_boundary() {
    let mut parser = parser_for("a + b ; c d while");
    parser.synchronize();
    assert_eq!(parser.peek(), Some(&Token::Identifier("c".to_string())));
    parser.synchronize();
    assert_eq!(parser.peek(), Some(&Token::Identifier("c".to_string())));
    parser.advance();
    parser.synchronize();
    assert_eq!(parser.peek(), Some(&Token::While));
    parser.synchronize();
    assert_eq!(parser.peek(), Some(&Token::While));
    parser.advance();
    parser.synchronize();
    assert_eq!(parser.peek(), None);
    parser.synchronize();
    assert_eq!(parser.peek(), None);
}
