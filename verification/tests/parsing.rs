use rlox::expr::Expr;
use rlox::parser::{desugar, Error, Parser};
use rlox::scanner::{Diagnostic, Literal, Scanner, Token, TokenType};
use rlox::stmt::{Block, Expression, Stmt, While};

fn tokens_of(source: &str) -> Vec<Token> {
    let mut scanner = Scanner::new(source.as_bytes().to_vec(), 1);
    scanner.scan_tokens();
    assert!(scanner.diagnostics.is_empty());
    scanner.list
}

fn parse_source(source: &str) -> (Result<Vec<Stmt>, Error>, Vec<Diagnostic>) {
    let mut parser = Parser::new(tokens_of(source));
    let parsed = parser.parse();
    (parsed, parser.diagnostics)
}

fn statements(source: &str) -> Vec<Stmt> {
    let (parsed, complaints) = parse_source(source);
    assert!(complaints.is_empty(), "{:?}", complaints);
    parsed.unwrap()
}

fn shape(source: &str) -> String {
    let parsed = statements(source);
    assert_eq!(parsed.len(), 1);
    match &parsed[0] {
        Stmt::Expression(statement) => statement.expression.print(),
        other => panic!("{:?}", other),
    }
}

#[test]
fn factors_bind_tighter_than_terms() {
    assert_eq!(shape("1 + 2 * 3;"), "(+ 1 (* 2 3))");
    assert_eq!(shape("1 * 2 + 3;"), "(+ (* 1 2) 3)");
    assert_eq!(shape("1 - 2 / 3 - 4;"), "(- (- 1 (/ 2 3)) 4)");
}

#[test]
fn binary_operators_lean_left() {
    assert_eq!(shape("1 - 2 - 3;"), "(- (- 1 2) 3)");
    assert_eq!(shape("8 / 4 / 2 * 3;"), "(* (/ (/ 8 4) 2) 3)");
    assert_eq!(shape("1 < 2 <= 3 > 4 >= 5;"), "(>= (> (<= (< 1 2) 3) 4) 5)");
    assert_eq!(shape("1 == 2 != 3;"), "(!= (== 1 2) 3)");
    assert_eq!(shape("a or b or c;"), "(or (or a b) c)");
    assert_eq!(shape("a and b and c;"), "(and (and a b) c)");
}

#[test]
fn the_levels_nest_in_order() {
    assert_eq!(
        shape("a = b or c and d == e < f + g * -h;"),
        "(= a (or b (and c (== d (< e (+ f (* g (- h))))))))"
    );
}

#[test]
fn assignment_leans_right() {
    assert_eq!(shape("a = b = 3;"), "(= a (= b 3))");
}

#[test]
fn unary_operators_nest() {
    assert_eq!(shape("!-x;"), "(! (- x))");
    assert_eq!(shape("--1;"), "(- (- 1))");
    assert_eq!(shape("-f(1);"), "(- (call f 1))");
}

#[test]
fn groupings_and_literals_are_kept() {
    assert_eq!(shape("(1 + 2) * 3;"), "(* (group (+ 1 2)) 3)");
    assert_eq!(shape("true == !false;"), "(== true (! false))");
    assert_eq!(shape("nil;"), "nil");
    assert_eq!(shape("\"text\";"), "text");
    let parsed = statements("true; false; nil;");
    assert_eq!(
        parsed,
        vec![
            Stmt::Expression(Expression { expression: Expr::Literal(Literal::Bool(true)) }),
            Stmt::Expression(Expression { expression: Expr::Literal(Literal::Bool(false)) }),
            Stmt::Expression(Expression { expression: Expr::Literal(Literal::Nil) }),
        ]
    );
}

#[test]
fn calls_chain_and_take_arguments_in_order() {
    assert_eq!(shape("f();"), "(call f)");
    assert_eq!(shape("f(1, 2 + 3, g(4));"), "(call f 1 (+ 2 3) (call g 4))");
    assert_eq!(shape("f(1)(2);"), "(call (call f 1) 2)");
}

#[test]
fn a_for_statement_becomes_a_while_loop_in_a_block() {
    let parsed = statements("for (var i = 0; i < 3; i = i + 1) print i;");
    let written = statements("{ var i = 0; while (i < 3) { print i; i = i + 1; } }");
    assert_eq!(parsed.len(), 1);
    match (&parsed[0], &written[0]) {
        (Stmt::Block(outer), Stmt::Block(expected)) => {
            assert_eq!(outer.statements.len(), 2);
            assert!(matches!(outer.statements[0], Stmt::Var(_)));
            match (&outer.statements[1], &expected.statements[1]) {
                (Stmt::While(looped), Stmt::While(expected)) => {
                    assert_eq!(looped.condition.print(), "(< i 3)");
                    assert_eq!(looped.condition.print(), expected.condition.print());
                    match &looped.body {
                        Stmt::Block(body) => {
                            assert_eq!(body.statements.len(), 2);
                            assert!(matches!(body.statements[0], Stmt::Print(_)));
                            match &body.statements[1] {
                                Stmt::Expression(step) => {
                                    assert_eq!(step.expression.print(), "(= i (+ i 1))")
                                }
                                other => panic!("{:?}", other),
                            }
                        }
                        other => panic!("{:?}", other),
                    }
                }
                other => panic!("{:?}", other),
            }
        }
        other => panic!("{:?}", other),
    }
}

#[test]
fn a_for_statement_without_clauses_is_a_bare_loop_on_true() {
    let parsed = statements("for (;;) print 1;");
    match &parsed[0] {
        Stmt::While(looped) => {
            assert_eq!(looped.condition, Expr::Literal(Literal::Bool(true)));
            assert!(matches!(looped.body, Stmt::Print(_)));
        }
        other => panic!("{:?}", other),
    }
    let parsed = statements("for (x = 1;;) print 1;");
    match &parsed[0] {
        Stmt::Block(outer) => {
            assert!(matches!(outer.statements[0], Stmt::Expression(_)));
            assert!(matches!(outer.statements[1], Stmt::While(_)));
        }
        other => panic!("{:?}", other),
    }
}

#[test]
fn desugaring_wraps_only_what_is_there() {
    let body = || Stmt::Expression(Expression { expression: Expr::Literal(Literal::Nil) });
    let step = || Expr::Literal(Literal::Bool(false));
    assert_eq!(
        desugar(None, None, None, body()),
        Stmt::While(Box::new(While {
            condition: Expr::Literal(Literal::Bool(true)),
            body: body(),
        }))
    );
    assert_eq!(
        desugar(Some(body()), Some(step()), Some(step()), body()),
        Stmt::Block(Block {
            statements: vec![
                body(),
                Stmt::While(Box::new(While {
                    condition: step(),
                    body: Stmt::Block(Block {
                        statements: vec![body(), Stmt::Expression(Expression { expression: step() })],
                    }),
                })),
            ],
        })
    );
}

#[test]
fn if_takes_the_nearest_else() {
    let parsed = statements("if (a) if (b) print 1; else print 2;");
    match &parsed[0] {
        Stmt::If(outer) => {
            assert!(outer.else_branch.is_none());
            match &*outer.then_branch {
                Stmt::If(inner) => assert!(inner.else_branch.is_some()),
                other => panic!("{:?}", other),
            }
        }
        other => panic!("{:?}", other),
    }
}

#[test]
fn blocks_nest() {
    let parsed = statements("{ var a; { print a; } } {}");
    assert_eq!(parsed.len(), 2);
    match &parsed[0] {
        Stmt::Block(outer) => {
            assert_eq!(outer.statements.len(), 2);
            assert!(matches!(outer.statements[1], Stmt::Block(_)));
        }
        other => panic!("{:?}", other),
    }
    assert_eq!(parsed[1], Stmt::Block(Block { statements: vec![] }));
}

#[test]
fn no_tokens_are_an_empty_program() {
    let mut parser = Parser::new(Vec::new());
    assert_eq!(parser.parse(), Ok(vec![]));
    assert!(parser.diagnostics.is_empty());
    assert_eq!(statements(""), vec![]);
}

#[test]
fn a_stream_without_end_marker_is_parsed_too() {
    let mut tokens = tokens_of("print 1;\nprint 2");
    tokens.pop();
    let mut parser = Parser::new(tokens);
    let recovered = parser.parse().unwrap();
    assert_eq!(recovered.len(), 1);
    assert!(matches!(recovered[0], Stmt::Print(_)));
    assert_eq!(
        parser.diagnostics,
        vec![Diagnostic {
            line: 2,
            location: String::from(" at end"),
            message: String::from("Expect ';' after value."),
        }]
    );
    assert_eq!(parser.current, 5);
}

#[test]
fn every_missing_piece_has_its_message() {
    let message = |source: &str| {
        let (parsed, complaints) = parse_source(source);
        assert!(parsed.is_ok());
        assert_eq!(complaints.len(), 1, "{:?}", complaints);
        complaints[0].message.clone()
    };
    assert_eq!(message("print;"), "Expect expression.");
    assert_eq!(message("(1;"), "Expect ')' after expression.");
    assert_eq!(message("f(1;"), "Expect ')' after arguments.");
    assert_eq!(message("1"), "Expect ';' after value.");
    assert_eq!(message("var 1;"), "Expect variable name.");
    assert_eq!(message("var a = 1"), "Expect ';' after variable declaration.");
    assert_eq!(message("var a 1;"), "Expect ';' after variable declaration.");
    assert_eq!(message("while 1) print 1;"), "Expect '(' after 'while'.");
    assert_eq!(message("while (1 print 1;"), "Expect ')' after condition.");
    assert_eq!(message("if 1) print 1;"), "Expect '(' after 'if'.");
    assert_eq!(message("if (1 print 1;"), "Expect ')' after if condition.");
    assert_eq!(message("for x"), "Expect '(' after 'for'.");
    assert_eq!(message("for (;1 print 1;"), "Expect ';' after loop condition.");
    assert_eq!(message("for (;;1 print 1;"), "Expect ')' after for clauses.");
    assert_eq!(message("fun (a) {}"), "Expect function name.");
    assert_eq!(message("fun f a) {}"), "Expect '(' after function name.");
    assert_eq!(message("fun f(1) {}"), "Expect parameter name.");
    assert_eq!(message("fun f(a {}"), "Expect ')' after parameters.");
    assert_eq!(message("fun f(a) print 1;"), "Expect '{' before function body.");
    assert_eq!(message("a + b = 1;"), "Invalid Assignment target.");
}

#[test]
fn an_unclosed_block_is_reported_at_the_end() {
    let (parsed, complaints) = parse_source("{ print 1;");
    assert_eq!(parsed, Ok(vec![]));
    assert_eq!(complaints.len(), 1);
    assert_eq!(complaints[0].message, "Expect '}' after block.");
    assert_eq!(complaints[0].location, " at end");
}

#[test]
fn recovery_stops_behind_a_semicolon_or_before_a_statement() {
    let (_, complaints) = parse_source("print 1 2 3; print +; print 4;");
    assert_eq!(complaints.len(), 2);
    assert_eq!(complaints[0].location, " at ' 2 '");
    assert_eq!(complaints[1].location, " at ' + '");
    let (_, complaints) = parse_source("print 1 2 var = 3; print 4;");
    assert_eq!(complaints.len(), 2);
    assert_eq!(complaints[0].location, " at ' 2 '");
    assert_eq!(complaints[0].message, "Expect ';' after value.");
    assert_eq!(complaints[1].location, " at ' = '");
    assert_eq!(complaints[1].message, "Expect variable name.");
}

#[test]
fn recovery_consumes_the_token_of_the_error_whatever_it_is() {
    let (_, complaints) = parse_source("print ( var x = ; print 2;");
    assert_eq!(complaints.len(), 1);
    assert_eq!(complaints[0].location, " at ' var '");
    assert_eq!(complaints[0].message, "Expect expression.");
}

#[test]
fn an_error_inside_a_block_is_recovered_inside_it() {
    let (parsed, complaints) = parse_source("{ print 1 print 2; print 3; } print 4 +;");
    let recovered = parsed.unwrap();
    assert_eq!(recovered.len(), 1);
    match &recovered[0] {
        Stmt::Block(block) => assert_eq!(block.statements.len(), 1),
        other => panic!("{:?}", other),
    }
    assert_eq!(complaints.len(), 2);
    assert_eq!(complaints[0].message, "Expect ';' after value.");
    assert_eq!(complaints[1].message, "Expect expression.");
}

#[test]
fn more_than_255_arguments_are_reported_and_parsed() {
    let mut source = String::from("f(");
    for i in 0..256 {
        if i > 0 {
            source.push_str(", ");
        }
        source.push_str("1");
    }
    source.push_str(");");
    let (parsed, complaints) = parse_source(&source);
    assert_eq!(parsed.unwrap().len(), 1);
    assert_eq!(complaints.len(), 1);
    assert_eq!(complaints[0].message, "Can't have more than 255 arguments.");
    let mut fine = String::from("f(");
    for i in 0..255 {
        if i > 0 {
            fine.push_str(", ");
        }
        fine.push_str("1");
    }
    fine.push_str(");");
    let (parsed, complaints) = parse_source(&fine);
    assert!(complaints.is_empty());
    assert_eq!(parsed.unwrap().len(), 1);
}

#[test]
fn more_than_255_parameters_are_reported_and_parsed() {
    let mut source = String::from("fun f(");
    for i in 0..256 {
        if i > 0 {
            source.push_str(", ");
        }
        source.push_str("p");
    }
    source.push_str(") {}");
    let (parsed, complaints) = parse_source(&source);
    assert_eq!(parsed.unwrap().len(), 1);
    assert_eq!(complaints.len(), 1);
    assert_eq!(complaints[0].message, "Can't have more than 255 parameters.");
}

#[test]
fn a_number_token_without_payload_is_no_expression() {
    let tokens = vec![
        Token { lexeme: String::from("1"), line: 1, literal: None, ttype: TokenType::Number },
        Token { lexeme: String::from(";"), line: 1, literal: None, ttype: TokenType::Semicolon },
    ];
    let mut parser = Parser::new(tokens);
    assert_eq!(parser.parse(), Ok(vec![]));
    assert_eq!(parser.diagnostics.len(), 1);
    assert_eq!(parser.diagnostics[0].message, "Expect expression.");
}

#[test]
fn the_statements_around_a_malformed_one_are_recovered() {
    let mut parser =
        Parser::new(tokens_of("print 1; print 2 print 3; var x = 4; { print x +; print x; }"));
    let recovered = parser.parse().unwrap();
    assert_eq!(parser.diagnostics.len(), 2);
    assert_eq!(recovered.len(), 3);
    assert!(matches!(recovered[0], Stmt::Print(_)));
    assert!(matches!(recovered[1], Stmt::Var(_)));
    match &recovered[2] {
        Stmt::Block(block) => assert_eq!(block.statements.len(), 1),
        other => panic!("{:?}", other),
    }
    let mut parser = Parser::new(tokens_of("print 1; print 2;"));
    assert_eq!(parser.parse().unwrap().len(), 2);
    assert!(parser.diagnostics.is_empty());
}

#[test]
fn parsing_resumes_behind_the_semicolon_that_recovery_stops_at() {
    let tokens = tokens_of("print 1 print 2; print 3;");
    let three = tokens[6].literal.clone().unwrap();
    let mut parser = Parser::new(tokens);
    let parsed = parser.parse();
    assert_eq!(
        parsed,
        Ok(vec![Stmt::Print(rlox::stmt::Print { expression: Expr::Literal(three) })])
    );
    assert_eq!(parser.diagnostics.len(), 1);
    assert_eq!(parser.diagnostics[0].location, " at ' print '");
    assert_eq!(parser.current, 8);
    match &parsed.unwrap()[0] {
        Stmt::Print(statement) => assert_eq!(statement.expression.print(), "3"),
        other => panic!("{:?}", other),
    }
}

#[test]
fn the_statements_before_a_malformed_one_are_kept() {
    let (parsed, complaints) = parse_source("print 3; print 1");
    assert_eq!(complaints.len(), 1);
    assert_eq!(parsed.unwrap().len(), 1);
}

#[test]
fn trees_are_cloned_whole() {
    let parsed = statements(
        "fun f(a, b) { for (var i = 0; i < a; i = i + 1) { if (i == b or !i) print f(i, -1)(\"s\"); else { var x; } } } while (true) nil;",
    );
    let copies = parsed.clone();
    assert_eq!(copies, parsed);
    match (&parsed[0], &copies[0]) {
        (Stmt::Function(function), Stmt::Function(copy)) => {
            assert_eq!((**function).clone(), **copy);
            assert_eq!(function.body.len(), copy.body.len());
        }
        other => panic!("{:?}", other),
    }
}
