use rlox::interpreter::{Error, Interpreter};
use rlox::parser::Parser;
use rlox::scanner::{Diagnostic, Scanner, Token, TokenType};
use rlox::stmt::Stmt;

fn scan(source: &str) -> (Vec<Token>, Vec<Diagnostic>) {
    let mut scanner = Scanner::new(source.as_bytes().to_vec(), 1);
    scanner.scan_tokens();
    (scanner.list, scanner.diagnostics)
}

fn parse(source: &str) -> (Result<Vec<Stmt>, rlox::parser::Error>, Vec<Diagnostic>) {
    let (tokens, complaints) = scan(source);
    assert!(complaints.is_empty());
    let mut parser = Parser::new(tokens);
    let parsed = parser.parse();
    (parsed, parser.diagnostics)
}

fn run(source: &str) -> (Result<(), Error>, String) {
    let (parsed, complaints) = parse(source);
    assert!(complaints.is_empty(), "{:?}", complaints);
    let mut interpreter = Interpreter::new(false, 1_000_000);
    let outcome = interpreter.interpret(parsed.unwrap());
    (outcome, interpreter.output)
}

#[test]
fn arithmetic_follows_precedence() {
    let (outcome, output) = run("print 2 * 3 + 4;");
    assert_eq!(outcome, Ok(()));
    assert_eq!(output, "10\n");
}

#[test]
fn factors_lean_left() {
    let (outcome, output) = run("print 8 / 2 / 2; print 2 * 3 * 4; print 1 - 2 - 3;");
    assert_eq!(outcome, Ok(()));
    assert_eq!(output, "2\n24\n-4\n");
}

#[test]
fn strings_concatenate() {
    let (outcome, output) = run("print \"a\" + \"b\";");
    assert_eq!(outcome, Ok(()));
    assert_eq!(output, "ab\n");
}

#[test]
fn adding_a_number_and_a_string_is_an_addition_error() {
    let (outcome, output) = run("print 1 + \"b\";");
    assert!(matches!(outcome, Err(Error::AdditionError(ref token, ref left, ref right))
        if token.ttype == TokenType::Plus && left == "1" && right == "b"));
    assert_eq!(output, "");
}

#[test]
fn subtracting_a_string_is_an_operand_error() {
    let (outcome, _) = run("print 1 - \"b\";");
    assert!(matches!(outcome, Err(Error::OperandNumbersError(ref token, ref left, ref right))
        if token.ttype == TokenType::Minus && left == "1" && right == "b"));
}

#[test]
fn negating_a_string_is_an_operand_error() {
    let (outcome, _) = run("print -\"b\";");
    assert!(matches!(outcome, Err(Error::OperandNumberError(ref token, ref left, ref right))
        if token.ttype == TokenType::Minus && left.is_empty() && right == "b"));
}

#[test]
fn equality_does_not_coerce() {
    let (outcome, output) =
        run("print 1 == 1; print 1 == \"1\"; print nil == nil; print nil == false; print 1 != 2;");
    assert_eq!(outcome, Ok(()));
    assert_eq!(output, "true\nfalse\ntrue\nfalse\ntrue\n");
}

#[test]
fn zero_is_truthy() {
    let (outcome, output) = run("if (0) print \"yes\"; else print \"no\";");
    assert_eq!(outcome, Ok(()));
    assert_eq!(output, "yes\n");
}

#[test]
fn the_empty_string_is_truthy() {
    let (outcome, output) = run("if (\"\") print \"yes\"; else print \"no\";");
    assert_eq!(outcome, Ok(()));
    assert_eq!(output, "yes\n");
}

#[test]
fn nil_and_false_are_falsy() {
    let (outcome, output) = run(
        "if (nil) print \"yes\"; else print \"no\"; if (false) print \"yes\"; else print \"no\"; print !nil; print !0;",
    );
    assert_eq!(outcome, Ok(()));
    assert_eq!(output, "no\nno\ntrue\nfalse\n");
}

#[test]
fn an_inner_variable_shadows_the_outer_one() {
    let (outcome, output) = run("var x = 1; { var x = 2; print x; } print x;");
    assert_eq!(outcome, Ok(()));
    assert_eq!(output, "2\n1\n");
}

#[test]
fn assignment_reaches_the_enclosing_scope() {
    let (outcome, output) = run("var x = 1; { x = 2; print x; } print x;");
    assert_eq!(outcome, Ok(()));
    assert_eq!(output, "2\n2\n");
}

#[test]
fn assignment_to_an_undefined_name_fails() {
    let (outcome, output) = run("x = 1;");
    assert!(matches!(outcome, Err(Error::UndefinedVariable(ref token)) if token.lexeme == "x"));
    assert_eq!(output, "");
}

#[test]
fn assignment_to_a_declared_name_succeeds() {
    let (outcome, output) = run("var x; print x; x = 5; print x;");
    assert_eq!(outcome, Ok(()));
    assert_eq!(output, "nil\n5\n");
}

#[test]
fn reading_an_undefined_name_fails() {
    let (outcome, _) = run("print y;");
    assert!(matches!(outcome, Err(Error::UndefinedVariable(ref token)) if token.lexeme == "y"));
}

#[test]
fn assignment_is_an_expression() {
    let (outcome, output) = run("var a; var b; a = b = 3; print a + b; print a = 4;");
    assert_eq!(outcome, Ok(()));
    assert_eq!(output, "6\n4\n");
}

#[test]
fn a_for_loop_counts() {
    let (outcome, output) = run("for (var i = 0; i < 3; i = i + 1) print i;");
    assert_eq!(outcome, Ok(()));
    assert_eq!(output, "0\n1\n2\n");
}

#[test]
fn the_variable_of_a_for_loop_is_gone_after_it() {
    let (outcome, output) = run("for (var i = 0; i < 3; i = i + 1) print i; print i;");
    assert!(matches!(outcome, Err(Error::UndefinedVariable(ref token)) if token.lexeme == "i"));
    assert_eq!(output, "0\n1\n2\n");
}

#[test]
fn a_for_loop_without_initializer_is_still_a_loop() {
    let (outcome, output) = run("var i = 0; for (; i < 2; i = i + 1) print i; print i;");
    assert_eq!(outcome, Ok(()));
    assert_eq!(output, "0\n1\n2\n");
}

#[test]
fn a_while_loop_tests_before_every_round() {
    let (outcome, output) = run("var n = 3; while (n > 0) { print n; n = n - 1; } while (false) print 1;");
    assert_eq!(outcome, Ok(()));
    assert_eq!(output, "3\n2\n1\n");
}

#[test]
fn and_stops_at_a_falsy_left_side() {
    let (outcome, output) = run("false and (1/\"x\"); print false and 1; print nil and 1; print 1 and 2;");
    assert_eq!(outcome, Ok(()));
    assert_eq!(output, "false\nnil\n2\n");
}

#[test]
fn or_stops_at_a_truthy_left_side() {
    let (outcome, output) = run("true or (1/\"x\"); print 1 or 2; print nil or \"b\"; print false or false;");
    assert_eq!(outcome, Ok(()));
    assert_eq!(output, "1\nb\nfalse\n");
}

#[test]
fn division_by_zero_is_no_error() {
    let (outcome, output) = run("print 1/0; print -1/0; print 0/0 == 0/0;");
    assert_eq!(outcome, Ok(()));
    assert_eq!(output, "inf\n-inf\nfalse\n");
}

#[test]
fn calling_a_number_is_refused() {
    let (outcome, _) = run("var f = 1; f(2, 3);");
    assert!(matches!(outcome, Err(Error::NotCallable(ref token)) if token.ttype == TokenType::RightParen));
}

#[test]
fn arguments_are_evaluated_before_the_callee_is_refused() {
    let (outcome, _) = run("var f = 1; f(2, g);");
    assert!(matches!(outcome, Err(Error::UndefinedVariable(ref token)) if token.lexeme == "g"));
}

#[test]
fn a_function_declaration_parses_and_does_not_execute() {
    let (parsed, complaints) = parse("fun add(a, b) { print a + b; }");
    assert!(complaints.is_empty());
    let statements = parsed.unwrap();
    assert_eq!(statements.len(), 1);
    match &statements[0] {
        Stmt::Function(function) => {
            assert_eq!(function.name.lexeme, "add");
            assert_eq!(function.parameters.len(), 2);
            assert_eq!(function.body.len(), 1);
        }
        other => panic!("{:?}", other),
    }
    let mut interpreter = Interpreter::new(false, 10);
    assert_eq!(interpreter.interpret(statements), Err(Error::ValueError));
}

#[test]
fn a_loop_that_does_not_end_runs_into_the_limit() {
    let (tokens, _) = scan("var n = 0; while (true) { n = n + 1; print n; }");
    let mut parser = Parser::new(tokens);
    let statements = parser.parse().unwrap();
    let mut interpreter = Interpreter::new(false, 3);
    assert_eq!(interpreter.interpret(statements), Err(Error::LoopLimit));
    assert_eq!(interpreter.output, "1\n2\n3\n");
}

#[test]
fn an_error_inside_a_block_still_closes_the_block() {
    let (tokens, _) = scan("var x = 1; { var x = 2; print y; }");
    let mut parser = Parser::new(tokens);
    let statements = parser.parse().unwrap();
    let mut interpreter = Interpreter::new(true, 10);
    assert!(interpreter.interpret(statements).is_err());
    assert!(interpreter.env.enclosing.is_none());
    let (tokens, _) = scan("print x;");
    let mut parser = Parser::new(tokens);
    assert_eq!(interpreter.interpret(parser.parse().unwrap()), Ok(()));
    assert_eq!(interpreter.output, "1\n");
}

#[test]
fn a_missing_semicolon_yields_one_diagnostic_and_parsing_resumes() {
    let (parsed, complaints) = parse("print 1 print 2; var x = 3; print x");
    let recovered = parsed.unwrap();
    assert_eq!(recovered.len(), 1);
    assert!(matches!(recovered[0], Stmt::Var(_)));
    assert_eq!(complaints.len(), 2);
    assert_eq!(complaints[0].line, 1);
    assert_eq!(complaints[0].location, " at ' print '");
    assert_eq!(complaints[0].message, "Expect ';' after value.");
    assert_eq!(complaints[1].location, " at end");
    assert_eq!(complaints[1].message, "Expect ';' after value.");
}

#[test]
fn one_malformed_statement_among_good_ones_yields_one_diagnostic() {
    let (parsed, complaints) = parse("var a = 1;\nprint a +;\nprint a;\n");
    assert_eq!(parsed.unwrap().len(), 2);
    assert_eq!(complaints.len(), 1);
    assert_eq!(complaints[0].line, 2);
    assert_eq!(complaints[0].message, "Expect expression.");
}

#[test]
fn an_assignment_needs_a_variable_on_its_left() {
    let (parsed, complaints) = parse("1 + 2 = 3;");
    assert_eq!(parsed, Ok(vec![]));
    assert_eq!(complaints.len(), 1);
    assert_eq!(complaints[0].location, " at ' = '");
    assert_eq!(complaints[0].message, "Invalid Assignment target.");
}

#[test]
fn a_declared_variable_takes_an_assignment() {
    let (outcome, output) = run("var x; x = 5; print x;");
    assert_eq!(outcome, Ok(()));
    assert_eq!(output, "5\n");
}

#[test]
fn the_right_side_of_a_decided_and_is_not_evaluated() {
    let (outcome, output) = run("false and (1/0);");
    assert_eq!(outcome, Ok(()));
    assert_eq!(output, "");
    let (outcome, _) = run("var a = 1; false and (a = 2); print a; nil and b;");
    assert_eq!(outcome, Ok(()));
}

#[test]
fn the_right_side_of_a_decided_or_is_not_evaluated() {
    let (outcome, output) = run("true or (1/0);");
    assert_eq!(outcome, Ok(()));
    assert_eq!(output, "");
    let (outcome, output) = run("var a = 1; 0 or (a = 2); print a; \"\" or b;");
    assert_eq!(outcome, Ok(()));
    assert_eq!(output, "1\n");
}

#[test]
fn the_right_side_of_an_undecided_and_is_evaluated() {
    let (outcome, output) = run("var a = 1; true and (a = 2); print a; false or (a = 3); print a;");
    assert_eq!(outcome, Ok(()));
    assert_eq!(output, "2\n3\n");
    let (outcome, _) = run("true and b;");
    assert!(matches!(outcome, Err(Error::UndefinedVariable(_))));
}

#[test]
fn a_missing_semicolon_is_one_diagnostic() {
    let (parsed, complaints) = parse("print 1");
    assert_eq!(parsed, Ok(vec![]));
    assert_eq!(complaints.len(), 1);
    let (parsed, complaints) = parse("var a = 1; a + 1\nprint a;");
    assert_eq!(parsed.unwrap().len(), 1);
    assert_eq!(complaints.len(), 1);
    assert_eq!(complaints[0].line, 2);
    assert_eq!(complaints[0].location, " at ' print '");
}

#[test]
fn errors_are_written_with_their_token() {
    let (outcome, _) = run("print 1 +\n nil;");
    assert_eq!(
        outcome.unwrap_err().to_text(),
        "Operands must be two numbers or two strings. Token: Line: 1, Token type: Plus, Lexeme: + Literal: , Left: 1, Right: nil"
    );
    let (outcome, _) = run("print 2 * \"x\";");
    assert_eq!(
        outcome.unwrap_err().to_text(),
        "Operands must be numbers. Token: Line: 1, Token type: Star, Lexeme: * Literal: , Left: 2, Right: x"
    );
    let (outcome, _) = run("print -true;");
    assert_eq!(
        outcome.unwrap_err().to_text(),
        "Operand must be a number. Token: Line: 1, Token type: Minus, Lexeme: - Literal: , Right: true"
    );
    let (outcome, _) = run("print z;");
    assert_eq!(outcome.unwrap_err().to_text(), "Undefined variable: 'z'.");
    let (outcome, _) = run("\"s\"();");
    assert_eq!(
        outcome.unwrap_err().to_text(),
        "Can only call functions. Token: Line: 1, Token type: RightParen, Lexeme: ) Literal: "
    );
    assert_eq!(Error::LoopLimit.to_text(), "Loop limit reached.");
    assert_eq!(Error::ValueError.to_text(), "error");
}

#[test]
fn the_operators_ask_for_what_they_need() {
    for source in ["1 < nil;", "1 <= \"a\";", "true > 1;", "nil >= nil;", "\"a\" / 2;", "\"a\" * \"b\";"] {
        let (outcome, _) = run(source);
        assert!(matches!(outcome, Err(Error::OperandNumbersError(..))), "{}", source);
    }
    for source in ["\"a\" + 1;", "nil + nil;", "true + \"a\";"] {
        let (outcome, _) = run(source);
        assert!(matches!(outcome, Err(Error::AdditionError(..))), "{}", source);
    }
    let (outcome, output) = run("print 1 < 2; print 2 <= 2; print 1 > 2; print 2 >= 3; print \"a\" == \"a\"; print \"a\" != \"b\";");
    assert_eq!(outcome, Ok(()));
    assert_eq!(output, "true\ntrue\nfalse\nfalse\ntrue\ntrue\n");
}

#[test]
fn an_error_in_an_operand_stops_the_expression() {
    let (outcome, output) = run("var a = 1; print (a = 2) + b + (a = 3); ");
    assert!(matches!(outcome, Err(Error::UndefinedVariable(ref token)) if token.lexeme == "b"));
    assert_eq!(output, "");
    let (tokens, _) = scan("var a = 1; (a = 2) + nil;");
    let mut parser = Parser::new(tokens);
    let statements = parser.parse().unwrap();
    let mut interpreter = Interpreter::new(false, 10);
    assert!(interpreter.interpret(statements).is_err());
    let (tokens, _) = scan("print a;");
    let mut parser = Parser::new(tokens);
    assert_eq!(interpreter.interpret(parser.parse().unwrap()), Ok(()));
    assert_eq!(interpreter.output, "2\n");
}

#[test]
fn an_expression_is_evaluated_on_its_own() {
    let (tokens, _) = scan("1 + 2 * 3;");
    let mut parser = Parser::new(tokens);
    let statements = parser.parse().unwrap();
    let mut interpreter = Interpreter::new(false, 10);
    match &statements[0] {
        Stmt::Expression(statement) => {
            let value = interpreter.evaluate(&statement.expression).unwrap();
            assert_eq!(value.to_text(), "7");
        }
        other => panic!("{:?}", other),
    }
    assert_eq!(interpreter.output, "");
}

#[test]
fn a_function_value_cannot_be_invoked_yet() {
    let (tokens, _) = scan("clock(1);");
    let mut parser = Parser::new(tokens);
    let statements = parser.parse().unwrap();
    let mut interpreter = Interpreter::new(false, 10);
    interpreter.env.define(String::from("clock"), rlox::interpreter::Data::Func);
    assert_eq!(interpreter.interpret(statements), Err(Error::ValueError));
    let (tokens, _) = scan("print clock; print clock == clock;");
    let mut parser = Parser::new(tokens);
    assert_eq!(interpreter.interpret(parser.parse().unwrap()), Ok(()));
    assert_eq!(interpreter.output, "func\ntrue\n");
}

#[test]
fn a_tree_that_no_source_gives_is_a_value_error() {
    use_tree(Token {
        lexeme: String::from(","),
        line: 1,
        literal: None,
        ttype: TokenType::Comma,
    });
}

fn use_tree(comma: Token) {
    let one = || rlox::expr::Expr::Literal(rlox::scanner::Literal::Nil);
    let mut interpreter = Interpreter::new(false, 10);
    let binary = rlox::expr::Expr::Binary(Box::new(rlox::expr::Binary {
        left: one(),
        operator: comma.clone(),
        right: one(),
    }));
    assert_eq!(interpreter.evaluate(&binary), Err(Error::ValueError));
    let logical = rlox::expr::Expr::Logical(Box::new(rlox::expr::Logical {
        left: one(),
        operator: comma.clone(),
        right: one(),
    }));
    assert_eq!(interpreter.evaluate(&logical), Err(Error::ValueError));
    let unary = rlox::expr::Expr::Unary(Box::new(rlox::expr::Unary {
        operator: comma,
        right: one(),
    }));
    assert_eq!(interpreter.evaluate(&unary), Err(Error::ValueError));
    let name = rlox::expr::Expr::Literal(rlox::scanner::Literal::Identifier(String::from("n")));
    assert_eq!(interpreter.evaluate(&name), Err(Error::ValueError));
    let printed = Stmt::Print(rlox::stmt::Print { expression: one() });
    assert_eq!(interpreter.execute(&printed), Ok(()));
    assert_eq!(interpreter.output, "nil\n");
}
