use rlox::number::Number;
use rlox::scanner::{
    error, is_alpha, is_alphanumeric, is_digit, report, Diagnostic, Literal, Scanner, Token,
    TokenType,
};

fn scan_source(source: &str) -> (Vec<Token>, Vec<Diagnostic>) {
    let mut scanner = Scanner::new(source.as_bytes().to_vec(), 1);
    scanner.scan_tokens();
    (scanner.list, scanner.diagnostics)
}

fn kinds(tokens: &[Token]) -> Vec<TokenType> {
    tokens.iter().map(|token| token.ttype).collect()
}

#[test]
fn digits_letters_and_underscores_are_told_apart() {
    assert!(is_digit('0') && is_digit('9') && !is_digit('a') && !is_digit('/') && !is_digit(':'));
    assert!(is_alpha('a') && is_alpha('z') && is_alpha('A') && is_alpha('Z') && is_alpha('_'));
    assert!(!is_alpha('0') && !is_alpha('@') && !is_alpha('[') && !is_alpha('`') && !is_alpha('{'));
    assert!(is_alphanumeric('x') && is_alphanumeric('7') && is_alphanumeric('_'));
    assert!(!is_alphanumeric(' ') && !is_alphanumeric('-'));
}

#[test]
fn punctuation_is_scanned_one_or_two_characters_at_a_time() {
    let (tokens, complaints) = scan_source("(){},.-+;*/ ! != = == < <= > >=");
    assert!(complaints.is_empty());
    assert_eq!(
        kinds(&tokens),
        vec![
            TokenType::LeftParen,
            TokenType::RightParen,
            TokenType::LeftBrace,
            TokenType::RightBrace,
            TokenType::Comma,
            TokenType::Dot,
            TokenType::Minus,
            TokenType::Plus,
            TokenType::Semicolon,
            TokenType::Star,
            TokenType::Slash,
            TokenType::Bang,
            TokenType::BangEqual,
            TokenType::Equal,
            TokenType::EqualEqual,
            TokenType::Less,
            TokenType::LessEqual,
            TokenType::Greater,
            TokenType::GreaterEqual,
            TokenType::Eof,
        ]
    );
    assert_eq!(tokens[12].lexeme, "!=");
    assert_eq!(tokens[12].literal, Some(Literal::Str(String::new())));
}

#[test]
fn keywords_are_told_from_identifiers() {
    let (tokens, _) = scan_source(
        "and class else false for fun if nil or print return super this true var while andy _x x1",
    );
    assert_eq!(
        kinds(&tokens),
        vec![
            TokenType::And,
            TokenType::Class,
            TokenType::Else,
            TokenType::False,
            TokenType::For,
            TokenType::Fun,
            TokenType::If,
            TokenType::Nil,
            TokenType::Or,
            TokenType::Print,
            TokenType::Return,
            TokenType::Super,
            TokenType::This,
            TokenType::True,
            TokenType::Var,
            TokenType::While,
            TokenType::Identifier,
            TokenType::Identifier,
            TokenType::Identifier,
            TokenType::Eof,
        ]
    );
    assert_eq!(tokens[16].lexeme, "andy");
    assert_eq!(tokens[16].literal, Some(Literal::Str(String::from("andy"))));
    assert_eq!(tokens[0].literal, Some(Literal::Str(String::from("and"))));
}

#[test]
fn numbers_carry_their_value() {
    let (tokens, complaints) = scan_source("12 3.5 0.1 7.");
    assert!(complaints.is_empty());
    assert_eq!(
        kinds(&tokens),
        vec![
            TokenType::Number,
            TokenType::Number,
            TokenType::Number,
            TokenType::Number,
            TokenType::Dot,
            TokenType::Eof,
        ]
    );
    let value = |token: &Token| match &token.literal {
        Some(Literal::Number(number)) => f64::from_bits(number.bits),
        other => panic!("{:?}", other),
    };
    assert_eq!(value(&tokens[0]), 12.0);
    assert_eq!(value(&tokens[1]), 3.5);
    assert_eq!(value(&tokens[2]), 0.1);
    assert_eq!(value(&tokens[3]), 7.0);
    assert_eq!(tokens[1].lexeme, "3.5");
    assert_eq!(tokens[3].lexeme, "7");
}

#[test]
fn strings_carry_their_text_and_count_lines() {
    let (tokens, complaints) = scan_source("\"one\ntwo\" x \"h\u{e9}\"");
    assert!(complaints.is_empty());
    assert_eq!(tokens.len(), 4);
    assert_eq!(tokens[0].ttype, TokenType::String);
    assert_eq!(tokens[0].literal, Some(Literal::Str(String::from("one\ntwo"))));
    assert_eq!(tokens[0].lexeme, "\"one\ntwo\"");
    assert_eq!(tokens[0].line, 2);
    assert_eq!(tokens[1].line, 2);
    assert_eq!(tokens[2].literal, Some(Literal::Str(String::from("h\u{e9}"))));
    assert_eq!(tokens[3].ttype, TokenType::Eof);
}

#[test]
fn an_unterminated_string_is_a_diagnostic_and_no_token() {
    let (tokens, complaints) = scan_source("print \"abc\n");
    assert_eq!(kinds(&tokens), vec![TokenType::Print, TokenType::Eof]);
    assert_eq!(
        complaints,
        vec![Diagnostic {
            line: 2,
            location: String::new(),
            message: String::from("Unterminated string."),
        }]
    );
}

#[test]
fn an_unexpected_character_is_a_diagnostic_and_scanning_goes_on() {
    let (tokens, complaints) = scan_source("1 @ 2\n# 3");
    assert_eq!(
        kinds(&tokens),
        vec![TokenType::Number, TokenType::Number, TokenType::Number, TokenType::Eof]
    );
    assert_eq!(complaints.len(), 2);
    assert_eq!(complaints[0].line, 1);
    assert_eq!(complaints[0].message, "Unexpected character.");
    assert_eq!(complaints[1].line, 2);
}

#[test]
fn comments_run_to_the_end_of_the_line() {
    let (tokens, complaints) = scan_source("a // b c\n/ d // e");
    assert!(complaints.is_empty());
    assert_eq!(
        kinds(&tokens),
        vec![TokenType::Identifier, TokenType::Slash, TokenType::Identifier, TokenType::Eof]
    );
    assert_eq!(tokens[1].line, 2);
    assert_eq!(tokens[3].line, 2);
}

#[test]
fn the_empty_source_is_the_end_marker_alone() {
    let mut scanner = Scanner::new(Vec::new(), 7);
    scanner.scan_tokens();
    assert_eq!(
        scanner.list,
        vec![Token {
            lexeme: String::new(),
            line: 7,
            literal: Some(Literal::Str(String::new())),
            ttype: TokenType::Eof,
        }]
    );
    assert_eq!(scanner.line, 7);
}

#[test]
fn a_diagnostic_names_the_token_or_the_end() {
    let star = Token {
        lexeme: String::from("*"),
        line: 3,
        literal: None,
        ttype: TokenType::Star,
    };
    assert_eq!(
        error(&star, "Expect expression."),
        Diagnostic {
            line: 3,
            location: String::from(" at ' * '"),
            message: String::from("Expect expression."),
        }
    );
    let end = Token {
        lexeme: String::new(),
        line: 9,
        literal: None,
        ttype: TokenType::Eof,
    };
    assert_eq!(error(&end, "m").location, " at end");
    assert_eq!(report(4, "here", "that").to_text(), "[line: 4] Error: here : that");
    assert_eq!(error(&star, "Expect expression.").to_text(), "[line: 3] Error:  at ' * ' : Expect expression.");
}

#[test]
fn tokens_and_literals_are_written() {
    let token = Token {
        lexeme: String::from("12.5"),
        line: 120,
        literal: Some(Literal::Number(Number::from_bits(12.5f64.to_bits()))),
        ttype: TokenType::Number,
    };
    assert_eq!(
        token.to_text(),
        "Line: 120, Token type: Number, Lexeme: 12.5 Literal: 12.5"
    );
    let bare = Token {
        lexeme: String::from("("),
        line: 0,
        literal: None,
        ttype: TokenType::LeftParen,
    };
    assert_eq!(bare.to_text(), "Line: 0, Token type: LeftParen, Lexeme: ( Literal: ");
    assert_eq!(Literal::Identifier(String::from("id")).to_text(), "id");
    assert_eq!(Literal::Str(String::from("s")).to_text(), "s");
    assert_eq!(Literal::Bool(true).to_text(), "true");
    assert_eq!(Literal::Bool(false).to_text(), "false");
    assert_eq!(Literal::Nil.to_text(), "nil");
    assert_eq!(TokenType::GreaterEqual.name(), "GreaterEqual");
    assert_eq!(TokenType::Eof.name(), "Eof");
    assert_eq!(rlox::text::decimal(0), "0");
    assert_eq!(rlox::text::decimal(9), "9");
    assert_eq!(rlox::text::decimal(10), "10");
    assert_eq!(rlox::text::decimal(4096), "4096");
    assert_eq!(rlox::text::decimal(usize::MAX), usize::MAX.to_string());
}

#[test]
fn text_outside_ascii_is_read_as_utf8() {
    let (tokens, complaints) = scan_source("var s = \"gr\u{fc}\u{df}e \u{1f600}\";");
    assert!(complaints.is_empty());
    assert_eq!(tokens[3].ttype, TokenType::String);
    assert_eq!(tokens[3].literal, Some(Literal::Str(String::from("gr\u{fc}\u{df}e \u{1f600}"))));
    let mut scanner = Scanner::new(vec![b'"', 0xff, b'a', b'"'], 1);
    scanner.scan_tokens();
    assert!(scanner.diagnostics.is_empty());
    assert_eq!(scanner.list[0].literal, Some(Literal::Str(String::from("\u{fffd}a"))));
}
