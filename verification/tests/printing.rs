use rlox::expr::{Assign, Binary, Call, Expr, Grouping, Logical, Unary, Variable};
use rlox::number::Number;
use rlox::scanner::{Literal, Token, TokenType};

fn token(ttype: TokenType, lexeme: &str, line: usize) -> Token {
    Token {
        lexeme: String::from(lexeme),
        line,
        literal: Some(Literal::Str(String::from(""))),
        ttype,
    }
}

fn number(value: f64) -> Expr {
    Expr::Literal(Literal::Number(Number::from_bits(value.to_bits())))
}

#[test]
fn test_expr_printing() {
    let minus = Token {
        lexeme: String::from("-"),
        line: 0,
        literal: Some(Literal::Str(String::from(""))),
        ttype: TokenType::Minus,
    };
    let num1 = Literal::Number(Number::from_bits(666.666f64.to_bits()));
    let unary = Unary {
        operator: minus,
        right: Expr::Literal(num1),
    };
    let star = Token {
        lexeme: String::from("*"),
        line: 1,
        literal: Some(Literal::Str(String::from(""))),
        ttype: TokenType::Star,
    };
    let num2 = Literal::Number(Number::from_bits(45.67f64.to_bits()));
    let grouping = Grouping {
        expression: Expr::Literal(num2),
    };
    let binary = Binary {
        left: Expr::Unary(Box::new(unary)),
        operator: star,
        right: Expr::Grouping(Box::new(grouping)),
    };
    let expr = Expr::Binary(Box::new(binary));
    println!("{}", expr.print());
    assert_eq!(expr.print(), "(* (- 666.666) (group 45.67))")
}

#[test]
fn variables_assignments_and_calls_are_printed() {
    let x = token(TokenType::Identifier, "x", 1);
    let f = token(TokenType::Identifier, "f", 1);
    let assign = Expr::Assign(Box::new(Assign {
        name: x.clone(),
        value: number(1.0),
    }));
    assert_eq!(assign.print(), "(= x 1)");
    let either = Expr::Logical(Box::new(Logical {
        left: Expr::Variable(Box::new(Variable { name: x.clone() })),
        operator: token(TokenType::Or, "or", 1),
        right: Expr::Literal(Literal::Nil),
    }));
    assert_eq!(either.print(), "(or x nil)");
    let call = Expr::Call(Box::new(Call {
        callee: Expr::Variable(Box::new(Variable { name: f })),
        paren: token(TokenType::RightParen, ")", 1),
        arguments: vec![either, Expr::Literal(Literal::Bool(true)), Expr::Literal(Literal::Str(String::from("s")))],
    }));
    assert_eq!(call.print(), "(call f (or x nil) true s)");
    let bare = Expr::Call(Box::new(Call {
        callee: Expr::Variable(Box::new(Variable { name: x })),
        paren: token(TokenType::RightParen, ")", 1),
        arguments: vec![],
    }));
    assert_eq!(bare.print(), "(call x)");
}
