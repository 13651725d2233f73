use rlox::data::Data;
use rlox::environment::{Environment, Error};
use rlox::number::Number;
use rlox::scanner::{Token, TokenType};

fn name(text: &str) -> Token {
    Token {
        lexeme: String::from(text),
        line: 1,
        literal: None,
        ttype: TokenType::Identifier,
    }
}

fn number(value: f64) -> Data {
    Data::Number(Number::from_bits(value.to_bits()))
}

#[test]
fn a_definition_is_read_back_and_overwritten() {
    let mut scope = Environment::new();
    assert_eq!(scope.get(&name("a")), Err(Error::Undefined(String::from("a"))));
    scope.define(String::from("a"), number(1.0));
    assert_eq!(scope.get(&name("a")), Ok(number(1.0)));
    scope.define(String::from("a"), Data::Nil);
    assert_eq!(scope.get(&name("a")), Ok(Data::Nil));
    assert_eq!(scope.values.len(), 1);
}

#[test]
fn lookup_goes_outward_and_takes_the_nearest() {
    let mut outer = Environment::new();
    outer.define(String::from("a"), number(1.0));
    outer.define(String::from("b"), number(2.0));
    let mut inner = Environment { enclosing: Some(Box::new(outer)), values: Vec::new() };
    inner.define(String::from("a"), number(3.0));
    assert_eq!(inner.get(&name("a")), Ok(number(3.0)));
    assert_eq!(inner.get(&name("b")), Ok(number(2.0)));
    assert_eq!(inner.get(&name("c")), Err(Error::Undefined(String::from("c"))));
    let outer = inner.enclosing.unwrap();
    assert_eq!(outer.get(&name("a")), Ok(number(1.0)));
}

#[test]
fn assignment_changes_the_nearest_definition_and_creates_none() {
    let mut outer = Environment::new();
    outer.define(String::from("a"), number(1.0));
    outer.define(String::from("b"), number(2.0));
    let mut inner = Environment { enclosing: Some(Box::new(outer)), values: Vec::new() };
    inner.define(String::from("a"), number(3.0));
    assert_eq!(inner.assign(&name("a"), &number(4.0)), Ok(()));
    assert_eq!(inner.assign(&name("b"), &number(5.0)), Ok(()));
    assert_eq!(
        inner.assign(&name("c"), &number(6.0)),
        Err(Error::Undefined(String::from("c")))
    );
    assert_eq!(inner.values.len(), 1);
    assert_eq!(inner.get(&name("a")), Ok(number(4.0)));
    let outer = inner.enclosing.unwrap();
    assert_eq!(outer.values.len(), 2);
    assert_eq!(outer.get(&name("a")), Ok(number(1.0)));
    assert_eq!(outer.get(&name("b")), Ok(number(5.0)));
    assert_eq!(outer.get(&name("c")), Err(Error::Undefined(String::from("c"))));
}

#[test]
fn where_a_name_is_listed_twice_the_later_entry_counts() {
    let mut scope = Environment {
        enclosing: None,
        values: vec![
            (String::from("a"), number(1.0)),
            (String::from("b"), number(2.0)),
            (String::from("a"), number(3.0)),
        ],
    };
    assert_eq!(scope.get(&name("a")), Ok(number(3.0)));
    assert_eq!(scope.assign(&name("a"), &number(4.0)), Ok(()));
    assert_eq!(scope.get(&name("a")), Ok(number(4.0)));
    assert_eq!(scope.values[0].1, number(1.0));
}

#[test]
fn the_error_names_the_variable() {
    assert_eq!(
        Error::Undefined(String::from("x")).to_text(),
        "Undefined variable: 'x'."
    );
}

#[test]
fn a_chain_is_cloned_whole() {
    let mut outer = Environment::new();
    outer.define(String::from("a"), number(1.0));
    let mut inner = Environment { enclosing: Some(Box::new(outer)), values: Vec::new() };
    inner.define(String::from("b"), Data::Str(String::from("s")));
    let mut copy = inner.clone();
    assert_eq!(copy, inner);
    assert_eq!(copy.assign(&name("a"), &number(2.0)), Ok(()));
    assert_eq!(copy.get(&name("a")), Ok(number(2.0)));
    assert_eq!(inner.get(&name("a")), Ok(number(1.0)));
}
