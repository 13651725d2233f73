use rlox::data::{is_equal, is_truthy, Data};
use rlox::notation::positional;
use rlox::number::Number;

fn number(value: f64) -> Data {
    Data::Number(Number::from_bits(value.to_bits()))
}

#[test]
fn zero_and_the_empty_string_are_truthy() {
    assert!(is_truthy(number(0.0)));
    assert!(is_truthy(Data::Str(String::new())));
    assert!(!is_truthy(Data::Nil));
    assert!(!is_truthy(Data::Bool(false)));
    assert!(is_truthy(Data::Bool(true)));
}

#[test]
fn values_of_different_kinds_are_never_equal() {
    assert!(is_equal(number(1.0), number(1.0)));
    assert!(!is_equal(number(1.0), Data::Str(String::from("1"))));
    assert!(is_equal(Data::Nil, Data::Nil));
    assert!(!is_equal(Data::Nil, Data::Bool(false)));
}

#[test]
fn numbers_are_written_with_the_fewest_digits() {
    assert_eq!(number(10.0).to_text(), "10");
    assert_eq!(number(0.1).to_text(), "0.1");
    assert_eq!(number(666.666).to_text(), "666.666");
    assert_eq!(number(45.67).to_text(), "45.67");
    assert_eq!(number(0.1 + 0.2).to_text(), "0.30000000000000004");
    assert_eq!(number(100.0).to_text(), "100");
    assert_eq!(number(-0.0).to_text(), "-0");
    assert_eq!(number(1e16).to_text(), "10000000000000000");
    assert_eq!(number(1e300).to_text(), format!("1{}", "0".repeat(300)));
    assert_eq!(number(f64::INFINITY).to_text(), "inf");
    assert_eq!(number(f64::NEG_INFINITY).to_text(), "-inf");
    assert_eq!(number(f64::NAN).to_text(), "NaN");
    assert_eq!(number(1.5e-7).to_text(), "0.00000015");
}

#[test]
fn numbers_compare_as_doubles_do() {
    let n = |value: f64| Number::from_bits(value.to_bits());
    let samples = [
        0.0,
        -0.0,
        1.0,
        -1.0,
        0.5,
        -2.5,
        f64::MIN_POSITIVE,
        -f64::MIN_POSITIVE,
        5e-324,
        f64::MAX,
        f64::MIN,
        f64::INFINITY,
        f64::NEG_INFINITY,
        f64::NAN,
        -f64::NAN,
    ];
    for a in samples {
        assert_eq!(n(a).is_nan(), a.is_nan());
        assert_eq!(n(a).is_negative(), a.is_sign_negative());
        assert_eq!(n(a).neg().bits, (-a).to_bits());
        for b in samples {
            assert_eq!(n(a).equals(&n(b)), a == b, "{} == {}", a, b);
            assert_eq!(n(a).less(&n(b)), a < b, "{} < {}", a, b);
            assert_eq!(n(a).less_equal(&n(b)), a <= b, "{} <= {}", a, b);
            assert_eq!(n(a).greater(&n(b)), a > b, "{} > {}", a, b);
            assert_eq!(n(a).greater_equal(&n(b)), a >= b, "{} >= {}", a, b);
        }
    }
}

#[test]
fn arithmetic_rounds_as_doubles_do() {
    let n = |value: f64| Number::from_bits(value.to_bits());
    let samples = [
        0.0, -0.0, 1.0, -1.0, 3.0, 10.0, 0.1, 0.2, 0.3, 1e308, -1e308, 1e-308, 5e-324, 123456.789,
        f64::MAX, f64::INFINITY, f64::NEG_INFINITY,
    ];
    for a in samples {
        for b in samples {
            let same = |ours: Number, theirs: f64| {
                (ours.is_nan() && theirs.is_nan()) || ours.bits == theirs.to_bits()
            };
            assert!(same(n(a).add(&n(b)), a + b), "{} + {}", a, b);
            assert!(same(n(a).sub(&n(b)), a - b), "{} - {}", a, b);
            assert!(same(n(a).mul(&n(b)), a * b), "{} * {}", a, b);
            assert!(same(n(a).div(&n(b)), a / b), "{} / {}", a, b);
        }
    }
}

#[test]
fn numbers_are_read_from_text() {
    let read = |text: &str| Number::parse(text).map(|number| f64::from_bits(number.bits));
    assert_eq!(read("1"), Some(1.0));
    assert_eq!(read("0.1"), Some(0.1));
    assert_eq!(read("123456789.125"), Some(123456789.125));
    assert_eq!(read("1e3"), Some(1000.0));
    assert_eq!(read(""), None);
    assert_eq!(read("abc"), None);
    assert_eq!(read("1.2.3"), None);
    let long = "1".repeat(0x10_0000 + 1);
    assert_eq!(read(&long), None);
}

#[test]
fn numbers_are_written_as_rust_writes_them() {
    let samples = [
        0.0, 1.0, -1.0, 2.5, 0.1, 0.2, 0.3, 1.0 / 3.0, 2.0 / 3.0, 100.0, 1e10, 123456789.0,
        0.000001, 1e-7, 3.14159, 1e15, 9007199254740992.0, 4.35, 0.1 + 0.7, 1e-300, 5e-324,
        1234567890123456.0, 0.30000000000000004, 1.7976931348623157e10,
    ];
    for value in samples {
        assert_eq!(number(value).to_text(), value.to_string());
        assert_eq!(number(-value).to_text(), (-value).to_string());
    }
}

#[test]
fn large_and_small_numbers_are_written_without_exponent() {
    assert_eq!(number(1e17).to_text(), "100000000000000000");
    assert_eq!(number(1e21).to_text(), "1000000000000000000000");
    assert_eq!(number(-1.25e20).to_text(), "-125000000000000000000");
    assert_eq!(number(2432902008176640000.0).to_text(), "2432902008176640000");
    assert_eq!(number(1.5e-10).to_text(), "0.00000000015");
    let samples = [
        1e16, 1e17, 1e22, 1e23, 9.5e22, 1.5e300, f64::MAX, f64::MIN_POSITIVE, 5e-324, 1e-320,
        99999999999999990.0, 123456789012345678901234567890.0, 2.5e-200, 1.7976931348623157e308,
        4.9406564584124654e-324, 6.02214076e23, 6.62607015e-34, 0.1e-5, 12345.6789e10,
    ];
    for value in samples {
        assert_eq!(number(value).to_text(), value.to_string());
        assert_eq!(number(-value).to_text(), (-value).to_string());
    }
}

#[test]
fn scientific_notation_is_laid_out_positionally() {
    assert_eq!(positional("1.0E+0"), "1");
    assert_eq!(positional("0.0E+0"), "0");
    assert_eq!(positional("-0.0E+0"), "-0");
    assert_eq!(positional("1.0E+2"), "100");
    assert_eq!(positional("1.25E+2"), "125");
    assert_eq!(positional("1.25E+1"), "12.5");
    assert_eq!(positional("1.25E+0"), "1.25");
    assert_eq!(positional("1.25E-0"), "1.25");
    assert_eq!(positional("1.0E-0"), "1");
    assert_eq!(positional("1.25E-1"), "0.125");
    assert_eq!(positional("-1.25E-3"), "-0.00125");
    assert_eq!(positional("1.2500E+1"), "12.5");
    assert_eq!(positional("12.5E+1"), "125");
    assert_eq!(positional("12.5E-1"), "1.25");
    assert_eq!(positional("12.5E-2"), "0.125");
    assert_eq!(positional("12.5E-3"), "0.0125");
    assert_eq!(positional("1.5E+9999"), format!("15{}", "0".repeat(9998)));
    for text in ["", "-", "1", "1.5", "1.5E", "1.5E+", "1.5E5", "1.E+5", ".5E+5", "1.5E+12345",
        "1.5e+5", "a.5E+5", "1.5E+x", "NaN", "+Inf", "1.5E+5 ", "--1.5E+5", "1..5E+5"] {
        assert_eq!(positional(text), text);
    }
}

#[test]
fn values_are_written() {
    assert_eq!(Data::Str(String::from("text")).to_text(), "text");
    assert_eq!(Data::Bool(true).to_text(), "true");
    assert_eq!(Data::Bool(false).to_text(), "false");
    assert_eq!(Data::Nil.to_text(), "nil");
    assert_eq!(Data::Func.to_text(), "func");
    assert_eq!(number(-2.5).to_text(), "-2.5");
}

#[test]
fn functions_equal_functions_and_strings_equal_by_text() {
    assert!(is_equal(Data::Func, Data::Func));
    assert!(!is_equal(Data::Func, Data::Nil));
    assert!(is_equal(Data::Str(String::from("a")), Data::Str(String::from("a"))));
    assert!(!is_equal(Data::Str(String::from("a")), Data::Str(String::from("b"))));
    assert!(is_equal(Data::Bool(false), Data::Bool(false)));
    assert!(!is_equal(Data::Bool(true), Data::Bool(false)));
    assert!(is_equal(number(0.0), number(-0.0)));
    assert!(!is_equal(number(f64::NAN), number(f64::NAN)));
}
