//! Runtime values.

use crate::number::{number_eq, number_text, Number};
use vstd::prelude::*;
use vstd::string::StringExecFns;

verus! {

/// A value that evaluation produces.
#[derive(Debug, PartialEq)]
pub enum Data {
    Number(Number),
    Str(String),
    Bool(bool),
    Func,
    Nil,
}

/// A value as plain data: a string is its sequence of characters.
pub enum DataView {
    Number(Number),
    Str(Seq<char>),
    Bool(bool),
    Func,
    Nil,
}

impl View for Data {
    type V = DataView;

    open spec fn view(&self) -> DataView {
        match self {
            Data::Number(number) => DataView::Number(*number),
            Data::Str(text) => DataView::Str(text@),
            Data::Bool(value) => DataView::Bool(*value),
            Data::Func => DataView::Func,
            Data::Nil => DataView::Nil,
        }
    }
}

impl Clone for Data {
    fn clone(&self) -> (r: Self)
        ensures
            r == *self,
    {
        match self {
            Data::Number(number) => Data::Number(*number),
            Data::Str(text) => Data::Str(text.clone()),
            Data::Bool(value) => Data::Bool(*value),
            Data::Func => Data::Func,
            Data::Nil => Data::Nil,
        }
    }
}

/// Truthiness: `nil` and `false` are falsy, every other value is truthy.
pub open spec fn truthy(value: DataView) -> bool {
    match value {
        DataView::Nil => false,
        DataView::Bool(b) => b,
        _ => true,
    }
}

/// Equality of values: values of different kinds are never equal, numbers
/// are equal as IEEE-754 has it, strings character by character.
pub open spec fn equal_values(a: DataView, b: DataView) -> bool {
    match (a, b) {
        (DataView::Nil, DataView::Nil) => true,
        (DataView::Bool(x), DataView::Bool(y)) => x == y,
        (DataView::Number(x), DataView::Number(y)) => number_eq(x.bits, y.bits),
        (DataView::Str(x), DataView::Str(y)) => x == y,
        (DataView::Func, DataView::Func) => true,
        _ => false,
    }
}

/// How a value is written.
pub open spec fn data_text(value: DataView) -> Seq<char> {
    match value {
        DataView::Number(number) => number_text(number.bits),
        DataView::Str(text) => text,
        DataView::Bool(b) => if b {
            "true"@
        } else {
            "false"@
        },
        DataView::Func => "func"@,
        DataView::Nil => "nil"@,
    }
}

/// Only `nil` and `false` are falsy: numbers, zero among them, strings,
/// the empty one among them, `true` and functions are truthy.
pub proof fn lemma_falsy_values(value: DataView)
    ensures
        !truthy(value) <==> (value is Nil || value == DataView::Bool(false)),
{
}

/// Equality does not coerce: `nil` equals only `nil`, and a value of one
/// kind never equals a value of another.
pub proof fn lemma_equality_keeps_kinds(a: DataView, b: DataView)
    ensures
        equal_values(DataView::Nil, b) <==> b is Nil,
        equal_values(a, b) ==> {
            ||| a is Nil && b is Nil
            ||| a is Bool && b is Bool
            ||| a is Number && b is Number
            ||| a is Str && b is Str
            ||| a is Func && b is Func
        },
        equal_values(a, b) == equal_values(b, a),
{
}

pub fn is_truthy(data: Data) -> (r: bool)
    ensures
        r == truthy(data@),
{
    match data {
        Data::Nil => false,
        Data::Bool(value) => value,
        _ => true,
    }
}

pub fn is_equal(a: Data, b: Data) -> (r: bool)
    ensures
        r == equal_values(a@, b@),
{
    match (a, b) {
        (Data::Nil, Data::Nil) => true,
        (Data::Bool(x), Data::Bool(y)) => x == y,
        (Data::Number(x), Data::Number(y)) => x.equals(&y),
        (Data::Str(x), Data::Str(y)) => x == y,
        (Data::Func, Data::Func) => true,
        _ => false,
    }
}

impl Data {
    /// The text that `print` writes for this value.
    pub fn to_text(&self) -> (r: String)
        ensures
            r@ == data_text(self@),
    {
        match self {
            Data::Number(number) => number.to_text(),
            Data::Str(text) => text.clone(),
            Data::Bool(value) => if *value {
                String::from_str("true")
            } else {
                String::from_str("false")
            },
            Data::Func => String::from_str("func"),
            Data::Nil => String::from_str("nil"),
        }
    }
}

} // verus!
