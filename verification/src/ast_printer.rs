//! Expressions written in prefix notation, for inspection.

use crate::expr::{expressions_view, lemma_call_view, Call, Expr, ExprView};
use crate::scanner::literal_text;
use vstd::prelude::*;
use vstd::string::StringExecFns;

verus! {

/// `head` followed by the first `upto` of `parts`, a space before each.
pub open spec fn spaced(head: Seq<char>, parts: Seq<Seq<char>>, upto: nat) -> Seq<char>
    decreases upto,
{
    if upto == 0 {
        head
    } else {
        spaced(head, parts, (upto - 1) as nat) + " "@ + parts[upto - 1]
    }
}

/// A name and parts in parentheses: `(name part part)`.
pub open spec fn parenthesized(name: Seq<char>, parts: Seq<Seq<char>>) -> Seq<char> {
    spaced("("@ + name, parts, parts.len()) + ")"@
}

/// An expression in prefix notation: an operator before its operands, a
/// grouping as `group`, an assignment as `=` and the name, a call as `call`
/// before the callee and the arguments; a literal and a variable as they
/// are written.
pub open spec fn printed(e: ExprView) -> Seq<char>
    decreases e, 0nat,
{
    match e {
        ExprView::Binary { left, operator, right } => parenthesized(
            operator.lexeme@,
            seq![printed(*left), printed(*right)],
        ),
        ExprView::Grouping { expression } => parenthesized("group"@, seq![printed(*expression)]),
        ExprView::Literal { literal } => literal_text(literal@),
        ExprView::Unary { operator, right } => parenthesized(
            operator.lexeme@,
            seq![printed(*right)],
        ),
        ExprView::Variable { name } => name.lexeme@,
        ExprView::Assign { name, value } => parenthesized(
            "= "@ + name.lexeme@,
            seq![printed(*value)],
        ),
        ExprView::Logical { left, operator, right } => parenthesized(
            operator.lexeme@,
            seq![printed(*left), printed(*right)],
        ),
        ExprView::Call { callee, paren, arguments } => parenthesized(
            "call"@,
            seq![printed(*callee)] + printed_list(arguments, arguments.len()),
        ),
    }
}

/// The first `upto` expressions of a list in prefix notation.
pub open spec fn printed_list(list: Seq<ExprView>, upto: nat) -> Seq<Seq<char>>
    decreases list, upto,
{
    if upto == 0 || upto > list.len() {
        Seq::empty()
    } else {
        printed_list(list, (upto - 1) as nat).push(printed(list[upto - 1]))
    }
}

/// A list of texts as plain data.
pub open spec fn texts_view(texts: Seq<String>) -> Seq<Seq<char>> {
    Seq::new(texts.len(), |i: int| texts[i]@)
}

/// Writes a name and parts in parentheses.
pub fn parenthesize(name: &str, parts: &Vec<String>) -> (r: String)
    ensures
        r@ == parenthesized(name@, texts_view(parts@)),
{
    let mut text = String::from_str("(");
    text.append(name);
    let mut i: usize = 0;
    while i < parts.len()
        invariant
            i <= parts@.len(),
            text@ == spaced("("@ + name@, texts_view(parts@), i as nat),
        decreases parts@.len() - i,
    {
        text.append(" ");
        text.append(parts[i].as_str());
        i += 1;
    }
    text.append(")");
    text
}

/// The texts of one part, and of two.
fn one(part: String) -> (r: Vec<String>)
    ensures
        texts_view(r@) == seq![part@],
{
    let mut parts: Vec<String> = Vec::new();
    parts.push(part);
    assert(texts_view(parts@) =~= seq![part@]);
    parts
}

fn two(first: String, second: String) -> (r: Vec<String>)
    ensures
        texts_view(r@) == seq![first@, second@],
{
    let mut parts: Vec<String> = Vec::new();
    parts.push(first);
    parts.push(second);
    assert(texts_view(parts@) =~= seq![first@, second@]);
    parts
}

/// Writes a call in prefix notation.
fn print_call(call: &Call) -> (r: String)
    ensures
        r@ == parenthesized(
            "call"@,
            seq![printed(call.callee@)] + printed_list(
                expressions_view(call.arguments@),
                call.arguments@.len(),
            ),
        ),
    decreases call,
{
    let ghost list = expressions_view(call.arguments@);
    let mut parts: Vec<String> = one(call.callee.print());
    let mut i: usize = 0;
    assert(texts_view(parts@) =~= seq![printed(call.callee@)] + printed_list(list, 0));
    while i < call.arguments.len()
        invariant
            i <= call.arguments@.len(),
            list == expressions_view(call.arguments@),
            texts_view(parts@) == seq![printed(call.callee@)] + printed_list(list, i as nat),
        decreases call.arguments@.len() - i,
    {
        let ghost before = texts_view(parts@);
        let part = call.arguments[i].print();
        parts.push(part);
        proof {
            assert(texts_view(parts@) =~= before.push(part@));
            assert(before.push(part@) =~= seq![printed(call.callee@)] + printed_list(
                list,
                (i + 1) as nat,
            ));
        }
        i += 1;
    }
    parenthesize("call", &parts)
}

impl Expr {
    /// Writes the expression in prefix notation.
    pub fn print(&self) -> (r: String)
        ensures
            r@ == printed(self@),
        decreases self,
    {
        match self {
            Expr::Binary(e) => parenthesize(
                e.operator.lexeme.as_str(),
                &two(e.left.print(), e.right.print()),
            ),
            Expr::Grouping(e) => parenthesize("group", &one(e.expression.print())),
            Expr::Literal(literal) => literal.to_text(),
            Expr::Unary(e) => parenthesize(e.operator.lexeme.as_str(), &one(e.right.print())),
            Expr::Variable(e) => e.name.lexeme.clone(),
            Expr::Assign(e) => {
                let mut name = String::from_str("= ");
                name.append(e.name.lexeme.as_str());
                parenthesize(name.as_str(), &one(e.value.print()))
            },
            Expr::Logical(e) => parenthesize(
                e.operator.lexeme.as_str(),
                &two(e.left.print(), e.right.print()),
            ),
            Expr::Call(e) => {
                proof {
                    lemma_call_view(**e);
                }
                print_call(&**e)
            },
        }
    }
}

} // verus!
