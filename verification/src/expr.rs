//! Expression trees.

use crate::scanner::{Literal, Token};
use vstd::prelude::*;

verus! {

#[derive(Debug, PartialEq)]
pub enum Expr {
    Binary(Box<Binary>),
    Grouping(Box<Grouping>),
    Literal(Literal),
    Unary(Box<Unary>),
    Variable(Box<Variable>),
    Assign(Box<Assign>),
    Logical(Box<Logical>),
    Call(Box<Call>),
}

#[derive(Debug, PartialEq)]
pub struct Binary {
    pub left: Expr,
    pub operator: Token,
    pub right: Expr,
}

#[derive(Debug, PartialEq)]
pub struct Grouping {
    pub expression: Expr,
}

#[derive(Debug, PartialEq)]
pub struct Unary {
    pub operator: Token,
    pub right: Expr,
}

#[derive(Debug, PartialEq)]
pub struct Variable {
    pub name: Token,
}

#[derive(Debug, PartialEq)]
pub struct Assign {
    pub name: Token,
    pub value: Expr,
}

#[derive(Debug, PartialEq)]
pub struct Logical {
    pub left: Expr,
    pub operator: Token,
    pub right: Expr,
}

#[derive(Debug, PartialEq)]
pub struct Call {
    pub callee: Expr,
    pub paren: Token,
    pub arguments: Vec<Expr>,
}

/// An expression as a mathematical tree: what [`Expr`] holds, with the
/// argument list of a call as a sequence.
#[allow(inconsistent_fields)]
pub enum ExprView {
    Binary { left: Box<ExprView>, operator: Token, right: Box<ExprView> },
    Grouping { expression: Box<ExprView> },
    Literal { literal: Literal },
    Unary { operator: Token, right: Box<ExprView> },
    Variable { name: Token },
    Assign { name: Token, value: Box<ExprView> },
    Logical { left: Box<ExprView>, operator: Token, right: Box<ExprView> },
    Call { callee: Box<ExprView>, paren: Token, arguments: Seq<ExprView> },
}

impl View for Expr {
    type V = ExprView;

    open spec fn view(&self) -> ExprView {
        expr_view(*self)
    }
}

/// The tree of an expression.
pub open spec fn expr_view(expr: Expr) -> ExprView
    decreases expr,
{
    match expr {
        Expr::Binary(e) => ExprView::Binary {
            left: Box::new(expr_view(e.left)),
            operator: e.operator,
            right: Box::new(expr_view(e.right)),
        },
        Expr::Grouping(e) => ExprView::Grouping { expression: Box::new(expr_view(e.expression)) },
        Expr::Literal(literal) => ExprView::Literal { literal },
        Expr::Unary(e) => ExprView::Unary {
            operator: e.operator,
            right: Box::new(expr_view(e.right)),
        },
        Expr::Variable(e) => ExprView::Variable { name: e.name },
        Expr::Assign(e) => ExprView::Assign { name: e.name, value: Box::new(expr_view(e.value)) },
        Expr::Logical(e) => ExprView::Logical {
            left: Box::new(expr_view(e.left)),
            operator: e.operator,
            right: Box::new(expr_view(e.right)),
        },
        Expr::Call(e) => ExprView::Call {
            callee: Box::new(expr_view(e.callee)),
            paren: e.paren,
            arguments: Seq::new(
                e.arguments@.len(),
                |i: int|
                    if 0 <= i < e.arguments@.len() {
                        expr_view(e.arguments@[i])
                    } else {
                        arbitrary()
                    },
            ),
        },
    }
}

/// A list of expressions as the sequence of their trees.
pub open spec fn expressions_view(list: Seq<Expr>) -> Seq<ExprView> {
    Seq::new(list.len(), |i: int| list[i]@)
}

/// The tree of a call holds the trees of its arguments.
pub proof fn lemma_call_view(call: Call)
    ensures
        Expr::Call(Box::new(call))@ == (ExprView::Call {
            callee: Box::new(call.callee@),
            paren: call.paren,
            arguments: expressions_view(call.arguments@),
        }),
{
    assert(Expr::Call(Box::new(call))@->arguments =~= expressions_view(call.arguments@));
}

/// A copy of a list of expressions.
fn clone_list(list: &Vec<Expr>) -> (r: Vec<Expr>)
    ensures
        expressions_view(r@) == expressions_view(list@),
    decreases list,
{
    let mut copies: Vec<Expr> = Vec::new();
    let mut i: usize = 0;
    while i < list.len()
        invariant
            i <= list@.len(),
            copies@.len() == i,
            forall|j: int| 0 <= j < i ==> (#[trigger] copies@[j])@ == list@[j]@,
        decreases list@.len() - i,
    {
        copies.push(list[i].clone());
        i += 1;
    }
    assert(expressions_view(copies@) =~= expressions_view(list@));
    copies
}

impl Clone for Expr {
    fn clone(&self) -> (r: Self)
        ensures
            r@ == self@,
        decreases self,
    {
        match self {
            Expr::Binary(e) => Expr::Binary(
                Box::new(
                    Binary {
                        left: e.left.clone(),
                        operator: e.operator.clone(),
                        right: e.right.clone(),
                    },
                ),
            ),
            Expr::Grouping(e) => Expr::Grouping(
                Box::new(Grouping { expression: e.expression.clone() }),
            ),
            Expr::Literal(literal) => Expr::Literal(literal.clone()),
            Expr::Unary(e) => Expr::Unary(
                Box::new(Unary { operator: e.operator.clone(), right: e.right.clone() }),
            ),
            Expr::Variable(e) => Expr::Variable(Box::new(Variable { name: e.name.clone() })),
            Expr::Assign(e) => Expr::Assign(
                Box::new(Assign { name: e.name.clone(), value: e.value.clone() }),
            ),
            Expr::Logical(e) => Expr::Logical(
                Box::new(
                    Logical {
                        left: e.left.clone(),
                        operator: e.operator.clone(),
                        right: e.right.clone(),
                    },
                ),
            ),
            Expr::Call(e) => {
                let call = Call {
                    callee: e.callee.clone(),
                    paren: e.paren.clone(),
                    arguments: clone_list(&e.arguments),
                };
                proof {
                    lemma_call_view(**e);
                    lemma_call_view(call);
                }
                Expr::Call(Box::new(call))
            },
        }
    }
}

impl Clone for Binary {
    fn clone(&self) -> (r: Self) {
        Binary {
            left: self.left.clone(),
            operator: self.operator.clone(),
            right: self.right.clone(),
        }
    }
}

impl Clone for Grouping {
    fn clone(&self) -> (r: Self) {
        Grouping { expression: self.expression.clone() }
    }
}

impl Clone for Unary {
    fn clone(&self) -> (r: Self) {
        Unary { operator: self.operator.clone(), right: self.right.clone() }
    }
}

impl Clone for Variable {
    fn clone(&self) -> (r: Self) {
        Variable { name: self.name.clone() }
    }
}

impl Clone for Assign {
    fn clone(&self) -> (r: Self) {
        Assign { name: self.name.clone(), value: self.value.clone() }
    }
}

impl Clone for Logical {
    fn clone(&self) -> (r: Self) {
        Logical {
            left: self.left.clone(),
            operator: self.operator.clone(),
            right: self.right.clone(),
        }
    }
}

impl Clone for Call {
    fn clone(&self) -> (r: Self) {
        Call {
            callee: self.callee.clone(),
            paren: self.paren.clone(),
            arguments: clone_list(&self.arguments),
        }
    }
}

} // verus!
