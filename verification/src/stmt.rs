//! Statement trees.

use crate::expr::{Expr, ExprView};
use crate::scanner::Token;
use vstd::prelude::*;

verus! {

#[derive(Debug, PartialEq)]
pub enum Stmt {
    Block(Block),
    Expression(Expression),
    Print(Print),
    Var(Var),
    If(If),
    While(Box<While>),
    Function(Box<Function>),
}

#[derive(Debug, PartialEq)]
pub struct Expression {
    pub expression: Expr,
}

#[derive(Debug, PartialEq)]
pub struct Print {
    pub expression: Expr,
}

#[derive(Debug, PartialEq)]
pub struct Var {
    pub name: Token,
    pub initializer: Option<Expr>,
}

#[derive(Debug, PartialEq)]
pub struct Block {
    pub statements: Vec<Stmt>,
}

#[derive(Debug, PartialEq)]
pub struct If {
    pub condition: Expr,
    pub then_branch: Box<Stmt>,
    pub else_branch: Option<Box<Stmt>>,
}

#[derive(Debug, PartialEq)]
pub struct While {
    pub condition: Expr,
    pub body: Stmt,
}

#[derive(Debug, PartialEq)]
pub struct Function {
    pub name: Token,
    pub parameters: Vec<Token>,
    pub body: Vec<Stmt>,
}

/// A statement as a mathematical tree: what [`Stmt`] holds, with lists as
/// sequences.
#[allow(inconsistent_fields)]
pub enum StmtView {
    Block { statements: Seq<StmtView> },
    Expression { expression: ExprView },
    Print { expression: ExprView },
    Var { name: Token, initializer: Option<ExprView> },
    If { condition: ExprView, then_branch: Box<StmtView>, else_branch: Option<Box<StmtView>> },
    While { condition: ExprView, body: Box<StmtView> },
    Function { name: Token, parameters: Seq<Token>, body: Seq<StmtView> },
}

impl View for Stmt {
    type V = StmtView;

    open spec fn view(&self) -> StmtView {
        stmt_view(*self)
    }
}

/// The tree of a statement.
pub open spec fn stmt_view(stmt: Stmt) -> StmtView
    decreases stmt,
{
    match stmt {
        Stmt::Block(s) => StmtView::Block {
            statements: Seq::new(
                s.statements@.len(),
                |i: int|
                    if 0 <= i < s.statements@.len() {
                        stmt_view(s.statements@[i])
                    } else {
                        arbitrary()
                    },
            ),
        },
        Stmt::Expression(s) => StmtView::Expression { expression: s.expression@ },
        Stmt::Print(s) => StmtView::Print { expression: s.expression@ },
        Stmt::Var(s) => StmtView::Var {
            name: s.name,
            initializer: match s.initializer {
                Some(e) => Some(e@),
                None => None,
            },
        },
        Stmt::If(s) => StmtView::If {
            condition: s.condition@,
            then_branch: Box::new(stmt_view(*s.then_branch)),
            else_branch: match s.else_branch {
                Some(e) => Some(Box::new(stmt_view(*e))),
                None => None,
            },
        },
        Stmt::While(s) => StmtView::While {
            condition: s.condition@,
            body: Box::new(stmt_view(s.body)),
        },
        Stmt::Function(s) => StmtView::Function {
            name: s.name,
            parameters: s.parameters@,
            body: Seq::new(
                s.body@.len(),
                |i: int|
                    if 0 <= i < s.body@.len() {
                        stmt_view(s.body@[i])
                    } else {
                        arbitrary()
                    },
            ),
        },
    }
}

/// A list of statements as the sequence of their trees.
pub open spec fn statements_view(list: Seq<Stmt>) -> Seq<StmtView> {
    Seq::new(list.len(), |i: int| list[i]@)
}

/// The tree of a block holds the trees of its statements.
pub proof fn lemma_block_view(block: Block)
    ensures
        Stmt::Block(block)@ == (StmtView::Block {
            statements: statements_view(block.statements@),
        }),
{
    assert(Stmt::Block(block)@->Block_statements =~= statements_view(block.statements@));
}

/// The tree of a function declaration holds the trees of its body.
pub proof fn lemma_function_view(function: Function)
    ensures
        Stmt::Function(Box::new(function))@ == (StmtView::Function {
            name: function.name,
            parameters: function.parameters@,
            body: statements_view(function.body@),
        }),
{
    assert(Stmt::Function(Box::new(function))@->Function_body =~= statements_view(
        function.body@,
    ));
}

/// A copy of a list of statements.
fn clone_list(list: &Vec<Stmt>) -> (r: Vec<Stmt>)
    ensures
        statements_view(r@) == statements_view(list@),
    decreases list,
{
    let mut copies: Vec<Stmt> = Vec::new();
    let mut i: usize = 0;
    while i < list.len()
        invariant
            i <= list@.len(),
            copies@.len() == i,
            forall|j: int| 0 <= j < i ==> (#[trigger] copies@[j])@ == list@[j]@,
        decreases list@.len() - i,
    {
        copies.push(list[i].clone());
        i += 1;
    }
    assert(statements_view(copies@) =~= statements_view(list@));
    copies
}

/// A copy of a list of tokens.
fn clone_tokens(list: &Vec<Token>) -> (r: Vec<Token>)
    ensures
        r@ == list@,
{
    let mut copies: Vec<Token> = Vec::new();
    let mut i: usize = 0;
    while i < list.len()
        invariant
            i <= list@.len(),
            copies@ == list@.take(i as int),
        decreases list@.len() - i,
    {
        copies.push(list[i].clone());
        assert(copies@ =~= list@.take(i + 1));
        i += 1;
    }
    assert(list@.take(i as int) =~= list@);
    copies
}

/// A copy of an expression that may be absent.
fn clone_option(expr: &Option<Expr>) -> (r: Option<Expr>)
    ensures
        match (r, *expr) {
            (Some(copy), Some(e)) => copy@ == e@,
            (None, None) => true,
            _ => false,
        },
{
    match expr {
        Some(e) => Some(e.clone()),
        None => None,
    }
}

impl Clone for Stmt {
    fn clone(&self) -> (r: Self)
        ensures
            r@ == self@,
        decreases self,
    {
        match self {
            Stmt::Block(s) => {
                let block = Block { statements: clone_list(&s.statements) };
                proof {
                    lemma_block_view(*s);
                    lemma_block_view(block);
                }
                Stmt::Block(block)
            },
            Stmt::Expression(s) => Stmt::Expression(
                Expression { expression: s.expression.clone() },
            ),
            Stmt::Print(s) => Stmt::Print(Print { expression: s.expression.clone() }),
            Stmt::Var(s) => Stmt::Var(
                Var { name: s.name.clone(), initializer: clone_option(&s.initializer) },
            ),
            Stmt::If(s) => Stmt::If(
                If {
                    condition: s.condition.clone(),
                    then_branch: Box::new((*s.then_branch).clone()),
                    else_branch: match &s.else_branch {
                        Some(branch) => Some(Box::new((**branch).clone())),
                        None => None,
                    },
                },
            ),
            Stmt::While(s) => Stmt::While(
                Box::new(While { condition: s.condition.clone(), body: s.body.clone() }),
            ),
            Stmt::Function(s) => {
                let function = Function {
                    name: s.name.clone(),
                    parameters: clone_tokens(&s.parameters),
                    body: clone_list(&s.body),
                };
                proof {
                    lemma_function_view(**s);
                    lemma_function_view(function);
                }
                Stmt::Function(Box::new(function))
            },
        }
    }
}

impl Clone for Expression {
    fn clone(&self) -> (r: Self) {
        Expression { expression: self.expression.clone() }
    }
}

impl Clone for Print {
    fn clone(&self) -> (r: Self) {
        Print { expression: self.expression.clone() }
    }
}

impl Clone for Var {
    fn clone(&self) -> (r: Self) {
        Var { name: self.name.clone(), initializer: clone_option(&self.initializer) }
    }
}

impl Clone for Block {
    fn clone(&self) -> (r: Self) {
        Block { statements: clone_list(&self.statements) }
    }
}

impl Clone for If {
    fn clone(&self) -> (r: Self) {
        If {
            condition: self.condition.clone(),
            then_branch: Box::new((*self.then_branch).clone()),
            else_branch: match &self.else_branch {
                Some(branch) => Some(Box::new((**branch).clone())),
                None => None,
            },
        }
    }
}

impl Clone for While {
    fn clone(&self) -> (r: Self) {
        While { condition: self.condition.clone(), body: self.body.clone() }
    }
}

impl Clone for Function {
    fn clone(&self) -> (r: Self) {
        Function {
            name: self.name.clone(),
            parameters: clone_tokens(&self.parameters),
            body: clone_list(&self.body),
        }
    }
}

} // verus!
