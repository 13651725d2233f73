//! The evaluator: walks the trees and does what [`crate::semantics`] says.

use crate::data::{data_text, DataView};
use crate::environment::{undefined_text, Environment};
use crate::expr::{
    expressions_view, lemma_call_view, Assign, Binary, Call, Expr, ExprView, Grouping,
    Logical, Unary, Variable,
};
use crate::scanner::{token_text, Literal, Token, TokenType};
use crate::semantics::{
    binary_result, eval, eval_list, lemma_run_list_names, literal_value, run,
    run_block, run_list, run_loop, unary_result, Evaluated, Ran, State,
};
use crate::stmt::{
    lemma_block_view, statements_view, Block, Expression, If, Print, Stmt, StmtView, Var, While,
};
use vstd::prelude::*;
use vstd::string::StringExecFns;

pub use crate::data::{is_equal, is_truthy, Data};

verus! {

/// Why evaluation stopped.
#[derive(Debug, PartialEq)]
pub enum Error {
    /// A unary operator that asks for a number got something else: the
    /// operator, an empty text, and the operand as text.
    OperandNumberError(Token, String, String),
    /// A binary operator that asks for numbers got something else: the
    /// operator and both operands as text.
    OperandNumbersError(Token, String, String),
    /// `+` got neither two numbers nor two strings.
    AdditionError(Token, String, String),
    /// A name that no scope defines was read or assigned.
    UndefinedVariable(Token),
    /// Something that is no function was called; the token is the closing
    /// parenthesis of the call.
    NotCallable(Token),
    /// A loop went round more often than the interpreter allows.
    LoopLimit,
    /// The tree asks for what the evaluator does not do.
    ValueError,
}

/// An error as plain data.
pub enum ErrorView {
    OperandNumberError(Token, Seq<char>, Seq<char>),
    OperandNumbersError(Token, Seq<char>, Seq<char>),
    AdditionError(Token, Seq<char>, Seq<char>),
    UndefinedVariable(Token),
    NotCallable(Token),
    LoopLimit,
    ValueError,
}

impl View for Error {
    type V = ErrorView;

    open spec fn view(&self) -> ErrorView {
        match self {
            Error::OperandNumberError(token, left, right) => ErrorView::OperandNumberError(
                *token,
                left@,
                right@,
            ),
            Error::OperandNumbersError(token, left, right) => ErrorView::OperandNumbersError(
                *token,
                left@,
                right@,
            ),
            Error::AdditionError(token, left, right) => ErrorView::AdditionError(
                *token,
                left@,
                right@,
            ),
            Error::UndefinedVariable(token) => ErrorView::UndefinedVariable(*token),
            Error::NotCallable(token) => ErrorView::NotCallable(*token),
            Error::LoopLimit => ErrorView::LoopLimit,
            Error::ValueError => ErrorView::ValueError,
        }
    }
}

/// How an error is written.
pub open spec fn error_text(error: ErrorView) -> Seq<char> {
    match error {
        ErrorView::OperandNumberError(token, left, right) => "Operand must be a number. Token: "@
            + token_text(token@) + ", Right: "@ + right,
        ErrorView::OperandNumbersError(token, left, right) => "Operands must be numbers. Token: "@
            + token_text(token@) + ", Left: "@ + left + ", Right: "@ + right,
        ErrorView::AdditionError(token, left, right) =>
            "Operands must be two numbers or two strings. Token: "@ + token_text(token@)
                + ", Left: "@ + left + ", Right: "@ + right,
        ErrorView::UndefinedVariable(token) => undefined_text(token.lexeme@),
        ErrorView::NotCallable(token) => "Can only call functions. Token: "@ + token_text(token@),
        ErrorView::LoopLimit => "Loop limit reached."@,
        ErrorView::ValueError => "error"@,
    }
}

impl Error {
    /// Writes the error.
    pub fn to_text(&self) -> (r: String)
        ensures
            r@ == error_text(self@),
    {
        match self {
            Error::OperandNumberError(token, left, right) => {
                let mut text = String::from_str("Operand must be a number. Token: ");
                text.append(token.to_text().as_str());
                text.append(", Right: ");
                text.append(right.as_str());
                text
            },
            Error::OperandNumbersError(token, left, right) => {
                let mut text = String::from_str("Operands must be numbers. Token: ");
                text.append(token.to_text().as_str());
                text.append(", Left: ");
                text.append(left.as_str());
                text.append(", Right: ");
                text.append(right.as_str());
                text
            },
            Error::AdditionError(token, left, right) => {
                let mut text = String::from_str(
                    "Operands must be two numbers or two strings. Token: ",
                );
                text.append(token.to_text().as_str());
                text.append(", Left: ");
                text.append(left.as_str());
                text.append(", Right: ");
                text.append(right.as_str());
                text
            },
            Error::UndefinedVariable(token) => {
                let mut text = String::from_str("Undefined variable: '");
                text.append(token.lexeme.as_str());
                text.append("'.");
                text
            },
            Error::NotCallable(token) => {
                let mut text = String::from_str("Can only call functions. Token: ");
                text.append(token.to_text().as_str());
                text
            },
            Error::LoopLimit => String::from_str("Loop limit reached."),
            Error::ValueError => String::from_str("error"),
        }
    }
}

/// The value or the error of a result, as plain data.
pub open spec fn result_view(r: Result<Data, Error>) -> Result<DataView, ErrorView> {
    match r {
        Ok(value) => Ok(value@),
        Err(error) => Err(error@),
    }
}

/// The error of a result, if it holds one, as plain data.
pub open spec fn error_view(r: Result<(), Error>) -> Option<ErrorView> {
    match r {
        Ok(_) => None,
        Err(error) => Some(error@),
    }
}

/// A list of values as plain data.
pub open spec fn values_view(values: Seq<Data>) -> Seq<DataView> {
    Seq::new(values.len(), |i: int| values[i]@)
}

/// Applies a unary operator to the value of its operand.
pub fn unary_operation(operator: &Token, right: &Data) -> (r: Result<Data, Error>)
    ensures
        result_view(r) == unary_result(*operator, right@),
{
    match operator.ttype {
        TokenType::Minus => match right {
            Data::Number(number) => Ok(Data::Number(number.neg())),
            _ => Err(Error::OperandNumberError(operator.clone(), String::new(), right.to_text())),
        },
        TokenType::Bang => Ok(Data::Bool(!is_truthy(right.clone()))),
        _ => Err(Error::ValueError),
    }
}

/// The error of a binary operator that asks for numbers and got `left` and
/// `right`.
fn operands_error(operator: &Token, left: &Data, right: &Data) -> (r: Error)
    ensures
        r@ == ErrorView::OperandNumbersError(
            *operator,
            data_text(left@),
            data_text(right@),
        ),
{
    Error::OperandNumbersError(operator.clone(), left.to_text(), right.to_text())
}

/// Applies a binary operator to the values of its operands.
pub fn binary_operation(operator: &Token, left: &Data, right: &Data) -> (r: Result<Data, Error>)
    ensures
        result_view(r) == binary_result(*operator, left@, right@),
{
    match operator.ttype {
        TokenType::Plus => match (left, right) {
            (Data::Number(a), Data::Number(b)) => Ok(Data::Number(a.add(b))),
            (Data::Str(a), Data::Str(b)) => Ok(Data::Str(a.clone().concat(b.as_str()))),
            _ => Err(Error::AdditionError(operator.clone(), left.to_text(), right.to_text())),
        },
        TokenType::Minus => match (left, right) {
            (Data::Number(a), Data::Number(b)) => Ok(Data::Number(a.sub(b))),
            _ => Err(operands_error(operator, left, right)),
        },
        TokenType::Slash => match (left, right) {
            (Data::Number(a), Data::Number(b)) => Ok(Data::Number(a.div(b))),
            _ => Err(operands_error(operator, left, right)),
        },
        TokenType::Star => match (left, right) {
            (Data::Number(a), Data::Number(b)) => Ok(Data::Number(a.mul(b))),
            _ => Err(operands_error(operator, left, right)),
        },
        TokenType::Greater => match (left, right) {
            (Data::Number(a), Data::Number(b)) => Ok(Data::Bool(a.greater(b))),
            _ => Err(operands_error(operator, left, right)),
        },
        TokenType::GreaterEqual => match (left, right) {
            (Data::Number(a), Data::Number(b)) => Ok(Data::Bool(a.greater_equal(b))),
            _ => Err(operands_error(operator, left, right)),
        },
        TokenType::Less => match (left, right) {
            (Data::Number(a), Data::Number(b)) => Ok(Data::Bool(a.less(b))),
            _ => Err(operands_error(operator, left, right)),
        },
        TokenType::LessEqual => match (left, right) {
            (Data::Number(a), Data::Number(b)) => Ok(Data::Bool(a.less_equal(b))),
            _ => Err(operands_error(operator, left, right)),
        },
        TokenType::BangEqual => Ok(Data::Bool(!is_equal(left.clone(), right.clone()))),
        TokenType::EqualEqual => Ok(Data::Bool(is_equal(left.clone(), right.clone()))),
        _ => Err(Error::ValueError),
    }
}

/// The evaluator's state: the current scope chain, the text printed so far,
/// and how often a single loop may go round.
///
/// Evaluation is recursive: a tree is walked to the depth of its nesting,
/// and the stack of the host bounds that depth. Running out of it is no
/// error that can be caught.
#[derive(Debug)]
pub struct Interpreter {
    pub env: Environment,
    pub repl: bool,
    pub output: String,
    pub loop_limit: u64,
}

impl Clone for Interpreter {
    fn clone(&self) -> (r: Self)
        ensures
            r@ == self@,
            r.repl == self.repl,
            r.loop_limit == self.loop_limit,
    {
        Interpreter {
            env: self.env.clone(),
            repl: self.repl,
            output: self.output.clone(),
            loop_limit: self.loop_limit,
        }
    }
}

impl View for Interpreter {
    type V = State;

    open spec fn view(&self) -> State {
        State { env: self.env@, output: self.output@ }
    }
}

impl Interpreter {
    /// An interpreter with one empty scope and nothing printed.
    pub fn new(repl: bool, loop_limit: u64) -> (r: Interpreter)
        ensures
            r@ == (State { env: seq![Map::<Seq<char>, DataView>::empty()], output: Seq::empty() }),
            r.repl == repl,
            r.loop_limit == loop_limit,
    {
        Interpreter { env: Environment::new(), repl, output: String::new(), loop_limit }
    }

    /// `after` and `r` are what evaluation `e` makes of `before`: only the
    /// scope chain changes.
    pub open spec fn evaluated(
        before: Interpreter,
        after: Interpreter,
        r: Result<Data, Error>,
        e: Evaluated,
    ) -> bool {
        &&& result_view(r) == e.value
        &&& after.env@ == e.env
        &&& after.output == before.output
        &&& after.repl == before.repl
        &&& after.loop_limit == before.loop_limit
    }

    /// `after` and `r` are what execution `m` makes of `before`.
    pub open spec fn ran(before: Interpreter, after: Interpreter, r: Result<(), Error>, m: Ran) -> bool {
        &&& error_view(r) == m.error
        &&& after@ == m.state
        &&& after.repl == before.repl
        &&& after.loop_limit == before.loop_limit
    }

    /// Executes the statements in order and stops at the first error.
    pub fn interpret(&mut self, statements: Vec<Stmt>) -> (r: Result<(), Error>)
        ensures
            Self::ran(
                *old(self),
                *final(self),
                r,
                run_list(
                    statements_view(statements@),
                    0,
                    old(self)@,
                    old(self).loop_limit as nat,
                ),
            ),
    {
        self.execute_list(&statements)
    }

    /// Evaluates an expression in the current scope chain.
    pub fn evaluate(&mut self, expr: &Expr) -> (r: Result<Data, Error>)
        ensures
            Self::evaluated(*old(self), *final(self), r, eval(expr@, old(self).env@)),
        decreases expr,
    {
        match expr {
            Expr::Binary(e) => self.evaluate_binary(&**e),
            Expr::Grouping(e) => self.evaluate_grouping(&**e),
            Expr::Literal(literal) => self.evaluate_literal(literal.clone()),
            Expr::Unary(e) => self.evaluate_unary(&**e),
            Expr::Variable(e) => self.evaluate_variable_expr(&**e),
            Expr::Assign(e) => self.evaluate_assign_expr(&**e),
            Expr::Logical(e) => self.evaluate_logical_expr(&**e),
            Expr::Call(e) => {
                proof {
                    lemma_call_view(**e);
                }
                self.evaluate_call_expr(&**e)
            },
        }
    }

    /// Executes a statement in the current state.
    pub fn execute(&mut self, stmt: &Stmt) -> (r: Result<(), Error>)
        ensures
            Self::ran(
                *old(self),
                *final(self),
                r,
                run(stmt@, old(self)@, old(self).loop_limit as nat),
            ),
        decreases stmt,
    {
        match stmt {
            Stmt::Expression(s) => self.evaluate_expression_stmt(s),
            Stmt::Print(s) => self.evaluate_print_stmt(s),
            Stmt::Var(s) => self.evaluate_var_stmt(s),
            Stmt::Block(s) => {
                proof {
                    lemma_block_view(*s);
                }
                self.evaluate_block_stmt(s)
            },
            Stmt::If(s) => self.evaluate_if_stmt(s),
            Stmt::While(s) => self.evaluate_while_stmt(&**s),
            Stmt::Function(_) => Err(Error::ValueError),
        }
    }

    /// Executes the statements of a list in the current scope.
    #[verifier::rlimit(50)]
    fn execute_list(&mut self, statements: &Vec<Stmt>) -> (r: Result<(), Error>)
        ensures
            Self::ran(
                *old(self),
                *final(self),
                r,
                run_list(
                    statements_view(statements@),
                    0,
                    old(self)@,
                    old(self).loop_limit as nat,
                ),
            ),
        decreases statements, 0nat,
    {
        let ghost list = statements_view(statements@);
        let ghost start = self@;
        let ghost limit = self.loop_limit as nat;
        let mut i: usize = 0;
        while i < statements.len()
            invariant
                i <= statements@.len(),
                start == old(self)@,
                list == statements_view(statements@),
                limit == self.loop_limit,
                self.loop_limit == old(self).loop_limit,
                self.repl == old(self).repl,
                run_list(list, i as nat, self@, limit) == run_list(list, 0, start, limit),
            decreases statements@.len() - i,
        {
            match self.execute(&statements[i]) {
                Ok(_) => {},
                Err(error) => {
                    return Err(error);
                },
            }
            i += 1;
        }
        Ok(())
    }

    /// Executes the statements of a block in a scope of their own.
    #[verifier::rlimit(50)]
    fn execute_block(&mut self, statements: &Vec<Stmt>) -> (r: Result<(), Error>)
        ensures
            Self::ran(
                *old(self),
                *final(self),
                r,
                run_block(statements_view(statements@), old(self)@, old(self).loop_limit as nat),
            ),
        decreases statements, 1nat,
    {
        let ghost outside = self@;
        let mut scope = Environment::new();
        proof {
            self.env.lemma_chain();
        }
        std::mem::swap(&mut self.env, &mut scope);
        self.env.enclosing = Some(Box::new(scope));
        proof {
            self.env.lemma_chain();
            assert(self.env@ =~= seq![Map::<Seq<char>, DataView>::empty()] + outside.env);
        }
        let ghost inside = self@;
        let r = self.execute_list(statements);
        proof {
            lemma_run_list_names(
                statements_view(statements@),
                0,
                inside,
                self.loop_limit as nat,
            );
            self.env.lemma_chain();
        }
        match self.env.enclosing.take() {
            Some(outer) => {
                self.env = *outer;
            },
            None => {},
        }
        r
    }

    fn evaluate_block_stmt(&mut self, stmt: &Block) -> (r: Result<(), Error>)
        ensures
            Self::ran(
                *old(self),
                *final(self),
                r,
                run_block(
                    statements_view(stmt.statements@),
                    old(self)@,
                    old(self).loop_limit as nat,
                ),
            ),
        decreases stmt,
    {
        self.execute_block(&stmt.statements)
    }

    fn evaluate_expression_stmt(&mut self, stmt: &Expression) -> (r: Result<(), Error>)
        ensures
            Self::ran(
                *old(self),
                *final(self),
                r,
                run(
                    (StmtView::Expression { expression: stmt.expression@ }),
                    old(self)@,
                    old(self).loop_limit as nat,
                ),
            ),
    {
        match self.evaluate(&stmt.expression) {
            Ok(_) => Ok(()),
            Err(error) => Err(error),
        }
    }

    fn evaluate_if_stmt(&mut self, stmt: &If) -> (r: Result<(), Error>)
        ensures
            Self::ran(
                *old(self),
                *final(self),
                r,
                run((Stmt::If(*stmt))@, old(self)@, old(self).loop_limit as nat),
            ),
        decreases stmt,
    {
        match self.evaluate(&stmt.condition) {
            Ok(value) => {
                if is_truthy(value) {
                    self.execute(&*stmt.then_branch)
                } else {
                    match &stmt.else_branch {
                        Some(branch) => self.execute(&**branch),
                        None => Ok(()),
                    }
                }
            },
            Err(error) => Err(error),
        }
    }

    fn evaluate_print_stmt(&mut self, stmt: &Print) -> (r: Result<(), Error>)
        ensures
            Self::ran(
                *old(self),
                *final(self),
                r,
                run(
                    (StmtView::Print { expression: stmt.expression@ }),
                    old(self)@,
                    old(self).loop_limit as nat,
                ),
            ),
    {
        match self.evaluate(&stmt.expression) {
            Ok(value) => {
                let text = value.to_text();
                self.output.append(text.as_str());
                self.output.append("\n");
                proof {
                    reveal_strlit("\n");
                    assert("\n"@ =~= seq!['\n']);
                }
                Ok(())
            },
            Err(error) => Err(error),
        }
    }

    fn evaluate_var_stmt(&mut self, stmt: &Var) -> (r: Result<(), Error>)
        ensures
            Self::ran(
                *old(self),
                *final(self),
                r,
                run((Stmt::Var(*stmt))@, old(self)@, old(self).loop_limit as nat),
            ),
    {
        let value: Data = match &stmt.initializer {
            Some(expression) => match self.evaluate(expression) {
                Ok(value) => value,
                Err(error) => {
                    return Err(error);
                },
            },
            None => Data::Nil,
        };
        self.env.define(stmt.name.lexeme.clone(), value);
        Ok(())
    }

    #[verifier::rlimit(50)]
    fn evaluate_while_stmt(&mut self, stmt: &While) -> (r: Result<(), Error>)
        ensures
            Self::ran(
                *old(self),
                *final(self),
                r,
                run_loop(
                    stmt.condition@,
                    stmt.body@,
                    old(self)@,
                    old(self).loop_limit as nat,
                    old(self).loop_limit as nat,
                ),
            ),
        decreases stmt,
    {
        let ghost start = self@;
        let ghost limit = self.loop_limit as nat;
        let mut rounds: u64 = self.loop_limit;
        loop
            invariant
                start == old(self)@,
                limit == self.loop_limit,
                self.loop_limit == old(self).loop_limit,
                self.repl == old(self).repl,
                run_loop(stmt.condition@, stmt.body@, self@, rounds as nat, limit) == run_loop(
                    stmt.condition@,
                    stmt.body@,
                    start,
                    limit,
                    limit,
                ),
            decreases rounds,
        {
            match self.evaluate(&stmt.condition) {
                Ok(value) => {
                    if !is_truthy(value) {
                        return Ok(());
                    }
                    if rounds == 0 {
                        return Err(Error::LoopLimit);
                    }
                    match self.execute(&stmt.body) {
                        Ok(_) => {},
                        Err(error) => {
                            return Err(error);
                        },
                    }
                    rounds -= 1;
                },
                Err(error) => {
                    return Err(error);
                },
            }
        }
    }

    fn evaluate_assign_expr(&mut self, expr: &Assign) -> (r: Result<Data, Error>)
        ensures
            Self::evaluated(
                *old(self),
                *final(self),
                r,
                eval(
                    (ExprView::Assign { name: expr.name, value: Box::new(expr.value@) }),
                    old(self).env@,
                ),
            ),
        decreases expr,
    {
        match self.evaluate(&expr.value) {
            Ok(value) => match self.env.assign(&expr.name, &value) {
                Ok(_) => Ok(value),
                Err(_) => Err(Error::UndefinedVariable(expr.name.clone())),
            },
            Err(error) => Err(error),
        }
    }

    fn evaluate_binary(&mut self, expr: &Binary) -> (r: Result<Data, Error>)
        ensures
            Self::evaluated(
                *old(self),
                *final(self),
                r,
                eval(
                    (ExprView::Binary {
                        left: Box::new(expr.left@),
                        operator: expr.operator,
                        right: Box::new(expr.right@),
                    }),
                    old(self).env@,
                ),
            ),
        decreases expr,
    {
        match self.evaluate(&expr.left) {
            Ok(left) => match self.evaluate(&expr.right) {
                Ok(right) => binary_operation(&expr.operator, &left, &right),
                Err(error) => Err(error),
            },
            Err(error) => Err(error),
        }
    }

    #[verifier::rlimit(50)]
    fn evaluate_call_expr(&mut self, expr: &Call) -> (r: Result<Data, Error>)
        ensures
            Self::evaluated(
                *old(self),
                *final(self),
                r,
                eval(
                    (ExprView::Call {
                        callee: Box::new(expr.callee@),
                        paren: expr.paren,
                        arguments: expressions_view(expr.arguments@),
                    }),
                    old(self).env@,
                ),
            ),
        decreases expr,
    {
        let callee: Data = match self.evaluate(&expr.callee) {
            Ok(value) => value,
            Err(error) => {
                return Err(error);
            },
        };
        let ghost list = expressions_view(expr.arguments@);
        let ghost start = self.env@;
        let mut arguments: Vec<Data> = Vec::new();
        let mut i: usize = 0;
        assert(values_view(arguments@) =~= Seq::empty());
        while i < expr.arguments.len()
            invariant
                i <= expr.arguments@.len(),
                list == expressions_view(expr.arguments@),
                eval(expr.callee@, old(self).env@) == (Evaluated { value: Ok(callee@), env: start }),
                self.output == old(self).output,
                self.loop_limit == old(self).loop_limit,
                self.repl == old(self).repl,
                eval_list(list, i as nat, values_view(arguments@), self.env@) == eval_list(
                    list,
                    0,
                    Seq::empty(),
                    start,
                ),
            decreases expr.arguments@.len() - i,
        {
            let ghost collected = values_view(arguments@);
            match self.evaluate(&expr.arguments[i]) {
                Ok(value) => {
                    arguments.push(value);
                    assert(values_view(arguments@) =~= collected.push(value@));
                },
                Err(error) => {
                    return Err(error);
                },
            }
            i += 1;
        }
        match callee {
            Data::Func => Err(Error::ValueError),
            _ => Err(Error::NotCallable(expr.paren.clone())),
        }
    }

    fn evaluate_literal(&mut self, literal: Literal) -> (r: Result<Data, Error>)
        ensures
            Self::evaluated(
                *old(self),
                *final(self),
                r,
                (Evaluated { value: literal_value(literal), env: old(self).env@ }),
            ),
    {
        match literal {
            Literal::Str(text) => Ok(Data::Str(text)),
            Literal::Number(number) => Ok(Data::Number(number)),
            Literal::Bool(value) => Ok(Data::Bool(value)),
            Literal::Nil => Ok(Data::Nil),
            Literal::Identifier(_) => Err(Error::ValueError),
        }
    }

    fn evaluate_logical_expr(&mut self, expr: &Logical) -> (r: Result<Data, Error>)
        ensures
            Self::evaluated(
                *old(self),
                *final(self),
                r,
                eval(
                    (ExprView::Logical {
                        left: Box::new(expr.left@),
                        operator: expr.operator,
                        right: Box::new(expr.right@),
                    }),
                    old(self).env@,
                ),
            ),
        decreases expr,
    {
        match self.evaluate(&expr.left) {
            Ok(left) => match expr.operator.ttype {
                TokenType::Or => if is_truthy(left.clone()) {
                    Ok(left)
                } else {
                    self.evaluate(&expr.right)
                },
                TokenType::And => if !is_truthy(left.clone()) {
                    Ok(left)
                } else {
                    self.evaluate(&expr.right)
                },
                _ => Err(Error::ValueError),
            },
            Err(error) => Err(error),
        }
    }

    fn evaluate_grouping(&mut self, grouping: &Grouping) -> (r: Result<Data, Error>)
        ensures
            Self::evaluated(
                *old(self),
                *final(self),
                r,
                eval(grouping.expression@, old(self).env@),
            ),
        decreases grouping,
    {
        self.evaluate(&grouping.expression)
    }

    fn evaluate_unary(&mut self, expr: &Unary) -> (r: Result<Data, Error>)
        ensures
            Self::evaluated(
                *old(self),
                *final(self),
                r,
                eval(
                    (ExprView::Unary { operator: expr.operator, right: Box::new(expr.right@) }),
                    old(self).env@,
                ),
            ),
        decreases expr,
    {
        match self.evaluate(&expr.right) {
            Ok(right) => unary_operation(&expr.operator, &right),
            Err(error) => Err(error),
        }
    }

    fn evaluate_variable_expr(&mut self, expr: &Variable) -> (r: Result<Data, Error>)
        ensures
            Self::evaluated(
                *old(self),
                *final(self),
                r,
                eval((ExprView::Variable { name: expr.name }), old(self).env@),
            ),
    {
        match self.env.get(&expr.name) {
            Ok(value) => Ok(value),
            Err(_) => Err(Error::UndefinedVariable(expr.name.clone())),
        }
    }
}

} // verus!
