//! What evaluation means: expressions and statements as functions on
//! scope chains and output, defined on the trees themselves.

use crate::data::{data_text, equal_values, truthy, DataView};
use crate::environment::{
    assigned, defined, lemma_assign_needs_definition, lookup, Scope,
};
use crate::expr::ExprView;
use crate::interpreter::ErrorView;
use crate::number::{
    difference_bits, negated, number_le, number_lt, product_bits, quotient_bits, sum_bits, Number,
};
use crate::scanner::{Literal, Token, TokenType};
use crate::stmt::StmtView;
use vstd::prelude::*;

verus! {

/// The result of evaluating an expression: its value or the error that
/// stopped it, and the scope chain it leaves.
pub struct Evaluated {
    pub value: Result<DataView, ErrorView>,
    pub env: Seq<Scope>,
}

/// The result of evaluating a list of arguments in order.
pub struct EvaluatedList {
    pub values: Result<Seq<DataView>, ErrorView>,
    pub env: Seq<Scope>,
}

/// What statements act on: the scope chain and the text printed so far.
pub struct State {
    pub env: Seq<Scope>,
    pub output: Seq<char>,
}

/// The result of executing a statement: the error that stopped it, if one
/// did, and the state it leaves.
pub struct Ran {
    pub error: Option<ErrorView>,
    pub state: State,
}

/// The value of a literal. An identifier is no constant.
pub open spec fn literal_value(literal: Literal) -> Result<DataView, ErrorView> {
    match literal {
        Literal::Str(text) => Ok(DataView::Str(text@)),
        Literal::Number(number) => Ok(DataView::Number(number)),
        Literal::Bool(value) => Ok(DataView::Bool(value)),
        Literal::Nil => Ok(DataView::Nil),
        Literal::Identifier(_) => Err(ErrorView::ValueError),
    }
}

/// A unary operator applied to a value: `-` asks for a number, `!` negates
/// truthiness.
pub open spec fn unary_result(operator: Token, right: DataView) -> Result<DataView, ErrorView> {
    match operator.ttype {
        TokenType::Minus => match right {
            DataView::Number(n) => Ok(DataView::Number(Number { bits: negated(n.bits) })),
            _ => Err(ErrorView::OperandNumberError(operator, Seq::empty(), data_text(right))),
        },
        TokenType::Bang => Ok(DataView::Bool(!truthy(right))),
        _ => Err(ErrorView::ValueError),
    }
}

/// The two operands as numbers, or the error of an operator that asks for
/// numbers.
pub open spec fn number_operands(operator: Token, left: DataView, right: DataView) -> Result<
    (u64, u64),
    ErrorView,
> {
    match (left, right) {
        (DataView::Number(a), DataView::Number(b)) => Ok((a.bits, b.bits)),
        _ => Err(ErrorView::OperandNumbersError(operator, data_text(left), data_text(right))),
    }
}

/// A binary operator applied to two values.
pub open spec fn binary_result(operator: Token, left: DataView, right: DataView) -> Result<
    DataView,
    ErrorView,
> {
    match operator.ttype {
        TokenType::Plus => match (left, right) {
            (DataView::Number(a), DataView::Number(b)) => Ok(
                DataView::Number(Number { bits: sum_bits(a.bits, b.bits) }),
            ),
            (DataView::Str(a), DataView::Str(b)) => Ok(DataView::Str(a + b)),
            _ => Err(ErrorView::AdditionError(operator, data_text(left), data_text(right))),
        },
        TokenType::Minus => match number_operands(operator, left, right) {
            Ok((a, b)) => Ok(DataView::Number(Number { bits: difference_bits(a, b) })),
            Err(e) => Err(e),
        },
        TokenType::Slash => match number_operands(operator, left, right) {
            Ok((a, b)) => Ok(DataView::Number(Number { bits: quotient_bits(a, b) })),
            Err(e) => Err(e),
        },
        TokenType::Star => match number_operands(operator, left, right) {
            Ok((a, b)) => Ok(DataView::Number(Number { bits: product_bits(a, b) })),
            Err(e) => Err(e),
        },
        TokenType::Greater => match number_operands(operator, left, right) {
            Ok((a, b)) => Ok(DataView::Bool(number_lt(b, a))),
            Err(e) => Err(e),
        },
        TokenType::GreaterEqual => match number_operands(operator, left, right) {
            Ok((a, b)) => Ok(DataView::Bool(number_le(b, a))),
            Err(e) => Err(e),
        },
        TokenType::Less => match number_operands(operator, left, right) {
            Ok((a, b)) => Ok(DataView::Bool(number_lt(a, b))),
            Err(e) => Err(e),
        },
        TokenType::LessEqual => match number_operands(operator, left, right) {
            Ok((a, b)) => Ok(DataView::Bool(number_le(a, b))),
            Err(e) => Err(e),
        },
        TokenType::BangEqual => Ok(DataView::Bool(!equal_values(left, right))),
        TokenType::EqualEqual => Ok(DataView::Bool(equal_values(left, right))),
        _ => Err(ErrorView::ValueError),
    }
}

/// What a call gives once callee and arguments are evaluated. Nothing can
/// be invoked: a callee that is no function is refused, and so is a function.
pub open spec fn call_result(callee: DataView, paren: Token) -> Result<DataView, ErrorView> {
    match callee {
        DataView::Func => Err(ErrorView::ValueError),
        _ => Err(ErrorView::NotCallable(paren)),
    }
}

/// The value of an expression in a scope chain.
pub open spec fn eval(e: ExprView, env: Seq<Scope>) -> Evaluated
    decreases e, 0nat,
{
    match e {
        ExprView::Literal { literal } => Evaluated { value: literal_value(literal), env },
        ExprView::Grouping { expression } => eval(*expression, env),
        ExprView::Unary { operator, right } => {
            let r = eval(*right, env);
            match r.value {
                Ok(value) => Evaluated { value: unary_result(operator, value), env: r.env },
                Err(_) => r,
            }
        },
        ExprView::Binary { left, operator, right } => {
            let l = eval(*left, env);
            match l.value {
                Ok(a) => {
                    let r = eval(*right, l.env);
                    match r.value {
                        Ok(b) => Evaluated { value: binary_result(operator, a, b), env: r.env },
                        Err(_) => r,
                    }
                },
                Err(_) => l,
            }
        },
        ExprView::Logical { left, operator, right } => {
            let l = eval(*left, env);
            match l.value {
                Ok(a) => match operator.ttype {
                    TokenType::Or => if truthy(a) {
                        l
                    } else {
                        eval(*right, l.env)
                    },
                    TokenType::And => if !truthy(a) {
                        l
                    } else {
                        eval(*right, l.env)
                    },
                    _ => Evaluated { value: Err(ErrorView::ValueError), env: l.env },
                },
                Err(_) => l,
            }
        },
        ExprView::Variable { name } => match lookup(env, name.lexeme@) {
            Some(value) => Evaluated { value: Ok(value), env },
            None => Evaluated { value: Err(ErrorView::UndefinedVariable(name)), env },
        },
        ExprView::Assign { name, value } => {
            let r = eval(*value, env);
            match r.value {
                Ok(v) => match assigned(r.env, name.lexeme@, v) {
                    Some(env) => Evaluated { value: Ok(v), env },
                    None => Evaluated {
                        value: Err(ErrorView::UndefinedVariable(name)),
                        env: r.env,
                    },
                },
                Err(_) => r,
            }
        },
        ExprView::Call { callee, paren, arguments } => {
            let c = eval(*callee, env);
            match c.value {
                Ok(f) => {
                    let a = eval_list(arguments, 0, Seq::empty(), c.env);
                    match a.values {
                        Ok(_) => Evaluated { value: call_result(f, paren), env: a.env },
                        Err(e) => Evaluated { value: Err(e), env: a.env },
                    }
                },
                Err(_) => c,
            }
        },
    }
}

/// The values of the expressions of `list` from `from` on, evaluated in
/// order and appended to `done`; the first error stops it.
pub open spec fn eval_list(
    list: Seq<ExprView>,
    from: nat,
    done: Seq<DataView>,
    env: Seq<Scope>,
) -> EvaluatedList
    decreases list, list.len() - from,
{
    if from >= list.len() {
        EvaluatedList { values: Ok(done), env }
    } else {
        let e = eval(list[from as int], env);
        match e.value {
            Ok(value) => eval_list(list, from + 1, done.push(value), e.env),
            Err(error) => EvaluatedList { values: Err(error), env: e.env },
        }
    }
}

/// The state with another scope chain.
pub open spec fn with_env(state: State, env: Seq<Scope>) -> State {
    State { env, output: state.output }
}

/// A statement that went through.
pub open spec fn done(state: State) -> Ran {
    Ran { error: None, state }
}

/// A statement that an error stopped.
pub open spec fn failed(error: ErrorView, state: State) -> Ran {
    Ran { error: Some(error), state }
}

/// The effect of a statement. A loop may go round `limit` times. A function
/// declaration has no effect yet: executing one is an error.
pub open spec fn run(s: StmtView, state: State, limit: nat) -> Ran
    decreases s, 0nat,
{
    match s {
        StmtView::Expression { expression } => {
            let e = eval(expression, state.env);
            Ran {
                error: match e.value {
                    Ok(_) => None,
                    Err(error) => Some(error),
                },
                state: with_env(state, e.env),
            }
        },
        StmtView::Print { expression } => {
            let e = eval(expression, state.env);
            match e.value {
                Ok(value) => done(
                    State { env: e.env, output: state.output + data_text(value) + seq!['\n'] },
                ),
                Err(error) => failed(error, with_env(state, e.env)),
            }
        },
        StmtView::Var { name, initializer } => match initializer {
            Some(expression) => {
                let e = eval(expression, state.env);
                match e.value {
                    Ok(value) => done(with_env(state, defined(e.env, name.lexeme@, value))),
                    Err(error) => failed(error, with_env(state, e.env)),
                }
            },
            None => done(with_env(state, defined(state.env, name.lexeme@, DataView::Nil))),
        },
        StmtView::Block { statements } => run_block(statements, state, limit),
        StmtView::If { condition, then_branch, else_branch } => {
            let c = eval(condition, state.env);
            match c.value {
                Ok(value) => if truthy(value) {
                    run(*then_branch, with_env(state, c.env), limit)
                } else {
                    match else_branch {
                        Some(branch) => run(*branch, with_env(state, c.env), limit),
                        None => done(with_env(state, c.env)),
                    }
                },
                Err(error) => failed(error, with_env(state, c.env)),
            }
        },
        StmtView::While { condition, body } => run_loop(condition, *body, state, limit, limit),
        StmtView::Function { name, parameters, body } => failed(ErrorView::ValueError, state),
    }
}

/// The effect of a block: its statements run in a fresh innermost scope,
/// which is dropped at the end whether or not an error stopped them.
pub open spec fn run_block(statements: Seq<StmtView>, state: State, limit: nat) -> Ran
    decreases statements, statements.len() + 1,
{
    let inner = run_list(
        statements,
        0,
        with_env(state, seq![Map::<Seq<char>, DataView>::empty()] + state.env),
        limit,
    );
    Ran { error: inner.error, state: with_env(inner.state, inner.state.env.drop_first()) }
}

/// The effect of the statements of `list` from `from` on, in order; the
/// first error stops them.
pub open spec fn run_list(list: Seq<StmtView>, from: nat, state: State, limit: nat) -> Ran
    decreases list, list.len() - from,
{
    if from >= list.len() {
        done(state)
    } else {
        let r = run(list[from as int], state, limit);
        match r.error {
            None => run_list(list, from + 1, r.state, limit),
            Some(_) => r,
        }
    }
}

/// The effect of a loop that may still go round `rounds` times: the
/// condition is evaluated before every round, and a round that the count
/// does not allow is an error.
pub open spec fn run_loop(
    condition: ExprView,
    body: StmtView,
    state: State,
    rounds: nat,
    limit: nat,
) -> Ran
    decreases body, rounds + 1,
{
    let c = eval(condition, state.env);
    match c.value {
        Ok(value) => if !truthy(value) {
            done(with_env(state, c.env))
        } else if rounds == 0 {
            failed(ErrorView::LoopLimit, with_env(state, c.env))
        } else {
            let r = run(body, with_env(state, c.env), limit);
            match r.error {
                None => run_loop(condition, body, r.state, (rounds - 1) as nat, limit),
                Some(_) => r,
            }
        },
        Err(error) => failed(error, with_env(state, c.env)),
    }
}

/// Short circuit: where the left side of `and` is falsy, or that of `or`
/// truthy, the expression is the left side, value and effects, whatever
/// stands on the right.
pub proof fn lemma_short_circuit(
    left: ExprView,
    operator: Token,
    right: ExprView,
    env: Seq<Scope>,
)
    requires
        eval(left, env).value matches Ok(value) && {
            ||| operator.ttype == TokenType::And && !truthy(value)
            ||| operator.ttype == TokenType::Or && truthy(value)
        },
    ensures
        eval(
            ExprView::Logical { left: Box::new(left), operator, right: Box::new(right) },
            env,
        ) == eval(left, env),
{
}

/// Where short circuit does not apply, a logical expression is its right
/// side, evaluated behind the left: the operand itself, no boolean made of
/// it.
pub proof fn lemma_logical_falls_through(
    left: ExprView,
    operator: Token,
    right: ExprView,
    env: Seq<Scope>,
)
    requires
        eval(left, env).value matches Ok(value) && {
            ||| operator.ttype == TokenType::And && truthy(value)
            ||| operator.ttype == TokenType::Or && !truthy(value)
        },
    ensures
        eval(
            ExprView::Logical { left: Box::new(left), operator, right: Box::new(right) },
            env,
        ) == eval(right, eval(left, env).env),
{
}

/// An error in the left operand stops a binary expression: the right
/// operand is not evaluated, and the error is the expression's.
pub proof fn lemma_error_stops_the_expression(
    left: ExprView,
    operator: Token,
    right: ExprView,
    env: Seq<Scope>,
)
    requires
        eval(left, env).value is Err,
    ensures
        eval(
            ExprView::Binary { left: Box::new(left), operator, right: Box::new(right) },
            env,
        ) == eval(left, env),
        eval(
            ExprView::Logical { left: Box::new(left), operator, right: Box::new(right) },
            env,
        ) == eval(left, env),
{
}

/// An error stops a list of statements: those behind it do not run.
pub proof fn lemma_error_stops_the_list(list: Seq<StmtView>, from: nat, state: State, limit: nat)
    requires
        from < list.len(),
        run(list[from as int], state, limit).error is Some,
    ensures
        run_list(list, from, state, limit) == run(list[from as int], state, limit),
{
}

/// The two chains have the same scopes with the same names in each.
pub open spec fn same_names(after: Seq<Scope>, before: Seq<Scope>) -> bool {
    &&& after.len() == before.len()
    &&& forall|i: int| 0 <= i < before.len() ==> (#[trigger] after[i]).dom() =~= before[i].dom()
}

/// The two chains have the same scopes, with the same names in each but
/// the innermost, which has kept its names and may have gained some.
pub open spec fn names_kept(after: Seq<Scope>, before: Seq<Scope>) -> bool {
    &&& after.len() == before.len()
    &&& before.len() >= 1 ==> before[0].dom().subset_of(after[0].dom())
    &&& forall|i: int| 1 <= i < before.len() ==> (#[trigger] after[i]).dom() =~= before[i].dom()
}

/// Assignment gives no scope a name and takes none away.
pub proof fn lemma_assigned_names(chain: Seq<Scope>, name: Seq<char>, value: DataView)
    ensures
        assigned(chain, name, value) matches Some(after) ==> same_names(after, chain),
{
    lemma_assign_needs_definition(chain, name, value);
}

/// An expression defines nothing: it leaves every scope its names.
pub proof fn lemma_eval_names(e: ExprView, env: Seq<Scope>)
    ensures
        same_names(eval(e, env).env, env),
    decreases e, 0nat,
{
    match e {
        ExprView::Literal { literal } => {},
        ExprView::Grouping { expression } => {
            lemma_eval_names(*expression, env);
        },
        ExprView::Unary { operator, right } => {
            lemma_eval_names(*right, env);
        },
        ExprView::Binary { left, operator, right } => {
            lemma_eval_names(*left, env);
            lemma_eval_names(*right, eval(*left, env).env);
        },
        ExprView::Logical { left, operator, right } => {
            lemma_eval_names(*left, env);
            lemma_eval_names(*right, eval(*left, env).env);
        },
        ExprView::Variable { name } => {},
        ExprView::Assign { name, value } => {
            lemma_eval_names(*value, env);
            let r = eval(*value, env);
            if let Ok(v) = r.value {
                lemma_assigned_names(r.env, name.lexeme@, v);
            }
        },
        ExprView::Call { callee, paren, arguments } => {
            lemma_eval_names(*callee, env);
            lemma_eval_list_names(arguments, 0, Seq::empty(), eval(*callee, env).env);
        },
    }
}

/// A list of expressions defines nothing.
pub proof fn lemma_eval_list_names(
    list: Seq<ExprView>,
    from: nat,
    done: Seq<DataView>,
    env: Seq<Scope>,
)
    ensures
        same_names(eval_list(list, from, done, env).env, env),
    decreases list, list.len() - from,
{
    if from < list.len() {
        lemma_eval_names(list[from as int], env);
        let e = eval(list[from as int], env);
        if let Ok(value) = e.value {
            lemma_eval_list_names(list, from + 1, done.push(value), e.env);
        }
    }
}

/// Lexical scoping: a statement defines names in the innermost scope only,
/// and takes no name from any scope.
pub proof fn lemma_run_names(s: StmtView, state: State, limit: nat)
    requires
        state.env.len() >= 1,
    ensures
        names_kept(run(s, state, limit).state.env, state.env),
    decreases s, 0nat,
{
    match s {
        StmtView::Expression { expression } => {
            lemma_eval_names(expression, state.env);
        },
        StmtView::Print { expression } => {
            lemma_eval_names(expression, state.env);
        },
        StmtView::Var { name, initializer } => {
            if let Some(expression) = initializer {
                lemma_eval_names(expression, state.env);
            }
        },
        StmtView::Block { statements } => {
            lemma_run_block_names(statements, state, limit);
        },
        StmtView::If { condition, then_branch, else_branch } => {
            lemma_eval_names(condition, state.env);
            let c = eval(condition, state.env);
            lemma_run_names(*then_branch, with_env(state, c.env), limit);
            if let Some(branch) = else_branch {
                lemma_run_names(*branch, with_env(state, c.env), limit);
            }
        },
        StmtView::While { condition, body } => {
            lemma_run_loop_names(condition, *body, state, limit, limit);
        },
        StmtView::Function { name, parameters, body } => {},
    }
}

/// What a block defines is gone behind it: a block leaves every scope its
/// names, and gives none a new one.
pub proof fn lemma_run_block_names(statements: Seq<StmtView>, state: State, limit: nat)
    requires
        state.env.len() >= 1,
    ensures
        same_names(run_block(statements, state, limit).state.env, state.env),
    decreases statements, statements.len() + 1,
{
    let inner = with_env(state, seq![Map::<Seq<char>, DataView>::empty()] + state.env);
    lemma_run_list_names(statements, 0, inner, limit);
    let after = run_list(statements, 0, inner, limit).state.env;
    assert forall|i: int| 0 <= i < state.env.len() implies (#[trigger] after.drop_first()[i]).dom()
        =~= state.env[i].dom() by {
        assert(after.drop_first()[i] == after[i + 1]);
        assert(inner.env[i + 1] == state.env[i]);
    }
}

/// A list of statements defines names in the innermost scope only.
pub proof fn lemma_run_list_names(list: Seq<StmtView>, from: nat, state: State, limit: nat)
    requires
        state.env.len() >= 1,
    ensures
        names_kept(run_list(list, from, state, limit).state.env, state.env),
    decreases list, list.len() - from,
{
    if from < list.len() {
        lemma_run_names(list[from as int], state, limit);
        let r = run(list[from as int], state, limit);
        if r.error is None {
            lemma_run_list_names(list, from + 1, r.state, limit);
        }
    }
}

/// A loop defines names in the innermost scope only.
pub proof fn lemma_run_loop_names(
    condition: ExprView,
    body: StmtView,
    state: State,
    rounds: nat,
    limit: nat,
)
    requires
        state.env.len() >= 1,
    ensures
        names_kept(run_loop(condition, body, state, rounds, limit).state.env, state.env),
    decreases body, rounds + 1,
{
    lemma_eval_names(condition, state.env);
    let c = eval(condition, state.env);
    if let Ok(value) = c.value {
        if truthy(value) && rounds > 0 {
            lemma_run_names(body, with_env(state, c.env), limit);
            let r = run(body, with_env(state, c.env), limit);
            if r.error is None {
                lemma_run_loop_names(condition, body, r.state, (rounds - 1) as nat, limit);
            }
        }
    }
}

/// `after` starts with `before`.
pub open spec fn continues(after: Seq<char>, before: Seq<char>) -> bool {
    &&& before.len() <= after.len()
    &&& after.subrange(0, before.len() as int) =~= before
}

/// What is printed stays printed: a statement only appends to the output.
pub proof fn lemma_run_output(s: StmtView, state: State, limit: nat)
    ensures
        continues(run(s, state, limit).state.output, state.output),
    decreases s, 0nat,
{
    match s {
        StmtView::Block { statements } => {
            let inner = with_env(state, seq![Map::<Seq<char>, DataView>::empty()] + state.env);
            lemma_run_list_output(statements, 0, inner, limit);
            assert(run_block(statements, state, limit).state.output == run_list(
                statements,
                0,
                inner,
                limit,
            ).state.output);
        },
        StmtView::If { condition, then_branch, else_branch } => {
            let c = eval(condition, state.env);
            lemma_run_output(*then_branch, with_env(state, c.env), limit);
            if let Some(branch) = else_branch {
                lemma_run_output(*branch, with_env(state, c.env), limit);
            }
        },
        StmtView::While { condition, body } => {
            lemma_run_loop_output(condition, *body, state, limit, limit);
        },
        _ => {},
    }
}

/// A list of statements only appends to the output.
pub proof fn lemma_run_list_output(list: Seq<StmtView>, from: nat, state: State, limit: nat)
    ensures
        continues(run_list(list, from, state, limit).state.output, state.output),
    decreases list, list.len() - from,
{
    if from < list.len() {
        lemma_run_output(list[from as int], state, limit);
        let r = run(list[from as int], state, limit);
        if r.error is None {
            lemma_run_list_output(list, from + 1, r.state, limit);
        }
    }
}

/// A loop only appends to the output.
pub proof fn lemma_run_loop_output(
    condition: ExprView,
    body: StmtView,
    state: State,
    rounds: nat,
    limit: nat,
)
    ensures
        continues(run_loop(condition, body, state, rounds, limit).state.output, state.output),
    decreases body, rounds + 1,
{
    let c = eval(condition, state.env);
    if let Ok(value) = c.value {
        if truthy(value) && rounds > 0 {
            lemma_run_output(body, with_env(state, c.env), limit);
            let r = run(body, with_env(state, c.env), limit);
            if r.error is None {
                lemma_run_loop_output(condition, body, r.state, (rounds - 1) as nat, limit);
            }
        }
    }
}

} // verus!
