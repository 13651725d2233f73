//! What the grammar reports: diagnostics are only ever appended, a
//! construct that fails has reported at least one, a statement that lacks
//! nothing but its semicolon reports exactly one, and a program reports no
//! more diagnostics than it has tokens.

use crate::expr::ExprView;
use crate::grammar::{
    arguments, assignment, at_end, block, block_items, call, call_rest, chain, chain_rest, check,
    condition, declaration, expression, expression_statement, finish_call, for_clause,
    for_initializer, for_statement, function, if_statement, is_operator, join, note_at, operand,
    parameters, primary, print_statement, program, remaining, signature, skipped,
    starts_statement, statement, step, synchronized, terminated, unary, var_declaration,
    while_statement, Parsed, FACTOR, MAX_ARITY, OR,
};
use crate::scanner::{DiagnosticView, Token, TokenType};
use crate::stmt::StmtView;
use vstd::prelude::*;

verus! {

/// `after` holds the diagnostics of `before`, in their order, and maybe
/// more behind them.
pub open spec fn extends(after: Seq<DiagnosticView>, before: Seq<DiagnosticView>) -> bool {
    &&& before.len() <= after.len()
    &&& forall|i: int| 0 <= i < before.len() ==> after[i] == before[i]
}

/// What was parsed kept the diagnostics it was given, and reported where it
/// failed.
pub open spec fn reported<T>(before: Seq<DiagnosticView>, parsed: Parsed<T>) -> bool {
    &&& extends(parsed.notes, before)
    &&& parsed.value is None ==> parsed.notes.len() > before.len()
}

/// The number of diagnostics that parsing added to those it was given.
pub open spec fn added<T>(before: Seq<DiagnosticView>, parsed: Parsed<T>) -> int {
    parsed.notes.len() - before.len()
}

/// What was parsed stayed within the tokens.
pub open spec fn within(tokens: Seq<Token>, pos: nat, used: nat) -> bool {
    pos <= tokens.len() ==> pos + used <= tokens.len()
}

/// Every diagnostic is paid for by a token. What succeeded consumed a token
/// more than it reported; what failed reported at most one diagnostic more
/// than it consumed, and where it began before the end of the input and
/// failed at the end, none more: the one that is owed otherwise is paid by
/// the token that recovery consumes.
pub open spec fn paid<T>(
    tokens: Seq<Token>,
    pos: nat,
    before: Seq<DiagnosticView>,
    parsed: Parsed<T>,
) -> bool {
    &&& within(tokens, pos, parsed.used)
    &&& parsed.value is Some ==> added(before, parsed) + 1 <= parsed.used
    &&& parsed.value is None ==> added(before, parsed) <= parsed.used + 1
    &&& parsed.value is None && !at_end(tokens, pos) && at_end(tokens, pos + parsed.used)
        ==> added(before, parsed) <= parsed.used
}

/// The same of what may succeed without consuming anything: it reported
/// nothing then.
pub open spec fn paid_rest<T>(
    tokens: Seq<Token>,
    pos: nat,
    before: Seq<DiagnosticView>,
    parsed: Parsed<T>,
) -> bool {
    &&& within(tokens, pos, parsed.used)
    &&& parsed.value is Some ==> added(before, parsed) <= parsed.used
    &&& parsed.value is Some && parsed.used >= 1 ==> added(before, parsed) + 1 <= parsed.used
    &&& parsed.value is None ==> added(before, parsed) <= parsed.used + 1
    &&& parsed.value is None && !at_end(tokens, pos) && at_end(tokens, pos + parsed.used)
        ==> added(before, parsed) <= parsed.used
}

/// The same of a list that goes on behind `count` items: an item beyond
/// [`MAX_ARITY`] brings a diagnostic of its own.
pub open spec fn paid_list<T>(
    tokens: Seq<Token>,
    pos: nat,
    before: Seq<DiagnosticView>,
    parsed: Parsed<T>,
    count: nat,
) -> bool {
    let extra: int = if count >= MAX_ARITY {
        1
    } else {
        0
    };
    &&& within(tokens, pos, parsed.used)
    &&& parsed.value is Some ==> added(before, parsed) + 1 <= parsed.used + extra
    &&& parsed.value is None ==> added(before, parsed) <= parsed.used + 1 + extra
    &&& parsed.value is None && !at_end(tokens, pos) && at_end(tokens, pos + parsed.used)
        ==> added(before, parsed) <= parsed.used + extra
}

/// Recovery stays within the tokens, and consumes one where the input has
/// not ended.
pub proof fn lemma_synchronized(tokens: Seq<Token>, pos: nat)
    ensures
        within(tokens, pos, synchronized(tokens, pos)),
        !at_end(tokens, pos) ==> synchronized(tokens, pos) >= 1,
        at_end(tokens, pos) ==> synchronized(tokens, pos) == 0,
{
    if !at_end(tokens, pos) {
        lemma_skipped(tokens, pos + 1);
    }
}

/// What recovery skips lies within the tokens.
pub proof fn lemma_skipped(tokens: Seq<Token>, pos: nat)
    ensures
        within(tokens, pos, skipped(tokens, pos)),
    decreases remaining(tokens, pos),
{
    reveal(skipped);
    if !at_end(tokens, pos) && !(pos >= 1 && tokens[pos - 1].ttype == TokenType::Semicolon)
        && !starts_statement(tokens[pos as int].ttype) {
        lemma_skipped(tokens, pos + 1);
    }
}

/// A primary expression keeps the diagnostics it was given, and reports where it fails.
pub proof fn lemma_primary(tokens: Seq<Token>, pos: nat, notes: Seq<DiagnosticView>)
    ensures
        reported(notes, primary(tokens, pos, notes)),
        paid(tokens, pos, notes, primary(tokens, pos, notes)),
    decreases remaining(tokens, pos), 1nat,
{
    reveal(primary);
    reveal(expression);
    if check(tokens, pos, TokenType::LeftParen) {
        lemma_expression(tokens, pos + 1, notes);
    }
}

/// An argument list keeps the diagnostics it was given, and reports where it fails.
pub proof fn lemma_arguments(
    tokens: Seq<Token>,
    pos: nat,
    notes: Seq<DiagnosticView>,
    done: Seq<ExprView>,
)
    ensures
        reported(notes, arguments(tokens, pos, notes, done)),
        paid_list(tokens, pos, notes, arguments(tokens, pos, notes, done), done.len()),
    decreases remaining(tokens, pos), 22nat,
{
    reveal(arguments);
    reveal(expression);
    let noted = if done.len() >= MAX_ARITY {
        notes.push(note_at(tokens, pos, "Can't have more than 255 arguments."@))
    } else {
        notes
    };
    lemma_expression(tokens, pos, noted);
    let first = expression(tokens, pos, noted);
    if let Some(e) = first.value {
        if check(tokens, pos + first.used, TokenType::Comma) {
            lemma_arguments(tokens, pos + first.used + 1, first.notes, done.push(e));
        }
    }
}

/// The rest of a call keeps the diagnostics it was given, and reports where it fails.
pub proof fn lemma_finish_call(
    tokens: Seq<Token>,
    pos: nat,
    notes: Seq<DiagnosticView>,
    callee: ExprView,
)
    ensures
        reported(notes, finish_call(tokens, pos, notes, callee)),
        paid(tokens, pos, notes, finish_call(tokens, pos, notes, callee)),
    decreases remaining(tokens, pos), 23nat,
{
    reveal(finish_call);
    reveal(arguments);
    if !check(tokens, pos, TokenType::RightParen) {
        lemma_arguments(tokens, pos, notes, Seq::empty());
    }
}

/// A row of calls keeps the diagnostics it was given, and reports where it fails.
pub proof fn lemma_call_rest(
    tokens: Seq<Token>,
    pos: nat,
    notes: Seq<DiagnosticView>,
    callee: ExprView,
)
    ensures
        reported(notes, call_rest(tokens, pos, notes, callee)),
        paid_rest(tokens, pos, notes, call_rest(tokens, pos, notes, callee)),
    decreases remaining(tokens, pos), 0nat,
{
    reveal(call_rest);
    reveal(finish_call);
    if check(tokens, pos, TokenType::LeftParen) {
        lemma_finish_call(tokens, pos + 1, notes, callee);
        let one = finish_call(tokens, pos + 1, notes, callee);
        if let Some(e) = one.value {
            lemma_call_rest(tokens, pos + 1 + one.used, one.notes, e);
        }
    }
}

/// A call expression keeps the diagnostics it was given, and reports where it fails.
pub proof fn lemma_call(tokens: Seq<Token>, pos: nat, notes: Seq<DiagnosticView>)
    ensures
        reported(notes, call(tokens, pos, notes)),
        paid(tokens, pos, notes, call(tokens, pos, notes)),
    decreases remaining(tokens, pos), 2nat,
{
    reveal(call);
    reveal(call_rest);
    reveal(primary);
    lemma_primary(tokens, pos, notes);
    let callee = primary(tokens, pos, notes);
    if let Some(e) = callee.value {
        lemma_call_rest(tokens, pos + callee.used, callee.notes, e);
    }
}

/// A unary expression keeps the diagnostics it was given, and reports where it fails.
pub proof fn lemma_unary(tokens: Seq<Token>, pos: nat, notes: Seq<DiagnosticView>)
    ensures
        reported(notes, unary(tokens, pos, notes)),
        paid(tokens, pos, notes, unary(tokens, pos, notes)),
    decreases remaining(tokens, pos), 3nat,
{
    reveal(unary);
    reveal(call);
    if check(tokens, pos, TokenType::Bang) || check(tokens, pos, TokenType::Minus) {
        lemma_unary(tokens, pos + 1, notes);
    } else {
        lemma_call(tokens, pos, notes);
    }
}

/// An operand of any level keeps the diagnostics it was given, and reports where it
/// fails.
pub proof fn lemma_operand(tokens: Seq<Token>, pos: nat, notes: Seq<DiagnosticView>, level: nat)
    ensures
        reported(notes, operand(tokens, pos, notes, level)),
        paid(tokens, pos, notes, operand(tokens, pos, notes, level)),
    decreases remaining(tokens, pos), 2 * level + 4,
{
    reveal(operand);
    reveal(unary);
    reveal(chain);
    if level <= FACTOR {
        lemma_unary(tokens, pos, notes);
    } else {
        lemma_chain((level - 1) as nat, tokens, pos, notes);
    }
}

/// The rest of a chain keeps the diagnostics it was given, and reports where it fails.
pub proof fn lemma_chain_rest(
    level: nat,
    tokens: Seq<Token>,
    pos: nat,
    notes: Seq<DiagnosticView>,
    left: ExprView,
)
    ensures
        reported(notes, chain_rest(level, tokens, pos, notes, left)),
        paid_rest(tokens, pos, notes, chain_rest(level, tokens, pos, notes, left)),
    decreases remaining(tokens, pos), 0nat,
{
    reveal(chain_rest);
    reveal(operand);
    if !at_end(tokens, pos) && is_operator(level, tokens[pos as int].ttype) {
        lemma_operand(tokens, pos + 1, notes, level);
        let right = operand(tokens, pos + 1, notes, level);
        if let Some(e) = right.value {
            lemma_chain_rest(
                level,
                tokens,
                pos + 1 + right.used,
                right.notes,
                join(level, left, tokens[pos as int], e),
            );
        }
    }
}

/// A chain of any level keeps the diagnostics it was given, and reports where it fails.
pub proof fn lemma_chain(level: nat, tokens: Seq<Token>, pos: nat, notes: Seq<DiagnosticView>)
    ensures
        reported(notes, chain(level, tokens, pos, notes)),
        paid(tokens, pos, notes, chain(level, tokens, pos, notes)),
    decreases remaining(tokens, pos), 2 * level + 5,
{
    reveal(chain);
    reveal(chain_rest);
    reveal(operand);
    lemma_operand(tokens, pos, notes, level);
    let first = operand(tokens, pos, notes, level);
    if let Some(e) = first.value {
        lemma_chain_rest(level, tokens, pos + first.used, first.notes, e);
    }
}

/// An assignment keeps the diagnostics it was given, and reports where it fails.
pub proof fn lemma_assignment(tokens: Seq<Token>, pos: nat, notes: Seq<DiagnosticView>)
    ensures
        reported(notes, assignment(tokens, pos, notes)),
        paid(tokens, pos, notes, assignment(tokens, pos, notes)),
    decreases remaining(tokens, pos), 20nat,
{
    reveal(assignment);
    reveal(chain);
    lemma_chain(OR as nat, tokens, pos, notes);
    let target = chain(OR as nat, tokens, pos, notes);
    if target.value is Some && check(tokens, pos + target.used, TokenType::Equal) {
        lemma_assignment(tokens, pos + target.used + 1, target.notes);
    }
}

/// An expression keeps the diagnostics it was given, and reports where it fails.
pub proof fn lemma_expression(tokens: Seq<Token>, pos: nat, notes: Seq<DiagnosticView>)
    ensures
        reported(notes, expression(tokens, pos, notes)),
        paid(tokens, pos, notes, expression(tokens, pos, notes)),
    decreases remaining(tokens, pos), 21nat,
{
    reveal(expression);
    reveal(assignment);
    lemma_assignment(tokens, pos, notes);
}

/// An expression with its semicolon keeps the diagnostics it was given, and reports
/// where it fails.
pub proof fn lemma_terminated(
    tokens: Seq<Token>,
    pos: nat,
    notes: Seq<DiagnosticView>,
    message: Seq<char>,
)
    ensures
        reported(notes, terminated(tokens, pos, notes, message)),
        paid(tokens, pos, notes, terminated(tokens, pos, notes, message)),
    decreases remaining(tokens, pos), 22nat,
{
    reveal(expression);
    lemma_expression(tokens, pos, notes);
}

/// A condition in parentheses keeps the diagnostics it was given, and reports where it
/// fails.
pub proof fn lemma_condition(
    tokens: Seq<Token>,
    pos: nat,
    notes: Seq<DiagnosticView>,
    before: Seq<char>,
    after: Seq<char>,
)
    ensures
        reported(notes, condition(tokens, pos, notes, before, after)),
        paid(tokens, pos, notes, condition(tokens, pos, notes, before, after)),
    decreases remaining(tokens, pos), 22nat,
{
    reveal(expression);
    if check(tokens, pos, TokenType::LeftParen) {
        lemma_expression(tokens, pos + 1, notes);
    }
}

/// A clause of a for statement keeps the diagnostics it was given, and reports where
/// it fails.
pub proof fn lemma_for_clause(
    tokens: Seq<Token>,
    pos: nat,
    notes: Seq<DiagnosticView>,
    end: TokenType,
    message: Seq<char>,
)
    ensures
        reported(notes, for_clause(tokens, pos, notes, end, message)),
        paid(tokens, pos, notes, for_clause(tokens, pos, notes, end, message)),
    decreases remaining(tokens, pos), 22nat,
{
    reveal(expression);
    if !check(tokens, pos, end) {
        lemma_expression(tokens, pos, notes);
    }
}

/// An expression statement keeps the diagnostics it was given, and reports where it
/// fails.
pub proof fn lemma_expression_statement(tokens: Seq<Token>, pos: nat, notes: Seq<DiagnosticView>)
    ensures
        reported(notes, expression_statement(tokens, pos, notes)),
        paid(tokens, pos, notes, expression_statement(tokens, pos, notes)),
    decreases remaining(tokens, pos), 23nat,
{
    reveal(expression_statement);
    lemma_terminated(tokens, pos, notes, "Expect ';' after value."@);
}

/// A print statement keeps the diagnostics it was given, and reports where it fails.
pub proof fn lemma_print_statement(tokens: Seq<Token>, pos: nat, notes: Seq<DiagnosticView>)
    ensures
        reported(notes, print_statement(tokens, pos, notes)),
        paid(tokens, pos, notes, print_statement(tokens, pos, notes)),
    decreases remaining(tokens, pos), 23nat,
{
    reveal(print_statement);
    lemma_terminated(tokens, pos, notes, "Expect ';' after value."@);
}

/// A variable declaration keeps the diagnostics it was given, and reports where it
/// fails.
pub proof fn lemma_var_declaration(tokens: Seq<Token>, pos: nat, notes: Seq<DiagnosticView>)
    ensures
        reported(notes, var_declaration(tokens, pos, notes)),
        paid(tokens, pos, notes, var_declaration(tokens, pos, notes)),
    decreases remaining(tokens, pos), 23nat,
{
    reveal(var_declaration);
    if check(tokens, pos, TokenType::Identifier) && check(tokens, pos + 1, TokenType::Equal) {
        lemma_terminated(tokens, pos + 2, notes, "Expect ';' after variable declaration."@);
    }
}

/// A while statement keeps the diagnostics it was given, and reports where it fails.
pub proof fn lemma_while_statement(tokens: Seq<Token>, pos: nat, notes: Seq<DiagnosticView>)
    ensures
        reported(notes, while_statement(tokens, pos, notes)),
        paid(tokens, pos, notes, while_statement(tokens, pos, notes)),
    decreases remaining(tokens, pos), 23nat,
{
    reveal(while_statement);
    reveal(statement);
    let before = "Expect '(' after 'while'."@;
    let after = "Expect ')' after condition."@;
    lemma_condition(tokens, pos, notes, before, after);
    let c = condition(tokens, pos, notes, before, after);
    if c.value is Some {
        lemma_statement(tokens, pos + c.used, c.notes);
    }
}

/// An if statement keeps the diagnostics it was given, and reports where it fails.
pub proof fn lemma_if_statement(tokens: Seq<Token>, pos: nat, notes: Seq<DiagnosticView>)
    ensures
        reported(notes, if_statement(tokens, pos, notes)),
        paid(tokens, pos, notes, if_statement(tokens, pos, notes)),
    decreases remaining(tokens, pos), 23nat,
{
    reveal(if_statement);
    reveal(statement);
    let before = "Expect '(' after 'if'."@;
    let after = "Expect ')' after if condition."@;
    lemma_condition(tokens, pos, notes, before, after);
    let c = condition(tokens, pos, notes, before, after);
    if c.value is Some {
        lemma_statement(tokens, pos + c.used, c.notes);
        let then = statement(tokens, pos + c.used, c.notes);
        if then.value is Some && check(tokens, pos + c.used + then.used, TokenType::Else) {
            lemma_statement(tokens, pos + c.used + then.used + 1, then.notes);
        }
    }
}

/// The initializer of a for statement keeps the diagnostics it was given, and reports
/// where it fails.
pub proof fn lemma_for_initializer(tokens: Seq<Token>, pos: nat, notes: Seq<DiagnosticView>)
    ensures
        reported(notes, for_initializer(tokens, pos, notes)),
        paid(tokens, pos, notes, for_initializer(tokens, pos, notes)),
    decreases remaining(tokens, pos), 24nat,
{
    reveal(var_declaration);
    reveal(expression_statement);
    if !check(tokens, pos, TokenType::Semicolon) {
        if check(tokens, pos, TokenType::Var) {
            lemma_var_declaration(tokens, pos + 1, notes);
        } else {
            lemma_expression_statement(tokens, pos, notes);
        }
    }
}

/// A for statement keeps the diagnostics it was given, and reports where it fails.
pub proof fn lemma_for_statement(tokens: Seq<Token>, pos: nat, notes: Seq<DiagnosticView>)
    ensures
        reported(notes, for_statement(tokens, pos, notes)),
        paid(tokens, pos, notes, for_statement(tokens, pos, notes)),
    decreases remaining(tokens, pos), 25nat,
{
    reveal(for_statement);
    reveal(statement);
    if check(tokens, pos, TokenType::LeftParen) {
        lemma_for_initializer(tokens, pos + 1, notes);
        let first = for_initializer(tokens, pos + 1, notes);
        if first.value is Some {
            let semicolon = "Expect ';' after loop condition."@;
            lemma_for_clause(
                tokens,
                pos + 1 + first.used,
                first.notes,
                TokenType::Semicolon,
                semicolon,
            );
            let second = for_clause(
                tokens,
                pos + 1 + first.used,
                first.notes,
                TokenType::Semicolon,
                semicolon,
            );
            if second.value is Some {
                let paren = "Expect ')' after for clauses."@;
                lemma_for_clause(
                    tokens,
                    pos + 1 + first.used + second.used,
                    second.notes,
                    TokenType::RightParen,
                    paren,
                );
                let third = for_clause(
                    tokens,
                    pos + 1 + first.used + second.used,
                    second.notes,
                    TokenType::RightParen,
                    paren,
                );
                if third.value is Some {
                    lemma_statement(
                        tokens,
                        pos + 1 + first.used + second.used + third.used,
                        third.notes,
                    );
                }
            }
        }
    }
}

/// A parameter list keeps the diagnostics it was given, and reports where it fails.
pub proof fn lemma_parameters(
    tokens: Seq<Token>,
    pos: nat,
    notes: Seq<DiagnosticView>,
    done: Seq<Token>,
)
    ensures
        reported(notes, parameters(tokens, pos, notes, done)),
        paid_list(tokens, pos, notes, parameters(tokens, pos, notes, done), done.len()),
    decreases remaining(tokens, pos),
{
    reveal(parameters);
    let noted = if done.len() >= MAX_ARITY {
        notes.push(note_at(tokens, pos, "Can't have more than 255 parameters."@))
    } else {
        notes
    };
    if check(tokens, pos, TokenType::Identifier) && check(tokens, pos + 1, TokenType::Comma) {
        lemma_parameters(tokens, pos + 2, noted, done.push(tokens[pos as int]));
    }
}

/// The signature of a function keeps the diagnostics it was given, and reports where
/// it fails.
pub proof fn lemma_signature(tokens: Seq<Token>, pos: nat, notes: Seq<DiagnosticView>)
    ensures
        reported(notes, signature(tokens, pos, notes)),
        paid(tokens, pos, notes, signature(tokens, pos, notes)),
{
    reveal(parameters);
    if check(tokens, pos, TokenType::LeftParen) && !check(tokens, pos + 1, TokenType::RightParen) {
        lemma_parameters(tokens, pos + 1, notes, Seq::empty());
    }
}

/// A function declaration keeps the diagnostics it was given, and reports where it
/// fails.
pub proof fn lemma_function(tokens: Seq<Token>, pos: nat, notes: Seq<DiagnosticView>)
    ensures
        reported(notes, function(tokens, pos, notes)),
        paid(tokens, pos, notes, function(tokens, pos, notes)),
    decreases remaining(tokens, pos), 29nat,
{
    reveal(function);
    reveal(block);
    if check(tokens, pos, TokenType::Identifier) {
        lemma_signature(tokens, pos + 1, notes);
        let head = signature(tokens, pos + 1, notes);
        if head.value is Some {
            lemma_block(tokens, pos + 1 + head.used, head.notes);
        }
    }
}

/// A statement keeps the diagnostics it was given, and reports where it fails.
pub proof fn lemma_statement(tokens: Seq<Token>, pos: nat, notes: Seq<DiagnosticView>)
    ensures
        reported(notes, statement(tokens, pos, notes)),
        paid(tokens, pos, notes, statement(tokens, pos, notes)),
    decreases remaining(tokens, pos), 26nat,
{
    reveal(statement);
    reveal(for_statement);
    reveal(if_statement);
    reveal(print_statement);
    reveal(while_statement);
    reveal(block);
    reveal(expression_statement);
    if check(tokens, pos, TokenType::For) {
        lemma_for_statement(tokens, pos + 1, notes);
    } else if check(tokens, pos, TokenType::If) {
        lemma_if_statement(tokens, pos + 1, notes);
    } else if check(tokens, pos, TokenType::Print) {
        lemma_print_statement(tokens, pos + 1, notes);
    } else if check(tokens, pos, TokenType::While) {
        lemma_while_statement(tokens, pos + 1, notes);
    } else if check(tokens, pos, TokenType::LeftBrace) {
        lemma_block(tokens, pos + 1, notes);
    } else {
        lemma_expression_statement(tokens, pos, notes);
    }
}

/// A declaration keeps the diagnostics it was given, and reports where it fails.
/// Where the input has not ended, it consumes a token for every diagnostic:
/// what a failure owes, recovery pays.
pub proof fn lemma_declaration(tokens: Seq<Token>, pos: nat, notes: Seq<DiagnosticView>)
    ensures
        reported(notes, declaration(tokens, pos, notes)),
        ({
            let d = declaration(tokens, pos, notes);
            &&& within(tokens, pos, d.used)
            &&& d.value is Some ==> added(notes, d) + 1 <= d.used
            &&& added(notes, d) <= d.used + 1
            &&& !at_end(tokens, pos) ==> added(notes, d) <= d.used
        }),
    decreases remaining(tokens, pos), 27nat,
{
    reveal(declaration);
    reveal(function);
    reveal(var_declaration);
    reveal(statement);
    if check(tokens, pos, TokenType::Fun) {
        lemma_function(tokens, pos + 1, notes);
        lemma_synchronized(tokens, pos + 1 + function(tokens, pos + 1, notes).used);
    } else if check(tokens, pos, TokenType::Var) {
        lemma_var_declaration(tokens, pos + 1, notes);
        lemma_synchronized(tokens, pos + 1 + var_declaration(tokens, pos + 1, notes).used);
    } else {
        lemma_statement(tokens, pos, notes);
        lemma_synchronized(tokens, pos + statement(tokens, pos, notes).used);
    }
}

/// The declarations of a block keep the diagnostics they were given, and always leave
/// a list of statements: what fails among them is skipped. They report no
/// more diagnostics than they consume tokens.
pub proof fn lemma_block_items(
    tokens: Seq<Token>,
    pos: nat,
    notes: Seq<DiagnosticView>,
    done: Seq<StmtView>,
)
    ensures
        extends(block_items(tokens, pos, notes, done).notes, notes),
        block_items(tokens, pos, notes, done).value is Some,
        within(tokens, pos, block_items(tokens, pos, notes, done).used),
        added(notes, block_items(tokens, pos, notes, done)) <= block_items(
            tokens,
            pos,
            notes,
            done,
        ).used,
    decreases remaining(tokens, pos), 28nat,
{
    reveal(block_items);
    reveal(declaration);
    if !(at_end(tokens, pos) || check(tokens, pos, TokenType::RightBrace)) {
        lemma_declaration(tokens, pos, notes);
        let d = declaration(tokens, pos, notes);
        lemma_block_items(
            tokens,
            pos + step(d.used),
            d.notes,
            match d.value {
                Some(s) => done.push(s),
                None => done,
            },
        );
    }
}

/// A block keeps the diagnostics it was given, and reports where it fails,
/// at most one diagnostic more than it consumed tokens.
pub proof fn lemma_block(tokens: Seq<Token>, pos: nat, notes: Seq<DiagnosticView>)
    ensures
        reported(notes, block(tokens, pos, notes)),
        ({
            let b = block(tokens, pos, notes);
            &&& within(tokens, pos, b.used)
            &&& b.value is Some ==> added(notes, b) + 1 <= b.used
            &&& added(notes, b) <= b.used + 1
        }),
    decreases remaining(tokens, pos), 29nat,
{
    reveal(block);
    reveal(block_items);
    lemma_block_items(tokens, pos, notes, Seq::empty());
}

/// A program keeps the diagnostics it was given and always has statements,
/// and it has none of a declaration that failed: where it reports
/// nothing, every declaration went through. It stays within the tokens,
/// and reports no more diagnostics than it consumes tokens.
pub proof fn lemma_program(
    tokens: Seq<Token>,
    pos: nat,
    notes: Seq<DiagnosticView>,
    done: Seq<StmtView>,
)
    ensures
        extends(program(tokens, pos, notes, done).notes, notes),
        program(tokens, pos, notes, done).value is Some,
        within(tokens, pos, program(tokens, pos, notes, done).used),
        added(notes, program(tokens, pos, notes, done)) <= program(tokens, pos, notes, done).used,
        program(tokens, pos, notes, done).notes.len() == notes.len() ==> {
            &&& program(tokens, pos, notes, done).notes == notes
            &&& !at_end(tokens, pos) ==> declaration(tokens, pos, notes).value is Some
        },
    decreases remaining(tokens, pos),
{
    reveal(program);
    reveal(declaration);
    if !at_end(tokens, pos) {
        lemma_declaration(tokens, pos, notes);
        let d = declaration(tokens, pos, notes);
        lemma_program(
            tokens,
            pos + step(d.used),
            d.notes,
            match d.value {
                Some(s) => done.push(s),
                None => done,
            },
        );
    }
    let after = program(tokens, pos, notes, done).notes;
    if after.len() == notes.len() {
        assert(after =~= notes);
    }
}

/// Parsing resumes behind a declaration, whether it went through or failed
/// and recovered: the program is what follows, with the statement of the
/// declaration, if it has one, before it.
pub proof fn lemma_program_resumes(
    tokens: Seq<Token>,
    pos: nat,
    notes: Seq<DiagnosticView>,
    done: Seq<StmtView>,
)
    requires
        !at_end(tokens, pos),
    ensures
        ({
            let d = declaration(tokens, pos, notes);
            let rest = program(
                tokens,
                pos + d.used,
                d.notes,
                match d.value {
                    Some(s) => done.push(s),
                    None => done,
                },
            );
            program(tokens, pos, notes, done) == (Parsed {
                value: rest.value,
                used: d.used + rest.used,
                notes: rest.notes,
            })
        }),
{
    reveal(program);
    lemma_declaration(tokens, pos, notes);
}

/// No statement is discarded: what a program has parsed stays in its list,
/// whatever fails behind it.
pub proof fn lemma_program_keeps(
    tokens: Seq<Token>,
    pos: nat,
    notes: Seq<DiagnosticView>,
    done: Seq<StmtView>,
)
    ensures
        program(tokens, pos, notes, done).value matches Some(list) && done.len() <= list.len()
            && list.subrange(0, done.len() as int) == done,
    decreases remaining(tokens, pos),
{
    reveal(program);
    if at_end(tokens, pos) {
        assert(done.subrange(0, done.len() as int) =~= done);
    } else {
        lemma_declaration(tokens, pos, notes);
        let d = declaration(tokens, pos, notes);
        let next = match d.value {
            Some(s) => done.push(s),
            None => done,
        };
        lemma_program_keeps(tokens, pos + step(d.used), d.notes, next);
        let list = program(tokens, pos, notes, done).value.unwrap();
        assert(list.subrange(0, done.len() as int) =~= done) by {
            assert(list.subrange(0, next.len() as int) == next);
            assert forall|i: int| 0 <= i < done.len() implies list[i] == done[i] by {
                assert(list.subrange(0, next.len() as int)[i] == list[i]);
                assert(next[i] == done[i]);
            }
        }
    }
}

/// A statement that lacks nothing but its semicolon yields exactly one
/// diagnostic, against the token that stands where the semicolon should,
/// and parsing resumes where recovery ends: the expression's tokens and
/// those that [`synchronized`] counts are consumed, and no more.
pub proof fn lemma_missing_semicolon(tokens: Seq<Token>, pos: nat, notes: Seq<DiagnosticView>)
    requires
        !check(tokens, pos, TokenType::Fun),
        !check(tokens, pos, TokenType::Var),
        !check(tokens, pos, TokenType::For),
        !check(tokens, pos, TokenType::If),
        !check(tokens, pos, TokenType::Print),
        !check(tokens, pos, TokenType::While),
        !check(tokens, pos, TokenType::LeftBrace),
        expression(tokens, pos, notes).value is Some,
        expression(tokens, pos, notes).notes == notes,
        !check(tokens, pos + expression(tokens, pos, notes).used, TokenType::Semicolon),
    ensures
        ({
            let e = expression(tokens, pos, notes);
            let d = declaration(tokens, pos, notes);
            &&& d.value is None
            &&& d.notes == notes.push(note_at(tokens, pos + e.used, "Expect ';' after value."@))
            &&& d.used == e.used + synchronized(tokens, pos + e.used)
        }),
{
    reveal(declaration);
    reveal(statement);
    reveal(expression_statement);
    reveal(expression);
}

/// The same of a print statement: where it lacks nothing but its semicolon,
/// it yields exactly one diagnostic, and parsing resumes where recovery ends.
pub proof fn lemma_missing_semicolon_after_print(
    tokens: Seq<Token>,
    pos: nat,
    notes: Seq<DiagnosticView>,
)
    requires
        check(tokens, pos, TokenType::Print),
        expression(tokens, pos + 1, notes).value is Some,
        expression(tokens, pos + 1, notes).notes == notes,
        !check(tokens, pos + 1 + expression(tokens, pos + 1, notes).used, TokenType::Semicolon),
    ensures
        ({
            let e = expression(tokens, pos + 1, notes);
            let d = declaration(tokens, pos, notes);
            &&& d.value is None
            &&& d.notes == notes.push(
                note_at(tokens, pos + 1 + e.used, "Expect ';' after value."@),
            )
            &&& d.used == 1 + e.used + synchronized(tokens, pos + 1 + e.used)
        }),
{
    reveal(declaration);
    reveal(statement);
    reveal(print_statement);
    reveal(expression);
}

} // verus!
