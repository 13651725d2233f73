//! The grammar, as functions from a token sequence and a position to what is
//! parsed there.
//!
//! ```text
//! program     -> declaration* EOF
//! declaration -> funDecl | varDecl | statement
//! statement   -> exprStmt | printStmt | block | ifStmt | whileStmt | forStmt
//! expression  -> assignment
//! assignment  -> (IDENTIFIER "=" assignment) | logic_or
//! logic_or    -> logic_and ("or" logic_and)*
//! logic_and   -> equality ("and" equality)*
//! equality    -> comparison (("!="|"==") comparison)*
//! comparison  -> term ((">"|">="|"<"|"<=") term)*
//! term        -> factor (("-"|"+") factor)*
//! factor      -> unary (("/"|"*") unary)*
//! unary       -> ("!"|"-") unary | call
//! call        -> primary ("(" arguments? ")")*
//! arguments   -> expression ("," expression)*
//! primary     -> NUMBER | STRING | "true" | "false" | "nil" | IDENTIFIER
//!              | "(" expression ")"
//! ```
//!
//! Every function takes the diagnostics reported so far and gives back the
//! diagnostics after it; a construct that fails has no value. The measure of
//! all of them is the number of tokens left, then the depth of the rule.

use crate::expr::ExprView;
use crate::scanner::{diagnostic_at, DiagnosticView, Literal, Token, TokenType};
use crate::stmt::StmtView;
use vstd::prelude::*;

verus! {

/// What was parsed at a position.
pub struct Parsed<T> {
    /// The tree, or `None` where a structural error stopped the construct.
    pub value: Option<T>,
    /// The number of tokens consumed.
    pub used: nat,
    /// The diagnostics reported so far.
    pub notes: Seq<DiagnosticView>,
}

/// The level of `*` and `/`.
pub const FACTOR: u8 = 1;

/// The level of `+` and `-`.
pub const TERM: u8 = 2;

/// The level of `<`, `<=`, `>` and `>=`.
pub const COMPARISON: u8 = 3;

/// The level of `==` and `!=`.
pub const EQUALITY: u8 = 4;

/// The level of `and`.
pub const AND: u8 = 5;

/// The level of `or`.
pub const OR: u8 = 6;

/// The most arguments or parameters that go without a diagnostic.
pub const MAX_ARITY: usize = 255;

/// Whether the input ends at `pos`: no token is there, or the end marker.
pub open spec fn at_end(tokens: Seq<Token>, pos: nat) -> bool {
    pos >= tokens.len() || tokens[pos as int].ttype == TokenType::Eof
}

/// Whether the token at `pos` is of the given type. The end marker is never
/// matched.
pub open spec fn check(tokens: Seq<Token>, pos: nat, ttype: TokenType) -> bool {
    !at_end(tokens, pos) && tokens[pos as int].ttype == ttype
}

/// The number of tokens from `pos` on.
pub open spec fn remaining(tokens: Seq<Token>, pos: nat) -> nat {
    if pos < tokens.len() {
        (tokens.len() - pos) as nat
    } else {
        0
    }
}

/// The diagnostic that holds `message` against the token at `pos`; past the
/// last token, against the end of the input on the last token's line.
pub open spec fn note_at(tokens: Seq<Token>, pos: nat, message: Seq<char>) -> DiagnosticView {
    if pos < tokens.len() {
        diagnostic_at(tokens[pos as int], message)
    } else {
        DiagnosticView {
            line: if tokens.len() > 0 {
                tokens.last().line as nat
            } else {
                0
            },
            location: " at end"@,
            message,
        }
    }
}

/// A construct that failed after `used` tokens.
pub open spec fn fail<T>(used: nat, notes: Seq<DiagnosticView>) -> Parsed<T> {
    Parsed { value: None, used, notes }
}

/// A construct that failed at `pos`, `used` tokens in, with a diagnostic.
pub open spec fn fail_at<T>(
    tokens: Seq<Token>,
    pos: nat,
    used: nat,
    notes: Seq<DiagnosticView>,
    message: Seq<char>,
) -> Parsed<T> {
    Parsed { value: None, used, notes: notes.push(note_at(tokens, pos, message)) }
}

/// The same result, `by` tokens further in.
pub open spec fn shift<T>(by: nat, parsed: Parsed<T>) -> Parsed<T> {
    Parsed { value: parsed.value, used: by + parsed.used, notes: parsed.notes }
}

/// Whether a token type is an operator of a level.
pub open spec fn is_operator(level: nat, ttype: TokenType) -> bool {
    match ttype {
        TokenType::Slash | TokenType::Star => level == FACTOR,
        TokenType::Minus | TokenType::Plus => level == TERM,
        TokenType::Greater | TokenType::GreaterEqual | TokenType::Less | TokenType::LessEqual => level
            == COMPARISON,
        TokenType::BangEqual | TokenType::EqualEqual => level == EQUALITY,
        TokenType::And => level == AND,
        TokenType::Or => level == OR,
        _ => false,
    }
}

/// The node that an operator of a level makes of its operands: a logical
/// node for `and` and `or`, a binary node below them.
pub open spec fn join(level: nat, left: ExprView, operator: Token, right: ExprView) -> ExprView {
    if level >= AND {
        ExprView::Logical { left: Box::new(left), operator, right: Box::new(right) }
    } else {
        ExprView::Binary { left: Box::new(left), operator, right: Box::new(right) }
    }
}

/// primary -> NUMBER | STRING | "true" | "false" | "nil" | IDENTIFIER
///          | "(" expression ")"
#[verifier::opaque]
pub open spec fn primary(tokens: Seq<Token>, pos: nat, notes: Seq<DiagnosticView>) -> Parsed<
    ExprView,
>
    decreases remaining(tokens, pos), 1nat,
{
    if at_end(tokens, pos) {
        fail_at(tokens, pos, 0, notes, "Expect expression."@)
    } else {
        let token = tokens[pos as int];
        match token.ttype {
            TokenType::False => Parsed {
                value: Some(ExprView::Literal { literal: Literal::Bool(false) }),
                used: 1,
                notes,
            },
            TokenType::True => Parsed {
                value: Some(ExprView::Literal { literal: Literal::Bool(true) }),
                used: 1,
                notes,
            },
            TokenType::Nil => Parsed {
                value: Some(ExprView::Literal { literal: Literal::Nil }),
                used: 1,
                notes,
            },
            TokenType::Number | TokenType::String => match token.literal {
                Some(literal) => Parsed {
                    value: Some(ExprView::Literal { literal }),
                    used: 1,
                    notes,
                },
                None => fail_at(tokens, pos, 0, notes, "Expect expression."@),
            },
            TokenType::Identifier => Parsed {
                value: Some(ExprView::Variable { name: token }),
                used: 1,
                notes,
            },
            TokenType::LeftParen => {
                let inner = expression(tokens, pos + 1, notes);
                match inner.value {
                    Some(e) => if check(tokens, pos + 1 + inner.used, TokenType::RightParen) {
                        Parsed {
                            value: Some(ExprView::Grouping { expression: Box::new(e) }),
                            used: inner.used + 2,
                            notes: inner.notes,
                        }
                    } else {
                        fail_at(
                            tokens,
                            pos + 1 + inner.used,
                            1 + inner.used,
                            inner.notes,
                            "Expect ')' after expression."@,
                        )
                    },
                    None => fail(1 + inner.used, inner.notes),
                }
            },
            _ => fail_at(tokens, pos, 0, notes, "Expect expression."@),
        }
    }
}

/// arguments -> expression ("," expression)*, appended to `done`. More than
/// [`MAX_ARITY`] arguments are parsed, with a diagnostic for each.
#[verifier::opaque]
pub open spec fn arguments(
    tokens: Seq<Token>,
    pos: nat,
    notes: Seq<DiagnosticView>,
    done: Seq<ExprView>,
) -> Parsed<Seq<ExprView>>
    decreases remaining(tokens, pos), 22nat,
{
    let noted = if done.len() >= MAX_ARITY {
        notes.push(note_at(tokens, pos, "Can't have more than 255 arguments."@))
    } else {
        notes
    };
    let first = expression(tokens, pos, noted);
    match first.value {
        Some(e) => if check(tokens, pos + first.used, TokenType::Comma) {
            shift(
                first.used + 1,
                arguments(tokens, pos + first.used + 1, first.notes, done.push(e)),
            )
        } else {
            Parsed { value: Some(done.push(e)), used: first.used, notes: first.notes }
        },
        None => fail(first.used, first.notes),
    }
}

/// The rest of a call after its "(": arguments? ")".
#[verifier::opaque]
pub open spec fn finish_call(
    tokens: Seq<Token>,
    pos: nat,
    notes: Seq<DiagnosticView>,
    callee: ExprView,
) -> Parsed<ExprView>
    decreases remaining(tokens, pos), 23nat,
{
    if check(tokens, pos, TokenType::RightParen) {
        Parsed {
            value: Some(
                ExprView::Call {
                    callee: Box::new(callee),
                    paren: tokens[pos as int],
                    arguments: Seq::empty(),
                },
            ),
            used: 1,
            notes,
        }
    } else {
        let list = arguments(tokens, pos, notes, Seq::empty());
        match list.value {
            Some(arguments) => if check(tokens, pos + list.used, TokenType::RightParen) {
                Parsed {
                    value: Some(
                        ExprView::Call {
                            callee: Box::new(callee),
                            paren: tokens[(pos + list.used) as int],
                            arguments,
                        },
                    ),
                    used: list.used + 1,
                    notes: list.notes,
                }
            } else {
                fail_at(
                    tokens,
                    pos + list.used,
                    list.used,
                    list.notes,
                    "Expect ')' after arguments."@,
                )
            },
            None => fail(list.used, list.notes),
        }
    }
}

/// ("(" arguments? ")")* after a callee.
#[verifier::opaque]
pub open spec fn call_rest(
    tokens: Seq<Token>,
    pos: nat,
    notes: Seq<DiagnosticView>,
    callee: ExprView,
) -> Parsed<ExprView>
    decreases remaining(tokens, pos), 0nat,
{
    if check(tokens, pos, TokenType::LeftParen) {
        let one = finish_call(tokens, pos + 1, notes, callee);
        match one.value {
            Some(e) => shift(1 + one.used, call_rest(tokens, pos + 1 + one.used, one.notes, e)),
            None => fail(1 + one.used, one.notes),
        }
    } else {
        Parsed { value: Some(callee), used: 0, notes }
    }
}

/// call -> primary ("(" arguments? ")")*
#[verifier::opaque]
pub open spec fn call(tokens: Seq<Token>, pos: nat, notes: Seq<DiagnosticView>) -> Parsed<
    ExprView,
>
    decreases remaining(tokens, pos), 2nat,
{
    let callee = primary(tokens, pos, notes);
    match callee.value {
        Some(e) => shift(callee.used, call_rest(tokens, pos + callee.used, callee.notes, e)),
        None => callee,
    }
}

/// unary -> ("!"|"-") unary | call
#[verifier::opaque]
pub open spec fn unary(tokens: Seq<Token>, pos: nat, notes: Seq<DiagnosticView>) -> Parsed<
    ExprView,
>
    decreases remaining(tokens, pos), 3nat,
{
    if check(tokens, pos, TokenType::Bang) || check(tokens, pos, TokenType::Minus) {
        let right = unary(tokens, pos + 1, notes);
        match right.value {
            Some(e) => Parsed {
                value: Some(
                    ExprView::Unary { operator: tokens[pos as int], right: Box::new(e) },
                ),
                used: 1 + right.used,
                notes: right.notes,
            },
            None => fail(1 + right.used, right.notes),
        }
    } else {
        call(tokens, pos, notes)
    }
}

/// An operand of a level: a unary expression at the lowest level, a chain
/// of the level below at the others.
#[verifier::opaque]
pub open spec fn operand(tokens: Seq<Token>, pos: nat, notes: Seq<DiagnosticView>, level: nat) -> Parsed<
    ExprView,
>
    decreases remaining(tokens, pos), 2 * level + 4,
{
    if level <= FACTOR {
        unary(tokens, pos, notes)
    } else {
        chain((level - 1) as nat, tokens, pos, notes)
    }
}

/// (operator operand)* of a level after `left`, leaning left.
#[verifier::opaque]
pub open spec fn chain_rest(
    level: nat,
    tokens: Seq<Token>,
    pos: nat,
    notes: Seq<DiagnosticView>,
    left: ExprView,
) -> Parsed<ExprView>
    decreases remaining(tokens, pos), 0nat,
{
    if !at_end(tokens, pos) && is_operator(level, tokens[pos as int].ttype) {
        let right = operand(tokens, pos + 1, notes, level);
        match right.value {
            Some(e) => shift(
                1 + right.used,
                chain_rest(
                    level,
                    tokens,
                    pos + 1 + right.used,
                    right.notes,
                    join(level, left, tokens[pos as int], e),
                ),
            ),
            None => fail(1 + right.used, right.notes),
        }
    } else {
        Parsed { value: Some(left), used: 0, notes }
    }
}

/// operand (operator operand)* of a level: `factor` up to `logic_or`.
#[verifier::opaque]
pub open spec fn chain(level: nat, tokens: Seq<Token>, pos: nat, notes: Seq<DiagnosticView>) -> Parsed<
    ExprView,
>
    decreases remaining(tokens, pos), 2 * level + 5,
{
    let first = operand(tokens, pos, notes, level);
    match first.value {
        Some(e) => shift(first.used, chain_rest(level, tokens, pos + first.used, first.notes, e)),
        None => first,
    }
}

/// assignment -> (IDENTIFIER "=" assignment) | logic_or
///
/// The left side is parsed as a `logic_or`; after an "=" it has to be a
/// bare variable.
#[verifier::opaque]
pub open spec fn assignment(tokens: Seq<Token>, pos: nat, notes: Seq<DiagnosticView>) -> Parsed<
    ExprView,
>
    decreases remaining(tokens, pos), 20nat,
{
    let target = chain(OR as nat, tokens, pos, notes);
    match target.value {
        Some(e) => if check(tokens, pos + target.used, TokenType::Equal) {
            let value = assignment(tokens, pos + target.used + 1, target.notes);
            match value.value {
                Some(v) => match e {
                    ExprView::Variable { name } => Parsed {
                        value: Some(ExprView::Assign { name, value: Box::new(v) }),
                        used: target.used + 1 + value.used,
                        notes: value.notes,
                    },
                    _ => fail_at(
                        tokens,
                        pos + target.used,
                        target.used + 1 + value.used,
                        value.notes,
                        "Invalid Assignment target."@,
                    ),
                },
                None => fail(target.used + 1 + value.used, value.notes),
            }
        } else {
            target
        },
        None => target,
    }
}

/// expression -> assignment
#[verifier::opaque]
pub open spec fn expression(tokens: Seq<Token>, pos: nat, notes: Seq<DiagnosticView>) -> Parsed<
    ExprView,
>
    decreases remaining(tokens, pos), 21nat,
{
    assignment(tokens, pos, notes)
}

/// A token of the given type, or a diagnostic with the message.
pub open spec fn expect(
    tokens: Seq<Token>,
    pos: nat,
    notes: Seq<DiagnosticView>,
    ttype: TokenType,
    message: Seq<char>,
) -> Parsed<Token> {
    if check(tokens, pos, ttype) {
        Parsed { value: Some(tokens[pos as int]), used: 1, notes }
    } else {
        fail_at(tokens, pos, 0, notes, message)
    }
}

/// An expression and the ";" that ends it.
pub open spec fn terminated(
    tokens: Seq<Token>,
    pos: nat,
    notes: Seq<DiagnosticView>,
    message: Seq<char>,
) -> Parsed<ExprView>
    decreases remaining(tokens, pos), 22nat,
{
    let e = expression(tokens, pos, notes);
    match e.value {
        Some(_) => if check(tokens, pos + e.used, TokenType::Semicolon) {
            shift(1, e)
        } else {
            fail_at(tokens, pos + e.used, e.used, e.notes, message)
        },
        None => e,
    }
}

/// exprStmt -> expression ";"
#[verifier::opaque]
pub open spec fn expression_statement(
    tokens: Seq<Token>,
    pos: nat,
    notes: Seq<DiagnosticView>,
) -> Parsed<StmtView>
    decreases remaining(tokens, pos), 23nat,
{
    let e = terminated(tokens, pos, notes, "Expect ';' after value."@);
    match e.value {
        Some(expression) => Parsed {
            value: Some(StmtView::Expression { expression }),
            used: e.used,
            notes: e.notes,
        },
        None => fail(e.used, e.notes),
    }
}

/// The rest of a print statement after "print": expression ";"
#[verifier::opaque]
pub open spec fn print_statement(tokens: Seq<Token>, pos: nat, notes: Seq<DiagnosticView>) -> Parsed<
    StmtView,
>
    decreases remaining(tokens, pos), 23nat,
{
    let e = terminated(tokens, pos, notes, "Expect ';' after value."@);
    match e.value {
        Some(expression) => Parsed {
            value: Some(StmtView::Print { expression }),
            used: e.used,
            notes: e.notes,
        },
        None => fail(e.used, e.notes),
    }
}

/// The rest of a variable declaration after "var":
/// IDENTIFIER ("=" expression)? ";"
#[verifier::opaque]
pub open spec fn var_declaration(tokens: Seq<Token>, pos: nat, notes: Seq<DiagnosticView>) -> Parsed<
    StmtView,
>
    decreases remaining(tokens, pos), 23nat,
{
    if !check(tokens, pos, TokenType::Identifier) {
        fail_at(tokens, pos, 0, notes, "Expect variable name."@)
    } else if check(tokens, pos + 1, TokenType::Equal) {
        let e = terminated(tokens, pos + 2, notes, "Expect ';' after variable declaration."@);
        match e.value {
            Some(initializer) => Parsed {
                value: Some(
                    StmtView::Var { name: tokens[pos as int], initializer: Some(initializer) },
                ),
                used: 2 + e.used,
                notes: e.notes,
            },
            None => fail(2 + e.used, e.notes),
        }
    } else if check(tokens, pos + 1, TokenType::Semicolon) {
        Parsed {
            value: Some(StmtView::Var { name: tokens[pos as int], initializer: None }),
            used: 2,
            notes,
        }
    } else {
        fail_at(tokens, pos + 1, 1, notes, "Expect ';' after variable declaration."@)
    }
}

/// "(" expression ")" with the messages of the statement that asks for it.
pub open spec fn condition(
    tokens: Seq<Token>,
    pos: nat,
    notes: Seq<DiagnosticView>,
    before: Seq<char>,
    after: Seq<char>,
) -> Parsed<ExprView>
    decreases remaining(tokens, pos), 22nat,
{
    if !check(tokens, pos, TokenType::LeftParen) {
        fail_at(tokens, pos, 0, notes, before)
    } else {
        let e = expression(tokens, pos + 1, notes);
        match e.value {
            Some(_) => if check(tokens, pos + 1 + e.used, TokenType::RightParen) {
                shift(2, e)
            } else {
                fail_at(tokens, pos + 1 + e.used, 1 + e.used, e.notes, after)
            },
            None => fail(1 + e.used, e.notes),
        }
    }
}

/// The rest of a while statement after "while": "(" expression ")" statement
#[verifier::opaque]
pub open spec fn while_statement(tokens: Seq<Token>, pos: nat, notes: Seq<DiagnosticView>) -> Parsed<
    StmtView,
>
    decreases remaining(tokens, pos), 23nat,
{
    let c = condition(
        tokens,
        pos,
        notes,
        "Expect '(' after 'while'."@,
        "Expect ')' after condition."@,
    );
    match c.value {
        Some(condition) => {
            let body = statement(tokens, pos + c.used, c.notes);
            match body.value {
                Some(b) => Parsed {
                    value: Some(StmtView::While { condition, body: Box::new(b) }),
                    used: c.used + body.used,
                    notes: body.notes,
                },
                None => fail(c.used + body.used, body.notes),
            }
        },
        None => fail(c.used, c.notes),
    }
}

/// The rest of an if statement after "if":
/// "(" expression ")" statement ("else" statement)?
#[verifier::opaque]
pub open spec fn if_statement(tokens: Seq<Token>, pos: nat, notes: Seq<DiagnosticView>) -> Parsed<
    StmtView,
>
    decreases remaining(tokens, pos), 23nat,
{
    let c = condition(
        tokens,
        pos,
        notes,
        "Expect '(' after 'if'."@,
        "Expect ')' after if condition."@,
    );
    match c.value {
        Some(condition) => {
            let then = statement(tokens, pos + c.used, c.notes);
            match then.value {
                Some(t) => if check(tokens, pos + c.used + then.used, TokenType::Else) {
                    let other = statement(tokens, pos + c.used + then.used + 1, then.notes);
                    match other.value {
                        Some(e) => Parsed {
                            value: Some(
                                StmtView::If {
                                    condition,
                                    then_branch: Box::new(t),
                                    else_branch: Some(Box::new(e)),
                                },
                            ),
                            used: c.used + then.used + 1 + other.used,
                            notes: other.notes,
                        },
                        None => fail(c.used + then.used + 1 + other.used, other.notes),
                    }
                } else {
                    Parsed {
                        value: Some(
                            StmtView::If {
                                condition,
                                then_branch: Box::new(t),
                                else_branch: None,
                            },
                        ),
                        used: c.used + then.used,
                        notes: then.notes,
                    }
                },
                None => fail(c.used + then.used, then.notes),
            }
        },
        None => fail(c.used, c.notes),
    }
}

/// The while loop that a for statement stands for: the increment, where
/// there is one, runs after the body in a block of the two; the loop runs
/// while the condition holds, `true` where there is none; the initializer,
/// where there is one, runs before the loop in a block of the two.
pub open spec fn desugared(
    initializer: Option<StmtView>,
    condition: Option<ExprView>,
    increment: Option<ExprView>,
    body: StmtView,
) -> StmtView {
    let stepped = match increment {
        Some(expression) => StmtView::Block {
            statements: seq![body, StmtView::Expression { expression }],
        },
        None => body,
    };
    let looped = StmtView::While {
        condition: match condition {
            Some(c) => c,
            None => ExprView::Literal { literal: Literal::Bool(true) },
        },
        body: Box::new(stepped),
    };
    match initializer {
        Some(first) => StmtView::Block { statements: seq![first, looped] },
        None => looped,
    }
}

/// The initializer of a for statement: ";" | varDecl | exprStmt
pub open spec fn for_initializer(tokens: Seq<Token>, pos: nat, notes: Seq<DiagnosticView>) -> Parsed<
    Option<StmtView>,
>
    decreases remaining(tokens, pos), 24nat,
{
    if check(tokens, pos, TokenType::Semicolon) {
        Parsed { value: Some(None), used: 1, notes }
    } else {
        let first = if check(tokens, pos, TokenType::Var) {
            shift(1, var_declaration(tokens, pos + 1, notes))
        } else {
            expression_statement(tokens, pos, notes)
        };
        match first.value {
            Some(s) => Parsed { value: Some(Some(s)), used: first.used, notes: first.notes },
            None => fail(first.used, first.notes),
        }
    }
}

/// An expression that may be left out before a token of type `end`, and
/// that token.
pub open spec fn for_clause(
    tokens: Seq<Token>,
    pos: nat,
    notes: Seq<DiagnosticView>,
    end: TokenType,
    message: Seq<char>,
) -> Parsed<Option<ExprView>>
    decreases remaining(tokens, pos), 22nat,
{
    if check(tokens, pos, end) {
        Parsed { value: Some(None), used: 1, notes }
    } else {
        let e = expression(tokens, pos, notes);
        match e.value {
            Some(clause) => if check(tokens, pos + e.used, end) {
                Parsed { value: Some(Some(clause)), used: e.used + 1, notes: e.notes }
            } else {
                fail_at(tokens, pos + e.used, e.used, e.notes, message)
            },
            None => fail(e.used, e.notes),
        }
    }
}

/// The rest of a for statement after "for":
/// "(" (varDecl | exprStmt | ";") expression? ";" expression? ")" statement,
/// rewritten as [`desugared`] says.
#[verifier::opaque]
pub open spec fn for_statement(tokens: Seq<Token>, pos: nat, notes: Seq<DiagnosticView>) -> Parsed<
    StmtView,
>
    decreases remaining(tokens, pos), 25nat,
{
    if !check(tokens, pos, TokenType::LeftParen) {
        fail_at(tokens, pos, 0, notes, "Expect '(' after 'for'."@)
    } else {
        let first = for_initializer(tokens, pos + 1, notes);
        match first.value {
            Some(initializer) => {
                let second = for_clause(
                    tokens,
                    pos + 1 + first.used,
                    first.notes,
                    TokenType::Semicolon,
                    "Expect ';' after loop condition."@,
                );
                match second.value {
                    Some(condition) => {
                        let third = for_clause(
                            tokens,
                            pos + 1 + first.used + second.used,
                            second.notes,
                            TokenType::RightParen,
                            "Expect ')' after for clauses."@,
                        );
                        match third.value {
                            Some(increment) => {
                                let body = statement(
                                    tokens,
                                    pos + 1 + first.used + second.used + third.used,
                                    third.notes,
                                );
                                let used = 1 + first.used + second.used + third.used + body.used;
                                match body.value {
                                    Some(b) => Parsed {
                                        value: Some(desugared(initializer, condition, increment, b)),
                                        used,
                                        notes: body.notes,
                                    },
                                    None => fail(used, body.notes),
                                }
                            },
                            None => fail(1 + first.used + second.used + third.used, third.notes),
                        }
                    },
                    None => fail(1 + first.used + second.used, second.notes),
                }
            },
            None => fail(1 + first.used, first.notes),
        }
    }
}

/// The number of tokens that recovery skips from `pos` on, the token before
/// `pos` being skipped already: up to the end of the input, a ";" just
/// passed, or a token that starts a statement.
#[verifier::opaque]
pub open spec fn skipped(tokens: Seq<Token>, pos: nat) -> nat
    decreases remaining(tokens, pos),
{
    if at_end(tokens, pos) {
        0
    } else if pos >= 1 && tokens[pos - 1].ttype == TokenType::Semicolon {
        0
    } else if starts_statement(tokens[pos as int].ttype) {
        0
    } else {
        1 + skipped(tokens, pos + 1)
    }
}

/// Whether a token type starts a statement.
pub open spec fn starts_statement(ttype: TokenType) -> bool {
    match ttype {
        TokenType::Class | TokenType::Fun | TokenType::Var | TokenType::For | TokenType::If | TokenType::While | TokenType::Print | TokenType::Return => true,
        _ => false,
    }
}

/// The number of tokens that recovery consumes at `pos`: the token there,
/// whatever it is, and what [`skipped`] says after it; nothing at the end of
/// the input.
pub open spec fn synchronized(tokens: Seq<Token>, pos: nat) -> nat {
    if at_end(tokens, pos) {
        0
    } else {
        1 + skipped(tokens, pos + 1)
    }
}

/// parameters -> IDENTIFIER ("," IDENTIFIER)*, appended to `done`.
#[verifier::opaque]
pub open spec fn parameters(
    tokens: Seq<Token>,
    pos: nat,
    notes: Seq<DiagnosticView>,
    done: Seq<Token>,
) -> Parsed<Seq<Token>>
    decreases remaining(tokens, pos),
{
    let noted = if done.len() >= MAX_ARITY {
        notes.push(note_at(tokens, pos, "Can't have more than 255 parameters."@))
    } else {
        notes
    };
    if !check(tokens, pos, TokenType::Identifier) {
        fail_at(tokens, pos, 0, noted, "Expect parameter name."@)
    } else if check(tokens, pos + 1, TokenType::Comma) {
        shift(2, parameters(tokens, pos + 2, noted, done.push(tokens[pos as int])))
    } else {
        Parsed { value: Some(done.push(tokens[pos as int])), used: 1, notes: noted }
    }
}

/// The parameter list of a function and the "{" of its body:
/// "(" parameters? ")" "{"
pub open spec fn signature(tokens: Seq<Token>, pos: nat, notes: Seq<DiagnosticView>) -> Parsed<
    Seq<Token>,
> {
    if !check(tokens, pos, TokenType::LeftParen) {
        fail_at(tokens, pos, 0, notes, "Expect '(' after function name."@)
    } else {
        let list = if check(tokens, pos + 1, TokenType::RightParen) {
            Parsed { value: Some(Seq::empty()), used: 0, notes }
        } else {
            parameters(tokens, pos + 1, notes, Seq::empty())
        };
        match list.value {
            Some(_) => if !check(tokens, pos + 1 + list.used, TokenType::RightParen) {
                fail_at(
                    tokens,
                    pos + 1 + list.used,
                    1 + list.used,
                    list.notes,
                    "Expect ')' after parameters."@,
                )
            } else if !check(tokens, pos + 2 + list.used, TokenType::LeftBrace) {
                fail_at(
                    tokens,
                    pos + 2 + list.used,
                    2 + list.used,
                    list.notes,
                    "Expect '{' before function body."@,
                )
            } else {
                shift(3, list)
            },
            None => fail(1 + list.used, list.notes),
        }
    }
}

/// The rest of a function declaration after "fun":
/// IDENTIFIER "(" parameters? ")" block
#[verifier::opaque]
pub open spec fn function(tokens: Seq<Token>, pos: nat, notes: Seq<DiagnosticView>) -> Parsed<
    StmtView,
>
    decreases remaining(tokens, pos), 29nat,
{
    if !check(tokens, pos, TokenType::Identifier) {
        fail_at(tokens, pos, 0, notes, "Expect function name."@)
    } else {
        let head = signature(tokens, pos + 1, notes);
        match head.value {
            Some(parameters) => {
                let body = block(tokens, pos + 1 + head.used, head.notes);
                match body.value {
                    Some(statements) => Parsed {
                        value: Some(
                            StmtView::Function {
                                name: tokens[pos as int],
                                parameters,
                                body: statements,
                            },
                        ),
                        used: 1 + head.used + body.used,
                        notes: body.notes,
                    },
                    None => fail(1 + head.used + body.used, body.notes),
                }
            },
            None => fail(1 + head.used, head.notes),
        }
    }
}

/// statement -> exprStmt | printStmt | block | ifStmt | whileStmt | forStmt
#[verifier::opaque]
pub open spec fn statement(tokens: Seq<Token>, pos: nat, notes: Seq<DiagnosticView>) -> Parsed<
    StmtView,
>
    decreases remaining(tokens, pos), 26nat,
{
    if check(tokens, pos, TokenType::For) {
        shift(1, for_statement(tokens, pos + 1, notes))
    } else if check(tokens, pos, TokenType::If) {
        shift(1, if_statement(tokens, pos + 1, notes))
    } else if check(tokens, pos, TokenType::Print) {
        shift(1, print_statement(tokens, pos + 1, notes))
    } else if check(tokens, pos, TokenType::While) {
        shift(1, while_statement(tokens, pos + 1, notes))
    } else if check(tokens, pos, TokenType::LeftBrace) {
        let body = block(tokens, pos + 1, notes);
        match body.value {
            Some(statements) => Parsed {
                value: Some(StmtView::Block { statements }),
                used: 1 + body.used,
                notes: body.notes,
            },
            None => fail(1 + body.used, body.notes),
        }
    } else {
        expression_statement(tokens, pos, notes)
    }
}

/// declaration -> funDecl | varDecl | statement
///
/// A declaration that fails is followed by recovery: the tokens that
/// [`synchronized`] counts are consumed with it.
#[verifier::opaque]
pub open spec fn declaration(tokens: Seq<Token>, pos: nat, notes: Seq<DiagnosticView>) -> Parsed<
    StmtView,
>
    decreases remaining(tokens, pos), 27nat,
{
    let d = if check(tokens, pos, TokenType::Fun) {
        shift(1, function(tokens, pos + 1, notes))
    } else if check(tokens, pos, TokenType::Var) {
        shift(1, var_declaration(tokens, pos + 1, notes))
    } else {
        statement(tokens, pos, notes)
    };
    match d.value {
        Some(_) => d,
        None => fail(d.used + synchronized(tokens, pos + d.used), d.notes),
    }
}

/// The step that a declaration makes: the tokens it used, and no less than
/// one.
pub open spec fn step(used: nat) -> nat {
    if used == 0 {
        1
    } else {
        used
    }
}

/// declaration* up to a "}" or the end of the input, appended to `done`.
/// A declaration that fails leaves no statement.
#[verifier::opaque]
pub open spec fn block_items(
    tokens: Seq<Token>,
    pos: nat,
    notes: Seq<DiagnosticView>,
    done: Seq<StmtView>,
) -> Parsed<Seq<StmtView>>
    decreases remaining(tokens, pos), 28nat,
{
    if at_end(tokens, pos) || check(tokens, pos, TokenType::RightBrace) {
        Parsed { value: Some(done), used: 0, notes }
    } else {
        let d = declaration(tokens, pos, notes);
        shift(
            step(d.used),
            block_items(
                tokens,
                pos + step(d.used),
                d.notes,
                match d.value {
                    Some(s) => done.push(s),
                    None => done,
                },
            ),
        )
    }
}

/// The rest of a block after its "{": declaration* "}"
#[verifier::opaque]
pub open spec fn block(tokens: Seq<Token>, pos: nat, notes: Seq<DiagnosticView>) -> Parsed<
    Seq<StmtView>,
>
    decreases remaining(tokens, pos), 29nat,
{
    let items = block_items(tokens, pos, notes, Seq::empty());
    if check(tokens, pos + items.used, TokenType::RightBrace) {
        shift(1, items)
    } else {
        fail_at(tokens, pos + items.used, items.used, items.notes, "Expect '}' after block."@)
    }
}

/// program -> declaration* EOF, appended to `done`. A declaration that
/// fails leaves no statement.
#[verifier::opaque]
pub open spec fn program(
    tokens: Seq<Token>,
    pos: nat,
    notes: Seq<DiagnosticView>,
    done: Seq<StmtView>,
) -> Parsed<Seq<StmtView>>
    decreases remaining(tokens, pos),
{
    if at_end(tokens, pos) {
        Parsed { value: Some(done), used: 0, notes }
    } else {
        let d = declaration(tokens, pos, notes);
        shift(
            step(d.used),
            program(
                tokens,
                pos + step(d.used),
                d.notes,
                match d.value {
                    Some(s) => done.push(s),
                    None => done,
                },
            ),
        )
    }
}

} // verus!
