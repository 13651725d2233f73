//! The recursive-descent parser: one function per rule of
//! [`crate::grammar`], each proved to parse what the rule says.

use crate::expr::{
    expressions_view, lemma_call_view, Assign, Binary, Call, Expr, ExprView, Grouping, Logical,
    Unary, Variable,
};
use crate::grammar::{
    arguments, assignment, at_end, block, block_items, call, call_rest, chain, chain_rest, check,
    condition, declaration, desugared, expect, expression, expression_statement, finish_call,
    for_clause, for_initializer, for_statement, function, if_statement, is_operator, note_at,
    operand, parameters, primary, print_statement, program, remaining, shift, signature, skipped,
    statement, synchronized, terminated, unary, var_declaration, while_statement, Parsed, AND,
    COMPARISON, EQUALITY, FACTOR, MAX_ARITY, OR, TERM,
};
use crate::reporting::{extends, lemma_program};
use crate::scanner::{diagnostics_view, Diagnostic, DiagnosticView, Literal, Token, TokenType};
use crate::stmt::{
    lemma_block_view, lemma_function_view, statements_view, Block, Expression, Function, If,
    Print, Stmt, StmtView, Var, While,
};
use vstd::prelude::*;

verus! {

/// The parser's state: the tokens, the position of the next one, and the
/// diagnostics reported so far.
///
/// Parsing is recursive: the stack of the host bounds how deeply
/// expressions and blocks may nest.
#[derive(Debug)]
pub struct Parser {
    pub tokens: Vec<Token>,
    pub current: usize,
    pub diagnostics: Vec<Diagnostic>,
}

/// Why a construct did not parse. The diagnostic that says so in words
/// has been reported by the time this is returned.
#[derive(Debug, PartialEq)]
pub enum Error {
    ParseError,
}

/// A declaration never stands still: where the input has not ended, it
/// consumes a token, whether it succeeds or fails and recovers.
pub proof fn lemma_declaration_advances(tokens: Seq<Token>, pos: nat, notes: Seq<DiagnosticView>)
    requires
        !at_end(tokens, pos),
    ensures
        declaration(tokens, pos, notes).used >= 1,
{
    reveal(declaration);
    reveal(statement);
    reveal(expression_statement);
    reveal(skipped);
}

impl Parser {
    /// The diagnostics reported so far, as plain data.
    pub open spec fn notes(&self) -> Seq<DiagnosticView> {
        diagnostics_view(self.diagnostics@)
    }

    /// `after` is `before` with `used` more tokens consumed and `notes` as
    /// its diagnostics.
    pub open spec fn advanced(
        before: Parser,
        after: Parser,
        used: nat,
        notes: Seq<DiagnosticView>,
    ) -> bool {
        &&& after.tokens == before.tokens
        &&& after.current == before.current + used
        &&& after.notes() == notes
    }

    /// `after` and `r` are what parsing `p` makes of `before`.
    pub open spec fn expr_parsed(
        before: Parser,
        after: Parser,
        r: Result<Expr, Error>,
        p: Parsed<ExprView>,
    ) -> bool {
        &&& Self::advanced(before, after, p.used, p.notes)
        &&& match p.value {
            Some(tree) => r matches Ok(e) && e@ == tree,
            None => r is Err,
        }
    }

    /// `after` and `r` are what parsing `p` makes of `before`.
    pub open spec fn stmt_parsed(
        before: Parser,
        after: Parser,
        r: Result<Stmt, Error>,
        p: Parsed<StmtView>,
    ) -> bool {
        &&& Self::advanced(before, after, p.used, p.notes)
        &&& match p.value {
            Some(tree) => r matches Ok(s) && s@ == tree,
            None => r is Err,
        }
    }

    /// `after` and `r` are what parsing `p` makes of `before`.
    pub open spec fn stmts_parsed(
        before: Parser,
        after: Parser,
        r: Result<Vec<Stmt>, Error>,
        p: Parsed<Seq<StmtView>>,
    ) -> bool {
        &&& Self::advanced(before, after, p.used, p.notes)
        &&& match p.value {
            Some(trees) => r matches Ok(list) && statements_view(list@) == trees,
            None => r is Err,
        }
    }

    /// A parser at the first of `tokens`, with nothing reported.
    pub fn new(tokens: Vec<Token>) -> (r: Parser)
        ensures
            r.tokens == tokens,
            r.current == 0,
            r.notes() == Seq::<DiagnosticView>::empty(),
    {
        let r = Parser { tokens, current: 0, diagnostics: Vec::new() };
        assert(r.notes() =~= Seq::<DiagnosticView>::empty());
        r
    }

    fn is_at_end(&self) -> (r: bool)
        ensures
            r == at_end(self.tokens@, self.current as nat),
    {
        self.current >= self.tokens.len() || self.tokens[self.current].ttype == TokenType::Eof
    }

    fn check(&self, ttype: &TokenType) -> (r: bool)
        ensures
            r == check(self.tokens@, self.current as nat, *ttype),
    {
        !self.is_at_end() && self.tokens[self.current].ttype == *ttype
    }

    /// Steps over the current token, unless the input has ended.
    fn advance(&mut self)
        ensures
            final(self).diagnostics == old(self).diagnostics,
            Self::advanced(
                *old(self),
                *final(self),
                if at_end(old(self).tokens@, old(self).current as nat) {
                    0
                } else {
                    1
                },
                old(self).notes(),
            ),
    {
        if self.current < self.tokens.len() && self.tokens[self.current].ttype != TokenType::Eof {
            self.current += 1;
        }
    }

    /// The token just consumed.
    fn previous(&self) -> (r: Token)
        requires
            1 <= self.current <= self.tokens@.len(),
        ensures
            r == self.tokens@[self.current - 1],
    {
        self.tokens[self.current - 1].clone()
    }

    /// Consumes the current token where its type is one of `ttypes`.
    fn matching(&mut self, ttypes: &[TokenType]) -> (r: bool)
        ensures
            r == exists|i: int|
                0 <= i < ttypes@.len() && check(
                    old(self).tokens@,
                    old(self).current as nat,
                    #[trigger] ttypes@[i],
                ),
            Self::advanced(
                *old(self),
                *final(self),
                if r {
                    1
                } else {
                    0
                },
                old(self).notes(),
            ),
    {
        let mut i: usize = 0;
        while i < ttypes.len()
            invariant
                *self == *old(self),
                i <= ttypes@.len(),
                forall|j: int|
                    0 <= j < i ==> !check(self.tokens@, self.current as nat, #[trigger] ttypes@[j]),
            decreases ttypes@.len() - i,
        {
            if self.check(&ttypes[i]) {
                self.advance();
                return true;
            }
            i += 1;
        }
        false
    }

    /// Reports `message` against the token at `at`.
    fn error(&mut self, at: usize, message: &str) -> (r: Error)
        ensures
            Self::advanced(
                *old(self),
                *final(self),
                0,
                old(self).notes().push(note_at(old(self).tokens@, at as nat, message@)),
            ),
    {
        let note = if at < self.tokens.len() {
            crate::scanner::error(&self.tokens[at], message)
        } else {
            let line: usize = if self.tokens.len() > 0 {
                self.tokens[self.tokens.len() - 1].line
            } else {
                0
            };
            crate::scanner::report(line, " at end", message)
        };
        let ghost before = self.notes();
        self.diagnostics.push(note);
        assert(self.notes() =~= before.push(note@));
        Error::ParseError
    }

    /// Consumes a token of the given type, or reports `message`.
    fn consume(&mut self, ttype: &TokenType, message: &str) -> (r: Result<Token, Error>)
        ensures
            ({
                let p = expect(
                    old(self).tokens@,
                    old(self).current as nat,
                    old(self).notes(),
                    *ttype,
                    message@,
                );
                &&& Self::advanced(*old(self), *final(self), p.used, p.notes)
                &&& match p.value {
                    Some(token) => r == Ok::<Token, Error>(token),
                    None => r is Err,
                }
            }),
    {
        if self.check(ttype) {
            self.advance();
            Ok(self.previous())
        } else {
            let at: usize = self.current;
            Err(self.error(at, message))
        }
    }

    /// Recovers from an error: consumes the current token, whatever it is,
    /// and then tokens up to the end of a statement or the start of one.
    #[verifier::rlimit(50)]
    fn synchronize(&mut self)
        ensures
            Self::advanced(
                *old(self),
                *final(self),
                synchronized(old(self).tokens@, old(self).current as nat),
                old(self).notes(),
            ),
    {
        reveal(skipped);
        if self.is_at_end() {
            return ;
        }
        self.advance();
        while !self.is_at_end()
            invariant
                self.tokens == old(self).tokens,
                self.diagnostics == old(self).diagnostics,
                old(self).current < self.current <= self.tokens@.len(),
                synchronized(old(self).tokens@, old(self).current as nat) == (self.current
                    - old(self).current) + skipped(self.tokens@, self.current as nat),
            decreases remaining(self.tokens@, self.current as nat),
        {
            reveal(skipped);
            if self.tokens[self.current - 1].ttype == TokenType::Semicolon {
                return ;
            }
            match self.tokens[self.current].ttype {
                TokenType::Class
                | TokenType::Fun
                | TokenType::Var
                | TokenType::For
                | TokenType::If
                | TokenType::While
                | TokenType::Print
                | TokenType::Return => {
                    return ;
                },
                _ => {},
            }
            self.advance();
        }
    }

    /// Parses a program: the declarations up to the end of the input, and
    /// returns the statements of those that went through. A declaration
    /// that fails is reported and skipped, and parsing goes on behind it;
    /// what was reported is in `diagnostics`.
    ///
    /// The parse as a whole fails only where recovery stands still, and it
    /// never does: the result is always `Ok`. The parser stays within its
    /// tokens, and reports no more diagnostics than it consumes tokens.
    #[verifier::rlimit(50)]
    pub fn parse(&mut self) -> (r: Result<Vec<Stmt>, Error>)
        ensures
            ({
                let p = program(
                    old(self).tokens@,
                    old(self).current as nat,
                    old(self).notes(),
                    Seq::empty(),
                );
                &&& Self::advanced(*old(self), *final(self), p.used, p.notes)
                &&& r matches Ok(list) && Some(statements_view(list@)) == p.value
            }),
            extends(final(self).notes(), old(self).notes()),
            old(self).current <= old(self).tokens@.len() ==> final(self).current
                <= old(self).tokens@.len(),
            final(self).diagnostics@.len() - old(self).diagnostics@.len() <= final(self).current
                - old(self).current,
    {
        proof {
            lemma_program(self.tokens@, self.current as nat, self.notes(), Seq::empty());
        }
        reveal(program);
        reveal(declaration);
        let mut statements: Vec<Stmt> = Vec::new();
        assert(statements_view(statements@) =~= Seq::empty());
        while !self.is_at_end()
            invariant
                self.tokens == old(self).tokens,
                old(self).current <= self.current,
                shift(
                    (self.current - old(self).current) as nat,
                    program(
                        self.tokens@,
                        self.current as nat,
                        self.notes(),
                        statements_view(statements@),
                    ),
                ) == program(
                    old(self).tokens@,
                    old(self).current as nat,
                    old(self).notes(),
                    Seq::empty(),
                ),
            decreases remaining(self.tokens@, self.current as nat),
        {
            reveal(program);
            reveal(declaration);
            proof {
                lemma_declaration_advances(self.tokens@, self.current as nat, self.notes());
            }
            let ghost done = statements_view(statements@);
            match self.declaration() {
                Ok(statement) => {
                    statements.push(statement);
                    assert(statements_view(statements@) =~= done.push(statement@));
                },
                Err(_) => {},
            }
        }
        Ok(statements)
    }

    #[verifier::rlimit(50)]
    fn declaration(&mut self) -> (r: Result<Stmt, Error>)
        ensures
            Self::stmt_parsed(
                *old(self),
                *final(self),
                r,
                declaration(old(self).tokens@, old(self).current as nat, old(self).notes()),
            ),
        decreases remaining(old(self).tokens@, old(self).current as nat), 37nat,
    {
        reveal(declaration);
        reveal(function);
        reveal(var_declaration);
        reveal(statement);
        let r = if self.matching(&[TokenType::Fun]) {
            self.function()
        } else if self.matching(&[TokenType::Var]) {
            self.var_declaration()
        } else {
            self.statement()
        };
        match r {
            Ok(statement) => Ok(statement),
            Err(error) => {
                self.synchronize();
                Err(error)
            },
        }
    }

    #[verifier::rlimit(50)]
    fn statement(&mut self) -> (r: Result<Stmt, Error>)
        ensures
            Self::stmt_parsed(
                *old(self),
                *final(self),
                r,
                statement(old(self).tokens@, old(self).current as nat, old(self).notes()),
            ),
        decreases remaining(old(self).tokens@, old(self).current as nat), 36nat,
    {
        reveal(statement);
        reveal(for_statement);
        reveal(if_statement);
        reveal(print_statement);
        reveal(while_statement);
        reveal(block);
        reveal(expression_statement);
        if self.matching(&[TokenType::For]) {
            self.for_statement()
        } else if self.matching(&[TokenType::If]) {
            self.if_statement()
        } else if self.matching(&[TokenType::Print]) {
            self.print_statement()
        } else if self.matching(&[TokenType::While]) {
            self.while_statement()
        } else if self.matching(&[TokenType::LeftBrace]) {
            match self.block() {
                Ok(statements) => {
                    let block = Block { statements };
                    proof {
                        lemma_block_view(block);
                    }
                    Ok(Stmt::Block(block))
                },
                Err(error) => Err(error),
            }
        } else {
            self.expression_statement()
        }
    }

    /// Parses the initializer of a for statement.
    #[verifier::rlimit(50)]
    fn for_initializer(&mut self) -> (r: Result<Option<Stmt>, Error>)
        ensures
            ({
                let p = for_initializer(
                    old(self).tokens@,
                    old(self).current as nat,
                    old(self).notes(),
                );
                &&& Self::advanced(*old(self), *final(self), p.used, p.notes)
                &&& match p.value {
                    Some(Some(tree)) => r matches Ok(Some(s)) && s@ == tree,
                    Some(None) => r matches Ok(None),
                    None => r is Err,
                }
            }),
        decreases remaining(old(self).tokens@, old(self).current as nat), 34nat,
    {
        reveal(var_declaration);
        reveal(expression_statement);
        if self.matching(&[TokenType::Semicolon]) {
            Ok(None)
        } else {
            let first = if self.matching(&[TokenType::Var]) {
                self.var_declaration()
            } else {
                self.expression_statement()
            };
            match first {
                Ok(statement) => Ok(Some(statement)),
                Err(error) => Err(error),
            }
        }
    }

    /// Parses an expression that may be left out, and the token of type
    /// `end` behind it.
    #[verifier::rlimit(50)]
    fn for_clause(&mut self, end: &TokenType, message: &str) -> (r: Result<Option<Expr>, Error>)
        ensures
            ({
                let p = for_clause(
                    old(self).tokens@,
                    old(self).current as nat,
                    old(self).notes(),
                    *end,
                    message@,
                );
                &&& Self::advanced(*old(self), *final(self), p.used, p.notes)
                &&& match p.value {
                    Some(Some(tree)) => r matches Ok(Some(e)) && e@ == tree,
                    Some(None) => r matches Ok(None),
                    None => r is Err,
                }
            }),
        decreases remaining(old(self).tokens@, old(self).current as nat), 32nat,
    {
        reveal(expression);
        if self.check(end) {
            self.advance();
            Ok(None)
        } else {
            match self.expression() {
                Ok(clause) => {
                    if self.check(end) {
                        self.advance();
                        Ok(Some(clause))
                    } else {
                        let at: usize = self.current;
                        Err(self.error(at, message))
                    }
                },
                Err(error) => Err(error),
            }
        }
    }

    #[verifier::rlimit(50)]
    fn for_statement(&mut self) -> (r: Result<Stmt, Error>)
        ensures
            Self::stmt_parsed(
                *old(self),
                *final(self),
                r,
                for_statement(old(self).tokens@, old(self).current as nat, old(self).notes()),
            ),
        decreases remaining(old(self).tokens@, old(self).current as nat), 35nat,
    {
        reveal(for_statement);
        reveal(statement);
        if !self.check(&TokenType::LeftParen) {
            let at: usize = self.current;
            return Err(self.error(at, "Expect '(' after 'for'."));
        }
        self.advance();
        let initializer: Option<Stmt> = match self.for_initializer() {
            Ok(initializer) => initializer,
            Err(error) => {
                return Err(error);
            },
        };
        let condition: Option<Expr> = match self.for_clause(
            &TokenType::Semicolon,
            "Expect ';' after loop condition.",
        ) {
            Ok(condition) => condition,
            Err(error) => {
                return Err(error);
            },
        };
        let increment: Option<Expr> = match self.for_clause(
            &TokenType::RightParen,
            "Expect ')' after for clauses.",
        ) {
            Ok(increment) => increment,
            Err(error) => {
                return Err(error);
            },
        };
        let body: Stmt = match self.statement() {
            Ok(body) => body,
            Err(error) => {
                return Err(error);
            },
        };
        Ok(desugar(initializer, condition, increment, body))
    }

    #[verifier::rlimit(50)]
    fn if_statement(&mut self) -> (r: Result<Stmt, Error>)
        ensures
            Self::stmt_parsed(
                *old(self),
                *final(self),
                r,
                if_statement(old(self).tokens@, old(self).current as nat, old(self).notes()),
            ),
        decreases remaining(old(self).tokens@, old(self).current as nat), 33nat,
    {
        reveal(if_statement);
        reveal(statement);
        let condition: Expr = match self.condition(
            "Expect '(' after 'if'.",
            "Expect ')' after if condition.",
        ) {
            Ok(condition) => condition,
            Err(error) => {
                return Err(error);
            },
        };
        let then_branch: Stmt = match self.statement() {
            Ok(statement) => statement,
            Err(error) => {
                return Err(error);
            },
        };
        let else_branch: Option<Box<Stmt>> = if self.matching(&[TokenType::Else]) {
            match self.statement() {
                Ok(statement) => Some(Box::new(statement)),
                Err(error) => {
                    return Err(error);
                },
            }
        } else {
            None
        };
        Ok(Stmt::If(If { condition, then_branch: Box::new(then_branch), else_branch }))
    }

    fn print_statement(&mut self) -> (r: Result<Stmt, Error>)
        ensures
            Self::stmt_parsed(
                *old(self),
                *final(self),
                r,
                print_statement(old(self).tokens@, old(self).current as nat, old(self).notes()),
            ),
        decreases remaining(old(self).tokens@, old(self).current as nat), 33nat,
    {
        reveal(print_statement);
        match self.terminated("Expect ';' after value.") {
            Ok(expression) => Ok(Stmt::Print(Print { expression })),
            Err(error) => Err(error),
        }
    }

    #[verifier::rlimit(50)]
    fn var_declaration(&mut self) -> (r: Result<Stmt, Error>)
        ensures
            Self::stmt_parsed(
                *old(self),
                *final(self),
                r,
                var_declaration(old(self).tokens@, old(self).current as nat, old(self).notes()),
            ),
        decreases remaining(old(self).tokens@, old(self).current as nat), 33nat,
    {
        reveal(var_declaration);
        let name: Token = match self.consume(&TokenType::Identifier, "Expect variable name.") {
            Ok(name) => name,
            Err(error) => {
                return Err(error);
            },
        };
        if self.matching(&[TokenType::Equal]) {
            match self.terminated("Expect ';' after variable declaration.") {
                Ok(initializer) => Ok(Stmt::Var(Var { name, initializer: Some(initializer) })),
                Err(error) => Err(error),
            }
        } else {
            match self.consume(&TokenType::Semicolon, "Expect ';' after variable declaration.") {
                Ok(_) => Ok(Stmt::Var(Var { name, initializer: None })),
                Err(error) => Err(error),
            }
        }
    }

    #[verifier::rlimit(50)]
    fn while_statement(&mut self) -> (r: Result<Stmt, Error>)
        ensures
            Self::stmt_parsed(
                *old(self),
                *final(self),
                r,
                while_statement(old(self).tokens@, old(self).current as nat, old(self).notes()),
            ),
        decreases remaining(old(self).tokens@, old(self).current as nat), 33nat,
    {
        reveal(while_statement);
        reveal(statement);
        let condition: Expr = match self.condition(
            "Expect '(' after 'while'.",
            "Expect ')' after condition.",
        ) {
            Ok(condition) => condition,
            Err(error) => {
                return Err(error);
            },
        };
        match self.statement() {
            Ok(body) => Ok(Stmt::While(Box::new(While { condition, body }))),
            Err(error) => Err(error),
        }
    }

    fn expression_statement(&mut self) -> (r: Result<Stmt, Error>)
        ensures
            Self::stmt_parsed(
                *old(self),
                *final(self),
                r,
                expression_statement(
                    old(self).tokens@,
                    old(self).current as nat,
                    old(self).notes(),
                ),
            ),
        decreases remaining(old(self).tokens@, old(self).current as nat), 33nat,
    {
        reveal(expression_statement);
        match self.terminated("Expect ';' after value.") {
            Ok(expression) => Ok(Stmt::Expression(Expression { expression })),
            Err(error) => Err(error),
        }
    }

    /// Parses an expression and the ";" behind it.
    #[verifier::rlimit(50)]
    fn terminated(&mut self, message: &str) -> (r: Result<Expr, Error>)
        ensures
            Self::expr_parsed(
                *old(self),
                *final(self),
                r,
                terminated(
                    old(self).tokens@,
                    old(self).current as nat,
                    old(self).notes(),
                    message@,
                ),
            ),
        decreases remaining(old(self).tokens@, old(self).current as nat), 32nat,
    {
        reveal(expression);
        match self.expression() {
            Ok(expression) => {
                if self.matching(&[TokenType::Semicolon]) {
                    Ok(expression)
                } else {
                    let at: usize = self.current;
                    Err(self.error(at, message))
                }
            },
            Err(error) => Err(error),
        }
    }

    /// Parses an expression in parentheses.
    #[verifier::rlimit(50)]
    fn condition(&mut self, before: &str, after: &str) -> (r: Result<Expr, Error>)
        ensures
            Self::expr_parsed(
                *old(self),
                *final(self),
                r,
                condition(
                    old(self).tokens@,
                    old(self).current as nat,
                    old(self).notes(),
                    before@,
                    after@,
                ),
            ),
        decreases remaining(old(self).tokens@, old(self).current as nat), 32nat,
    {
        reveal(expression);
        if !self.check(&TokenType::LeftParen) {
            let at: usize = self.current;
            return Err(self.error(at, before));
        }
        self.advance();
        match self.expression() {
            Ok(expression) => {
                if self.matching(&[TokenType::RightParen]) {
                    Ok(expression)
                } else {
                    let at: usize = self.current;
                    Err(self.error(at, after))
                }
            },
            Err(error) => Err(error),
        }
    }

    /// Parses the parameter list of a function and the "{" of its body.
    #[verifier::rlimit(50)]
    fn signature(&mut self) -> (r: Result<Vec<Token>, Error>)
        ensures
            ({
                let p = signature(old(self).tokens@, old(self).current as nat, old(self).notes());
                &&& Self::advanced(*old(self), *final(self), p.used, p.notes)
                &&& match p.value {
                    Some(list) => r matches Ok(names) && names@ == list,
                    None => r is Err,
                }
            }),
    {
        reveal(parameters);
        if !self.check(&TokenType::LeftParen) {
            let at: usize = self.current;
            return Err(self.error(at, "Expect '(' after function name."));
        }
        self.advance();
        let ghost start = self.current;
        let ghost first = self.notes();
        let mut names: Vec<Token> = Vec::new();
        if !self.check(&TokenType::RightParen) {
            loop
                invariant_except_break
                    shift(
                        (self.current - start) as nat,
                        parameters(self.tokens@, self.current as nat, self.notes(), names@),
                    ) == parameters(self.tokens@, start as nat, first, Seq::empty()),
                invariant
                    self.tokens == old(self).tokens,
                    start == old(self).current + 1,
                    start <= self.current,
                    first == old(self).notes(),
                    !check(self.tokens@, start as nat, TokenType::RightParen),
                    check(old(self).tokens@, old(self).current as nat, TokenType::LeftParen),
                ensures
                    self.current == start + parameters(
                        self.tokens@,
                        start as nat,
                        first,
                        Seq::empty(),
                    ).used,
                    self.notes() == parameters(self.tokens@, start as nat, first, Seq::empty()).notes,
                    parameters(self.tokens@, start as nat, first, Seq::empty()).value == Some(
                        names@,
                    ),
                decreases remaining(self.tokens@, self.current as nat),
            {
                reveal(parameters);
                if names.len() >= MAX_ARITY {
                    let at: usize = self.current;
                    self.error(at, "Can't have more than 255 parameters.");
                }
                match self.consume(&TokenType::Identifier, "Expect parameter name.") {
                    Ok(name) => {
                        names.push(name);
                    },
                    Err(error) => {
                        return Err(error);
                    },
                }
                if self.check(&TokenType::Comma) {
                    self.advance();
                } else {
                    break ;
                }
            }
        }
        match self.consume(&TokenType::RightParen, "Expect ')' after parameters.") {
            Ok(_) => {},
            Err(error) => {
                return Err(error);
            },
        }
        match self.consume(&TokenType::LeftBrace, "Expect '{' before function body.") {
            Ok(_) => Ok(names),
            Err(error) => Err(error),
        }
    }

    #[verifier::rlimit(50)]
    fn function(&mut self) -> (r: Result<Stmt, Error>)
        ensures
            Self::stmt_parsed(
                *old(self),
                *final(self),
                r,
                function(old(self).tokens@, old(self).current as nat, old(self).notes()),
            ),
        decreases remaining(old(self).tokens@, old(self).current as nat), 39nat,
    {
        reveal(function);
        reveal(block);
        let name: Token = match self.consume(&TokenType::Identifier, "Expect function name.") {
            Ok(name) => name,
            Err(error) => {
                return Err(error);
            },
        };
        let parameters: Vec<Token> = match self.signature() {
            Ok(parameters) => parameters,
            Err(error) => {
                return Err(error);
            },
        };
        match self.block() {
            Ok(body) => {
                let function = Function { name, parameters, body };
                proof {
                    lemma_function_view(function);
                }
                Ok(Stmt::Function(Box::new(function)))
            },
            Err(error) => Err(error),
        }
    }

    #[verifier::rlimit(50)]
    fn block(&mut self) -> (r: Result<Vec<Stmt>, Error>)
        ensures
            Self::stmts_parsed(
                *old(self),
                *final(self),
                r,
                block(old(self).tokens@, old(self).current as nat, old(self).notes()),
            ),
        decreases remaining(old(self).tokens@, old(self).current as nat), 39nat,
    {
        reveal(block);
        reveal(block_items);
        reveal(declaration);
        let mut statements: Vec<Stmt> = Vec::new();
        assert(statements_view(statements@) =~= Seq::empty());
        while !self.is_at_end() && !self.check(&TokenType::RightBrace)
            invariant
                self.tokens == old(self).tokens,
                old(self).current <= self.current,
                shift(
                    (self.current - old(self).current) as nat,
                    block_items(
                        self.tokens@,
                        self.current as nat,
                        self.notes(),
                        statements_view(statements@),
                    ),
                ) == block_items(
                    old(self).tokens@,
                    old(self).current as nat,
                    old(self).notes(),
                    Seq::empty(),
                ),
            decreases remaining(self.tokens@, self.current as nat),
        {
            reveal(block_items);
            reveal(declaration);
            proof {
                lemma_declaration_advances(self.tokens@, self.current as nat, self.notes());
            }
            let ghost done = statements_view(statements@);
            match self.declaration() {
                Ok(statement) => {
                    statements.push(statement);
                    assert(statements_view(statements@) =~= done.push(statement@));
                },
                Err(_) => {},
            }
        }
        match self.consume(&TokenType::RightBrace, "Expect '}' after block.") {
            Ok(_) => Ok(statements),
            Err(error) => Err(error),
        }
    }

    fn expression(&mut self) -> (r: Result<Expr, Error>)
        ensures
            Self::expr_parsed(
                *old(self),
                *final(self),
                r,
                expression(old(self).tokens@, old(self).current as nat, old(self).notes()),
            ),
        decreases remaining(old(self).tokens@, old(self).current as nat), 31nat,
    {
        reveal(expression);
        reveal(assignment);
        self.assignment()
    }

    #[verifier::rlimit(50)]
    fn assignment(&mut self) -> (r: Result<Expr, Error>)
        ensures
            Self::expr_parsed(
                *old(self),
                *final(self),
                r,
                assignment(old(self).tokens@, old(self).current as nat, old(self).notes()),
            ),
        decreases remaining(old(self).tokens@, old(self).current as nat), 30nat,
    {
        reveal(assignment);
        reveal(chain);
        let target: Expr = match self.or() {
            Ok(target) => target,
            Err(error) => {
                return Err(error);
            },
        };
        if !self.check(&TokenType::Equal) {
            return Ok(target);
        }
        let equals: usize = self.current;
        self.advance();
        let value: Expr = match self.assignment() {
            Ok(value) => value,
            Err(error) => {
                return Err(error);
            },
        };
        match target {
            Expr::Variable(variable) => {
                let name: Token = variable.name;
                Ok(Expr::Assign(Box::new(Assign { name, value })))
            },
            _ => Err(self.error(equals, "Invalid Assignment target.")),
        }
    }

    fn or(&mut self) -> (r: Result<Expr, Error>)
        ensures
            Self::expr_parsed(
                *old(self),
                *final(self),
                r,
                chain(
                    OR as nat,
                    old(self).tokens@,
                    old(self).current as nat,
                    old(self).notes(),
                ),
            ),
        decreases remaining(old(self).tokens@, old(self).current as nat), 3 * OR + 7,
    {
        self.chain(OR)
    }

    fn and(&mut self) -> (r: Result<Expr, Error>)
        ensures
            Self::expr_parsed(
                *old(self),
                *final(self),
                r,
                chain(
                    AND as nat,
                    old(self).tokens@,
                    old(self).current as nat,
                    old(self).notes(),
                ),
            ),
        decreases remaining(old(self).tokens@, old(self).current as nat), 3 * AND + 7,
    {
        self.chain(AND)
    }

    fn equality(&mut self) -> (r: Result<Expr, Error>)
        ensures
            Self::expr_parsed(
                *old(self),
                *final(self),
                r,
                chain(
                    EQUALITY as nat,
                    old(self).tokens@,
                    old(self).current as nat,
                    old(self).notes(),
                ),
            ),
        decreases remaining(old(self).tokens@, old(self).current as nat), 3 * EQUALITY + 7,
    {
        self.chain(EQUALITY)
    }

    fn comparison(&mut self) -> (r: Result<Expr, Error>)
        ensures
            Self::expr_parsed(
                *old(self),
                *final(self),
                r,
                chain(
                    COMPARISON as nat,
                    old(self).tokens@,
                    old(self).current as nat,
                    old(self).notes(),
                ),
            ),
        decreases remaining(old(self).tokens@, old(self).current as nat), 3 * COMPARISON + 7,
    {
        self.chain(COMPARISON)
    }

    fn term(&mut self) -> (r: Result<Expr, Error>)
        ensures
            Self::expr_parsed(
                *old(self),
                *final(self),
                r,
                chain(
                    TERM as nat,
                    old(self).tokens@,
                    old(self).current as nat,
                    old(self).notes(),
                ),
            ),
        decreases remaining(old(self).tokens@, old(self).current as nat), 3 * TERM + 7,
    {
        self.chain(TERM)
    }

    fn factor(&mut self) -> (r: Result<Expr, Error>)
        ensures
            Self::expr_parsed(
                *old(self),
                *final(self),
                r,
                chain(
                    FACTOR as nat,
                    old(self).tokens@,
                    old(self).current as nat,
                    old(self).notes(),
                ),
            ),
        decreases remaining(old(self).tokens@, old(self).current as nat), 3 * FACTOR + 7,
    {
        self.chain(FACTOR)
    }

    /// Parses an operand of a level: the rule of the level below.
    fn operand(&mut self, level: u8) -> (r: Result<Expr, Error>)
        requires
            FACTOR <= level <= OR,
        ensures
            Self::expr_parsed(
                *old(self),
                *final(self),
                r,
                operand(
                    old(self).tokens@,
                    old(self).current as nat,
                    old(self).notes(),
                    level as nat,
                ),
            ),
        decreases remaining(old(self).tokens@, old(self).current as nat), 3 * level + 5,
    {
        reveal(operand);
        reveal(unary);
        reveal(chain);
        if level == OR {
            self.and()
        } else if level == AND {
            self.equality()
        } else if level == EQUALITY {
            self.comparison()
        } else if level == COMPARISON {
            self.term()
        } else if level == TERM {
            self.factor()
        } else {
            self.unary()
        }
    }

    /// Parses a chain of operands joined by the operators of a level.
    #[verifier::rlimit(50)]
    fn chain(&mut self, level: u8) -> (r: Result<Expr, Error>)
        requires
            FACTOR <= level <= OR,
        ensures
            Self::expr_parsed(
                *old(self),
                *final(self),
                r,
                chain(
                    level as nat,
                    old(self).tokens@,
                    old(self).current as nat,
                    old(self).notes(),
                ),
            ),
        decreases remaining(old(self).tokens@, old(self).current as nat), 3 * level + 6,
    {
        reveal(chain);
        reveal(chain_rest);
        reveal(operand);
        let mut left: Expr = match self.operand(level) {
            Ok(first) => first,
            Err(error) => {
                return Err(error);
            },
        };
        loop
            invariant
                FACTOR <= level <= OR,
                self.tokens == old(self).tokens,
                old(self).current <= self.current,
                shift(
                    (self.current - old(self).current) as nat,
                    chain_rest(
                        level as nat,
                        self.tokens@,
                        self.current as nat,
                        self.notes(),
                        left@,
                    ),
                ) == chain(
                    level as nat,
                    old(self).tokens@,
                    old(self).current as nat,
                    old(self).notes(),
                ),
            decreases remaining(self.tokens@, self.current as nat),
        {
            reveal(chain_rest);
            reveal(operand);
            if self.is_at_end() || !operator_of(level, self.tokens[self.current].ttype) {
                return Ok(left);
            }
            let operator: Token = self.tokens[self.current].clone();
            self.advance();
            let right: Expr = match self.operand(level) {
                Ok(right) => right,
                Err(error) => {
                    return Err(error);
                },
            };
            left = if level >= AND {
                Expr::Logical(Box::new(Logical { left, operator, right }))
            } else {
                Expr::Binary(Box::new(Binary { left, operator, right }))
            };
        }
    }

    #[verifier::rlimit(50)]
    fn unary(&mut self) -> (r: Result<Expr, Error>)
        ensures
            Self::expr_parsed(
                *old(self),
                *final(self),
                r,
                unary(old(self).tokens@, old(self).current as nat, old(self).notes()),
            ),
        decreases remaining(old(self).tokens@, old(self).current as nat), 3nat,
    {
        reveal(unary);
        reveal(call);
        if self.matching(&[TokenType::Bang, TokenType::Minus]) {
            let operator: Token = self.previous();
            match self.unary() {
                Ok(right) => Ok(Expr::Unary(Box::new(Unary { operator, right }))),
                Err(error) => Err(error),
            }
        } else {
            self.call()
        }
    }

    #[verifier::rlimit(50)]
    fn finish_call(&mut self, callee: Expr) -> (r: Result<Expr, Error>)
        ensures
            Self::expr_parsed(
                *old(self),
                *final(self),
                r,
                finish_call(
                    old(self).tokens@,
                    old(self).current as nat,
                    old(self).notes(),
                    callee@,
                ),
            ),
        decreases remaining(old(self).tokens@, old(self).current as nat), 33nat,
    {
        reveal(finish_call);
        reveal(arguments);
        reveal(expression);
        let mut list: Vec<Expr> = Vec::new();
        assert(expressions_view(list@) =~= Seq::empty());
        if !self.check(&TokenType::RightParen) {
            loop
                invariant_except_break
                    shift(
                        (self.current - old(self).current) as nat,
                        arguments(
                            self.tokens@,
                            self.current as nat,
                            self.notes(),
                            expressions_view(list@),
                        ),
                    ) == arguments(
                        old(self).tokens@,
                        old(self).current as nat,
                        old(self).notes(),
                        Seq::empty(),
                    ),
                invariant
                    self.tokens == old(self).tokens,
                    old(self).current <= self.current,
                    !check(old(self).tokens@, old(self).current as nat, TokenType::RightParen),
                ensures
                    Self::advanced(
                        *old(self),
                        *self,
                        arguments(
                            old(self).tokens@,
                            old(self).current as nat,
                            old(self).notes(),
                            Seq::empty(),
                        ).used,
                        arguments(
                            old(self).tokens@,
                            old(self).current as nat,
                            old(self).notes(),
                            Seq::empty(),
                        ).notes,
                    ),
                    arguments(
                        old(self).tokens@,
                        old(self).current as nat,
                        old(self).notes(),
                        Seq::empty(),
                    ).value == Some(expressions_view(list@)),
                decreases remaining(self.tokens@, self.current as nat),
            {
                reveal(finish_call);
                reveal(arguments);
                reveal(expression);
                if list.len() >= MAX_ARITY {
                    let at: usize = self.current;
                    self.error(at, "Can't have more than 255 arguments.");
                }
                let ghost done = expressions_view(list@);
                match self.expression() {
                    Ok(argument) => {
                        list.push(argument);
                        assert(expressions_view(list@) =~= done.push(argument@));
                    },
                    Err(error) => {
                        return Err(error);
                    },
                }
                if self.check(&TokenType::Comma) {
                    self.advance();
                } else {
                    break ;
                }
            }
        }
        match self.consume(&TokenType::RightParen, "Expect ')' after arguments.") {
            Ok(paren) => {
                let call = Call { callee, paren, arguments: list };
                proof {
                    lemma_call_view(call);
                }
                Ok(Expr::Call(Box::new(call)))
            },
            Err(error) => Err(error),
        }
    }

    #[verifier::rlimit(50)]
    fn call(&mut self) -> (r: Result<Expr, Error>)
        ensures
            Self::expr_parsed(
                *old(self),
                *final(self),
                r,
                call(old(self).tokens@, old(self).current as nat, old(self).notes()),
            ),
        decreases remaining(old(self).tokens@, old(self).current as nat), 2nat,
    {
        reveal(call);
        reveal(call_rest);
        reveal(primary);
        reveal(finish_call);
        let mut callee: Expr = match self.primary() {
            Ok(callee) => callee,
            Err(error) => {
                return Err(error);
            },
        };
        loop
            invariant
                self.tokens == old(self).tokens,
                old(self).current <= self.current,
                shift(
                    (self.current - old(self).current) as nat,
                    call_rest(self.tokens@, self.current as nat, self.notes(), callee@),
                ) == call(old(self).tokens@, old(self).current as nat, old(self).notes()),
            decreases remaining(self.tokens@, self.current as nat),
        {
            reveal(call_rest);
            reveal(finish_call);
            if !self.check(&TokenType::LeftParen) {
                return Ok(callee);
            }
            self.advance();
            callee = match self.finish_call(callee) {
                Ok(call) => call,
                Err(error) => {
                    return Err(error);
                },
            };
        }
    }

    #[verifier::rlimit(50)]
    fn primary(&mut self) -> (r: Result<Expr, Error>)
        ensures
            Self::expr_parsed(
                *old(self),
                *final(self),
                r,
                primary(old(self).tokens@, old(self).current as nat, old(self).notes()),
            ),
        decreases remaining(old(self).tokens@, old(self).current as nat), 1nat,
    {
        reveal(primary);
        reveal(expression);
        let at: usize = self.current;
        if self.is_at_end() {
            return Err(self.error(at, "Expect expression."));
        }
        let token: Token = self.tokens[self.current].clone();
        match token.ttype {
            TokenType::False => {
                self.advance();
                Ok(Expr::Literal(Literal::Bool(false)))
            },
            TokenType::True => {
                self.advance();
                Ok(Expr::Literal(Literal::Bool(true)))
            },
            TokenType::Nil => {
                self.advance();
                Ok(Expr::Literal(Literal::Nil))
            },
            TokenType::Number | TokenType::String => match token.literal {
                Some(literal) => {
                    self.advance();
                    Ok(Expr::Literal(literal))
                },
                None => Err(self.error(at, "Expect expression.")),
            },
            TokenType::Identifier => {
                self.advance();
                Ok(Expr::Variable(Box::new(Variable { name: token })))
            },
            TokenType::LeftParen => {
                self.advance();
                match self.expression() {
                    Ok(expression) => {
                        if self.matching(&[TokenType::RightParen]) {
                            Ok(Expr::Grouping(Box::new(Grouping { expression })))
                        } else {
                            let close: usize = self.current;
                            Err(self.error(close, "Expect ')' after expression."))
                        }
                    },
                    Err(error) => Err(error),
                }
            },
            _ => Err(self.error(at, "Expect expression.")),
        }
    }
}

/// Whether a token type is an operator of a level.
fn operator_of(level: u8, ttype: TokenType) -> (r: bool)
    ensures
        r == is_operator(level as nat, ttype),
{
    match ttype {
        TokenType::Slash | TokenType::Star => level == FACTOR,
        TokenType::Minus | TokenType::Plus => level == TERM,
        TokenType::Greater
        | TokenType::GreaterEqual
        | TokenType::Less
        | TokenType::LessEqual => level == COMPARISON,
        TokenType::BangEqual | TokenType::EqualEqual => level == EQUALITY,
        TokenType::And => level == AND,
        TokenType::Or => level == OR,
        _ => false,
    }
}

/// Rewrites the parts of a for statement as a while loop.
pub fn desugar(
    initializer: Option<Stmt>,
    condition: Option<Expr>,
    increment: Option<Expr>,
    body: Stmt,
) -> (r: Stmt)
    ensures
        r@ == desugared(
            match initializer {
                Some(s) => Some(s@),
                None => None,
            },
            match condition {
                Some(e) => Some(e@),
                None => None,
            },
            match increment {
                Some(e) => Some(e@),
                None => None,
            },
            body@,
        ),
{
    let stepped: Stmt = match increment {
        Some(expression) => {
            let mut statements: Vec<Stmt> = Vec::new();
            statements.push(body);
            statements.push(Stmt::Expression(Expression { expression }));
            let block = Block { statements };
            proof {
                lemma_block_view(block);
                assert(statements_view(block.statements@) =~= seq![
                    body@,
                    StmtView::Expression { expression: expression@ },
                ]);
            }
            Stmt::Block(block)
        },
        None => body,
    };
    let condition: Expr = match condition {
        Some(condition) => condition,
        None => Expr::Literal(Literal::Bool(true)),
    };
    let looped: Stmt = Stmt::While(Box::new(While { condition, body: stepped }));
    match initializer {
        Some(first) => {
            let mut statements: Vec<Stmt> = Vec::new();
            statements.push(first);
            statements.push(looped);
            let block = Block { statements };
            proof {
                lemma_block_view(block);
                assert(statements_view(block.statements@) =~= seq![first@, looped@]);
            }
            Stmt::Block(block)
        },
        None => looped,
    }
}

} // verus!
