//! Tokens, and the scanner that cuts a source text into them.

use crate::lexical::{
    alpha, alphanumeric, ascii, bytes_text, char_at, digit, digits_end, lemma_ascii_decodes,
    lemma_digits_end,
    lemma_lex_advances, lemma_line_end, lemma_quote, lemma_word_end, lex, lex_number,
    lex_string, lex_word, line_end, number_end, quote, scan, text, token, word_end, word_type,
    Lexed,
};
use crate::number::{number_text, Number};
use crate::text::{decimal, decimal_text};
use vstd::prelude::*;
use vstd::slice::slice_subrange;
use vstd::string::StringExecFns;
use vstd::utf8::{decode_utf8, valid_utf8};

verus! {

/// The lexical category of a token.
#[derive(Debug, PartialEq, Eq, Copy, Clone, Structural)]
pub enum TokenType {
    LeftParen,
    RightParen,
    LeftBrace,
    RightBrace,
    Comma,
    Dot,
    Minus,
    Plus,
    Semicolon,
    Slash,
    Star,
    Bang,
    BangEqual,
    Equal,
    EqualEqual,
    Greater,
    GreaterEqual,
    Less,
    LessEqual,
    Identifier,
    String,
    Number,
    And,
    Class,
    Else,
    False,
    Fun,
    For,
    If,
    Nil,
    Or,
    Print,
    Return,
    Super,
    This,
    True,
    Var,
    While,
    Eof,
}

/// The name of a token type: that of its variant.
pub open spec fn kind_name(ttype: TokenType) -> Seq<char> {
    match ttype {
        TokenType::LeftParen => "LeftParen"@,
        TokenType::RightParen => "RightParen"@,
        TokenType::LeftBrace => "LeftBrace"@,
        TokenType::RightBrace => "RightBrace"@,
        TokenType::Comma => "Comma"@,
        TokenType::Dot => "Dot"@,
        TokenType::Minus => "Minus"@,
        TokenType::Plus => "Plus"@,
        TokenType::Semicolon => "Semicolon"@,
        TokenType::Slash => "Slash"@,
        TokenType::Star => "Star"@,
        TokenType::Bang => "Bang"@,
        TokenType::BangEqual => "BangEqual"@,
        TokenType::Equal => "Equal"@,
        TokenType::EqualEqual => "EqualEqual"@,
        TokenType::Greater => "Greater"@,
        TokenType::GreaterEqual => "GreaterEqual"@,
        TokenType::Less => "Less"@,
        TokenType::LessEqual => "LessEqual"@,
        TokenType::Identifier => "Identifier"@,
        TokenType::String => "String"@,
        TokenType::Number => "Number"@,
        TokenType::And => "And"@,
        TokenType::Class => "Class"@,
        TokenType::Else => "Else"@,
        TokenType::False => "False"@,
        TokenType::Fun => "Fun"@,
        TokenType::For => "For"@,
        TokenType::If => "If"@,
        TokenType::Nil => "Nil"@,
        TokenType::Or => "Or"@,
        TokenType::Print => "Print"@,
        TokenType::Return => "Return"@,
        TokenType::Super => "Super"@,
        TokenType::This => "This"@,
        TokenType::True => "True"@,
        TokenType::Var => "Var"@,
        TokenType::While => "While"@,
        TokenType::Eof => "Eof"@,
    }
}

impl TokenType {
    /// The name of the type.
    pub fn name(&self) -> (r: String)
        ensures
            r@ == kind_name(*self),
    {
        String::from_str(
            match self {
                TokenType::LeftParen => "LeftParen",
                TokenType::RightParen => "RightParen",
                TokenType::LeftBrace => "LeftBrace",
                TokenType::RightBrace => "RightBrace",
                TokenType::Comma => "Comma",
                TokenType::Dot => "Dot",
                TokenType::Minus => "Minus",
                TokenType::Plus => "Plus",
                TokenType::Semicolon => "Semicolon",
                TokenType::Slash => "Slash",
                TokenType::Star => "Star",
                TokenType::Bang => "Bang",
                TokenType::BangEqual => "BangEqual",
                TokenType::Equal => "Equal",
                TokenType::EqualEqual => "EqualEqual",
                TokenType::Greater => "Greater",
                TokenType::GreaterEqual => "GreaterEqual",
                TokenType::Less => "Less",
                TokenType::LessEqual => "LessEqual",
                TokenType::Identifier => "Identifier",
                TokenType::String => "String",
                TokenType::Number => "Number",
                TokenType::And => "And",
                TokenType::Class => "Class",
                TokenType::Else => "Else",
                TokenType::False => "False",
                TokenType::Fun => "Fun",
                TokenType::For => "For",
                TokenType::If => "If",
                TokenType::Nil => "Nil",
                TokenType::Or => "Or",
                TokenType::Print => "Print",
                TokenType::Return => "Return",
                TokenType::Super => "Super",
                TokenType::This => "This",
                TokenType::True => "True",
                TokenType::Var => "Var",
                TokenType::While => "While",
                TokenType::Eof => "Eof",
            },
        )
    }
}

/// The payload of a token, and the constant of a literal expression.
#[derive(Debug, PartialEq)]
pub enum Literal {
    Identifier(String),
    Str(String),
    Number(Number),
    Bool(bool),
    Nil,
}

impl Clone for Literal {
    fn clone(&self) -> (r: Self)
        ensures
            r == *self,
    {
        match self {
            Literal::Identifier(name) => Literal::Identifier(name.clone()),
            Literal::Str(text) => Literal::Str(text.clone()),
            Literal::Number(number) => Literal::Number(*number),
            Literal::Bool(value) => Literal::Bool(*value),
            Literal::Nil => Literal::Nil,
        }
    }
}

/// A literal as plain data.
pub enum LiteralView {
    Identifier(Seq<char>),
    Str(Seq<char>),
    Number(Number),
    Bool(bool),
    Nil,
}

impl View for Literal {
    type V = LiteralView;

    open spec fn view(&self) -> LiteralView {
        match self {
            Literal::Identifier(name) => LiteralView::Identifier(name@),
            Literal::Str(text) => LiteralView::Str(text@),
            Literal::Number(number) => LiteralView::Number(*number),
            Literal::Bool(value) => LiteralView::Bool(*value),
            Literal::Nil => LiteralView::Nil,
        }
    }
}

/// How a literal is written: a name or a string as it is, a number as
/// [`number_text`] has it.
pub open spec fn literal_text(literal: LiteralView) -> Seq<char> {
    match literal {
        LiteralView::Identifier(name) => name,
        LiteralView::Str(text) => text,
        LiteralView::Number(number) => number_text(number.bits),
        LiteralView::Bool(value) => if value {
            "true"@
        } else {
            "false"@
        },
        LiteralView::Nil => "nil"@,
    }
}

impl Literal {
    /// Writes the literal.
    pub fn to_text(&self) -> (r: String)
        ensures
            r@ == literal_text(self@),
    {
        match self {
            Literal::Identifier(name) => name.clone(),
            Literal::Str(text) => text.clone(),
            Literal::Number(number) => number.to_text(),
            Literal::Bool(value) => if *value {
                String::from_str("true")
            } else {
                String::from_str("false")
            },
            Literal::Nil => String::from_str("nil"),
        }
    }
}

/// A categorised piece of source text.
#[derive(Debug, PartialEq)]
pub struct Token {
    pub lexeme: String,
    pub line: usize,
    pub literal: Option<Literal>,
    pub ttype: TokenType,
}

/// A token as plain data.
pub struct TokenView {
    pub lexeme: Seq<char>,
    pub line: nat,
    pub literal: Option<LiteralView>,
    pub ttype: TokenType,
}

impl View for Token {
    type V = TokenView;

    open spec fn view(&self) -> TokenView {
        TokenView {
            lexeme: self.lexeme@,
            line: self.line as nat,
            literal: match self.literal {
                Some(literal) => Some(literal@),
                None => None,
            },
            ttype: self.ttype,
        }
    }
}

/// A list of tokens as plain data.
pub open spec fn tokens_view(list: Seq<Token>) -> Seq<TokenView> {
    Seq::new(list.len(), |i: int| list[i]@)
}

/// How a token is written: its line, type, text and payload. A token
/// without payload is written with an empty one.
pub open spec fn token_text(token: TokenView) -> Seq<char> {
    "Line: "@ + decimal_text(token.line) + ", Token type: "@ + kind_name(token.ttype)
        + ", Lexeme: "@ + token.lexeme + " Literal: "@ + match token.literal {
        Some(literal) => literal_text(literal),
        None => Seq::empty(),
    }
}

impl Token {
    /// Writes the token.
    pub fn to_text(&self) -> (r: String)
        ensures
            r@ == token_text(self@),
    {
        let mut text = String::from_str("Line: ");
        text.append(decimal(self.line).as_str());
        text.append(", Token type: ");
        text.append(self.ttype.name().as_str());
        text.append(", Lexeme: ");
        text.append(self.lexeme.as_str());
        text.append(" Literal: ");
        match &self.literal {
            Some(literal) => {
                text.append(literal.to_text().as_str());
            },
            None => {
                assert(text@ + Seq::<char>::empty() =~= text@);
            },
        }
        text
    }
}

impl Clone for Token {
    fn clone(&self) -> (r: Self)
        ensures
            r == *self,
    {
        let literal: Option<Literal> = match &self.literal {
            Some(literal) => Some(literal.clone()),
            None => None,
        };
        Token { lexeme: self.lexeme.clone(), line: self.line, literal, ttype: self.ttype }
    }
}

/// A complaint about the source: where, and what.
#[derive(Debug, PartialEq)]
pub struct Diagnostic {
    pub line: usize,
    pub location: String,
    pub message: String,
}

/// A diagnostic as plain data.
pub struct DiagnosticView {
    pub line: nat,
    pub location: Seq<char>,
    pub message: Seq<char>,
}

impl View for Diagnostic {
    type V = DiagnosticView;

    open spec fn view(&self) -> DiagnosticView {
        DiagnosticView {
            line: self.line as nat,
            location: self.location@,
            message: self.message@,
        }
    }
}

impl Clone for Diagnostic {
    fn clone(&self) -> (r: Self)
        ensures
            r == *self,
    {
        Diagnostic {
            line: self.line,
            location: self.location.clone(),
            message: self.message.clone(),
        }
    }
}

/// How a diagnostic is written.
pub open spec fn diagnostic_text(diagnostic: DiagnosticView) -> Seq<char> {
    "[line: "@ + decimal_text(diagnostic.line) + "] Error: "@ + diagnostic.location + " : "@
        + diagnostic.message
}

impl Diagnostic {
    /// Writes the diagnostic.
    pub fn to_text(&self) -> (r: String)
        ensures
            r@ == diagnostic_text(self@),
    {
        let mut text = String::from_str("[line: ");
        text.append(decimal(self.line).as_str());
        text.append("] Error: ");
        text.append(self.location.as_str());
        text.append(" : ");
        text.append(self.message.as_str());
        text
    }
}

/// A list of diagnostics as plain data.
pub open spec fn diagnostics_view(list: Seq<Diagnostic>) -> Seq<DiagnosticView> {
    Seq::new(list.len(), |i: int| list[i]@)
}

/// Where a token is, as a diagnostic says it: the end of the input, or the
/// token's text.
pub open spec fn location_of(token: Token) -> Seq<char> {
    if token.ttype == TokenType::Eof {
        " at end"@
    } else {
        " at ' "@ + token.lexeme@ + " '"@
    }
}

/// The diagnostic that holds `message` against `token`.
pub open spec fn diagnostic_at(token: Token, message: Seq<char>) -> DiagnosticView {
    DiagnosticView { line: token.line as nat, location: location_of(token), message }
}

/// Holds `message` against `token`.
pub fn error(token: &Token, message: &str) -> (r: Diagnostic)
    ensures
        r@ == diagnostic_at(*token, message@),
{
    if token.ttype == TokenType::Eof {
        report(token.line, " at end", message)
    } else {
        let mut location = String::from_str(" at ' ");
        location.append(token.lexeme.as_str());
        location.append(" '");
        report(token.line, location.as_str(), message)
    }
}

/// The diagnostic made of a line, a location and a message.
pub fn report(line: usize, position: &str, message: &str) -> (r: Diagnostic)
    ensures
        r@ == (DiagnosticView { line: line as nat, location: position@, message: message@ }),
{
    Diagnostic { line, location: String::from_str(position), message: String::from_str(message) }
}

/// The text that bytes stand for: the characters that they encode in UTF-8,
/// with U+FFFD in place of what encodes none.
pub uninterp spec fn lossy_text(bytes: Seq<u8>) -> Seq<char>;

/// `String::from_utf8_lossy` of std, with its result as an owned string:
/// the characters are a function of the bytes alone, which [`lossy_text`]
/// names, and they are what the bytes decode to where those are valid
/// UTF-8.
#[verifier::external_body]
fn lossy(bytes: &[u8]) -> (r: String)
    ensures
        r@ == lossy_text(bytes@),
        valid_utf8(bytes@) ==> r@ == decode_utf8(bytes@),
{
    String::from_utf8_lossy(bytes).into_owned()
}

/// The text of bytes.
fn text_of(bytes: &[u8]) -> (r: String)
    ensures
        r@ == bytes_text(bytes@),
{
    proof {
        if ascii(bytes@) {
            lemma_ascii_decodes(bytes@);
        }
    }
    lossy(bytes)
}

/// Whether a character is a decimal digit.
pub fn is_digit(c: char) -> (r: bool)
    ensures
        r == digit(c),
{
    c >= '0' && c <= '9'
}

/// Whether a character may start an identifier: a letter or `_`.
pub fn is_alpha(c: char) -> (r: bool)
    ensures
        r == alpha(c),
{
    c >= 'a' && c <= 'z' || c >= 'A' && c <= 'Z' || c == '_'
}

/// Whether a character may continue an identifier.
pub fn is_alphanumeric(c: char) -> (r: bool)
    ensures
        r == alphanumeric(c),
{
    is_alpha(c) || is_digit(c)
}

/// Whether a text is the given word.
fn is_word(text: &String, word: &str) -> (r: bool)
    ensures
        r == (text@ == word@),
{
    *text == String::from_str(word)
}

/// The type of a word: that of the keyword it is, or an identifier.
fn type_of_word(text: &String) -> (r: TokenType)
    ensures
        r == word_type(text@),
{
    if is_word(text, "and") {
        TokenType::And
    } else if is_word(text, "class") {
        TokenType::Class
    } else if is_word(text, "else") {
        TokenType::Else
    } else if is_word(text, "false") {
        TokenType::False
    } else if is_word(text, "for") {
        TokenType::For
    } else if is_word(text, "fun") {
        TokenType::Fun
    } else if is_word(text, "if") {
        TokenType::If
    } else if is_word(text, "nil") {
        TokenType::Nil
    } else if is_word(text, "or") {
        TokenType::Or
    } else if is_word(text, "print") {
        TokenType::Print
    } else if is_word(text, "return") {
        TokenType::Return
    } else if is_word(text, "super") {
        TokenType::Super
    } else if is_word(text, "this") {
        TokenType::This
    } else if is_word(text, "true") {
        TokenType::True
    } else if is_word(text, "var") {
        TokenType::Var
    } else if is_word(text, "while") {
        TokenType::While
    } else {
        TokenType::Identifier
    }
}

/// The scanner's state: the source, the tokens and diagnostics so far, the
/// position of the next byte, the start of the token being scanned, and
/// the line that the next byte is on.
#[derive(Debug)]
pub struct Scanner {
    pub source: Vec<u8>,
    pub list: Vec<Token>,
    pub current: usize,
    pub start: usize,
    pub line: usize,
    pub diagnostics: Vec<Diagnostic>,
}

impl Scanner {
    /// The tokens so far, as plain data.
    pub open spec fn tokens(&self) -> Seq<TokenView> {
        tokens_view(self.list@)
    }

    /// The diagnostics so far, as plain data.
    pub open spec fn notes(&self) -> Seq<DiagnosticView> {
        diagnostics_view(self.diagnostics@)
    }

    /// The line count cannot overflow on what is left of the source.
    pub open spec fn roomy(&self) -> bool {
        &&& self.current <= self.source@.len()
        &&& self.line + (self.source@.len() - self.current) <= usize::MAX
    }

    /// `after` is `before` at another position.
    pub open spec fn moved(before: Scanner, after: Scanner, current: int) -> bool {
        &&& after.source == before.source
        &&& after.list == before.list
        &&& after.current == current
        &&& after.start == before.start
        &&& after.line == before.line
        &&& after.diagnostics == before.diagnostics
    }

    /// `after` is `before` with what stands at its position scanned as `l`.
    pub open spec fn lexed(before: Scanner, after: Scanner, l: Lexed) -> bool {
        &&& after.source == before.source
        &&& after.current == l.next
        &&& after.line == l.line
        &&& after.tokens() == match l.token {
            Some(token) => before.tokens().push(token),
            None => before.tokens(),
        }
        &&& after.notes() == match l.note {
            Some(note) => before.notes().push(note),
            None => before.notes(),
        }
    }

    /// A scanner at the start of `source`, which begins on line `line`.
    pub fn new(source: Vec<u8>, line: usize) -> (r: Scanner)
        ensures
            r.source == source,
            r.source@.len() <= usize::MAX,
            r.current == 0,
            r.line == line,
            r.tokens() == Seq::<TokenView>::empty(),
            r.notes() == Seq::<DiagnosticView>::empty(),
    {
        // The length of a vector fits a `usize`.
        let _: usize = source.len();
        let r = Scanner {
            source,
            list: Vec::new(),
            current: 0,
            start: 0,
            line,
            diagnostics: Vec::new(),
        };
        assert(r.tokens() =~= Seq::<TokenView>::empty());
        assert(r.notes() =~= Seq::<DiagnosticView>::empty());
        r
    }

    /// Scans the rest of the source: appends its tokens, the end marker
    /// last, and the diagnostics for what is no token.
    #[verifier::rlimit(50)]
    pub fn scan_tokens(&mut self)
        requires
            old(self).line + old(self).source@.len() <= usize::MAX,
        ensures
            final(self).source == old(self).source,
            ({
                let s = scan(
                    old(self).source@,
                    old(self).current as nat,
                    old(self).line as nat,
                    old(self).tokens(),
                    old(self).notes(),
                );
                &&& final(self).tokens() == s.tokens
                &&& final(self).notes() == s.notes
                &&& final(self).line == s.line
            }),
    {
        while !self.is_at_end()
            invariant
                self.source == old(self).source,
                self.line + self.source@.len() <= usize::MAX + self.current,
                scan(
                    self.source@,
                    self.current as nat,
                    self.line as nat,
                    self.tokens(),
                    self.notes(),
                ) == scan(
                    old(self).source@,
                    old(self).current as nat,
                    old(self).line as nat,
                    old(self).tokens(),
                    old(self).notes(),
                ),
            decreases self.source@.len() - self.current,
        {
            proof {
                lemma_lex_advances(self.source@, self.current as nat, self.line as nat);
            }
            self.start = self.current;
            self.scan_token();
        }
        let ghost before = self.tokens();
        let marker = Token {
            lexeme: String::new(),
            line: self.line,
            literal: Some(Literal::Str(String::new())),
            ttype: TokenType::Eof,
        };
        self.list.push(marker);
        assert(self.tokens() =~= before.push(marker@));
    }

    fn is_at_end(&self) -> (r: bool)
        ensures
            r == (self.current >= self.source@.len()),
    {
        self.current >= self.source.len()
    }

    /// Steps over the current byte and returns it as a character; at the
    /// end of the source, stays and returns NUL.
    fn advance(&mut self) -> (r: char)
        ensures
            r == char_at(old(self).source@, old(self).current as nat),
            Self::moved(
                *old(self),
                *final(self),
                if old(self).current < old(self).source@.len() {
                    old(self).current + 1
                } else {
                    old(self).current as int
                },
            ),
    {
        if self.current < self.source.len() {
            self.current += 1;
            self.source[self.current - 1] as char
        } else {
            '\0'
        }
    }

    /// Steps over the current byte where it is `expected`.
    fn match_token(&mut self, expected: char) -> (r: bool)
        ensures
            r == (old(self).current < old(self).source@.len() && char_at(
                old(self).source@,
                old(self).current as nat,
            ) == expected),
            Self::moved(
                *old(self),
                *final(self),
                if r {
                    old(self).current + 1
                } else {
                    old(self).current as int
                },
            ),
    {
        if self.is_at_end() {
            return false;
        }
        if self.source[self.current] as char != expected {
            return false;
        }
        self.advance();
        true
    }

    /// The current byte as a character, NUL at the end.
    fn peek(&self) -> (r: char)
        ensures
            r == char_at(self.source@, self.current as nat),
    {
        if self.is_at_end() {
            return '\0';
        }
        self.source[self.current] as char
    }

    /// The byte behind the current one as a character, NUL at the end.
    fn peek_next(&self) -> (r: char)
        ensures
            r == char_at(self.source@, (self.current + 1) as nat),
    {
        if self.current >= self.source.len() || self.current + 1 >= self.source.len() {
            return '\0';
        }
        self.source[self.current + 1] as char
    }

    /// Scans the rest of a string, behind its opening quote.
    #[verifier::rlimit(50)]
    fn string(&mut self)
        requires
            old(self).roomy(),
            old(self).current == old(self).start + 1,
        ensures
            Self::lexed(
                *old(self),
                *final(self),
                lex_string(old(self).source@, old(self).start as nat, old(self).line as nat),
            ),
    {
        let ghost end = quote(self.source@, self.current as nat, self.line as nat);
        proof {
            lemma_quote(self.source@, self.current as nat, self.line as nat);
        }
        while self.peek() != '"' && !self.is_at_end()
            invariant
                self.roomy(),
                self.source == old(self).source,
                self.start == old(self).start,
                self.list == old(self).list,
                self.diagnostics == old(self).diagnostics,
                self.start < self.current,
                quote(self.source@, self.current as nat, self.line as nat) == end,
            decreases self.source@.len() - self.current,
        {
            if self.peek() == '\n' {
                self.line += 1;
            }
            self.advance();
        }
        if self.is_at_end() {
            let note = report(self.line, "", "Unterminated string.");
            let ghost before = self.notes();
            self.diagnostics.push(note);
            proof {
                reveal_strlit("");
                assert(""@ =~= Seq::<char>::empty());
                assert(self.notes() =~= before.push(note@));
            }
            return ;
        }
        self.advance();
        let value = text_of(slice_subrange(self.source.as_slice(), self.start + 1, self.current - 1));
        self.make_token(TokenType::String, Literal::Str(value));
    }

    /// Scans the rest of a number, behind its first digit.
    #[verifier::rlimit(50)]
    fn number(&mut self)
        requires
            old(self).roomy(),
            old(self).current == old(self).start + 1,
            digit(char_at(old(self).source@, old(self).start as nat)),
        ensures
            Self::lexed(
                *old(self),
                *final(self),
                lex_number(old(self).source@, old(self).start as nat, old(self).line as nat),
            ),
    {
        let ghost whole = digits_end(self.source@, self.start as nat);
        proof {
            lemma_digits_end(self.source@, self.current as nat);
        }
        while is_digit(self.peek())
            invariant
                self.current <= self.source@.len(),
                Self::moved(*old(self), *self, self.current as int),
                self.start < self.current,
                digits_end(self.source@, self.current as nat) == whole,
            decreases self.source@.len() - self.current,
        {
            self.advance();
        }
        if self.peek() == '.' && is_digit(self.peek_next()) {
            self.advance();
            proof {
                lemma_digits_end(self.source@, self.current as nat);
            }
            while is_digit(self.peek())
                invariant
                    self.current <= self.source@.len(),
                    Self::moved(*old(self), *self, self.current as int),
                    self.start < self.current,
                    digits_end(self.source@, self.current as nat) == number_end(
                        self.source@,
                        self.start as nat,
                    ),
                decreases self.source@.len() - self.current,
            {
                self.advance();
            }
        }
        let text = text_of(slice_subrange(self.source.as_slice(), self.start, self.current));
        match Number::parse(text.as_str()) {
            Some(number) => {
                self.make_token(TokenType::Number, Literal::Number(number));
            },
            None => {
                let note = report(self.line, "", "Invalid number.");
                let ghost before = self.notes();
                self.diagnostics.push(note);
                proof {
                    reveal_strlit("");
                    assert(""@ =~= Seq::<char>::empty());
                    assert(self.notes() =~= before.push(note@));
                }
            },
        }
    }

    /// Scans the rest of a word, behind its first character.
    #[verifier::rlimit(50)]
    fn identifier(&mut self)
        requires
            old(self).roomy(),
            old(self).current == old(self).start + 1,
        ensures
            Self::lexed(
                *old(self),
                *final(self),
                lex_word(old(self).source@, old(self).start as nat, old(self).line as nat),
            ),
    {
        let ghost end = word_end(self.source@, self.current as nat);
        proof {
            lemma_word_end(self.source@, self.current as nat);
        }
        while is_alphanumeric(self.peek())
            invariant
                self.current <= self.source@.len(),
                Self::moved(*old(self), *self, self.current as int),
                self.start < self.current,
                word_end(self.source@, self.current as nat) == end,
            decreases self.source@.len() - self.current,
        {
            self.advance();
        }
        let text = text_of(slice_subrange(self.source.as_slice(), self.start, self.current));
        self.keyword_or_identifier(&text);
    }

    /// Appends the token of a word: a keyword, or an identifier.
    fn keyword_or_identifier(&mut self, word: &String)
        requires
            old(self).start <= old(self).current <= old(self).source@.len(),
            word@ == text(old(self).source@, old(self).start as nat, old(self).current as nat),
        ensures
            Self::lexed(
                *old(self),
                *final(self),
                token(
                    old(self).source@,
                    old(self).start as nat,
                    old(self).current as nat,
                    old(self).line as nat,
                    word_type(word@),
                    LiteralView::Str(word@),
                ),
            ),
    {
        self.add_token(type_of_word(word), Some(word.as_str()));
    }

    /// Scans what stands at the current position.
    #[verifier::rlimit(50)]
    fn scan_token(&mut self)
        requires
            old(self).roomy(),
            old(self).current < old(self).source@.len(),
            old(self).start == old(self).current,
        ensures
            Self::lexed(
                *old(self),
                *final(self),
                lex(old(self).source@, old(self).current as nat, old(self).line as nat),
            ),
    {
        let c: char = self.advance();
        if c == '(' {
            self.add_token(TokenType::LeftParen, None);
        } else if c == ')' {
            self.add_token(TokenType::RightParen, None);
        } else if c == '{' {
            self.add_token(TokenType::LeftBrace, None);
        } else if c == '}' {
            self.add_token(TokenType::RightBrace, None);
        } else if c == ',' {
            self.add_token(TokenType::Comma, None);
        } else if c == '.' {
            self.add_token(TokenType::Dot, None);
        } else if c == '-' {
            self.add_token(TokenType::Minus, None);
        } else if c == '+' {
            self.add_token(TokenType::Plus, None);
        } else if c == ';' {
            self.add_token(TokenType::Semicolon, None);
        } else if c == '*' {
            self.add_token(TokenType::Star, None);
        } else if c == '!' {
            if self.match_token('=') {
                self.add_token(TokenType::BangEqual, None);
            } else {
                self.add_token(TokenType::Bang, None);
            }
        } else if c == '=' {
            if self.match_token('=') {
                self.add_token(TokenType::EqualEqual, None);
            } else {
                self.add_token(TokenType::Equal, None);
            }
        } else if c == '<' {
            if self.match_token('=') {
                self.add_token(TokenType::LessEqual, None);
            } else {
                self.add_token(TokenType::Less, None);
            }
        } else if c == '>' {
            if self.match_token('=') {
                self.add_token(TokenType::GreaterEqual, None);
            } else {
                self.add_token(TokenType::Greater, None);
            }
        } else if c == '/' {
            if self.match_token('/') {
                let ghost end = line_end(self.source@, self.current as nat);
                proof {
                    lemma_line_end(self.source@, self.current as nat);
                }
                while self.peek() != '\n' && !self.is_at_end()
                    invariant
                        self.current <= self.source@.len(),
                        Self::moved(*old(self), *self, self.current as int),
                        line_end(self.source@, self.current as nat) == end,
                    decreases self.source@.len() - self.current,
                {
                    self.advance();
                }
            } else {
                self.add_token(TokenType::Slash, None);
            }
        } else if c == ' ' || c == '\r' || c == '\t' {
        } else if c == '\n' {
            self.line += 1;
        } else if c == '"' {
            self.string();
        } else if is_digit(c) {
            self.number();
        } else if is_alpha(c) {
            self.identifier();
        } else {
            let note = report(self.line, "", "Unexpected character.");
            let ghost before = self.notes();
            self.diagnostics.push(note);
            proof {
                reveal_strlit("");
                assert(""@ =~= Seq::<char>::empty());
                assert(self.notes() =~= before.push(note@));
            }
        }
    }

    /// Appends the token of the bytes from `start` up to the current one.
    fn make_token(&mut self, ttype: TokenType, literal: Literal)
        requires
            old(self).start <= old(self).current <= old(self).source@.len(),
        ensures
            Self::lexed(
                *old(self),
                *final(self),
                token(
                    old(self).source@,
                    old(self).start as nat,
                    old(self).current as nat,
                    old(self).line as nat,
                    ttype,
                    literal@,
                ),
            ),
    {
        let lexeme = text_of(slice_subrange(self.source.as_slice(), self.start, self.current));
        let token = Token { lexeme, line: self.line, literal: Some(literal), ttype };
        let ghost before = self.tokens();
        self.list.push(token);
        assert(self.tokens() =~= before.push(token@));
    }

    /// Appends a token whose payload is the given text, or empty.
    fn add_token(&mut self, ttype: TokenType, text: Option<&str>)
        requires
            old(self).start <= old(self).current <= old(self).source@.len(),
        ensures
            Self::lexed(
                *old(self),
                *final(self),
                token(
                    old(self).source@,
                    old(self).start as nat,
                    old(self).current as nat,
                    old(self).line as nat,
                    ttype,
                    LiteralView::Str(
                        match text {
                            Some(payload) => payload@,
                            None => Seq::empty(),
                        },
                    ),
                ),
            ),
    {
        let payload = match text {
            Some(payload) => String::from_str(payload),
            None => String::new(),
        };
        self.make_token(ttype, Literal::Str(payload));
    }
}

} // verus!
