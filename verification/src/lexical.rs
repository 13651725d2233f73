//! The lexical grammar: what the token at a position of the source is, and
//! where the next one starts.

use crate::number::parsed_number;
use crate::scanner::{lossy_text, DiagnosticView, LiteralView, TokenType, TokenView};
use vstd::prelude::*;
use vstd::utf8::{
    decode_utf8, encode_utf8, encode_utf8_decode_utf8, encode_utf8_valid_utf8, is_ascii_chars,
    is_ascii_chars_encode_utf8, valid_utf8,
};

verus! {

/// What stands at a position of the source.
pub struct Lexed {
    /// Where it ends.
    pub next: nat,
    /// The line that the source is on behind it.
    pub line: nat,
    /// The token, where it is one.
    pub token: Option<TokenView>,
    /// The complaint, where it is an error.
    pub note: Option<DiagnosticView>,
}

/// The outcome of scanning: tokens, diagnostics and the last line.
pub struct Scanned {
    pub tokens: Seq<TokenView>,
    pub notes: Seq<DiagnosticView>,
    pub line: nat,
}

pub open spec fn digit(c: char) -> bool {
    '0' <= c <= '9'
}

pub open spec fn alpha(c: char) -> bool {
    'a' <= c <= 'z' || 'A' <= c <= 'Z' || c == '_'
}

pub open spec fn alphanumeric(c: char) -> bool {
    alpha(c) || digit(c)
}

/// The character at `pos`, NUL past the end.
pub open spec fn char_at(source: Seq<u8>, pos: nat) -> char {
    if pos < source.len() {
        source[pos as int] as char
    } else {
        '\0'
    }
}

/// Whether every byte is an ASCII character.
pub open spec fn ascii(bytes: Seq<u8>) -> bool {
    forall|i: int| 0 <= i < bytes.len() ==> #[trigger] bytes[i] < 128
}

/// The characters that bytes are, each taken for itself.
pub open spec fn ascii_text(bytes: Seq<u8>) -> Seq<char> {
    Seq::new(bytes.len(), |i: int| bytes[i] as char)
}

/// The text of bytes: the characters themselves where all are ASCII, and
/// what they decode to otherwise.
pub open spec fn bytes_text(bytes: Seq<u8>) -> Seq<char> {
    if ascii(bytes) {
        ascii_text(bytes)
    } else {
        lossy_text(bytes)
    }
}

/// The text of the bytes from `from` up to `to`.
pub open spec fn text(source: Seq<u8>, from: nat, to: nat) -> Seq<char> {
    bytes_text(source.subrange(from as int, to as int))
}

/// ASCII bytes are valid UTF-8, and decode to themselves.
pub proof fn lemma_ascii_decodes(bytes: Seq<u8>)
    requires
        ascii(bytes),
    ensures
        valid_utf8(bytes),
        decode_utf8(bytes) == ascii_text(bytes),
{
    let chars = ascii_text(bytes);
    assert(is_ascii_chars(chars)) by {
        assert forall|i: int| 0 <= i < chars.len() implies '\0' <= #[trigger] chars[i]
            <= '\u{7f}' by {
            assert(bytes[i] < 128);
        }
    }
    is_ascii_chars_encode_utf8(chars);
    assert(encode_utf8(chars) =~= bytes) by {
        assert forall|i: int| 0 <= i < bytes.len() implies encode_utf8(chars)[i] == bytes[i] by {
            assert(chars[i] as u8 == encode_utf8(chars)[i]);
            assert(bytes[i] < 128);
        }
    }
    encode_utf8_valid_utf8(chars);
    encode_utf8_decode_utf8(chars);
}

/// The end of the longest run of digits from `pos` on.
pub open spec fn digits_end(source: Seq<u8>, pos: nat) -> nat
    decreases source.len() - pos,
{
    if pos < source.len() && digit(source[pos as int] as char) {
        digits_end(source, pos + 1)
    } else {
        pos
    }
}

/// The end of the longest run of letters, digits and `_` from `pos` on.
pub open spec fn word_end(source: Seq<u8>, pos: nat) -> nat
    decreases source.len() - pos,
{
    if pos < source.len() && alphanumeric(source[pos as int] as char) {
        word_end(source, pos + 1)
    } else {
        pos
    }
}

/// The end of the line that `pos` is on: the next newline, or the end of
/// the source.
pub open spec fn line_end(source: Seq<u8>, pos: nat) -> nat
    decreases source.len() - pos,
{
    if pos < source.len() && source[pos as int] as char != '\n' {
        line_end(source, pos + 1)
    } else {
        pos
    }
}

/// The position of the next `"` from `pos` on, or the end of the source,
/// and the line there, `line` being the line at `pos`.
pub open spec fn quote(source: Seq<u8>, pos: nat, line: nat) -> (nat, nat)
    decreases source.len() - pos,
{
    if pos < source.len() && source[pos as int] as char != '"' {
        quote(
            source,
            pos + 1,
            if source[pos as int] as char == '\n' {
                line + 1
            } else {
                line
            },
        )
    } else {
        (pos, line)
    }
}

/// The end of the number that starts at `pos`: digits, and a fraction where
/// a `.` and a digit follow them.
pub open spec fn number_end(source: Seq<u8>, pos: nat) -> nat {
    let whole = digits_end(source, pos);
    if char_at(source, whole) == '.' && digit(char_at(source, whole + 1)) {
        digits_end(source, whole + 1)
    } else {
        whole
    }
}

/// The type of a word: that of the keyword it is, or an identifier.
pub open spec fn word_type(word: Seq<char>) -> TokenType {
    if word == "and"@ {
        TokenType::And
    } else if word == "class"@ {
        TokenType::Class
    } else if word == "else"@ {
        TokenType::Else
    } else if word == "false"@ {
        TokenType::False
    } else if word == "for"@ {
        TokenType::For
    } else if word == "fun"@ {
        TokenType::Fun
    } else if word == "if"@ {
        TokenType::If
    } else if word == "nil"@ {
        TokenType::Nil
    } else if word == "or"@ {
        TokenType::Or
    } else if word == "print"@ {
        TokenType::Print
    } else if word == "return"@ {
        TokenType::Return
    } else if word == "super"@ {
        TokenType::Super
    } else if word == "this"@ {
        TokenType::This
    } else if word == "true"@ {
        TokenType::True
    } else if word == "var"@ {
        TokenType::Var
    } else if word == "while"@ {
        TokenType::While
    } else {
        TokenType::Identifier
    }
}

/// The token made of the bytes from `start` up to `next`.
pub open spec fn token(
    source: Seq<u8>,
    start: nat,
    next: nat,
    line: nat,
    ttype: TokenType,
    literal: LiteralView,
) -> Lexed {
    Lexed {
        next,
        line,
        token: Some(
            TokenView { lexeme: text(source, start, next), line, literal: Some(literal), ttype },
        ),
        note: None,
    }
}

/// A token of `length` bytes that carries no payload.
pub open spec fn mark(source: Seq<u8>, start: nat, line: nat, ttype: TokenType, length: nat) -> Lexed {
    token(source, start, start + length, line, ttype, LiteralView::Str(Seq::empty()))
}

/// The longer token where `second` follows the first character, the
/// shorter one otherwise.
pub open spec fn either(
    source: Seq<u8>,
    start: nat,
    line: nat,
    second: char,
    long: TokenType,
    short: TokenType,
) -> Lexed {
    if start + 1 < source.len() && char_at(source, start + 1) == second {
        mark(source, start, line, long, 2)
    } else {
        mark(source, start, line, short, 1)
    }
}

/// Bytes that are no token.
pub open spec fn blank(next: nat, line: nat) -> Lexed {
    Lexed { next, line, token: None, note: None }
}

/// Bytes that are an error.
pub open spec fn complaint(next: nat, line: nat, message: Seq<char>) -> Lexed {
    Lexed {
        next,
        line,
        token: None,
        note: Some(DiagnosticView { line, location: Seq::empty(), message }),
    }
}

/// A string that opens at `start`: it runs to the next `"`, over line ends,
/// and its value is the text between the quotes.
pub open spec fn lex_string(source: Seq<u8>, start: nat, line: nat) -> Lexed {
    let (close, last) = quote(source, start + 1, line);
    if close >= source.len() {
        complaint(close, last, "Unterminated string."@)
    } else {
        token(
            source,
            start,
            close + 1,
            last,
            TokenType::String,
            LiteralView::Str(text(source, start + 1, close)),
        )
    }
}

/// A number that starts at `start`.
pub open spec fn lex_number(source: Seq<u8>, start: nat, line: nat) -> Lexed {
    let end = number_end(source, start);
    match parsed_number(text(source, start, end)) {
        Some(number) => token(source, start, end, line, TokenType::Number, LiteralView::Number(number)),
        None => complaint(end, line, "Invalid number."@),
    }
}

/// A keyword or an identifier that starts at `start`.
pub open spec fn lex_word(source: Seq<u8>, start: nat, line: nat) -> Lexed {
    let end = word_end(source, start + 1);
    let word = text(source, start, end);
    token(source, start, end, line, word_type(word), LiteralView::Str(word))
}

/// What stands at `start`, a position before the end of the source.
pub open spec fn lex(source: Seq<u8>, start: nat, line: nat) -> Lexed {
    let c = source[start as int] as char;
    if c == '(' {
        mark(source, start, line, TokenType::LeftParen, 1)
    } else if c == ')' {
        mark(source, start, line, TokenType::RightParen, 1)
    } else if c == '{' {
        mark(source, start, line, TokenType::LeftBrace, 1)
    } else if c == '}' {
        mark(source, start, line, TokenType::RightBrace, 1)
    } else if c == ',' {
        mark(source, start, line, TokenType::Comma, 1)
    } else if c == '.' {
        mark(source, start, line, TokenType::Dot, 1)
    } else if c == '-' {
        mark(source, start, line, TokenType::Minus, 1)
    } else if c == '+' {
        mark(source, start, line, TokenType::Plus, 1)
    } else if c == ';' {
        mark(source, start, line, TokenType::Semicolon, 1)
    } else if c == '*' {
        mark(source, start, line, TokenType::Star, 1)
    } else if c == '!' {
        either(source, start, line, '=', TokenType::BangEqual, TokenType::Bang)
    } else if c == '=' {
        either(source, start, line, '=', TokenType::EqualEqual, TokenType::Equal)
    } else if c == '<' {
        either(source, start, line, '=', TokenType::LessEqual, TokenType::Less)
    } else if c == '>' {
        either(source, start, line, '=', TokenType::GreaterEqual, TokenType::Greater)
    } else if c == '/' {
        if start + 1 < source.len() && char_at(source, start + 1) == '/' {
            blank(line_end(source, start + 2), line)
        } else {
            mark(source, start, line, TokenType::Slash, 1)
        }
    } else if c == ' ' || c == '\r' || c == '\t' {
        blank(start + 1, line)
    } else if c == '\n' {
        blank(start + 1, line + 1)
    } else if c == '"' {
        lex_string(source, start, line)
    } else if digit(c) {
        lex_number(source, start, line)
    } else if alpha(c) {
        lex_word(source, start, line)
    } else {
        complaint(start + 1, line, "Unexpected character."@)
    }
}

/// The position behind what stands at `pos`: where [`lex`] says, and
/// further on than `pos`.
pub open spec fn behind(pos: nat, next: nat) -> nat {
    if next > pos {
        next
    } else {
        pos + 1
    }
}

/// The number of bytes from `pos` on.
pub open spec fn left(source: Seq<u8>, pos: nat) -> nat {
    if pos < source.len() {
        (source.len() - pos) as nat
    } else {
        0
    }
}

/// The end marker on a line.
pub open spec fn end_marker(line: nat) -> TokenView {
    TokenView {
        lexeme: Seq::empty(),
        line,
        literal: Some(LiteralView::Str(Seq::empty())),
        ttype: TokenType::Eof,
    }
}

/// The tokens and diagnostics of the source from `pos` on, appended to
/// those given, with the end marker as the last token.
pub open spec fn scan(
    source: Seq<u8>,
    pos: nat,
    line: nat,
    tokens: Seq<TokenView>,
    notes: Seq<DiagnosticView>,
) -> Scanned
    decreases left(source, pos),
{
    if pos >= source.len() {
        Scanned { tokens: tokens.push(end_marker(line)), notes, line }
    } else {
        let l = lex(source, pos, line);
        scan(
            source,
            behind(pos, l.next),
            l.line,
            match l.token {
                Some(t) => tokens.push(t),
                None => tokens,
            },
            match l.note {
                Some(n) => notes.push(n),
                None => notes,
            },
        )
    }
}

/// A run of digits does not end before it starts, nor behind the source.
pub proof fn lemma_digits_end(source: Seq<u8>, pos: nat)
    ensures
        pos <= digits_end(source, pos),
        pos <= source.len() ==> digits_end(source, pos) <= source.len(),
    decreases source.len() - pos,
{
    if pos < source.len() && digit(source[pos as int] as char) {
        lemma_digits_end(source, pos + 1);
    }
}

/// A word does not end before it starts, nor behind the source.
pub proof fn lemma_word_end(source: Seq<u8>, pos: nat)
    ensures
        pos <= word_end(source, pos),
        pos <= source.len() ==> word_end(source, pos) <= source.len(),
    decreases source.len() - pos,
{
    if pos < source.len() && alphanumeric(source[pos as int] as char) {
        lemma_word_end(source, pos + 1);
    }
}

/// A line does not end before `pos`, nor behind the source.
pub proof fn lemma_line_end(source: Seq<u8>, pos: nat)
    ensures
        pos <= line_end(source, pos),
        pos <= source.len() ==> line_end(source, pos) <= source.len(),
    decreases source.len() - pos,
{
    if pos < source.len() && source[pos as int] as char != '\n' {
        lemma_line_end(source, pos + 1);
    }
}

/// The closing quote is not before `pos` nor behind the source, and the
/// lines up to it are no more than the bytes.
pub proof fn lemma_quote(source: Seq<u8>, pos: nat, line: nat)
    ensures
        pos <= quote(source, pos, line).0,
        pos <= source.len() ==> quote(source, pos, line).0 <= source.len(),
        line <= quote(source, pos, line).1 <= line + (quote(source, pos, line).0 - pos),
    decreases source.len() - pos,
{
    if pos < source.len() && source[pos as int] as char != '"' {
        lemma_quote(
            source,
            pos + 1,
            if source[pos as int] as char == '\n' {
                line + 1
            } else {
                line
            },
        );
    }
}

/// What stands at a position ends behind it and within the source, and
/// counts no more lines than it has bytes.
pub proof fn lemma_lex_advances(source: Seq<u8>, pos: nat, line: nat)
    requires
        pos < source.len(),
    ensures
        pos < lex(source, pos, line).next <= source.len(),
        line <= lex(source, pos, line).line <= line + (lex(source, pos, line).next - pos),
{
    lemma_line_end(source, pos + 2);
    lemma_quote(source, pos + 1, line);
    lemma_digits_end(source, pos);
    lemma_digits_end(source, digits_end(source, pos) + 1);
    lemma_word_end(source, pos + 1);
}

} // verus!
