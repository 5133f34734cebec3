//! The lexical grammar as spec functions: what one scanning step consumes and
//! emits, and what a whole scan produces.
use crate::token::{token_type, LiteralModel, TokenModel};
use vstd::prelude::*;

verus! {

/// The two kinds of lexical error.
#[derive(Debug, Clone, Copy, PartialEq, Eq, Structural)]
pub enum ScanErrorKind {
    /// A character that starts no token.
    UnexpectedCharacter,
    /// A string literal whose closing quote never comes.
    UnterminatedString,
}

/// Mathematical value of an error record.
pub struct ErrorModel {
    pub line: nat,
    pub kind: ScanErrorKind,
}

pub open spec fn is_digit(c: char) -> bool {
    '0' <= c && c <= '9'
}

pub open spec fn is_alpha(c: char) -> bool {
    ('a' <= c && c <= 'z') || ('A' <= c && c <= 'Z') || c == '_'
}

pub open spec fn is_alpha_numeric(c: char) -> bool {
    is_alpha(c) || is_digit(c)
}

pub open spec fn is_blank(c: char) -> bool {
    c == ' ' || c == '\t' || c == '\r'
}

/// The token of a character that always forms a token on its own
/// (a slash does so unless a second slash follows it).
pub open spec fn punct_kind(c: char) -> Option<token_type> {
    if c == '(' {
        Some(token_type::LEFT_PAREN)
    } else if c == ')' {
        Some(token_type::RIGHT_PAREN)
    } else if c == '{' {
        Some(token_type::LEFT_BRACE)
    } else if c == '}' {
        Some(token_type::RIGHT_BRACE)
    } else if c == ',' {
        Some(token_type::COMMA)
    } else if c == '.' {
        Some(token_type::DOT)
    } else if c == '-' {
        Some(token_type::MINUS)
    } else if c == '+' {
        Some(token_type::PLUS)
    } else if c == ';' {
        Some(token_type::SEMICOLON)
    } else if c == '/' {
        Some(token_type::SLASH)
    } else if c == '*' {
        Some(token_type::STAR)
    } else {
        None
    }
}

/// A character that forms an operator alone or together with a following `=`.
pub open spec fn is_operator_start(c: char) -> bool {
    c == '!' || c == '=' || c == '<' || c == '>'
}

pub open spec fn operator_kind(c: char, with_equal: bool) -> token_type {
    if c == '!' {
        if with_equal { token_type::BANG_EQUAL } else { token_type::BANG }
    } else if c == '=' {
        if with_equal { token_type::EQUAL_EQUAL } else { token_type::EQUAL }
    } else if c == '<' {
        if with_equal { token_type::LESS_EQUAL } else { token_type::LESS }
    } else {
        if with_equal { token_type::GREATER_EQUAL } else { token_type::GREATER }
    }
}

/// The reserved word spelled by `s`, if any.
pub open spec fn keyword_kind(s: Seq<char>) -> Option<token_type> {
    if s == "and"@ {
        Some(token_type::AND)
    } else if s == "class"@ {
        Some(token_type::CLASS)
    } else if s == "else"@ {
        Some(token_type::ELSE)
    } else if s == "false"@ {
        Some(token_type::FALSE)
    } else if s == "fun"@ {
        Some(token_type::FUN)
    } else if s == "for"@ {
        Some(token_type::FOR)
    } else if s == "if"@ {
        Some(token_type::IF)
    } else if s == "nil"@ {
        Some(token_type::NIL)
    } else if s == "or"@ {
        Some(token_type::OR)
    } else if s == "print"@ {
        Some(token_type::PRINT)
    } else if s == "return"@ {
        Some(token_type::RETURN)
    } else if s == "super"@ {
        Some(token_type::SUPER)
    } else if s == "this"@ {
        Some(token_type::THIS)
    } else if s == "true"@ {
        Some(token_type::TRUE)
    } else if s == "var"@ {
        Some(token_type::VAR)
    } else if s == "while"@ {
        Some(token_type::WHILE)
    } else {
        None
    }
}

/// First index at or after `i` that holds `c`, or the length of `src`.
pub open spec fn find_char(src: Seq<char>, i: nat, c: char) -> nat
    decreases src.len() - i,
{
    if i < src.len() && src[i as int] != c {
        find_char(src, i + 1, c)
    } else {
        i
    }
}

/// End of the run of digits that starts at `i`.
pub open spec fn digits_end(src: Seq<char>, i: nat) -> nat
    decreases src.len() - i,
{
    if i < src.len() && is_digit(src[i as int]) {
        digits_end(src, i + 1)
    } else {
        i
    }
}

/// End of the run of letters, digits and underscores that starts at `i`.
pub open spec fn word_end(src: Seq<char>, i: nat) -> nat
    decreases src.len() - i,
{
    if i < src.len() && is_alpha_numeric(src[i as int]) {
        word_end(src, i + 1)
    } else {
        i
    }
}

/// End of the number literal that starts at `i`: digits, then a fraction only
/// where a digit follows the point.
pub open spec fn number_end(src: Seq<char>, i: nat) -> nat {
    let d = digits_end(src, i);
    if d + 1 < src.len() && src[d as int] == '.' && is_digit(src[d + 1 as int]) {
        digits_end(src, d + 1)
    } else {
        d
    }
}

/// Number of newline characters in `s`.
pub open spec fn newlines(s: Seq<char>) -> nat
    decreases s.len(),
{
    if s.len() == 0 {
        0
    } else {
        newlines(s.drop_last()) + if s.last() == '\n' { 1nat } else { 0nat }
    }
}

/// What one scanning step does from a position: where it stops, the line
/// there, and the token or error it produces, if any.
pub struct Step {
    pub next: nat,
    pub line: nat,
    pub kind: Option<token_type>,
    pub error: Option<ScanErrorKind>,
}

/// One scanning step at `pos` (which must lie inside `src`) on line `line`.
pub open spec fn scan_step(src: Seq<char>, pos: nat, line: nat) -> Step {
    let c = src[pos as int];
    let n = pos + 1;
    if c == '/' && n < src.len() && src[n as int] == '/' {
        Step { next: find_char(src, n, '\n'), line, kind: None, error: None }
    } else if punct_kind(c) is Some {
        Step { next: n, line, kind: punct_kind(c), error: None }
    } else if is_operator_start(c) {
        let eq = n < src.len() && src[n as int] == '=';
        Step {
            next: if eq { n + 1 } else { n },
            line,
            kind: Some(operator_kind(c, eq)),
            error: None,
        }
    } else if is_blank(c) {
        Step { next: n, line, kind: None, error: None }
    } else if c == '\n' {
        Step { next: n, line: line + 1, kind: None, error: None }
    } else if c == '"' {
        let q = find_char(src, n, '"');
        let l = line + newlines(src.subrange(n as int, q as int));
        if q < src.len() {
            Step { next: q + 1, line: l, kind: Some(token_type::STRING), error: None }
        } else {
            Step { next: q, line: l, kind: None, error: Some(ScanErrorKind::UnterminatedString) }
        }
    } else if is_digit(c) {
        Step { next: number_end(src, pos), line, kind: Some(token_type::NUMBER), error: None }
    } else if is_alpha(c) {
        let e = word_end(src, n);
        let k = match keyword_kind(src.subrange(pos as int, e as int)) {
            Some(k) => k,
            None => token_type::IDENTIFIER,
        };
        Step { next: e, line, kind: Some(k), error: None }
    } else {
        Step { next: n, line, kind: None, error: Some(ScanErrorKind::UnexpectedCharacter) }
    }
}

/// The literal that a token of kind `k` with lexeme `lex` carries.
pub open spec fn literal_of(k: token_type, lex: Seq<char>) -> Option<LiteralModel> {
    if k == token_type::STRING {
        Some(LiteralModel::Str(lex.subrange(1, lex.len() - 1)))
    } else if k == token_type::NUMBER {
        Some(LiteralModel::Num(lex))
    } else {
        None
    }
}

pub open spec fn make_token(k: token_type, lex: Seq<char>, line: nat) -> TokenModel {
    TokenModel { kind: k, lexeme: lex, literal: literal_of(k, lex), line }
}

/// The token that a step taken at `pos` emits, if any.
pub open spec fn step_token(src: Seq<char>, pos: nat, st: Step) -> Option<TokenModel> {
    match st.kind {
        Some(k) => Some(make_token(k, src.subrange(pos as int, st.next as int), st.line)),
        None => None,
    }
}

pub open spec fn step_error(st: Step) -> Option<ErrorModel> {
    match st.error {
        Some(k) => Some(ErrorModel { line: st.line, kind: k }),
        None => None,
    }
}

pub open spec fn opt_seq<A>(o: Option<A>) -> Seq<A> {
    match o {
        Some(a) => seq![a],
        None => Seq::empty(),
    }
}

/// Tokens and errors found from a position to the end, and the line reached.
pub struct ScanModel {
    pub tokens: Seq<TokenModel>,
    pub errors: Seq<ErrorModel>,
    pub line: nat,
}

/// Scanning from `pos` on line `line` to the end of `src`, step by step.
pub open spec fn scan_from(src: Seq<char>, pos: nat, line: nat) -> ScanModel
    decreases src.len() - pos,
{
    if pos < src.len() {
        let st = scan_step(src, pos, line);
        if pos < st.next <= src.len() {
            let rest = scan_from(src, st.next, st.line);
            ScanModel {
                tokens: opt_seq(step_token(src, pos, st)) + rest.tokens,
                errors: opt_seq(step_error(st)) + rest.errors,
                line: rest.line,
            }
        } else {
            ScanModel { tokens: Seq::empty(), errors: Seq::empty(), line }
        }
    } else {
        ScanModel { tokens: Seq::empty(), errors: Seq::empty(), line }
    }
}

pub open spec fn eof_token(line: nat) -> TokenModel {
    TokenModel { kind: token_type::EOF, lexeme: Seq::empty(), literal: None, line }
}

/// The whole scan of `src`: every token from line one on, then the end-of-input token.
pub open spec fn scan_model(src: Seq<char>) -> ScanModel {
    let m = scan_from(src, 0, 1);
    ScanModel { tokens: m.tokens.push(eof_token(m.line)), errors: m.errors, line: m.line }
}

} // verus!
