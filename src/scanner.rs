//! The scanner: a cursor over the source text and the tokens and errors found so far.
use crate::model::{
    digits_end, find_char, is_alpha, is_alpha_numeric, is_digit, keyword_kind, newlines,
    number_end, operator_kind, punct_kind, scan_from, scan_step, step_error, step_token,
    word_end, eof_token, opt_seq, scan_model, ErrorModel, ScanErrorKind,
};
use crate::token::{token_type, token_type_literal, Token, TokenModel};
use vstd::prelude::*;

verus! {

/// A lexical error: where it was found and what it is.
#[derive(Debug, Clone, Copy, PartialEq, Eq, Structural)]
pub struct ScanError {
    pub line: usize,
    pub kind: ScanErrorKind,
}

impl View for ScanError {
    type V = ErrorModel;

    open spec fn view(&self) -> ErrorModel {
        ErrorModel { line: self.line as nat, kind: self.kind }
    }
}

pub open spec fn error_message(k: ScanErrorKind) -> Seq<char> {
    match k {
        ScanErrorKind::UnexpectedCharacter => "Unexpected character."@,
        ScanErrorKind::UnterminatedString => "Unterminated string."@,
    }
}

impl ScanError {
    /// The description of the error, for diagnostics.
    pub fn message(&self) -> (r: &'static str)
        ensures
            r@ == error_message(self.kind),
    {
        match self.kind {
            ScanErrorKind::UnexpectedCharacter => "Unexpected character.",
            ScanErrorKind::UnterminatedString => "Unterminated string.",
        }
    }
}

/// Scanner state: the source, the tokens and errors found so far, and the
/// cursor (`start_ptr_token` where the current lexeme began, `current_ptr` the
/// next unconsumed character, `current_line` the line of that character).
#[derive(Debug)]
pub struct Scanner {
    pub source: String,
    pub length: usize,
    pub tokens: Vec<Token>,
    pub errors: Vec<ScanError>,
    pub start_ptr_token: usize,
    pub current_ptr: usize,
    pub current_line: usize,
}

fn is_digit_char(c: char) -> (r: bool)
    ensures
        r == is_digit(c),
{
    '0' <= c && c <= '9'
}

fn is_alpha_char(c: char) -> (r: bool)
    ensures
        r == is_alpha(c),
{
    ('a' <= c && c <= 'z') || ('A' <= c && c <= 'Z') || c == '_'
}

fn is_alpha_numeric_char(c: char) -> (r: bool)
    ensures
        r == is_alpha_numeric(c),
{
    is_alpha_char(c) || is_digit_char(c)
}

/// Character-by-character comparison of two texts.
fn same_text(a: &str, b: &str) -> (r: bool)
    ensures
        r == (a@ == b@),
{
    let n = a.unicode_len();
    if n != b.unicode_len() {
        return false;
    }
    let mut i: usize = 0;
    while i < n
        invariant
            n == a@.len(),
            n == b@.len(),
            i <= n,
            forall|k: int| 0 <= k < i ==> a@[k] == b@[k],
        decreases n - i,
    {
        if a.get_char(i) != b.get_char(i) {
            return false;
        }
        i = i + 1;
    }
    assert(a@ =~= b@);
    true
}

/// The reserved word spelled by `text`, if any.
fn keyword_of(text: &str) -> (r: Option<token_type>)
    ensures
        r == keyword_kind(text@),
{
    if same_text(text, "and") {
        Some(token_type::AND)
    } else if same_text(text, "class") {
        Some(token_type::CLASS)
    } else if same_text(text, "else") {
        Some(token_type::ELSE)
    } else if same_text(text, "false") {
        Some(token_type::FALSE)
    } else if same_text(text, "fun") {
        Some(token_type::FUN)
    } else if same_text(text, "for") {
        Some(token_type::FOR)
    } else if same_text(text, "if") {
        Some(token_type::IF)
    } else if same_text(text, "nil") {
        Some(token_type::NIL)
    } else if same_text(text, "or") {
        Some(token_type::OR)
    } else if same_text(text, "print") {
        Some(token_type::PRINT)
    } else if same_text(text, "return") {
        Some(token_type::RETURN)
    } else if same_text(text, "super") {
        Some(token_type::SUPER)
    } else if same_text(text, "this") {
        Some(token_type::THIS)
    } else if same_text(text, "true") {
        Some(token_type::TRUE)
    } else if same_text(text, "var") {
        Some(token_type::VAR)
    } else if same_text(text, "while") {
        Some(token_type::WHILE)
    } else {
        None
    }
}

fn punct_of(c: char) -> (r: Option<token_type>)
    ensures
        r == punct_kind(c),
{
    match c {
        '(' => Some(token_type::LEFT_PAREN),
        ')' => Some(token_type::RIGHT_PAREN),
        '{' => Some(token_type::LEFT_BRACE),
        '}' => Some(token_type::RIGHT_BRACE),
        ',' => Some(token_type::COMMA),
        '.' => Some(token_type::DOT),
        '-' => Some(token_type::MINUS),
        '+' => Some(token_type::PLUS),
        ';' => Some(token_type::SEMICOLON),
        '/' => Some(token_type::SLASH),
        '*' => Some(token_type::STAR),
        _ => None,
    }
}

fn operator_of(c: char, with_equal: bool) -> (r: token_type)
    ensures
        r == operator_kind(c, with_equal),
{
    if c == '!' {
        if with_equal { token_type::BANG_EQUAL } else { token_type::BANG }
    } else if c == '=' {
        if with_equal { token_type::EQUAL_EQUAL } else { token_type::EQUAL }
    } else if c == '<' {
        if with_equal { token_type::LESS_EQUAL } else { token_type::LESS }
    } else {
        if with_equal { token_type::GREATER_EQUAL } else { token_type::GREATER }
    }
}

/// A one-character slice of `src` at `i` spells `c` exactly when `src[i]` is `c`.
proof fn lemma_one_ahead(src: Seq<char>, i: int, c: char)
    requires
        0 <= i < src.len(),
    ensures
        (src.subrange(i, i + 1) == seq![c]) == (src[i] == c),
{
    let ahead = src.subrange(i, i + 1);
    assert(ahead[0] == src[i]);
    if src[i] == c {
        assert(ahead =~= seq![c]);
    }
}

impl Scanner {
    pub open spec fn src(&self) -> Seq<char> {
        self.source@
    }

    /// Cursor within bounds, and at most one line begun per character consumed.
    pub open spec fn wf(&self) -> bool {
        &&& self.length as nat == self.source@.len()
        &&& self.length < usize::MAX
        &&& self.start_ptr_token <= self.current_ptr <= self.length
        &&& 1 <= self.current_line <= self.current_ptr + 1
    }

    pub open spec fn tokens_view(&self) -> Seq<TokenModel> {
        self.tokens@.map_values(|t: Token| t@)
    }

    pub open spec fn errors_view(&self) -> Seq<ErrorModel> {
        self.errors@.map_values(|e: ScanError| e@)
    }

    /// A scanner at the start of `the_source`, on line one, with nothing found yet.
    pub fn new(the_source: String) -> (r: Scanner)
        requires
            the_source@.len() < usize::MAX,
        ensures
            r.wf(),
            r.src() == the_source@,
            r.tokens@.len() == 0,
            r.errors@.len() == 0,
            r.start_ptr_token == 0,
            r.current_ptr == 0,
            r.current_line == 1,
    {
        let length = the_source.as_str().unicode_len();
        Scanner {
            source: the_source,
            length,
            tokens: Vec::new(),
            errors: Vec::new(),
            start_ptr_token: 0,
            current_ptr: 0,
            current_line: 1,
        }
    }

    /// Whether every character has been consumed.
    pub fn at_the_end(&self) -> (r: bool)
        requires
            self.wf(),
        ensures
            r == (self.current_ptr >= self.src().len()),
    {
        self.current_ptr >= self.length
    }

    fn char_at(&self, i: usize) -> (r: char)
        requires
            self.wf(),
            i < self.src().len(),
        ensures
            r == self.src()[i as int],
    {
        self.source.as_str().get_char(i)
    }

    /// The text of the current lexeme.
    pub fn get_char_from_source(&self) -> (r: String)
        requires
            self.wf(),
        ensures
            r@ == self.src().subrange(self.start_ptr_token as int, self.current_ptr as int),
    {
        self.source.as_str().substring_char(self.start_ptr_token, self.current_ptr).to_owned()
    }

    /// Starts a new lexeme at the cursor.
    pub fn reset_start_ptr(self) -> (r: Scanner)
        requires
            self.wf(),
        ensures
            r.wf(),
            r == (Scanner { start_ptr_token: self.current_ptr, ..self }),
    {
        Scanner { start_ptr_token: self.current_ptr, ..self }
    }

    /// Consumes one character.
    pub fn advance(self) -> (r: Scanner)
        requires
            self.wf(),
            self.current_ptr < self.src().len(),
        ensures
            r.wf(),
            r == (Scanner { current_ptr: (self.current_ptr + 1) as usize, ..self }),
    {
        Scanner { current_ptr: self.current_ptr + 1, ..self }
    }

    /// Whether the characters that follow the cursor are exactly `expected`;
    /// a peek that consumes nothing and never matches past the end.
    pub fn check_ahead(&self, expected: String) -> (r: bool)
        requires
            self.wf(),
        ensures
            r == (self.current_ptr + expected@.len() <= self.src().len() && self.src().subrange(
                self.current_ptr as int,
                self.current_ptr + expected@.len(),
            ) == expected@),
    {
        let e = expected.as_str();
        let n = e.unicode_len();
        if n > self.length - self.current_ptr {
            return false;
        }
        let ghost ahead = self.src().subrange(self.current_ptr as int, self.current_ptr + n);
        let mut i: usize = 0;
        while i < n
            invariant
                self.wf(),
                n == expected@.len(),
                e@ == expected@,
                self.current_ptr + n <= self.src().len(),
                ahead == self.src().subrange(self.current_ptr as int, self.current_ptr + n),
                i <= n,
                forall|k: int| 0 <= k < i ==> ahead[k] == expected@[k],
            decreases n - i,
        {
            if self.char_at(self.current_ptr + i) != e.get_char(i) {
                assert(ahead[i as int] != expected@[i as int]);
                return false;
            }
            i = i + 1;
        }
        assert(ahead =~= expected@);
        true
    }

    /// Appends a token of kind `tok_type` whose lexeme is the current lexeme.
    pub fn add_token(self, tok_type: token_type, tok_type_literal: Option<token_type_literal>) -> (r:
        Scanner)
        requires
            self.wf(),
        ensures
            r.wf(),
            r.tokens_view() == self.tokens_view().push(
                TokenModel {
                    kind: tok_type,
                    lexeme: self.src().subrange(
                        self.start_ptr_token as int,
                        self.current_ptr as int,
                    ),
                    literal: crate::token::literal_view(tok_type_literal),
                    line: self.current_line as nat,
                },
            ),
            r.source == self.source,
            r.length == self.length,
            r.errors == self.errors,
            r.start_ptr_token == self.start_ptr_token,
            r.current_ptr == self.current_ptr,
            r.current_line == self.current_line,
    {
        let text = self.get_char_from_source();
        let mut s = self;
        let tok = Token::new(tok_type, text, tok_type_literal, s.current_line);
        s.tokens.push(tok);
        proof {
            assert(s.tokens_view() =~= self.tokens_view().push(tok@));
        }
        s
    }

    /// Whether `r` is this scanner after one scanning step taken at `pos` on
    /// line `line`, the step's token and error appended.
    pub open spec fn step_done(&self, pos: nat, line: nat, r: Scanner) -> bool {
        let st = scan_step(self.src(), pos, line);
        &&& r.wf()
        &&& r.source == self.source
        &&& r.length == self.length
        &&& r.start_ptr_token == pos
        &&& pos < r.current_ptr
        &&& r.current_ptr == st.next
        &&& r.current_line == st.line
        &&& match step_token(self.src(), pos, st) {
            Some(t) => r.tokens_view() == self.tokens_view().push(t),
            None => r.tokens_view() == self.tokens_view(),
        }
        &&& match step_error(st) {
            Some(e) => r.errors_view() == self.errors_view().push(e),
            None => r.errors_view() == self.errors_view(),
        }
    }

    /// Records an error of kind `kind` on the current line.
    fn add_error(self, kind: ScanErrorKind) -> (r: Scanner)
        requires
            self.wf(),
        ensures
            r.errors_view() == self.errors_view().push(
                ErrorModel { line: self.current_line as nat, kind },
            ),
            r == (Scanner { errors: r.errors, ..self }),
    {
        let mut s = self;
        let e = ScanError { line: s.current_line, kind };
        s.errors.push(e);
        proof {
            assert(s.errors_view() =~= self.errors_view().push(e@));
        }
        s
    }

    /// Skips a comment whose two slashes start the current lexeme, up to the
    /// end of the line.
    fn skip_comment(self) -> (r: Scanner)
        requires
            self.wf(),
            self.current_ptr == self.start_ptr_token + 1,
            self.src()[self.start_ptr_token as int] == '/',
            self.current_ptr < self.src().len(),
            self.src()[self.current_ptr as int] == '/',
        ensures
            self.step_done(self.start_ptr_token as nat, self.current_line as nat, r),
    {
        let ghost n = self.current_ptr as nat;
        let mut s = self;
        while s.current_ptr < s.length && s.char_at(s.current_ptr) != '\n'
            invariant
                s.wf(),
                s == (Scanner { current_ptr: s.current_ptr, ..self }),
                n <= s.current_ptr,
                find_char(self.src(), s.current_ptr as nat, '\n') == find_char(self.src(), n, '\n'),
            decreases s.length - s.current_ptr,
        {
            s.current_ptr = s.current_ptr + 1;
        }
        s
    }

    /// Scans a string literal whose opening quote is the current lexeme.
    fn string(self) -> (r: Scanner)
        requires
            self.wf(),
            self.current_ptr == self.start_ptr_token + 1,
            self.src()[self.start_ptr_token as int] == '"',
        ensures
            self.step_done(self.start_ptr_token as nat, self.current_line as nat, r),
    {
        let ghost src = self.src();
        let ghost n = self.current_ptr as nat;
        let mut s = self;
        while s.current_ptr < s.length && s.char_at(s.current_ptr) != '"'
            invariant
                s.wf(),
                s == (Scanner { current_ptr: s.current_ptr, current_line: s.current_line, ..self }),
                src == self.src(),
                n <= s.current_ptr,
                find_char(src, s.current_ptr as nat, '"') == find_char(src, n, '"'),
                s.current_line == self.current_line + newlines(
                    src.subrange(n as int, s.current_ptr as int),
                ),
            decreases s.length - s.current_ptr,
        {
            let c = s.char_at(s.current_ptr);
            proof {
                let a = src.subrange(n as int, s.current_ptr + 1);
                assert(a.drop_last() =~= src.subrange(n as int, s.current_ptr as int));
            }
            if c == '\n' {
                s.current_line = s.current_line + 1;
            }
            s.current_ptr = s.current_ptr + 1;
        }
        if s.current_ptr >= s.length {
            s.add_error(ScanErrorKind::UnterminatedString)
        } else {
            s.current_ptr = s.current_ptr + 1;
            let text = s.source.as_str().substring_char(s.start_ptr_token + 1, s.current_ptr - 1);
            let text = text.to_owned();
            proof {
                let lex = src.subrange(s.start_ptr_token as int, s.current_ptr as int);
                assert(lex.subrange(1, lex.len() - 1) =~= text@);
            }
            s.add_token(token_type::STRING, Some(token_type_literal::STRING(text)))
        }
    }

    /// Consumes the run of digits at the cursor.
    fn skip_digits(self) -> (r: Scanner)
        requires
            self.wf(),
        ensures
            r.wf(),
            r == (Scanner { current_ptr: r.current_ptr, ..self }),
            self.current_ptr <= r.current_ptr,
            r.current_ptr == digits_end(self.src(), self.current_ptr as nat),
    {
        let mut s = self;
        while s.current_ptr < s.length && is_digit_char(s.char_at(s.current_ptr))
            invariant
                s.wf(),
                s == (Scanner { current_ptr: s.current_ptr, ..self }),
                self.current_ptr <= s.current_ptr,
                digits_end(self.src(), s.current_ptr as nat) == digits_end(
                    self.src(),
                    self.current_ptr as nat,
                ),
            decreases s.length - s.current_ptr,
        {
            s.current_ptr = s.current_ptr + 1;
        }
        s
    }

    /// Scans a number literal whose first digit is the current lexeme.
    fn number(self) -> (r: Scanner)
        requires
            self.wf(),
            self.current_ptr == self.start_ptr_token + 1,
            is_digit(self.src()[self.start_ptr_token as int]),
        ensures
            self.step_done(self.start_ptr_token as nat, self.current_line as nat, r),
    {
        let ghost src = self.src();
        let ghost pos = self.start_ptr_token as nat;
        assert(digits_end(src, pos) == digits_end(src, pos + 1));
        let mut s = self.skip_digits();
        if s.current_ptr + 1 < s.length && s.char_at(s.current_ptr) == '.' && is_digit_char(
            s.char_at(s.current_ptr + 1),
        ) {
            s.current_ptr = s.current_ptr + 1;
            s = s.skip_digits();
        }
        let text = s.get_char_from_source();
        s.add_token(token_type::NUMBER, Some(token_type_literal::NUMBER(text)))
    }

    /// Scans an identifier or reserved word whose first letter is the current lexeme.
    fn identifier(self) -> (r: Scanner)
        requires
            self.wf(),
            self.current_ptr == self.start_ptr_token + 1,
            is_alpha(self.src()[self.start_ptr_token as int]),
        ensures
            self.step_done(self.start_ptr_token as nat, self.current_line as nat, r),
    {
        let mut s = self;
        while s.current_ptr < s.length && is_alpha_numeric_char(s.char_at(s.current_ptr))
            invariant
                s.wf(),
                s == (Scanner { current_ptr: s.current_ptr, ..self }),
                self.current_ptr <= s.current_ptr,
                word_end(self.src(), s.current_ptr as nat) == word_end(
                    self.src(),
                    self.current_ptr as nat,
                ),
            decreases s.length - s.current_ptr,
        {
            s.current_ptr = s.current_ptr + 1;
        }
        let text = s.get_char_from_source();
        let kind = match keyword_of(text.as_str()) {
            Some(k) => k,
            None => token_type::IDENTIFIER,
        };
        s.add_token(kind, None)
    }

    /// Scans one lexical unit from the cursor: a token, an error, or nothing
    /// (blank, newline, comment). At the end of the source nothing changes.
    pub fn scan_token(self) -> (r: Scanner)
        requires
            self.wf(),
        ensures
            self.current_ptr >= self.src().len() ==> r == self,
            self.current_ptr < self.src().len() ==> self.step_done(
                self.current_ptr as nat,
                self.current_line as nat,
                r,
            ),
    {
        if self.at_the_end() {
            return self;
        }
        let s = self.reset_start_ptr();
        let c = s.char_at(s.current_ptr);
        let s = s.advance();
        proof {
            reveal_strlit("/");
            reveal_strlit("=");
            assert("/"@ =~= seq!['/']);
            assert("="@ =~= seq!['=']);
            if s.current_ptr < s.src().len() {
                lemma_one_ahead(s.src(), s.current_ptr as int, '/');
                lemma_one_ahead(s.src(), s.current_ptr as int, '=');
            }
        }
        if c == '/' && s.check_ahead(String::from_str("/")) {
            s.skip_comment()
        } else if let Some(k) = punct_of(c) {
            s.add_token(k, None)
        } else if c == '!' || c == '=' || c == '<' || c == '>' {
            if s.check_ahead(String::from_str("=")) {
                let s = s.advance();
                s.add_token(operator_of(c, true), None)
            } else {
                s.add_token(operator_of(c, false), None)
            }
        } else if c == ' ' || c == '\t' || c == '\r' {
            s
        } else if c == '\n' {
            Scanner { current_line: s.current_line + 1, ..s }
        } else if c == '"' {
            s.string()
        } else if is_digit_char(c) {
            s.number()
        } else if is_alpha_char(c) {
            s.identifier()
        } else {
            s.add_error(ScanErrorKind::UnexpectedCharacter)
        }
    }

    /// Scans from the cursor to the end of the source, then appends the
    /// end-of-input token on the last line.
    pub fn scan_tokens(self) -> (r: Scanner)
        requires
            self.wf(),
        ensures
            r.wf(),
            r.source == self.source,
            r.current_ptr == r.src().len(),
            ({
                let m = scan_from(self.src(), self.current_ptr as nat, self.current_line as nat);
                &&& r.tokens_view() == self.tokens_view() + m.tokens.push(eof_token(m.line))
                &&& r.errors_view() == self.errors_view() + m.errors
                &&& r.current_line == m.line
            }),
    {
        let ghost src = self.src();
        let ghost m0 = scan_from(src, self.current_ptr as nat, self.current_line as nat);
        let mut s = self;
        while !s.at_the_end()
            invariant
                s.wf(),
                s.source == self.source,
                src == self.src(),
                ({
                    let m = scan_from(src, s.current_ptr as nat, s.current_line as nat);
                    &&& self.tokens_view() + m0.tokens == s.tokens_view() + m.tokens
                    &&& self.errors_view() + m0.errors == s.errors_view() + m.errors
                    &&& m0.line == m.line
                }),
            decreases s.length - s.current_ptr,
        {
            let ghost prev = s;
            s = s.scan_token();
            proof {
                let pos = prev.current_ptr as nat;
                let st = scan_step(src, pos, prev.current_line as nat);
                let m = scan_from(src, s.current_ptr as nat, s.current_line as nat);
                let mp = scan_from(src, pos, prev.current_line as nat);
                assert(mp.tokens == opt_seq(step_token(src, pos, st)) + m.tokens);
                assert(prev.tokens_view() + mp.tokens =~= s.tokens_view() + m.tokens);
                assert(prev.errors_view() + mp.errors =~= s.errors_view() + m.errors);
            }
        }
        let eof = Token::new(token_type::EOF, String::new(), None, s.current_line);
        let ghost before = s.tokens_view();
        s.tokens.push(eof);
        proof {
            let m = scan_from(src, s.current_ptr as nat, s.current_line as nat);
            assert(m.tokens =~= Seq::<TokenModel>::empty());
            assert(s.tokens_view() =~= before.push(eof@));
            assert(s.tokens_view() =~= self.tokens_view() + m0.tokens.push(eof_token(m0.line)));
            assert(s.errors_view() =~= self.errors_view() + m0.errors);
        }
        s
    }
}

/// Scans the whole of `source`: the tokens, ending with the end-of-input
/// token, and every lexical error, both in source order.
pub fn scan(source: String) -> (r: (Vec<Token>, Vec<ScanError>))
    requires
        source@.len() < usize::MAX,
    ensures
        r.0@.map_values(|t: Token| t@) == scan_model(source@).tokens,
        r.1@.map_values(|e: ScanError| e@) == scan_model(source@).errors,
{
    let s = Scanner::new(source).scan_tokens();
    proof {
        assert(s.tokens_view() =~= scan_model(s.src()).tokens);
        assert(s.errors_view() =~= scan_model(s.src()).errors);
    }
    (s.tokens, s.errors)
}

} // verus!
