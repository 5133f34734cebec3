//! Tokens: the classified units that the scanner emits.
use vstd::prelude::*;

verus! {

/// The literal value carried by a `STRING` or `NUMBER` token.
#[derive(Debug, Clone)]
pub enum token_type_literal {
    /// The characters between the quotes.
    STRING(String),
    /// The decimal numeral as written in the source.
    NUMBER(String),
}

/// Every lexical category of the language.
#[derive(Debug, Clone, Copy, PartialEq, Eq, Structural)]
pub enum token_type {
    // Single-character tokens.
    LEFT_PAREN,
    RIGHT_PAREN,
    LEFT_BRACE,
    RIGHT_BRACE,
    COMMA,
    DOT,
    MINUS,
    PLUS,
    SEMICOLON,
    SLASH,
    STAR,
    // One or two character tokens.
    BANG,
    BANG_EQUAL,
    EQUAL,
    EQUAL_EQUAL,
    GREATER,
    GREATER_EQUAL,
    LESS,
    LESS_EQUAL,
    // Literals.
    IDENTIFIER,
    STRING,
    NUMBER,
    // Keywords.
    AND,
    CLASS,
    ELSE,
    FALSE,
    FUN,
    FOR,
    IF,
    NIL,
    OR,
    PRINT,
    RETURN,
    SUPER,
    THIS,
    TRUE,
    VAR,
    WHILE,
    // End of input.
    EOF,
}

/// Mathematical value of a literal.
pub enum LiteralModel {
    Str(Seq<char>),
    Num(Seq<char>),
}

/// Mathematical value of a token.
pub struct TokenModel {
    pub kind: token_type,
    pub lexeme: Seq<char>,
    pub literal: Option<LiteralModel>,
    pub line: nat,
}

impl View for token_type_literal {
    type V = LiteralModel;

    open spec fn view(&self) -> LiteralModel {
        match self {
            token_type_literal::STRING(s) => LiteralModel::Str(s@),
            token_type_literal::NUMBER(s) => LiteralModel::Num(s@),
        }
    }
}

pub open spec fn literal_view(l: Option<token_type_literal>) -> Option<LiteralModel> {
    match l {
        Some(v) => Some(v@),
        None => None,
    }
}

/// One token: its category, the source text it came from, its literal value, and its line.
#[derive(Debug, Clone)]
pub struct Token {
    pub tok_type: token_type,
    pub lexeme: String,
    pub literal: Option<token_type_literal>,
    pub line: usize,
}

impl View for Token {
    type V = TokenModel;

    open spec fn view(&self) -> TokenModel {
        TokenModel {
            kind: self.tok_type,
            lexeme: self.lexeme@,
            literal: literal_view(self.literal),
            line: self.line as nat,
        }
    }
}

impl Token {
    pub fn new(
        tok_type: token_type,
        lexeme: String,
        literal: Option<token_type_literal>,
        line: usize,
    ) -> (r: Token)
        ensures
            r@ == (TokenModel {
                kind: tok_type,
                lexeme: lexeme@,
                literal: literal_view(literal),
                line: line as nat,
            }),
    {
        Token { tok_type, lexeme, literal, line }
    }
}

} // verus!
