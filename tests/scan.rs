use lox_scanner::model::ScanErrorKind;
use lox_scanner::scanner::{scan, ScanError, Scanner};
use lox_scanner::token::{token_type, token_type_literal, Token};

fn kinds(tokens: &[Token]) -> Vec<token_type> {
    tokens.iter().map(|t| t.tok_type).collect()
}

fn string_literal(t: &Token) -> String {
    match &t.literal {
        Some(token_type_literal::STRING(s)) => s.clone(),
        other => panic!("not a string literal: {:?}", other),
    }
}

fn number_literal(t: &Token) -> String {
    match &t.literal {
        Some(token_type_literal::NUMBER(s)) => s.clone(),
        other => panic!("not a number literal: {:?}", other),
    }
}

#[test]
fn punctuation_gives_one_token_per_character() {
    let (tokens, errors) = scan("(){},.-+;*/".to_string());
    assert_eq!(
        kinds(&tokens),
        vec![
            token_type::LEFT_PAREN,
            token_type::RIGHT_PAREN,
            token_type::LEFT_BRACE,
            token_type::RIGHT_BRACE,
            token_type::COMMA,
            token_type::DOT,
            token_type::MINUS,
            token_type::PLUS,
            token_type::SEMICOLON,
            token_type::STAR,
            token_type::SLASH,
            token_type::EOF,
        ]
    );
    let lexemes: Vec<&str> = tokens.iter().map(|t| t.lexeme.as_str()).collect();
    assert_eq!(
        lexemes,
        vec!["(", ")", "{", "}", ",", ".", "-", "+", ";", "*", "/", ""]
    );
    assert!(errors.is_empty());
}

#[test]
fn bang_equal_is_one_token() {
    let (tokens, errors) = scan("!=".to_string());
    assert_eq!(kinds(&tokens), vec![token_type::BANG_EQUAL, token_type::EOF]);
    assert_eq!(tokens[0].lexeme, "!=");
    assert!(errors.is_empty());
}

#[test]
fn bang_before_identifier() {
    let (tokens, errors) = scan("!x".to_string());
    assert_eq!(
        kinds(&tokens),
        vec![token_type::BANG, token_type::IDENTIFIER, token_type::EOF]
    );
    assert_eq!(tokens[0].lexeme, "!");
    assert_eq!(tokens[1].lexeme, "x");
    assert!(errors.is_empty());
}

#[test]
fn one_and_two_character_operators() {
    let (tokens, _) = scan("! != = == < <= > >=".to_string());
    assert_eq!(
        kinds(&tokens),
        vec![
            token_type::BANG,
            token_type::BANG_EQUAL,
            token_type::EQUAL,
            token_type::EQUAL_EQUAL,
            token_type::LESS,
            token_type::LESS_EQUAL,
            token_type::GREATER,
            token_type::GREATER_EQUAL,
            token_type::EOF,
        ]
    );
}

#[test]
fn operator_at_end_of_input_falls_back() {
    let (tokens, _) = scan("<".to_string());
    assert_eq!(kinds(&tokens), vec![token_type::LESS, token_type::EOF]);
}

#[test]
fn comment_is_stripped() {
    let (tokens, errors) = scan("+ // comment\n-".to_string());
    assert_eq!(
        kinds(&tokens),
        vec![token_type::PLUS, token_type::MINUS, token_type::EOF]
    );
    assert!(errors.is_empty());
    assert_eq!(tokens[1].line, 2);
}

#[test]
fn comment_at_end_of_input() {
    let (tokens, errors) = scan("/ // @ ^".to_string());
    assert_eq!(kinds(&tokens), vec![token_type::SLASH, token_type::EOF]);
    assert!(errors.is_empty());
}

#[test]
fn string_literal_excludes_quotes() {
    let (tokens, errors) = scan("\"hello\"".to_string());
    assert_eq!(kinds(&tokens), vec![token_type::STRING, token_type::EOF]);
    assert_eq!(tokens[0].lexeme, "\"hello\"");
    assert_eq!(string_literal(&tokens[0]), "hello");
    assert!(errors.is_empty());
}

#[test]
fn string_spanning_lines_advances_line() {
    let (tokens, _) = scan("\"a\nb\" x".to_string());
    assert_eq!(string_literal(&tokens[0]), "a\nb");
    assert_eq!(tokens[0].line, 2);
    assert_eq!(tokens[1].line, 2);
}

#[test]
fn unterminated_string_is_an_error() {
    let (tokens, errors) = scan("\"abc".to_string());
    assert!(tokens.iter().all(|t| t.tok_type != token_type::STRING));
    assert_eq!(kinds(&tokens), vec![token_type::EOF]);
    assert_eq!(
        errors,
        vec![ScanError {
            line: 1,
            kind: ScanErrorKind::UnterminatedString
        }]
    );
    assert_eq!(errors[0].message(), "Unterminated string.");
}

#[test]
fn keyword_is_not_matched_on_prefix() {
    let (tokens, errors) = scan("for forest".to_string());
    assert_eq!(
        kinds(&tokens),
        vec![token_type::FOR, token_type::IDENTIFIER, token_type::EOF]
    );
    assert_eq!(tokens[1].lexeme, "forest");
    assert!(errors.is_empty());
}

#[test]
fn every_keyword_is_recognised() {
    let (tokens, _) = scan(
        "and class else false fun for if nil or print return super this true var while"
            .to_string(),
    );
    assert_eq!(
        kinds(&tokens),
        vec![
            token_type::AND,
            token_type::CLASS,
            token_type::ELSE,
            token_type::FALSE,
            token_type::FUN,
            token_type::FOR,
            token_type::IF,
            token_type::NIL,
            token_type::OR,
            token_type::PRINT,
            token_type::RETURN,
            token_type::SUPER,
            token_type::THIS,
            token_type::TRUE,
            token_type::VAR,
            token_type::WHILE,
            token_type::EOF,
        ]
    );
}

#[test]
fn identifiers_take_letters_digits_underscores() {
    let (tokens, _) = scan("_a1 And".to_string());
    assert_eq!(
        kinds(&tokens),
        vec![token_type::IDENTIFIER, token_type::IDENTIFIER, token_type::EOF]
    );
    assert_eq!(tokens[0].lexeme, "_a1");
    assert_eq!(tokens[1].lexeme, "And");
}

#[test]
fn numbers_are_tracked_by_line() {
    let (tokens, errors) = scan("1\n2\n3".to_string());
    assert_eq!(
        kinds(&tokens),
        vec![
            token_type::NUMBER,
            token_type::NUMBER,
            token_type::NUMBER,
            token_type::EOF
        ]
    );
    let lines: Vec<usize> = tokens.iter().map(|t| t.line).collect();
    assert_eq!(lines, vec![1, 2, 3, 3]);
    assert!(errors.is_empty());
}

#[test]
fn number_with_fraction() {
    let (tokens, _) = scan("12.5".to_string());
    assert_eq!(kinds(&tokens), vec![token_type::NUMBER, token_type::EOF]);
    assert_eq!(number_literal(&tokens[0]), "12.5");
}

#[test]
fn trailing_point_is_not_part_of_number() {
    let (tokens, _) = scan("-12.".to_string());
    assert_eq!(
        kinds(&tokens),
        vec![
            token_type::MINUS,
            token_type::NUMBER,
            token_type::DOT,
            token_type::EOF
        ]
    );
    assert_eq!(tokens[1].lexeme, "12");
    assert_eq!(number_literal(&tokens[1]), "12");
}

#[test]
fn empty_input_gives_only_eof() {
    let (tokens, errors) = scan(String::new());
    assert_eq!(kinds(&tokens), vec![token_type::EOF]);
    assert_eq!(tokens[0].lexeme, "");
    assert_eq!(tokens[0].line, 1);
    assert!(errors.is_empty());
}

#[test]
fn unexpected_characters_are_all_reported() {
    let (tokens, errors) = scan("@\n^ (".to_string());
    assert_eq!(kinds(&tokens), vec![token_type::LEFT_PAREN, token_type::EOF]);
    assert_eq!(
        errors,
        vec![
            ScanError {
                line: 1,
                kind: ScanErrorKind::UnexpectedCharacter
            },
            ScanError {
                line: 2,
                kind: ScanErrorKind::UnexpectedCharacter
            },
        ]
    );
    assert_eq!(errors[0].message(), "Unexpected character.");
}

#[test]
fn blanks_produce_nothing() {
    let (tokens, errors) = scan(" \t\r".to_string());
    assert_eq!(kinds(&tokens), vec![token_type::EOF]);
    assert!(errors.is_empty());
}

#[test]
fn scan_token_at_end_changes_nothing() {
    let scanner = Scanner::new("+".to_string()).scan_token().scan_token();
    assert_eq!(scanner.tokens.len(), 1);
    assert_eq!(scanner.current_ptr, 1);
    assert!(scanner.at_the_end());
}

#[test]
fn scan_tokens_appends_eof() {
    let scanner = Scanner::new("a = \"b\"".to_string()).scan_tokens();
    assert_eq!(
        kinds(&scanner.tokens),
        vec![
            token_type::IDENTIFIER,
            token_type::EQUAL,
            token_type::STRING,
            token_type::EOF
        ]
    );
    assert_eq!(scanner.get_char_from_source(), "\"b\"");
}

#[test]
fn token_new_keeps_fields() {
    let t = Token::new(
        token_type::NUMBER,
        "7".to_string(),
        Some(token_type_literal::NUMBER("7".to_string())),
        4,
    );
    assert_eq!(t.tok_type, token_type::NUMBER);
    assert_eq!(t.lexeme, "7");
    assert_eq!(t.line, 4);
    assert_eq!(number_literal(&t), "7");
}

#[test]
fn check_ahead_peeks_at_next_character() {
    let s = Scanner::new("!=.==.<=.>=".to_string()).advance();
    assert!(s.check_ahead(String::from("=")));
    assert_eq!(s.current_ptr, 1);
    assert!(s.check_ahead(String::from("=.")));
    assert!(!s.check_ahead(String::from("!")));
}

#[test]
fn check_ahead_does_not_match_consumed_text() {
    let s = Scanner::new("=x".to_string()).advance();
    assert!(!s.check_ahead(String::from("=")));
    assert!(s.check_ahead(String::from("x")));
}

#[test]
fn check_ahead_never_matches_past_end() {
    let s = Scanner::new("=".to_string()).advance();
    assert!(!s.check_ahead(String::from("=")));
    let s = Scanner::new("()".to_string()).scan_token().reset_start_ptr().advance();
    assert!(!s.check_ahead(String::from(")")));
    assert!(s.check_ahead(String::new()));
}

#[test]
fn lone_equal_is_equal() {
    let (tokens, _) = scan("=".to_string());
    assert_eq!(kinds(&tokens), vec![token_type::EQUAL, token_type::EOF]);
}
