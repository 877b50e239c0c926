use funlang::lexer::{LexError, Scanner};
use funlang::token::{Token, TokenType, TokenValue};

fn kinds(src: &str) -> Vec<TokenType> {
    let mut sc = Scanner::new(String::from(src));
    sc.tokenize().expect("scan should succeed");
    sc.toks.iter().map(|t| t.tok_type).collect()
}

#[test]
fn tokenize_let_statement_yields_exact_kinds() {
    let mut sc = Scanner::new(String::from("let x = 5;"));
    sc.tokenize().expect("scan should succeed");
    let ks: Vec<TokenType> = sc.toks.iter().map(|t| t.tok_type).collect();
    assert_eq!(
        ks,
        vec![
            TokenType::LET,
            TokenType::IDENTIFIER,
            TokenType::EQUALS,
            TokenType::INT,
            TokenType::SEM,
            TokenType::EOF,
        ]
    );
    assert_eq!(sc.toks[1].tok_value, TokenValue::IDENTIFIER(String::from("x")));
    assert_eq!(sc.toks[3].tok_value, TokenValue::INT(5));
}

#[test]
fn tokenize_second_decimal_point_fails() {
    let mut sc = Scanner::new(String::from("1.2.3"));
    assert_eq!(sc.tokenize(), Err(LexError::SecondDecimalPoint));
}

#[test]
fn tokenize_unknown_character_fails() {
    let mut sc = Scanner::new(String::from("let x = 5 @"));
    assert_eq!(sc.tokenize(), Err(LexError::UnknownChar('@')));
}

#[test]
fn tokenize_unterminated_string_fails() {
    let mut sc = Scanner::new(String::from("let s = \"abc"));
    assert_eq!(sc.tokenize(), Err(LexError::UnterminatedString));
}

#[test]
fn tokenize_huge_integer_fails() {
    let mut sc = Scanner::new(String::from("let x = 9999999999;"));
    assert_eq!(sc.tokenize(), Err(LexError::IntOutOfRange));
}

#[test]
fn tokenize_int_max_succeeds() {
    let mut sc = Scanner::new(String::from("2147483647"));
    sc.tokenize().expect("scan should succeed");
    assert_eq!(sc.toks[0].tok_value, TokenValue::INT(2147483647));
}

#[test]
fn tokenize_float_keeps_literal_text() {
    let mut sc = Scanner::new(String::from("2.50"));
    sc.tokenize().expect("scan should succeed");
    assert_eq!(sc.toks[0].tok_type, TokenType::FLOAT);
    assert_eq!(sc.toks[0].tok_value, TokenValue::FLOAT(String::from("2.50")));
}

#[test]
fn tokenize_empty_input_yields_end_marker_only() {
    assert_eq!(kinds(""), vec![TokenType::EOF]);
}

#[test]
fn tokenize_equality_operators_scan_order() {
    assert_eq!(
        kinds("1 == 2"),
        vec![TokenType::INT, TokenType::EqualsEquals, TokenType::INT, TokenType::EOF]
    );
    assert_eq!(
        kinds("1 =! 2"),
        vec![TokenType::INT, TokenType::NotEquals, TokenType::INT, TokenType::EOF]
    );
    assert_eq!(kinds("="), vec![TokenType::EQUALS, TokenType::EOF]);
}

#[test]
fn tokenize_all_keywords() {
    assert_eq!(
        kinds("print let main fun int float string for if else other"),
        vec![
            TokenType::PRINT,
            TokenType::LET,
            TokenType::MAIN,
            TokenType::FUN,
            TokenType::IntKey,
            TokenType::FloatKey,
            TokenType::StringKey,
            TokenType::FOR,
            TokenType::IF,
            TokenType::ELSE,
            TokenType::IDENTIFIER,
            TokenType::EOF,
        ]
    );
}

#[test]
fn tokenize_symbols() {
    assert_eq!(
        kinds("+ - * / % ( ) { } ; : ,"),
        vec![
            TokenType::PLUS,
            TokenType::MIN,
            TokenType::MULT,
            TokenType::DIV,
            TokenType::MOD,
            TokenType::LParen,
            TokenType::RParen,
            TokenType::LCurly,
            TokenType::RCurly,
            TokenType::SEM,
            TokenType::Annotation,
            TokenType::COMMA,
            TokenType::EOF,
        ]
    );
}

#[test]
fn extract_num_renders_decimal_text() {
    let t = Token::new(TokenType::INT, TokenValue::INT(-12));
    assert_eq!(t.extract_num(), Some(String::from("-12")));
    let t = Token::new(TokenType::INT, TokenValue::INT(i32::MIN));
    assert_eq!(t.extract_num(), Some(String::from("-2147483648")));
    let t = Token::new(TokenType::FLOAT, TokenValue::FLOAT(String::from("1.25")));
    assert_eq!(t.extract_num(), Some(String::from("1.25")));
    let t = Token::new(TokenType::SEM, TokenValue::NONE);
    assert_eq!(t.extract_num(), None);
}

#[test]
fn ops_str_renders_operators() {
    let cases = [
        (TokenType::MIN, "-"),
        (TokenType::PLUS, "+"),
        (TokenType::DIV, "/"),
        (TokenType::MULT, "*"),
        (TokenType::MOD, "%"),
        (TokenType::EqualsEquals, "=="),
        (TokenType::NotEquals, "!="),
        (TokenType::SEM, ""),
    ];
    for (k, s) in cases {
        assert_eq!(Token::new(k, TokenValue::NONE).ops_str(), String::from(s));
    }
}
