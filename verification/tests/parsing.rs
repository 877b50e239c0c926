use funlang::{compile, CompileError};
use funlang::lexer::LexError;
use funlang::parser::ParseError;
use funlang::token::TokenType;

fn parse_err(src: &str) -> ParseError {
    match compile(String::from(src)) {
        Err(CompileError::Parse(e)) => e,
        other => panic!("expected a parse error, got {:?}", other),
    }
}

#[test]
fn declared_type_mismatch_is_reported() {
    assert_eq!(
        parse_err("let x:int = \"a\";"),
        ParseError::DeclTypeMismatch { declared: TokenType::INT, inferred: TokenType::STRING }
    );
}

#[test]
fn undefined_variable_is_named() {
    assert_eq!(
        parse_err("print(\"{}\", y);"),
        ParseError::UndefinedVariable { name: String::from("y") }
    );
}

#[test]
fn placeholder_count_mismatch_too_few_args() {
    assert_eq!(
        parse_err("print(\"{} {}\", 1);"),
        ParseError::PlaceholderMismatch { placeholders: 2, args: 1 }
    );
}

#[test]
fn placeholder_count_mismatch_too_many_args() {
    assert_eq!(
        parse_err("print(\"{}\", 1, 2);"),
        ParseError::PlaceholderMismatch { placeholders: 1, args: 2 }
    );
}

#[test]
fn print_format_must_be_string_literal() {
    assert_eq!(parse_err("let x = 1; print(x);"), ParseError::PrintFormatNotString);
}

#[test]
fn assignment_before_declaration_is_reported() {
    assert_eq!(
        parse_err("x = 1;"),
        ParseError::UsedBeforeDeclaration { name: String::from("x") }
    );
}

#[test]
fn assignment_type_mismatch_is_reported() {
    assert_eq!(
        parse_err("let x = 1; x = \"a\";"),
        ParseError::AssignTypeMismatch {
            name: String::from("x"),
            expected: TokenType::INT,
            found: TokenType::STRING,
        }
    );
}

#[test]
fn mixed_operand_types_are_rejected() {
    assert_eq!(parse_err("let x = 1 + \"a\";"), ParseError::MixedOperandTypes);
}

#[test]
fn arithmetic_on_strings_is_rejected() {
    assert_eq!(
        parse_err("let s = \"a\" * \"b\";"),
        ParseError::StringOperator { op: TokenType::MULT }
    );
}

#[test]
fn string_equality_is_allowed() {
    assert!(compile(String::from("let b = \"a\" == \"b\";")).is_ok());
}

#[test]
fn unclosed_parenthesis_is_reported() {
    assert_eq!(parse_err("let x = (1;"), ParseError::ExpectedClosingParen);
}

#[test]
fn unexpected_factor_token_is_reported() {
    assert_eq!(
        parse_err("let x = ;"),
        ParseError::UnexpectedFactorToken { found: TokenType::SEM }
    );
}

#[test]
fn annotation_requires_type_keyword() {
    assert_eq!(
        parse_err("let x:foo = 1;"),
        ParseError::ExpectedTypeKeyword { found: TokenType::IDENTIFIER }
    );
}

#[test]
fn missing_semicolon_is_reported() {
    assert_eq!(
        parse_err("let x = 1"),
        ParseError::Expected { expected: TokenType::SEM, found: TokenType::EOF }
    );
}

#[test]
fn standalone_expression_is_rejected() {
    assert_eq!(
        parse_err("1 + 2;"),
        ParseError::StandaloneValue { text: String::from("1+2") }
    );
}

#[test]
fn identifier_statement_requires_assignment() {
    assert_eq!(
        parse_err("let x = 1; x + 2;"),
        ParseError::Expected { expected: TokenType::EQUALS, found: TokenType::PLUS }
    );
}

#[test]
fn for_loop_header_must_be_integer() {
    assert_eq!(parse_err("for 0.5:5 i { }"), ParseError::LoopHeaderNotInt);
    assert_eq!(parse_err("for 0:5.5 i { }"), ParseError::LoopHeaderNotInt);
    assert_eq!(parse_err("for 0:5=0.5 i { }"), ParseError::LoopHeaderNotInt);
}

#[test]
fn for_loop_variable_is_scoped_to_its_body() {
    assert!(compile(String::from("for 0:5 i { print(\"{}\", i); }")).is_ok());
    assert_eq!(
        parse_err("for 0:5 i { print(\"{}\", i); } print(\"{}\", i);"),
        ParseError::UndefinedVariable { name: String::from("i") }
    );
}

#[test]
fn for_loop_variable_shadows_and_pops() {
    // the loop pops its entry entirely, so even an earlier declaration of
    // the same name is gone after the loop
    assert_eq!(
        parse_err("let i = 9; for 0:5 i { } i = 3;"),
        ParseError::UsedBeforeDeclaration { name: String::from("i") }
    );
}

#[test]
fn declarations_persist_after_nested_bodies() {
    assert!(compile(String::from("if 1 { let a = 2; } a = 3;")).is_ok());
}

#[test]
fn compile_reports_lexical_errors_as_fatal() {
    assert_eq!(
        compile(String::from("let x = 1.2.3;")),
        Err(CompileError::Lex(LexError::SecondDecimalPoint))
    );
}

#[test]
fn compile_of_empty_input_emits_nothing() {
    assert_eq!(compile(String::new()), Ok(String::new()));
}
