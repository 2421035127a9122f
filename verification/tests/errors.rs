use minilang::lexer::lex;
use minilang::parser::{parse, ParseError};
use minilang::token::Token;

fn name(s: &str) -> Token {
    Token::Name { name: s.to_string() }
}

fn intlit(s: &str) -> Token {
    Token::Int { value: s.to_string() }
}

#[test]
fn fn_must_be_followed_by_a_name() {
    assert_eq!(parse(lex("fn 5")), Err(ParseError::ExpectedFunctionName));
    assert_eq!(parse(lex("fn")), Err(ParseError::ExpectedFunctionName));
}

#[test]
fn argument_list_must_open_with_a_paren() {
    assert_eq!(parse(lex("fn f 5")), Err(ParseError::ExpectedLeftParen));
}

#[test]
fn print_int_needs_an_opening_paren() {
    assert_eq!(parse(lex("fn f() { print_int; }")), Err(ParseError::ExpectedLeftParen));
}

#[test]
fn print_int_needs_a_closing_paren() {
    assert_eq!(parse(lex("fn f() { print_int(5; }")), Err(ParseError::ExpectedRightParen));
}

#[test]
fn body_must_open_with_a_brace() {
    assert_eq!(parse(lex("fn f() 5")), Err(ParseError::ExpectedLeftBrace));
    assert_eq!(parse(lex("fn f()")), Err(ParseError::ExpectedLeftBrace));
}

#[test]
fn argument_name_must_be_followed_by_a_colon() {
    assert_eq!(parse(lex("fn f(a Int) { }")), Err(ParseError::ExpectedColon));
}

#[test]
fn let_name_must_be_followed_by_a_colon() {
    assert_eq!(parse(lex("fn f() { let x = 5; }")), Err(ParseError::ExpectedColon));
}

#[test]
fn let_needs_an_equal_sign() {
    assert_eq!(parse(lex("fn f() { let x: Int 5; }")), Err(ParseError::ExpectedEqual));
}

#[test]
fn return_statement_needs_a_semicolon() {
    assert_eq!(parse(lex("fn f() { return 5 }")), Err(ParseError::ExpectedSemiColon));
}

#[test]
fn print_statement_needs_a_semicolon() {
    assert_eq!(parse(lex("fn f() { print_int(5) }")), Err(ParseError::ExpectedSemiColon));
}

#[test]
fn let_must_bind_a_name() {
    assert_eq!(parse(lex("fn f() { let 5: Int = 5; }")), Err(ParseError::ExpectedName));
}

#[test]
fn a_statement_cannot_start_with_a_literal() {
    assert_eq!(parse(lex("fn f() { 5; }")), Err(ParseError::ExpectedName));
}

#[test]
fn let_type_position_must_hold_a_name() {
    assert_eq!(parse(lex("fn f() { let x: = 5; }")), Err(ParseError::ExpectedType));
}

#[test]
fn argument_type_position_must_hold_a_name() {
    assert_eq!(parse(lex("fn f(a: ,) { }")), Err(ParseError::ExpectedType));
}

#[test]
fn let_type_must_be_int() {
    assert_eq!(parse(lex("fn f() { let x: Bool = 5; }")), Err(ParseError::UnknownType));
}

#[test]
fn statement_identifier_must_be_a_known_form() {
    assert_eq!(parse(lex("fn f() { foo(); }")), Err(ParseError::ExpectedStatement));
}

#[test]
fn an_expression_must_be_an_int_or_a_name() {
    assert_eq!(parse(lex("fn f() { let x: Int = ;; }")), Err(ParseError::ExpectedIntOrName));
}

#[test]
fn arguments_are_separated_by_commas() {
    assert_eq!(parse(lex("fn f(a: Int b: Int) { }")), Err(ParseError::ExpectedCommaOrRightParen));
}

#[test]
fn call_arguments_are_separated_by_commas() {
    assert_eq!(
        parse(lex("fn f() { return g(1 2); }")),
        Err(ParseError::ExpectedCommaOrRightParen)
    );
}

#[test]
fn argument_list_holds_names_or_closes() {
    assert_eq!(parse(lex("fn f(5) { }")), Err(ParseError::ExpectedNameOrRightParen));
}

#[test]
fn oversized_integer_literal_is_rejected_downstream() {
    assert_eq!(
        parse(lex("fn f() { return 99999999999999; }")),
        Err(ParseError::InvalidIntegerLiteral)
    );
}

#[test]
fn malformed_literal_token_is_rejected_downstream() {
    let tokens = vec![
        Token::Fn,
        name("f"),
        Token::LeftParen,
        Token::RightParen,
        Token::LeftBrace,
        name("return"),
        intlit("12x"),
        Token::SemiColon,
        Token::RightBrace,
        Token::EndOfFile,
    ];
    assert_eq!(parse(tokens), Err(ParseError::InvalidIntegerLiteral));
}

#[test]
fn errors_carry_the_expected_message() {
    assert_eq!(ParseError::UnknownType.message(), "Unknown type");
    assert_eq!(ParseError::ExpectedSemiColon.message(), "Expected semicolon");
    assert_eq!(ParseError::ExpectedStatement.message(), "Expected let, print_int, or return");
}
