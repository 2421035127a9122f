use minilang::lexer::lex;
use minilang::token::Token;

fn name(s: &str) -> Token {
    Token::Name { name: s.to_string() }
}

fn intlit(s: &str) -> Token {
    Token::Int { value: s.to_string() }
}

#[test]
fn sample_program_lexes_to_expected_sequence() {
    let input =
        "fn main() { let x: Int = 5; let y: Int = 10; let z: Int = add(x, y); print_int(z); }";
    let expected = vec![
        Token::Fn,
        name("main"),
        Token::LeftParen,
        Token::RightParen,
        Token::LeftBrace,
        Token::Let,
        name("x"),
        Token::Colon,
        name("Int"),
        Token::Equal,
        intlit("5"),
        Token::SemiColon,
        Token::Let,
        name("y"),
        Token::Colon,
        name("Int"),
        Token::Equal,
        intlit("10"),
        Token::SemiColon,
        Token::Let,
        name("z"),
        Token::Colon,
        name("Int"),
        Token::Equal,
        name("add"),
        Token::LeftParen,
        name("x"),
        Token::Comma,
        name("y"),
        Token::RightParen,
        Token::SemiColon,
        name("print_int"),
        Token::LeftParen,
        name("z"),
        Token::RightParen,
        Token::SemiColon,
        Token::RightBrace,
        Token::EndOfFile,
    ];
    assert_eq!(lex(input), expected);
}

#[test]
fn longest_match_keeps_let123_as_one_identifier() {
    assert_eq!(lex("let123"), vec![name("let123"), Token::EndOfFile]);
}

#[test]
fn digits_then_letters_split_into_two_tokens() {
    assert_eq!(lex("123abc"), vec![intlit("123"), name("abc"), Token::EndOfFile]);
}

#[test]
fn whitespace_and_unrecognized_characters_yield_no_tokens() {
    assert_eq!(lex("# \n\t ~ @ !"), vec![Token::EndOfFile]);
}

#[test]
fn empty_input_lexes_to_end_of_file_alone() {
    assert_eq!(lex(""), vec![Token::EndOfFile]);
}

#[test]
fn end_of_file_is_always_exactly_the_last_token() {
    let inputs = ["", "fn", "let x", "###", "fn main() { print_int(1); }", "}}{{"];
    for input in inputs {
        let tokens = lex(input);
        assert_eq!(tokens.last(), Some(&Token::EndOfFile));
        let eof_count = tokens.iter().filter(|t| **t == Token::EndOfFile).count();
        assert_eq!(eof_count, 1);
    }
}

#[test]
fn classification_does_not_depend_on_surrounding_whitespace() {
    assert_eq!(lex("let"), vec![Token::Let, Token::EndOfFile]);
    assert_eq!(lex("  let\n"), vec![Token::Let, Token::EndOfFile]);
    assert_eq!(lex("fn"), vec![Token::Fn, Token::EndOfFile]);
    assert_eq!(lex("\tfn "), vec![Token::Fn, Token::EndOfFile]);
    assert_eq!(lex("foo"), vec![name("foo"), Token::EndOfFile]);
    assert_eq!(lex("  foo  "), vec![name("foo"), Token::EndOfFile]);
}

#[test]
fn keywords_are_matched_case_sensitively_and_whole() {
    assert_eq!(lex("letx"), vec![name("letx"), Token::EndOfFile]);
    assert_eq!(lex("fnx"), vec![name("fnx"), Token::EndOfFile]);
    assert_eq!(lex("Let"), vec![name("Let"), Token::EndOfFile]);
    assert_eq!(lex("FN"), vec![name("FN"), Token::EndOfFile]);
}

#[test]
fn every_punctuation_character_lexes_to_its_token() {
    assert_eq!(
        lex(":,=;(){}"),
        vec![
            Token::Colon,
            Token::Comma,
            Token::Equal,
            Token::SemiColon,
            Token::LeftParen,
            Token::RightParen,
            Token::LeftBrace,
            Token::RightBrace,
            Token::EndOfFile,
        ]
    );
}

#[test]
fn uppercase_identifiers_are_plain_names() {
    assert_eq!(lex("Int"), vec![name("Int"), Token::EndOfFile]);
}

#[test]
fn identifiers_may_contain_underscores_and_digits() {
    assert_eq!(lex("print_int x_1"), vec![name("print_int"), name("x_1"), Token::EndOfFile]);
}
