use minilang::ast::{ArgumentDefinition, Expression, Function, Module, Statement, Type};
use minilang::lexer::lex;
use minilang::parse_source;
use minilang::parser::{parse, ParseError};
use minilang::token::Token;

fn name(s: &str) -> Token {
    Token::Name { name: s.to_string() }
}

fn intlit(s: &str) -> Token {
    Token::Int { value: s.to_string() }
}

#[test]
fn sample_program_parses_to_expected_module() {
    let input =
        "fn main() { let x: Int = 5; let y: Int = 10; let z: Int = add(x, y); print_int(z); }";
    let module = parse(lex(input)).unwrap();
    let expected = Module {
        name: "main".to_string(),
        functions: vec![Function {
            name: "main".to_string(),
            args: vec![],
            body: vec![
                Statement::Let {
                    name: "x".to_string(),
                    type_: Type::Int,
                    value: Expression::Int(5),
                },
                Statement::Let {
                    name: "y".to_string(),
                    type_: Type::Int,
                    value: Expression::Int(10),
                },
                Statement::Let {
                    name: "z".to_string(),
                    type_: Type::Int,
                    value: Expression::Call(
                        "add".to_string(),
                        vec![
                            Expression::Name("x".to_string()),
                            Expression::Name("y".to_string()),
                        ],
                    ),
                },
                Statement::Print(Expression::Name("z".to_string())),
            ],
        }],
    };
    assert_eq!(module, expected);
}

#[test]
fn argument_list_round_trip() {
    let module = parse(lex("fn f(a: Int, b: Int) { return a; }")).unwrap();
    assert_eq!(module.functions.len(), 1);
    let f = &module.functions[0];
    assert_eq!(f.name, "f");
    assert_eq!(
        f.args,
        vec![
            ArgumentDefinition { name: "a".to_string(), type_: Type::Int },
            ArgumentDefinition { name: "b".to_string(), type_: Type::Int },
        ]
    );
    assert_eq!(f.body, vec![Statement::Return(Expression::Name("a".to_string()))]);
}

#[test]
fn unknown_argument_type_is_rejected() {
    assert_eq!(parse(lex("fn f(a: Bool) { }")), Err(ParseError::UnknownType));
}

#[test]
fn missing_semicolon_after_let_aborts_the_parse() {
    assert_eq!(parse(lex("fn f() { let x: Int = 5 }")), Err(ParseError::ExpectedSemiColon));
}

#[test]
fn function_count_matches_declarations_and_garbage_is_skipped() {
    let module = parse(lex("junk fn a() { } 42 ; fn b() { } +")).unwrap();
    assert_eq!(module.functions.len(), 2);
    assert_eq!(module.functions[0].name, "a");
    assert_eq!(module.functions[1].name, "b");
}

#[test]
fn module_name_is_the_fixed_placeholder() {
    let module = parse(lex("fn f() { }")).unwrap();
    assert_eq!(module.name, "main");
}

#[test]
fn nested_calls_parse_recursively() {
    let module = parse(lex("fn f() { return g(h(1), 2); }")).unwrap();
    assert_eq!(
        module.functions[0].body,
        vec![Statement::Return(Expression::Call(
            "g".to_string(),
            vec![
                Expression::Call("h".to_string(), vec![Expression::Int(1)]),
                Expression::Int(2),
            ],
        ))]
    );
}

#[test]
fn call_with_no_arguments_parses_to_empty_list() {
    let module = parse(lex("fn f() { return g(); }")).unwrap();
    assert_eq!(
        module.functions[0].body,
        vec![Statement::Return(Expression::Call("g".to_string(), vec![]))]
    );
}

#[test]
fn trailing_commas_are_tolerated() {
    let module = parse(lex("fn f(a: Int,) { return g(1,); }")).unwrap();
    assert_eq!(module.functions[0].args.len(), 1);
    assert_eq!(
        module.functions[0].body,
        vec![Statement::Return(Expression::Call("g".to_string(), vec![Expression::Int(1)]))]
    );
}

#[test]
fn statements_keep_declaration_order() {
    let module = parse(lex("fn f() { let a: Int = 1; print_int(a); return a; }")).unwrap();
    let body = &module.functions[0].body;
    assert_eq!(body.len(), 3);
    assert!(matches!(body[0], Statement::Let { .. }));
    assert!(matches!(body[1], Statement::Print(_)));
    assert!(matches!(body[2], Statement::Return(_)));
}

#[test]
fn negative_literal_token_parses_through_conversion() {
    let tokens = vec![
        Token::Fn,
        name("f"),
        Token::LeftParen,
        Token::RightParen,
        Token::LeftBrace,
        name("return"),
        intlit("-5"),
        Token::SemiColon,
        Token::RightBrace,
        Token::EndOfFile,
    ];
    let module = parse(tokens).unwrap();
    assert_eq!(module.functions[0].body, vec![Statement::Return(Expression::Int(-5))]);
}

#[test]
fn parse_source_runs_the_whole_pipeline() {
    let module = parse_source("fn f(a: Int) { print_int(a); }").unwrap();
    assert_eq!(module.functions.len(), 1);
    assert_eq!(module.functions[0].name, "f");
    assert_eq!(module.functions[0].args.len(), 1);
}

#[test]
fn parse_source_reports_the_first_error() {
    assert_eq!(parse_source("fn f() { let x: Bool = 5; }"), Err(ParseError::UnknownType));
}
