//! The parser: recursive descent over the token sequence with one token
//! of lookahead. Parsing is fatal on the first violation: each rule
//! reports the first expectation it finds unmet, and no partial module
//! escapes.
//!
//! Each grammar rule has a specification function (`sp_` prefix) over the
//! token-sequence image, a pure function from a cursor position to a
//! parsed node and the position after it, or to the error raised. The
//! executable rules return exactly what their specification functions
//! say, which is the whole of their contract.

use vstd::prelude::*;
use crate::ast::{
    ArgV, ArgumentDefinition, ExprV, Expression, FunV, Function, Module, ModuleV, StmtV, Statement,
    Type, TypeV, args_view, expr_view, exprs_view, funs_view, lemma_args_view_push,
    lemma_exprs_view_push, lemma_funs_view_push, lemma_stmts_view_push, module_view, stmts_view,
};
use crate::text::{int_literal_value, eval_int_literal, str_eq};
use crate::token::{TokV, Token, toks_view};

verus! {

/// The reason a parse was aborted. Each variant names the expectation
/// that the offending token (or the exhausted cursor) failed to meet.
#[derive(Debug, PartialEq, Eq, Clone, Copy)]
pub enum ParseError {
    ExpectedFunctionName,
    ExpectedLeftParen,
    ExpectedRightParen,
    ExpectedLeftBrace,
    ExpectedColon,
    ExpectedEqual,
    ExpectedSemiColon,
    ExpectedName,
    ExpectedType,
    UnknownType,
    ExpectedCommaOrRightParen,
    ExpectedNameOrRightParen,
    ExpectedStatement,
    ExpectedIntOrName,
    InvalidIntegerLiteral,
}

/// The message a parse error carries, naming the violated expectation.
pub open spec fn message_spec(e: ParseError) -> Seq<char> {
    match e {
        ParseError::ExpectedFunctionName => "Expected function name"@,
        ParseError::ExpectedLeftParen => "Expected left paren"@,
        ParseError::ExpectedRightParen => "Expected right paren"@,
        ParseError::ExpectedLeftBrace => "Expected left brace"@,
        ParseError::ExpectedColon => "Expected colon"@,
        ParseError::ExpectedEqual => "Expected equal"@,
        ParseError::ExpectedSemiColon => "Expected semicolon"@,
        ParseError::ExpectedName => "Expected name"@,
        ParseError::ExpectedType => "Expected type"@,
        ParseError::UnknownType => "Unknown type"@,
        ParseError::ExpectedCommaOrRightParen => "Expected comma or right paren"@,
        ParseError::ExpectedNameOrRightParen => "Expected name or right paren"@,
        ParseError::ExpectedStatement => "Expected let, print_int, or return"@,
        ParseError::ExpectedIntOrName => "Expected int or name"@,
        ParseError::InvalidIntegerLiteral => "Invalid integer literal"@,
    }
}

impl ParseError {
    /// A human-readable rendering of the error.
    pub fn message(&self) -> (m: &'static str)
        ensures
            m@ == message_spec(*self),
    {
        match self {
            ParseError::ExpectedFunctionName => "Expected function name",
            ParseError::ExpectedLeftParen => "Expected left paren",
            ParseError::ExpectedRightParen => "Expected right paren",
            ParseError::ExpectedLeftBrace => "Expected left brace",
            ParseError::ExpectedColon => "Expected colon",
            ParseError::ExpectedEqual => "Expected equal",
            ParseError::ExpectedSemiColon => "Expected semicolon",
            ParseError::ExpectedName => "Expected name",
            ParseError::ExpectedType => "Expected type",
            ParseError::UnknownType => "Unknown type",
            ParseError::ExpectedCommaOrRightParen => "Expected comma or right paren",
            ParseError::ExpectedNameOrRightParen => "Expected name or right paren",
            ParseError::ExpectedStatement => "Expected let, print_int, or return",
            ParseError::ExpectedIntOrName => "Expected int or name",
            ParseError::InvalidIntegerLiteral => "Invalid integer literal",
        }
    }
}

/// The token under the cursor, or `None` once the sequence is exhausted.
pub open spec fn tok_at(t: Seq<TokV>, i: int) -> Option<TokV> {
    if 0 <= i < t.len() {
        Some(t[i])
    } else {
        None
    }
}

/// Termination measure for the grammar rules: how many tokens are left.
pub open spec fn remaining(t: Seq<TokV>, i: int) -> int {
    if i < 0 {
        t.len() + 1int
    } else if i <= t.len() {
        t.len() - i
    } else {
        0
    }
}

/// Where a rule resumes after a subrule that began at `lo` ended at `j`.
/// Every rule consumes at least one token, so `j > lo` and this is `j`;
/// the floor `lo + 1` only lets the recursion be seen to terminate.
pub open spec fn step_from(lo: int, j: int) -> int {
    if j > lo {
        j
    } else {
        lo + 1
    }
}

/// One expression: an integer literal, a variable reference, or a call.
pub open spec fn sp_expression(t: Seq<TokV>, i: int) -> Result<(ExprV, int), ParseError>
    decreases remaining(t, i), 0int,
{
    match tok_at(t, i) {
        Some(TokV::Int(text)) => match int_literal_value(text) {
            Some(v) => Ok((ExprV::Int(v as int), i + 1)),
            None => Err(ParseError::InvalidIntegerLiteral),
        },
        Some(TokV::Name(name)) => {
            if tok_at(t, i + 1) == Some(TokV::LeftParen) {
                match sp_call_arguments(t, i + 1) {
                    Ok((args, j)) => Ok((ExprV::Call(name, args), j)),
                    Err(e) => Err(e),
                }
            } else {
                Ok((ExprV::Name(name), i + 1))
            }
        },
        _ => Err(ParseError::ExpectedIntOrName),
    }
}

/// The comma-separated expressions of a call, after the opening paren.
pub open spec fn sp_call_arguments_loop(t: Seq<TokV>, i: int, acc: Seq<ExprV>) -> Result<
    (Seq<ExprV>, int),
    ParseError,
>
    decreases remaining(t, i), 1int,
{
    if tok_at(t, i) == Some(TokV::RightParen) {
        Ok((acc, i + 1))
    } else {
        match sp_expression(t, i) {
            Ok((e, jr)) => {
                let j = step_from(i, jr);
                if tok_at(t, j) == Some(TokV::Comma) {
                    sp_call_arguments_loop(t, j + 1, acc.push(e))
                } else if tok_at(t, j) == Some(TokV::RightParen) {
                    sp_call_arguments_loop(t, j, acc.push(e))
                } else {
                    Err(ParseError::ExpectedCommaOrRightParen)
                }
            },
            Err(e) => Err(e),
        }
    }
}

/// A parenthesised, comma-separated list of argument expressions.
pub open spec fn sp_call_arguments(t: Seq<TokV>, i: int) -> Result<(Seq<ExprV>, int), ParseError>
    decreases remaining(t, i), 2int,
{
    if tok_at(t, i) == Some(TokV::LeftParen) {
        sp_call_arguments_loop(t, i + 1, Seq::empty())
    } else {
        Err(ParseError::ExpectedLeftParen)
    }
}

/// The statements of a function body, after the opening brace.
pub open spec fn sp_statements_loop(t: Seq<TokV>, i: int, acc: Seq<StmtV>) -> Result<
    (Seq<StmtV>, int),
    ParseError,
>
    decreases remaining(t, i),
{
    match tok_at(t, i) {
        Some(TokV::RightBrace) => Ok((acc, i + 1)),
        Some(TokV::Let) => match tok_at(t, i + 1) {
            Some(TokV::Name(nm)) => match tok_at(t, i + 2) {
                Some(TokV::Colon) => match tok_at(t, i + 3) {
                    Some(TokV::Name(ty)) => if ty == "Int"@ {
                        match tok_at(t, i + 4) {
                            Some(TokV::Equal) => match sp_expression(t, i + 5) {
                                Ok((v, jr)) => {
                                    let j = step_from(i + 5, jr);
                                    if tok_at(t, j) == Some(TokV::SemiColon) {
                                        sp_statements_loop(
                                            t,
                                            j + 1,
                                            acc.push(
                                                StmtV::Let { name: nm, type_: TypeV::Int, value: v },
                                            ),
                                        )
                                    } else {
                                        Err(ParseError::ExpectedSemiColon)
                                    }
                                },
                                Err(e) => Err(e),
                            },
                            _ => Err(ParseError::ExpectedEqual),
                        }
                    } else {
                        Err(ParseError::UnknownType)
                    },
                    _ => Err(ParseError::ExpectedType),
                },
                _ => Err(ParseError::ExpectedColon),
            },
            _ => Err(ParseError::ExpectedName),
        },
        Some(TokV::Name(nm)) => if nm == "print_int"@ {
            match tok_at(t, i + 1) {
                Some(TokV::LeftParen) => match sp_expression(t, i + 2) {
                    Ok((v, jr)) => {
                        let j = step_from(i + 2, jr);
                        if tok_at(t, j) == Some(TokV::RightParen) {
                            if tok_at(t, j + 1) == Some(TokV::SemiColon) {
                                sp_statements_loop(t, j + 2, acc.push(StmtV::Print(v)))
                            } else {
                                Err(ParseError::ExpectedSemiColon)
                            }
                        } else {
                            Err(ParseError::ExpectedRightParen)
                        }
                    },
                    Err(e) => Err(e),
                },
                _ => Err(ParseError::ExpectedLeftParen),
            }
        } else if nm == "return"@ {
            match sp_expression(t, i + 1) {
                Ok((v, jr)) => {
                    let j = step_from(i + 1, jr);
                    if tok_at(t, j) == Some(TokV::SemiColon) {
                        sp_statements_loop(t, j + 1, acc.push(StmtV::Return(v)))
                    } else {
                        Err(ParseError::ExpectedSemiColon)
                    }
                },
                Err(e) => Err(e),
            }
        } else {
            Err(ParseError::ExpectedStatement)
        },
        _ => Err(ParseError::ExpectedName),
    }
}

/// A braced statement block.
pub open spec fn sp_statements(t: Seq<TokV>, i: int) -> Result<(Seq<StmtV>, int), ParseError> {
    if tok_at(t, i) == Some(TokV::LeftBrace) {
        sp_statements_loop(t, i + 1, Seq::empty())
    } else {
        Err(ParseError::ExpectedLeftBrace)
    }
}

/// The argument declarations of a function, after the opening paren.
pub open spec fn sp_argument_definitions_loop(t: Seq<TokV>, i: int, acc: Seq<ArgV>) -> Result<
    (Seq<ArgV>, int),
    ParseError,
>
    decreases remaining(t, i),
{
    match tok_at(t, i) {
        Some(TokV::RightParen) => Ok((acc, i + 1)),
        Some(TokV::Name(nm)) => match tok_at(t, i + 1) {
            Some(TokV::Colon) => match tok_at(t, i + 2) {
                Some(TokV::Name(ty)) => if ty == "Int"@ {
                    let acc2 = acc.push(ArgV { name: nm, type_: TypeV::Int });
                    if tok_at(t, i + 3) == Some(TokV::Comma) {
                        sp_argument_definitions_loop(t, i + 4, acc2)
                    } else if tok_at(t, i + 3) == Some(TokV::RightParen) {
                        sp_argument_definitions_loop(t, i + 3, acc2)
                    } else {
                        Err(ParseError::ExpectedCommaOrRightParen)
                    }
                } else {
                    Err(ParseError::UnknownType)
                },
                _ => Err(ParseError::ExpectedType),
            },
            _ => Err(ParseError::ExpectedColon),
        },
        _ => Err(ParseError::ExpectedNameOrRightParen),
    }
}

/// A parenthesised argument-declaration list.
pub open spec fn sp_argument_definitions(t: Seq<TokV>, i: int) -> Result<
    (Seq<ArgV>, int),
    ParseError,
> {
    if tok_at(t, i) == Some(TokV::LeftParen) {
        sp_argument_definitions_loop(t, i + 1, Seq::empty())
    } else {
        Err(ParseError::ExpectedLeftParen)
    }
}

/// The top level: `fn` begins a declaration, any other token is skipped,
/// and an exhausted cursor yields the accumulated functions.
pub open spec fn sp_functions(t: Seq<TokV>, i: int, acc: Seq<FunV>) -> Result<Seq<FunV>, ParseError>
    decreases remaining(t, i),
{
    match tok_at(t, i) {
        None => Ok(acc),
        Some(TokV::Fn) => match tok_at(t, i + 1) {
            Some(TokV::Name(nm)) => match sp_argument_definitions(t, i + 2) {
                Ok((args, ja)) => {
                    let j = step_from(i + 2, ja);
                    match sp_statements(t, j) {
                        Ok((body, jb)) => {
                            let k = step_from(j, jb);
                            sp_functions(t, k, acc.push(FunV { name: nm, args, body }))
                        },
                        Err(e) => Err(e),
                    }
                },
                Err(e) => Err(e),
            },
            _ => Err(ParseError::ExpectedFunctionName),
        },
        Some(_) => sp_functions(t, i + 1, acc),
    }
}

/// What parsing a token sequence yields: a module named `main` holding
/// the declared functions in order, or the first error raised.
pub open spec fn sp_parse(t: Seq<TokV>) -> Result<ModuleV, ParseError> {
    match sp_functions(t, 0, Seq::empty()) {
        Ok(fs) => Ok(ModuleV { name: "main"@, functions: fs }),
        Err(e) => Err(e),
    }
}

/// No token in `t[i..j)` is the keyword `fn`.
pub open spec fn no_fn(t: Seq<TokV>, i: int, j: int) -> bool {
    forall|k: int| i <= k < j ==> #[trigger] tok_at(t, k) != Some(TokV::Fn)
}

/// How many `fn` tokens stand in `t[i..j)`.
pub open spec fn fn_count(t: Seq<TokV>, i: int, j: int) -> int
    decreases j - i,
{
    if i >= j {
        0
    } else {
        (if tok_at(t, i) == Some(TokV::Fn) {
            1int
        } else {
            0int
        }) + fn_count(t, i + 1, j)
    }
}

proof fn lemma_count_skip_no_fn(t: Seq<TokV>, i: int, j: int)
    requires
        i <= j <= t.len(),
        no_fn(t, i, j),
    ensures
        fn_count(t, i, t.len() as int) == fn_count(t, j, t.len() as int),
    decreases j - i,
{
    if i < j {
        lemma_count_skip_no_fn(t, i + 1, j);
    }
}

proof fn lemma_expression_consumes(t: Seq<TokV>, i: int)
    ensures
        match sp_expression(t, i) {
            Ok((e, j)) => i < j <= t.len() && no_fn(t, i, j),
            Err(_) => true,
        },
    decreases remaining(t, i), 0int,
{
    match tok_at(t, i) {
        Some(TokV::Name(name)) => {
            if tok_at(t, i + 1) == Some(TokV::LeftParen) {
                lemma_call_arguments_consumes(t, i + 1);
            }
        },
        _ => {},
    }
}

proof fn lemma_call_arguments_loop_consumes(t: Seq<TokV>, i: int, acc: Seq<ExprV>)
    ensures
        match sp_call_arguments_loop(t, i, acc) {
            Ok((res, j)) => i < j <= t.len() && no_fn(t, i, j),
            Err(_) => true,
        },
    decreases remaining(t, i), 1int,
{
    if tok_at(t, i) == Some(TokV::RightParen) {
    } else {
        match sp_expression(t, i) {
            Ok((e, jr)) => {
                lemma_expression_consumes(t, i);
                let j = step_from(i, jr);
                if tok_at(t, j) == Some(TokV::Comma) {
                    lemma_call_arguments_loop_consumes(t, j + 1, acc.push(e));
                } else if tok_at(t, j) == Some(TokV::RightParen) {
                    lemma_call_arguments_loop_consumes(t, j, acc.push(e));
                }
            },
            Err(_) => {},
        }
    }
}

proof fn lemma_call_arguments_consumes(t: Seq<TokV>, i: int)
    ensures
        match sp_call_arguments(t, i) {
            Ok((res, j)) => i < j <= t.len() && no_fn(t, i, j),
            Err(_) => true,
        },
    decreases remaining(t, i), 2int,
{
    if tok_at(t, i) == Some(TokV::LeftParen) {
        lemma_call_arguments_loop_consumes(t, i + 1, Seq::empty());
    }
}

#[verifier::rlimit(60)]
proof fn lemma_statements_loop_consumes(t: Seq<TokV>, i: int, acc: Seq<StmtV>)
    ensures
        match sp_statements_loop(t, i, acc) {
            Ok((res, j)) => i < j <= t.len() && no_fn(t, i, j),
            Err(_) => true,
        },
    decreases remaining(t, i),
{
    match tok_at(t, i) {
        Some(TokV::Let) => {
            match (tok_at(t, i + 1), tok_at(t, i + 3)) {
                (Some(TokV::Name(nm)), Some(TokV::Name(ty))) => {
                    if tok_at(t, i + 2) == Some(TokV::Colon) && ty == "Int"@ && tok_at(t, i + 4)
                        == Some(TokV::Equal) {
                        match sp_expression(t, i + 5) {
                            Ok((v, jr)) => {
                                lemma_expression_consumes(t, i + 5);
                                let j = step_from(i + 5, jr);
                                if tok_at(t, j) == Some(TokV::SemiColon) {
                                    lemma_statements_loop_consumes(
                                        t,
                                        j + 1,
                                        acc.push(StmtV::Let { name: nm, type_: TypeV::Int, value: v }),
                                    );
                                }
                            },
                            Err(_) => {},
                        }
                    }
                },
                _ => {},
            }
        },
        Some(TokV::Name(nm)) => {
            if nm == "print_int"@ {
                if tok_at(t, i + 1) == Some(TokV::LeftParen) {
                    match sp_expression(t, i + 2) {
                        Ok((v, jr)) => {
                            lemma_expression_consumes(t, i + 2);
                            let j = step_from(i + 2, jr);
                            if tok_at(t, j) == Some(TokV::RightParen) && tok_at(t, j + 1) == Some(
                                TokV::SemiColon,
                            ) {
                                lemma_statements_loop_consumes(t, j + 2, acc.push(StmtV::Print(v)));
                            }
                        },
                        Err(_) => {},
                    }
                }
            } else if nm == "return"@ {
                match sp_expression(t, i + 1) {
                    Ok((v, jr)) => {
                        lemma_expression_consumes(t, i + 1);
                        let j = step_from(i + 1, jr);
                        if tok_at(t, j) == Some(TokV::SemiColon) {
                            lemma_statements_loop_consumes(t, j + 1, acc.push(StmtV::Return(v)));
                        }
                    },
                    Err(_) => {},
                }
            }
        },
        _ => {},
    }
}

proof fn lemma_statements_consumes(t: Seq<TokV>, i: int)
    ensures
        match sp_statements(t, i) {
            Ok((res, j)) => i < j <= t.len() && no_fn(t, i, j),
            Err(_) => true,
        },
{
    if tok_at(t, i) == Some(TokV::LeftBrace) {
        lemma_statements_loop_consumes(t, i + 1, Seq::empty());
    }
}

proof fn lemma_argument_definitions_loop_consumes(t: Seq<TokV>, i: int, acc: Seq<ArgV>)
    ensures
        match sp_argument_definitions_loop(t, i, acc) {
            Ok((res, j)) => i < j <= t.len() && no_fn(t, i, j),
            Err(_) => true,
        },
    decreases remaining(t, i),
{
    match tok_at(t, i) {
        Some(TokV::Name(nm)) => {
            if tok_at(t, i + 1) == Some(TokV::Colon) {
                match tok_at(t, i + 2) {
                    Some(TokV::Name(ty)) => {
                        if ty == "Int"@ {
                            let acc2 = acc.push(ArgV { name: nm, type_: TypeV::Int });
                            if tok_at(t, i + 3) == Some(TokV::Comma) {
                                lemma_argument_definitions_loop_consumes(t, i + 4, acc2);
                            } else if tok_at(t, i + 3) == Some(TokV::RightParen) {
                                lemma_argument_definitions_loop_consumes(t, i + 3, acc2);
                            }
                        }
                    },
                    _ => {},
                }
            }
        },
        _ => {},
    }
}

proof fn lemma_argument_definitions_consumes(t: Seq<TokV>, i: int)
    ensures
        match sp_argument_definitions(t, i) {
            Ok((res, j)) => i < j <= t.len() && no_fn(t, i, j),
            Err(_) => true,
        },
{
    if tok_at(t, i) == Some(TokV::LeftParen) {
        lemma_argument_definitions_loop_consumes(t, i + 1, Seq::empty());
    }
}

proof fn lemma_functions_count(t: Seq<TokV>, i: int, acc: Seq<FunV>)
    requires
        0 <= i,
    ensures
        match sp_functions(t, i, acc) {
            Ok(fs) => fs.len() == acc.len() + fn_count(t, i, t.len() as int),
            Err(_) => true,
        },
    decreases remaining(t, i),
{
    match tok_at(t, i) {
        None => {},
        Some(TokV::Fn) => {
            match tok_at(t, i + 1) {
                Some(TokV::Name(nm)) => {
                    match sp_argument_definitions(t, i + 2) {
                        Ok((args, ja)) => {
                            lemma_argument_definitions_consumes(t, i + 2);
                            let j = step_from(i + 2, ja);
                            match sp_statements(t, j) {
                                Ok((body, jb)) => {
                                    lemma_statements_consumes(t, j);
                                    let k = step_from(j, jb);
                                    lemma_functions_count(
                                        t,
                                        k,
                                        acc.push(FunV { name: nm, args, body }),
                                    );
                                    assert(no_fn(t, i + 1, k));
                                    lemma_count_skip_no_fn(t, i + 1, k);
                                },
                                Err(_) => {},
                            }
                        },
                        Err(_) => {},
                    }
                },
                _ => {},
            }
        },
        Some(_) => {
            lemma_functions_count(t, i + 1, acc);
        },
    }
}

/// A parse that succeeds yields exactly one function per `fn` token of
/// its input, however the declarations are interleaved with skipped
/// tokens.
pub proof fn lemma_parse_function_count(t: Seq<TokV>)
    ensures
        match sp_parse(t) {
            Ok(m) => m.functions.len() == fn_count(t, 0, t.len() as int),
            Err(_) => true,
        },
{
    lemma_functions_count(t, 0, Seq::empty());
}

/// Parses one expression starting at `pos`.
#[verifier::loop_isolation(false)]
pub fn parse_expression(tokens: &Vec<Token>, pos: usize) -> (r: Result<
    (Expression, usize),
    ParseError,
>)
    ensures
        match r {
            Ok((e, j)) => sp_expression(toks_view(tokens@), pos as int) == Ok::<
                (ExprV, int),
                ParseError,
            >((expr_view(e), j as int)) && pos < j <= tokens@.len(),
            Err(err) => sp_expression(toks_view(tokens@), pos as int) == Err::<
                (ExprV, int),
                ParseError,
            >(err),
        },
    decreases remaining(toks_view(tokens@), pos as int), 0int,
{
    if pos >= tokens.len() {
        return Err(ParseError::ExpectedIntOrName);
    }
    match &tokens[pos] {
        Token::Int { value } => match eval_int_literal(value.as_str()) {
            Some(v) => Ok((Expression::Int(v), pos + 1)),
            None => Err(ParseError::InvalidIntegerLiteral),
        },
        Token::Name { name } => {
            if pos + 1 < tokens.len() && matches!(&tokens[pos + 1], Token::LeftParen) {
                match parse_call_arguments(tokens, pos + 1) {
                    Ok((args, j)) => Ok((Expression::Call(name.clone(), args), j)),
                    Err(e) => Err(e),
                }
            } else {
                Ok((Expression::Name(name.clone()), pos + 1))
            }
        },
        _ => Err(ParseError::ExpectedIntOrName),
    }
}

/// Parses the parenthesised argument expressions of a call, starting at
/// the opening paren.
#[verifier::loop_isolation(false)]
pub fn parse_call_arguments(tokens: &Vec<Token>, pos: usize) -> (r: Result<
    (Vec<Expression>, usize),
    ParseError,
>)
    ensures
        match r {
            Ok((args, j)) => sp_call_arguments(toks_view(tokens@), pos as int) == Ok::<
                (Seq<ExprV>, int),
                ParseError,
            >((exprs_view(args@), j as int)) && pos < j <= tokens@.len(),
            Err(err) => sp_call_arguments(toks_view(tokens@), pos as int) == Err::<
                (Seq<ExprV>, int),
                ParseError,
            >(err),
        },
    decreases remaining(toks_view(tokens@), pos as int), 1int,
{
    if pos >= tokens.len() || !matches!(&tokens[pos], Token::LeftParen) {
        return Err(ParseError::ExpectedLeftParen);
    }
    let mut args: Vec<Expression> = Vec::new();
    let mut cur: usize = pos + 1;
    while cur < tokens.len()
        invariant
            pos < cur <= tokens@.len(),
            sp_call_arguments(toks_view(tokens@), pos as int) == sp_call_arguments_loop(
                toks_view(tokens@),
                cur as int,
                exprs_view(args@),
            ),
        decreases tokens@.len() - cur,
    {
        if matches!(&tokens[cur], Token::RightParen) {
            return Ok((args, cur + 1));
        }
        let ghost prev = args@;
        match parse_expression(tokens, cur) {
            Ok((e, j)) => {
                args.push(e);
                proof {
                    lemma_exprs_view_push(prev, e);
                }
                if j < tokens.len() && matches!(&tokens[j], Token::Comma) {
                    cur = j + 1;
                } else if j < tokens.len() && matches!(&tokens[j], Token::RightParen) {
                    cur = j;
                } else {
                    return Err(ParseError::ExpectedCommaOrRightParen);
                }
            },
            Err(e) => {
                return Err(e);
            },
        }
    }
    Err(ParseError::ExpectedIntOrName)
}

/// Parses a parenthesised argument-declaration list, starting at the
/// opening paren.
#[verifier::loop_isolation(false)]
pub fn parse_argument_definitions(tokens: &Vec<Token>, pos: usize) -> (r: Result<
    (Vec<ArgumentDefinition>, usize),
    ParseError,
>)
    ensures
        match r {
            Ok((az, j)) => sp_argument_definitions(toks_view(tokens@), pos as int) == Ok::<
                (Seq<ArgV>, int),
                ParseError,
            >((args_view(az@), j as int)) && pos < j <= tokens@.len(),
            Err(err) => sp_argument_definitions(toks_view(tokens@), pos as int) == Err::<
                (Seq<ArgV>, int),
                ParseError,
            >(err),
        },
{
    if pos >= tokens.len() || !matches!(&tokens[pos], Token::LeftParen) {
        return Err(ParseError::ExpectedLeftParen);
    }
    let mut args: Vec<ArgumentDefinition> = Vec::new();
    proof {
        assert(args_view(args@) =~= Seq::<ArgV>::empty());
    }
    let mut cur: usize = pos + 1;
    while cur < tokens.len()
        invariant
            pos < cur <= tokens@.len(),
            sp_argument_definitions(toks_view(tokens@), pos as int)
                == sp_argument_definitions_loop(
                toks_view(tokens@),
                cur as int,
                args_view(args@),
            ),
        decreases tokens@.len() - cur,
    {
        if matches!(&tokens[cur], Token::RightParen) {
            return Ok((args, cur + 1));
        }
        let name = match &tokens[cur] {
            Token::Name { name } => name.clone(),
            _ => {
                return Err(ParseError::ExpectedNameOrRightParen);
            },
        };
        if cur + 1 >= tokens.len() || !matches!(&tokens[cur + 1], Token::Colon) {
            return Err(ParseError::ExpectedColon);
        }
        if cur + 2 >= tokens.len() {
            return Err(ParseError::ExpectedType);
        }
        match &tokens[cur + 2] {
            Token::Name { name: ty } => {
                if !str_eq(ty.as_str(), "Int") {
                    return Err(ParseError::UnknownType);
                }
            },
            _ => {
                return Err(ParseError::ExpectedType);
            },
        }
        let ghost prev = args@;
        args.push(ArgumentDefinition { name, type_: Type::Int });
        proof {
            lemma_args_view_push(prev, args@.last());
        }
        if cur + 3 < tokens.len() && matches!(&tokens[cur + 3], Token::Comma) {
            cur = cur + 4;
        } else if cur + 3 < tokens.len() && matches!(&tokens[cur + 3], Token::RightParen) {
            cur = cur + 3;
        } else {
            return Err(ParseError::ExpectedCommaOrRightParen);
        }
    }
    Err(ParseError::ExpectedNameOrRightParen)
}

/// Parses a braced statement block, starting at the opening brace.
#[verifier::loop_isolation(false)]
#[verifier::rlimit(60)]
pub fn parse_statements(tokens: &Vec<Token>, pos: usize) -> (r: Result<
    (Vec<Statement>, usize),
    ParseError,
>)
    ensures
        match r {
            Ok((ss, j)) => sp_statements(toks_view(tokens@), pos as int) == Ok::<
                (Seq<StmtV>, int),
                ParseError,
            >((stmts_view(ss@), j as int)) && pos < j <= tokens@.len(),
            Err(err) => sp_statements(toks_view(tokens@), pos as int) == Err::<
                (Seq<StmtV>, int),
                ParseError,
            >(err),
        },
{
    if pos >= tokens.len() || !matches!(&tokens[pos], Token::LeftBrace) {
        return Err(ParseError::ExpectedLeftBrace);
    }
    let mut stmts: Vec<Statement> = Vec::new();
    proof {
        assert(stmts_view(stmts@) =~= Seq::<StmtV>::empty());
    }
    let mut cur: usize = pos + 1;
    while cur < tokens.len()
        invariant
            pos < cur <= tokens@.len(),
            sp_statements(toks_view(tokens@), pos as int) == sp_statements_loop(
                toks_view(tokens@),
                cur as int,
                stmts_view(stmts@),
            ),
        decreases tokens@.len() - cur,
    {
        let ghost prev = stmts@;
        match &tokens[cur] {
            Token::RightBrace => {
                return Ok((stmts, cur + 1));
            },
            Token::Let => {
                if cur + 1 >= tokens.len() {
                    return Err(ParseError::ExpectedName);
                }
                let name = match &tokens[cur + 1] {
                    Token::Name { name } => name.clone(),
                    _ => {
                        return Err(ParseError::ExpectedName);
                    },
                };
                if cur + 2 >= tokens.len() || !matches!(&tokens[cur + 2], Token::Colon) {
                    return Err(ParseError::ExpectedColon);
                }
                if cur + 3 >= tokens.len() {
                    return Err(ParseError::ExpectedType);
                }
                match &tokens[cur + 3] {
                    Token::Name { name: ty } => {
                        if !str_eq(ty.as_str(), "Int") {
                            return Err(ParseError::UnknownType);
                        }
                    },
                    _ => {
                        return Err(ParseError::ExpectedType);
                    },
                }
                if cur + 4 >= tokens.len() || !matches!(&tokens[cur + 4], Token::Equal) {
                    return Err(ParseError::ExpectedEqual);
                }
                match parse_expression(tokens, cur + 5) {
                    Ok((value, j)) => {
                        if j >= tokens.len() || !matches!(&tokens[j], Token::SemiColon) {
                            return Err(ParseError::ExpectedSemiColon);
                        }
                        stmts.push(Statement::Let { name, type_: Type::Int, value });
                        proof {
                            lemma_stmts_view_push(prev, stmts@.last());
                        }
                        cur = j + 1;
                    },
                    Err(e) => {
                        return Err(e);
                    },
                }
            },
            Token::Name { name } => {
                if str_eq(name.as_str(), "print_int") {
                    if cur + 1 >= tokens.len() || !matches!(&tokens[cur + 1], Token::LeftParen) {
                        return Err(ParseError::ExpectedLeftParen);
                    }
                    match parse_expression(tokens, cur + 2) {
                        Ok((value, j)) => {
                            if j >= tokens.len() || !matches!(&tokens[j], Token::RightParen) {
                                return Err(ParseError::ExpectedRightParen);
                            }
                            if j + 1 >= tokens.len() || !matches!(&tokens[j + 1], Token::SemiColon) {
                                return Err(ParseError::ExpectedSemiColon);
                            }
                            stmts.push(Statement::Print(value));
                            proof {
                                lemma_stmts_view_push(prev, stmts@.last());
                            }
                            cur = j + 2;
                        },
                        Err(e) => {
                            return Err(e);
                        },
                    }
                } else if str_eq(name.as_str(), "return") {
                    match parse_expression(tokens, cur + 1) {
                        Ok((value, j)) => {
                            if j >= tokens.len() || !matches!(&tokens[j], Token::SemiColon) {
                                return Err(ParseError::ExpectedSemiColon);
                            }
                            stmts.push(Statement::Return(value));
                            proof {
                                lemma_stmts_view_push(prev, stmts@.last());
                            }
                            cur = j + 1;
                        },
                        Err(e) => {
                            return Err(e);
                        },
                    }
                } else {
                    return Err(ParseError::ExpectedStatement);
                }
            },
            _ => {
                return Err(ParseError::ExpectedName);
            },
        }
    }
    Err(ParseError::ExpectedName)
}

/// Parses a whole token sequence into a module. Tokens between function
/// declarations that do not begin one are skipped without a diagnostic.
#[verifier::loop_isolation(false)]
pub fn parse(tokens: Vec<Token>) -> (r: Result<Module, ParseError>)
    ensures
        match r {
            Ok(m) => sp_parse(toks_view(tokens@)) == Ok::<ModuleV, ParseError>(module_view(m)),
            Err(err) => sp_parse(toks_view(tokens@)) == Err::<ModuleV, ParseError>(err),
        },
{
    let mut functions: Vec<Function> = Vec::new();
    proof {
        assert(funs_view(functions@) =~= Seq::<FunV>::empty());
    }
    let mut cur: usize = 0;
    while cur < tokens.len()
        invariant
            cur <= tokens@.len(),
            sp_functions(toks_view(tokens@), 0, Seq::empty()) == sp_functions(
                toks_view(tokens@),
                cur as int,
                funs_view(functions@),
            ),
        decreases tokens@.len() - cur,
    {
        if matches!(&tokens[cur], Token::Fn) {
            if cur + 1 >= tokens.len() {
                return Err(ParseError::ExpectedFunctionName);
            }
            let name = match &tokens[cur + 1] {
                Token::Name { name } => name.clone(),
                _ => {
                    return Err(ParseError::ExpectedFunctionName);
                },
            };
            match parse_argument_definitions(&tokens, cur + 2) {
                Ok((args, ja)) => match parse_statements(&tokens, ja) {
                    Ok((body, jb)) => {
                        let ghost prev = functions@;
                        functions.push(Function { name, args, body });
                        proof {
                            lemma_funs_view_push(prev, functions@.last());
                        }
                        cur = jb;
                    },
                    Err(e) => {
                        return Err(e);
                    },
                },
                Err(e) => {
                    return Err(e);
                },
            }
        } else {
            cur = cur + 1;
        }
    }
    Ok(Module { name: "main".to_owned(), functions })
}

} // verus!
