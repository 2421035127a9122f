//! The abstract syntax tree produced by the parser, together with the
//! mathematical image of each node type that contracts speak of.

use vstd::prelude::*;

verus! {

/// The declared type of a variable or argument; a closed set that today
/// holds only the integer type.
#[derive(Debug, PartialEq)]
pub enum Type {
    Int,
}

/// An expression tree. `Add` is a reserved extension point: the parser
/// never produces it.
#[derive(Debug, PartialEq)]
pub enum Expression {
    Int(i32),
    Name(String),
    Add(Box<Expression>, Box<Expression>),
    Call(String, Vec<Expression>),
}

/// One statement of a function body, in declaration order.
#[derive(Debug, PartialEq)]
pub enum Statement {
    Let { name: String, type_: Type, value: Expression },
    Return(Expression),
    Print(Expression),
}

/// One argument declaration of a function.
#[derive(Debug, PartialEq)]
pub struct ArgumentDefinition {
    pub name: String,
    pub type_: Type,
}

/// A top-level function declaration.
#[derive(Debug, PartialEq)]
pub struct Function {
    pub name: String,
    pub args: Vec<ArgumentDefinition>,
    pub body: Vec<Statement>,
}

/// The root of the tree: one module per translation unit.
#[derive(Debug, PartialEq)]
pub struct Module {
    pub name: String,
    pub functions: Vec<Function>,
}

pub enum TypeV {
    Int,
}

pub enum ExprV {
    Int(int),
    Name(Seq<char>),
    Add(Box<ExprV>, Box<ExprV>),
    Call(Seq<char>, Seq<ExprV>),
}

pub enum StmtV {
    Let { name: Seq<char>, type_: TypeV, value: ExprV },
    Return(ExprV),
    Print(ExprV),
}

pub struct ArgV {
    pub name: Seq<char>,
    pub type_: TypeV,
}

pub struct FunV {
    pub name: Seq<char>,
    pub args: Seq<ArgV>,
    pub body: Seq<StmtV>,
}

pub struct ModuleV {
    pub name: Seq<char>,
    pub functions: Seq<FunV>,
}

pub open spec fn type_view(t: Type) -> TypeV {
    match t {
        Type::Int => TypeV::Int,
    }
}

pub open spec fn expr_view(e: Expression) -> ExprV
    decreases e,
{
    match e {
        Expression::Int(i) => ExprV::Int(i as int),
        Expression::Name(s) => ExprV::Name(s@),
        Expression::Add(l, r) => ExprV::Add(Box::new(expr_view(*l)), Box::new(expr_view(*r))),
        Expression::Call(n, args) => ExprV::Call(n@, exprs_view(args@)),
    }
}

pub open spec fn exprs_view(es: Seq<Expression>) -> Seq<ExprV>
    decreases es,
{
    if es.len() == 0 {
        Seq::empty()
    } else {
        exprs_view(es.drop_last()).push(expr_view(es.last()))
    }
}

pub open spec fn stmt_view(s: Statement) -> StmtV {
    match s {
        Statement::Let { name, type_, value } => StmtV::Let {
            name: name@,
            type_: type_view(type_),
            value: expr_view(value),
        },
        Statement::Return(e) => StmtV::Return(expr_view(e)),
        Statement::Print(e) => StmtV::Print(expr_view(e)),
    }
}

pub open spec fn stmts_view(ss: Seq<Statement>) -> Seq<StmtV> {
    ss.map_values(|s: Statement| stmt_view(s))
}

pub open spec fn arg_view(a: ArgumentDefinition) -> ArgV {
    ArgV { name: a.name@, type_: type_view(a.type_) }
}

pub open spec fn args_view(az: Seq<ArgumentDefinition>) -> Seq<ArgV> {
    az.map_values(|a: ArgumentDefinition| arg_view(a))
}

pub open spec fn fun_view(f: Function) -> FunV {
    FunV { name: f.name@, args: args_view(f.args@), body: stmts_view(f.body@) }
}

pub open spec fn funs_view(fs: Seq<Function>) -> Seq<FunV> {
    fs.map_values(|f: Function| fun_view(f))
}

pub open spec fn module_view(m: Module) -> ModuleV {
    ModuleV { name: m.name@, functions: funs_view(m.functions@) }
}

pub proof fn lemma_exprs_view_push(es: Seq<Expression>, e: Expression)
    ensures
        exprs_view(es.push(e)) == exprs_view(es).push(expr_view(e)),
{
    assert(es.push(e).drop_last() =~= es);
}

pub proof fn lemma_stmts_view_push(ss: Seq<Statement>, s: Statement)
    ensures
        stmts_view(ss.push(s)) == stmts_view(ss).push(stmt_view(s)),
{
    assert(stmts_view(ss.push(s)) =~= stmts_view(ss).push(stmt_view(s)));
}

pub proof fn lemma_args_view_push(az: Seq<ArgumentDefinition>, a: ArgumentDefinition)
    ensures
        args_view(az.push(a)) == args_view(az).push(arg_view(a)),
{
    assert(args_view(az.push(a)) =~= args_view(az).push(arg_view(a)));
}

pub proof fn lemma_funs_view_push(fs: Seq<Function>, f: Function)
    ensures
        funs_view(fs.push(f)) == funs_view(fs).push(fun_view(f)),
{
    assert(funs_view(fs.push(f)) =~= funs_view(fs).push(fun_view(f)));
}

} // verus!
