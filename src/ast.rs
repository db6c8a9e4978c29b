//! The abstract syntax tree, and the recursive-descent parser that builds it
//! from tokens by their standard ids alone.
use vstd::prelude::*;
use crate::number::Num;

verus! {

/// A declared type.
#[derive(Clone, Debug, PartialEq)]
pub enum DataType {
    Int,
    Float,
    String,
    Bool,
    Custom(String),
}

/// A binary operator.
#[derive(Clone, Copy, Debug, PartialEq, Eq, Structural)]
pub enum BinOp {
    Add,
    Sub,
    Mul,
    Div,
    Less,
    Greater,
    LessEqual,
    GreaterEqual,
    Equal,
    NotEqual,
}

#[derive(Debug, PartialEq)]
pub enum Expr {
    Number(Num),
    StringLiteral(String),
    Identifier(String),
    BinaryOp { left: Box<Expr>, op: BinOp, right: Box<Expr> },
    Call { func_id: u32, func_name: String, args: Vec<Expr> },
    MemberAccess { object: Box<Expr>, member: String },
}

#[derive(Debug, PartialEq)]
pub enum Stmt {
    VariableDeclaration { name: String, value: Expr },
    FunctionDeclaration { name: String, params: Vec<(String, DataType)>, body: Vec<Stmt> },
    StructDeclaration { name: String, fields: Vec<(String, DataType)> },
    Expression(Expr),
    If { condition: Expr, then_branch: Vec<Stmt>, else_branch: Option<Vec<Stmt>> },
    While { condition: Expr, body: Vec<Stmt> },
    Return { value: Option<Expr> },
}

pub enum DataTypeV {
    Int,
    Float,
    String,
    Bool,
    Custom(Seq<char>),
}

pub enum ExprV {
    Number(Num),
    Str(Seq<char>),
    Ident(Seq<char>),
    Binary(Box<ExprV>, BinOp, Box<ExprV>),
    Call(u32, Seq<char>, Seq<ExprV>),
    Member(Box<ExprV>, Seq<char>),
}

pub enum StmtV {
    Var(Seq<char>, ExprV),
    Func(Seq<char>, Seq<(Seq<char>, DataTypeV)>, Seq<StmtV>),
    Struct(Seq<char>, Seq<(Seq<char>, DataTypeV)>),
    Expr(ExprV),
    If(ExprV, Seq<StmtV>, Option<Seq<StmtV>>),
    While(ExprV, Seq<StmtV>),
    Return(Option<ExprV>),
}

pub open spec fn type_v(d: DataType) -> DataTypeV {
    match d {
        DataType::Int => DataTypeV::Int,
        DataType::Float => DataTypeV::Float,
        DataType::String => DataTypeV::String,
        DataType::Bool => DataTypeV::Bool,
        DataType::Custom(s) => DataTypeV::Custom(s@),
    }
}

pub open spec fn typed_v(s: Seq<(String, DataType)>) -> Seq<(Seq<char>, DataTypeV)> {
    s.map_values(|p: (String, DataType)| (p.0@, type_v(p.1)))
}

/// The value of an expression tree.
pub open spec fn expr_v(e: &Expr) -> ExprV
    decreases e, 0int,
{
    match e {
        Expr::Number(n) => ExprV::Number(*n),
        Expr::StringLiteral(s) => ExprV::Str(s@),
        Expr::Identifier(s) => ExprV::Ident(s@),
        Expr::BinaryOp { left, op, right } => ExprV::Binary(Box::new(expr_v(left)), *op, Box::new(expr_v(right))),
        Expr::Call { func_id, func_name, args } => ExprV::Call(*func_id, func_name@, exprs_v(args, args@.len() as int)),
        Expr::MemberAccess { object, member } => ExprV::Member(Box::new(expr_v(object)), member@),
    }
}

/// The values of the first `n` expressions of `v`.
pub open spec fn exprs_v(v: &Vec<Expr>, n: int) -> Seq<ExprV>
    decreases v, n,
    via exprs_v_decreases
{
    if n <= 0 || n > v@.len() {
        seq![]
    } else {
        exprs_v(v, n - 1).push(expr_v(&v@[n - 1]))
    }
}

#[via_fn]
proof fn exprs_v_decreases(v: &Vec<Expr>, n: int) {
    broadcast use vstd::std_specs::vec::axiom_vec_index_decreases;
    if 0 < n <= v@.len() {
        assert(decreases_to!(v => v[n - 1]));
    }
}

/// The value of a statement tree.
pub open spec fn stmt_v(s: &Stmt) -> StmtV
    decreases s, 0int,
{
    match s {
        Stmt::VariableDeclaration { name, value } => StmtV::Var(name@, expr_v(value)),
        Stmt::FunctionDeclaration { name, params, body } => StmtV::Func(
            name@,
            typed_v(params@),
            stmts_v(body, body@.len() as int),
        ),
        Stmt::StructDeclaration { name, fields } => StmtV::Struct(name@, typed_v(fields@)),
        Stmt::Expression(e) => StmtV::Expr(expr_v(e)),
        Stmt::If { condition, then_branch, else_branch } => StmtV::If(
            expr_v(condition),
            stmts_v(then_branch, then_branch@.len() as int),
            match else_branch {
                Some(b) => Some(stmts_v(b, b@.len() as int)),
                None => None,
            },
        ),
        Stmt::While { condition, body } => StmtV::While(expr_v(condition), stmts_v(body, body@.len() as int)),
        Stmt::Return { value } => StmtV::Return(
            match value {
                Some(e) => Some(expr_v(e)),
                None => None,
            },
        ),
    }
}

/// The values of the first `n` statements of `v`.
pub open spec fn stmts_v(v: &Vec<Stmt>, n: int) -> Seq<StmtV>
    decreases v, n,
    via stmts_v_decreases
{
    if n <= 0 || n > v@.len() {
        seq![]
    } else {
        stmts_v(v, n - 1).push(stmt_v(&v@[n - 1]))
    }
}

#[via_fn]
proof fn stmts_v_decreases(v: &Vec<Stmt>, n: int) {
    broadcast use vstd::std_specs::vec::axiom_vec_index_decreases;
    if 0 < n <= v@.len() {
        assert(decreases_to!(v => v[n - 1]));
    }
}

pub open spec fn all_exprs_v(v: &Vec<Expr>) -> Seq<ExprV> {
    exprs_v(v, v@.len() as int)
}

pub open spec fn all_stmts_v(v: &Vec<Stmt>) -> Seq<StmtV> {
    stmts_v(v, v@.len() as int)
}

proof fn lemma_exprs_prefix(v: &Vec<Expr>, w: &Vec<Expr>, n: int)
    requires
        0 <= n <= v@.len(),
        n <= w@.len(),
        forall|k: int| 0 <= k < n ==> v@[k] == w@[k],
    ensures
        exprs_v(v, n) == exprs_v(w, n),
    decreases n,
{
    if n > 0 {
        lemma_exprs_prefix(v, w, n - 1);
    }
}

proof fn lemma_stmts_prefix(v: &Vec<Stmt>, w: &Vec<Stmt>, n: int)
    requires
        0 <= n <= v@.len(),
        n <= w@.len(),
        forall|k: int| 0 <= k < n ==> v@[k] == w@[k],
    ensures
        stmts_v(v, n) == stmts_v(w, n),
    decreases n,
{
    if n > 0 {
        lemma_stmts_prefix(v, w, n - 1);
    }
}

/// Pushing onto a vector of expressions pushes onto its values.
pub proof fn lemma_exprs_push(v: &Vec<Expr>, w: &Vec<Expr>)
    requires
        w@.len() == v@.len() + 1,
        w@.take(v@.len() as int) == v@,
    ensures
        all_exprs_v(w) == all_exprs_v(v).push(expr_v(&w@[v@.len() as int])),
{
    assert forall|k: int| 0 <= k < v@.len() implies v@[k] == w@[k] by {
        assert(w@.take(v@.len() as int)[k] == w@[k]);
    }
    lemma_exprs_prefix(v, w, v@.len() as int);
}

/// Pushing onto a vector of statements pushes onto its values.
pub proof fn lemma_stmts_push(v: &Vec<Stmt>, w: &Vec<Stmt>)
    requires
        w@.len() == v@.len() + 1,
        w@.take(v@.len() as int) == v@,
    ensures
        all_stmts_v(w) == all_stmts_v(v).push(stmt_v(&w@[v@.len() as int])),
{
    assert forall|k: int| 0 <= k < v@.len() implies v@[k] == w@[k] by {
        assert(w@.take(v@.len() as int)[k] == w@[k]);
    }
    lemma_stmts_prefix(v, w, v@.len() as int);
}

} // verus!
