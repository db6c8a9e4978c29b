//! Meaning of programs: values, the interpreter's state, and a big-step
//! evaluation of expressions and statements. Evaluation is bounded by a
//! `fuel` that every nested step and every loop round consumes; where it runs
//! out there is no result (`None`) and the run stops.
use vstd::prelude::*;
use crate::ast::{BinOp, DataType, Expr, Stmt};
use crate::number::{cross_left, cross_right, make, num_text, spec_add, spec_div, spec_mul, spec_sub, Num};
use crate::std_ids;

verus! {

/// A runtime value. A struct instance is named by the index of its fields in
/// the state's instance store: instances are never changed once built, so
/// the index stands for the value.
pub enum Val {
    Number(Num),
    Str(Seq<char>),
    Bool(bool),
    Instance(Seq<char>, nat),
    Function(Seq<char>, Seq<(String, DataType)>, Seq<Stmt>),
    Null,
    Void,
    Return(Box<Val>),
}

/// What a runtime error was about. Each one is logged and evaluation goes on.
#[derive(Clone, Copy, Debug, PartialEq, Eq, Structural)]
pub enum Diagnostic {
    UndefinedVariable,
    UndefinedFunction,
    ArityMismatch,
    ConstructorArity,
    InvalidOperands,
    NumericError,
    FieldNotFound,
    NotAStruct,
    LenArity,
    LenNotString,
}

pub struct State {
    /// Bindings, innermost last; a scope is a suffix that is cut off on exit.
    pub env: Seq<(Seq<char>, Val)>,
    /// Declared structs and their fields, latest declaration last.
    pub structs: Seq<(Seq<char>, Seq<(String, DataType)>)>,
    /// Fields of each struct instance built so far.
    pub instances: Seq<Seq<(Seq<char>, Val)>>,
    /// Lines of input, and how many have been read.
    pub input: Seq<Seq<char>>,
    pub input_pos: nat,
    /// Whether `input` holds every line there will be; where it does not, a
    /// read past its end stops the run to wait for the next line.
    pub input_closed: bool,
    /// Whether the run stopped to wait for a line of input.
    pub awaiting_input: bool,
    /// Everything written so far.
    pub output: Seq<char>,
    pub diagnostics: Seq<Diagnostic>,
}

/// The latest binding of `name`.
pub open spec fn lookup<V>(env: Seq<(Seq<char>, V)>, name: Seq<char>) -> Option<V>
    decreases env.len(),
{
    if env.len() == 0 {
        None
    } else if env.last().0 == name {
        Some(env.last().1)
    } else {
        lookup(env.drop_last(), name)
    }
}

pub open spec fn truthy(v: Val) -> bool {
    match v {
        Val::Bool(b) => b,
        Val::Number(n) => n.num != 0,
        Val::Null => false,
        Val::Void => false,
        _ => true,
    }
}

pub open spec fn num_result(r: Option<Num>) -> (Val, Option<Diagnostic>) {
    match r {
        Some(n) => (Val::Number(n), None),
        None => (Val::Null, Some(Diagnostic::NumericError)),
    }
}

/// A binary operator on two values, with the diagnostic that it logs.
pub open spec fn binop(op: BinOp, l: Val, r: Val) -> (Val, Option<Diagnostic>) {
    match (l, r) {
        (Val::Number(a), Val::Number(b)) => match op {
            BinOp::Add => num_result(spec_add(a, b)),
            BinOp::Sub => num_result(spec_sub(a, b)),
            BinOp::Mul => num_result(spec_mul(a, b)),
            BinOp::Div => num_result(spec_div(a, b)),
            BinOp::Less => (Val::Bool(cross_left(a, b) < cross_right(a, b)), None),
            BinOp::Greater => (Val::Bool(cross_left(a, b) > cross_right(a, b)), None),
            BinOp::LessEqual => (Val::Bool(cross_left(a, b) <= cross_right(a, b)), None),
            BinOp::GreaterEqual => (Val::Bool(cross_left(a, b) >= cross_right(a, b)), None),
            BinOp::Equal => (Val::Bool(cross_left(a, b) == cross_right(a, b)), None),
            BinOp::NotEqual => (Val::Bool(cross_left(a, b) != cross_right(a, b)), None),
        },
        (Val::Str(a), Val::Str(b)) => match op {
            BinOp::Add => (Val::Str(a + b), None),
            BinOp::Equal => (Val::Bool(a == b), None),
            BinOp::NotEqual => (Val::Bool(a != b), None),
            _ => (Val::Null, Some(Diagnostic::InvalidOperands)),
        },
        _ => (Val::Null, Some(Diagnostic::InvalidOperands)),
    }
}

/// What `print` writes for a value.
pub open spec fn show(v: Val) -> Seq<char>
    decreases v,
{
    match v {
        Val::Number(n) => num_text(n),
        Val::Str(s) => s,
        Val::Bool(b) => if b { "true"@ } else { "false"@ },
        Val::Null => "null"@,
        Val::Void => "void"@,
        Val::Instance(t, _) => "[Instance of "@ + t + "]"@,
        Val::Function(name, _, _) => "[Function "@ + name + "]"@,
        Val::Return(inner) => show(*inner),
    }
}

/// Texts joined by single spaces.
pub open spec fn join(parts: Seq<Seq<char>>) -> Seq<char>
    decreases parts.len(),
{
    if parts.len() == 0 {
        seq![]
    } else if parts.len() == 1 {
        parts[0]
    } else {
        join(parts.drop_last()) + seq![' '] + parts.last()
    }
}

/// The line that `print` writes for its argument values.
pub open spec fn print_line(vals: Seq<Val>) -> Seq<char> {
    join(vals.map_values(|v: Val| show(v))) + seq!['\n']
}

pub open spec fn log(st: State, d: Diagnostic) -> State {
    State { diagnostics: st.diagnostics.push(d), ..st }
}

pub open spec fn log_opt(st: State, d: Option<Diagnostic>) -> State {
    match d {
        Some(d) => log(st, d),
        None => st,
    }
}

/// The bindings left when the scopes entered since the environment had
/// length `n` are left.
pub open spec fn cut<V>(env: Seq<V>, n: nat) -> Seq<V> {
    if n <= env.len() { env.take(n as int) } else { env }
}

/// Bindings of parameter names to argument values, in order.
pub open spec fn bind_params(params: Seq<(String, DataType)>, vals: Seq<Val>) -> Seq<(Seq<char>, Val)> {
    Seq::new(params.len(), |i: int| (params[i].0@, vals[i]))
}

/// An expression's value.
pub open spec fn eval(st: State, e: Expr, fuel: nat) -> (State, Option<Val>)
    decreases fuel, 0nat,
{
    if fuel == 0 {
        (st, None)
    } else {
        match e {
            Expr::Number(n) => (st, Some(Val::Number(n))),
            Expr::StringLiteral(s) => (st, Some(Val::Str(s@))),
            Expr::Identifier(name) => match lookup(st.env, name@) {
                Some(v) => (st, Some(v)),
                None => (log(st, Diagnostic::UndefinedVariable), Some(Val::Null)),
            },
            Expr::BinaryOp { left, op, right } => {
                let (st1, l) = eval(st, *left, (fuel - 1) as nat);
                match l {
                    None => (st1, None),
                    Some(lv) => {
                        let (st2, r) = eval(st1, *right, (fuel - 1) as nat);
                        match r {
                            None => (st2, None),
                            Some(rv) => {
                                let (v, d) = binop(op, lv, rv);
                                (log_opt(st2, d), Some(v))
                            },
                        }
                    },
                }
            },
            Expr::Call { func_id, func_name, args } => call(st, func_id, func_name@, args@, (fuel - 1) as nat),
            Expr::MemberAccess { object, member } => {
                let (st1, o) = eval(st, *object, (fuel - 1) as nat);
                match o {
                    None => (st1, None),
                    Some(Val::Instance(_, h)) => {
                        if h < st1.instances.len() {
                            match lookup(st1.instances[h as int], member@) {
                                Some(v) => (st1, Some(v)),
                                None => (log(st1, Diagnostic::FieldNotFound), Some(Val::Null)),
                            }
                        } else {
                            (log(st1, Diagnostic::FieldNotFound), Some(Val::Null))
                        }
                    },
                    Some(_) => (log(st1, Diagnostic::NotAStruct), Some(Val::Null)),
                }
            },
        }
    }
}

/// Values of `args[i..]`, in order, appended to `acc`.
pub open spec fn eval_args(st: State, args: Seq<Expr>, i: int, acc: Seq<Val>, fuel: nat) -> (State, Option<Seq<Val>>)
    decreases fuel, args.len() - i + 1,
{
    if i < 0 || i >= args.len() {
        (st, Some(acc))
    } else {
        let (st1, v) = eval(st, args[i], fuel);
        match v {
            None => (st1, None),
            Some(v) => eval_args(st1, args, i + 1, acc.push(v), fuel),
        }
    }
}

/// A call: a native function by its id, else a struct's constructor, else a
/// function bound in scope.
pub open spec fn call(st: State, id: u32, name: Seq<char>, args: Seq<Expr>, fuel: nat) -> (State, Option<Val>)
    decreases fuel, 1nat,
{
    if fuel == 0 {
        (st, None)
    } else {
        let fuel = (fuel - 1) as nat;
        if id == std_ids::PRINT {
            let (st1, vals) = eval_args(st, args, 0, seq![], fuel);
            match vals {
                None => (st1, None),
                Some(vals) => (State { output: st1.output + print_line(vals), ..st1 }, Some(Val::Void)),
            }
        } else if id == std_ids::INPUT {
            let (st1, prompt) = if args.len() > 0 {
                eval(st, args[0], fuel)
            } else {
                (st, Some(Val::Void))
            };
            match prompt {
                None => (st1, None),
                Some(p) => {
                    let st2 = match p {
                        Val::Str(s) => State { output: st1.output + s, ..st1 },
                        _ => st1,
                    };
                    if st2.input_pos < st2.input.len() {
                        (State { input_pos: st2.input_pos + 1, ..st2 }, Some(Val::Str(st2.input[st2.input_pos as int])))
                    } else if st2.input_closed {
                        (st2, Some(Val::Str(seq![])))
                    } else {
                        (State { awaiting_input: true, ..st2 }, None)
                    }
                },
            }
        } else if id == std_ids::LEN {
            if args.len() != 1 {
                (log(st, Diagnostic::LenArity), Some(Val::Number(Num { num: 0, den: 1 })))
            } else {
                let (st1, v) = eval(st, args[0], fuel);
                match v {
                    None => (st1, None),
                    Some(Val::Str(s)) => {
                        let (n, d) = num_result(make(s.len() as int, 1));
                        (log_opt(st1, d), Some(n))
                    },
                    Some(_) => (log(st1, Diagnostic::LenNotString), Some(Val::Number(Num { num: 0, den: 1 }))),
                }
            }
        } else {
            match lookup(st.structs, name) {
                Some(fields) => {
                    if args.len() != fields.len() {
                        (log(st, Diagnostic::ConstructorArity), Some(Val::Null))
                    } else {
                        let (st1, vals) = eval_args(st, args, 0, seq![], fuel);
                        match vals {
                            None => (st1, None),
                            Some(vals) => {
                                let inst = bind_params(fields, vals);
                                (
                                    State { instances: st1.instances.push(inst), ..st1 },
                                    Some(Val::Instance(name, st1.instances.len())),
                                )
                            },
                        }
                    }
                },
                None => match lookup(st.env, name) {
                    Some(Val::Function(_, params, body)) => {
                        if args.len() != params.len() {
                            (log(st, Diagnostic::ArityMismatch), Some(Val::Null))
                        } else {
                            let (st1, vals) = eval_args(st, args, 0, seq![], fuel);
                            match vals {
                                None => (st1, None),
                                Some(vals) => {
                                    let inner = State { env: st1.env + bind_params(params, vals), ..st1 };
                                    let (st2, r) = exec_seq(inner, body, 0, Val::Void, fuel);
                                    let st3 = State { env: cut(st2.env, st1.env.len()), ..st2 };
                                    match r {
                                        None => (st3, None),
                                        Some(Val::Return(v)) => (st3, Some(*v)),
                                        Some(_) => (st3, Some(Val::Void)),
                                    }
                                },
                            }
                        }
                    },
                    _ => (log(st, Diagnostic::UndefinedFunction), Some(Val::Null)),
                },
            }
        }
    }
}

/// Statements `stmts[i..]` in order, until one returns; the result is that of
/// the last statement run (`last` if none is left).
pub open spec fn exec_seq(st: State, stmts: Seq<Stmt>, i: int, last: Val, fuel: nat) -> (State, Option<Val>)
    decreases fuel, stmts.len() - i + 2,
{
    if i < 0 || i >= stmts.len() {
        (st, Some(last))
    } else {
        let (st1, r) = exec(st, stmts[i], fuel);
        match r {
            None => (st1, None),
            Some(Val::Return(v)) => (st1, Some(Val::Return(v))),
            Some(v) => exec_seq(st1, stmts, i + 1, v, fuel),
        }
    }
}

/// A block: its statements in a scope of their own.
pub open spec fn exec_block(st: State, stmts: Seq<Stmt>, fuel: nat) -> (State, Option<Val>)
    decreases fuel, stmts.len() + 3,
{
    let (st1, r) = exec_seq(st, stmts, 0, Val::Void, fuel);
    (State { env: cut(st1.env, st.env.len()), ..st1 }, r)
}

/// Rounds of a `while` loop.
pub open spec fn exec_while(st: State, cond: Expr, body: Seq<Stmt>, fuel: nat) -> (State, Option<Val>)
    decreases fuel, 0nat,
{
    if fuel == 0 {
        (st, None)
    } else {
        let (st1, c) = eval(st, cond, (fuel - 1) as nat);
        match c {
            None => (st1, None),
            Some(c) => {
                if !truthy(c) {
                    (st1, Some(Val::Void))
                } else {
                    let (st2, r) = exec_block(st1, body, (fuel - 1) as nat);
                    match r {
                        None => (st2, None),
                        Some(Val::Return(v)) => (st2, Some(Val::Return(v))),
                        Some(_) => exec_while(st2, cond, body, (fuel - 1) as nat),
                    }
                }
            },
        }
    }
}

/// A statement; `Some(Val::Return(_))` where it returns.
pub open spec fn exec(st: State, s: Stmt, fuel: nat) -> (State, Option<Val>)
    decreases fuel, 0nat,
{
    if fuel == 0 {
        (st, None)
    } else {
        let f = (fuel - 1) as nat;
        match s {
            Stmt::VariableDeclaration { name, value } => {
                let (st1, v) = eval(st, value, f);
                match v {
                    None => (st1, None),
                    Some(v) => (State { env: st1.env.push((name@, v)), ..st1 }, Some(Val::Void)),
                }
            },
            Stmt::FunctionDeclaration { name, params, body } => (
                State { env: st.env.push((name@, Val::Function(name@, params@, body@))), ..st },
                Some(Val::Void),
            ),
            Stmt::StructDeclaration { name, fields } => (
                State { structs: st.structs.push((name@, fields@)), ..st },
                Some(Val::Void),
            ),
            Stmt::Expression(e) => eval(st, e, f),
            Stmt::If { condition, then_branch, else_branch } => {
                let (st1, c) = eval(st, condition, f);
                match c {
                    None => (st1, None),
                    Some(c) => {
                        if truthy(c) {
                            exec_block(st1, then_branch@, f)
                        } else {
                            match else_branch {
                                Some(b) => exec_block(st1, b@, f),
                                None => (st1, Some(Val::Void)),
                            }
                        }
                    },
                }
            },
            Stmt::While { condition, body } => exec_while(st, condition, body@, f),
            Stmt::Return { value } => match value {
                None => (st, Some(Val::Return(Box::new(Val::Null)))),
                Some(e) => {
                    let (st1, v) = eval(st, e, f);
                    match v {
                        None => (st1, None),
                        Some(v) => (st1, Some(Val::Return(Box::new(v)))),
                    }
                },
            },
        }
    }
}

/// A program's statements `stmts[i..]` at top level, each with the whole
/// `fuel`: a return there is dropped and the next statement runs. The run
/// stops where the fuel runs out; the flag says whether it got to the end.
pub open spec fn run(st: State, stmts: Seq<Stmt>, i: int, fuel: nat) -> (State, bool)
    decreases stmts.len() - i,
{
    if i < 0 || i >= stmts.len() {
        (st, true)
    } else {
        let (st1, r) = exec(st, stmts[i], fuel);
        match r {
            None => (st1, false),
            Some(_) => run(st1, stmts, i + 1, fuel),
        }
    }
}

} // verus!
