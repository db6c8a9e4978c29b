//! Properties of the language that hold of every program and input.
use vstd::prelude::*;
use crate::ast::{BinOp, Expr, ExprV, Stmt};
use crate::grammar::{
    lemma_program, op_at, p_program, p_expression, p_expression_rest, p_factor, p_factor_rest, p_primary, p_term, p_term_rest, PErr,
};
use crate::ast::StmtV;
use crate::number::{all_digits, is_digit, parse_literal, Num};
use crate::semantics::{
    call, eval, eval_args, exec, exec_block, exec_seq, exec_while, log, lookup, print_line, show, truthy,
    Diagnostic, State, Val,
};
use crate::std_ids;
use crate::text::letter;
use crate::tokenizer::{guess, Token};

verus! {

/// `a` is `b` with bindings added after it.
pub open spec fn extends<V>(a: Seq<V>, b: Seq<V>) -> bool {
    b.len() <= a.len() && a.take(b.len() as int) == b
}

proof fn lemma_extends_trans<V>(a: Seq<V>, b: Seq<V>, c: Seq<V>)
    requires
        extends(a, b),
        extends(b, c),
    ensures
        extends(a, c),
{
    assert(a.take(c.len() as int) =~= a.take(b.len() as int).take(c.len() as int));
}

/// Evaluating an expression leaves the bindings as they were.
pub proof fn lemma_eval_env(st: State, e: Expr, fuel: nat)
    ensures
        eval(st, e, fuel).0.env == st.env,
    decreases fuel, 0nat,
{
    if fuel > 0 {
        match e {
            Expr::BinaryOp { left, op, right } => {
                lemma_eval_env(st, *left, (fuel - 1) as nat);
                let (st1, l) = eval(st, *left, (fuel - 1) as nat);
                lemma_eval_env(st1, *right, (fuel - 1) as nat);
            },
            Expr::Call { func_id, func_name, args } => {
                lemma_call_env(st, func_id, func_name@, args@, (fuel - 1) as nat);
            },
            Expr::MemberAccess { object, member } => {
                lemma_eval_env(st, *object, (fuel - 1) as nat);
            },
            _ => {},
        }
    }
}

proof fn lemma_eval_args_env(st: State, args: Seq<Expr>, i: int, acc: Seq<Val>, fuel: nat)
    ensures
        eval_args(st, args, i, acc, fuel).0.env == st.env,
    decreases fuel, args.len() - i + 1,
{
    if 0 <= i < args.len() {
        lemma_eval_env(st, args[i], fuel);
        let (st1, v) = eval(st, args[i], fuel);
        if let Some(v) = v {
            lemma_eval_args_env(st1, args, i + 1, acc.push(v), fuel);
        }
    }
}

/// A call leaves the caller's bindings as they were: the callee's scope is
/// gone when it returns.
pub proof fn lemma_call_env(st: State, id: u32, name: Seq<char>, args: Seq<Expr>, fuel: nat)
    ensures
        call(st, id, name, args, fuel).0.env == st.env,
    decreases fuel, 1nat,
{
    if fuel > 0 {
        let f = (fuel - 1) as nat;
        lemma_eval_args_env(st, args, 0, seq![], f);
        if args.len() > 0 {
            lemma_eval_env(st, args[0], f);
        }
        if id != std_ids::PRINT && id != std_ids::INPUT && id != std_ids::LEN {
            if lookup(st.structs, name) is None {
                if let Some(Val::Function(_, params, body)) = lookup(st.env, name) {
                    if args.len() == params.len() {
                        let (st1, vals) = eval_args(st, args, 0, seq![], f);
                        if let Some(vals) = vals {
                            let inner = State { env: st1.env + crate::semantics::bind_params(params, vals), ..st1 };
                            lemma_exec_seq_env(inner, body, 0, Val::Void, f);
                            let (st2, r) = exec_seq(inner, body, 0, Val::Void, f);
                            assert(st2.env.take(st1.env.len() as int) =~= st2.env.take(inner.env.len() as int).take(
                                st1.env.len() as int,
                            ));
                            assert(inner.env.take(st1.env.len() as int) =~= st1.env);
                        }
                    }
                }
            }
        }
    }
}

/// Statements run in sequence only add bindings.
pub proof fn lemma_exec_seq_env(st: State, stmts: Seq<Stmt>, i: int, last: Val, fuel: nat)
    ensures
        extends(exec_seq(st, stmts, i, last, fuel).0.env, st.env),
    decreases fuel, stmts.len() - i + 2,
{
    if 0 <= i < stmts.len() {
        lemma_exec_env(st, stmts[i], fuel);
        let (st1, r) = exec(st, stmts[i], fuel);
        match r {
            Some(Val::Return(_)) => {},
            Some(v) => {
                lemma_exec_seq_env(st1, stmts, i + 1, v, fuel);
                lemma_extends_trans(exec_seq(st1, stmts, i + 1, v, fuel).0.env, st1.env, st.env);
            },
            None => {},
        }
    } else {
        assert(st.env.take(st.env.len() as int) =~= st.env);
    }
}

/// A block leaves the bindings as they were.
pub proof fn lemma_exec_block_env(st: State, stmts: Seq<Stmt>, fuel: nat)
    ensures
        exec_block(st, stmts, fuel).0.env == st.env,
    decreases fuel, stmts.len() + 3,
{
    lemma_exec_seq_env(st, stmts, 0, Val::Void, fuel);
}

/// A loop leaves the bindings as they were.
pub proof fn lemma_exec_while_env(st: State, cond: Expr, body: Seq<Stmt>, fuel: nat)
    ensures
        exec_while(st, cond, body, fuel).0.env == st.env,
    decreases fuel, 0nat,
{
    if fuel > 0 {
        let f = (fuel - 1) as nat;
        lemma_eval_env(st, cond, f);
        let (st1, c) = eval(st, cond, f);
        if let Some(c) = c {
            if truthy(c) {
                lemma_exec_block_env(st1, body, f);
                let (st2, r) = exec_block(st1, body, f);
                lemma_exec_while_env(st2, cond, body, f);
            }
        }
    }
}

/// A statement only adds bindings.
pub proof fn lemma_exec_env(st: State, s: Stmt, fuel: nat)
    ensures
        extends(exec(st, s, fuel).0.env, st.env),
    decreases fuel, 0nat,
{
    assert(st.env.take(st.env.len() as int) =~= st.env);
    if fuel > 0 {
        let f = (fuel - 1) as nat;
        match s {
            Stmt::VariableDeclaration { name, value } => {
                lemma_eval_env(st, value, f);
                let (st1, v) = eval(st, value, f);
                if let Some(v) = v {
                    assert(st1.env.push((name@, v)).take(st.env.len() as int) =~= st.env);
                }
            },
            Stmt::FunctionDeclaration { name, params, body } => {
                assert(st.env.push((name@, Val::Function(name@, params@, body@))).take(st.env.len() as int)
                    =~= st.env);
            },
            Stmt::Expression(e) => {
                lemma_eval_env(st, e, f);
            },
            Stmt::If { condition, then_branch, else_branch } => {
                lemma_eval_env(st, condition, f);
                let (st1, c) = eval(st, condition, f);
                lemma_exec_block_env(st1, then_branch@, f);
                if let Some(b) = else_branch {
                    lemma_exec_block_env(st1, b@, f);
                }
            },
            Stmt::While { condition, body } => {
                lemma_exec_while_env(st, condition, body@, f);
            },
            Stmt::Return { value } => {
                if let Some(e) = value {
                    lemma_eval_env(st, e, f);
                }
            },
            _ => {},
        }
    }
}

/// A function's parameters and locals do not outlive its call: after the
/// call the caller's bindings are exactly those it had, so a name bound
/// only inside the callee is unbound in the caller afterwards.
pub proof fn law_call_scope_does_not_leak(st: State, id: u32, name: Seq<char>, args: Seq<Expr>, fuel: nat, x: Seq<char>)
    ensures
        call(st, id, name, args, fuel).0.env == st.env,
        lookup(st.env, x) is None ==> lookup(call(st, id, name, args, fuel).0.env, x) is None,
{
    lemma_call_env(st, id, name, args, fuel);
}

/// Whether `s` is a call, as a statement, whose id is no native function's
/// and whose name is bound to neither a struct nor a function.
pub open spec fn undefined_call(st: State, s: Stmt) -> bool {
    match s {
        Stmt::Expression(Expr::Call { func_id, func_name, .. }) => func_id != std_ids::PRINT && func_id
            != std_ids::INPUT && func_id != std_ids::LEN && lookup(st.structs, func_name@) is None && !(lookup(
            st.env,
            func_name@,
        ) matches Some(Val::Function(_, _, _))),
        _ => false,
    }
}

/// A call of a name that is neither a native function, a struct nor a
/// function yields `Null` and logs the undefined function, with no other
/// effect.
pub proof fn law_undefined_call(st: State, id: u32, name: Seq<char>, args: Seq<Expr>, fuel: nat)
    requires
        fuel > 0,
        id != std_ids::PRINT,
        id != std_ids::INPUT,
        id != std_ids::LEN,
        lookup(st.structs, name) is None,
        !(lookup(st.env, name) matches Some(Val::Function(_, _, _))),
    ensures
        call(st, id, name, args, fuel) == (log(st, Diagnostic::UndefinedFunction), Some(Val::Null)),
{
}

/// A statement that calls an undefined function does not stop the
/// statements after it: they run as they would after a statement whose
/// value is `Null`, from the state with the diagnostic logged.
pub proof fn law_undefined_call_continues(st: State, stmts: Seq<Stmt>, i: int, last: Val, fuel: nat)
    requires
        0 <= i < stmts.len(),
        fuel >= 3,
        undefined_call(st, stmts[i]),
    ensures
        exec_seq(st, stmts, i, last, fuel) == exec_seq(
            log(st, Diagnostic::UndefinedFunction),
            stmts,
            i + 1,
            Val::Null,
            fuel,
        ),
{
    match stmts[i] {
        Stmt::Expression(e) => match e {
            Expr::Call { func_id, func_name, args } => {
                law_undefined_call(st, func_id, func_name@, args@, (fuel - 2) as nat);
                assert(eval(st, e, (fuel - 1) as nat) == call(st, func_id, func_name@, args@, (fuel - 2) as nat));
                assert(exec(st, stmts[i], fuel) == eval(st, e, (fuel - 1) as nat));
            },
            _ => {},
        },
        _ => {},
    }
}

/// A `while` whose condition is false at the start runs its body no time:
/// the state is the one the condition left.
pub proof fn law_while_false_runs_no_round(st: State, cond: Expr, body: Seq<Stmt>, fuel: nat)
    requires
        fuel > 0,
        eval(st, cond, (fuel - 1) as nat).1 matches Some(c) && !truthy(c),
    ensures
        exec_while(st, cond, body, fuel) == (eval(st, cond, (fuel - 1) as nat).0, Some(Val::Void)),
{
}

/// A return out of a loop's body ends the loop with that return.
pub proof fn law_while_return_ends_loop(st: State, cond: Expr, body: Seq<Stmt>, fuel: nat, v: Val)
    requires
        fuel > 0,
        eval(st, cond, (fuel - 1) as nat).1 matches Some(c) && truthy(c),
        exec_block(eval(st, cond, (fuel - 1) as nat).0, body, (fuel - 1) as nat).1 == Some(Val::Return(Box::new(v))),
    ensures
        exec_while(st, cond, body, fuel) == (
            exec_block(eval(st, cond, (fuel - 1) as nat).0, body, (fuel - 1) as nat).0,
            Some(Val::Return(Box::new(v))),
        ),
{
}

/// A statement that returns ends its sequence: the statements after it do
/// not run.
pub proof fn law_return_skips_rest(st: State, stmts: Seq<Stmt>, i: int, last: Val, fuel: nat, v: Val)
    requires
        0 <= i < stmts.len(),
        exec(st, stmts[i], fuel).1 == Some(Val::Return(Box::new(v))),
    ensures
        exec_seq(st, stmts, i, last, fuel) == (exec(st, stmts[i], fuel).0, Some(Val::Return(Box::new(v)))),
{
}

/// A call of a function whose body returns `v` has the value `v`.
pub proof fn law_call_returns_value(st: State, id: u32, name: Seq<char>, args: Seq<Expr>, fuel: nat, v: Val)
    requires
        fuel > 0,
        id != std_ids::PRINT,
        id != std_ids::INPUT,
        id != std_ids::LEN,
        lookup(st.structs, name) is None,
        lookup(st.env, name) matches Some(Val::Function(_, params, body)) && args.len() == params.len() && ({
            let (st1, vals) = eval_args(st, args, 0, seq![], (fuel - 1) as nat);
            vals matches Some(vals) && exec_seq(
                State { env: st1.env + crate::semantics::bind_params(params, vals), ..st1 },
                body,
                0,
                Val::Void,
                (fuel - 1) as nat,
            ).1 == Some(Val::Return(Box::new(v)))
        }),
    ensures
        call(st, id, name, args, fuel).1 == Some(v),
{
}

/// `print` of one struct instance writes exactly `[Instance of <type>]` and
/// a line end.
pub proof fn law_print_instance(t: Seq<char>, h: nat)
    ensures
        print_line(seq![Val::Instance(t, h)]) == "[Instance of "@ + t + "]"@ + seq!['\n'],
{
    let parts = seq![Val::Instance(t, h)].map_values(|v: Val| show(v));
    assert(parts =~= seq![show(Val::Instance(t, h))]);
}

/// `len` of a string is its character count; of a number it is zero, with
/// the diagnostic logged.
pub proof fn law_len(st: State, name: Seq<char>, e: Expr, fuel: nat)
    requires
        fuel > 0,
    ensures
        ({
            let (st1, v) = eval(st, e, (fuel - 1) as nat);
            match v {
                Some(Val::Str(s)) => s.len() <= i64::MAX ==> call(st, std_ids::LEN, name, seq![e], fuel) == (
                    st1,
                    Some(Val::Number(Num { num: s.len() as i64, den: 1 })),
                ),
                Some(Val::Number(_)) => call(st, std_ids::LEN, name, seq![e], fuel) == (
                    log(st1, Diagnostic::LenNotString),
                    Some(Val::Number(Num { num: 0, den: 1 })),
                ),
                _ => true,
            }
        }),
{
    assert(seq![e][0] == e);
}

/// A lexeme that the catalog does not know is a number literal where it is
/// a run of digits, and an identifier where it starts with a letter (a
/// character with the Unicode `Alphabetic` property).
pub proof fn law_unknown_lexeme(s: Seq<char>)
    ensures
        s.len() > 0 && all_digits(s) ==> guess(s).1 == std_ids::INT_LITERAL,
        s.len() > 0 && letter(s[0]) ==> guess(s).1 == std_ids::IDENTIFIER,
{
    if s.len() > 0 && all_digits(s) {
        assert(is_digit(s[0]));
        if s.contains('.') {
            let k = choose|k: int| 0 <= k < s.len() && s[k] == '.';
            assert(is_digit(s[k]));
        }
    }
}

/// A name bound once in a sequence of bindings looks up to its value.
pub proof fn lemma_lookup_unique<V>(s: Seq<(Seq<char>, V)>, k: int)
    requires
        0 <= k < s.len(),
        forall|j: int| 0 <= j < s.len() && j != k ==> s[j].0 != s[k].0,
    ensures
        lookup(s, s[k].0) == Some(s[k].1),
    decreases s.len(),
{
    if k < s.len() - 1 {
        let t = s.drop_last();
        assert(t[k] == s[k]);
        assert forall|j: int| 0 <= j < t.len() && j != k implies t[j].0 != t[k].0 by {
            assert(t[j] == s[j]);
        }
        lemma_lookup_unique(t, k);
    }
}

/// Building a struct instance and reading one of its fields back gives the
/// argument at that field's position, where no other field has its name:
/// the constructor stores the argument values under the declared field
/// names, and a member access on the instance reads them.
pub proof fn law_struct_round_trip(
    st: State,
    id: u32,
    name: Seq<char>,
    args: Seq<Expr>,
    fuel: nat,
    k: int,
)
    requires
        fuel > 0,
        id != std_ids::PRINT,
        id != std_ids::INPUT,
        id != std_ids::LEN,
        lookup(st.structs, name) matches Some(fields) && fields.len() == args.len() && 0 <= k < fields.len()
            && (forall|j: int| 0 <= j < fields.len() && j != k ==> fields[j].0@ != fields[k].0@),
        eval_args(st, args, 0, seq![], (fuel - 1) as nat).1 is Some,
    ensures
        ({
            let fields = lookup(st.structs, name)->Some_0;
            let (st1, vals) = eval_args(st, args, 0, seq![], (fuel - 1) as nat);
            let (st2, v) = call(st, id, name, args, fuel);
            &&& v == Some(Val::Instance(name, st1.instances.len()))
            &&& st2.instances.len() == st1.instances.len() + 1
            &&& lookup(st2.instances[st1.instances.len() as int], fields[k].0@) == Some(vals->Some_0[k])
        }),
{
    let fields = lookup(st.structs, name)->Some_0;
    let (st1, vals) = eval_args(st, args, 0, seq![], (fuel - 1) as nat);
    crate::interpreter::lemma_eval_args_len(st, args, 0, seq![], (fuel - 1) as nat);
    let inst = crate::semantics::bind_params(fields, vals->Some_0);
    assert forall|j: int| 0 <= j < inst.len() && j != k implies inst[j].0 != inst[k].0 by {}
    lemma_lookup_unique(inst, k);
}

pub open spec fn is_number_token(t: Seq<Token>, p: int) -> bool {
    0 <= p < t.len() && (t[p].std_token_id == std_ids::INT_LITERAL || t[p].std_token_id == std_ids::FLOAT_LITERAL)
        && parse_literal(t[p].value@) is Some
}

pub open spec fn number_at(t: Seq<Token>, p: int) -> ExprV {
    ExprV::Number(parse_literal(t[p].value@)->Some_0)
}

/// Multiplication binds tighter than addition: three numbers joined by `+`
/// then `*` read as the first plus the product of the other two.
pub proof fn law_product_binds_tighter(t: Seq<Token>)
    requires
        t.len() == 5,
        is_number_token(t, 0),
        t[1].std_token_id == std_ids::PLUS,
        is_number_token(t, 2),
        t[3].std_token_id == std_ids::MULTIPLY,
        is_number_token(t, 4),
    ensures
        p_expression(t, 0) == Ok::<(ExprV, int), PErr>((
            ExprV::Binary(
                Box::new(number_at(t, 0)),
                BinOp::Add,
                Box::new(ExprV::Binary(Box::new(number_at(t, 2)), BinOp::Mul, Box::new(number_at(t, 4)))),
            ),
            5,
        )),
{
    let a = number_at(t, 0);
    let b = number_at(t, 2);
    let c = number_at(t, 4);
    let bc = ExprV::Binary(Box::new(b), BinOp::Mul, Box::new(c));
    let abc = ExprV::Binary(Box::new(a), BinOp::Add, Box::new(bc));
    assert(p_primary(t, 0) == Ok::<(ExprV, int), PErr>((a, 1)));
    assert(op_at(t, 1, 2) is None);
    assert(p_factor_rest(t, 1, a) == Ok::<(ExprV, int), PErr>((a, 1)));
    assert(p_factor(t, 0) == Ok::<(ExprV, int), PErr>((a, 1)));
    assert(op_at(t, 1, 1) == Some(BinOp::Add));
    assert(p_primary(t, 4) == Ok::<(ExprV, int), PErr>((c, 5)));
    assert(p_factor_rest(t, 5, bc) == Ok::<(ExprV, int), PErr>((bc, 5)));
    assert(op_at(t, 3, 2) == Some(BinOp::Mul));
    assert(p_factor_rest(t, 3, b) == Ok::<(ExprV, int), PErr>((bc, 5)));
    assert(p_primary(t, 2) == Ok::<(ExprV, int), PErr>((b, 3)));
    assert(p_factor(t, 2) == Ok::<(ExprV, int), PErr>((bc, 5)));
    assert(p_term_rest(t, 5, abc) == Ok::<(ExprV, int), PErr>((abc, 5)));
    assert(p_term_rest(t, 1, a) == Ok::<(ExprV, int), PErr>((abc, 5)));
    assert(p_term(t, 0) == Ok::<(ExprV, int), PErr>((abc, 5)));
    assert(p_expression_rest(t, 5, abc) == Ok::<(ExprV, int), PErr>((abc, 5)));
}

/// A parse of any token sequence either succeeds or stops at a token the
/// grammar cannot take, or at the end of the tokens: it never stops for want
/// of progress.
pub proof fn law_parse_always_progresses(t: Seq<Token>)
    ensures
        p_program(t, 0, seq![]) != Err::<Seq<StmtV>, PErr>(PErr::Stalled),
{
    lemma_program(t, 0, seq![]);
}

} // verus!
