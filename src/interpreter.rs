//! The tree-walking interpreter: runtime values, the scope chain, and the
//! evaluation of statements and expressions, each proved to follow
//! `semantics`.
use vstd::prelude::*;
use crate::ast::{BinOp, DataType, Expr, Stmt};
use crate::number::Num;
use crate::semantics::{
    binop, call, cut, eval, eval_args, exec, exec_block, exec_seq, exec_while, join, log, log_opt, lookup, run, show,
    truthy, Diagnostic, State, Val,
};
use crate::std_ids;
use crate::text::{push_char, push_str};
use vstd::string::StrSliceExecFns;

verus! {

pub enum RuntimeValue<'a> {
    Number(Num),
    String(String),
    Bool(bool),
    /// A struct instance: its type's name and the index of its fields in
    /// the interpreter's instance store.
    StructInstance { struct_name: String, handle: usize },
    /// A function, with the parameters and body of its declaration.
    Function { name: String, params: &'a Vec<(String, DataType)>, body: &'a Vec<Stmt> },
    Null,
    Void,
    /// A return on its way out to the call that absorbs it.
    Return(Box<RuntimeValue<'a>>),
}

pub open spec fn value_of<'a>(v: &RuntimeValue<'a>) -> Val
    decreases v,
{
    match v {
        RuntimeValue::Number(n) => Val::Number(*n),
        RuntimeValue::String(s) => Val::Str(s@),
        RuntimeValue::Bool(b) => Val::Bool(*b),
        RuntimeValue::StructInstance { struct_name, handle } => Val::Instance(struct_name@, *handle as nat),
        RuntimeValue::Function { name, params, body } => Val::Function(name@, params@, body@),
        RuntimeValue::Null => Val::Null,
        RuntimeValue::Void => Val::Void,
        RuntimeValue::Return(b) => Val::Return(Box::new(value_of(b))),
    }
}

impl<'a> View for RuntimeValue<'a> {
    type V = Val;

    open spec fn view(&self) -> Val {
        value_of(self)
    }
}

pub open spec fn opt_val<'a>(r: Option<RuntimeValue<'a>>) -> Option<Val> {
    match r {
        Some(v) => Some(v@),
        None => None,
    }
}

pub open spec fn binding_view<'a>(p: (String, RuntimeValue<'a>)) -> (Seq<char>, Val) {
    (p.0@, p.1@)
}

pub open spec fn bindings_view<'a>(v: Seq<(String, RuntimeValue<'a>)>) -> Seq<(Seq<char>, Val)> {
    v.map_values(|p: (String, RuntimeValue<'a>)| binding_view(p))
}

/// Index of the latest key equal to `name`.
pub open spec fn last_key_index(keys: Seq<Seq<char>>, name: Seq<char>) -> Option<int>
    decreases keys.len(),
{
    if keys.len() == 0 {
        None
    } else if keys.last() == name {
        Some(keys.len() - 1)
    } else {
        last_key_index(keys.drop_last(), name)
    }
}

pub open spec fn keys_of<V>(v: Seq<(String, V)>) -> Seq<Seq<char>> {
    v.map_values(|p: (String, V)| p.0@)
}

proof fn lemma_last_key_index_bound(keys: Seq<Seq<char>>, name: Seq<char>)
    ensures
        last_key_index(keys, name) matches Some(i) ==> 0 <= i < keys.len() && keys[i] == name,
    decreases keys.len(),
{
    if keys.len() > 0 && keys.last() != name {
        lemma_last_key_index_bound(keys.drop_last(), name);
    }
}

/// `lookup` is the value at `last_key_index`.
pub proof fn lemma_lookup_index<V>(s: Seq<(Seq<char>, V)>, name: Seq<char>)
    ensures
        lookup(s, name) == (match last_key_index(s.map_values(|p: (Seq<char>, V)| p.0), name) {
            Some(i) => Some(s[i].1),
            None => None,
        }),
    decreases s.len(),
{
    let keys = s.map_values(|p: (Seq<char>, V)| p.0);
    if s.len() > 0 {
        assert(keys.drop_last() =~= s.drop_last().map_values(|p: (Seq<char>, V)| p.0));
        lemma_lookup_index(s.drop_last(), name);
        lemma_last_key_index_bound(keys.drop_last(), name);
    }
}

/// Index of the latest pair in `v` whose key is `name`.
fn find_last<V>(v: &Vec<(String, V)>, name: &String) -> (r: Option<usize>)
    ensures
        opt_index(r) == last_key_index(keys_of(v@), name@),
        r matches Some(i) ==> i < v@.len(),
{
    proof { lemma_last_key_index_bound(keys_of(v@), name@); }
    let ghost keys = keys_of(v@);
    let mut i = v.len();
    assert(keys.take(i as int) =~= keys);
    while i > 0
        invariant
            i <= v@.len(),
            keys == keys_of(v@),
            last_key_index(keys, name@) == last_key_index(keys.take(i as int), name@),
        decreases i,
    {
        assert(keys.take(i as int).drop_last() =~= keys.take(i - 1));
        if v[i - 1].0 == *name {
            return Some(i - 1);
        }
        i = i - 1;
    }
    None
}

pub open spec fn opt_index(r: Option<usize>) -> Option<int> {
    match r {
        Some(i) => Some(i as int),
        None => None,
    }
}

impl<'a> RuntimeValue<'a> {
    /// A copy of the value.
    pub fn duplicate(&self) -> (r: RuntimeValue<'a>)
        ensures
            r@ == self@,
        decreases self,
    {
        match self {
            RuntimeValue::Number(n) => RuntimeValue::Number(*n),
            RuntimeValue::String(s) => RuntimeValue::String(s.clone()),
            RuntimeValue::Bool(b) => RuntimeValue::Bool(*b),
            RuntimeValue::StructInstance { struct_name, handle } => RuntimeValue::StructInstance {
                struct_name: struct_name.clone(),
                handle: *handle,
            },
            RuntimeValue::Function { name, params, body } => RuntimeValue::Function {
                name: name.clone(),
                params: *params,
                body: *body,
            },
            RuntimeValue::Null => RuntimeValue::Null,
            RuntimeValue::Void => RuntimeValue::Void,
            RuntimeValue::Return(b) => RuntimeValue::Return(Box::new(b.duplicate())),
        }
    }
}

/// The scope chain, as one stack of bindings: a scope is the run of bindings
/// made since it was entered, and leaving it cuts them off. A lookup takes
/// the latest binding of a name, so inner scopes shadow outer ones.
pub struct Environment<'a> {
    pub values: Vec<(String, RuntimeValue<'a>)>,
}

impl<'a> View for Environment<'a> {
    type V = Seq<(Seq<char>, Val)>;

    open spec fn view(&self) -> Seq<(Seq<char>, Val)> {
        bindings_view(self.values@)
    }
}

impl<'a> Environment<'a> {
    pub fn new() -> (r: Environment<'a>)
        ensures
            r@ == Seq::<(Seq<char>, Val)>::empty(),
    {
        let r = Environment { values: Vec::new() };
        assert(r@ =~= Seq::<(Seq<char>, Val)>::empty());
        r
    }

    /// Binds `name` in the innermost scope.
    pub fn define(&mut self, name: String, value: RuntimeValue<'a>)
        ensures
            final(self)@ == old(self)@.push((name@, value@)),
    {
        self.values.push((name, value));
        assert(final(self)@ =~= old(self)@.push((name@, value@)));
    }

    /// The value of the latest binding of `name`.
    pub fn get(&self, name: &String) -> (r: Option<RuntimeValue<'a>>)
        ensures
            opt_val(r) == lookup(self@, name@),
    {
        proof {
            lemma_lookup_index(self@, name@);
            assert(self@.map_values(|p: (Seq<char>, Val)| p.0) =~= keys_of(self.values@));
        }
        match find_last(&self.values, name) {
            Some(i) => Some(self.values[i].1.duplicate()),
            None => None,
        }
    }

    pub fn len(&self) -> (r: usize)
        ensures
            r == self@.len(),
    {
        self.values.len()
    }

    /// Leaves the scopes entered since the length was `n`.
    pub fn truncate(&mut self, n: usize)
        ensures
            final(self)@ == cut(old(self)@, n as nat),
    {
        self.values.truncate(n);
        assert(final(self)@ =~= cut(old(self)@, n as nat));
    }
}

/// Whether a value counts as true in a condition.
pub fn is_truthy<'a>(v: &RuntimeValue<'a>) -> (r: bool)
    ensures
        r == truthy(v@),
{
    match v {
        RuntimeValue::Bool(b) => *b,
        RuntimeValue::Number(n) => !n.is_zero(),
        RuntimeValue::Null => false,
        RuntimeValue::Void => false,
        _ => true,
    }
}

fn number_result<'a>(r: Option<Num>) -> (res: (RuntimeValue<'a>, Option<Diagnostic>))
    ensures
        (res.0@, res.1) == crate::semantics::num_result(r),
{
    match r {
        Some(n) => (RuntimeValue::Number(n), None),
        None => (RuntimeValue::Null, Some(Diagnostic::NumericError)),
    }
}

/// A binary operator on two values, with the diagnostic it logs, if any.
pub fn apply_binary_op<'a>(op: BinOp, l: &RuntimeValue<'a>, r: &RuntimeValue<'a>) -> (res: (
    RuntimeValue<'a>,
    Option<Diagnostic>,
))
    ensures
        (res.0@, res.1) == binop(op, l@, r@),
{
    match (l, r) {
        (RuntimeValue::Number(a), RuntimeValue::Number(b)) => {
            let (x, y) = a.cross(b);
            match op {
                BinOp::Add => number_result(a.add(b)),
                BinOp::Sub => number_result(a.sub(b)),
                BinOp::Mul => number_result(a.mul(b)),
                BinOp::Div => number_result(a.div(b)),
                BinOp::Less => (RuntimeValue::Bool(x < y), None),
                BinOp::Greater => (RuntimeValue::Bool(x > y), None),
                BinOp::LessEqual => (RuntimeValue::Bool(x <= y), None),
                BinOp::GreaterEqual => (RuntimeValue::Bool(x >= y), None),
                BinOp::Equal => (RuntimeValue::Bool(x == y), None),
                BinOp::NotEqual => (RuntimeValue::Bool(x != y), None),
            }
        },
        (RuntimeValue::String(a), RuntimeValue::String(b)) => match op {
            BinOp::Add => {
                let mut joined = a.clone();
                push_str(&mut joined, b.as_str());
                (RuntimeValue::String(joined), None)
            },
            BinOp::Equal => (RuntimeValue::Bool(*a == *b), None),
            BinOp::NotEqual => (RuntimeValue::Bool(!(*a == *b)), None),
            _ => (RuntimeValue::Null, Some(Diagnostic::InvalidOperands)),
        },
        _ => (RuntimeValue::Null, Some(Diagnostic::InvalidOperands)),
    }
}

/// What `print` writes for a value.
pub fn show_value<'a>(v: &RuntimeValue<'a>) -> (r: String)
    ensures
        r@ == show(v@),
    decreases v,
{
    match v {
        RuntimeValue::Number(n) => n.to_text(),
        RuntimeValue::String(s) => s.clone(),
        RuntimeValue::Bool(b) => if *b { "true".to_owned() } else { "false".to_owned() },
        RuntimeValue::Null => "null".to_owned(),
        RuntimeValue::Void => "void".to_owned(),
        RuntimeValue::StructInstance { struct_name, .. } => {
            let mut t = "[Instance of ".to_owned();
            push_str(&mut t, struct_name.as_str());
            push_str(&mut t, "]");
            t
        },
        RuntimeValue::Function { name, .. } => {
            let mut t = "[Function ".to_owned();
            push_str(&mut t, name.as_str());
            push_str(&mut t, "]");
            t
        },
        RuntimeValue::Return(b) => show_value(b),
    }
}

pub open spec fn vals_view<'a>(v: Seq<RuntimeValue<'a>>) -> Seq<Val> {
    v.map_values(|x: RuntimeValue<'a>| x@)
}

/// The line that `print` writes for its argument values.
pub fn print_text<'a>(vals: &Vec<RuntimeValue<'a>>) -> (r: String)
    ensures
        r@ == crate::semantics::print_line(vals_view(vals@)),
{
    let ghost parts = vals_view(vals@).map_values(|v: Val| show(v));
    let mut line = String::new();
    let mut j: usize = 0;
    while j < vals.len()
        invariant
            j <= vals@.len(),
            parts == vals_view(vals@).map_values(|v: Val| show(v)),
            line@ == join(parts.take(j as int)),
        decreases vals@.len() - j,
    {
        assert(parts.take(j + 1).drop_last() =~= parts.take(j as int));
        if j > 0 {
            push_char(&mut line, ' ');
        }
        let t = show_value(&vals[j]);
        push_str(&mut line, t.as_str());
        assert(parts.take(j + 1)[0] == parts[0]);
        assert(line@ =~= join(parts.take(j + 1)));
        j = j + 1;
    }
    assert(parts.take(j as int) =~= parts);
    push_char(&mut line, '\n');
    line
}

/// The interpreter: the scope chain, the struct registry, the store of
/// struct instances, the input still to read, and what has been written and
/// logged.
pub struct Interpreter<'a> {
    pub env: Environment<'a>,
    pub struct_definitions: Vec<(String, &'a Vec<(String, DataType)>)>,
    pub instances: Vec<Vec<(String, RuntimeValue<'a>)>>,
    pub input: Vec<String>,
    pub input_pos: usize,
    pub input_closed: bool,
    pub awaiting_input: bool,
    pub output: String,
    pub diagnostics: Vec<Diagnostic>,
}

pub open spec fn structs_view<'a>(v: Seq<(String, &'a Vec<(String, DataType)>)>) -> Seq<(Seq<char>, Seq<(String, DataType)>)> {
    v.map_values(|p: (String, &'a Vec<(String, DataType)>)| (p.0@, p.1@))
}

pub open spec fn instances_view<'a>(v: Seq<Vec<(String, RuntimeValue<'a>)>>) -> Seq<Seq<(Seq<char>, Val)>> {
    v.map_values(|fs: Vec<(String, RuntimeValue<'a>)>| bindings_view(fs@))
}

pub open spec fn lines_view(v: Seq<String>) -> Seq<Seq<char>> {
    v.map_values(|s: String| s@)
}

/// Most nested steps a run takes before it stops.
pub const FUEL: u64 = 0xffff_ffff_ffff_ffff;

impl<'a> Interpreter<'a> {
    pub open spec fn state(&self) -> State {
        State {
            env: self.env@,
            structs: structs_view(self.struct_definitions@),
            instances: instances_view(self.instances@),
            input: lines_view(self.input@),
            input_pos: self.input_pos as nat,
            input_closed: self.input_closed,
            awaiting_input: self.awaiting_input,
            output: self.output@,
            diagnostics: self.diagnostics@,
        }
    }

    /// An interpreter with nothing declared, nothing to read and nothing
    /// written.
    pub fn new() -> (r: Interpreter<'a>)
        ensures
            r.state() == (State {
                env: seq![],
                structs: seq![],
                instances: seq![],
                input: seq![],
                input_pos: 0,
                input_closed: true,
                awaiting_input: false,
                output: seq![],
                diagnostics: seq![],
            }),
    {
        let lines: Vec<String> = Vec::new();
        assert(lines_view(lines@) =~= seq![]);
        Self::with_input(lines)
    }

    /// An interpreter whose `input` calls read `lines` in turn, and then read
    /// empty lines.
    pub fn with_input(lines: Vec<String>) -> (r: Interpreter<'a>)
        ensures
            r.state() == (State {
                env: seq![],
                structs: seq![],
                instances: seq![],
                input: lines_view(lines@),
                input_pos: 0,
                input_closed: true,
                awaiting_input: false,
                output: seq![],
                diagnostics: seq![],
            }),
    {
        Self::with_lines(lines, true)
    }

    /// An interpreter whose `input` calls read `lines` in turn; where
    /// `closed`, they then read empty lines, else a read past the last line
    /// stops the run with `awaiting_input` set, so that it can be run again
    /// with one more line.
    pub fn with_lines(lines: Vec<String>, closed: bool) -> (r: Interpreter<'a>)
        ensures
            r.state() == (State {
                env: seq![],
                structs: seq![],
                instances: seq![],
                input: lines_view(lines@),
                input_pos: 0,
                input_closed: closed,
                awaiting_input: false,
                output: seq![],
                diagnostics: seq![],
            }),
    {
        let r = Interpreter {
            env: Environment::new(),
            struct_definitions: Vec::new(),
            instances: Vec::new(),
            input: lines,
            input_pos: 0,
            input_closed: closed,
            awaiting_input: false,
            output: String::new(),
            diagnostics: Vec::new(),
        };
        assert(structs_view(r.struct_definitions@) =~= seq![]);
        assert(instances_view(r.instances@) =~= seq![]);
        assert(r.state().diagnostics =~= seq![]);
        assert(r.state().output =~= seq![]);
        r
    }

    fn log(&mut self, d: Diagnostic)
        ensures
            final(self).state() == log(old(self).state(), d),
    {
        self.diagnostics.push(d);
    }

    fn log_opt(&mut self, d: Option<Diagnostic>)
        ensures
            final(self).state() == log_opt(old(self).state(), d),
    {
        if let Some(d) = d {
            self.log(d);
        }
    }
}

impl<'a> Interpreter<'a> {
    /// Runs a program: each top-level statement in order, a `return` among
    /// them dropped. Returns whether the run got to the end, rather than
    /// stopping for want of fuel or to wait for a line of input.
    pub fn interpret(&mut self, statements: &'a Vec<Stmt>) -> (completed: bool)
        ensures
            (final(self).state(), completed) == run(old(self).state(), statements@, 0, FUEL as nat),
    {
        let ghost st0 = self.state();
        let mut i: usize = 0;
        while i < statements.len()
            invariant
                i <= statements@.len(),
                st0 == old(self).state(),
                run(st0, statements@, 0, FUEL as nat) == run(self.state(), statements@, i as int, FUEL as nat),
            decreases statements@.len() - i,
        {
            match self.execute(&statements[i], FUEL) {
                None => return false,
                Some(_) => {},
            }
            i = i + 1;
        }
        true
    }

    /// Evaluates an expression.
    pub fn evaluate(&mut self, e: &'a Expr, fuel: u64) -> (r: Option<RuntimeValue<'a>>)
        ensures
            (final(self).state(), opt_val(r)) == eval(old(self).state(), *e, fuel as nat),
        decreases fuel, 0nat,
    {
        if fuel == 0 {
            return None;
        }
        match e {
            Expr::Number(n) => Some(RuntimeValue::Number(*n)),
            Expr::StringLiteral(s) => Some(RuntimeValue::String(s.clone())),
            Expr::Identifier(name) => match self.env.get(name) {
                Some(v) => Some(v),
                None => {
                    self.log(Diagnostic::UndefinedVariable);
                    Some(RuntimeValue::Null)
                },
            },
            Expr::BinaryOp { left, op, right } => {
                let l = match self.evaluate(left, fuel - 1) {
                    Some(l) => l,
                    None => return None,
                };
                let r = match self.evaluate(right, fuel - 1) {
                    Some(r) => r,
                    None => return None,
                };
                let (v, d) = apply_binary_op(*op, &l, &r);
                self.log_opt(d);
                Some(v)
            },
            Expr::Call { func_id, func_name, args } => self.call_function(*func_id, func_name, args, fuel - 1),
            Expr::MemberAccess { object, member } => {
                let o = match self.evaluate(object, fuel - 1) {
                    Some(o) => o,
                    None => return None,
                };
                match o {
                    RuntimeValue::StructInstance { handle, .. } => {
                        if handle < self.instances.len() {
                            proof {
                                let fs = self.instances@[handle as int];
                                lemma_lookup_index(bindings_view(fs@), member@);
                                assert(bindings_view(fs@).map_values(|p: (Seq<char>, Val)| p.0) =~= keys_of(fs@));
                            }
                            match find_last(&self.instances[handle], member) {
                                Some(k) => Some(self.instances[handle][k].1.duplicate()),
                                None => {
                                    self.log(Diagnostic::FieldNotFound);
                                    Some(RuntimeValue::Null)
                                },
                            }
                        } else {
                            self.log(Diagnostic::FieldNotFound);
                            Some(RuntimeValue::Null)
                        }
                    },
                    _ => {
                        self.log(Diagnostic::NotAStruct);
                        Some(RuntimeValue::Null)
                    },
                }
            },
        }
    }

    /// Values of the arguments, evaluated in order.
    pub fn evaluate_args(&mut self, args: &'a Vec<Expr>, fuel: u64) -> (r: Option<Vec<RuntimeValue<'a>>>)
        ensures
            (final(self).state(), match r {
                Some(v) => Some(vals_view(v@)),
                None => None,
            }) == eval_args(old(self).state(), args@, 0, seq![], fuel as nat),
        decreases fuel, 1nat,
    {
        let ghost st0 = self.state();
        let mut acc: Vec<RuntimeValue<'a>> = Vec::new();
        let mut i: usize = 0;
        assert(vals_view(acc@) =~= seq![]);
        while i < args.len()
            invariant
                i <= args@.len(),
                st0 == old(self).state(),
                eval_args(st0, args@, 0, seq![], fuel as nat)
                    == eval_args(self.state(), args@, i as int, vals_view(acc@), fuel as nat),
            decreases args@.len() - i,
        {
            let ghost acc0 = vals_view(acc@);
            match self.evaluate(&args[i], fuel) {
                None => return None,
                Some(v) => {
                    acc.push(v);
                    assert(vals_view(acc@) =~= acc0.push(acc@.last()@));
                },
            }
            i = i + 1;
        }
        Some(acc)
    }

    /// A call: `print`, `input` and `len` by their ids, else the constructor
    /// of a declared struct, else a function bound in scope, whose body runs
    /// in a scope of its own on top of the caller's.
    pub fn call_function(&mut self, id: u32, name: &'a String, args: &'a Vec<Expr>, fuel: u64) -> (r: Option<RuntimeValue<'a>>)
        ensures
            (final(self).state(), opt_val(r)) == call(old(self).state(), id, name@, args@, fuel as nat),
        decreases fuel, 1nat,
    {
        if fuel == 0 {
            return None;
        }
        let f = fuel - 1;
        if id == std_ids::PRINT {
            match self.evaluate_args(args, f) {
                None => None,
                Some(vals) => {
                    let line = print_text(&vals);
                    push_str(&mut self.output, line.as_str());
                    Some(RuntimeValue::Void)
                },
            }
        } else if id == std_ids::INPUT {
            if args.len() > 0 {
                match self.evaluate(&args[0], f) {
                    None => return None,
                    Some(RuntimeValue::String(p)) => push_str(&mut self.output, p.as_str()),
                    Some(_) => {},
                }
            }
            if self.input_pos < self.input.len() {
                let line = self.input[self.input_pos].clone();
                self.input_pos = self.input_pos + 1;
                Some(RuntimeValue::String(line))
            } else if self.input_closed {
                Some(RuntimeValue::String(String::new()))
            } else {
                self.awaiting_input = true;
                None
            }
        } else if id == std_ids::LEN {
            if args.len() != 1 {
                self.log(Diagnostic::LenArity);
                return Some(RuntimeValue::Number(Num::integer(0)));
            }
            match self.evaluate(&args[0], f) {
                None => None,
                Some(RuntimeValue::String(s)) => {
                    let (v, d) = number_result(Num::from_count(s.as_str().unicode_len()));
                    self.log_opt(d);
                    Some(v)
                },
                Some(_) => {
                    self.log(Diagnostic::LenNotString);
                    Some(RuntimeValue::Number(Num::integer(0)))
                },
            }
        } else {
            proof {
                lemma_lookup_index(structs_view(self.struct_definitions@), name@);
                assert(structs_view(self.struct_definitions@).map_values(
                    |p: (Seq<char>, Seq<(String, DataType)>)| p.0,
                ) =~= keys_of(self.struct_definitions@));
            }
            match find_last(&self.struct_definitions, name) {
                Some(k) => {
                    let fields: &'a Vec<(String, DataType)> = self.struct_definitions[k].1;
                    if args.len() != fields.len() {
                        self.log(Diagnostic::ConstructorArity);
                        return Some(RuntimeValue::Null);
                    }
                    proof { lemma_eval_args_len(self.state(), args@, 0, seq![], f as nat); }
                    match self.evaluate_args(args, f) {
                        None => None,
                        Some(vals) => {
                            let inst = bind_fields(fields, &vals);
                            let handle = self.instances.len();
                            let ghost before = instances_view(self.instances@);
                            self.instances.push(inst);
                            assert(instances_view(self.instances@) =~= before.push(bindings_view(inst@)));
                            Some(RuntimeValue::StructInstance { struct_name: name.clone(), handle })
                        },
                    }
                },
                None => match self.env.get(name) {
                    Some(RuntimeValue::Function { params, body, .. }) => {
                        if args.len() != params.len() {
                            self.log(Diagnostic::ArityMismatch);
                            return Some(RuntimeValue::Null);
                        }
                        proof { lemma_eval_args_len(self.state(), args@, 0, seq![], f as nat); }
                        match self.evaluate_args(args, f) {
                            None => None,
                            Some(vals) => {
                                let mark = self.env.len();
                                self.bind_params(params, &vals);
                                let r = self.execute_seq(body, f);
                                self.env.truncate(mark);
                                match r {
                                    None => None,
                                    Some(RuntimeValue::Return(v)) => Some(*v),
                                    Some(_) => Some(RuntimeValue::Void),
                                }
                            },
                        }
                    },
                    _ => {
                        self.log(Diagnostic::UndefinedFunction);
                        Some(RuntimeValue::Null)
                    },
                },
            }
        }
    }

    /// Binds each parameter name to the argument value at its position.
    fn bind_params(&mut self, params: &'a Vec<(String, DataType)>, vals: &Vec<RuntimeValue<'a>>)
        requires
            params@.len() == vals@.len(),
        ensures
            final(self).state() == (State {
                env: old(self).state().env + crate::semantics::bind_params(params@, vals_view(vals@)),
                ..old(self).state()
            }),
    {
        let ghost env0 = self.env@;
        let mut i: usize = 0;
        while i < params.len()
            invariant
                i <= params@.len(),
                params@.len() == vals@.len(),
                self.env@ == env0 + crate::semantics::bind_params(params@, vals_view(vals@)).take(i as int),
                self.state() == (State { env: self.env@, ..old(self).state() }),
            decreases params@.len() - i,
        {
            let ghost prev = self.env@;
            self.env.define(params[i].0.clone(), vals[i].duplicate());
            proof {
                let target = env0 + crate::semantics::bind_params(params@, vals_view(vals@)).take(i + 1);
                assert forall|k: int| 0 <= k < self.env@.len() implies #[trigger] self.env@[k] == target[k] by {
                    if k < prev.len() {
                        assert(self.env@[k] == prev[k]);
                    }
                }
                assert(self.env@ =~= target);
            }
            i = i + 1;
        }
        assert(crate::semantics::bind_params(params@, vals_view(vals@)).take(i as int)
            =~= crate::semantics::bind_params(params@, vals_view(vals@)));
    }

    /// Statements in order until one returns; the result is the last one's.
    fn execute_seq(&mut self, stmts: &'a Vec<Stmt>, fuel: u64) -> (r: Option<RuntimeValue<'a>>)
        ensures
            (final(self).state(), opt_val(r)) == exec_seq(old(self).state(), stmts@, 0, Val::Void, fuel as nat),
        decreases fuel, 1nat,
    {
        let ghost st0 = self.state();
        let mut last = RuntimeValue::Void;
        let mut i: usize = 0;
        while i < stmts.len()
            invariant
                i <= stmts@.len(),
                st0 == old(self).state(),
                exec_seq(st0, stmts@, 0, Val::Void, fuel as nat)
                    == exec_seq(self.state(), stmts@, i as int, last@, fuel as nat),
            decreases stmts@.len() - i,
        {
            match self.execute(&stmts[i], fuel) {
                None => return None,
                Some(RuntimeValue::Return(v)) => return Some(RuntimeValue::Return(v)),
                Some(v) => {
                    last = v;
                },
            }
            i = i + 1;
        }
        Some(last)
    }

    /// A block: its statements in a scope of their own.
    fn execute_block(&mut self, stmts: &'a Vec<Stmt>, fuel: u64) -> (r: Option<RuntimeValue<'a>>)
        ensures
            (final(self).state(), opt_val(r)) == exec_block(old(self).state(), stmts@, fuel as nat),
        decreases fuel, 2nat,
    {
        let mark = self.env.len();
        let r = self.execute_seq(stmts, fuel);
        self.env.truncate(mark);
        r
    }

    /// A `while` loop: the condition is evaluated in the enclosing scope, the
    /// body runs in a fresh scope each round, and a return ends the loop.
    fn execute_while(&mut self, cond: &'a Expr, body: &'a Vec<Stmt>, fuel: u64) -> (r: Option<RuntimeValue<'a>>)
        ensures
            (final(self).state(), opt_val(r)) == exec_while(old(self).state(), *cond, body@, fuel as nat),
        decreases fuel, 0nat,
    {
        let ghost st0 = self.state();
        let mut f = fuel;
        loop
            invariant
                f <= fuel,
                st0 == old(self).state(),
                exec_while(st0, *cond, body@, fuel as nat) == exec_while(self.state(), *cond, body@, f as nat),
            decreases f,
        {
            if f == 0 {
                return None;
            }
            let c = match self.evaluate(cond, f - 1) {
                Some(c) => c,
                None => return None,
            };
            if !is_truthy(&c) {
                return Some(RuntimeValue::Void);
            }
            match self.execute_block(body, f - 1) {
                None => return None,
                Some(RuntimeValue::Return(v)) => return Some(RuntimeValue::Return(v)),
                Some(_) => {},
            }
            f = f - 1;
        }
    }

    /// Executes a statement; `Some(RuntimeValue::Return(_))` where it returns.
    pub fn execute(&mut self, s: &'a Stmt, fuel: u64) -> (r: Option<RuntimeValue<'a>>)
        ensures
            (final(self).state(), opt_val(r)) == exec(old(self).state(), *s, fuel as nat),
        decreases fuel, 0nat,
    {
        if fuel == 0 {
            return None;
        }
        let f = fuel - 1;
        match s {
            Stmt::VariableDeclaration { name, value } => {
                match self.evaluate(value, f) {
                    None => None,
                    Some(v) => {
                        self.env.define(name.clone(), v);
                        Some(RuntimeValue::Void)
                    },
                }
            },
            Stmt::FunctionDeclaration { name, params, body } => {
                self.env.define(name.clone(), RuntimeValue::Function { name: name.clone(), params, body });
                Some(RuntimeValue::Void)
            },
            Stmt::StructDeclaration { name, fields } => {
                self.struct_definitions.push((name.clone(), fields));
                assert(structs_view(self.struct_definitions@) =~= old(self).state().structs.push((name@, fields@)));
                Some(RuntimeValue::Void)
            },
            Stmt::Expression(e) => self.evaluate(e, f),
            Stmt::If { condition, then_branch, else_branch } => {
                let c = match self.evaluate(condition, f) {
                    Some(c) => c,
                    None => return None,
                };
                if is_truthy(&c) {
                    self.execute_block(then_branch, f)
                } else {
                    match else_branch {
                        Some(b) => self.execute_block(b, f),
                        None => Some(RuntimeValue::Void),
                    }
                }
            },
            Stmt::While { condition, body } => self.execute_while(condition, body, f),
            Stmt::Return { value } => match value {
                None => {
                    let null = RuntimeValue::Null;
                    assert(null@ == Val::Null);
                    let r = RuntimeValue::Return(Box::new(null));
                    assert(r@ == Val::Return(Box::new(Val::Null)));
                    Some(r)
                },
                Some(e) => match self.evaluate(e, f) {
                    None => None,
                    Some(v) => {
                        let ghost inner = v@;
                        let r = RuntimeValue::Return(Box::new(v));
                        assert(r@ == Val::Return(Box::new(inner)));
                        Some(r)
                    },
                },
            },
        }
    }
}

/// Evaluating arguments gives one value for each.
pub proof fn lemma_eval_args_len(st: State, args: Seq<Expr>, i: int, acc: Seq<Val>, fuel: nat)
    requires
        0 <= i <= args.len(),
    ensures
        eval_args(st, args, i, acc, fuel).1 matches Some(vs) ==> vs.len() == acc.len() + args.len() - i,
    decreases args.len() - i,
{
    if i < args.len() {
        let (st1, v) = eval(st, args[i], fuel);
        if let Some(v) = v {
            lemma_eval_args_len(st1, args, i + 1, acc.push(v), fuel);
        }
    }
}

/// The fields of a new struct instance: each field name bound to the
/// argument value at its position.
fn bind_fields<'a>(fields: &'a Vec<(String, DataType)>, vals: &Vec<RuntimeValue<'a>>) -> (r: Vec<(String, RuntimeValue<'a>)>)
    requires
        fields@.len() == vals@.len(),
    ensures
        bindings_view(r@) == crate::semantics::bind_params(fields@, vals_view(vals@)),
{
    let mut out: Vec<(String, RuntimeValue<'a>)> = Vec::new();
    let mut i: usize = 0;
    while i < fields.len()
        invariant
            i <= fields@.len(),
            fields@.len() == vals@.len(),
            bindings_view(out@) == crate::semantics::bind_params(fields@, vals_view(vals@)).take(i as int),
        decreases fields@.len() - i,
    {
        let ghost prev = out@;
        out.push((fields[i].0.clone(), vals[i].duplicate()));
        proof {
            let target = crate::semantics::bind_params(fields@, vals_view(vals@));
            assert(bindings_view(prev).len() == prev.len());
            assert(out@.len() == i + 1);
            assert(bindings_view(out@).len() == i + 1);
            assert(target.len() == fields@.len());
            assert forall|k: int| 0 <= k < i + 1 implies #[trigger] bindings_view(out@)[k] == target.take(i + 1)[k] by {
                if k < i {
                    assert(out@[k] == prev[k]);
                    assert(bindings_view(prev)[k] == target.take(i as int)[k]);
                }
            }
            assert(bindings_view(out@) =~= target.take(i + 1));
        }
        i = i + 1;
    }
    assert(crate::semantics::bind_params(fields@, vals_view(vals@)).take(i as int)
        =~= crate::semantics::bind_params(fields@, vals_view(vals@)));
    out
}

} // verus!
