//! The evaluator: a big-step semantics over the value model, and the
//! executable evaluator that follows it. External and method calls suspend
//! evaluation unless a reply for them is already at hand; the driver runs the
//! program again with the replies gathered so far, which replays the same
//! steps because evaluation is deterministic.
use vstd::prelude::*;
use crate::ast::{Expr, Node};
use crate::builtins::{builtin_named, builtin_output, builtin_result, Builtins};
use crate::ops::{apply_binary, apply_unary, binary_op, exc, index_value, result_view, subscript, unary_op};
use crate::value::{names_view, text_eq, truthy, type_label, ExcKind, Exception, Span, SpecException, SpecValue, Value};

verus! {

pub type Env = Seq<(Seq<char>, SpecValue)>;

/// A call that the host must satisfy.
#[derive(Debug)]
pub enum Call {
    External { name: String, args: Vec<Value> },
    Method { receiver: Value, name: String, args: Vec<Value> },
}

/// The host's answer to a suspended call.
#[derive(Debug)]
pub enum Reply {
    Return(Value),
    Error(Exception),
}

/// How evaluating an expression or a statement ended.
#[derive(Debug)]
pub enum Outcome {
    Val(Value),
    Raise(Exception),
    Suspend(Call),
    Limit,
}

pub enum SpecCall {
    External { name: Seq<char>, args: Seq<SpecValue> },
    Method { receiver: SpecValue, name: Seq<char>, args: Seq<SpecValue> },
}

pub enum SpecReply {
    Return(SpecValue),
    Error(SpecException),
}

pub enum SpecOutcome {
    Val(SpecValue),
    Raise(SpecException),
    Suspend(SpecCall),
    Limit,
}

/// The model of the evaluator's state.
pub struct SpecMachine {
    pub env: Env,
    pub stdout: Seq<char>,
    pub replies: Seq<SpecReply>,
    pub used: int,
    pub budget: int,
    pub externals: Seq<Seq<char>>,
}

impl Call {
    pub open spec fn view(&self) -> SpecCall {
        match self {
            Call::External { name, args } => SpecCall::External { name: name@, args: Value::list_view(*args) },
            Call::Method { receiver, name, args } => SpecCall::Method {
                receiver: receiver@,
                name: name@,
                args: Value::list_view(*args),
            },
        }
    }
}

impl Reply {
    pub open spec fn view(&self) -> SpecReply {
        match self {
            Reply::Return(v) => SpecReply::Return(v@),
            Reply::Error(e) => SpecReply::Error(e@),
        }
    }
}

impl Outcome {
    pub open spec fn view(&self) -> SpecOutcome {
        match self {
            Outcome::Val(v) => SpecOutcome::Val(v@),
            Outcome::Raise(e) => SpecOutcome::Raise(e@),
            Outcome::Suspend(c) => SpecOutcome::Suspend(c@),
            Outcome::Limit => SpecOutcome::Limit,
        }
    }
}

pub open spec fn replies_view(replies: Seq<Reply>) -> Seq<SpecReply> {
    Seq::new(replies.len(), |i: int| replies[i]@)
}

/// The first index at or after `i` whose entry is named `name`, or -1.
pub open spec fn env_index(env: Env, name: Seq<char>, i: int) -> int
    decreases env.len() - i,
{
    if i < 0 || i >= env.len() {
        -1
    } else if env[i].0 == name {
        i
    } else {
        env_index(env, name, i + 1)
    }
}

/// `env` with `name` bound to `v`: an existing binding is replaced in place.
pub open spec fn bind(env: Env, name: Seq<char>, v: SpecValue) -> Env {
    let k = env_index(env, name, 0);
    if k >= 0 {
        env.update(k, (name, v))
    } else {
        env.push((name, v))
    }
}

pub open spec fn name_error(name: Seq<char>) -> SpecException {
    exc(ExcKind::NameError, "name '"@ + name + "' is not defined"@, None)
}

pub open spec fn attribute_error(v: SpecValue, attr: Seq<char>, span: Option<Span>) -> SpecException {
    exc(ExcKind::AttributeError, "'"@ + type_label(v) + "' object has no attribute '"@ + attr + "'"@, span)
}

pub open spec fn from_result(r: Result<SpecValue, SpecException>) -> SpecOutcome {
    match r {
        Ok(v) => SpecOutcome::Val(v),
        Err(e) => SpecOutcome::Raise(e),
    }
}

/// A suspended call is answered from the next unused reply, or suspends.
pub open spec fn resolve_call(m: SpecMachine, call: SpecCall) -> (SpecMachine, SpecOutcome) {
    if 0 <= m.used < m.replies.len() {
        let m2 = SpecMachine { used: m.used + 1, ..m };
        match m.replies[m.used] {
            SpecReply::Return(v) => (m2, SpecOutcome::Val(v)),
            SpecReply::Error(e) => (m2, SpecOutcome::Raise(e)),
        }
    } else {
        (m, SpecOutcome::Suspend(call))
    }
}

/// Evaluates the first `n` expressions of `args` from left to right.
pub open spec fn sem_args(m: SpecMachine, args: Vec<Expr>, n: int) -> (SpecMachine, Result<Seq<SpecValue>, SpecOutcome>)
    decreases args, 0int, n,
{
    if n <= 0 || n > args.len() {
        (m, Ok(Seq::empty()))
    } else {
        let (m1, r1) = sem_args(m, args, n - 1);
        match r1 {
            Ok(vs) => {
                let (m2, o) = sem_expr(m1, args[n - 1]);
                match o {
                    SpecOutcome::Val(v) => (m2, Ok(vs.push(v))),
                    _ => (m2, Err(o)),
                }
            },
            Err(o) => (m1, Err(o)),
        }
    }
}

/// Once evaluating an argument stops the list, later arguments are not evaluated.
pub proof fn lemma_args_stop(m: SpecMachine, args: Vec<Expr>, k: int, n: int)
    requires
        0 <= k <= n <= args.len(),
        sem_args(m, args, k).1 is Err,
    ensures
        sem_args(m, args, n) == sem_args(m, args, k),
    decreases n - k,
{
    if n > k {
        lemma_args_stop(m, args, k, n - 1);
    }
}

/// What evaluating `e` in state `m` gives, and the state after.
pub open spec fn sem_expr(m: SpecMachine, e: Expr) -> (SpecMachine, SpecOutcome)
    decreases e, 1int, 0int,
{
    match e {
        Expr::Constant(v) => (m, SpecOutcome::Val(v@)),
        Expr::Name(n) => {
            let k = env_index(m.env, n@, 0);
            if k >= 0 {
                (m, SpecOutcome::Val(m.env[k].1))
            } else {
                (m, SpecOutcome::Raise(name_error(n@)))
            }
        },
        Expr::List(items) => {
            let (m1, r) = sem_args(m, items, items.len() as int);
            match r {
                Ok(vs) => (m1, SpecOutcome::Val(SpecValue::List(vs))),
                Err(o) => (m1, o),
            }
        },
        Expr::Op { left, op, right, span } => {
            let (m1, o1) = sem_expr(m, *left);
            match o1 {
                SpecOutcome::Val(a) => {
                    let (m2, o2) = sem_expr(m1, *right);
                    match o2 {
                        SpecOutcome::Val(b) => (m2, from_result(binary_op(op, a, b, span))),
                        _ => (m2, o2),
                    }
                },
                _ => (m1, o1),
            }
        },
        Expr::Unary { op, operand, span } => {
            let (m1, o1) = sem_expr(m, *operand);
            match o1 {
                SpecOutcome::Val(a) => (m1, from_result(unary_op(op, a, span))),
                _ => (m1, o1),
            }
        },
        Expr::Subscript { object, index, span } => {
            let (m1, o1) = sem_expr(m, *object);
            match o1 {
                SpecOutcome::Val(a) => {
                    let (m2, o2) = sem_expr(m1, *index);
                    match o2 {
                        SpecOutcome::Val(b) => (m2, from_result(subscript(a, b, span))),
                        _ => (m2, o2),
                    }
                },
                _ => (m1, o1),
            }
        },
        Expr::Call { func, args, span } => {
            let b = builtin_named(func@);
            if b.is_none() && !m.externals.contains(func@) {
                (m, SpecOutcome::Raise(name_error(func@)))
            } else {
                let (m1, r) = sem_args(m, args, args.len() as int);
                match r {
                    Err(o) => (m1, o),
                    Ok(vs) => match b {
                        Some(b) => (
                            SpecMachine { stdout: m1.stdout + builtin_output(b, vs), ..m1 },
                            from_result(builtin_result(b, vs)),
                        ),
                        None => resolve_call(m1, SpecCall::External { name: func@, args: vs }),
                    },
                }
            }
        },
        Expr::MethodCall { receiver, method, args, span } => {
            let (m1, o1) = sem_expr(m, *receiver);
            match o1 {
                SpecOutcome::Val(rv) => match rv {
                    SpecValue::Record(_) => {
                        let (m2, r) = sem_args(m1, args, args.len() as int);
                        match r {
                            Err(o) => (m2, o),
                            Ok(vs) => resolve_call(m2, SpecCall::Method { receiver: rv, name: method@, args: vs }),
                        }
                    },
                    _ => (m1, SpecOutcome::Raise(attribute_error(rv, method@, span))),
                },
                _ => (m1, o1),
            }
        },
        Expr::Attribute { object, attr, span } => {
            let (m1, o1) = sem_expr(m, *object);
            match o1 {
                SpecOutcome::Val(v) => match v {
                    SpecValue::Record(r) => {
                        let k = env_index(r.attrs, attr@, 0);
                        if k >= 0 {
                            (m1, SpecOutcome::Val(r.attrs[k].1))
                        } else {
                            (m1, SpecOutcome::Raise(attribute_error(v, attr@, span)))
                        }
                    },
                    _ => (m1, SpecOutcome::Raise(attribute_error(v, attr@, span))),
                },
                _ => (m1, o1),
            }
        },
    }
}

/// The items that `for` walks over a value: `0..n` for a range, the elements
/// of a list, the one-character strings of a string.
pub open spec fn iter_items(v: SpecValue) -> Option<Seq<SpecValue>> {
    match v {
        SpecValue::Range(n) => Some(Seq::new(if n < 0 { 0nat } else { n as nat }, |i: int| SpecValue::Int(i))),
        SpecValue::List(xs) => Some(xs),
        SpecValue::Str(s) => Some(Seq::new(s.len(), |i: int| SpecValue::Str(seq![s[i]]))),
        _ => None,
    }
}

pub open spec fn spend(m: SpecMachine) -> SpecMachine {
    SpecMachine { budget: m.budget - 1, ..m }
}

pub open spec fn with_env(m: SpecMachine, env: Env) -> SpecMachine {
    SpecMachine { env, ..m }
}

pub open spec fn done(o: SpecOutcome) -> SpecOutcome {
    match o {
        SpecOutcome::Val(_) => SpecOutcome::Val(SpecValue::NoneValue),
        _ => o,
    }
}

/// What running statement `s` gives; every statement costs one unit of budget.
pub open spec fn sem_stmt(m: SpecMachine, s: Node) -> (SpecMachine, SpecOutcome)
    decreases s, 2int, 0int,
{
    if m.budget <= 0 {
        (m, SpecOutcome::Limit)
    } else {
        let m0 = spend(m);
        match s {
            Node::Pass => (m0, SpecOutcome::Val(SpecValue::NoneValue)),
            Node::Expression(e) => sem_expr(m0, e),
            Node::Assign { target, value } => {
                let (m1, o) = sem_expr(m0, value);
                match o {
                    SpecOutcome::Val(v) => (with_env(m1, bind(m1.env, target@, v)), SpecOutcome::Val(SpecValue::NoneValue)),
                    _ => (m1, o),
                }
            },
            Node::AugAssign { target, op, value, span } => {
                let k = env_index(m0.env, target@, 0);
                if k < 0 {
                    (m0, SpecOutcome::Raise(name_error(target@)))
                } else {
                    let cur = m0.env[k].1;
                    let (m1, o) = sem_expr(m0, value);
                    match o {
                        SpecOutcome::Val(v) => match binary_op(op, cur, v, span) {
                            Ok(r) => (with_env(m1, bind(m1.env, target@, r)), SpecOutcome::Val(SpecValue::NoneValue)),
                            Err(e) => (m1, SpecOutcome::Raise(e)),
                        },
                        _ => (m1, o),
                    }
                }
            },
            Node::If { test, body, or_else } => {
                let (m1, o) = sem_expr(m0, test);
                match o {
                    SpecOutcome::Val(v) => {
                        let (m2, o2) = if truthy(v) {
                            sem_block(m1, body, body.len() as int)
                        } else {
                            sem_block(m1, or_else, or_else.len() as int)
                        };
                        (m2, done(o2))
                    },
                    _ => (m1, o),
                }
            },
            Node::For { target, iter, body, or_else } => {
                let (m1, o) = sem_expr(m0, iter);
                match o {
                    SpecOutcome::Val(v) => match iter_items(v) {
                        None => (m1, SpecOutcome::Raise(not_iterable(v))),
                        Some(items) => {
                            let (m2, o2) = sem_for(m1, target@, items, body, items.len() as int);
                            match o2 {
                                SpecOutcome::Val(_) => {
                                    let (m3, o3) = sem_block(m2, or_else, or_else.len() as int);
                                    (m3, done(o3))
                                },
                                _ => (m2, o2),
                            }
                        },
                    },
                    _ => (m1, o),
                }
            },
            Node::Raise(e) => {
                let (m1, o) = sem_expr(m0, e);
                match o {
                    SpecOutcome::Val(SpecValue::Exc(x)) => (m1, SpecOutcome::Raise(x)),
                    SpecOutcome::Val(_) => (m1, SpecOutcome::Raise(
                        exc(ExcKind::TypeError, "exceptions must derive from BaseException"@, None),
                    )),
                    _ => (m1, o),
                }
            },
            Node::Unsupported(what) => (m0, SpecOutcome::Raise(
                exc(ExcKind::NotImplementedError, "'"@ + what@ + "' statements are not supported"@, None),
            )),
        }
    }
}

pub open spec fn not_iterable(v: SpecValue) -> SpecException {
    exc(ExcKind::TypeError, "'"@ + type_label(v) + "' object is not iterable"@, None)
}

/// Runs the first `n` statements of `body`; the outcome of the last one run.
pub open spec fn sem_block(m: SpecMachine, body: Vec<Node>, n: int) -> (SpecMachine, SpecOutcome)
    decreases body, 0int, n,
{
    if n <= 0 || n > body.len() {
        (m, SpecOutcome::Val(SpecValue::NoneValue))
    } else {
        let (m1, o1) = sem_block(m, body, n - 1);
        match o1 {
            SpecOutcome::Val(_) => sem_stmt(m1, body[n - 1]),
            _ => (m1, o1),
        }
    }
}

/// Runs the first `n` iterations of a `for` loop over `items`; each costs one unit of budget.
pub open spec fn sem_for(m: SpecMachine, target: Seq<char>, items: Seq<SpecValue>, body: Vec<Node>, n: int) -> (
    SpecMachine,
    SpecOutcome,
)
    decreases body, 1int, n,
{
    if n <= 0 || n > items.len() {
        (m, SpecOutcome::Val(SpecValue::NoneValue))
    } else {
        let (m1, o1) = sem_for(m, target, items, body, n - 1);
        match o1 {
            SpecOutcome::Val(_) => if m1.budget <= 0 {
                (m1, SpecOutcome::Limit)
            } else {
                let m2 = with_env(spend(m1), bind(m1.env, target, items[n - 1]));
                let (m3, o3) = sem_block(m2, body, body.len() as int);
                (m3, done(o3))
            },
            _ => (m1, o1),
        }
    }
}

pub proof fn lemma_block_stop(m: SpecMachine, body: Vec<Node>, k: int, n: int)
    requires
        0 <= k <= n <= body.len(),
        !(sem_block(m, body, k).1 is Val),
    ensures
        sem_block(m, body, n) == sem_block(m, body, k),
    decreases n - k,
{
    if n > k {
        lemma_block_stop(m, body, k, n - 1);
    }
}

pub proof fn lemma_for_stop(m: SpecMachine, target: Seq<char>, items: Seq<SpecValue>, body: Vec<Node>, k: int, n: int)
    requires
        0 <= k <= n <= items.len(),
        !(sem_for(m, target, items, body, k).1 is Val),
    ensures
        sem_for(m, target, items, body, n) == sem_for(m, target, items, body, k),
    decreases n - k,
{
    if n > k {
        lemma_for_stop(m, target, items, body, k, n - 1);
    }
}

/// The evaluator's state: the variables, what has been printed, the replies
/// to suspended calls and how many were used, the statement budget left and
/// the names of the external functions.
pub struct Machine<'a> {
    pub env: Vec<(String, Value)>,
    pub stdout: String,
    pub replies: &'a Vec<Reply>,
    pub used: usize,
    pub budget: u64,
    pub externals: &'a Vec<String>,
}

impl<'a> Machine<'a> {
    pub open spec fn view(&self) -> SpecMachine {
        SpecMachine {
            env: Value::attrs_view(self.env),
            stdout: self.stdout@,
            replies: replies_view(self.replies@),
            used: self.used as int,
            budget: self.budget as int,
            externals: names_view(*self.externals),
        }
    }
}

/// The index of the first entry of `env` named `name`.
pub fn env_find(env: &Vec<(String, Value)>, name: &str) -> (r: Option<usize>)
    ensures
        match r {
            Some(k) => k < env.len() && env_index(Value::attrs_view(*env), name@, 0) == k,
            None => env_index(Value::attrs_view(*env), name@, 0) == -1,
        },
{
    let ghost ev = Value::attrs_view(*env);
    let mut i: usize = 0;
    while i < env.len()
        invariant
            i <= env.len() == ev.len(),
            ev == Value::attrs_view(*env),
            env_index(ev, name@, 0) == env_index(ev, name@, i as int),
        decreases env.len() - i,
    {
        if text_eq(env[i].0.as_str(), name) {
            return Some(i);
        }
        i += 1;
    }
    None
}

/// Binds `name` to `v`, replacing an existing binding in place.
pub fn env_bind(env: &mut Vec<(String, Value)>, name: &String, v: Value)
    ensures
        Value::attrs_view(*final(env)) == bind(Value::attrs_view(*old(env)), name@, v@),
{
    let ghost ev = Value::attrs_view(*env);
    match env_find(env, name.as_str()) {
        Some(k) => {
            env.set(k, (name.clone(), v));
            assert(Value::attrs_view(*env) =~= ev.update(k as int, (name@, v@)));
        },
        None => {
            env.push((name.clone(), v));
            assert(Value::attrs_view(*env) =~= ev.push((name@, v@)));
        },
    }
}

fn contains_name(names: &Vec<String>, name: &String) -> (r: bool)
    ensures
        r == names_view(*names).contains(name@),
{
    let mut i: usize = 0;
    while i < names.len()
        invariant
            i <= names.len(),
            forall|j: int| 0 <= j < i ==> names@[j]@ != name@,
        decreases names.len() - i,
    {
        if names[i].eq(name) {
            assert(names_view(*names)[i as int] == name@);
            return true;
        }
        i += 1;
    }
    assert(!names_view(*names).contains(name@)) by {
        if names_view(*names).contains(name@) {
            let j = choose|j: int| 0 <= j < names_view(*names).len() && names_view(*names)[j] == name@;
            assert(names@[j]@ == name@);
        }
    };
    false
}

fn attribute_failure(v: &Value, attr: &String, span: Option<Span>) -> (e: Exception)
    ensures
        e@ == attribute_error(v@, attr@, span),
{
    let mut m = String::from_str("'");
    m.append(v.type_label().as_str());
    m.append("' object has no attribute '");
    m.append(attr.as_str());
    m.append("'");
    Exception::new(ExcKind::AttributeError, m, span)
}

fn name_failure(name: &String) -> (e: Exception)
    ensures
        e@ == name_error(name@),
{
    let mut m = String::from_str("name '");
    m.append(name.as_str());
    m.append("' is not defined");
    Exception::new(ExcKind::NameError, m, None)
}

fn outcome_of(r: Result<Value, Exception>) -> (o: Outcome)
    ensures
        o@ == from_result(result_view(r)),
{
    match r {
        Ok(v) => Outcome::Val(v),
        Err(e) => Outcome::Raise(e),
    }
}

/// Answers `call` from the next unused reply, or suspends with it.
fn resolve(m: &mut Machine, call: Call) -> (o: Outcome)
    ensures
        (final(m)@, o@) == resolve_call(old(m)@, call@),
        final(m).replies == old(m).replies,
        final(m).externals == old(m).externals,
{
    if m.used < m.replies.len() {
        let k = m.used;
        let o = match &m.replies[k] {
            Reply::Return(v) => Outcome::Val(v.copy()),
            Reply::Error(e) => Outcome::Raise(e.copy()),
        };
        m.used = k + 1;
        o
    } else {
        Outcome::Suspend(call)
    }
}

/// Evaluates `args` from left to right.
pub fn eval_args(m: &mut Machine, args: &Vec<Expr>) -> (r: Result<Vec<Value>, Outcome>)
    ensures
        (final(m)@, match r {
            Ok(vs) => Ok(Value::list_view(vs)),
            Err(o) => Err(o@),
        }) == sem_args(old(m)@, *args, args.len() as int),
        final(m).replies == old(m).replies,
        final(m).externals == old(m).externals,
    decreases args, 0int, args.len(),
{
    let mut out: Vec<Value> = Vec::new();
    let mut i: usize = 0;
    assert(Value::list_view(out) =~= Seq::<SpecValue>::empty());
    while i < args.len()
        invariant
            i <= args.len(),
            out.len() == i,
            sem_args(old(m)@, *args, i as int) == (m@, Ok::<Seq<SpecValue>, SpecOutcome>(Value::list_view(out))),
            m.replies == old(m).replies,
            m.externals == old(m).externals,
        decreases args.len() - i,
    {
        proof {
            vstd::std_specs::vec::axiom_vec_index_decreases(*args, i as int);
        }
        let ghost before = out;
        let o = eval_expr(m, &args[i]);
        match o {
            Outcome::Val(v) => {
                out.push(v);
                proof {
                    assert(Value::list_view(out) =~= Value::list_view(before).push(out@[i as int]@));
                }
            },
            _ => {
                proof {
                    lemma_args_stop(old(m)@, *args, i + 1, args.len() as int);
                }
                return Err(o);
            },
        }
        i += 1;
    }
    Ok(out)
}

/// Evaluates `e`, following `sem_expr`.
pub fn eval_expr(m: &mut Machine, e: &Expr) -> (o: Outcome)
    ensures
        (final(m)@, o@) == sem_expr(old(m)@, *e),
        final(m).replies == old(m).replies,
        final(m).externals == old(m).externals,
    decreases e, 1int, 0int,
{
    match e {
        Expr::Constant(v) => Outcome::Val(v.copy()),
        Expr::Name(n) => match env_find(&m.env, n.as_str()) {
            Some(k) => Outcome::Val(m.env[k].1.copy()),
            None => Outcome::Raise(name_failure(n)),
        },
        Expr::List(items) => match eval_args(m, items) {
            Ok(vs) => Outcome::Val(Value::List(vs)),
            Err(o) => o,
        },
        Expr::Op { left, op, right, span } => {
            let a = match eval_expr(m, left) {
                Outcome::Val(a) => a,
                o => {
                    return o;
                },
            };
            let b = match eval_expr(m, right) {
                Outcome::Val(b) => b,
                o => {
                    return o;
                },
            };
            outcome_of(apply_binary(*op, &a, &b, *span))
        },
        Expr::Unary { op, operand, span } => match eval_expr(m, operand) {
            Outcome::Val(a) => outcome_of(apply_unary(*op, &a, *span)),
            o => o,
        },
        Expr::Subscript { object, index, span } => {
            let a = match eval_expr(m, object) {
                Outcome::Val(a) => a,
                o => {
                    return o;
                },
            };
            let b = match eval_expr(m, index) {
                Outcome::Val(b) => b,
                o => {
                    return o;
                },
            };
            outcome_of(index_value(&a, &b, *span))
        },
        Expr::Call { func, args, span } => {
            let b = Builtins::find(func.as_str());
            if b.is_err() && !contains_name(m.externals, func) {
                return Outcome::Raise(name_failure(func));
            }
            let vs = match eval_args(m, args) {
                Ok(vs) => vs,
                Err(o) => {
                    return o;
                },
            };
            match b {
                Ok(b) => {
                    let r = b.call_function(&vs, &mut m.stdout);
                    outcome_of(r)
                },
                Err(_) => resolve(m, Call::External { name: func.clone(), args: vs }),
            }
        },
        Expr::MethodCall { receiver, method, args, span } => {
            let rv = match eval_expr(m, receiver) {
                Outcome::Val(rv) => rv,
                o => {
                    return o;
                },
            };
            match rv {
                Value::Record(_) => {
                    let vs = match eval_args(m, args) {
                        Ok(vs) => vs,
                        Err(o) => {
                            return o;
                        },
                    };
                    resolve(m, Call::Method { receiver: rv, name: method.clone(), args: vs })
                },
                _ => Outcome::Raise(attribute_failure(&rv, method, *span)),
            }
        },
        Expr::Attribute { object, attr, span } => {
            let v = match eval_expr(m, object) {
                Outcome::Val(v) => v,
                o => {
                    return o;
                },
            };
            match &v {
                Value::Record(r) => match env_find(&r.attrs, attr.as_str()) {
                    Some(k) => Outcome::Val(r.attrs[k].1.copy()),
                    None => Outcome::Raise(attribute_failure(&v, attr, *span)),
                },
                _ => Outcome::Raise(attribute_failure(&v, attr, *span)),
            }
        },
    }
}

/// The number of items that `for` walks over `v`, for a value it can walk.
fn item_count(v: &Value) -> (r: Option<u64>)
    ensures
        match r {
            Some(n) => iter_items(v@) is Some && iter_items(v@).unwrap().len() == n,
            None => iter_items(v@) is None,
        },
{
    match v {
        Value::Range(n) => Some(if *n < 0 { 0 } else { *n as u64 }),
        Value::List(xs) => {
            assert(Value::list_view(*xs).len() == xs.len());
            Some(xs.len() as u64)
        },
        Value::Str(s) => Some(s.as_str().unicode_len() as u64),
        _ => None,
    }
}

/// The `k`-th item that `for` walks over `v`.
fn item_at(v: &Value, k: u64) -> (r: Value)
    requires
        iter_items(v@) is Some,
        k < iter_items(v@).unwrap().len(),
    ensures
        r@ == iter_items(v@).unwrap()[k as int],
{
    match v {
        Value::Range(_) => Value::Int(k as i64),
        Value::List(xs) => xs[k as usize].copy(),
        Value::Str(s) => {
            let n = s.as_str().unicode_len();
            let i = k as usize;
            let c = s.as_str().substring_char(i, i + 1);
            assert(c@ =~= seq![s@[k as int]]);
            Value::Str(String::from_str(c))
        },
        _ => Value::NoneValue,
    }
}

fn not_iterable_failure(v: &Value) -> (e: Exception)
    ensures
        e@ == not_iterable(v@),
{
    let mut m = String::from_str("'");
    m.append(v.type_label().as_str());
    m.append("' object is not iterable");
    Exception::new(ExcKind::TypeError, m, None)
}

/// Runs the statements of `body` in order, stopping at the first that does not complete.
pub fn exec_block(m: &mut Machine, body: &Vec<Node>) -> (o: Outcome)
    ensures
        (final(m)@, o@) == sem_block(old(m)@, *body, body.len() as int),
        final(m).replies == old(m).replies,
        final(m).externals == old(m).externals,
    decreases body, 0int, body.len(),
{
    let mut last = Value::NoneValue;
    let mut i: usize = 0;
    while i < body.len()
        invariant
            i <= body.len(),
            sem_block(old(m)@, *body, i as int) == (m@, SpecOutcome::Val(last@)),
            m.replies == old(m).replies,
            m.externals == old(m).externals,
        decreases body.len() - i,
    {
        proof {
            vstd::std_specs::vec::axiom_vec_index_decreases(*body, i as int);
        }
        let o = exec_stmt(m, &body[i]);
        match o {
            Outcome::Val(v) => {
                last = v;
            },
            _ => {
                proof {
                    lemma_block_stop(old(m)@, *body, i + 1, body.len() as int);
                }
                return o;
            },
        }
        i += 1;
    }
    Outcome::Val(last)
}

/// Runs a `for` loop over the items of `v` (a value `for` can walk).
fn exec_for(m: &mut Machine, target: &String, v: &Value, body: &Vec<Node>) -> (o: Outcome)
    requires
        iter_items(v@) is Some,
    ensures
        (final(m)@, o@) == sem_for(old(m)@, target@, iter_items(v@).unwrap(), *body, iter_items(v@).unwrap().len() as int),
        final(m).replies == old(m).replies,
        final(m).externals == old(m).externals,
    decreases body, 1int, 0int,
{
    let ghost items = iter_items(v@).unwrap();
    let count = match item_count(v) {
        Some(n) => n,
        None => 0,
    };
    let mut k: u64 = 0;
    while k < count
        invariant
            iter_items(v@) is Some,
            count == items.len(),
            items == iter_items(v@).unwrap(),
            k <= count,
            sem_for(old(m)@, target@, items, *body, k as int) == (m@, SpecOutcome::Val(SpecValue::NoneValue)),
            m.replies == old(m).replies,
            m.externals == old(m).externals,
        decreases count - k,
    {
        if m.budget == 0 {
            proof {
                lemma_for_stop(old(m)@, target@, items, *body, k + 1, items.len() as int);
            }
            return Outcome::Limit;
        }
        m.budget = m.budget - 1;
        let item = item_at(v, k);
        env_bind(&mut m.env, target, item);
        let o = exec_block(m, body);
        match o {
            Outcome::Val(_) => {},
            _ => {
                proof {
                    lemma_for_stop(old(m)@, target@, items, *body, k + 1, items.len() as int);
                }
                return o;
            },
        }
        k += 1;
    }
    Outcome::Val(Value::NoneValue)
}

/// Runs statement `s`, following `sem_stmt`.
pub fn exec_stmt(m: &mut Machine, s: &Node) -> (o: Outcome)
    ensures
        (final(m)@, o@) == sem_stmt(old(m)@, *s),
        final(m).replies == old(m).replies,
        final(m).externals == old(m).externals,
    decreases s, 2int, 0int,
{
    if m.budget == 0 {
        return Outcome::Limit;
    }
    m.budget = m.budget - 1;
    match s {
        Node::Pass => Outcome::Val(Value::NoneValue),
        Node::Expression(e) => eval_expr(m, e),
        Node::Assign { target, value } => match eval_expr(m, value) {
            Outcome::Val(v) => {
                env_bind(&mut m.env, target, v);
                Outcome::Val(Value::NoneValue)
            },
            o => o,
        },
        Node::AugAssign { target, op, value, span } => match env_find(&m.env, target.as_str()) {
            None => Outcome::Raise(name_failure(target)),
            Some(k) => {
                let cur = m.env[k].1.copy();
                match eval_expr(m, value) {
                    Outcome::Val(v) => match apply_binary(*op, &cur, &v, *span) {
                        Ok(r) => {
                            env_bind(&mut m.env, target, r);
                            Outcome::Val(Value::NoneValue)
                        },
                        Err(e) => Outcome::Raise(e),
                    },
                    o => o,
                }
            },
        },
        Node::If { test, body, or_else } => match eval_expr(m, test) {
            Outcome::Val(v) => {
                let o = if v.is_truthy() {
                    exec_block(m, body)
                } else {
                    exec_block(m, or_else)
                };
                match o {
                    Outcome::Val(_) => Outcome::Val(Value::NoneValue),
                    o => o,
                }
            },
            o => o,
        },
        Node::For { target, iter, body, or_else } => match eval_expr(m, iter) {
            Outcome::Val(v) => {
                if item_count(&v).is_none() {
                    return Outcome::Raise(not_iterable_failure(&v));
                }
                match exec_for(m, target, &v, body) {
                    Outcome::Val(_) => match exec_block(m, or_else) {
                        Outcome::Val(_) => Outcome::Val(Value::NoneValue),
                        o => o,
                    },
                    o => o,
                }
            },
            o => o,
        },
        Node::Raise(e) => match eval_expr(m, e) {
            Outcome::Val(Value::Exc(x)) => Outcome::Raise(x),
            Outcome::Val(_) => Outcome::Raise(
                Exception::new(ExcKind::TypeError, String::from_str("exceptions must derive from BaseException"), None),
            ),
            o => o,
        },
        Node::Unsupported(what) => {
            let mut msg = String::from_str("'");
            msg.append(what.as_str());
            msg.append("' statements are not supported");
            Outcome::Raise(Exception::new(ExcKind::NotImplementedError, msg, None))
        },
    }
}

} // verus!
