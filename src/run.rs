//! Programs and the run entry points: bind the arguments, run the body under
//! a statement budget, and report how the run ended.
use vstd::prelude::*;
use crate::ast::Node;
use crate::eval::{
    bind, env_bind, exec_block, replies_view, sem_block, Call, Env, Machine, Outcome, Reply, SpecCall,
    SpecMachine, SpecOutcome, SpecReply,
};
use crate::ops::exc;
use crate::value::{names_view, ExcKind, Exception, SpecException, SpecValue, Value};

verus! {

/// A compiled program: its argument names, the names of the external
/// functions it may call, and its statements. It can be run any number of
/// times; each run starts from fresh variables.
pub struct Program {
    pub arg_names: Vec<String>,
    pub externals: Vec<String>,
    pub body: Vec<Node>,
}

/// What a run printed and how it ended: `Val` is the value of the last
/// statement (`None` unless it is an expression).
pub struct RunOutput {
    pub exit: Outcome,
    pub stdout: String,
}

/// The variables at the start of a run: the first `n` arguments bound to their names.
pub open spec fn initial_env(names: Seq<Seq<char>>, args: Seq<SpecValue>, n: int) -> Env
    decreases n,
{
    if n <= 0 || n > names.len() || n > args.len() {
        Seq::empty()
    } else {
        bind(initial_env(names, args, n - 1), names[n - 1], args[n - 1])
    }
}

pub open spec fn arguments_error() -> SpecException {
    exc(ExcKind::TypeError, "wrong number of arguments"@, None)
}

/// What running `p` on `args`, with `replies` to its first suspended calls
/// and a budget of `budget` statements, prints and how it ends.
pub open spec fn spec_run(p: Program, args: Seq<SpecValue>, replies: Seq<SpecReply>, budget: int) -> (
    Seq<char>,
    SpecOutcome,
) {
    if args.len() != p.arg_names.len() {
        (Seq::empty(), SpecOutcome::Raise(arguments_error()))
    } else {
        let m = SpecMachine {
            env: initial_env(names_view(p.arg_names), args, args.len() as int),
            stdout: Seq::empty(),
            replies,
            used: 0,
            budget,
            externals: names_view(p.externals),
        };
        let (m2, o) = sem_block(m, p.body, p.body.len() as int);
        (m2.stdout, o)
    }
}

pub open spec fn method_error(name: Seq<char>) -> SpecException {
    exc(
        ExcKind::NotImplementedError,
        "Method call '"@ + name + "' not implemented with standard execution"@,
        None,
    )
}

/// A run without a host to answer calls: a method call becomes a `NotImplementedError`.
pub open spec fn standard_exit(o: SpecOutcome) -> SpecOutcome {
    match o {
        SpecOutcome::Suspend(SpecCall::Method { name, .. }) => SpecOutcome::Raise(method_error(name)),
        _ => o,
    }
}

impl Program {
    pub fn new(arg_names: Vec<String>, externals: Vec<String>, body: Vec<Node>) -> (r: Program)
        ensures
            r.arg_names == arg_names,
            r.externals == externals,
            r.body == body,
    {
        Program { arg_names, externals, body }
    }

    /// Runs the program on `args`; calls are answered from `replies` in order
    /// until they run out, and the run suspends at the next one.
    pub fn run(&self, args: &Vec<Value>, replies: &Vec<Reply>, budget: u64) -> (r: RunOutput)
        ensures
            (r.stdout@, r.exit@) == spec_run(*self, Value::list_view(*args), replies_view(replies@), budget as int),
    {
        let ghost av = Value::list_view(*args);
        assert(av.len() == args.len());
        if args.len() != self.arg_names.len() {
            return RunOutput {
                exit: Outcome::Raise(
                    Exception::new(ExcKind::TypeError, String::from_str("wrong number of arguments"), None),
                ),
                stdout: String::new(),
            };
        }
        let mut env: Vec<(String, Value)> = Vec::new();
        let mut i: usize = 0;
        assert(Value::attrs_view(env) =~= initial_env(names_view(self.arg_names), av, 0));
        while i < args.len()
            invariant
                i <= args.len() == self.arg_names.len() == av.len(),
                av == Value::list_view(*args),
                Value::attrs_view(env) == initial_env(names_view(self.arg_names), av, i as int),
            decreases args.len() - i,
        {
            env_bind(&mut env, &self.arg_names[i], args[i].copy());
            i += 1;
        }
        let mut m = Machine {
            env,
            stdout: String::new(),
            replies,
            used: 0,
            budget,
            externals: &self.externals,
        };
        let exit = exec_block(&mut m, &self.body);
        RunOutput { exit, stdout: m.stdout }
    }

    /// Runs the program with no host to answer calls and no statement limit:
    /// a method call on a record raises `NotImplementedError`.
    pub fn run_no_limits(&self, args: &Vec<Value>) -> (r: RunOutput)
        ensures
            ({
                let (out, o) = spec_run(*self, Value::list_view(*args), Seq::empty(), u64::MAX as int);
                r.stdout@ == out && r.exit@ == standard_exit(o)
            }),
    {
        let replies: Vec<Reply> = Vec::new();
        assert(replies_view(replies@) =~= Seq::<SpecReply>::empty());
        let r = self.run(args, &replies, u64::MAX);
        match r.exit {
            Outcome::Suspend(Call::Method { name, .. }) => {
                let mut msg = String::from_str("Method call '");
                msg.append(name.as_str());
                msg.append("' not implemented with standard execution");
                RunOutput {
                    exit: Outcome::Raise(Exception::new(ExcKind::NotImplementedError, msg, None)),
                    stdout: r.stdout,
                }
            },
            exit => RunOutput { exit, stdout: r.stdout },
        }
    }
}

} // verus!
