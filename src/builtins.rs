//! The fixed table of built-in callables.
use vstd::prelude::*;
use crate::display::{decimal, display, push_digits, push_display};
use crate::ops::{exc, result_view};
use crate::value::{text_eq, length_of, type_label, ExcKind, Exception, SpecException, SpecValue, Value};

verus! {

/// A built-in callable.
#[derive(Clone, Copy, Debug, PartialEq, Eq, Structural)]
pub enum Builtins {
    Print,
    Range,
    Len,
    ValueError,
    TypeError,
    NameError,
}

/// The builtin that a name resolves to, if any.
pub open spec fn builtin_named(name: Seq<char>) -> Option<Builtins> {
    if name == "print"@ {
        Some(Builtins::Print)
    } else if name == "range"@ {
        Some(Builtins::Range)
    } else if name == "len"@ {
        Some(Builtins::Len)
    } else if name == "ValueError"@ {
        Some(Builtins::ValueError)
    } else if name == "TypeError"@ {
        Some(Builtins::TypeError)
    } else if name == "NameError"@ {
        Some(Builtins::NameError)
    } else {
        None
    }
}

pub open spec fn builtin_text(b: Builtins) -> Seq<char> {
    match b {
        Builtins::Print => "print"@,
        Builtins::Range => "range"@,
        Builtins::Len => "len"@,
        Builtins::ValueError => "ValueError"@,
        Builtins::TypeError => "TypeError"@,
        Builtins::NameError => "NameError"@,
    }
}

/// The space-separated `str` of the first `n` arguments.
pub open spec fn print_line(args: Seq<SpecValue>, n: int) -> Seq<char>
    decreases n,
{
    if n <= 0 || n > args.len() {
        Seq::empty()
    } else if n == 1 {
        display(args[0])
    } else {
        print_line(args, n - 1) + " "@ + display(args[n - 1])
    }
}

pub open spec fn arity_error(name: Seq<char>, given: int) -> SpecException {
    exc(
        ExcKind::TypeError,
        name + "() takes exactly one argument ("@ + decimal(given) + " given)"@,
        None,
    )
}

/// What calling builtin `b` on `args` returns.
pub open spec fn builtin_result(b: Builtins, args: Seq<SpecValue>) -> Result<SpecValue, SpecException> {
    match b {
        Builtins::Print => Ok(SpecValue::NoneValue),
        _ => if args.len() != 1 {
            Err(arity_error(builtin_text(b), args.len() as int))
        } else {
            let a = args[0];
            match b {
                Builtins::Range => match a {
                    SpecValue::Int(n) => if n < 0 {
                        Err(exc(ExcKind::ValueError, "range() argument must not be negative"@, None))
                    } else {
                        Ok(SpecValue::Range(n))
                    },
                    _ => Err(
                        exc(
                            ExcKind::TypeError,
                            "'"@ + type_label(a) + "' object cannot be interpreted as an integer"@,
                            None,
                        ),
                    ),
                },
                Builtins::Len => match length_of(a) {
                    Some(n) => if n <= i64::MAX {
                        Ok(SpecValue::Int(n))
                    } else {
                        Err(exc(ExcKind::ValueError, "integer overflow"@, None))
                    },
                    None => Err(
                        exc(ExcKind::TypeError, "object of type '"@ + type_label(a) + "' has no len()"@, None),
                    ),
                },
                _ => match a {
                    SpecValue::Str(s) => Ok(
                        SpecValue::Exc(
                            SpecException {
                                kind: match b {
                                    Builtins::ValueError => ExcKind::ValueError,
                                    Builtins::TypeError => ExcKind::TypeError,
                                    _ => ExcKind::NameError,
                                },
                                message: s,
                                span: None,
                            },
                        ),
                    ),
                    _ => Err(
                        exc(ExcKind::TypeError, builtin_text(b) + "() argument must be a str"@, None),
                    ),
                },
            }
        },
    }
}

/// What calling builtin `b` on `args` writes to standard output.
pub open spec fn builtin_output(b: Builtins, args: Seq<SpecValue>) -> Seq<char> {
    match b {
        Builtins::Print => print_line(args, args.len() as int) + "\n"@,
        _ => Seq::empty(),
    }
}

impl Builtins {
    /// The builtin called `name`; an `InternalError` when there is none.
    pub fn find(name: &str) -> (r: Result<Builtins, Exception>)
        ensures
            match r {
                Ok(b) => builtin_named(name@) == Some(b),
                Err(e) => builtin_named(name@).is_none() && e@ == exc(
                    ExcKind::InternalError,
                    "unknown builtin: "@ + name@,
                    None,
                ),
            },
    {
        if text_eq(name, "print") {
            Ok(Builtins::Print)
        } else if text_eq(name, "range") {
            Ok(Builtins::Range)
        } else if text_eq(name, "len") {
            Ok(Builtins::Len)
        } else if text_eq(name, "ValueError") {
            Ok(Builtins::ValueError)
        } else if text_eq(name, "TypeError") {
            Ok(Builtins::TypeError)
        } else if text_eq(name, "NameError") {
            Ok(Builtins::NameError)
        } else {
            let mut m = String::from_str("unknown builtin: ");
            m.append(name);
            Err(Exception::new(ExcKind::InternalError, m, None))
        }
    }

    /// The builtin's name.
    pub fn name(&self) -> (r: &'static str)
        ensures
            r@ == builtin_text(*self),
    {
        match self {
            Builtins::Print => "print",
            Builtins::Range => "range",
            Builtins::Len => "len",
            Builtins::ValueError => "ValueError",
            Builtins::TypeError => "TypeError",
            Builtins::NameError => "NameError",
        }
    }

    /// Whether the builtin has side effects.
    pub fn side_effects(&self) -> (r: bool)
        ensures
            r == (*self == Builtins::Print),
    {
        match self {
            Builtins::Print => true,
            _ => false,
        }
    }

    /// Calls the builtin on evaluated arguments; `print` writes to `out`.
    pub fn call_function(&self, args: &Vec<Value>, out: &mut String) -> (r: Result<Value, Exception>)
        ensures
            result_view(r) == builtin_result(*self, Value::list_view(*args)),
            final(out)@ == old(out)@ + builtin_output(*self, Value::list_view(*args)),
    {
        let ghost xs = Value::list_view(*args);
        assert(xs.len() == args.len());
        match self {
            Builtins::Print => {
                let ghost start = out@;
                let mut i: usize = 0;
                while i < args.len()
                    invariant
                        i <= args.len() == xs.len(),
                        xs == Value::list_view(*args),
                        out@ == start + print_line(xs, i as int),
                    decreases args.len() - i,
                {
                    if i > 0 {
                        out.append(" ");
                    }
                    push_display(out, &args[i]);
                    proof {
                        assert(out@ =~= start + print_line(xs, i + 1));
                    }
                    i += 1;
                }
                out.append("\n");
                proof {
                    assert(out@ =~= start + builtin_output(*self, xs));
                }
                Ok(Value::NoneValue)
            },
            _ => {
                let a = one_arg(self.name(), args)?;
                match self {
                    Builtins::Range => match a {
                        Value::Int(n) => if n < 0 {
                            Err(Exception::new(ExcKind::ValueError, String::from_str("range() argument must not be negative"), None))
                        } else {
                            Ok(Value::Range(n))
                        },
                        _ => {
                            let mut m = String::from_str("'");
                            m.append(a.type_label().as_str());
                            m.append("' object cannot be interpreted as an integer");
                            Err(Exception::new(ExcKind::TypeError, m, None))
                        },
                    },
                    Builtins::Len => match a.len() {
                        Some(n) => Ok(Value::Int(n)),
                        None => if a.is_sized() {
                            Err(Exception::new(ExcKind::ValueError, String::from_str("integer overflow"), None))
                        } else {
                            let mut m = String::from_str("object of type '");
                            m.append(a.type_label().as_str());
                            m.append("' has no len()");
                            Err(Exception::new(ExcKind::TypeError, m, None))
                        },
                    },
                    _ => match a {
                        Value::Str(s) => {
                            let kind = match self {
                                Builtins::ValueError => ExcKind::ValueError,
                                Builtins::TypeError => ExcKind::TypeError,
                                _ => ExcKind::NameError,
                            };
                            Ok(Value::Exc(Exception::new(kind, s, None)))
                        },
                        _ => {
                            let mut m = String::from_str(self.name());
                            m.append("() argument must be a str");
                            Err(Exception::new(ExcKind::TypeError, m, None))
                        },
                    },
                }
            },
        }
    }
}

/// The single argument of a call to `name`; a `TypeError` unless exactly one was given.
pub fn one_arg(name: &str, args: &Vec<Value>) -> (r: Result<Value, Exception>)
    ensures
        match r {
            Ok(v) => args.len() == 1 && v@ == args@[0]@,
            Err(e) => args.len() != 1 && e@ == arity_error(name@, args.len() as int),
        },
{
    if args.len() != 1 {
        let mut m = String::from_str(name);
        m.append("() takes exactly one argument (");
        push_digits(&mut m, args.len() as u64);
        m.append(" given)");
        Err(Exception::new(ExcKind::TypeError, m, None))
    } else {
        let v = args[0].copy();
        assert(v@ == args@[0]@);
        Ok(v)
    }
}

} // verus!
