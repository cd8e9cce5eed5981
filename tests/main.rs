use monty::ast::{Expr, Node};
use monty::eval::{Call, Outcome, Reply};
use monty::ops::Op;
use monty::run::Program;
use monty::value::{ExcKind, Record, Span, Value};

fn num(i: i64) -> Expr {
    Expr::Constant(Value::Int(i))
}

fn string(s: &str) -> Expr {
    Expr::Constant(Value::Str(s.to_string()))
}

fn op(left: Expr, op: Op, right: Expr) -> Expr {
    Expr::Op { left: Box::new(left), op, right: Box::new(right), span: None }
}

fn program(body: Vec<Node>) -> Program {
    Program::new(vec![], vec![], body)
}

fn point() -> Value {
    Value::Record(Record {
        name: "Point".to_string(),
        type_id: 0,
        field_names: vec!["x".to_string(), "y".to_string()],
        attrs: vec![("x".to_string(), Value::Int(1)), ("y".to_string(), Value::Int(2))],
        frozen: true,
    })
}

/// Test we can reuse exec without borrow checker issues.
#[test]
fn repeat_exec() {
    let ex = program(vec![Node::Expression(op(num(1), Op::Add, num(2)))]);

    let r = ex.run_no_limits(&vec![]);
    assert!(matches!(r.exit, Outcome::Val(Value::Int(3))));

    let r = ex.run_no_limits(&vec![]);
    assert!(matches!(r.exit, Outcome::Val(Value::Int(3))));
}

#[test]
fn test_get_interned_string() {
    let ex = program(vec![Node::Expression(string("foobar"))]);

    let r = ex.run_no_limits(&vec![]);
    match r.exit {
        Outcome::Val(Value::Str(s)) => assert_eq!(s, "foobar"),
        other => panic!("unexpected exit: {:?}", other),
    }

    let r = ex.run_no_limits(&vec![]);
    match r.exit {
        Outcome::Val(Value::Str(s)) => assert_eq!(s, "foobar"),
        other => panic!("unexpected exit: {:?}", other),
    }
}

/// Calling a method on a record in standard execution mode (no host to answer
/// calls) raises a NotImplementedError.
#[test]
fn dataclass_method_call_in_standard_mode_errors() {
    let call = Expr::MethodCall {
        receiver: Box::new(Expr::Name("point".to_string())),
        method: "sum".to_string(),
        args: vec![],
        span: None,
    };
    let ex = Program::new(vec!["point".to_string()], vec![], vec![Node::Expression(call)]);

    let r = ex.run_no_limits(&vec![point()]);
    let msg = match r.exit {
        Outcome::Raise(e) => {
            assert_eq!(e.kind, ExcKind::NotImplementedError);
            e.summary()
        }
        other => panic!("unexpected exit: {:?}", other),
    };
    assert!(
        msg.contains("Method call 'sum' not implemented with standard execution"),
        "Expected NotImplementedError for method call, got: {msg}"
    );
}

#[test]
fn parse_error_add_int_str() {
    let span = Span { start_line: 1, start_col: 1, end_line: 1, end_col: 8 };
    let e = Expr::Op { left: Box::new(num(1)), op: Op::Add, right: Box::new(string("1")), span: Some(span) };
    let r = program(vec![Node::Expression(e)]).run_no_limits(&vec![]);
    match r.exit {
        Outcome::Raise(e) => assert_eq!(
            e.summary(),
            "Exc: (1-1 to 1-8) TypeError: unsupported operand type(s) for +: 'int' and 'str'"
        ),
        other => panic!("unexpected exit: {:?}", other),
    }
}

#[test]
fn execute_ok_add_ints() {
    let r = program(vec![Node::Expression(op(num(1), Op::Add, num(1)))]).run_no_limits(&vec![]);
    assert!(matches!(r.exit, Outcome::Val(Value::Int(2))));
}

#[test]
fn execute_ok_add_strs() {
    let r = program(vec![Node::Expression(op(string("a"), Op::Add, string("b")))]).run_no_limits(&vec![]);
    match r.exit {
        Outcome::Val(Value::Str(s)) => assert_eq!(s, "ab"),
        other => panic!("unexpected exit: {:?}", other),
    }
}

fn thirteens(aug: bool) -> Program {
    let v = || Expr::Name("v".to_string());
    let append = if aug {
        Node::AugAssign { target: "v".to_string(), op: Op::Add, value: string("x"), span: None }
    } else {
        Node::Assign { target: "v".to_string(), value: op(v(), Op::Add, string("x")) }
    };
    let test = op(op(Expr::Name("i".to_string()), Op::Mod, num(13)), Op::Eq, num(0));
    program(vec![
        Node::Assign { target: "v".to_string(), value: string("") },
        Node::For {
            target: "i".to_string(),
            iter: Expr::Call { func: "range".to_string(), args: vec![num(1000)], span: None },
            body: vec![Node::If { test, body: vec![append], or_else: vec![] }],
            or_else: vec![],
        },
        Node::Expression(Expr::Call { func: "len".to_string(), args: vec![v()], span: None }),
    ])
}

#[test]
fn execute_ok_for_loop_str_append_assign_op() {
    let r = thirteens(true).run_no_limits(&vec![]);
    assert!(matches!(r.exit, Outcome::Val(Value::Int(77))));
}

#[test]
fn execute_ok_for_loop_str_append_assign() {
    let r = thirteens(false).run_no_limits(&vec![]);
    assert!(matches!(r.exit, Outcome::Val(Value::Int(77))));
}

#[test]
fn execute_raise_type_error_instance() {
    let e = Expr::Call { func: "TypeError".to_string(), args: vec![string("testing")], span: None };
    let r = program(vec![Node::Raise(e)]).run_no_limits(&vec![]);
    match r.exit {
        Outcome::Raise(e) => {
            assert_eq!(e.kind, ExcKind::TypeError);
            assert_eq!(e.message, "testing");
        }
        other => panic!("unexpected exit: {:?}", other),
    }
}

#[test]
fn external_call_suspends_then_resumes_with_reply() {
    let call = Expr::Call { func: "square".to_string(), args: vec![num(7)], span: None };
    let p = Program::new(vec![], vec!["square".to_string()], vec![Node::Expression(op(call, Op::Add, num(1)))]);
    let first = p.run(&vec![], &vec![], 1000);
    let n = match first.exit {
        Outcome::Suspend(Call::External { name, args }) => {
            assert_eq!(name, "square");
            assert_eq!(args.len(), 1);
            match args[0] {
                Value::Int(n) => n,
                _ => panic!("unexpected argument"),
            }
        }
        other => panic!("unexpected exit: {:?}", other),
    };
    let second = p.run(&vec![], &vec![Reply::Return(Value::Int(n * n))], 1000);
    assert!(matches!(second.exit, Outcome::Val(Value::Int(50))));
}

#[test]
fn external_error_reply_is_raised() {
    let call = Expr::Call { func: "f".to_string(), args: vec![], span: None };
    let p = Program::new(vec![], vec!["f".to_string()], vec![Node::Expression(call)]);
    let err = monty::value::Exception::new(ExcKind::ValueError, "bad".to_string(), None);
    let r = p.run(&vec![], &vec![Reply::Error(err)], 1000);
    match r.exit {
        Outcome::Raise(e) => assert_eq!(e.message, "bad"),
        other => panic!("unexpected exit: {:?}", other),
    }
}

#[test]
fn unknown_function_is_name_error() {
    let call = Expr::Call { func: "nope".to_string(), args: vec![], span: None };
    let r = program(vec![Node::Expression(call)]).run_no_limits(&vec![]);
    match r.exit {
        Outcome::Raise(e) => {
            assert_eq!(e.kind, ExcKind::NameError);
            assert_eq!(e.message, "name 'nope' is not defined");
        }
        other => panic!("unexpected exit: {:?}", other),
    }
}

#[test]
fn print_writes_space_separated_line() {
    let call = Expr::Call {
        func: "print".to_string(),
        args: vec![num(1), string("a"), Expr::List(vec![num(2), string("b")])],
        span: None,
    };
    let r = program(vec![Node::Expression(call)]).run_no_limits(&vec![]);
    assert!(matches!(r.exit, Outcome::Val(Value::NoneValue)));
    assert_eq!(r.stdout, "1 a [2, 'b']\n");
}

#[test]
fn runs_are_repeatable_with_output() {
    let call = Expr::Call { func: "print".to_string(), args: vec![op(num(-7), Op::FloorDiv, num(2))], span: None };
    let p = program(vec![Node::Expression(call), Node::Expression(num(5))]);
    let a = p.run_no_limits(&vec![]);
    let b = p.run_no_limits(&vec![]);
    assert_eq!(a.stdout, "-4\n");
    assert_eq!(a.stdout, b.stdout);
    assert!(matches!(a.exit, Outcome::Val(Value::Int(5))));
    assert!(matches!(b.exit, Outcome::Val(Value::Int(5))));
}

#[test]
fn attribute_read_on_record() {
    let e = Expr::Attribute { object: Box::new(Expr::Name("p".to_string())), attr: "y".to_string(), span: None };
    let p = Program::new(vec!["p".to_string()], vec![], vec![Node::Expression(e)]);
    assert!(matches!(p.run_no_limits(&vec![point()]).exit, Outcome::Val(Value::Int(2))));
    let e = Expr::Attribute { object: Box::new(Expr::Name("p".to_string())), attr: "z".to_string(), span: None };
    let p = Program::new(vec!["p".to_string()], vec![], vec![Node::Expression(e)]);
    match p.run_no_limits(&vec![point()]).exit {
        Outcome::Raise(e) => {
            assert_eq!(e.kind, ExcKind::AttributeError);
            assert_eq!(e.message, "'Point' object has no attribute 'z'");
        }
        other => panic!("unexpected exit: {:?}", other),
    }
}

#[test]
fn method_call_suspends_with_receiver() {
    let call = Expr::MethodCall {
        receiver: Box::new(Expr::Name("point".to_string())),
        method: "sum".to_string(),
        args: vec![num(3)],
        span: None,
    };
    let p = Program::new(vec!["point".to_string()], vec![], vec![Node::Expression(call)]);
    match p.run(&vec![point()], &vec![], 100).exit {
        Outcome::Suspend(Call::Method { receiver, name, args }) => {
            assert_eq!(name, "sum");
            assert!(matches!(receiver, Value::Record(_)));
            assert!(matches!(args[0], Value::Int(3)));
        }
        other => panic!("unexpected exit: {:?}", other),
    }
    let r = p.run(&vec![point()], &vec![Reply::Return(Value::Int(6))], 100);
    assert!(matches!(r.exit, Outcome::Val(Value::Int(6))));
}

#[test]
fn budget_exhaustion_is_limit() {
    let r = thirteens(true).run(&vec![], &vec![], 50);
    assert!(matches!(r.exit, Outcome::Limit));
}

#[test]
fn wrong_argument_count_is_type_error() {
    let p = Program::new(vec!["a".to_string()], vec![], vec![Node::Pass]);
    assert!(matches!(p.run_no_limits(&vec![]).exit, Outcome::Raise(_)));
}

fn count_up() -> Vec<Node> {
    vec![Node::AugAssign { target: "n".to_string(), op: Op::Add, value: num(1), span: None }]
}

#[test]
fn for_over_string_and_list() {
    let p = program(vec![
        Node::Assign { target: "n".to_string(), value: num(0) },
        Node::For { target: "c".to_string(), iter: string("h\u{e9}llo"), body: count_up(), or_else: vec![] },
        Node::For { target: "c".to_string(), iter: Expr::List(vec![num(1), num(2)]), body: count_up(), or_else: vec![] },
        Node::Expression(Expr::Name("n".to_string())),
    ]);
    assert!(matches!(p.run_no_limits(&vec![]).exit, Outcome::Val(Value::Int(7))));
}

#[test]
fn for_over_int_is_type_error() {
    let p = program(vec![Node::For { target: "c".to_string(), iter: num(3), body: vec![], or_else: vec![] }]);
    match p.run_no_limits(&vec![]).exit {
        Outcome::Raise(e) => assert_eq!(e.message, "'int' object is not iterable"),
        other => panic!("unexpected exit: {:?}", other),
    }
}

#[test]
fn unsupported_statement_is_not_implemented() {
    let p = program(vec![Node::Unsupported("while".to_string())]);
    match p.run_no_limits(&vec![]).exit {
        Outcome::Raise(e) => assert_eq!(e.kind, ExcKind::NotImplementedError),
        other => panic!("unexpected exit: {:?}", other),
    }
}
