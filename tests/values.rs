use monty::builtins::{one_arg, Builtins};
use monty::display::{display_value, repr_value};
use monty::ops::{apply_binary, apply_unary, compare_strings, equal, floordiv_mod, index_value, Op, UnaryOp};
use monty::records::{constructor_kwargs, set_attr, unknown_record_repr, unknown_records_equal, DcRegistry};
use monty::value::{ExcKind, Record, Value};

fn s(x: &str) -> Value {
    Value::Str(x.to_string())
}

fn record(frozen: bool) -> Record {
    Record {
        name: "Point".to_string(),
        type_id: 7,
        field_names: vec!["x".to_string(), "y".to_string()],
        attrs: vec![("x".to_string(), Value::Int(1)), ("y".to_string(), s("a")), ("extra".to_string(), Value::Int(9))],
        frozen,
    }
}

#[test]
fn integer_arithmetic() {
    assert!(matches!(apply_binary(Op::Sub, &Value::Int(3), &Value::Int(5), None), Ok(Value::Int(-2))));
    assert!(matches!(apply_binary(Op::Mult, &Value::Int(-4), &Value::Int(5), None), Ok(Value::Int(-20))));
    assert!(matches!(apply_binary(Op::Add, &Value::Bool(true), &Value::Int(5), None), Ok(Value::Int(6))));
}

#[test]
fn floor_division_and_modulo_follow_python() {
    assert_eq!(floordiv_mod(-7, 2), (-4, 1));
    assert_eq!(floordiv_mod(7, -2), (-4, -1));
    assert_eq!(floordiv_mod(-7, -2), (3, -1));
    assert_eq!(floordiv_mod(7, 2), (3, 1));
    assert_eq!(floordiv_mod(-6, 3), (-2, 0));
    assert!(matches!(apply_binary(Op::Mod, &Value::Int(-7), &Value::Int(2), None), Ok(Value::Int(1))));
}

#[test]
fn overflow_raises() {
    match apply_binary(Op::Add, &Value::Int(i64::MAX), &Value::Int(1), None) {
        Err(e) => assert_eq!(e.message, "integer overflow"),
        Ok(v) => panic!("unexpected value {:?}", v),
    }
    assert!(apply_binary(Op::FloorDiv, &Value::Int(i64::MIN), &Value::Int(-1), None).is_err());
}

#[test]
fn division_by_zero_raises() {
    match apply_binary(Op::FloorDiv, &Value::Int(1), &Value::Int(0), None) {
        Err(e) => {
            assert_eq!(e.kind, ExcKind::ZeroDivisionError);
            assert_eq!(e.message, "division by zero");
        }
        Ok(v) => panic!("unexpected value {:?}", v),
    }
}

#[test]
fn concatenation_length_adds_up() {
    match apply_binary(Op::Add, &s("ab"), &s("cde"), None) {
        Ok(v) => assert_eq!(v.len(), Some(5)),
        Err(e) => panic!("unexpected error {:?}", e),
    }
    let l1 = Value::List(vec![Value::Int(1)]);
    let l2 = Value::List(vec![Value::Int(2), Value::NoneValue]);
    match apply_binary(Op::Add, &l1, &l2, None) {
        Ok(v) => {
            assert_eq!(v.len(), Some(3));
            assert_eq!(display_value(&v), "[1, 2, None]");
        }
        Err(e) => panic!("unexpected error {:?}", e),
    }
}

#[test]
fn ordering_is_trichotomous() {
    let pairs = [(s("abc"), s("abd")), (s("b"), s("b")), (Value::Int(3), Value::Int(-1)), (s("ab"), s("a"))];
    for (a, b) in pairs.iter() {
        let lt = matches!(apply_binary(Op::Lt, a, b, None), Ok(Value::Bool(true)));
        let eq = matches!(apply_binary(Op::Eq, a, b, None), Ok(Value::Bool(true)));
        let gt = matches!(apply_binary(Op::Gt, a, b, None), Ok(Value::Bool(true)));
        assert_eq!([lt, eq, gt].iter().filter(|x| **x).count(), 1);
    }
    assert_eq!(compare_strings(&"abc".to_string(), &"abd".to_string()), -1);
}

#[test]
fn comparison_type_error() {
    match apply_binary(Op::Lt, &Value::Int(1), &s("a"), None) {
        Err(e) => assert_eq!(e.message, "'<' not supported between instances of 'int' and 'str'"),
        Ok(v) => panic!("unexpected value {:?}", v),
    }
}

#[test]
fn equality_is_structural() {
    let a = Value::List(vec![Value::Int(1), s("x")]);
    let b = Value::List(vec![Value::Bool(true), s("x")]);
    assert!(equal(&a, &b));
    assert!(!equal(&a, &Value::List(vec![Value::Int(1)])));
    assert!(!equal(&Value::NoneValue, &Value::Int(0)));
    assert!(matches!(apply_binary(Op::NotEq, &s("a"), &s("b"), None), Ok(Value::Bool(true))));
}

#[test]
fn builtin_lookup() {
    assert_eq!(Builtins::find("len").unwrap(), Builtins::Len);
    assert!(Builtins::find("print").unwrap().side_effects());
    assert!(!Builtins::Range.side_effects());
    match Builtins::find("open") {
        Err(e) => {
            assert_eq!(e.kind, ExcKind::InternalError);
            assert_eq!(e.message, "unknown builtin: open");
        }
        Ok(b) => panic!("unexpected builtin {:?}", b),
    }
}

#[test]
fn builtin_errors() {
    let mut out = String::new();
    match Builtins::Len.call_function(&vec![Value::Int(1)], &mut out) {
        Err(e) => assert_eq!(e.message, "object of type 'int' has no len()"),
        Ok(v) => panic!("unexpected value {:?}", v),
    }
    match Builtins::Range.call_function(&vec![Value::Int(-1)], &mut out) {
        Err(e) => assert_eq!(e.kind, ExcKind::ValueError),
        Ok(v) => panic!("unexpected value {:?}", v),
    }
    match one_arg("len", &vec![Value::Int(1), Value::Int(2)]) {
        Err(e) => assert_eq!(e.message, "len() takes exactly one argument (2 given)"),
        Ok(v) => panic!("unexpected value {:?}", v),
    }
    match Builtins::ValueError.call_function(&vec![s("boom")], &mut out) {
        Ok(Value::Exc(e)) => {
            assert_eq!(e.kind, ExcKind::ValueError);
            assert_eq!(e.message, "boom");
        }
        other => panic!("unexpected result {:?}", other),
    }
    assert_eq!(out, "");
}

#[test]
fn builtin_len_of_range_and_string() {
    let mut out = String::new();
    assert!(matches!(Builtins::Len.call_function(&vec![Value::Range(4)], &mut out), Ok(Value::Int(4))));
    assert!(matches!(Builtins::Len.call_function(&vec![s("h\u{e9}")], &mut out), Ok(Value::Int(2))));
}

#[test]
fn display_and_repr() {
    assert_eq!(display_value(&Value::Int(-120)), "-120");
    assert_eq!(display_value(&Value::Bool(false)), "False");
    assert_eq!(repr_value(&s("q")), "'q'");
    assert_eq!(display_value(&Value::Range(3)), "range(0, 3)");
    assert_eq!(display_value(&Value::Record(record(true))), "Point(x=1, y='a', extra=9)");
}

#[test]
fn constructor_kwargs_drop_extra_attrs() {
    let kw = constructor_kwargs(&record(true));
    assert_eq!(kw.len(), 2);
    assert_eq!(kw[0].0, "x");
    assert_eq!(kw[1].0, "y");
}

#[test]
fn record_round_trip_keeps_fields() {
    let r = Record::from_fields(
        "Point".to_string(),
        3,
        vec!["x".to_string(), "y".to_string()],
        vec![Value::Int(1), Value::Int(2)],
        true,
    );
    let kw = constructor_kwargs(&r);
    assert_eq!(kw.len(), 2);
    assert!(matches!(kw[1].1, Value::Int(2)));
    assert!(equal(&Value::Record(r), &Value::Record(Record::from_fields(
        "Point".to_string(),
        3,
        vec!["x".to_string(), "y".to_string()],
        vec![Value::Int(1), Value::Int(2)],
        true,
    ))));
}

#[test]
fn unknown_record_text() {
    assert_eq!(unknown_record_repr(&record(true)), "<Unknown Record Point(x=1, y='a')>");
    assert!(unknown_records_equal(&record(true), &record(false)));
    let mut other = record(true);
    other.name = "Other".to_string();
    assert!(!unknown_records_equal(&record(true), &other));
}

#[test]
fn frozen_records_refuse_assignment() {
    let mut r = record(true);
    match set_attr(&mut r, &"x".to_string(), Value::Int(5)) {
        Err(e) => assert_eq!(e.message, "cannot assign to field 'x'"),
        Ok(()) => panic!("assignment allowed"),
    }
    let mut r = record(false);
    assert!(set_attr(&mut r, &"z".to_string(), Value::Int(5)).is_ok());
    assert_eq!(r.attrs.len(), 4);
    assert!(set_attr(&mut r, &"x".to_string(), Value::Int(6)).is_ok());
    assert!(matches!(r.attrs[0].1, Value::Int(6)));
}

#[test]
fn registry_insert_and_get() {
    let mut reg: DcRegistry<&str> = DcRegistry::new();
    assert!(reg.get(1).is_none());
    reg.insert(1, "A");
    reg.insert(1, "B");
    assert_eq!(reg.get(1), Some(&"B"));
    let reg = DcRegistry::from_list(vec![(2, "C"), (3, "D"), (2, "E")]);
    assert_eq!(reg.get(2), Some(&"E"));
    assert_eq!(reg.get(3), Some(&"D"));
    assert!(reg.get(4).is_none());
}

#[test]
fn unary_operators() {
    assert!(matches!(apply_unary(UnaryOp::Neg, &Value::Int(5), None), Ok(Value::Int(-5))));
    assert!(matches!(apply_unary(UnaryOp::Not, &s(""), None), Ok(Value::Bool(true))));
    assert!(matches!(apply_unary(UnaryOp::Pos, &Value::Bool(true), None), Ok(Value::Int(1))));
    assert!(apply_unary(UnaryOp::Neg, &Value::Int(i64::MIN), None).is_err());
    match apply_unary(UnaryOp::Neg, &s("a"), None) {
        Err(e) => assert_eq!(e.message, "bad operand type for unary -: 'str'"),
        Ok(v) => panic!("unexpected value {:?}", v),
    }
}

#[test]
fn subscripts_wrap_and_check_bounds() {
    let l = Value::List(vec![Value::Int(10), Value::Int(20), Value::Int(30)]);
    assert!(matches!(index_value(&l, &Value::Int(-1), None), Ok(Value::Int(30))));
    assert!(matches!(index_value(&l, &Value::Int(0), None), Ok(Value::Int(10))));
    match index_value(&l, &Value::Int(3), None) {
        Err(e) => assert_eq!(e.message, "list index out of range"),
        Ok(v) => panic!("unexpected value {:?}", v),
    }
    assert!(index_value(&l, &Value::Int(-4), None).is_err());
    match index_value(&s("h\u{e9}y"), &Value::Int(-2), None) {
        Ok(Value::Str(c)) => assert_eq!(c, "\u{e9}"),
        other => panic!("unexpected result {:?}", other),
    }
    match index_value(&Value::Int(1), &Value::Int(0), None) {
        Err(e) => assert_eq!(e.message, "'int' object is not subscriptable"),
        Ok(v) => panic!("unexpected value {:?}", v),
    }
}

#[test]
fn lists_order_lexicographically() {
    let a = Value::List(vec![Value::Int(1), s("b")]);
    let b = Value::List(vec![Value::Int(1), s("c")]);
    let c = Value::List(vec![Value::Int(1)]);
    assert!(matches!(apply_binary(Op::Lt, &a, &b, None), Ok(Value::Bool(true))));
    assert!(matches!(apply_binary(Op::Gt, &a, &c, None), Ok(Value::Bool(true))));
    assert!(matches!(apply_binary(Op::LtE, &c, &c, None), Ok(Value::Bool(true))));
    let d = Value::List(vec![s("x")]);
    assert!(apply_binary(Op::Lt, &c, &d, None).is_err());
}
