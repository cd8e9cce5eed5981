//! Binary operators on values: checked integer arithmetic, Python's floor
//! division and modulo, string and list concatenation, structural equality
//! and ordering.
use vstd::prelude::*;
use crate::value::{ExcKind, Exception, Span, SpecException, SpecValue, Value, type_label};

verus! {

/// A binary operator of the language.
#[derive(Clone, Copy, Debug, PartialEq, Eq, Structural)]
pub enum Op {
    Add,
    Sub,
    Mult,
    Div,
    FloorDiv,
    Mod,
    Eq,
    NotEq,
    Lt,
    LtE,
    Gt,
    GtE,
}

/// A unary operator of the language.
#[derive(Clone, Copy, Debug, PartialEq, Eq, Structural)]
pub enum UnaryOp {
    Not,
    Neg,
    Pos,
}

/// The model of an operation's outcome.
pub open spec fn result_view(r: Result<Value, Exception>) -> Result<SpecValue, SpecException> {
    match r {
        Ok(v) => Ok(v@),
        Err(e) => Err(e@),
    }
}

pub open spec fn op_symbol(op: Op) -> Seq<char> {
    match op {
        Op::Add => "+"@,
        Op::Sub => "-"@,
        Op::Mult => "*"@,
        Op::Div => "/"@,
        Op::FloorDiv => "//"@,
        Op::Mod => "%"@,
        Op::Eq => "=="@,
        Op::NotEq => "!="@,
        Op::Lt => "<"@,
        Op::LtE => "<="@,
        Op::Gt => ">"@,
        Op::GtE => ">="@,
    }
}

/// The integer that a number stands for in arithmetic: booleans count as 0 and 1.
pub open spec fn num_of(v: SpecValue) -> Option<int> {
    match v {
        SpecValue::Int(i) => Some(i),
        SpecValue::Bool(b) => Some(if b { 1int } else { 0int }),
        _ => None,
    }
}

pub open spec fn fits_i64(i: int) -> bool {
    i64::MIN <= i <= i64::MAX
}

/// Python's modulo: the remainder takes the sign of the divisor.
pub open spec fn py_mod(a: int, b: int) -> int {
    let r = abs(a) % abs(b);
    if r == 0 {
        0
    } else if (a < 0) == (b < 0) {
        if b < 0 { -r } else { r }
    } else {
        if b < 0 { r - abs(b) } else { abs(b) - r }
    }
}

/// Python's floor division: the quotient rounded towards negative infinity.
pub open spec fn py_floordiv(a: int, b: int) -> int {
    let q = abs(a) / abs(b);
    if (a < 0) == (b < 0) {
        q
    } else if abs(a) % abs(b) == 0 {
        -q
    } else {
        -q - 1
    }
}

pub open spec fn abs(a: int) -> int {
    if a < 0 { -a } else { a }
}

pub open spec fn exc(kind: ExcKind, message: Seq<char>, span: Option<Span>) -> SpecException {
    SpecException { kind, message, span }
}

pub open spec fn operand_error(op: Op, l: SpecValue, r: SpecValue, span: Option<Span>) -> SpecException {
    exc(
        ExcKind::TypeError,
        "unsupported operand type(s) for "@ + op_symbol(op) + ": '"@ + type_label(l) + "' and '"@
            + type_label(r) + "'"@,
        span,
    )
}

pub open spec fn compare_error(op: Op, l: SpecValue, r: SpecValue, span: Option<Span>) -> SpecException {
    exc(
        ExcKind::TypeError,
        "'"@ + op_symbol(op) + "' not supported between instances of '"@ + type_label(l) + "' and '"@
            + type_label(r) + "'"@,
        span,
    )
}

pub open spec fn overflow_error(span: Option<Span>) -> SpecException {
    exc(ExcKind::ValueError, "integer overflow"@, span)
}

pub open spec fn int_result(i: int, span: Option<Span>) -> Result<SpecValue, SpecException> {
    if fits_i64(i) {
        Ok(SpecValue::Int(i))
    } else {
        Err(overflow_error(span))
    }
}

/// Structural equality of two values, with numbers compared by value.
pub open spec fn values_equal(a: SpecValue, b: SpecValue) -> bool
    decreases a, 0int, 0int,
{
    if num_of(a).is_some() && num_of(b).is_some() {
        num_of(a) == num_of(b)
    } else {
        match (a, b) {
            (SpecValue::Str(x), SpecValue::Str(y)) => x == y,
            (SpecValue::NoneValue, SpecValue::NoneValue) => true,
            (SpecValue::Range(x), SpecValue::Range(y)) => x == y,
            (SpecValue::List(x), SpecValue::List(y)) => x.len() == y.len() && seqs_equal(x, y, 0),
            (SpecValue::Record(x), SpecValue::Record(y)) => x.name == y.name && x.attrs.len()
                == y.attrs.len() && attrs_equal(x.attrs, y.attrs, 0),
            (SpecValue::Exc(x), SpecValue::Exc(y)) => x.kind == y.kind && x.message == y.message,
            _ => false,
        }
    }
}

/// Element-wise equality of `x` and `y` from index `i` on (`y` at least as long as `x`).
pub open spec fn seqs_equal(x: Seq<SpecValue>, y: Seq<SpecValue>, i: int) -> bool
    decreases x, 1int, x.len() - i,
{
    if i < 0 || i >= x.len() || i >= y.len() {
        true
    } else {
        values_equal(x[i], y[i]) && seqs_equal(x, y, i + 1)
    }
}

/// Entry-wise equality of two ordered attribute maps from index `i` on.
pub open spec fn attrs_equal(x: Seq<(Seq<char>, SpecValue)>, y: Seq<(Seq<char>, SpecValue)>, i: int) -> bool
    decreases x, 2int, x.len() - i,
{
    if i < 0 || i >= x.len() || i >= y.len() {
        true
    } else {
        x[i].0 == y[i].0 && values_equal(x[i].1, y[i].1) && attrs_equal(x, y, i + 1)
    }
}

/// Lexicographic comparison of two strings from index `i` on: -1, 0 or 1.
pub open spec fn compare_chars(x: Seq<char>, y: Seq<char>, i: int) -> int
    decreases x.len() - i,
{
    if i < 0 || i >= x.len() {
        if i >= 0 && i < y.len() { -1 } else { 0 }
    } else if i >= y.len() {
        1
    } else if x[i] != y[i] {
        if (x[i] as u32) < (y[i] as u32) { -1 } else { 1 }
    } else {
        compare_chars(x, y, i + 1)
    }
}

/// The three-way comparison of two ordered values, if they can be ordered:
/// numbers by value, strings and lists lexicographically.
pub open spec fn compare_values(a: SpecValue, b: SpecValue) -> Option<int>
    decreases a, 1int, 0int,
{
    if num_of(a).is_some() && num_of(b).is_some() {
        let (x, y) = (num_of(a).unwrap(), num_of(b).unwrap());
        Some(if x < y { -1int } else if x == y { 0 } else { 1 })
    } else {
        match (a, b) {
            (SpecValue::Str(x), SpecValue::Str(y)) => Some(compare_chars(x, y, 0)),
            (SpecValue::List(x), SpecValue::List(y)) => compare_lists(x, y, 0),
            _ => None,
        }
    }
}

/// Lexicographic comparison of two lists from index `i` on: the first pair of
/// unequal items decides, else the shorter list is the smaller.
pub open spec fn compare_lists(x: Seq<SpecValue>, y: Seq<SpecValue>, i: int) -> Option<int>
    decreases x, 0int, x.len() - i,
{
    if i < 0 || i >= x.len() || i >= y.len() {
        Some(if x.len() < y.len() { -1int } else if x.len() == y.len() { 0 } else { 1 })
    } else if values_equal(x[i], y[i]) {
        compare_lists(x, y, i + 1)
    } else {
        compare_values(x[i], y[i])
    }
}

pub open spec fn order_holds(op: Op, c: int) -> bool {
    match op {
        Op::Lt => c < 0,
        Op::LtE => c <= 0,
        Op::Gt => c > 0,
        _ => c >= 0,
    }
}

/// What `l op r` evaluates to.
pub open spec fn binary_op(op: Op, l: SpecValue, r: SpecValue, span: Option<Span>) -> Result<
    SpecValue,
    SpecException,
> {
    let nums = num_of(l).is_some() && num_of(r).is_some();
    let (a, b) = (num_of(l).unwrap(), num_of(r).unwrap());
    match op {
        Op::Add => if nums {
            int_result(a + b, span)
        } else {
            match (l, r) {
                (SpecValue::Str(x), SpecValue::Str(y)) => Ok(SpecValue::Str(x + y)),
                (SpecValue::List(x), SpecValue::List(y)) => Ok(SpecValue::List(x + y)),
                _ => Err(operand_error(op, l, r, span)),
            }
        },
        Op::Sub => if nums { int_result(a - b, span) } else { Err(operand_error(op, l, r, span)) },
        Op::Mult => if nums { int_result(a * b, span) } else { Err(operand_error(op, l, r, span)) },
        Op::Div | Op::FloorDiv | Op::Mod => if !nums {
            Err(operand_error(op, l, r, span))
        } else if b == 0 {
            Err(exc(ExcKind::ZeroDivisionError, "division by zero"@, span))
        } else {
            match op {
                Op::FloorDiv => int_result(py_floordiv(a, b), span),
                Op::Mod => int_result(py_mod(a, b), span),
                _ => Err(exc(ExcKind::NotImplementedError, "true division is not supported"@, span)),
            }
        },
        Op::Eq => Ok(SpecValue::Bool(values_equal(l, r))),
        Op::NotEq => Ok(SpecValue::Bool(!values_equal(l, r))),
        _ => match compare_values(l, r) {
            Some(c) => Ok(SpecValue::Bool(order_holds(op, c))),
            None => Err(compare_error(op, l, r, span)),
        },
    }
}

pub fn symbol(op: Op) -> (r: &'static str)
    ensures
        r@ == op_symbol(op),
{
    match op {
        Op::Add => "+",
        Op::Sub => "-",
        Op::Mult => "*",
        Op::Div => "/",
        Op::FloorDiv => "//",
        Op::Mod => "%",
        Op::Eq => "==",
        Op::NotEq => "!=",
        Op::Lt => "<",
        Op::LtE => "<=",
        Op::Gt => ">",
        Op::GtE => ">=",
    }
}

fn num(v: &Value) -> (r: Option<i64>)
    ensures
        match r {
            Some(i) => num_of(v@) == Some(i as int),
            None => num_of(v@).is_none(),
        },
{
    match v {
        Value::Int(i) => Some(*i),
        Value::Bool(b) => Some(if *b { 1i64 } else { 0i64 }),
        _ => None,
    }
}

fn type_mismatch(prefix: &str, op: Op, middle: &str, l: &Value, r: &Value, span: Option<Span>) -> (e: Exception)
    ensures
        e@ == exc(
            ExcKind::TypeError,
            prefix@ + op_symbol(op) + middle@ + type_label(l@) + "' and '"@ + type_label(r@) + "'"@,
            span,
        ),
{
    let mut m = String::from_str(prefix);
    m.append(symbol(op));
    m.append(middle);
    m.append(l.type_label().as_str());
    m.append("' and '");
    m.append(r.type_label().as_str());
    m.append("'");
    Exception::new(ExcKind::TypeError, m, span)
}

fn checked(i: i128, span: Option<Span>) -> (r: Result<Value, Exception>)
    ensures
        result_view(r) == int_result(i as int, span),
{
    if i < i64::MIN as i128 || i > i64::MAX as i128 {
        Err(Exception::new(ExcKind::ValueError, String::from_str("integer overflow"), span))
    } else {
        Ok(Value::Int(i as i64))
    }
}

fn magnitude(a: i64) -> (r: u128)
    ensures
        r as int == abs(a as int),
{
    if a < 0 { (-(a as i128)) as u128 } else { a as u128 }
}

/// Python's floor division and modulo of two integers, `b` not zero.
pub fn floordiv_mod(a: i64, b: i64) -> (r: (i128, i128))
    requires
        b != 0,
    ensures
        r.0 as int == py_floordiv(a as int, b as int),
        r.1 as int == py_mod(a as int, b as int),
{
    let ua = magnitude(a);
    let ub = magnitude(b);
    let q = ua / ub;
    let m = ua % ub;
    proof {
        assert(q as int <= ua as int) by (nonlinear_arith)
            requires q as int == ua as int / ub as int, ub as int >= 1, ua as int >= 0;
        assert(m < ub);
    }
    let qi = q as i128;
    let mi = m as i128;
    let bi = ub as i128;
    if (a < 0) == (b < 0) {
        (qi, if b < 0 { -mi } else { mi })
    } else if m == 0 {
        (-qi, 0)
    } else {
        (-qi - 1, if b < 0 { mi - bi } else { bi - mi })
    }
}

/// Whether two values are equal, numbers by value, containers element-wise.
pub fn equal(a: &Value, b: &Value) -> (r: bool)
    ensures
        r == values_equal(a@, b@),
    decreases a, 0int, 0int,
{
    match (num(a), num(b)) {
        (Some(x), Some(y)) => return x == y,
        _ => {},
    }
    match (a, b) {
        (Value::Str(x), Value::Str(y)) => x.eq(y),
        (Value::NoneValue, Value::NoneValue) => true,
        (Value::Range(x), Value::Range(y)) => x == y,
        (Value::List(x), Value::List(y)) => {
            proof {
                assert(Value::list_view(*x).len() == x.len());
                assert(Value::list_view(*y).len() == y.len());
            }
            x.len() == y.len() && lists_equal(x, y)
        },
        (Value::Record(x), Value::Record(y)) => {
            proof {
                assert(Value::attrs_view(x.attrs).len() == x.attrs.len());
                assert(Value::attrs_view(y.attrs).len() == y.attrs.len());
            }
            x.name == y.name && x.attrs.len() == y.attrs.len() && attr_lists_equal(&x.attrs, &y.attrs)
        },
        (Value::Exc(x), Value::Exc(y)) => x.kind == y.kind && x.message == y.message,
        _ => false,
    }
}

fn lists_equal(x: &Vec<Value>, y: &Vec<Value>) -> (r: bool)
    requires
        x.len() == y.len(),
    ensures
        r == seqs_equal(Value::list_view(*x), Value::list_view(*y), 0),
    decreases x, 1int, x.len(),
{
    let ghost xs = Value::list_view(*x);
    let ghost ys = Value::list_view(*y);
    let mut i: usize = 0;
    while i < x.len()
        invariant
            i <= x.len() == y.len(),
            xs == Value::list_view(*x),
            ys == Value::list_view(*y),
            seqs_equal(xs, ys, 0) == seqs_equal(xs, ys, i as int),
        decreases x.len() - i,
    {
        proof {
            vstd::std_specs::vec::axiom_vec_index_decreases(*x, i as int);
        }
        if !equal(&x[i], &y[i]) {
            return false;
        }
        i += 1;
    }
    true
}

fn attr_lists_equal(x: &Vec<(String, Value)>, y: &Vec<(String, Value)>) -> (r: bool)
    requires
        x.len() == y.len(),
    ensures
        r == attrs_equal(Value::attrs_view(*x), Value::attrs_view(*y), 0),
    decreases x, 2int, x.len(),
{
    let ghost xs = Value::attrs_view(*x);
    let ghost ys = Value::attrs_view(*y);
    let mut i: usize = 0;
    while i < x.len()
        invariant
            i <= x.len() == y.len(),
            xs == Value::attrs_view(*x),
            ys == Value::attrs_view(*y),
            attrs_equal(xs, ys, 0) == attrs_equal(xs, ys, i as int),
        decreases x.len() - i,
    {
        proof {
            vstd::std_specs::vec::axiom_vec_index_decreases(*x, i as int);
        }
        if !x[i].0.eq(&y[i].0) || !equal(&x[i].1, &y[i].1) {
            return false;
        }
        i += 1;
    }
    true
}

/// Lexicographic comparison of two strings: -1, 0 or 1.
pub fn compare_strings(x: &String, y: &String) -> (r: i8)
    ensures
        r as int == compare_chars(x@, y@, 0),
{
    let xs = x.as_str();
    let ys = y.as_str();
    let nx = xs.unicode_len();
    let ny = ys.unicode_len();
    let mut i: usize = 0;
    while i < nx
        invariant
            nx == x@.len(),
            ny == y@.len(),
            xs@ == x@,
            ys@ == y@,
            i <= nx,
            compare_chars(x@, y@, 0) == compare_chars(x@, y@, i as int),
        decreases nx - i,
    {
        if i >= ny {
            return 1;
        }
        let a = xs.get_char(i);
        let b = ys.get_char(i);
        if a != b {
            return if (a as u32) < (b as u32) { -1 } else { 1 };
        }
        i += 1;
    }
    if i < ny { -1 } else { 0 }
}

fn concat_lists(x: &Vec<Value>, y: &Vec<Value>) -> (r: Vec<Value>)
    ensures
        Value::list_view(r) == Value::list_view(*x) + Value::list_view(*y),
{
    let mut out = Value::copy_list(x);
    let mut i: usize = 0;
    while i < y.len()
        invariant
            i <= y.len(),
            Value::list_view(out) == Value::list_view(*x) + Value::list_view(*y).subrange(0, i as int),
        decreases y.len() - i,
    {
        let ghost before = out;
        out.push(y[i].copy());
        proof {
            assert(Value::list_view(out) =~= Value::list_view(before).push(y@[i as int]@));
            assert(Value::list_view(*y).subrange(0, i + 1) =~= Value::list_view(*y).subrange(0, i as int).push(y@[i as int]@));
        }
        i += 1;
    }
    assert(Value::list_view(*y).subrange(0, y.len() as int) =~= Value::list_view(*y));
    out
}

/// The three-way comparison of two values, if they can be ordered.
pub fn compare(a: &Value, b: &Value) -> (r: Option<i8>)
    ensures
        match r {
            Some(c) => compare_values(a@, b@) == Some(c as int),
            None => compare_values(a@, b@) is None,
        },
    decreases a, 1int, 0int,
{
    if let (Some(x), Some(y)) = (num(a), num(b)) {
        return Some(if x < y { -1 } else if x == y { 0 } else { 1 });
    }
    match (a, b) {
        (Value::Str(x), Value::Str(y)) => Some(compare_strings(x, y)),
        (Value::List(x), Value::List(y)) => compare_item_lists(x, y),
        _ => None,
    }
}

fn compare_item_lists(x: &Vec<Value>, y: &Vec<Value>) -> (r: Option<i8>)
    ensures
        match r {
            Some(c) => compare_lists(Value::list_view(*x), Value::list_view(*y), 0) == Some(c as int),
            None => compare_lists(Value::list_view(*x), Value::list_view(*y), 0) is None,
        },
    decreases x, 0int, x.len(),
{
    let ghost xs = Value::list_view(*x);
    let ghost ys = Value::list_view(*y);
    assert(xs.len() == x.len() && ys.len() == y.len());
    let mut i: usize = 0;
    while i < x.len() && i < y.len()
        invariant
            i <= x.len(),
            i <= y.len(),
            xs == Value::list_view(*x),
            ys == Value::list_view(*y),
            xs.len() == x.len(),
            ys.len() == y.len(),
            compare_lists(xs, ys, 0) == compare_lists(xs, ys, i as int),
        decreases x.len() - i,
    {
        proof {
            vstd::std_specs::vec::axiom_vec_index_decreases(*x, i as int);
        }
        if !equal(&x[i], &y[i]) {
            return compare(&x[i], &y[i]);
        }
        i += 1;
    }
    Some(if x.len() < y.len() { -1 } else if x.len() == y.len() { 0 } else { 1 })
}

/// Evaluates `l op r`; a type mismatch raises a `TypeError` carrying `span`.
pub fn apply_binary(op: Op, l: &Value, r: &Value, span: Option<Span>) -> (res: Result<Value, Exception>)
    ensures
        result_view(res) == binary_op(op, l@, r@, span),
{
    let nums = num(l);
    let numr = num(r);
    match op {
        Op::Add | Op::Sub | Op::Mult => {
            if let (Some(a), Some(b)) = (nums, numr) {
                proof {
                    assert(i64::MIN * i64::MAX <= a * b <= i64::MIN * i64::MIN) by (nonlinear_arith)
                        requires i64::MIN <= a <= i64::MAX, i64::MIN <= b <= i64::MAX;
                }
                let (a, b) = (a as i128, b as i128);
                return match op {
                    Op::Add => checked(a + b, span),
                    Op::Sub => checked(a - b, span),
                    _ => checked(a * b, span),
                };
            }
            if let Op::Add = op {
                match (l, r) {
                    (Value::Str(x), Value::Str(y)) => {
                        let mut s = x.clone();
                        s.append(y.as_str());
                        return Ok(Value::Str(s));
                    },
                    (Value::List(x), Value::List(y)) => {
                        return Ok(Value::List(concat_lists(x, y)));
                    },
                    _ => {},
                }
            }
            Err(type_mismatch("unsupported operand type(s) for ", op, ": '", l, r, span))
        },
        Op::Div | Op::FloorDiv | Op::Mod => {
            if let (Some(a), Some(b)) = (nums, numr) {
                if b == 0 {
                    return Err(Exception::new(ExcKind::ZeroDivisionError, String::from_str("division by zero"), span));
                }
                let (q, m) = floordiv_mod(a, b);
                match op {
                    Op::FloorDiv => checked(q, span),
                    Op::Mod => checked(m, span),
                    _ => Err(Exception::new(ExcKind::NotImplementedError, String::from_str("true division is not supported"), span)),
                }
            } else {
                Err(type_mismatch("unsupported operand type(s) for ", op, ": '", l, r, span))
            }
        },
        Op::Eq => Ok(Value::Bool(equal(l, r))),
        Op::NotEq => Ok(Value::Bool(!equal(l, r))),
        _ => {
            let c = match compare(l, r) {
                Some(c) => c,
                None => {
                    return Err(type_mismatch("'", op, "' not supported between instances of '", l, r, span));
                },
            };
            Ok(Value::Bool(match op {
                Op::Lt => c < 0,
                Op::LtE => c <= 0,
                Op::Gt => c > 0,
                _ => c >= 0,
            }))
        },
    }
}

/// What a unary operation evaluates to.
pub open spec fn unary_op(op: UnaryOp, v: SpecValue, span: Option<Span>) -> Result<SpecValue, SpecException> {
    match op {
        UnaryOp::Not => Ok(SpecValue::Bool(!crate::value::truthy(v))),
        _ => match num_of(v) {
            Some(a) => if op == UnaryOp::Neg { int_result(-a, span) } else { Ok(SpecValue::Int(a)) },
            None => Err(
                exc(
                    ExcKind::TypeError,
                    "bad operand type for unary "@ + (if op == UnaryOp::Neg { "-"@ } else { "+"@ }) + ": '"@
                        + type_label(v) + "'"@,
                    span,
                ),
            ),
        },
    }
}

/// The position that index `i` names in a sequence of length `n`: negative
/// indices count from the end.
pub open spec fn wrap_index(i: int, n: int) -> int {
    if i < 0 { i + n } else { i }
}

/// What `o[i]` evaluates to: lists and strings take an integer index,
/// negative from the end, and must hold that position.
pub open spec fn subscript(o: SpecValue, i: SpecValue, span: Option<Span>) -> Result<SpecValue, SpecException> {
    match o {
        SpecValue::List(xs) => match num_of(i) {
            Some(k) => {
                let p = wrap_index(k, xs.len() as int);
                if 0 <= p < xs.len() {
                    Ok(xs[p])
                } else {
                    Err(exc(ExcKind::ValueError, "list index out of range"@, span))
                }
            },
            None => Err(exc(ExcKind::TypeError, "list indices must be integers"@, span)),
        },
        SpecValue::Str(s) => match num_of(i) {
            Some(k) => {
                let p = wrap_index(k, s.len() as int);
                if 0 <= p < s.len() {
                    Ok(SpecValue::Str(seq![s[p]]))
                } else {
                    Err(exc(ExcKind::ValueError, "string index out of range"@, span))
                }
            },
            None => Err(exc(ExcKind::TypeError, "string indices must be integers"@, span)),
        },
        _ => Err(exc(ExcKind::TypeError, "'"@ + type_label(o) + "' object is not subscriptable"@, span)),
    }
}

/// Evaluates a unary operation.
pub fn apply_unary(op: UnaryOp, v: &Value, span: Option<Span>) -> (r: Result<Value, Exception>)
    ensures
        result_view(r) == unary_op(op, v@, span),
{
    match op {
        UnaryOp::Not => Ok(Value::Bool(!v.is_truthy())),
        _ => match num(v) {
            Some(a) => if let UnaryOp::Neg = op {
                checked(-(a as i128), span)
            } else {
                Ok(Value::Int(a))
            },
            None => {
                let mut m = String::from_str("bad operand type for unary ");
                m.append(if let UnaryOp::Neg = op { "-" } else { "+" });
                m.append(": '");
                m.append(v.type_label().as_str());
                m.append("'");
                Err(Exception::new(ExcKind::TypeError, m, span))
            },
        },
    }
}

fn position(k: i64, n: usize) -> (r: Option<usize>)
    ensures
        match r {
            Some(p) => p as int == wrap_index(k as int, n as int) && p < n,
            None => !(0 <= wrap_index(k as int, n as int) < n),
        },
{
    let p: i128 = if k < 0 { k as i128 + n as i128 } else { k as i128 };
    if 0 <= p && p < n as i128 { Some(p as usize) } else { None }
}

/// Evaluates `o[i]`.
pub fn index_value(o: &Value, i: &Value, span: Option<Span>) -> (r: Result<Value, Exception>)
    ensures
        result_view(r) == subscript(o@, i@, span),
{
    match o {
        Value::List(xs) => match num(i) {
            Some(k) => {
                assert(Value::list_view(*xs).len() == xs.len());
                match position(k, xs.len()) {
                    Some(p) => Ok(xs[p].copy()),
                    None => Err(Exception::new(ExcKind::ValueError, String::from_str("list index out of range"), span)),
                }
            },
            None => Err(Exception::new(ExcKind::TypeError, String::from_str("list indices must be integers"), span)),
        },
        Value::Str(s) => match num(i) {
            Some(k) => {
                let n = s.as_str().unicode_len();
                match position(k, n) {
                    Some(p) => {
                        let c = s.as_str().substring_char(p, p + 1);
                        assert(c@ =~= seq![s@[p as int]]);
                        Ok(Value::Str(String::from_str(c)))
                    },
                    None => Err(Exception::new(ExcKind::ValueError, String::from_str("string index out of range"), span)),
                }
            },
            None => Err(Exception::new(ExcKind::TypeError, String::from_str("string indices must be integers"), span)),
        },
        _ => {
            let mut m = String::from_str("'");
            m.append(o.type_label().as_str());
            m.append("' object is not subscriptable");
            Err(Exception::new(ExcKind::TypeError, m, span))
        },
    }
}

} // verus!
