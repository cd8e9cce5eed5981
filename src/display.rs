//! The user-facing text of values: `str` and `repr`.
use vstd::prelude::*;
use crate::value::{ExcKind, Exception, Span, SpecException, SpecValue, Value};

verus! {

pub open spec fn digit_text(d: int) -> Seq<char> {
    if d == 0 { "0"@ }
    else if d == 1 { "1"@ }
    else if d == 2 { "2"@ }
    else if d == 3 { "3"@ }
    else if d == 4 { "4"@ }
    else if d == 5 { "5"@ }
    else if d == 6 { "6"@ }
    else if d == 7 { "7"@ }
    else if d == 8 { "8"@ }
    else { "9"@ }
}

/// The decimal digits of a non-negative integer.
pub open spec fn digits(n: nat) -> Seq<char>
    decreases n,
{
    if n < 10 {
        digit_text(n as int)
    } else {
        digits(n / 10) + digit_text((n % 10) as int)
    }
}

/// The decimal text of an integer, with a leading minus sign when negative.
pub open spec fn decimal(i: int) -> Seq<char> {
    if i < 0 { "-"@ + digits((-i) as nat) } else { digits(i as nat) }
}

pub open spec fn kind_text(k: ExcKind) -> Seq<char> {
    match k {
        ExcKind::TypeError => "TypeError"@,
        ExcKind::ValueError => "ValueError"@,
        ExcKind::NameError => "NameError"@,
        ExcKind::ZeroDivisionError => "ZeroDivisionError"@,
        ExcKind::AttributeError => "AttributeError"@,
        ExcKind::NotImplementedError => "NotImplementedError"@,
        ExcKind::InternalError => "InternalError"@,
    }
}

/// `str(v)`.
pub open spec fn display(v: SpecValue) -> Seq<char>
    decreases v, 2int, 0int,
{
    match v {
        SpecValue::Int(i) => decimal(i),
        SpecValue::Str(s) => s,
        SpecValue::Bool(b) => if b { "True"@ } else { "False"@ },
        SpecValue::NoneValue => "None"@,
        SpecValue::List(items) => "["@ + join_reprs(items, items.len() as int) + "]"@,
        SpecValue::Range(n) => "range(0, "@ + decimal(n) + ")"@,
        SpecValue::Record(r) => r.name + "("@ + join_attrs(r.attrs, r.attrs.len() as int) + ")"@,
        SpecValue::Exc(e) => e.message,
    }
}

/// `repr(v)`: strings are quoted, everything else reads as its `str`.
pub open spec fn repr(v: SpecValue) -> Seq<char>
    decreases v, 3int, 0int,
{
    match v {
        SpecValue::Str(s) => "'"@ + s + "'"@,
        SpecValue::Exc(e) => kind_text(e.kind) + "('"@ + e.message + "')"@,
        _ => display(v),
    }
}

/// The reprs of the first `n` items, separated by `", "`.
pub open spec fn join_reprs(items: Seq<SpecValue>, n: int) -> Seq<char>
    decreases items, 0int, n,
{
    if n <= 0 || n > items.len() {
        Seq::empty()
    } else if n == 1 {
        repr(items[0])
    } else {
        join_reprs(items, n - 1) + ", "@ + repr(items[n - 1])
    }
}

/// `name=repr(value)` for the first `n` attributes, separated by `", "`.
pub open spec fn join_attrs(attrs: Seq<(Seq<char>, SpecValue)>, n: int) -> Seq<char>
    decreases attrs, 1int, n,
{
    if n <= 0 || n > attrs.len() {
        Seq::empty()
    } else if n == 1 {
        attrs[0].0 + "="@ + repr(attrs[0].1)
    } else {
        join_attrs(attrs, n - 1) + ", "@ + attrs[n - 1].0 + "="@ + repr(attrs[n - 1].1)
    }
}

fn digit(d: u64) -> (r: &'static str)
    requires
        d < 10,
    ensures
        r@ == digit_text(d as int),
{
    if d == 0 { "0" }
    else if d == 1 { "1" }
    else if d == 2 { "2" }
    else if d == 3 { "3" }
    else if d == 4 { "4" }
    else if d == 5 { "5" }
    else if d == 6 { "6" }
    else if d == 7 { "7" }
    else if d == 8 { "8" }
    else { "9" }
}

/// Appends the decimal digits of `n`.
pub fn push_digits(out: &mut String, n: u64)
    ensures
        final(out)@ == old(out)@ + digits(n as nat),
    decreases n,
{
    if n >= 10 {
        push_digits(out, n / 10);
        out.append(digit(n % 10));
        proof {
            assert(final(out)@ =~= old(out)@ + digits(n as nat));
        }
    } else {
        out.append(digit(n));
    }
}

/// Appends the decimal text of `i`.
pub fn push_decimal(out: &mut String, i: i64)
    ensures
        final(out)@ == old(out)@ + decimal(i as int),
{
    if i < 0 {
        out.append("-");
        let m: u64 = (-(i as i128)) as u64;
        push_digits(out, m);
        proof {
            assert(final(out)@ =~= old(out)@ + decimal(i as int));
        }
    } else {
        push_digits(out, i as u64);
    }
}

fn kind_name(k: ExcKind) -> (r: &'static str)
    ensures
        r@ == kind_text(k),
{
    match k {
        ExcKind::TypeError => "TypeError",
        ExcKind::ValueError => "ValueError",
        ExcKind::NameError => "NameError",
        ExcKind::ZeroDivisionError => "ZeroDivisionError",
        ExcKind::AttributeError => "AttributeError",
        ExcKind::NotImplementedError => "NotImplementedError",
        ExcKind::InternalError => "InternalError",
    }
}

/// Appends `str(v)`.
pub fn push_display(out: &mut String, v: &Value)
    ensures
        final(out)@ == old(out)@ + display(v@),
    decreases v, 2int, 0int,
{
    match v {
        Value::Int(i) => push_decimal(out, *i),
        Value::Str(s) => out.append(s.as_str()),
        Value::Bool(b) => out.append(if *b { "True" } else { "False" }),
        Value::NoneValue => out.append("None"),
        Value::List(items) => {
            out.append("[");
            push_reprs(out, items);
            out.append("]");
            proof {
                assert(final(out)@ =~= old(out)@ + display(v@));
            }
        },
        Value::Range(n) => {
            out.append("range(0, ");
            push_decimal(out, *n);
            out.append(")");
            proof {
                assert(final(out)@ =~= old(out)@ + display(v@));
            }
        },
        Value::Record(r) => {
            out.append(r.name.as_str());
            out.append("(");
            push_attrs(out, &r.attrs);
            out.append(")");
            proof {
                assert(final(out)@ =~= old(out)@ + display(v@));
            }
        },
        Value::Exc(e) => out.append(e.message.as_str()),
    }
}

/// Appends `repr(v)`.
pub fn push_repr(out: &mut String, v: &Value)
    ensures
        final(out)@ == old(out)@ + repr(v@),
    decreases v, 3int, 0int,
{
    match v {
        Value::Str(s) => {
            out.append("'");
            out.append(s.as_str());
            out.append("'");
            proof {
                assert(final(out)@ =~= old(out)@ + repr(v@));
            }
        },
        Value::Exc(e) => {
            out.append(kind_name(e.kind));
            out.append("('");
            out.append(e.message.as_str());
            out.append("')");
            proof {
                assert(final(out)@ =~= old(out)@ + repr(v@));
            }
        },
        _ => push_display(out, v),
    }
}

fn push_reprs(out: &mut String, items: &Vec<Value>)
    ensures
        final(out)@ == old(out)@ + join_reprs(Value::list_view(*items), items.len() as int),
    decreases items, 0int, items.len(),
{
    let ghost start = out@;
    let ghost xs = Value::list_view(*items);
    let mut i: usize = 0;
    while i < items.len()
        invariant
            i <= items.len(),
            xs == Value::list_view(*items),
            xs.len() == items.len(),
            out@ == start + join_reprs(xs, i as int),
        decreases items.len() - i,
    {
        proof {
            vstd::std_specs::vec::axiom_vec_index_decreases(*items, i as int);
        }
        if i > 0 {
            out.append(", ");
        }
        push_repr(out, &items[i]);
        proof {
            assert(out@ =~= start + join_reprs(xs, i + 1));
        }
        i += 1;
    }
}

fn push_attrs(out: &mut String, attrs: &Vec<(String, Value)>)
    ensures
        final(out)@ == old(out)@ + join_attrs(Value::attrs_view(*attrs), attrs.len() as int),
    decreases attrs, 1int, attrs.len(),
{
    let ghost start = out@;
    let ghost xs = Value::attrs_view(*attrs);
    let mut i: usize = 0;
    while i < attrs.len()
        invariant
            i <= attrs.len(),
            xs == Value::attrs_view(*attrs),
            xs.len() == attrs.len(),
            out@ == start + join_attrs(xs, i as int),
        decreases attrs.len() - i,
    {
        proof {
            vstd::std_specs::vec::axiom_vec_index_decreases(*attrs, i as int);
        }
        if i > 0 {
            out.append(", ");
        }
        out.append(attrs[i].0.as_str());
        out.append("=");
        push_repr(out, &attrs[i].1);
        proof {
            assert(out@ =~= start + join_attrs(xs, i + 1));
        }
        i += 1;
    }
}

/// `str(v)` as a new string.
pub fn display_value(v: &Value) -> (r: String)
    ensures
        r@ == display(v@),
{
    let mut s = String::new();
    push_display(&mut s, v);
    assert(s@ =~= display(v@));
    s
}

/// `repr(v)` as a new string.
pub fn repr_value(v: &Value) -> (r: String)
    ensures
        r@ == repr(v@),
{
    let mut s = String::new();
    push_repr(&mut s, v);
    assert(s@ =~= repr(v@));
    s
}

/// The text of an exception as the host sees it: `Kind: message`.
pub fn exception_summary(e: &Exception) -> (r: String)
    ensures
        r@ == kind_text(e.kind) + ": "@ + e.message@,
{
    let mut s = String::from_str(kind_name(e.kind));
    s.append(": ");
    s.append(e.message.as_str());
    s
}

pub open spec fn span_text(s: Span) -> Seq<char> {
    "("@ + digits(s.start_line as nat) + "-"@ + digits(s.start_col as nat) + " to "@ + digits(s.end_line as nat)
        + "-"@ + digits(s.end_col as nat) + ") "@
}

/// The one-line report of an exception: `Exc: (L-C to L-C) Kind: message`,
/// without the span part when there is none.
pub open spec fn summary_text(e: SpecException) -> Seq<char> {
    "Exc: "@ + match e.span {
        Some(s) => span_text(s),
        None => Seq::empty(),
    } + kind_text(e.kind) + ": "@ + e.message
}

impl Exception {
    /// The one-line report of the exception.
    pub fn summary(&self) -> (r: String)
        ensures
            r@ == summary_text(self@),
    {
        let mut out = String::from_str("Exc: ");
        match self.span {
            Some(s) => {
                out.append("(");
                push_digits(&mut out, s.start_line as u64);
                out.append("-");
                push_digits(&mut out, s.start_col as u64);
                out.append(" to ");
                push_digits(&mut out, s.end_line as u64);
                out.append("-");
                push_digits(&mut out, s.end_col as u64);
                out.append(") ");
            },
            None => {},
        }
        out.append(kind_name(self.kind));
        out.append(": ");
        out.append(self.message.as_str());
        assert(out@ =~= summary_text(self@));
        out
    }
}

} // verus!
