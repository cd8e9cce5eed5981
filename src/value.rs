//! The engine's runtime values, their mathematical model, and the value-level
//! queries that do not fail: type name, truthiness and length.
use vstd::prelude::*;

verus! {

/// The kind tag of an engine exception.
#[derive(Clone, Copy, Debug, PartialEq, Eq, Structural)]
pub enum ExcKind {
    TypeError,
    ValueError,
    NameError,
    ZeroDivisionError,
    AttributeError,
    NotImplementedError,
    InternalError,
}

/// A source-location span: first line and column, last line and column.
#[derive(Clone, Copy, Debug, PartialEq, Eq, Structural)]
pub struct Span {
    pub start_line: u32,
    pub start_col: u32,
    pub end_line: u32,
    pub end_col: u32,
}

/// An engine exception: a kind, a message and an optional span.
#[derive(Debug)]
pub struct Exception {
    pub kind: ExcKind,
    pub message: String,
    pub span: Option<Span>,
}

/// A record (dataclass-like) value.
#[derive(Debug)]
pub struct Record {
    pub name: String,
    pub type_id: u64,
    pub field_names: Vec<String>,
    pub attrs: Vec<(String, Value)>,
    pub frozen: bool,
}

/// A runtime value of the engine.
#[derive(Debug)]
pub enum Value {
    Int(i64),
    Str(String),
    Bool(bool),
    NoneValue,
    List(Vec<Value>),
    Range(i64),
    Record(Record),
    Exc(Exception),
}

pub struct SpecException {
    pub kind: ExcKind,
    pub message: Seq<char>,
    pub span: Option<Span>,
}

pub struct SpecRecord {
    pub name: Seq<char>,
    pub type_id: u64,
    pub field_names: Seq<Seq<char>>,
    pub attrs: Seq<(Seq<char>, SpecValue)>,
    pub frozen: bool,
}

/// The mathematical model of a `Value`.
pub enum SpecValue {
    Int(int),
    Str(Seq<char>),
    Bool(bool),
    NoneValue,
    List(Seq<SpecValue>),
    Range(int),
    Record(SpecRecord),
    Exc(SpecException),
}

impl Exception {
    pub open spec fn view(&self) -> SpecException {
        SpecException { kind: self.kind, message: self.message@, span: self.span }
    }

    pub fn new(kind: ExcKind, message: String, span: Option<Span>) -> (r: Exception)
        ensures
            r@ == (SpecException { kind, message: message@, span }),
    {
        Exception { kind, message, span }
    }

    pub fn copy(&self) -> (r: Exception)
        ensures
            r@ == self@,
    {
        Exception { kind: self.kind, message: self.message.clone(), span: self.span }
    }
}

pub open spec fn names_view(names: Vec<String>) -> Seq<Seq<char>> {
    Seq::new(names.len() as nat, |i: int| names[i]@)
}

impl Value {
    pub open spec fn view(&self) -> SpecValue
        decreases self, 2int,
    {
        match self {
            Value::Int(i) => SpecValue::Int(*i as int),
            Value::Str(s) => SpecValue::Str(s@),
            Value::Bool(b) => SpecValue::Bool(*b),
            Value::NoneValue => SpecValue::NoneValue,
            Value::List(items) => SpecValue::List(Value::list_view(*items)),
            Value::Range(n) => SpecValue::Range(*n as int),
            Value::Record(r) => SpecValue::Record(
                SpecRecord {
                    name: r.name@,
                    type_id: r.type_id,
                    field_names: names_view(r.field_names),
                    attrs: Value::attrs_view(r.attrs),
                    frozen: r.frozen,
                },
            ),
            Value::Exc(e) => SpecValue::Exc(e@),
        }
    }

    pub open spec fn list_view(items: Vec<Value>) -> Seq<SpecValue>
        decreases items, 0int,
    {
        Seq::new(
            items.len() as nat,
            |i: int|
                if 0 <= i < items.len() {
                    items[i].view()
                } else {
                    SpecValue::NoneValue
                },
        )
    }

    pub open spec fn attrs_view(attrs: Vec<(String, Value)>) -> Seq<(Seq<char>, SpecValue)>
        decreases attrs, 1int,
    {
        Seq::new(
            attrs.len() as nat,
            |i: int|
                if 0 <= i < attrs.len() {
                    (attrs[i].0@, attrs[i].1.view())
                } else {
                    (Seq::empty(), SpecValue::NoneValue)
                },
        )
    }
}

/// The user-facing name of a value's type.
pub open spec fn type_label(v: SpecValue) -> Seq<char> {
    match v {
        SpecValue::Int(_) => "int"@,
        SpecValue::Str(_) => "str"@,
        SpecValue::Bool(_) => "bool"@,
        SpecValue::NoneValue => "NoneType"@,
        SpecValue::List(_) => "list"@,
        SpecValue::Range(_) => "range"@,
        SpecValue::Record(r) => r.name,
        SpecValue::Exc(_) => "Exception"@,
    }
}

/// Truthiness: zero, empty strings, empty lists and ranges, `None` and `False` are false.
pub open spec fn truthy(v: SpecValue) -> bool {
    match v {
        SpecValue::Int(i) => i != 0,
        SpecValue::Str(s) => s.len() != 0,
        SpecValue::Bool(b) => b,
        SpecValue::NoneValue => false,
        SpecValue::List(items) => items.len() != 0,
        SpecValue::Range(n) => n > 0,
        SpecValue::Record(_) => true,
        SpecValue::Exc(_) => true,
    }
}

/// The length of a string (in characters), a list or a range; `None` for other values.
pub open spec fn length_of(v: SpecValue) -> Option<int> {
    match v {
        SpecValue::Str(s) => Some(s.len() as int),
        SpecValue::List(items) => Some(items.len() as int),
        SpecValue::Range(n) => Some(if n < 0 { 0 } else { n }),
        _ => None,
    }
}

/// Whether two strings hold the same characters.
pub fn text_eq(a: &str, b: &str) -> (r: bool)
    ensures
        r == (a@ == b@),
{
    let n = a.unicode_len();
    if n != b.unicode_len() {
        return false;
    }
    let mut i: usize = 0;
    while i < n
        invariant
            n == a@.len() == b@.len(),
            i <= n,
            forall|j: int| 0 <= j < i ==> a@[j] == b@[j],
        decreases n - i,
    {
        if a.get_char(i) != b.get_char(i) {
            return false;
        }
        i += 1;
    }
    assert(a@ =~= b@);
    true
}

pub fn copy_names(names: &Vec<String>) -> (r: Vec<String>)
    ensures
        names_view(r) == names_view(*names),
{
    let mut out: Vec<String> = Vec::new();
    let mut i: usize = 0;
    while i < names.len()
        invariant
            i <= names.len(),
            out@.len() == i,
            forall|j: int| 0 <= j < i ==> out@[j]@ == names@[j]@,
        decreases names.len() - i,
    {
        out.push(names[i].clone());
        i += 1;
    }
    assert(names_view(out) =~= names_view(*names));
    out
}

impl Value {
    /// A copy of the value, equal to it in the model.
    pub fn copy(&self) -> (r: Value)
        ensures
            r@ == self@,
        decreases self, 2int,
    {
        match self {
            Value::Int(i) => Value::Int(*i),
            Value::Str(s) => Value::Str(s.clone()),
            Value::Bool(b) => Value::Bool(*b),
            Value::NoneValue => Value::NoneValue,
            Value::List(items) => Value::List(Value::copy_list(items)),
            Value::Range(n) => Value::Range(*n),
            Value::Record(r) => Value::Record(
                Record {
                    name: r.name.clone(),
                    type_id: r.type_id,
                    field_names: copy_names(&r.field_names),
                    attrs: Value::copy_attrs(&r.attrs),
                    frozen: r.frozen,
                },
            ),
            Value::Exc(e) => Value::Exc(e.copy()),
        }
    }

    pub fn copy_list(items: &Vec<Value>) -> (r: Vec<Value>)
        ensures
            Value::list_view(r) == Value::list_view(*items),
        decreases items, 0int,
    {
        let mut out: Vec<Value> = Vec::new();
        let mut i: usize = 0;
        while i < items.len()
            invariant
                i <= items.len(),
                out@.len() == i,
                forall|j: int| 0 <= j < i ==> out@[j]@ == items@[j]@,
            decreases items.len() - i,
        {
            proof {
                vstd::std_specs::vec::axiom_vec_index_decreases(*items, i as int);
            }
            out.push(items[i].copy());
            i += 1;
        }
        assert(Value::list_view(out) =~= Value::list_view(*items));
        out
    }

    pub fn copy_attrs(attrs: &Vec<(String, Value)>) -> (r: Vec<(String, Value)>)
        ensures
            Value::attrs_view(r) == Value::attrs_view(*attrs),
        decreases attrs, 1int,
    {
        let mut out: Vec<(String, Value)> = Vec::new();
        let mut i: usize = 0;
        while i < attrs.len()
            invariant
                i <= attrs.len(),
                out@.len() == i,
                forall|j: int| 0 <= j < i ==> out@[j].0@ == attrs@[j].0@ && out@[j].1@ == attrs@[j].1@,
            decreases attrs.len() - i,
        {
            proof {
                vstd::std_specs::vec::axiom_vec_index_decreases(*attrs, i as int);
            }
            let (k, v) = &attrs[i];
            out.push((k.clone(), v.copy()));
            i += 1;
        }
        assert(Value::attrs_view(out) =~= Value::attrs_view(*attrs));
        out
    }

    /// The user-facing name of the value's type.
    pub fn type_label(&self) -> (r: String)
        ensures
            r@ == type_label(self@),
    {
        match self {
            Value::Int(_) => String::from_str("int"),
            Value::Str(_) => String::from_str("str"),
            Value::Bool(_) => String::from_str("bool"),
            Value::NoneValue => String::from_str("NoneType"),
            Value::List(_) => String::from_str("list"),
            Value::Range(_) => String::from_str("range"),
            Value::Record(r) => r.name.clone(),
            Value::Exc(_) => String::from_str("Exception"),
        }
    }

    /// Whether the value counts as true in a condition.
    pub fn is_truthy(&self) -> (r: bool)
        ensures
            r == truthy(self@),
    {
        match self {
            Value::Int(i) => *i != 0,
            Value::Str(s) => s.as_str().unicode_len() != 0,
            Value::Bool(b) => *b,
            Value::NoneValue => false,
            Value::List(items) => items.len() != 0,
            Value::Range(n) => *n > 0,
            Value::Record(_) => true,
            Value::Exc(_) => true,
        }
    }

    /// Whether the value has a length: a string, a list or a range.
    pub fn is_sized(&self) -> (r: bool)
        ensures
            r == length_of(self@).is_some(),
    {
        match self {
            Value::Str(_) | Value::List(_) | Value::Range(_) => true,
            _ => false,
        }
    }

    /// The length of a string, list or range, or `None` for a value that has none.
    pub fn len(&self) -> (r: Option<i64>)
        ensures
            match r {
                Some(n) => length_of(self@) == Some(n as int),
                None => length_of(self@).is_none() || length_of(self@).unwrap() > i64::MAX,
            },
    {
        match self {
            Value::Str(s) => {
                let n = s.as_str().unicode_len();
                if n as u128 > i64::MAX as u128 { None } else { Some(n as i64) }
            },
            Value::List(items) => {
                proof { assert(Value::list_view(*items).len() == items.len()); }
                if items.len() as u128 > i64::MAX as u128 { None } else { Some(items.len() as i64) }
            },
            Value::Range(n) => Some(if *n < 0 { 0 } else { *n }),
            _ => None,
        }
    }
}

} // verus!
