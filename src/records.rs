//! Records at the host boundary: building a record from a host instance's
//! declared fields, the keyword arguments that rebuild a host instance, the
//! stand-in shown for a record whose host type is unknown, assignment on
//! frozen records, and the registry of host record types.
use vstd::prelude::*;
use std::collections::HashMap;
use crate::display::{push_repr, repr};
use crate::eval::{env_find, env_index, Env};
use crate::ops::{equal, exc, values_equal};
use crate::value::SpecException;
use crate::value::{
    copy_names, names_view, text_eq, ExcKind, Exception, Record, SpecRecord, SpecValue, Value,
};

verus! {

impl Record {
    pub open spec fn view(&self) -> SpecRecord {
        SpecRecord {
            name: self.name@,
            type_id: self.type_id,
            field_names: names_view(self.field_names),
            attrs: Value::attrs_view(self.attrs),
            frozen: self.frozen,
        }
    }

    /// A record of a host instance: its declared fields, in order, are its attributes.
    pub fn from_fields(name: String, type_id: u64, field_names: Vec<String>, values: Vec<Value>, frozen: bool) -> (r:
        Record)
        requires
            field_names.len() == values.len(),
        ensures
            r@.name == name@,
            r@.type_id == type_id,
            r@.frozen == frozen,
            r@.field_names == names_view(field_names),
            r@.attrs.len() == field_names.len(),
            forall|i: int|
                0 <= i < field_names.len() ==> #[trigger] r@.attrs[i] == (field_names@[i]@, values@[i]@),
    {
        let mut attrs: Vec<(String, Value)> = Vec::new();
        let mut i: usize = 0;
        while i < field_names.len()
            invariant
                i <= field_names.len() == values.len(),
                attrs.len() == i,
                forall|j: int|
                    0 <= j < i ==> #[trigger] Value::attrs_view(attrs)[j] == (field_names@[j]@, values@[j]@),
            decreases field_names.len() - i,
        {
            let ghost before = attrs;
            attrs.push((field_names[i].clone(), values[i].copy()));
            proof {
                assert forall|j: int| 0 <= j < i + 1 implies #[trigger] Value::attrs_view(attrs)[j] == (
                    field_names@[j]@,
                    values@[j]@,
                ) by {
                    if j < i {
                        assert(Value::attrs_view(before)[j] == (field_names@[j]@, values@[j]@));
                        assert(attrs@[j] == before@[j]);
                    }
                }
            }
            i += 1;
        }
        Record { name, type_id, field_names: copy_names(&field_names), attrs, frozen }
    }
}

/// The attributes that name a declared field, in attribute order.
pub open spec fn declared_attrs(names: Seq<Seq<char>>, attrs: Env) -> Env
    decreases attrs.len(),
{
    if attrs.len() == 0 {
        Seq::empty()
    } else {
        let rest = declared_attrs(names, attrs.drop_last());
        if names.contains(attrs.last().0) {
            rest.push(attrs.last())
        } else {
            rest
        }
    }
}

/// The keyword arguments that rebuild a host instance of a record: the
/// attributes that are declared fields, in attribute order; extra attributes
/// are dropped.
pub fn constructor_kwargs(r: &Record) -> (out: Vec<(String, Value)>)
    ensures
        Value::attrs_view(out) == declared_attrs(r@.field_names, r@.attrs),
{
    let ghost names = names_view(r.field_names);
    let ghost av = Value::attrs_view(r.attrs);
    let mut out: Vec<(String, Value)> = Vec::new();
    let mut i: usize = 0;
    assert(Value::attrs_view(out) =~= declared_attrs(names, av.subrange(0, 0)));
    while i < r.attrs.len()
        invariant
            i <= r.attrs.len() == av.len(),
            names == names_view(r.field_names),
            av == Value::attrs_view(r.attrs),
            Value::attrs_view(out) == declared_attrs(names, av.subrange(0, i as int)),
        decreases r.attrs.len() - i,
    {
        assert(av.subrange(0, i + 1).drop_last() =~= av.subrange(0, i as int));
        let ghost before = out;
        if is_declared(&r.field_names, &r.attrs[i].0) {
            out.push((r.attrs[i].0.clone(), r.attrs[i].1.copy()));
            assert(Value::attrs_view(out) =~= Value::attrs_view(before).push(av[i as int]));
        }
        i += 1;
    }
    assert(av.subrange(0, av.len() as int) =~= av);
    out
}

fn is_declared(names: &Vec<String>, name: &String) -> (r: bool)
    ensures
        r == names_view(*names).contains(name@),
{
    let mut i: usize = 0;
    while i < names.len()
        invariant
            i <= names.len(),
            forall|j: int| 0 <= j < i ==> names@[j]@ != name@,
        decreases names.len() - i,
    {
        if text_eq(names[i].as_str(), name.as_str()) {
            assert(names_view(*names)[i as int] == name@);
            return true;
        }
        i += 1;
    }
    assert(!names_view(*names).contains(name@)) by {
        if names_view(*names).contains(name@) {
            let j = choose|j: int| 0 <= j < names_view(*names).len() && names_view(*names)[j] == name@;
            assert(names@[j]@ == name@);
        }
    };
    false
}

/// `name=repr(value)` for the first `n` declared fields that have an attribute.
pub open spec fn field_reprs(names: Seq<Seq<char>>, attrs: Env, n: int) -> Seq<char>
    decreases n,
{
    if n <= 0 || n > names.len() {
        Seq::empty()
    } else {
        let rest = field_reprs(names, attrs, n - 1);
        let k = env_index(attrs, names[n - 1], 0);
        if k < 0 {
            rest
        } else {
            let item = names[n - 1] + "="@ + repr(attrs[k].1);
            if rest.len() == 0 { item } else { rest + ", "@ + item }
        }
    }
}

/// The text of the stand-in for a record whose host type is not registered.
pub open spec fn unknown_record_text(r: SpecRecord) -> Seq<char> {
    "<Unknown Record "@ + r.name + "("@ + field_reprs(r.field_names, r.attrs, r.field_names.len() as int)
        + ")>"@
}

/// `repr` of the stand-in for a record of an unregistered host type: the
/// declared fields that have a value, in declaration order.
pub fn unknown_record_repr(r: &Record) -> (s: String)
    ensures
        s@ == unknown_record_text(r@),
{
    let ghost names = names_view(r.field_names);
    let ghost av = Value::attrs_view(r.attrs);
    let mut body = String::new();
    let mut i: usize = 0;
    while i < r.field_names.len()
        invariant
            i <= r.field_names.len() == names.len(),
            names == names_view(r.field_names),
            av == Value::attrs_view(r.attrs),
            body@ == field_reprs(names, av, i as int),
        decreases r.field_names.len() - i,
    {
        match env_find(&r.attrs, r.field_names[i].as_str()) {
            Some(k) => {
                if body.as_str().unicode_len() != 0 {
                    body.append(", ");
                }
                body.append(r.field_names[i].as_str());
                body.append("=");
                push_repr(&mut body, &r.attrs[k].1);
                assert(body@ =~= field_reprs(names, av, i + 1));
            },
            None => {},
        }
        i += 1;
    }
    let mut s = String::from_str("<Unknown Record ");
    s.append(r.name.as_str());
    s.append("(");
    s.append(body.as_str());
    s.append(")>");
    s
}

/// Whether two stand-in records are equal: same name and equal attributes, in order.
pub fn unknown_records_equal(a: &Record, b: &Record) -> (r: bool)
    ensures
        r == values_equal(SpecValue::Record(a@), SpecValue::Record(b@)),
{
    proof {
        assert(Value::attrs_view(a.attrs).len() == a.attrs.len());
    }
    if !a.name.eq(&b.name) || a.attrs.len() != b.attrs.len() {
        return false;
    }
    let mut i: usize = 0;
    let ghost xs = Value::attrs_view(a.attrs);
    let ghost ys = Value::attrs_view(b.attrs);
    while i < a.attrs.len()
        invariant
            i <= a.attrs.len() == b.attrs.len() == xs.len() == ys.len(),
            xs == Value::attrs_view(a.attrs),
            ys == Value::attrs_view(b.attrs),
            crate::ops::attrs_equal(xs, ys, 0) == crate::ops::attrs_equal(xs, ys, i as int),
        decreases a.attrs.len() - i,
    {
        if !a.attrs[i].0.eq(&b.attrs[i].0) || !equal(&a.attrs[i].1, &b.attrs[i].1) {
            return false;
        }
        i += 1;
    }
    true
}

pub open spec fn frozen_error(name: Seq<char>) -> SpecException {
    exc(ExcKind::AttributeError, "cannot assign to field '"@ + name + "'"@, None)
}

/// Assigns attribute `name` of a record: refused on a frozen record,
/// otherwise the attribute is replaced in place or added at the end.
pub fn set_attr(r: &mut Record, name: &String, v: Value) -> (res: Result<(), Exception>)
    ensures
        old(r).frozen ==> final(r)@ == old(r)@ && (match res {
            Err(e) => e@ == frozen_error(name@),
            Ok(_) => false,
        }),
        !old(r).frozen ==> res is Ok && final(r)@ == (SpecRecord {
            attrs: crate::eval::bind(old(r)@.attrs, name@, v@),
            ..old(r)@
        }),
{
    if r.frozen {
        let mut m = String::from_str("cannot assign to field '");
        m.append(name.as_str());
        m.append("'");
        return Err(Exception::new(ExcKind::AttributeError, m, None));
    }
    crate::eval::env_bind(&mut r.attrs, name, v);
    Ok(())
}

/// The registry that a list of `(type_id, type)` entries builds; a later entry wins.
pub open spec fn registry_of<T>(types: Seq<(u64, T)>) -> Map<u64, T>
    decreases types.len(),
{
    if types.len() == 0 {
        Map::empty()
    } else {
        registry_of(types.drop_last()).insert(types.last().0, types.last().1)
    }
}

/// The registry of host record types, keyed by type identity. Registering
/// an identity again replaces its entry.
pub struct DcRegistry<T> {
    registry: HashMap<u64, T>,
}

impl<T> DcRegistry<T> {
    /// The registered types by identity.
    pub closed spec fn view(&self) -> Map<u64, T> {
        self.registry@
    }

    /// An empty registry.
    pub fn new() -> (r: DcRegistry<T>)
        ensures
            r@ == Map::<u64, T>::empty(),
    {
        DcRegistry { registry: HashMap::new() }
    }

    /// A registry holding each `(type_id, type)` of `types`; a later entry wins.
    pub fn from_list(types: Vec<(u64, T)>) -> (r: DcRegistry<T>)
        ensures
            r@ == registry_of(types@),
    {
        let ghost orig = types@;
        let mut reg = DcRegistry::new();
        let mut rest = types;
        let ghost taken: int = 0;
        assert(orig.subrange(0, 0) =~= Seq::<(u64, T)>::empty());
        assert(orig.subrange(0, orig.len() as int) =~= orig);
        while rest.len() > 0
            invariant
                0 <= taken <= orig.len(),
                rest@ == orig.subrange(taken, orig.len() as int),
                reg@ == registry_of(orig.subrange(0, taken)),
            decreases rest.len(),
        {
            let (k, t) = rest.remove(0);
            reg.insert(k, t);
            proof {
                assert(orig.subrange(0, taken + 1).drop_last() =~= orig.subrange(0, taken));
                taken = taken + 1;
                assert(rest@ =~= orig.subrange(taken, orig.len() as int));
            }
        }
        reg
    }

    /// Registers `t` under `type_id`, replacing an earlier entry.
    pub fn insert(&mut self, type_id: u64, t: T)
        ensures
            final(self)@ == old(self)@.insert(type_id, t),
    {
        broadcast use vstd::std_specs::hash::group_hash_axioms;
        self.registry.insert(type_id, t);
    }

    /// The type registered under `type_id`, if any.
    pub fn get(&self, type_id: u64) -> (r: Option<&T>)
        ensures
            match r {
                Some(t) => self@.contains_key(type_id) && *t == self@[type_id],
                None => !self@.contains_key(type_id),
            },
    {
        broadcast use vstd::std_specs::hash::group_hash_axioms;
        self.registry.get(&type_id)
    }
}

} // verus!
