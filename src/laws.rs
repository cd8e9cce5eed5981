//! Laws that hold of the engine's operators, records and runs.
use vstd::prelude::*;
use crate::eval::{Env, SpecReply};
use crate::ops::{binary_op, compare_chars, compare_lists, compare_values, num_of, seqs_equal, values_equal, Op};
use crate::records::declared_attrs;
use crate::run::spec_run;
use crate::run::Program;
use crate::value::{length_of, Span, SpecValue};

verus! {

/// A record whose attributes are all declared fields is rebuilt on the host
/// side from exactly its attributes, in order, with their values.
pub proof fn lemma_record_round_trip(names: Seq<Seq<char>>, attrs: Env)
    requires
        forall|i: int| 0 <= i < attrs.len() ==> names.contains(#[trigger] attrs[i].0),
    ensures
        declared_attrs(names, attrs) == attrs,
    decreases attrs.len(),
{
    if attrs.len() > 0 {
        let rest = attrs.drop_last();
        assert forall|i: int| 0 <= i < rest.len() implies names.contains(#[trigger] rest[i].0) by {
            assert(rest[i] == attrs[i]);
        }
        lemma_record_round_trip(names, rest);
        assert(names.contains(attrs[attrs.len() - 1].0));
        assert(rest.push(attrs.last()) =~= attrs);
    }
}

proof fn lemma_compare_chars(x: Seq<char>, y: Seq<char>, i: int)
    requires
        0 <= i <= x.len(),
        i <= y.len(),
    ensures
        -1 <= compare_chars(x, y, i) <= 1,
        compare_chars(x, y, i) == 0 <==> (x.len() == y.len() && forall|j: int| i <= j < x.len() ==> x[j] == y[j]),
    decreases x.len() - i,
{
    if i < x.len() && i < y.len() && x[i] == y[i] {
        lemma_compare_chars(x, y, i + 1);
        if x.len() == y.len() && (forall|j: int| i + 1 <= j < x.len() ==> x[j] == y[j]) {
            assert forall|j: int| i <= j < x.len() implies x[j] == y[j] by {
                if j > i {
                    assert(i + 1 <= j);
                }
            }
        }
    } else if i < x.len() && i < y.len() {
        assert(x[i] != y[i]);
    }
}

proof fn lemma_compare_consistent(a: SpecValue, b: SpecValue)
    requires
        compare_values(a, b) is Some,
    ensures
        -1 <= compare_values(a, b).unwrap() <= 1,
        compare_values(a, b).unwrap() == 0 <==> values_equal(a, b),
    decreases a, 1int, 0int,
{
    if !(num_of(a).is_some() && num_of(b).is_some()) {
        match (a, b) {
            (SpecValue::Str(x), SpecValue::Str(y)) => {
                lemma_compare_chars(x, y, 0);
                if compare_chars(x, y, 0) == 0 {
                    assert(x =~= y);
                }
            },
            (SpecValue::List(x), SpecValue::List(y)) => {
                lemma_compare_lists_consistent(x, y, 0);
            },
            _ => {},
        }
    }
}

proof fn lemma_compare_lists_consistent(x: Seq<SpecValue>, y: Seq<SpecValue>, i: int)
    requires
        0 <= i,
        compare_lists(x, y, i) is Some,
    ensures
        -1 <= compare_lists(x, y, i).unwrap() <= 1,
        compare_lists(x, y, i).unwrap() == 0 <==> (x.len() == y.len() && seqs_equal(x, y, i)),
    decreases x, 0int, x.len() - i,
{
    if i < x.len() && i < y.len() {
        if values_equal(x[i], y[i]) {
            lemma_compare_lists_consistent(x, y, i + 1);
        } else {
            lemma_compare_consistent(x[i], y[i]);
        }
    }
}

/// Of two values that can be ordered, exactly one of `a < b`, `a == b`,
/// `a > b` holds.
pub proof fn lemma_trichotomy(a: SpecValue, b: SpecValue, span: Option<Span>)
    requires
        compare_values(a, b) is Some,
    ensures
        ({
            let lt = binary_op(Op::Lt, a, b, span);
            let eq = binary_op(Op::Eq, a, b, span);
            let gt = binary_op(Op::Gt, a, b, span);
            &&& lt is Ok && eq is Ok && gt is Ok
            &&& lt->Ok_0 is Bool && eq->Ok_0 is Bool && gt->Ok_0 is Bool
            &&& {
                let (p, q, r) = (lt->Ok_0->Bool_0, eq->Ok_0->Bool_0, gt->Ok_0->Bool_0);
                (p && !q && !r) || (!p && q && !r) || (!p && !q && r)
            }
        }),
{
    lemma_compare_consistent(a, b);
}

/// The length of a concatenation of two strings, or of two lists, is the sum
/// of their lengths.
pub proof fn lemma_concat_length(a: SpecValue, b: SpecValue, span: Option<Span>)
    requires
        (a is Str && b is Str) || (a is List && b is List),
    ensures
        binary_op(Op::Add, a, b, span) is Ok,
        length_of(binary_op(Op::Add, a, b, span)->Ok_0) == Some(
            length_of(a).unwrap() + length_of(b).unwrap(),
        ),
{
}

/// Two runs of one program on the same arguments, replies and budget print
/// the same text and end the same way.
pub proof fn lemma_runs_agree(
    p: Program,
    args1: Seq<SpecValue>,
    args2: Seq<SpecValue>,
    replies1: Seq<SpecReply>,
    replies2: Seq<SpecReply>,
    budget: int,
)
    requires
        args1 == args2,
        replies1 == replies2,
    ensures
        spec_run(p, args1, replies1, budget) == spec_run(p, args2, replies2, budget),
{
}

} // verus!
