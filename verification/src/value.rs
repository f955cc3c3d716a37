//! Runtime values and their mathematical view.
//!
//! Values are plain data: scalars, strings, tuples, lists, insertion-ordered
//! maps, integer ranges, callables, and iterator handles. The view [`VV`]
//! gives each value a mathematical shape over `int`, `Seq<char>` and
//! sequences; callables and iterator handles are opaque at the view level,
//! and contracts about them speak of the executable values directly.

use vstd::prelude::*;

use crate::expr::{expr_equiv, KFunction};
use crate::iter::{iter_equiv, KIterator};

verus! {

/// An integer range with an inclusive or exclusive upper bound.
#[derive(Debug, Clone, Copy, PartialEq, Eq)]
pub struct IntRange {
    pub start: i64,
    pub end: i64,
    pub inclusive: bool,
}

/// One entry of a map value.
#[derive(Debug, PartialEq)]
pub struct KvPair {
    pub key: Value,
    pub value: Value,
}

/// A runtime value.
#[derive(Debug, PartialEq)]
pub enum Value {
    Null,
    Bool(bool),
    Number(i64),
    Str(String),
    Tuple(Vec<Value>),
    List(Vec<Value>),
    Range(IntRange),
    MapVal(Vec<KvPair>),
    Function(KFunction),
    Iterator(Box<KIterator>),
}

/// The mathematical shape of a value. Callables and iterator handles are
/// opaque here; their behaviour is specified against the executable
/// representation instead.
pub enum VV {
    Null,
    Bool(bool),
    Int(int),
    Str(Seq<char>),
    Tuple(Seq<VV>),
    List(Seq<VV>),
    Range { start: int, end: int, inclusive: bool },
    MapVal(Seq<(VV, VV)>),
    Fun,
    Iter,
}

pub open spec fn seq_vview(s: Seq<Value>) -> Seq<VV>
    decreases s,
{
    if s.len() == 0 {
        Seq::empty()
    } else {
        seq_vview(s.drop_last()).push(vview(s.last()))
    }
}

pub open spec fn pairs_vview(s: Seq<KvPair>) -> Seq<(VV, VV)>
    decreases s,
{
    if s.len() == 0 {
        Seq::empty()
    } else {
        pairs_vview(s.drop_last()).push((vview(s.last().key), vview(s.last().value)))
    }
}

/// The view of a value.
pub open spec fn vview(v: Value) -> VV
    decreases v,
{
    match v {
        Value::Null => VV::Null,
        Value::Bool(b) => VV::Bool(b),
        Value::Number(n) => VV::Int(n as int),
        Value::Str(s) => VV::Str(s@),
        Value::Tuple(xs) => VV::Tuple(seq_vview(xs@)),
        Value::List(xs) => VV::List(seq_vview(xs@)),
        Value::Range(r) => VV::Range {
            start: r.start as int,
            end: r.end as int,
            inclusive: r.inclusive,
        },
        Value::MapVal(entries) => VV::MapVal(pairs_vview(entries@)),
        Value::Function(_) => VV::Fun,
        Value::Iterator(_) => VV::Iter,
    }
}

impl View for Value {
    type V = VV;

    open spec fn view(&self) -> VV {
        vview(*self)
    }
}

pub broadcast proof fn lemma_seq_vview_len(s: Seq<Value>)
    ensures
        (#[trigger] seq_vview(s)).len() == s.len(),
    decreases s,
{
    if s.len() > 0 {
        lemma_seq_vview_len(s.drop_last());
    }
}

pub broadcast proof fn lemma_seq_vview_index(s: Seq<Value>, i: int)
    requires
        0 <= i < s.len(),
    ensures
        #[trigger] seq_vview(s)[i] == vview(s[i]),
    decreases s,
{
    lemma_seq_vview_len(s);
    lemma_seq_vview_len(s.drop_last());
    if i < s.len() - 1 {
        lemma_seq_vview_index(s.drop_last(), i);
    }
}

pub broadcast proof fn lemma_pairs_vview_len(s: Seq<KvPair>)
    ensures
        (#[trigger] pairs_vview(s)).len() == s.len(),
    decreases s,
{
    if s.len() > 0 {
        lemma_pairs_vview_len(s.drop_last());
    }
}

pub broadcast proof fn lemma_pairs_vview_index(s: Seq<KvPair>, i: int)
    requires
        0 <= i < s.len(),
    ensures
        #[trigger] pairs_vview(s)[i] == (vview(s[i].key), vview(s[i].value)),
    decreases s,
{
    lemma_pairs_vview_len(s);
    lemma_pairs_vview_len(s.drop_last());
    if i < s.len() - 1 {
        lemma_pairs_vview_index(s.drop_last(), i);
    }
}

/// Structural equivalence of two values: equal views everywhere, and for
/// callables and iterator handles (opaque in the view) equivalent
/// executable structure. This is what a deep copy preserves.
pub open spec fn veq(a: Value, b: Value) -> bool
    decreases a,
{
    match (a, b) {
        (Value::Null, Value::Null) => true,
        (Value::Bool(x), Value::Bool(y)) => x == y,
        (Value::Number(x), Value::Number(y)) => x == y,
        (Value::Str(x), Value::Str(y)) => x@ == y@,
        (Value::Tuple(x), Value::Tuple(y)) => seq_veq(x@, y@),
        (Value::List(x), Value::List(y)) => seq_veq(x@, y@),
        (Value::Range(x), Value::Range(y)) => x == y,
        (Value::MapVal(x), Value::MapVal(y)) => pairs_veq(x@, y@),
        (Value::Function(x), Value::Function(y)) => x.arity == y.arity && expr_equiv(
            x.body,
            y.body,
        ),
        (Value::Iterator(x), Value::Iterator(y)) => iter_equiv(*x, *y),
        _ => false,
    }
}

pub open spec fn seq_veq(a: Seq<Value>, b: Seq<Value>) -> bool
    decreases a,
{
    a.len() == b.len() && (forall|i: int| 0 <= i < a.len() ==> veq(#[trigger] a[i], b[i]))
}

pub open spec fn pairs_veq(a: Seq<KvPair>, b: Seq<KvPair>) -> bool
    decreases a,
{
    a.len() == b.len() && (forall|i: int|
        0 <= i < a.len() ==> veq((#[trigger] a[i]).key, b[i].key) && veq(a[i].value, b[i].value))
}

/// Equality as the script's `==` operator sees it: deep structural equality
/// of plain data; callables and iterator handles never compare equal.
pub open spec fn val_eq_spec(a: Value, b: Value) -> bool
    decreases a,
{
    match (a, b) {
        (Value::Null, Value::Null) => true,
        (Value::Bool(x), Value::Bool(y)) => x == y,
        (Value::Number(x), Value::Number(y)) => x == y,
        (Value::Str(x), Value::Str(y)) => x@ == y@,
        (Value::Tuple(x), Value::Tuple(y)) => seq_val_eq_spec(x@, y@),
        (Value::List(x), Value::List(y)) => seq_val_eq_spec(x@, y@),
        (Value::Range(x), Value::Range(y)) => x == y,
        (Value::MapVal(x), Value::MapVal(y)) => pairs_val_eq_spec(x@, y@),
        _ => false,
    }
}

pub open spec fn seq_val_eq_spec(a: Seq<Value>, b: Seq<Value>) -> bool
    decreases a,
{
    a.len() == b.len() && (forall|i: int| 0 <= i < a.len() ==> val_eq_spec(#[trigger] a[i], b[i]))
}

pub open spec fn pairs_val_eq_spec(a: Seq<KvPair>, b: Seq<KvPair>) -> bool
    decreases a,
{
    a.len() == b.len() && (forall|i: int|
        0 <= i < a.len() ==> val_eq_spec((#[trigger] a[i]).key, b[i].key) && val_eq_spec(
            a[i].value,
            b[i].value,
        ))
}

impl Value {
    /// A short name for the value's type, for error messages.
    pub fn kind_name(&self) -> String {
        match self {
            Value::Null => "Null".to_owned(),
            Value::Bool(_) => "Bool".to_owned(),
            Value::Number(_) => "Number".to_owned(),
            Value::Str(_) => "String".to_owned(),
            Value::Tuple(_) => "Tuple".to_owned(),
            Value::List(_) => "List".to_owned(),
            Value::Range(_) => "Range".to_owned(),
            Value::MapVal(_) => "Map".to_owned(),
            Value::Function(_) => "Function".to_owned(),
            Value::Iterator(_) => "Iterator".to_owned(),
        }
    }
}

/// Deep copy of a value. Sub-iterators are copied through their own
/// independent-copy operation, so the copy's later advances cannot affect
/// the original.
pub fn value_clone(v: &Value) -> (r: Value)
    ensures
        veq(*v, r),
    decreases *v,
{
    match v {
        Value::Null => Value::Null,
        Value::Bool(b) => Value::Bool(*b),
        Value::Number(n) => Value::Number(*n),
        Value::Str(s) => Value::Str(s.clone()),
        Value::Tuple(xs) => Value::Tuple(values_clone(xs)),
        Value::List(xs) => Value::List(values_clone(xs)),
        Value::Range(r) => Value::Range(*r),
        Value::MapVal(entries) => Value::MapVal(pairs_clone(entries)),
        Value::Function(f) => Value::Function(f.duplicate()),
        Value::Iterator(it) => Value::Iterator(Box::new(it.make_copy())),
    }
}

/// Deep copy of a vector of values.
pub fn values_clone(xs: &Vec<Value>) -> (r: Vec<Value>)
    ensures
        seq_veq(xs@, r@),
    decreases *xs,
{
    let mut r: Vec<Value> = Vec::new();
    let n = xs.len();
    for i in 0..n
        invariant
            n == xs.len(),
            r.len() == i,
            forall|j: int| 0 <= j < i ==> veq(#[trigger] xs@[j], r@[j]),
        decreases n - i,
    {
        r.push(value_clone(&xs[i]));
    }
    r
}

/// Deep copy of a vector of map entries.
pub fn pairs_clone(xs: &Vec<KvPair>) -> (r: Vec<KvPair>)
    ensures
        pairs_veq(xs@, r@),
    decreases *xs,
{
    let mut r: Vec<KvPair> = Vec::new();
    let n = xs.len();
    for i in 0..n
        invariant
            n == xs.len(),
            r.len() == i,
            forall|j: int|
                0 <= j < i ==> veq((#[trigger] xs@[j]).key, r@[j].key) && veq(
                    xs@[j].value,
                    r@[j].value,
                ),
        decreases n - i,
    {
        let p = KvPair { key: value_clone(&xs[i].key), value: value_clone(&xs[i].value) };
        r.push(p);
    }
    r
}

/// Deep equality test, as the script's `==` operator behaves.
pub fn value_eq(a: &Value, b: &Value) -> (r: bool)
    ensures
        r == val_eq_spec(*a, *b),
    decreases *a,
{
    match (a, b) {
        (Value::Null, Value::Null) => true,
        (Value::Bool(x), Value::Bool(y)) => *x == *y,
        (Value::Number(x), Value::Number(y)) => *x == *y,
        (Value::Str(x), Value::Str(y)) => *x == *y,
        (Value::Tuple(x), Value::Tuple(y)) => values_eq(x, y),
        (Value::List(x), Value::List(y)) => values_eq(x, y),
        (Value::Range(x), Value::Range(y)) => x.start == y.start && x.end == y.end && x.inclusive
            == y.inclusive,
        (Value::MapVal(x), Value::MapVal(y)) => pairs_eq(x, y),
        _ => false,
    }
}

fn values_eq(a: &Vec<Value>, b: &Vec<Value>) -> (r: bool)
    ensures
        r == seq_val_eq_spec(a@, b@),
    decreases *a,
{
    if a.len() != b.len() {
        return false;
    }
    let n = a.len();
    for i in 0..n
        invariant
            n == a.len() && n == b.len(),
            forall|j: int| 0 <= j < i ==> val_eq_spec(#[trigger] a@[j], b@[j]),
        decreases n - i,
    {
        if !value_eq(&a[i], &b[i]) {
            return false;
        }
    }
    true
}

fn pairs_eq(a: &Vec<KvPair>, b: &Vec<KvPair>) -> (r: bool)
    ensures
        r == pairs_val_eq_spec(a@, b@),
    decreases *a,
{
    if a.len() != b.len() {
        return false;
    }
    let n = a.len();
    for i in 0..n
        invariant
            n == a.len() && n == b.len(),
            forall|j: int|
                0 <= j < i ==> val_eq_spec((#[trigger] a@[j]).key, b@[j].key) && val_eq_spec(
                    a@[j].value,
                    b@[j].value,
                ),
        decreases n - i,
    {
        if !value_eq(&a[i].key, &b[i].key) {
            return false;
        }
        if !value_eq(&a[i].value, &b[i].value) {
            return false;
        }
    }
    true
}

/// Equivalent value sequences have equal view sequences.
pub proof fn lemma_seq_veq_views(a: Seq<Value>, b: Seq<Value>)
    requires
        seq_veq(a, b),
    ensures
        seq_vview(a) == seq_vview(b),
{
    broadcast use lemma_seq_vview_len, lemma_seq_vview_index;

    assert forall|i: int| 0 <= i < a.len() implies seq_vview(a)[i] == seq_vview(b)[i] by {
        lemma_veq_views(a[i], b[i]);
    }
    assert(seq_vview(a) =~= seq_vview(b));
}

/// Equivalent values have equal views.
pub proof fn lemma_veq_views(a: Value, b: Value)
    requires
        veq(a, b),
    ensures
        vview(a) == vview(b),
    decreases a,
{
    broadcast use
        lemma_seq_vview_len,
        lemma_seq_vview_index,
        lemma_pairs_vview_len,
        lemma_pairs_vview_index,
    ;

    match (a, b) {
        (Value::Tuple(x), Value::Tuple(y)) => {
            assert forall|i: int| 0 <= i < x@.len() implies seq_vview(x@)[i] == seq_vview(y@)[i] by {
                lemma_veq_views(x@[i], y@[i]);
            }
            assert(seq_vview(x@) =~= seq_vview(y@));
        },
        (Value::List(x), Value::List(y)) => {
            assert forall|i: int| 0 <= i < x@.len() implies seq_vview(x@)[i] == seq_vview(y@)[i] by {
                lemma_veq_views(x@[i], y@[i]);
            }
            assert(seq_vview(x@) =~= seq_vview(y@));
        },
        (Value::MapVal(x), Value::MapVal(y)) => {
            assert forall|i: int| 0 <= i < x@.len() implies pairs_vview(x@)[i] == pairs_vview(
                y@,
            )[i] by {
                lemma_veq_views(x@[i].key, y@[i].key);
                lemma_veq_views(x@[i].value, y@[i].value);
            }
            assert(pairs_vview(x@) =~= pairs_vview(y@));
        },
        _ => {},
    }
}

} // verus!
