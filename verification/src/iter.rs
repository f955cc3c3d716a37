//! The iterator protocol: a tagged union of the built-in adaptor and
//! generator kinds over a uniform output shape, with forward iteration,
//! backward iteration where the source supports it, size hints, and
//! independent deep copies.
//!
//! The denotation [`iter_rem`] gives the sequence of outputs an iterator
//! has left to yield, where that sequence is finite and statically
//! describable; contracts are stated against it. Unbounded iterators
//! (cycling, repeating, generating) have no such sequence and their
//! behaviour is specified structurally on their state instead.

use vstd::prelude::*;

use crate::error::{err_view, ErrV, RuntimeError};
use crate::expr::{call_spec, expr_equiv, KFunction};
use crate::value::{value_clone, veq, vview, Value, VV};

verus! {

broadcast use
    crate::value::lemma_seq_vview_len,
    crate::value::lemma_seq_vview_index,
    crate::value::lemma_pairs_vview_len,
    crate::value::lemma_pairs_vview_index,
;

/// One step of iterator output.
#[derive(Debug, PartialEq)]
pub enum Output {
    Value(Value),
    ValuePair(Value, Value),
    Error(RuntimeError),
}

/// The mathematical shape of an iterator output.
pub enum OutV {
    Val(VV),
    Pair(VV, VV),
    Fail(ErrV),
}

pub open spec fn out_view(o: Output) -> OutV
    decreases o,
{
    match o {
        Output::Value(v) => OutV::Val(vview(v)),
        Output::ValuePair(a, b) => OutV::Pair(vview(a), vview(b)),
        Output::Error(e) => OutV::Fail(err_view(e)),
    }
}

/// Structural equivalence of outputs: equivalent payloads.
pub open spec fn out_equiv(a: Output, b: Output) -> bool
    decreases a,
{
    match (a, b) {
        (Output::Value(x), Output::Value(y)) => veq(x, y),
        (Output::ValuePair(x0, x1), Output::ValuePair(y0, y1)) => veq(x0, y0) && veq(x1, y1),
        (Output::Error(x), Output::Error(y)) => err_view(x) == err_view(y),
        _ => false,
    }
}

/// Collapses a key/value pair into a two-element tuple; other outputs pass
/// through unchanged.
pub fn collect_pair(iterator_output: Output) -> (r: Output)
    ensures
        out_view(r) == collect_pair_spec(out_view(iterator_output)),
        rem_out_of(r) == rem_collapse(rem_out_of(iterator_output)),
        iterator_output is Error ==> r == iterator_output,
{
    match iterator_output {
        Output::ValuePair(first, second) => {
            let mut parts: Vec<Value> = Vec::new();
            parts.push(first);
            parts.push(second);
            proof {
                assert(crate::value::seq_vview(parts@) =~= seq![vview(parts@[0]), vview(
                    parts@[1],
                )]);
            }
            Output::Value(Value::Tuple(parts))
        },
        other => other,
    }
}

/// What collapsing a pair does to an output's shape.
pub open spec fn collect_pair_spec(o: OutV) -> OutV {
    match o {
        OutV::Pair(a, b) => OutV::Val(VV::Tuple(seq![a, b])),
        other => other,
    }
}

/// An iterator that links the output of two iterators together in a
/// chained sequence.
#[derive(Debug, PartialEq)]
pub struct Chain {
    pub iter_a: Option<Box<KIterator>>,
    pub iter_b: Box<KIterator>,
}

impl Chain {
    /// Builds the chain of two iterators: all of the first, then all of
    /// the second.
    pub fn new(iter_a: KIterator, iter_b: KIterator) -> (r: Chain)
        ensures
            r.iter_a == Some(Box::new(iter_a)),
            r.iter_b == Box::new(iter_b),
    {
        Chain { iter_a: Some(Box::new(iter_a)), iter_b: Box::new(iter_b) }
    }
}

/// An iterator that runs a function on each output value from the adapted
/// iterator.
#[derive(Debug, PartialEq)]
pub struct Each {
    pub iter: Box<KIterator>,
    pub function: KFunction,
}

impl Each {
    /// Builds the mapping adaptor from a source iterator and a callable.
    pub fn new(iter: KIterator, function: KFunction) -> (r: Each)
        ensures
            r.iter == Box::new(iter),
            r.function == function,
    {
        Each { iter: Box::new(iter), function }
    }
}

/// A runtime iterator: one of the built-in sources, adaptors, and
/// generators.
#[derive(Debug, PartialEq)]
pub enum KIterator {
    /// A materialized sequence of values, iterated between two cursors.
    Values { items: Vec<Value>, front: usize, back: usize },
    /// A materialized sequence of key/value pairs.
    Pairs { items: Vec<crate::value::KvPair>, front: usize, back: usize },
    /// An integer range: the values in `[lo, hi)`, emitted upward, or
    /// downward when `down` is set.
    RangeIter { lo: i64, hi: i64, down: bool },
    Chain(Chain),
    Each(Each),
    /// Infinite replay: buffers the source's values on the first pass.
    Cycle { source: Box<KIterator>, buffer: Vec<Value>, cursor: usize, exhausted: bool },
    Enumerate { inner: Box<KIterator>, index: usize },
    /// Substitutes the elements of iterable elements, one level deep.
    Flatten { inner: Box<KIterator>, current: Option<Box<KIterator>> },
    Intersperse { inner: Box<KIterator>, sep: Value, pending: Option<Box<Output>>, started: bool },
    IntersperseWith {
        inner: Box<KIterator>,
        sep_fn: KFunction,
        pending: Option<Box<Output>>,
        started: bool,
    },
    Keep { inner: Box<KIterator>, predicate: KFunction },
    Take { inner: Box<KIterator>, remaining: usize },
    Chunks { inner: Box<KIterator>, size: usize, buf: Vec<Value> },
    Windows { inner: Box<KIterator>, size: usize, buf: Vec<Value> },
    Reversed { inner: Box<KIterator> },
    Zip { iter_a: Box<KIterator>, iter_b: Box<KIterator> },
    Peekable { inner: Box<KIterator>, peeked: Option<Box<Option<Output>>> },
    Repeat { value: Value },
    RepeatN { value: Value, remaining: usize },
    Generate { function: KFunction },
    GenerateN { function: KFunction, remaining: usize },
}

/// Structural equivalence of two iterators: the same kind, equivalent
/// captured values and callables, equal cursors, and equivalent
/// sub-iterators. An independent copy is equivalent to its original.
pub open spec fn iter_equiv(a: KIterator, b: KIterator) -> bool
    decreases a,
{
    match (a, b) {
        (
            KIterator::Values { items: xi, front: xf, back: xb },
            KIterator::Values { items: yi, front: yf, back: yb },
        ) => crate::value::seq_veq(xi@, yi@) && xf == yf && xb == yb,
        (
            KIterator::Pairs { items: xi, front: xf, back: xb },
            KIterator::Pairs { items: yi, front: yf, back: yb },
        ) => crate::value::pairs_veq(xi@, yi@) && xf == yf && xb == yb,
        (
            KIterator::RangeIter { lo: xl, hi: xh, down: xd },
            KIterator::RangeIter { lo: yl, hi: yh, down: yd },
        ) => xl == yl && xh == yh && xd == yd,
        (KIterator::Chain(x), KIterator::Chain(y)) => {
            &&& match (x.iter_a, y.iter_a) {
                (Some(xa), Some(ya)) => iter_equiv(*xa, *ya),
                (None, None) => true,
                _ => false,
            }
            &&& iter_equiv(*x.iter_b, *y.iter_b)
        },
        (KIterator::Each(x), KIterator::Each(y)) => iter_equiv(*x.iter, *y.iter) && x.function.arity
            == y.function.arity && expr_equiv(x.function.body, y.function.body),
        (
            KIterator::Cycle { source: xs, buffer: xb, cursor: xc, exhausted: xe },
            KIterator::Cycle { source: ys, buffer: yb, cursor: yc, exhausted: ye },
        ) => iter_equiv(*xs, *ys) && crate::value::seq_veq(xb@, yb@) && xc == yc && xe == ye,
        (
            KIterator::Enumerate { inner: xi, index: xn },
            KIterator::Enumerate { inner: yi, index: yn },
        ) => iter_equiv(*xi, *yi) && xn == yn,
        (
            KIterator::Flatten { inner: xi, current: xc },
            KIterator::Flatten { inner: yi, current: yc },
        ) => iter_equiv(*xi, *yi) && match (xc, yc) {
            (Some(xcur), Some(ycur)) => iter_equiv(*xcur, *ycur),
            (None, None) => true,
            _ => false,
        },
        (
            KIterator::Intersperse { inner: xi, sep: xs, pending: xp, started: xst },
            KIterator::Intersperse { inner: yi, sep: ys, pending: yp, started: yst },
        ) => iter_equiv(*xi, *yi) && veq(xs, ys) && xst == yst && match (xp, yp) {
            (Some(xo), Some(yo)) => out_equiv(*xo, *yo),
            (None, None) => true,
            _ => false,
        },
        (
            KIterator::IntersperseWith { inner: xi, sep_fn: xf, pending: xp, started: xst },
            KIterator::IntersperseWith { inner: yi, sep_fn: yf, pending: yp, started: yst },
        ) => iter_equiv(*xi, *yi) && xf.arity == yf.arity && expr_equiv(xf.body, yf.body) && xst
            == yst && match (xp, yp) {
            (Some(xo), Some(yo)) => out_equiv(*xo, *yo),
            (None, None) => true,
            _ => false,
        },
        (
            KIterator::Keep { inner: xi, predicate: xp },
            KIterator::Keep { inner: yi, predicate: yp },
        ) => iter_equiv(*xi, *yi) && xp.arity == yp.arity && expr_equiv(xp.body, yp.body),
        (
            KIterator::Take { inner: xi, remaining: xn },
            KIterator::Take { inner: yi, remaining: yn },
        ) => iter_equiv(*xi, *yi) && xn == yn,
        (
            KIterator::Chunks { inner: xi, size: xn, buf: xb },
            KIterator::Chunks { inner: yi, size: yn, buf: yb },
        ) => iter_equiv(*xi, *yi) && xn == yn && crate::value::seq_veq(xb@, yb@),
        (
            KIterator::Windows { inner: xi, size: xn, buf: xb },
            KIterator::Windows { inner: yi, size: yn, buf: yb },
        ) => iter_equiv(*xi, *yi) && xn == yn && crate::value::seq_veq(xb@, yb@),
        (KIterator::Reversed { inner: xi }, KIterator::Reversed { inner: yi }) => iter_equiv(
            *xi,
            *yi,
        ),
        (
            KIterator::Zip { iter_a: xa, iter_b: xb },
            KIterator::Zip { iter_a: ya, iter_b: yb },
        ) => iter_equiv(*xa, *ya) && iter_equiv(*xb, *yb),
        (
            KIterator::Peekable { inner: xi, peeked: xp },
            KIterator::Peekable { inner: yi, peeked: yp },
        ) => iter_equiv(*xi, *yi) && match (xp, yp) {
            (Some(xo), Some(yo)) => match (*xo, *yo) {
                (Some(xout), Some(yout)) => out_equiv(xout, yout),
                (None, None) => true,
                _ => false,
            },
            (None, None) => true,
            _ => false,
        },
        (KIterator::Repeat { value: xv }, KIterator::Repeat { value: yv }) => veq(xv, yv),
        (
            KIterator::RepeatN { value: xv, remaining: xn },
            KIterator::RepeatN { value: yv, remaining: yn },
        ) => veq(xv, yv) && xn == yn,
        (KIterator::Generate { function: xf }, KIterator::Generate { function: yf }) => xf.arity
            == yf.arity && expr_equiv(xf.body, yf.body),
        (
            KIterator::GenerateN { function: xf, remaining: xn },
            KIterator::GenerateN { function: yf, remaining: yn },
        ) => xf.arity == yf.arity && expr_equiv(xf.body, yf.body) && xn == yn,
        _ => false,
    }
}

/// The shape of one remaining output, as the denotation sees it: values
/// and pairs by their views, errors opaquely.
pub enum RemOut {
    Val(VV),
    Pair(VV, VV),
    Fail,
}

/// The denotation's shape of an output.
pub open spec fn rem_out_of(o: Output) -> RemOut {
    match o {
        Output::Value(v) => RemOut::Val(vview(v)),
        Output::ValuePair(a, b) => RemOut::Pair(vview(a), vview(b)),
        Output::Error(_) => RemOut::Fail,
    }
}

/// Collapsing a pair into a two-element tuple, at the denotation level.
pub open spec fn rem_collapse(o: RemOut) -> RemOut {
    match o {
        RemOut::Pair(a, b) => RemOut::Val(VV::Tuple(seq![a, b])),
        other => other,
    }
}

/// What mapping a callable over one collapsed output yields.
pub open spec fn each_out(o: RemOut, f: KFunction) -> RemOut {
    match rem_collapse(o) {
        RemOut::Val(v) => match call_spec(f, seq![v]) {
            Some(r) => RemOut::Val(r),
            None => RemOut::Fail,
        },
        other => other,
    }
}

/// What one invocation of a nullary generator callable yields.
pub open spec fn gen_out(f: KFunction) -> RemOut {
    match call_spec(f, Seq::empty()) {
        Some(r) => RemOut::Val(r),
        None => RemOut::Fail,
    }
}

/// Zipping two output sequences: errors pass through (consuming the side
/// that produced them, and the other side's pulled item with them), and
/// two values become a pair; the result ends when either side ends.
pub open spec fn zip_outs(a: Seq<RemOut>, b: Seq<RemOut>) -> Seq<RemOut>
    decreases a.len(),
{
    if a.len() == 0 {
        Seq::empty()
    } else if a[0] is Fail {
        seq![RemOut::Fail] + zip_outs(a.drop_first(), b)
    } else if b.len() == 0 {
        Seq::empty()
    } else if b[0] is Fail {
        seq![RemOut::Fail] + zip_outs(a.drop_first(), b.drop_first())
    } else {
        seq![
            RemOut::Pair(rem_val(rem_collapse(a[0])), rem_val(rem_collapse(b[0]))),
        ] + zip_outs(a.drop_first(), b.drop_first())
    }
}

/// The value inside a `Val` output.
pub open spec fn rem_val(o: RemOut) -> VV
    recommends
        o is Val,
{
    match o {
        RemOut::Val(v) => v,
        RemOut::Pair(a, b) => VV::Tuple(seq![a, b]),
        RemOut::Fail => VV::Null,
    }
}

/// Whether every output in the sequence is a plain value.
pub open spec fn all_values(s: Seq<RemOut>) -> bool {
    forall|i: int| 0 <= i < s.len() ==> (#[trigger] s[i]) is Val
}

/// The values of an all-value output sequence.
pub open spec fn rem_vals(s: Seq<RemOut>) -> Seq<VV> {
    Seq::new(s.len(), |i: int| rem_val(s[i]))
}

/// Grouping a value sequence into tuples of `n`, the last possibly
/// shorter.
pub open spec fn chunk_outs(v: Seq<VV>, n: int) -> Seq<RemOut>
    decreases v.len(),
{
    if n <= 0 || v.len() == 0 {
        Seq::empty()
    } else if v.len() <= n {
        seq![RemOut::Val(VV::Tuple(v))]
    } else {
        seq![RemOut::Val(VV::Tuple(v.take(n)))] + chunk_outs(v.skip(n), n)
    }
}

/// The sliding windows of width `n` over a value sequence.
pub open spec fn window_outs(v: Seq<VV>, n: int) -> Seq<RemOut> {
    if n <= 0 || v.len() < n {
        Seq::empty()
    } else {
        Seq::new((v.len() - n + 1) as nat, |i: int| RemOut::Val(VV::Tuple(v.subrange(i, i + n))))
    }
}

/// The next `k` outputs of a cycling adaptor's state over its source's
/// remaining outputs: buffered values replay cyclically once the source
/// is exhausted; until then each source value is yielded and buffered
/// (collapsed pairs included), a source error passes through unbuffered,
/// and at the source's end replay starts over from the buffer's head.
pub open spec fn cycle_outs(
    src: Seq<RemOut>,
    buf: Seq<VV>,
    cursor: int,
    exhausted: bool,
    k: nat,
) -> Seq<RemOut>
    decreases k, (if exhausted {
        0int
    } else {
        1int
    }),
{
    if k == 0 {
        Seq::empty()
    } else if exhausted {
        if buf.len() == 0 {
            Seq::empty()
        } else {
            let at = if 0 <= cursor < buf.len() {
                cursor
            } else {
                0
            };
            seq![RemOut::Val(buf[at])] + cycle_outs(
                src,
                buf,
                if at + 1 < buf.len() {
                    at + 1
                } else {
                    0
                },
                true,
                (k - 1) as nat,
            )
        }
    } else if src.len() == 0 {
        cycle_outs(src, buf, 0, true, k)
    } else {
        match rem_collapse(src[0]) {
            RemOut::Val(v) => seq![RemOut::Val(v)] + cycle_outs(
                src.drop_first(),
                buf.push(v),
                cursor,
                false,
                (k - 1) as nat,
            ),
            _ => seq![RemOut::Fail] + cycle_outs(
                src.drop_first(),
                buf,
                cursor,
                false,
                (k - 1) as nat,
            ),
        }
    }
}

/// The sequence of outputs an iterator has left to yield, where that
/// sequence is finite and statically describable; `None` where it is not
/// (unbounded replay or generation, filtering, flattening).
pub open spec fn iter_rem(it: KIterator) -> Option<Seq<RemOut>>
    decreases it,
{
    match it {
        KIterator::Values { items, front, back } => if front <= back <= items@.len() {
            Some(
                Seq::new(
                    (back - front) as nat,
                    |i: int| RemOut::Val(vview(items@[front + i])),
                ),
            )
        } else {
            Some(Seq::empty())
        },
        KIterator::Pairs { items, front, back } => if front <= back <= items@.len() {
            Some(
                Seq::new(
                    (back - front) as nat,
                    |i: int|
                        RemOut::Pair(
                            vview(items@[front + i].key),
                            vview(items@[front + i].value),
                        ),
                ),
            )
        } else {
            Some(Seq::empty())
        },
        KIterator::RangeIter { lo, hi, down } => if lo <= hi {
            Some(
                Seq::new(
                    (hi - lo) as nat,
                    |i: int|
                        RemOut::Val(
                            VV::Int(
                                if down {
                                    hi - 1 - i
                                } else {
                                    lo + i
                                },
                            ),
                        ),
                ),
            )
        } else {
            Some(Seq::empty())
        },
        KIterator::Chain(c) => match c.iter_a {
            Some(a) => match (iter_rem(*a), iter_rem(*c.iter_b)) {
                (Some(ra), Some(rb)) => Some(ra + rb),
                _ => None,
            },
            None => iter_rem(*c.iter_b),
        },
        KIterator::Each(e) => match iter_rem(*e.iter) {
            Some(s) => Some(Seq::new(s.len(), |i: int| each_out(s[i], e.function))),
            None => None,
        },
        KIterator::Cycle { source, buffer, cursor, exhausted } => if buffer@.len() == 0 && (
        exhausted || iter_rem(*source) == Some(Seq::<RemOut>::empty())) {
            Some(Seq::empty())
        } else {
            None
        },
        KIterator::Enumerate { inner, index } => match iter_rem(*inner) {
            Some(s) => if index + s.len() <= i64::MAX && index + s.len() <= usize::MAX {
                Some(
                    Seq::new(
                        s.len(),
                        |i: int|
                            match rem_collapse(s[i]) {
                                RemOut::Val(v) => RemOut::Pair(VV::Int(index + i), v),
                                other => other,
                            },
                    ),
                )
            } else {
                None
            },
            None => None,
        },
        KIterator::Flatten { inner, current } => None,
        KIterator::Intersperse { inner, sep, pending, started } => None,
        KIterator::IntersperseWith { inner, sep_fn, pending, started } => None,
        KIterator::Keep { inner, predicate } => None,
        KIterator::Take { inner, remaining } => match iter_rem(*inner) {
            Some(s) => Some(s.take(if remaining <= s.len() {
                remaining as int
            } else {
                s.len() as int
            })),
            None => match *inner {
                KIterator::Cycle { source, buffer, cursor, exhausted } => match iter_rem(
                    *source,
                ) {
                    Some(src) => Some(
                        cycle_outs(
                            src,
                            crate::value::seq_vview(buffer@),
                            cursor as int,
                            exhausted,
                            remaining as nat,
                        ),
                    ),
                    None => if remaining == 0 {
                        Some(Seq::empty())
                    } else {
                        None
                    },
                },
                _ => if remaining == 0 {
                    Some(Seq::empty())
                } else {
                    None
                },
            },
        },
        KIterator::Chunks { inner, size, buf } => match iter_rem(*inner) {
            Some(s) => if size > 0 && buf@.len() < size && all_values(s) {
                Some(chunk_outs(crate::value::seq_vview(buf@) + rem_vals(s), size as int))
            } else {
                None
            },
            None => None,
        },
        KIterator::Windows { inner, size, buf } => match iter_rem(*inner) {
            Some(s) => if size > 0 && buf@.len() < size && all_values(s) {
                Some(window_outs(crate::value::seq_vview(buf@) + rem_vals(s), size as int))
            } else {
                None
            },
            None => None,
        },
        KIterator::Reversed { inner } => if bidirectional(*inner) {
            match iter_rem(*inner) {
                Some(s) => Some(s.reverse()),
                None => None,
            }
        } else {
            None
        },
        KIterator::Zip { iter_a, iter_b } => match (iter_rem(*iter_a), iter_rem(*iter_b)) {
            (Some(ra), Some(rb)) => Some(zip_outs(ra, rb)),
            _ => None,
        },
        KIterator::Peekable { inner, peeked } => match iter_rem(*inner) {
            Some(s) => match peeked {
                Some(front) => match *front {
                    Some(o) => Some(seq![rem_out_of(o)] + s),
                    None => Some(Seq::empty()),
                },
                None => Some(s),
            },
            None => None,
        },
        KIterator::Repeat { value } => None,
        KIterator::RepeatN { value, remaining } => Some(
            Seq::new(remaining as nat, |i: int| RemOut::Val(vview(value))),
        ),
        KIterator::Generate { function } => None,
        KIterator::GenerateN { function, remaining } => Some(
            Seq::new(remaining as nat, |i: int| gen_out(function)),
        ),
    }
}


/// How one forward step of the replaying adaptor relates its state before
/// and after the call and the output produced. On the first pass every
/// source value is buffered (after pair collapsing) and yielded; source
/// errors pass through unbuffered; when the source ends, replay begins at
/// the buffer's start and the cursor walks the buffer cyclically.
pub open spec fn cycle_step_ok(pre: KIterator, post: KIterator, r: Option<Output>) -> bool {
    match pre {
        KIterator::Cycle { source: s0, buffer: b0, cursor: c0, exhausted: e0 } => match post {
            KIterator::Cycle { source: s1, buffer: b1, cursor: c1, exhausted: e1 } => if e0 {
                // replay: the buffer and source are untouched and the
                // cursor advances cyclically over the buffered values
                &&& s1 == s0
                &&& b1 == b0
                &&& e1
                &&& if b0@.len() == 0 {
                    r is None && c1 == c0
                } else {
                    let at = if c0 < b0@.len() {
                        c0 as int
                    } else {
                        0
                    };
                    &&& (r matches Some(o) && (o matches Output::Value(v) && vview(v) == vview(
                        b0@[at],
                    )))
                    &&& c1 == if at + 1 < b0@.len() {
                        at + 1
                    } else {
                        0
                    }
                }
            } else {
                &&& match r {
                    Some(o) => match o {
                        // a collapsed source value, also appended to the
                        // replay buffer
                        Output::Value(v) => (!e1 && b1@.len() == b0@.len() + 1 && (forall|i: int|
                            0 <= i < b0@.len() ==> b1@[i] == b0@[i]) && vview(b1@[b0@.len() as int])
                            == vview(v) && c1 == c0) || (
                        // or the source ended this call and replay began
                        e1 && b1 == b0 && b0@.len() > 0 && vview(v) == vview(b0@[0]) && c1 == if b0@.len() > 1 {
                            1int
                        } else {
                            0
                        }),
                        // a source error passes through unbuffered
                        Output::Error(_) => !e1 && b1 == b0 && c1 == c0,
                        Output::ValuePair(_, _) => false,
                    },
                    // the source ended with nothing buffered
                    None => e1 && b1 == b0 && b0@.len() == 0 && c1 == c0,
                }
                // where the source's remaining outputs are known, the
                // yielded value is exactly their collapsed head and the
                // source is left with their tail
                &&& match iter_rem(*s0) {
                    Some(src) => {
                        &&& (src.len() == 0 ==> iter_rem(*s1) is Some && iter_rem(
                            *s1,
                        )->Some_0.len() == 0 && (r is Some ==> e1))
                        &&& (src.len() > 0 ==> iter_rem(*s1) == Some(src.drop_first()) && !e1
                            && (match rem_collapse(src[0]) {
                            RemOut::Val(w) => r matches Some(o) && (o matches Output::Value(v2)
                                && vview(v2) == w),
                            _ => r matches Some(o) && (o matches Output::Error(_)),
                        }))
                    },
                    None => true,
                }
            },
            _ => false,
        },
        _ => true,
    }
}

/// How one forward step must relate the remaining-output sequences before
/// and after the call, and the output produced, wherever the denotation is
/// defined.
pub open spec fn step_ok(
    pre: Option<Seq<RemOut>>,
    post: Option<Seq<RemOut>>,
    r: Option<Output>,
) -> bool {
    match pre {
        Some(s) => if s.len() == 0 {
            r is None && post is Some && post->Some_0.len() == 0
        } else {
            match r {
                Some(o) => rem_out_of(o) == s[0] && post is Some && post->Some_0
                    == s.drop_first(),
                None => false,
            }
        },
        None => true,
    }
}

/// The mirrored relation for one backward step.
pub open spec fn step_back_ok(
    pre: Option<Seq<RemOut>>,
    post: Option<Seq<RemOut>>,
    r: Option<Output>,
) -> bool {
    match pre {
        Some(s) => if s.len() == 0 {
            r is None && post is Some && post->Some_0.len() == 0
        } else {
            match r {
                Some(o) => rem_out_of(o) == s.last() && post is Some && post->Some_0
                    == s.drop_last(),
                None => false,
            }
        },
        None => true,
    }
}

fn output_duplicate(o: &Output) -> (r: Output)
    ensures
        out_equiv(*o, r),
    decreases *o,
{
    match o {
        Output::Value(v) => Output::Value(value_clone(v)),
        Output::ValuePair(a, b) => Output::ValuePair(value_clone(a), value_clone(b)),
        Output::Error(e) => Output::Error(e.duplicate()),
    }
}

impl KIterator {
    /// Produces an independent copy: a structurally equivalent iterator
    /// whose later advances do not affect this one. Sub-iterators are
    /// copied recursively and captured values and callables are deep
    /// cloned.
    pub fn make_copy(&self) -> (r: KIterator)
        ensures
            iter_equiv(*self, r),
        decreases *self,
    {
        match self {
            KIterator::Values { items, front, back } => KIterator::Values {
                items: crate::value::values_clone(items),
                front: *front,
                back: *back,
            },
            KIterator::Pairs { items, front, back } => KIterator::Pairs {
                items: crate::value::pairs_clone(items),
                front: *front,
                back: *back,
            },
            KIterator::RangeIter { lo, hi, down } => KIterator::RangeIter {
                lo: *lo,
                hi: *hi,
                down: *down,
            },
            KIterator::Chain(c) => KIterator::Chain(
                Chain {
                    iter_a: match &c.iter_a {
                        Some(a) => Some(Box::new(a.make_copy())),
                        None => None,
                    },
                    iter_b: Box::new(c.iter_b.make_copy()),
                },
            ),
            KIterator::Each(e) => KIterator::Each(
                Each { iter: Box::new(e.iter.make_copy()), function: e.function.duplicate() },
            ),
            KIterator::Cycle { source, buffer, cursor, exhausted } => KIterator::Cycle {
                source: Box::new(source.make_copy()),
                buffer: crate::value::values_clone(buffer),
                cursor: *cursor,
                exhausted: *exhausted,
            },
            KIterator::Enumerate { inner, index } => KIterator::Enumerate {
                inner: Box::new(inner.make_copy()),
                index: *index,
            },
            KIterator::Flatten { inner, current } => KIterator::Flatten {
                inner: Box::new(inner.make_copy()),
                current: match current {
                    Some(cur) => Some(Box::new(cur.make_copy())),
                    None => None,
                },
            },
            KIterator::Intersperse { inner, sep, pending, started } => KIterator::Intersperse {
                inner: Box::new(inner.make_copy()),
                sep: value_clone(sep),
                pending: match pending {
                    Some(o) => Some(Box::new(output_duplicate(o))),
                    None => None,
                },
                started: *started,
            },
            KIterator::IntersperseWith {
                inner,
                sep_fn,
                pending,
                started,
            } => KIterator::IntersperseWith {
                inner: Box::new(inner.make_copy()),
                sep_fn: sep_fn.duplicate(),
                pending: match pending {
                    Some(o) => Some(Box::new(output_duplicate(o))),
                    None => None,
                },
                started: *started,
            },
            KIterator::Keep { inner, predicate } => KIterator::Keep {
                inner: Box::new(inner.make_copy()),
                predicate: predicate.duplicate(),
            },
            KIterator::Take { inner, remaining } => KIterator::Take {
                inner: Box::new(inner.make_copy()),
                remaining: *remaining,
            },
            KIterator::Chunks { inner, size, buf } => KIterator::Chunks {
                inner: Box::new(inner.make_copy()),
                size: *size,
                buf: crate::value::values_clone(buf),
            },
            KIterator::Windows { inner, size, buf } => KIterator::Windows {
                inner: Box::new(inner.make_copy()),
                size: *size,
                buf: crate::value::values_clone(buf),
            },
            KIterator::Reversed { inner } => KIterator::Reversed {
                inner: Box::new(inner.make_copy()),
            },
            KIterator::Zip { iter_a, iter_b } => KIterator::Zip {
                iter_a: Box::new(iter_a.make_copy()),
                iter_b: Box::new(iter_b.make_copy()),
            },
            KIterator::Peekable { inner, peeked } => KIterator::Peekable {
                inner: Box::new(inner.make_copy()),
                peeked: match peeked {
                    Some(o) => Some(
                        Box::new(
                            match &**o {
                                Some(out) => Some(output_duplicate(out)),
                                None => None,
                            },
                        ),
                    ),
                    None => None,
                },
            },
            KIterator::Repeat { value } => KIterator::Repeat { value: value_clone(value) },
            KIterator::RepeatN { value, remaining } => KIterator::RepeatN {
                value: value_clone(value),
                remaining: *remaining,
            },
            KIterator::Generate { function } => KIterator::Generate {
                function: function.duplicate(),
            },
            KIterator::GenerateN { function, remaining } => KIterator::GenerateN {
                function: function.duplicate(),
                remaining: *remaining,
            },
        }
    }

    /// Whether this iterator supports backward iteration.
    pub fn is_bidirectional(&self) -> (r: bool)
        ensures
            r == bidirectional(*self),
        decreases *self,
    {
        match self {
            KIterator::Values { .. } => true,
            KIterator::Pairs { .. } => true,
            KIterator::RangeIter { .. } => true,
            KIterator::Reversed { inner } => inner.is_bidirectional(),
            _ => false,
        }
    }

    /// Advances the iterator and yields its next output, or `None` once it
    /// is exhausted. Where the remaining-output denotation is defined, the
    /// call yields exactly its head and leaves exactly its tail; the
    /// adaptor spine never grows.
    pub fn next(&mut self) -> (r: Option<Output>)
        ensures
            step_ok(iter_rem(*old(self)), iter_rem(*final(self)), r),
            cycle_step_ok(*old(self), *final(self), r),
            keep_step_ok(*old(self), *final(self), r),
            intersperse_step_ok(*old(self), *final(self), r),
            iheight(*final(self)) <= iheight(*old(self)),
            bidirectional(*final(self)) == bidirectional(*old(self)),
    {
        self.next_nested(NEST_BUDGET)
    }

    /// The stepping core behind `next`. The nesting budget pays for
    /// descending into sub-iterators that arrive as stream values (a
    /// flattening over iterator handles), whose spine height the measure
    /// cannot see.
    #[verifier::rlimit(60)]
    fn next_nested(&mut self, nest: u64) -> (r: Option<Output>)
        ensures
            step_ok(iter_rem(*old(self)), iter_rem(*final(self)), r),
            cycle_step_ok(*old(self), *final(self), r),
            keep_step_ok(*old(self), *final(self), r),
            intersperse_step_ok(*old(self), *final(self), r),
            iheight(*final(self)) <= iheight(*old(self)),
            bidirectional(*final(self)) == bidirectional(*old(self)),
        decreases nest, iheight(*old(self)), 2nat,
    {
        match self {
            KIterator::Values { items, front, back } => {
                if *front < *back && *back <= items.len() {
                    let v = value_clone(&items[*front]);
                    proof {
                        crate::value::lemma_veq_views(items@[*front as int], v);
                    }
                    *front = *front + 1;
                    proof {
                        if iter_rem(*old(self)) is Some {
                            let s = iter_rem(*old(self))->Some_0;
                            assert(iter_rem(
                                KIterator::Values { items: *items, front: *front, back: *back },
                            )->Some_0 =~= s.drop_first());
                        }
                    }
                    Some(Output::Value(v))
                } else {
                    None
                }
            },
            KIterator::Pairs { items, front, back } => {
                if *front < *back && *back <= items.len() {
                    let k = value_clone(&items[*front].key);
                    let v = value_clone(&items[*front].value);
                    proof {
                        crate::value::lemma_veq_views(items@[*front as int].key, k);
                        crate::value::lemma_veq_views(items@[*front as int].value, v);
                    }
                    *front = *front + 1;
                    proof {
                        if iter_rem(*old(self)) is Some {
                            let s = iter_rem(*old(self))->Some_0;
                            assert(iter_rem(
                                KIterator::Pairs { items: *items, front: *front, back: *back },
                            )->Some_0 =~= s.drop_first());
                        }
                    }
                    Some(Output::ValuePair(k, v))
                } else {
                    None
                }
            },
            KIterator::RangeIter { lo, hi, down } => {
                if *lo < *hi {
                    let s = Ghost(iter_rem(*old(self))->Some_0);
                    if *down {
                        let v = *hi - 1;
                        *hi = *hi - 1;
                        proof {
                            assert(iter_rem(
                                KIterator::RangeIter { lo: *lo, hi: *hi, down: *down },
                            )->Some_0 =~= s@.drop_first());
                        }
                        Some(Output::Value(Value::Number(v)))
                    } else {
                        let v = *lo;
                        *lo = *lo + 1;
                        proof {
                            assert(iter_rem(
                                KIterator::RangeIter { lo: *lo, hi: *hi, down: *down },
                            )->Some_0 =~= s@.drop_first());
                        }
                        Some(Output::Value(Value::Number(v)))
                    }
                } else {
                    None
                }
            },
            KIterator::Chain(c) => chain_next(c, nest),
            KIterator::Each(e) => each_next(e, nest),
            KIterator::Cycle { source, buffer, cursor, exhausted } => {
                if !*exhausted {
                    let ghost src0 = iter_rem(**source);
                    match source.next_nested(nest) {
                        Some(o) => {
                            proof {
                                if src0 is Some && src0->Some_0.len() > 0 {
                                    assert(rem_out_of(o) == src0->Some_0[0]);
                                    assert(iter_rem(**source) == Some(
                                        src0->Some_0.drop_first(),
                                    ));
                                }
                            }
                            let collapsed = collect_pair(o);
                            match collapsed {
                                Output::Value(v) => {
                                    let buffered = value_clone(&v);
                                    proof {
                                        crate::value::lemma_veq_views(v, buffered);
                                        if src0 is Some && src0->Some_0.len() > 0 {
                                            assert(rem_out_of(collapsed) == rem_collapse(
                                                src0->Some_0[0],
                                            ));
                                        }
                                    }
                                    buffer.push(buffered);
                                    Some(Output::Value(v))
                                },
                                other => Some(other),
                            }
                        },
                        None => {
                            *exhausted = true;
                            if buffer.len() == 0 {
                                None
                            } else {
                                let v = value_clone(&buffer[0]);
                                proof {
                                    crate::value::lemma_veq_views(buffer@[0], v);
                                }
                                *cursor = if buffer.len() > 1 {
                                    1
                                } else {
                                    0
                                };
                                Some(Output::Value(v))
                            }
                        },
                    }
                } else {
                    if buffer.len() == 0 {
                        None
                    } else {
                        let i: usize = if *cursor < buffer.len() {
                            *cursor
                        } else {
                            0
                        };
                        let v = value_clone(&buffer[i]);
                        proof {
                            crate::value::lemma_veq_views(buffer@[i as int], v);
                        }
                        *cursor = if i + 1 < buffer.len() {
                            i + 1
                        } else {
                            0
                        };
                        Some(Output::Value(v))
                    }
                }
            },
            KIterator::Enumerate { inner, index } => enumerate_next(inner, index, nest),
            KIterator::Flatten { inner, current } => flatten_next(inner, current, nest),
            KIterator::Intersperse { inner, sep, pending, started } => {
                let held = pending.take();
                match held {
                    Some(o) => Some(*o),
                    None => {
                        if !*started {
                            *started = true;
                            inner.next_nested(nest)
                        } else {
                            match inner.next_nested(nest) {
                                None => None,
                                Some(o) => {
                                    *pending = Some(Box::new(o));
                                    let cloned = value_clone(sep);
                                    proof {
                                        crate::value::lemma_veq_views(*sep, cloned);
                                    }
                                    Some(Output::Value(cloned))
                                },
                            }
                        }
                    },
                }
            },
            KIterator::IntersperseWith { inner, sep_fn, pending, started } => {
                let held = pending.take();
                match held {
                    Some(o) => Some(*o),
                    None => {
                        if !*started {
                            *started = true;
                            inner.next_nested(nest)
                        } else {
                            match inner.next_nested(nest) {
                                None => None,
                                Some(o) => {
                                    *pending = Some(Box::new(o));
                                    let no_args: Vec<Value> = Vec::new();
                                    proof {
                                        assert(crate::value::seq_vview(no_args@)
                                            =~= Seq::<VV>::empty());
                                    }
                                    match crate::expr::run_function(sep_fn, &no_args) {
                                        Ok(v) => Some(Output::Value(v)),
                                        Err(e) => Some(
                                            Output::Error(e.with_prefix("iterator.intersperse")),
                                        ),
                                    }
                                },
                            }
                        }
                    },
                }
            },
            KIterator::Keep { inner, predicate } => keep_next(inner, predicate, nest),
            KIterator::Take { inner, remaining } => take_next(inner, remaining, nest),
            KIterator::Chunks { inner, size, buf } => chunks_next(inner, *size, buf, nest),
            KIterator::Windows { inner, size, buf } => windows_next(inner, *size, buf, nest),
            KIterator::Reversed { inner } => {
                let r = inner.next_back_nested(nest);
                proof {
                    if iter_rem(*old(self)) is Some {
                        let si = iter_rem(*old(self)->Reversed_inner)->Some_0;
                        if si.len() > 0 {
                            assert(si.drop_last().reverse() =~= si.reverse().drop_first());
                        } else {
                            assert(si.reverse() =~= Seq::<RemOut>::empty());
                        }
                    }
                }
                r
            },
            KIterator::Zip { iter_a, iter_b } => zip_next(iter_a, iter_b, nest),
            KIterator::Peekable { inner, peeked } => {
                let held = peeked.take();
                match held {
                    Some(front) => {
                        proof {
                            if iter_rem(*old(self)) is Some && old(self)->Peekable_peeked
                                is Some {
                                let si = iter_rem(*old(self)->Peekable_inner)->Some_0;
                                match *old(self)->Peekable_peeked->0 {
                                    Some(o) => {
                                        assert((seq![rem_out_of(o)] + si).drop_first() =~= si);
                                    },
                                    None => {},
                                }
                            }
                        }
                        match *front {
                            Some(o) => Some(o),
                            None => {
                                *peeked = Some(Box::new(None));
                                None
                            },
                        }
                    },
                    None => inner.next_nested(nest),
                }
            },
            KIterator::Repeat { value } => Some(Output::Value(value_clone(value))),
            KIterator::RepeatN { value, remaining } => {
                if *remaining == 0 {
                    proof {
                        if iter_rem(*old(self)) is Some {
                            assert(iter_rem(*old(self))->Some_0 =~= Seq::<RemOut>::empty());
                        }
                    }
                    None
                } else {
                    let v = value_clone(value);
                    proof {
                        crate::value::lemma_veq_views(old(self)->RepeatN_value, v);
                    }
                    *remaining = *remaining - 1;
                    proof {
                        let s = iter_rem(*old(self))->Some_0;
                        assert(iter_rem(
                            KIterator::RepeatN { value: *value, remaining: *remaining },
                        )->Some_0 =~= s.drop_first());
                    }
                    Some(Output::Value(v))
                }
            },
            KIterator::Generate { function } => {
                let no_args: Vec<Value> = Vec::new();
                match crate::expr::run_function(function, &no_args) {
                    Ok(v) => Some(Output::Value(v)),
                    Err(e) => Some(Output::Error(e.with_prefix("iterator.generate"))),
                }
            },
            KIterator::GenerateN { function, remaining } => {
                if *remaining == 0 {
                    proof {
                        if iter_rem(*old(self)) is Some {
                            assert(iter_rem(*old(self))->Some_0 =~= Seq::<RemOut>::empty());
                        }
                    }
                    None
                } else {
                    let no_args: Vec<Value> = Vec::new();
                    let rr = crate::expr::run_function(function, &no_args);
                    *remaining = *remaining - 1;
                    proof {
                        assert(crate::value::seq_vview(Seq::<Value>::empty())
                            =~= Seq::<VV>::empty());
                        let s = iter_rem(*old(self))->Some_0;
                        assert(iter_rem(
                            KIterator::GenerateN { function: *function, remaining: *remaining },
                        )->Some_0 =~= s.drop_first());
                    }
                    match rr {
                        Ok(v) => Some(Output::Value(v)),
                        Err(e) => Some(Output::Error(e)),
                    }
                }
            },
        }
    }


    /// On a peekable adaptor: the upcoming output without consuming it.
    /// The remaining outputs are unchanged, and the result matches their
    /// head (nothing once exhausted). On any other iterator nothing
    /// happens and nothing is yielded.
    pub fn peek(&mut self) -> (r: Option<Output>)
        ensures
            (old(self) matches KIterator::Peekable { .. } && iter_rem(*old(self)) is Some)
                ==> {
                let s = iter_rem(*old(self))->Some_0;
                &&& iter_rem(*final(self)) == iter_rem(*old(self))
                &&& match r {
                    Some(o) => s.len() > 0 && rem_out_of(o) == s[0],
                    None => s.len() == 0,
                }
            },
            !(old(self) matches KIterator::Peekable { .. }) ==> *final(self) == *old(self) && r
                is None,
    {
        match self {
            KIterator::Peekable { inner, peeked } => {
                let ghost pre = iter_rem(*old(self));
                if peeked.is_none() {
                    let pulled = inner.next();
                    proof {
                        if pre is Some {
                            let si = iter_rem(*old(self)->Peekable_inner)->Some_0;
                            match &pulled {
                                Some(o) => {
                                    assert(seq![rem_out_of(*o)] + iter_rem(**inner)->Some_0
                                        =~= si);
                                },
                                None => {},
                            }
                        }
                    }
                    *peeked = Some(Box::new(pulled));
                }
                match peeked {
                    Some(front) => match &**front {
                        Some(o) => {
                            let copy = output_duplicate(o);
                            proof {
                                lemma_out_equiv_rem(*o, copy);
                                if pre is Some {
                                    assert((seq![rem_out_of(*o)]
                                        + iter_rem(**inner)->Some_0)[0] == rem_out_of(*o));
                                }
                            }
                            Some(copy)
                        },
                        None => None,
                    },
                    None => None,
                }
            },
            _ => None,
        }
    }

    /// Consumes one output from the opposite end, for iterators that
    /// support backward iteration; on any other iterator it does nothing.
    pub fn next_back(&mut self) -> (r: Option<Output>)
        ensures
            bidirectional(*old(self)) ==> step_back_ok(
                iter_rem(*old(self)),
                iter_rem(*final(self)),
                r,
            ),
            !bidirectional(*old(self)) ==> *final(self) == *old(self) && r is None,
            iheight(*final(self)) <= iheight(*old(self)),
            bidirectional(*final(self)) == bidirectional(*old(self)),
    {
        self.next_back_nested(NEST_BUDGET)
    }

    /// The backward stepping core behind `next_back`, threading the same
    /// nesting budget as forward stepping (a reversal's forward step is
    /// its inner iterator's backward step, and conversely).
    #[verifier::rlimit(40)]
    fn next_back_nested(&mut self, nest: u64) -> (r: Option<Output>)
        ensures
            bidirectional(*old(self)) ==> step_back_ok(
                iter_rem(*old(self)),
                iter_rem(*final(self)),
                r,
            ),
            !bidirectional(*old(self)) ==> *final(self) == *old(self) && r is None,
            iheight(*final(self)) <= iheight(*old(self)),
            bidirectional(*final(self)) == bidirectional(*old(self)),
        decreases nest, iheight(*old(self)), 2nat,
    {
        match self {
            KIterator::Values { items, front, back } => {
                if *front < *back && *back <= items.len() {
                    let v = value_clone(&items[*back - 1]);
                    proof {
                        crate::value::lemma_veq_views(items@[*back - 1], v);
                    }
                    *back = *back - 1;
                    proof {
                        if iter_rem(*old(self)) is Some {
                            let s = iter_rem(*old(self))->Some_0;
                            assert(iter_rem(
                                KIterator::Values { items: *items, front: *front, back: *back },
                            )->Some_0 =~= s.drop_last());
                        }
                    }
                    Some(Output::Value(v))
                } else {
                    None
                }
            },
            KIterator::Pairs { items, front, back } => {
                if *front < *back && *back <= items.len() {
                    let k = value_clone(&items[*back - 1].key);
                    let v = value_clone(&items[*back - 1].value);
                    proof {
                        crate::value::lemma_veq_views(items@[*back - 1].key, k);
                        crate::value::lemma_veq_views(items@[*back - 1].value, v);
                    }
                    *back = *back - 1;
                    proof {
                        if iter_rem(*old(self)) is Some {
                            let s = iter_rem(*old(self))->Some_0;
                            assert(iter_rem(
                                KIterator::Pairs { items: *items, front: *front, back: *back },
                            )->Some_0 =~= s.drop_last());
                        }
                    }
                    Some(Output::ValuePair(k, v))
                } else {
                    None
                }
            },
            KIterator::RangeIter { lo, hi, down } => {
                if *lo < *hi {
                    let s = Ghost(iter_rem(*old(self))->Some_0);
                    if *down {
                        let v = *lo;
                        *lo = *lo + 1;
                        proof {
                            assert(iter_rem(
                                KIterator::RangeIter { lo: *lo, hi: *hi, down: *down },
                            )->Some_0 =~= s@.drop_last());
                        }
                        Some(Output::Value(Value::Number(v)))
                    } else {
                        let v = *hi - 1;
                        *hi = *hi - 1;
                        proof {
                            assert(iter_rem(
                                KIterator::RangeIter { lo: *lo, hi: *hi, down: *down },
                            )->Some_0 =~= s@.drop_last());
                        }
                        Some(Output::Value(Value::Number(v)))
                    }
                } else {
                    None
                }
            },
            KIterator::Reversed { inner } => {
                if inner.is_bidirectional() {
                    let r = inner.next_nested(nest);
                    proof {
                        if iter_rem(*old(self)) is Some {
                            let si = iter_rem(*old(self)->Reversed_inner)->Some_0;
                            if si.len() > 0 {
                                assert(si.reverse().last() == si[0]);
                                assert(si.drop_first().reverse() =~= si.reverse().drop_last());
                            } else {
                                assert(si.reverse() =~= Seq::<RemOut>::empty());
                            }
                        }
                    }
                    r
                } else {
                    None
                }
            },
            _ => None,
        }
    }
}

/// The height of an iterator's adaptor spine: how many adaptors are
/// stacked over the sources. Buffered values do not count, nor does a
/// flattening's held sub-iterator (its steps spend nesting budget
/// instead), so advancing an iterator never increases the height.
pub open spec fn iheight(it: KIterator) -> nat
    decreases it,
{
    match it {
        KIterator::Values { .. } => 0,
        KIterator::Pairs { .. } => 0,
        KIterator::RangeIter { .. } => 0,
        KIterator::Repeat { .. } => 0,
        KIterator::RepeatN { .. } => 0,
        KIterator::Generate { .. } => 0,
        KIterator::GenerateN { .. } => 0,
        KIterator::Chain(c) => 1 + (match c.iter_a {
            Some(a) => iheight(*a),
            None => 0,
        }) + iheight(*c.iter_b),
        KIterator::Each(e) => 1 + iheight(*e.iter),
        KIterator::Cycle { source, .. } => 1 + iheight(*source),
        KIterator::Enumerate { inner, .. } => 1 + iheight(*inner),
        KIterator::Flatten { inner, .. } => 1 + iheight(*inner),
        KIterator::Intersperse { inner, .. } => 1 + iheight(*inner),
        KIterator::IntersperseWith { inner, .. } => 1 + iheight(*inner),
        KIterator::Keep { inner, .. } => 1 + iheight(*inner),
        KIterator::Take { inner, .. } => 1 + iheight(*inner),
        KIterator::Chunks { inner, .. } => 1 + iheight(*inner),
        KIterator::Windows { inner, .. } => 1 + iheight(*inner),
        KIterator::Reversed { inner } => 1 + iheight(*inner),
        KIterator::Zip { iter_a, iter_b } => 1 + iheight(*iter_a) + iheight(*iter_b),
        KIterator::Peekable { inner, .. } => 1 + iheight(*inner),
    }
}

/// Whether an iterator supports backward iteration: the materialized
/// sources, ranges, and reversals of those.
pub open spec fn bidirectional(it: KIterator) -> bool
    decreases it,
{
    match it {
        KIterator::Values { .. } => true,
        KIterator::Pairs { .. } => true,
        KIterator::RangeIter { .. } => true,
        KIterator::Reversed { inner } => bidirectional(*inner),
        _ => false,
    }
}

fn chain_next(c: &mut Chain, nest: u64) -> (r: Option<Output>)
    ensures
        step_ok(
            iter_rem(KIterator::Chain(*old(c))),
            iter_rem(KIterator::Chain(*final(c))),
            r,
        ),
        iheight(KIterator::Chain(*final(c))) <= iheight(KIterator::Chain(*old(c))),
    decreases nest, iheight(KIterator::Chain(*old(c))), 1nat,
{
    let ghost pre = iter_rem(KIterator::Chain(*old(c)));
    let mut r_a: Option<Output> = None;
    let mut a_live = false;
    match &mut c.iter_a {
        Some(a) => {
            a_live = true;
            r_a = a.next_nested(nest);
        },
        None => {},
    }
    if a_live {
        match r_a {
            Some(o) => {
                proof {
                    if pre is Some {
                        let sa = iter_rem(*old(c).iter_a->0)->Some_0;
                        let sb = iter_rem(*old(c).iter_b)->Some_0;
                        assert(sa.drop_first() + sb =~= (sa + sb).drop_first());
                    }
                }
                Some(o)
            },
            None => {
                c.iter_a = None;
                let r = c.iter_b.next_nested(nest);
                proof {
                    if pre is Some {
                        let sa = iter_rem(*old(c).iter_a->0)->Some_0;
                        let sb = iter_rem(*old(c).iter_b)->Some_0;
                        assert(sa.len() == 0);
                        assert(sa + sb =~= sb);
                    }
                }
                r
            },
        }
    } else {
        c.iter_b.next_nested(nest)
    }
}

fn each_next(e: &mut Each, nest: u64) -> (r: Option<Output>)
    ensures
        step_ok(
            iter_rem(KIterator::Each(*old(e))),
            iter_rem(KIterator::Each(*final(e))),
            r,
        ),
        iheight(KIterator::Each(*final(e))) <= iheight(KIterator::Each(*old(e))),
    decreases nest, iheight(KIterator::Each(*old(e))), 1nat,
{
    let ghost pre = iter_rem(KIterator::Each(*old(e)));
    let pulled = e.iter.next_nested(nest);
    proof {
        if pre is Some {
            let si = iter_rem(*old(e).iter)->Some_0;
            if si.len() > 0 {
                assert(iter_rem(KIterator::Each(*e))->Some_0 =~= pre->Some_0.drop_first());
            } else {
                assert(iter_rem(KIterator::Each(*e))->Some_0.len() == 0);
            }
        }
    }
    match pulled {
        None => None,
        Some(o) => {
            let collapsed = collect_pair(o);
            match collapsed {
                Output::Value(v) => {
                    let mut args: Vec<Value> = Vec::new();
                    args.push(v);
                    proof {
                        assert(crate::value::seq_vview(args@) =~= seq![vview(args@[0])]);
                    }
                    match crate::expr::run_function(&e.function, &args) {
                        Ok(result) => Some(Output::Value(result)),
                        Err(err) => Some(Output::Error(err.with_prefix("iterator.each"))),
                    }
                },
                other => Some(other),
            }
        },
    }
}

fn enumerate_next(inner: &mut Box<KIterator>, index: &mut usize, nest: u64) -> (r: Option<Output>)
    ensures
        step_ok(
            iter_rem(KIterator::Enumerate { inner: *old(inner), index: *old(index) }),
            iter_rem(KIterator::Enumerate { inner: *final(inner), index: *final(index) }),
            r,
        ),
        iheight(**final(inner)) <= iheight(**old(inner)),
    decreases nest, iheight(KIterator::Enumerate { inner: *old(inner), index: *old(index) }), 1nat,
{
    let ghost pre = iter_rem(KIterator::Enumerate { inner: *old(inner), index: *old(index) });
    let pulled = inner.next_nested(nest);
    match pulled {
        None => {
            proof {
                if pre is Some {
                    assert(pre->Some_0.len() == 0);
                    assert(iter_rem(
                        KIterator::Enumerate { inner: *inner, index: *index },
                    )->Some_0.len() == 0);
                }
            }
            None
        },
        Some(o) => {
            let collapsed = collect_pair(o);
            match collapsed {
                Output::Value(v) => {
                    if *index < usize::MAX && (*index as u64) < 9223372036854775807u64 {
                        let i = *index;
                        *index = *index + 1;
                        proof {
                            if pre is Some {
                                let si = iter_rem(**old(inner))->Some_0;
                                assert(iter_rem(**inner) == Some(si.drop_first()));
                                assert(iter_rem(
                                    KIterator::Enumerate { inner: *inner, index: *index },
                                )->Some_0 =~= pre->Some_0.drop_first());
                            }
                        }
                        Some(Output::ValuePair(Value::Number(i as i64), v))
                    } else {
                        Some(
                            Output::Error(
                                RuntimeError::ValueError {
                                    message: "enumerate index overflow".to_owned(),
                                },
                            ),
                        )
                    }
                },
                other => {
                    if *index < usize::MAX && (*index as u64) < 9223372036854775807u64 {
                        *index = *index + 1;
                    }
                    proof {
                        if pre is Some {
                            let si = iter_rem(**old(inner))->Some_0;
                            assert(iter_rem(**inner) == Some(si.drop_first()));
                            assert(iter_rem(
                                KIterator::Enumerate { inner: *inner, index: *index },
                            )->Some_0 =~= pre->Some_0.drop_first());
                        }
                    }
                    Some(other)
                },
            }
        },
    }
}

fn take_next(inner: &mut Box<KIterator>, remaining: &mut usize, nest: u64) -> (r: Option<Output>)
    ensures
        step_ok(
            iter_rem(KIterator::Take { inner: *old(inner), remaining: *old(remaining) }),
            iter_rem(KIterator::Take { inner: *final(inner), remaining: *final(remaining) }),
            r,
        ),
        iheight(**final(inner)) <= iheight(**old(inner)),
    decreases nest, iheight(KIterator::Take { inner: *old(inner), remaining: *old(remaining) }), 1nat,
{
    let ghost pre = iter_rem(KIterator::Take { inner: *old(inner), remaining: *old(remaining) });
    if *remaining == 0 {
        proof {
            reveal_with_fuel(cycle_outs, 2);
            if pre is Some {
                assert(pre->Some_0 =~= Seq::<RemOut>::empty());
            }
        }
        None
    } else {
        let pulled = inner.next_nested(nest);
        proof {
            if pre is Some && !(iter_rem(**old(inner)) is Some) {
                lemma_take_cycle_step(**old(inner), **inner, *old(remaining), pulled);
            }
        }
        match pulled {
            None => {
                proof {
                    if pre is Some && iter_rem(**old(inner)) is Some {
                        assert(pre->Some_0.len() == 0);
                        assert(iter_rem(
                            KIterator::Take { inner: *inner, remaining: *remaining },
                        )->Some_0.len() == 0);
                    }
                }
                None
            },
            Some(o) => {
                *remaining = *remaining - 1;
                proof {
                    if pre is Some && iter_rem(**old(inner)) is Some {
                        assert(iter_rem(
                            KIterator::Take { inner: *inner, remaining: *remaining },
                        )->Some_0 =~= pre->Some_0.drop_first());
                    }
                }
                Some(o)
            },
        }
    }
}

/// Bridges one step of a cycling adaptor to its bounded output
/// denotation: where the cycle's source outputs are known, a step under
/// a positive bound yields exactly the head of `cycle_outs` and leaves a
/// state denoting its tail.
proof fn lemma_take_cycle_step(prec: KIterator, postc: KIterator, k0: usize, r: Option<Output>)
    requires
        k0 > 0,
        !(iter_rem(prec) is Some),
        prec matches KIterator::Cycle { .. },
        cycle_step_ok(prec, postc, r),
        iheight(postc) <= iheight(prec),
        match prec {
            KIterator::Cycle { source, .. } => iter_rem(*source) is Some,
            _ => false,
        },
    ensures
        ({
            let t0 = iter_rem(KIterator::Take { inner: Box::new(prec), remaining: k0 });
            t0 matches Some(s0) ==> match r {
                Some(o) => s0.len() > 0 && rem_out_of(o) == s0[0] && ({
                    let t1 = iter_rem(
                        KIterator::Take { inner: Box::new(postc), remaining: (k0 - 1) as usize },
                    );
                    t1 == Some(s0.drop_first())
                }),
                None => s0.len() == 0 && ({
                    let t1 = iter_rem(KIterator::Take { inner: Box::new(postc), remaining: k0 });
                    t1 is Some && t1->Some_0.len() == 0
                }),
            }
        }),
{
    reveal_with_fuel(cycle_outs, 4);
    let gs0 = prec->Cycle_source;
    let gb0 = prec->Cycle_buffer;
    let gc0 = prec->Cycle_cursor;
    let ge0 = prec->Cycle_exhausted;
    let src0 = iter_rem(*gs0)->Some_0;
    let bv0 = crate::value::seq_vview(gb0@);
    crate::value::lemma_seq_vview_len(gb0@);
    let t0 = cycle_outs(src0, bv0, gc0 as int, ge0, k0 as nat);
    let gs1 = postc->Cycle_source;
    let gb1 = postc->Cycle_buffer;
    let gc1 = postc->Cycle_cursor;
    let ge1 = postc->Cycle_exhausted;
    crate::value::lemma_seq_vview_len(gb1@);
    if ge0 {
        if gb0@.len() == 0 {
            assert(t0.len() == 0);
            assert(cycle_outs(src0, crate::value::seq_vview(gb1@), gc1 as int, ge1, k0 as nat)
                =~= Seq::<RemOut>::empty());
        } else {
            let at = if gc0 < gb0@.len() {
                gc0 as int
            } else {
                0
            };
            crate::value::lemma_seq_vview_index(gb0@, at);
            assert(t0[0] == RemOut::Val(bv0[at]));
            assert(cycle_outs(src0, crate::value::seq_vview(gb1@), gc1 as int, true, (k0
                - 1) as nat) =~= t0.drop_first());
        }
    } else {
        if src0.len() == 0 {
            if gb0@.len() == 0 {
                assert(t0.len() == 0);
                let src1 = iter_rem(*gs1)->Some_0;
                assert(cycle_outs(src1, crate::value::seq_vview(gb1@), gc1 as int, ge1, k0 as nat)
                    =~= Seq::<RemOut>::empty());
            } else {
                // the source ended this call: replay began at the buffer's
                // head
                match r {
                    Some(o) => {
                        assert(ge1);
                        crate::value::lemma_seq_vview_index(gb0@, 0);
                        assert(t0 == cycle_outs(src0, bv0, 0, true, k0 as nat));
                        assert(t0[0] == RemOut::Val(bv0[0]));
                        let src1 = iter_rem(*gs1)->Some_0;
                        assert(src1.len() == 0);
                        assert(cycle_outs(
                            src1,
                            crate::value::seq_vview(gb1@),
                            gc1 as int,
                            true,
                            (k0 - 1) as nat,
                        ) =~= cycle_outs(src0, bv0, (if 1 < bv0.len() {
                            1int
                        } else {
                            0int
                        }), true, (k0 - 1) as nat)) by {
                            lemma_cycle_outs_src_irrelevant(
                                src1,
                                src0,
                                bv0,
                                (if 1 < bv0.len() {
                                    1int
                                } else {
                                    0int
                                }),
                                (k0 - 1) as nat,
                            );
                        }
                        assert(cycle_outs(
                            src1,
                            crate::value::seq_vview(gb1@),
                            gc1 as int,
                            true,
                            (k0 - 1) as nat,
                        ) =~= t0.drop_first());
                    },
                    None => {
                        assert(gb0@.len() == 0);
                    },
                }
            }
        } else {
            // a live source value or error passes through
            match rem_collapse(src0[0]) {
                RemOut::Val(w) => {
                    match r {
                        Some(o) => {
                            assert(!ge1);
                            assert(o matches Output::Value(v2) && vview(v2) == w);
                            assert(t0[0] == RemOut::Val(w));
                            assert(gb1@.len() == gb0@.len() + 1);
                            assert(crate::value::seq_vview(gb1@) =~= bv0.push(w)) by {
                                assert forall|i: int| 0 <= i < gb1@.len() implies
                                    crate::value::seq_vview(gb1@)[i] == bv0.push(w)[i] by {
                                    crate::value::lemma_seq_vview_index(gb1@, i);
                                    if i < gb0@.len() {
                                        crate::value::lemma_seq_vview_index(gb0@, i);
                                        assert(gb1@[i] == gb0@[i]);
                                    }
                                }
                            }
                            assert(cycle_outs(
                                src0.drop_first(),
                                crate::value::seq_vview(gb1@),
                                gc1 as int,
                                false,
                                (k0 - 1) as nat,
                            ) =~= t0.drop_first());
                        },
                        None => {
                            assert(false);
                        },
                    }
                },
                _ => {
                    match r {
                        Some(o) => {
                            assert(o matches Output::Error(_));
                            assert(t0[0] == RemOut::Fail);
                            assert(cycle_outs(
                                src0.drop_first(),
                                crate::value::seq_vview(gb1@),
                                gc1 as int,
                                false,
                                (k0 - 1) as nat,
                            ) =~= t0.drop_first());
                            if iter_rem(postc) is Some {
                                assert(iter_rem(postc)->Some_0.len() == 0);
                                assert(iter_rem(
                                    KIterator::Take {
                                        inner: Box::new(postc),
                                        remaining: (k0 - 1) as usize,
                                    },
                                )->Some_0 =~= t0.drop_first());
                            }
                        },
                        None => {
                            assert(false);
                        },
                    }
                },
            }
        }
    }
}

/// The replay of an exhausted cycle reads only its buffer: the source
/// argument does not matter.
proof fn lemma_cycle_outs_src_irrelevant(
    src_a: Seq<RemOut>,
    src_b: Seq<RemOut>,
    buf: Seq<VV>,
    cursor: int,
    k: nat,
)
    ensures
        cycle_outs(src_a, buf, cursor, true, k) == cycle_outs(src_b, buf, cursor, true, k),
    decreases k,
{
    reveal_with_fuel(cycle_outs, 2);
    if k > 0 && buf.len() > 0 {
        let at = if 0 <= cursor < buf.len() {
            cursor
        } else {
            0
        };
        lemma_cycle_outs_src_irrelevant(src_a, src_b, buf, if at + 1 < buf.len() {
            at + 1
        } else {
            0
        }, (k - 1) as nat);
    }
}

fn zip_next(iter_a: &mut Box<KIterator>, iter_b: &mut Box<KIterator>, nest: u64) -> (r: Option<Output>)
    ensures
        step_ok(
            iter_rem(KIterator::Zip { iter_a: *old(iter_a), iter_b: *old(iter_b) }),
            iter_rem(KIterator::Zip { iter_a: *final(iter_a), iter_b: *final(iter_b) }),
            r,
        ),
        iheight(**final(iter_a)) <= iheight(**old(iter_a)),
        iheight(**final(iter_b)) <= iheight(**old(iter_b)),
    decreases nest, iheight(KIterator::Zip { iter_a: *old(iter_a), iter_b: *old(iter_b) }), 1nat,
{
    let ghost pre = iter_rem(KIterator::Zip { iter_a: *old(iter_a), iter_b: *old(iter_b) });
    let ghost sa = iter_rem(**old(iter_a))->Some_0;
    let ghost sb = iter_rem(**old(iter_b))->Some_0;
    let pulled_a = iter_a.next_nested(nest);
    match pulled_a {
        None => {
            proof {
                if pre is Some {
                    assert(sa.len() == 0);
                    assert(zip_outs(sa, sb) =~= Seq::<RemOut>::empty());
                    assert(zip_outs(iter_rem(**iter_a)->Some_0, sb) =~= Seq::<RemOut>::empty());
                }
            }
            None
        },
        Some(Output::Error(e)) => {
            proof {
                if pre is Some {
                    assert(sa[0] is Fail);
                    assert(zip_outs(sa, sb) == seq![RemOut::Fail] + zip_outs(sa.drop_first(), sb));
                    assert(zip_outs(sa, sb).drop_first() =~= zip_outs(sa.drop_first(), sb));
                }
            }
            Some(Output::Error(e))
        },
        Some(oa) => {
            let va = match collect_pair(oa) {
                Output::Value(v) => v,
                _ => Value::Null,
            };
            let pulled_b = iter_b.next_nested(nest);
            proof {
                if pre is Some {
                    assert(!(sa[0] is Fail));
                    if sb.len() > 0 {
                        if sb[0] is Fail {
                            assert(zip_outs(sa, sb) == seq![RemOut::Fail] + zip_outs(
                                sa.drop_first(),
                                sb.drop_first(),
                            ));
                            assert(zip_outs(sa, sb).drop_first() =~= zip_outs(
                                sa.drop_first(),
                                sb.drop_first(),
                            ));
                        } else {
                            assert(zip_outs(sa, sb) == seq![
                                RemOut::Pair(
                                    rem_val(rem_collapse(sa[0])),
                                    rem_val(rem_collapse(sb[0])),
                                ),
                            ] + zip_outs(sa.drop_first(), sb.drop_first()));
                            assert(zip_outs(sa, sb).drop_first() =~= zip_outs(
                                sa.drop_first(),
                                sb.drop_first(),
                            ));
                        }
                    } else {
                        assert(zip_outs(sa, sb) =~= Seq::<RemOut>::empty());
                    }
                }
            }
            match pulled_b {
                None => {
                    let drained: Vec<Value> = Vec::new();
                    *iter_a = Box::new(KIterator::Values { items: drained, front: 0, back: 0 });
                    proof {
                        if pre is Some {
                            assert(iter_rem(**iter_a)->Some_0.len() == 0);
                            assert(zip_outs(iter_rem(**iter_a)->Some_0, iter_rem(**iter_b)->Some_0)
                                =~= Seq::<RemOut>::empty());
                        }
                    }
                    None
                },
                Some(Output::Error(e)) => Some(Output::Error(e)),
                Some(ob) => {
                    let vb = match collect_pair(ob) {
                        Output::Value(v) => v,
                        _ => Value::Null,
                    };
                    Some(Output::ValuePair(va, vb))
                },
            }
        },
    }
}

/// Budget for one pull-driven step of a filtering or flattening adaptor:
/// a single `next` call gives up with an error rather than scanning the
/// source forever. The bound is a termination device far beyond any
/// reachable pull count, not a behavioural limit.
pub const STEP_BUDGET: u64 = 0x4000000000000000;

/// Budget for descending into iterator handles that arrive as stream
/// values inside a flattening: each such descent spends one unit. The
/// bound is a termination device far beyond any reachable nesting depth.
pub const NEST_BUDGET: u64 = 0x40000000;

fn budget_error() -> Output {
    Output::Error(RuntimeError::ValueError { message: "iteration step budget exceeded".to_owned() })
}

fn keep_next(inner: &mut Box<KIterator>, predicate: &KFunction, nest: u64) -> (r: Option<Output>)
    ensures
        iheight(**final(inner)) <= iheight(**old(inner)),
        ({
            let pre = iter_rem(**old(inner));
            pre is Some && pre->Some_0.len() < STEP_BUDGET ==> match crate::ops::scan_spec(
                pre->Some_0,
                *predicate,
                true,
            ) {
                crate::ops::ScanRes::Hit(_, w) => r matches Some(o) && (o matches Output::Value(
                    v,
                ) && vview(v) == w),
                crate::ops::ScanRes::Miss => r is None,
                crate::ops::ScanRes::Fail => r matches Some(o) && (o matches Output::Error(_)),
            }
        }),
    decreases nest, iheight(**old(inner)) + 1nat, 1nat,
{
    let ghost pre = iter_rem(**old(inner));
    let ghost s0 = pre->Some_0;
    let mut budget: u64 = STEP_BUDGET;
    proof {
        if pre is Some {
            assert(s0.skip(0) =~= s0);
        }
    }
    loop
        invariant
            iheight(**inner) <= iheight(**old(inner)),
            budget <= STEP_BUDGET,
            pre == iter_rem(**old(inner)),
            s0 == pre->Some_0,
            pre is Some && s0.len() < STEP_BUDGET ==> {
                &&& STEP_BUDGET - s0.len() <= budget <= STEP_BUDGET
                &&& iter_rem(**inner) is Some
                &&& iter_rem(**inner)->Some_0 == s0.skip(STEP_BUDGET - budget)
                &&& crate::ops::scan_spec(s0, *predicate, true) == (match crate::ops::scan_spec(
                    s0.skip(STEP_BUDGET - budget),
                    *predicate,
                    true,
                ) {
                    crate::ops::ScanRes::Hit(i, w) => crate::ops::ScanRes::Hit(
                        i + (STEP_BUDGET - budget),
                        w,
                    ),
                    other => other,
                })
            },
        decreases budget,
    {
        if budget == 0 {
            return Some(budget_error());
        }
        let ghost done = STEP_BUDGET - budget;
        budget = budget - 1;
        let pulled = inner.next_nested(nest);
        proof {
            if pre is Some && s0.len() < STEP_BUDGET && done < s0.len() {
                assert(s0.skip(done as int).drop_first() =~= s0.skip(done + 1));
            }
        }
        match pulled {
            None => {
                return None;
            },
            Some(Output::Error(e)) => {
                return Some(Output::Error(e));
            },
            Some(o) => {
                let collapsed = collect_pair(o);
                match collapsed {
                    Output::Value(v) => {
                        let mut args: Vec<Value> = Vec::new();
                        args.push(v);
                        proof {
                            assert(crate::value::seq_vview(args@) =~= seq![vview(args@[0])]);
                        }
                        match crate::expr::run_function(predicate, &args) {
                            Ok(Value::Bool(true)) => {
                                match args.pop() {
                                    Some(kept) => {
                                        return Some(Output::Value(kept));
                                    },
                                    None => {
                                        return Some(budget_error());
                                    },
                                }
                            },
                            Ok(Value::Bool(false)) => {},
                            Ok(other) => {
                                return Some(
                                    Output::Error(
                                        RuntimeError::TypeError {
                                            expected:
                                                "a Bool to be returned from the predicate".to_owned(),
                                            got: other.kind_name(),
                                        },
                                    ),
                                );
                            },
                            Err(e) => {
                                return Some(Output::Error(e.with_prefix("iterator.keep")));
                            },
                        }
                    },
                    other => {
                        return Some(other);
                    },
                }
            },
        }
    }
}

/// One forward step of a flattening: outputs of the held sub-iterator
/// come first, then the source's next element, substituting the elements
/// of any iterable element — a materialized sequence, map, string,
/// range, or an existing iterator handle. Stepping into a handle costs
/// one unit of nesting budget, since its spine height is unknown.
fn flatten_next(inner: &mut Box<KIterator>, current: &mut Option<Box<KIterator>>, nest: u64) -> (r: Option<
    Output,
>)
    ensures
        iheight(
            KIterator::Flatten { inner: *final(inner), current: *final(current) },
        ) <= iheight(KIterator::Flatten { inner: *old(inner), current: *old(current) }),
    decreases nest, iheight(**old(inner)) + 1nat, 1nat,
{
    let mut budget: u64 = STEP_BUDGET;
    loop
        invariant
            iheight(**inner) <= iheight(**old(inner)),
        decreases budget,
    {
        if budget == 0 {
            return Some(budget_error());
        }
        budget = budget - 1;
        let held = current.take();
        match held {
            Some(mut cur) => {
                if nest == 0 {
                    return Some(budget_error());
                }
                match cur.next_nested(nest - 1) {
                    Some(o) => {
                        *current = Some(cur);
                        return Some(o);
                    },
                    None => {},
                }
            },
            None => {
                match inner.next_nested(nest) {
                    None => {
                        return None;
                    },
                    Some(Output::Error(e)) => {
                        return Some(Output::Error(e));
                    },
                    Some(o) => {
                        let collapsed = collect_pair(o);
                        match collapsed {
                            Output::Value(v) => {
                                match make_base_iterator(&v) {
                                    Some(sub) => {
                                        *current = Some(Box::new(sub));
                                    },
                                    None => match v {
                                        Value::Iterator(handle) => {
                                            *current = Some(handle);
                                        },
                                        plain => {
                                            return Some(Output::Value(plain));
                                        },
                                    },
                                }
                            },
                            other => {
                                return Some(other);
                            },
                        }
                    },
                }
            },
        }
    }
}

/// One forward step over a source iterator alone: materialized sequences,
/// pairs, and ranges. Adaptors yield nothing here.
/// Builds a source iterator over a plain iterable value: sequences, maps,
/// strings, and ranges. Iterator handles and non-iterable values give
/// `None`. The result is always a source, never an adaptor.
fn make_base_iterator(v: &Value) -> (r: Option<KIterator>)
    ensures
        match r {
            Some(it) => iheight(it) == 0 && (iterable_rem(*v) is Some ==> iter_rem(it)
                == iterable_rem(*v)),
            None => true,
        },
    decreases *v,
{
    match v {
        Value::Tuple(xs) => {
            let items = crate::value::values_clone(xs);
            let n = items.len();
            proof {
                crate::value::lemma_seq_veq_views(xs@, items@);
                assert(iterable_rem(*v)->Some_0 =~= iter_rem(
                    KIterator::Values { items, front: 0, back: n },
                )->Some_0);
            }
            Some(KIterator::Values { items, front: 0, back: n })
        },
        Value::List(xs) => {
            let items = crate::value::values_clone(xs);
            let n = items.len();
            proof {
                crate::value::lemma_seq_veq_views(xs@, items@);
                assert(iterable_rem(*v)->Some_0 =~= iter_rem(
                    KIterator::Values { items, front: 0, back: n },
                )->Some_0);
            }
            Some(KIterator::Values { items, front: 0, back: n })
        },
        Value::MapVal(entries) => {
            let items = crate::value::pairs_clone(entries);
            let n = items.len();
            proof {
                assert forall|i: int| 0 <= i < entries@.len() implies crate::value::pairs_vview(
                    items@,
                )[i] == crate::value::pairs_vview(entries@)[i] by {
                    assert(crate::value::pairs_veq(entries@, items@));
                    assert(veq(entries@[i].key, items@[i].key));
                    assert(veq(entries@[i].value, items@[i].value));
                    crate::value::lemma_veq_views(entries@[i].key, items@[i].key);
                    crate::value::lemma_veq_views(entries@[i].value, items@[i].value);
                }
                assert(iterable_rem(*v)->Some_0 =~= iter_rem(
                    KIterator::Pairs { items, front: 0, back: n },
                )->Some_0);
            }
            Some(KIterator::Pairs { items, front: 0, back: n })
        },
        Value::Str(s) => {
            let chars = string_chars(s);
            let n = chars.len();
            proof {
                assert(iterable_rem(*v)->Some_0 =~= iter_rem(
                    KIterator::Values { items: chars, front: 0, back: n },
                )->Some_0);
            }
            Some(KIterator::Values { items: chars, front: 0, back: n })
        },
        Value::Range(rg) => {
            if rg.start <= rg.end {
                if rg.inclusive {
                    if rg.end < i64::MAX {
                        let it = KIterator::RangeIter { lo: rg.start, hi: rg.end + 1, down: false };
                        proof {
                            assert(iterable_rem(*v)->Some_0 =~= iter_rem(it)->Some_0);
                        }
                        Some(it)
                    } else {
                        None
                    }
                } else {
                    let it = KIterator::RangeIter { lo: rg.start, hi: rg.end, down: false };
                    proof {
                        assert(iterable_rem(*v)->Some_0 =~= iter_rem(it)->Some_0);
                    }
                    Some(it)
                }
            } else {
                if rg.start < i64::MAX {
                    let lo = if rg.inclusive {
                        rg.end
                    } else {
                        if rg.end < i64::MAX {
                            rg.end + 1
                        } else {
                            rg.start
                        }
                    };
                    let it = KIterator::RangeIter { lo, hi: rg.start + 1, down: true };
                    proof {
                        assert(iterable_rem(*v)->Some_0 =~= iter_rem(it)->Some_0);
                    }
                    Some(it)
                } else {
                    None
                }
            }
        },
        _ => None,
    }
}


/// The remaining outputs of a chunking adaptor over its parts.
pub open spec fn chunks_rem_of(
    ri: Option<Seq<RemOut>>,
    size: usize,
    bufv: Seq<Value>,
) -> Option<Seq<RemOut>> {
    match ri {
        Some(s) => if size > 0 && bufv.len() < size && all_values(s) {
            Some(chunk_outs(crate::value::seq_vview(bufv) + rem_vals(s), size as int))
        } else {
            None
        },
        None => None,
    }
}

/// The remaining outputs of a sliding-window adaptor over its parts.
pub open spec fn windows_rem_of(
    ri: Option<Seq<RemOut>>,
    size: usize,
    bufv: Seq<Value>,
) -> Option<Seq<RemOut>> {
    match ri {
        Some(s) => if size > 0 && bufv.len() < size && all_values(s) {
            Some(window_outs(crate::value::seq_vview(bufv) + rem_vals(s), size as int))
        } else {
            None
        },
        None => None,
    }
}

#[verifier::rlimit(60)]
fn chunks_next(inner: &mut Box<KIterator>, size: usize, buf: &mut Vec<Value>, nest: u64) -> (r: Option<
    Output,
>)
    ensures
        step_ok(
            chunks_rem_of(iter_rem(**old(inner)), size, old(buf)@),
            chunks_rem_of(iter_rem(**final(inner)), size, final(buf)@),
            r,
        ),
        iheight(**final(inner)) <= iheight(**old(inner)),
    decreases nest, iheight(**old(inner)) + 1nat, 1nat,
{
    if size == 0 {
        return None;
    }
    if buf.len() >= size {
        let out = crate::value::values_clone(buf);
        let emptied: Vec<Value> = Vec::new();
        *buf = emptied;
        return Some(Output::Value(Value::Tuple(out)));
    }
    let ghost pre = chunks_rem_of(iter_rem(**old(inner)), size, old(buf)@);
    let ghost total0 = crate::value::seq_vview(old(buf)@) + rem_vals(
        iter_rem(**old(inner))->Some_0,
    );
    while buf.len() < size
        invariant
            0 < size,
            buf@.len() <= size,
            iheight(**inner) <= iheight(**old(inner)),
            pre == chunks_rem_of(iter_rem(**old(inner)), size, old(buf)@),
            total0 == crate::value::seq_vview(old(buf)@) + rem_vals(iter_rem(**old(inner))->Some_0),
            pre is Some ==> iter_rem(**inner) is Some && all_values(iter_rem(**inner)->Some_0)
                && crate::value::seq_vview(buf@) + rem_vals(iter_rem(**inner)->Some_0) =~= total0
                && crate::value::seq_vview(buf@) =~= total0.take(buf@.len() as int),
        decreases size - buf@.len(),
    {
        let ghost s_before = iter_rem(**inner);
        let ghost buf_before = buf@;
        let pulled = inner.next_nested(nest);
        proof {
            if pre is Some {
                let sbv = s_before->Some_0;
                if sbv.len() > 0 {
                    assert(rem_vals(sbv.drop_first()) =~= rem_vals(sbv).drop_first());
                    assert(rem_vals(sbv)[0] == rem_val(sbv[0]));
                }
            }
        }
        match pulled {
            None => {
                if buf.len() == 0 {
                    proof {
                        if pre is Some {
                            assert(total0 =~= Seq::<VV>::empty());
                            assert(pre->Some_0 =~= Seq::<RemOut>::empty());
                            assert(chunks_rem_of(iter_rem(**inner), size, buf@)->Some_0
                                =~= Seq::<RemOut>::empty());
                        }
                    }
                    return None;
                } else {
                    let out = crate::value::values_clone(buf);
                    let emptied: Vec<Value> = Vec::new();
                    let ghost buf_final = buf@;
                    *buf = emptied;
                    proof {
                        if pre is Some {
                            crate::value::lemma_seq_veq_views(buf_final, out@);
                            assert(crate::value::seq_vview(buf@) =~= Seq::<VV>::empty());
                            assert(total0 =~= crate::value::seq_vview(buf_final));
                            assert(chunk_outs(total0, size as int) =~= seq![
                                RemOut::Val(VV::Tuple(total0)),
                            ]);
                            assert(crate::value::seq_vview(out@) =~= total0);
                            assert(crate::value::seq_vview(buf@) + rem_vals(
                                iter_rem(**inner)->Some_0,
                            ) =~= Seq::<VV>::empty());
                            assert(chunks_rem_of(iter_rem(**inner), size, buf@)->Some_0
                                =~= pre->Some_0.drop_first());
                        }
                    }
                    return Some(Output::Value(Value::Tuple(out)));
                }
            },
            Some(Output::Error(e)) => {
                proof {
                    if pre is Some {
                        assert(false);
                    }
                }
                return Some(Output::Error(e));
            },
            Some(o) => {
                let collapsed = collect_pair(o);
                match collapsed {
                    Output::Value(v) => {
                        proof {
                            if pre is Some {
                                let sbv = s_before->Some_0;
                                assert(rem_out_of(collapsed) == sbv[0]);
                                assert(vview(v) == rem_val(sbv[0]));
                            }
                        }
                        buf.push(v);
                        proof {
                            if pre is Some {
                                let sbv = s_before->Some_0;
                                assert(crate::value::seq_vview(buf@) =~= crate::value::seq_vview(
                                    buf_before,
                                ).push(vview(v)));
                                assert(crate::value::seq_vview(buf@) + rem_vals(
                                    iter_rem(**inner)->Some_0,
                                ) =~= total0);
                                assert(crate::value::seq_vview(buf@) =~= total0.take(
                                    buf@.len() as int,
                                ));
                            }
                        }
                    },
                    other => {
                        proof {
                            if pre is Some {
                                assert(false);
                            }
                        }
                        return Some(other);
                    },
                }
            },
        }
    }
    let out = crate::value::values_clone(buf);
    let emptied: Vec<Value> = Vec::new();
    let ghost buf_final = buf@;
    *buf = emptied;
    proof {
        if pre is Some {
            crate::value::lemma_seq_veq_views(buf_final, out@);
            let s_now = iter_rem(**inner)->Some_0;
            assert(crate::value::seq_vview(out@) =~= total0.take(size as int));
            assert(crate::value::seq_vview(buf@) =~= Seq::<VV>::empty());
            assert(crate::value::seq_vview(buf@) + rem_vals(s_now) =~= rem_vals(s_now));
            assert(rem_vals(s_now) =~= total0.skip(size as int));
            if total0.len() <= size {
                assert(total0.take(size as int) =~= total0);
                assert(chunk_outs(total0, size as int) =~= seq![RemOut::Val(VV::Tuple(total0))]);
                assert(rem_vals(s_now) =~= Seq::<VV>::empty());
                assert(chunk_outs(rem_vals(s_now), size as int) =~= Seq::<RemOut>::empty());
            } else {
                assert(chunk_outs(total0, size as int) == seq![
                    RemOut::Val(VV::Tuple(total0.take(size as int))),
                ] + chunk_outs(total0.skip(size as int), size as int));
                assert(chunk_outs(total0, size as int).drop_first() =~= chunk_outs(
                    total0.skip(size as int),
                    size as int,
                ));
            }
            assert(chunks_rem_of(iter_rem(**inner), size, buf@)->Some_0 =~= chunk_outs(
                total0,
                size as int,
            ).drop_first());
        }
    }
    Some(Output::Value(Value::Tuple(out)))
}

#[verifier::rlimit(60)]
fn windows_next(inner: &mut Box<KIterator>, size: usize, buf: &mut Vec<Value>, nest: u64) -> (r: Option<
    Output,
>)
    ensures
        step_ok(
            windows_rem_of(iter_rem(**old(inner)), size, old(buf)@),
            windows_rem_of(iter_rem(**final(inner)), size, final(buf)@),
            r,
        ),
        iheight(**final(inner)) <= iheight(**old(inner)),
    decreases nest, iheight(**old(inner)) + 1nat, 1nat,
{
    if size == 0 {
        return None;
    }
    if buf.len() >= size {
        let out = crate::value::values_clone(buf);
        buf.remove(0);
        return Some(Output::Value(Value::Tuple(out)));
    }
    let ghost pre = windows_rem_of(iter_rem(**old(inner)), size, old(buf)@);
    let ghost total0 = crate::value::seq_vview(old(buf)@) + rem_vals(
        iter_rem(**old(inner))->Some_0,
    );
    while buf.len() < size
        invariant
            0 < size,
            buf@.len() <= size,
            iheight(**inner) <= iheight(**old(inner)),
            pre == windows_rem_of(iter_rem(**old(inner)), size, old(buf)@),
            total0 == crate::value::seq_vview(old(buf)@) + rem_vals(iter_rem(**old(inner))->Some_0),
            pre is Some ==> iter_rem(**inner) is Some && all_values(iter_rem(**inner)->Some_0)
                && crate::value::seq_vview(buf@) + rem_vals(iter_rem(**inner)->Some_0) =~= total0
                && crate::value::seq_vview(buf@) =~= total0.take(buf@.len() as int),
        decreases size - buf@.len(),
    {
        let ghost s_before = iter_rem(**inner);
        let ghost buf_before = buf@;
        let pulled = inner.next_nested(nest);
        proof {
            if pre is Some {
                let sbv = s_before->Some_0;
                if sbv.len() > 0 {
                    assert(rem_vals(sbv.drop_first()) =~= rem_vals(sbv).drop_first());
                    assert(rem_vals(sbv)[0] == rem_val(sbv[0]));
                }
            }
        }
        match pulled {
            None => {
                proof {
                    if pre is Some {
                        assert(total0.len() < size);
                        assert(pre->Some_0 =~= Seq::<RemOut>::empty());
                        assert(windows_rem_of(iter_rem(**inner), size, buf@)->Some_0
                            =~= Seq::<RemOut>::empty());
                    }
                }
                return None;
            },
            Some(Output::Error(e)) => {
                proof {
                    if pre is Some {
                        assert(false);
                    }
                }
                return Some(Output::Error(e));
            },
            Some(o) => {
                let collapsed = collect_pair(o);
                match collapsed {
                    Output::Value(v) => {
                        proof {
                            if pre is Some {
                                let sbv = s_before->Some_0;
                                assert(rem_out_of(collapsed) == sbv[0]);
                                assert(vview(v) == rem_val(sbv[0]));
                            }
                        }
                        buf.push(v);
                        proof {
                            if pre is Some {
                                assert(crate::value::seq_vview(buf@) =~= crate::value::seq_vview(
                                    buf_before,
                                ).push(vview(v)));
                                assert(crate::value::seq_vview(buf@) + rem_vals(
                                    iter_rem(**inner)->Some_0,
                                ) =~= total0);
                                assert(crate::value::seq_vview(buf@) =~= total0.take(
                                    buf@.len() as int,
                                ));
                            }
                        }
                    },
                    other => {
                        proof {
                            if pre is Some {
                                assert(false);
                            }
                        }
                        return Some(other);
                    },
                }
            },
        }
    }
    let out = crate::value::values_clone(buf);
    let ghost buf_full = buf@;
    buf.remove(0);
    proof {
        if pre is Some {
            crate::value::lemma_seq_veq_views(buf_full, out@);
            let s_now = iter_rem(**inner)->Some_0;
            assert(crate::value::seq_vview(out@) =~= total0.take(size as int));
            assert(crate::value::seq_vview(buf@) =~= crate::value::seq_vview(buf_full).drop_first());
            let total_now = crate::value::seq_vview(buf@) + rem_vals(s_now);
            assert(total_now =~= total0.drop_first());
            let wpre = window_outs(total0, size as int);
            let wpost = window_outs(total0.drop_first(), size as int);
            assert(wpre[0] == RemOut::Val(VV::Tuple(total0.subrange(0, size as int))));
            assert(total0.subrange(0, size as int) =~= total0.take(size as int));
            if total0.len() == size {
                assert(wpre.len() == 1);
                assert(wpost =~= Seq::<RemOut>::empty());
                assert(wpre.drop_first() =~= wpost);
            } else {
                assert forall|i: int| 0 <= i < wpre.len() - 1 implies wpre.drop_first()[i]
                    == wpost[i] by {
                    assert(total0.drop_first().subrange(i, i + size) =~= total0.subrange(
                        i + 1,
                        i + 1 + size,
                    ));
                }
                assert(wpre.drop_first() =~= wpost);
            }
        }
    }
    Some(Output::Value(Value::Tuple(out)))
}

/// Whether the runtime can iterate this value.
pub open spec fn is_iterable_spec(v: Value) -> bool {
    match v {
        Value::Tuple(_) => true,
        Value::List(_) => true,
        Value::MapVal(_) => true,
        Value::Str(_) => true,
        Value::Range(r) => valid_range(r),
        Value::Iterator(_) => true,
        _ => false,
    }
}

/// A range the runtime can iterate: its half-open normalization fits the
/// machine integers.
pub open spec fn valid_range(r: crate::value::IntRange) -> bool {
    if r.start <= r.end {
        !r.inclusive || r.end < i64::MAX
    } else {
        r.start < i64::MAX
    }
}

/// Whether the runtime can iterate this value.
pub fn is_iterable(v: &Value) -> (r: bool)
    ensures
        r == is_iterable_spec(*v),
{
    match v {
        Value::Tuple(_) => true,
        Value::List(_) => true,
        Value::MapVal(_) => true,
        Value::Str(_) => true,
        Value::Range(rg) => {
            if rg.start <= rg.end {
                !rg.inclusive || rg.end < i64::MAX
            } else {
                rg.start < i64::MAX
            }
        },
        Value::Iterator(_) => true,
        _ => false,
    }
}

/// The outputs that iterating a value yields: elements of sequences, the
/// entries of maps, the integers of ranges, the characters of strings (as
/// one-character strings), and for an iterator handle whatever it has
/// left.
pub open spec fn iterable_rem(v: Value) -> Option<Seq<RemOut>>
    decreases v,
{
    match v {
        Value::Tuple(xs) => Some(
            Seq::new(xs@.len(), |i: int| RemOut::Val(crate::value::seq_vview(xs@)[i])),
        ),
        Value::List(xs) => Some(
            Seq::new(xs@.len(), |i: int| RemOut::Val(crate::value::seq_vview(xs@)[i])),
        ),
        Value::MapVal(entries) => Some(
            Seq::new(
                entries@.len(),
                |i: int|
                    RemOut::Pair(
                        crate::value::pairs_vview(entries@)[i].0,
                        crate::value::pairs_vview(entries@)[i].1,
                    ),
            ),
        ),
        Value::Str(s) => Some(Seq::new(s@.len(), |i: int| RemOut::Val(VV::Str(seq![s@[i]])))),
        Value::Range(r) => if valid_range(r) {
            let lo = if r.start <= r.end {
                r.start as int
            } else {
                if r.inclusive {
                    r.end as int
                } else {
                    r.end + 1
                }
            };
            let hi = if r.start <= r.end {
                if r.inclusive {
                    r.end + 1
                } else {
                    r.end as int
                }
            } else {
                r.start + 1
            };
            let down = r.start > r.end;
            if lo <= hi {
                Some(
                    Seq::new(
                        (hi - lo) as nat,
                        |i: int|
                            RemOut::Val(
                                VV::Int(
                                    if down {
                                        hi - 1 - i
                                    } else {
                                        lo + i
                                    },
                                ),
                            ),
                    ),
                )
            } else {
                Some(Seq::empty())
            }
        } else {
            None
        },
        Value::Iterator(it) => iter_rem(*it),
        _ => None,
    }
}

/// Builds an iterator over an iterable value, as the virtual machine's
/// `make_iterator` would. Sequences, maps, strings and ranges are
/// materialized afresh; an iterator handle is copied independently. A
/// value that cannot be iterated is a type error.
pub fn make_iterator(v: &Value) -> (r: Result<KIterator, RuntimeError>)
    ensures
        match r {
            Ok(it) => is_iterable_spec(*v) && (iterable_rem(*v) is Some ==> iter_rem(it)
                == iterable_rem(*v)),
            Err(_) => !is_iterable_spec(*v),
        },
    decreases *v,
{
    match v {
        Value::Tuple(xs) => {
            let items = crate::value::values_clone(xs);
            let n = items.len();
            proof {
                crate::value::lemma_seq_veq_views(xs@, items@);
                assert(iterable_rem(*v)->Some_0 =~= iter_rem(
                    KIterator::Values { items, front: 0, back: n },
                )->Some_0);
            }
            Ok(KIterator::Values { items, front: 0, back: n })
        },
        Value::List(xs) => {
            let items = crate::value::values_clone(xs);
            let n = items.len();
            proof {
                crate::value::lemma_seq_veq_views(xs@, items@);
                assert(iterable_rem(*v)->Some_0 =~= iter_rem(
                    KIterator::Values { items, front: 0, back: n },
                )->Some_0);
            }
            Ok(KIterator::Values { items, front: 0, back: n })
        },
        Value::MapVal(entries) => {
            let items = crate::value::pairs_clone(entries);
            let n = items.len();
            proof {
                assert forall|i: int| 0 <= i < entries@.len() implies crate::value::pairs_vview(
                    items@,
                )[i] == crate::value::pairs_vview(entries@)[i] by {
                    crate::value::lemma_veq_views(entries@[i].key, items@[i].key);
                    crate::value::lemma_veq_views(entries@[i].value, items@[i].value);
                }
                assert(iterable_rem(*v)->Some_0 =~= iter_rem(
                    KIterator::Pairs { items, front: 0, back: n },
                )->Some_0);
            }
            Ok(KIterator::Pairs { items, front: 0, back: n })
        },
        Value::Str(s) => {
            let chars = string_chars(s);
            let n = chars.len();
            proof {
                assert(iterable_rem(*v)->Some_0 =~= iter_rem(
                    KIterator::Values { items: chars, front: 0, back: n },
                )->Some_0);
            }
            Ok(KIterator::Values { items: chars, front: 0, back: n })
        },
        Value::Range(rg) => {
            if rg.start <= rg.end {
                if rg.inclusive {
                    if rg.end < i64::MAX {
                        let it = KIterator::RangeIter { lo: rg.start, hi: rg.end + 1, down: false };
                        proof {
                            assert(iterable_rem(*v)->Some_0 =~= iter_rem(it)->Some_0);
                        }
                        Ok(it)
                    } else {
                        Err(RuntimeError::ValueError {
                            message: "range upper bound is too large".to_owned(),
                        })
                    }
                } else {
                    let it = KIterator::RangeIter { lo: rg.start, hi: rg.end, down: false };
                    proof {
                        assert(iterable_rem(*v)->Some_0 =~= iter_rem(it)->Some_0);
                    }
                    Ok(it)
                }
            } else {
                if rg.start < i64::MAX {
                    let lo = if rg.inclusive {
                        rg.end
                    } else {
                        if rg.end < i64::MAX {
                            rg.end + 1
                        } else {
                            rg.start
                        }
                    };
                    let it = KIterator::RangeIter { lo, hi: rg.start + 1, down: true };
                    proof {
                        assert(iterable_rem(*v)->Some_0 =~= iter_rem(it)->Some_0);
                    }
                    Ok(it)
                } else {
                    Err(RuntimeError::ValueError {
                        message: "range lower bound is too large".to_owned(),
                    })
                }
            }
        },
        Value::Iterator(it) => {
            let copy = it.make_copy();
            proof {
                lemma_iter_equiv_rem(**it, copy);
            }
            Ok(copy)
        },
        other => Err(RuntimeError::TypeError {
            expected: "an iterable value".to_owned(),
            got: other.kind_name(),
        }),
    }
}

/// The characters of a string, each as a one-character string value.
pub fn string_chars(s: &String) -> (r: Vec<Value>)
    ensures
        r@.len() == s@.len(),
        forall|i: int| 0 <= i < r@.len() ==> vview(#[trigger] r@[i]) == VV::Str(seq![s@[i]]),
{
    let n = s.as_str().unicode_len();
    let mut r: Vec<Value> = Vec::new();
    for i in 0..n
        invariant
            n == s@.len(),
            r@.len() == i,
            forall|j: int| 0 <= j < i ==> vview(#[trigger] r@[j]) == VV::Str(seq![s@[j]]),
        decreases n - i,
    {
        let c = s.as_str().get_char(i);
        let mut one = String::new();
        crate::trusted::string_push_char(&mut one, c);
        proof {
            assert(one@ =~= seq![s@[i as int]]);
        }
        r.push(Value::Str(one));
    }
    r
}

/// Equivalent iterators have the same remaining outputs, wherever the
/// denotation is defined: advancing an independent copy yields, position
/// by position, the same sequence as advancing the original.
#[verifier::rlimit(100)]
pub proof fn lemma_iter_equiv_rem(a: KIterator, b: KIterator)
    requires
        iter_equiv(a, b),
    ensures
        iter_rem(a) == iter_rem(b),
    decreases a,
{
    match (a, b) {
        (
            KIterator::Values { items: xi, front: xf, back: xb },
            KIterator::Values { items: yi, front: yf, back: yb },
        ) => {
            assert(crate::value::seq_veq(xi@, yi@));
            assert(xi@.len() == yi@.len());
            if xf <= xb <= xi@.len() {
                assert forall|i: int| 0 <= i < xb - xf implies vview(#[trigger] xi@[xf + i])
                    == vview(yi@[xf + i]) by {
                    assert(crate::value::seq_veq(xi@, yi@));
                    assert(veq(xi@[xf + i], yi@[xf + i]));
                    crate::value::lemma_veq_views(xi@[xf + i], yi@[xf + i]);
                }
                assert(iter_rem(a)->Some_0 =~= iter_rem(b)->Some_0);
            }
        },
        (
            KIterator::Pairs { items: xi, front: xf, back: xb },
            KIterator::Pairs { items: yi, front: yf, back: yb },
        ) => {
            assert(crate::value::pairs_veq(xi@, yi@));
            assert(xi@.len() == yi@.len());
            if xf <= xb <= xi@.len() {
                assert forall|i: int| 0 <= i < xb - xf implies (vview(
                    (#[trigger] xi@[xf + i]).key,
                ) == vview(yi@[xf + i].key) && vview(xi@[xf + i].value) == vview(
                    yi@[xf + i].value,
                )) by {
                    assert(crate::value::pairs_veq(xi@, yi@));
                    assert(veq(xi@[xf + i].key, yi@[xf + i].key) && veq(
                        xi@[xf + i].value,
                        yi@[xf + i].value,
                    ));
                    crate::value::lemma_veq_views(xi@[xf + i].key, yi@[xf + i].key);
                    crate::value::lemma_veq_views(xi@[xf + i].value, yi@[xf + i].value);
                }
                assert(iter_rem(a)->Some_0 =~= iter_rem(b)->Some_0);
            }
        },
        (KIterator::Chain(x), KIterator::Chain(y)) => {
            match (x.iter_a, y.iter_a) {
                (Some(xa), Some(ya)) => {
                    lemma_iter_equiv_rem(*xa, *ya);
                },
                _ => {},
            }
            lemma_iter_equiv_rem(*x.iter_b, *y.iter_b);
        },
        (KIterator::Each(x), KIterator::Each(y)) => {
            lemma_iter_equiv_rem(*x.iter, *y.iter);
            if iter_rem(*x.iter) is Some {
                let s = iter_rem(*x.iter)->Some_0;
                assert forall|i: int| 0 <= i < s.len() implies each_out(s[i], x.function)
                    == each_out(s[i], y.function) by {
                    lemma_call_equiv(x.function, y.function, s[i]);
                }
                assert(Seq::new(s.len(), |i: int| each_out(s[i], x.function)) =~= Seq::new(
                    s.len(),
                    |i: int| each_out(s[i], y.function),
                ));
            }
        },
        (
            KIterator::Cycle { source: xs, buffer: xb, cursor: xc, exhausted: xe },
            KIterator::Cycle { source: ys, buffer: yb, cursor: yc, exhausted: ye },
        ) => {
            lemma_iter_equiv_rem(*xs, *ys);
            assert(crate::value::seq_veq(xb@, yb@));
            assert(xb@.len() == yb@.len());
        },
        (
            KIterator::Enumerate { inner: xi, index: xn },
            KIterator::Enumerate { inner: yi, index: yn },
        ) => {
            lemma_iter_equiv_rem(*xi, *yi);
            if iter_rem(*xi) is Some {
                let s = iter_rem(*xi)->Some_0;
                if xn + s.len() <= i64::MAX && xn + s.len() <= usize::MAX {
                    assert(iter_rem(a)->Some_0 =~= iter_rem(b)->Some_0);
                }
            }
        },
        (
            KIterator::Take { inner: xi, remaining: xn },
            KIterator::Take { inner: yi, remaining: yn },
        ) => {
            lemma_iter_equiv_rem(*xi, *yi);
            assert(iter_equiv(*xi, *yi));
            match (*xi, *yi) {
                (
                    KIterator::Cycle { source: xs2, buffer: xb2, cursor: xc2, exhausted: xe2 },
                    KIterator::Cycle { source: ys2, buffer: yb2, cursor: yc2, exhausted: ye2 },
                ) => {
                    assert(iter_equiv(*xs2, *ys2) && crate::value::seq_veq(xb2@, yb2@));
                    lemma_iter_equiv_rem(*xs2, *ys2);
                    crate::value::lemma_seq_veq_views(xb2@, yb2@);
                    assert(iter_rem(*xs2) == iter_rem(*ys2));
                    assert(crate::value::seq_vview(xb2@) == crate::value::seq_vview(yb2@));
                    assert(xc2 == yc2 && xe2 == ye2);
                    assert(iter_rem(a) == iter_rem(b));
                },
                _ => {},
            }
        },
        (
            KIterator::Chunks { inner: xi, size: xn, buf: xb },
            KIterator::Chunks { inner: yi, size: yn, buf: yb },
        ) => {
            lemma_iter_equiv_rem(*xi, *yi);
            crate::value::lemma_seq_veq_views(xb@, yb@);
        },
        (
            KIterator::Windows { inner: xi, size: xn, buf: xb },
            KIterator::Windows { inner: yi, size: yn, buf: yb },
        ) => {
            lemma_iter_equiv_rem(*xi, *yi);
            crate::value::lemma_seq_veq_views(xb@, yb@);
        },
        (KIterator::Reversed { inner: xi }, KIterator::Reversed { inner: yi }) => {
            lemma_iter_equiv_bidi(*xi, *yi);
            lemma_iter_equiv_rem(*xi, *yi);
        },
        (
            KIterator::Zip { iter_a: xa, iter_b: xb },
            KIterator::Zip { iter_a: ya, iter_b: yb },
        ) => {
            lemma_iter_equiv_rem(*xa, *ya);
            lemma_iter_equiv_rem(*xb, *yb);
        },
        (
            KIterator::Peekable { inner: xi, peeked: xp },
            KIterator::Peekable { inner: yi, peeked: yp },
        ) => {
            lemma_iter_equiv_rem(*xi, *yi);
            match (xp, yp) {
                (Some(xo), Some(yo)) => {
                    match (*xo, *yo) {
                        (Some(xout), Some(yout)) => {
                            lemma_out_equiv_rem(xout, yout);
                        },
                        _ => {},
                    }
                },
                _ => {},
            }
        },
        (
            KIterator::RepeatN { value: xv, remaining: xn },
            KIterator::RepeatN { value: yv, remaining: yn },
        ) => {
            crate::value::lemma_veq_views(xv, yv);
            assert(vview(xv) == vview(yv));
            assert(Seq::new(xn as nat, |i: int| RemOut::Val(vview(xv))) =~= Seq::new(
                yn as nat,
                |i: int| RemOut::Val(vview(yv)),
            ));
        },
        (
            KIterator::GenerateN { function: xf, remaining: xn },
            KIterator::GenerateN { function: yf, remaining: yn },
        ) => {
            crate::expr::lemma_expr_equiv_eval(xf.body, yf.body, Seq::empty());
            assert(gen_out(xf) == gen_out(yf));
            assert(Seq::new(xn as nat, |i: int| gen_out(xf)) =~= Seq::new(
                yn as nat,
                |i: int| gen_out(yf),
            ));
        },
        _ => {},
    }
}

/// Equivalent iterators agree on backward-iteration support.
pub proof fn lemma_iter_equiv_bidi(a: KIterator, b: KIterator)
    requires
        iter_equiv(a, b),
    ensures
        bidirectional(a) == bidirectional(b),
    decreases a,
{
    match (a, b) {
        (KIterator::Reversed { inner: xi }, KIterator::Reversed { inner: yi }) => {
            lemma_iter_equiv_bidi(*xi, *yi);
        },
        _ => {},
    }
}

/// Equivalent outputs have the same denotation shape.
proof fn lemma_out_equiv_rem(a: Output, b: Output)
    requires
        out_equiv(a, b),
    ensures
        rem_out_of(a) == rem_out_of(b),
{
    match (a, b) {
        (Output::Value(x), Output::Value(y)) => {
            crate::value::lemma_veq_views(x, y);
        },
        (Output::ValuePair(x0, x1), Output::ValuePair(y0, y1)) => {
            crate::value::lemma_veq_views(x0, y0);
            crate::value::lemma_veq_views(x1, y1);
        },
        _ => {},
    }
}

/// Equivalent callables map one output alike.
proof fn lemma_call_equiv(f: KFunction, g: KFunction, o: RemOut)
    requires
        f.arity == g.arity,
        expr_equiv(f.body, g.body),
    ensures
        each_out(o, f) == each_out(o, g),
{
    match rem_collapse(o) {
        RemOut::Val(v) => {
            crate::expr::lemma_expr_equiv_eval(f.body, g.body, seq![v]);
        },
        _ => {},
    }
}


/// Whether no output in the sequence is an error.
pub open spec fn no_failures(s: Seq<RemOut>) -> bool {
    forall|i: int| 0 <= i < s.len() ==> !((#[trigger] s[i]) is Fail)
}

/// Whether the iterator's remaining outputs are describable and
/// error-free, through every sub-iterator: the domain on which the size
/// hint's bounds are meaningful.
pub open spec fn rem_clean(it: KIterator) -> bool
    decreases it,
{
    &&& iter_rem(it) is Some
    &&& no_failures(iter_rem(it)->Some_0)
    &&& match it {
        KIterator::Chain(c) => (match c.iter_a {
            Some(a) => rem_clean(*a),
            None => true,
        }) && rem_clean(*c.iter_b),
        KIterator::Each(e) => rem_clean(*e.iter),
        KIterator::Cycle { source, .. } => rem_clean(*source),
        KIterator::Enumerate { inner, .. } => rem_clean(*inner),
        KIterator::Take { inner, .. } => rem_clean(*inner),
        KIterator::Chunks { inner, .. } => rem_clean(*inner),
        KIterator::Windows { inner, .. } => rem_clean(*inner),
        KIterator::Reversed { inner } => rem_clean(*inner),
        KIterator::Zip { iter_a, iter_b } => rem_clean(*iter_a) && rem_clean(*iter_b),
        KIterator::Peekable { inner, .. } => rem_clean(*inner),
        _ => true,
    }
}

/// One step of a separating adaptor: a buffered output is flushed
/// first; the very first pull hands the source's first output through;
/// each later pull buffers the source's output and yields the separator
/// value (or the separator callable's result, or that callable's
/// failure); the source's exhaustion passes through as exhaustion. The
/// iterator stays a separating adaptor over the same separator.
pub open spec fn intersperse_step_ok(pre: KIterator, post: KIterator, r: Option<Output>) -> bool {
    match pre {
        KIterator::Intersperse { inner: i0, sep, pending: pnd, started } => {
            &&& (post matches KIterator::Intersperse { sep: s2, .. } && s2 == sep)
            &&& (pnd matches Some(o) ==> r == Some(*o))
            &&& (pnd is None ==> match iter_rem(*i0) {
                Some(s0) => if s0.len() == 0 {
                    r is None
                } else if !started {
                    r matches Some(o) && rem_out_of(o) == s0[0]
                } else {
                    r matches Some(o) && (o matches Output::Value(v) && vview(v) == vview(sep))
                },
                None => true,
            })
        },
        KIterator::IntersperseWith { inner: i0, sep_fn, pending: pnd, started } => {
            &&& (post matches KIterator::IntersperseWith { sep_fn: f2, .. } && f2 == sep_fn)
            &&& (pnd matches Some(o) ==> r == Some(*o))
            &&& (pnd is None ==> match iter_rem(*i0) {
                Some(s0) => if s0.len() == 0 {
                    r is None
                } else if !started {
                    r matches Some(o) && rem_out_of(o) == s0[0]
                } else {
                    match call_spec(sep_fn, Seq::empty()) {
                        Some(w) => r matches Some(o) && (o matches Output::Value(v) && vview(v)
                            == w),
                        None => r matches Some(o) && (o matches Output::Error(_)),
                    }
                },
                None => true,
            })
        },
        _ => true,
    }
}

/// One step of a filtering adaptor, where its source's remaining
/// outputs are known and fit the step budget: the step yields the first
/// value the predicate accepts, yields nothing when it rejects every
/// remaining value, and yields an error where the source fails or the
/// predicate misbehaves first. The iterator stays a filtering adaptor
/// over the same predicate.
pub open spec fn keep_step_ok(pre: KIterator, post: KIterator, r: Option<Output>) -> bool {
    match pre {
        KIterator::Keep { inner: i0, predicate: p } => match iter_rem(*i0) {
            Some(s0) => s0.len() < STEP_BUDGET ==> {
                &&& (post matches KIterator::Keep { predicate: q, .. } && q == p)
                &&& match crate::ops::scan_spec(s0, p, true) {
                    crate::ops::ScanRes::Hit(_, w) => r matches Some(o) && (o matches
                        Output::Value(v) && vview(v) == w),
                    crate::ops::ScanRes::Miss => r is None,
                    crate::ops::ScanRes::Fail => r matches Some(o) && (o matches Output::Error(
                        _,
                    )),
                }
            },
            None => true,
        },
        _ => true,
    }
}

/// The advertised bounds on an iterator's remaining output count: the
/// materialized sources and in-range spans know it exactly, a chaining
/// sums its parts' bounds (the lower saturating, an overflowing or
/// unknown upper is unknown), a zip takes the element-wise minimum,
/// mappings, enumerations and reversals pass their source's bounds
/// through, a take caps both bounds, a filtering keeps only the upper
/// bound, a buffered peek adds its held output, and the unbounded or
/// source-consuming adaptors advertise nothing they can promise.
pub open spec fn size_hint_spec(it: KIterator) -> (usize, Option<usize>)
    decreases it,
{
    match it {
        KIterator::Values { items, front, back } => if front <= back && back <= items@.len() {
            ((back - front) as usize, Some((back - front) as usize))
        } else {
            (0usize, Some(0usize))
        },
        KIterator::Pairs { items, front, back } => if front <= back && back <= items@.len() {
            ((back - front) as usize, Some((back - front) as usize))
        } else {
            (0usize, Some(0usize))
        },
        KIterator::RangeIter { lo, hi, down } => if lo < hi {
            if hi - lo <= usize::MAX {
                ((hi - lo) as usize, Some((hi - lo) as usize))
            } else {
                (usize::MAX, None)
            }
        } else {
            (0usize, Some(0usize))
        },
        KIterator::Chain(c) => {
            let a = match c.iter_a {
                Some(ia) => size_hint_spec(*ia),
                None => (0usize, Some(0usize)),
            };
            let b = size_hint_spec(*c.iter_b);
            let lower = if a.0 <= usize::MAX - b.0 {
                (a.0 + b.0) as usize
            } else {
                usize::MAX
            };
            let upper = match (a.1, b.1) {
                (Some(x), Some(y)) => if x <= usize::MAX - y {
                    Some((x + y) as usize)
                } else {
                    None
                },
                _ => None,
            };
            (lower, upper)
        },
        KIterator::Each(e) => size_hint_spec(*e.iter),
        KIterator::Cycle { .. } => (0usize, None),
        KIterator::Enumerate { inner, .. } => size_hint_spec(*inner),
        KIterator::Flatten { .. } => (0usize, None),
        KIterator::Intersperse { .. } => (0usize, None),
        KIterator::IntersperseWith { .. } => (0usize, None),
        KIterator::Keep { inner, .. } => (0usize, size_hint_spec(*inner).1),
        KIterator::Take { inner, remaining } => {
            let h = size_hint_spec(*inner);
            let l = if h.0 <= remaining {
                h.0
            } else {
                remaining
            };
            let u = match h.1 {
                Some(x) => Some(
                    if x <= remaining {
                        x
                    } else {
                        remaining
                    },
                ),
                None => Some(remaining),
            };
            (l, u)
        },
        KIterator::Chunks { .. } => (0usize, None),
        KIterator::Windows { .. } => (0usize, None),
        KIterator::Reversed { inner } => size_hint_spec(*inner),
        KIterator::Zip { iter_a, iter_b } => {
            let a = size_hint_spec(*iter_a);
            let b = size_hint_spec(*iter_b);
            let lower = if a.0 <= b.0 {
                a.0
            } else {
                b.0
            };
            let upper = match (a.1, b.1) {
                (Some(x), Some(y)) => Some(
                    if x <= y {
                        x
                    } else {
                        y
                    },
                ),
                (Some(x), None) => Some(x),
                (None, Some(y)) => Some(y),
                (None, None) => None,
            };
            (lower, upper)
        },
        KIterator::Peekable { inner, peeked } => {
            let h = size_hint_spec(*inner);
            match peeked {
                Some(front) => match *front {
                    Some(_) => {
                        let l = if h.0 < usize::MAX {
                            (h.0 + 1) as usize
                        } else {
                            h.0
                        };
                        let u = match h.1 {
                            Some(x) => if x < usize::MAX {
                                Some((x + 1) as usize)
                            } else {
                                None
                            },
                            None => None,
                        };
                        (l, u)
                    },
                    None => (0usize, Some(0usize)),
                },
                None => h,
            }
        },
        KIterator::Repeat { .. } => (usize::MAX, None),
        KIterator::RepeatN { remaining, .. } => (remaining, Some(remaining)),
        KIterator::Generate { .. } => (usize::MAX, None),
        KIterator::GenerateN { remaining, .. } => (remaining, Some(remaining)),
    }
}

impl KIterator {
    /// Best-effort bounds on the number of outputs left: a lower bound
    /// and an optional upper bound, used by materializations to pre-size
    /// their containers. Over a describable, error-free source the bounds
    /// bracket the remaining output count.
    #[verifier::rlimit(100)]
    pub fn size_hint(&self) -> (r: (usize, Option<usize>))
        ensures
            r == size_hint_spec(*self),
            rem_clean(*self) ==> r.0 <= iter_rem(*self)->Some_0.len() && (r.1 matches Some(u)
                ==> iter_rem(*self)->Some_0.len() <= u),
        decreases *self,
    {
        match self {
            KIterator::Values { items, front, back } => {
                if *front <= *back && *back <= items.len() {
                    let n = *back - *front;
                    (n, Some(n))
                } else {
                    (0, Some(0))
                }
            },
            KIterator::Pairs { items, front, back } => {
                if *front <= *back && *back <= items.len() {
                    let n = *back - *front;
                    (n, Some(n))
                } else {
                    (0, Some(0))
                }
            },
            KIterator::RangeIter { lo, hi, down } => {
                if *lo < *hi {
                    let span = (*hi as i128) - (*lo as i128);
                    if span <= usize::MAX as i128 {
                        let n = span as usize;
                        (n, Some(n))
                    } else {
                        (usize::MAX, None)
                    }
                } else {
                    (0, Some(0))
                }
            },
            KIterator::Chain(c) => {
                proof {
                    if rem_clean(*self) && c.iter_a is Some {
                        let sa = iter_rem(*c.iter_a->0)->Some_0;
                        let sb = iter_rem(*c.iter_b)->Some_0;
                        assert(iter_rem(*self)->Some_0 == sa + sb);
                        assert(iter_rem(*self)->Some_0.len() == sa.len() + sb.len());
                    }
                }
                let (la, ua) = match &c.iter_a {
                    Some(a) => a.size_hint(),
                    None => (0, Some(0)),
                };
                let (lb, ub) = c.iter_b.size_hint();
                let lower = if la <= usize::MAX - lb {
                    la + lb
                } else {
                    usize::MAX
                };
                let upper = match (ua, ub) {
                    (Some(x), Some(y)) => if x <= usize::MAX - y {
                        Some(x + y)
                    } else {
                        None
                    },
                    _ => None,
                };
                (lower, upper)
            },
            KIterator::Each(e) => {
                proof {
                    if rem_clean(*self) {
                        assert(iter_rem(*self)->Some_0.len() == iter_rem(
                            *e.iter,
                        )->Some_0.len());
                    }
                }
                e.iter.size_hint()
            },
            KIterator::Cycle { source, buffer, cursor, exhausted } => (0, None),
            KIterator::Enumerate { inner, index } => {
                proof {
                    if rem_clean(*self) {
                        assert(iter_rem(*self)->Some_0.len() == iter_rem(
                            **inner,
                        )->Some_0.len());
                    }
                }
                inner.size_hint()
            },
            KIterator::Flatten { inner, current } => (0, None),
            KIterator::Intersperse { inner, sep, pending, started } => (0, None),
            KIterator::IntersperseWith { inner, sep_fn, pending, started } => (0, None),
            KIterator::Keep { inner, predicate } => {
                let (_, upper) = inner.size_hint();
                (0, upper)
            },
            KIterator::Take { inner, remaining } => {
                proof {
                    if rem_clean(*self) {
                        assert(rem_clean(**inner));
                        assert(iter_rem(**inner) is Some);
                    }
                }
                let (lower, upper) = inner.size_hint();
                let l = if lower <= *remaining {
                    lower
                } else {
                    *remaining
                };
                let u = match upper {
                    Some(x) => Some(
                        if x <= *remaining {
                            x
                        } else {
                            *remaining
                        },
                    ),
                    None => Some(*remaining),
                };
                (l, u)
            },
            KIterator::Chunks { inner, size, buf } => (0, None),
            KIterator::Windows { inner, size, buf } => (0, None),
            KIterator::Reversed { inner } => {
                proof {
                    if rem_clean(*self) {
                        assert(iter_rem(*self)->Some_0.len() == iter_rem(
                            **inner,
                        )->Some_0.len());
                    }
                }
                inner.size_hint()
            },
            KIterator::Zip { iter_a, iter_b } => {
                proof {
                    if rem_clean(*self) {
                        assert(rem_clean(**iter_a) && rem_clean(**iter_b));
                        assert(crate::ops::all_ok(iter_rem(**iter_a)->Some_0));
                        assert(crate::ops::all_ok(iter_rem(**iter_b)->Some_0));
                        crate::laws::law_zip_length_is_minimum(
                            iter_rem(**iter_a)->Some_0,
                            iter_rem(**iter_b)->Some_0,
                        );
                    }
                }
                let (la, ua) = iter_a.size_hint();
                let (lb, ub) = iter_b.size_hint();
                let lower = if la <= lb {
                    la
                } else {
                    lb
                };
                let upper = match (ua, ub) {
                    (Some(x), Some(y)) => Some(
                        if x <= y {
                            x
                        } else {
                            y
                        },
                    ),
                    (Some(x), None) => Some(x),
                    (None, Some(y)) => Some(y),
                    (None, None) => None,
                };
                (lower, upper)
            },
            KIterator::Peekable { inner, peeked } => {
                let (lower, upper) = inner.size_hint();
                match peeked {
                    Some(front) => match &**front {
                        Some(_) => {
                            let l = if lower < usize::MAX {
                                lower + 1
                            } else {
                                lower
                            };
                            let u = match upper {
                                Some(x) => if x < usize::MAX {
                                    Some(x + 1)
                                } else {
                                    None
                                },
                                None => None,
                            };
                            (l, u)
                        },
                        None => (0, Some(0)),
                    },
                    None => (lower, upper),
                }
            },
            KIterator::Repeat { value } => (usize::MAX, None),
            KIterator::RepeatN { value, remaining } => (*remaining, Some(*remaining)),
            KIterator::Generate { function } => (usize::MAX, None),
            KIterator::GenerateN { function, remaining } => (*remaining, Some(*remaining)),
        }
    }
}

} // verus!
