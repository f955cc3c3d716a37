//! The iterator module's operations: lazy adaptor constructors, generators,
//! and eager operations that drive an iterator to a result, with the
//! argument checking the module dispatcher performs.
//!
//! Eager operations materialize the source first and then apply their
//! callback or operator to the collected values; iteration errors
//! short-circuit with the first failing output.

use vstd::prelude::*;

use crate::error::RuntimeError;
use crate::expr::{binop_spec, call_spec, BinaryOp, KFunction};
use crate::iter::{
    bidirectional, collect_pair, gen_out, iter_rem, iterable_rem, is_iterable_spec, make_iterator,
    rem_collapse, rem_val, Chain, Each, KIterator, Output, RemOut,
};
use crate::value::{seq_vview, value_clone, vview, KvPair, Value, VV};

verus! {

broadcast use
    crate::value::lemma_seq_vview_len,
    crate::value::lemma_seq_vview_index,
    crate::value::lemma_pairs_vview_len,
    crate::value::lemma_pairs_vview_index,
;

/// The most outputs an eager operation will drain before giving up with an
/// error, so that a reduction over an unbounded iterator fails rather than
/// running forever.
pub const EAGER_BUDGET: u64 = 10000000;

/// The collapsed values of an output sequence that holds no errors.
pub open spec fn outs_values(s: Seq<RemOut>) -> Seq<VV> {
    Seq::new(s.len(), |i: int| rem_val(rem_collapse(s[i])))
}

/// Whether no output in the sequence is an error.
pub open spec fn all_ok(s: Seq<RemOut>) -> bool {
    crate::iter::no_failures(s)
}

/// Drains an iterator, collapsing key/value pairs into two-element tuples,
/// until exhaustion or the first error output, which is returned as the
/// failure.
pub fn collect_values(it: &mut KIterator) -> (r: Result<Vec<Value>, RuntimeError>)
    ensures
        ({
            let pre = iter_rem(*old(it));
            pre is Some && pre->Some_0.len() < EAGER_BUDGET ==> match r {
                Ok(xs) => all_ok(pre->Some_0) && seq_vview(xs@) == outs_values(pre->Some_0),
                Err(_) => !all_ok(pre->Some_0),
            }
        }),
{
    let ghost pre = iter_rem(*old(it));
    let ghost s0 = pre->Some_0;
    let mut xs: Vec<Value> = Vec::new();
    let mut budget: u64 = EAGER_BUDGET;
    loop
        invariant
            pre == iter_rem(*old(it)),
            s0 == pre->Some_0,
            pre is Some && s0.len() < EAGER_BUDGET ==> {
                let k = s0.len() - (budget - (EAGER_BUDGET - s0.len()));
                &&& EAGER_BUDGET - s0.len() <= budget <= EAGER_BUDGET
                &&& iter_rem(*it) is Some
                &&& iter_rem(*it)->Some_0 == s0.skip(EAGER_BUDGET - budget)
                &&& xs@.len() == EAGER_BUDGET - budget
                &&& all_ok(s0.take(EAGER_BUDGET - budget))
                &&& seq_vview(xs@) == outs_values(s0.take(EAGER_BUDGET - budget))
            },
        decreases budget,
    {
        if budget == 0 {
            return Err(
                RuntimeError::ValueError { message: "iteration budget exceeded".to_owned() },
            );
        }
        let ghost s_now = iter_rem(*it)->Some_0;
        let ghost done = EAGER_BUDGET - budget;
        let pulled = it.next();
        budget = budget - 1;
        match pulled {
            None => {
                proof {
                    if pre is Some && s0.len() < EAGER_BUDGET {
                        assert(s_now.len() == 0);
                        assert(s0.skip(done as int) =~= Seq::<RemOut>::empty());
                        assert(s0.take(done as int) =~= s0);
                    }
                }
                return Ok(xs);
            },
            Some(Output::Error(e)) => {
                proof {
                    if pre is Some && s0.len() < EAGER_BUDGET {
                        assert(s0[done as int] is Fail);
                    }
                }
                return Err(e);
            },
            Some(o) => {
                let collapsed = collect_pair(o);
                match collapsed {
                    Output::Value(v) => {
                        let ghost xs_before = xs@;
                        xs.push(v);
                        proof {
                            if pre is Some && s0.len() < EAGER_BUDGET {
                                assert(s0.skip(done as int).drop_first() =~= s0.skip(done + 1));
                                assert(vview(v) == rem_val(rem_collapse(s0[done as int])));
                                assert forall|j: int| 0 <= j < done + 1 implies seq_vview(
                                    xs@,
                                )[j] == outs_values(s0.take(done + 1))[j] by {
                                    if j < done {
                                        assert(xs@[j] == xs_before[j]);
                                        assert(seq_vview(xs_before)[j] == outs_values(
                                            s0.take(done as int),
                                        )[j]);
                                        assert(s0.take(done as int)[j] == s0[j]);
                                        assert(s0.take(done + 1)[j] == s0[j]);
                                    } else {
                                        assert(xs@[j] == v);
                                        assert(s0.take(done + 1)[j] == s0[done as int]);
                                    }
                                }
                                assert(seq_vview(xs@) =~= outs_values(s0.take(done + 1)));
                            }
                        }
                    },
                    other => {
                        let msg = match other {
                            Output::Error(e) => e,
                            _ => RuntimeError::ValueError {
                                message: "unexpected iterator output".to_owned(),
                            },
                        };
                        proof {
                            if pre is Some && s0.len() < EAGER_BUDGET {
                                assert(false);
                            }
                        }
                        return Err(msg);
                    },
                }
            },
        }
    }
}

/// Builds the chaining adaptor: all of the first iterable, then all of the
/// second. Its remaining outputs are the concatenation of the two sources'.
pub fn chain(a: &Value, b: &Value) -> (r: Result<KIterator, RuntimeError>)
    ensures
        match r {
            Ok(it) => is_iterable_spec(*a) && is_iterable_spec(*b) && ({
                (iterable_rem(*a) is Some && iterable_rem(*b) is Some) ==> iter_rem(it) == Some(
                    iterable_rem(*a)->Some_0 + iterable_rem(*b)->Some_0,
                )
            }),
            Err(_) => !is_iterable_spec(*a) || !is_iterable_spec(*b),
        },
{
    let ia = make_iterator(a)?;
    let ib = make_iterator(b)?;
    Ok(KIterator::Chain(Chain::new(ia, ib)))
}

/// Builds the mapping adaptor over an iterable with a callable: its
/// outputs are the source's, each value passed through the callable.
pub fn each(iterable: &Value, f: KFunction) -> (r: Result<KIterator, RuntimeError>)
    ensures
        match r {
            Ok(it) => is_iterable_spec(*iterable) && (it matches KIterator::Each(e)
                && e.function == f && (iterable_rem(*iterable) is Some ==> iter_rem(*e.iter)
                == iterable_rem(*iterable))),
            Err(_) => !is_iterable_spec(*iterable),
        },
{
    let inner = make_iterator(iterable)?;
    Ok(KIterator::Each(Each::new(inner, f)))
}

/// Builds the infinite replay adaptor over an iterable: a fresh first
/// pass over the source with an empty replay buffer.
pub fn cycle(iterable: &Value) -> (r: Result<KIterator, RuntimeError>)
    ensures
        r is Ok <==> is_iterable_spec(*iterable),
        r matches Ok(it) ==> (it matches KIterator::Cycle { source, buffer, cursor, exhausted }
            && buffer@.len() == 0 && cursor == 0usize && !exhausted && (iterable_rem(*iterable)
            is Some ==> iter_rem(*source) == iterable_rem(*iterable))),
{
    let inner = make_iterator(iterable)?;
    Ok(
        KIterator::Cycle {
            source: Box::new(inner),
            buffer: Vec::new(),
            cursor: 0,
            exhausted: false,
        },
    )
}

/// Builds the enumerating adaptor: key/value outputs pairing a running
/// index, starting at zero, with each source value.
pub fn enumerate(iterable: &Value) -> (r: Result<KIterator, RuntimeError>)
    ensures
        match r {
            Ok(it) => is_iterable_spec(*iterable) && (it matches KIterator::Enumerate {
                inner,
                index: 0usize,
            } && (iterable_rem(*iterable) is Some ==> iter_rem(*inner) == iterable_rem(
                *iterable,
            ))),
            Err(_) => !is_iterable_spec(*iterable),
        },
{
    let inner = make_iterator(iterable)?;
    Ok(KIterator::Enumerate { inner: Box::new(inner), index: 0 })
}

/// Builds the one-level flattening adaptor, with no element iteration in
/// progress yet.
pub fn flatten(iterable: &Value) -> (r: Result<KIterator, RuntimeError>)
    ensures
        r is Ok <==> is_iterable_spec(*iterable),
        r matches Ok(it) ==> (it matches KIterator::Flatten { inner, current } && current is None
            && (iterable_rem(*iterable) is Some ==> iter_rem(*inner) == iterable_rem(
            *iterable,
        ))),
{
    let inner = make_iterator(iterable)?;
    Ok(KIterator::Flatten { inner: Box::new(inner), current: None })
}

/// Builds the interspersing adaptor with a separator value, not yet
/// started and with no output pending.
pub fn intersperse(iterable: &Value, separator: Value) -> (r: Result<KIterator, RuntimeError>)
    ensures
        r is Ok <==> is_iterable_spec(*iterable),
        r matches Ok(it) ==> (it matches KIterator::Intersperse { inner, sep, pending, started }
            && sep == separator && pending is None && !started && (iterable_rem(*iterable)
            is Some ==> iter_rem(*inner) == iterable_rem(*iterable))),
{
    let inner = make_iterator(iterable)?;
    Ok(
        KIterator::Intersperse {
            inner: Box::new(inner),
            sep: separator,
            pending: None,
            started: false,
        },
    )
}

/// Builds the interspersing adaptor with a separator callable, invoked
/// once per insertion, not yet started and with no output pending.
pub fn intersperse_with(iterable: &Value, separator_fn: KFunction) -> (r: Result<
    KIterator,
    RuntimeError,
>)
    ensures
        r is Ok <==> is_iterable_spec(*iterable),
        r matches Ok(it) ==> (it matches KIterator::IntersperseWith {
            inner,
            sep_fn,
            pending,
            started,
        } && sep_fn == separator_fn && pending is None && !started && (iterable_rem(*iterable)
            is Some ==> iter_rem(*inner) == iterable_rem(*iterable))),
{
    let inner = make_iterator(iterable)?;
    Ok(
        KIterator::IntersperseWith {
            inner: Box::new(inner),
            sep_fn: separator_fn,
            pending: None,
            started: false,
        },
    )
}

/// Builds the filtering adaptor with a predicate callable.
pub fn keep(iterable: &Value, predicate: KFunction) -> (r: Result<KIterator, RuntimeError>)
    ensures
        r is Ok <==> is_iterable_spec(*iterable),
        r matches Ok(it) ==> (it matches KIterator::Keep { inner, predicate: p } && p == predicate
            && (iterable_rem(*iterable) is Some ==> iter_rem(*inner) == iterable_rem(
            *iterable,
        ))),
{
    let inner = make_iterator(iterable)?;
    Ok(KIterator::Keep { inner: Box::new(inner), predicate })
}

/// Builds the truncating adaptor: at most `n` outputs.
pub fn take(iterable: &Value, n: usize) -> (r: Result<KIterator, RuntimeError>)
    ensures
        match r {
            Ok(it) => is_iterable_spec(*iterable) && (iterable_rem(*iterable) is Some ==> iter_rem(it)
                == Some(
                iterable_rem(*iterable)->Some_0.take(
                    if n <= iterable_rem(*iterable)->Some_0.len() {
                        n as int
                    } else {
                        iterable_rem(*iterable)->Some_0.len() as int
                    },
                ),
            )),
            Err(_) => !is_iterable_spec(*iterable),
        },
{
    let inner = make_iterator(iterable)?;
    Ok(KIterator::Take { inner: Box::new(inner), remaining: n })
}

/// Builds the grouping adaptor: non-overlapping tuples of `n` values, the
/// last possibly shorter. A zero size is a construction error.
pub fn chunks(iterable: &Value, n: usize) -> (r: Result<KIterator, RuntimeError>)
    ensures
        match r {
            Ok(it) => is_iterable_spec(*iterable) && n > 0 && (it matches KIterator::Chunks {
                inner,
                size,
                buf,
            } && size == n && buf@.len() == 0 && (iterable_rem(*iterable) is Some ==> iter_rem(
                *inner,
            ) == iterable_rem(*iterable))),
            Err(_) => !is_iterable_spec(*iterable) || n == 0,
        },
{
    if n == 0 {
        return Err(
            RuntimeError::ValueError {
                message: "iterator.chunks: chunk size must be greater than zero".to_owned(),
            },
        );
    }
    let inner = make_iterator(iterable)?;
    Ok(KIterator::Chunks { inner: Box::new(inner), size: n, buf: Vec::new() })
}

/// Builds the sliding-window adaptor: windows of `n` consecutive values.
/// A zero size is a construction error.
pub fn windows(iterable: &Value, n: usize) -> (r: Result<KIterator, RuntimeError>)
    ensures
        match r {
            Ok(it) => is_iterable_spec(*iterable) && n > 0 && (it matches KIterator::Windows {
                inner,
                size,
                buf,
            } && size == n && buf@.len() == 0 && (iterable_rem(*iterable) is Some ==> iter_rem(
                *inner,
            ) == iterable_rem(*iterable))),
            Err(_) => !is_iterable_spec(*iterable) || n == 0,
        },
{
    if n == 0 {
        return Err(
            RuntimeError::ValueError {
                message: "iterator.windows: window size must be greater than zero".to_owned(),
            },
        );
    }
    let inner = make_iterator(iterable)?;
    Ok(KIterator::Windows { inner: Box::new(inner), size: n, buf: Vec::new() })
}

/// Builds the reversing adaptor; the source must support backward
/// iteration, else construction fails.
pub fn reversed(iterable: &Value) -> (r: Result<KIterator, RuntimeError>)
    ensures
        match r {
            Ok(it) => is_iterable_spec(*iterable) && (it matches KIterator::Reversed { inner }
                && bidirectional(*inner) && (iterable_rem(*iterable) is Some ==> iter_rem(*inner)
                == iterable_rem(*iterable))),
            Err(_) => true,
        },
{
    let inner = make_iterator(iterable)?;
    if inner.is_bidirectional() {
        Ok(KIterator::Reversed { inner: Box::new(inner) })
    } else {
        Err(
            RuntimeError::TypeError {
                expected: "iterator.reversed: an iterable with backward iteration".to_owned(),
                got: "an iterable without backward iteration".to_owned(),
            },
        )
    }
}

/// Builds the pairing adaptor: key/value outputs drawn from two iterables,
/// ending when either ends.
pub fn zip(a: &Value, b: &Value) -> (r: Result<KIterator, RuntimeError>)
    ensures
        match r {
            Ok(it) => is_iterable_spec(*a) && is_iterable_spec(*b) && ({
                (iterable_rem(*a) is Some && iterable_rem(*b) is Some) ==> iter_rem(it) == Some(
                    crate::iter::zip_outs(iterable_rem(*a)->Some_0, iterable_rem(*b)->Some_0),
                )
            }),
            Err(_) => !is_iterable_spec(*a) || !is_iterable_spec(*b),
        },
{
    let ia = make_iterator(a)?;
    let ib = make_iterator(b)?;
    Ok(KIterator::Zip { iter_a: Box::new(ia), iter_b: Box::new(ib) })
}

/// Builds the peekable adaptor, with nothing peeked yet.
pub fn peekable(iterable: &Value) -> (r: Result<KIterator, RuntimeError>)
    ensures
        r is Ok <==> is_iterable_spec(*iterable),
        r matches Ok(it) ==> (it matches KIterator::Peekable { inner, peeked } && peeked is None
            && (iterable_rem(*iterable) is Some ==> iter_rem(*inner) == iterable_rem(
            *iterable,
        ))),
{
    let inner = make_iterator(iterable)?;
    Ok(KIterator::Peekable { inner: Box::new(inner), peeked: None })
}

/// The generator that repeats a value forever.
pub fn repeat(value: Value) -> (r: KIterator)
    ensures
        r == (KIterator::Repeat { value }),
{
    KIterator::Repeat { value }
}

/// The generator that repeats a value `n` times.
pub fn repeat_n(value: Value, n: usize) -> (r: KIterator)
    ensures
        iter_rem(r) == Some(Seq::new(n as nat, |i: int| RemOut::Val(vview(value)))),
{
    KIterator::RepeatN { value, remaining: n }
}

/// The generator that invokes a callable forever.
pub fn generate(f: KFunction) -> (r: KIterator)
    ensures
        r == (KIterator::Generate { function: f }),
{
    KIterator::Generate { function: f }
}

/// The generator that invokes a callable `n` times.
pub fn generate_n(n: usize, f: KFunction) -> (r: KIterator)
    ensures
        iter_rem(r) == Some(Seq::new(n as nat, |i: int| gen_out(f))),
{
    KIterator::GenerateN { function: f, remaining: n }
}

/// Materializes an iterable into a list value.
pub fn to_list(iterable: &Value) -> (r: Result<Value, RuntimeError>)
    ensures
        ({
            let pre = iterable_rem(*iterable);
            pre is Some && pre->Some_0.len() < EAGER_BUDGET ==> match r {
                Ok(v) => all_ok(pre->Some_0) && vview(v) == VV::List(outs_values(pre->Some_0)),
                Err(_) => !all_ok(pre->Some_0),
            }
        }),
        r is Err ==> !is_iterable_spec(*iterable) || (iterable_rem(*iterable) is Some ==> !all_ok(
            iterable_rem(*iterable)->Some_0,
        ) || iterable_rem(*iterable)->Some_0.len() >= EAGER_BUDGET),
{
    let mut it = make_iterator(iterable)?;
    let xs = collect_values(&mut it)?;
    Ok(Value::List(xs))
}

/// Materializes an iterable into a tuple value.
pub fn to_tuple(iterable: &Value) -> (r: Result<Value, RuntimeError>)
    ensures
        ({
            let pre = iterable_rem(*iterable);
            pre is Some && pre->Some_0.len() < EAGER_BUDGET ==> match r {
                Ok(v) => all_ok(pre->Some_0) && vview(v) == VV::Tuple(outs_values(pre->Some_0)),
                Err(_) => !all_ok(pre->Some_0),
            }
        }),
{
    let mut it = make_iterator(iterable)?;
    let xs = collect_values(&mut it)?;
    Ok(Value::Tuple(xs))
}

/// Counts an iterable's outputs.
pub fn count(iterable: &Value) -> (r: Result<Value, RuntimeError>)
    ensures
        ({
            let pre = iterable_rem(*iterable);
            pre is Some && pre->Some_0.len() < EAGER_BUDGET ==> match r {
                Ok(v) => all_ok(pre->Some_0) && vview(v) == VV::Int(pre->Some_0.len() as int),
                Err(_) => !all_ok(pre->Some_0),
            }
        }),
{
    let mut it = make_iterator(iterable)?;
    let xs = collect_values(&mut it)?;
    proof {
        crate::value::lemma_seq_vview_len(xs@);
    }
    Ok(Value::Number(xs.len() as i64))
}

/// The last output of an iterable, or null when it is empty.
pub fn last(iterable: &Value) -> (r: Result<Value, RuntimeError>)
    ensures
        ({
            let pre = iterable_rem(*iterable);
            pre is Some && pre->Some_0.len() < EAGER_BUDGET ==> match r {
                Ok(v) => all_ok(pre->Some_0) && vview(v) == if pre->Some_0.len() == 0 {
                    VV::Null
                } else {
                    outs_values(pre->Some_0).last()
                },
                Err(_) => !all_ok(pre->Some_0),
            }
        }),
{
    let mut it = make_iterator(iterable)?;
    let mut xs = collect_values(&mut it)?;
    proof {
        crate::value::lemma_seq_vview_len(xs@);
        if xs@.len() > 0 {
            crate::value::lemma_seq_vview_index(xs@, xs@.len() - 1);
        }
    }
    match xs.pop() {
        Some(v) => Ok(v),
        None => Ok(Value::Null),
    }
}

/// Drains an iterable, discarding its values; the first error output is
/// returned as the failure.
pub fn consume(iterable: &Value) -> (r: Result<Value, RuntimeError>)
    ensures
        ({
            let pre = iterable_rem(*iterable);
            pre is Some && pre->Some_0.len() < EAGER_BUDGET ==> match r {
                Ok(v) => all_ok(pre->Some_0) && vview(v) == VV::Null,
                Err(_) => !all_ok(pre->Some_0),
            }
        }),
{
    let mut it = make_iterator(iterable)?;
    let _ = collect_values(&mut it)?;
    Ok(Value::Null)
}

/// What folding the collected values with a callable yields; `None` is a
/// callback failure.
pub open spec fn fold_spec(vs: Seq<VV>, init: VV, f: KFunction) -> Option<VV>
    decreases vs.len(),
{
    if vs.len() == 0 {
        Some(init)
    } else {
        match call_spec(f, seq![init, vs[0]]) {
            Some(acc) => fold_spec(vs.drop_first(), acc, f),
            None => None,
        }
    }
}

/// Folds an iterable's values with a callable, from an initial value.
pub fn fold(iterable: &Value, initial: Value, f: &KFunction) -> (r: Result<Value, RuntimeError>)
    ensures
        ({
            let pre = iterable_rem(*iterable);
            pre is Some && pre->Some_0.len() < EAGER_BUDGET && all_ok(pre->Some_0) ==> match r {
                Ok(v) => fold_spec(outs_values(pre->Some_0), vview(initial), *f) == Some(vview(v)),
                Err(_) => fold_spec(outs_values(pre->Some_0), vview(initial), *f) is None,
            }
        }),
{
    let mut it = make_iterator(iterable)?;
    let xs = collect_values(&mut it)?;
    let ghost vs = seq_vview(xs@);
    let mut acc = initial;
    let n = xs.len();
    proof {
        crate::value::lemma_seq_vview_len(xs@);
        assert(vs.skip(0) =~= vs);
    }
    for i in 0..n
        invariant
            n == xs.len(),
            vs == seq_vview(xs@),
            vs.len() == n,
            fold_spec(vs, vview(initial), *f) == fold_spec(vs.skip(i as int), vview(acc), *f),
            ({
                let pre = iterable_rem(*iterable);
                pre is Some && pre->Some_0.len() < EAGER_BUDGET && all_ok(pre->Some_0)
            }) ==> vs == outs_values(iterable_rem(*iterable)->Some_0),
        decreases n - i,
    {
        proof {
            crate::value::lemma_seq_vview_index(xs@, i as int);
            assert(vs.skip(i as int)[0] == vs[i as int]);
            assert(vs.skip(i as int).drop_first() =~= vs.skip(i + 1));
        }
        let mut args: Vec<Value> = Vec::new();
        args.push(acc);
        args.push(value_clone(&xs[i]));
        proof {
            crate::value::lemma_veq_views(xs@[i as int], args@[1]);
            assert(seq_vview(args@) =~= seq![vview(args@[0]), vview(args@[1])]);
        }
        match crate::expr::run_function(f, &args) {
            Ok(next_acc) => {
                acc = next_acc;
            },
            Err(e) => {
                return Err(e);
            },
        }
    }
    proof {
        assert(vs.skip(n as int) =~= Seq::<VV>::empty());
    }
    Ok(acc)
}

/// What reducing the collected values with a binary operator yields.
pub open spec fn reduce_spec(vs: Seq<VV>, init: VV, op: BinaryOp) -> Option<VV>
    decreases vs.len(),
{
    if vs.len() == 0 {
        Some(init)
    } else {
        match binop_spec(op, init, vs[0]) {
            Some(acc) => reduce_spec(vs.drop_first(), acc, op),
            None => None,
        }
    }
}

fn fold_with_operator(iterable: &Value, initial: Value, op: BinaryOp) -> (r: Result<
    Value,
    RuntimeError,
>)
    ensures
        ({
            let pre = iterable_rem(*iterable);
            pre is Some && pre->Some_0.len() < EAGER_BUDGET && all_ok(pre->Some_0) ==> match r {
                Ok(v) => reduce_spec(outs_values(pre->Some_0), vview(initial), op) == Some(
                    vview(v),
                ),
                Err(_) => reduce_spec(outs_values(pre->Some_0), vview(initial), op) is None,
            }
        }),
{
    let mut it = make_iterator(iterable)?;
    let xs = collect_values(&mut it)?;
    let ghost vs = seq_vview(xs@);
    let mut acc = initial;
    let n = xs.len();
    proof {
        crate::value::lemma_seq_vview_len(xs@);
        assert(vs.skip(0) =~= vs);
    }
    for i in 0..n
        invariant
            n == xs.len(),
            vs == seq_vview(xs@),
            vs.len() == n,
            reduce_spec(vs, vview(initial), op) == reduce_spec(vs.skip(i as int), vview(acc), op),
            ({
                let pre = iterable_rem(*iterable);
                pre is Some && pre->Some_0.len() < EAGER_BUDGET && all_ok(pre->Some_0)
            }) ==> vs == outs_values(iterable_rem(*iterable)->Some_0),
        decreases n - i,
    {
        proof {
            crate::value::lemma_seq_vview_index(xs@, i as int);
            assert(vs.skip(i as int)[0] == vs[i as int]);
            assert(vs.skip(i as int).drop_first() =~= vs.skip(i + 1));
        }
        let rhs = value_clone(&xs[i]);
        proof {
            crate::value::lemma_veq_views(xs@[i as int], rhs);
        }
        match crate::expr::run_binary_op(op, acc, rhs) {
            Ok(next_acc) => {
                acc = next_acc;
            },
            Err(e) => {
                return Err(e);
            },
        }
    }
    proof {
        assert(vs.skip(n as int) =~= Seq::<VV>::empty());
    }
    Ok(acc)
}

/// Sums an iterable's values with the runtime's `+`, from an optional
/// initial value that defaults to zero.
pub fn sum(iterable: &Value, initial: Option<Value>) -> (r: Result<Value, RuntimeError>)
    ensures
        ({
            let pre = iterable_rem(*iterable);
            let init = match initial {
                Some(v) => vview(v),
                None => VV::Int(0),
            };
            pre is Some && pre->Some_0.len() < EAGER_BUDGET && all_ok(pre->Some_0) ==> match r {
                Ok(v) => reduce_spec(outs_values(pre->Some_0), init, BinaryOp::Add) == Some(
                    vview(v),
                ),
                Err(_) => reduce_spec(outs_values(pre->Some_0), init, BinaryOp::Add) is None,
            }
        }),
{
    let init = match initial {
        Some(v) => v,
        None => Value::Number(0),
    };
    fold_with_operator(iterable, init, BinaryOp::Add)
}

/// Multiplies an iterable's values with the runtime's `*`, from an
/// optional initial value that defaults to one.
pub fn product(iterable: &Value, initial: Option<Value>) -> (r: Result<Value, RuntimeError>)
    ensures
        ({
            let pre = iterable_rem(*iterable);
            let init = match initial {
                Some(v) => vview(v),
                None => VV::Int(1),
            };
            pre is Some && pre->Some_0.len() < EAGER_BUDGET && all_ok(pre->Some_0) ==> match r {
                Ok(v) => reduce_spec(outs_values(pre->Some_0), init, BinaryOp::Multiply) == Some(
                    vview(v),
                ),
                Err(_) => reduce_spec(outs_values(pre->Some_0), init, BinaryOp::Multiply) is None,
            }
        }),
{
    let init = match initial {
        Some(v) => v,
        None => Value::Number(1),
    };
    fold_with_operator(iterable, init, BinaryOp::Multiply)
}

/// What scanning the outputs in order for the first value the predicate
/// maps to `stop` yields: the position and value of the first hit, a miss
/// at exhaustion, or a failure -- the first error output, failed predicate
/// call, or non-boolean predicate result, whichever comes first.
pub enum ScanRes {
    Hit(int, VV),
    Miss,
    Fail,
}

/// The scan's outcome over an output sequence.
pub open spec fn scan_spec(s: Seq<RemOut>, f: KFunction, stop: bool) -> ScanRes
    decreases s.len(),
{
    if s.len() == 0 {
        ScanRes::Miss
    } else {
        match rem_collapse(s[0]) {
            RemOut::Val(v) => match call_spec(f, seq![v]) {
                Some(VV::Bool(b)) => if b == stop {
                    ScanRes::Hit(0, v)
                } else {
                    match scan_spec(s.drop_first(), f, stop) {
                        ScanRes::Hit(i, w) => ScanRes::Hit(i + 1, w),
                        other => other,
                    }
                },
                _ => ScanRes::Fail,
            },
            _ => ScanRes::Fail,
        }
    }
}

fn call_predicate(f: &KFunction, v: &Value) -> (r: Result<bool, RuntimeError>)
    ensures
        match r {
            Ok(b) => call_spec(*f, seq![vview(*v)]) == Some(VV::Bool(b)),
            Err(_) => !(call_spec(*f, seq![vview(*v)]) matches Some(VV::Bool(_))),
        },
{
    let mut args: Vec<Value> = Vec::new();
    args.push(value_clone(v));
    proof {
        crate::value::lemma_veq_views(*v, args@[0]);
        assert(seq_vview(args@) =~= seq![vview(*v)]);
    }
    match crate::expr::run_function(f, &args) {
        Ok(Value::Bool(b)) => Ok(b),
        Ok(other) => Err(
            RuntimeError::TypeError {
                expected: "a Bool to be returned from the predicate".to_owned(),
                got: other.kind_name(),
            },
        ),
        Err(e) => Err(e),
    }
}

/// Drives an iterator until the predicate yields `stop`, short-circuiting
/// there: later outputs are not pulled, so an error beyond the deciding
/// element never surfaces. The failure is the first error output or the
/// first failing or non-boolean predicate call.
#[verifier::loop_isolation(false)]
fn scan_until(it: &mut KIterator, predicate: &KFunction, stop: bool) -> (r: Result<
    Option<(usize, Value)>,
    RuntimeError,
>)
    ensures
        ({
            let pre = iter_rem(*old(it));
            pre is Some && pre->Some_0.len() < EAGER_BUDGET ==> {
                let outcome = scan_spec(pre->Some_0, *predicate, stop);
                match r {
                    Ok(Some((i, v))) => outcome == ScanRes::Hit(i as int, vview(v)),
                    Ok(None) => outcome == ScanRes::Miss,
                    Err(_) => outcome is Fail,
                }
            }
        }),
        r matches Ok(Some(hit)) ==> hit.0 < EAGER_BUDGET,
{
    let ghost pre = iter_rem(*old(it));
    let ghost s0 = pre->Some_0;
    let mut budget: u64 = EAGER_BUDGET;
    proof {
        if pre is Some {
            assert(s0.skip(0) =~= s0);
        }
    }
    loop
        invariant
            budget <= EAGER_BUDGET,
            pre == iter_rem(*old(it)),
            s0 == pre->Some_0,
            pre is Some && s0.len() < EAGER_BUDGET ==> {
                &&& EAGER_BUDGET - s0.len() <= budget <= EAGER_BUDGET
                &&& iter_rem(*it) is Some
                &&& iter_rem(*it)->Some_0 == s0.skip(EAGER_BUDGET - budget)
                &&& scan_spec(s0, *predicate, stop) == (match scan_spec(
                    s0.skip(EAGER_BUDGET - budget),
                    *predicate,
                    stop,
                ) {
                    ScanRes::Hit(i, w) => ScanRes::Hit(i + (EAGER_BUDGET - budget), w),
                    other => other,
                })
            },
        decreases budget,
    {
        if budget == 0 {
            return Err(
                RuntimeError::ValueError { message: "iteration budget exceeded".to_owned() },
            );
        }
        let ghost done = EAGER_BUDGET - budget;
        let pulled = it.next();
        budget = budget - 1;
        proof {
            if pre is Some && s0.len() < EAGER_BUDGET && done < s0.len() {
                assert(s0.skip(done as int).drop_first() =~= s0.skip(done + 1));
            }
        }
        match pulled {
            None => {
                return Ok(None);
            },
            Some(Output::Error(e)) => {
                return Err(e);
            },
            Some(o) => {
                let collapsed = collect_pair(o);
                match collapsed {
                    Output::Value(v) => {
                        match call_predicate(predicate, &v) {
                            Ok(b) => {
                                if b == stop {
                                    let idx = done_index(budget);
                                    return Ok(Some((idx, v)));
                                }
                            },
                            Err(e) => {
                                return Err(e);
                            },
                        }
                    },
                    other => {
                        let e = match other {
                            Output::Error(e) => e,
                            _ => RuntimeError::ValueError {
                                message: "unexpected iterator output".to_owned(),
                            },
                        };
                        return Err(e);
                    },
                }
            },
        }
    }
}

/// The zero-based position of the output just pulled, from the budget
/// spent so far.
fn done_index(budget: u64) -> (r: usize)
    requires
        budget < EAGER_BUDGET,
    ensures
        r == EAGER_BUDGET - budget - 1,
{
    ((EAGER_BUDGET - budget) - 1) as usize
}

/// Whether a predicate holds of every output of an iterable: the first
/// value it rejects decides with false and ends the iteration there; an
/// error output or predicate failure met before that is the failure.
pub fn all(iterable: &Value, predicate: &KFunction) -> (r: Result<Value, RuntimeError>)
    ensures
        ({
            let pre = iterable_rem(*iterable);
            pre is Some && pre->Some_0.len() < EAGER_BUDGET ==> match scan_spec(
                pre->Some_0,
                *predicate,
                false,
            ) {
                ScanRes::Hit(_, _) => r == Result::<Value, RuntimeError>::Ok(Value::Bool(false)),
                ScanRes::Miss => r == Result::<Value, RuntimeError>::Ok(Value::Bool(true)),
                ScanRes::Fail => r is Err,
            }
        }),
{
    let mut it = make_iterator(iterable)?;
    match scan_until(&mut it, predicate, false)? {
        Some(_) => Ok(Value::Bool(false)),
        None => Ok(Value::Bool(true)),
    }
}

/// Whether a predicate holds of any output of an iterable: the first
/// value it accepts decides with true and ends the iteration there; an
/// error output or predicate failure met before that is the failure.
pub fn any(iterable: &Value, predicate: &KFunction) -> (r: Result<Value, RuntimeError>)
    ensures
        ({
            let pre = iterable_rem(*iterable);
            pre is Some && pre->Some_0.len() < EAGER_BUDGET ==> match scan_spec(
                pre->Some_0,
                *predicate,
                true,
            ) {
                ScanRes::Hit(_, _) => r == Result::<Value, RuntimeError>::Ok(Value::Bool(true)),
                ScanRes::Miss => r == Result::<Value, RuntimeError>::Ok(Value::Bool(false)),
                ScanRes::Fail => r is Err,
            }
        }),
{
    let mut it = make_iterator(iterable)?;
    match scan_until(&mut it, predicate, true)? {
        Some(_) => Ok(Value::Bool(true)),
        None => Ok(Value::Bool(false)),
    }
}

/// The first value matching a predicate, or null; iteration ends at the
/// match.
pub fn find(iterable: &Value, predicate: &KFunction) -> (r: Result<Value, RuntimeError>)
    ensures
        ({
            let pre = iterable_rem(*iterable);
            pre is Some && pre->Some_0.len() < EAGER_BUDGET ==> match scan_spec(
                pre->Some_0,
                *predicate,
                true,
            ) {
                ScanRes::Hit(_, w) => r matches Ok(v) && vview(v) == w,
                ScanRes::Miss => r matches Ok(v) && vview(v) == VV::Null,
                ScanRes::Fail => r is Err,
            }
        }),
{
    let mut it = make_iterator(iterable)?;
    match scan_until(&mut it, predicate, true)? {
        Some(hit) => Ok(hit.1),
        None => Ok(Value::Null),
    }
}

/// The zero-based position of the first value matching a predicate, or
/// null; iteration ends at the match.
pub fn position(iterable: &Value, predicate: &KFunction) -> (r: Result<Value, RuntimeError>)
    ensures
        ({
            let pre = iterable_rem(*iterable);
            pre is Some && pre->Some_0.len() < EAGER_BUDGET ==> match scan_spec(
                pre->Some_0,
                *predicate,
                true,
            ) {
                ScanRes::Hit(i, _) => r matches Ok(v) && vview(v) == VV::Int(i),
                ScanRes::Miss => r matches Ok(v) && vview(v) == VV::Null,
                ScanRes::Fail => r is Err,
            }
        }),
{
    let mut it = make_iterator(iterable)?;
    match scan_until(&mut it, predicate, true)? {
        Some(hit) => {
            if (hit.0 as u64) <= (i64::MAX as u64) {
                Ok(Value::Number(hit.0 as i64))
            } else {
                Err(RuntimeError::ValueError { message: "iteration budget exceeded".to_owned() })
            }
        },
        None => Ok(Value::Null),
    }
}

/// Advances an iterable by `n` outputs, returning the advanced iterator;
/// skipping past the end does not fault. An error output met while
/// skipping is the failure.
pub fn skip(iterable: &Value, n: usize) -> (r: Result<KIterator, RuntimeError>)
    ensures
        ({
            let pre = iterable_rem(*iterable);
            pre is Some ==> match r {
                Ok(it) => iter_rem(it) is Some && iter_rem(it)->Some_0 == pre->Some_0.skip(
                    if n <= pre->Some_0.len() {
                        n as int
                    } else {
                        pre->Some_0.len() as int
                    },
                ),
                Err(_) => !all_ok(pre->Some_0),
            }
        }),
{
    let ghost pre = iterable_rem(*iterable);
    let mut it = make_iterator(iterable)?;
    proof {
        if pre is Some {
            assert(pre->Some_0.skip(0) =~= pre->Some_0);
        }
    }
    let mut i: usize = 0;
    while i < n
        invariant
            i <= n,
            pre == iterable_rem(*iterable),
            pre is Some ==> iter_rem(it) is Some && iter_rem(it)->Some_0 == pre->Some_0.skip(
                if i <= pre->Some_0.len() {
                    i as int
                } else {
                    pre->Some_0.len() as int
                },
            ),
        decreases n - i,
    {
        let ghost s_now = iter_rem(it)->Some_0;
        match it.next() {
            None => {
                proof {
                    if pre is Some {
                        let s0 = pre->Some_0;
                        assert(s_now.len() == 0);
                        assert(i <= s0.len() ==> i == s0.len());
                        assert(iter_rem(it)->Some_0 =~= s0.skip(
                            if n <= s0.len() {
                                n as int
                            } else {
                                s0.len() as int
                            },
                        ));
                    }
                }
                return Ok(it);
            },
            Some(Output::Error(e)) => {
                proof {
                    if pre is Some {
                        let s0 = pre->Some_0;
                        let k = if i <= s0.len() {
                            i as int
                        } else {
                            s0.len() as int
                        };
                        assert(s0[k] == s_now[0]);
                        assert(s0[k] is Fail);
                        assert(!all_ok(s0));
                    }
                }
                return Err(e);
            },
            Some(_) => {
                proof {
                    if pre is Some {
                        let s0 = pre->Some_0;
                        assert(s0.skip(i as int).drop_first() =~= s0.skip(i + 1));
                    }
                }
            },
        }
        i = i + 1;
    }
    Ok(it)
}

fn output_to_result(o: Option<Output>) -> (r: Result<Value, RuntimeError>)
    ensures
        match o {
            Some(out) => match out {
                Output::Error(_) => r is Err,
                _ => r is Ok && vview(r->Ok_0) == rem_val(rem_collapse(
                    crate::iter::rem_out_of(out),
                )),
            },
            None => r == Result::<Value, RuntimeError>::Ok(Value::Null),
        },
{
    match o {
        Some(out) => {
            let collapsed = collect_pair(out);
            match collapsed {
                Output::Value(v) => Ok(v),
                Output::Error(e) => Err(e),
                Output::ValuePair(a, b) => Err(
                    RuntimeError::ValueError { message: "unexpected iterator output".to_owned() },
                ),
            }
        },
        None => Ok(Value::Null),
    }
}

/// One forward step of an iterator handle, as the module's `next`
/// operation: a value, or null once exhausted; key/value pairs collapse
/// into tuples.
pub fn op_next(it: &mut KIterator) -> (r: Result<Value, RuntimeError>)
    ensures
        ({
            let pre = iter_rem(*old(it));
            pre is Some ==> {
                let s = pre->Some_0;
                if s.len() == 0 {
                    r == Result::<Value, RuntimeError>::Ok(Value::Null)
                } else if s[0] is Fail {
                    r is Err
                } else {
                    r is Ok && vview(r->Ok_0) == rem_val(rem_collapse(s[0]))
                }
            }
        }),
{
    let o = it.next();
    output_to_result(o)
}

/// One backward step of an iterator handle, for sources with backward
/// iteration; on any other iterator the result is null.
pub fn op_next_back(it: &mut KIterator) -> (r: Result<Value, RuntimeError>)
    ensures
        ({
            let pre = iter_rem(*old(it));
            bidirectional(*old(it)) && pre is Some ==> {
                let s = pre->Some_0;
                if s.len() == 0 {
                    r == Result::<Value, RuntimeError>::Ok(Value::Null)
                } else if s.last() is Fail {
                    r is Err
                } else {
                    r is Ok && vview(r->Ok_0) == rem_val(rem_collapse(s.last()))
                }
            }
        }),
{
    let o = it.next_back();
    output_to_result(o)
}


/// Folding a keyed comparison over the values: the accumulator is a
/// (value, key) pair, and each next pair's key is compared with the
/// accumulator's under the script's `<`. The lesser pair is kept (or the
/// greater when inverted); on equal keys the minimum keeps the earlier
/// element and the maximum takes the later one. `None` is a key or
/// comparison failure.
pub open spec fn extreme_fold(
    vs: Seq<VV>,
    key: Option<KFunction>,
    acc: (VV, VV),
    invert: bool,
) -> Option<(VV, VV)>
    decreases vs.len(),
{
    if vs.len() == 0 {
        Some(acc)
    } else {
        match keyed_spec(vs[0], key) {
            Some(p) => match binop_spec(BinaryOp::Less, p.1, acc.1) {
                Some(VV::Bool(t)) => extreme_fold(
                    vs.drop_first(),
                    key,
                    if t {
                        if invert {
                            acc
                        } else {
                            p
                        }
                    } else {
                        if invert {
                            p
                        } else {
                            acc
                        }
                    },
                    invert,
                ),
                _ => None,
            },
            None => None,
        }
    }
}

#[verifier::loop_isolation(false)]
fn run_comparison(iterable: &Value, key: Option<KFunction>, invert: bool) -> (r: Result<
    Value,
    RuntimeError,
>)
    ensures
        ({
            let pre = iterable_rem(*iterable);
            pre is Some && pre->Some_0.len() < EAGER_BUDGET && all_ok(pre->Some_0) ==> {
                let vs = outs_values(pre->Some_0);
                match r {
                    Ok(v) => if vs.len() == 0 {
                        vview(v) == VV::Null
                    } else {
                        match keyed_spec(vs[0], key) {
                            Some(p0) => match extreme_fold(vs.drop_first(), key, p0, invert) {
                                Some(q) => vview(v) == q.0,
                                None => false,
                            },
                            None => false,
                        }
                    },
                    Err(_) => vs.len() > 0 && (keyed_spec(vs[0], key) is None || extreme_fold(
                        vs.drop_first(),
                        key,
                        keyed_spec(vs[0], key)->Some_0,
                        invert,
                    ) is None),
                }
            }
        }),
{
    let mut it = make_iterator(iterable)?;
    let xs = collect_values(&mut it)?;
    let ghost vs = seq_vview(xs@);
    let n = xs.len();
    proof {
        crate::value::lemma_seq_vview_len(xs@);
    }
    if n == 0 {
        return Ok(Value::Null);
    }
    proof {
        crate::value::lemma_seq_vview_index(xs@, 0);
    }
    let (a0, k0) = keyed(&xs[0], &key)?;
    let mut acc_v = a0;
    let mut acc_k = k0;
    proof {
        assert(vs.drop_first() =~= vs.skip(1));
    }
    let mut i: usize = 1;
    while i < n
        invariant
            1 <= i <= n,
            extreme_fold(vs.drop_first(), key, keyed_spec(vs[0], key)->Some_0, invert)
                == extreme_fold(
                vs.skip(i as int),
                key,
                (vview(acc_v), vview(acc_k)),
                invert,
            ),
        decreases n - i,
    {
        proof {
            crate::value::lemma_seq_vview_index(xs@, i as int);
            assert(vs.skip(i as int)[0] == vs[i as int]);
            assert(vs.skip(i as int).drop_first() =~= vs.skip(i + 1));
        }
        let (pv, pk) = keyed(&xs[i], &key)?;
        let ck = value_clone(&acc_k);
        let ckp = value_clone(&pk);
        proof {
            crate::value::lemma_veq_views(acc_k, ck);
            crate::value::lemma_veq_views(pk, ckp);
        }
        let t = match crate::expr::run_binary_op(BinaryOp::Less, ckp, ck) {
            Ok(Value::Bool(t)) => t,
            Ok(other) => {
                return Err(
                    RuntimeError::TypeError {
                        expected: "a Bool from the comparison".to_owned(),
                        got: other.kind_name(),
                    },
                );
            },
            Err(e) => {
                return Err(e);
            },
        };
        let replace = if invert {
            !t
        } else {
            t
        };
        if replace {
            acc_v = pv;
            acc_k = pk;
        }
        i = i + 1;
    }
    proof {
        assert(vs.skip(n as int) =~= Seq::<VV>::empty());
    }
    Ok(acc_v)
}

/// The minimum of an iterable's values under the script's `<`, compared
/// by an optional key callable; null on empty input; incomparable keys
/// are an error. On equal keys the earlier value is kept.
pub fn min(iterable: &Value, key: Option<KFunction>) -> (r: Result<Value, RuntimeError>)
    ensures
        ({
            let pre = iterable_rem(*iterable);
            pre is Some && pre->Some_0.len() < EAGER_BUDGET && all_ok(pre->Some_0) ==> {
                let vs = outs_values(pre->Some_0);
                match r {
                    Ok(v) => if vs.len() == 0 {
                        vview(v) == VV::Null
                    } else {
                        match keyed_spec(vs[0], key) {
                            Some(p0) => match extreme_fold(vs.drop_first(), key, p0, false) {
                                Some(q) => vview(v) == q.0,
                                None => false,
                            },
                            None => false,
                        }
                    },
                    Err(_) => vs.len() > 0 && (keyed_spec(vs[0], key) is None || extreme_fold(
                        vs.drop_first(),
                        key,
                        keyed_spec(vs[0], key)->Some_0,
                        false,
                    ) is None),
                }
            }
        }),
{
    run_comparison(iterable, key, false)
}

/// The maximum of an iterable's values under the script's `<`, compared
/// by an optional key callable; null on empty input; incomparable keys
/// are an error. On equal keys the later value is taken.
pub fn max(iterable: &Value, key: Option<KFunction>) -> (r: Result<Value, RuntimeError>)
    ensures
        ({
            let pre = iterable_rem(*iterable);
            pre is Some && pre->Some_0.len() < EAGER_BUDGET && all_ok(pre->Some_0) ==> {
                let vs = outs_values(pre->Some_0);
                match r {
                    Ok(v) => if vs.len() == 0 {
                        vview(v) == VV::Null
                    } else {
                        match keyed_spec(vs[0], key) {
                            Some(p0) => match extreme_fold(vs.drop_first(), key, p0, true) {
                                Some(q) => vview(v) == q.0,
                                None => false,
                            },
                            None => false,
                        }
                    },
                    Err(_) => vs.len() > 0 && (keyed_spec(vs[0], key) is None || extreme_fold(
                        vs.drop_first(),
                        key,
                        keyed_spec(vs[0], key)->Some_0,
                        true,
                    ) is None),
                }
            }
        }),
{
    run_comparison(iterable, key, true)
}

/// Folding the minimum and the maximum together over the values, keyed
/// by an optional callable: each step compares the next value's key with
/// the current extremes' keys under the script's `<`. On equal keys the
/// minimum keeps the earlier element and the maximum takes the later
/// one. The result is the pair of extreme values; `None` is a key or
/// comparison failure.
pub open spec fn min_max_fold(
    vs: Seq<VV>,
    key: Option<KFunction>,
    lo: (VV, VV),
    hi: (VV, VV),
) -> Option<(VV, VV)>
    decreases vs.len(),
{
    if vs.len() == 0 {
        Some((lo.0, hi.0))
    } else {
        match keyed_spec(vs[0], key) {
            Some(p) => match (
                binop_spec(BinaryOp::Less, p.1, lo.1),
                binop_spec(BinaryOp::Less, p.1, hi.1),
            ) {
                (Some(VV::Bool(tl)), Some(VV::Bool(th))) => {
                    let lo2 = if tl {
                        p
                    } else {
                        lo
                    };
                    let hi2 = if th {
                        hi
                    } else {
                        p
                    };
                    min_max_fold(vs.drop_first(), key, lo2, hi2)
                },
                _ => None,
            },
            None => None,
        }
    }
}

/// The value paired with its comparison key: the value itself without a
/// key callable, else the callable's result on it.
pub open spec fn keyed_spec(v: VV, key: Option<KFunction>) -> Option<(VV, VV)> {
    match key {
        None => Some((v, v)),
        Some(f) => match call_spec(f, seq![v]) {
            Some(k) => Some((v, k)),
            None => None,
        },
    }
}

fn keyed(v: &Value, key: &Option<KFunction>) -> (r: Result<(Value, Value), RuntimeError>)
    ensures
        match r {
            Ok(p) => keyed_spec(vview(*v), *key) == Some((vview(p.0), vview(p.1))),
            Err(_) => keyed_spec(vview(*v), *key) is None,
        },
{
    let val = value_clone(v);
    proof {
        crate::value::lemma_veq_views(*v, val);
    }
    match key {
        None => {
            let val2 = value_clone(v);
            proof {
                crate::value::lemma_veq_views(*v, val2);
            }
            Ok((val, val2))
        },
        Some(f) => {
            let mut args: Vec<Value> = Vec::new();
            args.push(value_clone(v));
            proof {
                crate::value::lemma_veq_views(*v, args@[0]);
                assert(seq_vview(args@) =~= seq![vview(*v)]);
            }
            match crate::expr::run_function(f, &args) {
                Ok(k) => Ok((val, k)),
                Err(e) => Err(e),
            }
        },
    }
}

/// The minimum and maximum of an iterable's values as a two-element
/// tuple, compared by an optional key callable; null on empty input.
#[verifier::loop_isolation(false)]
pub fn min_max(iterable: &Value, key: Option<KFunction>) -> (r: Result<Value, RuntimeError>)
    ensures
        ({
            let pre = iterable_rem(*iterable);
            pre is Some && pre->Some_0.len() < EAGER_BUDGET && all_ok(pre->Some_0) ==> {
                let vs = outs_values(pre->Some_0);
                match r {
                    Ok(v) => if vs.len() == 0 {
                        vview(v) == VV::Null
                    } else {
                        match keyed_spec(vs[0], key) {
                            Some(p0) => match min_max_fold(vs.drop_first(), key, p0, p0) {
                                Some((lo, hi)) => vview(v) == VV::Tuple(seq![lo, hi]),
                                None => false,
                            },
                            None => false,
                        }
                    },
                    Err(_) => vs.len() > 0 && (keyed_spec(vs[0], key) is None || min_max_fold(
                        vs.drop_first(),
                        key,
                        keyed_spec(vs[0], key)->Some_0,
                        keyed_spec(vs[0], key)->Some_0,
                    ) is None),
                }
            }
        }),
{
    let mut it = make_iterator(iterable)?;
    let xs = collect_values(&mut it)?;
    let ghost vs = seq_vview(xs@);
    let n = xs.len();
    proof {
        crate::value::lemma_seq_vview_len(xs@);
    }
    if n == 0 {
        return Ok(Value::Null);
    }
    proof {
        crate::value::lemma_seq_vview_index(xs@, 0);
    }
    let (lo0, lo_k0) = keyed(&xs[0], &key)?;
    let (hi0, hi_k0) = keyed(&xs[0], &key)?;
    let mut lo_v = lo0;
    let mut lo_k = lo_k0;
    let mut hi_v = hi0;
    let mut hi_k = hi_k0;
    proof {
        assert(vs.drop_first() =~= vs.skip(1));
    }
    let mut i: usize = 1;
    while i < n
        invariant
            1 <= i <= n,
            min_max_fold(
                vs.drop_first(),
                key,
                keyed_spec(vs[0], key)->Some_0,
                keyed_spec(vs[0], key)->Some_0,
            ) == min_max_fold(
                vs.skip(i as int),
                key,
                (vview(lo_v), vview(lo_k)),
                (vview(hi_v), vview(hi_k)),
            ),
        decreases n - i,
    {
        proof {
            crate::value::lemma_seq_vview_index(xs@, i as int);
            assert(vs.skip(i as int)[0] == vs[i as int]);
            assert(vs.skip(i as int).drop_first() =~= vs.skip(i + 1));
        }
        let (pv, pk) = keyed(&xs[i], &key)?;
        let ck1 = value_clone(&lo_k);
        let ckp1 = value_clone(&pk);
        proof {
            crate::value::lemma_veq_views(lo_k, ck1);
            crate::value::lemma_veq_views(pk, ckp1);
        }
        let tl = match crate::expr::run_binary_op(BinaryOp::Less, ckp1, ck1) {
            Ok(Value::Bool(t)) => t,
            Ok(other) => {
                return Err(
                    RuntimeError::TypeError {
                        expected: "a Bool from the comparison".to_owned(),
                        got: other.kind_name(),
                    },
                );
            },
            Err(e) => {
                return Err(e);
            },
        };
        let ck2 = value_clone(&hi_k);
        let ckp2 = value_clone(&pk);
        proof {
            crate::value::lemma_veq_views(hi_k, ck2);
            crate::value::lemma_veq_views(pk, ckp2);
        }
        let th = match crate::expr::run_binary_op(BinaryOp::Less, ckp2, ck2) {
            Ok(Value::Bool(t)) => t,
            Ok(other) => {
                return Err(
                    RuntimeError::TypeError {
                        expected: "a Bool from the comparison".to_owned(),
                        got: other.kind_name(),
                    },
                );
            },
            Err(e) => {
                return Err(e);
            },
        };
        let pv2 = value_clone(&pv);
        let pk2 = value_clone(&pk);
        proof {
            crate::value::lemma_veq_views(pv, pv2);
            crate::value::lemma_veq_views(pk, pk2);
        }
        if tl {
            lo_v = pv;
            lo_k = pk;
        }
        if !th {
            hi_v = pv2;
            hi_k = pk2;
        }
        i = i + 1;
    }
    proof {
        assert(vs.skip(n as int) =~= Seq::<VV>::empty());
    }
    let mut out: Vec<Value> = Vec::new();
    out.push(lo_v);
    out.push(hi_v);
    proof {
        assert(seq_vview(out@) =~= seq![vview(out@[0]), vview(out@[1])]);
    }
    Ok(Value::Tuple(out))
}

/// A map built from outputs: key/value pairs insert under their key,
/// two-element tuples split into key and value, and bare values insert
/// under themselves with a null value; an existing key keeps its place
/// and takes the new value.
pub open spec fn to_map_insert(entries: Seq<(VV, VV)>, k: VV, v: VV) -> Seq<(VV, VV)>
    decreases entries.len(),
{
    if entries.len() == 0 {
        seq![(k, v)]
    } else if crate::expr::vv_script_eq(entries[0].0, k) {
        seq![(entries[0].0, v)] + entries.drop_first()
    } else {
        seq![entries[0]] + to_map_insert(entries.drop_first(), k, v)
    }
}

/// The key and value an output contributes to a map.
pub open spec fn to_map_entry(o: RemOut) -> (VV, VV) {
    match o {
        RemOut::Pair(k, v) => (k, v),
        RemOut::Val(v) => match v {
            VV::Tuple(items) => if items.len() == 2 {
                (items[0], items[1])
            } else {
                (v, VV::Null)
            },
            _ => (v, VV::Null),
        },
        RemOut::Fail => (VV::Null, VV::Null),
    }
}

/// The map entries an output sequence builds up.
pub open spec fn to_map_spec(s: Seq<RemOut>, acc: Seq<(VV, VV)>) -> Seq<(VV, VV)>
    decreases s.len(),
{
    if s.len() == 0 {
        acc
    } else {
        let e = to_map_entry(s[0]);
        to_map_spec(s.drop_first(), to_map_insert(acc, e.0, e.1))
    }
}

#[verifier::loop_isolation(false)]
fn map_upsert(entries: &mut Vec<KvPair>, k: Value, v: Value)
    ensures
        crate::value::pairs_vview(final(entries)@) == to_map_insert(
            crate::value::pairs_vview(old(entries)@),
            vview(k),
            vview(v),
        ),
{
    let n = entries.len();
    let ghost before = crate::value::pairs_vview(entries@);
    proof {
        assert(before.take(0) =~= Seq::<(VV, VV)>::empty());
        assert(before.skip(0) =~= before);
        assert(before.take(0) + to_map_insert(before.skip(0), vview(k), vview(v))
            =~= to_map_insert(before, vview(k), vview(v)));
    }
    let mut i: usize = 0;
    while i < n
        invariant
            n == entries@.len(),
            i <= n,
            before == crate::value::pairs_vview(entries@),
            forall|j: int|
                0 <= j < i ==> !crate::expr::vv_script_eq(
                    crate::value::pairs_vview(entries@)[j].0,
                    vview(k),
                ),
            to_map_insert(before, vview(k), vview(v)) == before.take(i as int) + to_map_insert(
                before.skip(i as int),
                vview(k),
                vview(v),
            ),
        decreases n - i,
    {
        proof {
            crate::value::lemma_pairs_vview_index(entries@, i as int);
            crate::expr::lemma_val_eq_is_view_eq(entries@[i as int].key, k);
        }
        if crate::value::value_eq(&entries[i].key, &k) {
            let old_key = value_clone(&entries[i].key);
            proof {
                crate::value::lemma_veq_views(entries@[i as int].key, old_key);
            }
            let ghost pre_set = entries@;
            let ghost vv2 = vview(v);
            entries.set(i, KvPair { key: old_key, value: v });
            proof {
                assert(before.skip(i as int)[0] == before[i as int]);
                assert(before.skip(i as int).drop_first() =~= before.skip(i + 1));
                assert forall|j: int| 0 <= j < entries@.len() implies crate::value::pairs_vview(
                    entries@,
                )[j] == (before.take(i as int) + (seq![(before[i as int].0, vv2)] + before.skip(
                    i + 1,
                )))[j] by {
                    crate::value::lemma_pairs_vview_index(entries@, j);
                }
                assert(crate::value::pairs_vview(entries@) =~= before.take(i as int) + (seq![
                    (before[i as int].0, vv2),
                ] + before.skip(i + 1)));
                assert(to_map_insert(before.skip(i as int), vview(k), vv2) =~= seq![
                    (before[i as int].0, vv2),
                ] + before.skip(i + 1));
            }
            return ;
        }
        proof {
            assert(before.skip(i as int)[0] == before[i as int]);
            assert(before.skip(i as int).drop_first() =~= before.skip(i + 1));
            assert(before.take(i + 1) =~= before.take(i as int).push(before[i as int]));
        }
        i = i + 1;
    }
    proof {
        assert(before.skip(n as int) =~= Seq::<(VV, VV)>::empty());
    }
    let ghost kv = vview(k);
    let ghost vv2 = vview(v);
    entries.push(KvPair { key: k, value: v });
    proof {
        assert forall|j: int| 0 <= j < entries@.len() implies crate::value::pairs_vview(
            entries@,
        )[j] == (before + seq![(kv, vv2)])[j] by {
            crate::value::lemma_pairs_vview_index(entries@, j);
        }
        assert(crate::value::pairs_vview(entries@) =~= before + seq![(kv, vv2)]);
        assert(before.take(n as int) =~= before);
        assert(to_map_insert(before.skip(n as int), kv, vv2) =~= seq![(kv, vv2)]);
    }
}

/// Materializes an iterable into a map value: key/value outputs and
/// two-element tuples insert as pairs, bare values insert under
/// themselves with a null value; a repeated key keeps its place and takes
/// the latest value.
#[verifier::loop_isolation(false)]
pub fn to_map(iterable: &Value) -> (r: Result<Value, RuntimeError>)
    ensures
        ({
            let pre = iterable_rem(*iterable);
            pre is Some && pre->Some_0.len() < EAGER_BUDGET ==> match r {
                Ok(v) => all_ok(pre->Some_0) && vview(v) == VV::MapVal(
                    to_map_spec(pre->Some_0, Seq::empty()),
                ),
                Err(_) => !all_ok(pre->Some_0),
            }
        }),
{
    let ghost pre = iterable_rem(*iterable);
    let mut it = make_iterator(iterable)?;
    let mut entries: Vec<KvPair> = Vec::new();
    let mut budget: u64 = EAGER_BUDGET;
    let ghost s0 = pre->Some_0;
    proof {
        if pre is Some {
            assert(s0.skip(0) =~= s0);
            assert(s0.take(0) =~= Seq::<RemOut>::empty());
            assert(all_ok(s0.take(0)));
            assert(crate::value::pairs_vview(entries@) =~= Seq::<(VV, VV)>::empty());
        }
    }
    loop
        invariant
            pre == iterable_rem(*iterable),
            s0 == pre->Some_0,
            pre is Some && s0.len() < EAGER_BUDGET ==> {
                &&& EAGER_BUDGET - s0.len() <= budget <= EAGER_BUDGET
                &&& iter_rem(it) is Some
                &&& iter_rem(it)->Some_0 == s0.skip(EAGER_BUDGET - budget)
                &&& all_ok(s0.take(EAGER_BUDGET - budget))
                &&& to_map_spec(s0, Seq::empty()) == to_map_spec(
                    s0.skip(EAGER_BUDGET - budget),
                    crate::value::pairs_vview(entries@),
                )
            },
        decreases budget,
    {
        if budget == 0 {
            return Err(
                RuntimeError::ValueError { message: "iteration budget exceeded".to_owned() },
            );
        }
        let ghost done = EAGER_BUDGET - budget;
        let pulled = it.next();
        budget = budget - 1;
        match pulled {
            None => {
                proof {
                    if pre is Some && s0.len() < EAGER_BUDGET {
                        assert(s0.take(done as int) =~= s0);
                    }
                }
                return Ok(Value::MapVal(entries));
            },
            Some(Output::Error(e)) => {
                proof {
                    if pre is Some && s0.len() < EAGER_BUDGET {
                        assert(s0[done as int] is Fail);
                    }
                }
                return Err(e);
            },
            Some(Output::ValuePair(k, v)) => {
                proof {
                    if pre is Some && s0.len() < EAGER_BUDGET {
                        assert(s0.skip(done as int).drop_first() =~= s0.skip(done + 1));
                        assert(s0.take(done + 1).drop_last() =~= s0.take(done as int));
                        assert(to_map_entry(s0[done as int]) == (vview(k), vview(v)));
                    }
                }
                map_upsert(&mut entries, k, v);
            },
            Some(Output::Value(v)) => {
                proof {
                    if pre is Some && s0.len() < EAGER_BUDGET {
                        assert(s0.skip(done as int).drop_first() =~= s0.skip(done + 1));
                        assert(s0.take(done + 1).drop_last() =~= s0.take(done as int));
                    }
                }
                let ghost ventry = to_map_entry(crate::iter::rem_out_of(Output::Value(v)));
                let split_pair: Option<(Value, Value)> = match v {
                    Value::Tuple(items) => {
                        if items.len() == 2 {
                            let ghost items0 = items@;
                            let mut items = items;
                            let b = match items.pop() {
                                Some(b) => b,
                                None => Value::Null,
                            };
                            let a = match items.pop() {
                                Some(a) => a,
                                None => Value::Null,
                            };
                            proof {
                                crate::value::lemma_seq_vview_index(items0, 0);
                                crate::value::lemma_seq_vview_index(items0, 1);
                                crate::value::lemma_seq_vview_len(items0);
                                assert(a == items0[0] && b == items0[1]);
                                assert(ventry == (vview(a), vview(b)));
                            }
                            Some((a, b))
                        } else {
                            proof {
                                crate::value::lemma_seq_vview_len(items@);
                            }
                            let v2 = Value::Tuple(items);
                            proof {
                                assert(ventry == (vview(v2), VV::Null));
                            }
                            map_upsert(&mut entries, v2, Value::Null);
                            None
                        }
                    },
                    other => {
                        proof {
                            assert(ventry == (vview(other), VV::Null));
                        }
                        map_upsert(&mut entries, other, Value::Null);
                        None
                    },
                };
                match split_pair {
                    Some((a, b)) => {
                        map_upsert(&mut entries, a, b);
                    },
                    None => {},
                }
            },
        }
    }
}

/// The concatenation of an iterable's string values; a value that is not
/// a string is a type error.
pub open spec fn to_string_spec(vs: Seq<VV>) -> Option<Seq<char>>
    decreases vs.len(),
{
    if vs.len() == 0 {
        Some(Seq::empty())
    } else {
        match vs[0] {
            VV::Str(s) => match to_string_spec(vs.drop_first()) {
                Some(rest) => Some(s + rest),
                None => None,
            },
            _ => None,
        }
    }
}

/// Materializes an iterable of strings into their concatenation.
#[verifier::loop_isolation(false)]
pub fn to_string(iterable: &Value) -> (r: Result<Value, RuntimeError>)
    ensures
        ({
            let pre = iterable_rem(*iterable);
            pre is Some && pre->Some_0.len() < EAGER_BUDGET && all_ok(pre->Some_0) ==> match r {
                Ok(v) => to_string_spec(outs_values(pre->Some_0)) == Some(vview(v)->Str_0)
                    && vview(v) is Str,
                Err(_) => to_string_spec(outs_values(pre->Some_0)) is None,
            }
        }),
{
    let mut it = make_iterator(iterable)?;
    let xs = collect_values(&mut it)?;
    let ghost vs = seq_vview(xs@);
    let n = xs.len();
    proof {
        crate::value::lemma_seq_vview_len(xs@);
    }
    let mut out = String::new();
    proof {
        assert(vs.skip(0) =~= vs);
        if to_string_spec(vs) is Some {
            assert(out@ + to_string_spec(vs)->Some_0 =~= to_string_spec(vs)->Some_0);
        }
    }
    let mut i: usize = 0;
    while i < n
        invariant
            n == xs.len(),
            vs == seq_vview(xs@),
            vs.len() == n,
            i <= n,
            to_string_spec(vs) == match to_string_spec(vs.skip(i as int)) {
                Some(rest) => Some(out@ + rest),
                None => None::<Seq<char>>,
            },
        decreases n - i,
    {
        proof {
            crate::value::lemma_seq_vview_index(xs@, i as int);
            assert(vs.skip(i as int)[0] == vs[i as int]);
            assert(vs.skip(i as int).drop_first() =~= vs.skip(i + 1));
        }
        match &xs[i] {
            Value::Str(s) => {
                let ghost out0 = out@;
                out.append(s.as_str());
                proof {
                    if to_string_spec(vs.skip(i + 1)) is Some {
                        assert(out0 + (vview(xs@[i as int])->Str_0 + to_string_spec(vs.skip(
                            i + 1,
                        ))->Some_0) =~= out@ + to_string_spec(vs.skip(i + 1))->Some_0);
                    }
                }
            },
            other => {
                return Err(
                    RuntimeError::TypeError {
                        expected: "strings to concatenate".to_owned(),
                        got: other.kind_name(),
                    },
                );
            },
        }
        i = i + 1;
    }
    proof {
        assert(vs.skip(n as int) =~= Seq::<VV>::empty());
        assert(out@ + Seq::<char>::empty() =~= out@);
    }
    Ok(Value::Str(out))
}


} // verus!
