//! The iterator subsystem's algebraic laws, proved over the same
//! denotations the operations' contracts are stated with: the remaining
//! output sequences of [`crate::iter::iter_rem`] and the collected values
//! of [`crate::ops::outs_values`].

use vstd::prelude::*;

use crate::expr::{binop_spec, eval_spec, BinaryOp, Expr, KFunction};
use crate::iter::{
    chunk_outs, cycle_outs, iter_rem, no_failures, rem_collapse, rem_val, window_outs, zip_outs,
    KIterator, RemOut,
};
use crate::ops::{all_ok, fold_spec, outs_values, reduce_spec};
use crate::value::VV;

verus! {

/// Chaining concatenates: the remaining outputs of a chain are the first
/// source's followed by the second's, so materializing a chain yields the
/// two materializations appended — and the chain is error-free exactly
/// when both sources are.
pub proof fn law_chain_concatenation(sa: Seq<RemOut>, sb: Seq<RemOut>)
    ensures
        all_ok(sa + sb) == (all_ok(sa) && all_ok(sb)),
        outs_values(sa + sb) == outs_values(sa) + outs_values(sb),
{
    assert forall|i: int| 0 <= i < sa.len() implies (sa + sb)[i] == sa[i] by {}
    assert forall|i: int| 0 <= i < sb.len() implies (sa + sb)[sa.len() + i] == sb[i] by {}
    if all_ok(sa) && all_ok(sb) {
        assert forall|i: int| 0 <= i < (sa + sb).len() implies !((#[trigger] (sa + sb)[i])
            is Fail) by {
            if i < sa.len() {
                assert((sa + sb)[i] == sa[i]);
            } else {
                assert((sa + sb)[i] == sb[i - sa.len()]);
            }
        }
    }
    assert(outs_values(sa + sb) =~= outs_values(sa) + outs_values(sb));
}

/// Enumerating pairs a running index with the source's values: the
/// enumerated outputs are key/value pairs whose keys count up from the
/// start index and whose values are, position by position, exactly the
/// source's collapsed values.
pub proof fn law_enumerate_pairs_source(inner: KIterator, index: usize)
    requires
        iter_rem(inner) is Some,
        all_ok(iter_rem(inner)->Some_0),
        index + iter_rem(inner)->Some_0.len() <= i64::MAX,
        index + iter_rem(inner)->Some_0.len() <= usize::MAX,
    ensures
        ({
            let s = iter_rem(inner)->Some_0;
            let e = iter_rem(KIterator::Enumerate { inner: Box::new(inner), index });
            &&& e is Some
            &&& e->Some_0.len() == s.len()
            &&& forall|i: int|
                0 <= i < s.len() ==> (#[trigger] e->Some_0[i]) == RemOut::Pair(
                    VV::Int(index + i),
                    outs_values(s)[i],
                )
        }),
{
    let s = iter_rem(inner)->Some_0;
    let e = iter_rem(KIterator::Enumerate { inner: Box::new(inner), index });
    assert forall|i: int| 0 <= i < s.len() implies (#[trigger] e->Some_0[i]) == RemOut::Pair(
        VV::Int(index + i),
        outs_values(s)[i],
    ) by {
        assert(!(s[i] is Fail));
        assert(rem_collapse(s[i]) is Val);
    }
}

/// Zipping ends with the shorter side: over error-free sources, the
/// zipped output sequence's length is the smaller of the two sources'
/// lengths.
pub proof fn law_zip_length_is_minimum(a: Seq<RemOut>, b: Seq<RemOut>)
    requires
        all_ok(a),
        all_ok(b),
    ensures
        zip_outs(a, b).len() == if a.len() <= b.len() {
            a.len()
        } else {
            b.len()
        },
    decreases a.len(),
{
    if a.len() == 0 {
    } else if b.len() == 0 {
    } else {
        assert(!(a[0] is Fail) && !(b[0] is Fail));
        assert forall|i: int| 0 <= i < a.drop_first().len() implies !((#[trigger] a.drop_first()[i])
            is Fail) by {
            assert(a.drop_first()[i] == a[i + 1]);
        }
        assert forall|i: int| 0 <= i < b.drop_first().len() implies !((#[trigger] b.drop_first()[i])
            is Fail) by {
            assert(b.drop_first()[i] == b[i + 1]);
        }
        law_zip_length_is_minimum(a.drop_first(), b.drop_first());
    }
}

/// Sliding windows: over `m` values with width `n > 0`, there are
/// `max(0, m - n + 1)` windows and each is a tuple of exactly `n`
/// consecutive values.
pub proof fn law_windows_count_and_width(v: Seq<VV>, n: int)
    requires
        n > 0,
    ensures
        window_outs(v, n).len() == if v.len() < n {
            0int
        } else {
            v.len() - n + 1
        },
        forall|i: int|
            0 <= i < window_outs(v, n).len() ==> (#[trigger] window_outs(v, n)[i]) == RemOut::Val(
                VV::Tuple(v.subrange(i, i + n)),
            ) && v.subrange(i, i + n).len() == n,
{
}

/// The concatenation of a sequence of value groups.
pub open spec fn concat_groups(gs: Seq<RemOut>) -> Seq<VV>
    decreases gs.len(),
{
    if gs.len() == 0 {
        Seq::empty()
    } else {
        (match gs[0] {
            RemOut::Val(VV::Tuple(items)) => items,
            _ => Seq::empty(),
        }) + concat_groups(gs.drop_first())
    }
}

/// Chunking tiles the source: concatenating the chunks recovers exactly
/// the source values, and every chunk but possibly the last has the full
/// chunk size.
pub proof fn law_chunks_tile_source(v: Seq<VV>, n: int)
    requires
        n > 0,
    ensures
        concat_groups(chunk_outs(v, n)) == v,
        forall|i: int|
            0 <= i < chunk_outs(v, n).len() - 1 ==> ((#[trigger] chunk_outs(v, n)[i])
                matches RemOut::Val(VV::Tuple(items)) && items.len() == n),
    decreases v.len(),
{
    if v.len() == 0 {
        assert(concat_groups(chunk_outs(v, n)) =~= v);
    } else if v.len() <= n {
        reveal_with_fuel(concat_groups, 3);
        assert(chunk_outs(v, n) == seq![RemOut::Val(VV::Tuple(v))]);
        assert(chunk_outs(v, n).drop_first() =~= Seq::<RemOut>::empty());
        assert(concat_groups(chunk_outs(v, n).drop_first()) =~= Seq::<VV>::empty());
        assert(concat_groups(chunk_outs(v, n)) =~= v);
    } else {
        law_chunks_tile_source(v.skip(n), n);
        let c = chunk_outs(v, n);
        assert(c == seq![RemOut::Val(VV::Tuple(v.take(n)))] + chunk_outs(v.skip(n), n));
        assert(c.drop_first() =~= chunk_outs(v.skip(n), n));
        assert(concat_groups(c) =~= v.take(n) + concat_groups(chunk_outs(v.skip(n), n)));
        assert(v.take(n) + v.skip(n) =~= v);
        assert forall|i: int| 0 <= i < c.len() - 1 implies ((#[trigger] c[i])
            matches RemOut::Val(VV::Tuple(items)) && items.len() == n) by {
            if i > 0 {
                assert(c[i] == chunk_outs(v.skip(n), n)[i - 1]);
            } else {
                assert(v.take(n).len() == n);
            }
        }
    }
}

/// The callable that adds its two arguments.
pub open spec fn adding_callable() -> KFunction {
    KFunction {
        arity: 2,
        body: Expr::Binary(
            BinaryOp::Add,
            Box::new(Expr::Arg(0)),
            Box::new(Expr::Arg(1)),
        ),
    }
}

/// Folding with the adding callable is summation: over any values and
/// initial accumulator, folding with a two-argument callable that adds
/// its arguments yields exactly what the sum reduction yields.
pub proof fn law_fold_add_is_sum(vs: Seq<VV>, init: VV)
    ensures
        fold_spec(vs, init, adding_callable()) == reduce_spec(vs, init, BinaryOp::Add),
    decreases vs.len(),
{
    if vs.len() > 0 {
        reveal_with_fuel(eval_spec, 3);
        let args = seq![init, vs[0]];
        assert(eval_spec(adding_callable().body, args) == binop_spec(
            BinaryOp::Add,
            init,
            vs[0],
        ));
        match binop_spec(BinaryOp::Add, init, vs[0]) {
            Some(acc) => {
                law_fold_add_is_sum(vs.drop_first(), acc);
            },
            None => {},
        }
    }
}

/// The collapsed values an output sequence carries, position by
/// position.
pub open spec fn out_vals(s: Seq<RemOut>) -> Seq<VV> {
    Seq::new(s.len(), |i: int| rem_val(rem_collapse(s[i])))
}

/// An exhausted cycling replays its buffer forever: the next `k` outputs
/// read the buffered values cyclically from the cursor on.
pub proof fn law_cycle_replay(src: Seq<RemOut>, buf: Seq<VV>, c: int, k: nat)
    requires
        buf.len() > 0,
        0 <= c < buf.len(),
    ensures
        cycle_outs(src, buf, c, true, k).len() == k,
        forall|i: int|
            0 <= i < k ==> #[trigger] cycle_outs(src, buf, c, true, k)[i] == RemOut::Val(
                buf[(c + i) % (buf.len() as int)],
            ),
    decreases k,
{
    let l = buf.len() as int;
    if k > 0 {
        let c2 = if c + 1 < l {
            c + 1
        } else {
            0
        };
        assert(c2 == (c + 1) % l) by {
            if c + 1 < l {
                vstd::arithmetic::div_mod::lemma_small_mod((c + 1) as nat, l as nat);
            } else {
                vstd::arithmetic::div_mod::lemma_mod_self_0(l);
            }
        }
        law_cycle_replay(src, buf, c2, (k - 1) as nat);
        let outs = cycle_outs(src, buf, c, true, k);
        let tail = cycle_outs(src, buf, c2, true, (k - 1) as nat);
        assert forall|i: int| 0 <= i < k implies outs[i] == RemOut::Val(buf[(c + i) % l]) by {
            if i == 0 {
                vstd::arithmetic::div_mod::lemma_small_mod(c as nat, l as nat);
            } else {
                assert(outs[i] == tail[i - 1]);
                assert(tail[i - 1] == RemOut::Val(buf[(c2 + (i - 1)) % l]));
                vstd::arithmetic::div_mod::lemma_add_mod_noop_right(i - 1, c + 1, l);
                assert((i - 1 + (c + 1) % l) % l == (i - 1 + (c + 1)) % l);
            }
        }
    }
}

/// A cycling replays its source indefinitely: from a buffering state
/// whose buffer holds the values already consumed, the next `k` outputs
/// walk the combined values — the buffered prefix followed by the
/// source's collapsed values — cyclically, starting right after the
/// buffered prefix. An error-free source is required; the combined
/// values must not be empty.
pub proof fn law_cycle_take_replays(src: Seq<RemOut>, buf: Seq<VV>, k: nat)
    requires
        no_failures(src),
        buf.len() + src.len() > 0,
    ensures
        cycle_outs(src, buf, 0, false, k).len() == k,
        forall|i: int|
            0 <= i < k ==> #[trigger] cycle_outs(src, buf, 0, false, k)[i] == RemOut::Val(
                (buf + out_vals(src))[(buf.len() + i) % ((buf.len() + src.len()) as int)],
            ),
    decreases k, src.len(),
{
    let all = buf + out_vals(src);
    let n = (buf.len() + src.len()) as int;
    let outs = cycle_outs(src, buf, 0, false, k);
    if k > 0 {
        if src.len() == 0 {
            assert(outs == cycle_outs(src, buf, 0, true, k));
            law_cycle_replay(src, buf, 0, k);
            assert(all =~= buf);
            assert forall|i: int| 0 <= i < k implies outs[i] == RemOut::Val(
                all[(buf.len() + i) % n],
            ) by {
                vstd::arithmetic::div_mod::lemma_mod_multiples_vanish(1, i, n);
                assert((n + i) % n == i % n);
            }
        } else {
            let w = rem_val(rem_collapse(src[0]));
            assert(!(src[0] is Fail));
            assert(rem_collapse(src[0]) is Val);
            law_cycle_take_replays(src.drop_first(), buf.push(w), (k - 1) as nat);
            let all2 = buf.push(w) + out_vals(src.drop_first());
            assert(all2 =~= all) by {
                assert forall|j: int| 0 <= j < src.len() - 1 implies out_vals(
                    src.drop_first(),
                )[j] == out_vals(src)[j + 1] by {
                    assert(src.drop_first()[j] == src[j + 1]);
                }
            }
            let tail = cycle_outs(src.drop_first(), buf.push(w), 0, false, (k - 1) as nat);
            assert forall|i: int| 0 <= i < k implies outs[i] == RemOut::Val(
                all[(buf.len() + i) % n],
            ) by {
                if i == 0 {
                    assert(outs[0] == RemOut::Val(w));
                    assert(all[buf.len() as int] == w);
                    vstd::arithmetic::div_mod::lemma_small_mod(buf.len(), n as nat);
                } else {
                    assert(outs[i] == tail[i - 1]);
                    assert(tail[i - 1] == RemOut::Val(all2[(buf.push(w).len() + (i - 1)) % n]));
                    assert(buf.push(w).len() + (i - 1) == buf.len() + i);
                }
            }
        }
    }
}


} // verus!
