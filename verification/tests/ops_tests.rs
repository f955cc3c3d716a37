//! The eager operations and generators on concrete inputs: materializing,
//! reducing, searching, comparing, and the module dispatcher's argument
//! checks.

use koto_core::error::RuntimeError;
use koto_core::expr::{BinaryOp, Expr, KFunction};
use koto_core::module::{call_iterator_op, make_iterator_module, IteratorOp};
use koto_core::ops;
use koto_core::value::{IntRange, KvPair, Value};

fn range_value(start: i64, end: i64, inclusive: bool) -> Value {
    Value::Range(IntRange { start, end, inclusive })
}

fn num(n: i64) -> Value {
    Value::Number(n)
}

fn sv(s: &str) -> Value {
    Value::Str(s.to_string())
}

fn nums(ns: &[i64]) -> Value {
    Value::List(ns.iter().map(|n| num(*n)).collect())
}

#[test]
fn chain_copy_mid_first() {
    // x = (10..12).chain 12..15
    // x.next(); y = copy x; x.next(); x.next(); y.next() -> 11
    let mut x = ops::chain(&range_value(10, 12, false), &range_value(12, 15, false)).unwrap();
    assert_eq!(ops::op_next(&mut x).unwrap(), num(10));
    let mut y = x.make_copy();
    assert_eq!(ops::op_next(&mut x).unwrap(), num(11));
    assert_eq!(ops::op_next(&mut x).unwrap(), num(12));
    assert_eq!(ops::op_next(&mut y).unwrap(), num(11));
}

#[test]
fn cycle_with_take() {
    // (1..=3).cycle().take(7).to_tuple() -> (1,2,3,1,2,3,1)
    let cycled = ops::cycle(&range_value(1, 3, true)).unwrap();
    let taken = ops::take(&Value::Iterator(Box::new(cycled)), 7).unwrap();
    let collected = ops::to_tuple(&Value::Iterator(Box::new(taken))).unwrap();
    assert_eq!(
        collected,
        Value::Tuple(vec![num(1), num(2), num(3), num(1), num(2), num(3), num(1)])
    );
}

#[test]
fn min_max_with_key() {
    // min_max over (-3, 1, -2, 4) with |x| x.abs() -> (1, 4)
    let abs = KFunction { arity: 1, body: Expr::Abs(Box::new(Expr::Arg(0))) };
    let source = Value::Tuple(vec![num(-3), num(1), num(-2), num(4)]);
    let r = ops::min_max(&source, Some(abs)).unwrap();
    assert_eq!(r, Value::Tuple(vec![num(1), num(4)]));
}

#[test]
fn min_max_without_key() {
    let source = Value::Tuple(vec![num(3), num(-1), num(2)]);
    let r = ops::min_max(&source, None).unwrap();
    assert_eq!(r, Value::Tuple(vec![num(-1), num(3)]));
    assert_eq!(ops::min_max(&Value::List(Vec::new()), None).unwrap(), Value::Null);
}

#[test]
fn min_and_max() {
    let source = nums(&[5, 2, 9, 2]);
    assert_eq!(ops::min(&source, None).unwrap(), num(2));
    assert_eq!(ops::max(&source, None).unwrap(), num(9));
    assert_eq!(ops::min(&Value::List(Vec::new()), None).unwrap(), Value::Null);
    // comparing incomparable values is an error, not a silent ordering
    let mixed = Value::List(vec![num(1), sv("two")]);
    assert!(ops::min(&mixed, None).is_err());
    // an optional key callable decides the comparison; on equal keys the
    // minimum keeps the earlier value and the maximum the later one
    let abs = || KFunction { arity: 1, body: Expr::Abs(Box::new(Expr::Arg(0))) };
    let keyed = Value::Tuple(vec![num(-3), num(1), num(3), num(-4)]);
    assert_eq!(ops::min(&keyed, Some(abs())).unwrap(), num(1));
    assert_eq!(ops::max(&keyed, Some(abs())).unwrap(), num(-4));
    assert_eq!(ops::min(&Value::Tuple(vec![num(-2), num(2)]), Some(abs())).unwrap(), num(-2));
    assert_eq!(ops::max(&Value::Tuple(vec![num(-2), num(2)]), Some(abs())).unwrap(), num(2));
    // the dispatcher passes the key through and rejects a non-callable
    let mut inst = Value::Tuple(vec![num(-3), num(1)]);
    assert_eq!(
        call_iterator_op(IteratorOp::Min, &mut inst, &vec![Value::Function(abs())]).unwrap(),
        num(1)
    );
    assert_eq!(
        call_iterator_op(IteratorOp::Max, &mut inst, &vec![Value::Function(abs())]).unwrap(),
        num(-3)
    );
    assert!(call_iterator_op(IteratorOp::Min, &mut inst, &vec![num(1)]).is_err());
}

#[test]
fn fold_equals_sum() {
    let add = KFunction {
        arity: 2,
        body: Expr::Binary(BinaryOp::Add, Box::new(Expr::Arg(0)), Box::new(Expr::Arg(1))),
    };
    let source = nums(&[1, 2, 3, 4]);
    let folded = ops::fold(&source, num(0), &add).unwrap();
    let summed = ops::sum(&source, None).unwrap();
    assert_eq!(folded, num(10));
    assert_eq!(folded, summed);
}

#[test]
fn sum_and_product_values() {
    assert_eq!(ops::sum(&nums(&[1, 2, 3]), None).unwrap(), num(6));
    assert_eq!(ops::sum(&nums(&[1, 2, 3]), Some(num(10))).unwrap(), num(16));
    assert_eq!(ops::product(&nums(&[2, 3, 4]), None).unwrap(), num(24));
    assert_eq!(ops::product(&Value::List(Vec::new()), None).unwrap(), num(1));
}

#[test]
fn count_and_last() {
    assert_eq!(ops::count(&range_value(0, 10, false)).unwrap(), num(10));
    assert_eq!(ops::last(&nums(&[7, 8, 9])).unwrap(), num(9));
    assert_eq!(ops::last(&Value::List(Vec::new())).unwrap(), Value::Null);
    assert_eq!(ops::consume(&nums(&[1, 2])).unwrap(), Value::Null);
}

#[test]
fn all_any_find_position() {
    let positive = KFunction {
        arity: 1,
        body: Expr::Binary(
            BinaryOp::Greater,
            Box::new(Expr::Arg(0)),
            Box::new(Expr::LitInt(0)),
        ),
    };
    assert_eq!(ops::all(&nums(&[1, 2, 3]), &positive).unwrap(), Value::Bool(true));
    assert_eq!(ops::all(&nums(&[1, -2, 3]), &positive).unwrap(), Value::Bool(false));
    assert_eq!(ops::any(&nums(&[-1, -2, 3]), &positive).unwrap(), Value::Bool(true));
    assert_eq!(ops::any(&nums(&[-1, -2]), &positive).unwrap(), Value::Bool(false));
    assert_eq!(ops::find(&nums(&[-1, 5, 7]), &positive).unwrap(), num(5));
    assert_eq!(ops::find(&nums(&[-1, -5]), &positive).unwrap(), Value::Null);
    assert_eq!(ops::position(&nums(&[-1, 5, 7]), &positive).unwrap(), num(1));
    assert_eq!(ops::position(&nums(&[-1, -5]), &positive).unwrap(), Value::Null);
    // a non-boolean predicate result is a type error
    let identity = KFunction { arity: 1, body: Expr::Arg(0) };
    assert!(ops::all(&nums(&[1]), &identity).is_err());
}

#[test]
fn windows_and_chunks() {
    // windows(x, n) produces |x| - n + 1 items of length n
    let source = nums(&[1, 2, 3, 4, 5]);
    let w = ops::windows(&source, 3).unwrap();
    let collected = ops::to_list(&Value::Iterator(Box::new(w))).unwrap();
    assert_eq!(
        collected,
        Value::List(vec![
            Value::Tuple(vec![num(1), num(2), num(3)]),
            Value::Tuple(vec![num(2), num(3), num(4)]),
            Value::Tuple(vec![num(3), num(4), num(5)]),
        ])
    );
    // chunks(x, n) tiles x, the last chunk possibly shorter
    let c = ops::chunks(&source, 2).unwrap();
    let collected = ops::to_list(&Value::Iterator(Box::new(c))).unwrap();
    assert_eq!(
        collected,
        Value::List(vec![
            Value::Tuple(vec![num(1), num(2)]),
            Value::Tuple(vec![num(3), num(4)]),
            Value::Tuple(vec![num(5)]),
        ])
    );
    // a zero size is a construction error
    assert!(ops::chunks(&source, 0).is_err());
    assert!(ops::windows(&source, 0).is_err());
}

#[test]
fn reversed_and_next_back() {
    let r = ops::reversed(&nums(&[1, 2, 3])).unwrap();
    let collected = ops::to_list(&Value::Iterator(Box::new(r))).unwrap();
    assert_eq!(collected, Value::List(vec![num(3), num(2), num(1)]));
    let mut it = koto_core::iter::make_iterator(&range_value(1, 4, false)).unwrap();
    assert_eq!(ops::op_next_back(&mut it).unwrap(), num(3));
    assert_eq!(ops::op_next(&mut it).unwrap(), num(1));
    assert_eq!(ops::op_next_back(&mut it).unwrap(), num(2));
    assert_eq!(ops::op_next(&mut it).unwrap(), Value::Null);
    // an adaptor without backward iteration cannot be reversed
    let chained = ops::chain(&nums(&[1]), &nums(&[2])).unwrap();
    assert!(ops::reversed(&Value::Iterator(Box::new(chained))).is_err());
}

#[test]
fn flatten_one_level() {
    let nested = Value::List(vec![nums(&[1, 2]), num(3), nums(&[4])]);
    let f = ops::flatten(&nested).unwrap();
    let collected = ops::to_list(&Value::Iterator(Box::new(f))).unwrap();
    assert_eq!(collected, Value::List(vec![num(1), num(2), num(3), num(4)]));
}

#[test]
fn flatten_substitutes_iterator_handles() {
    // an existing iterator is iterable: its elements replace the handle
    let taken = ops::take(&range_value(10, 20, false), 2).unwrap();
    let nested = Value::List(vec![Value::Iterator(Box::new(taken)), num(7)]);
    let f = ops::flatten(&nested).unwrap();
    let collected = ops::to_list(&Value::Iterator(Box::new(f))).unwrap();
    assert_eq!(collected, Value::List(vec![num(10), num(11), num(7)]));
    // a handle over a lazy adaptor works too, one flattening level deep
    let cycled = ops::cycle(&nums(&[5])).unwrap();
    let short = ops::take(&Value::Iterator(Box::new(cycled)), 3).unwrap();
    let nested = Value::List(vec![Value::Iterator(Box::new(short))]);
    let f = ops::flatten(&nested).unwrap();
    let collected = ops::to_list(&Value::Iterator(Box::new(f))).unwrap();
    assert_eq!(collected, Value::List(vec![num(5), num(5), num(5)]));
}

#[test]
fn repeat_and_generate() {
    let r = ops::repeat_n(num(7), 3);
    let collected = ops::to_tuple(&Value::Iterator(Box::new(r))).unwrap();
    assert_eq!(collected, Value::Tuple(vec![num(7), num(7), num(7)]));
    let forty_two = KFunction { arity: 0, body: Expr::LitInt(42) };
    let g = ops::generate_n(2, forty_two);
    let collected = ops::to_tuple(&Value::Iterator(Box::new(g))).unwrap();
    assert_eq!(collected, Value::Tuple(vec![num(42), num(42)]));
    let mut unbounded = ops::repeat(num(1));
    assert_eq!(ops::op_next(&mut unbounded).unwrap(), num(1));
    assert_eq!(ops::op_next(&mut unbounded).unwrap(), num(1));
}

#[test]
fn to_map_semantics() {
    // pairs insert, a repeated key keeps its place and takes the latest
    // value, and a bare value maps to null
    let source = Value::List(vec![
        Value::Tuple(vec![sv("a"), num(1)]),
        Value::Tuple(vec![sv("b"), num(2)]),
        Value::Tuple(vec![sv("a"), num(3)]),
        sv("c"),
    ]);
    let m = ops::to_map(&source).unwrap();
    assert_eq!(
        m,
        Value::MapVal(vec![
            KvPair { key: sv("a"), value: num(3) },
            KvPair { key: sv("b"), value: num(2) },
            KvPair { key: sv("c"), value: Value::Null },
        ])
    );
}

#[test]
fn to_string_concatenates() {
    let source = Value::List(vec![sv("ab"), sv(""), sv("cd")]);
    assert_eq!(ops::to_string(&source).unwrap(), sv("abcd"));
    assert!(ops::to_string(&nums(&[1])).is_err());
}

#[test]
fn non_iterable_is_type_error() {
    match ops::to_list(&num(5)) {
        Err(RuntimeError::TypeError { .. }) => {},
        other => panic!("expected a type error, got {:?}", other),
    }
}

#[test]
fn dispatcher_checks_arity_and_types() {
    let module = make_iterator_module();
    assert!(module.iter().any(|(name, _)| name == "min_max"));
    assert!(module.iter().any(|(name, _)| name == "to_tuple"));
    let mut instance = nums(&[1, 2, 3]);
    let r = call_iterator_op(IteratorOp::ToTuple, &mut instance, &Vec::new()).unwrap();
    assert_eq!(r, Value::Tuple(vec![num(1), num(2), num(3)]));
    match call_iterator_op(IteratorOp::ToTuple, &mut instance, &vec![num(1)]) {
        Err(RuntimeError::ArityError { .. }) => {},
        other => panic!("expected an arity error, got {:?}", other),
    }
    match call_iterator_op(IteratorOp::Take, &mut instance, &vec![sv("x")]) {
        Err(RuntimeError::TypeError { .. }) => {},
        other => panic!("expected a type error, got {:?}", other),
    }
    let mut it_instance = nums(&[4, 5]);
    assert_eq!(
        call_iterator_op(IteratorOp::NextOp, &mut it_instance, &Vec::new()).unwrap(),
        num(4)
    );
}

#[test]
fn each_error_is_prefixed() {
    // mapping a non-number with an arithmetic callable surfaces a
    // prefixed callback error output
    let square = KFunction {
        arity: 1,
        body: Expr::Binary(
            BinaryOp::Multiply,
            Box::new(Expr::Arg(0)),
            Box::new(Expr::Arg(0)),
        ),
    };
    let source = Value::List(vec![sv("oops")]);
    let mut it = ops::each(&source, square).unwrap();
    match ops::op_next(&mut it) {
        Err(RuntimeError::CallbackError { prefix, .. }) => {
            assert_eq!(prefix, "iterator.each".to_string());
        },
        other => panic!("expected a callback error, got {:?}", other),
    }
}

#[test]
fn descending_range_iterates_downward() {
    let collected = ops::to_list(&range_value(10, 7, false)).unwrap();
    assert_eq!(collected, Value::List(vec![num(10), num(9), num(8)]));
}

#[test]
fn enumerate_seconds_recover_source() {
    // enumerate(x).map(snd) == x positionally
    let source = nums(&[5, 6, 7]);
    let e = ops::enumerate(&source).unwrap();
    let pairs = ops::to_list(&Value::Iterator(Box::new(e))).unwrap();
    match pairs {
        Value::List(items) => {
            let seconds: Vec<Value> = items
                .into_iter()
                .map(|p| match p {
                    Value::Tuple(mut kv) => kv.pop().unwrap(),
                    other => other,
                })
                .collect();
            assert_eq!(Value::List(seconds), source);
        },
        other => panic!("expected a list, got {:?}", other),
    }
}

#[test]
fn zip_stops_at_shorter() {
    let z = ops::zip(&nums(&[1, 2, 3]), &nums(&[10, 20])).unwrap();
    let collected = ops::to_list(&Value::Iterator(Box::new(z))).unwrap();
    assert_eq!(
        collected,
        Value::List(vec![
            Value::Tuple(vec![num(1), num(10)]),
            Value::Tuple(vec![num(2), num(20)]),
        ])
    );
}

#[test]
fn chain_concatenates_lists() {
    // to_list(chain(a, b)) == to_list(a) ++ to_list(b)
    let a = nums(&[1, 2]);
    let b = nums(&[3]);
    let chained = ops::chain(&a, &b).unwrap();
    let left = ops::to_list(&Value::Iterator(Box::new(chained))).unwrap();
    assert_eq!(left, Value::List(vec![num(1), num(2), num(3)]));
}

#[test]
fn min_max_tie_breaking() {
    // equal keys: the earlier element wins the minimum, the later the
    // maximum
    let abs = KFunction { arity: 1, body: Expr::Abs(Box::new(Expr::Arg(0))) };
    let source = Value::Tuple(vec![num(-1), num(1)]);
    let r = ops::min_max(&source, Some(abs)).unwrap();
    assert_eq!(r, Value::Tuple(vec![num(-1), num(1)]));
}

#[test]
fn any_short_circuits_over_unbounded_source() {
    // the first accepted value decides; the cycle's endlessness is never
    // reached
    let positive = KFunction {
        arity: 1,
        body: Expr::Binary(
            BinaryOp::Greater,
            Box::new(Expr::Arg(0)),
            Box::new(Expr::LitInt(0)),
        ),
    };
    let cycled = ops::cycle(&nums(&[1, 2, 3])).unwrap();
    let unbounded = Value::Iterator(Box::new(cycled));
    assert_eq!(ops::any(&unbounded, &positive).unwrap(), Value::Bool(true));
}

#[test]
fn find_stops_before_later_failure() {
    // the match ends the iteration, so a callback failure past it never
    // surfaces
    let positive = KFunction {
        arity: 1,
        body: Expr::Binary(
            BinaryOp::Greater,
            Box::new(Expr::Arg(0)),
            Box::new(Expr::LitInt(0)),
        ),
    };
    let square = || KFunction {
        arity: 1,
        body: Expr::Binary(
            BinaryOp::Multiply,
            Box::new(Expr::Arg(0)),
            Box::new(Expr::Arg(0)),
        ),
    };
    // squaring "oops" would fail, but the match at 7 comes first
    let eached = ops::each(&Value::List(vec![num(7), sv("oops")]), square()).unwrap();
    let it_value = Value::Iterator(Box::new(eached));
    assert_eq!(ops::find(&it_value, &positive).unwrap(), num(49));
    assert_eq!(ops::any(&it_value, &positive).unwrap(), Value::Bool(true));
    // but an error output before any match is the failure
    let eached_bad = ops::each(&Value::List(vec![sv("oops"), num(7)]), square()).unwrap();
    let bad_value = Value::Iterator(Box::new(eached_bad));
    assert!(ops::find(&bad_value, &positive).is_err());
}

#[test]
fn peek_does_not_consume() {
    let mut it = ops::peekable(&nums(&[4, 5])).unwrap();
    assert_eq!(it.peek().map(|o| format!("{:?}", o)), it.peek().map(|o| format!("{:?}", o)));
    assert_eq!(ops::op_next(&mut it).unwrap(), num(4));
    assert_eq!(ops::op_next(&mut it).unwrap(), num(5));
    assert_eq!(ops::op_next(&mut it).unwrap(), Value::Null);
    assert!(it.peek().is_none());
    // peeking is the peekable adaptor's operation only
    let mut plain = koto_core::iter::make_iterator(&nums(&[1])).unwrap();
    assert!(plain.peek().is_none());
    assert_eq!(ops::op_next(&mut plain).unwrap(), num(1));
}

#[test]
fn module_installs_every_operation() {
    let module = make_iterator_module();
    assert_eq!(module.len(), 36);
    for name in ["iter", "peekable", "repeat", "generate", "min_max", "to_tuple"] {
        assert!(module.iter().any(|(n, _)| n == name), "missing {}", name);
    }
    // the generators dispatch from their arguments
    let mut unused = Value::Null;
    let forty_two = Value::Function(KFunction { arity: 0, body: Expr::LitInt(42) });
    let r = call_iterator_op(IteratorOp::Generate, &mut unused, &vec![num(2), forty_two]).unwrap();
    let collected = ops::to_tuple(&r).unwrap();
    assert_eq!(collected, Value::Tuple(vec![num(42), num(42)]));
    let r = call_iterator_op(IteratorOp::Repeat, &mut unused, &vec![num(9), num(3)]).unwrap();
    let collected = ops::to_tuple(&r).unwrap();
    assert_eq!(collected, Value::Tuple(vec![num(9), num(9), num(9)]));
    let mut inst = nums(&[1, 2]);
    let r = call_iterator_op(IteratorOp::Iter, &mut inst, &Vec::new()).unwrap();
    assert_eq!(ops::to_list(&r).unwrap(), Value::List(vec![num(1), num(2)]));
    let r = call_iterator_op(IteratorOp::Peekable, &mut inst, &Vec::new()).unwrap();
    assert_eq!(ops::to_list(&r).unwrap(), Value::List(vec![num(1), num(2)]));
}
