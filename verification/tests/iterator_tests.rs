//! The iterator subsystem's copy-independence behaviour: advancing an
//! independent copy never disturbs the original, for every adaptor and
//! string iterator.

use koto_core::expr::{BinaryOp, Expr, KFunction};
use koto_core::iter::KIterator;
use koto_core::ops;
use koto_core::strings;
use koto_core::value::{IntRange, KvPair, Value};

fn range_value(start: i64, end: i64, inclusive: bool) -> Value {
    Value::Range(IntRange { start, end, inclusive })
}

fn num(n: i64) -> Value {
    Value::Number(n)
}

fn sv(s: &str) -> Value {
    Value::Str(s.to_string())
}

fn next_value(it: &mut KIterator) -> Value {
    ops::op_next(it).expect("iteration failed")
}

#[test]
fn make_copy_in_first_iter() {
    // x = (10..12).chain 12..15
    let mut x = ops::chain(&range_value(10, 12, false), &range_value(12, 15, false)).unwrap();
    assert_eq!(next_value(&mut x), num(10));
    let mut y = x.make_copy();
    assert_eq!(next_value(&mut x), num(11));
    assert_eq!(next_value(&mut x), num(12));
    assert_eq!(next_value(&mut y), num(11));
}

#[test]
fn make_copy_in_second_iter() {
    // x = (0..2).chain 2..5
    let mut x = ops::chain(&range_value(0, 2, false), &range_value(2, 5, false)).unwrap();
    assert_eq!(next_value(&mut x), num(0));
    assert_eq!(next_value(&mut x), num(1));
    assert_eq!(next_value(&mut x), num(2));
    let mut y = x.make_copy();
    assert_eq!(next_value(&mut x), num(3));
    assert_eq!(next_value(&mut x), num(4));
    assert_eq!(next_value(&mut y), num(3));
}

#[test]
fn iterator_tests_make_copy() {
    // x = (1..=3).cycle()
    let mut x = ops::cycle(&range_value(1, 3, true)).unwrap();
    assert_eq!(next_value(&mut x), num(1));
    let mut y = x.make_copy();
    assert_eq!(next_value(&mut x), num(2));
    assert_eq!(next_value(&mut x), num(3));
    assert_eq!(next_value(&mut y), num(2));
}

#[test]
fn each_make_copy() {
    // x = (3, 4, 5, 6).each |x| x * x
    let square = KFunction {
        arity: 1,
        body: Expr::Binary(
            BinaryOp::Multiply,
            Box::new(Expr::Arg(0)),
            Box::new(Expr::Arg(0)),
        ),
    };
    let source = Value::Tuple(vec![num(3), num(4), num(5), num(6)]);
    let mut x = ops::each(&source, square).unwrap();
    assert_eq!(next_value(&mut x), num(9));
    let mut y = x.make_copy();
    assert_eq!(next_value(&mut x), num(16));
    assert_eq!(next_value(&mut x), num(25));
    assert_eq!(next_value(&mut y), num(16));
}

#[test]
fn enumerate_make_copy() {
    // x = (10..20).enumerate()
    let mut x = ops::enumerate(&range_value(10, 20, false)).unwrap();
    assert_eq!(next_value(&mut x), Value::Tuple(vec![num(0), num(10)]));
    let mut y = x.make_copy();
    assert_eq!(next_value(&mut x), Value::Tuple(vec![num(1), num(11)]));
    assert_eq!(next_value(&mut x), Value::Tuple(vec![num(2), num(12)]));
    assert_eq!(next_value(&mut y), Value::Tuple(vec![num(1), num(11)]));
}

#[test]
fn intersperse_by_value_make_copy() {
    // x = (1, 2, 3).intersperse 0
    let source = Value::Tuple(vec![num(1), num(2), num(3)]);
    let mut x = ops::intersperse(&source, num(0)).unwrap();
    assert_eq!(next_value(&mut x), num(1));
    assert_eq!(next_value(&mut x), num(0));
    let mut y = x.make_copy();
    assert_eq!(next_value(&mut x), num(2));
    assert_eq!(next_value(&mut x), num(0));
    assert_eq!(next_value(&mut y), num(2));
}

#[test]
fn intersperse_with_function_make_copy() {
    // x = (10, 20, 30).intersperse || 42
    let forty_two = KFunction { arity: 0, body: Expr::LitInt(42) };
    let source = Value::Tuple(vec![num(10), num(20), num(30)]);
    let mut x = ops::intersperse_with(&source, forty_two).unwrap();
    assert_eq!(next_value(&mut x), num(10));
    assert_eq!(next_value(&mut x), num(42));
    let mut y = x.make_copy();
    assert_eq!(next_value(&mut x), num(20));
    assert_eq!(next_value(&mut x), num(42));
    assert_eq!(next_value(&mut y), num(20));
}

#[test]
fn keep_make_copy() {
    // x = 'abcdef'.chars().keep |c| 'bef'.contains c
    let contains = KFunction {
        arity: 1,
        body: Expr::StrContains(
            Box::new(Expr::LitStr("bef".to_string())),
            Box::new(Expr::Arg(0)),
        ),
    };
    let mut x = ops::keep(&sv("abcdef"), contains).unwrap();
    assert_eq!(next_value(&mut x), sv("b"));
    let mut y = x.make_copy();
    assert_eq!(next_value(&mut x), sv("e"));
    assert_eq!(next_value(&mut y), sv("e"));
}

#[test]
fn skip_past_end_then_collect_shouldnt_panic() {
    // [].skip(1).to_tuple()
    let empty = Value::List(Vec::new());
    let it = ops::skip(&empty, 1).unwrap();
    let collected = ops::to_tuple(&Value::Iterator(Box::new(it))).unwrap();
    assert_eq!(collected, Value::Tuple(Vec::new()));
}

#[test]
fn take_make_copy() {
    // x = 'abcdef'.chars().take 4
    let mut x = ops::take(&sv("abcdef"), 4).unwrap();
    assert_eq!(next_value(&mut x), sv("a"));
    assert_eq!(next_value(&mut x), sv("b"));
    let mut y = x.make_copy();
    assert_eq!(next_value(&mut x), sv("c"));
    assert_eq!(next_value(&mut y), sv("c"));
}

#[test]
fn zip_make_copy() {
    // x = (1..5).zip 11..15
    let mut x = ops::zip(&range_value(1, 5, false), &range_value(11, 15, false)).unwrap();
    assert_eq!(next_value(&mut x), Value::Tuple(vec![num(1), num(11)]));
    assert_eq!(next_value(&mut x), Value::Tuple(vec![num(2), num(12)]));
    let mut y = x.make_copy();
    assert_eq!(next_value(&mut x), Value::Tuple(vec![num(3), num(13)]));
    assert_eq!(next_value(&mut y), Value::Tuple(vec![num(3), num(13)]));
}

fn sample_map() -> Value {
    Value::MapVal(vec![
        KvPair { key: sv("foo"), value: num(42) },
        KvPair { key: sv("bar"), value: num(99) },
        KvPair { key: sv("baz"), value: num(-1) },
    ])
}

#[test]
fn map_keys_make_copy() {
    // x = {foo: 42, bar: 99, baz: -1}.keys()
    let mut x = koto_core::iter::make_iterator(&sample_map()).unwrap();
    let first = ops::op_next(&mut x).unwrap();
    assert_eq!(first, Value::Tuple(vec![sv("foo"), num(42)]));
    let mut y = x.make_copy();
    let second = ops::op_next(&mut x).unwrap();
    assert_eq!(second, Value::Tuple(vec![sv("bar"), num(99)]));
    let second_copy = ops::op_next(&mut y).unwrap();
    assert_eq!(second_copy, Value::Tuple(vec![sv("bar"), num(99)]));
}

#[test]
fn map_values_make_copy() {
    // x = {foo: 42, bar: 99, baz: -1}.values(): the value side of each entry
    let mut x = koto_core::iter::make_iterator(&sample_map()).unwrap();
    let first = ops::op_next(&mut x).unwrap();
    assert_eq!(first, Value::Tuple(vec![sv("foo"), num(42)]));
    let mut y = x.make_copy();
    assert_eq!(ops::op_next(&mut x).unwrap(), Value::Tuple(vec![sv("bar"), num(99)]));
    assert_eq!(ops::op_next(&mut y).unwrap(), Value::Tuple(vec![sv("bar"), num(99)]));
}

#[test]
fn string_bytes_make_copy() {
    // x = 'abc'.bytes()
    let mut x = strings::bytes("abc");
    assert_eq!(next_value(&mut x), num(97));
    let mut y = x.make_copy();
    assert_eq!(next_value(&mut x), num(98));
    assert_eq!(next_value(&mut y), num(98));
}

#[test]
fn string_lines_make_copy() {
    // x = 'abc\ndef\nxyz'.lines()
    let mut x = strings::lines("abc\ndef\nxyz");
    assert_eq!(next_value(&mut x), sv("abc"));
    let mut y = x.make_copy();
    assert_eq!(next_value(&mut x), sv("def"));
    assert_eq!(next_value(&mut y), sv("def"));
}

#[test]
fn crlf_line_endings() {
    // 'abc\r\ndef\r\nxyz\r\n\r\n'.lines().to_tuple()
    let it = strings::lines("abc\r\ndef\r\nxyz\r\n\r\n");
    let collected = ops::to_tuple(&Value::Iterator(Box::new(it))).unwrap();
    assert_eq!(collected, Value::Tuple(vec![sv("abc"), sv("def"), sv("xyz"), sv("")]));
}

#[test]
fn make_copy_pattern() {
    // x = '1-2-3'.split '-'
    let mut x = strings::split_by_char("1-2-3", '-');
    assert_eq!(next_value(&mut x), sv("1"));
    let mut y = x.make_copy();
    assert_eq!(next_value(&mut x), sv("2"));
    assert_eq!(next_value(&mut y), sv("2"));
}

#[test]
fn make_copy_predicate() {
    // x = '1-2_3'.split |c| '-_'.contains c
    let pred = KFunction {
        arity: 1,
        body: Expr::StrContains(
            Box::new(Expr::LitStr("-_".to_string())),
            Box::new(Expr::Arg(0)),
        ),
    };
    let mut x = strings::split_with_predicate("1-2_3", &pred).unwrap();
    assert_eq!(next_value(&mut x), sv("1"));
    let mut y = x.make_copy();
    assert_eq!(next_value(&mut x), sv("2"));
    assert_eq!(next_value(&mut y), sv("2"));
}
