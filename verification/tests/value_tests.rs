//! Values, operators, number canonicalization, and string splitting on
//! concrete inputs.

use koto_core::constants::KNumber;
use koto_core::error::RuntimeError;
use koto_core::expr::{run_binary_op, BinaryOp, Expr, KFunction};
use koto_core::external::{Args, ExternalFunction};
use koto_core::ops;
use koto_core::strings;
use koto_core::value::{value_eq, KvPair, Value};

fn num(n: i64) -> Value {
    Value::Number(n)
}

fn sv(s: &str) -> Value {
    Value::Str(s.to_string())
}

#[test]
fn binary_operators() {
    assert_eq!(run_binary_op(BinaryOp::Add, num(2), num(3)).unwrap(), num(5));
    assert_eq!(run_binary_op(BinaryOp::Subtract, num(2), num(3)).unwrap(), num(-1));
    assert_eq!(run_binary_op(BinaryOp::Multiply, num(-4), num(3)).unwrap(), num(-12));
    assert_eq!(run_binary_op(BinaryOp::Divide, num(-7), num(2)).unwrap(), num(-3));
    assert_eq!(run_binary_op(BinaryOp::Modulo, num(-7), num(2)).unwrap(), num(-1));
    assert_eq!(run_binary_op(BinaryOp::Add, sv("ab"), sv("cd")).unwrap(), sv("abcd"));
    assert_eq!(run_binary_op(BinaryOp::Less, num(1), num(2)).unwrap(), Value::Bool(true));
    assert_eq!(
        run_binary_op(BinaryOp::Equal, sv("x"), sv("x")).unwrap(),
        Value::Bool(true)
    );
    assert_eq!(
        run_binary_op(BinaryOp::NotEqual, num(1), sv("1")).unwrap(),
        Value::Bool(true)
    );
    // overflow and division by zero are errors, not wrapping results
    assert!(run_binary_op(BinaryOp::Add, num(i64::MAX), num(1)).is_err());
    assert!(run_binary_op(BinaryOp::Divide, num(1), num(0)).is_err());
    // comparing values without an order is an error
    match run_binary_op(BinaryOp::Less, sv("a"), num(1)) {
        Err(RuntimeError::TypeError { .. }) => {},
        other => panic!("expected a type error, got {:?}", other),
    }
}

#[test]
fn deep_value_equality() {
    let a = Value::List(vec![num(1), Value::Tuple(vec![sv("x"), Value::Null])]);
    let b = Value::List(vec![num(1), Value::Tuple(vec![sv("x"), Value::Null])]);
    assert!(value_eq(&a, &b));
    let c = Value::List(vec![num(1), Value::Tuple(vec![sv("y"), Value::Null])]);
    assert!(!value_eq(&a, &c));
    let m1 = Value::MapVal(vec![KvPair { key: sv("k"), value: num(1) }]);
    let m2 = Value::MapVal(vec![KvPair { key: sv("k"), value: num(1) }]);
    assert!(value_eq(&m1, &m2));
}

#[test]
fn number_canonicalization() {
    let a = KNumber::from_decimal_str("1.50").unwrap();
    let b = KNumber::from_decimal_str("1.5").unwrap();
    assert_eq!(a, b);
    let z1 = KNumber::from_decimal_str("0.0").unwrap();
    let z2 = KNumber::from_decimal_str("-0").unwrap();
    assert_eq!(z1, z2);
    assert!(z1.is_zero());
    assert!(KNumber::from_decimal_str("1.0").unwrap().is_one());
    assert!(!KNumber::from_decimal_str("-1").unwrap().is_one());
    assert!(KNumber::from_decimal_str("").is_none());
    assert!(KNumber::from_decimal_str("1.").is_none());
    assert!(KNumber::from_decimal_str("a").is_none());
}

#[test]
fn lines_edge_cases() {
    let collect = |s: &str| {
        let it = strings::lines(s);
        ops::to_list(&Value::Iterator(Box::new(it))).unwrap()
    };
    assert_eq!(collect(""), Value::List(vec![]));
    assert_eq!(collect("a"), Value::List(vec![sv("a")]));
    assert_eq!(collect("a\n"), Value::List(vec![sv("a")]));
    assert_eq!(collect("\n\n"), Value::List(vec![sv(""), sv("")]));
    assert_eq!(collect("a\r\nb"), Value::List(vec![sv("a"), sv("b")]));
}

#[test]
fn split_edge_cases() {
    let collect = |s: &str, sep: char| {
        let it = strings::split_by_char(s, sep);
        ops::to_list(&Value::Iterator(Box::new(it))).unwrap()
    };
    assert_eq!(collect("", '-'), Value::List(vec![sv("")]));
    assert_eq!(collect("-", '-'), Value::List(vec![sv(""), sv("")]));
    assert_eq!(collect("a-b--c", '-'), Value::List(vec![sv("a"), sv("b"), sv(""), sv("c")]));
}

#[test]
fn chars_and_bytes() {
    let it = strings::chars(&"hey".to_string());
    let collected = ops::to_list(&Value::Iterator(Box::new(it))).unwrap();
    assert_eq!(collected, Value::List(vec![sv("h"), sv("e"), sv("y")]));
    let it = strings::bytes("hi");
    let collected = ops::to_list(&Value::Iterator(Box::new(it))).unwrap();
    assert_eq!(collected, Value::List(vec![num(104), num(105)]));
}

#[test]
fn external_function_wrapping() {
    let f = KFunction { arity: 0, body: Expr::LitInt(1) };
    let wrapped = ExternalFunction::new(f, true);
    assert!(wrapped.is_instance_function);
    let copy = wrapped.duplicate();
    assert_eq!(copy.function.arity, 0);
    let args = Args { register: 3, count: 2 };
    assert_eq!(args.register, 3);
    assert_eq!(args.count, 2);
}
