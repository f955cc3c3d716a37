//! Callables: a small pure expression language standing for the script
//! functions that iterator adaptors and eager operations invoke, together
//! with the binary operators that reductions dispatch.
//!
//! A callable is a closed term over its arguments, so calling it twice with
//! the same arguments gives the same result; this is what lets an
//! independent copy of an adaptor replay the same behaviour.

use vstd::prelude::*;

use crate::error::RuntimeError;
use crate::value::{
    pairs_val_eq_spec, pairs_vview, seq_val_eq_spec, seq_vview, val_eq_spec, value_eq, vview,
    Value, VV,
};

verus! {

broadcast use
    crate::value::lemma_seq_vview_len,
    crate::value::lemma_seq_vview_index,
    crate::value::lemma_pairs_vview_len,
    crate::value::lemma_pairs_vview_index,
;

/// A binary operator of the language's runtime.
#[derive(Debug, Clone, Copy, PartialEq, Eq)]
pub enum BinaryOp {
    Add,
    Subtract,
    Multiply,
    Divide,
    Modulo,
    Less,
    LessOrEqual,
    Greater,
    GreaterOrEqual,
    Equal,
    NotEqual,
}

/// The body of a callable: a pure expression over the call's arguments.
#[derive(Debug, PartialEq)]
pub enum Expr {
    /// The n-th argument of the call.
    Arg(usize),
    LitNull,
    LitBool(bool),
    LitInt(i64),
    LitStr(String),
    Binary(BinaryOp, Box<Expr>, Box<Expr>),
    /// Absolute value of a number.
    Abs(Box<Expr>),
    /// Whether the first string contains the second as a substring.
    StrContains(Box<Expr>, Box<Expr>),
}

/// A callable value: an argument count and a body.
#[derive(Debug, PartialEq)]
pub struct KFunction {
    pub arity: usize,
    pub body: Expr,
}

/// Structural equivalence of two expressions (string literals compared by
/// contents).
pub open spec fn expr_equiv(a: Expr, b: Expr) -> bool
    decreases a,
{
    match (a, b) {
        (Expr::Arg(x), Expr::Arg(y)) => x == y,
        (Expr::LitNull, Expr::LitNull) => true,
        (Expr::LitBool(x), Expr::LitBool(y)) => x == y,
        (Expr::LitInt(x), Expr::LitInt(y)) => x == y,
        (Expr::LitStr(x), Expr::LitStr(y)) => x@ == y@,
        (Expr::Binary(xo, xl, xr), Expr::Binary(yo, yl, yr)) => xo == yo && expr_equiv(*xl, *yl)
            && expr_equiv(*xr, *yr),
        (Expr::Abs(x), Expr::Abs(y)) => expr_equiv(*x, *y),
        (Expr::StrContains(xl, xr), Expr::StrContains(yl, yr)) => expr_equiv(*xl, *yl)
            && expr_equiv(*xr, *yr),
        _ => false,
    }
}

impl Expr {
    /// Deep copy; the copy is structurally equivalent.
    pub fn duplicate(&self) -> (r: Expr)
        ensures
            expr_equiv(*self, r),
        decreases *self,
    {
        match self {
            Expr::Arg(i) => Expr::Arg(*i),
            Expr::LitNull => Expr::LitNull,
            Expr::LitBool(b) => Expr::LitBool(*b),
            Expr::LitInt(n) => Expr::LitInt(*n),
            Expr::LitStr(s) => Expr::LitStr(s.clone()),
            Expr::Binary(op, l, r) => Expr::Binary(
                *op,
                Box::new(l.duplicate()),
                Box::new(r.duplicate()),
            ),
            Expr::Abs(e) => Expr::Abs(Box::new(e.duplicate())),
            Expr::StrContains(l, r) => Expr::StrContains(
                Box::new(l.duplicate()),
                Box::new(r.duplicate()),
            ),
        }
    }
}

impl KFunction {
    /// Deep copy; the copy is structurally equivalent.
    pub fn duplicate(&self) -> (r: KFunction)
        ensures
            r.arity == self.arity,
            expr_equiv(self.body, r.body),
    {
        KFunction { arity: self.arity, body: self.body.duplicate() }
    }
}

/// Script equality at the view level: deep structural equality of plain
/// data; callables and iterator handles never compare equal.
pub open spec fn vv_script_eq(a: VV, b: VV) -> bool
    decreases a,
{
    match (a, b) {
        (VV::Null, VV::Null) => true,
        (VV::Bool(x), VV::Bool(y)) => x == y,
        (VV::Int(x), VV::Int(y)) => x == y,
        (VV::Str(x), VV::Str(y)) => x == y,
        (VV::Tuple(x), VV::Tuple(y)) => seq_vv_script_eq(x, y),
        (VV::List(x), VV::List(y)) => seq_vv_script_eq(x, y),
        (
            VV::Range { start: xs, end: xe, inclusive: xi },
            VV::Range { start: ys, end: ye, inclusive: yi },
        ) => xs == ys && xe == ye && xi == yi,
        (VV::MapVal(x), VV::MapVal(y)) => pairs_vv_script_eq(x, y),
        _ => false,
    }
}

pub open spec fn seq_vv_script_eq(a: Seq<VV>, b: Seq<VV>) -> bool
    decreases a,
{
    a.len() == b.len() && (forall|i: int|
        0 <= i < a.len() ==> vv_script_eq(a[i], #[trigger] b[i]))
}

pub open spec fn pairs_vv_script_eq(a: Seq<(VV, VV)>, b: Seq<(VV, VV)>) -> bool
    decreases a,
{
    a.len() == b.len() && (forall|i: int|
        0 <= i < a.len() ==> vv_script_eq(a[i].0, #[trigger] b[i].0) && vv_script_eq(
            a[i].1,
            b[i].1,
        ))
}

/// Script equality of two values is script equality of their views.
pub proof fn lemma_val_eq_is_view_eq(a: Value, b: Value)
    ensures
        val_eq_spec(a, b) == vv_script_eq(vview(a), vview(b)),
    decreases a,
{
    match (a, b) {
        (Value::Tuple(x), Value::Tuple(y)) => {
            lemma_seq_val_eq_is_view_eq(x@, y@);
        },
        (Value::List(x), Value::List(y)) => {
            lemma_seq_val_eq_is_view_eq(x@, y@);
        },
        (Value::MapVal(x), Value::MapVal(y)) => {
            lemma_pairs_val_eq_is_view_eq(x@, y@);
        },
        _ => {},
    }
}

proof fn lemma_seq_val_eq_is_view_eq(x: Seq<Value>, y: Seq<Value>)
    ensures
        seq_val_eq_spec(x, y) == seq_vv_script_eq(seq_vview(x), seq_vview(y)),
    decreases x,
{
    broadcast use
        crate::value::lemma_seq_vview_len,
        crate::value::lemma_seq_vview_index,
    ;

    let vx = seq_vview(x);
    let vy = seq_vview(y);
    if x.len() == y.len() {
        if seq_val_eq_spec(x, y) {
            assert forall|i: int| 0 <= i < vx.len() implies vv_script_eq(vx[i], #[trigger] vy[i]) by {
                assert(val_eq_spec(x[i], y[i]));
                lemma_val_eq_is_view_eq(x[i], y[i]);
            }
            assert(seq_vv_script_eq(vx, vy));
        }
        if seq_vv_script_eq(vx, vy) {
            assert forall|i: int| 0 <= i < x.len() implies val_eq_spec(#[trigger] x[i], y[i]) by {
                assert(vv_script_eq(vx[i], vy[i]));
                lemma_val_eq_is_view_eq(x[i], y[i]);
            }
            assert(seq_val_eq_spec(x, y));
        }
    }
}

proof fn lemma_pairs_val_eq_is_view_eq(x: Seq<crate::value::KvPair>, y: Seq<crate::value::KvPair>)
    ensures
        pairs_val_eq_spec(x, y) == pairs_vv_script_eq(pairs_vview(x), pairs_vview(y)),
    decreases x,
{
    broadcast use
        crate::value::lemma_pairs_vview_len,
        crate::value::lemma_pairs_vview_index,
    ;

    let vx = pairs_vview(x);
    let vy = pairs_vview(y);
    if x.len() == y.len() {
        if pairs_val_eq_spec(x, y) {
            assert forall|i: int| 0 <= i < vx.len() implies vv_script_eq(
                vx[i].0,
                (#[trigger] vy[i]).0,
            ) && vv_script_eq(vx[i].1, vy[i].1) by {
                assert(val_eq_spec(x[i].key, y[i].key) && val_eq_spec(x[i].value, y[i].value));
                lemma_val_eq_is_view_eq(x[i].key, y[i].key);
                lemma_val_eq_is_view_eq(x[i].value, y[i].value);
            }
            assert(pairs_vv_script_eq(vx, vy));
        }
        if pairs_vv_script_eq(vx, vy) {
            assert forall|i: int| 0 <= i < x.len() implies val_eq_spec(
                (#[trigger] x[i]).key,
                y[i].key,
            ) && val_eq_spec(x[i].value, y[i].value) by {
                assert(vv_script_eq(vx[i].0, vy[i].0) && vv_script_eq(vx[i].1, vy[i].1));
                lemma_val_eq_is_view_eq(x[i].key, y[i].key);
                lemma_val_eq_is_view_eq(x[i].value, y[i].value);
            }
            assert(pairs_val_eq_spec(x, y));
        }
    }
}

/// The magnitude of a machine integer, as a mathematical integer.
pub open spec fn mag(x: int) -> int {
    if x < 0 {
        -x
    } else {
        x
    }
}

/// Truncating division, as machine division behaves: the quotient of the
/// magnitudes, negated when the signs differ.
pub open spec fn div_trunc(x: int, y: int) -> int {
    if (x < 0) != (y < 0) {
        -(mag(x) / mag(y))
    } else {
        mag(x) / mag(y)
    }
}

/// Truncating remainder: the remainder of the magnitudes, with the sign of
/// the dividend.
pub open spec fn rem_trunc(x: int, y: int) -> int {
    if x < 0 {
        -(mag(x) % mag(y))
    } else {
        mag(x) % mag(y)
    }
}

pub open spec fn fits_i64(x: int) -> bool {
    i64::MIN <= x <= i64::MAX
}

/// What a binary operator returns at the view level; `None` is a runtime
/// error (wrong operand types, overflow, division by zero, comparison of
/// incomparable values).
pub open spec fn binop_spec(op: BinaryOp, a: VV, b: VV) -> Option<VV> {
    match op {
        BinaryOp::Add => match (a, b) {
            (VV::Int(x), VV::Int(y)) => if fits_i64(x + y) {
                Some(VV::Int(x + y))
            } else {
                None
            },
            (VV::Str(x), VV::Str(y)) => Some(VV::Str(x + y)),
            _ => None,
        },
        BinaryOp::Subtract => match (a, b) {
            (VV::Int(x), VV::Int(y)) => if fits_i64(x - y) {
                Some(VV::Int(x - y))
            } else {
                None
            },
            _ => None,
        },
        BinaryOp::Multiply => match (a, b) {
            (VV::Int(x), VV::Int(y)) => if fits_i64(x * y) {
                Some(VV::Int(x * y))
            } else {
                None
            },
            _ => None,
        },
        BinaryOp::Divide => match (a, b) {
            (VV::Int(x), VV::Int(y)) => if y != 0 && fits_i64(div_trunc(x, y)) {
                Some(VV::Int(div_trunc(x, y)))
            } else {
                None
            },
            _ => None,
        },
        BinaryOp::Modulo => match (a, b) {
            (VV::Int(x), VV::Int(y)) => if y != 0 && fits_i64(rem_trunc(x, y)) {
                Some(VV::Int(rem_trunc(x, y)))
            } else {
                None
            },
            _ => None,
        },
        BinaryOp::Less => match (a, b) {
            (VV::Int(x), VV::Int(y)) => Some(VV::Bool(x < y)),
            _ => None,
        },
        BinaryOp::LessOrEqual => match (a, b) {
            (VV::Int(x), VV::Int(y)) => Some(VV::Bool(x <= y)),
            _ => None,
        },
        BinaryOp::Greater => match (a, b) {
            (VV::Int(x), VV::Int(y)) => Some(VV::Bool(x > y)),
            _ => None,
        },
        BinaryOp::GreaterOrEqual => match (a, b) {
            (VV::Int(x), VV::Int(y)) => Some(VV::Bool(x >= y)),
            _ => None,
        },
        BinaryOp::Equal => Some(VV::Bool(vv_script_eq(a, b))),
        BinaryOp::NotEqual => Some(VV::Bool(!vv_script_eq(a, b))),
    }
}

fn binop_type_error(op: BinaryOp, a: Value, b: Value) -> RuntimeError {
    let got = a.kind_name().concat(" and ").concat(b.kind_name().as_str());
    match op {
        BinaryOp::Add => RuntimeError::TypeError { expected: "two Numbers or two Strings".to_owned(), got },
        BinaryOp::Less | BinaryOp::LessOrEqual | BinaryOp::Greater | BinaryOp::GreaterOrEqual => RuntimeError::TypeError {
            expected: "two comparable values".to_owned(),
            got,
        },
        _ => RuntimeError::TypeError { expected: "two Numbers".to_owned(), got },
    }
}

/// Magnitude of a machine integer, in a machine word.
fn mag_u64(x: i64) -> (r: u64)
    ensures
        r == mag(x as int),
{
    if x == i64::MIN {
        9223372036854775808u64
    } else if x < 0 {
        (-x) as u64
    } else {
        x as u64
    }
}

fn int_compare(op: BinaryOp, x: i64, y: i64) -> (r: Value)
    requires
        op == BinaryOp::Less || op == BinaryOp::LessOrEqual || op == BinaryOp::Greater || op
            == BinaryOp::GreaterOrEqual,
    ensures
        binop_spec(op, VV::Int(x as int), VV::Int(y as int)) == Some(vview(r)),
{
    match op {
        BinaryOp::Less => Value::Bool(x < y),
        BinaryOp::LessOrEqual => Value::Bool(x <= y),
        BinaryOp::Greater => Value::Bool(x > y),
        _ => Value::Bool(x >= y),
    }
}

/// Applies a binary operator to two values, as the virtual machine's
/// operator dispatch would.
pub fn run_binary_op(op: BinaryOp, a: Value, b: Value) -> (r: Result<Value, RuntimeError>)
    ensures
        match r {
            Ok(v) => binop_spec(op, vview(a), vview(b)) == Some(vview(v)),
            Err(_) => binop_spec(op, vview(a), vview(b)) is None,
        },
{
    match op {
        BinaryOp::Equal => {
            let e = value_eq(&a, &b);
            proof {
                lemma_val_eq_is_view_eq(a, b);
            }
            Ok(Value::Bool(e))
        },
        BinaryOp::NotEqual => {
            let e = value_eq(&a, &b);
            proof {
                lemma_val_eq_is_view_eq(a, b);
            }
            Ok(Value::Bool(!e))
        },
        BinaryOp::Add => match (a, b) {
            (Value::Number(x), Value::Number(y)) => match x.checked_add(y) {
                Some(z) => Ok(Value::Number(z)),
                None => Err(RuntimeError::ValueError { message: "number overflow in '+'".to_owned() }),
            },
            (Value::Str(x), Value::Str(y)) => Ok(Value::Str(x.concat(y.as_str()))),
            (a, b) => Err(binop_type_error(op, a, b)),
        },
        BinaryOp::Subtract => match (a, b) {
            (Value::Number(x), Value::Number(y)) => match x.checked_sub(y) {
                Some(z) => Ok(Value::Number(z)),
                None => Err(RuntimeError::ValueError { message: "number overflow in '-'".to_owned() }),
            },
            (a, b) => Err(binop_type_error(op, a, b)),
        },
        BinaryOp::Multiply => match (a, b) {
            (Value::Number(x), Value::Number(y)) => match x.checked_mul(y) {
                Some(z) => Ok(Value::Number(z)),
                None => Err(RuntimeError::ValueError { message: "number overflow in '*'".to_owned() }),
            },
            (a, b) => Err(binop_type_error(op, a, b)),
        },
        BinaryOp::Divide => match (a, b) {
            (Value::Number(x), Value::Number(y)) => {
                if y == 0 {
                    Err(RuntimeError::ValueError { message: "division by zero".to_owned() })
                } else {
                    let q: u64 = mag_u64(x) / mag_u64(y);
                    if (x < 0) != (y < 0) {
                        if q > 9223372036854775808u64 {
                            Err(RuntimeError::ValueError { message: "number overflow in '/'".to_owned() })
                        } else if q == 9223372036854775808u64 {
                            Ok(Value::Number(i64::MIN))
                        } else {
                            Ok(Value::Number(-((q as i64))))
                        }
                    } else {
                        if q > i64::MAX as u64 {
                            Err(RuntimeError::ValueError { message: "number overflow in '/'".to_owned() })
                        } else {
                            Ok(Value::Number(q as i64))
                        }
                    }
                }
            },
            (a, b) => Err(binop_type_error(op, a, b)),
        },
        BinaryOp::Modulo => match (a, b) {
            (Value::Number(x), Value::Number(y)) => {
                if y == 0 {
                    Err(RuntimeError::ValueError { message: "modulo by zero".to_owned() })
                } else {
                    let m: u64 = mag_u64(x) % mag_u64(y);
                    if x < 0 {
                        if m > 9223372036854775808u64 {
                            Err(RuntimeError::ValueError { message: "number overflow in '%'".to_owned() })
                        } else if m == 9223372036854775808u64 {
                            Ok(Value::Number(i64::MIN))
                        } else {
                            Ok(Value::Number(-((m as i64))))
                        }
                    } else {
                        if m > i64::MAX as u64 {
                            Err(RuntimeError::ValueError { message: "number overflow in '%'".to_owned() })
                        } else {
                            Ok(Value::Number(m as i64))
                        }
                    }
                }
            },
            (a, b) => Err(binop_type_error(op, a, b)),
        },
        BinaryOp::Less | BinaryOp::LessOrEqual | BinaryOp::Greater | BinaryOp::GreaterOrEqual => {
            match (a, b) {
                (Value::Number(x), Value::Number(y)) => Ok(int_compare(op, x, y)),
                (a, b) => Err(binop_type_error(op, a, b)),
            }
        },
    }
}

/// Whether `s` contains `sub` as a contiguous subsequence.
pub open spec fn str_contains_spec(s: Seq<char>, sub: Seq<char>) -> bool {
    exists|i: int|
        0 <= i && i + sub.len() <= s.len() && #[trigger] s.subrange(i, i + sub.len()) == sub
}

/// Substring search over character sequences.
pub fn str_contains(s: &str, sub: &str) -> (r: bool)
    ensures
        r == str_contains_spec(s@, sub@),
{
    let n = s.unicode_len();
    let m = sub.unicode_len();
    if m > n {
        assert(!str_contains_spec(s@, sub@));
        return false;
    }
    if m == 0 {
        proof {
            assert(s@.subrange(0, 0 + sub@.len() as int) =~= sub@);
        }
        return true;
    }
    let mut i: usize = 0;
    while i <= n - m
        invariant
            0 < m <= n,
            n == s@.len(),
            m == sub@.len(),
            i <= n - m + 1,
            forall|k: int| 0 <= k < i ==> #[trigger] s@.subrange(k, k + sub@.len()) != sub@,
        decreases n - m - i + 1,
    {
        let mut j: usize = 0;
        let mut matches_here = true;
        while j < m
            invariant
                0 < m <= n,
                n == s@.len(),
                m == sub@.len(),
                i + m <= n,
                j <= m,
                matches_here ==> forall|k: int| 0 <= k < j ==> s@[i + k] == sub@[k],
                !matches_here ==> s@.subrange(i as int, i + sub@.len()) != sub@,
            decreases m - j,
        {
            if s.get_char(i + j) != sub.get_char(j) {
                proof {
                    assert(s@.subrange(i as int, i + sub@.len())[j as int] == s@[i + j]);
                }
                matches_here = false;
                j = m;
            } else {
                proof {
                    assert(s@[i + j] == sub@[j as int]);
                }
                j = j + 1;
            }
        }
        if matches_here {
            proof {
                assert(s@.subrange(i as int, i + sub@.len()) =~= sub@);
            }
            return true;
        }
        i = i + 1;
    }
    assert(!str_contains_spec(s@, sub@));
    false
}

/// What evaluating an expression on the given argument views yields;
/// `None` is a runtime error.
pub open spec fn eval_spec(e: Expr, args: Seq<VV>) -> Option<VV>
    decreases e,
{
    match e {
        Expr::Arg(i) => if i < args.len() {
            Some(args[i as int])
        } else {
            None
        },
        Expr::LitNull => Some(VV::Null),
        Expr::LitBool(b) => Some(VV::Bool(b)),
        Expr::LitInt(n) => Some(VV::Int(n as int)),
        Expr::LitStr(s) => Some(VV::Str(s@)),
        Expr::Binary(op, l, r) => match (eval_spec(*l, args), eval_spec(*r, args)) {
            (Some(x), Some(y)) => binop_spec(op, x, y),
            _ => None,
        },
        Expr::Abs(inner) => match eval_spec(*inner, args) {
            Some(VV::Int(x)) => if fits_i64(mag(x)) {
                Some(VV::Int(mag(x)))
            } else {
                None
            },
            _ => None,
        },
        Expr::StrContains(l, r) => match (eval_spec(*l, args), eval_spec(*r, args)) {
            (Some(VV::Str(x)), Some(VV::Str(y))) => Some(VV::Bool(str_contains_spec(x, y))),
            _ => None,
        },
    }
}

/// Evaluates an expression on the given arguments.
pub fn eval_expr(e: &Expr, args: &Vec<Value>) -> (r: Result<Value, RuntimeError>)
    ensures
        match r {
            Ok(v) => eval_spec(*e, seq_vview(args@)) == Some(vview(v)),
            Err(_) => eval_spec(*e, seq_vview(args@)) is None,
        },
    decreases *e,
{
    match e {
        Expr::Arg(i) => {
            if *i < args.len() {
                let c = crate::value::value_clone(&args[*i]);
                proof {
                    crate::value::lemma_veq_views(args@[*i as int], c);
                }
                Ok(c)
            } else {
                let want: usize = if *i < usize::MAX {
                    *i + 1
                } else {
                    *i
                };
                Err(RuntimeError::ArityError { expected: want, got: args.len() })
            }
        },
        Expr::LitNull => Ok(Value::Null),
        Expr::LitBool(b) => Ok(Value::Bool(*b)),
        Expr::LitInt(n) => Ok(Value::Number(*n)),
        Expr::LitStr(s) => Ok(Value::Str(s.clone())),
        Expr::Binary(op, l, r) => {
            let lv = eval_expr(l, args)?;
            let rv = eval_expr(r, args)?;
            run_binary_op(*op, lv, rv)
        },
        Expr::Abs(inner) => {
            let v = eval_expr(inner, args)?;
            match v {
                Value::Number(x) => {
                    if x == i64::MIN {
                        Err(RuntimeError::ValueError { message: "number overflow in 'abs'".to_owned() })
                    } else if x < 0 {
                        Ok(Value::Number(-x))
                    } else {
                        Ok(Value::Number(x))
                    }
                },
                other => Err(RuntimeError::TypeError {
                    expected: "a Number".to_owned(),
                    got: other.kind_name(),
                }),
            }
        },
        Expr::StrContains(l, r) => {
            let lv = eval_expr(l, args)?;
            let rv = eval_expr(r, args)?;
            match (lv, rv) {
                (Value::Str(x), Value::Str(y)) => Ok(
                    Value::Bool(str_contains(x.as_str(), y.as_str())),
                ),
                (other, _) => Err(RuntimeError::TypeError {
                    expected: "two Strings".to_owned(),
                    got: other.kind_name(),
                }),
            }
        },
    }
}

/// What calling a callable on the given argument views yields.
pub open spec fn call_spec(f: KFunction, args: Seq<VV>) -> Option<VV> {
    if args.len() == f.arity {
        eval_spec(f.body, args)
    } else {
        None
    }
}

/// Calls a callable, as the virtual machine's function call would: the
/// argument count must match the callable's arity.
pub fn run_function(f: &KFunction, args: &Vec<Value>) -> (r: Result<Value, RuntimeError>)
    ensures
        match r {
            Ok(v) => call_spec(*f, seq_vview(args@)) == Some(vview(v)),
            Err(_) => call_spec(*f, seq_vview(args@)) is None,
        },
{
    if args.len() != f.arity {
        return Err(RuntimeError::ArityError { expected: f.arity, got: args.len() });
    }
    eval_expr(&f.body, args)
}

/// Equivalent expressions evaluate alike.
pub proof fn lemma_expr_equiv_eval(a: Expr, b: Expr, args: Seq<VV>)
    requires
        expr_equiv(a, b),
    ensures
        eval_spec(a, args) == eval_spec(b, args),
    decreases a,
{
    match (a, b) {
        (Expr::Binary(xo, xl, xr), Expr::Binary(yo, yl, yr)) => {
            lemma_expr_equiv_eval(*xl, *yl, args);
            lemma_expr_equiv_eval(*xr, *yr, args);
        },
        (Expr::Abs(x), Expr::Abs(y)) => {
            lemma_expr_equiv_eval(*x, *y, args);
        },
        (Expr::StrContains(xl, xr), Expr::StrContains(yl, yr)) => {
            lemma_expr_equiv_eval(*xl, *yl, args);
            lemma_expr_equiv_eval(*xr, *yr, args);
        },
        _ => {},
    }
}

} // verus!
