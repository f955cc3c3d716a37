//! The iterator module's dispatch: the named operations an embedder
//! installs, argument checking, and the wiring from a named operation with
//! its instance and arguments to the verified operation behind it.

use vstd::prelude::*;

use crate::error::RuntimeError;
use crate::expr::KFunction;
use crate::iter::KIterator;
use crate::value::{value_clone, Value};

verus! {

/// A named operation of the iterator module.
#[derive(Debug, Clone, Copy, PartialEq, Eq, Structural)]
pub enum IteratorOp {
    All,
    Any,
    Chain,
    Chunks,
    Consume,
    Count,
    Cycle,
    Each,
    Enumerate,
    Find,
    Flatten,
    Fold,
    Generate,
    Intersperse,
    Iter,
    Keep,
    Last,
    Max,
    Min,
    MinMax,
    NextOp,
    NextBack,
    Peekable,
    Position,
    Product,
    Repeat,
    Reversed,
    Skip,
    Sum,
    Take,
    ToList,
    ToMap,
    ToString,
    ToTuple,
    Windows,
    Zip,
}

/// The operation's name, as scripts call it.
pub open spec fn op_name_spec(op: IteratorOp) -> Seq<char> {
    match op {
        IteratorOp::All => "all"@,
        IteratorOp::Any => "any"@,
        IteratorOp::Chain => "chain"@,
        IteratorOp::Chunks => "chunks"@,
        IteratorOp::Consume => "consume"@,
        IteratorOp::Count => "count"@,
        IteratorOp::Cycle => "cycle"@,
        IteratorOp::Each => "each"@,
        IteratorOp::Enumerate => "enumerate"@,
        IteratorOp::Find => "find"@,
        IteratorOp::Flatten => "flatten"@,
        IteratorOp::Fold => "fold"@,
        IteratorOp::Generate => "generate"@,
        IteratorOp::Intersperse => "intersperse"@,
        IteratorOp::Iter => "iter"@,
        IteratorOp::Keep => "keep"@,
        IteratorOp::Last => "last"@,
        IteratorOp::Max => "max"@,
        IteratorOp::Min => "min"@,
        IteratorOp::MinMax => "min_max"@,
        IteratorOp::NextOp => "next"@,
        IteratorOp::NextBack => "next_back"@,
        IteratorOp::Peekable => "peekable"@,
        IteratorOp::Position => "position"@,
        IteratorOp::Product => "product"@,
        IteratorOp::Repeat => "repeat"@,
        IteratorOp::Reversed => "reversed"@,
        IteratorOp::Skip => "skip"@,
        IteratorOp::Sum => "sum"@,
        IteratorOp::Take => "take"@,
        IteratorOp::ToList => "to_list"@,
        IteratorOp::ToMap => "to_map"@,
        IteratorOp::ToString => "to_string"@,
        IteratorOp::ToTuple => "to_tuple"@,
        IteratorOp::Windows => "windows"@,
        IteratorOp::Zip => "zip"@,
    }
}

/// The operation's name, as scripts call it.
pub fn iterator_op_name(op: IteratorOp) -> (r: String)
    ensures
        r@ == op_name_spec(op),
{
    match op {
        IteratorOp::All => "all".to_owned(),
        IteratorOp::Any => "any".to_owned(),
        IteratorOp::Chain => "chain".to_owned(),
        IteratorOp::Chunks => "chunks".to_owned(),
        IteratorOp::Consume => "consume".to_owned(),
        IteratorOp::Count => "count".to_owned(),
        IteratorOp::Cycle => "cycle".to_owned(),
        IteratorOp::Each => "each".to_owned(),
        IteratorOp::Enumerate => "enumerate".to_owned(),
        IteratorOp::Find => "find".to_owned(),
        IteratorOp::Flatten => "flatten".to_owned(),
        IteratorOp::Fold => "fold".to_owned(),
        IteratorOp::Generate => "generate".to_owned(),
        IteratorOp::Intersperse => "intersperse".to_owned(),
        IteratorOp::Iter => "iter".to_owned(),
        IteratorOp::Keep => "keep".to_owned(),
        IteratorOp::Last => "last".to_owned(),
        IteratorOp::Max => "max".to_owned(),
        IteratorOp::Min => "min".to_owned(),
        IteratorOp::MinMax => "min_max".to_owned(),
        IteratorOp::NextOp => "next".to_owned(),
        IteratorOp::NextBack => "next_back".to_owned(),
        IteratorOp::Peekable => "peekable".to_owned(),
        IteratorOp::Position => "position".to_owned(),
        IteratorOp::Product => "product".to_owned(),
        IteratorOp::Repeat => "repeat".to_owned(),
        IteratorOp::Reversed => "reversed".to_owned(),
        IteratorOp::Skip => "skip".to_owned(),
        IteratorOp::Sum => "sum".to_owned(),
        IteratorOp::Take => "take".to_owned(),
        IteratorOp::ToList => "to_list".to_owned(),
        IteratorOp::ToMap => "to_map".to_owned(),
        IteratorOp::ToString => "to_string".to_owned(),
        IteratorOp::ToTuple => "to_tuple".to_owned(),
        IteratorOp::Windows => "windows".to_owned(),
        IteratorOp::Zip => "zip".to_owned(),
    }
}

/// The operations the module installs, in installation order.
pub open spec fn module_ops() -> Seq<IteratorOp> {
    seq![
        IteratorOp::All,
        IteratorOp::Any,
        IteratorOp::Chain,
        IteratorOp::Chunks,
        IteratorOp::Consume,
        IteratorOp::Count,
        IteratorOp::Cycle,
        IteratorOp::Each,
        IteratorOp::Enumerate,
        IteratorOp::Find,
        IteratorOp::Flatten,
        IteratorOp::Fold,
        IteratorOp::Generate,
        IteratorOp::Intersperse,
        IteratorOp::Iter,
        IteratorOp::Keep,
        IteratorOp::Last,
        IteratorOp::Max,
        IteratorOp::Min,
        IteratorOp::MinMax,
        IteratorOp::NextOp,
        IteratorOp::NextBack,
        IteratorOp::Peekable,
        IteratorOp::Position,
        IteratorOp::Product,
        IteratorOp::Repeat,
        IteratorOp::Reversed,
        IteratorOp::Skip,
        IteratorOp::Sum,
        IteratorOp::Take,
        IteratorOp::ToList,
        IteratorOp::ToMap,
        IteratorOp::ToString,
        IteratorOp::ToTuple,
        IteratorOp::Windows,
        IteratorOp::Zip,
    ]
}

/// The iterator module: every operation under its script-visible name, in
/// a fixed order.
pub fn make_iterator_module() -> (m: Vec<(String, IteratorOp)>)
    ensures
        Seq::new(m@.len(), |i: int| m@[i].1) == module_ops(),
        forall|i: int| 0 <= i < m@.len() ==> (#[trigger] m@[i]).0@ == op_name_spec(m@[i].1),
{
    let mut m: Vec<(String, IteratorOp)> = Vec::new();
    m.push((iterator_op_name(IteratorOp::All), IteratorOp::All));
    m.push((iterator_op_name(IteratorOp::Any), IteratorOp::Any));
    m.push((iterator_op_name(IteratorOp::Chain), IteratorOp::Chain));
    m.push((iterator_op_name(IteratorOp::Chunks), IteratorOp::Chunks));
    m.push((iterator_op_name(IteratorOp::Consume), IteratorOp::Consume));
    m.push((iterator_op_name(IteratorOp::Count), IteratorOp::Count));
    m.push((iterator_op_name(IteratorOp::Cycle), IteratorOp::Cycle));
    m.push((iterator_op_name(IteratorOp::Each), IteratorOp::Each));
    m.push((iterator_op_name(IteratorOp::Enumerate), IteratorOp::Enumerate));
    m.push((iterator_op_name(IteratorOp::Find), IteratorOp::Find));
    m.push((iterator_op_name(IteratorOp::Flatten), IteratorOp::Flatten));
    m.push((iterator_op_name(IteratorOp::Fold), IteratorOp::Fold));
    m.push((iterator_op_name(IteratorOp::Generate), IteratorOp::Generate));
    m.push((iterator_op_name(IteratorOp::Intersperse), IteratorOp::Intersperse));
    m.push((iterator_op_name(IteratorOp::Iter), IteratorOp::Iter));
    m.push((iterator_op_name(IteratorOp::Keep), IteratorOp::Keep));
    m.push((iterator_op_name(IteratorOp::Last), IteratorOp::Last));
    m.push((iterator_op_name(IteratorOp::Max), IteratorOp::Max));
    m.push((iterator_op_name(IteratorOp::Min), IteratorOp::Min));
    m.push((iterator_op_name(IteratorOp::MinMax), IteratorOp::MinMax));
    m.push((iterator_op_name(IteratorOp::NextOp), IteratorOp::NextOp));
    m.push((iterator_op_name(IteratorOp::NextBack), IteratorOp::NextBack));
    m.push((iterator_op_name(IteratorOp::Peekable), IteratorOp::Peekable));
    m.push((iterator_op_name(IteratorOp::Position), IteratorOp::Position));
    m.push((iterator_op_name(IteratorOp::Product), IteratorOp::Product));
    m.push((iterator_op_name(IteratorOp::Repeat), IteratorOp::Repeat));
    m.push((iterator_op_name(IteratorOp::Reversed), IteratorOp::Reversed));
    m.push((iterator_op_name(IteratorOp::Skip), IteratorOp::Skip));
    m.push((iterator_op_name(IteratorOp::Sum), IteratorOp::Sum));
    m.push((iterator_op_name(IteratorOp::Take), IteratorOp::Take));
    m.push((iterator_op_name(IteratorOp::ToList), IteratorOp::ToList));
    m.push((iterator_op_name(IteratorOp::ToMap), IteratorOp::ToMap));
    m.push((iterator_op_name(IteratorOp::ToString), IteratorOp::ToString));
    m.push((iterator_op_name(IteratorOp::ToTuple), IteratorOp::ToTuple));
    m.push((iterator_op_name(IteratorOp::Windows), IteratorOp::Windows));
    m.push((iterator_op_name(IteratorOp::Zip), IteratorOp::Zip));
    proof {
        assert(Seq::new(m@.len(), |i: int| m@[i].1) =~= module_ops());
    }
    m
}


/// How many arguments each operation accepts, beyond its iterable
/// instance. The generators take their value or callable among the
/// arguments instead of an instance.
pub open spec fn op_arity_ok(op: IteratorOp, n: int) -> bool {
    match op {
        IteratorOp::All => n == 1,
        IteratorOp::Any => n == 1,
        IteratorOp::Chain => n == 1,
        IteratorOp::Chunks => n == 1,
        IteratorOp::Consume => n == 0,
        IteratorOp::Count => n == 0,
        IteratorOp::Cycle => n == 0,
        IteratorOp::Each => n == 1,
        IteratorOp::Enumerate => n == 0,
        IteratorOp::Find => n == 1,
        IteratorOp::Flatten => n == 0,
        IteratorOp::Fold => n == 2,
        IteratorOp::Generate => n == 1 || n == 2,
        IteratorOp::Intersperse => n == 1,
        IteratorOp::Iter => n == 0,
        IteratorOp::Keep => n == 1,
        IteratorOp::Last => n == 0,
        IteratorOp::Max => n == 0 || n == 1,
        IteratorOp::Min => n == 0 || n == 1,
        IteratorOp::MinMax => n == 0 || n == 1,
        IteratorOp::NextOp => n == 0,
        IteratorOp::NextBack => n == 0,
        IteratorOp::Peekable => n == 0,
        IteratorOp::Position => n == 1,
        IteratorOp::Product => n == 0 || n == 1,
        IteratorOp::Repeat => n == 1 || n == 2,
        IteratorOp::Reversed => n == 0,
        IteratorOp::Skip => n == 1,
        IteratorOp::Sum => n == 0 || n == 1,
        IteratorOp::Take => n == 1,
        IteratorOp::ToList => n == 0,
        IteratorOp::ToMap => n == 0,
        IteratorOp::ToString => n == 0,
        IteratorOp::ToTuple => n == 0,
        IteratorOp::Windows => n == 1,
        IteratorOp::Zip => n == 1,
    }
}

/// Whether the operation's first argument, when one is given, must be a
/// callable.
pub open spec fn op_wants_function(op: IteratorOp) -> bool {
    match op {
        IteratorOp::All => true,
        IteratorOp::Any => true,
        IteratorOp::Each => true,
        IteratorOp::Find => true,
        IteratorOp::Keep => true,
        IteratorOp::Max => true,
        IteratorOp::Min => true,
        IteratorOp::MinMax => true,
        IteratorOp::Position => true,
        _ => false,
    }
}

/// Whether the operation's first argument must be a non-negative size.
pub open spec fn op_wants_size(op: IteratorOp) -> bool {
    match op {
        IteratorOp::Chunks => true,
        IteratorOp::Skip => true,
        IteratorOp::Take => true,
        IteratorOp::Windows => true,
        _ => false,
    }
}

fn arity_error(expected: usize, got: usize) -> (r: RuntimeError)
    ensures
        r matches RuntimeError::ArityError { .. },
{
    RuntimeError::ArityError { expected, got }
}

fn want_function(v: &Value) -> (r: Result<KFunction, RuntimeError>)
    ensures
        r is Ok <==> *v matches Value::Function(_),
{
    match v {
        Value::Function(f) => Ok(f.duplicate()),
        other => Err(
            RuntimeError::TypeError {
                expected: "a Function".to_owned(),
                got: other.kind_name(),
            },
        ),
    }
}

fn want_size(v: &Value) -> (r: Result<usize, RuntimeError>)
    ensures
        r is Ok ==> *v matches Value::Number(_),
        !(*v matches Value::Number(_)) ==> r is Err,
{
    match v {
        Value::Number(n) => {
            if *n >= 0 && (*n as u64) <= (usize::MAX as u64) {
                Ok(*n as usize)
            } else {
                Err(
                    RuntimeError::ValueError {
                        message: "a non-negative size was expected".to_owned(),
                    },
                )
            }
        },
        other => Err(
            RuntimeError::TypeError { expected: "a Number".to_owned(), got: other.kind_name() },
        ),
    }
}

fn wrap(it: KIterator) -> (r: Value)
    ensures
        r matches Value::Iterator(b) && *b == it,
{
    Value::Iterator(Box::new(it))
}


/// What the dispatcher owes per operation, over the instance value as it
/// stood before the call: with well-typed arguments the result is the
/// named verified operation's result. The comparisons and the adaptors
/// that take a callable hand a duplicate of it on, so their outcome is
/// pinned by the operations' own contracts rather than restated here;
/// for them, and for every other iterator-building operation, a
/// successful result is an iterator handle.
pub open spec fn op_result_ok(
    op: IteratorOp,
    pre: Value,
    args: Seq<Value>,
    r: Result<Value, RuntimeError>,
) -> bool {
    let rem = crate::iter::iterable_rem(pre);
    let s = rem->Some_0;
    let vals = crate::ops::outs_values(s);
    let fits = rem is Some && s.len() < crate::ops::EAGER_BUDGET;
    let clean = crate::ops::all_ok(s);
    match op {
        IteratorOp::ToList => args.len() == 0 && fits ==> match r {
            Ok(v) => clean && crate::value::vview(v) == crate::value::VV::List(vals),
            Err(_) => !clean,
        },
        IteratorOp::ToTuple => args.len() == 0 && fits ==> match r {
            Ok(v) => clean && crate::value::vview(v) == crate::value::VV::Tuple(vals),
            Err(_) => !clean,
        },
        IteratorOp::ToMap => args.len() == 0 && fits ==> match r {
            Ok(v) => clean && crate::value::vview(v) == crate::value::VV::MapVal(
                crate::ops::to_map_spec(s, Seq::empty()),
            ),
            Err(_) => !clean,
        },
        IteratorOp::ToString => args.len() == 0 && fits && clean ==> match r {
            Ok(v) => crate::ops::to_string_spec(vals) == Some(crate::value::vview(v)->Str_0)
                && crate::value::vview(v) is Str,
            Err(_) => crate::ops::to_string_spec(vals) is None,
        },
        IteratorOp::Count => args.len() == 0 && fits ==> match r {
            Ok(v) => clean && crate::value::vview(v) == crate::value::VV::Int(s.len() as int),
            Err(_) => !clean,
        },
        IteratorOp::Consume => args.len() == 0 && fits ==> match r {
            Ok(v) => clean && crate::value::vview(v) == crate::value::VV::Null,
            Err(_) => !clean,
        },
        IteratorOp::Last => args.len() == 0 && fits ==> match r {
            Ok(v) => clean && crate::value::vview(v) == if s.len() == 0 {
                crate::value::VV::Null
            } else {
                vals.last()
            },
            Err(_) => !clean,
        },
        IteratorOp::All => match args[0] {
            Value::Function(f) => args.len() == 1 && fits ==> match crate::ops::scan_spec(
                s,
                f,
                false,
            ) {
                crate::ops::ScanRes::Hit(_, _) => r == Result::<Value, RuntimeError>::Ok(
                    Value::Bool(false),
                ),
                crate::ops::ScanRes::Miss => r == Result::<Value, RuntimeError>::Ok(
                    Value::Bool(true),
                ),
                crate::ops::ScanRes::Fail => r is Err,
            },
            _ => true,
        },
        IteratorOp::Any => match args[0] {
            Value::Function(f) => args.len() == 1 && fits ==> match crate::ops::scan_spec(
                s,
                f,
                true,
            ) {
                crate::ops::ScanRes::Hit(_, _) => r == Result::<Value, RuntimeError>::Ok(
                    Value::Bool(true),
                ),
                crate::ops::ScanRes::Miss => r == Result::<Value, RuntimeError>::Ok(
                    Value::Bool(false),
                ),
                crate::ops::ScanRes::Fail => r is Err,
            },
            _ => true,
        },
        IteratorOp::Find => match args[0] {
            Value::Function(f) => args.len() == 1 && fits ==> match crate::ops::scan_spec(
                s,
                f,
                true,
            ) {
                crate::ops::ScanRes::Hit(_, w) => r matches Ok(v) && crate::value::vview(v) == w,
                crate::ops::ScanRes::Miss => r matches Ok(v) && crate::value::vview(v)
                    == crate::value::VV::Null,
                crate::ops::ScanRes::Fail => r is Err,
            },
            _ => true,
        },
        IteratorOp::Position => match args[0] {
            Value::Function(f) => args.len() == 1 && fits ==> match crate::ops::scan_spec(
                s,
                f,
                true,
            ) {
                crate::ops::ScanRes::Hit(i, _) => r matches Ok(v) && crate::value::vview(v)
                    == crate::value::VV::Int(i),
                crate::ops::ScanRes::Miss => r matches Ok(v) && crate::value::vview(v)
                    == crate::value::VV::Null,
                crate::ops::ScanRes::Fail => r is Err,
            },
            _ => true,
        },
        IteratorOp::Fold => args.len() == 2 ==> match args[1] {
            Value::Function(f) => fits && clean ==> match r {
                Ok(v) => crate::ops::fold_spec(vals, crate::value::vview(args[0]), f) == Some(
                    crate::value::vview(v),
                ),
                Err(_) => crate::ops::fold_spec(vals, crate::value::vview(args[0]), f) is None,
            },
            _ => true,
        },
        IteratorOp::Sum => (args.len() == 0 || args.len() == 1) ==> ({
            let init = if args.len() == 1 {
                crate::value::vview(args[0])
            } else {
                crate::value::VV::Int(0)
            };
            fits && clean ==> match r {
                Ok(v) => crate::ops::reduce_spec(vals, init, crate::expr::BinaryOp::Add) == Some(
                    crate::value::vview(v),
                ),
                Err(_) => crate::ops::reduce_spec(vals, init, crate::expr::BinaryOp::Add) is None,
            }
        }),
        IteratorOp::Product => (args.len() == 0 || args.len() == 1) ==> ({
            let init = if args.len() == 1 {
                crate::value::vview(args[0])
            } else {
                crate::value::VV::Int(1)
            };
            fits && clean ==> match r {
                Ok(v) => crate::ops::reduce_spec(vals, init, crate::expr::BinaryOp::Multiply)
                    == Some(crate::value::vview(v)),
                Err(_) => crate::ops::reduce_spec(vals, init, crate::expr::BinaryOp::Multiply)
                    is None,
            }
        }),
        IteratorOp::NextOp => args.len() == 0 && crate::iter::is_iterable_spec(pre) && rem
            is Some ==> if s.len() == 0 {
            r == Result::<Value, RuntimeError>::Ok(Value::Null)
        } else if s[0] is Fail {
            r is Err
        } else {
            r is Ok && crate::value::vview(r->Ok_0) == crate::iter::rem_val(
                crate::iter::rem_collapse(s[0]),
            )
        },
        IteratorOp::Min => true,
        IteratorOp::Max => true,
        IteratorOp::MinMax => true,
        IteratorOp::NextBack => true,
        _ => r matches Ok(v) ==> v matches Value::Iterator(_),
    }
}

/// Runs a named operation: the iterable comes in instance position (the
/// generators take everything among the arguments), the arguments are
/// checked for arity and type, and the verified operation behind the
/// name does the work. A `next` or `next_back` on an iterator handle in
/// instance position advances that handle in place.
pub fn call_iterator_op(op: IteratorOp, instance: &mut Value, args: &Vec<Value>) -> (r: Result<
    Value,
    RuntimeError,
>)
    ensures
        !op_arity_ok(op, args@.len() as int) ==> (r matches Err(
            RuntimeError::ArityError { .. },
        )),
        r is Ok ==> op_arity_ok(op, args@.len() as int),
        (op_wants_function(op) && args@.len() == 1 && !(args@[0] matches Value::Function(_)))
            ==> r is Err,
        (op_wants_size(op) && args@.len() == 1 && !(args@[0] matches Value::Number(_))) ==> r
            is Err,
        op_result_ok(op, *old(instance), args@, r),
{
    match op {
        IteratorOp::All => {
            if args.len() != 1 {
                return Err(arity_error(1, args.len()));
            }
            match &args[0] {
                Value::Function(f) => crate::ops::all(instance, f),
                other => Err(
                    RuntimeError::TypeError {
                        expected: "a Function".to_owned(),
                        got: other.kind_name(),
                    },
                ),
            }
        },
        IteratorOp::Any => {
            if args.len() != 1 {
                return Err(arity_error(1, args.len()));
            }
            match &args[0] {
                Value::Function(f) => crate::ops::any(instance, f),
                other => Err(
                    RuntimeError::TypeError {
                        expected: "a Function".to_owned(),
                        got: other.kind_name(),
                    },
                ),
            }
        },
        IteratorOp::Chain => {
            if args.len() != 1 {
                return Err(arity_error(1, args.len()));
            }
            Ok(wrap(crate::ops::chain(instance, &args[0])?))
        },
        IteratorOp::Chunks => {
            if args.len() != 1 {
                return Err(arity_error(1, args.len()));
            }
            let n = want_size(&args[0])?;
            Ok(wrap(crate::ops::chunks(instance, n)?))
        },
        IteratorOp::Consume => {
            if args.len() != 0 {
                return Err(arity_error(0, args.len()));
            }
            crate::ops::consume(instance)
        },
        IteratorOp::Count => {
            if args.len() != 0 {
                return Err(arity_error(0, args.len()));
            }
            crate::ops::count(instance)
        },
        IteratorOp::Cycle => {
            if args.len() != 0 {
                return Err(arity_error(0, args.len()));
            }
            Ok(wrap(crate::ops::cycle(instance)?))
        },
        IteratorOp::Each => {
            if args.len() != 1 {
                return Err(arity_error(1, args.len()));
            }
            let f = want_function(&args[0])?;
            Ok(wrap(crate::ops::each(instance, f)?))
        },
        IteratorOp::Enumerate => {
            if args.len() != 0 {
                return Err(arity_error(0, args.len()));
            }
            Ok(wrap(crate::ops::enumerate(instance)?))
        },
        IteratorOp::Find => {
            if args.len() != 1 {
                return Err(arity_error(1, args.len()));
            }
            match &args[0] {
                Value::Function(f) => crate::ops::find(instance, f),
                other => Err(
                    RuntimeError::TypeError {
                        expected: "a Function".to_owned(),
                        got: other.kind_name(),
                    },
                ),
            }
        },
        IteratorOp::Flatten => {
            if args.len() != 0 {
                return Err(arity_error(0, args.len()));
            }
            Ok(wrap(crate::ops::flatten(instance)?))
        },
        IteratorOp::Fold => {
            if args.len() != 2 {
                return Err(arity_error(2, args.len()));
            }
            let init = value_clone(&args[0]);
            proof {
                crate::value::lemma_veq_views(args@[0], init);
            }
            match &args[1] {
                Value::Function(f) => crate::ops::fold(instance, init, f),
                other => Err(
                    RuntimeError::TypeError {
                        expected: "a Function".to_owned(),
                        got: other.kind_name(),
                    },
                ),
            }
        },
        IteratorOp::Generate => {
            if args.len() == 1 {
                let f = want_function(&args[0])?;
                Ok(generate_op(f, None))
            } else if args.len() == 2 {
                let n = want_size(&args[0])?;
                let f = want_function(&args[1])?;
                Ok(generate_op(f, Some(n)))
            } else {
                Err(arity_error(1, args.len()))
            }
        },
        IteratorOp::Intersperse => {
            if args.len() != 1 {
                return Err(arity_error(1, args.len()));
            }
            match &args[0] {
                Value::Function(f) => Ok(
                    wrap(crate::ops::intersperse_with(instance, f.duplicate())?),
                ),
                other => Ok(wrap(crate::ops::intersperse(instance, value_clone(other))?)),
            }
        },
        IteratorOp::Iter => {
            if args.len() != 0 {
                return Err(arity_error(0, args.len()));
            }
            Ok(wrap(crate::iter::make_iterator(instance)?))
        },
        IteratorOp::Keep => {
            if args.len() != 1 {
                return Err(arity_error(1, args.len()));
            }
            let f = want_function(&args[0])?;
            Ok(wrap(crate::ops::keep(instance, f)?))
        },
        IteratorOp::Last => {
            if args.len() != 0 {
                return Err(arity_error(0, args.len()));
            }
            crate::ops::last(instance)
        },
        IteratorOp::Max => {
            if args.len() == 0 {
                crate::ops::max(instance, None)
            } else if args.len() == 1 {
                let f = want_function(&args[0])?;
                crate::ops::max(instance, Some(f))
            } else {
                Err(arity_error(1, args.len()))
            }
        },
        IteratorOp::Min => {
            if args.len() == 0 {
                crate::ops::min(instance, None)
            } else if args.len() == 1 {
                let f = want_function(&args[0])?;
                crate::ops::min(instance, Some(f))
            } else {
                Err(arity_error(1, args.len()))
            }
        },
        IteratorOp::MinMax => {
            if args.len() == 0 {
                crate::ops::min_max(instance, None)
            } else if args.len() == 1 {
                let f = want_function(&args[0])?;
                crate::ops::min_max(instance, Some(f))
            } else {
                Err(arity_error(1, args.len()))
            }
        },
        IteratorOp::NextOp => {
            if args.len() != 0 {
                return Err(arity_error(0, args.len()));
            }
            match instance {
                Value::Iterator(it) => crate::ops::op_next(it),
                other => {
                    let mut it = crate::iter::make_iterator(other)?;
                    crate::ops::op_next(&mut it)
                },
            }
        },
        IteratorOp::NextBack => {
            if args.len() != 0 {
                return Err(arity_error(0, args.len()));
            }
            match instance {
                Value::Iterator(it) => crate::ops::op_next_back(it),
                other => {
                    let mut it = crate::iter::make_iterator(other)?;
                    crate::ops::op_next_back(&mut it)
                },
            }
        },
        IteratorOp::Peekable => {
            if args.len() != 0 {
                return Err(arity_error(0, args.len()));
            }
            Ok(wrap(crate::ops::peekable(instance)?))
        },
        IteratorOp::Position => {
            if args.len() != 1 {
                return Err(arity_error(1, args.len()));
            }
            match &args[0] {
                Value::Function(f) => crate::ops::position(instance, f),
                other => Err(
                    RuntimeError::TypeError {
                        expected: "a Function".to_owned(),
                        got: other.kind_name(),
                    },
                ),
            }
        },
        IteratorOp::Product => {
            if args.len() == 0 {
                crate::ops::product(instance, None)
            } else if args.len() == 1 {
                let init = value_clone(&args[0]);
                proof {
                    crate::value::lemma_veq_views(args@[0], init);
                }
                crate::ops::product(instance, Some(init))
            } else {
                Err(arity_error(1, args.len()))
            }
        },
        IteratorOp::Repeat => {
            if args.len() == 1 {
                Ok(repeat_op(value_clone(&args[0]), None))
            } else if args.len() == 2 {
                let n = want_size(&args[1])?;
                Ok(repeat_op(value_clone(&args[0]), Some(n)))
            } else {
                Err(arity_error(1, args.len()))
            }
        },
        IteratorOp::Reversed => {
            if args.len() != 0 {
                return Err(arity_error(0, args.len()));
            }
            Ok(wrap(crate::ops::reversed(instance)?))
        },
        IteratorOp::Skip => {
            if args.len() != 1 {
                return Err(arity_error(1, args.len()));
            }
            let n = want_size(&args[0])?;
            Ok(wrap(crate::ops::skip(instance, n)?))
        },
        IteratorOp::Sum => {
            if args.len() == 0 {
                crate::ops::sum(instance, None)
            } else if args.len() == 1 {
                let init = value_clone(&args[0]);
                proof {
                    crate::value::lemma_veq_views(args@[0], init);
                }
                crate::ops::sum(instance, Some(init))
            } else {
                Err(arity_error(1, args.len()))
            }
        },
        IteratorOp::Take => {
            if args.len() != 1 {
                return Err(arity_error(1, args.len()));
            }
            let n = want_size(&args[0])?;
            Ok(wrap(crate::ops::take(instance, n)?))
        },
        IteratorOp::ToList => {
            if args.len() != 0 {
                return Err(arity_error(0, args.len()));
            }
            crate::ops::to_list(instance)
        },
        IteratorOp::ToMap => {
            if args.len() != 0 {
                return Err(arity_error(0, args.len()));
            }
            crate::ops::to_map(instance)
        },
        IteratorOp::ToString => {
            if args.len() != 0 {
                return Err(arity_error(0, args.len()));
            }
            crate::ops::to_string(instance)
        },
        IteratorOp::ToTuple => {
            if args.len() != 0 {
                return Err(arity_error(0, args.len()));
            }
            crate::ops::to_tuple(instance)
        },
        IteratorOp::Windows => {
            if args.len() != 1 {
                return Err(arity_error(1, args.len()));
            }
            let n = want_size(&args[0])?;
            Ok(wrap(crate::ops::windows(instance, n)?))
        },
        IteratorOp::Zip => {
            if args.len() != 1 {
                return Err(arity_error(1, args.len()));
            }
            Ok(wrap(crate::ops::zip(instance, &args[0])?))
        },
    }
}

/// The generator that repeats a value, forever or a bounded number of
/// times, wrapped as an iterator value.
pub fn repeat_op(value: Value, n: Option<usize>) -> (r: Value)
    ensures
        r matches Value::Iterator(it) && match n {
            Some(count) => crate::iter::iter_rem(*it) == Some(
                Seq::new(count as nat, |i: int| crate::iter::RemOut::Val(crate::value::vview(
                    value,
                ))),
            ),
            None => *it == (KIterator::Repeat { value }),
        },
{
    match n {
        Some(n) => wrap(crate::ops::repeat_n(value, n)),
        None => wrap(crate::ops::repeat(value)),
    }
}

/// The generator that invokes a callable, forever or a bounded number of
/// times, wrapped as an iterator value.
pub fn generate_op(f: KFunction, n: Option<usize>) -> (r: Value)
    ensures
        r matches Value::Iterator(it) && match n {
            Some(count) => crate::iter::iter_rem(*it) == Some(
                Seq::new(count as nat, |i: int| crate::iter::gen_out(f)),
            ),
            None => *it == (KIterator::Generate { function: f }),
        },
{
    match n {
        Some(n) => wrap(crate::ops::generate_n(n, f)),
        None => wrap(crate::ops::generate(f)),
    }
}

} // verus!
