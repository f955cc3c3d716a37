//! The abstract syntax tree's node type and its satellite types. Nodes
//! reference their children by arena index, never by owned pointer.

use vstd::prelude::*;

verus! {

/// An index into the AST arena.
pub type AstIndex = u32;

/// An index into the constant pool.
pub type ConstantIndex = u32;

/// Whether an assignment writes a local or an exported global.
#[derive(Debug, Clone, Copy, PartialEq, Eq, Structural)]
pub enum Scope {
    Local,
    Global,
}

/// One assignment target: the node it writes and its scope.
#[derive(Debug, Clone, Copy, PartialEq, Eq, Structural)]
pub struct AssignTarget {
    pub target_index: AstIndex,
    pub scope: Scope,
}

/// The operator of an assignment.
#[derive(Debug, Clone, Copy, PartialEq, Eq, Structural)]
pub enum AssignOp {
    Equal,
    Add,
    Subtract,
    Multiply,
    Divide,
    Modulo,
}

/// A binary operator node's operator.
#[derive(Debug, Clone, Copy, PartialEq, Eq, Structural)]
pub enum AstOp {
    Add,
    Subtract,
    Multiply,
    Divide,
    Modulo,
    Equal,
    NotEqual,
    Greater,
    GreaterOrEqual,
    Less,
    LessOrEqual,
    And,
    Or,
}

/// One step of a lookup chain: the root expression, then any mix of
/// member accesses, index accesses, and calls.
#[derive(Debug, PartialEq)]
pub enum LookupNode {
    Root(AstIndex),
    Id(ConstantIndex),
    Index(AstIndex),
    Call(Vec<AstIndex>),
}

/// A function node: arguments, locality analysis results, body, and
/// whether the body yields.
#[derive(Debug, PartialEq)]
pub struct Function {
    pub args: Vec<ConstantIndex>,
    pub local_count: usize,
    pub accessed_non_locals: Vec<ConstantIndex>,
    pub body: AstIndex,
    pub is_generator: bool,
}

/// A for loop: its loop arguments, range expressions, optional condition,
/// and body.
#[derive(Debug, PartialEq)]
pub struct AstFor {
    pub args: Vec<ConstantIndex>,
    pub ranges: Vec<AstIndex>,
    pub condition: Option<AstIndex>,
    pub body: AstIndex,
}

/// An if expression: condition, then-branch, else-if chain, and optional
/// else branch.
#[derive(Debug, PartialEq)]
pub struct AstIf {
    pub condition: AstIndex,
    pub then_node: AstIndex,
    pub else_if_blocks: Vec<(AstIndex, AstIndex)>,
    pub else_node: Option<AstIndex>,
}

/// A try expression: the guarded block, the catch binding and block, and
/// an optional finally block.
#[derive(Debug, PartialEq)]
pub struct AstTry {
    pub try_block: AstIndex,
    pub catch_arg: ConstantIndex,
    pub catch_block: AstIndex,
    pub finally_block: Option<AstIndex>,
}

/// One arm of a match expression: alternative patterns, an optional
/// guard, and the arm's expression.
#[derive(Debug, PartialEq)]
pub struct MatchArm {
    pub patterns: Vec<AstIndex>,
    pub condition: Option<AstIndex>,
    pub expression: AstIndex,
}

/// An AST node.
#[derive(Debug, PartialEq)]
pub enum Node {
    BoolTrue,
    BoolFalse,
    Number0,
    Number1,
    Number(ConstantIndex),
    Str(ConstantIndex),
    Id(ConstantIndex),
    Empty,
    Wildcard,
    List(Vec<AstIndex>),
    MapNode(Vec<(ConstantIndex, Option<AstIndex>)>),
    Range { start: AstIndex, end: AstIndex, inclusive: bool },
    RangeFrom { start: AstIndex },
    RangeTo { end: AstIndex, inclusive: bool },
    RangeFull,
    Num2(Vec<AstIndex>),
    Num4(Vec<AstIndex>),
    Negate(AstIndex),
    TypeOf(AstIndex),
    CopyExpression(AstIndex),
    Expressions(Vec<AstIndex>),
    Block(Vec<AstIndex>),
    MainBlock { body: Vec<AstIndex>, local_count: usize },
    Function(Function),
    Call { function: AstIndex, args: Vec<AstIndex> },
    Lookup(Vec<LookupNode>),
    BinaryOp { op: AstOp, lhs: AstIndex, rhs: AstIndex },
    If(AstIf),
    Match { expression: AstIndex, arms: Vec<MatchArm> },
    For(AstFor),
    Loop { body: AstIndex },
    While { condition: AstIndex, body: AstIndex },
    Until { condition: AstIndex, body: AstIndex },
    Assign { target: AssignTarget, op: AssignOp, expression: AstIndex },
    MultiAssign { targets: Vec<AssignTarget>, expressions: AstIndex },
    Return,
    ReturnExpression(AstIndex),
    Break,
    Continue,
    Yield(AstIndex),
    Debug { expression_string: ConstantIndex, expression: AstIndex },
    Import { from: Vec<ConstantIndex>, items: Vec<Vec<ConstantIndex>> },
    Try(AstTry),
}

/// Whether every child index a node holds lies below the given bound.
/// Since children are always pushed before their parent, a well-formed
/// arena node references only nodes before itself.
pub open spec fn node_children_below(n: Node, bound: int) -> bool {
    match n {
        Node::List(xs) => forall|i: int| 0 <= i < xs@.len() ==> (#[trigger] xs@[i]) < bound,
        Node::MapNode(entries) => forall|i: int|
            0 <= i < entries@.len() ==> match (#[trigger] entries@[i]).1 {
                Some(v) => v < bound,
                None => true,
            },
        Node::Range { start, end, .. } => start < bound && end < bound,
        Node::RangeFrom { start } => start < bound,
        Node::RangeTo { end, .. } => end < bound,
        Node::Num2(xs) => forall|i: int| 0 <= i < xs@.len() ==> (#[trigger] xs@[i]) < bound,
        Node::Num4(xs) => forall|i: int| 0 <= i < xs@.len() ==> (#[trigger] xs@[i]) < bound,
        Node::Negate(x) => x < bound,
        Node::TypeOf(x) => x < bound,
        Node::CopyExpression(x) => x < bound,
        Node::Expressions(xs) => forall|i: int| 0 <= i < xs@.len() ==> (#[trigger] xs@[i]) < bound,
        Node::Block(xs) => forall|i: int| 0 <= i < xs@.len() ==> (#[trigger] xs@[i]) < bound,
        Node::MainBlock { body, .. } => forall|i: int|
            0 <= i < body@.len() ==> (#[trigger] body@[i]) < bound,
        Node::Function(f) => f.body < bound,
        Node::Call { function, args } => function < bound && (forall|i: int|
            0 <= i < args@.len() ==> (#[trigger] args@[i]) < bound),
        Node::Lookup(steps) => forall|i: int|
            0 <= i < steps@.len() ==> match #[trigger] steps@[i] {
                LookupNode::Root(x) => x < bound,
                LookupNode::Id(_) => true,
                LookupNode::Index(x) => x < bound,
                LookupNode::Call(args) => forall|j: int|
                    0 <= j < args@.len() ==> (#[trigger] args@[j]) < bound,
            },
        Node::BinaryOp { lhs, rhs, .. } => lhs < bound && rhs < bound,
        Node::If(f) => f.condition < bound && f.then_node < bound && (forall|i: int|
            0 <= i < f.else_if_blocks@.len() ==> (#[trigger] f.else_if_blocks@[i]).0 < bound
                && f.else_if_blocks@[i].1 < bound) && (match f.else_node {
            Some(e) => e < bound,
            None => true,
        }),
        Node::Match { expression, arms } => expression < bound && (forall|i: int|
            0 <= i < arms@.len() ==> {
                let arm = #[trigger] arms@[i];
                &&& (forall|j: int| 0 <= j < arm.patterns@.len() ==> (#[trigger] arm.patterns@[j])
                    < bound)
                &&& (match arm.condition {
                    Some(c) => c < bound,
                    None => true,
                })
                &&& arm.expression < bound
            }),
        Node::For(f) => f.body < bound && (forall|i: int|
            0 <= i < f.ranges@.len() ==> (#[trigger] f.ranges@[i]) < bound) && (match f.condition {
            Some(c) => c < bound,
            None => true,
        }),
        Node::Loop { body } => body < bound,
        Node::While { condition, body } => condition < bound && body < bound,
        Node::Until { condition, body } => condition < bound && body < bound,
        Node::Assign { target, expression, .. } => target.target_index < bound && expression
            < bound,
        Node::MultiAssign { targets, expressions } => expressions < bound && (forall|i: int|
            0 <= i < targets@.len() ==> (#[trigger] targets@[i]).target_index < bound),
        Node::ReturnExpression(x) => x < bound,
        Node::Yield(x) => x < bound,
        Node::Debug { expression, .. } => expression < bound,
        Node::Try(t) => t.try_block < bound && t.catch_block < bound && (match t.finally_block {
            Some(f) => f < bound,
            None => true,
        }),
        _ => true,
    }
}

fn indices_below(xs: &Vec<AstIndex>, bound: u32) -> (r: bool)
    ensures
        r == forall|i: int| 0 <= i < xs@.len() ==> (#[trigger] xs@[i]) < bound,
{
    let n = xs.len();
    for i in 0..n
        invariant
            n == xs.len(),
            forall|j: int| 0 <= j < i ==> (#[trigger] xs@[j]) < bound,
        decreases n - i,
    {
        if xs[i] >= bound {
            return false;
        }
    }
    true
}

fn opt_below(x: &Option<AstIndex>, bound: u32) -> (r: bool)
    ensures
        r == match *x {
            Some(v) => v < bound,
            None => true,
        },
{
    match x {
        Some(v) => *v < bound,
        None => true,
    }
}

/// Checks at run time that a node's children all lie below a bound.
#[verifier::loop_isolation(false)]
pub fn check_node_children(n: &Node, bound: u32) -> (r: bool)
    ensures
        r == node_children_below(*n, bound as int),
{
    match n {
        Node::List(xs) => indices_below(xs, bound),
        Node::MapNode(entries) => {
            let m = entries.len();
            for i in 0..m
                invariant
                    m == entries.len(),
                    forall|j: int|
                        0 <= j < i ==> match (#[trigger] entries@[j]).1 {
                            Some(v) => v < bound,
                            None => true,
                        },
                decreases m - i,
            {
                match entries[i].1 {
                    Some(v) => {
                        if v >= bound {
                            return false;
                        }
                    },
                    None => {},
                }
            }
            true
        },
        Node::Range { start, end, .. } => *start < bound && *end < bound,
        Node::RangeFrom { start } => *start < bound,
        Node::RangeTo { end, .. } => *end < bound,
        Node::Num2(xs) => indices_below(xs, bound),
        Node::Num4(xs) => indices_below(xs, bound),
        Node::Negate(x) => *x < bound,
        Node::TypeOf(x) => *x < bound,
        Node::CopyExpression(x) => *x < bound,
        Node::Expressions(xs) => indices_below(xs, bound),
        Node::Block(xs) => indices_below(xs, bound),
        Node::MainBlock { body, .. } => indices_below(body, bound),
        Node::Function(f) => f.body < bound,
        Node::Call { function, args } => *function < bound && indices_below(args, bound),
        Node::Lookup(steps) => {
            let m = steps.len();
            for i in 0..m
                invariant
                    m == steps.len(),
                    forall|j: int|
                        0 <= j < i ==> match #[trigger] steps@[j] {
                            LookupNode::Root(x) => x < bound,
                            LookupNode::Id(_) => true,
                            LookupNode::Index(x) => x < bound,
                            LookupNode::Call(args) => forall|k: int|
                                0 <= k < args@.len() ==> (#[trigger] args@[k]) < bound,
                        },
                decreases m - i,
            {
                match &steps[i] {
                    LookupNode::Root(x) => {
                        if *x >= bound {
                            return false;
                        }
                    },
                    LookupNode::Id(_) => {},
                    LookupNode::Index(x) => {
                        if *x >= bound {
                            return false;
                        }
                    },
                    LookupNode::Call(args) => {
                        if !indices_below(args, bound) {
                            return false;
                        }
                    },
                }
            }
            true
        },
        Node::BinaryOp { lhs, rhs, .. } => *lhs < bound && *rhs < bound,
        Node::If(f) => {
            if !(f.condition < bound && f.then_node < bound && opt_below(&f.else_node, bound)) {
                return false;
            }
            let m = f.else_if_blocks.len();
            for i in 0..m
                invariant
                    m == f.else_if_blocks.len(),
                    forall|j: int|
                        0 <= j < i ==> (#[trigger] f.else_if_blocks@[j]).0 < bound
                            && f.else_if_blocks@[j].1 < bound,
                decreases m - i,
            {
                if f.else_if_blocks[i].0 >= bound || f.else_if_blocks[i].1 >= bound {
                    return false;
                }
            }
            true
        },
        Node::Match { expression, arms } => {
            if *expression >= bound {
                return false;
            }
            let m = arms.len();
            for i in 0..m
                invariant
                    m == arms.len(),
                    forall|j: int|
                        0 <= j < i ==> {
                            let arm = #[trigger] arms@[j];
                            &&& (forall|k: int|
                                0 <= k < arm.patterns@.len() ==> (#[trigger] arm.patterns@[k])
                                    < bound)
                            &&& (match arm.condition {
                                Some(c) => c < bound,
                                None => true,
                            })
                            &&& arm.expression < bound
                        },
                decreases m - i,
            {
                if !indices_below(&arms[i].patterns, bound) {
                    return false;
                }
                if !opt_below(&arms[i].condition, bound) {
                    return false;
                }
                if arms[i].expression >= bound {
                    return false;
                }
            }
            true
        },
        Node::For(f) => f.body < bound && indices_below(&f.ranges, bound) && opt_below(
            &f.condition,
            bound,
        ),
        Node::Loop { body } => *body < bound,
        Node::While { condition, body } => *condition < bound && *body < bound,
        Node::Until { condition, body } => *condition < bound && *body < bound,
        Node::Assign { target, expression, .. } => target.target_index < bound && *expression
            < bound,
        Node::MultiAssign { targets, expressions } => {
            if *expressions >= bound {
                return false;
            }
            let m = targets.len();
            for i in 0..m
                invariant
                    m == targets.len(),
                    forall|j: int| 0 <= j < i ==> (#[trigger] targets@[j]).target_index < bound,
                decreases m - i,
            {
                if targets[i].target_index >= bound {
                    return false;
                }
            }
            true
        },
        Node::ReturnExpression(x) => *x < bound,
        Node::Yield(x) => *x < bound,
        Node::Debug { expression, .. } => *expression < bound,
        Node::Try(t) => t.try_block < bound && t.catch_block < bound && opt_below(
            &t.finally_block,
            bound,
        ),
        _ => true,
    }
}

} // verus!
