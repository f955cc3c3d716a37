//! The parser on concrete sources: literals, collections, ranges,
//! operators with their precedence, assignments, control flow, functions
//! with their locality analysis, and imports.

use koto_core::constants::{Constant, ConstantPool, KNumber};
use koto_core::node::{
    AssignOp, AssignTarget, AstFor, AstIf, AstOp, AstTry, Function, LookupNode, MatchArm, Node,
    Scope,
};
use koto_core::parser::Parser;

fn cstr(s: &str) -> Constant {
    Constant::Str(s.to_string())
}

fn cnum(s: &str) -> Constant {
    Constant::Number(KNumber::from_decimal_str(s).expect("a decimal literal"))
}

fn parse_ok(source: &str) -> (koto_core::ast::Ast, ConstantPool) {
    match Parser::parse(source) {
        Ok(p) => p,
        Err(e) => panic!("parse failed: {:?}", e),
    }
}

fn check_ast(source: &str, expected: &[Node], expected_constants: Option<&[Constant]>) {
    let (ast, constants) = parse_ok(source);
    for i in 0..expected.len().min(ast.len()) {
        let row = ast.node(i as u32).unwrap();
        assert_eq!(row.node, expected[i], "node mismatch at position {}", i);
    }
    assert_eq!(ast.len(), expected.len(), "node list length mismatch");
    if let Some(expected_constants) = expected_constants {
        for i in 0..expected_constants.len().min(constants.len()) {
            assert_eq!(
                constants.get(i).unwrap(),
                &expected_constants[i],
                "constant mismatch at {}",
                i
            );
        }
        assert_eq!(constants.len(), expected_constants.len(), "constant count mismatch");
    }
}

#[test]
fn literals() {
    let source = "
true
false
1
1.5
\"hello\"
a
()";
    check_ast(
        source,
        &[
            Node::BoolTrue,
            Node::BoolFalse,
            Node::Number1,
            Node::Number(0),
            Node::Str(1),
            Node::Id(2),
            Node::Empty,
            Node::MainBlock { body: vec![0, 1, 2, 3, 4, 5, 6], local_count: 0 },
        ],
        Some(&[cnum("1.5"), cstr("hello"), cstr("a")]),
    )
}

#[test]
fn negatives() {
    let source = "\
-12.0
-a
-x[0]
-(1 + 1)";
    check_ast(
        source,
        &[
            Node::Number(0),
            Node::Id(1),
            Node::Negate(1),
            Node::Id(2),
            Node::Number0,
            Node::Lookup(vec![LookupNode::Root(3), LookupNode::Index(4)]),
            Node::Negate(5),
            Node::Number1,
            Node::Number1,
            Node::BinaryOp { op: AstOp::Add, lhs: 7, rhs: 8 },
            Node::Negate(9),
            Node::MainBlock { body: vec![0, 2, 6, 10], local_count: 0 },
        ],
        Some(&[cnum("-12.0"), cstr("a"), cstr("x")]),
    )
}

#[test]
fn list() {
    let source = "[0 n \"test\" n -1]";
    check_ast(
        source,
        &[
            Node::Number0,
            Node::Id(0),
            Node::Str(1),
            Node::Id(0),
            Node::Number(2),
            Node::List(vec![0, 1, 2, 3, 4]),
            Node::MainBlock { body: vec![5], local_count: 0 },
        ],
        Some(&[cstr("n"), cstr("test"), cnum("-1")]),
    )
}

#[test]
fn list_with_line_breaks() {
    let source = "\
x = [
  0
  1 0 1
  0
]";
    check_ast(
        source,
        &[
            Node::Id(0),
            Node::Number0,
            Node::Number1,
            Node::Number0,
            Node::Number1,
            Node::Number0,
            Node::List(vec![1, 2, 3, 4, 5]),
            Node::Assign {
                target: AssignTarget { target_index: 0, scope: Scope::Local },
                op: AssignOp::Equal,
                expression: 6,
            },
            Node::MainBlock { body: vec![7], local_count: 1 },
        ],
        Some(&[cstr("x")]),
    )
}

#[test]
fn map_inline() {
    let source = "
{}
{\"foo\": 42, bar, baz: \"hello\"}";
    check_ast(
        source,
        &[
            Node::MapNode(vec![]),
            Node::Number(1),
            Node::Str(4),
            Node::MapNode(vec![(0, Some(1)), (2, None), (3, Some(2))]),
            Node::MainBlock { body: vec![0, 3], local_count: 0 },
        ],
        Some(&[cstr("foo"), cnum("42"), cstr("bar"), cstr("baz"), cstr("hello")]),
    )
}

#[test]
fn map_block() {
    let source = "
x =
  foo: 42
  bar
  \"baz\":
    foo: 0
x";
    check_ast(
        source,
        &[
            Node::Id(0),
            Node::Number(2),
            Node::Number0,
            Node::MapNode(vec![(1, Some(2))]),
            Node::MapNode(vec![(1, Some(1)), (3, None), (4, Some(3))]),
            Node::Assign {
                target: AssignTarget { target_index: 0, scope: Scope::Local },
                op: AssignOp::Equal,
                expression: 4,
            },
            Node::Id(0),
            Node::MainBlock { body: vec![5, 6], local_count: 1 },
        ],
        Some(&[cstr("x"), cstr("foo"), cnum("42"), cstr("bar"), cstr("baz")]),
    )
}

#[test]
fn ranges() {
    let source = "\
0..1
0..=1
(0 + 1)..(1 + 1)
foo.bar..foo.baz";
    check_ast(
        source,
        &[
            Node::Number0,
            Node::Number1,
            Node::Range { start: 0, end: 1, inclusive: false },
            Node::Number0,
            Node::Number1,
            Node::Range { start: 3, end: 4, inclusive: true },
            Node::Number0,
            Node::Number1,
            Node::BinaryOp { op: AstOp::Add, lhs: 6, rhs: 7 },
            Node::Number1,
            Node::Number1,
            Node::BinaryOp { op: AstOp::Add, lhs: 9, rhs: 10 },
            Node::Range { start: 8, end: 11, inclusive: false },
            Node::Id(0),
            Node::Lookup(vec![LookupNode::Root(13), LookupNode::Id(1)]),
            Node::Id(0),
            Node::Lookup(vec![LookupNode::Root(15), LookupNode::Id(2)]),
            Node::Range { start: 14, end: 16, inclusive: false },
            Node::MainBlock { body: vec![2, 5, 12, 17], local_count: 0 },
        ],
        Some(&[cstr("foo"), cstr("bar"), cstr("baz")]),
    )
}

#[test]
fn lists_from_ranges() {
    let source = "\
[0..1]
[0..10 10..=0]";
    check_ast(
        source,
        &[
            Node::Number0,
            Node::Number1,
            Node::Range { start: 0, end: 1, inclusive: false },
            Node::List(vec![2]),
            Node::Number0,
            Node::Number(0),
            Node::Range { start: 4, end: 5, inclusive: false },
            Node::Number(0),
            Node::Number0,
            Node::Range { start: 7, end: 8, inclusive: true },
            Node::List(vec![6, 9]),
            Node::MainBlock { body: vec![3, 10], local_count: 0 },
        ],
        Some(&[cnum("10")]),
    )
}

#[test]
fn num2() {
    let source = "\
num2 0
num2 1 x";
    check_ast(
        source,
        &[
            Node::Number0,
            Node::Num2(vec![0]),
            Node::Number1,
            Node::Id(0),
            Node::Num2(vec![2, 3]),
            Node::MainBlock { body: vec![1, 4], local_count: 0 },
        ],
        Some(&[cstr("x")]),
    )
}

#[test]
fn num4() {
    let source = "\
num4 0
num4 1 x
num4 x 0 1 x";
    check_ast(
        source,
        &[
            Node::Number0,
            Node::Num4(vec![0]),
            Node::Number1,
            Node::Id(0),
            Node::Num4(vec![2, 3]),
            Node::Id(0),
            Node::Number0,
            Node::Number1,
            Node::Id(0),
            Node::Num4(vec![5, 6, 7, 8]),
            Node::MainBlock { body: vec![1, 4, 9], local_count: 0 },
        ],
        Some(&[cstr("x")]),
    )
}

#[test]
fn multiple_expressions() {
    let source = "0, 1, 0";
    check_ast(
        source,
        &[
            Node::Number0,
            Node::Number1,
            Node::Number0,
            Node::Expressions(vec![0, 1, 2]),
            Node::MainBlock { body: vec![3], local_count: 0 },
        ],
        None,
    )
}

#[test]
fn single() {
    let source = "a = 1";
    check_ast(
        source,
        &[
            Node::Id(0),
            Node::Number1,
            Node::Assign {
                target: AssignTarget { target_index: 0, scope: Scope::Local },
                op: AssignOp::Equal,
                expression: 1,
            },
            Node::MainBlock { body: vec![2], local_count: 1 },
        ],
        Some(&[cstr("a")]),
    )
}

#[test]
fn single_export() {
    let source = "export a = 1 + 1";
    check_ast(
        source,
        &[
            Node::Id(0),
            Node::Number1,
            Node::Number1,
            Node::BinaryOp { op: AstOp::Add, lhs: 1, rhs: 2 },
            Node::Assign {
                target: AssignTarget { target_index: 0, scope: Scope::Global },
                op: AssignOp::Equal,
                expression: 3,
            },
            Node::MainBlock { body: vec![4], local_count: 0 },
        ],
        Some(&[cstr("a")]),
    )
}

#[test]
fn modify_assign() {
    let source = "\
x += 0
x -= 1
x *= 2
x /= 3
x %= 4";
    check_ast(
        source,
        &[
            Node::Id(0),
            Node::Number0,
            Node::Assign {
                target: AssignTarget { target_index: 0, scope: Scope::Local },
                op: AssignOp::Add,
                expression: 1,
            },
            Node::Id(0),
            Node::Number1,
            Node::Assign {
                target: AssignTarget { target_index: 3, scope: Scope::Local },
                op: AssignOp::Subtract,
                expression: 4,
            },
            Node::Id(0),
            Node::Number(1),
            Node::Assign {
                target: AssignTarget { target_index: 6, scope: Scope::Local },
                op: AssignOp::Multiply,
                expression: 7,
            },
            Node::Id(0),
            Node::Number(2),
            Node::Assign {
                target: AssignTarget { target_index: 9, scope: Scope::Local },
                op: AssignOp::Divide,
                expression: 10,
            },
            Node::Id(0),
            Node::Number(3),
            Node::Assign {
                target: AssignTarget { target_index: 12, scope: Scope::Local },
                op: AssignOp::Modulo,
                expression: 13,
            },
            Node::MainBlock { body: vec![2, 5, 8, 11, 14], local_count: 0 },
        ],
        Some(&[cstr("x"), cnum("2"), cnum("3"), cnum("4")]),
    )
}

#[test]
fn addition_subtraction() {
    let source = "1 - 0 + 1";
    check_ast(
        source,
        &[
            Node::Number1,
            Node::Number0,
            Node::BinaryOp { op: AstOp::Subtract, lhs: 0, rhs: 1 },
            Node::Number1,
            Node::BinaryOp { op: AstOp::Add, lhs: 2, rhs: 3 },
            Node::MainBlock { body: vec![4], local_count: 0 },
        ],
        None,
    )
}

#[test]
fn add_multiply() {
    let source = "1 + 0 * 1 + 0";
    check_ast(
        source,
        &[
            Node::Number1,
            Node::Number0,
            Node::Number1,
            Node::BinaryOp { op: AstOp::Multiply, lhs: 1, rhs: 2 },
            Node::BinaryOp { op: AstOp::Add, lhs: 0, rhs: 3 },
            Node::Number0,
            Node::BinaryOp { op: AstOp::Add, lhs: 4, rhs: 5 },
            Node::MainBlock { body: vec![6], local_count: 0 },
        ],
        None,
    )
}

#[test]
fn with_parentheses() {
    let source = "(1 + 0) * (1 + 0)";
    check_ast(
        source,
        &[
            Node::Number1,
            Node::Number0,
            Node::BinaryOp { op: AstOp::Add, lhs: 0, rhs: 1 },
            Node::Number1,
            Node::Number0,
            Node::BinaryOp { op: AstOp::Add, lhs: 3, rhs: 4 },
            Node::BinaryOp { op: AstOp::Multiply, lhs: 2, rhs: 5 },
            Node::MainBlock { body: vec![6], local_count: 0 },
        ],
        None,
    )
}

#[test]
fn divide_modulo() {
    let source = "18 / 3 % 4";
    check_ast(
        source,
        &[
            Node::Number(0),
            Node::Number(1),
            Node::BinaryOp { op: AstOp::Divide, lhs: 0, rhs: 1 },
            Node::Number(2),
            Node::BinaryOp { op: AstOp::Modulo, lhs: 2, rhs: 3 },
            Node::MainBlock { body: vec![4], local_count: 0 },
        ],
        Some(&[cnum("18"), cnum("3"), cnum("4")]),
    )
}

#[test]
fn and_or() {
    let source = "0 < 1 and 1 > 0 or true";
    check_ast(
        source,
        &[
            Node::Number0,
            Node::Number1,
            Node::BinaryOp { op: AstOp::Less, lhs: 0, rhs: 1 },
            Node::Number1,
            Node::Number0,
            Node::BinaryOp { op: AstOp::Greater, lhs: 3, rhs: 4 },
            Node::BinaryOp { op: AstOp::And, lhs: 2, rhs: 5 },
            Node::BoolTrue,
            Node::BinaryOp { op: AstOp::Or, lhs: 6, rhs: 7 },
            Node::MainBlock { body: vec![8], local_count: 0 },
        ],
        None,
    )
}

#[test]
fn chained_comparisons() {
    let source = "0 < 1 <= 1";
    check_ast(
        source,
        &[
            Node::Number0,
            Node::Number1,
            Node::Number1,
            Node::BinaryOp { op: AstOp::LessOrEqual, lhs: 1, rhs: 2 },
            Node::BinaryOp { op: AstOp::Less, lhs: 0, rhs: 3 },
            Node::MainBlock { body: vec![4], local_count: 0 },
        ],
        None,
    )
}

#[test]
fn if_inline() {
    let source = "1 + if true then 0 else 1";
    check_ast(
        source,
        &[
            Node::Number1,
            Node::BoolTrue,
            Node::Number0,
            Node::Number1,
            Node::If(AstIf {
                condition: 1,
                then_node: 2,
                else_if_blocks: vec![],
                else_node: Some(3),
            }),
            Node::BinaryOp { op: AstOp::Add, lhs: 0, rhs: 4 },
            Node::MainBlock { body: vec![5], local_count: 0 },
        ],
        None,
    )
}

#[test]
fn for_inline() {
    let source = "x for x in 0..1";
    check_ast(
        source,
        &[
            Node::Id(0),
            Node::Number0,
            Node::Number1,
            Node::Range { start: 1, end: 2, inclusive: false },
            Node::For(AstFor { args: vec![0], ranges: vec![3], condition: None, body: 0 }),
            Node::MainBlock { body: vec![4], local_count: 1 },
        ],
        Some(&[cstr("x")]),
    )
}

#[test]
fn while_inline() {
    let source = "x while true";
    check_ast(
        source,
        &[
            Node::Id(0),
            Node::BoolTrue,
            Node::While { condition: 1, body: 0 },
            Node::MainBlock { body: vec![2], local_count: 0 },
        ],
        Some(&[cstr("x")]),
    )
}

#[test]
fn until_inline() {
    let source = "y until false";
    check_ast(
        source,
        &[
            Node::Id(0),
            Node::BoolFalse,
            Node::Until { condition: 1, body: 0 },
            Node::MainBlock { body: vec![2], local_count: 0 },
        ],
        Some(&[cstr("y")]),
    )
}

#[test]
fn list_comprehension_for() {
    let source = "[x y for x in 0..1]";
    check_ast(
        source,
        &[
            Node::Id(0),
            Node::Id(1),
            Node::Call { function: 0, args: vec![1] },
            Node::Number0,
            Node::Number1,
            Node::Range { start: 3, end: 4, inclusive: false },
            Node::For(AstFor { args: vec![0], ranges: vec![5], condition: None, body: 2 }),
            Node::List(vec![6]),
            Node::MainBlock { body: vec![7], local_count: 1 },
        ],
        Some(&[cstr("x"), cstr("y")]),
    )
}

#[test]
fn list_comprehension_for_with_capture_in_body() {
    let source = "[(|| x) for x in 0..=1]";
    check_ast(
        source,
        &[
            Node::Id(0),
            Node::Function(Function {
                args: vec![],
                local_count: 0,
                accessed_non_locals: vec![0],
                body: 0,
                is_generator: false,
            }),
            Node::Number0,
            Node::Number1,
            Node::Range { start: 2, end: 3, inclusive: true },
            Node::For(AstFor { args: vec![0], ranges: vec![4], condition: None, body: 1 }),
            Node::List(vec![5]),
            Node::MainBlock { body: vec![6], local_count: 1 },
        ],
        Some(&[cstr("x")]),
    )
}

#[test]
fn inline_no_args() {
    let source = "
a = || 42
a()";
    check_ast(
        source,
        &[
            Node::Id(0),
            Node::Number(1),
            Node::Function(Function {
                args: vec![],
                local_count: 0,
                accessed_non_locals: vec![],
                body: 1,
                is_generator: false,
            }),
            Node::Assign {
                target: AssignTarget { target_index: 0, scope: Scope::Local },
                op: AssignOp::Equal,
                expression: 2,
            },
            Node::Id(0),
            Node::Lookup(vec![LookupNode::Root(4), LookupNode::Call(vec![])]),
            Node::MainBlock { body: vec![3, 5], local_count: 1 },
        ],
        Some(&[cstr("a"), cnum("42")]),
    )
}

#[test]
fn inline_two_args() {
    let source = "|x y| x + y";
    check_ast(
        source,
        &[
            Node::Id(0),
            Node::Id(1),
            Node::BinaryOp { op: AstOp::Add, lhs: 0, rhs: 1 },
            Node::Function(Function {
                args: vec![0, 1],
                local_count: 2,
                accessed_non_locals: vec![],
                body: 2,
                is_generator: false,
            }),
            Node::MainBlock { body: vec![3], local_count: 0 },
        ],
        Some(&[cstr("x"), cstr("y")]),
    )
}

#[test]
fn non_local_access() {
    let source = "|| x += 1";
    check_ast(
        source,
        &[
            Node::Id(0),
            Node::Number1,
            Node::Assign {
                target: AssignTarget { target_index: 0, scope: Scope::Local },
                op: AssignOp::Add,
                expression: 1,
            },
            Node::Function(Function {
                args: vec![],
                local_count: 0,
                accessed_non_locals: vec![0],
                body: 2,
                is_generator: false,
            }),
            Node::MainBlock { body: vec![3], local_count: 0 },
        ],
        Some(&[cstr("x")]),
    )
}

#[test]
fn generator_function() {
    let source = "|| yield 1";
    check_ast(
        source,
        &[
            Node::Number1,
            Node::Yield(0),
            Node::Function(Function {
                args: vec![],
                local_count: 0,
                accessed_non_locals: vec![],
                body: 1,
                is_generator: true,
            }),
            Node::MainBlock { body: vec![2], local_count: 0 },
        ],
        None,
    )
}

#[test]
fn flow() {
    let source = "\
break
continue
return
return 1";
    check_ast(
        source,
        &[
            Node::Break,
            Node::Continue,
            Node::Return,
            Node::Number1,
            Node::ReturnExpression(3),
            Node::MainBlock { body: vec![0, 1, 2, 4], local_count: 0 },
        ],
        None,
    )
}

#[test]
fn import_module() {
    let source = "import foo";
    check_ast(
        source,
        &[
            Node::Import { from: vec![], items: vec![vec![0]] },
            Node::MainBlock { body: vec![0], local_count: 1 },
        ],
        Some(&[cstr("foo")]),
    )
}

#[test]
fn import_items() {
    let source = "from foo import bar baz";
    check_ast(
        source,
        &[
            Node::Import { from: vec![0], items: vec![vec![1], vec![2]] },
            Node::MainBlock { body: vec![0], local_count: 2 },
        ],
        Some(&[cstr("foo"), cstr("bar"), cstr("baz")]),
    )
}

#[test]
fn try_catch() {
    let source = "\
try
  f()
catch e
  debug e
";
    let (ast, _constants) = parse_ok(source);
    let mut found_try = false;
    for i in 0..ast.len() {
        if let Node::Try(AstTry { finally_block, .. }) = &ast.node(i as u32).unwrap().node {
            assert!(finally_block.is_none());
            found_try = true;
        }
    }
    assert!(found_try, "expected a try node");
}

#[test]
fn entry_point_is_main_block() {
    // the entry point of any parse is a main block
    let (ast, _constants) = parse_ok("a = 1\nb = a + 1\n[a b]");
    let entry = ast.entry_point().expect("an entry point");
    match &ast.node(entry).unwrap().node {
        Node::MainBlock { .. } => {},
        other => panic!("expected a main block, got {:?}", other),
    }
}

#[test]
fn nonlocal_read_then_assign() {
    // parsing `|| a = a` where `a` is unbound yields a function that both
    // assigns `a` and captures it, with a local count of zero
    let (ast, _constants) = parse_ok("|| a = a");
    let mut found = false;
    for i in 0..ast.len() {
        if let Node::Function(f) = &ast.node(i as u32).unwrap().node {
            assert_eq!(f.accessed_non_locals, vec![0]);
            assert_eq!(f.local_count, 0);
            found = true;
        }
    }
    assert!(found, "expected a function node");
}

#[test]
fn spans_of_top_level_statements_are_non_decreasing() {
    let (ast, _constants) = parse_ok("a = 1\nb = 2\nc = a + b\n[a b c]");
    let entry = ast.entry_point().unwrap();
    if let Node::MainBlock { body, .. } = &ast.node(entry).unwrap().node {
        let mut last_start = 0usize;
        for ix in body {
            let span = ast.node(*ix).unwrap().span;
            assert!(span.start >= last_start, "spans must be non-decreasing");
            last_start = span.start;
        }
        assert!(body.len() == 4);
    } else {
        panic!("expected a main block");
    }
}

#[test]
fn speculative_list_parse_rolls_back() {
    // `[0..1]` first tries a comprehension, then rewinds the lexer and the
    // arena and parses a plain list; the arena holds no leftover nodes
    check_ast(
        "[0..1]",
        &[
            Node::Number0,
            Node::Number1,
            Node::Range { start: 0, end: 1, inclusive: false },
            Node::List(vec![2]),
            Node::MainBlock { body: vec![3], local_count: 0 },
        ],
        None,
    )
}

#[test]
fn syntax_error_reported() {
    assert!(Parser::parse("[1 2").is_err());
    assert!(Parser::parse("if").is_err());
    assert!(Parser::parse("x = ").is_err());
}


#[test]
fn multi_2_to_1() {
    let source = "x = 1, 0";
    check_ast(
        source,
        &[
            Node::Id(0),
            Node::Number1,
            Node::Number0,
            Node::Expressions(vec![1, 2]),
            Node::Assign {
                target: AssignTarget { target_index: 0, scope: Scope::Local },
                op: AssignOp::Equal,
                expression: 3,
            },
            Node::MainBlock { body: vec![4], local_count: 1 },
        ],
        Some(&[cstr("x")]),
    )
}

#[test]
fn multi_2_to_2() {
    let source = "x, y[0] = 1, 0";
    check_ast(
        source,
        &[
            Node::Id(0),
            Node::Id(1),
            Node::Number0,
            Node::Lookup(vec![LookupNode::Root(1), LookupNode::Index(2)]),
            Node::Number1,
            Node::Number0,
            Node::Expressions(vec![4, 5]),
            Node::MultiAssign {
                targets: vec![
                    AssignTarget { target_index: 0, scope: Scope::Local },
                    AssignTarget { target_index: 3, scope: Scope::Local },
                ],
                expressions: 6,
            },
            Node::MainBlock { body: vec![7], local_count: 1 },
        ],
        Some(&[cstr("x"), cstr("y")]),
    )
}

#[test]
fn multi_2_to_2_with_linebreaks() {
    let source = "\
x, y =
  1,
  0,
x";
    check_ast(
        source,
        &[
            Node::Id(0),
            Node::Id(1),
            Node::Number1,
            Node::Number0,
            Node::Expressions(vec![2, 3]),
            Node::MultiAssign {
                targets: vec![
                    AssignTarget { target_index: 0, scope: Scope::Local },
                    AssignTarget { target_index: 1, scope: Scope::Local },
                ],
                expressions: 4,
            },
            Node::Id(0),
            Node::MainBlock { body: vec![5, 6], local_count: 2 },
        ],
        Some(&[cstr("x"), cstr("y")]),
    )
}

#[test]
fn multi_1_to_3_with_wildcard() {
    let source = "x, _, y = f()";
    check_ast(
        source,
        &[
            Node::Id(0),
            Node::Id(1),
            Node::Id(2),
            Node::Id(3),
            Node::Lookup(vec![LookupNode::Root(3), LookupNode::Call(vec![])]),
            Node::MultiAssign {
                targets: vec![
                    AssignTarget { target_index: 0, scope: Scope::Local },
                    AssignTarget { target_index: 1, scope: Scope::Local },
                    AssignTarget { target_index: 2, scope: Scope::Local },
                ],
                expressions: 4,
            },
            Node::MainBlock { body: vec![5], local_count: 3 },
        ],
        Some(&[cstr("x"), cstr("_"), cstr("y"), cstr("f")]),
    )
}

#[test]
fn string_and_id() {
    let source = "\"hello\" + x";
    check_ast(
        source,
        &[
            Node::Str(0),
            Node::Id(1),
            Node::BinaryOp { op: AstOp::Add, lhs: 0, rhs: 1 },
            Node::MainBlock { body: vec![2], local_count: 0 },
        ],
        Some(&[cstr("hello"), cstr("x")]),
    )
}

#[test]
fn function_call_on_rhs() {
    let source = "x = 1 + f y";
    check_ast(
        source,
        &[
            Node::Id(0),
            Node::Number1,
            Node::Id(1),
            Node::Id(2),
            Node::Call { function: 2, args: vec![3] },
            Node::BinaryOp { op: AstOp::Add, lhs: 1, rhs: 4 },
            Node::Assign {
                target: AssignTarget { target_index: 0, scope: Scope::Local },
                op: AssignOp::Equal,
                expression: 5,
            },
            Node::MainBlock { body: vec![6], local_count: 1 },
        ],
        Some(&[cstr("x"), cstr("f"), cstr("y")]),
    )
}

#[test]
fn if_block() {
    let source = "\
a = if false
  0
else if true
  1
else if false
  0
else
  1
a";
    check_ast(
        source,
        &[
            Node::Id(0),
            Node::BoolFalse,
            Node::Number0,
            Node::BoolTrue,
            Node::Number1,
            Node::BoolFalse,
            Node::Number0,
            Node::Number1,
            Node::If(AstIf {
                condition: 1,
                then_node: 2,
                else_if_blocks: vec![(3, 4), (5, 6)],
                else_node: Some(7),
            }),
            Node::Assign {
                target: AssignTarget { target_index: 0, scope: Scope::Local },
                op: AssignOp::Equal,
                expression: 8,
            },
            Node::Id(0),
            Node::MainBlock { body: vec![9, 10], local_count: 1 },
        ],
        None,
    )
}

#[test]
fn if_inline_multi_expressions() {
    let source = "a, b = if true then 0, 1 else 1, 0";
    check_ast(
        source,
        &[
            Node::Id(0),
            Node::Id(1),
            Node::BoolTrue,
            Node::Number0,
            Node::Number1,
            Node::Expressions(vec![3, 4]),
            Node::Number1,
            Node::Number0,
            Node::Expressions(vec![6, 7]),
            Node::If(AstIf {
                condition: 2,
                then_node: 5,
                else_if_blocks: vec![],
                else_node: Some(8),
            }),
            Node::MultiAssign {
                targets: vec![
                    AssignTarget { target_index: 0, scope: Scope::Local },
                    AssignTarget { target_index: 1, scope: Scope::Local },
                ],
                expressions: 9,
            },
            Node::MainBlock { body: vec![10], local_count: 2 },
        ],
        Some(&[cstr("a"), cstr("b")]),
    )
}

#[test]
fn array_indexing() {
    let source = "\
a[0] = a[1]
x[..]
y[..3]
z[10..][0]";
    check_ast(
        source,
        &[
            Node::Id(0),
            Node::Number0,
            Node::Lookup(vec![LookupNode::Root(0), LookupNode::Index(1)]),
            Node::Id(0),
            Node::Number1,
            Node::Lookup(vec![LookupNode::Root(3), LookupNode::Index(4)]),
            Node::Assign {
                target: AssignTarget { target_index: 2, scope: Scope::Local },
                op: AssignOp::Equal,
                expression: 5,
            },
            Node::Id(1),
            Node::RangeFull,
            Node::Lookup(vec![LookupNode::Root(7), LookupNode::Index(8)]),
            Node::Id(2),
            Node::Number(3),
            Node::RangeTo { end: 11, inclusive: false },
            Node::Lookup(vec![LookupNode::Root(10), LookupNode::Index(12)]),
            Node::Id(4),
            Node::Number(5),
            Node::RangeFrom { start: 15 },
            Node::Number0,
            Node::Lookup(vec![
                LookupNode::Root(14),
                LookupNode::Index(16),
                LookupNode::Index(17),
            ]),
            Node::MainBlock { body: vec![6, 9, 13, 18], local_count: 0 },
        ],
        Some(&[cstr("a"), cstr("x"), cstr("y"), cnum("3"), cstr("z"), cnum("10")]),
    )
}

#[test]
fn map_lookup() {
    let source = "
x.foo
x.bar()
x.bar().\"baz\" = 1
x.foo 42";
    check_ast(
        source,
        &[
            Node::Id(0),
            Node::Lookup(vec![LookupNode::Root(0), LookupNode::Id(1)]),
            Node::Id(0),
            Node::Lookup(vec![
                LookupNode::Root(2),
                LookupNode::Id(2),
                LookupNode::Call(vec![]),
            ]),
            Node::Id(0),
            Node::Lookup(vec![
                LookupNode::Root(4),
                LookupNode::Id(2),
                LookupNode::Call(vec![]),
                LookupNode::Id(3),
            ]),
            Node::Number1,
            Node::Assign {
                target: AssignTarget { target_index: 5, scope: Scope::Local },
                op: AssignOp::Equal,
                expression: 6,
            },
            Node::Id(0),
            Node::Number(4),
            Node::Lookup(vec![
                LookupNode::Root(8),
                LookupNode::Id(1),
                LookupNode::Call(vec![9]),
            ]),
            Node::MainBlock { body: vec![1, 3, 7, 10], local_count: 0 },
        ],
        Some(&[cstr("x"), cstr("foo"), cstr("bar"), cstr("baz"), cnum("42")]),
    )
}

#[test]
fn map_lookup_in_list() {
    let source = "[m.foo m.bar]";
    check_ast(
        source,
        &[
            Node::Id(0),
            Node::Lookup(vec![LookupNode::Root(0), LookupNode::Id(1)]),
            Node::Id(0),
            Node::Lookup(vec![LookupNode::Root(2), LookupNode::Id(2)]),
            Node::List(vec![1, 3]),
            Node::MainBlock { body: vec![4], local_count: 0 },
        ],
        Some(&[cstr("m"), cstr("foo"), cstr("bar")]),
    )
}

#[test]
fn lookups_on_temporaries() {
    let source = "\
(f x).foo
(f x)[0]
(f x)(y)";
    check_ast(
        source,
        &[
            Node::Id(0),
            Node::Id(1),
            Node::Call { function: 0, args: vec![1] },
            Node::Lookup(vec![LookupNode::Root(2), LookupNode::Id(2)]),
            Node::Id(0),
            Node::Id(1),
            Node::Call { function: 4, args: vec![5] },
            Node::Number0,
            Node::Lookup(vec![LookupNode::Root(6), LookupNode::Index(7)]),
            Node::Id(0),
            Node::Id(1),
            Node::Call { function: 9, args: vec![10] },
            Node::Id(3),
            Node::Lookup(vec![LookupNode::Root(11), LookupNode::Call(vec![12])]),
            Node::MainBlock { body: vec![3, 8, 13], local_count: 0 },
        ],
        Some(&[cstr("f"), cstr("x"), cstr("foo"), cstr("y")]),
    )
}

#[test]
fn try_catch_finally() {
    let source = "\
try
  f()
catch e
  debug e
finally
  0
";
    check_ast(
        source,
        &[
            Node::Id(0),
            Node::Lookup(vec![LookupNode::Root(0), LookupNode::Call(vec![])]),
            Node::Id(1),
            Node::Debug { expression_string: 1, expression: 2 },
            Node::Number0,
            Node::Try(AstTry {
                try_block: 1,
                catch_arg: 1,
                catch_block: 3,
                finally_block: Some(4),
            }),
            Node::MainBlock { body: vec![5], local_count: 1 },
        ],
        Some(&[cstr("f"), cstr("e")]),
    )
}

#[test]
fn import_item() {
    let source = "import foo.bar";
    check_ast(
        source,
        &[
            Node::Import { from: vec![], items: vec![vec![0, 1]] },
            Node::MainBlock { body: vec![0], local_count: 1 },
        ],
        Some(&[cstr("foo"), cstr("bar")]),
    )
}

#[test]
fn import_item_used_in_assignment() {
    let source = "x = import foo.bar";
    check_ast(
        source,
        &[
            Node::Id(0),
            Node::Import { from: vec![], items: vec![vec![1, 2]] },
            Node::Assign {
                target: AssignTarget { target_index: 0, scope: Scope::Local },
                op: AssignOp::Equal,
                expression: 1,
            },
            Node::MainBlock { body: vec![2], local_count: 2 },
        ],
        Some(&[cstr("x"), cstr("foo"), cstr("bar")]),
    )
}

#[test]
fn import_nested_items() {
    let source = "from foo.bar import abc.def xyz";
    check_ast(
        source,
        &[
            Node::Import { from: vec![0, 1], items: vec![vec![2, 3], vec![4]] },
            Node::MainBlock { body: vec![0], local_count: 2 },
        ],
        Some(&[cstr("foo"), cstr("bar"), cstr("abc"), cstr("def"), cstr("xyz")]),
    )
}

#[test]
fn generator_multiple_values() {
    let source = "|| yield 1, 0";
    check_ast(
        source,
        &[
            Node::Number1,
            Node::Number0,
            Node::Expressions(vec![0, 1]),
            Node::Yield(2),
            Node::Function(Function {
                args: vec![],
                local_count: 0,
                accessed_non_locals: vec![],
                body: 3,
                is_generator: true,
            }),
            Node::MainBlock { body: vec![4], local_count: 0 },
        ],
        None,
    )
}

#[test]
fn with_body() {
    let source = "\
f = |x|
  y = x
  y = y + 1
  y
f 42";
    check_ast(
        source,
        &[
            Node::Id(0),
            Node::Id(2),
            Node::Id(1),
            Node::Assign {
                target: AssignTarget { target_index: 1, scope: Scope::Local },
                op: AssignOp::Equal,
                expression: 2,
            },
            Node::Id(2),
            Node::Id(2),
            Node::Number1,
            Node::BinaryOp { op: AstOp::Add, lhs: 5, rhs: 6 },
            Node::Assign {
                target: AssignTarget { target_index: 4, scope: Scope::Local },
                op: AssignOp::Equal,
                expression: 7,
            },
            Node::Id(2),
            Node::Block(vec![3, 8, 9]),
            Node::Function(Function {
                args: vec![1],
                local_count: 2,
                accessed_non_locals: vec![],
                body: 10,
                is_generator: false,
            }),
            Node::Assign {
                target: AssignTarget { target_index: 0, scope: Scope::Local },
                op: AssignOp::Equal,
                expression: 11,
            },
            Node::Id(0),
            Node::Number(3),
            Node::Call { function: 13, args: vec![14] },
            Node::MainBlock { body: vec![12, 15], local_count: 1 },
        ],
        Some(&[cstr("f"), cstr("x"), cstr("y"), cnum("42")]),
    )
}

#[test]
fn with_body_nested() {
    let source = "\
f = |x|
  y = |z|
    z
  y x
f 42";
    check_ast(
        source,
        &[
            Node::Id(0),
            Node::Id(2),
            Node::Id(3),
            Node::Function(Function {
                args: vec![3],
                local_count: 1,
                accessed_non_locals: vec![],
                body: 2,
                is_generator: false,
            }),
            Node::Assign {
                target: AssignTarget { target_index: 1, scope: Scope::Local },
                op: AssignOp::Equal,
                expression: 3,
            },
            Node::Id(2),
            Node::Id(1),
            Node::Call { function: 5, args: vec![6] },
            Node::Block(vec![4, 7]),
            Node::Function(Function {
                args: vec![1],
                local_count: 2,
                accessed_non_locals: vec![],
                body: 8,
                is_generator: false,
            }),
            Node::Assign {
                target: AssignTarget { target_index: 0, scope: Scope::Local },
                op: AssignOp::Equal,
                expression: 9,
            },
            Node::Id(0),
            Node::Number(4),
            Node::Call { function: 11, args: vec![12] },
            Node::MainBlock { body: vec![10, 13], local_count: 1 },
        ],
        Some(&[cstr("f"), cstr("x"), cstr("y"), cstr("z"), cnum("42")]),
    )
}

#[test]
fn for_inline_call_in_body() {
    let source = "f x for x in 0..1";
    check_ast(
        source,
        &[
            Node::Id(0),
            Node::Id(1),
            Node::Call { function: 0, args: vec![1] },
            Node::Number0,
            Node::Number1,
            Node::Range { start: 3, end: 4, inclusive: false },
            Node::For(AstFor { args: vec![1], ranges: vec![5], condition: None, body: 2 }),
            Node::MainBlock { body: vec![6], local_count: 1 },
        ],
        Some(&[cstr("f"), cstr("x")]),
    )
}

#[test]
fn for_inline_multi() {
    let source = "x, y for x, y in a, b";
    check_ast(
        source,
        &[
            Node::Id(0),
            Node::Id(1),
            Node::Id(2),
            Node::Id(3),
            Node::Expressions(vec![0, 1]),
            Node::For(AstFor { args: vec![0, 1], ranges: vec![2, 3], condition: None, body: 4 }),
            Node::MainBlock { body: vec![5], local_count: 2 },
        ],
        Some(&[cstr("x"), cstr("y"), cstr("a"), cstr("b")]),
    )
}

#[test]
fn for_inline_conditional() {
    let source = "x for x in f y if x == 0";
    check_ast(
        source,
        &[
            Node::Id(0),
            Node::Id(1),
            Node::Id(2),
            Node::Call { function: 1, args: vec![2] },
            Node::Id(0),
            Node::Number0,
            Node::BinaryOp { op: AstOp::Equal, lhs: 4, rhs: 5 },
            Node::For(AstFor { args: vec![0], ranges: vec![3], condition: Some(6), body: 0 }),
            Node::MainBlock { body: vec![7], local_count: 1 },
        ],
        Some(&[cstr("x"), cstr("f"), cstr("y")]),
    )
}

#[test]
fn for_block() {
    let source = "\
for x in y if x > 0
  f x";
    check_ast(
        source,
        &[
            Node::Id(1),
            Node::Id(0),
            Node::Number0,
            Node::BinaryOp { op: AstOp::Greater, lhs: 1, rhs: 2 },
            Node::Id(2),
            Node::Id(0),
            Node::Call { function: 4, args: vec![5] },
            Node::For(AstFor { args: vec![0], ranges: vec![0], condition: Some(3), body: 6 }),
            Node::MainBlock { body: vec![7], local_count: 1 },
        ],
        Some(&[cstr("x"), cstr("y"), cstr("f")]),
    )
}

#[test]
fn call_negative_arg() {
    let source = "\
f 0 -x";
    check_ast(
        source,
        &[
            Node::Id(0),
            Node::Number0,
            Node::Id(1),
            Node::Negate(2),
            Node::Call { function: 0, args: vec![1, 3] },
            Node::MainBlock { body: vec![4], local_count: 0 },
        ],
        Some(&[cstr("f"), cstr("x")]),
    )
}

#[test]
fn expressions() {
    let source = "\
copy x
not true
debug x + x
assert_eq (type true) \"bool\"
";
    check_ast(
        source,
        &[
            Node::Id(0),
            Node::CopyExpression(0),
            Node::BoolTrue,
            Node::Negate(2),
            Node::Id(0),
            Node::Id(0),
            Node::BinaryOp { op: AstOp::Add, lhs: 4, rhs: 5 },
            Node::Debug { expression_string: 1, expression: 6 },
            Node::Id(2),
            Node::BoolTrue,
            Node::TypeOf(9),
            Node::Str(3),
            Node::Call { function: 8, args: vec![10, 11] },
            Node::MainBlock { body: vec![1, 3, 7, 12], local_count: 0 },
        ],
        Some(&[cstr("x"), cstr("x + x"), cstr("assert_eq"), cstr("bool")]),
    )
}

#[test]
fn arithmetic() {
    let source = "
a = 1 + \\
    2 + \\
    3
";
    check_ast(
        source,
        &[
            Node::Id(0),
            Node::Number1,
            Node::Number(1),
            Node::BinaryOp { op: AstOp::Add, lhs: 1, rhs: 2 },
            Node::Number(2),
            Node::BinaryOp { op: AstOp::Add, lhs: 3, rhs: 4 },
            Node::Assign {
                target: AssignTarget { target_index: 0, scope: Scope::Local },
                op: AssignOp::Equal,
                expression: 5,
            },
            Node::MainBlock { body: vec![6], local_count: 1 },
        ],
        Some(&[cstr("a"), cnum("2"), cnum("3")]),
    )
}

#[test]
fn while_block() {
    let source = "\
while x > y
  f x";
    check_ast(
        source,
        &[
            Node::Id(0),
            Node::Id(1),
            Node::BinaryOp { op: AstOp::Greater, lhs: 0, rhs: 1 },
            Node::Id(2),
            Node::Id(0),
            Node::Call { function: 3, args: vec![4] },
            Node::While { condition: 2, body: 5 },
            Node::MainBlock { body: vec![6], local_count: 0 },
        ],
        Some(&[cstr("x"), cstr("y"), cstr("f")]),
    )
}

#[test]
fn until_block() {
    let source = "\
until x < y
  f y";
    check_ast(
        source,
        &[
            Node::Id(0),
            Node::Id(1),
            Node::BinaryOp { op: AstOp::Less, lhs: 0, rhs: 1 },
            Node::Id(2),
            Node::Id(1),
            Node::Call { function: 3, args: vec![4] },
            Node::Until { condition: 2, body: 5 },
            Node::MainBlock { body: vec![6], local_count: 0 },
        ],
        Some(&[cstr("x"), cstr("y"), cstr("f")]),
    )
}

#[test]
fn match_multi_expression() {
    let source = "
match x, y
  0, 1 or 2, 3 if z then 0
  a, ()
    a
  _ then 0
";
    check_ast(
        source,
        &[
            Node::Id(0),
            Node::Id(1),
            Node::Expressions(vec![0, 1]),
            Node::Number0,
            Node::Number1,
            Node::Expressions(vec![3, 4]),
            Node::Number(2),
            Node::Number(3),
            Node::Expressions(vec![6, 7]),
            Node::Id(4),
            Node::Number0,
            Node::Id(5),
            Node::Empty,
            Node::Expressions(vec![11, 12]),
            Node::Id(5),
            Node::Wildcard,
            Node::Number0,
            Node::Match {
                expression: 2,
                arms: vec![
                    MatchArm { patterns: vec![5, 8], condition: Some(9), expression: 10 },
                    MatchArm { patterns: vec![13], condition: None, expression: 14 },
                    MatchArm { patterns: vec![15], condition: None, expression: 16 },
                ],
            },
            Node::MainBlock { body: vec![17], local_count: 1 },
        ],
        Some(&[cstr("x"), cstr("y"), cnum("2"), cnum("3"), cstr("z"), cstr("a")]),
    )
}

#[test]
fn call_with_functor() {
    let source = "\
z = y [0..20] |x| x > 1
y z";
    check_ast(
        source,
        &[
            Node::Id(0),
            Node::Id(1),
            Node::Number0,
            Node::Number(2),
            Node::Range { start: 2, end: 3, inclusive: false },
            Node::List(vec![4]),
            Node::Id(3),
            Node::Number1,
            Node::BinaryOp { op: AstOp::Greater, lhs: 6, rhs: 7 },
            Node::Function(Function {
                args: vec![3],
                local_count: 1,
                accessed_non_locals: vec![],
                body: 8,
                is_generator: false,
            }),
            Node::Call { function: 1, args: vec![5, 9] },
            Node::Assign {
                target: AssignTarget { target_index: 0, scope: Scope::Local },
                op: AssignOp::Equal,
                expression: 10,
            },
            Node::Id(1),
            Node::Id(0),
            Node::Call { function: 12, args: vec![13] },
            Node::MainBlock { body: vec![11, 14], local_count: 1 },
        ],
        Some(&[cstr("z"), cstr("y"), cnum("20"), cstr("x")]),
    )
}

#[test]
fn instance_function() {
    let source = "{foo: 42, bar: |self x| self.foo = x}";
    check_ast(
        source,
        &[
            Node::Number(1),
            Node::Id(3),
            Node::Lookup(vec![LookupNode::Root(1), LookupNode::Id(0)]),
            Node::Id(4),
            Node::Assign {
                target: AssignTarget { target_index: 2, scope: Scope::Local },
                op: AssignOp::Equal,
                expression: 3,
            },
            Node::Function(Function {
                args: vec![3, 4],
                local_count: 2,
                accessed_non_locals: vec![],
                body: 4,
                is_generator: false,
            }),
            Node::MapNode(vec![(0, Some(0)), (2, Some(5))]),
            Node::MainBlock { body: vec![6], local_count: 0 },
        ],
        Some(&[cstr("foo"), cnum("42"), cstr("bar"), cstr("self"), cstr("x")]),
    )
}

#[test]
fn match_single_expression() {
    let source = "
x = match y
  0 or 1 then 42
  \"foo\" or [\"bar\"] then 99
  \"baz\" then break
  z if z < 10
    123
  z then -1
";
    check_ast(
        source,
        &[
            Node::Id(0),
            Node::Id(1),
            Node::Number0,
            Node::Number1,
            Node::Number(2),
            Node::Str(3),
            Node::Str(4),
            Node::List(vec![6]),
            Node::Number(5),
            Node::Str(6),
            Node::Break,
            Node::Id(7),
            Node::Id(7),
            Node::Number(8),
            Node::BinaryOp { op: AstOp::Less, lhs: 12, rhs: 13 },
            Node::Number(9),
            Node::Id(7),
            Node::Number(10),
            Node::Match {
                expression: 1,
                arms: vec![
                    MatchArm { patterns: vec![2, 3], condition: None, expression: 4 },
                    MatchArm { patterns: vec![5, 7], condition: None, expression: 8 },
                    MatchArm { patterns: vec![9], condition: None, expression: 10 },
                    MatchArm { patterns: vec![11], condition: Some(14), expression: 15 },
                    MatchArm { patterns: vec![16], condition: None, expression: 17 },
                ],
            },
            Node::Assign {
                target: AssignTarget { target_index: 0, scope: Scope::Local },
                op: AssignOp::Equal,
                expression: 18,
            },
            Node::MainBlock { body: vec![19], local_count: 2 },
        ],
        Some(&[
            cstr("x"),
            cstr("y"),
            cnum("42"),
            cstr("foo"),
            cstr("bar"),
            cnum("99"),
            cstr("baz"),
            cstr("z"),
            cnum("10"),
            cnum("123"),
            cnum("-1"),
        ]),
    )
}

#[test]
fn list_comprehension_while() {
    let source = "[f x while (f y) < 10]";
    check_ast(
        source,
        &[
            Node::Id(0),
            Node::Id(1),
            Node::Call { function: 0, args: vec![1] },
            Node::Id(0),
            Node::Id(2),
            Node::Call { function: 3, args: vec![4] },
            Node::Number(3),
            Node::BinaryOp { op: AstOp::Less, lhs: 5, rhs: 6 },
            Node::While { condition: 7, body: 2 },
            Node::List(vec![8]),
            Node::MainBlock { body: vec![9], local_count: 0 },
        ],
        Some(&[cstr("f"), cstr("x"), cstr("y"), cnum("10")]),
    )
}

#[test]
fn list_comprehension_until() {
    let source = "[f x until (f y) >= 10]";
    check_ast(
        source,
        &[
            Node::Id(0),
            Node::Id(1),
            Node::Call { function: 0, args: vec![1] },
            Node::Id(0),
            Node::Id(2),
            Node::Call { function: 3, args: vec![4] },
            Node::Number(3),
            Node::BinaryOp { op: AstOp::GreaterOrEqual, lhs: 5, rhs: 6 },
            Node::Until { condition: 7, body: 2 },
            Node::List(vec![8]),
            Node::MainBlock { body: vec![9], local_count: 0 },
        ],
        Some(&[cstr("f"), cstr("x"), cstr("y"), cnum("10")]),
    )
}

#[test]
fn function_reads_then_assigns_same_id() {
    // || a = a : the read of 'a' on the right-hand side precedes the
    // assignment, so 'a' is both assigned in the function's scope and a
    // non-local access, leaving no locals
    let (ast, constants) = parse_ok("|| a = a");
    let mut seen = false;
    for i in 0..ast.len() {
        if let Node::Function(f) = &ast.node(i as u32).unwrap().node {
            assert_eq!(f.args, vec![]);
            assert_eq!(f.local_count, 0);
            assert_eq!(f.accessed_non_locals, vec![0]);
            assert!(!f.is_generator);
            seen = true;
        }
    }
    assert!(seen, "expected a function node");
    assert_eq!(constants.get(0).unwrap(), &cstr("a"));
    assert_eq!(constants.len(), 1);
}

#[test]
fn empty_source_parses_to_empty_main_block() {
    let (ast, constants) = parse_ok("");
    assert_eq!(ast.len(), 1);
    match &ast.node(0).unwrap().node {
        Node::MainBlock { body, local_count } => {
            assert!(body.is_empty());
            assert_eq!(*local_count, 0);
        },
        other => panic!("expected a main block, got {:?}", other),
    }
    assert_eq!(constants.len(), 0);
}
