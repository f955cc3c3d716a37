//! The parser: a single-pass, indentation-aware recursive-descent parser
//! producing an arena-allocated AST, a constant pool, and per-function
//! locality analysis.
//!
//! A stack of frames tracks, for each lexical scope, which identifiers are
//! assigned and which are read without a prior local assignment; a nested
//! function's non-local reads propagate to its parent as renewed accesses,
//! so captures survive unless the parent assigns them first. The only
//! backtracking is in list parsing, where a comprehension is tried
//! speculatively and both the lexer and the arena are rolled back if no
//! loop header follows.
//!
//! Recursion and loops carry an explicit fuel so that every call
//! provably terminates; exhausting it is reported as an internal error,
//! far beyond what any real input consumes.

use vstd::prelude::*;

use crate::ast::{ast_wf, check_top_level_spans, entry_is_main_block, top_level_spans_ordered, Ast};
use crate::constants::{ConstantPool, ConstantPoolBuilder, KNumber};
use crate::frame::{frame_wf, keys_unique, sorted_unique, Frame};
use crate::lexer::Lexer;
use crate::node::{
    AssignOp, AssignTarget, AstFor, AstIf, AstIndex, AstOp, AstTry, ConstantIndex, Function,
    LookupNode, MatchArm, Node, Scope,
};
use crate::perror::{InternalError, ParserError, ParserErrorKind, SyntaxError};
use crate::token::{Span, Token};

verus! {

/// The fuel a parse starts with; it bounds the total number of parsing
/// steps and is far beyond what any real source exhausts.
pub const PARSE_FUEL: u64 = 1099511627776;

/// The parser's state: the arena, the constant pool under construction,
/// the token stream, and the frame stack.
pub struct Parser {
    ast: Ast,
    constants: ConstantPoolBuilder,
    lexer: Lexer,
    frame_stack: Vec<Frame>,
}


/// Whether the node at `ix` in the parser's arena satisfies a shape
/// test; the form each parse function's contract uses to pin the kind of
/// node it produced.
spec fn produced(p: Parser, ix: AstIndex) -> Node
    recommends
        ix < p.ast.nodes@.len(),
{
    p.ast.nodes@[ix as int].node
}

/// What continuing an expression yields: either the expression handed in
/// stands unchanged (no operator or assignment followed), or a node was
/// built over it — a binary operation, an assignment, or a loop header
/// that consumed it as its inline body.
spec fn continued_result(post: Parser, ix: AstIndex, lhs: Seq<AstIndex>) -> bool {
    ||| ix == lhs[lhs.len() - 1]
    ||| (ix < post.ast.nodes@.len() && {
        ||| produced(post, ix) matches Node::BinaryOp { .. }
        ||| produced(post, ix) matches Node::Assign { .. }
        ||| produced(post, ix) matches Node::MultiAssign { .. }
        ||| produced(post, ix) matches Node::For(_)
        ||| produced(post, ix) matches Node::While { .. }
        ||| produced(post, ix) matches Node::Until { .. }
    })
}

/// The parse functions only append to the node arena: speculation is
/// rolled back no further than the call's entry, so every node present
/// on entry survives at its index, unchanged.
spec fn ast_extends(post: Parser, pre: Parser) -> bool {
    &&& post.ast.nodes@.len() >= pre.ast.nodes@.len()
    &&& forall|i: int|
        0 <= i < pre.ast.nodes@.len() ==> post.ast.nodes@[i] == pre.ast.nodes@[i]
}


fn tok_is(t: Option<Token>, w: Token) -> (r: bool)
    ensures
        r == (t == Some(w)),
{
    match t {
        Some(x) => x == w,
        None => false,
    }
}

/// The binding powers of the binary operators, left and right: equal
/// operators climb right-associatively for chained comparisons, the
/// arithmetic ones left-associatively; every other token is no operator.
pub open spec fn operator_precedence_spec(op: Token) -> Option<(u8, u8)> {
    match op {
        Token::Or => Some((1u8, 2u8)),
        Token::And => Some((3u8, 4u8)),
        Token::Equal => Some((8u8, 7u8)),
        Token::NotEqual => Some((8u8, 7u8)),
        Token::Greater => Some((10u8, 9u8)),
        Token::GreaterOrEqual => Some((10u8, 9u8)),
        Token::Less => Some((10u8, 9u8)),
        Token::LessOrEqual => Some((10u8, 9u8)),
        Token::Add => Some((11u8, 12u8)),
        Token::Subtract => Some((11u8, 12u8)),
        Token::Multiply => Some((13u8, 14u8)),
        Token::Divide => Some((13u8, 14u8)),
        Token::Modulo => Some((13u8, 14u8)),
        _ => None,
    }
}

fn operator_precedence(op: Token) -> (r: Option<(u8, u8)>)
    ensures
        r == operator_precedence_spec(op),
{
    match op {
        Token::Or => Some((1, 2)),
        Token::And => Some((3, 4)),
        Token::Equal => Some((8, 7)),
        Token::NotEqual => Some((8, 7)),
        Token::Greater => Some((10, 9)),
        Token::GreaterOrEqual => Some((10, 9)),
        Token::Less => Some((10, 9)),
        Token::LessOrEqual => Some((10, 9)),
        Token::Add => Some((11, 12)),
        Token::Subtract => Some((11, 12)),
        Token::Multiply => Some((13, 14)),
        Token::Divide => Some((13, 14)),
        Token::Modulo => Some((13, 14)),
        _ => None,
    }
}

fn token_is_whitespace(op: Token) -> bool {
    op == Token::Whitespace || op == Token::NewLine || op == Token::NewLineIndented
}

/// Checks a frame's well-formedness at run time.
fn check_frame_wf(f: &Frame) -> (r: bool)
    ensures
        r == frame_wf(*f),
{
    let n = f.ids_assigned_in_scope.len();
    let mut i: usize = 1;
    while i < n
        invariant
            1 <= i || n == 0,
            i <= n || n == 0,
            n == f.ids_assigned_in_scope@.len(),
            forall|a: int, b: int|
                0 <= a < b < i && b < n ==> f.ids_assigned_in_scope@[a]
                    < f.ids_assigned_in_scope@[b],
        decreases n - i,
    {
        if f.ids_assigned_in_scope[i - 1] >= f.ids_assigned_in_scope[i] {
            return false;
        }
        proof {
            assert forall|a: int, b: int|
                0 <= a < b < i + 1 && b < n implies f.ids_assigned_in_scope@[a]
                < f.ids_assigned_in_scope@[b] by {
                if b == i {
                    assert(f.ids_assigned_in_scope@[a] <= f.ids_assigned_in_scope@[i - 1]);
                }
            }
        }
        i = i + 1;
    }
    proof {
        assert(sorted_unique(f.ids_assigned_in_scope@));
    }
    let m = f.accessed_non_locals.len();
    let mut j: usize = 1;
    while j < m
        invariant
            1 <= j || m == 0,
            j <= m || m == 0,
            m == f.accessed_non_locals@.len(),
            forall|a: int, b: int|
                0 <= a < b < j && b < m ==> f.accessed_non_locals@[a] < f.accessed_non_locals@[b],
        decreases m - j,
    {
        if f.accessed_non_locals[j - 1] >= f.accessed_non_locals[j] {
            return false;
        }
        proof {
            assert forall|a: int, b: int|
                0 <= a < b < j + 1 && b < m implies f.accessed_non_locals@[a]
                < f.accessed_non_locals@[b] by {
                if b == j {
                    assert(f.accessed_non_locals@[a] <= f.accessed_non_locals@[j - 1]);
                }
            }
        }
        j = j + 1;
    }
    proof {
        assert(sorted_unique(f.accessed_non_locals@));
    }
    let q = f.assigned_in_expression.len();
    let mut k: usize = 1;
    while k < q
        invariant
            1 <= k || q == 0,
            k <= q || q == 0,
            q == f.assigned_in_expression@.len(),
            forall|a: int, b: int|
                0 <= a < b < k && b < q ==> f.assigned_in_expression@[a]
                    < f.assigned_in_expression@[b],
        decreases q - k,
    {
        if f.assigned_in_expression[k - 1] >= f.assigned_in_expression[k] {
            return false;
        }
        proof {
            assert forall|a: int, b: int|
                0 <= a < b < k + 1 && b < q implies f.assigned_in_expression@[a]
                < f.assigned_in_expression@[b] by {
                if b == k {
                    assert(f.assigned_in_expression@[a] <= f.assigned_in_expression@[k - 1]);
                }
            }
        }
        k = k + 1;
    }
    proof {
        assert(sorted_unique(f.assigned_in_expression@));
    }
    let p = f.expression_id_accesses.len();
    for a in 0..p
        invariant
            p == f.expression_id_accesses@.len(),
            sorted_unique(f.ids_assigned_in_scope@),
            sorted_unique(f.accessed_non_locals@),
            sorted_unique(f.assigned_in_expression@),
            forall|x: int, y: int|
                0 <= x < y < p && x < a ==> f.expression_id_accesses@[x].0
                    != f.expression_id_accesses@[y].0,
        decreases p - a,
    {
        let key = f.expression_id_accesses[a].0;
        let mut b = a + 1;
        while b < p
            invariant
                a < b <= p,
                p == f.expression_id_accesses@.len(),
                key == f.expression_id_accesses@[a as int].0,
                forall|y: int|
                    a < y < b ==> f.expression_id_accesses@[y].0
                        != f.expression_id_accesses@[a as int].0,
            decreases p - b,
        {
            if f.expression_id_accesses[b].0 == key {
                return false;
            }
            b = b + 1;
        }
    }
    proof {
        assert(keys_unique(f.expression_id_accesses@));
    }
    true
}

/// Checks a whole arena's well-formedness at run time.
fn check_ast_wf(a: &Ast) -> (r: bool)
    ensures
        r == ast_wf(*a),
{
    let n = a.len();
    for i in 0..n
        invariant
            n == a.nodes@.len(),
            forall|j: int|
                0 <= j < i ==> crate::node::node_children_below(
                    (#[trigger] a.nodes@[j]).node,
                    j,
                ),
        decreases n - i,
    {
        match a.node(i as u32) {
            Some(row) => {
                if !crate::node::check_node_children(&row.node, i as u32) {
                    return false;
                }
            },
            None => {
                return false;
            },
        }
    }
    match a.entry_point() {
        Some(e) => (e as usize) < n,
        None => true,
    }
}

impl Parser {
    fn internal_err(&self, e: InternalError) -> ParserError {
        ParserError::new(ParserErrorKind::Internal(e), self.lexer.span())
    }

    fn syntax_err(&self, e: SyntaxError) -> ParserError {
        ParserError::new(ParserErrorKind::Syntax(e), self.lexer.span())
    }

    fn peek_token(&self) -> (r: Option<Token>)
        ensures
            r is Some <==> self.lexer.pos < self.lexer.tokens@.len(),
    {
        self.lexer.peek()
    }

    fn peek_token_n(&self, n: usize) -> (r: Option<Token>)
        ensures
            r is Some ==> self.lexer.pos + n < self.lexer.tokens@.len(),
    {
        self.lexer.peek_n(n)
    }

    fn consume_token(&mut self) -> (r: Option<Token>)
        ensures
            final(self).ast == old(self).ast,
            final(self).lexer.tokens == old(self).lexer.tokens,
            r is Some ==> old(self).lexer.pos < old(self).lexer.tokens@.len()
                && final(self).lexer.pos == old(self).lexer.pos + 1,
            r is None ==> *final(self) == *old(self),
            old(self).lexer.pos < old(self).lexer.tokens@.len() ==> r is Some,
    {
        self.lexer.advance()
    }

    fn push_node(&mut self, node: Node) -> (r: Result<AstIndex, ParserError>)
        ensures
            ast_extends(*final(self), *old(self)),
            r matches Ok(ix) ==> ix == old(self).ast.nodes@.len()
                && final(self).ast.nodes@.len() == old(self).ast.nodes@.len() + 1
                && produced(*final(self), ix) == node,
            (old(self).ast.nodes@.len() < 4294967295 && crate::node::node_children_below(
                node,
                old(self).ast.nodes@.len() as int,
            )) ==> r is Ok,
    {
        let span = self.lexer.span();
        match self.ast.push(node, span) {
            Ok(ix) => Ok(ix),
            Err(_) => Err(self.internal_err(InternalError::AstCapacityOverflow)),
        }
    }

    fn push_node_with_start_span(&mut self, node: Node, start_span: Span) -> (r: Result<
        AstIndex,
        ParserError,
    >)
        ensures
            ast_extends(*final(self), *old(self)),
            r matches Ok(ix) ==> ix == old(self).ast.nodes@.len()
                && final(self).ast.nodes@.len() == old(self).ast.nodes@.len() + 1
                && produced(*final(self), ix) == node,
            (old(self).ast.nodes@.len() < 4294967295 && crate::node::node_children_below(
                node,
                old(self).ast.nodes@.len() as int,
            )) ==> r is Ok,
    {
        let span = Span { start: start_span.start, end: self.lexer.span().end };
        match self.ast.push(node, span) {
            Ok(ix) => Ok(ix),
            Err(_) => Err(self.internal_err(InternalError::AstCapacityOverflow)),
        }
    }

    fn push_node_with_span(&mut self, node: Node, span: Span) -> (r: Result<AstIndex, ParserError>)
        ensures
            ast_extends(*final(self), *old(self)),
            r matches Ok(ix) ==> ix == old(self).ast.nodes@.len()
                && final(self).ast.nodes@.len() == old(self).ast.nodes@.len() + 1
                && produced(*final(self), ix) == node,
            (old(self).ast.nodes@.len() < 4294967295 && crate::node::node_children_below(
                node,
                old(self).ast.nodes@.len() as int,
            )) ==> r is Ok,
    {
        match self.ast.push(node, span) {
            Ok(ix) => Ok(ix),
            Err(_) => Err(self.internal_err(InternalError::AstCapacityOverflow)),
        }
    }

    fn add_string_constant(&mut self, s: &str) -> (r: Result<ConstantIndex, ParserError>)
        ensures
            final(self).ast == old(self).ast,
    {
        let ix = self.constants.add_string(s);
        if ix < 4294967295usize {
            Ok(ix as u32)
        } else {
            Err(self.internal_err(InternalError::ConstantPoolCapacityOverflow))
        }
    }

    fn add_number_constant(&mut self, n: KNumber) -> (r: Result<ConstantIndex, ParserError>)
        ensures
            final(self).ast == old(self).ast,
    {
        let ix = self.constants.add_number(n);
        if ix < 4294967295usize {
            Ok(ix as u32)
        } else {
            Err(self.internal_err(InternalError::ConstantPoolCapacityOverflow))
        }
    }

    /// Runs an operation on the innermost frame; an empty frame stack is
    /// an internal error.
    fn frame_increment(&mut self, id: ConstantIndex) -> (r: Result<(), ParserError>)
        ensures
            final(self).ast == old(self).ast,
    {
        match self.frame_stack.pop() {
            Some(mut fr) => {
                if !check_frame_wf(&fr) {
                    self.frame_stack.push(fr);
                    return Err(self.internal_err(InternalError::MissingScope));
                }
                fr.increment_expression_access_for_id(id);
                self.frame_stack.push(fr);
                Ok(())
            },
            None => Err(self.internal_err(InternalError::MissingScope)),
        }
    }

    fn frame_decrement(&mut self, id: ConstantIndex) -> (r: Result<bool, ParserError>)
        ensures
            final(self).ast == old(self).ast,
    {
        match self.frame_stack.pop() {
            Some(mut fr) => {
                if !check_frame_wf(&fr) {
                    self.frame_stack.push(fr);
                    return Err(self.internal_err(InternalError::MissingScope));
                }
                let r = fr.decrement_expression_access_for_id(id);
                self.frame_stack.push(fr);
                Ok(r.is_ok())
            },
            None => Err(self.internal_err(InternalError::MissingScope)),
        }
    }

    fn frame_assign(&mut self, id: ConstantIndex) -> (r: Result<(), ParserError>)
        ensures
            final(self).ast == old(self).ast,
    {
        match self.frame_stack.pop() {
            Some(mut fr) => {
                if !check_frame_wf(&fr) {
                    self.frame_stack.push(fr);
                    return Err(self.internal_err(InternalError::MissingScope));
                }
                crate::frame::set_insert(&mut fr.ids_assigned_in_scope, id);
                self.frame_stack.push(fr);
                Ok(())
            },
            None => Err(self.internal_err(InternalError::MissingScope)),
        }
    }

    /// Records an assignment target of the current expression: newly
    /// assigned identifiers are also noted as assigned within this very
    /// expression, so a read of them that survives the expression still
    /// counts as a capture.
    fn frame_assign_in_expression(&mut self, id: ConstantIndex) -> (r: Result<(), ParserError>)
        ensures
            final(self).ast == old(self).ast,
    {
        match self.frame_stack.pop() {
            Some(mut fr) => {
                if !check_frame_wf(&fr) {
                    self.frame_stack.push(fr);
                    return Err(self.internal_err(InternalError::MissingScope));
                }
                if !crate::frame::set_contains(&fr.ids_assigned_in_scope, id) {
                    crate::frame::set_insert(&mut fr.assigned_in_expression, id);
                }
                crate::frame::set_insert(&mut fr.ids_assigned_in_scope, id);
                self.frame_stack.push(fr);
                Ok(())
            },
            None => Err(self.internal_err(InternalError::MissingScope)),
        }
    }

    fn frame_finish_expressions(&mut self) -> (r: Result<(), ParserError>)
        ensures
            final(self).ast == old(self).ast,
    {
        match self.frame_stack.pop() {
            Some(mut fr) => {
                if !check_frame_wf(&fr) {
                    self.frame_stack.push(fr);
                    return Err(self.internal_err(InternalError::MissingScope));
                }
                fr.finish_expressions();
                self.frame_stack.push(fr);
                Ok(())
            },
            None => Err(self.internal_err(InternalError::MissingScope)),
        }
    }

    fn frame_set_yield(&mut self) -> (r: Result<(), ParserError>)
        ensures
            final(self).ast == old(self).ast,
    {
        match self.frame_stack.pop() {
            Some(mut fr) => {
                fr.contains_yield = true;
                self.frame_stack.push(fr);
                Ok(())
            },
            None => Err(self.internal_err(InternalError::MissingScope)),
        }
    }

    fn peek_until_next_token(&self) -> Option<Token> {
        let total = self.lexer.tokens.len();
        let mut k: usize = 0;
        loop
            invariant
                k <= total,
                total == self.lexer.tokens@.len(),
            decreases self.lexer.tokens@.len() - (self.lexer.pos + k),
        {
            let peeked = self.peek_token_n(k);
            match peeked {
                Some(t) => {
                    if t == Token::Whitespace || t == Token::NewLine || t == Token::NewLineIndented
                        || t == Token::NewLineSkipped || t == Token::CommentMulti || t
                        == Token::CommentSingle {
                        k = k + 1;
                    } else {
                        return Some(t);
                    }
                },
                None => {
                    return None;
                },
            }
        }
    }

    fn consume_until_next_token(&mut self) -> (r: Option<Token>)
        ensures
            final(self).ast == old(self).ast,
            final(self).constants == old(self).constants,
            final(self).frame_stack == old(self).frame_stack,
            old(self).lexer.tokens@.len() == 0 ==> r is None,
            final(self).lexer.tokens == old(self).lexer.tokens,
    {
        loop
            invariant
                self.lexer.tokens == old(self).lexer.tokens,
                old(self).lexer.tokens@.len() == 0 ==> self.lexer.pos
                    == old(self).lexer.pos,
                self.ast == old(self).ast,
                self.constants == old(self).constants,
                self.frame_stack == old(self).frame_stack,
            decreases self.lexer.tokens@.len() - self.lexer.pos,
        {
            let peeked = self.peek_token();
            match peeked {
                Some(t) => {
                    if t == Token::Whitespace || t == Token::NewLine || t == Token::NewLineIndented
                        || t == Token::NewLineSkipped || t == Token::CommentMulti || t
                        == Token::CommentSingle {
                        let ghost p0 = self.lexer.pos;
                        let stepped = self.lexer.advance();
                        proof {
                            if stepped is None {
                                assert(false);
                            }
                        }
                    } else {
                        return Some(t);
                    }
                },
                None => {
                    return None;
                },
            }
        }
    }

    fn skip_whitespace_and_peek(&mut self) -> (r: Option<Token>)
        ensures
            final(self).ast == old(self).ast,
            final(self).constants == old(self).constants,
            final(self).frame_stack == old(self).frame_stack,
    {
        loop
            invariant
                self.ast == old(self).ast,
                self.constants == old(self).constants,
                self.frame_stack == old(self).frame_stack,
            decreases self.lexer.tokens@.len() - self.lexer.pos,
        {
            let peeked = self.peek_token();
            match peeked {
                Some(t) => {
                    if t == Token::Whitespace || t == Token::NewLineSkipped {
                        let stepped = self.lexer.advance();
                        proof {
                            if stepped is None {
                                assert(false);
                            }
                        }
                    } else {
                        return Some(t);
                    }
                },
                None => {
                    return None;
                },
            }
        }
    }

    fn skip_whitespace_and_next(&mut self) -> (r: Option<Token>)
        ensures
            final(self).ast == old(self).ast,
            final(self).constants == old(self).constants,
            final(self).frame_stack == old(self).frame_stack,
    {
        loop
            invariant
                self.ast == old(self).ast,
                self.constants == old(self).constants,
                self.frame_stack == old(self).frame_stack,
            decreases self.lexer.tokens@.len() - self.lexer.pos,
        {
            let peeked = self.peek_token();
            match peeked {
                Some(t) => {
                    if t == Token::Whitespace || t == Token::NewLineSkipped {
                        let stepped = self.lexer.advance();
                        proof {
                            if stepped is None {
                                assert(false);
                            }
                        }
                    } else {
                        return self.lexer.advance();
                    }
                },
                None => {
                    return None;
                },
            }
        }
    }

    fn next_token_is_lookup_start(&self) -> bool {
        let t = self.peek_token();
        tok_is(t, Token::Dot) || tok_is(t, Token::ListStart) || tok_is(t, Token::ParenOpen)
    }
}

impl Parser {
    /// Parses a source text: the result is a well-formed AST whose entry
    /// point is a main block holding the top-level statements in source
    /// order, together with the constant pool, or the first error.
    pub fn parse(source: &str) -> (r: Result<(Ast, ConstantPool), ParserError>)
        ensures
            match r {
                Ok(p) => ast_wf(p.0) && entry_is_main_block(p.0) && top_level_spans_ordered(p.0),
                Err(_) => true,
            },
            source@.len() == 0 ==> (r matches Ok(p) && p.0.nodes@.len() == 1 && p.0.entry
                == Some(0u32) && (p.0.nodes@[0].node matches Node::MainBlock {
                body,
                local_count,
            } && body@.len() == 0 && local_count == 0)),
    {
        let capacity_guess = source.unicode_len() / 4;
        let mut parser = Parser {
            ast: Ast::with_capacity(capacity_guess),
            constants: ConstantPoolBuilder::new(),
            lexer: Lexer::new(source),
            frame_stack: Vec::new(),
        };
        let main_block = parser.parse_main_block(PARSE_FUEL)?;
        parser.ast.set_entry_point(main_block);
        proof {
            if source@.len() == 0 {
                assert(crate::node::node_children_below(parser.ast.nodes@[0].node, 0));
                assert(ast_wf(parser.ast));
                assert(top_level_spans_ordered(parser.ast));
            }
        }
        if !check_ast_wf(&parser.ast) {
            return Err(parser.internal_err(InternalError::AstConsistencyFailure));
        }
        let entry_ok = match parser.ast.entry_point() {
            Some(e) => match parser.ast.node(e) {
                Some(row) => match row.node {
                    Node::MainBlock { .. } => true,
                    _ => false,
                },
                None => false,
            },
            None => false,
        };
        if !entry_ok {
            return Err(parser.internal_err(InternalError::AstConsistencyFailure));
        }
        if !check_top_level_spans(&parser.ast) {
            return Err(parser.internal_err(InternalError::AstConsistencyFailure));
        }
        Ok((parser.ast, parser.constants.build()))
    }

    fn parse_main_block(&mut self, fuel: u64) -> (r: Result<AstIndex, ParserError>)
        ensures
            ast_extends(*final(self), *old(self)),
            r matches Ok(ix) ==> ix < final(self).ast.nodes@.len() && (produced(*final(self), ix) matches Node::MainBlock { .. }),
            (fuel > 2 && old(self).lexer.tokens@.len() == 0 && old(self).ast.nodes@.len() == 0)
                ==> (r matches Ok(ix) && ix == 0 && final(self).ast.nodes@.len() == 1 && (
            produced(*final(self), 0) matches Node::MainBlock { body, local_count }
                && body@.len() == 0 && local_count == 0)),
        decreases fuel,
    {
        if fuel == 0 {
            return Err(self.internal_err(InternalError::FuelExhausted));
        }
        let f = fuel - 1;
        let fr0 = Frame::new(true);
        let ghost fr0g = fr0;
        self.frame_stack.push(fr0);
        let mut body: Vec<AstIndex> = Vec::new();
        let mut lf: u64 = f;
        loop
            invariant_except_break
                old(self).lexer.tokens@.len() == 0 ==> (self.lexer.tokens@.len() == 0 && lf + 1
                    >= fuel),
            invariant
                ast_extends(*self, *old(self)),
                old(self).lexer.tokens@.len() == 0 ==> (body@.len() == 0 && self.ast == old(
                    self,
                ).ast && self.frame_stack@ == old(self).frame_stack@.push(fr0g)),
                lf < fuel,
            decreases lf,
        {
            if lf == 0 {
                return Err(self.internal_err(InternalError::FuelExhausted));
            }
            lf = lf - 1;
            if self.consume_until_next_token().is_none() {
                break;
            }
            match self.parse_line(lf)? {
                Some(expression) => {
                    body.push(expression);
                },
                None => {
                    return Err(self.syntax_err(SyntaxError::ExpectedExpressionInMainBlock));
                },
            }
        }
        let local_count = match self.frame_stack.pop() {
            Some(fr) => {
                let c = fr.local_count();
                self.frame_stack.push(fr);
                c
            },
            None => {
                return Err(self.internal_err(InternalError::MissingScope));
            },
        };
        let result = self.push_node_with_span(
            Node::MainBlock { body, local_count },
            Span::zero(),
        )?;
        let _ = self.frame_stack.pop();
        Ok(result)
    }

    fn parse_function(&mut self, fuel: u64) -> (r: Result<Option<AstIndex>, ParserError>)
        ensures
            ast_extends(*final(self), *old(self)),
            r matches Ok(Some(ix)) ==> ix < final(self).ast.nodes@.len() && (produced(*final(self), ix) matches Node::Function(_)),
        decreases fuel,
    {
        if fuel == 0 {
            return Err(self.internal_err(InternalError::FuelExhausted));
        }
        let f = fuel - 1;
        if !tok_is(self.skip_whitespace_and_peek(), Token::Function) {
            return Err(self.internal_err(InternalError::FunctionParseFailure));
        }
        let current_indent = self.lexer.current_indent();
        self.consume_token();
        let span_start = self.lexer.span().start;
        let mut args: Vec<ConstantIndex> = Vec::new();
        let mut lf: u64 = f;
        loop
            invariant
                ast_extends(*self, *old(self)),
                lf < fuel,
            decreases lf,
        {
            if lf == 0 {
                return Err(self.internal_err(InternalError::FuelExhausted));
            }
            lf = lf - 1;
            self.consume_until_next_token();
            match self.parse_id(true)? {
                Some(constant_index) => {
                    args.push(constant_index);
                },
                None => {
                    break;
                },
            }
        }
        if !tok_is(self.skip_whitespace_and_next(), Token::Function) {
            return Err(self.syntax_err(SyntaxError::ExpectedFunctionArgsEnd));
        }
        // body
        let mut function_frame = Frame::new(false);
        let an = args.len();
        for i in 0..an
            invariant
                ast_extends(*self, *old(self)),
                an == args.len(),
                frame_wf(function_frame),
            decreases an - i,
        {
            crate::frame::set_insert(&mut function_frame.ids_assigned_in_scope, args[i]);
        }
        self.frame_stack.push(function_frame);
        let body = if tok_is(self.skip_whitespace_and_peek(), Token::NewLineIndented)
            && self.lexer.next_indent() > current_indent {
            match self.parse_indented_map_or_block(f, current_indent)? {
                Some(block) => block,
                None => {
                    return Err(self.internal_err(InternalError::FunctionParseFailure));
                },
            }
        } else {
            match self.parse_line(f)? {
                Some(body) => body,
                None => {
                    return Err(self.syntax_err(SyntaxError::ExpectedFunctionBody));
                },
            }
        };
        let function_frame = match self.frame_stack.pop() {
            Some(fr) => fr,
            None => {
                return Err(self.internal_err(InternalError::MissingScope));
            },
        };
        match self.frame_stack.pop() {
            Some(mut parent) => {
                if !check_frame_wf(&parent) {
                    self.frame_stack.push(parent);
                    return Err(self.internal_err(InternalError::MissingScope));
                }
                parent.add_nested_accessed_non_locals(&function_frame);
                self.frame_stack.push(parent);
            },
            None => {
                return Err(self.internal_err(InternalError::MissingScope));
            },
        }
        let local_count = function_frame.local_count();
        let span_end = self.lexer.span().end;
        let result = self.push_node_with_span(
            Node::Function(
                Function {
                    args,
                    local_count,
                    accessed_non_locals: function_frame.accessed_non_locals,
                    body,
                    is_generator: function_frame.contains_yield,
                },
            ),
            Span { start: span_start, end: span_end },
        )?;
        Ok(Some(result))
    }

    fn parse_line(&mut self, fuel: u64) -> (r: Result<Option<AstIndex>, ParserError>)
        ensures
            ast_extends(*final(self), *old(self)),
        decreases fuel,
    {
        if fuel == 0 {
            return Err(self.internal_err(InternalError::FuelExhausted));
        }
        let f = fuel - 1;
        let result = if let Some(for_loop) = self.parse_for_loop(f, None)? {
            for_loop
        } else if let Some(loop_block) = self.parse_loop_block(f)? {
            loop_block
        } else if let Some(while_loop) = self.parse_while_loop(f, None)? {
            while_loop
        } else if let Some(until_loop) = self.parse_until_loop(f, None)? {
            until_loop
        } else if let Some(export_id) = self.parse_export_id(f)? {
            export_id
        } else if let Some(debug_expression) = self.parse_debug_expression(f)? {
            debug_expression
        } else if let Some(result) = self.parse_primary_expressions(f, false)? {
            result
        } else {
            return Ok(None);
        };
        self.frame_finish_expressions()?;
        Ok(Some(result))
    }

    fn parse_primary_expressions(
        &mut self,
        fuel: u64,
        allow_initial_indentation: bool,
    ) -> (r: Result<Option<AstIndex>, ParserError>)
        ensures
            ast_extends(*final(self), *old(self)),
            r matches Ok(Some(ix)) ==> ix < final(self).ast.nodes@.len(),
        decreases fuel,
    {
        if fuel == 0 {
            return Err(self.internal_err(InternalError::FuelExhausted));
        }
        let f = fuel - 1;
        let current_indent = self.lexer.current_indent();
        let mut expected_indent: Option<usize> = None;
        if allow_initial_indentation && tok_is(
            self.skip_whitespace_and_peek(),
            Token::NewLineIndented,
        ) {
            self.consume_until_next_token();
            let indent = self.lexer.current_indent();
            if indent <= current_indent {
                return Ok(None);
            }
            expected_indent = Some(indent);
            if let Some(map_block) = self.parse_map_block(f, current_indent, expected_indent)? {
                return Ok(Some(map_block));
            }
        }
        match self.parse_primary_expression(f)? {
            Some(first) => {
                let mut expressions: Vec<AstIndex> = Vec::new();
                expressions.push(first);
                let mut lf: u64 = f;
                loop
                    invariant
                        ast_extends(*self, *old(self)),
                        first < self.ast.nodes@.len(),
                        lf < fuel,
                    decreases lf,
                {
                    if lf == 0 {
                        return Err(self.internal_err(InternalError::FuelExhausted));
                    }
                    lf = lf - 1;
                    if !tok_is(self.skip_whitespace_and_peek(), Token::Separator) {
                        break;
                    }
                    self.consume_token();
                    if tok_is(self.skip_whitespace_and_peek(), Token::NewLineIndented) {
                        self.consume_until_next_token();
                        let next_indent = self.lexer.next_indent();
                        match expected_indent {
                            Some(expected) => {
                                if next_indent < expected {
                                    break;
                                } else if next_indent > expected {
                                    return Err(
                                        self.syntax_err(SyntaxError::UnexpectedIndentation),
                                    );
                                }
                            },
                            None => {
                                if next_indent <= current_indent {
                                    break;
                                } else {
                                    expected_indent = Some(next_indent);
                                }
                            },
                        }
                    }
                    match self.parse_primary_expression_with_lhs(lf, Some(&expressions))? {
                        Some(next_expression) => {
                            let consumed_lhs = match self.ast.node(next_expression) {
                                Some(row) => match &row.node {
                                    Node::Assign { .. } => true,
                                    Node::MultiAssign { .. } => true,
                                    Node::For(_) => true,
                                    Node::While { .. } => true,
                                    Node::Until { .. } => true,
                                    _ => false,
                                },
                                None => false,
                            };
                            if consumed_lhs {
                                // these forms consumed the expressions
                                // already parsed, so nothing more to do
                                return Ok(Some(next_expression));
                            }
                            expressions.push(next_expression);
                        },
                        None => {
                            break;
                        },
                    }
                }
                if expressions.len() == 1 {
                    Ok(Some(first))
                } else {
                    Ok(Some(self.push_node(Node::Expressions(expressions))?))
                }
            },
            None => Ok(None),
        }
    }

    fn parse_primary_expression_with_lhs(
        &mut self,
        fuel: u64,
        lhs: Option<&Vec<AstIndex>>,
    ) -> (r: Result<Option<AstIndex>, ParserError>)
        ensures
            ast_extends(*final(self), *old(self)),
            r matches Ok(Some(ix)) ==> ix < final(self).ast.nodes@.len(),
        decreases fuel,
    {
        if fuel == 0 {
            return Err(self.internal_err(InternalError::FuelExhausted));
        }
        self.parse_expression_start(fuel - 1, lhs, 0, true)
    }

    fn parse_primary_expression(&mut self, fuel: u64) -> (r: Result<Option<AstIndex>, ParserError>)
        ensures
            ast_extends(*final(self), *old(self)),
            r matches Ok(Some(ix)) ==> ix < final(self).ast.nodes@.len(),
        decreases fuel,
    {
        if fuel == 0 {
            return Err(self.internal_err(InternalError::FuelExhausted));
        }
        self.parse_expression_start(fuel - 1, None, 0, true)
    }

    fn parse_non_primary_expression(&mut self, fuel: u64) -> (r: Result<Option<AstIndex>, ParserError>)
        ensures
            ast_extends(*final(self), *old(self)),
            r matches Ok(Some(ix)) ==> ix < final(self).ast.nodes@.len(),
        decreases fuel,
    {
        if fuel == 0 {
            return Err(self.internal_err(InternalError::FuelExhausted));
        }
        self.parse_expression_start(fuel - 1, None, 0, false)
    }

    fn parse_expression_start(
        &mut self,
        fuel: u64,
        lhs: Option<&Vec<AstIndex>>,
        min_precedence: u8,
        primary_expression: bool,
    ) -> (r: Result<Option<AstIndex>, ParserError>)
        ensures
            ast_extends(*final(self), *old(self)),
            r matches Ok(Some(ix)) ==> ix < final(self).ast.nodes@.len(),
        decreases fuel,
    {
        if fuel == 0 {
            return Err(self.internal_err(InternalError::FuelExhausted));
        }
        let f = fuel - 1;
        let start_line = self.lexer.line_number();
        let expression_start = {
            // id expressions are handled apart to allow calls in first
            // position
            let expression = if let Some(expression) = self.parse_negatable_expression(f)? {
                Some(expression)
            } else if let Some(expression) = self.parse_id_expression(f, primary_expression)? {
                Some(expression)
            } else {
                self.parse_term(f, primary_expression)?
            };
            let peeked = self.peek_token();
            if tok_is(peeked, Token::Range) || tok_is(peeked, Token::RangeInclusive) {
                return self.parse_range(f, expression);
            }
            match expression {
                Some(expression) => expression,
                None => {
                    return Ok(None);
                },
            }
        };
        let continue_expression = start_line == self.lexer.line_number();
        if continue_expression {
            match lhs {
                Some(lhs_vec) => {
                    let mut lhs_with_start: Vec<AstIndex> = Vec::new();
                    let ln = lhs_vec.len();
                    for i in 0..ln
                        invariant
                            ast_extends(*self, *old(self)),
                            ln == lhs_vec.len(),
                        decreases ln - i,
                    {
                        lhs_with_start.push(lhs_vec[i]);
                    }
                    lhs_with_start.push(expression_start);
                    self.parse_expression_continued(
                        f,
                        &lhs_with_start,
                        min_precedence,
                        primary_expression,
                    )
                },
                None => {
                    let mut single: Vec<AstIndex> = Vec::new();
                    single.push(expression_start);
                    self.parse_expression_continued(f, &single, min_precedence, primary_expression)
                },
            }
        } else {
            Ok(Some(expression_start))
        }
    }

    fn parse_expression_continued(
        &mut self,
        fuel: u64,
        lhs: &Vec<AstIndex>,
        min_precedence: u8,
        primary_expression: bool,
    ) -> (r: Result<Option<AstIndex>, ParserError>)
        ensures
            ast_extends(*final(self), *old(self)),
            r matches Ok(Some(ix)) ==> continued_result(*final(self), ix, lhs@),
        decreases fuel,
    {
        if fuel == 0 {
            return Err(self.internal_err(InternalError::FuelExhausted));
        }
        let f = fuel - 1;
        if lhs.len() == 0 {
            return Err(self.internal_err(InternalError::MissingContinuedExpressionLhs));
        }
        let last_lhs = lhs[lhs.len() - 1];
        match self.skip_whitespace_and_peek() {
            Some(next) => {
                if next == Token::NewLine || next == Token::NewLineIndented {
                    if let Some(maybe_operator) = self.peek_until_next_token() {
                        if operator_precedence(maybe_operator).is_some() {
                            self.consume_until_next_token();
                            return self.parse_expression_continued(
                                f,
                                lhs,
                                min_precedence,
                                primary_expression,
                            );
                        }
                    }
                } else if next == Token::For && primary_expression {
                    return self.parse_for_loop(f, Some(lhs));
                } else if next == Token::While && primary_expression {
                    return self.parse_while_loop(f, Some(lhs));
                } else if next == Token::Until && primary_expression {
                    return self.parse_until_loop(f, Some(lhs));
                } else if next == Token::Assign {
                    return self.parse_assign_expression(f, lhs, AssignOp::Equal);
                } else if next == Token::AssignAdd {
                    return self.parse_assign_expression(f, lhs, AssignOp::Add);
                } else if next == Token::AssignSubtract {
                    return self.parse_assign_expression(f, lhs, AssignOp::Subtract);
                } else if next == Token::AssignMultiply {
                    return self.parse_assign_expression(f, lhs, AssignOp::Multiply);
                } else if next == Token::AssignDivide {
                    return self.parse_assign_expression(f, lhs, AssignOp::Divide);
                } else if next == Token::AssignModulo {
                    return self.parse_assign_expression(f, lhs, AssignOp::Modulo);
                } else {
                    if let Some((left_priority, right_priority)) = operator_precedence(next) {
                        if let Some(token_after_op) = self.peek_token_n(1) {
                            if token_is_whitespace(token_after_op) && left_priority
                                >= min_precedence {
                                let op = match self.consume_token() {
                                    Some(op) => op,
                                    None => {
                                        return Err(
                                            self.internal_err(InternalError::UnexpectedToken),
                                        );
                                    },
                                };
                                let current_indent = self.lexer.current_indent();
                                let rhs = if let Some(map_block) = self.parse_map_block(
                                    f,
                                    current_indent,
                                    None,
                                )? {
                                    map_block
                                } else if let Some(rhs_expression) = self.parse_expression_start(
                                    f,
                                    None,
                                    right_priority,
                                    primary_expression,
                                )? {
                                    rhs_expression
                                } else {
                                    return Err(self.syntax_err(SyntaxError::ExpectedRhsExpression));
                                };
                                let op_node = self.push_ast_op(op, last_lhs, rhs)?;
                                let mut new_lhs: Vec<AstIndex> = Vec::new();
                                new_lhs.push(op_node);
                                return self.parse_expression_continued(
                                    f,
                                    &new_lhs,
                                    min_precedence,
                                    primary_expression,
                                );
                            }
                        }
                    }
                }
            },
            None => {},
        }
        Ok(Some(last_lhs))
    }

    fn parse_assign_expression(
        &mut self,
        fuel: u64,
        lhs: &Vec<AstIndex>,
        assign_op: AssignOp,
) -> (r: Result<Option<AstIndex>, ParserError>)
        ensures
            ast_extends(*final(self), *old(self)),
            r matches Ok(Some(ix)) ==> ix < final(self).ast.nodes@.len() && (produced(*final(self), ix) matches Node::Assign { .. } || produced(*final(self), ix) matches Node::MultiAssign { .. }),
        decreases fuel,
    {
        if fuel == 0 {
            return Err(self.internal_err(InternalError::FuelExhausted));
        }
        let f = fuel - 1;
        self.consume_token();
        let mut targets: Vec<AssignTarget> = Vec::new();
        let ln = lhs.len();
        for i in 0..ln
            invariant
                ast_extends(*self, *old(self)),
                ln == lhs.len(),
            decreases ln - i,
        {
            let lhs_expression = lhs[i];
            let id_or_lookup: Result<Option<ConstantIndex>, ()> = match self.ast.node(
                lhs_expression,
            ) {
                Some(row) => match &row.node {
                    Node::Id(id_index) => Ok(Some(*id_index)),
                    Node::Lookup(_) => Ok(None),
                    _ => Err(()),
                },
                None => Err(()),
            };
            match id_or_lookup {
                Ok(Some(id_index)) => {
                    if assign_op == AssignOp::Equal {
                        let decremented = self.frame_decrement(id_index)?;
                        if !decremented {
                            return Err(
                                self.internal_err(InternalError::UnexpectedIdInExpression),
                            );
                        }
                        self.frame_assign_in_expression(id_index)?;
                    }
                },
                Ok(None) => {},
                Err(_) => {
                    return Err(self.syntax_err(SyntaxError::ExpectedAssignmentTarget));
                },
            }
            targets.push(AssignTarget { target_index: lhs_expression, scope: Scope::Local });
        }
        if targets.len() == 0 {
            return Err(self.internal_err(InternalError::MissingAssignmentTarget));
        }
        match self.parse_primary_expressions(f, true)? {
            Some(rhs) => {
                let node = if targets.len() == 1 {
                    Node::Assign { target: targets[0], op: assign_op, expression: rhs }
                } else {
                    Node::MultiAssign { targets, expressions: rhs }
                };
                Ok(Some(self.push_node(node)?))
            },
            None => Err(self.syntax_err(SyntaxError::ExpectedRhsExpression)),
        }
    }

    fn parse_id(&mut self, allow_wildcards: bool) -> (r: Result<Option<ConstantIndex>, ParserError>)
        ensures
            final(self).ast == old(self).ast,
    {
        match self.skip_whitespace_and_peek() {
            Some(Token::Id) => {
                self.consume_token();
                let text = self.lexer.slice().clone();
                Ok(Some(self.add_string_constant(text.as_str())?))
            },
            Some(Token::Wildcard) => {
                if allow_wildcards {
                    self.consume_token();
                    let text = self.lexer.slice().clone();
                    Ok(Some(self.add_string_constant(text.as_str())?))
                } else {
                    Ok(None)
                }
            },
            _ => Ok(None),
        }
    }

    fn parse_id_or_string(&mut self) -> (r: Result<Option<ConstantIndex>, ParserError>)
        ensures
            final(self).ast == old(self).ast,
    {
        match self.skip_whitespace_and_peek() {
            Some(Token::Id) => {
                self.consume_token();
                let text = self.lexer.slice().clone();
                Ok(Some(self.add_string_constant(text.as_str())?))
            },
            Some(Token::Str) => {
                self.consume_token();
                let text = self.trimmed_string_slice();
                Ok(Some(self.add_string_constant(text.as_str())?))
            },
            _ => Ok(None),
        }
    }

    /// The text of the just-consumed string token, without its quotes.
    fn trimmed_string_slice(&self) -> String {
        let s = self.lexer.slice();
        let n = s.as_str().unicode_len();
        if n >= 2 {
            s.as_str().substring_char(1, n - 1).to_owned()
        } else {
            String::new()
        }
    }

    fn parse_id_expression(
        &mut self,
        fuel: u64,
        primary_expression: bool,
    ) -> (r: Result<Option<AstIndex>, ParserError>)
        ensures
            ast_extends(*final(self), *old(self)),
            r matches Ok(Some(ix)) ==> ix < final(self).ast.nodes@.len(),
        decreases fuel,
    {
        if fuel == 0 {
            return Err(self.internal_err(InternalError::FuelExhausted));
        }
        let f = fuel - 1;
        match self.parse_id(primary_expression)? {
            Some(constant_index) => {
                self.frame_increment(constant_index)?;
                let id_index = self.push_node(Node::Id(constant_index))?;
                let peeked = self.peek_token();
                let result = if tok_is(peeked, Token::Whitespace) && primary_expression {
                    let start_span = self.lexer.span();
                    self.consume_token();
                    let current_line = self.lexer.line_number();
                    match self.parse_non_primary_expression(f)? {
                        Some(expression) => {
                            let mut args: Vec<AstIndex> = Vec::new();
                            args.push(expression);
                            let mut lf: u64 = f;
                            loop
                                invariant
                                    ast_extends(*self, *old(self)),
                                    lf < fuel,
                                decreases lf,
                            {
                                if lf == 0 {
                                    return Err(self.internal_err(InternalError::FuelExhausted));
                                }
                                lf = lf - 1;
                                if self.lexer.line_number() != current_line {
                                    break;
                                }
                                match self.parse_non_primary_expression(lf)? {
                                    Some(expression) => {
                                        args.push(expression);
                                    },
                                    None => {
                                        break;
                                    },
                                }
                            }
                            self.push_node_with_start_span(
                                Node::Call { function: id_index, args },
                                start_span,
                            )?
                        },
                        None => id_index,
                    }
                } else if tok_is(peeked, Token::ParenOpen) || tok_is(peeked, Token::ListStart)
                    || tok_is(peeked, Token::Dot) {
                    self.parse_lookup(f, id_index, primary_expression)?
                } else {
                    id_index
                };
                Ok(Some(result))
            },
            None => Ok(None),
        }
    }

    fn parse_lookup(
        &mut self,
        fuel: u64,
        root: AstIndex,
        primary_expression: bool,
) -> (r: Result<AstIndex, ParserError>)
        ensures
            ast_extends(*final(self), *old(self)),
            r matches Ok(ix) ==> ix < final(self).ast.nodes@.len() && (produced(*final(self), ix) matches Node::Lookup(_)),
        decreases fuel,
    {
        if fuel == 0 {
            return Err(self.internal_err(InternalError::FuelExhausted));
        }
        let f = fuel - 1;
        let mut lookup: Vec<LookupNode> = Vec::new();
        let start_span = self.lexer.span();
        lookup.push(LookupNode::Root(root));
        let mut lf: u64 = f;
        loop
            invariant
                ast_extends(*self, *old(self)),
                lf < fuel,
            decreases lf,
        {
            if lf == 0 {
                return Err(self.internal_err(InternalError::FuelExhausted));
            }
            lf = lf - 1;
            match self.peek_token() {
                Some(Token::ParenOpen) => {
                    let args = self.parse_parenthesized_args(lf)?;
                    lookup.push(LookupNode::Call(args));
                },
                Some(Token::ListStart) => {
                    self.consume_token();
                    let index_expression = match self.parse_non_primary_expression(lf)? {
                        Some(index_expression) => {
                            match self.peek_token() {
                                Some(Token::Range) => {
                                    self.consume_token();
                                    match self.parse_non_primary_expression(lf)? {
                                        Some(end_expression) => self.push_node(
                                            Node::Range {
                                                start: index_expression,
                                                end: end_expression,
                                                inclusive: false,
                                            },
                                        )?,
                                        None => self.push_node(
                                            Node::RangeFrom { start: index_expression },
                                        )?,
                                    }
                                },
                                Some(Token::RangeInclusive) => {
                                    self.consume_token();
                                    match self.parse_non_primary_expression(lf)? {
                                        Some(end_expression) => self.push_node(
                                            Node::Range {
                                                start: index_expression,
                                                end: end_expression,
                                                inclusive: true,
                                            },
                                        )?,
                                        None => self.push_node(
                                            Node::RangeFrom { start: index_expression },
                                        )?,
                                    }
                                },
                                _ => index_expression,
                            }
                        },
                        None => {
                            match self.skip_whitespace_and_peek() {
                                Some(Token::Range) => {
                                    self.consume_token();
                                    match self.parse_non_primary_expression(lf)? {
                                        Some(end_expression) => self.push_node(
                                            Node::RangeTo {
                                                end: end_expression,
                                                inclusive: false,
                                            },
                                        )?,
                                        None => self.push_node(Node::RangeFull)?,
                                    }
                                },
                                Some(Token::RangeInclusive) => {
                                    self.consume_token();
                                    match self.parse_non_primary_expression(lf)? {
                                        Some(end_expression) => self.push_node(
                                            Node::RangeTo {
                                                end: end_expression,
                                                inclusive: true,
                                            },
                                        )?,
                                        None => self.push_node(Node::RangeFull)?,
                                    }
                                },
                                _ => {
                                    return Err(
                                        self.syntax_err(SyntaxError::ExpectedIndexExpression),
                                    );
                                },
                            }
                        },
                    };
                    if tok_is(self.skip_whitespace_and_peek(), Token::ListEnd) {
                        self.consume_token();
                        lookup.push(LookupNode::Index(index_expression));
                    } else {
                        return Err(self.syntax_err(SyntaxError::ExpectedIndexEnd));
                    }
                },
                Some(Token::Dot) => {
                    self.consume_token();
                    match self.parse_id_or_string()? {
                        Some(id_index) => {
                            lookup.push(LookupNode::Id(id_index));
                        },
                        None => {
                            return Err(self.syntax_err(SyntaxError::ExpectedMapKey));
                        },
                    }
                },
                Some(Token::Whitespace) => {
                    if primary_expression {
                        self.consume_token();
                        let current_line = self.lexer.line_number();
                        match self.parse_non_primary_expression(lf)? {
                            Some(expression) => {
                                let mut args: Vec<AstIndex> = Vec::new();
                                args.push(expression);
                                let mut lf2: u64 = lf;
                                loop
                                    invariant
                                        ast_extends(*self, *old(self)),
                                        lf2 < fuel,
                                    decreases lf2,
                                {
                                    if lf2 == 0 {
                                        return Err(
                                            self.internal_err(InternalError::FuelExhausted),
                                        );
                                    }
                                    lf2 = lf2 - 1;
                                    if self.lexer.line_number() != current_line {
                                        break;
                                    }
                                    match self.parse_non_primary_expression(lf2)? {
                                        Some(expression) => {
                                            args.push(expression);
                                        },
                                        None => {
                                            break;
                                        },
                                    }
                                }
                                lookup.push(LookupNode::Call(args));
                            },
                            None => {},
                        }
                        break;
                    } else {
                        break;
                    }
                },
                _ => {
                    break;
                },
            }
        }
        self.push_node_with_start_span(Node::Lookup(lookup), start_span)
    }

    fn parse_parenthesized_args(&mut self, fuel: u64) -> (r: Result<Vec<AstIndex>, ParserError>)
        ensures
            ast_extends(*final(self), *old(self)),
        decreases fuel,
    {
        if fuel == 0 {
            return Err(self.internal_err(InternalError::FuelExhausted));
        }
        let f = fuel - 1;
        if !tok_is(self.skip_whitespace_and_peek(), Token::ParenOpen) {
            return Err(self.internal_err(InternalError::ArgumentsParseFailure));
        }
        self.consume_token();
        let mut args: Vec<AstIndex> = Vec::new();
        let mut lf: u64 = f;
        loop
            invariant
                ast_extends(*self, *old(self)),
                lf < fuel,
            decreases lf,
        {
            if lf == 0 {
                return Err(self.internal_err(InternalError::FuelExhausted));
            }
            lf = lf - 1;
            self.consume_until_next_token();
            match self.parse_non_primary_expression(lf)? {
                Some(expression) => {
                    args.push(expression);
                },
                None => {
                    break;
                },
            }
        }
        self.consume_until_next_token();
        if tok_is(self.consume_token(), Token::ParenClose) {
            Ok(args)
        } else {
            Err(self.syntax_err(SyntaxError::ExpectedArgsEnd))
        }
    }

    fn parse_negatable_expression(&mut self, fuel: u64) -> (r: Result<Option<AstIndex>, ParserError>)
        ensures
            ast_extends(*final(self), *old(self)),
            r matches Ok(Some(ix)) ==> ix < final(self).ast.nodes@.len() && (produced(*final(self), ix) matches Node::Negate(_)),
        decreases fuel,
    {
        if fuel == 0 {
            return Err(self.internal_err(InternalError::FuelExhausted));
        }
        let f = fuel - 1;
        if !tok_is(self.skip_whitespace_and_peek(), Token::Subtract) {
            return Ok(None);
        }
        if tok_is(self.peek_token_n(1), Token::Whitespace) {
            return Ok(None);
        }
        self.consume_token();
        let expression = match self.peek_token() {
            Some(Token::Id) => self.parse_id_expression(f, false)?,
            Some(Token::ParenOpen) => self.parse_nested_expression(f)?,
            _ => None,
        };
        match expression {
            Some(expression) => Ok(Some(self.push_node(Node::Negate(expression))?)),
            None => Err(self.syntax_err(SyntaxError::ExpectedNegatableExpression)),
        }
    }

    fn parse_range(&mut self, fuel: u64, lhs: Option<AstIndex>) -> (r: Result<
        Option<AstIndex>,
        ParserError,
    >)
        ensures
            ast_extends(*final(self), *old(self)),
            r matches Ok(Some(ix)) ==> ix < final(self).ast.nodes@.len() && (produced(*final(self), ix) matches Node::Range { .. } || produced(*final(self), ix) matches Node::RangeFrom { .. } || produced(*final(self), ix) matches Node::RangeTo { .. } || produced(*final(self), ix) matches Node::RangeFull),
        decreases fuel,
    {
        if fuel == 0 {
            return Err(self.internal_err(InternalError::FuelExhausted));
        }
        let f = fuel - 1;
        let inclusive = match self.peek_token() {
            Some(Token::Range) => false,
            Some(Token::RangeInclusive) => true,
            _ => {
                return Ok(None);
            },
        };
        self.consume_token();
        let rhs = self.parse_term(f, false)?;
        let node = match (lhs, rhs) {
            (Some(start), Some(end)) => Node::Range { start, end, inclusive },
            (Some(start), None) => Node::RangeFrom { start },
            (None, Some(end)) => Node::RangeTo { end, inclusive },
            (None, None) => Node::RangeFull,
        };
        Ok(Some(self.push_node(node)?))
    }

    fn parse_export_id(&mut self, fuel: u64) -> (r: Result<Option<AstIndex>, ParserError>)
        ensures
            ast_extends(*final(self), *old(self)),
            r matches Ok(Some(ix)) ==> ix < final(self).ast.nodes@.len() && (produced(*final(self), ix) matches Node::Assign { .. } || produced(*final(self), ix) matches Node::Id(_)),
        decreases fuel,
    {
        if fuel == 0 {
            return Err(self.internal_err(InternalError::FuelExhausted));
        }
        let f = fuel - 1;
        if !tok_is(self.skip_whitespace_and_peek(), Token::Export) {
            return Ok(None);
        }
        self.consume_token();
        match self.parse_id(false)? {
            Some(constant_index) => {
                let export_id = self.push_node(Node::Id(constant_index))?;
                match self.skip_whitespace_and_peek() {
                    Some(Token::Assign) => {
                        self.consume_token();
                        match self.parse_primary_expressions(f, true)? {
                            Some(rhs) => {
                                let node = Node::Assign {
                                    target: AssignTarget {
                                        target_index: export_id,
                                        scope: Scope::Global,
                                    },
                                    op: AssignOp::Equal,
                                    expression: rhs,
                                };
                                Ok(Some(self.push_node(node)?))
                            },
                            None => Err(self.syntax_err(SyntaxError::ExpectedRhsExpression)),
                        }
                    },
                    Some(Token::NewLine) => Ok(Some(export_id)),
                    Some(Token::NewLineIndented) => Ok(Some(export_id)),
                    _ => Err(self.syntax_err(SyntaxError::UnexpectedTokenAfterExportId)),
                }
            },
            None => Err(self.syntax_err(SyntaxError::ExpectedExportExpression)),
        }
    }

    fn parse_debug_expression(&mut self, fuel: u64) -> (r: Result<Option<AstIndex>, ParserError>)
        ensures
            ast_extends(*final(self), *old(self)),
            r matches Ok(Some(ix)) ==> ix < final(self).ast.nodes@.len() && (produced(*final(self), ix) matches Node::Debug { .. }),
        decreases fuel,
    {
        if fuel == 0 {
            return Err(self.internal_err(InternalError::FuelExhausted));
        }
        let f = fuel - 1;
        if !tok_is(self.peek_token(), Token::Debug) {
            return Ok(None);
        }
        self.consume_token();
        let start_position = self.lexer.span().start;
        self.skip_whitespace_and_peek();
        let expression_source_start = self.lexer.source_position();
        let expression = match self.parse_primary_expressions(f, true)? {
            Some(expression) => expression,
            None => {
                return Err(self.syntax_err(SyntaxError::ExpectedExpression));
            },
        };
        let expression_source_end = self.lexer.source_position();
        let source_text = self.lexer.source_slice(expression_source_start, expression_source_end);
        let expression_string = self.add_string_constant(source_text.as_str())?;
        let span_end = self.lexer.span().end;
        let result = self.push_node_with_span(
            Node::Debug { expression_string, expression },
            Span { start: start_position, end: span_end },
        )?;
        Ok(Some(result))
    }
}


impl Parser {
    fn parse_term(&mut self, fuel: u64, primary_expression: bool) -> (r: Result<
        Option<AstIndex>,
        ParserError,
    >)
        ensures
            ast_extends(*final(self), *old(self)),
            r matches Ok(Some(ix)) ==> ix < final(self).ast.nodes@.len(),
        decreases fuel,
    {
        if fuel == 0 {
            return Err(self.internal_err(InternalError::FuelExhausted));
        }
        let f = fuel - 1;
        let current_indent = self.lexer.current_indent();
        match self.skip_whitespace_and_peek() {
            Some(token) => {
                let result = match token {
                    Token::True => {
                        self.consume_token();
                        self.push_node(Node::BoolTrue)?
                    },
                    Token::False => {
                        self.consume_token();
                        self.push_node(Node::BoolFalse)?
                    },
                    Token::ParenOpen => {
                        return self.parse_nested_expression(f);
                    },
                    Token::Number => {
                        self.consume_token();
                        let text = self.lexer.slice().clone();
                        match KNumber::from_decimal_str(text.as_str()) {
                            Some(n) => {
                                if n.is_zero() {
                                    self.push_node(Node::Number0)?
                                } else if n.is_one() {
                                    self.push_node(Node::Number1)?
                                } else {
                                    let constant_index = self.add_number_constant(n)?;
                                    self.push_node(Node::Number(constant_index))?
                                }
                            },
                            None => {
                                return Err(self.internal_err(InternalError::NumberParseFailure));
                            },
                        }
                    },
                    Token::Str => {
                        self.consume_token();
                        let text = self.trimmed_string_slice();
                        let constant_index = self.add_string_constant(text.as_str())?;
                        let string_node = self.push_node(Node::Str(constant_index))?;
                        if self.next_token_is_lookup_start() {
                            self.parse_lookup(f, string_node, primary_expression)?
                        } else {
                            string_node
                        }
                    },
                    Token::Id => {
                        return self.parse_id_expression(f, primary_expression);
                    },
                    Token::ListStart => {
                        return self.parse_list(f, primary_expression);
                    },
                    Token::MapStart => {
                        return self.parse_map_inline(f, primary_expression);
                    },
                    Token::Num2 => {
                        self.consume_token();
                        let start_span = self.lexer.span();
                        let args = if tok_is(self.peek_token(), Token::ParenOpen) {
                            self.parse_parenthesized_args(f)?
                        } else {
                            let mut args: Vec<AstIndex> = Vec::new();
                            let mut lf: u64 = f;
                            loop
                                invariant
                                    ast_extends(*self, *old(self)),
                                    lf < fuel,
                                decreases lf,
                            {
                                if lf == 0 {
                                    return Err(self.internal_err(InternalError::FuelExhausted));
                                }
                                lf = lf - 1;
                                match self.parse_term(lf, false)? {
                                    Some(arg) => {
                                        args.push(arg);
                                    },
                                    None => {
                                        break;
                                    },
                                }
                            }
                            args
                        };
                        if args.len() == 0 {
                            return Err(self.syntax_err(SyntaxError::ExpectedExpression));
                        } else if args.len() > 2 {
                            return Err(self.syntax_err(SyntaxError::TooManyNum2Terms));
                        }
                        self.push_node_with_start_span(Node::Num2(args), start_span)?
                    },
                    Token::Num4 => {
                        self.consume_token();
                        let start_span = self.lexer.span();
                        let args = if tok_is(self.peek_token(), Token::ParenOpen) {
                            self.parse_parenthesized_args(f)?
                        } else {
                            let mut args: Vec<AstIndex> = Vec::new();
                            let mut lf: u64 = f;
                            loop
                                invariant
                                    ast_extends(*self, *old(self)),
                                    lf < fuel,
                                decreases lf,
                            {
                                if lf == 0 {
                                    return Err(self.internal_err(InternalError::FuelExhausted));
                                }
                                lf = lf - 1;
                                match self.parse_term(lf, false)? {
                                    Some(arg) => {
                                        args.push(arg);
                                    },
                                    None => {
                                        break;
                                    },
                                }
                            }
                            args
                        };
                        if args.len() == 0 {
                            return Err(self.syntax_err(SyntaxError::ExpectedExpression));
                        } else if args.len() > 4 {
                            return Err(self.syntax_err(SyntaxError::TooManyNum4Terms));
                        }
                        self.push_node_with_start_span(Node::Num4(args), start_span)?
                    },
                    Token::If => {
                        if primary_expression {
                            return self.parse_if_expression(f);
                        } else {
                            return Ok(None);
                        }
                    },
                    Token::Match => {
                        return self.parse_match_expression(f);
                    },
                    Token::Function => {
                        return self.parse_function(f);
                    },
                    Token::Copy => {
                        self.consume_token();
                        match self.parse_primary_expression(f)? {
                            Some(expression) => self.push_node(Node::CopyExpression(expression))?,
                            None => {
                                return Err(self.syntax_err(SyntaxError::ExpectedExpression));
                            },
                        }
                    },
                    Token::Not => {
                        self.consume_token();
                        match self.parse_primary_expression(f)? {
                            Some(expression) => self.push_node(Node::Negate(expression))?,
                            None => {
                                return Err(self.syntax_err(SyntaxError::ExpectedExpression));
                            },
                        }
                    },
                    Token::Type => {
                        self.consume_token();
                        match self.parse_primary_expression(f)? {
                            Some(expression) => self.push_node(Node::TypeOf(expression))?,
                            None => {
                                return Err(self.syntax_err(SyntaxError::ExpectedExpression));
                            },
                        }
                    },
                    Token::Yield => {
                        self.consume_token();
                        match self.parse_primary_expressions(f, true)? {
                            Some(expression) => {
                                let result = self.push_node(Node::Yield(expression))?;
                                self.frame_set_yield()?;
                                result
                            },
                            None => {
                                return Err(self.syntax_err(SyntaxError::ExpectedExpression));
                            },
                        }
                    },
                    Token::Break => {
                        self.consume_token();
                        self.push_node(Node::Break)?
                    },
                    Token::Continue => {
                        self.consume_token();
                        self.push_node(Node::Continue)?
                    },
                    Token::Return => {
                        self.consume_token();
                        match self.parse_primary_expressions(f, true)? {
                            Some(expression) => self.push_node(Node::ReturnExpression(expression))?,
                            None => self.push_node(Node::Return)?,
                        }
                    },
                    Token::From => {
                        return self.parse_import_expression(f);
                    },
                    Token::Import => {
                        return self.parse_import_expression(f);
                    },
                    Token::Try => {
                        if primary_expression {
                            return self.parse_try_expression(f);
                        } else {
                            return Ok(None);
                        }
                    },
                    Token::NewLineIndented => {
                        return self.parse_map_block(f, current_indent, None);
                    },
                    Token::LexError => {
                        return Err(self.syntax_err(SyntaxError::LexerError));
                    },
                    _ => {
                        return Ok(None);
                    },
                };
                Ok(Some(result))
            },
            None => Ok(None),
        }
    }

    fn parse_list(&mut self, fuel: u64, primary_expression: bool) -> (r: Result<
        Option<AstIndex>,
        ParserError,
    >)
        ensures
            ast_extends(*final(self), *old(self)),
            r matches Ok(Some(ix)) ==> ix < final(self).ast.nodes@.len() && (produced(*final(self), ix) matches Node::List(_) || produced(*final(self), ix) matches Node::Lookup(_)),
        decreases fuel,
    {
        if fuel == 0 {
            return Err(self.internal_err(InternalError::FuelExhausted));
        }
        let f = fuel - 1;
        self.consume_token();
        let start_span = self.lexer.span();
        let lexer_reset_state = self.lexer.position();
        let ast_reset_point = self.ast.reset_point();
        // A comprehension has to be parsed apart from a plain list of
        // entries. Any expression can appear at the start as the inline
        // body of a loop, so first look for any kind of expression, and
        // then see if a loop header follows.
        let list_comprehension: Option<AstIndex> = match self.parse_primary_expression(f)? {
            Some(expression) => {
                let is_loop = match self.ast.node(expression) {
                    Some(row) => match &row.node {
                        Node::For(_) => true,
                        Node::While { .. } => true,
                        Node::Until { .. } => true,
                        _ => false,
                    },
                    None => false,
                };
                if is_loop {
                    Some(expression)
                } else {
                    let mut loop_body: Vec<AstIndex> = Vec::new();
                    loop_body.push(expression);
                    if let Some(for_loop) = self.parse_for_loop(f, Some(&loop_body))? {
                        Some(for_loop)
                    } else if let Some(while_loop) = self.parse_while_loop(f, Some(&loop_body))? {
                        Some(while_loop)
                    } else if let Some(until_loop) = self.parse_until_loop(f, Some(&loop_body))? {
                        Some(until_loop)
                    } else {
                        None
                    }
                }
            },
            None => None,
        };
        let entries: Vec<AstIndex> = match list_comprehension {
            Some(comprehension) => {
                let mut entries: Vec<AstIndex> = Vec::new();
                entries.push(comprehension);
                entries
            },
            None => {
                // No comprehension was found, so reset the lexer and the
                // arena to where things were before the speculative
                // attempt, and parse list entries.
                self.lexer.set_position(lexer_reset_state);
                self.ast.reset(ast_reset_point);
                let mut entries: Vec<AstIndex> = Vec::new();
                let mut lf: u64 = f;
                loop
                    invariant
                        ast_extends(*self, *old(self)),
                        lf < fuel,
                    decreases lf,
                {
                    if lf == 0 {
                        return Err(self.internal_err(InternalError::FuelExhausted));
                    }
                    lf = lf - 1;
                    if tok_is(self.consume_until_next_token(), Token::ListEnd) {
                        break;
                    }
                    match self.parse_term(lf, false)? {
                        Some(term) => {
                            let peeked = self.peek_token();
                            if tok_is(peeked, Token::Range) || tok_is(
                                peeked,
                                Token::RangeInclusive,
                            ) {
                                match self.parse_range(lf, Some(term))? {
                                    Some(range) => {
                                        entries.push(range);
                                    },
                                    None => {
                                        return Err(
                                            self.internal_err(InternalError::RangeParseFailure),
                                        );
                                    },
                                }
                            } else {
                                entries.push(term);
                            }
                        },
                        None => {
                            break;
                        },
                    }
                }
                entries
            },
        };
        self.consume_until_next_token();
        if !tok_is(self.consume_token(), Token::ListEnd) {
            return Err(self.syntax_err(SyntaxError::ExpectedListEnd));
        }
        let list_node = self.push_node_with_start_span(Node::List(entries), start_span)?;
        let result = if self.next_token_is_lookup_start() {
            self.parse_lookup(f, list_node, primary_expression)?
        } else {
            list_node
        };
        Ok(Some(result))
    }

    fn parse_indented_map_or_block(&mut self, fuel: u64, current_indent: usize) -> (r: Result<
        Option<AstIndex>,
        ParserError,
    >)
        ensures
            ast_extends(*final(self), *old(self)),
        decreases fuel,
    {
        if fuel == 0 {
            return Err(self.internal_err(InternalError::FuelExhausted));
        }
        let f = fuel - 1;
        self.consume_until_next_token();
        let expected_indent = self.lexer.next_indent();
        let result = if let Some(map_block) = self.parse_map_block(
            f,
            current_indent,
            Some(expected_indent),
        )? {
            Some(map_block)
        } else if let Some(block) = self.parse_indented_block(
            f,
            current_indent,
            Some(expected_indent),
        )? {
            Some(block)
        } else {
            None
        };
        Ok(result)
    }

    fn parse_map_block(
        &mut self,
        fuel: u64,
        current_indent: usize,
        block_indent: Option<usize>,
    ) -> (r: Result<Option<AstIndex>, ParserError>)
        ensures
            ast_extends(*final(self), *old(self)),
            r matches Ok(Some(ix)) ==> ix < final(self).ast.nodes@.len() && (produced(*final(self), ix) matches Node::MapNode(_)),
        decreases fuel,
    {
        if fuel == 0 {
            return Err(self.internal_err(InternalError::FuelExhausted));
        }
        let f = fuel - 1;
        let block_indent: usize = match block_indent {
            Some(indent) => indent,
            None => {
                if !tok_is(self.skip_whitespace_and_peek(), Token::NewLineIndented) {
                    return Ok(None);
                }
                let block_indent = self.lexer.next_indent();
                if block_indent <= current_indent {
                    return Ok(None);
                }
                self.consume_token();
                block_indent
            },
        };
        // look ahead to check there's at least one map entry
        if !tok_is(self.consume_until_next_token(), Token::Id) {
            return Ok(None);
        }
        if !tok_is(self.peek_token_n(1), Token::Colon) {
            return Ok(None);
        }
        let start_span = self.lexer.span();
        let mut entries: Vec<(ConstantIndex, Option<AstIndex>)> = Vec::new();
        let mut lf: u64 = f;
        loop
            invariant
                ast_extends(*self, *old(self)),
                lf < fuel,
            decreases lf,
        {
            if lf == 0 {
                return Err(self.internal_err(InternalError::FuelExhausted));
            }
            lf = lf - 1;
            let key = match self.parse_id_or_string()? {
                Some(key) => key,
                None => {
                    break;
                },
            };
            if tok_is(self.skip_whitespace_and_next(), Token::Colon) {
                match self.parse_line(lf)? {
                    Some(value) => {
                        entries.push((key, Some(value)));
                    },
                    None => {
                        // if a value wasn't found on the same line as the
                        // key, scan ahead to the next token (skipping
                        // newlines) and try again
                        self.consume_until_next_token();
                        match self.parse_line(lf)? {
                            Some(value) => {
                                entries.push((key, Some(value)));
                            },
                            None => {
                                return Err(self.syntax_err(SyntaxError::ExpectedMapValue));
                            },
                        }
                    },
                }
            } else {
                entries.push((key, None));
            }
            self.consume_until_next_token();
            let next_indent = self.lexer.next_indent();
            if next_indent < block_indent {
                break;
            } else if next_indent > block_indent {
                return Err(self.syntax_err(SyntaxError::UnexpectedIndentation));
            }
        }
        Ok(Some(self.push_node_with_start_span(Node::MapNode(entries), start_span)?))
    }

    fn parse_map_inline(&mut self, fuel: u64, primary_expression: bool) -> (r: Result<
        Option<AstIndex>,
        ParserError,
    >)
        ensures
            ast_extends(*final(self), *old(self)),
            r matches Ok(Some(ix)) ==> ix < final(self).ast.nodes@.len() && (produced(*final(self), ix) matches Node::MapNode(_) || produced(*final(self), ix) matches Node::Lookup(_)),
        decreases fuel,
    {
        if fuel == 0 {
            return Err(self.internal_err(InternalError::FuelExhausted));
        }
        let f = fuel - 1;
        self.consume_token();
        let start_span = self.lexer.span();
        let mut entries: Vec<(ConstantIndex, Option<AstIndex>)> = Vec::new();
        let mut lf: u64 = f;
        loop
            invariant
                ast_extends(*self, *old(self)),
                lf < fuel,
            decreases lf,
        {
            if lf == 0 {
                return Err(self.internal_err(InternalError::FuelExhausted));
            }
            lf = lf - 1;
            self.consume_until_next_token();
            match self.parse_id_or_string()? {
                Some(key) => {
                    if tok_is(self.peek_token(), Token::Colon) {
                        self.consume_token();
                        self.consume_until_next_token();
                        match self.parse_primary_expression(lf)? {
                            Some(value) => {
                                entries.push((key, Some(value)));
                            },
                            None => {
                                return Err(self.syntax_err(SyntaxError::ExpectedMapValue));
                            },
                        }
                    } else {
                        entries.push((key, None));
                    }
                    if tok_is(self.skip_whitespace_and_peek(), Token::Separator) {
                        self.consume_token();
                    } else {
                        break;
                    }
                },
                None => {
                    break;
                },
            }
        }
        if !tok_is(self.skip_whitespace_and_next(), Token::MapEnd) {
            return Err(self.syntax_err(SyntaxError::ExpectedMapEnd));
        }
        let map_node = self.push_node_with_start_span(Node::MapNode(entries), start_span)?;
        let result = if self.next_token_is_lookup_start() {
            self.parse_lookup(f, map_node, primary_expression)?
        } else {
            map_node
        };
        Ok(Some(result))
    }

    fn parse_for_loop(&mut self, fuel: u64, inline_body: Option<&Vec<AstIndex>>) -> (r: Result<
        Option<AstIndex>,
        ParserError,
    >)
        ensures
            ast_extends(*final(self), *old(self)),
            r matches Ok(Some(ix)) ==> ix < final(self).ast.nodes@.len() && (produced(*final(self), ix) matches Node::For(_)),
        decreases fuel,
    {
        if fuel == 0 {
            return Err(self.internal_err(InternalError::FuelExhausted));
        }
        let f = fuel - 1;
        if !tok_is(self.skip_whitespace_and_peek(), Token::For) {
            return Ok(None);
        }
        let current_indent = self.lexer.current_indent();
        self.consume_token();
        let mut args: Vec<ConstantIndex> = Vec::new();
        let mut lf: u64 = f;
        loop
            invariant
                ast_extends(*self, *old(self)),
                lf < fuel,
            decreases lf,
        {
            if lf == 0 {
                return Err(self.internal_err(InternalError::FuelExhausted));
            }
            lf = lf - 1;
            match self.parse_id(true)? {
                Some(constant_index) => {
                    args.push(constant_index);
                    self.frame_assign(constant_index)?;
                    match self.skip_whitespace_and_peek() {
                        Some(Token::Separator) => {
                            self.consume_token();
                        },
                        Some(Token::In) => {
                            self.consume_token();
                            break;
                        },
                        _ => {
                            return Err(self.syntax_err(SyntaxError::ExpectedForInKeyword));
                        },
                    }
                },
                None => {
                    break;
                },
            }
        }
        if args.len() == 0 {
            return Err(self.syntax_err(SyntaxError::ExpectedForArgs));
        }
        let mut ranges: Vec<AstIndex> = Vec::new();
        let mut lf2: u64 = f;
        loop
            invariant
                ast_extends(*self, *old(self)),
                lf2 < fuel,
            decreases lf2,
        {
            if lf2 == 0 {
                return Err(self.internal_err(InternalError::FuelExhausted));
            }
            lf2 = lf2 - 1;
            match self.parse_primary_expression(lf2)? {
                Some(range) => {
                    ranges.push(range);
                    if !tok_is(self.skip_whitespace_and_peek(), Token::Separator) {
                        break;
                    }
                    self.consume_token();
                },
                None => {
                    break;
                },
            }
        }
        if ranges.len() == 0 {
            return Err(self.syntax_err(SyntaxError::ExpectedForRanges));
        }
        let condition = if tok_is(self.skip_whitespace_and_peek(), Token::If) {
            self.consume_token();
            match self.parse_primary_expression(f)? {
                Some(condition) => Some(condition),
                None => {
                    return Err(self.syntax_err(SyntaxError::ExpectedForCondition));
                },
            }
        } else {
            None
        };
        let body = match inline_body {
            Some(expressions) => {
                if expressions.len() == 0 {
                    return Err(self.internal_err(InternalError::ForParseFailure));
                } else if expressions.len() == 1 {
                    expressions[0]
                } else {
                    let mut copied: Vec<AstIndex> = Vec::new();
                    let en = expressions.len();
                    for i in 0..en
                        invariant
                            ast_extends(*self, *old(self)),
                            en == expressions.len(),
                        decreases en - i,
                    {
                        copied.push(expressions[i]);
                    }
                    self.push_node(Node::Expressions(copied))?
                }
            },
            None => {
                match self.parse_indented_block(f, current_indent, None)? {
                    Some(body) => body,
                    None => {
                        return Err(self.syntax_err(SyntaxError::ExpectedForBody));
                    },
                }
            },
        };
        let result = self.push_node(Node::For(AstFor { args, ranges, condition, body }))?;
        Ok(Some(result))
    }

    fn parse_loop_block(&mut self, fuel: u64) -> (r: Result<Option<AstIndex>, ParserError>)
        ensures
            ast_extends(*final(self), *old(self)),
            r matches Ok(Some(ix)) ==> ix < final(self).ast.nodes@.len() && (produced(*final(self), ix) matches Node::Loop { .. }),
        decreases fuel,
    {
        if fuel == 0 {
            return Err(self.internal_err(InternalError::FuelExhausted));
        }
        let f = fuel - 1;
        if !tok_is(self.skip_whitespace_and_peek(), Token::Loop) {
            return Ok(None);
        }
        let current_indent = self.lexer.current_indent();
        self.consume_token();
        match self.parse_indented_block(f, current_indent, None)? {
            Some(body) => {
                let result = self.push_node(Node::Loop { body })?;
                Ok(Some(result))
            },
            None => Err(self.syntax_err(SyntaxError::ExpectedLoopBody)),
        }
    }

    fn parse_while_loop(&mut self, fuel: u64, inline_body: Option<&Vec<AstIndex>>) -> (r: Result<
        Option<AstIndex>,
        ParserError,
    >)
        ensures
            ast_extends(*final(self), *old(self)),
            r matches Ok(Some(ix)) ==> ix < final(self).ast.nodes@.len() && (produced(*final(self), ix) matches Node::While { .. }),
        decreases fuel,
    {
        if fuel == 0 {
            return Err(self.internal_err(InternalError::FuelExhausted));
        }
        let f = fuel - 1;
        if !tok_is(self.skip_whitespace_and_peek(), Token::While) {
            return Ok(None);
        }
        let current_indent = self.lexer.current_indent();
        self.consume_token();
        let condition = match self.parse_primary_expression(f)? {
            Some(condition) => condition,
            None => {
                return Err(self.syntax_err(SyntaxError::ExpectedWhileCondition));
            },
        };
        let body = match inline_body {
            Some(expressions) => {
                if expressions.len() == 0 {
                    return Err(self.internal_err(InternalError::ForParseFailure));
                } else if expressions.len() == 1 {
                    expressions[0]
                } else {
                    let mut copied: Vec<AstIndex> = Vec::new();
                    let en = expressions.len();
                    for i in 0..en
                        invariant
                            ast_extends(*self, *old(self)),
                            en == expressions.len(),
                        decreases en - i,
                    {
                        copied.push(expressions[i]);
                    }
                    self.push_node(Node::Expressions(copied))?
                }
            },
            None => {
                match self.parse_indented_block(f, current_indent, None)? {
                    Some(body) => body,
                    None => {
                        return Err(self.syntax_err(SyntaxError::ExpectedWhileBody));
                    },
                }
            },
        };
        let result = self.push_node(Node::While { condition, body })?;
        Ok(Some(result))
    }

    fn parse_until_loop(&mut self, fuel: u64, inline_body: Option<&Vec<AstIndex>>) -> (r: Result<
        Option<AstIndex>,
        ParserError,
    >)
        ensures
            ast_extends(*final(self), *old(self)),
            r matches Ok(Some(ix)) ==> ix < final(self).ast.nodes@.len() && (produced(*final(self), ix) matches Node::Until { .. }),
        decreases fuel,
    {
        if fuel == 0 {
            return Err(self.internal_err(InternalError::FuelExhausted));
        }
        let f = fuel - 1;
        if !tok_is(self.skip_whitespace_and_peek(), Token::Until) {
            return Ok(None);
        }
        let current_indent = self.lexer.current_indent();
        self.consume_token();
        let condition = match self.parse_primary_expression(f)? {
            Some(condition) => condition,
            None => {
                return Err(self.syntax_err(SyntaxError::ExpectedUntilCondition));
            },
        };
        let body = match inline_body {
            Some(expressions) => {
                if expressions.len() == 0 {
                    return Err(self.internal_err(InternalError::ForParseFailure));
                } else if expressions.len() == 1 {
                    expressions[0]
                } else {
                    let mut copied: Vec<AstIndex> = Vec::new();
                    let en = expressions.len();
                    for i in 0..en
                        invariant
                            ast_extends(*self, *old(self)),
                            en == expressions.len(),
                        decreases en - i,
                    {
                        copied.push(expressions[i]);
                    }
                    self.push_node(Node::Expressions(copied))?
                }
            },
            None => {
                match self.parse_indented_block(f, current_indent, None)? {
                    Some(body) => body,
                    None => {
                        return Err(self.syntax_err(SyntaxError::ExpectedUntilBody));
                    },
                }
            },
        };
        let result = self.push_node(Node::Until { condition, body })?;
        Ok(Some(result))
    }

    fn parse_if_expression(&mut self, fuel: u64) -> (r: Result<Option<AstIndex>, ParserError>)
        ensures
            ast_extends(*final(self), *old(self)),
            r matches Ok(Some(ix)) ==> ix < final(self).ast.nodes@.len() && (produced(*final(self), ix) matches Node::If(_)),
        decreases fuel,
    {
        if fuel == 0 {
            return Err(self.internal_err(InternalError::FuelExhausted));
        }
        let f = fuel - 1;
        if !tok_is(self.peek_token(), Token::If) {
            return Ok(None);
        }
        let current_indent = self.lexer.current_indent();
        self.consume_token();
        let condition = match self.parse_primary_expression(f)? {
            Some(condition) => condition,
            None => {
                return Err(self.syntax_err(SyntaxError::ExpectedIfCondition));
            },
        };
        let result = if tok_is(self.skip_whitespace_and_peek(), Token::Then) {
            self.consume_token();
            let then_node = match self.parse_primary_expressions(f, false)? {
                Some(then_node) => then_node,
                None => {
                    return Err(self.syntax_err(SyntaxError::ExpectedThenExpression));
                },
            };
            let else_node = if tok_is(self.skip_whitespace_and_peek(), Token::Else) {
                self.consume_token();
                match self.parse_primary_expressions(f, false)? {
                    Some(else_node) => Some(else_node),
                    None => {
                        return Err(self.syntax_err(SyntaxError::ExpectedElseExpression));
                    },
                }
            } else {
                None
            };
            self.push_node(
                Node::If(
                    AstIf { condition, then_node, else_if_blocks: Vec::new(), else_node },
                ),
            )?
        } else if let Some(then_node) = self.parse_indented_map_or_block(f, current_indent)? {
            let mut else_if_blocks: Vec<(AstIndex, AstIndex)> = Vec::new();
            let mut lf: u64 = f;
            loop
                invariant
                    ast_extends(*self, *old(self)),
                    lf < fuel,
                decreases lf,
            {
                if lf == 0 {
                    return Err(self.internal_err(InternalError::FuelExhausted));
                }
                lf = lf - 1;
                if self.lexer.current_indent() != current_indent {
                    break;
                }
                if tok_is(self.skip_whitespace_and_peek(), Token::ElseIf) {
                    self.consume_token();
                    match self.parse_primary_expression(lf)? {
                        Some(else_if_condition) => {
                            match self.parse_indented_map_or_block(lf, current_indent)? {
                                Some(else_if_block) => {
                                    else_if_blocks.push((else_if_condition, else_if_block));
                                },
                                None => {
                                    return Err(self.syntax_err(SyntaxError::ExpectedElseIfBlock));
                                },
                            }
                        },
                        None => {
                            return Err(self.syntax_err(SyntaxError::ExpectedElseIfCondition));
                        },
                    }
                } else {
                    break;
                }
            }
            let else_node = if self.lexer.current_indent() == current_indent {
                if tok_is(self.skip_whitespace_and_peek(), Token::Else) {
                    self.consume_token();
                    match self.parse_indented_map_or_block(f, current_indent)? {
                        Some(else_block) => Some(else_block),
                        None => {
                            return Err(self.syntax_err(SyntaxError::ExpectedElseBlock));
                        },
                    }
                } else {
                    None
                }
            } else {
                None
            };
            self.push_node(Node::If(AstIf { condition, then_node, else_if_blocks, else_node }))?
        } else {
            return Err(self.syntax_err(SyntaxError::ExpectedThenKeywordOrBlock));
        };
        Ok(Some(result))
    }

    fn parse_match_expression(&mut self, fuel: u64) -> (r: Result<Option<AstIndex>, ParserError>)
        ensures
            ast_extends(*final(self), *old(self)),
            r matches Ok(Some(ix)) ==> ix < final(self).ast.nodes@.len() && (produced(*final(self), ix) matches Node::Match { .. }),
        decreases fuel,
    {
        if fuel == 0 {
            return Err(self.internal_err(InternalError::FuelExhausted));
        }
        let f = fuel - 1;
        if !tok_is(self.peek_token(), Token::Match) {
            return Ok(None);
        }
        let current_indent = self.lexer.current_indent();
        let start_span = self.lexer.span();
        self.consume_token();
        let expression = match self.parse_primary_expressions(f, false)? {
            Some(expression) => expression,
            None => {
                return Err(self.syntax_err(SyntaxError::ExpectedMatchExpression));
            },
        };
        self.consume_until_next_token();
        let match_indent = self.lexer.current_indent();
        if match_indent <= current_indent {
            return Err(self.syntax_err(SyntaxError::ExpectedMatchArm));
        }
        let mut arms: Vec<MatchArm> = Vec::new();
        let mut lf: u64 = f;
        loop
            invariant
                ast_extends(*self, *old(self)),
                lf < fuel,
            decreases lf,
        {
            if lf == 0 {
                return Err(self.internal_err(InternalError::FuelExhausted));
            }
            lf = lf - 1;
            if self.peek_token().is_none() {
                break;
            }
            // match patterns for a single arm, with alternatives
            // separated by `or`
            let mut arm_patterns: Vec<AstIndex> = Vec::new();
            let mut expected_arm_count: usize = 1;
            let mut lf2: u64 = lf;
            loop
                invariant
                    ast_extends(*self, *old(self)),
                    lf2 < fuel,
                decreases lf2,
            {
                if lf2 == 0 {
                    return Err(self.internal_err(InternalError::FuelExhausted));
                }
                lf2 = lf2 - 1;
                match self.parse_match_pattern(lf2)? {
                    Some(pattern) => {
                        // patterns are separated by commas when matching
                        // multiple expressions
                        let mut patterns: Vec<AstIndex> = Vec::new();
                        patterns.push(pattern);
                        let mut lf3: u64 = lf2;
                        loop
                            invariant
                                ast_extends(*self, *old(self)),
                                lf3 < fuel,
                            decreases lf3,
                        {
                            if lf3 == 0 {
                                return Err(self.internal_err(InternalError::FuelExhausted));
                            }
                            lf3 = lf3 - 1;
                            if !tok_is(self.skip_whitespace_and_peek(), Token::Separator) {
                                break;
                            }
                            self.consume_token();
                            match self.parse_match_pattern(lf3)? {
                                Some(pattern) => {
                                    patterns.push(pattern);
                                },
                                None => {
                                    return Err(
                                        self.syntax_err(SyntaxError::ExpectedMatchPattern),
                                    );
                                },
                            }
                        }
                        if patterns.len() == 1 {
                            arm_patterns.push(patterns[0]);
                        } else {
                            let node = self.push_node(Node::Expressions(patterns))?;
                            arm_patterns.push(node);
                        }
                        if tok_is(self.skip_whitespace_and_peek(), Token::Or) {
                            self.consume_token();
                            if expected_arm_count < usize::MAX {
                                expected_arm_count = expected_arm_count + 1;
                            }
                        }
                    },
                    None => {
                        break;
                    },
                }
            }
            if arm_patterns.len() != expected_arm_count {
                return Err(self.syntax_err(SyntaxError::ExpectedMatchPattern));
            }
            let condition = if tok_is(self.skip_whitespace_and_peek(), Token::If) {
                self.consume_token();
                match self.parse_primary_expression(lf)? {
                    Some(expression) => Some(expression),
                    None => {
                        return Err(self.syntax_err(SyntaxError::ExpectedMatchCondition));
                    },
                }
            } else {
                None
            };
            let arm_expression = if tok_is(self.skip_whitespace_and_peek(), Token::Then) {
                self.consume_token();
                match self.parse_primary_expressions(lf, false)? {
                    Some(expression) => expression,
                    None => {
                        return Err(
                            self.syntax_err(SyntaxError::ExpectedMatchArmExpressionAfterThen),
                        );
                    },
                }
            } else if let Some(indented_expression) = self.parse_indented_map_or_block(
                lf,
                match_indent,
            )? {
                indented_expression
            } else {
                return Err(self.syntax_err(SyntaxError::ExpectedMatchArmExpression));
            };
            arms.push(MatchArm { patterns: arm_patterns, condition, expression: arm_expression });
            self.consume_until_next_token();
            let next_indent = self.lexer.next_indent();
            if next_indent < match_indent {
                break;
            } else if next_indent > match_indent {
                return Err(self.syntax_err(SyntaxError::UnexpectedIndentation));
            }
        }
        Ok(Some(self.push_node_with_start_span(Node::Match { expression, arms }, start_span)?))
    }

    fn parse_match_pattern(&mut self, fuel: u64) -> (r: Result<Option<AstIndex>, ParserError>)
        ensures
            ast_extends(*final(self), *old(self)),
        decreases fuel,
    {
        if fuel == 0 {
            return Err(self.internal_err(InternalError::FuelExhausted));
        }
        let f = fuel - 1;
        let result = match self.skip_whitespace_and_peek() {
            Some(token) => {
                if token == Token::True || token == Token::False || token == Token::Number || token
                    == Token::Str {
                    return self.parse_term(f, false);
                } else if token == Token::Id {
                    match self.parse_id(false)? {
                        Some(id) => {
                            self.frame_assign(id)?;
                            Some(self.push_node(Node::Id(id))?)
                        },
                        None => {
                            return Err(self.internal_err(InternalError::IdParseFailure));
                        },
                    }
                } else if token == Token::ListStart {
                    return self.parse_list(f, false);
                } else if token == Token::Wildcard {
                    self.consume_token();
                    Some(self.push_node(Node::Wildcard)?)
                } else if token == Token::ParenOpen {
                    if tok_is(self.peek_token_n(1), Token::ParenClose) {
                        self.consume_token();
                        self.consume_token();
                        Some(self.push_node(Node::Empty)?)
                    } else {
                        None
                    }
                } else {
                    None
                }
            },
            None => None,
        };
        Ok(result)
    }

    fn parse_import_expression(&mut self, fuel: u64) -> (r: Result<Option<AstIndex>, ParserError>)
        ensures
            ast_extends(*final(self), *old(self)),
            r matches Ok(Some(ix)) ==> ix < final(self).ast.nodes@.len() && (produced(*final(self), ix) matches Node::Import { .. }),
        decreases fuel,
    {
        if fuel == 0 {
            return Err(self.internal_err(InternalError::FuelExhausted));
        }
        let f = fuel - 1;
        let from_import = match self.peek_token() {
            Some(Token::From) => true,
            Some(Token::Import) => false,
            _ => {
                return Err(self.internal_err(InternalError::UnexpectedToken));
            },
        };
        self.consume_token();
        let from: Vec<ConstantIndex> = if from_import {
            let mut items = self.consume_import_items(f)?;
            if items.len() != 1 {
                return Err(self.syntax_err(SyntaxError::ImportFromExpressionHasTooManyItems));
            }
            let from = match items.pop() {
                Some(item) => item,
                None => {
                    return Err(self.internal_err(InternalError::ExpectedIdInImportItem));
                },
            };
            if !tok_is(self.skip_whitespace_and_peek(), Token::Import) {
                return Err(self.syntax_err(SyntaxError::ExpectedImportKeywordAfterFrom));
            }
            self.consume_token();
            from
        } else {
            Vec::new()
        };
        let items = self.consume_import_items(f)?;
        let items_len = items.len();
        for i in 0..items_len
            invariant
                ast_extends(*self, *old(self)),
                items_len == items.len(),
            decreases items_len - i,
        {
            let item_len = items[i].len();
            if item_len == 0 {
                return Err(self.internal_err(InternalError::ExpectedIdInImportItem));
            }
            let last = items[i][item_len - 1];
            self.frame_assign(last)?;
        }
        Ok(Some(self.push_node(Node::Import { from, items })?))
    }

    fn parse_try_expression(&mut self, fuel: u64) -> (r: Result<Option<AstIndex>, ParserError>)
        ensures
            ast_extends(*final(self), *old(self)),
            r matches Ok(Some(ix)) ==> ix < final(self).ast.nodes@.len() && (produced(*final(self), ix) matches Node::Try(_)),
        decreases fuel,
    {
        if fuel == 0 {
            return Err(self.internal_err(InternalError::FuelExhausted));
        }
        let f = fuel - 1;
        let current_indent = self.lexer.current_indent();
        self.consume_token();
        let start_span = self.lexer.span();
        let try_block = match self.parse_indented_block(f, current_indent, None)? {
            Some(try_block) => try_block,
            None => {
                return Err(self.syntax_err(SyntaxError::ExpectedTryBody));
            },
        };
        if !tok_is(self.skip_whitespace_and_next(), Token::Catch) {
            return Err(self.syntax_err(SyntaxError::ExpectedCatchBlock));
        }
        let catch_arg = match self.parse_id(true)? {
            Some(catch_arg) => {
                self.frame_assign(catch_arg)?;
                catch_arg
            },
            None => {
                return Err(self.syntax_err(SyntaxError::ExpectedCatchArgument));
            },
        };
        let catch_block = match self.parse_indented_block(f, current_indent, None)? {
            Some(catch_block) => catch_block,
            None => {
                return Err(self.syntax_err(SyntaxError::ExpectedCatchBody));
            },
        };
        let finally_block = if tok_is(self.skip_whitespace_and_peek(), Token::Finally) {
            self.consume_token();
            match self.parse_indented_block(f, current_indent, None)? {
                Some(finally_block) => Some(finally_block),
                None => {
                    return Err(self.syntax_err(SyntaxError::ExpectedFinallyBody));
                },
            }
        } else {
            None
        };
        let result = self.push_node_with_start_span(
            Node::Try(AstTry { try_block, catch_arg, catch_block, finally_block }),
            start_span,
        )?;
        Ok(Some(result))
    }

    fn consume_import_items(&mut self, fuel: u64) -> (r: Result<Vec<Vec<ConstantIndex>>, ParserError>)
        ensures
            ast_extends(*final(self), *old(self)),
        decreases fuel,
    {
        if fuel == 0 {
            return Err(self.internal_err(InternalError::FuelExhausted));
        }
        let f = fuel - 1;
        let mut items: Vec<Vec<ConstantIndex>> = Vec::new();
        let mut lf: u64 = f;
        loop
            invariant
                ast_extends(*self, *old(self)),
                lf < fuel,
            decreases lf,
        {
            if lf == 0 {
                return Err(self.internal_err(InternalError::FuelExhausted));
            }
            lf = lf - 1;
            let item_root = match self.parse_id(false)? {
                Some(item_root) => item_root,
                None => {
                    break;
                },
            };
            let mut item: Vec<ConstantIndex> = Vec::new();
            item.push(item_root);
            let mut lf2: u64 = lf;
            loop
                invariant
                    ast_extends(*self, *old(self)),
                    lf2 < fuel,
                decreases lf2,
            {
                if lf2 == 0 {
                    return Err(self.internal_err(InternalError::FuelExhausted));
                }
                lf2 = lf2 - 1;
                if !tok_is(self.peek_token(), Token::Dot) {
                    break;
                }
                self.consume_token();
                match self.parse_id(false)? {
                    Some(id) => {
                        item.push(id);
                    },
                    None => {
                        return Err(self.syntax_err(SyntaxError::ExpectedImportModuleId));
                    },
                }
            }
            items.push(item);
        }
        if items.len() == 0 {
            return Err(self.syntax_err(SyntaxError::ExpectedIdInImportExpression));
        }
        Ok(items)
    }

    fn parse_indented_block(
        &mut self,
        fuel: u64,
        current_indent: usize,
        block_indent: Option<usize>,
    ) -> (r: Result<Option<AstIndex>, ParserError>)
        ensures
            ast_extends(*final(self), *old(self)),
        decreases fuel,
    {
        if fuel == 0 {
            return Err(self.internal_err(InternalError::FuelExhausted));
        }
        let f = fuel - 1;
        let block_indent: usize = match block_indent {
            Some(indent) => indent,
            None => {
                if !tok_is(self.skip_whitespace_and_peek(), Token::NewLineIndented) {
                    return Ok(None);
                }
                let block_indent = self.lexer.next_indent();
                if block_indent <= current_indent {
                    return Ok(None);
                }
                self.consume_token();
                block_indent
            },
        };
        if block_indent <= current_indent {
            return Ok(None);
        }
        let mut body: Vec<AstIndex> = Vec::new();
        self.consume_until_next_token();
        let start_span = self.lexer.span();
        let mut lf: u64 = f;
        loop
            invariant
                ast_extends(*self, *old(self)),
                lf < fuel,
            decreases lf,
        {
            if lf == 0 {
                return Err(self.internal_err(InternalError::FuelExhausted));
            }
            lf = lf - 1;
            match self.parse_line(lf)? {
                Some(expression) => {
                    body.push(expression);
                    self.consume_until_next_token();
                    let next_indent = self.lexer.current_indent();
                    if next_indent < block_indent {
                        break;
                    } else if next_indent > block_indent {
                        return Err(self.syntax_err(SyntaxError::UnexpectedIndentation));
                    }
                },
                None => {
                    break;
                },
            }
        }
        // a single-expression body doesn't need to be wrapped in a block
        if body.len() == 1 {
            Ok(Some(body[0]))
        } else {
            Ok(Some(self.push_node_with_start_span(Node::Block(body), start_span)?))
        }
    }

    fn parse_nested_expression(&mut self, fuel: u64) -> (r: Result<Option<AstIndex>, ParserError>)
        ensures
            ast_extends(*final(self), *old(self)),
            r matches Ok(Some(ix)) ==> ix < final(self).ast.nodes@.len(),
        decreases fuel,
    {
        if fuel == 0 {
            return Err(self.internal_err(InternalError::FuelExhausted));
        }
        let f = fuel - 1;
        if !tok_is(self.skip_whitespace_and_peek(), Token::ParenOpen) {
            return Ok(None);
        }
        self.consume_token();
        let expression = match self.parse_primary_expression(f)? {
            Some(expression) => expression,
            None => self.push_node(Node::Empty)?,
        };
        if tok_is(self.peek_token(), Token::ParenClose) {
            self.consume_token();
            let result = if self.next_token_is_lookup_start() {
                self.parse_lookup(f, expression, false)?
            } else {
                expression
            };
            Ok(Some(result))
        } else {
            Err(self.syntax_err(SyntaxError::ExpectedCloseParen))
        }
    }

    fn push_ast_op(&mut self, op: Token, lhs: AstIndex, rhs: AstIndex) -> (r: Result<
        AstIndex,
        ParserError,
    >)
        ensures
            ast_extends(*final(self), *old(self)),
            r matches Ok(ix) ==> ix < final(self).ast.nodes@.len() && (produced(
                *final(self),
                ix,
            ) matches Node::BinaryOp { .. }),
    {
        let ast_op = match op {
            Token::Add => AstOp::Add,
            Token::Subtract => AstOp::Subtract,
            Token::Multiply => AstOp::Multiply,
            Token::Divide => AstOp::Divide,
            Token::Modulo => AstOp::Modulo,
            Token::Equal => AstOp::Equal,
            Token::NotEqual => AstOp::NotEqual,
            Token::Greater => AstOp::Greater,
            Token::GreaterOrEqual => AstOp::GreaterOrEqual,
            Token::Less => AstOp::Less,
            Token::LessOrEqual => AstOp::LessOrEqual,
            Token::And => AstOp::And,
            Token::Or => AstOp::Or,
            _ => {
                return Err(self.internal_err(InternalError::UnexpectedToken));
            },
        };
        self.push_node(Node::BinaryOp { op: ast_op, lhs, rhs })
    }
}

} // verus!
