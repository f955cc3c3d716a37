//! The AST arena: an append-only, index-addressed store of nodes with
//! source spans, a settable entry point, and a reset capability for
//! speculative parsing.

use vstd::prelude::*;

use crate::node::{check_node_children, node_children_below, AstIndex, Node};
use crate::token::Span;

verus! {

/// One arena entry: a node and its source span.
#[derive(Debug, PartialEq)]
pub struct AstNodeRow {
    pub node: Node,
    pub span: Span,
}

/// The AST arena. Nodes are appended, never mutated; children are always
/// appended before their parents, so each node's child indices lie below
/// its own index.
#[derive(Debug, PartialEq)]
pub struct Ast {
    pub nodes: Vec<AstNodeRow>,
    pub entry: Option<AstIndex>,
}

/// Well-formedness: every node's children lie below its own index, the
/// entry point (when set) is in range, and indices fit the index type.
pub open spec fn ast_wf(a: Ast) -> bool {
    &&& forall|i: int|
        0 <= i < a.nodes@.len() ==> node_children_below((#[trigger] a.nodes@[i]).node, i)
    &&& match a.entry {
        Some(e) => e < a.nodes@.len(),
        None => true,
    }
}

/// Whether the arena's entry point is set and refers to a main block.
pub open spec fn entry_is_main_block(a: Ast) -> bool {
    match a.entry {
        Some(e) => e < a.nodes@.len() && a.nodes@[e as int].node matches Node::MainBlock { .. },
        None => false,
    }
}

/// Whether the top-level statements' spans are non-decreasing in their
/// start positions: parsing emits the entry block's statements in source
/// order.
pub open spec fn top_level_spans_ordered(a: Ast) -> bool {
    match a.entry {
        Some(e) => e < a.nodes@.len() && match a.nodes@[e as int].node {
            Node::MainBlock { body, .. } => forall|i: int|
                0 <= i < body@.len() - 1 ==> ((#[trigger] body@[i]) < a.nodes@.len() && body@[i
                    + 1] < a.nodes@.len() ==> a.nodes@[body@[i] as int].span.start
                    <= a.nodes@[body@[i + 1] as int].span.start),
            _ => true,
        },
        None => true,
    }
}

/// Checks at run time that the entry block's statement spans are
/// non-decreasing.
#[verifier::loop_isolation(false)]
pub fn check_top_level_spans(a: &Ast) -> (r: bool)
    ensures
        r == top_level_spans_ordered(*a),
{
    match a.entry {
        Some(e) => {
            if (e as usize) >= a.nodes.len() {
                return false;
            }
            match &a.nodes[e as usize].node {
                Node::MainBlock { body, .. } => {
                    let n = body.len();
                    if n == 0 {
                        return true;
                    }
                    for i in 0..n - 1
                        invariant
                            n == body@.len(),
                            forall|j: int|
                                0 <= j < i ==> ((#[trigger] body@[j]) < a.nodes@.len() && body@[j
                                    + 1] < a.nodes@.len() ==> a.nodes@[body@[j] as int].span.start
                                    <= a.nodes@[body@[j + 1] as int].span.start),
                        decreases n - 1 - i,
                    {
                        if (body[i] as usize) < a.nodes.len() && (body[i + 1] as usize)
                            < a.nodes.len() {
                            if a.nodes[body[i] as usize].span.start > a.nodes[body[i
                                + 1] as usize].span.start {
                                return false;
                            }
                        }
                    }
                    true
                },
                _ => true,
            }
        },
        None => true,
    }
}

/// An opaque cursor into the arena for later rollback.
#[derive(Debug, Clone, Copy, PartialEq, Eq, Structural)]
pub struct ResetPoint {
    pub position: usize,
}

impl Ast {
    /// An empty arena.
    pub fn with_capacity(_capacity: usize) -> (r: Ast)
        ensures
            r.nodes@.len() == 0,
            r.entry is None,
            ast_wf(r),
    {
        Ast { nodes: Vec::new(), entry: None }
    }

    /// The number of nodes.
    pub fn len(&self) -> (r: usize)
        ensures
            r == self.nodes@.len(),
    {
        self.nodes.len()
    }

    /// Appends a node with its span, returning its index. Fails when a
    /// child index is out of range (children must be pushed first) or
    /// when the arena is full.
    pub fn push(&mut self, node: Node, span: Span) -> (r: Result<AstIndex, ()>)
        ensures
            match r {
                Ok(ix) => {
                    &&& ix == old(self).nodes@.len()
                    &&& final(self).nodes@.len() == old(self).nodes@.len() + 1
                    &&& final(self).nodes@ == old(self).nodes@.push(
                        AstNodeRow { node, span },
                    )
                    &&& final(self).entry == old(self).entry
                    &&& node_children_below(node, ix as int)
                },
                Err(_) => *final(self) == *old(self),
            },
            ast_wf(*old(self)) ==> ast_wf(*final(self)),
            (old(self).nodes@.len() < 4294967295 && node_children_below(
                node,
                old(self).nodes@.len() as int,
            )) ==> r is Ok,
    {
        let n = self.nodes.len();
        if n >= 4294967295usize {
            return Err(());
        }
        if !check_node_children(&node, n as u32) {
            return Err(());
        }
        self.nodes.push(AstNodeRow { node, span });
        proof {
            if ast_wf(*old(self)) {
                assert forall|i: int| 0 <= i < self.nodes@.len() implies node_children_below(
                    (#[trigger] self.nodes@[i]).node,
                    i,
                ) by {
                    if i < old(self).nodes@.len() {
                        assert(self.nodes@[i] == old(self).nodes@[i]);
                    }
                }
            }
        }
        Ok(n as u32)
    }

    /// The node at an index.
    pub fn node(&self, index: AstIndex) -> (r: Option<&AstNodeRow>)
        ensures
            match r {
                Some(row) => index < self.nodes@.len() && *row == self.nodes@[index as int],
                None => index >= self.nodes@.len(),
            },
    {
        if (index as usize) < self.nodes.len() {
            Some(&self.nodes[index as usize])
        } else {
            None
        }
    }

    /// Captures a cursor for later rollback.
    pub fn reset_point(&self) -> (r: ResetPoint)
        ensures
            r.position == self.nodes@.len(),
    {
        ResetPoint { position: self.nodes.len() }
    }

    /// Rolls back to a captured cursor: every node appended after the
    /// capture is removed, and the arena is exactly its state at capture.
    pub fn reset(&mut self, point: ResetPoint)
        ensures
            point.position <= old(self).nodes@.len() ==> final(self).nodes@ == old(
                self,
            ).nodes@.take(point.position as int),
            point.position > old(self).nodes@.len() ==> final(self).nodes@ == old(self).nodes@,
            ast_wf(*old(self)) ==> ast_wf(*final(self)),
    {
        let n = self.nodes.len();
        if point.position <= n {
            self.nodes.truncate(point.position);
            match self.entry {
                Some(e) => {
                    if (e as usize) >= point.position {
                        self.entry = None;
                    }
                },
                None => {},
            }
            proof {
                assert(self.nodes@ =~= old(self).nodes@.take(point.position as int));
                if ast_wf(*old(self)) {
                    assert forall|i: int| 0 <= i < self.nodes@.len() implies node_children_below(
                        (#[trigger] self.nodes@[i]).node,
                        i,
                    ) by {
                        assert(self.nodes@[i] == old(self).nodes@[i]);
                    }
                }
            }
        }
    }

    /// Sets the entry point; out-of-range indices are ignored.
    pub fn set_entry_point(&mut self, index: AstIndex)
        ensures
            (index as int) < old(self).nodes@.len() ==> final(self).entry == Some(index),
            (index as int) >= old(self).nodes@.len() ==> final(self).entry == old(self).entry,
            final(self).nodes@ == old(self).nodes@,
            ast_wf(*old(self)) ==> ast_wf(*final(self)),
    {
        if (index as usize) < self.nodes.len() {
            self.entry = Some(index);
        }
    }

    /// The entry point, if set.
    pub fn entry_point(&self) -> (r: Option<AstIndex>)
        ensures
            r == self.entry,
    {
        self.entry
    }
}

/// Rolling back to a captured point erases exactly the speculation: for
/// any arena, capturing a reset point, appending any run of nodes, and
/// resetting leaves the node store exactly as it was at capture. Since
/// parsing is deterministic, re-parsing a construct from a restored state
/// rebuilds the same nodes as parsing it directly from that state.
pub proof fn lemma_reset_restores(before: Ast, after: Ast, point: ResetPoint)
    requires
        point.position == before.nodes@.len(),
        after.nodes@.len() >= before.nodes@.len(),
        forall|i: int| 0 <= i < before.nodes@.len() ==> after.nodes@[i] == before.nodes@[i],
    ensures
        after.nodes@.take(point.position as int) == before.nodes@,
{
    assert(after.nodes@.take(point.position as int) =~= before.nodes@);
}

} // verus!
