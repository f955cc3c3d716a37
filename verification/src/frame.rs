//! The parser's per-scope frame: which identifiers the scope assigns,
//! which it reads without a prior local assignment (its captures), and a
//! transient per-expression access counter that decides, once an
//! expression is complete, which reads were non-local.
//!
//! While an expression is parsed, each identifier read counts +1 and each
//! plain assignment of it counts -1; when the expression finishes, any
//! identifier with a positive count that the scope has not assigned is a
//! non-local access.

use vstd::prelude::*;

use crate::node::ConstantIndex;

verus! {

/// Whether a sequence of identifiers is strictly increasing (so: sorted
/// and without duplicates).
pub open spec fn sorted_unique(s: Seq<ConstantIndex>) -> bool {
    forall|i: int, j: int| 0 <= i < j < s.len() ==> s[i] < s[j]
}

/// Whether an identifier occurs in a sequence.
pub open spec fn id_in(s: Seq<ConstantIndex>, id: ConstantIndex) -> bool {
    exists|i: int| 0 <= i < s.len() && s[i] == id
}

/// Membership test in a sorted identifier set.
#[verifier::loop_isolation(false)]
pub fn set_contains(items: &Vec<ConstantIndex>, id: ConstantIndex) -> (r: bool)
    ensures
        r == id_in(items@, id),
{
    let n = items.len();
    for i in 0..n
        invariant
            n == items.len(),
            forall|j: int| 0 <= j < i ==> items@[j] != id,
        decreases n - i,
    {
        if items[i] == id {
            return true;
        }
    }
    false
}

/// Inserts an identifier into a sorted set, keeping it sorted and
/// duplicate-free.
#[verifier::loop_isolation(false)]
pub fn set_insert(items: &mut Vec<ConstantIndex>, id: ConstantIndex)
    requires
        sorted_unique(old(items)@),
    ensures
        sorted_unique(final(items)@),
        forall|x: ConstantIndex| #[trigger]
            id_in(final(items)@, x) <==> (id_in(old(items)@, x) || x == id),
{
    let n = items.len();
    let mut pos: usize = 0;
    while pos < n && items[pos] < id
        invariant
            pos <= n,
            forall|j: int| 0 <= j < pos ==> (#[trigger] items@[j]) < id,
        decreases n - pos,
    {
        pos = pos + 1;
    }
    if pos < n && items[pos] == id {
        proof {
            assert(id_in(items@, id));
        }
        return ;
    }
    let ghost before = items@;
    items.insert(pos, id);
    proof {
        assert(items@ == before.insert(pos as int, id));
        assert(pos < before.len() ==> before[pos as int] > id);
        assert forall|i: int, j: int| 0 <= i < j < items@.len() implies items@[i] < items@[j] by {
            let a = if i < pos {
                before[i]
            } else if i == pos {
                id
            } else {
                before[i - 1]
            };
            assert(items@[i] == a);
            let b = if j < pos {
                before[j]
            } else if j == pos {
                id
            } else {
                before[j - 1]
            };
            assert(items@[j] == b);
        }
        assert forall|x: ConstantIndex| #[trigger]
            id_in(items@, x) implies (id_in(before, x) || x == id) by {
            let w = choose|i: int| 0 <= i < items@.len() && items@[i] == x;
            if w < pos {
                assert(before[w] == x);
            } else if w > pos {
                assert(before[w - 1] == x);
            }
        }
        assert forall|x: ConstantIndex| (id_in(before, x) || x == id) implies #[trigger]
            id_in(items@, x) by {
            if x == id {
                assert(items@[pos as int] == id);
            } else {
                let w = choose|i: int| 0 <= i < before.len() && before[i] == x;
                if w < pos {
                    assert(items@[w] == x);
                } else {
                    assert(items@[w + 1] == x);
                }
            }
        }
    }
}

/// How many identifiers of `a` do not occur in `b`.
pub open spec fn diff_count(a: Seq<ConstantIndex>, b: Seq<ConstantIndex>) -> int {
    a.filter(|x: ConstantIndex| !id_in(b, x)).len() as int
}

/// A transient access count raised by one, saturating at its ceiling.
pub open spec fn bump(c: u64) -> u64 {
    if c < u64::MAX {
        (c + 1) as u64
    } else {
        u64::MAX
    }
}

/// The transient access count of an identifier: the recorded count, or
/// zero when the identifier is unrecorded.
pub open spec fn count_of(entries: Seq<(ConstantIndex, u64)>, id: ConstantIndex) -> u64
    decreases entries.len(),
{
    if entries.len() == 0 {
        0u64
    } else if entries[0].0 == id {
        entries[0].1
    } else {
        count_of(entries.drop_first(), id)
    }
}

/// Whether the count entries' keys are pairwise distinct.
pub open spec fn keys_unique(entries: Seq<(ConstantIndex, u64)>) -> bool {
    forall|i: int, j: int| 0 <= i < j < entries.len() ==> entries[i].0 != entries[j].0
}

proof fn lemma_count_of_found(entries: Seq<(ConstantIndex, u64)>, k: int)
    requires
        keys_unique(entries),
        0 <= k < entries.len(),
    ensures
        count_of(entries, entries[k].0) == entries[k].1,
    decreases entries.len(),
{
    if k > 0 {
        assert(entries[0].0 != entries[k].0);
        assert(entries.drop_first()[k - 1] == entries[k]);
        assert(keys_unique(entries.drop_first())) by {
            assert(forall|i: int, j: int|
                0 <= i < j < entries.drop_first().len() ==> entries.drop_first()[i]
                    == entries[i + 1] && entries.drop_first()[j] == entries[j + 1]);
        }
        lemma_count_of_found(entries.drop_first(), k - 1);
    }
}

proof fn lemma_count_of_absent(entries: Seq<(ConstantIndex, u64)>, id: ConstantIndex)
    requires
        forall|i: int| 0 <= i < entries.len() ==> (#[trigger] entries[i]).0 != id,
    ensures
        count_of(entries, id) == 0,
    decreases entries.len(),
{
    if entries.len() > 0 {
        assert(forall|i: int|
            0 <= i < entries.drop_first().len() ==> (#[trigger] entries.drop_first()[i])
                == entries[i + 1]);
        lemma_count_of_absent(entries.drop_first(), id);
    }
}

proof fn lemma_count_of_update(
    before: Seq<(ConstantIndex, u64)>,
    after: Seq<(ConstantIndex, u64)>,
    k: int,
    id: ConstantIndex,
)
    requires
        keys_unique(before),
        0 <= k < before.len(),
        after.len() == before.len(),
        before[k].0 == id,
        after[k].0 == id,
        forall|i: int| 0 <= i < before.len() && i != k ==> after[i] == before[i],
    ensures
        keys_unique(after),
        count_of(after, id) == after[k].1,
        forall|x: ConstantIndex| x != id ==> count_of(after, x) == count_of(before, x),
    decreases before.len(),
{
    assert forall|i: int, j: int| 0 <= i < j < after.len() implies after[i].0 != after[j].0 by {
        assert(after[i].0 == before[i].0 && after[j].0 == before[j].0);
    }
    lemma_count_of_found(after, k);
    assert forall|x: ConstantIndex| x != id implies count_of(after, x) == count_of(before, x) by {
        lemma_count_eq_pointwise(before, after, x);
    }
}

proof fn lemma_count_eq_pointwise(
    a: Seq<(ConstantIndex, u64)>,
    b: Seq<(ConstantIndex, u64)>,
    x: ConstantIndex,
)
    requires
        a.len() == b.len(),
        forall|i: int| 0 <= i < a.len() ==> (#[trigger] b[i]).0 == a[i].0,
        forall|i: int| 0 <= i < a.len() && a[i].0 == x ==> (#[trigger] b[i]).1 == a[i].1,
    ensures
        count_of(b, x) == count_of(a, x),
    decreases a.len(),
{
    if a.len() > 0 {
        assert(b[0].0 == a[0].0);
        if a[0].0 == x {
            assert(b[0].1 == a[0].1);
        } else {
            assert(forall|i: int|
                0 <= i < a.drop_first().len() ==> (#[trigger] a.drop_first()[i]) == a[i + 1]
                    && b.drop_first()[i] == b[i + 1]);
            lemma_count_eq_pointwise(a.drop_first(), b.drop_first(), x);
        }
    }
}

/// One lexical scope's locality-analysis state.
#[derive(Debug)]
pub struct Frame {
    pub top_level: bool,
    pub contains_yield: bool,
    pub ids_assigned_in_scope: Vec<ConstantIndex>,
    pub accessed_non_locals: Vec<ConstantIndex>,
    pub expression_id_accesses: Vec<(ConstantIndex, u64)>,
    pub assigned_in_expression: Vec<ConstantIndex>,
}

/// The frame's invariant: the identifier sets are sorted and
/// duplicate-free, and the transient counter's keys are distinct.
pub open spec fn frame_wf(f: Frame) -> bool {
    &&& sorted_unique(f.ids_assigned_in_scope@)
    &&& sorted_unique(f.accessed_non_locals@)
    &&& keys_unique(f.expression_id_accesses@)
    &&& sorted_unique(f.assigned_in_expression@)
}

impl Frame {
    /// A fresh frame.
    pub fn new(top_level: bool) -> (r: Frame)
        ensures
            frame_wf(r),
            r.top_level == top_level,
            !r.contains_yield,
            r.ids_assigned_in_scope@.len() == 0,
            r.accessed_non_locals@.len() == 0,
            r.expression_id_accesses@.len() == 0,
            r.assigned_in_expression@.len() == 0,
    {
        Frame {
            top_level,
            contains_yield: false,
            ids_assigned_in_scope: Vec::new(),
            accessed_non_locals: Vec::new(),
            expression_id_accesses: Vec::new(),
            assigned_in_expression: Vec::new(),
        }
    }

    /// The number of locals this scope declares: how many assigned
    /// identifiers are not also non-local accesses.
    #[verifier::loop_isolation(false)]
    pub fn local_count(&self) -> (r: usize)
        ensures
            r == diff_count(self.ids_assigned_in_scope@, self.accessed_non_locals@),
    {
        let n = self.ids_assigned_in_scope.len();
        let mut count: usize = 0;
        let ghost assigned = self.ids_assigned_in_scope@;
        let ghost nls = self.accessed_non_locals@;
        proof {
            assert(assigned.take(0).filter(|x: ConstantIndex| !id_in(nls, x)) =~= Seq::empty());
        }
        for i in 0..n
            invariant
                n == self.ids_assigned_in_scope@.len(),
                assigned == self.ids_assigned_in_scope@,
                nls == self.accessed_non_locals@,
                count <= i,
                count == assigned.take(i as int).filter(|x: ConstantIndex| !id_in(nls, x)).len(),
            decreases n - i,
        {
            let ghost taken = assigned.take(i as int);
            proof {
                assert(assigned.take(i + 1).drop_last() =~= taken);
                assert(assigned.take(i + 1).last() == assigned[i as int]);
                reveal_with_fuel(Seq::filter, 2);
                assert(assigned.take(i + 1).filter(|x: ConstantIndex| !id_in(nls, x))
                    == if !id_in(nls, assigned[i as int]) {
                    taken.filter(|x: ConstantIndex| !id_in(nls, x)).push(assigned[i as int])
                } else {
                    taken.filter(|x: ConstantIndex| !id_in(nls, x))
                });
            }
            if !set_contains(&self.accessed_non_locals, self.ids_assigned_in_scope[i]) {
                count = count + 1;
            }
        }
        proof {
            assert(assigned.take(n as int) =~= assigned);
        }
        count
    }

    /// Records that a nested function's non-local accesses are also
    /// accesses in this frame, so captures propagate outward: each of the
    /// nested frame's non-locals re-increments this frame's transient
    /// counter by one (saturating), and nothing else changes, so a later
    /// local assignment here can still cancel the capture when the
    /// expression finishes.
    #[verifier::loop_isolation(false)]
    pub fn add_nested_accessed_non_locals(&mut self, nested: &Frame)
        requires
            frame_wf(*old(self)),
        ensures
            frame_wf(*final(self)),
            final(self).top_level == old(self).top_level,
            final(self).contains_yield == old(self).contains_yield,
            final(self).ids_assigned_in_scope@ == old(self).ids_assigned_in_scope@,
            final(self).accessed_non_locals@ == old(self).accessed_non_locals@,
            final(self).assigned_in_expression@ == old(self).assigned_in_expression@,
            sorted_unique(nested.accessed_non_locals@) ==> forall|x: ConstantIndex|
                #[trigger] count_of(final(self).expression_id_accesses@, x) == if id_in(
                    nested.accessed_non_locals@,
                    x,
                ) {
                    bump(count_of(old(self).expression_id_accesses@, x))
                } else {
                    count_of(old(self).expression_id_accesses@, x)
                },
    {
        let n = nested.accessed_non_locals.len();
        for i in 0..n
            invariant
                n == nested.accessed_non_locals@.len(),
                frame_wf(*self),
                self.top_level == old(self).top_level,
                self.contains_yield == old(self).contains_yield,
                self.ids_assigned_in_scope@ == old(self).ids_assigned_in_scope@,
                self.accessed_non_locals@ == old(self).accessed_non_locals@,
                self.assigned_in_expression@ == old(self).assigned_in_expression@,
                sorted_unique(nested.accessed_non_locals@) ==> forall|x: ConstantIndex|
                    #[trigger] count_of(self.expression_id_accesses@, x) == if id_in(
                        nested.accessed_non_locals@.take(i as int),
                        x,
                    ) {
                        bump(count_of(old(self).expression_id_accesses@, x))
                    } else {
                        count_of(old(self).expression_id_accesses@, x)
                    },
            decreases n - i,
        {
            let id = nested.accessed_non_locals[i];
            let ghost counts0 = self.expression_id_accesses@;
            proof {
                if sorted_unique(nested.accessed_non_locals@) {
                    assert(!id_in(nested.accessed_non_locals@.take(i as int), id)) by {
                        if id_in(nested.accessed_non_locals@.take(i as int), id) {
                            let j = choose|j: int|
                                0 <= j < i && nested.accessed_non_locals@.take(i as int)[j] == id;
                            assert(nested.accessed_non_locals@[j]
                                < nested.accessed_non_locals@[i as int]);
                        }
                    }
                    assert(count_of(counts0, id) == count_of(
                        old(self).expression_id_accesses@,
                        id,
                    ));
                }
            }
            self.increment_expression_access_for_id(id);
            proof {
                if sorted_unique(nested.accessed_non_locals@) {
                    assert(nested.accessed_non_locals@.take(i + 1)[i as int] == id);
                    assert forall|x: ConstantIndex|
                        #[trigger] count_of(self.expression_id_accesses@, x) == if id_in(
                            nested.accessed_non_locals@.take(i + 1),
                            x,
                        ) {
                            bump(count_of(old(self).expression_id_accesses@, x))
                        } else {
                            count_of(old(self).expression_id_accesses@, x)
                        } by {
                        assert(nested.accessed_non_locals@.take(i + 1).drop_last()
                            =~= nested.accessed_non_locals@.take(i as int));
                        if x == id {
                        } else {
                            if id_in(nested.accessed_non_locals@.take(i + 1), x) {
                                let j = choose|j: int|
                                    0 <= j < i + 1 && (#[trigger] nested.accessed_non_locals@.take(
                                        i + 1,
                                    )[j]) == x;
                                assert(j < i);
                                assert(nested.accessed_non_locals@.take(i as int)[j] == x);
                            } else {
                                if id_in(nested.accessed_non_locals@.take(i as int), x) {
                                    let j = choose|j: int|
                                        0 <= j < i && nested.accessed_non_locals@.take(
                                            i as int,
                                        )[j] == x;
                                    assert(nested.accessed_non_locals@.take(i + 1)[j] == x);
                                }
                            }
                        }
                    }
                }
            }
        }
        proof {
            if sorted_unique(nested.accessed_non_locals@) {
                assert(nested.accessed_non_locals@.take(n as int)
                    =~= nested.accessed_non_locals@);
            }
        }
    }

    /// Notes one read of an identifier in the current expression.
    #[verifier::loop_isolation(false)]
    pub fn increment_expression_access_for_id(&mut self, id: ConstantIndex)
        requires
            frame_wf(*old(self)),
        ensures
            frame_wf(*final(self)),
            final(self).top_level == old(self).top_level,
            final(self).contains_yield == old(self).contains_yield,
            final(self).ids_assigned_in_scope@ == old(self).ids_assigned_in_scope@,
            final(self).accessed_non_locals@ == old(self).accessed_non_locals@,
            final(self).assigned_in_expression@ == old(self).assigned_in_expression@,
            count_of(final(self).expression_id_accesses@, id) == if count_of(
                old(self).expression_id_accesses@,
                id,
            ) < u64::MAX {
                (count_of(old(self).expression_id_accesses@, id) + 1) as u64
            } else {
                u64::MAX
            },
            forall|x: ConstantIndex|
                x != id ==> count_of(final(self).expression_id_accesses@, x) == count_of(
                    old(self).expression_id_accesses@,
                    x,
                ),
    {
        let n = self.expression_id_accesses.len();
        let ghost entries0 = self.expression_id_accesses@;
        for i in 0..n
            invariant
                n == self.expression_id_accesses@.len(),
                *self == *old(self),
                entries0 == self.expression_id_accesses@,
                forall|j: int| 0 <= j < i ==> (#[trigger] entries0[j]).0 != id,
            decreases n - i,
        {
            if self.expression_id_accesses[i].0 == id {
                let c = self.expression_id_accesses[i].1;
                let c2: u64 = if c < u64::MAX {
                    c + 1
                } else {
                    u64::MAX
                };
                self.expression_id_accesses.set(i, (id, c2));
                proof {
                    lemma_count_of_found(entries0, i as int);
                    lemma_count_of_update(
                        entries0,
                        self.expression_id_accesses@,
                        i as int,
                        id,
                    );
                }
                return ;
            }
        }
        let ghost before = self.expression_id_accesses@;
        self.expression_id_accesses.push((id, 1u64));
        proof {
            lemma_count_of_absent(before, id);
            lemma_count_push(before, id, 1u64);
        }
    }

    /// Notes one plain assignment of an identifier in the current
    /// expression; the identifier must have been read first, else the
    /// parser's invariant is broken and the caller reports an internal
    /// error.
    #[verifier::loop_isolation(false)]
    pub fn decrement_expression_access_for_id(&mut self, id: ConstantIndex) -> (r: Result<(), ()>)
        requires
            frame_wf(*old(self)),
        ensures
            frame_wf(*final(self)),
            final(self).top_level == old(self).top_level,
            final(self).contains_yield == old(self).contains_yield,
            final(self).ids_assigned_in_scope@ == old(self).ids_assigned_in_scope@,
            final(self).accessed_non_locals@ == old(self).accessed_non_locals@,
            final(self).assigned_in_expression@ == old(self).assigned_in_expression@,
            match r {
                Ok(_) => count_of(old(self).expression_id_accesses@, id) > 0 && count_of(
                    final(self).expression_id_accesses@,
                    id,
                ) == count_of(old(self).expression_id_accesses@, id) - 1 && (forall|
                    x: ConstantIndex,
                |
                    x != id ==> count_of(final(self).expression_id_accesses@, x) == count_of(
                        old(self).expression_id_accesses@,
                        x,
                    )),
                Err(_) => *final(self) == *old(self) && count_of(
                    old(self).expression_id_accesses@,
                    id,
                ) == 0,
            },
    {
        let n = self.expression_id_accesses.len();
        let ghost entries0 = self.expression_id_accesses@;
        for i in 0..n
            invariant
                n == self.expression_id_accesses@.len(),
                *self == *old(self),
                entries0 == self.expression_id_accesses@,
                forall|j: int| 0 <= j < i ==> (#[trigger] entries0[j]).0 != id,
            decreases n - i,
        {
            if self.expression_id_accesses[i].0 == id {
                let c = self.expression_id_accesses[i].1;
                if c == 0 {
                    proof {
                        lemma_count_of_found(entries0, i as int);
                    }
                    return Err(());
                }
                self.expression_id_accesses.set(i, (id, c - 1));
                proof {
                    lemma_count_of_found(entries0, i as int);
                    lemma_count_of_update(
                        entries0,
                        self.expression_id_accesses@,
                        i as int,
                        id,
                    );
                }
                return Ok(());
            }
        }
        proof {
            lemma_count_of_absent(entries0, id);
        }
        Err(())
    }

    /// Finishes the current expression: every identifier whose transient
    /// count is still positive and which this scope either has not
    /// assigned, or assigned only within this very expression (so the
    /// surviving read saw the identifier before its assignment), becomes
    /// a non-local access; the transient counter and the per-expression
    /// assignment record are cleared.
    #[verifier::loop_isolation(false)]
    pub fn finish_expressions(&mut self)
        requires
            frame_wf(*old(self)),
        ensures
            frame_wf(*final(self)),
            final(self).top_level == old(self).top_level,
            final(self).contains_yield == old(self).contains_yield,
            final(self).ids_assigned_in_scope@ == old(self).ids_assigned_in_scope@,
            final(self).expression_id_accesses@.len() == 0,
            final(self).assigned_in_expression@.len() == 0,
            forall|x: ConstantIndex| #[trigger]
                id_in(final(self).accessed_non_locals@, x) <==> (id_in(
                    old(self).accessed_non_locals@,
                    x,
                ) || (count_of(old(self).expression_id_accesses@, x) > 0 && (!id_in(
                    old(self).ids_assigned_in_scope@,
                    x,
                ) || id_in(old(self).assigned_in_expression@, x)))),
    {
        let n = self.expression_id_accesses.len();
        let ghost entries0 = self.expression_id_accesses@;
        for i in 0..n
            invariant
                n == self.expression_id_accesses@.len(),
                frame_wf(*self),
                entries0 == self.expression_id_accesses@,
                self.top_level == old(self).top_level,
                self.contains_yield == old(self).contains_yield,
                self.ids_assigned_in_scope@ == old(self).ids_assigned_in_scope@,
                self.assigned_in_expression@ == old(self).assigned_in_expression@,
                forall|x: ConstantIndex| #[trigger]
                    id_in(self.accessed_non_locals@, x) <==> (id_in(
                        old(self).accessed_non_locals@,
                        x,
                    ) || (exists|j: int|
                        0 <= j < i && (#[trigger] entries0[j]).0 == x && entries0[j].1 > 0 && (
                        !id_in(old(self).ids_assigned_in_scope@, x) || id_in(
                            old(self).assigned_in_expression@,
                            x,
                        )))),
            decreases n - i,
        {
            let (id, c) = self.expression_id_accesses[i];
            if c > 0 && (!set_contains(&self.ids_assigned_in_scope, id) || set_contains(
                &self.assigned_in_expression,
                id,
            )) {
                set_insert(&mut self.accessed_non_locals, id);
            }
            proof {
                assert(entries0[i as int].0 == id && entries0[i as int].1 == c);
            }
        }
        self.expression_id_accesses.clear();
        self.assigned_in_expression.clear();
        proof {
            assert forall|x: ConstantIndex| #[trigger]
                id_in(self.accessed_non_locals@, x) <==> (id_in(old(self).accessed_non_locals@, x)
                || (count_of(entries0, x) > 0 && (!id_in(old(self).ids_assigned_in_scope@, x)
                || id_in(old(self).assigned_in_expression@, x)))) by {
                if exists|j: int|
                    0 <= j < n && (#[trigger] entries0[j]).0 == x && entries0[j].1 > 0 {
                    let j = choose|j: int|
                        0 <= j < n && (#[trigger] entries0[j]).0 == x && entries0[j].1 > 0;
                    lemma_count_of_found(entries0, j);
                } else {
                    if count_of(entries0, x) > 0 {
                        lemma_count_positive_witness(entries0, x);
                    }
                }
            }
        }
    }
}

proof fn lemma_count_push(before: Seq<(ConstantIndex, u64)>, id: ConstantIndex, c: u64)
    requires
        forall|i: int| 0 <= i < before.len() ==> (#[trigger] before[i]).0 != id,
        keys_unique(before),
    ensures
        keys_unique(before.push((id, c))),
        count_of(before.push((id, c)), id) == c,
        forall|x: ConstantIndex|
            x != id ==> count_of(before.push((id, c)), x) == count_of(before, x),
    decreases before.len(),
{
    let after = before.push((id, c));
    assert forall|i: int, j: int| 0 <= i < j < after.len() implies after[i].0 != after[j].0 by {
        if j < before.len() {
            assert(after[i] == before[i] && after[j] == before[j]);
        } else {
            assert(after[i] == before[i] && after[j] == (id, c));
        }
    }
    lemma_count_of_found(after, before.len() as int);
    assert forall|x: ConstantIndex| x != id implies count_of(after, x) == count_of(before, x) by {
        lemma_count_of_push_other(before, id, c, x);
    }
}

proof fn lemma_count_of_push_other(
    before: Seq<(ConstantIndex, u64)>,
    id: ConstantIndex,
    c: u64,
    x: ConstantIndex,
)
    requires
        x != id,
    ensures
        count_of(before.push((id, c)), x) == count_of(before, x),
    decreases before.len(),
{
    let after = before.push((id, c));
    if before.len() == 0 {
        assert(after.len() == 1);
        assert(after[0] == (id, c));
        assert(after.drop_first() =~= Seq::<(ConstantIndex, u64)>::empty());
        reveal_with_fuel(count_of, 3);
        assert(count_of(after, x) == 0);
    } else {
        assert(after[0] == before[0]);
        assert(after.drop_first() =~= before.drop_first().push((id, c)));
        if before[0].0 == x {
            assert(count_of(after, x) == after[0].1);
            assert(count_of(before, x) == before[0].1);
        } else {
            lemma_count_of_push_other(before.drop_first(), id, c, x);
            assert(count_of(after, x) == count_of(after.drop_first(), x));
            assert(count_of(before, x) == count_of(before.drop_first(), x));
        }
    }
}

proof fn lemma_count_positive_witness(entries: Seq<(ConstantIndex, u64)>, x: ConstantIndex)
    requires
        count_of(entries, x) > 0,
    ensures
        exists|j: int| 0 <= j < entries.len() && (#[trigger] entries[j]).0 == x && entries[j].1 > 0,
    decreases entries.len(),
{
    if entries.len() > 0 {
        if entries[0].0 == x {
            assert(entries[0].1 > 0);
        } else {
            lemma_count_positive_witness(entries.drop_first(), x);
            let j = choose|j: int|
                0 <= j < entries.drop_first().len() && (#[trigger] entries.drop_first()[j]).0 == x
                    && entries.drop_first()[j].1 > 0;
            assert(entries[j + 1] == entries.drop_first()[j]);
        }
    }
}

} // verus!
