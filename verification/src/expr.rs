use vstd::prelude::*;

use crate::ids::{ExprId, ParamId, VarId};
use crate::number::Number;

verus! {

/// A node of an expression tree; children are nodes stored earlier in the
/// same arena.
#[derive(Clone, Debug)]
pub enum ExprNode {
    Const(Number),
    Var(VarId),
    Param(ParamId),
    Add(ExprId, ExprId),
    Sub(ExprId, ExprId),
    Mul(ExprId, ExprId),
    Neg(ExprId),
}

/// Every child of `node` lies below position `k`.
pub open spec fn children_below(node: ExprNode, k: int) -> bool {
    match node {
        ExprNode::Add(a, b) | ExprNode::Sub(a, b) | ExprNode::Mul(a, b) => a.0 < k && b.0 < k,
        ExprNode::Neg(a) => a.0 < k,
        _ => true,
    }
}

/// Append-only storage of expression nodes; an `ExprId` is a position in it.
#[derive(Clone, Debug)]
pub struct ExprArena {
    nodes: Vec<ExprNode>,
}

impl View for ExprArena {
    type V = Seq<ExprNode>;

    closed spec fn view(&self) -> Seq<ExprNode> {
        self.nodes@
    }
}

/// The arena is well formed: each node refers only to nodes stored before it,
/// and every position fits an `ExprId`.
pub open spec fn arena_wf(nodes: Seq<ExprNode>) -> bool {
    &&& nodes.len() <= u32::MAX
    &&& forall|k: int| 0 <= k < nodes.len() ==> children_below(#[trigger] nodes[k], k)
}

/// `id` names a node of `nodes`.
pub open spec fn valid_id(nodes: Seq<ExprNode>, id: ExprId) -> bool {
    id.0 < nodes.len()
}

/// The nodes that summing `items` appends to an arena of `base` nodes: the
/// running total of the first `k + 1` items plus item `k + 1`, for each `k`.
pub open spec fn sum_nodes(items: Seq<ExprId>, base: int) -> Seq<ExprNode> {
    Seq::new(
        (if items.len() == 0 { 0 } else { items.len() - 1 }) as nat,
        |k: int| ExprNode::Add(sum_partial(items, base, k), items[k + 1]),
    )
}

/// The node that holds the total of the first `k + 1` items.
pub open spec fn sum_partial(items: Seq<ExprId>, base: int, k: int) -> ExprId {
    if k <= 0 {
        items[0]
    } else {
        ExprId((base + k - 1) as u32)
    }
}

/// The node that holds the total of all `items`.
pub open spec fn sum_result(items: Seq<ExprId>, base: int) -> ExprId {
    sum_partial(items, base, items.len() - 1)
}

impl ExprArena {
    /// An empty arena.
    pub fn new() -> (a: ExprArena)
        ensures
            a@ == Seq::<ExprNode>::empty(),
            arena_wf(a@),
    {
        ExprArena { nodes: Vec::new() }
    }

    /// The number of nodes stored.
    pub fn len(&self) -> (n: usize)
        ensures
            n == self@.len(),
    {
        self.nodes.len()
    }

    /// The node that `id` names.
    pub fn get(&self, id: ExprId) -> (node: &ExprNode)
        requires
            valid_id(self@, id),
        ensures
            *node == self@[id.0 as int],
    {
        &self.nodes[id.index()]
    }

    /// Stores `node`, whose children must already be stored, and returns its
    /// id.
    fn push(&mut self, node: ExprNode) -> (id: ExprId)
        requires
            arena_wf(old(self)@),
            old(self)@.len() < u32::MAX,
            children_below(node, old(self)@.len() as int),
        ensures
            final(self)@ == old(self)@.push(node),
            id.0 == old(self)@.len(),
            arena_wf(final(self)@),
    {
        let id = ExprId(self.nodes.len() as u32);
        self.nodes.push(node);
        proof {
            assert forall|k: int| 0 <= k < self@.len() implies children_below(
                #[trigger] self@[k],
                k,
            ) by {
                if k < old(self)@.len() {
                    assert(self@[k] == old(self)@[k]);
                }
            }
        }
        id
    }

    /// A constant leaf.
    pub fn constant(&mut self, value: Number) -> (id: ExprId)
        requires
            arena_wf(old(self)@),
            old(self)@.len() < u32::MAX,
        ensures
            final(self)@ == old(self)@.push(ExprNode::Const(value)),
            id.0 == old(self)@.len(),
            arena_wf(final(self)@),
    {
        self.push(ExprNode::Const(value))
    }

    /// A variable leaf.
    pub fn var(&mut self, v: VarId) -> (id: ExprId)
        requires
            arena_wf(old(self)@),
            old(self)@.len() < u32::MAX,
        ensures
            final(self)@ == old(self)@.push(ExprNode::Var(v)),
            id.0 == old(self)@.len(),
            arena_wf(final(self)@),
    {
        self.push(ExprNode::Var(v))
    }

    /// A parameter leaf.
    pub fn param(&mut self, p: ParamId) -> (id: ExprId)
        requires
            arena_wf(old(self)@),
            old(self)@.len() < u32::MAX,
        ensures
            final(self)@ == old(self)@.push(ExprNode::Param(p)),
            id.0 == old(self)@.len(),
            arena_wf(final(self)@),
    {
        self.push(ExprNode::Param(p))
    }

    /// `lhs + rhs`.
    pub fn add(&mut self, lhs: ExprId, rhs: ExprId) -> (id: ExprId)
        requires
            arena_wf(old(self)@),
            old(self)@.len() < u32::MAX,
            valid_id(old(self)@, lhs),
            valid_id(old(self)@, rhs),
        ensures
            final(self)@ == old(self)@.push(ExprNode::Add(lhs, rhs)),
            id.0 == old(self)@.len(),
            arena_wf(final(self)@),
    {
        self.push(ExprNode::Add(lhs, rhs))
    }

    /// `lhs - rhs`.
    pub fn sub(&mut self, lhs: ExprId, rhs: ExprId) -> (id: ExprId)
        requires
            arena_wf(old(self)@),
            old(self)@.len() < u32::MAX,
            valid_id(old(self)@, lhs),
            valid_id(old(self)@, rhs),
        ensures
            final(self)@ == old(self)@.push(ExprNode::Sub(lhs, rhs)),
            id.0 == old(self)@.len(),
            arena_wf(final(self)@),
    {
        self.push(ExprNode::Sub(lhs, rhs))
    }

    /// `lhs * rhs`.
    pub fn mul(&mut self, lhs: ExprId, rhs: ExprId) -> (id: ExprId)
        requires
            arena_wf(old(self)@),
            old(self)@.len() < u32::MAX,
            valid_id(old(self)@, lhs),
            valid_id(old(self)@, rhs),
        ensures
            final(self)@ == old(self)@.push(ExprNode::Mul(lhs, rhs)),
            id.0 == old(self)@.len(),
            arena_wf(final(self)@),
    {
        self.push(ExprNode::Mul(lhs, rhs))
    }

    /// `-operand`.
    pub fn neg(&mut self, operand: ExprId) -> (id: ExprId)
        requires
            arena_wf(old(self)@),
            old(self)@.len() < u32::MAX,
            valid_id(old(self)@, operand),
        ensures
            final(self)@ == old(self)@.push(ExprNode::Neg(operand)),
            id.0 == old(self)@.len(),
            arena_wf(final(self)@),
    {
        self.push(ExprNode::Neg(operand))
    }
}

impl ExprArena {
    /// `lhs + c` for a scalar `c`: stores the constant, then the sum.
    pub fn add_scalar(&mut self, lhs: ExprId, c: Number) -> (id: ExprId)
        requires
            arena_wf(old(self)@),
            old(self)@.len() + 1 < u32::MAX,
            valid_id(old(self)@, lhs),
        ensures
            final(self)@ == old(self)@.push(ExprNode::Const(c)).push(
                ExprNode::Add(lhs, ExprId(old(self)@.len() as u32)),
            ),
            id.0 == old(self)@.len() + 1,
            arena_wf(final(self)@),
    {
        let k = self.constant(c);
        self.add(lhs, k)
    }

    /// `lhs - c` for a scalar `c`: stores the constant, then the difference.
    pub fn sub_scalar(&mut self, lhs: ExprId, c: Number) -> (id: ExprId)
        requires
            arena_wf(old(self)@),
            old(self)@.len() + 1 < u32::MAX,
            valid_id(old(self)@, lhs),
        ensures
            final(self)@ == old(self)@.push(ExprNode::Const(c)).push(
                ExprNode::Sub(lhs, ExprId(old(self)@.len() as u32)),
            ),
            id.0 == old(self)@.len() + 1,
            arena_wf(final(self)@),
    {
        let k = self.constant(c);
        self.sub(lhs, k)
    }

    /// `c - rhs` for a scalar `c`: stores the constant, then the difference.
    pub fn scalar_sub(&mut self, c: Number, rhs: ExprId) -> (id: ExprId)
        requires
            arena_wf(old(self)@),
            old(self)@.len() + 1 < u32::MAX,
            valid_id(old(self)@, rhs),
        ensures
            final(self)@ == old(self)@.push(ExprNode::Const(c)).push(
                ExprNode::Sub(ExprId(old(self)@.len() as u32), rhs),
            ),
            id.0 == old(self)@.len() + 1,
            arena_wf(final(self)@),
    {
        let k = self.constant(c);
        self.sub(k, rhs)
    }

    /// `lhs * c` (and `c * lhs`) for a scalar `c`: stores the constant, then
    /// the product with the expression on the left.
    pub fn mul_scalar(&mut self, lhs: ExprId, c: Number) -> (id: ExprId)
        requires
            arena_wf(old(self)@),
            old(self)@.len() + 1 < u32::MAX,
            valid_id(old(self)@, lhs),
        ensures
            final(self)@ == old(self)@.push(ExprNode::Const(c)).push(
                ExprNode::Mul(lhs, ExprId(old(self)@.len() as u32)),
            ),
            id.0 == old(self)@.len() + 1,
            arena_wf(final(self)@),
    {
        let k = self.constant(c);
        self.mul(lhs, k)
    }
}

/// Sums a non-empty list of expressions of one arena, left to right:
/// `((items[0] + items[1]) + items[2]) + ...`.
pub fn sum(arena: &mut ExprArena, items: &Vec<ExprId>) -> (id: ExprId)
    requires
        arena_wf(old(arena)@),
        items@.len() > 0,
        forall|k: int| 0 <= k < items@.len() ==> valid_id(old(arena)@, #[trigger] items@[k]),
        old(arena)@.len() + items@.len() - 1 <= u32::MAX,
    ensures
        final(arena)@ == old(arena)@ + sum_nodes(items@, old(arena)@.len() as int),
        id == sum_result(items@, old(arena)@.len() as int),
        arena_wf(final(arena)@),
        valid_id(final(arena)@, id),
{
    let ghost base = arena@.len() as int;
    let ghost start = arena@;
    let mut acc = items[0];
    let n = items.len();
    let mut k: usize = 1;
    while k < n
        invariant
            n == items@.len(),
            1 <= k <= n,
            base == start.len(),
            arena_wf(start),
            forall|j: int| 0 <= j < items@.len() ==> valid_id(start, #[trigger] items@[j]),
            start.len() + items@.len() - 1 <= u32::MAX,
            arena@ == start + sum_nodes(items@.subrange(0, k as int), base),
            acc == sum_partial(items@, base, k - 1),
            arena_wf(arena@),
            valid_id(arena@, acc),
        decreases n - k,
    {
        let ghost before = arena@;
        acc = arena.add(acc, items[k]);
        proof {
            let s0 = items@.subrange(0, k as int);
            let s1 = items@.subrange(0, k + 1);
            assert(sum_nodes(s1, base) =~= sum_nodes(s0, base).push(
                ExprNode::Add(sum_partial(items@, base, k - 1), items@[k as int]),
            )) by {
                assert forall|j: int| 0 <= j < k - 1 implies sum_partial(s1, base, j) == sum_partial(
                    s0,
                    base,
                    j,
                ) by {}
                assert(sum_partial(s1, base, k - 1) == sum_partial(items@, base, k - 1));
            }
            assert(arena@ =~= start + sum_nodes(s1, base));
        }
        k = k + 1;
    }
    assert(items@.subrange(0, n as int) =~= items@);
    acc
}

/// Summing proceeds one item at a time: the sum of one item is that item and
/// appends nothing, and the sum of `items` followed by `e` appends to the
/// nodes of the sum of `items` one `Add` of their total and `e`, which is the
/// new total.
pub proof fn lemma_sum_step(items: Seq<ExprId>, e: ExprId, base: int)
    requires
        items.len() > 0,
        0 <= base,
        base + items.len() <= u32::MAX,
    ensures
        sum_nodes(seq![e], base) == Seq::<ExprNode>::empty(),
        sum_result(seq![e], base) == e,
        sum_nodes(items.push(e), base) == sum_nodes(items, base).push(
            ExprNode::Add(sum_result(items, base), e),
        ),
        sum_result(items.push(e), base) == ExprId((base + items.len() - 1) as u32),
{
    let s1 = items.push(e);
    assert(sum_nodes(seq![e], base) =~= Seq::<ExprNode>::empty());
    assert forall|j: int| 0 <= j < items.len() - 1 implies sum_partial(s1, base, j) == sum_partial(
        items,
        base,
        j,
    ) by {}
    assert(sum_nodes(s1, base) =~= sum_nodes(items, base).push(
        ExprNode::Add(sum_result(items, base), e),
    ));
}

} // verus!
