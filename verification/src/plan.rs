//! A physical plan as the cuDF planner rules see it.
//!
//! A DataFusion physical plan is a tree of `ExecutionPlan` nodes. The rules of
//! this crate only read, of each node, which operator it is, whether its cuDF
//! counterpart accepts it, and a few settings that the rewrite writes back. The
//! plan is held as an arena: every node's children stand at lower indices than
//! the node itself, and the root is the last node. The plan's tree is what the
//! root reaches, walked depth first (see `post_order`).
use vstd::prelude::*;

verus! {

/// The operator a plan node runs.
///
/// The first group are DataFusion's host (CPU) operators that the rules look at;
/// `Other` stands for any other host operator. The second group are the cuDF
/// operators of this crate.
#[derive(Clone, Copy, PartialEq, Eq, Debug, Structural)]
pub enum NodeKind {
    Filter,
    Projection,
    Sort,
    HashJoin,
    Aggregate,
    CoalesceBatches,
    CoalescePartitions,
    Other,
    CuDFLoad,
    CuDFUnload,
    CuDFFilter,
    CuDFProjection,
    CuDFSort,
    CuDFHashJoin,
    CuDFAggregate,
    CuDFCoalesceBatches,
}

/// What the cuDF counterpart of a host node answers when asked to take the node
/// over: it accepts it, it declines (`NotImplemented`), or it fails with an error.
#[derive(Clone, Copy, PartialEq, Eq, Debug, Structural)]
pub enum Conversion {
    Supported,
    Unsupported,
    Fails,
}

/// One node of a physical plan.
pub struct PlanNode {
    pub kind: NodeKind,
    /// Answer of the cuDF counterpart for this node (read for host nodes only).
    pub conversion: Conversion,
    /// Indices of the children, in order; each is lower than this node's index.
    pub children: Vec<usize>,
    /// GPU segment id (cuDF nodes only; `0` means the default CUDA stream).
    pub segment_id: usize,
    /// For a cuDF load: whether it keeps the input partitioning.
    pub preserve_partitioning: bool,
    /// For a coalescing node inserted by the rules: its target batch size.
    pub batch_size: usize,
    /// For a cuDF unload: whether it reports the input schema of the host
    /// aggregate above it in place of its own.
    pub aggregate_input_schema: bool,
    /// In a plan that a rule rewrote: the index, in the rule's input plan, of
    /// the operator this node stands for; `None` for a node the rule inserted.
    pub origin: Option<usize>,
}

/// A physical plan: every node after its children; the root is the last node.
pub struct PhysicalPlan {
    pub nodes: Vec<PlanNode>,
}

/// Errors of the planner rules.
#[derive(Clone, Copy, PartialEq, Eq, Debug, Structural)]
pub enum PlanError {
    /// The cuDF counterpart of the node at this index failed with an error.
    ConversionFailed(usize),
}

/// Whether a node runs on the GPU (a cuDF operator of this crate).
pub open spec fn is_cudf(k: NodeKind) -> bool {
    match k {
        NodeKind::CuDFLoad | NodeKind::CuDFUnload | NodeKind::CuDFFilter
        | NodeKind::CuDFProjection | NodeKind::CuDFSort | NodeKind::CuDFHashJoin
        | NodeKind::CuDFAggregate | NodeKind::CuDFCoalesceBatches => true,
        _ => false,
    }
}

/// Whether a node hands host (Arrow) batches to its parent.
pub open spec fn produces_host(k: NodeKind) -> bool {
    !is_cudf(k) || k == NodeKind::CuDFUnload
}

/// Whether a node expects host (Arrow) batches from its children.
pub open spec fn consumes_host(k: NodeKind) -> bool {
    !is_cudf(k) || k == NodeKind::CuDFLoad
}

/// A parent and a child agree on where the batches between them live.
pub open spec fn edge_ok(parent: NodeKind, child: NodeKind) -> bool {
    consumes_host(parent) == produces_host(child)
}

/// The number of children an operator takes (`None`: any number).
pub open spec fn arity(k: NodeKind) -> Option<nat> {
    match k {
        NodeKind::HashJoin | NodeKind::CuDFHashJoin => Some(2),
        NodeKind::Other => None,
        _ => Some(1),
    }
}

pub open spec fn arity_ok(k: NodeKind, n: nat) -> bool {
    match arity(k) {
        Some(a) => n == a,
        None => true,
    }
}

/// Children stand before their parent, and every node has as many children as
/// its operator takes.
pub open spec fn nodes_wf(s: Seq<PlanNode>) -> bool {
    &&& forall|i: int, j: int|
        0 <= i < s.len() && 0 <= j < s[i].children@.len() ==> #[trigger] s[i].children@[j] < i
    &&& forall|i: int| 0 <= i < s.len() ==> arity_ok(#[trigger] s[i].kind, s[i].children@.len())
}

impl PhysicalPlan {
    pub open spec fn wf(self) -> bool {
        &&& self.nodes@.len() > 0
        &&& nodes_wf(self.nodes@)
    }

    /// The root of the plan.
    pub open spec fn root_kind(self) -> NodeKind {
        self.nodes@[self.nodes@.len() - 1].kind
    }

    /// The plan holds DataFusion host operators only.
    pub open spec fn host_only(self) -> bool {
        forall|i: int| 0 <= i < self.nodes@.len() ==> !is_cudf(#[trigger] self.nodes@[i].kind)
    }

    /// Every GPU segment is entered through a cuDF load and left through a cuDF
    /// unload: no edge joins a host side to a GPU side, and the root hands host
    /// batches to the caller.
    pub open spec fn boundaries_ok(self) -> bool {
        &&& produces_host(self.root_kind())
        &&& forall|i: int, j: int|
            0 <= i < self.nodes@.len() && 0 <= j < self.nodes@[i].children@.len() ==> edge_ok(
                self.nodes@[i].kind,
                self.nodes@[#[trigger] self.nodes@[i].children@[j] as int].kind,
            )
    }
}

/// Whether an operator runs on the GPU.
pub fn is_cudf_plan(k: NodeKind) -> (r: bool)
    ensures
        r == is_cudf(k),
{
    match k {
        NodeKind::CuDFLoad | NodeKind::CuDFUnload | NodeKind::CuDFFilter
        | NodeKind::CuDFProjection | NodeKind::CuDFSort | NodeKind::CuDFHashJoin
        | NodeKind::CuDFAggregate | NodeKind::CuDFCoalesceBatches => true,
        _ => false,
    }
}

/// A copy of a list of child indices.
pub fn copy_indices(v: &Vec<usize>) -> (r: Vec<usize>)
    ensures
        r@ == v@,
{
    let mut r: Vec<usize> = Vec::new();
    let mut i: usize = 0;
    while i < v.len()
        invariant
            i <= v.len(),
            r@ == v@.subrange(0, i as int),
        decreases v.len() - i,
    {
        r.push(v[i]);
        i += 1;
    }
    r
}

/// A copy of a node with another kind, other children and another segment id.
pub fn rebuild_node(n: &PlanNode, kind: NodeKind, children: Vec<usize>, segment_id: usize) -> (r: PlanNode)
    ensures
        r.kind == kind,
        r.children@ == children@,
        r.segment_id == segment_id,
        r.conversion == n.conversion,
        r.preserve_partitioning == n.preserve_partitioning,
        r.batch_size == n.batch_size,
        r.aggregate_input_schema == n.aggregate_input_schema,
        r.origin == n.origin,
{
    PlanNode {
        kind,
        conversion: n.conversion,
        children,
        segment_id,
        preserve_partitioning: n.preserve_partitioning,
        batch_size: n.batch_size,
        aggregate_input_schema: n.aggregate_input_schema,
        origin: n.origin,
    }
}

/// A node that the rules insert above `child`.
pub fn wrapper_node(kind: NodeKind, child: usize, batch_size: usize, preserve_partitioning: bool) -> (r: PlanNode)
    ensures
        r.kind == kind,
        r.children@ == seq![child],
        r.segment_id == 0,
        r.conversion == Conversion::Unsupported,
        r.batch_size == batch_size,
        r.preserve_partitioning == preserve_partitioning,
        !r.aggregate_input_schema,
        r.origin is None,
{
    let mut children: Vec<usize> = Vec::new();
    children.push(child);
    PlanNode {
        kind,
        conversion: Conversion::Unsupported,
        children,
        segment_id: 0,
        preserve_partitioning,
        batch_size,
        aggregate_input_schema: false,
        origin: None,
    }
}

/// The nodes of the tree at node `i`, in depth-first post-order: the trees of
/// its children, left to right, then `i` itself. A node reached along two paths
/// is visited once along each.
pub open spec fn post_order(s: Seq<PlanNode>, i: int) -> Seq<usize>
    decreases i, 1int, 0int,
{
    if 0 <= i < s.len() {
        post_order_from(s, i, 0).push(i as usize)
    } else {
        Seq::empty()
    }
}

/// The trees of the children `j..` of node `i`, in depth-first post-order.
pub open spec fn post_order_from(s: Seq<PlanNode>, i: int, j: int) -> Seq<usize>
    decreases i, 0int, s[i].children@.len() - j,
{
    if !(0 <= i < s.len()) || j < 0 || j >= s[i].children@.len() {
        Seq::empty()
    } else if s[i].children@[j] < i {
        post_order(s, s[i].children@[j] as int) + post_order_from(s, i, j + 1)
    } else {
        post_order_from(s, i, j + 1)
    }
}

/// The plan's nodes in depth-first post-order from the root.
pub open spec fn root_order(s: Seq<PlanNode>) -> Seq<usize> {
    post_order(s, s.len() - 1)
}

/// The position of the last visit of node `x` among the first `p` visits.
pub open spec fn last_visit_before(order: Seq<usize>, x: int, p: int) -> Option<int>
    decreases p,
{
    if p <= 0 {
        None
    } else if order[p - 1] == x {
        Some(p - 1)
    } else {
        last_visit_before(order, x, p - 1)
    }
}

/// The position of the last visit of node `x` in `order`, if it is visited.
pub open spec fn last_visit(order: Seq<usize>, x: int) -> Option<int> {
    last_visit_before(order, x, order.len() as int)
}

/// Only the kinds and the children of the nodes decide the walk.
pub proof fn lemma_post_order_same(s1: Seq<PlanNode>, s2: Seq<PlanNode>, i: int)
    requires
        s1.len() == s2.len(),
        forall|x: int| 0 <= x < s1.len() ==> (#[trigger] s1[x]).children@ == s2[x].children@,
    ensures
        post_order(s1, i) == post_order(s2, i),
    decreases i, 1int, 0int,
{
    if 0 <= i < s1.len() {
        lemma_post_order_from_same(s1, s2, i, 0);
    }
}

proof fn lemma_post_order_from_same(s1: Seq<PlanNode>, s2: Seq<PlanNode>, i: int, j: int)
    requires
        s1.len() == s2.len(),
        forall|x: int| 0 <= x < s1.len() ==> (#[trigger] s1[x]).children@ == s2[x].children@,
        0 <= i < s1.len(),
    ensures
        post_order_from(s1, i, j) == post_order_from(s2, i, j),
    decreases i, 0int, s1[i].children@.len() - j,
{
    assert(s1[i].children@ == s2[i].children@);
    if 0 <= j < s1[i].children@.len() {
        if s1[i].children@[j] < i {
            lemma_post_order_same(s1, s2, s1[i].children@[j] as int);
        }
        lemma_post_order_from_same(s1, s2, i, j + 1);
    }
}

/// Every node that the walk visits is a node of the plan.
pub proof fn lemma_post_order_in_range(s: Seq<PlanNode>, i: int)
    ensures
        forall|p: int| 0 <= p < post_order(s, i).len() ==> #[trigger] post_order(s, i)[p] < s.len(),
    decreases i, 1int, 0int,
{
    if 0 <= i < s.len() {
        lemma_post_order_from_in_range(s, i, 0);
        let a = post_order_from(s, i, 0);
        assert forall|p: int| 0 <= p < post_order(s, i).len() implies #[trigger] post_order(s, i)[p] < s.len() by {
            if p < a.len() {
                assert(post_order(s, i)[p] == a[p]);
            }
        }
    }
}

proof fn lemma_post_order_from_in_range(s: Seq<PlanNode>, i: int, j: int)
    requires
        0 <= i < s.len(),
    ensures
        forall|p: int| 0 <= p < post_order_from(s, i, j).len() ==> #[trigger] post_order_from(s, i, j)[p] < s.len(),
    decreases i, 0int, s[i].children@.len() - j,
{
    if 0 <= j < s[i].children@.len() {
        lemma_post_order_from_in_range(s, i, j + 1);
        if s[i].children@[j] < i {
            let c = s[i].children@[j] as int;
            lemma_post_order_in_range(s, c);
            let a = post_order(s, c);
            let b = post_order_from(s, i, j + 1);
            assert forall|p: int| 0 <= p < post_order_from(s, i, j).len() implies #[trigger] post_order_from(s, i, j)[p] < s.len() by {
                if p < a.len() {
                    assert(post_order_from(s, i, j)[p] == a[p]);
                } else {
                    assert(post_order_from(s, i, j)[p] == b[p - a.len()]);
                }
            }
        } else {
            assert(post_order_from(s, i, j) == post_order_from(s, i, j + 1));
        }
    }
}

fn visit(plan: &PhysicalPlan, i: usize, out: &mut Vec<usize>)
    requires
        plan.wf(),
        i < plan.nodes@.len(),
    ensures
        final(out)@ == old(out)@ + post_order(plan.nodes@, i as int),
    decreases i,
{
    let ghost s = plan.nodes@;
    let ghost start = out@;
    let node = &plan.nodes[i];
    let mut j: usize = 0;
    assert(start + post_order_from(s, i as int, 0) == out@ + post_order_from(s, i as int, 0));
    while j < node.children.len()
        invariant
            plan.wf(),
            s == plan.nodes@,
            i < s.len(),
            *node == s[i as int],
            j <= node.children@.len(),
            start + post_order_from(s, i as int, 0) == out@ + post_order_from(s, i as int, j as int),
        decreases node.children@.len() - j,
    {
        let c = node.children[j];
        assert(c < i);
        let ghost before = out@;
        visit(plan, c, out);
        proof {
            assert(post_order_from(s, i as int, j as int) == post_order(s, c as int) + post_order_from(s, i as int, j + 1));
            assert(before + (post_order(s, c as int) + post_order_from(s, i as int, j + 1))
                =~= out@ + post_order_from(s, i as int, j + 1));
        }
        j = j + 1;
    }
    assert(post_order_from(s, i as int, j as int) =~= Seq::<usize>::empty());
    assert(out@ + Seq::<usize>::empty() =~= out@);
    out.push(i);
    assert(out@ =~= start + post_order(s, i as int));
}

/// The plan's nodes in depth-first post-order from the root.
pub fn root_post_order(plan: &PhysicalPlan) -> (r: Vec<usize>)
    requires
        plan.wf(),
    ensures
        r@ == root_order(plan.nodes@),
{
    let mut out: Vec<usize> = Vec::new();
    visit(plan, plan.nodes.len() - 1, &mut out);
    assert(out@ =~= Seq::<usize>::empty() + root_order(plan.nodes@));
    out
}

/// Whether the plan is well formed: it has a node, every child stands before
/// its parent, and every node has as many children as its operator takes.
pub fn check_wf(plan: &PhysicalPlan) -> (r: bool)
    ensures
        r == plan.wf(),
{
    let n = plan.nodes.len();
    if n == 0 {
        return false;
    }
    let mut i: usize = 0;
    while i < n
        invariant
            n == plan.nodes@.len(),
            i <= n,
            forall|x: int, j: int|
                0 <= x < i && 0 <= j < plan.nodes@[x].children@.len() ==> #[trigger] plan.nodes@[x].children@[j] < x,
            forall|x: int| 0 <= x < i ==> arity_ok(#[trigger] plan.nodes@[x].kind, plan.nodes@[x].children@.len()),
        decreases n - i,
    {
        let node = &plan.nodes[i];
        let k = node.children.len();
        let arity_fits = match node.kind {
            NodeKind::HashJoin | NodeKind::CuDFHashJoin => k == 2,
            NodeKind::Other => true,
            _ => k == 1,
        };
        if !arity_fits {
            return false;
        }
        let mut j: usize = 0;
        while j < k
            invariant
                n == plan.nodes@.len(),
                i < n,
                *node == plan.nodes@[i as int],
                k == node.children@.len(),
                j <= k,
                forall|y: int| 0 <= y < j ==> #[trigger] node.children@[y] < i,
            decreases k - j,
        {
            if node.children[j] >= i {
                return false;
            }
            j = j + 1;
        }
        i = i + 1;
    }
    true
}

} // verus!
