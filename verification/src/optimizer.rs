//! The cuDF physical optimizer rule of the batch-coalescing pipeline: its
//! options, the rule that moves supported operators onto the GPU with
//! coalescing at every host/GPU boundary, and the numbering of GPU segments.
use vstd::prelude::*;
use crate::config::{ConfigError, ConfigOptions, CuDFStreamSource};
use crate::plan::{
    arity_ok, copy_indices, edge_ok, is_cudf, is_cudf_plan, last_visit, last_visit_before,
    lemma_post_order_in_range, lemma_post_order_same, nodes_wf, produces_host, rebuild_node, root_order,
    root_post_order, wrapper_node, Conversion, NodeKind, PhysicalPlan, PlanError, PlanNode,
};
use crate::planner::{
    child_entries, conversion_fails, edge_fits, edges_ok, not_boundary, origins_match, planned_kind,
};

verus! {

/// Options of the cuDF optimizer rule (prefix `cudf`).
pub struct CuDFConfig {
    /// Enables CuDF optimizations.
    pub enable: bool,
    /// Batch size for moving data from CPU to GPU and vice-versa.
    pub batch_size: usize,
    /// Enables the use of multiple CUDA streams to execute GPU segments in parallel.
    pub cuda_streams: bool,
    /// Allocates CUDA streams for query execution.
    pub __private_stream_source: CuDFStreamSource,
}

impl Default for CuDFConfig {
    fn default() -> (r: Self)
        ensures
            !r.enable,
            r.batch_size == 8192 * 10,
            !r.cuda_streams,
    {
        CuDFConfig {
            enable: false,
            batch_size: 8192 * 10,
            cuda_streams: false,
            __private_stream_source: CuDFStreamSource,
        }
    }
}

impl CuDFConfig {
    /// Gets the [`CuDFConfig`] from the options' extensions.
    pub fn from_config_options(cfg: &ConfigOptions<CuDFConfig>) -> (r: Result<&CuDFConfig, ConfigError>)
        ensures
            match cfg.extension {
                Some(c) => r == Ok::<&CuDFConfig, ConfigError>(&c),
                None => r == Err::<&CuDFConfig, ConfigError>(ConfigError::MissingExtension),
            },
    {
        match &cfg.extension {
            Some(c) => Ok(c),
            None => Err(ConfigError::MissingExtension),
        }
    }

    /// Gets the [`CuDFConfig`] from the options' extensions, to change it.
    pub fn from_config_options_mut(cfg: &mut ConfigOptions<CuDFConfig>) -> (r: Result<&mut CuDFConfig, ConfigError>)
        ensures
            old(cfg).extension is None ==> (r matches Err(e) && e == ConfigError::MissingExtension) && *final(cfg) == *old(cfg),
            old(cfg).extension is Some ==> r is Ok,
            r matches Ok(c) ==> *c == old(cfg).extension->Some_0 && final(cfg).target_partitions
                == old(cfg).target_partitions && final(cfg).extension == Some(*final(c)),
    {
        match &mut cfg.extension {
            Some(c) => Ok(c),
            None => Err(ConfigError::MissingExtension),
        }
    }

    /// Source for allocating CUDA streams.
    pub fn stream_source(&self) -> (r: &CuDFStreamSource)
        ensures
            *r == self.__private_stream_source,
    {
        &self.__private_stream_source
    }
}

/// The kind a host node takes: as in the planner, and in addition a host
/// batch-coalescing node over GPU input becomes a cuDF one.
pub open spec fn coalescing_kind(k: NodeKind, c: Conversion, input_on_gpu: bool) -> NodeKind {
    if k == NodeKind::CoalesceBatches {
        if input_on_gpu { NodeKind::CuDFCoalesceBatches } else { k }
    } else {
        planned_kind(k, c)
    }
}

/// The node inserted between a boundary node `oc` and the image `c` of its
/// input child: a batch-coalescing node of kind `k` over `c` at the rule's batch
/// size, unless `c` itself is one, in which case `oc` reads `c` directly.
pub open spec fn coalesced_input(out: Seq<PlanNode>, c: int, oc: int, k: NodeKind, batch_size: usize) -> bool {
    if out[c].kind != k {
        &&& out[oc].children@.len() == 1
        &&& c < out[oc].children@[0] < oc
        &&& out[out[oc].children@[0] as int].kind == k
        &&& out[out[oc].children@[0] as int].children@ == seq![c as usize]
        &&& out[out[oc].children@[0] as int].batch_size == batch_size
    } else {
        out[oc].children@ == seq![c as usize]
    }
}

/// How the rewritten parent of kind `parent_kind` reaches the image `c` of one
/// of its input children through its child entry `oc`: a GPU parent (other than
/// a load) reading a host child goes through a cuDF load over a host coalescing
/// node; a host parent reading a GPU child (other than an unload) goes through a
/// cuDF unload over a cuDF coalescing node (the unload reports the aggregate's
/// input schema where the parent is a host aggregate); otherwise it reads `c`.
#[verifier::opaque]
pub open spec fn coalescing_link_ok(out: Seq<PlanNode>, parent_kind: NodeKind, c: int, oc: int, batch_size: usize) -> bool {
    if is_cudf(parent_kind) && !is_cudf(out[c].kind) && parent_kind != NodeKind::CuDFLoad {
        &&& c < oc < out.len()
        &&& out[oc].kind == NodeKind::CuDFLoad
        &&& coalesced_input(out, c, oc, NodeKind::CoalesceBatches, batch_size)
    } else if !is_cudf(parent_kind) && is_cudf(out[c].kind) && out[c].kind != NodeKind::CuDFUnload {
        &&& c < oc < out.len()
        &&& out[oc].kind == NodeKind::CuDFUnload
        &&& out[oc].aggregate_input_schema == (parent_kind == NodeKind::Aggregate)
        &&& coalesced_input(out, c, oc, NodeKind::CuDFCoalesceBatches, batch_size)
    } else {
        oc == c
    }
}

/// A host coalescing node `k` becomes a cuDF one, at the rule's batch size,
/// exactly where its input is on the GPU.
pub open spec fn coalesce_converted(input: Seq<PlanNode>, out: Seq<PlanNode>, pos: Seq<usize>, k: int, batch_size: usize) -> bool {
    &&& (out[pos[k] as int].kind == NodeKind::CuDFCoalesceBatches <==> is_cudf(
        out[pos[input[k].children@[0] as int] as int].kind,
    ))
    &&& (out[pos[k] as int].kind == NodeKind::CoalesceBatches || (out[pos[k] as int].kind
        == NodeKind::CuDFCoalesceBatches && out[pos[k] as int].batch_size == batch_size))
}

/// Every input node `k` reappears at `pos[k]`, marked as standing for `k` (so
/// no two input nodes share an image), with its new kind and its number of
/// children, each child reached from it as [`coalescing_link_ok`] says; a
/// host coalescing node becomes a cuDF one, at the rule's batch size, exactly
/// where its input is on the GPU.
pub open spec fn coalescing_relation(input: Seq<PlanNode>, out: Seq<PlanNode>, pos: Seq<usize>, n: int, batch_size: usize) -> bool {
    &&& pos.len() == n
    &&& forall|k: int| 0 <= k < n ==> #[trigger] pos[k] < out.len()
    &&& forall|k: int| 0 <= k < n ==> out[#[trigger] pos[k] as int].origin == Some(k as usize)
    &&& forall|k: int|
        0 <= k < n ==> out[#[trigger] pos[k] as int].children@.len() == input[k].children@.len()
    &&& forall|k: int|
        0 <= k < n && input[k].kind != NodeKind::CoalesceBatches ==> out[#[trigger] pos[k] as int].kind
            == planned_kind(input[k].kind, input[k].conversion)
    &&& forall|k: int|
        0 <= k < n && input[k].kind == NodeKind::CoalesceBatches ==> #[trigger] coalesce_converted(
            input,
            out,
            pos,
            k,
            batch_size,
        )
    &&& forall|k: int, j: int|
        0 <= k < n && 0 <= j < input[k].children@.len() ==> coalescing_link_ok(
            out,
            out[pos[k] as int].kind,
            pos[input[k].children@[j] as int] as int,
            #[trigger] out[pos[k] as int].children@[j] as int,
            batch_size,
        )
}

/// No two input nodes share an image in the plan that the coalescing rule
/// rewrote: each image stands for its own input node.
pub proof fn lemma_coalescing_images_distinct(
    input: Seq<PlanNode>,
    out: Seq<PlanNode>,
    pos: Seq<usize>,
    n: int,
    batch_size: usize,
    k1: int,
    k2: int,
)
    requires
        coalescing_relation(input, out, pos, n, batch_size),
        0 <= k1 < n,
        0 <= k2 < n,
        k1 != k2,
        n <= usize::MAX,
    ensures
        pos[k1] != pos[k2],
{
    assert(out[pos[k1] as int].origin == Some(k1 as usize));
    assert(out[pos[k2] as int].origin == Some(k2 as usize));
}

/// The kind input node `k` takes in the plan that the coalescing rule
/// rewrites: as the planner plans it, except that a host batch-coalescing node
/// becomes a cuDF one exactly where its input ends up on the GPU.
pub open spec fn coalescing_image_kind(input: Seq<PlanNode>, k: int) -> NodeKind
    decreases k,
{
    if 0 <= k < input.len() && input[k].kind == NodeKind::CoalesceBatches && input[k].children@.len() > 0
        && 0 <= input[k].children@[0] < k {
        if is_cudf(coalescing_image_kind(input, input[k].children@[0] as int)) {
            NodeKind::CuDFCoalesceBatches
        } else {
            NodeKind::CoalesceBatches
        }
    } else {
        planned_kind(input[k].kind, input[k].conversion)
    }
}

/// The input plan fits the coalescing rule: every edge of it fits once its
/// nodes take their new kinds (no cuDF load over a node that ends up on the
/// GPU, no other cuDF operator over a cuDF unload), and the root does not end up
/// a cuDF unload. These are the plans on which the rule links every host/GPU
/// boundary; on any other plan the offending edge is kept as it is. A plan of
/// host operators only fits.
pub open spec fn coalescing_fits(input: Seq<PlanNode>) -> bool {
    &&& forall|k: int, j: int|
        0 <= k < input.len() && 0 <= j < input[k].children@.len() ==> edge_fits(
            coalescing_image_kind(input, k),
            coalescing_image_kind(input, #[trigger] input[k].children@[j] as int),
        )
    &&& input.len() > 0 ==> coalescing_image_kind(input, input.len() - 1) != NodeKind::CuDFUnload
}

/// A plan of host operators only fits the coalescing rule.
pub proof fn lemma_host_plans_fit_coalescing(plan: PhysicalPlan)
    requires
        plan.wf(),
        plan.host_only(),
    ensures
        coalescing_fits(plan.nodes@),
{
    let s = plan.nodes@;
    assert forall|k: int| 0 <= k < s.len() implies coalescing_image_kind(s, k) != NodeKind::CuDFLoad
        && coalescing_image_kind(s, k) != NodeKind::CuDFUnload by {
        assert(!is_cudf(s[k].kind));
    }
    assert forall|k: int, j: int| 0 <= k < s.len() && 0 <= j < s[k].children@.len() implies edge_fits(
        coalescing_image_kind(s, k),
        coalescing_image_kind(s, #[trigger] s[k].children@[j] as int),
    ) by {
        assert(s[k].children@[j] < k);
    }
}

/// Node `oc` exists and reads node `x` as its first child.
pub open spec fn reads_first(out: Seq<PlanNode>, oc: int, x: int) -> bool {
    0 <= oc < out.len() && out[oc].children@.len() > 0 && out[oc].children@[0] == x
}

/// Node `x` of the rewritten plan is the image of an input node, is reached
/// from one through a child entry, or is the node that such an entry reads.
pub open spec fn coalescing_covered(input: Seq<PlanNode>, out: Seq<PlanNode>, pos: Seq<usize>, n: int, x: int) -> bool {
    ||| exists|k: int| 0 <= k < n && #[trigger] pos[k] == x
    ||| exists|k: int, j: int|
        0 <= k < n && 0 <= j < input[k].children@.len() && (#[trigger] out[pos[k] as int].children@[j] == x
            || reads_first(out, out[pos[k] as int].children@[j] as int, x))
}

proof fn lemma_coalescing_link_extend(
    out1: Seq<PlanNode>,
    out2: Seq<PlanNode>,
    pk: NodeKind,
    c: int,
    oc: int,
    batch_size: usize,
)
    requires
        0 <= c < out1.len(),
        out1.len() <= out2.len(),
        forall|x: int| 0 <= x < out1.len() ==> #[trigger] out2[x] == out1[x],
        coalescing_link_ok(out1, pk, c, oc, batch_size),
    ensures
        coalescing_link_ok(out2, pk, c, oc, batch_size),
{
    reveal(coalescing_link_ok);
    assert(out2[c] == out1[c]);
    if 0 <= oc < out1.len() {
        assert(out2[oc] == out1[oc]);
        if out1[oc].children@.len() == 1 && 0 <= out1[oc].children@[0] < out1.len() {
            assert(out2[out1[oc].children@[0] as int] == out1[out1[oc].children@[0] as int]);
        }
    }
}

proof fn lemma_coalescing_relation_extend(
    input: Seq<PlanNode>,
    out1: Seq<PlanNode>,
    out2: Seq<PlanNode>,
    pos: Seq<usize>,
    n: int,
    batch_size: usize,
)
    requires
        coalescing_relation(input, out1, pos, n, batch_size),
        nodes_wf(input),
        n <= input.len(),
        out1.len() <= out2.len(),
        forall|x: int| 0 <= x < out1.len() ==> #[trigger] out2[x] == out1[x],
    ensures
        coalescing_relation(input, out2, pos, n, batch_size),
{
    assert forall|k: int| 0 <= k < n implies #[trigger] pos[k] < out2.len() && out2[pos[k] as int] == out1[pos[k] as int] by {
        assert(pos[k] < out1.len());
    }
    assert forall|k: int|
        0 <= k < n && input[k].kind == NodeKind::CoalesceBatches implies #[trigger] coalesce_converted(
            input,
            out2,
            pos,
            k,
            batch_size,
        ) by {
        assert(coalesce_converted(input, out1, pos, k, batch_size));
        assert(out2[pos[k] as int] == out1[pos[k] as int]);
        if 0 < input[k].children@.len() {
            let ch = input[k].children@[0] as int;
            assert(0 <= ch < k);
            assert(pos[ch] < out1.len());
            assert(out2[pos[ch] as int] == out1[pos[ch] as int]);
        }
    }
    assert forall|k: int, j: int|
        0 <= k < n && 0 <= j < input[k].children@.len() implies coalescing_link_ok(
            out2,
            out2[pos[k] as int].kind,
            pos[input[k].children@[j] as int] as int,
            #[trigger] out2[pos[k] as int].children@[j] as int,
            batch_size,
        ) by {
        let ch = input[k].children@[j] as int;
        assert(0 <= ch < k);
        assert(pos[ch] < out1.len());
        assert(out2[pos[k] as int] == out1[pos[k] as int]);
        lemma_coalescing_link_extend(out1, out2, out1[pos[k] as int].kind, pos[ch] as int, out1[pos[k] as int].children@[j] as int, batch_size);
    }
}

proof fn lemma_coalescing_relation_same(
    input: Seq<PlanNode>,
    out1: Seq<PlanNode>,
    out2: Seq<PlanNode>,
    pos: Seq<usize>,
    n: int,
    batch_size: usize,
)
    requires
        coalescing_relation(input, out1, pos, n, batch_size),
        nodes_wf(input),
        n <= input.len(),
        same_but_tagged_segments(out1, out2),
    ensures
        coalescing_relation(input, out2, pos, n, batch_size),
{
    reveal(coalescing_link_ok);
    assert forall|k: int| 0 <= k < n implies #[trigger] pos[k] < out2.len() && out2[pos[k] as int].kind == out1[pos[k] as int].kind
        && out2[pos[k] as int].children@ == out1[pos[k] as int].children@
        && out2[pos[k] as int].batch_size == out1[pos[k] as int].batch_size
        && out2[pos[k] as int].origin == out1[pos[k] as int].origin by {
        assert(pos[k] < out1.len());
    }
    assert forall|k: int|
        0 <= k < n && input[k].kind == NodeKind::CoalesceBatches implies #[trigger] coalesce_converted(
            input,
            out2,
            pos,
            k,
            batch_size,
        ) by {
        assert(coalesce_converted(input, out1, pos, k, batch_size));
        assert(pos[k] < out1.len());
        assert(arity_ok(input[k].kind, input[k].children@.len()));
        assert(input[k].children@[0] < k);
        let q = pos[input[k].children@[0] as int] as int;
        assert(q < out1.len());
        if 0 <= q < out1.len() {
            assert(out2[q].kind == out1[q].kind);
        }
    }
    assert forall|k: int, j: int|
        0 <= k < n && 0 <= j < input[k].children@.len() implies coalescing_link_ok(
            out2,
            out2[pos[k] as int].kind,
            pos[input[k].children@[j] as int] as int,
            #[trigger] out2[pos[k] as int].children@[j] as int,
            batch_size,
        ) by {
        assert(pos[k] < out1.len());
        assert(input[k].children@[j] < k);
        let c = pos[input[k].children@[j] as int] as int;
        assert(c < out1.len());
        let oc = out1[pos[k] as int].children@[j] as int;
        assert(coalescing_link_ok(out1, out1[pos[k] as int].kind, c, oc, batch_size));
        if 0 <= c < out1.len() {
            assert(out2[c].kind == out1[c].kind);
        }
        if 0 <= oc < out1.len() {
            assert(out2[oc].kind == out1[oc].kind);
            assert(out2[oc].children@ == out1[oc].children@);
            if out1[oc].children@.len() == 1 && 0 <= out1[oc].children@[0] < out1.len() {
                let m = out1[oc].children@[0] as int;
                assert(out2[m].kind == out1[m].kind);
                assert(out2[m].children@ == out1[m].children@);
                assert(out2[m].batch_size == out1[m].batch_size);
            }
        }
    }
}

/// Every node that the rule inserted into the plan coalesces to the given
/// batch size; cuDF loads and unloads only appear as inserted nodes.
pub open spec fn inserted_batch_size(out: Seq<PlanNode>, batch_size: usize) -> bool {
    forall|x: int|
        0 <= x < out.len() && ((#[trigger] out[x]).kind == NodeKind::CuDFCoalesceBatches) ==> out[x].batch_size
            == batch_size
}

fn coalescing_node_kind(k: NodeKind, c: Conversion, input_on_gpu: bool) -> (r: Option<NodeKind>)
    ensures
        r is None <==> conversion_fails(k, c),
        r matches Some(x) ==> x == coalescing_kind(k, c, input_on_gpu),
{
    match k {
        NodeKind::Filter | NodeKind::Projection | NodeKind::HashJoin | NodeKind::Aggregate => {
            match c {
                Conversion::Fails => None,
                Conversion::Unsupported => Some(k),
                Conversion::Supported => Some(
                    match k {
                        NodeKind::Filter => NodeKind::CuDFFilter,
                        NodeKind::Projection => NodeKind::CuDFProjection,
                        NodeKind::HashJoin => NodeKind::CuDFHashJoin,
                        _ => NodeKind::CuDFAggregate,
                    },
                ),
            }
        },
        NodeKind::Sort => Some(NodeKind::CuDFSort),
        NodeKind::CoalesceBatches => Some(
            if input_on_gpu {
                NodeKind::CuDFCoalesceBatches
            } else {
                k
            },
        ),
        _ => Some(k),
    }
}

#[verifier::rlimit(80)]
fn transform_with_coalescing(plan: &PhysicalPlan, batch_size: usize) -> (r: Result<PhysicalPlan, PlanError>)
    requires
        plan.wf(),
    ensures
        match r {
            Ok(out) => {
                &&& out.wf()
                &&& out.nodes@.len() <= plan.nodes@.len() + 2 * child_entries(plan.nodes@, plan.nodes@.len() as int)
                &&& forall|k: int| 0 <= k < plan.nodes@.len()
                    ==> !conversion_fails(#[trigger] plan.nodes@[k].kind, plan.nodes@[k].conversion)
                &&& exists|pos: Seq<usize>| {
                    &&& coalescing_relation(plan.nodes@, out.nodes@, pos, plan.nodes@.len() as int, batch_size)
                    &&& origins_match(out.nodes@, pos, plan.nodes@.len() as int)
                    &&& pos[plan.nodes@.len() - 1] == out.nodes@.len() - 1
                    &&& forall|x: int| 0 <= x < out.nodes@.len()
                        ==> #[trigger] coalescing_covered(plan.nodes@, out.nodes@, pos, plan.nodes@.len() as int, x)
                }
                &&& coalescing_fits(plan.nodes@) ==> edges_ok(out.nodes@)
                &&& coalescing_fits(plan.nodes@) ==> out.root_kind() != NodeKind::CuDFUnload
                &&& plan.host_only() ==> not_boundary(out.root_kind())
                &&& plan.host_only() ==> inserted_batch_size(out.nodes@, batch_size)
            },
            Err(PlanError::ConversionFailed(k)) => {
                &&& k < plan.nodes@.len()
                &&& conversion_fails(plan.nodes@[k as int].kind, plan.nodes@[k as int].conversion)
            },
        },
{
    let n = plan.nodes.len();
    let mut out: Vec<PlanNode> = Vec::new();
    let mut pos: Vec<usize> = Vec::new();
    let mut i: usize = 0;
    while i < n
        invariant
            n == plan.nodes@.len(),
            plan.wf(),
            i <= n,
            nodes_wf(out@),
            out@.len() <= i + 2 * child_entries(plan.nodes@, i as int),
            coalescing_relation(plan.nodes@, out@, pos@, i as int, batch_size),
            origins_match(out@, pos@, i as int),
            forall|x: int| 0 <= x < out@.len() ==> #[trigger] coalescing_covered(plan.nodes@, out@, pos@, i as int, x),
            i > 0 ==> out@.len() > 0 && pos@[i - 1] == out@.len() - 1,
            forall|k: int| 0 <= k < i ==> !conversion_fails(#[trigger] plan.nodes@[k].kind, plan.nodes@[k].conversion),
            coalescing_fits(plan.nodes@) ==> edges_ok(out@),
            forall|k: int| 0 <= k < i ==> out@[#[trigger] pos@[k] as int].kind == coalescing_image_kind(plan.nodes@, k),
            plan.host_only() ==> forall|k: int| 0 <= k < i ==> not_boundary(#[trigger] out@[pos@[k] as int].kind),
            plan.host_only() ==> inserted_batch_size(out@, batch_size),
        decreases n - i,
    {
        let node = &plan.nodes[i];
        let input_on_gpu = node.kind == NodeKind::CoalesceBatches && is_cudf_plan(out[pos[node.children[0]]].kind);
        let kind = match coalescing_node_kind(node.kind, node.conversion, input_on_gpu) {
            Some(k) => k,
            None => return Err(PlanError::ConversionFailed(i)),
        };
        let plan_is_cudf = is_cudf_plan(kind);
        proof {
            if node.kind == NodeKind::CoalesceBatches {
                assert(arity_ok(node.kind, node.children@.len()));
                assert(node.children@[0] < i);
            }
            assert(kind == coalescing_image_kind(plan.nodes@, i as int));
        }
        let ghost out_before = out@;
        let mut children: Vec<usize> = Vec::new();
        let mut j: usize = 0;
        while j < node.children.len()
            invariant
                n == plan.nodes@.len(),
                plan.wf(),
                i < n,
                *node == plan.nodes@[i as int],
                node.kind != NodeKind::CoalesceBatches ==> kind == planned_kind(node.kind, node.conversion),
                node.kind == NodeKind::CoalesceBatches ==> (kind == NodeKind::CoalesceBatches
                    || kind == NodeKind::CuDFCoalesceBatches),
                kind == NodeKind::CuDFCoalesceBatches && node.kind == NodeKind::CoalesceBatches ==> is_cudf(
                    out@[pos@[node.children@[0] as int] as int].kind,
                ),
                plan_is_cudf == is_cudf(kind),
                j <= node.children@.len(),
                children@.len() == j,
                out@.len() >= out_before.len(),
                forall|x: int| 0 <= x < out_before.len() ==> #[trigger] out@[x] == out_before[x],
                out_before.len() <= i + 2 * child_entries(plan.nodes@, i as int),
                out@.len() <= out_before.len() + 2 * j,
                nodes_wf(out@),
                coalescing_relation(plan.nodes@, out@, pos@, i as int, batch_size),
                origins_match(out@, pos@, i as int),
                forall|x: int| 0 <= x < j ==> #[trigger] children@[x] < out@.len(),
                forall|x: int|
                    0 <= x < out@.len() ==> #[trigger] coalescing_covered(plan.nodes@, out@, pos@, i as int, x)
                        || exists|jj: int| 0 <= jj < j && (#[trigger] children@[jj] == x || reads_first(out@, children@[jj] as int, x)),
                forall|x: int|
                    0 <= x < j ==> coalescing_link_ok(
                        out@,
                        kind,
                        pos@[node.children@[x] as int] as int,
                        #[trigger] children@[x] as int,
                        batch_size,
                    ),
                coalescing_fits(plan.nodes@) ==> edges_ok(out@),
                kind == coalescing_image_kind(plan.nodes@, i as int),
                forall|k: int| 0 <= k < i ==> out@[#[trigger] pos@[k] as int].kind == coalescing_image_kind(plan.nodes@, k),
                plan.host_only() ==> forall|k: int| 0 <= k < i ==> not_boundary(#[trigger] out@[pos@[k] as int].kind),
                plan.host_only() ==> inserted_batch_size(out@, batch_size),
                coalescing_fits(plan.nodes@) ==> forall|x: int| 0 <= x < j ==> edge_ok(kind, out@[#[trigger] children@[x] as int].kind),
            decreases node.children@.len() - j,
        {
            let c = pos[node.children[j]];
            let ck = out[c].kind;
            let child_is_cudf = is_cudf_plan(ck);
            let ghost out_prev = out@;
            let ghost children_prev = children@;
            proof {
                let ch = plan.nodes@[i as int].children@[j as int] as int;
                assert(ch < i);
                assert(ck == coalescing_image_kind(plan.nodes@, ch));
                if coalescing_fits(plan.nodes@) {
                    assert(edge_fits(kind, ck));
                }
            }
            if plan_is_cudf && !child_is_cudf && kind != NodeKind::CuDFLoad {
                if ck != NodeKind::CoalesceBatches {
                    out.push(wrapper_node(NodeKind::CoalesceBatches, c, batch_size, false));
                    let coalesced = out.len() - 1;
                    out.push(wrapper_node(NodeKind::CuDFLoad, coalesced, 0, false));
                } else {
                    out.push(wrapper_node(NodeKind::CuDFLoad, c, 0, false));
                }
                children.push(out.len() - 1);
            } else if !plan_is_cudf && child_is_cudf && ck != NodeKind::CuDFUnload {
                let mut unload = if ck != NodeKind::CuDFCoalesceBatches {
                    out.push(wrapper_node(NodeKind::CuDFCoalesceBatches, c, batch_size, false));
                    wrapper_node(NodeKind::CuDFUnload, out.len() - 1, 0, false)
                } else {
                    wrapper_node(NodeKind::CuDFUnload, c, 0, false)
                };
                if kind == NodeKind::Aggregate {
                    unload.aggregate_input_schema = true;
                }
                out.push(unload);
                children.push(out.len() - 1);
            } else {
                children.push(c);
            }
            proof {
                lemma_coalescing_relation_extend(plan.nodes@, out_prev, out@, pos@, i as int, batch_size);
                assert forall|x: int| 0 <= x < out@.len() implies coalescing_covered(plan.nodes@, out@, pos@, i as int, x)
                    || exists|jj: int| 0 <= jj < j + 1 && (#[trigger] children@[jj] == x || reads_first(out@, children@[jj] as int, x)) by {
                    if x < out_prev.len() {
                        if coalescing_covered(plan.nodes@, out_prev, pos@, i as int, x) {
                            if exists|k: int| 0 <= k < i && #[trigger] pos@[k] == x {
                            } else {
                                let (k, jj) = choose|k: int, jj: int|
                                    0 <= k < i && 0 <= jj < plan.nodes@[k].children@.len() && (#[trigger] out_prev[pos@[k] as int].children@[jj] == x
                                        || reads_first(out_prev, out_prev[pos@[k] as int].children@[jj] as int, x));
                                assert(pos@[k] < out_prev.len());
                                assert(out@[pos@[k] as int] == out_prev[pos@[k] as int]);
                                let oc = out_prev[pos@[k] as int].children@[jj] as int;
                                assert(oc < pos@[k]);
                                assert(out@[oc] == out_prev[oc]);
                                assert(out@[pos@[k] as int].children@[jj] == x || reads_first(out@, out@[pos@[k] as int].children@[jj] as int, x));
                            }
                        } else {
                            let jj = choose|jj: int| 0 <= jj < j && (#[trigger] children_prev[jj] == x || reads_first(out_prev, children_prev[jj] as int, x));
                            assert(children@[jj] == children_prev[jj]);
                            assert(children_prev[jj] < out_prev.len());
                            assert(out@[children_prev[jj] as int] == out_prev[children_prev[jj] as int]);
                            assert(children@[jj] == x || reads_first(out@, children@[jj] as int, x));
                        }
                    } else {
                        assert(children@[j as int] == out@.len() - 1);
                        if x < out@.len() - 1 {
                            assert(reads_first(out@, children@[j as int] as int, x));
                        } else {
                            assert(children@[j as int] == x);
                        }
                    }
                }
                assert forall|x: int| 0 <= x < j + 1 implies coalescing_link_ok(
                    out@,
                    kind,
                    pos@[node.children@[x] as int] as int,
                    #[trigger] children@[x] as int,
                    batch_size,
                ) by {
                    if x < j {
                        assert(children@[x] == children_prev[x]);
                        assert(plan.nodes@[i as int].children@[x] < i);
                        assert(pos@[node.children@[x] as int] < out_prev.len());
                        lemma_coalescing_link_extend(out_prev, out@, kind, pos@[node.children@[x] as int] as int, children_prev[x] as int, batch_size);
                    } else {
                        reveal(coalescing_link_ok);
                        assert(out@[c as int] == out_prev[c as int]);
                    }
                }
            }
            j += 1;
        }
        let segment_id = if kind == node.kind { node.segment_id } else { 0 };
        let mut rebuilt = rebuild_node(node, kind, children, segment_id);
        if kind == NodeKind::CuDFCoalesceBatches {
            rebuilt.batch_size = batch_size;
        }
        rebuilt.origin = Some(i);
        let ghost out_prev = out@;
        let ghost pos_prev = pos@;
        let ghost kids = children@;
        out.push(rebuilt);
        pos.push(out.len() - 1);
        proof {
            lemma_coalescing_relation_extend(plan.nodes@, out_prev, out@, pos_prev, i as int, batch_size);
            assert forall|x: int| 0 <= x < out@.len() && (#[trigger] out@[x]).origin is Some implies
                out@[x].origin->0 < i + 1 && pos@[out@[x].origin->0 as int] == x by {
                if x < out_prev.len() {
                    assert(out@[x] == out_prev[x]);
                    assert(pos@[out_prev[x].origin->0 as int] == pos_prev[out_prev[x].origin->0 as int]);
                }
            }
            assert forall|x: int| 0 <= x < out@.len() implies #[trigger] coalescing_covered(plan.nodes@, out@, pos@, i + 1, x) by {
                if x == out@.len() - 1 {
                    assert(pos@[i as int] == x);
                } else if coalescing_covered(plan.nodes@, out_prev, pos_prev, i as int, x) {
                    if exists|k: int| 0 <= k < i && #[trigger] pos_prev[k] == x {
                        let k = choose|k: int| 0 <= k < i && #[trigger] pos_prev[k] == x;
                        assert(pos@[k] == x);
                    } else {
                        let (k, jj) = choose|k: int, jj: int|
                            0 <= k < i && 0 <= jj < plan.nodes@[k].children@.len() && (#[trigger] out_prev[pos_prev[k] as int].children@[jj] == x
                                || reads_first(out_prev, out_prev[pos_prev[k] as int].children@[jj] as int, x));
                        assert(pos@[k] == pos_prev[k]);
                        assert(pos_prev[k] < out_prev.len());
                        assert(out@[pos@[k] as int] == out_prev[pos_prev[k] as int]);
                        let oc = out_prev[pos_prev[k] as int].children@[jj] as int;
                        assert(oc < pos_prev[k]);
                        assert(out@[oc] == out_prev[oc]);
                        assert(out@[pos@[k] as int].children@[jj] == x || reads_first(out@, out@[pos@[k] as int].children@[jj] as int, x));
                    }
                } else {
                    let jj = choose|jj: int| 0 <= jj < kids.len() && (#[trigger] kids[jj] == x || reads_first(out_prev, kids[jj] as int, x));
                    assert(pos@[i as int] == out@.len() - 1);
                    assert(out@[pos@[i as int] as int].children@ == kids);
                    assert(kids[jj] < out_prev.len());
                    assert(out@[kids[jj] as int] == out_prev[kids[jj] as int]);
                    assert(out@[pos@[i as int] as int].children@[jj] == x || reads_first(out@, out@[pos@[i as int] as int].children@[jj] as int, x));
                }
            }
            assert forall|k: int, jj: int|
                0 <= k < i + 1 && 0 <= jj < plan.nodes@[k].children@.len() implies coalescing_link_ok(
                    out@,
                    out@[pos@[k] as int].kind,
                    pos@[plan.nodes@[k].children@[jj] as int] as int,
                    #[trigger] out@[pos@[k] as int].children@[jj] as int,
                    batch_size,
                ) by {
                assert(plan.nodes@[k].children@[jj] < k);
                if k < i {
                    assert(pos@[k] == pos_prev[k]);
                    assert(pos@[plan.nodes@[k].children@[jj] as int] == pos_prev[plan.nodes@[k].children@[jj] as int]);
                } else {
                    assert(pos@[k] == out@.len() - 1);
                    assert(out@[pos@[k] as int].children@ == kids);
                    assert(pos@[plan.nodes@[k].children@[jj] as int] == pos_prev[plan.nodes@[k].children@[jj] as int]);
                    assert(pos_prev[plan.nodes@[k].children@[jj] as int] < out_prev.len());
                    lemma_coalescing_link_extend(out_prev, out@, kind, pos_prev[plan.nodes@[k].children@[jj] as int] as int, kids[jj] as int, batch_size);
                }
            }
            assert forall|k: int|
                0 <= k < i + 1 && plan.nodes@[k].kind == NodeKind::CoalesceBatches implies #[trigger] coalesce_converted(
                    plan.nodes@,
                    out@,
                    pos@,
                    k,
                    batch_size,
                ) by {
                if k < i {
                    assert(coalesce_converted(plan.nodes@, out@, pos_prev, k, batch_size));
                    assert(pos@[k] == pos_prev[k]);
                    assert(plan.nodes@[k].children@[0] < k);
                    assert(pos@[plan.nodes@[k].children@[0] as int] == pos_prev[plan.nodes@[k].children@[0] as int]);
                } else {
                    assert(plan.nodes@[k].children@[0] < k);
                    assert(pos@[plan.nodes@[k].children@[0] as int] == pos_prev[plan.nodes@[k].children@[0] as int]);
                    assert(pos_prev[plan.nodes@[k].children@[0] as int] < out_prev.len());
                    assert(out@[pos_prev[plan.nodes@[k].children@[0] as int] as int] == out_prev[pos_prev[plan.nodes@[k].children@[0] as int] as int]);
                }
            }
        }
        i += 1;
    }
    let ghost pos_final = pos@;
    assert(coalescing_relation(plan.nodes@, out@, pos_final, n as int, batch_size));
    assert(origins_match(out@, pos_final, n as int));
    assert(forall|x: int| 0 <= x < out@.len() ==> #[trigger] coalescing_covered(plan.nodes@, out@, pos_final, n as int, x));
    assert(pos_final[n - 1] == out@.len() - 1);
    proof {
        let last = n - 1;
        if plan.nodes@[last as int].kind == NodeKind::CoalesceBatches {
            assert(coalesce_converted(plan.nodes@, out@, pos_final, last as int, batch_size));
        }
    }
    Ok(PhysicalPlan { nodes: out })
}

/// The cuDF operators that record the id of their GPU segment.
pub open spec fn segment_tagged(k: NodeKind) -> bool {
    k == NodeKind::CuDFLoad || k == NodeKind::CuDFAggregate || k == NodeKind::CuDFUnload
}

/// The plan is the same as `before` but for the segment ids of the operators
/// that record one.
pub open spec fn same_but_tagged_segments(before: Seq<PlanNode>, after: Seq<PlanNode>) -> bool {
    &&& after.len() == before.len()
    &&& forall|i: int| 0 <= i < before.len() ==> {
        &&& (#[trigger] after[i]).kind == before[i].kind
        &&& after[i].children@ == before[i].children@
        &&& after[i].conversion == before[i].conversion
        &&& after[i].preserve_partitioning == before[i].preserve_partitioning
        &&& after[i].batch_size == before[i].batch_size
        &&& after[i].aggregate_input_schema == before[i].aggregate_input_schema
        &&& after[i].origin == before[i].origin
        &&& !segment_tagged(before[i].kind) ==> after[i].segment_id == before[i].segment_id
    }
}

/// Number of cuDF loads among the first `p` visits of `order`.
pub open spec fn loads_visited(s: Seq<PlanNode>, order: Seq<usize>, p: int) -> nat
    decreases p,
{
    if p <= 0 {
        0
    } else {
        loads_visited(s, order, p - 1) + if s[order[p - 1] as int].kind == NodeKind::CuDFLoad { 1nat } else { 0nat }
    }
}

/// The number cuDF load `i` takes: how many loads the depth-first walk from the
/// root visits before its last visit of `i` (so 0, 1, 2, ... in post-order,
/// children left to right, then the parent); 0 for a load the root does not
/// reach.
pub open spec fn load_number(s: Seq<PlanNode>, i: int) -> nat {
    match last_visit(root_order(s), i) {
        Some(q) => loads_visited(s, root_order(s), q),
        None => 0,
    }
}

/// The segment id that node `i` passes up to its parent: a cuDF load its own
/// number, a cuDF aggregate or unload the id it records, another GPU operator
/// its first child's id; host operators pass none.
pub open spec fn segment_of(s: Seq<PlanNode>, i: int) -> Option<usize>
    decreases i, 1int, 0int,
{
    if !(0 <= i < s.len()) {
        None
    } else if s[i].kind == NodeKind::CuDFLoad {
        Some(load_number(s, i) as usize)
    } else if s[i].kind == NodeKind::CuDFAggregate || s[i].kind == NodeKind::CuDFUnload {
        Some(
            match first_child_segment(s, i, 0) {
                Some(x) => x,
                None => s[i].segment_id,
            },
        )
    } else if is_cudf(s[i].kind) {
        first_child_segment(s, i, 0)
    } else {
        None
    }
}

/// The first segment id that the children `j..` of node `i` pass up.
pub open spec fn first_child_segment(s: Seq<PlanNode>, i: int, j: int) -> Option<usize>
    decreases i, 0int, s[i].children@.len() - j,
{
    if !(0 <= i < s.len()) || j < 0 || j >= s[i].children@.len() {
        None
    } else {
        let c = s[i].children@[j] as int;
        if 0 <= c < i {
            match segment_of(s, c) {
                Some(x) => Some(x),
                None => first_child_segment(s, i, j + 1),
            }
        } else {
            first_child_segment(s, i, j + 1)
        }
    }
}

/// Renumbering does not change what the numbering gives: where two plans
/// differ only in the segment ids that the numbering of the first wrote into
/// the second, every node passes up the same segment id in both.
proof fn lemma_segment_of_stable(before: Seq<PlanNode>, after: Seq<PlanNode>, i: int)
    requires
        same_but_tagged_segments(before, after),
        forall|x: int|
            0 <= x < before.len() && segment_tagged(before[x].kind) ==> #[trigger] after[x].segment_id
                == segment_of(before, x)->Some_0,
    ensures
        segment_of(after, i) == segment_of(before, i),
    decreases i, 1int, 0int,
{
    if 0 <= i < before.len() {
        assert(after[i].kind == before[i].kind);
        lemma_load_number_stable(before, after, i);
        lemma_first_child_segment_stable(before, after, i, 0);
    }
}

proof fn lemma_first_child_segment_stable(before: Seq<PlanNode>, after: Seq<PlanNode>, i: int, j: int)
    requires
        same_but_tagged_segments(before, after),
        forall|x: int|
            0 <= x < before.len() && segment_tagged(before[x].kind) ==> #[trigger] after[x].segment_id
                == segment_of(before, x)->Some_0,
        0 <= i < before.len(),
    ensures
        first_child_segment(after, i, j) == first_child_segment(before, i, j),
    decreases i, 0int, before[i].children@.len() - j,
{
    assert(after[i].children@ == before[i].children@);
    if 0 <= j < before[i].children@.len() {
        let c = before[i].children@[j] as int;
        if 0 <= c < i {
            lemma_segment_of_stable(before, after, c);
        }
        lemma_first_child_segment_stable(before, after, i, j + 1);
    }
}

proof fn lemma_loads_visited_stable(before: Seq<PlanNode>, after: Seq<PlanNode>, order: Seq<usize>, p: int)
    requires
        same_but_tagged_segments(before, after),
        forall|q: int| 0 <= q < order.len() ==> #[trigger] order[q] < before.len(),
        p <= order.len(),
    ensures
        loads_visited(after, order, p) == loads_visited(before, order, p),
    decreases p,
{
    if p > 0 {
        assert(order[p - 1] < before.len());
        assert(after[order[p - 1] as int].kind == before[order[p - 1] as int].kind);
        lemma_loads_visited_stable(before, after, order, p - 1);
    }
}

proof fn lemma_last_visit_before_bound(order: Seq<usize>, x: int, p: int)
    ensures
        last_visit_before(order, x, p) matches Some(q) ==> 0 <= q < p && order[q] == x,
    decreases p,
{
    if p > 0 {
        lemma_last_visit_before_bound(order, x, p - 1);
    }
}

proof fn lemma_load_number_stable(before: Seq<PlanNode>, after: Seq<PlanNode>, i: int)
    requires
        same_but_tagged_segments(before, after),
    ensures
        load_number(after, i) == load_number(before, i),
{
    assert forall|x: int| 0 <= x < before.len() implies (#[trigger] before[x]).children@ == after[x].children@ by {
        assert(after[x].children@ == before[x].children@);
    }
    lemma_post_order_same(before, after, before.len() - 1);
    let order = root_order(before);
    assert(root_order(after) == order);
    lemma_post_order_in_range(before, before.len() - 1);
    lemma_last_visit_before_bound(order, i, order.len() as int);
    if let Some(q) = last_visit(order, i) {
        lemma_loads_visited_stable(before, after, order, q);
    }
}

/// Loads visited later are counted later: the count grows with each load.
proof fn lemma_loads_visited_grows(s: Seq<PlanNode>, order: Seq<usize>, p: int, q: int)
    requires
        0 <= p < q,
        s[order[p] as int].kind == NodeKind::CuDFLoad,
    ensures
        loads_visited(s, order, p) < loads_visited(s, order, q),
    decreases q,
{
    if q > p + 1 {
        lemma_loads_visited_grows(s, order, p, q - 1);
    }
}

/// Numbers the cuDF loads 0, 1, 2, ... in the depth-first post-order of the
/// walk from the root (children left to right, then the parent); a cuDF
/// aggregate or unload takes the segment id of its first child that has one
/// (else keeps its own), and other GPU operators pass their first child's id up.
/// A node reached along two paths takes the number of its last visit.
pub fn assign_gpu_segment_ids(plan: PhysicalPlan) -> (r: PhysicalPlan)
    requires
        plan.wf(),
        plan.nodes@.len() < usize::MAX,
    ensures
        r.wf(),
        same_but_tagged_segments(plan.nodes@, r.nodes@),
        forall|i: int|
            0 <= i < r.nodes@.len() && segment_tagged(plan.nodes@[i].kind) ==> #[trigger] r.nodes@[i].segment_id
                == segment_of(plan.nodes@, i)->Some_0,
        loads_numbered_in_post_order(r.nodes@),
{
    let n = plan.nodes.len();
    let ghost s = plan.nodes@;
    let order = root_post_order(&plan);
    proof {
        lemma_post_order_in_range(s, s.len() - 1);
    }
    let mut numbers: Vec<usize> = Vec::new();
    let mut k: usize = 0;
    while k < n
        invariant
            k <= n,
            numbers@.len() == k,
            forall|x: int| 0 <= x < k ==> #[trigger] numbers@[x] == 0,
        decreases n - k,
    {
        numbers.push(0);
        k = k + 1;
    }
    let mut count: usize = 0;
    let mut p: usize = 0;
    while p < order.len()
        invariant
            n == s.len(),
            s == plan.nodes@,
            order@ == root_order(s),
            forall|q: int| 0 <= q < order@.len() ==> #[trigger] order@[q] < s.len(),
            p <= order@.len(),
            count <= p,
            count == loads_visited(s, order@, p as int),
            numbers@.len() == n,
            forall|x: int|
                0 <= x < n && s[x].kind == NodeKind::CuDFLoad ==> #[trigger] numbers@[x] == match last_visit_before(
                    order@,
                    x,
                    p as int,
                ) {
                    Some(q) => loads_visited(s, order@, q),
                    None => 0,
                },
        decreases order@.len() - p,
    {
        let x = order[p];
        if plan.nodes[x].kind == NodeKind::CuDFLoad {
            numbers.set(x, count);
            count = count + 1;
        }
        p = p + 1;
    }
    let ghost s_order = order@;
    let mut segments: Vec<Option<usize>> = Vec::new();
    let mut nodes: Vec<PlanNode> = Vec::new();
    let mut i: usize = 0;
    while i < n
        invariant
            n == s.len(),
            n < usize::MAX,
            s == plan.nodes@,
            s_order == root_order(s),
            plan.wf(),
            i <= n,
            numbers@.len() == n,
            forall|x: int| 0 <= x < n && s[x].kind == NodeKind::CuDFLoad ==> #[trigger] numbers@[x] == load_number(s, x),
            segments@.len() == i,
            nodes@.len() == i,
            forall|x: int| 0 <= x < i ==> #[trigger] segments@[x] == segment_of(s, x),
            forall|x: int|
                0 <= x < i && segment_tagged(s[x].kind) ==> #[trigger] nodes@[x].segment_id == segment_of(s, x)->Some_0,
            same_but_tagged_segments(s.subrange(0, i as int), nodes@),
        decreases n - i,
    {
        let node = &plan.nodes[i];
        let mut first: Option<usize> = None;
        let mut j: usize = 0;
        while j < node.children.len()
            invariant
                plan.wf(),
                s == plan.nodes@,
                n == s.len(),
                i < n,
                *node == s[i as int],
                segments@.len() == i,
                forall|x: int| 0 <= x < i ==> #[trigger] segments@[x] == segment_of(s, x),
                j <= node.children@.len(),
                first_child_segment(s, i as int, 0) == match first {
                    Some(x) => Some(x),
                    None => first_child_segment(s, i as int, j as int),
                },
            decreases node.children@.len() - j,
        {
            if first.is_none() {
                assert(s[i as int].children@[j as int] < i);
                first = segments[node.children[j]];
            }
            j += 1;
        }
        let (segment_id, this_segment) = if node.kind == NodeKind::CuDFLoad {
            let id = numbers[i];
            (id, Some(id))
        } else if node.kind == NodeKind::CuDFAggregate || node.kind == NodeKind::CuDFUnload {
            let id = match first {
                Some(id) => id,
                None => node.segment_id,
            };
            (id, Some(id))
        } else if is_cudf_plan(node.kind) {
            (node.segment_id, first)
        } else {
            (node.segment_id, None)
        };
        let children = copy_indices(&node.children);
        nodes.push(rebuild_node(node, node.kind, children, segment_id));
        segments.push(this_segment);
        proof {
            assert(s.subrange(0, i + 1).drop_last() =~= s.subrange(0, i as int));
        }
        i += 1;
    }
    proof {
        assert(s.subrange(0, n as int) =~= s);
        assert forall|x: int| 0 <= x < nodes@.len() && segment_tagged(s[x].kind) implies #[trigger] nodes@[x].segment_id
            == segment_of(s, x)->Some_0 by {}
        lemma_numbered_in_post_order(s, nodes@);
    }
    PhysicalPlan { nodes }
}

/// The loads that the walk from the root reaches are numbered in its order:
/// of two loads, the one whose last visit comes first has the smaller number.
pub open spec fn loads_numbered_in_post_order(s: Seq<PlanNode>) -> bool {
    let order = root_order(s);
    forall|p: int, q: int|
        0 <= p < q < order.len() && last_visit(order, order[p] as int) == Some(p) && last_visit(order, order[q] as int)
            == Some(q) && s[order[p] as int].kind == NodeKind::CuDFLoad && s[order[q] as int].kind
            == NodeKind::CuDFLoad ==> #[trigger] s[order[p] as int].segment_id < #[trigger] s[order[q] as int].segment_id
}

proof fn lemma_numbered_in_post_order(before: Seq<PlanNode>, after: Seq<PlanNode>)
    requires
        same_but_tagged_segments(before, after),
        forall|x: int|
            0 <= x < after.len() && segment_tagged(before[x].kind) ==> #[trigger] after[x].segment_id
                == segment_of(before, x)->Some_0,
        root_order(before).len() <= usize::MAX,
    ensures
        loads_numbered_in_post_order(after),
{
    assert forall|x: int| 0 <= x < before.len() implies (#[trigger] before[x]).children@ == after[x].children@ by {
        assert(after[x].children@ == before[x].children@);
    }
    lemma_post_order_same(before, after, before.len() - 1);
    let order = root_order(before);
    lemma_post_order_in_range(before, before.len() - 1);
    assert(order == crate::plan::post_order(before, before.len() - 1));
    assert forall|p: int, q: int|
        0 <= p < q < order.len() && last_visit(order, order[p] as int) == Some(p) && last_visit(order, order[q] as int)
            == Some(q) && after[order[p] as int].kind == NodeKind::CuDFLoad && after[order[q] as int].kind
            == NodeKind::CuDFLoad implies #[trigger] after[order[p] as int].segment_id < #[trigger] after[order[q] as int].segment_id by {
        assert(crate::plan::post_order(before, before.len() - 1)[p] < before.len());
        assert(crate::plan::post_order(before, before.len() - 1)[q] < before.len());
        assert(after[order[p] as int].kind == before[order[p] as int].kind);
        assert(after[order[q] as int].kind == before[order[q] as int].kind);
        lemma_loads_visited_grows(before, order, p, q);
        lemma_loads_visited_bound(before, order, q);
        assert(load_number(before, order[p] as int) == loads_visited(before, order, p));
        assert(load_number(before, order[q] as int) == loads_visited(before, order, q));
    }
}

/// The count of loads never exceeds the number of visits.
proof fn lemma_loads_visited_bound(s: Seq<PlanNode>, order: Seq<usize>, p: int)
    ensures
        loads_visited(s, order, p) <= if p < 0 { 0 } else { p },
    decreases p,
{
    if p > 0 {
        lemma_loads_visited_bound(s, order, p - 1);
    }
}

/// Wraps the root in a cuDF unload when it runs on the GPU.
fn unload_gpu_root(plan: PhysicalPlan) -> (r: PhysicalPlan)
    requires
        plan.wf(),
    ensures
        r.wf(),
        r.nodes@.len() <= plan.nodes@.len() + 1,
        forall|x: int| 0 <= x < plan.nodes@.len() ==> #[trigger] r.nodes@[x] == plan.nodes@[x],
        forall|x: int| plan.nodes@.len() <= x < r.nodes@.len() ==> (#[trigger] r.nodes@[x]).origin is None,
        is_cudf(plan.root_kind()) ==> r.nodes@.len() == plan.nodes@.len() + 1 && r.root_kind()
            == NodeKind::CuDFUnload && r.nodes@[r.nodes@.len() - 1].children@ == seq![(plan.nodes@.len() - 1) as usize],
        !is_cudf(plan.root_kind()) ==> r.nodes@ == plan.nodes@,
        produces_host(r.root_kind()),
        edges_ok(plan.nodes@) && plan.root_kind() != NodeKind::CuDFUnload ==> r.boundaries_ok(),
{
    let mut nodes = plan.nodes;
    let root = nodes.len() - 1;
    if is_cudf_plan(nodes[root].kind) {
        nodes.push(wrapper_node(NodeKind::CuDFUnload, root, 0, false));
    }
    PhysicalPlan { nodes }
}

/// The physical optimizer rule that moves the operators that cuDF supports onto
/// the GPU, coalescing batches at every host/GPU boundary.
pub struct HostToCuDFRule;

impl HostToCuDFRule {
    /// Rewrites a host plan for cuDF.
    ///
    /// Without a cuDF extension, or with `enable == false`, the plan is returned
    /// unchanged. Otherwise supported operators move to the GPU as in the
    /// planner, a host batch-coalescing node over GPU input becomes a cuDF one,
    /// each GPU segment is entered through a host coalescing node and a cuDF
    /// load and left through a cuDF coalescing node and a cuDF unload (reusing
    /// a coalescing node already in place), and the cuDF loads are numbered.
    pub fn optimize(&self, plan: PhysicalPlan, config: &ConfigOptions<CuDFConfig>) -> (r: Result<PhysicalPlan, PlanError>)
        requires
            plan.wf(),
            plan.nodes@.len() + 2 * child_entries(plan.nodes@, plan.nodes@.len() as int) + 1 < usize::MAX,
        ensures
            config.extension is None || !config.extension->0.enable ==> r == Ok::<PhysicalPlan, PlanError>(plan),
            config.extension is Some && config.extension->0.enable ==> {
                &&& r is Ok <==> forall|k: int| 0 <= k < plan.nodes@.len()
                    ==> !conversion_fails(#[trigger] plan.nodes@[k].kind, plan.nodes@[k].conversion)
                &&& r matches Err(PlanError::ConversionFailed(k)) ==> k < plan.nodes@.len()
                    && conversion_fails(plan.nodes@[k as int].kind, plan.nodes@[k as int].conversion)
                &&& r matches Ok(out) ==> {
                    &&& out.wf()
                    &&& exists|pos: Seq<usize>| {
                        &&& coalescing_relation(plan.nodes@, out.nodes@, pos, plan.nodes@.len() as int, config.extension->0.batch_size)
                        &&& origins_match(out.nodes@, pos, plan.nodes@.len() as int)
                        &&& forall|x: int| 0 <= x < out.nodes@.len() - 1
                            ==> #[trigger] coalescing_covered(plan.nodes@, out.nodes@, pos, plan.nodes@.len() as int, x)
                        &&& pos[plan.nodes@.len() - 1] == out.nodes@.len() - 1 || {
                            &&& out.root_kind() == NodeKind::CuDFUnload
                            &&& out.nodes@[out.nodes@.len() - 1].children@ == seq![pos[plan.nodes@.len() - 1]]
                        }
                    }
                    &&& produces_host(out.root_kind())
                    &&& coalescing_fits(plan.nodes@) ==> out.boundaries_ok()
                    &&& plan.host_only() ==> inserted_batch_size(out.nodes@, config.extension->0.batch_size)
                    &&& loads_numbered_in_post_order(out.nodes@)
                    &&& forall|i: int|
                        0 <= i < out.nodes@.len() && segment_tagged(out.nodes@[i].kind) ==> #[trigger] out.nodes@[i].segment_id
                            == segment_of(out.nodes@, i)->Some_0
                }
            },
    {
        let cudf_config = match &config.extension {
            Some(c) => c,
            None => return Ok(plan),
        };
        if !cudf_config.enable {
            return Ok(plan);
        }
        let rewritten = match transform_with_coalescing(&plan, cudf_config.batch_size) {
            Ok(p) => p,
            Err(e) => return Err(e),
        };
        let ghost pos = choose|pos: Seq<usize>| {
            &&& coalescing_relation(plan.nodes@, rewritten.nodes@, pos, plan.nodes@.len() as int, cudf_config.batch_size)
            &&& origins_match(rewritten.nodes@, pos, plan.nodes@.len() as int)
            &&& pos[plan.nodes@.len() - 1] == rewritten.nodes@.len() - 1
            &&& forall|x: int| 0 <= x < rewritten.nodes@.len()
                ==> #[trigger] coalescing_covered(plan.nodes@, rewritten.nodes@, pos, plan.nodes@.len() as int, x)
        };
        let ghost rw = rewritten.nodes@;
        let rooted = unload_gpu_root(rewritten);
        let ghost rt = rooted.nodes@;
        let out = assign_gpu_segment_ids(rooted);
        proof {
            lemma_coalescing_relation_extend(plan.nodes@, rewritten.nodes@, rt, pos, plan.nodes@.len() as int, cudf_config.batch_size);
            lemma_coalescing_relation_same(plan.nodes@, rt, out.nodes@, pos, plan.nodes@.len() as int, cudf_config.batch_size);
            assert(coalescing_relation(plan.nodes@, out.nodes@, pos, plan.nodes@.len() as int, cudf_config.batch_size));
            assert forall|x: int| 0 <= x < out.nodes@.len() && (#[trigger] out.nodes@[x]).origin is Some implies
                out.nodes@[x].origin->0 < plan.nodes@.len() && pos[out.nodes@[x].origin->0 as int] == x by {
                assert(out.nodes@[x].origin == rt[x].origin);
                if x < rw.len() {
                    assert(rt[x] == rw[x]);
                }
            }
            assert(origins_match(out.nodes@, pos, plan.nodes@.len() as int));
            assert forall|i: int|
                0 <= i < out.nodes@.len() && segment_tagged(out.nodes@[i].kind) implies #[trigger] out.nodes@[i].segment_id
                    == segment_of(out.nodes@, i)->Some_0 by {
                lemma_segment_of_stable(rt, out.nodes@, i);
            }
            let nn = plan.nodes@.len() as int;
            assert forall|x: int| 0 <= x < out.nodes@.len() - 1 implies #[trigger] coalescing_covered(plan.nodes@, out.nodes@, pos, nn, x) by {
                assert(x < rw.len());
                assert(coalescing_covered(plan.nodes@, rw, pos, nn, x));
                if exists|k: int| 0 <= k < nn && #[trigger] pos[k] == x {
                } else {
                    let (k, jj) = choose|k: int, jj: int|
                        0 <= k < nn && 0 <= jj < plan.nodes@[k].children@.len() && (#[trigger] rw[pos[k] as int].children@[jj] == x
                            || reads_first(rw, rw[pos[k] as int].children@[jj] as int, x));
                    assert(pos[k] < rw.len());
                    assert(out.nodes@[pos[k] as int].children@ == rt[pos[k] as int].children@);
                    let oc = rw[pos[k] as int].children@[jj] as int;
                    assert(oc < pos[k]);
                    assert(out.nodes@[oc].children@ == rt[oc].children@);
                    assert(out.nodes@[pos[k] as int].children@[jj] == x
                        || reads_first(out.nodes@, out.nodes@[pos[k] as int].children@[jj] as int, x));
                }
            }
            if pos[nn - 1] != out.nodes@.len() - 1 {
                assert(out.nodes@[out.nodes@.len() - 1].children@ == rt[rt.len() - 1].children@);
            }
        }
        Ok(out)
    }

    pub fn name(&self) -> (r: &'static str)
        ensures
            r@ == "HostToCuDFRule"@,
    {
        "HostToCuDFRule"
    }

    pub fn schema_check(&self) -> (r: bool)
        ensures
            !r,
    {
        false
    }
}

} // verus!
