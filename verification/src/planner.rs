//! The cuDF physical planner: its options, the rule that moves supported
//! operators onto the GPU, and the assignment of GPU segment ids.
use vstd::prelude::*;
use crate::config::{ConfigError, ConfigOptions, CuDFStreamSource};
use crate::plan::{
    copy_indices, edge_ok, is_cudf, is_cudf_plan, last_visit, last_visit_before, lemma_post_order_in_range,
    lemma_post_order_same, nodes_wf, post_order, produces_host, rebuild_node, root_order, root_post_order,
    wrapper_node, Conversion, NodeKind, PhysicalPlan, PlanError, PlanNode,
};

verus! {

/// Options of the cuDF planner (prefix `cudf`).
pub struct CuDFConfig {
    /// Enables CuDF optimizations.
    pub enable: bool,
    /// Target input bytes accumulated by each cuDF aggregate chunk before flushing.
    pub aggregate_chunk_target_bytes: usize,
    /// Stage input batches through pinned (page-locked) host memory.
    pub pinned_input: bool,
    /// Use a CUDA stream per (segment, partition).
    pub cuda_streams: bool,
    /// Allocates CUDA streams for query execution.
    pub __private_stream_source: CuDFStreamSource,
}

impl Default for CuDFConfig {
    fn default() -> (r: Self)
        ensures
            r.enable,
            r.aggregate_chunk_target_bytes == 256 * 1024 * 1024,
            r.pinned_input,
            !r.cuda_streams,
    {
        CuDFConfig {
            enable: true,
            aggregate_chunk_target_bytes: 256 * 1024 * 1024,
            pinned_input: true,
            cuda_streams: false,
            __private_stream_source: CuDFStreamSource,
        }
    }
}

impl CuDFConfig {
    /// Gets the [`CuDFConfig`] from the options' extensions.
    pub fn from_config_options(cfg: &ConfigOptions<CuDFConfig>) -> (r: Result<&CuDFConfig, ConfigError>)
        ensures
            match cfg.extension {
                Some(c) => r == Ok::<&CuDFConfig, ConfigError>(&c),
                None => r == Err::<&CuDFConfig, ConfigError>(ConfigError::MissingExtension),
            },
    {
        match &cfg.extension {
            Some(c) => Ok(c),
            None => Err(ConfigError::MissingExtension),
        }
    }

    /// Gets the cuDF options from the session options, to change them.
    pub fn from_config_options_mut(cfg: &mut ConfigOptions<CuDFConfig>) -> (r: Result<&mut CuDFConfig, ConfigError>)
        ensures
            old(cfg).extension is None ==> (r matches Err(e) && e == ConfigError::MissingExtension) && *final(cfg) == *old(cfg),
            old(cfg).extension is Some ==> r is Ok,
            r matches Ok(c) ==> *c == old(cfg).extension->Some_0 && final(cfg).target_partitions
                == old(cfg).target_partitions && final(cfg).extension == Some(*final(c)),
    {
        match &mut cfg.extension {
            Some(c) => Ok(c),
            None => Err(ConfigError::MissingExtension),
        }
    }

    /// Source for allocating CUDA streams for stream-aware execution.
    pub fn stream_source(&self) -> (r: &CuDFStreamSource)
        ensures
            *r == self.__private_stream_source,
    {
        &self.__private_stream_source
    }
}

/// The kind a host node takes after the rule has asked its cuDF counterpart:
/// filters, projections, hash joins and aggregates move to the GPU when their
/// counterpart accepts them, sorts always do, and every other node stays.
pub open spec fn planned_kind(k: NodeKind, c: Conversion) -> NodeKind {
    match k {
        NodeKind::Filter => if c == Conversion::Supported { NodeKind::CuDFFilter } else { k },
        NodeKind::Projection => if c == Conversion::Supported { NodeKind::CuDFProjection } else { k },
        NodeKind::HashJoin => if c == Conversion::Supported { NodeKind::CuDFHashJoin } else { k },
        NodeKind::Aggregate => if c == Conversion::Supported { NodeKind::CuDFAggregate } else { k },
        NodeKind::Sort => NodeKind::CuDFSort,
        _ => k,
    }
}

/// The counterpart of this node fails with an error (not a refusal).
pub open spec fn conversion_fails(k: NodeKind, c: Conversion) -> bool {
    &&& (k == NodeKind::Filter || k == NodeKind::Projection || k == NodeKind::HashJoin
        || k == NodeKind::Aggregate)
    &&& c == Conversion::Fails
}

fn planned_node_kind(k: NodeKind, c: Conversion) -> (r: Option<NodeKind>)
    ensures
        r is None <==> conversion_fails(k, c),
        r matches Some(x) ==> x == planned_kind(k, c),
{
    match k {
        NodeKind::Filter | NodeKind::Projection | NodeKind::HashJoin | NodeKind::Aggregate => {
            match c {
                Conversion::Fails => None,
                Conversion::Unsupported => Some(k),
                Conversion::Supported => Some(
                    match k {
                        NodeKind::Filter => NodeKind::CuDFFilter,
                        NodeKind::Projection => NodeKind::CuDFProjection,
                        NodeKind::HashJoin => NodeKind::CuDFHashJoin,
                        _ => NodeKind::CuDFAggregate,
                    },
                ),
            }
        },
        NodeKind::Sort => Some(NodeKind::CuDFSort),
        _ => Some(k),
    }
}

/// A parent of kind `pk` over a child of kind `ck`, both as the rule plans
/// them, that the rule can link: a cuDF load reads host batches, and no other
/// cuDF operator reads a cuDF unload (the rule inserts nothing between them).
pub open spec fn edge_fits(pk: NodeKind, ck: NodeKind) -> bool {
    &&& pk == NodeKind::CuDFLoad ==> produces_host(ck)
    &&& is_cudf(pk) && pk != NodeKind::CuDFLoad ==> ck != NodeKind::CuDFUnload
}

/// Every edge of the input plan fits once its nodes are planned, and the
/// planned root is not a cuDF unload (the rule would put another unload above
/// it). A plan of host operators only fits.
pub open spec fn plan_fits(input: Seq<PlanNode>) -> bool {
    &&& forall|k: int, j: int|
        0 <= k < input.len() && 0 <= j < input[k].children@.len() ==> edge_fits(
            planned_kind(input[k].kind, input[k].conversion),
            planned_kind(input[#[trigger] input[k].children@[j] as int].kind, input[input[k].children@[j] as int].conversion),
        )
    &&& input.len() > 0 ==> planned_kind(input.last().kind, input.last().conversion) != NodeKind::CuDFUnload
}

/// A plan of host operators only fits: the rule plans no host operator as a
/// cuDF load or unload.
pub proof fn lemma_host_plans_fit(plan: PhysicalPlan)
    requires
        plan.wf(),
        plan.host_only(),
    ensures
        plan_fits(plan.nodes@),
{
    let s = plan.nodes@;
    assert forall|k: int, j: int| 0 <= k < s.len() && 0 <= j < s[k].children@.len() implies edge_fits(
        planned_kind(s[k].kind, s[k].conversion),
        planned_kind(s[#[trigger] s[k].children@[j] as int].kind, s[s[k].children@[j] as int].conversion),
    ) by {
        assert(!is_cudf(s[k].kind));
        let c = s[k].children@[j] as int;
        assert(c < k);
        assert(!is_cudf(s[c].kind));
    }
    if s.len() > 0 {
        assert(!is_cudf(s[s.len() - 1].kind));
    }
}

/// Neither a cuDF load nor a cuDF unload.
pub open spec fn not_boundary(k: NodeKind) -> bool {
    k != NodeKind::CuDFLoad && k != NodeKind::CuDFUnload
}

/// How the rewritten parent of kind `parent_kind` reaches the image `c` of one
/// of its input children through its child entry `oc`: through a new cuDF load
/// where a GPU parent (other than a load) reads a host child (looking through a
/// coalesce-partitions child), through a new cuDF unload where a host parent
/// reads a GPU child (other than an unload; the unload reports the aggregate's
/// input schema where the parent is a host aggregate), and directly otherwise.
pub open spec fn link_ok(out: Seq<PlanNode>, parent_kind: NodeKind, c: int, oc: int) -> bool {
    if is_cudf(parent_kind) && !is_cudf(out[c].kind) && parent_kind != NodeKind::CuDFLoad {
        &&& c < oc < out.len()
        &&& out[oc].kind == NodeKind::CuDFLoad
        &&& out[oc].children@ == seq![
            if out[c].kind == NodeKind::CoalescePartitions {
                out[c].children@[0]
            } else {
                c as usize
            },
        ]
    } else if !is_cudf(parent_kind) && is_cudf(out[c].kind) && out[c].kind != NodeKind::CuDFUnload {
        &&& c < oc < out.len()
        &&& out[oc].kind == NodeKind::CuDFUnload
        &&& out[oc].children@ == seq![c as usize]
        &&& out[oc].aggregate_input_schema == (parent_kind == NodeKind::Aggregate)
    } else {
        oc == c
    }
}

/// Every input node `k` reappears at `pos[k]`, marked as standing for `k`,
/// with its planned kind and its number of children, each child reached from
/// it as [`link_ok`] says. So no two input nodes share an image.
pub open spec fn rewrite_relation(input: Seq<PlanNode>, out: Seq<PlanNode>, pos: Seq<usize>, n: int) -> bool {
    &&& pos.len() == n
    &&& forall|k: int| 0 <= k < n ==> #[trigger] pos[k] < out.len()
    &&& forall|k: int| 0 <= k < n ==> out[#[trigger] pos[k] as int].origin == Some(k as usize)
    &&& forall|k: int|
        0 <= k < n ==> out[#[trigger] pos[k] as int].kind == planned_kind(input[k].kind, input[k].conversion)
    &&& forall|k: int|
        0 <= k < n ==> out[#[trigger] pos[k] as int].children@.len() == input[k].children@.len()
    &&& forall|k: int, j: int|
        0 <= k < n && 0 <= j < input[k].children@.len() ==> link_ok(
            out,
            out[pos[k] as int].kind,
            pos[input[k].children@[j] as int] as int,
            #[trigger] out[pos[k] as int].children@[j] as int,
        )
}

/// Each node of the rewritten plan that stands for an input node stands where
/// that node's image is.
pub open spec fn origins_match(out: Seq<PlanNode>, pos: Seq<usize>, n: int) -> bool {
    forall|x: int|
        0 <= x < out.len() && (#[trigger] out[x]).origin is Some ==> out[x].origin->0 < n && pos[
            out[x].origin->0 as int] == x
}

/// No two input nodes share an image in the rewritten plan: each image stands
/// for its own input node. So the two sides of a join, which are different
/// input nodes, are reached through the images of their own subplans.
pub proof fn lemma_images_distinct(input: Seq<PlanNode>, out: Seq<PlanNode>, pos: Seq<usize>, n: int, k1: int, k2: int)
    requires
        rewrite_relation(input, out, pos, n),
        0 <= k1 < n,
        0 <= k2 < n,
        k1 != k2,
        n <= usize::MAX,
    ensures
        pos[k1] != pos[k2],
{
    assert(out[pos[k1] as int].origin == Some(k1 as usize));
    assert(out[pos[k2] as int].origin == Some(k2 as usize));
}

/// Node `x` of the rewritten plan is the image of an input node or is reached
/// from one through a child entry.
pub open spec fn covered(input: Seq<PlanNode>, out: Seq<PlanNode>, pos: Seq<usize>, n: int, x: int) -> bool {
    ||| exists|k: int| 0 <= k < n && #[trigger] pos[k] == x
    ||| exists|k: int, j: int|
        0 <= k < n && 0 <= j < input[k].children@.len() && #[trigger] out[pos[k] as int].children@[j] == x
}

proof fn lemma_link_ok_extend(out1: Seq<PlanNode>, out2: Seq<PlanNode>, pk: NodeKind, c: int, oc: int)
    requires
        0 <= c < out1.len(),
        out1.len() <= out2.len(),
        forall|x: int| 0 <= x < out1.len() ==> #[trigger] out2[x] == out1[x],
        link_ok(out1, pk, c, oc),
    ensures
        link_ok(out2, pk, c, oc),
{
    assert(out2[c] == out1[c]);
    if 0 <= oc < out1.len() {
        assert(out2[oc] == out1[oc]);
    }
}

proof fn lemma_relation_extend(input: Seq<PlanNode>, out1: Seq<PlanNode>, out2: Seq<PlanNode>, pos: Seq<usize>, n: int)
    requires
        rewrite_relation(input, out1, pos, n),
        nodes_wf(out1),
        forall|k: int, j: int| 0 <= k < n && 0 <= j < input[k].children@.len() ==> #[trigger] input[k].children@[j] < k,
        out1.len() <= out2.len(),
        forall|x: int| 0 <= x < out1.len() ==> #[trigger] out2[x] == out1[x],
    ensures
        rewrite_relation(input, out2, pos, n),
{
    assert forall|k: int| 0 <= k < n implies #[trigger] pos[k] < out2.len() && out2[pos[k] as int] == out1[pos[k] as int] by {
        assert(pos[k] < out1.len());
    }
    assert forall|k: int, j: int|
        0 <= k < n && 0 <= j < input[k].children@.len() implies link_ok(
            out2,
            out2[pos[k] as int].kind,
            pos[input[k].children@[j] as int] as int,
            #[trigger] out2[pos[k] as int].children@[j] as int,
        ) by {
        let ch = input[k].children@[j] as int;
        assert(0 <= ch < k);
        assert(pos[ch] < out1.len());
        assert(out2[pos[k] as int] == out1[pos[k] as int]);
        lemma_link_ok_extend(out1, out2, out1[pos[k] as int].kind, pos[ch] as int, out1[pos[k] as int].children@[j] as int);
    }
}

/// The number of child entries of the first `i` nodes.
pub open spec fn child_entries(s: Seq<PlanNode>, i: int) -> int
    decreases i,
{
    if i <= 0 {
        0
    } else {
        child_entries(s, i - 1) + s[i - 1].children@.len()
    }
}

/// The number of child entries of the whole plan, where it fits in a `usize`.
pub fn count_child_entries(plan: &PhysicalPlan) -> (r: Option<usize>)
    ensures
        match r {
            Some(c) => c == child_entries(plan.nodes@, plan.nodes@.len() as int),
            None => child_entries(plan.nodes@, plan.nodes@.len() as int) > usize::MAX,
        },
{
    let mut total: usize = 0;
    let mut i: usize = 0;
    while i < plan.nodes.len()
        invariant
            i <= plan.nodes@.len(),
            total == child_entries(plan.nodes@, i as int),
        decreases plan.nodes@.len() - i,
    {
        proof {
            lemma_child_entries_monotonic(plan.nodes@, i as int + 1, plan.nodes@.len() as int);
        }
        match total.checked_add(plan.nodes[i].children.len()) {
            Some(t) => total = t,
            None => return None,
        }
        i = i + 1;
    }
    Some(total)
}

proof fn lemma_child_entries_monotonic(s: Seq<PlanNode>, i: int, j: int)
    requires
        0 <= i <= j <= s.len(),
    ensures
        child_entries(s, i) <= child_entries(s, j),
    decreases j,
{
    if i < j {
        lemma_child_entries_monotonic(s, i, j - 1);
    }
}

/// Every cuDF load keeps (or not) the input partitioning as asked.
pub open spec fn loads_preserve(out: Seq<PlanNode>, preserve: bool) -> bool {
    forall|x: int| 0 <= x < out.len() && (#[trigger] out[x]).kind == NodeKind::CuDFLoad ==> out[x].preserve_partitioning == preserve
}

pub open spec fn edges_ok(out: Seq<PlanNode>) -> bool {
    forall|x: int, j: int|
        0 <= x < out.len() && 0 <= j < out[x].children@.len() ==> edge_ok(
            out[x].kind,
            out[#[trigger] out[x].children@[j] as int].kind,
        )
}

/// Rewrites the plan bottom-up: moves supported operators onto the GPU and
/// inserts a cuDF load below every GPU operator fed from the host and a cuDF
/// unload above every GPU operator that feeds the host.
fn transform_to_cudf(plan: &PhysicalPlan, preserve_load_partitioning: bool) -> (r: Result<PhysicalPlan, PlanError>)
    requires
        plan.wf(),
    ensures
        match r {
            Ok(out) => {
                &&& out.wf()
                &&& out.nodes@.len() <= plan.nodes@.len() + child_entries(plan.nodes@, plan.nodes@.len() as int)
                &&& forall|k: int| 0 <= k < plan.nodes@.len()
                    ==> !conversion_fails(#[trigger] plan.nodes@[k].kind, plan.nodes@[k].conversion)
                &&& out.nodes@[out.nodes@.len() - 1].kind == planned_kind(plan.root_kind(),
                    plan.nodes@[plan.nodes@.len() - 1].conversion)
                &&& exists|pos: Seq<usize>| {
                    &&& rewrite_relation(plan.nodes@, out.nodes@, pos, plan.nodes@.len() as int)
                    &&& origins_match(out.nodes@, pos, plan.nodes@.len() as int)
                    &&& pos[plan.nodes@.len() - 1] == out.nodes@.len() - 1
                    &&& forall|x: int| 0 <= x < out.nodes@.len() ==> #[trigger] covered(plan.nodes@, out.nodes@, pos, plan.nodes@.len() as int, x)
                }
                &&& plan_fits(plan.nodes@) ==> edges_ok(out.nodes@)
                &&& plan.host_only() ==> not_boundary(out.root_kind())
                &&& plan.host_only() ==> loads_preserve(out.nodes@, preserve_load_partitioning)
            },
            Err(PlanError::ConversionFailed(k)) => {
                &&& k < plan.nodes@.len()
                &&& conversion_fails(plan.nodes@[k as int].kind, plan.nodes@[k as int].conversion)
            },
        },
{
    let n = plan.nodes.len();
    let mut out: Vec<PlanNode> = Vec::new();
    let mut pos: Vec<usize> = Vec::new();
    let mut i: usize = 0;
    while i < n
        invariant
            n == plan.nodes@.len(),
            plan.wf(),
            i <= n,
            nodes_wf(out@),
            out@.len() <= i + child_entries(plan.nodes@, i as int),
            rewrite_relation(plan.nodes@, out@, pos@, i as int),
            origins_match(out@, pos@, i as int),
            forall|x: int| 0 <= x < out@.len() ==> #[trigger] covered(plan.nodes@, out@, pos@, i as int, x),
            i > 0 ==> out@.len() > 0 && pos@[i - 1] == out@.len() - 1,
            forall|k: int| 0 <= k < i ==> !conversion_fails(#[trigger] plan.nodes@[k].kind, plan.nodes@[k].conversion),
            plan_fits(plan.nodes@) ==> edges_ok(out@),
            plan.host_only() ==> forall|k: int| 0 <= k < i ==> not_boundary(#[trigger] out@[pos@[k] as int].kind),
            plan.host_only() ==> loads_preserve(out@, preserve_load_partitioning),
        decreases n - i,
    {
        let node = &plan.nodes[i];
        let kind = match planned_node_kind(node.kind, node.conversion) {
            Some(k) => k,
            None => return Err(PlanError::ConversionFailed(i)),
        };
        let plan_is_cudf = is_cudf_plan(kind);
        let ghost out_before = out@;
        let mut children: Vec<usize> = Vec::new();
        let mut j: usize = 0;
        while j < node.children.len()
            invariant
                n == plan.nodes@.len(),
                plan.wf(),
                i < n,
                *node == plan.nodes@[i as int],
                kind == planned_kind(node.kind, node.conversion),
                plan_is_cudf == is_cudf(kind),
                j <= node.children@.len(),
                children@.len() == j,
                out@.len() >= out_before.len(),
                out_before.len() <= i + child_entries(plan.nodes@, i as int),
                out@.len() <= out_before.len() + j,
                forall|x: int| 0 <= x < out_before.len() ==> #[trigger] out@[x] == out_before[x],
                nodes_wf(out@),
                rewrite_relation(plan.nodes@, out@, pos@, i as int),
                origins_match(out@, pos@, i as int),
                forall|x: int| 0 <= x < j ==> #[trigger] children@[x] < out@.len(),
                forall|x: int|
                    0 <= x < out@.len() ==> #[trigger] covered(plan.nodes@, out@, pos@, i as int, x) || exists|jj: int|
                        0 <= jj < j && #[trigger] children@[jj] == x,
                forall|x: int|
                    0 <= x < j ==> link_ok(
                        out@,
                        kind,
                        pos@[node.children@[x] as int] as int,
                        #[trigger] children@[x] as int,
                    ),
                plan_fits(plan.nodes@) ==> edges_ok(out@),
                plan.host_only() ==> forall|k: int| 0 <= k < i ==> not_boundary(#[trigger] out@[pos@[k] as int].kind),
                plan.host_only() ==> loads_preserve(out@, preserve_load_partitioning),
                plan_fits(plan.nodes@) ==> forall|x: int| 0 <= x < j ==> edge_ok(kind, out@[#[trigger] children@[x] as int].kind),
            decreases node.children@.len() - j,
        {
            let c = pos[node.children[j]];
            let ck = out[c].kind;
            let child_is_cudf = is_cudf_plan(ck);
            let ghost out_prev = out@;
            let ghost children_prev = children@;
            proof {
                let ch = plan.nodes@[i as int].children@[j as int] as int;
                assert(ch < i);
                assert(ck == planned_kind(plan.nodes@[ch].kind, plan.nodes@[ch].conversion));
                if plan_fits(plan.nodes@) {
                    assert(edge_fits(kind, ck));
                }
            }
            if plan_is_cudf && !child_is_cudf && kind != NodeKind::CuDFLoad {
                let input = if ck == NodeKind::CoalescePartitions {
                    out[c].children[0]
                } else {
                    c
                };
                out.push(wrapper_node(NodeKind::CuDFLoad, input, 0, preserve_load_partitioning));
                children.push(out.len() - 1);
            } else if !plan_is_cudf && child_is_cudf && ck != NodeKind::CuDFUnload {
                let mut unload = wrapper_node(NodeKind::CuDFUnload, c, 0, false);
                if kind == NodeKind::Aggregate {
                    unload.aggregate_input_schema = true;
                }
                out.push(unload);
                children.push(out.len() - 1);
            } else {
                children.push(c);
            }
            proof {
                assert forall|x: int| 0 <= x < out@.len() implies covered(plan.nodes@, out@, pos@, i as int, x) || exists|jj: int|
                    0 <= jj < j + 1 && #[trigger] children@[jj] == x by {
                    if x < out_prev.len() {
                        if covered(plan.nodes@, out_prev, pos@, i as int, x) {
                            if exists|k: int| 0 <= k < i && #[trigger] pos@[k] == x {
                            } else {
                                let (k, jj) = choose|k: int, jj: int|
                                    0 <= k < i && 0 <= jj < plan.nodes@[k].children@.len() && #[trigger] out_prev[pos@[k] as int].children@[jj] == x;
                                assert(pos@[k] < out_prev.len());
                                assert(out@[pos@[k] as int] == out_prev[pos@[k] as int]);
                                assert(out@[pos@[k] as int].children@[jj] == x);
                            }
                        } else {
                            let jj = choose|jj: int| 0 <= jj < j && #[trigger] children_prev[jj] == x;
                            assert(children@[jj] == x);
                        }
                    } else {
                        assert(children@[j as int] == x);
                    }
                }
                assert forall|x: int| 0 <= x < j + 1 implies link_ok(
                    out@,
                    kind,
                    pos@[node.children@[x] as int] as int,
                    #[trigger] children@[x] as int,
                ) by {
                    if x < j {
                        assert(children@[x] == children_prev[x]);
                        assert(plan.nodes@[i as int].children@[x] < i);
                        assert(pos@[node.children@[x] as int] < out_prev.len());
                        lemma_link_ok_extend(out_prev, out@, kind, pos@[node.children@[x] as int] as int, children_prev[x] as int);
                    } else {
                        assert(out@[c as int] == out_prev[c as int]);
                    }
                }
            }
            j += 1;
        }
        let segment_id = if kind == node.kind { node.segment_id } else { 0 };
        let ghost out_prev = out@;
        let ghost pos_prev = pos@;
        let ghost kids = children@;
        let mut rebuilt = rebuild_node(node, kind, children, segment_id);
        rebuilt.origin = Some(i);
        out.push(rebuilt);
        pos.push(out.len() - 1);
        proof {
            lemma_relation_extend(plan.nodes@, out_prev, out@, pos_prev, i as int);
            assert forall|x: int| 0 <= x < out@.len() && (#[trigger] out@[x]).origin is Some implies
                out@[x].origin->0 < i + 1 && pos@[out@[x].origin->0 as int] == x by {
                if x < out_prev.len() {
                    assert(out@[x] == out_prev[x]);
                    assert(pos@[out_prev[x].origin->0 as int] == pos_prev[out_prev[x].origin->0 as int]);
                }
            }
            assert forall|x: int| 0 <= x < out@.len() implies #[trigger] covered(plan.nodes@, out@, pos@, i + 1, x) by {
                if x == out@.len() - 1 {
                    assert(pos@[i as int] == x);
                } else if covered(plan.nodes@, out_prev, pos_prev, i as int, x) {
                    if exists|k: int| 0 <= k < i && #[trigger] pos_prev[k] == x {
                        let k = choose|k: int| 0 <= k < i && #[trigger] pos_prev[k] == x;
                        assert(pos@[k] == x);
                    } else {
                        let (k, jj) = choose|k: int, jj: int|
                            0 <= k < i && 0 <= jj < plan.nodes@[k].children@.len() && #[trigger] out_prev[pos_prev[k] as int].children@[jj] == x;
                        assert(pos@[k] == pos_prev[k]);
                        assert(pos_prev[k] < out_prev.len());
                        assert(out@[pos@[k] as int] == out_prev[pos_prev[k] as int]);
                        assert(out@[pos@[k] as int].children@[jj] == x);
                    }
                } else {
                    let jj = choose|jj: int| 0 <= jj < kids.len() && #[trigger] kids[jj] == x;
                    assert(pos@[i as int] == out@.len() - 1);
                    assert(out@[pos@[i as int] as int].children@ == kids);
                    assert(out@[pos@[i as int] as int].children@[jj] == x);
                }
            }
            assert forall|k: int, jj: int|
                0 <= k < i + 1 && 0 <= jj < plan.nodes@[k].children@.len() implies link_ok(
                    out@,
                    out@[pos@[k] as int].kind,
                    pos@[plan.nodes@[k].children@[jj] as int] as int,
                    #[trigger] out@[pos@[k] as int].children@[jj] as int,
                ) by {
                assert(plan.nodes@[k].children@[jj] < k);
                if k < i {
                    assert(pos@[k] == pos_prev[k]);
                    assert(pos@[plan.nodes@[k].children@[jj] as int] == pos_prev[plan.nodes@[k].children@[jj] as int]);
                } else {
                    assert(pos@[k] == out@.len() - 1);
                    assert(out@[pos@[k] as int].children@ == kids);
                    assert(pos@[plan.nodes@[k].children@[jj] as int] == pos_prev[plan.nodes@[k].children@[jj] as int]);
                    assert(pos_prev[plan.nodes@[k].children@[jj] as int] < out_prev.len());
                    lemma_link_ok_extend(out_prev, out@, kind, pos_prev[plan.nodes@[k].children@[jj] as int] as int, kids[jj] as int);
                }
            }
        }
        i += 1;
    }
    let ghost pos_final = pos@;
    assert(rewrite_relation(plan.nodes@, out@, pos_final, n as int));
    assert(origins_match(out@, pos_final, n as int));
    assert(forall|x: int| 0 <= x < out@.len() ==> #[trigger] covered(plan.nodes@, out@, pos_final, n as int, x));
    assert(pos_final[n - 1] == out@.len() - 1);
    Ok(PhysicalPlan { nodes: out })
}

/// The cuDF operators that run on a per-segment CUDA stream.
pub open spec fn stream_aware(k: NodeKind) -> bool {
    k == NodeKind::CuDFLoad || k == NodeKind::CuDFFilter || k == NodeKind::CuDFProjection
        || k == NodeKind::CuDFAggregate || k == NodeKind::CuDFSort || k == NodeKind::CuDFUnload
}

fn is_stream_eligible_op(k: NodeKind) -> (r: bool)
    ensures
        r == stream_aware(k),
{
    k == NodeKind::CuDFLoad || k == NodeKind::CuDFFilter || k == NodeKind::CuDFProjection
        || k == NodeKind::CuDFAggregate || k == NodeKind::CuDFSort || k == NodeKind::CuDFUnload
}

/// Node `i` and every GPU node below it that is reached through GPU nodes only
/// are stream-aware operators.
pub open spec fn component_stream_aware(s: Seq<PlanNode>, i: int) -> bool
    decreases i,
{
    if 0 <= i < s.len() {
        &&& stream_aware(s[i].kind)
        &&& forall|j: int|
            0 <= j < s[i].children@.len() && 0 <= #[trigger] s[i].children@[j] < i ==> (!is_cudf(
                s[s[i].children@[j] as int].kind,
            ) || component_stream_aware(s, s[i].children@[j] as int))
    } else {
        false
    }
}

/// The plan is the same as `before` but for the segment ids of stream-aware
/// operators.
pub open spec fn same_but_segments(before: Seq<PlanNode>, after: Seq<PlanNode>) -> bool {
    &&& after.len() == before.len()
    &&& forall|i: int| 0 <= i < before.len() ==> {
        &&& (#[trigger] after[i]).kind == before[i].kind
        &&& after[i].children@ == before[i].children@
        &&& after[i].conversion == before[i].conversion
        &&& after[i].preserve_partitioning == before[i].preserve_partitioning
        &&& after[i].batch_size == before[i].batch_size
        &&& after[i].aggregate_input_schema == before[i].aggregate_input_schema
        &&& after[i].origin == before[i].origin
        &&& !stream_aware(before[i].kind) ==> after[i].segment_id == before[i].segment_id
    }
}

/// The lowest-index node at or after `p` that lists `c` among its children.
pub open spec fn parent_from(s: Seq<PlanNode>, c: int, p: int) -> Option<int>
    decreases s.len() - p,
{
    if p < 0 || p >= s.len() {
        None
    } else if s[p].children@.contains(c as usize) {
        Some(p)
    } else {
        parent_from(s, c, p + 1)
    }
}

/// Whether GPU node `i` runs on a per-segment CUDA stream. The topmost GPU node
/// of a GPU component decides for the whole component: it is eligible where it
/// and all the GPU nodes below it are stream-aware, and the GPU nodes below
/// inherit its answer (through the parent that lists them first).
pub open spec fn stream_eligible(s: Seq<PlanNode>, i: int) -> bool
    decreases s.len() - i,
{
    if !(0 <= i < s.len()) || !is_cudf(s[i].kind) {
        false
    } else {
        match parent_from(s, i, i + 1) {
            Some(p) => if i < p < s.len() && is_cudf(s[p].kind) {
                stream_eligible(s, p)
            } else {
                component_stream_aware(s, i)
            },
            None => component_stream_aware(s, i),
        }
    }
}

/// What the parents from `from` on hand down to node `c`: the eligibility of
/// the first of them that lists `c`, where both are GPU nodes.
pub open spec fn inherited_from(s: Seq<PlanNode>, c: int, from: int) -> Option<bool> {
    match parent_from(s, c, from) {
        Some(p) => if 0 <= c < s.len() && 0 <= p < s.len() && is_cudf(s[p].kind) && is_cudf(s[c].kind) {
            Some(stream_eligible(s, p))
        } else {
            None
        },
        None => None,
    }
}

proof fn lemma_parent_from_range(s: Seq<PlanNode>, c: int, p: int)
    ensures
        parent_from(s, c, p) matches Some(q) ==> p <= q < s.len() && s[q].children@.contains(c as usize),
    decreases s.len() - p,
{
    if 0 <= p < s.len() && !s[p].children@.contains(c as usize) {
        lemma_parent_from_range(s, c, p + 1);
    }
}

/// A node that runs on a per-segment stream heads (or lies in) a GPU component
/// of stream-aware operators only.
proof fn lemma_eligible_implies_aware(s: Seq<PlanNode>, x: int)
    requires
        nodes_wf(s),
        s.len() <= usize::MAX,
    ensures
        stream_eligible(s, x) ==> component_stream_aware(s, x),
    decreases s.len() - x,
{
    if 0 <= x < s.len() && is_cudf(s[x].kind) {
        lemma_parent_from_range(s, x, x + 1);
        if let Some(p) = parent_from(s, x, x + 1) {
            if x < p < s.len() && is_cudf(s[p].kind) {
                lemma_eligible_implies_aware(s, p);
                if stream_eligible(s, p) {
                    let j = choose|j: int| 0 <= j < s[p].children@.len() && s[p].children@[j] == x as usize;
                    assert(s[p].children@[j] < p);
                }
            }
        }
    }
}

/// Number of stream-eligible cuDF loads among the first `p` visits of `order`.
pub open spec fn eligible_loads_visited(s: Seq<PlanNode>, order: Seq<usize>, p: int) -> nat
    decreases p,
{
    if p <= 0 {
        0
    } else {
        eligible_loads_visited(s, order, p - 1) + if s[order[p - 1] as int].kind == NodeKind::CuDFLoad
            && stream_eligible(s, order[p - 1] as int) {
            1nat
        } else {
            0nat
        }
    }
}

/// How many stream-eligible cuDF loads the depth-first walk from the root
/// visits before its last visit of node `i` (0 where the root does not reach
/// it).
pub open spec fn eligible_load_number(s: Seq<PlanNode>, i: int) -> nat {
    match last_visit(root_order(s), i) {
        Some(q) => eligible_loads_visited(s, root_order(s), q),
        None => 0,
    }
}

/// The segment id of GPU node `i` (none for host nodes): a stream-eligible
/// cuDF load starts segment `1`, `2`, ... in the depth-first post-order of the
/// walk from the root (children left to right, then the parent); another eligible GPU
/// node takes the id of its first GPU child (or 0); ineligible GPU nodes get 0.
pub open spec fn planned_segment(s: Seq<PlanNode>, i: int) -> Option<usize>
    decreases i, 1int, 0int,
{
    if !(0 <= i < s.len()) {
        None
    } else if s[i].kind == NodeKind::CuDFLoad {
        Some(if stream_eligible(s, i) { (eligible_load_number(s, i) + 1) as usize } else { 0 })
    } else if is_cudf(s[i].kind) {
        Some(
            if stream_eligible(s, i) {
                match first_planned_child(s, i, 0) {
                    Some(x) => x,
                    None => 0,
                }
            } else {
                0
            },
        )
    } else {
        None
    }
}

/// The first segment id among children `j..` of node `i`.
pub open spec fn first_planned_child(s: Seq<PlanNode>, i: int, j: int) -> Option<usize>
    decreases i, 0int, s[i].children@.len() - j,
{
    if !(0 <= i < s.len()) || j < 0 || j >= s[i].children@.len() {
        None
    } else {
        let c = s[i].children@[j] as int;
        if 0 <= c < i {
            match planned_segment(s, c) {
                Some(x) => Some(x),
                None => first_planned_child(s, i, j + 1),
            }
        } else {
            first_planned_child(s, i, j + 1)
        }
    }
}

/// Assigns a segment id to each contiguous GPU segment.
///
/// A segment whose GPU operators are all stream-aware gets a fresh nonzero id at
/// each cuDF load, numbered from 1 in the depth-first post-order from the root (a node
/// reached along two paths takes the number of its last visit), and its other operators carry
/// the id of their first child that has one. A segment holding an operator that
/// is not stream-aware keeps id 0: all its operators use the default stream.
pub fn assign_segment_ids(plan: PhysicalPlan) -> (r: PhysicalPlan)
    requires
        plan.wf(),
        plan.nodes@.len() < usize::MAX,
    ensures
        r.wf(),
        same_but_segments(plan.nodes@, r.nodes@),
        forall|i: int|
            0 <= i < r.nodes@.len() && stream_aware(plan.nodes@[i].kind) ==> #[trigger] r.nodes@[i].segment_id
                == planned_segment(plan.nodes@, i)->Some_0,
        forall|i: int| 0 <= i < r.nodes@.len() && stream_aware(#[trigger] r.nodes@[i].kind)
            && !component_stream_aware(plan.nodes@, i) ==> r.nodes@[i].segment_id == 0,
        eligible_loads_numbered_in_post_order(r.nodes@),
{
    let n = plan.nodes.len();
    let ghost s = plan.nodes@;
    // Bottom-up: which nodes head a GPU component of stream-aware operators only.
    let mut allow: Vec<bool> = Vec::new();
    let mut i: usize = 0;
    while i < n
        invariant
            n == s.len(),
            s == plan.nodes@,
            plan.wf(),
            i <= n,
            allow@.len() == i,
            forall|x: int| 0 <= x < i ==> #[trigger] allow@[x] == component_stream_aware(s, x),
        decreases n - i,
    {
        let node = &plan.nodes[i];
        let mut ok = is_stream_eligible_op(node.kind);
        let mut j: usize = 0;
        while j < node.children.len()
            invariant
                n == s.len(),
                s == plan.nodes@,
                plan.wf(),
                i < n,
                *node == s[i as int],
                allow@.len() == i,
                forall|x: int| 0 <= x < i ==> #[trigger] allow@[x] == component_stream_aware(s, x),
                j <= node.children@.len(),
                ok == (stream_aware(node.kind) && forall|jj: int|
                    0 <= jj < j && 0 <= #[trigger] s[i as int].children@[jj] < i ==> (!is_cudf(
                        s[s[i as int].children@[jj] as int].kind,
                    ) || component_stream_aware(s, s[i as int].children@[jj] as int))),
            decreases node.children@.len() - j,
        {
            let c = node.children[j];
            if is_cudf_plan(plan.nodes[c].kind) && !allow[c] {
                ok = false;
            }
            j += 1;
        }
        allow.push(ok);
        i += 1;
    }
    // Top-down: a GPU node below a GPU node inherits its parent's eligibility.
    let mut eligible: Vec<bool> = Vec::new();
    let mut inherited: Vec<Option<bool>> = Vec::new();
    let mut i: usize = 0;
    while i < n
        invariant
            i <= n,
            eligible@.len() == i,
            inherited@.len() == i,
            forall|x: int| 0 <= x < i ==> #[trigger] inherited@[x] is None,
        decreases n - i,
    {
        eligible.push(false);
        inherited.push(None);
        i += 1;
    }
    let mut i: usize = n;
    while i > 0
        invariant
            n == s.len(),
            s == plan.nodes@,
            plan.wf(),
            i <= n,
            allow@.len() == n,
            eligible@.len() == n,
            inherited@.len() == n,
            forall|x: int| 0 <= x < n ==> #[trigger] allow@[x] == component_stream_aware(s, x),
            forall|x: int| i <= x < n ==> #[trigger] eligible@[x] == stream_eligible(s, x),
            forall|c: int| 0 <= c < i ==> #[trigger] inherited@[c] == inherited_from(s, c, i as int),
        decreases i,
    {
        let idx = i - 1;
        let node = &plan.nodes[idx];
        let node_is_cudf = is_cudf_plan(node.kind);
        let e = if node_is_cudf {
            match inherited[idx] {
                Some(b) => b,
                None => allow[idx],
            }
        } else {
            false
        };
        proof {
            lemma_parent_from_range(s, idx as int, i as int);
            assert(inherited@[idx as int] == inherited_from(s, idx as int, i as int));
            assert(e == stream_eligible(s, idx as int));
        }
        eligible.set(idx, e);
        let ghost before = inherited@;
        let mut j: usize = 0;
        while j < node.children.len()
            invariant
                n == s.len(),
                s == plan.nodes@,
                plan.wf(),
                idx < n,
                idx + 1 == i,
                *node == s[idx as int],
                node_is_cudf == is_cudf(node.kind),
                e == stream_eligible(s, idx as int),
                inherited@.len() == n,
                before.len() == n,
                j <= node.children@.len(),
                forall|c: int|
                    0 <= c < idx ==> #[trigger] inherited@[c] == if node.children@.subrange(0, j as int).contains(
                        c as usize,
                    ) {
                        if node_is_cudf && is_cudf(s[c].kind) {
                            Some(e)
                        } else {
                            None
                        }
                    } else {
                        before[c]
                    },
            decreases node.children@.len() - j,
        {
            let c = node.children[j];
            proof {
                assert(s[idx as int].children@[j as int] == c);
                assert(c < idx);
            }
            let ghost prev = inherited@;
            let v = if node_is_cudf && is_cudf_plan(plan.nodes[c].kind) { Some(e) } else { None };
            inherited.set(c, v);
            proof {
                let sub = node.children@.subrange(0, j as int);
                assert(node.children@.subrange(0, j as int + 1) == sub.push(c));
                assert forall|x: int| 0 <= x < idx implies #[trigger] inherited@[x] == if sub.push(c).contains(x as usize) {
                    if node_is_cudf && is_cudf(s[x].kind) {
                        Some(e)
                    } else {
                        None
                    }
                } else {
                    before[x]
                } by {
                    if x == c as int {
                        assert(sub.push(c)[j as int] == c);
                    } else {
                        assert(inherited@[x] == prev[x]);
                        if sub.push(c).contains(x as usize) {
                            let k = choose|k: int| 0 <= k < sub.push(c).len() && sub.push(c)[k] == x as usize;
                            assert(sub[k] == x as usize);
                        }
                        if sub.contains(x as usize) {
                            let k = choose|k: int| 0 <= k < sub.len() && sub[k] == x as usize;
                            assert(sub.push(c)[k] == x as usize);
                        }
                    }
                }
            }
            j += 1;
        }
        proof {
            assert(node.children@.subrange(0, j as int) == node.children@);
            assert forall|c: int| 0 <= c < idx implies #[trigger] inherited@[c] == inherited_from(s, c, idx as int) by {
                assert(before[c] == inherited_from(s, c, i as int));
                lemma_parent_from_range(s, c, idx as int);
                lemma_parent_from_range(s, c, i as int);
            }
        }
        i -= 1;
    }
    proof {
        assert forall|x: int| 0 <= x < n && #[trigger] eligible@[x] implies allow@[x] by {
            lemma_eligible_implies_aware(s, x);
        }
    }
    // Walk from the root: number the stream-eligible loads in post-order.
    let order = root_post_order(&plan);
    proof {
        lemma_post_order_in_range(s, s.len() - 1);
        assert(order@ == post_order(s, s.len() - 1));
    }
    let mut numbers: Vec<usize> = Vec::new();
    let mut k: usize = 0;
    while k < n
        invariant
            k <= n,
            numbers@.len() == k,
            forall|x: int| 0 <= x < k ==> #[trigger] numbers@[x] == 0,
        decreases n - k,
    {
        numbers.push(0);
        k = k + 1;
    }
    let mut count: usize = 0;
    let mut p: usize = 0;
    while p < order.len()
        invariant
            n == s.len(),
            s == plan.nodes@,
            order@ == root_order(s),
            forall|q: int| 0 <= q < order@.len() ==> #[trigger] order@[q] < s.len(),
            eligible@.len() == n,
            forall|x: int| 0 <= x < n ==> #[trigger] eligible@[x] == stream_eligible(s, x),
            p <= order@.len(),
            count <= p,
            count == eligible_loads_visited(s, order@, p as int),
            numbers@.len() == n,
            forall|x: int| 0 <= x < n ==> #[trigger] numbers@[x] < usize::MAX,
            forall|x: int|
                0 <= x < n && s[x].kind == NodeKind::CuDFLoad && stream_eligible(s, x) ==> #[trigger] numbers@[x]
                    == match last_visit_before(order@, x, p as int) {
                    Some(q) => eligible_loads_visited(s, order@, q),
                    None => 0,
                },
        decreases order@.len() - p,
    {
        let x = order[p];
        if plan.nodes[x].kind == NodeKind::CuDFLoad && eligible[x] {
            numbers.set(x, count);
            count = count + 1;
        }
        p = p + 1;
    }
    // Bottom-up: pass segment ids up through GPU nodes.
    let mut segments: Vec<Option<usize>> = Vec::new();
    let mut nodes: Vec<PlanNode> = Vec::new();
    let mut i: usize = 0;
    while i < n
        invariant
            n == s.len(),
            n < usize::MAX,
            s == plan.nodes@,
            plan.wf(),
            i <= n,
            allow@.len() == n,
            eligible@.len() == n,
            forall|x: int| 0 <= x < n ==> #[trigger] allow@[x] == component_stream_aware(s, x),
            forall|x: int| 0 <= x < n && #[trigger] eligible@[x] ==> allow@[x],
            forall|x: int| 0 <= x < n ==> #[trigger] eligible@[x] == stream_eligible(s, x),
            numbers@.len() == n,
            forall|x: int| 0 <= x < n ==> #[trigger] numbers@[x] < usize::MAX,
            forall|x: int|
                0 <= x < n && s[x].kind == NodeKind::CuDFLoad && stream_eligible(s, x) ==> #[trigger] numbers@[x]
                    == eligible_load_number(s, x),
            segments@.len() == i,
            nodes@.len() == i,
            forall|x: int| 0 <= x < i ==> #[trigger] segments@[x] == planned_segment(s, x),
            forall|x: int|
                0 <= x < i && stream_aware(s[x].kind) ==> #[trigger] nodes@[x].segment_id == planned_segment(s, x)->Some_0,
            same_but_segments(s.subrange(0, i as int), nodes@),
            forall|x: int| 0 <= x < i && stream_aware(#[trigger] nodes@[x].kind)
                && !component_stream_aware(s, x) ==> nodes@[x].segment_id == 0,
        decreases n - i,
    {
        let node = &plan.nodes[i];
        let this_segment: Option<usize> = if node.kind == NodeKind::CuDFLoad {
            if eligible[i] {
                Some(numbers[i] + 1)
            } else {
                Some(0)
            }
        } else if is_cudf_plan(node.kind) {
            if eligible[i] {
                let mut first: Option<usize> = None;
                let mut j: usize = 0;
                while j < node.children.len()
                    invariant
                        plan.wf(),
                        s == plan.nodes@,
                        n == s.len(),
                        i < n,
                        *node == s[i as int],
                        segments@.len() == i,
                        forall|x: int| 0 <= x < i ==> #[trigger] segments@[x] == planned_segment(s, x),
                        j <= node.children@.len(),
                        first_planned_child(s, i as int, 0) == match first {
                            Some(x) => Some(x),
                            None => first_planned_child(s, i as int, j as int),
                        },
                    decreases node.children@.len() - j,
                {
                    if first.is_none() {
                        assert(s[i as int].children@[j as int] < i);
                        first = segments[node.children[j]];
                    }
                    j += 1;
                }
                Some(
                    match first {
                        Some(id) => id,
                        None => 0,
                    },
                )
            } else {
                Some(0)
            }
        } else {
            None
        };
        let segment_id = match this_segment {
            Some(id) if is_stream_eligible_op(node.kind) => id,
            _ => node.segment_id,
        };
        let children = copy_indices(&node.children);
        nodes.push(rebuild_node(node, node.kind, children, segment_id));
        segments.push(this_segment);
        proof {
            assert(s.subrange(0, i + 1).drop_last() =~= s.subrange(0, i as int));
        }
        i += 1;
    }
    proof {
        assert(s.subrange(0, n as int) =~= s);
        lemma_eligible_numbered_in_post_order(s, nodes@);
    }
    PhysicalPlan { nodes }
}

/// The stream-eligible loads that the walk from the root reaches are numbered
/// in its order: of two loads with a nonzero segment id, the one whose last
/// visit comes first has the smaller id.
pub open spec fn eligible_loads_numbered_in_post_order(s: Seq<PlanNode>) -> bool {
    let order = root_order(s);
    forall|p: int, q: int|
        0 <= p < q < order.len() && last_visit(order, order[p] as int) == Some(p) && last_visit(order, order[q] as int)
            == Some(q) && s[order[p] as int].kind == NodeKind::CuDFLoad && s[order[q] as int].kind
            == NodeKind::CuDFLoad && s[order[p] as int].segment_id != 0 && s[order[q] as int].segment_id != 0
            ==> #[trigger] s[order[p] as int].segment_id < #[trigger] s[order[q] as int].segment_id
}

proof fn lemma_eligible_numbered_in_post_order(before: Seq<PlanNode>, after: Seq<PlanNode>)
    requires
        same_but_segments(before, after),
        forall|i: int|
            0 <= i < after.len() && stream_aware(before[i].kind) ==> #[trigger] after[i].segment_id
                == planned_segment(before, i)->Some_0,
        root_order(before).len() <= usize::MAX,
    ensures
        eligible_loads_numbered_in_post_order(after),
{
    assert forall|x: int| 0 <= x < before.len() implies (#[trigger] before[x]).children@ == after[x].children@ by {
        assert(after[x].children@ == before[x].children@);
    }
    lemma_post_order_same(before, after, before.len() - 1);
    let order = root_order(before);
    lemma_post_order_in_range(before, before.len() - 1);
    assert(order == post_order(before, before.len() - 1));
    assert forall|p: int, q: int|
        0 <= p < q < order.len() && last_visit(order, order[p] as int) == Some(p) && last_visit(order, order[q] as int)
            == Some(q) && after[order[p] as int].kind == NodeKind::CuDFLoad && after[order[q] as int].kind
            == NodeKind::CuDFLoad && after[order[p] as int].segment_id != 0 && after[order[q] as int].segment_id != 0
            implies #[trigger] after[order[p] as int].segment_id < #[trigger] after[order[q] as int].segment_id by {
        let x = order[p] as int;
        let y = order[q] as int;
        assert(post_order(before, before.len() - 1)[p] < before.len());
        assert(post_order(before, before.len() - 1)[q] < before.len());
        assert(after[x].kind == before[x].kind);
        assert(after[y].kind == before[y].kind);
        assert(stream_eligible(before, x));
        assert(stream_eligible(before, y));
        lemma_eligible_loads_visited_grows(before, order, p, q);
        lemma_eligible_loads_visited_bound(before, order, q);
        assert(eligible_load_number(before, x) == eligible_loads_visited(before, order, p));
        assert(eligible_load_number(before, y) == eligible_loads_visited(before, order, q));
    }
}

/// Wraps the root in a cuDF unload when it runs on the GPU, so the plan hands
/// host batches to its caller.
fn unload_gpu_root(plan: PhysicalPlan) -> (r: PhysicalPlan)
    requires
        plan.wf(),
    ensures
        r.wf(),
        r.nodes@.len() <= plan.nodes@.len() + 1,
        forall|x: int| 0 <= x < plan.nodes@.len() ==> #[trigger] r.nodes@[x] == plan.nodes@[x],
        forall|x: int| plan.nodes@.len() <= x < r.nodes@.len() ==> (#[trigger] r.nodes@[x]).origin is None,
        is_cudf(plan.root_kind()) ==> r.nodes@.len() == plan.nodes@.len() + 1 && r.root_kind()
            == NodeKind::CuDFUnload && r.nodes@[r.nodes@.len() - 1].children@ == seq![(plan.nodes@.len() - 1) as usize],
        !is_cudf(plan.root_kind()) ==> r.nodes@ == plan.nodes@,
        produces_host(r.root_kind()),
        edges_ok(plan.nodes@) && plan.root_kind() != NodeKind::CuDFUnload ==> r.boundaries_ok(),
{
    let mut nodes = plan.nodes;
    let root = nodes.len() - 1;
    if is_cudf_plan(nodes[root].kind) {
        nodes.push(wrapper_node(NodeKind::CuDFUnload, root, 0, false));
    }
    PhysicalPlan { nodes }
}

/// Component stream-awareness reads only the operators and the children.
proof fn lemma_component_stream_aware_same(s1: Seq<PlanNode>, s2: Seq<PlanNode>, i: int)
    requires
        s1.len() == s2.len(),
        forall|x: int| 0 <= x < s1.len() ==> (#[trigger] s1[x]).kind == s2[x].kind && s1[x].children@ == s2[x].children@,
    ensures
        component_stream_aware(s1, i) == component_stream_aware(s2, i),
    decreases i,
{
    if 0 <= i < s1.len() {
        assert forall|j: int| 0 <= j < s1[i].children@.len() && 0 <= #[trigger] s1[i].children@[j] < i implies
            component_stream_aware(s1, s1[i].children@[j] as int) == component_stream_aware(s2, s2[i].children@[j] as int) by {
            lemma_component_stream_aware_same(s1, s2, s1[i].children@[j] as int);
        }
        assert(s1[i].kind == s2[i].kind);
        assert(s1[i].children@ == s2[i].children@);
    }
}

proof fn lemma_parent_from_same(s1: Seq<PlanNode>, s2: Seq<PlanNode>, c: int, p: int)
    requires
        s1.len() == s2.len(),
        forall|x: int| 0 <= x < s1.len() ==> (#[trigger] s1[x]).kind == s2[x].kind && s1[x].children@ == s2[x].children@,
    ensures
        parent_from(s1, c, p) == parent_from(s2, c, p),
    decreases s1.len() - p,
{
    if 0 <= p < s1.len() {
        assert(s1[p].children@ == s2[p].children@);
        lemma_parent_from_same(s1, s2, c, p + 1);
    }
}

proof fn lemma_stream_eligible_same(s1: Seq<PlanNode>, s2: Seq<PlanNode>, i: int)
    requires
        s1.len() == s2.len(),
        forall|x: int| 0 <= x < s1.len() ==> (#[trigger] s1[x]).kind == s2[x].kind && s1[x].children@ == s2[x].children@,
    ensures
        stream_eligible(s1, i) == stream_eligible(s2, i),
    decreases s1.len() - i,
{
    if 0 <= i < s1.len() {
        assert(s1[i].kind == s2[i].kind);
        lemma_parent_from_same(s1, s2, i, i + 1);
        lemma_component_stream_aware_same(s1, s2, i);
        if let Some(p) = parent_from(s1, i, i + 1) {
            if i < p < s1.len() {
                assert(s1[p].kind == s2[p].kind);
                lemma_stream_eligible_same(s1, s2, p);
            }
        }
    }
}

proof fn lemma_eligible_loads_visited_same(s1: Seq<PlanNode>, s2: Seq<PlanNode>, order: Seq<usize>, p: int)
    requires
        s1.len() == s2.len(),
        forall|x: int| 0 <= x < s1.len() ==> (#[trigger] s1[x]).kind == s2[x].kind && s1[x].children@ == s2[x].children@,
        forall|q: int| 0 <= q < order.len() ==> #[trigger] order[q] < s1.len(),
        p <= order.len(),
    ensures
        eligible_loads_visited(s1, order, p) == eligible_loads_visited(s2, order, p),
    decreases p,
{
    if p > 0 {
        let x = order[p - 1] as int;
        assert(x < s1.len());
        assert(s1[x].kind == s2[x].kind);
        lemma_stream_eligible_same(s1, s2, x);
        lemma_eligible_loads_visited_same(s1, s2, order, p - 1);
    }
}

proof fn lemma_last_visit_before_bound(order: Seq<usize>, x: int, p: int)
    ensures
        last_visit_before(order, x, p) matches Some(q) ==> 0 <= q < p && order[q] == x,
    decreases p,
{
    if p > 0 {
        lemma_last_visit_before_bound(order, x, p - 1);
    }
}

proof fn lemma_eligible_load_number_same(s1: Seq<PlanNode>, s2: Seq<PlanNode>, i: int)
    requires
        s1.len() == s2.len(),
        forall|x: int| 0 <= x < s1.len() ==> (#[trigger] s1[x]).kind == s2[x].kind && s1[x].children@ == s2[x].children@,
    ensures
        eligible_load_number(s1, i) == eligible_load_number(s2, i),
{
    assert forall|x: int| 0 <= x < s1.len() implies (#[trigger] s1[x]).children@ == s2[x].children@ by {
        assert(s1[x].kind == s2[x].kind && s1[x].children@ == s2[x].children@);
    }
    lemma_post_order_same(s1, s2, s1.len() - 1);
    let order = root_order(s1);
    assert(root_order(s2) == order);
    lemma_post_order_in_range(s1, s1.len() - 1);
    assert(order == post_order(s1, s1.len() - 1));
    lemma_last_visit_before_bound(order, i, order.len() as int);
    if let Some(q) = last_visit(order, i) {
        lemma_eligible_loads_visited_same(s1, s2, order, q);
    }
}

/// Eligible loads visited later are counted later.
proof fn lemma_eligible_loads_visited_grows(s: Seq<PlanNode>, order: Seq<usize>, p: int, q: int)
    requires
        0 <= p < q,
        s[order[p] as int].kind == NodeKind::CuDFLoad,
        stream_eligible(s, order[p] as int),
    ensures
        eligible_loads_visited(s, order, p) < eligible_loads_visited(s, order, q),
    decreases q,
{
    if q > p + 1 {
        lemma_eligible_loads_visited_grows(s, order, p, q - 1);
    }
}

proof fn lemma_eligible_loads_visited_bound(s: Seq<PlanNode>, order: Seq<usize>, p: int)
    ensures
        eligible_loads_visited(s, order, p) <= if p < 0 { 0 } else { p },
    decreases p,
{
    if p > 0 {
        lemma_eligible_loads_visited_bound(s, order, p - 1);
    }
}

proof fn lemma_planned_segment_same(s1: Seq<PlanNode>, s2: Seq<PlanNode>, i: int)
    requires
        s1.len() == s2.len(),
        forall|x: int| 0 <= x < s1.len() ==> (#[trigger] s1[x]).kind == s2[x].kind && s1[x].children@ == s2[x].children@,
    ensures
        planned_segment(s1, i) == planned_segment(s2, i),
    decreases i, 1int, 0int,
{
    if 0 <= i < s1.len() {
        assert(s1[i].kind == s2[i].kind);
        lemma_stream_eligible_same(s1, s2, i);
        lemma_eligible_load_number_same(s1, s2, i);
        lemma_first_planned_child_same(s1, s2, i, 0);
    }
}

proof fn lemma_first_planned_child_same(s1: Seq<PlanNode>, s2: Seq<PlanNode>, i: int, j: int)
    requires
        s1.len() == s2.len(),
        forall|x: int| 0 <= x < s1.len() ==> (#[trigger] s1[x]).kind == s2[x].kind && s1[x].children@ == s2[x].children@,
        0 <= i < s1.len(),
    ensures
        first_planned_child(s1, i, j) == first_planned_child(s2, i, j),
    decreases i, 0int, s1[i].children@.len() - j,
{
    assert(s1[i].children@ == s2[i].children@);
    if 0 <= j < s1[i].children@.len() {
        let c = s1[i].children@[j] as int;
        if 0 <= c < i {
            lemma_planned_segment_same(s1, s2, c);
        }
        lemma_first_planned_child_same(s1, s2, i, j + 1);
    }
}

/// The physical optimizer rule that moves the operators that cuDF supports onto
/// the GPU.
pub struct HostToCuDFRule;

impl HostToCuDFRule {
    /// Rewrites a host plan for cuDF.
    ///
    /// Without a cuDF extension, or with `enable == false`, the plan is returned
    /// unchanged. Otherwise filters, projections, hash joins and aggregates whose
    /// cuDF counterpart accepts them, and all sorts, move to the GPU; a cuDF load
    /// (keeping the input partitioning when CUDA streams are on, and looking
    /// through a coalesce-partitions node) enters each GPU segment and a cuDF
    /// unload leaves it; then segment ids are assigned. A counterpart that fails
    /// with an error fails the rewrite.
    pub fn optimize(&self, plan: PhysicalPlan, config: &ConfigOptions<CuDFConfig>) -> (r: Result<PhysicalPlan, PlanError>)
        requires
            plan.wf(),
            plan.nodes@.len() + child_entries(plan.nodes@, plan.nodes@.len() as int) + 1 < usize::MAX,
        ensures
            config.extension is None || !config.extension->0.enable ==> r == Ok::<PhysicalPlan, PlanError>(plan),
            config.extension is Some && config.extension->0.enable ==> {
                &&& r is Ok <==> forall|k: int| 0 <= k < plan.nodes@.len()
                    ==> !conversion_fails(#[trigger] plan.nodes@[k].kind, plan.nodes@[k].conversion)
                &&& r matches Err(PlanError::ConversionFailed(k)) ==> k < plan.nodes@.len()
                    && conversion_fails(plan.nodes@[k as int].kind, plan.nodes@[k as int].conversion)
                &&& r matches Ok(out) ==> {
                    &&& out.wf()
                    &&& exists|pos: Seq<usize>| {
                        &&& rewrite_relation(plan.nodes@, out.nodes@, pos, plan.nodes@.len() as int)
                        &&& origins_match(out.nodes@, pos, plan.nodes@.len() as int)
                        &&& forall|x: int| 0 <= x < out.nodes@.len() - 1
                            ==> #[trigger] covered(plan.nodes@, out.nodes@, pos, plan.nodes@.len() as int, x)
                        &&& pos[plan.nodes@.len() - 1] == out.nodes@.len() - 1 || {
                            &&& out.root_kind() == NodeKind::CuDFUnload
                            &&& out.nodes@[out.nodes@.len() - 1].children@ == seq![pos[plan.nodes@.len() - 1]]
                        }
                    }
                    &&& produces_host(out.root_kind())
                    &&& plan_fits(plan.nodes@) ==> out.boundaries_ok()
                    &&& forall|i: int| 0 <= i < out.nodes@.len() && stream_aware(#[trigger] out.nodes@[i].kind)
                        && !component_stream_aware(out.nodes@, i) ==> out.nodes@[i].segment_id == 0
                    &&& forall|i: int| 0 <= i < out.nodes@.len() && stream_aware(out.nodes@[i].kind)
                        ==> #[trigger] out.nodes@[i].segment_id == planned_segment(out.nodes@, i)->Some_0
                    &&& eligible_loads_numbered_in_post_order(out.nodes@)
                    &&& plan.host_only() ==> forall|i: int| 0 <= i < out.nodes@.len() && (#[trigger] out.nodes@[i]).kind
                        == NodeKind::CuDFLoad ==> out.nodes@[i].preserve_partitioning == config.extension->0.cuda_streams
                }
            },
    {
        let cudf_config = match &config.extension {
            Some(c) => c,
            None => return Ok(plan),
        };
        if !cudf_config.enable {
            return Ok(plan);
        }
        let preserve_load_partitioning = cudf_config.cuda_streams;
        let rewritten = match transform_to_cudf(&plan, preserve_load_partitioning) {
            Ok(p) => p,
            Err(e) => return Err(e),
        };
        let ghost pos = choose|pos: Seq<usize>| {
            &&& rewrite_relation(plan.nodes@, rewritten.nodes@, pos, plan.nodes@.len() as int)
            &&& origins_match(rewritten.nodes@, pos, plan.nodes@.len() as int)
            &&& pos[plan.nodes@.len() - 1] == rewritten.nodes@.len() - 1
            &&& forall|x: int| 0 <= x < rewritten.nodes@.len()
                ==> #[trigger] covered(plan.nodes@, rewritten.nodes@, pos, plan.nodes@.len() as int, x)
        };
        let ghost rw = rewritten.nodes@;
        let rooted = unload_gpu_root(rewritten);
        let ghost rt = rooted.nodes@;
        let out = assign_segment_ids(rooted);
        proof {
            assert forall|x: int| 0 <= x < rt.len() implies (#[trigger] rt[x]).kind == out.nodes@[x].kind
                && rt[x].children@ == out.nodes@[x].children@ by {
                assert(out.nodes@[x].kind == rt[x].kind);
            }
            assert forall|i: int| 0 <= i < rt.len() implies component_stream_aware(rt, i) == component_stream_aware(out.nodes@, i) by {
                lemma_component_stream_aware_same(rt, out.nodes@, i);
            }
            assert forall|i: int| 0 <= i < out.nodes@.len() && stream_aware(out.nodes@[i].kind)
                implies #[trigger] out.nodes@[i].segment_id == planned_segment(out.nodes@, i)->Some_0 by {
                lemma_planned_segment_same(rt, out.nodes@, i);
            }
            assert(rewrite_relation(plan.nodes@, out.nodes@, pos, plan.nodes@.len() as int));
            assert forall|x: int| 0 <= x < out.nodes@.len() && (#[trigger] out.nodes@[x]).origin is Some implies
                out.nodes@[x].origin->0 < plan.nodes@.len() && pos[out.nodes@[x].origin->0 as int] == x by {
                assert(out.nodes@[x].origin == rt[x].origin);
                if x < rw.len() {
                    assert(rt[x] == rw[x]);
                }
            }
            assert(origins_match(out.nodes@, pos, plan.nodes@.len() as int));
            let nn = plan.nodes@.len() as int;
            assert forall|x: int| 0 <= x < out.nodes@.len() - 1 implies #[trigger] covered(plan.nodes@, out.nodes@, pos, nn, x) by {
                assert(x < rw.len());
                assert(covered(plan.nodes@, rw, pos, nn, x));
                if exists|k: int| 0 <= k < nn && #[trigger] pos[k] == x {
                } else {
                    let (k, jj) = choose|k: int, jj: int|
                        0 <= k < nn && 0 <= jj < plan.nodes@[k].children@.len() && #[trigger] rw[pos[k] as int].children@[jj] == x;
                    assert(pos[k] < rw.len());
                    assert(out.nodes@[pos[k] as int].children@ == rt[pos[k] as int].children@);
                    assert(out.nodes@[pos[k] as int].children@[jj] == x);
                }
            }
            if pos[nn - 1] != out.nodes@.len() - 1 {
                assert(out.nodes@[out.nodes@.len() - 1].children@ == rt[rt.len() - 1].children@);
            }
        }
        Ok(out)
    }

    pub fn name(&self) -> (r: &'static str)
        ensures
            r@ == "HostToCuDFRule"@,
    {
        "HostToCuDFRule"
    }

    pub fn schema_check(&self) -> (r: bool)
        ensures
            !r,
    {
        false
    }
}

/// A physical optimizer rule installed by the cuDF planner.
#[derive(Clone, Copy, PartialEq, Eq, Debug, Structural)]
pub enum PlannerRule {
    /// Keeps the CPU-side leaves at the given partition count.
    RescaleLeafs(usize),
    /// [`HostToCuDFRule`].
    HostToCuDF,
}

/// The part of DataFusion's `SessionStateBuilder` that the cuDF planner
/// changes: its session options (if set), the target partition count a default
/// session would get, and its list of physical optimizer rules.
pub struct SessionStateBuilder {
    pub config: Option<ConfigOptions<CuDFConfig>>,
    pub default_target_partitions: usize,
    pub physical_optimizer_rules: Vec<PlannerRule>,
}

/// Extension trait for [`SessionStateBuilder`].
pub trait SessionStateBuilderExt: Sized {
    /// Installs the cuDF physical optimizer rules.
    fn with_cudf_planner(self) -> Self;
}

impl SessionStateBuilderExt for SessionStateBuilder {
    /// Installs default cuDF options when none are registered; without CUDA
    /// streams forces a single target partition for the GPU subplan; then
    /// appends the leaf-rescaling rule (with the partition count it was configured with) and
    /// [`HostToCuDFRule`].
    fn with_cudf_planner(self) -> (r: Self)
        ensures
            ({
                let old_target = match self.config {
                    Some(c) => c.target_partitions,
                    None => self.default_target_partitions,
                };
                let old_ext = match self.config {
                    Some(c) => c.extension,
                    None => None,
                };
                &&& r.config matches Some(cfg) && {
                    &&& cfg.extension matches Some(ext) && {
                        &&& (old_ext matches Some(e) ==> ext == e)
                        &&& (old_ext is None ==> ext.enable && ext.aggregate_chunk_target_bytes
                            == 256 * 1024 * 1024 && ext.pinned_input && !ext.cuda_streams)
                        &&& cfg.target_partitions == if ext.cuda_streams { old_target } else { 1 }
                    }
                }
                &&& r.default_target_partitions == self.default_target_partitions
                &&& r.physical_optimizer_rules@ == self.physical_optimizer_rules@.push(
                    PlannerRule::RescaleLeafs(old_target),
                ).push(PlannerRule::HostToCuDF)
            }),
    {
        let SessionStateBuilder { config, default_target_partitions, physical_optimizer_rules } = self;
        let mut cfg = match config {
            Some(c) => c,
            None => ConfigOptions { target_partitions: default_target_partitions, extension: None },
        };
        if cfg.extension.is_none() {
            cfg.extension = Some(CuDFConfig::default());
        }
        let cuda_streams = match &cfg.extension {
            Some(c) => c.cuda_streams,
            None => false,
        };
        let target_partitions = cfg.target_partitions;
        if !cuda_streams {
            cfg.target_partitions = 1;
        }
        let mut rules = physical_optimizer_rules;
        rules.push(PlannerRule::RescaleLeafs(target_partitions));
        rules.push(PlannerRule::HostToCuDF);
        SessionStateBuilder {
            config: Some(cfg),
            default_target_partitions,
            physical_optimizer_rules: rules,
        }
    }
}

} // verus!
