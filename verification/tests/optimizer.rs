use libcudf_rs::config::ConfigOptions;
use libcudf_rs::optimizer::{CuDFConfig, HostToCuDFRule};
use libcudf_rs::plan::{Conversion, NodeKind, PhysicalPlan, PlanError, PlanNode};

fn node(kind: NodeKind, conversion: Conversion, children: Vec<usize>) -> PlanNode {
    PlanNode {
        kind,
        conversion,
        children,
        segment_id: 0,
        preserve_partitioning: false,
        batch_size: 0,
        aggregate_input_schema: false,
        origin: None,
    }
}

fn kinds(plan: &PhysicalPlan) -> Vec<NodeKind> {
    plan.nodes.iter().map(|n| n.kind).collect()
}

fn enabled() -> ConfigOptions<CuDFConfig> {
    let mut c = CuDFConfig::default();
    c.enable = true;
    ConfigOptions { target_partitions: 1, extension: Some(c) }
}

#[test]
fn optimizer_config_defaults() {
    let c = CuDFConfig::default();
    assert!(!c.enable);
    assert_eq!(c.batch_size, 81920);
    assert!(!c.cuda_streams);
}

#[test]
fn optimizer_is_off_by_default() {
    let plan = PhysicalPlan {
        nodes: vec![node(NodeKind::Other, Conversion::Unsupported, vec![]), node(NodeKind::Sort, Conversion::Supported, vec![0])],
    };
    let opts = ConfigOptions { target_partitions: 1, extension: Some(CuDFConfig::default()) };
    let out = HostToCuDFRule.optimize(plan, &opts).expect("unchanged");
    assert_eq!(kinds(&out), vec![NodeKind::Other, NodeKind::Sort]);
}

#[test]
fn optimizer_coalesces_at_the_load() {
    let plan = PhysicalPlan {
        nodes: vec![node(NodeKind::Other, Conversion::Unsupported, vec![]), node(NodeKind::Sort, Conversion::Supported, vec![0])],
    };
    let out = HostToCuDFRule.optimize(plan, &enabled()).expect("rewrites");
    assert_eq!(
        kinds(&out),
        vec![NodeKind::Other, NodeKind::CoalesceBatches, NodeKind::CuDFLoad, NodeKind::CuDFSort, NodeKind::CuDFUnload]
    );
    assert_eq!(out.nodes[1].batch_size, 81920);
    assert_eq!(out.nodes[2].children, vec![1]);
    assert_eq!(out.nodes[4].children, vec![3]);
}

#[test]
fn optimizer_coalesces_on_gpu_before_host_parent() {
    // A host node over a GPU sort gets a cuDF coalesce and an unload in between.
    let plan = PhysicalPlan {
        nodes: vec![
            node(NodeKind::Other, Conversion::Unsupported, vec![]),
            node(NodeKind::Sort, Conversion::Supported, vec![0]),
            node(NodeKind::Other, Conversion::Unsupported, vec![1]),
        ],
    };
    let out = HostToCuDFRule.optimize(plan, &enabled()).expect("rewrites");
    assert_eq!(
        kinds(&out),
        vec![
            NodeKind::Other,
            NodeKind::CoalesceBatches,
            NodeKind::CuDFLoad,
            NodeKind::CuDFSort,
            NodeKind::CuDFCoalesceBatches,
            NodeKind::CuDFUnload,
            NodeKind::Other,
        ]
    );
}

#[test]
fn optimizer_fails_on_failing_conversion() {
    let plan = PhysicalPlan {
        nodes: vec![node(NodeKind::Other, Conversion::Unsupported, vec![]), node(NodeKind::Projection, Conversion::Fails, vec![0])],
    };
    assert!(matches!(HostToCuDFRule.optimize(plan, &enabled()), Err(PlanError::ConversionFailed(1))));
}

#[test]
fn optimizer_numbers_loads_from_zero() {
    let plan = PhysicalPlan {
        nodes: vec![
            node(NodeKind::Other, Conversion::Unsupported, vec![]),
            node(NodeKind::Sort, Conversion::Supported, vec![0]),
            node(NodeKind::Other, Conversion::Unsupported, vec![1]),
            node(NodeKind::Sort, Conversion::Supported, vec![2]),
        ],
    };
    let out = HostToCuDFRule.optimize(plan, &enabled()).expect("rewrites");
    let loads: Vec<usize> = out.nodes.iter().filter(|n| n.kind == NodeKind::CuDFLoad).map(|n| n.segment_id).collect();
    assert_eq!(loads, vec![0, 1]);
    let unloads: Vec<usize> = out.nodes.iter().filter(|n| n.kind == NodeKind::CuDFUnload).map(|n| n.segment_id).collect();
    assert_eq!(unloads, vec![0, 1]);
}

#[test]
fn optimizer_rule_name() {
    assert_eq!(HostToCuDFRule.name(), "HostToCuDFRule");
    assert!(!HostToCuDFRule.schema_check());
}

#[test]
fn optimizer_join_sides_keep_their_origin() {
    let plan = PhysicalPlan {
        nodes: vec![
            node(NodeKind::Other, Conversion::Unsupported, vec![]),
            node(NodeKind::Other, Conversion::Unsupported, vec![]),
            node(NodeKind::HashJoin, Conversion::Supported, vec![0, 1]),
        ],
    };
    let out = HostToCuDFRule.optimize(plan, &enabled()).expect("rewrites");
    let origins: Vec<Option<usize>> = out.nodes.iter().map(|n| n.origin).collect();
    assert_eq!(origins, vec![Some(0), Some(1), None, None, None, None, Some(2), None]);
    assert_eq!(out.nodes[2].children, vec![0]);
    assert_eq!(out.nodes[4].children, vec![1]);
    assert_eq!(out.nodes[6].children, vec![3, 5]);
}

#[test]
fn optimizer_links_a_plan_that_already_holds_cudf_operators() {
    let plan = PhysicalPlan {
        nodes: vec![
            node(NodeKind::Other, Conversion::Unsupported, vec![]),
            node(NodeKind::CuDFLoad, Conversion::Unsupported, vec![0]),
            node(NodeKind::Sort, Conversion::Supported, vec![1]),
            node(NodeKind::Other, Conversion::Unsupported, vec![2]),
        ],
    };
    let out = HostToCuDFRule.optimize(plan, &enabled()).expect("rewrites");
    assert_eq!(
        kinds(&out),
        vec![
            NodeKind::Other,
            NodeKind::CuDFLoad,
            NodeKind::CuDFSort,
            NodeKind::CuDFCoalesceBatches,
            NodeKind::CuDFUnload,
            NodeKind::Other,
        ]
    );
}

/// Node indices in depth-first post-order from the root.
fn dfs(plan: &PhysicalPlan, i: usize, out: &mut Vec<usize>) {
    for &c in &plan.nodes[i].children {
        dfs(plan, c, out);
    }
    out.push(i);
}

#[test]
fn optimizer_numbers_loads_depth_first() {
    // A cuDF join whose two inputs each hold a GPU segment under a host operator.
    let plan = PhysicalPlan {
        nodes: vec![
            node(NodeKind::Other, Conversion::Unsupported, vec![]),
            node(NodeKind::Sort, Conversion::Supported, vec![0]),
            node(NodeKind::Other, Conversion::Unsupported, vec![1]),
            node(NodeKind::Other, Conversion::Unsupported, vec![]),
            node(NodeKind::Sort, Conversion::Supported, vec![3]),
            node(NodeKind::Other, Conversion::Unsupported, vec![4]),
            node(NodeKind::HashJoin, Conversion::Supported, vec![2, 5]),
        ],
    };
    let out = HostToCuDFRule.optimize(plan, &enabled()).expect("rewrites");
    let mut order = Vec::new();
    dfs(&out, out.nodes.len() - 1, &mut order);
    let loads: Vec<usize> =
        order.iter().filter(|&&i| out.nodes[i].kind == NodeKind::CuDFLoad).map(|&i| out.nodes[i].segment_id).collect();
    assert_eq!(loads, vec![0, 1, 2, 3]);
}

#[test]
fn optimizer_keeps_a_load_over_a_host_coalesce() {
    let plan = PhysicalPlan {
        nodes: vec![
            node(NodeKind::Other, Conversion::Unsupported, vec![]),
            node(NodeKind::CoalesceBatches, Conversion::Unsupported, vec![0]),
            node(NodeKind::CuDFLoad, Conversion::Unsupported, vec![1]),
            node(NodeKind::Sort, Conversion::Supported, vec![2]),
        ],
    };
    let out = HostToCuDFRule.optimize(plan, &enabled()).expect("rewrites");
    assert_eq!(
        kinds(&out),
        vec![NodeKind::Other, NodeKind::CoalesceBatches, NodeKind::CuDFLoad, NodeKind::CuDFSort, NodeKind::CuDFUnload]
    );
}
