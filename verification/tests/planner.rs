use libcudf_rs::config::ConfigOptions;
use libcudf_rs::plan::{check_wf, Conversion, NodeKind, PhysicalPlan, PlanError, PlanNode};
use libcudf_rs::planner::{
    count_child_entries, CuDFConfig, HostToCuDFRule, PlannerRule, SessionStateBuilder,
    SessionStateBuilderExt,
};

fn node(kind: NodeKind, conversion: Conversion, children: Vec<usize>) -> PlanNode {
    PlanNode {
        kind,
        conversion,
        children,
        segment_id: 0,
        preserve_partitioning: false,
        batch_size: 0,
        aggregate_input_schema: false,
        origin: None,
    }
}

fn kinds(plan: &PhysicalPlan) -> Vec<NodeKind> {
    plan.nodes.iter().map(|n| n.kind).collect()
}

fn options(cfg: CuDFConfig) -> ConfigOptions<CuDFConfig> {
    ConfigOptions { target_partitions: 1, extension: Some(cfg) }
}

#[test]
fn config_defaults() {
    let c = CuDFConfig::default();
    assert!(c.enable);
    assert_eq!(c.aggregate_chunk_target_bytes, 256 * 1024 * 1024);
    assert!(c.pinned_input);
    assert!(!c.cuda_streams);
}

#[test]
fn config_from_options() {
    let none: ConfigOptions<CuDFConfig> = ConfigOptions { target_partitions: 1, extension: None };
    assert!(CuDFConfig::from_config_options(&none).is_err());
    let mut opts = options(CuDFConfig::default());
    assert!(CuDFConfig::from_config_options(&opts).expect("registered").enable);
    CuDFConfig::from_config_options_mut(&mut opts).expect("registered").cuda_streams = true;
    assert!(CuDFConfig::from_config_options(&opts).expect("registered").cuda_streams);
}

#[test]
fn sort_moves_to_gpu_between_load_and_unload() {
    let plan = PhysicalPlan {
        nodes: vec![node(NodeKind::Other, Conversion::Unsupported, vec![]), node(NodeKind::Sort, Conversion::Supported, vec![0])],
    };
    assert!(check_wf(&plan));
    let out = HostToCuDFRule.optimize(plan, &options(CuDFConfig::default())).expect("rewrites");
    assert_eq!(kinds(&out), vec![NodeKind::Other, NodeKind::CuDFLoad, NodeKind::CuDFSort, NodeKind::CuDFUnload]);
    assert_eq!(out.nodes[1].children, vec![0]);
    assert_eq!(out.nodes[2].children, vec![1]);
    assert_eq!(out.nodes[3].children, vec![2]);
    assert!(check_wf(&out));
}

#[test]
fn filter_and_sort_share_one_gpu_segment() {
    let plan = PhysicalPlan {
        nodes: vec![
            node(NodeKind::Other, Conversion::Unsupported, vec![]),
            node(NodeKind::Filter, Conversion::Supported, vec![0]),
            node(NodeKind::Sort, Conversion::Supported, vec![1]),
        ],
    };
    let out = HostToCuDFRule.optimize(plan, &options(CuDFConfig::default())).expect("rewrites");
    assert_eq!(
        kinds(&out),
        vec![NodeKind::Other, NodeKind::CuDFLoad, NodeKind::CuDFFilter, NodeKind::CuDFSort, NodeKind::CuDFUnload]
    );
}

#[test]
fn unsupported_aggregate_stays_on_host() {
    let plan = PhysicalPlan {
        nodes: vec![node(NodeKind::Other, Conversion::Unsupported, vec![]), node(NodeKind::Aggregate, Conversion::Unsupported, vec![0])],
    };
    let out = HostToCuDFRule.optimize(plan, &options(CuDFConfig::default())).expect("rewrites");
    assert_eq!(kinds(&out), vec![NodeKind::Other, NodeKind::Aggregate]);
}

#[test]
fn disabled_rule_returns_plan_unchanged() {
    let mut cfg = CuDFConfig::default();
    cfg.enable = false;
    let plan = PhysicalPlan {
        nodes: vec![node(NodeKind::Other, Conversion::Unsupported, vec![]), node(NodeKind::Sort, Conversion::Supported, vec![0])],
    };
    let out = HostToCuDFRule.optimize(plan, &options(cfg)).expect("unchanged");
    assert_eq!(kinds(&out), vec![NodeKind::Other, NodeKind::Sort]);
    let plan2 = PhysicalPlan { nodes: vec![node(NodeKind::Sort, Conversion::Supported, vec![])] };
    let none: ConfigOptions<CuDFConfig> = ConfigOptions { target_partitions: 1, extension: None };
    assert_eq!(kinds(&HostToCuDFRule.optimize(plan2, &none).expect("unchanged")), vec![NodeKind::Sort]);
}

#[test]
fn failing_conversion_fails_the_rewrite() {
    let plan = PhysicalPlan {
        nodes: vec![node(NodeKind::Other, Conversion::Unsupported, vec![]), node(NodeKind::Filter, Conversion::Fails, vec![0])],
    };
    assert!(matches!(HostToCuDFRule.optimize(plan, &options(CuDFConfig::default())), Err(PlanError::ConversionFailed(1))));
}

#[test]
fn loads_preserve_partitioning_with_streams() {
    let mut cfg = CuDFConfig::default();
    cfg.cuda_streams = true;
    let plan = PhysicalPlan {
        nodes: vec![node(NodeKind::Other, Conversion::Unsupported, vec![]), node(NodeKind::Sort, Conversion::Supported, vec![0])],
    };
    let out = HostToCuDFRule.optimize(plan, &options(cfg)).expect("rewrites");
    assert!(out.nodes[1].preserve_partitioning);
}

#[test]
fn plan_checks() {
    let bad = PhysicalPlan { nodes: vec![node(NodeKind::Sort, Conversion::Supported, vec![0])] };
    assert!(!check_wf(&bad));
    assert!(!check_wf(&PhysicalPlan { nodes: vec![] }));
    let join_one_child = PhysicalPlan {
        nodes: vec![node(NodeKind::Other, Conversion::Unsupported, vec![]), node(NodeKind::HashJoin, Conversion::Supported, vec![0])],
    };
    assert!(!check_wf(&join_one_child));
    let ok = PhysicalPlan {
        nodes: vec![
            node(NodeKind::Other, Conversion::Unsupported, vec![]),
            node(NodeKind::Other, Conversion::Unsupported, vec![]),
            node(NodeKind::HashJoin, Conversion::Supported, vec![0, 1]),
        ],
    };
    assert!(check_wf(&ok));
    assert_eq!(count_child_entries(&ok), Some(2));
}

#[test]
fn with_cudf_planner_installs_rules() {
    let b = SessionStateBuilder { config: None, default_target_partitions: 8, physical_optimizer_rules: vec![] };
    let b = b.with_cudf_planner();
    assert_eq!(b.physical_optimizer_rules, vec![PlannerRule::RescaleLeafs(8), PlannerRule::HostToCuDF]);
    let cfg = b.config.expect("options installed");
    assert_eq!(cfg.target_partitions, 1);
    assert!(cfg.extension.expect("cuDF options").enable);
}

#[test]
fn with_cudf_planner_keeps_partitions_with_streams() {
    let mut ext = CuDFConfig::default();
    ext.cuda_streams = true;
    let b = SessionStateBuilder {
        config: Some(ConfigOptions { target_partitions: 6, extension: Some(ext) }),
        default_target_partitions: 8,
        physical_optimizer_rules: vec![PlannerRule::HostToCuDF],
    };
    let b = b.with_cudf_planner();
    assert_eq!(b.config.expect("options").target_partitions, 6);
    assert_eq!(
        b.physical_optimizer_rules,
        vec![PlannerRule::HostToCuDF, PlannerRule::RescaleLeafs(6), PlannerRule::HostToCuDF]
    );
}

fn segments(plan: &PhysicalPlan) -> Vec<usize> {
    plan.nodes.iter().map(|n| n.segment_id).collect()
}

#[test]
fn stream_aware_segment_gets_one_id() {
    let plan = PhysicalPlan {
        nodes: vec![node(NodeKind::Other, Conversion::Unsupported, vec![]), node(NodeKind::Sort, Conversion::Supported, vec![0])],
    };
    let out = HostToCuDFRule.optimize(plan, &options(CuDFConfig::default())).expect("rewrites");
    assert_eq!(segments(&out), vec![0, 1, 1, 1]);
}

#[test]
fn segments_separated_by_host_work_get_fresh_ids() {
    let plan = PhysicalPlan {
        nodes: vec![
            node(NodeKind::Other, Conversion::Unsupported, vec![]),
            node(NodeKind::Sort, Conversion::Supported, vec![0]),
            node(NodeKind::Other, Conversion::Unsupported, vec![1]),
            node(NodeKind::Sort, Conversion::Supported, vec![2]),
        ],
    };
    let out = HostToCuDFRule.optimize(plan, &options(CuDFConfig::default())).expect("rewrites");
    assert_eq!(
        kinds(&out),
        vec![
            NodeKind::Other,
            NodeKind::CuDFLoad,
            NodeKind::CuDFSort,
            NodeKind::CuDFUnload,
            NodeKind::Other,
            NodeKind::CuDFLoad,
            NodeKind::CuDFSort,
            NodeKind::CuDFUnload,
        ]
    );
    assert_eq!(segments(&out), vec![0, 1, 1, 1, 0, 2, 2, 2]);
}

#[test]
fn segment_with_a_join_uses_the_default_stream() {
    let plan = PhysicalPlan {
        nodes: vec![
            node(NodeKind::Other, Conversion::Unsupported, vec![]),
            node(NodeKind::Other, Conversion::Unsupported, vec![]),
            node(NodeKind::HashJoin, Conversion::Supported, vec![0, 1]),
        ],
    };
    let out = HostToCuDFRule.optimize(plan, &options(CuDFConfig::default())).expect("rewrites");
    assert_eq!(
        kinds(&out),
        vec![
            NodeKind::Other,
            NodeKind::Other,
            NodeKind::CuDFLoad,
            NodeKind::CuDFLoad,
            NodeKind::CuDFHashJoin,
            NodeKind::CuDFUnload,
        ]
    );
    assert_eq!(segments(&out), vec![0, 0, 0, 0, 0, 0]);
    let origins: Vec<Option<usize>> = out.nodes.iter().map(|n| n.origin).collect();
    assert_eq!(origins, vec![Some(0), Some(1), None, None, Some(2), None]);
    assert_eq!(out.nodes[2].children, vec![0]);
    assert_eq!(out.nodes[3].children, vec![1]);
    assert_eq!(out.nodes[4].children, vec![2, 3]);
}

#[test]
fn planner_rule_name() {
    assert_eq!(HostToCuDFRule.name(), "HostToCuDFRule");
    assert!(!HostToCuDFRule.schema_check());
}

#[test]
fn planner_links_a_plan_that_already_holds_cudf_operators() {
    let plan = PhysicalPlan {
        nodes: vec![
            node(NodeKind::Other, Conversion::Unsupported, vec![]),
            node(NodeKind::CuDFLoad, Conversion::Unsupported, vec![0]),
            node(NodeKind::Sort, Conversion::Supported, vec![1]),
            node(NodeKind::Other, Conversion::Unsupported, vec![2]),
        ],
    };
    let out = HostToCuDFRule.optimize(plan, &options(CuDFConfig::default())).expect("rewrites");
    assert_eq!(
        kinds(&out),
        vec![NodeKind::Other, NodeKind::CuDFLoad, NodeKind::CuDFSort, NodeKind::CuDFUnload, NodeKind::Other]
    );
    assert_eq!(out.nodes[3].children, vec![2]);
    assert_eq!(out.nodes[4].children, vec![3]);
}

#[test]
fn planner_numbers_stream_segments_depth_first() {
    // Two GPU sorts under host operators, joined on the host: each sort's
    // segment is stream-eligible and numbered in depth-first order.
    let plan = PhysicalPlan {
        nodes: vec![
            node(NodeKind::Other, Conversion::Unsupported, vec![]),
            node(NodeKind::Sort, Conversion::Supported, vec![0]),
            node(NodeKind::Other, Conversion::Unsupported, vec![1]),
            node(NodeKind::Other, Conversion::Unsupported, vec![]),
            node(NodeKind::Sort, Conversion::Supported, vec![3]),
            node(NodeKind::Other, Conversion::Unsupported, vec![4]),
            // The left input (node 5) stands after the right one (node 2).
            node(NodeKind::HashJoin, Conversion::Unsupported, vec![5, 2]),
        ],
    };
    let mut ext = CuDFConfig::default();
    ext.cuda_streams = true;
    let out = HostToCuDFRule.optimize(plan, &options(ext)).expect("rewrites");
    let mut order = Vec::new();
    fn dfs(plan: &PhysicalPlan, i: usize, out: &mut Vec<usize>) {
        for &c in &plan.nodes[i].children {
            dfs(plan, c, out);
        }
        out.push(i);
    }
    dfs(&out, out.nodes.len() - 1, &mut order);
    let loads: Vec<usize> =
        order.iter().filter(|&&i| out.nodes[i].kind == NodeKind::CuDFLoad).map(|&i| out.nodes[i].segment_id).collect();
    assert_eq!(loads, vec![1, 2]);
    // In the node array the right input's load comes first.
    let by_index: Vec<usize> =
        out.nodes.iter().filter(|n| n.kind == NodeKind::CuDFLoad).map(|n| n.segment_id).collect();
    assert_eq!(by_index, vec![2, 1]);
}
