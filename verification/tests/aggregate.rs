use libcudf_rs::aggregate::{
    emits_state, normalizes_partial_state, output_layout, prepare_cudf_aggregate_parts,
    uses_merge_requests, AggregateCandidate, AggregateMode, AggregationOp, ColumnMapping,
    GroupByAggregation, GroupByShape, OutputColumn, PrepareError,
};
use libcudf_rs::aggregate_stream::{
    build_output_layout, check_concat_columns, check_group_keys, AggregateInput, AggregatePhase,
    AggregateStreamState, ChunkError, Flush, FlushOutcome, InputAction,
};
use libcudf_rs::codes::NullPolicy;
use libcudf_rs::binary_op::Operator;
use libcudf_rs::datatype::DataType;
use libcudf_rs::expr::{AggregateArg, CuDFExpr, PhysicalExpr};
use libcudf_rs::plan::Conversion;

#[test]
fn group_by_aggregations() {
    assert_eq!(AggregationOp::SUM.group_by(), GroupByAggregation::Sum);
    assert_eq!(AggregationOp::MIN.group_by(), GroupByAggregation::Min);
    assert_eq!(AggregationOp::MAX.group_by(), GroupByAggregation::Max);
    assert_eq!(AggregationOp::MEAN.group_by(), GroupByAggregation::Mean);
    assert_eq!(AggregationOp::COUNT.group_by(), GroupByAggregation::Count { null_policy: NullPolicy::Exclude });
    assert_eq!(AggregationOp::VARIANCE { ddof: 1 }.group_by(), GroupByAggregation::Variance { ddof: 1 });
    assert_eq!(AggregationOp::STD { ddof: 0 }.group_by(), GroupByAggregation::Std { ddof: 0 });
    assert_eq!(AggregationOp::NUNIQUE.group_by(), GroupByAggregation::NUnique { null_policy: NullPolicy::Exclude });
    assert_eq!(AggregationOp::MEDIAN.group_by(), GroupByAggregation::Median);
}

#[test]
fn mode_predicates() {
    assert!(uses_merge_requests(AggregateMode::Final));
    assert!(uses_merge_requests(AggregateMode::FinalPartitioned));
    assert!(!uses_merge_requests(AggregateMode::Partial));
    assert!(!uses_merge_requests(AggregateMode::Single));
    assert!(!uses_merge_requests(AggregateMode::SinglePartitioned));
    assert!(normalizes_partial_state(AggregateMode::Single));
    assert!(!normalizes_partial_state(AggregateMode::Final));
    assert!(emits_state(AggregateMode::Partial));
    assert!(!emits_state(AggregateMode::Single));
}

#[test]
fn column_mapping_sum_avg_max() {
    // SUM -> (0, 1), AVG -> (1, 2), MAX -> (3, 1)
    let m = ColumnMapping::new(&vec![1, 2, 1]);
    assert_eq!(m.ranges, vec![(0, 1), (1, 2), (3, 1)]);
    assert!(ColumnMapping::new(&vec![]).ranges.is_empty());
}

#[test]
fn output_layout_partial_emits_state_columns() {
    let l = output_layout(AggregateMode::Partial, 1, &vec![1, 2]);
    assert_eq!(
        l,
        vec![
            OutputColumn::GroupKey(0),
            OutputColumn::State { aggregate: 0, column: 0 },
            OutputColumn::State { aggregate: 1, column: 0 },
            OutputColumn::State { aggregate: 1, column: 1 },
        ]
    );
}

#[test]
fn output_layout_final_emits_one_column_per_aggregate() {
    let l = output_layout(AggregateMode::Final, 2, &vec![1, 2]);
    assert_eq!(
        l,
        vec![OutputColumn::GroupKey(0), OutputColumn::GroupKey(1), OutputColumn::Final(0), OutputColumn::Final(1)]
    );
}

#[test]
fn built_output_matches_schema_layout() {
    let counts = vec![2, 1, 3];
    let m = ColumnMapping::new(&counts);
    for mode in [AggregateMode::Partial, AggregateMode::Single, AggregateMode::FinalPartitioned] {
        assert_eq!(build_output_layout(mode, 2, &m), output_layout(mode, 2, &counts));
    }
}

/// An argument that converts as `c` says: a column converts, any other
/// expression is declined, and a binary expression over a failing literal fails.
fn arg(c: Conversion) -> PhysicalExpr {
    match c {
        Conversion::Supported => PhysicalExpr::Column(0),
        Conversion::Unsupported => PhysicalExpr::Other,
        Conversion::Fails => PhysicalExpr::Binary {
            left: Box::new(PhysicalExpr::Column(0)),
            op: Operator::Plus,
            right: Box::new(PhysicalExpr::Literal(Conversion::Fails)),
        },
    }
}

fn candidate(own: Vec<Conversion>, args: Vec<Conversion>) -> AggregateCandidate {
    AggregateCandidate {
        is_distinct: false,
        has_order_by: false,
        op: Some(AggregationOp::SUM),
        expressions: own.into_iter().map(arg).collect(),
        output_type: DataType::Int64,
        arg_types_known: true,
        input_types_supported: true,
        args: args.into_iter().map(arg).collect(),
    }
}

fn group() -> GroupByShape {
    GroupByShape { num_exprs: 1, is_single: true, all_columns: true }
}

fn declined(r: &Result<Option<libcudf_rs::aggregate::PreparedCuDFAggregate>, PrepareError>) -> bool {
    matches!(r, Ok(None))
}

#[test]
fn prepare_accepts_supported_aggregate() {
    let mut second = candidate(vec![Conversion::Supported], vec![]);
    second.op = Some(AggregationOp::COUNT);
    second.output_type = DataType::UInt64;
    second.args = vec![PhysicalExpr::Literal(Conversion::Supported)];
    let aggs = vec![candidate(vec![Conversion::Supported], vec![Conversion::Supported, Conversion::Supported]), second];
    let p = prepare_cudf_aggregate_parts(AggregateMode::Partial, group(), &aggs, true)
        .expect("no error")
        .expect("taken over");
    assert_eq!(p.mode, AggregateMode::Partial);
    assert_eq!(p.group_by, group());
    assert_eq!(p.aggs.len(), 2);
    assert_eq!((p.aggs[0].expr, p.aggs[0].op, p.aggs[0].output_type), (0, AggregationOp::SUM, DataType::Int64));
    assert_eq!(p.aggs[0].args.len(), 2);
    assert!(matches!(p.aggs[0].args[0], AggregateArg::CuDF(CuDFExpr::Column(0))));
    assert_eq!((p.aggs[1].expr, p.aggs[1].op, p.aggs[1].output_type), (1, AggregationOp::COUNT, DataType::UInt64));
    assert_eq!(p.aggs[1].args.len(), 1);
    assert!(matches!(p.aggs[1].args[0], AggregateArg::HostLiteral(Conversion::Supported)));
}

#[test]
fn prepare_needs_a_single_column_group_by() {
    let aggs = vec![candidate(vec![Conversion::Supported], vec![Conversion::Supported])];
    let no_group = GroupByShape { num_exprs: 0, is_single: true, all_columns: true };
    assert!(declined(&prepare_cudf_aggregate_parts(AggregateMode::Single, no_group, &aggs, true)));
    let sets = GroupByShape { num_exprs: 1, is_single: false, all_columns: true };
    assert!(declined(&prepare_cudf_aggregate_parts(AggregateMode::Single, sets, &aggs, true)));
    let expr = GroupByShape { num_exprs: 1, is_single: true, all_columns: false };
    assert!(declined(&prepare_cudf_aggregate_parts(AggregateMode::Single, expr, &aggs, true)));
}

#[test]
fn prepare_declines_distinct_before_building_arguments() {
    let mut a = candidate(vec![Conversion::Supported], vec![Conversion::Supported]);
    a.is_distinct = true;
    assert!(declined(&prepare_cudf_aggregate_parts(AggregateMode::Single, group(), &vec![a], false)));
    let mut b = candidate(vec![Conversion::Supported], vec![Conversion::Supported]);
    b.has_order_by = true;
    assert!(declined(&prepare_cudf_aggregate_parts(AggregateMode::Single, group(), &vec![b], true)));
}

#[test]
fn prepare_reports_failures_in_order() {
    let ok = candidate(vec![Conversion::Supported], vec![Conversion::Supported]);
    assert!(matches!(
        prepare_cudf_aggregate_parts(AggregateMode::Single, group(), &vec![], false),
        Err(PrepareError::Arguments)
    ));
    let failing = candidate(vec![Conversion::Fails], vec![Conversion::Supported]);
    assert!(matches!(
        prepare_cudf_aggregate_parts(AggregateMode::Single, group(), &vec![ok, failing], true),
        Err(PrepareError::Conversion { aggregate: 1 })
    ));
    let mut untyped = candidate(vec![Conversion::Supported], vec![Conversion::Supported]);
    untyped.arg_types_known = false;
    assert!(matches!(
        prepare_cudf_aggregate_parts(AggregateMode::Single, group(), &vec![untyped], true),
        Err(PrepareError::ArgumentTypes { aggregate: 0 })
    ));
    // A decline comes before a later failure.
    let declined_first = candidate(vec![Conversion::Unsupported], vec![Conversion::Supported]);
    let failing2 = candidate(vec![Conversion::Supported], vec![Conversion::Fails]);
    assert!(declined(&prepare_cudf_aggregate_parts(AggregateMode::Single, group(), &vec![declined_first, failing2], true)));
    // Within an argument list the first decline or failure decides.
    let mixed = candidate(vec![Conversion::Supported], vec![Conversion::Unsupported, Conversion::Fails]);
    assert!(declined(&prepare_cudf_aggregate_parts(AggregateMode::Final, group(), &vec![mixed], true)));
}

#[test]
fn prepare_declines_unsupported_types_and_functions() {
    let mut types = candidate(vec![Conversion::Supported], vec![Conversion::Fails]);
    types.input_types_supported = false;
    assert!(declined(&prepare_cudf_aggregate_parts(AggregateMode::Single, group(), &vec![types], true)));
    let mut host_fn = candidate(vec![Conversion::Fails], vec![Conversion::Fails]);
    host_fn.op = None;
    assert!(declined(&prepare_cudf_aggregate_parts(AggregateMode::Single, group(), &vec![host_fn], true)));
}

#[test]
fn aggregate_stream_flushes_at_the_byte_budget() {
    let mut s = AggregateStreamState::new(100);
    assert_eq!(s.on_input(AggregateInput::Batch { bytes: 60 }), InputAction::Hold { flush: None });
    assert_eq!(s.pending_batches, 1);
    assert_eq!(s.on_input(AggregateInput::Batch { bytes: 40 }), InputAction::Hold { flush: Some(Flush::Store) });
    assert_eq!(s.pending_batches, 2);
    s.flushed(FlushOutcome::Done);
    assert_eq!(s.pending_batches, 0);
    assert_eq!(s.pending_bytes, 0);
    assert!(s.has_running);
    assert_eq!(s.on_input(AggregateInput::Batch { bytes: 500 }), InputAction::Hold { flush: Some(Flush::Merge) });
    s.flushed(FlushOutcome::Done);
    assert_eq!(s.on_input(AggregateInput::Batch { bytes: 1 }), InputAction::Hold { flush: None });
    assert_eq!(s.on_input(AggregateInput::Error), InputAction::PassError);
    assert_eq!(s.on_input(AggregateInput::End), InputAction::Produce);
    assert_eq!(s.phase, AggregatePhase::ProducingOutput);
    assert_eq!(s.produce(), Some(Flush::Merge));
    s.flushed(FlushOutcome::Done);
    assert_eq!(s.produce(), None);
    assert!(s.take_output());
    s.finish();
    assert_eq!(s.phase, AggregatePhase::Done);
    assert!(!s.has_running);
}

#[test]
fn aggregate_stream_zero_budget_flushes_every_batch() {
    let mut s = AggregateStreamState::new(0);
    assert_eq!(s.chunk_target_bytes, 1);
    assert_eq!(s.on_input(AggregateInput::Batch { bytes: 0 }), InputAction::Hold { flush: None });
    assert_eq!(s.on_input(AggregateInput::Batch { bytes: 1 }), InputAction::Hold { flush: Some(Flush::Store) });
}

#[test]
fn aggregate_stream_without_input_emits_nothing() {
    let mut s = AggregateStreamState::new(10);
    assert_eq!(s.on_input(AggregateInput::End), InputAction::Produce);
    assert_eq!(s.produce(), None);
    assert!(!s.take_output());
    s.finish();
    assert_eq!(s.phase, AggregatePhase::Done);
}

#[test]
fn aggregate_stream_saturates_pending_bytes() {
    let mut s = AggregateStreamState::new(usize::MAX);
    s.on_input(AggregateInput::Batch { bytes: usize::MAX - 1 });
    assert_eq!(s.on_input(AggregateInput::Batch { bytes: 5 }), InputAction::Hold { flush: Some(Flush::Store) });
    assert_eq!(s.pending_bytes, usize::MAX);
}

#[test]
fn aggregate_stream_failed_flushes() {
    let mut s = AggregateStreamState::new(10);
    s.on_input(AggregateInput::Batch { bytes: 20 });
    // A failed concatenation keeps the batches pending; the next batch flushes again.
    s.flushed(FlushOutcome::ConcatFailed);
    assert_eq!(s.pending_batches, 1);
    assert_eq!(s.pending_bytes, 20);
    assert_eq!(s.on_input(AggregateInput::Batch { bytes: 1 }), InputAction::Hold { flush: Some(Flush::Store) });
    // A failed chunk aggregation drops the batches and keeps no running state.
    s.flushed(FlushOutcome::ChunkFailed);
    assert_eq!((s.pending_batches, s.pending_bytes, s.has_running), (0, 0, false));
    s.on_input(AggregateInput::Batch { bytes: 10 });
    s.flushed(FlushOutcome::Done);
    assert!(s.has_running);
    // A failed merge loses the running state too.
    assert_eq!(s.on_input(AggregateInput::Batch { bytes: 10 }), InputAction::Hold { flush: Some(Flush::Merge) });
    s.flushed(FlushOutcome::MergeFailed);
    assert_eq!((s.pending_batches, s.has_running), (0, false));
    assert_eq!(s.on_input(AggregateInput::End), InputAction::Produce);
    assert_eq!(s.produce(), None);
    assert!(!s.take_output());
}

#[test]
fn chunk_checks() {
    assert_eq!(check_group_keys(2, &vec![true]), Err(ChunkError::GroupingSets { sets: 2 }));
    assert_eq!(check_group_keys(1, &vec![true, false, false]), Err(ChunkError::KeyNotOnGpu { column: 1 }));
    assert_eq!(check_group_keys(1, &vec![true, true]), Ok(()));
    let batches = vec![vec![true, true], vec![true, false], vec![false, true]];
    assert_eq!(check_concat_columns(2, &batches), Err(ChunkError::ColumnNotOnGpu { column: 0, batch: 2 }));
    assert_eq!(check_concat_columns(2, &vec![vec![true, true]]), Ok(()));
}
