//! GPU group-by aggregation: the cuDF aggregations, the aggregate modes, where
//! each aggregate's state columns lie, and which DataFusion aggregates a cuDF
//! aggregate can take over.
use vstd::prelude::*;
use crate::codes::NullPolicy;
use crate::datatype::DataType;
use crate::expr::{expr_to_cudf_aggregate_arg, spec_aggregate_arg, AggregateArg, ExprError, PhysicalExpr};

verus! {

/// Types of aggregation operations
///
/// Specifies the aggregation function to apply to grouped values.
#[allow(non_camel_case_types)]
#[derive(Clone, Copy, PartialEq, Eq, Debug, Structural)]
pub enum AggregationOp {
    /// Sum of values
    SUM,
    /// Minimum value
    MIN,
    /// Maximum value
    MAX,
    /// Arithmetic mean
    MEAN,
    /// Count of non-null values
    COUNT,
    /// Variance with delta degrees of freedom
    ///
    /// - `ddof = 0`: Population std dev
    /// - `ddof = 1`: Sample std dev
    VARIANCE { ddof: i32 },
    /// Standard deviation with delta degrees of freedom
    ///
    /// - `ddof = 0`: Population std dev
    /// - `ddof = 1`: Sample std dev
    STD { ddof: i32 },
    /// Count of distinct, non-null values
    NUNIQUE,
    /// Median value
    MEDIAN,
}

/// The cuDF group-by aggregation to create: which of cuDF's factory functions,
/// with which arguments.
#[derive(Clone, Copy, PartialEq, Eq, Debug, Structural)]
pub enum GroupByAggregation {
    Sum,
    Min,
    Max,
    Mean,
    Count { null_policy: NullPolicy },
    Variance { ddof: i32 },
    Std { ddof: i32 },
    NUnique { null_policy: NullPolicy },
    Median,
}

impl AggregationOp {
    /// The cuDF aggregation an operation is carried out by; the counts leave
    /// nulls out.
    pub open spec fn spec_group_by(self) -> GroupByAggregation {
        match self {
            AggregationOp::SUM => GroupByAggregation::Sum,
            AggregationOp::MIN => GroupByAggregation::Min,
            AggregationOp::MAX => GroupByAggregation::Max,
            AggregationOp::MEAN => GroupByAggregation::Mean,
            AggregationOp::COUNT => GroupByAggregation::Count { null_policy: NullPolicy::Exclude },
            AggregationOp::VARIANCE { ddof } => GroupByAggregation::Variance { ddof },
            AggregationOp::STD { ddof } => GroupByAggregation::Std { ddof },
            AggregationOp::NUNIQUE => GroupByAggregation::NUnique { null_policy: NullPolicy::Exclude },
            AggregationOp::MEDIAN => GroupByAggregation::Median,
        }
    }

    /// Create an aggregation for use in group-by operations
    pub fn group_by(&self) -> (r: GroupByAggregation)
        ensures
            r == self.spec_group_by(),
    {
        match *self {
            AggregationOp::SUM => GroupByAggregation::Sum,
            AggregationOp::MIN => GroupByAggregation::Min,
            AggregationOp::MAX => GroupByAggregation::Max,
            AggregationOp::MEAN => GroupByAggregation::Mean,
            AggregationOp::COUNT => GroupByAggregation::Count { null_policy: NullPolicy::Exclude },
            AggregationOp::VARIANCE { ddof } => GroupByAggregation::Variance { ddof },
            AggregationOp::STD { ddof } => GroupByAggregation::Std { ddof },
            AggregationOp::NUNIQUE => GroupByAggregation::NUnique {
                null_policy: NullPolicy::Exclude,
            },
            AggregationOp::MEDIAN => GroupByAggregation::Median,
        }
    }
}

/// Distinct operations are carried out by distinct cuDF aggregations.
pub proof fn lemma_group_by_injective(a: AggregationOp, b: AggregationOp)
    ensures
        a.spec_group_by() == b.spec_group_by() ==> a == b,
{
}

/// DataFusion's aggregate modes.
#[derive(Clone, Copy, PartialEq, Eq, Debug, Structural)]
pub enum AggregateMode {
    /// Computes partial state from raw input.
    Partial,
    /// Merges partial states into final results.
    Final,
    /// Like `Final`, on partitioned input.
    FinalPartitioned,
    /// Computes final results from raw input in one step.
    Single,
    /// Like `Single`, on partitioned input.
    SinglePartitioned,
}

/// Whether a chunk is aggregated with the merge requests: the input holds
/// partial states (Final/FinalPartitioned); otherwise it holds raw data and is
/// aggregated with the partial requests.
pub open spec fn spec_uses_merge_requests(mode: AggregateMode) -> bool {
    mode is Final || mode is FinalPartitioned
}

pub fn uses_merge_requests(mode: AggregateMode) -> (r: bool)
    ensures
        r == spec_uses_merge_requests(mode),
{
    match mode {
        AggregateMode::Final | AggregateMode::FinalPartitioned => true,
        _ => false,
    }
}

/// Whether a chunk's state columns are normalized before the merge: exactly
/// where the chunk was aggregated from raw data.
pub fn normalizes_partial_state(mode: AggregateMode) -> (r: bool)
    ensures
        r == !spec_uses_merge_requests(mode),
{
    !uses_merge_requests(mode)
}

/// Whether the output holds the raw state columns (Partial mode emits
/// intermediate state, e.g. AVG emits [count, sum]) rather than one final result
/// column per aggregate.
pub fn emits_state(mode: AggregateMode) -> (r: bool)
    ensures
        r == (mode is Partial),
{
    match mode {
        AggregateMode::Partial => true,
        _ => false,
    }
}

/// Sum of the first `n` counts.
pub open spec fn prefix_sum(counts: Seq<usize>, n: int) -> int
    decreases n,
{
    if n <= 0 {
        0
    } else {
        prefix_sum(counts, n - 1) + counts[n - 1]
    }
}

/// Maps each aggregation op to its slice of the flat state columns: its start
/// and its number of columns.
///
/// Example for `[SUM, AVG, MAX]`, `SUM -> (0, 1), AVG -> (1, 2), MAX -> (3, 1)`.
pub struct ColumnMapping {
    pub ranges: Vec<(usize, usize)>,
}

proof fn lemma_prefix_sum_monotonic(counts: Seq<usize>, i: int, j: int)
    requires
        0 <= i <= j <= counts.len(),
    ensures
        0 <= prefix_sum(counts, i) <= prefix_sum(counts, j),
    decreases j,
{
    if i < j {
        lemma_prefix_sum_monotonic(counts, i, j - 1);
    } else if i > 0 {
        lemma_prefix_sum_monotonic(counts, i - 1, i - 1);
    }
}

impl ColumnMapping {
    /// The mapping for aggregates with these numbers of state columns, in order.
    pub fn new(state_counts: &Vec<usize>) -> (r: ColumnMapping)
        requires
            prefix_sum(state_counts@, state_counts@.len() as int) <= usize::MAX,
        ensures
            r.ranges.len() == state_counts.len(),
            forall|i: int|
                0 <= i < state_counts.len() ==> #[trigger] r.ranges@[i] == (
                    prefix_sum(state_counts@, i) as usize,
                    state_counts@[i],
                ),
    {
        let mut ranges: Vec<(usize, usize)> = Vec::new();
        let mut offset: usize = 0;
        let mut i: usize = 0;
        while i < state_counts.len()
            invariant
                i <= state_counts.len(),
                ranges.len() == i,
                offset == prefix_sum(state_counts@, i as int),
                prefix_sum(state_counts@, state_counts@.len() as int) <= usize::MAX,
                forall|j: int|
                    0 <= j < i ==> #[trigger] ranges@[j] == (
                        prefix_sum(state_counts@, j) as usize,
                        state_counts@[j],
                    ),
            decreases state_counts.len() - i,
        {
            proof {
                lemma_prefix_sum_monotonic(state_counts@, i as int + 1, state_counts@.len() as int);
            }
            let count = state_counts[i];
            ranges.push((offset, count));
            offset = offset + count;
            i = i + 1;
        }
        ColumnMapping { ranges }
    }
}

/// The state-column slices tile the flat state columns: the first starts at 0,
/// each starts where the one before ends, and they end at the total.
pub proof fn lemma_column_mapping_tiles(counts: Seq<usize>, i: int)
    requires
        0 <= i < counts.len(),
    ensures
        prefix_sum(counts, 0) == 0,
        prefix_sum(counts, i) + counts[i] == prefix_sum(counts, i + 1),
        prefix_sum(counts, i + 1) <= prefix_sum(counts, counts.len() as int),
{
    lemma_prefix_sum_monotonic(counts, i + 1, counts.len() as int);
}

/// One column of an aggregate's output batch.
#[derive(Clone, Copy, PartialEq, Eq, Debug, Structural)]
pub enum OutputColumn {
    /// The group key column of this group-by expression.
    GroupKey(usize),
    /// This state column of this aggregate (Partial mode).
    State { aggregate: usize, column: usize },
    /// The final result of this aggregate.
    Final(usize),
}

/// The columns of the first `n` aggregates' states, aggregate by aggregate.
pub open spec fn state_columns(counts: Seq<usize>, n: int) -> Seq<OutputColumn>
    decreases n,
{
    if n <= 0 {
        Seq::empty()
    } else {
        state_columns(counts, n - 1) + Seq::new(
            counts[n - 1] as nat,
            |j: int| OutputColumn::State { aggregate: (n - 1) as usize, column: j as usize },
        )
    }
}

/// The output columns of an aggregate: the group keys, then each aggregate's
/// state columns in Partial mode, or each aggregate's result otherwise.
pub open spec fn spec_output_layout(mode: AggregateMode, num_group_exprs: nat, state_counts: Seq<usize>) -> Seq<
    OutputColumn,
> {
    Seq::new(num_group_exprs, |i: int| OutputColumn::GroupKey(i as usize)) + if mode is Partial {
        state_columns(state_counts, state_counts.len() as int)
    } else {
        Seq::new(state_counts.len(), |i: int| OutputColumn::Final(i as usize))
    }
}

proof fn lemma_state_columns(counts: Seq<usize>, n: int)
    requires
        0 <= n <= counts.len(),
    ensures
        state_columns(counts, n).len() == prefix_sum(counts, n),
        forall|a: int, c: int|
            0 <= a < n && 0 <= c < counts[a] ==> #[trigger] state_columns(counts, n)[prefix_sum(counts, a) + c]
                == (OutputColumn::State { aggregate: a as usize, column: c as usize }),
        forall|x: int| 0 <= x < state_columns(counts, n).len() ==> #[trigger] state_columns(counts, n)[x] is State,
    decreases n,
{
    if n > 0 {
        lemma_state_columns(counts, n - 1);
        let prev = state_columns(counts, n - 1);
        let last = Seq::new(
            counts[n - 1] as nat,
            |j: int| OutputColumn::State { aggregate: (n - 1) as usize, column: j as usize },
        );
        assert(state_columns(counts, n) == prev + last);
        assert forall|a: int, c: int| 0 <= a < n && 0 <= c < counts[a] implies #[trigger] state_columns(counts, n)[
            prefix_sum(counts, a) + c] == (OutputColumn::State { aggregate: a as usize, column: c as usize }) by {
            lemma_prefix_sum_monotonic(counts, 0, a);
            if a < n - 1 {
                lemma_prefix_sum_monotonic(counts, a + 1, n - 1);
                assert(prefix_sum(counts, a + 1) == prefix_sum(counts, a) + counts[a]);
                assert((prev + last)[prefix_sum(counts, a) + c] == prev[prefix_sum(counts, a) + c]);
            } else {
                assert((prev + last)[prefix_sum(counts, a) + c] == last[c]);
            }
        }
        assert forall|x: int| 0 <= x < state_columns(counts, n).len() implies #[trigger] state_columns(counts, n)[x] is State by {
            if x < prev.len() {
                assert((prev + last)[x] == prev[x]);
            } else {
                assert((prev + last)[x] == last[x - prev.len()]);
            }
        }
    }
}

/// The output of an aggregate is its group keys, in order, followed by raw
/// state columns exactly in Partial mode: there every aggregate's state
/// columns, aggregate after aggregate; in every other mode (Single, Final and
/// their partitioned forms) one final result per aggregate, in order.
pub proof fn lemma_output_layout_by_mode(mode: AggregateMode, num_group_exprs: nat, state_counts: Seq<usize>)
    ensures
        ({
            let out = spec_output_layout(mode, num_group_exprs, state_counts);
            let k = num_group_exprs as int;
            &&& forall|i: int| 0 <= i < k ==> #[trigger] out[i] == OutputColumn::GroupKey(i as usize)
            &&& !(mode is Partial) ==> {
                &&& out.len() == k + state_counts.len()
                &&& forall|a: int| 0 <= a < state_counts.len() ==> #[trigger] out[k + a] == OutputColumn::Final(a as usize)
            }
            &&& mode is Partial ==> {
                &&& out.len() == k + prefix_sum(state_counts, state_counts.len() as int)
                &&& forall|a: int, c: int|
                    0 <= a < state_counts.len() && 0 <= c < state_counts[a] ==> #[trigger] out[k + prefix_sum(
                        state_counts,
                        a,
                    ) + c] == (OutputColumn::State { aggregate: a as usize, column: c as usize })
            }
            &&& forall|x: int| k <= x < out.len() ==> ((#[trigger] out[x] is State) <==> mode is Partial)
        }),
{
    let k = num_group_exprs as int;
    let keys = Seq::new(num_group_exprs, |i: int| OutputColumn::GroupKey(i as usize));
    let n = state_counts.len() as int;
    lemma_state_columns(state_counts, n);
    let rest = if mode is Partial {
        state_columns(state_counts, n)
    } else {
        Seq::new(state_counts.len(), |i: int| OutputColumn::Final(i as usize))
    };
    let out = spec_output_layout(mode, num_group_exprs, state_counts);
    assert(out == keys + rest);
    assert forall|i: int| 0 <= i < k implies #[trigger] out[i] == OutputColumn::GroupKey(i as usize) by {
        assert((keys + rest)[i] == keys[i]);
    }
    assert forall|x: int| k <= x < out.len() implies ((#[trigger] out[x] is State) <==> mode is Partial) by {
        assert((keys + rest)[x] == rest[x - k]);
    }
    if !(mode is Partial) {
        assert forall|a: int| 0 <= a < state_counts.len() implies #[trigger] out[k + a] == OutputColumn::Final(a as usize) by {
            assert((keys + rest)[k + a] == rest[a]);
        }
    } else {
        assert forall|a: int, c: int|
            0 <= a < state_counts.len() && 0 <= c < state_counts[a] implies #[trigger] out[k + prefix_sum(state_counts, a)
                + c] == (OutputColumn::State { aggregate: a as usize, column: c as usize }) by {
            lemma_prefix_sum_monotonic(state_counts, a + 1, n);
            lemma_prefix_sum_monotonic(state_counts, 0, a);
            assert(prefix_sum(state_counts, a + 1) == prefix_sum(state_counts, a) + state_counts[a]);
            assert(state_columns(state_counts, n)[prefix_sum(state_counts, a) + c] == (OutputColumn::State {
                aggregate: a as usize,
                column: c as usize,
            }));
            assert((keys + rest)[k + prefix_sum(state_counts, a) + c] == rest[prefix_sum(state_counts, a) + c]);
        }
    }
}

/// The output columns of an aggregate with `num_group_exprs` group-by
/// expressions and aggregates with these numbers of state columns.
pub fn output_layout(mode: AggregateMode, num_group_exprs: usize, state_counts: &Vec<usize>) -> (r: Vec<
    OutputColumn,
>)
    ensures
        r@ == spec_output_layout(mode, num_group_exprs as nat, state_counts@),
{
    let mut out: Vec<OutputColumn> = Vec::new();
    let mut g: usize = 0;
    while g < num_group_exprs
        invariant
            g <= num_group_exprs,
            out@ == Seq::new(g as nat, |i: int| OutputColumn::GroupKey(i as usize)),
        decreases num_group_exprs - g,
    {
        out.push(OutputColumn::GroupKey(g));
        g = g + 1;
        assert(out@ =~= Seq::new(g as nat, |i: int| OutputColumn::GroupKey(i as usize)));
    }
    let ghost keys = out@;
    let partial = emits_state(mode);
    let mut a: usize = 0;
    while a < state_counts.len()
        invariant
            a <= state_counts.len(),
            keys == Seq::new(num_group_exprs as nat, |i: int| OutputColumn::GroupKey(i as usize)),
            partial == (mode is Partial),
            out@ == keys + if partial {
                state_columns(state_counts@, a as int)
            } else {
                Seq::new(a as nat, |i: int| OutputColumn::Final(i as usize))
            },
        decreases state_counts.len() - a,
    {
        if partial {
            let ghost before = out@;
            let count = state_counts[a];
            let mut c: usize = 0;
            while c < count
                invariant
                    c <= count,
                    out@ == before + Seq::new(
                        c as nat,
                        |j: int| OutputColumn::State { aggregate: a, column: j as usize },
                    ),
                decreases count - c,
            {
                out.push(OutputColumn::State { aggregate: a, column: c });
                c = c + 1;
                assert(out@ =~= before + Seq::new(
                    c as nat,
                    |j: int| OutputColumn::State { aggregate: a, column: j as usize },
                ));
            }
            assert(state_columns(state_counts@, a as int + 1) == state_columns(state_counts@, a as int)
                + Seq::new(count as nat, |j: int| OutputColumn::State { aggregate: a, column: j as usize }));
            assert(out@ =~= keys + state_columns(state_counts@, a as int + 1));
        } else {
            out.push(OutputColumn::Final(a));
            assert(out@ =~= keys + Seq::new(a as nat + 1, |i: int| OutputColumn::Final(i as usize)));
        }
        a = a + 1;
    }
    out
}

/// How DataFusion's group-by of an aggregate looks to the cuDF rules.
#[derive(Clone, Copy, PartialEq, Eq, Debug, Structural)]
pub struct GroupByShape {
    /// Number of group-by expressions.
    pub num_exprs: usize,
    /// Whether it is a single grouping set (no GROUPING SETS, CUBE or ROLLUP).
    pub is_single: bool,
    /// Whether every group-by expression is a plain column.
    pub all_columns: bool,
}

/// One DataFusion aggregate expression, as the cuDF rules see it.
pub struct AggregateCandidate {
    /// `DISTINCT` aggregate.
    pub is_distinct: bool,
    /// The aggregate has an `ORDER BY`.
    pub has_order_by: bool,
    /// The cuDF operation of its function, where that function is one of the
    /// cuDF aggregate functions.
    pub op: Option<AggregationOp>,
    /// The expression's own arguments.
    pub expressions: Vec<PhysicalExpr>,
    /// The data type of the expression's output field.
    pub output_type: DataType,
    /// Whether the data types of the arguments for this mode could be computed.
    pub arg_types_known: bool,
    /// Whether the cuDF operation accepts those argument types and the output type.
    pub input_types_supported: bool,
    /// The arguments of the aggregate for this mode.
    pub args: Vec<PhysicalExpr>,
}

/// One aggregate of a prepared cuDF aggregate.
pub struct PreparedAggregate {
    /// Position of the aggregate expression in the aggregate's list.
    pub expr: usize,
    /// The cuDF operation it runs.
    pub op: AggregationOp,
    /// Its arguments for the mode, ready for cuDF.
    pub args: Vec<AggregateArg>,
    /// The data type of its output.
    pub output_type: DataType,
}

/// A DataFusion aggregate that a cuDF aggregate takes over.
pub struct PreparedCuDFAggregate {
    pub mode: AggregateMode,
    pub group_by: GroupByShape,
    /// One per aggregate expression, in order.
    pub aggs: Vec<PreparedAggregate>,
}

/// Why preparing a cuDF aggregate failed.
#[derive(Clone, Copy, PartialEq, Eq, Debug, Structural)]
pub enum PrepareError {
    /// The aggregate arguments for the mode could not be built.
    Arguments,
    /// An argument of this aggregate failed to convert with an error.
    Conversion { aggregate: usize },
    /// The argument types of this aggregate could not be computed.
    ArgumentTypes { aggregate: usize },
}

/// Arguments converted in order: all of them where each converts; declined
/// (`None`) at the first that cuDF does not implement, failed at the first
/// whose conversion fails, whichever comes first.
pub open spec fn converted_args(s: Seq<PhysicalExpr>) -> Result<Option<Seq<AggregateArg>>, ExprError>
    decreases s.len(),
{
    if s.len() == 0 {
        Ok(Some(Seq::empty()))
    } else {
        match spec_aggregate_arg(s[0]) {
            Err(e) => Err(e),
            Ok(None) => Ok(None),
            Ok(Some(a)) => match converted_args(s.drop_first()) {
                Ok(Some(rest)) => Ok(Some(seq![a] + rest)),
                other => other,
            },
        }
    }
}

/// The outcome for one aggregate, numbered `i`: its converted arguments where
/// cuDF takes it, `None` where it stays on the host, or the error. Final
/// aggregates see only state columns, so the expression's own arguments must
/// convert too: the whole aggregate chain stays on one side of the CPU/GPU
/// boundary.
pub open spec fn prepare_one(c: AggregateCandidate, i: int) -> Result<Option<Seq<AggregateArg>>, PrepareError> {
    match c.op {
        None => Ok(None),
        Some(_) => match converted_args(c.expressions@) {
            Err(_) => Err(PrepareError::Conversion { aggregate: i as usize }),
            Ok(None) => Ok(None),
            Ok(Some(_)) => if !c.arg_types_known {
                Err(PrepareError::ArgumentTypes { aggregate: i as usize })
            } else if !c.input_types_supported {
                Ok(None)
            } else {
                match converted_args(c.args@) {
                    Err(_) => Err(PrepareError::Conversion { aggregate: i as usize }),
                    Ok(x) => Ok(x),
                }
            },
        },
    }
}

/// The outcome for aggregates `i..` of the list, in order: the first that does
/// not prepare decides.
pub open spec fn prepare_from(aggs: Seq<AggregateCandidate>, i: int) -> Result<bool, PrepareError>
    decreases aggs.len() - i,
{
    if i >= aggs.len() || i < 0 {
        Ok(true)
    } else {
        match prepare_one(aggs[i], i) {
            Ok(Some(_)) => prepare_from(aggs, i + 1),
            Ok(None) => Ok(false),
            Err(e) => Err(e),
        }
    }
}

/// Whether an aggregate is `DISTINCT` or ordered.
pub open spec fn distinct_or_ordered(c: AggregateCandidate) -> bool {
    c.is_distinct || c.has_order_by
}

/// The whole decision: `Ok(true)` where cuDF takes the aggregate over,
/// `Ok(false)` where it stays on the host, `Err` where preparing it failed.
pub open spec fn spec_prepare(group_by: GroupByShape, aggs: Seq<AggregateCandidate>, arguments_built: bool) -> Result<
    bool,
    PrepareError,
> {
    if group_by.num_exprs == 0 || !group_by.is_single || !group_by.all_columns || exists|i: int|
        0 <= i < aggs.len() && #[trigger] distinct_or_ordered(aggs[i]) {
        Ok(false)
    } else if !arguments_built {
        Err(PrepareError::Arguments)
    } else {
        prepare_from(aggs, 0)
    }
}

proof fn lemma_prepare_from_takes_all(aggs: Seq<AggregateCandidate>, i: int)
    requires
        0 <= i,
        prepare_from(aggs, i) == Ok::<bool, PrepareError>(true),
    ensures
        forall|k: int| i <= k < aggs.len() ==> (#[trigger] aggs[k]).op is Some && aggs[k].arg_types_known
            && aggs[k].input_types_supported,
    decreases aggs.len() - i,
{
    if i < aggs.len() {
        lemma_prepare_from_takes_all(aggs, i + 1);
    }
}

/// cuDF takes an aggregate over only where every aggregate expression, at any
/// position, is neither `DISTINCT` nor ordered, is a cuDF aggregate function
/// whose argument types cuDF accepts, and the group-by is a single grouping
/// set of plain columns with at least one expression. A `COUNT(DISTINCT y)`
/// anywhere keeps the whole aggregate on the host.
pub proof fn lemma_prepare_takes_over_only_plain_aggregates(
    group_by: GroupByShape,
    aggs: Seq<AggregateCandidate>,
    arguments_built: bool,
)
    requires
        spec_prepare(group_by, aggs, arguments_built) == Ok::<bool, PrepareError>(true),
    ensures
        group_by.num_exprs > 0 && group_by.is_single && group_by.all_columns,
        arguments_built,
        forall|i: int|
            0 <= i < aggs.len() ==> !(#[trigger] aggs[i]).is_distinct && !aggs[i].has_order_by && aggs[i].op is Some
                && aggs[i].arg_types_known && aggs[i].input_types_supported,
{
    lemma_prepare_from_takes_all(aggs, 0);
    assert forall|i: int| 0 <= i < aggs.len() implies !(#[trigger] aggs[i]).is_distinct && !aggs[i].has_order_by by {
        if aggs[i].is_distinct || aggs[i].has_order_by {
            assert(distinct_or_ordered(aggs[i]));
        }
    }
}

/// Converting a list of arguments keeps all of them, in order, each as it
/// converts alone; it is declined or fails exactly at the first argument that
/// is declined or fails.
pub proof fn lemma_converted_args(s: Seq<PhysicalExpr>)
    ensures
        converted_args(s) matches Ok(Some(v)) ==> v.len() == s.len() && forall|i: int|
            0 <= i < s.len() ==> spec_aggregate_arg(#[trigger] s[i]) == Ok::<Option<AggregateArg>, ExprError>(
                Some(v[i]),
            ),
        converted_args(s) matches Ok(None) ==> exists|i: int|
            0 <= i < s.len() && spec_aggregate_arg(#[trigger] s[i]) == Ok::<Option<AggregateArg>, ExprError>(None)
                && forall|j: int| 0 <= j < i ==> spec_aggregate_arg(#[trigger] s[j]) matches Ok(Some(_)),
        converted_args(s) matches Err(e) ==> exists|i: int|
            0 <= i < s.len() && spec_aggregate_arg(#[trigger] s[i]) == Err::<Option<AggregateArg>, ExprError>(e)
                && forall|j: int| 0 <= j < i ==> spec_aggregate_arg(#[trigger] s[j]) matches Ok(Some(_)),
    decreases s.len(),
{
    if s.len() > 0 {
        let t = s.drop_first();
        lemma_converted_args(t);
        assert forall|i: int| 0 <= i < t.len() implies #[trigger] t[i] == s[i + 1] by {}
        match spec_aggregate_arg(s[0]) {
            Ok(Some(a)) => {
                match converted_args(t) {
                    Ok(Some(rest)) => {
                        let v = seq![a] + rest;
                        assert forall|i: int| 0 <= i < s.len() implies spec_aggregate_arg(#[trigger] s[i])
                            == Ok::<Option<AggregateArg>, ExprError>(Some(v[i])) by {
                            if i > 0 {
                                assert(s[i] == t[i - 1]);
                                assert(v[i] == rest[i - 1]);
                            }
                        }
                    },
                    Ok(None) => {
                        let i = choose|i: int|
                            0 <= i < t.len() && spec_aggregate_arg(#[trigger] t[i]) == Ok::<Option<AggregateArg>, ExprError>(None)
                                && forall|j: int| 0 <= j < i ==> spec_aggregate_arg(#[trigger] t[j]) matches Ok(Some(_));
                        assert(s[i + 1] == t[i]);
                        assert forall|j: int| 0 <= j < i + 1 implies spec_aggregate_arg(#[trigger] s[j]) matches Ok(Some(_)) by {
                            if j > 0 {
                                assert(s[j] == t[j - 1]);
                            }
                        }
                    },
                    Err(e) => {
                        let i = choose|i: int|
                            0 <= i < t.len() && spec_aggregate_arg(#[trigger] t[i]) == Err::<Option<AggregateArg>, ExprError>(e)
                                && forall|j: int| 0 <= j < i ==> spec_aggregate_arg(#[trigger] t[j]) matches Ok(Some(_));
                        assert(s[i + 1] == t[i]);
                        assert forall|j: int| 0 <= j < i + 1 implies spec_aggregate_arg(#[trigger] s[j]) matches Ok(Some(_)) by {
                            if j > 0 {
                                assert(s[j] == t[j - 1]);
                            }
                        }
                    },
                }
            },
            _ => {},
        }
    }
}

/// Each error of the preparation names the aggregate it comes from: a failed
/// conversion comes from a cuDF aggregate one of whose own or mode arguments
/// failed to convert, and unknown argument types from a cuDF aggregate whose
/// own arguments all convert; the aggregates before it all prepared.
pub proof fn lemma_prepare_errors(group_by: GroupByShape, aggs: Seq<AggregateCandidate>, arguments_built: bool)
    requires
        aggs.len() <= usize::MAX,
    ensures
        spec_prepare(group_by, aggs, arguments_built) == Err::<bool, PrepareError>(PrepareError::Arguments) ==> !arguments_built,
        spec_prepare(group_by, aggs, arguments_built) matches Err(PrepareError::Conversion { aggregate: i }) ==> {
            &&& i < aggs.len()
            &&& aggs[i as int].op is Some
            &&& (converted_args(aggs[i as int].expressions@) is Err || converted_args(aggs[i as int].args@) is Err)
            &&& forall|k: int| 0 <= k < i ==> prepare_one(#[trigger] aggs[k], k) is Ok
        },
        spec_prepare(group_by, aggs, arguments_built) matches Err(PrepareError::ArgumentTypes { aggregate: i }) ==> {
            &&& i < aggs.len()
            &&& aggs[i as int].op is Some
            &&& !aggs[i as int].arg_types_known
            &&& forall|k: int| 0 <= k < i ==> prepare_one(#[trigger] aggs[k], k) is Ok
        },
{
    lemma_prepare_from_errors(aggs, 0);
}

proof fn lemma_prepare_from_errors(aggs: Seq<AggregateCandidate>, i: int)
    requires
        0 <= i,
        aggs.len() <= usize::MAX,
    ensures
        prepare_from(aggs, i) matches Err(PrepareError::Conversion { aggregate: a }) ==> {
            &&& i <= a < aggs.len()
            &&& aggs[a as int].op is Some
            &&& (converted_args(aggs[a as int].expressions@) is Err || converted_args(aggs[a as int].args@) is Err)
            &&& forall|k: int| i <= k < a ==> prepare_one(#[trigger] aggs[k], k) is Ok
        },
        prepare_from(aggs, i) matches Err(PrepareError::ArgumentTypes { aggregate: a }) ==> {
            &&& i <= a < aggs.len()
            &&& aggs[a as int].op is Some
            &&& !aggs[a as int].arg_types_known
            &&& forall|k: int| i <= k < a ==> prepare_one(#[trigger] aggs[k], k) is Ok
        },
        prepare_from(aggs, i) != Err::<bool, PrepareError>(PrepareError::Arguments),
    decreases aggs.len() - i,
{
    if i < aggs.len() {
        lemma_prepare_from_errors(aggs, i + 1);
    }
}

proof fn lemma_prepare_from_all(aggs: Seq<AggregateCandidate>, i: int)
    requires
        0 <= i,
        forall|k: int| i <= k < aggs.len() ==> #[trigger] prepare_one(aggs[k], k) is Ok && prepare_one(aggs[k], k)->Ok_0 is Some,
    ensures
        prepare_from(aggs, i) == Ok::<bool, PrepareError>(true),
    decreases aggs.len() - i,
{
    if i < aggs.len() {
        lemma_prepare_from_all(aggs, i + 1);
    }
}

/// And conversely: with at least one group-by expression in a single grouping
/// set of plain columns, arguments built for the mode, and every aggregate a
/// plain cuDF aggregate function whose own and mode arguments all convert and
/// whose argument types are known and accepted, cuDF takes the aggregate over.
pub proof fn lemma_plain_aggregates_are_taken_over(group_by: GroupByShape, aggs: Seq<AggregateCandidate>)
    requires
        group_by.num_exprs > 0,
        group_by.is_single,
        group_by.all_columns,
        forall|i: int|
            0 <= i < aggs.len() ==> {
                &&& !(#[trigger] aggs[i]).is_distinct
                &&& !aggs[i].has_order_by
                &&& aggs[i].op is Some
                &&& converted_args(aggs[i].expressions@) is Ok && converted_args(aggs[i].expressions@)->Ok_0 is Some
                &&& aggs[i].arg_types_known
                &&& aggs[i].input_types_supported
                &&& converted_args(aggs[i].args@) is Ok && converted_args(aggs[i].args@)->Ok_0 is Some
            },
    ensures
        spec_prepare(group_by, aggs, true) == Ok::<bool, PrepareError>(true),
{
    assert forall|k: int| 0 <= k < aggs.len() implies #[trigger] prepare_one(aggs[k], k) is Ok && prepare_one(aggs[k], k)->Ok_0 is Some by {}
    lemma_prepare_from_all(aggs, 0);
    assert(!exists|i: int| 0 <= i < aggs.len() && #[trigger] distinct_or_ordered(aggs[i]));
}

/// A `DISTINCT` or ordered aggregate expression, at any position, keeps the
/// whole aggregate on the host, before anything else is looked at.
pub proof fn lemma_distinct_stays_on_host(
    group_by: GroupByShape,
    aggs: Seq<AggregateCandidate>,
    arguments_built: bool,
    i: int,
)
    requires
        0 <= i < aggs.len(),
        aggs[i].is_distinct || aggs[i].has_order_by,
    ensures
        spec_prepare(group_by, aggs, arguments_built) == Ok::<bool, PrepareError>(false),
{
    assert(distinct_or_ordered(aggs[i]));
}

fn convert_args(s: &Vec<PhysicalExpr>) -> (r: Result<Option<Vec<AggregateArg>>, ExprError>)
    ensures
        match r {
            Ok(Some(v)) => converted_args(s@) == Ok::<Option<Seq<AggregateArg>>, ExprError>(Some(v@)),
            Ok(None) => converted_args(s@) == Ok::<Option<Seq<AggregateArg>>, ExprError>(None),
            Err(e) => converted_args(s@) == Err::<Option<Seq<AggregateArg>>, ExprError>(e),
        },
{
    let mut out: Vec<AggregateArg> = Vec::new();
    let mut i: usize = 0;
    assert(s@.skip(0) =~= s@);
    while i < s.len()
        invariant
            i <= s.len(),
            converted_args(s@) == match converted_args(s@.skip(i as int)) {
                Ok(Some(rest)) => Ok(Some(out@ + rest)),
                other => other,
            },
        decreases s.len() - i,
    {
        assert(s@.skip(i as int).drop_first() =~= s@.skip(i as int + 1));
        assert(s@.skip(i as int)[0] == s@[i as int]);
        match expr_to_cudf_aggregate_arg(&s[i]) {
            Err(e) => {
                return Err(e);
            },
            Ok(None) => {
                return Ok(None);
            },
            Ok(Some(a)) => {
                let ghost before = out@;
                out.push(a);
                proof {
                    match converted_args(s@.skip(i as int + 1)) {
                        Ok(Some(rest)) => {
                            assert(before + (seq![a] + rest) =~= out@ + rest);
                        },
                        _ => {},
                    }
                }
            },
        }
        i = i + 1;
    }
    assert(s@.skip(i as int).len() == 0);
    assert(out@ + Seq::<AggregateArg>::empty() =~= out@);
    Ok(Some(out))
}

/// Prepares a cuDF aggregate to take a DataFusion aggregate over.
///
/// cuDF takes it over only with at least one group-by expression, a single
/// grouping set of plain columns, no `DISTINCT` or ordered aggregate, and every
/// aggregate a cuDF aggregate function whose own and mode arguments all
/// convert and whose argument types it accepts; the prepared aggregate then
/// holds the mode, the group-by and, per aggregate expression in order, its
/// cuDF operation, its output type and its converted arguments.
/// `arguments_built` is whether the mode's aggregate arguments could be built
/// at all.
pub fn prepare_cudf_aggregate_parts(
    mode: AggregateMode,
    group_by: GroupByShape,
    aggr_expr: &Vec<AggregateCandidate>,
    arguments_built: bool,
) -> (r: Result<Option<PreparedCuDFAggregate>, PrepareError>)
    ensures
        match r {
            Ok(None) => spec_prepare(group_by, aggr_expr@, arguments_built) == Ok::<bool, PrepareError>(false),
            Err(e) => spec_prepare(group_by, aggr_expr@, arguments_built) == Err::<bool, PrepareError>(e),
            Ok(Some(p)) => {
                &&& spec_prepare(group_by, aggr_expr@, arguments_built) == Ok::<bool, PrepareError>(true)
                &&& group_by.num_exprs > 0 && group_by.is_single && group_by.all_columns
                &&& forall|i: int|
                    0 <= i < aggr_expr@.len() ==> !(#[trigger] aggr_expr@[i]).is_distinct && !aggr_expr@[i].has_order_by
                        && aggr_expr@[i].op is Some
                &&& p.mode == mode
                &&& p.group_by == group_by
                &&& p.aggs@.len() == aggr_expr@.len()
                &&& forall|i: int| 0 <= i < p.aggs@.len() ==> {
                    &&& (#[trigger] p.aggs@[i]).expr == i
                    &&& aggr_expr@[i].op == Some(p.aggs@[i].op)
                    &&& p.aggs@[i].output_type == aggr_expr@[i].output_type
                    &&& prepare_one(aggr_expr@[i], i) == Ok::<Option<Seq<AggregateArg>>, PrepareError>(
                        Some(p.aggs@[i].args@),
                    )
                }
            },
        },
{
    if group_by.num_exprs == 0 || !group_by.is_single || !group_by.all_columns {
        return Ok(None);
    }
    let mut k: usize = 0;
    while k < aggr_expr.len()
        invariant
            k <= aggr_expr.len(),
            forall|i: int| 0 <= i < k ==> !#[trigger] distinct_or_ordered(aggr_expr@[i]),
        decreases aggr_expr.len() - k,
    {
        if aggr_expr[k].is_distinct || aggr_expr[k].has_order_by {
            assert(distinct_or_ordered(aggr_expr@[k as int]));
            return Ok(None);
        }
        k = k + 1;
    }
    if !arguments_built {
        return Err(PrepareError::Arguments);
    }
    let mut aggs: Vec<PreparedAggregate> = Vec::new();
    let mut i: usize = 0;
    while i < aggr_expr.len()
        invariant
            i <= aggr_expr.len(),
            spec_prepare(group_by, aggr_expr@, arguments_built) == prepare_from(aggr_expr@, 0),
            prepare_from(aggr_expr@, 0) == prepare_from(aggr_expr@, i as int),
            aggs@.len() == i,
            forall|x: int| 0 <= x < i ==> {
                &&& (#[trigger] aggs@[x]).expr == x
                &&& aggr_expr@[x].op == Some(aggs@[x].op)
                &&& aggs@[x].output_type == aggr_expr@[x].output_type
                &&& prepare_one(aggr_expr@[x], x) == Ok::<Option<Seq<AggregateArg>>, PrepareError>(Some(aggs@[x].args@))
            },
        decreases aggr_expr.len() - i,
    {
        let agg = &aggr_expr[i];
        let op = match agg.op {
            Some(op) => op,
            None => {
                return Ok(None);
            },
        };
        match convert_args(&agg.expressions) {
            Err(_) => {
                return Err(PrepareError::Conversion { aggregate: i });
            },
            Ok(None) => {
                return Ok(None);
            },
            Ok(Some(_)) => {},
        }
        if !agg.arg_types_known {
            return Err(PrepareError::ArgumentTypes { aggregate: i });
        }
        if !agg.input_types_supported {
            return Ok(None);
        }
        let args = match convert_args(&agg.args) {
            Err(_) => {
                return Err(PrepareError::Conversion { aggregate: i });
            },
            Ok(None) => {
                return Ok(None);
            },
            Ok(Some(v)) => v,
        };
        aggs.push(PreparedAggregate { expr: i, op, args, output_type: agg.output_type });
        i = i + 1;
    }
    proof {
        lemma_prepare_takes_over_only_plain_aggregates(group_by, aggr_expr@, arguments_built);
    }
    Ok(Some(PreparedCuDFAggregate { mode, group_by, aggs }))
}

} // verus!
