//! The checks of the cuDF load, unload and filter operators.
use vstd::prelude::*;
use crate::config::ConfigOptions;
use crate::datatype::DataType;
use crate::planner::CuDFConfig;

verus! {

/// Number of pinned-buffer slots in a cuDF load's ring of pinned buffers. The
/// host may race up to `PIN_RING_SIZE - 1` batches ahead of the GPU's H2D
/// engine before the next slot's wraparound sync engages backpressure.
pub const PIN_RING_SIZE: usize = 3;

/// Errors of the cuDF operators' checks.
#[derive(Clone, Copy, PartialEq, Eq, Debug, Structural)]
pub enum OperatorError {
    /// `CuDFLoadExec invalid partition {partition}`: a load has one output partition.
    InvalidPartition { partition: usize },
    /// `... expects exactly 1 child, {children} where provided`
    ChildCount { children: usize },
    /// `Cannot move RecordBatch from host to CuDF: a column is already a CuDF array`
    AlreadyOnGpu,
    /// `Expected a CuDFColumnView from predicate evaluation for filter`
    PredicateNotColumn,
    /// `Expected CuDFColumnView predicate to evaluate to a boolean array, got: {data_type}`
    PredicateNotBoolean { data_type: DataType },
    /// `Mixed GPU/host RecordBatch not supported: column {column} is not a CuDF array`
    MixedBatch { column: usize },
}

/// Whether a load stages its input through pinned host memory: as the cuDF
/// options say, and by default where they are not registered.
pub fn pinned_input_enabled(options: &ConfigOptions<CuDFConfig>) -> (r: bool)
    ensures
        r == (match options.extension {
            Some(cfg) => cfg.pinned_input,
            None => true,
        }),
{
    match &options.extension {
        Some(cfg) => cfg.pinned_input,
        None => true,
    }
}

/// A cuDF load has a single output partition, `0`.
pub fn check_load_partition(partition: usize) -> (r: Result<(), OperatorError>)
    ensures
        r is Ok <==> partition == 0,
        r is Err ==> r == Err::<(), OperatorError>(OperatorError::InvalidPartition { partition }),
{
    if partition == 0 {
        Ok(())
    } else {
        Err(OperatorError::InvalidPartition { partition })
    }
}

/// The cuDF load and unload take exactly one child.
pub fn check_single_child(children: usize) -> (r: Result<(), OperatorError>)
    ensures
        r is Ok <==> children == 1,
        r is Err ==> r == Err::<(), OperatorError>(OperatorError::ChildCount { children }),
{
    if children == 1 {
        Ok(())
    } else {
        Err(OperatorError::ChildCount { children })
    }
}

/// A host batch can be moved to the GPU only where none of its columns is
/// there already; `on_gpu[i]` says whether column `i` is a cuDF array.
pub fn check_host_batch(on_gpu: &Vec<bool>) -> (r: Result<(), OperatorError>)
    ensures
        r is Ok <==> forall|i: int| 0 <= i < on_gpu.len() ==> !#[trigger] on_gpu@[i],
        r is Err ==> r == Err::<(), OperatorError>(OperatorError::AlreadyOnGpu),
{
    let mut i: usize = 0;
    while i < on_gpu.len()
        invariant
            i <= on_gpu.len(),
            forall|j: int| 0 <= j < i ==> !#[trigger] on_gpu@[j],
        decreases on_gpu.len() - i,
    {
        if on_gpu[i] {
            return Err(OperatorError::AlreadyOnGpu);
        }
        i = i + 1;
    }
    Ok(())
}

/// Which columns of a filtered batch a cuDF filter outputs, in order: the
/// projected ones, or all of them. The projection comes from the host filter
/// and names columns of the batch.
pub open spec fn spec_filter_output(num_columns: usize, projection: Option<Seq<usize>>) -> Seq<usize> {
    match projection {
        Some(p) => p,
        None => Seq::new(num_columns as nat, |i: int| i as usize),
    }
}

/// Checks what a cuDF filter evaluated on a batch and gives the columns of the
/// filtered batch to output.
///
/// The predicate must give a cuDF column (not a scalar) of booleans, and every
/// column of the batch must be a cuDF array (`on_gpu[i]`); the first column that
/// is not is reported.
pub fn filter_and_project(
    predicate_is_column: bool,
    predicate_type: DataType,
    on_gpu: &Vec<bool>,
    projection: Option<&Vec<usize>>,
) -> (r: Result<Vec<usize>, OperatorError>)
    requires
        projection matches Some(p) ==> forall|k: int| 0 <= k < p.len() ==> #[trigger] p@[k] < on_gpu.len(),
    ensures
        !predicate_is_column ==> r == Err::<Vec<usize>, OperatorError>(OperatorError::PredicateNotColumn),
        predicate_is_column && predicate_type != DataType::Boolean ==> r == Err::<
            Vec<usize>,
            OperatorError,
        >(OperatorError::PredicateNotBoolean { data_type: predicate_type }),
        predicate_is_column && predicate_type == DataType::Boolean ==> match r {
            Ok(cols) => (forall|i: int| 0 <= i < on_gpu.len() ==> #[trigger] on_gpu@[i])
                && cols@ == spec_filter_output(
                on_gpu.len(),
                match projection {
                    Some(p) => Some(p@),
                    None => None,
                },
            ),
            Err(e) => exists|c: int|
                0 <= c < on_gpu.len() && !#[trigger] on_gpu@[c] && (forall|j: int|
                    0 <= j < c ==> on_gpu@[j]) && e == OperatorError::MixedBatch { column: c as usize },
        },
{
    if !predicate_is_column {
        return Err(OperatorError::PredicateNotColumn);
    }
    if predicate_type != DataType::Boolean {
        return Err(OperatorError::PredicateNotBoolean { data_type: predicate_type });
    }
    let mut i: usize = 0;
    while i < on_gpu.len()
        invariant
            i <= on_gpu.len(),
            predicate_is_column,
            predicate_type == DataType::Boolean,
            forall|j: int| 0 <= j < i ==> #[trigger] on_gpu@[j],
        decreases on_gpu.len() - i,
    {
        if !on_gpu[i] {
            return Err(OperatorError::MixedBatch { column: i });
        }
        i = i + 1;
    }
    match projection {
        Some(p) => {
            let mut cols: Vec<usize> = Vec::new();
            let mut k: usize = 0;
            while k < p.len()
                invariant
                    k <= p.len(),
                    cols@ == p@.take(k as int),
                decreases p.len() - k,
            {
                cols.push(p[k]);
                k = k + 1;
                assert(cols@ =~= p@.take(k as int));
            }
            assert(p@.take(k as int) =~= p@);
            Ok(cols)
        },
        None => {
            let mut cols: Vec<usize> = Vec::new();
            let mut k: usize = 0;
            while k < on_gpu.len()
                invariant
                    k <= on_gpu.len(),
                    cols@ == Seq::new(k as nat, |i: int| i as usize),
                decreases on_gpu.len() - k,
            {
                cols.push(k);
                k = k + 1;
                assert(cols@ =~= Seq::new(k as nat, |i: int| i as usize));
            }
            Ok(cols)
        },
    }
}

/// A cuDF filter skips batches that the predicate filtered out entirely.
pub fn keep_filtered_batch(rows: usize) -> (r: bool)
    ensures
        r == (rows > 0),
{
    rows > 0
}

} // verus!
