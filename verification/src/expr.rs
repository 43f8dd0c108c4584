//! DataFusion physical expressions and their cuDF counterparts.
//!
//! A host expression is converted node by node: columns and literals have cuDF
//! versions, and a binary expression converts its left side, then its right
//! side, then its operator. Anything else is not implemented in cuDF.
use vstd::prelude::*;
use crate::binary_op::{
    cudf_apply, host_apply, lemma_map_op_keeps_values, map_op, spec_map_op, CuDFBinaryOp, ExprValue, Operator,
};
use crate::plan::Conversion;

verus! {

/// A DataFusion physical expression, as the cuDF conversion sees it.
pub enum PhysicalExpr {
    /// A column of the input, by index.
    Column(usize),
    /// A literal, with what converting it to a cuDF literal gives.
    Literal(Conversion),
    /// A binary expression.
    Binary { left: Box<PhysicalExpr>, op: Operator, right: Box<PhysicalExpr> },
    /// Any other expression.
    Other,
}

/// A cuDF expression.
pub enum CuDFExpr {
    Column(usize),
    Literal,
    /// A binary expression; `streamed` where it issues its work on the
    /// operator's CUDA stream rather than the default stream.
    Binary { left: Box<CuDFExpr>, op: CuDFBinaryOp, right: Box<CuDFExpr>, streamed: bool },
}

/// Why an expression could not be converted.
#[derive(Clone, Copy, PartialEq, Eq, Debug, Structural)]
pub enum ExprError {
    /// `Expression {expr} not supported in CuDF`, or a literal cuDF does not implement.
    NotImplemented,
    /// `Operator {op:?} is not supported by cuDF`
    UnsupportedOperator(Operator),
    /// Converting a literal failed with another error.
    LiteralFailed,
}

/// The cuDF expression a host expression converts to.
pub open spec fn spec_to_cudf(e: PhysicalExpr) -> Result<CuDFExpr, ExprError>
    decreases e,
{
    match e {
        PhysicalExpr::Column(i) => Ok(CuDFExpr::Column(i)),
        PhysicalExpr::Literal(c) => match c {
            Conversion::Supported => Ok(CuDFExpr::Literal),
            Conversion::Unsupported => Err(ExprError::NotImplemented),
            Conversion::Fails => Err(ExprError::LiteralFailed),
        },
        PhysicalExpr::Binary { left, op, right } => match spec_to_cudf(*left) {
            Err(err) => Err(err),
            Ok(l) => match spec_to_cudf(*right) {
                Err(err) => Err(err),
                Ok(r) => match spec_map_op(op) {
                    None => Err(ExprError::UnsupportedOperator(op)),
                    Some(o) => Ok(CuDFExpr::Binary { left: Box::new(l), op: o, right: Box::new(r), streamed: false }),
                },
            },
        },
        PhysicalExpr::Other => Err(ExprError::NotImplemented),
    }
}

/// Converts a host expression to its cuDF counterpart.
pub fn expr_to_cudf_expr(expr: &PhysicalExpr) -> (r: Result<CuDFExpr, ExprError>)
    ensures
        r == spec_to_cudf(*expr),
    decreases expr,
{
    match expr {
        PhysicalExpr::Column(i) => Ok(CuDFExpr::Column(*i)),
        PhysicalExpr::Literal(c) => match c {
            Conversion::Supported => Ok(CuDFExpr::Literal),
            Conversion::Unsupported => Err(ExprError::NotImplemented),
            Conversion::Fails => Err(ExprError::LiteralFailed),
        },
        PhysicalExpr::Binary { left, op, right } => {
            let l = expr_to_cudf_expr(left)?;
            let r = expr_to_cudf_expr(right)?;
            match map_op(*op) {
                None => Err(ExprError::UnsupportedOperator(*op)),
                Some(o) => Ok(CuDFExpr::Binary { left: Box::new(l), op: o, right: Box::new(r), streamed: false }),
            }
        },
        PhysicalExpr::Other => Err(ExprError::NotImplemented),
    }
}

/// An argument of a cuDF aggregate.
pub enum AggregateArg {
    /// A bare literal (e.g. `COUNT(*)`), kept as the host literal: it must
    /// expand to the batch length as DataFusion expands it, which a cuDF
    /// literal, evaluating to a scalar, does not.
    HostLiteral(Conversion),
    /// The cuDF counterpart of the argument.
    CuDF(CuDFExpr),
}

/// What an aggregate argument becomes: a bare literal is kept; anything else
/// converts to its cuDF expression, is declined (`None`) where cuDF does not
/// implement it, and fails where converting it failed with another error.
pub open spec fn spec_aggregate_arg(e: PhysicalExpr) -> Result<Option<AggregateArg>, ExprError> {
    match e {
        PhysicalExpr::Literal(c) => Ok(Some(AggregateArg::HostLiteral(c))),
        _ => match spec_to_cudf(e) {
            Ok(x) => Ok(Some(AggregateArg::CuDF(x))),
            Err(ExprError::LiteralFailed) => Err(ExprError::LiteralFailed),
            Err(_) => Ok(None),
        },
    }
}

pub fn expr_to_cudf_aggregate_arg(arg: &PhysicalExpr) -> (r: Result<Option<AggregateArg>, ExprError>)
    ensures
        r == spec_aggregate_arg(*arg),
{
    if let PhysicalExpr::Literal(c) = arg {
        return Ok(Some(AggregateArg::HostLiteral(*c)));
    }
    match expr_to_cudf_expr(arg) {
        Ok(x) => Ok(Some(AggregateArg::CuDF(x))),
        Err(ExprError::LiteralFailed) => Err(ExprError::LiteralFailed),
        Err(_) => Ok(None),
    }
}

/// The expression with every binary node issuing its work on the stream.
pub open spec fn spec_streamed(e: CuDFExpr) -> CuDFExpr
    decreases e,
{
    match e {
        CuDFExpr::Binary { left, op, right, .. } => CuDFExpr::Binary {
            left: Box::new(spec_streamed(*left)),
            op,
            right: Box::new(spec_streamed(*right)),
            streamed: true,
        },
        other => other,
    }
}

fn streamed(expr: CuDFExpr) -> (r: CuDFExpr)
    ensures
        r == spec_streamed(expr),
    decreases expr,
{
    match expr {
        CuDFExpr::Binary { left, op, right, .. } => CuDFExpr::Binary {
            left: Box::new(streamed(*left)),
            op,
            right: Box::new(streamed(*right)),
            streamed: true,
        },
        other => other,
    }
}

/// Where a CUDA stream is given, every binary node of the expression issues its
/// work on it; otherwise the expression is unchanged.
pub fn expr_with_stream(expr: CuDFExpr, has_stream: bool) -> (r: CuDFExpr)
    ensures
        r == if has_stream { spec_streamed(expr) } else { expr },
{
    if has_stream {
        streamed(expr)
    } else {
        expr
    }
}

/// The input columns an expression reads, left to right.
pub open spec fn host_columns(e: PhysicalExpr) -> Seq<usize>
    decreases e,
{
    match e {
        PhysicalExpr::Column(i) => seq![i],
        PhysicalExpr::Binary { left, right, .. } => host_columns(*left) + host_columns(*right),
        _ => Seq::empty(),
    }
}

/// The input columns a cuDF expression reads, left to right.
pub open spec fn cudf_columns(e: CuDFExpr) -> Seq<usize>
    decreases e,
{
    match e {
        CuDFExpr::Column(i) => seq![i],
        CuDFExpr::Binary { left, right, .. } => cudf_columns(*left) + cudf_columns(*right),
        _ => Seq::empty(),
    }
}

/// Whether every binary node issues its work on the stream.
pub open spec fn all_streamed(e: CuDFExpr) -> bool
    decreases e,
{
    match e {
        CuDFExpr::Binary { left, right, streamed, .. } => streamed && all_streamed(*left) && all_streamed(*right),
        _ => true,
    }
}

/// A converted expression reads the same input columns, in the same order, as
/// the host expression it came from.
pub proof fn lemma_conversion_keeps_columns(e: PhysicalExpr)
    requires
        spec_to_cudf(e) is Ok,
    ensures
        cudf_columns(spec_to_cudf(e)->Ok_0) == host_columns(e),
    decreases e,
{
    if let PhysicalExpr::Binary { left, op, right } = e {
        lemma_conversion_keeps_columns(*left);
        lemma_conversion_keeps_columns(*right);
    }
}

/// The value of a host expression on one row of integer columns, where the
/// expression is made of columns and of operators that `host_apply` defines
/// (`None` otherwise).
pub open spec fn eval_host(e: PhysicalExpr, row: Seq<int>) -> Option<ExprValue>
    decreases e,
{
    match e {
        PhysicalExpr::Column(i) => if i < row.len() { Some(ExprValue::Int(row[i as int])) } else { None },
        PhysicalExpr::Binary { left, op, right } => match (eval_host(*left, row), eval_host(*right, row)) {
            (Some(a), Some(b)) => host_apply(op, a, b),
            _ => None,
        },
        _ => None,
    }
}

/// The value of a cuDF expression on one row of integer columns, where it is
/// made of columns and of operations that `cudf_apply` defines.
pub open spec fn eval_cudf(e: CuDFExpr, row: Seq<int>) -> Option<ExprValue>
    decreases e,
{
    match e {
        CuDFExpr::Column(i) => if i < row.len() { Some(ExprValue::Int(row[i as int])) } else { None },
        CuDFExpr::Binary { left, op, right, .. } => match (eval_cudf(*left, row), eval_cudf(*right, row)) {
            (Some(a), Some(b)) => cudf_apply(op, a, b),
            _ => None,
        },
        _ => None,
    }
}

/// Converting an expression to cuDF keeps its meaning: on every row where the
/// host expression has a value, the converted expression has the same value.
/// A filter `a < b` is evaluated on the GPU as `a < b`.
pub proof fn lemma_conversion_keeps_values(e: PhysicalExpr, row: Seq<int>)
    requires
        spec_to_cudf(e) is Ok,
        eval_host(e, row) is Some,
    ensures
        eval_cudf(spec_to_cudf(e)->Ok_0, row) == eval_host(e, row),
    decreases e,
{
    if let PhysicalExpr::Binary { left, op, right } = e {
        lemma_conversion_keeps_values(*left, row);
        lemma_conversion_keeps_values(*right, row);
        let a = eval_host(*left, row)->0;
        let b = eval_host(*right, row)->0;
        lemma_map_op_keeps_values(op, a, b);
    }
}

/// A converted binary expression keeps its operands in place and carries out
/// the cuDF operation of the host operator.
pub proof fn lemma_converted_operator(left: PhysicalExpr, op: Operator, right: PhysicalExpr)
    requires
        spec_to_cudf(PhysicalExpr::Binary { left: Box::new(left), op, right: Box::new(right) }) is Ok,
    ensures
        ({
            let c = spec_to_cudf(PhysicalExpr::Binary { left: Box::new(left), op, right: Box::new(right) })->Ok_0;
            &&& c matches CuDFExpr::Binary { left: l, op: o, right: r, streamed } && {
                &&& spec_map_op(op) == Some(o)
                &&& spec_to_cudf(left) == Ok::<CuDFExpr, ExprError>(*l)
                &&& spec_to_cudf(right) == Ok::<CuDFExpr, ExprError>(*r)
                &&& !streamed
            }
        }),
{
}

/// A column converts to the same column; a literal converts exactly where its
/// cuDF counterpart accepts it (failing as it fails otherwise); any other
/// expression is not implemented in cuDF; and a binary expression fails with
/// the error of its left side, else of its right side, else for want of a cuDF
/// operation.
pub proof fn lemma_conversion_outcomes(e: PhysicalExpr)
    ensures
        e matches PhysicalExpr::Column(i) ==> spec_to_cudf(e) == Ok::<CuDFExpr, ExprError>(CuDFExpr::Column(i)),
        e matches PhysicalExpr::Literal(c) ==> (spec_to_cudf(e) is Ok <==> c == Conversion::Supported),
        e == PhysicalExpr::Literal(Conversion::Supported) ==> spec_to_cudf(e) == Ok::<CuDFExpr, ExprError>(CuDFExpr::Literal),
        e == PhysicalExpr::Literal(Conversion::Unsupported) ==> spec_to_cudf(e) == Err::<CuDFExpr, ExprError>(
            ExprError::NotImplemented,
        ),
        e == PhysicalExpr::Literal(Conversion::Fails) ==> spec_to_cudf(e) == Err::<CuDFExpr, ExprError>(
            ExprError::LiteralFailed,
        ),
        e is Other ==> spec_to_cudf(e) == Err::<CuDFExpr, ExprError>(ExprError::NotImplemented),
        e matches PhysicalExpr::Binary { left, op, right } ==> {
            &&& spec_to_cudf(*left) is Err ==> spec_to_cudf(e) == spec_to_cudf(*left)
            &&& spec_to_cudf(*left) is Ok && spec_to_cudf(*right) is Err ==> spec_to_cudf(e) == spec_to_cudf(*right)
            &&& spec_to_cudf(*left) is Ok && spec_to_cudf(*right) is Ok && spec_map_op(op) is None ==> spec_to_cudf(e)
                == Err::<CuDFExpr, ExprError>(ExprError::UnsupportedOperator(op))
            &&& spec_to_cudf(*left) is Ok && spec_to_cudf(*right) is Ok && spec_map_op(op) is Some ==> spec_to_cudf(e) is Ok
        },
{
}

/// An aggregate argument that is a bare literal is kept as the host literal;
/// any other argument is taken exactly where it converts to cuDF, as its cuDF
/// expression (with the same value on every row), declined where cuDF does not
/// implement it, and failed where a literal inside it fails.
pub proof fn lemma_aggregate_arg_outcomes(e: PhysicalExpr, row: Seq<int>)
    ensures
        e matches PhysicalExpr::Literal(c) ==> spec_aggregate_arg(e) == Ok::<Option<AggregateArg>, ExprError>(
            Some(AggregateArg::HostLiteral(c)),
        ),
        !(e is Literal) ==> match spec_aggregate_arg(e) {
            Ok(Some(AggregateArg::CuDF(c))) => spec_to_cudf(e) == Ok::<CuDFExpr, ExprError>(c) && (eval_host(e, row) is Some
                ==> eval_cudf(c, row) == eval_host(e, row)),
            Ok(Some(AggregateArg::HostLiteral(_))) => false,
            Ok(None) => spec_to_cudf(e) is Err && spec_to_cudf(e) != Err::<CuDFExpr, ExprError>(ExprError::LiteralFailed),
            Err(err) => err == ExprError::LiteralFailed && spec_to_cudf(e) == Err::<CuDFExpr, ExprError>(err),
        },
{
    if !(e is Literal) && spec_to_cudf(e) is Ok && eval_host(e, row) is Some {
        lemma_conversion_keeps_values(e, row);
    }
}

/// Putting an expression on a stream reaches every binary node, keeps the
/// columns it reads, and doing it twice is doing it once.
pub proof fn lemma_streamed(e: CuDFExpr)
    ensures
        all_streamed(spec_streamed(e)),
        cudf_columns(spec_streamed(e)) == cudf_columns(e),
        spec_streamed(spec_streamed(e)) == spec_streamed(e),
    decreases e,
{
    if let CuDFExpr::Binary { left, op, right, streamed } = e {
        lemma_streamed(*left);
        lemma_streamed(*right);
    }
}

/// What a physical expression evaluated to, as a cuDF operator receives it.
#[derive(Clone, Copy, PartialEq, Eq, Debug, Structural)]
pub enum ColumnarValueKind {
    /// An array that is a cuDF column view.
    CuDFColumn,
    /// An array that is a cuDF scalar.
    CuDFScalar,
    /// Any other (host) array.
    HostArray,
    /// A DataFusion scalar value.
    Scalar,
}

/// A value that cuDF operations take.
#[derive(Clone, Copy, PartialEq, Eq, Debug, Structural)]
pub enum CuDFValue {
    ColumnView,
    Scalar,
}

/// Why an evaluated value cannot be handed to cuDF.
#[derive(Clone, Copy, PartialEq, Eq, Debug, Structural)]
pub enum ValueError {
    /// `ColumnarValue::Array is not CuDFColumnView or CuDFScalar`
    HostArray,
    /// `ColumnarValue::Scalar is not allowed when executing in CuDF nodes`
    HostScalar,
}

/// Only cuDF column views and cuDF scalars reach cuDF operations; host arrays
/// and DataFusion scalars are refused.
pub fn columnar_value_to_cudf(value: ColumnarValueKind) -> (r: Result<CuDFValue, ValueError>)
    ensures
        r == match value {
            ColumnarValueKind::CuDFColumn => Ok(CuDFValue::ColumnView),
            ColumnarValueKind::CuDFScalar => Ok(CuDFValue::Scalar),
            ColumnarValueKind::HostArray => Err(ValueError::HostArray),
            ColumnarValueKind::Scalar => Err(ValueError::HostScalar),
        },
{
    match value {
        ColumnarValueKind::CuDFColumn => Ok(CuDFValue::ColumnView),
        ColumnarValueKind::CuDFScalar => Ok(CuDFValue::Scalar),
        ColumnarValueKind::HostArray => Err(ValueError::HostArray),
        ColumnarValueKind::Scalar => Err(ValueError::HostScalar),
    }
}

} // verus!
