//! cuDF binary operations: the operator table, and how a cuDF binary
//! expression decides what to ask cuDF for.
use vstd::prelude::*;
use crate::datatype::DataType;
use crate::decimal::{is_decimal_division, scale_of, spec_decimal_parts};

verus! {

/// Binary operations supported by cuDF
///
/// Maps to cuDF's `binary_operator` enum
#[derive(Clone, Copy, PartialEq, Eq, Debug, Hash, Structural)]
pub enum CuDFBinaryOp {
    /// operator +
    Add,
    /// operator -
    Sub,
    /// operator *
    Mul,
    /// operator / using common type of lhs and rhs
    Div,
    /// operator / after promoting type to floating point
    TrueDiv,
    /// operator // (floor division)
    FloorDiv,
    /// operator %
    Mod,
    /// positive modulo operator
    PMod,
    /// operator % but following Python's sign rules for negatives
    PyMod,
    /// lhs ^ rhs
    Pow,
    /// int ^ int, used to avoid floating point precision loss
    IntPow,
    /// logarithm to the base
    LogBase,
    /// 2-argument arctangent
    Atan2,
    /// operator <<
    ShiftLeft,
    /// operator >>
    ShiftRight,
    /// operator >>> (logical right shift, from Java)
    ShiftRightUnsigned,
    /// operator &
    BitwiseAnd,
    /// operator |
    BitwiseOr,
    /// operator ^
    BitwiseXor,
    /// operator &&
    LogicalAnd,
    /// operator ||
    LogicalOr,
    /// operator ==
    Equal,
    /// operator !=
    NotEqual,
    /// operator <
    Less,
    /// operator >
    Greater,
    /// operator <=
    LessEqual,
    /// operator >=
    GreaterEqual,
    /// Returns true when both operands are null; false when one is null;
    /// the result of equality when both are non-null
    NullEquals,
    /// Returns false when both operands are null; true when one is null;
    /// the result of inequality when both are non-null
    NullNotEquals,
    /// Returns max of operands when both are non-null; returns the non-null
    /// operand when one is null; or invalid when both are null
    NullMax,
    /// Returns min of operands when both are non-null; returns the non-null
    /// operand when one is null; or invalid when both are null
    NullMin,
    /// generic binary operator to be generated with input ptx code
    GenericBinary,
    /// operator && with Spark rules
    NullLogicalAnd,
    /// operator || with Spark rules
    NullLogicalOr,
    /// invalid operation sentinel
    InvalidBinary,
}

impl CuDFBinaryOp {
    /// The number of this operator in cuDF's `binary_operator` enum.
    pub open spec fn spec_code(self) -> i32 {
        match self {
            CuDFBinaryOp::Add => 0,
            CuDFBinaryOp::Sub => 1,
            CuDFBinaryOp::Mul => 2,
            CuDFBinaryOp::Div => 3,
            CuDFBinaryOp::TrueDiv => 4,
            CuDFBinaryOp::FloorDiv => 5,
            CuDFBinaryOp::Mod => 6,
            CuDFBinaryOp::PMod => 7,
            CuDFBinaryOp::PyMod => 8,
            CuDFBinaryOp::Pow => 9,
            CuDFBinaryOp::IntPow => 10,
            CuDFBinaryOp::LogBase => 11,
            CuDFBinaryOp::Atan2 => 12,
            CuDFBinaryOp::ShiftLeft => 13,
            CuDFBinaryOp::ShiftRight => 14,
            CuDFBinaryOp::ShiftRightUnsigned => 15,
            CuDFBinaryOp::BitwiseAnd => 16,
            CuDFBinaryOp::BitwiseOr => 17,
            CuDFBinaryOp::BitwiseXor => 18,
            CuDFBinaryOp::LogicalAnd => 19,
            CuDFBinaryOp::LogicalOr => 20,
            CuDFBinaryOp::Equal => 21,
            CuDFBinaryOp::NotEqual => 22,
            CuDFBinaryOp::Less => 23,
            CuDFBinaryOp::Greater => 24,
            CuDFBinaryOp::LessEqual => 25,
            CuDFBinaryOp::GreaterEqual => 26,
            CuDFBinaryOp::NullEquals => 27,
            CuDFBinaryOp::NullNotEquals => 28,
            CuDFBinaryOp::NullMax => 29,
            CuDFBinaryOp::NullMin => 30,
            CuDFBinaryOp::GenericBinary => 31,
            CuDFBinaryOp::NullLogicalAnd => 32,
            CuDFBinaryOp::NullLogicalOr => 33,
            CuDFBinaryOp::InvalidBinary => 34,
        }
    }

    /// The number of this operator in cuDF's `binary_operator` enum.
    pub fn code(self) -> (r: i32)
        ensures
            r == self.spec_code(),
    {
        match self {
            CuDFBinaryOp::Add => 0,
            CuDFBinaryOp::Sub => 1,
            CuDFBinaryOp::Mul => 2,
            CuDFBinaryOp::Div => 3,
            CuDFBinaryOp::TrueDiv => 4,
            CuDFBinaryOp::FloorDiv => 5,
            CuDFBinaryOp::Mod => 6,
            CuDFBinaryOp::PMod => 7,
            CuDFBinaryOp::PyMod => 8,
            CuDFBinaryOp::Pow => 9,
            CuDFBinaryOp::IntPow => 10,
            CuDFBinaryOp::LogBase => 11,
            CuDFBinaryOp::Atan2 => 12,
            CuDFBinaryOp::ShiftLeft => 13,
            CuDFBinaryOp::ShiftRight => 14,
            CuDFBinaryOp::ShiftRightUnsigned => 15,
            CuDFBinaryOp::BitwiseAnd => 16,
            CuDFBinaryOp::BitwiseOr => 17,
            CuDFBinaryOp::BitwiseXor => 18,
            CuDFBinaryOp::LogicalAnd => 19,
            CuDFBinaryOp::LogicalOr => 20,
            CuDFBinaryOp::Equal => 21,
            CuDFBinaryOp::NotEqual => 22,
            CuDFBinaryOp::Less => 23,
            CuDFBinaryOp::Greater => 24,
            CuDFBinaryOp::LessEqual => 25,
            CuDFBinaryOp::GreaterEqual => 26,
            CuDFBinaryOp::NullEquals => 27,
            CuDFBinaryOp::NullNotEquals => 28,
            CuDFBinaryOp::NullMax => 29,
            CuDFBinaryOp::NullMin => 30,
            CuDFBinaryOp::GenericBinary => 31,
            CuDFBinaryOp::NullLogicalAnd => 32,
            CuDFBinaryOp::NullLogicalOr => 33,
            CuDFBinaryOp::InvalidBinary => 34,
        }
    }
}

/// DataFusion's binary operators (`datafusion_expr::Operator`).
#[derive(Clone, Copy, PartialEq, Eq, Debug, Hash, Structural)]
pub enum Operator {
    Eq,
    NotEq,
    Lt,
    LtEq,
    Gt,
    GtEq,
    Plus,
    Minus,
    Multiply,
    Divide,
    Modulo,
    And,
    Or,
    IsDistinctFrom,
    IsNotDistinctFrom,
    RegexMatch,
    RegexIMatch,
    RegexNotMatch,
    RegexNotIMatch,
    LikeMatch,
    ILikeMatch,
    NotLikeMatch,
    NotILikeMatch,
    BitwiseAnd,
    BitwiseOr,
    BitwiseXor,
    BitwiseShiftRight,
    BitwiseShiftLeft,
    StringConcat,
    AtArrow,
    ArrowAt,
    Arrow,
    LongArrow,
    HashArrow,
    HashLongArrow,
    AtAt,
    IntegerDivide,
    HashMinus,
    AtQuestion,
    Question,
    QuestionAnd,
    QuestionPipe,
    Colon,
}

/// The cuDF operation that carries out a DataFusion operator, if cuDF has one.
pub open spec fn spec_map_op(op: Operator) -> Option<CuDFBinaryOp> {
    match op {
        Operator::Eq => Some(CuDFBinaryOp::Equal),
        Operator::NotEq => Some(CuDFBinaryOp::NotEqual),
        Operator::Lt => Some(CuDFBinaryOp::Less),
        Operator::LtEq => Some(CuDFBinaryOp::LessEqual),
        Operator::Gt => Some(CuDFBinaryOp::Greater),
        Operator::GtEq => Some(CuDFBinaryOp::GreaterEqual),
        Operator::Plus => Some(CuDFBinaryOp::Add),
        Operator::Minus => Some(CuDFBinaryOp::Sub),
        Operator::Multiply => Some(CuDFBinaryOp::Mul),
        Operator::Divide => Some(CuDFBinaryOp::Div),
        Operator::Modulo => Some(CuDFBinaryOp::Mod),
        Operator::And => Some(CuDFBinaryOp::LogicalAnd),
        Operator::Or => Some(CuDFBinaryOp::LogicalOr),
        Operator::IsDistinctFrom => Some(CuDFBinaryOp::NullNotEquals),
        Operator::IsNotDistinctFrom => Some(CuDFBinaryOp::NullEquals),
        Operator::BitwiseAnd => Some(CuDFBinaryOp::BitwiseAnd),
        Operator::BitwiseOr => Some(CuDFBinaryOp::BitwiseOr),
        Operator::BitwiseXor => Some(CuDFBinaryOp::BitwiseXor),
        Operator::BitwiseShiftRight => Some(CuDFBinaryOp::ShiftRight),
        Operator::BitwiseShiftLeft => Some(CuDFBinaryOp::ShiftLeft),
        Operator::IntegerDivide => Some(CuDFBinaryOp::FloorDiv),
        _ => None,
    }
}

pub fn map_op(op: Operator) -> (r: Option<CuDFBinaryOp>)
    ensures
        r == spec_map_op(op),
{
    match op {
        // Comparison operators
        Operator::Eq => Some(CuDFBinaryOp::Equal),
        Operator::NotEq => Some(CuDFBinaryOp::NotEqual),
        Operator::Lt => Some(CuDFBinaryOp::Less),
        Operator::LtEq => Some(CuDFBinaryOp::LessEqual),
        Operator::Gt => Some(CuDFBinaryOp::Greater),
        Operator::GtEq => Some(CuDFBinaryOp::GreaterEqual),
        // Arithmetic operators
        Operator::Plus => Some(CuDFBinaryOp::Add),
        Operator::Minus => Some(CuDFBinaryOp::Sub),
        Operator::Multiply => Some(CuDFBinaryOp::Mul),
        Operator::Divide => Some(CuDFBinaryOp::Div),
        Operator::Modulo => Some(CuDFBinaryOp::Mod),
        // Logical operators (DataFusion And/Or are logical, not bitwise)
        Operator::And => Some(CuDFBinaryOp::LogicalAnd),
        Operator::Or => Some(CuDFBinaryOp::LogicalOr),
        // Null-aware comparison
        Operator::IsDistinctFrom => Some(CuDFBinaryOp::NullNotEquals),
        Operator::IsNotDistinctFrom => Some(CuDFBinaryOp::NullEquals),
        // Bitwise operators
        Operator::BitwiseAnd => Some(CuDFBinaryOp::BitwiseAnd),
        Operator::BitwiseOr => Some(CuDFBinaryOp::BitwiseOr),
        Operator::BitwiseXor => Some(CuDFBinaryOp::BitwiseXor),
        Operator::BitwiseShiftRight => Some(CuDFBinaryOp::ShiftRight),
        Operator::BitwiseShiftLeft => Some(CuDFBinaryOp::ShiftLeft),
        // Integer division
        Operator::IntegerDivide => Some(CuDFBinaryOp::FloorDiv),
        // Regex, LIKE, string concatenation and the PostgreSQL-specific
        // operators have no cuDF binary operation
        Operator::RegexMatch | Operator::RegexIMatch | Operator::RegexNotMatch
        | Operator::RegexNotIMatch | Operator::LikeMatch | Operator::ILikeMatch
        | Operator::NotLikeMatch | Operator::NotILikeMatch | Operator::StringConcat
        | Operator::AtArrow | Operator::ArrowAt | Operator::Arrow | Operator::LongArrow
        | Operator::HashArrow | Operator::HashLongArrow | Operator::AtAt | Operator::HashMinus
        | Operator::AtQuestion | Operator::Question | Operator::QuestionAnd
        | Operator::QuestionPipe | Operator::Colon => None,
    }
}

/// Distinct DataFusion operators are carried out by distinct cuDF operations,
/// and none by the sentinel operations.
pub proof fn lemma_map_op_injective(a: Operator, b: Operator)
    requires
        spec_map_op(a) is Some,
    ensures
        spec_map_op(a) == spec_map_op(b) ==> a == b,
        spec_map_op(a) != Some(CuDFBinaryOp::InvalidBinary),
        spec_map_op(a) != Some(CuDFBinaryOp::GenericBinary),
{
}

/// A value that an expression takes on one row: an integer or a truth value.
pub enum ExprValue {
    Int(int),
    Bool(bool),
}

/// Integer division truncating toward zero, as SQL and cuDF divide integers.
pub open spec fn trunc_div(x: int, y: int) -> int {
    let q = (if x >= 0 { x } else { -x }) / (if y >= 0 { y } else { -y });
    if (x >= 0) == (y >= 0) { q } else { -q }
}

/// The remainder that goes with `trunc_div`: it takes the sign of `x`.
pub open spec fn trunc_rem(x: int, y: int) -> int {
    x - y * trunc_div(x, y)
}

/// What a DataFusion operator computes on two values, for the comparisons
/// (null-safe ones included, on non-null values), the operators `+`, `-`, `*`,
/// `/`, `%` (with a nonzero divisor) and the logical connectives (`None` for
/// anything else, or for values of the wrong kind).
pub open spec fn host_apply(op: Operator, a: ExprValue, b: ExprValue) -> Option<ExprValue> {
    match (a, b) {
        (ExprValue::Int(x), ExprValue::Int(y)) => match op {
            Operator::Eq => Some(ExprValue::Bool(x == y)),
            Operator::NotEq => Some(ExprValue::Bool(x != y)),
            Operator::Lt => Some(ExprValue::Bool(x < y)),
            Operator::LtEq => Some(ExprValue::Bool(x <= y)),
            Operator::Gt => Some(ExprValue::Bool(x > y)),
            Operator::GtEq => Some(ExprValue::Bool(x >= y)),
            Operator::Plus => Some(ExprValue::Int(x + y)),
            Operator::Minus => Some(ExprValue::Int(x - y)),
            Operator::Multiply => Some(ExprValue::Int(x * y)),
            Operator::Divide => if y != 0 { Some(ExprValue::Int(trunc_div(x, y))) } else { None },
            Operator::Modulo => if y != 0 { Some(ExprValue::Int(trunc_rem(x, y))) } else { None },
            Operator::IsDistinctFrom => Some(ExprValue::Bool(x != y)),
            Operator::IsNotDistinctFrom => Some(ExprValue::Bool(x == y)),
            _ => None,
        },
        (ExprValue::Bool(p), ExprValue::Bool(q)) => match op {
            Operator::And => Some(ExprValue::Bool(p && q)),
            Operator::Or => Some(ExprValue::Bool(p || q)),
            _ => None,
        },
        _ => None,
    }
}

/// What a cuDF binary operation computes on two values, for the comparisons
/// (null-aware ones included, on non-null values), `+`, `-`, `*`, `/`, `%`
/// (with a nonzero divisor) and the logical connectives.
pub open spec fn cudf_apply(op: CuDFBinaryOp, a: ExprValue, b: ExprValue) -> Option<ExprValue> {
    match (a, b) {
        (ExprValue::Int(x), ExprValue::Int(y)) => match op {
            CuDFBinaryOp::Equal => Some(ExprValue::Bool(x == y)),
            CuDFBinaryOp::NotEqual => Some(ExprValue::Bool(x != y)),
            CuDFBinaryOp::Less => Some(ExprValue::Bool(x < y)),
            CuDFBinaryOp::LessEqual => Some(ExprValue::Bool(x <= y)),
            CuDFBinaryOp::Greater => Some(ExprValue::Bool(x > y)),
            CuDFBinaryOp::GreaterEqual => Some(ExprValue::Bool(x >= y)),
            CuDFBinaryOp::Add => Some(ExprValue::Int(x + y)),
            CuDFBinaryOp::Sub => Some(ExprValue::Int(x - y)),
            CuDFBinaryOp::Mul => Some(ExprValue::Int(x * y)),
            CuDFBinaryOp::Div => if y != 0 { Some(ExprValue::Int(trunc_div(x, y))) } else { None },
            CuDFBinaryOp::Mod => if y != 0 { Some(ExprValue::Int(trunc_rem(x, y))) } else { None },
            CuDFBinaryOp::NullNotEquals => Some(ExprValue::Bool(x != y)),
            CuDFBinaryOp::NullEquals => Some(ExprValue::Bool(x == y)),
            _ => None,
        },
        (ExprValue::Bool(p), ExprValue::Bool(q)) => match op {
            CuDFBinaryOp::LogicalAnd => Some(ExprValue::Bool(p && q)),
            CuDFBinaryOp::LogicalOr => Some(ExprValue::Bool(p || q)),
            _ => None,
        },
        _ => None,
    }
}

/// The cuDF operation of a DataFusion operator computes what the operator
/// computes: wherever the operator is defined on two values, its cuDF
/// operation gives the same result (so `<` is carried out as `<`, never as `>`).
pub proof fn lemma_map_op_keeps_values(op: Operator, a: ExprValue, b: ExprValue)
    requires
        host_apply(op, a, b) is Some,
    ensures
        spec_map_op(op) is Some,
        cudf_apply(spec_map_op(op)->0, a, b) == host_apply(op, a, b),
{
}

/// Errors of a cuDF binary expression.
#[derive(Clone, Copy, PartialEq, Eq, Debug, Structural)]
pub enum BinaryExprError {
    /// `Operator {op:?} is not supported by cuDF`
    UnsupportedOperator { op: Operator },
    /// cuDF has no binary operation between two scalars.
    ScalarScalar,
}

/// The cuDF operation of a DataFusion binary expression, as a cuDF binary
/// expression is built from it; an operator without one is refused.
pub fn cudf_operator(op: Operator) -> (r: Result<CuDFBinaryOp, BinaryExprError>)
    ensures
        r == (match spec_map_op(op) {
            Some(c) => Ok(c),
            None => Err(BinaryExprError::UnsupportedOperator { op }),
        }),
{
    match map_op(op) {
        Some(c) => Ok(c),
        None => Err(BinaryExprError::UnsupportedOperator { op }),
    }
}

/// The output type cuDF is asked for: cuDF requires max precision for decimal
/// output types; other types are kept.
pub open spec fn spec_cudf_output_type(expected: DataType) -> DataType {
    match expected {
        DataType::Decimal128(_, scale) => DataType::Decimal128(38, scale),
        DataType::Decimal32(_, scale) => DataType::Decimal32(9, scale),
        DataType::Decimal64(_, scale) => DataType::Decimal64(18, scale),
        _ => expected,
    }
}

pub fn cudf_output_type(expected: DataType) -> (r: DataType)
    ensures
        r == spec_cudf_output_type(expected),
{
    match expected {
        DataType::Decimal128(_, scale) => DataType::Decimal128(38, scale),
        DataType::Decimal32(_, scale) => DataType::Decimal32(9, scale),
        DataType::Decimal64(_, scale) => DataType::Decimal64(18, scale),
        _ => expected,
    }
}

/// Widening the precision keeps what is a supported decimal, and its scale;
/// widening twice is widening once.
pub proof fn lemma_cudf_output_type_keeps_scale(t: DataType)
    ensures
        spec_decimal_parts(spec_cudf_output_type(t)) is Some <==> spec_decimal_parts(t) is Some,
        scale_of(spec_cudf_output_type(t)) == scale_of(t),
        spec_cudf_output_type(spec_cudf_output_type(t)) == spec_cudf_output_type(t),
{
}

/// How a cuDF binary expression evaluates on a batch: the type it asks cuDF
/// for, and whether it goes through the decimal division.
#[derive(Clone, Copy, PartialEq, Eq, Debug, Structural)]
pub struct BinaryEvaluation {
    pub output_type: DataType,
    pub decimal_division: bool,
}

/// Decides how a cuDF binary expression with operation `op` and result type
/// `expected` evaluates operands of types `lhs_type` and `rhs_type`.
pub fn binary_evaluation(op: CuDFBinaryOp, expected: DataType, lhs_type: DataType, rhs_type: DataType) -> (r:
    BinaryEvaluation)
    ensures
        r.output_type == spec_cudf_output_type(expected),
        r.decimal_division == (op == CuDFBinaryOp::Div && spec_decimal_parts(expected) is Some
            && spec_decimal_parts(lhs_type) is Some && spec_decimal_parts(rhs_type) is Some),
{
    let output_type = cudf_output_type(expected);
    let decimal_division = op == CuDFBinaryOp::Div && is_decimal_division(expected, lhs_type, rhs_type);
    BinaryEvaluation { output_type, decimal_division }
}

/// Which of cuDF's binary operation functions applies to the operands.
#[derive(Clone, Copy, PartialEq, Eq, Debug, Structural)]
pub enum BinaryOperands {
    ColumnColumn,
    ColumnScalar,
    ScalarColumn,
}

/// The cuDF function for a column or scalar on each side; two scalars are refused.
pub fn binary_operands(lhs_is_scalar: bool, rhs_is_scalar: bool) -> (r: Result<BinaryOperands, BinaryExprError>)
    ensures
        r == (if lhs_is_scalar && rhs_is_scalar {
            Err(BinaryExprError::ScalarScalar)
        } else if lhs_is_scalar {
            Ok(BinaryOperands::ScalarColumn)
        } else if rhs_is_scalar {
            Ok(BinaryOperands::ColumnScalar)
        } else {
            Ok(BinaryOperands::ColumnColumn)
        }),
{
    match (lhs_is_scalar, rhs_is_scalar) {
        (false, false) => Ok(BinaryOperands::ColumnColumn),
        (false, true) => Ok(BinaryOperands::ColumnScalar),
        (true, false) => Ok(BinaryOperands::ScalarColumn),
        (true, true) => Err(BinaryExprError::ScalarScalar),
    }
}

} // verus!
