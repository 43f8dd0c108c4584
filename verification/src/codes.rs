//! The enumerations that cross the boundary to the cuDF C++ library, each with
//! the number that cuDF gives its values.
use vstd::prelude::*;

verus! {

/// Sort order for columns
///
/// Specifies whether columns should be sorted in ascending or descending order.
#[derive(Clone, Copy, PartialEq, Eq, Debug, Hash, Structural)]
pub enum Order {
    /// Sort from smallest to largest
    Ascending,
    /// Sort from largest to smallest
    Descending,
}

impl Order {
    /// The number that cuDF gives this value across the C++ boundary.
    pub open spec fn spec_code(self) -> i32 {
        match self {
            Order::Ascending => 0,
            Order::Descending => 1,
        }
    }

    /// The number that cuDF gives this value across the C++ boundary.
    pub fn code(self) -> (r: i32)
        ensures
            r == self.spec_code(),
    {
        match self {
            Order::Ascending => 0,
            Order::Descending => 1,
        }
    }
}

/// Each value of `Order` has its own code, and the codes run from 0 to 1.
pub proof fn lemma_order_codes(a: Order, b: Order)
    ensures
        0 <= a.spec_code() <= 1,
        a.spec_code() == b.spec_code() ==> a == b,
{
}

/// Null ordering for sorting
///
/// Specifies whether null values should appear before or after non-null values.
#[derive(Clone, Copy, PartialEq, Eq, Debug, Hash, Structural)]
pub enum NullOrder {
    /// Nulls appear after all other values
    After,
    /// Nulls appear before all other values
    Before,
}

impl NullOrder {
    /// The number that cuDF gives this value across the C++ boundary.
    pub open spec fn spec_code(self) -> i32 {
        match self {
            NullOrder::After => 0,
            NullOrder::Before => 1,
        }
    }

    /// The number that cuDF gives this value across the C++ boundary.
    pub fn code(self) -> (r: i32)
        ensures
            r == self.spec_code(),
    {
        match self {
            NullOrder::After => 0,
            NullOrder::Before => 1,
        }
    }
}

/// Each value of `NullOrder` has its own code, and the codes run from 0 to 1.
pub proof fn lemma_null_order_codes(a: NullOrder, b: NullOrder)
    ensures
        0 <= a.spec_code() <= 1,
        a.spec_code() == b.spec_code() ==> a == b,
{
}

/// Null handling policy.
#[derive(Clone, Copy, PartialEq, Eq, Debug, Hash, Structural)]
pub enum NullPolicy {
    /// Exclude null elements.
    Exclude,
    /// Include null elements.
    Include,
}

impl NullPolicy {
    /// The number that cuDF gives this value across the C++ boundary.
    pub open spec fn spec_code(self) -> i32 {
        match self {
            NullPolicy::Exclude => 0,
            NullPolicy::Include => 1,
        }
    }

    /// The number that cuDF gives this value across the C++ boundary.
    pub fn code(self) -> (r: i32)
        ensures
            r == self.spec_code(),
    {
        match self {
            NullPolicy::Exclude => 0,
            NullPolicy::Include => 1,
        }
    }
}

/// Each value of `NullPolicy` has its own code, and the codes run from 0 to 1.
pub proof fn lemma_null_policy_codes(a: NullPolicy, b: NullPolicy)
    ensures
        0 <= a.spec_code() <= 1,
        a.spec_code() == b.spec_code() ==> a == b,
{
}

/// Whether values are known to be sorted.
#[derive(Clone, Copy, PartialEq, Eq, Debug, Hash, Structural)]
pub enum Sorted {
    /// Values are not known to be sorted.
    No,
    /// Values are known to be sorted.
    Yes,
}

impl Sorted {
    /// The number that cuDF gives this value across the C++ boundary.
    pub open spec fn spec_code(self) -> i32 {
        match self {
            Sorted::No => 0,
            Sorted::Yes => 1,
        }
    }

    /// The number that cuDF gives this value across the C++ boundary.
    pub fn code(self) -> (r: i32)
        ensures
            r == self.spec_code(),
    {
        match self {
            Sorted::No => 0,
            Sorted::Yes => 1,
        }
    }
}

/// Each value of `Sorted` has its own code, and the codes run from 0 to 1.
pub proof fn lemma_sorted_codes(a: Sorted, b: Sorted)
    ensures
        0 <= a.spec_code() <= 1,
        a.spec_code() == b.spec_code() ==> a == b,
{
}

/// Policy for out-of-bounds gather indices.
#[derive(Clone, Copy, PartialEq, Eq, Debug, Hash, Structural)]
pub enum OutOfBoundsPolicy {
    /// Out-of-bounds rows become null rows.
    Nullify,
    /// Do not check bounds.
    DontCheck,
}

impl OutOfBoundsPolicy {
    /// The number that cuDF gives this value across the C++ boundary.
    pub open spec fn spec_code(self) -> i32 {
        match self {
            OutOfBoundsPolicy::Nullify => 0,
            OutOfBoundsPolicy::DontCheck => 1,
        }
    }

    /// The number that cuDF gives this value across the C++ boundary.
    pub fn code(self) -> (r: i32)
        ensures
            r == self.spec_code(),
    {
        match self {
            OutOfBoundsPolicy::Nullify => 0,
            OutOfBoundsPolicy::DontCheck => 1,
        }
    }
}

/// Each value of `OutOfBoundsPolicy` has its own code, and the codes run from 0 to 1.
pub proof fn lemma_out_of_bounds_policy_codes(a: OutOfBoundsPolicy, b: OutOfBoundsPolicy)
    ensures
        0 <= a.spec_code() <= 1,
        a.spec_code() == b.spec_code() ==> a == b,
{
}

/// Null comparison policy for join keys.
#[derive(Clone, Copy, PartialEq, Eq, Debug, Hash, Structural)]
pub enum NullEquality {
    /// Null values compare equal.
    Equal,
    /// Null values do not compare equal.
    Unequal,
}

impl NullEquality {
    /// The number that cuDF gives this value across the C++ boundary.
    pub open spec fn spec_code(self) -> i32 {
        match self {
            NullEquality::Equal => 0,
            NullEquality::Unequal => 1,
        }
    }

    /// The number that cuDF gives this value across the C++ boundary.
    pub fn code(self) -> (r: i32)
        ensures
            r == self.spec_code(),
    {
        match self {
            NullEquality::Equal => 0,
            NullEquality::Unequal => 1,
        }
    }
}

/// Each value of `NullEquality` has its own code, and the codes run from 0 to 1.
pub proof fn lemma_null_equality_codes(a: NullEquality, b: NullEquality)
    ensures
        0 <= a.spec_code() <= 1,
        a.spec_code() == b.spec_code() ==> a == b,
{
}

/// cuDF join kind.
#[derive(Clone, Copy, PartialEq, Eq, Debug, Hash, Structural)]
pub enum JoinKind {
    /// Inner join.
    Inner,
    /// Left join.
    Left,
    /// Full join.
    Full,
    /// Left semi join.
    LeftSemi,
    /// Left anti join.
    LeftAnti,
}

impl JoinKind {
    /// The number that cuDF gives this value across the C++ boundary.
    pub open spec fn spec_code(self) -> i32 {
        match self {
            JoinKind::Inner => 0,
            JoinKind::Left => 1,
            JoinKind::Full => 2,
            JoinKind::LeftSemi => 3,
            JoinKind::LeftAnti => 4,
        }
    }

    /// The number that cuDF gives this value across the C++ boundary.
    pub fn code(self) -> (r: i32)
        ensures
            r == self.spec_code(),
    {
        match self {
            JoinKind::Inner => 0,
            JoinKind::Left => 1,
            JoinKind::Full => 2,
            JoinKind::LeftSemi => 3,
            JoinKind::LeftAnti => 4,
        }
    }
}

/// Each value of `JoinKind` has its own code, and the codes run from 0 to 4.
pub proof fn lemma_join_kind_codes(a: JoinKind, b: JoinKind)
    ensures
        0 <= a.spec_code() <= 4,
        a.spec_code() == b.spec_code() ==> a == b,
{
}

/// Which table a reusable filtered join treats as its build table.
#[derive(Clone, Copy, PartialEq, Eq, Debug, Hash, Structural)]
pub enum SetAsBuildTable {
    /// The build table is the left table.
    Left,
    /// The build table is the right table.
    Right,
}

impl SetAsBuildTable {
    /// The number that cuDF gives this value across the C++ boundary.
    pub open spec fn spec_code(self) -> i32 {
        match self {
            SetAsBuildTable::Left => 0,
            SetAsBuildTable::Right => 1,
        }
    }

    /// The number that cuDF gives this value across the C++ boundary.
    pub fn code(self) -> (r: i32)
        ensures
            r == self.spec_code(),
    {
        match self {
            SetAsBuildTable::Left => 0,
            SetAsBuildTable::Right => 1,
        }
    }
}

/// Each value of `SetAsBuildTable` has its own code, and the codes run from 0 to 1.
pub proof fn lemma_set_as_build_table_codes(a: SetAsBuildTable, b: SetAsBuildTable)
    ensures
        0 <= a.spec_code() <= 1,
        a.spec_code() == b.spec_code() ==> a == b,
{
}

/// cuDF AST table reference.
#[derive(Clone, Copy, PartialEq, Eq, Debug, Hash, Structural)]
pub enum AstTableReference {
    /// Column index in the left table.
    Left,
    /// Column index in the right table.
    Right,
    /// Column index in the output table.
    Output,
}

impl AstTableReference {
    /// The number that cuDF gives this value across the C++ boundary.
    pub open spec fn spec_code(self) -> i32 {
        match self {
            AstTableReference::Left => 0,
            AstTableReference::Right => 1,
            AstTableReference::Output => 2,
        }
    }

    /// The number that cuDF gives this value across the C++ boundary.
    pub fn code(self) -> (r: i32)
        ensures
            r == self.spec_code(),
    {
        match self {
            AstTableReference::Left => 0,
            AstTableReference::Right => 1,
            AstTableReference::Output => 2,
        }
    }
}

/// Each value of `AstTableReference` has its own code, and the codes run from 0 to 2.
pub proof fn lemma_ast_table_reference_codes(a: AstTableReference, b: AstTableReference)
    ensures
        0 <= a.spec_code() <= 2,
        a.spec_code() == b.spec_code() ==> a == b,
{
}

/// cuDF AST operators.
#[derive(Clone, Copy, PartialEq, Eq, Debug, Hash, Structural)]
pub enum AstOperator {
    /// Addition.
    Add,
    /// Subtraction.
    Sub,
    /// Multiplication.
    Mul,
    /// Division.
    Div,
    /// True division.
    TrueDiv,
    /// Floor division.
    FloorDiv,
    /// Modulo.
    Mod,
    /// Python-style modulo.
    PyMod,
    /// Power.
    Pow,
    /// Equality comparison.
    Equal,
    /// Null-aware equality comparison.
    NullEqual,
    /// Non-equality comparison.
    NotEqual,
    /// Less-than comparison.
    Less,
    /// Greater-than comparison.
    Greater,
    /// Less-than-or-equal comparison.
    LessEqual,
    /// Greater-than-or-equal comparison.
    GreaterEqual,
    /// Bitwise AND.
    BitwiseAnd,
    /// Bitwise OR.
    BitwiseOr,
    /// Bitwise XOR.
    BitwiseXor,
    /// Logical AND.
    LogicalAnd,
    /// Null-aware logical AND.
    NullLogicalAnd,
    /// Logical OR.
    LogicalOr,
    /// Null-aware logical OR.
    NullLogicalOr,
    /// Identity.
    Identity,
    /// Null check.
    IsNull,
    /// Sine.
    Sin,
    /// Cosine.
    Cos,
    /// Tangent.
    Tan,
    /// Inverse sine.
    ArcSin,
    /// Inverse cosine.
    ArcCos,
    /// Inverse tangent.
    ArcTan,
    /// Hyperbolic sine.
    Sinh,
    /// Hyperbolic cosine.
    Cosh,
    /// Hyperbolic tangent.
    Tanh,
    /// Inverse hyperbolic sine.
    ArcSinh,
    /// Inverse hyperbolic cosine.
    ArcCosh,
    /// Inverse hyperbolic tangent.
    ArcTanh,
    /// Exponential.
    Exp,
    /// Natural logarithm.
    Log,
    /// Square root.
    Sqrt,
    /// Cube root.
    Cbrt,
    /// Ceiling.
    Ceil,
    /// Floor.
    Floor,
    /// Absolute value.
    Abs,
    /// Round to integer.
    Rint,
    /// Bitwise invert.
    BitInvert,
    /// Logical NOT.
    Not,
    /// Cast to int64.
    CastToInt64,
    /// Cast to uint64.
    CastToUint64,
    /// Cast to float64.
    CastToFloat64,
}

impl AstOperator {
    /// The number that cuDF gives this value across the C++ boundary.
    pub open spec fn spec_code(self) -> i32 {
        match self {
            AstOperator::Add => 0,
            AstOperator::Sub => 1,
            AstOperator::Mul => 2,
            AstOperator::Div => 3,
            AstOperator::TrueDiv => 4,
            AstOperator::FloorDiv => 5,
            AstOperator::Mod => 6,
            AstOperator::PyMod => 7,
            AstOperator::Pow => 8,
            AstOperator::Equal => 9,
            AstOperator::NullEqual => 10,
            AstOperator::NotEqual => 11,
            AstOperator::Less => 12,
            AstOperator::Greater => 13,
            AstOperator::LessEqual => 14,
            AstOperator::GreaterEqual => 15,
            AstOperator::BitwiseAnd => 16,
            AstOperator::BitwiseOr => 17,
            AstOperator::BitwiseXor => 18,
            AstOperator::LogicalAnd => 19,
            AstOperator::NullLogicalAnd => 20,
            AstOperator::LogicalOr => 21,
            AstOperator::NullLogicalOr => 22,
            AstOperator::Identity => 23,
            AstOperator::IsNull => 24,
            AstOperator::Sin => 25,
            AstOperator::Cos => 26,
            AstOperator::Tan => 27,
            AstOperator::ArcSin => 28,
            AstOperator::ArcCos => 29,
            AstOperator::ArcTan => 30,
            AstOperator::Sinh => 31,
            AstOperator::Cosh => 32,
            AstOperator::Tanh => 33,
            AstOperator::ArcSinh => 34,
            AstOperator::ArcCosh => 35,
            AstOperator::ArcTanh => 36,
            AstOperator::Exp => 37,
            AstOperator::Log => 38,
            AstOperator::Sqrt => 39,
            AstOperator::Cbrt => 40,
            AstOperator::Ceil => 41,
            AstOperator::Floor => 42,
            AstOperator::Abs => 43,
            AstOperator::Rint => 44,
            AstOperator::BitInvert => 45,
            AstOperator::Not => 46,
            AstOperator::CastToInt64 => 47,
            AstOperator::CastToUint64 => 48,
            AstOperator::CastToFloat64 => 49,
        }
    }

    /// The number that cuDF gives this value across the C++ boundary.
    pub fn code(self) -> (r: i32)
        ensures
            r == self.spec_code(),
    {
        match self {
            AstOperator::Add => 0,
            AstOperator::Sub => 1,
            AstOperator::Mul => 2,
            AstOperator::Div => 3,
            AstOperator::TrueDiv => 4,
            AstOperator::FloorDiv => 5,
            AstOperator::Mod => 6,
            AstOperator::PyMod => 7,
            AstOperator::Pow => 8,
            AstOperator::Equal => 9,
            AstOperator::NullEqual => 10,
            AstOperator::NotEqual => 11,
            AstOperator::Less => 12,
            AstOperator::Greater => 13,
            AstOperator::LessEqual => 14,
            AstOperator::GreaterEqual => 15,
            AstOperator::BitwiseAnd => 16,
            AstOperator::BitwiseOr => 17,
            AstOperator::BitwiseXor => 18,
            AstOperator::LogicalAnd => 19,
            AstOperator::NullLogicalAnd => 20,
            AstOperator::LogicalOr => 21,
            AstOperator::NullLogicalOr => 22,
            AstOperator::Identity => 23,
            AstOperator::IsNull => 24,
            AstOperator::Sin => 25,
            AstOperator::Cos => 26,
            AstOperator::Tan => 27,
            AstOperator::ArcSin => 28,
            AstOperator::ArcCos => 29,
            AstOperator::ArcTan => 30,
            AstOperator::Sinh => 31,
            AstOperator::Cosh => 32,
            AstOperator::Tanh => 33,
            AstOperator::ArcSinh => 34,
            AstOperator::ArcCosh => 35,
            AstOperator::ArcTanh => 36,
            AstOperator::Exp => 37,
            AstOperator::Log => 38,
            AstOperator::Sqrt => 39,
            AstOperator::Cbrt => 40,
            AstOperator::Ceil => 41,
            AstOperator::Floor => 42,
            AstOperator::Abs => 43,
            AstOperator::Rint => 44,
            AstOperator::BitInvert => 45,
            AstOperator::Not => 46,
            AstOperator::CastToInt64 => 47,
            AstOperator::CastToUint64 => 48,
            AstOperator::CastToFloat64 => 49,
        }
    }
}

/// Each value of `AstOperator` has its own code, and the codes run from 0 to 49.
pub proof fn lemma_ast_operator_codes(a: AstOperator, b: AstOperator)
    ensures
        0 <= a.spec_code() <= 49,
        a.spec_code() == b.spec_code() ==> a == b,
{
}

/// NaN comparison policy.
#[derive(Clone, Copy, PartialEq, Eq, Debug, Hash, Structural)]
pub enum NanEquality {
    /// All NaN values compare equal.
    AllEqual,
    /// NaN values do not compare equal.
    Unequal,
}

impl NanEquality {
    /// The number that cuDF gives this value across the C++ boundary.
    pub open spec fn spec_code(self) -> i32 {
        match self {
            NanEquality::AllEqual => 0,
            NanEquality::Unequal => 1,
        }
    }

    /// The number that cuDF gives this value across the C++ boundary.
    pub fn code(self) -> (r: i32)
        ensures
            r == self.spec_code(),
    {
        match self {
            NanEquality::AllEqual => 0,
            NanEquality::Unequal => 1,
        }
    }
}

/// Each value of `NanEquality` has its own code, and the codes run from 0 to 1.
pub proof fn lemma_nan_equality_codes(a: NanEquality, b: NanEquality)
    ensures
        0 <= a.spec_code() <= 1,
        a.spec_code() == b.spec_code() ==> a == b,
{
}

/// Duplicate row retention policy.
#[derive(Clone, Copy, PartialEq, Eq, Debug, Hash, Structural)]
pub enum DuplicateKeepOption {
    /// Keep an unspecified duplicate occurrence.
    KeepAny,
    /// Keep the first duplicate occurrence.
    KeepFirst,
    /// Keep the last duplicate occurrence.
    KeepLast,
    /// Remove all duplicate occurrences.
    KeepNone,
}

impl DuplicateKeepOption {
    /// The number that cuDF gives this value across the C++ boundary.
    pub open spec fn spec_code(self) -> i32 {
        match self {
            DuplicateKeepOption::KeepAny => 0,
            DuplicateKeepOption::KeepFirst => 1,
            DuplicateKeepOption::KeepLast => 2,
            DuplicateKeepOption::KeepNone => 3,
        }
    }

    /// The number that cuDF gives this value across the C++ boundary.
    pub fn code(self) -> (r: i32)
        ensures
            r == self.spec_code(),
    {
        match self {
            DuplicateKeepOption::KeepAny => 0,
            DuplicateKeepOption::KeepFirst => 1,
            DuplicateKeepOption::KeepLast => 2,
            DuplicateKeepOption::KeepNone => 3,
        }
    }
}

/// Each value of `DuplicateKeepOption` has its own code, and the codes run from 0 to 3.
pub proof fn lemma_duplicate_keep_option_codes(a: DuplicateKeepOption, b: DuplicateKeepOption)
    ensures
        0 <= a.spec_code() <= 3,
        a.spec_code() == b.spec_code() ==> a == b,
{
}

/// Binary operators supported by cuDF
///
/// These operators can be used with binary_operation functions to perform
/// element-wise operations on columns and scalars.
#[derive(Clone, Copy, PartialEq, Eq, Debug, Hash, Structural)]
pub enum BinaryOperator {
    /// Addition (+)
    Add,
    /// Subtraction (-)
    Sub,
    /// Multiplication (*)
    Mul,
    /// Division (/)
    Div,
    /// True division (promotes to floating point)
    TrueDiv,
    /// Floor division (//)
    FloorDiv,
    /// Modulo (%)
    Mod,
    /// Positive modulo
    PMod,
    /// Python-style modulo
    PyMod,
    /// Power (^)
    Pow,
    /// Integer power
    IntPow,
    /// Logarithm to base
    LogBase,
    /// Two-argument arctangent
    Atan2,
    /// Shift left (<<)
    ShiftLeft,
    /// Shift right (>>)
    ShiftRight,
    /// Unsigned shift right (>>>)
    ShiftRightUnsigned,
    /// Bitwise AND (&)
    BitwiseAnd,
    /// Bitwise OR (|)
    BitwiseOr,
    /// Bitwise XOR (^)
    BitwiseXor,
    /// Logical AND (&&)
    LogicalAnd,
    /// Logical OR (||)
    LogicalOr,
    /// Equal (==)
    Equal,
    /// Not equal (!=)
    NotEqual,
    /// Less than (<)
    Less,
    /// Greater than (>)
    Greater,
    /// Less than or equal (<=)
    LessEqual,
    /// Greater than or equal (>=)
    GreaterEqual,
    /// Null-aware equality.
    NullEquals,
    /// Null-aware inequality.
    NullNotEquals,
    /// Null-aware maximum.
    NullMax,
    /// Null-aware minimum.
    NullMin,
    /// Generic binary operation generated from PTX.
    GenericBinary,
    /// Null-aware logical AND.
    NullLogicalAnd,
    /// Null-aware logical OR.
    NullLogicalOr,
    /// Invalid binary operation sentinel.
    InvalidBinary,
}

impl BinaryOperator {
    /// The number that cuDF gives this value across the C++ boundary.
    pub open spec fn spec_code(self) -> i32 {
        match self {
            BinaryOperator::Add => 0,
            BinaryOperator::Sub => 1,
            BinaryOperator::Mul => 2,
            BinaryOperator::Div => 3,
            BinaryOperator::TrueDiv => 4,
            BinaryOperator::FloorDiv => 5,
            BinaryOperator::Mod => 6,
            BinaryOperator::PMod => 7,
            BinaryOperator::PyMod => 8,
            BinaryOperator::Pow => 9,
            BinaryOperator::IntPow => 10,
            BinaryOperator::LogBase => 11,
            BinaryOperator::Atan2 => 12,
            BinaryOperator::ShiftLeft => 13,
            BinaryOperator::ShiftRight => 14,
            BinaryOperator::ShiftRightUnsigned => 15,
            BinaryOperator::BitwiseAnd => 16,
            BinaryOperator::BitwiseOr => 17,
            BinaryOperator::BitwiseXor => 18,
            BinaryOperator::LogicalAnd => 19,
            BinaryOperator::LogicalOr => 20,
            BinaryOperator::Equal => 21,
            BinaryOperator::NotEqual => 22,
            BinaryOperator::Less => 23,
            BinaryOperator::Greater => 24,
            BinaryOperator::LessEqual => 25,
            BinaryOperator::GreaterEqual => 26,
            BinaryOperator::NullEquals => 27,
            BinaryOperator::NullNotEquals => 28,
            BinaryOperator::NullMax => 29,
            BinaryOperator::NullMin => 30,
            BinaryOperator::GenericBinary => 31,
            BinaryOperator::NullLogicalAnd => 32,
            BinaryOperator::NullLogicalOr => 33,
            BinaryOperator::InvalidBinary => 34,
        }
    }

    /// The number that cuDF gives this value across the C++ boundary.
    pub fn code(self) -> (r: i32)
        ensures
            r == self.spec_code(),
    {
        match self {
            BinaryOperator::Add => 0,
            BinaryOperator::Sub => 1,
            BinaryOperator::Mul => 2,
            BinaryOperator::Div => 3,
            BinaryOperator::TrueDiv => 4,
            BinaryOperator::FloorDiv => 5,
            BinaryOperator::Mod => 6,
            BinaryOperator::PMod => 7,
            BinaryOperator::PyMod => 8,
            BinaryOperator::Pow => 9,
            BinaryOperator::IntPow => 10,
            BinaryOperator::LogBase => 11,
            BinaryOperator::Atan2 => 12,
            BinaryOperator::ShiftLeft => 13,
            BinaryOperator::ShiftRight => 14,
            BinaryOperator::ShiftRightUnsigned => 15,
            BinaryOperator::BitwiseAnd => 16,
            BinaryOperator::BitwiseOr => 17,
            BinaryOperator::BitwiseXor => 18,
            BinaryOperator::LogicalAnd => 19,
            BinaryOperator::LogicalOr => 20,
            BinaryOperator::Equal => 21,
            BinaryOperator::NotEqual => 22,
            BinaryOperator::Less => 23,
            BinaryOperator::Greater => 24,
            BinaryOperator::LessEqual => 25,
            BinaryOperator::GreaterEqual => 26,
            BinaryOperator::NullEquals => 27,
            BinaryOperator::NullNotEquals => 28,
            BinaryOperator::NullMax => 29,
            BinaryOperator::NullMin => 30,
            BinaryOperator::GenericBinary => 31,
            BinaryOperator::NullLogicalAnd => 32,
            BinaryOperator::NullLogicalOr => 33,
            BinaryOperator::InvalidBinary => 34,
        }
    }
}

/// Each value of `BinaryOperator` has its own code, and the codes run from 0 to 34.
pub proof fn lemma_binary_operator_codes(a: BinaryOperator, b: BinaryOperator)
    ensures
        0 <= a.spec_code() <= 34,
        a.spec_code() == b.spec_code() ==> a == b,
{
}

/// cuDF data type IDs
///
/// These correspond to cuDF's type_id enum and are used to specify
/// the output type for binary operations.
#[derive(Clone, Copy, PartialEq, Eq, Debug, Hash, Structural)]
pub enum TypeId {
    /// Empty type
    Empty,
    /// 8-bit signed integer
    Int8,
    /// 16-bit signed integer
    Int16,
    /// 32-bit signed integer
    Int32,
    /// 64-bit signed integer
    Int64,
    /// 8-bit unsigned integer
    Uint8,
    /// 16-bit unsigned integer
    Uint16,
    /// 32-bit unsigned integer
    Uint32,
    /// 64-bit unsigned integer
    Uint64,
    /// 32-bit floating point
    Float32,
    /// 64-bit floating point
    Float64,
    /// Boolean
    Bool8,
    /// Timestamp in days since epoch
    TimestampDays,
    /// Timestamp in seconds since epoch
    TimestampSeconds,
    /// Timestamp in milliseconds since epoch
    TimestampMilliseconds,
    /// Timestamp in microseconds since epoch
    TimestampMicroseconds,
    /// Timestamp in nanoseconds since epoch
    TimestampNanoseconds,
    /// Duration in days
    DurationDays,
    /// Duration in seconds
    DurationSeconds,
    /// Duration in milliseconds
    DurationMilliseconds,
    /// Duration in microseconds
    DurationMicroseconds,
    /// Duration in nanoseconds
    DurationNanoseconds,
    /// Dictionary (categorical) type with 32-bit indices
    Dictionary32,
    /// String type
    String,
    /// List type
    List,
    /// Decimal 32-bit
    Decimal32,
    /// Decimal 64-bit
    Decimal64,
    /// Decimal 128-bit
    Decimal128,
    /// Struct type
    Struct,
}

impl TypeId {
    /// The number that cuDF gives this value across the C++ boundary.
    pub open spec fn spec_code(self) -> i32 {
        match self {
            TypeId::Empty => 0,
            TypeId::Int8 => 1,
            TypeId::Int16 => 2,
            TypeId::Int32 => 3,
            TypeId::Int64 => 4,
            TypeId::Uint8 => 5,
            TypeId::Uint16 => 6,
            TypeId::Uint32 => 7,
            TypeId::Uint64 => 8,
            TypeId::Float32 => 9,
            TypeId::Float64 => 10,
            TypeId::Bool8 => 11,
            TypeId::TimestampDays => 12,
            TypeId::TimestampSeconds => 13,
            TypeId::TimestampMilliseconds => 14,
            TypeId::TimestampMicroseconds => 15,
            TypeId::TimestampNanoseconds => 16,
            TypeId::DurationDays => 17,
            TypeId::DurationSeconds => 18,
            TypeId::DurationMilliseconds => 19,
            TypeId::DurationMicroseconds => 20,
            TypeId::DurationNanoseconds => 21,
            TypeId::Dictionary32 => 22,
            TypeId::String => 23,
            TypeId::List => 24,
            TypeId::Decimal32 => 25,
            TypeId::Decimal64 => 26,
            TypeId::Decimal128 => 27,
            TypeId::Struct => 28,
        }
    }

    /// The number that cuDF gives this value across the C++ boundary.
    pub fn code(self) -> (r: i32)
        ensures
            r == self.spec_code(),
    {
        match self {
            TypeId::Empty => 0,
            TypeId::Int8 => 1,
            TypeId::Int16 => 2,
            TypeId::Int32 => 3,
            TypeId::Int64 => 4,
            TypeId::Uint8 => 5,
            TypeId::Uint16 => 6,
            TypeId::Uint32 => 7,
            TypeId::Uint64 => 8,
            TypeId::Float32 => 9,
            TypeId::Float64 => 10,
            TypeId::Bool8 => 11,
            TypeId::TimestampDays => 12,
            TypeId::TimestampSeconds => 13,
            TypeId::TimestampMilliseconds => 14,
            TypeId::TimestampMicroseconds => 15,
            TypeId::TimestampNanoseconds => 16,
            TypeId::DurationDays => 17,
            TypeId::DurationSeconds => 18,
            TypeId::DurationMilliseconds => 19,
            TypeId::DurationMicroseconds => 20,
            TypeId::DurationNanoseconds => 21,
            TypeId::Dictionary32 => 22,
            TypeId::String => 23,
            TypeId::List => 24,
            TypeId::Decimal32 => 25,
            TypeId::Decimal64 => 26,
            TypeId::Decimal128 => 27,
            TypeId::Struct => 28,
        }
    }
}

/// Each value of `TypeId` has its own code, and the codes run from 0 to 28.
pub proof fn lemma_type_id_codes(a: TypeId, b: TypeId)
    ensures
        0 <= a.spec_code() <= 28,
        a.spec_code() == b.spec_code() ==> a == b,
{
}

/// Arrow C Device Data Interface device types
///
/// These values correspond to the device types defined in the Arrow C Device
/// Data Interface specification.
///
/// See: <https://arrow.apache.org/docs/format/CDeviceDataInterface.html>
#[derive(Clone, Copy, PartialEq, Eq, Debug, Hash, Structural)]
pub enum ArrowDeviceType {
    Cpu,
    Cuda,
    CudaHost,
    OpenCL,
    Vulkan,
    Metal,
    VulkanHost,
    OpenCLHost,
    CudaManaged,
    OneAPI,
    WebGPU,
    Hexagon,
}

impl ArrowDeviceType {
    /// The number that cuDF gives this value across the C++ boundary.
    pub open spec fn spec_code(self) -> i32 {
        match self {
            ArrowDeviceType::Cpu => 1,
            ArrowDeviceType::Cuda => 2,
            ArrowDeviceType::CudaHost => 3,
            ArrowDeviceType::OpenCL => 4,
            ArrowDeviceType::Vulkan => 5,
            ArrowDeviceType::Metal => 6,
            ArrowDeviceType::VulkanHost => 7,
            ArrowDeviceType::OpenCLHost => 8,
            ArrowDeviceType::CudaManaged => 9,
            ArrowDeviceType::OneAPI => 10,
            ArrowDeviceType::WebGPU => 11,
            ArrowDeviceType::Hexagon => 12,
        }
    }

    /// The number that cuDF gives this value across the C++ boundary.
    pub fn code(self) -> (r: i32)
        ensures
            r == self.spec_code(),
    {
        match self {
            ArrowDeviceType::Cpu => 1,
            ArrowDeviceType::Cuda => 2,
            ArrowDeviceType::CudaHost => 3,
            ArrowDeviceType::OpenCL => 4,
            ArrowDeviceType::Vulkan => 5,
            ArrowDeviceType::Metal => 6,
            ArrowDeviceType::VulkanHost => 7,
            ArrowDeviceType::OpenCLHost => 8,
            ArrowDeviceType::CudaManaged => 9,
            ArrowDeviceType::OneAPI => 10,
            ArrowDeviceType::WebGPU => 11,
            ArrowDeviceType::Hexagon => 12,
        }
    }
}

/// Each value of `ArrowDeviceType` has its own code, and the codes run from 1 to 12.
pub proof fn lemma_arrow_device_type_codes(a: ArrowDeviceType, b: ArrowDeviceType)
    ensures
        1 <= a.spec_code() <= 12,
        a.spec_code() == b.spec_code() ==> a == b,
{
}

impl ArrowDeviceType {
    /// Device id for CPU devices: no specific device.
    pub const CPU_DEVICE_ID: i64 = -1;
}

impl From<ArrowDeviceType> for i32 {
    fn from(dt: ArrowDeviceType) -> (r: i32) {
        dt.code()
    }
}

impl vstd::std_specs::convert::FromSpecImpl<ArrowDeviceType> for i32 {
    open spec fn obeys_from_spec() -> bool {
        true
    }

    open spec fn from_spec(dt: ArrowDeviceType) -> i32 {
        dt.spec_code()
    }
}

/// The row index that cuDF's join functions write where a row has no match
/// (`cudf::JoinNoMatch`, the least `i32`).
pub fn join_no_match() -> (r: i32)
    ensures
        r == i32::MIN,
{
    i32::MIN
}

} // verus!
