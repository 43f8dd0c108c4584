use libcudf_rs::binary_op::{
    binary_evaluation, binary_operands, cudf_operator, cudf_output_type, map_op, BinaryEvaluation,
    BinaryExprError, BinaryOperands, CuDFBinaryOp, Operator,
};
use libcudf_rs::datatype::DataType;

#[test]
fn map_op_comparisons_and_arithmetic() {
    assert_eq!(map_op(Operator::Eq), Some(CuDFBinaryOp::Equal));
    assert_eq!(map_op(Operator::NotEq), Some(CuDFBinaryOp::NotEqual));
    assert_eq!(map_op(Operator::Lt), Some(CuDFBinaryOp::Less));
    assert_eq!(map_op(Operator::LtEq), Some(CuDFBinaryOp::LessEqual));
    assert_eq!(map_op(Operator::Gt), Some(CuDFBinaryOp::Greater));
    assert_eq!(map_op(Operator::GtEq), Some(CuDFBinaryOp::GreaterEqual));
    assert_eq!(map_op(Operator::Plus), Some(CuDFBinaryOp::Add));
    assert_eq!(map_op(Operator::Minus), Some(CuDFBinaryOp::Sub));
    assert_eq!(map_op(Operator::Multiply), Some(CuDFBinaryOp::Mul));
    assert_eq!(map_op(Operator::Divide), Some(CuDFBinaryOp::Div));
    assert_eq!(map_op(Operator::Modulo), Some(CuDFBinaryOp::Mod));
    assert_eq!(map_op(Operator::IntegerDivide), Some(CuDFBinaryOp::FloorDiv));
}

#[test]
fn map_op_logical_is_not_bitwise() {
    assert_eq!(map_op(Operator::And), Some(CuDFBinaryOp::LogicalAnd));
    assert_eq!(map_op(Operator::Or), Some(CuDFBinaryOp::LogicalOr));
    assert_eq!(map_op(Operator::BitwiseAnd), Some(CuDFBinaryOp::BitwiseAnd));
    assert_eq!(map_op(Operator::BitwiseOr), Some(CuDFBinaryOp::BitwiseOr));
    assert_eq!(map_op(Operator::BitwiseXor), Some(CuDFBinaryOp::BitwiseXor));
    assert_eq!(map_op(Operator::BitwiseShiftLeft), Some(CuDFBinaryOp::ShiftLeft));
    assert_eq!(map_op(Operator::BitwiseShiftRight), Some(CuDFBinaryOp::ShiftRight));
    assert_eq!(map_op(Operator::IsDistinctFrom), Some(CuDFBinaryOp::NullNotEquals));
    assert_eq!(map_op(Operator::IsNotDistinctFrom), Some(CuDFBinaryOp::NullEquals));
}

#[test]
fn map_op_unsupported() {
    for op in [
        Operator::RegexMatch,
        Operator::LikeMatch,
        Operator::StringConcat,
        Operator::AtArrow,
        Operator::Colon,
        Operator::QuestionPipe,
    ] {
        assert_eq!(map_op(op), None);
        assert_eq!(cudf_operator(op), Err(BinaryExprError::UnsupportedOperator { op }));
    }
    assert_eq!(cudf_operator(Operator::Plus), Ok(CuDFBinaryOp::Add));
}

#[test]
fn cudf_binary_op_codes() {
    assert_eq!(CuDFBinaryOp::Add.code(), 0);
    assert_eq!(CuDFBinaryOp::Div.code(), 3);
    assert_eq!(CuDFBinaryOp::LogicalAnd.code(), 19);
    assert_eq!(CuDFBinaryOp::Equal.code(), 21);
    assert_eq!(CuDFBinaryOp::InvalidBinary.code(), 34);
}

#[test]
fn output_type_takes_max_decimal_precision() {
    assert_eq!(cudf_output_type(DataType::Decimal128(10, 2)), DataType::Decimal128(38, 2));
    assert_eq!(cudf_output_type(DataType::Decimal64(10, 3)), DataType::Decimal64(18, 3));
    assert_eq!(cudf_output_type(DataType::Decimal32(4, 1)), DataType::Decimal32(9, 1));
    assert_eq!(cudf_output_type(DataType::Float64), DataType::Float64);
    assert_eq!(cudf_output_type(DataType::Decimal256(40, 2)), DataType::Decimal256(40, 2));
}

#[test]
fn evaluation_uses_decimal_division_only_for_decimal_div() {
    let d = DataType::Decimal128(10, 2);
    assert_eq!(
        binary_evaluation(CuDFBinaryOp::Div, DataType::Decimal128(21, 6), d, d),
        BinaryEvaluation { output_type: DataType::Decimal128(38, 6), decimal_division: true }
    );
    assert_eq!(
        binary_evaluation(CuDFBinaryOp::Mul, DataType::Decimal128(21, 4), d, d),
        BinaryEvaluation { output_type: DataType::Decimal128(38, 4), decimal_division: false }
    );
    assert_eq!(
        binary_evaluation(CuDFBinaryOp::Div, DataType::Float64, DataType::Float64, DataType::Float64),
        BinaryEvaluation { output_type: DataType::Float64, decimal_division: false }
    );
}

#[test]
fn operand_forms() {
    assert_eq!(binary_operands(false, false), Ok(BinaryOperands::ColumnColumn));
    assert_eq!(binary_operands(false, true), Ok(BinaryOperands::ColumnScalar));
    assert_eq!(binary_operands(true, false), Ok(BinaryOperands::ScalarColumn));
    assert_eq!(binary_operands(true, true), Err(BinaryExprError::ScalarScalar));
}
