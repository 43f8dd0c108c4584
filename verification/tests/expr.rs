use libcudf_rs::binary_op::{CuDFBinaryOp, Operator};
use libcudf_rs::expr::{
    columnar_value_to_cudf, expr_to_cudf_aggregate_arg, AggregateArg, expr_to_cudf_expr, expr_with_stream,
    ColumnarValueKind, CuDFExpr, CuDFValue, ExprError, PhysicalExpr, ValueError,
};
use libcudf_rs::plan::Conversion;

fn bin(l: PhysicalExpr, op: Operator, r: PhysicalExpr) -> PhysicalExpr {
    PhysicalExpr::Binary { left: Box::new(l), op, right: Box::new(r) }
}

fn is_streamed(e: &CuDFExpr) -> bool {
    match e {
        CuDFExpr::Binary { left, right, streamed, .. } => *streamed && is_streamed(left) && is_streamed(right),
        _ => true,
    }
}

#[test]
fn converts_nested_binary_expression() {
    // (a + 2) > b
    let e = bin(
        bin(PhysicalExpr::Column(0), Operator::Plus, PhysicalExpr::Literal(Conversion::Supported)),
        Operator::Gt,
        PhysicalExpr::Column(1),
    );
    match expr_to_cudf_expr(&e) {
        Ok(CuDFExpr::Binary { left, op, right, streamed }) => {
            assert_eq!(op, CuDFBinaryOp::Greater);
            assert!(!streamed);
            assert!(matches!(*right, CuDFExpr::Column(1)));
            match *left {
                CuDFExpr::Binary { left, op, right, .. } => {
                    assert_eq!(op, CuDFBinaryOp::Add);
                    assert!(matches!(*left, CuDFExpr::Column(0)));
                    assert!(matches!(*right, CuDFExpr::Literal));
                }
                _ => panic!("expected a binary expression"),
            }
        }
        _ => panic!("expected a binary expression"),
    }
}

#[test]
fn conversion_errors_come_from_the_left_first() {
    let e = bin(PhysicalExpr::Other, Operator::RegexMatch, PhysicalExpr::Literal(Conversion::Fails));
    assert!(matches!(expr_to_cudf_expr(&e), Err(ExprError::NotImplemented)));
    let e = bin(PhysicalExpr::Column(0), Operator::RegexMatch, PhysicalExpr::Literal(Conversion::Fails));
    assert!(matches!(expr_to_cudf_expr(&e), Err(ExprError::LiteralFailed)));
    let e = bin(PhysicalExpr::Column(0), Operator::RegexMatch, PhysicalExpr::Column(1));
    assert!(matches!(expr_to_cudf_expr(&e), Err(ExprError::UnsupportedOperator(Operator::RegexMatch))));
}

#[test]
fn aggregate_args_keep_bare_literals() {
    assert!(matches!(
        expr_to_cudf_aggregate_arg(&PhysicalExpr::Literal(Conversion::Fails)),
        Ok(Some(AggregateArg::HostLiteral(Conversion::Fails)))
    ));
    assert!(matches!(expr_to_cudf_aggregate_arg(&PhysicalExpr::Column(3)), Ok(Some(AggregateArg::CuDF(CuDFExpr::Column(3))))));
    assert!(matches!(expr_to_cudf_aggregate_arg(&PhysicalExpr::Other), Ok(None)));
    let failing = bin(PhysicalExpr::Column(0), Operator::Plus, PhysicalExpr::Literal(Conversion::Fails));
    assert!(matches!(expr_to_cudf_aggregate_arg(&failing), Err(ExprError::LiteralFailed)));
    let declined = bin(PhysicalExpr::Column(0), Operator::LikeMatch, PhysicalExpr::Column(1));
    assert!(matches!(expr_to_cudf_aggregate_arg(&declined), Ok(None)));
}

#[test]
fn streams_reach_every_binary_node() {
    let e = bin(
        bin(PhysicalExpr::Column(0), Operator::Minus, PhysicalExpr::Column(1)),
        Operator::Multiply,
        PhysicalExpr::Literal(Conversion::Supported),
    );
    let c = expr_to_cudf_expr(&e).expect("converts");
    assert!(!is_streamed(&c));
    let s = expr_with_stream(c, true);
    assert!(is_streamed(&s));
    let c2 = expr_to_cudf_expr(&e).expect("converts");
    let unchanged = expr_with_stream(c2, false);
    assert!(!is_streamed(&unchanged));
}

#[test]
fn only_cudf_values_reach_cudf() {
    assert_eq!(columnar_value_to_cudf(ColumnarValueKind::CuDFColumn), Ok(CuDFValue::ColumnView));
    assert_eq!(columnar_value_to_cudf(ColumnarValueKind::CuDFScalar), Ok(CuDFValue::Scalar));
    assert_eq!(columnar_value_to_cudf(ColumnarValueKind::HostArray), Err(ValueError::HostArray));
    assert_eq!(columnar_value_to_cudf(ColumnarValueKind::Scalar), Err(ValueError::HostScalar));
}
