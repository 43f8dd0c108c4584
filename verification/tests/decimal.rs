use libcudf_rs::datatype::DataType;
use libcudf_rs::decimal::{
    checked_scale, decimal_count_type_for, decimal_division_rescale, decimal_parts,
    decimal_type_with_scale, is_decimal_division, is_supported_decimal, DecimalError, DecimalRole,
    DivisionRescale,
};

#[test]
fn decimal_parts_of_supported_widths() {
    assert_eq!(decimal_parts(DataType::Decimal32(9, 2)), Some((9, 2)));
    assert_eq!(decimal_parts(DataType::Decimal64(18, -3)), Some((18, -3)));
    assert_eq!(decimal_parts(DataType::Decimal128(38, 10)), Some((38, 10)));
    assert_eq!(decimal_parts(DataType::Decimal256(76, 10)), None);
    assert_eq!(decimal_parts(DataType::Int64), None);
    assert!(is_supported_decimal(DataType::Decimal64(10, 2)));
    assert!(!is_supported_decimal(DataType::Float64));
}

#[test]
fn decimal_division_needs_three_decimals() {
    let d = DataType::Decimal128(10, 2);
    assert!(is_decimal_division(d, d, d));
    assert!(!is_decimal_division(d, DataType::Int32, d));
    assert!(!is_decimal_division(DataType::Float64, d, d));
}

#[test]
fn type_with_scale_uses_max_precision() {
    assert_eq!(decimal_type_with_scale(DataType::Decimal32(5, 1), 9), Ok(DataType::Decimal32(9, 9)));
    assert_eq!(decimal_type_with_scale(DataType::Decimal64(5, 1), -18), Ok(DataType::Decimal64(18, -18)));
    assert_eq!(decimal_type_with_scale(DataType::Decimal128(5, 1), 38), Ok(DataType::Decimal128(38, 38)));
    assert_eq!(
        decimal_type_with_scale(DataType::Decimal32(5, 1), 10),
        Err(DecimalError::CannotRescale { data_type: DataType::Decimal32(5, 1), scale: 10 })
    );
    assert_eq!(
        decimal_type_with_scale(DataType::Int32, 0),
        Err(DecimalError::CannotRescale { data_type: DataType::Int32, scale: 0 })
    );
    assert_eq!(decimal_count_type_for(DataType::Decimal64(12, 4)), Ok(DataType::Decimal64(18, 0)));
}

#[test]
fn checked_scale_range() {
    assert_eq!(checked_scale(127), Ok(127));
    assert_eq!(checked_scale(-128), Ok(-128));
    assert_eq!(checked_scale(128), Err(DecimalError::ScaleOutOfRange(128)));
    assert_eq!(checked_scale(-129), Err(DecimalError::ScaleOutOfRange(-129)));
}

#[test]
fn division_rescales_numerator_for_fractional_result() {
    // 3.00 / 100.00 with output scale 6: the numerator is raised to scale 8,
    // (300 * 10^6) / 10000 = 30000, which represents 0.030000.
    let plan = decimal_division_rescale(
        DataType::Decimal128(10, 2),
        DataType::Decimal128(10, 2),
        DataType::Decimal128(38, 6),
    );
    assert_eq!(plan, Ok(DivisionRescale { lhs_cast: Some(DataType::Decimal128(38, 8)), rhs_cast: None }));
}

#[test]
fn division_rescales_denominator_when_output_scale_is_small() {
    // output 0 - lhs 4 + rhs 1 = -3: the denominator goes from scale 1 to 4.
    let plan = decimal_division_rescale(
        DataType::Decimal64(18, 4),
        DataType::Decimal64(18, 1),
        DataType::Decimal64(18, 0),
    );
    assert_eq!(plan, Ok(DivisionRescale { lhs_cast: None, rhs_cast: Some(DataType::Decimal64(18, 4)) }));
}

#[test]
fn division_without_cast_when_scales_already_fit() {
    let plan = decimal_division_rescale(
        DataType::Decimal128(38, 6),
        DataType::Decimal128(38, 2),
        DataType::Decimal128(38, 4),
    );
    assert_eq!(plan, Ok(DivisionRescale { lhs_cast: None, rhs_cast: None }));
}

#[test]
fn division_errors() {
    assert_eq!(
        decimal_division_rescale(DataType::Int32, DataType::Decimal128(10, 2), DataType::Decimal128(38, 6)),
        Err(DecimalError::ExpectedDecimal { role: DecimalRole::LeftOperand, data_type: DataType::Int32 })
    );
    assert_eq!(
        decimal_division_rescale(DataType::Decimal128(10, 2), DataType::Utf8, DataType::Decimal128(38, 6)),
        Err(DecimalError::ExpectedDecimal { role: DecimalRole::RightOperand, data_type: DataType::Utf8 })
    );
    assert_eq!(
        decimal_division_rescale(DataType::Decimal128(10, 2), DataType::Decimal128(10, 2), DataType::Float64),
        Err(DecimalError::ExpectedDecimal { role: DecimalRole::Output, data_type: DataType::Float64 })
    );
    // The numerator would need scale 9 + 5 = 14, beyond a 32-bit decimal.
    assert_eq!(
        decimal_division_rescale(DataType::Decimal32(9, 0), DataType::Decimal32(9, 5), DataType::Decimal32(9, 9)),
        Err(DecimalError::CannotRescale { data_type: DataType::Decimal32(9, 0), scale: 14 })
    );
    // 127 + 127 is no i8 scale.
    assert_eq!(
        decimal_division_rescale(DataType::Decimal128(38, 0), DataType::Decimal128(38, 127), DataType::Decimal128(38, 127)),
        Err(DecimalError::ScaleOutOfRange(254))
    );
}
