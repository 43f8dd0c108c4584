//! Decimal types and the rescaling that a cuDF decimal division needs.
//!
//! DataFusion scales the stored numerator before a decimal division; cuDF's
//! fixed-point division divides the stored integers directly, so one operand is
//! cast to another scale first. Scales here are Arrow's: a value `v` with scale
//! `s` is stored as `v * 10^s`.
use vstd::prelude::*;
use crate::datatype::DataType;

verus! {

/// `arrow_schema::DECIMAL32_MAX_PRECISION`: the largest precision of a 32-bit decimal, 9.
#[verifier::external_body]
fn decimal32_max_precision() -> (r: u8)
    ensures
        r == 9,
{
    arrow_schema::DECIMAL32_MAX_PRECISION
}

/// `arrow_schema::DECIMAL32_MAX_SCALE`: the largest scale of a 32-bit decimal, 9.
#[verifier::external_body]
fn decimal32_max_scale() -> (r: i8)
    ensures
        r == 9,
{
    arrow_schema::DECIMAL32_MAX_SCALE
}

/// `arrow_schema::DECIMAL64_MAX_PRECISION`: the largest precision of a 64-bit decimal, 18.
#[verifier::external_body]
fn decimal64_max_precision() -> (r: u8)
    ensures
        r == 18,
{
    arrow_schema::DECIMAL64_MAX_PRECISION
}

/// `arrow_schema::DECIMAL64_MAX_SCALE`: the largest scale of a 64-bit decimal, 18.
#[verifier::external_body]
fn decimal64_max_scale() -> (r: i8)
    ensures
        r == 18,
{
    arrow_schema::DECIMAL64_MAX_SCALE
}

/// `arrow_schema::DECIMAL128_MAX_PRECISION`: the largest precision of a 128-bit decimal, 38.
#[verifier::external_body]
fn decimal128_max_precision() -> (r: u8)
    ensures
        r == 38,
{
    arrow_schema::DECIMAL128_MAX_PRECISION
}

/// `arrow_schema::DECIMAL128_MAX_SCALE`: the largest scale of a 128-bit decimal, 38.
#[verifier::external_body]
fn decimal128_max_scale() -> (r: i8)
    ensures
        r == 38,
{
    arrow_schema::DECIMAL128_MAX_SCALE
}

/// Precision and scale of a decimal type that cuDF supports (32, 64 and 128 bits).
pub open spec fn spec_decimal_parts(t: DataType) -> Option<(u8, i8)> {
    match t {
        DataType::Decimal32(p, s) => Some((p, s)),
        DataType::Decimal64(p, s) => Some((p, s)),
        DataType::Decimal128(p, s) => Some((p, s)),
        _ => None,
    }
}

pub fn decimal_parts(data_type: DataType) -> (r: Option<(u8, i8)>)
    ensures
        r == spec_decimal_parts(data_type),
{
    match data_type {
        DataType::Decimal32(precision, scale)
        | DataType::Decimal64(precision, scale)
        | DataType::Decimal128(precision, scale) => Some((precision, scale)),
        _ => None,
    }
}

pub fn is_supported_decimal(data_type: DataType) -> (r: bool)
    ensures
        r == spec_decimal_parts(data_type).is_some(),
{
    decimal_parts(data_type).is_some()
}

/// Whether a division is carried out as a cuDF decimal division: output and
/// both operands are supported decimals.
pub fn is_decimal_division(output_type: DataType, lhs_type: DataType, rhs_type: DataType) -> (r:
    bool)
    ensures
        r == (spec_decimal_parts(output_type).is_some() && spec_decimal_parts(lhs_type).is_some()
            && spec_decimal_parts(rhs_type).is_some()),
{
    is_supported_decimal(output_type) && is_supported_decimal(lhs_type) && is_supported_decimal(
        rhs_type,
    )
}

/// The operand of a decimal division that a decimal type was expected for.
#[derive(Clone, Copy, PartialEq, Eq, Debug, Structural)]
pub enum DecimalRole {
    LeftOperand,
    RightOperand,
    Output,
}

/// Errors of the decimal rescaling.
#[derive(Clone, Copy, PartialEq, Eq, Debug, Structural)]
pub enum DecimalError {
    /// `Expected decimal {role}, got {data_type}`
    ExpectedDecimal { role: DecimalRole, data_type: DataType },
    /// `Cannot rescale decimal operand of type {data_type} to scale {scale}`
    CannotRescale { data_type: DataType, scale: i8 },
    /// `Decimal scale {scale} is out of range`
    ScaleOutOfRange(i16),
}

/// The decimal type of the same width as `t`, at its largest precision and the
/// given scale, where that width admits the scale.
pub open spec fn spec_decimal_type_with_scale(t: DataType, scale: i8) -> Result<DataType, DecimalError> {
    match t {
        DataType::Decimal32(_, _) if -9 <= scale <= 9 => Ok(DataType::Decimal32(9, scale)),
        DataType::Decimal64(_, _) if -18 <= scale <= 18 => Ok(DataType::Decimal64(18, scale)),
        DataType::Decimal128(_, _) if -38 <= scale <= 38 => Ok(DataType::Decimal128(38, scale)),
        _ => Err(DecimalError::CannotRescale { data_type: t, scale }),
    }
}

pub fn decimal_type_with_scale(data_type: DataType, scale: i8) -> (r: Result<DataType, DecimalError>)
    ensures
        r == spec_decimal_type_with_scale(data_type, scale),
{
    match data_type {
        DataType::Decimal32(_, _) if -decimal32_max_scale() <= scale && scale
            <= decimal32_max_scale() => Ok(DataType::Decimal32(decimal32_max_precision(), scale)),
        DataType::Decimal64(_, _) if -decimal64_max_scale() <= scale && scale
            <= decimal64_max_scale() => Ok(DataType::Decimal64(decimal64_max_precision(), scale)),
        DataType::Decimal128(_, _) if -decimal128_max_scale() <= scale && scale
            <= decimal128_max_scale() => Ok(DataType::Decimal128(decimal128_max_precision(), scale)),
        _ => Err(DecimalError::CannotRescale { data_type, scale }),
    }
}

/// The type that counts of a decimal column are computed in: the same width,
/// largest precision, scale 0.
pub fn decimal_count_type_for(data_type: DataType) -> (r: Result<DataType, DecimalError>)
    ensures
        r == spec_decimal_type_with_scale(data_type, 0),
{
    decimal_type_with_scale(data_type, 0)
}

pub fn checked_scale(scale: i16) -> (r: Result<i8, DecimalError>)
    ensures
        -128 <= scale <= 127 ==> r == Ok::<i8, DecimalError>(scale as i8),
        !(-128 <= scale <= 127) ==> r == Err::<i8, DecimalError>(DecimalError::ScaleOutOfRange(scale)),
{
    if -128 <= scale && scale <= 127 {
        Ok(scale as i8)
    } else {
        Err(DecimalError::ScaleOutOfRange(scale))
    }
}

fn decimal_parts_or_err(data_type: DataType, role: DecimalRole) -> (r: Result<(u8, i8), DecimalError>)
    ensures
        r == (match spec_decimal_parts(data_type) {
            Some(p) => Ok(p),
            None => Err(DecimalError::ExpectedDecimal { role, data_type }),
        }),
{
    match decimal_parts(data_type) {
        Some(p) => Ok(p),
        None => Err(DecimalError::ExpectedDecimal { role, data_type }),
    }
}

/// The casts that a cuDF decimal division applies to its operands first: at
/// most one operand is cast, to the type given.
#[derive(Clone, Copy, PartialEq, Eq, Debug, Structural)]
pub struct DivisionRescale {
    pub lhs_cast: Option<DataType>,
    pub rhs_cast: Option<DataType>,
}

/// Scale of a decimal type (0 for any other type).
pub open spec fn scale_of(t: DataType) -> int {
    match spec_decimal_parts(t) {
        Some(p) => p.1 as int,
        None => 0,
    }
}

/// The cast of an operand of type `t` to `target` scale: none where it has that
/// scale already.
pub open spec fn spec_rescale(t: DataType, target: int) -> Result<Option<DataType>, DecimalError> {
    if target == scale_of(t) {
        Ok(None)
    } else {
        match spec_decimal_type_with_scale(t, target as i8) {
            Ok(d) => Ok(Some(d)),
            Err(e) => Err(e),
        }
    }
}

/// What a cuDF decimal division of `lhs / rhs` into `output` casts first.
///
/// The stored quotient of two decimals has the scale of the numerator minus that
/// of the denominator, so the numerator is raised to `output + rhs` where that is
/// at least its own scale, and otherwise the denominator is raised to `lhs - output`.
pub open spec fn spec_division_rescale(lhs: DataType, rhs: DataType, output: DataType) -> Result<
    DivisionRescale,
    DecimalError,
> {
    if spec_decimal_parts(lhs) is None {
        Err(DecimalError::ExpectedDecimal { role: DecimalRole::LeftOperand, data_type: lhs })
    } else if spec_decimal_parts(rhs) is None {
        Err(DecimalError::ExpectedDecimal { role: DecimalRole::RightOperand, data_type: rhs })
    } else if spec_decimal_parts(output) is None {
        Err(DecimalError::ExpectedDecimal { role: DecimalRole::Output, data_type: output })
    } else {
        let delta = scale_of(output) - scale_of(lhs) + scale_of(rhs);
        if delta >= 0 {
            let target = scale_of(lhs) + delta;
            if !(-128 <= target <= 127) {
                Err(DecimalError::ScaleOutOfRange(target as i16))
            } else {
                match spec_rescale(lhs, target) {
                    Ok(c) => Ok(DivisionRescale { lhs_cast: c, rhs_cast: None }),
                    Err(e) => Err(e),
                }
            }
        } else {
            let target = scale_of(rhs) - delta;
            if !(-128 <= target <= 127) {
                Err(DecimalError::ScaleOutOfRange(target as i16))
            } else {
                match spec_rescale(rhs, target) {
                    Ok(c) => Ok(DivisionRescale { lhs_cast: None, rhs_cast: c }),
                    Err(e) => Err(e),
                }
            }
        }
    }
}

fn rescale_decimal(data_type: DataType, target_scale: i8) -> (r: Result<Option<DataType>, DecimalError>)
    requires
        spec_decimal_parts(data_type) is Some,
    ensures
        r == spec_rescale(data_type, target_scale as int),
{
    let current_scale = match decimal_parts(data_type) {
        Some((_, scale)) => scale,
        None => 0,
    };
    if target_scale == current_scale {
        return Ok(None);
    }
    match decimal_type_with_scale(data_type, target_scale) {
        Ok(t) => Ok(Some(t)),
        Err(e) => Err(e),
    }
}

/// Decides the operand casts of a cuDF decimal division of `lhs_type /
/// rhs_type` into `output_type`.
pub fn decimal_division_rescale(lhs_type: DataType, rhs_type: DataType, output_type: DataType) -> (r:
    Result<DivisionRescale, DecimalError>)
    ensures
        r == spec_division_rescale(lhs_type, rhs_type, output_type),
{
    let (_, lhs_scale) = decimal_parts_or_err(lhs_type, DecimalRole::LeftOperand)?;
    let (_, rhs_scale) = decimal_parts_or_err(rhs_type, DecimalRole::RightOperand)?;
    let (_, output_scale) = decimal_parts_or_err(output_type, DecimalRole::Output)?;
    let scale_delta: i16 = output_scale as i16 - lhs_scale as i16 + rhs_scale as i16;
    if scale_delta >= 0 {
        let target_scale = checked_scale(lhs_scale as i16 + scale_delta)?;
        let c = rescale_decimal(lhs_type, target_scale)?;
        Ok(DivisionRescale { lhs_cast: c, rhs_cast: None })
    } else {
        let target_scale = checked_scale(rhs_scale as i16 - scale_delta)?;
        let c = rescale_decimal(rhs_type, target_scale)?;
        Ok(DivisionRescale { lhs_cast: None, rhs_cast: c })
    }
}

/// The scale an operand has once the division's cast, if any, is applied.
pub open spec fn scale_after(t: DataType, cast: Option<DataType>) -> int {
    match cast {
        Some(c) => scale_of(c),
        None => scale_of(t),
    }
}

/// After the casts, the scale of the numerator minus that of the denominator is
/// the output scale, so cuDF's division of the stored integers gives the stored
/// quotient at the output scale; and the operand that is cast only gains scale,
/// so its stored values are multiplied, never divided.
pub proof fn lemma_division_rescale_aligns_scales(
    lhs: DataType,
    rhs: DataType,
    output: DataType,
    plan: DivisionRescale,
)
    requires
        spec_division_rescale(lhs, rhs, output) == Ok::<DivisionRescale, DecimalError>(plan),
    ensures
        scale_after(lhs, plan.lhs_cast) - scale_after(rhs, plan.rhs_cast) == scale_of(output),
        scale_after(lhs, plan.lhs_cast) >= scale_of(lhs),
        scale_after(rhs, plan.rhs_cast) >= scale_of(rhs),
        plan.lhs_cast is None || plan.rhs_cast is None,
{
}

} // verus!
