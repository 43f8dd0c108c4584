use libcudf_rs::codes::{
    join_no_match, ArrowDeviceType, AstOperator, AstTableReference, BinaryOperator,
    DuplicateKeepOption, JoinKind, NanEquality, NullEquality, NullOrder, NullPolicy, Order,
    OutOfBoundsPolicy, SetAsBuildTable, Sorted, TypeId,
};
use libcudf_rs::config::CuDFStreamSource;
use libcudf_rs::stream::{CuDFStreamFlags, CUDA_STREAM_FLAG_NON_BLOCKING, CUDA_STREAM_FLAG_SYNC_DEFAULT};

#[test]
fn test_binary_operators_enum() {
    let rust_values = [
        BinaryOperator::Add as i32,
        BinaryOperator::Sub as i32,
        BinaryOperator::Mul as i32,
        BinaryOperator::Div as i32,
        BinaryOperator::TrueDiv as i32,
        BinaryOperator::FloorDiv as i32,
        BinaryOperator::Mod as i32,
        BinaryOperator::PMod as i32,
        BinaryOperator::PyMod as i32,
        BinaryOperator::Pow as i32,
        BinaryOperator::IntPow as i32,
        BinaryOperator::LogBase as i32,
        BinaryOperator::Atan2 as i32,
        BinaryOperator::ShiftLeft as i32,
        BinaryOperator::ShiftRight as i32,
        BinaryOperator::ShiftRightUnsigned as i32,
        BinaryOperator::BitwiseAnd as i32,
        BinaryOperator::BitwiseOr as i32,
        BinaryOperator::BitwiseXor as i32,
        BinaryOperator::LogicalAnd as i32,
        BinaryOperator::LogicalOr as i32,
        BinaryOperator::Equal as i32,
        BinaryOperator::NotEqual as i32,
        BinaryOperator::Less as i32,
        BinaryOperator::Greater as i32,
        BinaryOperator::LessEqual as i32,
        BinaryOperator::GreaterEqual as i32,
        BinaryOperator::NullEquals as i32,
        BinaryOperator::NullNotEquals as i32,
        BinaryOperator::NullMax as i32,
        BinaryOperator::NullMin as i32,
        BinaryOperator::GenericBinary as i32,
        BinaryOperator::NullLogicalAnd as i32,
        BinaryOperator::NullLogicalOr as i32,
        BinaryOperator::InvalidBinary as i32,
    ];

    assert_eq!(
        rust_values,
        [
            0, 1, 2, 3, 4, 5, 6, 7, 8, 9, 10, 11, 12, 13, 14, 15, 16, 17, 18, 19, 20, 21, 22,
            23, 24, 25, 26, 27, 28, 29, 30, 31, 32, 33, 34,
        ]
    );
}

#[test]
fn test_type_id_enum() {
    assert_eq!(TypeId::Int8 as i32, 1);
    assert_eq!(TypeId::Int32 as i32, 3);
    assert_eq!(TypeId::Float32 as i32, 9);
    assert_eq!(TypeId::Float64 as i32, 10);
}

#[test]
fn test_join_enum_parity() {
    assert_eq!(join_no_match(), i32::MIN);
    assert_eq!(NullEquality::Equal as i32, 0);
    assert_eq!(NullEquality::Unequal as i32, 1);
    assert_eq!(JoinKind::Inner as i32, 0);
    assert_eq!(JoinKind::Left as i32, 1);
    assert_eq!(JoinKind::Full as i32, 2);
    assert_eq!(JoinKind::LeftSemi as i32, 3);
    assert_eq!(JoinKind::LeftAnti as i32, 4);
    assert_eq!(SetAsBuildTable::Left as i32, 0);
    assert_eq!(SetAsBuildTable::Right as i32, 1);
}

#[test]
fn codes_agree_with_declaration_order() {
    assert_eq!(BinaryOperator::InvalidBinary.code(), BinaryOperator::InvalidBinary as i32);
    assert_eq!(BinaryOperator::NullMin.code(), 30);
    assert_eq!(TypeId::Decimal128.code(), 27);
    assert_eq!(TypeId::Struct.code(), 28);
    assert_eq!(TypeId::Int8.code(), TypeId::Int8 as i32);
    assert_eq!(AstOperator::CastToFloat64.code(), 49);
    assert_eq!(AstOperator::NullLogicalAnd.code(), 20);
    assert_eq!(AstTableReference::Output.code(), 2);
    assert_eq!(JoinKind::LeftAnti.code(), 4);
    assert_eq!(NullEquality::Unequal.code(), 1);
    assert_eq!(SetAsBuildTable::Right.code(), 1);
}

#[test]
fn policy_codes() {
    assert_eq!(Order::Ascending.code(), 0);
    assert_eq!(Order::Descending.code(), 1);
    assert_eq!(NullOrder::After.code(), 0);
    assert_eq!(NullOrder::Before.code(), 1);
    assert_eq!(NullPolicy::Exclude.code(), 0);
    assert_eq!(NullPolicy::Include.code(), 1);
    assert_eq!(Sorted::No.code(), 0);
    assert_eq!(Sorted::Yes.code(), 1);
    assert_eq!(OutOfBoundsPolicy::Nullify.code(), 0);
    assert_eq!(OutOfBoundsPolicy::DontCheck.code(), 1);
    assert_eq!(NanEquality::AllEqual.code(), 0);
    assert_eq!(NanEquality::Unequal.code(), 1);
    assert_eq!(DuplicateKeepOption::KeepAny.code(), 0);
    assert_eq!(DuplicateKeepOption::KeepNone.code(), 3);
}

#[test]
fn arrow_device_types_start_at_one() {
    assert_eq!(ArrowDeviceType::Cpu.code(), 1);
    assert_eq!(ArrowDeviceType::Cuda.code(), 2);
    assert_eq!(ArrowDeviceType::Hexagon.code(), 12);
    assert_eq!(i32::from(ArrowDeviceType::CudaManaged), 9);
    let as_int: i32 = ArrowDeviceType::OneAPI.into();
    assert_eq!(as_int, 10);
    assert_eq!(ArrowDeviceType::CPU_DEVICE_ID, -1);
}

#[test]
fn stream_flags_convert_to_cuda_flags() {
    assert_eq!(u32::from(CuDFStreamFlags::SyncDefault), 0);
    assert_eq!(u32::from(CuDFStreamFlags::NonBlocking), 1);
    assert_eq!(CUDA_STREAM_FLAG_SYNC_DEFAULT, 0);
    assert_eq!(CUDA_STREAM_FLAG_NON_BLOCKING, 1);
    let flag: u32 = CuDFStreamFlags::NonBlocking.into();
    assert_eq!(flag, CUDA_STREAM_FLAG_NON_BLOCKING);
}

#[test]
fn stream_source_allocates_non_blocking_streams() {
    assert_eq!(CuDFStreamSource.allocation_flags(), CuDFStreamFlags::NonBlocking);
}
