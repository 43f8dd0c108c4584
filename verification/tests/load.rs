use libcudf_rs::config::ConfigOptions;
use libcudf_rs::datatype::DataType;
use libcudf_rs::load::{
    check_host_batch, check_load_partition, check_single_child, filter_and_project,
    keep_filtered_batch, pinned_input_enabled, OperatorError, PIN_RING_SIZE,
};
use libcudf_rs::planner::CuDFConfig;

#[test]
fn pinned_input_defaults_to_on() {
    let none: ConfigOptions<CuDFConfig> = ConfigOptions { target_partitions: 1, extension: None };
    assert!(pinned_input_enabled(&none));
    let mut cfg = CuDFConfig::default();
    cfg.pinned_input = false;
    assert!(!pinned_input_enabled(&ConfigOptions { target_partitions: 1, extension: Some(cfg) }));
    assert_eq!(PIN_RING_SIZE, 3);
}

#[test]
fn load_has_one_partition_and_one_child() {
    assert_eq!(check_load_partition(0), Ok(()));
    assert_eq!(check_load_partition(1), Err(OperatorError::InvalidPartition { partition: 1 }));
    assert_eq!(check_single_child(1), Ok(()));
    assert_eq!(check_single_child(2), Err(OperatorError::ChildCount { children: 2 }));
    assert_eq!(check_single_child(0), Err(OperatorError::ChildCount { children: 0 }));
}

#[test]
fn host_batches_must_not_be_on_gpu() {
    assert_eq!(check_host_batch(&vec![false, false]), Ok(()));
    assert_eq!(check_host_batch(&vec![]), Ok(()));
    assert_eq!(check_host_batch(&vec![false, true]), Err(OperatorError::AlreadyOnGpu));
}

#[test]
fn filter_projects_columns() {
    assert_eq!(filter_and_project(true, DataType::Boolean, &vec![true, true, true], None), Ok(vec![0, 1, 2]));
    assert_eq!(filter_and_project(true, DataType::Boolean, &vec![true, true], Some(&vec![1, 0, 1])), Ok(vec![1, 0, 1]));
    assert_eq!(filter_and_project(true, DataType::Boolean, &vec![true, true], Some(&vec![])), Ok(vec![]));
}

#[test]
fn filter_errors() {
    assert_eq!(filter_and_project(false, DataType::Boolean, &vec![true], None), Err(OperatorError::PredicateNotColumn));
    assert_eq!(
        filter_and_project(true, DataType::Int32, &vec![true], None),
        Err(OperatorError::PredicateNotBoolean { data_type: DataType::Int32 })
    );
    assert_eq!(
        filter_and_project(true, DataType::Boolean, &vec![true, false, false], None),
        Err(OperatorError::MixedBatch { column: 1 })
    );
}

#[test]
fn empty_filtered_batches_are_skipped() {
    assert!(!keep_filtered_batch(0));
    assert!(keep_filtered_batch(1));
}
