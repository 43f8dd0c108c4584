use libcudf_rs::codes::{NullOrder, Order};
use libcudf_rs::sort::{extract_sort_params, sort_arguments, sort_codes, SortError, SortKey, SortOrder};
use libcudf_rs::sort_stream::{
    sort_input, sort_stream_for, CuDFSortStream, InputEvent, SortAction, SortInput, SortState,
    TopKAction, TopKState,
};

#[test]
fn sort_order_splits_into_order_and_null_order() {
    assert_eq!(SortOrder::AscendingNullsFirst.order(), Order::Ascending);
    assert_eq!(SortOrder::AscendingNullsFirst.null_order(), NullOrder::Before);
    assert_eq!(SortOrder::AscendingNullsLast.order(), Order::Ascending);
    assert_eq!(SortOrder::AscendingNullsLast.null_order(), NullOrder::After);
    assert_eq!(SortOrder::DescendingNullsFirst.order(), Order::Descending);
    assert_eq!(SortOrder::DescendingNullsFirst.null_order(), NullOrder::Before);
    assert_eq!(SortOrder::DescendingNullsLast.order(), Order::Descending);
    assert_eq!(SortOrder::DescendingNullsLast.null_order(), NullOrder::After);
}

#[test]
fn sort_order_from_options_round_trips() {
    for o in [
        SortOrder::AscendingNullsFirst,
        SortOrder::AscendingNullsLast,
        SortOrder::DescendingNullsFirst,
        SortOrder::DescendingNullsLast,
    ] {
        let descending = o.order() == Order::Descending;
        let nulls_first = o.null_order() == NullOrder::Before;
        assert_eq!(SortOrder::from_options(descending, nulls_first), o);
    }
}

#[test]
fn sort_codes_per_key() {
    let codes = sort_codes(&vec![SortOrder::AscendingNullsLast, SortOrder::DescendingNullsFirst]);
    assert_eq!(codes.column_order, vec![0, 1]);
    assert_eq!(codes.null_precedence, vec![0, 1]);
    let empty = sort_codes(&vec![]);
    assert!(empty.column_order.is_empty() && empty.null_precedence.is_empty());
}

#[test]
fn sort_arguments_accepts_valid_keys() {
    let r = sort_arguments(3, &vec![0, 2], &vec![SortOrder::AscendingNullsLast, SortOrder::DescendingNullsFirst]);
    let codes = r.expect("valid keys");
    assert_eq!(codes.column_order, vec![0, 1]);
    assert_eq!(codes.null_precedence, vec![0, 1]);
}

#[test]
fn sort_arguments_refuses_empty_keys() {
    let r = sort_arguments(3, &vec![], &vec![]);
    assert!(matches!(r, Err(SortError::EmptyKeys)));
}

#[test]
fn sort_arguments_refuses_length_mismatch() {
    let r = sort_arguments(3, &vec![0, 1], &vec![SortOrder::AscendingNullsLast]);
    assert!(matches!(r, Err(SortError::LengthMismatch { keys: 2, orders: 1 })));
}

#[test]
fn sort_arguments_reports_first_out_of_bounds_column() {
    let r = sort_arguments(
        2,
        &vec![1, 5, 7],
        &vec![SortOrder::AscendingNullsLast, SortOrder::AscendingNullsLast, SortOrder::AscendingNullsLast],
    );
    assert!(matches!(r, Err(SortError::ColumnOutOfBounds { index: 5, num_columns: 2 })));
}

#[test]
fn extract_sort_params_reads_columns_and_options() {
    let ordering = vec![
        SortKey { column: Some(0), descending: false, nulls_first: false },
        SortKey { column: Some(1), descending: true, nulls_first: true },
        SortKey { column: None, descending: true, nulls_first: false },
        SortKey { column: Some(4), descending: false, nulls_first: true },
    ];
    let (cols, orders) = extract_sort_params(&ordering);
    assert_eq!(cols, vec![0, 1, 0, 4]);
    assert_eq!(
        orders,
        vec![
            SortOrder::AscendingNullsLast,
            SortOrder::DescendingNullsFirst,
            SortOrder::DescendingNullsLast,
            SortOrder::AscendingNullsFirst,
        ]
    );
}

#[test]
fn topk_keeps_at_most_limit_rows() {
    let mut s = TopKState::new(3);
    assert_eq!(s.step(InputEvent::Batch { rows: 2, on_gpu: true }), TopKAction::Hold { concat: false, trim: false });
    assert_eq!(s.held, Some(2));
    assert_eq!(s.step(InputEvent::Batch { rows: 1, on_gpu: true }), TopKAction::Hold { concat: true, trim: false });
    assert_eq!(s.held, Some(3));
    assert_eq!(s.step(InputEvent::Batch { rows: 5, on_gpu: true }), TopKAction::Hold { concat: true, trim: true });
    assert_eq!(s.held, Some(3));
    assert_eq!(s.step(InputEvent::End), TopKAction::Emit);
    assert!(s.finished);
    assert_eq!(s.held, None);
    assert_eq!(s.step(InputEvent::Batch { rows: 1, on_gpu: true }), TopKAction::Done);
}

#[test]
fn topk_first_batch_over_limit_is_trimmed() {
    let mut s = TopKState::new(2);
    assert_eq!(s.step(InputEvent::Batch { rows: 10, on_gpu: true }), TopKAction::Hold { concat: false, trim: true });
    assert_eq!(s.held, Some(2));
}

#[test]
fn topk_with_no_input_ends_without_result() {
    let mut s = TopKState::new(3);
    assert_eq!(s.step(InputEvent::End), TopKAction::Done);
    assert_eq!(s.step(InputEvent::End), TopKAction::Done);
}

#[test]
fn topk_passes_errors_on() {
    let mut s = TopKState::new(3);
    s.step(InputEvent::Batch { rows: 1, on_gpu: true });
    assert_eq!(s.step(InputEvent::Error), TopKAction::PassError);
    assert_eq!(s.held, Some(1));
    assert!(!s.finished);
}

#[test]
fn topk_row_count_overflow_trims() {
    let mut s = TopKState::new(5);
    s.step(InputEvent::Batch { rows: 4, on_gpu: true });
    assert_eq!(s.step(InputEvent::Batch { rows: usize::MAX, on_gpu: true }), TopKAction::Hold { concat: true, trim: true });
    assert_eq!(s.held, Some(5));
}

#[test]
fn full_sort_emits_once_after_input() {
    let mut s = SortState::new();
    assert_eq!(s.step(InputEvent::Batch { rows: 3, on_gpu: true }), SortAction::Hold);
    assert_eq!(s.step(InputEvent::Batch { rows: 0, on_gpu: true }), SortAction::Hold);
    assert_eq!(s.held_batches, 2);
    assert_eq!(s.step(InputEvent::Error), SortAction::PassError);
    assert_eq!(s.step(InputEvent::End), SortAction::Emit);
    assert_eq!(s.step(InputEvent::End), SortAction::Done);
}

#[test]
fn full_sort_without_input_is_empty() {
    let mut s = SortState::new();
    assert_eq!(s.step(InputEvent::End), SortAction::Done);
}

#[test]
fn sort_stream_kind_follows_fetch() {
    assert_eq!(sort_stream_for(Some(3)), CuDFSortStream::TopK(TopKState::new(3)));
    assert_eq!(sort_stream_for(None), CuDFSortStream::Full(SortState::new()));
    assert_eq!(sort_input(true, 4), SortInput::Partition(4));
    assert_eq!(sort_input(false, 4), SortInput::Merged);
}

#[test]
fn sorts_reject_batches_not_on_the_gpu() {
    let mut t = TopKState::new(3);
    t.step(InputEvent::Batch { rows: 2, on_gpu: true });
    assert_eq!(t.step(InputEvent::Batch { rows: 1, on_gpu: false }), TopKAction::RejectBatch);
    assert_eq!(t.held, Some(2));
    let mut s = SortState::new();
    assert_eq!(s.step(InputEvent::Batch { rows: 1, on_gpu: false }), SortAction::RejectBatch);
    assert_eq!(s.held_batches, 0);
    assert_eq!(s.step(InputEvent::End), SortAction::Done);
}

#[test]
fn topk_failed_merge_loses_the_held_rows() {
    let mut t = TopKState::new(3);
    t.step(InputEvent::Batch { rows: 2, on_gpu: true });
    assert_eq!(t.step(InputEvent::Batch { rows: 2, on_gpu: true }), TopKAction::Hold { concat: true, trim: true });
    t.merge_failed();
    assert_eq!(t.held, None);
    assert!(!t.finished);
    assert_eq!(t.step(InputEvent::Batch { rows: 1, on_gpu: true }), TopKAction::Hold { concat: false, trim: false });
    assert_eq!(t.held, Some(1));
}
