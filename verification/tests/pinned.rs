use libcudf_rs::pinned::{
    pinned_upload_reaper_enabled_from, ReaperAction, ReaperInput, ReaperTask, UploadReaper,
    GROUP_INTERVAL_NANOS, MAX_GROUP_BATCHES,
};

const SECOND: u64 = 1_000_000_000;

#[test]
fn push_open_batch_starts_group_interval_on_first_batch() {
    let now = 100 * SECOND;
    let mut reaper: UploadReaper<Vec<i64>, u32> = UploadReaper::new(now - 60 * SECOND);

    reaper.push_open_batch(Vec::new(), now);
    assert_eq!(reaper.open_len(), 1);
    // The interval restarted with the first batch, not a minute ago.
    assert!(!reaper.interval_elapsed(now + GROUP_INTERVAL_NANOS - 1));

    reaper.push_open_batch(Vec::new(), now + 1);
    assert_eq!(reaper.open_len(), 2);
    // The interval still runs from the first batch.
    assert!(reaper.interval_elapsed(now + GROUP_INTERVAL_NANOS));
}

#[test]
fn interval_and_fullness() {
    let mut r: UploadReaper<u8, u32> = UploadReaper::new(0);
    assert!(!r.interval_elapsed(10 * GROUP_INTERVAL_NANOS));
    r.push_open_batch(1, 1_000);
    assert!(!r.interval_elapsed(1_000 + GROUP_INTERVAL_NANOS - 1));
    assert!(r.interval_elapsed(1_000 + GROUP_INTERVAL_NANOS));
    assert!(!r.interval_elapsed(0));
    while r.has_room() {
        r.push_open_batch(0, 2_000);
    }
    assert_eq!(r.open_len(), MAX_GROUP_BATCHES);
    assert!(r.is_full());
}

#[test]
fn sealed_groups_are_released_in_order() {
    let mut r: UploadReaper<u8, u32> = UploadReaper::new(0);
    r.push_open_batch(1, 0);
    r.push_open_batch(2, 0);
    r.seal_open_group(10, 5);
    assert_eq!(r.open_len(), 0);
    assert_eq!(r.sealed_len(), 1);
    r.seal_open_group(99, 6);
    assert_eq!(r.sealed_len(), 1);
    r.push_open_batch(3, 7);
    r.seal_open_group(11, 8);
    r.push_open_batch(4, 9);
    r.seal_open_group(12, 10);
    assert_eq!(r.sealed_len(), 3);

    // Events 10 and 11 are complete, 12 is not.
    let done = |e: &u32| -> Result<bool, String> { Ok(*e <= 11) };
    assert_eq!(r.reap_completed_groups(done), Ok(2));
    assert_eq!(r.sealed_len(), 1);
    let last = r.pop_front_group().expect("one group left");
    assert_eq!(last.batches, vec![4]);
    assert_eq!(last.event, 12);
    assert!(r.pop_front_group().is_none());
}

#[test]
fn reap_passes_query_errors_on() {
    let mut r: UploadReaper<u8, u32> = UploadReaper::new(0);
    r.push_open_batch(1, 0);
    r.seal_open_group(1, 0);
    r.push_open_batch(2, 0);
    r.seal_open_group(2, 0);
    let query = |e: &u32| -> Result<bool, String> {
        if *e == 1 {
            Ok(true)
        } else {
            Err("query failed".to_string())
        }
    };
    assert_eq!(r.reap_completed_groups(query), Err("query failed".to_string()));
    assert_eq!(r.sealed_len(), 1);
}

#[test]
fn reaper_flag_from_environment_value() {
    assert!(pinned_upload_reaper_enabled_from(None));
    assert!(pinned_upload_reaper_enabled_from(Some("1".to_string())));
    assert!(pinned_upload_reaper_enabled_from(Some("".to_string())));
    assert!(pinned_upload_reaper_enabled_from(Some("00".to_string())));
    assert!(!pinned_upload_reaper_enabled_from(Some("0".to_string())));
}

#[test]
fn reaper_task_seals_full_groups_and_drains_at_close() {
    let mut t: ReaperTask<u32, u8> = ReaperTask::new(0);
    for i in 0..(MAX_GROUP_BATCHES as u32 - 1) {
        assert_eq!(t.on_input(ReaperInput::Batch(i), 10), ReaperAction::ReceiveNow);
    }
    assert_eq!(t.on_input(ReaperInput::Batch(99), 10), ReaperAction::Seal);
    assert_eq!(t.on_sealed(7, 20), ReaperAction::Reap);
    assert_eq!(t.reaper.sealed_len(), 1);
    assert_eq!(t.reaper.open_len(), 0);
    assert_eq!(t.reaper.reap_completed_groups(|_: &u8| Ok::<bool, ()>(false)), Ok(0));
    assert_eq!(t.after_reap(), ReaperAction::Wait);
    assert_eq!(t.on_input(ReaperInput::Batch(100), 30), ReaperAction::ReceiveNow);
    assert_eq!(t.on_input(ReaperInput::Closed, 31), ReaperAction::Reap);
    assert!(t.closed);
    assert_eq!(t.after_reap(), ReaperAction::Seal);
    assert_eq!(t.on_sealed(8, 32), ReaperAction::Drain);
    assert_eq!(t.reaper.sealed_len(), 2);
    let first = t.reaper.pop_front_group().expect("oldest group");
    assert_eq!((first.batches.len(), first.event), (MAX_GROUP_BATCHES, 7));
    let second = t.reaper.pop_front_group().expect("last group");
    assert_eq!((second.batches, second.event), (vec![100], 8));
}

#[test]
fn reaper_task_seals_after_the_interval() {
    let mut t: ReaperTask<u32, u8> = ReaperTask::new(0);
    assert_eq!(t.on_input(ReaperInput::NothingReady, 1), ReaperAction::Reap);
    assert_eq!(t.after_reap(), ReaperAction::Wait);
    assert_eq!(t.on_input(ReaperInput::Batch(1), 100), ReaperAction::ReceiveNow);
    assert_eq!(t.on_input(ReaperInput::NothingReady, 100 + GROUP_INTERVAL_NANOS - 1), ReaperAction::Reap);
    assert_eq!(t.after_reap(), ReaperAction::Wait);
    assert_eq!(t.on_input(ReaperInput::NothingReady, 100 + GROUP_INTERVAL_NANOS), ReaperAction::Seal);
    assert_eq!(t.on_sealed(3, 100 + GROUP_INTERVAL_NANOS), ReaperAction::Reap);
    assert_eq!(t.reaper.reap_completed_groups(|_: &u8| Ok::<bool, ()>(true)), Ok(1));
    assert_eq!(t.on_input(ReaperInput::Closed, 200 + GROUP_INTERVAL_NANOS), ReaperAction::Reap);
    assert_eq!(t.after_reap(), ReaperAction::Drain);
}
