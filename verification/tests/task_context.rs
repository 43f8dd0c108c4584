use libcudf_rs::config::ConfigOptions;
use libcudf_rs::planner::CuDFConfig;
use libcudf_rs::task_context::{
    cuda_streams_enabled, stream_lookup, task_context_from, unload_stream, CuDFTaskContext,
    StreamCleanup, TaskContextError, UnsetStreamOnEnd,
};

#[test]
fn registry_gives_back_what_was_set() {
    let mut ctx: CuDFTaskContext<&str> = CuDFTaskContext::new();
    assert_eq!(ctx.stream(1, 0), None);
    ctx.set_stream(1, 0, "s10");
    ctx.set_stream(1, 1, "s11");
    ctx.set_stream(2, 0, "s20");
    assert_eq!(ctx.stream(1, 0), Some(&"s10"));
    assert_eq!(ctx.stream(1, 1), Some(&"s11"));
    assert_eq!(ctx.stream(2, 0), Some(&"s20"));
    assert_eq!(ctx.stream(0, 1), None);
    ctx.set_stream(1, 0, "again");
    assert_eq!(ctx.stream(1, 0), Some(&"again"));
    assert_eq!(ctx.unset_stream(1, 0), Some("again"));
    assert_eq!(ctx.stream(1, 0), None);
    assert_eq!(ctx.unset_stream(1, 0), None);
    assert_eq!(ctx.stream(1, 1), Some(&"s11"));
}

#[test]
fn registry_keys_do_not_collide() {
    let mut ctx: CuDFTaskContext<u32> = CuDFTaskContext::new();
    ctx.set_stream(usize::MAX, 0, 1);
    ctx.set_stream(0, usize::MAX, 2);
    ctx.set_stream(usize::MAX, usize::MAX, 3);
    assert_eq!(ctx.stream(usize::MAX, 0), Some(&1));
    assert_eq!(ctx.stream(0, usize::MAX), Some(&2));
    assert_eq!(ctx.stream(usize::MAX, usize::MAX), Some(&3));
}

#[test]
fn streams_enabled_from_options() {
    let none: ConfigOptions<CuDFConfig> = ConfigOptions { target_partitions: 4, extension: None };
    assert!(!cuda_streams_enabled(&none));
    let mut cfg = CuDFConfig::default();
    assert!(!cuda_streams_enabled(&ConfigOptions { target_partitions: 4, extension: Some(CuDFConfig::default()) }));
    cfg.cuda_streams = true;
    assert!(cuda_streams_enabled(&ConfigOptions { target_partitions: 4, extension: Some(cfg) }));
}

#[test]
fn segment_zero_uses_the_default_stream() {
    assert_eq!(stream_lookup(true, 0, 3), None);
    assert_eq!(stream_lookup(false, 2, 3), None);
    assert_eq!(stream_lookup(true, 2, 3), Some((2, 3)));
}

#[test]
fn unload_releases_only_registered_streams() {
    let mut ctx: CuDFTaskContext<&str> = CuDFTaskContext::new();
    ctx.set_stream(2, 1, "s");
    let (s, cleanup) = unload_stream(Some(&ctx), true, 2, 1).expect("installed");
    assert_eq!(s, Some(&"s"));
    assert_eq!(cleanup, Some(StreamCleanup { segment_id: 2, partition: 1 }));
    assert_eq!(unload_stream(Some(&ctx), true, 2, 0), Ok((None, None)));
    assert_eq!(unload_stream(Some(&ctx), false, 2, 1), Ok((None, None)));
    assert_eq!(unload_stream(Some(&ctx), true, 0, 1), Ok((None, None)));
}

#[test]
fn unload_needs_the_task_context_only_with_streams() {
    let none: Option<&CuDFTaskContext<&str>> = None;
    assert_eq!(unload_stream(none, true, 2, 1), Err(TaskContextError::NotInstalled));
    assert_eq!(unload_stream(none, false, 2, 1), Ok((None, None)));
    assert_eq!(unload_stream(none, true, 0, 1), Ok((None, None)));
    assert_eq!(task_context_from(none).err(), Some(TaskContextError::NotInstalled));
}

#[test]
fn cleanup_happens_once() {
    let c = StreamCleanup { segment_id: 3, partition: 0 };
    let mut u = UnsetStreamOnEnd::new(Some(c));
    assert_eq!(u.on_poll(false), None);
    assert_eq!(u.on_poll(true), Some(c));
    assert_eq!(u.on_poll(true), None);
    assert_eq!(u.cleanup(), None);
    let mut d = UnsetStreamOnEnd::new(Some(c));
    assert_eq!(d.cleanup(), Some(c));
    assert_eq!(d.on_poll(true), None);
}
