use dlfast::batch::{item_report, BatchCoordinator, BatchResult, ItemResult};
use dlfast::invocation::{build_aria2c_args, Cli};
use dlfast::supervisor::{
    finalize_outcome, map_exit_code, prepare_invocation, supervisor_step, DownloadError,
    DownloadItem, StreamAction, StreamEvent,
};

fn config() -> Cli {
    Cli {
        destination: None,
        max_speed: None,
        timeout: 60,
        connect_timeout: 30,
        max_tries: 5,
        retry_wait: 10,
        user_agent: None,
        parallel_downloads: 2,
        quiet: false,
        urls: vec!["https://example.com/a".to_string()],
    }
}

#[test]
fn invocation_has_the_fixed_policy_and_the_url_last() {
    let args = build_aria2c_args("/tmp/dl", "file.bin", "https://example.com/file.bin", &config());
    let expected = vec![
        "--dir=/tmp/dl",
        "--out=file.bin",
        "--continue=true",
        "--max-connection-per-server=16",
        "--split=32",
        "--min-split-size=1M",
        "--file-allocation=falloc",
        "--max-tries=5",
        "--retry-wait=10",
        "--connect-timeout=30",
        "--timeout=60",
        "--max-file-not-found=3",
        "--summary-interval=1",
        "--console-log-level=warn",
        "--auto-file-renaming=false",
        "--allow-overwrite=true",
        "--conditional-get=true",
        "--check-integrity=true",
        "--disk-cache=128M",
        "--async-dns=true",
        "--http-accept-gzip=true",
        "--remote-time=true",
        "--human-readable=false",
        "https://example.com/file.bin",
    ];
    assert_eq!(args, expected);
}

#[test]
fn invocation_carries_rate_and_agent_only_when_configured() {
    let mut c = config();
    c.max_speed = Some("1M".to_string());
    c.user_agent = Some("agent/1.0".to_string());
    c.timeout = u64::MAX;
    let args = build_aria2c_args("d", "f", "u", &c);
    assert!(args.contains(&"--max-download-limit=1M".to_string()));
    assert!(args.contains(&"--user-agent=agent/1.0".to_string()));
    assert!(args.contains(&"--timeout=18446744073709551615".to_string()));
    assert_eq!(args.last().unwrap(), "u");

    let bare = build_aria2c_args("d", "f", "u", &config());
    assert!(!bare.iter().any(|t| t.starts_with("--max-download-limit=")));
    assert!(!bare.iter().any(|t| t.starts_with("--user-agent=")));
    assert_eq!(bare.len() + 2, args.len());
}

#[test]
fn exit_codes_map_to_their_reasons() {
    assert_eq!(map_exit_code(Some(0)), Ok(()));
    assert_eq!(map_exit_code(Some(3)), Err(DownloadError::FileNotFound));
    assert_eq!(map_exit_code(Some(9)), Err(DownloadError::DiskSpace));
    assert_eq!(map_exit_code(Some(28)), Err(DownloadError::NetworkTimeout));
    assert_eq!(map_exit_code(Some(77)), Err(DownloadError::ExitCode(77)));
    assert_eq!(map_exit_code(None), Err(DownloadError::Signal));

    assert_eq!(
        DownloadError::FileNotFound.message(),
        "file not found or access denied"
    );
    assert_eq!(
        DownloadError::DiskSpace.message(),
        "not enough disk space available"
    );
    assert_eq!(
        DownloadError::NetworkTimeout.message(),
        "network timeout or connection refused"
    );
    assert_eq!(
        DownloadError::ExitCode(77).message(),
        "aria2c failed with exit code 77"
    );
    assert_eq!(
        DownloadError::ExitCode(-7).message(),
        "aria2c failed with exit code -7"
    );
    assert_eq!(DownloadError::Signal.message(), "aria2c terminated by signal");
}

#[test]
fn cancellation_preempts_the_exit_status() {
    assert_eq!(finalize_outcome(true, Some(0)), Err(DownloadError::Cancelled));
    assert_eq!(finalize_outcome(true, None), Err(DownloadError::Cancelled));
    assert_eq!(finalize_outcome(false, Some(0)), Ok(()));
    assert_eq!(finalize_outcome(false, Some(3)), Err(DownloadError::FileNotFound));
}

#[test]
fn stream_events_drive_the_supervisor() {
    let line = StreamEvent::Line("[#2089b0 1000B/2000B(50%) CN:1 DL:115KiB]".to_string());
    assert_eq!(supervisor_step(&line), StreamAction::Progress(1000, 2000));
    let noise = StreamEvent::Line("Some random output".to_string());
    assert_eq!(supervisor_step(&noise), StreamAction::Ignore);
    assert_eq!(supervisor_step(&StreamEvent::Eof), StreamAction::Reap);
    assert_eq!(
        supervisor_step(&StreamEvent::CancelRequested),
        StreamAction::TerminateGroup
    );
}

#[test]
fn items_resolve_into_joined_paths() {
    let mut item = DownloadItem::new("https://example.com/f.bin".to_string());
    assert_eq!(item.filename, "");
    assert_eq!(item.file_path, "");
    item.set_resolved("f.bin".to_string(), "/tmp/dl");
    assert_eq!(item.url, "https://example.com/f.bin");
    assert_eq!(item.filename, "f.bin");
    assert_eq!(item.file_path, "/tmp/dl/f.bin");

    let mut item2 = DownloadItem::new("u".to_string());
    item2.set_resolved("g.bin".to_string(), "dl/");
    assert_eq!(item2.file_path, "dl/g.bin");

    let mut item3 = DownloadItem::new("u".to_string());
    item3.set_resolved("h.bin".to_string(), "");
    assert_eq!(item3.file_path, "h.bin");
}

#[test]
fn preparation_resolves_the_item_and_builds_its_invocation() {
    let mut item = DownloadItem::new("https://example.com/pkg.tar.gz".to_string());
    let args = prepare_invocation(
        &mut item,
        Some("attachment; filename=\"release.tar.gz\""),
        "/tmp/dl",
        &config(),
    );
    assert_eq!(item.filename, "release.tar.gz");
    assert_eq!(item.file_path, "/tmp/dl/release.tar.gz");
    assert_eq!(args[0], "--dir=/tmp/dl");
    assert_eq!(args[1], "--out=release.tar.gz");
    assert_eq!(args.last().unwrap(), "https://example.com/pkg.tar.gz");

    let mut bare = DownloadItem::new("https://example.com/pkg.tar.gz".to_string());
    let args2 = prepare_invocation(&mut bare, None, "/tmp/dl", &config());
    assert_eq!(bare.filename, "pkg.tar.gz");
    assert_eq!(args2[1], "--out=pkg.tar.gz");
}

#[test]
fn item_reports_carry_the_url_and_the_reason() {
    assert!(matches!(item_report("u", Ok(())), ItemResult::Completed));
    assert!(matches!(
        item_report("u", Err(DownloadError::Cancelled)),
        ItemResult::Cancelled
    ));
    match item_report("https://example.com/a", Err(DownloadError::DiskSpace)) {
        ItemResult::Failed(msg) => assert_eq!(
            msg,
            "Failed: https://example.com/a - not enough disk space available"
        ),
        _ => panic!("expected a failure report"),
    }
}

#[test]
fn the_coordinator_bounds_the_number_in_flight() {
    let mut coord = BatchCoordinator::new(5, 2);
    assert!(coord.can_start());
    coord.note_started();
    assert!(coord.can_start());
    coord.note_started();
    // Two of five are running: the factor of two is exhausted.
    assert!(!coord.can_start());
    coord.note_finished(ItemResult::Completed);
    assert!(coord.can_start());
    coord.note_started();
    assert!(!coord.can_start());
    coord.note_finished(ItemResult::Completed);
    coord.note_finished(ItemResult::Completed);
    coord.note_started();
    coord.note_started();
    assert!(!coord.can_start());
    coord.note_finished(ItemResult::Completed);
    coord.note_finished(ItemResult::Completed);
    assert!(coord.is_drained());
    assert!(matches!(coord.result(), BatchResult::AllCompleted));
}

#[test]
fn failures_are_collected_in_order() {
    let mut coord = BatchCoordinator::new(3, 3);
    coord.note_started();
    coord.note_started();
    coord.note_started();
    coord.note_finished(ItemResult::Failed("first".to_string()));
    coord.note_finished(ItemResult::Completed);
    coord.note_finished(ItemResult::Failed("second".to_string()));
    assert!(coord.is_drained());
    match coord.result() {
        BatchResult::Failures(msgs) => assert_eq!(msgs, vec!["first", "second"]),
        _ => panic!("expected failures"),
    }
}

#[test]
fn a_cancellation_mid_batch_cancels_the_whole_run() {
    let mut coord = BatchCoordinator::new(4, 2);
    coord.note_started();
    coord.note_started();
    coord.note_finished(ItemResult::Completed);
    coord.note_started();
    coord.note_finished(ItemResult::Failed("oops".to_string()));
    coord.note_finished(ItemResult::Cancelled);
    // One item is neither started nor finished, yet the run is over.
    assert!(coord.is_drained());
    assert!(!coord.can_start());
    assert!(matches!(coord.result(), BatchResult::Cancelled));
}
