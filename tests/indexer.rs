use filex::indexer::{
    begin_scan, is_image_type, media_update, plan_entry, EntryAction, EntryAttrs, IndexStats,
    MetadataStatus, RunFlag, ScanState, StoredAttrs,
};
use filex::metadata::{MediaMetadata, MetadataError};

fn file(size: i64, modified: &str) -> EntryAttrs {
    EntryAttrs { is_file: true, size: Some(size), modified_at: Some(modified.to_string()) }
}

fn stored(size: i64, modified: &str, status: MetadataStatus) -> Option<StoredAttrs> {
    Some(StoredAttrs { size: Some(size), modified_at: Some(modified.to_string()), status })
}

fn video() -> MediaMetadata {
    MediaMetadata {
        width: Some(1920),
        height: Some(1080),
        duration: Some("12.0".to_string()),
        codec: Some("h264".to_string()),
        format: None,
    }
}

#[test]
fn new_file_is_written_pending_and_probed() {
    let e = file(10, "2024-01-01T00:00:00+00:00");
    assert_eq!(plan_entry(&e, &None), EntryAction::Write { status: MetadataStatus::Pending, probe: true });
}

#[test]
fn new_directory_is_written_complete_without_probe() {
    let e = EntryAttrs { is_file: false, size: None, modified_at: Some("t".to_string()) };
    assert_eq!(plan_entry(&e, &None), EntryAction::Write { status: MetadataStatus::Complete, probe: false });
}

#[test]
fn changed_file_is_written_again() {
    let e = file(11, "t1");
    assert_eq!(
        plan_entry(&e, &stored(10, "t1", MetadataStatus::Complete)),
        EntryAction::Write { status: MetadataStatus::Pending, probe: true }
    );
    assert_eq!(
        plan_entry(&e, &stored(11, "t0", MetadataStatus::Complete)),
        EntryAction::Write { status: MetadataStatus::Pending, probe: true }
    );
}

#[test]
fn unchanged_pending_file_is_skipped_but_probed_again() {
    let e = file(10, "t");
    assert_eq!(plan_entry(&e, &stored(10, "t", MetadataStatus::Pending)), EntryAction::Skip { probe: true });
    assert_eq!(plan_entry(&e, &stored(10, "t", MetadataStatus::Complete)), EntryAction::Skip { probe: false });
}

#[test]
fn unchanged_rescan_skips_every_entry() {
    let entries = vec![
        ("/a.mp4", file(1, "t1")),
        ("/b.txt", file(2, "t2")),
        ("/dir", EntryAttrs { is_file: false, size: None, modified_at: Some("t3".to_string()) }),
    ];
    let mut scan = ScanState::new();
    for (path, e) in &entries {
        let st = Some(StoredAttrs {
            size: e.size,
            modified_at: e.modified_at.clone(),
            status: MetadataStatus::Complete,
        });
        let action = scan.plan(path.to_string(), e, None, &st);
        assert_eq!(action, EntryAction::Skip { probe: false });
    }
    assert_eq!(scan.stats.files_scanned, 3);
    assert_eq!(scan.stats.files_skipped, 3);
    assert_eq!(scan.stats.files_indexed, 0);
    assert_eq!(scan.observed, vec!["/a.mp4".to_string(), "/b.txt".to_string(), "/dir".to_string()]);
    assert!(scan.pending.is_empty());
}

#[test]
fn two_phase_status_of_a_new_video() {
    let mut scan = ScanState::new();
    let e = file(100, "t");
    let action = scan.plan("/clip.mp4".to_string(), &e, Some("video/mp4".to_string()), &None);
    assert_eq!(action, EntryAction::Write { status: MetadataStatus::Pending, probe: true });
    scan.record_write("/clip.mp4".to_string(), true, Some("video/mp4".to_string()), true);
    assert_eq!(scan.stats.files_indexed, 1);
    assert_eq!(scan.pending.len(), 1);
    assert_eq!(scan.pending[0].path, "/clip.mp4");

    let done = media_update(&Ok(video()), false).expect("settled");
    assert_eq!(done.status, MetadataStatus::Complete);
    assert_eq!(done.width, Some(1920));
    assert_eq!(done.duration.as_deref(), Some("12.0"));

    assert!(media_update(&Err(MetadataError::FfprobeNotFound), false).is_none());
    assert!(media_update(&Err(MetadataError::Timeout), false).is_none());
    assert_eq!(plan_entry(&e, &stored(100, "t", MetadataStatus::Pending)), EntryAction::Skip { probe: true });
}

#[test]
fn non_media_files_are_settled_with_cleared_fields() {
    let u = media_update(&Err(MetadataError::NotMediaFile), false).expect("settled");
    assert_eq!(u.status, MetadataStatus::Complete);
    assert!(u.width.is_none() && u.height.is_none() && u.duration.is_none());
    assert!(media_update(&Err(MetadataError::ParseError("bad".to_string())), false).is_none());
    assert!(media_update(&Err(MetadataError::ExecutionFailed("crash".to_string())), false).is_none());
}

#[test]
fn images_keep_no_duration() {
    let u = media_update(&Ok(video()), true).expect("settled");
    assert!(u.duration.is_none());
    assert_eq!(u.height, Some(1080));
    assert!(is_image_type(&Some("image/png".to_string())));
    assert!(!is_image_type(&Some("video/mp4".to_string())));
    assert!(!is_image_type(&Some("imag".to_string())));
    assert!(!is_image_type(&None));
}

#[test]
fn failed_writes_and_cleanup_count_errors() {
    let mut scan = ScanState::new();
    scan.record_write("/x".to_string(), true, None, false);
    assert_eq!(scan.stats.errors, 1);
    assert_eq!(scan.observed, vec!["/x".to_string()]);
    assert!(scan.pending.is_empty());
    scan.record_cleanup(None);
    assert_eq!(scan.stats.errors, 2);
    scan.record_cleanup(Some(4));
    assert_eq!(scan.stats.files_removed, 4);
    scan.record_unreadable("/y".to_string());
    assert_eq!(scan.stats.files_scanned, 1);
    assert_eq!(scan.observed, vec!["/x".to_string(), "/y".to_string()]);
    assert_eq!(scan.stats.errors, 3);
    scan.record_error();
    assert_eq!(scan.stats.errors, 4);
}

#[test]
fn single_flight_refuses_a_second_run() {
    let mut flag = RunFlag::new();
    assert!(!flag.is_running());
    let first = begin_scan(&mut flag);
    assert!(first.is_ok());
    assert!(flag.is_running());
    match begin_scan(&mut flag) {
        Ok(_) => panic!("a second scan started"),
        Err(stats) => {
            assert_eq!(stats.files_scanned, 0);
            assert_eq!(stats.files_indexed, 0);
            assert_eq!(stats.files_skipped, 0);
            assert_eq!(stats.errors, 0);
        }
    }
    assert!(flag.is_running());
    flag.finish();
    assert!(!flag.is_running());
    assert!(flag.try_begin());
}

#[test]
fn status_text_round_trips() {
    assert_eq!(MetadataStatus::Pending.as_str(), "pending");
    assert_eq!(MetadataStatus::Complete.as_str(), "complete");
    assert_eq!(MetadataStatus::from_text("complete"), MetadataStatus::Complete);
    assert_eq!(MetadataStatus::from_text("pending"), MetadataStatus::Pending);
    assert_eq!(MetadataStatus::from_text("weird"), MetadataStatus::Pending);
    let s = IndexStats::default();
    assert_eq!(s.files_updated, 0);
}

#[test]
fn probe_outcomes_count_errors_only_when_unsettled() {
    let mut scan = ScanState::new();
    let u = scan.record_probe(&Ok(video()), false);
    assert_eq!(u.map(|u| u.status), Some(MetadataStatus::Complete));
    assert_eq!(scan.stats.errors, 0);
    assert!(scan.record_probe(&Err(MetadataError::NotMediaFile), false).is_some());
    assert_eq!(scan.stats.errors, 0);
    assert!(scan.record_probe(&Err(MetadataError::Timeout), false).is_none());
    assert_eq!(scan.stats.errors, 1);
}

#[test]
fn settled_probe_keeps_probed_fields() {
    let mut scan = ScanState::new();
    let u = scan.record_probe(&Ok(video()), false).expect("settled");
    assert_eq!(u.width, Some(1920));
    assert_eq!(u.height, Some(1080));
    assert_eq!(u.duration.as_deref(), Some("12.0"));
    let img = scan.record_probe(&Ok(video()), true).expect("settled");
    assert!(img.duration.is_none());
}
