use anime_mod_manager::download_queue::{ids_to_pause, DownloadQueue};
use anime_mod_manager::download_task::{
    classify_install_failure, classify_prepare_failure, classify_remote_meta_failure,
    classify_transfer_failure, percent_text, sanitize_archive_file_name, DownloadTaskPhase,
    DownloadTaskRequest, DownloadTaskStatusCode, ResumeDownloadTask, TaskControlHandle,
    TaskControlRequest,
};
use anime_mod_manager::models::{
    DownloadCheckpoint, DownloadCheckpointPhase, InstalledMod, ModEntryState,
    DOWNLOAD_STATUS_FAILED_ACCESS_DENIED, DOWNLOAD_STATUS_FAILED_FILE_NOT_FOUND,
    DOWNLOAD_STATUS_FAILED_INSTALL, DOWNLOAD_STATUS_FAILED_INVALID_RANGE,
    DOWNLOAD_STATUS_FAILED_NETWORK, DOWNLOAD_STATUS_FAILED_PREPARE,
    DOWNLOAD_STATUS_FAILED_READ_PERMISSION, DOWNLOAD_STATUS_FAILED_REMOTE_META,
    DOWNLOAD_STATUS_FAILED_TRANSFER, DOWNLOAD_STATUS_FAILED_UNEXPECTED_EOF,
    DOWNLOAD_STATUS_FAILED_UNSUPPORTED_FORMAT, DOWNLOAD_STATUS_FAILED_WRITE_PERMISSION,
};
use anime_mod_manager::restore::{pick_image_source, restore_order};
use anime_mod_manager::scheduler::{FailurePlan, SchedulerCore};
use anime_mod_manager::transfer::{
    appends, check_direct_status, chunk_range_header, chunk_total, direct_total,
    expected_after_chunk, judge_range_not_satisfiable, open_range_header, requested_range_end,
    ModFileDownloadError, RangeVerdict, Recovery, Step,
};

fn resume(task_id: u64) -> DownloadTaskRequest {
    DownloadTaskRequest::Resume(ResumeDownloadTask {
        task_id,
        mod_id: task_id * 10,
        file_id: 1,
        file_name: "a.zip".to_string(),
        folder_name: "folder".to_string(),
        is_r18: false,
    })
}

fn request_id(r: &DownloadTaskRequest) -> u64 {
    match r {
        DownloadTaskRequest::Fresh(t) => t.task_id,
        DownloadTaskRequest::Resume(t) => t.task_id,
    }
}

fn stored(phase: Option<DownloadCheckpointPhase>, updated_at: i64) -> InstalledMod {
    InstalledMod {
        meta_uuid: "u".to_string(),
        name: "n".to_string(),
        mod_id: 1,
        installed_at: 0,
        folder: "f".to_string(),
        remote_date_modified: 0,
        author: String::new(),
        category: String::new(),
        subcategory: None,
        is_r18: false,
        local_cover_path: None,
        thumbnail_url: None,
        cover_url: None,
        profile_url: String::new(),
        enabled: true,
        update_available: false,
        state: ModEntryState::Pending,
        current_file_name: None,
        active_download: phase.map(|p| DownloadCheckpoint {
            file_id: 1,
            file_name: "a.zip".to_string(),
            temp_file_path: None,
            downloaded_bytes: 0,
            total_bytes: 0,
            phase: p,
            status_code: 200,
            debug_detail: None,
            updated_at,
        }),
        local_detail: None,
    }
}

#[test]
fn queue_reuses_row_of_same_file() {
    let mut q = DownloadQueue::new();
    let a = q.create_task(7, "Mod".to_string(), 70, "a.zip".to_string(), None);
    let b = q.create_task(8, "Other".to_string(), 80, "b.zip".to_string(), None);
    assert_eq!((a, b), (1, 2));
    q.apply_update(a, DownloadTaskPhase::Downloading, 150, DownloadTaskStatusCode::Downloading,
        "50%".to_string(), Some("img".to_string()));
    let rows = q.snapshot();
    assert_eq!(rows[0].progress, 100);
    assert_eq!(rows[0].image_url, Some("img".to_string()));
    let again = q.create_task(7, "Mod v2".to_string(), 70, "a2.zip".to_string(), None);
    assert_eq!(again, a);
    let rows = q.snapshot();
    assert_eq!(rows.len(), 2);
    assert_eq!(rows[0].mod_name, "Mod v2");
    assert_eq!(rows[0].progress, 0);
    assert_eq!(rows[0].phase, DownloadTaskPhase::Queued);
    assert_eq!(rows[0].status_text, "等待下载");
    q.remove_task(a);
    let rows = q.snapshot();
    assert_eq!(rows.len(), 1);
    assert_eq!(rows[0].id, b);
    assert_eq!(q.create_task(9, "x".to_string(), 90, "c.zip".to_string(), None), 3);
}

#[test]
fn pause_all_picks_active_rows() {
    let mut q = DownloadQueue::new();
    let a = q.create_task(1, "a".to_string(), 1, "a".to_string(), None);
    let b = q.create_task(2, "b".to_string(), 2, "b".to_string(), None);
    let c = q.create_task(3, "c".to_string(), 3, "c".to_string(), None);
    q.apply_update(b, DownloadTaskPhase::Failed, 0, DownloadTaskStatusCode::Failed, String::new(), None);
    q.apply_update(c, DownloadTaskPhase::Installing, 90, DownloadTaskStatusCode::Installing, String::new(), None);
    assert_eq!(ids_to_pause(&q.snapshot()), vec![a, c]);
}

#[test]
fn corner_labels() {
    assert_eq!(percent_text(DownloadTaskPhase::Queued, DownloadTaskStatusCode::Queued, 0), "排队");
    assert_eq!(percent_text(DownloadTaskPhase::Paused, DownloadTaskStatusCode::Removed, 0), "移除");
    assert_eq!(percent_text(DownloadTaskPhase::Paused, DownloadTaskStatusCode::Paused, 0), "暂停");
    assert_eq!(percent_text(DownloadTaskPhase::Downloading, DownloadTaskStatusCode::Downloading, 42), "42%");
    assert_eq!(percent_text(DownloadTaskPhase::Installing, DownloadTaskStatusCode::Installing, 100), "100%");
    assert_eq!(percent_text(DownloadTaskPhase::Completed, DownloadTaskStatusCode::Completed, 100), "完成");
    assert_eq!(percent_text(DownloadTaskPhase::Failed, DownloadTaskStatusCode::Failed, 3), "失败");
}

#[test]
fn archive_names_are_sanitized() {
    assert_eq!(sanitize_archive_file_name("  my mod (1).zip "), "my_mod__1_.zip");
    assert_eq!(sanitize_archive_file_name("   "), "downloaded_mod.zip");
    assert_eq!(sanitize_archive_file_name("模组.7z"), "__.7z");
}

#[test]
fn failures_are_classified() {
    assert_eq!(classify_prepare_failure("Permission denied (os error 13)"), DOWNLOAD_STATUS_FAILED_WRITE_PERMISSION);
    assert_eq!(classify_prepare_failure("disk full"), DOWNLOAD_STATUS_FAILED_PREPARE);
    assert_eq!(classify_remote_meta_failure("HTTP 403 Forbidden"), DOWNLOAD_STATUS_FAILED_ACCESS_DENIED);
    assert_eq!(classify_remote_meta_failure("operation timed out"), DOWNLOAD_STATUS_FAILED_NETWORK);
    assert_eq!(classify_remote_meta_failure("bad json"), DOWNLOAD_STATUS_FAILED_REMOTE_META);
    assert_eq!(classify_transfer_failure("Unexpected status: 416 (local=5)"), DOWNLOAD_STATUS_FAILED_INVALID_RANGE);
    assert_eq!(classify_transfer_failure("unexpected EOF while reading"), DOWNLOAD_STATUS_FAILED_UNEXPECTED_EOF);
    assert_eq!(classify_transfer_failure("file Not Found"), DOWNLOAD_STATUS_FAILED_FILE_NOT_FOUND);
    assert_eq!(classify_transfer_failure("connection reset by peer"), DOWNLOAD_STATUS_FAILED_NETWORK);
    assert_eq!(classify_transfer_failure("weird"), DOWNLOAD_STATUS_FAILED_TRANSFER);
    assert_eq!(classify_install_failure("unsupported format: x.lzh"), DOWNLOAD_STATUS_FAILED_UNSUPPORTED_FORMAT);
    assert_eq!(classify_install_failure("failed to open: permission denied"), DOWNLOAD_STATUS_FAILED_READ_PERMISSION);
    assert_eq!(classify_install_failure("mkdir: permission denied"), DOWNLOAD_STATUS_FAILED_WRITE_PERMISSION);
    assert_eq!(classify_install_failure("boom"), DOWNLOAD_STATUS_FAILED_INSTALL);
}

#[test]
fn control_requests_latch() {
    let mut c = TaskControlHandle::new();
    assert_eq!(c.requested_action(), None);
    assert!(!c.should_abort());
    c.request_pause();
    assert_eq!(c.requested_action(), Some(TaskControlRequest::Pause));
    assert!(c.should_abort());
    assert_eq!(TaskControlRequest::from_code(TaskControlRequest::Remove.code()), Some(TaskControlRequest::Remove));
    assert_eq!(TaskControlRequest::from_code(0), None);
}

#[test]
fn range_headers_and_totals() {
    assert_eq!(open_range_header(100), "bytes=100-");
    assert_eq!(chunk_range_header(0, 1048575), "bytes=0-1048575");
    assert_eq!(requested_range_end(10), 10 + 1048575);
    assert_eq!(requested_range_end(u64::MAX - 3), u64::MAX);
    assert_eq!(direct_total(206, 100, None, Some(50), 0), 150);
    assert_eq!(direct_total(200, 0, None, Some(50), 7), 50);
    assert_eq!(direct_total(206, 100, Some(999), Some(50), 0), 999);
    assert_eq!(direct_total(500, 0, None, None, 7), 7);
    assert_eq!(chunk_total(200, None, Some(64), 0), 64);
    assert_eq!(chunk_total(200, None, Some(64), 10), 10);
    assert_eq!(expected_after_chunk(5000, 206, 1023), Some(1024));
    assert_eq!(expected_after_chunk(500, 206, 1023), Some(500));
    assert_eq!(expected_after_chunk(500, 200, 1023), Some(500));
    assert_eq!(expected_after_chunk(0, 206, 1023), None);
    assert!(appends(5, 206));
    assert!(!appends(0, 206));
    assert!(!appends(5, 200));
}

#[test]
fn statuses_accepted_by_direct_download() {
    assert_eq!(check_direct_status(206, 10), None);
    assert_eq!(check_direct_status(200, 0), None);
    assert_eq!(check_direct_status(200, 10), Some("server ignored range resume request".to_string()));
    assert_eq!(check_direct_status(404, 0), Some("Unexpected status: 404".to_string()));
}

#[test]
fn range_not_satisfiable_verdicts() {
    assert!(matches!(judge_range_not_satisfiable(100, Some(100)), RangeVerdict::Complete(100)));
    assert!(matches!(judge_range_not_satisfiable(150, Some(100)), RangeVerdict::Restart(100)));
    match judge_range_not_satisfiable(50, Some(100)) {
        RangeVerdict::Fail(m) => assert_eq!(m, "Unexpected status: 416 (local=50, remote=100)"),
        _ => panic!("expected a failure"),
    }
    match judge_range_not_satisfiable(50, None) {
        RangeVerdict::Fail(m) => assert_eq!(m, "Unexpected status: 416 (local=50)"),
        _ => panic!("expected a failure"),
    }
}

#[test]
fn recovery_gives_up_after_six_failures_without_progress() {
    let mut r = Recovery::new(1000);
    for _ in 0..5 {
        assert_eq!(r.on_read_error(10, 10, false, "reset".to_string()), Step::RetryAfterPause);
    }
    assert_eq!(r.on_read_error(10, 10, false, "reset".to_string()), Step::GiveUp);
    assert_eq!(r.failures, 6);
    let mut p = Recovery::new(1000);
    p.on_read_error(10, 10, false, "x".to_string());
    assert_eq!(p.on_read_error(20, 10, true, "y".to_string()), Step::Retry);
    assert_eq!(p.failures, 0);
    assert_eq!(p.last_error, Some("y".to_string()));
}

#[test]
fn scheduler_admits_within_limit_in_order() {
    let mut s = SchedulerCore::new(1);
    s.enqueue(resume(1), false);
    s.enqueue(resume(2), false);
    s.enqueue(resume(3), true);
    let first = s.next_admission().unwrap();
    assert_eq!(request_id(&first), 3);
    assert!(s.next_admission().is_none());
    assert!(s.is_running(3));
    s.finish_task(3);
    assert_eq!(request_id(&s.next_admission().unwrap()), 1);
    s.set_max_concurrent(2);
    assert_eq!(request_id(&s.next_admission().unwrap()), 2);
    assert!(s.next_admission().is_none());
    assert_eq!(s.begin_shutdown(), 2);
}

#[test]
fn drive_starts_waiting_tasks_up_to_the_limit_in_order() {
    let mut s = SchedulerCore::new(2);
    s.enqueue(resume(1), false);
    s.enqueue(resume(2), false);
    s.enqueue(resume(3), false);
    s.store_paused(resume(2));
    let started: Vec<u64> = s.drive().iter().map(request_id).collect();
    assert_eq!(started, vec![1, 3]);
    assert_eq!(s.active_slot_count(), 2);
    assert!(s.drive().is_empty());
    s.enqueue(resume(4), false);
    assert!(s.drive().is_empty());
    s.finish_task(1);
    let next: Vec<u64> = s.drive().iter().map(request_id).collect();
    assert_eq!(next, vec![4]);
    s.finish_task(3);
    s.enqueue(resume(5), false);
    s.begin_shutdown();
    assert!(s.drive().is_empty());
}

#[test]
fn network_failures_retry_three_times() {
    let mut s = SchedulerCore::new(2);
    for attempt in 1..=3u8 {
        match s.plan_failure(5, Some(DOWNLOAD_STATUS_FAILED_NETWORK), 40, "timed out") {
            FailurePlan::Retry { reserve_slot, progress, message, delete_temp_file, .. } => {
                assert!(reserve_slot);
                assert!(!delete_temp_file);
                assert_eq!(progress, 40);
                assert_eq!(message, format!("网络异常，重新连接 {}/3", attempt));
            }
            _ => panic!("expected a retry"),
        }
    }
    match s.plan_failure(5, Some(DOWNLOAD_STATUS_FAILED_NETWORK), 40, "timed out") {
        FailurePlan::NetworkExhausted { status_code, final_message, debug_detail } => {
            assert_eq!(status_code, 434);
            assert_eq!(final_message, "网络环境异常，已重试 3 次");
            assert_eq!(debug_detail, "网络环境异常，已重试 3 次：timed out");
        }
        _ => panic!("expected exhaustion"),
    }
    match s.plan_failure(6, Some(DOWNLOAD_STATUS_FAILED_UNEXPECTED_EOF), 40, "") {
        FailurePlan::Retry { progress, delete_temp_file, reset_downloaded_bytes, .. } => {
            assert_eq!(progress, 0);
            assert!(delete_temp_file && reset_downloaded_bytes);
        }
        _ => panic!("expected a retry"),
    }
    assert!(matches!(s.plan_failure(6, Some(DOWNLOAD_STATUS_FAILED_UNEXPECTED_EOF), 40, ""), FailurePlan::NotRetried));
    assert!(matches!(s.plan_failure(7, Some(DOWNLOAD_STATUS_FAILED_FILE_NOT_FOUND), 0, ""), FailurePlan::Retry { .. }));
    assert!(matches!(s.plan_failure(8, Some(DOWNLOAD_STATUS_FAILED_INVALID_RANGE), 0, ""), FailurePlan::Retry { .. }));
    assert!(matches!(s.plan_failure(9, Some(431), 0, ""), FailurePlan::NotRetried));
    assert!(matches!(s.plan_failure(9, None, 0, ""), FailurePlan::NotRetried));
}

#[test]
fn restore_groups_are_oldest_first() {
    let items = vec![
        stored(Some(DownloadCheckpointPhase::Paused), 30),
        stored(Some(DownloadCheckpointPhase::Failed), 20),
        stored(None, 0),
        stored(Some(DownloadCheckpointPhase::Paused), 10),
        stored(Some(DownloadCheckpointPhase::Started), 5),
        stored(Some(DownloadCheckpointPhase::Paused), 10),
    ];
    let order = restore_order(&items);
    assert_eq!(order.failed, vec![1]);
    assert_eq!(order.paused, vec![3, 5, 0]);
    assert_eq!(order.started, vec![2, 4]);
}

#[test]
fn initial_picture_prefers_local_cover() {
    let cover = Some("https://c".to_string());
    let thumb = Some("https://t".to_string());
    assert_eq!(pick_image_source(Some("/l.png".to_string()), &cover, &thumb), Some("/l.png".to_string()));
    assert_eq!(pick_image_source(None, &cover, &thumb), cover);
    assert_eq!(pick_image_source(None, &None, &thumb), thumb);
    assert_eq!(pick_image_source(None, &None, &None), None);
}

#[test]
fn download_error_texts() {
    assert_eq!(ModFileDownloadError::Http("x".to_string()).message(), "HTTP error: x");
    assert_eq!(ModFileDownloadError::Io("disk".to_string()).message(), "IO error: disk");
    assert_eq!(ModFileDownloadError::Runtime("rt".to_string()).message(), "Runtime error: rt");
}

#[test]
fn paused_task_starts_again_with_its_request() {
    let mut s = SchedulerCore::new(1);
    s.enqueue(resume(4), false);
    s.store_paused(resume(4));
    assert!(s.next_admission().is_none());
    let update = s.start_action(4).unwrap();
    assert_eq!(update.phase, DownloadTaskPhase::Queued);
    assert_eq!(update.status_text, "等待下载");
    let admitted = s.next_admission().unwrap();
    assert_eq!(request_id(&admitted), 4);
    assert!(s.start_action(4).is_none());
}
