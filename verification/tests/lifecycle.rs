use anime_mod_manager::downloads::download_image;
use anime_mod_manager::meta_manager::{document_uuid, legacy_uuid};
use anime_mod_manager::restore::stored_progress;
use std::collections::HashSet;

use anime_mod_manager::catalog_view::{try_count_filt, try_filter_cards};
use anime_mod_manager::download_queue::DownloadQueue;
use anime_mod_manager::download_task::ExecutionBoard;
use anime_mod_manager::transfer::{judge_chunk_answer, ChunkAnswer, RangeVerdict, Recovery};
use anime_mod_manager::cache::{merge_page, CacheManifest, MetadataCache};
use anime_mod_manager::download_task::{
    begin_install, end_failed, end_install, end_stopped, resume_step, DownloadTaskEvent,
    DownloadTaskPhase, DownloadTaskRequest, DownloadTaskStatusCode, DownloadTaskUpdate,
    ResumeStep, TaskControlRequest, TaskEvents,
};
use anime_mod_manager::manager::{
    extraction_step, ArchiveKind, ExtractStep, ExtractTool, ManagerError, ModManager,
};
use anime_mod_manager::meta_manager::MetaManager;
use anime_mod_manager::models::{
    DownloadCheckpoint, DownloadCheckpointPhase, InstalledMod, ModCard, ModEntryState,
    DOWNLOAD_STATUS_FAILED_INSTALL, DOWNLOAD_STATUS_FAILED_NETWORK, DOWNLOAD_STATUS_FAILED_PREPARE,
    DOWNLOAD_STATUS_FAILED_REMOTE_META, DOWNLOAD_STATUS_FAILED_UNSUPPORTED_FORMAT,
    DOWNLOAD_STATUS_FAILED_WRITE_PERMISSION,
};
use anime_mod_manager::restore::{restore_fate, RestoreAction};

fn card(id: u64, name: &str) -> ModCard {
    ModCard {
        id,
        name: name.to_string(),
        author: "someone".to_string(),
        category: "Skins".to_string(),
        subcategory: None,
        likes: 0,
        views: 0,
        date_added: 0,
        date_modified: 0,
        local_cover_path: None,
        thumbnail_url: None,
        cover_url: None,
        is_r18: false,
        has_files: true,
        profile_url: String::new(),
    }
}

fn stored(phase: DownloadCheckpointPhase, detail: Option<&str>) -> InstalledMod {
    InstalledMod {
        meta_uuid: "u".to_string(),
        name: "Mod".to_string(),
        mod_id: 12,
        installed_at: 0,
        folder: "12-Mod".to_string(),
        remote_date_modified: 0,
        author: String::new(),
        category: String::new(),
        subcategory: None,
        is_r18: true,
        local_cover_path: None,
        thumbnail_url: None,
        cover_url: None,
        profile_url: String::new(),
        enabled: true,
        update_available: false,
        state: ModEntryState::Pending,
        current_file_name: None,
        active_download: Some(DownloadCheckpoint {
            file_id: 4,
            file_name: "pack.zip".to_string(),
            temp_file_path: None,
            downloaded_bytes: 5,
            total_bytes: 10,
            phase,
            status_code: 0,
            debug_detail: detail.map(|d| d.to_string()),
            updated_at: 1,
        }),
        local_detail: None,
    }
}

fn queued() -> DownloadTaskUpdate {
    DownloadTaskUpdate::new(DownloadTaskPhase::Queued, 0, DownloadTaskStatusCode::Queued, "等待下载".to_string())
}

#[test]
fn sync_of_unchanged_catalog_leaves_cache_fresh() {
    let mut cards = vec![card(3, "c"), card(2, "b"), card(1, "a")];
    assert!(merge_page(&mut cards, vec![card(3, "c"), card(2, "b")]));
    let cache = MetadataCache::from_parts(cards, CacheManifest { total_cards: 3, synced_at: 0 }, "/c".to_string());
    assert_eq!(cache.is_stale_given(Some(3)), Some(false));

    let mut empty: Vec<ModCard> = Vec::new();
    assert!(!merge_page(&mut empty, vec![card(7, "g"), card(6, "f")]));
    assert!(!merge_page(&mut empty, vec![card(5, "e")]));
    let cache = MetadataCache::from_parts(empty, CacheManifest { total_cards: 3, synced_at: 0 }, "/c".to_string());
    assert_eq!(cache.is_stale_given(Some(7)), Some(false));
}

#[test]
fn restored_downloads_are_shown_kept_or_resumed() {
    let failed = restore_fate(&stored(DownloadCheckpointPhase::Failed, Some("磁盘已满")), 1, 50).unwrap();
    assert!(matches!(failed.action, RestoreAction::Show));
    assert_eq!(failed.update.phase, DownloadTaskPhase::Failed);
    assert_eq!(failed.update.status_text, "磁盘已满");
    assert_eq!(failed.update.progress, 50);
    let plain = restore_fate(&stored(DownloadCheckpointPhase::Failed, None), 1, 0).unwrap();
    assert_eq!(plain.update.status_text, "下载失败");

    let paused = restore_fate(&stored(DownloadCheckpointPhase::Paused, None), 2, 130).unwrap();
    assert_eq!(paused.update.phase, DownloadTaskPhase::Paused);
    assert_eq!(paused.update.progress, 100);
    assert_eq!(paused.update.status_text, "已暂停");
    match paused.action {
        RestoreAction::StorePaused(DownloadTaskRequest::Resume(t)) => {
            assert_eq!((t.task_id, t.mod_id, t.file_id), (2, 12, 4));
            assert_eq!(t.file_name, "pack.zip");
            assert_eq!(t.folder_name, "12-Mod");
            assert!(t.is_r18);
        }
        _ => panic!("expected a paused resume request"),
    }

    let started = restore_fate(&stored(DownloadCheckpointPhase::Started, None), 3, 20).unwrap();
    assert_eq!(started.update.phase, DownloadTaskPhase::Queued);
    assert_eq!(started.update.status_code, DownloadTaskStatusCode::Queued);
    assert_eq!(started.update.status_text, "等待续传");
    assert!(matches!(started.action, RestoreAction::Resume(DownloadTaskRequest::Resume(ref t)) if t.task_id == 3));

    let mut none = stored(DownloadCheckpointPhase::Started, None);
    none.active_download = None;
    assert!(restore_fate(&none, 4, 0).is_none());
}

#[test]
fn resume_fetch_attempts_then_gives_up() {
    assert!(matches!(resume_step(0, None), ResumeStep::Fetch));
    match resume_step(1, Some("timeout")) {
        ResumeStep::RetryAfter { update, delay_secs } => {
            assert_eq!(delay_secs, 30);
            assert_eq!(update.status_code, DownloadTaskStatusCode::RetryPending);
            assert_eq!(update.status_text, "获取模组信息失败，1/2 次重试");
        }
        _ => panic!("expected a retry"),
    }
    assert!(matches!(resume_step(2, None), ResumeStep::RetryAfter { .. }));
    match resume_step(3, Some("HTTP 500")) {
        ResumeStep::GiveUp { status_code, message } => {
            assert_eq!(message, "获取模组信息失败，已重试3次：HTTP 500");
            assert_eq!(status_code, DOWNLOAD_STATUS_FAILED_REMOTE_META);
        }
        _ => panic!("expected to give up"),
    }
    match resume_step(3, Some("connection timed out")) {
        ResumeStep::GiveUp { status_code, .. } => assert_eq!(status_code, DOWNLOAD_STATUS_FAILED_NETWORK),
        _ => panic!("expected to give up"),
    }
}

#[test]
fn install_steps_end_with_one_final_event() {
    let mut events = TaskEvents::new(queued());
    assert!(begin_install(&mut events));
    assert_eq!(events.status().status_text, "正在安装");
    assert_eq!(end_install(&mut events, None, true), None);
    assert_eq!(events.status().phase, DownloadTaskPhase::Completed);
    assert_eq!(events.status().status_text, "已安装");
    assert!(events.is_ended());
    // nothing is sent after the final event
    assert!(!events.update(queued()));
    assert!(!end_stopped(&mut events, TaskControlRequest::Pause));
    assert_eq!(events.events().len(), 2);
    assert!(matches!(events.events()[1], DownloadTaskEvent::Finished(_)));

    let mut failing = TaskEvents::new(queued());
    begin_install(&mut failing);
    let (code, message) = end_install(&mut failing, Some("格式不支持：a.txt"), true).unwrap();
    assert_eq!(message, "安装失败：格式不支持：a.txt；已移除损坏压缩包，请重试下载");
    assert_eq!(code, DOWNLOAD_STATUS_FAILED_UNSUPPORTED_FORMAT);
    assert_eq!(failing.status().phase, DownloadTaskPhase::Failed);
    assert_eq!(failing.status().progress, 100);
    let (code, message) = end_install(&mut TaskEvents::new(queued()), Some("bad"), false).unwrap();
    assert_eq!((code, message.as_str()), (DOWNLOAD_STATUS_FAILED_INSTALL, "安装失败：bad"));
}

#[test]
fn executions_end_stopped_or_failed() {
    let mut events = TaskEvents::new(DownloadTaskUpdate::new(
        DownloadTaskPhase::Downloading,
        40,
        DownloadTaskStatusCode::Downloading,
        "正在下载".to_string(),
    ));
    assert!(end_stopped(&mut events, TaskControlRequest::Shutdown));
    assert_eq!(events.status().phase, DownloadTaskPhase::Queued);
    assert_eq!(events.status().progress, 40);
    assert_eq!(events.status().status_text, "等待续传");

    let mut setup = TaskEvents::new(queued());
    assert_eq!(end_failed(&mut setup, "permission denied".to_string(), true), Some(DOWNLOAD_STATUS_FAILED_WRITE_PERMISSION));
    assert_eq!(setup.status().progress, 0);
    let mut other = TaskEvents::new(queued());
    assert_eq!(end_failed(&mut other, "boom".to_string(), true), Some(DOWNLOAD_STATUS_FAILED_PREPARE));
    let mut transfer = TaskEvents::new(DownloadTaskUpdate::new(
        DownloadTaskPhase::Downloading,
        70,
        DownloadTaskStatusCode::Downloading,
        "正在下载".to_string(),
    ));
    assert_eq!(end_failed(&mut transfer, "HTTP 500".to_string(), false), None);
    assert_eq!(transfer.status().progress, 70);
    assert_eq!(transfer.status().status_text, "HTTP 500");
}

#[test]
fn archives_try_each_tool_in_turn() {
    let mut errors: Vec<String> = Vec::new();
    assert!(matches!(extraction_step(ArchiveKind::SevenZip, &errors), ExtractStep::Run(ExtractTool::SevenZip)));
    errors.push("7z 解压失败：missing".to_string());
    assert!(matches!(extraction_step(ArchiveKind::SevenZip, &errors), ExtractStep::Run(ExtractTool::Bsdtar)));
    errors.push("bsdtar 解压失败：bad".to_string());
    match extraction_step(ArchiveKind::SevenZip, &errors) {
        ExtractStep::Fail(m) => assert_eq!(m, "7z 解压失败。7z: 7z 解压失败：missing; bsdtar: bsdtar 解压失败：bad"),
        _ => panic!("expected a failure"),
    }
    assert!(matches!(extraction_step(ArchiveKind::Rar, &Vec::new()), ExtractStep::Run(ExtractTool::Bsdtar)));
    match extraction_step(ArchiveKind::Rar, &vec!["x".to_string(), "y".to_string()]) {
        ExtractStep::Fail(m) => assert_eq!(m, "RAR 解压失败。bsdtar: x; 7z: y"),
        _ => panic!("expected a failure"),
    }
    assert!(matches!(extraction_step(ArchiveKind::Zip, &Vec::new()), ExtractStep::Run(ExtractTool::Zip)));
    match extraction_step(ArchiveKind::Zip, &vec!["zip broken".to_string()]) {
        ExtractStep::Fail(m) => assert_eq!(m, "zip broken"),
        _ => panic!("expected a failure"),
    }
}

#[test]
fn install_clears_folders_before_the_format_is_refused() {
    let m = ModManager::new("/game/Mods".to_string(), MetaManager::new(vec![]));
    let plan = m.install(None, "/tmp/pack.txt", &card(5, "New"), "5-New", 1);
    assert_eq!(plan.target_dir, "/game/Mods/5-New");
    assert_eq!(plan.other_dir, "/game/.disabled_mods/5-New");
    assert_eq!(plan.archive_name, "pack.txt");
    match plan.kind {
        Err(ManagerError::UnsupportedFormat(n)) => assert_eq!(n, "pack.txt"),
        _ => panic!("expected an unsupported format"),
    }
    let ok = m.install(None, "/tmp/pack.rar", &card(5, "New"), "5-New", 1);
    assert!(matches!(ok.kind, Ok(ArchiveKind::Rar)));
}

#[test]
fn chunk_answers_follow_take_or_fail() {
    match judge_chunk_answer(302, Some("https://cdn/x"), 1, 0, 0, None) {
        ChunkAnswer::Follow(u) => assert_eq!(u, "https://cdn/x"),
        other => panic!("expected a redirect, got {other:?}"),
    }
    match judge_chunk_answer(301, Some("https://cdn/x"), 5, 0, 0, None) {
        ChunkAnswer::Fail(m) => assert_eq!(m, "Too many redirects"),
        other => panic!("unexpected {other:?}"),
    }
    match judge_chunk_answer(307, None, 1, 0, 0, None) {
        ChunkAnswer::Fail(m) => assert_eq!(m, "Redirect without Location"),
        other => panic!("unexpected {other:?}"),
    }
    assert!(matches!(judge_chunk_answer(206, None, 1, 10, 10, None), ChunkAnswer::Body { append: true }));
    assert!(matches!(judge_chunk_answer(206, None, 2, 0, 0, None), ChunkAnswer::Body { append: false }));
    match judge_chunk_answer(200, None, 1, 0, 0, None) {
        ChunkAnswer::Fail(m) => assert_eq!(m, "server ignored range resume request"),
        other => panic!("unexpected {other:?}"),
    }
    assert!(matches!(judge_chunk_answer(416, None, 1, 9, 9, Some(9)), ChunkAnswer::Range(RangeVerdict::Complete(9))));
    match judge_chunk_answer(500, None, 1, 0, 0, None) {
        ChunkAnswer::Fail(m) => assert_eq!(m, "Unexpected status: 500"),
        other => panic!("unexpected {other:?}"),
    }
    let mut r = Recovery::new(100);
    r.failures = 3;
    assert!(matches!(r.on_chunk_answer(416, None, 1, 120, 120, Some(50)), ChunkAnswer::Range(RangeVerdict::Restart(50))));
    assert_eq!((r.effective_total, r.failures), (50, 0));
    assert_eq!(r.on_chunk_body(206, Some(4000000), None, 1048575), Some(1048576));
    assert_eq!(r.effective_total, 4000000);
}

#[test]
fn queue_changes_notify_every_listener_once() {
    let mut q = DownloadQueue::new();
    assert_eq!(q.subscribe(), 0);
    assert_eq!(q.subscribe(), 1);
    let id = q.create_task(1, "m".to_string(), 2, "f.zip".to_string(), None);
    assert_eq!(q.take_notices(), vec![0, 1]);
    assert!(q.take_notices().is_empty());
    q.apply_update(99, DownloadTaskPhase::Failed, 0, DownloadTaskStatusCode::Failed, "x".to_string(), None);
    assert_eq!(q.take_notices(), vec![0, 1]);
    q.remove_task(99);
    assert!(q.take_notices().is_empty());
    q.remove_task(id);
    assert_eq!(q.take_notices(), vec![0, 1]);
}

#[test]
fn every_handle_of_a_task_sees_its_requests() {
    let mut board = ExecutionBoard::new();
    let h = board.open(1, DownloadTaskUpdate::new(DownloadTaskPhase::Downloading, 40, DownloadTaskStatusCode::Downloading, "正在下载".to_string()));
    let other = board.open(2, queued());
    let copy = h;
    assert!(!copy.has_pending_control_request(&board));
    let report = h.pause(&mut board);
    assert_eq!((report.progress, report.status_text.as_str()), (40, "正在暂停"));
    assert!(copy.has_pending_control_request(&board));
    assert!(board.should_abort(1));
    assert_eq!(board.requested_action(1), Some(TaskControlRequest::Pause));
    assert!(!other.has_pending_control_request(&board));
    let s = copy.shutdown(&mut board);
    assert_eq!(s.status_text, "等待续传");
    assert_eq!(board.requested_action(1), Some(TaskControlRequest::Shutdown));
    assert_eq!(copy.remove(&mut board).status_code, DownloadTaskStatusCode::Removed);
    board.record_status(2, DownloadTaskUpdate::new(DownloadTaskPhase::Downloading, 7, DownloadTaskStatusCode::Downloading, "d".to_string()));
    assert_eq!(other.current_status(&board).progress, 7);
}

#[test]
fn filtering_refuses_a_search_that_never_ends() {
    let cache = MetadataCache::from_parts(vec![card(1, "Raiden"), card(2, "AYAKA")], CacheManifest { total_cards: 2, synced_at: 0 }, String::new());
    let none: HashSet<u64> = HashSet::new();
    let cats = vec!["全部".to_string()];
    assert_eq!(try_filter_cards(&cache, 0, 0, 0, 0, &cats, &cats, "+", &none), None);
    assert_eq!(try_count_filt(&cache, 0, 0, 0, 0, &cats, &cats, "|", &none), None);
    assert_eq!(try_filter_cards(&cache, 0, 0, 0, 0, &cats, &cats, "Ayaka", &none), Some(vec![1]));
    assert_eq!(try_count_filt(&cache, 0, 0, 0, 0, &cats, &cats, "", &none), Some(2));
}

#[test]
fn downloads_continue_the_entry_of_their_mod() {
    let m = ModManager::new("/game/Mods".to_string(), MetaManager::new(vec![]));
    let mut item = stored(DownloadCheckpointPhase::Started, None);
    item.enabled = false;
    let (found, dir) = m.download_entry(None, Some(item)).unwrap();
    assert_eq!(found.folder, "12-Mod");
    assert_eq!(dir, "/game/.disabled_mods/12-Mod");
    let in_folder = Some((stored(DownloadCheckpointPhase::Paused, None), "/x".to_string()));
    assert_eq!(m.download_entry(in_folder, None).unwrap().1, "/x");
    assert!(m.download_entry(None, None).is_none());
}

#[test]
fn image_cache_miss_keeps_other_entries() {
    let mut cache = anime_mod_manager::img_cache::ImageCache::new(4, 300);
    cache.put("a", vec![1]);
    cache.put("b", vec![2]);
    assert_eq!(cache.get("c"), None);
    assert_eq!(cache.get("a"), Some(vec![1]));
    assert_eq!(cache.get("b"), Some(vec![2]));
    let mut expired = anime_mod_manager::img_cache::ImageCache::new(4, 0);
    expired.put("a", vec![1]);
    expired.put("b", vec![2]);
    assert_eq!(expired.get("a"), None);
    assert!(expired.find("a").is_none());
    assert!(expired.find("b").is_some());
}

#[test]
fn stored_progress_rounds_to_whole_percent() {
    assert_eq!(stored_progress(5, 0), 0);
    assert_eq!(stored_progress(1, 3), 33);
    assert_eq!(stored_progress(2, 3), 67);
    assert_eq!(stored_progress(1, 200), 1);
    assert_eq!(stored_progress(1, 201), 0);
    assert_eq!(stored_progress(10, 10), 100);
    assert_eq!(stored_progress(30, 10), 100);
    assert_eq!(stored_progress(u64::MAX, u64::MAX), 100);
}

#[test]
fn new_document_uuids_are_version_four() {
    for u in [document_uuid(None, None).unwrap(), legacy_uuid("  ")] {
        let cs: Vec<char> = u.chars().collect();
        assert_eq!(cs.len(), 36);
        for (i, c) in cs.iter().enumerate() {
            match i {
                8 | 13 | 18 | 23 => assert_eq!(*c, '-'),
                14 => assert_eq!(*c, '4'),
                _ => assert!(c.is_ascii_digit() || ('a'..='f').contains(c)),
            }
        }
    }
}

#[test]
fn a_failed_fetch_leaves_no_entry() {
    let mut cache = anime_mod_manager::img_cache::ImageCache::new(4, 300);
    assert_eq!(download_image(&mut cache, "u", || Ok(vec![7])), Ok(vec![7]));
    assert_eq!(download_image(&mut cache, "u", || Err("offline".to_string())), Ok(vec![7]));
    assert_eq!(download_image(&mut cache, "v", || Err("offline".to_string())), Err("offline".to_string()));
    assert!(cache.find("v").is_none());
}
