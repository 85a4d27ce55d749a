use anime_mod_manager::cache::cards_from_records;
use anime_mod_manager::cdn_client::{catalog_status_error, metadata_status_error, CdnError};
use anime_mod_manager::detail_view::{
    detail_gallery_urls, detail_progress_title, find_active_download_task, initial_gallery_urls,
    is_mod_installed,
};
use anime_mod_manager::download_queue::DownloadTask;
use anime_mod_manager::download_task::{
    arrival_update, failed_update, install_failure_message, remote_meta_failure_message,
    resume_retry_update, stopped_update, DownloadTaskPhase, DownloadTaskStatusCode,
    TaskControlRequest,
};
use anime_mod_manager::gamebanana::{
    detail_response_error, finish_list_page, list_response_error, parse_total_from_content_range, GbError,
};
use anime_mod_manager::models::{
    normalize_download_state, CategoryInfo, DownloadCheckpointPhase, DownloadMetaTemplate,
    InstalledMod, ModCard, ModDetail, ModEntryState, ModListPage, ModMetaTemplate, ModRecord,
    PageMetadata, PreviewImage, PreviewMedia, StoredPhase, SubmitterInfo,
};

fn image(base: &str, file: &str, file_530: &str) -> PreviewImage {
    PreviewImage {
        image_type: "screenshot".to_string(),
        base_url: base.to_string(),
        file: file.to_string(),
        file_220: String::new(),
        file_100: String::new(),
        file_530: file_530.to_string(),
        file_800: String::new(),
    }
}

fn record(id: u64, model: &str, root: Option<&str>, r18: bool) -> ModRecord {
    ModRecord {
        id,
        model_name: model.to_string(),
        name: format!("mod {}", id),
        profile_url: format!("https://gamebanana.com/mods/{}", id),
        date_added: 1,
        date_modified: 2,
        has_files: true,
        root_category: root.map(|n| CategoryInfo { name: n.to_string(), profile_url: String::new() }),
        sub_category: None,
        preview_media: Some(PreviewMedia { images: vec![image("https://img", "a.jpg", "a_530.jpg")] }),
        submitter: Some(SubmitterInfo { id: 1, name: "maker".to_string(), avatar_url: String::new() }),
        like_count: 3,
        view_count: 4,
        version: String::new(),
        is_obsolete: false,
        has_content_ratings: r18,
    }
}

fn card() -> ModCard {
    ModCard {
        id: 1,
        name: "m".to_string(),
        author: String::new(),
        category: String::new(),
        subcategory: None,
        likes: 0,
        views: 0,
        date_added: 0,
        date_modified: 0,
        local_cover_path: None,
        thumbnail_url: Some("t".to_string()),
        cover_url: Some("c".to_string()),
        is_r18: false,
        has_files: true,
        profile_url: String::new(),
    }
}

fn task(id: u64, mod_id: u64, file_id: u64, phase: DownloadTaskPhase) -> DownloadTask {
    DownloadTask {
        id,
        mod_id,
        file_id,
        mod_name: String::new(),
        file_name: String::new(),
        image_url: None,
        progress: 0,
        phase,
        status_code: DownloadTaskStatusCode::Queued,
        status_text: String::new(),
    }
}

#[test]
fn cards_from_catalog_records() {
    let c = ModCard::from_record(record(9, "Mod", Some("Skins"), false));
    assert_eq!(c.id, 9);
    assert_eq!(c.author, "maker");
    assert_eq!(c.category, "Skins");
    assert_eq!(c.thumbnail_url, Some("https://img/a_530.jpg".to_string()));
    assert_eq!(c.cover_url, Some("https://img/a.jpg".to_string()));
    let mut anon = record(10, "Mod", None, false);
    anon.submitter = None;
    anon.preview_media = None;
    let a = ModCard::from_record(anon);
    assert_eq!(a.author, "Unknown");
    assert_eq!(a.category, "");
    assert_eq!(a.thumbnail_url, None);
    let kept = cards_from_records(vec![record(1, "Mod", None, true), record(2, "Mod", None, false)], true);
    assert_eq!(kept.iter().map(|c| c.id).collect::<Vec<_>>(), vec![2]);
    let all = cards_from_records(vec![record(1, "Mod", None, true), record(2, "Mod", None, false)], false);
    assert_eq!(all.len(), 2);
}

#[test]
fn list_pages_keep_mods_only() {
    let page = ModListPage {
        metadata: PageMetadata { total: 100, per_page: 15 },
        records: vec![
            record(1, "Mod", Some("Skins"), false),
            record(2, "Tool", None, false),
            record(3, "Mod", Some("Tools"), false),
            record(4, "Mod", None, false),
        ],
        api_exhausted: false,
    };
    let done = finish_list_page(page, 15);
    assert!(done.api_exhausted);
    assert_eq!(done.records.iter().map(|r| r.id).collect::<Vec<_>>(), vec![1, 4]);
    assert!(matches!(list_response_error(500, "oops"), Some(GbError::Http(m)) if m == "HTTP 500: oops"));
    assert!(matches!(list_response_error(200, "  "), Some(GbError::Http(m)) if m == "Empty response body"));
    assert!(list_response_error(200, "{}").is_none());
    assert_eq!(parse_total_from_content_range("bytes 0-99/1234"), Some(1234));
    assert_eq!(parse_total_from_content_range("bytes 0-99/*"), None);
    assert_eq!(parse_total_from_content_range("bytes 0-99"), None);
    assert_eq!(GbError::NotFound.message(), "Not found");
    assert!(detail_response_error(200, b"{}").is_none());
    assert!(matches!(detail_response_error(404, b"nope"), Some(GbError::Http(m)) if m == "HTTP 404: nope"));
    assert!(matches!(detail_response_error(500, &[0x61, 0xFF]), Some(GbError::Http(m)) if m == "HTTP 500: a\u{FFFD}"));
    let long = vec![b'y'; 250];
    assert!(matches!(detail_response_error(503, &long), Some(GbError::Http(m)) if m == format!("HTTP 503: {}", "y".repeat(200))));
}

#[test]
fn mirror_errors() {
    assert!(catalog_status_error(200, None).is_none());
    assert!(matches!(catalog_status_error(502, None), Some(CdnError::Http(m)) if m == "HTTP 502: (no body)"));
    let long = "x".repeat(250);
    match catalog_status_error(404, Some(&long)) {
        Some(CdnError::Http(m)) => assert_eq!(m, format!("HTTP 404: {}", "x".repeat(200))),
        _ => panic!("expected an error"),
    }
    assert!(matches!(metadata_status_error(-1), Some(CdnError::Http(m)) if m == "HTTP -1"));
    assert_eq!(CdnError::Parse("bad".to_string()).message(), "CDN Parse: bad");
}

#[test]
fn stored_download_state_is_normalized() {
    let (p, c, d) = normalize_download_state(Some(StoredPhase::Downloading), None, Some("  ".to_string()));
    assert_eq!((p, c, d), (DownloadCheckpointPhase::Started, 200, None));
    let (p, c, d) = normalize_download_state(Some(StoredPhase::Paused), Some(433), Some(" net ".to_string()));
    assert_eq!((p, c, d), (DownloadCheckpointPhase::Failed, 433, Some("net".to_string())));
    let (p, c, _) = normalize_download_state(Some(StoredPhase::Paused), None, None);
    assert_eq!((p, c), (DownloadCheckpointPhase::Paused, 300));
    assert_eq!(DownloadCheckpointPhase::from_status_code(399), DownloadCheckpointPhase::Paused);
    assert_eq!(DownloadCheckpointPhase::Failed.default_status_code(), 400);
}

#[test]
fn templates_split_and_join_back() {
    let m = ModMetaTemplate {
        name: "n".to_string(),
        mod_id: 3,
        installed_at: 4,
        folder: "3-n".to_string(),
        remote_date_modified: 5,
        author: "a".to_string(),
        category: "c".to_string(),
        subcategory: Some("s".to_string()),
        is_r18: true,
        local_cover_path: None,
        thumbnail_url: None,
        cover_url: Some("cv".to_string()),
        profile_url: "p".to_string(),
        enabled: true,
        update_available: false,
        state: ModEntryState::Installed,
        current_file_name: Some("f.zip".to_string()),
        local_detail: None,
    };
    let d = DownloadMetaTemplate {
        file_id: 8,
        file_name: "f.zip".to_string(),
        temp_file_path: None,
        downloaded_bytes: 1,
        total_bytes: 2,
        phase: DownloadCheckpointPhase::Paused,
        status_code: 300,
        debug_detail: None,
        updated_at: 6,
    };
    let item = InstalledMod::from_templates("u".to_string(), m, Some(d));
    assert!(item.is_installed());
    assert!(item.has_active_download());
    let (m2, d2) = item.split_templates();
    let again = InstalledMod::from_templates("u".to_string(), m2, d2);
    assert_eq!(again.folder, "3-n");
    assert_eq!(again.active_download.as_ref().map(|x| x.file_id), Some(8));
    assert_eq!(again.active_download.map(|x| x.status_code), Some(300));
    assert!(!is_mod_installed(&Some(item.clone())));
    let mut done = item;
    done.active_download = None;
    assert!(is_mod_installed(&Some(done)));
    assert!(!is_mod_installed(&None));
}

#[test]
fn detail_gallery_and_tasks() {
    let c = card();
    assert_eq!(initial_gallery_urls(&c), vec!["c", "t"]);
    let mut same = card();
    same.thumbnail_url = Some("c".to_string());
    assert_eq!(initial_gallery_urls(&same), vec!["c"]);
    let detail = ModDetail {
        id: 1,
        name: "m".to_string(),
        description: String::new(),
        files: vec![],
        root_category: None,
        category: None,
        preview_media: Some(PreviewMedia {
            images: vec![image("https://i", "full.jpg", ""), image("https://i", "", "")],
        }),
        submitter: None,
        date_modified: 0,
    };
    assert_eq!(detail_gallery_urls(&detail, &c), vec!["https://i/full.jpg"]);
    let tasks = vec![
        task(1, 5, 10, DownloadTaskPhase::Completed),
        task(2, 5, 11, DownloadTaskPhase::Paused),
        task(3, 5, 12, DownloadTaskPhase::Downloading),
    ];
    assert_eq!(find_active_download_task(&tasks, 5, Some(12)).map(|t| t.id), Some(3));
    assert_eq!(find_active_download_task(&tasks, 5, Some(10)).map(|t| t.id), Some(2));
    assert_eq!(find_active_download_task(&tasks, 5, None).map(|t| t.id), Some(2));
    assert_eq!(find_active_download_task(&tasks, 6, None).map(|t| t.id), None);
    assert_eq!(detail_progress_title(DownloadTaskPhase::Downloading, "复用已下载文件"), "校验文件");
    assert_eq!(detail_progress_title(DownloadTaskPhase::Downloading, "50%"), "下载中");
    assert_eq!(detail_progress_title(DownloadTaskPhase::Failed, ""), "下载失败");
}

#[test]
fn lifecycle_reports() {
    let s = stopped_update(Some(TaskControlRequest::Pause), 40);
    assert_eq!((s.phase, s.progress, s.status_text.as_str()), (DownloadTaskPhase::Paused, 40, "已暂停"));
    let sd = stopped_update(Some(TaskControlRequest::Shutdown), 140);
    assert_eq!((sd.phase, sd.progress, sd.status_text.as_str()), (DownloadTaskPhase::Queued, 100, "等待续传"));
    let f = failed_update(120, "boom".to_string());
    assert_eq!((f.phase, f.progress, f.status_text.as_str()), (DownloadTaskPhase::Failed, 100, "boom"));
    let a = arrival_update(true, 30);
    assert_eq!((a.status_code, a.progress, a.status_text.as_str()), (DownloadTaskStatusCode::ReusingArchive, 30, "复用已下载文件"));
    let b = arrival_update(false, 30);
    assert_eq!((b.status_code, b.progress, b.status_text.as_str()), (DownloadTaskStatusCode::Preparing, 0, "正在准备"));
    let r = resume_retry_update(2);
    assert_eq!((r.phase, r.status_text.as_str()), (DownloadTaskPhase::Queued, "获取模组信息失败，2/2 次重试"));
    assert_eq!(remote_meta_failure_message(Some("x")), "获取模组信息失败，已重试3次：x");
    assert_eq!(remote_meta_failure_message(None), "获取模组信息失败，已重试3次");
    assert_eq!(install_failure_message("bad", true), "安装失败：bad；已移除损坏压缩包，请重试下载");
    assert_eq!(install_failure_message("bad", false), "安装失败：bad");
}
