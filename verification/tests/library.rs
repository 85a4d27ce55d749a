use std::cmp::Ordering;
use std::collections::HashSet;

use anime_mod_manager::cache::{
    merge_page, page_info, sync_done, CacheManifest, MetadataCache, SyncCursor,
};
use anime_mod_manager::catalog_view::{
    card_matches_filters, count_filt, filter_cards, page_nav, page_rows, preload_offsets,
};
use anime_mod_manager::cdn_client::CdnClient;
use anime_mod_manager::config::{AppSettings, GimiRuntimeSettings};
use anime_mod_manager::detail_view::{html_to_plain_text, relative_time};
use anime_mod_manager::downloads::{bytes_from_answer, download_image, image_cache};
use anime_mod_manager::gamebanana::{url_encode, GameBananaClient};
use anime_mod_manager::manager::{
    cover_relative_path, detect_archive_kind, disabled_root_for, install_record,
    keep_in_install_target, meta_roots_for, tool_failure_message, with_download_failed,
    with_download_progress, without_active_download, ArchiveKind, ModManager,
};
use anime_mod_manager::meta_manager::{document_uuid, legacy_uuid, MetaError, MetaIndex, MetaManager};
use anime_mod_manager::models::{
    DownloadCheckpoint, DownloadCheckpointPhase, InstalledMod, MetaTemplateKind, ModCard,
    ModEntryState,
};
use anime_mod_manager::name_query::NameQuery;
use anime_mod_manager::runtime::{
    available_update_tag, compare_version_tags, download_progress, extract_percent,
    installed_version_from_marker, newer_version, overall_download_percent,
    release_tag_from_page, runtime_payload_relative_path, version_parts, RuntimeCardState,
};

fn card(id: u64, name: &str) -> ModCard {
    ModCard {
        id,
        name: name.to_string(),
        author: "someone".to_string(),
        category: "Skins".to_string(),
        subcategory: Some("Raiden".to_string()),
        likes: 1,
        views: 2,
        date_added: 10,
        date_modified: 20,
        local_cover_path: None,
        thumbnail_url: Some("thumb".to_string()),
        cover_url: Some("cover".to_string()),
        is_r18: false,
        has_files: true,
        profile_url: "https://gamebanana.com/mods/1".to_string(),
    }
}

fn entry(uuid: &str, download: Option<DownloadCheckpoint>) -> InstalledMod {
    InstalledMod {
        meta_uuid: uuid.to_string(),
        name: "Old".to_string(),
        mod_id: 5,
        installed_at: 1,
        folder: "5-Old".to_string(),
        remote_date_modified: 3,
        author: "a".to_string(),
        category: "c".to_string(),
        subcategory: None,
        is_r18: false,
        local_cover_path: Some(".anime-mod-media/cover.png".to_string()),
        thumbnail_url: None,
        cover_url: None,
        profile_url: String::new(),
        enabled: false,
        update_available: true,
        state: ModEntryState::Pending,
        current_file_name: Some("old.zip".to_string()),
        active_download: download,
        local_detail: None,
    }
}

fn checkpoint() -> DownloadCheckpoint {
    DownloadCheckpoint {
        file_id: 77,
        file_name: "new.7z".to_string(),
        temp_file_path: Some("/tmp/new.7z.part".to_string()),
        downloaded_bytes: 10,
        total_bytes: 100,
        phase: DownloadCheckpointPhase::Started,
        status_code: 200,
        debug_detail: None,
        updated_at: 5,
    }
}

#[test]
fn meta_index_tracks_documents() {
    let mut idx = MetaIndex::new();
    assert!(idx.is_empty());
    idx.refresh_entry("/mods/a", "u1", &[MetaTemplateKind::Mod, MetaTemplateKind::Download]);
    idx.refresh_entry("/mods/b", "u2", &[MetaTemplateKind::Mod]);
    assert!(idx.contains("u1"));
    assert_eq!(idx.dir_for("u2"), Some("/mods/b".to_string()));
    let mut mods = idx.uuids_for(MetaTemplateKind::Mod);
    mods.sort();
    assert_eq!(mods, vec!["u1", "u2"]);
    assert_eq!(idx.uuids_for(MetaTemplateKind::Download), vec!["u1"]);
    idx.refresh_entry("/mods/a", "u1", &[MetaTemplateKind::Mod]);
    assert!(idx.uuids_for(MetaTemplateKind::Download).is_empty());
    idx.remove_by_dir("/mods/b");
    assert!(!idx.contains("u2"));
    idx.refresh_entry("/mods/a", "u1", &[]);
    assert!(idx.is_empty());
    let m = MetaManager::new(meta_roots_for("/game/Mods"));
    assert!(m.needs_scan());
    assert_eq!(m.roots(), &vec!["/game/Mods".to_string(), "/game/.disabled_mods".to_string()]);
}

#[test]
fn document_uuids() {
    assert_eq!(document_uuid(Some("abc"), Some("abc")).unwrap(), "abc");
    assert_eq!(document_uuid(Some(""), Some("def")).unwrap(), "def");
    assert_eq!(document_uuid(Some("abc"), None).unwrap(), "abc");
    match document_uuid(Some("abc"), Some("def")) {
        Err(MetaError::UuidMismatch { existing, requested }) => {
            assert_eq!((existing.as_str(), requested.as_str()), ("abc", "def"));
        }
        _ => panic!("expected a mismatch"),
    }
    let fresh = document_uuid(None, None).unwrap();
    assert_eq!(fresh.len(), 36);
    assert_eq!(fresh.as_bytes()[8], b'-');
    assert_eq!(fresh.as_bytes()[14], b'4');
    assert_ne!(fresh, document_uuid(None, Some("")).unwrap());
    assert_eq!(legacy_uuid("keep-me"), "keep-me");
    assert_eq!(legacy_uuid("   ").len(), 36);
}

#[test]
fn manager_paths() {
    assert_eq!(disabled_root_for("/game/Mods"), "/game/.disabled_mods");
    let m = ModManager::new("/game/Mods".to_string(), MetaManager::new(vec![]));
    assert_eq!(m.mod_folder("5-x"), "/game/Mods/5-x");
    assert_eq!(m.entry_dir("5-x", false), "/game/.disabled_mods/5-x");
    let (on, off) = m.folder_candidates("f");
    assert_eq!((on.as_str(), off.as_str()), ("/game/Mods/f", "/game/.disabled_mods/f"));
}

#[test]
fn covers_and_archives() {
    assert_eq!(cover_relative_path("https://x/y/Cover.PNG?x=1"), ".anime-mod-media/cover.png");
    assert_eq!(cover_relative_path("https://x/y/cover"), ".anime-mod-media/cover.jpg");
    assert_eq!(detect_archive_kind("/tmp/Pack.ZIP"), Some(ArchiveKind::Zip));
    assert_eq!(detect_archive_kind("pack.7z"), Some(ArchiveKind::SevenZip));
    assert_eq!(detect_archive_kind("pack.rar"), Some(ArchiveKind::Rar));
    assert_eq!(detect_archive_kind("pack.tar.gz"), None);
    assert_eq!(detect_archive_kind("pack"), None);
    assert!(keep_in_install_target(".anime-mod.json", None));
    assert!(keep_in_install_target(".anime-mod-media", None));
    assert!(keep_in_install_target("pack.zip", Some("pack.zip")));
    assert!(!keep_in_install_target("mod.ini", Some("pack.zip")));
    assert_eq!(tool_failure_message("7z", "  bad header \n", "out"), "7z 解压失败：bad header");
    assert_eq!(tool_failure_message("7z", " ", ""), "7z 解压失败：未知错误");
}

#[test]
fn records_written_by_install_and_progress() {
    let existing = entry("uuid-1", Some(checkpoint()));
    let r = install_record(Some(existing), &card(5, "New"), "5-New", 99);
    assert_eq!(r.meta_uuid, "uuid-1");
    assert_eq!(r.name, "New");
    assert_eq!(r.installed_at, 99);
    assert!(!r.enabled);
    assert_eq!(r.state, ModEntryState::Installed);
    assert_eq!(r.current_file_name, Some("new.7z".to_string()));
    assert!(r.active_download.is_none());
    assert_eq!(r.local_cover_path, Some(".anime-mod-media/cover.png".to_string()));
    let fresh = install_record(None, &card(6, "N"), "6-N", 1);
    assert!(fresh.enabled);
    assert_eq!(fresh.meta_uuid, "");

    let p = with_download_progress(entry("u", None), DownloadCheckpointPhase::Paused, 300, 40, 80,
        Some("/t".to_string()), None, 7);
    let d = p.active_download.unwrap();
    assert_eq!((d.file_id, d.file_name.as_str()), (0, "old.zip"));
    assert_eq!((d.downloaded_bytes, d.total_bytes, d.status_code, d.updated_at), (40, 80, 300, 7));
    let f = with_download_failed(entry("u", Some(checkpoint())), 433, "timeout", 8);
    let fd = f.active_download.unwrap();
    assert_eq!(fd.phase, DownloadCheckpointPhase::Failed);
    assert_eq!(fd.debug_detail, Some("timeout".to_string()));
    assert_eq!(fd.downloaded_bytes, 10);
    let (cleared, temp) = without_active_download(entry("u", Some(checkpoint())));
    assert!(cleared.active_download.is_none());
    assert_eq!(temp, Some("/tmp/new.7z.part".to_string()));
}

#[test]
fn cache_merge_prepends_new_cards() {
    let mut cached = vec![card(3, "c"), card(2, "b"), card(1, "a")];
    let matched = merge_page(&mut cached, vec![card(5, "e"), card(4, "d"), card(3, "c")]);
    assert!(matched);
    let ids: Vec<u64> = cached.iter().map(|c| c.id).collect();
    assert_eq!(ids, vec![5, 4, 3, 2, 1]);
    let mut other = vec![card(1, "a")];
    assert!(!merge_page(&mut other, vec![card(9, "z")]));
    assert_eq!(other.iter().map(|c| c.id).collect::<Vec<_>>(), vec![1, 9]);
    assert!(sync_done(false, 0, false));
    assert!(!sync_done(false, 3, false));
    assert_eq!(page_info(2, 15, 7, &vec![card(8, "x")]), "page=2 raw=15 filtered=1 累计7条\n  new[0] id=8 name=\"x\"");
    let cache = MetadataCache::from_parts(vec![card(8, "x")], CacheManifest { total_cards: 1, synced_at: 0 }, "/c.json".to_string());
    assert_eq!(cache.is_stale_given(Some(8)), Some(false));
    assert_eq!(cache.is_stale_given(Some(9)), Some(true));
    assert_eq!(cache.is_stale_given(None), None);
}

#[test]
fn catalog_filters_and_pages() {
    let mut r18 = card(3, "Ayaka swimsuit");
    r18.is_r18 = true;
    let cache = MetadataCache::from_parts(
        vec![card(1, "Raiden Shogun"), card(2, "Ayaka Skin"), r18],
        CacheManifest { total_cards: 3, synced_at: 0 },
        String::new(),
    );
    let mut installed = HashSet::new();
    installed.insert(2u64);
    let cats = vec!["全部".to_string(), "Skins".to_string()];
    let subs = vec!["全部".to_string(), "Raiden".to_string()];
    assert_eq!(filter_cards(&cache, 0, 0, 0, 0, &cats, &subs, "", &installed), vec![0, 1, 2]);
    assert_eq!(filter_cards(&cache, 1, 0, 0, 0, &cats, &subs, "ayaka", &installed), vec![1]);
    assert_eq!(filter_cards(&cache, 2, 0, 0, 0, &cats, &subs, "", &installed), vec![2]);
    assert_eq!(filter_cards(&cache, 0, 1, 1, 1, &cats, &subs, "", &installed), vec![1]);
    assert_eq!(filter_cards(&cache, 0, 0, 0, 2, &cats, &subs, "-ayaka", &installed), vec![0]);
    assert_eq!(count_filt(&cache, 0, 0, 0, 0, &cats, &subs, "ayaka", &installed), 2);
    for search in ["", "ayaka", "-raiden", "skin | shogun"] {
        for age in 0..3u32 {
            let shown = filter_cards(&cache, age, 1, 0, 0, &cats, &subs, search, &installed);
            assert_eq!(shown.len(), count_filt(&cache, age, 1, 0, 0, &cats, &subs, search, &installed));
        }
    }
    let q = NameQuery::parse("raiden");
    assert!(card_matches_filters(&card(1, "RAIDEN"), 0, 0, "Skins", "", &q, &installed));
    assert!(!card_matches_filters(&card(1, "RAIDEN"), 0, 0, "UI", "", &q, &installed));

    let nav = page_nav(40, 16);
    assert_eq!((nav.page, nav.total_pages, nav.has_prev, nav.has_next), (2, 3, true, true));
    let last = page_nav(40, 32);
    assert!(!last.has_next);
    assert_eq!(page_nav(0, 0).total_pages, 1);
    let rows = page_rows(18, 16);
    assert_eq!(rows, vec![vec![Some(16), Some(17), None, None]]);
    assert_eq!(page_rows(40, 0).len(), 4);
    assert_eq!(preload_offsets(40, 16), vec![0]);
    assert_eq!(preload_offsets(64, 16), vec![0, 32]);
    assert_eq!(preload_offsets(20, 0), Vec::<usize>::new());
}

#[test]
fn name_queries() {
    assert!(NameQuery::parse("").matches("anything"));
    assert!(NameQuery::try_parse("+").is_none());
    assert!(NameQuery::try_parse("raiden").is_some());
    assert!(NameQuery::parse("raiden").matches("Raiden Shogun"));
    assert!(!NameQuery::parse("-raiden").matches("Raiden Shogun"));
    assert!(NameQuery::parse("ayaka + skin").matches("Ayaka Skin Pack"));
    assert!(!NameQuery::parse("ayaka + skin").matches("Ayaka Pack"));
    assert!(NameQuery::parse("ayaka skin").matches("skin of ayaka"));
    assert!(NameQuery::parse("raiden | ayaka").matches("Ayaka"));
    assert!(NameQuery::parse("ray_den").matches("Ray-Den"));
    assert!(!NameQuery::parse("ray_den").matches("RayDen"));
    assert!(NameQuery::parse("ray*den").matches("ray of the den"));
    assert!(!NameQuery::parse("ray*den").matches("den of ray"));
    assert!(NameQuery::parse("é").matches("CAFÉ"));
}

#[test]
fn relative_times_and_descriptions() {
    assert_eq!(relative_time(0, 100), "时间未知");
    assert_eq!(relative_time(100, 130), "刚刚");
    assert_eq!(relative_time(100, 100 + 125), "2分钟前");
    assert_eq!(relative_time(100, 100 + 7200), "2小时前");
    assert_eq!(relative_time(100, 100 + 86400 * 3), "3天前");
    assert_eq!(relative_time(100, 100 + 2592000), "1个月前");
    assert_eq!(relative_time(100, 100 + 31536000 * 2), "2年前");
    assert_eq!(relative_time(500, 100), "刚刚");
    assert_eq!(
        html_to_plain_text("<p>Hello<br>world</p><b>bold</b> &amp; &lt;tag&gt; &quot;q&quot; it&#039;s&nbsp;ok"),
        "Hello\nworld\n\nbold & <tag> \"q\" it's ok"
    );
}

#[test]
fn runtime_versions() {
    assert_eq!(version_parts("v8.7.8"), vec![8, 7, 8]);
    assert_eq!(version_parts("release-2024.1b3"), vec![2024, 1, 3]);
    assert_eq!(version_parts("1.99999999999.2"), vec![1, 2]);
    assert_eq!(version_parts("abc"), Vec::<u32>::new());
    assert_eq!(compare_version_tags("v8.7.9", "v8.7.8"), Ordering::Greater);
    assert_eq!(compare_version_tags("v1.9", "v1.10"), Ordering::Less);
    assert_eq!(compare_version_tags("v1.0", "1.0"), Ordering::Greater);
    assert_eq!(compare_version_tags("v1", "v1.0"), Ordering::Less);
    assert_eq!(compare_version_tags("v2", "v2"), Ordering::Equal);
    assert!(newer_version("v9", "v8.9"));
    let tags = ["v1.2", "v1.10", "1.10", "v1.10.0", "beta", "v2", "v1.2a"];
    for a in tags {
        for b in tags {
            for c in tags {
                if compare_version_tags(a, b) == Ordering::Less && compare_version_tags(b, c) == Ordering::Less {
                    assert_eq!(compare_version_tags(a, c), Ordering::Less);
                }
            }
            assert_eq!(compare_version_tags(a, b), compare_version_tags(b, a).reverse());
        }
    }
    assert!(!newer_version("v8.9", "v9"));

    let rt = GimiRuntimeSettings::defaults_in("/app");
    assert_eq!(rt.importer_directory, "/app/gimi");
    assert_eq!(rt.releases_url(), "https://github.com/SilentNightSound/GIMI-Package/releases");
    let mut card = RuntimeCardState {
        is_installed: true,
        installed_version: Some("v8.7.8".to_string()),
        latest_checked_version: Some("v8.8.0".to_string()),
        checking: false,
        operation: None,
    };
    assert_eq!(available_update_tag(&rt, &card), Some("v8.8.0".to_string()));
    card.latest_checked_version = None;
    assert_eq!(available_update_tag(&rt, &card), None);
    card.installed_version = None;
    assert_eq!(available_update_tag(&rt, &card), Some("v8.7.8".to_string()));
    card.is_installed = false;
    assert_eq!(available_update_tag(&rt, &card), None);
}

#[test]
fn runtime_pages_and_archives() {
    let body = "<a href=\"/SilentNightSound/GIMI-Package/releases/tag/v8.8.0\">x</a>";
    assert_eq!(release_tag_from_page(body, "SilentNightSound", "GIMI-Package"), Ok("v8.8.0".to_string()));
    assert_eq!(
        release_tag_from_page("nothing here", "SilentNightSound", "GIMI-Package"),
        Err("未能在 GitHub release 页面中定位 tag".to_string())
    );
    assert_eq!(installed_version_from_marker("  v8.7.8\n"), Some("v8.7.8".to_string()));
    assert_eq!(installed_version_from_marker(" \n"), None);
    assert_eq!(runtime_payload_relative_path("GIMI-Package-8.7.8/GIMI/Core/x.ini"), Some("Core/x.ini".to_string()));
    assert_eq!(runtime_payload_relative_path("pkg/other/x.ini"), None);
    assert_eq!(runtime_payload_relative_path("pkg/GIMI"), Some(String::new()));
    assert_eq!(download_progress(50, Some(200)), 25);
    assert_eq!(download_progress(500, Some(200)), 100);
    assert_eq!(download_progress(131072 * 3, None), 3);
    assert_eq!(download_progress(131072 * 300, None), 95);
    assert_eq!(overall_download_percent(50), 35);
    assert_eq!(overall_download_percent(100), 58);
    assert_eq!(extract_percent(50, 100), 80);
    assert_eq!(extract_percent(100, 100), 95);
}

#[test]
fn settings_defaults() {
    let s = AppSettings::defaults_in("/app");
    assert_eq!(s.core.gimi_runtime.managed_version, "v8.7.8");
    assert_eq!(s.ui.language, "zh-CN");
    assert_eq!(s.network.concurrent_downloads, 3);
    assert_eq!(AppSettings::config_path("/app"), "/app/config.json");
    assert_eq!(s.core.gimi_runtime.mods_directory(), "/app/gimi/Mods");
    assert_eq!(s.core.gimi_runtime.tag_archive_url("v1"), "https://github.com/SilentNightSound/GIMI-Package/archive/refs/tags/v1.zip");
}

#[test]
fn remote_urls() {
    let gb = GameBananaClient::new(8552);
    assert_eq!(
        gb.list_mods_url(2, 15, Some("雷 a&b")),
        "https://gamebanana.com/apiv11/Game/8552/Subfeed?_nPage=2&_nPerpage=15&_sSort=default&_sName=%E9%9B%B7+a%26b"
    );
    assert_eq!(gb.list_mods_url(1, 15, Some("")), "https://gamebanana.com/apiv11/Game/8552/Subfeed?_nPage=1&_nPerpage=15&_sSort=default");
    assert_eq!(url_encode("A-z_0.~"), "A-z_0.~");
    let cdn = CdnClient::new("  https://cdn.example.com// ", 8552);
    assert_eq!(cdn.manifest_url(), "https://cdn.example.com/api/v1/manifest");
    assert_eq!(cdn.catalog_since_url(42), "https://cdn.example.com/api/v1/catalog?since=42");
    assert_eq!(cdn.metadata_url(), "https://cdn.example.com/api/v1/8552/catalog/meta");
    assert_eq!(cdn.mod_url(7), "https://cdn.example.com/api/v1/mod/7");
}

#[test]
fn image_downloads_use_the_cache() {
    assert_eq!(bytes_from_answer(200, vec![1, 2]), Ok(vec![1, 2]));
    assert_eq!(bytes_from_answer(404, vec![1]), Err("HTTP 404".to_string()));
    let mut cache = image_cache();
    let first = download_image(&mut cache, "u", || Ok(vec![7, 7]));
    assert_eq!(first, Ok(vec![7, 7]));
    let second = download_image(&mut cache, "u", || Err("not called".to_string()));
    assert_eq!(second, Ok(vec![7, 7]));
    let failed = download_image(&mut cache, "v", || Err("HTTP 500".to_string()));
    assert_eq!(failed, Err("HTTP 500".to_string()));
}

#[test]
fn sync_cursor_moves_page_by_page() {
    let mut cursor = SyncCursor::new();
    assert_eq!(cursor.current_page(), 1);
    assert_eq!(cursor.next_page(), 1);
    assert_eq!(cursor.pages_done(), 0);
    // a failed fetch does not advance: the same page is asked for again
    assert_eq!(cursor.next_page(), 1);
    cursor.advance();
    assert_eq!(cursor.current_page(), 2);
    assert_eq!(cursor.next_page(), 2);
    cursor.advance();
    assert_eq!(cursor.next_page(), 3);
    assert_eq!(cursor.pages_done(), 2);
}
