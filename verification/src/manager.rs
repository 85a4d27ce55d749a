//! The installed-mods manager: where each mod lives (enabled mods under the
//! mods directory, disabled ones in a sibling directory), and how its stored
//! record changes when a download is prepared, progresses, fails or is
//! installed.
//!
//! Reading and writing the records and unpacking archives is done by the
//! caller; this module decides the paths and the records' contents.

use vstd::prelude::*;

use crate::meta_manager::MetaManager;
use crate::models::{
    DownloadCheckpoint, DownloadCheckpointPhase, InstalledMod, LocalModDetail, ModCard,
    ModEntryState, ModFile, ModStatus, clone_opt_string, DOWNLOAD_STATUS_STARTED,
};
use crate::paths::{
    extension_of_name, file_name, join, opt_seq, parent_or_self, path_file_name, path_join,
    path_parent, name_extension,
};
use crate::text::{
    ascii_lower, chars_of, contains_seq, contains_str, lower_chars, push_str, trim, trimmed_chars,
};

verus! {

/// The directory, beside the mods directory, that holds disabled mods.
pub open spec fn disabled_root_spec(mods_dir: Seq<char>) -> Seq<char> {
    path_join(
        match path_parent(mods_dir) {
            Some(q) => q,
            None => mods_dir,
        },
        ".disabled_mods"@,
    )
}

/// `mods_dir.parent().unwrap_or(mods_dir).join(".disabled_mods")`.
pub fn disabled_root_for(mods_dir: &str) -> (r: String)
    ensures
        r@ == disabled_root_spec(mods_dir@),
{
    let base = parent_or_self(mods_dir);
    join(base.as_str(), ".disabled_mods")
}

/// The directories searched for mod metadata: the mods directory and the
/// disabled one.
pub fn meta_roots_for(mods_dir: &str) -> (r: Vec<String>)
    ensures
        r@.len() == 2,
        r@[0]@ == mods_dir@,
        r@[1]@ == disabled_root_spec(mods_dir@),
{
    let mut r: Vec<String> = Vec::new();
    r.push(mods_dir.to_owned());
    r.push(disabled_root_for(mods_dir));
    r
}

/// The manager of the mods under one directory.
pub struct ModManager {
    mods_dir: String,
    legacy_installed_json: String,
    meta_manager: MetaManager,
}

impl ModManager {
    pub closed spec fn spec_mods_dir(&self) -> Seq<char> {
        self.mods_dir@
    }

    pub closed spec fn spec_legacy_index(&self) -> Seq<char> {
        self.legacy_installed_json@
    }

    pub closed spec fn spec_meta_manager(&self) -> MetaManager {
        self.meta_manager
    }

    /// The metadata store the records live in.
    pub fn meta_manager(&self) -> (r: &MetaManager)
        ensures
            *r == self.spec_meta_manager(),
    {
        &self.meta_manager
    }

    pub fn meta_manager_mut(&mut self) -> (r: &mut MetaManager)
        ensures
            *r == old(self).spec_meta_manager(),
            final(self).spec_meta_manager() == *final(r),
            final(self).spec_mods_dir() == old(self).spec_mods_dir(),
            final(self).spec_legacy_index() == old(self).spec_legacy_index(),
    {
        &mut self.meta_manager
    }

    /// A manager of the mods under `mods_dir`; the old single-file index sits
    /// in it as `.installed.json`.
    pub fn new(mods_dir: String, meta_manager: MetaManager) -> (r: Self)
        ensures
            r.spec_mods_dir() == mods_dir@,
            r.spec_legacy_index() == path_join(mods_dir@, ".installed.json"@),
            r.spec_meta_manager() == meta_manager,
    {
        let legacy_installed_json = join(mods_dir.as_str(), ".installed.json");
        ModManager { mods_dir, legacy_installed_json, meta_manager }
    }

    pub fn mods_dir(&self) -> (r: &str)
        ensures
            r@ == self.spec_mods_dir(),
    {
        self.mods_dir.as_str()
    }

    /// Where the old single-file index would be.
    pub fn legacy_installed_json(&self) -> (r: &str)
        ensures
            r@ == self.spec_legacy_index(),
    {
        self.legacy_installed_json.as_str()
    }

    pub fn disabled_mods_dir(&self) -> (r: String)
        ensures
            r@ == disabled_root_spec(self.spec_mods_dir()),
    {
        disabled_root_for(self.mods_dir.as_str())
    }

    /// The directory of a mod folder when enabled, or when disabled.
    pub open spec fn target_dir_spec(&self, folder_name: Seq<char>, enabled: bool) -> Seq<char> {
        if enabled {
            path_join(self.spec_mods_dir(), folder_name)
        } else {
            path_join(disabled_root_spec(self.spec_mods_dir()), folder_name)
        }
    }

    pub fn target_dir_for_enabled(&self, folder_name: &str, enabled: bool) -> (r: String)
        ensures
            r@ == self.target_dir_spec(folder_name@, enabled),
    {
        if enabled {
            join(self.mods_dir.as_str(), folder_name)
        } else {
            let d = self.disabled_mods_dir();
            join(d.as_str(), folder_name)
        }
    }

    /// The directory of an enabled mod folder.
    pub fn mod_folder(&self, folder_name: &str) -> (r: String)
        ensures
            r@ == self.target_dir_spec(folder_name@, true),
    {
        self.target_dir_for_enabled(folder_name, true)
    }

    /// The directory of a mod folder in the given state.
    pub fn entry_dir(&self, folder_name: &str, enabled: bool) -> (r: String)
        ensures
            r@ == self.target_dir_spec(folder_name@, enabled),
    {
        self.target_dir_for_enabled(folder_name, enabled)
    }

    /// The two places a mod folder may be, enabled one first.
    pub fn folder_candidates(&self, folder_name: &str) -> (r: (String, String))
        ensures
            r.0@ == self.target_dir_spec(folder_name@, true),
            r.1@ == self.target_dir_spec(folder_name@, false),
    {
        (self.target_dir_for_enabled(folder_name, true), self.target_dir_for_enabled(folder_name, false))
    }
}

// ─── Covers and archives ─────────────────────────────────────

/// The file extension a cover keeps, guessed from its URL.
pub open spec fn cover_extension_spec(url: Seq<char>) -> Seq<char> {
    let l = ascii_lower(url);
    if contains_seq(l, ".png"@) {
        "png"@
    } else if contains_seq(l, ".webp"@) {
        "webp"@
    } else if contains_seq(l, ".gif"@) {
        "gif"@
    } else if contains_seq(l, ".bmp"@) {
        "bmp"@
    } else {
        "jpg"@
    }
}

pub fn cover_extension_from_url(source_url: &str) -> (r: &'static str)
    ensures
        r@ == cover_extension_spec(source_url@),
{
    let lower = lower_chars(source_url);
    if contains_str(lower.as_slice(), ".png") {
        "png"
    } else if contains_str(lower.as_slice(), ".webp") {
        "webp"
    } else if contains_str(lower.as_slice(), ".gif") {
        "gif"
    } else if contains_str(lower.as_slice(), ".bmp") {
        "bmp"
    } else {
        "jpg"
    }
}

/// The path, relative to the mod directory, a cover from `url` is stored at.
pub fn cover_relative_path(source_url: &str) -> (r: String)
    ensures
        r@ == ".anime-mod-media/cover."@ + cover_extension_spec(source_url@),
{
    let mut r = ".anime-mod-media/cover.".to_owned();
    push_str(&mut r, cover_extension_from_url(source_url));
    r
}

/// The directory, inside a mod directory, that holds its stored media.
pub open spec fn media_dir_name() -> Seq<char> {
    ".anime-mod-media"@
}

/// The archive formats an install can unpack.
#[derive(Debug, Clone, Copy, PartialEq, Eq, Structural)]
pub enum ArchiveKind {
    Zip,
    SevenZip,
    Rar,
}

/// The format named by a file's extension, in any letter case.
pub open spec fn archive_kind_spec(name: Seq<char>) -> Option<ArchiveKind> {
    match name_extension_of_path(name) {
        Some(e) => if ascii_lower(e) == "zip"@ {
            Some(ArchiveKind::Zip)
        } else if ascii_lower(e) == "7z"@ {
            Some(ArchiveKind::SevenZip)
        } else if ascii_lower(e) == "rar"@ {
            Some(ArchiveKind::Rar)
        } else {
            None
        },
        None => None,
    }
}

/// `Path::extension` of a path given as text.
pub open spec fn name_extension_of_path(p: Seq<char>) -> Option<Seq<char>> {
    match path_file_name(p) {
        Some(f) => name_extension(f),
        None => None,
    }
}

fn chars_equal(a: &[char], b: &str) -> (r: bool)
    ensures
        r == (a@ == b@),
{
    let bs = chars_of(b);
    if a.len() != bs.len() {
        return false;
    }
    let mut i: usize = 0;
    while i < a.len()
        invariant
            0 <= i <= a@.len(),
            a@.len() == bs@.len(),
            bs@ == b@,
            forall|j: int| 0 <= j < i ==> a@[j] == bs@[j],
        decreases a.len() - i,
    {
        if a[i] != bs[i] {
            return false;
        }
        i += 1;
    }
    assert(a@ =~= b@);
    true
}

pub fn detect_archive_kind(file_name_text: &str) -> (r: Option<ArchiveKind>)
    ensures
        r == archive_kind_spec(file_name_text@),
{
    let name = match file_name(file_name_text) {
        Some(n) => n,
        None => {
            return None;
        },
    };
    let ext = match extension_of_name(name.as_str()) {
        Some(e) => e,
        None => {
            return None;
        },
    };
    let lower = lower_chars(ext.as_str());
    if chars_equal(lower.as_slice(), "zip") {
        Some(ArchiveKind::Zip)
    } else if chars_equal(lower.as_slice(), "7z") {
        Some(ArchiveKind::SevenZip)
    } else if chars_equal(lower.as_slice(), "rar") {
        Some(ArchiveKind::Rar)
    } else {
        None
    }
}

/// The error of an archive in a format that cannot be unpacked.
pub fn unsupported_format_message(archive_name: &str) -> (r: String)
    ensures
        r@ == "格式不支持："@ + archive_name@,
{
    let mut r = "格式不支持：".to_owned();
    push_str(&mut r, archive_name);
    r
}

/// The error of an unpacking tool that failed: its trimmed error output,
/// else its trimmed normal output, else a note that the cause is unknown.
pub fn tool_failure_message(tool: &str, stderr: &str, stdout: &str) -> (r: String)
    ensures
        r@ == tool@ + " 解压失败："@ + (if trim(stderr@).len() > 0 {
            trim(stderr@)
        } else if trim(stdout@).len() > 0 {
            trim(stdout@)
        } else {
            "未知错误"@
        }),
{
    let e = trimmed_chars(stderr);
    let o = trimmed_chars(stdout);
    let mut r = tool.to_owned();
    push_str(&mut r, " 解压失败：");
    if e.len() > 0 {
        let t = crate::text::string_from_chars(e.as_slice());
        push_str(&mut r, t.as_str());
    } else if o.len() > 0 {
        let t = crate::text::string_from_chars(o.as_slice());
        push_str(&mut r, t.as_str());
    } else {
        push_str(&mut r, "未知错误");
    }
    r
}

/// The error of a RAR archive neither tool could unpack.
pub fn rar_failure_message(bsdtar_error: &str, seven_zip_error: &str) -> (r: String)
    ensures
        r@ == "RAR 解压失败。bsdtar: "@ + bsdtar_error@ + "; 7z: "@ + seven_zip_error@,
{
    let mut r = "RAR 解压失败。bsdtar: ".to_owned();
    push_str(&mut r, bsdtar_error);
    push_str(&mut r, "; 7z: ");
    push_str(&mut r, seven_zip_error);
    r
}

/// A way of unpacking an archive: the built-in zip reader, or one of the
/// two outside tools.
#[derive(Debug, Clone, Copy, PartialEq, Eq, Structural)]
pub enum ExtractTool {
    Zip,
    SevenZip,
    Bsdtar,
}

/// The tools tried, in order, on an archive of `kind`: zip archives are
/// read directly; 7z and RAR archives need either outside tool, the one
/// that suits the format best first.
pub open spec fn tools_for(kind: ArchiveKind) -> Seq<ExtractTool> {
    match kind {
        ArchiveKind::Zip => seq![ExtractTool::Zip],
        ArchiveKind::SevenZip => seq![ExtractTool::SevenZip, ExtractTool::Bsdtar],
        ArchiveKind::Rar => seq![ExtractTool::Bsdtar, ExtractTool::SevenZip],
    }
}

/// The error of an archive no tool could unpack, from the tools' errors in
/// the order they were tried.
pub open spec fn extraction_failure(kind: ArchiveKind, errors: Seq<String>) -> Seq<char> {
    match kind {
        ArchiveKind::Zip => errors[0]@,
        ArchiveKind::SevenZip => "7z 解压失败。7z: "@ + errors[0]@ + "; bsdtar: "@ + errors[1]@,
        ArchiveKind::Rar => "RAR 解压失败。bsdtar: "@ + errors[0]@ + "; 7z: "@ + errors[1]@,
    }
}

/// What to do next while unpacking an archive.
#[derive(Debug)]
pub enum ExtractStep {
    /// Unpack it with this tool.
    Run(ExtractTool),
    /// Every tool failed: the install fails with this error.
    Fail(String),
}

/// The next step of unpacking an archive of `kind` once the tools tried so
/// far failed with `errors` (in order): the next tool, or the failure when
/// none is left.
pub fn extraction_step(kind: ArchiveKind, errors: &Vec<String>) -> (r: ExtractStep)
    ensures
        errors@.len() < tools_for(kind).len() ==> r == ExtractStep::Run(tools_for(kind)[errors@.len() as int]),
        errors@.len() >= tools_for(kind).len() ==> (r matches ExtractStep::Fail(m) && m@
            == extraction_failure(kind, errors@)),
{
    match kind {
        ArchiveKind::Zip => {
            if errors.len() == 0 {
                ExtractStep::Run(ExtractTool::Zip)
            } else {
                ExtractStep::Fail(errors[0].clone())
            }
        },
        ArchiveKind::SevenZip => {
            if errors.len() == 0 {
                ExtractStep::Run(ExtractTool::SevenZip)
            } else if errors.len() == 1 {
                ExtractStep::Run(ExtractTool::Bsdtar)
            } else {
                let mut m = "7z 解压失败。7z: ".to_owned();
                push_str(&mut m, errors[0].as_str());
                push_str(&mut m, "; bsdtar: ");
                push_str(&mut m, errors[1].as_str());
                ExtractStep::Fail(m)
            }
        },
        ArchiveKind::Rar => {
            if errors.len() == 0 {
                ExtractStep::Run(ExtractTool::Bsdtar)
            } else if errors.len() == 1 {
                ExtractStep::Run(ExtractTool::SevenZip)
            } else {
                ExtractStep::Fail(rar_failure_message(errors[0].as_str(), errors[1].as_str()))
            }
        },
    }
}

/// Whether an entry of a mod directory survives clearing it for an install:
/// the metadata file, the media directory and the archive being installed do.
pub fn keep_in_install_target(name: &str, archive_name: Option<&str>) -> (r: bool)
    ensures
        r == (name@ == ".anime-mod.json"@ || name@ == media_dir_name() || (archive_name matches Some(
            a,
        ) && a@ == name@)),
{
    let cs = chars_of(name);
    if chars_equal(cs.as_slice(), ".anime-mod.json") || chars_equal(cs.as_slice(), ".anime-mod-media") {
        return true;
    }
    match archive_name {
        Some(a) => chars_equal(cs.as_slice(), a),
        None => false,
    }
}

// ─── Records ─────────────────────────────────────────────────

/// The file name an install goes by: the stored download's file name, else
/// the entry's current file name.
pub open spec fn current_file_name_of(existing: Option<InstalledMod>) -> Option<String> {
    match existing {
        Some(item) => match item.active_download {
            Some(d) => Some(d.file_name),
            None => item.current_file_name,
        },
        None => None,
    }
}

/// The record an install writes: the card's details over what the entry
/// kept (uuid, enabled state, cover, detail), installed now, with no active
/// download.
pub open spec fn is_install_record(
    r: InstalledMod,
    existing: Option<InstalledMod>,
    card: ModCard,
    folder_name: Seq<char>,
    now: i64,
) -> bool {
    &&& r.meta_uuid@ == (match existing {
        Some(item) => item.meta_uuid@,
        None => Seq::<char>::empty(),
    })
    &&& r.name == card.name
    &&& r.mod_id == card.id
    &&& r.installed_at == now
    &&& r.folder@ == folder_name
    &&& r.remote_date_modified == card.date_modified
    &&& r.author == card.author
    &&& r.category == card.category
    &&& r.subcategory == card.subcategory
    &&& r.is_r18 == card.is_r18
    &&& r.local_cover_path == (match existing {
        Some(item) => item.local_cover_path,
        None => None,
    })
    &&& r.thumbnail_url == card.thumbnail_url
    &&& r.cover_url == card.cover_url
    &&& r.profile_url == card.profile_url
    &&& r.enabled == (match existing {
        Some(item) => item.enabled,
        None => true,
    })
    &&& !r.update_available
    &&& r.state == ModEntryState::Installed
    &&& r.current_file_name == current_file_name_of(existing)
    &&& r.active_download is None
    &&& r.local_detail == (match existing {
        Some(item) => item.local_detail,
        None => None,
    })
}

/// Whether an entry exists and is enabled (a missing entry counts as enabled).
pub fn enabled_of(existing: &Option<InstalledMod>) -> (r: bool)
    ensures
        r == (match *existing {
            Some(item) => item.enabled,
            None => true,
        }),
{
    match existing {
        Some(item) => item.enabled,
        None => true,
    }
}

/// The name of the archive to unpack: the entry's file name, else the
/// archive's own file name, else empty.
pub fn install_archive_name(existing: &Option<InstalledMod>, archive_path: &str) -> (r: String)
    ensures
        r@ == (match current_file_name_of(*existing) {
            Some(n) => n@,
            None => match path_file_name(archive_path@) {
                Some(f) => f,
                None => Seq::empty(),
            },
        }),
{
    let current = match existing {
        Some(item) => match &item.active_download {
            Some(d) => Some(d.file_name.clone()),
            None => clone_opt_string(&item.current_file_name),
        },
        None => None,
    };
    match current {
        Some(n) => n,
        None => match file_name(archive_path) {
            Some(f) => f,
            None => String::new(),
        },
    }
}

/// The record an install writes for `folder_name` (see `install_record_spec`).
pub fn install_record(existing: Option<InstalledMod>, card: &ModCard, folder_name: &str, now: i64) -> (r:
    InstalledMod)
    ensures
        is_install_record(r, existing, *card, folder_name@, now),
{
    let ghost e = existing;
    let current_file_name = match &existing {
        Some(item) => match &item.active_download {
            Some(d) => Some(d.file_name.clone()),
            None => clone_opt_string(&item.current_file_name),
        },
        None => None,
    };
    let (meta_uuid, enabled, local_cover_path, local_detail) = match existing {
        Some(item) => (item.meta_uuid, item.enabled, item.local_cover_path, item.local_detail),
        None => (String::new(), true, None, None),
    };
    InstalledMod {
        meta_uuid,
        name: card.name.clone(),
        mod_id: card.id,
        installed_at: now,
        folder: folder_name.to_owned(),
        remote_date_modified: card.date_modified,
        author: card.author.clone(),
        category: card.category.clone(),
        subcategory: clone_opt_string(&card.subcategory),
        is_r18: card.is_r18,
        local_cover_path,
        thumbnail_url: clone_opt_string(&card.thumbnail_url),
        cover_url: clone_opt_string(&card.cover_url),
        profile_url: card.profile_url.clone(),
        enabled,
        update_available: false,
        state: ModEntryState::Installed,
        current_file_name,
        active_download: None,
        local_detail,
    }
}

/// The record a prepared download writes: the card's details and the file,
/// over what an existing entry kept (uuid, install time, cover, detail), with
/// a fresh started checkpoint; enabled and installed state come from the
/// entry (a new one is enabled and pending).
pub open spec fn is_prepared_record(
    r: InstalledMod,
    existing: Option<InstalledMod>,
    card: ModCard,
    file: ModFile,
    folder_name: Seq<char>,
    now: i64,
) -> bool {
    &&& r.meta_uuid@ == (match existing {
        Some(item) => item.meta_uuid@,
        None => Seq::<char>::empty(),
    })
    &&& r.installed_at == (match existing {
        Some(item) => item.installed_at,
        None => now,
    })
    &&& r.local_cover_path == (match existing {
        Some(item) => item.local_cover_path,
        None => None,
    })
    &&& r.local_detail == (match existing {
        Some(item) => item.local_detail,
        None => None,
    })
    &&& r.name == card.name
    &&& r.mod_id == card.id
    &&& r.folder@ == folder_name
    &&& r.remote_date_modified == card.date_modified
    &&& r.author == card.author
    &&& r.category == card.category
    &&& r.subcategory == card.subcategory
    &&& r.is_r18 == card.is_r18
    &&& r.thumbnail_url == card.thumbnail_url
    &&& r.cover_url == card.cover_url
    &&& r.profile_url == card.profile_url
    &&& r.enabled == (match existing {
        Some(item) => item.enabled,
        None => true,
    })
    &&& !r.update_available
    &&& r.state == (match existing {
        Some(item) => if item.state == ModEntryState::Installed {
            ModEntryState::Installed
        } else {
            ModEntryState::Pending
        },
        None => ModEntryState::Pending,
    })
    &&& r.current_file_name == Some(file.filename)
    &&& r.active_download == Some(
        DownloadCheckpoint {
            file_id: file.id,
            file_name: file.filename,
            temp_file_path: None,
            downloaded_bytes: 0,
            total_bytes: file.size,
            phase: DownloadCheckpointPhase::Started,
            status_code: DOWNLOAD_STATUS_STARTED,
            debug_detail: None,
            updated_at: now,
        },
    )
}

/// The record written when a download of `file` is prepared.
pub fn prepared_record(
    existing: Option<InstalledMod>,
    card: &ModCard,
    file: &ModFile,
    folder_name: &str,
    now: i64,
) -> (r: InstalledMod)
    ensures
        is_prepared_record(r, existing, *card, *file, folder_name@, now),
{
    let (meta_uuid, installed_at, local_cover_path, local_detail, enabled, installed) = match existing {
        Some(item) => {
            let installed = item.is_installed();
            (item.meta_uuid, item.installed_at, item.local_cover_path, item.local_detail, item.enabled, installed)
        },
        None => (String::new(), now, None, None, true, false),
    };
    InstalledMod {
        meta_uuid,
        name: card.name.clone(),
        mod_id: card.id,
        installed_at,
        folder: folder_name.to_owned(),
        remote_date_modified: card.date_modified,
        author: card.author.clone(),
        category: card.category.clone(),
        subcategory: clone_opt_string(&card.subcategory),
        is_r18: card.is_r18,
        local_cover_path,
        thumbnail_url: clone_opt_string(&card.thumbnail_url),
        cover_url: clone_opt_string(&card.cover_url),
        profile_url: card.profile_url.clone(),
        enabled,
        update_available: false,
        state: if installed {
            ModEntryState::Installed
        } else {
            ModEntryState::Pending
        },
        current_file_name: Some(file.filename.clone()),
        active_download: Some(
            DownloadCheckpoint {
                file_id: file.id,
                file_name: file.filename.clone(),
                temp_file_path: None,
                downloaded_bytes: 0,
                total_bytes: file.size,
                phase: DownloadCheckpointPhase::Started,
                status_code: DOWNLOAD_STATUS_STARTED,
                debug_detail: None,
                updated_at: now,
            },
        ),
        local_detail,
    }
}

/// The entry with its download checkpoint replaced by one at the given
/// progress; the file keeps the stored download's name and id (else the
/// entry's current file name and zero).
pub fn with_download_progress(
    item: InstalledMod,
    phase: DownloadCheckpointPhase,
    status_code: u16,
    downloaded_bytes: u64,
    total_bytes: u64,
    temp_file_path: Option<String>,
    debug_detail: Option<String>,
    now: i64,
) -> (r: InstalledMod)
    ensures
        r == (InstalledMod { active_download: r.active_download, ..item }),
        r.active_download matches Some(d) && d.file_id == (match item.active_download {
            Some(a) => a.file_id,
            None => 0,
        }) && d.file_name@ == (match item.active_download {
            Some(a) => a.file_name@,
            None => match item.current_file_name {
                Some(n) => n@,
                None => Seq::<char>::empty(),
            },
        }) && d.temp_file_path == temp_file_path && d.downloaded_bytes == downloaded_bytes
            && d.total_bytes == total_bytes && d.phase == phase && d.status_code == status_code
            && d.debug_detail == debug_detail && d.updated_at == now,
{
    let mut item = item;
    let (file_id, file_name) = match &item.active_download {
        Some(a) => (a.file_id, a.file_name.clone()),
        None => (
            0,
            match &item.current_file_name {
                Some(n) => n.clone(),
                None => String::new(),
            },
        ),
    };
    item.active_download = Some(
        DownloadCheckpoint {
            file_id,
            file_name,
            temp_file_path,
            downloaded_bytes,
            total_bytes,
            phase,
            status_code,
            debug_detail,
            updated_at: now,
        },
    );
    item
}

/// `c` is the checkpoint a progress report writes for `item`.
pub open spec fn progress_checkpoint(
    c: Option<DownloadCheckpoint>,
    item: InstalledMod,
    phase: DownloadCheckpointPhase,
    status_code: u16,
    downloaded_bytes: u64,
    total_bytes: u64,
    temp_file_path: Option<Seq<char>>,
    debug_detail: Option<Seq<char>>,
    now: i64,
) -> bool {
    &&& c is Some
    &&& c.unwrap().file_id == (match item.active_download {
        Some(a) => a.file_id,
        None => 0,
    })
    &&& c.unwrap().file_name@ == (match item.active_download {
        Some(a) => a.file_name@,
        None => match item.current_file_name {
            Some(n) => n@,
            None => Seq::<char>::empty(),
        },
    })
    &&& crate::paths::opt_seq(c.unwrap().temp_file_path) == temp_file_path
    &&& crate::paths::opt_seq(c.unwrap().debug_detail) == debug_detail
    &&& c.unwrap().downloaded_bytes == downloaded_bytes
    &&& c.unwrap().total_bytes == total_bytes
    &&& c.unwrap().phase == phase
    &&& c.unwrap().status_code == status_code
    &&& c.unwrap().updated_at == now
}

/// `d` is the checkpoint `a` marked failed with `status_code` and `detail`.
pub open spec fn failed_checkpoint(
    d: Option<DownloadCheckpoint>,
    a: DownloadCheckpoint,
    status_code: u16,
    detail: Seq<char>,
    now: i64,
) -> bool {
    &&& d is Some
    &&& d.unwrap() == DownloadCheckpoint {
        phase: DownloadCheckpointPhase::Failed,
        status_code,
        debug_detail: d.unwrap().debug_detail,
        updated_at: now,
        ..a
    }
    &&& d.unwrap().debug_detail is Some
    &&& d.unwrap().debug_detail.unwrap()@ == detail
}

/// The entry with its download (if any) marked failed with `status_code`
/// and `debug_detail`.
pub fn with_download_failed(item: InstalledMod, status_code: u16, debug_detail: &str, now: i64) -> (r:
    InstalledMod)
    ensures
        r == (InstalledMod { active_download: r.active_download, ..item }),
        item.active_download is None ==> r.active_download is None,
        item.active_download is Some ==> failed_checkpoint(
            r.active_download,
            item.active_download.unwrap(),
            status_code,
            debug_detail@,
            now,
        ),
{
    let mut item = item;
    match item.active_download {
        Some(mut d) => {
            d.phase = DownloadCheckpointPhase::Failed;
            d.status_code = status_code;
            d.debug_detail = Some(debug_detail.to_owned());
            d.updated_at = now;
            item.active_download = Some(d);
        },
        None => {},
    }
    item
}

/// The entry without its download, and the partial file to delete.
pub fn without_active_download(item: InstalledMod) -> (r: (InstalledMod, Option<String>))
    ensures
        r.0 == (InstalledMod { active_download: None, ..item }),
        r.1 == (match item.active_download {
            Some(d) => d.temp_file_path,
            None => None,
        }),
{
    let mut item = item;
    let temp = match item.active_download {
        Some(d) => d.temp_file_path,
        None => None,
    };
    item.active_download = None;
    (item, temp)
}

/// The entry with the detail kept on disk.
pub fn with_local_detail(item: InstalledMod, detail: LocalModDetail) -> (r: InstalledMod)
    ensures
        r == (InstalledMod { local_detail: Some(detail), ..item }),
{
    let mut item = item;
    item.local_detail = Some(detail);
    item
}

/// The entry with a stored cover at `relative_path`.
pub fn with_local_cover(item: InstalledMod, relative_path: String) -> (r: InstalledMod)
    ensures
        r == (InstalledMod { local_cover_path: Some(relative_path), ..item }),
{
    let mut item = item;
    item.local_cover_path = Some(relative_path);
    item
}

/// The entry as found in (or written to) `dir`: its folder is the
/// directory's name (kept when the directory has none).
pub fn entry_for_dir(item: InstalledMod, dir: &str) -> (r: InstalledMod)
    ensures
        r == (InstalledMod { folder: r.folder, ..item }),
        r.folder@ == (match path_file_name(dir@) {
            Some(f) => f,
            None => item.folder@,
        }),
{
    let mut item = item;
    match file_name(dir) {
        Some(f) => {
            item.folder = f;
        },
        None => {},
    }
    item
}

/// The entry as read from `dir` in the enabled or disabled root.
pub fn entry_read_at(item: InstalledMod, dir: &str, enabled: bool) -> (r: InstalledMod)
    ensures
        r == (InstalledMod { folder: r.folder, enabled, ..item }),
        r.folder@ == (match path_file_name(dir@) {
            Some(f) => f,
            None => item.folder@,
        }),
{
    let mut r = entry_for_dir(item, dir);
    r.enabled = enabled;
    r
}

/// The uuid an entry is written under: its own unless blank.
pub fn explicit_meta_uuid(meta_uuid: &str) -> (r: Option<&str>)
    ensures
        trim(meta_uuid@).len() == 0 ==> r is None,
        trim(meta_uuid@).len() > 0 ==> r == Some(meta_uuid),
{
    let t = trimmed_chars(meta_uuid);
    if t.len() == 0 {
        None
    } else {
        Some(meta_uuid)
    }
}

/// An entry of the old single-file index as it is migrated: a fresh uuid
/// will be given, it counts as installed and has no download.
pub fn legacy_migrated(item: InstalledMod) -> (r: InstalledMod)
    ensures
        r == (InstalledMod {
            meta_uuid: r.meta_uuid,
            state: ModEntryState::Installed,
            active_download: None,
            ..item
        }),
        r.meta_uuid@.len() == 0,
{
    let mut item = item;
    item.meta_uuid = String::new();
    item.state = ModEntryState::Installed;
    item.active_download = None;
    item
}

/// The entries that count as installed, in order.
fn installed_only(entries: Vec<InstalledMod>) -> (r: Vec<InstalledMod>)
    ensures
        r@ == entries@.filter(|m: InstalledMod| m.state == ModEntryState::Installed),
{
    let ghost all = entries@;
    let mut out: Vec<InstalledMod> = Vec::new();
    for m in it: entries
        invariant
            it.seq() == all,
            out@ == all.take(it.index() as int).filter(|m: InstalledMod| m.state == ModEntryState::Installed),
    {
        proof {
            assert(all.take(it.index() + 1).drop_last() =~= all.take(it.index() as int));
            reveal_with_fuel(Seq::<InstalledMod>::filter, 1);
        }
        if m.is_installed() {
            out.push(m);
        }
    }
    assert(all.take(all.len() as int) =~= all);
    out
}

/// The entries whose download is started or paused, in order.
fn active_downloads_only(entries: Vec<InstalledMod>) -> (r: Vec<InstalledMod>)
    ensures
        r@ == entries@.filter(|m: InstalledMod| crate::models::download_active(m.active_download)),
{
    let ghost all = entries@;
    let mut out: Vec<InstalledMod> = Vec::new();
    for m in it: entries
        invariant
            it.seq() == all,
            out@ == all.take(it.index() as int).filter(
                |m: InstalledMod| crate::models::download_active(m.active_download),
            ),
    {
        proof {
            assert(all.take(it.index() + 1).drop_last() =~= all.take(it.index() as int));
            reveal_with_fuel(Seq::<InstalledMod>::filter, 1);
        }
        if m.has_active_download() {
            out.push(m);
        }
    }
    assert(all.take(all.len() as int) =~= all);
    out
}

/// The first entry of the mod.
pub open spec fn first_of_mod(entries: Seq<InstalledMod>, mod_id: u64, k: int) -> bool {
    &&& 0 <= k < entries.len()
    &&& entries[k].mod_id == mod_id
    &&& forall|j: int| 0 <= j < k ==> (#[trigger] entries[j]).mod_id != mod_id
}

/// The first entry of the mod, taken out of the list.
fn find_by_mod_id(entries: Vec<InstalledMod>, mod_id: u64) -> (r: Option<InstalledMod>)
    ensures
        (exists|k: int| first_of_mod(entries@, mod_id, k)) ==> exists|k: int|
            first_of_mod(entries@, mod_id, k) && r == Some(entries@[k]),
        !(exists|k: int| first_of_mod(entries@, mod_id, k)) ==> r is None,
{
    let ghost all = entries@;
    for m in it: entries
        invariant
            it.seq() == all,
            forall|j: int| 0 <= j < it.index() ==> (#[trigger] all[j]).mod_id != mod_id,
    {
        if m.mod_id == mod_id {
            assert(first_of_mod(all, mod_id, it.index() as int));
            return Some(m);
        }
    }
    proof {
        assert forall|k: int| !first_of_mod(all, mod_id, k) by {}
    }
    None
}

/// Whether some entry is of the mod.
fn any_of_mod(entries: &Vec<InstalledMod>, mod_id: u64) -> (r: bool)
    ensures
        r == exists|k: int| 0 <= k < entries@.len() && (#[trigger] entries@[k]).mod_id == mod_id,
{
    let mut i: usize = 0;
    while i < entries.len()
        invariant
            0 <= i <= entries@.len(),
            forall|j: int| 0 <= j < i ==> (#[trigger] entries@[j]).mod_id != mod_id,
        decreases entries.len() - i,
    {
        if entries[i].mod_id == mod_id {
            assert(entries@[i as int].mod_id == mod_id);
            return true;
        }
        i += 1;
    }
    false
}

/// The status shown for an installed entry.
pub open spec fn status_of(m: InstalledMod) -> ModStatus {
    if m.update_available {
        ModStatus::UpdateAvailable { latest_date: m.remote_date_modified, installed: m }
    } else {
        ModStatus::Installed(m)
    }
}

/// The statuses of installed entries, in order.
fn statuses_of(installed: Vec<InstalledMod>) -> (r: Vec<ModStatus>)
    ensures
        r@ == installed@.map_values(|m: InstalledMod| status_of(m)),
{
    let ghost all = installed@;
    let mut out: Vec<ModStatus> = Vec::new();
    for m in it: installed
        invariant
            it.seq() == all,
            out@ == all.take(it.index() as int).map_values(|m: InstalledMod| status_of(m)),
    {
        proof {
            assert(all.take(it.index() + 1).map_values(|m: InstalledMod| status_of(m))
                =~= all.take(it.index() as int).map_values(|m: InstalledMod| status_of(m)).push(
                status_of(all[it.index() as int]),
            ));
        }
        if m.update_available {
            let d = m.remote_date_modified;
            out.push(ModStatus::UpdateAvailable { latest_date: d, installed: m });
        } else {
            out.push(ModStatus::Installed(m));
        }
    }
    assert(all.take(all.len() as int) =~= all);
    out
}

/// Whether the remote date (when it could be fetched) is newer.
pub open spec fn has_newer(m: InstalledMod, remote: Option<i64>) -> bool {
    remote matches Some(d) && d > m.remote_date_modified
}

/// The installed entries with a newer remote version, marked so; `remote`
/// holds, entry by entry, the fetched modification date (none where the
/// fetch failed).
pub open spec fn updates_spec(installed: Seq<InstalledMod>, remote: Seq<Option<i64>>) -> Seq<InstalledMod>
    decreases installed.len(),
{
    if installed.len() == 0 {
        seq![]
    } else {
        let n = (installed.len() - 1) as int;
        let rest = updates_spec(installed.drop_last(), remote);
        if has_newer(installed[n], remote[n]) {
            rest.push(InstalledMod { update_available: true, ..installed[n] })
        } else {
            rest
        }
    }
}

/// An update is reported for an installed entry exactly when the date
/// fetched for it is strictly later than the date recorded for it: every
/// reported entry is such an entry, marked as having an update, and every
/// such entry is reported. An equal or older date, or none, never is.
pub proof fn lemma_updates_need_strictly_newer_date(installed: Seq<InstalledMod>, remote: Seq<Option<i64>>)
    requires
        remote.len() == installed.len(),
    ensures
        forall|i: int|
            0 <= i < updates_spec(installed, remote).len() ==> exists|k: int|
                0 <= k < installed.len() && (#[trigger] remote[k] matches Some(d) && d
                    > installed[k].remote_date_modified) && #[trigger] updates_spec(installed, remote)[i]
                    == (InstalledMod { update_available: true, ..installed[k] }),
        forall|k: int|
            0 <= k < installed.len() && (#[trigger] remote[k] matches Some(d) && d
                > installed[k].remote_date_modified) ==> updates_spec(installed, remote).contains(
                InstalledMod { update_available: true, ..installed[k] },
            ),
        forall|k: int|
            0 <= k < installed.len() && !(#[trigger] remote[k] matches Some(d) && d
                > installed[k].remote_date_modified) && (forall|j: int|
                0 <= j < installed.len() && j != k ==> (InstalledMod { update_available: true, ..#[trigger] installed[j] })
                    != (InstalledMod { update_available: true, ..installed[k] })) ==> !updates_spec(
                installed,
                remote,
            ).contains(InstalledMod { update_available: true, ..installed[k] }),
{
    lemma_updates_from_prefix(installed, remote, installed.len() as int);
    assert(installed.take(installed.len() as int) =~= installed);
}

proof fn lemma_updates_from_prefix(installed: Seq<InstalledMod>, remote: Seq<Option<i64>>, n: int)
    requires
        remote.len() == installed.len(),
        0 <= n <= installed.len(),
    ensures
        ({
            let out = updates_spec(installed.take(n), remote);
            &&& forall|i: int|
                0 <= i < out.len() ==> exists|k: int|
                    0 <= k < n && (#[trigger] remote[k] matches Some(d) && d > installed[k].remote_date_modified)
                        && #[trigger] out[i] == (InstalledMod { update_available: true, ..installed[k] })
            &&& forall|k: int|
                0 <= k < n && (#[trigger] remote[k] matches Some(d) && d
                    > installed[k].remote_date_modified) ==> out.contains(
                    InstalledMod { update_available: true, ..installed[k] },
                )
            &&& forall|k: int|
                0 <= k < installed.len() && !(#[trigger] remote[k] matches Some(d) && d
                    > installed[k].remote_date_modified) && (forall|j: int|
                    0 <= j < installed.len() && j != k ==> (InstalledMod { update_available: true, ..#[trigger] installed[j] })
                    != (InstalledMod { update_available: true, ..installed[k] })) ==> !out.contains(
                    InstalledMod { update_available: true, ..installed[k] },
                )
        }),
    decreases n,
{
    assert(installed.take(installed.len() as int) =~= installed);
    if n > 0 {
        lemma_updates_from_prefix(installed, remote, n - 1);
        let t = installed.take(n);
        assert(t.drop_last() =~= installed.take(n - 1));
        assert(t[n - 1] == installed[n - 1]);
        let prev = updates_spec(installed.take(n - 1), remote);
        let out = updates_spec(t, remote);
        assert forall|i: int| 0 <= i < out.len() implies exists|k: int|
            0 <= k < n && (#[trigger] remote[k] matches Some(d) && d > installed[k].remote_date_modified)
                && #[trigger] out[i] == (InstalledMod { update_available: true, ..installed[k] }) by {
            if i < prev.len() {
                assert(out[i] == prev[i]);
                let k = choose|k: int|
                    0 <= k < n - 1 && (#[trigger] remote[k] matches Some(d) && d > installed[k].remote_date_modified)
                        && #[trigger] prev[i] == (InstalledMod { update_available: true, ..installed[k] });
                assert(0 <= k < n);
            } else {
                assert(out[i] == InstalledMod { update_available: true, ..installed[n - 1] });
            }
        }
        assert forall|k: int|
            0 <= k < n && (#[trigger] remote[k] matches Some(d) && d
                > installed[k].remote_date_modified) implies out.contains(
            InstalledMod { update_available: true, ..installed[k] },
        ) by {
            if k < n - 1 {
                let w = InstalledMod { update_available: true, ..installed[k] };
                assert(prev.contains(w));
                let i = choose|i: int| 0 <= i < prev.len() && prev[i] == w;
                assert(out[i] == w);
            } else {
                assert(out[out.len() - 1] == InstalledMod { update_available: true, ..installed[k] });
            }
        }
        assert forall|k: int|
            0 <= k < installed.len() && !(#[trigger] remote[k] matches Some(d) && d
                > installed[k].remote_date_modified) && (forall|j: int|
                0 <= j < installed.len() && j != k ==> (InstalledMod { update_available: true, ..#[trigger] installed[j] })
                    != (InstalledMod { update_available: true, ..installed[k] })) implies !out.contains(
            InstalledMod { update_available: true, ..installed[k] },
        ) by {
            let w = InstalledMod { update_available: true, ..installed[k] };
            assert(!prev.contains(w));
            if out.contains(w) {
                let i = choose|i: int| 0 <= i < out.len() && out[i] == w;
                if i < prev.len() {
                    assert(out[i] == prev[i]);
                } else {
                    assert(w == InstalledMod { update_available: true, ..installed[n - 1] });
                    assert(k != n - 1);
                }
            }
        }
    } else {
        assert(installed.take(0) =~= Seq::<InstalledMod>::empty());
    }
}

fn updates_from(installed: Vec<InstalledMod>, remote: &Vec<Option<i64>>) -> (r: Vec<InstalledMod>)
    requires
        remote@.len() == installed@.len(),
    ensures
        r@ == updates_spec(installed@, remote@),
{
    let ghost all = installed@;
    let mut out: Vec<InstalledMod> = Vec::new();
    let mut k: usize = 0;
    assert(all.len() == installed.len());
    for m in it: installed
        invariant
            it.seq() == all,
            k == it.index(),
            all.len() <= usize::MAX,
            remote@.len() == all.len(),
            out@ == updates_spec(all.take(it.index() as int), remote@),
    {
        let mut m = m;
        proof {
            assert(all.take(k + 1).drop_last() =~= all.take(k as int));
            assert(all.take(k + 1)[k as int] == all[k as int]);
        }
        match remote[k] {
            Some(d) => {
                if d > m.remote_date_modified {
                    m.update_available = true;
                    out.push(m);
                }
            },
            None => {},
        }
        k += 1;
    }
    assert(all.take(all.len() as int) =~= all);
    out
}

// ─── The manager's operations ────────────────────────────────

/// The entries that count as installed, in order.
pub open spec fn installed_entries(entries: Seq<InstalledMod>) -> Seq<InstalledMod> {
    entries.filter(|m: InstalledMod| m.state == ModEntryState::Installed)
}

/// Why a manager operation could not be done.
#[derive(Debug, Clone)]
pub enum ManagerError {
    /// No metadata was found for the mod folder.
    MetadataNotFound(String),
    /// The archive's format cannot be unpacked.
    UnsupportedFormat(String),
}

impl ManagerError {
    /// The text the error is shown with.
    pub fn message(&self) -> (r: String)
        ensures
            r@ == (match self {
                ManagerError::MetadataNotFound(f) => "mod metadata not found for folder "@ + f@,
                ManagerError::UnsupportedFormat(n) => "格式不支持："@ + n@,
            }),
    {
        match self {
            ManagerError::MetadataNotFound(f) => {
                let mut r = "mod metadata not found for folder ".to_owned();
                push_str(&mut r, f.as_str());
                r
            },
            ManagerError::UnsupportedFormat(n) => unsupported_format_message(n.as_str()),
        }
    }
}

/// What an install does on disk, in order: remove `other_dir` (the folder in
/// the other root), create and clear `target_dir`; then, when the archive
/// named `archive_name` has a format that can be unpacked (`kind` is `Ok`),
/// unpack it there and write `record`; otherwise fail with the error in
/// `kind`, the folders already cleared.
#[derive(Debug)]
pub struct InstallPlan {
    pub target_dir: String,
    pub other_dir: String,
    pub archive_name: String,
    pub kind: Result<ArchiveKind, ManagerError>,
    pub record: InstalledMod,
}

/// What enabling or disabling a mod does: move `source` to `destination`
/// (when they differ) and write `record` there.
#[derive(Debug)]
pub struct MovePlan {
    pub source: String,
    pub destination: String,
    pub record: InstalledMod,
}

/// An entry found for a mod folder, with the directory it was found in.
pub type FoundEntry = Option<(InstalledMod, String)>;

impl ModManager {
    /// Whether the metadata index must be filled by a scan before lookups.
    pub fn initialize_from_meta(&self) -> (r: bool)
        requires
            self.spec_meta_manager().index.wf(),
        ensures
            r == (self.spec_meta_manager().index.view().dom() =~= Set::<Seq<char>>::empty()),
    {
        self.meta_manager.needs_scan()
    }

    /// The entries that count as installed, from all entries in order.
    pub fn list_installed(&self, entries: Vec<InstalledMod>) -> (r: Vec<InstalledMod>)
        ensures
            r@ == installed_entries(entries@),
    {
        installed_only(entries)
    }

    /// The entries with a started or paused download, from all entries in order.
    pub fn list_active_downloads(&self, entries: Vec<InstalledMod>) -> (r: Vec<InstalledMod>)
        ensures
            r@ == entries@.filter(|m: InstalledMod| crate::models::download_active(m.active_download)),
    {
        active_downloads_only(entries)
    }

    /// Whether an installed entry of the mod is among `entries`.
    pub fn is_installed(&self, entries: Vec<InstalledMod>, mod_id: u64) -> (r: bool)
        ensures
            r == exists|k: int|
                0 <= k < installed_entries(entries@).len()
                    && (#[trigger] installed_entries(entries@)[k]).mod_id
                    == mod_id,
    {
        let installed = installed_only(entries);
        any_of_mod(&installed, mod_id)
    }

    /// The first installed entry of the mod.
    pub fn get_installed(&self, entries: Vec<InstalledMod>, mod_id: u64) -> (r: Option<InstalledMod>)
        ensures
            ({
                let inst = installed_entries(entries@);
                &&& (exists|k: int| first_of_mod(inst, mod_id, k)) ==> exists|k: int|
                    first_of_mod(inst, mod_id, k) && r == Some(inst[k])
                &&& !(exists|k: int| first_of_mod(inst, mod_id, k)) ==> r is None
            }),
    {
        let installed = installed_only(entries);
        assert(installed@ == installed_entries(entries@));
        find_by_mod_id(installed, mod_id)
    }

    /// The first entry of the mod, installed or not.
    pub fn get_record(&self, entries: Vec<InstalledMod>, mod_id: u64) -> (r: Option<InstalledMod>)
        ensures
            (exists|k: int| first_of_mod(entries@, mod_id, k)) ==> exists|k: int|
                first_of_mod(entries@, mod_id, k) && r == Some(entries@[k]),
            !(exists|k: int| first_of_mod(entries@, mod_id, k)) ==> r is None,
    {
        find_by_mod_id(entries, mod_id)
    }

    /// The status of every installed entry.
    pub fn status_all(&self, entries: Vec<InstalledMod>) -> (r: Vec<ModStatus>)
        ensures
            r@ == installed_entries(entries@).map_values(
                |m: InstalledMod| status_of(m),
            ),
    {
        let installed = installed_only(entries);
        statuses_of(installed)
    }

    /// The installed entries with a newer remote version, marked so;
    /// `remote_dates` holds, entry by entry, the remote modification date
    /// (none where it could not be fetched).
    pub fn check_updates(&self, installed: Vec<InstalledMod>, remote_dates: &Vec<Option<i64>>) -> (r: Vec<
        InstalledMod,
    >)
        requires
            remote_dates@.len() == installed@.len(),
        ensures
            r@ == updates_spec(installed@, remote_dates@),
    {
        updates_from(installed, remote_dates)
    }

    /// The record and directory an entry's new detail is written to.
    pub fn update_local_detail(&self, found: FoundEntry, folder_name: &str, detail: LocalModDetail) -> (r:
        Result<(InstalledMod, String), ManagerError>)
        ensures
            match found {
                None => r matches Err(ManagerError::MetadataNotFound(f)) && f@ == folder_name@,
                Some((item, dir)) => r matches Ok((rec, d)) && d == dir && rec == (InstalledMod {
                    local_detail: Some(detail),
                    ..item
                }),
            },
    {
        match found {
            None => Err(ManagerError::MetadataNotFound(folder_name.to_owned())),
            Some((item, dir)) => Ok((with_local_detail(item, detail), dir)),
        }
    }

    /// The record and directory a download's progress is written to.
    pub fn update_download_progress(
        &self,
        found: FoundEntry,
        folder_name: &str,
        phase: DownloadCheckpointPhase,
        status_code: u16,
        downloaded_bytes: u64,
        total_bytes: u64,
        temp_file_path: Option<&str>,
        debug_detail: Option<&str>,
        now: i64,
    ) -> (r: Result<(InstalledMod, String), ManagerError>)
        ensures
            match found {
                None => r matches Err(ManagerError::MetadataNotFound(f)) && f@ == folder_name@,
                Some((item, dir)) => r matches Ok((rec, d)) && d == dir && rec == (InstalledMod {
                    active_download: rec.active_download,
                    ..item
                }) && progress_checkpoint(
                    rec.active_download,
                    item,
                    phase,
                    status_code,
                    downloaded_bytes,
                    total_bytes,
                    match temp_file_path {
                        Some(p) => Some(p@),
                        None => None,
                    },
                    match debug_detail {
                        Some(t) => Some(t@),
                        None => None,
                    },
                    now,
                ),
            },
    {
        match found {
            None => Err(ManagerError::MetadataNotFound(folder_name.to_owned())),
            Some((item, dir)) => {
                let temp = match temp_file_path {
                    Some(p) => Some(p.to_owned()),
                    None => None,
                };
                let detail = match debug_detail {
                    Some(t) => Some(t.to_owned()),
                    None => None,
                };
                Ok(
                    (
                        with_download_progress(
                            item,
                            phase,
                            status_code,
                            downloaded_bytes,
                            total_bytes,
                            temp,
                            detail,
                            now,
                        ),
                        dir,
                    ),
                )
            },
        }
    }

    /// The record and directory a failed download is written to.
    pub fn mark_download_failed(
        &self,
        found: FoundEntry,
        folder_name: &str,
        status_code: u16,
        debug_detail: &str,
        now: i64,
    ) -> (r: Result<(InstalledMod, String), ManagerError>)
        ensures
            match found {
                None => r matches Err(ManagerError::MetadataNotFound(f)) && f@ == folder_name@,
                Some((item, dir)) => r matches Ok((rec, d)) && d == dir && rec == (InstalledMod {
                    active_download: rec.active_download,
                    ..item
                }) && (item.active_download is None ==> rec.active_download is None) && (
                item.active_download is Some ==> failed_checkpoint(
                    rec.active_download,
                    item.active_download.unwrap(),
                    status_code,
                    debug_detail@,
                    now,
                )),
            },
    {
        match found {
            None => Err(ManagerError::MetadataNotFound(folder_name.to_owned())),
            Some((item, dir)) => Ok((with_download_failed(item, status_code, debug_detail, now), dir)),
        }
    }

    /// What clearing a download does: the record without it, its directory,
    /// and the partial file to delete; nothing for a folder without metadata.
    pub fn clear_active_download(&self, found: FoundEntry) -> (r: Option<(InstalledMod, String, Option<String>)>)
        ensures
            match found {
                None => r is None,
                Some((item, dir)) => r matches Some((rec, d, temp)) && d == dir && rec == (InstalledMod {
                    active_download: None,
                    ..item
                }) && temp == (match item.active_download {
                    Some(c) => c.temp_file_path,
                    None => None,
                }),
            },
    {
        match found {
            None => None,
            Some((item, dir)) => {
                let (rec, temp) = without_active_download(item);
                Some((rec, dir, temp))
            },
        }
    }

    /// The record, directory and relative path a cover from `source_url` is
    /// stored under.
    pub fn store_local_cover(&self, found: FoundEntry, folder_name: &str, source_url: &str) -> (r: Result<
        (InstalledMod, String, String),
        ManagerError,
    >)
        ensures
            match found {
                None => r matches Err(ManagerError::MetadataNotFound(f)) && f@ == folder_name@,
                Some((item, dir)) => r matches Ok((rec, d, rel)) && d == dir && rel@
                    == ".anime-mod-media/cover."@ + cover_extension_spec(source_url@) && rec == (
                InstalledMod { local_cover_path: Some(rel), ..item }),
            },
    {
        match found {
            None => Err(ManagerError::MetadataNotFound(folder_name.to_owned())),
            Some((item, dir)) => {
                let rel = cover_relative_path(source_url);
                let rec = with_local_cover(item, rel.clone());
                Ok((rec, dir, rel))
            },
        }
    }

    /// What disabling a mod does (nothing for a folder without metadata).
    pub fn disable_mod(&self, found: FoundEntry, folder_name: &str) -> (r: Option<MovePlan>)
        ensures
            match found {
                None => r is None,
                Some((item, dir)) => r matches Some(p) && p.source == dir && p.destination@
                    == self.target_dir_spec(folder_name@, false) && p.record == (InstalledMod {
                    enabled: false,
                    ..item
                }),
            },
    {
        self.move_between_roots(found, folder_name, false)
    }

    /// What enabling a mod does (nothing for a folder without metadata).
    pub fn enable_mod(&self, found: FoundEntry, folder_name: &str) -> (r: Option<MovePlan>)
        ensures
            match found {
                None => r is None,
                Some((item, dir)) => r matches Some(p) && p.source == dir && p.destination@
                    == self.target_dir_spec(folder_name@, true) && p.record == (InstalledMod {
                    enabled: true,
                    ..item
                }),
            },
    {
        self.move_between_roots(found, folder_name, true)
    }

    fn move_between_roots(&self, found: FoundEntry, folder_name: &str, enabled: bool) -> (r: Option<
        MovePlan,
    >)
        ensures
            match found {
                None => r is None,
                Some((item, dir)) => r matches Some(p) && p.source == dir && p.destination@
                    == self.target_dir_spec(folder_name@, enabled) && p.record == (InstalledMod {
                    enabled,
                    ..item
                }),
            },
    {
        match found {
            None => None,
            Some((item, source)) => {
                let destination = self.target_dir_for_enabled(folder_name, enabled);
                let mut record = item;
                record.enabled = enabled;
                Some(MovePlan { source, destination, record })
            },
        }
    }

    /// The directories an uninstall removes: the folder in both roots.
    pub fn uninstall(&self, folder_name: &str) -> (r: (String, String))
        ensures
            r.0@ == self.target_dir_spec(folder_name@, true),
            r.1@ == self.target_dir_spec(folder_name@, false),
    {
        self.folder_candidates(folder_name)
    }

    /// The entry a download for a mod continues: the one found in its
    /// folder, else the mod's own entry found by its id (in the directory its
    /// folder and state give), else none.
    pub fn download_entry(&self, in_folder: FoundEntry, by_mod_id: Option<InstalledMod>) -> (r: FoundEntry)
        ensures
            in_folder is Some ==> r == in_folder,
            in_folder is None ==> match by_mod_id {
                Some(item) => r matches Some((i, dir)) && i == item && dir@ == self.target_dir_spec(
                    item.folder@,
                    item.enabled,
                ),
                None => r is None,
            },
    {
        match in_folder {
            Some(found) => Some(found),
            None => match by_mod_id {
                Some(item) => {
                    let dir = self.target_dir_for_enabled(item.folder.as_str(), item.enabled);
                    Some((item, dir))
                },
                None => None,
            },
        }
    }

    /// The record a prepared download writes, and the directory it goes to:
    /// the existing entry's, else the folder in the root its state picks.
    pub fn prepare_download(
        &self,
        existing: FoundEntry,
        card: &ModCard,
        file: &ModFile,
        folder_name: &str,
        now: i64,
    ) -> (r: (InstalledMod, String))
        ensures
            is_prepared_record(
                r.0,
                match existing {
                    Some((item, _)) => Some(item),
                    None => None,
                },
                *card,
                *file,
                folder_name@,
                now,
            ),
            match existing {
                Some((_, dir)) => r.1 == dir,
                None => r.1@ == self.target_dir_spec(folder_name@, true),
            },
    {
        match existing {
            Some((item, dir)) => (prepared_record(Some(item), card, file, folder_name, now), dir),
            None => {
                let dir = self.target_dir_for_enabled(folder_name, true);
                (prepared_record(None, card, file, folder_name, now), dir)
            },
        }
    }

    /// What installing an archive does (see `InstallPlan`): the folders are
    /// cleared first, and an archive whose format cannot be unpacked fails
    /// only after that.
    pub fn install(&self, existing: Option<InstalledMod>, archive_path: &str, card: &ModCard, folder_name: &str, now: i64) -> (r:
        InstallPlan)
        ensures
            ({
                let name = match current_file_name_of(existing) {
                    Some(n) => n@,
                    None => match path_file_name(archive_path@) {
                        Some(f) => f,
                        None => Seq::empty(),
                    },
                };
                let enabled = match existing {
                    Some(item) => item.enabled,
                    None => true,
                };
                &&& r.archive_name@ == name
                &&& r.target_dir@ == self.target_dir_spec(folder_name@, enabled)
                &&& r.other_dir@ == self.target_dir_spec(folder_name@, !enabled)
                &&& is_install_record(r.record, existing, *card, folder_name@, now)
                &&& match archive_kind_spec(name) {
                    None => r.kind matches Err(ManagerError::UnsupportedFormat(n)) && n@ == name,
                    Some(k) => r.kind == Ok::<ArchiveKind, ManagerError>(k),
                }
            }),
    {
        let enabled = enabled_of(&existing);
        let target_dir = self.target_dir_for_enabled(folder_name, enabled);
        let other_dir = self.target_dir_for_enabled(folder_name, !enabled);
        let archive_name = install_archive_name(&existing, archive_path);
        let kind = match detect_archive_kind(archive_name.as_str()) {
            None => Err(ManagerError::UnsupportedFormat(archive_name.clone())),
            Some(kind) => Ok(kind),
        };
        let record = install_record(existing, card, folder_name, now);
        InstallPlan { target_dir, other_dir, archive_name, kind, record }
    }
}

/// Progress reported on a prepared download stays bound to the file the
/// download was prepared for.
pub proof fn lemma_progress_keeps_prepared_file(
    prepared: InstalledMod,
    existing: Option<InstalledMod>,
    card: ModCard,
    file: ModFile,
    folder_name: Seq<char>,
    now: i64,
    c: Option<DownloadCheckpoint>,
    phase: DownloadCheckpointPhase,
    status_code: u16,
    downloaded_bytes: u64,
    total_bytes: u64,
    temp_file_path: Option<Seq<char>>,
    debug_detail: Option<Seq<char>>,
    later: i64,
)
    requires
        is_prepared_record(prepared, existing, card, file, folder_name, now),
        progress_checkpoint(
            c,
            prepared,
            phase,
            status_code,
            downloaded_bytes,
            total_bytes,
            temp_file_path,
            debug_detail,
            later,
        ),
    ensures
        c.unwrap().file_id == file.id,
        c.unwrap().file_name@ == file.filename@,
{
}

/// A failure marked on a download keeps what the download was (file, bytes,
/// partial file) and records only why and when it stopped.
pub proof fn lemma_failure_keeps_download(
    before: DownloadCheckpoint,
    after: Option<DownloadCheckpoint>,
    status_code: u16,
    detail: Seq<char>,
    now: i64,
)
    requires
        failed_checkpoint(after, before, status_code, detail, now),
    ensures
        after.unwrap().file_id == before.file_id,
        after.unwrap().file_name == before.file_name,
        after.unwrap().temp_file_path == before.temp_file_path,
        after.unwrap().downloaded_bytes == before.downloaded_bytes,
        after.unwrap().total_bytes == before.total_bytes,
        after.unwrap().phase == DownloadCheckpointPhase::Failed,
        after.unwrap().status_code == status_code,
{
}

} // verus!
