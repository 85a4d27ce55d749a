//! Catalog, detail and local bookkeeping records, with the conversions
//! between them.

use vstd::prelude::*;

use crate::text::{push_str, string_from_chars, trim, trimmed_chars};

verus! {

// ─── Catalog records ─────────────────────────────────────────

#[derive(Debug, Clone)]
pub struct ModListPage {
    pub metadata: PageMetadata,
    pub records: Vec<ModRecord>,
    /// The server itself returned fewer records than requested.
    pub api_exhausted: bool,
}

#[derive(Debug, Clone, Copy)]
pub struct PageMetadata {
    pub total: u64,
    pub per_page: u64,
}

#[derive(Debug, Clone)]
pub struct ModRecord {
    pub id: u64,
    pub model_name: String,
    pub name: String,
    pub profile_url: String,
    pub date_added: i64,
    pub date_modified: i64,
    pub has_files: bool,
    pub root_category: Option<CategoryInfo>,
    pub sub_category: Option<CategoryInfo>,
    pub preview_media: Option<PreviewMedia>,
    pub submitter: Option<SubmitterInfo>,
    pub like_count: u32,
    pub view_count: u32,
    pub version: String,
    pub is_obsolete: bool,
    pub has_content_ratings: bool,
}

#[derive(Debug, Clone)]
pub struct CategoryInfo {
    pub name: String,
    pub profile_url: String,
}

#[derive(Debug, Clone)]
pub struct PreviewMedia {
    pub images: Vec<PreviewImage>,
}

#[derive(Debug, Clone)]
pub struct PreviewImage {
    pub image_type: String,
    pub base_url: String,
    pub file: String,
    pub file_220: String,
    pub file_100: String,
    pub file_530: String,
    pub file_800: String,
}

#[derive(Debug, Clone)]
pub struct SubmitterInfo {
    pub id: u64,
    pub name: String,
    pub avatar_url: String,
}

#[derive(Debug, Clone)]
pub struct ModDetail {
    pub id: u64,
    pub name: String,
    pub description: String,
    pub files: Vec<ModFile>,
    pub root_category: Option<CategoryInfo>,
    pub category: Option<CategoryInfo>,
    pub preview_media: Option<PreviewMedia>,
    pub submitter: Option<SubmitterInfo>,
    pub date_modified: i64,
}

#[derive(Debug, Clone)]
pub struct ModFile {
    pub id: u64,
    pub filename: String,
    pub size: u64,
    pub date_added: i64,
    pub download_count: u32,
    pub download_url: String,
    pub md5: String,
    pub description: String,
}

#[derive(Debug, Clone)]
pub struct ModCard {
    pub id: u64,
    pub name: String,
    pub author: String,
    pub category: String,
    pub subcategory: Option<String>,
    pub likes: u32,
    pub views: u32,
    pub date_added: i64,
    pub date_modified: i64,
    pub local_cover_path: Option<String>,
    pub thumbnail_url: Option<String>,
    pub cover_url: Option<String>,
    pub is_r18: bool,
    pub has_files: bool,
    pub profile_url: String,
}

// ─── Helpers on optional text ───────────────────────────────

/// The characters of an optional string.
pub open spec fn opt_view(o: Option<String>) -> Option<Seq<char>> {
    match o {
        Some(s) => Some(s@),
        None => None,
    }
}

pub fn clone_opt_string(o: &Option<String>) -> (r: Option<String>)
    ensures
        r == *o,
{
    match o {
        Some(s) => Some(s.clone()),
        None => None,
    }
}

pub fn clone_strings(v: &Vec<String>) -> (r: Vec<String>)
    ensures
        r@ == v@,
{
    let mut r: Vec<String> = Vec::new();
    let mut i: usize = 0;
    while i < v.len()
        invariant
            0 <= i <= v.len(),
            r@ =~= v@.take(i as int),
        decreases v.len() - i,
    {
        r.push(v[i].clone());
        i += 1;
    }
    assert(v@.take(v.len() as int) =~= v@);
    r
}

/// `a + "/" + b` as text.
pub open spec fn slash_join(a: Seq<char>, b: Seq<char>) -> Seq<char> {
    a + seq!['/'] + b
}

pub fn join_with_slash(a: &str, b: &str) -> (r: String)
    ensures
        r@ == slash_join(a@, b@),
{
    let mut r = a.to_owned();
    crate::text::push_char(&mut r, '/');
    push_str(&mut r, b);
    r
}

/// The card picture of an image: the 530px rendition when there is one.
pub open spec fn thumbnail_of(img: PreviewImage) -> Seq<char> {
    if img.file_530@.len() > 0 {
        slash_join(img.base_url@, img.file_530@)
    } else {
        slash_join(img.base_url@, img.file@)
    }
}

/// The first image of optional preview media.
pub open spec fn first_image(m: Option<PreviewMedia>) -> Option<PreviewImage> {
    match m {
        Some(media) => if media.images@.len() > 0 {
            Some(media.images@[0])
        } else {
            None
        },
        None => None,
    }
}

pub open spec fn category_name(c: Option<CategoryInfo>) -> Seq<char> {
    match c {
        Some(c) => c.name@,
        None => Seq::empty(),
    }
}

pub open spec fn opt_category_name(c: Option<CategoryInfo>) -> Option<Seq<char>> {
    match c {
        Some(c) => Some(c.name@),
        None => None,
    }
}

/// The card shown for a catalog record, field by field.
pub open spec fn is_card_of(c: ModCard, r: ModRecord) -> bool {
    &&& c.id == r.id
    &&& c.name == r.name
    &&& c.author@ == (match r.submitter {
        Some(s) => s.name@,
        None => "Unknown"@,
    })
    &&& c.category@ == category_name(r.root_category)
    &&& opt_view(c.subcategory) == opt_category_name(r.sub_category)
    &&& c.likes == r.like_count
    &&& c.views == r.view_count
    &&& c.date_added == r.date_added
    &&& c.date_modified == r.date_modified
    &&& c.local_cover_path is None
    &&& opt_view(c.thumbnail_url) == (match first_image(r.preview_media) {
        Some(img) => Some(thumbnail_of(img)),
        None => None,
    })
    &&& opt_view(c.cover_url) == (match first_image(r.preview_media) {
        Some(img) => Some(slash_join(img.base_url@, img.file@)),
        None => None,
    })
    &&& c.is_r18 == r.has_content_ratings
    &&& c.has_files == r.has_files
    &&& c.profile_url == r.profile_url
}

impl ModCard {
    /// A blank card for lazily filled slots.
    pub fn placeholder() -> (r: Self)
        ensures
            r.id == 0,
            r.name@.len() == 0,
            r.author@.len() == 0,
            r.category@.len() == 0,
            r.subcategory is None,
            r.likes == 0,
            r.views == 0,
            r.date_added == 0,
            r.date_modified == 0,
            r.local_cover_path is None,
            r.thumbnail_url is None,
            r.cover_url is None,
            !r.is_r18,
            !r.has_files,
            r.profile_url@.len() == 0,
    {
        ModCard {
            id: 0,
            name: String::new(),
            author: String::new(),
            category: String::new(),
            subcategory: None,
            likes: 0,
            views: 0,
            date_added: 0,
            date_modified: 0,
            local_cover_path: None,
            thumbnail_url: None,
            cover_url: None,
            is_r18: false,
            has_files: false,
            profile_url: String::new(),
        }
    }

    /// The card shown for a catalog record.
    pub fn from_record(r: ModRecord) -> (c: Self)
        ensures
            is_card_of(c, r),
    {
        let mut thumbnail: Option<String> = None;
        let mut cover: Option<String> = None;
        if let Some(m) = &r.preview_media {
            if m.images.len() > 0 {
                let img = &m.images[0];
                if !img.file_530.as_str().is_empty() {
                    thumbnail = Some(join_with_slash(img.base_url.as_str(), img.file_530.as_str()));
                } else {
                    thumbnail = Some(join_with_slash(img.base_url.as_str(), img.file.as_str()));
                }
                cover = Some(join_with_slash(img.base_url.as_str(), img.file.as_str()));
            }
        }
        let author = match r.submitter {
            Some(s) => s.name,
            None => "Unknown".to_owned(),
        };
        let category = match r.root_category {
            Some(c) => c.name,
            None => String::new(),
        };
        let subcategory = match r.sub_category {
            Some(c) => Some(c.name),
            None => None,
        };
        ModCard {
            id: r.id,
            name: r.name,
            author,
            category,
            subcategory,
            likes: r.like_count,
            views: r.view_count,
            date_added: r.date_added,
            date_modified: r.date_modified,
            local_cover_path: None,
            thumbnail_url: thumbnail,
            cover_url: cover,
            is_r18: r.has_content_ratings,
            has_files: r.has_files,
            profile_url: r.profile_url,
        }
    }
}

// ─── Local records ───────────────────────────────────────────

#[derive(Debug, Clone)]
pub struct InstalledMod {
    pub meta_uuid: String,
    pub name: String,
    pub mod_id: u64,
    pub installed_at: i64,
    pub folder: String,
    pub remote_date_modified: i64,
    pub author: String,
    pub category: String,
    pub subcategory: Option<String>,
    pub is_r18: bool,
    pub local_cover_path: Option<String>,
    pub thumbnail_url: Option<String>,
    pub cover_url: Option<String>,
    pub profile_url: String,
    pub enabled: bool,
    pub update_available: bool,
    pub state: ModEntryState,
    pub current_file_name: Option<String>,
    pub active_download: Option<DownloadCheckpoint>,
    pub local_detail: Option<LocalModDetail>,
}

/// The two kinds of template a metadata document can hold.
#[derive(Debug, Clone, Copy, PartialEq, Eq, Hash, Structural)]
pub enum MetaTemplateKind {
    Mod,
    Download,
}

/// A record stored as one template of a metadata document.
pub trait MetaTemplate: Sized {
    fn kind() -> MetaTemplateKind;
}

#[derive(Debug, Clone)]
pub struct ModMetaTemplate {
    pub name: String,
    pub mod_id: u64,
    pub installed_at: i64,
    pub folder: String,
    pub remote_date_modified: i64,
    pub author: String,
    pub category: String,
    pub subcategory: Option<String>,
    pub is_r18: bool,
    pub local_cover_path: Option<String>,
    pub thumbnail_url: Option<String>,
    pub cover_url: Option<String>,
    pub profile_url: String,
    pub enabled: bool,
    pub update_available: bool,
    pub state: ModEntryState,
    pub current_file_name: Option<String>,
    pub local_detail: Option<LocalModDetail>,
}

impl MetaTemplate for ModMetaTemplate {
    fn kind() -> MetaTemplateKind {
        MetaTemplateKind::Mod
    }
}

#[derive(Debug, Clone, Copy, PartialEq, Eq, Structural)]
pub enum ModEntryState {
    Pending,
    Installed,
}

/// The persisted coarse phase of a download: started, paused or failed.
#[derive(Debug, Clone, Copy, PartialEq, Eq, Structural)]
pub enum DownloadCheckpointPhase {
    /// The task has started or should keep running.
    Started,
    /// The user paused the task.
    Paused,
    /// The task failed; `status_code` tells why.
    Failed,
}

/// The task exists and is started or running.
pub const DOWNLOAD_STATUS_STARTED: u16 = 200;
/// The user paused the task.
pub const DOWNLOAD_STATUS_PAUSED: u16 = 300;
/// A failure without a finer reason.
pub const DOWNLOAD_STATUS_FAILED_UNKNOWN: u16 = 400;
/// Setting up metadata or the local directory failed.
pub const DOWNLOAD_STATUS_FAILED_PREPARE: u16 = 410;
/// Fetching the remote mod detail failed.
pub const DOWNLOAD_STATUS_FAILED_REMOTE_META: u16 = 420;
/// The remote resource refused access.
pub const DOWNLOAD_STATUS_FAILED_ACCESS_DENIED: u16 = 422;
/// The transfer failed.
pub const DOWNLOAD_STATUS_FAILED_TRANSFER: u16 = 430;
/// The local target cannot be written.
pub const DOWNLOAD_STATUS_FAILED_WRITE_PERMISSION: u16 = 431;
/// The stream ended early: the file is truncated or incomplete.
pub const DOWNLOAD_STATUS_FAILED_UNEXPECTED_EOF: u16 = 432;
/// Network trouble: timeout, reset or disconnect.
pub const DOWNLOAD_STATUS_FAILED_NETWORK: u16 = 433;
/// The network kept failing after repeated retries.
pub const DOWNLOAD_STATUS_FAILED_NETWORK_ENVIRONMENT: u16 = 434;
/// A resume range request was refused, such as by a 416 answer.
pub const DOWNLOAD_STATUS_FAILED_INVALID_RANGE: u16 = 435;
/// Installing, unpacking or writing failed.
pub const DOWNLOAD_STATUS_FAILED_INSTALL: u16 = 440;
/// The target file does not exist.
pub const DOWNLOAD_STATUS_FAILED_FILE_NOT_FOUND: u16 = 441;
/// The file or archive format is not supported.
pub const DOWNLOAD_STATUS_FAILED_UNSUPPORTED_FORMAT: u16 = 442;
/// The source file or archive cannot be read.
pub const DOWNLOAD_STATUS_FAILED_READ_PERMISSION: u16 = 443;

/// The phase a status code stands for: `4xx` failed, `3xx` paused, else started.
pub open spec fn phase_of_code(code: u16) -> DownloadCheckpointPhase {
    if 400 <= code < 500 {
        DownloadCheckpointPhase::Failed
    } else if 300 <= code < 400 {
        DownloadCheckpointPhase::Paused
    } else {
        DownloadCheckpointPhase::Started
    }
}

pub open spec fn default_code_of(p: DownloadCheckpointPhase) -> u16 {
    match p {
        DownloadCheckpointPhase::Started => DOWNLOAD_STATUS_STARTED,
        DownloadCheckpointPhase::Paused => DOWNLOAD_STATUS_PAUSED,
        DownloadCheckpointPhase::Failed => DOWNLOAD_STATUS_FAILED_UNKNOWN,
    }
}

impl DownloadCheckpointPhase {
    pub fn from_status_code(status_code: u16) -> (r: Self)
        ensures
            r == phase_of_code(status_code),
    {
        if 400 <= status_code && status_code < 500 {
            DownloadCheckpointPhase::Failed
        } else if 300 <= status_code && status_code < 400 {
            DownloadCheckpointPhase::Paused
        } else {
            DownloadCheckpointPhase::Started
        }
    }

    pub fn default_status_code(self) -> (r: u16)
        ensures
            r == default_code_of(self),
    {
        match self {
            DownloadCheckpointPhase::Started => DOWNLOAD_STATUS_STARTED,
            DownloadCheckpointPhase::Paused => DOWNLOAD_STATUS_PAUSED,
            DownloadCheckpointPhase::Failed => DOWNLOAD_STATUS_FAILED_UNKNOWN,
        }
    }
}

/// Whether a status code is a failure (`4xx`).
pub fn download_status_is_failed(status_code: u16) -> (r: bool)
    ensures
        r == (400 <= status_code < 500),
{
    400 <= status_code && status_code < 500
}

/// A phase as older metadata files may spell it.
#[derive(Debug, Clone, Copy, PartialEq, Eq, Structural)]
pub enum StoredPhase {
    Started,
    Paused,
    Failed,
    Queued,
    Downloading,
    Installing,
}

pub open spec fn phase_of_stored(p: StoredPhase) -> DownloadCheckpointPhase {
    match p {
        StoredPhase::Paused => DownloadCheckpointPhase::Paused,
        StoredPhase::Failed => DownloadCheckpointPhase::Failed,
        _ => DownloadCheckpointPhase::Started,
    }
}

impl StoredPhase {
    /// The coarse phase a stored phase belongs to.
    pub fn to_phase(self) -> (r: DownloadCheckpointPhase)
        ensures
            r == phase_of_stored(self),
    {
        match self {
            StoredPhase::Started | StoredPhase::Queued | StoredPhase::Downloading
            | StoredPhase::Installing => DownloadCheckpointPhase::Started,
            StoredPhase::Paused => DownloadCheckpointPhase::Paused,
            StoredPhase::Failed => DownloadCheckpointPhase::Failed,
        }
    }
}

/// Download state as it is read from a metadata file, before normalizing.
#[derive(Debug, Clone)]
pub struct StoredDownloadState {
    pub file_id: u64,
    pub file_name: String,
    pub temp_file_path: Option<String>,
    pub downloaded_bytes: u64,
    pub total_bytes: u64,
    pub phase: Option<StoredPhase>,
    pub status_code: Option<u16>,
    pub debug_detail: Option<String>,
    pub updated_at: i64,
}

/// The status code kept for stored state: the stored code, else the phase's default.
pub open spec fn normalized_code(raw_phase: Option<StoredPhase>, raw_code: Option<u16>) -> u16 {
    match raw_code {
        Some(c) => c,
        None => match raw_phase {
            Some(p) => default_code_of(phase_of_stored(p)),
            None => DOWNLOAD_STATUS_STARTED,
        },
    }
}

/// The debug detail kept: the trimmed text, dropped when nothing is left.
pub open spec fn normalized_detail(raw: Option<String>) -> Option<Seq<char>> {
    match raw {
        Some(d) => if trim(d@).len() == 0 {
            None
        } else {
            Some(trim(d@))
        },
        None => None,
    }
}

/// Normalizes stored download state: the code decides the phase, the detail is trimmed.
pub fn normalize_download_state(
    raw_phase: Option<StoredPhase>,
    raw_status_code: Option<u16>,
    raw_debug_detail: Option<String>,
) -> (r: (DownloadCheckpointPhase, u16, Option<String>))
    ensures
        r.1 == normalized_code(raw_phase, raw_status_code),
        r.0 == phase_of_code(r.1),
        opt_view(r.2) == normalized_detail(raw_debug_detail),
{
    let status_code = match raw_status_code {
        Some(c) => c,
        None => match raw_phase {
            Some(p) => p.to_phase().default_status_code(),
            None => DownloadCheckpointPhase::Started.default_status_code(),
        },
    };
    let phase = DownloadCheckpointPhase::from_status_code(status_code);
    let debug_detail = match raw_debug_detail {
        Some(detail) => {
            let t = trimmed_chars(detail.as_str());
            if t.len() == 0 {
                None
            } else {
                Some(string_from_chars(t.as_slice()))
            }
        },
        None => None,
    };
    (phase, status_code, debug_detail)
}

#[derive(Debug, Clone)]
pub struct DownloadCheckpoint {
    pub file_id: u64,
    pub file_name: String,
    pub temp_file_path: Option<String>,
    pub downloaded_bytes: u64,
    pub total_bytes: u64,
    pub phase: DownloadCheckpointPhase,
    pub status_code: u16,
    pub debug_detail: Option<String>,
    pub updated_at: i64,
}

/// The lifecycle state of one download, stored beside the mod template under the same uuid.
#[derive(Debug, Clone)]
pub struct DownloadMetaTemplate {
    /// Which file of the mod is being downloaded.
    pub file_id: u64,
    /// The archive name as published, shown and used to recognize the format.
    pub file_name: String,
    /// Where the partial download lies, for resuming after a restart.
    pub temp_file_path: Option<String>,
    /// Bytes already written to the partial file.
    pub downloaded_bytes: u64,
    /// Total size the server reported.
    pub total_bytes: u64,
    /// Started, paused or failed.
    pub phase: DownloadCheckpointPhase,
    /// `200` running, `300` paused, `4xx` failed for a given reason.
    pub status_code: u16,
    /// Diagnostic detail for failures, not shown to users.
    pub debug_detail: Option<String>,
    /// Last update time, used to restore tasks in order.
    pub updated_at: i64,
}

impl MetaTemplate for DownloadMetaTemplate {
    fn kind() -> MetaTemplateKind {
        MetaTemplateKind::Download
    }
}

/// The checkpoint holding the same fields as a template.
pub open spec fn checkpoint_of(t: DownloadMetaTemplate) -> DownloadCheckpoint {
    DownloadCheckpoint {
        file_id: t.file_id,
        file_name: t.file_name,
        temp_file_path: t.temp_file_path,
        downloaded_bytes: t.downloaded_bytes,
        total_bytes: t.total_bytes,
        phase: t.phase,
        status_code: t.status_code,
        debug_detail: t.debug_detail,
        updated_at: t.updated_at,
    }
}

/// The template holding the same fields as a checkpoint.
pub open spec fn template_of(c: DownloadCheckpoint) -> DownloadMetaTemplate {
    DownloadMetaTemplate {
        file_id: c.file_id,
        file_name: c.file_name,
        temp_file_path: c.temp_file_path,
        downloaded_bytes: c.downloaded_bytes,
        total_bytes: c.total_bytes,
        phase: c.phase,
        status_code: c.status_code,
        debug_detail: c.debug_detail,
        updated_at: c.updated_at,
    }
}

impl DownloadCheckpoint {
    pub fn from_template(t: DownloadMetaTemplate) -> (r: Self)
        ensures
            r == checkpoint_of(t),
    {
        DownloadCheckpoint {
            file_id: t.file_id,
            file_name: t.file_name,
            temp_file_path: t.temp_file_path,
            downloaded_bytes: t.downloaded_bytes,
            total_bytes: t.total_bytes,
            phase: t.phase,
            status_code: t.status_code,
            debug_detail: t.debug_detail,
            updated_at: t.updated_at,
        }
    }

    /// A checkpoint read from stored state, normalized.
    pub fn from_stored(v: StoredDownloadState) -> (r: Self)
        ensures
            r.file_id == v.file_id,
            r.file_name == v.file_name,
            r.temp_file_path == v.temp_file_path,
            r.downloaded_bytes == v.downloaded_bytes,
            r.total_bytes == v.total_bytes,
            r.status_code == normalized_code(v.phase, v.status_code),
            r.phase == phase_of_code(r.status_code),
            opt_view(r.debug_detail) == normalized_detail(v.debug_detail),
            r.updated_at == v.updated_at,
    {
        let (phase, status_code, debug_detail) = normalize_download_state(
            v.phase,
            v.status_code,
            v.debug_detail,
        );
        DownloadCheckpoint {
            file_id: v.file_id,
            file_name: v.file_name,
            temp_file_path: v.temp_file_path,
            downloaded_bytes: v.downloaded_bytes,
            total_bytes: v.total_bytes,
            phase,
            status_code,
            debug_detail,
            updated_at: v.updated_at,
        }
    }

    pub fn duplicate(&self) -> (r: Self)
        ensures
            r == *self,
    {
        DownloadCheckpoint {
            file_id: self.file_id,
            file_name: self.file_name.clone(),
            temp_file_path: clone_opt_string(&self.temp_file_path),
            downloaded_bytes: self.downloaded_bytes,
            total_bytes: self.total_bytes,
            phase: self.phase,
            status_code: self.status_code,
            debug_detail: clone_opt_string(&self.debug_detail),
            updated_at: self.updated_at,
        }
    }
}

impl DownloadMetaTemplate {
    pub fn from_checkpoint(c: DownloadCheckpoint) -> (r: Self)
        ensures
            r == template_of(c),
    {
        DownloadMetaTemplate {
            file_id: c.file_id,
            file_name: c.file_name,
            temp_file_path: c.temp_file_path,
            downloaded_bytes: c.downloaded_bytes,
            total_bytes: c.total_bytes,
            phase: c.phase,
            status_code: c.status_code,
            debug_detail: c.debug_detail,
            updated_at: c.updated_at,
        }
    }

    /// A template read from stored state, normalized.
    pub fn from_stored(v: StoredDownloadState) -> (r: Self)
        ensures
            r.file_id == v.file_id,
            r.file_name == v.file_name,
            r.temp_file_path == v.temp_file_path,
            r.downloaded_bytes == v.downloaded_bytes,
            r.total_bytes == v.total_bytes,
            r.updated_at == v.updated_at,
            r.status_code == normalized_code(v.phase, v.status_code),
            r.phase == phase_of_code(r.status_code),
            opt_view(r.debug_detail) == normalized_detail(v.debug_detail),
    {
        let c = DownloadCheckpoint::from_stored(v);
        Self::from_checkpoint(c)
    }
}

#[derive(Debug, Clone)]
pub struct LocalModDetail {
    pub description: String,
    pub preview_urls: Vec<String>,
    pub files: Vec<LocalModFile>,
}

#[derive(Debug, Clone)]
pub struct LocalModFile {
    pub id: u64,
    pub filename: String,
    pub size: u64,
    pub date_added: i64,
    pub download_count: u32,
    pub description: String,
}

#[derive(Debug, Clone)]
pub enum ModStatus {
    NotInstalled,
    Installed(InstalledMod),
    UpdateAvailable { installed: InstalledMod, latest_date: i64 },
}

/// Entries read without an `enabled` field are enabled.
pub fn default_enabled() -> (r: bool)
    ensures
        r,
{
    true
}

/// Entries read without a `state` field are installed.
pub fn default_mod_entry_state() -> (r: ModEntryState)
    ensures
        r == ModEntryState::Installed,
{
    ModEntryState::Installed
}

/// Two optional details hold the same text and files.
pub open spec fn same_detail(a: Option<LocalModDetail>, b: Option<LocalModDetail>) -> bool {
    match (a, b) {
        (Some(x), Some(y)) => x.description == y.description && x.preview_urls@ == y.preview_urls@
            && x.files@ == y.files@,
        (None, None) => true,
        _ => false,
    }
}

impl LocalModFile {
    pub fn duplicate(&self) -> (r: Self)
        ensures
            r == *self,
    {
        LocalModFile {
            id: self.id,
            filename: self.filename.clone(),
            size: self.size,
            date_added: self.date_added,
            download_count: self.download_count,
            description: self.description.clone(),
        }
    }
}

/// The file name a preview image is shown with: the first non-empty of the
/// 530px, full-size, 220px, 100px and 800px renditions.
pub open spec fn preview_file(img: PreviewImage) -> Option<Seq<char>> {
    if img.file_530@.len() > 0 {
        Some(img.file_530@)
    } else if img.file@.len() > 0 {
        Some(img.file@)
    } else if img.file_220@.len() > 0 {
        Some(img.file_220@)
    } else if img.file_100@.len() > 0 {
        Some(img.file_100@)
    } else if img.file_800@.len() > 0 {
        Some(img.file_800@)
    } else {
        None
    }
}

/// Preview URLs of the images that have some rendition, in order.
pub open spec fn preview_urls_of(imgs: Seq<PreviewImage>) -> Seq<Seq<char>>
    decreases imgs.len(),
{
    if imgs.len() == 0 {
        seq![]
    } else {
        let rest = preview_urls_of(imgs.drop_last());
        match preview_file(imgs.last()) {
            Some(f) => rest.push(slash_join(imgs.last().base_url@, f)),
            None => rest,
        }
    }
}

pub open spec fn views(v: Seq<String>) -> Seq<Seq<char>> {
    v.map_values(|s: String| s@)
}

/// A local file entry carries the remote file's fields.
pub open spec fn local_file_of(l: LocalModFile, f: ModFile) -> bool {
    &&& l.id == f.id
    &&& l.filename == f.filename
    &&& l.size == f.size
    &&& l.date_added == f.date_added
    &&& l.download_count == f.download_count
    &&& l.description == f.description
}

fn preview_url(img: &PreviewImage) -> (r: Option<String>)
    ensures
        opt_view(r) == (match preview_file(*img) {
            Some(f) => Some(slash_join(img.base_url@, f)),
            None => None,
        }),
{
    let base = img.base_url.as_str();
    if !img.file_530.as_str().is_empty() {
        Some(join_with_slash(base, img.file_530.as_str()))
    } else if !img.file.as_str().is_empty() {
        Some(join_with_slash(base, img.file.as_str()))
    } else if !img.file_220.as_str().is_empty() {
        Some(join_with_slash(base, img.file_220.as_str()))
    } else if !img.file_100.as_str().is_empty() {
        Some(join_with_slash(base, img.file_100.as_str()))
    } else if !img.file_800.as_str().is_empty() {
        Some(join_with_slash(base, img.file_800.as_str()))
    } else {
        None
    }
}

impl LocalModDetail {
    pub fn duplicate(&self) -> (r: Self)
        ensures
            r.description == self.description,
            r.preview_urls@ == self.preview_urls@,
            r.files@ == self.files@,
    {
        let mut files: Vec<LocalModFile> = Vec::new();
        let mut i: usize = 0;
        while i < self.files.len()
            invariant
                0 <= i <= self.files.len(),
                files@ =~= self.files@.take(i as int),
            decreases self.files.len() - i,
        {
            files.push(self.files[i].duplicate());
            i += 1;
        }
        assert(self.files@.take(self.files.len() as int) =~= self.files@);
        LocalModDetail {
            description: self.description.clone(),
            preview_urls: clone_strings(&self.preview_urls),
            files,
        }
    }

    /// The part of a remote detail kept on disk.
    pub fn from_remote_detail(detail: &ModDetail) -> (r: Self)
        ensures
            r.description == detail.description,
            views(r.preview_urls@) == (match detail.preview_media {
                Some(m) => preview_urls_of(m.images@),
                None => seq![],
            }),
            r.files@.len() == detail.files@.len(),
            forall|i: int|
                0 <= i < r.files@.len() ==> local_file_of(#[trigger] r.files@[i], detail.files@[i]),
    {
        let mut preview_urls: Vec<String> = Vec::new();
        if let Some(media) = &detail.preview_media {
            let mut i: usize = 0;
            while i < media.images.len()
                invariant
                    0 <= i <= media.images.len(),
                    views(preview_urls@) =~= preview_urls_of(media.images@.take(i as int)),
                decreases media.images.len() - i,
            {
                let u = preview_url(&media.images[i]);
                proof {
                    assert(media.images@.take(i + 1).drop_last() =~= media.images@.take(i as int));
                }
                match u {
                    Some(url) => {
                        preview_urls.push(url);
                    },
                    None => {},
                }
                i += 1;
            }
            assert(media.images@.take(media.images.len() as int) =~= media.images@);
        }
        let mut files: Vec<LocalModFile> = Vec::new();
        let mut j: usize = 0;
        while j < detail.files.len()
            invariant
                0 <= j <= detail.files.len(),
                files@.len() == j,
                forall|k: int| 0 <= k < j ==> local_file_of(#[trigger] files@[k], detail.files@[k]),
            decreases detail.files.len() - j,
        {
            let f = &detail.files[j];
            files.push(
                LocalModFile {
                    id: f.id,
                    filename: f.filename.clone(),
                    size: f.size,
                    date_added: f.date_added,
                    download_count: f.download_count,
                    description: f.description.clone(),
                },
            );
            j += 1;
        }
        LocalModDetail { description: detail.description.clone(), preview_urls, files }
    }
}

pub fn clone_opt_detail(o: &Option<LocalModDetail>) -> (r: Option<LocalModDetail>)
    ensures
        same_detail(r, *o),
{
    match o {
        Some(d) => Some(d.duplicate()),
        None => None,
    }
}

pub fn clone_opt_checkpoint(o: &Option<DownloadCheckpoint>) -> (r: Option<DownloadCheckpoint>)
    ensures
        r == *o,
{
    match o {
        Some(c) => Some(c.duplicate()),
        None => None,
    }
}

/// The entry joined from a mod template and an optional download template.
pub open spec fn installed_of(
    meta_uuid: String,
    m: ModMetaTemplate,
    d: Option<DownloadMetaTemplate>,
) -> InstalledMod {
    InstalledMod {
        meta_uuid,
        name: m.name,
        mod_id: m.mod_id,
        installed_at: m.installed_at,
        folder: m.folder,
        remote_date_modified: m.remote_date_modified,
        author: m.author,
        category: m.category,
        subcategory: m.subcategory,
        is_r18: m.is_r18,
        local_cover_path: m.local_cover_path,
        thumbnail_url: m.thumbnail_url,
        cover_url: m.cover_url,
        profile_url: m.profile_url,
        enabled: m.enabled,
        update_available: m.update_available,
        state: m.state,
        current_file_name: m.current_file_name,
        active_download: match d {
            Some(t) => Some(checkpoint_of(t)),
            None => None,
        },
        local_detail: m.local_detail,
    }
}

/// The mod template part of an entry.
pub open spec fn mod_template_of(x: InstalledMod) -> ModMetaTemplate {
    ModMetaTemplate {
        name: x.name,
        mod_id: x.mod_id,
        installed_at: x.installed_at,
        folder: x.folder,
        remote_date_modified: x.remote_date_modified,
        author: x.author,
        category: x.category,
        subcategory: x.subcategory,
        is_r18: x.is_r18,
        local_cover_path: x.local_cover_path,
        thumbnail_url: x.thumbnail_url,
        cover_url: x.cover_url,
        profile_url: x.profile_url,
        enabled: x.enabled,
        update_available: x.update_available,
        state: x.state,
        current_file_name: x.current_file_name,
        local_detail: x.local_detail,
    }
}

/// The download template part of an entry.
pub open spec fn download_template_of(x: InstalledMod) -> Option<DownloadMetaTemplate> {
    match x.active_download {
        Some(c) => Some(template_of(c)),
        None => None,
    }
}

/// Two mod templates agree on every field, details compared by content.
pub open spec fn same_mod_template(a: ModMetaTemplate, b: ModMetaTemplate) -> bool {
    same_detail(a.local_detail, b.local_detail) && a == ModMetaTemplate {
        local_detail: a.local_detail,
        ..b
    }
}

/// Two entries agree on every field, details compared by content.
pub open spec fn same_installed(a: InstalledMod, b: InstalledMod) -> bool {
    same_detail(a.local_detail, b.local_detail) && a == InstalledMod {
        local_detail: a.local_detail,
        ..b
    }
}

/// A download counts as active while it is started or paused.
pub open spec fn download_active(c: Option<DownloadCheckpoint>) -> bool {
    match c {
        Some(d) => d.phase == DownloadCheckpointPhase::Started || d.phase
            == DownloadCheckpointPhase::Paused,
        None => false,
    }
}

impl InstalledMod {
    /// Joins a mod template and its download template into one entry.
    pub fn from_templates(
        meta_uuid: String,
        mod_meta: ModMetaTemplate,
        download_meta: Option<DownloadMetaTemplate>,
    ) -> (r: Self)
        ensures
            r == installed_of(meta_uuid, mod_meta, download_meta),
    {
        InstalledMod {
            meta_uuid,
            name: mod_meta.name,
            mod_id: mod_meta.mod_id,
            installed_at: mod_meta.installed_at,
            folder: mod_meta.folder,
            remote_date_modified: mod_meta.remote_date_modified,
            author: mod_meta.author,
            category: mod_meta.category,
            subcategory: mod_meta.subcategory,
            is_r18: mod_meta.is_r18,
            local_cover_path: mod_meta.local_cover_path,
            thumbnail_url: mod_meta.thumbnail_url,
            cover_url: mod_meta.cover_url,
            profile_url: mod_meta.profile_url,
            enabled: mod_meta.enabled,
            update_available: mod_meta.update_available,
            state: mod_meta.state,
            current_file_name: mod_meta.current_file_name,
            active_download: match download_meta {
                Some(t) => Some(DownloadCheckpoint::from_template(t)),
                None => None,
            },
            local_detail: mod_meta.local_detail,
        }
    }

    /// Splits an entry into its mod template and download template.
    pub fn split_templates(&self) -> (r: (ModMetaTemplate, Option<DownloadMetaTemplate>))
        ensures
            same_mod_template(r.0, mod_template_of(*self)),
            r.1 == download_template_of(*self),
    {
        let m = ModMetaTemplate {
            name: self.name.clone(),
            mod_id: self.mod_id,
            installed_at: self.installed_at,
            folder: self.folder.clone(),
            remote_date_modified: self.remote_date_modified,
            author: self.author.clone(),
            category: self.category.clone(),
            subcategory: clone_opt_string(&self.subcategory),
            is_r18: self.is_r18,
            local_cover_path: clone_opt_string(&self.local_cover_path),
            thumbnail_url: clone_opt_string(&self.thumbnail_url),
            cover_url: clone_opt_string(&self.cover_url),
            profile_url: self.profile_url.clone(),
            enabled: self.enabled,
            update_available: self.update_available,
            state: self.state,
            current_file_name: clone_opt_string(&self.current_file_name),
            local_detail: clone_opt_detail(&self.local_detail),
        };
        let d = match clone_opt_checkpoint(&self.active_download) {
            Some(c) => Some(DownloadMetaTemplate::from_checkpoint(c)),
            None => None,
        };
        (m, d)
    }

    /// The card shown for an installed entry.
    pub fn to_mod_card(&self) -> (c: ModCard)
        ensures
            c.id == self.mod_id,
            c.name == self.name,
            c.author@ == (if self.author@.len() == 0 {
                "Unknown"@
            } else {
                self.author@
            }),
            c.category == self.category,
            c.subcategory == self.subcategory,
            c.likes == 0,
            c.views == 0,
            c.date_added == self.installed_at,
            c.date_modified == self.remote_date_modified,
            c.local_cover_path == self.local_cover_path,
            c.thumbnail_url == self.thumbnail_url,
            c.cover_url == self.cover_url,
            c.is_r18 == self.is_r18,
            c.has_files,
            c.profile_url == self.profile_url,
    {
        ModCard {
            id: self.mod_id,
            name: self.name.clone(),
            author: if self.author.as_str().is_empty() {
                "Unknown".to_owned()
            } else {
                self.author.clone()
            },
            category: self.category.clone(),
            subcategory: clone_opt_string(&self.subcategory),
            likes: 0,
            views: 0,
            date_added: self.installed_at,
            date_modified: self.remote_date_modified,
            local_cover_path: clone_opt_string(&self.local_cover_path),
            thumbnail_url: clone_opt_string(&self.thumbnail_url),
            cover_url: clone_opt_string(&self.cover_url),
            is_r18: self.is_r18,
            has_files: true,
            profile_url: self.profile_url.clone(),
        }
    }

    pub fn is_installed(&self) -> (r: bool)
        ensures
            r == (self.state == ModEntryState::Installed),
    {
        self.state == ModEntryState::Installed
    }

    pub fn has_active_download(&self) -> (r: bool)
        ensures
            r == download_active(self.active_download),
    {
        match &self.active_download {
            Some(d) => d.phase == DownloadCheckpointPhase::Started || d.phase
                == DownloadCheckpointPhase::Paused,
            None => false,
        }
    }
}

/// Joining the split of an entry gives the entry back.
pub proof fn lemma_split_join_roundtrip(
    x: InstalledMod,
    m: ModMetaTemplate,
    d: Option<DownloadMetaTemplate>,
)
    requires
        same_mod_template(m, mod_template_of(x)),
        d == download_template_of(x),
    ensures
        same_installed(installed_of(x.meta_uuid, m, d), x),
{
}

/// Splitting a joined entry gives back the templates it was joined from.
pub proof fn lemma_join_split_roundtrip(
    u: String,
    m: ModMetaTemplate,
    d: Option<DownloadMetaTemplate>,
)
    ensures
        same_mod_template(mod_template_of(installed_of(u, m, d)), m),
        download_template_of(installed_of(u, m, d)) == d,
{
}

/// A default status code is read back as the phase it belongs to.
pub proof fn lemma_default_code_phase(p: DownloadCheckpointPhase)
    ensures
        phase_of_code(default_code_of(p)) == p,
{
}

} // verus!
