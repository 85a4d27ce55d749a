//! Bringing stored downloads back into the list at start-up (in what order,
//! and what becomes of each), and naming the folder a fresh download
//! installs into.

use vstd::prelude::*;

use crate::download_task::{
    DownloadTaskPhase, DownloadTaskRequest, DownloadTaskStatusCode, DownloadTaskUpdate,
    ResumeDownloadTask,
};
use crate::models::{DownloadCheckpointPhase, InstalledMod, ModCard, clone_opt_string};
use crate::text::{chars_of, decimal, push_char, push_decimal, push_str, string_from_chars};

verus! {

// ─── Restore order ──────────────────────────────────────────

/// The phase a stored record is restored in; a record without a download
/// counts as started.
pub open spec fn restore_phase(m: InstalledMod) -> DownloadCheckpointPhase {
    match m.active_download {
        Some(d) => d.phase,
        None => DownloadCheckpointPhase::Started,
    }
}

/// The time a stored record is ordered by; zero without a download.
pub open spec fn restore_key(m: InstalledMod) -> i64 {
    match m.active_download {
        Some(d) => d.updated_at,
        None => 0,
    }
}

/// Record `a` comes before record `b`: older first, ties in stored order.
pub open spec fn restored_before(items: Seq<InstalledMod>, a: int, b: int) -> bool {
    ||| restore_key(items[a]) < restore_key(items[b])
    ||| restore_key(items[a]) == restore_key(items[b]) && a < b
}

/// `g` lists exactly the records in phase `ph`, oldest first and stably.
pub open spec fn restore_group(items: Seq<InstalledMod>, g: Seq<usize>, ph: DownloadCheckpointPhase) -> bool {
    &&& forall|k: int| 0 <= k < g.len() ==> #[trigger] g[k] < items.len() && restore_phase(items[g[k] as int]) == ph
    &&& forall|i: int| 0 <= i < items.len() && restore_phase(#[trigger] items[i]) == ph ==> g.contains(i as usize)
    &&& forall|a: int, b: int| 0 <= a < b < g.len() ==> restored_before(items, #[trigger] g[a] as int, #[trigger] g[b] as int)
}

/// The three groups a start-up restore enqueues, in this order: failed,
/// paused, then started downloads.
pub struct RestoreOrder {
    pub failed: Vec<usize>,
    pub paused: Vec<usize>,
    pub started: Vec<usize>,
}

fn phase_of(m: &InstalledMod) -> (r: (DownloadCheckpointPhase, i64))
    ensures
        r.0 == restore_phase(*m),
        r.1 == restore_key(*m),
{
    match &m.active_download {
        Some(d) => (d.phase, d.updated_at),
        None => (DownloadCheckpointPhase::Started, 0),
    }
}

/// Positions of the records in phase `ph`, ordered by their download's last
/// update, ties kept in stored order.
#[verifier::spinoff_prover]
pub fn group_for_phase(items: &Vec<InstalledMod>, ph: DownloadCheckpointPhase) -> (g: Vec<usize>)
    ensures
        restore_group(items@, g@, ph),
{
    let ghost s = items@;
    let mut g: Vec<usize> = Vec::new();
    let mut i: usize = 0;
    while i < items.len()
        invariant
            s == items@,
            i <= s.len(),
            forall|k: int| 0 <= k < g@.len() ==> #[trigger] g@[k] < i && restore_phase(s[g@[k] as int]) == ph,
            forall|j: int| 0 <= j < i && restore_phase(#[trigger] s[j]) == ph ==> g@.contains(j as usize),
            forall|a: int, b: int| 0 <= a < b < g@.len() ==> restored_before(s, #[trigger] g@[a] as int, #[trigger] g@[b] as int),
        decreases s.len() - i,
    {
        let (p, key) = phase_of(&items[i]);
        if p == ph {
            let mut pos: usize = 0;
            while pos < g.len() && phase_of(&items[g[pos]]).1 <= key
                invariant
                    s == items@,
                    i < s.len(),
                    key == restore_key(s[i as int]),
                    pos <= g@.len(),
                    forall|k: int| 0 <= k < g@.len() ==> #[trigger] g@[k] < i && restore_phase(s[g@[k] as int]) == ph,
                    forall|k: int| 0 <= k < pos ==> restore_key(s[#[trigger] g@[k] as int]) <= key,
                decreases g@.len() - pos,
            {
                pos = pos + 1;
            }
            let ghost old_g = g@;
            proof {
                if pos < old_g.len() {
                    assert forall|b: int| pos <= b < old_g.len() implies restore_key(s[#[trigger] old_g[b] as int]) > key by {
                        if b > pos {
                            assert(restored_before(s, old_g[pos as int] as int, old_g[b] as int));
                        }
                    }
                }
            }
            g.insert(pos, i);
            proof {
                assert forall|k: int| 0 <= k < g@.len() implies #[trigger] g@[k] < i + 1 && restore_phase(s[g@[k] as int]) == ph by {
                    if k < pos {
                        assert(g@[k] == old_g[k]);
                    } else if k > pos {
                        assert(g@[k] == old_g[k - 1]);
                    }
                }
                assert forall|j: int| 0 <= j < i + 1 && restore_phase(#[trigger] s[j]) == ph implies g@.contains(j as usize) by {
                    if j < i {
                        assert(old_g.contains(j as usize));
                        let k = choose|k: int| 0 <= k < old_g.len() && old_g[k] == j as usize;
                        if k < pos {
                            assert(g@[k] == old_g[k]);
                        } else {
                            assert(g@[k + 1] == old_g[k]);
                        }
                    } else {
                        assert(g@[pos as int] == i);
                    }
                }
                assert forall|a: int, b: int| 0 <= a < b < g@.len() implies restored_before(s, #[trigger] g@[a] as int, #[trigger] g@[b] as int) by {
                    if b < pos {
                        assert(g@[a] == old_g[a] && g@[b] == old_g[b]);
                    } else if b == pos {
                        assert(g@[a] == old_g[a]);
                        assert(restore_key(s[old_g[a] as int]) <= key);
                    } else if a > pos {
                        assert(g@[a] == old_g[a - 1] && g@[b] == old_g[b - 1]);
                    } else if a == pos {
                        assert(g@[b] == old_g[b - 1]);
                        assert(restore_key(s[old_g[b - 1] as int]) > key);
                    } else {
                        assert(g@[a] == old_g[a] && g@[b] == old_g[b - 1]);
                    }
                }
            }
        }
        i = i + 1;
    }
    g
}

/// The start-up restore order of the stored downloads: failed, paused and
/// started groups, each oldest first.
pub fn restore_order(items: &Vec<InstalledMod>) -> (r: RestoreOrder)
    ensures
        restore_group(items@, r.failed@, DownloadCheckpointPhase::Failed),
        restore_group(items@, r.paused@, DownloadCheckpointPhase::Paused),
        restore_group(items@, r.started@, DownloadCheckpointPhase::Started),
{
    RestoreOrder {
        failed: group_for_phase(items, DownloadCheckpointPhase::Failed),
        paused: group_for_phase(items, DownloadCheckpointPhase::Paused),
        started: group_for_phase(items, DownloadCheckpointPhase::Started),
    }
}

// ─── Stored progress ─────────────────────────────────────────

/// The percentage a stored download shows: the bytes on disk of the total,
/// rounded to the nearest whole percent (halves up) and at most 100; zero
/// when the total is unknown.
pub open spec fn stored_progress_spec(downloaded: u64, total: u64) -> int {
    if total == 0 {
        0
    } else {
        let q = (200 * downloaded + total) / (2 * total as int);
        if q < 100 {
            q
        } else {
            100
        }
    }
}

pub fn stored_progress(downloaded: u64, total: u64) -> (r: u8)
    ensures
        r == stored_progress_spec(downloaded, total),
{
    if total == 0 {
        return 0;
    }
    let num: u128 = 200 * (downloaded as u128) + (total as u128);
    let den: u128 = 2 * (total as u128);
    let q = num / den;
    if q < 100 {
        q as u8
    } else {
        100
    }
}

// ─── What becomes of each stored download ───────────────────

/// What the scheduler does with a restored download.
#[derive(Debug)]
pub enum RestoreAction {
    /// Show it as failed; it is not scheduled.
    Show,
    /// Keep its request as paused until the user starts it.
    StorePaused(DownloadTaskRequest),
    /// Queue its request to resume.
    Resume(DownloadTaskRequest),
}

/// A restored download: the report its list entry starts with, and what the
/// scheduler does with it.
#[derive(Debug)]
pub struct RestoreFate {
    pub update: DownloadTaskUpdate,
    pub action: RestoreAction,
}

/// `t` continues the download stored in `item` as task `task_id`.
pub open spec fn is_resume_of(t: ResumeDownloadTask, task_id: u64, item: InstalledMod) -> bool {
    &&& item.active_download is Some
    &&& t.task_id == task_id
    &&& t.mod_id == item.mod_id
    &&& t.file_id == item.active_download.unwrap().file_id
    &&& t.file_name == item.active_download.unwrap().file_name
    &&& t.folder_name == item.folder
    &&& t.is_r18 == item.is_r18
}

/// What becomes of the download stored in `item`, restored as task `task_id`
/// at `progress`: nothing without a stored download; a failed one is shown
/// failed with its stored detail (or a plain note) and never scheduled; a
/// paused one is shown paused and kept paused; a started one is shown
/// waiting and queued to resume.
pub fn restore_fate(item: &InstalledMod, task_id: u64, progress: u8) -> (r: Option<RestoreFate>)
    ensures
        item.active_download is None ==> r is None,
        item.active_download matches Some(d) ==> (r matches Some(f) && {
            let u = f.update;
            &&& u.progress == (if progress < 100 {
                progress
            } else {
                100
            })
            &&& u.image_path is None
            &&& d.phase == DownloadCheckpointPhase::Failed ==> {
                &&& f.action is Show
                &&& u.phase == DownloadTaskPhase::Failed
                &&& u.status_code == DownloadTaskStatusCode::Failed
                &&& u.status_text@ == (match d.debug_detail {
                    Some(t) => t@,
                    None => "下载失败"@,
                })
            }
            &&& d.phase == DownloadCheckpointPhase::Paused ==> {
                &&& f.action matches RestoreAction::StorePaused(DownloadTaskRequest::Resume(t))
                    && is_resume_of(t, task_id, *item)
                &&& u.phase == DownloadTaskPhase::Paused
                &&& u.status_code == DownloadTaskStatusCode::Paused
                &&& u.status_text@ == "已暂停"@
            }
            &&& d.phase == DownloadCheckpointPhase::Started ==> {
                &&& f.action matches RestoreAction::Resume(DownloadTaskRequest::Resume(t))
                    && is_resume_of(t, task_id, *item)
                &&& u.phase == DownloadTaskPhase::Queued
                &&& u.status_code == DownloadTaskStatusCode::Queued
                &&& u.status_text@ == "等待续传"@
            }
        }),
{
    let d = match &item.active_download {
        Some(d) => d,
        None => {
            return None;
        },
    };
    match d.phase {
        DownloadCheckpointPhase::Failed => {
            let text = match &d.debug_detail {
                Some(t) => t.clone(),
                None => "下载失败".to_owned(),
            };
            let update = DownloadTaskUpdate::new(
                DownloadTaskPhase::Failed,
                progress,
                DownloadTaskStatusCode::Failed,
                text,
            );
            Some(RestoreFate { update, action: RestoreAction::Show })
        },
        DownloadCheckpointPhase::Paused => {
            let request = DownloadTaskRequest::Resume(resume_task_of(item, d.file_id, task_id));
            let update = DownloadTaskUpdate::new(
                DownloadTaskPhase::Paused,
                progress,
                DownloadTaskStatusCode::Paused,
                "已暂停".to_owned(),
            );
            Some(RestoreFate { update, action: RestoreAction::StorePaused(request) })
        },
        DownloadCheckpointPhase::Started => {
            let request = DownloadTaskRequest::Resume(resume_task_of(item, d.file_id, task_id));
            let update = DownloadTaskUpdate::new(
                DownloadTaskPhase::Queued,
                progress,
                DownloadTaskStatusCode::Queued,
                "等待续传".to_owned(),
            );
            Some(RestoreFate { update, action: RestoreAction::Resume(request) })
        },
    }
}

fn resume_task_of(item: &InstalledMod, file_id: u64, task_id: u64) -> (t: ResumeDownloadTask)
    requires
        item.active_download matches Some(d) && d.file_id == file_id,
    ensures
        is_resume_of(t, task_id, *item),
{
    let file_name = match &item.active_download {
        Some(d) => d.file_name.clone(),
        None => String::new(),
    };
    ResumeDownloadTask {
        task_id,
        mod_id: item.mod_id,
        file_id,
        file_name,
        folder_name: item.folder.clone(),
        is_r18: item.is_r18,
    }
}

// ─── Initial picture ────────────────────────────────────────

/// The picture a new list entry starts with: the local cover when it is on
/// disk, else the remote cover, else the thumbnail.
pub fn pick_image_source(
    local_cover: Option<String>,
    cover_url: &Option<String>,
    thumbnail_url: &Option<String>,
) -> (r: Option<String>)
    ensures
        r == (if local_cover.is_some() {
            local_cover
        } else if cover_url.is_some() {
            *cover_url
        } else {
            *thumbnail_url
        }),
{
    if local_cover.is_some() {
        local_cover
    } else if cover_url.is_some() {
        clone_opt_string(cover_url)
    } else {
        clone_opt_string(thumbnail_url)
    }
}

// ─── Folder names ───────────────────────────────────────────

/// Which characters are Unicode letters or digits (`char::is_alphanumeric`,
/// which reads the Unicode tables).
pub uninterp spec fn alphanumeric(c: char) -> bool;

/// ASCII letters and digits.
pub open spec fn ascii_alnum(c: char) -> bool {
    let u = c as u32;
    (48 <= u <= 57) || (65 <= u <= 90) || (97 <= u <= 122)
}

/// `char::is_alphanumeric`: the character is alphabetic or numeric in the
/// Unicode sense. Which characters outside ASCII are is left to the name
/// `alphanumeric`; within ASCII they are the letters and digits.
#[verifier::external_body]
fn is_alphanumeric(c: char) -> (r: bool)
    ensures
        r == alphanumeric(c),
        (c as u32) < 128 ==> r == ascii_alnum(c),
{
    c.is_alphanumeric()
}

/// Characters a folder name keeps as they are.
pub open spec fn path_keep(c: char) -> bool {
    alphanumeric(c) || c == '_' || c == '-'
}

/// Each run of other characters replaced by one dash.
pub open spec fn collapsed(s: Seq<char>) -> Seq<char>
    decreases s.len(),
{
    if s.len() == 0 {
        Seq::empty()
    } else {
        let prev = collapsed(s.drop_last());
        let c = s.last();
        if path_keep(c) {
            prev.push(c)
        } else if s.len() >= 2 && !path_keep(s[s.len() - 2]) {
            prev
        } else {
            prev.push('-')
        }
    }
}

/// Leading dashes removed.
pub open spec fn strip_dashes_start(s: Seq<char>) -> Seq<char>
    decreases s.len(),
{
    if s.len() > 0 && s[0] == '-' {
        strip_dashes_start(s.drop_first())
    } else {
        s
    }
}

/// Trailing dashes removed.
pub open spec fn strip_dashes_end(s: Seq<char>) -> Seq<char>
    decreases s.len(),
{
    if s.len() > 0 && s.last() == '-' {
        strip_dashes_end(s.drop_last())
    } else {
        s
    }
}

/// A name made safe as one path component: runs of other characters become
/// one dash, dashes at either end go, and an empty result becomes `mod`.
pub open spec fn path_component(s: Seq<char>) -> Seq<char> {
    let t = strip_dashes_end(strip_dashes_start(collapsed(s)));
    if t.len() == 0 {
        "mod"@
    } else {
        t
    }
}

/// The folder a mod installs into by default: its id, a dash, and its name
/// made safe.
pub open spec fn default_folder_name(id: u64, name: Seq<char>) -> Seq<char> {
    decimal(id as nat) + seq!['-'] + path_component(name)
}

/// `input` made safe as one path component.
pub fn sanitize_path_component(input: &str) -> (r: String)
    ensures
        r@ == path_component(input@),
{
    let cs = chars_of(input);
    let mut out: Vec<char> = Vec::new();
    let mut last_was_dash = false;
    let mut i: usize = 0;
    while i < cs.len()
        invariant
            i <= cs@.len(),
            out@ == collapsed(cs@.take(i as int)),
            last_was_dash == (i > 0 && !path_keep(cs@[i - 1])),
        decreases cs@.len() - i,
    {
        let ch = cs[i];
        let keep = is_alphanumeric(ch) || ch == '_' || ch == '-';
        assert(cs@.take(i + 1).drop_last() =~= cs@.take(i as int));
        if keep {
            out.push(ch);
            last_was_dash = false;
        } else if !last_was_dash {
            out.push('-');
            last_was_dash = true;
        }
        i = i + 1;
    }
    assert(cs@.take(cs@.len() as int) =~= cs@);
    let n = out.len();
    assert(out@.subrange(0, n as int) =~= out@);
    let mut a: usize = 0;
    while a < n && out[a] == '-'
        invariant
            n == out@.len(),
            a <= n,
            strip_dashes_start(out@) == strip_dashes_start(out@.subrange(a as int, n as int)),
        decreases n - a,
    {
        assert(out@.subrange(a as int, n as int).drop_first() =~= out@.subrange(a + 1, n as int));
        a = a + 1;
    }
    let ghost mid = out@.subrange(a as int, n as int);
    assert(strip_dashes_start(out@) == mid) by {
        if a == n {
            assert(mid.len() == 0);
        }
    }
    let mut b: usize = n;
    while b > a && out[b - 1] == '-'
        invariant
            n == out@.len(),
            a <= b <= n,
            mid == out@.subrange(a as int, n as int),
            strip_dashes_end(mid) == strip_dashes_end(out@.subrange(a as int, b as int)),
        decreases b - a,
    {
        assert(out@.subrange(a as int, b as int).drop_last() =~= out@.subrange(a as int, b - 1));
        b = b - 1;
    }
    if a == b {
        assert(out@.subrange(a as int, b as int).len() == 0);
        return "mod".to_owned();
    }
    let mut kept: Vec<char> = Vec::new();
    let mut k: usize = a;
    while k < b
        invariant
            a <= k <= b <= n,
            n == out@.len(),
            kept@ == out@.subrange(a as int, k as int),
        decreases b - k,
    {
        kept.push(out[k]);
        assert(out@.subrange(a as int, k + 1) =~= out@.subrange(a as int, k as int).push(out@[k as int]));
        k = k + 1;
    }
    string_from_chars(kept.as_slice())
}

/// The default install folder of `card`: `{id}-{name made safe}`.
pub fn default_mod_folder_name(card: &ModCard) -> (r: String)
    ensures
        r@ == default_folder_name(card.id, card.name@),
{
    let mut s = String::new();
    push_decimal(&mut s, card.id);
    push_char(&mut s, '-');
    let part = sanitize_path_component(card.name.as_str());
    push_str(&mut s, part.as_str());
    assert(s@ =~= default_folder_name(card.id, card.name@));
    s
}

} // verus!
