//! What the mod detail panel shows: its gallery, the download task it
//! follows, the task's title, how old an update is, and the description as
//! plain text.

use vstd::prelude::*;

use crate::download_queue::DownloadTask;
use crate::download_task::DownloadTaskPhase;
use crate::models::{InstalledMod, ModCard, ModDetail, PreviewImage, join_with_slash, slash_join};
use crate::text::{chars_of, decimal, push_char, push_decimal, push_str, str_eq, string_from_chars};

verus! {

/// The gallery shown before the details arrive: the card's cover, then its
/// thumbnail unless it is the same; empty URLs are skipped.
pub open spec fn initial_gallery_spec(card: ModCard) -> Seq<Seq<char>> {
    let first: Seq<Seq<char>> = match card.cover_url {
        Some(u) => if u@.len() > 0 {
            seq![u@]
        } else {
            seq![]
        },
        None => seq![],
    };
    match card.thumbnail_url {
        Some(t) => if t@.len() > 0 && !first.contains(t@) {
            first.push(t@)
        } else {
            first
        },
        None => first,
    }
}

pub open spec fn texts(v: Seq<String>) -> Seq<Seq<char>> {
    v.map_values(|s: String| s@)
}

pub fn initial_gallery_urls(card: &ModCard) -> (r: Vec<String>)
    ensures
        texts(r@) == initial_gallery_spec(*card),
{
    let mut urls: Vec<String> = Vec::new();
    match &card.cover_url {
        Some(u) => {
            if !u.as_str().is_empty() {
                urls.push(u.clone());
            }
        },
        None => {},
    }
    let ghost first = texts(urls@);
    assert(first == (match card.cover_url {
        Some(u) => if u@.len() > 0 {
            seq![u@]
        } else {
            Seq::<Seq<char>>::empty()
        },
        None => Seq::<Seq<char>>::empty(),
    }));
    assert(texts(urls@) == first);
    match &card.thumbnail_url {
        Some(t) => {
            if !t.as_str().is_empty() {
                let dup = urls.len() > 0 && str_eq(urls[0].as_str(), t.as_str());
                proof {
                    if urls@.len() > 0 {
                        assert(first =~= seq![urls@[0]@]);
                    } else {
                        assert(first =~= Seq::<Seq<char>>::empty());
                    }
                }
                if !dup {
                    proof {
                        if first.contains(t@) {
                            let j = choose|j: int| 0 <= j < first.len() && first[j] == t@;
                            assert(first[j] == urls@[0]@);
                        }
                    }
                    urls.push(t.clone());
                    assert(texts(urls@) =~= first.push(t@));
                } else {
                    assert(first[0] == t@);
                    assert(first.contains(t@));
                }
            }
        },
        None => {},
    }
    urls
}

/// The rendition a gallery shows of an image: the first non-empty of the
/// 530px, full-size, 220px and 100px files.
pub open spec fn gallery_file(img: PreviewImage) -> Option<Seq<char>> {
    if img.file_530@.len() > 0 {
        Some(img.file_530@)
    } else if img.file@.len() > 0 {
        Some(img.file@)
    } else if img.file_220@.len() > 0 {
        Some(img.file_220@)
    } else if img.file_100@.len() > 0 {
        Some(img.file_100@)
    } else {
        None
    }
}

/// The gallery URLs of preview images that have such a rendition, in order.
pub open spec fn gallery_urls_of(imgs: Seq<PreviewImage>) -> Seq<Seq<char>>
    decreases imgs.len(),
{
    if imgs.len() == 0 {
        seq![]
    } else {
        let rest = gallery_urls_of(imgs.drop_last());
        match gallery_file(imgs.last()) {
            Some(f) => rest.push(slash_join(imgs.last().base_url@, f)),
            None => rest,
        }
    }
}

/// The gallery of the details, or the initial one when they have none.
pub fn detail_gallery_urls(detail: &ModDetail, card: &ModCard) -> (r: Vec<String>)
    ensures
        texts(r@) == (match detail.preview_media {
            Some(m) => if gallery_urls_of(m.images@).len() > 0 {
                gallery_urls_of(m.images@)
            } else {
                initial_gallery_spec(*card)
            },
            None => initial_gallery_spec(*card),
        }),
{
    let mut urls: Vec<String> = Vec::new();
    match &detail.preview_media {
        Some(media) => {
            let mut i: usize = 0;
            while i < media.images.len()
                invariant
                    0 <= i <= media.images@.len(),
                    texts(urls@) =~= gallery_urls_of(media.images@.take(i as int)),
                decreases media.images.len() - i,
            {
                let image = &media.images[i];
                proof {
                    assert(media.images@.take(i + 1).drop_last() =~= media.images@.take(i as int));
                }
                let base = image.base_url.as_str();
                if !image.file_530.as_str().is_empty() {
                    urls.push(join_with_slash(base, image.file_530.as_str()));
                } else if !image.file.as_str().is_empty() {
                    urls.push(join_with_slash(base, image.file.as_str()));
                } else if !image.file_220.as_str().is_empty() {
                    urls.push(join_with_slash(base, image.file_220.as_str()));
                } else if !image.file_100.as_str().is_empty() {
                    urls.push(join_with_slash(base, image.file_100.as_str()));
                }
                i += 1;
            }
            assert(media.images@.take(media.images@.len() as int) =~= media.images@);
        },
        None => {},
    }
    if urls.len() == 0 {
        return initial_gallery_urls(card);
    }
    urls
}

/// A row is an active task of the mod: waiting, paused, downloading or
/// installing.
pub open spec fn active_for(t: DownloadTask, mod_id: u64) -> bool {
    t.mod_id == mod_id && (t.phase == DownloadTaskPhase::Paused || t.phase == DownloadTaskPhase::Queued
        || t.phase == DownloadTaskPhase::Downloading || t.phase == DownloadTaskPhase::Installing)
}

/// The first row satisfying `active_for` (and, with `file`, of that file).
pub open spec fn first_active(tasks: Seq<DownloadTask>, mod_id: u64, file: Option<u64>, k: int) -> bool {
    &&& 0 <= k < tasks.len()
    &&& active_for(tasks[k], mod_id)
    &&& (file matches Some(f) ==> tasks[k].file_id == f)
    &&& forall|j: int|
        0 <= j < k ==> !(active_for(#[trigger] tasks[j], mod_id) && (file matches Some(f) ==> tasks[j].file_id == f))
}

fn is_active_for(t: &DownloadTask, mod_id: u64) -> (r: bool)
    ensures
        r == active_for(*t, mod_id),
{
    t.mod_id == mod_id && match t.phase {
        DownloadTaskPhase::Paused | DownloadTaskPhase::Queued | DownloadTaskPhase::Downloading
        | DownloadTaskPhase::Installing => true,
        _ => false,
    }
}

fn first_active_index(tasks: &[DownloadTask], mod_id: u64, file: Option<u64>) -> (r: Option<usize>)
    ensures
        match r {
            Some(k) => first_active(tasks@, mod_id, file, k as int),
            None => forall|k: int| !first_active(tasks@, mod_id, file, k),
        },
{
    let mut k: usize = 0;
    while k < tasks.len()
        invariant
            0 <= k <= tasks@.len(),
            forall|j: int|
                0 <= j < k ==> !(active_for(#[trigger] tasks@[j], mod_id) && (file matches Some(f)
                    ==> tasks@[j].file_id == f)),
        decreases tasks.len() - k,
    {
        let fits = match file {
            Some(f) => tasks[k].file_id == f,
            None => true,
        };
        if is_active_for(&tasks[k], mod_id) && fits {
            return Some(k);
        }
        k += 1;
    }
    None
}

/// The task the detail panel follows: the first active task of the mod for
/// the preferred file, else the first active task of the mod.
pub fn find_active_download_task(tasks: &[DownloadTask], mod_id: u64, preferred_file_id: Option<u64>) -> (r:
    Option<DownloadTask>)
    ensures
        ({
            let by_file = exists|k: int| first_active(tasks@, mod_id, preferred_file_id, k);
            let any = exists|k: int| first_active(tasks@, mod_id, None, k);
            &&& preferred_file_id is Some && by_file ==> exists|k: int|
                first_active(tasks@, mod_id, preferred_file_id, k) && r == Some(tasks@[k])
            &&& !(preferred_file_id is Some && by_file) && any ==> exists|k: int|
                first_active(tasks@, mod_id, None, k) && r == Some(tasks@[k])
            &&& !(preferred_file_id is Some && by_file) && !any ==> r is None
        }),
{
    match preferred_file_id {
        Some(_) => {
            match first_active_index(tasks, mod_id, preferred_file_id) {
                Some(k) => {
                    return Some(tasks[k].duplicate());
                },
                None => {},
            }
        },
        None => {},
    }
    match first_active_index(tasks, mod_id, None) {
        Some(k) => Some(tasks[k].duplicate()),
        None => None,
    }
}

/// The title above the detail panel's progress bar.
pub fn detail_progress_title(phase: DownloadTaskPhase, status_text: &str) -> (r: &'static str)
    ensures
        r@ == (match phase {
            DownloadTaskPhase::Queued => "正在等待"@,
            DownloadTaskPhase::Paused => "已暂停"@,
            DownloadTaskPhase::Downloading => if status_text@ == "复用已下载文件"@ {
                "校验文件"@
            } else {
                "下载中"@
            },
            DownloadTaskPhase::Installing => "正在安装"@,
            DownloadTaskPhase::Completed => "已完成"@,
            DownloadTaskPhase::Failed => "下载失败"@,
        }),
{
    match phase {
        DownloadTaskPhase::Queued => "正在等待",
        DownloadTaskPhase::Paused => "已暂停",
        DownloadTaskPhase::Downloading => {
            if str_eq(status_text, "复用已下载文件") {
                "校验文件"
            } else {
                "下载中"
            }
        },
        DownloadTaskPhase::Installing => "正在安装",
        DownloadTaskPhase::Completed => "已完成",
        DownloadTaskPhase::Failed => "下载失败",
    }
}

/// Whether a stored entry counts as installed for the detail panel: it is
/// installed and no download of it is under way.
pub fn is_mod_installed(record: &Option<InstalledMod>) -> (r: bool)
    ensures
        r == (match *record {
            Some(m) => m.state == crate::models::ModEntryState::Installed
                && !crate::models::download_active(m.active_download),
            None => false,
        }),
{
    match record {
        Some(m) => m.is_installed() && !m.has_active_download(),
        None => false,
    }
}

// ─── Relative time ───────────────────────────────────────────

pub const MINUTE: i64 = 60;
pub const HOUR: i64 = 3600;
pub const DAY: i64 = 86400;
pub const MONTH: i64 = 2592000;
pub const YEAR: i64 = 31536000;

/// How long ago `timestamp` was, seen at `now` (both in seconds since the
/// epoch), in the largest whole unit.
pub open spec fn relative_time_spec(timestamp: i64, now: i64) -> Seq<char> {
    if timestamp <= 0 {
        "时间未知"@
    } else {
        let delta: int = if now - timestamp > 0 {
            now - timestamp
        } else {
            0
        };
        if delta >= YEAR as int {
            decimal((delta / (YEAR as int)) as nat) + "年前"@
        } else if delta >= MONTH as int {
            decimal((delta / (MONTH as int)) as nat) + "个月前"@
        } else if delta >= DAY as int {
            decimal((delta / (DAY as int)) as nat) + "天前"@
        } else if delta >= HOUR as int {
            decimal((delta / (HOUR as int)) as nat) + "小时前"@
        } else if delta >= MINUTE as int {
            decimal((delta / (MINUTE as int)) as nat) + "分钟前"@
        } else {
            "刚刚"@
        }
    }
}

pub fn relative_time(timestamp: i64, now: i64) -> (r: String)
    requires
        i64::MIN <= now - timestamp <= i64::MAX,
    ensures
        r@ == relative_time_spec(timestamp, now),
{
    if timestamp <= 0 {
        return "时间未知".to_owned();
    }
    let delta: i64 = if now - timestamp > 0 {
        now - timestamp
    } else {
        0
    };
    let (value, unit) = if delta >= YEAR {
        (delta / YEAR, "年前")
    } else if delta >= MONTH {
        (delta / MONTH, "个月前")
    } else if delta >= DAY {
        (delta / DAY, "天前")
    } else if delta >= HOUR {
        (delta / HOUR, "小时前")
    } else if delta >= MINUTE {
        (delta / MINUTE, "分钟前")
    } else {
        return "刚刚".to_owned();
    };
    let mut r = String::new();
    push_decimal(&mut r, value as u64);
    push_str(&mut r, unit);
    assert(r@ =~= decimal(value as nat) + unit@);
    r
}

// ─── Description text ────────────────────────────────────────

/// Every non-overlapping occurrence of `pat`, from the left, replaced by
/// `rep`, as `str::replace` does for a non-empty `pat`; an empty `pat`
/// leaves `s` as it is.
pub open spec fn replace_all(s: Seq<char>, pat: Seq<char>, rep: Seq<char>) -> Seq<char>
    decreases s.len(),
{
    if pat.len() == 0 || s.len() == 0 {
        s
    } else if s.len() >= pat.len() && s.take(pat.len() as int) == pat {
        rep + replace_all(s.skip(pat.len() as int), pat, rep)
    } else {
        seq![s[0]] + replace_all(s.drop_first(), pat, rep)
    }
}

proof fn lemma_replace_step(s: Seq<char>, pat: Seq<char>, rep: Seq<char>, i: int, done: Seq<char>)
    requires
        pat.len() > 0,
        0 <= i < s.len(),
        done + replace_all(s.skip(i), pat, rep) == replace_all(s, pat, rep),
    ensures
        s.skip(i).len() >= pat.len() && s.skip(i).take(pat.len() as int) == pat ==> (done + rep)
            + replace_all(s.skip(i + pat.len()), pat, rep) == replace_all(s, pat, rep),
        !(s.skip(i).len() >= pat.len() && s.skip(i).take(pat.len() as int) == pat) ==> done.push(
            s[i],
        ) + replace_all(s.skip(i + 1), pat, rep) == replace_all(s, pat, rep),
{
    let t = s.skip(i);
    if t.len() >= pat.len() && t.take(pat.len() as int) == pat {
        assert(t.skip(pat.len() as int) =~= s.skip(i + pat.len()));
        assert((done + rep) + replace_all(s.skip(i + pat.len()), pat, rep) =~= done + (rep
            + replace_all(t.skip(pat.len() as int), pat, rep)));
    } else {
        assert(t.drop_first() =~= s.skip(i + 1));
        assert(t[0] == s[i]);
        assert(done.push(s[i]) + replace_all(s.skip(i + 1), pat, rep) =~= done + (seq![t[0]]
            + replace_all(t.drop_first(), pat, rep)));
    }
}

/// Replaces every occurrence of `pat` in `s` by `rep` (see `replace_all`).
pub fn replace_text(s: &str, pat: &str, rep: &str) -> (r: String)
    ensures
        r@ == replace_all(s@, pat@, rep@),
{
    let cs = chars_of(s);
    let ps = chars_of(pat);
    if ps.len() == 0 {
        return s.to_owned();
    }
    let mut out = String::new();
    let mut i: usize = 0;
    assert(cs@.skip(0) =~= cs@);
    assert(out@ =~= Seq::<char>::empty());
    while i < cs.len()
        invariant
            0 <= i <= cs@.len(),
            cs@ == s@,
            ps@ == pat@,
            ps@.len() > 0,
            out@ + replace_all(cs@.skip(i as int), ps@, rep@) == replace_all(cs@, ps@, rep@),
        decreases cs.len() - i,
    {
        proof {
            lemma_replace_step(cs@, ps@, rep@, i as int, out@);
        }
        let fits = ps.len() <= cs.len() - i && crate::text::matches_at(cs.as_slice(), ps.as_slice(), i);
        proof {
            let t = cs@.skip(i as int);
            if i + ps@.len() <= cs@.len() {
                assert(t.take(ps@.len() as int) =~= cs@.subrange(i as int, i + ps@.len()));
            }
        }
        if fits {
            push_str(&mut out, rep);
            i = i + ps.len();
        } else {
            push_char(&mut out, cs[i]);
            i = i + 1;
        }
    }
    assert(cs@.skip(cs@.len() as int) =~= Seq::<char>::empty());
    out
}

/// Drops everything between `<` and `>` (the brackets too).
pub open spec fn strip_tags(s: Seq<char>, inside: bool) -> Seq<char>
    decreases s.len(),
{
    if s.len() == 0 {
        seq![]
    } else if s[0] == '<' {
        strip_tags(s.drop_first(), true)
    } else if s[0] == '>' {
        strip_tags(s.drop_first(), false)
    } else if inside {
        strip_tags(s.drop_first(), inside)
    } else {
        seq![s[0]] + strip_tags(s.drop_first(), inside)
    }
}

fn strip_tag_text(s: &str) -> (r: String)
    ensures
        r@ == strip_tags(s@, false),
{
    let cs = chars_of(s);
    let mut out = String::new();
    let mut inside = false;
    let mut i: usize = 0;
    assert(cs@.skip(0) =~= cs@);
    assert(out@ =~= Seq::<char>::empty());
    while i < cs.len()
        invariant
            0 <= i <= cs@.len(),
            cs@ == s@,
            out@ + strip_tags(cs@.skip(i as int), inside) == strip_tags(cs@, false),
        decreases cs.len() - i,
    {
        let c = cs[i];
        proof {
            let t = cs@.skip(i as int);
            assert(t[0] == c);
            assert(t.drop_first() =~= cs@.skip(i + 1));
            if c != '<' && c != '>' && !inside {
                assert(out@.push(c) + strip_tags(cs@.skip(i + 1), inside) =~= out@ + (seq![c]
                    + strip_tags(t.drop_first(), inside)));
            }
        }
        if c == '<' {
            inside = true;
        } else if c == '>' {
            inside = false;
        } else if !inside {
            push_char(&mut out, c);
        }
        i += 1;
    }
    assert(cs@.skip(cs@.len() as int) =~= Seq::<char>::empty());
    out
}

/// The description shown as plain text: line breaks and paragraphs become
/// new lines, tags are dropped, and the common entities are decoded.
pub open spec fn plain_text_spec(input: Seq<char>) -> Seq<char> {
    let a = replace_all(input, "<br>"@, "\n"@);
    let b = replace_all(a, "<br/>"@, "\n"@);
    let c = replace_all(b, "<br />"@, "\n"@);
    let d = replace_all(c, "</p>"@, "\n\n"@);
    let e = replace_all(d, "<p>"@, ""@);
    let f = strip_tags(e, false);
    let g = replace_all(f, "&nbsp;"@, " "@);
    let h = replace_all(g, "&amp;"@, "&"@);
    let i = replace_all(h, "&quot;"@, "\""@);
    let j = replace_all(i, "&#039;"@, "'"@);
    let k = replace_all(j, "&lt;"@, "<"@);
    replace_all(k, "&gt;"@, ">"@)
}

pub fn html_to_plain_text(input: &str) -> (r: String)
    ensures
        r@ == plain_text_spec(input@),
{
    let a = replace_text(input, "<br>", "\n");
    let b = replace_text(a.as_str(), "<br/>", "\n");
    let c = replace_text(b.as_str(), "<br />", "\n");
    let d = replace_text(c.as_str(), "</p>", "\n\n");
    let e = replace_text(d.as_str(), "<p>", "");
    let f = strip_tag_text(e.as_str());
    let g = replace_text(f.as_str(), "&nbsp;", " ");
    let h = replace_text(g.as_str(), "&amp;", "&");
    let i = replace_text(h.as_str(), "&quot;", "\"");
    let j = replace_text(i.as_str(), "&#039;", "'");
    let k = replace_text(j.as_str(), "&lt;", "<");
    replace_text(k.as_str(), "&gt;", ">")
}

/// `s` holds no `c`.
pub open spec fn lacks(s: Seq<char>, c: char) -> bool {
    forall|i: int| 0 <= i < s.len() ==> s[i] != c
}

/// Text with no markup: no `<`, `>` or `&`.
pub open spec fn no_markup(s: Seq<char>) -> bool {
    lacks(s, '<') && lacks(s, '>') && lacks(s, '&')
}

proof fn lemma_replace_absent(s: Seq<char>, pat: Seq<char>, rep: Seq<char>)
    requires
        pat.len() > 0,
        lacks(s, pat[0]),
    ensures
        replace_all(s, pat, rep) == s,
    decreases s.len(),
{
    if s.len() > 0 {
        if s.len() >= pat.len() {
            assert(s.take(pat.len() as int)[0] == s[0]);
        }
        lemma_replace_absent(s.drop_first(), pat, rep);
        assert(seq![s[0]] + s.drop_first() =~= s);
    }
}

proof fn lemma_replace_after_absent(a: Seq<char>, b: Seq<char>, pat: Seq<char>, rep: Seq<char>)
    requires
        pat.len() > 0,
        lacks(a, pat[0]),
    ensures
        replace_all(a + b, pat, rep) == a + replace_all(b, pat, rep),
    decreases a.len(),
{
    if a.len() == 0 {
        assert(a + b =~= b);
        assert(a + replace_all(b, pat, rep) =~= replace_all(b, pat, rep));
    } else {
        let s = a + b;
        assert(s[0] == a[0]);
        if s.len() >= pat.len() {
            assert(s.take(pat.len() as int)[0] == s[0]);
        }
        assert(s.drop_first() =~= a.drop_first() + b);
        lemma_replace_after_absent(a.drop_first(), b, pat, rep);
        assert(seq![a[0]] + (a.drop_first() + replace_all(b, pat, rep)) =~= a + replace_all(b, pat, rep));
    }
}

/// `x`, then `pat` itself, then `y`, with no `pat[0]` in `x` or `y`: the
/// one occurrence is replaced.
proof fn lemma_replace_once(x: Seq<char>, y: Seq<char>, pat: Seq<char>, rep: Seq<char>)
    requires
        pat.len() > 0,
        lacks(x, pat[0]),
        lacks(y, pat[0]),
    ensures
        replace_all(x + pat + y, pat, rep) == x + rep + y,
{
    assert(x + pat + y =~= x + (pat + y));
    lemma_replace_after_absent(x, pat + y, pat, rep);
    let t = pat + y;
    assert(t.take(pat.len() as int) =~= pat);
    assert(t.skip(pat.len() as int) =~= y);
    lemma_replace_absent(y, pat, rep);
    assert(x + (rep + y) =~= x + rep + y);
}

/// `x`, then a `mid` that starts like `pat` but differs from it at `j`, then
/// `y`, with `pat[0]` nowhere else: nothing is replaced.
proof fn lemma_replace_none(x: Seq<char>, mid: Seq<char>, y: Seq<char>, pat: Seq<char>, rep: Seq<char>, j: int)
    requires
        pat.len() > 0,
        lacks(x, pat[0]),
        lacks(y, pat[0]),
        mid.len() > 0,
        lacks(mid.drop_first(), pat[0]),
        0 < j < mid.len(),
        j < pat.len(),
        mid[j] != pat[j],
    ensures
        replace_all(x + mid + y, pat, rep) == x + mid + y,
{
    assert(x + mid + y =~= x + (mid + y));
    lemma_replace_after_absent(x, mid + y, pat, rep);
    let t = mid + y;
    if t.len() >= pat.len() {
        assert(t.take(pat.len() as int)[j] == mid[j]);
    }
    let rest = mid.drop_first() + y;
    assert(t.drop_first() =~= rest);
    assert forall|i: int| 0 <= i < rest.len() implies rest[i] != pat[0] by {
        if i < mid.drop_first().len() {
            assert(rest[i] == mid.drop_first()[i]);
        } else {
            assert(rest[i] == y[i - mid.drop_first().len()]);
        }
    }
    lemma_replace_absent(rest, pat, rep);
    assert(seq![t[0]] + rest =~= t);
}

proof fn lemma_strip_absent(s: Seq<char>)
    requires
        lacks(s, '<'),
        lacks(s, '>'),
    ensures
        strip_tags(s, false) == s,
    decreases s.len(),
{
    if s.len() > 0 {
        lemma_strip_absent(s.drop_first());
        assert(seq![s[0]] + s.drop_first() =~= s);
    }
}

/// Text without markup goes through the later steps (paragraphs, tags and
/// entities) unchanged.
proof fn lemma_plain_passes(t: Seq<char>)
    requires
        no_markup(t),
    ensures
        ({
            let d = replace_all(t, "</p>"@, "\n\n"@);
            let e = replace_all(d, "<p>"@, ""@);
            let f = strip_tags(e, false);
            let g = replace_all(f, "&nbsp;"@, " "@);
            let h = replace_all(g, "&amp;"@, "&"@);
            let i = replace_all(h, "&quot;"@, "\""@);
            let j = replace_all(i, "&#039;"@, "'"@);
            let k = replace_all(j, "&lt;"@, "<"@);
            replace_all(k, "&gt;"@, ">"@)
        }) == t,
{
    reveal_strlit("</p>");
    reveal_strlit("<p>");
    reveal_strlit("&nbsp;");
    reveal_strlit("&amp;");
    reveal_strlit("&quot;");
    reveal_strlit("&#039;");
    reveal_strlit("&lt;");
    reveal_strlit("&gt;");
    lemma_replace_absent(t, "</p>"@, "\n\n"@);
    lemma_replace_absent(t, "<p>"@, ""@);
    lemma_strip_absent(t);
    lemma_replace_absent(t, "&nbsp;"@, " "@);
    lemma_replace_absent(t, "&amp;"@, "&"@);
    lemma_replace_absent(t, "&quot;"@, "\""@);
    lemma_replace_absent(t, "&#039;"@, "'"@);
    lemma_replace_absent(t, "&lt;"@, "<"@);
    lemma_replace_absent(t, "&gt;"@, ">"@);
}

/// Each line-break tag of a description, `<br>`, `<br/>` or `<br />`,
/// becomes a new line in its plain text: between two pieces of text without
/// markup, the plain text is the first piece, a new line, and the second.
pub proof fn lemma_line_breaks_become_newlines(x: Seq<char>, y: Seq<char>)
    requires
        no_markup(x),
        no_markup(y),
    ensures
        plain_text_spec(x + "<br>"@ + y) == x + "\n"@ + y,
        plain_text_spec(x + "<br/>"@ + y) == x + "\n"@ + y,
        plain_text_spec(x + "<br />"@ + y) == x + "\n"@ + y,
{
    reveal_strlit("<br>");
    reveal_strlit("<br/>");
    reveal_strlit("<br />");
    reveal_strlit("\n");
    let nl = "\n"@;
    let out = x + nl + y;
    assert forall|i: int| 0 <= i < out.len() implies out[i] != '<' && out[i] != '>' && out[i] != '&' by {
        if i < x.len() {
            assert(out[i] == x[i]);
        } else if i == x.len() {
            assert(out[i] == '\n');
        } else {
            assert(out[i] == y[i - x.len() - 1]);
        }
    }
    lemma_plain_passes(out);
    let b1 = "<br>"@;
    let b2 = "<br/>"@;
    let b3 = "<br />"@;
    assert(lacks(b2.drop_first(), '<'));
    assert(lacks(b3.drop_first(), '<'));
    assert(b1[0] == '<' && b2[0] == '<' && b3[0] == '<');
    // `<br>`
    lemma_replace_once(x, y, b1, nl);
    lemma_replace_absent(out, b2, nl);
    lemma_replace_absent(out, b3, nl);
    // `<br/>`
    lemma_replace_none(x, b2, y, b1, nl, 3);
    lemma_replace_once(x, y, b2, nl);
    // `<br />`
    lemma_replace_none(x, b3, y, b1, nl, 3);
    lemma_replace_none(x, b3, y, b2, nl, 3);
    lemma_replace_once(x, y, b3, nl);
}

} // verus!
