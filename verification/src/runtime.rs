//! The managed GIMI runtime: comparing release tags, choosing the release
//! to install or update to, finding the newest tag on the releases page,
//! picking the archive's runtime files, and the progress shown meanwhile.

use vstd::prelude::*;

use crate::config::GimiRuntimeSettings;
use crate::order::{lemma_lex_asymmetric, lemma_lex_irreflexive, lemma_lex_total, lex_lt, text_less, lemma_lex_transitive};
use crate::text::{
    chars_of, digits_value, is_digit, is_ws, matches_at, occurs_at, push_str, str_eq,
    string_from_chars, trim, trimmed_chars,
};

verus! {

// ─── Release tags ────────────────────────────────────────────

/// The number a finished run of digits adds to a version: its value, when it
/// fits in a `u32` (a run that does not fit is skipped).
pub open spec fn flush_run(cur: Seq<char>) -> Seq<u32> {
    if cur.len() > 0 && digits_value(cur) <= u32::MAX {
        seq![digits_value(cur) as u32]
    } else {
        seq![]
    }
}

/// The numbers of a version text from position on, with `cur` the run of
/// digits read so far.
pub open spec fn parts_from(s: Seq<char>, cur: Seq<char>) -> Seq<u32>
    decreases s.len(),
{
    if s.len() == 0 {
        flush_run(cur)
    } else if is_digit(s[0]) {
        parts_from(s.drop_first(), cur.push(s[0]))
    } else {
        flush_run(cur) + parts_from(s.drop_first(), seq![])
    }
}

/// The numbers of a version text: each maximal run of ASCII digits, in order.
pub open spec fn version_parts_spec(s: Seq<char>) -> Seq<u32> {
    parts_from(s, seq![])
}

fn digit_of(c: char) -> (r: u32)
    requires
        is_digit(c),
    ensures
        r == crate::text::digit_value(c),
        r <= 9,
{
    (c as u32) - 48
}

proof fn lemma_digits_grow(cur: Seq<char>, c: char)
    requires
        is_digit(c),
    ensures
        digits_value(cur.push(c)) == digits_value(cur) * 10 + crate::text::digit_value(c),
        digits_value(cur.push(c)) >= digits_value(cur),
{
    assert(cur.push(c).drop_last() =~= cur);
}

/// The numbers of a version text, such as `[8, 7, 8]` for `v8.7.8`.
pub fn version_parts(version: &str) -> (r: Vec<u32>)
    ensures
        r@ == version_parts_spec(version@),
{
    let cs = chars_of(version);
    let mut parts: Vec<u32> = Vec::new();
    let mut value: Option<u32> = None;
    let mut in_run = false;
    let ghost mut cur: Seq<char> = seq![];
    let mut i: usize = 0;
    assert(cs@.skip(0) =~= cs@);
    while i < cs.len()
        invariant
            0 <= i <= cs@.len(),
            cs@ == version@,
            in_run == (cur.len() > 0),
            value == (if cur.len() > 0 && digits_value(cur) <= u32::MAX {
                Some(digits_value(cur) as u32)
            } else {
                None
            }),
            parts@ + parts_from(cs@.skip(i as int), cur) == version_parts_spec(version@),
        decreases cs.len() - i,
    {
        let c = cs[i];
        let ghost rest = cs@.skip(i as int);
        proof {
            assert(rest[0] == c);
            assert(rest.drop_first() =~= cs@.skip(i + 1));
        }
        let u = c as u32;
        if 48 <= u && u <= 57 {
            proof {
                assert(is_digit(c));
                lemma_digits_grow(cur, c);
                assert(parts_from(rest, cur) == parts_from(rest.drop_first(), cur.push(c)));
            }
            let d = digit_of(c);
            value = if in_run {
                match value {
                    Some(v) => match v.checked_mul(10) {
                        Some(m) => m.checked_add(d),
                        None => None,
                    },
                    None => None,
                }
            } else {
                Some(d)
            };
            proof {
                if !in_run {
                    assert(cur.push(c) =~= seq![c]);
                    assert(seq![c].drop_last() =~= Seq::<char>::empty());
                }
                cur = cur.push(c);
            }
            in_run = true;
        } else {
            assert(!is_digit(c));
            let ghost before = parts@;
            match value {
                Some(v) => {
                    parts.push(v);
                },
                None => {},
            }
            proof {
                assert(parts@ =~= before + flush_run(cur));
                assert(parts@ + parts_from(cs@.skip(i + 1), seq![]) =~= before + (flush_run(cur)
                    + parts_from(rest.drop_first(), seq![])));
                cur = seq![];
            }
            value = None;
            in_run = false;
        }
        i += 1;
    }
    proof {
        assert(cs@.skip(cs@.len() as int) =~= Seq::<char>::empty());
    }
    match value {
        Some(v) => {
            parts.push(v);
        },
        None => {},
    }
    parts
}

/// The number at place `i` of a version, zero past its end.
pub open spec fn part_at(p: Seq<u32>, i: int) -> u32 {
    if 0 <= i < p.len() {
        p[i]
    } else {
        0
    }
}

/// The order of two versions by their numbers from place `i` to `n`:
/// negative, zero or positive.
pub open spec fn parts_order(a: Seq<u32>, b: Seq<u32>, i: int, n: int) -> int
    decreases n - i,
{
    if i >= n {
        0
    } else if part_at(a, i) < part_at(b, i) {
        -1
    } else if part_at(a, i) > part_at(b, i) {
        1
    } else {
        parts_order(a, b, i + 1, n)
    }
}

/// The order of two release tags: by their numbers (missing ones count as
/// zero), then by the texts themselves.
pub open spec fn version_order(l: Seq<char>, r: Seq<char>) -> int {
    let a = version_parts_spec(l);
    let b = version_parts_spec(r);
    let n = if a.len() < b.len() {
        b.len() as int
    } else {
        a.len() as int
    };
    let o = parts_order(a, b, 0, n);
    if o != 0 {
        o
    } else if lex_lt(l, r) {
        -1
    } else if l == r {
        0
    } else {
        1
    }
}

/// The order of two tags as -1, 0 or 1.
fn version_sign(left: &str, right: &str) -> (r: i8)
    ensures
        r == version_order(left@, right@),
{
    let a = version_parts(left);
    let b = version_parts(right);
    let n = if a.len() < b.len() {
        b.len()
    } else {
        a.len()
    };
    let mut i: usize = 0;
    while i < n
        invariant
            0 <= i <= n,
            n == (if a@.len() < b@.len() {
                b@.len()
            } else {
                a@.len()
            }),
            parts_order(a@, b@, 0, n as int) == parts_order(a@, b@, i as int, n as int),
            a@ == version_parts_spec(left@),
            b@ == version_parts_spec(right@),
        decreases n - i,
    {
        let l: u32 = if i < a.len() {
            a[i]
        } else {
            0
        };
        let r: u32 = if i < b.len() {
            b[i]
        } else {
            0
        };
        assert(l == part_at(a@, i as int));
        assert(r == part_at(b@, i as int));
        if l < r {
            assert(parts_order(a@, b@, i as int, n as int) == -1);
            return -1;
        }
        if l > r {
            assert(parts_order(a@, b@, i as int, n as int) == 1);
            return 1;
        }
        i += 1;
    }
    if text_less(left, right) {
        -1
    } else if str_eq(left, right) {
        0
    } else {
        1
    }
}

/// Whether release tag `left` is newer than `right`.
pub fn newer_version(left: &str, right: &str) -> (r: bool)
    ensures
        r == (version_order(left@, right@) > 0),
{
    version_sign(left, right) > 0
}

/// Compares two release tags (see `version_order`).
pub fn compare_version_tags(left: &str, right: &str) -> (r: std::cmp::Ordering)
    ensures
        (r == std::cmp::Ordering::Less) == (version_order(left@, right@) < 0),
        (r == std::cmp::Ordering::Equal) == (version_order(left@, right@) == 0),
        (r == std::cmp::Ordering::Greater) == (version_order(left@, right@) > 0),
{
    let s = version_sign(left, right);
    if s < 0 {
        std::cmp::Ordering::Less
    } else if s == 0 {
        std::cmp::Ordering::Equal
    } else {
        std::cmp::Ordering::Greater
    }
}

// ─── The runtime card ────────────────────────────────────────

/// Which kind of work the runtime card shows.
#[derive(Debug, Clone, Copy, PartialEq, Eq, Structural)]
pub enum RuntimeOperationKind {
    Download,
    Update,
}

#[derive(Debug, Clone, Copy)]
pub struct RuntimeOperation {
    pub kind: RuntimeOperationKind,
    pub progress: u8,
}

/// What the settings page knows of the installed runtime.
#[derive(Debug, Clone)]
pub struct RuntimeCardState {
    pub is_installed: bool,
    pub installed_version: Option<String>,
    pub latest_checked_version: Option<String>,
    pub checking: bool,
    pub operation: Option<RuntimeOperation>,
}

/// The release to install: the newest one checked, when it is newer than the
/// managed release, else the managed release.
pub open spec fn preferred_tag_spec(managed: Seq<char>, latest: Option<String>) -> Seq<char> {
    match latest {
        Some(remote) => if version_order(remote@, managed) > 0 {
            remote@
        } else {
            managed
        },
        None => managed,
    }
}

pub fn preferred_target_tag(runtime: &GimiRuntimeSettings, card: &RuntimeCardState) -> (r: String)
    ensures
        r@ == preferred_tag_spec(runtime.managed_version@, card.latest_checked_version),
{
    match &card.latest_checked_version {
        Some(remote) => {
            if newer_version(remote.as_str(), runtime.managed_version.as_str()) {
                remote.clone()
            } else {
                runtime.managed_version.clone()
            }
        },
        None => runtime.managed_version.clone(),
    }
}

/// The release to update to, if any: none when the runtime is not
/// installed; the preferred release when the installed version is unknown
/// or older.
pub fn available_update_tag(runtime: &GimiRuntimeSettings, card: &RuntimeCardState) -> (r: Option<String>)
    ensures
        ({
            let target = preferred_tag_spec(runtime.managed_version@, card.latest_checked_version);
            &&& !card.is_installed ==> r is None
            &&& card.is_installed && card.installed_version is None ==> (r matches Some(t) && t@ == target)
            &&& card.is_installed && card.installed_version is Some ==> (if version_order(
                target,
                card.installed_version.unwrap()@,
            ) > 0 {
                r matches Some(t) && t@ == target
            } else {
                r is None
            })
        }),
{
    if !card.is_installed {
        return None;
    }
    let target = preferred_target_tag(runtime, card);
    match &card.installed_version {
        Some(current) => {
            if newer_version(target.as_str(), current.as_str()) {
                Some(target)
            } else {
                None
            }
        },
        None => Some(target),
    }
}

/// The version the card shows as installed.
pub fn installed_version_label(card: &RuntimeCardState) -> (r: &str)
    ensures
        r@ == (if !card.is_installed {
            "未安装"@
        } else {
            match card.installed_version {
                Some(v) => v@,
                None => "未知版本"@,
            }
        }),
{
    if !card.is_installed {
        return "未安装";
    }
    match &card.installed_version {
        Some(v) => v.as_str(),
        None => "未知版本",
    }
}

/// The installed release recorded in the version marker's text: trimmed,
/// none when blank.
pub fn installed_version_from_marker(text: &str) -> (r: Option<String>)
    ensures
        trim(text@).len() == 0 ==> r is None,
        trim(text@).len() > 0 ==> (r matches Some(v) && v@ == trim(text@)),
{
    let t = trimmed_chars(text);
    if t.len() == 0 {
        None
    } else {
        Some(string_from_chars(t.as_slice()))
    }
}

// ─── The releases page ───────────────────────────────────────

/// The first place `needle` occurs in `hay`.
pub open spec fn first_occurrence(hay: Seq<char>, needle: Seq<char>, k: int) -> bool {
    &&& occurs_at(hay, needle, k)
    &&& forall|j: int| 0 <= j < k ==> !occurs_at(hay, needle, j)
}

fn find_first(hay: &[char], needle: &[char], from: usize) -> (r: Option<usize>)
    requires
        from <= hay@.len(),
    ensures
        match r {
            Some(k) => from <= k && occurs_at(hay@, needle@, k as int) && forall|j: int|
                from <= j < k ==> !occurs_at(hay@, needle@, j),
            None => forall|j: int| from <= j ==> !occurs_at(hay@, needle@, j),
        },
{
    let mut k = from;
    while k < hay.len()
        invariant
            from <= k <= hay@.len(),
            forall|j: int| from <= j < k ==> !occurs_at(hay@, needle@, j),
        decreases hay.len() - k,
    {
        if needle.len() <= hay.len() - k && matches_at(hay, needle, k) {
            return Some(k);
        }
        k += 1;
    }
    if needle.len() == 0 {
        assert(hay@.subrange(k as int, k as int) =~= needle@);
        return Some(k);
    }
    None
}

/// The first place `c` is in `s`.
pub open spec fn first_char_at(s: Seq<char>, c: char, k: int) -> bool {
    0 <= k < s.len() && s[k] == c && forall|j: int| 0 <= j < k ==> s[j] != c
}

fn find_char(s: &[char], c: char, from: usize) -> (r: Option<usize>)
    requires
        from <= s@.len(),
    ensures
        match r {
            Some(k) => from <= k < s@.len() && s@[k as int] == c && forall|j: int|
                from <= j < k ==> s@[j] != c,
            None => forall|j: int| from <= j < s@.len() ==> s@[j] != c,
        },
{
    let mut k = from;
    while k < s.len()
        invariant
            from <= k <= s@.len(),
            forall|j: int| from <= j < k ==> s@[j] != c,
        decreases s.len() - k,
    {
        if s[k] == c {
            return Some(k);
        }
        k += 1;
    }
    None
}

/// The path that precedes a release's tag in links of the releases page.
pub open spec fn tag_link_prefix(owner: Seq<char>, repo: Seq<char>) -> Seq<char> {
    "/"@ + owner + "/"@ + repo + "/releases/tag/"@
}

/// What the releases page says of the newest tag: the text after the first
/// tag link, up to the first `"` after it (else the first `?`), trimmed.
pub open spec fn release_tag_spec(body: Seq<char>, owner: Seq<char>, repo: Seq<char>) -> Result<
    Seq<char>,
    Seq<char>,
> {
    let needle = tag_link_prefix(owner, repo);
    if !(exists|k: int| first_occurrence(body, needle, k)) {
        Err("未能在 GitHub release 页面中定位 tag"@)
    } else {
        let k = choose|k: int| first_occurrence(body, needle, k);
        let rest = body.skip(k + needle.len());
        let end = if exists|e: int| first_char_at(rest, '"', e) {
            Some(choose|e: int| first_char_at(rest, '"', e))
        } else if exists|e: int| first_char_at(rest, '?', e) {
            Some(choose|e: int| first_char_at(rest, '?', e))
        } else {
            None
        };
        match end {
            None => Err("GitHub release 页面中的 tag 结构异常"@),
            Some(e) => if trim(rest.take(e)).len() == 0 {
                Err("GitHub release 页面返回了空 tag"@)
            } else {
                Ok(trim(rest.take(e)))
            },
        }
    }
}

proof fn lemma_first_occurrence_unique(hay: Seq<char>, needle: Seq<char>, a: int, b: int)
    requires
        first_occurrence(hay, needle, a),
        first_occurrence(hay, needle, b),
    ensures
        a == b,
{
    if a < b {
        assert(!occurs_at(hay, needle, a));
    } else if b < a {
        assert(!occurs_at(hay, needle, b));
    }
}

proof fn lemma_first_char_unique(s: Seq<char>, c: char, a: int, b: int)
    requires
        first_char_at(s, c, a),
        first_char_at(s, c, b),
    ensures
        a == b,
{
    if a < b {
        assert(s[a] == c);
    } else if b < a {
        assert(s[b] == c);
    }
}

/// Finds the newest release tag on the releases page's text.
pub fn release_tag_from_page(body: &str, owner: &str, repo: &str) -> (r: Result<String, String>)
    ensures
        match r {
            Ok(t) => release_tag_spec(body@, owner@, repo@) == Ok::<Seq<char>, Seq<char>>(t@),
            Err(m) => release_tag_spec(body@, owner@, repo@) == Err::<Seq<char>, Seq<char>>(m@),
        },
{
    let mut needle_text = "/".to_owned();
    push_str(&mut needle_text, owner);
    push_str(&mut needle_text, "/");
    push_str(&mut needle_text, repo);
    push_str(&mut needle_text, "/releases/tag/");
    let needle = chars_of(needle_text.as_str());
    let cs = chars_of(body);
    let ghost nd = tag_link_prefix(owner@, repo@);
    assert(needle@ == nd);
    let start = match find_first(cs.as_slice(), needle.as_slice(), 0) {
        Some(k) => k,
        None => {
            assert forall|k: int| !first_occurrence(body@, nd, k) by {}
            return Err("未能在 GitHub release 页面中定位 tag".to_owned());
        },
    };
    proof {
        assert(first_occurrence(body@, nd, start as int));
        let k = choose|k: int| first_occurrence(body@, nd, k);
        lemma_first_occurrence_unique(body@, nd, k, start as int);
    }
    assert(start + needle@.len() <= cs@.len());
    assert(cs@.len() == cs.len());
    let from = start + needle.len();
    let ghost rest = body@.skip(from as int);
    let end = match find_char(cs.as_slice(), '"', from) {
        Some(e) => {
            proof {
                assert(first_char_at(rest, '"', e - from));
                let x = choose|x: int| first_char_at(rest, '"', x);
                lemma_first_char_unique(rest, '"', x, e - from);
            }
            e
        },
        None => {
            proof {
                assert forall|x: int| !first_char_at(rest, '"', x) by {
                    if 0 <= x < rest.len() {
                        assert(rest[x] == cs@[from + x]);
                    }
                }
            }
            match find_char(cs.as_slice(), '?', from) {
                Some(e) => {
                    proof {
                        assert(first_char_at(rest, '?', e - from));
                        let x = choose|x: int| first_char_at(rest, '?', x);
                        lemma_first_char_unique(rest, '?', x, e - from);
                    }
                    e
                },
                None => {
                    proof {
                        assert forall|x: int| !first_char_at(rest, '?', x) by {
                            if 0 <= x < rest.len() {
                                assert(rest[x] == cs@[from + x]);
                            }
                        }
                    }
                    return Err("GitHub release 页面中的 tag 结构异常".to_owned());
                },
            }
        },
    };
    let mut raw: Vec<char> = Vec::new();
    let mut i = from;
    while i < end
        invariant
            from <= i <= end <= cs@.len(),
            raw@ =~= cs@.subrange(from as int, i as int),
        decreases end - i,
    {
        raw.push(cs[i]);
        i += 1;
    }
    assert(raw@ =~= rest.take(end - from));
    let raw_text = string_from_chars(raw.as_slice());
    let t = trimmed_chars(raw_text.as_str());
    if t.len() == 0 {
        return Err("GitHub release 页面返回了空 tag".to_owned());
    }
    Ok(string_from_chars(t.as_slice()))
}

// ─── The archive's runtime files ─────────────────────────────

/// The components of a relative path: `/`-separated pieces, without empty
/// ones and without `.` and `..`.
pub open spec fn normal_components(p: Seq<char>) -> Seq<Seq<char>>
    decreases p.len(),
{
    components_from(p, seq![])
}

pub open spec fn keep_component(c: Seq<char>) -> bool {
    c.len() > 0 && c != "."@ && c != ".."@
}

/// The components of `p`, the current piece being `cur`.
pub open spec fn components_from(p: Seq<char>, cur: Seq<char>) -> Seq<Seq<char>>
    decreases p.len(),
{
    if p.len() == 0 {
        if keep_component(cur) {
            seq![cur]
        } else {
            seq![]
        }
    } else if p[0] == '/' {
        (if keep_component(cur) {
            seq![cur]
        } else {
            Seq::<Seq<char>>::empty()
        }) + components_from(p.drop_first(), seq![])
    } else {
        components_from(p.drop_first(), cur.push(p[0]))
    }
}

/// Components joined by `/`.
pub open spec fn join_components(cs: Seq<Seq<char>>) -> Seq<char>
    decreases cs.len(),
{
    if cs.len() == 0 {
        seq![]
    } else if cs.len() == 1 {
        cs[0]
    } else {
        join_components(cs.drop_last()) + "/"@ + cs.last()
    }
}

/// Where an archive entry goes inside the importer directory: what follows
/// its first `GIMI` component; none for entries outside one.
pub open spec fn payload_path_spec(entry: Seq<char>) -> Option<Seq<char>> {
    let comps = normal_components(entry);
    if exists|k: int| 0 <= k < comps.len() && comps[k] == "GIMI"@ {
        let k = choose|k: int|
            0 <= k < comps.len() && comps[k] == "GIMI"@ && forall|j: int| 0 <= j < k ==> comps[j] != "GIMI"@;
        Some(join_components(comps.skip(k + 1)))
    } else {
        None
    }
}

fn keep_component_exec(c: &Vec<char>) -> (r: bool)
    ensures
        r == keep_component(c@),
{
    proof {
        reveal_strlit(".");
        reveal_strlit("..");
    }
    if c.len() == 0 {
        return false;
    }
    if c.len() == 1 && c[0] == '.' {
        assert(c@ =~= "."@);
        return false;
    }
    if c.len() == 2 && c[0] == '.' && c[1] == '.' {
        assert(c@ =~= ".."@);
        return false;
    }
    assert(c@ != "."@ && c@ != ".."@) by {
        if c@ == "."@ {
            assert(c@.len() == 1 && c@[0] == '.');
        }
        if c@ == ".."@ {
            assert(c@.len() == 2 && c@[0] == '.' && c@[1] == '.');
        }
    }
    true
}

fn components_of(p: &str) -> (r: Vec<Vec<char>>)
    ensures
        r@.map_values(|c: Vec<char>| c@) == normal_components(p@),
{
    let cs = chars_of(p);
    let mut out: Vec<Vec<char>> = Vec::new();
    let mut cur: Vec<char> = Vec::new();
    let mut i: usize = 0;
    assert(cs@.skip(0) =~= cs@);
    assert(out@.map_values(|c: Vec<char>| c@) =~= Seq::<Seq<char>>::empty());
    while i < cs.len()
        invariant
            0 <= i <= cs@.len(),
            cs@ == p@,
            out@.map_values(|c: Vec<char>| c@) + components_from(cs@.skip(i as int), cur@)
                == normal_components(p@),
        decreases cs.len() - i,
    {
        let c = cs[i];
        let ghost rest = cs@.skip(i as int);
        let ghost before = out@.map_values(|c: Vec<char>| c@);
        proof {
            assert(rest[0] == c);
            assert(rest.drop_first() =~= cs@.skip(i + 1));
        }
        if c == '/' {
            let keep = keep_component_exec(&cur);
            let ghost cur_v = cur@;
            if keep {
                out.push(cur);
                assert(out@.map_values(|c: Vec<char>| c@) =~= before + seq![cur_v]);
            }
            cur = Vec::new();
            proof {
                assert(out@.map_values(|c: Vec<char>| c@) + components_from(cs@.skip(i + 1), cur@) =~= before
                    + ((if keep_component(cur_v) {
                    seq![cur_v]
                } else {
                    Seq::<Seq<char>>::empty()
                }) + components_from(rest.drop_first(), seq![])));
            }
        } else {
            let ghost cur_v = cur@;
            cur.push(c);
            proof {
                assert(components_from(rest, cur_v) == components_from(rest.drop_first(), cur_v.push(c)));
            }
        }
        i += 1;
    }
    proof {
        assert(cs@.skip(cs@.len() as int) =~= Seq::<char>::empty());
    }
    let ghost before = out@.map_values(|c: Vec<char>| c@);
    let ghost cur_v = cur@;
    if keep_component_exec(&cur) {
        out.push(cur);
        assert(out@.map_values(|c: Vec<char>| c@) =~= before + seq![cur_v]);
    } else {
        assert(before + Seq::<Seq<char>>::empty() =~= before);
    }
    out
}

proof fn lemma_join_push(cs: Seq<Seq<char>>, j: int)
    requires
        0 <= j < cs.len(),
    ensures
        join_components(cs.take(j + 1)) == (if j == 0 {
            cs[0]
        } else {
            join_components(cs.take(j)) + "/"@ + cs[j]
        }),
{
    assert(cs.take(j + 1).drop_last() =~= cs.take(j));
    if j == 0 {
        assert(cs.take(1).len() == 1);
    }
}

/// Where an archive entry goes inside the importer directory (see
/// `payload_path_spec`).
pub fn runtime_payload_relative_path(entry_path: &str) -> (r: Option<String>)
    ensures
        match r {
            Some(p) => payload_path_spec(entry_path@) == Some(p@),
            None => payload_path_spec(entry_path@) is None,
        },
{
    let comps = components_of(entry_path);
    let ghost cv = comps@.map_values(|c: Vec<char>| c@);
    let mut k: usize = 0;
    proof {
        reveal_strlit("GIMI");
    }
    while k < comps.len() && !str_eq_chars(&comps[k], "GIMI")
        invariant
            0 <= k <= comps@.len(),
            cv == comps@.map_values(|c: Vec<char>| c@),
            forall|j: int| 0 <= j < k ==> cv[j] != "GIMI"@,
        decreases comps.len() - k,
    {
        k += 1;
    }
    if k == comps.len() {
        assert forall|j: int| !(0 <= j < cv.len() && cv[j] == "GIMI"@) by {}
        return None;
    }
    proof {
        assert(cv[k as int] == comps@[k as int]@);
        assert(cv[k as int] == "GIMI"@);
        assert(0 <= k < cv.len() && cv[k as int] == "GIMI"@ && forall|j: int| 0 <= j < k ==> cv[j] != "GIMI"@);
        let x = choose|x: int|
            0 <= x < cv.len() && cv[x] == "GIMI"@ && forall|j: int| 0 <= j < x ==> cv[j] != "GIMI"@;
        if x < k {
            assert(cv[x] != "GIMI"@);
        }
        if x > k {
            assert(cv[k as int] != "GIMI"@);
        }
    }
    let ghost tail = cv.skip(k + 1);
    let mut out = String::new();
    let mut j: usize = k + 1;
    assert(tail.take(0) =~= Seq::<Seq<char>>::empty());
    while j < comps.len()
        invariant
            k + 1 <= j <= comps@.len(),
            cv == comps@.map_values(|c: Vec<char>| c@),
            tail == cv.skip(k + 1),
            out@ == join_components(tail.take(j - k - 1)),
        decreases comps.len() - j,
    {
        proof {
            lemma_join_push(tail, j - k - 1);
            assert(tail[j - k - 1] == comps@[j as int]@);
            reveal_strlit("/");
        }
        if j > k + 1 {
            crate::text::push_char(&mut out, '/');
        }
        let piece = string_from_chars(comps[j].as_slice());
        push_str(&mut out, piece.as_str());
        proof {
            if j == k + 1 {
                assert(out@ =~= tail[0]);
            } else {
                assert(out@ =~= join_components(tail.take(j - k - 1)) + "/"@ + tail[j - k - 1]);
            }
        }
        j += 1;
    }
    assert(tail.take(tail.len() as int) =~= tail);
    Some(out)
}

fn str_eq_chars(a: &Vec<char>, b: &str) -> (r: bool)
    ensures
        r == (a@ == b@),
{
    let t = string_from_chars(a.as_slice());
    str_eq(t.as_str(), b)
}

// ─── Progress ────────────────────────────────────────────────

/// The percentage of a download: of the announced size when there is one
/// (at most 100), else one point per 128 KiB (at most 95).
pub fn download_progress(downloaded: u64, total: Option<u64>) -> (r: u8)
    ensures
        r == (match total {
            Some(t) => {
                let m = if downloaded * 100 <= u64::MAX {
                    downloaded * 100
                } else {
                    u64::MAX as int
                };
                let q = m / (if t < 1 {
                    1
                } else {
                    t as int
                });
                if q < 100 {
                    q
                } else {
                    100
                }
            },
            None => {
                let q = downloaded / 131072;
                if q < 95 {
                    q as int
                } else {
                    95
                }
            },
        }),
{
    match total {
        Some(t) => {
            let d = if t < 1 {
                1
            } else {
                t
            };
            let m = match downloaded.checked_mul(100) {
                Some(m) => m,
                None => u64::MAX,
            };
            let q = m / d;
            if q < 100 {
                q as u8
            } else {
                100
            }
        },
        None => {
            let q = downloaded / 131072;
            if q < 95 {
                q as u8
            } else {
                95
            }
        },
    }
}

/// The overall installation progress while the archive downloads: from 12
/// to 58 percent.
pub fn overall_download_percent(download_percent: u8) -> (r: u8)
    ensures
        r == (if 12 + (download_percent * 46 / 100) < 58 {
            12 + (download_percent * 46 / 100)
        } else {
            58
        }),
{
    let part: u16 = (download_percent as u16) * 46 / 100;
    let overall: u8 = 12 + (part as u8);
    if overall < 58 {
        overall
    } else {
        58
    }
}

/// The overall installation progress while files are unpacked: from 66 to
/// 95 percent of the bytes written. The share is cut to a byte as the
/// progress report does, which must leave room for the 66 before it.
pub fn extract_percent(processed: u64, total: u64) -> (r: u8)
    requires
        total >= 1,
        ({
            let m = if processed * 29 <= u64::MAX {
                processed * 29
            } else {
                u64::MAX as int
            };
            (m / (total as int)) % 256 + 66 <= 255
        }),
    ensures
        ({
            let m = if processed * 29 <= u64::MAX {
                processed * 29
            } else {
                u64::MAX as int
            };
            let p = 66 + (m / (total as int)) % 256;
            r == (if p < 95 {
                p
            } else {
                95
            })
        }),
{
    let m = match processed.checked_mul(29) {
        Some(m) => m,
        None => u64::MAX,
    };
    let q = m / total;
    let share: u8 = (q % 256) as u8;
    let p: u8 = 66 + share;
    if p < 95 {
        p
    } else {
        95
    }
}

/// The label of a running runtime operation's button.
pub fn operation_label(kind: RuntimeOperationKind) -> (r: &'static str)
    ensures
        r@ == (match kind {
            RuntimeOperationKind::Download => "下载中"@,
            RuntimeOperationKind::Update => "更新中"@,
        }),
{
    match kind {
        RuntimeOperationKind::Download => "下载中",
        RuntimeOperationKind::Update => "更新中",
    }
}

/// The entries of the importer directory that belong to a managed runtime.
pub fn managed_runtime_entries() -> (r: Vec<&'static str>)
    ensures
        r@.len() == 5,
        r@[0]@ == "Core"@,
        r@[1]@ == "ShaderFixes"@,
        r@[2]@ == "Mods"@,
        r@[3]@ == "d3dx.ini"@,
        r@[4]@ == ".anime-mod-manager-version"@,
{
    let mut r: Vec<&'static str> = Vec::new();
    r.push("Core");
    r.push("ShaderFixes");
    r.push("Mods");
    r.push("d3dx.ini");
    r.push(".anime-mod-manager-version");
    r
}

/// Whether a runtime left beside the application is moved into the
/// importer directory: only when the two differ, the old place holds some
/// managed entry and the new place holds none.
pub fn should_migrate_legacy_layout(
    legacy_root: &str,
    target_root: &str,
    legacy_has_runtime: bool,
    target_has_runtime: bool,
) -> (r: bool)
    ensures
        r == (legacy_root@ != target_root@ && legacy_has_runtime && !target_has_runtime),
{
    !str_eq(legacy_root, target_root) && legacy_has_runtime && !target_has_runtime
}

proof fn lemma_parts_order_flip(a: Seq<u32>, b: Seq<u32>, i: int, n: int)
    ensures
        parts_order(a, b, i, n) == -parts_order(b, a, i, n),
    decreases n - i,
{
    if i < n && part_at(a, i) == part_at(b, i) {
        lemma_parts_order_flip(a, b, i + 1, n);
    }
}

/// Swapping two release tags reverses their order: a tag is newer than
/// another exactly when the other is older, and equal ones stay equal.
pub proof fn lemma_version_order_antisymmetric(l: Seq<char>, r: Seq<char>)
    ensures
        version_order(l, r) == -version_order(r, l),
        -1 <= version_order(l, r) <= 1,
{
    let a = version_parts_spec(l);
    let b = version_parts_spec(r);
    let n = if a.len() < b.len() {
        b.len() as int
    } else {
        a.len() as int
    };
    lemma_parts_order_flip(a, b, 0, n);
    lemma_parts_order_range(a, b, 0, n);
    lemma_lex_asymmetric(l, r);
    lemma_lex_asymmetric(r, l);
    lemma_lex_irreflexive(l);
    lemma_lex_total(l, r);
}

proof fn lemma_parts_order_range(a: Seq<u32>, b: Seq<u32>, i: int, n: int)
    ensures
        -1 <= parts_order(a, b, i, n) <= 1,
    decreases n - i,
{
    if i < n && part_at(a, i) == part_at(b, i) {
        lemma_parts_order_range(a, b, i + 1, n);
    }
}

/// A tag is equal to itself in the order of release tags.
pub proof fn lemma_version_order_reflexive(l: Seq<char>)
    ensures
        version_order(l, l) == 0,
{
    lemma_version_order_antisymmetric(l, l);
}

proof fn lemma_parts_tail_zero(a: Seq<u32>, b: Seq<u32>, i: int, n: int)
    requires
        i >= a.len(),
        i >= b.len(),
    ensures
        parts_order(a, b, i, n) == 0,
    decreases n - i,
{
    if i < n {
        lemma_parts_tail_zero(a, b, i + 1, n);
    }
}

/// Comparing past the longer version changes nothing: missing numbers are
/// zero on both sides.
proof fn lemma_parts_extend(a: Seq<u32>, b: Seq<u32>, i: int, n: int, m: int)
    requires
        i <= n <= m,
        n >= a.len(),
        n >= b.len(),
    ensures
        parts_order(a, b, i, m) == parts_order(a, b, i, n),
    decreases n - i,
{
    if i == n {
        lemma_parts_tail_zero(a, b, i, m);
    } else {
        lemma_parts_extend(a, b, i + 1, n, m);
    }
}

proof fn lemma_parts_transitive(a: Seq<u32>, b: Seq<u32>, c: Seq<u32>, i: int, n: int)
    ensures
        parts_order(a, b, i, n) <= 0 && parts_order(b, c, i, n) <= 0 ==> parts_order(a, c, i, n) <= 0,
        parts_order(a, b, i, n) < 0 && parts_order(b, c, i, n) <= 0 ==> parts_order(a, c, i, n) < 0,
        parts_order(a, b, i, n) <= 0 && parts_order(b, c, i, n) < 0 ==> parts_order(a, c, i, n) < 0,
    decreases n - i,
{
    if i < n {
        lemma_parts_transitive(a, b, c, i + 1, n);
    }
}

/// The order of two tags by their numbers, compared as far as the longest
/// of three tags.
spec fn parts_upto(l: Seq<char>, r: Seq<char>, n: int) -> int {
    parts_order(version_parts_spec(l), version_parts_spec(r), 0, n)
}

proof fn lemma_version_order_at(l: Seq<char>, r: Seq<char>, n: int)
    requires
        n >= version_parts_spec(l).len(),
        n >= version_parts_spec(r).len(),
    ensures
        version_order(l, r) == (if parts_upto(l, r, n) != 0 {
            parts_upto(l, r, n)
        } else if lex_lt(l, r) {
            -1
        } else if l == r {
            0
        } else {
            1
        }),
{
    let a = version_parts_spec(l);
    let b = version_parts_spec(r);
    let k = if a.len() < b.len() {
        b.len() as int
    } else {
        a.len() as int
    };
    lemma_parts_extend(a, b, 0, k, n);
}

/// If tag `a` is older than `b`, and `b` older than `c`, then `a` is older
/// than `c`.
pub proof fn lemma_version_order_transitive(a: Seq<char>, b: Seq<char>, c: Seq<char>)
    requires
        version_order(a, b) < 0,
        version_order(b, c) < 0,
    ensures
        version_order(a, c) < 0,
{
    let pa = version_parts_spec(a);
    let pb = version_parts_spec(b);
    let pc = version_parts_spec(c);
    let n = (pa.len() + pb.len() + pc.len()) as int;
    lemma_version_order_at(a, b, n);
    lemma_version_order_at(b, c, n);
    lemma_version_order_at(a, c, n);
    lemma_parts_order_range(pa, pb, 0, n);
    lemma_parts_order_range(pb, pc, 0, n);
    lemma_parts_transitive(pa, pb, pc, 0, n);
    lemma_lex_transitive(a, b, c);
}

} // verus!
