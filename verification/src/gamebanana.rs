//! GameBanana catalog addressing and the rules applied to its answers.

use vstd::prelude::*;

use crate::models::{ModListPage, ModRecord, category_name};
use crate::text::{
    chars_of, decimal, parse_u64, parse_u64_chars, push_char, push_decimal, push_str, str_eq,
    trim, trimmed_chars,
};

verus! {

/// What went wrong while talking to GameBanana.
#[derive(Debug)]
pub enum GbError {
    Http(String),
    Parse(String),
    NotFound,
}

impl GbError {
    /// The text the error is displayed with.
    pub fn message(&self) -> (r: String)
        ensures
            r@ == (match self {
                GbError::Http(s) => "HTTP error: "@ + s@,
                GbError::Parse(s) => "Parse error: "@ + s@,
                GbError::NotFound => "Not found"@,
            }),
    {
        match self {
            GbError::Http(s) => {
                let mut r = "HTTP error: ".to_owned();
                push_str(&mut r, s.as_str());
                r
            },
            GbError::Parse(s) => {
                let mut r = "Parse error: ".to_owned();
                push_str(&mut r, s.as_str());
                r
            },
            GbError::NotFound => "Not found".to_owned(),
        }
    }
}

/// The decimal text of a signed number.
pub open spec fn decimal_int(n: int) -> Seq<char> {
    if n < 0 {
        seq!['-'] + decimal((-n) as nat)
    } else {
        decimal(n as nat)
    }
}

pub fn push_i32(s: &mut String, n: i32)
    ensures
        final(s)@ == old(s)@ + decimal_int(n as int),
{
    if n < 0 {
        push_char(s, '-');
        let m: u64 = (-(n as i64)) as u64;
        push_decimal(s, m);
        assert(final(s)@ =~= old(s)@ + decimal_int(n as int));
    } else {
        push_decimal(s, n as u64);
    }
}

/// The first `n` bytes of `s` (all of it when shorter).
pub fn byte_prefix(s: &str, n: usize) -> (r: &str)
    requires
        vstd::utf8::encode_utf8(s@).len() <= usize::MAX,
        vstd::utf8::is_char_boundary(
            vstd::utf8::encode_utf8(s@),
            if vstd::utf8::encode_utf8(s@).len() < n {
                vstd::utf8::encode_utf8(s@).len() as int
            } else {
                n as int
            },
        ),
    ensures
        vstd::utf8::encode_utf8(r@) == vstd::utf8::encode_utf8(s@).take(
            if vstd::utf8::encode_utf8(s@).len() < n {
                vstd::utf8::encode_utf8(s@).len() as int
            } else {
                n as int
            },
        ),
{
    let len = s.len();
    let cut = if len < n {
        len
    } else {
        n
    };
    let (a, _) = s.split_at(cut);
    assert(vstd::utf8::encode_utf8(s@).subrange(0, cut as int) =~= vstd::utf8::encode_utf8(s@).take(cut as int));
    a
}

pub open spec fn prefix_len(s: &str, n: nat) -> int {
    if vstd::utf8::encode_utf8(s@).len() < n {
        vstd::utf8::encode_utf8(s@).len() as int
    } else {
        n as int
    }
}

/// The snippet of a body that fits in `n` bytes can be cut there.
pub open spec fn cuttable(s: &str, n: nat) -> bool {
    vstd::utf8::encode_utf8(s@).len() <= usize::MAX && vstd::utf8::is_char_boundary(vstd::utf8::encode_utf8(s@), prefix_len(s, n))
}

#[derive(Debug, Clone, Copy)]
pub struct GameBananaClient {
    game_id: u32,
}

pub open spec fn api_base() -> Seq<char> {
    "https://gamebanana.com/apiv11"@
}

/// `url_encode`: bytes that are URL-safe stay, a space becomes `+`, the rest `%XX`.
pub open spec fn is_unreserved(b: u8) -> bool {
    (65 <= b <= 90) || (97 <= b <= 122) || (48 <= b <= 57) || b == 45 || b == 95 || b == 46
        || b == 126
}

pub open spec fn hex_digit(d: u8) -> char {
    if d < 10 {
        (48 + d) as char
    } else {
        (55 + d) as char
    }
}

pub open spec fn encode_byte(b: u8) -> Seq<char> {
    if is_unreserved(b) {
        seq![b as char]
    } else if b == 32 {
        seq!['+']
    } else {
        seq!['%', hex_digit(b / 16), hex_digit(b % 16)]
    }
}

pub open spec fn url_encoded(bs: Seq<u8>) -> Seq<char>
    decreases bs.len(),
{
    if bs.len() == 0 {
        seq![]
    } else {
        url_encoded(bs.drop_last()) + encode_byte(bs.last())
    }
}

fn hex_char(d: u8) -> (c: char)
    requires
        d < 16,
    ensures
        c == hex_digit(d),
{
    if d < 10 {
        (48u8 + d) as char
    } else {
        (55u8 + d) as char
    }
}

/// Percent-encodes the UTF-8 bytes of `s` for a query string.
pub fn url_encode(s: &str) -> (r: String)
    ensures
        r@ == url_encoded(vstd::utf8::encode_utf8(s@)),
{
    let bytes = s.as_bytes();
    let mut r = String::new();
    let mut i: usize = 0;
    while i < bytes.len()
        invariant
            0 <= i <= bytes.len(),
            bytes@ == vstd::utf8::encode_utf8(s@),
            r@ == url_encoded(bytes@.take(i as int)),
        decreases bytes.len() - i,
    {
        let b = bytes[i];
        proof {
            assert(bytes@.take(i + 1).drop_last() =~= bytes@.take(i as int));
        }
        if (65 <= b && b <= 90) || (97 <= b && b <= 122) || (48 <= b && b <= 57) || b == 45 || b
            == 95 || b == 46 || b == 126 {
            push_char(&mut r, b as char);
        } else if b == 32 {
            push_char(&mut r, '+');
        } else {
            push_char(&mut r, '%');
            push_char(&mut r, hex_char(b / 16));
            push_char(&mut r, hex_char(b % 16));
        }
        proof {
            assert(r@ =~= url_encoded(bytes@.take(i as int)) + encode_byte(b));
        }
        i += 1;
    }
    assert(bytes@.take(bytes.len() as int) =~= bytes@);
    r
}

/// The address of one page of a game's mod feed, optionally searching by name.
pub open spec fn list_mods_url_spec(
    game_id: u32,
    page: u32,
    per_page: u32,
    search: Option<&str>,
) -> Seq<char> {
    let base = api_base() + "/Game/"@ + decimal(game_id as nat) + "/Subfeed?_nPage="@ + decimal(
        page as nat,
    ) + "&_nPerpage="@ + decimal(per_page as nat) + "&_sSort=default"@;
    match search {
        Some(q) => if q@.len() > 0 {
            base + "&_sName="@ + url_encoded(vstd::utf8::encode_utf8(q@))
        } else {
            base
        },
        None => base,
    }
}

impl GameBananaClient {
    pub fn new(game_id: u32) -> (r: Self)
        ensures
            r.spec_game_id() == game_id,
    {
        GameBananaClient { game_id }
    }

    pub fn game_id(&self) -> (r: u32)
        ensures
            r == self.spec_game_id(),
    {
        self.game_id
    }

    pub closed spec fn spec_game_id(&self) -> u32 {
        self.game_id
    }

    /// Where `list_mods` asks for a page.
    pub fn list_mods_url(&self, page: u32, per_page: u32, search: Option<&str>) -> (r: String)
        ensures
            r@ == list_mods_url_spec(self.spec_game_id(), page, per_page, search),
    {
        let mut url = "https://gamebanana.com/apiv11".to_owned();
        push_str(&mut url, "/Game/");
        push_decimal(&mut url, self.game_id as u64);
        push_str(&mut url, "/Subfeed?_nPage=");
        push_decimal(&mut url, page as u64);
        push_str(&mut url, "&_nPerpage=");
        push_decimal(&mut url, per_page as u64);
        push_str(&mut url, "&_sSort=default");
        let ghost base = url@;
        match search {
            Some(q) => {
                if !q.is_empty() {
                    push_str(&mut url, "&_sName=");
                    let e = url_encode(q);
                    push_str(&mut url, e.as_str());
                }
            },
            None => {},
        }
        url
    }

    /// Where `get_mod` asks for a mod's detail.
    pub fn mod_detail_url(&self, mod_id: u64) -> (r: String)
        ensures
            r@ == mod_detail_url_spec(mod_id),
    {
        let mut url = "https://gamebanana.com/apiv11".to_owned();
        push_str(&mut url, "/Mod/");
        push_decimal(&mut url, mod_id);
        push_str(
            &mut url,
            "?_csvProperties=_idRow,_sName,_tsDateModified,_aRootCategory,_aCategory,_aPreviewMedia,_aSubmitter,_aFiles,_sText",
        );
        url
    }
}

pub open spec fn mod_detail_url_spec(mod_id: u64) -> Seq<char> {
    api_base() + "/Mod/"@ + decimal(mod_id as nat)
        + "?_csvProperties=_idRow,_sName,_tsDateModified,_aRootCategory,_aCategory,_aPreviewMedia,_aSubmitter,_aFiles,_sText"@
}

/// A mod submission that is not a manager, tool or tutorial.
pub open spec fn keeps_record(r: ModRecord) -> bool {
    &&& r.model_name@ == "Mod"@
    &&& match r.root_category {
        Some(c) => c.name@ != "Mod/Skin Manager"@ && c.name@ != "Tools"@ && c.name@
            != "Tutorials"@,
        None => true,
    }
}

pub open spec fn kept_records(s: Seq<ModRecord>) -> Seq<ModRecord>
    decreases s.len(),
{
    if s.len() == 0 {
        seq![]
    } else if keeps_record(s.last()) {
        kept_records(s.drop_last()).push(s.last())
    } else {
        kept_records(s.drop_last())
    }
}

/// A page keeps exactly its mod submissions, in order: every record it keeps
/// has the model "Mod" and no root category named "Mod/Skin Manager",
/// "Tools" or "Tutorials"; every such record of the page is kept; and what
/// is kept comes from the page.
pub proof fn lemma_kept_records_are_mods(s: Seq<ModRecord>)
    ensures
        forall|i: int|
            0 <= i < kept_records(s).len() ==> {
                let r = #[trigger] kept_records(s)[i];
                &&& s.contains(r)
                &&& r.model_name@ == "Mod"@
                &&& (r.root_category matches Some(c) ==> c.name@ != "Mod/Skin Manager"@ && c.name@
                    != "Tools"@ && c.name@ != "Tutorials"@)
            },
        forall|k: int|
            0 <= k < s.len() && (#[trigger] s[k]).model_name@ == "Mod"@ && (s[k].root_category matches Some(
                c,
            ) ==> c.name@ != "Mod/Skin Manager"@ && c.name@ != "Tools"@ && c.name@ != "Tutorials"@)
                ==> kept_records(s).contains(s[k]),
    decreases s.len(),
{
    if s.len() > 0 {
        let p = s.drop_last();
        lemma_kept_records_are_mods(p);
        let out = kept_records(s);
        let prev = kept_records(p);
        assert forall|i: int| 0 <= i < out.len() implies ({
            let r = #[trigger] out[i];
            &&& s.contains(r)
            &&& r.model_name@ == "Mod"@
            &&& (r.root_category matches Some(c) ==> c.name@ != "Mod/Skin Manager"@ && c.name@
                != "Tools"@ && c.name@ != "Tutorials"@)
        }) by {
            if i < prev.len() {
                assert(out[i] == prev[i]);
                let r = prev[i];
                assert(p.contains(r));
                let j = choose|j: int| 0 <= j < p.len() && p[j] == r;
                assert(s[j] == r);
            } else {
                assert(out[i] == s.last());
                assert(s[s.len() - 1] == s.last());
            }
        }
        assert forall|k: int|
            0 <= k < s.len() && (#[trigger] s[k]).model_name@ == "Mod"@ && (s[k].root_category matches Some(
                c,
            ) ==> c.name@ != "Mod/Skin Manager"@ && c.name@ != "Tools"@ && c.name@ != "Tutorials"@)
            implies out.contains(s[k]) by {
            if k < s.len() - 1 {
                assert(p[k] == s[k]);
                assert(prev.contains(s[k]));
                let i = choose|i: int| 0 <= i < prev.len() && prev[i] == s[k];
                assert(out[i] == s[k]);
            } else {
                assert(keeps_record(s.last()));
                assert(out[out.len() - 1] == s[k]);
            }
        }
    }
}

fn record_kept(r: &ModRecord) -> (b: bool)
    ensures
        b == keeps_record(*r),
{
    if !str_eq(r.model_name.as_str(), "Mod") {
        return false;
    }
    match &r.root_category {
        Some(c) => !str_eq(c.name.as_str(), "Mod/Skin Manager") && !str_eq(
            c.name.as_str(),
            "Tools",
        ) && !str_eq(c.name.as_str(), "Tutorials"),
        None => true,
    }
}

/// Marks a fetched page exhausted when the server sent fewer records than
/// asked for, then keeps only mod submissions.
pub fn finish_list_page(page: ModListPage, per_page: u32) -> (r: ModListPage)
    ensures
        r.metadata == page.metadata,
        r.api_exhausted == ((page.records@.len() as u32) < per_page),
        r.records@ == kept_records(page.records@),
{
    let raw_count = page.records.len() as u32;
    let exhausted = raw_count < per_page;
    let ghost all = page.records@;
    let mut kept: Vec<ModRecord> = Vec::new();
    for r in it: page.records
        invariant
            it.seq() == all,
            kept@ == kept_records(all.take(it.index() as int)),
    {
        proof {
            assert(all.take(it.index() + 1).drop_last() =~= all.take(it.index() as int));
        }
        if record_kept(&r) {
            kept.push(r);
        }
    }
    assert(all.take(all.len() as int) =~= all);
    ModListPage { metadata: page.metadata, records: kept, api_exhausted: exhausted }
}

/// The error for a list answer: a non-200 status with the first 200 bytes of
/// the body, or an empty body.
pub fn list_response_error(status: i32, body: &str) -> (r: Option<GbError>)
    requires
        status != 200 ==> cuttable(body, 200),
    ensures
        status != 200 ==> (r matches Some(GbError::Http(m)) && m@ == "HTTP "@ + decimal_int(
            status as int,
        ) + ": "@ + vstd::utf8::decode_utf8(vstd::utf8::encode_utf8(body@).take(prefix_len(body, 200)))),
        status == 200 && trim(body@).len() == 0 ==> (r matches Some(GbError::Http(m)) && m@
            == "Empty response body"@),
        status == 200 && trim(body@).len() > 0 ==> r is None,
{
    if status != 200 {
        let snippet = byte_prefix(body, 200);
        let mut m = "HTTP ".to_owned();
        push_i32(&mut m, status);
        push_str(&mut m, ": ");
        push_str(&mut m, snippet);
        proof {
            vstd::utf8::encode_utf8_decode_utf8(snippet@);
        }
        return Some(GbError::Http(m));
    }
    let t = trimmed_chars(body);
    if t.len() == 0 {
        return Some(GbError::Http("Empty response body".to_owned()));
    }
    None
}

/// The text `String::from_utf8_lossy` makes of some bytes (invalid
/// sequences become U+FFFD; the exact cuts follow the Unicode rules).
pub uninterp spec fn lossy_text(bytes: Seq<u8>) -> Seq<char>;

/// `String::from_utf8_lossy`: the bytes as text, with each invalid
/// sequence replaced. Valid UTF-8 comes out as the text it encodes; other
/// input is left to the name `lossy_text`.
#[verifier::external_body]
fn utf8_lossy(bytes: &[u8]) -> (r: String)
    ensures
        r@ == lossy_text(bytes@),
        vstd::utf8::valid_utf8(bytes@) ==> r@ == vstd::utf8::decode_utf8(bytes@),
{
    String::from_utf8_lossy(bytes).into_owned()
}

/// The error for a mod detail answer: any status but 200, with the first
/// 200 bytes of the body as text.
pub fn detail_response_error(status: i32, body: &[u8]) -> (r: Option<GbError>)
    ensures
        status == 200 ==> r is None,
        status != 200 ==> (r matches Some(GbError::Http(m)) && m@ == "HTTP "@ + decimal_int(
            status as int,
        ) + ": "@ + lossy_text(body@.take(if body@.len() < 200 {
            body@.len() as int
        } else {
            200
        }))),
{
    if status == 200 {
        return None;
    }
    let n: usize = if body.len() < 200 {
        body.len()
    } else {
        200
    };
    let mut head: Vec<u8> = Vec::new();
    let mut i: usize = 0;
    while i < n
        invariant
            0 <= i <= n <= body@.len(),
            head@ =~= body@.take(i as int),
        decreases n - i,
    {
        head.push(body[i]);
        i += 1;
    }
    let snippet = utf8_lossy(head.as_slice());
    let mut m = "HTTP ".to_owned();
    push_i32(&mut m, status);
    push_str(&mut m, ": ");
    push_str(&mut m, snippet.as_str());
    Some(GbError::Http(m))
}

/// Total size named after the `/` of a `Content-Range` value.
pub open spec fn content_range_total(v: Seq<char>) -> Option<u64> {
    if exists|i: int| 0 <= i < v.len() && v[i] == '/' {
        let k = choose|i: int| 0 <= i < v.len() && v[i] == '/' && forall|j: int| 0 <= j < i ==> v[j] != '/';
        parse_u64(trim(v.subrange(k + 1, v.len() as int)))
    } else {
        None
    }
}

/// Parses the total from a `Content-Range` value such as `bytes 0-99/1234`.
pub fn parse_total_from_content_range(value: &str) -> (r: Option<u64>)
    ensures
        r == content_range_total(value@),
{
    let cs = chars_of(value);
    let mut i: usize = 0;
    while i < cs.len() && cs[i] != '/'
        invariant
            0 <= i <= cs.len(),
            cs@ == value@,
            forall|j: int| 0 <= j < i ==> cs@[j] != '/',
        decreases cs.len() - i,
    {
        i += 1;
    }
    if i == cs.len() {
        return None;
    }
    let ghost v = value@;
    proof {
        let k = choose|k: int| 0 <= k < v.len() && v[k] == '/' && forall|j: int| 0 <= j < k ==> v[j] != '/';
        assert(0 <= i < v.len() && v[i as int] == '/' && forall|j: int| 0 <= j < i ==> v[j] != '/');
        if k < i {
            assert(v[k] != '/');
        }
        if k > i {
            assert(v[i as int] != '/');
        }
        assert(k == i);
    }
    let mut rest: Vec<char> = Vec::new();
    let mut j: usize = i + 1;
    while j < cs.len()
        invariant
            i + 1 <= j <= cs.len(),
            rest@ =~= cs@.subrange(i + 1, j as int),
        decreases cs.len() - j,
    {
        rest.push(cs[j]);
        j += 1;
    }
    let tail = crate::text::string_from_chars(rest.as_slice());
    let t = trimmed_chars(tail.as_str());
    parse_u64_chars(t.as_slice())
}

} // verus!
