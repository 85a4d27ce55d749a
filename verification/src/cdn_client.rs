//! Addressing of the catalog mirror and the rules applied to its answers.

use vstd::prelude::*;

use crate::gamebanana::{decimal_int, push_i32};
use crate::paths::strip_slashes;
use crate::text::{chars_of, decimal, push_decimal, push_str, string_from_chars, trim, trimmed_chars};

verus! {

#[derive(Debug, Clone)]
pub struct CdnClient {
    base_url: String,
    game_id: u32,
}

/// What went wrong while talking to the mirror.
#[derive(Debug)]
pub enum CdnError {
    Http(String),
    Parse(String),
}

impl CdnError {
    /// The text the error is displayed with.
    pub fn message(&self) -> (r: String)
        ensures
            r@ == (match self {
                CdnError::Http(s) => "CDN HTTP: "@ + s@,
                CdnError::Parse(s) => "CDN Parse: "@ + s@,
            }),
    {
        match self {
            CdnError::Http(s) => {
                let mut r = "CDN HTTP: ".to_owned();
                push_str(&mut r, s.as_str());
                r
            },
            CdnError::Parse(s) => {
                let mut r = "CDN Parse: ".to_owned();
                push_str(&mut r, s.as_str());
                r
            },
        }
    }
}

/// The mirror's sync summary.
#[derive(Debug, Clone)]
pub struct CatalogManifest {
    pub synced_at: u64,
    pub total_mods: usize,
    pub catalog_hash: String,
    pub first_mod_id: u64,
}

impl CdnClient {
    pub closed spec fn spec_base_url(&self) -> Seq<char> {
        self.base_url@
    }

    pub closed spec fn spec_game_id(&self) -> u32 {
        self.game_id
    }

    /// A client for `base_url`, trimmed and without trailing slashes.
    pub fn new(base_url: &str, game_id: u32) -> (r: Self)
        ensures
            r.spec_base_url() == strip_slashes(trim(base_url@)),
            r.spec_game_id() == game_id,
    {
        let t = trimmed_chars(base_url);
        let mut e = t.len();
        assert(t@.take(e as int) =~= t@);
        while e > 0 && t[e - 1] == '/'
            invariant
                0 <= e <= t@.len(),
                strip_slashes(t@.take(e as int)) == strip_slashes(t@),
            decreases e,
        {
            assert(t@.take(e as int).drop_last() =~= t@.take(e - 1));
            e -= 1;
        }
        proof {
            assert(t@.take(t@.len() as int) =~= t@);
            if e > 0 {
                assert(t@.take(e as int).last() == t@[e - 1]);
            }
        }
        let mut kept: Vec<char> = Vec::new();
        let mut i: usize = 0;
        while i < e
            invariant
                0 <= i <= e <= t@.len(),
                kept@ =~= t@.take(i as int),
            decreases e - i,
        {
            kept.push(t[i]);
            i += 1;
        }
        CdnClient { base_url: string_from_chars(kept.as_slice()), game_id }
    }

    fn with_path(&self, path: &str) -> (r: String)
        ensures
            r@ == self.spec_base_url() + path@,
    {
        let mut url = self.base_url.clone();
        push_str(&mut url, path);
        url
    }

    /// Where the sync summary is read.
    pub fn manifest_url(&self) -> (r: String)
        ensures
            r@ == self.spec_base_url() + "/api/v1/manifest"@,
    {
        self.with_path("/api/v1/manifest")
    }

    /// Where the whole catalog is read.
    pub fn catalog_url(&self) -> (r: String)
        ensures
            r@ == self.spec_base_url() + "/api/v1/catalog"@,
    {
        self.with_path("/api/v1/catalog")
    }

    /// Where the cards newer than `since_id` are read.
    pub fn catalog_since_url(&self, since_id: u64) -> (r: String)
        ensures
            r@ == self.spec_base_url() + "/api/v1/catalog?since="@ + decimal(since_id as nat),
    {
        let mut url = self.with_path("/api/v1/catalog?since=");
        push_decimal(&mut url, since_id);
        url
    }

    /// Where the filter metadata of this client's game is read.
    pub fn metadata_url(&self) -> (r: String)
        ensures
            r@ == self.spec_base_url() + "/api/v1/"@ + decimal(self.spec_game_id() as nat)
                + "/catalog/meta"@,
    {
        let mut url = self.with_path("/api/v1/");
        push_decimal(&mut url, self.game_id as u64);
        push_str(&mut url, "/catalog/meta");
        url
    }

    /// Where one mod's detail is read.
    pub fn mod_url(&self, mod_id: u64) -> (r: String)
        ensures
            r@ == self.spec_base_url() + "/api/v1/mod/"@ + decimal(mod_id as nat),
    {
        let mut url = self.with_path("/api/v1/mod/");
        push_decimal(&mut url, mod_id);
        url
    }
}

/// The summary is only read from a 200 answer; any other leaves it absent.
pub fn manifest_answer_usable(status: i32) -> (r: bool)
    ensures
        r == (status == 200),
{
    status == 200
}

/// `HTTP <status>`.
pub fn status_message(status: i32) -> (r: String)
    ensures
        r@ == "HTTP "@ + decimal_int(status as int),
{
    let mut m = "HTTP ".to_owned();
    push_i32(&mut m, status);
    m
}

/// The error for a catalog answer: a non-200 status with the first 200
/// characters of the body, or `(no body)` when it is not text.
pub fn catalog_status_error(status: i32, body: Option<&str>) -> (r: Option<CdnError>)
    ensures
        status == 200 ==> r is None,
        status != 200 ==> (r matches Some(CdnError::Http(m)) && m@ == "HTTP "@ + decimal_int(
            status as int,
        ) + ": "@ + (match body {
            Some(b) => b@,
            None => "(no body)"@,
        }).take(if (match body {
            Some(b) => b@,
            None => "(no body)"@,
        }).len() < 200 {
            (match body {
                Some(b) => b@,
                None => "(no body)"@,
            }).len() as int
        } else {
            200
        })),
{
    if status == 200 {
        return None;
    }
    let text = match body {
        Some(b) => b,
        None => "(no body)",
    };
    let cs = chars_of(text);
    let n: usize = if cs.len() < 200 {
        cs.len()
    } else {
        200
    };
    let mut snippet: Vec<char> = Vec::new();
    let mut i: usize = 0;
    while i < n
        invariant
            0 <= i <= n <= cs@.len(),
            snippet@ =~= cs@.take(i as int),
        decreases n - i,
    {
        snippet.push(cs[i]);
        i += 1;
    }
    let mut m = status_message(status);
    push_str(&mut m, ": ");
    let s = string_from_chars(snippet.as_slice());
    push_str(&mut m, s.as_str());
    Some(CdnError::Http(m))
}

/// The error for a filter metadata answer: any status but 200.
pub fn metadata_status_error(status: i32) -> (r: Option<CdnError>)
    ensures
        status == 200 ==> r is None,
        status != 200 ==> (r matches Some(CdnError::Http(m)) && m@ == "HTTP "@ + decimal_int(
            status as int,
        )),
{
    if status != 200 {
        Some(CdnError::Http(status_message(status)))
    } else {
        None
    }
}

/// The error for a mod detail answer: 404 is a missing mod, any other
/// status but 200 is reported by number.
pub fn mod_status_error(status: i32) -> (r: Option<CdnError>)
    ensures
        status == 200 ==> r is None,
        status == 404 ==> (r matches Some(CdnError::Http(m)) && m@ == "mod not found"@),
        status != 200 && status != 404 ==> (r matches Some(CdnError::Http(m)) && m@ == "HTTP "@
            + decimal_int(status as int)),
{
    if status == 404 {
        return Some(CdnError::Http("mod not found".to_owned()));
    }
    metadata_status_error(status)
}

} // verus!
