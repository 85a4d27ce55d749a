//! Fetching raw bytes by URL: how an answer becomes bytes or an error, and
//! how images go through the shared cache.

use vstd::prelude::*;

use crate::gamebanana::decimal_int;
use crate::img_cache::ImageCache;
use crate::text::push_str;

verus! {

/// Entries the shared image cache holds.
pub const IMAGE_CACHE_ENTRIES: usize = 256;

/// Seconds an image stays in the shared cache.
pub const IMAGE_CACHE_TTL_SECS: u64 = 300;

/// The shared image cache's setup: 256 images for five minutes each.
pub fn image_cache() -> (r: ImageCache)
    ensures
        r.wf(),
        r.spec_entries().len() == 0,
        r.spec_max_entries() == IMAGE_CACHE_ENTRIES,
        r.spec_ttl_secs() == IMAGE_CACHE_TTL_SECS,
{
    ImageCache::new(IMAGE_CACHE_ENTRIES, IMAGE_CACHE_TTL_SECS)
}

/// The error of a request that could not be made.
pub fn http_error_message(detail: &str) -> (r: String)
    ensures
        r@ == "HTTP error: "@ + detail@,
{
    let mut r = "HTTP error: ".to_owned();
    push_str(&mut r, detail);
    r
}

/// The bytes of an answer: its body for status 200, else an error naming
/// the status.
pub fn bytes_from_answer(status_code: i32, body: Vec<u8>) -> (r: Result<Vec<u8>, String>)
    ensures
        status_code == 200 ==> r == Ok::<Vec<u8>, String>(body),
        status_code != 200 ==> (r matches Err(m) && m@ == "HTTP "@ + decimal_int(status_code as int)),
{
    if status_code == 200 {
        Ok(body)
    } else {
        let mut m = "HTTP ".to_owned();
        crate::gamebanana::push_i32(&mut m, status_code);
        Err(m)
    }
}

/// Image bytes for `url`: from the cache while they are fresh, else fetched
/// (by `fetch`, called only then) and, when fetched, stored in the cache.
pub fn download_image<F: FnOnce() -> Result<Vec<u8>, String>>(cache: &mut ImageCache, url: &str, fetch: F) -> (r:
    Result<Vec<u8>, String>)
    requires
        old(cache).wf(),
        call_requires(fetch, ()),
    ensures
        final(cache).wf(),
        final(cache).spec_max_entries() == old(cache).spec_max_entries(),
        final(cache).spec_ttl_secs() == old(cache).spec_ttl_secs(),
        (r matches Ok(d) && old(cache).holds(url@, d@) && final(cache).spec_entries() == old(
            cache,
        ).spec_entries()) || call_ensures(fetch, (), r),
        !old(cache).has_url(url@) ==> call_ensures(fetch, (), r),
        r matches Ok(d) ==> (d@.len() > 0 ==> final(cache).holds(url@, d@)),
        r is Err ==> call_ensures(fetch, (), r) && !final(cache).has_url(url@),
{
    match cache.get(url) {
        Some(cached) => {
            proof {
                let i = choose|i: int|
                    0 <= i < old(cache).spec_entries().len() && #[trigger] old(cache).spec_entries()[i]
                        == (url@, cached@);
                assert(old(cache).spec_entries()[i].0 == url@);
                assert(old(cache).has_url(url@));
            }
            Ok(cached)
        },
        None => {
            let fetched = fetch();
            match &fetched {
                Ok(data) => {
                    let copy = crate::img_cache::clone_bytes(data);
                    cache.put(url, copy);
                },
                Err(_) => {},
            }
            fetched
        },
    }
}

} // verus!
