//! A bounded, time-limited cache of downloaded image bytes keyed by URL.

use std::time::Instant;

use vstd::prelude::*;

use crate::text::str_eq;

verus! {

#[verifier::external_type_specification]
#[verifier::external_body]
pub struct ExInstant(Instant);

/// `Instant::now`: the current reading of the monotonic clock.
#[verifier::external_body]
pub(crate) fn instant_now() -> Instant {
    Instant::now()
}

/// `Instant::elapsed`, in whole seconds: time since `t`, read from the clock.
#[verifier::external_body]
fn whole_secs_since(t: &Instant) -> u64 {
    t.elapsed().as_secs()
}

/// One cached image.
pub struct CacheEntry {
    pub url: String,
    pub data: Vec<u8>,
    pub inserted_at: Instant,
}

/// Image bytes by URL, at most `max_entries` of them, each kept for
/// `ttl_secs`; the oldest insertion is evicted first.
pub struct ImageCache {
    max_entries: usize,
    ttl_secs: u64,
    entries: Vec<CacheEntry>,
}

pub fn clone_bytes(v: &Vec<u8>) -> (r: Vec<u8>)
    ensures
        r@ == v@,
{
    let mut r: Vec<u8> = Vec::new();
    let mut i: usize = 0;
    while i < v.len()
        invariant
            0 <= i <= v.len(),
            r@ =~= v@.take(i as int),
        decreases v.len() - i,
    {
        r.push(v[i]);
        i += 1;
    }
    assert(v@.take(v.len() as int) =~= v@);
    r
}

impl ImageCache {
    /// The cached URLs and bytes, oldest insertion first.
    pub closed spec fn spec_entries(&self) -> Seq<(Seq<char>, Seq<u8>)> {
        self.entries@.map_values(|e: CacheEntry| (e.url@, e.data@))
    }

    /// When each entry was stored, in the same order as `spec_entries`.
    pub closed spec fn spec_stamps(&self) -> Seq<Instant> {
        self.entries@.map_values(|e: CacheEntry| e.inserted_at)
    }

    pub closed spec fn spec_max_entries(&self) -> nat {
        self.max_entries as nat
    }

    pub closed spec fn spec_ttl_secs(&self) -> nat {
        self.ttl_secs as nat
    }

    /// Within capacity, no URL twice, no empty image.
    pub open spec fn wf(&self) -> bool {
        &&& self.spec_max_entries() >= 1
        &&& self.spec_entries().len() <= self.spec_max_entries()
        &&& forall|i: int, j: int|
            0 <= i < j < self.spec_entries().len() ==> #[trigger] self.spec_entries()[i].0
                != #[trigger] self.spec_entries()[j].0
        &&& forall|i: int|
            0 <= i < self.spec_entries().len() ==> #[trigger] self.spec_entries()[i].1.len() > 0
    }

    /// The cache holds `url`, with `data`.
    pub open spec fn holds(&self, url: Seq<char>, data: Seq<u8>) -> bool {
        exists|i: int|
            0 <= i < self.spec_entries().len() && #[trigger] self.spec_entries()[i] == (url, data)
    }

    pub open spec fn has_url(&self, url: Seq<char>) -> bool {
        exists|i: int|
            0 <= i < self.spec_entries().len() && #[trigger] self.spec_entries()[i].0 == url
    }

    /// An empty cache with the given capacity and lifetime.
    pub fn new(max_entries: usize, ttl_secs: u64) -> (r: Self)
        requires
            max_entries >= 1,
        ensures
            r.wf(),
            r.spec_entries().len() == 0,
            r.spec_stamps().len() == 0,
            r.spec_max_entries() == max_entries,
            r.spec_ttl_secs() == ttl_secs,
    {
        let r = ImageCache { max_entries, ttl_secs, entries: Vec::new() };
        assert(r.spec_entries() =~= Seq::<(Seq<char>, Seq<u8>)>::empty());
        r
    }

    /// Where `url` is stored, if it is.
    pub fn find(&self, url: &str) -> (r: Option<usize>)
        ensures
            match r {
                Some(i) => i < self.spec_entries().len() && self.spec_entries()[i as int].0 == url@,
                None => !self.has_url(url@),
            },
    {
        let mut i: usize = 0;
        while i < self.entries.len()
            invariant
                0 <= i <= self.entries.len(),
                forall|j: int| 0 <= j < i ==> #[trigger] self.spec_entries()[j].0 != url@,
            decreases self.entries.len() - i,
        {
            if str_eq(self.entries[i].url.as_str(), url) {
                return Some(i);
            }
            i += 1;
        }
        None
    }

    /// Serves entry `idx` when its age is under the lifetime; otherwise drops it.
    pub fn take_if_fresh(&mut self, idx: usize, age_secs: u64) -> (r: Option<Vec<u8>>)
        requires
            old(self).wf(),
            idx < old(self).spec_entries().len(),
        ensures
            final(self).wf(),
            final(self).spec_max_entries() == old(self).spec_max_entries(),
            final(self).spec_ttl_secs() == old(self).spec_ttl_secs(),
            age_secs < old(self).spec_ttl_secs() ==> {
                &&& r matches Some(d)
                &&& d@ == old(self).spec_entries()[idx as int].1
                &&& final(self).spec_entries() == old(self).spec_entries()
                &&& final(self).spec_stamps() == old(self).spec_stamps()
            },
            age_secs >= old(self).spec_ttl_secs() ==> {
                &&& r is None
                &&& final(self).spec_entries() == old(self).spec_entries().remove(idx as int)
                &&& final(self).spec_stamps() == old(self).spec_stamps().remove(idx as int)
            },
    {
        if age_secs < self.ttl_secs {
            Some(clone_bytes(&self.entries[idx].data))
        } else {
            let ghost before = self.spec_entries();
            let ghost stamps = self.spec_stamps();
            self.entries.remove(idx);
            assert(self.spec_entries() =~= before.remove(idx as int));
            assert(self.spec_stamps() =~= stamps.remove(idx as int));
            proof {
                let s = self.spec_entries();
                assert forall|i: int, j: int| 0 <= i < j < s.len() implies #[trigger] s[i].0
                    != #[trigger] s[j].0 by {
                    let ii = if i < idx { i } else { i + 1 };
                    let jj = if j < idx { j } else { j + 1 };
                    assert(s[i] == before[ii]);
                    assert(s[j] == before[jj]);
                }
                assert forall|i: int| 0 <= i < s.len() implies #[trigger] s[i].1.len() > 0 by {
                    let ii = if i < idx { i } else { i + 1 };
                    assert(s[i] == before[ii]);
                }
            }
            None
        }
    }

    /// Looking `url` up found it at `i` and, given the age `a` of that entry,
    /// served it unchanged (younger than the lifetime) or dropped it.
    pub open spec fn lookup_at(
        before: Self,
        after: Self,
        url: Seq<char>,
        served: Option<Vec<u8>>,
        a: u64,
        i: int,
    ) -> bool {
        &&& 0 <= i < before.spec_entries().len()
        &&& before.spec_entries()[i].0 == url
        &&& a < before.spec_ttl_secs() ==> {
            &&& served matches Some(d) && d@ == before.spec_entries()[i].1
            &&& after.spec_entries() == before.spec_entries()
            &&& after.spec_stamps() == before.spec_stamps()
        }
        &&& a >= before.spec_ttl_secs() ==> {
            &&& served is None
            &&& after.spec_entries() == before.spec_entries().remove(i)
            &&& after.spec_stamps() == before.spec_stamps().remove(i)
        }
    }

    /// What looking `url` up did, given the age (in whole seconds) read for
    /// its entry: with no entry there is no age and nothing changes; an entry
    /// younger than the lifetime is served and kept; an older one is dropped
    /// and nothing is served.
    pub open spec fn looked_up(
        before: Self,
        after: Self,
        url: Seq<char>,
        served: Option<Vec<u8>>,
        age: Option<u64>,
    ) -> bool {
        &&& age is None <==> !before.has_url(url)
        &&& age is None ==> served is None && after.spec_entries() == before.spec_entries()
            && after.spec_stamps() == before.spec_stamps()
        &&& age is Some ==> exists|i: int|
            #[trigger] Self::lookup_at(before, after, url, served, age->0, i)
    }

    /// Looks `url` up: gives what is served and the age of its entry in whole
    /// seconds, read from the clock (none when there is no entry). An entry
    /// younger than the lifetime is served; an older one is dropped.
    pub fn get_with_age(&mut self, url: &str) -> (r: (Option<Vec<u8>>, Option<u64>))
        requires
            old(self).wf(),
        ensures
            final(self).wf(),
            final(self).spec_max_entries() == old(self).spec_max_entries(),
            final(self).spec_ttl_secs() == old(self).spec_ttl_secs(),
            Self::looked_up(*old(self), *final(self), url@, r.0, r.1),
    {
        match self.find(url) {
            Some(idx) => {
                let age = whole_secs_since(&self.entries[idx].inserted_at);
                let r = self.take_if_fresh(idx, age);
                proof {
                    assert(old(self).has_url(url@));
                    let ghost sa: Option<u64> = Some(age);
                    assert(sa->0 == age);
                    assert(Self::lookup_at(*old(self), *self, url@, r, sa->0, idx as int));
                    assert(exists|i: int| #[trigger] Self::lookup_at(*old(self), *self, url@, r, sa->0, i));
                    assert(Self::looked_up(*old(self), *self, url@, r, Some(age)));
                }
                (r, Some(age))
            },
            None => {
                proof {
                    assert(Self::looked_up(*old(self), *self, url@, None, None));
                }
                (None, None)
            },
        }
    }

    /// The bytes cached for `url` while they are younger than the lifetime;
    /// an expired entry is dropped. The age is read from the clock (see
    /// `get_with_age`).
    pub fn get(&mut self, url: &str) -> (r: Option<Vec<u8>>)
        requires
            old(self).wf(),
        ensures
            final(self).wf(),
            final(self).spec_max_entries() == old(self).spec_max_entries(),
            final(self).spec_ttl_secs() == old(self).spec_ttl_secs(),
            r matches Some(d) ==> old(self).holds(url@, d@) && final(self).spec_entries()
                == old(self).spec_entries(),
            r is None ==> !final(self).has_url(url@),
            r is Some ==> final(self).spec_stamps() == old(self).spec_stamps(),
            r is None && !old(self).has_url(url@) ==> final(self).spec_entries() == old(self).spec_entries()
                && final(self).spec_stamps() == old(self).spec_stamps(),
            r is None && old(self).has_url(url@) ==> exists|i: int|
                0 <= i < old(self).spec_entries().len() && old(self).spec_entries()[i].0 == url@
                    && final(self).spec_entries() == old(self).spec_entries().remove(i)
                    && final(self).spec_stamps() == old(self).spec_stamps().remove(i),
            exists|age: Option<u64>| Self::looked_up(*old(self), *final(self), url@, r, age),
    {
        let ghost before = *self;
        let (r, age) = self.get_with_age(url);
        proof {
            Self::lemma_lookup_outcome(before, *self, url@, r, age);
        }
        r
    }

    proof fn lemma_lookup_outcome(before: Self, after: Self, url: Seq<char>, r: Option<Vec<u8>>, age: Option<u64>)
        requires
            before.wf(),
            after.wf(),
            Self::looked_up(before, after, url, r, age),
        ensures
            r matches Some(d) ==> before.holds(url, d@) && after.spec_entries() == before.spec_entries(),
            r is None ==> !after.has_url(url),
            r is Some ==> after.spec_stamps() == before.spec_stamps(),
            r is None && !before.has_url(url) ==> after.spec_entries() == before.spec_entries()
                && after.spec_stamps() == before.spec_stamps(),
            r is None && before.has_url(url) ==> exists|i: int|
                0 <= i < before.spec_entries().len() && before.spec_entries()[i].0 == url
                    && after.spec_entries() == before.spec_entries().remove(i)
                    && after.spec_stamps() == before.spec_stamps().remove(i),
    {
        if let Some(a) = age {
            let i = choose|i: int|
                Self::lookup_at(before, after, url, r, a, i);
            if a < before.spec_ttl_secs() {
                let d = r->0;
                assert(before.spec_entries()[i] == (url, d@));
            } else {
                let s = after.spec_entries();
                assert forall|k: int| 0 <= k < s.len() implies #[trigger] s[k].0 != url by {
                    let kk = if k < i { k } else { k + 1 };
                    assert(s[k] == before.spec_entries()[kk]);
                }
            }
        }
    }

    /// An entry younger than the lifetime is served as it was stored, and
    /// the cache stays as it was; an older one is dropped and nothing is
    /// served. Whatever the clock read, only the age decides.
    pub proof fn lemma_fresh_entry_served(
        before: Self,
        after: Self,
        url: Seq<char>,
        data: Seq<u8>,
        served: Option<Vec<u8>>,
        age: u64,
    )
        requires
            before.wf(),
            before.holds(url, data),
            Self::looked_up(before, after, url, served, Some(age)),
        ensures
            age < before.spec_ttl_secs() ==> (served matches Some(d) && d@ == data)
                && after.spec_entries() == before.spec_entries(),
            age >= before.spec_ttl_secs() ==> served is None && !after.has_url(url)
                && after.spec_entries().len() + 1 == before.spec_entries().len(),
    {
        let j = choose|j: int| 0 <= j < before.spec_entries().len() && #[trigger] before.spec_entries()[j] == (url, data);
        let i = choose|i: int|
            Self::lookup_at(before, after, url, served, age, i);
        if i != j {
            if i < j {
                assert(before.spec_entries()[i].0 != before.spec_entries()[j].0);
            } else {
                assert(before.spec_entries()[j].0 != before.spec_entries()[i].0);
            }
        }
        if age >= before.spec_ttl_secs() {
            let s = after.spec_entries();
            assert forall|k: int| 0 <= k < s.len() implies #[trigger] s[k].0 != url by {
                let kk = if k < i { k } else { k + 1 };
                assert(s[k] == before.spec_entries()[kk]);
            }
        }
    }

    /// Stores `data` for `url` as inserted at `at`, unless the image is empty or
    /// the URL is already cached; the oldest entries make room first.
    pub fn put_at(&mut self, url: &str, data: Vec<u8>, at: Instant)
        requires
            old(self).wf(),
        ensures
            final(self).wf(),
            final(self).spec_max_entries() == old(self).spec_max_entries(),
            final(self).spec_ttl_secs() == old(self).spec_ttl_secs(),
            (data@.len() == 0 || old(self).has_url(url@)) ==> final(self).spec_entries()
                == old(self).spec_entries() && final(self).spec_stamps() == old(self).spec_stamps(),
            !(data@.len() == 0 || old(self).has_url(url@)) ==> {
                let keep = (old(self).spec_max_entries() - 1) as int;
                let old_len = old(self).spec_entries().len() as int;
                &&& old_len > keep ==> final(self).spec_entries() == old(self).spec_entries().skip(
                    old_len - keep,
                ).push((url@, data@)) && final(self).spec_stamps() == old(self).spec_stamps().skip(
                    old_len - keep,
                ).push(at)
                &&& old_len <= keep ==> final(self).spec_entries() == old(
                    self,
                ).spec_entries().push((url@, data@)) && final(self).spec_stamps() == old(
                    self,
                ).spec_stamps().push(at)
            },
    {
        if data.len() == 0 {
            return;
        }
        if self.find(url).is_some() {
            return;
        }
        let ghost before = self.spec_entries();
        let ghost stamps = self.spec_stamps();
        let ghost keep = (self.max_entries - 1) as int;
        let mut dropped: usize = 0;
        while self.entries.len() >= self.max_entries
            invariant
                self.max_entries >= 1,
                self.max_entries == old(self).max_entries,
                self.ttl_secs == old(self).ttl_secs,
                before == old(self).spec_entries(),
                keep == self.max_entries - 1,
                before.len() <= self.max_entries,
                dropped <= before.len(),
                self.spec_entries() == before.skip(dropped as int),
                stamps == old(self).spec_stamps(),
                self.spec_stamps() == stamps.skip(dropped as int),
                before.len() > keep ==> dropped <= before.len() - keep,
                before.len() <= keep ==> dropped == 0,
            decreases self.entries.len(),
        {
            let ghost cur = self.spec_entries();
            let ghost cur_stamps = self.spec_stamps();
            self.entries.remove(0);
            assert(self.spec_entries() =~= cur.subrange(1, cur.len() as int));
            assert(self.spec_stamps() =~= cur_stamps.subrange(1, cur_stamps.len() as int));
            dropped += 1;
            assert(before.skip(dropped as int) =~= cur.subrange(1, cur.len() as int));
            assert(stamps.skip(dropped as int) =~= cur_stamps.subrange(1, cur_stamps.len() as int));
        }
        let ghost mid = self.spec_entries();
        let ghost mid_stamps = self.spec_stamps();
        let url_owned = url.to_owned();
        let ghost d = data@;
        self.entries.push(CacheEntry { url: url_owned, data, inserted_at: at });
        proof {
            assert(self.spec_entries() =~= mid.push((url@, d)));
            assert(self.spec_stamps() =~= mid_stamps.push(at));
            if before.len() > keep {
                assert(dropped == before.len() - keep);
            }
            let s = self.spec_entries();
            assert forall|i: int, j: int| 0 <= i < j < s.len() implies #[trigger] s[i].0
                != #[trigger] s[j].0 by {
                if j == s.len() - 1 {
                    assert(s[i] == before[i + dropped]);
                    assert(!old(self).has_url(url@));
                    assert(before[i + dropped].0 != url@);
                } else {
                    assert(s[i] == before[i + dropped]);
                    assert(s[j] == before[j + dropped]);
                }
            }
            assert forall|i: int| 0 <= i < s.len() implies #[trigger] s[i].1.len() > 0 by {
                if i < s.len() - 1 {
                    assert(s[i] == before[i + dropped]);
                }
            }
        }
    }

    /// Stores `data` for `url` as inserted now.
    pub fn put(&mut self, url: &str, data: Vec<u8>)
        requires
            old(self).wf(),
        ensures
            final(self).wf(),
            final(self).spec_max_entries() == old(self).spec_max_entries(),
            final(self).spec_ttl_secs() == old(self).spec_ttl_secs(),
            (data@.len() == 0 || old(self).has_url(url@)) ==> final(self).spec_entries()
                == old(self).spec_entries(),
            !(data@.len() == 0 || old(self).has_url(url@)) ==> {
                let keep = (old(self).spec_max_entries() - 1) as int;
                let old_len = old(self).spec_entries().len() as int;
                &&& old_len > keep ==> final(self).spec_entries() == old(self).spec_entries().skip(
                    old_len - keep,
                ).push((url@, data@))
                &&& old_len <= keep ==> final(self).spec_entries() == old(
                    self,
                ).spec_entries().push((url@, data@))
            },
            !(data@.len() == 0 || old(self).has_url(url@)) ==> final(self).holds(url@, data@),
            (data@.len() == 0 || old(self).has_url(url@)) ==> final(self).spec_stamps() == old(
                self,
            ).spec_stamps(),
            !(data@.len() == 0 || old(self).has_url(url@)) ==> {
                let keep = (old(self).spec_max_entries() - 1) as int;
                let old_len = old(self).spec_entries().len() as int;
                &&& final(self).spec_stamps().len() > 0
                &&& final(self).spec_stamps().drop_last() == (if old_len > keep {
                    old(self).spec_stamps().skip(old_len - keep)
                } else {
                    old(self).spec_stamps()
                })
            },
    {
        let now = instant_now();
        let ghost d = data@;
        self.put_at(url, data, now);
        proof {
            if !(d.len() == 0 || old(self).has_url(url@)) {
                let s = self.spec_entries();
                assert(s[s.len() - 1] == (url@, d));
            }
        }
    }
}

/// A well-formed cache holds at most one image per URL.
pub proof fn lemma_one_image_per_url(c: ImageCache, url: Seq<char>, d1: Seq<u8>, d2: Seq<u8>)
    requires
        c.wf(),
        c.holds(url, d1),
        c.holds(url, d2),
    ensures
        d1 == d2,
{
    let i = choose|i: int| 0 <= i < c.spec_entries().len() && #[trigger] c.spec_entries()[i] == (url, d1);
    let j = choose|j: int| 0 <= j < c.spec_entries().len() && #[trigger] c.spec_entries()[j] == (url, d2);
    if i < j {
        assert(c.spec_entries()[i].0 != c.spec_entries()[j].0);
    } else if j < i {
        assert(c.spec_entries()[j].0 != c.spec_entries()[i].0);
    }
}

} // verus!
