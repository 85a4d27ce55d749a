//! The local catalog cache: the cards fetched so far, and how a newly
//! fetched catalog page is merged into them.
//!
//! The newest mods come first in the catalog. A sync fetches pages from the
//! first one on and stops at the page where it meets the card the cache
//! started with; the cards before it are new, and the ones from it on replace
//! what the cache held at those places.

use vstd::prelude::*;

use crate::models::{ModCard, ModListPage, ModRecord, is_card_of};
use crate::text::{decimal, push_decimal, push_str, str_eq};

verus! {

/// Records asked for per catalog page.
pub const API_PAGE_SIZE: u32 = 15;

/// What the cache knew at its last sync.
#[derive(Debug, Clone, Copy)]
pub struct CacheManifest {
    pub total_cards: usize,
    pub synced_at: u64,
}

/// The cached cards with the manifest of their last sync.
pub struct MetadataCache {
    pub cards: Vec<ModCard>,
    pub manifest: CacheManifest,
    pub path: String,
}

impl MetadataCache {
    /// A cache of `cards` stored at `path`.
    pub fn from_parts(cards: Vec<ModCard>, manifest: CacheManifest, path: String) -> (r: Self)
        ensures
            r.cards == cards,
            r.manifest == manifest,
            r.path@ == path@,
    {
        MetadataCache { cards, manifest, path }
    }

    /// Number of cached cards.
    pub fn len(&self) -> (r: usize)
        ensures
            r == self.cards@.len(),
    {
        self.cards.len()
    }

    /// The card at `index`, if there is one.
    pub fn get(&self, index: usize) -> (r: Option<&ModCard>)
        ensures
            index < self.cards@.len() ==> r == Some(&self.cards@[index as int]),
            index >= self.cards@.len() ==> r is None,
    {
        if index < self.cards.len() {
            Some(&self.cards[index])
        } else {
            None
        }
    }

    /// Total mods according to the last sync.
    pub fn total_mods(&self) -> (r: usize)
        ensures
            r == self.manifest.total_cards,
    {
        self.manifest.total_cards
    }

    /// The manifest of the last sync.
    pub fn manifest(&self) -> (r: CacheManifest)
        ensures
            r == self.manifest,
    {
        self.manifest
    }

    /// Where the cache is stored.
    pub fn path(&self) -> (r: &str)
        ensures
            r@ == self.path@,
    {
        self.path.as_str()
    }

    /// Whether the catalog changed since the cache was filled, given the id
    /// of the first record of the catalog's first page: unknown when that id
    /// or the cache's first card is missing.
    pub fn is_stale_given(&self, remote_first_id: Option<u64>) -> (r: Option<bool>)
        ensures
            r == stale_given(self.cards@, remote_first_id),
    {
        let rid = match remote_first_id {
            Some(rid) => rid,
            None => {
                return None;
            },
        };
        if self.cards.len() == 0 {
            return None;
        }
        Some(rid != self.cards[0].id)
    }
}

/// Whether cards are out of date against the catalog whose first page
/// starts with the record `remote_first_id`: unknown when that id or the
/// first card is missing, else whether the two ids differ.
pub open spec fn stale_given(cards: Seq<ModCard>, remote_first_id: Option<u64>) -> Option<bool> {
    match remote_first_id {
        Some(rid) => if cards.len() > 0 {
            Some(rid != cards[0].id)
        } else {
            None
        },
        None => None,
    }
}

/// The id of the first record of a page.
pub fn first_record_id(page: &ModListPage) -> (r: Option<u64>)
    ensures
        r == (if page.records@.len() > 0 {
            Some(page.records@[0].id)
        } else {
            None
        }),
{
    if page.records.len() > 0 {
        Some(page.records[0].id)
    } else {
        None
    }
}

/// Whether a record is kept: all are, unless adult content is filtered out.
pub open spec fn record_shown(r: ModRecord, filter_r18: bool) -> bool {
    !filter_r18 || !r.has_content_ratings
}

/// The cards of the records a page keeps, in order.
pub fn cards_from_records(records: Vec<ModRecord>, filter_r18: bool) -> (r: Vec<ModCard>)
    ensures
        r@.len() == records@.filter(|x: ModRecord| record_shown(x, filter_r18)).len(),
        forall|i: int|
            0 <= i < r@.len() ==> is_card_of(
                #[trigger] r@[i],
                records@.filter(|x: ModRecord| record_shown(x, filter_r18))[i],
            ),
{
    let ghost all = records@;
    let mut out: Vec<ModCard> = Vec::new();
    for rec in it: records
        invariant
            it.seq() == all,
            out@.len() == all.take(it.index() as int).filter(
                |x: ModRecord| record_shown(x, filter_r18),
            ).len(),
            forall|i: int|
                0 <= i < out@.len() ==> is_card_of(
                    #[trigger] out@[i],
                    all.take(it.index() as int).filter(|x: ModRecord| record_shown(x, filter_r18))[i],
                ),
    {
        let ghost k = it.index() as int;
        let ghost before = all.take(k).filter(|x: ModRecord| record_shown(x, filter_r18));
        proof {
            assert(all.take(k + 1).drop_last() =~= all.take(k));
            reveal_with_fuel(Seq::<ModRecord>::filter, 1);
        }
        if !filter_r18 || !rec.has_content_ratings {
            let ghost g = rec;
            out.push(ModCard::from_record(rec));
            proof {
                let after = all.take(k + 1).filter(|x: ModRecord| record_shown(x, filter_r18));
                assert(after == before.push(g));
                assert forall|i: int| 0 <= i < out@.len() implies is_card_of(
                    #[trigger] out@[i],
                    after[i],
                ) by {
                    if i < out@.len() - 1 {
                        assert(after[i] == before[i]);
                    }
                }
            }
        }
    }
    assert(all.take(all.len() as int) =~= all);
    out
}

/// Where, in freshly fetched cards, the card the cache starts with appears
/// (same id and name) first.
pub open spec fn overlap_at(cached: Seq<ModCard>, new: Seq<ModCard>, pos: int) -> bool {
    &&& cached.len() > 0
    &&& 0 <= pos < new.len()
    &&& new[pos].id == cached[0].id && new[pos].name@ == cached[0].name@
    &&& forall|j: int|
        0 <= j < pos ==> !((#[trigger] new[j]).id == cached[0].id && new[j].name@ == cached[0].name@)
}

/// The cards after merging a page that overlaps the cache at `pos`: the new
/// cards, then what the cache held past the ones they replace.
pub open spec fn merged_at(cached: Seq<ModCard>, new: Seq<ModCard>, pos: int) -> Seq<ModCard> {
    let replaced = new.len() - pos;
    if replaced <= cached.len() {
        new + cached.skip(replaced)
    } else {
        new
    }
}

/// The cards after merging a fetched page: merged at the place where the page
/// meets the cache, or appended when it does not meet it.
pub open spec fn merged_cards(cached: Seq<ModCard>, new: Seq<ModCard>) -> Seq<ModCard> {
    if exists|pos: int| overlap_at(cached, new, pos) {
        merged_at(cached, new, choose|pos: int| overlap_at(cached, new, pos))
    } else {
        cached + new
    }
}

/// A page meets the cache at one place at most: the first card like the
/// cache's first one.
pub proof fn lemma_overlap_unique(cached: Seq<ModCard>, new: Seq<ModCard>, p: int, q: int)
    requires
        overlap_at(cached, new, p),
        overlap_at(cached, new, q),
    ensures
        p == q,
{
    if p < q {
        assert(!((new[p]).id == cached[0].id && new[p].name@ == cached[0].name@));
    } else if q < p {
        assert(!((new[q]).id == cached[0].id && new[q].name@ == cached[0].name@));
    }
}

fn same_head(c: &ModCard, head: &ModCard) -> (r: bool)
    ensures
        r == (c.id == head.id && c.name@ == head.name@),
{
    c.id == head.id && str_eq(c.name.as_str(), head.name.as_str())
}

/// Merges a fetched page's cards into the cache; tells whether the page met
/// the cached cards (the sync is then complete). A page that does not meet
/// them is appended.
pub fn merge_page(cards: &mut Vec<ModCard>, new: Vec<ModCard>) -> (matched: bool)
    ensures
        matched == exists|pos: int| overlap_at(old(cards)@, new@, pos),
        matched ==> exists|pos: int|
            overlap_at(old(cards)@, new@, pos) && final(cards)@ == merged_at(old(cards)@, new@, pos),
        !matched ==> final(cards)@ == old(cards)@ + new@,
        final(cards)@ == merged_cards(old(cards)@, new@),
{
    let ghost cached = cards@;
    let mut pos: usize = 0;
    let mut found = false;
    if cards.len() > 0 {
        while pos < new.len() && !same_head(&new[pos], &cards[0])
            invariant
                0 <= pos <= new@.len(),
                cards@ == cached,
                cached.len() > 0,
                forall|j: int|
                    0 <= j < pos ==> !((#[trigger] new@[j]).id == cached[0].id && new@[j].name@
                        == cached[0].name@),
            decreases new.len() - pos,
        {
            pos += 1;
        }
        found = pos < new.len();
    }
    if !found {
        proof {
            assert forall|p: int| !overlap_at(cached, new@, p) by {}
        }
        let mut rest = new;
        cards.append(&mut rest);
        return false;
    }
    assert(overlap_at(cached, new@, pos as int));
    proof {
        let c = choose|p: int| overlap_at(cached, new@, p);
        lemma_overlap_unique(cached, new@, c, pos as int);
    }
    let replaced = new.len() - pos;
    let mut out: Vec<ModCard> = new;
    if replaced <= cards.len() {
        let mut j: usize = replaced;
        while j < cards.len()
            invariant
                replaced <= j <= cards@.len(),
                cards@ == cached,
                out@ =~= new@ + cached.subrange(replaced as int, j as int),
            decreases cards.len() - j,
        {
            out.push(cards[j].clone_card());
            j += 1;
        }
        assert(cached.skip(replaced as int) =~= cached.subrange(replaced as int, cached.len() as int));
    }
    *cards = out;
    true
}

impl ModCard {
    /// A copy of the card.
    pub fn clone_card(&self) -> (r: Self)
        ensures
            r == *self,
    {
        ModCard {
            id: self.id,
            name: self.name.clone(),
            author: self.author.clone(),
            category: self.category.clone(),
            subcategory: crate::models::clone_opt_string(&self.subcategory),
            likes: self.likes,
            views: self.views,
            date_added: self.date_added,
            date_modified: self.date_modified,
            local_cover_path: crate::models::clone_opt_string(&self.local_cover_path),
            thumbnail_url: crate::models::clone_opt_string(&self.thumbnail_url),
            cover_url: crate::models::clone_opt_string(&self.cover_url),
            is_r18: self.is_r18,
            has_files: self.has_files,
            profile_url: self.profile_url.clone(),
        }
    }
}

/// Where a sync stands: the page to ask for next. The cursor moves only when a
/// page was fetched, so a page whose request failed is asked for again.
pub struct SyncCursor {
    page: u32,
}

impl SyncCursor {
    pub closed spec fn spec_page(&self) -> u32 {
        self.page
    }

    /// A sync that starts at the first page.
    pub fn new() -> (r: Self)
        ensures
            r.spec_page() == 1,
    {
        SyncCursor { page: 1 }
    }

    /// The page to fetch next. Nothing moves until `advance` is called, so
    /// after a failed request the same page comes back.
    pub fn next_page(&self) -> (r: u32)
        ensures
            r == self.spec_page(),
    {
        self.page
    }

    /// The page was fetched: move on to the next.
    pub fn advance(&mut self)
        requires
            old(self).spec_page() < u32::MAX,
        ensures
            final(self).spec_page() == old(self).spec_page() + 1,
    {
        self.page = self.page + 1;
    }

    /// The page the sync is at.
    pub fn current_page(&self) -> (r: u32)
        ensures
            r == self.spec_page(),
    {
        self.page
    }

    /// Pages fetched so far, for the progress report: the current page less one.
    pub fn pages_done(&self) -> (r: u32)
        requires
            self.spec_page() >= 1,
        ensures
            r == self.spec_page() - 1,
    {
        self.page - 1
    }
}

/// Whether a sync stops after a page: the catalog ran out, the page kept no
/// card, or it met the cached cards.
pub fn sync_done(api_exhausted: bool, kept: usize, matched: bool) -> (r: bool)
    ensures
        r == (api_exhausted || kept == 0 || matched),
{
    api_exhausted || kept == 0 || matched
}

/// The line logged for a fetched page: its number, the raw and kept counts,
/// the cards held before it, and the first three kept cards.
pub open spec fn page_line(page: u32, raw: usize, kept: usize, held: usize) -> Seq<char> {
    "page="@ + decimal(page as nat) + " raw="@ + decimal(raw as nat) + " filtered="@ + decimal(
        kept as nat,
    ) + " 累计"@ + decimal(held as nat) + "条"@
}

pub open spec fn card_line(i: nat, c: ModCard) -> Seq<char> {
    "\n  new["@ + decimal(i) + "] id="@ + decimal(c.id as nat) + " name=\""@ + c.name@ + "\""@
}

pub open spec fn card_lines(cards: Seq<ModCard>, n: nat) -> Seq<char>
    decreases n,
{
    if n == 0 {
        Seq::empty()
    } else {
        card_lines(cards, (n - 1) as nat) + card_line((n - 1) as nat, cards[n - 1])
    }
}

pub fn page_info(page: u32, raw: usize, held: usize, new: &Vec<ModCard>) -> (r: String)
    ensures
        r@ == page_line(page, raw, new@.len() as usize, held) + card_lines(
            new@,
            if new@.len() < 3 {
                new@.len()
            } else {
                3
            },
        ),
{
    let mut r = "page=".to_owned();
    push_decimal(&mut r, page as u64);
    push_str(&mut r, " raw=");
    push_decimal(&mut r, raw as u64);
    push_str(&mut r, " filtered=");
    push_decimal(&mut r, new.len() as u64);
    push_str(&mut r, " 累计");
    push_decimal(&mut r, held as u64);
    push_str(&mut r, "条");
    let ghost head = r@;
    let n: usize = if new.len() < 3 {
        new.len()
    } else {
        3
    };
    let mut i: usize = 0;
    while i < n
        invariant
            0 <= i <= n <= new@.len(),
            n <= 3,
            r@ == head + card_lines(new@, i as nat),
        decreases n - i,
    {
        push_str(&mut r, "\n  new[");
        push_decimal(&mut r, i as u64);
        push_str(&mut r, "] id=");
        push_decimal(&mut r, new[i].id);
        push_str(&mut r, " name=\"");
        push_str(&mut r, new[i].name.as_str());
        push_str(&mut r, "\"");
        proof {
            assert(card_lines(new@, (i + 1) as nat) == card_lines(new@, i as nat) + card_line(
                i as nat,
                new@[i as int],
            ));
        }
        i += 1;
    }
    r
}

/// A sync page made of new cards followed by the cache's own first cards
/// puts the new cards in front of the whole cache: nothing is lost or
/// doubled. (With no new cards the cache stays as it was.)
pub proof fn lemma_merge_prepends_new_cards(cached: Seq<ModCard>, fresh: Seq<ModCard>, m: int)
    requires
        0 < m <= cached.len(),
        forall|j: int|
            0 <= j < fresh.len() ==> !((#[trigger] fresh[j]).id == cached[0].id && fresh[j].name@
                == cached[0].name@),
    ensures
        overlap_at(cached, fresh + cached.take(m), fresh.len() as int),
        merged_at(cached, fresh + cached.take(m), fresh.len() as int) == fresh + cached,
{
    let new = fresh + cached.take(m);
    assert(new[fresh.len() as int] == cached[0]);
    assert forall|j: int| 0 <= j < fresh.len() implies !((#[trigger] new[j]).id == cached[0].id
        && new[j].name@ == cached[0].name@) by {
        assert(new[j] == fresh[j]);
    }
    assert(new + cached.skip(m) =~= fresh + cached);
}

/// Right after the catalog's first page has been merged into the cache, the
/// cache is fresh against that catalog: when the page's first record is kept
/// (not filtered out) and the cache was empty or the page meets it (as it
/// does when the catalog is unchanged), the merged cards start with that
/// record, so the freshness check finds nothing changed.
pub proof fn lemma_fresh_after_first_page(
    cached: Seq<ModCard>,
    records: Seq<ModRecord>,
    fresh: Seq<ModCard>,
    filter_r18: bool,
)
    requires
        records.len() > 0,
        record_shown(records[0], filter_r18),
        fresh.len() == records.filter(|x: ModRecord| record_shown(x, filter_r18)).len(),
        forall|i: int|
            0 <= i < fresh.len() ==> is_card_of(
                #[trigger] fresh[i],
                records.filter(|x: ModRecord| record_shown(x, filter_r18))[i],
            ),
        cached.len() == 0 || exists|pos: int| overlap_at(cached, fresh, pos),
    ensures
        merged_cards(cached, fresh).len() > 0,
        merged_cards(cached, fresh)[0] == fresh[0],
        merged_cards(cached, fresh)[0].id == records[0].id,
        stale_given(merged_cards(cached, fresh), Some(records[0].id)) == Some(false),
{
    let pred = |x: ModRecord| record_shown(x, filter_r18);
    let head = seq![records[0]];
    let tail = records.skip(1);
    assert(records =~= head + tail);
    Seq::filter_distributes_over_add(head, tail, pred);
    reveal_with_fuel(Seq::<ModRecord>::filter, 2);
    assert(head.drop_last() =~= Seq::<ModRecord>::empty());
    assert(head.filter(pred) =~= seq![records[0]]);
    assert(records.filter(pred)[0] == records[0]);
    assert(is_card_of(fresh[0], records.filter(pred)[0]));
    if exists|pos: int| overlap_at(cached, fresh, pos) {
        let p = choose|pos: int| overlap_at(cached, fresh, pos);
        assert(merged_cards(cached, fresh) == merged_at(cached, fresh, p));
        assert(merged_at(cached, fresh, p)[0] == fresh[0]);
    } else {
        assert(cached.len() == 0);
        assert(merged_cards(cached, fresh) =~= fresh);
    }
}

/// A later page that does not meet the cache is appended: the cache keeps
/// its first card, and with it what the freshness check says.
pub proof fn lemma_later_page_keeps_head(cards: Seq<ModCard>, new: Seq<ModCard>, remote: Option<u64>)
    requires
        cards.len() > 0,
        !exists|pos: int| overlap_at(cards, new, pos),
    ensures
        merged_cards(cards, new)[0] == cards[0],
        stale_given(merged_cards(cards, new), remote) == stale_given(cards, remote),
{
    assert(merged_cards(cards, new) == cards + new);
}

/// The cards after a sync that fetched `pages`, in order: each page is
/// merged in, and the sync stops at the first page that meets the cache.
pub open spec fn sync_cards(cards: Seq<ModCard>, pages: Seq<Seq<ModCard>>) -> Seq<ModCard>
    decreases pages.len(),
{
    if pages.len() == 0 {
        cards
    } else if exists|pos: int| overlap_at(cards, pages[0], pos) {
        merged_cards(cards, pages[0])
    } else {
        sync_cards(merged_cards(cards, pages[0]), pages.skip(1))
    }
}

/// No card of `pages` has the id and name of `head`.
pub open spec fn pages_without(pages: Seq<Seq<ModCard>>, head: ModCard) -> bool {
    forall|i: int, j: int|
        0 <= i < pages.len() && 0 <= j < pages[i].len() ==> !((#[trigger] pages[i][j]).id == head.id
            && pages[i][j].name@ == head.name@)
}

/// Pages that never show the cache's first card leave it first.
pub proof fn lemma_sync_keeps_head(cards: Seq<ModCard>, pages: Seq<Seq<ModCard>>)
    requires
        cards.len() > 0,
        pages_without(pages, cards[0]),
    ensures
        sync_cards(cards, pages).len() > 0,
        sync_cards(cards, pages)[0] == cards[0],
    decreases pages.len(),
{
    if pages.len() > 0 {
        assert forall|pos: int| !overlap_at(cards, pages[0], pos) by {
            if 0 <= pos < pages[0].len() {
                assert(!((pages[0][pos]).id == cards[0].id && pages[0][pos].name@ == cards[0].name@));
            }
        }
        lemma_later_page_keeps_head(cards, pages[0], None);
        let m = merged_cards(cards, pages[0]);
        assert(m == cards + pages[0]);
        let rest = pages.skip(1);
        assert forall|i: int, j: int| 0 <= i < rest.len() && 0 <= j < rest[i].len() implies !((
        #[trigger] rest[i][j]).id == m[0].id && rest[i][j].name@ == m[0].name@) by {
            assert(rest[i] == pages[i + 1]);
        }
        lemma_sync_keeps_head(m, rest);
    }
}

/// Right after a sync of an unchanged catalog, the freshness check finds
/// nothing changed: the sync fetched the catalog's pages from the first on,
/// the first page's first record is kept (not filtered out) and meets the
/// cache unless the cache was empty, and no later page shows that record
/// again.
pub proof fn lemma_fresh_after_sync(
    cached: Seq<ModCard>,
    records: Seq<ModRecord>,
    pages: Seq<Seq<ModCard>>,
    filter_r18: bool,
)
    requires
        pages.len() > 0,
        records.len() > 0,
        record_shown(records[0], filter_r18),
        pages[0].len() == records.filter(|x: ModRecord| record_shown(x, filter_r18)).len(),
        forall|i: int|
            0 <= i < pages[0].len() ==> is_card_of(
                #[trigger] pages[0][i],
                records.filter(|x: ModRecord| record_shown(x, filter_r18))[i],
            ),
        cached.len() == 0 || exists|pos: int| overlap_at(cached, pages[0], pos),
        pages_without(pages.skip(1), pages[0][0]),
    ensures
        stale_given(sync_cards(cached, pages), Some(records[0].id)) == Some(false),
{
    lemma_fresh_after_first_page(cached, records, pages[0], filter_r18);
    let m = merged_cards(cached, pages[0]);
    if !(exists|pos: int| overlap_at(cached, pages[0], pos)) {
        lemma_sync_keeps_head(m, pages.skip(1));
    }
}

} // verus!
