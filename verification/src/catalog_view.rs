//! What the catalog and local lists show: which cards pass the filters, how
//! the catalog is cut into pages of rows, and how local entries borrow
//! missing details from the cached cards.

use std::collections::HashSet;

use vstd::prelude::*;

use crate::cache::MetadataCache;
use crate::models::{InstalledMod, ModCard, clone_opt_string};
use crate::name_query::{NameQuery, parse_all, parse_hangs, query_accepts, kept_ops};
use crate::text::str_eq;

verus! {

broadcast use vstd::std_specs::hash::group_hash_axioms;

/// Columns of the catalog grid.
pub const COLS: usize = 4;

/// Rows of the catalog grid.
pub const ROWS: usize = 4;

/// Cards on one catalog page.
pub const SLOTS: usize = 16;

/// How far the previous and next buttons move.
pub const PAGE_STEP: usize = 16;

/// The age filter: 0 shows all, 1 hides adult cards, 2 shows only them.
pub open spec fn age_ok(age: u32, is_r18: bool) -> bool {
    !(age == 1 && is_r18) && !(age == 2 && !is_r18)
}

/// A three-way filter on a flag: 0 all, 1 only set, 2 only unset.
pub open spec fn flag_ok(filter: u32, flag: bool) -> bool {
    !(filter == 1 && !flag) && !(filter == 2 && flag)
}

/// The category and subcategory filters (an empty name is "any").
pub open spec fn category_ok(
    category: Seq<char>,
    subcategory: Option<String>,
    cat_name: Seq<char>,
    sub_name: Seq<char>,
) -> bool {
    &&& (cat_name.len() == 0 || category == cat_name)
    &&& (sub_name.len() == 0 || (subcategory matches Some(s) && s@ == sub_name))
}

/// Whether a catalog card passes every filter but the name query.
pub open spec fn card_passes(
    card: ModCard,
    age: u32,
    downloaded: u32,
    cat_name: Seq<char>,
    sub_name: Seq<char>,
    installed: Set<u64>,
) -> bool {
    &&& age_ok(age, card.is_r18)
    &&& flag_ok(downloaded, installed.contains(card.id))
    &&& category_ok(card.category@, card.subcategory, cat_name, sub_name)
}

fn subcategory_is(sub: &Option<String>, name: &str) -> (r: bool)
    ensures
        r == (sub matches Some(s) && s@ == name@),
{
    match sub {
        Some(s) => str_eq(s.as_str(), name),
        None => false,
    }
}

/// Whether a catalog card passes the filters and the name query.
pub fn card_matches_filters(
    card: &ModCard,
    age: u32,
    downloaded: u32,
    cat_name: &str,
    sub_name: &str,
    query: &NameQuery,
    installed_ids: &HashSet<u64>,
) -> (r: bool)
    ensures
        r == (card_passes(*card, age, downloaded, cat_name@, sub_name@, installed_ids@)
            && query_accepts(query.spec_matchers(), query.spec_ops(), card.name@)),
{
    if age == 1 && card.is_r18 {
        return false;
    }
    if age == 2 && !card.is_r18 {
        return false;
    }
    let is_downloaded = installed_ids.contains(&card.id);
    if downloaded == 1 && !is_downloaded {
        return false;
    }
    if downloaded == 2 && is_downloaded {
        return false;
    }
    if !cat_name.is_empty() && !str_eq(card.category.as_str(), cat_name) {
        return false;
    }
    if !sub_name.is_empty() && !subcategory_is(&card.subcategory, sub_name) {
        return false;
    }
    query.matches(card.name.as_str())
}

/// The name chosen in a list by index: index 0 ("any") and indices past the
/// end choose nothing (the empty name).
pub fn chosen_name(index: usize, names: &[String]) -> (r: &str)
    ensures
        r@ == (if index > 0 && index < names@.len() {
            names@[index as int]@
        } else {
            Seq::<char>::empty()
        }),
{
    if index > 0 && index < names.len() {
        names[index].as_str()
    } else {
        proof {
            reveal_strlit("");
        }
        ""
    }
}

/// The query of a search text, as the catalog page applies it.
pub open spec fn search_query_ok(q: NameQuery, search: Seq<char>) -> bool {
    q.spec_matchers() == parse_all(search).0 && q.spec_ops() == kept_ops(
        parse_all(search).0,
        parse_all(search).1,
    )
}

/// Whether card `c` is shown for the chosen filters and search text.
pub open spec fn card_shown(
    c: ModCard,
    age: u32,
    downloaded: u32,
    cat_name: Seq<char>,
    sub_name: Seq<char>,
    search: Seq<char>,
    installed: Set<u64>,
) -> bool {
    card_passes(c, age, downloaded, cat_name, sub_name, installed) && query_accepts(
        parse_all(search).0,
        kept_ops(parse_all(search).0, parse_all(search).1),
        c.name@,
    )
}

/// `r` lists, in increasing order, exactly the positions of the cached cards
/// shown for the filters (category and subcategory chosen by index into
/// their lists, zero or out of range meaning any).
pub open spec fn shown_positions(
    cards: Seq<ModCard>,
    age: u32,
    cat: usize,
    sub: usize,
    downloaded: u32,
    cats: Seq<String>,
    subs: Seq<String>,
    search: Seq<char>,
    installed: Set<u64>,
    r: Seq<usize>,
) -> bool {
    let cat_name = if cat > 0 && cat < cats.len() {
        cats[cat as int]@
    } else {
        Seq::<char>::empty()
    };
    let sub_name = if sub > 0 && sub < subs.len() {
        subs[sub as int]@
    } else {
        Seq::<char>::empty()
    };
    &&& forall|a: int, b: int| 0 <= a < b < r.len() ==> r[a] < r[b]
    &&& forall|i: int|
        0 <= i < r.len() ==> (#[trigger] r[i]) < cards.len() && card_shown(
            cards[r[i] as int],
            age,
            downloaded,
            cat_name,
            sub_name,
            search,
            installed,
        )
    &&& forall|j: int|
        0 <= j < cards.len() && card_shown(
            #[trigger] cards[j],
            age,
            downloaded,
            cat_name,
            sub_name,
            search,
            installed,
        ) ==> r.contains(j as usize)
    &&& r.len() == cards.filter(
        |c: ModCard| card_shown(c, age, downloaded, cat_name, sub_name, search, installed),
    ).len()
}

/// The cards shown for the filters (see `filter_cards`), or `None` for a
/// search text that holds something but no word, which the search cannot
/// read to an end.
pub fn try_filter_cards(
    cache: &MetadataCache,
    age: u32,
    cat: usize,
    sub: usize,
    downloaded: u32,
    cats: &[String],
    subs: &[String],
    search: &str,
    installed_ids: &HashSet<u64>,
) -> (r: Option<Vec<usize>>)
    ensures
        parse_hangs(search@) ==> r is None,
        !parse_hangs(search@) ==> (r matches Some(v) && shown_positions(
            cache.cards@,
            age,
            cat,
            sub,
            downloaded,
            cats@,
            subs@,
            search@,
            installed_ids@,
            v@,
        )),
{
    match NameQuery::try_parse(search) {
        None => None,
        Some(_) => Some(filter_cards(cache, age, cat, sub, downloaded, cats, subs, search, installed_ids)),
    }
}

/// The positions, in the cache, of the cards shown for the filters: the
/// category and subcategory are chosen by index into their lists. (A search
/// text holding something but no word is left out: reading it never ends.)
pub fn filter_cards(
    cache: &MetadataCache,
    age: u32,
    cat: usize,
    sub: usize,
    downloaded: u32,
    cats: &[String],
    subs: &[String],
    search: &str,
    installed_ids: &HashSet<u64>,
) -> (r: Vec<usize>)
    requires
        !parse_hangs(search@),
    ensures
        ({
            let cat_name = if cat > 0 && cat < cats@.len() {
                cats@[cat as int]@
            } else {
                Seq::<char>::empty()
            };
            let sub_name = if sub > 0 && sub < subs@.len() {
                subs@[sub as int]@
            } else {
                Seq::<char>::empty()
            };
            &&& forall|a: int, b: int| 0 <= a < b < r@.len() ==> r@[a] < r@[b]
            &&& forall|i: int|
                0 <= i < r@.len() ==> (#[trigger] r@[i]) < cache.cards@.len() && card_shown(
                    cache.cards@[r@[i] as int],
                    age,
                    downloaded,
                    cat_name,
                    sub_name,
                    search@,
                    installed_ids@,
                )
            &&& forall|j: int|
                0 <= j < cache.cards@.len() && card_shown(
                    #[trigger] cache.cards@[j],
                    age,
                    downloaded,
                    cat_name,
                    sub_name,
                    search@,
                    installed_ids@,
                ) ==> r@.contains(j as usize)
            &&& r@.len() == cache.cards@.filter(
                |c: ModCard| card_shown(c, age, downloaded, cat_name, sub_name, search@, installed_ids@),
            ).len()
        }),
{
    let cat_name = chosen_name(cat, cats);
    let sub_name = chosen_name(sub, subs);
    let query = NameQuery::parse(search);
    let mut out: Vec<usize> = Vec::new();
    let mut j: usize = 0;
    while j < cache.cards.len()
        invariant
            0 <= j <= cache.cards@.len(),
            search_query_ok(query, search@),
            forall|a: int, b: int| 0 <= a < b < out@.len() ==> out@[a] < out@[b],
            forall|i: int| 0 <= i < out@.len() ==> (#[trigger] out@[i]) < j,
            forall|i: int|
                0 <= i < out@.len() ==> card_shown(
                    cache.cards@[(#[trigger] out@[i]) as int],
                    age,
                    downloaded,
                    cat_name@,
                    sub_name@,
                    search@,
                    installed_ids@,
                ),
            forall|k: int|
                0 <= k < j && card_shown(
                    #[trigger] cache.cards@[k],
                    age,
                    downloaded,
                    cat_name@,
                    sub_name@,
                    search@,
                    installed_ids@,
                ) ==> out@.contains(k as usize),
        decreases cache.cards@.len() - j,
    {
        let ghost before = out@;
        if card_matches_filters(&cache.cards[j], age, downloaded, cat_name, sub_name, &query, installed_ids) {
            out.push(j);
            proof {
                assert(out@[out@.len() - 1] == j);
            }
        }
        proof {
            assert forall|k: int|
                0 <= k < j + 1 && card_shown(
                    #[trigger] cache.cards@[k],
                    age,
                    downloaded,
                    cat_name@,
                    sub_name@,
                    search@,
                    installed_ids@,
                ) implies out@.contains(k as usize) by {
                if k < j {
                    let idx = choose|idx: int| 0 <= idx < before.len() && before[idx] == k as usize;
                    assert(out@[idx] == before[idx]);
                } else {
                    assert(out@[out@.len() - 1] == j);
                }
            }
        }
        j += 1;
    }
    proof {
        lemma_count_matches_list(
            cache.cards@,
            age,
            downloaded,
            cat_name@,
            sub_name@,
            search@,
            installed_ids@,
            out@,
        );
    }
    out
}

/// `r` lists, in increasing order, exactly the positions of `s` whose
/// element satisfies `pred`.
pub open spec fn enumerates(s: Seq<ModCard>, pred: spec_fn(ModCard) -> bool, r: Seq<usize>) -> bool {
    &&& s.len() <= usize::MAX
    &&& forall|a: int, b: int| 0 <= a < b < r.len() ==> r[a] < r[b]
    &&& forall|i: int| 0 <= i < r.len() ==> (#[trigger] r[i]) < s.len() && pred(s[r[i] as int])
    &&& forall|j: int| 0 <= j < s.len() && pred(#[trigger] s[j]) ==> r.contains(j as usize)
}

proof fn lemma_enumeration_len(s: Seq<ModCard>, pred: spec_fn(ModCard) -> bool, r: Seq<usize>)
    requires
        enumerates(s, pred, r),
    ensures
        r.len() == s.filter(pred).len(),
    decreases s.len(),
{
    reveal_with_fuel(Seq::<ModCard>::filter, 1);
    if s.len() == 0 {
        if r.len() > 0 {
            assert(r[0] < s.len());
        }
    } else {
        let n = (s.len() - 1) as int;
        let s2 = s.drop_last();
        if pred(s[n]) {
            assert(r.contains(n as usize));
            let k = choose|k: int| 0 <= k < r.len() && r[k] == n as usize;
            let last = r.len() - 1;
            if k < last {
                assert(r[k] < r[last]);
                assert(r[last] < s.len());
            }
            assert(r[last] == n as usize);
            let r2 = r.drop_last();
            assert forall|j: int| 0 <= j < s2.len() && pred(#[trigger] s2[j]) implies r2.contains(j as usize) by {
                assert(s2[j] == s[j]);
                assert(r.contains(j as usize));
                let m = choose|m: int| 0 <= m < r.len() && r[m] == j as usize;
                assert(j < n);
                assert(m != last);
                assert(r2[m] == r[m]);
            }
            assert forall|i: int| 0 <= i < r2.len() implies (#[trigger] r2[i]) < s2.len() && pred(s2[r2[i] as int]) by {
                assert(r2[i] == r[i]);
                assert(r[i] < r[last]);
            }
            lemma_enumeration_len(s2, pred, r2);
        } else {
            assert forall|i: int| 0 <= i < r.len() implies (#[trigger] r[i]) < s2.len() && pred(s2[r[i] as int]) by {
                assert(r[i] != n);
            }
            assert forall|j: int| 0 <= j < s2.len() && pred(#[trigger] s2[j]) implies r.contains(j as usize) by {
                assert(s2[j] == s[j]);
            }
            lemma_enumeration_len(s2, pred, r);
        }
    }
}

/// The count of shown cards (as `count_filt` gives it) is the length of the
/// list of their positions (as `filter_cards` gives it), so the page count
/// and the pages agree.
pub proof fn lemma_count_matches_list(
    cards: Seq<ModCard>,
    age: u32,
    downloaded: u32,
    cat_name: Seq<char>,
    sub_name: Seq<char>,
    search: Seq<char>,
    installed: Set<u64>,
    r: Seq<usize>,
)
    requires
        enumerates(
            cards,
            |c: ModCard| card_shown(c, age, downloaded, cat_name, sub_name, search, installed),
            r,
        ),
    ensures
        r.len() == cards.filter(
            |c: ModCard| card_shown(c, age, downloaded, cat_name, sub_name, search, installed),
        ).len(),
{
    lemma_enumeration_len(
        cards,
        |c: ModCard| card_shown(c, age, downloaded, cat_name, sub_name, search, installed),
        r,
    );
}

/// The number of cards shown for the filters (see `count_filt`), or `None`
/// for a search text the search cannot read to an end.
pub fn try_count_filt(
    cache: &MetadataCache,
    age: u32,
    cat: usize,
    sub: usize,
    downloaded: u32,
    cats: &[String],
    subs: &[String],
    search: &str,
    installed_ids: &HashSet<u64>,
) -> (r: Option<usize>)
    ensures
        parse_hangs(search@) ==> r is None,
        !parse_hangs(search@) ==> r == Some(
            cache.cards@.filter(
                |c: ModCard|
                    card_shown(
                        c,
                        age,
                        downloaded,
                        if cat > 0 && cat < cats@.len() {
                            cats@[cat as int]@
                        } else {
                            Seq::<char>::empty()
                        },
                        if sub > 0 && sub < subs@.len() {
                            subs@[sub as int]@
                        } else {
                            Seq::<char>::empty()
                        },
                        search@,
                        installed_ids@,
                    ),
            ).len() as usize,
        ),
{
    match NameQuery::try_parse(search) {
        None => None,
        Some(_) => Some(count_filt(cache, age, cat, sub, downloaded, cats, subs, search, installed_ids)),
    }
}

/// The number of cards shown for the filters (see `filter_cards`).
pub fn count_filt(
    cache: &MetadataCache,
    age: u32,
    cat: usize,
    sub: usize,
    downloaded: u32,
    cats: &[String],
    subs: &[String],
    search: &str,
    installed_ids: &HashSet<u64>,
) -> (r: usize)
    requires
        !parse_hangs(search@),
    ensures
        ({
            let cat_name = if cat > 0 && cat < cats@.len() {
                cats@[cat as int]@
            } else {
                Seq::<char>::empty()
            };
            let sub_name = if sub > 0 && sub < subs@.len() {
                subs@[sub as int]@
            } else {
                Seq::<char>::empty()
            };
            r == cache.cards@.filter(
                |c: ModCard| card_shown(c, age, downloaded, cat_name, sub_name, search@, installed_ids@),
            ).len()
        }),
{
    let cat_name = chosen_name(cat, cats);
    let sub_name = chosen_name(sub, subs);
    let query = NameQuery::parse(search);
    let ghost pred = |c: ModCard|
        card_shown(c, age, downloaded, cat_name@, sub_name@, search@, installed_ids@);
    let mut n: usize = 0;
    let mut j: usize = 0;
    while j < cache.cards.len()
        invariant
            0 <= j <= cache.cards@.len(),
            search_query_ok(query, search@),
            pred == (|c: ModCard|
                card_shown(c, age, downloaded, cat_name@, sub_name@, search@, installed_ids@)),
            n == cache.cards@.take(j as int).filter(pred).len(),
            n <= j,
        decreases cache.cards@.len() - j,
    {
        proof {
            assert(cache.cards@.take(j + 1).drop_last() =~= cache.cards@.take(j as int));
            reveal_with_fuel(Seq::<ModCard>::filter, 1);
        }
        if card_matches_filters(&cache.cards[j], age, downloaded, cat_name, sub_name, &query, installed_ids) {
            n += 1;
        }
        j += 1;
    }
    assert(cache.cards@.take(cache.cards@.len() as int) =~= cache.cards@);
    n
}

// ─── Pages ───────────────────────────────────────────────────

/// The page indicator and buttons for `total` cards seen from `offset`.
#[derive(Debug, Clone, Copy, PartialEq, Eq, Structural)]
pub struct PageNav {
    pub page: usize,
    pub total_pages: usize,
    pub has_prev: bool,
    pub has_next: bool,
}

/// The offset of the last page for `total` cards.
pub open spec fn last_offset(total: usize) -> int {
    (if total > 0 {
        total - 1
    } else {
        0
    }) / (PAGE_STEP as int) * (PAGE_STEP as int)
}

pub fn page_nav(total: usize, offset: usize) -> (r: PageNav)
    ensures
        r.page == offset / PAGE_STEP + 1,
        r.total_pages == (if total > 0 {
            (total + PAGE_STEP - 1) / (PAGE_STEP as int)
        } else {
            1
        }),
        r.has_prev == (offset > 0),
        r.has_next == (offset < last_offset(total)),
{
    let total_pages = if total > 0 {
        total / PAGE_STEP + if total % PAGE_STEP == 0 {
            0
        } else {
            1
        }
    } else {
        1
    };
    proof {
        if total > 0 {
            assert(total / 16 + (if total % 16 == 0 {
                0int
            } else {
                1int
            }) == (total + 16 - 1) / 16) by (nonlinear_arith)
                requires
                    total > 0,
            ;
        }
    }
    let max_off = total.saturating_sub(1) / PAGE_STEP * PAGE_STEP;
    PageNav { page: offset / PAGE_STEP + 1, total_pages, has_prev: offset > 0, has_next: offset < max_off }
}

/// The grid of the page from `offset`: rows of `COLS` slots, each holding
/// the position (in the filtered list) of the card shown there, or nothing
/// past the end; as many rows as the page's cards need.
pub open spec fn page_cards(len: usize, offset: usize) -> int {
    let left = if len > offset {
        len - offset
    } else {
        0
    };
    if left < SLOTS {
        left
    } else {
        SLOTS as int
    }
}

pub fn page_rows(len: usize, offset: usize) -> (r: Vec<Vec<Option<usize>>>)
    ensures
        r@.len() == (page_cards(len, offset) + COLS - 1) / (COLS as int),
        forall|i: int|
            0 <= i < r@.len() ==> (#[trigger] r@[i])@.len() == COLS && forall|c: int|
                0 <= c < COLS ==> (#[trigger] r@[i]@[c]) == (if offset + i * (COLS as int) + c
                    < len {
                    Some((offset + i * (COLS as int) + c) as usize)
                } else {
                    None
                }),
{
    let left = len.saturating_sub(offset);
    let cards_on_page = if left < SLOTS {
        left
    } else {
        SLOTS
    };
    let needed_rows = (cards_on_page + COLS - 1) / COLS;
    let mut rows: Vec<Vec<Option<usize>>> = Vec::new();
    let mut i: usize = 0;
    while i < needed_rows
        invariant
            0 <= i <= needed_rows,
            needed_rows <= ROWS,
            cards_on_page <= SLOTS,
            needed_rows == (cards_on_page + COLS - 1) / (COLS as int),
            rows@.len() == i,
            forall|a: int|
                0 <= a < i ==> (#[trigger] rows@[a])@.len() == COLS && forall|c: int|
                    0 <= c < COLS ==> (#[trigger] rows@[a]@[c]) == (if offset + a * (COLS as int) + c
                        < len {
                        Some((offset + a * (COLS as int) + c) as usize)
                    } else {
                        None
                    }),
        decreases needed_rows - i,
    {
        let mut row: Vec<Option<usize>> = Vec::new();
        let mut col: usize = 0;
        while col < COLS
            invariant
                0 <= col <= COLS,
                i < needed_rows <= ROWS,
                row@.len() == col,
                forall|c: int|
                    0 <= c < col ==> (#[trigger] row@[c]) == (if offset + i * (COLS as int) + c < len {
                        Some((offset + i * (COLS as int) + c) as usize)
                    } else {
                        None
                    }),
            decreases COLS - col,
        {
            let within = i * COLS + col;
            if offset < len && within < len - offset {
                row.push(Some(offset + within));
            } else {
                row.push(None);
            }
            col += 1;
        }
        rows.push(row);
        i += 1;
    }
    rows
}

/// The offsets of the neighbouring pages worth loading ahead: one page back
/// and one page on, when they differ from `offset` and do not start past
/// the last full page.
pub fn preload_offsets(len: usize, offset: usize) -> (r: Vec<usize>)
    ensures
        ({
            let max_off = if len > SLOTS {
                len - SLOTS
            } else {
                0
            };
            let back = if offset > PAGE_STEP {
                offset - PAGE_STEP
            } else {
                0
            };
            let on = offset + PAGE_STEP;
            r@ == seq![back, on].filter(|x: int| x != offset && x <= max_off).map_values(
                |x: int| x as usize,
            )
        }),
{
    let max_off = len.saturating_sub(SLOTS);
    let back = offset.saturating_sub(PAGE_STEP);
    let mut r: Vec<usize> = Vec::new();
    let ghost s = seq![
        (if offset > PAGE_STEP {
            offset - PAGE_STEP
        } else {
            0
        }) as int,
        offset + PAGE_STEP,
    ];
    proof {
        reveal_with_fuel(Seq::<int>::filter, 3);
        assert(s.drop_last().drop_last() =~= Seq::<int>::empty());
        assert(s.drop_last() =~= seq![s[0]]);
    }
    if back != offset && back <= max_off {
        r.push(back);
    }
    if offset <= max_off && max_off - offset >= PAGE_STEP {
        r.push(offset + PAGE_STEP);
    }
    proof {
        let f = |x: int| x != offset && x <= (if len > SLOTS {
            len - SLOTS
        } else {
            0
        });
        assert(r@ =~= s.filter(f).map_values(|x: int| x as usize));
    }
    r
}

/// The picture shown for a card: its thumbnail, else its cover.
pub fn card_picture(card: &ModCard) -> (r: Option<String>)
    ensures
        r == (if card.thumbnail_url is Some {
            card.thumbnail_url
        } else {
            card.cover_url
        }),
{
    match &card.thumbnail_url {
        Some(u) => Some(u.clone()),
        None => clone_opt_string(&card.cover_url),
    }
}

// ─── Local list ──────────────────────────────────────────────

/// Whether a local entry passes the filters and the name query: the age
/// filter, the enabled filter (0 all, 1 enabled, 2 disabled), category and
/// subcategory.
pub fn local_mod_matches(
    item: &InstalledMod,
    age_filter: u32,
    enabled_filter: u32,
    cat_name: &str,
    sub_name: &str,
    query: &NameQuery,
) -> (r: bool)
    ensures
        r == (age_ok(age_filter, item.is_r18) && flag_ok(enabled_filter, item.enabled) && category_ok(
            item.category@,
            item.subcategory,
            cat_name@,
            sub_name@,
        ) && query_accepts(query.spec_matchers(), query.spec_ops(), item.name@)),
{
    if age_filter == 1 && item.is_r18 {
        return false;
    }
    if age_filter == 2 && !item.is_r18 {
        return false;
    }
    if enabled_filter == 1 && !item.enabled {
        return false;
    }
    if enabled_filter == 2 && item.enabled {
        return false;
    }
    if !cat_name.is_empty() && !str_eq(item.category.as_str(), cat_name) {
        return false;
    }
    if !sub_name.is_empty() && !subcategory_is(&item.subcategory, sub_name) {
        return false;
    }
    query.matches(item.name.as_str())
}

/// Whether a local entry lacks a detail the catalog cache could give.
pub open spec fn needs_fill(item: InstalledMod) -> bool {
    item.author@.len() == 0 || item.category@.len() == 0 || item.profile_url@.len() == 0
        || item.thumbnail_url is None || item.cover_url is None
}

/// The entry with its missing details taken from the card (adult content
/// marked when either says so).
pub open spec fn filled_from(item: InstalledMod, card: ModCard) -> InstalledMod {
    InstalledMod {
        author: if item.author@.len() == 0 {
            card.author
        } else {
            item.author
        },
        category: if item.category@.len() == 0 {
            card.category
        } else {
            item.category
        },
        subcategory: if item.subcategory is None {
            card.subcategory
        } else {
            item.subcategory
        },
        profile_url: if item.profile_url@.len() == 0 {
            card.profile_url
        } else {
            item.profile_url
        },
        thumbnail_url: if item.thumbnail_url is None {
            card.thumbnail_url
        } else {
            item.thumbnail_url
        },
        cover_url: if item.cover_url is None {
            card.cover_url
        } else {
            item.cover_url
        },
        is_r18: item.is_r18 || card.is_r18,
        ..item
    }
}

/// The first cached card of the mod.
pub open spec fn first_card_of(cards: Seq<ModCard>, mod_id: u64, k: int) -> bool {
    &&& 0 <= k < cards.len()
    &&& cards[k].mod_id_is(mod_id)
    &&& forall|j: int| 0 <= j < k ==> !(#[trigger] cards[j]).mod_id_is(mod_id)
}

impl ModCard {
    pub open spec fn mod_id_is(self, mod_id: u64) -> bool {
        self.id == mod_id
    }
}

/// Fills a local entry's missing details from the first cached card of the
/// same mod, if the entry lacks any and such a card exists.
pub fn hydrate_from_cards(item: InstalledMod, cards: &Vec<ModCard>) -> (r: InstalledMod)
    ensures
        !needs_fill(item) ==> r == item,
        needs_fill(item) && !(exists|k: int| first_card_of(cards@, item.mod_id, k)) ==> r == item,
        needs_fill(item) && (exists|k: int| first_card_of(cards@, item.mod_id, k)) ==> exists|k: int|
            first_card_of(cards@, item.mod_id, k) && r == filled_from(item, cards@[k]),
{
    let needs = item.author.as_str().is_empty() || item.category.as_str().is_empty()
        || item.profile_url.as_str().is_empty() || item.thumbnail_url.is_none()
        || item.cover_url.is_none();
    if !needs {
        return item;
    }
    let mut k: usize = 0;
    while k < cards.len() && cards[k].id != item.mod_id
        invariant
            0 <= k <= cards@.len(),
            forall|j: int| 0 <= j < k ==> !(#[trigger] cards@[j]).mod_id_is(item.mod_id),
        decreases cards.len() - k,
    {
        k += 1;
    }
    if k == cards.len() {
        proof {
            assert forall|x: int| !first_card_of(cards@, item.mod_id, x) by {}
        }
        return item;
    }
    assert(first_card_of(cards@, item.mod_id, k as int));
    let card = &cards[k];
    let mut item = item;
    if item.author.as_str().is_empty() {
        item.author = card.author.clone();
    }
    if item.category.as_str().is_empty() {
        item.category = card.category.clone();
    }
    if item.subcategory.is_none() {
        item.subcategory = clone_opt_string(&card.subcategory);
    }
    if item.profile_url.as_str().is_empty() {
        item.profile_url = card.profile_url.clone();
    }
    if item.thumbnail_url.is_none() {
        item.thumbnail_url = clone_opt_string(&card.thumbnail_url);
    }
    if item.cover_url.is_none() {
        item.cover_url = clone_opt_string(&card.cover_url);
    }
    item.is_r18 = item.is_r18 || card.is_r18;
    item
}

} // verus!
