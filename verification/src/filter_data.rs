//! Category and subcategory choices offered by the catalog filters.

use vstd::prelude::*;

use crate::models::{ModCard, views};
use crate::order::{distinct_texts, sort_texts, strictly_sorted};
use crate::text::str_eq;

verus! {

/// The choice that stands for "any".
pub open spec fn all_label() -> Seq<char> {
    "全部"@
}

/// Filter choices computed from the cached cards.
#[derive(Debug, Clone)]
pub struct FilterData {
    /// Category names: "any" first, then each non-empty category once, in
    /// the order the cards first name them.
    pub categories: Vec<String>,
    /// For each category, its subcategory choices: "any" first, then the
    /// others in `String` order.
    pub subcategories: Vec<(String, Vec<String>)>,
}

/// "Any", then the distinct non-empty categories of `cards` by first appearance.
pub open spec fn card_categories(cards: Seq<ModCard>) -> Seq<Seq<char>>
    decreases cards.len(),
{
    if cards.len() == 0 {
        seq![all_label()]
    } else {
        let r = card_categories(cards.drop_last());
        let c = cards.last().category@;
        if c.len() > 0 && !r.contains(c) {
            r.push(c)
        } else {
            r
        }
    }
}

/// Card `c` is in category `k` and names the non-empty subcategory `s`.
pub open spec fn sub_of_card(c: ModCard, k: Seq<char>, s: Seq<char>) -> bool {
    &&& c.category@ == k
    &&& c.subcategory matches Some(x)
    &&& x@ == s
    &&& s.len() > 0
}

/// Some card of category `k` names subcategory `s`.
pub open spec fn has_sub(cards: Seq<ModCard>, k: Seq<char>, s: Seq<char>) -> bool {
    exists|i: int| 0 <= i < cards.len() && #[trigger] sub_of_card(cards[i], k, s)
}

/// A subcategory list for category `k`: "any", then exactly the other named
/// subcategories in strictly increasing order.
pub open spec fn sub_list_ok(cards: Seq<ModCard>, k: Seq<char>, list: Seq<Seq<char>>) -> bool {
    &&& list.len() > 0
    &&& list[0] == all_label()
    &&& strictly_sorted(list.drop_first())
    &&& forall|s: Seq<char>|
        list.drop_first().contains(s) <==> (s != all_label() && has_sub(cards, k, s))
}

/// The unsorted list kept while scanning: "any" first, no repeats, and the
/// named subcategories of `k` so far.
spec fn partial_list_ok(cards: Seq<ModCard>, k: Seq<char>, list: Seq<Seq<char>>) -> bool {
    &&& list.len() > 0
    &&& list[0] == all_label()
    &&& distinct_texts(list)
    &&& forall|s: Seq<char>| list.contains(s) <==> (s == all_label() || has_sub(cards, k, s))
}

fn position_of(v: &Vec<String>, x: &str) -> (r: Option<usize>)
    ensures
        match r {
            Some(i) => i < v@.len() && v@[i as int]@ == x@,
            None => !views(v@).contains(x@),
        },
{
    let mut i: usize = 0;
    while i < v.len()
        invariant
            0 <= i <= v@.len(),
            forall|j: int| 0 <= j < i ==> v@[j]@ != x@,
        decreases v.len() - i,
    {
        if str_eq(v[i].as_str(), x) {
            return Some(i);
        }
        i += 1;
    }
    proof {
        if views(v@).contains(x@) {
            let j = choose|j: int| 0 <= j < views(v@).len() && views(v@)[j] == x@;
            assert(v@[j]@ == x@);
        }
    }
    None
}

fn all_string() -> (r: String)
    ensures
        r@ == all_label(),
{
    "全部".to_owned()
}

proof fn lemma_has_sub_extend(cards: Seq<ModCard>, i: int, k: Seq<char>, s: Seq<char>)
    requires
        0 <= i < cards.len(),
    ensures
        has_sub(cards.take(i + 1), k, s) <==> (has_sub(cards.take(i), k, s) || sub_of_card(
            cards[i],
            k,
            s,
        )),
{
    let a = cards.take(i);
    let b = cards.take(i + 1);
    if has_sub(b, k, s) {
        let j = choose|j: int| 0 <= j < b.len() && #[trigger] sub_of_card(b[j], k, s);
        if j < i {
            assert(a[j] == b[j]);
        }
    }
    if has_sub(a, k, s) {
        let j = choose|j: int| 0 <= j < a.len() && #[trigger] sub_of_card(a[j], k, s);
        assert(b[j] == a[j]);
    }
    if sub_of_card(cards[i], k, s) {
        assert(b[i] == cards[i]);
    }
}

impl FilterData {
    /// Collects the category and subcategory choices named by `cards`.
    pub fn build_from_cards(cards: &[ModCard]) -> (r: Self)
        ensures
            views(r.categories@) == card_categories(cards@),
            r.subcategories@.len() == r.categories@.len(),
            forall|j: int|
                0 <= j < r.subcategories@.len() ==> (#[trigger] r.subcategories@[j]).0@
                    == r.categories@[j]@ && sub_list_ok(
                    cards@,
                    r.categories@[j]@,
                    views(r.subcategories@[j].1@),
                ),
    {
        proof {
            reveal_strlit("全部");
        }
        let mut categories: Vec<String> = Vec::new();
        categories.push(all_string());
        let mut lists: Vec<Vec<String>> = Vec::new();
        let mut first: Vec<String> = Vec::new();
        first.push(all_string());
        lists.push(first);
        proof {
            assert(views(categories@) =~= card_categories(cards@.take(0)));
            assert(views(lists@[0]@) =~= seq![all_label()]);
            assert forall|s: Seq<char>| views(lists@[0]@).contains(s) <==> (s == all_label()
                || has_sub(cards@.take(0), all_label(), s)) by {
                if views(lists@[0]@).contains(s) {
                    assert(views(lists@[0]@)[0] == s);
                }
                if s == all_label() {
                    assert(views(lists@[0]@)[0] == s);
                }
            }
        }
        let mut i: usize = 0;
        while i < cards.len()
            invariant
                0 <= i <= cards@.len(),
                all_label().len() > 0,
                views(categories@) == card_categories(cards@.take(i as int)),
                lists@.len() == categories@.len(),
                forall|j: int|
                    0 <= j < lists@.len() ==> partial_list_ok(
                        cards@.take(i as int),
                        categories@[j]@,
                        views(#[trigger] lists@[j]@),
                    ),
                distinct_texts(views(categories@)),
                categories@.len() > 0 && categories@[0]@ == all_label(),
            decreases cards.len() - i,
        {
            let card = &cards[i];
            let ghost pre = cards@.take(i as int);
            let ghost post = cards@.take(i + 1);
            proof {
                assert(post.drop_last() =~= pre);
                assert(post.last() == cards@[i as int]);
                assert forall|k: Seq<char>, s: Seq<char>| #[trigger]
                    has_sub(post, k, s) <==> (has_sub(pre, k, s) || sub_of_card(
                        cards@[i as int],
                        k,
                        s,
                    )) by {
                    lemma_has_sub_extend(cards@, i as int, k, s);
                }
            }
            if card.category.as_str().is_empty() {
                proof {
                    assert forall|j: int| 0 <= j < lists@.len() implies partial_list_ok(
                        post,
                        categories@[j]@,
                        views(#[trigger] lists@[j]@),
                    ) by {
                        assert forall|s: Seq<char>| #[trigger] views(lists@[j]@).contains(s) <==> (
                        s == all_label() || has_sub(post, categories@[j]@, s)) by {
                            assert(partial_list_ok(pre, categories@[j]@, views(lists@[j]@)));
                            if j == 0 {
                            } else {
                                assert(views(categories@)[j] == categories@[j]@);
                            }
                            assert(categories@[j]@.len() > 0) by {
                                lemma_card_categories_nonempty(pre, j);
                            }
                        }
                    }
                }
                i += 1;
                continue;
            }
            let ghost cat = card.category@;
            let ghost old_cats = categories@;
            let ghost old_lists = lists@;
            let idx = match position_of(&categories, card.category.as_str()) {
                Some(p) => p,
                None => {
                    proof {
                        assert forall|m: int, s: Seq<char>| 0 <= m < pre.len() implies !#[trigger] sub_of_card(
                            pre[m],
                            cat,
                            s,
                        ) by {
                            if sub_of_card(pre[m], cat, s) {
                                lemma_card_in_categories(pre, m);
                            }
                        }
                    }
                    categories.push(card.category.clone());
                    let mut fresh: Vec<String> = Vec::new();
                    fresh.push(all_string());
                    lists.push(fresh);
                    proof {
                        assert(views(categories@) =~= views(old_cats).push(cat));
                        let nl = views(lists@[lists@.len() - 1]@);
                        assert(nl =~= seq![all_label()]);
                        assert forall|s: Seq<char>| nl.contains(s) <==> (s == all_label()
                            || has_sub(pre, cat, s)) by {
                            if nl.contains(s) {
                                assert(nl[0] == s);
                            }
                            if s == all_label() {
                                assert(nl[0] == s);
                            }
                            if has_sub(pre, cat, s) {
                                let m = choose|m: int| 0 <= m < pre.len() && #[trigger] sub_of_card(pre[m], cat, s);
                            }
                        }
                        assert(partial_list_ok(pre, cat, nl));
                        assert forall|x: int, y: int| 0 <= x < y < views(categories@).len() implies
                            #[trigger] views(categories@)[x] != #[trigger] views(categories@)[y] by {
                            if y == views(categories@).len() - 1 {
                                assert(views(old_cats)[x] == views(categories@)[x]);
                            } else {
                                assert(views(old_cats)[x] == views(categories@)[x]);
                                assert(views(old_cats)[y] == views(categories@)[y]);
                            }
                        }
                    }
                    categories.len() - 1
                },
            };
            proof {
                if idx < old_cats.len() {
                    assert(views(old_cats).contains(cat)) by {
                        assert(views(old_cats)[idx as int] == cat);
                    }
                    assert(views(categories@) == card_categories(post));
                } else {
                    assert(!views(old_cats).contains(cat));
                    assert(views(categories@) == card_categories(post));
                }
                assert(categories@[idx as int]@ == cat);
                assert forall|j: int| 0 <= j < lists@.len() && j != idx implies partial_list_ok(
                    post,
                    categories@[j]@,
                    views(#[trigger] lists@[j]@),
                ) by {
                    assert(views(categories@)[j] != views(categories@)[idx as int]);
                    assert(partial_list_ok(pre, categories@[j]@, views(lists@[j]@)));
                    assert forall|s: Seq<char>| views(lists@[j]@).contains(s) <==> (s
                        == all_label() || has_sub(post, categories@[j]@, s)) by {
                        assert(has_sub(post, categories@[j]@, s) <==> has_sub(
                            pre,
                            categories@[j]@,
                            s,
                        ));
                    }
                }
            }
            let ghost list_before = views(lists@[idx as int]@);
            proof {
                if idx < old_cats.len() {
                    assert(lists@[idx as int] == old_lists[idx as int]);
                }
                assert(partial_list_ok(pre, cat, list_before));
            }
            let mut add = false;
            match &card.subcategory {
                Some(sub) => {
                    if !sub.as_str().is_empty() {
                        match position_of(&lists[idx], sub.as_str()) {
                            Some(p) => {
                                assert(list_before[p as int] == sub@);
                            },
                            None => {
                                add = true;
                            },
                        }
                    }
                },
                None => {},
            }
            assert(add == (card.subcategory matches Some(x) && x@.len() > 0
                && !list_before.contains(x@)));
            if add {
                let mut list = lists.remove(idx);
                let sub = card.subcategory.as_ref().unwrap();
                list.push(sub.clone());
                proof {
                    let nl = views(list@);
                    assert(nl =~= list_before.push(sub@));
                    assert forall|x: int, y: int| 0 <= x < y < nl.len() implies #[trigger] nl[x]
                        != #[trigger] nl[y] by {
                        if y == nl.len() - 1 {
                            assert(list_before[x] == nl[x]);
                        } else {
                            assert(list_before[x] == nl[x]);
                            assert(list_before[y] == nl[y]);
                        }
                    }
                    assert forall|s: Seq<char>| nl.contains(s) <==> (s == all_label() || has_sub(
                        post,
                        cat,
                        s,
                    )) by {
                        if nl.contains(s) {
                            let m = choose|m: int| 0 <= m < nl.len() && nl[m] == s;
                            if m < list_before.len() {
                                assert(list_before[m] == s);
                            }
                        }
                        if list_before.contains(s) {
                            let m = choose|m: int| 0 <= m < list_before.len() && list_before[m] == s;
                            assert(nl[m] == s);
                        }
                        if s == sub@ {
                            assert(nl[nl.len() - 1] == s);
                        }
                    }
                }
                lists.insert(idx, list);
            } else {
                proof {
                    assert forall|s: Seq<char>| list_before.contains(s) <==> (s == all_label()
                        || has_sub(post, cat, s)) by {
                        if sub_of_card(cards@[i as int], cat, s) {
                            assert(s.len() > 0);
                            assert(list_before.contains(s));
                        }
                    }
                }
            }
            proof {
                assert forall|j: int| 0 <= j < lists@.len() implies partial_list_ok(
                    post,
                    categories@[j]@,
                    views(#[trigger] lists@[j]@),
                ) by {
                    if j != idx {
                    }
                }
            }
            i += 1;
        }
        proof {
            assert(cards@.take(cards@.len() as int) =~= cards@);
        }
        let mut subcategories: Vec<(String, Vec<String>)> = Vec::new();
        let mut j: usize = 0;
        while j < lists.len()
            invariant
                0 <= j <= lists@.len(),
                lists@.len() == categories@.len(),
                views(categories@) == card_categories(cards@),
                forall|q: int|
                    0 <= q < lists@.len() ==> partial_list_ok(
                        cards@,
                        categories@[q]@,
                        views(#[trigger] lists@[q]@),
                    ),
                subcategories@.len() == j,
                forall|q: int|
                    0 <= q < j ==> (#[trigger] subcategories@[q]).0@ == categories@[q]@
                        && sub_list_ok(cards@, categories@[q]@, views(subcategories@[q].1@)),
            decreases lists.len() - j,
        {
            let list = &lists[j];
            let ghost lv = views(list@);
            let mut rest: Vec<String> = Vec::new();
            let mut q: usize = 1;
            while q < list.len()
                invariant
                    1 <= q <= list@.len(),
                    lv == views(list@),
                    views(rest@) =~= lv.subrange(1, q as int),
                decreases list.len() - q,
            {
                let ghost before_rest = views(rest@);
                let item = list[q].clone();
                rest.push(item);
                assert(views(rest@) =~= before_rest.push(lv[q as int]));
                q += 1;
            }
            proof {
                assert(partial_list_ok(cards@, categories@[j as int]@, lv));
                assert(views(rest@) =~= lv.drop_first());
                assert forall|x: int, y: int| 0 <= x < y < views(rest@).len() implies
                    #[trigger] views(rest@)[x] != #[trigger] views(rest@)[y] by {
                    assert(lv[x + 1] != lv[y + 1]);
                }
            }
            let ghost rv = views(rest@);
            let sorted = sort_texts(rest);
            let mut out: Vec<String> = Vec::new();
            out.push(all_string());
            let mut t: usize = 0;
            while t < sorted.len()
                invariant
                    0 <= t <= sorted@.len(),
                    views(out@) =~= seq![all_label()] + views(sorted@).take(t as int),
                decreases sorted.len() - t,
            {
                let ghost before_out = views(out@);
                let item = sorted[t].clone();
                out.push(item);
                assert(views(out@) =~= before_out.push(views(sorted@)[t as int]));
                t += 1;
            }
            proof {
                let ov = views(out@);
                assert(views(sorted@).take(sorted@.len() as int) =~= views(sorted@));
                assert(ov.drop_first() =~= views(sorted@));
                assert forall|s: Seq<char>| ov.drop_first().contains(s) <==> (s != all_label()
                    && has_sub(cards@, categories@[j as int]@, s)) by {
                    assert(views(sorted@).contains(s) <==> rv.contains(s));
                    if rv.contains(s) {
                        let m = choose|m: int| 0 <= m < rv.len() && rv[m] == s;
                        assert(lv[m + 1] == s);
                        assert(lv[0] != lv[m + 1]);
                        assert(lv.contains(s));
                    }
                    if s != all_label() && has_sub(cards@, categories@[j as int]@, s) {
                        assert(lv.contains(s));
                        let m = choose|m: int| 0 <= m < lv.len() && lv[m] == s;
                        assert(m != 0);
                        assert(rv[m - 1] == s);
                    }
                }
            }
            subcategories.push((categories[j].clone(), out));
            j += 1;
        }
        FilterData { categories, subcategories }
    }
}

proof fn lemma_card_in_categories(cards: Seq<ModCard>, m: int)
    requires
        0 <= m < cards.len(),
        cards[m].category@.len() > 0,
    ensures
        card_categories(cards).contains(cards[m].category@),
    decreases cards.len(),
{
    let r = card_categories(cards.drop_last());
    if m < cards.len() - 1 {
        lemma_card_in_categories(cards.drop_last(), m);
        let k = choose|k: int| 0 <= k < r.len() && r[k] == cards[m].category@;
        assert(card_categories(cards)[k] == cards[m].category@);
    } else {
        let c = cards.last().category@;
        if r.contains(c) {
            let k = choose|k: int| 0 <= k < r.len() && r[k] == c;
            assert(card_categories(cards)[k] == c);
        } else {
            assert(card_categories(cards)[r.len() as int] == c);
        }
    }
}

proof fn lemma_card_categories_nonempty(cards: Seq<ModCard>, j: int)
    requires
        all_label().len() > 0,
        0 <= j < card_categories(cards).len(),
    ensures
        card_categories(cards)[j].len() > 0,
    decreases cards.len(),
{
    if cards.len() > 0 {
        let r = card_categories(cards.drop_last());
        if j < r.len() {
            lemma_card_categories_nonempty(cards.drop_last(), j);
        }
    }
}

} // verus!
