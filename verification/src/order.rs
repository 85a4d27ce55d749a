//! The order `String`'s `Ord` puts text in, and sorting under it.

use vstd::prelude::*;

use crate::models::views;
use crate::text::chars_of;

verus! {

/// `String`'s order: lexicographic by bytes, which for UTF-8 text is
/// lexicographic by code point.
pub open spec fn lex_lt(a: Seq<char>, b: Seq<char>) -> bool
    decreases a.len(),
{
    if a.len() == 0 {
        b.len() > 0
    } else if b.len() == 0 {
        false
    } else if (a[0] as u32) < (b[0] as u32) {
        true
    } else if (a[0] as u32) > (b[0] as u32) {
        false
    } else {
        lex_lt(a.drop_first(), b.drop_first())
    }
}

pub proof fn lemma_lex_irreflexive(a: Seq<char>)
    ensures
        !lex_lt(a, a),
    decreases a.len(),
{
    if a.len() > 0 {
        lemma_lex_irreflexive(a.drop_first());
    }
}

pub proof fn lemma_lex_asymmetric(a: Seq<char>, b: Seq<char>)
    ensures
        lex_lt(a, b) ==> !lex_lt(b, a),
    decreases a.len(),
{
    if a.len() > 0 && b.len() > 0 && (a[0] as u32) == (b[0] as u32) {
        lemma_lex_asymmetric(a.drop_first(), b.drop_first());
    }
}

pub proof fn lemma_lex_transitive(a: Seq<char>, b: Seq<char>, c: Seq<char>)
    ensures
        lex_lt(a, b) && lex_lt(b, c) ==> lex_lt(a, c),
    decreases a.len(),
{
    if a.len() > 0 && b.len() > 0 && c.len() > 0 {
        lemma_lex_transitive(a.drop_first(), b.drop_first(), c.drop_first());
    }
}

pub proof fn lemma_lex_total(a: Seq<char>, b: Seq<char>)
    ensures
        a != b ==> lex_lt(a, b) || lex_lt(b, a),
    decreases a.len(),
{
    if a.len() > 0 && b.len() > 0 {
        if a[0] == b[0] {
            lemma_lex_total(a.drop_first(), b.drop_first());
            if a.drop_first() == b.drop_first() {
                assert(a =~= seq![a[0]] + a.drop_first());
                assert(b =~= seq![b[0]] + b.drop_first());
            }
        } else {
            vstd::utf8::char_u32_cast(a[0], a[0] as u32);
            vstd::utf8::char_u32_cast(b[0], b[0] as u32);
            assert((a[0] as u32) != (b[0] as u32));
        }
    } else if a.len() == 0 && b.len() == 0 {
        assert(a =~= b);
    }
}

/// Strictly increasing: sorted, with nothing twice.
pub open spec fn strictly_sorted(s: Seq<Seq<char>>) -> bool {
    forall|i: int, j: int| 0 <= i < j < s.len() ==> lex_lt(#[trigger] s[i], #[trigger] s[j])
}

/// `a < b` in `String`'s order.
pub fn text_less(a: &str, b: &str) -> (r: bool)
    ensures
        r == lex_lt(a@, b@),
{
    let x = chars_of(a);
    let y = chars_of(b);
    let mut i: usize = 0;
    proof {
        assert(x@.skip(0) =~= x@);
        assert(y@.skip(0) =~= y@);
    }
    while i < x.len() && i < y.len() && x[i] == y[i]
        invariant
            0 <= i <= x@.len(),
            i <= y@.len(),
            lex_lt(x@, y@) == lex_lt(x@.skip(i as int), y@.skip(i as int)),
        decreases x.len() - i,
    {
        assert(x@.skip(i as int).drop_first() =~= x@.skip(i + 1));
        assert(y@.skip(i as int).drop_first() =~= y@.skip(i + 1));
        i += 1;
    }
    if i == x.len() {
        i < y.len()
    } else if i == y.len() {
        false
    } else {
        proof {
            vstd::utf8::char_u32_cast(x@[i as int], x@[i as int] as u32);
            vstd::utf8::char_u32_cast(y@[i as int], y@[i as int] as u32);
            assert(x@.skip(i as int)[0] == x@[i as int]);
            assert(y@.skip(i as int)[0] == y@[i as int]);
        }
        (x[i] as u32) < (y[i] as u32)
    }
}

/// No text occurs twice.
pub open spec fn distinct_texts(s: Seq<Seq<char>>) -> bool {
    forall|i: int, j: int| 0 <= i < j < s.len() ==> #[trigger] s[i] != #[trigger] s[j]
}

/// Inserts `x` into a strictly sorted list that lacks it, keeping it sorted.
pub fn insert_sorted(v: &mut Vec<String>, x: String)
    requires
        strictly_sorted(views(old(v)@)),
        !views(old(v)@).contains(x@),
    ensures
        strictly_sorted(views(final(v)@)),
        views(final(v)@).len() == views(old(v)@).len() + 1,
        forall|s: Seq<char>|
            views(final(v)@).contains(s) <==> (views(old(v)@).contains(s) || s == x@),
{
    let ghost old_v = views(v@);
    let mut p: usize = 0;
    while p < v.len() && text_less(v[p].as_str(), x.as_str())
        invariant
            0 <= p <= v@.len(),
            views(v@) == old_v,
            forall|i: int| 0 <= i < p ==> lex_lt(#[trigger] old_v[i], x@),
        decreases v.len() - p,
    {
        p += 1;
    }
    let ghost xv = x@;
    v.insert(p, x);
    proof {
        let nv = views(v@);
        assert(nv =~= old_v.insert(p as int, xv));
        if p < old_v.len() {
            assert(!lex_lt(old_v[p as int], xv));
            assert(old_v[p as int] != xv);
            lemma_lex_total(old_v[p as int], xv);
        }
        assert forall|i: int, j: int| 0 <= i < j < nv.len() implies lex_lt(
            #[trigger] nv[i],
            #[trigger] nv[j],
        ) by {
            if j < p {
            } else if j == p {
                assert(nv[j] == xv);
                assert(nv[i] == old_v[i]);
            } else if i == p {
                assert(nv[j] == old_v[j - 1]);
                if j - 1 > p {
                    assert(lex_lt(old_v[p as int], old_v[j - 1]));
                    lemma_lex_transitive(xv, old_v[p as int], old_v[j - 1]);
                }
            } else if i < p {
                assert(nv[i] == old_v[i]);
                assert(nv[j] == old_v[j - 1]);
            } else {
                assert(nv[i] == old_v[i - 1]);
                assert(nv[j] == old_v[j - 1]);
            }
        }
        assert forall|s: Seq<char>| nv.contains(s) <==> (old_v.contains(s) || s == xv) by {
            if nv.contains(s) {
                let k = choose|k: int| 0 <= k < nv.len() && nv[k] == s;
                if k < p {
                    assert(old_v[k] == s);
                } else if k > p {
                    assert(old_v[k - 1] == s);
                }
            }
            if old_v.contains(s) {
                let k = choose|k: int| 0 <= k < old_v.len() && old_v[k] == s;
                if k < p {
                    assert(nv[k] == s);
                } else {
                    assert(nv[k + 1] == s);
                }
            }
            if s == xv {
                assert(nv[p as int] == s);
            }
        }
    }
}

/// The texts of `v` in `String`'s order (`v` holds no text twice).
pub fn sort_texts(v: Vec<String>) -> (r: Vec<String>)
    requires
        distinct_texts(views(v@)),
    ensures
        strictly_sorted(views(r@)),
        forall|s: Seq<char>| views(r@).contains(s) <==> views(v@).contains(s),
{
    let ghost all = views(v@);
    let mut r: Vec<String> = Vec::new();
    for x in it: v
        invariant
            views(it.seq()) == all,
            distinct_texts(all),
            strictly_sorted(views(r@)),
            forall|s: Seq<char>|
                views(r@).contains(s) <==> views(it.seq()).take(it.index() as int).contains(s),
    {
        let ghost k = it.index() as int;
        proof {
            assert(x@ == all[k]);
            if views(r@).contains(x@) {
                let j = choose|j: int| 0 <= j < k && views(it.seq()).take(k)[j] == x@;
                assert(all[j] == all[k]);
            }
        }
        insert_sorted(&mut r, x);
        proof {
            let t0 = views(it.seq()).take(k);
            let t1 = views(it.seq()).take(k + 1);
            assert(t1 =~= t0.push(all[k]));
            assert forall|s: Seq<char>| t1.contains(s) <==> (t0.contains(s) || s == all[k]) by {
                if t1.contains(s) {
                    let j = choose|j: int| 0 <= j < t1.len() && t1[j] == s;
                    if j < k {
                        assert(t0[j] == s);
                    }
                }
                if t0.contains(s) {
                    let j = choose|j: int| 0 <= j < t0.len() && t0[j] == s;
                    assert(t1[j] == s);
                }
                if s == all[k] {
                    assert(t1[k] == s);
                }
            }
        }
    }
    proof {
        assert(views(v@).take(views(v@).len() as int) =~= views(v@));
    }
    r
}

} // verus!
