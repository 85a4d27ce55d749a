//! Filesystem paths as text, with Unix joining rules.
//!
//! "Plain" paths are `/`-separated text whose components are neither `.`
//! nor `..`: for those the functions here agree with `std::path::Path`;
//! they give `.` and `..` no special meaning.

use vstd::prelude::*;

use crate::text::{chars_of, push_str, string_from_chars};

verus! {

/// `Path::join` on Unix: an absolute part replaces the base; otherwise a `/`
/// is put between them unless the base is empty or already ends with one.
pub open spec fn path_join(base: Seq<char>, part: Seq<char>) -> Seq<char> {
    if part.len() > 0 && part[0] == '/' {
        part
    } else if base.len() == 0 || base.last() == '/' {
        base + part
    } else {
        base + seq!['/'] + part
    }
}

pub fn join(base: &str, part: &str) -> (r: String)
    ensures
        r@ == path_join(base@, part@),
{
    let p = chars_of(part);
    if p.len() > 0 && p[0] == '/' {
        return part.to_owned();
    }
    let b = chars_of(base);
    let mut r = base.to_owned();
    if !(b.len() == 0 || b[b.len() - 1] == '/') {
        crate::text::push_char(&mut r, '/');
    }
    push_str(&mut r, part);
    r
}

/// Drops trailing `/` characters.
pub open spec fn strip_slashes(p: Seq<char>) -> Seq<char>
    decreases p.len(),
{
    if p.len() > 0 && p.last() == '/' {
        strip_slashes(p.drop_last())
    } else {
        p
    }
}

/// Position of the last `/` in `p`, if any.
pub open spec fn last_slash(p: Seq<char>) -> Option<int>
    decreases p.len(),
{
    if p.len() == 0 {
        None
    } else if p.last() == '/' {
        Some(p.len() - 1)
    } else {
        last_slash(p.drop_last())
    }
}

/// The directory holding `p`: everything before its last component, without
/// trailing slashes (`/` for a top-level entry, empty for a bare name); none
/// for the root or an empty path.
pub open spec fn path_parent(p: Seq<char>) -> Option<Seq<char>> {
    let q = strip_slashes(p);
    if q.len() == 0 {
        None
    } else {
        match last_slash(q) {
            None => Some(Seq::empty()),
            Some(i) => if strip_slashes(q.take(i)).len() == 0 {
                Some(seq!['/'])
            } else {
                Some(strip_slashes(q.take(i)))
            },
        }
    }
}

proof fn lemma_last_slash_bounds(p: Seq<char>)
    ensures
        last_slash(p) matches Some(i) ==> 0 <= i < p.len() && p[i] == '/',
    decreases p.len(),
{
    if p.len() > 0 && p.last() != '/' {
        lemma_last_slash_bounds(p.drop_last());
    }
}

fn strip_len(p: &[char], end: usize) -> (r: usize)
    requires
        end <= p@.len(),
    ensures
        r <= end,
        p@.take(r as int) == strip_slashes(p@.take(end as int)),
{
    let mut e = end;
    while e > 0 && p[e - 1] == '/'
        invariant
            0 <= e <= end <= p@.len(),
            strip_slashes(p@.take(e as int)) == strip_slashes(p@.take(end as int)),
        decreases e,
    {
        assert(p@.take(e as int).drop_last() =~= p@.take(e - 1));
        e -= 1;
    }
    if e > 0 {
        assert(p@.take(e as int).last() == p@[e - 1]);
    }
    e
}

fn last_slash_before(p: &[char], end: usize) -> (r: Option<usize>)
    requires
        end <= p@.len(),
    ensures
        match last_slash(p@.take(end as int)) {
            Some(i) => r == Some(i as usize),
            None => r is None,
        },
{
    let mut e = end;
    while e > 0 && p[e - 1] != '/'
        invariant
            0 <= e <= end <= p@.len(),
            last_slash(p@.take(e as int)) == last_slash(p@.take(end as int)),
        decreases e,
    {
        assert(p@.take(e as int).drop_last() =~= p@.take(e - 1));
        e -= 1;
    }
    if e == 0 {
        None
    } else {
        assert(p@.take(e as int).last() == p@[e - 1]);
        Some(e - 1)
    }
}

/// `Path::parent` for plain Unix paths.
pub fn parent(p: &str) -> (r: Option<String>)
    ensures
        opt_seq(r) == path_parent(p@),
{
    let cs = chars_of(p);
    assert(cs@.take(cs@.len() as int) =~= cs@);
    let q = strip_len(cs.as_slice(), cs.len());
    if q == 0 {
        return None;
    }
    let ghost qs = cs@.take(q as int);
    match last_slash_before(cs.as_slice(), q) {
        None => Some(String::new()),
        Some(i) => {
            proof {
                lemma_last_slash_bounds(qs);
            }
            assert(cs@.take(i as int) =~= qs.take(i as int));
            let k = strip_len(cs.as_slice(), i);
            if k == 0 {
                proof {
                    reveal_strlit("/");
                }
                Some("/".to_owned())
            } else {
                let v = cs.as_slice();
                let mut out: Vec<char> = Vec::new();
                let mut j: usize = 0;
                while j < k
                    invariant
                        0 <= j <= k <= v@.len(),
                        out@ =~= v@.take(j as int),
                    decreases k - j,
                {
                    out.push(v[j]);
                    j += 1;
                }
                Some(string_from_chars(out.as_slice()))
            }
        },
    }
}

pub open spec fn opt_seq(o: Option<String>) -> Option<Seq<char>> {
    match o {
        Some(s) => Some(s@),
        None => None,
    }
}

/// `p.parent().unwrap_or(p)`.
pub fn parent_or_self(p: &str) -> (r: String)
    ensures
        r@ == (match path_parent(p@) {
            Some(q) => q,
            None => p@,
        }),
{
    match parent(p) {
        Some(q) => q,
        None => p.to_owned(),
    }
}

/// The last component of a path, as `Path::file_name` gives it for plain paths.
pub open spec fn path_file_name(p: Seq<char>) -> Option<Seq<char>> {
    let q = strip_slashes(p);
    if q.len() == 0 {
        None
    } else {
        match last_slash(q) {
            None => Some(q),
            Some(i) => if i + 1 == q.len() {
                None
            } else {
                Some(q.subrange(i + 1, q.len() as int))
            },
        }
    }
}


/// `Path::file_name` for plain Unix paths.
pub fn file_name(p: &str) -> (r: Option<String>)
    ensures
        opt_seq(r) == path_file_name(p@),
{
    let cs = chars_of(p);
    assert(cs@.take(cs@.len() as int) =~= cs@);
    let q = strip_len(cs.as_slice(), cs.len());
    if q == 0 {
        return None;
    }
    let ghost qs = cs@.take(q as int);
    let start: usize = match last_slash_before(cs.as_slice(), q) {
        None => 0,
        Some(i) => {
            proof {
                lemma_last_slash_bounds(qs);
            }
            if i + 1 == q {
                return None;
            }
            i + 1
        },
    };
    let v = cs.as_slice();
    let mut out: Vec<char> = Vec::new();
    let mut j: usize = start;
    while j < q
        invariant
            start <= j <= q <= v@.len(),
            out@ =~= v@.subrange(start as int, j as int),
        decreases q - j,
    {
        out.push(v[j]);
        j += 1;
    }
    proof {
        assert(qs.subrange(start as int, q as int) =~= v@.subrange(start as int, q as int));
        if start == 0 {
            assert(qs =~= v@.subrange(0, q as int));
        }
    }
    Some(string_from_chars(out.as_slice()))
}

/// Position of the last `.` in `p`, if any.
pub open spec fn last_dot(p: Seq<char>) -> Option<int>
    decreases p.len(),
{
    if p.len() == 0 {
        None
    } else if p.last() == '.' {
        Some(p.len() - 1)
    } else {
        last_dot(p.drop_last())
    }
}

/// `Path::extension` of a file name: what follows its last `.`, unless the
/// name is `..`, has no `.`, or its only `.` leads it.
pub open spec fn name_extension(f: Seq<char>) -> Option<Seq<char>> {
    if f == ".."@ {
        None
    } else {
        match last_dot(f) {
            None => None,
            Some(i) => if i == 0 {
                None
            } else {
                Some(f.subrange(i + 1, f.len() as int))
            },
        }
    }
}

/// `Path::extension` for plain Unix paths.
pub open spec fn path_extension(p: Seq<char>) -> Option<Seq<char>> {
    match path_file_name(p) {
        Some(f) => name_extension(f),
        None => None,
    }
}

proof fn lemma_last_dot_bounds(p: Seq<char>)
    ensures
        last_dot(p) matches Some(i) ==> 0 <= i < p.len() && p[i] == '.',
    decreases p.len(),
{
    if p.len() > 0 && p.last() != '.' {
        lemma_last_dot_bounds(p.drop_last());
    }
}

/// The extension of a file name (see `name_extension`).
pub fn extension_of_name(f: &str) -> (r: Option<String>)
    ensures
        opt_seq(r) == name_extension(f@),
{
    let cs = chars_of(f);
    proof {
        reveal_strlit("..");
    }
    if cs.len() == 2 && cs[0] == '.' && cs[1] == '.' {
        assert(f@ =~= ".."@);
        return None;
    }
    assert(f@ != ".."@) by {
        if f@ == ".."@ {
            assert(cs@.len() == 2 && cs@[0] == '.' && cs@[1] == '.');
        }
    }
    let mut e: usize = cs.len();
    assert(cs@.take(cs@.len() as int) =~= cs@);
    while e > 0 && cs[e - 1] != '.'
        invariant
            0 <= e <= cs@.len(),
            cs@ == f@,
            last_dot(cs@.take(e as int)) == last_dot(f@),
        decreases e,
    {
        assert(cs@.take(e as int).drop_last() =~= cs@.take(e - 1));
        e -= 1;
    }
    if e == 0 {
        assert(cs@.take(0) =~= Seq::<char>::empty());
        return None;
    }
    assert(cs@.take(e as int).last() == cs@[e - 1]);
    assert(cs@.take(cs@.len() as int) =~= cs@);
    if e == 1 {
        return None;
    }
    let mut out: Vec<char> = Vec::new();
    let mut j: usize = e;
    while j < cs.len()
        invariant
            e <= j <= cs@.len(),
            out@ =~= cs@.subrange(e as int, j as int),
        decreases cs.len() - j,
    {
        out.push(cs[j]);
        j += 1;
    }
    Some(string_from_chars(out.as_slice()))
}

} // verus!
