//! The name search of the catalog and local lists.
//!
//! A query is a list of word patterns joined by `+` (and), `|` (or) or plain
//! spaces (and), evaluated left to right. A pattern is a word, optionally
//! negated by a leading `-`, followed by more words each joined by a run of
//! `_` (exactly that many characters between them) or by `*` (anything, or
//! nothing, between them). Matching ignores letter case.

use vstd::prelude::*;

use crate::text::{ascii_lower, chars_of, contains_seq, trim_end, trim_start, is_whitespace, is_ws, occurs_at, string_from_chars, trim, trimmed_chars};

verus! {

/// `str::to_lowercase`: the full Unicode lower-case mapping of a text.
pub uninterp spec fn lowercase_of(s: Seq<char>) -> Seq<char>;

/// How a text is lower-cased: ASCII text by lowering `A`-`Z`, any other
/// text by the full Unicode mapping.
pub open spec fn lower_text(s: Seq<char>) -> Seq<char> {
    if all_ascii(s) {
        ascii_lower(s)
    } else {
        lowercase_of(s)
    }
}

/// Every character is ASCII.
pub open spec fn all_ascii(s: Seq<char>) -> bool {
    forall|i: int| 0 <= i < s.len() ==> (#[trigger] s[i] as u32) < 128
}

/// Lower-cases a text (`str::to_lowercase`). On ASCII text the Unicode
/// mapping lowers the letters `A`-`Z` and keeps every other character, as
/// the documentation of `char::to_lowercase` and `to_ascii_lowercase` shows.
#[verifier::external_body]
fn to_lowercase(s: &str) -> (r: String)
    ensures
        r@ == lowercase_of(s@),
        all_ascii(s@) ==> r@ == ascii_lower(s@),
{
    s.to_lowercase()
}

// ─── The grammar ─────────────────────────────────────────────

/// Characters a word is made of.
pub open spec fn is_word_char(c: char) -> bool {
    !is_ws(c) && c != '+' && c != '|' && c != '-' && c != '_' && c != '*'
}

/// Characters a pattern may start with after a space (where they join it to
/// the previous one as "and").
pub open spec fn starts_pattern(c: char) -> bool {
    !is_ws(c) && c != '+' && c != '|' && c != '_' && c != '*'
}

/// The first position from `i` on that is not whitespace.
pub open spec fn skip_ws(cs: Seq<char>, i: int) -> int
    decreases cs.len() - i,
{
    if 0 <= i < cs.len() && is_ws(cs[i]) {
        skip_ws(cs, i + 1)
    } else {
        i
    }
}

/// The first position from `i` on that is not a word character.
pub open spec fn word_end(cs: Seq<char>, i: int) -> int
    decreases cs.len() - i,
{
    if 0 <= i < cs.len() && is_word_char(cs[i]) {
        word_end(cs, i + 1)
    } else {
        i
    }
}

/// The first position from `i` on that is not `_`.
pub open spec fn gap_end(cs: Seq<char>, i: int) -> int
    decreases cs.len() - i,
{
    if 0 <= i < cs.len() && cs[i] == '_' {
        gap_end(cs, i + 1)
    } else {
        i
    }
}

/// A word joined to the previous one: by exactly `gap` characters, or (when
/// `gap` is none) by anything.
pub struct LinkModel {
    pub gap: Option<nat>,
    pub word: Seq<char>,
}

/// A parsed pattern.
pub struct MatcherModel {
    pub negated: bool,
    pub head: Seq<char>,
    pub links: Seq<LinkModel>,
}

/// The links of a pattern from position `j`, and where parsing stops.
pub open spec fn parse_links(cs: Seq<char>, j: int) -> (Seq<LinkModel>, int)
    decreases cs.len() - j,
{
    let k = skip_ws(cs, j);
    if !(0 <= j <= k < cs.len()) {
        (Seq::empty(), k)
    } else if cs[k] == '_' {
        let m = gap_end(cs, k);
        let s = skip_ws(cs, m);
        let e = word_end(cs, s);
        if e > s && j < e <= cs.len() {
            let rest = parse_links(cs, e);
            (
                seq![LinkModel { gap: Some((m - k) as nat), word: lower_text(cs.subrange(s, e)) }]
                    + rest.0,
                rest.1,
            )
        } else {
            (Seq::empty(), j)
        }
    } else if cs[k] == '*' {
        let s = skip_ws(cs, k + 1);
        let e = word_end(cs, s);
        if e > s && j < e <= cs.len() {
            let rest = parse_links(cs, e);
            (seq![LinkModel { gap: None, word: lower_text(cs.subrange(s, e)) }] + rest.0, rest.1)
        } else {
            (Seq::empty(), j)
        }
    } else {
        (Seq::empty(), j)
    }
}

/// The pattern at position `i` (if a word is there), and where parsing
/// stops: after the pattern, or where its word was expected.
pub open spec fn parse_matcher(cs: Seq<char>, i: int) -> (Option<MatcherModel>, int) {
    let i1 = skip_ws(cs, i);
    if i1 >= cs.len() {
        (None, i1)
    } else {
        let negated = cs[i1] == '-';
        let i2 = if negated {
            skip_ws(cs, i1 + 1)
        } else {
            i1
        };
        let e = word_end(cs, i2);
        if e == i2 {
            (None, i2)
        } else {
            let links = parse_links(cs, e);
            (
                Some(
                    MatcherModel {
                        negated,
                        head: lower_text(cs.subrange(i2, e)),
                        links: links.0,
                    },
                ),
                links.1,
            )
        }
    }
}

/// The patterns and joins (true for "and") read from position `cursor` on,
/// after those already read.
pub open spec fn parse_from(
    cs: Seq<char>,
    cursor: int,
    ms: Seq<MatcherModel>,
    ops: Seq<bool>,
) -> (Seq<MatcherModel>, Seq<bool>)
    decreases cs.len() - cursor,
{
    if !(0 <= cursor < cs.len()) {
        (ms, ops)
    } else {
        let c1 = skip_ws(cs, cursor);
        if c1 >= cs.len() {
            (ms, ops)
        } else {
            let p = parse_matcher(cs, c1);
            match p.0 {
                None => if cursor < p.1 + 1 <= cs.len() {
                    parse_from(cs, p.1 + 1, ms, ops)
                } else {
                    (ms, ops)
                },
                Some(m) => {
                    let ms2 = ms.push(m);
                    let c3 = skip_ws(cs, p.1);
                    let had_space = c3 > p.1;
                    if c3 >= cs.len() || !(cursor < c3 <= cs.len()) {
                        (ms2, ops)
                    } else if cs[c3] == '+' {
                        parse_from(cs, c3 + 1, ms2, ops.push(true))
                    } else if cs[c3] == '|' {
                        parse_from(cs, c3 + 1, ms2, ops.push(false))
                    } else if had_space && starts_pattern(cs[c3]) {
                        parse_from(cs, c3, ms2, ops.push(true))
                    } else {
                        parse_from(cs, c3, ms2, ops)
                    }
                },
            }
        }
    }
}

/// Everything a query text parses to, before surplus joins are dropped.
pub open spec fn parse_all(input: Seq<char>) -> (Seq<MatcherModel>, Seq<bool>) {
    parse_from(trim(input), 0, Seq::empty(), Seq::empty())
}

/// Texts on which parsing never finishes: something other than spaces that
/// holds no word (such as a lone `+`).
pub open spec fn parse_hangs(input: Seq<char>) -> bool {
    trim(input).len() > 0 && parse_all(input).0.len() == 0
}

// ─── Scanning lemmas ─────────────────────────────────────────

proof fn lemma_skip_ws(cs: Seq<char>, i: int)
    requires
        0 <= i <= cs.len(),
    ensures
        i <= skip_ws(cs, i) <= cs.len(),
        skip_ws(cs, i) < cs.len() ==> !is_ws(cs[skip_ws(cs, i)]),
    decreases cs.len() - i,
{
    if i < cs.len() && is_ws(cs[i]) {
        lemma_skip_ws(cs, i + 1);
    }
}

proof fn lemma_word_end(cs: Seq<char>, i: int)
    requires
        0 <= i <= cs.len(),
    ensures
        i <= word_end(cs, i) <= cs.len(),
    decreases cs.len() - i,
{
    if i < cs.len() && is_word_char(cs[i]) {
        lemma_word_end(cs, i + 1);
    }
}

proof fn lemma_gap_end(cs: Seq<char>, i: int)
    requires
        0 <= i <= cs.len(),
    ensures
        i <= gap_end(cs, i) <= cs.len(),
    decreases cs.len() - i,
{
    if i < cs.len() && cs[i] == '_' {
        lemma_gap_end(cs, i + 1);
    }
}

proof fn lemma_parse_links_end(cs: Seq<char>, j: int)
    requires
        0 <= j <= cs.len(),
    ensures
        j <= parse_links(cs, j).1 <= cs.len(),
    decreases cs.len() - j,
{
    lemma_skip_ws(cs, j);
    let k = skip_ws(cs, j);
    if k < cs.len() {
        if cs[k] == '_' {
            lemma_gap_end(cs, k);
            let m = gap_end(cs, k);
            lemma_skip_ws(cs, m);
            let s = skip_ws(cs, m);
            lemma_word_end(cs, s);
            let e = word_end(cs, s);
            if e > s && j < e <= cs.len() {
                lemma_parse_links_end(cs, e);
            }
        } else if cs[k] == '*' {
            lemma_skip_ws(cs, k + 1);
            let s = skip_ws(cs, k + 1);
            lemma_word_end(cs, s);
            let e = word_end(cs, s);
            if e > s && j < e <= cs.len() {
                lemma_parse_links_end(cs, e);
            }
        }
    }
}

// ─── Scanning ────────────────────────────────────────────────

fn skip_spaces(cs: &[char], cursor: &mut usize) -> (moved: bool)
    requires
        *old(cursor) <= cs@.len(),
    ensures
        *final(cursor) == skip_ws(cs@, *old(cursor) as int),
        moved == (*final(cursor) > *old(cursor)),
{
    let start = *cursor;
    while *cursor < cs.len() && is_whitespace(cs[*cursor])
        invariant
            start <= *cursor <= cs@.len(),
            start == *old(cursor),
            skip_ws(cs@, *cursor as int) == skip_ws(cs@, start as int),
        decreases cs.len() - *cursor,
    {
        *cursor = *cursor + 1;
    }
    *cursor > start
}

fn scan_word_end(cs: &[char], start: usize) -> (r: usize)
    requires
        start <= cs@.len(),
    ensures
        r == word_end(cs@, start as int),
        start <= r <= cs@.len(),
{
    let mut i = start;
    while i < cs.len() && is_word_char_exec(cs[i])
        invariant
            start <= i <= cs@.len(),
            word_end(cs@, i as int) == word_end(cs@, start as int),
        decreases cs.len() - i,
    {
        i += 1;
    }
    i
}

fn scan_gap_end(cs: &[char], start: usize) -> (r: usize)
    requires
        start <= cs@.len(),
    ensures
        r == gap_end(cs@, start as int),
        start <= r <= cs@.len(),
{
    let mut i = start;
    while i < cs.len() && cs[i] == '_'
        invariant
            start <= i <= cs@.len(),
            gap_end(cs@, i as int) == gap_end(cs@, start as int),
        decreases cs.len() - i,
    {
        i += 1;
    }
    i
}

fn is_word_char_exec(c: char) -> (r: bool)
    ensures
        r == is_word_char(c),
{
    !is_whitespace(c) && c != '+' && c != '|' && c != '-' && c != '_' && c != '*'
}

fn starts_pattern_exec(c: char) -> (r: bool)
    ensures
        r == starts_pattern(c),
{
    !is_whitespace(c) && c != '+' && c != '|' && c != '_' && c != '*'
}

/// The lower-cased word `cs[s..e]`.
fn lowered_word(cs: &[char], s: usize, e: usize) -> (r: String)
    requires
        s <= e <= cs@.len(),
    ensures
        r@ == lower_text(cs@.subrange(s as int, e as int)),
{
    let mut w: Vec<char> = Vec::new();
    let mut i = s;
    while i < e
        invariant
            s <= i <= e <= cs@.len(),
            w@ =~= cs@.subrange(s as int, i as int),
        decreases e - i,
    {
        w.push(cs[i]);
        i += 1;
    }
    let t = string_from_chars(w.as_slice());
    to_lowercase(t.as_str())
}

// ─── Parsed queries ──────────────────────────────────────────

/// How two patterns are joined.
#[derive(Debug, Clone, Copy, PartialEq, Eq, Structural)]
pub enum BoolOp {
    And,
    Or,
}

/// A word joined to the previous one.
#[derive(Debug, Clone)]
pub enum GapOp {
    /// Exactly this many characters lie between the words.
    Exact(usize, String),
    /// Anything, or nothing, lies between the words.
    Any(String),
}

impl GapOp {
    pub open spec fn model(self) -> LinkModel {
        match self {
            GapOp::Exact(g, w) => LinkModel { gap: Some(g as nat), word: w@ },
            GapOp::Any(w) => LinkModel { gap: None, word: w@ },
        }
    }
}

pub open spec fn links_model(v: Seq<GapOp>) -> Seq<LinkModel> {
    v.map_values(|l: GapOp| l.model())
}

/// One pattern of a query.
#[derive(Debug, Clone)]
pub struct NameMatcher {
    negated: bool,
    head: String,
    links: Vec<GapOp>,
}

impl NameMatcher {
    pub closed spec fn model(self) -> MatcherModel {
        MatcherModel { negated: self.negated, head: self.head@, links: links_model(self.links@) }
    }
}

pub open spec fn matchers_model(v: Seq<NameMatcher>) -> Seq<MatcherModel> {
    v.map_values(|m: NameMatcher| m.model())
}

pub open spec fn ops_model(v: Seq<BoolOp>) -> Seq<bool> {
    v.map_values(|o: BoolOp| o == BoolOp::And)
}

/// A parsed name query.
#[derive(Debug)]
pub struct NameQuery {
    matchers: Vec<NameMatcher>,
    ops: Vec<BoolOp>,
}

/// The joins kept: at most one fewer than the patterns.
pub open spec fn kept_ops(ms: Seq<MatcherModel>, ops: Seq<bool>) -> Seq<bool> {
    if ms.len() > 0 && ops.len() >= ms.len() {
        ops.take(ms.len() - 1)
    } else {
        ops
    }
}

fn parse_links_exec(cs: &[char], cursor: &mut usize) -> (r: Vec<GapOp>)
    requires
        *old(cursor) <= cs@.len(),
    ensures
        links_model(r@) == parse_links(cs@, *old(cursor) as int).0,
        *final(cursor) as int == parse_links(cs@, *old(cursor) as int).1,
    decreases cs@.len() - *old(cursor),
{
    let j = *cursor;
    let mut k = j;
    skip_spaces(cs, &mut k);
    proof {
        lemma_skip_ws(cs@, j as int);
    }
    if k >= cs.len() {
        *cursor = k;
        let none: Vec<GapOp> = Vec::new();
        assert(links_model(none@) =~= Seq::<LinkModel>::empty());
        return none;
    }
    if cs[k] == '_' {
        let m = scan_gap_end(cs, k);
        let mut s = m;
        skip_spaces(cs, &mut s);
        proof {
            lemma_skip_ws(cs@, m as int);
        }
        let e = scan_word_end(cs, s);
        if e > s {
            let word = lowered_word(cs, s, e);
            let gap = m - k;
            *cursor = e;
            let mut rest = parse_links_exec(cs, cursor);
            let mut v: Vec<GapOp> = Vec::new();
            v.push(GapOp::Exact(gap, word));
            let ghost first = v@;
            let ghost rest_v = rest@;
            v.append(&mut rest);
            proof {
                assert(links_model(v@) =~= links_model(first) + links_model(rest_v)) by {
                    assert(v@ =~= first + rest_v);
                }
            }
            return v;
        }
        *cursor = j;
        let none: Vec<GapOp> = Vec::new();
        assert(links_model(none@) =~= Seq::<LinkModel>::empty());
        return none;
    }
    if cs[k] == '*' {
        let mut s = k + 1;
        skip_spaces(cs, &mut s);
        proof {
            lemma_skip_ws(cs@, k + 1);
        }
        let e = scan_word_end(cs, s);
        if e > s {
            let word = lowered_word(cs, s, e);
            *cursor = e;
            let mut rest = parse_links_exec(cs, cursor);
            let mut v: Vec<GapOp> = Vec::new();
            v.push(GapOp::Any(word));
            let ghost first = v@;
            let ghost rest_v = rest@;
            v.append(&mut rest);
            proof {
                assert(links_model(v@) =~= links_model(first) + links_model(rest_v)) by {
                    assert(v@ =~= first + rest_v);
                }
            }
            return v;
        }
        *cursor = j;
        let none: Vec<GapOp> = Vec::new();
        assert(links_model(none@) =~= Seq::<LinkModel>::empty());
        return none;
    }
    *cursor = j;
    let none: Vec<GapOp> = Vec::new();
    assert(links_model(none@) =~= Seq::<LinkModel>::empty());
    none
}

fn parse_matcher_exec(cs: &[char], cursor: &mut usize) -> (r: Option<NameMatcher>)
    requires
        *old(cursor) <= cs@.len(),
    ensures
        ({
            let p = parse_matcher(cs@, *old(cursor) as int);
            &&& *final(cursor) as int == p.1
            &&& match r {
                Some(m) => p.0 == Some(m.model()),
                None => p.0 is None,
            }
        }),
        *old(cursor) <= *final(cursor) <= cs@.len(),
{
    let ghost i = *cursor as int;
    skip_spaces(cs, cursor);
    proof {
        lemma_skip_ws(cs@, i);
    }
    if *cursor >= cs.len() {
        return None;
    }
    let mut negated = false;
    if cs[*cursor] == '-' {
        negated = true;
        *cursor = *cursor + 1;
        let ghost at = *cursor as int;
        skip_spaces(cs, cursor);
        proof {
            lemma_skip_ws(cs@, at);
        }
    }
    let start = *cursor;
    let e = scan_word_end(cs, start);
    if e == start {
        return None;
    }
    let head = lowered_word(cs, start, e);
    *cursor = e;
    let links = parse_links_exec(cs, cursor);
    proof {
        lemma_parse_links_end(cs@, e as int);
    }
    Some(NameMatcher { negated, head, links })
}

/// Reads patterns and joins; returns them before surplus joins are dropped.
fn parse_parts(cs: &[char]) -> (r: (Vec<NameMatcher>, Vec<BoolOp>))
    ensures
        matchers_model(r.0@) == parse_from(cs@, 0, Seq::empty(), Seq::empty()).0,
        ops_model(r.1@) == parse_from(cs@, 0, Seq::empty(), Seq::empty()).1,
        r.1@.len() <= r.0@.len(),
{
    let mut matchers: Vec<NameMatcher> = Vec::new();
    let mut ops: Vec<BoolOp> = Vec::new();
    let mut cursor: usize = 0;
    let ghost goal = parse_from(cs@, 0, Seq::empty(), Seq::empty());
    assert(matchers_model(matchers@) =~= Seq::<MatcherModel>::empty());
    assert(ops_model(ops@) =~= Seq::<bool>::empty());
    while cursor < cs.len()
        invariant
            cursor <= cs@.len(),
            parse_from(cs@, cursor as int, matchers_model(matchers@), ops_model(ops@)) == goal,
            ops@.len() <= matchers@.len(),
        ensures
            matchers_model(matchers@) == goal.0,
            ops_model(ops@) == goal.1,
            ops@.len() <= matchers@.len(),
        decreases cs@.len() - cursor,
    {
        let ghost c0 = cursor as int;
        let ghost ms0 = matchers_model(matchers@);
        let ghost ops0 = ops_model(ops@);
        skip_spaces(cs, &mut cursor);
        proof {
            lemma_skip_ws(cs@, c0);
        }
        if cursor >= cs.len() {
            break;
        }
        let ghost c1 = cursor as int;
        let parsed = parse_matcher_exec(cs, &mut cursor);
        match parsed {
            None => {
                if cursor >= cs.len() {
                    break;
                }
                cursor = cursor + 1;
            },
            Some(m) => {
                let ghost p_end = cursor as int;
                proof {
                    let pm = parse_matcher(cs@, c1);
                    lemma_skip_ws(cs@, c1);
                    let i2 = if cs@[c1] == '-' {
                        skip_ws(cs@, c1 + 1)
                    } else {
                        c1
                    };
                    lemma_skip_ws(cs@, c1 + 1);
                    lemma_word_end(cs@, i2);
                    lemma_parse_links_end(cs@, word_end(cs@, i2));
                    assert(p_end > c0);
                }
                matchers.push(m);
                proof {
                    assert(matchers_model(matchers@) =~= ms0.push(m.model()));
                }
                let had_space = skip_spaces(cs, &mut cursor);
                proof {
                    lemma_skip_ws(cs@, p_end);
                }
                if cursor >= cs.len() {
                    break;
                }
                if cs[cursor] == '+' {
                    ops.push(BoolOp::And);
                    proof {
                        assert(ops_model(ops@) =~= ops0.push(true));
                    }
                    cursor = cursor + 1;
                } else if cs[cursor] == '|' {
                    ops.push(BoolOp::Or);
                    proof {
                        assert(ops_model(ops@) =~= ops0.push(false));
                    }
                    cursor = cursor + 1;
                } else if had_space && starts_pattern_exec(cs[cursor]) {
                    ops.push(BoolOp::And);
                    proof {
                        assert(ops_model(ops@) =~= ops0.push(true));
                    }
                }
            },
        }
    }
    (matchers, ops)
}

impl NameQuery {
    pub closed spec fn spec_matchers(&self) -> Seq<MatcherModel> {
        matchers_model(self.matchers@)
    }

    pub closed spec fn spec_ops(&self) -> Seq<bool> {
        ops_model(self.ops@)
    }

    /// Parses a query text. A text that holds something but no word (such as
    /// a lone `+`) is left out: reading it never finishes.
    pub fn parse(input: &str) -> (r: Self)
        requires
            !parse_hangs(input@),
        ensures
            r.spec_matchers() == parse_all(input@).0,
            r.spec_ops() == kept_ops(parse_all(input@).0, parse_all(input@).1),
    {
        let cs = trimmed_chars(input);
        if cs.len() == 0 {
            let matchers: Vec<NameMatcher> = Vec::new();
            let ops: Vec<BoolOp> = Vec::new();
            proof {
                assert(matchers_model(matchers@) =~= Seq::<MatcherModel>::empty());
                assert(ops_model(ops@) =~= Seq::<bool>::empty());
            }
            return NameQuery { matchers, ops };
        }
        let (matchers, mut ops) = parse_parts(cs.as_slice());
        let ghost all_ops = ops_model(ops@);
        if ops.len() >= matchers.len() {
            ops.pop();
            proof {
                assert(ops_model(ops@) =~= all_ops.take(matchers@.len() - 1));
            }
        }
        NameQuery { matchers, ops }
    }

    /// Parses a query text, or gives none for a text whose reading would
    /// never finish (see `parse`).
    pub fn try_parse(input: &str) -> (r: Option<Self>)
        ensures
            parse_hangs(input@) ==> r is None,
            !parse_hangs(input@) ==> (r matches Some(q) && q.spec_matchers() == parse_all(input@).0
                && q.spec_ops() == kept_ops(parse_all(input@).0, parse_all(input@).1)),
    {
        let cs = trimmed_chars(input);
        if cs.len() == 0 {
            return Some(NameQuery::parse(input));
        }
        let (matchers, _) = parse_parts(cs.as_slice());
        if matchers.len() == 0 {
            assert(matchers_model(matchers@).len() == 0);
            return None;
        }
        Some(NameQuery::parse(input))
    }
}

// ─── Matching ────────────────────────────────────────────────

/// The word at `start` follows a previous word ending at `prev_end` as the
/// link asks.
pub open spec fn gap_ok(l: LinkModel, prev_end: int, start: int) -> bool {
    match l.gap {
        Some(g) => start == prev_end + g,
        None => start >= prev_end,
    }
}

/// The length of piece `i` of a pattern: the head, then each link's word.
pub open spec fn piece_len(head: Seq<char>, links: Seq<LinkModel>, i: int) -> int {
    if i == 0 {
        head.len() as int
    } else {
        links[i - 1].word.len() as int
    }
}

/// `ps` are the starts of the head and of the first links, in `hay`, each
/// piece non-empty and placed as its link asks.
pub open spec fn valid_chain(hay: Seq<char>, head: Seq<char>, links: Seq<LinkModel>, ps: Seq<int>) -> bool {
    &&& 1 <= ps.len() <= links.len() + 1
    &&& head.len() > 0
    &&& occurs_at(hay, head, ps[0])
    &&& forall|i: int| 1 <= i < ps.len() ==> #[trigger] piece_ok(hay, head, links, ps, i)
}

/// Piece `i` (a link's word) of the chain `ps` is in place.
pub open spec fn piece_ok(hay: Seq<char>, head: Seq<char>, links: Seq<LinkModel>, ps: Seq<int>, i: int) -> bool {
    &&& links[i - 1].word.len() > 0
    &&& occurs_at(hay, links[i - 1].word, ps[i])
    &&& gap_ok(links[i - 1], ps[i - 1] + piece_len(head, links, i - 1), ps[i])
}

/// The head and the first `k` links occur in `hay` as a chain from `s` to `e`.
pub open spec fn chain_to(hay: Seq<char>, head: Seq<char>, links: Seq<LinkModel>, k: int, s: int, e: int) -> bool {
    exists|ps: Seq<int>|
        #[trigger] valid_chain(hay, head, links, ps) && ps.len() == k + 1 && ps[0] == s && e == ps[k]
            + piece_len(head, links, k)
}

/// The whole pattern (head and every link) occurs in `hay`.
pub open spec fn chain_exists(hay: Seq<char>, head: Seq<char>, links: Seq<LinkModel>) -> bool {
    exists|s: int, e: int| chain_to(hay, head, links, links.len() as int, s, e)
}

/// Whether a pattern accepts a lower-cased name.
pub open spec fn matcher_accepts(m: MatcherModel, hay: Seq<char>) -> bool {
    if m.head.len() == 0 {
        false
    } else if m.negated {
        !chain_exists(hay, m.head, m.links)
    } else {
        chain_exists(hay, m.head, m.links)
    }
}

/// The value of the first `k + 1` patterns joined left to right.
pub open spec fn eval_prefix(ms: Seq<MatcherModel>, ops: Seq<bool>, hay: Seq<char>, k: nat) -> bool
    decreases k,
{
    if k == 0 {
        matcher_accepts(ms[0], hay)
    } else if ops[k - 1] {
        eval_prefix(ms, ops, hay, (k - 1) as nat) && matcher_accepts(ms[k as int], hay)
    } else {
        eval_prefix(ms, ops, hay, (k - 1) as nat) || matcher_accepts(ms[k as int], hay)
    }
}

/// Whether a query accepts a name: an empty query accepts every name.
pub open spec fn query_accepts(ms: Seq<MatcherModel>, ops: Seq<bool>, name: Seq<char>) -> bool {
    if ms.len() == 0 {
        true
    } else {
        eval_prefix(
            ms,
            ops,
            lower_text(name),
            if ops.len() < ms.len() - 1 {
                ops.len()
            } else {
                (ms.len() - 1) as nat
            },
        )
    }
}

/// `pr` is a place where the non-empty `needle` occurs in `hay`, as (start, end).
pub open spec fn occ_pair(hay: Seq<char>, needle: Seq<char>, pr: (usize, usize)) -> bool {
    needle.len() > 0 && occurs_at(hay, needle, pr.0 as int) && pr.1 == pr.0 + needle.len()
}

/// Every place `needle` occurs in `hay`, as (start, end) pairs.
fn find_occurrences(hay: &[char], needle: &[char]) -> (r: Vec<(usize, usize)>)
    ensures
        forall|i: int| 0 <= i < r@.len() ==> occ_pair(hay@, needle@, #[trigger] r@[i]),
        forall|p: int|
            needle@.len() > 0 && occurs_at(hay@, needle@, p) ==> exists|i: int|
                0 <= i < r@.len() && (#[trigger] r@[i]).0 == p && r@[i].1 == p + needle@.len(),
{
    let mut out: Vec<(usize, usize)> = Vec::new();
    if needle.len() == 0 || hay.len() < needle.len() {
        return out;
    }
    let last = hay.len() - needle.len();
    let mut start: usize = 0;
    assert(hay@.len() == hay.len());
    while start <= last
        invariant
            last + needle@.len() == hay@.len(),
            hay@.len() <= usize::MAX,
            needle@.len() > 0,
            0 <= start <= last + 1,
            forall|i: int| 0 <= i < out@.len() ==> occ_pair(hay@, needle@, #[trigger] out@[i]),
            forall|p: int|
                0 <= p < start && occurs_at(hay@, needle@, p) ==> exists|i: int|
                    0 <= i < out@.len() && (#[trigger] out@[i]).0 == p && out@[i].1 == p
                        + needle@.len(),
        decreases last + 1 - start,
    {
        if crate::text::matches_at(hay, needle, start) {
            let ghost before = out@;
            out.push((start, start + needle.len()));
            proof {
                let n = out@.len() - 1;
                assert forall|p: int|
                    0 <= p < start + 1 && occurs_at(hay@, needle@, p) implies exists|i: int|
                    0 <= i < out@.len() && (#[trigger] out@[i]).0 == p && out@[i].1 == p
                        + needle@.len() by {
                    if p == start {
                        assert(out@[n].0 == p);
                    } else {
                        let i = choose|i: int|
                            0 <= i < before.len() && (#[trigger] before[i]).0 == p && before[i].1 == p
                                + needle@.len();
                        assert(out@[i] == before[i]);
                    }
                }
            }
        }
        start += 1;
    }
    out
}

proof fn lemma_chain_base(hay: Seq<char>, head: Seq<char>, links: Seq<LinkModel>, s: int)
    requires
        head.len() > 0,
        occurs_at(hay, head, s),
    ensures
        chain_to(hay, head, links, 0, s, s + head.len()),
{
    let ps = seq![s];
    assert(valid_chain(hay, head, links, ps));
}

proof fn lemma_chain_base_inv(hay: Seq<char>, head: Seq<char>, links: Seq<LinkModel>, s: int, e: int)
    requires
        chain_to(hay, head, links, 0, s, e),
    ensures
        head.len() > 0 && occurs_at(hay, head, s) && e == s + head.len(),
{
    let ps = choose|ps: Seq<int>|
        #[trigger] valid_chain(hay, head, links, ps) && ps.len() == 1 && ps[0] == s && e == ps[0]
            + piece_len(head, links, 0);
}

proof fn lemma_chain_step(
    hay: Seq<char>,
    head: Seq<char>,
    links: Seq<LinkModel>,
    k: int,
    s: int,
    e0: int,
    p: int,
)
    requires
        0 <= k < links.len(),
        chain_to(hay, head, links, k, s, e0),
        links[k].word.len() > 0,
        occurs_at(hay, links[k].word, p),
        gap_ok(links[k], e0, p),
    ensures
        chain_to(hay, head, links, k + 1, s, p + links[k].word.len()),
{
    let ps = choose|ps: Seq<int>|
        #[trigger] valid_chain(hay, head, links, ps) && ps.len() == k + 1 && ps[0] == s && e0 == ps[k]
            + piece_len(head, links, k);
    let qs = ps.push(p);
    assert forall|i: int| 1 <= i < qs.len() implies #[trigger] piece_ok(hay, head, links, qs, i) by {
        if i < ps.len() {
            assert(piece_ok(hay, head, links, ps, i));
            assert(qs[i] == ps[i] && qs[i - 1] == ps[i - 1]);
        } else {
            assert(qs[i - 1] == ps[k]);
            assert(qs[i] == p);
        }
    }
    assert(valid_chain(hay, head, links, qs));
}

/// Splits a chain through `k + 1` links into one through `k` links and the
/// last word.
proof fn lemma_chain_split(hay: Seq<char>, head: Seq<char>, links: Seq<LinkModel>, k: int, s: int, e: int) -> (r: (int, int))
    requires
        0 <= k,
        chain_to(hay, head, links, k + 1, s, e),
    ensures
        chain_to(hay, head, links, k, s, r.0),
        links[k].word.len() > 0,
        occurs_at(hay, links[k].word, r.1),
        gap_ok(links[k], r.0, r.1),
        e == r.1 + links[k].word.len(),
{
    let ps = choose|ps: Seq<int>|
        #[trigger] valid_chain(hay, head, links, ps) && ps.len() == k + 2 && ps[0] == s && e == ps[k + 1]
            + piece_len(head, links, k + 1);
    let qs = ps.drop_last();
    assert forall|i: int| 1 <= i < qs.len() implies #[trigger] piece_ok(hay, head, links, qs, i) by {
        assert(piece_ok(hay, head, links, ps, i));
        assert(qs[i] == ps[i] && qs[i - 1] == ps[i - 1]);
    }
    assert(valid_chain(hay, head, links, qs));
    let x = ps[k] + piece_len(head, links, k);
    assert(piece_ok(hay, head, links, ps, k + 1));
    (x, ps[k + 1])
}

proof fn lemma_chain_prefix(
    hay: Seq<char>,
    head: Seq<char>,
    links: Seq<LinkModel>,
    n: int,
    k: int,
    s: int,
    e: int,
)
    requires
        chain_to(hay, head, links, n, s, e),
        0 <= k <= n,
    ensures
        exists|e1: int| chain_to(hay, head, links, k, s, e1),
    decreases n,
{
    if n > k {
        let (x, p) = lemma_chain_split(hay, head, links, n - 1, s, e);
        lemma_chain_prefix(hay, head, links, n - 1, k, s, x);
    }
}

fn gap_fits(link: &GapOp, prev_end: usize, start: usize) -> (r: bool)
    ensures
        r == gap_ok(link.model(), prev_end as int, start as int),
{
    match link {
        GapOp::Exact(g, _) => start >= prev_end && start - prev_end == *g,
        GapOp::Any(_) => start >= prev_end,
    }
}

fn link_word(link: &GapOp) -> (r: &String)
    ensures
        r@ == link.model().word,
{
    match link {
        GapOp::Exact(_, w) => w,
        GapOp::Any(w) => w,
    }
}

/// Whether the head and all links occur in `hay` as a chain.
fn chain_found(hay: &[char], head: &[char], links: &Vec<GapOp>) -> (r: bool)
    ensures
        r == chain_exists(hay@, head@, links_model(links@)),
{
    let ghost lm = links_model(links@);
    let mut spans = find_occurrences(hay, head);
    proof {
        assert forall|i: int| 0 <= i < spans@.len() implies chain_to(
            hay@,
            head@,
            lm,
            0,
            (#[trigger] spans@[i]).0 as int,
            spans@[i].1 as int,
        ) by {
            assert(occ_pair(hay@, head@, spans@[i]));
            lemma_chain_base(hay@, head@, lm, spans@[i].0 as int);
        }
        assert forall|s: int, e: int| chain_to(hay@, head@, lm, 0, s, e) implies exists|i: int|
            0 <= i < spans@.len() && (#[trigger] spans@[i]).0 == s && spans@[i].1 == e by {
            lemma_chain_base_inv(hay@, head@, lm, s, e);
        }
    }
    let mut k: usize = 0;
    while k < links.len()
        invariant
            0 <= k <= links@.len(),
            lm == links_model(links@),
            lm.len() == links@.len(),
            forall|i: int|
                0 <= i < spans@.len() ==> chain_to(
                    hay@,
                    head@,
                    lm,
                    k as int,
                    (#[trigger] spans@[i]).0 as int,
                    spans@[i].1 as int,
                ),
            forall|s: int, e: int|
                chain_to(hay@, head@, lm, k as int, s, e) ==> exists|i: int|
                    0 <= i < spans@.len() && (#[trigger] spans@[i]).0 == s && spans@[i].1 == e,
        decreases links@.len() - k,
    {
        let link = &links[k];
        let ghost l = lm[k as int];
        assert(l == link.model());
        let word = link_word(link);
        let needle = chars_of(word.as_str());
        let needle_s = needle.as_slice();
        assert(needle_s@ == needle@);
        let next = find_occurrences(hay, needle_s);
        let mut combined: Vec<(usize, usize)> = Vec::new();
        let mut a: usize = 0;
        while a < spans.len()
            invariant
                0 <= a <= spans@.len(),
                k < links@.len(),
                lm == links_model(links@),
                lm.len() == links@.len(),
                l == lm[k as int],
                l == link.model(),
                needle@ == l.word,
                forall|i: int|
                    0 <= i < spans@.len() ==> chain_to(
                        hay@,
                        head@,
                        lm,
                        k as int,
                        (#[trigger] spans@[i]).0 as int,
                        spans@[i].1 as int,
                    ),
                forall|j: int| 0 <= j < next@.len() ==> occ_pair(hay@, needle@, #[trigger] next@[j]),
                forall|c: int|
                    0 <= c < combined@.len() ==> chain_to(
                        hay@,
                        head@,
                        lm,
                        k + 1,
                        (#[trigger] combined@[c]).0 as int,
                        combined@[c].1 as int,
                    ),
                forall|i: int, j: int|
                    0 <= i < a && 0 <= j < next@.len() && gap_ok(
                        l,
                        spans@[i].1 as int,
                        next@[j].0 as int,
                    ) ==> exists|c: int|
                        0 <= c < combined@.len() && (#[trigger] combined@[c]).0 == (#[trigger] spans@[i]).0
                            && combined@[c].1 == (#[trigger] next@[j]).1,
            decreases spans@.len() - a,
        {
            let (s0, e0) = spans[a];
            let mut b: usize = 0;
            while b < next.len()
                invariant
                    0 <= a < spans@.len(),
                    0 <= b <= next@.len(),
                    (s0, e0) == spans@[a as int],
                    k < links@.len(),
                    lm == links_model(links@),
                    lm.len() == links@.len(),
                    l == lm[k as int],
                    l == link.model(),
                    needle@ == l.word,
                    forall|i: int|
                        0 <= i < spans@.len() ==> chain_to(
                            hay@,
                            head@,
                            lm,
                            k as int,
                            (#[trigger] spans@[i]).0 as int,
                            spans@[i].1 as int,
                        ),
                    forall|j: int| 0 <= j < next@.len() ==> occ_pair(hay@, needle@, #[trigger] next@[j]),
                    forall|c: int|
                        0 <= c < combined@.len() ==> chain_to(
                            hay@,
                            head@,
                            lm,
                            k + 1,
                            (#[trigger] combined@[c]).0 as int,
                            combined@[c].1 as int,
                        ),
                    forall|i: int, j: int|
                        ((0 <= i < a && 0 <= j < next@.len()) || (i == a && 0 <= j < b)) && gap_ok(
                            l,
                            spans@[i].1 as int,
                            next@[j].0 as int,
                        ) ==> exists|c: int|
                            0 <= c < combined@.len() && (#[trigger] combined@[c]).0 == (
                            #[trigger] spans@[i]).0 && combined@[c].1 == (#[trigger] next@[j]).1,
                decreases next@.len() - b,
            {
                let (ns, ne) = next[b];
                if gap_fits(link, e0, ns) {
                    let ghost before = combined@;
                    combined.push((s0, ne));
                    proof {
                        assert(chain_to(hay@, head@, lm, k as int, s0 as int, e0 as int));
                        assert(occ_pair(hay@, needle@, next@[b as int]));
                        assert(occurs_at(hay@, l.word, ns as int));
                        lemma_chain_step(hay@, head@, lm, k as int, s0 as int, e0 as int, ns as int);
                        assert(chain_to(hay@, head@, lm, k + 1, s0 as int, ne as int));
                        assert forall|i: int, j: int|
                            ((0 <= i < a && 0 <= j < next@.len()) || (i == a && 0 <= j < b + 1))
                                && gap_ok(l, spans@[i].1 as int, next@[j].0 as int) implies exists|c: int|
                            0 <= c < combined@.len() && (#[trigger] combined@[c]).0 == (
                            #[trigger] spans@[i]).0 && combined@[c].1 == (#[trigger] next@[j]).1 by {
                            if i == a && j == b {
                                assert(combined@[before.len() as int] == (s0, ne));
                            } else {
                                let c = choose|c: int|
                                    0 <= c < before.len() && (#[trigger] before[c]).0 == spans@[i].0
                                        && before[c].1 == next@[j].1;
                                assert(combined@[c] == before[c]);
                            }
                        }
                    }
                }
                b += 1;
            }
            a += 1;
        }
        if combined.len() == 0 {
            proof {
                assert forall|s: int, e: int| !chain_to(hay@, head@, lm, lm.len() as int, s, e) by {
                    if chain_to(hay@, head@, lm, lm.len() as int, s, e) {
                        let kk: int = k + 1;
                        lemma_chain_prefix(hay@, head@, lm, lm.len() as int, kk, s, e);
                        let e1 = choose|e1: int| chain_to(hay@, head@, lm, kk, s, e1);
                        let (x, p) = lemma_chain_split(hay@, head@, lm, k as int, s, e1);
                        let i = choose|i: int| 0 <= i < spans@.len() && (#[trigger] spans@[i]).0 == s && spans@[i].1 == x;
                        let j = choose|j: int|
                            0 <= j < next@.len() && (#[trigger] next@[j]).0 == p && next@[j].1 == p
                                + needle@.len();
                        assert(gap_ok(l, spans@[i].1 as int, next@[j].0 as int));
                    }
                }
            }
            return false;
        }
        proof {
            let kk: int = k + 1;
            assert forall|s: int, e: int| chain_to(hay@, head@, lm, kk, s, e) implies exists|c: int|
                0 <= c < combined@.len() && (#[trigger] combined@[c]).0 == s && combined@[c].1 == e by {
                let (x, p) = lemma_chain_split(hay@, head@, lm, k as int, s, e);
                let i = choose|i: int| 0 <= i < spans@.len() && (#[trigger] spans@[i]).0 == s && spans@[i].1 == x;
                let j = choose|j: int|
                    0 <= j < next@.len() && (#[trigger] next@[j]).0 == p && next@[j].1 == p + needle@.len();
                assert(gap_ok(l, spans@[i].1 as int, next@[j].0 as int));
                let c = choose|c: int|
                    0 <= c < combined@.len() && (#[trigger] combined@[c]).0 == (#[trigger] spans@[i]).0
                        && combined@[c].1 == (#[trigger] next@[j]).1;
            }
        }
        spans = combined;
        k += 1;
    }
    proof {
        if spans@.len() > 0 {
            assert(chain_to(hay@, head@, lm, lm.len() as int, spans@[0].0 as int, spans@[0].1 as int));
        } else {
            assert forall|s: int, e: int| !chain_to(hay@, head@, lm, lm.len() as int, s, e) by {
                if chain_to(hay@, head@, lm, lm.len() as int, s, e) {
                    let i = choose|i: int| 0 <= i < spans@.len() && (#[trigger] spans@[i]).0 == s && spans@[i].1 == e;
                }
            }
        }
    }
    spans.len() > 0
}


impl NameMatcher {
    /// Whether the pattern accepts a lower-cased name.
    fn matches(&self, hay: &[char]) -> (r: bool)
        ensures
            r == matcher_accepts(self.model(), hay@),
    {
        let head = chars_of(self.head.as_str());
        if head.len() == 0 {
            return false;
        }
        let matched = chain_found(hay, head.as_slice(), &self.links);
        if self.negated {
            !matched
        } else {
            matched
        }
    }
}

impl NameQuery {
    /// Whether the query accepts a name (in any letter case): the patterns'
    /// verdicts joined left to right; an empty query accepts everything.
    pub fn matches(&self, name: &str) -> (r: bool)
        ensures
            r == query_accepts(self.spec_matchers(), self.spec_ops(), name@),
    {
        if self.matchers.len() == 0 {
            return true;
        }
        let lowered = to_lowercase(name);
        let hay = chars_of(lowered.as_str());
        let ghost ms = self.spec_matchers();
        let ghost ops = self.spec_ops();
        let mut matched = self.matchers[0].matches(hay.as_slice());
        let n: usize = if self.ops.len() < self.matchers.len() - 1 {
            self.ops.len()
        } else {
            self.matchers.len() - 1
        };
        let mut k: usize = 0;
        while k < n
            invariant
                0 <= k <= n,
                n <= self.ops@.len(),
                n < self.matchers@.len(),
                ms == matchers_model(self.matchers@),
                ops == ops_model(self.ops@),
                hay@ == lower_text(name@),
                matched == eval_prefix(ms, ops, hay@, k as nat),
            decreases n - k,
        {
            let rhs = self.matchers[k + 1].matches(hay.as_slice());
            matched = match self.ops[k] {
                BoolOp::And => matched && rhs,
                BoolOp::Or => matched || rhs,
            };
            proof {
                assert(ops[k as int] == (self.ops@[k as int] == BoolOp::And));
                assert(ms[k + 1] == self.matchers@[k + 1].model());
            }
            k += 1;
        }
        matched
    }
}

// ─── Laws of the query language ─────────────────────────────

/// A run of word characters from `i` up to `e` ends the word there.
proof fn lemma_word_run(cs: Seq<char>, i: int, e: int)
    requires
        0 <= i <= e <= cs.len(),
        forall|j: int| i <= j < e ==> is_word_char(cs[j]),
        e == cs.len() || !is_word_char(cs[e]),
    ensures
        word_end(cs, i) == e,
    decreases e - i,
{
    if i < e {
        lemma_word_run(cs, i + 1, e);
    }
}

/// A pattern made of one word and nothing else accepts exactly the texts
/// that hold the word.
proof fn lemma_single_word_accepts(hay: Seq<char>, head: Seq<char>)
    requires
        head.len() > 0,
    ensures
        matcher_accepts(MatcherModel { negated: false, head, links: Seq::empty() }, hay) == contains_seq(
            hay,
            head,
        ),
{
    let links = Seq::<LinkModel>::empty();
    if chain_exists(hay, head, links) {
        let (s, e) = choose|s: int, e: int| chain_to(hay, head, links, links.len() as int, s, e);
        lemma_chain_base_inv(hay, head, links, s, e);
    }
    if contains_seq(hay, head) {
        let i = choose|i: int| occurs_at(hay, head, i);
        lemma_chain_base(hay, head, links, i);
    }
}

/// Two words with one separator between them (a space, `+` or `|`) parse
/// to the two single-word patterns, joined by "and" for a space or `+` and
/// by "or" for `|`.
proof fn lemma_two_words(a: Seq<char>, b: Seq<char>, sep: char)
    requires
        a.len() > 0,
        b.len() > 0,
        forall|i: int| 0 <= i < a.len() ==> is_word_char(#[trigger] a[i]),
        forall|i: int| 0 <= i < b.len() ==> is_word_char(#[trigger] b[i]),
        sep == ' ' || sep == '+' || sep == '|',
    ensures
        parse_all(a + seq![sep] + b) == (
            seq![
                MatcherModel { negated: false, head: lower_text(a), links: Seq::empty() },
                MatcherModel { negated: false, head: lower_text(b), links: Seq::empty() },
            ],
            seq![sep != '|'],
        ),
{
    let cs = a + seq![sep] + b;
    let n = a.len() as int;
    let len = cs.len() as int;
    assert(len == n + 1 + b.len());
    assert forall|j: int| 0 <= j < n implies is_word_char(#[trigger] cs[j]) by {
        assert(cs[j] == a[j]);
    }
    assert forall|j: int| n + 1 <= j < len implies is_word_char(#[trigger] cs[j]) by {
        assert(cs[j] == b[j - n - 1]);
    }
    assert(cs[n] == sep);
    assert(!is_word_char(cs[n]));
    assert(is_word_char(cs[0]));
    assert(is_word_char(cs[len - 1]));
    assert(trim_start(cs) == cs);
    assert(trim_end(cs) == cs);
    assert(trim(cs) == cs);
    assert(skip_ws(cs, 0) == 0);
    lemma_word_run(cs, 0, n);
    assert(skip_ws(cs, n + 1) == n + 1);
    let after = if sep == ' ' {
        n + 1
    } else {
        n
    };
    assert(skip_ws(cs, n) == after);
    assert(parse_links(cs, n) == (Seq::<LinkModel>::empty(), n));
    assert(cs.subrange(0, n) =~= a);
    let m1 = MatcherModel { negated: false, head: lower_text(a), links: Seq::empty() };
    assert(parse_matcher(cs, 0) == (Some(m1), n));
    lemma_word_run(cs, n + 1, len);
    assert(skip_ws(cs, len) == len);
    assert(parse_links(cs, len) == (Seq::<LinkModel>::empty(), len));
    assert(cs.subrange(n + 1, len) =~= b);
    let m2 = MatcherModel { negated: false, head: lower_text(b), links: Seq::empty() };
    assert(parse_matcher(cs, n + 1) == (Some(m2), len));
    let op = sep != '|';
    assert(parse_from(cs, n + 1, seq![m1], seq![op]) == (seq![m1].push(m2), seq![op]));
    assert(starts_pattern(cs[n + 1]));
    assert(parse_from(cs, 0, Seq::empty(), Seq::empty()) == parse_from(cs, n + 1, seq![m1], seq![op]));
    assert(seq![m1].push(m2) =~= seq![m1, m2]);
}

/// How two single-word patterns joined by `op` judge a name.
proof fn lemma_two_words_accept(a: Seq<char>, b: Seq<char>, op: bool, name: Seq<char>)
    requires
        lower_text(a).len() > 0,
        lower_text(b).len() > 0,
    ensures
        ({
            let ms = seq![
                MatcherModel { negated: false, head: lower_text(a), links: Seq::empty() },
                MatcherModel { negated: false, head: lower_text(b), links: Seq::empty() },
            ];
            let hay = lower_text(name);
            query_accepts(ms, kept_ops(ms, seq![op]), name) == if op {
                contains_seq(hay, lower_text(a)) && contains_seq(hay, lower_text(b))
            } else {
                contains_seq(hay, lower_text(a)) || contains_seq(hay, lower_text(b))
            }
        }),
{
    let m1 = MatcherModel { negated: false, head: lower_text(a), links: Seq::empty() };
    let m2 = MatcherModel { negated: false, head: lower_text(b), links: Seq::empty() };
    let ms = seq![m1, m2];
    let hay = lower_text(name);
    assert(kept_ops(ms, seq![op]) == seq![op]);
    lemma_single_word_accepts(hay, lower_text(a));
    lemma_single_word_accepts(hay, lower_text(b));
    assert(ms[0] == m1 && ms[1] == m2);
    assert(eval_prefix(ms, seq![op], hay, 0) == matcher_accepts(m1, hay));
}

/// Two words separated only by a space are joined by "and": the query
/// accepts a name exactly when the lower-cased name holds both lower-cased
/// words (a join by "or" would accept a name holding either). `+` joins
/// the same way; `|` joins by "or", accepting a name that holds either.
pub proof fn lemma_space_joins_with_and(a: Seq<char>, b: Seq<char>, name: Seq<char>)
    requires
        a.len() > 0,
        b.len() > 0,
        forall|i: int| 0 <= i < a.len() ==> is_word_char(#[trigger] a[i]),
        forall|i: int| 0 <= i < b.len() ==> is_word_char(#[trigger] b[i]),
        lower_text(a).len() > 0,
        lower_text(b).len() > 0,
    ensures
        ({
            let input = a + seq![' '] + b;
            let parsed = parse_all(input);
            query_accepts(parsed.0, kept_ops(parsed.0, parsed.1), name) == (contains_seq(
                lower_text(name),
                lower_text(a),
            ) && contains_seq(lower_text(name), lower_text(b)))
        }),
        ({
            let input = a + seq!['+'] + b;
            let parsed = parse_all(input);
            query_accepts(parsed.0, kept_ops(parsed.0, parsed.1), name) == (contains_seq(
                lower_text(name),
                lower_text(a),
            ) && contains_seq(lower_text(name), lower_text(b)))
        }),
        ({
            let input = a + seq!['|'] + b;
            let parsed = parse_all(input);
            query_accepts(parsed.0, kept_ops(parsed.0, parsed.1), name) == (contains_seq(
                lower_text(name),
                lower_text(a),
            ) || contains_seq(lower_text(name), lower_text(b)))
        }),
{
    lemma_two_words(a, b, ' ');
    lemma_two_words(a, b, '+');
    lemma_two_words(a, b, '|');
    lemma_two_words_accept(a, b, true, name);
    lemma_two_words_accept(a, b, false, name);
}

} // verus!
