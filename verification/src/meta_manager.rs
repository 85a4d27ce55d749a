//! The in-memory index of metadata documents: which directory holds each
//! uuid, and which uuids hold each kind of template.

use vstd::prelude::*;

use crate::models::{MetaTemplateKind, views};
use crate::text::{str_eq, trim, trimmed_chars};

verus! {

/// Where one uuid's document lives and which templates it holds.
#[derive(Debug, Clone)]
pub struct MetaIndexEntry {
    pub dir: String,
    pub kinds: Vec<MetaTemplateKind>,
}

/// Documents by uuid, and uuids by template kind, kept in agreement.
pub struct MetaIndex {
    by_uuid: Vec<(String, MetaIndexEntry)>,
    by_kind: Vec<(MetaTemplateKind, Vec<String>)>,
    model: Ghost<Map<Seq<char>, (Seq<char>, Set<MetaTemplateKind>)>>,
}

impl MetaIndex {
    /// Each indexed uuid's directory and template kinds.
    pub closed spec fn view(&self) -> Map<Seq<char>, (Seq<char>, Set<MetaTemplateKind>)> {
        self.model@
    }

    closed spec fn uuid_rows_ok(&self) -> bool {
        let m = self.model@;
        let rows = self.by_uuid@;
        &&& forall|i: int, j: int|
            0 <= i < j < rows.len() ==> (#[trigger] rows[i]).0@ != (#[trigger] rows[j]).0@
        &&& forall|i: int|
            0 <= i < rows.len() ==> m.dom().contains((#[trigger] rows[i]).0@) && m[rows[i].0@]
                == (rows[i].1.dir@, rows[i].1.kinds@.to_set())
        &&& forall|u: Seq<char>|
            #[trigger] m.dom().contains(u) ==> exists|i: int|
                0 <= i < rows.len() && (#[trigger] rows[i]).0@ == u
    }

    closed spec fn kind_rows_ok(&self) -> bool {
        let m = self.model@;
        let rows = self.by_kind@;
        &&& forall|i: int, j: int|
            0 <= i < j < rows.len() ==> (#[trigger] rows[i]).0 != (#[trigger] rows[j]).0
        &&& forall|i: int|
            0 <= i < rows.len() ==> views((#[trigger] rows[i]).1@).len() > 0
        &&& forall|i: int, a: int, b: int|
            0 <= i < rows.len() && 0 <= a < b < rows[i].1@.len() ==> (#[trigger] rows[i].1@[a])@
                != (#[trigger] rows[i].1@[b])@
        &&& forall|i: int, u: Seq<char>|
            #![trigger views(rows[i].1@).contains(u)]
            #![trigger rows[i], m.dom().contains(u)]
            0 <= i < rows.len() ==> (views(rows[i].1@).contains(u) <==> (m.dom().contains(u)
                && m[u].1.contains(rows[i].0)))
        &&& forall|u: Seq<char>, k: MetaTemplateKind|
            #[trigger] m.dom().contains(u) && #[trigger] m[u].1.contains(k) ==> exists|i: int|
                0 <= i < rows.len() && (#[trigger] rows[i]).0 == k
    }

    /// The two tables agree with each other and with the model; every indexed
    /// uuid holds some template.
    pub closed spec fn wf(&self) -> bool {
        &&& self.uuid_rows_ok()
        &&& self.kind_rows_ok()
        &&& forall|u: Seq<char>| #[trigger] self.model@.dom().contains(u) ==> !self.model@[u].1.is_empty()
    }

    /// The kind table agrees with model `m`, except that `u` may still be
    /// listed under kinds in `pending`.
    closed spec fn kind_rows_partial(
        rows: Seq<(MetaTemplateKind, Vec<String>)>,
        m: Map<Seq<char>, (Seq<char>, Set<MetaTemplateKind>)>,
        u: Seq<char>,
        pending: Set<MetaTemplateKind>,
    ) -> bool {
        &&& !m.dom().contains(u)
        &&& forall|i: int, j: int|
            0 <= i < j < rows.len() ==> (#[trigger] rows[i]).0 != (#[trigger] rows[j]).0
        &&& forall|i: int|
            0 <= i < rows.len() ==> views((#[trigger] rows[i]).1@).len() > 0
        &&& forall|i: int, a: int, b: int|
            0 <= i < rows.len() && 0 <= a < b < rows[i].1@.len() ==> (#[trigger] rows[i].1@[a])@
                != (#[trigger] rows[i].1@[b])@
        &&& forall|i: int, w: Seq<char>|
            #![trigger views(rows[i].1@).contains(w)]
            #![trigger rows[i], m.dom().contains(w)]
            0 <= i < rows.len() && w != u ==> (views(rows[i].1@).contains(w) <==> (
            m.dom().contains(w) && m[w].1.contains(rows[i].0)))
        &&& forall|i: int|
            0 <= i < rows.len() && #[trigger] views(rows[i].1@).contains(u) ==> pending.contains(
                rows[i].0,
            )
        &&& forall|w: Seq<char>, k: MetaTemplateKind|
            #[trigger] m.dom().contains(w) && #[trigger] m[w].1.contains(k) ==> exists|i: int|
                0 <= i < rows.len() && (#[trigger] rows[i]).0 == k
    }

    /// The kind table agrees with model `m`, except that `u` is listed exactly
    /// under the kinds in `done`.
    closed spec fn kind_rows_adding(
        rows: Seq<(MetaTemplateKind, Vec<String>)>,
        m: Map<Seq<char>, (Seq<char>, Set<MetaTemplateKind>)>,
        u: Seq<char>,
        done: Set<MetaTemplateKind>,
    ) -> bool {
        &&& forall|i: int, j: int|
            0 <= i < j < rows.len() ==> (#[trigger] rows[i]).0 != (#[trigger] rows[j]).0
        &&& forall|i: int|
            0 <= i < rows.len() ==> views((#[trigger] rows[i]).1@).len() > 0
        &&& forall|i: int, a: int, b: int|
            0 <= i < rows.len() && 0 <= a < b < rows[i].1@.len() ==> (#[trigger] rows[i].1@[a])@
                != (#[trigger] rows[i].1@[b])@
        &&& forall|i: int, w: Seq<char>|
            #![trigger views(rows[i].1@).contains(w)]
            #![trigger rows[i], m.dom().contains(w)]
            0 <= i < rows.len() && w != u ==> (views(rows[i].1@).contains(w) <==> (
            m.dom().contains(w) && m[w].1.contains(rows[i].0)))
        &&& forall|i: int|
            0 <= i < rows.len() ==> (#[trigger] views(rows[i].1@).contains(u) <==> done.contains(
                rows[i].0,
            ))
        &&& forall|w: Seq<char>, k: MetaTemplateKind|
            #[trigger] m.dom().contains(w) && #[trigger] m[w].1.contains(k) && (w != u
                || done.contains(k)) ==> exists|i: int|
                0 <= i < rows.len() && (#[trigger] rows[i]).0 == k
    }

    pub fn new() -> (r: Self)
        ensures
            r.wf(),
            r.view() == Map::<Seq<char>, (Seq<char>, Set<MetaTemplateKind>)>::empty(),
    {
        MetaIndex { by_uuid: Vec::new(), by_kind: Vec::new(), model: Ghost(Map::empty()) }
    }

    /// Nothing is indexed.
    pub fn is_empty(&self) -> (r: bool)
        requires
            self.wf(),
        ensures
            r == (self.view().dom() =~= Set::<Seq<char>>::empty()),
    {
        proof {
            if self.by_uuid@.len() > 0 {
                assert(self.model@.dom().contains(self.by_uuid@[0].0@));
            }
        }
        self.by_uuid.len() == 0
    }

    fn uuid_row(&self, uuid: &str) -> (r: Option<usize>)
        requires
            self.wf(),
        ensures
            match r {
                Some(i) => i < self.by_uuid@.len() && self.by_uuid@[i as int].0@ == uuid@,
                None => !self.model@.dom().contains(uuid@),
            },
    {
        let mut i: usize = 0;
        while i < self.by_uuid.len()
            invariant
                0 <= i <= self.by_uuid@.len(),
                forall|j: int| 0 <= j < i ==> self.by_uuid@[j].0@ != uuid@,
            decreases self.by_uuid.len() - i,
        {
            if str_eq(self.by_uuid[i].0.as_str(), uuid) {
                return Some(i);
            }
            i += 1;
        }
        proof {
            if self.model@.dom().contains(uuid@) {
                let j = choose|j: int| 0 <= j < self.by_uuid@.len() && (#[trigger] self.by_uuid@[j]).0@ == uuid@;
            }
        }
        None
    }

    fn kind_row(&self, kind: MetaTemplateKind) -> (r: Option<usize>)
        ensures
            match r {
                Some(i) => i < self.by_kind@.len() && self.by_kind@[i as int].0 == kind,
                None => forall|i: int| 0 <= i < self.by_kind@.len() ==> self.by_kind@[i].0 != kind,
            },
    {
        let mut i: usize = 0;
        while i < self.by_kind.len()
            invariant
                0 <= i <= self.by_kind@.len(),
                forall|j: int| 0 <= j < i ==> self.by_kind@[j].0 != kind,
            decreases self.by_kind.len() - i,
        {
            if self.by_kind[i].0 == kind {
                return Some(i);
            }
            i += 1;
        }
        None
    }

    /// Whether `uuid` is indexed.
    pub fn contains(&self, uuid: &str) -> (r: bool)
        requires
            self.wf(),
        ensures
            r == self.view().dom().contains(uuid@),
    {
        self.uuid_row(uuid).is_some()
    }

    /// The directory of `uuid`'s document.
    pub fn dir_for(&self, uuid: &str) -> (r: Option<String>)
        requires
            self.wf(),
        ensures
            match r {
                Some(d) => self.view().dom().contains(uuid@) && d@ == self.view()[uuid@].0,
                None => !self.view().dom().contains(uuid@),
            },
    {
        match self.uuid_row(uuid) {
            Some(i) => Some(self.by_uuid[i].1.dir.clone()),
            None => None,
        }
    }

    /// The uuids whose documents hold a template of `kind`, each once.
    pub fn uuids_for(&self, kind: MetaTemplateKind) -> (r: Vec<String>)
        requires
            self.wf(),
        ensures
            crate::order::distinct_texts(views(r@)),
            forall|u: Seq<char>|
                views(r@).contains(u) <==> (self.view().dom().contains(u) && self.view()[u].1.contains(
                    kind,
                )),
    {
        match self.kind_row(kind) {
            Some(i) => {
                let r = crate::models::clone_strings(&self.by_kind[i].1);
                proof {
                    let v = views(r@);
                    assert forall|a: int, b: int| 0 <= a < b < v.len() implies #[trigger] v[a]
                        != #[trigger] v[b] by {
                        assert(v[a] == self.by_kind@[i as int].1@[a]@);
                        assert(v[b] == self.by_kind@[i as int].1@[b]@);
                    }
                }
                r
            },
            None => {
                proof {
                    assert forall|u: Seq<char>| !(self.model@.dom().contains(u)
                        && self.model@[u].1.contains(kind)) by {
                        if self.model@.dom().contains(u) && self.model@[u].1.contains(kind) {
                            let j = choose|j: int| 0 <= j < self.by_kind@.len() && (#[trigger] self.by_kind@[j]).0 == kind;
                        }
                    }
                    assert(views(Seq::<String>::empty()) =~= Seq::<Seq<char>>::empty());
                }
                Vec::new()
            },
        }
    }
}

/// Drops `x` from a list that holds no text twice.
fn remove_text(list: &mut Vec<String>, x: &str)
    requires
        crate::order::distinct_texts(views(old(list)@)),
    ensures
        crate::order::distinct_texts(views(final(list)@)),
        forall|w: Seq<char>|
            views(final(list)@).contains(w) <==> (views(old(list)@).contains(w) && w != x@),
{
    let ghost before = views(list@);
    let mut i: usize = 0;
    while i < list.len()
        invariant
            0 <= i <= list@.len(),
            views(list@) == before,
            before == views(old(list)@),
            crate::order::distinct_texts(before),
            forall|j: int| 0 <= j < i ==> before[j] != x@,
        decreases list.len() - i,
    {
        if str_eq(list[i].as_str(), x) {
            list.remove(i);
            proof {
                let after = views(list@);
                assert(after =~= before.remove(i as int));
                assert forall|a: int, b: int| 0 <= a < b < after.len() implies #[trigger] after[a]
                    != #[trigger] after[b] by {
                    let aa = if a < i { a } else { a + 1 };
                    let bb = if b < i { b } else { b + 1 };
                    assert(after[a] == before[aa]);
                    assert(after[b] == before[bb]);
                }
                assert forall|w: Seq<char>| after.contains(w) <==> (before.contains(w) && w
                    != x@) by {
                    if after.contains(w) {
                        let a = choose|a: int| 0 <= a < after.len() && after[a] == w;
                        let aa = if a < i { a } else { a + 1 };
                        assert(after[a] == before[aa]);
                        assert(before[i as int] == x@);
                    }
                    if before.contains(w) && w != x@ {
                        let a = choose|a: int| 0 <= a < before.len() && before[a] == w;
                        assert(a != i);
                        if a < i {
                            assert(after[a] == w);
                        } else {
                            assert(after[a - 1] == w);
                        }
                    }
                }
            }
            return;
        }
        i += 1;
    }
    proof {
        assert forall|w: Seq<char>| before.contains(w) implies w != x@ by {
            let a = choose|a: int| 0 <= a < before.len() && before[a] == w;
        }
    }
}

impl MetaIndex {
    /// Forgets `uuid`: its document and its place under every kind.
    pub fn remove_uuid(&mut self, uuid: &str)
        requires
            old(self).wf(),
        ensures
            final(self).wf(),
            final(self).view() == old(self).view().remove(uuid@),
    {
        let i = match self.uuid_row(uuid) {
            Some(i) => i,
            None => {
                assert(self.model@.remove(uuid@) =~= self.model@);
                return;
            },
        };
        let ghost m0 = self.model@;
        let ghost rows0 = self.by_uuid@;
        assert(old(self).kind_rows_ok());
        let ghost u = uuid@;
        let removed = self.by_uuid.remove(i);
        let entry = removed.1;
        self.model = Ghost(m0.remove(u));
        proof {
            let m = self.model@;
            let rows = self.by_uuid@;
            assert(rows =~= rows0.remove(i as int));
            assert(m0[u] == (entry.dir@, entry.kinds@.to_set()));
            assert forall|a: int, b: int| 0 <= a < b < rows.len() implies (#[trigger] rows[a]).0@
                != (#[trigger] rows[b]).0@ by {
                let aa = if a < i { a } else { a + 1 };
                let bb = if b < i { b } else { b + 1 };
                assert(rows[a] == rows0[aa]);
                assert(rows[b] == rows0[bb]);
            }
            assert forall|a: int| 0 <= a < rows.len() implies m.dom().contains(
                (#[trigger] rows[a]).0@,
            ) && m[rows[a].0@] == (rows[a].1.dir@, rows[a].1.kinds@.to_set()) by {
                let aa = if a < i { a } else { a + 1 };
                assert(rows[a] == rows0[aa]);
                assert(rows0[aa].0@ != rows0[i as int].0@);
            }
            assert forall|w: Seq<char>| #[trigger] m.dom().contains(w) implies exists|a: int|
                0 <= a < rows.len() && (#[trigger] rows[a]).0@ == w by {
                let a = choose|a: int| 0 <= a < rows0.len() && (#[trigger] rows0[a]).0@ == w;
                assert(a != i);
                if a < i {
                    assert(rows[a] == rows0[a]);
                } else {
                    assert(rows[a - 1] == rows0[a]);
                }
            }
            assert(self.uuid_rows_ok());
            assert forall|w: Seq<char>| #[trigger] m.dom().contains(w) implies !m[w].1.is_empty() by {
                assert(m0.dom().contains(w));
            }
            assert forall|a: int| 0 <= a < self.by_kind@.len() && #[trigger] views(
                self.by_kind@[a].1@,
            ).contains(u) implies entry.kinds@.to_set().contains(self.by_kind@[a].0) by {
                assert(views(self.by_kind@[a].1@).contains(u) <==> (m0.dom().contains(u)
                    && m0[u].1.contains(self.by_kind@[a].0)));
            }
            assert forall|w: Seq<char>, k: MetaTemplateKind| #[trigger] m.dom().contains(w)
                && #[trigger] m[w].1.contains(k) implies exists|a: int|
                0 <= a < self.by_kind@.len() && (#[trigger] self.by_kind@[a]).0 == k by {
                assert(m0.dom().contains(w) && m0[w].1.contains(k));
                assert(old(self).model@ == m0);
                let a = choose|a: int| 0 <= a < old(self).by_kind@.len() && (#[trigger] old(self).by_kind@[a]).0 == k;
                assert(self.by_kind@[a] == old(self).by_kind@[a]);
            }
            assert(entry.kinds@.skip(0) =~= entry.kinds@);
            assert(Self::kind_rows_partial(self.by_kind@, m, u, entry.kinds@.skip(0).to_set()));
        }
        let mut t: usize = 0;
        while t < entry.kinds.len()
            invariant
                0 <= t <= entry.kinds@.len(),
                self.uuid_rows_ok(),
                self.model@ == m0.remove(u),
                u == uuid@,
                forall|w: Seq<char>| #[trigger] self.model@.dom().contains(w) ==> !self.model@[w].1.is_empty(),
                Self::kind_rows_partial(self.by_kind@, self.model@, u, entry.kinds@.skip(t as int).to_set()),
            decreases entry.kinds.len() - t,
        {
            let k = entry.kinds[t];
            let ghost bu = self.by_uuid@;
            let ghost sk0 = entry.kinds@.skip(t as int);
            let ghost sk1 = entry.kinds@.skip(t + 1);
            let ghost rest = sk1.to_set();
            proof {
                assert(sk1 =~= sk0.drop_first());
                assert forall|x: MetaTemplateKind| #[trigger] sk0.to_set().contains(x)
                    implies rest.contains(x) || x == k by {
                    let a = choose|a: int| 0 <= a < sk0.len() && sk0[a] == x;
                    if a > 0 {
                        assert(sk1[a - 1] == x);
                    }
                }
            }
            match self.kind_row(k) {
                Some(j) => {
                    let ghost krows = self.by_kind@;
                    let (key, mut list) = self.by_kind.remove(j);
                    remove_text(&mut list, uuid);
                    if list.len() > 0 {
                        self.by_kind.insert(j, (key, list));
                        proof {
                            let rows = self.by_kind@;
                            assert(rows =~= krows.update(j as int, rows[j as int]));
                            assert forall|a: int| 0 <= a < rows.len() && #[trigger] views(rows[a].1@).contains(u)
                                implies rest.contains(rows[a].0) by {
                                if a != j {
                                    assert(rows[a] == krows[a]);
                                    assert(krows[a].0 != k);
                                }
                            }
                            assert forall|a: int, w: Seq<char>|
                                #![trigger views(rows[a].1@).contains(w)]
                                #![trigger rows[a], self.model@.dom().contains(w)]
                                0 <= a < rows.len() && w != u implies (views(rows[a].1@).contains(w) <==> (
                                self.model@.dom().contains(w) && self.model@[w].1.contains(rows[a].0))) by {
                                if a != j {
                                    assert(rows[a] == krows[a]);
                                } else {
                                    assert(views(krows[a].1@).contains(w) <==> (
                                        self.model@.dom().contains(w) && self.model@[w].1.contains(krows[a].0)));
                                }
                            }
                            assert forall|a: int, x: int, y: int|
                                0 <= a < rows.len() && 0 <= x < y < rows[a].1@.len() implies (#[trigger] rows[a].1@[x])@
                                    != (#[trigger] rows[a].1@[y])@ by {
                                if a != j {
                                    assert(rows[a] == krows[a]);
                                } else {
                                    assert(views(rows[a].1@)[x] == rows[a].1@[x]@);
                                    assert(views(rows[a].1@)[y] == rows[a].1@[y]@);
                                }
                            }
                            assert forall|a: int| 0 <= a < rows.len() implies views((#[trigger] rows[a]).1@).len() > 0 by {
                                if a != j {
                                    assert(rows[a] == krows[a]);
                                }
                            }
                            assert forall|a: int, b: int| 0 <= a < b < rows.len() implies (#[trigger] rows[a]).0 != (#[trigger] rows[b]).0 by {
                                assert(rows[a].0 == krows[a].0);
                                assert(rows[b].0 == krows[b].0);
                            }
                            assert forall|w: Seq<char>, x: MetaTemplateKind|
                                #[trigger] self.model@.dom().contains(w) && #[trigger] self.model@[w].1.contains(x) implies exists|a: int|
                                    0 <= a < rows.len() && (#[trigger] rows[a]).0 == x by {
                                let a = choose|a: int| 0 <= a < krows.len() && (#[trigger] krows[a]).0 == x;
                                assert(rows[a].0 == krows[a].0);
                            }
                        }
                    } else {
                        proof {
                            let rows = self.by_kind@;
                            assert(rows =~= krows.remove(j as int));
                            assert forall|w: Seq<char>| !(self.model@.dom().contains(w) && self.model@[w].1.contains(k)) by {
                                if self.model@.dom().contains(w) && self.model@[w].1.contains(k) && w != u {
                                    assert(views(krows[j as int].1@).contains(w));
                                    assert(views(list@).contains(w));
                                }
                            }
                            assert forall|a: int| 0 <= a < rows.len() && #[trigger] views(rows[a].1@).contains(u)
                                implies rest.contains(rows[a].0) by {
                                let aa = if a < j { a } else { a + 1 };
                                assert(rows[a] == krows[aa]);
                                assert(krows[aa].0 != k);
                            }
                            assert forall|a: int, w: Seq<char>|
                                #![trigger views(rows[a].1@).contains(w)]
                                #![trigger rows[a], self.model@.dom().contains(w)]
                                0 <= a < rows.len() && w != u implies (views(rows[a].1@).contains(w) <==> (
                                self.model@.dom().contains(w) && self.model@[w].1.contains(rows[a].0))) by {
                                let aa = if a < j { a } else { a + 1 };
                                assert(rows[a] == krows[aa]);
                            }
                            assert forall|a: int, x: int, y: int|
                                0 <= a < rows.len() && 0 <= x < y < rows[a].1@.len() implies (#[trigger] rows[a].1@[x])@
                                    != (#[trigger] rows[a].1@[y])@ by {
                                let aa = if a < j { a } else { a + 1 };
                                assert(rows[a] == krows[aa]);
                            }
                            assert forall|a: int| 0 <= a < rows.len() implies views((#[trigger] rows[a]).1@).len() > 0 by {
                                let aa = if a < j { a } else { a + 1 };
                                assert(rows[a] == krows[aa]);
                            }
                            assert forall|a: int, b: int| 0 <= a < b < rows.len() implies (#[trigger] rows[a]).0 != (#[trigger] rows[b]).0 by {
                                let aa = if a < j { a } else { a + 1 };
                                let bb = if b < j { b } else { b + 1 };
                                assert(rows[a] == krows[aa]);
                                assert(rows[b] == krows[bb]);
                            }
                            assert forall|w: Seq<char>, x: MetaTemplateKind|
                                #[trigger] self.model@.dom().contains(w) && #[trigger] self.model@[w].1.contains(x) implies exists|a: int|
                                    0 <= a < rows.len() && (#[trigger] rows[a]).0 == x by {
                                let a = choose|a: int| 0 <= a < krows.len() && (#[trigger] krows[a]).0 == x;
                                assert(a != j);
                                if a < j {
                                    assert(rows[a] == krows[a]);
                                } else {
                                    assert(rows[a - 1] == krows[a]);
                                }
                            }
                        }
                    }
                },
                None => {
                    proof {
                        assert forall|a: int| 0 <= a < self.by_kind@.len() && #[trigger] views(self.by_kind@[a].1@).contains(u)
                            implies rest.contains(self.by_kind@[a].0) by {
                            assert(self.by_kind@[a].0 != k);
                        }
                    }
                },
            }
            assert(self.by_uuid@ == bu);
            t += 1;
        }
        proof {
            let rows = self.by_kind@;
            let m = self.model@;
            assert(entry.kinds@.skip(t as int).len() == 0);
            assert forall|a: int, w: Seq<char>|
                #![trigger views(rows[a].1@).contains(w)]
                #![trigger rows[a], m.dom().contains(w)]
                0 <= a < rows.len() implies (views(rows[a].1@).contains(w) <==> (m.dom().contains(w)
                    && m[w].1.contains(rows[a].0))) by {
                if w == u {
                    if views(rows[a].1@).contains(u) {
                        assert(entry.kinds@.skip(t as int).to_set().contains(rows[a].0));
                        let z = choose|z: int| 0 <= z < entry.kinds@.skip(t as int).len() && entry.kinds@.skip(t as int)[z] == rows[a].0;
                    }
                }
            }
        }
    }
}

fn copy_kinds(v: &Vec<MetaTemplateKind>) -> (r: Vec<MetaTemplateKind>)
    ensures
        r@ == v@,
{
    let mut r: Vec<MetaTemplateKind> = Vec::new();
    let mut i: usize = 0;
    while i < v.len()
        invariant
            0 <= i <= v@.len(),
            r@ =~= v@.take(i as int),
        decreases v.len() - i,
    {
        r.push(v[i]);
        i += 1;
    }
    assert(v@.take(v@.len() as int) =~= v@);
    r
}

/// The kinds of `kinds`, each once.
fn distinct_kinds(kinds: &[MetaTemplateKind]) -> (r: Vec<MetaTemplateKind>)
    ensures
        forall|a: int, b: int| 0 <= a < b < r@.len() ==> r@[a] != r@[b],
        r@.to_set() == kinds@.to_set(),
{
    let mut r: Vec<MetaTemplateKind> = Vec::new();
    let mut i: usize = 0;
    while i < kinds.len()
        invariant
            0 <= i <= kinds@.len(),
            forall|a: int, b: int| 0 <= a < b < r@.len() ==> r@[a] != r@[b],
            r@.to_set() == kinds@.take(i as int).to_set(),
        decreases kinds.len() - i,
    {
        let k = kinds[i];
        let mut seen = false;
        let mut j: usize = 0;
        while j < r.len()
            invariant
                0 <= j <= r@.len(),
                seen == exists|a: int| 0 <= a < j && r@[a] == k,
            decreases r.len() - j,
        {
            if r[j] == k {
                seen = true;
            }
            j += 1;
        }
        let ghost before = r@;
        if !seen {
            r.push(k);
        }
        proof {
            let t0 = kinds@.take(i as int);
            let t1 = kinds@.take(i + 1);
            assert(t1 =~= t0.push(k));
            assert forall|x: MetaTemplateKind| r@.to_set().contains(x) <==> t1.to_set().contains(x) by {
                if r@.to_set().contains(x) {
                    let a = choose|a: int| 0 <= a < r@.len() && r@[a] == x;
                    if a < before.len() {
                        assert(before.to_set().contains(x));
                        let b = choose|b: int| 0 <= b < t0.len() && t0[b] == x;
                        assert(t1[b] == x);
                    } else {
                        assert(t1[i as int] == x);
                    }
                }
                if t1.to_set().contains(x) {
                    let b = choose|b: int| 0 <= b < t1.len() && t1[b] == x;
                    if b < i {
                        assert(t0[b] == x);
                        assert(t0.to_set().contains(x));
                        let a = choose|a: int| 0 <= a < before.len() && before[a] == x;
                        assert(r@[a] == x);
                    } else if seen {
                        let a = choose|a: int| 0 <= a < before.len() && before[a] == k;
                        assert(r@[a] == x);
                    } else {
                        assert(r@[before.len() as int] == x);
                    }
                }
            }
            assert(r@.to_set() =~= t1.to_set());
        }
        i += 1;
    }
    assert(kinds@.take(kinds@.len() as int) =~= kinds@);
    r
}

impl MetaIndex {
    /// Records that `uuid`'s document lies in `dir` and holds templates of
    /// `kinds`; with no kinds, forgets `uuid`.
    pub fn refresh_entry(&mut self, dir: &str, uuid: &str, kinds: &[MetaTemplateKind])
        requires
            old(self).wf(),
        ensures
            final(self).wf(),
            kinds@.len() == 0 ==> final(self).view() == old(self).view().remove(uuid@),
            kinds@.len() > 0 ==> final(self).view() == old(self).view().remove(uuid@).insert(
                uuid@,
                (dir@, kinds@.to_set()),
            ),
    {
        self.remove_uuid(uuid);
        if kinds.len() == 0 {
            return;
        }
        let ks = distinct_kinds(kinds);
        let ghost u = uuid@;
        let ghost m1 = self.model@;
        let ghost kset = kinds@.to_set();
        let ghost m2 = m1.insert(u, (dir@, kset));
        let ghost rows1 = self.by_uuid@;
        let ghost krows1 = self.by_kind@;
        proof {
            assert(self.uuid_rows_ok());
            assert(self.kind_rows_ok());
            assert(kinds@.to_set().contains(kinds@[0]));
        }
        let ks_copy = copy_kinds(&ks);
        self.by_uuid.push((uuid.to_owned(), MetaIndexEntry { dir: dir.to_owned(), kinds: ks_copy }));
        self.model = Ghost(m2);
        proof {
            let rows = self.by_uuid@;
            assert(rows.len() == rows1.len() + 1);
            assert(rows[rows1.len() as int].1.kinds@ == ks@);
            assert forall|a: int, b: int| 0 <= a < b < rows.len() implies (#[trigger] rows[a]).0@
                != (#[trigger] rows[b]).0@ by {
                assert(rows[a] == rows1[a]);
                if b < rows1.len() {
                    assert(rows[b] == rows1[b]);
                } else {
                    assert(!m1.dom().contains(u));
                }
            }
            assert forall|a: int| 0 <= a < rows.len() implies m2.dom().contains(
                (#[trigger] rows[a]).0@,
            ) && m2[rows[a].0@] == (rows[a].1.dir@, rows[a].1.kinds@.to_set()) by {
                if a < rows1.len() {
                    assert(rows[a] == rows1[a]);
                    assert(rows1[a].0@ != u);
                }
            }
            assert forall|w: Seq<char>| #[trigger] m2.dom().contains(w) implies exists|a: int|
                0 <= a < rows.len() && (#[trigger] rows[a]).0@ == w by {
                if w == u {
                    assert(rows[rows1.len() as int].0@ == w);
                } else {
                    let a = choose|a: int| 0 <= a < rows1.len() && (#[trigger] rows1[a]).0@ == w;
                    assert(rows[a] == rows1[a]);
                }
            }
            assert(self.uuid_rows_ok());
            assert forall|a: int| 0 <= a < krows1.len() implies !(#[trigger] views(krows1[a].1@).contains(u)) by {
                assert(!m1.dom().contains(u));
            }
            assert forall|w: Seq<char>, k: MetaTemplateKind| #[trigger] m2.dom().contains(w)
                && #[trigger] m2[w].1.contains(k) && (w != u || Set::<MetaTemplateKind>::empty().contains(k))
                implies exists|a: int| 0 <= a < krows1.len() && (#[trigger] krows1[a]).0 == k by {
                assert(m1.dom().contains(w) && m1[w].1.contains(k));
            }
            assert(ks@.take(0).to_set() =~= Set::<MetaTemplateKind>::empty());
            assert(Self::kind_rows_adding(self.by_kind@, m2, u, ks@.take(0).to_set()));
        }
        let mut t: usize = 0;
        while t < ks.len()
            invariant
                0 <= t <= ks@.len(),
                forall|a: int, b: int| 0 <= a < b < ks@.len() ==> ks@[a] != ks@[b],
                ks@.to_set() == kset,
                self.uuid_rows_ok(),
                self.model@ == m2,
                m2 == m1.insert(u, (dir@, kset)),
                u == uuid@,
                forall|w: Seq<char>| #[trigger] self.model@.dom().contains(w) ==> !self.model@[w].1.is_empty(),
                Self::kind_rows_adding(self.by_kind@, m2, u, ks@.take(t as int).to_set()),
            decreases ks.len() - t,
        {
            let k = ks[t];
            let ghost done0 = ks@.take(t as int).to_set();
            let ghost done1 = ks@.take(t + 1).to_set();
            let ghost krows = self.by_kind@;
            let ghost bu = self.by_uuid@;
            let ghost tk0 = ks@.take(t as int);
            let ghost tk1 = ks@.take(t + 1);
            proof {
                assert(tk1 =~= tk0.push(k));
                assert forall|x: MetaTemplateKind| done1.contains(x) <==> (done0.contains(x) || x == k) by {
                    if done1.contains(x) {
                        let a = choose|a: int| 0 <= a < tk1.len() && tk1[a] == x;
                        if a < t {
                            assert(tk0[a] == x);
                        }
                    }
                    if done0.contains(x) {
                        let a = choose|a: int| 0 <= a < tk0.len() && tk0[a] == x;
                        assert(tk1[a] == x);
                    }
                    if x == k {
                        assert(tk1[t as int] == x);
                    }
                }
                assert(!done0.contains(k)) by {
                    if done0.contains(k) {
                        let a = choose|a: int| 0 <= a < tk0.len() && tk0[a] == k;
                        assert(ks@[a] == ks@[t as int]);
                    }
                }
                assert(kset.contains(k)) by {
                    assert(ks@.to_set().contains(ks@[t as int]));
                }
            }
            match self.kind_row(k) {
                Some(j) => {
                    let (key, mut list) = self.by_kind.remove(j);
                    proof {
                        assert(key == k);
                        assert(!views(list@).contains(u));
                    }
                    let ghost lb = views(list@);
                    list.push(uuid.to_owned());
                    proof {
                        assert(views(list@) =~= lb.push(u));
                    }
                    self.by_kind.insert(j, (key, list));
                    proof {
                        let rows = self.by_kind@;
                        assert(rows =~= krows.update(j as int, rows[j as int]));
                        let nl = views(rows[j as int].1@);
                        assert(nl == lb.push(u));
                        assert forall|w: Seq<char>| nl.contains(w) <==> (lb.contains(w) || w == u) by {
                            if nl.contains(w) {
                                let a = choose|a: int| 0 <= a < nl.len() && nl[a] == w;
                                if a < lb.len() {
                                    assert(lb[a] == w);
                                }
                            }
                            if lb.contains(w) {
                                let a = choose|a: int| 0 <= a < lb.len() && lb[a] == w;
                                assert(nl[a] == w);
                            }
                            if w == u {
                                assert(nl[lb.len() as int] == w);
                            }
                        }
                        assert forall|a: int, x: int, y: int|
                            0 <= a < rows.len() && 0 <= x < y < rows[a].1@.len() implies (#[trigger] rows[a].1@[x])@
                                != (#[trigger] rows[a].1@[y])@ by {
                            if a != j {
                                assert(rows[a] == krows[a]);
                            } else {
                                assert(views(rows[a].1@)[x] == rows[a].1@[x]@);
                                assert(views(rows[a].1@)[y] == rows[a].1@[y]@);
                                if y == lb.len() {
                                    assert(lb.contains(nl[x]));
                                } else {
                                    assert(krows[a].1@[x] == rows[a].1@[x]);
                                    assert(krows[a].1@[y] == rows[a].1@[y]);
                                }
                            }
                        }
                        assert forall|a: int| 0 <= a < rows.len() implies views((#[trigger] rows[a]).1@).len() > 0 by {
                            if a != j {
                                assert(rows[a] == krows[a]);
                            }
                        }
                        assert forall|a: int, b: int| 0 <= a < b < rows.len() implies (#[trigger] rows[a]).0 != (#[trigger] rows[b]).0 by {
                            assert(rows[a].0 == krows[a].0);
                            assert(rows[b].0 == krows[b].0);
                        }
                        assert forall|a: int, w: Seq<char>|
                            #![trigger views(rows[a].1@).contains(w)]
                            #![trigger rows[a], m2.dom().contains(w)]
                            0 <= a < rows.len() && w != u implies (views(rows[a].1@).contains(w) <==> (
                            m2.dom().contains(w) && m2[w].1.contains(rows[a].0))) by {
                            if a != j {
                                assert(rows[a] == krows[a]);
                            } else {
                                assert(views(krows[a].1@).contains(w) <==> (
                                    m2.dom().contains(w) && m2[w].1.contains(krows[a].0)));
                            }
                        }
                        assert forall|a: int| 0 <= a < rows.len() implies (#[trigger] views(rows[a].1@).contains(u) <==> done1.contains(
                            rows[a].0)) by {
                            if a != j {
                                assert(rows[a] == krows[a]);
                                assert(krows[a].0 != k);
                            }
                        }
                        assert forall|w: Seq<char>, x: MetaTemplateKind|
                            #[trigger] m2.dom().contains(w) && #[trigger] m2[w].1.contains(x) && (w != u
                                || done1.contains(x)) implies exists|a: int|
                                0 <= a < rows.len() && (#[trigger] rows[a]).0 == x by {
                            if x == k {
                                assert(rows[j as int].0 == x);
                            } else {
                                let a = choose|a: int| 0 <= a < krows.len() && (#[trigger] krows[a]).0 == x;
                                assert(rows[a].0 == krows[a].0);
                            }
                        }
                    }
                },
                None => {
                    let mut list: Vec<String> = Vec::new();
                    list.push(uuid.to_owned());
                    self.by_kind.push((k, list));
                    proof {
                        let rows = self.by_kind@;
                        let n = krows.len() as int;
                        assert(rows =~= krows.push(rows[n]));
                        assert(views(rows[n].1@) =~= seq![u]);
                        assert forall|w: Seq<char>| !(m2.dom().contains(w) && m2[w].1.contains(k) && w != u) by {
                            if m2.dom().contains(w) && m2[w].1.contains(k) && w != u {
                                let a = choose|a: int| 0 <= a < krows.len() && (#[trigger] krows[a]).0 == k;
                            }
                        }
                        assert forall|a: int, w: Seq<char>|
                            #![trigger views(rows[a].1@).contains(w)]
                            #![trigger rows[a], m2.dom().contains(w)]
                            0 <= a < rows.len() && w != u implies (views(rows[a].1@).contains(w) <==> (
                            m2.dom().contains(w) && m2[w].1.contains(rows[a].0))) by {
                            if a < n {
                                assert(rows[a] == krows[a]);
                            } else {
                                if views(rows[a].1@).contains(w) {
                                    assert(views(rows[a].1@)[0] == u);
                                }
                            }
                        }
                        assert forall|a: int| 0 <= a < rows.len() implies (#[trigger] views(rows[a].1@).contains(u) <==> done1.contains(
                            rows[a].0)) by {
                            if a < n {
                                assert(rows[a] == krows[a]);
                                assert(krows[a].0 != k);
                            } else {
                                assert(views(rows[a].1@)[0] == u);
                            }
                        }
                        assert forall|a: int, x: int, y: int|
                            0 <= a < rows.len() && 0 <= x < y < rows[a].1@.len() implies (#[trigger] rows[a].1@[x])@
                                != (#[trigger] rows[a].1@[y])@ by {
                            if a < n {
                                assert(rows[a] == krows[a]);
                            }
                        }
                        assert forall|a: int| 0 <= a < rows.len() implies views((#[trigger] rows[a]).1@).len() > 0 by {
                            if a < n {
                                assert(rows[a] == krows[a]);
                            }
                        }
                        assert forall|a: int, b: int| 0 <= a < b < rows.len() implies (#[trigger] rows[a]).0 != (#[trigger] rows[b]).0 by {
                            assert(rows[a] == krows[a]);
                            if b < n {
                                assert(rows[b] == krows[b]);
                            }
                        }
                        assert forall|w: Seq<char>, x: MetaTemplateKind|
                            #[trigger] m2.dom().contains(w) && #[trigger] m2[w].1.contains(x) && (w != u
                                || done1.contains(x)) implies exists|a: int|
                                0 <= a < rows.len() && (#[trigger] rows[a]).0 == x by {
                            if x == k {
                                assert(rows[n].0 == x);
                            } else {
                                let a = choose|a: int| 0 <= a < krows.len() && (#[trigger] krows[a]).0 == x;
                                assert(rows[a] == krows[a]);
                            }
                        }
                    }
                },
            }
            assert(self.by_uuid@ == bu);
            t += 1;
        }
        proof {
            assert(ks@.take(ks@.len() as int) =~= ks@);
            let rows = self.by_kind@;
            assert forall|a: int, w: Seq<char>|
                #![trigger views(rows[a].1@).contains(w)]
                #![trigger rows[a], m2.dom().contains(w)]
                0 <= a < rows.len() implies (views(rows[a].1@).contains(w) <==> (m2.dom().contains(w)
                    && m2[w].1.contains(rows[a].0))) by {
            }
            assert(self.kind_rows_ok());
        }
    }
}

impl MetaIndex {
    /// Forgets the document kept in `dir`, if one is indexed there.
    pub fn remove_by_dir(&mut self, dir: &str)
        requires
            old(self).wf(),
        ensures
            final(self).wf(),
            (exists|u: Seq<char>| old(self).view().dom().contains(u) && old(self).view()[u].0 == dir@)
                ==> exists|u: Seq<char>|
                old(self).view().dom().contains(u) && old(self).view()[u].0 == dir@
                    && final(self).view() == old(self).view().remove(u),
            !(exists|u: Seq<char>| old(self).view().dom().contains(u) && old(self).view()[u].0 == dir@)
                ==> final(self).view() == old(self).view(),
    {
        let mut i: usize = 0;
        while i < self.by_uuid.len()
            invariant
                0 <= i <= self.by_uuid@.len(),
                self.wf(),
                self.by_uuid@ == old(self).by_uuid@,
                self.model@ == old(self).model@,
                forall|j: int| 0 <= j < i ==> self.by_uuid@[j].1.dir@ != dir@,
            decreases self.by_uuid.len() - i,
        {
            if str_eq(self.by_uuid[i].1.dir.as_str(), dir) {
                let u = self.by_uuid[i].0.clone();
                proof {
                    assert(self.model@.dom().contains(self.by_uuid@[i as int].0@));
                }
                self.remove_uuid(u.as_str());
                return;
            }
            i += 1;
        }
        proof {
            assert forall|u: Seq<char>| !(old(self).view().dom().contains(u) && old(self).view()[u].0
                == dir@) by {
                if old(self).view().dom().contains(u) && old(self).view()[u].0 == dir@ {
                    let j = choose|j: int| 0 <= j < self.by_uuid@.len() && (#[trigger] self.by_uuid@[j]).0@ == u;
                }
            }
        }
    }
}

/// Forgetting a uuid right after recording it leaves what forgetting it alone leaves.
pub proof fn lemma_refresh_then_remove(
    m: Map<Seq<char>, (Seq<char>, Set<MetaTemplateKind>)>,
    u: Seq<char>,
    v: (Seq<char>, Set<MetaTemplateKind>),
)
    ensures
        m.remove(u).insert(u, v).remove(u) == m.remove(u),
{
    assert(m.remove(u).insert(u, v).remove(u) =~= m.remove(u));
}

/// A recorded uuid is listed under exactly its kinds, in its directory, and
/// no other uuid's record changes.
pub proof fn lemma_refresh_lists_exactly(
    m: Map<Seq<char>, (Seq<char>, Set<MetaTemplateKind>)>,
    u: Seq<char>,
    dir: Seq<char>,
    kinds: Set<MetaTemplateKind>,
    k: MetaTemplateKind,
    w: Seq<char>,
)
    ensures
        ({
            let m2 = m.remove(u).insert(u, (dir, kinds));
            &&& m2[u].0 == dir
            &&& (m2[u].1.contains(k) <==> kinds.contains(k))
            &&& w != u ==> (m2.dom().contains(w) <==> m.dom().contains(w))
            &&& w != u && m.dom().contains(w) ==> m2[w] == m[w]
        }),
{
}

/// The file each mod directory keeps its metadata document in.
pub open spec fn meta_file_name_spec() -> Seq<char> {
    ".anime-mod.json"@
}

pub fn meta_file_name() -> (r: &'static str)
    ensures
        r@ == meta_file_name_spec(),
{
    ".anime-mod.json"
}

/// `Uuid::new_v4().to_string()`: a random version-4 uuid, hyphenated, in
/// lowercase hexadecimal.
#[verifier::external_body]
pub(crate) fn new_uuid_string() -> (r: String)
    ensures
        is_v4_uuid_text(r@),
{
    uuid::Uuid::new_v4().to_string()
}

/// A random (version 4) uuid in its hyphenated lower-case form: 36
/// characters, hyphens at 8, 13, 18 and 23, the version digit `4` at 14,
/// lower-case hexadecimal digits elsewhere.
pub open spec fn is_v4_uuid_text(s: Seq<char>) -> bool {
    &&& s.len() == 36
    &&& s[8] == '-' && s[13] == '-' && s[18] == '-' && s[23] == '-'
    &&& s[14] == '4'
    &&& forall|i: int|
        0 <= i < 36 && i != 8 && i != 13 && i != 18 && i != 23 ==> {
            let c = #[trigger] s[i];
            ('0' <= c <= '9') || ('a' <= c <= 'f')
        }
}

/// Why a template could not be written.
#[derive(Debug, Clone)]
pub enum MetaError {
    /// The directory's document belongs to another uuid.
    UuidMismatch { existing: String, requested: String },
}

/// The uuid a document written to a directory ends up with: a requested
/// uuid must agree with the document already there (or is adopted when that
/// document has none); without a request the existing uuid stays; a
/// document left without one gets a fresh uuid.
pub fn document_uuid(loaded: Option<&str>, requested: Option<&str>) -> (r: Result<String, MetaError>)
    ensures
        match requested {
            Some(q) if q@.len() > 0 => match loaded {
                Some(d) if d@.len() > 0 && d@ != q@ => r matches Err(MetaError::UuidMismatch {
                    existing,
                    requested,
                }) && existing@ == d@ && requested@ == q@,
                _ => r matches Ok(u) && u@ == q@,
            },
            _ => match loaded {
                Some(d) if d@.len() > 0 => r matches Ok(u) && u@ == d@,
                _ => r matches Ok(u) && is_v4_uuid_text(u@),
            },
        },
{
    let req: Option<&str> = match requested {
        Some(q) => if q.is_empty() {
            None
        } else {
            Some(q)
        },
        None => None,
    };
    match req {
        Some(q) => match loaded {
            Some(d) => if d.is_empty() || str_eq(d, q) {
                Ok(q.to_owned())
            } else {
                Err(MetaError::UuidMismatch { existing: d.to_owned(), requested: q.to_owned() })
            },
            None => Ok(q.to_owned()),
        },
        None => match loaded {
            Some(d) => if d.is_empty() {
                Ok(new_uuid_string())
            } else {
                Ok(d.to_owned())
            },
            None => Ok(new_uuid_string()),
        },
    }
}

/// The uuid given to a legacy entry: its own when it has a non-blank one,
/// else a fresh one.
pub fn legacy_uuid(meta_uuid: &str) -> (r: String)
    ensures
        trim(meta_uuid@).len() == 0 ==> is_v4_uuid_text(r@),
        trim(meta_uuid@).len() > 0 ==> r@ == meta_uuid@,
{
    let t = trimmed_chars(meta_uuid);
    if t.len() == 0 {
        new_uuid_string()
    } else {
        meta_uuid.to_owned()
    }
}

/// The metadata roots and the index of the documents found under them.
pub struct MetaManager {
    pub roots: Vec<String>,
    pub index: MetaIndex,
}

impl MetaManager {
    /// A manager over `roots` with nothing indexed yet.
    pub fn new(roots: Vec<String>) -> (r: Self)
        ensures
            r.index.wf(),
            r.index.view() == Map::<Seq<char>, (Seq<char>, Set<MetaTemplateKind>)>::empty(),
            r.spec_roots() == roots@,
    {
        MetaManager { roots, index: MetaIndex::new() }
    }

    pub closed spec fn spec_roots(&self) -> Seq<String> {
        self.roots@
    }

    pub fn roots(&self) -> (r: &Vec<String>)
        ensures
            r@ == self.spec_roots(),
    {
        &self.roots
    }

    /// The index is empty and should be filled by a scan before lookups.
    pub fn needs_scan(&self) -> (r: bool)
        requires
            self.index.wf(),
        ensures
            r == (self.index.view().dom() =~= Set::<Seq<char>>::empty()),
    {
        self.index.is_empty()
    }

    /// The uuids holding a template of `kind`.
    pub fn uuids_for(&self, kind: MetaTemplateKind) -> (r: Vec<String>)
        requires
            self.index.wf(),
        ensures
            crate::order::distinct_texts(views(r@)),
            forall|u: Seq<char>|
                views(r@).contains(u) <==> (self.index.view().dom().contains(u)
                    && self.index.view()[u].1.contains(kind)),
    {
        self.index.uuids_for(kind)
    }

    /// Whether `uuid` is indexed.
    pub fn contains_uuid(&self, uuid: &str) -> (r: bool)
        requires
            self.index.wf(),
        ensures
            r == self.index.view().dom().contains(uuid@),
    {
        self.index.contains(uuid)
    }
}

} // verus!
