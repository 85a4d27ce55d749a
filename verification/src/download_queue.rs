//! The list of download tasks shown to the user.

use vstd::prelude::*;

use crate::download_task::{DownloadTaskPhase, DownloadTaskStatusCode};
use crate::models::clone_opt_string;

verus! {

/// One row of the download list.
#[derive(Debug, Clone)]
pub struct DownloadTask {
    pub id: u64,
    pub mod_id: u64,
    pub file_id: u64,
    pub mod_name: String,
    pub file_name: String,
    pub image_url: Option<String>,
    pub progress: u8,
    pub phase: DownloadTaskPhase,
    pub status_code: DownloadTaskStatusCode,
    pub status_text: String,
}

impl DownloadTask {
    pub fn duplicate(&self) -> (r: Self)
        ensures
            r == *self,
    {
        DownloadTask {
            id: self.id,
            mod_id: self.mod_id,
            file_id: self.file_id,
            mod_name: self.mod_name.clone(),
            file_name: self.file_name.clone(),
            image_url: clone_opt_string(&self.image_url),
            progress: self.progress,
            phase: self.phase,
            status_code: self.status_code,
            status_text: self.status_text.clone(),
        }
    }
}

/// Download tasks in the order they were created, with the next id to hand
/// out, the number of listeners subscribed, and the notices not delivered
/// yet (each a listener to call once).
pub struct DownloadQueue {
    next_id: u64,
    tasks: Vec<DownloadTask>,
    listeners: usize,
    notices: Vec<usize>,
}

/// One notice for each of `n` listeners, in the order they subscribed.
pub open spec fn every_listener(n: usize) -> Seq<usize> {
    Seq::new(n as nat, |i: int| i as usize)
}

pub open spec fn waiting_text() -> Seq<char> {
    "等待下载"@
}

/// What `create_task` does: an existing row for the mod file is reset and
/// keeps its id; otherwise a queued row with the next id is appended.
pub open spec fn created(
    before: DownloadQueue,
    after: DownloadQueue,
    mod_id: u64,
    file_id: u64,
    mod_name: String,
    file_name: String,
    image_url: Option<String>,
    r: u64,
) -> bool {
    &&& (exists|i: int| before.row_for_file(mod_id, file_id, i)) ==> exists|i: int|
        {
            &&& before.row_for_file(mod_id, file_id, i)
            &&& r == before.spec_tasks()[i].id
            &&& after.spec_next_id() == before.spec_next_id()
            &&& after.spec_tasks() == before.spec_tasks().update(
                i,
                DownloadTask {
                    mod_name,
                    file_name,
                    image_url,
                    progress: 0,
                    phase: DownloadTaskPhase::Queued,
                    status_code: DownloadTaskStatusCode::Queued,
                    status_text: after.spec_tasks()[i].status_text,
                    ..before.spec_tasks()[i]
                },
            )
            &&& after.spec_tasks()[i].status_text@ == waiting_text()
        }
    &&& !(exists|i: int| before.row_for_file(mod_id, file_id, i)) ==> {
        &&& r == before.spec_next_id()
        &&& after.spec_next_id() == (if before.spec_next_id() < u64::MAX {
            (before.spec_next_id() + 1) as u64
        } else {
            u64::MAX
        })
        &&& after.spec_tasks().len() == before.spec_tasks().len() + 1
        &&& after.spec_tasks().drop_last() == before.spec_tasks()
        &&& after.spec_tasks().last() == DownloadTask {
            id: r,
            mod_id,
            file_id,
            mod_name,
            file_name,
            image_url,
            progress: 0,
            phase: DownloadTaskPhase::Queued,
            status_code: DownloadTaskStatusCode::Queued,
            status_text: after.spec_tasks().last().status_text,
        }
        &&& after.spec_tasks().last().status_text@ == waiting_text()
    }
}

/// What `apply_update` does to the rows: the first row with `id` takes the
/// report (progress capped at 100, the image only when one is given); with
/// no such row nothing changes.
pub open spec fn updated(
    before: DownloadQueue,
    after: DownloadQueue,
    id: u64,
    phase: DownloadTaskPhase,
    progress: u8,
    status_code: DownloadTaskStatusCode,
    status_text: String,
    image_url: Option<String>,
) -> bool {
    &&& (exists|i: int| before.row_for_id(id, i)) ==> exists|i: int|
        {
            &&& before.row_for_id(id, i)
            &&& after.spec_tasks() == before.spec_tasks().update(
                i,
                DownloadTask {
                    phase,
                    progress: if progress < 100 {
                        progress
                    } else {
                        100
                    },
                    status_code,
                    status_text,
                    image_url: if image_url is Some {
                        image_url
                    } else {
                        before.spec_tasks()[i].image_url
                    },
                    ..before.spec_tasks()[i]
                },
            )
        }
    &&& !(exists|i: int| before.row_for_id(id, i)) ==> after.spec_tasks() == before.spec_tasks()
}

impl DownloadQueue {
    pub closed spec fn spec_tasks(&self) -> Seq<DownloadTask> {
        self.tasks@
    }

    pub closed spec fn spec_next_id(&self) -> u64 {
        self.next_id
    }

    pub closed spec fn spec_listeners(&self) -> usize {
        self.listeners
    }

    pub closed spec fn spec_notices(&self) -> Seq<usize> {
        self.notices@
    }

    /// Registers a listener; gives its number. Every later change of the
    /// rows leaves one notice for it.
    pub fn subscribe(&mut self) -> (id: usize)
        requires
            old(self).spec_listeners() < usize::MAX,
        ensures
            id == old(self).spec_listeners(),
            final(self).spec_listeners() == old(self).spec_listeners() + 1,
            final(self).spec_tasks() == old(self).spec_tasks(),
            final(self).spec_next_id() == old(self).spec_next_id(),
            final(self).spec_notices() == old(self).spec_notices(),
    {
        let id = self.listeners;
        self.listeners = self.listeners + 1;
        id
    }

    /// The notices left by the changes so far, in order; they are handed out
    /// once.
    pub fn take_notices(&mut self) -> (r: Vec<usize>)
        ensures
            r@ == old(self).spec_notices(),
            final(self).spec_notices().len() == 0,
            final(self).spec_tasks() == old(self).spec_tasks(),
            final(self).spec_next_id() == old(self).spec_next_id(),
            final(self).spec_listeners() == old(self).spec_listeners(),
    {
        let mut r: Vec<usize> = Vec::new();
        std::mem::swap(&mut r, &mut self.notices);
        r
    }

    /// Leaves one notice for every listener.
    fn notify(&mut self)
        ensures
            final(self).spec_notices() == old(self).spec_notices() + every_listener(old(self).spec_listeners()),
            final(self).spec_tasks() == old(self).spec_tasks(),
            final(self).spec_next_id() == old(self).spec_next_id(),
            final(self).spec_listeners() == old(self).spec_listeners(),
    {
        let mut i: usize = 0;
        while i < self.listeners
            invariant
                0 <= i <= self.listeners,
                self.listeners == old(self).listeners,
                self.tasks@ == old(self).tasks@,
                self.next_id == old(self).next_id,
                self.notices@ == old(self).notices@ + every_listener(i),
            decreases self.listeners - i,
        {
            self.notices.push(i);
            proof {
                assert(every_listener((i + 1) as usize) =~= every_listener(i).push(i));
            }
            i += 1;
        }
    }

    /// No id twice, and every id below the next one to hand out (until the
    /// counter saturates).
    pub open spec fn wf(&self) -> bool {
        &&& forall|i: int, j: int|
            0 <= i < j < self.spec_tasks().len() ==> (#[trigger] self.spec_tasks()[i]).id
                != (#[trigger] self.spec_tasks()[j]).id
        &&& forall|i: int|
            0 <= i < self.spec_tasks().len() ==> (#[trigger] self.spec_tasks()[i]).id
                < self.spec_next_id()
    }

    /// Index of the first row for this mod file.
    pub open spec fn row_for_file(&self, mod_id: u64, file_id: u64, i: int) -> bool {
        &&& 0 <= i < self.spec_tasks().len()
        &&& self.spec_tasks()[i].mod_id == mod_id
        &&& self.spec_tasks()[i].file_id == file_id
        &&& forall|j: int|
            0 <= j < i ==> !((#[trigger] self.spec_tasks()[j]).mod_id == mod_id
                && self.spec_tasks()[j].file_id == file_id)
    }

    /// Index of the first row with this id.
    pub open spec fn row_for_id(&self, id: u64, i: int) -> bool {
        &&& 0 <= i < self.spec_tasks().len()
        &&& self.spec_tasks()[i].id == id
        &&& forall|j: int| 0 <= j < i ==> (#[trigger] self.spec_tasks()[j]).id != id
    }

    pub fn new() -> (r: Self)
        ensures
            r.wf(),
            r.spec_tasks().len() == 0,
            r.spec_next_id() == 1,
            r.spec_listeners() == 0,
            r.spec_notices().len() == 0,
    {
        DownloadQueue { next_id: 1, tasks: Vec::new(), listeners: 0, notices: Vec::new() }
    }

    /// A copy of the rows.
    pub fn snapshot(&self) -> (r: Vec<DownloadTask>)
        ensures
            r@ == self.spec_tasks(),
    {
        let mut r: Vec<DownloadTask> = Vec::new();
        let mut i: usize = 0;
        while i < self.tasks.len()
            invariant
                0 <= i <= self.tasks@.len(),
                r@ =~= self.tasks@.take(i as int),
            decreases self.tasks.len() - i,
        {
            r.push(self.tasks[i].duplicate());
            i += 1;
        }
        assert(self.tasks@.take(self.tasks@.len() as int) =~= self.tasks@);
        r
    }

    /// Adds a queued row for a mod file, or resets the row it already has;
    /// gives the row's id. Every listener is notified once.
    pub fn create_task(
        &mut self,
        mod_id: u64,
        mod_name: String,
        file_id: u64,
        file_name: String,
        image_url: Option<String>,
    ) -> (r: u64)
        ensures
            old(self).wf() && old(self).spec_next_id() < u64::MAX ==> final(self).wf(),
            created(*old(self), *final(self), mod_id, file_id, mod_name, file_name, image_url, r),
            final(self).spec_listeners() == old(self).spec_listeners(),
            final(self).spec_notices() == old(self).spec_notices() + every_listener(old(self).spec_listeners()),
    {
        let r = self.create_row(mod_id, mod_name, file_id, file_name, image_url);
        self.notify();
        r
    }

    fn create_row(
        &mut self,
        mod_id: u64,
        mod_name: String,
        file_id: u64,
        file_name: String,
        image_url: Option<String>,
    ) -> (r: u64)
        ensures
            final(self).spec_listeners() == old(self).spec_listeners(),
            final(self).spec_notices() == old(self).spec_notices(),
            old(self).wf() && old(self).spec_next_id() < u64::MAX ==> final(self).wf(),
            created(*old(self), *final(self), mod_id, file_id, mod_name, file_name, image_url, r),
    {
        let mut i: usize = 0;
        while i < self.tasks.len()
            invariant
                0 <= i <= self.tasks@.len(),
                self.tasks@ == old(self).tasks@,
                self.next_id == old(self).next_id,
                self.listeners == old(self).listeners,
                self.notices@ == old(self).notices@,
                forall|j: int|
                    0 <= j < i ==> !((#[trigger] self.tasks@[j]).mod_id == mod_id
                        && self.tasks@[j].file_id == file_id),
            decreases self.tasks.len() - i,
        {
            if self.tasks[i].mod_id == mod_id && self.tasks[i].file_id == file_id {
                let mut t = self.tasks.remove(i);
                t.mod_name = mod_name;
                t.file_name = file_name;
                t.image_url = image_url;
                t.progress = 0;
                t.phase = DownloadTaskPhase::Queued;
                t.status_code = DownloadTaskStatusCode::Queued;
                t.status_text = "等待下载".to_owned();
                let id = t.id;
                self.tasks.insert(i, t);
                proof {
                    assert(old(self).row_for_file(mod_id, file_id, i as int));
                    assert(self.tasks@ =~= old(self).tasks@.update(i as int, self.tasks@[i as int]));
                }
                return id;
            }
            i += 1;
        }
        let id = self.next_id;
        self.next_id = if self.next_id < u64::MAX {
            self.next_id + 1
        } else {
            u64::MAX
        };
        self.tasks.push(
            DownloadTask {
                id,
                mod_id,
                file_id,
                mod_name,
                file_name,
                image_url,
                progress: 0,
                phase: DownloadTaskPhase::Queued,
                status_code: DownloadTaskStatusCode::Queued,
                status_text: "等待下载".to_owned(),
            },
        );
        proof {
            assert(self.tasks@.drop_last() =~= old(self).tasks@);
            assert forall|i: int| !old(self).row_for_file(mod_id, file_id, i) by {}
        }
        id
    }

    /// Writes a report into the row with `id`: phase, progress (capped at
    /// 100), status and text, and the image when one is given. Every
    /// listener is notified once, whether or not a row has that id.
    pub fn apply_update(
        &mut self,
        id: u64,
        phase: DownloadTaskPhase,
        progress: u8,
        status_code: DownloadTaskStatusCode,
        status_text: String,
        image_url: Option<String>,
    )
        ensures
            final(self).spec_listeners() == old(self).spec_listeners(),
            final(self).spec_notices() == old(self).spec_notices() + every_listener(old(self).spec_listeners()),
            old(self).wf() ==> final(self).wf(),
            final(self).spec_next_id() == old(self).spec_next_id(),
            updated(*old(self), *final(self), id, phase, progress, status_code, status_text, image_url),
    {
        self.update_row(id, phase, progress, status_code, status_text, image_url);
        self.notify();
    }

    fn update_row(
        &mut self,
        id: u64,
        phase: DownloadTaskPhase,
        progress: u8,
        status_code: DownloadTaskStatusCode,
        status_text: String,
        image_url: Option<String>,
    )
        ensures
            old(self).wf() ==> final(self).wf(),
            final(self).spec_next_id() == old(self).spec_next_id(),
            updated(*old(self), *final(self), id, phase, progress, status_code, status_text, image_url),
            final(self).spec_listeners() == old(self).spec_listeners(),
            final(self).spec_notices() == old(self).spec_notices(),
    {
        let mut i: usize = 0;
        while i < self.tasks.len()
            invariant
                0 <= i <= self.tasks@.len(),
                self.tasks@ == old(self).tasks@,
                self.next_id == old(self).next_id,
                self.listeners == old(self).listeners,
                self.notices@ == old(self).notices@,
                forall|j: int| 0 <= j < i ==> (#[trigger] self.tasks@[j]).id != id,
            decreases self.tasks.len() - i,
        {
            if self.tasks[i].id == id {
                let mut t = self.tasks.remove(i);
                t.phase = phase;
                t.progress = if progress < 100 {
                    progress
                } else {
                    100
                };
                t.status_code = status_code;
                t.status_text = status_text;
                match image_url {
                    Some(u) => {
                        t.image_url = Some(u);
                    },
                    None => {},
                }
                self.tasks.insert(i, t);
                proof {
                    assert(old(self).row_for_id(id, i as int));
                    assert(self.tasks@ =~= old(self).tasks@.update(i as int, self.tasks@[i as int]));
                    let s = self.tasks@;
                    assert forall|a: int| 0 <= a < s.len() implies (#[trigger] s[a]).id
                        == old(self).tasks@[a].id by {}
                    if old(self).wf() {
                        assert forall|a: int, b: int| 0 <= a < b < s.len() implies (#[trigger] s[a]).id
                            != (#[trigger] s[b]).id by {
                            assert(s[a].id == old(self).tasks@[a].id);
                            assert(s[b].id == old(self).tasks@[b].id);
                            assert(old(self).spec_tasks()[a] == old(self).tasks@[a]);
                            assert(old(self).spec_tasks()[b] == old(self).tasks@[b]);
                        }
                    }
                }
                return;
            }
            i += 1;
        }
        proof {
            assert forall|i: int| !old(self).row_for_id(id, i) by {}
        }
    }

    /// Drops the rows with `id`; when a row was dropped every listener is
    /// notified once, else none is.
    pub fn remove_task(&mut self, id: u64)
        ensures
            old(self).wf() ==> final(self).wf(),
            final(self).spec_next_id() == old(self).spec_next_id(),
            final(self).spec_tasks() == old(self).spec_tasks().filter(|t: DownloadTask| t.id != id),
            final(self).spec_listeners() == old(self).spec_listeners(),
            final(self).spec_notices() == (if final(self).spec_tasks().len() != old(self).spec_tasks().len() {
                old(self).spec_notices() + every_listener(old(self).spec_listeners())
            } else {
                old(self).spec_notices()
            }),
    {
        let before = self.tasks.len();
        self.remove_rows(id);
        if self.tasks.len() != before {
            self.notify();
        }
    }

    fn remove_rows(&mut self, id: u64)
        ensures
            final(self).spec_listeners() == old(self).spec_listeners(),
            final(self).spec_notices() == old(self).spec_notices(),
            old(self).wf() ==> final(self).wf(),
            final(self).spec_next_id() == old(self).spec_next_id(),
            final(self).spec_tasks() == old(self).spec_tasks().filter(|t: DownloadTask| t.id != id),
    {
        let ghost orig = self.tasks@;
        let ghost distinct = old(self).wf();
        let mut kept: Vec<DownloadTask> = Vec::new();
        let mut old_tasks: Vec<DownloadTask> = Vec::new();
        std::mem::swap(&mut old_tasks, &mut self.tasks);
        for t in it: old_tasks
            invariant
                it.seq() == orig,
                orig == old(self).tasks@,
                self.next_id == old(self).next_id,
                self.listeners == old(self).listeners,
                self.notices@ == old(self).notices@,
                distinct == old(self).wf(),
                kept@ == orig.take(it.index() as int).filter(|t: DownloadTask| t.id != id),
                forall|a: int|
                    0 <= a < kept@.len() ==> exists|j: int|
                        0 <= j < it.index() && #[trigger] kept@[a] == orig[j],
                distinct ==> forall|a: int, b: int|
                    0 <= a < b < kept@.len() ==> (#[trigger] kept@[a]).id != (#[trigger] kept@[b]).id,
        {
            let ghost k = it.index() as int;
            proof {
                assert(orig.take(k + 1).drop_last() =~= orig.take(k));
                reveal_with_fuel(Seq::<DownloadTask>::filter, 1);
            }
            if t.id != id {
                proof {
                    assert(t == orig[k]);
                    if distinct {
                        assert forall|a: int| 0 <= a < kept@.len() implies (#[trigger] kept@[a]).id
                            != t.id by {
                            let j = choose|j: int| 0 <= j < k && kept@[a] == orig[j];
                            assert(old(self).spec_tasks()[j] == orig[j]);
                            assert(old(self).spec_tasks()[k] == orig[k]);
                        }
                    }
                }
                kept.push(t);
                proof {
                    assert forall|a: int| 0 <= a < kept@.len() implies exists|j: int|
                        0 <= j < k + 1 && #[trigger] kept@[a] == orig[j] by {
                        if a < kept@.len() - 1 {
                            let j = choose|j: int| 0 <= j < k && kept@[a] == orig[j];
                            assert(kept@[a] == orig[j]);
                        } else {
                            assert(kept@[a] == orig[k]);
                        }
                    }
                }
            }
        }
        proof {
            assert(orig.take(orig.len() as int) =~= orig);
            if distinct {
                assert forall|a: int| 0 <= a < kept@.len() implies (#[trigger] kept@[a]).id
                    < old(self).next_id by {
                    let j = choose|j: int| 0 <= j < orig.len() && kept@[a] == orig[j];
                    assert(old(self).spec_tasks()[j] == orig[j]);
                }
            }
        }
        self.tasks = kept;
    }
}

/// A row that is waiting, downloading or installing.
pub open spec fn is_active_row(t: DownloadTask) -> bool {
    t.phase == DownloadTaskPhase::Queued || t.phase == DownloadTaskPhase::Downloading || t.phase
        == DownloadTaskPhase::Installing
}

/// Inserts `x` into the strictly increasing `v` unless it is there.
fn insert_id_sorted(v: &mut Vec<u64>, x: u64)
    requires
        forall|a: int, b: int| 0 <= a < b < old(v)@.len() ==> old(v)@[a] < old(v)@[b],
    ensures
        forall|a: int, b: int| 0 <= a < b < final(v)@.len() ==> final(v)@[a] < final(v)@[b],
        forall|y: u64| final(v)@.contains(y) <==> (old(v)@.contains(y) || y == x),
{
    let mut i: usize = 0;
    while i < v.len() && v[i] < x
        invariant
            0 <= i <= v@.len(),
            v@ == old(v)@,
            forall|j: int| 0 <= j < i ==> v@[j] < x,
        decreases v.len() - i,
    {
        i += 1;
    }
    if i < v.len() && v[i] == x {
        return;
    }
    v.insert(i, x);
    proof {
        assert forall|y: u64| v@.contains(y) <==> (old(v)@.contains(y) || y == x) by {
            if v@.contains(y) {
                let k = choose|k: int| 0 <= k < v@.len() && v@[k] == y;
                if k < i {
                    assert(old(v)@[k] == y);
                } else if k > i {
                    assert(old(v)@[k - 1] == y);
                }
            }
            if old(v)@.contains(y) {
                let k = choose|k: int| 0 <= k < old(v)@.len() && old(v)@[k] == y;
                if k < i {
                    assert(v@[k] == y);
                } else {
                    assert(v@[k + 1] == y);
                }
            }
            if y == x {
                assert(v@[i as int] == x);
            }
        }
    }
}

/// The ids of the active rows, ascending and each once: the tasks a
/// "pause all" asks to pause.
pub fn ids_to_pause(tasks: &[DownloadTask]) -> (r: Vec<u64>)
    ensures
        forall|a: int, b: int| 0 <= a < b < r@.len() ==> r@[a] < r@[b],
        forall|y: u64|
            r@.contains(y) <==> exists|i: int|
                0 <= i < tasks@.len() && is_active_row(#[trigger] tasks@[i]) && tasks@[i].id == y,
{
    let mut r: Vec<u64> = Vec::new();
    let mut i: usize = 0;
    while i < tasks.len()
        invariant
            0 <= i <= tasks@.len(),
            forall|a: int, b: int| 0 <= a < b < r@.len() ==> r@[a] < r@[b],
            forall|y: u64|
                r@.contains(y) <==> exists|j: int|
                    0 <= j < i && is_active_row(#[trigger] tasks@[j]) && tasks@[j].id == y,
        decreases tasks.len() - i,
    {
        let t = &tasks[i];
        let active = match t.phase {
            DownloadTaskPhase::Queued | DownloadTaskPhase::Downloading
            | DownloadTaskPhase::Installing => true,
            _ => false,
        };
        let ghost before = r@;
        if active {
            insert_id_sorted(&mut r, t.id);
        }
        proof {
            assert forall|y: u64| r@.contains(y) <==> exists|j: int|
                0 <= j < i + 1 && is_active_row(#[trigger] tasks@[j]) && tasks@[j].id == y by {
                if r@.contains(y) && !before.contains(y) {
                    assert(is_active_row(tasks@[i as int]) && tasks@[i as int].id == y);
                }
                if exists|j: int| 0 <= j < i + 1 && is_active_row(#[trigger] tasks@[j]) && tasks@[j].id == y {
                    let j = choose|j: int| 0 <= j < i + 1 && is_active_row(#[trigger] tasks@[j]) && tasks@[j].id == y;
                    if j < i {
                        assert(before.contains(y));
                    }
                }
            }
        }
        i += 1;
    }
    r
}

/// A row for the mod file at `j` means there is a first such row.
proof fn lemma_first_row_for_file(q: DownloadQueue, mod_id: u64, file_id: u64, j: int)
    requires
        0 <= j < q.spec_tasks().len(),
        q.spec_tasks()[j].mod_id == mod_id,
        q.spec_tasks()[j].file_id == file_id,
    ensures
        exists|i: int| q.row_for_file(mod_id, file_id, i),
    decreases j,
{
    if exists|k: int|
        0 <= k < j && (#[trigger] q.spec_tasks()[k]).mod_id == mod_id && q.spec_tasks()[k].file_id
            == file_id {
        let k = choose|k: int|
            0 <= k < j && (#[trigger] q.spec_tasks()[k]).mod_id == mod_id
                && q.spec_tasks()[k].file_id == file_id;
        lemma_first_row_for_file(q, mod_id, file_id, k);
    } else {
        assert(q.row_for_file(mod_id, file_id, j));
    }
}

/// Asking twice for the same mod file gives the same id both times, and the
/// second request adds no row and hands out no new id.
pub proof fn lemma_create_twice_same_id(
    q0: DownloadQueue,
    q1: DownloadQueue,
    q2: DownloadQueue,
    mod_id: u64,
    file_id: u64,
    first: (String, String, Option<String>),
    second: (String, String, Option<String>),
    r1: u64,
    r2: u64,
)
    requires
        created(q0, q1, mod_id, file_id, first.0, first.1, first.2, r1),
        created(q1, q2, mod_id, file_id, second.0, second.1, second.2, r2),
    ensures
        r1 == r2,
        q2.spec_tasks().len() == q1.spec_tasks().len(),
        q2.spec_next_id() == q1.spec_next_id(),
{
    if exists|i: int| q0.row_for_file(mod_id, file_id, i) {
        let i = choose|i: int|
            {
                &&& q0.row_for_file(mod_id, file_id, i)
                &&& r1 == q0.spec_tasks()[i].id
                &&& q1.spec_tasks() == q0.spec_tasks().update(
                    i,
                    DownloadTask {
                        mod_name: first.0,
                        file_name: first.1,
                        image_url: first.2,
                        progress: 0,
                        phase: DownloadTaskPhase::Queued,
                        status_code: DownloadTaskStatusCode::Queued,
                        status_text: q1.spec_tasks()[i].status_text,
                        ..q0.spec_tasks()[i]
                    },
                )
                &&& q1.spec_tasks()[i].status_text@ == waiting_text()
                &&& q1.spec_next_id() == q0.spec_next_id()
            };
        assert(q1.row_for_file(mod_id, file_id, i));
    } else {
        let n = q1.spec_tasks().len() - 1;
        assert forall|j: int| 0 <= j < n implies !((#[trigger] q1.spec_tasks()[j]).mod_id == mod_id
            && q1.spec_tasks()[j].file_id == file_id) by {
            assert(q1.spec_tasks()[j] == q1.spec_tasks().drop_last()[j]);
            if q0.spec_tasks()[j].mod_id == mod_id && q0.spec_tasks()[j].file_id == file_id {
                lemma_first_row_for_file(q0, mod_id, file_id, j);
            }
        }
        assert(q1.row_for_file(mod_id, file_id, n));
    }
}

} // verus!
