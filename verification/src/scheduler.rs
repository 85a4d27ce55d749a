//! The bookkeeping of the download scheduler: which tasks run, wait, are
//! paused or hold a slot for a retry, how often each kind of failure was
//! retried, and which task is admitted next.
//!
//! The caller owns the running executions and the timers; it asks this state
//! what to do and reports back what happened.

use std::collections::{HashMap, HashSet};

use vstd::prelude::*;

use crate::download_task::{DownloadTaskPhase, DownloadTaskRequest, DownloadTaskStatusCode, DownloadTaskUpdate};
use crate::models::{
    DOWNLOAD_STATUS_FAILED_FILE_NOT_FOUND, DOWNLOAD_STATUS_FAILED_INVALID_RANGE,
    DOWNLOAD_STATUS_FAILED_NETWORK, DOWNLOAD_STATUS_FAILED_NETWORK_ENVIRONMENT,
    DOWNLOAD_STATUS_FAILED_UNEXPECTED_EOF,
};
use crate::text::{decimal, push_decimal, push_str};

verus! {

broadcast use vstd::std_specs::hash::group_hash_axioms;

/// How often each kind of failure of one task was retried, and the number of
/// the retry last scheduled for it.
#[derive(Debug, Clone, Copy, PartialEq, Eq, Structural)]
pub struct RetryCounters {
    pub unexpected_eof: u8,
    pub file_not_found: u8,
    pub network: u8,
    pub invalid_range: u8,
    pub generation: u64,
}

/// The counters of a task never retried.
pub open spec fn fresh_counters() -> RetryCounters {
    RetryCounters { unexpected_eof: 0, file_not_found: 0, network: 0, invalid_range: 0, generation: 0 }
}

impl RetryCounters {
    pub fn zero() -> (r: Self)
        ensures
            r == fresh_counters(),
    {
        RetryCounters { unexpected_eof: 0, file_not_found: 0, network: 0, invalid_range: 0, generation: 0 }
    }
}

/// The kinds of failure that are retried.
#[derive(Debug, Clone, Copy, PartialEq, Eq, Structural)]
pub enum RetryKind {
    UnexpectedEof,
    FileNotFound,
    Network,
    InvalidRange,
}

/// `u8::saturating_add(1)`.
pub open spec fn inc8(n: u8) -> u8 {
    if n < u8::MAX {
        (n + 1) as u8
    } else {
        u8::MAX
    }
}

/// `u64::saturating_add(1)`.
pub open spec fn inc64(n: u64) -> u64 {
    if n < u64::MAX {
        (n + 1) as u64
    } else {
        u64::MAX
    }
}

/// The count of `kind` in `c`.
pub open spec fn count_of(c: RetryCounters, kind: RetryKind) -> u8 {
    match kind {
        RetryKind::UnexpectedEof => c.unexpected_eof,
        RetryKind::FileNotFound => c.file_not_found,
        RetryKind::Network => c.network,
        RetryKind::InvalidRange => c.invalid_range,
    }
}

/// `c` with one more retry of `kind` counted.
pub open spec fn bump_counters(c: RetryCounters, kind: RetryKind) -> RetryCounters {
    match kind {
        RetryKind::UnexpectedEof => RetryCounters { unexpected_eof: inc8(c.unexpected_eof), ..c },
        RetryKind::FileNotFound => RetryCounters { file_not_found: inc8(c.file_not_found), ..c },
        RetryKind::Network => RetryCounters { network: inc8(c.network), ..c },
        RetryKind::InvalidRange => RetryCounters { invalid_range: inc8(c.invalid_range), ..c },
    }
}

/// The counters of `id` in `m`, fresh ones when it has none.
pub open spec fn counters_in(m: Map<u64, RetryCounters>, id: u64) -> RetryCounters {
    if m.contains_key(id) {
        m[id]
    } else {
        fresh_counters()
    }
}

/// A user's request about one task, handled when the scheduler next runs.
#[derive(Debug, Clone, Copy, PartialEq, Eq, Structural)]
pub enum UserTaskAction {
    Start(u64),
    Pause(u64),
    Remove(u64),
}

/// What to do about a failed task.
#[derive(Debug)]
pub enum FailurePlan {
    /// Leave it failed.
    NotRetried,
    /// Restore the stored checkpoint (resetting the byte count and deleting
    /// the partial file when asked), report the task queued at `progress`
    /// with `message`, and queue it again after a short wait, unless a newer
    /// retry (`generation`) was scheduled meanwhile. A reserved slot is held
    /// until then.
    Retry {
        reset_downloaded_bytes: bool,
        delete_temp_file: bool,
        reserve_slot: bool,
        progress: u8,
        message: String,
        generation: u64,
    },
    /// The network retries are used up: store the failure under
    /// `status_code` with `debug_detail` and report `final_message`.
    NetworkExhausted { status_code: u16, final_message: String, debug_detail: String },
}

pub open spec fn eof_retry_text() -> Seq<char> {
    "检测到文件不完整，正在重新下载"@
}

pub open spec fn missing_retry_text() -> Seq<char> {
    "文件不存在，正在重新下载"@
}

pub open spec fn range_retry_text() -> Seq<char> {
    "检测到续传范围异常，正在重新下载"@
}

pub open spec fn network_retry_text(attempt: u8) -> Seq<char> {
    "网络异常，重新连接 "@ + decimal(attempt as nat) + "/3"@
}

pub open spec fn network_exhausted_text() -> Seq<char> {
    "网络环境异常，已重试 3 次"@
}

/// The kind of retry a stored failure status asks for, if any.
pub open spec fn retry_kind_of(status: u16) -> Option<RetryKind> {
    if status == DOWNLOAD_STATUS_FAILED_UNEXPECTED_EOF {
        Some(RetryKind::UnexpectedEof)
    } else if status == DOWNLOAD_STATUS_FAILED_FILE_NOT_FOUND {
        Some(RetryKind::FileNotFound)
    } else if status == DOWNLOAD_STATUS_FAILED_NETWORK {
        Some(RetryKind::Network)
    } else if status == DOWNLOAD_STATUS_FAILED_INVALID_RANGE {
        Some(RetryKind::InvalidRange)
    } else {
        None
    }
}

/// How many retries of each kind are allowed.
pub open spec fn retry_limit(kind: RetryKind) -> u8 {
    match kind {
        RetryKind::Network => 3,
        _ => 1,
    }
}

/// The task id a request is for.
pub open spec fn request_id(r: DownloadTaskRequest) -> u64 {
    match r {
        DownloadTaskRequest::Fresh(t) => t.task_id,
        DownloadTaskRequest::Resume(t) => t.task_id,
    }
}

/// `ids` without `id`.
pub open spec fn drop_id(ids: Seq<u64>, id: u64) -> Seq<u64> {
    ids.filter(|x: u64| x != id)
}

/// `ids` without `id`, keeping the order of the rest.
pub fn without_id(ids: &Vec<u64>, id: u64) -> (r: Vec<u64>)
    ensures
        r@ == drop_id(ids@, id),
{
    let mut r: Vec<u64> = Vec::new();
    let mut i: usize = 0;
    while i < ids.len()
        invariant
            0 <= i <= ids@.len(),
            r@ == drop_id(ids@.take(i as int), id),
        decreases ids.len() - i,
    {
        proof {
            assert(ids@.take(i + 1).drop_last() =~= ids@.take(i as int));
            reveal_with_fuel(Seq::<u64>::filter, 1);
        }
        if ids[i] != id {
            r.push(ids[i]);
        }
        i += 1;
    }
    assert(ids@.take(ids@.len() as int) =~= ids@);
    r
}

/// Whether `ids` holds `id`.
pub fn holds_id(ids: &Vec<u64>, id: u64) -> (r: bool)
    ensures
        r == ids@.contains(id),
{
    let mut i: usize = 0;
    while i < ids.len()
        invariant
            0 <= i <= ids@.len(),
            forall|j: int| 0 <= j < i ==> ids@[j] != id,
        decreases ids.len() - i,
    {
        if ids[i] == id {
            assert(ids@[i as int] == id);
            return true;
        }
        i += 1;
    }
    false
}

/// The first place in `order` whose task has a waiting job.
pub open spec fn first_ready(order: Seq<u64>, pending: Map<u64, DownloadTaskRequest>, k: int) -> bool {
    &&& 0 <= k < order.len()
    &&& pending.contains_key(order[k])
    &&& forall|j: int| 0 <= j < k ==> !pending.contains_key(#[trigger] order[j])
}

/// How a finished execution is handled.
#[derive(Debug, Clone, Copy, PartialEq, Eq, Structural)]
pub enum FinishKind {
    /// It paused: keep the request as paused.
    Paused,
    /// It was stopped for shutdown and is queued for the next start.
    ShutdownRequeued,
    /// It was removed: delete its files and its row.
    Removed,
    /// It completed: the installed list changed; drop the row a little later.
    Completed,
}

/// How the final report of an execution is handled.
pub fn finish_kind(shutdown_in_progress: bool, update: &DownloadTaskUpdate) -> (r: FinishKind)
    ensures
        r == (if update.status_code == DownloadTaskStatusCode::Paused {
            FinishKind::Paused
        } else if shutdown_in_progress && update.phase == DownloadTaskPhase::Queued
            && update.status_code == DownloadTaskStatusCode::Queued {
            FinishKind::ShutdownRequeued
        } else if update.status_code == DownloadTaskStatusCode::Removed {
            FinishKind::Removed
        } else {
            FinishKind::Completed
        }),
{
    if update.status_code == DownloadTaskStatusCode::Paused {
        FinishKind::Paused
    } else if shutdown_in_progress && update.phase == DownloadTaskPhase::Queued
        && update.status_code == DownloadTaskStatusCode::Queued {
        FinishKind::ShutdownRequeued
    } else if update.status_code == DownloadTaskStatusCode::Removed {
        FinishKind::Removed
    } else {
        FinishKind::Completed
    }
}

pub open spec fn disconnected_text() -> Seq<char> {
    "下载线程已断开"@
}

/// The text reported for a task whose execution went away without a final
/// report: its last status text, or a note that the thread is gone.
pub fn disconnected_status_text(last_text: &str) -> (r: String)
    ensures
        r@ == (if last_text@.len() == 0 {
            disconnected_text()
        } else {
            last_text@
        }),
{
    if last_text.is_empty() {
        "下载线程已断开".to_owned()
    } else {
        last_text.to_owned()
    }
}

/// Whether no task may start now: shutdown has begun or every slot is taken.
pub open spec fn blocked(s: SchedulerCore) -> bool {
    s.spec_shutdown() || s.spec_running().len() + s.spec_reserved().len() >= s.spec_max_concurrent()
}

/// What `next_admission` does: when not blocked, the first waiting task with
/// a job is taken out of the list and counted as running, and the ids before
/// it are dropped; when no id has a job, the list is emptied.
pub open spec fn admitted(before: SchedulerCore, after: SchedulerCore, r: Option<DownloadTaskRequest>) -> bool {
    let order = before.spec_order();
    let pending = before.spec_pending();
    &&& after.spec_max_concurrent() == before.spec_max_concurrent()
    &&& after.spec_shutdown() == before.spec_shutdown()
    &&& after.spec_reserved() == before.spec_reserved()
    &&& after.spec_paused() == before.spec_paused()
    &&& after.spec_actions() == before.spec_actions()
    &&& after.spec_retries() == before.spec_retries()
    &&& blocked(before) ==> r is None && after.same_views(before)
    &&& !blocked(before) ==> {
        &&& (exists|k: int| first_ready(order, pending, k)) ==> exists|k: int|
            {
                &&& first_ready(order, pending, k)
                &&& r == Some(pending[order[k]])
                &&& after.spec_order() == order.skip(k + 1)
                &&& after.spec_pending() == pending.remove(order[k])
                &&& after.spec_running() == before.spec_running().insert(order[k])
            }
        &&& !(exists|k: int| first_ready(order, pending, k)) ==> {
            &&& r is None
            &&& after.spec_order().len() == 0
            &&& after.spec_pending() == pending
            &&& after.spec_running() == before.spec_running()
        }
    }
}

/// A whole admission run over the waiting list, one id at a time: nothing
/// starts once shutdown has begun or the slots are full; an id with a waiting
/// job starts (it leaves the list, its job is taken, it counts as running);
/// an id without one is dropped. Gives the requests started, in order, and
/// the list, jobs and running set that are left.
pub open spec fn admit_run(
    shutdown: bool,
    order: Seq<u64>,
    pending: Map<u64, DownloadTaskRequest>,
    running: Set<u64>,
    reserved: nat,
    max: nat,
) -> (Seq<DownloadTaskRequest>, Seq<u64>, Map<u64, DownloadTaskRequest>, Set<u64>)
    decreases order.len(),
{
    if shutdown || running.len() + reserved >= max || order.len() == 0 {
        (Seq::empty(), order, pending, running)
    } else if pending.contains_key(order[0]) {
        let rest = admit_run(
            shutdown,
            order.skip(1),
            pending.remove(order[0]),
            running.insert(order[0]),
            reserved,
            max,
        );
        (seq![pending[order[0]]] + rest.0, rest.1, rest.2, rest.3)
    } else {
        admit_run(shutdown, order.skip(1), pending, running, reserved, max)
    }
}

/// The admission run that starts from `s`.
pub open spec fn run_of(s: SchedulerCore) -> (
    Seq<DownloadTaskRequest>,
    Seq<u64>,
    Map<u64, DownloadTaskRequest>,
    Set<u64>,
) {
    admit_run(
        s.spec_shutdown(),
        s.spec_order(),
        s.spec_pending(),
        s.spec_running(),
        s.spec_reserved().len(),
        s.spec_max_concurrent() as nat,
    )
}

/// Ids without a waiting job at the head of the list are passed over.
proof fn lemma_run_skips(
    shutdown: bool,
    order: Seq<u64>,
    pending: Map<u64, DownloadTaskRequest>,
    running: Set<u64>,
    reserved: nat,
    max: nat,
    k: int,
)
    requires
        !shutdown,
        running.len() + reserved < max,
        0 <= k <= order.len(),
        forall|j: int| 0 <= j < k ==> !pending.contains_key(#[trigger] order[j]),
    ensures
        admit_run(shutdown, order, pending, running, reserved, max) == admit_run(
            shutdown,
            order.skip(k),
            pending,
            running,
            reserved,
            max,
        ),
    decreases k,
{
    if k == 0 {
        assert(order.skip(0) =~= order);
    } else {
        assert(!pending.contains_key(order[0]));
        let tail = order.skip(1);
        assert forall|j: int| 0 <= j < k - 1 implies !pending.contains_key(#[trigger] tail[j]) by {
            assert(tail[j] == order[j + 1]);
        }
        lemma_run_skips(shutdown, tail, pending, running, reserved, max, k - 1);
        assert(tail.skip(k - 1) =~= order.skip(k));
    }
}

/// One admission step is the first step of the run: a request it starts is
/// the first one the run starts, and the rest of the run goes on from the
/// state after it; when it starts none, the run starts none either and ends
/// where the step left the state.
pub proof fn lemma_admission_starts_run(
    before: SchedulerCore,
    after: SchedulerCore,
    r: Option<DownloadTaskRequest>,
)
    requires
        admitted(before, after, r),
    ensures
        r matches Some(x) ==> run_of(before) == (
            seq![x] + run_of(after).0,
            run_of(after).1,
            run_of(after).2,
            run_of(after).3,
        ),
        r is None ==> run_of(before) == (
            Seq::<DownloadTaskRequest>::empty(),
            after.spec_order(),
            after.spec_pending(),
            after.spec_running(),
        ),
        r is None ==> blocked(after) || after.spec_order().len() == 0,
{
    let order = before.spec_order();
    let pending = before.spec_pending();
    let running = before.spec_running();
    let sd = before.spec_shutdown();
    let res = before.spec_reserved().len();
    let max = before.spec_max_concurrent() as nat;
    if blocked(before) {
    } else if exists|k: int| first_ready(order, pending, k) {
        let k = choose|k: int|
            {
                &&& first_ready(order, pending, k)
                &&& r == Some(pending[order[k]])
                &&& after.spec_order() == order.skip(k + 1)
                &&& after.spec_pending() == pending.remove(order[k])
                &&& after.spec_running() == running.insert(order[k])
            };
        lemma_run_skips(sd, order, pending, running, res, max, k);
        let tail = order.skip(k);
        assert(tail[0] == order[k]);
        assert(tail.skip(1) =~= order.skip(k + 1));
    } else {
        assert forall|j: int| 0 <= j < order.len() implies !pending.contains_key(#[trigger] order[j]) by {
            if pending.contains_key(order[j]) {
                lemma_first_ready_exists(order, pending, j);
            }
        }
        lemma_run_skips(sd, order, pending, running, res, max, order.len() as int);
        assert(order.skip(order.len() as int) =~= Seq::<u64>::empty());
        assert(after.spec_order() =~= Seq::<u64>::empty());
    }
}

/// First come, first served: when a slot is free and the first waiting id
/// has a job, that job is the first one a run starts, and the rest of the run
/// goes on from the ids behind it.
pub proof fn lemma_run_serves_first_waiting(s: SchedulerCore)
    requires
        !blocked(s),
        s.spec_order().len() > 0,
        s.spec_pending().contains_key(s.spec_order()[0]),
    ensures
        run_of(s).0.len() > 0,
        run_of(s).0[0] == s.spec_pending()[s.spec_order()[0]],
        run_of(s).0.skip(1) == admit_run(
            s.spec_shutdown(),
            s.spec_order().skip(1),
            s.spec_pending().remove(s.spec_order()[0]),
            s.spec_running().insert(s.spec_order()[0]),
            s.spec_reserved().len(),
            s.spec_max_concurrent() as nat,
        ).0,
{
    let rest = admit_run(
        s.spec_shutdown(),
        s.spec_order().skip(1),
        s.spec_pending().remove(s.spec_order()[0]),
        s.spec_running().insert(s.spec_order()[0]),
        s.spec_reserved().len(),
        s.spec_max_concurrent() as nat,
    );
    assert((seq![s.spec_pending()[s.spec_order()[0]]] + rest.0).skip(1) =~= rest.0);
}

/// When some id in the list has a waiting job, a first such id exists.
proof fn lemma_first_ready_exists(order: Seq<u64>, pending: Map<u64, DownloadTaskRequest>, j: int)
    requires
        0 <= j < order.len(),
        pending.contains_key(order[j]),
    ensures
        exists|k: int| first_ready(order, pending, k),
    decreases j,
{
    if forall|m: int| 0 <= m < j ==> !pending.contains_key(#[trigger] order[m]) {
        assert(first_ready(order, pending, j));
    } else {
        let m = choose|m: int| 0 <= m < j && pending.contains_key(#[trigger] order[m]);
        lemma_first_ready_exists(order, pending, m);
    }
}

/// `after` is `before` with `request` set aside as paused: no longer
/// waiting, and kept under its task id.
pub open spec fn stored_paused(before: SchedulerCore, after: SchedulerCore, request: DownloadTaskRequest) -> bool {
    let id = request_id(request);
    &&& after.spec_pending() == before.spec_pending().remove(id)
    &&& after.spec_order() == drop_id(before.spec_order(), id)
    &&& after.spec_paused() == before.spec_paused().insert(id, request)
    &&& after.spec_max_concurrent() == before.spec_max_concurrent()
    &&& after.spec_shutdown() == before.spec_shutdown()
    &&& after.spec_running() == before.spec_running()
    &&& after.spec_reserved() == before.spec_reserved()
    &&& after.spec_actions() == before.spec_actions()
    &&& after.spec_retries() == before.spec_retries()
}

/// What a user's start does: a paused task that is not running waits again
/// with its stored request, reported queued; otherwise nothing changes.
pub open spec fn started(
    before: SchedulerCore,
    after: SchedulerCore,
    task_id: u64,
    r: Option<DownloadTaskUpdate>,
) -> bool {
    &&& after.spec_max_concurrent() == before.spec_max_concurrent()
    &&& after.spec_shutdown() == before.spec_shutdown()
    &&& after.spec_running() == before.spec_running()
    &&& after.spec_reserved() == before.spec_reserved()
    &&& after.spec_actions() == before.spec_actions()
    &&& after.spec_retries() == before.spec_retries()
    &&& before.spec_running().contains(task_id) || !before.spec_paused().contains_key(task_id)
        ==> r is None && after.same_views(before)
    &&& !before.spec_running().contains(task_id) && before.spec_paused().contains_key(task_id)
        ==> {
        &&& r matches Some(u) && u.phase == DownloadTaskPhase::Queued && u.progress == 0
            && u.status_code == DownloadTaskStatusCode::Queued && u.status_text@ == "等待下载"@
            && u.image_path is None
        &&& after.spec_paused() == before.spec_paused().remove(task_id)
        &&& after.spec_pending() == before.spec_pending().insert(
            task_id,
            before.spec_paused()[task_id],
        )
        &&& after.spec_order() == (if before.spec_order().contains(task_id) {
            before.spec_order()
        } else {
            before.spec_order().push(task_id)
        })
    }
}

/// Pausing a waiting task and starting it again puts its own request back
/// at the end of the waiting list, and it is no longer paused.
pub proof fn lemma_pause_then_start(
    s0: SchedulerCore,
    s1: SchedulerCore,
    s2: SchedulerCore,
    request: DownloadTaskRequest,
    r: Option<DownloadTaskUpdate>,
)
    requires
        stored_paused(s0, s1, request),
        !s0.spec_running().contains(request_id(request)),
        started(s1, s2, request_id(request), r),
    ensures
        r is Some,
        s2.spec_pending().contains_key(request_id(request)),
        s2.spec_pending()[request_id(request)] == request,
        !s2.spec_paused().contains_key(request_id(request)),
        s2.spec_order() == drop_id(s0.spec_order(), request_id(request)).push(request_id(request)),
{
    let id = request_id(request);
    let d = drop_id(s0.spec_order(), id);
    reveal_with_fuel(Seq::<u64>::filter, 1);
    assert(!d.contains(id)) by {
        s0.spec_order().filter_lemma(|x: u64| x != id);
        if d.contains(id) {
            let k = choose|k: int| 0 <= k < d.len() && d[k] == id;
            assert((|x: u64| x != id)(d[k]));
        }
    }
}

/// What `enqueue` does: the request waits (no longer paused), first in the
/// list when prioritized, last otherwise.
pub open spec fn enqueued(
    before: SchedulerCore,
    after: SchedulerCore,
    request: DownloadTaskRequest,
    prioritize: bool,
) -> bool {
    let id = request_id(request);
    &&& after.spec_paused() == before.spec_paused().remove(id)
    &&& after.spec_pending() == before.spec_pending().insert(id, request)
    &&& after.spec_order() == (if prioritize {
        seq![id] + drop_id(before.spec_order(), id)
    } else {
        drop_id(before.spec_order(), id).push(id)
    })
    &&& after.spec_max_concurrent() == before.spec_max_concurrent()
    &&& after.spec_shutdown() == before.spec_shutdown()
    &&& after.spec_running() == before.spec_running()
    &&& after.spec_reserved() == before.spec_reserved()
    &&& after.spec_actions() == before.spec_actions()
    &&& after.spec_retries() == before.spec_retries()
}

/// An admission never fills more slots than the limit allows: after a task
/// is admitted, running tasks and reserved retries together stay within it.
pub proof fn lemma_admission_within_limit(
    before: SchedulerCore,
    after: SchedulerCore,
    r: Option<DownloadTaskRequest>,
)
    requires
        before.wf(),
        admitted(before, after, r),
        r is Some,
    ensures
        after.spec_running().len() + after.spec_reserved().len() <= after.spec_max_concurrent(),
{
    let order = before.spec_order();
    let pending = before.spec_pending();
    let k = choose|k: int|
        {
            &&& first_ready(order, pending, k)
            &&& r == Some(pending[order[k]])
            &&& after.spec_order() == order.skip(k + 1)
            &&& after.spec_pending() == pending.remove(order[k])
            &&& after.spec_running() == before.spec_running().insert(order[k])
        };
    if before.spec_running().contains(order[k]) {
        assert(before.spec_running().insert(order[k]) =~= before.spec_running());
    }
}

/// A request queued with priority while a slot is free is the next one
/// admitted.
pub proof fn lemma_prioritized_admitted_next(
    s0: SchedulerCore,
    s1: SchedulerCore,
    s2: SchedulerCore,
    request: DownloadTaskRequest,
    r: Option<DownloadTaskRequest>,
)
    requires
        enqueued(s0, s1, request, true),
        admitted(s1, s2, r),
        !blocked(s1),
    ensures
        r == Some(request),
        s2.spec_running() == s1.spec_running().insert(request_id(request)),
        s2.spec_order() == drop_id(s0.spec_order(), request_id(request)),
{
    let order = s1.spec_order();
    let pending = s1.spec_pending();
    assert(order[0] == request_id(request));
    assert(first_ready(order, pending, 0));
    let k = choose|k: int|
        {
            &&& first_ready(order, pending, k)
            &&& r == Some(pending[order[k]])
            &&& s2.spec_order() == order.skip(k + 1)
            &&& s2.spec_pending() == pending.remove(order[k])
            &&& s2.spec_running() == s1.spec_running().insert(order[k])
        };
    if k > 0 {
        assert(!pending.contains_key(order[0]));
    }
    assert(order.skip(1) =~= drop_id(s0.spec_order(), request_id(request)));
}

/// The scheduler's state.
pub struct SchedulerCore {
    max_concurrent: usize,
    shutdown_in_progress: bool,
    running: HashSet<u64>,
    retry_reserved: HashSet<u64>,
    pending_order: Vec<u64>,
    pending_jobs: HashMap<u64, DownloadTaskRequest>,
    paused_jobs: HashMap<u64, DownloadTaskRequest>,
    user_actions: Vec<UserTaskAction>,
    retry_counts: HashMap<u64, RetryCounters>,
}

/// What the scheduler knows of a task that a remove request names.
#[derive(Debug)]
pub enum RemoveOutcome {
    /// It runs: ask its execution to stop and delete its files.
    StopRunning,
    /// It was waiting or paused: delete the files of this request and drop
    /// its row.
    Dropped(DownloadTaskRequest),
    /// It had ended (failed or completed): clear its stored download and
    /// drop its row.
    ClearEnded,
    /// Nothing to do.
    Ignored,
}

/// What the scheduler knows of a task that a pause request names.
#[derive(Debug)]
pub enum PauseOutcome {
    /// It runs: ask its execution to pause.
    PauseRunning,
    /// It was waiting and is now paused: store the pause for this mod and
    /// folder and report the update.
    Paused { mod_id: u64, folder_name: String, update: DownloadTaskUpdate },
    /// Nothing to do.
    Ignored,
}

impl SchedulerCore {
    pub closed spec fn spec_max_concurrent(&self) -> usize {
        self.max_concurrent
    }

    pub closed spec fn spec_shutdown(&self) -> bool {
        self.shutdown_in_progress
    }

    pub closed spec fn spec_running(&self) -> Set<u64> {
        self.running@
    }

    pub closed spec fn spec_reserved(&self) -> Set<u64> {
        self.retry_reserved@
    }

    pub closed spec fn spec_order(&self) -> Seq<u64> {
        self.pending_order@
    }

    pub closed spec fn spec_pending(&self) -> Map<u64, DownloadTaskRequest> {
        self.pending_jobs@
    }

    pub closed spec fn spec_paused(&self) -> Map<u64, DownloadTaskRequest> {
        self.paused_jobs@
    }

    pub closed spec fn spec_actions(&self) -> Seq<UserTaskAction> {
        self.user_actions@
    }

    pub closed spec fn spec_retries(&self) -> Map<u64, RetryCounters> {
        self.retry_counts@
    }

    /// The running and reserved sets are finite and at least one task may
    /// run.
    pub open spec fn wf(self) -> bool {
        &&& self.spec_running().finite()
        &&& self.spec_reserved().finite()
        &&& self.spec_max_concurrent() >= 1
    }

    /// The two states agree in every part.
    pub open spec fn same_views(self, other: Self) -> bool {
        &&& self.spec_max_concurrent() == other.spec_max_concurrent()
        &&& self.spec_shutdown() == other.spec_shutdown()
        &&& self.spec_running() == other.spec_running()
        &&& self.spec_reserved() == other.spec_reserved()
        &&& self.spec_order() == other.spec_order()
        &&& self.spec_pending() == other.spec_pending()
        &&& self.spec_paused() == other.spec_paused()
        &&& self.spec_actions() == other.spec_actions()
        &&& self.spec_retries() == other.spec_retries()
    }

    /// A scheduler that runs at most `max_concurrent` tasks (at least one).
    pub fn new(max_concurrent: usize) -> (r: Self)
        ensures
            r.wf(),
            r.spec_max_concurrent() == (if max_concurrent < 1 {
                1
            } else {
                max_concurrent
            }),
            !r.spec_shutdown(),
            r.spec_running().is_empty(),
            r.spec_reserved().is_empty(),
            r.spec_order().len() == 0,
            r.spec_pending().is_empty(),
            r.spec_paused().is_empty(),
            r.spec_actions().len() == 0,
            r.spec_retries().is_empty(),
    {
        let m = if max_concurrent < 1 {
            1
        } else {
            max_concurrent
        };
        SchedulerCore {
            max_concurrent: m,
            shutdown_in_progress: false,
            running: HashSet::new(),
            retry_reserved: HashSet::new(),
            pending_order: Vec::new(),
            pending_jobs: HashMap::new(),
            paused_jobs: HashMap::new(),
            user_actions: Vec::new(),
            retry_counts: HashMap::new(),
        }
    }

    /// Changes the limit of running tasks (at least one).
    pub fn set_max_concurrent(&mut self, max_concurrent: usize)
        ensures
            old(self).wf() ==> final(self).wf(),
            final(self).spec_max_concurrent() == (if max_concurrent < 1 {
                1
            } else {
                max_concurrent
            }),
            final(self).spec_shutdown() == old(self).spec_shutdown(),
            final(self).spec_running() == old(self).spec_running(),
            final(self).spec_reserved() == old(self).spec_reserved(),
            final(self).spec_order() == old(self).spec_order(),
            final(self).spec_pending() == old(self).spec_pending(),
            final(self).spec_paused() == old(self).spec_paused(),
            final(self).spec_actions() == old(self).spec_actions(),
            final(self).spec_retries() == old(self).spec_retries(),
    {
        self.max_concurrent = if max_concurrent < 1 {
            1
        } else {
            max_concurrent
        };
    }

    /// Whether a task runs or holds a slot for its retry.
    pub fn has_running_tasks(&self) -> (r: bool)
        ensures
            r == (!self.spec_running().is_empty() || !self.spec_reserved().is_empty()),
    {
        !self.running.is_empty() || !self.retry_reserved.is_empty()
    }

    /// The slots taken: running tasks and reserved retries (saturating).
    pub fn active_slot_count(&self) -> (r: usize)
        ensures
            r == (if self.spec_running().len() + self.spec_reserved().len() <= usize::MAX {
                (self.spec_running().len() + self.spec_reserved().len()) as usize
            } else {
                usize::MAX
            }),
    {
        self.running.len().saturating_add(self.retry_reserved.len())
    }

    /// Whether the task runs.
    pub fn is_running(&self, task_id: u64) -> (r: bool)
        ensures
            r == self.spec_running().contains(task_id),
    {
        self.running.contains(&task_id)
    }

    /// Stops admitting tasks; tells how many run.
    pub fn begin_shutdown(&mut self) -> (r: usize)
        ensures
            old(self).wf() ==> final(self).wf(),
            final(self).spec_shutdown(),
            r == old(self).spec_running().len(),
            final(self).spec_max_concurrent() == old(self).spec_max_concurrent(),
            final(self).spec_running() == old(self).spec_running(),
            final(self).spec_reserved() == old(self).spec_reserved(),
            final(self).spec_order() == old(self).spec_order(),
            final(self).spec_pending() == old(self).spec_pending(),
            final(self).spec_paused() == old(self).spec_paused(),
            final(self).spec_actions() == old(self).spec_actions(),
            final(self).spec_retries() == old(self).spec_retries(),
    {
        self.shutdown_in_progress = true;
        self.running.len()
    }

    /// Whether shutdown has begun.
    pub fn shutdown_in_progress(&self) -> (r: bool)
        ensures
            r == self.spec_shutdown(),
    {
        self.shutdown_in_progress
    }

    /// Forgets the retries of a task and frees its reserved slot.
    pub fn clear_retry_state(&mut self, task_id: u64)
        ensures
            old(self).wf() ==> final(self).wf(),
            final(self).spec_retries() == old(self).spec_retries().remove(task_id),
            final(self).spec_reserved() == old(self).spec_reserved().remove(task_id),
            final(self).spec_max_concurrent() == old(self).spec_max_concurrent(),
            final(self).spec_shutdown() == old(self).spec_shutdown(),
            final(self).spec_running() == old(self).spec_running(),
            final(self).spec_order() == old(self).spec_order(),
            final(self).spec_pending() == old(self).spec_pending(),
            final(self).spec_paused() == old(self).spec_paused(),
            final(self).spec_actions() == old(self).spec_actions(),
    {
        self.retry_counts.remove(&task_id);
        self.retry_reserved.remove(&task_id);
    }

    /// Counts one more retry of `kind` for the task (saturating) and gives
    /// the new count.
    pub fn bump_retry(&mut self, task_id: u64, kind: RetryKind) -> (r: u8)
        ensures
            old(self).wf() ==> final(self).wf(),
            final(self).spec_retries() == old(self).spec_retries().insert(
                task_id,
                bump_counters(counters_in(old(self).spec_retries(), task_id), kind),
            ),
            r == count_of(bump_counters(counters_in(old(self).spec_retries(), task_id), kind), kind),
            final(self).spec_max_concurrent() == old(self).spec_max_concurrent(),
            final(self).spec_shutdown() == old(self).spec_shutdown(),
            final(self).spec_running() == old(self).spec_running(),
            final(self).spec_reserved() == old(self).spec_reserved(),
            final(self).spec_order() == old(self).spec_order(),
            final(self).spec_pending() == old(self).spec_pending(),
            final(self).spec_paused() == old(self).spec_paused(),
            final(self).spec_actions() == old(self).spec_actions(),
    {
        let mut c = match self.retry_counts.get(&task_id) {
            Some(c) => *c,
            None => RetryCounters::zero(),
        };
        let count = match kind {
            RetryKind::UnexpectedEof => {
                c.unexpected_eof = c.unexpected_eof.saturating_add(1);
                c.unexpected_eof
            },
            RetryKind::FileNotFound => {
                c.file_not_found = c.file_not_found.saturating_add(1);
                c.file_not_found
            },
            RetryKind::Network => {
                c.network = c.network.saturating_add(1);
                c.network
            },
            RetryKind::InvalidRange => {
                c.invalid_range = c.invalid_range.saturating_add(1);
                c.invalid_range
            },
        };
        self.retry_counts.insert(task_id, c);
        count
    }

    /// Numbers a new retry of the task (saturating); with `reserve_slot` the
    /// task also holds a slot until the retry starts.
    pub fn begin_retry(&mut self, task_id: u64, reserve_slot: bool) -> (r: u64)
        ensures
            old(self).wf() ==> final(self).wf(),
            r == inc64(counters_in(old(self).spec_retries(), task_id).generation),
            final(self).spec_retries() == old(self).spec_retries().insert(
                task_id,
                RetryCounters { generation: r, ..counters_in(old(self).spec_retries(), task_id) },
            ),
            final(self).spec_reserved() == (if reserve_slot {
                old(self).spec_reserved().insert(task_id)
            } else {
                old(self).spec_reserved()
            }),
            final(self).spec_max_concurrent() == old(self).spec_max_concurrent(),
            final(self).spec_shutdown() == old(self).spec_shutdown(),
            final(self).spec_running() == old(self).spec_running(),
            final(self).spec_order() == old(self).spec_order(),
            final(self).spec_pending() == old(self).spec_pending(),
            final(self).spec_paused() == old(self).spec_paused(),
            final(self).spec_actions() == old(self).spec_actions(),
    {
        let mut c = match self.retry_counts.get(&task_id) {
            Some(c) => *c,
            None => RetryCounters::zero(),
        };
        c.generation = c.generation.saturating_add(1);
        let g = c.generation;
        self.retry_counts.insert(task_id, c);
        if reserve_slot {
            self.retry_reserved.insert(task_id);
        }
        g
    }

    /// Whether the retry numbered `generation` is still the task's latest.
    pub fn retry_is_current(&self, task_id: u64, generation: u64) -> (r: bool)
        ensures
            r == (self.spec_retries().contains_key(task_id) && self.spec_retries()[task_id].generation
                == generation),
    {
        match self.retry_counts.get(&task_id) {
            Some(c) => c.generation == generation,
            None => false,
        }
    }

    /// Frees the slot a retry held.
    pub fn release_reserved(&mut self, task_id: u64)
        ensures
            old(self).wf() ==> final(self).wf(),
            final(self).spec_reserved() == old(self).spec_reserved().remove(task_id),
            final(self).spec_max_concurrent() == old(self).spec_max_concurrent(),
            final(self).spec_shutdown() == old(self).spec_shutdown(),
            final(self).spec_running() == old(self).spec_running(),
            final(self).spec_order() == old(self).spec_order(),
            final(self).spec_pending() == old(self).spec_pending(),
            final(self).spec_paused() == old(self).spec_paused(),
            final(self).spec_actions() == old(self).spec_actions(),
            final(self).spec_retries() == old(self).spec_retries(),
    {
        self.retry_reserved.remove(&task_id);
    }

    /// What a failed task gets, from the failure status stored for its
    /// download (if any): the count of that kind is raised, and within its
    /// limit a retry is numbered (and, for network failures, given a slot).
    pub fn plan_failure(
        &mut self,
        task_id: u64,
        stored_status: Option<u16>,
        progress: u8,
        status_text: &str,
    ) -> (r: FailurePlan)
        ensures
            old(self).wf() ==> final(self).wf(),
            final(self).spec_max_concurrent() == old(self).spec_max_concurrent(),
            final(self).spec_shutdown() == old(self).spec_shutdown(),
            final(self).spec_running() == old(self).spec_running(),
            final(self).spec_order() == old(self).spec_order(),
            final(self).spec_pending() == old(self).spec_pending(),
            final(self).spec_paused() == old(self).spec_paused(),
            final(self).spec_actions() == old(self).spec_actions(),
            ({
                let kind = match stored_status {
                    Some(s) => retry_kind_of(s),
                    None => None,
                };
                match kind {
                    None => r is NotRetried && final(self).spec_retries() == old(self).spec_retries()
                        && final(self).spec_reserved() == old(self).spec_reserved(),
                    Some(k) => {
                        let c = bump_counters(counters_in(old(self).spec_retries(), task_id), k);
                        let attempt = count_of(c, k);
                        if attempt <= retry_limit(k) {
                            let g = inc64(c.generation);
                            &&& final(self).spec_retries() == old(self).spec_retries().insert(
                                task_id,
                                RetryCounters { generation: g, ..c },
                            )
                            &&& final(self).spec_reserved() == (if k == RetryKind::Network {
                                old(self).spec_reserved().insert(task_id)
                            } else {
                                old(self).spec_reserved()
                            })
                            &&& r matches FailurePlan::Retry {
                                reset_downloaded_bytes,
                                delete_temp_file,
                                reserve_slot,
                                progress: p,
                                message,
                                generation,
                            }
                            &&& reset_downloaded_bytes == (k != RetryKind::Network)
                            &&& delete_temp_file == (k != RetryKind::Network)
                            &&& reserve_slot == (k == RetryKind::Network)
                            &&& p == (if k == RetryKind::Network {
                                progress
                            } else {
                                0
                            })
                            &&& generation == g
                            &&& message@ == (match k {
                                RetryKind::UnexpectedEof => eof_retry_text(),
                                RetryKind::FileNotFound => missing_retry_text(),
                                RetryKind::Network => network_retry_text(attempt),
                                RetryKind::InvalidRange => range_retry_text(),
                            })
                        } else {
                            &&& final(self).spec_retries() == old(self).spec_retries().insert(
                                task_id,
                                c,
                            )
                            &&& final(self).spec_reserved() == old(self).spec_reserved()
                            &&& k != RetryKind::Network ==> r is NotRetried
                            &&& k == RetryKind::Network ==> (r matches FailurePlan::NetworkExhausted {
                                status_code,
                                final_message,
                                debug_detail,
                            } && status_code == DOWNLOAD_STATUS_FAILED_NETWORK_ENVIRONMENT && final_message@ == network_exhausted_text() && debug_detail@ == (if status_text@.len() == 0 {
                                network_exhausted_text()
                            } else {
                                network_exhausted_text() + "："@ + status_text@
                            }))
                        }
                    },
                }
            }),
    {
        let status = match stored_status {
            Some(s) => s,
            None => {
                return FailurePlan::NotRetried;
            },
        };
        let kind = if status == DOWNLOAD_STATUS_FAILED_UNEXPECTED_EOF {
            RetryKind::UnexpectedEof
        } else if status == DOWNLOAD_STATUS_FAILED_FILE_NOT_FOUND {
            RetryKind::FileNotFound
        } else if status == DOWNLOAD_STATUS_FAILED_NETWORK {
            RetryKind::Network
        } else if status == DOWNLOAD_STATUS_FAILED_INVALID_RANGE {
            RetryKind::InvalidRange
        } else {
            return FailurePlan::NotRetried;
        };
        let attempt = self.bump_retry(task_id, kind);
        let limit: u8 = match kind {
            RetryKind::Network => 3,
            _ => 1,
        };
        if attempt <= limit {
            let is_network = match kind {
                RetryKind::Network => true,
                _ => false,
            };
            let message = match kind {
                RetryKind::UnexpectedEof => "检测到文件不完整，正在重新下载".to_owned(),
                RetryKind::FileNotFound => "文件不存在，正在重新下载".to_owned(),
                RetryKind::Network => {
                    let mut m = "网络异常，重新连接 ".to_owned();
                    push_decimal(&mut m, attempt as u64);
                    push_str(&mut m, "/3");
                    m
                },
                RetryKind::InvalidRange => "检测到续传范围异常，正在重新下载".to_owned(),
            };
            let generation = self.begin_retry(task_id, is_network);
            FailurePlan::Retry {
                reset_downloaded_bytes: !is_network,
                delete_temp_file: !is_network,
                reserve_slot: is_network,
                progress: if is_network {
                    progress
                } else {
                    0
                },
                message,
                generation,
            }
        } else {
            match kind {
                RetryKind::Network => {
                    let final_message = "网络环境异常，已重试 3 次".to_owned();
                    let debug_detail = if status_text.is_empty() {
                        "网络环境异常，已重试 3 次".to_owned()
                    } else {
                        let mut d = "网络环境异常，已重试 3 次".to_owned();
                        push_str(&mut d, "：");
                        push_str(&mut d, status_text);
                        d
                    };
                    FailurePlan::NetworkExhausted {
                        status_code: DOWNLOAD_STATUS_FAILED_NETWORK_ENVIRONMENT,
                        final_message,
                        debug_detail,
                    }
                },
                _ => FailurePlan::NotRetried,
            }
        }
    }

    /// Puts a request in the waiting list, ahead of all others when
    /// `prioritize`, at the end otherwise; it is no longer paused.
    pub fn enqueue(&mut self, request: DownloadTaskRequest, prioritize: bool)
        ensures
            old(self).wf() ==> final(self).wf(),
            enqueued(*old(self), *final(self), request, prioritize),
    {
        let id = request.task_id();
        self.paused_jobs.remove(&id);
        self.pending_jobs.insert(id, request);
        let mut order = without_id(&self.pending_order, id);
        if prioritize {
            order.insert(0, id);
            assert(order@ =~= seq![id] + drop_id(old(self).spec_order(), id));
        } else {
            order.push(id);
        }
        self.pending_order = order;
    }

    /// The next waiting task to start, if a slot is free and shutdown has not
    /// begun: ids at the front of the list without a waiting job are dropped,
    /// and the first one with a job is taken out and counted as running.
    pub fn next_admission(&mut self) -> (r: Option<DownloadTaskRequest>)
        ensures
            old(self).wf() ==> final(self).wf(),
            admitted(*old(self), *final(self), r),
    {
        if self.shutdown_in_progress {
            return None;
        }
        let ghost order = old(self).spec_order();
        let ghost pending = old(self).spec_pending();
        let slots = self.active_slot_count();
        if slots >= self.max_concurrent {
            return None;
        }
        let mut i: usize = 0;
        while i < self.pending_order.len() && !self.pending_jobs.contains_key(&self.pending_order[i])
            invariant
                0 <= i <= order.len(),
                self.pending_order@ == order,
                self.pending_jobs@ == pending,
                forall|j: int| 0 <= j < i ==> !pending.contains_key(#[trigger] order[j]),
            decreases self.pending_order.len() - i,
        {
            i += 1;
        }
        if i == self.pending_order.len() {
            self.pending_order = Vec::new();
            proof {
                assert forall|k: int| !first_ready(order, pending, k) by {}
            }
            return None;
        }
        let id = self.pending_order[i];
        let job = match self.pending_jobs.remove(&id) {
            Some(j) => j,
            None => {
                return None;
            },
        };
        self.running.insert(id);
        let mut rest: Vec<u64> = Vec::new();
        let mut j: usize = i + 1;
        while j < self.pending_order.len()
            invariant
                i + 1 <= j <= order.len(),
                self.pending_order@ == order,
                rest@ =~= order.subrange(i + 1, j as int),
            decreases self.pending_order.len() - j,
        {
            rest.push(self.pending_order[j]);
            j += 1;
        }
        self.pending_order = rest;
        proof {
            assert(first_ready(order, pending, i as int));
            assert(order.skip(i + 1) =~= order.subrange(i + 1, order.len() as int));
        }
        Some(job)
    }

    /// Starts waiting tasks while slots are free, in the order they wait:
    /// the admission loop of a scheduler run. Gives the requests to start;
    /// each one now counts as running. It stops when shutdown has begun, the
    /// slots are full, or no waiting id is left; running tasks and reserved
    /// retries never come to exceed the limit.
    pub fn drive(&mut self) -> (r: Vec<DownloadTaskRequest>)
        ensures
            old(self).wf() ==> final(self).wf(),
            r@ == run_of(*old(self)).0,
            final(self).spec_order() == run_of(*old(self)).1,
            final(self).spec_pending() == run_of(*old(self)).2,
            final(self).spec_running() == run_of(*old(self)).3,
            final(self).spec_max_concurrent() == old(self).spec_max_concurrent(),
            final(self).spec_shutdown() == old(self).spec_shutdown(),
            final(self).spec_reserved() == old(self).spec_reserved(),
            final(self).spec_paused() == old(self).spec_paused(),
            final(self).spec_actions() == old(self).spec_actions(),
            final(self).spec_retries() == old(self).spec_retries(),
            old(self).spec_shutdown() ==> r@.len() == 0 && final(self).same_views(*old(self)),
            blocked(*final(self)) || final(self).spec_order().len() == 0,
            old(self).wf() && (r@.len() > 0 || old(self).spec_running().len()
                + old(self).spec_reserved().len() <= old(self).spec_max_concurrent())
                ==> final(self).spec_running().len() + final(self).spec_reserved().len()
                <= final(self).spec_max_concurrent(),
    {
        let mut out: Vec<DownloadTaskRequest> = Vec::new();
        loop
            invariant
                old(self).wf() ==> self.wf(),
                run_of(*old(self)) == (out@ + run_of(*self).0, run_of(*self).1, run_of(*self).2, run_of(*self).3),
                self.spec_max_concurrent() == old(self).spec_max_concurrent(),
                self.spec_shutdown() == old(self).spec_shutdown(),
                self.spec_reserved() == old(self).spec_reserved(),
                self.spec_paused() == old(self).spec_paused(),
                self.spec_actions() == old(self).spec_actions(),
                self.spec_retries() == old(self).spec_retries(),
                old(self).spec_shutdown() ==> out@.len() == 0 && self.same_views(*old(self)),
                old(self).wf() && (out@.len() > 0 || old(self).spec_running().len()
                    + old(self).spec_reserved().len() <= old(self).spec_max_concurrent())
                    ==> self.spec_running().len() + self.spec_reserved().len()
                    <= self.spec_max_concurrent(),
            ensures
                run_of(*old(self)) == (out@, self.spec_order(), self.spec_pending(), self.spec_running()),
                blocked(*self) || self.spec_order().len() == 0,
                old(self).wf() ==> self.wf(),
                self.spec_max_concurrent() == old(self).spec_max_concurrent(),
                self.spec_shutdown() == old(self).spec_shutdown(),
                self.spec_reserved() == old(self).spec_reserved(),
                self.spec_paused() == old(self).spec_paused(),
                self.spec_actions() == old(self).spec_actions(),
                self.spec_retries() == old(self).spec_retries(),
                old(self).spec_shutdown() ==> out@.len() == 0 && self.same_views(*old(self)),
                old(self).wf() && (out@.len() > 0 || old(self).spec_running().len()
                    + old(self).spec_reserved().len() <= old(self).spec_max_concurrent())
                    ==> self.spec_running().len() + self.spec_reserved().len()
                    <= self.spec_max_concurrent(),
            decreases self.spec_order().len(),
        {
            let ghost before = *self;
            let next = self.next_admission();
            proof {
                lemma_admission_starts_run(before, *self, next);
            }
            match next {
                Some(request) => {
                    proof {
                        if before.wf() {
                            lemma_admission_within_limit(before, *self, next);
                        }
                        assert(out@.push(request) + run_of(*self).0 =~= out@ + (seq![request]
                            + run_of(*self).0));
                    }
                    out.push(request);
                },
                None => {
                    proof {
                        assert(out@ + Seq::<DownloadTaskRequest>::empty() =~= out@);
                    }
                    break;
                },
            }
        }
        out
    }

    /// A running task's execution ended.
    pub fn finish_task(&mut self, task_id: u64)
        ensures
            old(self).wf() ==> final(self).wf(),
            final(self).spec_running() == old(self).spec_running().remove(task_id),
            final(self).spec_max_concurrent() == old(self).spec_max_concurrent(),
            final(self).spec_shutdown() == old(self).spec_shutdown(),
            final(self).spec_reserved() == old(self).spec_reserved(),
            final(self).spec_order() == old(self).spec_order(),
            final(self).spec_pending() == old(self).spec_pending(),
            final(self).spec_paused() == old(self).spec_paused(),
            final(self).spec_actions() == old(self).spec_actions(),
            final(self).spec_retries() == old(self).spec_retries(),
    {
        self.running.remove(&task_id);
    }

    /// Records a user's request for the scheduler's next run.
    pub fn push_action(&mut self, action: UserTaskAction)
        ensures
            old(self).wf() ==> final(self).wf(),
            final(self).spec_actions() == old(self).spec_actions().push(action),
            final(self).spec_max_concurrent() == old(self).spec_max_concurrent(),
            final(self).spec_shutdown() == old(self).spec_shutdown(),
            final(self).spec_running() == old(self).spec_running(),
            final(self).spec_reserved() == old(self).spec_reserved(),
            final(self).spec_order() == old(self).spec_order(),
            final(self).spec_pending() == old(self).spec_pending(),
            final(self).spec_paused() == old(self).spec_paused(),
            final(self).spec_retries() == old(self).spec_retries(),
    {
        self.user_actions.push(action);
    }

    /// The oldest user request not handled yet.
    pub fn pop_action(&mut self) -> (r: Option<UserTaskAction>)
        ensures
            old(self).wf() ==> final(self).wf(),
            old(self).spec_actions().len() == 0 ==> r is None && final(self).spec_actions()
                == old(self).spec_actions(),
            old(self).spec_actions().len() > 0 ==> r == Some(old(self).spec_actions()[0])
                && final(self).spec_actions() == old(self).spec_actions().drop_first(),
            final(self).spec_max_concurrent() == old(self).spec_max_concurrent(),
            final(self).spec_shutdown() == old(self).spec_shutdown(),
            final(self).spec_running() == old(self).spec_running(),
            final(self).spec_reserved() == old(self).spec_reserved(),
            final(self).spec_order() == old(self).spec_order(),
            final(self).spec_pending() == old(self).spec_pending(),
            final(self).spec_paused() == old(self).spec_paused(),
            final(self).spec_retries() == old(self).spec_retries(),
    {
        if self.user_actions.len() == 0 {
            return None;
        }
        let a = self.user_actions.remove(0);
        assert(self.user_actions@ =~= old(self).spec_actions().drop_first());
        Some(a)
    }

    /// A user asked to start a paused task: its job waits again (at the end
    /// of the list unless already in it); gives the report to show.
    pub fn start_action(&mut self, task_id: u64) -> (r: Option<DownloadTaskUpdate>)
        ensures
            old(self).wf() ==> final(self).wf(),
            final(self).spec_max_concurrent() == old(self).spec_max_concurrent(),
            final(self).spec_shutdown() == old(self).spec_shutdown(),
            final(self).spec_running() == old(self).spec_running(),
            final(self).spec_reserved() == old(self).spec_reserved(),
            final(self).spec_actions() == old(self).spec_actions(),
            final(self).spec_retries() == old(self).spec_retries(),
            started(*old(self), *final(self), task_id, r),
    {
        if self.running.contains(&task_id) {
            return None;
        }
        let job = match self.paused_jobs.remove(&task_id) {
            Some(j) => j,
            None => {
                assert(self.paused_jobs@ =~= old(self).spec_paused());
                return None;
            },
        };
        let update = job.queued_update();
        self.pending_jobs.insert(task_id, job);
        if !holds_id(&self.pending_order, task_id) {
            self.pending_order.push(task_id);
        }
        Some(update)
    }

    /// A user asked to pause a task: a running one is asked to stop; a
    /// waiting one becomes paused at once.
    pub fn pause_action(&mut self, task_id: u64) -> (r: PauseOutcome)
        ensures
            old(self).wf() ==> final(self).wf(),
            final(self).spec_max_concurrent() == old(self).spec_max_concurrent(),
            final(self).spec_shutdown() == old(self).spec_shutdown(),
            final(self).spec_running() == old(self).spec_running(),
            final(self).spec_reserved() == old(self).spec_reserved(),
            final(self).spec_actions() == old(self).spec_actions(),
            final(self).spec_retries() == old(self).spec_retries(),
            old(self).spec_running().contains(task_id) ==> r is PauseRunning && *final(self)
                == *old(self),
            !old(self).spec_running().contains(task_id) && !old(self).spec_pending().contains_key(
                task_id,
            ) ==> r is Ignored && final(self).same_views(*old(self)),
            !old(self).spec_running().contains(task_id) && old(self).spec_pending().contains_key(
                task_id,
            ) ==> {
                let job = old(self).spec_pending()[task_id];
                &&& r matches PauseOutcome::Paused { mod_id, folder_name, update }
                &&& mod_id == (match job {
                    DownloadTaskRequest::Fresh(t) => t.card.id,
                    DownloadTaskRequest::Resume(t) => t.mod_id,
                })
                &&& folder_name@ == (match job {
                    DownloadTaskRequest::Fresh(t) => t.folder_name@,
                    DownloadTaskRequest::Resume(t) => t.folder_name@,
                })
                &&& update.phase == DownloadTaskPhase::Paused && update.progress == 0
                    && update.status_code == DownloadTaskStatusCode::Paused && update.status_text@
                    == "已暂停"@ && update.image_path is None
                &&& final(self).spec_pending() == old(self).spec_pending().remove(task_id)
                &&& final(self).spec_paused() == old(self).spec_paused().insert(task_id, job)
                &&& final(self).spec_order() == drop_id(old(self).spec_order(), task_id)
            },
    {
        if self.running.contains(&task_id) {
            return PauseOutcome::PauseRunning;
        }
        let job = match self.pending_jobs.remove(&task_id) {
            Some(j) => j,
            None => {
                assert(self.pending_jobs@ =~= old(self).spec_pending());
                return PauseOutcome::Ignored;
            },
        };
        let update = job.paused_update(0);
        let mod_id = job.mod_id();
        let folder_name = job.folder_name().to_owned();
        self.pending_order = without_id(&self.pending_order, task_id);
        self.paused_jobs.insert(task_id, job);
        PauseOutcome::Paused { mod_id, folder_name, update }
    }

    /// A user asked to remove a task. `row_phase` is the phase of its row in
    /// the download list, if it has one.
    pub fn remove_action(&mut self, task_id: u64, row_phase: Option<DownloadTaskPhase>) -> (r:
        RemoveOutcome)
        ensures
            old(self).wf() ==> final(self).wf(),
            final(self).spec_max_concurrent() == old(self).spec_max_concurrent(),
            final(self).spec_shutdown() == old(self).spec_shutdown(),
            final(self).spec_running() == old(self).spec_running(),
            final(self).spec_actions() == old(self).spec_actions(),
            old(self).spec_running().contains(task_id) ==> {
                &&& r is StopRunning
                &&& final(self).spec_retries() == old(self).spec_retries().remove(task_id)
                &&& final(self).spec_reserved() == old(self).spec_reserved().remove(task_id)
                &&& final(self).spec_order() == old(self).spec_order()
                &&& final(self).spec_pending() == old(self).spec_pending()
                &&& final(self).spec_paused() == old(self).spec_paused()
            },
            !old(self).spec_running().contains(task_id) && (old(self).spec_pending().contains_key(
                task_id,
            ) || old(self).spec_paused().contains_key(task_id)) ==> {
                &&& r matches RemoveOutcome::Dropped(job)
                &&& job == (if old(self).spec_pending().contains_key(task_id) {
                    old(self).spec_pending()[task_id]
                } else {
                    old(self).spec_paused()[task_id]
                })
                &&& final(self).spec_pending() == old(self).spec_pending().remove(task_id)
                &&& final(self).spec_paused() == (if old(self).spec_pending().contains_key(task_id) {
                    old(self).spec_paused()
                } else {
                    old(self).spec_paused().remove(task_id)
                })
                &&& final(self).spec_order() == drop_id(old(self).spec_order(), task_id)
                &&& final(self).spec_retries() == old(self).spec_retries().remove(task_id)
                &&& final(self).spec_reserved() == old(self).spec_reserved().remove(task_id)
            },
            !old(self).spec_running().contains(task_id) && !old(self).spec_pending().contains_key(
                task_id,
            ) && !old(self).spec_paused().contains_key(task_id) ==> {
                let ended = row_phase == Some(DownloadTaskPhase::Failed) || row_phase == Some(
                    DownloadTaskPhase::Completed,
                );
                &&& ended ==> r is ClearEnded && final(self).spec_retries() == old(
                    self,
                ).spec_retries().remove(task_id) && final(self).spec_reserved() == old(
                    self,
                ).spec_reserved().remove(task_id)
                &&& !ended ==> r is Ignored && final(self).spec_retries() == old(self).spec_retries()
                    && final(self).spec_reserved() == old(self).spec_reserved()
                &&& final(self).spec_order() == old(self).spec_order()
                &&& final(self).spec_pending() == old(self).spec_pending()
                &&& final(self).spec_paused() == old(self).spec_paused()
            },
    {
        if self.running.contains(&task_id) {
            self.clear_retry_state(task_id);
            return RemoveOutcome::StopRunning;
        }
        let job = match self.pending_jobs.remove(&task_id) {
            Some(j) => Some(j),
            None => self.paused_jobs.remove(&task_id),
        };
        match job {
            Some(j) => {
                self.pending_order = without_id(&self.pending_order, task_id);
                self.clear_retry_state(task_id);
                RemoveOutcome::Dropped(j)
            },
            None => {
                let ended = match row_phase {
                    Some(DownloadTaskPhase::Failed) | Some(DownloadTaskPhase::Completed) => true,
                    _ => false,
                };
                if ended {
                    self.clear_retry_state(task_id);
                    RemoveOutcome::ClearEnded
                } else {
                    RemoveOutcome::Ignored
                }
            },
        }
    }

    /// Keeps a request as paused: it no longer waits.
    pub fn store_paused(&mut self, request: DownloadTaskRequest)
        ensures
            old(self).wf() ==> final(self).wf(),
            stored_paused(*old(self), *final(self), request),
    {
        let id = request.task_id();
        self.pending_jobs.remove(&id);
        self.pending_order = without_id(&self.pending_order, id);
        self.paused_jobs.insert(id, request);
    }
}

} // verus!
