//! One download task's states, controls and progress reports, and how its
//! failures are classified into status codes.

use std::collections::HashMap;

use vstd::prelude::*;

use crate::models::{
    DownloadCheckpointPhase, ModCard, ModDetail, ModFile, clone_opt_string, phase_of_code,
    DOWNLOAD_STATUS_FAILED_ACCESS_DENIED, DOWNLOAD_STATUS_FAILED_FILE_NOT_FOUND,
    DOWNLOAD_STATUS_FAILED_INSTALL, DOWNLOAD_STATUS_FAILED_INVALID_RANGE,
    DOWNLOAD_STATUS_FAILED_NETWORK, DOWNLOAD_STATUS_FAILED_PREPARE,
    DOWNLOAD_STATUS_FAILED_READ_PERMISSION, DOWNLOAD_STATUS_FAILED_REMOTE_META,
    DOWNLOAD_STATUS_FAILED_TRANSFER, DOWNLOAD_STATUS_FAILED_UNEXPECTED_EOF,
    DOWNLOAD_STATUS_FAILED_UNSUPPORTED_FORMAT, DOWNLOAD_STATUS_FAILED_WRITE_PERMISSION,
};
use crate::models::{
    LocalModDetail, PreviewImage, PreviewMedia, category_name, first_image, opt_category_name,
    opt_view, preview_urls_of, slash_join, join_with_slash,
};
use crate::text::{
    ascii_lower, contains_seq, contains_str, decimal, lower_chars, push_char, push_decimal, push_str,
    string_from_chars, trim, trimmed_chars,
};

verus! {

broadcast use vstd::std_specs::hash::group_hash_axioms;

/// Where a task stands in the download list.
#[derive(Debug, Clone, Copy, PartialEq, Eq, Structural)]
pub enum DownloadTaskPhase {
    Queued,
    Paused,
    Downloading,
    Installing,
    Completed,
    Failed,
}

/// The finer status shown for a task.
#[derive(Debug, Clone, Copy, PartialEq, Eq, Structural)]
pub enum DownloadTaskStatusCode {
    Queued,
    Paused,
    Preparing,
    Downloading,
    RetryPending,
    ReusingArchive,
    Installing,
    Completed,
    Failed,
    Removed,
}

/// What a user asked a running task to do.
#[derive(Debug, Clone, Copy, PartialEq, Eq, Structural)]
pub enum TaskControlRequest {
    Pause,
    Remove,
    Shutdown,
}

/// The number a request is stored as: pause 1, remove 2, shutdown 3.
pub open spec fn request_code_spec(r: TaskControlRequest) -> u8 {
    match r {
        TaskControlRequest::Pause => 1,
        TaskControlRequest::Remove => 2,
        TaskControlRequest::Shutdown => 3,
    }
}

/// The request a stored number stands for; 0 and other numbers stand for none.
pub open spec fn request_of_code(c: u8) -> Option<TaskControlRequest> {
    if c == 1 {
        Some(TaskControlRequest::Pause)
    } else if c == 2 {
        Some(TaskControlRequest::Remove)
    } else if c == 3 {
        Some(TaskControlRequest::Shutdown)
    } else {
        None
    }
}

impl TaskControlRequest {
    pub fn code(self) -> (r: u8)
        ensures
            r == request_code_spec(self),
    {
        match self {
            TaskControlRequest::Pause => 1,
            TaskControlRequest::Remove => 2,
            TaskControlRequest::Shutdown => 3,
        }
    }

    pub fn from_code(c: u8) -> (r: Option<Self>)
        ensures
            r == request_of_code(c),
    {
        if c == 1 {
            Some(TaskControlRequest::Pause)
        } else if c == 2 {
            Some(TaskControlRequest::Remove)
        } else if c == 3 {
            Some(TaskControlRequest::Shutdown)
        } else {
            None
        }
    }
}

/// Reading back a stored request gives the request.
pub proof fn lemma_request_code_roundtrip(r: TaskControlRequest)
    ensures
        request_of_code(request_code_spec(r)) == Some(r),
{
}

/// The control cell a task polls: the last request made, if any.
#[derive(Debug, Clone, Copy)]
pub struct TaskControlHandle {
    pub request: u8,
}

impl TaskControlHandle {
    pub fn new() -> (r: Self)
        ensures
            request_of_code(r.request) is None,
    {
        TaskControlHandle { request: 0 }
    }

    pub fn request_pause(&mut self)
        ensures
            request_of_code(final(self).request) == Some(TaskControlRequest::Pause),
    {
        self.request = TaskControlRequest::Pause.code();
    }

    pub fn request_remove(&mut self)
        ensures
            request_of_code(final(self).request) == Some(TaskControlRequest::Remove),
    {
        self.request = TaskControlRequest::Remove.code();
    }

    pub fn request_shutdown(&mut self)
        ensures
            request_of_code(final(self).request) == Some(TaskControlRequest::Shutdown),
    {
        self.request = TaskControlRequest::Shutdown.code();
    }

    pub fn requested_action(&self) -> (r: Option<TaskControlRequest>)
        ensures
            r == request_of_code(self.request),
    {
        TaskControlRequest::from_code(self.request)
    }

    /// Any request stops the task.
    pub fn should_abort(&self) -> (r: bool)
        ensures
            r == request_of_code(self.request) is Some,
    {
        self.requested_action().is_some()
    }
}

/// A progress report of a task.
#[derive(Debug, Clone)]
pub struct DownloadTaskUpdate {
    pub phase: DownloadTaskPhase,
    pub progress: u8,
    pub status_code: DownloadTaskStatusCode,
    pub status_text: String,
    pub image_path: Option<String>,
}

impl DownloadTaskUpdate {
    /// A report with the progress capped at 100 and no image.
    pub fn new(
        phase: DownloadTaskPhase,
        progress: u8,
        status_code: DownloadTaskStatusCode,
        status_text: String,
    ) -> (r: Self)
        ensures
            r.phase == phase,
            r.progress == (if progress < 100 {
                progress
            } else {
                100
            }),
            r.status_code == status_code,
            r.status_text == status_text,
            r.image_path is None,
    {
        let p = if progress < 100 {
            progress
        } else {
            100
        };
        DownloadTaskUpdate { phase, progress: p, status_code, status_text, image_path: None }
    }

    pub fn duplicate(&self) -> (r: Self)
        ensures
            r == *self,
    {
        DownloadTaskUpdate {
            phase: self.phase,
            progress: self.progress,
            status_code: self.status_code,
            status_text: self.status_text.clone(),
            image_path: clone_opt_string(&self.image_path),
        }
    }
}

/// What a task reports to the scheduler.
#[derive(Debug, Clone)]
pub enum DownloadTaskEvent {
    Update(DownloadTaskUpdate),
    Finished(DownloadTaskUpdate),
    Failed(DownloadTaskUpdate),
}

pub open spec fn event_update(e: DownloadTaskEvent) -> DownloadTaskUpdate {
    match e {
        DownloadTaskEvent::Update(u) => u,
        DownloadTaskEvent::Finished(u) => u,
        DownloadTaskEvent::Failed(u) => u,
    }
}

/// Records an event's report as the task's current status before it is sent.
pub fn send_event(status: &mut DownloadTaskUpdate, event: &DownloadTaskEvent)
    ensures
        *final(status) == event_update(*event),
{
    match event {
        DownloadTaskEvent::Update(u) | DownloadTaskEvent::Finished(u) | DownloadTaskEvent::Failed(
            u,
        ) => {
            *status = u.duplicate();
        },
    }
}

/// A download started from the catalog.
#[derive(Debug, Clone)]
pub struct FreshDownloadTask {
    pub task_id: u64,
    pub card: ModCard,
    pub detail: Option<ModDetail>,
    pub file: ModFile,
    pub folder_name: String,
}

/// A download continued from stored state.
#[derive(Debug, Clone)]
pub struct ResumeDownloadTask {
    pub task_id: u64,
    pub mod_id: u64,
    pub file_id: u64,
    pub file_name: String,
    pub folder_name: String,
    pub is_r18: bool,
}

#[derive(Debug, Clone)]
pub enum DownloadTaskRequest {
    Fresh(FreshDownloadTask),
    Resume(ResumeDownloadTask),
}

fn text_of(s: &str) -> (r: String)
    ensures
        r@ == s@,
{
    s.to_owned()
}

impl DownloadTaskRequest {
    pub fn task_id(&self) -> (r: u64)
        ensures
            r == (match self {
                DownloadTaskRequest::Fresh(t) => t.task_id,
                DownloadTaskRequest::Resume(t) => t.task_id,
            }),
    {
        match self {
            DownloadTaskRequest::Fresh(task) => task.task_id,
            DownloadTaskRequest::Resume(task) => task.task_id,
        }
    }

    pub fn mod_id(&self) -> (r: u64)
        ensures
            r == (match self {
                DownloadTaskRequest::Fresh(t) => t.card.id,
                DownloadTaskRequest::Resume(t) => t.mod_id,
            }),
    {
        match self {
            DownloadTaskRequest::Fresh(task) => task.card.id,
            DownloadTaskRequest::Resume(task) => task.mod_id,
        }
    }

    pub fn folder_name(&self) -> (r: &str)
        ensures
            r@ == (match self {
                DownloadTaskRequest::Fresh(t) => t.folder_name@,
                DownloadTaskRequest::Resume(t) => t.folder_name@,
            }),
    {
        match self {
            DownloadTaskRequest::Fresh(task) => task.folder_name.as_str(),
            DownloadTaskRequest::Resume(task) => task.folder_name.as_str(),
        }
    }

    /// The report of a task put back in the queue.
    pub fn queued_update(&self) -> (r: DownloadTaskUpdate)
        ensures
            r.phase == DownloadTaskPhase::Queued,
            r.progress == 0,
            r.status_code == DownloadTaskStatusCode::Queued,
            r.status_text@ == "等待下载"@,
            r.image_path is None,
    {
        DownloadTaskUpdate::new(
            DownloadTaskPhase::Queued,
            0,
            DownloadTaskStatusCode::Queued,
            text_of("等待下载"),
        )
    }

    /// The report of a paused task at `progress`.
    pub fn paused_update(&self, progress: u8) -> (r: DownloadTaskUpdate)
        ensures
            r.phase == DownloadTaskPhase::Paused,
            r.progress == (if progress < 100 {
                progress
            } else {
                100
            }),
            r.status_code == DownloadTaskStatusCode::Paused,
            r.status_text@ == "已暂停"@,
            r.image_path is None,
    {
        DownloadTaskUpdate::new(
            DownloadTaskPhase::Paused,
            progress,
            DownloadTaskStatusCode::Paused,
            text_of("已暂停"),
        )
    }
}

/// What the scheduler and a running task share about one execution: the
/// task's last report and its control cell.
#[derive(Debug, Clone)]
pub struct ExecutionCell {
    pub status: DownloadTaskUpdate,
    pub control: TaskControlHandle,
}

/// The shared cells of the running executions, by task id. Every handle of
/// an execution, and the task itself, reads and writes the one cell kept
/// here, so a request made through one handle is seen through all of them.
pub struct ExecutionBoard {
    cells: HashMap<u64, ExecutionCell>,
}

/// `after` is `before` with the cell of `id` holding `request` (and the
/// same report), the other cells untouched.
pub open spec fn requested(
    before: Map<u64, ExecutionCell>,
    after: Map<u64, ExecutionCell>,
    id: u64,
    request: TaskControlRequest,
) -> bool {
    &&& after.dom() == before.dom()
    &&& after[id].status == before[id].status
    &&& request_of_code(after[id].control.request) == Some(request)
    &&& forall|k: u64| k != id && before.contains_key(k) ==> after[k] == before[k]
}

impl ExecutionBoard {
    pub closed spec fn spec_cells(&self) -> Map<u64, ExecutionCell> {
        self.cells@
    }

    pub fn new() -> (r: Self)
        ensures
            r.spec_cells() == Map::<u64, ExecutionCell>::empty(),
    {
        ExecutionBoard { cells: HashMap::new() }
    }

    /// Starts the execution of task `task_id` at `status` with no request,
    /// and gives a handle on it.
    pub fn open(&mut self, task_id: u64, status: DownloadTaskUpdate) -> (h: DownloadTaskExecutionHandle)
        ensures
            h.task_id == task_id,
            final(self).spec_cells() == old(self).spec_cells().insert(
                task_id,
                ExecutionCell { status, control: final(self).spec_cells()[task_id].control },
            ),
            request_of_code(final(self).spec_cells()[task_id].control.request) is None,
            !old(self).spec_cells().contains_key(task_id) ==> keeps_requests(
                old(self).spec_cells(),
                final(self).spec_cells(),
            ),
    {
        self.cells.insert(task_id, ExecutionCell { status, control: TaskControlHandle::new() });
        DownloadTaskExecutionHandle { task_id }
    }

    /// The execution of `task_id` ended: its cell goes.
    pub fn close(&mut self, task_id: u64)
        ensures
            final(self).spec_cells() == old(self).spec_cells().remove(task_id),
            keeps_requests(old(self).spec_cells(), final(self).spec_cells()),
    {
        self.cells.remove(&task_id);
    }

    /// The task records the report of an event it sends as its current
    /// status; its request stays.
    pub fn record_status(&mut self, task_id: u64, status: DownloadTaskUpdate)
        requires
            old(self).spec_cells().contains_key(task_id),
        ensures
            final(self).spec_cells() == old(self).spec_cells().insert(
                task_id,
                ExecutionCell { status, control: old(self).spec_cells()[task_id].control },
            ),
            keeps_requests(old(self).spec_cells(), final(self).spec_cells()),
    {
        let control = match self.cells.get(&task_id) {
            Some(c) => c.control,
            None => TaskControlHandle::new(),
        };
        self.cells.insert(task_id, ExecutionCell { status, control });
    }

    /// Whether the task of `task_id` has been asked to stop: the task polls
    /// this.
    pub fn should_abort(&self, task_id: u64) -> (r: bool)
        requires
            self.spec_cells().contains_key(task_id),
        ensures
            r == request_of_code(self.spec_cells()[task_id].control.request) is Some,
    {
        match self.cells.get(&task_id) {
            Some(c) => c.control.should_abort(),
            None => false,
        }
    }

    /// The request made of the task of `task_id`, if any.
    pub fn requested_action(&self, task_id: u64) -> (r: Option<TaskControlRequest>)
        requires
            self.spec_cells().contains_key(task_id),
        ensures
            r == request_of_code(self.spec_cells()[task_id].control.request),
    {
        match self.cells.get(&task_id) {
            Some(c) => c.control.requested_action(),
            None => None,
        }
    }

    fn set_request(&mut self, task_id: u64, request: TaskControlRequest) -> (status: DownloadTaskUpdate)
        requires
            old(self).spec_cells().contains_key(task_id),
        ensures
            requested(old(self).spec_cells(), final(self).spec_cells(), task_id, request),
            status == old(self).spec_cells()[task_id].status,
    {
        let status = match self.cells.get(&task_id) {
            Some(c) => c.status.duplicate(),
            None => DownloadTaskUpdate::new(
                DownloadTaskPhase::Queued,
                0,
                DownloadTaskStatusCode::Queued,
                String::new(),
            ),
        };
        let mut control = TaskControlHandle::new();
        control.request = request.code();
        self.cells.insert(task_id, ExecutionCell { status: status.duplicate(), control });
        proof {
            assert(self.cells@.dom() =~= old(self).cells@.dom());
        }
        status
    }
}

/// A handle on one execution: the task it belongs to. Handles are copied
/// freely; all copies read and write the same cell of the board.
#[derive(Debug, Clone, Copy)]
pub struct DownloadTaskExecutionHandle {
    pub task_id: u64,
}

impl DownloadTaskExecutionHandle {
    /// The task's last report.
    pub fn current_status(&self, board: &ExecutionBoard) -> (r: DownloadTaskUpdate)
        requires
            board.spec_cells().contains_key(self.task_id),
        ensures
            r == board.spec_cells()[self.task_id].status,
    {
        match board.cells.get(&self.task_id) {
            Some(c) => c.status.duplicate(),
            None => DownloadTaskUpdate::new(
                DownloadTaskPhase::Queued,
                0,
                DownloadTaskStatusCode::Queued,
                String::new(),
            ),
        }
    }

    /// Whether a pause, removal or shutdown was asked of the task, through
    /// this handle or any other.
    pub fn has_pending_control_request(&self, board: &ExecutionBoard) -> (r: bool)
        requires
            board.spec_cells().contains_key(self.task_id),
        ensures
            r == request_of_code(board.spec_cells()[self.task_id].control.request) is Some,
    {
        board.should_abort(self.task_id)
    }

    /// Asks the task to pause; reports it as pausing at its current progress.
    pub fn pause(&self, board: &mut ExecutionBoard) -> (r: DownloadTaskUpdate)
        requires
            old(board).spec_cells().contains_key(self.task_id),
        ensures
            requested(old(board).spec_cells(), final(board).spec_cells(), self.task_id, TaskControlRequest::Pause),
            keeps_requests(old(board).spec_cells(), final(board).spec_cells()),
            r.phase == DownloadTaskPhase::Paused,
            r.progress == (if old(board).spec_cells()[self.task_id].status.progress < 100 {
                old(board).spec_cells()[self.task_id].status.progress
            } else {
                100
            }),
            r.status_code == DownloadTaskStatusCode::Paused,
            r.status_text@ == "正在暂停"@,
            r.image_path is None,
    {
        let status = board.set_request(self.task_id, TaskControlRequest::Pause);
        DownloadTaskUpdate::new(
            DownloadTaskPhase::Paused,
            status.progress,
            DownloadTaskStatusCode::Paused,
            text_of("正在暂停"),
        )
    }

    /// Asks the task to stop and delete its files.
    pub fn remove(&self, board: &mut ExecutionBoard) -> (r: DownloadTaskUpdate)
        requires
            old(board).spec_cells().contains_key(self.task_id),
        ensures
            requested(old(board).spec_cells(), final(board).spec_cells(), self.task_id, TaskControlRequest::Remove),
            keeps_requests(old(board).spec_cells(), final(board).spec_cells()),
            r.phase == DownloadTaskPhase::Paused,
            r.progress == (if old(board).spec_cells()[self.task_id].status.progress < 100 {
                old(board).spec_cells()[self.task_id].status.progress
            } else {
                100
            }),
            r.status_code == DownloadTaskStatusCode::Removed,
            r.status_text@ == "正在删除"@,
            r.image_path is None,
    {
        let status = board.set_request(self.task_id, TaskControlRequest::Remove);
        DownloadTaskUpdate::new(
            DownloadTaskPhase::Paused,
            status.progress,
            DownloadTaskStatusCode::Removed,
            text_of("正在删除"),
        )
    }

    /// Asks the task to stop for an application exit, to resume later.
    pub fn shutdown(&self, board: &mut ExecutionBoard) -> (r: DownloadTaskUpdate)
        requires
            old(board).spec_cells().contains_key(self.task_id),
        ensures
            requested(old(board).spec_cells(), final(board).spec_cells(), self.task_id, TaskControlRequest::Shutdown),
            keeps_requests(old(board).spec_cells(), final(board).spec_cells()),
            r.phase == DownloadTaskPhase::Queued,
            r.progress == (if old(board).spec_cells()[self.task_id].status.progress < 100 {
                old(board).spec_cells()[self.task_id].status.progress
            } else {
                100
            }),
            r.status_code == DownloadTaskStatusCode::Queued,
            r.status_text@ == "等待续传"@,
            r.image_path is None,
    {
        let status = board.set_request(self.task_id, TaskControlRequest::Shutdown);
        DownloadTaskUpdate::new(
            DownloadTaskPhase::Queued,
            status.progress,
            DownloadTaskStatusCode::Queued,
            text_of("等待续传"),
        )
    }
}

/// A pause, removal or shutdown has been asked of the execution of `id`.
pub open spec fn pending_in(cells: Map<u64, ExecutionCell>, id: u64) -> bool {
    cells.contains_key(id) && request_of_code(cells[id].control.request) is Some
}

/// Every execution asked to stop before is still asked to, if it is still
/// on the board.
pub open spec fn keeps_requests(before: Map<u64, ExecutionCell>, after: Map<u64, ExecutionCell>) -> bool {
    forall|k: u64| #[trigger] pending_in(before, k) && after.contains_key(k) ==> pending_in(after, k)
}

/// Once a request is made of an execution it stays pending for as long as
/// the execution runs: through any number of board steps that each keep
/// requests (all of them do, but opening a new execution under a running
/// task's id), it is never cleared.
pub proof fn lemma_request_stays_pending(boards: Seq<Map<u64, ExecutionCell>>, id: u64, k: int)
    requires
        0 <= k < boards.len(),
        pending_in(boards[k], id),
        forall|i: int| 0 <= i < boards.len() - 1 ==> keeps_requests(#[trigger] boards[i], boards[i + 1]),
        forall|i: int| 0 <= i < boards.len() ==> (#[trigger] boards[i]).contains_key(id),
    ensures
        forall|j: int| k <= j < boards.len() ==> pending_in(#[trigger] boards[j], id),
    decreases boards.len() - k,
{
    if k + 1 < boards.len() {
        assert(keeps_requests(boards[k], boards[k + 1]));
        assert(boards[k + 1].contains_key(id));
        lemma_request_stays_pending(boards, id, k + 1);
    }
}

/// A request made through one handle is seen through every handle of the
/// same task, and by the task: they all read the one cell of the board.
/// Requests on other tasks leave it as it was.
pub proof fn lemma_request_seen_by_every_handle(
    before: Map<u64, ExecutionCell>,
    after: Map<u64, ExecutionCell>,
    h: DownloadTaskExecutionHandle,
    other: DownloadTaskExecutionHandle,
    request: TaskControlRequest,
)
    requires
        before.contains_key(h.task_id),
        before.contains_key(other.task_id),
        requested(before, after, h.task_id, request),
    ensures
        other.task_id == h.task_id ==> request_of_code(after[other.task_id].control.request) == Some(request),
        other.task_id != h.task_id ==> after[other.task_id] == before[other.task_id],
{
}

/// The phase a task stopped on request ends in: queued on shutdown, else paused.
pub fn controlled_stop_phase(request: Option<TaskControlRequest>) -> (r: DownloadTaskPhase)
    ensures
        r == (if request == Some(TaskControlRequest::Shutdown) {
            DownloadTaskPhase::Queued
        } else {
            DownloadTaskPhase::Paused
        }),
{
    match request {
        Some(TaskControlRequest::Shutdown) => DownloadTaskPhase::Queued,
        _ => DownloadTaskPhase::Paused,
    }
}

/// The status a task stopped on request reports.
pub fn controlled_stop_status_code(request: Option<TaskControlRequest>) -> (r:
    DownloadTaskStatusCode)
    ensures
        r == (match request {
            Some(TaskControlRequest::Remove) => DownloadTaskStatusCode::Removed,
            Some(TaskControlRequest::Shutdown) => DownloadTaskStatusCode::Queued,
            _ => DownloadTaskStatusCode::Paused,
        }),
{
    match request {
        Some(TaskControlRequest::Remove) => DownloadTaskStatusCode::Removed,
        Some(TaskControlRequest::Shutdown) => DownloadTaskStatusCode::Queued,
        _ => DownloadTaskStatusCode::Paused,
    }
}

/// The text a task stopped on request reports.
pub fn controlled_stop_message(request: Option<TaskControlRequest>) -> (r: String)
    ensures
        r@ == (match request {
            Some(TaskControlRequest::Remove) => "已移除"@,
            Some(TaskControlRequest::Pause) => "已暂停"@,
            Some(TaskControlRequest::Shutdown) => "等待续传"@,
            None => "已停止"@,
        }),
{
    match request {
        Some(TaskControlRequest::Remove) => text_of("已移除"),
        Some(TaskControlRequest::Pause) => text_of("已暂停"),
        Some(TaskControlRequest::Shutdown) => text_of("等待续传"),
        None => text_of("已停止"),
    }
}

/// An archive downloaded and ready to install.
#[derive(Debug, Clone)]
pub struct PreparedInstallArtifact {
    pub archive_path: String,
    pub folder_name: String,
    pub mod_card: ModCard,
}

// ─── Archive names ──────────────────────────────────────────

pub open spec fn is_ascii_alnum(c: char) -> bool {
    let u = c as u32;
    (48 <= u <= 57) || (65 <= u <= 90) || (97 <= u <= 122)
}

/// Characters kept in an archive name: ASCII letters and digits, `.`, `_`, `-`.
pub open spec fn archive_char(c: char) -> char {
    if is_ascii_alnum(c) || c == '.' || c == '_' || c == '-' {
        c
    } else {
        '_'
    }
}

/// The trimmed name with every other character replaced by `_`; an empty
/// name becomes `downloaded_mod.zip`.
pub open spec fn sanitized_archive_name(name: Seq<char>) -> Seq<char> {
    if trim(name).len() == 0 {
        "downloaded_mod.zip"@
    } else {
        trim(name).map_values(|c: char| archive_char(c))
    }
}

/// A safe local file name for a downloaded archive.
pub fn sanitize_archive_file_name(file_name: &str) -> (r: String)
    ensures
        r@ == sanitized_archive_name(file_name@),
{
    let t = trimmed_chars(file_name);
    if t.len() == 0 {
        return text_of("downloaded_mod.zip");
    }
    let mut out: Vec<char> = Vec::new();
    let mut i: usize = 0;
    while i < t.len()
        invariant
            0 <= i <= t@.len(),
            out@ =~= t@.take(i as int).map_values(|c: char| archive_char(c)),
        decreases t.len() - i,
    {
        let c = t[i];
        let u = c as u32;
        let keep = (48 <= u && u <= 57) || (65 <= u && u <= 90) || (97 <= u && u <= 122) || c
            == '.' || c == '_' || c == '-';
        out.push(
            if keep {
                c
            } else {
                '_'
            },
        );
        i += 1;
    }
    assert(t@.take(t@.len() as int) =~= t@);
    string_from_chars(out.as_slice())
}

// ─── Percent label ──────────────────────────────────────────

/// The short label in a download card's corner.
pub open spec fn percent_label(phase: DownloadTaskPhase, status_code: DownloadTaskStatusCode, progress: u8) -> Seq<char> {
    match phase {
        DownloadTaskPhase::Queued => "排队"@,
        DownloadTaskPhase::Paused => if status_code == DownloadTaskStatusCode::Removed {
            "移除"@
        } else {
            "暂停"@
        },
        DownloadTaskPhase::Downloading | DownloadTaskPhase::Installing => decimal(progress as nat) + seq!['%'],
        DownloadTaskPhase::Completed => "完成"@,
        DownloadTaskPhase::Failed => "失败"@,
    }
}

/// The corner label of a download card: the percentage while the task
/// transfers or installs, else a word for its state.
pub fn percent_text(phase: DownloadTaskPhase, status_code: DownloadTaskStatusCode, progress: u8) -> (r: String)
    ensures
        r@ == percent_label(phase, status_code, progress),
{
    match phase {
        DownloadTaskPhase::Queued => text_of("排队"),
        DownloadTaskPhase::Paused => match status_code {
            DownloadTaskStatusCode::Removed => text_of("移除"),
            _ => text_of("暂停"),
        },
        DownloadTaskPhase::Downloading | DownloadTaskPhase::Installing => {
            let mut s = String::new();
            push_decimal(&mut s, progress as u64);
            push_char(&mut s, '%');
            assert(s@ =~= decimal(progress as nat) + seq!['%']);
            s
        },
        DownloadTaskPhase::Completed => text_of("完成"),
        DownloadTaskPhase::Failed => text_of("失败"),
    }
}

// ─── Failure classification ─────────────────────────────────

/// `pattern` occurs in the ASCII-lowercased message.
pub open spec fn mentions(message: Seq<char>, pattern: &str) -> bool {
    contains_seq(ascii_lower(message), pattern@)
}

pub open spec fn access_denied_spec(m: Seq<char>) -> bool {
    mentions(m, "http 401") || mentions(m, "http 403") || mentions(m, "unexpected status: 401")
        || mentions(m, "unexpected status: 403") || mentions(m, "forbidden") || mentions(
        m,
        "unauthorized",
    ) || mentions(m, "access denied") || mentions(m, "没有访问权限")
}

pub open spec fn permission_denied_spec(m: Seq<char>) -> bool {
    mentions(m, "permission denied") || mentions(m, "operation not permitted") || mentions(
        m,
        "没有权限",
    )
}

pub open spec fn missing_file_spec(m: Seq<char>) -> bool {
    mentions(m, "no such file") || mentions(m, "not found") || mentions(m, "文件不存在")
        || mentions(m, "文件已不存在") || mentions(m, "找不到")
}

pub open spec fn unsupported_format_spec(m: Seq<char>) -> bool {
    mentions(m, "格式不支持") || mentions(m, "unsupported method") || mentions(
        m,
        "unsupported format",
    ) || mentions(m, "暂不支持")
}

pub open spec fn unexpected_eof_spec(m: Seq<char>) -> bool {
    mentions(m, "unexpected end of file") || mentions(m, "unexpected eof") || mentions(
        m,
        "stream ended early",
    ) || mentions(m, "end of file") || mentions(m, "文件流提前结束") || mentions(m, "文件已截断")
}

pub open spec fn network_error_spec(m: Seq<char>) -> bool {
    mentions(m, "network error") || mentions(m, "connection reset") || mentions(
        m,
        "connection refused",
    ) || mentions(m, "connection aborted") || mentions(m, "broken pipe") || mentions(
        m,
        "timed out",
    ) || mentions(m, "timeout") || mentions(m, "temporarily unavailable") || mentions(
        m,
        "network is unreachable",
    ) || mentions(m, "host unreachable") || mentions(m, "dns") || mentions(m, "io error")
        || mentions(m, "网络异常") || mentions(m, "网络错误") || mentions(m, "连接失败")
}

pub open spec fn invalid_range_spec(m: Seq<char>) -> bool {
    mentions(m, "unexpected status: 416") || mentions(m, "range not satisfiable") || mentions(
        m,
        "invalid range",
    ) || mentions(m, "server ignored range resume request")
}

pub open spec fn read_operation_spec(m: Seq<char>) -> bool {
    mentions(m, "读取压缩包失败") || mentions(m, "读取 zip") || mentions(m, "read") || mentions(
        m,
        "open",
    )
}

pub fn is_access_denied(message: &str) -> (r: bool)
    ensures
        r == access_denied_spec(message@),
{
    let l = lower_chars(message);
    let l = l.as_slice();
    contains_str(l, "http 401") || contains_str(l, "http 403") || contains_str(
        l,
        "unexpected status: 401",
    ) || contains_str(l, "unexpected status: 403") || contains_str(l, "forbidden")
        || contains_str(l, "unauthorized") || contains_str(l, "access denied") || contains_str(
        l,
        "没有访问权限",
    )
}

pub fn is_permission_denied(message: &str) -> (r: bool)
    ensures
        r == permission_denied_spec(message@),
{
    let l = lower_chars(message);
    let l = l.as_slice();
    contains_str(l, "permission denied") || contains_str(l, "operation not permitted")
        || contains_str(l, "没有权限")
}

pub fn is_missing_file(message: &str) -> (r: bool)
    ensures
        r == missing_file_spec(message@),
{
    let l = lower_chars(message);
    let l = l.as_slice();
    contains_str(l, "no such file") || contains_str(l, "not found") || contains_str(
        l,
        "文件不存在",
    ) || contains_str(l, "文件已不存在") || contains_str(l, "找不到")
}

pub fn is_unsupported_format(message: &str) -> (r: bool)
    ensures
        r == unsupported_format_spec(message@),
{
    let l = lower_chars(message);
    let l = l.as_slice();
    contains_str(l, "格式不支持") || contains_str(l, "unsupported method") || contains_str(
        l,
        "unsupported format",
    ) || contains_str(l, "暂不支持")
}

pub fn is_unexpected_eof(message: &str) -> (r: bool)
    ensures
        r == unexpected_eof_spec(message@),
{
    let l = lower_chars(message);
    let l = l.as_slice();
    contains_str(l, "unexpected end of file") || contains_str(l, "unexpected eof")
        || contains_str(l, "stream ended early") || contains_str(l, "end of file") || contains_str(
        l,
        "文件流提前结束",
    ) || contains_str(l, "文件已截断")
}

pub fn is_network_error(message: &str) -> (r: bool)
    ensures
        r == network_error_spec(message@),
{
    let l = lower_chars(message);
    let l = l.as_slice();
    contains_str(l, "network error") || contains_str(l, "connection reset") || contains_str(
        l,
        "connection refused",
    ) || contains_str(l, "connection aborted") || contains_str(l, "broken pipe")
        || contains_str(l, "timed out") || contains_str(l, "timeout") || contains_str(
        l,
        "temporarily unavailable",
    ) || contains_str(l, "network is unreachable") || contains_str(l, "host unreachable")
        || contains_str(l, "dns") || contains_str(l, "io error") || contains_str(l, "网络异常")
        || contains_str(l, "网络错误") || contains_str(l, "连接失败")
}

pub fn is_invalid_range(message: &str) -> (r: bool)
    ensures
        r == invalid_range_spec(message@),
{
    let l = lower_chars(message);
    let l = l.as_slice();
    contains_str(l, "unexpected status: 416") || contains_str(l, "range not satisfiable")
        || contains_str(l, "invalid range") || contains_str(
        l,
        "server ignored range resume request",
    )
}

pub fn indicates_read_operation(message: &str) -> (r: bool)
    ensures
        r == read_operation_spec(message@),
{
    let l = lower_chars(message);
    let l = l.as_slice();
    contains_str(l, "读取压缩包失败") || contains_str(l, "读取 zip") || contains_str(l, "read")
        || contains_str(l, "open")
}

/// A failed setup is a write permission problem or a generic setup failure.
pub fn classify_prepare_failure(message: &str) -> (r: u16)
    ensures
        r == (if permission_denied_spec(message@) {
            DOWNLOAD_STATUS_FAILED_WRITE_PERMISSION
        } else {
            DOWNLOAD_STATUS_FAILED_PREPARE
        }),
{
    if is_permission_denied(message) {
        DOWNLOAD_STATUS_FAILED_WRITE_PERMISSION
    } else {
        DOWNLOAD_STATUS_FAILED_PREPARE
    }
}

/// A failed detail fetch is refused access, a network problem, or a generic
/// remote failure.
/// The status stored when a mod's details could not be fetched.
pub open spec fn remote_meta_failure_code(message: Seq<char>) -> u16 {
    if access_denied_spec(message) {
        DOWNLOAD_STATUS_FAILED_ACCESS_DENIED
    } else if network_error_spec(message) {
        DOWNLOAD_STATUS_FAILED_NETWORK
    } else {
        DOWNLOAD_STATUS_FAILED_REMOTE_META
    }
}

pub fn classify_remote_meta_failure(message: &str) -> (r: u16)
    ensures
        r == remote_meta_failure_code(message@),
{
    if is_access_denied(message) {
        DOWNLOAD_STATUS_FAILED_ACCESS_DENIED
    } else if is_network_error(message) {
        DOWNLOAD_STATUS_FAILED_NETWORK
    } else {
        DOWNLOAD_STATUS_FAILED_REMOTE_META
    }
}

/// A failed transfer, checked in order: refused access, write permission,
/// bad range, truncated stream, missing file, network; else generic.
pub fn classify_transfer_failure(message: &str) -> (r: u16)
    ensures
        r == (if access_denied_spec(message@) {
            DOWNLOAD_STATUS_FAILED_ACCESS_DENIED
        } else if permission_denied_spec(message@) {
            DOWNLOAD_STATUS_FAILED_WRITE_PERMISSION
        } else if invalid_range_spec(message@) {
            DOWNLOAD_STATUS_FAILED_INVALID_RANGE
        } else if unexpected_eof_spec(message@) {
            DOWNLOAD_STATUS_FAILED_UNEXPECTED_EOF
        } else if missing_file_spec(message@) {
            DOWNLOAD_STATUS_FAILED_FILE_NOT_FOUND
        } else if network_error_spec(message@) {
            DOWNLOAD_STATUS_FAILED_NETWORK
        } else {
            DOWNLOAD_STATUS_FAILED_TRANSFER
        }),
{
    if is_access_denied(message) {
        DOWNLOAD_STATUS_FAILED_ACCESS_DENIED
    } else if is_permission_denied(message) {
        DOWNLOAD_STATUS_FAILED_WRITE_PERMISSION
    } else if is_invalid_range(message) {
        DOWNLOAD_STATUS_FAILED_INVALID_RANGE
    } else if is_unexpected_eof(message) {
        DOWNLOAD_STATUS_FAILED_UNEXPECTED_EOF
    } else if is_missing_file(message) {
        DOWNLOAD_STATUS_FAILED_FILE_NOT_FOUND
    } else if is_network_error(message) {
        DOWNLOAD_STATUS_FAILED_NETWORK
    } else {
        DOWNLOAD_STATUS_FAILED_TRANSFER
    }
}

/// A failed install, checked in order: unsupported format, truncated
/// archive, missing file, permission (read or write); else generic.
/// The status stored when an install failed with `message`.
pub open spec fn install_failure_code(message: Seq<char>) -> u16 {
    if unsupported_format_spec(message) {
        DOWNLOAD_STATUS_FAILED_UNSUPPORTED_FORMAT
    } else if unexpected_eof_spec(message) {
        DOWNLOAD_STATUS_FAILED_UNEXPECTED_EOF
    } else if missing_file_spec(message) {
        DOWNLOAD_STATUS_FAILED_FILE_NOT_FOUND
    } else if permission_denied_spec(message) {
        if read_operation_spec(message) {
            DOWNLOAD_STATUS_FAILED_READ_PERMISSION
        } else {
            DOWNLOAD_STATUS_FAILED_WRITE_PERMISSION
        }
    } else {
        DOWNLOAD_STATUS_FAILED_INSTALL
    }
}

pub fn classify_install_failure(message: &str) -> (r: u16)
    ensures
        r == install_failure_code(message@),
{
    if is_unsupported_format(message) {
        DOWNLOAD_STATUS_FAILED_UNSUPPORTED_FORMAT
    } else if is_unexpected_eof(message) {
        DOWNLOAD_STATUS_FAILED_UNEXPECTED_EOF
    } else if is_missing_file(message) {
        DOWNLOAD_STATUS_FAILED_FILE_NOT_FOUND
    } else if is_permission_denied(message) {
        if indicates_read_operation(message) {
            DOWNLOAD_STATUS_FAILED_READ_PERMISSION
        } else {
            DOWNLOAD_STATUS_FAILED_WRITE_PERMISSION
        }
    } else {
        DOWNLOAD_STATUS_FAILED_INSTALL
    }
}

/// Every classification is a failure code.
pub proof fn lemma_classifications_fail(m: Seq<char>)
    ensures
        ({
            let codes = seq![
                DOWNLOAD_STATUS_FAILED_WRITE_PERMISSION,
                DOWNLOAD_STATUS_FAILED_PREPARE,
                DOWNLOAD_STATUS_FAILED_ACCESS_DENIED,
                DOWNLOAD_STATUS_FAILED_NETWORK,
                DOWNLOAD_STATUS_FAILED_REMOTE_META,
                DOWNLOAD_STATUS_FAILED_INVALID_RANGE,
                DOWNLOAD_STATUS_FAILED_UNEXPECTED_EOF,
                DOWNLOAD_STATUS_FAILED_FILE_NOT_FOUND,
                DOWNLOAD_STATUS_FAILED_TRANSFER,
                DOWNLOAD_STATUS_FAILED_UNSUPPORTED_FORMAT,
                DOWNLOAD_STATUS_FAILED_READ_PERMISSION,
                DOWNLOAD_STATUS_FAILED_INSTALL,
            ];
            forall|i: int| 0 <= i < codes.len() ==> phase_of_code(#[trigger] codes[i])
                == DownloadCheckpointPhase::Failed
        }),
{
}

// ─── Lifecycle of one task ──────────────────────────────────

/// Attempts at fetching a mod's details before a resumed download gives up.
pub const RESUME_MAX_RETRIES: u32 = 3;

/// Seconds between two of those attempts.
pub const RESUME_RETRY_DELAY_SECS: u64 = 30;

/// `prefix` followed by `detail`.
pub fn prefixed(prefix: &str, detail: &str) -> (r: String)
    ensures
        r@ == prefix@ + detail@,
{
    let mut r = prefix.to_owned();
    push_str(&mut r, detail);
    r
}

/// `u` reports a task stopped on `request` at `progress`: queued for a later
/// resume on shutdown, else paused, with the matching status and text.
pub open spec fn is_stopped_report(u: DownloadTaskUpdate, request: Option<TaskControlRequest>, progress: u8) -> bool {
    &&& u.phase == (if request == Some(TaskControlRequest::Shutdown) {
        DownloadTaskPhase::Queued
    } else {
        DownloadTaskPhase::Paused
    })
    &&& u.progress == (if progress < 100 {
        progress
    } else {
        100
    })
    &&& u.status_code == (match request {
        Some(TaskControlRequest::Remove) => DownloadTaskStatusCode::Removed,
        Some(TaskControlRequest::Shutdown) => DownloadTaskStatusCode::Queued,
        _ => DownloadTaskStatusCode::Paused,
    })
    &&& u.status_text@ == (match request {
        Some(TaskControlRequest::Remove) => "已移除"@,
        Some(TaskControlRequest::Pause) => "已暂停"@,
        Some(TaskControlRequest::Shutdown) => "等待续传"@,
        None => "已停止"@,
    })
    &&& u.image_path is None
}

/// The report of a task stopped on request, at `progress`.
pub fn stopped_update(request: Option<TaskControlRequest>, progress: u8) -> (r: DownloadTaskUpdate)
    ensures
        is_stopped_report(r, request, progress),
{
    DownloadTaskUpdate::new(
        controlled_stop_phase(request),
        progress,
        controlled_stop_status_code(request),
        controlled_stop_message(request),
    )
}

/// The report sent before a transfer starts: reusing an archive already on
/// disk (at `progress`), or preparing a new one (at zero).
pub fn arrival_update(archive_exists: bool, progress: u8) -> (r: DownloadTaskUpdate)
    ensures
        r.phase == DownloadTaskPhase::Downloading,
        r.image_path is None,
        archive_exists ==> r.progress == (if progress < 100 {
            progress
        } else {
            100
        }) && r.status_code == DownloadTaskStatusCode::ReusingArchive && r.status_text@
            == "复用已下载文件"@,
        !archive_exists ==> r.progress == 0 && r.status_code == DownloadTaskStatusCode::Preparing
            && r.status_text@ == "正在准备"@,
{
    if archive_exists {
        DownloadTaskUpdate::new(
            DownloadTaskPhase::Downloading,
            progress,
            DownloadTaskStatusCode::ReusingArchive,
            text_of("复用已下载文件"),
        )
    } else {
        DownloadTaskUpdate::new(
            DownloadTaskPhase::Downloading,
            0,
            DownloadTaskStatusCode::Preparing,
            text_of("正在准备"),
        )
    }
}

/// The report of a running transfer at `progress`.
pub fn downloading_update(progress: u8) -> (r: DownloadTaskUpdate)
    ensures
        r.phase == DownloadTaskPhase::Downloading,
        r.progress == (if progress < 100 {
            progress
        } else {
            100
        }),
        r.status_code == DownloadTaskStatusCode::Downloading,
        r.status_text@ == "正在下载"@,
        r.image_path is None,
{
    DownloadTaskUpdate::new(
        DownloadTaskPhase::Downloading,
        progress,
        DownloadTaskStatusCode::Downloading,
        text_of("正在下载"),
    )
}

/// The report of a task whose archive is being installed.
pub fn installing_update() -> (r: DownloadTaskUpdate)
    ensures
        r.phase == DownloadTaskPhase::Installing,
        r.progress == 100,
        r.status_code == DownloadTaskStatusCode::Installing,
        r.status_text@ == "正在安装"@,
        r.image_path is None,
{
    DownloadTaskUpdate::new(
        DownloadTaskPhase::Installing,
        100,
        DownloadTaskStatusCode::Installing,
        text_of("正在安装"),
    )
}

/// The report of an installed task.
pub fn installed_update() -> (r: DownloadTaskUpdate)
    ensures
        r.phase == DownloadTaskPhase::Completed,
        r.progress == 100,
        r.status_code == DownloadTaskStatusCode::Completed,
        r.status_text@ == "已安装"@,
        r.image_path is None,
{
    DownloadTaskUpdate::new(
        DownloadTaskPhase::Completed,
        100,
        DownloadTaskStatusCode::Completed,
        text_of("已安装"),
    )
}

/// The report of a failed task at `progress`.
pub fn failed_update(progress: u8, message: String) -> (r: DownloadTaskUpdate)
    ensures
        r.phase == DownloadTaskPhase::Failed,
        r.progress == (if progress < 100 {
            progress
        } else {
            100
        }),
        r.status_code == DownloadTaskStatusCode::Failed,
        r.status_text == message,
        r.image_path is None,
{
    DownloadTaskUpdate::new(DownloadTaskPhase::Failed, progress, DownloadTaskStatusCode::Failed, message)
}

/// The current report with a cover image attached.
pub fn with_image(status: &DownloadTaskUpdate, image_path: String) -> (r: DownloadTaskUpdate)
    ensures
        r == (DownloadTaskUpdate { image_path: Some(image_path), ..*status }),
{
    let mut u = status.duplicate();
    u.image_path = Some(image_path);
    u
}

/// The text shown while waiting before attempt `attempt` (counted from
/// zero) at fetching a mod's details.
pub open spec fn resume_retry_text(attempt: u32) -> Seq<char> {
    "获取模组信息失败，"@ + decimal(attempt as nat) + "/"@ + decimal((RESUME_MAX_RETRIES - 1) as nat)
        + " 次重试"@
}

/// The report while waiting to fetch a mod's details again.
pub fn resume_retry_update(attempt: u32) -> (r: DownloadTaskUpdate)
    ensures
        r.phase == DownloadTaskPhase::Queued,
        r.progress == 0,
        r.status_code == DownloadTaskStatusCode::RetryPending,
        r.status_text@ == resume_retry_text(attempt),
        r.image_path is None,
{
    let mut m = "获取模组信息失败，".to_owned();
    push_decimal(&mut m, attempt as u64);
    push_str(&mut m, "/");
    push_decimal(&mut m, (RESUME_MAX_RETRIES - 1) as u64);
    push_str(&mut m, " 次重试");
    DownloadTaskUpdate::new(DownloadTaskPhase::Queued, 0, DownloadTaskStatusCode::RetryPending, m)
}

/// The failure of a resumed download whose mod details could not be fetched.
pub fn remote_meta_failure_message(last_error: Option<&str>) -> (r: String)
    ensures
        r@ == (match last_error {
            Some(d) => "获取模组信息失败，已重试3次："@ + d@,
            None => "获取模组信息失败，已重试3次"@,
        }),
{
    match last_error {
        Some(d) => prefixed("获取模组信息失败，已重试3次：", d),
        None => text_of("获取模组信息失败，已重试3次"),
    }
}

/// The failure of an install; a removed broken archive asks for a new
/// download.
pub fn install_failure_message(error: &str, removed_bad_archive: bool) -> (r: String)
    ensures
        r@ == (if removed_bad_archive {
            "安装失败："@ + error@ + "；已移除损坏压缩包，请重试下载"@
        } else {
            "安装失败："@ + error@
        }),
{
    let mut m = prefixed("安装失败：", error);
    if removed_bad_archive {
        push_str(&mut m, "；已移除损坏压缩包，请重试下载");
    }
    m
}

/// The first file of the detail with `file_id`.
pub open spec fn first_file_with(files: Seq<ModFile>, file_id: u64, k: int) -> bool {
    &&& 0 <= k < files.len()
    &&& files[k].id == file_id
    &&& forall|j: int| 0 <= j < k ==> (#[trigger] files[j]).id != file_id
}

pub fn duplicate_file(f: &ModFile) -> (r: ModFile)
    ensures
        r == *f,
{
    ModFile {
        id: f.id,
        filename: f.filename.clone(),
        size: f.size,
        date_added: f.date_added,
        download_count: f.download_count,
        download_url: f.download_url.clone(),
        md5: f.md5.clone(),
        description: f.description.clone(),
    }
}

/// The file a resumed download continues, if the mod still offers it.
pub fn find_file(detail: &ModDetail, file_id: u64) -> (r: Option<ModFile>)
    ensures
        (exists|k: int| first_file_with(detail.files@, file_id, k)) ==> exists|k: int|
            first_file_with(detail.files@, file_id, k) && r == Some(detail.files@[k]),
        !(exists|k: int| first_file_with(detail.files@, file_id, k)) ==> r is None,
{
    let mut i: usize = 0;
    while i < detail.files.len()
        invariant
            0 <= i <= detail.files@.len(),
            forall|j: int| 0 <= j < i ==> (#[trigger] detail.files@[j]).id != file_id,
        decreases detail.files.len() - i,
    {
        if detail.files[i].id == file_id {
            assert(first_file_with(detail.files@, file_id, i as int));
            return Some(duplicate_file(&detail.files[i]));
        }
        i += 1;
    }
    proof {
        assert forall|k: int| !first_file_with(detail.files@, file_id, k) by {}
    }
    None
}

/// The 530px rendition of the first preview image, if any.
pub open spec fn first_small_preview(m: Option<PreviewMedia>) -> Option<Seq<char>> {
    match first_image(m) {
        Some(img) => Some(slash_join(img.base_url@, img.file_530@)),
        None => None,
    }
}

/// The full-size rendition of the first preview image, if any.
pub open spec fn first_full_preview(m: Option<PreviewMedia>) -> Option<Seq<char>> {
    match first_image(m) {
        Some(img) => Some(slash_join(img.base_url@, img.file@)),
        None => None,
    }
}

fn first_preview(media: &Option<PreviewMedia>, small: bool) -> (r: Option<String>)
    ensures
        opt_view(r) == (if small {
            first_small_preview(*media)
        } else {
            first_full_preview(*media)
        }),
{
    match media {
        Some(m) => {
            if m.images.len() > 0 {
                let img: &PreviewImage = &m.images[0];
                if small {
                    Some(join_with_slash(img.base_url.as_str(), img.file_530.as_str()))
                } else {
                    Some(join_with_slash(img.base_url.as_str(), img.file.as_str()))
                }
            } else {
                None
            }
        },
        None => None,
    }
}

/// The cover a resumed download shows: the 530px rendition of the first
/// preview image.
pub fn resume_cover_url(detail: &ModDetail) -> (r: Option<String>)
    ensures
        opt_view(r) == first_small_preview(detail.preview_media),
{
    first_preview(&detail.preview_media, true)
}

pub open spec fn profile_url_of(id: u64) -> Seq<char> {
    "https://gamebanana.com/mods/"@ + decimal(id as nat)
}

/// The card a resumed download installs under: built from the fetched
/// details, named after the file when the mod has no name.
pub fn resume_card(detail: &ModDetail, file_name: &str, is_r18: bool) -> (c: ModCard)
    ensures
        c.id == detail.id,
        c.name@ == (if detail.name@.len() == 0 {
            file_name@
        } else {
            detail.name@
        }),
        c.author@ == (match detail.submitter {
            Some(s) => s.name@,
            None => Seq::<char>::empty(),
        }),
        c.category@ == category_name(detail.root_category),
        opt_view(c.subcategory) == opt_category_name(detail.category),
        c.likes == 0,
        c.views == 0,
        c.date_added == 0,
        c.date_modified == detail.date_modified,
        opt_view(c.thumbnail_url) == first_small_preview(detail.preview_media),
        opt_view(c.cover_url) == first_full_preview(detail.preview_media),
        c.is_r18 == is_r18,
        c.has_files == (detail.files@.len() > 0),
        c.profile_url@ == profile_url_of(detail.id),
        c.local_cover_path is None,
{
    let name = if detail.name.as_str().is_empty() {
        file_name.to_owned()
    } else {
        detail.name.clone()
    };
    let author = match &detail.submitter {
        Some(s) => s.name.clone(),
        None => String::new(),
    };
    let category = match &detail.root_category {
        Some(c) => c.name.clone(),
        None => String::new(),
    };
    let subcategory = match &detail.category {
        Some(c) => Some(c.name.clone()),
        None => None,
    };
    let mut profile_url = "https://gamebanana.com/mods/".to_owned();
    push_decimal(&mut profile_url, detail.id);
    ModCard {
        id: detail.id,
        name,
        author,
        category,
        subcategory,
        likes: 0,
        views: 0,
        date_added: 0,
        date_modified: detail.date_modified,
        thumbnail_url: first_preview(&detail.preview_media, true),
        cover_url: first_preview(&detail.preview_media, false),
        is_r18,
        has_files: detail.files.len() > 0,
        profile_url,
        local_cover_path: None,
    }
}

/// The preview URLs of optional details.
pub open spec fn detail_previews(d: Option<ModDetail>) -> Seq<Seq<char>> {
    match d {
        Some(d) => match d.preview_media {
            Some(m) => preview_urls_of(m.images@),
            None => seq![],
        },
        None => seq![],
    }
}

/// The picture a new download shows first: the first preview of its details,
/// else the card's cover, else its thumbnail.
pub fn fresh_preview_url(task: &FreshDownloadTask) -> (r: Option<String>)
    ensures
        opt_view(r) == (if detail_previews(task.detail).len() > 0 {
            Some(detail_previews(task.detail)[0])
        } else if task.card.cover_url is Some {
            opt_view(task.card.cover_url)
        } else {
            opt_view(task.card.thumbnail_url)
        }),
{
    match &task.detail {
        Some(d) => {
            let local = LocalModDetail::from_remote_detail(d);
            assert(crate::models::views(local.preview_urls@).len() == local.preview_urls@.len());
            if local.preview_urls.len() > 0 {
                proof {
                    assert(crate::models::views(local.preview_urls@).len() == local.preview_urls@.len());
                    assert(crate::models::views(local.preview_urls@)[0] == local.preview_urls@[0]@);
                }
                return Some(local.preview_urls[0].clone());
            }
        },
        None => {},
    }
    match &task.card.cover_url {
        Some(u) => Some(u.clone()),
        None => clone_opt_string(&task.card.thumbnail_url),
    }
}

// ─── Steps of one execution ─────────────────────────────────

/// What a resumed download does at attempt `attempt` (counted from zero) at
/// fetching its mod's details.
pub enum ResumeStep {
    /// Fetch them now.
    Fetch,
    /// Report `update`, wait `delay_secs` seconds, then fetch them.
    RetryAfter { update: DownloadTaskUpdate, delay_secs: u64 },
    /// The attempts are used up: store the failure under `status_code` with
    /// `message` and end with it.
    GiveUp { status_code: u16, message: String },
}

/// The step of a resumed download at attempt `attempt`, the last failed
/// fetch having failed with `last_error`: the first attempt fetches at once,
/// the next ones after a pause, and after the last one the download fails.
pub fn resume_step(attempt: u32, last_error: Option<&str>) -> (r: ResumeStep)
    ensures
        attempt == 0 ==> r is Fetch,
        0 < attempt < RESUME_MAX_RETRIES ==> (r matches ResumeStep::RetryAfter { update, delay_secs }
            && delay_secs == RESUME_RETRY_DELAY_SECS && update.phase == DownloadTaskPhase::Queued
            && update.progress == 0 && update.status_code == DownloadTaskStatusCode::RetryPending
            && update.status_text@ == resume_retry_text(attempt) && update.image_path is None),
        attempt >= RESUME_MAX_RETRIES ==> (r matches ResumeStep::GiveUp { status_code, message }
            && message@ == (match last_error {
            Some(d) => "获取模组信息失败，已重试3次："@ + d@,
            None => "获取模组信息失败，已重试3次"@,
        }) && status_code == remote_meta_failure_code(message@)),
{
    if attempt == 0 {
        ResumeStep::Fetch
    } else if attempt < RESUME_MAX_RETRIES {
        ResumeStep::RetryAfter { update: resume_retry_update(attempt), delay_secs: RESUME_RETRY_DELAY_SECS }
    } else {
        let message = remote_meta_failure_message(last_error);
        let status_code = classify_remote_meta_failure(message.as_str());
        ResumeStep::GiveUp { status_code, message }
    }
}

/// Whether an event ends an execution.
pub open spec fn is_final_event(e: DownloadTaskEvent) -> bool {
    !(e is Update)
}

/// Updates only, but for the last event, which may be final: an execution
/// ends with at most one final event, and sends nothing after it.
pub open spec fn well_ordered_events(events: Seq<DownloadTaskEvent>) -> bool {
    forall|i: int| 0 <= i < events.len() - 1 ==> !is_final_event(#[trigger] events[i])
}

/// The events one execution has sent, in order, and its current status (the
/// report of the last event sent).
pub struct TaskEvents {
    events: Vec<DownloadTaskEvent>,
    status: DownloadTaskUpdate,
}

impl TaskEvents {
    pub closed spec fn spec_events(&self) -> Seq<DownloadTaskEvent> {
        self.events@
    }

    pub closed spec fn spec_status(&self) -> DownloadTaskUpdate {
        self.status
    }

    /// The execution has ended: its last event was final.
    pub open spec fn ended(&self) -> bool {
        self.spec_events().len() > 0 && is_final_event(self.spec_events().last())
    }

    /// The events are well ordered, and once one was sent the status is the
    /// report of the last one.
    pub open spec fn wf(&self) -> bool {
        &&& well_ordered_events(self.spec_events())
        &&& self.spec_events().len() > 0 ==> self.spec_status() == event_update(self.spec_events().last())
    }

    /// An execution that has sent nothing yet, at `status`.
    pub fn new(status: DownloadTaskUpdate) -> (r: Self)
        ensures
            r.wf(),
            r.spec_events().len() == 0,
            r.spec_status() == status,
    {
        TaskEvents { events: Vec::new(), status }
    }

    /// Sends a report, which becomes the current status; once the execution
    /// has ended nothing is sent. Tells whether it was sent.
    pub fn update(&mut self, update: DownloadTaskUpdate) -> (sent: bool)
        requires
            old(self).wf(),
        ensures
            final(self).wf(),
            sent == !old(self).ended(),
            sent ==> final(self).spec_events() == old(self).spec_events().push(
                DownloadTaskEvent::Update(update),
            ) && final(self).spec_status() == update,
            !sent ==> final(self).spec_events() == old(self).spec_events() && final(self).spec_status()
                == old(self).spec_status(),
    {
        if self.is_ended() {
            return false;
        }
        self.status = update.duplicate();
        self.events.push(DownloadTaskEvent::Update(update));
        true
    }

    /// Sends the final event `event`, which becomes the current status; once
    /// the execution has ended nothing is sent. Tells whether it was sent.
    pub fn finish(&mut self, event: DownloadTaskEvent) -> (sent: bool)
        requires
            old(self).wf(),
            is_final_event(event),
        ensures
            final(self).wf(),
            sent == !old(self).ended(),
            sent ==> final(self).spec_events() == old(self).spec_events().push(event)
                && final(self).spec_status() == event_update(event) && final(self).ended(),
            !sent ==> final(self).spec_events() == old(self).spec_events() && final(self).spec_status()
                == old(self).spec_status(),
    {
        if self.is_ended() {
            return false;
        }
        send_event(&mut self.status, &event);
        self.events.push(event);
        true
    }

    /// Whether the execution has ended.
    pub fn is_ended(&self) -> (r: bool)
        ensures
            r == self.ended(),
    {
        let n = self.events.len();
        if n == 0 {
            return false;
        }
        match &self.events[n - 1] {
            DownloadTaskEvent::Update(_) => false,
            _ => true,
        }
    }

    /// The current status.
    pub fn status(&self) -> (r: DownloadTaskUpdate)
        ensures
            r == self.spec_status(),
    {
        self.status.duplicate()
    }

    /// The events sent so far, in order.
    pub fn events(&self) -> (r: &Vec<DownloadTaskEvent>)
        ensures
            r@ == self.spec_events(),
    {
        &self.events
    }
}

/// What an execution has sent: updates, then at most one final event, which
/// is the last; and its status is the report of the last event sent.
pub proof fn lemma_event_sequence(events: TaskEvents, i: int)
    requires
        events.wf(),
        0 <= i < events.spec_events().len(),
        is_final_event(events.spec_events()[i]),
    ensures
        i == events.spec_events().len() - 1,
        events.ended(),
        forall|j: int| 0 <= j < i ==> !is_final_event(#[trigger] events.spec_events()[j]),
        events.spec_status() == event_update(events.spec_events()[i]),
{
}

/// An execution sends at most one final event, and it is the last one sent.
pub proof fn lemma_single_final_event(events: Seq<DownloadTaskEvent>, i: int, j: int)
    requires
        well_ordered_events(events),
        0 <= i < events.len(),
        0 <= j < events.len(),
        is_final_event(events[i]),
        is_final_event(events[j]),
    ensures
        i == j,
        i == events.len() - 1,
{
}

/// The first step of installing a downloaded archive: the task reports that
/// it is installing.
pub fn begin_install(events: &mut TaskEvents) -> (sent: bool)
    requires
        old(events).wf(),
    ensures
        final(events).wf(),
        sent == !old(events).ended(),
        !sent ==> final(events).spec_events() == old(events).spec_events(),
        sent ==> {
            let u = final(events).spec_status();
            &&& final(events).spec_events() == old(events).spec_events().push(
                DownloadTaskEvent::Update(u),
            )
            &&& u.phase == DownloadTaskPhase::Installing && u.progress == 100
            &&& u.status_code == DownloadTaskStatusCode::Installing && u.status_text@ == "正在安装"@
        },
{
    events.update(installing_update())
}

/// The last step of installing an archive, once the install ran and the
/// archive was deleted (`removed_bad_archive` tells whether that worked):
/// a successful install ends the execution as installed; a failed one ends
/// it as failed, at the current progress, and gives the status and message
/// to store for the download.
pub fn end_install(events: &mut TaskEvents, install_error: Option<&str>, removed_bad_archive: bool) -> (r:
    Option<(u16, String)>)
    requires
        old(events).wf(),
    ensures
        final(events).wf(),
        old(events).ended() ==> final(events).spec_events() == old(events).spec_events(),
        install_error is None ==> r is None,
        install_error is None && !old(events).ended() ==> {
            let u = final(events).spec_status();
            &&& final(events).spec_events() == old(events).spec_events().push(
                DownloadTaskEvent::Finished(u),
            )
            &&& u.phase == DownloadTaskPhase::Completed && u.progress == 100
            &&& u.status_code == DownloadTaskStatusCode::Completed && u.status_text@ == "已安装"@
        },
        install_error matches Some(e) ==> {
            let message = if removed_bad_archive {
                "安装失败："@ + e@ + "；已移除损坏压缩包，请重试下载"@
            } else {
                "安装失败："@ + e@
            };
            let u = final(events).spec_status();
            &&& r matches Some((code, m)) && m@ == message && code == install_failure_code(message)
            &&& !old(events).ended() ==> {
                &&& final(events).spec_events() == old(events).spec_events().push(
                    DownloadTaskEvent::Failed(u),
                )
                &&& u.phase == DownloadTaskPhase::Failed
                &&& u.progress == (if old(events).spec_status().progress < 100 {
                    old(events).spec_status().progress
                } else {
                    100
                })
                &&& u.status_code == DownloadTaskStatusCode::Failed
                &&& u.status_text@ == message
            }
        },
{
    match install_error {
        None => {
            events.finish(DownloadTaskEvent::Finished(installed_update()));
            None
        },
        Some(e) => {
            let message = install_failure_message(e, removed_bad_archive);
            let code = classify_install_failure(message.as_str());
            let progress = events.status().progress;
            let report = failed_update(progress, message.clone());
            events.finish(DownloadTaskEvent::Failed(report));
            Some((code, message))
        },
    }
}

/// Ends an execution stopped on `request` (pause, remove or shutdown), at
/// its current progress.
pub fn end_stopped(events: &mut TaskEvents, request: TaskControlRequest) -> (sent: bool)
    requires
        old(events).wf(),
    ensures
        final(events).wf(),
        sent == !old(events).ended(),
        !sent ==> final(events).spec_events() == old(events).spec_events(),
        sent ==> final(events).spec_events() == old(events).spec_events().push(
            DownloadTaskEvent::Finished(final(events).spec_status()),
        ) && is_stopped_report(final(events).spec_status(), Some(request), old(events).spec_status().progress),
{
    let progress = events.status().progress;
    events.finish(DownloadTaskEvent::Finished(stopped_update(Some(request), progress)))
}

/// Ends an execution that failed with `error` and was not asked to stop:
/// it fails at zero progress when it failed while setting up (and the
/// status to store for the download is returned), else at its current
/// progress (the transfer stored its failure itself).
pub fn end_failed(events: &mut TaskEvents, error: String, during_setup: bool) -> (r: Option<u16>)
    requires
        old(events).wf(),
    ensures
        final(events).wf(),
        old(events).ended() ==> final(events).spec_events() == old(events).spec_events(),
        !old(events).ended() ==> {
            let u = final(events).spec_status();
            &&& final(events).spec_events() == old(events).spec_events().push(
                DownloadTaskEvent::Failed(u),
            )
            &&& u.phase == DownloadTaskPhase::Failed
            &&& u.status_code == DownloadTaskStatusCode::Failed
            &&& u.status_text == error
            &&& u.image_path is None
            &&& u.progress == (if during_setup {
                0
            } else if old(events).spec_status().progress < 100 {
                old(events).spec_status().progress
            } else {
                100
            })
        },
        during_setup ==> r == Some(
            if permission_denied_spec(error@) {
                DOWNLOAD_STATUS_FAILED_WRITE_PERMISSION
            } else {
                DOWNLOAD_STATUS_FAILED_PREPARE
            },
        ),
        !during_setup ==> r is None,
{
    let code = if during_setup {
        Some(classify_prepare_failure(error.as_str()))
    } else {
        None
    };
    let progress = if during_setup {
        0
    } else {
        events.status().progress
    };
    events.finish(DownloadTaskEvent::Failed(failed_update(progress, error)));
    code
}

} // verus!
