//! The task engine: one task per code block, driven through a status state
//! machine under a configurable execution policy.
//!
//! The engine itself decides; it spawns nothing. A driver asks it what to do
//! next (`start_next`), performs the interpreter process work outside, and
//! reports how the process ended (`finish_running`). The engine is the sole
//! mutator of task status, and no transition ever leaves a terminal state.

use vstd::prelude::*;
use crate::books::{blocks_view, spec_code_blocks, CodeBlock, Runbook};

verus! {

/// The rule governing run-wide behavior on task failure.
#[derive(Debug, Clone, Copy, PartialEq, Eq, Structural)]
pub enum ExecutionPolicy {
    /// Tasks run one at a time, in source order, whatever their outcomes.
    Sequential,
    /// Sequential, but the first failure cancels every task still pending.
    FailFast,
    /// Sequential; all tasks run, and the run fails if any task did.
    ContinueOnFailure,
}

/// Why a task failed.
#[derive(Debug, Clone, Copy, PartialEq, Eq, Structural)]
pub enum TaskError {
    /// The block declared no language tag, so no interpreter could be chosen.
    NoInterpreter,
    /// The interpreter process could not be created.
    SpawnFailed,
    /// The script could not be fully written to the process's input.
    InputWriteFailed,
    /// The interpreter exited with this nonzero status code.
    NonZeroExit(i32),
}

/// The lifecycle of one task. `Complete`, `Failed` and `Canceled` are
/// terminal: no transition leaves them.
#[derive(Debug, Clone, Copy, PartialEq, Eq, Structural)]
pub enum TaskStatus {
    /// The task has not started yet.
    Pending,
    /// The task's process is running.
    Running,
    /// The process exited with status zero.
    Complete,
    /// The task failed, for this reason.
    Failed(TaskError),
    /// The task was canceled before or while running.
    Canceled,
}

/// One managed execution of a single code block: its status, its process's
/// exit code once known, and its start and end times in milliseconds.
#[derive(Debug, Clone, Copy, PartialEq, Eq)]
pub struct Task {
    pub status: TaskStatus,
    pub exit_code: Option<i32>,
    pub started_at_ms: Option<u64>,
    pub finished_at_ms: Option<u64>,
}

/// Whether a status is terminal.
pub open spec fn is_terminal(s: TaskStatus) -> bool {
    s is Complete || s is Failed || s is Canceled
}

/// What a task's fields may say in each status: exit codes only once the
/// process exited, timestamps only once the task started or ended.
pub open spec fn task_wf(t: Task) -> bool {
    &&& t.status is Pending ==> (t.exit_code is None && t.started_at_ms is None
        && t.finished_at_ms is None)
    &&& t.status is Running ==> (t.exit_code is None && t.started_at_ms is Some
        && t.finished_at_ms is None)
    &&& is_terminal(t.status) ==> t.finished_at_ms is Some
    &&& t.status is Complete ==> t.exit_code == Some(0i32)
    &&& t.status matches TaskStatus::Failed(TaskError::NonZeroExit(c)) ==> (t.exit_code == Some(c)
        && c != 0)
}

/// A task that has not been touched yet.
pub open spec fn pending_task() -> Task {
    Task { status: TaskStatus::Pending, exit_code: None, started_at_ms: None, finished_at_ms: None }
}

/// The driver's report of how the running task's process work ended.
#[derive(Debug, Clone, Copy, PartialEq, Eq, Structural)]
pub enum TaskEvent {
    /// The process exited with this status code.
    Exited(i32),
    /// The process could not be created.
    SpawnFailed,
    /// The script could not be fully written to the process's input.
    InputWriteFailed,
}

/// The terminal status an event maps to: exit status zero completes the
/// task, anything else fails it.
pub open spec fn event_status(event: TaskEvent) -> TaskStatus {
    match event {
        TaskEvent::Exited(code) => if code == 0 {
            TaskStatus::Complete
        } else {
            TaskStatus::Failed(TaskError::NonZeroExit(code))
        },
        TaskEvent::SpawnFailed => TaskStatus::Failed(TaskError::SpawnFailed),
        TaskEvent::InputWriteFailed => TaskStatus::Failed(TaskError::InputWriteFailed),
    }
}

/// The exit code an event records, if the process got far enough to exit.
pub open spec fn event_exit_code(event: TaskEvent) -> Option<i32> {
    match event {
        TaskEvent::Exited(code) => Some(code),
        _ => None,
    }
}

/// The task an observed event settles the running task into.
pub open spec fn settled_task(t: Task, event: TaskEvent, now_ms: u64) -> Task {
    Task {
        status: event_status(event),
        exit_code: event_exit_code(event),
        started_at_ms: t.started_at_ms,
        finished_at_ms: Some(now_ms),
    }
}

/// What cancellation does to one task: a terminal task is left as it is,
/// any other moves to `Canceled` with its end time recorded.
pub open spec fn spec_cancel_task(t: Task, now_ms: u64) -> Task {
    if is_terminal(t.status) {
        t
    } else {
        Task {
            status: TaskStatus::Canceled,
            exit_code: t.exit_code,
            started_at_ms: t.started_at_ms,
            finished_at_ms: Some(now_ms),
        }
    }
}

/// What cancellation does to a whole task list.
pub open spec fn spec_cancel_all(tasks: Seq<Task>, now_ms: u64) -> Seq<Task> {
    tasks.map_values(|t: Task| spec_cancel_task(t, now_ms))
}

/// Law: cancelling a run moves the running task, if any, to `Canceled` (not
/// `Failed`), moves every pending task to `Canceled`, and leaves every task
/// already terminal exactly as it was.
pub proof fn lemma_cancel_transitions(tasks: Seq<Task>, now_ms: u64)
    ensures
        spec_cancel_all(tasks, now_ms).len() == tasks.len(),
        forall|j: int|
            0 <= j < tasks.len() && ((#[trigger] tasks[j]).status is Running || tasks[j].status
                is Pending) ==> spec_cancel_all(tasks, now_ms)[j].status is Canceled,
        forall|j: int|
            0 <= j < tasks.len() && is_terminal((#[trigger] tasks[j]).status) ==> spec_cancel_all(
                tasks,
                now_ms,
            )[j] == tasks[j],
{
}

/// The index of the first task at or past `i` whose status is not terminal,
/// or the list's length when every such task is terminal.
pub open spec fn first_open_from(tasks: Seq<Task>, i: int) -> int
    decreases tasks.len() - i,
{
    if i < 0 || i >= tasks.len() {
        tasks.len() as int
    } else if !is_terminal(tasks[i].status) {
        i
    } else {
        first_open_from(tasks, i + 1)
    }
}

/// The index of the next task to settle: the first whose status is not
/// terminal, or the list's length when every task is terminal.
pub open spec fn first_open(tasks: Seq<Task>) -> int {
    first_open_from(tasks, 0)
}

proof fn lemma_first_open_from(tasks: Seq<Task>, i: int)
    requires
        0 <= i <= tasks.len(),
    ensures
        i <= first_open_from(tasks, i) <= tasks.len(),
        forall|j: int|
            i <= j < first_open_from(tasks, i) ==> is_terminal((#[trigger] tasks[j]).status),
        first_open_from(tasks, i) < tasks.len() ==> !is_terminal(
            tasks[first_open_from(tasks, i)].status,
        ),
    decreases tasks.len() - i,
{
    if i < tasks.len() && is_terminal(tasks[i].status) {
        lemma_first_open_from(tasks, i + 1);
    }
}

/// Law: tasks are settled strictly in source order: every task before the
/// next one to settle is terminal, and the next one, where there is one, is
/// not yet terminal.
pub proof fn lemma_first_open_bounds(tasks: Seq<Task>)
    ensures
        0 <= first_open(tasks) <= tasks.len(),
        forall|j: int| 0 <= j < first_open(tasks) ==> is_terminal((#[trigger] tasks[j]).status),
        first_open(tasks) < tasks.len() ==> !is_terminal(tasks[first_open(tasks)].status),
{
    lemma_first_open_from(tasks, 0);
}

/// What the engine asks the driver to do after selecting a task.
#[derive(Debug)]
pub enum NextAction {
    /// Start task `index`: spawn `program` and write `script` to its input.
    Spawn { index: usize, program: String, script: String },
    /// Task `index` was settled without a process being attempted.
    Skipped { index: usize },
    /// Every task is terminal; the run is over.
    Done,
}

/// The engine that builds runs and drives their tasks.
#[derive(Debug)]
pub struct Engine {}

/// One execution of a runbook: the extracted blocks, one task per block in
/// the same order, and the policy the run is driven under.
#[derive(Debug)]
pub struct Run {
    pub blocks: Vec<CodeBlock>,
    pub tasks: Vec<Task>,
    pub policy: ExecutionPolicy,
}

impl Run {
    /// Well-formedness: one task per block, every task's fields consistent,
    /// and tasks settled strictly in order: past a non-terminal task
    /// everything is still pending.
    pub open spec fn wf(self) -> bool {
        &&& self.tasks@.len() == self.blocks@.len()
        &&& forall|i: int| 0 <= i < self.tasks@.len() ==> task_wf(#[trigger] self.tasks@[i])
        &&& forall|i: int, j: int|
            #![trigger self.tasks@[i], self.tasks@[j]]
            0 <= i < j < self.tasks@.len() && !is_terminal(self.tasks@[i].status)
                ==> self.tasks@[j].status is Pending
    }

    /// Whether some task is currently running.
    pub open spec fn has_running(self) -> bool {
        exists|i: int| 0 <= i < self.tasks@.len() && (#[trigger] self.tasks@[i]).status is Running
    }

    /// Whether every task has reached a terminal state.
    pub open spec fn spec_finished(self) -> bool {
        forall|i: int|
            0 <= i < self.tasks@.len() ==> is_terminal((#[trigger] self.tasks@[i]).status)
    }

    /// Whether every task completed; the run's single pass/fail signal.
    pub open spec fn spec_succeeded(self) -> bool {
        forall|i: int| 0 <= i < self.tasks@.len() ==> (#[trigger] self.tasks@[i]).status is Complete
    }
}

impl Engine {
    /// Build a fresh run for a document: one task per extracted code block,
    /// each pending, in the blocks' source order.
    pub fn build_run(book: &Runbook, policy: ExecutionPolicy) -> (r: Run)
        ensures
            r.wf(),
            !r.has_running(),
            r.policy == policy,
            blocks_view(r.blocks@) == spec_code_blocks(book@),
            r.tasks@.len() == r.blocks@.len(),
            forall|i: int| 0 <= i < r.tasks@.len() ==> #[trigger] r.tasks@[i] == pending_task(),
    {
        let blocks = book.code_blocks();
        let n = blocks.len();
        let mut tasks: Vec<Task> = Vec::new();
        while tasks.len() < n
            invariant
                tasks@.len() <= n,
                forall|i: int| 0 <= i < tasks@.len() ==> #[trigger] tasks@[i] == pending_task(),
            decreases n - tasks@.len(),
        {
            tasks.push(
                Task {
                    status: TaskStatus::Pending,
                    exit_code: None,
                    started_at_ms: None,
                    finished_at_ms: None,
                },
            );
        }
        Run { blocks, tasks, policy }
    }
}

fn status_is_terminal(s: TaskStatus) -> (r: bool)
    ensures
        r == is_terminal(s),
{
    match s {
        TaskStatus::Complete => true,
        TaskStatus::Failed(_) => true,
        TaskStatus::Canceled => true,
        _ => false,
    }
}

impl Run {
    /// Cancel the run: the running task, if any, and every pending task move
    /// to `Canceled` with no process spawned for them; tasks already
    /// terminal are left exactly as they were (`lemma_cancel_transitions`).
    pub fn cancel(&mut self, now_ms: u64)
        requires
            old(self).wf(),
        ensures
            final(self).wf(),
            !final(self).has_running(),
            final(self).spec_finished(),
            final(self).policy == old(self).policy,
            final(self).blocks == old(self).blocks,
            final(self).tasks@ == spec_cancel_all(old(self).tasks@, now_ms),
    {
        let n = self.tasks.len();
        let mut i: usize = 0;
        while i < n
            invariant
                i <= n,
                n == self.tasks@.len(),
                self.tasks@.len() == old(self).tasks@.len(),
                self.blocks == old(self).blocks,
                self.policy == old(self).policy,
                forall|j: int| i <= j < n ==> #[trigger] self.tasks@[j] == old(self).tasks@[j],
                forall|j: int|
                    0 <= j < i ==> #[trigger] self.tasks@[j] == spec_cancel_task(
                        old(self).tasks@[j],
                        now_ms,
                    ),
            decreases n - i,
        {
            let t = self.tasks[i];
            if !status_is_terminal(t.status) {
                self.tasks[i] = Task {
                    status: TaskStatus::Canceled,
                    exit_code: t.exit_code,
                    started_at_ms: t.started_at_ms,
                    finished_at_ms: Some(now_ms),
                };
            }
            i += 1;
        }
        proof {
            assert(self.tasks@ =~= spec_cancel_all(old(self).tasks@, now_ms));
            assert forall|j: int| 0 <= j < self.tasks@.len() implies (is_terminal(
                (#[trigger] self.tasks@[j]).status,
            ) && task_wf(self.tasks@[j])) by {
                assert(self.tasks@[j] == spec_cancel_task(old(self).tasks@[j], now_ms));
                assert(task_wf(old(self).tasks@[j]));
            }
        }
    }

    /// Select the next task in source order. A task whose block has a
    /// language tag starts running, and its interpreter program and script
    /// are handed back to spawn; one without a language tag is settled as
    /// `Failed(NoInterpreter)` with no process attempted, and under
    /// fail-fast that failure cancels every task still pending.
    pub fn start_next(&mut self, now_ms: u64) -> (action: NextAction)
        requires
            old(self).wf(),
            !old(self).has_running(),
        ensures
            final(self).wf(),
            final(self).policy == old(self).policy,
            final(self).blocks == old(self).blocks,
            final(self).tasks@.len() == old(self).tasks@.len(),
            final(self).has_running() <==> action is Spawn,
            ({
                let k = first_open(old(self).tasks@);
                &&& k == old(self).tasks@.len() ==> (action is Done && *final(self) == *old(self))
                &&& (k < old(self).tasks@.len() && old(self).blocks@[k].language is Some) ==> ({
                    &&& action matches NextAction::Spawn { index, program, script } && index == k
                        && program@ == old(self).blocks@[k].language->0@ && script@ == old(self).blocks@[k].content@
                    &&& final(self).tasks@ == old(self).tasks@.update(
                        k,
                        Task {
                            status: TaskStatus::Running,
                            exit_code: None,
                            started_at_ms: Some(now_ms),
                            finished_at_ms: None,
                        },
                    )
                })
                &&& (k < old(self).tasks@.len() && old(self).blocks@[k].language is None) ==> ({
                    let failed = old(self).tasks@.update(
                        k,
                        Task {
                            status: TaskStatus::Failed(TaskError::NoInterpreter),
                            exit_code: None,
                            started_at_ms: None,
                            finished_at_ms: Some(now_ms),
                        },
                    );
                    &&& action matches NextAction::Skipped { index } && index == k
                    &&& old(self).policy is FailFast ==> final(self).tasks@ == spec_cancel_all(
                        failed,
                        now_ms,
                    )
                    &&& !(old(self).policy is FailFast) ==> final(self).tasks@ == failed
                })
            }),
    {
        let n = self.tasks.len();
        let mut k: usize = 0;
        while k < n && status_is_terminal(self.tasks[k].status)
            invariant
                k <= n,
                n == self.tasks@.len(),
                *self == *old(self),
                first_open(self.tasks@) == first_open_from(self.tasks@, k as int),
            decreases n - k,
        {
            k += 1;
        }
        if k == n {
            return NextAction::Done;
        }
        proof {
            assert(first_open(self.tasks@) == k as int);
            lemma_first_open_bounds(self.tasks@);
        }
        let has_lang = self.blocks[k].language.is_some();
        if has_lang {
            let program = match &self.blocks[k].language {
                Some(lang) => lang.clone(),
                None => String::new(),
            };
            let script = self.blocks[k].content.clone();
            self.tasks[k] = Task {
                status: TaskStatus::Running,
                exit_code: None,
                started_at_ms: Some(now_ms),
                finished_at_ms: None,
            };
            proof {
                lemma_start_wf(*old(self), *self, k as int);
                assert(self.tasks@[k as int].status is Running);
            }
            NextAction::Spawn { index: k, program, script }
        } else {
            self.tasks[k] = Task {
                status: TaskStatus::Failed(TaskError::NoInterpreter),
                exit_code: None,
                started_at_ms: None,
                finished_at_ms: Some(now_ms),
            };
            proof {
                lemma_settle_wf(*old(self), *self, k as int);
            }
            let fail_fast = match self.policy {
                ExecutionPolicy::FailFast => true,
                _ => false,
            };
            if fail_fast {
                self.cancel(now_ms);
            } else {
                proof {
                    assert forall|i: int|
                        0 <= i < self.tasks@.len() implies !((#[trigger] self.tasks@[i]).status
                        is Running) by {
                        if i != k as int {
                            assert(self.tasks@[i] == old(self).tasks@[i]);
                        }
                    }
                }
            }
            NextAction::Skipped { index: k }
        }
    }

    /// Record how the running task's process work ended and settle that task
    /// per the event: exit status zero completes it, anything else fails it.
    /// Under fail-fast a failure cancels every task still pending.
    pub fn finish_running(&mut self, event: TaskEvent, now_ms: u64)
        requires
            old(self).wf(),
            old(self).has_running(),
        ensures
            final(self).wf(),
            !final(self).has_running(),
            final(self).policy == old(self).policy,
            final(self).blocks == old(self).blocks,
            final(self).tasks@.len() == old(self).tasks@.len(),
            ({
                let r = first_open(old(self).tasks@);
                let settled = old(self).tasks@.update(
                    r,
                    settled_task(old(self).tasks@[r], event, now_ms),
                );
                &&& 0 <= r < old(self).tasks@.len() && old(self).tasks@[r].status is Running
                &&& (old(self).policy is FailFast && event_status(event) is Failed) ==> final(self).tasks@ == spec_cancel_all(settled, now_ms)
                &&& !(old(self).policy is FailFast && event_status(event) is Failed) ==> final(self).tasks@ == settled
            }),
    {
        proof {
            lemma_running_is_first_open(*old(self));
        }
        let n = self.tasks.len();
        let mut r: usize = 0;
        while r < n && status_is_terminal(self.tasks[r].status)
            invariant
                r <= n,
                n == self.tasks@.len(),
                *self == *old(self),
                first_open(self.tasks@) == first_open_from(self.tasks@, r as int),
            decreases n - r,
        {
            r += 1;
        }
        if r == n {
            proof {
                assert(first_open(self.tasks@) == n as int);
                assert(false);
            }
            return ;
        }
        proof {
            assert(first_open(self.tasks@) == r as int);
            assert(self.tasks@[r as int].status is Running);
        }
        let started = self.tasks[r].started_at_ms;
        let (status, exit_code) = settle_event(event);
        self.tasks[r] = Task {
            status,
            exit_code,
            started_at_ms: started,
            finished_at_ms: Some(now_ms),
        };
        proof {
            lemma_settle_wf(*old(self), *self, r as int);
        }
        let fail_fast = match self.policy {
            ExecutionPolicy::FailFast => true,
            _ => false,
        };
        let failed = match status {
            TaskStatus::Failed(_) => true,
            _ => false,
        };
        if fail_fast && failed {
            self.cancel(now_ms);
        } else {
            proof {
                assert forall|i: int|
                    0 <= i < self.tasks@.len() implies !((#[trigger] self.tasks@[i]).status
                    is Running) by {
                    if i != r as int {
                        assert(self.tasks@[i] == old(self).tasks@[i]);
                        if (r as int) < i {
                            assert(old(self).tasks@[i].status is Pending);
                        } else {
                            assert(is_terminal(old(self).tasks@[i].status));
                        }
                    }
                }
            }
        }
    }

    /// Whether every task has reached a terminal state.
    pub fn is_finished(&self) -> (r: bool)
        ensures
            r == self.spec_finished(),
    {
        let n = self.tasks.len();
        let mut i: usize = 0;
        while i < n
            invariant
                i <= n,
                n == self.tasks@.len(),
                forall|j: int| 0 <= j < i ==> is_terminal((#[trigger] self.tasks@[j]).status),
            decreases n - i,
        {
            if !status_is_terminal(self.tasks[i].status) {
                return false;
            }
            i += 1;
        }
        true
    }

    /// The run's single pass/fail signal: true exactly when every task
    /// completed.
    pub fn succeeded(&self) -> (r: bool)
        ensures
            r == self.spec_succeeded(),
    {
        let n = self.tasks.len();
        let mut i: usize = 0;
        while i < n
            invariant
                i <= n,
                n == self.tasks@.len(),
                forall|j: int| 0 <= j < i ==> (#[trigger] self.tasks@[j]).status is Complete,
            decreases n - i,
        {
            let complete = match self.tasks[i].status {
                TaskStatus::Complete => true,
                _ => false,
            };
            if !complete {
                return false;
            }
            i += 1;
        }
        true
    }
}

/// In a well-formed run with a running task, the running task is exactly the
/// first non-terminal one.
proof fn lemma_running_is_first_open(run: Run)
    requires
        run.wf(),
        run.has_running(),
    ensures
        0 <= first_open(run.tasks@) < run.tasks@.len(),
        run.tasks@[first_open(run.tasks@)].status is Running,
{
    lemma_first_open_bounds(run.tasks@);
    let w = choose|i: int|
        0 <= i < run.tasks@.len() && (#[trigger] run.tasks@[i]).status is Running;
    let k = first_open(run.tasks@);
    assert(!is_terminal(run.tasks@[w].status));
    assert(k <= w);
    if k < w {
        assert(run.tasks@[w].status is Pending);
    }
}

/// Replacing the first non-terminal task with a running one keeps the run
/// well-formed.
proof fn lemma_start_wf(before: Run, after: Run, k: int)
    requires
        before.wf(),
        0 <= k < before.tasks@.len(),
        k == first_open(before.tasks@),
        after.blocks == before.blocks,
        after.tasks@ == before.tasks@.update(
            k,
            Task {
                status: TaskStatus::Running,
                exit_code: None,
                started_at_ms: after.tasks@[k].started_at_ms,
                finished_at_ms: None,
            },
        ),
        after.tasks@[k].started_at_ms is Some,
    ensures
        after.wf(),
{
    lemma_first_open_bounds(before.tasks@);
    assert forall|i: int| 0 <= i < after.tasks@.len() implies task_wf(
        #[trigger] after.tasks@[i],
    ) by {
        if i != k {
            assert(after.tasks@[i] == before.tasks@[i]);
        }
    }
    assert forall|i: int, j: int|
        #![trigger after.tasks@[i], after.tasks@[j]]
        0 <= i < j < after.tasks@.len() && !is_terminal(after.tasks@[i].status) implies after
        .tasks@[j].status is Pending by {
        if i != k {
            assert(after.tasks@[i] == before.tasks@[i]);
        }
        if j != k {
            assert(after.tasks@[j] == before.tasks@[j]);
        }
        if j == k {
            assert(i < k);
            assert(is_terminal(before.tasks@[i].status));
        }
    }
}

/// Replacing the first non-terminal task with a settled (terminal,
/// well-formed) one keeps the run well-formed.
proof fn lemma_settle_wf(before: Run, after: Run, k: int)
    requires
        before.wf(),
        0 <= k < before.tasks@.len(),
        k == first_open(before.tasks@),
        after.blocks == before.blocks,
        after.tasks@ == before.tasks@.update(k, after.tasks@[k]),
        is_terminal(after.tasks@[k].status),
        task_wf(after.tasks@[k]),
    ensures
        after.wf(),
{
    lemma_first_open_bounds(before.tasks@);
    assert forall|i: int| 0 <= i < after.tasks@.len() implies task_wf(
        #[trigger] after.tasks@[i],
    ) by {
        if i != k {
            assert(after.tasks@[i] == before.tasks@[i]);
        }
    }
    assert forall|i: int, j: int|
        #![trigger after.tasks@[i], after.tasks@[j]]
        0 <= i < j < after.tasks@.len() && !is_terminal(after.tasks@[i].status) implies after
        .tasks@[j].status is Pending by {
        assert(i != k);
        assert(after.tasks@[i] == before.tasks@[i]);
        if j != k {
            assert(after.tasks@[j] == before.tasks@[j]);
        }
        if j == k {
            assert(i < k);
            assert(is_terminal(before.tasks@[i].status));
        }
    }
}


/// The aggregate outcome of one run: the single pass/fail signal, each
/// task's outcome in source order, and the run's total duration.
#[derive(Debug)]
pub struct RunResult {
    /// True exactly when every task completed.
    pub complete: bool,
    /// Each task's status, in source order.
    pub statuses: Vec<TaskStatus>,
    /// Milliseconds from the earliest task start to the latest task end;
    /// zero when nothing has both started and ended.
    pub total_duration_ms: u64,
}

/// The earliest recorded task start time, where any task has one.
pub open spec fn spec_earliest_start(tasks: Seq<Task>) -> Option<u64>
    decreases tasks.len(),
{
    if tasks.len() == 0 {
        None
    } else {
        match (spec_earliest_start(tasks.drop_last()), tasks.last().started_at_ms) {
            (Some(a), Some(b)) => if a <= b {
                Some(a)
            } else {
                Some(b)
            },
            (Some(a), None) => Some(a),
            (None, b) => b,
        }
    }
}

/// The latest recorded task end time, where any task has one.
pub open spec fn spec_latest_finish(tasks: Seq<Task>) -> Option<u64>
    decreases tasks.len(),
{
    if tasks.len() == 0 {
        None
    } else {
        match (spec_latest_finish(tasks.drop_last()), tasks.last().finished_at_ms) {
            (Some(a), Some(b)) => if a <= b {
                Some(b)
            } else {
                Some(a)
            },
            (Some(a), None) => Some(a),
            (None, b) => b,
        }
    }
}

/// The run's total duration: latest end minus earliest start, or zero when
/// either is missing or the clock went backwards.
pub open spec fn spec_total_duration(tasks: Seq<Task>) -> u64 {
    match (spec_earliest_start(tasks), spec_latest_finish(tasks)) {
        (Some(a), Some(b)) => if a <= b {
            (b - a) as u64
        } else {
            0
        },
        _ => 0,
    }
}

impl Run {
    /// Aggregate the run into its result: the pass/fail conjunction of all
    /// task outcomes, the ordered per-task statuses, and the total duration.
    pub fn result(&self) -> (r: RunResult)
        ensures
            r.complete == self.spec_succeeded(),
            r.statuses@ == self.tasks@.map_values(|t: Task| t.status),
            r.total_duration_ms == spec_total_duration(self.tasks@),
    {
        let complete = self.succeeded();
        let n = self.tasks.len();
        let mut statuses: Vec<TaskStatus> = Vec::new();
        let mut earliest: Option<u64> = None;
        let mut latest: Option<u64> = None;
        let mut i: usize = 0;
        proof {
            assert(self.tasks@.take(0) =~= Seq::<Task>::empty());
        }
        while i < n
            invariant
                i <= n,
                n == self.tasks@.len(),
                statuses@ == self.tasks@.take(i as int).map_values(|t: Task| t.status),
                earliest == spec_earliest_start(self.tasks@.take(i as int)),
                latest == spec_latest_finish(self.tasks@.take(i as int)),
            decreases n - i,
        {
            proof {
                assert(self.tasks@.take(i + 1).drop_last() =~= self.tasks@.take(i as int));
                assert(self.tasks@.take(i + 1).last() == self.tasks@[i as int]);
                assert(self.tasks@.take(i + 1).map_values(|t: Task| t.status) =~= self
                    .tasks@.take(i as int).map_values(|t: Task| t.status).push(
                    self.tasks@[i as int].status,
                ));
            }
            let t = self.tasks[i];
            statuses.push(t.status);
            earliest = match (earliest, t.started_at_ms) {
                (Some(a), Some(b)) => if a <= b {
                    Some(a)
                } else {
                    Some(b)
                },
                (Some(a), None) => Some(a),
                (None, b) => b,
            };
            latest = match (latest, t.finished_at_ms) {
                (Some(a), Some(b)) => if a <= b {
                    Some(b)
                } else {
                    Some(a)
                },
                (Some(a), None) => Some(a),
                (None, b) => b,
            };
            i += 1;
        }
        proof {
            assert(self.tasks@.take(n as int) =~= self.tasks@);
        }
        let total_duration_ms = match (earliest, latest) {
            (Some(a), Some(b)) => if a <= b {
                b - a
            } else {
                0
            },
            _ => 0,
        };
        RunResult { complete, statuses, total_duration_ms }
    }
}

fn settle_event(event: TaskEvent) -> (r: (TaskStatus, Option<i32>))
    ensures
        r.0 == event_status(event),
        r.1 == event_exit_code(event),
{
    match event {
        TaskEvent::Exited(code) => if code == 0 {
            (TaskStatus::Complete, Some(code))
        } else {
            (TaskStatus::Failed(TaskError::NonZeroExit(code)), Some(code))
        },
        TaskEvent::SpawnFailed => (TaskStatus::Failed(TaskError::SpawnFailed), None),
        TaskEvent::InputWriteFailed => (TaskStatus::Failed(TaskError::InputWriteFailed), None),
    }
}

} // verus!
