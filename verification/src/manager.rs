//! The task manager: the one consumer of the queue. Producers submit
//! tasks; the manager's loop (which lives outside this crate) polls
//! `run_next` for a runnable task, hands it to a worker, and records the
//! worker's result through the classification functions here.

use vstd::prelude::*;

use crate::models::{is_terminal, Buildstatus};
use crate::queue::{dequeue_post, view_opt, Queue};
use crate::task::{TaskResult, TaskResultView, TaskView};

verus! {

/// The manager's task store: the shared queue it alone dequeues from.
pub struct TaskManager {
    pub tasks: Queue,
}

impl TaskManager {
    /// A manager with nothing pending.
    pub fn new() -> (m: TaskManager)
        ensures
            m.tasks@ == Seq::<TaskView>::empty(),
    {
        TaskManager { tasks: Queue::new() }
    }

    /// Accept one submitted task: appended at the queue's tail.
    pub fn add_task(&mut self, task: crate::task::Task)
        ensures
            final(self).tasks@ == old(self).tasks@.push(task@),
    {
        self.tasks.enqueue(task);
    }

    /// Pop the next runnable task, if any, propagating its completion to
    /// the dependency sets of the tasks left behind. The caller executes
    /// the task outside the queue's critical section.
    pub fn run_next(&mut self) -> (r: Option<crate::task::Task>)
        ensures
            dequeue_post(old(self).tasks@, final(self).tasks@, view_opt(r)),
    {
        self.tasks.dequeue_next_runnable()
    }
}

/// How loudly a task result is logged: completions are routine, failures
/// are warnings, malformed tasks are errors.
#[derive(Clone, Copy, PartialEq, Eq, Structural, Debug)]
pub enum Severity {
    Info,
    Warn,
    Error,
}

/// The log severity for each result.
pub open spec fn severity_of(r: TaskResultView) -> Severity {
    match r {
        TaskResultView::Completed => Severity::Info,
        TaskResultView::Failed(_) => Severity::Warn,
        TaskResultView::InvalidArguments(_) => Severity::Error,
    }
}

/// Classify a result for the log.
pub fn result_severity(result: &TaskResult) -> (s: Severity)
    ensures
        s == severity_of(result@),
{
    match result {
        TaskResult::Completed => Severity::Info,
        TaskResult::Failed(_) => Severity::Warn,
        TaskResult::InvalidArguments(_) => Severity::Error,
    }
}

/// The persisted status a build task's result maps to.
pub open spec fn status_of_result(r: TaskResultView) -> Buildstatus {
    match r {
        TaskResultView::Completed => Buildstatus::Done,
        TaskResultView::Failed(_) => Buildstatus::Failed,
        TaskResultView::InvalidArguments(_) => Buildstatus::Failed,
    }
}

/// The status written back for a build task's result: `Done` exactly on
/// completion, `Failed` for failures and malformed tasks alike, and
/// always a terminal status — a recorded result never moves a file back
/// to a non-terminal state.
pub fn status_for_result(result: &TaskResult) -> (s: Buildstatus)
    ensures
        s == status_of_result(result@),
        is_terminal(s),
        (result@ is Completed <==> s == Buildstatus::Done),
{
    match result {
        TaskResult::Completed => Buildstatus::Done,
        TaskResult::Failed(_) => Buildstatus::Failed,
        TaskResult::InvalidArguments(_) => Buildstatus::Failed,
    }
}

/// Whether a failed status write should be tried again: one retry on a
/// transient failure, then give up and surface an internal error.
pub fn should_retry_status_write(attempts_made: u32) -> (b: bool)
    ensures
        b == (attempts_made < 2),
{
    attempts_made < 2
}

/// A unit of executable sandbox work, for the process around the crate
/// to box and run on a worker; each implementation fixes what its run
/// returns.
pub trait Task {
    /// The result a run of the task gives back.
    spec fn expected_result(&self) -> TaskResultView;

    /// Perform the work.
    fn run(&self) -> (r: TaskResult)
        ensures
            r@ == self.expected_result(),
    ;
}

/// A task that does nothing and completes: the smallest exercise of the
/// manager's dispatch path.
pub struct ExampleTask {}

impl Task for ExampleTask {
    open spec fn expected_result(&self) -> TaskResultView {
        TaskResultView::Completed
    }

    fn run(&self) -> (r: TaskResult) {
        TaskResult::Completed
    }
}

impl ExampleTask {
    /// A fresh no-op task.
    pub fn new() -> (t: ExampleTask)
        ensures
            t.expected_result() == TaskResultView::Completed,
    {
        ExampleTask {  }
    }
}

/// The work of building an image for one stored file.
pub struct BuildImageTask {
    pub file_id: u128,
}

impl Task for BuildImageTask {
    open spec fn expected_result(&self) -> TaskResultView {
        TaskResultView::Completed
    }

    fn run(&self) -> (r: TaskResult) {
        TaskResult::Completed
    }
}

impl BuildImageTask {
    /// A build task for the stored file with the given identifier.
    pub fn new(file_id: u128) -> (t: BuildImageTask)
        ensures
            t.file_id == file_id,
    {
        BuildImageTask { file_id }
    }
}

} // verus!
