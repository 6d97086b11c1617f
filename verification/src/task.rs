//! The task model: one unit of sandbox work, its precondition tasks, and
//! the outcome of running it.

use vstd::prelude::*;

verus! {

/// The kind of container-lifecycle operation a task performs. The payload
/// names the artifact the operation works on: a source reference for an
/// image build, an image reference for container creation, a container
/// reference for starting or removing a container.
pub enum TaskTypes {
    CreateImage(String),
    StartContainer(String),
    RemoveContainer(String),
    CreateContainer(String),
}

/// Spec-level value of a task kind, with the payload as a character sequence.
pub enum TaskKindView {
    CreateImage(Seq<char>),
    StartContainer(Seq<char>),
    RemoveContainer(Seq<char>),
    CreateContainer(Seq<char>),
}

impl View for TaskTypes {
    type V = TaskKindView;

    open spec fn view(&self) -> TaskKindView {
        match self {
            TaskTypes::CreateImage(s) => TaskKindView::CreateImage(s@),
            TaskTypes::StartContainer(s) => TaskKindView::StartContainer(s@),
            TaskTypes::RemoveContainer(s) => TaskKindView::RemoveContainer(s@),
            TaskTypes::CreateContainer(s) => TaskKindView::CreateContainer(s@),
        }
    }
}

/// Outcome of running a task. `InvalidArguments` marks a malformed task
/// payload; `Failed` carries the reason for a build, run, or
/// infrastructure error.
pub enum TaskResult {
    Completed,
    InvalidArguments(String),
    Failed(String),
}

/// Spec-level value of a task result.
pub enum TaskResultView {
    Completed,
    InvalidArguments(Seq<char>),
    Failed(Seq<char>),
}

impl View for TaskResult {
    type V = TaskResultView;

    open spec fn view(&self) -> TaskResultView {
        match self {
            TaskResult::Completed => TaskResultView::Completed,
            TaskResult::InvalidArguments(s) => TaskResultView::InvalidArguments(s@),
            TaskResult::Failed(s) => TaskResultView::Failed(s@),
        }
    }
}

/// Spec-level value of a task: its identifier, kind, and the identifiers
/// of the tasks that must complete before it may run.
#[verifier::ext_equal]
pub struct TaskView {
    pub id: u64,
    pub kind: TaskKindView,
    pub deps: Seq<u64>,
}

/// One unit of sandbox work. Tasks are dependency nodes: two tasks with
/// identical kind are still distinct, so each task carries an identifier
/// and dependencies reference identifiers, never task values.
pub struct Task {
    pub id: u64,
    pub task_type: TaskTypes,
    pub dependencies: Vec<u64>,
}

impl View for Task {
    type V = TaskView;

    open spec fn view(&self) -> TaskView {
        TaskView { id: self.id, kind: self.task_type@, deps: self.dependencies@ }
    }
}

/// `deps` with every occurrence of `dep` removed; the order of the other
/// entries is kept.
pub open spec fn deps_without(deps: Seq<u64>, dep: u64) -> Seq<u64>
    decreases deps.len(),
{
    if deps.len() == 0 {
        Seq::empty()
    } else {
        let rest = deps_without(deps.drop_last(), dep);
        if deps.last() == dep {
            rest
        } else {
            rest.push(deps.last())
        }
    }
}

/// What removal of one identifier does to a dependency list: `dep` is
/// gone, every other identifier is kept, and the list never grows.
pub proof fn lemma_deps_without(deps: Seq<u64>, dep: u64)
    ensures
        !deps_without(deps, dep).contains(dep),
        forall|d: u64| d != dep ==> (deps_without(deps, dep).contains(d) <==> deps.contains(d)),
        deps_without(deps, dep).len() <= deps.len(),
        !deps.contains(dep) ==> deps_without(deps, dep) == deps,
    decreases deps.len(),
{
    if deps.len() > 0 {
        let prefix = deps.drop_last();
        lemma_deps_without(prefix, dep);
        assert(deps =~= prefix.push(deps.last()));
        assert forall|d: u64| deps.contains(d) implies prefix.contains(d) || deps.last() == d by {
            let i = choose|i: int| 0 <= i < deps.len() && deps[i] == d;
            if i < deps.len() - 1 {
                assert(prefix[i] == d);
            }
        }
        assert forall|d: u64| prefix.contains(d) implies deps.contains(d) by {
            let i = choose|i: int| 0 <= i < prefix.len() && prefix[i] == d;
            assert(deps[i] == d);
        }
        let res = deps_without(deps, dep);
        let rest = deps_without(prefix, dep);
        if deps.last() != dep {
            assert forall|d: u64| res.contains(d) implies rest.contains(d) || deps.last() == d by {
                let i = choose|i: int| 0 <= i < res.len() && res[i] == d;
                if i < res.len() - 1 {
                    assert(rest[i] == d);
                }
            }
            assert forall|d: u64| rest.contains(d) implies res.contains(d) by {
                let i = choose|i: int| 0 <= i < rest.len() && rest[i] == d;
                assert(res[i] == d);
            }
            assert(res.contains(deps.last())) by {
                assert(res[res.len() - 1] == deps.last());
            }
            if !deps.contains(dep) {
                assert(res =~= deps);
            }
        }
    }
}

impl Task {
    /// A fresh task of the given kind with no dependencies.
    pub fn new(id: u64, task_type: TaskTypes) -> (t: Task)
        ensures
            t@.id == id,
            t@.kind == task_type@,
            t@.deps == Seq::<u64>::empty(),
    {
        Task { id, task_type, dependencies: Vec::new() }
    }

    /// Record that the task with identifier `dep` must complete first.
    pub fn add_dependency(&mut self, dep: u64)
        ensures
            final(self)@ == (TaskView { deps: old(self)@.deps.push(dep), ..old(self)@ }),
    {
        self.dependencies.push(dep);
        proof {
            assert(self@ =~= (TaskView { deps: old(self)@.deps.push(dep), ..old(self)@ }));
        }
    }

    /// Drop every dependency on the task with identifier `dep`, keeping
    /// the order of the rest.
    pub fn remove_dependency(&mut self, dep: u64)
        ensures
            final(self)@ == (TaskView { deps: deps_without(old(self)@.deps, dep), ..old(self)@ }),
    {
        let mut kept: Vec<u64> = Vec::new();
        let mut i: usize = 0;
        let n = self.dependencies.len();
        while i < n
            invariant
                i <= n,
                n == self.dependencies.len(),
                self.dependencies@ == old(self).dependencies@,
                self.id == old(self).id,
                self.task_type == old(self).task_type,
                kept@ == deps_without(self.dependencies@.take(i as int), dep),
            decreases n - i,
        {
            let d = self.dependencies[i];
            proof {
                assert(self.dependencies@.take(i as int + 1).drop_last() =~= self.dependencies@
                    .take(i as int));
                assert(self.dependencies@.take(i as int + 1).last() == d);
            }
            if d != dep {
                kept.push(d);
            }
            i = i + 1;
        }
        proof {
            assert(self.dependencies@.take(n as int) =~= self.dependencies@);
        }
        self.dependencies = kept;
        proof {
            assert(self@ =~= (TaskView {
                deps: deps_without(old(self)@.deps, dep),
                ..old(self)@
            }));
        }
    }
}

} // verus!
