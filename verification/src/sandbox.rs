//! The sandbox build-and-run protocol for one submission: build an image
//! from stored source, create a container from it under a restrictive
//! profile, run it within a time budget, and always clean up, whichever
//! step failed. The chain is a state machine; the process around it
//! performs each requested action against the container runtime and
//! reports what happened back into `step`.

use vstd::prelude::*;

use crate::models::{valid_transition, Buildstatus};
use crate::task::{TaskResult, TaskResultView};

verus! {

/// Where a chain stands: the three work steps in order, then the one
/// cleanup pass, then done.
#[derive(Clone, Copy, PartialEq, Eq, Structural, Debug)]
pub enum Phase {
    BuildingImage,
    CreatingContainer,
    RunningContainer,
    CleaningUp,
    Finished,
}

/// Order of the phases along any chain; every step moves strictly
/// forward, so no phase is ever revisited.
pub open spec fn phase_rank(p: Phase) -> int {
    match p {
        Phase::BuildingImage => 0,
        Phase::CreatingContainer => 1,
        Phase::RunningContainer => 2,
        Phase::CleaningUp => 3,
        Phase::Finished => 4,
    }
}

/// What the runtime reported for one performed action. `TimedOut` is
/// reported only for the run step: the wall-clock budget is the one
/// timeout in the protocol.
pub enum StepEvent {
    Succeeded,
    Failed(String),
    TimedOut,
}

/// Spec-level value of a step event.
pub enum StepEventView {
    Succeeded,
    Failed(Seq<char>),
    TimedOut,
}

impl View for StepEvent {
    type V = StepEventView;

    open spec fn view(&self) -> StepEventView {
        match self {
            StepEvent::Succeeded => StepEventView::Succeeded,
            StepEvent::Failed(s) => StepEventView::Failed(s@),
            StepEvent::TimedOut => StepEventView::TimedOut,
        }
    }
}

/// The action the process must perform next for a chain in a given
/// phase.
#[derive(Clone, Copy, PartialEq, Eq, Structural, Debug)]
pub enum SandboxAction {
    BuildImage,
    CreateContainer,
    StartContainer,
    Cleanup,
    Report,
}

/// The restrictive execution profile a container is created with: no
/// network, no root, a read-only root filesystem, and positive CPU,
/// memory and wall-clock bounds.
#[derive(Clone, Copy, PartialEq, Eq, Structural, Debug)]
pub struct SandboxProfile {
    pub network_enabled: bool,
    pub run_as_root: bool,
    pub read_only_root: bool,
    pub cpu_limit_millis: u64,
    pub memory_limit_bytes: u64,
    pub time_limit_millis: u64,
}

impl SandboxProfile {
    /// The profile is actually restrictive.
    pub open spec fn wf(self) -> bool {
        &&& !self.network_enabled
        &&& !self.run_as_root
        &&& self.read_only_root
        &&& self.cpu_limit_millis > 0
        &&& self.memory_limit_bytes > 0
        &&& self.time_limit_millis > 0
    }

    /// The only constructor: every profile built here is restrictive.
    pub fn restricted(cpu_limit_millis: u64, memory_limit_bytes: u64, time_limit_millis: u64)
        -> (p: SandboxProfile)
        requires
            cpu_limit_millis > 0,
            memory_limit_bytes > 0,
            time_limit_millis > 0,
        ensures
            p.wf(),
            p.cpu_limit_millis == cpu_limit_millis,
            p.memory_limit_bytes == memory_limit_bytes,
            p.time_limit_millis == time_limit_millis,
    {
        SandboxProfile {
            network_enabled: false,
            run_as_root: false,
            read_only_root: true,
            cpu_limit_millis,
            memory_limit_bytes,
            time_limit_millis,
        }
    }
}

/// The reason recorded when the run step exceeds its wall-clock budget.
pub open spec fn timeout_reason() -> Seq<char> {
    "container run exceeded its time budget"@
}

/// Spec-level value of a chain.
#[verifier::ext_equal]
pub struct ChainView {
    pub file_id: u128,
    pub source_ref: Seq<char>,
    pub profile: SandboxProfile,
    pub phase: Phase,
    pub image_built: bool,
    pub container_created: bool,
    pub status: Buildstatus,
    pub outcome: Option<TaskResultView>,
}

impl ChainView {
    /// Well-formedness along the protocol: resources are acquired in
    /// order, the outcome is decided exactly when work ends, the
    /// persisted status is `Started` while the chain is live and
    /// matches the outcome once it is finished, and the profile is
    /// restrictive throughout.
    pub open spec fn wf(self) -> bool {
        &&& self.profile.wf()
        &&& match self.phase {
            Phase::BuildingImage => {
                &&& !self.image_built
                &&& !self.container_created
                &&& self.status == Buildstatus::Started
                &&& self.outcome is None
            },
            Phase::CreatingContainer => {
                &&& self.image_built
                &&& !self.container_created
                &&& self.status == Buildstatus::Started
                &&& self.outcome is None
            },
            Phase::RunningContainer => {
                &&& self.image_built
                &&& self.container_created
                &&& self.status == Buildstatus::Started
                &&& self.outcome is None
            },
            Phase::CleaningUp => {
                &&& self.outcome is Some
                &&& self.status == Buildstatus::Started
            },
            Phase::Finished => {
                &&& self.outcome is Some
                &&& (self.outcome == Some(TaskResultView::Completed) ==> self.status
                    == Buildstatus::Done)
                &&& (self.outcome != Some(TaskResultView::Completed) ==> self.status
                    == Buildstatus::Failed)
            },
        }
    }

    /// Which events a chain can take: nothing steps a finished chain,
    /// and only the run step can time out.
    pub open spec fn event_allowed(self, ev: StepEventView) -> bool {
        &&& self.phase != Phase::Finished
        &&& (ev is TimedOut ==> self.phase == Phase::RunningContainer)
    }

    /// The transition function of the protocol. A failure in any work
    /// step decides the outcome and goes straight to cleanup; success in
    /// the run step decides `Completed` and also goes to cleanup; the
    /// cleanup pass finishes the chain and fixes the persisted status
    /// from the already-decided outcome, whatever the cleanup event was.
    pub open spec fn spec_step(self, ev: StepEventView) -> ChainView {
        match self.phase {
            Phase::BuildingImage => match ev {
                StepEventView::Succeeded => ChainView {
                    phase: Phase::CreatingContainer,
                    image_built: true,
                    ..self
                },
                StepEventView::Failed(r) => ChainView {
                    phase: Phase::CleaningUp,
                    outcome: Some(TaskResultView::Failed(r)),
                    ..self
                },
                StepEventView::TimedOut => self,
            },
            Phase::CreatingContainer => match ev {
                StepEventView::Succeeded => ChainView {
                    phase: Phase::RunningContainer,
                    container_created: true,
                    ..self
                },
                StepEventView::Failed(r) => ChainView {
                    phase: Phase::CleaningUp,
                    outcome: Some(TaskResultView::Failed(r)),
                    ..self
                },
                StepEventView::TimedOut => self,
            },
            Phase::RunningContainer => match ev {
                StepEventView::Succeeded => ChainView {
                    phase: Phase::CleaningUp,
                    outcome: Some(TaskResultView::Completed),
                    ..self
                },
                StepEventView::Failed(r) => ChainView {
                    phase: Phase::CleaningUp,
                    outcome: Some(TaskResultView::Failed(r)),
                    ..self
                },
                StepEventView::TimedOut => ChainView {
                    phase: Phase::CleaningUp,
                    outcome: Some(TaskResultView::Failed(timeout_reason())),
                    ..self
                },
            },
            Phase::CleaningUp => ChainView {
                phase: Phase::Finished,
                status: if self.outcome == Some(TaskResultView::Completed) {
                    Buildstatus::Done
                } else {
                    Buildstatus::Failed
                },
                ..self
            },
            Phase::Finished => self,
        }
    }
}

/// One build-and-run chain for one submission.
pub struct SandboxChain {
    pub file_id: u128,
    pub source_ref: String,
    pub profile: SandboxProfile,
    pub phase: Phase,
    pub image_built: bool,
    pub container_created: bool,
    pub status: Buildstatus,
    pub outcome: Option<TaskResult>,
}

impl View for SandboxChain {
    type V = ChainView;

    open spec fn view(&self) -> ChainView {
        ChainView {
            file_id: self.file_id,
            source_ref: self.source_ref@,
            profile: self.profile,
            phase: self.phase,
            image_built: self.image_built,
            container_created: self.container_created,
            status: self.status,
            outcome: match self.outcome {
                Some(ref r) => Some(r@),
                None => None,
            },
        }
    }
}

impl SandboxChain {
    /// Open a chain for one submission: the build begins, so the
    /// persisted status moves from `NotStarted` to `Started` — the one
    /// transition into `Started` the protocol ever requests.
    pub fn begin(file_id: u128, source_ref: String, profile: SandboxProfile) -> (c: SandboxChain)
        requires
            profile.wf(),
        ensures
            c@.wf(),
            c@.file_id == file_id,
            c@.source_ref == source_ref@,
            c@.profile == profile,
            c@.phase == Phase::BuildingImage,
            c@.status == Buildstatus::Started,
            valid_transition(Buildstatus::NotStarted, c@.status),
            c@.outcome is None,
            !c@.image_built,
            !c@.container_created,
    {
        SandboxChain {
            file_id,
            source_ref,
            profile,
            phase: Phase::BuildingImage,
            image_built: false,
            container_created: false,
            status: Buildstatus::Started,
            outcome: None,
        }
    }

    /// The action the process must perform for the current phase.
    pub fn next_action(&self) -> (a: SandboxAction)
        ensures
            a == (match self@.phase {
                Phase::BuildingImage => SandboxAction::BuildImage,
                Phase::CreatingContainer => SandboxAction::CreateContainer,
                Phase::RunningContainer => SandboxAction::StartContainer,
                Phase::CleaningUp => SandboxAction::Cleanup,
                Phase::Finished => SandboxAction::Report,
            }),
    {
        match self.phase {
            Phase::BuildingImage => SandboxAction::BuildImage,
            Phase::CreatingContainer => SandboxAction::CreateContainer,
            Phase::RunningContainer => SandboxAction::StartContainer,
            Phase::CleaningUp => SandboxAction::Cleanup,
            Phase::Finished => SandboxAction::Report,
        }
    }

    /// Advance the chain by one reported event.
    pub fn step(&mut self, event: StepEvent)
        requires
            old(self)@.wf(),
            old(self)@.event_allowed(event@),
        ensures
            final(self)@ == old(self)@.spec_step(event@),
            final(self)@.wf(),
            event@ is TimedOut ==> final(self)@.phase == Phase::CleaningUp && final(self)@.outcome
                == Some(TaskResultView::Failed(timeout_reason())),
    {
        let ph = self.phase;
        match ph {
            Phase::BuildingImage => match event {
                StepEvent::Succeeded => {
                    self.phase = Phase::CreatingContainer;
                    self.image_built = true;
                },
                StepEvent::Failed(r) => {
                    self.outcome = Some(TaskResult::Failed(r));
                    self.phase = Phase::CleaningUp;
                },
                StepEvent::TimedOut => {
                    proof {
                        assert(false);
                    }
                },
            },
            Phase::CreatingContainer => match event {
                StepEvent::Succeeded => {
                    self.phase = Phase::RunningContainer;
                    self.container_created = true;
                },
                StepEvent::Failed(r) => {
                    self.outcome = Some(TaskResult::Failed(r));
                    self.phase = Phase::CleaningUp;
                },
                StepEvent::TimedOut => {
                    proof {
                        assert(false);
                    }
                },
            },
            Phase::RunningContainer => match event {
                StepEvent::Succeeded => {
                    self.outcome = Some(TaskResult::Completed);
                    self.phase = Phase::CleaningUp;
                },
                StepEvent::Failed(r) => {
                    self.outcome = Some(TaskResult::Failed(r));
                    self.phase = Phase::CleaningUp;
                },
                StepEvent::TimedOut => {
                    let reason = "container run exceeded its time budget".to_owned();
                    self.outcome = Some(TaskResult::Failed(reason));
                    self.phase = Phase::CleaningUp;
                },
            },
            Phase::CleaningUp => {
                let done = match &self.outcome {
                    Some(TaskResult::Completed) => true,
                    _ => false,
                };
                self.status = if done {
                    Buildstatus::Done
                } else {
                    Buildstatus::Failed
                };
                self.phase = Phase::Finished;
            },
            Phase::Finished => {
                proof {
                    assert(false);
                }
            },
        }
        proof {
            assert(self@ =~= old(self)@.spec_step(event@));
        }
    }
}

/// One chain state can follow another when some allowed event takes the
/// first to the second.
pub open spec fn steps_to(pre: ChainView, post: ChainView) -> bool {
    exists|ev: StepEventView| pre.event_allowed(ev) && post == pre.spec_step(ev)
}

/// A complete or partial history of one chain, from its beginning,
/// each state followed by a successor under some allowed event.
pub open spec fn chain_trace(tr: Seq<ChainView>) -> bool {
    &&& tr.len() > 0
    &&& tr[0].wf()
    &&& tr[0].phase == Phase::BuildingImage
    &&& forall|i: int| 0 <= i < tr.len() - 1 ==> steps_to(#[trigger] tr[i], tr[i + 1])
}

/// What one allowed step preserves and forces: well-formedness, strictly
/// forward phase movement, a decided outcome never changing, the status
/// unchanged except for the one valid transition out of `Started` taken
/// by the cleanup pass, and `Finished` reachable only from `CleaningUp`.
pub proof fn lemma_step_properties(pre: ChainView, ev: StepEventView)
    requires
        pre.wf(),
        pre.event_allowed(ev),
    ensures
        ({
            let post = pre.spec_step(ev);
            &&& post.wf()
            &&& phase_rank(post.phase) > phase_rank(pre.phase)
            &&& (pre.outcome is Some ==> post.outcome == pre.outcome)
            &&& (pre.phase != Phase::CleaningUp ==> post.status == pre.status)
            &&& (pre.phase == Phase::CleaningUp ==> valid_transition(pre.status, post.status))
            &&& (post.phase == Phase::Finished ==> pre.phase == Phase::CleaningUp)
        }),
{
}

/// The same properties for a pair of trace-adjacent states.
pub proof fn lemma_steps_to_properties(pre: ChainView, post: ChainView)
    requires
        pre.wf(),
        steps_to(pre, post),
    ensures
        post.wf(),
        phase_rank(post.phase) > phase_rank(pre.phase),
        pre.outcome is Some ==> post.outcome == pre.outcome,
        pre.phase != Phase::CleaningUp ==> post.status == pre.status,
        pre.phase == Phase::CleaningUp ==> valid_transition(pre.status, post.status),
        post.phase == Phase::Finished ==> pre.phase == Phase::CleaningUp,
{
    let ev = choose|ev: StepEventView| pre.event_allowed(ev) && post == pre.spec_step(ev);
    lemma_step_properties(pre, ev);
}

/// Every state of a chain's history is well formed.
pub proof fn lemma_trace_wf(tr: Seq<ChainView>, i: int)
    requires
        chain_trace(tr),
        0 <= i < tr.len(),
    ensures
        tr[i].wf(),
    decreases i,
{
    if i > 0 {
        lemma_trace_wf(tr, i - 1);
        lemma_steps_to_properties(tr[i - 1], tr[i]);
    }
}

/// Phases move strictly forward along a history: no phase is revisited.
pub proof fn lemma_trace_rank(tr: Seq<ChainView>, i: int, j: int)
    requires
        chain_trace(tr),
        0 <= i < j < tr.len(),
    ensures
        phase_rank(tr[i].phase) < phase_rank(tr[j].phase),
    decreases j - i,
{
    lemma_trace_wf(tr, j - 1);
    lemma_steps_to_properties(tr[j - 1], tr[j]);
    if i < j - 1 {
        lemma_trace_rank(tr, i, j - 1);
    }
}

/// A decided outcome never changes for the rest of the history.
pub proof fn lemma_outcome_persists(tr: Seq<ChainView>, i: int, j: int)
    requires
        chain_trace(tr),
        0 <= i <= j < tr.len(),
        tr[i].outcome is Some,
    ensures
        tr[j].outcome == tr[i].outcome,
    decreases j - i,
{
    if i < j {
        lemma_outcome_persists(tr, i, j - 1);
        lemma_trace_wf(tr, j - 1);
        lemma_steps_to_properties(tr[j - 1], tr[j]);
    }
}

/// Cleanup happens exactly once per chain: every history that reaches
/// `Finished` passes through `CleaningUp` at exactly one position —
/// whichever work step failed, or none.
pub proof fn lemma_cleanup_exactly_once(tr: Seq<ChainView>)
    requires
        chain_trace(tr),
        tr.last().phase == Phase::Finished,
    ensures
        tr.len() >= 2,
        tr[tr.len() - 2].phase == Phase::CleaningUp,
        forall|j: int| 0 <= j < tr.len() && j != tr.len() - 2 ==> tr[j].phase != Phase::CleaningUp,
{
    let n = tr.len() as int;
    assert(n >= 2);
    lemma_trace_wf(tr, n - 2);
    lemma_steps_to_properties(tr[n - 2], tr[n - 1]);
    assert forall|j: int| 0 <= j < n && j != n - 2 implies tr[j].phase != Phase::CleaningUp by {
        if j < n - 2 {
            lemma_trace_rank(tr, j, n - 2);
        }
    }
}

/// A run step that exceeds its time budget decides `Failed` with the
/// timeout reason, and the finished chain's persisted status is
/// `Failed`: no timed-out build is ever left in `Started`.
pub proof fn lemma_timeout_ends_failed(tr: Seq<ChainView>, i: int)
    requires
        chain_trace(tr),
        0 <= i < tr.len() - 1,
        tr[i].phase == Phase::RunningContainer,
        tr[i + 1] == tr[i].spec_step(StepEventView::TimedOut),
        tr.last().phase == Phase::Finished,
    ensures
        tr.last().outcome == Some(TaskResultView::Failed(timeout_reason())),
        tr.last().status == Buildstatus::Failed,
{
    let n = tr.len() as int;
    lemma_trace_wf(tr, i);
    assert(tr[i + 1].outcome == Some(TaskResultView::Failed(timeout_reason())));
    lemma_outcome_persists(tr, i + 1, n - 1);
    lemma_trace_wf(tr, n - 1);
}

/// A chain whose image build fails never reaches the run step, and its
/// reported status is `Failed`.
pub proof fn lemma_build_failure_never_runs(tr: Seq<ChainView>, i: int, reason: Seq<char>)
    requires
        chain_trace(tr),
        0 <= i < tr.len() - 1,
        tr[i].phase == Phase::BuildingImage,
        tr[i + 1] == tr[i].spec_step(StepEventView::Failed(reason)),
    ensures
        forall|j: int| 0 <= j < tr.len() ==> tr[j].phase != Phase::RunningContainer,
        tr.last().phase == Phase::Finished ==> tr.last().status == Buildstatus::Failed,
{
    let n = tr.len() as int;
    lemma_trace_wf(tr, i);
    assert(tr[i + 1].phase == Phase::CleaningUp);
    assert forall|j: int| 0 <= j < n implies tr[j].phase != Phase::RunningContainer by {
        if j < i {
            lemma_trace_rank(tr, j, i);
        }
        if j > i + 1 {
            lemma_trace_rank(tr, i + 1, j);
        }
    }
    if tr.last().phase == Phase::Finished {
        lemma_outcome_persists(tr, i + 1, n - 1);
        lemma_trace_wf(tr, n - 1);
    }
}

} // verus!
