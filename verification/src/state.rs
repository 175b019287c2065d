//! The executor of a pod's state machine: it shows each state's status, has
//! the state's work done, and follows the state's decision until the machine
//! completes.

use vstd::prelude::*;
use vstd::string::*;

use crate::pod::{Pod, PodView, StatusPatch};
use crate::states::{
    one_more, outcome_view, reason_of, runnable, status_of, unrunnable_text, work_view, Completed,
    CrashLoopBackoff, Failure, FailureView,
    Error, ImagePull, ImagePullBackoff, PodState, Registered, Running, Stage, StageView, Starting,
    Terminated, Transition, TransitionView, Unrunnable, VolumeMount, Work, CRASH_LOOP_THRESHOLD,
    ERROR_RETRY_MILLIS,
};

verus! {

/// What has to happen on entering a state: the status to publish, and the
/// work to have done before the machine is advanced.
#[derive(Debug)]
pub struct Directive {
    /// The state's status, to be patched onto the pod.
    pub status: StatusPatch,
    /// What the state needs done.
    pub work: Work,
}

/// What advancing the machine comes to.
#[derive(Debug)]
pub enum Step {
    /// The machine entered a state.
    Continue(Directive),
    /// The machine is done, with or without a fatal error.
    Finished(Result<(), String>),
}

/// The states that a state may go to. The error state can be reached from
/// any state that has work to fail at.
pub open spec fn permitted(from: StageView, to: StageView) -> bool {
    match from {
        StageView::Registered => to is ImagePull || to is Error,
        StageView::ImagePull => to is VolumeMount || to is ImagePullBackoff,
        StageView::ImagePullBackoff => to is ImagePull,
        StageView::VolumeMount => to is Starting || to is Error,
        StageView::Starting => to is Running || to is Error,
        StageView::Running => to is Completed || to is Error,
        StageView::Completed => false,
        StageView::Error(_) => to is Registered || to is CrashLoopBackoff,
        StageView::CrashLoopBackoff => to is Registered,
        StageView::Terminated => false,
    }
}

/// The work that a state needs, and what counting it does to the pod's state.
pub open spec fn entered(stage: StageView, pod_state: PodState) -> (Work, PodState) {
    match stage {
        StageView::Registered => (Work::Nothing, pod_state),
        StageView::ImagePull => (Work::FetchModules, pod_state),
        StageView::ImagePullBackoff => (
            Work::Sleep(pod_state.image_pull_backoff_strategy.next_delay() as u64),
            PodState {
                image_pull_backoff_strategy: pod_state.image_pull_backoff_strategy.after_wait(),
                ..pod_state
            },
        ),
        StageView::VolumeMount => (Work::MountVolumes, pod_state),
        StageView::Starting => (Work::StartContainers, pod_state),
        StageView::Running => (Work::AwaitContainers, pod_state),
        StageView::Completed => (Work::Nothing, pod_state),
        StageView::Error(_) => (
            if one_more(pod_state.errors) >= CRASH_LOOP_THRESHOLD {
                Work::Nothing
            } else {
                Work::Sleep(ERROR_RETRY_MILLIS)
            },
            PodState { errors: one_more(pod_state.errors), ..pod_state },
        ),
        StageView::CrashLoopBackoff => (
            Work::Sleep(pod_state.crash_loop_backoff_strategy.next_delay() as u64),
            PodState {
                crash_loop_backoff_strategy: pod_state.crash_loop_backoff_strategy.after_wait(),
                ..pod_state
            },
        ),
        StageView::Terminated => (Work::StopContainers, pod_state),
    }
}

/// What a state decides once its work has come to `outcome`, and what the
/// decision does to the pod's state.
pub open spec fn decided(
    stage: StageView,
    pod_state: PodState,
    pod: PodView,
    outcome: Result<(), FailureView>,
) -> (TransitionView, PodState) {
    match stage {
        StageView::Registered => (
            if runnable(pod) {
                TransitionView::Next(StageView::ImagePull)
            } else {
                TransitionView::Error(unrunnable_text(Unrunnable::KubeProxy))
            },
            pod_state,
        ),
        StageView::ImagePull => if outcome is Ok {
            (
                TransitionView::Next(StageView::VolumeMount),
                PodState {
                    image_pull_backoff_strategy: pod_state.image_pull_backoff_strategy.after_reset(),
                    ..pod_state
                },
            )
        } else {
            (TransitionView::Next(StageView::ImagePullBackoff), pod_state)
        },
        StageView::ImagePullBackoff => (TransitionView::Next(StageView::ImagePull), pod_state),
        StageView::VolumeMount => (work_done(outcome, StageView::Starting), pod_state),
        StageView::Starting => (work_done(outcome, StageView::Running), pod_state),
        StageView::Running => (work_done(outcome, StageView::Completed), pod_state),
        StageView::Completed => (TransitionView::Complete(Ok(())), pod_state),
        StageView::Error(_) => if pod_state.errors >= CRASH_LOOP_THRESHOLD {
            (TransitionView::Next(StageView::CrashLoopBackoff), PodState { errors: 0, ..pod_state })
        } else {
            (TransitionView::Next(StageView::Registered), pod_state)
        },
        StageView::CrashLoopBackoff => (TransitionView::Next(StageView::Registered), pod_state),
        StageView::Terminated => (
            TransitionView::Complete(
                match outcome {
                    Ok(_) => Ok(()),
                    Err(failure) => Err(reason_of(failure)),
                },
            ),
            pod_state,
        ),
    }
}

/// Where a state with work goes: onward where the work was done, to the error
/// state where it failed, to the end of the machine where it failed for good.
pub open spec fn work_done(outcome: Result<(), FailureView>, onward: StageView) -> TransitionView {
    match outcome {
        Ok(_) => TransitionView::Next(onward),
        Err(FailureView::Error(reason)) => TransitionView::Error(reason),
        Err(FailureView::Fatal(reason)) => TransitionView::Complete(Err(reason)),
    }
}

/// The state that a transition leads to, if it leads to one.
pub open spec fn target(transition: TransitionView) -> Option<StageView> {
    match transition {
        TransitionView::Next(stage) => Some(stage),
        TransitionView::Error(message) => Some(StageView::Error(message)),
        TransitionView::Complete(_) => None,
    }
}

/// Every state goes only where it may: whatever the pod, its state and the
/// outcome of the work, the state that a decision leads to is one that the
/// graph permits; and the machine ends only in a state that completes it, or
/// where a state's work failed for good.
pub proof fn lemma_decisions_permitted(
    stage: StageView,
    pod_state: PodState,
    pod: PodView,
    outcome: Result<(), FailureView>,
)
    ensures
        match target(decided(stage, pod_state, pod, outcome).0) {
            Some(to) => permitted(stage, to),
            None => stage is Completed || stage is Terminated || ((stage is VolumeMount
                || stage is Starting || stage is Running) && outcome is Err
                && outcome->Err_0 is Fatal),
        },
{
}

/// The executor: the state that the machine is in.
pub struct Executor {
    stage: Stage,
}

impl Executor {
    /// The state that the machine is in.
    pub closed spec fn stage(&self) -> StageView {
        self.stage@
    }

    /// Puts a machine into its first state.
    pub fn new(initial: Stage, pod_state: &mut PodState) -> (started: (Executor, Directive))
        ensures
            started.0.stage() == initial@,
            started.1.status@ == status_of(initial@),
            (started.1.work, *final(pod_state)) == entered(initial@, *old(pod_state)),
    {
        let directive = enter(&initial, pod_state);
        (Executor { stage: initial }, directive)
    }

    /// Whether the machine has reached a state that ends it.
    pub fn at_end(&self) -> (r: bool)
        ensures
            r == (self.stage() is Completed || self.stage() is Terminated),
    {
        match &self.stage {
            Stage::Completed(_) => true,
            Stage::Terminated(_) => true,
            _ => false,
        }
    }

    /// Takes the outcome of the current state's work and follows the state's
    /// decision. Where the decision leads to a state, the machine enters it:
    /// the result holds that state's status and work. Where the decision ends
    /// the machine, the state stays and the result holds how it ended.
    pub fn advance(&mut self, pod_state: &mut PodState, pod: &Pod, outcome: Result<(), Failure>) -> (step:
        Step)
        ensures
            ({
                let d = decided(old(self).stage(), *old(pod_state), pod@, work_view(outcome));
                match target(d.0) {
                    Some(to) => {
                        &&& final(self).stage() == to
                        &&& permitted(old(self).stage(), to)
                        &&& step is Continue
                        &&& step->Continue_0.status@ == status_of(to)
                        &&& (step->Continue_0.work, *final(pod_state)) == entered(to, d.1)
                    },
                    None => {
                        &&& final(self).stage() == old(self).stage()
                        &&& *final(pod_state) == d.1
                        &&& step is Finished
                        &&& TransitionView::Complete(outcome_view(step->Finished_0)) == d.0
                    },
                }
            }),
    {
        proof {
            lemma_decisions_permitted(
                self.stage@,
                *pod_state,
                pod@,
                work_view(outcome),
            );
        }
        let transition = match &self.stage {
            Stage::Registered(s) => s.next(pod),
            Stage::ImagePull(s) => s.next(pod_state, &outcome),
            Stage::ImagePullBackoff(s) => s.next(),
            Stage::VolumeMount(s) => s.next(outcome),
            Stage::Starting(s) => s.next(outcome),
            Stage::Running(s) => s.next(outcome),
            Stage::Completed(s) => s.next(),
            Stage::Error(s) => s.next(pod_state),
            Stage::CrashLoopBackoff(s) => s.next(),
            Stage::Terminated(s) => s.next(outcome),
        };
        match transition {
            Transition::Next(stage) => {
                let directive = enter(&stage, pod_state);
                self.stage = stage;
                Step::Continue(directive)
            },
            Transition::Error(message) => {
                let stage = Stage::Error(Error::new(message));
                let directive = enter(&stage, pod_state);
                self.stage = stage;
                Step::Continue(directive)
            },
            Transition::Complete(result) => Step::Finished(result),
        }
    }

    /// The pod was deleted while the machine ran: the machine drops what it
    /// was at and enters the state that winds the pod down.
    pub fn interrupt(&mut self, pod_state: &mut PodState) -> (directive: Directive)
        ensures
            final(self).stage() == StageView::Terminated,
            directive.status@ == status_of(StageView::Terminated),
            directive.work == Work::StopContainers,
            *final(pod_state) == *old(pod_state),
    {
        let stage = Stage::Terminated(Terminated);
        let directive = enter(&stage, pod_state);
        self.stage = stage;
        directive
    }
}

/// Enters a state: gives its status and its work, and counts a wait or an
/// error where the state is one.
pub fn enter(stage: &Stage, pod_state: &mut PodState) -> (directive: Directive)
    ensures
        directive.status@ == status_of(stage@),
        (directive.work, *final(pod_state)) == entered(stage@, *old(pod_state)),
{
    match stage {
        Stage::Registered(s) => Directive { status: s.status(), work: Work::Nothing },
        Stage::ImagePull(s) => Directive { status: s.status(), work: Work::FetchModules },
        Stage::ImagePullBackoff(s) => {
            let millis = s.wait(pod_state);
            Directive { status: s.status(), work: Work::Sleep(millis) }
        },
        Stage::VolumeMount(s) => Directive { status: s.status(), work: Work::MountVolumes },
        Stage::Starting(s) => Directive { status: s.status(), work: Work::StartContainers },
        Stage::Running(s) => Directive { status: s.status(), work: Work::AwaitContainers },
        Stage::Completed(s) => Directive { status: s.status(), work: Work::Nothing },
        Stage::Error(s) => {
            let work = s.rest(pod_state);
            Directive { status: s.status(), work }
        },
        Stage::CrashLoopBackoff(s) => {
            let millis = s.wait(pod_state);
            Directive { status: s.status(), work: Work::Sleep(millis) }
        },
        Stage::Terminated(s) => Directive { status: s.status(), work: Work::StopContainers },
    }
}

} // verus!
