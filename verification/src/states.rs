//! The states of a pod's life, each with the status it shows and the
//! decision it takes once its work is done.

use vstd::prelude::*;
use vstd::string::*;

use crate::backoff::ExponentialBackoffStrategy;
use crate::container::{Container, ContainerView};
use crate::pod::{make_status, Phase, Pod, PodView, StatusPatch, StatusPatchView};
use crate::text::{has_prefix, starts_with};
use crate::time::Timestamp;

verus! {

/// How many errors in a row send a pod into crash-loop backoff.
pub const CRASH_LOOP_THRESHOLD: u64 = 3;

/// How long a pod rests after an error before it starts over, in
/// milliseconds.
pub const ERROR_RETRY_MILLIS: u64 = 5000;

/// What a provider keeps for one pod while the pod's states run.
#[derive(Debug)]
pub struct PodState {
    /// How many times the pod has failed since it last went into
    /// crash-loop backoff.
    pub errors: u64,
    /// The backoff between attempts to pull the pod's images.
    pub image_pull_backoff_strategy: ExponentialBackoffStrategy,
    /// The backoff between restarts of a pod that keeps failing.
    pub crash_loop_backoff_strategy: ExponentialBackoffStrategy,
}

/// The work that a state needs done before it can decide where to go.
#[derive(Clone, Copy, Debug, PartialEq, Eq, Structural)]
pub enum Work {
    /// Nothing: the state decides at once.
    Nothing,
    /// Fetch the modules of the pod's containers.
    FetchModules,
    /// Mount the pod's volumes.
    MountVolumes,
    /// Start the pod's containers.
    StartContainers,
    /// Wait until the pod's containers have exited.
    AwaitContainers,
    /// Stop the pod's containers.
    StopContainers,
    /// Suspend for this many milliseconds.
    Sleep(u64),
}

/// Why a state's work did not get done.
#[derive(Clone, Debug, PartialEq, Eq)]
pub enum Failure {
    /// Something went wrong that another attempt may mend: the pod goes to
    /// the error state. Holds the reason.
    Error(String),
    /// Something went wrong for good: the machine ends with this error.
    /// Holds the reason.
    Fatal(String),
}

/// A failure as plain characters.
pub enum FailureView {
    Error(Seq<char>),
    Fatal(Seq<char>),
}

impl View for Failure {
    type V = FailureView;

    open spec fn view(&self) -> FailureView {
        match self {
            Failure::Error(reason) => FailureView::Error(reason@),
            Failure::Fatal(reason) => FailureView::Fatal(reason@),
        }
    }
}

/// The outcome of a state's work as plain characters.
pub open spec fn work_view(outcome: Result<(), Failure>) -> Result<(), FailureView> {
    match outcome {
        Ok(_) => Ok(()),
        Err(failure) => Err(failure@),
    }
}

/// The reason that a failure holds.
pub open spec fn reason_of(failure: FailureView) -> Seq<char> {
    match failure {
        FailureView::Error(reason) => reason,
        FailureView::Fatal(reason) => reason,
    }
}

/// The fatal error of a pod one of whose init containers failed.
pub fn init_container_failed(name: &str) -> (failure: Failure)
    ensures
        failure@ == FailureView::Fatal("Init container "@ + name@ + " failed"@),
{
    Failure::Fatal(String::from_str("Init container ").concat(name).concat(" failed"))
}

/// One step of bringing a pod's containers up.
#[derive(Clone, Debug, PartialEq, Eq)]
pub enum StartStep {
    /// Run the init container of this name to its end before anything
    /// else is started; its failure fails the pod for good.
    Init(String),
    /// Start the container of this name.
    Start(String),
}

/// A step of bringing a pod's containers up, as plain characters.
pub enum StartStepView {
    Init(Seq<char>),
    Start(Seq<char>),
}

impl View for StartStep {
    type V = StartStepView;

    open spec fn view(&self) -> StartStepView {
        match self {
            StartStep::Init(name) => StartStepView::Init(name@),
            StartStep::Start(name) => StartStepView::Start(name@),
        }
    }
}

/// Steps as plain characters.
pub open spec fn step_views(steps: Seq<StartStep>) -> Seq<StartStepView> {
    steps.map_values(|s: StartStep| s@)
}

/// The order in which a pod's containers come up: the init containers, one
/// after the other in the order of the manifest, each run to its end; then
/// the containers.
pub open spec fn startup_order(pod: PodView) -> Seq<StartStepView> {
    pod.init_containers.map_values(|c: ContainerView| StartStepView::Init(c.name))
        + pod.containers.map_values(|c: ContainerView| StartStepView::Start(c.name))
}

/// The steps that bring the pod's containers up, in their order.
pub fn startup_plan(pod: &Pod) -> (steps: Vec<StartStep>)
    ensures
        step_views(steps@) == startup_order(pod@),
{
    let mut steps: Vec<StartStep> = Vec::new();
    let ghost inits = pod@.init_containers.map_values(
        |c: ContainerView| StartStepView::Init(c.name),
    );
    let ghost starts = pod@.containers.map_values(|c: ContainerView| StartStepView::Start(c.name));
    let mut i: usize = 0;
    while i < pod.init_containers.len()
        invariant
            i <= pod.init_containers@.len(),
            inits == pod@.init_containers.map_values(
                |c: ContainerView| StartStepView::Init(c.name),
            ),
            step_views(steps@) == inits.take(i as int),
        decreases pod.init_containers@.len() - i,
    {
        let ghost before = step_views(steps@);
        steps.push(StartStep::Init(pod.init_containers[i].name.clone()));
        proof {
            assert(pod@.init_containers[i as int] == pod.init_containers@[i as int]@);
            assert(inits[i as int] == StartStepView::Init(pod.init_containers@[i as int].name@));
            assert(step_views(steps@) =~= before.push(inits[i as int]));
            assert(inits.take(i as int + 1) =~= inits.take(i as int).push(inits[i as int]));
        }
        i = i + 1;
    }
    assert(inits.take(inits.len() as int) =~= inits);
    let mut j: usize = 0;
    while j < pod.containers.len()
        invariant
            j <= pod.containers@.len(),
            starts == pod@.containers.map_values(|c: ContainerView| StartStepView::Start(c.name)),
            step_views(steps@) == inits + starts.take(j as int),
        decreases pod.containers@.len() - j,
    {
        let ghost before = step_views(steps@);
        steps.push(StartStep::Start(pod.containers[j].name.clone()));
        proof {
            assert(pod@.containers[j as int] == pod.containers@[j as int]@);
            assert(starts[j as int] == StartStepView::Start(pod.containers@[j as int].name@));
            assert(step_views(steps@) =~= before.push(starts[j as int]));
            assert(inits + starts.take(j as int + 1) =~= (inits + starts.take(j as int)).push(
                starts[j as int],
            ));
        }
        j = j + 1;
    }
    assert(starts.take(starts.len() as int) =~= starts);
    steps
}

/// A state of the pod-level machine.
#[derive(Debug)]
pub enum Stage {
    Registered(Registered),
    ImagePull(ImagePull),
    ImagePullBackoff(ImagePullBackoff),
    VolumeMount(VolumeMount),
    Starting(Starting),
    Running(Running),
    Completed(Completed),
    Error(Error),
    CrashLoopBackoff(CrashLoopBackoff),
    Terminated(Terminated),
}

/// A state as a plain value.
pub enum StageView {
    Registered,
    ImagePull,
    ImagePullBackoff,
    VolumeMount,
    Starting,
    Running,
    Completed,
    Error(Seq<char>),
    CrashLoopBackoff,
    Terminated,
}

impl View for Stage {
    type V = StageView;

    open spec fn view(&self) -> StageView {
        match self {
            Stage::Registered(_) => StageView::Registered,
            Stage::ImagePull(_) => StageView::ImagePull,
            Stage::ImagePullBackoff(_) => StageView::ImagePullBackoff,
            Stage::VolumeMount(_) => StageView::VolumeMount,
            Stage::Starting(_) => StageView::Starting,
            Stage::Running(_) => StageView::Running,
            Stage::Completed(_) => StageView::Completed,
            Stage::Error(e) => StageView::Error(e.message@),
            Stage::CrashLoopBackoff(_) => StageView::CrashLoopBackoff,
            Stage::Terminated(_) => StageView::Terminated,
        }
    }
}

/// What a state decides: the next state, the end of the machine, or an
/// error that sends the pod to the error state.
#[derive(Debug)]
pub enum Transition {
    /// Go on with this state.
    Next(Stage),
    /// The machine is done, with or without a fatal error.
    Complete(Result<(), String>),
    /// The state failed; the text says why.
    Error(String),
}

/// The outcome of a whole machine as plain characters.
pub open spec fn outcome_view(outcome: Result<(), String>) -> Result<(), Seq<char>> {
    match outcome {
        Ok(_) => Ok(()),
        Err(e) => Err(e@),
    }
}

/// A transition as a plain value.
pub enum TransitionView {
    Next(StageView),
    Complete(Result<(), Seq<char>>),
    Error(Seq<char>),
}

impl View for Transition {
    type V = TransitionView;

    open spec fn view(&self) -> TransitionView {
        match self {
            Transition::Next(stage) => TransitionView::Next(stage@),
            Transition::Complete(r) => TransitionView::Complete(outcome_view(*r)),
            Transition::Error(m) => TransitionView::Error(m@),
        }
    }
}

/// The image of the cluster's network proxy, which no provider of this kind
/// can run.
pub open spec fn kube_proxy_image() -> Seq<char> {
    "k8s.gcr.io/kube-proxy"@
}

/// A container that asks for the cluster's network proxy.
pub open spec fn is_kube_proxy(container: ContainerView) -> bool {
    match container.image {
        Some(image) => has_prefix(image, kube_proxy_image()),
        None => false,
    }
}

/// A pod none of whose containers asks for the cluster's network proxy.
pub open spec fn runnable(pod: PodView) -> bool {
    forall|i: int| 0 <= i < pod.containers.len() ==> !is_kube_proxy(#[trigger] pod.containers[i])
}

/// Why a pod cannot run here.
#[derive(Debug, PartialEq, Eq)]
pub enum Unrunnable {
    /// A container asks for the cluster's network proxy.
    KubeProxy,
}

/// The text of the refusal.
pub open spec fn unrunnable_text(why: Unrunnable) -> Seq<char> {
    match why {
        Unrunnable::KubeProxy => "Cannot run kube-proxy"@,
    }
}

impl Unrunnable {
    /// The refusal as a line for the pod's status.
    pub fn message(&self) -> (text: String)
        ensures
            text@ == unrunnable_text(*self),
    {
        match self {
            Unrunnable::KubeProxy => String::from_str("Cannot run kube-proxy"),
        }
    }
}

/// Refuses a container that asks for the cluster's network proxy.
pub fn validate_not_kube_proxy(container: &Container) -> (r: Result<(), Unrunnable>)
    ensures
        r == if is_kube_proxy(container@) {
            Err::<(), Unrunnable>(Unrunnable::KubeProxy)
        } else {
            Ok::<(), Unrunnable>(())
        },
{
    match &container.image {
        Some(image) => {
            if starts_with(image.as_str(), "k8s.gcr.io/kube-proxy") {
                Err(Unrunnable::KubeProxy)
            } else {
                Ok(())
            }
        },
        None => Ok(()),
    }
}

/// Refuses a pod one of whose containers cannot run here.
pub fn validate_pod_runnable(pod: &Pod) -> (r: Result<(), Unrunnable>)
    ensures
        r == if runnable(pod@) {
            Ok::<(), Unrunnable>(())
        } else {
            Err::<(), Unrunnable>(Unrunnable::KubeProxy)
        },
{
    let mut i: usize = 0;
    while i < pod.containers.len()
        invariant
            i <= pod.containers@.len(),
            forall|j: int| 0 <= j < i ==> !is_kube_proxy(#[trigger] pod@.containers[j]),
        decreases pod.containers@.len() - i,
    {
        assert(pod@.containers[i as int] == pod.containers@[i as int]@);
        if validate_not_kube_proxy(&pod.containers[i]).is_err() {
            return Err(Unrunnable::KubeProxy);
        }
        i = i + 1;
    }
    Ok(())
}

/// The status that each state shows.
pub open spec fn status_of(stage: StageView) -> StatusPatchView {
    match stage {
        StageView::Registered => plain_status(Phase::Pending, "Registered"@),
        StageView::ImagePull => plain_status(Phase::Pending, "ImagePull"@),
        StageView::ImagePullBackoff => plain_status(Phase::Pending, "ImagePullBackoff"@),
        StageView::VolumeMount => plain_status(Phase::Pending, "VolumeMount"@),
        StageView::Starting => plain_status(Phase::Pending, "Starting"@),
        StageView::Running => plain_status(Phase::Running, "Running"@),
        StageView::Completed => plain_status(Phase::Succeeded, "Completed"@),
        StageView::Error(message) => plain_status(Phase::Pending, message),
        StageView::CrashLoopBackoff => plain_status(Phase::Pending, "CrashLoopBackoff"@),
        StageView::Terminated => plain_status(Phase::Succeeded, "Terminated"@),
    }
}

/// A status of a phase and a reason, without container statuses.
pub open spec fn plain_status(phase: Phase, reason: Seq<char>) -> StatusPatchView {
    StatusPatchView { phase, reason, container_statuses: None }
}

/// The agent knows of the pod.
#[derive(Default, Debug)]
pub struct Registered;

impl Registered {
    /// Checks that the pod can run here: on to the image pull where it can,
    /// an error with the reason where it cannot.
    pub fn next(&self, pod: &Pod) -> (t: Transition)
        ensures
            t@ == if runnable(pod@) {
                TransitionView::Next(StageView::ImagePull)
            } else {
                TransitionView::Error(unrunnable_text(Unrunnable::KubeProxy))
            },
    {
        match validate_pod_runnable(pod) {
            Ok(_) => Transition::Next(Stage::ImagePull(ImagePull)),
            Err(e) => Transition::Error(e.message()),
        }
    }

    /// The status that the state shows.
    pub fn status(&self) -> (patch: StatusPatch)
        ensures
            patch@ == status_of(StageView::Registered),
    {
        make_status(Phase::Pending, "Registered")
    }
}

/// The agent is pulling the images of the pod's containers.
#[derive(Default, Debug)]
pub struct ImagePull;

impl ImagePull {
    /// With the modules fetched, forgets the failed pulls and goes on to
    /// mount the volumes; without them, whatever the failure, backs off.
    pub fn next(&self, pod_state: &mut PodState, fetched: &Result<(), Failure>) -> (t: Transition)
        ensures
            t@ == if fetched is Ok {
                TransitionView::Next(StageView::VolumeMount)
            } else {
                TransitionView::Next(StageView::ImagePullBackoff)
            },
            *final(pod_state) == if fetched is Ok {
                PodState {
                    image_pull_backoff_strategy: old(
                        pod_state,
                    ).image_pull_backoff_strategy.after_reset(),
                    ..*old(pod_state)
                }
            } else {
                *old(pod_state)
            },
            fetched is Ok ==> final(pod_state).image_pull_backoff_strategy.attempts() == 0,
            final(pod_state).image_pull_backoff_strategy.base() == old(
                pod_state,
            ).image_pull_backoff_strategy.base(),
            final(pod_state).image_pull_backoff_strategy.cap() == old(
                pod_state,
            ).image_pull_backoff_strategy.cap(),
    {
        match fetched {
            Ok(_) => {
                pod_state.image_pull_backoff_strategy.reset();
                Transition::Next(Stage::VolumeMount(VolumeMount))
            },
            Err(_) => Transition::Next(Stage::ImagePullBackoff(ImagePullBackoff)),
        }
    }

    /// The status that the state shows.
    pub fn status(&self) -> (patch: StatusPatch)
        ensures
            patch@ == status_of(StageView::ImagePull),
    {
        make_status(Phase::Pending, "ImagePull")
    }
}

/// The images could not be pulled; the pod waits before it tries again.
#[derive(Default, Debug)]
pub struct ImagePullBackoff;

impl ImagePullBackoff {
    /// How long to wait before the next pull, in milliseconds; the wait is
    /// counted.
    pub fn wait(&self, pod_state: &mut PodState) -> (millis: u64)
        ensures
            millis == old(pod_state).image_pull_backoff_strategy.next_delay(),
            *final(pod_state) == (PodState {
                image_pull_backoff_strategy: old(pod_state).image_pull_backoff_strategy.after_wait(),
                ..*old(pod_state)
            }),
            final(pod_state).image_pull_backoff_strategy.base() == old(
                pod_state,
            ).image_pull_backoff_strategy.base(),
            final(pod_state).image_pull_backoff_strategy.cap() == old(
                pod_state,
            ).image_pull_backoff_strategy.cap(),
            final(pod_state).image_pull_backoff_strategy.attempts() == if old(
                pod_state,
            ).image_pull_backoff_strategy.attempts() < u32::MAX {
                old(pod_state).image_pull_backoff_strategy.attempts() + 1
            } else {
                old(pod_state).image_pull_backoff_strategy.attempts()
            },
    {
        pod_state.image_pull_backoff_strategy.wait()
    }

    /// After the wait, back to the image pull.
    pub fn next(&self) -> (t: Transition)
        ensures
            t@ == TransitionView::Next(StageView::ImagePull),
    {
        Transition::Next(Stage::ImagePull(ImagePull))
    }

    /// The status that the state shows.
    pub fn status(&self) -> (patch: StatusPatch)
        ensures
            patch@ == status_of(StageView::ImagePullBackoff),
    {
        make_status(Phase::Pending, "ImagePullBackoff")
    }
}

/// The agent is mounting the pod's volumes.
#[derive(Default, Debug)]
pub struct VolumeMount;

/// The agent is starting the pod's containers.
#[derive(Default, Debug)]
pub struct Starting;

/// The pod's containers run.
#[derive(Default, Debug)]
pub struct Running;

/// Where a state with work goes: to `onward` where the work was done, to the
/// error state with the reason where it failed, and to the end of the machine
/// with the reason where it failed for good.
pub fn after_work(outcome: Result<(), Failure>, onward: Stage) -> (t: Transition)
    ensures
        t@ == match outcome {
            Ok(_) => TransitionView::Next(onward@),
            Err(Failure::Error(reason)) => TransitionView::Error(reason@),
            Err(Failure::Fatal(reason)) => TransitionView::Complete(Err(reason@)),
        },
{
    match outcome {
        Ok(_) => Transition::Next(onward),
        Err(Failure::Error(reason)) => Transition::Error(reason),
        Err(Failure::Fatal(reason)) => Transition::Complete(Err(reason)),
    }
}

impl VolumeMount {
    /// With the volumes mounted, on to starting the containers.
    pub fn next(&self, mounted: Result<(), Failure>) -> (t: Transition)
        ensures
            t@ == match mounted {
                Ok(_) => TransitionView::Next(StageView::Starting),
                Err(Failure::Error(reason)) => TransitionView::Error(reason@),
                Err(Failure::Fatal(reason)) => TransitionView::Complete(Err(reason@)),
            },
    {
        after_work(mounted, Stage::Starting(Starting))
    }

    /// The status that the state shows.
    pub fn status(&self) -> (patch: StatusPatch)
        ensures
            patch@ == status_of(StageView::VolumeMount),
    {
        make_status(Phase::Pending, "VolumeMount")
    }
}

impl Starting {
    /// With the containers started, the pod runs.
    pub fn next(&self, started: Result<(), Failure>) -> (t: Transition)
        ensures
            t@ == match started {
                Ok(_) => TransitionView::Next(StageView::Running),
                Err(Failure::Error(reason)) => TransitionView::Error(reason@),
                Err(Failure::Fatal(reason)) => TransitionView::Complete(Err(reason@)),
            },
    {
        after_work(started, Stage::Running(Running))
    }

    /// The status that the state shows.
    pub fn status(&self) -> (patch: StatusPatch)
        ensures
            patch@ == status_of(StageView::Starting),
    {
        make_status(Phase::Pending, "Starting")
    }
}

impl Running {
    /// With every container exited, the pod has completed.
    pub fn next(&self, exited: Result<(), Failure>) -> (t: Transition)
        ensures
            t@ == match exited {
                Ok(_) => TransitionView::Next(StageView::Completed),
                Err(Failure::Error(reason)) => TransitionView::Error(reason@),
                Err(Failure::Fatal(reason)) => TransitionView::Complete(Err(reason@)),
            },
    {
        after_work(exited, Stage::Completed(Completed))
    }

    /// The status that the state shows.
    pub fn status(&self) -> (patch: StatusPatch)
        ensures
            patch@ == status_of(StageView::Running),
    {
        make_status(Phase::Running, "Running")
    }
}

/// The pod ran to its end.
#[derive(Default, Debug)]
pub struct Completed;

impl Completed {
    /// The machine is done.
    pub fn next(&self) -> (t: Transition)
        ensures
            t@ == TransitionView::Complete(Ok(())),
    {
        Transition::Complete(Ok(()))
    }

    /// The status that the state shows.
    pub fn status(&self) -> (patch: StatusPatch)
        ensures
            patch@ == status_of(StageView::Completed),
    {
        make_status(Phase::Succeeded, "Completed")
    }
}

/// The pod failed to run.
#[derive(Default, Debug)]
pub struct Error {
    /// Why it failed.
    pub message: String,
}

/// The error count after one more error.
pub open spec fn one_more(errors: u64) -> u64 {
    if errors < u64::MAX {
        (errors + 1) as u64
    } else {
        errors
    }
}

impl Error {
    /// The error state with the given reason.
    pub fn new(message: String) -> (e: Error)
        ensures
            e.message@ == message@,
    {
        Error { message }
    }

    /// Counts the error and says how long the pod rests before it starts
    /// over: not at all where this error is the one that sends it into
    /// crash-loop backoff.
    pub fn rest(&self, pod_state: &mut PodState) -> (work: Work)
        ensures
            *final(pod_state) == (PodState {
                errors: one_more(old(pod_state).errors),
                ..*old(pod_state)
            }),
            work == if one_more(old(pod_state).errors) >= CRASH_LOOP_THRESHOLD {
                Work::Nothing
            } else {
                Work::Sleep(ERROR_RETRY_MILLIS)
            },
    {
        if pod_state.errors < u64::MAX {
            pod_state.errors = pod_state.errors + 1;
        }
        if pod_state.errors >= CRASH_LOOP_THRESHOLD {
            Work::Nothing
        } else {
            Work::Sleep(ERROR_RETRY_MILLIS)
        }
    }

    /// Where the pod goes after an error: into crash-loop backoff, with the
    /// count cleared, once the errors have reached the threshold; back to the
    /// start before that.
    pub fn next(&self, pod_state: &mut PodState) -> (t: Transition)
        ensures
            t@ == if old(pod_state).errors >= CRASH_LOOP_THRESHOLD {
                TransitionView::Next(StageView::CrashLoopBackoff)
            } else {
                TransitionView::Next(StageView::Registered)
            },
            *final(pod_state) == if old(pod_state).errors >= CRASH_LOOP_THRESHOLD {
                PodState { errors: 0, ..*old(pod_state) }
            } else {
                *old(pod_state)
            },
    {
        if pod_state.errors >= CRASH_LOOP_THRESHOLD {
            pod_state.errors = 0;
            Transition::Next(Stage::CrashLoopBackoff(CrashLoopBackoff))
        } else {
            Transition::Next(Stage::Registered(Registered))
        }
    }

    /// The status that the state shows: pending, with the failure as the
    /// reason.
    pub fn status(&self) -> (patch: StatusPatch)
        ensures
            patch@ == status_of(StageView::Error(self.message@)),
    {
        make_status(Phase::Pending, self.message.as_str())
    }
}

/// The pod keeps failing; it waits before it starts over.
#[derive(Default, Debug)]
pub struct CrashLoopBackoff;

impl CrashLoopBackoff {
    /// How long to wait before the pod starts over, in milliseconds; the
    /// wait is counted.
    pub fn wait(&self, pod_state: &mut PodState) -> (millis: u64)
        ensures
            millis == old(pod_state).crash_loop_backoff_strategy.next_delay(),
            *final(pod_state) == (PodState {
                crash_loop_backoff_strategy: old(pod_state).crash_loop_backoff_strategy.after_wait(),
                ..*old(pod_state)
            }),
            final(pod_state).crash_loop_backoff_strategy.base() == old(
                pod_state,
            ).crash_loop_backoff_strategy.base(),
            final(pod_state).crash_loop_backoff_strategy.cap() == old(
                pod_state,
            ).crash_loop_backoff_strategy.cap(),
            final(pod_state).crash_loop_backoff_strategy.attempts() == if old(
                pod_state,
            ).crash_loop_backoff_strategy.attempts() < u32::MAX {
                old(pod_state).crash_loop_backoff_strategy.attempts() + 1
            } else {
                old(pod_state).crash_loop_backoff_strategy.attempts()
            },
    {
        pod_state.crash_loop_backoff_strategy.wait()
    }

    /// After the wait, back to the start.
    pub fn next(&self) -> (t: Transition)
        ensures
            t@ == TransitionView::Next(StageView::Registered),
    {
        Transition::Next(Stage::Registered(Registered))
    }

    /// The status that the state shows.
    pub fn status(&self) -> (patch: StatusPatch)
        ensures
            patch@ == status_of(StageView::CrashLoopBackoff),
    {
        make_status(Phase::Pending, "CrashLoopBackoff")
    }
}

/// The pod was deleted.
#[derive(Default, Debug)]
pub struct Terminated;

impl Terminated {
    /// The machine is done once the containers were asked to stop; a stop
    /// that failed ends it with the failure's reason.
    pub fn next(&self, stopped: Result<(), Failure>) -> (t: Transition)
        ensures
            t@ == TransitionView::Complete(
                match stopped {
                    Ok(_) => Ok(()),
                    Err(failure) => Err(reason_of(failure@)),
                },
            ),
    {
        match stopped {
            Ok(_) => Transition::Complete(Ok(())),
            Err(Failure::Error(reason)) => Transition::Complete(Err(reason)),
            Err(Failure::Fatal(reason)) => Transition::Complete(Err(reason)),
        }
    }

    /// The status that the state shows.
    pub fn status(&self) -> (patch: StatusPatch)
        ensures
            patch@ == status_of(StageView::Terminated),
    {
        make_status(Phase::Succeeded, "Terminated")
    }
}

/// A container is about to start.
#[derive(Default, Debug)]
pub struct Waiting;

impl Waiting {
    /// The status that the state shows: waiting, with the note that the
    /// module is starting.
    pub fn status(&self, timestamp: Timestamp) -> (status: crate::container::ContainerStatus)
        ensures
            status@ == (crate::container::ContainerStatusView::Waiting {
                timestamp,
                message: "Module is starting."@,
            }),
    {
        crate::container::ContainerStatus::waiting(timestamp, "Module is starting.")
    }
}

} // verus!
