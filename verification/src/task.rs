//! The life of one pod's task: it runs the pod's state machine, switches to
//! the winding-down machine when the pod is deleted, waits until the
//! deletion is confirmed, tears the pod's state down and takes the pod off
//! the control plane.

use vstd::prelude::*;
use vstd::string::*;

use crate::pod::{make_status, Phase, StatusPatch, StatusPatchView};
use crate::queue::{Event, EventView};
use crate::states::outcome_view;

verus! {

/// The flag that tells a pod's task that the pod is being deleted, as the
/// listener on the pod's mailbox keeps it.
#[derive(Clone, Copy, Debug, PartialEq, Eq)]
pub struct Sentinel {
    deleted: bool,
    listening: bool,
}

/// What an event does to the flag: a deleted pod raises it and ends the
/// listening; an applied pod raises it where the pod carries a deletion
/// timestamp; a restart does nothing. Once the listening has ended, nothing
/// changes.
pub open spec fn observed(deleted: bool, listening: bool, event: EventView) -> (bool, bool) {
    if !listening {
        (deleted, listening)
    } else {
        match event {
            EventView::Applied(pod) => (deleted || pod.deletion_timestamp is Some, true),
            EventView::Deleted(_) => (true, false),
            EventView::Restarted(_) => (deleted, true),
        }
    }
}

impl Sentinel {
    /// Whether the pod is being deleted.
    pub closed spec fn deleted(&self) -> bool {
        self.deleted
    }

    /// Whether the listener still reads the mailbox.
    pub closed spec fn listening(&self) -> bool {
        self.listening
    }

    /// The flag of a pod that has just been started.
    pub fn new() -> (s: Sentinel)
        ensures
            !s.deleted(),
            s.listening(),
    {
        Sentinel { deleted: false, listening: true }
    }

    /// Whether the pod is being deleted.
    pub fn is_deleted(&self) -> (r: bool)
        ensures
            r == self.deleted(),
    {
        self.deleted
    }

    /// Whether the listener still reads the mailbox.
    pub fn is_listening(&self) -> (r: bool)
        ensures
            r == self.listening(),
    {
        self.listening
    }

    /// Takes one event from the pod's mailbox. A raised flag stays raised.
    pub fn observe(&mut self, event: &Event)
        ensures
            (final(self).deleted(), final(self).listening()) == observed(
                old(self).deleted(),
                old(self).listening(),
                event@,
            ),
            old(self).deleted() ==> final(self).deleted(),
    {
        if self.listening {
            match event {
                Event::Applied(pod) => {
                    if pod.deletion_timestamp().is_some() {
                        self.deleted = true;
                    }
                },
                Event::Deleted(_) => {
                    self.deleted = true;
                    self.listening = false;
                },
                Event::Restarted(_) => {},
            }
        }
    }
}

/// Where a pod's task stands.
#[derive(Clone, Copy, Debug, PartialEq, Eq, Structural)]
pub enum TaskPhase {
    /// The pod's state machine runs from its first state.
    Running,
    /// The pod was deleted while its machine ran; the winding-down machine
    /// runs.
    Terminating,
    /// No machine runs any more; the task waits for the deletion flag.
    AwaitingDeletion,
    /// The pod's state is torn down and the pod is off the control plane.
    Done,
}

/// What a pod's task is told.
#[derive(Debug)]
pub enum TaskEvent {
    /// The machine that was running has completed, with or without a fatal
    /// error.
    MachineFinished(Result<(), String>),
    /// The deletion flag was found raised.
    DeletionSeen,
}

/// A task event as a plain value.
pub enum TaskEventView {
    MachineFinished(Result<(), Seq<char>>),
    DeletionSeen,
}

impl View for TaskEvent {
    type V = TaskEventView;

    open spec fn view(&self) -> TaskEventView {
        match self {
            TaskEvent::MachineFinished(r) => TaskEventView::MachineFinished(outcome_view(*r)),
            TaskEvent::DeletionSeen => TaskEventView::DeletionSeen,
        }
    }
}

/// What a pod's task asks of the runtime.
#[derive(Debug)]
pub enum TaskAction {
    /// Patch the pod as failed, with the machine's error as the reason.
    PatchFailed(StatusPatch),
    /// Drop the running machine and run the winding-down machine.
    RunTerminated,
    /// Wait until the deletion flag is raised.
    AwaitDeletion,
    /// Tear down the pod's state.
    Teardown,
    /// Delete the pod from the control plane, without a grace period.
    Deregister,
}

/// A task action as a plain value.
pub enum TaskActionView {
    PatchFailed(StatusPatchView),
    RunTerminated,
    AwaitDeletion,
    Teardown,
    Deregister,
}

impl View for TaskAction {
    type V = TaskActionView;

    open spec fn view(&self) -> TaskActionView {
        match self {
            TaskAction::PatchFailed(patch) => TaskActionView::PatchFailed(patch@),
            TaskAction::RunTerminated => TaskActionView::RunTerminated,
            TaskAction::AwaitDeletion => TaskActionView::AwaitDeletion,
            TaskAction::Teardown => TaskActionView::Teardown,
            TaskAction::Deregister => TaskActionView::Deregister,
        }
    }
}

/// Task actions as plain values.
pub open spec fn task_action_views(actions: Seq<TaskAction>) -> Seq<TaskActionView> {
    actions.map_values(|a: TaskAction| a@)
}

/// What one event does to a task: the phase it is in afterwards, and what it
/// asks of the runtime. A machine that fails while the pod is not being
/// deleted gets the pod patched as failed; a failure of the winding-down
/// machine is not reported. An event that the phase does not wait for does
/// nothing.
pub open spec fn task_step(phase: TaskPhase, event: TaskEventView) -> (
    TaskPhase,
    Seq<TaskActionView>,
) {
    match (phase, event) {
        (TaskPhase::Running, TaskEventView::MachineFinished(Ok(_))) => (
            TaskPhase::AwaitingDeletion,
            seq![TaskActionView::AwaitDeletion],
        ),
        (TaskPhase::Running, TaskEventView::MachineFinished(Err(e))) => (
            TaskPhase::AwaitingDeletion,
            seq![
                TaskActionView::PatchFailed(
                    StatusPatchView { phase: Phase::Failed, reason: e, container_statuses: None },
                ),
                TaskActionView::AwaitDeletion,
            ],
        ),
        (TaskPhase::Running, TaskEventView::DeletionSeen) => (
            TaskPhase::Terminating,
            seq![TaskActionView::RunTerminated],
        ),
        (TaskPhase::Terminating, TaskEventView::MachineFinished(_)) => (
            TaskPhase::AwaitingDeletion,
            seq![TaskActionView::AwaitDeletion],
        ),
        (TaskPhase::AwaitingDeletion, TaskEventView::DeletionSeen) => (
            TaskPhase::Done,
            seq![TaskActionView::Teardown, TaskActionView::Deregister],
        ),
        _ => (phase, Seq::empty()),
    }
}

/// What a run of events does to a task, one after the other.
pub open spec fn task_run(phase: TaskPhase, events: Seq<TaskEventView>) -> (
    TaskPhase,
    Seq<TaskActionView>,
)
    decreases events.len(),
{
    if events.len() == 0 {
        (phase, Seq::empty())
    } else {
        let before = task_run(phase, events.drop_last());
        let step = task_step(before.0, events.last());
        (step.0, before.1 + step.1)
    }
}

/// How many of the actions tear the pod's state down.
pub open spec fn teardowns(actions: Seq<TaskActionView>) -> int
    decreases actions.len(),
{
    if actions.len() == 0 {
        0
    } else {
        teardowns(actions.drop_last()) + if actions.last() is Teardown {
            1int
        } else {
            0int
        }
    }
}

/// Teardowns of two runs of actions add up.
pub proof fn lemma_teardowns_concat(a: Seq<TaskActionView>, b: Seq<TaskActionView>)
    ensures
        teardowns(a + b) == teardowns(a) + teardowns(b),
    decreases b.len(),
{
    if b.len() == 0 {
        assert(a + b =~= a);
    } else {
        lemma_teardowns_concat(a, b.drop_last());
        assert((a + b).drop_last() =~= a + b.drop_last());
        assert((a + b).last() == b.last());
    }
}

/// One event tears the pod's state down exactly where it brings the task to
/// its end.
pub proof fn lemma_step_teardown(phase: TaskPhase, event: TaskEventView)
    ensures
        teardowns(task_step(phase, event).1) == if phase != TaskPhase::Done && task_step(
            phase,
            event,
        ).0 == TaskPhase::Done {
            1int
        } else {
            0int
        },
        phase == TaskPhase::Done ==> task_step(phase, event).0 == TaskPhase::Done,
{
    reveal_with_fuel(teardowns, 3);
    let r = task_step(phase, event);
    let none = Seq::<TaskActionView>::empty();
    assert(teardowns(none) == 0);
    if r.1.len() == 1 {
        assert(r.1.drop_last() =~= none);
    } else if r.1.len() == 2 {
        let first = seq![r.1[0]];
        assert(r.1.drop_last() =~= first);
        assert(first.drop_last() =~= none);
    } else {
        assert(r.1 =~= none);
    }
}

/// Teardown runs exactly once: whatever a task is told, and in whatever
/// order, it tears the pod's state down once if it has reached its end, and
/// not at all before. That holds however the machine ended: without error,
/// with one, or cut short by the pod's deletion.
pub proof fn lemma_teardown_exactly_once(events: Seq<TaskEventView>)
    ensures
        teardowns(task_run(TaskPhase::Running, events).1) == if task_run(
            TaskPhase::Running,
            events,
        ).0 == TaskPhase::Done {
            1int
        } else {
            0int
        },
    decreases events.len(),
{
    if events.len() > 0 {
        lemma_teardown_exactly_once(events.drop_last());
        let before = task_run(TaskPhase::Running, events.drop_last());
        lemma_step_teardown(before.0, events.last());
        lemma_teardowns_concat(before.1, task_step(before.0, events.last()).1);
    }
}

/// A pod's task.
#[derive(Debug)]
pub struct PodTask {
    phase: TaskPhase,
}

impl PodTask {
    /// Where the task stands.
    pub closed spec fn phase(&self) -> TaskPhase {
        self.phase
    }

    /// The task of a pod whose machine has just been started.
    pub fn new() -> (task: PodTask)
        ensures
            task.phase() == TaskPhase::Running,
    {
        PodTask { phase: TaskPhase::Running }
    }

    /// Where the task stands.
    pub fn current(&self) -> (phase: TaskPhase)
        ensures
            phase == self.phase(),
    {
        self.phase
    }

    /// Takes one event and says what the runtime has to do.
    pub fn step(&mut self, event: TaskEvent) -> (actions: Vec<TaskAction>)
        ensures
            (final(self).phase(), task_action_views(actions@)) == task_step(
                old(self).phase(),
                event@,
            ),
    {
        let mut actions: Vec<TaskAction> = Vec::new();
        let ghost expected = task_step(self.phase, event@);
        match (self.phase, event) {
            (TaskPhase::Running, TaskEvent::MachineFinished(Ok(_))) => {
                actions.push(TaskAction::AwaitDeletion);
                self.phase = TaskPhase::AwaitingDeletion;
            },
            (TaskPhase::Running, TaskEvent::MachineFinished(Err(e))) => {
                actions.push(TaskAction::PatchFailed(make_status(Phase::Failed, e.as_str())));
                actions.push(TaskAction::AwaitDeletion);
                self.phase = TaskPhase::AwaitingDeletion;
            },
            (TaskPhase::Running, TaskEvent::DeletionSeen) => {
                actions.push(TaskAction::RunTerminated);
                self.phase = TaskPhase::Terminating;
            },
            (TaskPhase::Terminating, TaskEvent::MachineFinished(_)) => {
                actions.push(TaskAction::AwaitDeletion);
                self.phase = TaskPhase::AwaitingDeletion;
            },
            (TaskPhase::AwaitingDeletion, TaskEvent::DeletionSeen) => {
                actions.push(TaskAction::Teardown);
                actions.push(TaskAction::Deregister);
                self.phase = TaskPhase::Done;
            },
            _ => {},
        }
        assert(task_action_views(actions@) =~= expected.1);
        actions
    }
}

} // verus!
