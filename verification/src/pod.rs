//! Pods as the agent sees them, and the status it reports of them.

use vstd::prelude::*;
use vstd::string::*;

use crate::container::{
    container_views, copy_containers, Container, ContainerStatus, ContainerStatusView,
    ContainerView,
};
use crate::table::{Key, Table};
use crate::time::Timestamp;

verus! {

/// A pod's manifest, as far as the agent reads it.
#[derive(Clone, Debug)]
pub struct Pod {
    /// The namespace that the pod lives in.
    pub namespace: String,
    /// The pod's name.
    pub name: String,
    /// When the control plane asked for the pod's deletion, if it has.
    pub deletion_timestamp: Option<Timestamp>,
    /// The init containers, in the order in which they run.
    pub init_containers: Vec<Container>,
    /// The containers.
    pub containers: Vec<Container>,
    /// The node selector's labels, each with its value. A label that is
    /// named twice counts by the value it is first named with.
    pub node_selector: Vec<(String, String)>,
}

/// A pod as plain values.
pub struct PodView {
    pub namespace: Seq<char>,
    pub name: Seq<char>,
    pub deletion_timestamp: Option<Timestamp>,
    pub init_containers: Seq<ContainerView>,
    pub containers: Seq<ContainerView>,
    pub node_selector: Seq<(Seq<char>, Seq<char>)>,
}

/// Labels as plain characters.
pub open spec fn label_views(labels: Seq<(String, String)>) -> Seq<(Seq<char>, Seq<char>)> {
    labels.map_values(|l: (String, String)| (l.0@, l.1@))
}

/// Copies a list of labels.
pub fn copy_labels(labels: &Vec<(String, String)>) -> (copy: Vec<(String, String)>)
    ensures
        label_views(copy@) == label_views(labels@),
{
    let mut copy: Vec<(String, String)> = Vec::new();
    let mut i: usize = 0;
    while i < labels.len()
        invariant
            i <= labels@.len(),
            copy@.len() == i,
            forall|j: int|
                0 <= j < i ==> (#[trigger] copy@[j]).0@ == labels@[j].0@ && copy@[j].1@
                    == labels@[j].1@,
        decreases labels@.len() - i,
    {
        copy.push((labels[i].0.clone(), labels[i].1.clone()));
        i = i + 1;
    }
    assert(label_views(copy@) =~= label_views(labels@));
    copy
}

impl View for Pod {
    type V = PodView;

    open spec fn view(&self) -> PodView {
        PodView {
            namespace: self.namespace@,
            name: self.name@,
            deletion_timestamp: self.deletion_timestamp,
            init_containers: container_views(self.init_containers@),
            containers: container_views(self.containers@),
            node_selector: label_views(self.node_selector@),
        }
    }
}

impl PodView {
    /// The key of the pod's mailbox.
    pub open spec fn key(self) -> PodKeyView {
        PodKeyView { namespace: self.namespace, name: self.name }
    }
}

impl Pod {
    /// A pod of the given namespace and name, without containers.
    pub fn named(namespace: &str, name: &str) -> (pod: Pod)
        ensures
            pod@ == (PodView {
                namespace: namespace@,
                name: name@,
                deletion_timestamp: None,
                init_containers: Seq::empty(),
                containers: Seq::empty(),
                node_selector: Seq::empty(),
            }),
    {
        let pod = Pod {
            namespace: namespace.to_owned(),
            name: name.to_owned(),
            deletion_timestamp: None,
            init_containers: Vec::new(),
            containers: Vec::new(),
            node_selector: Vec::new(),
        };
        assert(pod@.init_containers =~= Seq::empty());
        assert(pod@.containers =~= Seq::empty());
        assert(pod@.node_selector =~= Seq::empty());
        pod
    }

    /// The pod's name.
    pub fn name(&self) -> (r: &str)
        ensures
            r@ == self@.name,
    {
        self.name.as_str()
    }

    /// The namespace that the pod lives in.
    pub fn namespace(&self) -> (r: &str)
        ensures
            r@ == self@.namespace,
    {
        self.namespace.as_str()
    }

    /// When the control plane asked for the pod's deletion, if it has.
    pub fn deletion_timestamp(&self) -> (r: Option<Timestamp>)
        ensures
            r == self@.deletion_timestamp,
    {
        self.deletion_timestamp
    }

    /// The key of the pod's mailbox.
    pub fn key(&self) -> (key: PodKey)
        ensures
            key@ == self@.key(),
    {
        PodKey::new(self.namespace(), self.name())
    }

    /// A second pod with the same content.
    pub fn duplicate(&self) -> (pod: Pod)
        ensures
            pod@ == self@,
    {
        Pod {
            namespace: self.namespace.clone(),
            name: self.name.clone(),
            deletion_timestamp: self.deletion_timestamp,
            init_containers: copy_containers(&self.init_containers),
            containers: copy_containers(&self.containers),
            node_selector: copy_labels(&self.node_selector),
        }
    }
}

/// The key of a pod: its namespace and its name.
#[derive(Clone, Debug)]
pub struct PodKey {
    namespace: String,
    name: String,
}

/// A pod key as plain characters.
pub struct PodKeyView {
    pub namespace: Seq<char>,
    pub name: Seq<char>,
}

impl View for PodKey {
    type V = PodKeyView;

    closed spec fn view(&self) -> PodKeyView {
        PodKeyView { namespace: self.namespace@, name: self.name@ }
    }
}

impl PodKey {
    /// The key of the pod with the given namespace and name.
    pub fn new(namespace: &str, name: &str) -> (key: PodKey)
        ensures
            key@ == (PodKeyView { namespace: namespace@, name: name@ }),
    {
        PodKey { namespace: namespace.to_owned(), name: name.to_owned() }
    }

    /// The pod's name.
    pub fn name(&self) -> (r: String)
        ensures
            r@ == self@.name,
    {
        self.name.clone()
    }

    /// The pod's namespace.
    pub fn namespace(&self) -> (r: String)
        ensures
            r@ == self@.namespace,
    {
        self.namespace.clone()
    }
}

impl Key for PodKey {
    type Id = PodKeyView;

    open spec fn id(&self) -> PodKeyView {
        self@
    }

    fn same(&self, other: &Self) -> (r: bool) {
        self.namespace == other.namespace && self.name == other.name
    }

    fn duplicate(&self) -> (r: Self) {
        PodKey { namespace: self.namespace.clone(), name: self.name.clone() }
    }
}

/// The coarse stage of a pod's life.
#[derive(Clone, Copy, Debug, PartialEq, Eq, Structural)]
pub enum Phase {
    /// The pod is being created.
    Pending,
    /// The workload is executing.
    Running,
    /// The workload has exited with an error.
    Failed,
    /// The workload has exited without error.
    Succeeded,
    /// The stage cannot be determined.
    Unknown,
}

impl Default for Phase {
    fn default() -> (phase: Phase)
        ensures
            phase == Phase::Unknown,
    {
        Phase::Unknown
    }
}

/// The word by which the control plane knows a phase.
pub open spec fn phase_word(phase: Phase) -> Seq<char> {
    match phase {
        Phase::Pending => "Pending"@,
        Phase::Running => "Running"@,
        Phase::Failed => "Failed"@,
        Phase::Succeeded => "Succeeded"@,
        Phase::Unknown => "Unknown"@,
    }
}

impl Phase {
    /// The word by which the control plane knows the phase.
    pub fn as_str(&self) -> (word: &'static str)
        ensures
            word@ == phase_word(*self),
    {
        match self {
            Phase::Pending => "Pending",
            Phase::Running => "Running",
            Phase::Failed => "Failed",
            Phase::Succeeded => "Succeeded",
            Phase::Unknown => "Unknown",
        }
    }
}

/// What a status update does to the pod's message.
#[derive(Clone, Debug)]
pub enum StatusMessage {
    /// The message stays as it is.
    LeaveUnchanged,
    /// The message is removed.
    Clear,
    /// The message becomes the given text.
    Message(String),
}

/// A status message as plain characters.
pub enum StatusMessageView {
    LeaveUnchanged,
    Clear,
    Message(Seq<char>),
}

impl View for StatusMessage {
    type V = StatusMessageView;

    open spec fn view(&self) -> StatusMessageView {
        match self {
            StatusMessage::LeaveUnchanged => StatusMessageView::LeaveUnchanged,
            StatusMessage::Clear => StatusMessageView::Clear,
            StatusMessage::Message(m) => StatusMessageView::Message(m@),
        }
    }
}

impl Default for StatusMessage {
    fn default() -> (message: StatusMessage)
        ensures
            message@ == StatusMessageView::LeaveUnchanged,
    {
        StatusMessage::LeaveUnchanged
    }
}

impl StatusMessage {
    /// The message that a pod shows after the update, given the one it
    /// showed before.
    pub open spec fn applied_to(self, before: Option<Seq<char>>) -> Option<Seq<char>> {
        match self {
            StatusMessage::LeaveUnchanged => before,
            StatusMessage::Clear => None,
            StatusMessage::Message(m) => Some(m@),
        }
    }

    /// Applies the update to the message that the pod showed before.
    pub fn apply(&self, before: Option<String>) -> (after: Option<String>)
        ensures
            crate::object::option_text(after) == self.applied_to(
                crate::object::option_text(before),
            ),
    {
        match self {
            StatusMessage::LeaveUnchanged => before,
            StatusMessage::Clear => None,
            StatusMessage::Message(m) => Some(m.clone()),
        }
    }
}

/// The status of a workload: an update of the pod's message and the statuses
/// of containers, by name.
pub struct Status {
    /// What becomes of the pod's message.
    pub message: StatusMessage,
    /// The statuses of containers, keyed by their names.
    pub container_statuses: Table<String, ContainerStatus>,
}

impl Default for Status {
    fn default() -> (status: Status)
        ensures
            status.message@ == StatusMessageView::LeaveUnchanged,
            status.container_statuses@ == Map::<Seq<char>, ContainerStatus>::empty(),
    {
        Status { message: StatusMessage::LeaveUnchanged, container_statuses: Table::new() }
    }
}

impl Status {
    /// The update that reports one container's status and leaves the pod's
    /// message as it is.
    pub fn of_container(name: String, status: ContainerStatus) -> (update: Status)
        ensures
            update.message@ == StatusMessageView::LeaveUnchanged,
            update.container_statuses@ == Map::<Seq<char>, ContainerStatus>::empty().insert(
                name@,
                status,
            ),
    {
        let mut container_statuses: Table<String, ContainerStatus> = Table::new();
        container_statuses.insert(name, status);
        Status { message: StatusMessage::LeaveUnchanged, container_statuses }
    }
}

/// A patch of a pod's status: the phase, the reason, and the statuses of the
/// containers where the patch names them. The patch always clears the
/// object's resource version.
#[derive(Debug)]
pub struct StatusPatch {
    /// The phase to report.
    pub phase: Phase,
    /// The reason to report.
    pub reason: String,
    /// The container statuses to report, by name, where the patch has any.
    pub container_statuses: Option<Vec<(String, ContainerStatus)>>,
}

/// Named statuses as plain values.
pub open spec fn named_status_views(statuses: Seq<(String, ContainerStatus)>) -> Seq<
    (Seq<char>, ContainerStatusView),
> {
    statuses.map_values(|s: (String, ContainerStatus)| (s.0@, s.1@))
}

/// A status patch as plain values.
pub struct StatusPatchView {
    pub phase: Phase,
    pub reason: Seq<char>,
    pub container_statuses: Option<Seq<(Seq<char>, ContainerStatusView)>>,
}

impl View for StatusPatch {
    type V = StatusPatchView;

    open spec fn view(&self) -> StatusPatchView {
        StatusPatchView {
            phase: self.phase,
            reason: self.reason@,
            container_statuses: match self.container_statuses {
                Some(statuses) => Some(named_status_views(statuses@)),
                None => None,
            },
        }
    }
}

/// The patch that reports a phase and a reason.
pub fn make_status(phase: Phase, reason: &str) -> (patch: StatusPatch)
    ensures
        patch@ == (StatusPatchView { phase, reason: reason@, container_statuses: None }),
{
    StatusPatch { phase, reason: reason.to_owned(), container_statuses: None }
}

/// The patch that reports a phase, a reason and the statuses of containers.
pub fn make_status_with_containers(
    phase: Phase,
    reason: &str,
    container_statuses: Vec<(String, ContainerStatus)>,
) -> (patch: StatusPatch)
    ensures
        patch@ == (StatusPatchView {
            phase,
            reason: reason@,
            container_statuses: Some(named_status_views(container_statuses@)),
        }),
{
    StatusPatch { phase, reason: reason.to_owned(), container_statuses: Some(container_statuses) }
}

} // verus!
