//! Containers and the status that a running container reports.

use vstd::prelude::*;
use vstd::string::*;

use crate::object::{copy_text, option_text};
use crate::time::Timestamp;

verus! {

/// One container of a pod's manifest.
#[derive(Clone, Debug)]
pub struct Container {
    /// The container's name, which no other container of the pod has.
    pub name: String,
    /// The image reference, if the manifest gives one.
    pub image: Option<String>,
}

/// A container as plain characters.
pub struct ContainerView {
    pub name: Seq<char>,
    pub image: Option<Seq<char>>,
}

impl View for Container {
    type V = ContainerView;

    open spec fn view(&self) -> ContainerView {
        ContainerView { name: self.name@, image: option_text(self.image) }
    }
}

impl Container {
    /// The container with the given name and image.
    pub fn new(name: String, image: Option<String>) -> (c: Container)
        ensures
            c@ == (ContainerView { name: name@, image: option_text(image) }),
    {
        Container { name, image }
    }

    /// A second container with the same name and image.
    pub fn duplicate(&self) -> (c: Container)
        ensures
            c@ == self@,
    {
        Container { name: self.name.clone(), image: copy_text(&self.image) }
    }
}

/// The containers of a list as plain characters.
pub open spec fn container_views(containers: Seq<Container>) -> Seq<ContainerView> {
    containers.map_values(|c: Container| c@)
}

/// Copies a list of containers.
pub fn copy_containers(containers: &Vec<Container>) -> (copy: Vec<Container>)
    ensures
        container_views(copy@) == container_views(containers@),
{
    let mut copy: Vec<Container> = Vec::new();
    let mut i: usize = 0;
    while i < containers.len()
        invariant
            i <= containers@.len(),
            copy@.len() == i,
            forall|j: int| 0 <= j < i ==> (#[trigger] copy@[j])@ == containers@[j]@,
        decreases containers@.len() - i,
    {
        copy.push(containers[i].duplicate());
        i = i + 1;
    }
    assert(container_views(copy@) =~= container_views(containers@));
    copy
}

/// What a container reports of itself.
#[derive(Clone, Debug)]
pub enum ContainerStatus {
    /// The container has not started yet.
    Waiting { timestamp: Timestamp, message: String },
    /// The container is running.
    Running { timestamp: Timestamp },
    /// The container has exited.
    Terminated { timestamp: Timestamp, failed: bool, message: String },
}

/// A container status as plain values.
pub enum ContainerStatusView {
    Waiting { timestamp: Timestamp, message: Seq<char> },
    Running { timestamp: Timestamp },
    Terminated { timestamp: Timestamp, failed: bool, message: Seq<char> },
}

impl View for ContainerStatus {
    type V = ContainerStatusView;

    open spec fn view(&self) -> ContainerStatusView {
        match self {
            ContainerStatus::Waiting { timestamp, message } => ContainerStatusView::Waiting {
                timestamp: *timestamp,
                message: message@,
            },
            ContainerStatus::Running { timestamp } => ContainerStatusView::Running {
                timestamp: *timestamp,
            },
            ContainerStatus::Terminated {
                timestamp,
                failed,
                message,
            } => ContainerStatusView::Terminated {
                timestamp: *timestamp,
                failed: *failed,
                message: message@,
            },
        }
    }
}

/// How far along its life a status is: waiting, then running, then
/// terminated.
pub open spec fn rank(status: ContainerStatusView) -> nat {
    match status {
        ContainerStatusView::Waiting { .. } => 0,
        ContainerStatusView::Running { .. } => 1,
        ContainerStatusView::Terminated { .. } => 2,
    }
}

/// A run of statuses in which none falls back behind the one before it.
pub open spec fn never_regresses(statuses: Seq<ContainerStatusView>) -> bool {
    forall|i: int, j: int| 0 <= i <= j < statuses.len() ==> rank(statuses[i]) <= rank(statuses[j])
}

impl ContainerStatus {
    /// A waiting status with the given message.
    pub fn waiting(timestamp: Timestamp, message: &str) -> (s: ContainerStatus)
        ensures
            s@ == (ContainerStatusView::Waiting { timestamp, message: message@ }),
    {
        ContainerStatus::Waiting { timestamp, message: message.to_owned() }
    }

    /// A running status.
    pub fn running(timestamp: Timestamp) -> (s: ContainerStatus)
        ensures
            s@ == (ContainerStatusView::Running { timestamp }),
    {
        ContainerStatus::Running { timestamp }
    }

    /// A terminated status with the given message.
    pub fn terminated(timestamp: Timestamp, message: &str, failed: bool) -> (s: ContainerStatus)
        ensures
            s@ == (ContainerStatusView::Terminated { timestamp, failed, message: message@ }),
    {
        ContainerStatus::Terminated { timestamp, failed, message: message.to_owned() }
    }

    /// How far along its life the status is: 0 waiting, 1 running, 2
    /// terminated.
    pub fn stage(&self) -> (r: u8)
        ensures
            r == rank(self@),
    {
        match self {
            ContainerStatus::Waiting { .. } => 0,
            ContainerStatus::Running { .. } => 1,
            ContainerStatus::Terminated { .. } => 2,
        }
    }

    /// Whether the container counts as ready: it does while it runs.
    pub fn ready(&self) -> (r: bool)
        ensures
            r == (self@ is Running),
    {
        match self {
            ContainerStatus::Running { .. } => true,
            _ => false,
        }
    }

    /// The exit code that stands for the status once the container has
    /// exited: 1 where it failed, 0 where it did not. A container that has
    /// not exited has none.
    pub fn exit_code(&self) -> (code: Option<i32>)
        ensures
            code == match self@ {
                ContainerStatusView::Terminated { failed, .. } => Some(
                    if failed {
                        1i32
                    } else {
                        0i32
                    },
                ),
                _ => None,
            },
    {
        match self {
            ContainerStatus::Terminated { failed, .. } => Some(
                if *failed {
                    1
                } else {
                    0
                },
            ),
            _ => None,
        }
    }

    /// A second status with the same content.
    pub fn duplicate(&self) -> (s: ContainerStatus)
        ensures
            s@ == self@,
    {
        match self {
            ContainerStatus::Waiting { timestamp, message } => ContainerStatus::Waiting {
                timestamp: *timestamp,
                message: message.clone(),
            },
            ContainerStatus::Running { timestamp } => ContainerStatus::Running {
                timestamp: *timestamp,
            },
            ContainerStatus::Terminated { timestamp, failed, message } => {
                ContainerStatus::Terminated {
                    timestamp: *timestamp,
                    failed: *failed,
                    message: message.clone(),
                }
            },
        }
    }
}

/// The status stream of one container over one life: it holds the latest
/// status and takes a new one only where that is no step back.
pub struct StatusStream {
    current: ContainerStatus,
    reported: Ghost<Seq<ContainerStatusView>>,
}

impl StatusStream {
    #[verifier::type_invariant]
    spec fn inv(self) -> bool {
        &&& self.reported@.len() >= 1
        &&& self.reported@.last() == self.current@
        &&& never_regresses(self.reported@)
    }

    /// Every status that the stream has reported, oldest first.
    pub closed spec fn reported(&self) -> Seq<ContainerStatusView> {
        self.reported@
    }

    /// The latest status.
    pub closed spec fn latest(&self) -> ContainerStatusView {
        self.current@
    }

    /// A stream that has reported `first` and nothing else.
    pub fn new(first: ContainerStatus) -> (stream: StatusStream)
        ensures
            stream.reported() == Seq::<ContainerStatusView>::empty().push(first@),
            stream.latest() == first@,
    {
        let ghost first_view = first@;
        let reported: Ghost<Seq<ContainerStatusView>> = Ghost(Seq::empty().push(first_view));
        StatusStream { current: first, reported }
    }

    /// The latest status.
    pub fn current(&self) -> (s: &ContainerStatus)
        ensures
            s@ == self.latest(),
            self.reported().len() >= 1,
            self.reported().last() == self.latest(),
            never_regresses(self.reported()),
    {
        proof {
            use_type_invariant(self);
        }
        &self.current
    }

    /// Reports `next` unless it would be a step back: a stream that runs does
    /// not wait again, and one that has terminated stays so. Says whether
    /// the status was taken.
    pub fn report(&mut self, next: ContainerStatus) -> (taken: bool)
        ensures
            taken == (rank(old(self).latest()) <= rank(next@)),
            taken ==> final(self).reported() == old(self).reported().push(next@),
            taken ==> final(self).latest() == next@,
            !taken ==> final(self).reported() == old(self).reported(),
            !taken ==> final(self).latest() == old(self).latest(),
            never_regresses(final(self).reported()),
    {
        proof {
            use_type_invariant(&*self);
        }
        if self.current.stage() <= next.stage() {
            let ghost before = self.reported@;
            let ghost after = before.push(next@);
            proof {
                assert forall|i: int, j: int| 0 <= i <= j < after.len() implies rank(after[i])
                    <= rank(after[j]) by {
                    if j < before.len() {
                        assert(after[i] == before[i] && after[j] == before[j]);
                    } else if i < before.len() {
                        assert(after[i] == before[i]);
                        assert(rank(before[i]) <= rank(before[before.len() - 1]));
                    }
                }
            }
            let reported: Ghost<Seq<ContainerStatusView>> = Ghost(after);
            let mut replaced = StatusStream { current: next, reported };
            core::mem::swap(self, &mut replaced);
            true
        } else {
            false
        }
    }
}

} // verus!
