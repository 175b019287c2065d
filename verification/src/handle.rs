//! Handles on running workloads: what a provider holds of a container and
//! of a pod in order to stop them, wait for them and read their logs.

use vstd::prelude::*;
use vstd::string::*;

use crate::container::{Container, ContainerStatus};
use crate::pod::{Pod, Status, StatusMessageView};
use crate::table::{Key, Table};

verus! {

/// The key of a pod as a sequence of characters: the namespace, a colon, the
/// pod's name.
pub open spec fn pod_key_spec(namespace: Seq<char>, pod_name: Seq<char>) -> Seq<char> {
    namespace + seq![':'] + pod_name
}

/// Builds the human readable key under which a pod's handle is filed, from
/// the namespace and the pod's name.
pub fn pod_key(namespace: &str, pod_name: &str) -> (key: String)
    ensures
        key@ == pod_key_spec(namespace@, pod_name@),
{
    proof {
        reveal_strlit(":");
    }
    let mut key = String::from_str(namespace);
    key.append(":");
    key.append(pod_name);
    assert(":"@ =~= seq![':']);
    key
}

/// Builds the key under which a pod's handle is filed, from the pod.
pub fn key_from_pod(pod: &Pod) -> (key: String)
    ensures
        key@ == pod_key_spec(pod@.namespace, pod@.name),
{
    pod_key(pod.namespace(), pod.name())
}

/// How a provider stops one of its workloads. An implementation may say
/// what its calls do; one that says nothing promises nothing.
pub trait Stop {
    /// Whether a call of `stop` on this stopper may leave it as `after` and
    /// answer `answer`.
    open spec fn stops_as(&self, after: &Self, answer: Result<(), String>) -> bool {
        true
    }

    /// Whether a call of `wait` on this stopper may leave it as `after` and
    /// answer `answer`.
    open spec fn waits_as(&self, after: &Self, answer: Result<(), String>) -> bool {
        true
    }

    /// Signals the workload to stop, without waiting for it.
    fn stop(&mut self) -> (answer: Result<(), String>)
        ensures
            old(self).stops_as(final(self), answer),
    ;

    /// Waits until the workload has exited.
    fn wait(&mut self) -> (answer: Result<(), String>)
        ensures
            old(self).waits_as(final(self), answer),
    ;
}

/// How a provider opens one more reader on a workload's log. An
/// implementation may say which readers it hands out; one that says nothing
/// promises nothing.
pub trait LogHandleFactory<R> {
    /// Whether a call of `new_handle` may hand out `reader`.
    open spec fn opens(&self, reader: R) -> bool {
        true
    }

    /// A new reader of the log.
    fn new_handle(&self) -> (reader: R)
        ensures
            self.opens(reader),
    ;
}

/// The handle of one running container.
pub struct RuntimeHandle<S, H> {
    stopper: S,
    handle_factory: H,
}

impl<S: Stop, H> RuntimeHandle<S, H> {
    /// What stops the container.
    pub closed spec fn stopper(&self) -> S {
        self.stopper
    }

    /// What opens readers on the container's log.
    pub closed spec fn handle_factory(&self) -> H {
        self.handle_factory
    }

    /// A handle that stops the container through `stopper` and opens log
    /// readers through `handle_factory`.
    pub fn new(stopper: S, handle_factory: H) -> (handle: Self)
        ensures
            handle.stopper() == stopper,
            handle.handle_factory() == handle_factory,
    {
        RuntimeHandle { stopper, handle_factory }
    }

    /// Signals the container to stop, without waiting for it: the stopper
    /// is asked once, what it answers comes back, and the handle holds the
    /// stopper as the call left it.
    pub fn stop(&mut self) -> (r: Result<(), String>)
        ensures
            old(self).stopper().stops_as(&final(self).stopper(), r),
            final(self).handle_factory() == old(self).handle_factory(),
    {
        self.stopper.stop()
    }

    /// Waits until the container has exited: the stopper is asked once, what
    /// it answers comes back, and the handle holds the stopper as the call
    /// left it.
    pub fn wait(&mut self) -> (r: Result<(), String>)
        ensures
            old(self).stopper().waits_as(&final(self).stopper(), r),
            final(self).handle_factory() == old(self).handle_factory(),
    {
        self.stopper.wait()
    }

    /// Opens a fresh reader on the container's log: the one that the
    /// handle's factory hands out.
    pub fn output<R>(&self) -> (reader: R) where H: LogHandleFactory<R>
        ensures
            self.handle_factory().opens(reader),
    {
        self.handle_factory.new_handle()
    }
}

/// A container at run time: its manifest and the handle on its run.
pub struct RuntimeContainer<S, H> {
    spec: Container,
    handle: RuntimeHandle<S, H>,
}

impl<S: Stop, H> RuntimeContainer<S, H> {
    /// The container's manifest.
    pub closed spec fn manifest(&self) -> Container {
        self.spec
    }

    /// The handle on the container's run.
    pub closed spec fn handle(&self) -> RuntimeHandle<S, H> {
        self.handle
    }

    /// A running container with the given manifest, stopped through
    /// `stopper`, with log readers from `handle_factory`.
    pub fn new(spec: Container, stopper: S, handle_factory: H) -> (container: Self)
        ensures
            container.manifest() == spec,
            container.handle().stopper() == stopper,
            container.handle().handle_factory() == handle_factory,
    {
        RuntimeContainer { spec, handle: RuntimeHandle::new(stopper, handle_factory) }
    }

    /// Signals the container to stop, without waiting for it: the stopper
    /// is asked once, what it answers comes back, and the container holds
    /// the stopper as the call left it.
    pub fn stop(&mut self) -> (r: Result<(), String>)
        ensures
            old(self).handle().stopper().stops_as(&final(self).handle().stopper(), r),
            final(self).manifest() == old(self).manifest(),
            final(self).handle().handle_factory() == old(self).handle().handle_factory(),
    {
        self.handle.stop()
    }

    /// Waits until the container has exited: the stopper is asked once, what
    /// it answers comes back, and the container holds the stopper as the
    /// call left it.
    pub fn wait(&mut self) -> (r: Result<(), String>)
        ensures
            old(self).handle().stopper().waits_as(&final(self).handle().stopper(), r),
            final(self).manifest() == old(self).manifest(),
            final(self).handle().handle_factory() == old(self).handle().handle_factory(),
    {
        self.handle.wait()
    }

    /// Opens a fresh reader on the container's log: the one that the
    /// factory of the container's handle hands out.
    pub fn output<R>(&self) -> (reader: R) where H: LogHandleFactory<R>
        ensures
            self.handle().handle_factory().opens(reader),
    {
        self.handle.output()
    }

    /// A copy of the container's manifest.
    pub fn spec(&self) -> (spec: Container)
        ensures
            spec@ == self.manifest()@,
    {
        self.spec.duplicate()
    }
}

/// Why a provider could not serve a request about a workload.
#[derive(Debug)]
pub enum ProviderError {
    /// The provider runs no pod of this name.
    PodNotFound { pod_name: String },
    /// The pod has no container of this name.
    ContainerNotFound { pod_name: String, container_name: String },
}

/// A provider error as plain characters.
pub enum ProviderErrorView {
    PodNotFound { pod_name: Seq<char> },
    ContainerNotFound { pod_name: Seq<char>, container_name: Seq<char> },
}

impl View for ProviderError {
    type V = ProviderErrorView;

    open spec fn view(&self) -> ProviderErrorView {
        match self {
            ProviderError::PodNotFound { pod_name } => ProviderErrorView::PodNotFound {
                pod_name: pod_name@,
            },
            ProviderError::ContainerNotFound {
                pod_name,
                container_name,
            } => ProviderErrorView::ContainerNotFound {
                pod_name: pod_name@,
                container_name: container_name@,
            },
        }
    }
}

/// The failure of one container to stop: its name and the reason.
#[derive(Debug)]
pub struct StopFailure {
    pub container_name: String,
    pub reason: String,
}

/// What asking one container came to, as plain characters: the container's
/// name, and nothing or the reason of the failure.
pub type AskedView = (Seq<char>, Result<(), Seq<char>>);

/// What asking a list of containers came to, as plain characters.
pub open spec fn asked_views(asked: Seq<(String, Result<(), String>)>) -> Seq<AskedView> {
    asked.map_values(
        |a: (String, Result<(), String>)|
            (
                a.0@,
                match a.1 {
                    Ok(_) => Ok(()),
                    Err(e) => Err(e@),
                },
            ),
    )
}

/// Failures as plain characters: the container's name and the reason.
pub open spec fn failure_views(failures: Seq<StopFailure>) -> Seq<(Seq<char>, Seq<char>)> {
    failures.map_values(|f: StopFailure| (f.container_name@, f.reason@))
}

/// The failures among what the containers answered, in the order in which
/// they were asked.
pub open spec fn failures_in(asked: Seq<AskedView>) -> Seq<(Seq<char>, Seq<char>)>
    decreases asked.len(),
{
    if asked.len() == 0 {
        Seq::empty()
    } else {
        let before = failures_in(asked.drop_last());
        match asked.last().1 {
            Ok(_) => before,
            Err(reason) => before.push((asked.last().0, reason)),
        }
    }
}

/// The first failure among what the containers answered, if any failed.
pub open spec fn first_failure_in(asked: Seq<AskedView>) -> Option<(Seq<char>, Seq<char>)>
    decreases asked.len(),
{
    if asked.len() == 0 {
        None
    } else {
        match first_failure_in(asked.drop_last()) {
            Some(failure) => Some(failure),
            None => match asked.last().1 {
                Ok(_) => None,
                Err(reason) => Some((asked.last().0, reason)),
            },
        }
    }
}

/// A failure as plain characters, if there is one.
pub open spec fn failure_view(failure: Option<StopFailure>) -> Option<(Seq<char>, Seq<char>)> {
    match failure {
        Some(f) => Some((f.container_name@, f.reason@)),
        None => None,
    }
}

/// The answers of a run of calls, each with the name of the container that
/// gave it, as plain characters.
pub open spec fn named_answers(names: Seq<Seq<char>>, answers: Seq<Result<(), String>>) -> Seq<
    AskedView,
> {
    Seq::new(
        answers.len(),
        |i: int|
            (
                names[i],
                match answers[i] {
                    Ok(_) => Ok(()),
                    Err(e) => Err(e@),
                },
            ),
    )
}

/// Every handle's stopper was asked once to stop: the handle at each place
/// went from `before` to `after` by one call of `stop` on its stopper, which
/// gave the answer at that place, and kept its log factory.
pub open spec fn stopped_as<S: Stop, H>(
    before: Seq<RuntimeHandle<S, H>>,
    after: Seq<RuntimeHandle<S, H>>,
    answers: Seq<Result<(), String>>,
) -> bool {
    &&& after.len() == before.len()
    &&& answers.len() == before.len()
    &&& forall|i: int|
        0 <= i < before.len() ==> (#[trigger] before[i]).stopper().stops_as(
            &after[i].stopper(),
            answers[i],
        ) && after[i].handle_factory() == before[i].handle_factory()
}

/// The handles' stoppers were asked to wait, one after the other, up to the
/// first that failed: each handle that was asked went from `before` to
/// `after` by one call of `wait` on its stopper, which gave the answer at
/// that place, and kept its log factory; the handles behind the failure are
/// as they were.
pub open spec fn waited_as<S: Stop, H>(
    before: Seq<RuntimeHandle<S, H>>,
    after: Seq<RuntimeHandle<S, H>>,
    answers: Seq<Result<(), String>>,
) -> bool {
    &&& after.len() == before.len()
    &&& answers.len() <= before.len()
    &&& forall|i: int|
        0 <= i < answers.len() ==> (#[trigger] before[i]).stopper().waits_as(
            &after[i].stopper(),
            answers[i],
        ) && after[i].handle_factory() == before[i].handle_factory()
    &&& forall|i: int| answers.len() <= i < before.len() ==> #[trigger] after[i] == before[i]
    &&& forall|i: int| 0 <= i < answers.len() - 1 ==> (#[trigger] answers[i]) is Ok
    &&& answers.len() < before.len() ==> answers.len() >= 1 && answers.last() is Err
}

/// `failures` is what stopping the handles may report: some run of answers,
/// one from each handle's stopper, has these failures.
pub open spec fn stop_report<S: Stop, H>(
    before: Seq<RuntimeHandle<S, H>>,
    names: Seq<Seq<char>>,
    failures: Seq<(Seq<char>, Seq<char>)>,
) -> bool {
    exists|after: Seq<RuntimeHandle<S, H>>, answers: Seq<Result<(), String>>| #[trigger]
        stopped_as(before, after, answers) && failures == failures_in(
            named_answers(names, answers),
        )
}

/// Picks the failures out of what the containers answered.
pub fn stop_failures(asked: &Vec<(String, Result<(), String>)>) -> (failures: Vec<StopFailure>)
    ensures
        failure_views(failures@) == failures_in(asked_views(asked@)),
{
    let mut failures: Vec<StopFailure> = Vec::new();
    let ghost all = asked_views(asked@);
    let mut i: usize = 0;
    assert(all.take(0) =~= Seq::<AskedView>::empty());
    assert(failure_views(failures@) =~= failures_in(all.take(0)));
    while i < asked.len()
        invariant
            i <= asked@.len(),
            all == asked_views(asked@),
            failure_views(failures@) == failures_in(all.take(i as int)),
        decreases asked@.len() - i,
    {
        proof {
            assert(all.take(i as int + 1).drop_last() =~= all.take(i as int));
            assert(all.take(i as int + 1).last() == all[i as int]);
        }
        let ghost failed_before = failure_views(failures@);
        match &asked[i].1 {
            Ok(_) => {},
            Err(reason) => {
                failures.push(
                    StopFailure { container_name: asked[i].0.clone(), reason: reason.clone() },
                );
                assert(failure_views(failures@) =~= failed_before.push(
                    (asked@[i as int].0@, reason@),
                ));
            },
        }
        i = i + 1;
    }
    assert(all.take(all.len() as int) =~= all);
    failures
}

/// What became of waiting for a pod.
#[derive(Debug)]
pub enum WaitError {
    /// Waiting for this container failed; the containers after it were not
    /// waited for.
    Container { container_name: String, reason: String },
    /// Every container exited, but the task that reports their statuses
    /// failed.
    StatusTask { reason: String },
}

/// What waiting for a pod comes to once its containers were waited for:
/// the first failure among the containers, else the outcome of the task
/// that reports their statuses.
pub fn wait_outcome(containers: Option<StopFailure>, status_task: Result<(), String>) -> (r: Result<
    (),
    WaitError,
>)
    ensures
        match containers {
            Some(failure) => r == Err::<(), WaitError>(
                WaitError::Container {
                    container_name: failure.container_name,
                    reason: failure.reason,
                },
            ),
            None => match status_task {
                Ok(_) => r is Ok,
                Err(reason) => r == Err::<(), WaitError>(WaitError::StatusTask { reason }),
            },
        },
{
    match containers {
        Some(failure) => Err(
            WaitError::Container {
                container_name: failure.container_name,
                reason: failure.reason,
            },
        ),
        None => match status_task {
            Ok(_) => Ok(()),
            Err(reason) => Err(WaitError::StatusTask { reason }),
        },
    }
}

/// The handle of a running pod: the handles of its containers, by name, and
/// the pod.
pub struct PodHandle<S, H> {
    container_handles: Table<String, RuntimeHandle<S, H>>,
    pod: Pod,
}

impl<S: Stop, H> PodHandle<S, H> {
    /// The names of the pod's containers, in the order of their handles.
    pub closed spec fn container_names(&self) -> Seq<Seq<char>> {
        self.container_handles.ids()
    }

    /// The handles of the pod's containers, in the order of
    /// `container_names`.
    pub closed spec fn handles(&self) -> Seq<RuntimeHandle<S, H>> {
        self.container_handles.entries().map_values(|e: (String, RuntimeHandle<S, H>)| e.1)
    }

    /// The handle of the container of this name, where the pod has one.
    pub closed spec fn handle(&self, container_name: Seq<char>) -> RuntimeHandle<S, H> {
        self.container_handles@[container_name]
    }

    /// The pod.
    pub closed spec fn pod(&self) -> Pod {
        self.pod
    }

    /// A handle on the pod with the given container handles.
    pub fn new(container_handles: Table<String, RuntimeHandle<S, H>>, pod: Pod) -> (handle: Self)
        ensures
            handle.container_names() == container_handles.ids(),
            handle.handles() == container_handles.entries().map_values(
                |e: (String, RuntimeHandle<S, H>)| e.1,
            ),
            forall|name: Seq<char>| #[trigger] handle.handle(name) == container_handles@[name],
            handle.pod() == pod,
    {
        PodHandle { container_handles, pod }
    }

    /// How many containers the pod has. Each has one name and one handle:
    /// no name occurs twice, and the handle at a place is the handle of the
    /// name at that place.
    pub fn container_count(&self) -> (n: usize)
        ensures
            n == self.container_names().len(),
            n == self.handles().len(),
            self.container_names().no_duplicates(),
            forall|i: int|
                0 <= i < n ==> self.handle(#[trigger] self.container_names()[i])
                    == self.handles()[i],
    {
        let n = self.container_handles.len();
        proof {
            assert forall|i: int| 0 <= i < n implies self.handle(
                #[trigger] self.container_names()[i],
            ) == self.handles()[i] by {
                crate::table::lemma_place(self.container_handles.entries(), i);
            }
        }
        n
    }

    /// The update that reports the status of one container and leaves the
    /// pod's message as it is: what is published each time a container
    /// reports.
    pub fn status_update(name: String, status: ContainerStatus) -> (update: Status)
        ensures
            update.message@ == StatusMessageView::LeaveUnchanged,
            update.container_statuses@ == Map::<Seq<char>, ContainerStatus>::empty().insert(
                name@,
                status,
            ),
    {
        Status::of_container(name, status)
    }

    /// Whether the pod has a container of this name.
    pub fn has_container(&self, container_name: &str) -> (r: bool)
        ensures
            r == self.container_names().contains(container_name@),
    {
        let name = container_name.to_owned();
        let found = self.container_handles.find(&name);
        proof {
            lemma_names_contain(self.container_handles.entries(), container_name@);
        }
        found.is_some()
    }

    /// Opens a fresh reader on the log of the named container: the one
    /// that the factory of that container's handle hands out. A pod without
    /// such a container gives an error that names both.
    pub fn output<R>(&self, container_name: &str) -> (r: Result<R, ProviderError>) where
        H: LogHandleFactory<R>,

        ensures
            r is Ok == self.container_names().contains(container_name@),
            r is Ok ==> self.handle(container_name@).handle_factory().opens(r->Ok_0),
            r is Err ==> r->Err_0@ == (ProviderErrorView::ContainerNotFound {
                pod_name: self.pod()@.name,
                container_name: container_name@,
            }),
    {
        let name = container_name.to_owned();
        proof {
            lemma_names_contain(self.container_handles.entries(), container_name@);
        }
        match self.container_handles.get(&name) {
            Some(handle) => Ok(handle.output()),
            None => Err(
                ProviderError::ContainerNotFound {
                    pod_name: self.pod.name().to_owned(),
                    container_name: name,
                },
            ),
        }
    }

    /// Signals every container to stop, in the order of the handles: the
    /// stopper of each handle is asked once. A container that fails to stop
    /// does not keep the others from being asked, and the failures among the
    /// answers come back, each with its container's name, in that order.
    pub fn stop(&mut self) -> (failures: Vec<StopFailure>)
        ensures
            final(self).container_names() == old(self).container_names(),
            final(self).pod() == old(self).pod(),
            exists|answers: Seq<Result<(), String>>| #[trigger]
                stopped_as(old(self).handles(), final(self).handles(), answers) && failure_views(
                    failures@,
                ) == failures_in(named_answers(old(self).container_names(), answers)),
    {
        let ghost names = self.container_names();
        let ghost handles_before = self.handles();
        let mut handles: Table<String, RuntimeHandle<S, H>> = Table::new();
        core::mem::swap(&mut self.container_handles, &mut handles);
        let mut entries = handles.into_entries();
        let ghost before = entries@;
        let mut asked: Vec<(String, Result<(), String>)> = Vec::new();
        let n = entries.len();
        let mut i: usize = 0;
        while i < n
            invariant
                i <= n,
                n == entries@.len(),
                n == before.len(),
                names == before.map_values(|e: (String, RuntimeHandle<S, H>)| e.0.id()),
                forall|j: int| 0 <= j < n ==> (#[trigger] entries@[j]).0 == before[j].0,
                forall|j: int| i <= j < n ==> #[trigger] entries@[j] == before[j],
                asked@.len() == i,
                forall|j: int| 0 <= j < i ==> (#[trigger] asked@[j]).0@ == names[j],
                forall|j: int|
                    0 <= j < i ==> (#[trigger] before[j]).1.stopper().stops_as(
                        &entries@[j].1.stopper(),
                        asked@[j].1,
                    ) && entries@[j].1.handle_factory() == before[j].1.handle_factory(),
            decreases n - i,
        {
            let ghost entries_before = entries@;
            let (name, mut handle) = entries.remove(i);
            let outcome = handle.stop();
            proof {
                assert(names[i as int] == name@);
            }
            asked.push((name.clone(), outcome));
            entries.insert(i, (name, handle));
            proof {
                assert(entries@ =~= entries_before.update(i as int, (name, handle)));
            }
            i = i + 1;
        }
        proof {
            assert forall|a: int, b: int|
                0 <= a < entries@.len() && 0 <= b < entries@.len() && a != b implies (
            #[trigger] entries@[a]).0.id() != (#[trigger] entries@[b]).0.id() by {
                assert(entries@[a].0 == before[a].0);
                assert(entries@[b].0 == before[b].0);
            }
        }
        let ghost after = entries@;
        let mut restored = Table::from_entries(entries);
        core::mem::swap(&mut self.container_handles, &mut restored);
        assert(self.container_names() =~= names);
        let failures = stop_failures(&asked);
        proof {
            let answers = asked@.map_values(|a: (String, Result<(), String>)| a.1);
            assert(asked_views(asked@) =~= named_answers(names, answers));
            assert(handles_before == before.map_values(|e: (String, RuntimeHandle<S, H>)| e.1));
            assert(self.handles() == after.map_values(|e: (String, RuntimeHandle<S, H>)| e.1));
            assert(stopped_as(handles_before, self.handles(), answers)) by {
                assert forall|j: int| 0 <= j < handles_before.len() implies (
                #[trigger] handles_before[j]).stopper().stops_as(
                    &self.handles()[j].stopper(),
                    answers[j],
                ) && self.handles()[j].handle_factory() == handles_before[j].handle_factory() by {
                    assert(before[j].1.stopper().stops_as(&after[j].1.stopper(), asked@[j].1));
                }
            }
        }
        failures
    }

    /// Waits for the containers to exit, in the order of the handles, and
    /// stops at the first that fails: the stopper of each handle up to that
    /// one is asked once, the handles behind it are left alone, and the
    /// failure comes back with its container's name.
    pub fn wait(&mut self) -> (failure: Option<StopFailure>)
        ensures
            final(self).container_names() == old(self).container_names(),
            final(self).pod() == old(self).pod(),
            exists|answers: Seq<Result<(), String>>| #[trigger]
                waited_as(old(self).handles(), final(self).handles(), answers) && failure_view(
                    failure,
                ) == first_failure_in(named_answers(old(self).container_names(), answers)),
    {
        let ghost names = self.container_names();
        let ghost handles_before = self.handles();
        let mut handles: Table<String, RuntimeHandle<S, H>> = Table::new();
        core::mem::swap(&mut self.container_handles, &mut handles);
        let mut entries = handles.into_entries();
        let ghost before = entries@;
        let mut failure: Option<StopFailure> = None;
        let ghost mut answers: Seq<Result<(), String>> = Seq::empty();
        let n = entries.len();
        let mut i: usize = 0;
        assert(named_answers(names, answers) =~= Seq::<AskedView>::empty());
        while i < n && failure.is_none()
            invariant
                i <= n,
                n == entries@.len(),
                n == before.len(),
                names == before.map_values(|e: (String, RuntimeHandle<S, H>)| e.0.id()),
                forall|j: int| 0 <= j < n ==> (#[trigger] entries@[j]).0 == before[j].0,
                forall|j: int| i <= j < n ==> #[trigger] entries@[j] == before[j],
                answers.len() == i,
                forall|j: int|
                    0 <= j < i ==> (#[trigger] before[j]).1.stopper().waits_as(
                        &entries@[j].1.stopper(),
                        answers[j],
                    ) && entries@[j].1.handle_factory() == before[j].1.handle_factory(),
                forall|j: int| 0 <= j < i - 1 ==> (#[trigger] answers[j]) is Ok,
                failure is Some ==> i >= 1 && answers.last() is Err,
                failure is None ==> forall|j: int| 0 <= j < i ==> (#[trigger] answers[j]) is Ok,
                failure_view(failure) == first_failure_in(named_answers(names, answers)),
            decreases n - i,
        {
            let ghost entries_before = entries@;
            let ghost answers_before = answers;
            let (name, mut handle) = entries.remove(i);
            proof {
                assert(names[i as int] == name@);
            }
            let answer = handle.wait();
            proof {
                answers = answers.push(answer);
            }
            match answer {
                Ok(_) => {},
                Err(reason) => {
                    failure = Some(StopFailure { container_name: name.clone(), reason });
                },
            }
            entries.insert(i, (name, handle));
            proof {
                assert(entries@ =~= entries_before.update(i as int, (name, handle)));
                let asked = named_answers(names, answers);
                assert(asked.drop_last() =~= named_answers(names, answers_before));
            }
            i = i + 1;
        }
        proof {
            assert forall|a: int, b: int|
                0 <= a < entries@.len() && 0 <= b < entries@.len() && a != b implies (
            #[trigger] entries@[a]).0.id() != (#[trigger] entries@[b]).0.id() by {
                assert(entries@[a].0 == before[a].0);
                assert(entries@[b].0 == before[b].0);
            }
        }
        let ghost after = entries@;
        let mut restored = Table::from_entries(entries);
        core::mem::swap(&mut self.container_handles, &mut restored);
        assert(self.container_names() =~= names);
        proof {
            assert(handles_before == before.map_values(|e: (String, RuntimeHandle<S, H>)| e.1));
            assert(self.handles() == after.map_values(|e: (String, RuntimeHandle<S, H>)| e.1));
            assert(waited_as(handles_before, self.handles(), answers)) by {
                assert forall|j: int| 0 <= j < answers.len() implies (
                #[trigger] handles_before[j]).stopper().waits_as(
                    &self.handles()[j].stopper(),
                    answers[j],
                ) && self.handles()[j].handle_factory() == handles_before[j].handle_factory() by {
                    assert(before[j].1.stopper().waits_as(&after[j].1.stopper(), answers[j]));
                }
                assert forall|j: int| answers.len() <= j < handles_before.len() implies (
                #[trigger] self.handles()[j]) == handles_before[j] by {
                    assert(after[j] == before[j]);
                }
            }
        }
        failure
    }
}

/// A name is among the names of a list of entries exactly where an entry is
/// filed under it.
pub proof fn lemma_names_contain<V>(entries: Seq<(String, V)>, name: Seq<char>)
    ensures
        entries.map_values(|e: (String, V)| e.0.id()).contains(name) <==> crate::table::has_id(
            entries,
            name,
        ),
        crate::table::entries_map(entries).contains_key(name) <==> crate::table::has_id(
            entries,
            name,
        ),
{
    let ids = entries.map_values(|e: (String, V)| e.0.id());
    if ids.contains(name) {
        let i = choose|i: int| 0 <= i < ids.len() && ids[i] == name;
        assert(entries[i].0.id() == name);
    }
    if crate::table::has_id(entries, name) {
        let i = choose|i: int| 0 <= i < entries.len() && (#[trigger] entries[i]).0.id() == name;
        assert(ids[i] == name);
    }
}


} // verus!
