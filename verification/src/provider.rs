//! What a provider of WebAssembly workloads decides about the pods it is
//! offered and the pods it runs.

use vstd::prelude::*;
use vstd::string::*;

use crate::handle::{
    failure_views, failures_in, lemma_names_contain, named_answers, pod_key, pod_key_spec,
    stop_report, stopped_as, LogHandleFactory, PodHandle, ProviderError, ProviderErrorView, Stop,
    StopFailure,
};
use crate::pod::{label_views, Pod};
use crate::table::Table;

verus! {

/// The architecture that the provider runs.
pub const TARGET_WASM32_WASI: &'static str = "wasm32-wasi";

/// The label by which a pod selects the architecture of its node.
pub const ARCH_LABEL: &'static str = "beta.kubernetes.io/arch";

/// The value that the first label named `name` has, if there is one.
pub open spec fn label_value(labels: Seq<(Seq<char>, Seq<char>)>, name: Seq<char>) -> Option<
    Seq<char>,
>
    decreases labels.len(),
{
    if labels.len() == 0 {
        None
    } else if labels[0].0 == name {
        Some(labels[0].1)
    } else {
        label_value(labels.drop_first(), name)
    }
}

/// Whether a pod with these node selector labels can be scheduled on a node
/// of the architecture: it can where it selects exactly that architecture.
pub open spec fn schedulable(labels: Seq<(Seq<char>, Seq<char>)>, arch: Seq<char>) -> bool {
    label_value(labels, ARCH_LABEL@) == Some(arch)
}

/// Whether the pod selects the architecture `arch` for its node.
pub fn selects_arch(pod: &Pod, arch: &str) -> (r: bool)
    ensures
        r == schedulable(pod@.node_selector, arch@),
{
    let labels = &pod.node_selector;
    let ghost views = label_views(labels@);
    let mut i: usize = 0;
    assert(views.skip(0) =~= views);
    while i < labels.len()
        invariant
            i <= labels@.len(),
            labels == &pod.node_selector,
            views == label_views(labels@),
            views == pod@.node_selector,
            label_value(views, ARCH_LABEL@) == label_value(views.skip(i as int), ARCH_LABEL@),
        decreases labels@.len() - i,
    {
        let ghost rest = views.skip(i as int);
        proof {
            assert(rest[0] == views[i as int]);
            assert(views[i as int] == (labels@[i as int].0@, labels@[i as int].1@));
            assert(rest.drop_first() =~= views.skip(i as int + 1));
        }
        if crate::text::same_text(labels[i].0.as_str(), ARCH_LABEL) {
            return crate::text::same_text(labels[i].1.as_str(), arch);
        }
        i = i + 1;
    }
    false
}

/// A provider that runs WebAssembly modules built for the system
/// interface: the handles of the pods it runs, by pod key.
pub struct WasiProvider<S, H> {
    handles: Table<String, PodHandle<S, H>>,
}

impl<S: Stop, H> Default for WasiProvider<S, H> {
    fn default() -> (provider: Self)
        ensures
            provider.pods() == Seq::<Seq<char>>::empty(),
    {
        let provider = WasiProvider { handles: Table::new() };
        assert(provider.pods() =~= Seq::<Seq<char>>::empty());
        provider
    }
}

impl<S: Stop, H> WasiProvider<S, H> {
    /// The keys of the pods that the provider runs.
    pub closed spec fn pods(&self) -> Seq<Seq<char>> {
        self.handles.ids()
    }

    /// The handle of the pod filed under a key.
    pub closed spec fn handle_of(&self, key: Seq<char>) -> PodHandle<S, H> {
        self.handles@[key]
    }

    /// The architecture that the provider runs.
    pub fn arch(&self) -> (arch: String)
        ensures
            arch@ == TARGET_WASM32_WASI@,
    {
        String::from_str(TARGET_WASM32_WASI)
    }

    /// Whether the provider can run the pod: it can where the pod's node
    /// selector asks for the provider's architecture.
    pub fn can_schedule(&self, pod: &Pod) -> (r: bool)
        ensures
            r == schedulable(pod@.node_selector, TARGET_WASM32_WASI@),
    {
        selects_arch(pod, TARGET_WASM32_WASI)
    }

    /// Whether the provider runs a pod of this namespace and name.
    pub fn runs(&self, namespace: &str, pod_name: &str) -> (r: bool)
        ensures
            r == self.pods().contains(pod_key_spec(namespace@, pod_name@)),
    {
        let key = pod_key(namespace, pod_name);
        proof {
            lemma_names_contain(self.handles.entries(), key@);
        }
        self.handles.contains_key(&key)
    }

    /// Files the handle of a pod that has been started. A handle filed for
    /// the same pod before is handed back.
    pub fn add(&mut self, namespace: &str, pod_name: &str, handle: PodHandle<S, H>) -> (previous:
        Option<PodHandle<S, H>>)
        ensures
            previous is Some == old(self).pods().contains(pod_key_spec(namespace@, pod_name@)),
            previous is Some ==> previous->Some_0 == old(self).handle_of(
                pod_key_spec(namespace@, pod_name@),
            ),
            final(self).pods() == if previous is Some {
                old(self).pods()
            } else {
                old(self).pods().push(pod_key_spec(namespace@, pod_name@))
            },
            final(self).handle_of(pod_key_spec(namespace@, pod_name@)) == handle,
            forall|other: Seq<char>|
                other != pod_key_spec(namespace@, pod_name@) ==> final(self).handle_of(other)
                    == old(self).handle_of(other),
    {
        let key = pod_key(namespace, pod_name);
        proof {
            lemma_names_contain(self.handles.entries(), key@);
        }
        self.handles.insert(key, handle)
    }

    /// Stops the pod and forgets its handle: the stopper of each of the
    /// pod's containers is asked once to stop. Gives the containers that
    /// failed to stop, or nothing where the provider runs no such pod.
    pub fn delete(&mut self, namespace: &str, pod_name: &str) -> (failures: Option<Vec<StopFailure>>)
        ensures
            failures is Some == old(self).pods().contains(pod_key_spec(namespace@, pod_name@)),
            failures is Some ==> stop_report(
                old(self).handle_of(pod_key_spec(namespace@, pod_name@)).handles(),
                old(self).handle_of(pod_key_spec(namespace@, pod_name@)).container_names(),
                failure_views(failures->Some_0@),
            ),
            forall|other: Seq<char>|
                other != pod_key_spec(namespace@, pod_name@) ==> final(self).handle_of(other)
                    == old(self).handle_of(other),
            final(self).pods() == crate::table::without(
                old(self).pods(),
                pod_key_spec(namespace@, pod_name@),
            ),
    {
        let key = pod_key(namespace, pod_name);
        proof {
            lemma_names_contain(self.handles.entries(), key@);
        }
        match self.handles.remove(&key) {
            Some(handle) => {
                let mut handle = handle;
                let ghost before = handle.handles();
                let failures = handle.stop();
                proof {
                    let answers = choose|answers: Seq<Result<(), String>>| #[trigger]
                        stopped_as(before, handle.handles(), answers) && failure_views(failures@)
                            == failures_in(named_answers(handle.container_names(), answers));
                    assert(stopped_as(before, handle.handles(), answers));
                }
                Some(failures)
            },
            None => None,
        }
    }

    /// Opens a fresh reader on the log of a container of a pod: the one that
    /// the factory of that container's handle hands out. A pod that the
    /// provider does not run, and a container that the pod does not have,
    /// each give their own error.
    pub fn logs<R>(&self, namespace: &str, pod_name: &str, container_name: &str) -> (r: Result<
        R,
        ProviderError,
    >) where H: LogHandleFactory<R>
        ensures
            r is Ok == (self.pods().contains(pod_key_spec(namespace@, pod_name@)) && self.handle_of(
                pod_key_spec(namespace@, pod_name@),
            ).container_names().contains(container_name@)),
            r is Ok ==> self.handle_of(pod_key_spec(namespace@, pod_name@)).handle(
                container_name@,
            ).handle_factory().opens(r->Ok_0),
            r is Err ==> r->Err_0@ == if self.pods().contains(pod_key_spec(namespace@, pod_name@)) {
                ProviderErrorView::ContainerNotFound {
                    pod_name: self.handle_of(pod_key_spec(namespace@, pod_name@)).pod()@.name,
                    container_name: container_name@,
                }
            } else {
                ProviderErrorView::PodNotFound { pod_name: pod_name@ }
            },
    {
        let key = pod_key(namespace, pod_name);
        proof {
            lemma_names_contain(self.handles.entries(), key@);
        }
        match self.handles.get(&key) {
            Some(handle) => handle.output(container_name),
            None => Err(ProviderError::PodNotFound { pod_name: pod_name.to_owned() }),
        }
    }
}

} // verus!
