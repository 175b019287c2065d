//! The event queue: it turns the single stream of watch events into what has
//! to happen to the per-pod mailboxes, in order.

use vstd::prelude::*;
use vstd::string::*;

use crate::pod::{Pod, PodKey, PodKeyView, PodView};
use crate::table::{has_id, lemma_without, without, Key, Table};

verus! {

/// How many events a pod's mailbox holds before the sender has to wait.
pub const MAILBOX_CAPACITY: usize = 16;

/// An event of the watch on the node's pods.
#[derive(Clone, Debug)]
pub enum Event {
    /// The pod was created or changed; holds the whole pod.
    Applied(Pod),
    /// The pod was deleted; holds the pod as it last was.
    Deleted(Pod),
    /// The watch started over; holds every pod that exists now.
    Restarted(Vec<Pod>),
}

/// An event as plain values.
pub enum EventView {
    Applied(PodView),
    Deleted(PodView),
    Restarted(Seq<PodView>),
}

/// Pods as plain values.
pub open spec fn pod_views(pods: Seq<Pod>) -> Seq<PodView> {
    pods.map_values(|p: Pod| p@)
}

impl View for Event {
    type V = EventView;

    open spec fn view(&self) -> EventView {
        match self {
            Event::Applied(pod) => EventView::Applied(pod@),
            Event::Deleted(pod) => EventView::Deleted(pod@),
            Event::Restarted(pods) => EventView::Restarted(pod_views(pods@)),
        }
    }
}

/// What the queue asks of the runtime that owns the mailboxes.
#[derive(Debug)]
pub enum Action {
    /// Create the pod's mailbox and start its state task, with this pod as
    /// the first manifest.
    Start { key: PodKey, pod: Pod },
    /// Put the event into the pod's mailbox, waiting while it is full.
    Forward { key: PodKey, event: Event },
    /// Give up the sending end of the pod's mailbox.
    Close { key: PodKey },
}

/// An action as plain values.
pub enum ActionView {
    Start { key: PodKeyView, pod: PodView },
    Forward { key: PodKeyView, event: EventView },
    Close { key: PodKeyView },
}

impl View for Action {
    type V = ActionView;

    open spec fn view(&self) -> ActionView {
        match self {
            Action::Start { key, pod } => ActionView::Start { key: key@, pod: pod@ },
            Action::Forward { key, event } => ActionView::Forward { key: key@, event: event@ },
            Action::Close { key } => ActionView::Close { key: key@ },
        }
    }
}

/// Actions as plain values.
pub open spec fn action_views(actions: Seq<Action>) -> Seq<ActionView> {
    actions.map_values(|a: Action| a@)
}

/// What the event of one pod does to the keys that have a mailbox, and what
/// it asks of the runtime. An applied pod without a mailbox gets one, then
/// the event; a deleted pod with a mailbox gets the event as the last one,
/// and the mailbox is closed; a deleted pod without a mailbox does nothing.
/// A restart is no single pod's event: `dispatch` takes it apart into such
/// events, and here it stands for none.
pub open spec fn dispatch_pod(keys: Seq<PodKeyView>, event: EventView) -> (
    Seq<PodKeyView>,
    Seq<ActionView>,
) {
    match event {
        EventView::Applied(pod) => if keys.contains(pod.key()) {
            (keys, seq![ActionView::Forward { key: pod.key(), event }])
        } else {
            (
                keys.push(pod.key()),
                seq![
                    ActionView::Start { key: pod.key(), pod },
                    ActionView::Forward { key: pod.key(), event },
                ],
            )
        },
        EventView::Deleted(pod) => if keys.contains(pod.key()) {
            (
                without(keys, pod.key()),
                seq![
                    ActionView::Forward { key: pod.key(), event },
                    ActionView::Close { key: pod.key() },
                ],
            )
        } else {
            (keys, Seq::empty())
        },
        EventView::Restarted(_) => (keys, Seq::empty()),
    }
}

/// What a run of single pods' events does, one after the other.
pub open spec fn dispatch_pods(keys: Seq<PodKeyView>, events: Seq<EventView>) -> (
    Seq<PodKeyView>,
    Seq<ActionView>,
)
    decreases events.len(),
{
    if events.len() == 0 {
        (keys, Seq::empty())
    } else {
        let before = dispatch_pods(keys, events.drop_last());
        let step = dispatch_pod(before.0, events.last());
        (step.0, before.1 + step.1)
    }
}

/// The pod that stands for a key in a deletion that the queue makes up: the
/// key's namespace and name, and nothing else.
pub open spec fn stub(key: PodKeyView) -> PodView {
    PodView {
        namespace: key.namespace,
        name: key.name,
        deletion_timestamp: None,
        init_containers: Seq::empty(),
        containers: Seq::empty(),
        node_selector: Seq::empty(),
    }
}

/// The keys of a list of pods.
pub open spec fn pod_keys(pods: Seq<PodView>) -> Seq<PodKeyView> {
    pods.map_values(|p: PodView| p.key())
}

/// A deletion for each of `keys` that no pod of `listed` has, in the order of
/// `keys`.
pub open spec fn missing_deletes(keys: Seq<PodKeyView>, listed: Seq<PodView>) -> Seq<EventView>
    decreases keys.len(),
{
    if keys.len() == 0 {
        Seq::empty()
    } else {
        let front = missing_deletes(keys.drop_last(), listed);
        if pod_keys(listed).contains(keys.last()) {
            front
        } else {
            front.push(EventView::Deleted(stub(keys.last())))
        }
    }
}

/// The events that a resync comes to: a deletion for every mailbox whose pod
/// is not listed, then an application of every listed pod.
pub open spec fn resync_events(keys: Seq<PodKeyView>, listed: Seq<PodView>) -> Seq<EventView> {
    missing_deletes(keys, listed) + listed.map_values(|p: PodView| EventView::Applied(p))
}

/// What one event of the watch does to the keys that have a mailbox, and
/// what it asks of the runtime. An applied or deleted pod is handled as
/// `dispatch_pod` says. A restart is a resync to the pods it lists: a
/// deletion for every mailbox whose pod is not listed, then an application
/// of every listed pod.
pub open spec fn dispatch(keys: Seq<PodKeyView>, event: EventView) -> (
    Seq<PodKeyView>,
    Seq<ActionView>,
) {
    match event {
        EventView::Restarted(listed) => dispatch_pods(keys, resync_events(keys, listed)),
        _ => dispatch_pod(keys, event),
    }
}

/// What a run of events of the watch does, one after the other.
pub open spec fn dispatch_all(keys: Seq<PodKeyView>, events: Seq<EventView>) -> (
    Seq<PodKeyView>,
    Seq<ActionView>,
)
    decreases events.len(),
{
    if events.len() == 0 {
        (keys, Seq::empty())
    } else {
        let before = dispatch_all(keys, events.drop_last());
        let step = dispatch(before.0, events.last());
        (step.0, before.1 + step.1)
    }
}

/// Why an event could not be handed on.
#[derive(Debug, PartialEq, Eq)]
pub enum QueueError {
    /// The pod's state could not be set up, so no task was started.
    StartFailed,
}

/// The kind of event that was sent to a mailbox.
#[derive(Clone, Copy, Debug, PartialEq, Eq, Structural)]
pub enum Sent {
    /// An applied pod.
    Applied,
    /// A deleted pod.
    Deleted,
}

/// What became of an event that was sent to a mailbox.
#[derive(Clone, Copy, Debug, PartialEq, Eq, Structural)]
pub enum SendOutcome {
    /// The mailbox took it.
    Delivered,
    /// The mailbox was closed or gone: the event is dropped, which is worth
    /// a line in the log and nothing more. Holds the kind of event.
    Dropped(Sent),
}

/// What a send to a mailbox comes to. An event that did not get through is
/// dropped, whatever its kind: the pod is torn down already or about to be.
/// No error reaches the watch.
pub fn send_outcome(sent: Sent, delivered: bool) -> (r: SendOutcome)
    ensures
        r == if delivered {
            SendOutcome::Delivered
        } else {
            SendOutcome::Dropped(sent)
        },
{
    if delivered {
        SendOutcome::Delivered
    } else {
        SendOutcome::Dropped(sent)
    }
}

/// The queue: the keys of the pods that have a mailbox.
pub struct Queue {
    handlers: Table<PodKey, ()>,
}

impl Queue {
    /// The keys that have a mailbox, in the order in which the mailboxes were
    /// made.
    pub closed spec fn keys(&self) -> Seq<PodKeyView> {
        self.handlers.ids()
    }

    /// A queue without mailboxes.
    pub fn new() -> (queue: Queue)
        ensures
            queue.keys() == Seq::<PodKeyView>::empty(),
    {
        let queue = Queue { handlers: Table::new() };
        assert(queue.keys() =~= Seq::<PodKeyView>::empty());
        queue
    }

    /// How many pods have a mailbox. No key has two.
    pub fn len(&self) -> (n: usize)
        ensures
            n == self.keys().len(),
            self.keys().no_duplicates(),
    {
        self.handlers.len()
    }

    /// Whether the pod with this key has a mailbox.
    pub fn has_mailbox(&self, key: &PodKey) -> (r: bool)
        ensures
            r == self.keys().contains(key@),
    {
        self.known(key)
    }

    fn known(&self, key: &PodKey) -> (r: bool)
        ensures
            r == self.keys().contains(key@),
            r == self.handlers@.contains_key(key@),
    {
        let found = self.handlers.find(key);
        proof {
            lemma_ids_contains(self.handlers.entries(), key@);
        }
        found.is_some()
    }

    /// The keys that have a mailbox.
    pub fn mailboxes(&self) -> (keys: Vec<PodKey>)
        ensures
            keys@.map_values(|k: PodKey| k@) == self.keys(),
    {
        let keys = self.handlers.keys();
        assert(keys@.map_values(|k: PodKey| k@) =~= keys@.map_values(|k: PodKey| k.id()));
        keys
    }

    /// Takes one event of the watch and says what has to happen to the
    /// mailboxes. A restart is a resync to the pods that it lists.
    pub fn enqueue(&mut self, event: Event) -> (actions: Vec<Action>)
        ensures
            (final(self).keys(), action_views(actions@)) == dispatch(old(self).keys(), event@),
    {
        match event {
            Event::Restarted(pods) => self.resync(pods),
            event => self.enqueue_pod(event),
        }
    }

    /// Takes the event of one pod and says what has to happen to the
    /// mailboxes.
    fn enqueue_pod(&mut self, event: Event) -> (actions: Vec<Action>)
        ensures
            (final(self).keys(), action_views(actions@)) == dispatch_pod(old(self).keys(), event@),
    {
        let mut actions: Vec<Action> = Vec::new();
        match event {
            Event::Applied(pod) => {
                let key = pod.key();
                let known = self.known(&key);
                if !known {
                    self.handlers.insert(key.duplicate(), ());
                    actions.push(Action::Start { key: key.duplicate(), pod: pod.duplicate() });
                }
                actions.push(Action::Forward { key, event: Event::Applied(pod) });
                proof {
                    let expected = dispatch_pod(old(self).keys(), event@);
                    assert(self.keys() =~= expected.0);
                    assert(action_views(actions@) =~= expected.1);
                }
            },
            Event::Deleted(pod) => {
                let key = pod.key();
                let known = self.known(&key);
                if known {
                    self.handlers.remove(&key);
                    actions.push(
                        Action::Forward { key: key.duplicate(), event: Event::Deleted(pod) },
                    );
                    actions.push(Action::Close { key });
                }
                proof {
                    let expected = dispatch_pod(old(self).keys(), event@);
                    assert(self.keys() =~= expected.0);
                    assert(action_views(actions@) =~= expected.1);
                }
            },
            Event::Restarted(_) => {
                assert(action_views(actions@) =~= Seq::empty());
            },
        }
        actions
    }

    /// Takes back the mailbox of a pod whose task could not be started, and
    /// gives the error to report.
    pub fn start_failed(&mut self, key: &PodKey) -> (e: QueueError)
        ensures
            final(self).keys() == without(old(self).keys(), key@),
            e == QueueError::StartFailed,
    {
        self.handlers.remove(key);
        QueueError::StartFailed
    }

    /// Brings the queue in line with the list of the pods that exist: every
    /// mailbox whose pod is not listed gets a deletion, then every listed pod
    /// is applied. This is what a restart of the watch comes to.
    pub fn resync(&mut self, pods: Vec<Pod>) -> (actions: Vec<Action>)
        ensures
            (final(self).keys(), action_views(actions@)) == dispatch(
                old(self).keys(),
                EventView::Restarted(pod_views(pods@)),
            ),
            (final(self).keys(), action_views(actions@)) == dispatch_pods(
                old(self).keys(),
                resync_events(old(self).keys(), pod_views(pods@)),
            ),
    {
        let ghost keys0 = self.keys();
        let ghost listed = pod_views(pods@);
        let mut listed_keys: Table<PodKey, ()> = Table::new();
        let mut i: usize = 0;
        while i < pods.len()
            invariant
                i <= pods@.len(),
                listed == pod_views(pods@),
                forall|k: PodKeyView|
                    listed_keys@.contains_key(k) <==> pod_keys(listed.take(i as int)).contains(k),
            decreases pods@.len() - i,
        {
            let key = pods[i].key();
            listed_keys.insert(key, ());
            proof {
                let before = pod_keys(listed.take(i as int));
                let after = pod_keys(listed.take(i as int + 1));
                assert(after =~= before.push(pods@[i as int]@.key()));
                assert forall|k: PodKeyView|
                    listed_keys@.contains_key(k) <==> after.contains(k) by {
                    if before.contains(k) {
                        let j = choose|j: int| 0 <= j < before.len() && before[j] == k;
                        assert(after[j] == k);
                    }
                    if k == pods@[i as int]@.key() {
                        assert(after[i as int] == k);
                    }
                    if after.contains(k) {
                        let j = choose|j: int| 0 <= j < after.len() && after[j] == k;
                        if j < i {
                            assert(before[j] == k);
                        }
                    }
                }
            }
            i = i + 1;
        }
        assert(listed.take(pods@.len() as int) =~= listed);

        let current = self.mailboxes();
        let mut actions: Vec<Action> = Vec::new();
        let mut n: usize = 0;
        assert(keys0.take(0) =~= Seq::<PodKeyView>::empty());
        while n < current.len()
            invariant
                n <= current@.len(),
                current@.map_values(|k: PodKey| k@) == keys0,
                forall|k: PodKeyView|
                    listed_keys@.contains_key(k) <==> pod_keys(listed).contains(k),
                (self.keys(), action_views(actions@)) == dispatch_pods(
                    keys0,
                    missing_deletes(keys0.take(n as int), listed),
                ),
            decreases current@.len() - n,
        {
            let key = &current[n];
            proof {
                assert(keys0[n as int] == key@);
                assert(keys0.take(n as int + 1).drop_last() =~= keys0.take(n as int));
                assert(keys0.take(n as int + 1).last() == key@);
            }
            if !listed_keys.contains_key(key) {
                let gone = Pod::named(key.namespace().as_str(), key.name().as_str());
                let ghost before_actions = action_views(actions@);
                let mut step = self.enqueue_pod(Event::Deleted(gone));
                let ghost step_views = action_views(step@);
                actions.append(&mut step);
                proof {
                    assert(gone@ == stub(key@));
                    let events = missing_deletes(keys0.take(n as int + 1), listed);
                    assert(events.drop_last() =~= missing_deletes(keys0.take(n as int), listed));
                    assert(action_views(actions@) =~= before_actions + step_views);
                }
            }
            n = n + 1;
        }
        assert(keys0.take(current@.len() as int) =~= keys0);

        let ghost deletes = missing_deletes(keys0, listed);
        let ghost applies = listed.map_values(|p: PodView| EventView::Applied(p));
        let total: usize = pods.len();
        let mut m: usize = 0;
        assert(deletes + applies.take(0) =~= deletes);
        while m < total
            invariant
                m <= total,
                total == pods@.len(),
                listed == pod_views(pods@),
                applies == listed.map_values(|p: PodView| EventView::Applied(p)),
                (self.keys(), action_views(actions@)) == dispatch_pods(
                    keys0,
                    deletes + applies.take(m as int),
                ),
            decreases total - m,
        {
            let pod = pods[m].duplicate();
            let ghost before_actions = action_views(actions@);
            let mut step = self.enqueue_pod(Event::Applied(pod));
            let ghost step_views = action_views(step@);
            actions.append(&mut step);
            proof {
                let events = deletes + applies.take(m as int + 1);
                assert(events.drop_last() =~= deletes + applies.take(m as int));
                assert(events.last() == EventView::Applied(listed[m as int]));
                assert(action_views(actions@) =~= before_actions + step_views);
            }
            m = m + 1;
        }
        assert(applies.take(total as int) =~= applies);
        actions
    }
}

/// A key is among the identities of a list of entries exactly where an entry
/// has it.
pub proof fn lemma_ids_contains<V>(entries: Seq<(PodKey, V)>, id: PodKeyView)
    ensures
        entries.map_values(|e: (PodKey, V)| e.0.id()).contains(id) <==> has_id(entries, id),
{
    let ids = entries.map_values(|e: (PodKey, V)| e.0.id());
    if ids.contains(id) {
        let i = choose|i: int| 0 <= i < ids.len() && ids[i] == id;
        assert(entries[i].0.id() == id);
    }
    if has_id(entries, id) {
        let i = choose|i: int| 0 <= i < entries.len() && (#[trigger] entries[i]).0.id() == id;
        assert(ids[i] == id);
    }
}

/// Single pods' events handled one run after another are handled as one run:
/// the second run starts from the keys that the first left, and its actions
/// follow the first run's.
pub proof fn lemma_dispatch_pods_concat(
    keys: Seq<PodKeyView>,
    first: Seq<EventView>,
    second: Seq<EventView>,
)
    ensures
        dispatch_pods(keys, first + second) == ({
            let a = dispatch_pods(keys, first);
            let b = dispatch_pods(a.0, second);
            (b.0, a.1 + b.1)
        }),
    decreases second.len(),
{
    let a = dispatch_pods(keys, first);
    if second.len() == 0 {
        assert(first + second =~= first);
        assert(a.1 + Seq::<ActionView>::empty() =~= a.1);
    } else {
        lemma_dispatch_pods_concat(keys, first, second.drop_last());
        assert((first + second).drop_last() =~= first + second.drop_last());
        assert((first + second).last() == second.last());
        let b0 = dispatch_pods(a.0, second.drop_last());
        let step = dispatch_pod(b0.0, second.last());
        assert((a.1 + b0.1) + step.1 =~= a.1 + (b0.1 + step.1));
    }
}

/// Events of the watch handled one run after another are handled as one run:
/// the second run starts from the keys that the first left, and its actions
/// follow the first run's.
pub proof fn lemma_dispatch_all_concat(
    keys: Seq<PodKeyView>,
    first: Seq<EventView>,
    second: Seq<EventView>,
)
    ensures
        dispatch_all(keys, first + second) == ({
            let a = dispatch_all(keys, first);
            let b = dispatch_all(a.0, second);
            (b.0, a.1 + b.1)
        }),
    decreases second.len(),
{
    let a = dispatch_all(keys, first);
    if second.len() == 0 {
        assert(first + second =~= first);
        assert(a.1 + Seq::<ActionView>::empty() =~= a.1);
    } else {
        lemma_dispatch_all_concat(keys, first, second.drop_last());
        assert((first + second).drop_last() =~= first + second.drop_last());
        assert((first + second).last() == second.last());
        let b0 = dispatch_all(a.0, second.drop_last());
        let step = dispatch(b0.0, second.last());
        assert((a.1 + b0.1) + step.1 =~= a.1 + (b0.1 + step.1));
    }
}

/// Source order: what the queue asks for an earlier event stands, in the run
/// of actions, wholly before what it asks for a later one. The actions for
/// the events before place `i` are the first `start_i` actions of the whole
/// run, those for event `i` follow them, and those for a later event `j` begin
/// no earlier than these end.
pub proof fn lemma_source_order(keys: Seq<PodKeyView>, events: Seq<EventView>, i: int, j: int)
    requires
        0 <= i < j < events.len(),
    ensures
        ({
            let all = dispatch_all(keys, events).1;
            let before_i = dispatch_all(keys, events.take(i));
            let for_i = dispatch(before_i.0, events[i]).1;
            let before_j = dispatch_all(keys, events.take(j));
            let for_j = dispatch(before_j.0, events[j]).1;
            let start_i = before_i.1.len() as int;
            let start_j = before_j.1.len() as int;
            &&& start_i + for_i.len() <= start_j
            &&& start_j + for_j.len() <= all.len()
            &&& all.subrange(start_i, start_i + for_i.len()) == for_i
            &&& all.subrange(start_j, start_j + for_j.len()) == for_j
        }),
{
    lemma_actions_at(keys, events, i);
    lemma_actions_at(keys, events, j);
    // The events up to `j` hold event `i`.
    let upto_j = events.take(j);
    lemma_actions_at(keys, upto_j, i);
    assert(upto_j.take(i) =~= events.take(i));
    assert(upto_j[i] == events[i]);
}

/// The actions for the event at place `i` stand in the whole run right after
/// the actions for the events before it.
pub proof fn lemma_actions_at(keys: Seq<PodKeyView>, events: Seq<EventView>, i: int)
    requires
        0 <= i < events.len(),
    ensures
        ({
            let all = dispatch_all(keys, events).1;
            let before = dispatch_all(keys, events.take(i));
            let step = dispatch(before.0, events[i]).1;
            let start = before.1.len() as int;
            &&& start + step.len() <= all.len()
            &&& all.subrange(start, start + step.len()) == step
            &&& all.subrange(0, start) == before.1
        }),
{
    let head = events.take(i + 1);
    let rest = events.skip(i + 1);
    assert(head + rest =~= events);
    lemma_dispatch_all_concat(keys, head, rest);
    assert(head.drop_last() =~= events.take(i));
    assert(head.last() == events[i]);
    let before = dispatch_all(keys, events.take(i));
    let step = dispatch(before.0, events[i]).1;
    let upto = dispatch_all(keys, head);
    assert(upto.1 == before.1 + step);
    let after = dispatch_all(upto.0, rest);
    let all = dispatch_all(keys, events).1;
    assert(all == upto.1 + after.1);
    let start = before.1.len() as int;
    assert(all.subrange(start, start + step.len()) =~= step);
    assert(all.subrange(0, start) =~= before.1);
}

/// How many of the actions start a task for the pod with key `k`.
pub open spec fn starts(actions: Seq<ActionView>, k: PodKeyView) -> int
    decreases actions.len(),
{
    if actions.len() == 0 {
        0
    } else {
        starts(actions.drop_last(), k) + if actions.last() is Start && actions.last()->Start_key
            == k {
            1int
        } else {
            0int
        }
    }
}

/// How many of the actions close the mailbox of the pod with key `k`.
pub open spec fn closes(actions: Seq<ActionView>, k: PodKeyView) -> int
    decreases actions.len(),
{
    if actions.len() == 0 {
        0
    } else {
        closes(actions.drop_last(), k) + if actions.last() is Close && actions.last()->Close_key
            == k {
            1int
        } else {
            0int
        }
    }
}

/// Starts and closes of two runs of actions add up.
pub proof fn lemma_counts_concat(a: Seq<ActionView>, b: Seq<ActionView>, k: PodKeyView)
    ensures
        starts(a + b, k) == starts(a, k) + starts(b, k),
        closes(a + b, k) == closes(a, k) + closes(b, k),
    decreases b.len(),
{
    if b.len() == 0 {
        assert(a + b =~= a);
    } else {
        lemma_counts_concat(a, b.drop_last(), k);
        assert((a + b).drop_last() =~= a + b.drop_last());
        assert((a + b).last() == b.last());
    }
}

/// How many tasks a pod has for a given set of mailboxes: one where it has
/// a mailbox, none where it has not.
pub open spec fn live(keys: Seq<PodKeyView>, k: PodKeyView) -> int {
    if keys.contains(k) {
        1
    } else {
        0
    }
}

/// The event of one pod keeps the books: the tasks started less the
/// mailboxes closed are the change in whether the pod has a mailbox, and no
/// key gets a second mailbox.
pub proof fn lemma_pod_event_keeps_books(keys: Seq<PodKeyView>, event: EventView, k: PodKeyView)
    requires
        keys.no_duplicates(),
    ensures
        dispatch_pod(keys, event).0.no_duplicates(),
        live(keys, k) + starts(dispatch_pod(keys, event).1, k) - closes(dispatch_pod(keys, event).1, k)
            == live(dispatch_pod(keys, event).0, k),
{
    let r = dispatch_pod(keys, event);
    reveal_with_fuel(starts, 3);
    reveal_with_fuel(closes, 3);
    let none = Seq::<ActionView>::empty();
    assert(starts(none, k) == 0 && closes(none, k) == 0);
    match event {
        EventView::Applied(pod) => {
            let key = pod.key();
            if keys.contains(key) {
                let a = seq![ActionView::Forward { key, event }];
                assert(a.drop_last() =~= Seq::<ActionView>::empty());
                assert(starts(a, k) == 0);
                assert(closes(a, k) == 0);
            } else {
                let a = seq![ActionView::Start { key, pod }, ActionView::Forward { key, event }];
                let a1 = seq![ActionView::Start { key, pod }];
                assert(a.drop_last() =~= a1);
                assert(a1.drop_last() =~= Seq::<ActionView>::empty());
                assert(a1.last() == (ActionView::Start { key, pod }));
                assert(starts(a1, k) == if key == k { 1int } else { 0int });
                assert(starts(a, k) == starts(a1, k));
                assert(closes(a1, k) == 0);
                assert(closes(a, k) == 0);
                let after = keys.push(key);
                assert(after.contains(k) <==> (keys.contains(k) || k == key)) by {
                    if keys.contains(k) {
                        let m = choose|m: int| 0 <= m < keys.len() && keys[m] == k;
                        assert(after[m] == k);
                    }
                    if k == key {
                        assert(after[keys.len() as int] == k);
                    }
                    if after.contains(k) {
                        let m = choose|m: int| 0 <= m < after.len() && after[m] == k;
                        if m < keys.len() {
                            assert(keys[m] == k);
                        }
                    }
                }
                assert forall|x: int, y: int|
                    0 <= x < after.len() && 0 <= y < after.len() && x != y implies after[x]
                    != after[y] by {
                    if x < keys.len() && y < keys.len() {
                    } else if x < keys.len() {
                        assert(keys[x] == after[x]);
                    } else {
                        assert(keys[y] == after[y]);
                    }
                }
            }
        },
        EventView::Deleted(pod) => {
            let key = pod.key();
            if keys.contains(key) {
                let a = seq![ActionView::Forward { key, event }, ActionView::Close { key }];
                let a1 = seq![ActionView::Forward { key, event }];
                assert(a.drop_last() =~= a1);
                assert(a1.drop_last() =~= Seq::<ActionView>::empty());
                assert(starts(a1, k) == 0);
                assert(starts(a, k) == 0);
                assert(closes(a1, k) == 0);
                assert(a.last() == (ActionView::Close { key }));
                assert(closes(a, k) == if key == k { 1int } else { 0int });
                lemma_without(keys, key);
                assert(without(keys, key).contains(k) <==> (keys.contains(k) && k != key));
            } else {
                assert(starts(r.1, k) == 0);
                assert(closes(r.1, k) == 0);
            }
        },
        EventView::Restarted(_) => {
            assert(starts(r.1, k) == 0);
            assert(closes(r.1, k) == 0);
        },
    }
}

/// A run of single pods' events keeps the books: the tasks started for a
/// pod, less the mailboxes closed for it, are one where the pod has a
/// mailbox afterwards and none where it has not; and no key has two
/// mailboxes.
pub proof fn lemma_pod_events_keep_books(keys: Seq<PodKeyView>, events: Seq<EventView>, k: PodKeyView)
    requires
        keys.no_duplicates(),
    ensures
        dispatch_pods(keys, events).0.no_duplicates(),
        live(keys, k) + starts(dispatch_pods(keys, events).1, k) - closes(
            dispatch_pods(keys, events).1,
            k,
        ) == live(dispatch_pods(keys, events).0, k),
        0 <= live(keys, k) + starts(dispatch_pods(keys, events).1, k) - closes(
            dispatch_pods(keys, events).1,
            k,
        ) <= 1,
    decreases events.len(),
{
    if events.len() > 0 {
        lemma_pod_events_keep_books(keys, events.drop_last(), k);
        let before = dispatch_pods(keys, events.drop_last());
        lemma_pod_event_keeps_books(before.0, events.last(), k);
        lemma_counts_concat(before.1, dispatch_pod(before.0, events.last()).1, k);
    }
}

/// One event of the watch keeps the books, a restart too: the tasks started
/// less the mailboxes closed are the change in whether the pod has a
/// mailbox, and no key gets a second mailbox.
pub proof fn lemma_dispatch_keeps_books(keys: Seq<PodKeyView>, event: EventView, k: PodKeyView)
    requires
        keys.no_duplicates(),
    ensures
        dispatch(keys, event).0.no_duplicates(),
        live(keys, k) + starts(dispatch(keys, event).1, k) - closes(dispatch(keys, event).1, k)
            == live(dispatch(keys, event).0, k),
{
    match event {
        EventView::Restarted(listed) => {
            lemma_pod_events_keep_books(keys, resync_events(keys, listed), k);
        },
        _ => {
            lemma_pod_event_keeps_books(keys, event, k);
        },
    }
}

/// At most one task per pod: over any run of events of the watch, the tasks
/// that the queue starts for a pod, less the mailboxes it closes for it, are
/// one where the pod has a mailbox and none where it has not; and no key
/// ever has two mailboxes.
pub proof fn lemma_one_task_per_pod(keys: Seq<PodKeyView>, events: Seq<EventView>, k: PodKeyView)
    requires
        keys.no_duplicates(),
    ensures
        dispatch_all(keys, events).0.no_duplicates(),
        live(keys, k) + starts(dispatch_all(keys, events).1, k) - closes(
            dispatch_all(keys, events).1,
            k,
        ) == live(dispatch_all(keys, events).0, k),
        0 <= live(keys, k) + starts(dispatch_all(keys, events).1, k) - closes(
            dispatch_all(keys, events).1,
            k,
        ) <= 1,
    decreases events.len(),
{
    if events.len() > 0 {
        lemma_one_task_per_pod(keys, events.drop_last(), k);
        let before = dispatch_all(keys, events.drop_last());
        lemma_dispatch_keeps_books(before.0, events.last(), k);
        lemma_counts_concat(before.1, dispatch(before.0, events.last()).1, k);
    }
}

/// What the deletions of a resync leave: the mailboxes whose pods are
/// listed, each once, and for every other mailbox a forwarded deletion.
pub proof fn lemma_deletes_leave_listed(
    keys: Seq<PodKeyView>,
    prefix: Seq<PodKeyView>,
    listed: Seq<PodView>,
)
    requires
        keys.no_duplicates(),
        prefix.len() <= keys.len(),
        prefix == keys.take(prefix.len() as int),
    ensures
        ({
            let r = dispatch_pods(keys, missing_deletes(prefix, listed));
            &&& r.0.no_duplicates()
            &&& forall|k: PodKeyView|
                #[trigger] r.0.contains(k) <==> (keys.contains(k) && !(prefix.contains(k)
                    && !pod_keys(listed).contains(k)))
            &&& forall|k: PodKeyView|
                prefix.contains(k) && !pod_keys(listed).contains(k) ==> #[trigger] r.1.contains(
                    ActionView::Forward { key: k, event: EventView::Deleted(stub(k)) },
                )
        }),
    decreases prefix.len(),
{
    let r = dispatch_pods(keys, missing_deletes(prefix, listed));
    if prefix.len() == 0 {
        assert forall|k: PodKeyView| !prefix.contains(k) by {}
    } else {
        let front = prefix.drop_last();
        let last = prefix.last();
        assert(front =~= keys.take(front.len() as int));
        lemma_deletes_leave_listed(keys, front, listed);
        let r0 = dispatch_pods(keys, missing_deletes(front, listed));
        assert forall|k: PodKeyView| prefix.contains(k) <==> (front.contains(k) || k == last) by {
            if prefix.contains(k) {
                let m = choose|m: int| 0 <= m < prefix.len() && prefix[m] == k;
                if m < front.len() {
                    assert(front[m] == k);
                }
            }
            if front.contains(k) {
                let m = choose|m: int| 0 <= m < front.len() && front[m] == k;
                assert(prefix[m] == k);
            }
            if k == last {
                assert(prefix[prefix.len() - 1] == k);
            }
        }
        assert(keys[prefix.len() - 1] == last);
        assert(keys.contains(last));
        assert(!front.contains(last)) by {
            if front.contains(last) {
                let m = choose|m: int| 0 <= m < front.len() && front[m] == last;
                assert(keys[m] == keys[prefix.len() - 1]);
            }
        }
        if pod_keys(listed).contains(last) {
            assert(missing_deletes(prefix, listed) == missing_deletes(front, listed));
        } else {
            let gone = EventView::Deleted(stub(last));
            let events = missing_deletes(prefix, listed);
            assert(events == missing_deletes(front, listed).push(gone));
            assert(events.drop_last() =~= missing_deletes(front, listed));
            assert(events.last() == gone);
            assert(stub(last).key() == last);
            assert(r0.0.contains(last));
            let step = dispatch_pod(r0.0, gone);
            assert(r == (step.0, r0.1 + step.1));
            lemma_without(r0.0, last);
            let forward = ActionView::Forward { key: last, event: gone };
            assert(step.1[0] == forward);
            assert(r.1[r0.1.len() as int] == forward);
            assert forall|k: PodKeyView|
                prefix.contains(k) && !pod_keys(listed).contains(k) implies #[trigger] r.1.contains(
                ActionView::Forward { key: k, event: EventView::Deleted(stub(k)) },
            ) by {
                if k != last {
                    let f = ActionView::Forward { key: k, event: EventView::Deleted(stub(k)) };
                    assert(r0.1.contains(f));
                    let m = choose|m: int| 0 <= m < r0.1.len() && r0.1[m] == f;
                    assert(r.1[m] == f);
                }
            }
        }
    }
}

/// What applying a list of pods leaves: the mailboxes that were there, and
/// one for every listed pod.
pub proof fn lemma_applies_add_listed(keys: Seq<PodKeyView>, listed: Seq<PodView>)
    requires
        keys.no_duplicates(),
    ensures
        ({
            let r = dispatch_pods(keys, listed.map_values(|p: PodView| EventView::Applied(p)));
            &&& r.0.no_duplicates()
            &&& forall|k: PodKeyView|
                #[trigger] r.0.contains(k) <==> (keys.contains(k) || pod_keys(listed).contains(k))
            &&& forall|m: int| 0 <= m < r.1.len() ==> !((#[trigger] r.1[m]) is Close)
        }),
    decreases listed.len(),
{
    let applies = listed.map_values(|p: PodView| EventView::Applied(p));
    let r = dispatch_pods(keys, applies);
    if listed.len() == 0 {
        assert forall|k: PodKeyView| !pod_keys(listed).contains(k) by {}
    } else {
        let front = listed.drop_last();
        let last = listed.last();
        lemma_applies_add_listed(keys, front);
        let front_applies = front.map_values(|p: PodView| EventView::Applied(p));
        assert(applies.drop_last() =~= front_applies);
        assert(applies.last() == EventView::Applied(last));
        let r0 = dispatch_pods(keys, front_applies);
        lemma_pod_event_keeps_books(r0.0, EventView::Applied(last), last.key());
        let step = dispatch_pod(r0.0, EventView::Applied(last));
        assert(r == (step.0, r0.1 + step.1));
        assert forall|k: PodKeyView|
            pod_keys(listed).contains(k) <==> (pod_keys(front).contains(k) || k
                == last.key()) by {
            let a = pod_keys(listed);
            let b = pod_keys(front);
            if a.contains(k) {
                let m = choose|m: int| 0 <= m < a.len() && a[m] == k;
                if m < b.len() {
                    assert(b[m] == k);
                }
            }
            if b.contains(k) {
                let m = choose|m: int| 0 <= m < b.len() && b[m] == k;
                assert(a[m] == k);
            }
            if k == last.key() {
                assert(a[a.len() - 1] == k);
            }
        }
        assert forall|k: PodKeyView|
            #[trigger] r.0.contains(k) <==> (keys.contains(k) || pod_keys(listed).contains(
                k,
            )) by {
            assert(r0.0.contains(k) <==> (keys.contains(k) || pod_keys(front).contains(k)));
            if !r0.0.contains(last.key()) {
                let after = r0.0.push(last.key());
                if r0.0.contains(k) {
                    let m = choose|m: int| 0 <= m < r0.0.len() && r0.0[m] == k;
                    assert(after[m] == k);
                }
                if k == last.key() {
                    assert(after[r0.0.len() as int] == k);
                }
                if after.contains(k) {
                    let m = choose|m: int| 0 <= m < after.len() && after[m] == k;
                    if m < r0.0.len() {
                        assert(r0.0[m] == k);
                    }
                }
            }
        }
    }
}

/// Resync completeness: after a restart that lists the pods, the mailboxes
/// are exactly those of the listed pods, each once, and every mailbox that
/// was there before and whose pod is not listed has been sent a deletion.
pub proof fn lemma_resync_complete(keys: Seq<PodKeyView>, listed: Seq<PodView>)
    requires
        keys.no_duplicates(),
    ensures
        ({
            let r = dispatch(keys, EventView::Restarted(listed));
            &&& r.0.no_duplicates()
            &&& forall|k: PodKeyView| #[trigger] r.0.contains(k) <==> pod_keys(listed).contains(k)
            &&& forall|k: PodKeyView|
                keys.contains(k) && !pod_keys(listed).contains(k) ==> #[trigger] r.1.contains(
                    ActionView::Forward { key: k, event: EventView::Deleted(stub(k)) },
                )
        }),
{
    let deletes = missing_deletes(keys, listed);
    let applies = listed.map_values(|p: PodView| EventView::Applied(p));
    assert(keys.take(keys.len() as int) =~= keys);
    lemma_deletes_leave_listed(keys, keys, listed);
    let r1 = dispatch_pods(keys, deletes);
    lemma_applies_add_listed(r1.0, listed);
    let r2 = dispatch_pods(r1.0, applies);
    lemma_dispatch_pods_concat(keys, deletes, applies);
    let r = dispatch_pods(keys, resync_events(keys, listed));
    assert(r == (r2.0, r1.1 + r2.1));
    assert forall|k: PodKeyView| #[trigger] r.0.contains(k) <==> pod_keys(listed).contains(k) by {
        assert(r2.0.contains(k) <==> (r1.0.contains(k) || pod_keys(listed).contains(k)));
        assert(r1.0.contains(k) <==> (keys.contains(k) && !(keys.contains(k) && !pod_keys(
            listed,
        ).contains(k))));
    }
    assert forall|k: PodKeyView|
        keys.contains(k) && !pod_keys(listed).contains(k) implies #[trigger] r.1.contains(
        ActionView::Forward { key: k, event: EventView::Deleted(stub(k)) },
    ) by {
        let f = ActionView::Forward { key: k, event: EventView::Deleted(stub(k)) };
        assert(r1.1.contains(f));
        let m = choose|m: int| 0 <= m < r1.1.len() && r1.1[m] == f;
        assert(r.1[m] == f);
    }
}

} // verus!
