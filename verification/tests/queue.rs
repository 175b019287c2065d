use krustlet::pod::{Pod, PodKey};
use krustlet::queue::{
    send_outcome, Action, Event, Queue, QueueError, SendOutcome, Sent, MAILBOX_CAPACITY,
};
use krustlet::table::Key;
use krustlet::time::Timestamp;

fn pod(namespace: &str, name: &str) -> Pod {
    Pod::named(namespace, name)
}

fn describe(actions: &[Action]) -> Vec<String> {
    actions
        .iter()
        .map(|a| match a {
            Action::Start { key, .. } => format!("start {}/{}", key.namespace(), key.name()),
            Action::Forward { key, event } => {
                let kind = match event {
                    Event::Applied(_) => "applied",
                    Event::Deleted(_) => "deleted",
                    Event::Restarted(_) => "restarted",
                };
                format!("forward {} {}/{}", kind, key.namespace(), key.name())
            }
            Action::Close { key } => format!("close {}/{}", key.namespace(), key.name()),
        })
        .collect()
}

fn mailbox_names(queue: &Queue) -> Vec<String> {
    queue
        .mailboxes()
        .iter()
        .map(|k| format!("{}/{}", k.namespace(), k.name()))
        .collect()
}

#[test]
fn mailbox_capacity_is_sixteen() {
    assert_eq!(MAILBOX_CAPACITY, 16);
}

#[test]
fn first_applied_starts_the_pod_then_forwards() {
    let mut queue = Queue::new();
    assert_eq!(queue.len(), 0);
    let actions = queue.enqueue(Event::Applied(pod("default", "a")));
    assert_eq!(describe(&actions), vec!["start default/a", "forward applied default/a"]);
    assert_eq!(queue.len(), 1);
    assert!(queue.has_mailbox(&PodKey::new("default", "a")));
    match &actions[0] {
        Action::Start { pod, .. } => {
            assert_eq!(pod.name, "a");
            assert_eq!(pod.namespace, "default");
        }
        other => panic!("expected a start, got {:?}", other),
    }
}

#[test]
fn later_applied_only_forwards() {
    let mut queue = Queue::new();
    queue.enqueue(Event::Applied(pod("default", "a")));
    let mut changed = pod("default", "a");
    changed.deletion_timestamp = Some(Timestamp::new(5, 0));
    let actions = queue.enqueue(Event::Applied(changed));
    assert_eq!(describe(&actions), vec!["forward applied default/a"]);
    match &actions[0] {
        Action::Forward { event: Event::Applied(p), .. } => {
            assert_eq!(p.deletion_timestamp, Some(Timestamp::new(5, 0)))
        }
        other => panic!("expected a forward, got {:?}", other),
    }
    assert_eq!(queue.len(), 1);
}

#[test]
fn deleted_forwards_then_closes_the_mailbox() {
    let mut queue = Queue::new();
    queue.enqueue(Event::Applied(pod("default", "a")));
    queue.enqueue(Event::Applied(pod("default", "b")));
    let actions = queue.enqueue(Event::Deleted(pod("default", "a")));
    assert_eq!(describe(&actions), vec!["forward deleted default/a", "close default/a"]);
    assert!(!queue.has_mailbox(&PodKey::new("default", "a")));
    assert_eq!(mailbox_names(&queue), vec!["default/b"]);
}

#[test]
fn deleted_for_a_pod_never_seen_is_dropped() {
    let mut queue = Queue::new();
    queue.enqueue(Event::Applied(pod("default", "a")));
    let actions = queue.enqueue(Event::Deleted(pod("default", "zzz")));
    assert!(actions.is_empty());
    assert_eq!(mailbox_names(&queue), vec!["default/a"]);
}

#[test]
fn restarted_is_a_resync_to_the_listed_pods() {
    let mut queue = Queue::new();
    queue.enqueue(Event::Applied(pod("default", "a")));
    queue.enqueue(Event::Applied(pod("default", "c")));
    let actions = queue.enqueue(Event::Restarted(vec![pod("default", "b"), pod("default", "c")]));
    assert_eq!(
        describe(&actions),
        vec![
            "forward deleted default/a",
            "close default/a",
            "start default/b",
            "forward applied default/b",
            "forward applied default/c",
        ]
    );
    assert_eq!(mailbox_names(&queue), vec!["default/c", "default/b"]);
}

#[test]
fn restarted_and_resync_do_the_same() {
    let listed = || vec![pod("default", "b"), pod("default", "d")];
    let mut by_event = Queue::new();
    let mut by_call = Queue::new();
    for name in ["a", "b", "c"] {
        by_event.enqueue(Event::Applied(pod("default", name)));
        by_call.enqueue(Event::Applied(pod("default", name)));
    }
    let from_event = by_event.enqueue(Event::Restarted(listed()));
    let from_call = by_call.resync(listed());
    assert_eq!(describe(&from_event), describe(&from_call));
    assert_eq!(mailbox_names(&by_event), mailbox_names(&by_call));
    assert_eq!(mailbox_names(&by_event), vec!["default/b", "default/d"]);
}

#[test]
fn restarted_with_no_pods_closes_every_mailbox() {
    let mut queue = Queue::new();
    queue.enqueue(Event::Applied(pod("default", "a")));
    let actions = queue.enqueue(Event::Restarted(Vec::new()));
    assert_eq!(describe(&actions), vec!["forward deleted default/a", "close default/a"]);
    assert_eq!(queue.len(), 0);
}

#[test]
fn same_name_in_two_namespaces_gets_two_mailboxes() {
    let mut queue = Queue::new();
    queue.enqueue(Event::Applied(pod("one", "a")));
    let actions = queue.enqueue(Event::Applied(pod("two", "a")));
    assert_eq!(describe(&actions), vec!["start two/a", "forward applied two/a"]);
    assert_eq!(queue.len(), 2);
}

#[test]
fn events_of_one_pod_are_forwarded_in_source_order() {
    let mut queue = Queue::new();
    let mut all = Vec::new();
    for (i, name) in ["a", "b", "a", "a", "b"].iter().enumerate() {
        let mut p = pod("default", name);
        p.deletion_timestamp = Some(Timestamp::new(i as i64, 0));
        all.extend(queue.enqueue(Event::Applied(p)));
    }
    let seen_by_a: Vec<i64> = all
        .iter()
        .filter_map(|a| match a {
            Action::Forward { key, event: Event::Applied(p) } if key.name() == "a" => {
                Some(p.deletion_timestamp.unwrap().secs)
            }
            _ => None,
        })
        .collect();
    assert_eq!(seen_by_a, vec![0, 2, 3]);
    let seen_by_b: Vec<i64> = all
        .iter()
        .filter_map(|a| match a {
            Action::Forward { key, event: Event::Applied(p) } if key.name() == "b" => {
                Some(p.deletion_timestamp.unwrap().secs)
            }
            _ => None,
        })
        .collect();
    assert_eq!(seen_by_b, vec![1, 4]);
}

#[test]
fn at_most_one_task_per_pod_over_a_run_of_events() {
    let mut queue = Queue::new();
    let mut live: i64 = 0;
    let events = vec![
        Event::Applied(pod("default", "a")),
        Event::Applied(pod("default", "a")),
        Event::Deleted(pod("default", "a")),
        Event::Deleted(pod("default", "a")),
        Event::Applied(pod("default", "a")),
        Event::Applied(pod("default", "a")),
    ];
    for event in events {
        for action in queue.enqueue(event) {
            match action {
                Action::Start { .. } => live += 1,
                Action::Close { .. } => live -= 1,
                Action::Forward { .. } => {}
            }
            assert!(live == 0 || live == 1);
        }
        let has = queue.has_mailbox(&PodKey::new("default", "a"));
        assert_eq!(live == 1, has);
    }
}

#[test]
fn resync_deletes_what_is_gone_and_applies_what_is_listed() {
    let mut queue = Queue::new();
    queue.enqueue(Event::Applied(pod("default", "a")));
    queue.enqueue(Event::Applied(pod("default", "b")));
    queue.enqueue(Event::Applied(pod("default", "c")));
    let actions = queue.resync(vec![pod("default", "b"), pod("default", "d")]);
    assert_eq!(
        describe(&actions),
        vec![
            "forward deleted default/a",
            "close default/a",
            "forward deleted default/c",
            "close default/c",
            "forward applied default/b",
            "start default/d",
            "forward applied default/d",
        ]
    );
    assert_eq!(mailbox_names(&queue), vec!["default/b", "default/d"]);
}

#[test]
fn resync_to_nothing_closes_every_mailbox() {
    let mut queue = Queue::new();
    queue.enqueue(Event::Applied(pod("default", "a")));
    queue.enqueue(Event::Applied(pod("kube-system", "b")));
    let actions = queue.resync(Vec::new());
    assert_eq!(
        describe(&actions),
        vec![
            "forward deleted default/a",
            "close default/a",
            "forward deleted kube-system/b",
            "close kube-system/b",
        ]
    );
    assert_eq!(queue.len(), 0);
}

#[test]
fn resync_of_an_empty_queue_starts_every_listed_pod_once() {
    let mut queue = Queue::new();
    let actions = queue.resync(vec![pod("default", "a"), pod("default", "a")]);
    assert_eq!(
        describe(&actions),
        vec!["start default/a", "forward applied default/a", "forward applied default/a"]
    );
    assert_eq!(queue.len(), 1);
}

#[test]
fn resync_deletion_carries_only_namespace_and_name() {
    let mut queue = Queue::new();
    let mut full = pod("default", "a");
    full.node_selector.push(("x".to_owned(), "y".to_owned()));
    queue.enqueue(Event::Applied(full));
    let actions = queue.resync(Vec::new());
    match &actions[0] {
        Action::Forward { event: Event::Deleted(p), .. } => {
            assert_eq!(p.name, "a");
            assert_eq!(p.namespace, "default");
            assert!(p.node_selector.is_empty());
            assert!(p.containers.is_empty());
            assert_eq!(p.deletion_timestamp, None);
        }
        other => panic!("expected a forwarded deletion, got {:?}", other),
    }
}

#[test]
fn failed_start_takes_the_mailbox_back() {
    let mut queue = Queue::new();
    queue.enqueue(Event::Applied(pod("default", "a")));
    let e = queue.start_failed(&PodKey::new("default", "a"));
    assert_eq!(e, QueueError::StartFailed);
    assert_eq!(queue.len(), 0);
    let actions = queue.enqueue(Event::Applied(pod("default", "a")));
    assert_eq!(describe(&actions), vec!["start default/a", "forward applied default/a"]);
}

#[test]
fn an_event_that_does_not_get_through_is_dropped() {
    assert_eq!(send_outcome(Sent::Applied, true), SendOutcome::Delivered);
    assert_eq!(send_outcome(Sent::Deleted, true), SendOutcome::Delivered);
    assert_eq!(send_outcome(Sent::Applied, false), SendOutcome::Dropped(Sent::Applied));
    assert_eq!(send_outcome(Sent::Deleted, false), SendOutcome::Dropped(Sent::Deleted));
}

#[test]
fn pod_keys_compare_by_namespace_and_name() {
    let a = PodKey::new("default", "a");
    assert!(a.same(&PodKey::new("default", "a")));
    assert!(!a.same(&PodKey::new("default", "b")));
    assert!(!a.same(&PodKey::new("other", "a")));
    let copy = a.duplicate();
    assert_eq!(copy.name(), "a");
    assert_eq!(copy.namespace(), "default");
    assert!(pod("default", "a").key().same(&a));
}
