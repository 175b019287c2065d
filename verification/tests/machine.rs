use krustlet::backoff::ExponentialBackoffStrategy;
use krustlet::container::Container;
use krustlet::pod::{Phase, Pod};
use krustlet::state::{Directive, Executor, Step};
use krustlet::states::{
    init_container_failed, startup_plan, validate_not_kube_proxy, validate_pod_runnable, Completed,
    CrashLoopBackoff, Error, Failure, ImagePull, ImagePullBackoff, PodState, Registered, Running,
    Stage, StartStep, Starting, Terminated, Transition, Unrunnable, VolumeMount, Waiting, Work,
    CRASH_LOOP_THRESHOLD, ERROR_RETRY_MILLIS,
};
use krustlet::task::{PodTask, Sentinel, TaskAction, TaskEvent, TaskPhase};
use krustlet::queue::Event;
use krustlet::time::Timestamp;
use krustlet::container::ContainerStatus;

fn pod_state() -> PodState {
    PodState {
        errors: 0,
        image_pull_backoff_strategy: ExponentialBackoffStrategy::new(1000, 8000),
        crash_loop_backoff_strategy: ExponentialBackoffStrategy::new(10_000, 300_000),
    }
}

fn pod_with_image(image: Option<&str>) -> Pod {
    let mut pod = Pod::named("default", "p");
    pod.containers.push(Container::new("c".to_owned(), image.map(|i| i.to_owned())));
    pod
}

fn shown(d: &Directive) -> (Phase, String, Work) {
    (d.status.phase, d.status.reason.clone(), d.work)
}

fn failed(reason: &str) -> Result<(), Failure> {
    Err(Failure::Error(reason.to_owned()))
}

fn go(ex: &mut Executor, st: &mut PodState, pod: &Pod, outcome: Result<(), Failure>) -> Directive {
    match ex.advance(st, pod, outcome) {
        Step::Continue(d) => d,
        Step::Finished(r) => panic!("the machine ended early with {:?}", r),
    }
}

#[test]
fn thresholds() {
    assert_eq!(CRASH_LOOP_THRESHOLD, 3);
    assert_eq!(ERROR_RETRY_MILLIS, 5000);
}

#[test]
fn simple_pod_runs_to_completion() {
    let pod = pod_with_image(Some("webassembly.azurecr.io/hello-wasm:v1"));
    let mut st = pod_state();
    let (mut ex, first) = Executor::new(Stage::Registered(Registered), &mut st);
    let mut phases = vec![first.status.phase];
    assert_eq!(shown(&first), (Phase::Pending, "Registered".to_owned(), Work::Nothing));
    let d = go(&mut ex, &mut st, &pod, Ok(()));
    assert_eq!(shown(&d), (Phase::Pending, "ImagePull".to_owned(), Work::FetchModules));
    phases.push(d.status.phase);
    let d = go(&mut ex, &mut st, &pod, Ok(()));
    assert_eq!(shown(&d), (Phase::Pending, "VolumeMount".to_owned(), Work::MountVolumes));
    phases.push(d.status.phase);
    let d = go(&mut ex, &mut st, &pod, Ok(()));
    assert_eq!(shown(&d), (Phase::Pending, "Starting".to_owned(), Work::StartContainers));
    phases.push(d.status.phase);
    let d = go(&mut ex, &mut st, &pod, Ok(()));
    assert_eq!(shown(&d), (Phase::Running, "Running".to_owned(), Work::AwaitContainers));
    phases.push(d.status.phase);
    let d = go(&mut ex, &mut st, &pod, Ok(()));
    assert_eq!(shown(&d), (Phase::Succeeded, "Completed".to_owned(), Work::Nothing));
    phases.push(d.status.phase);
    assert!(ex.at_end());
    match ex.advance(&mut st, &pod, Ok(())) {
        Step::Finished(Ok(())) => {}
        other => panic!("expected the machine to finish, got {:?}", other),
    }
    phases.dedup();
    assert_eq!(phases, vec![Phase::Pending, Phase::Running, Phase::Succeeded]);
    assert_eq!(st.errors, 0);
}

#[test]
fn failed_pull_backs_off_and_success_resets_the_backoff() {
    let pod = pod_with_image(None);
    let mut st = pod_state();
    let (mut ex, _) = Executor::new(Stage::ImagePull(ImagePull), &mut st);
    let d = go(&mut ex, &mut st, &pod, failed("transient"));
    assert_eq!(shown(&d), (Phase::Pending, "ImagePullBackoff".to_owned(), Work::Sleep(1000)));
    let d = go(&mut ex, &mut st, &pod, Ok(()));
    assert_eq!(shown(&d), (Phase::Pending, "ImagePull".to_owned(), Work::FetchModules));
    let d = go(&mut ex, &mut st, &pod, failed("transient"));
    assert_eq!(d.work, Work::Sleep(2000));
    go(&mut ex, &mut st, &pod, Ok(()));
    let d = go(&mut ex, &mut st, &pod, failed("transient"));
    assert_eq!(d.work, Work::Sleep(4000));
    go(&mut ex, &mut st, &pod, Ok(()));
    let d = go(&mut ex, &mut st, &pod, Ok(()));
    assert_eq!(d.status.reason, "VolumeMount");
    assert_eq!(st.image_pull_backoff_strategy.wait(), 1000);
}

#[test]
fn three_errors_in_a_row_reach_crash_loop_backoff() {
    let pod = pod_with_image(None);
    let mut st = pod_state();
    let (mut ex, _) = Executor::new(Stage::Starting(Starting), &mut st);
    for round in 1..=2u64 {
        let d = go(&mut ex, &mut st, &pod, failed("boom"));
        assert_eq!(shown(&d), (Phase::Pending, "boom".to_owned(), Work::Sleep(5000)));
        assert_eq!(st.errors, round);
        let d = go(&mut ex, &mut st, &pod, Ok(()));
        assert_eq!(d.status.reason, "Registered");
        assert_eq!(go(&mut ex, &mut st, &pod, Ok(())).status.reason, "ImagePull");
        assert_eq!(go(&mut ex, &mut st, &pod, Ok(())).status.reason, "VolumeMount");
        assert_eq!(go(&mut ex, &mut st, &pod, Ok(())).status.reason, "Starting");
    }
    let d = go(&mut ex, &mut st, &pod, failed("boom"));
    assert_eq!(shown(&d), (Phase::Pending, "boom".to_owned(), Work::Nothing));
    assert_eq!(st.errors, 3);
    let d = go(&mut ex, &mut st, &pod, Ok(()));
    assert_eq!(
        shown(&d),
        (Phase::Pending, "CrashLoopBackoff".to_owned(), Work::Sleep(10_000))
    );
    assert_eq!(st.errors, 0);
    let d = go(&mut ex, &mut st, &pod, Ok(()));
    assert_eq!(shown(&d), (Phase::Pending, "Registered".to_owned(), Work::Nothing));
}

#[test]
fn kube_proxy_is_refused() {
    let proxy = pod_with_image(Some("k8s.gcr.io/kube-proxy:v1.19"));
    assert_eq!(validate_pod_runnable(&proxy), Err(Unrunnable::KubeProxy));
    assert_eq!(validate_not_kube_proxy(&proxy.containers[0]), Err(Unrunnable::KubeProxy));
    assert_eq!(Unrunnable::KubeProxy.message(), "Cannot run kube-proxy");
    let exactly = pod_with_image(Some("k8s.gcr.io/kube-proxy"));
    assert_eq!(validate_pod_runnable(&exactly), Err(Unrunnable::KubeProxy));
    for fine in [Some("k8s.gcr.io/kube-prox"), Some("docker.io/k8s.gcr.io/kube-proxy"), None, Some("")] {
        assert_eq!(validate_pod_runnable(&pod_with_image(fine)), Ok(()));
    }
    assert_eq!(validate_pod_runnable(&Pod::named("default", "empty")), Ok(()));
    let mut second = pod_with_image(Some("fine"));
    second.containers.push(Container::new("d".to_owned(), Some("k8s.gcr.io/kube-proxy-x".to_owned())));
    assert_eq!(validate_pod_runnable(&second), Err(Unrunnable::KubeProxy));

    let mut st = pod_state();
    let (mut ex, _) = Executor::new(Stage::Registered(Registered), &mut st);
    let d = go(&mut ex, &mut st, &proxy, Ok(()));
    assert_eq!(shown(&d), (Phase::Pending, "Cannot run kube-proxy".to_owned(), Work::Sleep(5000)));
}

#[test]
fn each_state_decides_as_the_graph_says() {
    let pod = pod_with_image(None);
    let mut st = pod_state();
    assert!(matches!(Registered.next(&pod), Transition::Next(Stage::ImagePull(_))));
    assert!(matches!(ImagePull.next(&mut st, &Ok(())), Transition::Next(Stage::VolumeMount(_))));
    assert!(matches!(
        ImagePull.next(&mut st, &failed("x")),
        Transition::Next(Stage::ImagePullBackoff(_))
    ));
    assert!(matches!(ImagePullBackoff.next(), Transition::Next(Stage::ImagePull(_))));
    assert!(matches!(VolumeMount.next(Ok(())), Transition::Next(Stage::Starting(_))));
    assert!(matches!(Starting.next(Ok(())), Transition::Next(Stage::Running(_))));
    assert!(matches!(Running.next(Ok(())), Transition::Next(Stage::Completed(_))));
    match Running.next(failed("exit 1")) {
        Transition::Error(m) => assert_eq!(m, "exit 1"),
        other => panic!("expected an error, got {:?}", other),
    }
    assert!(matches!(Completed.next(), Transition::Complete(Ok(()))));
    assert!(matches!(CrashLoopBackoff.next(), Transition::Next(Stage::Registered(_))));
    assert!(matches!(Terminated.next(Ok(())), Transition::Complete(Ok(()))));
    match Terminated.next(failed("stuck")) {
        Transition::Complete(Err(m)) => assert_eq!(m, "stuck"),
        other => panic!("expected a failed completion, got {:?}", other),
    }
    let e = Error::new("bad".to_owned());
    st.errors = 2;
    assert!(matches!(e.next(&mut st), Transition::Next(Stage::Registered(_))));
    assert_eq!(st.errors, 2);
    st.errors = 3;
    assert!(matches!(e.next(&mut st), Transition::Next(Stage::CrashLoopBackoff(_))));
    assert_eq!(st.errors, 0);
}

#[test]
fn each_state_shows_its_status() {
    let all = [
        (Registered.status(), Phase::Pending, "Registered"),
        (ImagePull.status(), Phase::Pending, "ImagePull"),
        (ImagePullBackoff.status(), Phase::Pending, "ImagePullBackoff"),
        (VolumeMount.status(), Phase::Pending, "VolumeMount"),
        (Starting.status(), Phase::Pending, "Starting"),
        (Running.status(), Phase::Running, "Running"),
        (Completed.status(), Phase::Succeeded, "Completed"),
        (CrashLoopBackoff.status(), Phase::Pending, "CrashLoopBackoff"),
        (Terminated.status(), Phase::Succeeded, "Terminated"),
        (Error::new("why".to_owned()).status(), Phase::Pending, "why"),
    ];
    for (patch, phase, reason) in all {
        assert_eq!(patch.phase, phase);
        assert_eq!(patch.reason, reason);
        assert!(patch.container_statuses.is_none());
    }
    match Waiting.status(Timestamp::new(3, 4)) {
        ContainerStatus::Waiting { timestamp, message } => {
            assert_eq!(timestamp, Timestamp::new(3, 4));
            assert_eq!(message, "Module is starting.");
        }
        other => panic!("expected waiting, got {:?}", other),
    }
}

#[test]
fn error_count_does_not_overflow() {
    let mut st = pod_state();
    st.errors = u64::MAX;
    assert_eq!(Error::new("x".to_owned()).rest(&mut st), Work::Nothing);
    assert_eq!(st.errors, u64::MAX);
}

#[test]
fn deletion_during_running_winds_the_pod_down() {
    let pod = pod_with_image(None);
    let mut st = pod_state();
    let (mut ex, _) = Executor::new(Stage::Running(Running), &mut st);
    let mut task = PodTask::new();
    let mut sentinel = Sentinel::new();
    assert!(!sentinel.is_deleted());

    sentinel.observe(&Event::Applied(Pod::named("default", "p")));
    assert!(!sentinel.is_deleted());
    sentinel.observe(&Event::Deleted(Pod::named("default", "p")));
    assert!(sentinel.is_deleted());
    assert!(!sentinel.is_listening());

    let actions = task.step(TaskEvent::DeletionSeen);
    assert!(matches!(actions.as_slice(), [TaskAction::RunTerminated]));
    assert_eq!(task.current(), TaskPhase::Terminating);

    let d = ex.interrupt(&mut st);
    assert_eq!(shown(&d), (Phase::Succeeded, "Terminated".to_owned(), Work::StopContainers));
    let finished = match ex.advance(&mut st, &pod, Ok(())) {
        Step::Finished(r) => r,
        other => panic!("expected the machine to finish, got {:?}", other),
    };
    assert_eq!(finished, Ok(()));

    let actions = task.step(TaskEvent::MachineFinished(finished));
    assert!(matches!(actions.as_slice(), [TaskAction::AwaitDeletion]));
    let actions = task.step(TaskEvent::DeletionSeen);
    assert!(matches!(actions.as_slice(), [TaskAction::Teardown, TaskAction::Deregister]));
    assert_eq!(task.current(), TaskPhase::Done);
    assert!(task.step(TaskEvent::DeletionSeen).is_empty());
    assert!(task.step(TaskEvent::MachineFinished(Err("late".to_owned()))).is_empty());
}

#[test]
fn teardown_runs_once_on_every_path() {
    let paths: Vec<Vec<TaskEvent>> = vec![
        vec![TaskEvent::MachineFinished(Ok(())), TaskEvent::DeletionSeen],
        vec![TaskEvent::MachineFinished(Err("fatal".to_owned())), TaskEvent::DeletionSeen],
        vec![
            TaskEvent::DeletionSeen,
            TaskEvent::MachineFinished(Ok(())),
            TaskEvent::DeletionSeen,
        ],
        vec![
            TaskEvent::DeletionSeen,
            TaskEvent::DeletionSeen,
            TaskEvent::MachineFinished(Err("stop failed".to_owned())),
            TaskEvent::MachineFinished(Ok(())),
            TaskEvent::DeletionSeen,
            TaskEvent::DeletionSeen,
        ],
    ];
    for path in paths {
        let mut task = PodTask::new();
        let mut teardowns = 0;
        let mut deregistrations = 0;
        for event in path {
            for action in task.step(event) {
                match action {
                    TaskAction::Teardown => teardowns += 1,
                    TaskAction::Deregister => deregistrations += 1,
                    _ => {}
                }
            }
        }
        assert_eq!(task.current(), TaskPhase::Done);
        assert_eq!(teardowns, 1);
        assert_eq!(deregistrations, 1);
    }
}

#[test]
fn a_fatal_error_patches_the_pod_as_failed() {
    let mut task = PodTask::new();
    let actions = task.step(TaskEvent::MachineFinished(Err("out of luck".to_owned())));
    match actions.as_slice() {
        [TaskAction::PatchFailed(patch), TaskAction::AwaitDeletion] => {
            assert_eq!(patch.phase, Phase::Failed);
            assert_eq!(patch.reason, "out of luck");
        }
        other => panic!("expected a failed patch, got {:?}", other),
    }
    assert_eq!(task.current(), TaskPhase::AwaitingDeletion);
}

#[test]
fn a_failure_while_winding_down_is_not_reported() {
    let mut task = PodTask::new();
    task.step(TaskEvent::DeletionSeen);
    let actions = task.step(TaskEvent::MachineFinished(Err("stop failed".to_owned())));
    assert!(matches!(actions.as_slice(), [TaskAction::AwaitDeletion]));
}

#[test]
fn sentinel_rises_on_a_deletion_timestamp_and_stays_up() {
    let mut sentinel = Sentinel::new();
    sentinel.observe(&Event::Restarted(Vec::new()));
    assert!(!sentinel.is_deleted());
    let mut doomed = Pod::named("default", "p");
    doomed.deletion_timestamp = Some(Timestamp::new(1, 0));
    sentinel.observe(&Event::Applied(doomed));
    assert!(sentinel.is_deleted());
    assert!(sentinel.is_listening());
    sentinel.observe(&Event::Applied(Pod::named("default", "p")));
    assert!(sentinel.is_deleted());
}

#[test]
fn a_failing_init_container_fails_the_pod() {
    let pod = pod_with_image(None);
    let mut st = pod_state();
    let (mut ex, _) = Executor::new(Stage::Starting(Starting), &mut st);
    let failure = init_container_failed("init-that-fails");
    assert_eq!(
        failure,
        Failure::Fatal("Init container init-that-fails failed".to_owned())
    );
    let finished = match ex.advance(&mut st, &pod, Err(failure)) {
        Step::Finished(r) => r,
        other => panic!("expected the machine to end, got {:?}", other),
    };
    assert_eq!(finished, Err("Init container init-that-fails failed".to_owned()));
    assert_eq!(st.errors, 0);
    let mut task = PodTask::new();
    let actions = task.step(TaskEvent::MachineFinished(finished));
    match actions.as_slice() {
        [TaskAction::PatchFailed(patch), TaskAction::AwaitDeletion] => {
            assert_eq!(patch.phase, Phase::Failed);
            assert!(patch.reason.contains("Init container init-that-fails failed"));
        }
        other => panic!("expected a failed patch, got {:?}", other),
    }
}

#[test]
fn a_fatal_failure_ends_the_machine_and_an_error_retries() {
    let pod = pod_with_image(None);
    for stage in [0, 1, 2] {
        let make = || match stage {
            0 => Stage::VolumeMount(VolumeMount),
            1 => Stage::Starting(Starting),
            _ => Stage::Running(Running),
        };
        let mut st = pod_state();
        let (mut ex, _) = Executor::new(make(), &mut st);
        match ex.advance(&mut st, &pod, Err(Failure::Fatal("gone".to_owned()))) {
            Step::Finished(Err(reason)) => assert_eq!(reason, "gone"),
            other => panic!("expected the machine to end, got {:?}", other),
        }
        let mut st = pod_state();
        let (mut ex, _) = Executor::new(make(), &mut st);
        let d = go(&mut ex, &mut st, &pod, failed("again"));
        assert_eq!(d.status.reason, "again");
        assert_eq!(st.errors, 1);
    }
    let mut st = pod_state();
    let (mut ex, _) = Executor::new(Stage::ImagePull(ImagePull), &mut st);
    let d = go(&mut ex, &mut st, &pod, Err(Failure::Fatal("not found".to_owned())));
    assert_eq!(d.status.reason, "ImagePullBackoff");
    match Terminated.next(Err(Failure::Fatal("stuck".to_owned()))) {
        Transition::Complete(Err(m)) => assert_eq!(m, "stuck"),
        other => panic!("expected a failed completion, got {:?}", other),
    }
}

#[test]
fn init_containers_come_up_first_and_in_order() {
    let mut pod = Pod::named("default", "hp");
    pod.init_containers.push(Container::new("init-1".to_owned(), None));
    pod.init_containers.push(Container::new("init-2".to_owned(), None));
    pod.containers.push(Container::new("main".to_owned(), None));
    pod.containers.push(Container::new("side".to_owned(), None));
    assert_eq!(
        startup_plan(&pod),
        vec![
            StartStep::Init("init-1".to_owned()),
            StartStep::Init("init-2".to_owned()),
            StartStep::Start("main".to_owned()),
            StartStep::Start("side".to_owned()),
        ]
    );
    assert!(startup_plan(&Pod::named("default", "empty")).is_empty());
}
