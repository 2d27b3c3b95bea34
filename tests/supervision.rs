use devit::model::{ProjectEnvironment, ServiceEnvironment};
use devit::output::{console_line, ConsoleLine, Drain, ReadResult, Stream};
use devit::runner::{RunOutcome, RunnerAction, RunnerEvent, RunnerPhase, GRACE_PERIOD_MS};
use devit::selection::ValidationError;
use devit::supervisor::{Supervisor, SupervisorEvent};
use devit::table::Table;

fn service(script: &str, dir: &str) -> ServiceEnvironment {
    ServiceEnvironment {
        script: script.to_string(),
        environ: Table::new(),
        working_directory: dir.to_string(),
    }
}

fn snapshot() -> ProjectEnvironment {
    let mut services = Table::new();
    services.insert("web".to_string(), service("python -m http.server", "/state/web"));
    services.insert("worker".to_string(), service("./worker", "/state/worker"));
    let mut environ = Table::new();
    environ.insert("PATH".to_string(), "/opt/a/bin".to_string());
    ProjectEnvironment {
        environ,
        user_environ: Table::new(),
        scripts: Table::new(),
        services,
        shell_hook: None,
        state_dir: "/state".to_string(),
    }
}

fn names(v: &[&str]) -> Vec<String> {
    v.iter().map(|s| s.to_string()).collect()
}

/// Runs a started runner through cancellation, delivery at `t` and the given exit.
fn stop_runner(t: u64, exit: Option<i32>) -> (RunnerPhase, Vec<RunnerAction>) {
    let mut actions = Vec::new();
    let (p, a) = RunnerPhase::Running.step(RunnerEvent::Cancelled);
    actions.push(a);
    let (p, a) = p.step(RunnerEvent::TerminateDelivered { now: t });
    actions.push(a);
    let (p, a) = p.step(RunnerEvent::Exited(exit));
    actions.push(a);
    (p, actions)
}

#[test]
fn all_services_start_and_stop_on_interrupt() {
    let env = snapshot();
    let started = env.services_to_start(None).unwrap();
    assert_eq!(started, names(&["web", "worker"]));
    let mut sup = Supervisor::new(started.len());
    let d = sup.step(SupervisorEvent::Interrupt);
    assert!(d.raise_cancellation);
    assert!(!d.all_finished);
    for _ in &started {
        let (p, actions) = stop_runner(2000, Some(0));
        assert_eq!(actions[0], RunnerAction::Terminate);
        assert_eq!(actions[1], RunnerAction::AwaitExit { deadline: 2000 + GRACE_PERIOD_MS });
        assert_eq!(actions[2], RunnerAction::Finish);
        assert_eq!(p.outcome(), Some(RunOutcome::Completed(Some(0))));
        let d = sup.step(SupervisorEvent::RunnerFinished(p.outcome().unwrap()));
        assert!(!d.raise_cancellation);
    }
    assert!(sup.all_finished());
    assert!(!sup.any_failed);
}

#[test]
fn empty_selection_means_all_services() {
    let env = snapshot();
    assert_eq!(env.services_to_start(Some(Vec::new())).unwrap(), names(&["web", "worker"]));
}

#[test]
fn selection_starts_only_the_named_service() {
    let env = snapshot();
    let inherited = Table::new();
    let started = env.services_to_start(Some(names(&["web"]))).unwrap();
    assert_eq!(started, names(&["web"]));
    let dirs: Vec<String> = started
        .iter()
        .map(|n| env.launch(n, &inherited).unwrap().working_directory)
        .collect();
    assert_eq!(dirs, names(&["/state/web"]));
    assert!(!dirs.contains(&"/state/worker".to_string()));
}

#[test]
fn selection_names_each_service_once() {
    let env = snapshot();
    let started = env
        .services_to_start(Some(names(&["worker", "web", "worker"])))
        .unwrap();
    assert_eq!(started, names(&["worker", "web"]));
}

#[test]
fn unknown_service_is_rejected() {
    let env = snapshot();
    match env.services_to_start(Some(names(&["missing"]))) {
        Err(ValidationError(n)) => assert_eq!(n, "missing"),
        Ok(v) => panic!("started {:?}", v),
    }
}

#[test]
fn first_unknown_service_is_reported() {
    let env = snapshot();
    let r = env.services_to_start(Some(names(&["web", "ghost", "phantom"])));
    assert_eq!(r.unwrap_err().0, "ghost");
}

#[test]
fn stubborn_service_is_killed_after_grace_period() {
    let (p, a) = RunnerPhase::Running.step(RunnerEvent::Cancelled);
    assert_eq!(a, RunnerAction::Terminate);
    let (p, a) = p.step(RunnerEvent::TerminateDelivered { now: 500 });
    assert_eq!(a, RunnerAction::AwaitExit { deadline: 10500 });
    let (p, a) = p.step(RunnerEvent::GraceTimer { now: 10499 });
    assert_eq!(a, RunnerAction::AwaitExit { deadline: 10500 });
    assert_eq!(p, RunnerPhase::Stopping { deadline: Some(10500) });
    let (p, a) = p.step(RunnerEvent::GraceTimer { now: 10500 });
    assert_eq!(a, RunnerAction::Kill);
    assert_eq!(p.outcome(), Some(RunOutcome::Killed));
    let mut sup = Supervisor::new(1);
    sup.step(SupervisorEvent::Interrupt);
    let d = sup.step(SupervisorEvent::RunnerFinished(RunOutcome::Killed));
    assert!(d.all_finished);
}

#[test]
fn service_exit_ends_run_without_waiting() {
    let (p, a) = RunnerPhase::Running.step(RunnerEvent::Exited(Some(1)));
    assert_eq!(a, RunnerAction::Finish);
    assert_eq!(p.outcome(), Some(RunOutcome::Completed(Some(1))));
    let mut sup = Supervisor::new(1);
    let d = sup.step(SupervisorEvent::RunnerFinished(p.outcome().unwrap()));
    assert!(d.raise_cancellation);
    assert!(d.all_finished);
}

#[test]
fn one_exit_cancels_the_group() {
    let mut sup = Supervisor::new(3);
    let d = sup.step(SupervisorEvent::RunnerFinished(RunOutcome::Completed(Some(0))));
    assert!(d.raise_cancellation);
    assert!(!d.all_finished);
    assert!(sup.cancelled);
    let d = sup.step(SupervisorEvent::RunnerFinished(RunOutcome::Failed("spawn".to_string())));
    assert!(!d.raise_cancellation);
    let d = sup.step(SupervisorEvent::RunnerFinished(RunOutcome::Killed));
    assert!(d.all_finished);
    assert!(sup.any_failed);
}

#[test]
fn interrupt_twice_is_interrupt_once() {
    let mut once = Supervisor::new(2);
    once.step(SupervisorEvent::Interrupt);
    let mut twice = Supervisor::new(2);
    let first = twice.step(SupervisorEvent::Interrupt);
    let second = twice.step(SupervisorEvent::Interrupt);
    assert_eq!(once, twice);
    assert!(first.raise_cancellation);
    assert!(!second.raise_cancellation);
}

#[test]
fn cancel_twice_is_cancel_once() {
    let (p1, a1) = RunnerPhase::Running.step(RunnerEvent::Cancelled);
    let (p2, a2) = p1.clone().step(RunnerEvent::Cancelled);
    assert_eq!(a1, RunnerAction::Terminate);
    assert_eq!(a2, RunnerAction::Ignore);
    assert_eq!(p1, p2);
}

#[test]
fn spawn_failure_is_terminal() {
    let (p, a) = RunnerPhase::Starting.step(RunnerEvent::SpawnFailed("no shell".to_string()));
    assert_eq!(a, RunnerAction::Finish);
    assert_eq!(p.outcome(), Some(RunOutcome::Failed("no shell".to_string())));
    let (p2, a2) = p.clone().step(RunnerEvent::Cancelled);
    assert_eq!(p2, p);
    assert_eq!(a2, RunnerAction::Ignore);
}

#[test]
fn vanished_process_completes_at_once() {
    let (p, _) = RunnerPhase::Running.step(RunnerEvent::Cancelled);
    let (p, a) = p.step(RunnerEvent::TargetGone);
    assert_eq!(a, RunnerAction::Finish);
    assert_eq!(p, RunnerPhase::Completed(None));
}

#[test]
fn wait_failure_while_stopping_completes_unknown() {
    let (p, _) = RunnerPhase::Running.step(RunnerEvent::WaitFailed);
    assert_eq!(p, RunnerPhase::Stopping { deadline: None });
    let (p, _) = p.step(RunnerEvent::TerminateDelivered { now: 1 });
    let (p, a) = p.step(RunnerEvent::WaitFailed);
    assert_eq!(a, RunnerAction::Finish);
    assert_eq!(p.outcome(), Some(RunOutcome::Completed(None)));
}

#[test]
fn grace_deadline_saturates() {
    let (p, _) = RunnerPhase::Running.step(RunnerEvent::Cancelled);
    let (_, a) = p.step(RunnerEvent::TerminateDelivered { now: u64::MAX - 1 });
    assert_eq!(a, RunnerAction::AwaitExit { deadline: u64::MAX });
}

#[test]
fn no_services_finish_at_once() {
    let sup = Supervisor::new(0);
    assert!(sup.all_finished());
}

#[test]
fn console_line_is_prefixed() {
    assert_eq!(console_line("web", "listening on 8000"), "web: listening on 8000");
    assert_eq!(console_line("worker", ""), "worker: ");
}

#[test]
fn lines_from_two_services_stay_whole() {
    let records = [("web", "GET /"), ("worker", "job 1 done"), ("web", "GET /a")];
    let mut console = String::new();
    for (name, line) in records.iter() {
        console.push_str(&console_line(name, line));
        console.push('\n');
    }
    let back: Vec<&str> = console.lines().collect();
    assert_eq!(back, vec!["web: GET /", "worker: job 1 done", "web: GET /a"]);
}

#[test]
fn drain_routes_lines_and_stops_per_stream() {
    let mut d = Drain::new();
    let out = d.take("web", Stream::Stdout, ReadResult::Line("hi".to_string()));
    assert_eq!(out, Some(ConsoleLine { stream: Stream::Stdout, text: "web: hi".to_string() }));
    let err = d.take("web", Stream::Stderr, ReadResult::Line("oops".to_string()));
    assert_eq!(err, Some(ConsoleLine { stream: Stream::Stderr, text: "web: oops".to_string() }));
    assert_eq!(d.take("web", Stream::Stderr, ReadResult::Failed), None);
    assert!(d.stdout_open);
    assert!(!d.stderr_open);
    assert!(d.draining());
    assert_eq!(d.take("web", Stream::Stderr, ReadResult::Line("late".to_string())), None);
    assert_eq!(d.take("web", Stream::Stdout, ReadResult::Closed), None);
    assert!(!d.draining());
}
