use project_runner::registry::ProcessState;
use project_runner::resolver::Platform;
use project_runner::resolver::ResolverProbe;
use project_runner::supervisor::prepare_run;
use project_runner::supervisor::RunSession;
use project_runner::supervisor::StreamKind;

fn probe() -> ResolverProbe {
    ResolverProbe::none()
}

/// One full run, driven as the embedding program would drive it: a project
/// whose manifest defines a `build` script that prints `done` and exits.
#[test]
fn run_that_prints_done_emits_output_then_exit() {
    let mut reg = ProcessState::new();
    let id = String::from("a");
    let manifest = String::from("{\"name\":\"demo\",\"scripts\":{\"build\":\"echo done\"}}");

    let plan = prepare_run(
        &reg,
        &id,
        Some(&manifest),
        ".",
        "build",
        "npm",
        "",
        &probe(),
        Platform::Unix,
        "/usr/bin",
    )
    .expect("nothing is registered under this id yet");
    assert_eq!(plan.log_dir, "demo");
    assert_eq!(plan.log_file, "build.log");
    assert_eq!(plan.command.command_line, "node -v && npm run \"build\"");
    assert_eq!(plan.first_line, "Executing: node -v && npm run \"build\"");

    // the diagnostic first line is emitted and logged before the spawn
    let mut session = RunSession::new(id.clone());
    let (first_ev, _) = session.record_line(false, plan.first_line.clone());
    assert_eq!(first_ev.id, "a");
    assert_eq!(first_ev.stream.tag(), "stdout");

    // spawn succeeded: the child's pid is registered
    assert!(reg.try_register(&id, 4242).is_ok());
    assert_eq!(reg.lookup(&id), Some(4242));

    // the stdout pump hands in the single line the script printed
    let (out_ev, directive) = session.record_line(false, String::from("done"));
    assert_eq!(out_ev.id, "a");
    assert_eq!(out_ev.stream, StreamKind::Stdout);
    assert_eq!(out_ev.line, "done");
    assert_eq!(directive.append_line, "done");
    assert!(directive.rewrite.is_none());

    // the exit watcher completes the run
    let (persisted, exit_ev) = session.finish(&mut reg);
    assert_eq!(exit_ev.id, "a");
    // exit ordering: by the time the exit event exists, the registry no
    // longer reports the id
    assert_eq!(reg.lookup(&id), None);
    // the persisted log ends in the line the script printed
    assert_eq!(persisted.last().unwrap(), "done");
    assert_eq!(persisted.len(), 2);
    assert_eq!(persisted[0], "Executing: node -v && npm run \"build\"");

    // the id is startable again after the exit
    assert!(reg.try_register(&id, 4343).is_ok());
}

/// Two rapid starts with one id: the second is refused before any spawn and
/// only one registry entry exists.
#[test]
fn second_start_with_same_id_is_refused() {
    let mut reg = ProcessState::new();
    let id = String::from("b");

    let first = prepare_run(
        &reg,
        &id,
        None,
        "/work/proj",
        "dev",
        "npm",
        "",
        &probe(),
        Platform::Unix,
        "/usr/bin",
    );
    assert!(first.is_ok());
    assert!(reg.try_register(&id, 1111).is_ok());

    let second = prepare_run(
        &reg,
        &id,
        None,
        "/work/proj",
        "dev",
        "npm",
        "",
        &probe(),
        Platform::Unix,
        "/usr/bin",
    );
    let refusal = second.err().expect("the id is still registered");
    assert_eq!(refusal.message(), "Project is already running");
    assert_eq!(reg.active_count(), 1);
    assert_eq!(reg.lookup(&id), Some(1111));
}

/// A stop request for an id that was never started: no error, no action,
/// no log side effects.
#[test]
fn stop_of_never_started_id_is_a_silent_noop() {
    let reg = ProcessState::new();
    let id = String::from("c");
    // the stop decision is the lookup; None means nothing is signalled
    assert_eq!(reg.lookup(&id), None);
    assert_eq!(reg.active_count(), 0);
}

/// Lines from the error stream are emitted with their raw text but land in
/// the log carrying the error marker, and both streams keep their order.
#[test]
fn stderr_lines_carry_the_marker_only_in_the_log() {
    let mut reg = ProcessState::new();
    let id = String::from("mix");
    assert!(reg.try_register(&id, 77).is_ok());
    let mut session = RunSession::new(id.clone());

    let (ev1, _) = session.record_line(false, String::from("starting"));
    let (ev2, d2) = session.record_line(true, String::from("warning: slow"));
    assert_eq!(d2.append_line, "ERR: warning: slow");
    let (ev3, _) = session.record_line(false, String::from("listening"));
    assert_eq!(ev1.line, "starting");
    assert_eq!(ev2.line, "warning: slow");
    assert_eq!(ev2.stream, StreamKind::Stderr);
    assert_eq!(ev3.line, "listening");

    let (persisted, exit_ev) = session.finish(&mut reg);
    assert_eq!(exit_ev.id, "mix");
    assert_eq!(
        persisted,
        vec![
            String::from("starting"),
            String::from("ERR: warning: slow"),
            String::from("listening")
        ]
    );
}

/// The full per-run pipeline caps the persisted log at 500 lines, counted
/// over the emitted output events.
#[test]
fn long_run_persists_only_the_newest_lines() {
    let mut reg = ProcessState::new();
    let id = String::from("long");
    assert!(reg.try_register(&id, 9).is_ok());
    let mut session = RunSession::new(id.clone());
    for i in 0..730 {
        let (_, _) = session.record_line(false, format!("tick {}", i));
    }
    let (persisted, _) = session.finish(&mut reg);
    assert_eq!(persisted.len(), 500);
    assert_eq!(persisted[0], "tick 230");
    assert_eq!(persisted[499], "tick 729");
}

/// The plan's log names sanitize what the manifest and the script hand in.
#[test]
fn plan_sanitizes_log_names() {
    let reg = ProcessState::new();
    let id = String::from("s");
    let manifest = String::from("{\"name\":\"@scope/web:app\"}");
    let plan = prepare_run(
        &reg,
        &id,
        Some(&manifest),
        "/work/proj",
        "build:prod",
        "npm",
        "",
        &probe(),
        Platform::Unix,
        "",
    )
    .unwrap();
    assert_eq!(plan.log_dir, "@scope_web_app");
    assert_eq!(plan.log_file, "build_prod.log");
}
