use midi_bridge::startup::start_app;
use midi_bridge::supervisor::CommandEvent;
use midi_bridge::supervisor::DiagnosticLog;
use midi_bridge::supervisor::SpawnError;
use midi_bridge::supervisor::StreamOrigin;
use midi_bridge::supervisor::Supervisor;
use midi_bridge::supervisor::SupervisorState;

#[test]
fn successful_spawn_reaches_running() {
    let mut sup = Supervisor::new();
    assert_eq!(sup.state, SupervisorState::Starting);
    assert_eq!(sup.pid, None);
    assert_eq!(sup.spawned(Some(4242)), Ok(()));
    assert_eq!(sup.state, SupervisorState::Running);
    assert_eq!(sup.pid, Some(4242));
}

#[test]
fn spawn_failure_never_reaches_running() {
    let mut sup = Supervisor::new();
    assert_eq!(sup.spawned(None), Err(SpawnError::SpawnFailed));
    assert_eq!(sup.state, SupervisorState::Starting);
    assert_eq!(sup.pid, None);
}

#[test]
fn spawn_failure_aborts_startup() {
    assert!(start_app(None).is_err());
}

#[test]
fn successful_startup_yields_a_fresh_context() {
    let ctx = start_app(Some(77)).unwrap();
    assert_eq!(ctx.supervisor.state, SupervisorState::Running);
    assert_eq!(ctx.supervisor.pid, Some(77));
    assert_eq!(ctx.midi_state.input, None);
    assert!(ctx.midi_state.closed.is_empty());
}

#[test]
fn output_lines_are_forwarded_with_their_stream() {
    let mut sup = Supervisor::new();
    sup.spawned(Some(1)).unwrap();
    let mut sink = DiagnosticLog::new();

    let f = sup.handle_event(&CommandEvent::Stdout("hello".to_string()), &mut sink);
    assert_eq!(f, None);
    let f = sup.handle_event(&CommandEvent::Stderr("warning".to_string()), &mut sink);
    assert_eq!(f, None);

    assert_eq!(sup.state, SupervisorState::Running);
    assert_eq!(sink.lines.len(), 2);
    assert_eq!(sink.lines[0].origin, StreamOrigin::Stdout);
    assert_eq!(sink.lines[0].line, "hello");
    assert_eq!(sink.lines[1].origin, StreamOrigin::Stderr);
    assert_eq!(sink.lines[1].line, "warning");
}

#[test]
fn termination_is_fatal_and_terminal() {
    let mut sup = Supervisor::new();
    sup.spawned(Some(1)).unwrap();
    let mut sink = DiagnosticLog::new();
    let f = sup.handle_event(&CommandEvent::Terminated(9), &mut sink);
    assert_eq!(f, Some(9));
    assert_eq!(sup.state, SupervisorState::Exited(9));
    assert!(sink.lines.is_empty());
}

#[test]
fn lines_before_termination_reach_the_sink_and_nothing_after() {
    let mut sup = Supervisor::new();
    sup.spawned(Some(1)).unwrap();
    let mut sink = DiagnosticLog::new();
    let events = vec![
        CommandEvent::Stdout("a".to_string()),
        CommandEvent::Stdout("b".to_string()),
        CommandEvent::Terminated(0),
        CommandEvent::Stdout("late".to_string()),
        CommandEvent::Terminated(1),
    ];
    let fatal = sup.consume_events(&events, &mut sink);

    // "a" then "b" were forwarded before the fatal signal; the events after
    // the first termination were not consumed.
    assert_eq!(fatal, Some(0));
    assert_eq!(sup.state, SupervisorState::Exited(0));
    assert_eq!(sink.lines.len(), 2);
    assert_eq!(sink.lines[0].origin, StreamOrigin::Stdout);
    assert_eq!(sink.lines[0].line, "a");
    assert_eq!(sink.lines[1].origin, StreamOrigin::Stdout);
    assert_eq!(sink.lines[1].line, "b");
}

#[test]
fn a_stream_without_termination_leaves_the_supervisor_running() {
    let mut sup = Supervisor::new();
    sup.spawned(Some(1)).unwrap();
    let mut sink = DiagnosticLog::new();
    let events = vec![
        CommandEvent::Stdout("x".to_string()),
        CommandEvent::Stderr("y".to_string()),
    ];
    let fatal = sup.consume_events(&events, &mut sink);
    assert_eq!(fatal, None);
    assert_eq!(sup.state, SupervisorState::Running);
    assert_eq!(sink.lines.len(), 2);
}

#[test]
fn an_empty_stream_changes_nothing() {
    let mut sup = Supervisor::new();
    sup.spawned(Some(1)).unwrap();
    let mut sink = DiagnosticLog::new();
    let fatal = sup.consume_events(&Vec::new(), &mut sink);
    assert_eq!(fatal, None);
    assert_eq!(sup.state, SupervisorState::Running);
    assert!(sink.lines.is_empty());
}
