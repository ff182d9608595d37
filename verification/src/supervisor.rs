//! The Process Supervisor: lifecycle tracking for the mandatory background
//! server process.
//!
//! The supervisor is a three-state machine. It starts in `Starting`, moves to
//! `Running` exactly when the one spawn attempt succeeds, and moves to
//! `Exited` when the child reports termination. `Exited` is terminal and
//! fatal: the supervised process is a required dependency, so its death must
//! stop the whole application. While running, every output line of the child
//! is forwarded to a diagnostic sink, tagged with the stream it came from,
//! in arrival order; a termination event ends consumption, and no event after
//! it is consumed.

use vstd::prelude::*;

verus! {

/// Which output stream of the child a diagnostic line came from.
#[derive(Clone, Copy, PartialEq, Eq, Structural, Debug)]
pub enum StreamOrigin {
    Stdout,
    Stderr,
}

/// One event from the supervised child process: an output line from one of
/// its two streams, or its termination with an exit status.
pub enum CommandEvent {
    Stdout(String),
    Stderr(String),
    Terminated(i32),
}

/// The lifecycle of the supervisor. `Exited` records the child's exit status
/// and is terminal: there is no restart.
#[derive(Clone, Copy, PartialEq, Eq, Structural, Debug)]
pub enum SupervisorState {
    Starting,
    Running,
    Exited(i32),
}

/// The one startup error of the supervisor: the child process could not be
/// spawned. Fatal; the application must not come up without the child.
#[derive(Clone, Copy, PartialEq, Eq, Structural, Debug)]
pub enum SpawnError {
    SpawnFailed,
}

/// One line forwarded to the diagnostic sink.
pub struct LogLine {
    pub origin: StreamOrigin,
    pub line: String,
}

impl View for LogLine {
    type V = (StreamOrigin, Seq<char>);

    open spec fn view(&self) -> (StreamOrigin, Seq<char>) {
        (self.origin, self.line@)
    }
}

/// The diagnostic sink: an append-only log of tagged lines, oldest first.
pub struct DiagnosticLog {
    pub lines: Vec<LogLine>,
}

impl View for DiagnosticLog {
    type V = Seq<(StreamOrigin, Seq<char>)>;

    open spec fn view(&self) -> Seq<(StreamOrigin, Seq<char>)> {
        self.lines@.map(|i: int, l: LogLine| l@)
    }
}

impl DiagnosticLog {
    /// An empty diagnostic log.
    pub fn new() -> (log: DiagnosticLog)
        ensures
            log@ == Seq::<(StreamOrigin, Seq<char>)>::empty(),
    {
        let log = DiagnosticLog { lines: Vec::new() };
        proof {
            assert(log@ =~= Seq::<(StreamOrigin, Seq<char>)>::empty());
        }
        log
    }

    /// Append one tagged line; nothing already logged moves or changes.
    pub fn log(&mut self, origin: StreamOrigin, line: String)
        ensures
            final(self)@ == old(self)@.push((origin, line@)),
    {
        let ghost entry = (origin, line@);
        self.lines.push(LogLine { origin, line });
        proof {
            assert(self@ =~= old(self)@.push(entry));
        }
    }
}

/// The exit status a child event reports, if it is a termination event.
pub open spec fn termination_of(e: CommandEvent) -> Option<i32> {
    match e {
        CommandEvent::Terminated(status) => Some(status),
        _ => None,
    }
}

/// The diagnostic lines one child event contributes: its line, tagged with
/// its stream, for an output event; nothing for a termination event.
pub open spec fn log_of_event(e: CommandEvent) -> Seq<(StreamOrigin, Seq<char>)> {
    match e {
        CommandEvent::Stdout(l) => seq![(StreamOrigin::Stdout, l@)],
        CommandEvent::Stderr(l) => seq![(StreamOrigin::Stderr, l@)],
        CommandEvent::Terminated(_) => Seq::empty(),
    }
}

/// The diagnostic lines a sequence of child events contributes, in order.
pub open spec fn log_of_events(es: Seq<CommandEvent>) -> Seq<(StreamOrigin, Seq<char>)>
    decreases es.len(),
{
    if es.len() == 0 {
        Seq::empty()
    } else {
        log_of_event(es[0]) + log_of_events(es.drop_first())
    }
}

/// The index of the first termination event, or the length if none occurs.
pub open spec fn first_termination(es: Seq<CommandEvent>) -> int
    decreases es.len(),
{
    if es.len() == 0 {
        0
    } else if termination_of(es[0]) is Some {
        0
    } else {
        1 + first_termination(es.drop_first())
    }
}

/// Diagnostic lines distribute over concatenation of event sequences.
pub proof fn lemma_log_of_events_append(a: Seq<CommandEvent>, b: Seq<CommandEvent>)
    ensures
        log_of_events(a + b) == log_of_events(a) + log_of_events(b),
    decreases a.len(),
{
    if a.len() == 0 {
        assert(a + b =~= b);
        assert(log_of_events(a) + log_of_events(b) =~= log_of_events(b));
    } else {
        let adf = a.drop_first();
        lemma_log_of_events_append(adf, b);
        assert((a + b).len() > 0);
        assert((a + b)[0] == a[0]);
        assert((a + b).drop_first() =~= adf + b);
        assert(log_of_events(a + b) =~= log_of_events(a) + log_of_events(b));
    }
}

/// Extending a prefix of the event sequence by one event appends exactly
/// that event's diagnostic lines.
pub proof fn lemma_log_of_events_snoc(es: Seq<CommandEvent>, i: int)
    requires
        0 <= i < es.len(),
    ensures
        log_of_events(es.take(i + 1)) == log_of_events(es.take(i)) + log_of_event(es[i]),
{
    let single = seq![es[i]];
    assert(es.take(i + 1) =~= es.take(i) + single);
    lemma_log_of_events_append(es.take(i), single);
    assert(single[0] == es[i]);
    assert(single.drop_first() =~= Seq::<CommandEvent>::empty());
    assert(log_of_events(Seq::<CommandEvent>::empty()) == Seq::<(StreamOrigin, Seq<char>)>::empty());
    assert(log_of_events(single) == log_of_event(es[i]) + log_of_events(
        Seq::<CommandEvent>::empty(),
    ));
    assert(log_of_events(single) =~= log_of_event(es[i]));
}

/// Everything before the first termination event is an output event, and
/// the event at the first termination index, when it is in range, is a
/// termination event.
pub proof fn lemma_first_termination_bounds(es: Seq<CommandEvent>)
    ensures
        0 <= first_termination(es) <= es.len(),
        forall|j: int| 0 <= j < first_termination(es) ==> termination_of(es[j]) is None,
        first_termination(es) < es.len() ==> termination_of(es[first_termination(es)]) is Some,
    decreases es.len(),
{
    if es.len() == 0 {
    } else if termination_of(es[0]) is Some {
    } else {
        let adf = es.drop_first();
        lemma_first_termination_bounds(adf);
        let ft = first_termination(es);
        assert forall|j: int| 0 <= j < ft implies termination_of(es[j]) is None by {
            if j > 0 {
                assert(es[j] == adf[j - 1]);
            }
        }
        if ft < es.len() {
            assert(es[ft] == adf[ft - 1]);
        }
    }
}

/// A left-to-right scan that saw no termination event before index `i`, and
/// one at `i` if `i` is in range, has found the first termination index.
pub proof fn lemma_first_termination_at(es: Seq<CommandEvent>, i: int)
    requires
        0 <= i <= es.len(),
        forall|j: int| 0 <= j < i ==> termination_of(es[j]) is None,
        i < es.len() ==> termination_of(es[i]) is Some,
    ensures
        first_termination(es) == i,
    decreases es.len(),
{
    if es.len() == 0 {
    } else if i == 0 {
    } else {
        let adf = es.drop_first();
        assert(termination_of(es[0]) is None);
        assert forall|j: int| 0 <= j < i - 1 implies termination_of(adf[j]) is None by {
            assert(adf[j] == es[j + 1]);
        }
        if i - 1 < adf.len() {
            assert(adf[i - 1] == es[i]);
        }
        lemma_first_termination_at(adf, i - 1);
    }
}

/// The supervisor: the lifecycle state and, once spawned, the child's PID.
pub struct Supervisor {
    pub state: SupervisorState,
    pub pid: Option<u32>,
}

impl Supervisor {
    /// A supervisor that has not yet attempted to spawn its child.
    pub fn new() -> (s: Supervisor)
        ensures
            s.state == SupervisorState::Starting,
            s.pid is None,
    {
        Supervisor { state: SupervisorState::Starting, pid: None }
    }

    /// Record the outcome of the single spawn attempt: `Some(pid)` when the
    /// child came up, `None` when it could not be spawned.
    ///
    /// Success is the only way into `Running`; failure leaves the supervisor
    /// in `Starting` forever and surfaces as an error, so a failed spawn can
    /// never be mistaken for a running child.
    pub fn spawned(&mut self, outcome: Option<u32>) -> (r: Result<(), SpawnError>)
        requires
            old(self).state == SupervisorState::Starting,
        ensures
            outcome matches Some(pid) ==> {
                &&& r == Ok::<(), SpawnError>(())
                &&& final(self).state == SupervisorState::Running
                &&& final(self).pid == Some(pid)
            },
            outcome is None ==> {
                &&& r == Err::<(), SpawnError>(SpawnError::SpawnFailed)
                &&& *final(self) == *old(self)
            },
    {
        match outcome {
            Some(pid) => {
                self.state = SupervisorState::Running;
                self.pid = Some(pid);
                Ok(())
            },
            None => Err(SpawnError::SpawnFailed),
        }
    }

    /// Consume one event of the running child: forward an output line to the
    /// diagnostic sink with its stream tag, or, on termination, transition to
    /// `Exited` with the reported status and signal the fatal condition by
    /// returning `Some(status)`. Output events change nothing but the sink;
    /// the sink only ever grows, by exactly the lines of this event.
    pub fn handle_event(&mut self, event: &CommandEvent, sink: &mut DiagnosticLog) -> (fatal:
        Option<i32>)
        requires
            old(self).state == SupervisorState::Running,
        ensures
            final(sink)@ == old(sink)@ + log_of_event(*event),
            fatal == termination_of(*event),
            fatal is None ==> *final(self) == *old(self),
            fatal matches Some(status) ==> *final(self) == (Supervisor {
                state: SupervisorState::Exited(status),
                pid: old(self).pid,
            }),
    {
        match event {
            CommandEvent::Stdout(line) => {
                sink.log(StreamOrigin::Stdout, line.clone());
                proof {
                    assert(sink@ =~= old(sink)@ + log_of_event(*event));
                }
                None
            },
            CommandEvent::Stderr(line) => {
                sink.log(StreamOrigin::Stderr, line.clone());
                proof {
                    assert(sink@ =~= old(sink)@ + log_of_event(*event));
                }
                None
            },
            CommandEvent::Terminated(status) => {
                self.state = SupervisorState::Exited(*status);
                proof {
                    assert(sink@ =~= old(sink)@ + log_of_event(*event));
                }
                Some(*status)
            },
        }
    }

    /// Consume a stream of child events in arrival order, as the background
    /// supervision task does: forward every output line to the diagnostic
    /// sink until the first termination event; at that event, transition to
    /// `Exited` and stop — no later event is consumed, and none of its lines
    /// reaches the sink. Returns the exit status when the child terminated,
    /// `None` when the stream ended without termination (the supervisor then
    /// still runs, unchanged).
    #[verifier::loop_isolation(false)]
    pub fn consume_events(&mut self, events: &Vec<CommandEvent>, sink: &mut DiagnosticLog) -> (fatal:
        Option<i32>)
        requires
            old(self).state == SupervisorState::Running,
        ensures
            final(sink)@ == old(sink)@ + log_of_events(events@.take(first_termination(events@))),
            first_termination(events@) == events@.len() ==> fatal is None
                && *final(self) == *old(self),
            first_termination(events@) < events@.len() ==> (fatal matches Some(status)
                && termination_of(events@[first_termination(events@)]) == Some(status)
                && *final(self) == (Supervisor {
                    state: SupervisorState::Exited(status),
                    pid: old(self).pid,
                })),
    {
        let ghost es = events@;
        proof {
            assert(sink@ =~= old(sink)@ + log_of_events(es.take(0)));
        }
        let mut i: usize = 0;
        while i < events.len()
            invariant
                0 <= i as int <= es.len(),
                *self == *old(self),
                forall|j: int| 0 <= j < i as int ==> termination_of(es[j]) is None,
                sink@ == old(sink)@ + log_of_events(es.take(i as int)),
            decreases es.len() - i as int,
        {
            let fatal_now = self.handle_event(&events[i], sink);
            proof {
                lemma_log_of_events_snoc(es, i as int);
                assert(sink@ =~= old(sink)@ + log_of_events(es.take(i as int + 1)));
            }
            match fatal_now {
                Some(status) => {
                    proof {
                        lemma_first_termination_at(es, i as int);
                        assert(log_of_event(es[i as int]) =~= Seq::<
                            (StreamOrigin, Seq<char>),
                        >::empty());
                        assert(sink@ =~= old(sink)@ + log_of_events(es.take(i as int)));
                    }
                    return Some(status);
                },
                None => {},
            }
            i = i + 1;
        }
        proof {
            lemma_first_termination_at(es, es.len() as int);
            assert(es.take(es.len() as int) =~= es);
        }
        None
    }
}

} // verus!
