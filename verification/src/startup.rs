//! Application startup: the context that holds the Device Bridge state and
//! the Process Supervisor, constructed once at process start.
//!
//! The context exists only when the mandatory child process could be
//! spawned: a spawn failure aborts startup with an error, so no command of
//! the application ever becomes invokable without a running child.

use crate::device::Connection;
use crate::device::MidiState;
use crate::supervisor::SpawnError;
use crate::supervisor::Supervisor;
use crate::supervisor::SupervisorState;
use vstd::prelude::*;

verus! {

/// The application-wide state: the single connection slot of the Device
/// Bridge and the single child-process supervisor. Created once at startup,
/// torn down at process exit.
pub struct AppContext {
    pub midi_state: MidiState,
    pub supervisor: Supervisor,
}

/// Bring the application up, given the outcome of the one attempt to spawn
/// the child server process (`Some(pid)` on success, `None` on failure).
///
/// On success the context starts with an empty connection slot, an empty
/// close log, and a running supervisor for the given PID. On failure there
/// is no context at all: startup is aborted and no command surface exists,
/// so spawn failure can never lead to a partially running application.
pub fn start_app(spawn_outcome: Option<u32>) -> (r: Result<AppContext, SpawnError>)
    ensures
        spawn_outcome is None ==> r == Err::<AppContext, SpawnError>(SpawnError::SpawnFailed),
        spawn_outcome matches Some(pid) ==> {
            &&& r matches Ok(ctx)
            &&& ctx.supervisor.state == SupervisorState::Running
            &&& ctx.supervisor.pid == Some(pid)
            &&& ctx.midi_state.input is None
            &&& ctx.midi_state.closed@ == Seq::<Connection>::empty()
        },
{
    let mut supervisor = Supervisor::new();
    match supervisor.spawned(spawn_outcome) {
        Ok(()) => Ok(AppContext { midi_state: MidiState::default(), supervisor }),
        Err(e) => Err(e),
    }
}

} // verus!
