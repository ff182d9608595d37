//! The Device Bridge: a single mutable slot for the active hardware input
//! connection, and order-preserving forwarding of received events to a sink.
//!
//! The slot is the only shared resource of the component. Opening a
//! connection on a port is driven by a point-in-time enumeration of the
//! available input ports: an index that is out of range at that moment is a
//! deliberate, silent no-op (port lists are racy with physical plugging),
//! while an unavailable hardware subsystem is a fatal error. A successful
//! open installs the new connection and, in the same step, releases the one
//! previously held, so that no two connections are ever active at once.

use vstd::prelude::*;

verus! {

/// A record of one established hardware input connection: the port (at the
/// enumeration taken when it was opened) that it listens on. The surrounding
/// application keeps the driver-owned handle beside this record and drops
/// that handle, closing the device, whenever the record leaves the slot.
#[derive(Clone, Copy, PartialEq, Eq, Structural, Debug)]
pub struct Connection {
    pub port: usize,
}

/// The connection record for a given port.
pub open spec fn conn_on(port: usize) -> Connection {
    Connection { port }
}

/// The one fatal error of the Device Bridge: the hardware subsystem itself
/// could not be initialized (for example, no driver is available). This is
/// never absorbed; it always propagates to the caller.
#[derive(Clone, Copy, PartialEq, Eq, Structural, Debug)]
pub enum MidiError {
    InitUnavailable,
}

/// The mutable state of the Device Bridge.
///
/// `input` is the connection slot: it holds at most one active connection.
/// `closed` is the close log: every connection that has ever been superseded,
/// oldest first. A connection leaves the slot only by being appended to the
/// close log, so the log is exactly the release history of the slot.
pub struct MidiState {
    /// The slot holding the active connection, if any.
    pub input: Option<Connection>,
    /// Connections that were superseded and thereby closed, oldest first.
    pub closed: Vec<Connection>,
}

impl MidiState {
    /// The whole observable state of the bridge: the slot and the close log.
    pub open spec fn slot_state(&self) -> (Option<Connection>, Seq<Connection>) {
        (self.input, self.closed@)
    }
}

/// The transition that one call of `open_midi_connection` makes, from the
/// state `pre` to the state `post`, for a requested index `input_idx`, an
/// enumeration outcome `ports` (`None` when the hardware subsystem could not
/// be initialized, otherwise the number of ports seen), and a result `r`.
pub open spec fn open_transition(
    pre: MidiState,
    post: MidiState,
    input_idx: usize,
    ports: Option<usize>,
    r: Result<Option<Connection>, MidiError>,
) -> bool {
    match ports {
        None => {
            &&& r == Err::<Option<Connection>, MidiError>(MidiError::InitUnavailable)
            &&& post.slot_state() == pre.slot_state()
        },
        Some(n) => {
            if input_idx >= n {
                &&& r == Ok::<Option<Connection>, MidiError>(None)
                &&& post.slot_state() == pre.slot_state()
            } else {
                &&& r == Ok::<Option<Connection>, MidiError>(Some(conn_on(input_idx)))
                &&& post.input == Some(conn_on(input_idx))
                &&& post.closed@ == match pre.input {
                    Some(prev) => pre.closed@.push(prev),
                    None => pre.closed@,
                }
            }
        },
    }
}

impl Default for MidiState {
    /// The bridge starts with an empty slot and an empty close log.
    fn default() -> (s: MidiState)
        ensures
            s.input is None,
            s.closed@ == Seq::<Connection>::empty(),
    {
        MidiState { input: None, closed: Vec::new() }
    }
}

impl MidiState {
    /// Open a connection on the input port `input_idx` of the enumeration
    /// snapshot described by `ports`, replacing whatever the slot held.
    ///
    /// `ports` is the outcome of enumerating the hardware input ports at call
    /// time: `None` when the hardware subsystem could not be initialized at
    /// all (fatal, propagated, state untouched), `Some(n)` when `n` ports
    /// were seen. An index that is not below `n` is a silent no-op: the call
    /// returns `Ok(None)` and the state is exactly as before. Otherwise the
    /// new connection is installed and returned as `Ok(Some(..))`, and the
    /// previously active connection, if there was one, moves to the close
    /// log in the same step.
    pub fn open_midi_connection(
        &mut self,
        input_idx: usize,
        ports: Option<usize>,
    ) -> (r: Result<Option<Connection>, MidiError>)
        ensures
            open_transition(*old(self), *final(self), input_idx, ports, r),
    {
        match ports {
            None => Err(MidiError::InitUnavailable),
            Some(n) => {
                if input_idx < n {
                    let fresh = Connection { port: input_idx };
                    match self.input {
                        Some(prev) => self.closed.push(prev),
                        None => (),
                    }
                    self.input = Some(fresh);
                    Ok(Some(fresh))
                } else {
                    Ok(None)
                }
            },
        }
    }
}

/// Out-of-range requests change nothing: for every index at or above the
/// port count of the enumeration, the call succeeds without opening anything
/// and both the slot and the close log are exactly as before.
pub proof fn lemma_out_of_range_is_no_op(
    pre: MidiState,
    post: MidiState,
    input_idx: usize,
    n: usize,
    r: Result<Option<Connection>, MidiError>,
)
    requires
        open_transition(pre, post, input_idx, Some(n), r),
        input_idx >= n,
    ensures
        r == Ok::<Option<Connection>, MidiError>(None),
        post.input == pre.input,
        post.closed@ == pre.closed@,
{
}

/// In-range requests populate the slot with exactly one connection, on the
/// requested port, and release whatever was active before: the old
/// connection is the last entry of the close log after the call, and the
/// close log gains nothing else.
pub proof fn lemma_in_range_installs_and_releases(
    pre: MidiState,
    post: MidiState,
    input_idx: usize,
    n: usize,
    r: Result<Option<Connection>, MidiError>,
)
    requires
        open_transition(pre, post, input_idx, Some(n), r),
        input_idx < n,
    ensures
        r == Ok::<Option<Connection>, MidiError>(Some(conn_on(input_idx))),
        post.input == Some(conn_on(input_idx)),
        pre.input matches Some(prev) ==> post.closed@ == pre.closed@.push(prev),
        pre.input is None ==> post.closed@ == pre.closed@,
{
}

/// One hardware input event as delivered to the consumer: the driver
/// timestamp and the raw payload bytes, exactly as received. A value type:
/// it is forwarded by value and never shared.
#[derive(Clone, PartialEq, Eq, Debug)]
pub struct DeviceEvent {
    pub timestamp: u64,
    pub payload: Vec<u8>,
}

impl View for DeviceEvent {
    type V = (u64, Seq<u8>);

    open spec fn view(&self) -> (u64, Seq<u8>) {
        (self.timestamp, self.payload@)
    }
}

/// The event sink of the Device Bridge: an append-only buffer of device
/// events, oldest first. The hardware callback publishes into it; the
/// consumer on the other side drains it. Publishing never reorders, drops or
/// rewrites anything already buffered.
pub struct EventSink {
    pub events: Vec<DeviceEvent>,
}

impl View for EventSink {
    type V = Seq<(u64, Seq<u8>)>;

    open spec fn view(&self) -> Seq<(u64, Seq<u8>)> {
        self.events@.map(|i: int, e: DeviceEvent| e@)
    }
}

impl EventSink {
    /// An empty sink.
    pub fn new() -> (s: EventSink)
        ensures
            s@ == Seq::<(u64, Seq<u8>)>::empty(),
    {
        let s = EventSink { events: Vec::new() };
        proof {
            assert(s@ =~= Seq::<(u64, Seq<u8>)>::empty());
        }
        s
    }

    /// Publish one event: append it behind everything already buffered.
    pub fn publish(&mut self, event: DeviceEvent)
        ensures
            final(self)@ == old(self)@.push(event@),
    {
        let ghost entry = event@;
        self.events.push(event);
        proof {
            assert(self@ =~= old(self)@.push(entry));
        }
    }
}

/// What the hardware callback does with one received event: wrap the driver
/// timestamp and the raw bytes into a `DeviceEvent` and publish it. The
/// payload bytes reach the sink unmodified, and successive calls append in
/// arrival order, so the sink sees exactly the events of one connection in
/// the order the hardware delivered them.
pub fn forward_event(sink: &mut EventSink, stamp: u64, message: Vec<u8>)
    ensures
        final(sink)@ == old(sink)@.push((stamp, message@)),
{
    let event = DeviceEvent { timestamp: stamp, payload: message };
    sink.publish(event);
}

/// Superseding is atomic with release: a single transition both installs the
/// new connection and appends the previously active one to the close log, so
/// after it the old connection is no longer in the slot and exactly one
/// connection is active. No reachable intermediate state holds two.
pub proof fn lemma_supersede_closes_previous(
    pre: MidiState,
    post: MidiState,
    input_idx: usize,
    n: usize,
    r: Result<Option<Connection>, MidiError>,
    prev: Connection,
)
    requires
        open_transition(pre, post, input_idx, Some(n), r),
        input_idx < n,
        pre.input == Some(prev),
    ensures
        post.input == Some(conn_on(input_idx)),
        post.closed@.len() == pre.closed@.len() + 1,
        post.closed@.last() == prev,
{
}

} // verus!
