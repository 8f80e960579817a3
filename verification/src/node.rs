//! Node sessions: one per registered node, from the first datagram on its
//! port to the silence, error or cancellation that ends it.

use crate::addr::{Ipv6Addr, SocketAddrV6, SourceAddr};
use crate::sensor::SensorReading;
use crate::Eui;
use vstd::prelude::*;

verus! {

/// Seconds of silence after which a node counts as dropped off the mesh.
pub const DEFAULT_TIMEOUT: u64 = 100;

/// What subscribers learn of a new node: its identifier, its address and
/// the name of its plant.
pub type Registration = (Eui, Ipv6Addr, String);

/// Why a session ended.
#[derive(Clone, Copy, Debug, PartialEq, Eq, Structural)]
pub enum ErrorState {
    Timeout,
    SocketError,
    SetupError,
    Other,
}

/// Whether a node is known to be on the mesh.
#[derive(Clone, Copy, Debug, PartialEq, Eq, Structural)]
pub enum NodeState {
    Unknown,
    Offline(ErrorState),
    Online,
}

/// What the broker tells subscribers of a node besides its readings.
#[derive(Debug)]
pub enum NodeStatus {
    Registration(Registration),
    Termination((SocketAddrV6, ErrorState)),
}

impl Clone for NodeStatus {
    fn clone(&self) -> (res: NodeStatus)
        ensures
            res == *self,
    {
        match self {
            NodeStatus::Registration(reg) => NodeStatus::Registration(
                (reg.0, reg.1, reg.2.clone()),
            ),
            NodeStatus::Termination(end) => NodeStatus::Termination((end.0, end.1)),
        }
    }
}

/// A reading with the address it came from.
#[derive(Clone, Copy, Debug, PartialEq, Eq, Structural)]
pub struct NodeSensorReading {
    pub addr: SocketAddrV6,
    pub data: SensorReading,
}

/// What a session emits. Every variant but `SensorReading` ends the
/// stream.
#[derive(Clone, Copy, Debug, PartialEq, Eq, Structural)]
pub enum NodeEvent {
    NodeTimeout(SocketAddrV6),
    SocketError(SocketAddrV6),
    SetupError,
    SensorReading(NodeSensorReading),
}

/// What happened on a session's socket, timer or sink.
#[derive(Clone, Copy, Debug, PartialEq, Eq, Structural)]
pub enum SessionInput {
    /// The socket could not be bound.
    BindFailed,
    /// A datagram arrived from `from`; `reading` is what it decoded to, if
    /// it decoded, and `now` the time of receipt in seconds.
    Datagram { from: SourceAddr, reading: Option<SensorReading>, now: i64 },
    /// Receiving failed.
    RecvError,
    /// The silence timer ran out.
    Silence,
    /// The event sink was closed downstream.
    SinkClosed,
}

/// What the session's task does next.
#[derive(Clone, Copy, Debug, PartialEq, Eq, Structural)]
pub struct SessionStep {
    /// The event to push downstream, if any.
    pub emit: Option<NodeEvent>,
    /// Whether the silence timer starts anew.
    pub reset_timer: bool,
    /// Whether the socket is closed and the task ends.
    pub terminate: bool,
}

/// The state of a session: whether it is live, and the source address it
/// reports.
pub ghost struct SessionState {
    pub live: bool,
    pub source: SocketAddrV6,
}

/// What a live session with source address `source` does on `input`, and
/// the source address it holds afterwards. A datagram from an IPv6 peer
/// makes that peer the source and, where it decoded, is emitted as a
/// reading from it; a datagram from any other peer is passed over. Either
/// way the socket is live and the timer starts anew.
pub open spec fn session_step(source: SocketAddrV6, input: SessionInput) -> (SessionStep, SocketAddrV6) {
    match input {
        SessionInput::BindFailed => (
            SessionStep { emit: Some(NodeEvent::SetupError), reset_timer: false, terminate: true },
            source,
        ),
        SessionInput::Datagram { from, reading, now } => match from {
            SourceAddr::V6(seen) => {
                let emit = match reading {
                    Some(r) => Some(
                        NodeEvent::SensorReading(
                            NodeSensorReading { addr: seen, data: SensorReading { ts: now, ..r } },
                        ),
                    ),
                    None => None,
                };
                (SessionStep { emit, reset_timer: true, terminate: false }, seen)
            },
            SourceAddr::Other => (
                SessionStep { emit: None, reset_timer: true, terminate: false },
                source,
            ),
        },
        SessionInput::RecvError => (
            SessionStep {
                emit: Some(NodeEvent::SocketError(source)),
                reset_timer: false,
                terminate: true,
            },
            source,
        ),
        SessionInput::Silence => (
            SessionStep {
                emit: Some(NodeEvent::NodeTimeout(source)),
                reset_timer: false,
                terminate: true,
            },
            source,
        ),
        SessionInput::SinkClosed => (
            SessionStep { emit: None, reset_timer: false, terminate: true },
            source,
        ),
    }
}

/// What an ended session does on any input: nothing.
pub open spec fn idle_step() -> SessionStep {
    SessionStep { emit: None, reset_timer: false, terminate: true }
}

/// One step of a session, live or ended: the state afterwards and what the
/// task does.
pub open spec fn run_step(state: SessionState, input: SessionInput) -> (SessionState, SessionStep) {
    if state.live {
        let (step, source) = session_step(state.source, input);
        (SessionState { live: !step.terminate, source }, step)
    } else {
        (state, idle_step())
    }
}

/// The state of a session after a run of inputs.
pub open spec fn run_state(state: SessionState, inputs: Seq<SessionInput>) -> SessionState
    decreases inputs.len(),
{
    if inputs.len() == 0 {
        state
    } else {
        run_step(run_state(state, inputs.drop_last()), inputs.last()).0
    }
}

/// The events that a session emits over a run of inputs, in the order in
/// which it emits them.
pub open spec fn session_run(state: SessionState, inputs: Seq<SessionInput>) -> Seq<NodeEvent>
    decreases inputs.len(),
{
    if inputs.len() == 0 {
        Seq::empty()
    } else {
        let before = session_run(state, inputs.drop_last());
        match run_step(run_state(state, inputs.drop_last()), inputs.last()).1.emit {
            Some(event) => before.push(event),
            None => before,
        }
    }
}

/// Why a session ended, as the last event it emitted tells: a timeout, a
/// socket error or a failed setup; a session that ended in silence ended
/// for another reason.
pub open spec fn end_reason(last: Option<NodeEvent>) -> ErrorState {
    match last {
        Some(NodeEvent::NodeTimeout(_)) => ErrorState::Timeout,
        Some(NodeEvent::SocketError(_)) => ErrorState::SocketError,
        Some(NodeEvent::SetupError) => ErrorState::SetupError,
        _ => ErrorState::Other,
    }
}

/// Events are emitted in the order of the inputs: what a session has
/// emitted stays as it is, whatever comes after.
pub proof fn lemma_run_extends(state: SessionState, inputs: Seq<SessionInput>, more: Seq<SessionInput>)
    ensures
        session_run(state, inputs).len() <= session_run(state, inputs + more).len(),
        session_run(state, inputs + more).subrange(0, session_run(state, inputs).len() as int)
            == session_run(state, inputs),
    decreases more.len(),
{
    if more.len() == 0 {
        assert(inputs + more =~= inputs);
        assert(session_run(state, inputs).subrange(0, session_run(state, inputs).len() as int)
            =~= session_run(state, inputs));
    } else {
        let all = inputs + more;
        assert(all.drop_last() =~= inputs + more.drop_last());
        lemma_run_extends(state, inputs, more.drop_last());
        let shorter = session_run(state, inputs + more.drop_last());
        let longer = session_run(state, all);
        let n = session_run(state, inputs).len() as int;
        assert(longer.subrange(0, n) =~= shorter.subrange(0, n));
    }
}

/// A stream of events is finite in this sense: a live session has emitted
/// readings only, and of all that a session emits, only the last event can
/// be another than a reading; once it is emitted, the session has ended.
pub proof fn lemma_only_the_last_event_ends(state: SessionState, inputs: Seq<SessionInput>)
    ensures
        run_state(state, inputs).live ==> state.live,
        run_state(state, inputs).live ==> forall|i: int|
            0 <= i < session_run(state, inputs).len() ==> (#[trigger] session_run(
                state,
                inputs,
            )[i]) is SensorReading,
        forall|i: int|
            0 <= i < session_run(state, inputs).len() - 1 ==> (#[trigger] session_run(
                state,
                inputs,
            )[i]) is SensorReading,
        !state.live ==> session_run(state, inputs).len() == 0,
    decreases inputs.len(),
{
    if inputs.len() > 0 {
        lemma_only_the_last_event_ends(state, inputs.drop_last());
        let before = session_run(state, inputs.drop_last());
        let at = run_state(state, inputs.drop_last());
        let events = session_run(state, inputs);
        if at.live {
            assert forall|i: int| 0 <= i < events.len() - 1 implies (#[trigger] events[i]) is SensorReading by {
                assert(events[i] == before[i]);
            }
            if run_state(state, inputs).live {
                assert forall|i: int| 0 <= i < events.len() implies (#[trigger] events[i]) is SensorReading by {
                    if i < before.len() {
                        assert(events[i] == before[i]);
                    }
                }
            }
        } else {
            assert(events == before);
        }
    }
}

/// The session of one node: the decisions of the task that owns the
/// node's socket and silence timer.
#[derive(Debug)]
pub struct NodeEventHandler {
    bind_addr: SocketAddrV6,
    node_addr: SocketAddrV6,
    live: bool,
}

impl NodeEventHandler {
    /// Whether the session is live, and the source address it reports.
    pub closed spec fn view(&self) -> SessionState {
        SessionState { live: self.live, source: self.node_addr }
    }

    /// The address the session's socket is bound to.
    pub closed spec fn spec_bind_addr(&self) -> SocketAddrV6 {
        self.bind_addr
    }

    /// A live session for the socket bound to `addr`. Until a datagram from
    /// an IPv6 peer arrives, it reports `addr` as its source.
    pub fn new(addr: SocketAddrV6) -> (s: Self)
        ensures
            s@.live,
            s@.source == addr,
            s.spec_bind_addr() == addr,
    {
        NodeEventHandler { bind_addr: addr, node_addr: addr, live: true }
    }

    /// The address the session's socket is bound to.
    pub fn bind_addr(&self) -> (a: SocketAddrV6)
        ensures
            a == self.spec_bind_addr(),
    {
        self.bind_addr
    }

    /// The source address the session reports now.
    pub fn source_addr(&self) -> (a: SocketAddrV6)
        ensures
            a == self@.source,
    {
        self.node_addr
    }

    /// Whether the session is live.
    pub fn is_live(&self) -> (r: bool)
        ensures
            r == self@.live,
    {
        self.live
    }

    /// Takes one input and tells what the task does next. A live session
    /// stays live exactly on datagrams; an ended one stays ended and does
    /// nothing.
    pub fn step(&mut self, input: SessionInput) -> (out: SessionStep)
        ensures
            final(self).spec_bind_addr() == old(self).spec_bind_addr(),
            old(self)@.live ==> out == session_step(old(self)@.source, input).0,
            old(self)@.live ==> final(self)@.source == session_step(old(self)@.source, input).1,
            old(self)@.live ==> final(self)@.live == !out.terminate,
            !old(self)@.live ==> out == idle_step() && final(self)@ == old(self)@,
            (final(self)@, out) == run_step(old(self)@, input),
    {
        if !self.live {
            return SessionStep { emit: None, reset_timer: false, terminate: true };
        }
        match input {
            SessionInput::BindFailed => {
                self.live = false;
                SessionStep { emit: Some(NodeEvent::SetupError), reset_timer: false, terminate: true }
            },
            SessionInput::Datagram { from, reading, now } => {
                match from {
                    SourceAddr::V6(seen) => {
                        self.node_addr = seen;
                        let emit = match reading {
                            Some(r) => Some(
                                NodeEvent::SensorReading(
                                    NodeSensorReading {
                                        addr: seen,
                                        data: SensorReading {
                                            soil: r.soil,
                                            light: r.light,
                                            gas: r.gas,
                                            ts: now,
                                        },
                                    },
                                ),
                            ),
                            None => None,
                        };
                        SessionStep { emit, reset_timer: true, terminate: false }
                    },
                    SourceAddr::Other => SessionStep {
                        emit: None,
                        reset_timer: true,
                        terminate: false,
                    },
                }
            },
            SessionInput::RecvError => {
                self.live = false;
                SessionStep {
                    emit: Some(NodeEvent::SocketError(self.node_addr)),
                    reset_timer: false,
                    terminate: true,
                }
            },
            SessionInput::Silence => {
                self.live = false;
                SessionStep {
                    emit: Some(NodeEvent::NodeTimeout(self.node_addr)),
                    reset_timer: false,
                    terminate: true,
                }
            },
            SessionInput::SinkClosed => {
                self.live = false;
                SessionStep { emit: None, reset_timer: false, terminate: true }
            },
        }
    }
}

/// Why a session ended, as the last event it emitted tells.
pub fn session_end_reason(last: Option<NodeEvent>) -> (reason: ErrorState)
    ensures
        reason == end_reason(last),
{
    match last {
        Some(NodeEvent::NodeTimeout(_)) => ErrorState::Timeout,
        Some(NodeEvent::SocketError(_)) => ErrorState::SocketError,
        Some(NodeEvent::SetupError) => ErrorState::SetupError,
        Some(NodeEvent::SensorReading(_)) => ErrorState::Other,
        None => ErrorState::Other,
    }
}

/// Owner of one node's session.
#[derive(Debug)]
pub struct NodeHandler {
    _handler: NodeEventHandler,
}

impl NodeHandler {
    /// The session held.
    pub closed spec fn session(&self) -> NodeEventHandler {
        self._handler
    }

    /// A handler with a live session for the socket bound to `addr`.
    pub fn new(addr: SocketAddrV6) -> (h: Self)
        ensures
            h.session()@.live,
            h.session()@.source == addr,
            h.session().spec_bind_addr() == addr,
    {
        NodeHandler { _handler: NodeEventHandler::new(addr) }
    }

    /// Hands the session's task one input.
    pub fn step(&mut self, input: SessionInput) -> (out: SessionStep)
        ensures
            final(self).session().spec_bind_addr() == old(self).session().spec_bind_addr(),
            old(self).session()@.live ==> out == session_step(old(self).session()@.source, input).0,
            old(self).session()@.live ==> final(self).session()@.source == session_step(
                old(self).session()@.source,
                input,
            ).1,
            old(self).session()@.live ==> final(self).session()@.live == !out.terminate,
            !old(self).session()@.live ==> out == idle_step() && final(self).session()@ == old(
                self,
            ).session()@,
    {
        self._handler.step(input)
    }
}

} // verus!
