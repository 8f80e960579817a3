//! The node runtime: the decisions of the firmware's CoAP server loop and
//! the composition of one reading from the attached sensors.

use crate::addr::Ipv6Addr;
use crate::coap::{reply_for, request_head, server_reply, ServerReply};
use crate::sensor::{PlatformSensorError, Sensor, BOUND_PORT, MAX_SENSORS};
use crate::Eui;
use vstd::prelude::*;
use vstd::slice::slice_to_vec;
use vstd::utf8::encode_utf8;

verus! {

/// Why the node runtime gave up.
#[derive(Clone, Copy, Debug, PartialEq, Eq, Structural)]
pub enum Esp32PlatformError {
    SensorError,
    PlatformError,
    PeripheralError,
    OtherError,
}

/// Where in the shared buffer the record of one sensor lies.
#[derive(Clone, Copy, Debug, PartialEq, Eq, Structural)]
pub struct Frame {
    /// The slot of the sensor that wrote the record.
    pub slot: usize,
    /// The first byte of the record.
    pub start: usize,
    /// The number of bytes of the record.
    pub len: usize,
}

/// The record that a sensor's answer adds at `cursor` to a buffer of
/// `capacity` bytes: the bytes it says it wrote, if they lie within the
/// buffer.
pub open spec fn frame_of(
    slot: usize,
    cursor: usize,
    capacity: usize,
    outcome: Result<usize, PlatformSensorError>,
) -> Result<Frame, PlatformSensorError> {
    match outcome {
        Ok(len) => if cursor + len <= capacity {
            Ok(Frame { slot, start: cursor, len })
        } else {
            Err(PlatformSensorError::Other)
        },
        Err(e) => Err(e),
    }
}

/// The record that a sensor's answer adds to the buffer, or the error
/// that ends the reading: the sensor's own, or `Other` where the sensor
/// claims more bytes than the buffer holds behind `cursor`.
pub fn next_frame(
    slot: usize,
    cursor: usize,
    capacity: usize,
    outcome: Result<usize, PlatformSensorError>,
) -> (res: Result<Frame, PlatformSensorError>)
    ensures
        res == frame_of(slot, cursor, capacity, outcome),
{
    match outcome {
        Ok(len) => {
            if cursor <= capacity && len <= capacity - cursor {
                Ok(Frame { slot, start: cursor, len })
            } else {
                Err(PlatformSensorError::Other)
            }
        },
        Err(e) => Err(e),
    }
}

/// The records follow one another from the start of a buffer of
/// `capacity` bytes, in the order of their slots.
pub open spec fn frames_laid_out(frames: Seq<Frame>, capacity: int) -> bool {
    &&& frames.len() > 0 ==> frames[0].start == 0
    &&& forall|i: int|
        0 <= i < frames.len() ==> (#[trigger] frames[i]).start + frames[i].len <= capacity
    &&& forall|i: int|
        0 <= i < frames.len() - 1 ==> (#[trigger] frames[i]).start + frames[i].len == frames[i
            + 1].start
    &&& forall|i: int, j: int| 0 <= i < j < frames.len() ==> frames[i].slot < frames[j].slot
}

/// The datagram by which a node answers anything but a registration.
pub open spec fn challenge() -> Seq<u8> {
    encode_utf8("beefface authenticate!"@)
}

/// What the node's server loop holds between two turns.
pub ghost struct ServerState {
    /// The observer that readings go to, once one has registered.
    pub observer: Option<(Ipv6Addr, u16)>,
    /// Whether the loop still runs; it ends on the way to a reset.
    pub running: bool,
}

/// A datagram for the node to send.
#[derive(Debug)]
pub struct Outgoing {
    pub to: Ipv6Addr,
    pub port: u16,
    pub bytes: Vec<u8>,
}

/// What a datagram holds, for contracts.
pub ghost struct OutgoingView {
    pub to: Ipv6Addr,
    pub port: u16,
    pub bytes: Seq<u8>,
}

impl View for Outgoing {
    type V = OutgoingView;

    open spec fn view(&self) -> OutgoingView {
        OutgoingView { to: self.to, port: self.port, bytes: self.bytes@ }
    }
}

/// Whether `datagram` registers an observer with a node that has this EUI
/// and plant name: whether it is a registration that can be answered.
pub open spec fn registers(datagram: Seq<u8>, eui: Seq<u8>, name: Seq<u8>) -> bool {
    reply_for(request_head(datagram), eui, name) is Some
}

/// What the running server does with a datagram from `from`: the state it
/// is in afterwards and what it sends, if anything.
pub open spec fn datagram_step(
    state: ServerState,
    eui: Seq<u8>,
    name: Seq<u8>,
    from: Ipv6Addr,
    datagram: Seq<u8>,
) -> (ServerState, Option<OutgoingView>) {
    if !state.running || datagram.len() == 0 {
        (state, None)
    } else if registers(datagram, eui, name) {
        let reply = reply_for(request_head(datagram), eui, name).unwrap();
        (
            ServerState { observer: Some((from, reply.0)), ..state },
            Some(OutgoingView { to: from, port: reply.0, bytes: reply.1 }),
        )
    } else {
        (state, Some(OutgoingView { to: from, port: BOUND_PORT, bytes: challenge() }))
    }
}

/// What the Thread stack reports of the node's place in the mesh.
#[derive(Clone, Copy, Debug, PartialEq, Eq, Structural)]
pub enum NetworkChange {
    /// The node got a routing locator: it is attached.
    RlocAdded,
    /// The node lost its routing locator: it is detached.
    RlocRemoved,
    /// Any other change.
    Other,
}

/// What the main loop does about a change of the network state.
#[derive(Clone, Copy, Debug, PartialEq, Eq, Structural)]
pub enum Recovery {
    /// Nothing.
    Nothing,
    /// Register the node's service with the border router.
    RegisterService,
    /// Switch the Thread stack off and reset the processor.
    Reset,
}

/// What a change of the network state asks of the main loop.
pub open spec fn recovery_for(change: NetworkChange) -> Recovery {
    match change {
        NetworkChange::RlocAdded => Recovery::RegisterService,
        NetworkChange::RlocRemoved => Recovery::Reset,
        NetworkChange::Other => Recovery::Nothing,
    }
}

/// What the timer's firing asks of the server.
#[derive(Clone, Copy, Debug, PartialEq, Eq, Structural)]
pub enum TimerAction {
    /// No observer has registered, or the loop has ended: nothing.
    Idle,
    /// Read the sensors and send the reading to the observer.
    Sample { to: Ipv6Addr, port: u16 },
}

/// What the firing of the timer asks of a server in `state`.
pub open spec fn timer_step(state: ServerState) -> TimerAction {
    match state.observer {
        Some((to, port)) => if state.running {
            TimerAction::Sample { to, port }
        } else {
            TimerAction::Idle
        },
        None => TimerAction::Idle,
    }
}

/// The node: its sensors in their slots, its identity, and the state of
/// its CoAP server loop.
pub struct Esp32Platform<S: Sensor> {
    sensors: Vec<Option<S>>,
    eui: Eui,
    name: Vec<u8>,
    observer: Option<(Ipv6Addr, u16)>,
    running: bool,
}

impl<S: Sensor> Esp32Platform<S> {
    /// The state of the server loop.
    pub closed spec fn view(&self) -> ServerState {
        ServerState { observer: self.observer, running: self.running }
    }

    /// The node's EUI.
    pub closed spec fn spec_eui(&self) -> Seq<u8> {
        self.eui@
    }

    /// The bytes of the name of the node's plant.
    pub closed spec fn spec_name(&self) -> Seq<u8> {
        self.name@
    }

    /// How many sensor slots the node has.
    pub closed spec fn slots(&self) -> nat {
        self.sensors@.len()
    }

    /// Whether a sensor sits in `slot`.
    pub closed spec fn attached(&self, slot: int) -> bool {
        0 <= slot < self.sensors@.len() && self.sensors@[slot] is Some
    }

    /// A node with the given sensors in their slots, no observer yet, and
    /// its server loop running.
    pub fn new(sensors: Vec<Option<S>>, eui: Eui, name: Vec<u8>) -> (node: Self)
        ensures
            node@.observer is None,
            node@.running,
            node.spec_eui() == eui@,
            node.spec_name() == name@,
            node.slots() == sensors@.len(),
    {
        Esp32Platform { sensors, eui, name, observer: None, running: true }
    }

    /// A node with `MAX_SENSORS` slots and no sensor in any of them.
    pub fn with_slots(eui: Eui, name: Vec<u8>) -> (node: Self)
        ensures
            node@.observer is None,
            node@.running,
            node.spec_eui() == eui@,
            node.spec_name() == name@,
            node.slots() == MAX_SENSORS,
            forall|slot: int| !node.attached(slot),
    {
        let mut sensors: Vec<Option<S>> = Vec::new();
        let mut i: usize = 0;
        while i < MAX_SENSORS
            invariant
                i <= MAX_SENSORS,
                sensors@.len() == i,
                forall|k: int| 0 <= k < i ==> sensors@[k] is None,
            decreases MAX_SENSORS - i,
        {
            sensors.push(None);
            i = i + 1;
        }
        Esp32Platform { sensors, eui, name, observer: None, running: true }
    }

    /// Puts `sensor` into `slot`, in place of the sensor that sat there.
    /// A slot that the node does not have takes no sensor.
    pub fn attach(&mut self, slot: usize, sensor: S) -> (done: bool)
        ensures
            done == (slot < old(self).slots()),
            final(self)@ == old(self)@,
            final(self).spec_eui() == old(self).spec_eui(),
            final(self).spec_name() == old(self).spec_name(),
            final(self).slots() == old(self).slots(),
            forall|k: int|
                final(self).attached(k) == (old(self).attached(k) || (done && k == slot)),
    {
        if slot < self.sensors.len() {
            self.sensors[slot] = Some(sensor);
            true
        } else {
            false
        }
    }

    /// The observer that readings go to, if one has registered.
    pub fn observer(&self) -> (o: Option<(Ipv6Addr, u16)>)
        ensures
            o == self@.observer,
    {
        self.observer
    }

    /// Whether the server loop still runs.
    pub fn is_running(&self) -> (r: bool)
        ensures
            r == self@.running,
    {
        self.running
    }

    /// One turn of the server loop on a received datagram. A registration
    /// is answered with the node's EUI and plant name and makes its sender
    /// the observer; anything else is answered with the challenge; an
    /// empty datagram is passed over.
    pub fn coap_server_event_loop(&mut self, from: Ipv6Addr, datagram: &[u8]) -> (out: Option<
        Outgoing,
    >)
        ensures
            final(self).spec_eui() == old(self).spec_eui(),
            final(self).spec_name() == old(self).spec_name(),
            final(self).slots() == old(self).slots(),
            forall|k: int| final(self).attached(k) == old(self).attached(k),
            final(self)@ == datagram_step(
                old(self)@,
                old(self).spec_eui(),
                old(self).spec_name(),
                from,
                datagram@,
            ).0,
            match out {
                Some(o) => Some(o@),
                None => None,
            } == datagram_step(
                old(self)@,
                old(self).spec_eui(),
                old(self).spec_name(),
                from,
                datagram@,
            ).1,
    {
        if !self.running || datagram.len() == 0 {
            return None;
        }
        match server_reply(datagram, &self.eui, self.name.as_slice()) {
            ServerReply::Register { port, response } => {
                self.observer = Some((from, port));
                Some(Outgoing { to: from, port, bytes: response })
            },
            ServerReply::Ignore => Some(
                Outgoing { to: from, port: BOUND_PORT, bytes: challenge_bytes() },
            ),
        }
    }

    /// What the firing of the sampling timer asks for.
    pub fn on_timer(&self) -> (action: TimerAction)
        ensures
            action == timer_step(self@),
    {
        match self.observer {
            Some((to, port)) => {
                if self.running {
                    TimerAction::Sample { to, port }
                } else {
                    TimerAction::Idle
                }
            },
            None => TimerAction::Idle,
        }
    }

    /// Takes a change of the network state that the stack's callback
    /// latched. Attachment asks for the service registration; detachment
    /// ends the server loop and asks for the reset.
    pub fn on_network_change(&mut self, change: NetworkChange) -> (todo: Recovery)
        ensures
            todo == recovery_for(change),
            final(self)@.running == (old(self)@.running && change != NetworkChange::RlocRemoved),
            final(self)@.observer == old(self)@.observer,
            final(self).spec_eui() == old(self).spec_eui(),
            final(self).spec_name() == old(self).spec_name(),
            final(self).slots() == old(self).slots(),
            forall|k: int| final(self).attached(k) == old(self).attached(k),
    {
        match change {
            NetworkChange::RlocAdded => Recovery::RegisterService,
            NetworkChange::RlocRemoved => {
                self.running = false;
                Recovery::Reset
            },
            NetworkChange::Other => Recovery::Nothing,
        }
    }

    /// Ends the server loop: a send failed, a sensor failed, or the node
    /// fell off the mesh. What is left is the reset.
    pub fn exit_loop(&mut self) -> (err: Esp32PlatformError)
        ensures
            !final(self)@.running,
            final(self)@.observer == old(self)@.observer,
            final(self).spec_eui() == old(self).spec_eui(),
            final(self).spec_name() == old(self).spec_name(),
            final(self).slots() == old(self).slots(),
            forall|k: int| final(self).attached(k) == old(self).attached(k),
            err == Esp32PlatformError::PlatformError,
    {
        self.running = false;
        Esp32PlatformError::PlatformError
    }

    /// Takes note of how a send to the observer went: a failed send ends
    /// the server loop, after which the socket is closed and the node
    /// reset.
    pub fn after_send(&mut self, sent: bool) -> (end: Option<Esp32PlatformError>)
        ensures
            end == (if sent {
                None
            } else {
                Some(Esp32PlatformError::PlatformError)
            }),
            final(self)@.running == (old(self)@.running && sent),
            final(self)@.observer == old(self)@.observer,
            final(self).spec_eui() == old(self).spec_eui(),
            final(self).spec_name() == old(self).spec_name(),
            final(self).slots() == old(self).slots(),
            forall|k: int| final(self).attached(k) == old(self).attached(k),
    {
        if sent {
            None
        } else {
            self.running = false;
            Some(Esp32PlatformError::PlatformError)
        }
    }

    /// What a reading of the sensors means for the server loop: the
    /// records go on to be sent; a sensor's error ends the loop.
    pub fn after_read(&mut self, read: Result<Vec<Frame>, PlatformSensorError>) -> (res: Result<
        Vec<Frame>,
        Esp32PlatformError,
    >)
        ensures
            res == (match read {
                Ok(frames) => Ok(frames),
                Err(_) => Err(Esp32PlatformError::SensorError),
            }),
            final(self)@.running == (old(self)@.running && read is Ok),
            final(self)@.observer == old(self)@.observer,
            final(self).spec_eui() == old(self).spec_eui(),
            final(self).spec_name() == old(self).spec_name(),
            final(self).slots() == old(self).slots(),
            forall|k: int| final(self).attached(k) == old(self).attached(k),
    {
        match read {
            Ok(frames) => Ok(frames),
            Err(_) => {
                self.running = false;
                Err(Esp32PlatformError::SensorError)
            },
        }
    }

    /// Reads every attached sensor into `buffer`, one record behind the
    /// other, and tells where each record lies. The first sensor that fails,
    /// or that claims more bytes than the buffer holds, ends the reading
    /// with its error.
    pub fn sensor_read(&mut self, buffer: &mut [u8]) -> (res: Result<
        Vec<Frame>,
        PlatformSensorError,
    >)
        ensures
            final(self)@ == old(self)@,
            final(self).spec_eui() == old(self).spec_eui(),
            final(self).spec_name() == old(self).spec_name(),
            final(self).slots() == old(self).slots(),
            forall|k: int| final(self).attached(k) == old(self).attached(k),
            (forall|k: int| !old(self).attached(k)) ==> (res matches Ok(frames) && frames@.len()
                == 0),
            res matches Ok(frames) ==> frames_laid_out(frames@, old(buffer)@.len() as int)
                && forall|i: int|
                0 <= i < frames@.len() ==> old(self).attached((#[trigger] frames@[i]).slot as int),
            res matches Ok(frames) ==> forall|k: int| #[trigger]
                old(self).attached(k) ==> has_frame(frames@, k),
    {
        let mut frames: Vec<Frame> = Vec::new();
        let mut cursor: usize = 0;
        let mut slot: usize = 0;
        let n = self.sensors.len();
        let capacity = buffer.len();
        while slot < n
            invariant
                n == self.sensors@.len(),
                n == old(self).sensors@.len(),
                capacity == old(buffer)@.len(),
                self.eui == old(self).eui,
                self.name == old(self).name,
                self.observer == old(self).observer,
                self.running == old(self).running,
                slot <= n,
                cursor <= capacity,
                frames_laid_out(frames@, capacity as int),
                cursor == frames_end(frames@),
                forall|i: int| 0 <= i < frames@.len() ==> (#[trigger] frames@[i]).slot < slot,
                forall|k: int|
                    0 <= k < n ==> ((#[trigger] self.sensors@[k]) is Some) == (old(
                        self,
                    ).sensors@[k] is Some),
                forall|i: int|
                    0 <= i < frames@.len() ==> old(self).sensors@[(
                    #[trigger] frames@[i]).slot as int] is Some,
                forall|k: int|
                    0 <= k < slot && (#[trigger] old(self).sensors@[k]) is Some ==> has_frame(
                        frames@,
                        k,
                    ),
                (forall|k: int| !old(self).attached(k)) ==> frames@.len() == 0,
            decreases n - slot,
        {
            let ghost had = self.sensors@[slot as int] is Some;
            let outcome = match &mut self.sensors[slot] {
                Some(sensor) => Some(sensor.read(buffer, cursor)),
                None => None,
            };
            proof {
                assert(outcome is Some == had);
                assert(had == old(self).attached(slot as int));
            }
            match outcome {
                Some(answer) => {
                    match next_frame(slot, cursor, capacity, answer) {
                        Ok(frame) => {
                            let ghost before = frames@;
                            proof {
                                lemma_push_frame(frames@, frame, capacity as int);
                            }
                            frames.push(frame);
                            cursor = cursor + frame.len;
                            proof {
                                assert(frames@[before.len() as int].slot == slot);
                                assert forall|k: int|
                                    0 <= k < slot + 1 && (#[trigger] old(
                                        self,
                                    ).sensors@[k]) is Some implies has_frame(frames@, k) by {
                                    if k < slot {
                                        assert(has_frame(before, k));
                                        let i = choose|i: int|
                                            0 <= i < before.len() && (#[trigger] before[i]).slot
                                                == k;
                                        assert(frames@[i].slot == k);
                                    }
                                }
                            }
                        },
                        Err(e) => {
                            return Err(e);
                        },
                    }
                },
                None => {},
            }
            slot = slot + 1;
        }
        proof {
            assert forall|k: int| #[trigger] old(self).attached(k) implies has_frame(frames@, k) by {
                assert(old(self).sensors@[k] is Some);
            }
        }
        Ok(frames)
    }
}

/// Whether one of `frames` is the record of the sensor in `slot`.
pub open spec fn has_frame(frames: Seq<Frame>, slot: int) -> bool {
    exists|i: int| 0 <= i < frames.len() && (#[trigger] frames[i]).slot == slot
}

/// Where the last of `frames` ends: where the next record starts.
pub open spec fn frames_end(frames: Seq<Frame>) -> int {
    if frames.len() == 0 {
        0
    } else {
        frames.last().start + frames.last().len
    }
}

/// A record that starts where the last one ends, lies within the buffer
/// and comes from a later slot keeps the records laid out.
pub proof fn lemma_push_frame(frames: Seq<Frame>, frame: Frame, capacity: int)
    requires
        frames_laid_out(frames, capacity),
        frame.start == frames_end(frames),
        frame.start + frame.len <= capacity,
        forall|i: int| 0 <= i < frames.len() ==> (#[trigger] frames[i]).slot < frame.slot,
    ensures
        frames_laid_out(frames.push(frame), capacity),
        frames_end(frames.push(frame)) == frame.start + frame.len,
{
    let more = frames.push(frame);
    assert forall|i: int| 0 <= i < more.len() implies (#[trigger] more[i]).start + more[i].len
        <= capacity by {
        if i < frames.len() {
            assert(more[i] == frames[i]);
        }
    }
    assert forall|i: int| 0 <= i < more.len() - 1 implies (#[trigger] more[i]).start + more[i].len
        == more[i + 1].start by {
        assert(more[i] == frames[i]);
        if i < frames.len() - 1 {
            assert(more[i + 1] == frames[i + 1]);
        }
    }
    assert forall|i: int, j: int| 0 <= i < j < more.len() implies more[i].slot < more[j].slot by {
        assert(more[i] == frames[i]);
        if j < frames.len() {
            assert(more[j] == frames[j]);
        }
    }
    if frames.len() > 0 {
        assert(more[0] == frames[0]);
    }
}

/// The bytes of the challenge.
pub fn challenge_bytes() -> (bytes: Vec<u8>)
    ensures
        bytes@ == challenge(),
{
    slice_to_vec("beefface authenticate!".as_bytes())
}

/// A second registration from the same source is answered as the first
/// was and leaves the server as the first left it.
pub proof fn lemma_reregistration_is_idempotent(
    state: ServerState,
    eui: Seq<u8>,
    name: Seq<u8>,
    from: Ipv6Addr,
    datagram: Seq<u8>,
)
    requires
        state.running,
        datagram.len() > 0,
        registers(datagram, eui, name),
    ensures
        ({
            let first = datagram_step(state, eui, name, from, datagram);
            let second = datagram_step(first.0, eui, name, from, datagram);
            &&& second.1 == first.1
            &&& second.0 == first.0
            &&& first.0.observer == Some((from, request_head(datagram).unwrap().message_id))
            &&& first.1.unwrap().port == request_head(datagram).unwrap().message_id
        }),
{
}

} // verus!
