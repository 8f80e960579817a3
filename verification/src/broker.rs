//! The broker: the table of subscribers and the fan-out of readings and
//! node status to every one of them.

use crate::addr::SocketAddrV6;
use crate::node::{ErrorState, NodeEvent, NodeSensorReading, NodeStatus, Registration};
use crate::router::EventRouterError;
use crate::ClientId;
use tokio::sync::mpsc::{UnboundedReceiver, UnboundedSender};
use vstd::prelude::*;

verus! {

/// The sending half of an unbounded in-memory queue.
#[verifier::external_type_specification]
#[verifier::external_body]
#[verifier::reject_recursive_types(T)]
pub struct ExUnboundedSender<T>(UnboundedSender<T>);

/// The receiving half of an unbounded in-memory queue.
#[verifier::external_type_specification]
#[verifier::external_body]
#[verifier::reject_recursive_types(T)]
pub struct ExUnboundedReceiver<T>(UnboundedReceiver<T>);

/// Calls `UnboundedSender::send` and tells whether the queue took the
/// message. It does not once the receiving half is closed or dropped;
/// nothing else is known of the outcome. (The call ends the process
/// should half of `usize::MAX` messages ever wait in one queue.)
#[verifier::external_body]
pub(crate) fn send_to<T>(sink: &UnboundedSender<T>, message: T) -> (accepted: bool) {
    sink.send(message).is_ok()
}

/// Why the broker could not be set up or reached.
#[derive(Debug)]
pub enum BrokerError {
    /// The event router failed.
    Broker(EventRouterError),
    /// The broker's task no longer takes messages.
    ActorError,
}

/// What reaches the broker from the event router and from the sessions.
#[derive(Debug)]
pub enum BrokerEvent {
    /// A node completed its handshake.
    NodeRegistration(Registration),
    /// A session ended.
    NodeTermination((SocketAddrV6, ErrorState)),
    /// A session started; here is the stream of its events.
    SensorReportHandleCreate(UnboundedReceiver<NodeEvent>),
}

/// What a client asks of the broker.
#[derive(Debug)]
pub enum ClientApi {
    Subscribe {
        id: ClientId,
        sensor_readings: UnboundedSender<NodeSensorReading>,
        node_status: UnboundedSender<NodeStatus>,
    },
    Unsubscribe { id: ClientId },
}

/// A client's request to receive readings and node status under `id`.
#[derive(Debug)]
pub struct ClientSubscribe {
    pub id: ClientId,
    pub sensor_readings: UnboundedSender<NodeSensorReading>,
    pub node_status: UnboundedSender<NodeStatus>,
}

/// A client's request to receive nothing more under `id`.
#[derive(Debug)]
pub struct ClientUnsubscribe {
    pub id: ClientId,
}

/// The handle by which clients subscribe and unsubscribe.
#[derive(Debug)]
pub struct BrokerHandle(pub UnboundedSender<ClientApi>);

impl ClientApi {
    /// The request that a subscription makes of the broker: to enter the
    /// client with its identifier and its two sinks.
    pub fn subscription(msg: ClientSubscribe) -> (request: ClientApi)
        ensures
            request == (ClientApi::Subscribe {
                id: msg.id,
                sensor_readings: msg.sensor_readings,
                node_status: msg.node_status,
            }),
    {
        ClientApi::Subscribe {
            id: msg.id,
            sensor_readings: msg.sensor_readings,
            node_status: msg.node_status,
        }
    }

    /// The request that the end of a subscription makes of the broker: to
    /// remove the client with this identifier.
    pub fn cancellation(msg: ClientUnsubscribe) -> (request: ClientApi)
        ensures
            request == (ClientApi::Unsubscribe { id: msg.id }),
    {
        ClientApi::Unsubscribe { id: msg.id }
    }
}

impl BrokerHandle {
    /// What a client is told of its request: success where the broker's
    /// queue took it, else that the broker no longer takes messages.
    pub fn handed_over(accepted: bool) -> (res: Result<(), BrokerError>)
        ensures
            res is Ok <==> accepted,
            res matches Err(e) ==> e is ActorError,
    {
        if accepted {
            Ok(())
        } else {
            Err(BrokerError::ActorError)
        }
    }

    /// Passes a subscription on to the broker.
    pub fn subscribe(&self, msg: ClientSubscribe) -> (res: Result<(), BrokerError>)
        ensures
            res matches Err(e) ==> e is ActorError,
    {
        Self::handed_over(send_to(&self.0, ClientApi::subscription(msg)))
    }

    /// Passes the end of a subscription on to the broker.
    pub fn unsubscribe(&self, msg: ClientUnsubscribe) -> (res: Result<(), BrokerError>)
        ensures
            res matches Err(e) ==> e is ActorError,
    {
        Self::handed_over(send_to(&self.0, ClientApi::cancellation(msg)))
    }
}

/// One subscriber: its identifier and the two sinks it gave.
#[derive(Debug)]
pub struct Subscriber {
    pub id: ClientId,
    pub sensor_readings: UnboundedSender<NodeSensorReading>,
    pub node_status: UnboundedSender<NodeStatus>,
}

/// The identifiers of `subscribers`, in order.
pub open spec fn subscriber_ids(subscribers: Seq<Subscriber>) -> Seq<ClientId> {
    subscribers.map_values(|s: Subscriber| s.id)
}

/// No two of `subscribers` have the same identifier.
pub open spec fn distinct_ids(subscribers: Seq<Subscriber>) -> bool {
    forall|i: int, j: int| 0 <= i < j < subscribers.len() ==> subscribers[i].id != subscribers[j].id
}

/// `i` is where `subscribers` holds `id`, or `subscribers.len()` when it
/// does not.
pub open spec fn is_id_index(subscribers: Seq<Subscriber>, id: ClientId, i: int) -> bool {
    &&& 0 <= i <= subscribers.len()
    &&& i < subscribers.len() ==> subscribers[i].id == id
    &&& forall|k: int| 0 <= k < i ==> (#[trigger] subscribers[k]).id != id
}

/// Where `subscribers` holds `id`, or `subscribers.len()` when it does not.
pub open spec fn id_index(subscribers: Seq<Subscriber>, id: ClientId) -> int {
    choose|i: int| is_id_index(subscribers, id, i)
}

/// There is one such place.
pub proof fn lemma_id_index(subscribers: Seq<Subscriber>, id: ClientId, i: int)
    requires
        is_id_index(subscribers, id, i),
    ensures
        id_index(subscribers, id) == i,
{
    let j = id_index(subscribers, id);
    assert(is_id_index(subscribers, id, j));
    if j < i {
        assert(subscribers[j].id != id);
    } else if i < j {
        assert(subscribers[i].id != id);
    }
}

/// An identifier is among those of a table exactly when it has a place in
/// the table.
pub proof fn lemma_listed_id(subscribers: Seq<Subscriber>, id: ClientId, i: int)
    requires
        is_id_index(subscribers, id, i),
    ensures
        subscriber_ids(subscribers).contains(id) <==> i < subscribers.len(),
{
    let ids = subscriber_ids(subscribers);
    if i < subscribers.len() {
        assert(ids[i] == id);
    } else if ids.contains(id) {
        let k = choose|k: int| 0 <= k < ids.len() && ids[k] == id;
        assert(subscribers[k].id != id);
    }
}

/// The table once `subscriber` is entered: in place of the entry with its
/// identifier, or else behind the others.
pub open spec fn subscribed(subscribers: Seq<Subscriber>, subscriber: Subscriber) -> Seq<Subscriber> {
    let i = id_index(subscribers, subscriber.id);
    if 0 <= i < subscribers.len() {
        subscribers.update(i, subscriber)
    } else {
        subscribers.push(subscriber)
    }
}

/// The table once the entry of `id`, if any, is removed.
pub open spec fn unsubscribed(subscribers: Seq<Subscriber>, id: ClientId) -> Seq<Subscriber> {
    let i = id_index(subscribers, id);
    if 0 <= i < subscribers.len() {
        subscribers.remove(i)
    } else {
        subscribers
    }
}

/// One attempt per subscriber, in the order of the table: to whom, and
/// whether the sink took the message.
pub open spec fn one_attempt_each(attempts: Seq<(ClientId, bool)>, subscribers: Seq<Subscriber>) -> bool {
    &&& attempts.len() == subscribers.len()
    &&& forall|i: int| 0 <= i < attempts.len() ==> (#[trigger] attempts[i]).0 == subscribers[i].id
}

/// What the broker did with an event.
#[derive(Debug)]
pub enum EventOutcome {
    /// It offered a status to every subscriber; here is how each sink
    /// answered.
    Delivered(Vec<(ClientId, bool)>),
    /// A session's stream is to be read from now on.
    Spawn(UnboundedReceiver<NodeEvent>),
}

/// What becomes of one event of a session's stream.
#[derive(Clone, Copy, Debug, PartialEq, Eq, Structural)]
pub enum StreamVerdict {
    /// A reading: it goes to the data queue, and the stream goes on.
    Reading(NodeSensorReading),
    /// The session ended for a reason that subscribers learn.
    Terminated(SocketAddrV6, ErrorState),
    /// The session could not be set up: the stream ends in silence.
    Silent,
}

/// What becomes of `event`.
pub open spec fn stream_verdict(event: NodeEvent) -> StreamVerdict {
    match event {
        NodeEvent::SensorReading(reading) => StreamVerdict::Reading(reading),
        NodeEvent::SocketError(addr) => StreamVerdict::Terminated(addr, ErrorState::SocketError),
        NodeEvent::NodeTimeout(addr) => StreamVerdict::Terminated(addr, ErrorState::Timeout),
        NodeEvent::SetupError => StreamVerdict::Silent,
    }
}

/// What the reader of a session's stream did with one event.
#[derive(Clone, Copy, Debug, PartialEq, Eq, Structural)]
pub struct StreamStep {
    /// What became of the event.
    pub verdict: StreamVerdict,
    /// Whether the queue that the event was passed to took it; `true`
    /// where nothing was passed on.
    pub accepted: bool,
    /// Whether the stream is at its end.
    pub done: bool,
}

/// The broker's table of subscribers.
pub struct Broker {
    subscribers: Vec<Subscriber>,
}

impl Broker {
    /// The subscribers in the order of their first subscription.
    pub closed spec fn view(&self) -> Seq<Subscriber> {
        self.subscribers@
    }

    /// No identifier occurs twice in the table.
    pub open spec fn wf(&self) -> bool {
        distinct_ids(self@)
    }

    /// A broker without subscribers.
    pub fn new() -> (b: Self)
        ensures
            b@.len() == 0,
            b.wf(),
    {
        Broker { subscribers: Vec::new() }
    }

    /// How many clients are subscribed.
    pub fn subscriber_count(&self) -> (n: usize)
        ensures
            n == self@.len(),
    {
        self.subscribers.len()
    }

    /// Whether a client is subscribed under `id`.
    pub fn is_subscribed(&self, id: ClientId) -> (r: bool)
        ensures
            r <==> subscriber_ids(self@).contains(id),
    {
        let i = self.find(id);
        proof {
            lemma_listed_id(self@, id, i as int);
        }
        i < self.subscribers.len()
    }

    fn find(&self, id: ClientId) -> (i: usize)
        ensures
            is_id_index(self@, id, i as int),
            i as int == id_index(self@, id),
    {
        let mut i: usize = 0;
        while i < self.subscribers.len() && self.subscribers[i].id != id
            invariant
                i <= self.subscribers@.len(),
                forall|k: int| 0 <= k < i ==> (#[trigger] self.subscribers@[k]).id != id,
            decreases self.subscribers@.len() - i,
        {
            i = i + 1;
        }
        proof {
            lemma_id_index(self@, id, i as int);
        }
        i
    }

    /// Enters a subscriber. A subscriber with an identifier that is
    /// already in the table takes the place of the old entry.
    pub fn subscribe(&mut self, subscriber: Subscriber)
        requires
            old(self).wf(),
        ensures
            final(self).wf(),
            final(self)@ == subscribed(old(self)@, subscriber),
    {
        let i = self.find(subscriber.id);
        let ghost before = self.subscribers@;
        if i < self.subscribers.len() {
            self.subscribers[i] = subscriber;
            proof {
                let after = self.subscribers@;
                assert forall|a: int, b: int| 0 <= a < b < after.len() implies after[a].id
                    != after[b].id by {
                    assert(before[a].id != before[b].id);
                }
            }
        } else {
            self.subscribers.push(subscriber);
            proof {
                let after = self.subscribers@;
                assert forall|a: int, b: int| 0 <= a < b < after.len() implies after[a].id
                    != after[b].id by {
                    if b < before.len() {
                        assert(before[a].id != before[b].id);
                    } else {
                        assert(before[a].id != subscriber.id);
                    }
                }
            }
        }
    }

    /// Removes the subscriber with identifier `id` and tells whether there
    /// was one.
    pub fn unsubscribe(&mut self, id: ClientId) -> (found: bool)
        requires
            old(self).wf(),
        ensures
            final(self).wf(),
            final(self)@ == unsubscribed(old(self)@, id),
            found <==> subscriber_ids(old(self)@).contains(id),
            !subscriber_ids(final(self)@).contains(id),
    {
        let i = self.find(id);
        let ghost before = self.subscribers@;
        proof {
            lemma_listed_id(before, id, i as int);
        }
        if i < self.subscribers.len() {
            self.subscribers.remove(i);
            proof {
                let after = self.subscribers@;
                assert forall|a: int, b: int| 0 <= a < b < after.len() implies after[a].id
                    != after[b].id by {
                    let a0 = if a >= i {
                        a + 1
                    } else {
                        a
                    };
                    let b0 = if b >= i {
                        b + 1
                    } else {
                        b
                    };
                    assert(before[a0].id != before[b0].id);
                }
                assert(is_id_index(after, id, after.len() as int)) by {
                    assert forall|k: int| 0 <= k < after.len() implies (#[trigger] after[k]).id
                        != id by {
                        let k0 = if k >= i {
                            k + 1
                        } else {
                            k
                        };
                        assert(after[k] == before[k0]);
                        if k0 < i {
                            assert(before[k0].id != before[i as int].id);
                        } else {
                            assert(before[i as int].id != before[k0].id);
                        }
                    }
                }
                lemma_listed_id(after, id, after.len() as int);
            }
            true
        } else {
            false
        }
    }

    /// Does what a client asks: enters or removes a subscriber.
    pub fn handle_client(&mut self, msg: ClientApi)
        requires
            old(self).wf(),
        ensures
            final(self).wf(),
            final(self)@ == (match msg {
                ClientApi::Subscribe { id, sensor_readings, node_status } => subscribed(
                    old(self)@,
                    Subscriber { id, sensor_readings, node_status },
                ),
                ClientApi::Unsubscribe { id } => unsubscribed(old(self)@, id),
            }),
    {
        match msg {
            ClientApi::Subscribe { id, sensor_readings, node_status } => {
                self.subscribe(Subscriber { id, sensor_readings, node_status });
            },
            ClientApi::Unsubscribe { id } => {
                self.unsubscribe(id);
            },
        }
    }

    /// Offers `reading` to the readings sink of every subscriber, once
    /// each, in the order of the table. A sink that does not take it
    /// keeps no other from being served.
    pub fn publish_reading(&self, reading: NodeSensorReading) -> (attempts: Vec<(ClientId, bool)>)
        ensures
            one_attempt_each(attempts@, self@),
    {
        let mut attempts: Vec<(ClientId, bool)> = Vec::new();
        let mut i: usize = 0;
        while i < self.subscribers.len()
            invariant
                i <= self.subscribers@.len(),
                attempts@.len() == i,
                forall|k: int| 0 <= k < i ==> (#[trigger] attempts@[k]).0 == self.subscribers@[k].id,
            decreases self.subscribers@.len() - i,
        {
            let accepted = send_to(&self.subscribers[i].sensor_readings, reading);
            attempts.push((self.subscribers[i].id, accepted));
            i = i + 1;
        }
        attempts
    }

    /// Offers `status` to the status sink of every subscriber, once each,
    /// in the order of the table. A sink that does not take it keeps no
    /// other from being served.
    pub fn publish_status(&self, status: NodeStatus) -> (attempts: Vec<(ClientId, bool)>)
        ensures
            one_attempt_each(attempts@, self@),
    {
        let mut attempts: Vec<(ClientId, bool)> = Vec::new();
        let mut i: usize = 0;
        while i < self.subscribers.len()
            invariant
                i <= self.subscribers@.len(),
                attempts@.len() == i,
                forall|k: int| 0 <= k < i ==> (#[trigger] attempts@[k]).0 == self.subscribers@[k].id,
            decreases self.subscribers@.len() - i,
        {
            let accepted = send_to(&self.subscribers[i].node_status, status.clone());
            attempts.push((self.subscribers[i].id, accepted));
            i = i + 1;
        }
        attempts
    }

    /// Takes one event: a registration or a termination is offered to
    /// every subscriber as a node status; a new stream is handed back to
    /// be read.
    pub fn handle_event(&self, incoming: BrokerEvent) -> (out: EventOutcome)
        ensures
            incoming is SensorReportHandleCreate <==> out is Spawn,
            out matches EventOutcome::Delivered(attempts) ==> one_attempt_each(attempts@, self@),
            out matches EventOutcome::Spawn(stream) ==> incoming
                == BrokerEvent::SensorReportHandleCreate(stream),
    {
        match incoming {
            BrokerEvent::NodeRegistration(reg) => EventOutcome::Delivered(
                self.publish_status(NodeStatus::Registration(reg)),
            ),
            BrokerEvent::NodeTermination(end) => EventOutcome::Delivered(
                self.publish_status(NodeStatus::Termination(end)),
            ),
            BrokerEvent::SensorReportHandleCreate(stream) => EventOutcome::Spawn(stream),
        }
    }

    /// Passes one event of a session's stream on: a reading to the data
    /// queue `sender`, a socket error or a timeout as a termination to
    /// `node_state`. Every event but a reading ends the stream.
    pub fn sensor_stream_process(
        msg: NodeEvent,
        sender: &UnboundedSender<NodeSensorReading>,
        node_state: &UnboundedSender<BrokerEvent>,
    ) -> (step: StreamStep)
        ensures
            step.verdict == stream_verdict(msg),
            step.done == !(msg is SensorReading),
            msg is SetupError ==> step.accepted,
    {
        match msg {
            NodeEvent::SensorReading(node) => {
                let accepted = send_to(sender, node);
                StreamStep { verdict: StreamVerdict::Reading(node), accepted, done: false }
            },
            NodeEvent::SetupError => StreamStep {
                verdict: StreamVerdict::Silent,
                accepted: true,
                done: true,
            },
            NodeEvent::SocketError(addr) => {
                let accepted = send_to(
                    node_state,
                    BrokerEvent::NodeTermination((addr, ErrorState::SocketError)),
                );
                StreamStep {
                    verdict: StreamVerdict::Terminated(addr, ErrorState::SocketError),
                    accepted,
                    done: true,
                }
            },
            NodeEvent::NodeTimeout(addr) => {
                let accepted = send_to(
                    node_state,
                    BrokerEvent::NodeTermination((addr, ErrorState::Timeout)),
                );
                StreamStep {
                    verdict: StreamVerdict::Terminated(addr, ErrorState::Timeout),
                    accepted,
                    done: true,
                }
            },
        }
    }
}

/// Fan-out is total and single: where every subscriber got one attempt, a
/// subscribed client is named by exactly one attempt.
pub proof fn lemma_one_attempt_per_subscriber(
    attempts: Seq<(ClientId, bool)>,
    subscribers: Seq<Subscriber>,
    i: int,
)
    requires
        distinct_ids(subscribers),
        one_attempt_each(attempts, subscribers),
        0 <= i < subscribers.len(),
    ensures
        attempts[i].0 == subscribers[i].id,
        forall|j: int| 0 <= j < attempts.len() && j != i ==> (#[trigger] attempts[j]).0 != subscribers[i].id,
{
    assert forall|j: int| 0 <= j < attempts.len() && j != i implies (#[trigger] attempts[j]).0
        != subscribers[i].id by {
        assert(attempts[j].0 == subscribers[j].id);
        if j < i {
            assert(subscribers[j].id != subscribers[i].id);
        } else {
            assert(subscribers[i].id != subscribers[j].id);
        }
    }
}

} // verus!
