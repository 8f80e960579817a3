use plant_minder::addr::{Ipv6Addr, SocketAddrV6};
use plant_minder::broker::{
    Broker, BrokerError, BrokerEvent, BrokerHandle, ClientApi, ClientSubscribe, ClientUnsubscribe,
    EventOutcome, StreamStep, StreamVerdict, Subscriber,
};
use plant_minder::node::{ErrorState, NodeEvent, NodeSensorReading, NodeStatus};
use plant_minder::sensor::{Float32, SensorReading, Soil};
use tokio::sync::mpsc::{unbounded_channel, UnboundedReceiver};

fn source(last: u16) -> SocketAddrV6 {
    SocketAddrV6 { ip: Ipv6Addr::from_segments([0xfd00, 0, 0, 0, 0, 0, 0, last]), port: 40000 }
}

fn reading(moisture: u16) -> NodeSensorReading {
    NodeSensorReading {
        addr: source(1),
        data: SensorReading {
            soil: Soil { moisture, temp: Float32 { bits: 71.5f32.to_bits() } },
            light: None,
            gas: None,
            ts: 1_700_000_000,
        },
    }
}

fn subscriber(id: u32) -> (Subscriber, UnboundedReceiver<NodeSensorReading>, UnboundedReceiver<NodeStatus>) {
    let (readings_tx, readings_rx) = unbounded_channel();
    let (status_tx, status_rx) = unbounded_channel();
    (Subscriber { id, sensor_readings: readings_tx, node_status: status_tx }, readings_rx, status_rx)
}

#[test]
fn two_subscribers() {
    let mut broker = Broker::new();
    let (first, mut first_readings, _first_status) = subscriber(0);
    let (second, mut second_readings, _second_status) = subscriber(1);
    broker.subscribe(first);
    broker.subscribe(second);
    assert_eq!(broker.subscriber_count(), 2);

    assert_eq!(broker.publish_reading(reading(820)), vec![(0, true), (1, true)]);
    assert_eq!(first_readings.try_recv().unwrap(), reading(820));
    assert!(first_readings.try_recv().is_err());
    assert_eq!(second_readings.try_recv().unwrap(), reading(820));
    assert!(second_readings.try_recv().is_err());

    assert!(broker.unsubscribe(0));
    assert!(!broker.is_subscribed(0));
    assert!(broker.is_subscribed(1));
    assert_eq!(broker.publish_reading(reading(700)), vec![(1, true)]);
    assert!(first_readings.try_recv().is_err());
    assert_eq!(second_readings.try_recv().unwrap(), reading(700));
    assert!(second_readings.try_recv().is_err());
}

#[test]
fn failing_sink_keeps_no_other_from_being_served() {
    let mut broker = Broker::new();
    let (first, first_readings, first_status) = subscriber(10);
    let (second, mut second_readings, mut second_status) = subscriber(20);
    broker.subscribe(first);
    broker.subscribe(second);
    drop(first_readings);
    drop(first_status);

    assert_eq!(broker.publish_reading(reading(1)), vec![(10, false), (20, true)]);
    assert_eq!(second_readings.try_recv().unwrap(), reading(1));
    let attempts = broker.publish_status(NodeStatus::Termination((source(1), ErrorState::Timeout)));
    assert_eq!(attempts, vec![(10, false), (20, true)]);
    assert!(matches!(
        second_status.try_recv().unwrap(),
        NodeStatus::Termination((addr, ErrorState::Timeout)) if addr == source(1)
    ));
    // the subscriber whose sinks failed is still in the table
    assert_eq!(broker.subscriber_count(), 2);
}

#[test]
fn termination_reaches_every_subscriber_once() {
    let mut broker = Broker::new();
    let mut sinks = Vec::new();
    for id in 0..3 {
        let (s, readings, status) = subscriber(id);
        broker.subscribe(s);
        sinks.push((readings, status));
    }
    match broker.handle_event(BrokerEvent::NodeTermination((source(5), ErrorState::SocketError))) {
        EventOutcome::Delivered(attempts) => assert_eq!(attempts, vec![(0, true), (1, true), (2, true)]),
        EventOutcome::Spawn(_) => panic!("no stream was announced"),
    }
    for (readings, status) in sinks.iter_mut() {
        assert!(matches!(
            status.try_recv().unwrap(),
            NodeStatus::Termination((addr, ErrorState::SocketError)) if addr == source(5)
        ));
        assert!(status.try_recv().is_err());
        assert!(readings.try_recv().is_err());
    }
}

#[test]
fn registration_reaches_every_subscriber() {
    let mut broker = Broker::new();
    let (first, _r1, mut s1) = subscriber(1);
    let (second, _r2, mut s2) = subscriber(2);
    broker.subscribe(first);
    broker.subscribe(second);
    let reg = ([0xaa; 6], source(1).ip, "fern".to_string());
    assert!(matches!(
        broker.handle_event(BrokerEvent::NodeRegistration(reg.clone())),
        EventOutcome::Delivered(_)
    ));
    for status in [&mut s1, &mut s2] {
        match status.try_recv().unwrap() {
            NodeStatus::Registration(got) => assert_eq!(got, reg),
            other => panic!("unexpected {:?}", other),
        }
    }
}

#[test]
fn new_stream_is_handed_back_to_be_read() {
    let broker = Broker::new();
    let (tx, rx) = unbounded_channel();
    tx.send(NodeEvent::SetupError).unwrap();
    match broker.handle_event(BrokerEvent::SensorReportHandleCreate(rx)) {
        EventOutcome::Spawn(mut stream) => assert_eq!(stream.try_recv().unwrap(), NodeEvent::SetupError),
        EventOutcome::Delivered(_) => panic!("a stream is no status"),
    }
}

#[test]
fn subscribing_again_replaces_the_entry() {
    let mut broker = Broker::new();
    let (old, mut old_readings, _old_status) = subscriber(7);
    let (other, mut other_readings, _other_status) = subscriber(8);
    let (new, mut new_readings, _new_status) = subscriber(7);
    broker.subscribe(old);
    broker.subscribe(other);
    broker.handle_client(ClientApi::Subscribe {
        id: new.id,
        sensor_readings: new.sensor_readings,
        node_status: new.node_status,
    });
    assert_eq!(broker.subscriber_count(), 2);
    assert_eq!(broker.publish_reading(reading(3)), vec![(7, true), (8, true)]);
    assert!(old_readings.try_recv().is_err());
    assert_eq!(new_readings.try_recv().unwrap(), reading(3));
    assert_eq!(other_readings.try_recv().unwrap(), reading(3));

    broker.handle_client(ClientApi::Unsubscribe { id: 8 });
    assert_eq!(broker.publish_reading(reading(4)), vec![(7, true)]);
    assert!(!broker.unsubscribe(99));
    assert_eq!(broker.subscriber_count(), 1);
}

#[test]
fn broker_without_subscribers_attempts_nothing() {
    let broker = Broker::new();
    assert!(broker.publish_reading(reading(1)).is_empty());
    assert!(broker.publish_status(NodeStatus::Termination((source(1), ErrorState::Other))).is_empty());
}

#[test]
fn stream_events_are_passed_on_by_kind() {
    let (data_tx, mut data_rx) = unbounded_channel();
    let (state_tx, mut state_rx) = unbounded_channel();

    let step = Broker::sensor_stream_process(NodeEvent::SensorReading(reading(9)), &data_tx, &state_tx);
    assert_eq!(step, StreamStep { verdict: StreamVerdict::Reading(reading(9)), accepted: true, done: false });
    assert_eq!(data_rx.try_recv().unwrap(), reading(9));
    assert!(state_rx.try_recv().is_err());

    let step = Broker::sensor_stream_process(NodeEvent::NodeTimeout(source(2)), &data_tx, &state_tx);
    assert_eq!(
        step,
        StreamStep { verdict: StreamVerdict::Terminated(source(2), ErrorState::Timeout), accepted: true, done: true }
    );
    assert!(matches!(
        state_rx.try_recv().unwrap(),
        BrokerEvent::NodeTermination((addr, ErrorState::Timeout)) if addr == source(2)
    ));
    assert!(state_rx.try_recv().is_err());

    let step = Broker::sensor_stream_process(NodeEvent::SocketError(source(3)), &data_tx, &state_tx);
    assert_eq!(step.verdict, StreamVerdict::Terminated(source(3), ErrorState::SocketError));
    assert!(step.done);
    assert!(matches!(
        state_rx.try_recv().unwrap(),
        BrokerEvent::NodeTermination((addr, ErrorState::SocketError)) if addr == source(3)
    ));

    let step = Broker::sensor_stream_process(NodeEvent::SetupError, &data_tx, &state_tx);
    assert_eq!(step, StreamStep { verdict: StreamVerdict::Silent, accepted: true, done: true });
    assert!(state_rx.try_recv().is_err());
    assert!(data_rx.try_recv().is_err());

    drop(data_rx);
    let step = Broker::sensor_stream_process(NodeEvent::SensorReading(reading(9)), &data_tx, &state_tx);
    assert!(!step.accepted);
    assert!(!step.done);
}

#[test]
fn handle_passes_requests_to_the_broker() {
    let (tx, mut rx) = unbounded_channel();
    let handle = BrokerHandle(tx);
    let (s, _readings, _status) = subscriber(3);
    assert!(handle
        .subscribe(ClientSubscribe { id: s.id, sensor_readings: s.sensor_readings, node_status: s.node_status })
        .is_ok());
    assert!(matches!(rx.try_recv().unwrap(), ClientApi::Subscribe { id: 3, .. }));
    assert!(handle.unsubscribe(ClientUnsubscribe { id: 3 }).is_ok());
    assert!(matches!(rx.try_recv().unwrap(), ClientApi::Unsubscribe { id: 3 }));
    drop(rx);
    assert!(matches!(handle.unsubscribe(ClientUnsubscribe { id: 3 }), Err(BrokerError::ActorError)));
    let (s, _readings, _status) = subscriber(4);
    assert!(matches!(
        handle.subscribe(ClientSubscribe { id: s.id, sensor_readings: s.sensor_readings, node_status: s.node_status }),
        Err(BrokerError::ActorError)
    ));
}

#[test]
fn requests_of_clients() {
    let (s, _readings, _status) = subscriber(5);
    let request = ClientApi::subscription(ClientSubscribe {
        id: s.id,
        sensor_readings: s.sensor_readings,
        node_status: s.node_status,
    });
    let status = match request {
        ClientApi::Subscribe { id, node_status, sensor_readings } => {
            assert_eq!(id, 5);
            assert!(sensor_readings.send(reading(1)).is_ok());
            node_status
        }
        other => panic!("unexpected {:?}", other),
    };
    assert!(status.send(NodeStatus::Termination((source(1), ErrorState::Other))).is_ok());
    assert!(matches!(
        ClientApi::cancellation(ClientUnsubscribe { id: 6 }),
        ClientApi::Unsubscribe { id: 6 }
    ));
    assert!(BrokerHandle::handed_over(true).is_ok());
    assert!(matches!(BrokerHandle::handed_over(false), Err(BrokerError::ActorError)));
}
