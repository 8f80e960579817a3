use plant_minder::addr::{Ipv6Addr, SocketAddrV6};
use plant_minder::broker::{Broker, BrokerEvent, EventOutcome, Subscriber};
use plant_minder::client::{Ipv6Net, OtClient, OtClientError};
use plant_minder::coap::{handshake_reply, registration_request, server_reply, HandshakeReply, ServerReply};
use plant_minder::monitor::OtMonitor;
use plant_minder::node::{ErrorState, NodeEvent, NodeHandler, NodeStatus, SessionInput};
use plant_minder::router::{
    announce, EventRouter, EventRouterError, GatewayConfig, DEFAULT_POLL_INTERVAL,
};
use plant_minder::sensor::{Float32, SensorReading, Soil};
use plant_minder::addr::SourceAddr;
use std::cell::RefCell;
use std::rc::Rc;
use tokio::sync::mpsc::unbounded_channel;

#[derive(Clone, Default)]
struct FakeClient(Rc<RefCell<Vec<(u16, Ipv6Addr)>>>);

fn addr(last: u16) -> Ipv6Addr {
    Ipv6Addr::from_segments([0xfd00, 0, 0, 0, 0, 0, 0, last])
}

impl OtClient for FakeClient {
    fn get_child_ips(&self) -> Result<Vec<(u16, Ipv6Addr)>, OtClientError> {
        Ok(self.0.borrow().clone())
    }

    fn get_omr_prefix(&self) -> Result<Ipv6Net, OtClientError> {
        Ipv6Net::new(addr(0), 64).ok_or(OtClientError::AddrParse)
    }

    fn get_omr_ip(&self) -> Result<Ipv6Addr, OtClientError> {
        Ok(addr(0x99))
    }

    fn get_ip_addrs(&self) -> Result<Vec<Ipv6Addr>, OtClientError> {
        Ok(vec![addr(0x99)])
    }
}

fn router(client: &FakeClient, size: u16) -> EventRouter<FakeClient> {
    EventRouter::new(OtMonitor::with_pool(client.clone(), 1213, size).unwrap(), DEFAULT_POLL_INTERVAL)
}

/// The node's side of the handshake, as the firmware answers it.
fn node_answer(request: &[u8], eui: [u8; 6], name: &[u8]) -> Option<([u8; 6], Vec<u8>)> {
    match server_reply(request, &eui, name) {
        ServerReply::Register { response, .. } => match handshake_reply(&response) {
            HandshakeReply::Registered(eui, name) => Some((eui, name)),
            _ => None,
        },
        ServerReply::Ignore => None,
    }
}

#[test]
fn single_node_happy_path() {
    let client = FakeClient::default();
    client.0.borrow_mut().push((0xc001, addr(1)));
    let mut router = router(&client, 100);
    assert_eq!(router.poll_interval(), 15);

    let children = router.begin_poll().unwrap();
    assert_eq!(children, vec![(0xc001, addr(1))]);

    let plan = router.plan_registration(children[0]).unwrap();
    assert_eq!(plan.port, 1213);
    assert_eq!(plan.bind, SocketAddrV6 { ip: addr(0x99), port: 1213 });
    assert_eq!(plan.target, SocketAddrV6 { ip: addr(1), port: 1212 });
    assert_eq!(plan.request, registration_request(1213));
    assert!(!router.monitor().is_port_free(1213));

    let answer = node_answer(&plan.request, [0xaa; 6], b"fern");
    let node = router.complete_registration(&plan, answer).unwrap();
    assert_eq!(node.addr, SocketAddrV6 { ip: addr(0x99), port: 1213 });
    assert_eq!((node.eui, node.ip, node.name.as_str()), ([0xaa; 6], addr(1), "fern"));
    let registered = router.monitor().node_at_port(1213).unwrap();
    assert_eq!(
        (registered.rloc, registered.ip, registered.eui, registered.name.as_str()),
        (0xc001, addr(1), [0xaa; 6], "fern")
    );

    // the session is bound to gateway and port; the broker hears of the node first
    let mut session = NodeHandler::new(node.addr);
    let (events_tx, events_rx) = unbounded_channel();
    let announced = announce(node, events_rx);
    assert_eq!(announced.len(), 2);
    assert!(matches!(&announced[0], BrokerEvent::NodeRegistration(reg)
        if *reg == ([0xaa; 6], addr(1), "fern".to_string())));
    assert!(matches!(&announced[1], BrokerEvent::SensorReportHandleCreate(_)));

    let mut broker = Broker::new();
    let (readings_tx, mut readings_rx) = unbounded_channel();
    let (status_tx, mut status_rx) = unbounded_channel();
    broker.subscribe(Subscriber { id: 0, sensor_readings: readings_tx, node_status: status_tx });
    let (data_tx, mut data_rx) = unbounded_channel();
    let (state_tx, _state_rx) = unbounded_channel();
    let mut stream = None;
    for event in announced {
        match broker.handle_event(event) {
            EventOutcome::Delivered(attempts) => assert_eq!(attempts, vec![(0, true)]),
            EventOutcome::Spawn(s) => stream = Some(s),
        }
    }
    match status_rx.try_recv().unwrap() {
        NodeStatus::Registration(reg) => assert_eq!(reg, ([0xaa; 6], addr(1), "fern".to_string())),
        other => panic!("unexpected {:?}", other),
    }
    assert!(readings_rx.try_recv().is_err());

    // the node sends a reading
    let step = session.step(SessionInput::Datagram {
        from: SourceAddr::V6(SocketAddrV6 { ip: addr(1), port: 50000 }),
        reading: Some(SensorReading {
            soil: Soil { moisture: 820, temp: Float32 { bits: 71.5f32.to_bits() } },
            light: None,
            gas: None,
            ts: 0,
        }),
        now: 1_700_000_000,
    });
    events_tx.send(step.emit.unwrap()).unwrap();
    let event = stream.as_mut().unwrap().try_recv().unwrap();
    let routed = Broker::sensor_stream_process(event, &data_tx, &state_tx);
    assert!(!routed.done);
    broker.publish_reading(data_rx.try_recv().unwrap());
    let got = readings_rx.try_recv().unwrap();
    assert_eq!(got.data.soil.moisture, 820);
    assert_eq!(f32::from_bits(got.data.soil.temp.bits), 71.5);
    assert_eq!(got.addr.ip, addr(1));
    assert!(got.data.ts > 0);

    // nothing is new on the next poll, nothing lost
    assert!(router.begin_poll().unwrap().is_empty());
    assert!(router.end_poll().unwrap().is_empty());
}

#[test]
fn port_exhaustion_registers_two_of_three() {
    let client = FakeClient::default();
    client.0.borrow_mut().extend([(1, addr(1)), (2, addr(2)), (3, addr(3))]);
    let mut router = router(&client, 2);
    let children = router.begin_poll().unwrap();
    assert_eq!(children.len(), 3);
    let mut registered = 0;
    for child in children {
        match router.plan_registration(child) {
            Ok(plan) => {
                let answer = node_answer(&plan.request, [child.0 as u8; 6], b"p");
                assert!(router.complete_registration(&plan, answer).is_some());
                registered += 1;
            }
            Err(EventRouterError::OtMonError(_)) => {
                assert_eq!(child, (3, addr(3)));
                assert_eq!(router.monitor().node_count(), 2);
            }
            Err(_) => panic!("unexpected error"),
        }
    }
    assert_eq!(registered, 2);
    assert_eq!(router.monitor().node_count(), 2);
    assert!(router.monitor().node_at_port(1213).is_some());
    assert!(router.monitor().node_at_port(1214).is_some());
    // the third child is still new on the next poll
    assert_eq!(router.begin_poll().unwrap(), vec![(3, addr(3))]);
}

#[test]
fn failed_handshake_returns_the_port() {
    let client = FakeClient::default();
    client.0.borrow_mut().push((1, addr(1)));
    let mut router = router(&client, 3);
    let plan = router.plan_registration((1, addr(1))).unwrap();
    assert_eq!(plan.port, 1213);
    assert!(!router.monitor().is_port_free(1213));
    assert!(router.complete_registration(&plan, None).is_none());
    assert!(router.monitor().is_port_free(1213));
    assert_eq!(router.monitor().node_count(), 0);
    // the retry on the next poll gets the same port
    let retry = router.plan_registration((1, addr(1))).unwrap();
    assert_eq!(retry.port, 1213);
}

#[test]
fn silence_timeout_frees_the_port_on_the_next_poll() {
    let client = FakeClient::default();
    client.0.borrow_mut().push((0xc001, addr(1)));
    let mut router = router(&client, 100);
    let child = router.begin_poll().unwrap()[0];
    let plan = router.plan_registration(child).unwrap();
    let answer = node_answer(&plan.request, [0xaa; 6], b"fern");
    let node = router.complete_registration(&plan, answer).unwrap();
    let mut session = NodeHandler::new(node.addr);
    session.step(SessionInput::Datagram {
        from: SourceAddr::V6(SocketAddrV6 { ip: addr(1), port: 50000 }),
        reading: None,
        now: 1,
    });

    // the node stops sending: the session ends with a timeout
    let end = session.step(SessionInput::Silence);
    let timeout = end.emit.unwrap();
    assert_eq!(timeout, NodeEvent::NodeTimeout(SocketAddrV6 { ip: addr(1), port: 50000 }));

    let mut broker = Broker::new();
    let (readings_tx, _readings_rx) = unbounded_channel();
    let (status_tx, mut status_rx) = unbounded_channel();
    broker.subscribe(Subscriber { id: 0, sensor_readings: readings_tx, node_status: status_tx });
    let (data_tx, _data_rx) = unbounded_channel();
    let (state_tx, mut state_rx) = unbounded_channel();
    assert!(Broker::sensor_stream_process(timeout, &data_tx, &state_tx).done);
    broker.handle_event(state_rx.try_recv().unwrap());
    assert!(matches!(
        status_rx.try_recv().unwrap(),
        NodeStatus::Termination((a, ErrorState::Timeout)) if a.ip == addr(1)
    ));

    // the mesh no longer lists the node: the poll evicts it and frees its port
    client.0.borrow_mut().clear();
    assert_eq!(router.end_poll().unwrap(), vec![(0xc001, addr(1))]);
    assert!(router.monitor().is_port_free(1213));
}

#[test]
fn rebind_on_reset() {
    let client = FakeClient::default();
    client.0.borrow_mut().push((0xc001, addr(1)));
    let mut router = router(&client, 100);
    let child = router.begin_poll().unwrap()[0];
    let plan = router.plan_registration(child).unwrap();
    let answer = node_answer(&plan.request, [0xaa; 6], b"fern");
    router.complete_registration(&plan, answer).unwrap();
    router.end_poll().unwrap();

    // the node reboots and re-attaches elsewhere
    *client.0.borrow_mut() = vec![(0xc002, addr(2))];
    let children = router.begin_poll().unwrap();
    assert_eq!(children, vec![(0xc002, addr(2))]);
    let plan = router.plan_registration(children[0]).unwrap();
    assert_eq!(plan.port, 1214);
    let answer = node_answer(&plan.request, [0xaa; 6], b"fern");
    let node = router.complete_registration(&plan, answer).unwrap();
    assert_eq!((node.eui, node.ip, node.name.as_str()), ([0xaa; 6], addr(2), "fern"));
    assert_eq!(router.end_poll().unwrap(), vec![(0xc001, addr(1))]);
    assert!(router.monitor().is_port_free(1213));
    assert!(!router.monitor().is_port_free(1214));
    assert_eq!(router.monitor().node_count(), 1);

    let mut session = NodeHandler::new(node.addr);
    let step = session.step(SessionInput::Datagram {
        from: SourceAddr::V6(SocketAddrV6 { ip: addr(2), port: 50000 }),
        reading: Some(SensorReading::default()),
        now: 9,
    });
    match step.emit.unwrap() {
        NodeEvent::SensorReading(r) => assert_eq!(r.addr.ip, addr(2)),
        other => panic!("unexpected {:?}", other),
    }
}

#[test]
fn registration_on_a_port_that_was_handed_back_is_refused() {
    let client = FakeClient::default();
    let mut router = router(&client, 3);
    let plan = router.plan_registration((1, addr(1))).unwrap();
    assert!(router.complete_registration(&plan, None).is_none());
    // the plan is stale now: its port is free again
    assert!(router.complete_registration(&plan, Some(([1; 6], b"x".to_vec()))).is_none());
    assert_eq!(router.monitor().node_count(), 0);
    assert!(router.monitor().is_port_free(plan.port));
}

#[test]
fn child_that_is_listed_twice_is_registered_once() {
    let client = FakeClient::default();
    client.0.borrow_mut().extend([(1, addr(1)), (1, addr(1))]);
    let mut router = router(&client, 5);
    let children = router.begin_poll().unwrap();
    assert_eq!(children.len(), 2);
    let plan = router.plan_registration(children[0]).unwrap();
    let answer = node_answer(&plan.request, [7; 6], b"p");
    assert!(router.complete_registration(&plan, answer).is_some());
    assert!(matches!(router.plan_registration(children[1]), Err(EventRouterError::OtMonError(_))));
    assert_eq!(router.monitor().node_count(), 1);
    assert!(router.monitor().is_port_free(1214));
}

#[test]
fn two_plans_for_one_child_register_it_once() {
    let client = FakeClient::default();
    let mut router = router(&client, 5);
    let first = router.plan_registration((1, addr(1))).unwrap();
    let second = router.plan_registration((1, addr(1))).unwrap();
    assert_eq!((first.port, second.port), (1213, 1214));
    assert!(router.complete_registration(&first, Some(([7; 6], b"p".to_vec()))).is_some());
    assert!(router.complete_registration(&second, Some(([7; 6], b"p".to_vec()))).is_none());
    assert_eq!(router.monitor().node_count(), 1);
    assert!(router.monitor().is_port_free(1214));
    assert!(!router.monitor().is_port_free(1213));
}

#[test]
fn session_that_ends_on_an_error_releases_its_port_at_once() {
    let client = FakeClient::default();
    client.0.borrow_mut().push((1, addr(1)));
    let mut router = router(&client, 5);
    let plan = router.plan_registration((1, addr(1))).unwrap();
    assert!(router.complete_registration(&plan, Some(([7; 6], b"p".to_vec()))).is_some());

    // a timeout leaves the node to the poll
    assert!(!router.session_ended(plan.port, ErrorState::Timeout));
    assert_eq!(router.monitor().node_count(), 1);
    assert!(!router.monitor().is_port_free(plan.port));
    assert!(router.begin_poll().unwrap().is_empty());

    // a socket error evicts the node: the next poll acquires it anew
    assert!(router.session_ended(plan.port, ErrorState::SocketError));
    assert_eq!(router.monitor().node_count(), 0);
    assert!(router.monitor().is_port_free(plan.port));
    assert_eq!(router.begin_poll().unwrap(), vec![(1, addr(1))]);
    assert_eq!(router.plan_registration((1, addr(1))).unwrap().port, plan.port);

    // a port from outside the pool is not taken into it
    assert!(router.session_ended(4000, ErrorState::SetupError));
    assert!(!router.monitor().is_port_free(4000));
    let again = router.plan_registration((1, addr(1))).unwrap();
    assert!(router.complete_registration(&again, Some(([7; 6], b"p".to_vec()))).is_some());
    assert!(router.session_ended(again.port, ErrorState::Other));
    assert!(router.monitor().is_port_free(again.port));
}

#[test]
fn gateway_configuration() {
    let config = GatewayConfig::default();
    assert_eq!(
        config,
        GatewayConfig {
            poll_interval: 15,
            broker_tick_rate_ms: 500,
            port_pool_base: 1213,
            port_pool_size: 100,
            session_silence_timeout_s: 100,
        }
    );
    let router = EventRouter::with_config(FakeClient::default(), &config).unwrap();
    assert_eq!(router.poll_interval(), 15);
    assert!(router.monitor().is_port_free(1213) && router.monitor().is_port_free(1312));
    assert!(!router.monitor().is_port_free(1313));

    let small = GatewayConfig { poll_interval: 3, port_pool_base: 2000, port_pool_size: 1, ..config };
    let mut router = EventRouter::with_config(FakeClient::default(), &small).unwrap();
    assert_eq!(router.poll_interval(), 3);
    assert_eq!(router.plan_registration((1, addr(1))).unwrap().port, 2000);
    assert!(matches!(router.plan_registration((2, addr(2))), Err(EventRouterError::OtMonError(_))));

    let bad = GatewayConfig { port_pool_base: 65000, port_pool_size: 1000, ..config };
    assert!(matches!(
        EventRouter::with_config(FakeClient::default(), &bad),
        Err(EventRouterError::OtMonError(_))
    ));
}
