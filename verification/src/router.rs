//! The event router: one poll of the mesh after the other, it finds new
//! nodes, reserves a port for each, prepares and concludes the handshake,
//! and announces the node to the broker.

use crate::addr::{Ipv6Addr, SocketAddrV6};
use crate::broker::BrokerEvent;
use crate::client::OtClient;
use crate::coap::{
    observe_get_bytes, observe_segment, plant_name, registration_request, registration_token,
    text_len,
};
use crate::monitor::{
    has_child, has_port, held_elsewhere, least_port, locators, missing_nodes, under_prefix,
    unregistered, Child, MonitorState, OtMonitor, OtMonitorError, Registration,
};
use crate::node::{ErrorState, NodeEvent, DEFAULT_TIMEOUT};
use crate::ports::NodeRcvPort;
use crate::sensor::BOUND_PORT;
use crate::Eui;
use tokio::sync::mpsc::UnboundedReceiver;
use vstd::prelude::*;
use vstd::utf8::encode_utf8;

verus! {

/// Seconds between two polls of the mesh unless told otherwise.
pub const DEFAULT_POLL_INTERVAL: u64 = 15;

/// Milliseconds between two ticks of the broker unless told otherwise.
pub const DEFAULT_TICK_RATE_MILLIS: u64 = 500;

/// First port of the pool unless told otherwise.
pub const DEFAULT_PORT_POOL_BASE: u16 = 1213;

/// Number of ports of the pool unless told otherwise.
pub const DEFAULT_PORT_POOL_SIZE: u16 = 100;

/// What the gateway is run with.
#[derive(Clone, Copy, Debug, PartialEq, Eq, Structural)]
pub struct GatewayConfig {
    /// Seconds between two polls of the mesh.
    pub poll_interval: u64,
    /// Milliseconds between two ticks of the broker.
    pub broker_tick_rate_ms: u64,
    /// First port of the pool.
    pub port_pool_base: u16,
    /// Number of ports of the pool.
    pub port_pool_size: u16,
    /// Seconds of silence after which a session ends.
    pub session_silence_timeout_s: u64,
}

impl Default for GatewayConfig {
    fn default() -> (config: GatewayConfig)
        ensures
            config == (GatewayConfig {
                poll_interval: 15,
                broker_tick_rate_ms: 500,
                port_pool_base: 1213,
                port_pool_size: 100,
                session_silence_timeout_s: 100,
            }),
    {
        GatewayConfig {
            poll_interval: DEFAULT_POLL_INTERVAL,
            broker_tick_rate_ms: DEFAULT_TICK_RATE_MILLIS,
            port_pool_base: DEFAULT_PORT_POOL_BASE,
            port_pool_size: DEFAULT_PORT_POOL_SIZE,
            session_silence_timeout_s: DEFAULT_TIMEOUT,
        }
    }
}

/// Why a step of the event router failed.
#[derive(Debug)]
pub enum EventRouterError {
    /// A socket of the handshake failed; the text says how.
    Io(String),
    /// The mesh monitor failed.
    OtMonError(OtMonitorError),
}

/// What the handshake with one new child needs: the port reserved for the
/// child, the address to bind, the address to send to, and the request.
#[derive(Debug)]
pub struct HandshakePlan {
    pub rloc: u16,
    pub ip: Ipv6Addr,
    pub port: NodeRcvPort,
    pub bind: SocketAddrV6,
    pub target: SocketAddrV6,
    pub request: Vec<u8>,
}

/// A node that has just been registered: where its session binds, and what
/// subscribers are told of it.
#[derive(Debug)]
pub struct NewNode {
    pub addr: SocketAddrV6,
    pub eui: Eui,
    pub ip: Ipv6Addr,
    pub name: String,
}

/// Whether the end of a session for `reason` releases the session's port
/// at once: every end but a timeout does.
pub open spec fn releases_port(reason: ErrorState) -> bool {
    reason != ErrorState::Timeout
}

/// Owner of the mesh monitor and sole mutator of its state.
pub struct EventRouter<C: OtClient> {
    monitor: OtMonitor<C>,
    poll_interval: u64,
}

impl<C: OtClient> EventRouter<C> {
    /// What the monitor knows.
    pub closed spec fn view(&self) -> MonitorState {
        self.monitor@
    }

    /// The invariant of the monitor's bookkeeping.
    pub closed spec fn wf(&self) -> bool {
        self.monitor.wf()
    }

    /// Seconds between two polls.
    pub closed spec fn spec_poll_interval(&self) -> u64 {
        self.poll_interval
    }

    /// A router over `monitor` that polls every `poll_interval` seconds.
    pub fn new(monitor: OtMonitor<C>, poll_interval: u64) -> (r: Self)
        requires
            monitor.wf(),
        ensures
            r.wf(),
            r@ == monitor@,
            r.spec_poll_interval() == poll_interval,
    {
        EventRouter { monitor, poll_interval }
    }

    /// A router over `ot_client` with the pool and the poll interval that
    /// `config` names; refused where the pool does not fit the port range.
    pub fn with_config(ot_client: C, config: &GatewayConfig) -> (res: Result<
        Self,
        EventRouterError,
    >)
        ensures
            res is Err <==> config.port_pool_base + config.port_pool_size > u16::MAX,
            res matches Err(e) ==> e is OtMonError,
            res matches Ok(r) ==> {
                &&& r.wf()
                &&& r.spec_poll_interval() == config.poll_interval
                &&& r@.nodes.len() == 0
                &&& r@.base == config.port_pool_base
                &&& r@.size == config.port_pool_size
                &&& forall|p: NodeRcvPort|
                    r@.free.contains(p) <==> config.port_pool_base <= p < config.port_pool_base
                        + config.port_pool_size
            },
    {
        match OtMonitor::with_pool(ot_client, config.port_pool_base, config.port_pool_size) {
            Ok(monitor) => Ok(EventRouter { monitor, poll_interval: config.poll_interval }),
            Err(e) => Err(EventRouterError::OtMonError(e)),
        }
    }

    /// Seconds between two polls.
    pub fn poll_interval(&self) -> (secs: u64)
        ensures
            secs == self.spec_poll_interval(),
    {
        self.poll_interval
    }

    /// The monitor, to look into.
    pub fn monitor(&self) -> (m: &OtMonitor<C>)
        ensures
            m@ == self@,
            m.wf() == self.wf(),
    {
        &self.monitor
    }

    /// Starts a poll: brings the gateway's address up to date, then asks
    /// for the children that are not registered yet. A failure to refresh
    /// the address is put up with; a failure to list the children ends the
    /// poll.
    pub fn begin_poll(&mut self) -> (res: Result<Vec<Child>, EventRouterError>)
        requires
            old(self).wf(),
        ensures
            final(self).wf(),
            final(self).spec_poll_interval() == old(self).spec_poll_interval(),
            final(self)@.nodes == old(self)@.nodes,
            final(self)@.free == old(self)@.free,
            final(self)@.base == old(self)@.base,
            final(self)@.size == old(self)@.size,
            res matches Err(e) ==> e is OtMonError,
            res matches Ok(v) ==> exists|listed: Seq<Child>|
                v@ == unregistered(
                    #[trigger] under_prefix(listed, final(self)@.gateway),
                    final(self)@.nodes,
                ),
            res matches Ok(v) ==> forall|i: int|
                0 <= i < v@.len() ==> (#[trigger] v@[i]).1.spec_same_prefix(&final(self)@.gateway)
                    && !has_child(final(self)@.nodes, v@[i]),
    {
        let _ = self.monitor.refresh_gateway();
        match self.monitor.new_children() {
            Ok(children) => {
                proof {
                    let listed = choose|listed: Seq<Child>|
                        children@ == unregistered(
                            #[trigger] under_prefix(listed, self.monitor@.gateway),
                            self.monitor@.nodes,
                        );
                    assert(children@ == unregistered(
                        under_prefix(listed, final(self)@.gateway),
                        final(self)@.nodes,
                    ));
                }
                Ok(children)
            },
            Err(e) => Err(EventRouterError::OtMonError(e)),
        }
    }

    /// Prepares the handshake with `child`: reserves the least free port
    /// and builds the registration request that tells the node to stream
    /// there. Where the child is registered already or no port is free,
    /// nothing is reserved.
    pub fn plan_registration(&mut self, child: Child) -> (res: Result<
        HandshakePlan,
        EventRouterError,
    >)
        requires
            old(self).wf(),
        ensures
            final(self).wf(),
            final(self).spec_poll_interval() == old(self).spec_poll_interval(),
            res is Err <==> has_child(old(self)@.nodes, child) || old(self)@.free
                =~= Set::<NodeRcvPort>::empty(),
            res matches Err(e) ==> final(self)@ == old(self)@ && (e matches EventRouterError::OtMonError(
                OtMonitorError::PortError(m),
            ) && m@ == if has_child(old(self)@.nodes, child) {
                "Node is already registered"@
            } else {
                "No free ports available"@
            }),
            res matches Ok(plan) ==> {
                &&& final(self)@ == old(self)@.reserve()
                &&& plan.port == least_port(old(self)@.free)
                &&& old(self)@.free.contains(plan.port)
                &&& old(self)@.in_pool(plan.port)
                &&& forall|q: NodeRcvPort| old(self)@.free.contains(q) ==> plan.port <= q
                &&& !final(self)@.free.contains(plan.port)
                &&& !has_port(final(self)@.nodes, plan.port)
                &&& plan.rloc == child.0
                &&& plan.ip == child.1
                &&& plan.bind == (SocketAddrV6 { ip: old(self)@.gateway, port: plan.port })
                &&& plan.target == (SocketAddrV6 { ip: child.1, port: BOUND_PORT })
                &&& plan.request@ == observe_get_bytes(
                    registration_token(),
                    observe_segment(),
                    plan.port,
                )
            },
    {
        if self.monitor.is_registered(&child) {
            return Err(
                EventRouterError::OtMonError(
                    OtMonitorError::PortError("Node is already registered".to_owned()),
                ),
            );
        }
        let port = match self.monitor.get_free_port() {
            Ok(port) => port,
            Err(e) => {
                return Err(EventRouterError::OtMonError(e));
            },
        };
        let gateway = self.monitor.gateway_addr();
        Ok(
            HandshakePlan {
                rloc: child.0,
                ip: child.1,
                port,
                bind: SocketAddrV6 { ip: gateway, port },
                target: SocketAddrV6 { ip: child.1, port: BOUND_PORT },
                request: registration_request(port),
            },
        )
    }

    /// Concludes the handshake planned in `plan`. With the node's answer,
    /// the node is registered under the plan's port and handed back for
    /// its session and announcement. Without one, or where the plan is out
    /// of date, the port goes back to the pool.
    pub fn complete_registration(&mut self, plan: &HandshakePlan, answer: Option<(Eui, Vec<u8>)>) -> (res:
        Option<NewNode>)
        requires
            old(self).wf(),
        ensures
            final(self).wf(),
            final(self).spec_poll_interval() == old(self).spec_poll_interval(),
            res is Some <==> answer is Some && old(self)@.reserved(plan.port) && !held_elsewhere(
                old(self)@.nodes,
                plan.port,
                (plan.rloc, plan.ip),
            ),
            res matches Some(node) ==> {
                &&& final(self)@ == old(self)@.register(
                    Registration {
                        rloc: plan.rloc,
                        ip: plan.ip,
                        port: plan.port,
                        eui: answer.unwrap().0,
                        name: node.name,
                    },
                )
                &&& node.addr == plan.bind
                &&& node.eui == answer.unwrap().0
                &&& node.ip == plan.ip
                &&& encode_utf8(node.name@) == answer.unwrap().1@.subrange(
                    0,
                    text_len(answer.unwrap().1@),
                )
            },
            res is None ==> final(self)@ == old(self)@.release(plan.port),
            res is None && !has_port(old(self)@.nodes, plan.port) && old(self)@.in_pool(plan.port)
                ==> final(self)@.free.contains(plan.port),
    {
        match answer {
            Some((eui, name)) => {
                let name = plant_name(&name);
                let node = Registration {
                    rloc: plan.rloc,
                    ip: plan.ip,
                    port: plan.port,
                    eui,
                    name: name.clone(),
                };
                match self.monitor.register_node(node) {
                    Ok(()) => Some(NewNode { addr: plan.bind, eui, ip: plan.ip, name }),
                    Err(_) => {
                        self.monitor.return_port(plan.port);
                        None
                    },
                }
            },
            None => {
                self.monitor.return_port(plan.port);
                None
            },
        }
    }

    /// Takes note that the session on `port` ended. After a timeout the
    /// node stays registered until a poll finds it gone from the mesh; after
    /// any other end the node is evicted and its port released at once, so
    /// that the next poll can acquire the node anew.
    pub fn session_ended(&mut self, port: NodeRcvPort, reason: ErrorState) -> (evicted: bool)
        requires
            old(self).wf(),
        ensures
            final(self).wf(),
            final(self).spec_poll_interval() == old(self).spec_poll_interval(),
            evicted == releases_port(reason),
            final(self)@ == if releases_port(reason) {
                old(self)@.evict(port)
            } else {
                old(self)@
            },
            evicted ==> !has_port(final(self)@.nodes, port),
            evicted && old(self)@.in_pool(port) ==> final(self)@.free.contains(port),
    {
        match reason {
            ErrorState::Timeout => false,
            _ => {
                self.monitor.evict_node(&port);
                true
            },
        }
    }

    /// Ends a poll: evicts the registered nodes that the border router no
    /// longer lists among its children, returns their ports to the pool,
    /// and tells which they were.
    pub fn end_poll(&mut self) -> (res: Result<Vec<Child>, EventRouterError>)
        requires
            old(self).wf(),
        ensures
            final(self).wf(),
            final(self).spec_poll_interval() == old(self).spec_poll_interval(),
            res matches Err(e) ==> e is OtMonError && final(self)@ == old(self)@,
            res matches Ok(lost) ==> exists|listed: Seq<Child>|
                {
                    &&& final(self)@ == #[trigger] old(self)@.evict_missing(listed)
                    &&& lost@ == locators(missing_nodes(old(self)@.nodes, listed))
                },
    {
        match self.monitor.lost_children() {
            Ok(lost) => {
                proof {
                    let listed = choose|listed: Seq<Child>|
                        {
                            &&& self.monitor@ == #[trigger] old(self).monitor@.evict_missing(listed)
                            &&& lost@ == locators(missing_nodes(old(self).monitor@.nodes, listed))
                        };
                    assert(final(self)@ == old(self)@.evict_missing(listed));
                }
                Ok(lost)
            },
            Err(e) => Err(EventRouterError::OtMonError(e)),
        }
    }
}

/// What the broker is told of a new node, in this order: first that the
/// node registered, then the stream of its session's events. A subscriber
/// therefore learns of a node before any of its readings is read.
pub fn announce(node: NewNode, stream: UnboundedReceiver<NodeEvent>) -> (events: Vec<BrokerEvent>)
    ensures
        events@.len() == 2,
        events@[0] == BrokerEvent::NodeRegistration((node.eui, node.ip, node.name)),
        events@[1] == BrokerEvent::SensorReportHandleCreate(stream),
{
    let mut events: Vec<BrokerEvent> = Vec::new();
    events.push(BrokerEvent::NodeRegistration((node.eui, node.ip, node.name)));
    events.push(BrokerEvent::SensorReportHandleCreate(stream));
    events
}

} // verus!
