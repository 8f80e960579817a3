//! The mesh monitor: the authoritative set of registered nodes, the pool of
//! ports they stream to, and the gateway's own on-mesh address.

use crate::addr::Ipv6Addr;
use crate::client::{Ipv6Net, OtClient, OtClientError};
use crate::ports::{NodeRcvPort, Ports};
use crate::{Eui, Rloc};
use vstd::prelude::*;

verus! {

/// Why an operation of the mesh monitor failed.
#[derive(Debug)]
pub enum OtMonitorError {
    /// The border router could not be queried.
    OtClientError(OtClientError),
    /// The port pool refused; the text says why.
    PortError(String),
}

impl From<OtClientError> for OtMonitorError {
    fn from(e: OtClientError) -> (res: OtMonitorError) {
        OtMonitorError::OtClientError(e)
    }
}

impl vstd::std_specs::convert::FromSpecImpl<OtClientError> for OtMonitorError {
    open spec fn obeys_from_spec() -> bool {
        true
    }

    open spec fn from_spec(e: OtClientError) -> OtMonitorError {
        OtMonitorError::OtClientError(e)
    }
}

/// A node whose CoAP-observe handshake succeeded: who it is, where it is,
/// the port reserved for its readings, and the name of its plant.
#[derive(Debug)]
pub struct Registration {
    pub rloc: Rloc,
    pub ip: Ipv6Addr,
    pub port: NodeRcvPort,
    pub eui: Eui,
    pub name: String,
}

impl Clone for Registration {
    fn clone(&self) -> (res: Registration)
        ensures
            res == *self,
    {
        Registration {
            rloc: self.rloc,
            ip: self.ip,
            port: self.port,
            eui: self.eui,
            name: self.name.clone(),
        }
    }
}

/// A child of the mesh as the border router lists it.
pub type Child = (Rloc, Ipv6Addr);

/// No two of `nodes` hold the same port.
pub open spec fn distinct_ports(nodes: Seq<Registration>) -> bool {
    forall|i: int, j: int| 0 <= i < j < nodes.len() ==> nodes[i].port != nodes[j].port
}

/// No two of `nodes` have the same locator and address.
pub open spec fn distinct_locators(nodes: Seq<Registration>) -> bool {
    forall|i: int, j: int| 0 <= i < j < nodes.len() ==> locator(nodes[i]) != locator(nodes[j])
}

/// Whether a node of `nodes` under another port than `port` has the
/// locator and address of `child`.
pub open spec fn held_elsewhere(nodes: Seq<Registration>, port: NodeRcvPort, child: Child) -> bool {
    exists|i: int|
        0 <= i < nodes.len() && (#[trigger] nodes[i]).port != port && locator(nodes[i]) == child
}

/// `i` is where `nodes` holds `port`, or `nodes.len()` when no node does.
pub open spec fn is_port_index(nodes: Seq<Registration>, port: NodeRcvPort, i: int) -> bool {
    &&& 0 <= i <= nodes.len()
    &&& i < nodes.len() ==> nodes[i].port == port
    &&& forall|k: int| 0 <= k < i ==> (#[trigger] nodes[k]).port != port
}

/// Where `nodes` holds `port`, or `nodes.len()` when no node does.
pub open spec fn port_index(nodes: Seq<Registration>, port: NodeRcvPort) -> int {
    choose|i: int| is_port_index(nodes, port, i)
}

/// There is one such place.
pub proof fn lemma_port_index(nodes: Seq<Registration>, port: NodeRcvPort, i: int)
    requires
        is_port_index(nodes, port, i),
    ensures
        port_index(nodes, port) == i,
{
    let j = port_index(nodes, port);
    assert(is_port_index(nodes, port, j));
    if j < i {
        assert(nodes[j].port != port);
    } else if i < j {
        assert(nodes[i].port != port);
    }
}

/// Whether a node of `nodes` holds `port`.
pub open spec fn has_port(nodes: Seq<Registration>, port: NodeRcvPort) -> bool {
    exists|i: int| 0 <= i < nodes.len() && (#[trigger] nodes[i]).port == port
}

/// Whether a node of `nodes` has the locator and address of `child`.
pub open spec fn has_child(nodes: Seq<Registration>, child: Child) -> bool {
    exists|i: int|
        0 <= i < nodes.len() && (#[trigger] nodes[i]).rloc == child.0 && nodes[i].ip == child.1
}

/// The locator and address of a node.
pub open spec fn locator(node: Registration) -> Child {
    (node.rloc, node.ip)
}

/// The locators and addresses of `nodes`, in order.
pub open spec fn locators(nodes: Seq<Registration>) -> Seq<Child> {
    nodes.map_values(|n: Registration| locator(n))
}

/// The ports that `nodes` hold.
pub open spec fn ports_of(nodes: Seq<Registration>) -> Set<NodeRcvPort> {
    Set::new(|p: NodeRcvPort| has_port(nodes, p))
}

/// The children that lie under the routing prefix of `gateway`.
pub open spec fn under_prefix(children: Seq<Child>, gateway: Ipv6Addr) -> Seq<Child> {
    children.filter(|c: Child| c.1.spec_same_prefix(&gateway))
}

/// The children that no node of `nodes` stands for.
pub open spec fn unregistered(children: Seq<Child>, nodes: Seq<Registration>) -> Seq<Child> {
    children.filter(|c: Child| !has_child(nodes, c))
}

/// The nodes that `active` no longer lists.
pub open spec fn missing_nodes(nodes: Seq<Registration>, active: Seq<Child>) -> Seq<Registration> {
    nodes.filter(|n: Registration| !active.contains(locator(n)))
}

/// The nodes that `active` still lists.
pub open spec fn present_nodes(nodes: Seq<Registration>, active: Seq<Child>) -> Seq<Registration> {
    nodes.filter(|n: Registration| active.contains(locator(n)))
}

/// The least port of a non-empty set.
pub open spec fn least_port(free: Set<NodeRcvPort>) -> NodeRcvPort {
    choose|p: NodeRcvPort| free.contains(p) && forall|q: NodeRcvPort| free.contains(q) ==> p <= q
}

/// Whether the gateway's address must be replaced: it is still the
/// loopback address, or lies under another prefix than the advertised one.
pub open spec fn update_needed(gateway: Ipv6Addr, prefix: Ipv6Net) -> bool {
    gateway.spec_is_loopback() || !gateway.spec_same_prefix(&prefix.spec_addr())
}

/// What the monitor makes of an answer to the question for the gateway's
/// address.
pub open spec fn omr_ip_answer(answer: Result<Ipv6Addr, OtClientError>) -> Result<
    Ipv6Addr,
    OtMonitorError,
> {
    match answer {
        Ok(ip) => Ok(ip),
        Err(e) => Err(OtMonitorError::OtClientError(e)),
    }
}

/// Whether `gateway` must be replaced, given an answer to the question for
/// the advertised prefix.
pub open spec fn update_needed_answer(gateway: Ipv6Addr, answer: Result<Ipv6Net, OtClientError>) -> Result<
    bool,
    OtMonitorError,
> {
    match answer {
        Ok(prefix) => Ok(update_needed(gateway, prefix)),
        Err(e) => Err(OtMonitorError::OtClientError(e)),
    }
}

/// What the monitor knows: the registered nodes in the order of their
/// registration, the free ports, and the gateway's address.
pub ghost struct MonitorState {
    pub nodes: Seq<Registration>,
    pub free: Set<NodeRcvPort>,
    pub gateway: Ipv6Addr,
    /// First port of the pool.
    pub base: NodeRcvPort,
    /// Number of ports of the pool.
    pub size: u16,
}

impl MonitorState {
    /// Whether `port` is one of the pool's: whether it lies in the range
    /// `base .. base + size`.
    pub open spec fn in_pool(self, port: NodeRcvPort) -> bool {
        self.base <= port < self.base + self.size
    }

    /// Whether `port` is reserved: one of the pool's, and not free.
    pub open spec fn reserved(self, port: NodeRcvPort) -> bool {
        self.in_pool(port) && !self.free.contains(port)
    }

    /// Every port of the pool is either free or reserved, by at most one
    /// node; no node holds a port from outside the pool or a free one; and
    /// every child of the mesh is registered at most once.
    pub open spec fn wf(self) -> bool {
        &&& self.base + self.size <= u16::MAX
        &&& distinct_ports(self.nodes)
        &&& distinct_locators(self.nodes)
        &&& forall|p: NodeRcvPort| #[trigger] self.free.contains(p) ==> self.in_pool(p)
        &&& forall|i: int| 0 <= i < self.nodes.len() ==> self.reserved(#[trigger] self.nodes[i].port)
    }

    /// The state once an answer to the question for the gateway's address
    /// is taken: an address takes the place of the one held, an error
    /// changes nothing.
    pub open spec fn with_gateway(self, answer: Result<Ipv6Addr, OtClientError>) -> MonitorState {
        match answer {
            Ok(ip) => MonitorState { gateway: ip, ..self },
            Err(_) => self,
        }
    }

    /// The state once `node` is registered under its port: in place of the
    /// node that held the port, or else behind the others.
    pub open spec fn register(self, node: Registration) -> MonitorState {
        let i = port_index(self.nodes, node.port);
        if 0 <= i < self.nodes.len() {
            MonitorState { nodes: self.nodes.update(i, node), ..self }
        } else {
            MonitorState { nodes: self.nodes.push(node), ..self }
        }
    }

    /// The free ports once `port` is returned: with it, if it is one of
    /// the pool's; a port from outside the pool is not taken.
    pub open spec fn freed(self, port: NodeRcvPort) -> Set<NodeRcvPort> {
        if self.in_pool(port) {
            self.free.insert(port)
        } else {
            self.free
        }
    }

    /// The state once the node that holds `port`, if any, is evicted and
    /// the port returned to the pool.
    pub open spec fn evict(self, port: NodeRcvPort) -> MonitorState {
        let i = port_index(self.nodes, port);
        MonitorState {
            nodes: if 0 <= i < self.nodes.len() {
                self.nodes.remove(i)
            } else {
                self.nodes
            },
            free: self.freed(port),
            ..self
        }
    }

    /// The state once the least free port is reserved.
    pub open spec fn reserve(self) -> MonitorState {
        MonitorState { free: self.free.remove(least_port(self.free)), ..self }
    }

    /// The state once `port` is handed back: free again, unless a node
    /// holds it or it is none of the pool's.
    pub open spec fn release(self, port: NodeRcvPort) -> MonitorState {
        if has_port(self.nodes, port) {
            self
        } else {
            MonitorState { free: self.freed(port), ..self }
        }
    }

    /// The state once every node that `active` no longer lists is evicted.
    pub open spec fn evict_missing(self, active: Seq<Child>) -> MonitorState {
        MonitorState {
            nodes: present_nodes(self.nodes, active),
            free: self.free.union(ports_of(missing_nodes(self.nodes, active))),
            ..self
        }
    }
}

/// The set of registered nodes with their ports, and the gateway's address,
/// kept up to date from what the mesh client reports.
pub struct OtMonitor<C: OtClient> {
    nodes: Vec<Registration>,
    ports: Ports,
    addr: Ipv6Addr,
    ot_client: C,
}

impl<C: OtClient> OtMonitor<C> {
    /// What the monitor knows.
    pub closed spec fn view(&self) -> MonitorState {
        MonitorState {
            nodes: self.nodes@,
            free: self.ports@,
            gateway: self.addr,
            base: self.ports.base(),
            size: self.ports.size(),
        }
    }

    /// The invariant of the monitor's bookkeeping.
    pub closed spec fn wf(&self) -> bool {
        &&& self.ports.wf()
        &&& self@.wf()
    }

    /// Unique assignment: no two registered nodes share a port or a
    /// locator, and no port that a node holds is free.
    pub proof fn lemma_ports_are_unique(&self, i: int, j: int)
        requires
            self.wf(),
            0 <= i < self@.nodes.len(),
            0 <= j < self@.nodes.len(),
            i != j,
        ensures
            self@.nodes[i].port != self@.nodes[j].port,
            locator(self@.nodes[i]) != locator(self@.nodes[j]),
            self@.reserved(self@.nodes[i].port),
    {
        if i < j {
            assert(self@.nodes[i].port != self@.nodes[j].port);
            assert(locator(self@.nodes[i]) != locator(self@.nodes[j]));
        } else {
            assert(self@.nodes[j].port != self@.nodes[i].port);
            assert(locator(self@.nodes[j]) != locator(self@.nodes[i]));
        }
    }

    /// The bookkeeping of a well-formed monitor is sound.
    pub proof fn lemma_wf_state(&self)
        requires
            self.wf(),
        ensures
            self@.wf(),
    {
    }

    /// A monitor over `ot_client` with the default pool of 100 ports from
    /// 1213 and no node. Its address is the gateway's on-mesh address, or
    /// the loopback address until the border router tells one.
    pub fn new(ot_client: C) -> (m: Self)
        ensures
            m.wf(),
            m@.nodes.len() == 0,
            m@.base == 1213,
            m@.size == 100,
            forall|p: NodeRcvPort| m@.free.contains(p) <==> 1213 <= p < 1313,
    {
        let addr = match ot_client.get_omr_ip() {
            Ok(addr) => addr,
            Err(_) => Ipv6Addr::loopback(),
        };
        OtMonitor { nodes: Vec::new(), ports: Ports::range(1213, 100), addr, ot_client }
    }

    /// A monitor over `ot_client` with a pool of `size` ports from `base`.
    pub fn with_pool(ot_client: C, base: NodeRcvPort, size: u16) -> (res: Result<
        Self,
        OtMonitorError,
    >)
        ensures
            res is Err <==> base + size > u16::MAX,
            res matches Err(e) ==> e is PortError,
            res matches Ok(m) ==> {
                &&& m.wf()
                &&& m@.nodes.len() == 0
                &&& m@.base == base
                &&& m@.size == size
                &&& forall|p: NodeRcvPort| m@.free.contains(p) <==> base <= p < base + size
            },
    {
        let ports = match Ports::new(base, size) {
            Ok(ports) => ports,
            Err(e) => {
                return Err(e);
            },
        };
        let addr = match ot_client.get_omr_ip() {
            Ok(addr) => addr,
            Err(_) => Ipv6Addr::loopback(),
        };
        Ok(OtMonitor { nodes: Vec::new(), ports, addr, ot_client })
    }

    /// The gateway's address as the monitor holds it.
    pub fn gateway_addr(&self) -> (a: Ipv6Addr)
        ensures
            a == self@.gateway,
    {
        self.addr
    }

    /// How many nodes are registered.
    pub fn node_count(&self) -> (n: usize)
        ensures
            n == self@.nodes.len(),
    {
        self.nodes.len()
    }

    /// The node registered under `port`, if there is one.
    pub fn node_at_port(&self, port: NodeRcvPort) -> (res: Option<&Registration>)
        ensures
            res is Some <==> has_port(self@.nodes, port),
            res matches Some(n) ==> n.port == port && *n == self@.nodes[port_index(
                self@.nodes,
                port,
            )],
    {
        let i = self.find_port(port);
        if i < self.nodes.len() {
            Some(&self.nodes[i])
        } else {
            None
        }
    }

    /// Whether `port` is in the free set.
    pub fn is_port_free(&self, port: NodeRcvPort) -> (r: bool)
        ensures
            r == self@.free.contains(port),
    {
        self.ports.is_free(port)
    }

    /// Whether a node with this locator and address is registered.
    pub fn is_registered(&self, child: &Child) -> (r: bool)
        ensures
            r == has_child(self@.nodes, *child),
    {
        let mut i: usize = 0;
        while i < self.nodes.len()
            invariant
                i <= self.nodes@.len(),
                forall|k: int|
                    0 <= k < i ==> !((#[trigger] self.nodes@[k]).rloc == child.0 && self.nodes@[k].ip
                        == child.1),
            decreases self.nodes@.len() - i,
        {
            if self.nodes[i].rloc == child.0 && self.nodes[i].ip == child.1 {
                return true;
            }
            i = i + 1;
        }
        false
    }

    fn find_port(&self, port: NodeRcvPort) -> (i: usize)
        ensures
            is_port_index(self.nodes@, port, i as int),
            i as int == port_index(self.nodes@, port),
            i < self.nodes@.len() <==> has_port(self.nodes@, port),
    {
        let mut i: usize = 0;
        while i < self.nodes.len() && self.nodes[i].port != port
            invariant
                i <= self.nodes@.len(),
                forall|k: int| 0 <= k < i ==> (#[trigger] self.nodes@[k]).port != port,
            decreases self.nodes@.len() - i,
        {
            i = i + 1;
        }
        proof {
            lemma_port_index(self.nodes@, port, i as int);
        }
        i
    }

    /// What the monitor makes of the border router's answer to the question
    /// for the gateway's on-mesh address: the address, or the client's error
    /// as its own.
    pub fn omr_ip_from(answer: Result<Ipv6Addr, OtClientError>) -> (res: Result<
        Ipv6Addr,
        OtMonitorError,
    >)
        ensures
            res == omr_ip_answer(answer),
    {
        match answer {
            Ok(ip) => Ok(ip),
            Err(e) => Err(OtMonitorError::OtClientError(e)),
        }
    }

    /// Asks the border router for the gateway's on-mesh address.
    pub fn get_omr_ip(&self) -> (res: Result<Ipv6Addr, OtMonitorError>)
        ensures
            res matches Err(e) ==> e is OtClientError,
    {
        Self::omr_ip_from(self.ot_client.get_omr_ip())
    }

    /// Whether the address held must be replaced, given the prefix that
    /// the border router advertises now.
    pub fn needs_update(gateway: &Ipv6Addr, prefix: &Ipv6Net) -> (r: bool)
        ensures
            r == update_needed(*gateway, *prefix),
    {
        gateway.is_loopback() || !gateway.same_prefix(&prefix.addr())
    }

    /// Whether the address `gateway` must be replaced, given the border
    /// router's answer to the question for its prefix; the client's error
    /// where it gave none.
    pub fn needs_update_from(gateway: &Ipv6Addr, answer: Result<Ipv6Net, OtClientError>) -> (res:
        Result<bool, OtMonitorError>)
        ensures
            res == update_needed_answer(*gateway, answer),
    {
        match answer {
            Ok(prefix) => Ok(Self::needs_update(gateway, &prefix)),
            Err(e) => Err(OtMonitorError::OtClientError(e)),
        }
    }

    /// Whether the gateway's address must be replaced. A loopback address
    /// always must; otherwise the border router's prefix decides.
    pub fn check_addr_update_needed(&mut self) -> (res: Result<bool, OtMonitorError>)
        ensures
            *final(self) == *old(self),
            old(self)@.gateway.spec_is_loopback() ==> res == Ok::<bool, OtMonitorError>(true),
            res matches Err(e) ==> e is OtClientError,
    {
        if self.addr.is_loopback() {
            return Ok(true);
        }
        Self::needs_update_from(&self.addr, self.ot_client.get_omr_prefix())
    }

    /// Takes the border router's answer to the question for the gateway's
    /// on-mesh address: an address takes the place of the one held; an
    /// error changes nothing and is handed on.
    pub fn take_omr_ip(&mut self, answer: Result<Ipv6Addr, OtClientError>) -> (res: Result<
        (),
        OtMonitorError,
    >)
        requires
            old(self).wf(),
        ensures
            final(self).wf(),
            final(self)@ == old(self)@.with_gateway(answer),
            res == (match answer {
                Ok(_) => Ok(()),
                Err(e) => Err(OtMonitorError::OtClientError(e)),
            }),
    {
        match answer {
            Ok(ip) => {
                self.addr = ip;
                Ok(())
            },
            Err(e) => Err(OtMonitorError::OtClientError(e)),
        }
    }

    /// Replaces the gateway's address by the one the border router tells.
    /// On failure nothing changes.
    pub fn update_addr(&mut self) -> (res: Result<(), OtMonitorError>)
        requires
            old(self).wf(),
        ensures
            final(self).wf(),
            final(self)@.nodes == old(self)@.nodes,
            final(self)@.free == old(self)@.free,
            final(self)@.base == old(self)@.base,
            final(self)@.size == old(self)@.size,
            res matches Err(e) ==> e is OtClientError && final(self)@ == old(self)@,
    {
        let answer = self.ot_client.get_omr_ip();
        self.take_omr_ip(answer)
    }

    /// Brings the gateway's address up to date: where it is still the
    /// loopback address or lies under an outdated prefix, it is replaced.
    pub fn refresh_gateway(&mut self) -> (res: Result<(), OtMonitorError>)
        requires
            old(self).wf(),
        ensures
            final(self).wf(),
            final(self)@.nodes == old(self)@.nodes,
            final(self)@.free == old(self)@.free,
            final(self)@.base == old(self)@.base,
            final(self)@.size == old(self)@.size,
            res matches Err(e) ==> e is OtClientError && final(self)@ == old(self)@,
    {
        let needed = if self.addr.is_loopback() {
            Ok(true)
        } else {
            Self::needs_update_from(&self.addr, self.ot_client.get_omr_prefix())
        };
        match needed {
            Ok(true) => {
                let answer = self.ot_client.get_omr_ip();
                self.take_omr_ip(answer)
            },
            Ok(false) => Ok(()),
            Err(e) => Err(e),
        }
    }

    /// The children among `children` that lie under the prefix of
    /// `gateway`.
    pub fn filter_by_prefix(children: &Vec<Child>, gateway: &Ipv6Addr) -> (out: Vec<Child>)
        ensures
            out@ == under_prefix(children@, *gateway),
    {
        let ghost pred = |c: Child| c.1.spec_same_prefix(gateway);
        let mut out: Vec<Child> = Vec::new();
        let mut i: usize = 0;
        proof {
            reveal(Seq::filter);
            assert(children@.subrange(0, 0).len() == 0);
        }
        while i < children.len()
            invariant
                i <= children@.len(),
                pred == (|c: Child| c.1.spec_same_prefix(gateway)),
                out@ == children@.subrange(0, i as int).filter(pred),
            decreases children@.len() - i,
        {
            let c = children[i];
            proof {
                assert(children@.subrange(0, i + 1) =~= children@.subrange(0, i as int).push(c));
                children@.subrange(0, i as int).lemma_filter_push(c, pred);
            }
            if c.1.same_prefix(gateway) {
                out.push(c);
            }
            i = i + 1;
        }
        assert(children@.subrange(0, children@.len() as int) =~= children@);
        out
    }

    /// The mesh's children under the gateway's prefix, as the border
    /// router lists them now.
    pub fn get_nodes(&self) -> (res: Result<Vec<Child>, OtMonitorError>)
        ensures
            res matches Err(e) ==> e is OtClientError,
            res matches Ok(v) ==> exists|listed: Seq<Child>|
                v@ == #[trigger] under_prefix(listed, self@.gateway),
            res matches Ok(v) ==> forall|i: int|
                0 <= i < v@.len() ==> (#[trigger] v@[i]).1.spec_same_prefix(&self@.gateway),
    {
        match self.ot_client.get_child_ips() {
            Ok(children) => {
                let out = Self::filter_by_prefix(&children, &self.addr);
                proof {
                    let pred = |c: Child| c.1.spec_same_prefix(&self.addr);
                    assert forall|i: int| 0 <= i < out@.len() implies (#[trigger] out@[i]).1.spec_same_prefix(
                    &self@.gateway) by {
                        children@.lemma_filter_pred(pred, i);
                    }
                    assert(out@ == under_prefix(children@, self@.gateway));
                }
                Ok(out)
            },
            Err(e) => Err(OtMonitorError::OtClientError(e)),
        }
    }

    /// Whether a node under another port than `port` has the locator and
    /// address of `child`.
    pub fn is_held_elsewhere(&self, port: NodeRcvPort, child: &Child) -> (r: bool)
        ensures
            r == held_elsewhere(self@.nodes, port, *child),
    {
        let mut i: usize = 0;
        while i < self.nodes.len()
            invariant
                i <= self.nodes@.len(),
                forall|k: int|
                    0 <= k < i ==> !((#[trigger] self.nodes@[k]).port != port && locator(
                        self.nodes@[k],
                    ) == *child),
            decreases self.nodes@.len() - i,
        {
            let held = &self.nodes[i];
            if held.port != port && held.rloc == child.0 && held.ip == child.1 {
                return true;
            }
            i = i + 1;
        }
        false
    }

    /// Records `node` under its port, in place of any node that held the
    /// port before. The port must be reserved, that is one of the pool's
    /// and not free, and the node must not be registered under another
    /// port: otherwise the node is refused and nothing changes.
    pub fn register_node(&mut self, node: Registration) -> (res: Result<(), OtMonitorError>)
        requires
            old(self).wf(),
        ensures
            final(self).wf(),
            res is Err <==> !old(self)@.reserved(node.port) || held_elsewhere(
                old(self)@.nodes,
                node.port,
                locator(node),
            ),
            res is Ok ==> final(self)@ == old(self)@.register(node),
            res matches Err(e) ==> final(self)@ == old(self)@ && (e matches OtMonitorError::PortError(
                m,
            ) && m@ == if !old(self)@.reserved(node.port) {
                "Port was not reserved"@
            } else {
                "Node is already registered"@
            }),
    {
        if !self.ports.is_in_range(node.port) || self.ports.is_free(node.port) {
            return Err(OtMonitorError::PortError("Port was not reserved".to_owned()));
        }
        let child: Child = (node.rloc, node.ip);
        if self.is_held_elsewhere(node.port, &child) {
            return Err(OtMonitorError::PortError("Node is already registered".to_owned()));
        }
        let i = self.find_port(node.port);
        if i < self.nodes.len() {
            self.nodes[i] = node;
        } else {
            self.nodes.push(node);
        }
        proof {
            lemma_register_keeps_ports_unique(old(self)@, node);
        }
        Ok(())
    }

    /// Evicts the node registered under `key`, if any, and returns the
    /// port to the pool.
    pub fn evict_node(&mut self, key: &NodeRcvPort)
        requires
            old(self).wf(),
        ensures
            final(self).wf(),
            final(self)@ == old(self)@.evict(*key),
            old(self)@.in_pool(*key) ==> final(self)@.free.contains(*key),
            !has_port(final(self)@.nodes, *key),
    {
        let i = self.find_port(*key);
        if i < self.nodes.len() {
            self.nodes.remove(i);
        }
        self.ports.mark_port_free_to_use(*key);
        proof {
            lemma_evict_frees_port(old(self)@, *key);
            assert(final(self)@.free =~= old(self)@.evict(*key).free);
        }
    }

    /// Reserves the least free port.
    pub fn get_free_port(&mut self) -> (res: Result<NodeRcvPort, OtMonitorError>)
        requires
            old(self).wf(),
        ensures
            final(self).wf(),
            res is Err <==> old(self)@.free =~= Set::<NodeRcvPort>::empty(),
            res matches Err(e) ==> final(self)@ == old(self)@ && (e matches OtMonitorError::PortError(
                m,
            ) && m@ == "No free ports available"@),
            res matches Ok(port) ==> {
                &&& old(self)@.free.contains(port)
                &&& old(self)@.in_pool(port)
                &&& forall|q: NodeRcvPort| old(self)@.free.contains(q) ==> port <= q
                &&& port == least_port(old(self)@.free)
                &&& !has_port(old(self)@.nodes, port)
                &&& final(self)@ == old(self)@.reserve()
            },
    {
        let ghost before = self.ports;
        let res = self.ports.get_free_port();
        proof {
            match res {
                Ok(port) => {
                    let l = least_port(before@);
                    assert(before@.contains(port) && forall|q: NodeRcvPort|
                        before@.contains(q) ==> port <= q);
                    assert(l == port);
                    assert(final(self)@.free =~= old(self)@.reserve().free);
                    if has_port(old(self)@.nodes, port) {
                        let k = choose|k: int|
                            0 <= k < old(self)@.nodes.len() && (#[trigger] old(self)@.nodes[k]).port
                                == port;
                        assert(old(self)@.reserved(old(self)@.nodes[k].port));
                    }
                    assert forall|k: int| 0 <= k < self.nodes@.len() implies final(self)@.reserved(
                        #[trigger] self.nodes@[k].port,
                    ) by {
                        assert(old(self)@.reserved(self.nodes@[k].port));
                    }
                },
                Err(_) => {
                    assert(before@ =~= Set::<NodeRcvPort>::empty());
                    assert(final(self)@.free =~= old(self)@.free);
                },
            }
            if before.free_list().len() > 0 {
                assert(before@.contains(before.free_list()[0]));
            }
        }
        res
    }

    /// Hands `port` back to the pool. A port that a registered node holds
    /// stays reserved.
    pub fn return_port(&mut self, port: NodeRcvPort)
        requires
            old(self).wf(),
        ensures
            final(self).wf(),
            final(self)@ == old(self)@.release(port),
            !has_port(old(self)@.nodes, port) && old(self)@.in_pool(port)
                ==> final(self)@.free.contains(port),
    {
        let i = self.find_port(port);
        if i < self.nodes.len() {
            return;
        }
        let ghost before = self.ports;
        self.ports.mark_port_free_to_use(port);
        proof {
            assert(final(self)@.free =~= old(self)@.release(port).free);
            assert forall|k: int| 0 <= k < self.nodes@.len() implies final(self)@.reserved(
                #[trigger] self.nodes@[k].port,
            ) by {
                assert(old(self)@.reserved(self.nodes@[k].port));
            }
        }
    }

    /// The children among `active` that no registered node stands for.
    pub fn unregistered_children(&self, active: &Vec<Child>) -> (out: Vec<Child>)
        ensures
            out@ == unregistered(active@, self@.nodes),
    {
        let ghost pred = |c: Child| !has_child(self.nodes@, c);
        let mut out: Vec<Child> = Vec::new();
        let mut i: usize = 0;
        proof {
            reveal(Seq::filter);
            assert(active@.subrange(0, 0).len() == 0);
        }
        while i < active.len()
            invariant
                i <= active@.len(),
                pred == (|c: Child| !has_child(self.nodes@, c)),
                out@ == active@.subrange(0, i as int).filter(pred),
            decreases active@.len() - i,
        {
            let c = active[i];
            proof {
                assert(active@.subrange(0, i + 1) =~= active@.subrange(0, i as int).push(c));
                active@.subrange(0, i as int).lemma_filter_push(c, pred);
            }
            if !self.is_registered(&c) {
                out.push(c);
            }
            i = i + 1;
        }
        assert(active@.subrange(0, active@.len() as int) =~= active@);
        out
    }

    /// The children under the gateway's prefix that are not registered
    /// yet, as the border router lists them now.
    pub fn new_children(&self) -> (res: Result<Vec<Child>, OtMonitorError>)
        ensures
            res matches Err(e) ==> e is OtClientError,
            res matches Ok(v) ==> exists|listed: Seq<Child>|
                v@ == unregistered(#[trigger] under_prefix(listed, self@.gateway), self@.nodes),
            res matches Ok(v) ==> forall|i: int|
                0 <= i < v@.len() ==> (#[trigger] v@[i]).1.spec_same_prefix(&self@.gateway)
                    && !has_child(self@.nodes, v@[i]),
    {
        match self.get_nodes() {
            Ok(active) => {
                let out = self.unregistered_children(&active);
                proof {
                    let pred = |c: Child| !has_child(self.nodes@, c);
                    assert forall|i: int| 0 <= i < out@.len() implies (#[trigger] out@[i]).1.spec_same_prefix(
                    &self@.gateway) && !has_child(self@.nodes, out@[i]) by {
                        active@.lemma_filter_pred(pred, i);
                        active@.lemma_filter_contains_rev(pred, out@[i]);
                        let k = choose|k: int| 0 <= k < active@.len() && active@[k] == out@[i];
                        assert(active@[k].1.spec_same_prefix(&self@.gateway));
                    }
                    let listed = choose|listed: Seq<Child>|
                        active@ == #[trigger] under_prefix(listed, self@.gateway);
                    assert(out@ == unregistered(under_prefix(listed, self@.gateway), self@.nodes));
                }
                Ok(out)
            },
            Err(e) => Err(e),
        }
    }

    /// Evicts every node that `active` no longer lists, returns their
    /// ports to the pool, and tells which they were.
    pub fn evict_missing(&mut self, active: &Vec<Child>) -> (lost: Vec<Child>)
        requires
            old(self).wf(),
        ensures
            final(self).wf(),
            final(self)@ == old(self)@.evict_missing(active@),
            lost@ == locators(missing_nodes(old(self)@.nodes, active@)),
    {
        let ghost all = self.nodes@;
        let ghost gone = |n: Registration| !active@.contains(locator(n));
        let ghost stay = |n: Registration| active@.contains(locator(n));
        let ghost free0 = self.ports@;
        let mut lost: Vec<Child> = Vec::new();
        let mut i: usize = 0;
        let ghost mut k: int = 0;
        proof {
            reveal(Seq::filter);
            assert(all.subrange(0, 0).len() == 0);
            assert(all.subrange(0, all.len() as int) =~= all);
            assert(Seq::<Registration>::empty() + all =~= all);
            assert(locators(Seq::<Registration>::empty()) =~= Seq::<Child>::empty());
            assert(free0.union(ports_of(Seq::<Registration>::empty())) =~= free0);
        }
        while i < self.nodes.len()
            invariant
                0 <= k <= all.len(),
                all == old(self).nodes@,
                free0 == old(self).ports@,
                self.addr == old(self).addr,
                gone == (|n: Registration| !active@.contains(locator(n))),
                stay == (|n: Registration| active@.contains(locator(n))),
                i == all.subrange(0, k).filter(stay).len(),
                self.nodes@ == all.subrange(0, k).filter(stay) + all.subrange(k, all.len() as int),
                lost@ == locators(all.subrange(0, k).filter(gone)),
                self.ports.wf(),
                self.ports.base() == old(self).ports.base(),
                self.ports.size() == old(self).ports.size(),
                old(self)@.wf(),
                self.ports@ =~= free0.union(ports_of(all.subrange(0, k).filter(gone))),
            decreases all.len() - k,
        {
            let ghost node = self.nodes@[i as int];
            let rloc = self.nodes[i].rloc;
            let ip = self.nodes[i].ip;
            let port = self.nodes[i].port;
            proof {
                assert(node == all[k]);
                assert(old(self)@.reserved(old(self)@.nodes[k].port));
                assert(all.subrange(0, k + 1) =~= all.subrange(0, k).push(node));
                all.subrange(0, k).lemma_filter_push(node, stay);
                all.subrange(0, k).lemma_filter_push(node, gone);
            }
            let child: Child = (rloc, ip);
            if contains_child(active, &child) {
                proof {
                    assert(self.nodes@ =~= all.subrange(0, k + 1).filter(stay) + all.subrange(
                        k + 1,
                        all.len() as int,
                    ));
                }
                i = i + 1;
            } else {
                let ghost kept = all.subrange(0, k).filter(stay);
                let ghost lost_before = all.subrange(0, k).filter(gone);
                self.nodes.remove(i);
                self.ports.mark_port_free_to_use(port);
                lost.push(child);
                proof {
                    assert(self.nodes@ =~= kept + all.subrange(k + 1, all.len() as int));
                    assert(lost@ =~= locators(lost_before.push(node)));
                    lemma_ports_of_push(lost_before, node);
                    assert(self.ports@ =~= free0.union(ports_of(lost_before.push(node))));
                }
            }
            proof {
                k = k + 1;
            }
        }
        proof {
            assert(k == all.len()) by {
                all.subrange(0, k).lemma_filter_len(stay);
                assert(self.nodes@.len() == i + all.len() - k);
            }
            assert(self.nodes@ =~= present_nodes(all, active@));
            lemma_filter_keeps_state(old(self)@, stay, gone);
        }
        lost
    }

    /// Evicts the registered nodes that the border router no longer lists
    /// among its children, whatever their prefix, and returns their ports
    /// to the pool. Tells the locators and addresses of the evicted nodes.
    pub fn lost_children(&mut self) -> (res: Result<Vec<Child>, OtMonitorError>)
        requires
            old(self).wf(),
        ensures
            final(self).wf(),
            res matches Err(e) ==> e is OtClientError && final(self)@ == old(self)@,
            res matches Ok(lost) ==> exists|listed: Seq<Child>|
                {
                    &&& final(self)@ == #[trigger] old(self)@.evict_missing(listed)
                    &&& lost@ == locators(missing_nodes(old(self)@.nodes, listed))
                },
    {
        match self.ot_client.get_child_ips() {
            Ok(listed) => {
                let lost = self.evict_missing(&listed);
                proof {
                    assert(final(self)@ == old(self)@.evict_missing(listed@));
                }
                Ok(lost)
            },
            Err(e) => Err(OtMonitorError::OtClientError(e)),
        }
    }
}

/// Whether `children` lists `child`.
pub fn contains_child(children: &Vec<Child>, child: &Child) -> (r: bool)
    ensures
        r == children@.contains(*child),
{
    let mut i: usize = 0;
    while i < children.len()
        invariant
            i <= children@.len(),
            forall|k: int| 0 <= k < i ==> children@[k] != *child,
        decreases children@.len() - i,
    {
        if children[i].0 == child.0 && children[i].1 == child.1 {
            return true;
        }
        i = i + 1;
    }
    false
}

/// The ports of a list with one more node are those of the list and the
/// node's own.
pub proof fn lemma_ports_of_push(nodes: Seq<Registration>, node: Registration)
    ensures
        ports_of(nodes.push(node)) =~= ports_of(nodes).insert(node.port),
{
    let more = nodes.push(node);
    assert forall|p: NodeRcvPort| ports_of(more).contains(p) <==> ports_of(nodes).insert(
        node.port,
    ).contains(p) by {
        if has_port(more, p) {
            let i = choose|i: int| 0 <= i < more.len() && (#[trigger] more[i]).port == p;
            if i < nodes.len() {
                assert(nodes[i].port == p);
            }
        }
        if has_port(nodes, p) {
            let i = choose|i: int| 0 <= i < nodes.len() && (#[trigger] nodes[i]).port == p;
            assert(more[i].port == p);
        }
        if p == node.port {
            assert(more[nodes.len() as int].port == p);
        }
    }
}

/// Removing the node at a port's place leaves the other nodes as they
/// were, in their order, and none of them holds the port.
pub proof fn lemma_evict_keeps_order(nodes: Seq<Registration>, port: NodeRcvPort)
    requires
        distinct_ports(nodes),
        distinct_locators(nodes),
    ensures
        ({
            let i = port_index(nodes, port);
            let after = if 0 <= i < nodes.len() {
                nodes.remove(i)
            } else {
                nodes
            };
            &&& distinct_ports(after)
            &&& distinct_locators(after)
            &&& !has_port(after, port)
            &&& forall|n: Registration| after.contains(n) <==> nodes.contains(n) && n.port != port
        }),
{
    let i = port_index(nodes, port);
    assert(is_port_index(nodes, port, nodes.len() as int) || exists|j: int|
        is_port_index(nodes, port, j)) by {
        lemma_port_index_exists(nodes, port);
    }
    assert(is_port_index(nodes, port, i));
    let after = if 0 <= i < nodes.len() {
        nodes.remove(i)
    } else {
        nodes
    };
    assert forall|a: int, b: int| 0 <= a < b < after.len() implies after[a].port != after[b].port by {
        let a0 = if 0 <= i < nodes.len() && a >= i {
            a + 1
        } else {
            a
        };
        let b0 = if 0 <= i < nodes.len() && b >= i {
            b + 1
        } else {
            b
        };
        assert(nodes[a0].port != nodes[b0].port);
    }
    assert forall|a: int, b: int| 0 <= a < b < after.len() implies locator(after[a]) != locator(
        after[b],
    ) by {
        let a0 = if 0 <= i < nodes.len() && a >= i {
            a + 1
        } else {
            a
        };
        let b0 = if 0 <= i < nodes.len() && b >= i {
            b + 1
        } else {
            b
        };
        assert(locator(nodes[a0]) != locator(nodes[b0]));
    }
    if has_port(after, port) {
        let k = choose|k: int| 0 <= k < after.len() && (#[trigger] after[k]).port == port;
        if 0 <= i < nodes.len() {
            let k0 = if k >= i {
                k + 1
            } else {
                k
            };
            assert(after[k] == nodes[k0]);
            if k0 < i {
                assert(nodes[k0].port != nodes[i].port);
            } else {
                assert(nodes[i].port != nodes[k0].port);
            }
        } else {
            assert(nodes[k].port != port);
        }
    }
    assert forall|n: Registration| after.contains(n) <==> nodes.contains(n) && n.port != port by {
        if after.contains(n) {
            let k = choose|k: int| 0 <= k < after.len() && after[k] == n;
            let k0 = if 0 <= i < nodes.len() && k >= i {
                k + 1
            } else {
                k
            };
            assert(nodes[k0] == n);
            assert(after[k].port == n.port);
        }
        if nodes.contains(n) && n.port != port {
            let k = choose|k: int| 0 <= k < nodes.len() && nodes[k] == n;
            if 0 <= i < nodes.len() {
                if k < i {
                    assert(after[k] == n);
                } else {
                    assert(after[k - 1] == n);
                }
            }
        }
    }
}

/// Every list has a place for a port: that of the first node that holds
/// it, or the end.
pub proof fn lemma_port_index_exists(nodes: Seq<Registration>, port: NodeRcvPort)
    ensures
        exists|j: int| is_port_index(nodes, port, j),
    decreases nodes.len(),
{
    if nodes.len() == 0 {
        assert(is_port_index(nodes, port, 0));
    } else {
        let front = nodes.drop_last();
        lemma_port_index_exists(front, port);
        let j = choose|j: int| is_port_index(front, port, j);
        assert forall|k: int| 0 <= k < j implies (#[trigger] nodes[k]).port != port by {
            assert(front[k] == nodes[k]);
        }
        if j < front.len() {
            assert(front[j] == nodes[j]);
            assert(is_port_index(nodes, port, j));
        } else if nodes.last().port == port {
            assert(is_port_index(nodes, port, j));
        } else {
            assert(is_port_index(nodes, port, nodes.len() as int));
        }
    }
}

/// Evicting the missing nodes keeps the bookkeeping sound.
pub proof fn lemma_filter_keeps_state(
    s: MonitorState,
    stay: spec_fn(Registration) -> bool,
    gone: spec_fn(Registration) -> bool,
)
    requires
        s.wf(),
        forall|n: Registration| #[trigger] stay(n) == !gone(n),
    ensures
        distinct_ports(s.nodes.filter(stay)),
        distinct_locators(s.nodes.filter(stay)),
        forall|i: int|
            0 <= i < s.nodes.filter(stay).len() ==> !s.free.union(
                ports_of(s.nodes.filter(gone)),
            ).contains(#[trigger] s.nodes.filter(stay)[i].port),
        (MonitorState {
            nodes: s.nodes.filter(stay),
            free: s.free.union(ports_of(s.nodes.filter(gone))),
            ..s
        }).wf(),
{
    let kept = s.nodes.filter(stay);
    let lost = s.nodes.filter(gone);
    lemma_filter_is_subsequence(s.nodes, stay);
    let idx = choose|idx: Seq<int>| is_embedding(kept, s.nodes, idx);
    assert forall|a: int, b: int| 0 <= a < b < kept.len() implies kept[a].port != kept[b].port by {
        assert(idx[a] < idx[b]);
        assert(s.nodes[idx[a]].port != s.nodes[idx[b]].port);
    }
    assert forall|a: int, b: int| 0 <= a < b < kept.len() implies locator(kept[a]) != locator(
        kept[b],
    ) by {
        assert(idx[a] < idx[b]);
        assert(locator(s.nodes[idx[a]]) != locator(s.nodes[idx[b]]));
    }
    assert forall|i: int| 0 <= i < kept.len() implies !s.free.union(ports_of(lost)).contains(
        #[trigger] kept[i].port,
    ) by {
        assert(kept[i] == s.nodes[idx[i]]);
        assert(s.reserved(s.nodes[idx[i]].port));
        if has_port(lost, kept[i].port) {
            let j = choose|j: int| 0 <= j < lost.len() && (#[trigger] lost[j]).port == kept[i].port;
            s.nodes.lemma_filter_pred(gone, j);
            s.nodes.lemma_filter_pred(stay, i);
            s.nodes.lemma_filter_contains_rev(gone, lost[j]);
            let m = choose|m: int| 0 <= m < s.nodes.len() && s.nodes[m] == lost[j];
            if m < idx[i] {
                assert(s.nodes[m].port != s.nodes[idx[i]].port);
            } else if idx[i] < m {
                assert(s.nodes[idx[i]].port != s.nodes[m].port);
            }
        }
    }
    let after = MonitorState { nodes: kept, free: s.free.union(ports_of(lost)), ..s };
    assert forall|p: NodeRcvPort| #[trigger] after.free.contains(p) implies after.in_pool(p) by {
        if has_port(lost, p) {
            let j = choose|j: int| 0 <= j < lost.len() && (#[trigger] lost[j]).port == p;
            s.nodes.lemma_filter_contains_rev(gone, lost[j]);
            let m = choose|m: int| 0 <= m < s.nodes.len() && s.nodes[m] == lost[j];
            assert(s.reserved(s.nodes[m].port));
        } else {
            assert(s.free.contains(p));
        }
    }
    assert forall|i: int| 0 <= i < kept.len() implies after.reserved(#[trigger] kept[i].port) by {
        assert(kept[i] == s.nodes[idx[i]]);
        assert(s.reserved(s.nodes[idx[i]].port));
        assert(!s.free.union(ports_of(lost)).contains(kept[i].port));
    }
}

/// `idx` maps the places of `sub` to increasing places of `all` that hold
/// the same nodes.
pub open spec fn is_embedding(sub: Seq<Registration>, all: Seq<Registration>, idx: Seq<int>) -> bool {
    &&& idx.len() == sub.len()
    &&& forall|i: int| 0 <= i < sub.len() ==> 0 <= #[trigger] idx[i] < all.len() && all[idx[i]] == sub[i]
    &&& forall|i: int, j: int| 0 <= i < j < sub.len() ==> idx[i] < idx[j]
}

/// What a filter keeps stands in the list it was taken from, in order.
pub proof fn lemma_filter_is_subsequence(all: Seq<Registration>, pred: spec_fn(Registration) -> bool)
    ensures
        exists|idx: Seq<int>| is_embedding(all.filter(pred), all, idx),
    decreases all.len(),
{
    reveal(Seq::filter);
    if all.len() == 0 {
        assert(is_embedding(all.filter(pred), all, Seq::<int>::empty()));
    } else {
        let front = all.drop_last();
        lemma_filter_is_subsequence(front, pred);
        let idx = choose|idx: Seq<int>| is_embedding(front.filter(pred), front, idx);
        if pred(all.last()) {
            let idx2 = idx.push(all.len() - 1);
            assert(is_embedding(all.filter(pred), all, idx2)) by {
                let sub = all.filter(pred);
                assert(sub == front.filter(pred).push(all.last()));
                assert forall|i: int| 0 <= i < sub.len() implies 0 <= #[trigger] idx2[i] < all.len()
                    && all[idx2[i]] == sub[i] by {
                    if i < idx.len() {
                        assert(idx2[i] == idx[i]);
                        assert(front[idx[i]] == all[idx[i]]);
                    }
                }
                assert forall|i: int, j: int| 0 <= i < j < sub.len() implies idx2[i] < idx2[j] by {
                    if j < idx.len() {
                        assert(idx[i] < idx[j]);
                    } else {
                        assert(idx2[i] == idx[i]);
                    }
                }
            }
        } else {
            assert(is_embedding(all.filter(pred), all, idx)) by {
                let sub = all.filter(pred);
                assert forall|i: int| 0 <= i < sub.len() implies 0 <= #[trigger] idx[i] < all.len()
                    && all[idx[i]] == sub[i] by {
                    assert(front[idx[i]] == all[idx[i]]);
                }
            }
        }
    }
}

/// A non-empty set of ports has a least port.
pub proof fn lemma_least_port(free: Set<NodeRcvPort>, p: NodeRcvPort)
    requires
        free.contains(p),
    ensures
        free.contains(least_port(free)),
        forall|q: NodeRcvPort| free.contains(q) ==> least_port(free) <= q,
    decreases p,
{
    if exists|q: NodeRcvPort| free.contains(q) && q < p {
        let q = choose|q: NodeRcvPort| free.contains(q) && q < p;
        lemma_least_port(free, q);
    } else {
        assert(free.contains(p) && forall|q: NodeRcvPort| free.contains(q) ==> p <= q);
    }
}

/// Registering a node under a reserved port keeps every port with at most
/// one node and no reserved port free; the node is then the one found
/// under its port.
pub proof fn lemma_register_keeps_ports_unique(s: MonitorState, node: Registration)
    requires
        s.wf(),
        s.reserved(node.port),
        !held_elsewhere(s.nodes, node.port, locator(node)),
    ensures
        s.register(node).wf(),
        has_port(s.register(node).nodes, node.port),
        s.register(node).nodes[port_index(s.register(node).nodes, node.port)] == node,
        s.register(node).free == s.free,
{
    lemma_port_index_exists(s.nodes, node.port);
    let i = port_index(s.nodes, node.port);
    assert(is_port_index(s.nodes, node.port, i));
    let after = s.register(node).nodes;
    assert forall|k: int| 0 <= k < s.nodes.len() && k != i implies locator(s.nodes[k]) != locator(
        node,
    ) by {
        if 0 <= i < s.nodes.len() {
            if k < i {
                assert(s.nodes[k].port != s.nodes[i].port);
            } else {
                assert(s.nodes[i].port != s.nodes[k].port);
            }
        } else {
            assert(s.nodes[k].port != node.port);
        }
        assert(s.nodes[k].port != node.port);
    }
    if 0 <= i < s.nodes.len() {
        assert forall|a: int, b: int| 0 <= a < b < after.len() implies after[a].port
            != after[b].port by {
            assert(s.nodes[a].port != s.nodes[b].port);
        }
        assert forall|a: int, b: int| 0 <= a < b < after.len() implies locator(after[a])
            != locator(after[b]) by {
            assert(locator(s.nodes[a]) != locator(s.nodes[b]));
            if a != i && b != i {
                assert(after[a] == s.nodes[a] && after[b] == s.nodes[b]);
            }
        }
        assert forall|k: int| 0 <= k < after.len() implies s.reserved(
            #[trigger] after[k].port,
        ) by {
            if k != i {
                assert(after[k] == s.nodes[k]);
            }
        }
        assert(is_port_index(after, node.port, i)) by {
            assert forall|k: int| 0 <= k < i implies (#[trigger] after[k]).port != node.port by {
                assert(after[k] == s.nodes[k]);
            }
        }
        lemma_port_index(after, node.port, i);
        assert(after[i].port == node.port);
    } else {
        assert forall|a: int, b: int| 0 <= a < b < after.len() implies after[a].port
            != after[b].port by {
            if b < s.nodes.len() {
                assert(s.nodes[a].port != s.nodes[b].port);
            } else {
                assert(s.nodes[a].port != node.port);
            }
        }
        assert forall|a: int, b: int| 0 <= a < b < after.len() implies locator(after[a])
            != locator(after[b]) by {
            if b < s.nodes.len() {
                assert(locator(s.nodes[a]) != locator(s.nodes[b]));
            } else {
                assert(after[a] == s.nodes[a]);
            }
        }
        assert forall|k: int| 0 <= k < after.len() implies s.reserved(
            #[trigger] after[k].port,
        ) by {
            if k < s.nodes.len() {
                assert(after[k] == s.nodes[k]);
            }
        }
        let last = after.len() - 1;
        assert(is_port_index(after, node.port, last)) by {
            assert forall|k: int| 0 <= k < last implies (#[trigger] after[k]).port != node.port by {
                assert(after[k] == s.nodes[k]);
            }
        }
        lemma_port_index(after, node.port, last);
        assert(after[last].port == node.port);
    }
}

/// Evicting keeps the bookkeeping sound; no node holds the evicted port
/// afterwards, and the port is free if it is one of the pool's.
pub proof fn lemma_evict_frees_port(s: MonitorState, port: NodeRcvPort)
    requires
        s.wf(),
    ensures
        s.evict(port).wf(),
        s.in_pool(port) ==> s.evict(port).free.contains(port),
        !s.in_pool(port) ==> s.evict(port).free == s.free,
        !has_port(s.evict(port).nodes, port),
{
    lemma_evict_keeps_order(s.nodes, port);
    let after = s.evict(port).nodes;
    assert forall|k: int| 0 <= k < after.len() implies s.evict(port).reserved(
        #[trigger] after[k].port,
    ) by {
        assert(after.contains(after[k]));
        assert(s.nodes.contains(after[k]) && after[k].port != port);
        let m = choose|m: int| 0 <= m < s.nodes.len() && s.nodes[m] == after[k];
        assert(s.reserved(s.nodes[m].port));
    }
    assert forall|p: NodeRcvPort| #[trigger] s.evict(port).free.contains(p) implies s.evict(
        port,
    ).in_pool(p) by {
        if p != port {
            assert(s.free.contains(p));
        }
    }
}

/// Port conservation. A node registered under a reserved port and then
/// evicted leaves its port in the free set, held by no node.
pub proof fn lemma_registered_then_evicted_port_is_free(s: MonitorState, node: Registration)
    requires
        s.wf(),
        s.reserved(node.port),
        !held_elsewhere(s.nodes, node.port, locator(node)),
    ensures
        s.register(node).evict(node.port).wf(),
        s.register(node).evict(node.port).free.contains(node.port),
        !has_port(s.register(node).evict(node.port).nodes, node.port),
{
    lemma_register_keeps_ports_unique(s, node);
    lemma_evict_frees_port(s.register(node), node.port);
}

/// Port conservation. A port that was reserved for a handshake and handed
/// back when the handshake failed is free again: the pool is as it was.
pub proof fn lemma_failed_handshake_returns_port(s: MonitorState)
    requires
        s.wf(),
        exists|p: NodeRcvPort| s.free.contains(p),
    ensures
        s.reserve().wf(),
        s.reserve().release(least_port(s.free)).wf(),
        s.reserve().release(least_port(s.free)).free.contains(least_port(s.free)),
        s.reserve().release(least_port(s.free)) == s,
{
    let p = choose|p: NodeRcvPort| s.free.contains(p);
    lemma_least_port(s.free, p);
    let port = least_port(s.free);
    if has_port(s.nodes, port) {
        let k = choose|k: int| 0 <= k < s.nodes.len() && (#[trigger] s.nodes[k]).port == port;
        assert(s.reserved(s.nodes[k].port));
    }
    assert(s.in_pool(port));
    assert forall|k: int| 0 <= k < s.nodes.len() implies s.reserve().reserved(
        #[trigger] s.nodes[k].port,
    ) by {
        assert(s.reserved(s.nodes[k].port));
    }
    assert forall|q: NodeRcvPort| #[trigger] s.reserve().free.contains(q) implies s.in_pool(q) by {
        assert(s.free.contains(q));
    }
    assert(s.reserve().release(port).free =~= s.free);
}

/// Port conservation on a poll. Every node that the mesh no longer lists
/// is evicted and its port free afterwards; the nodes that stay keep
/// their ports to themselves.
pub proof fn lemma_lost_node_frees_port(s: MonitorState, active: Seq<Child>, i: int)
    requires
        s.wf(),
        0 <= i < s.nodes.len(),
        !active.contains(locator(s.nodes[i])),
    ensures
        s.evict_missing(active).wf(),
        s.evict_missing(active).free.contains(s.nodes[i].port),
        !s.evict_missing(active).nodes.contains(s.nodes[i]),
        !has_port(s.evict_missing(active).nodes, s.nodes[i].port),
{
    let gone = |n: Registration| !active.contains(locator(n));
    let stay = |n: Registration| active.contains(locator(n));
    lemma_filter_keeps_state(s, stay, gone);
    let lost = s.nodes.filter(gone);
    let kept = s.nodes.filter(stay);
    s.nodes.lemma_filter_contains(gone, i);
    let j = choose|j: int| 0 <= j < lost.len() && lost[j] == s.nodes[i];
    assert(lost[j].port == s.nodes[i].port);
    assert(has_port(lost, s.nodes[i].port));
    if kept.contains(s.nodes[i]) {
        let k = choose|k: int| 0 <= k < kept.len() && kept[k] == s.nodes[i];
        s.nodes.lemma_filter_pred(stay, k);
    }
    if has_port(kept, s.nodes[i].port) {
        let k = choose|k: int| 0 <= k < kept.len() && (#[trigger] kept[k]).port == s.nodes[i].port;
        assert(!s.free.union(ports_of(lost)).contains(kept[k].port));
    }
}

/// A node that re-attached at another address is both lost and new: the
/// poll evicts its old registration and reports its new locator as a
/// child to register.
pub proof fn lemma_moved_node_is_lost_and_new(
    s: MonitorState,
    active: Seq<Child>,
    i: int,
    moved: Child,
)
    requires
        s.wf(),
        0 <= i < s.nodes.len(),
        !active.contains(locator(s.nodes[i])),
        active.contains(moved),
        !has_child(s.nodes, moved),
    ensures
        locators(missing_nodes(s.nodes, active)).contains(locator(s.nodes[i])),
        unregistered(active, s.nodes).contains(moved),
{
    let gone = |n: Registration| !active.contains(locator(n));
    let lost = s.nodes.filter(gone);
    s.nodes.lemma_filter_contains(gone, i);
    let j = choose|j: int| 0 <= j < lost.len() && lost[j] == s.nodes[i];
    assert(locators(lost)[j] == locator(s.nodes[i]));
    let fresh = |c: Child| !has_child(s.nodes, c);
    let m = choose|m: int| 0 <= m < active.len() && active[m] == moved;
    active.lemma_filter_contains(fresh, m);
}

} // verus!
