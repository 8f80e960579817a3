//! Verified core of a soil-monitoring mesh: the gateway's port pool, mesh
//! monitor, CoAP-observe handshake, node sessions and broker fan-out, and the
//! decisions of the node firmware's CoAP server.

use vstd::prelude::*;

pub mod addr;
pub mod atsamd10;
pub mod broker;
pub mod client;
pub mod coap;
pub mod minder;
pub mod monitor;
pub mod node;
pub mod platform;
pub mod ports;
pub mod router;
pub mod sensor;
pub mod text;
pub mod tsl2591;

pub use broker::{Broker, BrokerError, BrokerHandle, ClientSubscribe, ClientUnsubscribe};
pub use client::{OtCliClient, OtClient, OtClientError};
pub use monitor::{OtMonitor, OtMonitorError};
pub use node::{ErrorState, NodeEvent, NodeSensorReading, NodeState, NodeStatus};
pub use router::{EventRouter, EventRouterError};

verus! {

/// Extended unique identifier of a node: stable across resets.
pub type Eui = [u8; 6];

/// Routing locator: the short address that the mesh assigns on attachment.
pub type Rloc = u16;

/// Identifier under which a client subscribes to the broker.
pub type ClientId = u32;

} // verus!
