//! What the client and the portal say to each other, and what the tunnel
//! tells the client.

use vstd::prelude::*;
use crate::ip_network::IpNetwork;
use crate::net::{IpAddr, SocketAddr};
use crate::relay_socket::RelaySocket;
use crate::resource::ResourceDescription;

verus! {

/// The name and password by which one side of an ICE session is known.
#[derive(Debug)]
pub struct IceParameters {
    pub username: String,
    pub password: String,
}

/// The addresses of the client inside the tunnel, and the resolvers it is
/// told to use.
#[derive(Debug)]
pub struct Interface {
    pub ipv4: u32,
    pub ipv6: u128,
    pub upstream_dns: Vec<SocketAddr>,
}

/// A relay that the portal offers.
#[derive(Debug)]
pub struct Relay {
    pub id: u128,
    pub socket: RelaySocket,
    pub username: String,
    pub password: String,
    pub realm: String,
}

/// A resource as it is shown to the user.
#[derive(Debug)]
pub struct ResourceView {
    pub id: u128,
    pub name: String,
    /// Whether this is the resource that stands for the whole internet.
    pub is_internet_resource: bool,
}

/// How the TUN device is to be set up.
#[derive(Debug)]
pub struct TunConfig {
    pub ip4: u32,
    pub ip6: u128,
    /// The resolvers that the client reaches through the tunnel: the address
    /// under which each is shown to the system, and the address behind it.
    pub dns_by_sentinel: Vec<(IpAddr, SocketAddr)>,
    pub ipv4_routes: Vec<IpNetwork>,
    pub ipv6_routes: Vec<IpNetwork>,
}

/// ICE candidates for several gateways.
#[derive(Debug)]
pub struct GatewaysIceCandidates {
    pub gateway_ids: Vec<u128>,
    pub candidates: Vec<String>,
}

/// ICE candidates of one gateway.
#[derive(Debug)]
pub struct GatewayIceCandidates {
    pub gateway_id: u128,
    pub candidates: Vec<String>,
}

/// What the client sends along when it asks a gateway for a connection.
#[derive(Debug)]
pub struct ClientPayload {
    pub ice_parameters: IceParameters,
    pub domain: Option<String>,
}

/// A request for a connection to a gateway.
#[derive(Debug)]
pub struct RequestConnection {
    pub gateway_id: u128,
    pub resource_id: u128,
    pub client_preshared_key: [u8; 32],
    pub client_payload: ClientPayload,
}

/// A request to reach one more resource over a connection that is up.
#[derive(Debug)]
pub struct ReuseConnection {
    pub resource_id: u128,
    pub gateway_id: u128,
    pub payload: Option<String>,
}

/// What the client sends to the portal.
#[derive(Debug)]
pub enum EgressMessages {
    BroadcastIceCandidates(GatewaysIceCandidates),
    BroadcastInvalidatedIceCandidates(GatewaysIceCandidates),
    PrepareConnection { resource_id: u128, connected_gateway_ids: Vec<u128> },
    ReuseConnection(ReuseConnection),
    RequestConnection(RequestConnection),
}

/// What the portal sends to the client right after it has connected.
#[derive(Debug)]
pub struct InitClient {
    pub interface: Interface,
    pub resources: Vec<ResourceDescription>,
    pub relays: Vec<Relay>,
}

/// Which relays have come and gone.
#[derive(Debug)]
pub struct RelaysPresence {
    pub disconnected_ids: Vec<u128>,
    pub connected: Vec<Relay>,
}

/// What the portal sends to the client.
#[derive(Debug)]
pub enum IngressMessages {
    Init(InitClient),
    ConfigChanged(Interface),
    IceCandidates(GatewayIceCandidates),
    InvalidateIceCandidates(GatewayIceCandidates),
    ResourceCreatedOrUpdated(ResourceDescription),
    ResourceDeleted(u128),
    RelaysPresence(RelaysPresence),
}

/// How a gateway answered a request for a connection.
#[derive(Debug)]
pub enum GatewayResponse {
    ConnectionAccepted { ice_parameters: IceParameters },
    ResourceAccepted,
}

/// The answer to a request for a connection.
#[derive(Debug)]
pub struct Connect {
    pub gateway_payload: GatewayResponse,
    pub resource_id: u128,
    pub gateway_public_key: [u8; 32],
}

/// Where a resource is to be reached.
#[derive(Debug)]
pub struct ConnectionDetails {
    pub resource_id: u128,
    pub gateway_id: u128,
    pub site_id: u128,
}

/// What the portal answers to a request of the client.
#[derive(Debug)]
pub enum ReplyMessages {
    ConnectionDetails(ConnectionDetails),
    Connect(Connect),
}

/// Why the portal refused a request.
#[derive(Clone, Copy, Debug, PartialEq, Eq, Structural)]
pub enum ErrorReply {
    Offline,
    Disabled,
    UnmatchedTopic,
    InvalidVersion,
    NotFound,
    Other,
}

/// What the tunnel tells the client.
#[derive(Debug)]
pub enum ClientEvent {
    AddedIceCandidates { conn_id: u128, candidates: Vec<String> },
    RemovedIceCandidates { conn_id: u128, candidates: Vec<String> },
    ConnectionIntent { resource: u128, connected_gateway_ids: Vec<u128> },
    RequestAccess { resource_id: u128, gateway_id: u128, maybe_domain: Option<String> },
    ResourcesChanged { resources: Vec<ResourceView> },
    TunInterfaceUpdated(TunConfig),
    RequestConnection {
        gateway_id: u128,
        offer: IceParameters,
        preshared_key: [u8; 32],
        resource_id: u128,
        maybe_domain: Option<String>,
    },
}

} // verus!
