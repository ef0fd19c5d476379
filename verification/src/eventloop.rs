//! The decisions of the client's event loop.
//!
//! The loop itself waits on a queue of commands, on the tunnel and on the
//! portal, and that waiting is not done here. Here is what the loop does
//! with what it gets: which source it asks next, and which actions follow
//! from a command, from an event of the tunnel, and from a message of the
//! portal. Whoever runs the loop carries the actions out in their order.

use vstd::prelude::*;
use crate::messages::{
    ClientEvent, ClientPayload, Connect, ConnectionDetails, EgressMessages, ErrorReply, GatewayIceCandidates,
    GatewayResponse, GatewaysIceCandidates, IceParameters, IngressMessages, InitClient, Interface, Relay,
    RelaysPresence, ReplyMessages, RequestConnection, ResourceView, ReuseConnection,
};
use crate::ip_network::IpNetwork;
use crate::net::{IpAddr, SocketAddr};
use crate::resource::ResourceDescription;

verus! {

/// The topic under which the client talks to the portal.
pub open spec fn spec_phoenix_topic() -> Seq<char> {
    "client"@
}

/// The topic under which the client talks to the portal.
pub fn phoenix_topic() -> (topic: &'static str)
    ensures
        topic@ == spec_phoenix_topic(),
{
    "client"
}

/// Commands that can be sent to the event loop. `T` is the TUN device.
pub enum Command<T> {
    Stop,
    Reset,
    SetDns(Vec<IpAddr>),
    SetTun(T),
    SetDisabledResources(Vec<u128>),
}

/// What the event loop does next.
pub enum Action<T> {
    /// Tells the tunnel which resolvers the system uses.
    UpdateSystemResolvers(Vec<IpAddr>),
    /// Tells the tunnel which resources the user has switched off.
    SetDisabledResources(Vec<u128>),
    /// Hands the tunnel its TUN device.
    SetTun(T),
    /// Resets the tunnel.
    ResetTunnel,
    /// Connects to the portal anew, with the public key of the tunnel.
    ConnectPortal,
    /// Joins `topic` on the portal.
    JoinTopic(String),
    /// Sends `message` to the portal, under the client's topic.
    Send(EgressMessages),
    UpdateInterfaceConfig(Interface),
    SetResources(Vec<ResourceDescription>),
    /// Tells the tunnel which relays are gone and which are there.
    UpdateRelays { disconnected: Vec<u128>, connected: Vec<Relay> },
    AddIceCandidate { gateway_id: u128, candidate: String },
    RemoveIceCandidate { gateway_id: u128, candidate: String },
    AddResource(ResourceDescription),
    RemoveResource(u128),
    /// Hands the tunnel the answer of a gateway.
    AcceptAnswer { ice_parameters: IceParameters, resource_id: u128, gateway_public_key: [u8; 32] },
    /// Tells the tunnel where a resource is to be reached. What the tunnel
    /// makes of it comes back through [`handle_routing_details_result`].
    OnRoutingDetails { resource_id: u128, gateway_id: u128, site_id: u128 },
    /// Calls back with the resources to show.
    OnUpdateResources(Vec<ResourceView>),
    /// Calls back with the addresses of the interface and its resolvers.
    OnSetInterfaceConfig { ipv4: u32, ipv6: u128, dns_servers: Vec<IpAddr> },
    /// Calls back with the routes into the tunnel.
    OnUpdateRoutes { ipv4_routes: Vec<IpNetwork>, ipv6_routes: Vec<IpNetwork> },
}

/// The three things that the loop waits on, in the order in which it asks
/// them.
#[derive(Clone, Copy, Debug, PartialEq, Eq, Structural)]
pub enum Source {
    Commands,
    Tunnel,
    Portal,
}

/// What a source had when it was asked.
#[derive(Clone, Copy, Debug, PartialEq, Eq, Structural)]
pub enum Outcome {
    /// Something to act on.
    Ready,
    /// The source is gone, or failed for good: the queue of commands was
    /// dropped or has handed out a stop, or the portal gave up.
    Closed,
    /// A failure that passes: the tunnel would block, or stumbled.
    Failed,
    /// Nothing yet.
    Pending,
}

/// How the loop goes on after it has asked a source.
#[derive(Clone, Copy, Debug, PartialEq, Eq, Structural)]
pub enum Step {
    /// Act on what the source had, then start over with the commands.
    Handle,
    /// Ask this source next.
    Ask(Source),
    /// Leave the loop for good.
    Finish,
    /// Leave the loop until one of the sources wakes it.
    Yield,
}

/// How the loop goes on after `source` had `outcome`.
///
/// The commands come first, then the tunnel, then the portal. Whatever is
/// acted on, the loop starts over with the commands afterwards, so that a
/// command never waits behind traffic. The loop ends when the commands end
/// or the portal fails, and it rests only when all three have nothing.
pub open spec fn spec_step(source: Source, outcome: Outcome) -> Step {
    match (source, outcome) {
        (_, Outcome::Ready) => Step::Handle,
        (Source::Commands, Outcome::Closed) => Step::Finish,
        (Source::Commands, _) => Step::Ask(Source::Tunnel),
        (Source::Tunnel, Outcome::Pending) => Step::Ask(Source::Portal),
        (Source::Tunnel, _) => Step::Ask(Source::Commands),
        (Source::Portal, Outcome::Pending) => Step::Yield,
        (Source::Portal, _) => Step::Finish,
    }
}

/// How the loop goes on after `source` had `outcome`.
#[verifier::when_used_as_spec(spec_step)]
pub fn step(source: Source, outcome: Outcome) -> (next: Step)
    ensures
        next == spec_step(source, outcome),
{
    match (source, outcome) {
        (_, Outcome::Ready) => Step::Handle,
        (Source::Commands, Outcome::Closed) => Step::Finish,
        (Source::Commands, _) => Step::Ask(Source::Tunnel),
        (Source::Tunnel, Outcome::Pending) => Step::Ask(Source::Portal),
        (Source::Tunnel, _) => Step::Ask(Source::Commands),
        (Source::Portal, Outcome::Pending) => Step::Yield,
        (Source::Portal, _) => Step::Finish,
    }
}

/// The source that the loop asks after `source` had `outcome`: the one that
/// the step names, and the commands again after everything else.
pub open spec fn spec_next_source(source: Source, outcome: Outcome) -> Source {
    match spec_step(source, outcome) {
        Step::Ask(next) => next,
        _ => Source::Commands,
    }
}

/// Where the loop stands: which of its sources it asks next.
#[derive(Debug)]
pub struct Eventloop {
    asking: Source,
}

impl View for Eventloop {
    type V = Source;

    closed spec fn view(&self) -> Source {
        self.asking
    }
}

impl Eventloop {
    /// A loop that has not asked anything yet. The first thing to do for
    /// whoever runs it is to connect to the portal.
    pub fn new<T>() -> (r: (Self, Vec<Action<T>>))
        ensures
            r.0@ == Source::Commands,
            r.1@ == seq![Action::<T>::ConnectPortal],
    {
        (Eventloop { asking: Source::Commands }, one_action(Action::ConnectPortal))
    }

    /// The source to ask next.
    pub fn asking(&self) -> (source: Source)
        ensures
            source == self@,
    {
        self.asking
    }

    /// Takes what the source that was asked had, and returns how the loop
    /// goes on.
    pub fn poll(&mut self, outcome: Outcome) -> (next: Step)
        ensures
            next == spec_step(old(self)@, outcome),
            final(self)@ == spec_next_source(old(self)@, outcome),
    {
        let next = step(self.asking, outcome);
        self.asking = match next {
            Step::Ask(source) => source,
            _ => Source::Commands,
        };
        next
    }
}

/// Commands come before the tunnel and the tunnel before the portal: the
/// loop asks the tunnel only when the commands had nothing, asks the portal
/// only when the tunnel had nothing, and rests only when the portal had
/// nothing either.
pub proof fn lemma_priority_order(source: Source, outcome: Outcome)
    ensures
        spec_step(source, outcome) == Step::Ask(Source::Tunnel) ==> source == Source::Commands && outcome
            != Outcome::Ready,
        spec_step(source, outcome) == Step::Ask(Source::Portal) ==> source == Source::Tunnel && outcome
            == Outcome::Pending,
        spec_step(source, outcome) == Step::Yield ==> source == Source::Portal && outcome == Outcome::Pending,
        outcome == Outcome::Ready ==> spec_step(source, outcome) == Step::Handle,
{
}

/// What follows from a command.
pub open spec fn spec_handle_command<T>(command: Command<T>) -> Seq<Action<T>> {
    match command {
        Command::Stop => Seq::empty(),
        Command::Reset => seq![Action::ResetTunnel, Action::ConnectPortal],
        Command::SetDns(dns) => seq![Action::UpdateSystemResolvers(dns)],
        Command::SetTun(tun) => seq![Action::SetTun(tun)],
        Command::SetDisabledResources(resources) => seq![Action::SetDisabledResources(resources)],
    }
}

/// Whether a command ends the loop.
pub open spec fn spec_is_stop<T>(command: Command<T>) -> bool {
    command is Stop
}

/// Whether a command ends the loop.
pub fn is_stop<T>(command: &Command<T>) -> (stop: bool)
    ensures
        stop == spec_is_stop(*command),
{
    match command {
        Command::Stop => true,
        _ => false,
    }
}

/// What follows from a command.
pub fn handle_command<T>(command: Command<T>) -> (actions: Vec<Action<T>>)
    ensures
        actions@ == spec_handle_command(command),
{
    let mut actions: Vec<Action<T>> = Vec::new();
    match command {
        Command::Stop => {},
        Command::Reset => {
            actions.push(Action::ResetTunnel);
            actions.push(Action::ConnectPortal);
        },
        Command::SetDns(dns) => {
            actions.push(Action::UpdateSystemResolvers(dns));
        },
        Command::SetTun(tun) => {
            actions.push(Action::SetTun(tun));
        },
        Command::SetDisabledResources(resources) => {
            actions.push(Action::SetDisabledResources(resources));
        },
    }
    assert(actions@ =~= spec_handle_command(command));
    actions
}

/// The addresses under which the resolvers are shown to the system.
pub open spec fn spec_sentinels(dns_by_sentinel: Seq<(IpAddr, SocketAddr)>) -> Seq<IpAddr> {
    Seq::new(dns_by_sentinel.len(), |i: int| dns_by_sentinel[i].0)
}

/// Whether `actions` is what follows from `event`, an event of the tunnel.
///
/// Candidates and requests go to the portal. What concerns the device and
/// the resources goes to whoever embeds the client.
pub open spec fn spec_handle_tunnel_event<T>(event: ClientEvent, actions: Seq<Action<T>>) -> bool {
    match event {
        ClientEvent::AddedIceCandidates { conn_id, candidates } => {
            &&& actions.len() == 1
            &&& actions[0] matches Action::Send(EgressMessages::BroadcastIceCandidates(sent))
            &&& sent.gateway_ids@ == seq![conn_id]
            &&& sent.candidates == candidates
        },
        ClientEvent::RemovedIceCandidates { conn_id, candidates } => {
            &&& actions.len() == 1
            &&& actions[0] matches Action::Send(EgressMessages::BroadcastInvalidatedIceCandidates(sent))
            &&& sent.gateway_ids@ == seq![conn_id]
            &&& sent.candidates == candidates
        },
        ClientEvent::ConnectionIntent { resource, connected_gateway_ids } => actions == seq![
            Action::<T>::Send(EgressMessages::PrepareConnection { resource_id: resource, connected_gateway_ids }),
        ],
        ClientEvent::RequestAccess { resource_id, gateway_id, maybe_domain } => actions == seq![
            Action::<T>::Send(
                EgressMessages::ReuseConnection(ReuseConnection { resource_id, gateway_id, payload: maybe_domain }),
            ),
        ],
        ClientEvent::ResourcesChanged { resources } => actions == seq![Action::<T>::OnUpdateResources(resources)],
        ClientEvent::TunInterfaceUpdated(config) => {
            &&& actions.len() == 2
            &&& actions[0] matches Action::OnSetInterfaceConfig { ipv4, ipv6, dns_servers }
            &&& ipv4 == config.ip4
            &&& ipv6 == config.ip6
            &&& dns_servers@ == spec_sentinels(config.dns_by_sentinel@)
            &&& actions[1] == (Action::<T>::OnUpdateRoutes { ipv4_routes: config.ipv4_routes, ipv6_routes: config.ipv6_routes })
        },
        ClientEvent::RequestConnection { gateway_id, offer, preshared_key, resource_id, maybe_domain } => actions
            == seq![
            Action::<T>::Send(
                EgressMessages::RequestConnection(
                    RequestConnection {
                        gateway_id,
                        resource_id,
                        client_preshared_key: preshared_key,
                        client_payload: ClientPayload { ice_parameters: offer, domain: maybe_domain },
                    },
                ),
            ),
        ],
    }
}

fn one_action<T>(action: Action<T>) -> (actions: Vec<Action<T>>)
    ensures
        actions@ == seq![action],
{
    let mut actions: Vec<Action<T>> = Vec::new();
    actions.push(action);
    assert(actions@ =~= seq![action]);
    actions
}

fn one_id(id: u128) -> (ids: Vec<u128>)
    ensures
        ids@ == seq![id],
{
    let mut ids: Vec<u128> = Vec::new();
    ids.push(id);
    assert(ids@ =~= seq![id]);
    ids
}

fn sentinels(dns_by_sentinel: &Vec<(IpAddr, SocketAddr)>) -> (servers: Vec<IpAddr>)
    ensures
        servers@ == spec_sentinels(dns_by_sentinel@),
{
    let mut servers: Vec<IpAddr> = Vec::new();
    let mut i: usize = 0;
    while i < dns_by_sentinel.len()
        invariant
            i <= dns_by_sentinel@.len(),
            servers@.len() == i,
            forall|j: int| 0 <= j < i ==> servers@[j] == dns_by_sentinel@[j].0,
        decreases dns_by_sentinel@.len() - i,
    {
        servers.push(dns_by_sentinel[i].0);
        i += 1;
    }
    assert(servers@ =~= spec_sentinels(dns_by_sentinel@));
    servers
}

/// What follows from an event of the tunnel.
pub fn handle_tunnel_event<T>(event: ClientEvent) -> (actions: Vec<Action<T>>)
    ensures
        spec_handle_tunnel_event(event, actions@),
{
    match event {
        ClientEvent::AddedIceCandidates { conn_id, candidates } => one_action(
            Action::Send(
                EgressMessages::BroadcastIceCandidates(
                    GatewaysIceCandidates { gateway_ids: one_id(conn_id), candidates },
                ),
            ),
        ),
        ClientEvent::RemovedIceCandidates { conn_id, candidates } => one_action(
            Action::Send(
                EgressMessages::BroadcastInvalidatedIceCandidates(
                    GatewaysIceCandidates { gateway_ids: one_id(conn_id), candidates },
                ),
            ),
        ),
        ClientEvent::ConnectionIntent { resource, connected_gateway_ids } => one_action(
            Action::Send(EgressMessages::PrepareConnection { resource_id: resource, connected_gateway_ids }),
        ),
        ClientEvent::RequestAccess { resource_id, gateway_id, maybe_domain } => one_action(
            Action::Send(
                EgressMessages::ReuseConnection(ReuseConnection { resource_id, gateway_id, payload: maybe_domain }),
            ),
        ),
        ClientEvent::ResourcesChanged { resources } => one_action(Action::OnUpdateResources(resources)),
        ClientEvent::TunInterfaceUpdated(config) => {
            let dns_servers = sentinels(&config.dns_by_sentinel);
            let mut actions: Vec<Action<T>> = Vec::new();
            actions.push(Action::OnSetInterfaceConfig { ipv4: config.ip4, ipv6: config.ip6, dns_servers });
            actions.push(Action::OnUpdateRoutes { ipv4_routes: config.ipv4_routes, ipv6_routes: config.ipv6_routes });
            actions
        },
        ClientEvent::RequestConnection { gateway_id, offer, preshared_key, resource_id, maybe_domain } => one_action(
            Action::Send(
                EgressMessages::RequestConnection(
                    RequestConnection {
                        gateway_id,
                        resource_id,
                        client_preshared_key: preshared_key,
                        client_payload: ClientPayload { ice_parameters: offer, domain: maybe_domain },
                    },
                ),
            ),
        ),
    }
}

/// What the portal's channel hands to the loop.
#[derive(Debug)]
pub enum PortalEvent {
    InboundMessage(IngressMessages),
    SuccessResponse(ReplyMessages),
    /// The portal refused a request that was sent under `topic`.
    ErrorResponse { res: ErrorReply, topic: String },
    HeartbeatSent,
    JoinedRoom,
    /// The channel was closed from our side, which the client never does.
    Closed,
}

/// Whether `actions` is what follows from `candidates` of the gateway
/// `gateway_id`: one action for each, in their order, that adds it where
/// `add` says so and takes it away where not.
pub open spec fn spec_candidate_actions<T>(gateway_id: u128, candidates: Seq<String>, add: bool, actions: Seq<Action<T>>) -> bool {
    &&& actions.len() == candidates.len()
    &&& forall|i: int|
        0 <= i < candidates.len() ==> #[trigger] actions[i] == (if add {
            Action::<T>::AddIceCandidate { gateway_id, candidate: candidates[i] }
        } else {
            Action::<T>::RemoveIceCandidate { gateway_id, candidate: candidates[i] }
        })
}

fn candidate_actions<T>(gateway_id: u128, candidates: &Vec<String>, add: bool) -> (actions: Vec<Action<T>>)
    ensures
        spec_candidate_actions(gateway_id, candidates@, add, actions@),
{
    let mut actions: Vec<Action<T>> = Vec::new();
    let mut i: usize = 0;
    while i < candidates.len()
        invariant
            i <= candidates@.len(),
            spec_candidate_actions(gateway_id, candidates@.subrange(0, i as int), add, actions@),
        decreases candidates@.len() - i,
    {
        let candidate = candidates[i].clone();
        if add {
            actions.push(Action::AddIceCandidate { gateway_id, candidate });
        } else {
            actions.push(Action::RemoveIceCandidate { gateway_id, candidate });
        }
        i += 1;
    }
    assert(candidates@.subrange(0, i as int) =~= candidates@);
    actions
}

/// Whether `actions` is what follows from `message`, a message of the
/// portal.
///
/// The first message after connecting sets up the interface, the resources
/// and the relays, in that order. Every other message changes one of them,
/// or adds or takes away the candidates of a gateway one by one.
pub open spec fn spec_handle_portal_inbound_message<T>(message: IngressMessages, actions: Seq<Action<T>>) -> bool {
    match message {
        IngressMessages::ConfigChanged(interface) => actions == seq![Action::<T>::UpdateInterfaceConfig(interface)],
        IngressMessages::IceCandidates(GatewayIceCandidates { gateway_id, candidates }) => spec_candidate_actions(
            gateway_id,
            candidates@,
            true,
            actions,
        ),
        IngressMessages::Init(InitClient { interface, resources, relays }) => {
            &&& actions.len() == 3
            &&& actions[0] == Action::<T>::UpdateInterfaceConfig(interface)
            &&& actions[1] == Action::<T>::SetResources(resources)
            &&& actions[2] matches Action::UpdateRelays { disconnected, connected }
            &&& disconnected@.len() == 0
            &&& connected == relays
        },
        IngressMessages::ResourceCreatedOrUpdated(resource) => actions == seq![Action::<T>::AddResource(resource)],
        IngressMessages::ResourceDeleted(resource_id) => actions == seq![Action::<T>::RemoveResource(resource_id)],
        IngressMessages::RelaysPresence(RelaysPresence { disconnected_ids, connected }) => actions == seq![
            Action::<T>::UpdateRelays { disconnected: disconnected_ids, connected },
        ],
        IngressMessages::InvalidateIceCandidates(GatewayIceCandidates { gateway_id, candidates }) => spec_candidate_actions(
            gateway_id,
            candidates@,
            false,
            actions,
        ),
    }
}

/// What follows from a message of the portal.
pub fn handle_portal_inbound_message<T>(message: IngressMessages) -> (actions: Vec<Action<T>>)
    ensures
        spec_handle_portal_inbound_message(message, actions@),
{
    match message {
        IngressMessages::ConfigChanged(interface) => one_action(Action::UpdateInterfaceConfig(interface)),
        IngressMessages::IceCandidates(GatewayIceCandidates { gateway_id, candidates }) => candidate_actions(
            gateway_id,
            &candidates,
            true,
        ),
        IngressMessages::Init(InitClient { interface, resources, relays }) => {
            let mut actions: Vec<Action<T>> = Vec::new();
            actions.push(Action::UpdateInterfaceConfig(interface));
            actions.push(Action::SetResources(resources));
            actions.push(Action::UpdateRelays { disconnected: Vec::new(), connected: relays });
            actions
        },
        IngressMessages::ResourceCreatedOrUpdated(resource) => one_action(Action::AddResource(resource)),
        IngressMessages::ResourceDeleted(resource_id) => one_action(Action::RemoveResource(resource_id)),
        IngressMessages::RelaysPresence(RelaysPresence { disconnected_ids, connected }) => one_action(
            Action::UpdateRelays { disconnected: disconnected_ids, connected },
        ),
        IngressMessages::InvalidateIceCandidates(GatewayIceCandidates { gateway_id, candidates }) => candidate_actions(
            gateway_id,
            &candidates,
            false,
        ),
    }
}

/// What follows from an answer of the portal.
///
/// An accepted connection hands the gateway's answer to the tunnel, and the
/// details of a connection tell the tunnel where the resource is. The
/// answer that only accepts a resource is of an older protocol and is
/// passed over.
pub open spec fn spec_handle_portal_success_reply<T>(reply: ReplyMessages) -> Seq<Action<T>> {
    match reply {
        ReplyMessages::Connect(
            Connect { gateway_payload: GatewayResponse::ConnectionAccepted { ice_parameters }, gateway_public_key, resource_id },
        ) => seq![Action::AcceptAnswer { ice_parameters, resource_id, gateway_public_key }],
        ReplyMessages::Connect(Connect { gateway_payload: GatewayResponse::ResourceAccepted, .. }) => Seq::empty(),
        ReplyMessages::ConnectionDetails(ConnectionDetails { gateway_id, resource_id, site_id }) => seq![
            Action::OnRoutingDetails { resource_id, gateway_id, site_id },
        ],
    }
}

/// What follows from an answer of the portal.
pub fn handle_portal_success_reply<T>(reply: ReplyMessages) -> (actions: Vec<Action<T>>)
    ensures
        actions@ == spec_handle_portal_success_reply::<T>(reply),
{
    match reply {
        ReplyMessages::Connect(
            Connect { gateway_payload: GatewayResponse::ConnectionAccepted { ice_parameters }, gateway_public_key, resource_id },
        ) => one_action(Action::AcceptAnswer { ice_parameters, resource_id, gateway_public_key }),
        ReplyMessages::Connect(Connect { gateway_payload: GatewayResponse::ResourceAccepted, .. }) => Vec::new(),
        ReplyMessages::ConnectionDetails(ConnectionDetails { gateway_id, resource_id, site_id }) => one_action(
            Action::OnRoutingDetails { resource_id, gateway_id, site_id },
        ),
    }
}

/// What the tunnel made of the details of a connection.
#[derive(Clone, Copy, Debug, PartialEq, Eq, Structural)]
pub enum RoutingDetailsResult {
    Accepted,
    /// The tunnel knows no relay to go through.
    NoTurnServers,
    Failed,
}

/// What follows from what the tunnel made of the details of a connection:
/// a tunnel without relays has the client connect to the portal anew, which
/// brings a fresh list of relays.
pub open spec fn spec_handle_routing_details_result<T>(result: RoutingDetailsResult) -> Seq<Action<T>> {
    match result {
        RoutingDetailsResult::NoTurnServers => seq![Action::ConnectPortal],
        _ => Seq::empty(),
    }
}

/// What follows from what the tunnel made of the details of a connection.
pub fn handle_routing_details_result<T>(result: RoutingDetailsResult) -> (actions: Vec<Action<T>>)
    ensures
        actions@ == spec_handle_routing_details_result::<T>(result),
{
    match result {
        RoutingDetailsResult::NoTurnServers => one_action(Action::ConnectPortal),
        _ => Vec::new(),
    }
}

/// What follows from a refusal of the portal: a request under a topic that
/// the portal does not know has the client join that topic; every other
/// refusal is only noted.
pub open spec fn spec_handle_portal_error_reply<T>(res: ErrorReply, topic: String) -> Seq<Action<T>> {
    match res {
        ErrorReply::UnmatchedTopic => seq![Action::JoinTopic(topic)],
        _ => Seq::empty(),
    }
}

/// What follows from a refusal of the portal.
pub fn handle_portal_error_reply<T>(res: ErrorReply, topic: String) -> (actions: Vec<Action<T>>)
    ensures
        actions@ == spec_handle_portal_error_reply::<T>(res, topic),
{
    match res {
        ErrorReply::UnmatchedTopic => one_action(Action::JoinTopic(topic)),
        _ => Vec::new(),
    }
}

/// Whether `actions` is what follows from `event`, an event of the portal's
/// channel.
pub open spec fn spec_handle_portal_event<T>(event: PortalEvent, actions: Seq<Action<T>>) -> bool {
    match event {
        PortalEvent::InboundMessage(message) => spec_handle_portal_inbound_message(message, actions),
        PortalEvent::SuccessResponse(reply) => actions == spec_handle_portal_success_reply::<T>(reply),
        PortalEvent::ErrorResponse { res, topic } => actions == spec_handle_portal_error_reply::<T>(res, topic),
        _ => actions.len() == 0,
    }
}

/// What follows from an event of the portal's channel.
///
/// Nothing follows from a heartbeat, from a room that was joined, or from a
/// channel that was closed: the client never closes the channel itself, and
/// bringing it back is the transport's business.
pub fn handle_portal_event<T>(event: PortalEvent) -> (actions: Vec<Action<T>>)
    ensures
        spec_handle_portal_event(event, actions@),
{
    match event {
        PortalEvent::InboundMessage(message) => handle_portal_inbound_message(message),
        PortalEvent::SuccessResponse(reply) => handle_portal_success_reply(reply),
        PortalEvent::ErrorResponse { res, topic } => handle_portal_error_reply(res, topic),
        _ => Vec::new(),
    }
}

} // verus!
