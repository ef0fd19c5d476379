//! One peer of the tunnel: its WireGuard session, the addresses it may use,
//! and, on a gateway, the resources it may reach.
//!
//! The session is the WireGuard implementation's business. What is proved
//! here is everything around it: which packets pass, where they are sent on
//! to, and how their addresses are rewritten on the way.

use std::collections::BTreeMap;
use std::sync::Arc;
use boringtun::noise::errors::WireGuardError;
use boringtun::noise::rate_limiter::RateLimiter;
use boringtun::noise::Tunn;
use ip_network_table::IpNetworkTable;
use vstd::prelude::*;
use crate::allowed_ips;
use crate::allowed_ips::networks;
use crate::ip_network::IpNetwork;
use crate::ip_packet::{spec_destination, spec_set_destination, spec_set_source, spec_source, spec_update_checksum, spec_version, IpPacket};
use crate::net::IpAddr;
use crate::ordered_keys::{ipv4_keys, ipv6_keys};
use crate::resource::{ResourceDescription, ResourceDescriptionDns};
use crate::resource_table::{
    is_best_match, spec_expired_ids, spec_get_by_id, spec_get_by_ip, spec_insert, spec_unexpired, ExpiringResource,
    ResourceTable,
};
use crate::tunnel;
use crate::tunnel::{TunnelOutput, DATA_OVERHEAD, MAX_UDP_SIZE};

verus! {

broadcast use {vstd::std_specs::btree::group_btree_axioms, vstd::laws_cmp::group_laws_cmp};

/// Why a packet did not pass.
#[derive(Debug)]
pub enum Error {
    /// The translation table names a resource that is not reached by name.
    ControlProtocolError,
    /// What came out of the tunnel is no IP packet.
    BadPacket,
    /// The packet is for an address outside the resource's range.
    InvalidSource,
    /// The resource has no address of the packet's family.
    InvalidResource,
    /// The tunnel refused to go on.
    WireGuard(WireGuardError),
}

/// What is agreed with a peer.
#[derive(Debug)]
pub struct PeerConfig {
    /// The seconds between keepalives, where any are to be sent.
    pub persistent_keepalive: Option<u16>,
    pub public_key: [u8; 32],
    /// The networks that the peer may send from.
    pub ips: Vec<IpNetwork>,
    pub preshared_key: [u8; 32],
}

/// Where a packet that came out of the tunnel goes.
#[derive(Debug)]
pub enum WriteTo {
    /// Back to the peer: the bytes belong to the handshake.
    Network(Vec<u8>),
    /// To the TUN device: the packet is for a resource.
    Resource(IpPacket),
}

/// A [`WriteTo`], as a value.
pub enum WriteToView {
    Network(Seq<u8>),
    Resource(Seq<u8>),
}

impl View for WriteTo {
    type V = WriteToView;

    open spec fn view(&self) -> WriteToView {
        match *self {
            WriteTo::Network(bytes) => WriteToView::Network(bytes@),
            WriteTo::Resource(packet) => WriteToView::Resource(packet@),
        }
    }
}

/// What a datagram from a peer came to.
#[derive(Debug)]
pub enum Decapsulated {
    /// Nothing is to be done: the datagram was a keepalive, or was dropped.
    Nothing,
    Write(WriteTo),
    /// The packet is for a resource that is reached by name. Once the name
    /// is resolved, [`Peer::translate`] sends the packet on.
    Resolve {
        packet: IpPacket,
        resource: ResourceDescriptionDns,
        /// The address of the peer inside the tunnel.
        peer_addr: IpAddr,
    },
}

/// A [`Decapsulated`], as a value.
pub enum DecapsulatedView {
    Nothing,
    Write(WriteToView),
    Resolve { packet: Seq<u8>, resource: ResourceDescriptionDns, peer_addr: IpAddr },
}

impl View for Decapsulated {
    type V = DecapsulatedView;

    open spec fn view(&self) -> DecapsulatedView {
        match *self {
            Decapsulated::Nothing => DecapsulatedView::Nothing,
            Decapsulated::Write(w) => DecapsulatedView::Write(w@),
            Decapsulated::Resolve { packet, resource, peer_addr } => DecapsulatedView::Resolve {
                packet: packet@,
                resource,
                peer_addr,
            },
        }
    }
}

/// What a peer holds, for the logs.
#[derive(Debug)]
pub struct PeerStats {
    pub allowed_ips: Vec<IpNetwork>,
    pub resources: Vec<ExpiringResource>,
    pub translated_resource_addresses: Vec<(IpAddr, u128)>,
}

/// What a peer holds beside its session.
pub struct PeerView {
    /// The networks that the peer may send from.
    pub allowed_ips: Set<IpNetwork>,
    /// The resources that the peer may reach; `None` on a client, where the
    /// peer is a gateway.
    pub resources: Option<Seq<ExpiringResource>>,
    /// The addresses that names were resolved to, each with the id of the
    /// resource of that name.
    pub translated: Map<IpAddr, u128>,
}

/// A peer of the tunnel.
pub struct Peer {
    tunnel: Tunn,
    allowed_ips: IpNetworkTable<()>,
    resources: Option<ResourceTable>,
    translated_v4: BTreeMap<u32, u128>,
    translated_v6: BTreeMap<u128, u128>,
    buf: Vec<u8>,
}

/// The translations of both families as one map.
pub open spec fn spec_translated(v4: Map<u32, u128>, v6: Map<u128, u128>) -> Map<IpAddr, u128> {
    Map::new(
        |ip: IpAddr|
            match ip {
                IpAddr::V4(bits) => v4.contains_key(bits),
                IpAddr::V6(bits) => v6.contains_key(bits),
            },
        |ip: IpAddr|
            match ip {
                IpAddr::V4(bits) => v4[bits],
                IpAddr::V6(bits) => v6[bits],
            },
    )
}

/// `translated` without the addresses of the resource `id`.
pub open spec fn spec_without_resource(translated: Map<IpAddr, u128>, id: u128) -> Map<IpAddr, u128> {
    Map::new(|ip: IpAddr| translated.contains_key(ip) && translated[ip] != id, |ip: IpAddr| translated[ip])
}

/// `translated` without the addresses of the first `count` resources of `ids`.
pub open spec fn spec_without_resources(translated: Map<IpAddr, u128>, ids: Seq<u128>, count: int) -> Map<
    IpAddr,
    u128,
>
    decreases count,
{
    if count <= 0 {
        translated
    } else {
        spec_without_resource(spec_without_resources(translated, ids, count - 1), ids[count - 1])
    }
}

/// The first of `resolved` that is of the family of `peer_addr`.
pub open spec fn spec_first_of_family(resolved: Seq<IpAddr>, peer_addr: IpAddr) -> Option<IpAddr>
    decreases resolved.len(),
{
    if resolved.len() == 0 {
        None
    } else if resolved[0].spec_is_ipv4() == peer_addr.spec_is_ipv4() {
        Some(resolved[0])
    } else {
        spec_first_of_family(resolved.drop_first(), peer_addr)
    }
}

/// `ip`, where it is of the family of `addr`.
pub open spec fn spec_matching_version_ip(addr: IpAddr, ip: IpAddr) -> Option<IpAddr> {
    if addr.spec_is_ipv4() == ip.spec_is_ipv4() {
        Some(ip)
    } else {
        None
    }
}

/// `ip`, where it is of the family of `addr`.
pub fn get_matching_version_ip(addr: IpAddr, ip: IpAddr) -> (matching: Option<IpAddr>)
    ensures
        matching == spec_matching_version_ip(addr, ip),
{
    if addr.is_ipv4() == ip.is_ipv4() {
        Some(ip)
    } else {
        None
    }
}

/// What was wrapped for the network: the bytes to send, if there are any.
pub open spec fn spec_sealed(output: TunnelOutput) -> Result<Option<Seq<u8>>, Error> {
    match output {
        TunnelOutput::Failed(e) => Err(Error::WireGuard(e)),
        TunnelOutput::WriteToNetwork(bytes) => Ok(Some(bytes@)),
        _ => Ok(None),
    }
}

impl PeerView {
    /// Whether the peer may send from `ip`.
    pub open spec fn is_allowed(self, ip: IpAddr) -> bool {
        exists|network: IpNetwork| #[trigger] self.allowed_ips.contains(network) && network.spec_contains(ip)
    }

    /// The resource whose name was resolved to `ip`.
    pub open spec fn get_translation(self, ip: IpAddr) -> Option<ResourceDescription> {
        if self.translated.contains_key(ip) && self.resources is Some {
            match spec_get_by_id(self.resources.unwrap(), self.translated[ip]) {
                Some(entry) => Some(entry.resource),
                None => None,
            }
        } else {
            None
        }
    }

    /// The packet as it enters the tunnel.
    ///
    /// A packet that comes from an address to which the name of a resource
    /// was resolved is made to come from the address that stands for that
    /// resource inside the tunnel.
    pub open spec fn outbound(self, packet: Seq<u8>) -> Result<Seq<u8>, Error> {
        match self.get_translation(spec_source(packet)) {
            None => Ok(packet),
            Some(ResourceDescription::Cidr(_)) => Err(Error::ControlProtocolError),
            Some(ResourceDescription::Dns(resource)) => {
                let source = match spec_source(packet) {
                    IpAddr::V4(_) => IpAddr::V4(resource.ipv4),
                    IpAddr::V6(_) => IpAddr::V6(resource.ipv6),
                };
                Ok(spec_update_checksum(spec_set_source(packet, source)))
            },
        }
    }

    /// Where a packet goes that came out of the tunnel, from the peer at
    /// `peer_addr` inside the tunnel.
    ///
    /// A packet from an address that the peer may not use is dropped. On a
    /// client every other packet passes. On a gateway the packet has to be
    /// for a resource of the peer: where that resource is reached by name,
    /// the name is to be resolved first; where it is a range, the packet
    /// passes as it is, with its checksums brought up to date.
    pub open spec fn routed(self, packet: Seq<u8>, peer_addr: IpAddr) -> Result<DecapsulatedView, Error> {
        if !self.is_allowed(peer_addr) {
            Ok(DecapsulatedView::Nothing)
        } else if spec_version(packet) is None {
            Err(Error::BadPacket)
        } else {
            match self.resources {
                None => Ok(DecapsulatedView::Write(WriteToView::Resource(packet))),
                Some(resources) => match spec_get_by_ip(resources, spec_destination(packet)) {
                    None => Ok(DecapsulatedView::Nothing),
                    Some(entry) => match entry.resource {
                        ResourceDescription::Dns(resource) => Ok(
                            DecapsulatedView::Resolve { packet, resource, peer_addr },
                        ),
                        ResourceDescription::Cidr(resource) => if !resource.address.spec_contains(
                            spec_destination(packet),
                        ) {
                            Err(Error::InvalidSource)
                        } else {
                            match spec_matching_version_ip(peer_addr, spec_destination(packet)) {
                                None => Err(Error::InvalidResource),
                                Some(dst) => Ok(
                                    DecapsulatedView::Write(
                                        WriteToView::Resource(
                                            spec_update_checksum(spec_set_destination(packet, dst)),
                                        ),
                                    ),
                                ),
                            }
                        },
                    },
                },
            }
        }
    }

    /// What the output of the tunnel for a datagram comes to.
    pub open spec fn inbound(self, output: TunnelOutput) -> Result<DecapsulatedView, Error> {
        match output {
            TunnelOutput::Done => Ok(DecapsulatedView::Nothing),
            TunnelOutput::Failed(e) => Err(Error::WireGuard(e)),
            TunnelOutput::WriteToNetwork(bytes) => Ok(DecapsulatedView::Write(WriteToView::Network(bytes@))),
            TunnelOutput::WriteToTunnelV4(packet, addr) => self.routed(packet@, IpAddr::V4(addr)),
            TunnelOutput::WriteToTunnelV6(packet, addr) => self.routed(packet@, IpAddr::V6(addr)),
        }
    }

    /// The peer after `translate`, and where the packet goes.
    ///
    /// The packet is sent on to the first of the resolved addresses that is
    /// of the family of the peer's own address, and that address is noted
    /// as one of the resource.
    pub open spec fn translate(self, packet: Seq<u8>, resource_id: u128, peer_addr: IpAddr, resolved: Seq<IpAddr>) -> (
        PeerView,
        Result<WriteToView, Error>,
    ) {
        match spec_first_of_family(resolved, peer_addr) {
            None => (self, Err(Error::InvalidResource)),
            Some(dst) => (
                PeerView { translated: self.translated.insert(dst, resource_id), ..self },
                Ok(WriteToView::Resource(spec_update_checksum(spec_set_destination(packet, dst)))),
            ),
        }
    }

    /// The peer after `add_resource`: only a peer with resources takes more.
    pub open spec fn add_resource(self, resource: ResourceDescription, expires_at: i64) -> PeerView {
        match self.resources {
            Some(resources) => PeerView {
                resources: Some(spec_insert(resources, ExpiringResource { resource, expires_at })),
                ..self
            },
            None => self,
        }
    }

    /// The peer after `expire_resources`: the resources to which access has
    /// ended are gone, and with them the addresses that their names were
    /// resolved to.
    pub open spec fn expire_resources(self, now: i64) -> PeerView {
        match self.resources {
            Some(resources) => {
                let expired = spec_expired_ids(resources, now, resources.len() as int);
                PeerView {
                    resources: Some(spec_unexpired(resources, now, resources.len() as int)),
                    translated: spec_without_resources(self.translated, expired, expired.len() as int),
                    ..self
                }
            },
            None => self,
        }
    }

    /// Whether the peer had resources and has none left.
    pub open spec fn is_emptied(self) -> bool {
        self.resources matches Some(resources) && resources.len() == 0
    }
}

impl View for Peer {
    type V = PeerView;

    closed spec fn view(&self) -> PeerView {
        PeerView {
            allowed_ips: networks(self.allowed_ips),
            resources: match self.resources {
                Some(table) => Some(table@),
                None => None,
            },
            translated: spec_translated(self.translated_v4@, self.translated_v6@),
        }
    }
}

impl Peer {
    /// The scratch space has its size, and the resources are in order.
    pub closed spec fn wf(&self) -> bool {
        &&& self.buf@.len() == MAX_UDP_SIZE
        &&& self.resources matches Some(table) ==> table.wf()
    }

    /// Makes the peer that stands for a gateway, on a client.
    pub fn gateway_on_client(private_key: [u8; 32], index: u32, peer_config: PeerConfig, rate_limiter: Arc<RateLimiter>) -> (peer:
        Peer)
        requires
            forall|i: int| 0 <= i < peer_config.ips@.len() ==> (#[trigger] peer_config.ips@[i]).wf(),
        ensures
            peer.wf(),
            peer@.allowed_ips == peer_config.ips@.to_set(),
            peer@.resources is None,
            peer@.translated == Map::<IpAddr, u128>::empty(),
    {
        Self::new(private_key, index, peer_config, None, rate_limiter)
    }

    /// Makes the peer that stands for a client, on a gateway; the client may
    /// reach `resource` until `expires_at`.
    pub fn client_on_gateway(
        private_key: [u8; 32],
        index: u32,
        peer_config: PeerConfig,
        resource: ResourceDescription,
        expires_at: i64,
        rate_limiter: Arc<RateLimiter>,
    ) -> (peer: Peer)
        requires
            forall|i: int| 0 <= i < peer_config.ips@.len() ==> (#[trigger] peer_config.ips@[i]).wf(),
        ensures
            peer.wf(),
            peer@.allowed_ips == peer_config.ips@.to_set(),
            peer@.resources == Some(seq![ExpiringResource { resource, expires_at }]),
            peer@.translated == Map::<IpAddr, u128>::empty(),
    {
        Self::new(private_key, index, peer_config, Some((resource, expires_at)), rate_limiter)
    }

    fn new(
        private_key: [u8; 32],
        index: u32,
        peer_config: PeerConfig,
        resource: Option<(ResourceDescription, i64)>,
        rate_limiter: Arc<RateLimiter>,
    ) -> (peer: Peer)
        requires
            forall|i: int| 0 <= i < peer_config.ips@.len() ==> (#[trigger] peer_config.ips@[i]).wf(),
        ensures
            peer.wf(),
            peer@.allowed_ips == peer_config.ips@.to_set(),
            peer@.resources == (match resource {
                Some((resource, expires_at)) => Some(seq![ExpiringResource { resource, expires_at }]),
                None => None,
            }),
            peer@.translated == Map::<IpAddr, u128>::empty(),
    {
        let tunnel = tunnel::new_tunnel(
            private_key,
            peer_config.public_key,
            peer_config.preshared_key,
            peer_config.persistent_keepalive,
            index,
            rate_limiter,
        );
        let mut allowed_ips = allowed_ips::new_table();
        let mut i: usize = 0;
        while i < peer_config.ips.len()
            invariant
                i <= peer_config.ips@.len(),
                forall|j: int| 0 <= j < peer_config.ips@.len() ==> (#[trigger] peer_config.ips@[j]).wf(),
                networks(allowed_ips) == peer_config.ips@.subrange(0, i as int).to_set(),
            decreases peer_config.ips@.len() - i,
        {
            allowed_ips::insert(&mut allowed_ips, peer_config.ips[i]);
            proof {
                let before = peer_config.ips@.subrange(0, i as int);
                let after = peer_config.ips@.subrange(0, i + 1);
                assert(after =~= before.push(peer_config.ips@[i as int]));
                assert(after.to_set() =~= before.to_set().insert(peer_config.ips@[i as int])) by {
                    assert forall|n: IpNetwork| after.to_set().contains(n) <==> before.to_set().insert(
                        peer_config.ips@[i as int],
                    ).contains(n) by {
                        if before.contains(n) {
                            let k = choose|k: int| 0 <= k < before.len() && before[k] == n;
                            assert(after[k] == n);
                        }
                        if after.contains(n) {
                            let k = choose|k: int| 0 <= k < after.len() && after[k] == n;
                            if k < before.len() {
                                assert(before[k] == n);
                            }
                        }
                        assert(after[i as int] == peer_config.ips@[i as int]);
                    }
                }
            }
            i += 1;
        }
        assert(peer_config.ips@.subrange(0, i as int) =~= peer_config.ips@);
        let resources = match resource {
            Some((resource, expires_at)) => {
                let mut table = ResourceTable::new();
                table.insert(resource, expires_at);
                proof {
                    assert(crate::resource_table::spec_position(Seq::<ExpiringResource>::empty(), resource.spec_id())
                        is None);
                    assert(table@ =~= seq![ExpiringResource { resource, expires_at }]);
                }
                Some(table)
            },
            None => None,
        };
        let peer = Peer {
            tunnel,
            allowed_ips,
            resources,
            translated_v4: BTreeMap::new(),
            translated_v6: BTreeMap::new(),
            buf: scratch_space(),
        };
        assert(peer@.translated =~= Map::<IpAddr, u128>::empty());
        peer
    }

    /// Lets the peer send from the addresses of `network` too.
    pub fn add_allowed_ip(&mut self, network: IpNetwork)
        requires
            old(self).wf(),
            network.wf(),
        ensures
            final(self).wf(),
            final(self)@ == (PeerView { allowed_ips: old(self)@.allowed_ips.insert(network), ..old(self)@ }),
    {
        allowed_ips::insert(&mut self.allowed_ips, network);
    }

    /// Whether the peer may send from `addr`.
    pub fn is_allowed(&self, addr: IpAddr) -> (allowed: bool)
        ensures
            allowed == self@.is_allowed(addr),
    {
        match allowed_ips::longest_match(&self.allowed_ips, addr) {
            Some(network) => {
                assert(self@.allowed_ips.contains(network));
                true
            },
            None => false,
        }
    }

    /// Whether the peer had resources and has none left, so that it can go.
    pub fn is_emptied(&self) -> (emptied: bool)
        ensures
            emptied == self@.is_emptied(),
    {
        match &self.resources {
            Some(table) => table.is_empty(),
            None => false,
        }
    }

    /// Lets the peer reach `resource` until `expires_at`. A peer without
    /// resources, as a gateway is on a client, takes none.
    pub fn add_resource(&mut self, resource: ResourceDescription, expires_at: i64)
        requires
            old(self).wf(),
        ensures
            final(self).wf(),
            final(self)@ == old(self)@.add_resource(resource, expires_at),
    {
        match self.resources.take() {
            Some(mut table) => {
                table.insert(resource, expires_at);
                self.resources = Some(table);
            },
            None => {},
        }
    }

    /// The id of the resource whose name was resolved to `ip`.
    fn translated_id(&self, ip: IpAddr) -> (id: Option<u128>)
        ensures
            id == (if self@.translated.contains_key(ip) {
                Some(self@.translated[ip])
            } else {
                None
            }),
    {
        match ip {
            IpAddr::V4(bits) => match self.translated_v4.get(&bits) {
                Some(id) => Some(*id),
                None => None,
            },
            IpAddr::V6(bits) => match self.translated_v6.get(&bits) {
                Some(id) => Some(*id),
                None => None,
            },
        }
    }

    /// The resource whose name was resolved to `ip`.
    pub fn get_translation(&self, ip: IpAddr) -> (resource: Option<ResourceDescription>)
        requires
            self.wf(),
        ensures
            resource == self@.get_translation(ip),
    {
        let id = match self.translated_id(ip) {
            Some(id) => id,
            None => {
                return None;
            },
        };
        match &self.resources {
            Some(table) => match table.get_by_id(id) {
                Some(entry) => Some(entry.resource.duplicate()),
                None => None,
            },
            None => None,
        }
    }

    /// Forgets the addresses that the name of the resource `id` was resolved
    /// to.
    fn forget_translations(&mut self, id: u128)
        requires
            old(self).wf(),
        ensures
            final(self).wf(),
            final(self)@ == (PeerView { translated: spec_without_resource(old(self)@.translated, id), ..old(self)@ }),
    {
        let keys = ipv4_keys(&self.translated_v4);
        let mut i: usize = 0;
        while i < keys.len()
            invariant
                i <= keys.len(),
                self.wf(),
                self.allowed_ips == old(self).allowed_ips,
                self.resources == old(self).resources,
                self.translated_v6 == old(self).translated_v6,
                forall|a: int, b: int| 0 <= a < b < keys.len() ==> keys[a] != keys[b],
                forall|k: u32| #[trigger] old(self).translated_v4@.contains_key(k) <==> keys@.contains(k),
                forall|k: u32| #[trigger]
                    self.translated_v4@.contains_key(k) <==> old(self).translated_v4@.contains_key(k) && !(exists|
                        j: int,
                    |
                        0 <= j < i && keys[j] == k && old(self).translated_v4@[k] == id),
                forall|k: u32| #[trigger]
                    self.translated_v4@.contains_key(k) ==> self.translated_v4@[k] == old(self).translated_v4@[k],
            decreases keys.len() - i,
        {
            let key = keys[i];
            assert(keys@.contains(key));
            let matches = match self.translated_v4.get(&key) {
                Some(mapped) => *mapped == id,
                None => false,
            };
            if matches {
                let _ = self.translated_v4.remove(&key);
            }
            i += 1;
        }
        let keys6 = ipv6_keys(&self.translated_v6);
        let ghost v4_done = self.translated_v4@;
        assert forall|k: u32| #[trigger] v4_done.contains_key(k) <==> old(self).translated_v4@.contains_key(k)
            && old(self).translated_v4@[k] != id by {
            if old(self).translated_v4@.contains_key(k) {
                assert(keys@.contains(k));
                let j = choose|j: int| 0 <= j < keys.len() && keys[j] == k;
                assert(0 <= j < i && keys[j] == k);
            }
        }
        let mut i: usize = 0;
        while i < keys6.len()
            invariant
                i <= keys6.len(),
                self.wf(),
                self.allowed_ips == old(self).allowed_ips,
                self.resources == old(self).resources,
                self.translated_v4@ == v4_done,
                forall|a: int, b: int| 0 <= a < b < keys6.len() ==> keys6[a] != keys6[b],
                forall|k: u128| #[trigger] old(self).translated_v6@.contains_key(k) <==> keys6@.contains(k),
                forall|k: u128| #[trigger]
                    self.translated_v6@.contains_key(k) <==> old(self).translated_v6@.contains_key(k) && !(exists|
                        j: int,
                    |
                        0 <= j < i && keys6[j] == k && old(self).translated_v6@[k] == id),
                forall|k: u128| #[trigger]
                    self.translated_v6@.contains_key(k) ==> self.translated_v6@[k] == old(self).translated_v6@[k],
            decreases keys6.len() - i,
        {
            let key = keys6[i];
            assert(keys6@.contains(key));
            let matches = match self.translated_v6.get(&key) {
                Some(mapped) => *mapped == id,
                None => false,
            };
            if matches {
                let _ = self.translated_v6.remove(&key);
            }
            i += 1;
        }
        proof {
            assert forall|k: u128| #[trigger] self.translated_v6@.contains_key(k) <==> old(
                self,
            ).translated_v6@.contains_key(k) && old(self).translated_v6@[k] != id by {
                if old(self).translated_v6@.contains_key(k) {
                    assert(keys6@.contains(k));
                    let j = choose|j: int| 0 <= j < keys6.len() && keys6[j] == k;
                    assert(0 <= j < i && keys6[j] == k);
                }
            }
            assert(self@.translated =~= spec_without_resource(old(self)@.translated, id));
        }
    }

    /// Ends access to every resource whose time is over at `now`, in seconds
    /// since the Unix epoch.
    pub fn expire_resources(&mut self, now: i64)
        requires
            old(self).wf(),
        ensures
            final(self).wf(),
            final(self)@ == old(self)@.expire_resources(now),
    {
        let expired = match self.resources.take() {
            Some(mut table) => {
                let expired = table.expire_before(now);
                self.resources = Some(table);
                expired
            },
            None => {
                return ;
            },
        };
        let ghost start = self@;
        let mut i: usize = 0;
        while i < expired.len()
            invariant
                i <= expired.len(),
                self.wf(),
                self@ == (PeerView {
                    translated: spec_without_resources(start.translated, expired@, i as int),
                    ..start
                }),
            decreases expired.len() - i,
        {
            self.forget_translations(expired[i]);
            i += 1;
        }
    }

    /// What the peer holds, for the logs.
    pub fn stats(&self) -> (stats: PeerStats)
        requires
            self.wf(),
        ensures
            stats.allowed_ips@.to_set() == self@.allowed_ips,
            stats.resources@ == (match self@.resources {
                Some(resources) => resources,
                None => Seq::<ExpiringResource>::empty(),
            }),
            stats.translated_resource_addresses@.to_set() == Set::new(
                |pair: (IpAddr, u128)| self@.translated.contains_key(pair.0) && self@.translated[pair.0] == pair.1,
            ),
    {
        let allowed_ips = allowed_ips::all_networks(&self.allowed_ips);
        let mut resources: Vec<ExpiringResource> = Vec::new();
        match &self.resources {
            Some(table) => {
                let mut i: usize = 0;
                while i < table.len()
                    invariant
                        i <= table@.len(),
                        resources@ == table@.subrange(0, i as int),
                    decreases table@.len() - i,
                {
                    match table.get(i) {
                        Some(entry) => {
                            resources.push(entry.duplicate());
                            assert(resources@ =~= table@.subrange(0, i + 1));
                        },
                        None => {},
                    }
                    i += 1;
                }
                assert(table@.subrange(0, i as int) =~= table@);
            },
            None => {},
        }
        let mut translated: Vec<(IpAddr, u128)> = Vec::new();
        let keys = ipv4_keys(&self.translated_v4);
        let mut i: usize = 0;
        while i < keys.len()
            invariant
                i <= keys.len(),
                forall|k: u32| #[trigger] self.translated_v4@.contains_key(k) <==> keys@.contains(k),
                translated@.len() == i,
                forall|j: int|
                    0 <= j < i ==> (#[trigger] translated@[j]) == (IpAddr::V4(keys[j]), self.translated_v4@[keys[j]]),
            decreases keys.len() - i,
        {
            let key = keys[i];
            assert(keys@.contains(key));
            match self.translated_v4.get(&key) {
                Some(id) => translated.push((IpAddr::V4(key), *id)),
                None => {},
            }
            i += 1;
        }
        let keys6 = ipv6_keys(&self.translated_v6);
        let ghost offset = translated@.len() as int;
        let mut i: usize = 0;
        while i < keys6.len()
            invariant
                i <= keys6.len(),
                offset == keys.len(),
                forall|k: u128| #[trigger] self.translated_v6@.contains_key(k) <==> keys6@.contains(k),
                translated@.len() == offset + i,
                forall|j: int|
                    0 <= j < offset ==> (#[trigger] translated@[j]) == (IpAddr::V4(keys[j]), self.translated_v4@[keys[j]]),
                forall|j: int|
                    0 <= j < i ==> (#[trigger] translated@[offset + j]) == (
                        IpAddr::V6(keys6[j]),
                        self.translated_v6@[keys6[j]],
                    ),
            decreases keys6.len() - i,
        {
            let key = keys6[i];
            assert(keys6@.contains(key));
            match self.translated_v6.get(&key) {
                Some(id) => translated.push((IpAddr::V6(key), *id)),
                None => {},
            }
            i += 1;
        }
        proof {
            let wanted = Set::new(
                |pair: (IpAddr, u128)| self@.translated.contains_key(pair.0) && self@.translated[pair.0] == pair.1,
            );
            assert forall|pair: (IpAddr, u128)| translated@.to_set().contains(pair) <==> wanted.contains(pair) by {
                if translated@.contains(pair) {
                    let j = choose|j: int| 0 <= j < translated@.len() && translated@[j] == pair;
                    if j < offset {
                        assert(keys@.contains(keys[j]));
                    } else {
                        assert(translated@[offset + (j - offset)] == pair);
                        assert(keys6@.contains(keys6[j - offset]));
                    }
                }
                if wanted.contains(pair) {
                    match pair.0 {
                        IpAddr::V4(bits) => {
                            assert(keys@.contains(bits));
                            let j = choose|j: int| 0 <= j < keys.len() && keys[j] == bits;
                            assert(translated@[j] == pair);
                        },
                        IpAddr::V6(bits) => {
                            assert(keys6@.contains(bits));
                            let j = choose|j: int| 0 <= j < keys6.len() && keys6[j] == bits;
                            assert(translated@[offset + j] == pair);
                        },
                    }
                }
            }
            assert(translated@.to_set() =~= wanted);
        }
        PeerStats { allowed_ips, resources, translated_resource_addresses: translated }
    }

    /// Makes `packet` ready for the tunnel: a packet from an address to
    /// which the name of a resource was resolved is made to come from the
    /// address that stands for the resource inside the tunnel.
    pub fn outbound(&self, packet: IpPacket) -> (ready: Result<IpPacket, Error>)
        requires
            self.wf(),
            packet.wf(),
        ensures
            match ready {
                Ok(p) => p.wf() && self@.outbound(packet@) == Ok::<_, Error>(p@),
                Err(e) => self@.outbound(packet@) == Err::<Seq<u8>, _>(e),
            },
    {
        let mut packet = packet;
        match self.get_translation(packet.source()) {
            None => Ok(packet),
            Some(ResourceDescription::Cidr(_)) => Err(Error::ControlProtocolError),
            Some(ResourceDescription::Dns(resource)) => {
                let source = match packet.source() {
                    IpAddr::V4(_) => IpAddr::V4(resource.ipv4),
                    IpAddr::V6(_) => IpAddr::V6(resource.ipv6),
                };
                packet.set_source(source);
                packet.update_checksum();
                Ok(packet)
            },
        }
    }

    /// Sends `packet` to the peer: returns the bytes to put on the network,
    /// if the tunnel has any to send right now.
    pub fn encapsulate(&mut self, packet: IpPacket) -> (sealed: Result<Option<Vec<u8>>, Error>)
        requires
            old(self).wf(),
            packet.wf(),
            packet@.len() + DATA_OVERHEAD <= MAX_UDP_SIZE,
        ensures
            final(self).wf(),
            final(self)@ == old(self)@,
            old(self)@.outbound(packet@) is Err ==> sealed == Err::<Option<Vec<u8>>, _>(
                old(self)@.outbound(packet@)->Err_0,
            ),
            old(self)@.outbound(packet@) is Ok ==> exists|output: TunnelOutput|
                output.stays_outside() && (match sealed {
                    Ok(Some(bytes)) => #[trigger] spec_sealed(output) == Ok::<_, Error>(Some(bytes@)),
                    Ok(None) => spec_sealed(output) == Ok::<Option<Seq<u8>>, Error>(None),
                    Err(e) => spec_sealed(output) == Err::<Option<Seq<u8>>, _>(e),
                }),
    {
        let ready = match self.outbound(packet) {
            Ok(p) => p,
            Err(e) => {
                return Err(e);
            },
        };
        proof {
            packet.lemma_wf();
            lemma_outbound_keeps_length(old(self)@, packet@);
        }
        let output = tunnel::encapsulate(&mut self.tunnel, ready.packet(), &mut self.buf);
        let sealed = Self::sealed(output);
        sealed
    }

    /// What the output of a call that wraps something for the network comes
    /// to.
    pub fn sealed(output: TunnelOutput) -> (sealed: Result<Option<Vec<u8>>, Error>)
        ensures
            match sealed {
                Ok(Some(bytes)) => spec_sealed(output) == Ok::<_, Error>(Some(bytes@)),
                Ok(None) => spec_sealed(output) == Ok::<Option<Seq<u8>>, Error>(None),
                Err(e) => spec_sealed(output) == Err::<Option<Seq<u8>>, _>(e),
            },
    {
        match output {
            TunnelOutput::Failed(e) => Err(Error::WireGuard(e)),
            TunnelOutput::WriteToNetwork(bytes) => Ok(Some(bytes)),
            _ => Ok(None),
        }
    }

    /// Lets the tunnel do what is due: returns a handshake or a keepalive to
    /// put on the network, if one is due.
    pub fn update_timers(&mut self) -> (sealed: Result<Option<Vec<u8>>, Error>)
        requires
            old(self).wf(),
        ensures
            final(self).wf(),
            final(self)@ == old(self)@,
            exists|output: TunnelOutput|
                output.stays_outside() && (match sealed {
                    Ok(Some(bytes)) => #[trigger] spec_sealed(output) == Ok::<_, Error>(Some(bytes@)),
                    Ok(None) => spec_sealed(output) == Ok::<Option<Seq<u8>>, Error>(None),
                    Err(e) => spec_sealed(output) == Err::<Option<Seq<u8>>, _>(e),
                }),
    {
        let output = tunnel::update_timers(&mut self.tunnel, &mut self.buf);
        let sealed = Self::sealed(output);
        sealed
    }

    /// Decides where a packet goes that came out of the tunnel, from the
    /// peer at `peer_addr` inside the tunnel.
    pub fn route(&self, packet: Vec<u8>, peer_addr: IpAddr) -> (routed: Result<Decapsulated, Error>)
        requires
            self.wf(),
        ensures
            match routed {
                Ok(d) => self@.routed(packet@, peer_addr) == Ok::<_, Error>(d@),
                Err(e) => self@.routed(packet@, peer_addr) == Err::<DecapsulatedView, _>(e),
            },
            routed matches Ok(Decapsulated::Resolve { packet, .. }) ==> packet.wf(),
            routed matches Ok(Decapsulated::Write(WriteTo::Resource(packet))) ==> packet.wf(),
    {
        if !self.is_allowed(peer_addr) {
            return Ok(Decapsulated::Nothing);
        }
        let mut packet = match IpPacket::new(packet) {
            Some(p) => p,
            None => {
                return Err(Error::BadPacket);
            },
        };
        proof {
            packet.lemma_wf();
        }
        let table = match &self.resources {
            Some(table) => table,
            None => {
                return Ok(Decapsulated::Write(WriteTo::Resource(packet)));
            },
        };
        let destination = packet.destination();
        let resource = match table.get_by_ip(destination) {
            Some(entry) => entry.resource.duplicate(),
            None => {
                return Ok(Decapsulated::Nothing);
            },
        };
        match resource {
            ResourceDescription::Dns(resource) => Ok(Decapsulated::Resolve { packet, resource, peer_addr }),
            ResourceDescription::Cidr(resource) => {
                if !resource.address.contains(destination) {
                    return Err(Error::InvalidSource);
                }
                let dst = match get_matching_version_ip(peer_addr, destination) {
                    Some(dst) => dst,
                    None => {
                        return Err(Error::InvalidResource);
                    },
                };
                packet.set_dst(dst);
                packet.update_checksum();
                Ok(Decapsulated::Write(WriteTo::Resource(packet)))
            },
        }
    }

    /// Decides what the output of the tunnel for a datagram comes to.
    pub fn inbound(&self, output: TunnelOutput) -> (routed: Result<Decapsulated, Error>)
        requires
            self.wf(),
        ensures
            match routed {
                Ok(d) => self@.inbound(output) == Ok::<_, Error>(d@),
                Err(e) => self@.inbound(output) == Err::<DecapsulatedView, _>(e),
            },
            routed matches Ok(Decapsulated::Resolve { packet, .. }) ==> packet.wf(),
            routed matches Ok(Decapsulated::Write(WriteTo::Resource(packet))) ==> packet.wf(),
    {
        match output {
            TunnelOutput::Done => Ok(Decapsulated::Nothing),
            TunnelOutput::Failed(e) => Err(Error::WireGuard(e)),
            TunnelOutput::WriteToNetwork(bytes) => Ok(Decapsulated::Write(WriteTo::Network(bytes))),
            TunnelOutput::WriteToTunnelV4(packet, addr) => self.route(packet, IpAddr::V4(addr)),
            TunnelOutput::WriteToTunnelV6(packet, addr) => self.route(packet, IpAddr::V6(addr)),
        }
    }

    /// Takes a datagram from the peer: opens it, and decides where what was
    /// in it goes.
    pub fn decapsulate(&mut self, src: &[u8]) -> (routed: Result<Decapsulated, Error>)
        requires
            old(self).wf(),
            src@.len() <= MAX_UDP_SIZE,
        ensures
            final(self).wf(),
            final(self)@ == old(self)@,
            exists|output: TunnelOutput|
                match routed {
                    Ok(d) => #[trigger] old(self)@.inbound(output) == Ok::<_, Error>(d@),
                    Err(e) => old(self)@.inbound(output) == Err::<DecapsulatedView, _>(e),
                },
            routed matches Ok(Decapsulated::Resolve { packet, .. }) ==> packet.wf(),
            routed matches Ok(Decapsulated::Write(WriteTo::Resource(packet))) ==> packet.wf(),
    {
        let output = tunnel::decapsulate(&mut self.tunnel, src, &mut self.buf);
        let routed = self.inbound(output);
        routed
    }

    /// Sends a packet on to a resource that is reached by name, once the
    /// name is resolved to the addresses `resolved`.
    pub fn translate(&mut self, packet: IpPacket, resource_id: u128, peer_addr: IpAddr, resolved: &Vec<IpAddr>) -> (sent:
        Result<WriteTo, Error>)
        requires
            old(self).wf(),
            packet.wf(),
        ensures
            final(self).wf(),
            final(self)@ == old(self)@.translate(packet@, resource_id, peer_addr, resolved@).0,
            match sent {
                Ok(w) => old(self)@.translate(packet@, resource_id, peer_addr, resolved@).1 == Ok::<_, Error>(w@),
                Err(e) => old(self)@.translate(packet@, resource_id, peer_addr, resolved@).1 == Err::<WriteToView, _>(e),
            },
            sent matches Ok(WriteTo::Resource(p)) ==> p.wf(),
    {
        let mut packet = packet;
        let dst = match first_of_family(resolved, peer_addr) {
            Some(dst) => dst,
            None => {
                return Err(Error::InvalidResource);
            },
        };
        match dst {
            IpAddr::V4(bits) => {
                let _ = self.translated_v4.insert(bits, resource_id);
            },
            IpAddr::V6(bits) => {
                let _ = self.translated_v6.insert(bits, resource_id);
            },
        }
        assert(self@.translated =~= old(self)@.translated.insert(dst, resource_id));
        packet.set_dst(dst);
        packet.update_checksum();
        Ok(WriteTo::Resource(packet))
    }
}

/// The first of `resolved` that is of the family of `peer_addr`.
pub fn first_of_family(resolved: &Vec<IpAddr>, peer_addr: IpAddr) -> (found: Option<IpAddr>)
    ensures
        found == spec_first_of_family(resolved@, peer_addr),
{
    let mut i: usize = 0;
    assert(resolved@.skip(0) =~= resolved@);
    while i < resolved.len()
        invariant
            i <= resolved.len(),
            spec_first_of_family(resolved@, peer_addr) == spec_first_of_family(resolved@.skip(i as int), peer_addr),
        decreases resolved.len() - i,
    {
        assert(resolved@.skip(i as int)[0] == resolved@[i as int]);
        assert(resolved@.skip(i as int).drop_first() =~= resolved@.skip(i + 1));
        match get_matching_version_ip(peer_addr, resolved[i]) {
            Some(ip) => {
                return Some(ip);
            },
            None => {},
        }
        i += 1;
    }
    None
}

/// The scratch space of a tunnel.
fn scratch_space() -> (buf: Vec<u8>)
    ensures
        buf@.len() == MAX_UDP_SIZE,
{
    vec![0u8; MAX_UDP_SIZE]
}

/// A packet is as long when it enters the tunnel as it was before.
pub proof fn lemma_outbound_keeps_length(peer: PeerView, packet: Seq<u8>)
    requires
        spec_version(packet) is Some,
    ensures
        peer.outbound(packet) matches Ok(ready) ==> ready.len() == packet.len(),
{
    match peer.get_translation(spec_source(packet)) {
        Some(ResourceDescription::Dns(resource)) => {
            let source = match spec_source(packet) {
                IpAddr::V4(_) => IpAddr::V4(resource.ipv4),
                IpAddr::V6(_) => IpAddr::V6(resource.ipv6),
            };
            crate::ip_packet::lemma_set_address_keeps_length(packet, source);
            crate::ip_packet::lemma_update_checksum_keeps_length(spec_set_source(packet, source));
        },
        _ => {},
    }
}

/// The range that answers for a packet holds it: the table picks a resource
/// by range only for a destination inside that range, so no packet is ever
/// refused as lying outside the range of its resource.
pub proof fn lemma_range_holds_its_packets(peer: PeerView, packet: Seq<u8>, peer_addr: IpAddr)
    ensures
        !(peer.routed(packet, peer_addr) matches Err(Error::InvalidSource)),
{
    if let Some(resources) = peer.resources {
        let destination = spec_destination(packet);
        if spec_get_by_ip(resources, destination) is Some {
            let i = choose|i: int| is_best_match(resources, destination, i);
            assert(is_best_match(resources, destination, i));
            assert(resources[i].resource.spec_claims(destination) is Some);
        }
    }
}

} // verus!
