use std::sync::Arc;

use boringtun::noise::rate_limiter::RateLimiter;
use boringtun::x25519::{PublicKey, StaticSecret};
use connlib::ip_network::IpNetwork;
use connlib::ip_packet::IpPacket;
use connlib::net::IpAddr;
use connlib::peer::{
    first_of_family, get_matching_version_ip, Decapsulated, Error, Peer, PeerConfig, WriteTo,
};
use connlib::resource::{ResourceDescription, ResourceDescriptionCidr, ResourceDescriptionDns};
use pnet_packet::ip::IpNextHeaderProtocols;
use pnet_packet::ipv4::{Ipv4Packet, MutableIpv4Packet};
use pnet_packet::udp::{MutableUdpPacket, UdpPacket};
use pnet_packet::Packet;

const CLIENT_KEY: [u8; 32] = [1; 32];
const GATEWAY_KEY: [u8; 32] = [2; 32];
const PRESHARED_KEY: [u8; 32] = [3; 32];

fn public_key(private: [u8; 32]) -> [u8; 32] {
    PublicKey::from(&StaticSecret::from(private)).to_bytes()
}

fn rate_limiter(private: [u8; 32]) -> Arc<RateLimiter> {
    Arc::new(RateLimiter::new(
        &PublicKey::from(&StaticSecret::from(private)),
        1000,
    ))
}

fn client_ip() -> IpAddr {
    IpAddr::v4(100, 64, 0, 1)
}

fn config(of: [u8; 32], ips: Vec<IpNetwork>) -> PeerConfig {
    PeerConfig {
        persistent_keepalive: None,
        public_key: public_key(of),
        ips,
        preshared_key: PRESHARED_KEY,
    }
}

fn cidr_resource() -> ResourceDescription {
    ResourceDescription::Cidr(ResourceDescriptionCidr {
        id: 7,
        address: IpNetwork::new(IpAddr::v4(10, 0, 0, 0), 8).unwrap(),
        name: "office".to_owned(),
    })
}

fn dns_resource() -> ResourceDescription {
    ResourceDescription::Dns(ResourceDescriptionDns {
        id: 8,
        address: "example.com:443".to_owned(),
        ipv4: 0x6460_0001,
        ipv6: 0xfd00_2021_1111_8000_0000_0000_0000_0001,
        name: "example".to_owned(),
    })
}

/// The gateway as the client sees it.
fn gateway_on_client() -> Peer {
    Peer::gateway_on_client(
        CLIENT_KEY,
        1,
        config(
            GATEWAY_KEY,
            vec![IpNetwork::new(IpAddr::v4(0, 0, 0, 0), 0).unwrap()],
        ),
        rate_limiter(CLIENT_KEY),
    )
}

/// The client as the gateway sees it.
fn client_on_gateway(resource: ResourceDescription) -> Peer {
    Peer::client_on_gateway(
        GATEWAY_KEY,
        2,
        config(CLIENT_KEY, vec![IpNetwork::host(client_ip())]),
        resource,
        1_000,
        rate_limiter(GATEWAY_KEY),
    )
}

fn udp_packet(src: IpAddr, dst: IpAddr, payload: &[u8]) -> IpPacket {
    let (IpAddr::V4(src), IpAddr::V4(dst)) = (src, dst) else {
        panic!("IPv4 addresses")
    };
    let mut bytes = vec![0u8; 20 + 8 + payload.len()];
    {
        let mut ip = MutableIpv4Packet::new(&mut bytes).unwrap();
        ip.set_version(4);
        ip.set_header_length(5);
        ip.set_total_length((20 + 8 + payload.len()) as u16);
        ip.set_ttl(64);
        ip.set_next_level_protocol(IpNextHeaderProtocols::Udp);
        ip.set_source(core::net::Ipv4Addr::from_bits(src));
        ip.set_destination(core::net::Ipv4Addr::from_bits(dst));
    }
    {
        let mut udp = MutableUdpPacket::new(&mut bytes[20..]).unwrap();
        udp.set_source(1000);
        udp.set_destination(2000);
        udp.set_length((8 + payload.len()) as u16);
        udp.set_payload(payload);
    }
    let mut packet = IpPacket::new(bytes).unwrap();
    packet.update_checksum();
    packet
}

fn network(decapsulated: Decapsulated) -> Vec<u8> {
    match decapsulated {
        Decapsulated::Write(WriteTo::Network(bytes)) => bytes,
        other => panic!("expected bytes for the network, got {other:?}"),
    }
}

/// Runs the handshake between the two and returns what the gateway made of
/// the first packet of the client.
fn send_through_tunnel(
    client: &mut Peer,
    gateway: &mut Peer,
    packet: IpPacket,
) -> Result<Decapsulated, Error> {
    // Without a session the client keeps the packet and starts a handshake.
    let handshake_init = client.encapsulate(packet).unwrap().unwrap();
    let handshake_response = network(gateway.decapsulate(&handshake_init).unwrap());
    let keepalive = network(client.decapsulate(&handshake_response).unwrap());
    assert!(matches!(
        gateway.decapsulate(&keepalive).unwrap(),
        Decapsulated::Nothing
    ));

    // An empty datagram asks the client for what it kept.
    let data = network(client.decapsulate(&[]).unwrap());
    gateway.decapsulate(&data)
}

#[test]
fn packet_for_cidr_resource_passes_the_gateway() {
    let mut client = gateway_on_client();
    let mut gateway = client_on_gateway(cidr_resource());
    let packet = udp_packet(client_ip(), IpAddr::v4(10, 1, 2, 3), b"hello");
    let sent = packet.packet().to_vec();

    let received = send_through_tunnel(&mut client, &mut gateway, packet).unwrap();

    let Decapsulated::Write(WriteTo::Resource(received)) = received else {
        panic!("expected a packet for the resource, got {received:?}")
    };
    assert_eq!(received.packet(), &sent[..]);
    assert_eq!(received.destination(), IpAddr::v4(10, 1, 2, 3));
}

#[test]
fn packet_outside_resources_is_dropped_by_the_gateway() {
    let mut client = gateway_on_client();
    let mut gateway = client_on_gateway(cidr_resource());
    let packet = udp_packet(client_ip(), IpAddr::v4(11, 1, 2, 3), b"hello");

    let received = send_through_tunnel(&mut client, &mut gateway, packet).unwrap();

    assert!(matches!(received, Decapsulated::Nothing));
}

#[test]
fn packet_from_unallowed_address_is_dropped_by_the_gateway() {
    let mut client = gateway_on_client();
    let mut gateway = client_on_gateway(cidr_resource());
    let packet = udp_packet(IpAddr::v4(100, 64, 0, 2), IpAddr::v4(10, 1, 2, 3), b"hello");

    // The tunnel itself refuses a source that is not the peer's, or the
    // peer's allowed addresses do: either way nothing reaches the resource.
    let received = send_through_tunnel(&mut client, &mut gateway, packet);

    assert!(!matches!(
        received,
        Ok(Decapsulated::Write(WriteTo::Resource(_)))
    ));
}

#[test]
fn packet_for_dns_resource_is_translated_once_resolved() {
    let mut client = gateway_on_client();
    let mut gateway = client_on_gateway(dns_resource());
    let sentinel = IpAddr::V4(0x6460_0001);
    let real = IpAddr::v4(93, 184, 216, 34);
    let packet = udp_packet(client_ip(), sentinel, b"hello");

    let received = send_through_tunnel(&mut client, &mut gateway, packet).unwrap();

    let Decapsulated::Resolve {
        packet,
        resource,
        peer_addr,
    } = received
    else {
        panic!("expected a name to resolve, got {received:?}")
    };
    assert_eq!(resource.host(), "example.com");
    assert_eq!(peer_addr, client_ip());

    let resolved = vec![IpAddr::V6(0x2606_2800_0220_0001_0248_1893_25c8_1946), real];
    let written = gateway
        .translate(packet, resource.id, peer_addr, &resolved)
        .unwrap();
    let WriteTo::Resource(packet) = written else {
        panic!("expected a packet for the resource")
    };
    assert_eq!(packet.destination(), real);
    let bytes = packet.into_bytes();
    let ip = Ipv4Packet::new(&bytes).unwrap();
    assert_eq!(ip.get_checksum(), pnet_packet::ipv4::checksum(&ip));
    let udp = UdpPacket::new(ip.payload()).unwrap();
    assert_eq!(
        udp.get_checksum(),
        pnet_packet::udp::ipv4_checksum(&udp, &ip.get_source(), &ip.get_destination())
    );

    // The answer of the resource is made to come from the sentinel again.
    assert_eq!(gateway.get_translation(real).unwrap().id(), 8);
    let answer = udp_packet(real, client_ip(), b"world");
    let ready = gateway.outbound(answer).unwrap();
    assert_eq!(ready.source(), sentinel);
    assert_eq!(ready.destination(), client_ip());

    let stats = gateway.stats();
    assert_eq!(stats.translated_resource_addresses, vec![(real, 8)]);
    assert_eq!(stats.resources.len(), 1);
    assert_eq!(stats.allowed_ips, vec![IpNetwork::host(client_ip())]);
}

#[test]
fn unresolvable_name_is_an_invalid_resource() {
    let mut gateway = client_on_gateway(dns_resource());
    let packet = udp_packet(client_ip(), IpAddr::V4(0x6460_0001), b"hello");

    let only_v6 = vec![IpAddr::V6(1)];
    assert!(matches!(
        gateway.translate(packet, 8, client_ip(), &only_v6),
        Err(Error::InvalidResource)
    ));
    assert!(gateway.get_translation(IpAddr::V6(1)).is_none());

    let packet = udp_packet(client_ip(), IpAddr::V4(0x6460_0001), b"hello");
    assert!(matches!(
        gateway.translate(packet, 8, client_ip(), &Vec::new()),
        Err(Error::InvalidResource)
    ));
}

#[test]
fn route_decides_without_a_tunnel() {
    let gateway = client_on_gateway(cidr_resource());
    let inside = udp_packet(client_ip(), IpAddr::v4(10, 1, 2, 3), b"x").into_bytes();

    assert!(matches!(
        gateway.route(inside.clone(), client_ip()),
        Ok(Decapsulated::Write(WriteTo::Resource(_)))
    ));
    assert!(matches!(
        gateway.route(inside.clone(), IpAddr::v4(100, 64, 0, 2)),
        Ok(Decapsulated::Nothing)
    ));
    assert!(matches!(
        gateway.route(vec![0u8; 10], client_ip()),
        Err(Error::BadPacket)
    ));

    // A client trusts its gateways: what comes from an allowed address passes.
    let client = gateway_on_client();
    let any = udp_packet(IpAddr::v4(10, 1, 2, 3), client_ip(), b"x").into_bytes();
    assert!(matches!(
        client.route(any, IpAddr::v4(10, 1, 2, 3)),
        Ok(Decapsulated::Write(WriteTo::Resource(_)))
    ));
}

#[test]
fn translation_to_cidr_resource_is_a_control_protocol_error() {
    let mut gateway = client_on_gateway(cidr_resource());
    let real = IpAddr::v4(93, 184, 216, 34);
    let packet = udp_packet(client_ip(), IpAddr::v4(10, 0, 0, 1), b"hello");
    gateway
        .translate(packet, 7, client_ip(), &vec![real])
        .unwrap();

    let answer = udp_packet(real, client_ip(), b"world");

    assert!(matches!(
        gateway.outbound(answer),
        Err(Error::ControlProtocolError)
    ));
    let answer = udp_packet(real, client_ip(), b"world");
    assert!(matches!(
        gateway.encapsulate(answer),
        Err(Error::ControlProtocolError)
    ));
}

#[test]
fn expired_resources_take_their_translations_along() {
    let mut gateway = client_on_gateway(dns_resource());
    gateway.add_resource(cidr_resource(), 2_000);
    let real = IpAddr::v4(93, 184, 216, 34);
    let packet = udp_packet(client_ip(), IpAddr::V4(0x6460_0001), b"hello");
    gateway
        .translate(packet, 8, client_ip(), &vec![real])
        .unwrap();
    assert!(gateway.get_translation(real).is_some());
    assert!(!gateway.is_emptied());

    gateway.expire_resources(999);
    assert!(gateway.get_translation(real).is_some());

    gateway.expire_resources(1_000);
    assert!(gateway.get_translation(real).is_none());
    assert_eq!(gateway.stats().resources.len(), 1);
    assert!(!gateway.is_emptied());

    gateway.expire_resources(2_000);
    assert!(gateway.is_emptied());
}

#[test]
fn gateway_on_client_never_counts_as_emptied() {
    let mut client = gateway_on_client();

    client.add_resource(cidr_resource(), 1);
    client.expire_resources(10);

    assert!(!client.is_emptied());
    assert!(client.stats().resources.is_empty());
}

#[test]
fn allowed_ips_are_matched_by_prefix() {
    let mut client = Peer::gateway_on_client(
        CLIENT_KEY,
        1,
        config(
            GATEWAY_KEY,
            vec![IpNetwork::new(IpAddr::v4(10, 0, 0, 0), 8).unwrap()],
        ),
        rate_limiter(CLIENT_KEY),
    );

    assert!(client.is_allowed(IpAddr::v4(10, 255, 0, 1)));
    assert!(!client.is_allowed(IpAddr::v4(11, 0, 0, 1)));
    assert!(!client.is_allowed(IpAddr::V6(1)));

    client.add_allowed_ip(IpNetwork::host(IpAddr::V6(1)));
    assert!(client.is_allowed(IpAddr::V6(1)));
    assert!(!client.is_allowed(IpAddr::V6(2)));
}

#[test]
fn update_timers_has_nothing_to_send_at_first() {
    let mut client = gateway_on_client();

    assert!(matches!(client.update_timers(), Ok(None)));
}

#[test]
fn matching_version_ip_keeps_only_the_same_family() {
    let v4 = IpAddr::v4(1, 2, 3, 4);
    let v6 = IpAddr::V6(1);

    assert_eq!(get_matching_version_ip(v4, v4), Some(v4));
    assert_eq!(get_matching_version_ip(v6, v6), Some(v6));
    assert_eq!(get_matching_version_ip(v4, v6), None);
    assert_eq!(get_matching_version_ip(v6, v4), None);
    assert_eq!(first_of_family(&vec![v6, v4], v4), Some(v4));
    assert_eq!(first_of_family(&vec![v6], v4), None);
}

#[test]
fn datagram_that_is_no_wireguard_message_is_the_tunnels_error() {
    let mut gateway = client_on_gateway(cidr_resource());

    assert!(matches!(
        gateway.decapsulate(&[0xff; 40]),
        Err(Error::WireGuard(_))
    ));
    assert!(matches!(
        gateway.decapsulate(&[1, 0, 0]),
        Err(Error::WireGuard(_))
    ));
}

#[test]
fn packet_inside_a_range_is_never_outside_it() {
    let gateway = client_on_gateway(cidr_resource());

    for last in [0u8, 1, 127, 255] {
        let inside = udp_packet(client_ip(), IpAddr::v4(10, last, last, last), b"x").into_bytes();
        assert!(matches!(
            gateway.route(inside, client_ip()),
            Ok(Decapsulated::Write(WriteTo::Resource(_)))
        ));
    }
    for first in [9u8, 11, 192] {
        let outside = udp_packet(client_ip(), IpAddr::v4(first, 0, 0, 1), b"x").into_bytes();
        assert!(matches!(
            gateway.route(outside, client_ip()),
            Ok(Decapsulated::Nothing)
        ));
    }
}
