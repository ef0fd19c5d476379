//! The calls into the packet library for checksums.
//!
//! Nothing in this file is proved. Each function hands bytes to the packet
//! library and gives back the checksum that it computes over them, which is
//! named by a function of those bytes.

use pnet_packet::icmp::IcmpPacket;
use pnet_packet::icmpv6::Icmpv6Packet;
use pnet_packet::ipv4::Ipv4Packet;
use pnet_packet::tcp::TcpPacket;
use pnet_packet::udp::UdpPacket;
use vstd::prelude::*;

verus! {

/// The longest segment that a checksum is asked for: what an IP packet can
/// carry at most. The packet library adds the segment's words up in 32 bits,
/// and a sum over more than twice as many bytes need not fit.
pub const MAX_SEGMENT_LEN: usize = 65535;

/// The checksum of the IPv4 header at the start of `packet`, with the
/// checksum field taken as zero; `None` where `packet` is too short for a
/// header.
pub uninterp spec fn ipv4_header_checksum_of(packet: Seq<u8>) -> Option<u16>;

/// The checksum of the UDP datagram `segment` between the IPv4 addresses
/// `src` and `dst`; `None` where `segment` is too short for a UDP header.
pub uninterp spec fn udp_ipv4_checksum_of(segment: Seq<u8>, src: u32, dst: u32) -> Option<u16>;

/// The checksum of the UDP datagram `segment` between the IPv6 addresses
/// `src` and `dst`; `None` where `segment` is too short for a UDP header.
pub uninterp spec fn udp_ipv6_checksum_of(segment: Seq<u8>, src: u128, dst: u128) -> Option<u16>;

/// The checksum of the TCP segment `segment` between the IPv4 addresses
/// `src` and `dst`; `None` where `segment` is too short for a TCP header.
pub uninterp spec fn tcp_ipv4_checksum_of(segment: Seq<u8>, src: u32, dst: u32) -> Option<u16>;

/// The checksum of the TCP segment `segment` between the IPv6 addresses
/// `src` and `dst`; `None` where `segment` is too short for a TCP header.
pub uninterp spec fn tcp_ipv6_checksum_of(segment: Seq<u8>, src: u128, dst: u128) -> Option<u16>;

/// The checksum of the ICMP message `segment`; `None` where `segment` is too
/// short for an ICMP header.
pub uninterp spec fn control_checksum_of(segment: Seq<u8>) -> Option<u16>;

/// The checksum of the ICMPv6 message `segment` between the addresses `src`
/// and `dst`; `None` where `segment` is too short for an ICMPv6 header.
pub uninterp spec fn control_v6_checksum_of(segment: Seq<u8>, src: u128, dst: u128) -> Option<u16>;

/// Calls `Ipv4Packet::new` and `pnet_packet::ipv4::checksum`.
#[verifier::external_body]
pub(crate) fn ipv4_header_checksum(packet: &[u8]) -> (checksum: Option<u16>)
    ensures
        checksum == ipv4_header_checksum_of(packet@),
{
    Some(pnet_packet::ipv4::checksum(&Ipv4Packet::new(packet)?))
}

/// Calls `UdpPacket::new` and `pnet_packet::udp::ipv4_checksum`.
#[verifier::external_body]
pub(crate) fn udp_ipv4_checksum(segment: &[u8], src: u32, dst: u32) -> (checksum: Option<u16>)
    requires
        segment@.len() <= MAX_SEGMENT_LEN,
    ensures
        checksum == udp_ipv4_checksum_of(segment@, src, dst),
{
    let (src, dst) = (core::net::Ipv4Addr::from_bits(src), core::net::Ipv4Addr::from_bits(dst));
    Some(pnet_packet::udp::ipv4_checksum(&UdpPacket::new(segment)?, &src, &dst))
}

/// Calls `UdpPacket::new` and `pnet_packet::udp::ipv6_checksum`.
#[verifier::external_body]
pub(crate) fn udp_ipv6_checksum(segment: &[u8], src: u128, dst: u128) -> (checksum: Option<u16>)
    requires
        segment@.len() <= MAX_SEGMENT_LEN,
    ensures
        checksum == udp_ipv6_checksum_of(segment@, src, dst),
{
    let (src, dst) = (core::net::Ipv6Addr::from_bits(src), core::net::Ipv6Addr::from_bits(dst));
    Some(pnet_packet::udp::ipv6_checksum(&UdpPacket::new(segment)?, &src, &dst))
}

/// Calls `TcpPacket::new` and `pnet_packet::tcp::ipv4_checksum`.
#[verifier::external_body]
pub(crate) fn tcp_ipv4_checksum(segment: &[u8], src: u32, dst: u32) -> (checksum: Option<u16>)
    requires
        segment@.len() <= MAX_SEGMENT_LEN,
    ensures
        checksum == tcp_ipv4_checksum_of(segment@, src, dst),
{
    let (src, dst) = (core::net::Ipv4Addr::from_bits(src), core::net::Ipv4Addr::from_bits(dst));
    Some(pnet_packet::tcp::ipv4_checksum(&TcpPacket::new(segment)?, &src, &dst))
}

/// Calls `TcpPacket::new` and `pnet_packet::tcp::ipv6_checksum`.
#[verifier::external_body]
pub(crate) fn tcp_ipv6_checksum(segment: &[u8], src: u128, dst: u128) -> (checksum: Option<u16>)
    requires
        segment@.len() <= MAX_SEGMENT_LEN,
    ensures
        checksum == tcp_ipv6_checksum_of(segment@, src, dst),
{
    let (src, dst) = (core::net::Ipv6Addr::from_bits(src), core::net::Ipv6Addr::from_bits(dst));
    Some(pnet_packet::tcp::ipv6_checksum(&TcpPacket::new(segment)?, &src, &dst))
}

/// Calls `IcmpPacket::new` and `pnet_packet::icmp::checksum`.
#[verifier::external_body]
pub(crate) fn control_checksum(segment: &[u8]) -> (checksum: Option<u16>)
    requires
        segment@.len() <= MAX_SEGMENT_LEN,
    ensures
        checksum == control_checksum_of(segment@),
{
    Some(pnet_packet::icmp::checksum(&IcmpPacket::new(segment)?))
}

/// Calls `Icmpv6Packet::new` and `pnet_packet::icmpv6::checksum`.
#[verifier::external_body]
pub(crate) fn control_v6_checksum(segment: &[u8], src: u128, dst: u128) -> (checksum: Option<u16>)
    requires
        segment@.len() <= MAX_SEGMENT_LEN,
    ensures
        checksum == control_v6_checksum_of(segment@, src, dst),
{
    let (src, dst) = (core::net::Ipv6Addr::from_bits(src), core::net::Ipv6Addr::from_bits(dst));
    Some(pnet_packet::icmpv6::checksum(&Icmpv6Packet::new(segment)?, &src, &dst))
}

} // verus!
