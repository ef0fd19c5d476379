//! The candidates that an allocation offers to the ICE agent: the address at
//! which the relay saw us, and the address that it relays for us.

use vstd::prelude::*;
use crate::net::{IpAddr, SocketAddr};

verus! {

/// How a candidate address was learned.
#[derive(Clone, Copy, Debug, PartialEq, Eq, Hash, Structural)]
pub enum CandidateKind {
    /// The relay saw our packets come from this address.
    ServerReflexive,
    /// The relay forwards what arrives at this address to us.
    Relayed,
}

/// A candidate address for a connection, over UDP.
#[derive(Clone, Copy, Debug, PartialEq, Eq, Hash, Structural)]
pub struct Candidate {
    pub kind: CandidateKind,
    /// The address that a peer sends to.
    pub addr: SocketAddr,
    /// The address that we send from: our local socket for a reflexive
    /// candidate, the relayed address itself for a relayed one.
    pub base: SocketAddr,
}

/// Whether a candidate may have the address `ip`.
///
/// An IPv4 address may be neither link-local (`169.254.0.0/16`), nor the
/// broadcast address, nor a multicast address (`224.0.0.0/4`), nor
/// unspecified; an IPv6 address neither a multicast address (`ff00::/8`) nor
/// unspecified.
pub open spec fn spec_is_valid_ip(ip: IpAddr) -> bool {
    match ip {
        IpAddr::V4(bits) => bits / 0x1_0000 != 0xA9FE && bits != 0xFFFF_FFFF && bits / 0x1000_0000 != 0xE && bits
            != 0,
        IpAddr::V6(bits) => bits / 0x100_0000_0000_0000_0000_0000_0000_0000 != 0xFF && bits != 0,
    }
}

/// The reflexive candidate for `addr` as seen from the local socket `base`,
/// where the two are of one family and `addr` may be a candidate's address.
pub open spec fn spec_server_reflexive(addr: SocketAddr, base: SocketAddr) -> Option<Candidate> {
    if spec_is_valid_ip(addr.spec_ip()) && addr.spec_is_ipv4() == base.spec_is_ipv4() {
        Some(Candidate { kind: CandidateKind::ServerReflexive, addr, base })
    } else {
        None
    }
}

/// The relayed candidate for `addr`, where `addr` may be a candidate's
/// address.
pub open spec fn spec_relayed(addr: SocketAddr) -> Option<Candidate> {
    if spec_is_valid_ip(addr.spec_ip()) {
        Some(Candidate { kind: CandidateKind::Relayed, addr, base: addr })
    } else {
        None
    }
}

/// Calls `str0m::Candidate::server_reflexive`.
///
/// The constructor refuses an address that [`spec_is_valid_ip`] rules out,
/// and an address and a base of different families; it accepts every other
/// pair over UDP.
#[verifier::external_body]
fn accepts_server_reflexive(addr: SocketAddr, base: SocketAddr) -> (accepted: bool)
    ensures
        accepted == spec_server_reflexive(addr, base) is Some,
{
    let addr = match addr.ip() {
        IpAddr::V4(bits) => (core::net::Ipv4Addr::from_bits(bits), addr.port()).into(),
        IpAddr::V6(bits) => (core::net::Ipv6Addr::from_bits(bits), addr.port()).into(),
    };
    let base = match base.ip() {
        IpAddr::V4(bits) => (core::net::Ipv4Addr::from_bits(bits), base.port()).into(),
        IpAddr::V6(bits) => (core::net::Ipv6Addr::from_bits(bits), base.port()).into(),
    };
    str0m::Candidate::server_reflexive(addr, base, str0m::net::Protocol::Udp).is_ok()
}

/// Calls `str0m::Candidate::relayed`, with the relayed address as the local
/// one too.
///
/// The constructor refuses an address that [`spec_is_valid_ip`] rules out and
/// accepts every other over UDP.
#[verifier::external_body]
fn accepts_relayed(addr: SocketAddr) -> (accepted: bool)
    ensures
        accepted == spec_relayed(addr) is Some,
{
    let addr: core::net::SocketAddr = match addr.ip() {
        IpAddr::V4(bits) => (core::net::Ipv4Addr::from_bits(bits), addr.port()).into(),
        IpAddr::V6(bits) => (core::net::Ipv6Addr::from_bits(bits), addr.port()).into(),
    };
    str0m::Candidate::relayed(addr, addr, str0m::net::Protocol::Udp).is_ok()
}

impl Candidate {
    /// The reflexive candidate for `addr`, the address at which the relay saw
    /// the packets that left the local socket `base`.
    pub fn server_reflexive(addr: SocketAddr, base: SocketAddr) -> (candidate: Option<Candidate>)
        ensures
            candidate == spec_server_reflexive(addr, base),
    {
        if accepts_server_reflexive(addr, base) {
            Some(Candidate { kind: CandidateKind::ServerReflexive, addr, base })
        } else {
            None
        }
    }

    /// The relayed candidate for `addr`, an address that the relay allocated.
    pub fn relayed(addr: SocketAddr) -> (candidate: Option<Candidate>)
        ensures
            candidate == spec_relayed(addr),
    {
        if accepts_relayed(addr) {
            Some(Candidate { kind: CandidateKind::Relayed, addr, base: addr })
        } else {
            None
        }
    }

    /// The address that a peer sends to.
    pub fn addr(&self) -> (addr: SocketAddr)
        ensures
            addr == self.addr,
    {
        self.addr
    }
}

} // verus!
