//! Networks of IP addresses, written as an address and a prefix length.

use vstd::prelude::*;
use crate::net::IpAddr;

verus! {

/// A network: the addresses that share the first `prefix` bits of `addr`.
#[derive(Clone, Copy, Debug, PartialEq, Eq, Hash, PartialOrd, Ord, Structural)]
#[allow(inconsistent_fields)]
pub enum IpNetwork {
    V4 { addr: u32, prefix: u8 },
    V6 { addr: u128, prefix: u8 },
}

/// The 32 bits of which the first `prefix` are set.
pub open spec fn spec_mask_v4(prefix: u8) -> u32 {
    if prefix == 0 {
        0
    } else if prefix >= 32 {
        0xFFFF_FFFF
    } else {
        0xFFFF_FFFFu32 << ((32 - prefix) as u32)
    }
}

/// The 128 bits of which the first `prefix` are set.
pub open spec fn spec_mask_v6(prefix: u8) -> u128 {
    if prefix == 0 {
        0
    } else if prefix >= 128 {
        0xFFFF_FFFF_FFFF_FFFF_FFFF_FFFF_FFFF_FFFF
    } else {
        0xFFFF_FFFF_FFFF_FFFF_FFFF_FFFF_FFFF_FFFFu128 << ((128 - prefix) as u128)
    }
}

fn mask_v4(prefix: u8) -> (mask: u32)
    ensures
        mask == spec_mask_v4(prefix),
{
    if prefix == 0 {
        0
    } else if prefix >= 32 {
        0xFFFF_FFFF
    } else {
        0xFFFF_FFFFu32 << ((32 - prefix) as u32)
    }
}

fn mask_v6(prefix: u8) -> (mask: u128)
    ensures
        mask == spec_mask_v6(prefix),
{
    if prefix == 0 {
        0
    } else if prefix >= 128 {
        0xFFFF_FFFF_FFFF_FFFF_FFFF_FFFF_FFFF_FFFF
    } else {
        0xFFFF_FFFF_FFFF_FFFF_FFFF_FFFF_FFFF_FFFFu128 << ((128 - prefix) as u128)
    }
}

impl IpNetwork {
    /// The prefix is no longer than an address, and the address has no bit
    /// set behind the prefix.
    pub open spec fn wf(&self) -> bool {
        match *self {
            IpNetwork::V4 { addr, prefix } => prefix <= 32 && addr & spec_mask_v4(prefix) == addr,
            IpNetwork::V6 { addr, prefix } => prefix <= 128 && addr & spec_mask_v6(prefix) == addr,
        }
    }

    pub open spec fn spec_new(ip: IpAddr, prefix: u8) -> Option<IpNetwork> {
        let network = match ip {
            IpAddr::V4(addr) => IpNetwork::V4 { addr, prefix },
            IpAddr::V6(addr) => IpNetwork::V6 { addr, prefix },
        };
        if network.wf() {
            Some(network)
        } else {
            None
        }
    }

    /// The network of the addresses that share the first `prefix` bits of
    /// `ip`; `None` where the prefix is too long or `ip` has a bit set behind
    /// it.
    #[verifier::when_used_as_spec(spec_new)]
    pub fn new(ip: IpAddr, prefix: u8) -> (network: Option<IpNetwork>)
        ensures
            network == Self::spec_new(ip, prefix),
    {
        match ip {
            IpAddr::V4(addr) => {
                if prefix <= 32 && addr & mask_v4(prefix) == addr {
                    Some(IpNetwork::V4 { addr, prefix })
                } else {
                    None
                }
            },
            IpAddr::V6(addr) => {
                if prefix <= 128 && addr & mask_v6(prefix) == addr {
                    Some(IpNetwork::V6 { addr, prefix })
                } else {
                    None
                }
            },
        }
    }

    pub open spec fn spec_host(ip: IpAddr) -> IpNetwork {
        match ip {
            IpAddr::V4(addr) => IpNetwork::V4 { addr, prefix: 32 },
            IpAddr::V6(addr) => IpNetwork::V6 { addr, prefix: 128 },
        }
    }

    /// The network that holds `ip` and nothing else.
    #[verifier::when_used_as_spec(spec_host)]
    pub fn host(ip: IpAddr) -> (network: IpNetwork)
        ensures
            network == Self::spec_host(ip),
            network.wf(),
    {
        match ip {
            IpAddr::V4(addr) => {
                assert(addr & 0xFFFF_FFFFu32 == addr) by (bit_vector);
                IpNetwork::V4 { addr, prefix: 32 }
            },
            IpAddr::V6(addr) => {
                assert(addr & 0xFFFF_FFFF_FFFF_FFFF_FFFF_FFFF_FFFF_FFFFu128 == addr) by (bit_vector);
                IpNetwork::V6 { addr, prefix: 128 }
            },
        }
    }

    pub open spec fn spec_prefix(&self) -> u8 {
        match *self {
            IpNetwork::V4 { prefix, .. } => prefix,
            IpNetwork::V6 { prefix, .. } => prefix,
        }
    }

    /// The length of the prefix in bits.
    #[verifier::when_used_as_spec(spec_prefix)]
    pub fn prefix(&self) -> (prefix: u8)
        ensures
            prefix == self.spec_prefix(),
    {
        match self {
            IpNetwork::V4 { prefix, .. } => *prefix,
            IpNetwork::V6 { prefix, .. } => *prefix,
        }
    }

    pub open spec fn spec_network_address(&self) -> IpAddr {
        match *self {
            IpNetwork::V4 { addr, .. } => IpAddr::V4(addr),
            IpNetwork::V6 { addr, .. } => IpAddr::V6(addr),
        }
    }

    /// The first address of the network.
    #[verifier::when_used_as_spec(spec_network_address)]
    pub fn network_address(&self) -> (ip: IpAddr)
        ensures
            ip == self.spec_network_address(),
    {
        match self {
            IpNetwork::V4 { addr, .. } => IpAddr::V4(*addr),
            IpNetwork::V6 { addr, .. } => IpAddr::V6(*addr),
        }
    }

    pub open spec fn spec_contains(&self, ip: IpAddr) -> bool {
        match (*self, ip) {
            (IpNetwork::V4 { addr, prefix }, IpAddr::V4(ip)) => ip & spec_mask_v4(prefix) == addr,
            (IpNetwork::V6 { addr, prefix }, IpAddr::V6(ip)) => ip & spec_mask_v6(prefix) == addr,
            _ => false,
        }
    }

    /// Whether `ip` is an address of the network: it is of the network's
    /// family and starts with the network's prefix.
    #[verifier::when_used_as_spec(spec_contains)]
    pub fn contains(&self, ip: IpAddr) -> (contains: bool)
        ensures
            contains == self.spec_contains(ip),
    {
        match (self, ip) {
            (IpNetwork::V4 { addr, prefix }, IpAddr::V4(ip)) => ip & mask_v4(*prefix) == *addr,
            (IpNetwork::V6 { addr, prefix }, IpAddr::V6(ip)) => ip & mask_v6(*prefix) == *addr,
            _ => false,
        }
    }
}

/// A network holds its own first address.
pub proof fn lemma_network_contains_its_address(network: IpNetwork)
    requires
        network.wf(),
    ensures
        network.spec_contains(network.spec_network_address()),
{
}

/// The network of a single address holds that address and no other.
pub proof fn lemma_host_network_holds_one_address(ip: IpAddr, other: IpAddr)
    ensures
        IpNetwork::spec_host(ip).spec_contains(other) <==> other == ip,
{
    match (ip, other) {
        (IpAddr::V4(a), IpAddr::V4(b)) => {
            assert(b & 0xFFFF_FFFFu32 == b) by (bit_vector);
        },
        (IpAddr::V6(a), IpAddr::V6(b)) => {
            assert(b & 0xFFFF_FFFF_FFFF_FFFF_FFFF_FFFF_FFFF_FFFFu128 == b) by (bit_vector);
        },
        _ => {},
    }
}

} // verus!
