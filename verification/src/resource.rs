//! The resources that a gateway gives access to.

use vstd::prelude::*;
use crate::ip_network::IpNetwork;
use crate::net::IpAddr;

verus! {

/// A resource that is reached by name.
#[derive(Debug)]
pub struct ResourceDescriptionDns {
    pub id: u128,
    /// The name of the host, with or without a port behind a colon.
    pub address: String,
    /// The address that stands for the resource inside the tunnel, for IPv4.
    pub ipv4: u32,
    /// The address that stands for the resource inside the tunnel, for IPv6.
    pub ipv6: u128,
    /// What the resource is called in the portal.
    pub name: String,
}

/// A resource that is a range of addresses.
#[derive(Debug)]
pub struct ResourceDescriptionCidr {
    pub id: u128,
    pub address: IpNetwork,
    /// What the resource is called in the portal.
    pub name: String,
}

/// A resource.
#[derive(Debug)]
pub enum ResourceDescription {
    Dns(ResourceDescriptionDns),
    Cidr(ResourceDescriptionCidr),
}

/// The part of `address` in front of its first colon: the name of the host
/// without the port.
pub open spec fn spec_host(address: Seq<char>) -> Seq<char>
    decreases address.len(),
{
    if address.len() == 0 || address[0] == ':' {
        Seq::empty()
    } else {
        seq![address[0]] + spec_host(address.drop_first())
    }
}

impl ResourceDescriptionDns {
    /// The name of the host to resolve: the address of the resource without
    /// the port that may stand behind it.
    pub fn host(&self) -> (host: &str)
        ensures
            host@ == spec_host(self.address@),
    {
        let address = self.address.as_str();
        let len = address.unicode_len();
        let mut i: usize = 0;
        assert(address@.skip(0) =~= address@);
        assert(address@.subrange(0, 0) + spec_host(address@) =~= spec_host(address@));
        while i < len
            invariant
                i <= len,
                len == address@.len(),
                address@ == self.address@,
                spec_host(address@) == address@.subrange(0, i as int) + spec_host(address@.skip(i as int)),
            decreases len - i,
        {
            assert(address@.skip(i as int)[0] == address@[i as int]);
            if address.get_char(i) == ':' {
                assert(spec_host(address@.skip(i as int)) =~= Seq::<char>::empty());
                assert(address@.subrange(0, i as int) + Seq::<char>::empty() =~= address@.subrange(0, i as int));
                return address.substring_char(0, i);
            }
            assert(spec_host(address@.skip(i as int)) == seq![address@[i as int]] + spec_host(
                address@.skip(i as int).drop_first(),
            ));
            assert(address@.skip(i as int).drop_first() =~= address@.skip(i + 1));
            assert(address@.subrange(0, i as int) + (seq![address@[i as int]] + spec_host(address@.skip(i + 1)))
                =~= address@.subrange(0, i + 1) + spec_host(address@.skip(i + 1)));
            i += 1;
        }
        assert(spec_host(address@.skip(i as int)) =~= Seq::<char>::empty());
        assert(address@.subrange(0, i as int) + Seq::<char>::empty() =~= address@);
        assert(address@.subrange(0, len as int) =~= address@);
        address.substring_char(0, len)
    }

    /// A copy of the resource.
    pub fn duplicate(&self) -> (copy: ResourceDescriptionDns)
        ensures
            copy == *self,
    {
        ResourceDescriptionDns {
            id: self.id,
            address: self.address.clone(),
            ipv4: self.ipv4,
            ipv6: self.ipv6,
            name: self.name.clone(),
        }
    }
}

impl ResourceDescription {
    pub open spec fn spec_id(&self) -> u128 {
        match *self {
            ResourceDescription::Dns(r) => r.id,
            ResourceDescription::Cidr(r) => r.id,
        }
    }

    /// The id of the resource.
    #[verifier::when_used_as_spec(spec_id)]
    pub fn id(&self) -> (id: u128)
        ensures
            id == self.spec_id(),
    {
        match self {
            ResourceDescription::Dns(r) => r.id,
            ResourceDescription::Cidr(r) => r.id,
        }
    }

    /// A copy of the resource.
    pub fn duplicate(&self) -> (copy: ResourceDescription)
        ensures
            copy == *self,
    {
        match self {
            ResourceDescription::Dns(r) => ResourceDescription::Dns(
                ResourceDescriptionDns {
                    id: r.id,
                    address: r.address.clone(),
                    ipv4: r.ipv4,
                    ipv6: r.ipv6,
                    name: r.name.clone(),
                },
            ),
            ResourceDescription::Cidr(r) => ResourceDescription::Cidr(
                ResourceDescriptionCidr { id: r.id, address: r.address, name: r.name.clone() },
            ),
        }
    }

    /// How many bits of `ip` the resource claims: all of them where `ip` is
    /// an address that stands for a resource by name, the length of the
    /// prefix where `ip` is in the range of a resource by range, and `None`
    /// where the resource has nothing to do with `ip`.
    pub open spec fn spec_claims(&self, ip: IpAddr) -> Option<u8> {
        match *self {
            ResourceDescription::Dns(r) => match ip {
                IpAddr::V4(bits) => if bits == r.ipv4 {
                    Some(32u8)
                } else {
                    None
                },
                IpAddr::V6(bits) => if bits == r.ipv6 {
                    Some(128u8)
                } else {
                    None
                },
            },
            ResourceDescription::Cidr(r) => if r.address.spec_contains(ip) {
                Some(r.address.spec_prefix())
            } else {
                None
            },
        }
    }

    /// How many bits of `ip` the resource claims.
    #[verifier::when_used_as_spec(spec_claims)]
    pub fn claims(&self, ip: IpAddr) -> (bits: Option<u8>)
        ensures
            bits == self.spec_claims(ip),
    {
        match self {
            ResourceDescription::Dns(r) => match ip {
                IpAddr::V4(bits) => if bits == r.ipv4 {
                    Some(32u8)
                } else {
                    None
                },
                IpAddr::V6(bits) => if bits == r.ipv6 {
                    Some(128u8)
                } else {
                    None
                },
            },
            ResourceDescription::Cidr(r) => if r.address.contains(ip) {
                Some(r.address.prefix())
            } else {
                None
            },
        }
    }
}

} // verus!
