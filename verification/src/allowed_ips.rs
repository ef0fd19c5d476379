//! The table of networks that a peer may send from and receive for.
//!
//! Nothing in this file is proved. The table is the prefix tree of
//! `ip_network_table`; the functions here say what it holds after each call
//! and what a lookup finds in it.

use ip_network_table::IpNetworkTable;
use vstd::prelude::*;
use crate::ip_network::IpNetwork;
use crate::net::IpAddr;

verus! {

/// A prefix tree of networks, each with a value.
#[verifier::external_type_specification]
#[verifier::external_body]
#[verifier::reject_recursive_types(T)]
pub struct ExIpNetworkTable<T>(IpNetworkTable<T>);

/// The networks that `table` holds.
pub uninterp spec fn networks(table: IpNetworkTable<()>) -> Set<IpNetwork>;

/// Whether `network` is the answer of `table` for `ip`: the table holds it,
/// it holds `ip`, and no network of the table that holds `ip` has a longer
/// prefix.
pub open spec fn is_longest_match(table: IpNetworkTable<()>, ip: IpAddr, network: IpNetwork) -> bool {
    &&& networks(table).contains(network)
    &&& network.spec_contains(ip)
    &&& forall|other: IpNetwork| #[trigger]
        networks(table).contains(other) && other.spec_contains(ip) ==> other.spec_prefix() <= network.spec_prefix()
}

/// Calls `IpNetworkTable::new`.
#[verifier::external_body]
pub(crate) fn new_table() -> (table: IpNetworkTable<()>)
    ensures
        networks(table) == Set::<IpNetwork>::empty(),
{
    IpNetworkTable::new()
}

/// Calls `IpNetwork::new` and `IpNetworkTable::insert`.
///
/// `IpNetwork::new` accepts every network whose prefix is no longer than an
/// address and whose address has no bit set behind the prefix.
#[verifier::external_body]
pub(crate) fn insert(table: &mut IpNetworkTable<()>, network: IpNetwork)
    requires
        network.wf(),
    ensures
        networks(*final(table)) == networks(*old(table)).insert(network),
{
    let converted = match network {
        IpNetwork::V4 { addr, prefix } => ip_network::IpNetwork::new(core::net::Ipv4Addr::from_bits(addr), prefix),
        IpNetwork::V6 { addr, prefix } => ip_network::IpNetwork::new(core::net::Ipv6Addr::from_bits(addr), prefix),
    };
    if let Ok(converted) = converted {
        table.insert(converted, ());
    }
}

/// Calls `IpNetworkTable::longest_match`.
#[verifier::external_body]
pub(crate) fn longest_match(table: &IpNetworkTable<()>, ip: IpAddr) -> (found: Option<IpNetwork>)
    ensures
        match found {
            Some(network) => is_longest_match(*table, ip, network),
            None => forall|other: IpNetwork| #[trigger] networks(*table).contains(other) ==> !other.spec_contains(ip),
        },
{
    let found = match ip {
        IpAddr::V4(bits) => table.longest_match(core::net::Ipv4Addr::from_bits(bits)),
        IpAddr::V6(bits) => table.longest_match(core::net::Ipv6Addr::from_bits(bits)),
    };
    match found?.0 {
        ip_network::IpNetwork::V4(n) => Some(IpNetwork::V4 { addr: n.network_address().to_bits(), prefix: n.netmask() }),
        ip_network::IpNetwork::V6(n) => Some(IpNetwork::V6 { addr: n.network_address().to_bits(), prefix: n.netmask() }),
    }
}

/// Calls `IpNetworkTable::iter`. The order in which the networks come is the
/// table's own.
#[verifier::external_body]
pub(crate) fn all_networks(table: &IpNetworkTable<()>) -> (all: Vec<IpNetwork>)
    ensures
        all@.to_set() == networks(*table),
{
    table.iter().map(|(network, _)| match network {
        ip_network::IpNetwork::V4(n) => IpNetwork::V4 { addr: n.network_address().to_bits(), prefix: n.netmask() },
        ip_network::IpNetwork::V6(n) => IpNetwork::V6 { addr: n.network_address().to_bits(), prefix: n.netmask() },
    }).collect()
}

} // verus!
