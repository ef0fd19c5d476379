//! Names that the client and its IPC service agree on.

use vstd::prelude::*;
use crate::ip_network::IpNetwork;
use crate::net::IpAddr;
use crate::text::{ip_text, ip_text_of};

verus! {

/// The prefix that every named pipe's path starts with.
pub open spec fn spec_pipe_prefix() -> Seq<char> {
    r"\\.\pipe\"@
}

/// The bundle id of the client, under which its directories and pipes are named.
pub open spec fn spec_bundle_id() -> Seq<char> {
    "dev.firezone.client"@
}

/// The bundle id of the client, under which its directories and pipes are named.
pub fn bundle_id() -> (id: &'static str)
    ensures
        id@ == spec_bundle_id(),
{
    "dev.firezone.client"
}

/// The path of the named pipe called `id`.
pub fn named_pipe_path(id: &str) -> (path: String)
    ensures
        path@ == spec_pipe_prefix() + id@,
{
    let mut path = r"\\.\pipe\".to_owned();
    path.push_str(id);
    path
}

/// The path of the pipe between the GUI client and the IPC service.
pub fn pipe_path() -> (path: String)
    ensures
        path@ == spec_pipe_prefix() + spec_bundle_id() + ".ipc_service"@,
{
    let mut name = bundle_id().to_owned();
    name.push_str(".ipc_service");
    let path = named_pipe_path(name.as_str());
    assert(path@ =~= spec_pipe_prefix() + spec_bundle_id() + ".ipc_service"@);
    path
}

/// Where the headless client looks for its token when it is told nothing else.
pub fn default_token_path() -> (path: String)
    ensures
        path@ == "token.txt"@,
{
    "token.txt".to_owned()
}

/// The registry path of the name-resolution rules that apply while no group
/// policy is in effect.
pub fn local_nrpt_path() -> (path: &'static str)
    ensures
        path@ == r"SYSTEM\CurrentControlSet\Services\Dnscache\Parameters\DnsPolicyConfig"@,
{
    r"SYSTEM\CurrentControlSet\Services\Dnscache\Parameters\DnsPolicyConfig"
}

/// The registry path of the name-resolution rules that apply while a group
/// policy is in effect.
pub fn group_nrpt_path() -> (path: &'static str)
    ensures
        path@ == r"SOFTWARE\Policies\Microsoft\Windows NT\DNSClient\DnsPolicyConfig"@,
{
    r"SOFTWARE\Policies\Microsoft\Windows NT\DNSClient\DnsPolicyConfig"
}

/// Whether the headless client may read its token from `path`. On Windows
/// nothing is asked of the file, so every path passes.
pub fn check_token_permissions(path: &str) -> (check: Result<(), String>)
    ensures
        check is Ok,
{
    Ok(())
}

/// Whether `ip` can be a resolver of the system: every IPv4 address can, and
/// every IPv6 address but the site-local ones that start with `fec0:`,
/// which Windows makes up where it knows no resolver.
pub open spec fn spec_is_usable_resolver(ip: IpAddr) -> bool {
    match ip {
        IpAddr::V4(_) => true,
        IpAddr::V6(bits) => bits / 0x1_0000_0000_0000_0000_0000_0000_0000 != 0xfec0,
    }
}

/// Whether `ip` can be a resolver of the system.
#[verifier::when_used_as_spec(spec_is_usable_resolver)]
pub fn is_usable_resolver(ip: IpAddr) -> (usable: bool)
    ensures
        usable == spec_is_usable_resolver(ip),
{
    match ip {
        IpAddr::V4(_) => true,
        IpAddr::V6(bits) => bits / 0x1_0000_0000_0000_0000_0000_0000_0000 != 0xfec0,
    }
}

/// Of the first `upto` of `resolvers`, those that can be resolvers of the
/// system, in their order.
pub open spec fn spec_system_resolvers(resolvers: Seq<IpAddr>, upto: int) -> Seq<IpAddr>
    decreases upto,
{
    if upto <= 0 {
        Seq::empty()
    } else if spec_is_usable_resolver(resolvers[upto - 1]) {
        spec_system_resolvers(resolvers, upto - 1).push(resolvers[upto - 1])
    } else {
        spec_system_resolvers(resolvers, upto - 1)
    }
}

/// The resolvers of the system among `resolvers`, the addresses that the
/// adapters of the machine name as theirs.
pub fn system_resolvers(resolvers: &Vec<IpAddr>) -> (usable: Vec<IpAddr>)
    ensures
        usable@ == spec_system_resolvers(resolvers@, resolvers@.len() as int),
{
    let mut usable: Vec<IpAddr> = Vec::new();
    let mut i: usize = 0;
    while i < resolvers.len()
        invariant
            i <= resolvers@.len(),
            usable@ == spec_system_resolvers(resolvers@, i as int),
        decreases resolvers@.len() - i,
    {
        if is_usable_resolver(resolvers[i]) {
            usable.push(resolvers[i]);
        }
        i += 1;
    }
    usable
}

/// The texts of those of the first `upto` of `addresses` that `wanted`
/// takes, with a semicolon between each two.
pub open spec fn spec_joined(addresses: Seq<IpAddr>, wanted: spec_fn(IpAddr) -> bool, upto: int) -> Seq<char>
    decreases upto,
{
    if upto <= 0 {
        Seq::empty()
    } else if !wanted(addresses[upto - 1]) {
        spec_joined(addresses, wanted, upto - 1)
    } else if spec_joined(addresses, wanted, upto - 1).len() == 0 {
        ip_text_of(addresses[upto - 1])
    } else {
        spec_joined(addresses, wanted, upto - 1) + ";"@ + ip_text_of(addresses[upto - 1])
    }
}

/// Which addresses a list of name servers takes.
#[derive(Clone, Copy, Debug, PartialEq, Eq, Structural)]
pub enum Family {
    Any,
    V4,
    V6,
}

impl Family {
    pub open spec fn spec_takes(&self, ip: IpAddr) -> bool {
        match *self {
            Family::Any => true,
            Family::V4 => ip is V4,
            Family::V6 => ip is V6,
        }
    }

    /// Whether the list takes `ip`.
    #[verifier::when_used_as_spec(spec_takes)]
    pub fn takes(&self, ip: IpAddr) -> (takes: bool)
        ensures
            takes == self.spec_takes(ip),
    {
        match self {
            Family::Any => true,
            Family::V4 => ip.is_ipv4(),
            Family::V6 => ip.is_ipv6(),
        }
    }
}

/// The name servers of `family` among `dns_config`, as the registry wants
/// them: their texts with a semicolon between each two,
/// `100.100.111.1;100.100.111.2`.
pub fn nameservers(dns_config: &Vec<IpAddr>, family: Family) -> (list: String)
    ensures
        list@ == spec_joined(dns_config@, |ip: IpAddr| family.spec_takes(ip), dns_config@.len() as int),
{
    let ghost wanted = |ip: IpAddr| family.spec_takes(ip);
    let mut list = String::new();
    let mut i: usize = 0;
    while i < dns_config.len()
        invariant
            i <= dns_config@.len(),
            wanted == |ip: IpAddr| family.spec_takes(ip),
            list@ == spec_joined(dns_config@, wanted, i as int),
        decreases dns_config@.len() - i,
    {
        if family.takes(dns_config[i]) {
            assert(wanted(dns_config@[i as int]));
            let ghost before = list@;
            if list.as_str().unicode_len() > 0 {
                list.push_str(";");
            }
            list.push_str(ip_text(dns_config[i]).as_str());
            proof {
                if before.len() == 0 {
                    assert(list@ =~= ip_text_of(dns_config@[i as int]));
                } else {
                    assert(list@ =~= before + ";"@ + ip_text_of(dns_config@[i as int]));
                }
            }
        } else {
            assert(!wanted(dns_config@[i as int]));
        }
        i += 1;
    }
    list
}

/// Of the first `upto` of `routes`, those that are not among `others`, in
/// their order.
pub open spec fn spec_routes_missing_from(routes: Seq<IpNetwork>, others: Seq<IpNetwork>, upto: int) -> Seq<IpNetwork>
    decreases upto,
{
    if upto <= 0 {
        Seq::empty()
    } else if others.contains(routes[upto - 1]) {
        spec_routes_missing_from(routes, others, upto - 1)
    } else {
        spec_routes_missing_from(routes, others, upto - 1).push(routes[upto - 1])
    }
}

fn has_route(routes: &Vec<IpNetwork>, network: IpNetwork) -> (has: bool)
    ensures
        has == routes@.contains(network),
{
    let mut i: usize = 0;
    while i < routes.len()
        invariant
            i <= routes@.len(),
            forall|j: int| 0 <= j < i ==> routes@[j] != network,
        decreases routes@.len() - i,
    {
        if routes[i] == network {
            return true;
        }
        i += 1;
    }
    false
}

/// The routes of `routes` that are not among `others`, in their order: the
/// routes to add, where `routes` are the new ones and `others` those that
/// are set, and the routes to take away, the other way round.
pub fn routes_missing_from(routes: &Vec<IpNetwork>, others: &Vec<IpNetwork>) -> (missing: Vec<IpNetwork>)
    ensures
        missing@ == spec_routes_missing_from(routes@, others@, routes@.len() as int),
{
    let mut missing: Vec<IpNetwork> = Vec::new();
    let mut i: usize = 0;
    while i < routes.len()
        invariant
            i <= routes@.len(),
            missing@ == spec_routes_missing_from(routes@, others@, i as int),
        decreases routes@.len() - i,
    {
        if !has_route(others, routes[i]) {
            missing.push(routes[i]);
        }
        i += 1;
    }
    missing
}

/// What the service control manager asks of the IPC service.
#[derive(Clone, Copy, Debug, PartialEq, Eq, Structural)]
pub enum ServiceControl {
    Continue,
    HardwareProfileChange,
    Interrogate,
    NetBindAdd,
    NetBindDisable,
    NetBindEnable,
    NetBindRemove,
    ParamChange,
    Pause,
    PowerEvent,
    Preshutdown,
    SessionChange,
    Shutdown,
    Stop,
    TimeChange,
    TriggerEvent,
    UserEvent,
    /// A request that this version does not know.
    Unknown,
}

/// What the IPC service answers to the service control manager, and
/// whether it is to shut down.
#[derive(Clone, Copy, Debug, PartialEq, Eq, Structural)]
pub struct ServiceControlResponse {
    /// Whether the request was dealt with; a request that was not is
    /// answered as not implemented.
    pub handled: bool,
    pub shut_down: bool,
}

/// The answer of the IPC service to `control`: it shuts down when it is
/// stopped or the machine shuts down, takes note of what it is told about
/// the power, answers when it is interrogated or gets an event of its own,
/// and implements nothing else.
pub open spec fn spec_handle_service_control(control: ServiceControl) -> ServiceControlResponse {
    match control {
        ServiceControl::Interrogate | ServiceControl::PowerEvent | ServiceControl::UserEvent => ServiceControlResponse {
            handled: true,
            shut_down: false,
        },
        ServiceControl::Shutdown | ServiceControl::Stop => ServiceControlResponse { handled: true, shut_down: true },
        _ => ServiceControlResponse { handled: false, shut_down: false },
    }
}

/// The answer of the IPC service to `control`.
#[verifier::when_used_as_spec(spec_handle_service_control)]
pub fn handle_service_control(control: ServiceControl) -> (response: ServiceControlResponse)
    ensures
        response == spec_handle_service_control(control),
{
    match control {
        ServiceControl::Interrogate | ServiceControl::PowerEvent | ServiceControl::UserEvent => ServiceControlResponse {
            handled: true,
            shut_down: false,
        },
        ServiceControl::Shutdown | ServiceControl::Stop => ServiceControlResponse { handled: true, shut_down: true },
        _ => ServiceControlResponse { handled: false, shut_down: false },
    }
}

/// How the service's main loop ended.
#[derive(Clone, Copy, Debug, PartialEq, Eq, Structural)]
pub enum ServiceRunOutcome {
    /// The listener for IPC failed.
    ListenerFailed,
    /// The listener for IPC returned, which it does only on a signal that a
    /// service never gets.
    ListenerReturned,
    /// The channel on which the order to shut down comes was dropped.
    ShutdownChannelFailed,
    /// The order to shut down came.
    ShutdownRequested,
}

/// The exit code that the service reports: zero where it was asked to shut
/// down, one for every other end.
pub fn service_exit_code(outcome: ServiceRunOutcome) -> (code: u32)
    ensures
        code == (if outcome == ServiceRunOutcome::ShutdownRequested {
            0u32
        } else {
            1u32
        }),
{
    match outcome {
        ServiceRunOutcome::ShutdownRequested => 0,
        _ => 1,
    }
}

} // verus!
