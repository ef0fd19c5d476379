//! The addresses under which a relay can be reached.

use vstd::prelude::*;
use crate::net::{SocketAddr, SocketAddrV4, SocketAddrV6};

verus! {

/// The socket addresses that we know of a relay.
#[derive(Clone, Copy, Debug, PartialEq, Eq, Hash, PartialOrd, Ord, Structural)]
pub enum RelaySocket {
    /// The relay is only reachable via IPv4.
    V4(SocketAddrV4),
    /// The relay is only reachable via IPv6.
    V6(SocketAddrV6),
    /// The relay is reachable via IPv4 and IPv6.
    Dual { v4: SocketAddrV4, v6: SocketAddrV6 },
}

impl RelaySocket {
    pub open spec fn spec_as_v4(&self) -> Option<SocketAddrV4> {
        match *self {
            RelaySocket::V4(v4) => Some(v4),
            RelaySocket::V6(_) => None,
            RelaySocket::Dual { v4, .. } => Some(v4),
        }
    }

    /// The relay's IPv4 address, if it has one.
    #[verifier::when_used_as_spec(spec_as_v4)]
    pub fn as_v4(&self) -> (v4: Option<SocketAddrV4>)
        ensures
            v4 == self.spec_as_v4(),
    {
        match self {
            RelaySocket::V4(v4) => Some(*v4),
            RelaySocket::V6(_) => None,
            RelaySocket::Dual { v4, .. } => Some(*v4),
        }
    }

    pub open spec fn spec_as_v6(&self) -> Option<SocketAddrV6> {
        match *self {
            RelaySocket::V4(_) => None,
            RelaySocket::V6(v6) => Some(v6),
            RelaySocket::Dual { v6, .. } => Some(v6),
        }
    }

    /// The relay's IPv6 address, if it has one.
    #[verifier::when_used_as_spec(spec_as_v6)]
    pub fn as_v6(&self) -> (v6: Option<SocketAddrV6>)
        ensures
            v6 == self.spec_as_v6(),
    {
        match self {
            RelaySocket::V4(_) => None,
            RelaySocket::V6(v6) => Some(*v6),
            RelaySocket::Dual { v6, .. } => Some(*v6),
        }
    }

    pub open spec fn spec_matches(&self, candidate: SocketAddr) -> bool {
        ||| self.spec_as_v4() matches Some(v4) && SocketAddr::V4(v4) == candidate
        ||| self.spec_as_v6() matches Some(v6) && SocketAddr::V6(v6) == candidate
    }

    /// Whether `candidate` is one of the relay's addresses.
    #[verifier::when_used_as_spec(spec_matches)]
    pub fn matches(&self, candidate: SocketAddr) -> (matches: bool)
        ensures
            matches == self.spec_matches(candidate),
    {
        let matches_v4 = match self.as_v4() {
            Some(v4) => SocketAddr::V4(v4) == candidate,
            None => false,
        };
        let matches_v6 = match self.as_v6() {
            Some(v6) => SocketAddr::V6(v6) == candidate,
            None => false,
        };
        matches_v4 || matches_v6
    }

    pub open spec fn spec_from_socket_addr(addr: SocketAddr) -> RelaySocket {
        match addr {
            SocketAddr::V4(v4) => RelaySocket::V4(v4),
            SocketAddr::V6(v6) => RelaySocket::V6(v6),
        }
    }

    /// The relay that is reachable at `addr` alone.
    #[verifier::when_used_as_spec(spec_from_socket_addr)]
    pub fn from_socket_addr(addr: SocketAddr) -> (relay: RelaySocket)
        ensures
            relay == Self::spec_from_socket_addr(addr),
    {
        match addr {
            SocketAddr::V4(v4) => RelaySocket::V4(v4),
            SocketAddr::V6(v6) => RelaySocket::V6(v6),
        }
    }

    /// The relay that is reachable at both `v4` and `v6`.
    pub fn dual(v4: SocketAddrV4, v6: SocketAddrV6) -> (relay: RelaySocket)
        ensures
            relay == (RelaySocket::Dual { v4, v6 }),
    {
        RelaySocket::Dual { v4, v6 }
    }
}

} // verus!
