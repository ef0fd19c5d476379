//! The STUN messages that an allocation sends and reads.
//!
//! A request is one of five shapes, and its shape fixes its attributes and
//! their order on the wire. A message that was read is kept as the values
//! that the allocation looks at. The bytes themselves are the codec's work;
//! see [`crate::stun_wire`].

use vstd::prelude::*;
use crate::net::SocketAddr;
use crate::stun_wire;
use crate::stun_wire::{
    same_bytes, wire_error_code, wire_header, wire_lifetime, wire_nonce, wire_realm, wire_request,
    wire_with_additional_ipv6, wire_with_channel_number, wire_with_lifetime, wire_with_message_integrity,
    wire_with_nonce, wire_with_realm, wire_with_requested_transport, wire_with_software, wire_with_username,
    wire_reads_additional_address_family, wire_reads_channel_number, wire_reads_message_integrity,
    wire_reads_requested_transport, wire_reads_software, wire_reads_username, wire_reads_xor_peer_address,
    wire_with_xor_peer_address, wire_xor_mapped_address, wire_xor_mapped_count, wire_xor_relay_address,
    wire_xor_relay_count,
};
use crate::time::Duration;

verus! {

/// The method of a binding request.
pub const BINDING: u16 = 0x001;

/// The method of a request for an allocation.
pub const ALLOCATE: u16 = 0x003;

/// The method of a request to refresh or delete an allocation.
pub const REFRESH: u16 = 0x004;

/// The method of a request to bind a channel.
pub const CHANNEL_BIND: u16 = 0x009;

/// The error code "unauthorized".
pub const UNAUTHORIZED: u16 = 401;

/// The error code "unknown attribute".
pub const UNKNOWN_ATTRIBUTE: u16 = 420;

/// The error code "allocation mismatch".
pub const ALLOCATION_MISMATCH: u16 = 437;

/// The error code "stale nonce".
pub const STALE_NONCE: u16 = 438;

/// The protocol number of UDP, the transport that an allocation asks for.
pub const UDP: u8 = 17;

/// The class of a message.
#[derive(Clone, Copy, Debug, PartialEq, Eq, Structural)]
pub enum MessageClass {
    Request,
    Indication,
    SuccessResponse,
    ErrorResponse,
}

/// The long-term credentials of one relay.
#[derive(Debug)]
pub struct Credentials {
    pub username: String,
    pub password: String,
    pub realm: String,
    /// The nonce that the relay issued last, once it has issued one.
    pub nonce: Option<String>,
}

impl Credentials {
    /// A copy of the credentials.
    pub fn duplicate(&self) -> (copy: Credentials)
        ensures
            copy == *self,
    {
        Credentials {
            username: self.username.clone(),
            password: self.password.clone(),
            realm: self.realm.clone(),
            nonce: match &self.nonce {
                Some(n) => Some(n.clone()),
                None => None,
            },
        }
    }
}

/// What a request asks for.
#[derive(Clone, Copy, Debug, PartialEq, Eq, Structural)]
pub enum RequestKind {
    /// Asks the relay which address it sees us at.
    Binding,
    /// Asks for an allocation.
    Allocate,
    /// Asks to keep the allocation alive.
    Refresh,
    /// Asks to give the allocation up: a refresh with a lifetime of zero.
    DeleteAllocation,
    /// Asks to bind `channel` to `peer`.
    ChannelBind { peer: SocketAddr, channel: u16 },
}

impl RequestKind {
    pub open spec fn spec_method(&self) -> u16 {
        match *self {
            RequestKind::Binding => BINDING,
            RequestKind::Allocate => ALLOCATE,
            RequestKind::Refresh => REFRESH,
            RequestKind::DeleteAllocation => REFRESH,
            RequestKind::ChannelBind { .. } => CHANNEL_BIND,
        }
    }

    /// The method under which the request goes out.
    #[verifier::when_used_as_spec(spec_method)]
    pub fn method(&self) -> (method: u16)
        ensures
            method == self.spec_method(),
    {
        match self {
            RequestKind::Binding => BINDING,
            RequestKind::Allocate => ALLOCATE,
            RequestKind::Refresh => REFRESH,
            RequestKind::DeleteAllocation => REFRESH,
            RequestKind::ChannelBind { .. } => CHANNEL_BIND,
        }
    }
}

/// A request as the allocation keeps it while it waits for the answer.
#[derive(Debug)]
pub struct Request {
    pub kind: RequestKind,
    /// The id under which the answer will come; it fits in twelve bytes.
    pub transaction_id: u128,
    /// The credentials that the request is signed with; `None` for a request
    /// that goes out unsigned.
    pub credentials: Option<Credentials>,
}

impl Request {
    /// A copy of the request.
    pub fn duplicate(&self) -> (copy: Request)
        ensures
            copy == *self,
    {
        Request {
            kind: self.kind,
            transaction_id: self.transaction_id,
            credentials: match &self.credentials {
                Some(c) => Some(c.duplicate()),
                None => None,
            },
        }
    }

    pub open spec fn spec_carries_nonce(&self) -> bool {
        self.credentials matches Some(c) && c.nonce is Some
    }

    /// Whether the request went out with a nonce.
    #[verifier::when_used_as_spec(spec_carries_nonce)]
    pub fn carries_nonce(&self) -> (carries: bool)
        ensures
            carries == self.spec_carries_nonce(),
    {
        match &self.credentials {
            Some(c) => c.nonce.is_some(),
            None => false,
        }
    }
}

/// `message` with `next` applied to it, where there is a message.
pub open spec fn and_then(message: Option<Seq<u8>>, next: spec_fn(Seq<u8>) -> Option<Seq<u8>>) -> Option<
    Seq<u8>,
> {
    match message {
        Some(bytes) => next(bytes),
        None => None,
    }
}

/// The bytes of the request of `kind` with the id `transaction_id`, before
/// it is signed.
///
/// Every request ends in the SOFTWARE attribute, but for the request to
/// delete, which carries its lifetime of zero behind it.
pub open spec fn spec_unsigned(kind: RequestKind, transaction_id: u128, software: Seq<char>) -> Option<Seq<u8>> {
    let start = wire_request(kind.spec_method(), transaction_id);
    match kind {
        RequestKind::Binding => and_then(start, |m: Seq<u8>| wire_with_software(m, software)),
        RequestKind::Allocate | RequestKind::Refresh => and_then(
            and_then(
                and_then(start, |m: Seq<u8>| wire_with_requested_transport(m, UDP)),
                |m: Seq<u8>| wire_with_additional_ipv6(m),
            ),
            |m: Seq<u8>| wire_with_software(m, software),
        ),
        RequestKind::DeleteAllocation => and_then(
            and_then(
                and_then(
                    and_then(start, |m: Seq<u8>| wire_with_requested_transport(m, UDP)),
                    |m: Seq<u8>| wire_with_additional_ipv6(m),
                ),
                |m: Seq<u8>| wire_with_software(m, software),
            ),
            |m: Seq<u8>| wire_with_lifetime(m, 0),
        ),
        RequestKind::ChannelBind { peer, channel } => and_then(
            and_then(
                and_then(start, |m: Seq<u8>| wire_with_xor_peer_address(m, peer)),
                |m: Seq<u8>| wire_with_channel_number(m, channel),
            ),
            |m: Seq<u8>| wire_with_software(m, software),
        ),
    }
}

/// `message` signed with `credentials`: the user name, the realm, the nonce
/// where there is one, and last the integrity of all that stands before it.
pub open spec fn spec_signed(message: Option<Seq<u8>>, credentials: Credentials) -> Option<Seq<u8>> {
    let named = and_then(
        and_then(message, |m: Seq<u8>| wire_with_username(m, credentials.username@)),
        |m: Seq<u8>| wire_with_realm(m, credentials.realm@),
    );
    let nonced = match credentials.nonce {
        Some(nonce) => and_then(named, |m: Seq<u8>| wire_with_nonce(m, nonce@)),
        None => named,
    };
    and_then(
        nonced,
        |m: Seq<u8>|
            wire_with_message_integrity(m, credentials.username@, credentials.realm@, credentials.password@),
    )
}

/// The bytes that `request` goes out as, from an allocation that names
/// itself `software`; `None` where the codec refuses a part of it.
pub open spec fn spec_encode(request: Request, software: Seq<char>) -> Option<Seq<u8>> {
    let unsigned = spec_unsigned(request.kind, request.transaction_id, software);
    match request.credentials {
        Some(credentials) => spec_signed(unsigned, credentials),
        None => unsigned,
    }
}

/// What `bytes` holds, as a sequence.
pub open spec fn bytes_of(bytes: Option<Vec<u8>>) -> Option<Seq<u8>> {
    match bytes {
        Some(b) => Some(b@),
        None => None,
    }
}

fn unsigned(kind: RequestKind, transaction_id: u128, software: &str) -> (bytes: Option<Vec<u8>>)
    ensures
        bytes_of(bytes) == spec_unsigned(kind, transaction_id, software@),
{
    let start = match stun_wire::request(kind.method(), transaction_id) {
        Some(m) => m,
        None => {
            return None;
        },
    };
    match kind {
        RequestKind::Binding => stun_wire::with_software(start.as_slice(), software),
        RequestKind::Allocate | RequestKind::Refresh => {
            let m = match stun_wire::with_requested_transport(start.as_slice(), UDP) {
                Some(m) => m,
                None => {
                    return None;
                },
            };
            let m = match stun_wire::with_additional_ipv6(m.as_slice()) {
                Some(m) => m,
                None => {
                    return None;
                },
            };
            stun_wire::with_software(m.as_slice(), software)
        },
        RequestKind::DeleteAllocation => {
            let m = match stun_wire::with_requested_transport(start.as_slice(), UDP) {
                Some(m) => m,
                None => {
                    return None;
                },
            };
            let m = match stun_wire::with_additional_ipv6(m.as_slice()) {
                Some(m) => m,
                None => {
                    return None;
                },
            };
            let m = match stun_wire::with_software(m.as_slice(), software) {
                Some(m) => m,
                None => {
                    return None;
                },
            };
            stun_wire::with_lifetime(m.as_slice(), 0)
        },
        RequestKind::ChannelBind { peer, channel } => {
            let m = match stun_wire::with_xor_peer_address(start.as_slice(), peer) {
                Some(m) => m,
                None => {
                    return None;
                },
            };
            let m = match stun_wire::with_channel_number(m.as_slice(), channel) {
                Some(m) => m,
                None => {
                    return None;
                },
            };
            stun_wire::with_software(m.as_slice(), software)
        },
    }
}

fn signed(message: Option<Vec<u8>>, credentials: &Credentials) -> (bytes: Option<Vec<u8>>)
    ensures
        bytes_of(bytes) == spec_signed(bytes_of(message), *credentials),
{
    let m = match message {
        Some(m) => m,
        None => {
            return None;
        },
    };
    let m = match stun_wire::with_username(m.as_slice(), credentials.username.as_str()) {
        Some(m) => m,
        None => {
            return None;
        },
    };
    let m = match stun_wire::with_realm(m.as_slice(), credentials.realm.as_str()) {
        Some(m) => m,
        None => {
            return None;
        },
    };
    let m = match &credentials.nonce {
        Some(nonce) => match stun_wire::with_nonce(m.as_slice(), nonce.as_str()) {
            Some(m) => m,
            None => {
                return None;
            },
        },
        None => m,
    };
    stun_wire::with_message_integrity(
        m.as_slice(),
        credentials.username.as_str(),
        credentials.realm.as_str(),
        credentials.password.as_str(),
    )
}

/// Writes `request` out, for an allocation that names itself `software`.
pub fn encode(request: &Request, software: &str) -> (bytes: Option<Vec<u8>>)
    ensures
        same_bytes(bytes, spec_encode(*request, software@)),
{
    let body = unsigned(request.kind, request.transaction_id, software);
    match &request.credentials {
        Some(credentials) => signed(body, credentials),
        None => body,
    }
}

/// A message that was read, as the values that an allocation looks at.
#[derive(Debug)]
pub struct DecodedMessage {
    pub class: MessageClass,
    pub method: u16,
    pub transaction_id: u128,
    /// The code of the error that the message reports, if it reports one.
    pub error_code: Option<u16>,
    pub nonce: Option<String>,
    pub realm: Option<String>,
    pub lifetime: Option<Duration>,
    /// The addresses at which the relay saw us, in the message's order.
    pub mapped_addresses: Vec<SocketAddr>,
    /// The addresses that the relay allocated for us, in the message's order.
    pub relay_addresses: Vec<SocketAddr>,
}

/// The values of a [`DecodedMessage`].
pub struct DecodedMessageView {
    pub class: MessageClass,
    pub method: u16,
    pub transaction_id: u128,
    pub error_code: Option<u16>,
    pub nonce: Option<Seq<char>>,
    pub realm: Option<Seq<char>>,
    pub lifetime: Option<Duration>,
    pub mapped_addresses: Seq<SocketAddr>,
    pub relay_addresses: Seq<SocketAddr>,
}

/// What `text` holds, as a sequence.
pub open spec fn text_of(text: Option<String>) -> Option<Seq<char>> {
    match text {
        Some(s) => Some(s@),
        None => None,
    }
}

impl View for DecodedMessage {
    type V = DecodedMessageView;

    open spec fn view(&self) -> DecodedMessageView {
        DecodedMessageView {
            class: self.class,
            method: self.method,
            transaction_id: self.transaction_id,
            error_code: self.error_code,
            nonce: text_of(self.nonce),
            realm: text_of(self.realm),
            lifetime: self.lifetime,
            mapped_addresses: self.mapped_addresses@,
            relay_addresses: self.relay_addresses@,
        }
    }
}

/// The addresses that a packet holds in `count` attributes of which `at`
/// gives the one at each index; `None` where the count or one of them is
/// missing.
pub open spec fn spec_addresses(count: Option<usize>, at: spec_fn(usize) -> Option<SocketAddr>) -> Option<
    Seq<SocketAddr>,
> {
    match count {
        None => None,
        Some(n) => if forall|i: usize| i < n ==> (#[trigger] at(i)) is Some {
            Some(Seq::new(n as nat, |i: int| at(i as usize).unwrap()))
        } else {
            None
        },
    }
}

/// The addresses of the XOR-MAPPED-ADDRESS attributes of `packet`.
pub open spec fn spec_mapped_addresses(packet: Seq<u8>) -> Option<Seq<SocketAddr>> {
    spec_addresses(wire_xor_mapped_count(packet), |i: usize| wire_xor_mapped_address(packet, i))
}

/// The addresses of the XOR-RELAYED-ADDRESS attributes of `packet`.
pub open spec fn spec_relay_addresses(packet: Seq<u8>) -> Option<Seq<SocketAddr>> {
    spec_addresses(wire_xor_relay_count(packet), |i: usize| wire_xor_relay_address(packet, i))
}

/// The lifetime that stands for `seconds` whole seconds on the wire.
pub open spec fn spec_lifetime(seconds: Option<u64>) -> Option<Duration> {
    match seconds {
        Some(s) => Some(Duration::spec_from_secs(s)),
        None => None,
    }
}

/// Whether the codec can read every attribute of the message in `packet`
/// that an allocation knows but does not look at in an answer.
pub open spec fn spec_reads_the_rest(packet: Seq<u8>) -> bool {
    &&& wire_reads_username(packet)
    &&& wire_reads_message_integrity(packet)
    &&& wire_reads_software(packet)
    &&& wire_reads_requested_transport(packet)
    &&& wire_reads_additional_address_family(packet)
    &&& wire_reads_xor_peer_address(packet)
    &&& wire_reads_channel_number(packet)
}

/// The message in `packet`.
///
/// A packet holds a message where the codec can read its header and every
/// attribute in it of a kind that an allocation knows. Attributes of other
/// kinds are passed over unread.
pub open spec fn spec_decode(packet: Seq<u8>) -> Option<DecodedMessageView> {
    if wire_header(packet) is Some && wire_error_code(packet) is Some && wire_nonce(packet) is Some
        && wire_realm(packet) is Some && wire_lifetime(packet) is Some && spec_mapped_addresses(packet) is Some
        && spec_relay_addresses(packet) is Some && spec_reads_the_rest(packet) {
        Some(
            DecodedMessageView {
                class: wire_header(packet).unwrap().0,
                method: wire_header(packet).unwrap().1,
                transaction_id: wire_header(packet).unwrap().2,
                error_code: wire_error_code(packet).unwrap(),
                nonce: wire_nonce(packet).unwrap(),
                realm: wire_realm(packet).unwrap(),
                lifetime: spec_lifetime(wire_lifetime(packet).unwrap()),
                mapped_addresses: spec_mapped_addresses(packet).unwrap(),
                relay_addresses: spec_relay_addresses(packet).unwrap(),
            },
        )
    } else {
        None
    }
}

fn reads_the_rest(packet: &[u8]) -> (readable: bool)
    ensures
        readable == spec_reads_the_rest(packet@),
{
    stun_wire::reads_username(packet) && stun_wire::reads_message_integrity(packet) && stun_wire::reads_software(
        packet,
    ) && stun_wire::reads_requested_transport(packet) && stun_wire::reads_additional_address_family(packet)
        && stun_wire::reads_xor_peer_address(packet) && stun_wire::reads_channel_number(packet)
}

fn mapped_addresses(packet: &[u8]) -> (addresses: Option<Vec<SocketAddr>>)
    ensures
        match addresses {
            Some(a) => spec_mapped_addresses(packet@) == Some(a@),
            None => spec_mapped_addresses(packet@) is None,
        },
{
    let count = match stun_wire::xor_mapped_count(packet) {
        Some(n) => n,
        None => {
            return None;
        },
    };
    let ghost at = |i: usize| wire_xor_mapped_address(packet@, i);
    let mut addresses: Vec<SocketAddr> = Vec::new();
    let mut i: usize = 0;
    while i < count
        invariant
            i <= count,
            wire_xor_mapped_count(packet@) == Some(count),
            at == |i: usize| wire_xor_mapped_address(packet@, i),
            addresses@.len() == i,
            forall|j: usize| j < i ==> (#[trigger] at(j)) == Some(addresses@[j as int]),
        decreases count - i,
    {
        match stun_wire::xor_mapped_address(packet, i) {
            Some(a) => addresses.push(a),
            None => {
                assert(at(i) is None);
                return None;
            },
        }
        i += 1;
    }
    assert(addresses@ =~= Seq::new(count as nat, |i: int| at(i as usize).unwrap()));
    Some(addresses)
}

fn relay_addresses(packet: &[u8]) -> (addresses: Option<Vec<SocketAddr>>)
    ensures
        match addresses {
            Some(a) => spec_relay_addresses(packet@) == Some(a@),
            None => spec_relay_addresses(packet@) is None,
        },
{
    let count = match stun_wire::xor_relay_count(packet) {
        Some(n) => n,
        None => {
            return None;
        },
    };
    let ghost at = |i: usize| wire_xor_relay_address(packet@, i);
    let mut addresses: Vec<SocketAddr> = Vec::new();
    let mut i: usize = 0;
    while i < count
        invariant
            i <= count,
            wire_xor_relay_count(packet@) == Some(count),
            at == |i: usize| wire_xor_relay_address(packet@, i),
            addresses@.len() == i,
            forall|j: usize| j < i ==> (#[trigger] at(j)) == Some(addresses@[j as int]),
        decreases count - i,
    {
        match stun_wire::xor_relay_address(packet, i) {
            Some(a) => addresses.push(a),
            None => {
                assert(at(i) is None);
                return None;
            },
        }
        i += 1;
    }
    assert(addresses@ =~= Seq::new(count as nat, |i: int| at(i as usize).unwrap()));
    Some(addresses)
}

/// Reads the message in `packet`.
pub fn decode(packet: &[u8]) -> (message: Option<DecodedMessage>)
    ensures
        match message {
            Some(m) => spec_decode(packet@) == Some(m@),
            None => spec_decode(packet@) is None,
        },
{
    let (class, method, transaction_id) = match stun_wire::header(packet) {
        Some(h) => h,
        None => {
            return None;
        },
    };
    let error_code = match stun_wire::error_code(packet) {
        Some(e) => e,
        None => {
            return None;
        },
    };
    let nonce = match stun_wire::nonce(packet) {
        Some(n) => n,
        None => {
            return None;
        },
    };
    let realm = match stun_wire::realm(packet) {
        Some(r) => r,
        None => {
            return None;
        },
    };
    let lifetime = match stun_wire::lifetime(packet) {
        Some(Some(seconds)) => Some(Duration::from_secs(seconds)),
        Some(None) => None,
        None => {
            return None;
        },
    };
    let mapped_addresses = match mapped_addresses(packet) {
        Some(a) => a,
        None => {
            return None;
        },
    };
    let relay_addresses = match relay_addresses(packet) {
        Some(a) => a,
        None => {
            return None;
        },
    };
    if !reads_the_rest(packet) {
        return None;
    }
    Some(
        DecodedMessage {
            class,
            method,
            transaction_id,
            error_code,
            nonce,
            realm,
            lifetime,
            mapped_addresses,
            relay_addresses,
        },
    )
}

} // verus!
