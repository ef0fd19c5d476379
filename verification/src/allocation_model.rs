//! The allocation as a state machine: what it holds, and what each step
//! makes of it.
//!
//! Everything here is specification. [`crate::allocation::Allocation`] is the
//! code that takes these steps.

use vstd::prelude::*;
use crate::backoff;
use crate::backoff::ExponentialBackoff;
use crate::candidate::{spec_relayed, spec_server_reflexive, Candidate};
use crate::channel_bindings::ChannelBindingsView;
use crate::channel_data;
use crate::net::SocketAddr;
use crate::relay_socket::RelaySocket;
use crate::ringbuffer::spec_push;
use crate::stun::{
    spec_decode, spec_encode, Credentials, DecodedMessage, MessageClass, Request, RequestKind, ALLOCATE, ALLOCATION_MISMATCH,
    BINDING, CHANNEL_BIND, REFRESH, STALE_NONCE, UNAUTHORIZED, UNKNOWN_ATTRIBUTE,
};
use crate::time::{Duration, Instant};

verus! {

/// A request waits this many nanoseconds (one second) for its answer before
/// it is sent again for the first time.
pub const REQUEST_TIMEOUT_NANOS: u64 = 1_000_000_000;

/// The most peers that wait for a channel while there is no allocation.
pub const MAX_BUFFERED_CHANNEL_BINDINGS: usize = 100;

/// Why an allocation can be given up.
#[derive(Clone, Copy, Debug, PartialEq, Eq, Structural)]
pub enum FreeReason {
    /// The relay refused our credentials.
    AuthenticationError,
    /// The relay never answered.
    NoResponseReceived,
    /// The relay did not understand a request.
    ProtocolFailure,
}

/// What an allocation tells the ICE agent about its candidates.
#[derive(Clone, Copy, Debug, PartialEq, Eq, Structural)]
pub enum Event {
    /// The candidate can be used from now on.
    New(Candidate),
    /// The candidate can no longer be used.
    Invalid(Candidate),
}

/// An address on the relay that belongs to this allocation.
#[derive(Clone, Copy, Debug, PartialEq, Eq, Structural)]
pub struct Socket {
    pub address: SocketAddr,
}

impl Socket {
    /// The address that was allocated.
    pub fn address(&self) -> (address: SocketAddr)
        ensures
            address == self.address,
    {
        self.address
    }
}

/// A datagram to send, as a value.
pub struct TransmitView {
    pub src: Option<SocketAddr>,
    pub dst: SocketAddr,
    pub payload: Seq<u8>,
}

/// A request that waits for its answer.
#[derive(Debug)]
pub struct SentRequest {
    /// Where the request was sent.
    pub dst: SocketAddr,
    pub request: Request,
    /// When it was sent last.
    pub sent_at: Instant,
    /// How long it waits from then until it is sent again.
    pub backoff_duration: Duration,
    /// What governs the waits that follow.
    pub backoff: ExponentialBackoff,
}

/// Everything that an allocation holds.
pub struct AllocationView {
    /// Where the relay can be reached.
    pub server: RelaySocket,
    /// The address of the relay that answered first; every request but a
    /// binding request goes there.
    pub active_socket: Option<SocketAddr>,
    /// The name that the allocation puts into its requests.
    pub software: Seq<char>,
    pub ip4_srflx_candidate: Option<Candidate>,
    pub ip6_srflx_candidate: Option<Candidate>,
    pub ip4_allocation: Option<Candidate>,
    pub ip6_allocation: Option<Candidate>,
    /// When the allocation was granted or refreshed, and for how long.
    pub allocation_lifetime: Option<(Instant, Duration)>,
    /// The datagrams that wait to be sent, oldest first.
    pub buffered_transmits: Seq<TransmitView>,
    /// The events that wait to be read, oldest first.
    pub events: Seq<Event>,
    /// The requests that wait for an answer, by transaction id.
    pub sent_requests: Map<u128, SentRequest>,
    pub channel_bindings: ChannelBindingsView,
    /// The peers that wait for a channel until there is an allocation,
    /// oldest first.
    pub buffered_channel_bindings: Seq<SocketAddr>,
    /// The latest instant that the allocation has been told of.
    pub last_now: Instant,
    /// `None` once the relay has refused the credentials.
    pub credentials: Option<Credentials>,
    pub explicit_failure: Option<FreeReason>,
}

/// The first wait of a request.
pub open spec fn request_timeout() -> Duration {
    Duration { nanos: REQUEST_TIMEOUT_NANOS }
}

/// Whether `text` is `other`, where there is a text.
pub open spec fn differs_from(text: Option<String>, other: String) -> bool {
    text matches Some(t) && t@ != other@
}

/// The candidate for the first address among `addresses` that makes one,
/// seen from the local socket `local`.
pub open spec fn first_server_reflexive(addresses: Seq<SocketAddr>, local: SocketAddr) -> Option<Candidate>
    decreases addresses.len(),
{
    if addresses.len() == 0 {
        None
    } else {
        match spec_server_reflexive(addresses[0], local) {
            Some(c) => Some(c),
            None => first_server_reflexive(addresses.drop_first(), local),
        }
    }
}

/// The candidate for the first address among `addresses` that is of the
/// asked family and makes one.
pub open spec fn first_relayed(addresses: Seq<SocketAddr>, ipv4: bool) -> Option<Candidate>
    decreases addresses.len(),
{
    if addresses.len() == 0 {
        None
    } else if addresses[0].spec_is_ipv4() == ipv4 && spec_relayed(addresses[0]) is Some {
        spec_relayed(addresses[0])
    } else {
        first_relayed(addresses.drop_first(), ipv4)
    }
}

/// Whether none of `ids` is `id`.
pub open spec fn none_is(ids: Seq<u128>, id: u128) -> bool {
    forall|i: int| 0 <= i < ids.len() ==> #[trigger] ids[i] != id
}

/// What a new candidate makes of the current one, and the events that
/// announce it: a first candidate is new, a different one is new and makes
/// the old one invalid, the same one again changes nothing.
pub open spec fn update_candidate(maybe_new: Option<Candidate>, current: Option<Candidate>, events: Seq<Event>) -> (
    Option<Candidate>,
    Seq<Event>,
) {
    match (maybe_new, current) {
        (Some(new), Some(old)) => if new != old {
            (Some(new), events.push(Event::New(new)).push(Event::Invalid(old)))
        } else {
            (current, events)
        },
        (Some(new), None) => (Some(new), events.push(Event::New(new))),
        (None, _) => (current, events),
    }
}

impl SentRequest {
    /// The request was sent no later than `now`, it waits for more than no
    /// time at all, and so will it after every further wait.
    pub open spec fn wf(&self, now: Instant) -> bool {
        &&& self.sent_at.nanos <= now.nanos
        &&& self.backoff_duration.nanos > 0
        &&& self.backoff.current_interval.nanos > 0
        &&& self.backoff.max_interval.nanos > 0
    }

    /// Whether the request has waited long enough at `now` to be sent again.
    pub open spec fn timed_out(&self, now: Instant) -> bool {
        now.spec_duration_since(self.sent_at).nanos >= self.backoff_duration.nanos
    }

    /// When the request will have waited long enough.
    pub open spec fn deadline(&self) -> Instant {
        self.sent_at.spec_plus(self.backoff_duration)
    }
}

impl AllocationView {
    /// An allocation that has done nothing yet.
    pub open spec fn initial(
        server: RelaySocket,
        credentials: Credentials,
        software: Seq<char>,
        now: Instant,
    ) -> AllocationView {
        AllocationView {
            server,
            active_socket: None,
            software,
            ip4_srflx_candidate: None,
            ip6_srflx_candidate: None,
            ip4_allocation: None,
            ip6_allocation: None,
            allocation_lifetime: None,
            buffered_transmits: Seq::empty(),
            events: Seq::empty(),
            sent_requests: Map::empty(),
            channel_bindings: ChannelBindingsView::empty(),
            buffered_channel_bindings: Seq::empty(),
            last_now: now,
            credentials: Some(credentials),
            explicit_failure: None,
        }
    }

    /// What every allocation keeps to: its channel table is in order, no
    /// more peers wait for a channel than may, and every request that waits
    /// for its answer was sent no later than now and waits for a while.
    pub open spec fn wf(self) -> bool {
        &&& self.channel_bindings.wf()
        &&& self.buffered_channel_bindings.len() <= MAX_BUFFERED_CHANNEL_BINDINGS
        &&& self.sent_requests.dom().finite()
        &&& forall|id: u128| #[trigger] self.sent_requests.contains_key(id) ==> self.sent_requests[id].wf(self.last_now)
        &&& self.credentials is None ==> self.signed_out()
    }

    /// The allocation has no credentials, and no signed request waits for
    /// its answer.
    pub open spec fn signed_out(self) -> bool {
        &&& self.credentials is None
        &&& forall|id: u128| #[trigger]
            self.sent_requests.contains_key(id) ==> self.sent_requests[id].request.credentials is None
    }

    /// The clock moves forward only: an instant that is not later than the
    /// latest one is passed over.
    pub open spec fn update_now(self, now: Instant) -> AllocationView {
        if now.nanos <= self.last_now.nanos {
            self
        } else {
            AllocationView { last_now: now, ..self }
        }
    }

    pub open spec fn has_allocation(self) -> bool {
        self.ip4_allocation is Some || self.ip6_allocation is Some
    }

    /// Whether the allocation can relay to `peer`: it has an address of the
    /// peer's family.
    pub open spec fn can_relay_to(self, peer: SocketAddr) -> bool {
        match peer {
            SocketAddr::V4(_) => self.ip4_allocation is Some,
            SocketAddr::V6(_) => self.ip6_allocation is Some,
        }
    }

    /// Whether a request of `method` waits for its answer.
    pub open spec fn in_flight(self, method: u16) -> bool {
        exists|id: u128| #[trigger]
            self.sent_requests.contains_key(id) && self.sent_requests[id].request.kind.spec_method() == method
    }

    /// Whether a request to bind the channel `number` waits for its answer.
    pub open spec fn channel_binding_in_flight_by_number(self, number: u16) -> bool {
        exists|id: u128| #[trigger]
            self.sent_requests.contains_key(id) && (self.sent_requests[id].request.kind
                matches RequestKind::ChannelBind { channel, .. } && channel == number)
    }

    /// The channel numbers for which a request to bind waits for its answer.
    pub open spec fn channels_in_flight(self) -> Set<u16> {
        Set::new(|number: u16| self.channel_binding_in_flight_by_number(number))
    }

    /// Whether a channel to `peer` is on its way: a request to bind one waits
    /// for its answer, or the peer waits for an allocation.
    pub open spec fn channel_binding_in_flight_by_peer(self, peer: SocketAddr) -> bool {
        ||| exists|id: u128| #[trigger]
            self.sent_requests.contains_key(id) && (self.sent_requests[id].request.kind
                matches RequestKind::ChannelBind { peer: p, .. } && p == peer)
        ||| self.buffered_channel_bindings.contains(peer)
    }

    /// When the allocation is due for a refresh: after half its lifetime.
    pub open spec fn refresh_allocation_at(self) -> Option<Instant> {
        match self.allocation_lifetime {
            Some((received_at, lifetime)) => Some(received_at.spec_plus(lifetime.spec_half())),
            None => None,
        }
    }

    /// When the allocation is over.
    pub open spec fn allocation_expires_at(self) -> Option<Instant> {
        match self.allocation_lifetime {
            Some((received_at, lifetime)) => Some(received_at.spec_plus(lifetime)),
            None => None,
        }
    }

    /// Whether the allocation waits for `t`: a request that waits for its
    /// answer is due again then, or the allocation is due for a refresh then
    /// and none is under way.
    pub open spec fn waits_for(self, t: Instant) -> bool {
        ||| !self.in_flight(REFRESH) && self.refresh_allocation_at() == Some(t)
        ||| exists|id: u128| #[trigger]
            self.sent_requests.contains_key(id) && self.sent_requests[id].deadline() == t
    }

    /// Whether `t` is the first instant that the allocation waits for.
    pub open spec fn is_poll_timeout(self, t: Instant) -> bool {
        &&& self.waits_for(t)
        &&& forall|u: Instant| #[trigger] self.waits_for(u) ==> t.nanos <= u.nanos
    }

    /// The first instant that the allocation waits for, if it waits at all.
    pub open spec fn poll_timeout(self) -> Option<Instant> {
        if exists|t: Instant| self.is_poll_timeout(t) {
            Some(choose|t: Instant| self.is_poll_timeout(t))
        } else {
            None
        }
    }

    /// Whether the allocation has given up: it has no allocation, nothing
    /// waits for an answer or to be sent, and it waits for nothing.
    pub open spec fn is_suspended(self) -> bool {
        &&& !self.has_allocation()
        &&& self.sent_requests.is_empty()
        &&& self.buffered_transmits.len() == 0
        &&& self.poll_timeout() is None
    }

    /// The backoff that governs the next sending of a request: the one it
    /// had, with its clock set, or a fresh one for a request that is sent for
    /// the first time.
    pub open spec fn backoff_for(self, backoff: Option<ExponentialBackoff>) -> ExponentialBackoff {
        match backoff {
            Some(b) => ExponentialBackoff { now: self.last_now, ..b },
            None => backoff::spec_new(self.last_now, request_timeout()),
        }
    }

    /// Sends `request` to `dst`, and whether it was sent.
    ///
    /// The request goes out where its backoff still has a wait to give and
    /// the codec has bytes for it. It then waits for its answer under its
    /// transaction id, and its bytes wait to be sent.
    pub open spec fn queue(self, dst: SocketAddr, request: Request, backoff: Option<ExponentialBackoff>) -> (
        AllocationView,
        bool,
    ) {
        let backoff = self.backoff_for(backoff);
        match (backoff.spec_next(), spec_encode(request, self.software)) {
            (Some(duration), Some(bytes)) => (
                AllocationView {
                    sent_requests: self.sent_requests.insert(
                        request.transaction_id,
                        SentRequest {
                            dst,
                            request,
                            sent_at: self.last_now,
                            backoff_duration: duration,
                            backoff: backoff.spec_after_next(),
                        },
                    ),
                    buffered_transmits: self.buffered_transmits.push(
                        TransmitView { src: None, dst, payload: bytes },
                    ),
                    ..self
                },
                true,
            ),
            _ => (self, false),
        }
    }

    /// Sends a request of `kind` under the id `transaction_id`, signed with
    /// the credentials, to the active socket; and whether it was sent.
    ///
    /// Nothing is sent while no socket is active, and nothing once the
    /// credentials are gone.
    pub open spec fn authenticate_and_queue(
        self,
        kind: RequestKind,
        backoff: Option<ExponentialBackoff>,
        transaction_id: u128,
    ) -> (AllocationView, bool) {
        match (self.active_socket, self.credentials) {
            (Some(dst), Some(credentials)) => self.queue(
                dst,
                Request { kind, transaction_id, credentials: Some(credentials) },
                backoff,
            ),
            _ => (self, false),
        }
    }

    /// Gives the allocation up: its relayed candidates become invalid, IPv4
    /// first, and with them go the channels, the lifetime and every request
    /// that waits for an answer.
    pub open spec fn invalidate_allocation(self) -> AllocationView {
        let events = match self.ip4_allocation {
            Some(c) => self.events.push(Event::Invalid(c)),
            None => self.events,
        };
        let events = match self.ip6_allocation {
            Some(c) => events.push(Event::Invalid(c)),
            None => events,
        };
        AllocationView {
            ip4_allocation: None,
            ip6_allocation: None,
            events,
            channel_bindings: self.channel_bindings.clear(),
            allocation_lifetime: None,
            sent_requests: Map::empty(),
            ..self
        }
    }

    /// Sends a binding request to each address of the relay, IPv4 first,
    /// under the ids `id_v4` and `id_v6`.
    pub open spec fn send_binding_requests(self, id_v4: u128, id_v6: u128) -> AllocationView {
        let after_v4 = match self.server.spec_as_v4() {
            Some(v4) => self.queue(
                SocketAddr::V4(v4),
                Request { kind: RequestKind::Binding, transaction_id: id_v4, credentials: None },
                None,
            ).0,
            None => self,
        };
        match self.server.spec_as_v6() {
            Some(v6) => after_v4.queue(
                SocketAddr::V6(v6),
                Request { kind: RequestKind::Binding, transaction_id: id_v6, credentials: None },
                None,
            ).0,
            None => after_v4,
        }
    }

    /// A new allocation: it starts by asking the relay, at each of its
    /// addresses, where it sees us.
    pub open spec fn new(
        server: RelaySocket,
        credentials: Credentials,
        software: Seq<char>,
        now: Instant,
        id_v4: u128,
        id_v6: u128,
    ) -> AllocationView {
        Self::initial(server, credentials, software, now).send_binding_requests(id_v4, id_v6)
    }

    /// The step `refresh`.
    ///
    /// While the first allocation is being made there is nothing to refresh.
    /// An allocation that has given up starts over with binding requests.
    /// Any other asks the relay to refresh it.
    pub open spec fn refresh(self, now: Instant, id_a: u128, id_b: u128) -> AllocationView {
        let s = self.update_now(now);
        if !s.has_allocation() && s.in_flight(ALLOCATE) {
            s
        } else if s.is_suspended() {
            (AllocationView { active_socket: None, ..s }).send_binding_requests(id_a, id_b)
        } else {
            s.authenticate_and_queue(RequestKind::Refresh, None, id_a).0
        }
    }

    /// The step `bind_channel`.
    ///
    /// Nothing happens where the allocation has given up, where a channel
    /// to the peer is up or on its way, where the allocation has no address
    /// of the peer's family, or where no channel number is to be had. While
    /// there is no allocation at all the peer waits for one. Otherwise the
    /// peer gets a channel number and the relay is asked to bind it.
    pub open spec fn bind_channel(self, peer: SocketAddr, now: Instant, id: u128) -> AllocationView {
        if self.is_suspended() {
            self
        } else {
            let s = self.update_now(now);
            if s.channel_bindings.connected_channel_to_peer(peer, now) is Some {
                s
            } else if s.channel_binding_in_flight_by_peer(peer) {
                s
            } else if !s.has_allocation() {
                AllocationView {
                    buffered_channel_bindings: spec_push(
                        s.buffered_channel_bindings,
                        MAX_BUFFERED_CHANNEL_BINDINGS as nat,
                        peer,
                    ),
                    ..s
                }
            } else if !s.can_relay_to(peer) {
                s
            } else {
                let (table, number) = s.channel_bindings.new_channel_to_peer(peer, now);
                match number {
                    Some(channel) => (AllocationView { channel_bindings: table, ..s }).authenticate_and_queue(
                        RequestKind::ChannelBind { peer, channel },
                        None,
                        id,
                    ).0,
                    None => s,
                }
            }
        }
    }

    /// The allocation after the first `count` of the waiting peers have each
    /// been taken from the queue and bound with `bind_channel`, the peer at
    /// step `i` under the id `ids[i]`.
    pub open spec fn flush_steps(self, now: Instant, ids: Seq<u128>, count: nat) -> AllocationView
        decreases count,
    {
        if count == 0 {
            self
        } else {
            let s = self.flush_steps(now, ids, (count - 1) as nat);
            if s.buffered_channel_bindings.len() == 0 {
                s
            } else {
                (AllocationView {
                    buffered_channel_bindings: s.buffered_channel_bindings.drop_first(),
                    ..s
                }).bind_channel(s.buffered_channel_bindings[0], now, ids[count - 1])
            }
        }
    }

    /// The allocation after every waiting peer has been bound.
    pub open spec fn flush_buffered_channel_bindings(self, now: Instant, ids: Seq<u128>) -> AllocationView {
        self.flush_steps(now, ids, self.buffered_channel_bindings.len())
    }

    /// What an answer that reports the error `code` makes of the allocation.
    ///
    /// `request` is the request that was answered, already taken off the
    /// requests that wait; `id` is the id of the request that may follow.
    ///
    /// - "Unauthorized" to a request that carried a nonce, or an answer
    ///   that asks for credentials in the name of another realm: the
    ///   credentials are no good. They go, and the allocation with them.
    /// - "Unauthorized" or "stale nonce" otherwise: the nonce of the answer
    ///   is taken over and the request goes out again, signed with it.
    /// - "Allocation mismatch": the allocation is given up and made anew.
    /// - "Unknown attribute": the allocation notes a failure of the
    ///   protocol.
    /// - Any other error to a request for an allocation lets the waiting
    ///   peers go, and to a request to bind a channel the channel.
    pub open spec fn handle_error(self, request: Request, message: DecodedMessage, code: u16, id: u128) -> AllocationView {
        if code == UNAUTHORIZED && request.spec_carries_nonce() {
            (AllocationView { credentials: None, ..self }).invalidate_allocation()
        } else if code == UNAUTHORIZED || code == STALE_NONCE {
            match self.credentials {
                None => self,
                Some(credentials) => {
                    let credentials = match message.nonce {
                        Some(nonce) => Credentials { nonce: Some(nonce), ..credentials },
                        None => credentials,
                    };
                    if differs_from(message.realm, credentials.realm) {
                        (AllocationView { credentials: None, ..self }).invalidate_allocation()
                    } else {
                        (AllocationView { credentials: Some(credentials), ..self }).authenticate_and_queue(
                            request.kind,
                            None,
                            id,
                        ).0
                    }
                },
            }
        } else if code == ALLOCATION_MISMATCH {
            let s = self.invalidate_allocation();
            if message.method == ALLOCATE {
                s.authenticate_and_queue(RequestKind::DeleteAllocation, None, id).0
            } else if message.method == REFRESH {
                s.authenticate_and_queue(RequestKind::Allocate, None, id).0
            } else if message.method == CHANNEL_BIND {
                let s = s.authenticate_and_queue(RequestKind::Allocate, None, id).0;
                match request.kind {
                    RequestKind::ChannelBind { peer, .. } => AllocationView {
                        buffered_channel_bindings: spec_push(
                            s.buffered_channel_bindings,
                            MAX_BUFFERED_CHANNEL_BINDINGS as nat,
                            peer,
                        ),
                        ..s
                    },
                    _ => s,
                }
            } else {
                s
            }
        } else if code == UNKNOWN_ATTRIBUTE {
            AllocationView { explicit_failure: Some(FreeReason::ProtocolFailure), ..self }
        } else if message.method == ALLOCATE {
            AllocationView { buffered_channel_bindings: Seq::empty(), ..self }
        } else if message.method == CHANNEL_BIND {
            match request.kind {
                RequestKind::ChannelBind { channel, .. } => AllocationView {
                    channel_bindings: self.channel_bindings.handle_failed_binding(channel),
                    ..self
                },
                _ => self,
            }
        } else {
            self
        }
    }

    /// What a successful answer to a binding request makes of the allocation.
    pub open spec fn handle_binding_success(
        self,
        original_dst: SocketAddr,
        local: SocketAddr,
        message: DecodedMessage,
        id: u128,
    ) -> AllocationView {
        let candidate = first_server_reflexive(message.mapped_addresses@, local);
        let s = match original_dst {
            SocketAddr::V4(_) => {
                let (current, events) = update_candidate(candidate, self.ip4_srflx_candidate, self.events);
                AllocationView { ip4_srflx_candidate: current, events, ..self }
            },
            SocketAddr::V6(_) => {
                let (current, events) = update_candidate(candidate, self.ip6_srflx_candidate, self.events);
                AllocationView { ip6_srflx_candidate: current, events, ..self }
            },
        };
        if s.active_socket is Some {
            s
        } else {
            let s = AllocationView { active_socket: Some(original_dst), ..s };
            if s.has_allocation() {
                s.authenticate_and_queue(RequestKind::Refresh, None, id).0
            } else {
                s.authenticate_and_queue(RequestKind::Allocate, None, id).0
            }
        }
    }

    /// What a successful answer to a request for an allocation makes of it.
    pub open spec fn handle_allocate_success(self, message: DecodedMessage, now: Instant, ids: Seq<u128>) -> AllocationView {
        match message.lifetime {
            None => self,
            Some(lifetime) => {
                let ip4 = first_relayed(message.relay_addresses@, true);
                let ip6 = first_relayed(message.relay_addresses@, false);
                if ip4 is None && ip6 is None {
                    self
                } else {
                    let (ip4_allocation, events) = update_candidate(ip4, self.ip4_allocation, self.events);
                    let (ip6_allocation, events) = update_candidate(ip6, self.ip6_allocation, events);
                    (AllocationView {
                        allocation_lifetime: Some((now, lifetime)),
                        ip4_allocation,
                        ip6_allocation,
                        events,
                        ..self
                    }).flush_buffered_channel_bindings(now, ids)
                }
            },
        }
    }

    /// What a successful answer makes of the allocation.
    pub open spec fn handle_success(
        self,
        original_dst: SocketAddr,
        request: Request,
        local: SocketAddr,
        message: DecodedMessage,
        now: Instant,
        id: u128,
        flush_ids: Seq<u128>,
    ) -> AllocationView {
        if message.method == BINDING {
            self.handle_binding_success(original_dst, local, message, id)
        } else if message.method == ALLOCATE {
            self.handle_allocate_success(message, now, flush_ids)
        } else if message.method == REFRESH {
            match message.lifetime {
                None => self,
                Some(lifetime) => if lifetime.nanos == 0 {
                    self.authenticate_and_queue(RequestKind::Allocate, None, id).0
                } else {
                    AllocationView { allocation_lifetime: Some((now, lifetime)), ..self }
                },
            }
        } else if message.method == CHANNEL_BIND {
            match request.kind {
                RequestKind::ChannelBind { channel, .. } => AllocationView {
                    channel_bindings: self.channel_bindings.set_confirmed(channel, now).0,
                    ..self
                },
                _ => self,
            }
        } else {
            self
        }
    }

    /// The step `handle_message`: what a message from the relay makes of the
    /// allocation, and whether the message was an answer to one of its
    /// requests.
    ///
    /// A request that follows from the message goes out under `id`; the
    /// peers that get their channel once an allocation is granted are bound
    /// under `flush_ids`.
    pub open spec fn handle_message(
        self,
        local: SocketAddr,
        message: DecodedMessage,
        now: Instant,
        id: u128,
        flush_ids: Seq<u128>,
    ) -> (AllocationView, bool) {
        if !self.sent_requests.contains_key(message.transaction_id) {
            (self, false)
        } else {
            let sent = self.sent_requests[message.transaction_id];
            let s = AllocationView { sent_requests: self.sent_requests.remove(message.transaction_id), ..self };
            match message.error_code {
                Some(code) => (s.handle_error(sent.request, message, code, id), true),
                None => if message.class != MessageClass::SuccessResponse {
                    (s, true)
                } else {
                    (s.handle_success(sent.dst, sent.request, local, message, now, id, flush_ids), true)
                },
            }
        }
    }

    /// Whether `handle_input` may make `post` of the allocation, and answer
    /// `handled`, on a packet from `from`.
    ///
    /// A packet that is not from the relay, or that holds no message, moves
    /// the clock and nothing else. Any other is dealt with as the message it
    /// holds; the requests that follow from it go out under ids that the
    /// allocation draws.
    pub open spec fn handle_input(
        self,
        from: SocketAddr,
        local: SocketAddr,
        packet: Seq<u8>,
        now: Instant,
        post: AllocationView,
        handled: bool,
    ) -> bool {
        let s = self.update_now(now);
        if !s.server.spec_matches(from) || spec_decode(packet) is None {
            post == s && !handled
        } else {
            exists|message: DecodedMessage, id: u128, flush_ids: Seq<u128>|
                spec_decode(packet) == Some(message@) && (post, handled) == #[trigger] s.handle_message(
                    local,
                    message,
                    now,
                    id,
                    flush_ids,
                )
        }
    }

    /// What sending the request under `id` again makes of the allocation,
    /// where it waits and has waited long enough.
    ///
    /// A binding request goes out again as it is. Any other is signed anew
    /// and goes out under the id `next_id`; where that fails for a refresh,
    /// the relay is taken to be out of reach and the allocation is given up.
    pub open spec fn retransmit(self, id: u128, now: Instant, next_id: u128) -> AllocationView {
        if !self.sent_requests.contains_key(id) || !self.sent_requests[id].timed_out(now) {
            self
        } else {
            let sent = self.sent_requests[id];
            let s = AllocationView { sent_requests: self.sent_requests.remove(id), ..self };
            if sent.request.kind.spec_method() != BINDING {
                let (queued, sent_again) = s.authenticate_and_queue(sent.request.kind, Some(sent.backoff), next_id);
                if !sent_again && sent.request.kind.spec_method() == REFRESH {
                    (AllocationView { active_socket: None, ..queued }).invalidate_allocation()
                } else {
                    queued
                }
            } else {
                s.queue(sent.dst, sent.request, Some(sent.backoff)).0
            }
        }
    }

    /// The allocation after the requests under the first `count` of `due`
    /// have each been looked at and, where due, sent again; the request at
    /// step `i` under the new id `ids[i]`.
    pub open spec fn retransmit_steps(self, due: Seq<u128>, now: Instant, ids: Seq<u128>, count: nat) -> AllocationView
        decreases count,
    {
        if count == 0 {
            self
        } else {
            self.retransmit_steps(due, now, ids, (count - 1) as nat).retransmit(
                due[count - 1],
                now,
                ids[count - 1],
            )
        }
    }

    /// The allocation after the first `count` of `channels` have each been
    /// sent to the relay to be bound again, the one at step `i` under the id
    /// `ids[i]`.
    pub open spec fn refresh_channel_steps(self, channels: Seq<(u16, SocketAddr)>, ids: Seq<u128>, count: nat) -> AllocationView
        decreases count,
    {
        if count == 0 {
            self
        } else {
            self.refresh_channel_steps(channels, ids, (count - 1) as nat).authenticate_and_queue(
                RequestKind::ChannelBind { peer: channels[count - 1].1, channel: channels[count - 1].0 },
                None,
                ids[count - 1],
            ).0
        }
    }

    /// Whether `ids` lists the transaction ids of the requests that wait,
    /// each once, smallest first.
    pub open spec fn waiting_in_order(self, ids: Seq<u128>) -> bool {
        &&& forall|i: int, j: int| 0 <= i < j < ids.len() ==> ids[i] < ids[j]
        &&& forall|id: u128| #[trigger] self.sent_requests.contains_key(id) <==> ids.contains(id)
    }

    /// The first part of the step `handle_timeout`: the clock moves on, and
    /// an allocation whose lifetime is over is given up.
    pub open spec fn expire(self, now: Instant) -> AllocationView {
        let s = self.update_now(now);
        match s.allocation_expires_at() {
            Some(expires_at) => if now.nanos >= expires_at.nanos {
                s.invalidate_allocation()
            } else {
                s
            },
            None => s,
        }
    }

    /// The third part of the step `handle_timeout`: an allocation that is
    /// due for a refresh, with none under way, asks for one under `id`.
    pub open spec fn refresh_if_due(self, now: Instant, id: u128) -> AllocationView {
        match self.refresh_allocation_at() {
            Some(refresh_at) => if now.nanos >= refresh_at.nanos && !self.in_flight(REFRESH) {
                self.authenticate_and_queue(RequestKind::Refresh, None, id).0
            } else {
                self
            },
            None => self,
        }
    }

    /// The last part of the step `handle_timeout`: every channel that is due
    /// for a refresh, and for which none is under way, is sent to the relay
    /// to be bound again; the channel at step `i` under the id `ids[i]`.
    pub open spec fn refresh_channels(self, now: Instant, ids: Seq<u128>) -> AllocationView {
        let channels = self.channel_bindings.channels_to_refresh(now, self.channels_in_flight());
        self.refresh_channel_steps(channels, ids, channels.len())
    }

    /// The step `handle_timeout`.
    ///
    /// `due` lists the requests that wait once an allocation whose lifetime
    /// is over has been given up, smallest id first; they are looked at in
    /// that order and sent again under `retransmit_ids`. The refresh of the
    /// allocation goes out under `refresh_id`, those of the channels under
    /// `channel_ids`.
    pub open spec fn handle_timeout_with(
        self,
        now: Instant,
        due: Seq<u128>,
        retransmit_ids: Seq<u128>,
        refresh_id: u128,
        channel_ids: Seq<u128>,
    ) -> AllocationView {
        self.expire(now).retransmit_steps(due, now, retransmit_ids, due.len()).refresh_if_due(
            now,
            refresh_id,
        ).refresh_channels(now, channel_ids)
    }

    /// The channels that the step `handle_timeout` asks the relay to bind
    /// again, once it has sent again what was due and asked for the refresh
    /// of the allocation.
    pub open spec fn channels_refreshed_at_timeout(
        self,
        now: Instant,
        due: Seq<u128>,
        retransmit_ids: Seq<u128>,
        refresh_id: u128,
    ) -> Seq<(u16, SocketAddr)> {
        let s = self.expire(now).retransmit_steps(due, now, retransmit_ids, due.len()).refresh_if_due(
            now,
            refresh_id,
        );
        s.channel_bindings.channels_to_refresh(now, s.channels_in_flight())
    }

    /// Whether `handle_timeout` may work with these ids: `due` lists the
    /// requests that wait, smallest id first; there is a new id for each of
    /// them and for each channel that is bound again; and no new id is the
    /// id of a request that waits.
    pub open spec fn draws_at_timeout(
        self,
        now: Instant,
        due: Seq<u128>,
        retransmit_ids: Seq<u128>,
        refresh_id: u128,
        channel_ids: Seq<u128>,
    ) -> bool {
        &&& self.expire(now).waiting_in_order(due)
        &&& retransmit_ids.len() == due.len()
        &&& channel_ids.len() == self.channels_refreshed_at_timeout(now, due, retransmit_ids, refresh_id).len()
        &&& forall|id: u128| #[trigger]
            self.expire(now).sent_requests.contains_key(id) ==> none_is(retransmit_ids, id) && refresh_id != id
                && none_is(channel_ids, id)
    }

    /// Whether `handle_timeout` may make `post` of the allocation: it takes
    /// the step above on the requests that wait, in the order of their ids,
    /// under ids that the allocation draws afresh.
    pub open spec fn handle_timeout(self, now: Instant, post: AllocationView) -> bool {
        exists|due: Seq<u128>, retransmit_ids: Seq<u128>, refresh_id: u128, channel_ids: Seq<u128>|
            self.draws_at_timeout(now, due, retransmit_ids, refresh_id, channel_ids) && post
                == #[trigger] self.handle_timeout_with(now, due, retransmit_ids, refresh_id, channel_ids)
    }

    /// The reason for which the allocation can be given up, if there is one.
    ///
    /// A failure that was noted is the reason for as long as the allocation
    /// lives. Otherwise an allocation with nothing left to do can go where
    /// the relay never answered, or where its credentials are gone.
    pub open spec fn can_be_freed(self) -> Option<FreeReason> {
        match self.explicit_failure {
            Some(reason) => Some(reason),
            None => {
                let pending_work = self.events.len() > 0 || self.buffered_transmits.len() > 0
                    || !self.sent_requests.is_empty();
                if !pending_work && self.active_socket is None {
                    Some(FreeReason::NoResponseReceived)
                } else if !pending_work && self.credentials is None {
                    Some(FreeReason::AuthenticationError)
                } else {
                    None
                }
            },
        }
    }

    /// Our address on the relay for IPv4 peers.
    pub open spec fn ip4_socket(self) -> Option<Socket> {
        match self.ip4_allocation {
            Some(c) => Some(Socket { address: c.addr }),
            None => None,
        }
    }

    /// Our address on the relay for IPv6 peers.
    pub open spec fn ip6_socket(self) -> Option<Socket> {
        match self.ip6_allocation {
            Some(c) => Some(Socket { address: c.addr }),
            None => None,
        }
    }

    /// The step `decapsulate`: what the packet makes of the allocation, and
    /// what it carried.
    ///
    /// A channel-data frame from the relay on a confirmed channel counts as
    /// an arrival on that channel. It yields the channel's peer, its payload
    /// and our address on the relay for the peer's family, where we have one.
    pub open spec fn decapsulate(self, from: SocketAddr, packet: Seq<u8>, now: Instant) -> (
        AllocationView,
        Option<(SocketAddr, Seq<u8>, Socket)>,
    ) {
        if !self.server.spec_matches(from) {
            (self, None)
        } else {
            let (table, decoded) = self.channel_bindings.try_decode(packet, now);
            let s = AllocationView { channel_bindings: table, ..self };
            match decoded {
                None => (s, None),
                Some((peer, payload)) => {
                    let socket = match peer {
                        SocketAddr::V4(_) => self.ip4_socket(),
                        SocketAddr::V6(_) => self.ip6_socket(),
                    };
                    match socket {
                        Some(socket) => (s, Some((peer, payload, socket))),
                        None => (s, None),
                    }
                },
            }
        }
    }

    /// The datagram that carries `payload` to `peer` over the relay: the
    /// payload framed for the channel that is connected to the peer, sent to
    /// the active socket; `None` where there is no such channel or no active
    /// socket.
    pub open spec fn encode_to_transmit(self, peer: SocketAddr, payload: Seq<u8>, now: Instant) -> Option<TransmitView> {
        match (self.channel_bindings.connected_channel_to_peer(peer, now), self.active_socket) {
            (Some(channel), Some(dst)) => Some(
                TransmitView { src: None, dst, payload: channel_data::spec_encode(channel, payload) },
            ),
            _ => None,
        }
    }
}

/// The first instant that an allocation waits for is the only one of its
/// kind.
pub proof fn lemma_poll_timeout_is_unique(s: AllocationView, t: Instant)
    requires
        s.is_poll_timeout(t),
    ensures
        s.poll_timeout() == Some(t),
{
    let c = choose|c: Instant| s.is_poll_timeout(c);
    assert(s.is_poll_timeout(c));
    assert(s.waits_for(c));
    assert(s.waits_for(t));
    assert(c.nanos == t.nanos);
}

} // verus!
