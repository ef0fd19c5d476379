//! The client side of a TURN allocation on one relay.
//!
//! An [`Allocation`] finds out where the relay sees us, asks it for relayed
//! addresses, keeps them alive, binds channels to peers and frames the data
//! that goes over them. It never reads a clock or a socket: the caller tells
//! it the time, hands it what arrived, and sends what it has queued.
//!
//! What each step does is written down in [`crate::allocation_model`]; every
//! method here is proved to take the step of the same name.

use std::collections::{BTreeMap, VecDeque};
use vstd::prelude::*;
pub use crate::allocation_model::{
    AllocationView, Event, FreeReason, SentRequest, Socket, TransmitView, MAX_BUFFERED_CHANNEL_BINDINGS,
    REQUEST_TIMEOUT_NANOS,
};
use crate::allocation_laws::{
    lemma_new_allocation_has_requests_in_order, lemma_requests_stay_in_order, requests_in_order,
};
use crate::allocation_model::{first_relayed, first_server_reflexive, none_is, update_candidate};
use crate::backoff;
use crate::backoff::ExponentialBackoff;
use crate::candidate::Candidate;
use crate::channel_bindings::ChannelBindings;
use crate::channel_data;
use crate::net::SocketAddr;
use crate::ordered_keys::transaction_ids;
pub use crate::relay_socket::RelaySocket;
use crate::ringbuffer::RingBuffer;
use crate::stun;
use crate::stun::{
    Credentials, DecodedMessage, MessageClass, Request, RequestKind, ALLOCATE, ALLOCATION_MISMATCH, BINDING,
    CHANNEL_BIND, REFRESH, STALE_NONCE, UNAUTHORIZED, UNKNOWN_ATTRIBUTE,
};
use crate::stun_wire::random_transaction_id;
use crate::time::{earliest, Duration, Instant};

verus! {

broadcast use {vstd::std_specs::btree::group_btree_axioms, vstd::laws_cmp::group_laws_cmp};

/// A datagram whose payload stands in a buffer that was handed in, behind
/// room for the channel-data header.
#[derive(Debug)]
pub struct EncryptedPacket {
    pub src: Option<SocketAddr>,
    pub dst: SocketAddr,
    /// Where the datagram starts in `buffer`.
    pub packet_start: usize,
    /// How many bytes of `buffer` the datagram takes.
    pub packet_len: usize,
    pub buffer: Vec<u8>,
}

/// A datagram to send.
#[derive(Debug)]
pub struct Transmit {
    /// The local address to send from; `None` leaves the choice to the
    /// sender.
    pub src: Option<SocketAddr>,
    /// The address to send to.
    pub dst: SocketAddr,
    pub payload: Vec<u8>,
}

impl View for Transmit {
    type V = TransmitView;

    open spec fn view(&self) -> TransmitView {
        TransmitView { src: self.src, dst: self.dst, payload: self.payload@ }
    }
}

/// The datagrams in `queue`, as values.
pub open spec fn transmits_of(queue: Seq<Transmit>) -> Seq<TransmitView> {
    queue.map_values(|t: Transmit| t@)
}

/// A TURN allocation that keeps itself alive.
pub struct Allocation {
    server: RelaySocket,
    active_socket: Option<SocketAddr>,
    software: String,
    ip4_srflx_candidate: Option<Candidate>,
    ip6_srflx_candidate: Option<Candidate>,
    ip4_allocation: Option<Candidate>,
    ip6_allocation: Option<Candidate>,
    allocation_lifetime: Option<(Instant, Duration)>,
    buffered_transmits: VecDeque<Transmit>,
    events: VecDeque<Event>,
    sent_requests: BTreeMap<u128, SentRequest>,
    channel_bindings: ChannelBindings,
    buffered_channel_bindings: RingBuffer<SocketAddr>,
    last_now: Instant,
    credentials: Option<Credentials>,
    explicit_failure: Option<FreeReason>,
}

impl View for Allocation {
    type V = AllocationView;

    closed spec fn view(&self) -> AllocationView {
        AllocationView {
            server: self.server,
            active_socket: self.active_socket,
            software: self.software@,
            ip4_srflx_candidate: self.ip4_srflx_candidate,
            ip6_srflx_candidate: self.ip6_srflx_candidate,
            ip4_allocation: self.ip4_allocation,
            ip6_allocation: self.ip6_allocation,
            allocation_lifetime: self.allocation_lifetime,
            buffered_transmits: transmits_of(self.buffered_transmits@),
            events: self.events@,
            sent_requests: self.sent_requests@,
            channel_bindings: self.channel_bindings@,
            buffered_channel_bindings: self.buffered_channel_bindings@,
            last_now: self.last_now,
            credentials: self.credentials,
            explicit_failure: self.explicit_failure,
        }
    }
}

/// The text that an allocation of the session `session_id` names itself by.
pub open spec fn spec_software(session_id: Seq<char>) -> Seq<char> {
    "snownet; session="@ + session_id
}

impl Allocation {
    /// What holds of an allocation at every moment, also in the middle of a
    /// step.
    pub closed spec fn sound(&self) -> bool {
        &&& self@.wf()
        &&& self.buffered_channel_bindings.wf()
        &&& self.buffered_channel_bindings.capacity() == MAX_BUFFERED_CHANNEL_BINDINGS
    }

    /// What every allocation keeps to between its steps: its state is well
    /// formed, and the requests that wait for an answer are in order.
    pub closed spec fn wf(&self) -> bool {
        &&& self.sound()
        &&& requests_in_order(self@)
    }

    /// A well-formed allocation has a well-formed state, with its requests
    /// in order.
    pub proof fn lemma_wf(&self)
        requires
            self.wf(),
        ensures
            self@.wf(),
            requests_in_order(self@),
    {
    }

    fn update_now(&mut self, now: Instant)
        requires
            old(self).sound(),
        ensures
            final(self).sound(),
            final(self)@ == old(self)@.update_now(now),
    {
        if now.nanos <= self.last_now.nanos {
            return ;
        }
        self.last_now = now;
    }

    fn has_allocation(&self) -> (has: bool)
        ensures
            has == self@.has_allocation(),
    {
        self.ip4_allocation.is_some() || self.ip6_allocation.is_some()
    }

    fn can_relay_to(&self, peer: SocketAddr) -> (can: bool)
        ensures
            can == self@.can_relay_to(peer),
    {
        match peer {
            SocketAddr::V4(_) => self.ip4_allocation.is_some(),
            SocketAddr::V6(_) => self.ip6_allocation.is_some(),
        }
    }

    fn refresh_allocation_at(&self) -> (at: Option<Instant>)
        ensures
            at == self@.refresh_allocation_at(),
    {
        match self.allocation_lifetime {
            Some((received_at, lifetime)) => Some(received_at.plus(lifetime.half())),
            None => None,
        }
    }

    fn allocation_expires_at(&self) -> (at: Option<Instant>)
        ensures
            at == self@.allocation_expires_at(),
    {
        match self.allocation_lifetime {
            Some((received_at, lifetime)) => Some(received_at.plus(lifetime)),
            None => None,
        }
    }

    /// Returns whether the request was queued.
    fn queue(&mut self, dst: SocketAddr, request: Request, backoff: Option<ExponentialBackoff>) -> (queued: bool)
        requires
            old(self).sound(),
            backoff matches Some(b) ==> b.current_interval.nanos > 0 && b.max_interval.nanos > 0,
            old(self)@.credentials is None ==> request.credentials is None,
        ensures
            final(self).sound(),
            (final(self)@, queued) == old(self)@.queue(dst, request, backoff),
    {
        let mut backoff = match backoff {
            Some(b) => {
                let mut b = b;
                b.advance_to(self.last_now);
                b
            },
            None => backoff::new(self.last_now, Duration { nanos: REQUEST_TIMEOUT_NANOS }),
        };
        proof {
            backoff::lemma_wait_stays_positive(backoff);
        }
        let duration = match backoff.next_backoff() {
            Some(d) => d,
            None => {
                return false;
            },
        };
        let payload = match stun::encode(&request, self.software.as_str()) {
            Some(p) => p,
            None => {
                return false;
            },
        };
        let id = request.transaction_id;
        let _ = self.sent_requests.insert(
            id,
            SentRequest { dst, request, sent_at: self.last_now, backoff_duration: duration, backoff },
        );
        self.buffered_transmits.push_back(Transmit { src: None, dst, payload });
        assert(transmits_of(self.buffered_transmits@) =~= transmits_of(old(self).buffered_transmits@).push(
            TransmitView { src: None, dst, payload: payload@ },
        ));
        true
    }

    /// Returns whether the request was queued.
    fn authenticate_and_queue(&mut self, kind: RequestKind, backoff: Option<ExponentialBackoff>, id: u128) -> (queued:
        bool)
        requires
            old(self).sound(),
            backoff matches Some(b) ==> b.current_interval.nanos > 0 && b.max_interval.nanos > 0,
        ensures
            final(self).sound(),
            (final(self)@, queued) == old(self)@.authenticate_and_queue(kind, backoff, id),
    {
        let dst = match self.active_socket {
            Some(dst) => dst,
            None => {
                return false;
            },
        };
        let credentials = match &self.credentials {
            Some(c) => c.duplicate(),
            None => {
                return false;
            },
        };
        self.queue(dst, Request { kind, transaction_id: id, credentials: Some(credentials) }, backoff)
    }

    fn invalidate_allocation(&mut self)
        requires
            old(self).sound(),
        ensures
            final(self).sound(),
            final(self)@ == old(self)@.invalidate_allocation(),
    {
        if let Some(candidate) = self.ip4_allocation {
            self.events.push_back(Event::Invalid(candidate));
        }
        self.ip4_allocation = None;
        if let Some(candidate) = self.ip6_allocation {
            self.events.push_back(Event::Invalid(candidate));
        }
        self.ip6_allocation = None;
        self.channel_bindings.clear();
        self.allocation_lifetime = None;
        self.sent_requests.clear();
    }

    fn send_binding_requests(&mut self, id_v4: u128, id_v6: u128)
        requires
            old(self).sound(),
        ensures
            final(self).sound(),
            final(self)@ == old(self)@.send_binding_requests(id_v4, id_v6),
    {
        if let Some(v4) = self.server.as_v4() {
            let _ = self.queue(
                SocketAddr::V4(v4),
                Request { kind: RequestKind::Binding, transaction_id: id_v4, credentials: None },
                None,
            );
        }
        if let Some(v6) = self.server.as_v6() {
            let _ = self.queue(
                SocketAddr::V6(v6),
                Request { kind: RequestKind::Binding, transaction_id: id_v6, credentials: None },
                None,
            );
        }
    }

    /// Makes the allocation on `server` for the session `session_id`, and
    /// queues its binding requests under the ids `id_v4` and `id_v6`.
    pub fn new_with_ids(
        server: RelaySocket,
        username: String,
        password: String,
        realm: String,
        now: Instant,
        session_id: &str,
        id_v4: u128,
        id_v6: u128,
    ) -> (allocation: Self)
        ensures
            allocation.wf(),
            allocation@ == AllocationView::new(
                server,
                Credentials { username, password, realm, nonce: None },
                spec_software(session_id@),
                now,
                id_v4,
                id_v6,
            ),
    {
        let mut software = "snownet; session=".to_owned();
        software.push_str(session_id);
        let mut allocation = Allocation {
            server,
            active_socket: None,
            software,
            ip4_srflx_candidate: None,
            ip6_srflx_candidate: None,
            ip4_allocation: None,
            ip6_allocation: None,
            allocation_lifetime: None,
            buffered_transmits: VecDeque::new(),
            events: VecDeque::new(),
            sent_requests: BTreeMap::new(),
            channel_bindings: ChannelBindings::new(),
            buffered_channel_bindings: RingBuffer::new(MAX_BUFFERED_CHANNEL_BINDINGS),
            last_now: now,
            credentials: Some(Credentials { username, password, realm, nonce: None }),
            explicit_failure: None,
        };
        assert(transmits_of(allocation.buffered_transmits@) =~= Seq::empty());
        assert(allocation@ == AllocationView::initial(
            server,
            Credentials { username, password, realm, nonce: None },
            spec_software(session_id@),
            now,
        ));
        allocation.send_binding_requests(id_v4, id_v6);
        proof {
            lemma_new_allocation_has_requests_in_order(
                server,
                Credentials { username, password, realm, nonce: None },
                spec_software(session_id@),
                now,
                id_v4,
                id_v6,
            );
        }
        allocation
    }

    /// Makes the allocation on `server` for the session `session_id`, and
    /// queues a binding request to each address of the relay.
    pub fn new(
        server: RelaySocket,
        username: String,
        password: String,
        realm: String,
        now: Instant,
        session_id: &str,
    ) -> (allocation: Self)
        ensures
            allocation.wf(),
            exists|id_v4: u128, id_v6: u128|
                allocation@ == #[trigger] AllocationView::new(
                    server,
                    Credentials { username, password, realm, nonce: None },
                    spec_software(session_id@),
                    now,
                    id_v4,
                    id_v6,
                ),
    {
        let id_v4 = random_transaction_id();
        let id_v6 = random_transaction_id();
        Self::new_with_ids(server, username, password, realm, now, session_id, id_v4, id_v6)
    }

    /// Whether a request of `method` waits for its answer.
    fn in_flight(&self, method: u16) -> (found: bool)
        ensures
            found == self@.in_flight(method),
    {
        let ids = transaction_ids(&self.sent_requests);
        let mut i: usize = 0;
        while i < ids.len()
            invariant
                i <= ids.len(),
                forall|k: u128| #[trigger] self.sent_requests@.contains_key(k) <==> ids@.contains(k),
                forall|j: int|
                    0 <= j < i ==> self.sent_requests@[#[trigger] ids[j]].request.kind.spec_method() != method,
            decreases ids.len() - i,
        {
            let id = ids[i];
            assert(ids@.contains(id));
            let found = match self.sent_requests.get(&id) {
                Some(sent) => sent.request.kind.method() == method,
                None => false,
            };
            if found {
                assert(self@.sent_requests.contains_key(id));
                return true;
            }
            i += 1;
        }
        assert forall|id: u128| #[trigger] self@.sent_requests.contains_key(id) implies self@.sent_requests[id].request.kind.spec_method()
            != method by {
            assert(ids@.contains(id));
            let j = choose|j: int| 0 <= j < ids.len() && ids[j] == id;
            assert(self.sent_requests@[ids[j]].request.kind.spec_method() != method);
        }
        false
    }

    fn allocate_in_flight(&self) -> (found: bool)
        ensures
            found == self@.in_flight(ALLOCATE),
    {
        self.in_flight(ALLOCATE)
    }

    fn refresh_in_flight(&self) -> (found: bool)
        ensures
            found == self@.in_flight(REFRESH),
    {
        self.in_flight(REFRESH)
    }

    /// The channel numbers for which a request to bind waits for its answer.
    fn channels_in_flight(&self) -> (numbers: Vec<u16>)
        ensures
            numbers@.to_set() =~= self@.channels_in_flight(),
    {
        let ids = transaction_ids(&self.sent_requests);
        let mut numbers: Vec<u16> = Vec::new();
        let ghost mut source: Seq<int> = Seq::empty();
        let mut i: usize = 0;
        while i < ids.len()
            invariant
                i <= ids.len(),
                forall|k: u128| #[trigger] self.sent_requests@.contains_key(k) <==> ids@.contains(k),
                source.len() == numbers@.len(),
                forall|k: int|
                    0 <= k < numbers@.len() ==> 0 <= #[trigger] source[k] < i && self.sent_requests@[ids[source[k]]].request.kind
                        == (RequestKind::ChannelBind {
                        peer: self.sent_requests@[ids[source[k]]].request.kind->peer,
                        channel: numbers@[k],
                    }),
                forall|j: int|
                    0 <= j < i ==> (self.sent_requests@[#[trigger] ids[j]].request.kind
                        matches RequestKind::ChannelBind { channel, .. } ==> numbers@.contains(channel)),
            decreases ids.len() - i,
        {
            let id = ids[i];
            assert(ids@.contains(id));
            let ghost before = numbers@;
            match self.sent_requests.get(&id) {
                Some(sent) => match sent.request.kind {
                    RequestKind::ChannelBind { channel, .. } => {
                        numbers.push(channel);
                        proof {
                            source = source.push(i as int);
                            assert(numbers@[numbers@.len() - 1] == channel);
                            assert forall|j: int| 0 <= j < i + 1 implies (self.sent_requests@[#[trigger] ids[j]].request.kind
                                matches RequestKind::ChannelBind { channel: c, .. } ==> numbers@.contains(c)) by {
                                if self.sent_requests@[ids[j]].request.kind is ChannelBind {
                                    let c = self.sent_requests@[ids[j]].request.kind->channel;
                                    if j < i {
                                        assert(before.contains(c));
                                        let k = choose|k: int| 0 <= k < before.len() && before[k] == c;
                                        assert(numbers@[k] == c);
                                    }
                                }
                            }
                        }
                    },
                    _ => {},
                },
                None => {},
            }
            i += 1;
        }
        proof {
            assert forall|n: u16| numbers@.to_set().contains(n) <==> self@.channels_in_flight().contains(n) by {
                if numbers@.contains(n) {
                    let k = choose|k: int| 0 <= k < numbers@.len() && numbers@[k] == n;
                    let id = ids[source[k]];
                    assert(ids@.contains(id));
                    assert(self@.sent_requests.contains_key(id));
                    assert(self@.channel_binding_in_flight_by_number(n));
                }
                if self@.channel_binding_in_flight_by_number(n) {
                    let id = choose|id: u128| #[trigger]
                        self@.sent_requests.contains_key(id) && (self@.sent_requests[id].request.kind
                            matches RequestKind::ChannelBind { channel, .. } && channel == n);
                    assert(ids@.contains(id));
                    let j = choose|j: int| 0 <= j < ids.len() && ids[j] == id;
                    assert(self.sent_requests@[ids[j]].request.kind is ChannelBind);
                }
            }
        }
        numbers
    }

    /// Whether a channel to `peer` is on its way.
    fn channel_binding_in_flight_by_peer(&self, peer: SocketAddr) -> (found: bool)
        ensures
            found == self@.channel_binding_in_flight_by_peer(peer),
    {
        let ids = transaction_ids(&self.sent_requests);
        let mut i: usize = 0;
        while i < ids.len()
            invariant
                i <= ids.len(),
                forall|k: u128| #[trigger] self.sent_requests@.contains_key(k) <==> ids@.contains(k),
                forall|j: int|
                    0 <= j < i ==> !(self.sent_requests@[#[trigger] ids[j]].request.kind
                        matches RequestKind::ChannelBind { peer: p, .. } && p == peer),
            decreases ids.len() - i,
        {
            let id = ids[i];
            assert(ids@.contains(id));
            let found = match self.sent_requests.get(&id) {
                Some(sent) => match sent.request.kind {
                    RequestKind::ChannelBind { peer: p, .. } => p == peer,
                    _ => false,
                },
                None => false,
            };
            if found {
                assert(self@.sent_requests.contains_key(id));
                return true;
            }
            i += 1;
        }
        assert forall|id: u128| #[trigger] self@.sent_requests.contains_key(id) implies !(self@.sent_requests[id].request.kind
            matches RequestKind::ChannelBind { peer: p, .. } && p == peer) by {
            assert(ids@.contains(id));
            let j = choose|j: int| 0 <= j < ids.len() && ids[j] == id;
            assert(!(self.sent_requests@[ids[j]].request.kind matches RequestKind::ChannelBind { peer: p, .. } && p
                == peer));
        }
        let mut k: usize = 0;
        while k < self.buffered_channel_bindings.len()
            invariant
                k <= self.buffered_channel_bindings@.len(),
                forall|j: int| 0 <= j < k ==> self.buffered_channel_bindings@[j] != peer,
            decreases self.buffered_channel_bindings@.len() - k,
        {
            let waiting = match self.buffered_channel_bindings.get(k) {
                Some(p) => *p == peer,
                None => false,
            };
            if waiting {
                assert(self@.buffered_channel_bindings.contains(peer));
                return true;
            }
            k += 1;
        }
        assert(!self@.buffered_channel_bindings.contains(peer));
        false
    }

    /// The first instant at which the allocation wants to be woken with
    /// [`Allocation::handle_timeout`]; `None` where it waits for nothing.
    pub fn poll_timeout(&self) -> (timeout: Option<Instant>)
        ensures
            timeout == self@.poll_timeout(),
    {
        let mut earliest_timeout = if !self.refresh_in_flight() {
            self.refresh_allocation_at()
        } else {
            None
        };
        let ghost base = earliest_timeout;
        let ghost mut witness: int = -1;
        let ids = transaction_ids(&self.sent_requests);
        let mut i: usize = 0;
        while i < ids.len()
            invariant
                i <= ids.len(),
                forall|k: u128| #[trigger] self.sent_requests@.contains_key(k) <==> ids@.contains(k),
                -1 <= witness < i,
                earliest_timeout is None ==> i == 0 && base is None,
                earliest_timeout matches Some(t) ==> (if witness == -1 {
                    base == Some(t)
                } else {
                    self.sent_requests@[ids[witness]].deadline() == t
                }),
                earliest_timeout matches Some(t) ==> (base matches Some(b) ==> t.nanos <= b.nanos),
                forall|j: int|
                    0 <= j < i ==> earliest_timeout is Some && earliest_timeout.unwrap().nanos
                        <= self.sent_requests@[#[trigger] ids[j]].deadline().nanos,
            decreases ids.len() - i,
        {
            let id = ids[i];
            assert(ids@.contains(id));
            match self.sent_requests.get(&id) {
                Some(sent) => {
                    let deadline = sent.sent_at.plus(sent.backoff_duration);
                    let next = earliest(earliest_timeout, Some(deadline));
                    proof {
                        if next != earliest_timeout {
                            witness = i as int;
                        }
                    }
                    earliest_timeout = next;
                },
                None => {},
            }
            i += 1;
        }
        proof {
            match earliest_timeout {
                Some(t) => {
                    if witness >= 0 {
                        assert(ids@.contains(ids[witness]));
                        assert(self@.sent_requests.contains_key(ids[witness]));
                    }
                    assert(self@.waits_for(t));
                    assert forall|u: Instant| #[trigger] self@.waits_for(u) implies t.nanos <= u.nanos by {
                        if !self@.in_flight(REFRESH) && self@.refresh_allocation_at() == Some(u) {
                        } else {
                            let id = choose|id: u128| #[trigger]
                                self@.sent_requests.contains_key(id) && self@.sent_requests[id].deadline() == u;
                            assert(ids@.contains(id));
                            let j = choose|j: int| 0 <= j < ids.len() && ids[j] == id;
                            assert(t.nanos <= self.sent_requests@[ids[j]].deadline().nanos);
                        }
                    }
                    crate::allocation_model::lemma_poll_timeout_is_unique(self@, t);
                },
                None => {
                    assert forall|u: Instant| !self@.waits_for(u) by {
                        if exists|id: u128| #[trigger]
                            self@.sent_requests.contains_key(id) && self@.sent_requests[id].deadline() == u {
                            let id = choose|id: u128| #[trigger]
                                self@.sent_requests.contains_key(id) && self@.sent_requests[id].deadline() == u;
                            assert(ids@.contains(id));
                        }
                    }
                    assert forall|u: Instant| !self@.is_poll_timeout(u) by {
                        assert(!self@.waits_for(u));
                    }
                },
            }
        }
        earliest_timeout
    }

    /// Whether the allocation has given up making an allocation.
    pub fn is_suspended(&self) -> (suspended: bool)
        ensures
            suspended == self@.is_suspended(),
    {
        let no_allocation = !self.has_allocation();
        let nothing_in_flight = self.sent_requests.is_empty();
        let nothing_buffered = self.buffered_transmits.len() == 0;
        let waiting_on_nothing = self.poll_timeout().is_none();
        no_allocation && nothing_in_flight && nothing_buffered && waiting_on_nothing
    }

    /// Asks for a channel to `peer`, under the id `id` where a request goes
    /// out.
    pub fn bind_channel_with_id(&mut self, peer: SocketAddr, now: Instant, id: u128)
        requires
            old(self).wf(),
        ensures
            final(self).wf(),
            final(self)@ == old(self)@.bind_channel(peer, now, id),
    {
        self.bind_channel_step(peer, now, id);
        proof {
            lemma_requests_stay_in_order(
                old(self)@,
                arbitrary(),
                arbitrary(),
                peer,
                arbitrary(),
                arbitrary(),
                now,
                id,
                arbitrary(),
                arbitrary(),
                arbitrary(),
                arbitrary(),
                arbitrary(),
                arbitrary(),
            );
        }
    }

    /// The step behind [`Allocation::bind_channel_with_id`].
    fn bind_channel_step(&mut self, peer: SocketAddr, now: Instant, id: u128)
        requires
            old(self).sound(),
        ensures
            final(self).sound(),
            final(self)@ == old(self)@.bind_channel(peer, now, id),
    {
        if self.is_suspended() {
            return ;
        }
        self.update_now(now);
        if self.channel_bindings.connected_channel_to_peer(peer, now).is_some() {
            return ;
        }
        if self.channel_binding_in_flight_by_peer(peer) {
            return ;
        }
        if !self.has_allocation() {
            self.buffered_channel_bindings.push(peer);
            return ;
        }
        if !self.can_relay_to(peer) {
            return ;
        }
        let channel = match self.channel_bindings.new_channel_to_peer(peer, now) {
            Some(c) => c,
            None => {
                return ;
            },
        };
        let _ = self.authenticate_and_queue(RequestKind::ChannelBind { peer, channel }, None, id);
    }

    /// Asks for a channel to `peer`.
    ///
    /// The request to the relay, where one goes out, has a transaction id
    /// drawn at random.
    pub fn bind_channel(&mut self, peer: SocketAddr, now: Instant)
        requires
            old(self).wf(),
        ensures
            final(self).wf(),
            exists|id: u128| final(self)@ == #[trigger] old(self)@.bind_channel(peer, now, id),
    {
        let id = random_transaction_id();
        self.bind_channel_with_id(peer, now, id);
    }

    /// Refreshes the allocation, under the id `id_a`; an allocation that has
    /// given up starts over, with binding requests under `id_a` and `id_b`.
    pub fn refresh_with_ids(&mut self, now: Instant, id_a: u128, id_b: u128)
        requires
            old(self).wf(),
        ensures
            final(self).wf(),
            final(self)@ == old(self)@.refresh(now, id_a, id_b),
    {
        self.refresh_step(now, id_a, id_b);
        proof {
            lemma_requests_stay_in_order(
                old(self)@,
                arbitrary(),
                arbitrary(),
                arbitrary(),
                arbitrary(),
                arbitrary(),
                now,
                id_a,
                id_b,
                arbitrary(),
                arbitrary(),
                arbitrary(),
                arbitrary(),
                arbitrary(),
            );
        }
    }

    /// The step behind [`Allocation::refresh_with_ids`].
    fn refresh_step(&mut self, now: Instant, id_a: u128, id_b: u128)
        requires
            old(self).sound(),
        ensures
            final(self).sound(),
            final(self)@ == old(self)@.refresh(now, id_a, id_b),
    {
        self.update_now(now);
        if !self.has_allocation() && self.allocate_in_flight() {
            return ;
        }
        if self.is_suspended() {
            self.active_socket = None;
            self.send_binding_requests(id_a, id_b);
            return ;
        }
        let _ = self.authenticate_and_queue(RequestKind::Refresh, None, id_a);
    }

    /// Refreshes the allocation.
    ///
    /// The requests that go out have transaction ids drawn at random.
    pub fn refresh(&mut self, now: Instant)
        requires
            old(self).wf(),
        ensures
            final(self).wf(),
            exists|id_a: u128, id_b: u128| final(self)@ == #[trigger] old(self)@.refresh(now, id_a, id_b),
    {
        let id_a = random_transaction_id();
        let id_b = random_transaction_id();
        self.refresh_with_ids(now, id_a, id_b);
    }

    /// Puts the events for a new candidate in the place of `current` behind
    /// the events that wait, and returns the candidate that is current then.
    fn announce_candidate(&mut self, maybe_new: Option<Candidate>, current: Option<Candidate>) -> (updated: Option<
        Candidate,
    >)
        requires
            old(self).sound(),
        ensures
            final(self).sound(),
            final(self)@ == (AllocationView {
                events: update_candidate(maybe_new, current, old(self)@.events).1,
                ..old(self)@
            }),
            updated == update_candidate(maybe_new, current, old(self)@.events).0,
    {
        match (maybe_new, current) {
            (Some(new), Some(old_candidate)) => {
                if new != old_candidate {
                    self.events.push_back(Event::New(new));
                    self.events.push_back(Event::Invalid(old_candidate));
                    Some(new)
                } else {
                    current
                }
            },
            (Some(new), None) => {
                self.events.push_back(Event::New(new));
                Some(new)
            },
            (None, _) => current,
        }
    }

    /// Binds every peer that waits for a channel, the peer at step `i` under
    /// the id `ids[i]`.
    fn flush_buffered_channel_bindings(&mut self, now: Instant, ids: &Vec<u128>)
        requires
            old(self).sound(),
            old(self)@.has_allocation(),
            ids@.len() >= old(self)@.buffered_channel_bindings.len(),
        ensures
            final(self).sound(),
            final(self)@ == old(self)@.flush_buffered_channel_bindings(now, ids@),
    {
        let count = self.buffered_channel_bindings.len();
        let mut k: usize = 0;
        while k < count
            invariant
                k <= count,
                count == old(self)@.buffered_channel_bindings.len(),
                ids@.len() >= count,
                self.sound(),
                self@.has_allocation(),
                self@.buffered_channel_bindings.len() == count - k,
                self@ == old(self)@.flush_steps(now, ids@, k as nat),
            decreases count - k,
        {
            let ghost before = self@;
            let peer = match self.buffered_channel_bindings.pop() {
                Some(p) => p,
                None => {
                    return ;
                },
            };
            assert(self@ == (AllocationView {
                buffered_channel_bindings: before.buffered_channel_bindings.drop_first(),
                ..before
            }));
            self.bind_channel_step(peer, now, ids[k]);
            k += 1;
        }
    }

    fn handle_error(&mut self, request: Request, message: &DecodedMessage, code: u16, id: u128)
        requires
            old(self).sound(),
        ensures
            final(self).sound(),
            final(self)@ == old(self)@.handle_error(request, *message, code, id),
    {
        if code == UNAUTHORIZED && request.carries_nonce() {
            self.invalidate_allocation();
            self.credentials = None;
            return ;
        }
        if code == UNAUTHORIZED || code == STALE_NONCE {
            let current = match &self.credentials {
                Some(c) => c.duplicate(),
                None => {
                    return ;
                },
            };
            let realm_differs = match &message.realm {
                Some(offered) => !(*offered == current.realm),
                None => false,
            };
            if realm_differs {
                self.invalidate_allocation();
                self.credentials = None;
                return ;
            }
            let updated = match &message.nonce {
                Some(nonce) => Credentials {
                    username: current.username,
                    password: current.password,
                    realm: current.realm,
                    nonce: Some(nonce.clone()),
                },
                None => current,
            };
            self.credentials = Some(updated);
            let _ = self.authenticate_and_queue(request.kind, None, id);
            return ;
        }
        if code == ALLOCATION_MISMATCH {
            self.invalidate_allocation();
            if message.method == ALLOCATE {
                let _ = self.authenticate_and_queue(RequestKind::DeleteAllocation, None, id);
            } else if message.method == REFRESH {
                let _ = self.authenticate_and_queue(RequestKind::Allocate, None, id);
            } else if message.method == CHANNEL_BIND {
                let _ = self.authenticate_and_queue(RequestKind::Allocate, None, id);
                match request.kind {
                    RequestKind::ChannelBind { peer, .. } => {
                        self.buffered_channel_bindings.push(peer);
                    },
                    _ => {},
                }
            }
            return ;
        }
        if code == UNKNOWN_ATTRIBUTE {
            self.explicit_failure = Some(FreeReason::ProtocolFailure);
            return ;
        }
        if message.method == ALLOCATE {
            self.buffered_channel_bindings.clear();
        } else if message.method == CHANNEL_BIND {
            match request.kind {
                RequestKind::ChannelBind { channel, .. } => {
                    self.channel_bindings.handle_failed_binding(channel);
                },
                _ => {},
            }
        }
    }

    fn handle_binding_success(&mut self, original_dst: SocketAddr, local: SocketAddr, message: &DecodedMessage, id: u128)
        requires
            old(self).sound(),
        ensures
            final(self).sound(),
            final(self)@ == old(self)@.handle_binding_success(original_dst, local, *message, id),
    {
        let candidate = find_server_reflexive(&message.mapped_addresses, local);
        match original_dst {
            SocketAddr::V4(_) => {
                let current = self.ip4_srflx_candidate;
                let updated = self.announce_candidate(candidate, current);
                self.ip4_srflx_candidate = updated;
            },
            SocketAddr::V6(_) => {
                let current = self.ip6_srflx_candidate;
                let updated = self.announce_candidate(candidate, current);
                self.ip6_srflx_candidate = updated;
            },
        }
        if self.active_socket.is_some() {
            return ;
        }
        self.active_socket = Some(original_dst);
        if self.has_allocation() {
            let _ = self.authenticate_and_queue(RequestKind::Refresh, None, id);
        } else {
            let _ = self.authenticate_and_queue(RequestKind::Allocate, None, id);
        }
    }

    fn handle_allocate_success(&mut self, message: &DecodedMessage, now: Instant, flush_ids: &Vec<u128>)
        requires
            old(self).sound(),
            flush_ids@.len() >= old(self)@.buffered_channel_bindings.len(),
        ensures
            final(self).sound(),
            final(self)@ == old(self)@.handle_allocate_success(*message, now, flush_ids@),
    {
        let lifetime = match message.lifetime {
            Some(l) => l,
            None => {
                return ;
            },
        };
        let ip4 = find_relayed(&message.relay_addresses, true);
        let ip6 = find_relayed(&message.relay_addresses, false);
        if ip4.is_none() && ip6.is_none() {
            return ;
        }
        self.allocation_lifetime = Some((now, lifetime));
        let current = self.ip4_allocation;
        let updated = self.announce_candidate(ip4, current);
        self.ip4_allocation = updated;
        let current = self.ip6_allocation;
        let updated = self.announce_candidate(ip6, current);
        self.ip6_allocation = updated;
        self.flush_buffered_channel_bindings(now, flush_ids);
    }

    fn handle_success(
        &mut self,
        original_dst: SocketAddr,
        request: Request,
        local: SocketAddr,
        message: &DecodedMessage,
        now: Instant,
        id: u128,
        flush_ids: &Vec<u128>,
    )
        requires
            old(self).sound(),
            flush_ids@.len() >= old(self)@.buffered_channel_bindings.len(),
        ensures
            final(self).sound(),
            final(self)@ == old(self)@.handle_success(original_dst, request, local, *message, now, id, flush_ids@),
    {
        if message.method == BINDING {
            self.handle_binding_success(original_dst, local, message, id);
        } else if message.method == ALLOCATE {
            self.handle_allocate_success(message, now, flush_ids);
        } else if message.method == REFRESH {
            let lifetime = match message.lifetime {
                Some(l) => l,
                None => {
                    return ;
                },
            };
            if lifetime.is_zero() {
                let _ = self.authenticate_and_queue(RequestKind::Allocate, None, id);
                return ;
            }
            self.allocation_lifetime = Some((now, lifetime));
        } else if message.method == CHANNEL_BIND {
            match request.kind {
                RequestKind::ChannelBind { channel, .. } => {
                    let _ = self.channel_bindings.set_confirmed(channel, now);
                },
                _ => {},
            }
        }
    }

    /// Deals with a message from the relay, and returns whether it was an
    /// answer to one of our requests.
    ///
    /// A request that follows from the message goes out under `id`; the
    /// peers that get their channel once an allocation is granted are bound
    /// under `flush_ids`, of which there have to be as many as peers wait.
    pub fn handle_message_with_ids(
        &mut self,
        local: SocketAddr,
        message: &DecodedMessage,
        now: Instant,
        id: u128,
        flush_ids: &Vec<u128>,
    ) -> (handled: bool)
        requires
            old(self).wf(),
            flush_ids@.len() >= old(self)@.buffered_channel_bindings.len(),
        ensures
            final(self).wf(),
            (final(self)@, handled) == old(self)@.handle_message(local, *message, now, id, flush_ids@),
    {
        let handled = self.handle_message_step(local, message, now, id, flush_ids);
        proof {
            lemma_requests_stay_in_order(
                old(self)@,
                arbitrary(),
                local,
                arbitrary(),
                arbitrary(),
                *message,
                now,
                id,
                arbitrary(),
                flush_ids@,
                arbitrary(),
                arbitrary(),
                arbitrary(),
                arbitrary(),
            );
        }
        handled
    }

    /// The step behind [`Allocation::handle_message_with_ids`].
    fn handle_message_step(
        &mut self,
        local: SocketAddr,
        message: &DecodedMessage,
        now: Instant,
        id: u128,
        flush_ids: &Vec<u128>,
    ) -> (handled: bool)
        requires
            old(self).sound(),
            flush_ids@.len() >= old(self)@.buffered_channel_bindings.len(),
        ensures
            final(self).sound(),
            (final(self)@, handled) == old(self)@.handle_message(local, *message, now, id, flush_ids@),
    {
        let sent = match self.sent_requests.remove(&message.transaction_id) {
            Some(sent) => sent,
            None => {
                assert(self.sent_requests@ =~= old(self).sent_requests@);
                return false;
            },
        };
        match message.error_code {
            Some(code) => {
                self.handle_error(sent.request, message, code, id);
            },
            None => {
                if message.class != MessageClass::SuccessResponse {
                    return true;
                }
                self.handle_success(sent.dst, sent.request, local, message, now, id, flush_ids);
            },
        }
        true
    }

    /// Deals with a message from the relay, and returns whether it was an
    /// answer to one of our requests.
    ///
    /// The requests that follow from it have transaction ids drawn at random.
    pub fn handle_message(&mut self, local: SocketAddr, message: &DecodedMessage, now: Instant) -> (handled: bool)
        requires
            old(self).wf(),
        ensures
            final(self).wf(),
            exists|id: u128, flush_ids: Seq<u128>|
                (final(self)@, handled) == #[trigger] old(self)@.handle_message(local, *message, now, id, flush_ids),
    {
        let id = random_transaction_id();
        let flush_ids = draw_ids(self.buffered_channel_bindings.len());
        self.handle_message_with_ids(local, message, now, id, &flush_ids)
    }

    /// Deals with a packet that arrived from `from` on the local socket
    /// `local`, and returns whether it was an answer to one of our requests.
    ///
    /// `false` says that the packet is not ours: it is not from our relay, it
    /// holds no STUN message, or we wait for no answer under its id.
    pub fn handle_input(&mut self, from: SocketAddr, local: SocketAddr, packet: &[u8], now: Instant) -> (handled: bool)
        requires
            old(self).wf(),
        ensures
            final(self).wf(),
            old(self)@.handle_input(from, local, packet@, now, final(self)@, handled),
    {
        self.update_now(now);
        if !self.server.matches(from) {
            return false;
        }
        let message = match stun::decode(packet) {
            Some(m) => m,
            None => {
                return false;
            },
        };
        let handled = self.handle_message(local, &message, now);
        handled
    }

    /// Sends the request under `id` again, where it waits and has waited
    /// long enough; a request that has to be signed anew goes out under
    /// `next_id`.
    pub fn retransmit(&mut self, id: u128, now: Instant, next_id: u128)
        requires
            old(self).wf(),
        ensures
            final(self).wf(),
            final(self)@ == old(self)@.retransmit(id, now, next_id),
    {
        self.retransmit_step(id, now, next_id);
        proof {
            lemma_requests_stay_in_order(
                old(self)@,
                arbitrary(),
                arbitrary(),
                arbitrary(),
                arbitrary(),
                arbitrary(),
                now,
                id,
                next_id,
                arbitrary(),
                arbitrary(),
                arbitrary(),
                arbitrary(),
                arbitrary(),
            );
        }
    }

    /// The step behind [`Allocation::retransmit`].
    fn retransmit_step(&mut self, id: u128, now: Instant, next_id: u128)
        requires
            old(self).sound(),
        ensures
            final(self).sound(),
            final(self)@ == old(self)@.retransmit(id, now, next_id),
    {
        let due = match self.sent_requests.get(&id) {
            Some(sent) => now.duration_since(sent.sent_at).nanos >= sent.backoff_duration.nanos,
            None => false,
        };
        if !due {
            return ;
        }
        let sent = match self.sent_requests.remove(&id) {
            Some(sent) => sent,
            None => {
                return ;
            },
        };
        let kind = sent.request.kind;
        if kind.method() != BINDING {
            let queued = self.authenticate_and_queue(kind, Some(sent.backoff), next_id);
            if !queued && kind.method() == REFRESH {
                self.active_socket = None;
                self.invalidate_allocation();
            }
            return ;
        }
        let _ = self.queue(sent.dst, sent.request, Some(sent.backoff));
    }

    /// Looks at the requests under `due` in turn and sends each again where
    /// it is due, the one at step `i` under the new id `ids[i]`.
    fn retransmit_due(&mut self, due: &Vec<u128>, now: Instant, ids: &Vec<u128>)
        requires
            old(self).sound(),
            ids@.len() >= due@.len(),
        ensures
            final(self).sound(),
            final(self)@ == old(self)@.retransmit_steps(due@, now, ids@, due@.len()),
    {
        let mut k: usize = 0;
        while k < due.len()
            invariant
                k <= due.len(),
                ids@.len() >= due@.len(),
                self.sound(),
                self@ == old(self)@.retransmit_steps(due@, now, ids@, k as nat),
            decreases due.len() - k,
        {
            self.retransmit_step(due[k], now, ids[k]);
            k += 1;
        }
    }

    /// Asks the relay to bind each of `channels` again, the one at step `i`
    /// under the id `ids[i]`.
    fn refresh_channels(&mut self, channels: &Vec<(u16, SocketAddr)>, ids: &Vec<u128>)
        requires
            old(self).sound(),
            ids@.len() >= channels@.len(),
        ensures
            final(self).sound(),
            final(self)@ == old(self)@.refresh_channel_steps(channels@, ids@, channels@.len()),
    {
        let mut k: usize = 0;
        while k < channels.len()
            invariant
                k <= channels.len(),
                ids@.len() >= channels@.len(),
                self.sound(),
                self@ == old(self)@.refresh_channel_steps(channels@, ids@, k as nat),
            decreases channels.len() - k,
        {
            let (channel, peer) = channels[k];
            let _ = self.authenticate_and_queue(RequestKind::ChannelBind { peer, channel }, None, ids[k]);
            k += 1;
        }
    }

    /// Does what is due at `now`.
    ///
    /// An allocation whose lifetime is over is given up. Every request that
    /// has waited long enough for its answer is sent again, or dropped
    /// where its backoff is worn out; a refresh that is dropped so takes the
    /// allocation with it. An allocation that is past half its lifetime
    /// asks for a refresh, and so does every channel that is past half its
    /// own and has carried data. The requests that go out have new
    /// transaction ids, of which none is the id of a request that waits.
    pub fn handle_timeout(&mut self, now: Instant)
        requires
            old(self).wf(),
        ensures
            final(self).wf(),
            old(self)@.handle_timeout(now, final(self)@),
    {
        self.update_now(now);
        let expired = match self.allocation_expires_at() {
            Some(expires_at) => now.nanos >= expires_at.nanos,
            None => false,
        };
        if expired {
            self.invalidate_allocation();
        }
        let due = transaction_ids(&self.sent_requests);
        let ghost expired_view = self@;
        let retransmit_ids = draw_fresh_ids(due.len(), &due);
        self.retransmit_due(&due, now, &retransmit_ids);
        let refresh_id = draw_fresh_id(&due);
        if let Some(refresh_at) = self.refresh_allocation_at() {
            if now.nanos >= refresh_at.nanos && !self.refresh_in_flight() {
                let _ = self.authenticate_and_queue(RequestKind::Refresh, None, refresh_id);
            }
        }
        let in_flight = self.channels_in_flight();
        let channels = self.channel_bindings.channels_to_refresh(now, &in_flight);
        let channel_ids = draw_fresh_ids(channels.len(), &due);
        self.refresh_channels(&channels, &channel_ids);
        assert(final(self)@ == old(self)@.handle_timeout_with(
            now,
            due@,
            retransmit_ids@,
            refresh_id,
            channel_ids@,
        ));
        assert(old(self)@.draws_at_timeout(now, due@, retransmit_ids@, refresh_id, channel_ids@)) by {
            assert(expired_view == old(self)@.expire(now));
            assert(channels@ == old(self)@.channels_refreshed_at_timeout(now, due@, retransmit_ids@, refresh_id));
            assert forall|id: u128| #[trigger] expired_view.sent_requests.contains_key(id) implies none_is(
                retransmit_ids@,
                id,
            ) && refresh_id != id && none_is(channel_ids@, id) by {
                assert(due@.contains(id));
            }
        }
        proof {
            lemma_requests_stay_in_order(
                old(self)@,
                arbitrary(),
                arbitrary(),
                arbitrary(),
                arbitrary(),
                arbitrary(),
                now,
                refresh_id,
                arbitrary(),
                retransmit_ids@,
                due@,
                channel_ids@,
                arbitrary(),
                arbitrary(),
            );
        }
    }

    /// Takes the oldest event that waits to be read.
    pub fn poll_event(&mut self) -> (event: Option<Event>)
        requires
            old(self).wf(),
        ensures
            final(self).wf(),
            match event {
                Some(e) => old(self)@.events.len() > 0 && e == old(self)@.events[0] && final(self)@ == (AllocationView {
                    events: old(self)@.events.drop_first(),
                    ..old(self)@
                }),
                None => old(self)@.events.len() == 0 && final(self)@ == old(self)@,
            },
    {
        let event = self.events.pop_front();
        assert(event is Some ==> self.events@ =~= old(self).events@.drop_first());
        event
    }

    /// Takes the oldest datagram that waits to be sent.
    pub fn poll_transmit(&mut self) -> (transmit: Option<Transmit>)
        requires
            old(self).wf(),
        ensures
            final(self).wf(),
            match transmit {
                Some(t) => old(self)@.buffered_transmits.len() > 0 && t@ == old(self)@.buffered_transmits[0]
                    && final(self)@ == (AllocationView {
                    buffered_transmits: old(self)@.buffered_transmits.drop_first(),
                    ..old(self)@
                }),
                None => old(self)@.buffered_transmits.len() == 0 && final(self)@ == old(self)@,
            },
    {
        let transmit = self.buffered_transmits.pop_front();
        assert(transmit is Some ==> transmits_of(self.buffered_transmits@) =~= transmits_of(
            old(self).buffered_transmits@,
        ).drop_first());
        transmit
    }

    /// Whether the allocation can be given up, and for which reason. The
    /// allocation stays as it is.
    pub fn can_be_freed(&mut self) -> (reason: Option<FreeReason>)
        requires
            old(self).wf(),
        ensures
            final(self).wf(),
            final(self)@ == old(self)@,
            reason == old(self)@.can_be_freed(),
    {
        if let Some(reason) = self.explicit_failure {
            return Some(reason);
        }
        let pending_work = self.events.len() > 0 || self.buffered_transmits.len() > 0
            || !self.sent_requests.is_empty();
        let no_responses = !self.received_any_response();
        let auth_failure = !self.has_credentials();
        if !pending_work && no_responses {
            return Some(FreeReason::NoResponseReceived);
        }
        if !pending_work && auth_failure {
            return Some(FreeReason::AuthenticationError);
        }
        None
    }

    /// Whether the relay has answered at all.
    pub fn received_any_response(&self) -> (received: bool)
        ensures
            received == self@.active_socket is Some,
    {
        self.active_socket.is_some()
    }

    /// Whether the allocation still has its credentials.
    pub fn has_credentials(&self) -> (has: bool)
        ensures
            has == self@.credentials is Some,
    {
        self.credentials.is_some()
    }

    /// Whether the allocation was made with this user name and password.
    pub fn matches_credentials(&self, username: &str, password: &str) -> (matches: bool)
        ensures
            matches == (self@.credentials matches Some(c) && c.username@ == username@ && c.password@ == password@),
    {
        match &self.credentials {
            Some(c) => same_text(c.username.as_str(), username) && same_text(c.password.as_str(), password),
            None => false,
        }
    }

    /// Whether the allocation is on the relay `socket`.
    pub fn matches_socket(&self, socket: &RelaySocket) -> (matches: bool)
        ensures
            matches == (self@.server == *socket),
    {
        self.server == *socket
    }

    /// The relayed candidates that the allocation has, IPv4 first.
    pub fn current_relay_candidates(&self) -> (candidates: Vec<Candidate>)
        ensures
            candidates@ == (match self@.ip4_allocation {
                Some(c) => seq![c],
                None => Seq::<Candidate>::empty(),
            }) + (match self@.ip6_allocation {
                Some(c) => seq![c],
                None => Seq::<Candidate>::empty(),
            }),
    {
        let mut candidates: Vec<Candidate> = Vec::new();
        if let Some(c) = self.ip4_allocation {
            candidates.push(c);
        }
        if let Some(c) = self.ip6_allocation {
            candidates.push(c);
        }
        assert(candidates@ =~= (match self@.ip4_allocation {
            Some(c) => seq![c],
            None => Seq::<Candidate>::empty(),
        }) + (match self@.ip6_allocation {
            Some(c) => seq![c],
            None => Seq::<Candidate>::empty(),
        }));
        candidates
    }

    /// Whether `socket` is one of our addresses on the relay.
    pub fn has_socket(&self, socket: SocketAddr) -> (has: bool)
        ensures
            has == (self@.ip4_socket() == Some(Socket { address: socket }) || self@.ip6_socket() == Some(
                Socket { address: socket },
            )),
    {
        let is_ip4 = match self.ip4_socket() {
            Some(s) => s.address == socket,
            None => false,
        };
        let is_ip6 = match self.ip6_socket() {
            Some(s) => s.address == socket,
            None => false,
        };
        is_ip4 || is_ip6
    }

    /// The channels that are bound on the allocation.
    pub fn channel_bindings(&self) -> (table: &ChannelBindings)
        ensures
            table@ == self@.channel_bindings,
    {
        &self.channel_bindings
    }

    /// The relay that the allocation is on.
    pub fn server(&self) -> (server: RelaySocket)
        ensures
            server == self@.server,
    {
        self.server
    }

    /// Our address on the relay for IPv4 peers.
    pub fn ip4_socket(&self) -> (socket: Option<Socket>)
        ensures
            socket == self@.ip4_socket(),
    {
        match self.ip4_allocation {
            Some(c) => Some(Socket { address: c.addr }),
            None => None,
        }
    }

    /// Our address on the relay for IPv6 peers.
    pub fn ip6_socket(&self) -> (socket: Option<Socket>)
        ensures
            socket == self@.ip6_socket(),
    {
        match self.ip6_allocation {
            Some(c) => Some(Socket { address: c.addr }),
            None => None,
        }
    }

    /// Reads a packet from `from` as channel data.
    ///
    /// Returns the peer that sent the data, the data, and our address on the
    /// relay that the peer sent it to.
    pub fn decapsulate<'p>(&mut self, from: SocketAddr, packet: &'p [u8], now: Instant) -> (r: Option<
        (SocketAddr, &'p [u8], Socket),
    >)
        requires
            old(self).wf(),
        ensures
            final(self).wf(),
            final(self)@ == old(self)@.decapsulate(from, packet@, now).0,
            match r {
                Some((peer, payload, socket)) => old(self)@.decapsulate(from, packet@, now).1 == Some(
                    (peer, payload@, socket),
                ),
                None => old(self)@.decapsulate(from, packet@, now).1 is None,
            },
    {
        if !self.server.matches(from) {
            return None;
        }
        let (peer, payload) = match self.channel_bindings.try_decode(packet, now) {
            Some(decoded) => decoded,
            None => {
                return None;
            },
        };
        let socket = match peer {
            SocketAddr::V4(_) => self.ip4_socket(),
            SocketAddr::V6(_) => self.ip6_socket(),
        };
        match socket {
            Some(socket) => Some((peer, payload, socket)),
            None => None,
        }
    }

    /// Frames the payload that stands in `buffer` behind four free bytes,
    /// `buffer_len` bytes in all, for the channel to `peer`: the header goes
    /// into the free bytes, and the datagram is addressed to the relay.
    /// `None` where no channel to the peer is up.
    pub fn encode_to_encrypted_packet(&self, peer: SocketAddr, buffer: Vec<u8>, buffer_len: usize, now: Instant) -> (packet:
        Option<EncryptedPacket>)
        requires
            channel_data::HEADER_LEN <= buffer_len <= buffer@.len(),
            buffer_len - channel_data::HEADER_LEN <= channel_data::MAX_PAYLOAD_LEN,
        ensures
            match packet {
                Some(p) => {
                    &&& self@.channel_bindings.connected_channel_to_peer(peer, now) matches Some(channel)
                    &&& self@.active_socket == Some(p.dst)
                    &&& p.src is None
                    &&& p.packet_start == 0
                    &&& p.packet_len == buffer_len
                    &&& p.buffer@.len() == buffer@.len()
                    &&& p.buffer@.subrange(0, 4) == channel_data::spec_header(channel, (buffer_len - 4) as u16)
                    &&& p.buffer@.subrange(4, buffer@.len() as int) == buffer@.subrange(4, buffer@.len() as int)
                },
                None => self@.channel_bindings.connected_channel_to_peer(peer, now) is None
                    || self@.active_socket is None,
            },
    {
        let mut buffer = buffer;
        let packet_len = buffer_len - channel_data::HEADER_LEN;
        let channel = match self.channel_bindings.connected_channel_to_peer(peer, now) {
            Some(c) => c,
            None => {
                return None;
            },
        };
        channel_data::encode_header_to_slice(&mut buffer, channel, packet_len as u16);
        let dst = match self.active_socket {
            Some(dst) => dst,
            None => {
                return None;
            },
        };
        Some(EncryptedPacket { src: None, dst, packet_start: 0, packet_len: buffer_len, buffer })
    }

    /// Frames `packet` for the channel to `peer` and addresses it to the
    /// relay; `None` where no channel to the peer is up.
    pub fn encode_to_owned_transmit(&mut self, peer: SocketAddr, packet: &[u8], now: Instant) -> (transmit: Option<
        Transmit,
    >)
        requires
            packet@.len() <= channel_data::MAX_PAYLOAD_LEN,
        ensures
            *final(self) == *old(self),
            match transmit {
                Some(t) => old(self)@.encode_to_transmit(peer, packet@, now) == Some(t@),
                None => old(self)@.encode_to_transmit(peer, packet@, now) is None,
            },
    {
        let channel = match self.channel_bindings.connected_channel_to_peer(peer, now) {
            Some(c) => c,
            None => {
                return None;
            },
        };
        let dst = match self.active_socket {
            Some(dst) => dst,
            None => {
                return None;
            },
        };
        Some(Transmit { src: None, dst, payload: channel_data::encode(channel, packet) })
    }
}

/// Whether the two texts are the same.
fn same_text(a: &str, b: &str) -> (same: bool)
    ensures
        same == (a@ == b@),
{
    let a = a.to_owned();
    let b = b.to_owned();
    a == b
}

/// Draws `count` transaction ids at random, each of twelve bytes.
fn draw_ids(count: usize) -> (ids: Vec<u128>)
    ensures
        ids@.len() == count,
        forall|i: int| 0 <= i < count ==> #[trigger] ids@[i] < 0x1_0000_0000_0000_0000_0000_0000,
{
    let mut ids: Vec<u128> = Vec::new();
    let mut i: usize = 0;
    while i < count
        invariant
            i <= count,
            ids@.len() == i,
            forall|j: int| 0 <= j < i ==> #[trigger] ids@[j] < 0x1_0000_0000_0000_0000_0000_0000,
        decreases count - i,
    {
        ids.push(random_transaction_id());
        i += 1;
    }
    ids
}

/// Whether `ids` holds `id`.
fn holds_id(ids: &Vec<u128>, id: u128) -> (found: bool)
    ensures
        found == ids@.contains(id),
{
    let mut i: usize = 0;
    while i < ids.len()
        invariant
            i <= ids.len(),
            forall|j: int| 0 <= j < i ==> ids[j] != id,
        decreases ids.len() - i,
    {
        if ids[i] == id {
            return true;
        }
        i += 1;
    }
    false
}

/// Draws a transaction id that is none of `taken`, which are sorted: an id
/// drawn at random or, should that one be taken, the least id that is not.
fn draw_fresh_id(taken: &Vec<u128>) -> (id: u128)
    requires
        forall|i: int, j: int| 0 <= i < j < taken.len() ==> taken[i] < taken[j],
    ensures
        !taken@.contains(id),
{
    let drawn = random_transaction_id();
    if !holds_id(taken, drawn) {
        return drawn;
    }
    let mut i: usize = 0;
    while i < taken.len()
        invariant
            i <= taken.len(),
            forall|a: int, b: int| 0 <= a < b < taken.len() ==> taken[a] < taken[b],
            forall|j: int| 0 <= j < i ==> taken[j] == j,
        decreases taken.len() - i,
    {
        if taken[i] != i as u128 {
            assert forall|k: int| 0 <= k < taken.len() implies taken[k] != i by {
                if k > i {
                    assert(taken[i as int] < taken[k]);
                    if i > 0 {
                        assert(taken[i - 1] < taken[i as int]);
                    }
                }
            }
            return i as u128;
        }
        i += 1;
    }
    taken.len() as u128
}

/// Draws `count` transaction ids of which none is among `taken`, which are
/// sorted.
fn draw_fresh_ids(count: usize, taken: &Vec<u128>) -> (ids: Vec<u128>)
    requires
        forall|i: int, j: int| 0 <= i < j < taken.len() ==> taken[i] < taken[j],
    ensures
        ids@.len() == count,
        forall|i: int| 0 <= i < count ==> !taken@.contains(#[trigger] ids@[i]),
{
    let mut ids: Vec<u128> = Vec::new();
    let mut i: usize = 0;
    while i < count
        invariant
            i <= count,
            ids@.len() == i,
            forall|a: int, b: int| 0 <= a < b < taken.len() ==> taken[a] < taken[b],
            forall|j: int| 0 <= j < i ==> !taken@.contains(#[trigger] ids@[j]),
        decreases count - i,
    {
        ids.push(draw_fresh_id(taken));
        i += 1;
    }
    ids
}

/// The candidate for the first of `addresses` that makes one, seen from the
/// local socket `local`.
fn find_server_reflexive(addresses: &Vec<SocketAddr>, local: SocketAddr) -> (candidate: Option<Candidate>)
    ensures
        candidate == first_server_reflexive(addresses@, local),
{
    let mut i: usize = 0;
    assert(addresses@.skip(0) =~= addresses@);
    while i < addresses.len()
        invariant
            i <= addresses.len(),
            first_server_reflexive(addresses@, local) == first_server_reflexive(addresses@.skip(i as int), local),
        decreases addresses.len() - i,
    {
        assert(addresses@.skip(i as int)[0] == addresses@[i as int]);
        assert(addresses@.skip(i as int).drop_first() =~= addresses@.skip(i + 1));
        match Candidate::server_reflexive(addresses[i], local) {
            Some(c) => {
                return Some(c);
            },
            None => {},
        }
        i += 1;
    }
    None
}

/// The candidate for the first of `addresses` that is of the asked family
/// and makes one.
fn find_relayed(addresses: &Vec<SocketAddr>, ipv4: bool) -> (candidate: Option<Candidate>)
    ensures
        candidate == first_relayed(addresses@, ipv4),
{
    let mut i: usize = 0;
    assert(addresses@.skip(0) =~= addresses@);
    while i < addresses.len()
        invariant
            i <= addresses.len(),
            first_relayed(addresses@, ipv4) == first_relayed(addresses@.skip(i as int), ipv4),
        decreases addresses.len() - i,
    {
        assert(addresses@.skip(i as int)[0] == addresses@[i as int]);
        assert(addresses@.skip(i as int).drop_first() =~= addresses@.skip(i + 1));
        if addresses[i].is_ipv4() == ipv4 {
            match Candidate::relayed(addresses[i]) {
                Some(c) => {
                    return Some(c);
                },
                None => {},
            }
        }
        i += 1;
    }
    None
}

} // verus!