//! The channels bound on one allocation: which number stands for which peer,
//! since when, and whether anything has arrived on it.

use std::collections::BTreeMap;
use vstd::prelude::*;
use crate::channel_data;
use crate::net::SocketAddr;
use crate::ordered_keys::channel_numbers;
use crate::time::{Duration, Instant};

verus! {

broadcast use {vstd::std_specs::btree::group_btree_axioms, vstd::laws_cmp::group_laws_cmp};

/// The first channel number.
pub const FIRST_CHANNEL: u16 = 0x4000;

/// The last channel number.
pub const LAST_CHANNEL: u16 = 0x4FFF;

/// How many channel numbers there are.
pub const CHANNEL_COUNT: u16 = 0x1000;

/// A binding lasts this many nanoseconds (ten minutes) on the relay.
pub const CHANNEL_LIFETIME_NANOS: u64 = 600_000_000_000;

/// After its lifetime a number rests for this many nanoseconds (five
/// minutes) before it may stand for another peer.
pub const CHANNEL_REBIND_TIMEOUT_NANOS: u64 = 300_000_000_000;

/// One binding of a channel number to a peer.
#[derive(Clone, Copy, Debug, PartialEq, Eq, Structural)]
pub struct Channel {
    /// The peer that the number stands for.
    pub peer: SocketAddr,
    /// Whether the relay has confirmed the binding.
    pub bound: bool,
    /// When the binding was made or last refreshed.
    pub bound_at: Instant,
    /// When data last arrived on the channel; equal to `bound_at` until
    /// something arrives.
    pub last_received: Instant,
}

impl Channel {
    /// The lifetime of a binding.
    pub open spec fn lifetime() -> Duration {
        Duration { nanos: CHANNEL_LIFETIME_NANOS }
    }

    /// A binding to `peer` made at `now`, not yet confirmed.
    pub open spec fn unconfirmed(peer: SocketAddr, now: Instant) -> Channel {
        Channel { peer, bound: false, bound_at: now, last_received: now }
    }

    pub open spec fn spec_age(&self, now: Instant) -> Duration {
        now.spec_duration_since(self.bound_at)
    }

    /// How long ago the binding was made or refreshed.
    #[verifier::when_used_as_spec(spec_age)]
    pub fn age(&self, now: Instant) -> (age: Duration)
        ensures
            age == self.spec_age(now),
    {
        now.duration_since(self.bound_at)
    }

    pub open spec fn spec_no_activity(&self) -> bool {
        self.last_received == self.bound_at
    }

    /// Whether nothing has arrived since the binding was made or refreshed.
    #[verifier::when_used_as_spec(spec_no_activity)]
    pub fn no_activity(&self) -> (idle: bool)
        ensures
            idle == self.spec_no_activity(),
    {
        self.last_received.nanos == self.bound_at.nanos
    }

    pub open spec fn spec_connected_to_peer(&self, peer: SocketAddr, now: Instant) -> bool {
        self.peer == peer && self.spec_age(now).nanos < CHANNEL_LIFETIME_NANOS && self.bound
    }

    /// Whether the channel carries data to `peer`: it is confirmed, and
    /// younger than its lifetime, so the relay still knows it.
    #[verifier::when_used_as_spec(spec_connected_to_peer)]
    pub fn connected_to_peer(&self, peer: SocketAddr, now: Instant) -> (connected: bool)
        ensures
            connected == self.spec_connected_to_peer(peer, now),
    {
        self.peer == peer && self.age(now).nanos < CHANNEL_LIFETIME_NANOS && self.bound
    }

    pub open spec fn spec_bound_to_peer(&self, peer: SocketAddr, now: Instant) -> bool {
        self.peer == peer && self.spec_age(now).nanos < CHANNEL_LIFETIME_NANOS
            + CHANNEL_REBIND_TIMEOUT_NANOS && self.bound
    }

    /// Whether the number still belongs to `peer`: the binding is confirmed
    /// and its lifetime and rest are not over.
    #[verifier::when_used_as_spec(spec_bound_to_peer)]
    pub fn bound_to_peer(&self, peer: SocketAddr, now: Instant) -> (bound: bool)
        ensures
            bound == self.spec_bound_to_peer(peer, now),
    {
        self.peer == peer && self.age(now).nanos < CHANNEL_LIFETIME_NANOS
            + CHANNEL_REBIND_TIMEOUT_NANOS && self.bound
    }

    pub open spec fn spec_can_rebind(&self, now: Instant) -> bool {
        self.spec_no_activity() && self.spec_age(now).nanos >= CHANNEL_LIFETIME_NANOS
            + CHANNEL_REBIND_TIMEOUT_NANOS
    }

    /// Whether the number may stand for another peer: nothing has arrived on
    /// it, and its lifetime and rest are over.
    #[verifier::when_used_as_spec(spec_can_rebind)]
    pub fn can_rebind(&self, now: Instant) -> (free: bool)
        ensures
            free == self.spec_can_rebind(now),
    {
        self.no_activity() && self.age(now).nanos >= CHANNEL_LIFETIME_NANOS
            + CHANNEL_REBIND_TIMEOUT_NANOS
    }

    pub open spec fn spec_needs_refresh(&self, now: Instant) -> bool {
        self.spec_age(now).nanos >= CHANNEL_LIFETIME_NANOS / 2 && !self.spec_no_activity()
    }

    /// Whether the binding is due for a refresh: half its lifetime is over
    /// and something has arrived on it.
    #[verifier::when_used_as_spec(spec_needs_refresh)]
    pub fn needs_refresh(&self, now: Instant) -> (due: bool)
        ensures
            due == self.spec_needs_refresh(now),
    {
        if self.age(now).nanos < CHANNEL_LIFETIME_NANOS / 2 {
            return false;
        }
        if self.no_activity() {
            return false;
        }
        true
    }

    pub open spec fn spec_set_confirmed(self, now: Instant) -> Channel {
        Channel { peer: self.peer, bound: true, bound_at: now, last_received: now }
    }

    /// Marks the binding as confirmed at `now`.
    pub fn set_confirmed(&mut self, now: Instant)
        ensures
            *final(self) == old(self).spec_set_confirmed(now),
    {
        self.bound = true;
        self.bound_at = now;
        self.last_received = now;
    }

    pub open spec fn spec_record_received(self, now: Instant) -> Channel {
        Channel { last_received: now, ..self }
    }

    /// Notes that data arrived at `now`.
    pub fn record_received(&mut self, now: Instant)
        ensures
            *final(self) == old(self).spec_record_received(now),
    {
        self.last_received = now;
    }
}

/// What a table of bindings holds: the bound numbers, and the number at
/// which the search for a free one starts.
pub struct ChannelBindingsView {
    pub channels: Map<u16, Channel>,
    pub next_channel: u16,
}

/// The table of bindings of one allocation.
pub struct ChannelBindings {
    inner: BTreeMap<u16, Channel>,
    next_channel: u16,
}

impl View for ChannelBindings {
    type V = ChannelBindingsView;

    closed spec fn view(&self) -> ChannelBindingsView {
        ChannelBindingsView { channels: self.inner@, next_channel: self.next_channel }
    }
}

impl ChannelBindingsView {
    /// The empty table.
    pub open spec fn empty() -> ChannelBindingsView {
        ChannelBindingsView { channels: Map::empty(), next_channel: FIRST_CHANNEL }
    }

    /// Every number in the table is a channel number, and so is the number
    /// at which the search starts.
    pub open spec fn wf(self) -> bool {
        &&& FIRST_CHANNEL <= self.next_channel <= LAST_CHANNEL
        &&& forall|n: u16| #[trigger]
            self.channels.contains_key(n) ==> FIRST_CHANNEL <= n <= LAST_CHANNEL
    }

    /// Whether `n` is the smallest number whose channel carries data to `peer`.
    pub open spec fn is_connected_channel(self, peer: SocketAddr, now: Instant, n: u16) -> bool {
        &&& self.channels.contains_key(n)
        &&& self.channels[n].spec_connected_to_peer(peer, now)
        &&& forall|m: u16|
            m < n && #[trigger] self.channels.contains_key(m) ==> !self.channels[m].spec_connected_to_peer(
                peer,
                now,
            )
    }

    /// The smallest number whose channel carries data to `peer`, if any does.
    pub open spec fn connected_channel_to_peer(self, peer: SocketAddr, now: Instant) -> Option<u16> {
        if exists|n: u16| self.is_connected_channel(peer, now, n) {
            Some(choose|n: u16| self.is_connected_channel(peer, now, n))
        } else {
            None
        }
    }

    /// Whether `n` is the smallest number that still belongs to `peer`.
    pub open spec fn is_bound_channel(self, peer: SocketAddr, now: Instant, n: u16) -> bool {
        &&& self.channels.contains_key(n)
        &&& self.channels[n].spec_bound_to_peer(peer, now)
        &&& forall|m: u16|
            m < n && #[trigger] self.channels.contains_key(m) ==> !self.channels[m].spec_bound_to_peer(
                peer,
                now,
            )
    }

    /// The smallest number that still belongs to `peer`, if any does.
    pub open spec fn bound_channel_to_peer(self, peer: SocketAddr, now: Instant) -> Option<u16> {
        if exists|n: u16| self.is_bound_channel(peer, now, n) {
            Some(choose|n: u16| self.is_bound_channel(peer, now, n))
        } else {
            None
        }
    }

    /// Whether `n` can be handed out: it is not in the table, or its last
    /// binding may be replaced.
    pub open spec fn available(self, n: u16, now: Instant) -> bool {
        !self.channels.contains_key(n) || self.channels[n].spec_can_rebind(now)
    }

    /// The number tried at step `i` of the search: the search starts at
    /// `next_channel`, runs up to the last number and goes on from the first.
    pub open spec fn candidate(self, i: int) -> u16 {
        (FIRST_CHANNEL + (self.next_channel - FIRST_CHANNEL + i) % (CHANNEL_COUNT as int)) as u16
    }

    /// Whether step `i` is the first step of the search that finds a number
    /// to hand out.
    pub open spec fn is_first_available(self, now: Instant, i: int) -> bool {
        &&& 0 <= i < CHANNEL_COUNT
        &&& self.available(self.candidate(i), now)
        &&& forall|j: int| 0 <= j < i ==> !self.available(#[trigger] self.candidate(j), now)
    }

    /// The number that the search hands out, if it finds one.
    pub open spec fn next_channel_number(self, now: Instant) -> Option<u16> {
        if exists|i: int| self.is_first_available(now, i) {
            Some(self.candidate(choose|i: int| self.is_first_available(now, i)))
        } else {
            None
        }
    }

    /// The number that follows `n`, the first one after the last.
    pub open spec fn successor(n: u16) -> u16 {
        if n == LAST_CHANNEL {
            FIRST_CHANNEL
        } else {
            (n + 1) as u16
        }
    }

    /// The table after `new_channel_to_peer`, and what the call returned.
    ///
    /// A number that still belongs to the peer is returned again and the
    /// table stays. Otherwise the search picks a number, the table takes an
    /// unconfirmed binding for it, and the next search starts behind it.
    /// Where the search finds nothing the table stays.
    pub open spec fn new_channel_to_peer(self, peer: SocketAddr, now: Instant) -> (
        ChannelBindingsView,
        Option<u16>,
    ) {
        match self.bound_channel_to_peer(peer, now) {
            Some(n) => (self, Some(n)),
            None => match self.next_channel_number(now) {
                None => (self, None),
                Some(n) => (
                    ChannelBindingsView {
                        channels: self.channels.insert(n, Channel::unconfirmed(peer, now)),
                        next_channel: Self::successor(n),
                    },
                    Some(n),
                ),
            },
        }
    }

    /// The table after `set_confirmed`, and what the call returned.
    pub open spec fn set_confirmed(self, n: u16, now: Instant) -> (ChannelBindingsView, bool) {
        if self.channels.contains_key(n) {
            (
                ChannelBindingsView {
                    channels: self.channels.insert(n, self.channels[n].spec_set_confirmed(now)),
                    ..self
                },
                true,
            )
        } else {
            (self, false)
        }
    }

    /// The table after `handle_failed_binding`.
    pub open spec fn handle_failed_binding(self, n: u16) -> ChannelBindingsView {
        ChannelBindingsView { channels: self.channels.remove(n), ..self }
    }

    /// The table after `clear`: no bindings, and the search goes on where it was.
    pub open spec fn clear(self) -> ChannelBindingsView {
        ChannelBindingsView { channels: Map::empty(), ..self }
    }

    /// The table after `try_decode`, and what the call returned.
    ///
    /// A frame on a confirmed channel yields the channel's peer and the
    /// frame's payload, and the channel notes the arrival. Anything else
    /// yields nothing and leaves the table as it is.
    pub open spec fn try_decode(self, packet: Seq<u8>, now: Instant) -> (
        ChannelBindingsView,
        Option<(SocketAddr, Seq<u8>)>,
    ) {
        match channel_data::spec_decode(packet) {
            Err(_) => (self, None),
            Ok((n, payload)) => if self.channels.contains_key(n) && self.channels[n].bound {
                (
                    ChannelBindingsView {
                        channels: self.channels.insert(n, self.channels[n].spec_record_received(now)),
                        ..self
                    },
                    Some((self.channels[n].peer, payload)),
                )
            } else {
                (self, None)
            },
        }
    }

    /// Whether the channel `n` is to be refreshed at `now`: it is in the
    /// table and due, and no refresh for it is under way.
    pub open spec fn refresh_due(self, n: u16, now: Instant, in_flight: Set<u16>) -> bool {
        self.channels.contains_key(n) && self.channels[n].spec_needs_refresh(now) && !in_flight.contains(n)
    }

    /// The channels below the number `upto` that are to be refreshed at
    /// `now`, each with its peer, smallest number first.
    pub open spec fn channels_to_refresh_below(self, now: Instant, in_flight: Set<u16>, upto: int) -> Seq<
        (u16, SocketAddr),
    >
        decreases upto,
    {
        if upto <= 0 {
            Seq::empty()
        } else {
            let rest = self.channels_to_refresh_below(now, in_flight, upto - 1);
            let n = (upto - 1) as u16;
            if upto - 1 <= u16::MAX && self.refresh_due(n, now, in_flight) {
                rest.push((n, self.channels[n].peer))
            } else {
                rest
            }
        }
    }

    /// The channels that are to be refreshed at `now`, each with its peer,
    /// smallest number first.
    pub open spec fn channels_to_refresh(self, now: Instant, in_flight: Set<u16>) -> Seq<(u16, SocketAddr)> {
        self.channels_to_refresh_below(now, in_flight, LAST_CHANNEL + 1)
    }
}

impl ChannelBindings {
    /// An empty table.
    pub fn new() -> (table: Self)
        ensures
            table@ == ChannelBindingsView::empty(),
            table@.wf(),
    {
        ChannelBindings { inner: BTreeMap::new(), next_channel: FIRST_CHANNEL }
    }

    /// The channel bound to the number `n`, if there is one.
    pub fn get(&self, n: u16) -> (channel: Option<Channel>)
        ensures
            channel == (if self@.channels.contains_key(n) {
                Some(self@.channels[n])
            } else {
                None
            }),
    {
        match self.inner.get(&n) {
            Some(c) => Some(*c),
            None => None,
        }
    }

    /// The number of a confirmed channel to `peer` that the relay still
    /// knows, the smallest where there are several.
    pub fn connected_channel_to_peer(&self, peer: SocketAddr, now: Instant) -> (number: Option<u16>)
        ensures
            number == self@.connected_channel_to_peer(peer, now),
    {
        let keys = channel_numbers(&self.inner);
        let mut i: usize = 0;
        while i < keys.len()
            invariant
                i <= keys.len(),
                forall|a: int, b: int| 0 <= a < b < keys.len() ==> keys[a] < keys[b],
                forall|k: u16| #[trigger] self.inner@.contains_key(k) <==> keys@.contains(k),
                forall|a: int|
                    0 <= a < i ==> !self.inner@[#[trigger] keys[a]].spec_connected_to_peer(peer, now),
            decreases keys.len() - i,
        {
            let n = keys[i];
            assert(keys@.contains(n));
            let found = match self.inner.get(&n) {
                Some(c) => c.connected_to_peer(peer, now),
                None => false,
            };
            if found {
                assert(self@.is_connected_channel(peer, now, n)) by {
                    assert forall|m: u16| m < n && #[trigger] self.inner@.contains_key(m) implies !self.inner@[m].spec_connected_to_peer(
                        peer,
                        now,
                    ) by {
                        let a = choose|a: int| 0 <= a < keys.len() && keys[a] == m;
                        assert(keys@.contains(m));
                        if a >= i {
                            if a > i {
                                assert(keys[i as int] < keys[a]);
                            }
                        }
                    }
                }
                proof {
                    lemma_connected_channel_is_unique(self@, peer, now, n);
                }
                return Some(n);
            }
            i += 1;
        }
        proof {
            assert forall|n: u16| !self@.is_connected_channel(peer, now, n) by {
                if self.inner@.contains_key(n) {
                    assert(keys@.contains(n));
                    let a = choose|a: int| 0 <= a < keys.len() && keys[a] == n;
                    assert(!self.inner@[keys[a]].spec_connected_to_peer(peer, now));
                }
            }
        }
        None
    }

    /// The number that still belongs to `peer`, the smallest where there are
    /// several: as `connected_channel_to_peer`, with the rest after the
    /// lifetime counted in.
    pub fn bound_channel_to_peer(&self, peer: SocketAddr, now: Instant) -> (number: Option<u16>)
        ensures
            number == self@.bound_channel_to_peer(peer, now),
    {
        let keys = channel_numbers(&self.inner);
        let mut i: usize = 0;
        while i < keys.len()
            invariant
                i <= keys.len(),
                forall|a: int, b: int| 0 <= a < b < keys.len() ==> keys[a] < keys[b],
                forall|k: u16| #[trigger] self.inner@.contains_key(k) <==> keys@.contains(k),
                forall|a: int| 0 <= a < i ==> !self.inner@[#[trigger] keys[a]].spec_bound_to_peer(peer, now),
            decreases keys.len() - i,
        {
            let n = keys[i];
            assert(keys@.contains(n));
            let found = match self.inner.get(&n) {
                Some(c) => c.bound_to_peer(peer, now),
                None => false,
            };
            if found {
                assert(self@.is_bound_channel(peer, now, n)) by {
                    assert forall|m: u16| m < n && #[trigger] self.inner@.contains_key(m) implies !self.inner@[m].spec_bound_to_peer(
                        peer,
                        now,
                    ) by {
                        let a = choose|a: int| 0 <= a < keys.len() && keys[a] == m;
                        assert(keys@.contains(m));
                        if a >= i {
                            if a > i {
                                assert(keys[i as int] < keys[a]);
                            }
                        }
                    }
                }
                proof {
                    lemma_bound_channel_is_unique(self@, peer, now, n);
                }
                return Some(n);
            }
            i += 1;
        }
        proof {
            assert forall|n: u16| !self@.is_bound_channel(peer, now, n) by {
                if self.inner@.contains_key(n) {
                    assert(keys@.contains(n));
                    let a = choose|a: int| 0 <= a < keys.len() && keys[a] == n;
                    assert(!self.inner@[keys[a]].spec_bound_to_peer(peer, now));
                }
            }
        }
        None
    }

    /// Picks the number for a new binding: the first one, from the number
    /// where the search starts and round through all numbers, that is free
    /// or whose binding may be replaced.
    pub fn next_channel_number(&self, now: Instant) -> (number: Option<u16>)
        requires
            self@.wf(),
        ensures
            number == self@.next_channel_number(now),
    {
        let offset: u16 = self.next_channel - FIRST_CHANNEL;
        let mut i: u16 = 0;
        while i < CHANNEL_COUNT
            invariant
                i <= CHANNEL_COUNT,
                self@.wf(),
                offset == self.next_channel - FIRST_CHANNEL,
                forall|j: int| 0 <= j < i ==> !self@.available(#[trigger] self@.candidate(j), now),
            decreases CHANNEL_COUNT - i,
        {
            let n: u16 = FIRST_CHANNEL + (offset + i) % CHANNEL_COUNT;
            assert(n == self@.candidate(i as int));
            let free = match self.inner.get(&n) {
                Some(c) => c.can_rebind(now),
                None => true,
            };
            if free {
                assert(self@.is_first_available(now, i as int));
                proof {
                    lemma_first_available_is_unique(self@, now, i as int);
                }
                return Some(n);
            }
            i += 1;
        }
        assert forall|k: int| !self@.is_first_available(now, k) by {
            if 0 <= k < CHANNEL_COUNT {
                assert(!self@.available(self@.candidate(k), now));
            }
        }
        None
    }

    /// Hands out a channel number for `peer`.
    ///
    /// A number that still belongs to the peer is handed out again.
    /// Otherwise the peer gets the number that the search picks, bound but
    /// not confirmed; `None` where every number is taken and none may be
    /// replaced.
    pub fn new_channel_to_peer(&mut self, peer: SocketAddr, now: Instant) -> (number: Option<u16>)
        requires
            old(self)@.wf(),
        ensures
            final(self)@.wf(),
            (final(self)@, number) == old(self)@.new_channel_to_peer(peer, now),
    {
        if let Some(n) = self.bound_channel_to_peer(peer, now) {
            return Some(n);
        }
        let number = match self.next_channel_number(now) {
            Some(n) => n,
            None => {
                return None;
            },
        };
        proof {
            let i = choose|i: int| self@.is_first_available(now, i);
            assert(number == self@.candidate(i));
        }
        if number == LAST_CHANNEL {
            self.next_channel = FIRST_CHANNEL;
        } else {
            self.next_channel = number + 1;
        }
        let _ = self.inner.insert(
            number,
            Channel { peer, bound: false, bound_at: now, last_received: now },
        );
        assert(final(self)@.channels =~= old(self)@.channels.insert(number, Channel::unconfirmed(peer, now)));
        Some(number)
    }

    /// Marks the channel `n` as confirmed at `now`; `false` where the table
    /// holds no such channel.
    pub fn set_confirmed(&mut self, n: u16, now: Instant) -> (known: bool)
        requires
            old(self)@.wf(),
        ensures
            final(self)@.wf(),
            (final(self)@, known) == old(self)@.set_confirmed(n, now),
    {
        let mut channel = match self.inner.get(&n) {
            Some(c) => *c,
            None => {
                return false;
            },
        };
        channel.set_confirmed(now);
        let _ = self.inner.insert(n, channel);
        assert forall|m: u16| #[trigger] self.inner@.contains_key(m) implies FIRST_CHANNEL <= m <= LAST_CHANNEL by {
            if m == n {
                assert(old(self)@.channels.contains_key(n));
            } else {
                assert(old(self)@.channels.contains_key(m));
            }
        }
        true
    }

    /// Takes the channel `n` out of the table.
    pub fn handle_failed_binding(&mut self, n: u16)
        requires
            old(self)@.wf(),
        ensures
            final(self)@.wf(),
            final(self)@ == old(self)@.handle_failed_binding(n),
    {
        let _ = self.inner.remove(&n);
    }

    /// Takes every channel out of the table.
    pub fn clear(&mut self)
        requires
            old(self)@.wf(),
        ensures
            final(self)@.wf(),
            final(self)@ == old(self)@.clear(),
    {
        self.inner.clear();
    }

    /// Reads `packet` as a channel-data frame from the relay.
    ///
    /// Returns the peer that the frame's channel stands for and the frame's
    /// payload, and notes the arrival on that channel. A buffer that is no
    /// frame, a number that the table does not hold, or a channel that is
    /// not yet confirmed yields `None`.
    pub fn try_decode<'p>(&mut self, packet: &'p [u8], now: Instant) -> (r: Option<(SocketAddr, &'p [u8])>)
        requires
            old(self)@.wf(),
        ensures
            final(self)@.wf(),
            final(self)@ == old(self)@.try_decode(packet@, now).0,
            match r {
                Some((peer, payload)) => old(self)@.try_decode(packet@, now).1 == Some((peer, payload@)),
                None => old(self)@.try_decode(packet@, now).1 is None,
            },
    {
        let (number, payload) = match channel_data::decode(packet) {
            Ok(frame) => frame,
            Err(_) => {
                return None;
            },
        };
        let mut channel = match self.inner.get(&number) {
            Some(c) => *c,
            None => {
                return None;
            },
        };
        if !channel.bound {
            return None;
        }
        channel.record_received(now);
        let _ = self.inner.insert(number, channel);
        assert forall|m: u16| #[trigger] self.inner@.contains_key(m) implies FIRST_CHANNEL <= m <= LAST_CHANNEL by {
            if m == number {
                assert(old(self)@.channels.contains_key(number));
            } else {
                assert(old(self)@.channels.contains_key(m));
            }
        }
        Some((channel.peer, payload))
    }

    /// The channels that are to be refreshed at `now`, each with its peer,
    /// smallest number first: those that are due and whose number is not
    /// among `in_flight`.
    pub fn channels_to_refresh(&self, now: Instant, in_flight: &Vec<u16>) -> (due: Vec<(u16, SocketAddr)>)
        requires
            self@.wf(),
        ensures
            due@ == self@.channels_to_refresh(now, in_flight@.to_set()),
    {
        let mut due: Vec<(u16, SocketAddr)> = Vec::new();
        let mut n: u16 = FIRST_CHANNEL;
        proof {
            lemma_nothing_to_refresh_below_first(self@, now, in_flight@.to_set(), FIRST_CHANNEL as int);
        }
        loop
            invariant_except_break
                due@ == self@.channels_to_refresh_below(now, in_flight@.to_set(), n as int),
            invariant
                FIRST_CHANNEL <= n <= LAST_CHANNEL,
                self@.wf(),
            ensures
                due@ == self@.channels_to_refresh(now, in_flight@.to_set()),
            decreases LAST_CHANNEL - n,
        {
            if let Some(c) = self.inner.get(&n) {
                if c.needs_refresh(now) && !contains_number(in_flight, n) {
                    due.push((n, c.peer));
                }
            }
            assert(due@ == self@.channels_to_refresh_below(now, in_flight@.to_set(), n + 1));
            if n == LAST_CHANNEL {
                break ;
            }
            n += 1;
        }
        due
    }
}

/// A channel that carries data is confirmed and young: whenever the table
/// names a channel as connected to a peer, that channel is in the table, is
/// bound to that peer, has been confirmed, and is younger than the lifetime
/// of a binding.
pub proof fn lemma_connected_channel_is_confirmed_and_young(
    table: ChannelBindingsView,
    peer: SocketAddr,
    now: Instant,
    n: u16,
)
    requires
        table.connected_channel_to_peer(peer, now) == Some(n),
    ensures
        table.channels.contains_key(n),
        table.channels[n].peer == peer,
        table.channels[n].bound,
        table.channels[n].spec_age(now).nanos < CHANNEL_LIFETIME_NANOS,
{
    let c = choose|c: u16| table.is_connected_channel(peer, now, c);
    assert(table.is_connected_channel(peer, now, c));
}

/// A number changes hands only after its rest: whenever handing out a
/// channel replaces the binding that a number had, nothing had arrived on
/// that binding, and its lifetime and the rest after it were over.
pub proof fn lemma_reuse_needs_idle_and_rested(table: ChannelBindingsView, peer: SocketAddr, now: Instant, n: u16)
    requires
        table.channels.contains_key(n),
        table.new_channel_to_peer(peer, now).0.channels.contains_key(n),
        table.new_channel_to_peer(peer, now).0.channels[n] != table.channels[n],
    ensures
        table.new_channel_to_peer(peer, now).1 == Some(n),
        table.channels[n].spec_no_activity(),
        table.channels[n].spec_age(now).nanos >= CHANNEL_LIFETIME_NANOS + CHANNEL_REBIND_TIMEOUT_NANOS,
{
    let picked = table.next_channel_number(now);
    assert(table.bound_channel_to_peer(peer, now) is None);
    assert(picked is Some);
    let i = choose|i: int| table.is_first_available(now, i);
    assert(table.is_first_available(now, i));
    assert(picked == Some(table.candidate(i)));
    assert(table.available(table.candidate(i), now));
}

/// What is handed out is a channel number: a number that
/// `new_channel_to_peer` returns lies between the first and the last
/// channel number, and the table holds a channel under it afterwards.
pub proof fn lemma_new_channel_is_a_channel_number(table: ChannelBindingsView, peer: SocketAddr, now: Instant, n: u16)
    requires
        table.wf(),
        table.new_channel_to_peer(peer, now).1 == Some(n),
    ensures
        FIRST_CHANNEL <= n <= LAST_CHANNEL,
        table.new_channel_to_peer(peer, now).0.channels.contains_key(n),
        table.new_channel_to_peer(peer, now).0.channels[n].peer == peer,
        table.new_channel_to_peer(peer, now).0.wf(),
{
    match table.bound_channel_to_peer(peer, now) {
        Some(m) => {
            let c = choose|c: u16| table.is_bound_channel(peer, now, c);
            assert(table.is_bound_channel(peer, now, c));
        },
        None => {
            let i = choose|i: int| table.is_first_available(now, i);
            assert(table.is_first_available(now, i));
            assert(n == table.candidate(i));
            let after = table.new_channel_to_peer(peer, now).0;
            assert forall|m: u16| #[trigger] after.channels.contains_key(m) implies FIRST_CHANNEL <= m
                <= LAST_CHANNEL by {
                if m != n {
                    assert(table.channels.contains_key(m));
                }
            }
        },
    }
}

/// Whether `numbers` holds `n`.
fn contains_number(numbers: &Vec<u16>, n: u16) -> (found: bool)
    ensures
        found == numbers@.to_set().contains(n),
{
    let mut i: usize = 0;
    while i < numbers.len()
        invariant
            i <= numbers.len(),
            forall|j: int| 0 <= j < i ==> numbers[j] != n,
        decreases numbers.len() - i,
    {
        if numbers[i] == n {
            assert(numbers@.contains(n));
            return true;
        }
        i += 1;
    }
    assert(!numbers@.contains(n));
    false
}

proof fn lemma_nothing_to_refresh_below_first(table: ChannelBindingsView, now: Instant, in_flight: Set<u16>, upto: int)
    requires
        table.wf(),
        upto <= FIRST_CHANNEL,
    ensures
        table.channels_to_refresh_below(now, in_flight, upto) == Seq::<(u16, SocketAddr)>::empty(),
    decreases upto,
{
    if upto > 0 {
        lemma_nothing_to_refresh_below_first(table, now, in_flight, upto - 1);
    }
}

proof fn lemma_connected_channel_is_unique(table: ChannelBindingsView, peer: SocketAddr, now: Instant, n: u16)
    requires
        table.is_connected_channel(peer, now, n),
    ensures
        table.connected_channel_to_peer(peer, now) == Some(n),
{
    let c = choose|c: u16| table.is_connected_channel(peer, now, c);
    assert(table.is_connected_channel(peer, now, c));
    if c < n {
        assert(table.channels.contains_key(c));
    } else if n < c {
        assert(table.channels.contains_key(n));
    }
}

proof fn lemma_bound_channel_is_unique(table: ChannelBindingsView, peer: SocketAddr, now: Instant, n: u16)
    requires
        table.is_bound_channel(peer, now, n),
    ensures
        table.bound_channel_to_peer(peer, now) == Some(n),
{
    let c = choose|c: u16| table.is_bound_channel(peer, now, c);
    assert(table.is_bound_channel(peer, now, c));
    if c < n {
        assert(table.channels.contains_key(c));
    } else if n < c {
        assert(table.channels.contains_key(n));
    }
}

proof fn lemma_first_available_is_unique(table: ChannelBindingsView, now: Instant, i: int)
    requires
        table.is_first_available(now, i),
    ensures
        table.next_channel_number(now) == Some(table.candidate(i)),
{
    let c = choose|c: int| table.is_first_available(now, c);
    assert(table.is_first_available(now, c));
    if c < i {
        assert(!table.available(table.candidate(c), now));
    } else if i < c {
        assert(!table.available(table.candidate(i), now));
    }
}

} // verus!
