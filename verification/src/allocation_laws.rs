//! What holds of every allocation, whatever it is fed.
//!
//! The laws speak of the steps in [`crate::allocation_model`], which the
//! methods of [`crate::allocation::Allocation`] are proved to take.

use vstd::prelude::*;
use crate::allocation_model::{
    differs_from, first_relayed, first_server_reflexive, none_is, update_candidate, AllocationView, FreeReason,
    SentRequest, Socket, TransmitView,
};
use crate::backoff::ExponentialBackoff;
use crate::channel_bindings::{lemma_connected_channel_is_confirmed_and_young, ChannelBindingsView, LAST_CHANNEL};
use crate::channel_data;
use crate::net::SocketAddr;
use crate::relay_socket::RelaySocket;
use crate::stun::{
    spec_decode, spec_encode, Credentials, DecodedMessage, MessageClass, Request, RequestKind, ALLOCATE,
    ALLOCATION_MISMATCH, BINDING, REFRESH, STALE_NONCE, UNAUTHORIZED,
};
use crate::time::Instant;

verus! {

/// Whether the clock of `post` is at or after the clock of `pre`.
pub open spec fn clock_not_behind(pre: AllocationView, post: AllocationView) -> bool {
    post.last_now.nanos >= pre.last_now.nanos
}

/// Whether, from `pre` to `post`, the allocation has stayed signed out and
/// has queued nothing but unsigned requests: every datagram that `post`
/// holds beyond those of `pre` is the encoding of a request without
/// credentials.
pub open spec fn sends_only_unsigned(pre: AllocationView, post: AllocationView) -> bool {
    &&& post.signed_out()
    &&& post.software == pre.software
    &&& pre.buffered_transmits.len() <= post.buffered_transmits.len()
    &&& forall|i: int|
        0 <= i < pre.buffered_transmits.len() ==> #[trigger] post.buffered_transmits[i] == pre.buffered_transmits[i]
    &&& forall|i: int|
        pre.buffered_transmits.len() <= i < post.buffered_transmits.len() ==> is_unsigned(
            post.software,
            #[trigger] post.buffered_transmits[i],
        )
}

/// Whether `transmit` carries a request without credentials, from an
/// allocation that names itself `software`.
pub open spec fn is_unsigned(software: Seq<char>, transmit: TransmitView) -> bool {
    exists|request: Request|
        request.credentials is None && #[trigger] spec_encode(request, software) == Some(
            transmit.payload,
        )
}

// ---------------------------------------------------------------------
// The clock
// ---------------------------------------------------------------------
/// The clock shows the latest instant that it was told of: telling it an
/// instant leaves it at the later of that instant and what it showed.
pub proof fn lemma_update_now_takes_the_later(s: AllocationView, now: Instant)
    ensures
        s.update_now(now).last_now.nanos == (if now.nanos > s.last_now.nanos {
            now.nanos
        } else {
            s.last_now.nanos
        }),
        s.update_now(now) == (AllocationView { last_now: s.update_now(now).last_now, ..s }),
{
}

proof fn lemma_clock_flush(s: AllocationView, now: Instant, ids: Seq<u128>, count: nat)
    ensures
        clock_not_behind(s, s.flush_steps(now, ids, count)),
    decreases count,
{
    if count > 0 {
        lemma_clock_flush(s, now, ids, (count - 1) as nat);
    }
}

proof fn lemma_clock_retransmit(s: AllocationView, due: Seq<u128>, now: Instant, ids: Seq<u128>, count: nat)
    ensures
        s.retransmit_steps(due, now, ids, count).last_now == s.last_now,
    decreases count,
{
    if count > 0 {
        lemma_clock_retransmit(s, due, now, ids, (count - 1) as nat);
    }
}

proof fn lemma_clock_refresh_channels(s: AllocationView, channels: Seq<(u16, SocketAddr)>, ids: Seq<u128>, count: nat)
    ensures
        s.refresh_channel_steps(channels, ids, count).last_now == s.last_now,
    decreases count,
{
    if count > 0 {
        lemma_clock_refresh_channels(s, channels, ids, (count - 1) as nat);
    }
}

/// The clock never runs backward: whatever instant a step is told, in
/// whatever order, the allocation's clock afterwards is not behind where it
/// was, and is at that instant where that instant is the later.
pub proof fn lemma_clock_is_monotone(
    s: AllocationView,
    from: SocketAddr,
    local: SocketAddr,
    peer: SocketAddr,
    packet: Seq<u8>,
    message: DecodedMessage,
    now: Instant,
    id: u128,
    other_id: u128,
    ids: Seq<u128>,
    due: Seq<u128>,
    more_ids: Seq<u128>,
    post: AllocationView,
    handled: bool,
)
    ensures
        clock_not_behind(s, s.refresh(now, id, other_id)),
        clock_not_behind(s, s.bind_channel(peer, now, id)),
        clock_not_behind(s, s.handle_message(local, message, now, id, ids).0),
        s.handle_input(from, local, packet, now, post, handled) ==> clock_not_behind(s, post) && post.last_now.nanos
            >= now.nanos,
        clock_not_behind(s, s.handle_timeout_with(now, due, ids, id, more_ids)),
        s.handle_timeout_with(now, due, ids, id, more_ids).last_now.nanos >= now.nanos,
        s.handle_timeout(now, post) ==> clock_not_behind(s, post) && post.last_now.nanos >= now.nanos,
        s.refresh(now, id, other_id).last_now.nanos >= now.nanos,
        s.decapsulate(from, packet, now).0.last_now == s.last_now,
{
    assert(clock_not_behind(s, s.handle_message(local, message, now, id, ids).0)) by {
        lemma_clock_handle_message(s, local, message, now, id, ids);
    }
    assert(clock_not_behind(s, s.handle_timeout_with(now, due, ids, id, more_ids)) && s.handle_timeout_with(
        now,
        due,
        ids,
        id,
        more_ids,
    ).last_now.nanos >= now.nanos) by {
        lemma_clock_handle_timeout(s, now, due, ids, id, more_ids);
    }
    if s.handle_input(from, local, packet, now, post, handled) {
        let s1 = s.update_now(now);
        if !s1.server.spec_matches(from) || spec_decode(packet) is None {
        } else {
            let (m, i, f) = choose|m: DecodedMessage, i: u128, f: Seq<u128>|
                spec_decode(packet) == Some(m@) && (post, handled) == #[trigger] s1.handle_message(
                    local,
                    m,
                    now,
                    i,
                    f,
                );
            lemma_clock_handle_message(s1, local, m, now, i, f);
        }
    }
    if s.handle_timeout(now, post) {
        let (d, r, i, c) = choose|d: Seq<u128>, r: Seq<u128>, i: u128, c: Seq<u128>|
            s.draws_at_timeout(now, d, r, i, c) && post == #[trigger] s.handle_timeout_with(now, d, r, i, c);
        lemma_clock_handle_timeout(s, now, d, r, i, c);
    }
}

proof fn lemma_clock_handle_message(
    s: AllocationView,
    local: SocketAddr,
    message: DecodedMessage,
    now: Instant,
    id: u128,
    flush_ids: Seq<u128>,
)
    ensures
        clock_not_behind(s, s.handle_message(local, message, now, id, flush_ids).0),
{
    if s.sent_requests.contains_key(message.transaction_id) {
        let sent = s.sent_requests[message.transaction_id];
        let s1 = AllocationView { sent_requests: s.sent_requests.remove(message.transaction_id), ..s };
        if message.error_code is None && message.class == MessageClass::SuccessResponse
            && message.method == ALLOCATE {
            if let Some(lifetime) = message.lifetime {
                let ip4 = first_relayed(message.relay_addresses@, true);
                let ip6 = first_relayed(message.relay_addresses@, false);
                let (ip4_allocation, events) = update_candidate(
                    ip4,
                    s1.ip4_allocation,
                    s1.events,
                );
                let (ip6_allocation, events) = update_candidate(ip6, s1.ip6_allocation, events);
                let s2 = AllocationView {
                    allocation_lifetime: Some((now, lifetime)),
                    ip4_allocation,
                    ip6_allocation,
                    events,
                    ..s1
                };
                lemma_clock_flush(s2, now, flush_ids, s2.buffered_channel_bindings.len());
            }
        }
    }
}

proof fn lemma_clock_handle_timeout(
    s: AllocationView,
    now: Instant,
    due: Seq<u128>,
    retransmit_ids: Seq<u128>,
    refresh_id: u128,
    channel_ids: Seq<u128>,
)
    ensures
        clock_not_behind(s, s.handle_timeout_with(now, due, retransmit_ids, refresh_id, channel_ids)),
        s.handle_timeout_with(now, due, retransmit_ids, refresh_id, channel_ids).last_now.nanos >= now.nanos,
{
    let s1 = s.expire(now);
    lemma_clock_retransmit(s1, due, now, retransmit_ids, due.len());
    let s2 = s1.retransmit_steps(due, now, retransmit_ids, due.len());
    let s3 = s2.refresh_if_due(now, refresh_id);
    let channels = s3.channel_bindings.channels_to_refresh(now, s3.channels_in_flight());
    lemma_clock_refresh_channels(s3, channels, channel_ids, channels.len());
}

// ---------------------------------------------------------------------
// Retransmission
// ---------------------------------------------------------------------
/// No request is sent again before its time: a request whose wait is not
/// over at `now` is left as it is, with everything else.
pub proof fn lemma_no_retransmission_before_deadline(s: AllocationView, id: u128, now: Instant, next_id: u128)
    requires
        s.wf(),
        s.sent_requests.contains_key(id),
        now.nanos < s.sent_requests[id].sent_at.nanos + s.sent_requests[id].backoff_duration.nanos,
    ensures
        s.retransmit(id, now, next_id) == s,
{
}

/// A request that is sent again has waited its whole wait: where looking at
/// a request changes anything at all, the request was waiting, and `now` is
/// at or after the instant at which it was sent plus its wait.
pub proof fn lemma_retransmission_means_deadline_passed(s: AllocationView, id: u128, now: Instant, next_id: u128)
    requires
        s.wf(),
        s.retransmit(id, now, next_id) != s,
    ensures
        s.sent_requests.contains_key(id),
        now.nanos >= s.sent_requests[id].sent_at.nanos + s.sent_requests[id].backoff_duration.nanos,
{
}

/// While no request is due, going through them sends nothing again.
pub proof fn lemma_nothing_due_nothing_resent(s: AllocationView, due: Seq<u128>, now: Instant, ids: Seq<u128>, count: nat)
    requires
        forall|id: u128| #[trigger] s.sent_requests.contains_key(id) ==> !s.sent_requests[id].timed_out(now),
    ensures
        s.retransmit_steps(due, now, ids, count) == s,
    decreases count,
{
    if count > 0 {
        lemma_nothing_due_nothing_resent(s, due, now, ids, (count - 1) as nat);
    }
}

/// Nothing is due before the allocation asks to be woken: at an instant
/// before the one that `poll_timeout` names, no request has waited its whole
/// wait; and where `poll_timeout` names none, no request waits at all.
pub proof fn lemma_nothing_is_due_before_poll_timeout(s: AllocationView, now: Instant)
    requires
        s.wf(),
        s.poll_timeout() matches Some(t) ==> now.nanos < t.nanos,
    ensures
        forall|id: u128| #[trigger] s.sent_requests.contains_key(id) ==> !s.sent_requests[id].timed_out(now),
{
    assert forall|id: u128| #[trigger] s.sent_requests.contains_key(id) implies !s.sent_requests[id].timed_out(
        now,
    ) by {
        let deadline = s.sent_requests[id].deadline();
        assert(s.waits_for(deadline));
        assert(s.sent_requests[id].wf(s.last_now));
        match s.poll_timeout() {
            Some(t) => {
                let c = choose|c: Instant| s.is_poll_timeout(c);
                assert(s.is_poll_timeout(c));
                assert(t.nanos <= deadline.nanos);
            },
            None => {
                assert(!s.is_poll_timeout(deadline));
                lemma_some_instant_is_first(s, deadline);
            },
        }
    }
}

/// Where an allocation waits for an instant at all, one of the instants
/// that it waits for is the first.
proof fn lemma_some_instant_is_first(s: AllocationView, t: Instant)
    requires
        s.wf(),
        s.waits_for(t),
    ensures
        exists|first: Instant| s.is_poll_timeout(first),
    decreases t.nanos,
{
    if !s.is_poll_timeout(t) {
        let u = choose|u: Instant| #[trigger] s.waits_for(u) && !(t.nanos <= u.nanos);
        lemma_some_instant_is_first(s, u);
    }
}

/// A timeout before any deadline sends nothing again: while no request
/// that waits has waited its whole wait at `now`, `handle_timeout` does only
/// what it does beside sending again. It gives up an allocation whose
/// lifetime is over, and asks for the refreshes that are due.
pub proof fn lemma_timeout_before_deadlines_resends_nothing(
    s: AllocationView,
    now: Instant,
    due: Seq<u128>,
    retransmit_ids: Seq<u128>,
    refresh_id: u128,
    channel_ids: Seq<u128>,
)
    requires
        forall|id: u128| #[trigger]
            s.expire(now).sent_requests.contains_key(id) ==> !s.expire(now).sent_requests[id].timed_out(now),
    ensures
        s.handle_timeout_with(now, due, retransmit_ids, refresh_id, channel_ids) == s.expire(now).refresh_if_due(
            now,
            refresh_id,
        ).refresh_channels(now, channel_ids),
{
    lemma_nothing_due_nothing_resent(s.expire(now), due, now, retransmit_ids, due.len());
}

// ---------------------------------------------------------------------
// Channel data
// ---------------------------------------------------------------------
/// What is framed for a confirmed channel comes out again: the table reads
/// the frame of `payload` on the channel `n` as that payload from the peer
/// of `n`, for every payload that fits a frame.
pub proof fn lemma_try_decode_inverts_encode(table: ChannelBindingsView, n: u16, payload: Seq<u8>, now: Instant)
    requires
        payload.len() <= channel_data::MAX_PAYLOAD_LEN,
        table.channels.contains_key(n),
        table.channels[n].bound,
    ensures
        table.try_decode(channel_data::spec_encode(n, payload), now).1 == Some((table.channels[n].peer, payload)),
{
    channel_data::lemma_decode_inverts_encode(n, payload);
}

/// What an allocation frames for a peer, it reads back as data from that
/// peer: the datagram that `encode_to_owned_transmit` makes for `peer` is
/// taken by `decapsulate`, when it comes from the relay, as `payload` from
/// `peer`, on our relayed address of the peer's family.
pub proof fn lemma_decapsulate_inverts_encode(
    s: AllocationView,
    from: SocketAddr,
    peer: SocketAddr,
    payload: Seq<u8>,
    socket: Socket,
    now: Instant,
    later: Instant,
)
    requires
        payload.len() <= channel_data::MAX_PAYLOAD_LEN,
        s.server.spec_matches(from),
        s.encode_to_transmit(peer, payload, now) is Some,
        socket == (match peer {
            SocketAddr::V4(_) => s.ip4_socket(),
            SocketAddr::V6(_) => s.ip6_socket(),
        }).unwrap(),
        (match peer {
            SocketAddr::V4(_) => s.ip4_socket(),
            SocketAddr::V6(_) => s.ip6_socket(),
        }) is Some,
    ensures
        s.decapsulate(from, s.encode_to_transmit(peer, payload, now).unwrap().payload, later).1 == Some(
            (peer, payload, socket),
        ),
{
    let n = s.channel_bindings.connected_channel_to_peer(peer, now).unwrap();
    lemma_connected_channel_is_confirmed_and_young(s.channel_bindings, peer, now, n);
    lemma_try_decode_inverts_encode(s.channel_bindings, n, payload, later);
}

// ---------------------------------------------------------------------
// Binding a channel twice
// ---------------------------------------------------------------------
/// Asking twice is asking once: where `bind_channel` has sent a request for
/// a peer, or has put the peer in the queue, a second `bind_channel` for the
/// same peer sends nothing and queues nothing, as long as no answer has
/// come in between.
pub proof fn lemma_bind_channel_is_idempotent(
    s: AllocationView,
    peer: SocketAddr,
    now: Instant,
    later: Instant,
    id: u128,
    other_id: u128,
)
    requires
        s.bind_channel(peer, now, id).buffered_transmits != s.buffered_transmits || s.bind_channel(
            peer,
            now,
            id,
        ).buffered_channel_bindings != s.buffered_channel_bindings,
    ensures
        s.bind_channel(peer, now, id).bind_channel(peer, later, other_id).buffered_transmits == s.bind_channel(
            peer,
            now,
            id,
        ).buffered_transmits,
        s.bind_channel(peer, now, id).bind_channel(peer, later, other_id).buffered_channel_bindings
            == s.bind_channel(peer, now, id).buffered_channel_bindings,
        s.bind_channel(peer, now, id).bind_channel(peer, later, other_id).sent_requests == s.bind_channel(
            peer,
            now,
            id,
        ).sent_requests,
{
    let once = s.bind_channel(peer, now, id);
    let s1 = s.update_now(now);
    if once.buffered_transmits != s.buffered_transmits {
        // A request went out, and waits under `id`.
        let (table, number) = s1.channel_bindings.new_channel_to_peer(peer, now);
        let channel = number.unwrap();
        assert(once.sent_requests.contains_key(id));
        assert(once.sent_requests[id].request.kind == (RequestKind::ChannelBind { peer, channel }));
        let again = once.update_now(later);
        assert(again.sent_requests.contains_key(id));
        assert(again.channel_binding_in_flight_by_peer(peer));
        assert(!once.sent_requests.is_empty()) by {
            assert(once.sent_requests.dom().contains(id));
        }
    } else {
        // The peer was put in the queue.
        let last = once.buffered_channel_bindings.len() - 1;
        assert(once.buffered_channel_bindings[last] == peer);
        assert(once.buffered_channel_bindings.contains(peer));
        let again = once.update_now(later);
        assert(again.channel_binding_in_flight_by_peer(peer));
    }
}

/// Whether `transmit` carries, to the active socket of `s`, the signed
/// request to bind some channel to `peer` under the id `id`.
pub open spec fn is_channel_bind_for(s: AllocationView, peer: SocketAddr, id: u128, transmit: TransmitView) -> bool {
    exists|channel: u16|
        s.active_socket == Some(transmit.dst) && transmit.src is None && #[trigger] spec_encode(
            Request { kind: RequestKind::ChannelBind { peer, channel }, transaction_id: id, credentials: s.credentials },
            s.software,
        ) == Some(transmit.payload)
}

/// Asking twice sends once: two calls of `bind_channel` for one peer, with
/// no answer in between, queue at most one datagram between them; and where
/// the first call queued one, the two calls together have queued exactly
/// that one, which is the request to bind a channel to the peer.
pub proof fn lemma_bind_channel_twice_sends_once(
    s: AllocationView,
    peer: SocketAddr,
    now: Instant,
    later: Instant,
    id: u128,
    other_id: u128,
)
    ensures
        s.bind_channel(peer, now, id).bind_channel(peer, later, other_id).buffered_transmits.len()
            <= s.buffered_transmits.len() + 1,
        s.bind_channel(peer, now, id).buffered_transmits != s.buffered_transmits ==> {
            let twice = s.bind_channel(peer, now, id).bind_channel(peer, later, other_id);
            &&& twice.buffered_transmits.len() == s.buffered_transmits.len() + 1
            &&& twice.buffered_transmits.drop_last() == s.buffered_transmits
            &&& is_channel_bind_for(s, peer, id, twice.buffered_transmits.last())
        },
{
    let once = s.bind_channel(peer, now, id);
    if once.buffered_transmits != s.buffered_transmits {
        lemma_bind_channel_is_idempotent(s, peer, now, later, id, other_id);
        let s1 = s.update_now(now);
        let (table, number) = s1.channel_bindings.new_channel_to_peer(peer, now);
        let channel = number.unwrap();
        let request = Request {
            kind: RequestKind::ChannelBind { peer, channel },
            transaction_id: id,
            credentials: s.credentials,
        };
        assert(spec_encode(request, s.software) == Some(once.buffered_transmits.last().payload));
        assert(once.buffered_transmits.drop_last() =~= s.buffered_transmits);
    } else {
        assert(once.bind_channel(peer, later, other_id).buffered_transmits.len() <= once.buffered_transmits.len()
            + 1);
    }
}

// ---------------------------------------------------------------------
// Requests in flight
// ---------------------------------------------------------------------
/// Whether a binding request waits for its answer under `id` among `sent`.
pub open spec fn is_binding_in_flight(sent: Map<u128, SentRequest>, id: u128) -> bool {
    sent.contains_key(id) && sent[id].request.kind is Binding
}

/// Whether the requests `sent` are in order, with `active` the active
/// socket.
pub open spec fn sent_in_order(sent: Map<u128, SentRequest>, active: Option<SocketAddr>) -> bool {
    &&& forall|id: u128| #[trigger] sent.contains_key(id) ==> sent[id].request.transaction_id == id
    &&& forall|id: u128| #[trigger]
        sent.contains_key(id) && !(sent[id].request.kind is Binding) ==> active == Some(sent[id].dst)
    &&& forall|a: u128, b: u128|
        a != b && #[trigger] is_binding_in_flight(sent, a) && #[trigger] is_binding_in_flight(sent, b)
            ==> active is None && sent[a].dst.spec_is_ipv4() != sent[b].dst.spec_is_ipv4()
}

/// Whether the requests that wait for an answer are in order:
///
/// - each waits under its own transaction id;
/// - each but a binding request was sent to the active socket;
/// - two binding requests wait at the same time only while no socket is
///   active, and then they were sent to addresses of different families.
pub open spec fn requests_in_order(s: AllocationView) -> bool {
    sent_in_order(s.sent_requests, s.active_socket)
}

proof fn lemma_order_insert(sent: Map<u128, SentRequest>, active: Option<SocketAddr>, entry: SentRequest)
    requires
        sent_in_order(sent, active),
        !(entry.request.kind is Binding) ==> active == Some(entry.dst),
        entry.request.kind is Binding ==> forall|b: u128|
            b != entry.request.transaction_id && #[trigger] is_binding_in_flight(sent, b) ==> active is None
                && sent[b].dst.spec_is_ipv4() != entry.dst.spec_is_ipv4(),
    ensures
        sent_in_order(sent.insert(entry.request.transaction_id, entry), active),
{
    let id = entry.request.transaction_id;
    let post = sent.insert(id, entry);
    assert forall|a: u128, b: u128|
        a != b && #[trigger] is_binding_in_flight(post, a) && #[trigger] is_binding_in_flight(
            post,
            b,
        ) implies active is None && post[a].dst.spec_is_ipv4() != post[b].dst.spec_is_ipv4() by {
        if a != id {
            assert(is_binding_in_flight(sent, a));
        }
        if b != id {
            assert(is_binding_in_flight(sent, b));
        }
    }
}

proof fn lemma_order_remove(sent: Map<u128, SentRequest>, active: Option<SocketAddr>, id: u128)
    requires
        sent_in_order(sent, active),
    ensures
        sent_in_order(sent.remove(id), active),
        forall|b: u128| #[trigger] is_binding_in_flight(sent.remove(id), b) ==> b != id && is_binding_in_flight(sent, b),
{
    let post = sent.remove(id);
    assert forall|a: u128, b: u128|
        a != b && #[trigger] is_binding_in_flight(post, a) && #[trigger] is_binding_in_flight(
            post,
            b,
        ) implies active is None && post[a].dst.spec_is_ipv4() != post[b].dst.spec_is_ipv4() by {
        assert(is_binding_in_flight(sent, a));
        assert(is_binding_in_flight(sent, b));
    }
}

proof fn lemma_order_queue_binding(s: AllocationView, dst: SocketAddr, request: Request, backoff: Option<ExponentialBackoff>)
    requires
        requests_in_order(s),
        request.kind is Binding,
        forall|b: u128|
            b != request.transaction_id && #[trigger] is_binding_in_flight(s.sent_requests, b) ==> s.active_socket is None
                && s.sent_requests[b].dst.spec_is_ipv4() != dst.spec_is_ipv4(),
    ensures
        requests_in_order(s.queue(dst, request, backoff).0),
{
    let next = s.backoff_for(backoff);
    if let Some(duration) = next.spec_next() {
        lemma_order_insert(
            s.sent_requests,
            s.active_socket,
            SentRequest {
                dst,
                request,
                sent_at: s.last_now,
                backoff_duration: duration,
                backoff: next.spec_after_next(),
            },
        );
    }
}

proof fn lemma_order_authenticate_and_queue(
    s: AllocationView,
    kind: RequestKind,
    backoff: Option<ExponentialBackoff>,
    id: u128,
)
    requires
        requests_in_order(s),
        kind is Binding ==> forall|b: u128| b != id ==> !#[trigger] is_binding_in_flight(s.sent_requests, b),
    ensures
        requests_in_order(s.authenticate_and_queue(kind, backoff, id).0),
{
    let next = s.backoff_for(backoff);
    if let (Some(dst), Some(credentials), Some(duration)) = (s.active_socket, s.credentials, next.spec_next()) {
        lemma_order_insert(
            s.sent_requests,
            s.active_socket,
            SentRequest {
                dst,
                request: Request { kind, transaction_id: id, credentials: Some(credentials) },
                sent_at: s.last_now,
                backoff_duration: duration,
                backoff: next.spec_after_next(),
            },
        );
    }
}

proof fn lemma_order_send_binding_requests(s: AllocationView, id_v4: u128, id_v6: u128)
    requires
        s.sent_requests.is_empty(),
        s.active_socket is None,
    ensures
        requests_in_order(s.send_binding_requests(id_v4, id_v6)),
{
    assert forall|id: u128| !s.sent_requests.contains_key(id) by {
        assert(!s.sent_requests.dom().contains(id));
    }
    let r4 = Request { kind: RequestKind::Binding, transaction_id: id_v4, credentials: None };
    let r6 = Request { kind: RequestKind::Binding, transaction_id: id_v6, credentials: None };
    let after_v4 = match s.server.spec_as_v4() {
        Some(v4) => s.queue(SocketAddr::V4(v4), r4, None).0,
        None => s,
    };
    if let Some(v4) = s.server.spec_as_v4() {
        lemma_order_queue_binding(s, SocketAddr::V4(v4), r4, None);
    }
    if let Some(v6) = s.server.spec_as_v6() {
        assert forall|b: u128|
            b != id_v6 && #[trigger] is_binding_in_flight(after_v4.sent_requests, b) implies after_v4.active_socket is None
            && after_v4.sent_requests[b].dst.spec_is_ipv4() != SocketAddr::V6(v6).spec_is_ipv4() by {
            assert(b == id_v4);
        }
        lemma_order_queue_binding(after_v4, SocketAddr::V6(v6), r6, None);
    }
}

proof fn lemma_order_bind_channel(s: AllocationView, peer: SocketAddr, now: Instant, id: u128)
    requires
        requests_in_order(s),
    ensures
        requests_in_order(s.bind_channel(peer, now, id)),
{
    if !s.is_suspended() {
        let s1 = s.update_now(now);
        let (table, number) = s1.channel_bindings.new_channel_to_peer(peer, now);
        if let Some(channel) = number {
            let s2 = AllocationView { channel_bindings: table, ..s1 };
            lemma_order_authenticate_and_queue(s2, RequestKind::ChannelBind { peer, channel }, None, id);
        }
    }
}

proof fn lemma_order_flush(s: AllocationView, now: Instant, ids: Seq<u128>, count: nat)
    requires
        requests_in_order(s),
    ensures
        requests_in_order(s.flush_steps(now, ids, count)),
    decreases count,
{
    if count > 0 {
        lemma_order_flush(s, now, ids, (count - 1) as nat);
        let p = s.flush_steps(now, ids, (count - 1) as nat);
        if p.buffered_channel_bindings.len() > 0 {
            let q = AllocationView { buffered_channel_bindings: p.buffered_channel_bindings.drop_first(), ..p };
            lemma_order_bind_channel(q, p.buffered_channel_bindings[0], now, ids[count - 1]);
        }
    }
}

proof fn lemma_order_refresh_channels(s: AllocationView, channels: Seq<(u16, SocketAddr)>, ids: Seq<u128>, count: nat)
    requires
        requests_in_order(s),
    ensures
        requests_in_order(s.refresh_channel_steps(channels, ids, count)),
    decreases count,
{
    if count > 0 {
        lemma_order_refresh_channels(s, channels, ids, (count - 1) as nat);
        lemma_order_authenticate_and_queue(
            s.refresh_channel_steps(channels, ids, (count - 1) as nat),
            RequestKind::ChannelBind { peer: channels[count - 1].1, channel: channels[count - 1].0 },
            None,
            ids[count - 1],
        );
    }
}

proof fn lemma_order_retransmit(s: AllocationView, id: u128, now: Instant, next_id: u128)
    requires
        requests_in_order(s),
    ensures
        requests_in_order(s.retransmit(id, now, next_id)),
{
    if s.sent_requests.contains_key(id) && s.sent_requests[id].timed_out(now) {
        let sent = s.sent_requests[id];
        let s1 = AllocationView { sent_requests: s.sent_requests.remove(id), ..s };
        lemma_order_remove(s.sent_requests, s.active_socket, id);
        if sent.request.kind.spec_method() != BINDING {
            lemma_order_authenticate_and_queue(s1, sent.request.kind, Some(sent.backoff), next_id);
        } else {
            assert(is_binding_in_flight(s.sent_requests, id));
            lemma_order_queue_binding(s1, sent.dst, sent.request, Some(sent.backoff));
        }
    }
}

proof fn lemma_order_retransmit_steps(s: AllocationView, due: Seq<u128>, now: Instant, ids: Seq<u128>, count: nat)
    requires
        requests_in_order(s),
    ensures
        requests_in_order(s.retransmit_steps(due, now, ids, count)),
    decreases count,
{
    if count > 0 {
        lemma_order_retransmit_steps(s, due, now, ids, (count - 1) as nat);
        lemma_order_retransmit(s.retransmit_steps(due, now, ids, (count - 1) as nat), due[count - 1], now, ids[count - 1]);
    }
}

proof fn lemma_order_handle_error(s: AllocationView, request: Request, message: DecodedMessage, code: u16, id: u128)
    requires
        requests_in_order(s),
        request.kind is Binding && s.active_socket is Some ==> forall|b: u128|
            !#[trigger] is_binding_in_flight(s.sent_requests, b),
    ensures
        requests_in_order(s.handle_error(request, message, code, id)),
{
    if code == UNAUTHORIZED && request.spec_carries_nonce() {
    } else if code == UNAUTHORIZED || code == STALE_NONCE {
        if let Some(credentials) = s.credentials {
            let credentials = match message.nonce {
                Some(nonce) => Credentials { nonce: Some(nonce), ..credentials },
                None => credentials,
            };
            let s1 = AllocationView { credentials: Some(credentials), ..s };
            if s.active_socket is Some {
                lemma_order_authenticate_and_queue(s1, request.kind, None, id);
            }
        }
    } else if code == ALLOCATION_MISMATCH {
        let s1 = s.invalidate_allocation();
        lemma_order_authenticate_and_queue(s1, RequestKind::DeleteAllocation, None, id);
        lemma_order_authenticate_and_queue(s1, RequestKind::Allocate, None, id);
    }
}

proof fn lemma_order_handle_success(
    s: AllocationView,
    answered: u128,
    local: SocketAddr,
    message: DecodedMessage,
    now: Instant,
    id: u128,
    flush_ids: Seq<u128>,
)
    requires
        requests_in_order(s),
        s.sent_requests.contains_key(answered),
    ensures
        requests_in_order(
            (AllocationView { sent_requests: s.sent_requests.remove(answered), ..s }).handle_success(
                s.sent_requests[answered].dst,
                s.sent_requests[answered].request,
                local,
                message,
                now,
                id,
                flush_ids,
            ),
        ),
{
    let sent = s.sent_requests[answered];
    let s1 = AllocationView { sent_requests: s.sent_requests.remove(answered), ..s };
    lemma_order_remove(s.sent_requests, s.active_socket, answered);
    if message.method == BINDING {
        if s.active_socket is None {
            // Without an active socket only binding requests wait, and of
            // those no two to one family: with the answered one gone, at
            // most one is left.
            assert(is_binding_in_flight(s.sent_requests, answered));
            assert(sent_in_order(s1.sent_requests, Some(sent.dst))) by {
                assert forall|a: u128| #[trigger] s1.sent_requests.contains_key(a) implies s1.sent_requests[a].request.kind is Binding by {
                    assert(s.sent_requests.contains_key(a));
                }
                assert forall|a: u128, b: u128|
                    a != b && #[trigger] is_binding_in_flight(s1.sent_requests, a) && #[trigger] is_binding_in_flight(
                        s1.sent_requests,
                        b,
                    ) implies false by {
                    assert(is_binding_in_flight(s.sent_requests, a));
                    assert(is_binding_in_flight(s.sent_requests, b));
                }
            }
            let candidate = first_server_reflexive(message.mapped_addresses@, local);
            let s2 = match sent.dst {
                SocketAddr::V4(_) => {
                    let (current, events) = update_candidate(candidate, s1.ip4_srflx_candidate, s1.events);
                    AllocationView { ip4_srflx_candidate: current, events, ..s1 }
                },
                SocketAddr::V6(_) => {
                    let (current, events) = update_candidate(candidate, s1.ip6_srflx_candidate, s1.events);
                    AllocationView { ip6_srflx_candidate: current, events, ..s1 }
                },
            };
            let s3 = AllocationView { active_socket: Some(sent.dst), ..s2 };
            lemma_order_authenticate_and_queue(s3, RequestKind::Refresh, None, id);
            lemma_order_authenticate_and_queue(s3, RequestKind::Allocate, None, id);
        }
    } else if message.method == ALLOCATE {
        if let Some(lifetime) = message.lifetime {
            let ip4 = first_relayed(message.relay_addresses@, true);
            let ip6 = first_relayed(message.relay_addresses@, false);
            if !(ip4 is None && ip6 is None) {
                let (ip4_allocation, events) = update_candidate(ip4, s1.ip4_allocation, s1.events);
                let (ip6_allocation, events) = update_candidate(ip6, s1.ip6_allocation, events);
                let s2 = AllocationView {
                    allocation_lifetime: Some((now, lifetime)),
                    ip4_allocation,
                    ip6_allocation,
                    events,
                    ..s1
                };
                lemma_order_flush(s2, now, flush_ids, s2.buffered_channel_bindings.len());
            }
        }
    } else if message.method == REFRESH {
        lemma_order_authenticate_and_queue(s1, RequestKind::Allocate, None, id);
    }
}

proof fn lemma_order_handle_message(
    s: AllocationView,
    local: SocketAddr,
    message: DecodedMessage,
    now: Instant,
    id: u128,
    flush_ids: Seq<u128>,
)
    requires
        requests_in_order(s),
    ensures
        requests_in_order(s.handle_message(local, message, now, id, flush_ids).0),
{
    let answered = message.transaction_id;
    if s.sent_requests.contains_key(answered) {
        let sent = s.sent_requests[answered];
        let s1 = AllocationView { sent_requests: s.sent_requests.remove(answered), ..s };
        lemma_order_remove(s.sent_requests, s.active_socket, answered);
        match message.error_code {
            Some(code) => {
                // While a socket is active at most one binding request
                // waits, so where that one was answered none is left.
                if sent.request.kind is Binding && s.active_socket is Some {
                    assert forall|b: u128| !#[trigger] is_binding_in_flight(s1.sent_requests, b) by {
                        if is_binding_in_flight(s1.sent_requests, b) {
                            assert(is_binding_in_flight(s.sent_requests, answered));
                        }
                    }
                }
                lemma_order_handle_error(s1, sent.request, message, code, id);
            },
            None => if message.class == MessageClass::SuccessResponse {
                lemma_order_handle_success(s, answered, local, message, now, id, flush_ids);
            },
        }
    }
}

proof fn lemma_order_handle_timeout(
    s: AllocationView,
    now: Instant,
    due: Seq<u128>,
    retransmit_ids: Seq<u128>,
    refresh_id: u128,
    channel_ids: Seq<u128>,
)
    requires
        requests_in_order(s),
    ensures
        requests_in_order(s.handle_timeout_with(now, due, retransmit_ids, refresh_id, channel_ids)),
{
    let s1 = s.expire(now);
    lemma_order_retransmit_steps(s1, due, now, retransmit_ids, due.len());
    let s2 = s1.retransmit_steps(due, now, retransmit_ids, due.len());
    lemma_order_authenticate_and_queue(s2, RequestKind::Refresh, None, refresh_id);
    let s3 = s2.refresh_if_due(now, refresh_id);
    let channels = s3.channel_bindings.channels_to_refresh(now, s3.channels_in_flight());
    lemma_order_refresh_channels(s3, channels, channel_ids, channels.len());
}

/// A new allocation has its requests in order.
pub proof fn lemma_new_allocation_has_requests_in_order(
    server: RelaySocket,
    credentials: Credentials,
    software: Seq<char>,
    now: Instant,
    id_v4: u128,
    id_v6: u128,
)
    ensures
        requests_in_order(AllocationView::new(server, credentials, software, now, id_v4, id_v6)),
{
    let s = AllocationView::initial(server, credentials, software, now);
    assert(s.sent_requests.is_empty()) by {
        assert(s.sent_requests.dom() =~= Set::<u128>::empty());
    }
    lemma_order_send_binding_requests(s, id_v4, id_v6);
}

/// The requests in flight stay in order through every step: whatever the
/// allocation is fed, each request waits under its own id, each but a
/// binding request was sent to the active socket, and binding requests wait
/// side by side only before a socket is active, one for each family at most.
pub proof fn lemma_requests_stay_in_order(
    s: AllocationView,
    from: SocketAddr,
    local: SocketAddr,
    peer: SocketAddr,
    packet: Seq<u8>,
    message: DecodedMessage,
    now: Instant,
    id: u128,
    other_id: u128,
    ids: Seq<u128>,
    due: Seq<u128>,
    more_ids: Seq<u128>,
    post: AllocationView,
    handled: bool,
)
    requires
        requests_in_order(s),
    ensures
        requests_in_order(s.refresh(now, id, other_id)),
        requests_in_order(s.bind_channel(peer, now, id)),
        requests_in_order(s.handle_message(local, message, now, id, ids).0),
        s.handle_input(from, local, packet, now, post, handled) ==> requests_in_order(post),
        requests_in_order(s.handle_timeout_with(now, due, ids, id, more_ids)),
        s.handle_timeout(now, post) ==> requests_in_order(post),
        requests_in_order(s.decapsulate(from, packet, now).0),
        requests_in_order(s.retransmit(id, now, other_id)),
{
    lemma_order_bind_channel(s, peer, now, id);
    lemma_order_handle_message(s, local, message, now, id, ids);
    lemma_order_handle_timeout(s, now, due, ids, id, more_ids);
    lemma_order_retransmit(s, id, now, other_id);
    assert(requests_in_order(s.refresh(now, id, other_id))) by {
        let s1 = s.update_now(now);
        if !s1.has_allocation() && s1.in_flight(ALLOCATE) {
        } else if s1.is_suspended() {
            lemma_order_send_binding_requests(AllocationView { active_socket: None, ..s1 }, id, other_id);
        } else {
            lemma_order_authenticate_and_queue(s1, RequestKind::Refresh, None, id);
        }
    }
    if s.handle_input(from, local, packet, now, post, handled) {
        let s1 = s.update_now(now);
        if !s1.server.spec_matches(from) || spec_decode(packet) is None {
        } else {
            let (m, i, f) = choose|m: DecodedMessage, i: u128, f: Seq<u128>|
                spec_decode(packet) == Some(m@) && (post, handled) == #[trigger] s1.handle_message(
                    local,
                    m,
                    now,
                    i,
                    f,
                );
            lemma_order_handle_message(s1, local, m, now, i, f);
        }
    }
    if s.handle_timeout(now, post) {
        let (d, r, i, c) = choose|d: Seq<u128>, r: Seq<u128>, i: u128, c: Seq<u128>|
            s.draws_at_timeout(now, d, r, i, c) && post == #[trigger] s.handle_timeout_with(now, d, r, i, c);
        lemma_order_handle_timeout(s, now, d, r, i, c);
    }
}

// ---------------------------------------------------------------------
// A request that is not due
// ---------------------------------------------------------------------
/// Whether `transmit` carries a request under another id than `id`, from an
/// allocation that names itself `software`.
pub open spec fn carries_another(software: Seq<char>, transmit: TransmitView, id: u128) -> bool {
    exists|request: Request|
        request.transaction_id != id && #[trigger] spec_encode(request, software) == Some(transmit.payload)
}

/// Whether, from `pre` to `post`, nothing was queued to be sent under the
/// id `id`: every datagram that `post` holds beyond those of `pre` carries
/// a request under another id.
pub open spec fn queues_nothing_under(pre: AllocationView, post: AllocationView, id: u128) -> bool {
    &&& post.software == pre.software
    &&& pre.buffered_transmits.len() <= post.buffered_transmits.len()
    &&& forall|i: int|
        0 <= i < pre.buffered_transmits.len() ==> #[trigger] post.buffered_transmits[i] == pre.buffered_transmits[i]
    &&& forall|i: int|
        pre.buffered_transmits.len() <= i < post.buffered_transmits.len() ==> carries_another(
            post.software,
            #[trigger] post.buffered_transmits[i],
            id,
        )
}

/// Whether the request `entry` still waits in `s` under `id` as it was, or
/// has gone with an allocation that was given up.
pub open spec fn waits_or_went_with_allocation(entry: SentRequest, s: AllocationView, id: u128) -> bool {
    ||| s.sent_requests.contains_key(id) && s.sent_requests[id] == entry
    ||| !s.sent_requests.contains_key(id) && s.allocation_lifetime is None && !s.has_allocation()
}

proof fn lemma_quiet_is_transitive(a: AllocationView, b: AllocationView, c: AllocationView, id: u128)
    requires
        queues_nothing_under(a, b, id),
        queues_nothing_under(b, c, id),
    ensures
        queues_nothing_under(a, c, id),
{
    assert forall|i: int| 0 <= i < a.buffered_transmits.len() implies #[trigger] c.buffered_transmits[i]
        == a.buffered_transmits[i] by {
        assert(b.buffered_transmits[i] == a.buffered_transmits[i]);
    }
    assert forall|i: int| a.buffered_transmits.len() <= i < c.buffered_transmits.len() implies carries_another(
        c.software,
        #[trigger] c.buffered_transmits[i],
        id,
    ) by {
        if i < b.buffered_transmits.len() {
            assert(c.buffered_transmits[i] == b.buffered_transmits[i]);
            assert(carries_another(b.software, b.buffered_transmits[i], id));
        }
    }
}

proof fn lemma_quiet_queue(
    s: AllocationView,
    entry: SentRequest,
    id: u128,
    dst: SocketAddr,
    request: Request,
    backoff: Option<ExponentialBackoff>,
)
    requires
        waits_or_went_with_allocation(entry, s, id),
        request.transaction_id != id,
    ensures
        waits_or_went_with_allocation(entry, s.queue(dst, request, backoff).0, id),
        queues_nothing_under(s, s.queue(dst, request, backoff).0, id),
{
    let post = s.queue(dst, request, backoff).0;
    if post != s {
        let last = s.buffered_transmits.len() as int;
        assert(spec_encode(request, s.software) == Some(post.buffered_transmits[last].payload));
        assert(carries_another(post.software, post.buffered_transmits[last], id));
    }
}

proof fn lemma_quiet_authenticate_and_queue(
    s: AllocationView,
    entry: SentRequest,
    id: u128,
    kind: RequestKind,
    backoff: Option<ExponentialBackoff>,
    new_id: u128,
)
    requires
        waits_or_went_with_allocation(entry, s, id),
        new_id != id,
    ensures
        waits_or_went_with_allocation(entry, s.authenticate_and_queue(kind, backoff, new_id).0, id),
        queues_nothing_under(s, s.authenticate_and_queue(kind, backoff, new_id).0, id),
{
    if let (Some(dst), Some(credentials)) = (s.active_socket, s.credentials) {
        lemma_quiet_queue(
            s,
            entry,
            id,
            dst,
            Request { kind, transaction_id: new_id, credentials: Some(credentials) },
            backoff,
        );
    }
}

proof fn lemma_quiet_retransmit(s: AllocationView, entry: SentRequest, id: u128, other: u128, now: Instant, next_id: u128)
    requires
        requests_in_order(s),
        waits_or_went_with_allocation(entry, s, id),
        !entry.timed_out(now),
        next_id != id,
    ensures
        waits_or_went_with_allocation(entry, s.retransmit(other, now, next_id), id),
        queues_nothing_under(s, s.retransmit(other, now, next_id), id),
{
    if s.sent_requests.contains_key(other) && s.sent_requests[other].timed_out(now) {
        let sent = s.sent_requests[other];
        let s1 = AllocationView { sent_requests: s.sent_requests.remove(other), ..s };
        assert(other != id);
        assert(waits_or_went_with_allocation(entry, s1, id));
        if sent.request.kind.spec_method() != BINDING {
            lemma_quiet_authenticate_and_queue(s1, entry, id, sent.request.kind, Some(sent.backoff), next_id);
        } else {
            lemma_quiet_queue(s1, entry, id, sent.dst, sent.request, Some(sent.backoff));
        }
    }
}

proof fn lemma_quiet_retransmit_steps(
    s: AllocationView,
    entry: SentRequest,
    id: u128,
    due: Seq<u128>,
    now: Instant,
    ids: Seq<u128>,
    count: nat,
)
    requires
        requests_in_order(s),
        waits_or_went_with_allocation(entry, s, id),
        !entry.timed_out(now),
        none_is(ids, id),
        count <= ids.len(),
    ensures
        waits_or_went_with_allocation(entry, s.retransmit_steps(due, now, ids, count), id),
        queues_nothing_under(s, s.retransmit_steps(due, now, ids, count), id),
    decreases count,
{
    if count > 0 {
        lemma_quiet_retransmit_steps(s, entry, id, due, now, ids, (count - 1) as nat);
        let p = s.retransmit_steps(due, now, ids, (count - 1) as nat);
        lemma_order_retransmit_steps(s, due, now, ids, (count - 1) as nat);
        assert(ids[count - 1] != id);
        lemma_quiet_retransmit(p, entry, id, due[count - 1], now, ids[count - 1]);
        lemma_quiet_is_transitive(s, p, s.retransmit_steps(due, now, ids, count), id);
    }
}

proof fn lemma_quiet_refresh_channels(
    s: AllocationView,
    entry: SentRequest,
    id: u128,
    channels: Seq<(u16, SocketAddr)>,
    ids: Seq<u128>,
    count: nat,
)
    requires
        waits_or_went_with_allocation(entry, s, id),
        none_is(ids, id),
        count <= ids.len(),
    ensures
        waits_or_went_with_allocation(entry, s.refresh_channel_steps(channels, ids, count), id),
        queues_nothing_under(s, s.refresh_channel_steps(channels, ids, count), id),
    decreases count,
{
    if count > 0 {
        lemma_quiet_refresh_channels(s, entry, id, channels, ids, (count - 1) as nat);
        let p = s.refresh_channel_steps(channels, ids, (count - 1) as nat);
        assert(ids[count - 1] != id);
        lemma_quiet_authenticate_and_queue(
            p,
            entry,
            id,
            RequestKind::ChannelBind { peer: channels[count - 1].1, channel: channels[count - 1].0 },
            None,
            ids[count - 1],
        );
        lemma_quiet_is_transitive(s, p, s.refresh_channel_steps(channels, ids, count), id);
    }
}

/// A request that is not due is not sent again, whatever else is: when
/// the step `handle_timeout` finds a request waiting under `id` whose wait
/// is not over at `now`, then nothing that it queues to be sent goes out
/// under that id, and afterwards the request either waits as before, sent
/// at the same instant and with the same wait, or has gone with an
/// allocation that was given up.
pub proof fn lemma_timeout_step_leaves_alone_what_is_not_due(
    s: AllocationView,
    now: Instant,
    id: u128,
    due: Seq<u128>,
    retransmit_ids: Seq<u128>,
    refresh_id: u128,
    channel_ids: Seq<u128>,
)
    requires
        s.wf(),
        requests_in_order(s),
        s.sent_requests.contains_key(id),
        now.nanos < s.sent_requests[id].sent_at.nanos + s.sent_requests[id].backoff_duration.nanos,
        s.draws_at_timeout(now, due, retransmit_ids, refresh_id, channel_ids),
    ensures
        queues_nothing_under(s, s.handle_timeout_with(now, due, retransmit_ids, refresh_id, channel_ids), id),
        waits_or_went_with_allocation(
            s.sent_requests[id],
            s.handle_timeout_with(now, due, retransmit_ids, refresh_id, channel_ids),
            id,
        ),
{
    let entry = s.sent_requests[id];
    let s1 = s.expire(now);
    assert(waits_or_went_with_allocation(entry, s1, id));
    assert(queues_nothing_under(s, s1, id));
    assert(requests_in_order(s1));
    if s1.sent_requests.contains_key(id) {
        lemma_quiet_retransmit_steps(s1, entry, id, due, now, retransmit_ids, due.len());
        let s2 = s1.retransmit_steps(due, now, retransmit_ids, due.len());
        lemma_quiet_is_transitive(s, s1, s2, id);
        lemma_quiet_authenticate_and_queue(s2, entry, id, RequestKind::Refresh, None, refresh_id);
        let s3 = s2.refresh_if_due(now, refresh_id);
        lemma_quiet_is_transitive(s, s2, s3, id);
        let channels = s3.channel_bindings.channels_to_refresh(now, s3.channels_in_flight());
        assert(channels == s.channels_refreshed_at_timeout(now, due, retransmit_ids, refresh_id));
        lemma_quiet_refresh_channels(s3, entry, id, channels, channel_ids, channels.len());
        lemma_quiet_is_transitive(s, s3, s.handle_timeout_with(now, due, retransmit_ids, refresh_id, channel_ids), id);
    } else {
        // The allocation was over: it has just been given up, and with it
        // every request that waited.
        lemma_given_up_stays_quiet(s1, now, due, retransmit_ids, refresh_id, channel_ids);
        lemma_quiet_is_transitive(s, s1, s.handle_timeout_with(now, due, retransmit_ids, refresh_id, channel_ids), id);
    }
}

/// An allocation that has just been given up does nothing at a timeout: no
/// request waits, no refresh is due, and no channel is left.
proof fn lemma_given_up_stays_quiet(
    s1: AllocationView,
    now: Instant,
    due: Seq<u128>,
    retransmit_ids: Seq<u128>,
    refresh_id: u128,
    channel_ids: Seq<u128>,
)
    requires
        s1.sent_requests == Map::<u128, SentRequest>::empty(),
        s1.allocation_lifetime is None,
        s1.channel_bindings.channels == Map::<u16, crate::channel_bindings::Channel>::empty(),
    ensures
        s1.retransmit_steps(due, now, retransmit_ids, due.len()).refresh_if_due(now, refresh_id).refresh_channels(
            now,
            channel_ids,
        ) == s1,
{
    lemma_nothing_due_nothing_resent(s1, due, now, retransmit_ids, due.len());
    lemma_no_channels_nothing_to_refresh(s1.channel_bindings, now, s1.channels_in_flight(), LAST_CHANNEL + 1);
}

proof fn lemma_no_channels_nothing_to_refresh(table: ChannelBindingsView, now: Instant, in_flight: Set<u16>, upto: int)
    requires
        table.channels == Map::<u16, crate::channel_bindings::Channel>::empty(),
    ensures
        table.channels_to_refresh_below(now, in_flight, upto) == Seq::<(u16, SocketAddr)>::empty(),
    decreases upto,
{
    if upto > 0 {
        lemma_no_channels_nothing_to_refresh(table, now, in_flight, upto - 1);
    }
}

/// A request that is not due is not sent again by `handle_timeout`: of
/// whatever `handle_timeout` makes of an allocation, the same holds as of
/// the step.
pub proof fn lemma_timeout_leaves_alone_what_is_not_due(s: AllocationView, now: Instant, id: u128, post: AllocationView)
    requires
        s.wf(),
        requests_in_order(s),
        s.sent_requests.contains_key(id),
        now.nanos < s.sent_requests[id].sent_at.nanos + s.sent_requests[id].backoff_duration.nanos,
        s.handle_timeout(now, post),
    ensures
        queues_nothing_under(s, post, id),
        waits_or_went_with_allocation(s.sent_requests[id], post, id),
{
    let (d, r, i, c) = choose|d: Seq<u128>, r: Seq<u128>, i: u128, c: Seq<u128>|
        s.draws_at_timeout(now, d, r, i, c) && post == #[trigger] s.handle_timeout_with(now, d, r, i, c);
    lemma_timeout_step_leaves_alone_what_is_not_due(s, now, id, d, r, i, c);
}

// ---------------------------------------------------------------------
// Lost credentials
// ---------------------------------------------------------------------
/// Without credentials nothing is signed: an allocation that has none sends
/// no request that would have to be signed, and stays as it is.
pub proof fn lemma_no_credentials_no_signed_request(
    s: AllocationView,
    kind: RequestKind,
    backoff: Option<ExponentialBackoff>,
    id: u128,
)
    requires
        s.credentials is None,
    ensures
        s.authenticate_and_queue(kind, backoff, id) == (s, false),
{
}

/// Refused credentials are gone for good: when the relay answers
/// "unauthorized" to a request that carried a nonce, the allocation is
/// signed out afterwards, with no signed request left waiting.
pub proof fn lemma_refused_credentials_sign_out(s: AllocationView, request: Request, message: DecodedMessage, id: u128)
    requires
        request.spec_carries_nonce(),
    ensures
        s.handle_error(request, message, UNAUTHORIZED, id).signed_out(),
{
}

/// A relay of another realm is refused for good: when the answer to a
/// request asks for credentials and names a realm that is not ours, the
/// allocation is signed out afterwards, has no relayed address left, and
/// can be given up for want of credentials once its events are read and
/// its datagrams sent.
pub proof fn lemma_foreign_realm_signs_out(s: AllocationView, request: Request, message: DecodedMessage, code: u16, id: u128)
    requires
        code == UNAUTHORIZED || code == STALE_NONCE,
        s.credentials matches Some(credentials) && differs_from(message.realm, credentials.realm),
    ensures
        s.handle_error(request, message, code, id).signed_out(),
        !s.handle_error(request, message, code, id).has_allocation(),
        s.handle_error(request, message, code, id).sent_requests == Map::<u128, SentRequest>::empty(),
        s.active_socket is Some && s.explicit_failure is None ==> (AllocationView {
            events: Seq::empty(),
            buffered_transmits: Seq::empty(),
            ..s.handle_error(request, message, code, id)
        }).can_be_freed() == Some(FreeReason::AuthenticationError),
{
    let post = s.handle_error(request, message, code, id);
    assert(post.sent_requests.dom() =~= Set::<u128>::empty());
}

proof fn lemma_unsigned_is_transitive(a: AllocationView, b: AllocationView, c: AllocationView)
    requires
        sends_only_unsigned(a, b),
        sends_only_unsigned(b, c),
    ensures
        sends_only_unsigned(a, c),
{
    assert forall|i: int| 0 <= i < a.buffered_transmits.len() implies #[trigger] c.buffered_transmits[i]
        == a.buffered_transmits[i] by {
        assert(b.buffered_transmits[i] == a.buffered_transmits[i]);
    }
    assert forall|i: int| a.buffered_transmits.len() <= i < c.buffered_transmits.len() implies is_unsigned(
        c.software,
        #[trigger] c.buffered_transmits[i],
    ) by {
        if i < b.buffered_transmits.len() {
            assert(c.buffered_transmits[i] == b.buffered_transmits[i]);
            assert(is_unsigned(b.software, b.buffered_transmits[i]));
        }
    }
}

proof fn lemma_unsigned_queue(s: AllocationView, dst: SocketAddr, request: Request, backoff: Option<ExponentialBackoff>)
    requires
        s.signed_out(),
        request.credentials is None,
    ensures
        sends_only_unsigned(s, s.queue(dst, request, backoff).0),
{
    let post = s.queue(dst, request, backoff).0;
    if post != s {
        let last = s.buffered_transmits.len() as int;
        assert(spec_encode(request, s.software) == Some(post.buffered_transmits[last].payload));
        assert(is_unsigned(post.software, post.buffered_transmits[last]));
    }
}

proof fn lemma_unsigned_send_binding_requests(s: AllocationView, id_v4: u128, id_v6: u128)
    requires
        s.signed_out(),
    ensures
        sends_only_unsigned(s, s.send_binding_requests(id_v4, id_v6)),
{
    let r4 = Request { kind: RequestKind::Binding, transaction_id: id_v4, credentials: None };
    let r6 = Request { kind: RequestKind::Binding, transaction_id: id_v6, credentials: None };
    let after_v4 = match s.server.spec_as_v4() {
        Some(v4) => s.queue(SocketAddr::V4(v4), r4, None).0,
        None => s,
    };
    if let Some(v4) = s.server.spec_as_v4() {
        lemma_unsigned_queue(s, SocketAddr::V4(v4), r4, None);
    }
    if let Some(v6) = s.server.spec_as_v6() {
        lemma_unsigned_queue(after_v4, SocketAddr::V6(v6), r6, None);
    }
    lemma_unsigned_is_transitive(s, after_v4, s.send_binding_requests(id_v4, id_v6));
}

proof fn lemma_unsigned_bind_channel(s: AllocationView, peer: SocketAddr, now: Instant, id: u128)
    requires
        s.signed_out(),
    ensures
        sends_only_unsigned(s, s.bind_channel(peer, now, id)),
{
}

proof fn lemma_unsigned_flush(s: AllocationView, now: Instant, ids: Seq<u128>, count: nat)
    requires
        s.signed_out(),
    ensures
        sends_only_unsigned(s, s.flush_steps(now, ids, count)),
    decreases count,
{
    if count > 0 {
        lemma_unsigned_flush(s, now, ids, (count - 1) as nat);
        let p = s.flush_steps(now, ids, (count - 1) as nat);
        if p.buffered_channel_bindings.len() > 0 {
            let q = AllocationView { buffered_channel_bindings: p.buffered_channel_bindings.drop_first(), ..p };
            lemma_unsigned_bind_channel(q, p.buffered_channel_bindings[0], now, ids[count - 1]);
            lemma_unsigned_is_transitive(s, q, s.flush_steps(now, ids, count));
        }
    }
}

proof fn lemma_unsigned_retransmit(s: AllocationView, id: u128, now: Instant, next_id: u128)
    requires
        s.signed_out(),
    ensures
        sends_only_unsigned(s, s.retransmit(id, now, next_id)),
{
    if s.sent_requests.contains_key(id) && s.sent_requests[id].timed_out(now) {
        let sent = s.sent_requests[id];
        let s1 = AllocationView { sent_requests: s.sent_requests.remove(id), ..s };
        assert(s1.signed_out());
        if sent.request.kind.spec_method() == BINDING {
            lemma_unsigned_queue(s1, sent.dst, sent.request, Some(sent.backoff));
        }
    }
}

proof fn lemma_unsigned_retransmit_steps(s: AllocationView, due: Seq<u128>, now: Instant, ids: Seq<u128>, count: nat)
    requires
        s.signed_out(),
    ensures
        sends_only_unsigned(s, s.retransmit_steps(due, now, ids, count)),
    decreases count,
{
    if count > 0 {
        lemma_unsigned_retransmit_steps(s, due, now, ids, (count - 1) as nat);
        let p = s.retransmit_steps(due, now, ids, (count - 1) as nat);
        lemma_unsigned_retransmit(p, due[count - 1], now, ids[count - 1]);
        lemma_unsigned_is_transitive(s, p, s.retransmit_steps(due, now, ids, count));
    }
}

proof fn lemma_unsigned_refresh_channels(s: AllocationView, channels: Seq<(u16, SocketAddr)>, ids: Seq<u128>, count: nat)
    requires
        s.signed_out(),
    ensures
        s.refresh_channel_steps(channels, ids, count) == s,
    decreases count,
{
    if count > 0 {
        lemma_unsigned_refresh_channels(s, channels, ids, (count - 1) as nat);
    }
}

proof fn lemma_unsigned_handle_message(
    s: AllocationView,
    local: SocketAddr,
    message: DecodedMessage,
    now: Instant,
    id: u128,
    flush_ids: Seq<u128>,
)
    requires
        s.signed_out(),
    ensures
        sends_only_unsigned(s, s.handle_message(local, message, now, id, flush_ids).0),
{
    if s.sent_requests.contains_key(message.transaction_id) {
        let sent = s.sent_requests[message.transaction_id];
        let s1 = AllocationView { sent_requests: s.sent_requests.remove(message.transaction_id), ..s };
        assert(s1.signed_out());
        assert(!sent.request.spec_carries_nonce());
        if message.error_code is None && message.class == MessageClass::SuccessResponse
            && message.method == ALLOCATE {
            if let Some(lifetime) = message.lifetime {
                let ip4 = first_relayed(message.relay_addresses@, true);
                let ip6 = first_relayed(message.relay_addresses@, false);
                let (ip4_allocation, events) = update_candidate(
                    ip4,
                    s1.ip4_allocation,
                    s1.events,
                );
                let (ip6_allocation, events) = update_candidate(ip6, s1.ip6_allocation, events);
                let s2 = AllocationView {
                    allocation_lifetime: Some((now, lifetime)),
                    ip4_allocation,
                    ip6_allocation,
                    events,
                    ..s1
                };
                assert(s2.signed_out());
                lemma_unsigned_flush(s2, now, flush_ids, s2.buffered_channel_bindings.len());
            }
        }
    }
}

proof fn lemma_unsigned_handle_timeout(
    s: AllocationView,
    now: Instant,
    due: Seq<u128>,
    retransmit_ids: Seq<u128>,
    refresh_id: u128,
    channel_ids: Seq<u128>,
)
    requires
        s.signed_out(),
    ensures
        sends_only_unsigned(s, s.handle_timeout_with(now, due, retransmit_ids, refresh_id, channel_ids)),
{
    let s1 = s.expire(now);
    assert(sends_only_unsigned(s, s1));
    lemma_unsigned_retransmit_steps(s1, due, now, retransmit_ids, due.len());
    let s2 = s1.retransmit_steps(due, now, retransmit_ids, due.len());
    lemma_unsigned_is_transitive(s, s1, s2);
    let s3 = s2.refresh_if_due(now, refresh_id);
    assert(s3 == s2);
    let channels = s3.channel_bindings.channels_to_refresh(now, s3.channels_in_flight());
    lemma_unsigned_refresh_channels(s3, channels, channel_ids, channels.len());
}

/// No credentials, no signed request, ever after: an allocation that is
/// signed out stays signed out through every step, and whatever a step
/// queues to be sent is a request without credentials.
pub proof fn lemma_signed_out_is_final(
    s: AllocationView,
    from: SocketAddr,
    local: SocketAddr,
    peer: SocketAddr,
    packet: Seq<u8>,
    message: DecodedMessage,
    now: Instant,
    id: u128,
    other_id: u128,
    ids: Seq<u128>,
    due: Seq<u128>,
    more_ids: Seq<u128>,
    post: AllocationView,
    handled: bool,
)
    requires
        s.signed_out(),
    ensures
        sends_only_unsigned(s, s.refresh(now, id, other_id)),
        sends_only_unsigned(s, s.bind_channel(peer, now, id)),
        sends_only_unsigned(s, s.handle_message(local, message, now, id, ids).0),
        s.handle_input(from, local, packet, now, post, handled) ==> sends_only_unsigned(s, post),
        sends_only_unsigned(s, s.handle_timeout_with(now, due, ids, id, more_ids)),
        s.handle_timeout(now, post) ==> sends_only_unsigned(s, post),
        sends_only_unsigned(s, s.decapsulate(from, packet, now).0),
        sends_only_unsigned(s, s.retransmit(id, now, other_id)),
{
    lemma_unsigned_bind_channel(s, peer, now, id);
    lemma_unsigned_handle_message(s, local, message, now, id, ids);
    lemma_unsigned_handle_timeout(s, now, due, ids, id, more_ids);
    lemma_unsigned_retransmit(s, id, now, other_id);
    assert(sends_only_unsigned(s, s.refresh(now, id, other_id))) by {
        let s1 = s.update_now(now);
        assert(s1.signed_out());
        let s2 = AllocationView { active_socket: None, ..s1 };
        lemma_unsigned_send_binding_requests(s2, id, other_id);
    }
    if s.handle_input(from, local, packet, now, post, handled) {
        let s1 = s.update_now(now);
        assert(sends_only_unsigned(s, s1));
        if !s1.server.spec_matches(from) || spec_decode(packet) is None {
        } else {
            let (m, i, f) = choose|m: DecodedMessage, i: u128, f: Seq<u128>|
                spec_decode(packet) == Some(m@) && (post, handled) == #[trigger] s1.handle_message(
                    local,
                    m,
                    now,
                    i,
                    f,
                );
            lemma_unsigned_handle_message(s1, local, m, now, i, f);
            lemma_unsigned_is_transitive(s, s1, post);
        }
    }
    if s.handle_timeout(now, post) {
        let (d, r, i, c) = choose|d: Seq<u128>, r: Seq<u128>, i: u128, c: Seq<u128>|
            s.draws_at_timeout(now, d, r, i, c) && post == #[trigger] s.handle_timeout_with(now, d, r, i, c);
        lemma_unsigned_handle_timeout(s, now, d, r, i, c);
    }
}

} // verus!
