use bytecodec::{DecodeExt, EncodeExt};
use connlib::allocation::{Allocation, Event, FreeReason, RelaySocket};
use connlib::candidate::Candidate;
use connlib::channel_bindings::{FIRST_CHANNEL, LAST_CHANNEL};
use connlib::net::{IpAddr, SocketAddr, SocketAddrV4, SocketAddrV6};
use connlib::time::{Duration, Instant};
use stun_codec::rfc5389::attributes::{
    ErrorCode, MessageIntegrity, Nonce, Realm, Software, Username, XorMappedAddress,
};
use stun_codec::rfc5389::errors::{BadRequest, ServerError, StaleNonce, Unauthorized, UnknownAttribute};
use stun_codec::rfc5389::methods::BINDING;
use stun_codec::rfc5766::attributes::{
    ChannelNumber, Lifetime, RequestedTransport, XorPeerAddress, XorRelayAddress,
};
use stun_codec::rfc5766::errors::AllocationMismatch;
use stun_codec::rfc5766::methods::{ALLOCATE, CHANNEL_BIND, REFRESH};
use stun_codec::rfc8656::attributes::AdditionalAddressFamily;
use stun_codec::{
    Attribute, Message, MessageClass, MessageDecoder, MessageEncoder, Method, RawAttribute,
    TransactionId,
};

fn peer1() -> SocketAddr {
    SocketAddr::new(IpAddr::v4(127, 0, 0, 1), 10000)
}

fn peer2_ip4() -> SocketAddr {
    SocketAddr::new(IpAddr::v4(127, 0, 0, 1), 20000)
}

fn peer2_ip6() -> SocketAddr {
    SocketAddr::new(IpAddr::V6(1), 20000)
}

fn relay_v4() -> SocketAddrV4 {
    SocketAddrV4::new(0x7f00_0001, 3478)
}

fn relay_v6() -> SocketAddrV6 {
    SocketAddrV6::new(1, 3478, 0, 0)
}

fn relay_addr_ip4() -> SocketAddr {
    SocketAddr::new(IpAddr::v4(127, 0, 0, 1), 9999)
}

fn relay_addr_ip6() -> SocketAddr {
    SocketAddr::new(IpAddr::V6(1), 9999)
}

fn allocation_lifetime() -> Duration {
    Duration::from_secs(600)
}

fn now() -> Instant {
    let since_epoch = std::time::SystemTime::now()
        .duration_since(std::time::UNIX_EPOCH)
        .unwrap();
    Instant::from_nanos(since_epoch.as_nanos() as u64)
}

/// The instants at which a request that is never answered is sent again,
/// and at last given up.
fn backoff_steps(start: Instant) -> Vec<Instant> {
    vec![
        start.plus(Duration::from_nanos(1_000_000_000)),
        start.plus(Duration::from_nanos(2_500_000_000)),
        start.plus(Duration::from_nanos(4_750_000_000)),
        start.plus(Duration::from_nanos(8_125_000_000)),
        start.plus(Duration::from_nanos(13_187_500_000)),
        start.plus(Duration::from_nanos(20_781_250_000)),
        start.plus(Duration::from_nanos(32_171_875_000)),
        start.plus(Duration::from_nanos(49_257_812_500)),
    ]
}

fn to_std(addr: SocketAddr) -> core::net::SocketAddr {
    match addr {
        SocketAddr::V4(a) => core::net::SocketAddr::new(
            core::net::IpAddr::V4(core::net::Ipv4Addr::from_bits(a.ip)),
            a.port,
        ),
        SocketAddr::V6(a) => core::net::SocketAddr::new(
            core::net::IpAddr::V6(core::net::Ipv6Addr::from_bits(a.ip)),
            a.port,
        ),
    }
}

fn from_std(addr: core::net::SocketAddr) -> SocketAddr {
    match addr.ip() {
        core::net::IpAddr::V4(ip) => SocketAddr::new(IpAddr::V4(ip.to_bits()), addr.port()),
        core::net::IpAddr::V6(ip) => SocketAddr::new(IpAddr::V6(ip.to_bits()), addr.port()),
    }
}

/// A message on the wire, read with the codec one kind of attribute at a time.
struct Wire {
    bytes: Vec<u8>,
}

impl Wire {
    fn new(class: MessageClass, method: Method, transaction_id: TransactionId) -> Wire {
        let message = Message::<RawAttribute>::new(class, method, transaction_id);
        Wire {
            bytes: MessageEncoder::default().encode_into_bytes(message).unwrap(),
        }
    }

    fn with<T: Attribute>(self, attribute: T) -> Wire {
        let mut message = MessageDecoder::<T>::default()
            .decode_from_bytes(&self.bytes)
            .unwrap()
            .unwrap();
        message.add_attribute(attribute);
        Wire {
            bytes: MessageEncoder::default().encode_into_bytes(message).unwrap(),
        }
    }

    fn raw(&self) -> Message<RawAttribute> {
        MessageDecoder::<RawAttribute>::default()
            .decode_from_bytes(&self.bytes)
            .unwrap()
            .unwrap()
    }

    fn method(&self) -> Method {
        self.raw().method()
    }

    fn class(&self) -> MessageClass {
        self.raw().class()
    }

    fn transaction_id(&self) -> TransactionId {
        self.raw().transaction_id()
    }

    fn attribute_types(&self) -> Vec<u16> {
        self.raw()
            .attributes()
            .map(|a| a.get_type().as_u16())
            .collect()
    }

    fn get_attribute<T: Attribute>(&self) -> Option<T> {
        let message = MessageDecoder::<T>::default()
            .decode_from_bytes(&self.bytes)
            .unwrap()
            .unwrap();
        let first = message.attributes().next().cloned();
        first
    }
}

fn allocate_response(request: &Wire, relay_addrs: &[SocketAddr]) -> Vec<u8> {
    let mut message = Wire::new(
        MessageClass::SuccessResponse,
        ALLOCATE,
        request.transaction_id(),
    )
    .with(XorMappedAddress::new(to_std(peer1())));

    assert!(!relay_addrs.is_empty());
    for addr in relay_addrs {
        message = message.with(XorRelayAddress::new(to_std(*addr)));
    }

    message
        .with(Lifetime::new(core::time::Duration::from_secs(600)).unwrap())
        .bytes
}

fn binding_response(request: &Wire, srflx_addr: SocketAddr) -> Vec<u8> {
    Wire::new(
        MessageClass::SuccessResponse,
        BINDING,
        request.transaction_id(),
    )
    .with(XorMappedAddress::new(to_std(srflx_addr)))
    .bytes
}

fn unauthorized_response(request: &Wire, nonce: &str) -> Vec<u8> {
    Wire::new(
        MessageClass::ErrorResponse,
        request.method(),
        request.transaction_id(),
    )
    .with(ErrorCode::from(Unauthorized))
    .with(Realm::new("firezone".to_owned()).unwrap())
    .with(Nonce::new(nonce.to_owned()).unwrap())
    .bytes
}

fn server_error(request: &Wire) -> Vec<u8> {
    Wire::new(
        MessageClass::ErrorResponse,
        request.method(),
        request.transaction_id(),
    )
    .with(ErrorCode::from(ServerError))
    .bytes
}

fn stale_nonce_response(request: &Wire, nonce: Nonce) -> Vec<u8> {
    Wire::new(
        MessageClass::ErrorResponse,
        request.method(),
        request.transaction_id(),
    )
    .with(ErrorCode::from(StaleNonce))
    .with(Realm::new("firezone".to_owned()).unwrap())
    .with(nonce)
    .bytes
}

fn allocation_mismatch(request: &Wire) -> Vec<u8> {
    Wire::new(
        MessageClass::ErrorResponse,
        request.method(),
        request.transaction_id(),
    )
    .with(ErrorCode::from(AllocationMismatch))
    .bytes
}

fn channel_bind_bad_request(request: &Wire) -> Vec<u8> {
    Wire::new(
        MessageClass::ErrorResponse,
        CHANNEL_BIND,
        request.transaction_id(),
    )
    .with(ErrorCode::from(BadRequest))
    .bytes
}

fn channel_bind_success(request: &Wire) -> Vec<u8> {
    Wire::new(
        MessageClass::SuccessResponse,
        CHANNEL_BIND,
        request.transaction_id(),
    )
    .bytes
}

fn refresh_success(request: &Wire, seconds: u32) -> Vec<u8> {
    Wire::new(
        MessageClass::SuccessResponse,
        REFRESH,
        request.transaction_id(),
    )
    .with(Lifetime::from_u32(seconds))
    .bytes
}

fn peer_address(message: &Wire) -> SocketAddr {
    from_std(message.get_attribute::<XorPeerAddress>().unwrap().address())
}

fn for_test_ip4(start: Instant) -> Allocation {
    Allocation::new(
        RelaySocket::V4(relay_v4()),
        "foobar".to_owned(),
        "baz".to_owned(),
        "firezone".to_owned(),
        start,
        "00000000-0000-0000-0000-000000000000",
    )
}

fn for_test_dual(start: Instant) -> Allocation {
    Allocation::new(
        RelaySocket::Dual {
            v4: relay_v4(),
            v6: relay_v6(),
        },
        "foobar".to_owned(),
        "baz".to_owned(),
        "firezone".to_owned(),
        start,
        "00000000-0000-0000-0000-000000000000",
    )
}

fn next_message(allocation: &mut Allocation) -> Option<Wire> {
    let transmit = allocation.poll_transmit()?;

    Some(Wire {
        bytes: transmit.payload,
    })
}

/// Wrapper around `handle_input` that always sets the relay and the first peer.
fn handle_test_input_ip4(allocation: &mut Allocation, packet: &[u8], now: Instant) -> bool {
    allocation.handle_input(SocketAddr::V4(relay_v4()), peer1(), packet, now)
}

fn with_binding_response(
    mut allocation: Allocation,
    srflx_addr: SocketAddr,
    now: Instant,
) -> Allocation {
    let binding = next_message(&mut allocation).unwrap();
    handle_test_input_ip4(&mut allocation, &binding_response(&binding, srflx_addr), now);

    allocation
}

fn with_allocate_response(
    mut allocation: Allocation,
    relay_addrs: &[SocketAddr],
    now: Instant,
) -> Allocation {
    let allocate = next_message(&mut allocation).unwrap();
    handle_test_input_ip4(
        &mut allocation,
        &allocate_response(&allocate, relay_addrs),
        now,
    );

    allocation
}

fn drain_events(allocation: &mut Allocation) -> Vec<Event> {
    let mut events = Vec::new();
    while let Some(event) = allocation.poll_event() {
        events.push(event);
    }
    events
}

fn relayed(addr: SocketAddr) -> Candidate {
    Candidate::relayed(addr).unwrap()
}

#[test]
fn buffer_channel_bind_requests_until_we_have_allocation() {
    let start = now();
    let mut allocation = with_binding_response(for_test_ip4(start), peer1(), start);

    let allocate = next_message(&mut allocation).unwrap();
    assert_eq!(allocate.method(), ALLOCATE);

    allocation.bind_channel(peer1(), now());
    assert!(
        next_message(&mut allocation).is_none(),
        "no messages to be sent if we don't have an allocation"
    );

    handle_test_input_ip4(
        &mut allocation,
        &allocate_response(&allocate, &[relay_addr_ip4()]),
        now(),
    );

    let message = next_message(&mut allocation).unwrap();
    assert_eq!(message.method(), CHANNEL_BIND);
}

#[test]
fn does_not_relay_to_with_unbound_channel() {
    let start = now();
    let mut allocation = with_allocate_response(
        with_binding_response(for_test_ip4(start), peer1(), start),
        &[relay_addr_ip4()],
        start,
    );
    allocation.bind_channel(peer2_ip4(), now());

    let channel_bind_msg = next_message(&mut allocation).unwrap();
    handle_test_input_ip4(
        &mut allocation,
        &channel_bind_success(&channel_bind_msg),
        now(),
    );

    let transmit = allocation
        .encode_to_owned_transmit(peer2_ip4(), b"foobar", now())
        .unwrap();

    assert_eq!(&transmit.payload[4..], b"foobar");
    assert_eq!(transmit.src, None);
    assert_eq!(transmit.dst, SocketAddr::V4(relay_v4()));
}

#[test]
fn does_relay_to_with_bound_channel() {
    let start = now();
    let mut allocation = with_allocate_response(
        with_binding_response(for_test_ip4(start), peer1(), start),
        &[relay_addr_ip4()],
        start,
    );
    allocation.bind_channel(peer2_ip4(), now());

    let message = allocation.encode_to_owned_transmit(peer2_ip4(), b"foobar", now());

    assert!(message.is_none())
}

#[test]
fn failed_channel_binding_removes_state() {
    let start = now();
    let mut allocation = with_allocate_response(
        with_binding_response(for_test_ip4(start), peer1(), start),
        &[relay_addr_ip4()],
        start,
    );
    allocation.bind_channel(peer2_ip4(), now());

    let channel_bind_msg = next_message(&mut allocation).unwrap();

    handle_test_input_ip4(
        &mut allocation,
        &channel_bind_bad_request(&channel_bind_msg),
        now(),
    );

    let channel = (FIRST_CHANNEL..=LAST_CHANNEL)
        .filter_map(|n| allocation.channel_bindings().get(n))
        .find(|c| c.peer == peer2_ip4());

    assert!(channel.is_none());
}

#[test]
fn rebinding_existing_channel_send_no_message() {
    let start = now();
    let mut allocation = with_allocate_response(
        with_binding_response(for_test_ip4(start), peer1(), start),
        &[relay_addr_ip4()],
        start,
    );
    allocation.bind_channel(peer2_ip4(), now());

    let channel_bind_msg = next_message(&mut allocation).unwrap();
    handle_test_input_ip4(
        &mut allocation,
        &channel_bind_success(&channel_bind_msg),
        now(),
    );

    allocation.bind_channel(peer2_ip4(), now());
    let next_msg = next_message(&mut allocation);

    assert!(next_msg.is_none())
}

#[test]
fn retries_requests_using_backoff_and_gives_up_eventually() {
    let start = now();
    let mut allocation = for_test_ip4(start);

    let mut expected_backoffs = std::collections::VecDeque::from(backoff_steps(start));

    loop {
        let Some(timeout) = allocation.poll_timeout() else {
            break;
        };

        assert_eq!(expected_backoffs.pop_front().unwrap(), timeout);

        assert!(allocation.poll_transmit().is_some());
        assert!(allocation.poll_transmit().is_none());

        allocation.handle_timeout(timeout);
    }

    assert!(expected_backoffs.is_empty())
}

#[test]
fn given_no_ip6_allocation_does_not_attempt_to_bind_channel_to_ip6_address() {
    let start = now();
    let mut allocation = with_allocate_response(
        with_binding_response(for_test_ip4(start), peer1(), start),
        &[relay_addr_ip4()],
        start,
    );

    allocation.bind_channel(peer2_ip6(), now());
    let next_msg = next_message(&mut allocation);

    assert!(next_msg.is_none());
}

#[test]
fn given_no_ip4_allocation_does_not_attempt_to_bind_channel_to_ip4_address() {
    let start = now();
    let mut allocation = with_allocate_response(
        with_binding_response(for_test_ip4(start), peer1(), start),
        &[relay_addr_ip6()],
        start,
    );
    allocation.bind_channel(peer2_ip4(), now());

    let next_msg = next_message(&mut allocation);
    assert!(next_msg.is_none());
}

#[test]
fn given_only_ip4_allocation_when_binding_channel_to_ip6_does_not_emit_buffered_binding() {
    let start = now();
    let mut allocation = with_binding_response(for_test_ip4(start), peer1(), start);

    // Attempt to allocate
    let allocate = next_message(&mut allocation).unwrap();
    assert_eq!(allocate.method(), ALLOCATE);

    // No response yet, try to bind channel to an IPv6 peer.
    allocation.bind_channel(peer2_ip6(), now());
    assert!(
        next_message(&mut allocation).is_none(),
        "no messages to be sent if we don't have an allocation"
    );

    // Allocation succeeds but only for IPv4
    handle_test_input_ip4(
        &mut allocation,
        &allocate_response(&allocate, &[relay_addr_ip4()]),
        now(),
    );

    let next_msg = next_message(&mut allocation);
    assert!(next_msg.is_none(), "to not emit buffered channel binding");
}

#[test]
fn initial_allocate_has_username_realm_and_message_integrity_set() {
    let start = now();
    let mut allocation = with_binding_response(for_test_ip4(start), peer1(), start);

    let allocate = next_message(&mut allocation).unwrap();

    assert_eq!(
        allocate
            .get_attribute::<Username>()
            .map(|u| u.name().to_owned()),
        Some("foobar".to_owned())
    );
    assert_eq!(
        allocate
            .get_attribute::<Realm>()
            .map(|u| u.text().to_owned()),
        Some("firezone".to_owned())
    );
    assert!(allocate.get_attribute::<MessageIntegrity>().is_some());
}

#[test]
fn initial_allocate_is_missing_nonce() {
    let start = now();
    let mut allocation = with_binding_response(for_test_ip4(start), peer1(), start);

    let allocate = next_message(&mut allocation).unwrap();

    assert!(allocate.get_attribute::<Nonce>().is_none());
}

#[test]
fn upon_stale_nonce_reauthorizes_using_new_nonce() {
    let start = now();
    let mut allocation = with_binding_response(for_test_ip4(start), peer1(), start);

    let allocate = next_message(&mut allocation).unwrap();
    handle_test_input_ip4(
        &mut allocation,
        &stale_nonce_response(&allocate, Nonce::new("nonce2".to_owned()).unwrap()),
        now(),
    );

    assert_eq!(
        next_message(&mut allocation)
            .unwrap()
            .get_attribute::<Nonce>()
            .map(|n| n.value().to_owned()),
        Some("nonce2".to_owned())
    );
}

#[test]
fn given_a_request_with_nonce_and_we_are_unauthorized_dont_retry() {
    let start = now();
    let mut allocation = with_binding_response(for_test_ip4(start), peer1(), start);

    // Attempt to authenticate without a nonce
    let allocate = next_message(&mut allocation).unwrap();
    handle_test_input_ip4(
        &mut allocation,
        &unauthorized_response(&allocate, "nonce1"),
        now(),
    );

    let allocate = next_message(&mut allocation).unwrap();
    assert_eq!(
        allocate
            .get_attribute::<Nonce>()
            .map(|n| n.value().to_owned()),
        Some("nonce1".to_owned()),
        "expect next message to include nonce from error response"
    );

    handle_test_input_ip4(
        &mut allocation,
        &unauthorized_response(&allocate, "nonce2"),
        now(),
    );

    assert!(
        next_message(&mut allocation).is_none(),
        "expect repeated unauthorized despite received nonce to stop retry"
    );
}

#[test]
fn returns_new_candidates_on_successful_allocation() {
    let start = now();
    let mut allocation = with_binding_response(for_test_ip4(start), peer1(), start);

    let allocate = next_message(&mut allocation).unwrap();
    handle_test_input_ip4(
        &mut allocation,
        &allocate_response(&allocate, &[relay_addr_ip4()]),
        now(),
    );

    let next_event = allocation.poll_event();
    assert_eq!(
        next_event,
        Some(Event::New(
            Candidate::server_reflexive(peer1(), peer1()).unwrap()
        ))
    );
    let next_event = allocation.poll_event();
    assert_eq!(next_event, Some(Event::New(relayed(relay_addr_ip4()))));
    let next_event = allocation.poll_event();
    assert_eq!(next_event, None);
}

#[test]
fn calling_refresh_with_same_credentials_will_trigger_refresh() {
    let start = now();
    let mut allocation = with_binding_response(for_test_ip4(start), peer1(), start);

    let allocate = next_message(&mut allocation).unwrap();
    handle_test_input_ip4(
        &mut allocation,
        &allocate_response(&allocate, &[relay_addr_ip4()]),
        now(),
    );

    allocation.refresh(now());

    let refresh = next_message(&mut allocation).unwrap();
    assert_eq!(refresh.method(), REFRESH);

    let lifetime = refresh.get_attribute::<Lifetime>();
    assert!(
        lifetime.is_none()
            || lifetime.is_some_and(|l| l.lifetime() != core::time::Duration::ZERO)
    );
}

#[test]
fn failed_refresh_will_invalidate_relay_candiates() {
    let start = now();
    let mut allocation = with_binding_response(for_test_ip4(start), peer1(), start);

    let allocate = next_message(&mut allocation).unwrap();
    handle_test_input_ip4(
        &mut allocation,
        &allocate_response(&allocate, &[relay_addr_ip4(), relay_addr_ip6()]),
        now(),
    );
    let _ = drain_events(&mut allocation);

    allocation.refresh(now());

    let refresh = next_message(&mut allocation).unwrap();
    handle_test_input_ip4(&mut allocation, &allocation_mismatch(&refresh), now());

    assert_eq!(
        allocation.poll_event(),
        Some(Event::Invalid(relayed(relay_addr_ip4())))
    );
    assert_eq!(
        allocation.poll_event(),
        Some(Event::Invalid(relayed(relay_addr_ip6())))
    );
    assert!(allocation.poll_event().is_none());
    assert_eq!(allocation.current_relay_candidates(), vec![],)
}

#[test]
fn failed_refresh_clears_all_channel_bindings() {
    let start = now();
    let mut allocation = with_binding_response(for_test_ip4(start), peer1(), start);

    let allocate = next_message(&mut allocation).unwrap();
    handle_test_input_ip4(
        &mut allocation,
        &allocate_response(&allocate, &[relay_addr_ip4(), relay_addr_ip6()]),
        now(),
    );

    allocation.bind_channel(peer2_ip4(), now());
    let channel_bind_msg = next_message(&mut allocation).unwrap();
    handle_test_input_ip4(
        &mut allocation,
        &channel_bind_success(&channel_bind_msg),
        now(),
    );

    let msg = allocation.encode_to_owned_transmit(peer2_ip4(), b"foobar", now());
    assert!(msg.is_some(), "expect to have a channel to peer");

    allocation.refresh(now());

    let refresh = next_message(&mut allocation).unwrap();
    handle_test_input_ip4(&mut allocation, &allocation_mismatch(&refresh), now());

    let msg = allocation.encode_to_owned_transmit(peer2_ip4(), b"foobar", now());
    assert!(msg.is_none(), "expect to no longer have a channel to peer");
}

#[test]
fn refresh_does_nothing_if_we_dont_have_an_allocation_yet() {
    let start = now();
    let mut allocation = with_binding_response(for_test_ip4(start), peer1(), start);

    let _allocate = next_message(&mut allocation).unwrap();

    allocation.refresh(now());

    let next_msg = next_message(&mut allocation);
    assert!(next_msg.is_none())
}

#[test]
fn failed_refresh_attempts_to_make_new_allocation() {
    let start = now();
    let mut allocation = with_binding_response(for_test_ip4(start), peer1(), start);

    let allocate = next_message(&mut allocation).unwrap();
    handle_test_input_ip4(
        &mut allocation,
        &allocate_response(&allocate, &[relay_addr_ip4(), relay_addr_ip6()]),
        now(),
    );

    allocation.refresh(now());

    let refresh = next_message(&mut allocation).unwrap();
    handle_test_input_ip4(&mut allocation, &allocation_mismatch(&refresh), now());

    let allocate = next_message(&mut allocation).unwrap();
    assert_eq!(allocate.method(), ALLOCATE);
}

#[test]
fn allocation_is_refreshed_after_half_its_lifetime() {
    let start = now();
    let mut allocation = with_binding_response(for_test_ip4(start), peer1(), start);

    let allocate = next_message(&mut allocation).unwrap();

    let received_at = now();

    handle_test_input_ip4(
        &mut allocation,
        &allocate_response(&allocate, &[relay_addr_ip4(), relay_addr_ip6()]),
        received_at,
    );

    let refresh_at = allocation.poll_timeout().unwrap();
    assert_eq!(refresh_at, received_at.plus(allocation_lifetime().half()));

    allocation.handle_timeout(refresh_at);

    let next_msg = next_message(&mut allocation).unwrap();
    assert_eq!(next_msg.method(), REFRESH)
}

#[test]
fn allocation_is_refreshed_only_once() {
    let start = now();
    let mut allocation = with_binding_response(for_test_ip4(start), peer1(), start);

    let allocate = next_message(&mut allocation).unwrap();
    handle_test_input_ip4(
        &mut allocation,
        &allocate_response(&allocate, &[relay_addr_ip4(), relay_addr_ip6()]),
        now(),
    );

    let refresh_at = allocation.poll_timeout().unwrap();

    allocation.handle_timeout(refresh_at);

    assert!(allocation.poll_timeout().unwrap() > refresh_at);
}

#[test]
fn failed_refresh_resets_allocation_lifetime() {
    let start = now();
    let mut allocation = with_binding_response(for_test_ip4(start), peer1(), start);

    let allocate = next_message(&mut allocation).unwrap();
    handle_test_input_ip4(
        &mut allocation,
        &allocate_response(&allocate, &[relay_addr_ip4(), relay_addr_ip6()]),
        now(),
    );

    if let Some(next) = allocation.poll_timeout() {
        allocation.handle_timeout(next)
    }

    let refresh = next_message(&mut allocation).unwrap();
    handle_test_input_ip4(&mut allocation, &allocation_mismatch(&refresh), now());

    let allocate = next_message(&mut allocation).unwrap();
    handle_test_input_ip4(&mut allocation, &server_error(&allocate), now()); // These ones are not retried.

    assert_eq!(allocation.poll_timeout(), None);
}

#[test]
fn when_refreshed_with_no_allocation_after_failed_response_tries_to_allocate() {
    let start = now();
    let mut allocation = with_binding_response(for_test_ip4(start), peer1(), start);

    let allocate = next_message(&mut allocation).unwrap();
    handle_test_input_ip4(&mut allocation, &server_error(&allocate), now());

    allocation.refresh(now());

    let binding = next_message(&mut allocation).unwrap();
    assert_eq!(binding.method(), BINDING);
    handle_test_input_ip4(&mut allocation, &binding_response(&binding, peer1()), now());

    let next_msg = next_message(&mut allocation).unwrap();
    assert_eq!(next_msg.method(), ALLOCATE)
}

#[test]
fn failed_allocation_clears_buffered_channel_bindings() {
    let start = now();
    let mut allocation = with_binding_response(for_test_ip4(start), peer1(), start);

    allocation.bind_channel(peer1(), now());

    let allocate = next_message(&mut allocation).unwrap();
    handle_test_input_ip4(&mut allocation, &server_error(&allocate), now()); // This should clear the buffered channel bindings.

    allocation.refresh(now());

    let binding = next_message(&mut allocation).unwrap();
    assert_eq!(binding.method(), BINDING);
    handle_test_input_ip4(&mut allocation, &binding_response(&binding, peer1()), now());

    let allocate = next_message(&mut allocation).unwrap();
    handle_test_input_ip4(
        &mut allocation,
        &allocate_response(&allocate, &[relay_addr_ip4(), relay_addr_ip6()]),
        now(),
    );

    let next_msg = next_message(&mut allocation);
    assert!(next_msg.is_none())
}

#[test]
fn allocation_mismatch_in_channel_binding_clears_and_reallocates() {
    let start = now();
    let mut allocation = with_allocate_response(
        with_binding_response(for_test_ip4(start), peer1(), start),
        &[relay_addr_ip4(), relay_addr_ip6()],
        start,
    );

    allocation.bind_channel(peer1(), now());

    let channel_bind = next_message(&mut allocation).unwrap();
    handle_test_input_ip4(&mut allocation, &allocation_mismatch(&channel_bind), now());

    let allocate = next_message(&mut allocation).unwrap();
    assert_eq!(
        allocate.method(),
        ALLOCATE,
        "should allocate after failed channel binding"
    );
    handle_test_input_ip4(
        &mut allocation,
        &allocate_response(&allocate, &[relay_addr_ip4(), relay_addr_ip6()]),
        now(),
    );

    let channel_bind = next_message(&mut allocation).unwrap();
    assert_eq!(
        channel_bind.method(),
        CHANNEL_BIND,
        "channel bind to be automatically retried"
    );
}

#[test]
fn dont_buffer_channel_bindings_twice() {
    let start = now();
    let mut allocation = with_binding_response(for_test_ip4(start), peer1(), start);

    allocation.bind_channel(peer1(), now());
    allocation.bind_channel(peer1(), now());

    let allocate = next_message(&mut allocation).unwrap();
    handle_test_input_ip4(
        &mut allocation,
        &allocate_response(&allocate, &[relay_addr_ip4()]),
        now(),
    );

    let channel_bind = next_message(&mut allocation).unwrap();
    let next_msg = next_message(&mut allocation);

    assert_eq!(channel_bind.method(), CHANNEL_BIND);
    assert!(next_msg.is_none());
}

#[test]
fn buffered_channel_bindings_to_different_peers_work() {
    let start = now();
    let mut allocation = with_binding_response(for_test_ip4(start), peer1(), start);

    allocation.bind_channel(peer1(), now());
    allocation.bind_channel(peer2_ip4(), now());

    let allocate = next_message(&mut allocation).unwrap();
    handle_test_input_ip4(
        &mut allocation,
        &allocate_response(&allocate, &[relay_addr_ip4()]),
        now(),
    );

    let channel_bind_peer_1 = next_message(&mut allocation).unwrap();
    let channel_bind_peer_2 = next_message(&mut allocation).unwrap();

    assert_eq!(channel_bind_peer_1.method(), CHANNEL_BIND);
    assert_eq!(peer_address(&channel_bind_peer_1), peer1());

    assert_eq!(channel_bind_peer_2.method(), CHANNEL_BIND);
    assert_eq!(peer_address(&channel_bind_peer_2), peer2_ip4());
}

#[test]
fn dont_send_channel_binding_if_inflight() {
    let start = now();
    let mut allocation = with_allocate_response(
        with_binding_response(for_test_ip4(start), peer1(), start),
        &[relay_addr_ip4()],
        start,
    );

    allocation.bind_channel(peer1(), now());

    let channel_bind = next_message(&mut allocation).unwrap();
    assert_eq!(channel_bind.method(), CHANNEL_BIND);

    allocation.bind_channel(peer1(), now());

    assert!(next_message(&mut allocation).is_none());
}

#[test]
fn send_channel_binding_to_second_peer_if_inflight_for_other() {
    let start = now();
    let mut allocation = with_allocate_response(
        with_binding_response(for_test_ip4(start), peer1(), start),
        &[relay_addr_ip4()],
        start,
    );

    allocation.bind_channel(peer1(), now());

    let channel_bind = next_message(&mut allocation).unwrap();
    assert_eq!(channel_bind.method(), CHANNEL_BIND);

    allocation.bind_channel(peer2_ip4(), now());
    let channel_bind_peer_2 = next_message(&mut allocation).unwrap();

    assert_eq!(channel_bind_peer_2.method(), CHANNEL_BIND);
    assert_eq!(peer_address(&channel_bind_peer_2), peer2_ip4());
}

#[test]
fn failed_allocation_is_suspended() {
    let mut allocation = for_test_ip4(now());

    let allocate = next_message(&mut allocation).unwrap();
    handle_test_input_ip4(&mut allocation, &server_error(&allocate), now()); // This should clear the buffered channel bindings.

    assert!(allocation.is_suspended())
}

#[test]
fn timed_out_refresh_requests_invalid_candidates() {
    let start = now();
    let mut allocation = with_binding_response(for_test_ip4(start), peer1(), start);

    // Make an allocation
    {
        let allocate = next_message(&mut allocation).unwrap();
        handle_test_input_ip4(
            &mut allocation,
            &allocate_response(&allocate, &[relay_addr_ip4(), relay_addr_ip6()]),
            start,
        );
        let _drained_events = drain_events(&mut allocation);
    }

    // Test that we refresh it.
    {
        let refresh_at = allocation.poll_timeout().unwrap();
        allocation.handle_timeout(refresh_at);

        let refresh = next_message(&mut allocation).unwrap();
        assert_eq!(refresh.method(), REFRESH);
    }

    // Simulate refresh timing out
    for _ in backoff_steps(start) {
        let timeout = allocation.poll_timeout().unwrap();
        allocation.handle_timeout(timeout);
    }

    assert_eq!(
        drain_events(&mut allocation),
        vec![
            Event::Invalid(relayed(relay_addr_ip4())),
            Event::Invalid(relayed(relay_addr_ip6())),
        ]
    )
}

#[test]
fn expires_allocation_invalidates_candidates() {
    let start = now();
    let mut allocation = with_allocate_response(
        with_binding_response(for_test_ip4(start), peer1(), start),
        &[relay_addr_ip4(), relay_addr_ip6()],
        start,
    );

    let _drained_events = drain_events(&mut allocation);

    allocation.handle_timeout(start.plus(allocation_lifetime()));

    assert_eq!(
        drain_events(&mut allocation),
        vec![
            Event::Invalid(relayed(relay_addr_ip4())),
            Event::Invalid(relayed(relay_addr_ip6())),
        ]
    )
}

#[test]
fn invalid_credentials_invalidates_existing_allocation() {
    let now = now();
    let mut allocation = with_allocate_response(
        with_binding_response(for_test_ip4(now), peer1(), now),
        &[relay_addr_ip4(), relay_addr_ip6()],
        now,
    );
    let _drained_events = drain_events(&mut allocation);

    // The allocation learns a nonce the way it does in the field: the relay
    // calls the nonce of a first refresh stale and names a new one.
    allocation.refresh(now);
    let refresh = next_message(&mut allocation).unwrap();
    handle_test_input_ip4(
        &mut allocation,
        &stale_nonce_response(&refresh, Nonce::new("nonce1".to_owned()).unwrap()),
        now,
    );
    let refresh = next_message(&mut allocation).unwrap();
    handle_test_input_ip4(&mut allocation, &refresh_success(&refresh, 600), now);

    let now = now.plus(Duration::from_secs(1));
    allocation.refresh(now);

    // If the relay is restarted, our current credentials will be invalid. Simulate with an "unauthorized" response".
    let now = now.plus(Duration::from_secs(1));
    let refresh = next_message(&mut allocation).unwrap();
    assert_eq!(
        refresh
            .get_attribute::<Nonce>()
            .map(|n| n.value().to_owned()),
        Some("nonce1".to_owned())
    );
    handle_test_input_ip4(
        &mut allocation,
        &unauthorized_response(&refresh, "nonce2"),
        now,
    );

    assert!(
        next_message(&mut allocation).is_none(),
        "no more messages to be generated"
    );
    assert!(allocation.poll_timeout().is_none(), "nothing to wait for");
    assert_eq!(
        drain_events(&mut allocation),
        vec![
            Event::Invalid(relayed(relay_addr_ip4())),
            Event::Invalid(relayed(relay_addr_ip6())),
        ]
    );
    assert_eq!(
        allocation.can_be_freed(),
        Some(FreeReason::AuthenticationError)
    );
}

#[test]
fn allocation_is_not_freed_on_startup() {
    let mut allocation = for_test_ip4(now());

    assert_eq!(allocation.can_be_freed(), None);
}

#[test]
fn relay_socket_matches_v4_socket() {
    let socket = RelaySocket::V4(relay_v4());

    assert!(socket.matches(SocketAddr::V4(relay_v4())));
    assert!(!socket.matches(SocketAddr::V6(relay_v6())));
}

#[test]
fn relay_socket_matches_v6_socket() {
    let socket = RelaySocket::V6(relay_v6());

    assert!(socket.matches(SocketAddr::V6(relay_v6())));
    assert!(!socket.matches(SocketAddr::V4(relay_v4())));
}

#[test]
fn relay_socket_matches_dual_socket() {
    let socket = RelaySocket::Dual {
        v4: relay_v4(),
        v6: relay_v6(),
    };

    assert!(socket.matches(SocketAddr::V4(relay_v4())));
    assert!(socket.matches(SocketAddr::V6(relay_v6())));
}

#[test]
fn first_binding_response_sets_socket_to_use() {
    let now = now();
    let mut allocation = for_test_dual(now);

    let _ = next_message(&mut allocation).unwrap(); // Discard the first one.

    let binding = next_message(&mut allocation).unwrap();
    allocation.handle_input(
        SocketAddr::V6(relay_v6()),
        peer2_ip6(),
        &binding_response(&binding, peer2_ip6()),
        now,
    );

    assert_eq!(
        allocation.poll_transmit().unwrap().dst,
        SocketAddr::V6(relay_v6())
    );
}

#[test]
fn both_stun_responses_are_returned_as_candidates() {
    let now = now();
    let mut allocation = for_test_dual(now);

    let binding = next_message(&mut allocation).unwrap();
    let handled = allocation.handle_input(
        SocketAddr::V4(relay_v4()),
        peer2_ip4(),
        &binding_response(&binding, peer2_ip4()),
        now,
    );
    assert!(handled);

    let binding = next_message(&mut allocation).unwrap();
    let handled = allocation.handle_input(
        SocketAddr::V6(relay_v6()),
        peer2_ip6(),
        &binding_response(&binding, peer2_ip6()),
        now,
    );
    assert!(handled);

    let events = drain_events(&mut allocation);
    assert_eq!(
        events,
        vec![
            Event::New(Candidate::server_reflexive(peer2_ip4(), peer2_ip4()).unwrap()),
            Event::New(Candidate::server_reflexive(peer2_ip6(), peer2_ip6()).unwrap())
        ]
    )
}

#[test]
fn second_stun_request_gives_up_eventually() {
    let start = now();
    let mut allocation = for_test_dual(start);

    // We respond to the BINDING request on IPv4.
    let binding = next_message(&mut allocation).unwrap();
    allocation.handle_input(
        SocketAddr::V4(relay_v4()),
        peer2_ip4(),
        &binding_response(&binding, peer2_ip4()),
        start,
    );

    loop {
        let Some(timeout) = allocation.poll_timeout() else {
            break;
        };

        allocation.handle_timeout(timeout);

        // We expect two transmits.
        // The order is not deterministic because internally it is a map by id.
        let _ = allocation.poll_transmit().unwrap();
        let _ = allocation.poll_transmit().unwrap();
    }

    assert!(allocation.poll_transmit().is_none());
}

#[test]
fn allocation_can_be_freed_after_all_requests_time_out() {
    let mut allocation = for_test_dual(now());

    loop {
        let Some(timeout) = allocation.poll_timeout() else {
            break;
        };

        allocation.handle_timeout(timeout);

        // We expect two transmits.
        // The order is not deterministic because internally it is a map by id.
        let _ = allocation.poll_transmit().unwrap();
        let _ = allocation.poll_transmit().unwrap();
    }

    assert_eq!(
        allocation.can_be_freed(),
        Some(FreeReason::NoResponseReceived)
    );
}

#[test]
fn single_family_allocation_happy_path() {
    let start = Instant::from_nanos(1_000);
    let mut allocation = for_test_ip4(start);

    let binding = next_message(&mut allocation).unwrap();
    assert_eq!(binding.method(), BINDING);
    assert_eq!(binding.class(), MessageClass::Request);
    assert_eq!(
        binding
            .get_attribute::<Software>()
            .map(|s| s.description().to_owned()),
        Some("snownet; session=00000000-0000-0000-0000-000000000000".to_owned())
    );
    assert!(handle_test_input_ip4(
        &mut allocation,
        &binding_response(&binding, peer1()),
        start
    ));
    assert!(allocation.received_any_response());

    let allocate = next_message(&mut allocation).unwrap();
    assert_eq!(allocate.method(), ALLOCATE);
    assert_eq!(
        allocate.attribute_types(),
        vec![
            RequestedTransport::CODEPOINT,
            AdditionalAddressFamily::CODEPOINT,
            Software::CODEPOINT,
            Username::CODEPOINT,
            Realm::CODEPOINT,
            MessageIntegrity::CODEPOINT,
        ]
    );
    assert_eq!(
        allocate
            .get_attribute::<RequestedTransport>()
            .map(|t| t.protocol()),
        Some(17)
    );
    assert!(allocate
        .get_attribute::<MessageIntegrity>()
        .unwrap()
        .check_long_term_credential(
            &Username::new("foobar".to_owned()).unwrap(),
            &Realm::new("firezone".to_owned()).unwrap(),
            "baz"
        )
        .is_ok());
    assert!(next_message(&mut allocation).is_none());

    let received_at = Instant::from_nanos(2_000);
    assert!(handle_test_input_ip4(
        &mut allocation,
        &allocate_response(&allocate, &[relay_addr_ip4()]),
        received_at
    ));

    assert_eq!(
        drain_events(&mut allocation),
        vec![
            Event::New(Candidate::server_reflexive(peer1(), peer1()).unwrap()),
            Event::New(relayed(relay_addr_ip4())),
        ]
    );
    assert_eq!(
        allocation.poll_timeout(),
        Some(received_at.plus(Duration::from_secs(300)))
    );
    assert_eq!(allocation.current_relay_candidates(), vec![relayed(relay_addr_ip4())]);
    assert!(allocation.has_socket(relay_addr_ip4()));
    assert!(!allocation.has_socket(relay_addr_ip6()));
    assert_eq!(allocation.ip4_socket().unwrap().address, relay_addr_ip4());
    assert_eq!(allocation.ip6_socket(), None);
}

#[test]
fn dual_stack_nomination() {
    let start = Instant::from_nanos(1_000);
    let mut allocation = for_test_dual(start);

    let binding_v4 = next_message(&mut allocation).unwrap();
    let binding_v6 = next_message(&mut allocation).unwrap();
    assert!(next_message(&mut allocation).is_none());

    assert!(allocation.handle_input(
        SocketAddr::V6(relay_v6()),
        peer2_ip6(),
        &binding_response(&binding_v6, peer2_ip6()),
        start,
    ));
    let allocate = allocation.poll_transmit().unwrap();
    assert_eq!(allocate.dst, SocketAddr::V6(relay_v6()));
    assert_eq!(Wire { bytes: allocate.payload }.method(), ALLOCATE);

    assert!(allocation.handle_input(
        SocketAddr::V4(relay_v4()),
        peer2_ip4(),
        &binding_response(&binding_v4, peer2_ip4()),
        start,
    ));
    assert!(allocation.poll_transmit().is_none());

    assert_eq!(
        drain_events(&mut allocation),
        vec![
            Event::New(Candidate::server_reflexive(peer2_ip6(), peer2_ip6()).unwrap()),
            Event::New(Candidate::server_reflexive(peer2_ip4(), peer2_ip4()).unwrap()),
        ]
    );

    allocation.refresh(start);
    assert!(allocation.poll_transmit().is_none());
}

#[test]
fn packets_that_are_not_ours_are_not_handled() {
    let start = Instant::from_nanos(1_000);
    let mut allocation = for_test_ip4(start);
    let binding = next_message(&mut allocation).unwrap();
    let response = binding_response(&binding, peer1());

    // wrong relay
    assert!(!allocation.handle_input(SocketAddr::V6(relay_v6()), peer1(), &response, start));
    // malformed
    assert!(!handle_test_input_ip4(&mut allocation, b"not a stun message", start));
    assert!(!handle_test_input_ip4(&mut allocation, &response[..10], start));
    // unknown transaction id
    let other = Wire::new(MessageClass::Request, BINDING, TransactionId::new([7; 12]));
    assert!(!handle_test_input_ip4(
        &mut allocation,
        &binding_response(&other, peer1()),
        start
    ));

    assert!(handle_test_input_ip4(&mut allocation, &response, start));
    // the request is gone once it was answered
    assert!(!handle_test_input_ip4(&mut allocation, &response, start));
}

#[test]
fn unknown_attribute_is_a_protocol_failure() {
    let start = Instant::from_nanos(1_000);
    let mut allocation = with_binding_response(for_test_ip4(start), peer1(), start);
    let allocate = next_message(&mut allocation).unwrap();

    let response = Wire::new(
        MessageClass::ErrorResponse,
        ALLOCATE,
        allocate.transaction_id(),
    )
    .with(ErrorCode::from(UnknownAttribute))
    .bytes;
    assert!(handle_test_input_ip4(&mut allocation, &response, start));

    assert_eq!(allocation.can_be_freed(), Some(FreeReason::ProtocolFailure));
    assert_eq!(allocation.can_be_freed(), Some(FreeReason::ProtocolFailure));
    assert!(next_message(&mut allocation).is_none());
    assert_eq!(allocation.can_be_freed(), Some(FreeReason::ProtocolFailure));
}

#[test]
fn asking_whether_it_can_be_freed_changes_nothing() {
    let start = Instant::from_nanos(1_000);
    let mut allocation = for_test_ip4(start);
    assert_eq!(allocation.can_be_freed(), None);
    assert_eq!(allocation.poll_timeout(), Some(start.plus(Duration::from_secs(1))));
    assert!(next_message(&mut allocation).is_some());
    assert_eq!(allocation.can_be_freed(), None);

    let mut allocation = with_binding_response(for_test_ip4(start), peer1(), start);
    assert_eq!(allocation.can_be_freed(), None);
    assert_eq!(
        drain_events(&mut allocation),
        vec![Event::New(Candidate::server_reflexive(peer1(), peer1()).unwrap())]
    );
    assert!(allocation.has_credentials());
    assert!(allocation.matches_credentials("foobar", "baz"));
    assert!(!allocation.matches_credentials("foobar", "bar"));
}

#[test]
fn realm_mismatch_is_an_authentication_failure() {
    let start = Instant::from_nanos(1_000);
    let mut allocation = with_binding_response(for_test_ip4(start), peer1(), start);
    let _ = drain_events(&mut allocation);
    let allocate = next_message(&mut allocation).unwrap();
    assert!(allocate.get_attribute::<Nonce>().is_none());

    let response = Wire::new(
        MessageClass::ErrorResponse,
        ALLOCATE,
        allocate.transaction_id(),
    )
    .with(ErrorCode::from(Unauthorized))
    .with(Realm::new("other".to_owned()).unwrap())
    .with(Nonce::new("n1".to_owned()).unwrap())
    .bytes;
    assert!(handle_test_input_ip4(&mut allocation, &response, start));

    assert!(next_message(&mut allocation).is_none());
    assert!(!allocation.has_credentials());
    assert!(!allocation.matches_credentials("foobar", "baz"));
    assert_eq!(allocation.poll_timeout(), None);
    assert_eq!(allocation.can_be_freed(), Some(FreeReason::AuthenticationError));
    assert_eq!(allocation.can_be_freed(), Some(FreeReason::AuthenticationError));
}

#[test]
fn realm_mismatch_invalidates_the_allocation() {
    let start = Instant::from_nanos(1_000);
    let mut allocation = with_allocate_response(
        with_binding_response(for_test_ip4(start), peer1(), start),
        &[relay_addr_ip4(), relay_addr_ip6()],
        start,
    );
    let _ = drain_events(&mut allocation);
    allocation.bind_channel(peer2_ip4(), start);
    let channel_bind = next_message(&mut allocation).unwrap();
    handle_test_input_ip4(&mut allocation, &channel_bind_success(&channel_bind), start);
    allocation.refresh(start);
    let refresh = next_message(&mut allocation).unwrap();
    assert_eq!(refresh.method(), REFRESH);

    let response = Wire::new(
        MessageClass::ErrorResponse,
        REFRESH,
        refresh.transaction_id(),
    )
    .with(ErrorCode::from(StaleNonce))
    .with(Realm::new("other".to_owned()).unwrap())
    .with(Nonce::new("n1".to_owned()).unwrap())
    .bytes;
    assert!(handle_test_input_ip4(&mut allocation, &response, start));

    assert!(next_message(&mut allocation).is_none());
    assert_eq!(
        drain_events(&mut allocation),
        vec![
            Event::Invalid(relayed(relay_addr_ip4())),
            Event::Invalid(relayed(relay_addr_ip6())),
        ]
    );
    assert!(allocation.current_relay_candidates().is_empty());
    assert!(allocation
        .encode_to_owned_transmit(peer2_ip4(), b"foobar", start)
        .is_none());
    assert!(!allocation.has_credentials());
    assert_eq!(allocation.can_be_freed(), Some(FreeReason::AuthenticationError));
}

#[test]
fn same_realm_in_the_answer_is_no_failure() {
    let start = Instant::from_nanos(1_000);
    let mut allocation = with_binding_response(for_test_ip4(start), peer1(), start);
    let allocate = next_message(&mut allocation).unwrap();

    assert!(handle_test_input_ip4(
        &mut allocation,
        &unauthorized_response(&allocate, "n1"),
        start
    ));

    let again = next_message(&mut allocation).unwrap();
    assert_eq!(again.method(), ALLOCATE);
    assert_eq!(
        again.get_attribute::<Nonce>().map(|n| n.value().to_owned()),
        Some("n1".to_owned())
    );
    assert!(allocation.has_credentials());
}

#[test]
fn allocation_mismatch_on_allocate_deletes_the_allocation() {
    let start = Instant::from_nanos(1_000);
    let mut allocation = with_binding_response(for_test_ip4(start), peer1(), start);
    let allocate = next_message(&mut allocation).unwrap();

    assert!(handle_test_input_ip4(
        &mut allocation,
        &allocation_mismatch(&allocate),
        start
    ));

    let delete = next_message(&mut allocation).unwrap();
    assert_eq!(delete.method(), REFRESH);
    assert_eq!(
        delete
            .get_attribute::<Lifetime>()
            .map(|l| l.lifetime().as_secs()),
        Some(0)
    );

    assert!(handle_test_input_ip4(
        &mut allocation,
        &refresh_success(&delete, 0),
        start
    ));
    let allocate = next_message(&mut allocation).unwrap();
    assert_eq!(allocate.method(), ALLOCATE);
}

#[test]
fn channel_bind_request_names_peer_and_channel() {
    let start = Instant::from_nanos(1_000);
    let mut allocation = with_allocate_response(
        with_binding_response(for_test_ip4(start), peer1(), start),
        &[relay_addr_ip4()],
        start,
    );

    allocation.bind_channel(peer2_ip4(), start);
    let channel_bind = next_message(&mut allocation).unwrap();

    assert_eq!(
        channel_bind.attribute_types(),
        vec![
            XorPeerAddress::CODEPOINT,
            ChannelNumber::CODEPOINT,
            Software::CODEPOINT,
            Username::CODEPOINT,
            Realm::CODEPOINT,
            MessageIntegrity::CODEPOINT,
        ]
    );
    assert_eq!(peer_address(&channel_bind), peer2_ip4());
    assert_eq!(
        channel_bind
            .get_attribute::<ChannelNumber>()
            .map(|c| c.value()),
        Some(FIRST_CHANNEL)
    );
}

#[test]
fn decapsulate_returns_peer_payload_and_relay_socket() {
    let start = Instant::from_nanos(1_000);
    let mut allocation = with_allocate_response(
        with_binding_response(for_test_ip4(start), peer1(), start),
        &[relay_addr_ip4()],
        start,
    );
    allocation.bind_channel(peer2_ip4(), start);
    let channel_bind = next_message(&mut allocation).unwrap();
    handle_test_input_ip4(&mut allocation, &channel_bind_success(&channel_bind), start);

    let transmit = allocation
        .encode_to_owned_transmit(peer2_ip4(), b"foobar", start)
        .unwrap();
    assert_eq!(
        transmit.payload,
        vec![0x40, 0x00, 0x00, 0x06, b'f', b'o', b'o', b'b', b'a', b'r']
    );

    let (peer, payload, socket) = allocation
        .decapsulate(SocketAddr::V4(relay_v4()), &transmit.payload, start)
        .unwrap();
    assert_eq!(peer, peer2_ip4());
    assert_eq!(payload, b"foobar");
    assert_eq!(socket.address(), relay_addr_ip4());

    assert!(allocation
        .decapsulate(SocketAddr::V6(relay_v6()), &transmit.payload, start)
        .is_none());

    let mut buffer = vec![0u8; 16];
    buffer[4..10].copy_from_slice(b"foobar");
    let packet = allocation
        .encode_to_encrypted_packet(peer2_ip4(), buffer, 10, start)
        .unwrap();
    assert_eq!(&packet.buffer[..10], &transmit.payload[..]);
    assert_eq!(packet.packet_len, 10);
    assert_eq!(packet.dst, SocketAddr::V4(relay_v4()));
}

#[test]
fn channel_with_data_is_refreshed_on_timeout() {
    let start = Instant::from_nanos(1_000);
    let mut allocation = with_allocate_response(
        with_binding_response(for_test_ip4(start), peer1(), start),
        &[relay_addr_ip4()],
        start,
    );
    allocation.bind_channel(peer2_ip4(), start);
    let channel_bind = next_message(&mut allocation).unwrap();
    handle_test_input_ip4(&mut allocation, &channel_bind_success(&channel_bind), start);

    let frame = connlib::channel_data::encode(FIRST_CHANNEL, b"x");
    let arrival = start.plus(Duration::from_secs(1));
    allocation
        .decapsulate(SocketAddr::V4(relay_v4()), &frame, arrival)
        .unwrap();

    // After five minutes both the allocation and the channel are due.
    allocation.handle_timeout(start.plus(Duration::from_secs(300)));

    let refresh = next_message(&mut allocation).unwrap();
    assert_eq!(refresh.method(), REFRESH);
    let rebind = next_message(&mut allocation).unwrap();
    assert_eq!(rebind.method(), CHANNEL_BIND);
    assert_eq!(peer_address(&rebind), peer2_ip4());
    assert!(next_message(&mut allocation).is_none());

    // Neither is asked for twice while the first request waits.
    allocation.handle_timeout(start.plus(Duration::from_secs(300)));
    assert!(next_message(&mut allocation).is_none());
}

#[test]
fn stale_now_is_ignored() {
    let start = Instant::from_nanos(5_000_000_000);
    let mut allocation = for_test_ip4(start);
    let _ = next_message(&mut allocation).unwrap();

    allocation.handle_timeout(Instant::from_nanos(0));

    assert!(next_message(&mut allocation).is_none());
    assert_eq!(
        allocation.poll_timeout(),
        Some(start.plus(Duration::from_secs(1)))
    );
}

#[test]
fn new_with_ids_uses_the_given_transaction_ids() {
    let mut allocation = Allocation::new_with_ids(
        RelaySocket::Dual {
            v4: relay_v4(),
            v6: relay_v6(),
        },
        "foobar".to_owned(),
        "baz".to_owned(),
        "firezone".to_owned(),
        Instant::from_nanos(0),
        "s",
        0x0102_0304_0506_0708_090a_0b0c,
        0x1112_1314_1516_1718_191a_1b1c,
    );

    let first = allocation.poll_transmit().unwrap();
    let second = allocation.poll_transmit().unwrap();

    assert_eq!(first.dst, SocketAddr::V4(relay_v4()));
    assert_eq!(
        Wire { bytes: first.payload }.transaction_id(),
        TransactionId::new([1, 2, 3, 4, 5, 6, 7, 8, 9, 10, 11, 12])
    );
    assert_eq!(second.dst, SocketAddr::V6(relay_v6()));
    assert_eq!(
        Wire { bytes: second.payload }.transaction_id(),
        TransactionId::new([0x11, 0x12, 0x13, 0x14, 0x15, 0x16, 0x17, 0x18, 0x19, 0x1a, 0x1b, 0x1c])
    );
    assert!(allocation.matches_socket(&RelaySocket::Dual {
        v4: relay_v4(),
        v6: relay_v6(),
    }));
    assert_eq!(
        allocation.server(),
        RelaySocket::Dual {
            v4: relay_v4(),
            v6: relay_v6(),
        }
    );
}

#[test]
fn candidates_need_a_usable_address() {
    let local = SocketAddr::new(IpAddr::v4(192, 168, 0, 2), 5000);

    for bad in [
        IpAddr::v4(0, 0, 0, 0),
        IpAddr::v4(169, 254, 1, 1),
        IpAddr::v4(255, 255, 255, 255),
        IpAddr::v4(224, 0, 0, 1),
        IpAddr::v4(239, 255, 255, 255),
        IpAddr::V6(0),
        IpAddr::V6(0xff02_0000_0000_0000_0000_0000_0000_0001),
    ] {
        assert_eq!(Candidate::relayed(SocketAddr::new(bad, 1)), None);
        assert_eq!(Candidate::server_reflexive(SocketAddr::new(bad, 1), local), None);
    }
    for good in [
        IpAddr::v4(169, 253, 255, 255),
        IpAddr::v4(169, 255, 0, 0),
        IpAddr::v4(223, 255, 255, 255),
        IpAddr::v4(240, 0, 0, 1),
        IpAddr::v4(127, 0, 0, 1),
        IpAddr::V6(1),
        IpAddr::V6(0xfe80_0000_0000_0000_0000_0000_0000_0001),
    ] {
        let addr = SocketAddr::new(good, 1);
        assert_eq!(Candidate::relayed(addr).map(|c| (c.addr(), c.base)), Some((addr, addr)));
    }

    // A reflexive candidate is of the family of the socket it was seen from.
    assert_eq!(
        Candidate::server_reflexive(SocketAddr::new(IpAddr::V6(1), 1), local),
        None
    );
    let seen = SocketAddr::new(IpAddr::v4(1, 2, 3, 4), 1);
    assert_eq!(
        Candidate::server_reflexive(seen, local).map(|c| (c.addr, c.base)),
        Some((seen, local))
    );
}

#[test]
fn every_request_gets_a_fresh_transaction_id() {
    let start = Instant::from_nanos(1_000);
    let mut allocation = for_test_dual(start);

    let first = next_message(&mut allocation).unwrap().transaction_id();
    let second = next_message(&mut allocation).unwrap().transaction_id();

    assert_ne!(first, second);
}

#[test]
fn binding_request_is_sent_again_under_its_id_and_others_under_a_new_one() {
    let start = Instant::from_nanos(0);
    let mut allocation = for_test_ip4(start);
    let binding = next_message(&mut allocation).unwrap();

    // Nothing is sent again before the wait is over.
    allocation.handle_timeout(Instant::from_nanos(999_999_999));
    assert!(next_message(&mut allocation).is_none());

    allocation.handle_timeout(Instant::from_nanos(1_000_000_000));
    let again = next_message(&mut allocation).unwrap();
    assert_eq!(again.method(), BINDING);
    assert_eq!(again.transaction_id(), binding.transaction_id());

    handle_test_input_ip4(&mut allocation, &binding_response(&again, peer1()), start);
    let allocate = next_message(&mut allocation).unwrap();
    let sent_at = Instant::from_nanos(1_000_000_000);
    allocation.handle_timeout(sent_at.plus(Duration::from_secs(1)));
    let again = next_message(&mut allocation).unwrap();
    assert_eq!(again.method(), ALLOCATE);
    assert_ne!(again.transaction_id(), allocate.transaction_id());

    // The first request is no longer waited for.
    assert!(!handle_test_input_ip4(
        &mut allocation,
        &allocate_response(&allocate, &[relay_addr_ip4()]),
        start
    ));
    assert!(handle_test_input_ip4(
        &mut allocation,
        &allocate_response(&again, &[relay_addr_ip4()]),
        start
    ));
}

#[test]
fn more_than_a_hundred_waiting_peers_drop_the_oldest() {
    let start = Instant::from_nanos(1_000);
    let mut allocation = with_binding_response(for_test_ip4(start), peer1(), start);
    let allocate = next_message(&mut allocation).unwrap();

    for port in 1..=101 {
        allocation.bind_channel(SocketAddr::new(IpAddr::v4(10, 0, 0, 1), port), start);
    }
    handle_test_input_ip4(
        &mut allocation,
        &allocate_response(&allocate, &[relay_addr_ip4()]),
        start,
    );

    let mut peers = Vec::new();
    while let Some(message) = next_message(&mut allocation) {
        assert_eq!(message.method(), CHANNEL_BIND);
        peers.push(peer_address(&message).port());
    }
    assert_eq!(peers, (2..=101).collect::<Vec<u16>>());
}

#[test]
fn answers_with_a_broken_attribute_are_not_handled() {
    let broken: Vec<(u16, Vec<u8>)> = vec![
        (ChannelNumber::CODEPOINT, vec![0x12, 0x34, 0, 0]),
        (XorPeerAddress::CODEPOINT, vec![0, 3, 0, 80, 1, 2, 3, 4]),
        (Username::CODEPOINT, vec![0xff, 0xfe, 0xfd, 0xfc]),
        (Software::CODEPOINT, vec![0xff, 0xfe, 0xfd, 0xfc]),
        (MessageIntegrity::CODEPOINT, vec![1, 2, 3, 4]),
        (RequestedTransport::CODEPOINT, vec![17, 0]),
        (AdditionalAddressFamily::CODEPOINT, vec![3, 0, 0, 0]),
        (Nonce::CODEPOINT, vec![0xff, 0xfe, 0xfd, 0xfc]),
        (Realm::CODEPOINT, vec![0xff, 0xfe, 0xfd, 0xfc]),
        (Lifetime::CODEPOINT, vec![1, 2]),
        (ErrorCode::CODEPOINT, vec![1]),
        (XorRelayAddress::CODEPOINT, vec![0, 3, 0, 80, 1, 2, 3, 4]),
        (XorMappedAddress::CODEPOINT, vec![0, 1, 0, 80, 1, 2]),
    ];

    for (attribute_type, value) in broken {
        let start = Instant::from_nanos(1_000);
        let mut allocation = for_test_ip4(start);
        let binding = next_message(&mut allocation).unwrap();
        let response = Wire::new(
            MessageClass::SuccessResponse,
            BINDING,
            binding.transaction_id(),
        )
        .with(XorMappedAddress::new(to_std(peer1())))
        .with(RawAttribute::new(attribute_type.into(), value));

        assert!(
            !handle_test_input_ip4(&mut allocation, &response.bytes, start),
            "an answer with a broken attribute {attribute_type:#06x} was handled"
        );
        assert!(handle_test_input_ip4(
            &mut allocation,
            &binding_response(&binding, peer1()),
            start
        ));
    }
}

#[test]
fn answers_with_unknown_attributes_are_handled() {
    let start = Instant::from_nanos(1_000);
    let mut allocation = for_test_ip4(start);
    let binding = next_message(&mut allocation).unwrap();
    let response = Wire::new(
        MessageClass::SuccessResponse,
        BINDING,
        binding.transaction_id(),
    )
    .with(RawAttribute::new(0x8fff.into(), vec![1, 2, 3]))
    .with(XorMappedAddress::new(to_std(peer1())));

    assert!(handle_test_input_ip4(&mut allocation, &response.bytes, start));
    assert_eq!(
        allocation.poll_event(),
        Some(Event::New(Candidate::server_reflexive(peer1(), peer1()).unwrap()))
    );
}

#[test]
fn relay_socket_from_one_address_is_of_its_family() {
    let v4 = RelaySocket::from_socket_addr(SocketAddr::V4(relay_v4()));
    assert_eq!(v4, RelaySocket::V4(relay_v4()));
    assert_eq!(v4.as_v4(), Some(relay_v4()));
    assert_eq!(v4.as_v6(), None);

    let v6 = RelaySocket::from_socket_addr(SocketAddr::V6(relay_v6()));
    assert_eq!(v6, RelaySocket::V6(relay_v6()));
    assert_eq!(v6.as_v4(), None);
    assert_eq!(v6.as_v6(), Some(relay_v6()));
}

#[test]
fn relay_socket_of_two_addresses_has_both() {
    let dual = RelaySocket::dual(relay_v4(), relay_v6());
    assert_eq!(
        dual,
        RelaySocket::Dual {
            v4: relay_v4(),
            v6: relay_v6()
        }
    );
    assert_eq!(dual.as_v4(), Some(relay_v4()));
    assert_eq!(dual.as_v6(), Some(relay_v6()));
}

#[test]
fn timeout_before_the_deadline_sends_nothing_again() {
    let start = Instant::from_nanos(5_000_000_000);
    let mut allocation = for_test_ip4(start);
    let binding = next_message(&mut allocation).unwrap();
    let deadline = allocation.poll_timeout().unwrap();
    assert_eq!(deadline, start.plus(Duration::from_secs(1)));

    allocation.handle_timeout(Instant::from_nanos(deadline.nanos - 1));
    assert!(next_message(&mut allocation).is_none());
    assert_eq!(allocation.poll_timeout(), Some(deadline));

    allocation.handle_timeout(deadline);
    let again = next_message(&mut allocation).unwrap();
    assert_eq!(again.bytes, binding.bytes);
    assert!(next_message(&mut allocation).is_none());
    assert_eq!(
        allocation.poll_timeout(),
        Some(deadline.plus(Duration::from_millis(1_500)))
    );
}

#[test]
fn without_credentials_nothing_signed_is_sent() {
    let start = now();
    let mut allocation = with_binding_response(for_test_ip4(start), peer1(), start);
    let allocate = next_message(&mut allocation).unwrap();
    handle_test_input_ip4(&mut allocation, &unauthorized_response(&allocate, "nonce1"), start);
    let allocate = next_message(&mut allocation).unwrap();
    handle_test_input_ip4(&mut allocation, &unauthorized_response(&allocate, "nonce2"), start);
    assert!(!allocation.has_credentials());

    let later = start.plus(Duration::from_secs(1));
    allocation.bind_channel(peer2_ip4(), later);
    allocation.handle_timeout(later);
    allocation.refresh(later);
    allocation.handle_timeout(later.plus(Duration::from_secs(1)));
    allocation.bind_channel(peer2_ip4(), later.plus(Duration::from_secs(2)));

    let mut sent = 0;
    while let Some(message) = next_message(&mut allocation) {
        sent += 1;
        assert_eq!(message.method(), BINDING);
        assert!(message.get_attribute::<Username>().is_none());
        assert!(message.get_attribute::<Realm>().is_none());
        assert!(message.get_attribute::<Nonce>().is_none());
        assert!(message.get_attribute::<MessageIntegrity>().is_none());
    }
    assert!(sent > 0, "a refresh starts over with unsigned binding requests");
    assert!(!allocation.has_credentials());
}

#[test]
fn requests_after_the_first_answer_go_to_the_active_socket() {
    let start = now();
    let mut allocation = for_test_dual(start);
    let first = allocation.poll_transmit().unwrap();
    let second = allocation.poll_transmit().unwrap();
    assert_eq!(first.dst, SocketAddr::V4(relay_v4()));
    assert_eq!(second.dst, SocketAddr::V6(relay_v6()));
    let binding_v6 = Wire { bytes: second.payload };

    assert!(allocation.handle_input(
        SocketAddr::V6(relay_v6()),
        peer2_ip6(),
        &binding_response(&binding_v6, peer2_ip6()),
        start
    ));

    let allocate = allocation.poll_transmit().unwrap();
    assert_eq!(allocate.dst, SocketAddr::V6(relay_v6()));
    assert_eq!(Wire { bytes: allocate.payload.clone() }.method(), ALLOCATE);
    assert!(allocation.handle_input(
        SocketAddr::V6(relay_v6()),
        peer2_ip6(),
        &allocate_response(&Wire { bytes: allocate.payload }, &[relay_addr_ip4(), relay_addr_ip6()]),
        start
    ));

    allocation.bind_channel(peer2_ip4(), start);
    allocation.refresh(start);
    let mut others = 0;
    while let Some(transmit) = allocation.poll_transmit() {
        others += 1;
        assert_eq!(transmit.dst, SocketAddr::V6(relay_v6()));
    }
    assert_eq!(others, 2);
}

#[test]
fn timeout_sends_again_only_what_is_due() {
    let start = Instant::from_nanos(5_000_000_000);
    let half = Duration::from_millis(500);
    let mut allocation = for_test_dual(start);
    let binding_v4 = Wire {
        bytes: allocation.poll_transmit().unwrap().payload,
    };
    let binding_v6 = allocation.poll_transmit().unwrap();

    // The answer on IPv4 comes half a second in, and the request for an
    // allocation goes out then.
    assert!(handle_test_input_ip4(
        &mut allocation,
        &binding_response(&binding_v4, peer1()),
        start.plus(half)
    ));
    let allocate = allocation.poll_transmit().unwrap();
    assert_eq!(Wire { bytes: allocate.payload.clone() }.method(), ALLOCATE);
    assert_eq!(allocation.poll_timeout(), Some(start.plus(Duration::from_secs(1))));

    // After a second the binding request on IPv6 is due, the request for an
    // allocation is not.
    allocation.handle_timeout(start.plus(Duration::from_secs(1)));
    let again = allocation.poll_transmit().unwrap();
    assert_eq!(again.dst, SocketAddr::V6(relay_v6()));
    assert_eq!(again.payload, binding_v6.payload);
    assert!(allocation.poll_transmit().is_none());
    assert_eq!(
        allocation.poll_timeout(),
        Some(start.plus(Duration::from_millis(1_500)))
    );

    // Half a second later it is.
    allocation.handle_timeout(start.plus(Duration::from_millis(1_500)));
    let again = allocation.poll_transmit().unwrap();
    assert_eq!(again.dst, SocketAddr::V4(relay_v4()));
    assert_eq!(Wire { bytes: again.payload }.method(), ALLOCATE);
    assert!(allocation.poll_transmit().is_none());
}

#[test]
fn session_id_too_long_for_the_codec_sends_nothing() {
    let start = now();
    let session_id = "x".repeat(200);
    let mut allocation = Allocation::new(
        RelaySocket::V4(relay_v4()),
        "foobar".to_owned(),
        "baz".to_owned(),
        "firezone".to_owned(),
        start,
        &session_id,
    );

    assert!(allocation.poll_transmit().is_none());
    assert_eq!(allocation.poll_timeout(), None);
    assert_eq!(allocation.can_be_freed(), Some(FreeReason::NoResponseReceived));

    // A session id that leaves the text under 128 characters goes through.
    let session_id = "x".repeat(110);
    let mut allocation = Allocation::new(
        RelaySocket::V4(relay_v4()),
        "foobar".to_owned(),
        "baz".to_owned(),
        "firezone".to_owned(),
        start,
        &session_id,
    );
    let binding = next_message(&mut allocation).unwrap();
    assert_eq!(
        binding.get_attribute::<Software>().map(|s| s.description().to_owned()),
        Some(format!("snownet; session={session_id}"))
    );
}
