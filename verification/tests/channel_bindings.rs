use connlib::channel_bindings::{Channel, ChannelBindings, FIRST_CHANNEL, LAST_CHANNEL};
use connlib::channel_data;
use connlib::net::{IpAddr, SocketAddr};
use connlib::time::{Duration, Instant};

fn peer1() -> SocketAddr {
    SocketAddr::new(IpAddr::v4(127, 0, 0, 1), 10000)
}

fn now() -> Instant {
    let since_epoch = std::time::SystemTime::now()
        .duration_since(std::time::UNIX_EPOCH)
        .unwrap();
    Instant::from_nanos(since_epoch.as_nanos() as u64)
}

fn minutes(n: u64) -> Duration {
    Duration::from_secs(60 * n)
}

fn channel_lifetime() -> Duration {
    Duration::from_secs(10 * 60)
}

fn channel_rebind_timeout() -> Duration {
    Duration::from_secs(5 * 60)
}

fn ch(peer: SocketAddr, now: Instant) -> Channel {
    Channel {
        peer,
        bound: true,
        bound_at: now,
        last_received: now,
    }
}

#[test]
fn returns_first_available_channel() {
    let mut channel_bindings = ChannelBindings::new();

    let channel = channel_bindings.new_channel_to_peer(peer1(), now()).unwrap();

    assert_eq!(channel, FIRST_CHANNEL);
}

#[test]
fn recycles_channels_in_case_they_are_not_in_use() {
    let mut channel_bindings = ChannelBindings::new();
    let start = now();

    for channel in FIRST_CHANNEL..=LAST_CHANNEL {
        let allocated_channel = channel_bindings.new_channel_to_peer(peer1(), start).unwrap();

        assert_eq!(channel, allocated_channel)
    }

    let maybe_channel = channel_bindings.new_channel_to_peer(peer1(), start);
    assert!(maybe_channel.is_none());

    let channel = channel_bindings
        .new_channel_to_peer(
            peer1(),
            start.plus(channel_lifetime()).plus(channel_rebind_timeout()),
        )
        .unwrap();
    assert_eq!(channel, FIRST_CHANNEL);
}

#[test]
fn uses_unused_channels_first_before_reusing_expired_one() {
    let mut channel_bindings = ChannelBindings::new();
    let mut now = now();

    for n in 0..100 {
        let allocated_channel = channel_bindings
            .new_channel_to_peer(SocketAddr::new(peer1().ip(), peer1().port() + n), now)
            .unwrap();
        channel_bindings.set_confirmed(allocated_channel, now);
    }

    now = now.plus(Duration::from_secs(60 * 20)); // All channels are expired and could be re-bound.

    let channel = channel_bindings.new_channel_to_peer(peer1(), now).unwrap();

    assert_eq!(channel, FIRST_CHANNEL + 100)
}

#[test]
fn uses_next_channel_as_long_as_its_available_before_reusing() {
    let mut channel_bindings = ChannelBindings::new();
    let mut now = now();

    for n in 0..=4095 {
        let allocated_channel = channel_bindings
            .new_channel_to_peer(SocketAddr::new(peer1().ip(), peer1().port() + n), now)
            .unwrap();
        channel_bindings.set_confirmed(allocated_channel, now);
    }

    now = now.plus(Duration::from_secs(15 * 60)); // All channels are expired and could be re-bound.
    channel_bindings.set_confirmed(LAST_CHANNEL, now); // Last channel is in use

    let channel = channel_bindings.new_channel_to_peer(peer1(), now).unwrap();
    channel_bindings.set_confirmed(channel, now);

    assert_eq!(channel, FIRST_CHANNEL);

    now = now.plus(Duration::from_secs(15 * 60)); // All channels are expired and could be re-bound.
    channel_bindings.set_confirmed(LAST_CHANNEL, now); // Last channel is in use
    let channel = channel_bindings.new_channel_to_peer(peer1(), now).unwrap();

    // We don't reuse the first channel, instead we should prefer the second channel
    assert_ne!(channel, FIRST_CHANNEL)
}

#[test]
fn bound_channel_can_decode_data() {
    let mut channel_bindings = ChannelBindings::new();
    let start = now();

    let channel = channel_bindings.new_channel_to_peer(peer1(), start).unwrap();
    channel_bindings.set_confirmed(channel, start.plus(Duration::from_secs(1)));

    let packet = channel_data::encode(channel, b"foobar");
    let (peer, payload) = channel_bindings
        .try_decode(&packet, start.plus(Duration::from_secs(2)))
        .unwrap();

    assert_eq!(peer, peer1());
    assert_eq!(payload, b"foobar");
}

#[test]
fn channel_with_activity_is_refreshed() {
    let mut channel_bindings = ChannelBindings::new();
    let start = now();

    let channel = channel_bindings.new_channel_to_peer(peer1(), start).unwrap();
    channel_bindings.set_confirmed(channel, start.plus(Duration::from_secs(1)));

    let packet = channel_data::encode(channel, b"foobar");
    channel_bindings
        .try_decode(&packet, start.plus(Duration::from_secs(2)))
        .unwrap();

    let not_inflight = Vec::new();
    let (channel_to_refresh, _) = channel_bindings
        .channels_to_refresh(start.plus(minutes(6)), &not_inflight)
        .into_iter()
        .next()
        .unwrap();

    assert_eq!(channel_to_refresh, channel);

    let inflight = (FIRST_CHANNEL..=LAST_CHANNEL).collect::<Vec<_>>();
    let maybe_refresh = channel_bindings
        .channels_to_refresh(start.plus(minutes(6)), &inflight)
        .into_iter()
        .next();

    assert!(maybe_refresh.is_none())
}

#[test]
fn channel_without_activity_is_not_refreshed() {
    let mut channel_bindings = ChannelBindings::new();
    let start = now();

    let channel = channel_bindings.new_channel_to_peer(peer1(), start).unwrap();
    channel_bindings.set_confirmed(channel, start.plus(Duration::from_secs(1)));

    let maybe_refresh = channel_bindings
        .channels_to_refresh(start.plus(minutes(6)), &Vec::new())
        .into_iter()
        .next();

    assert!(maybe_refresh.is_none())
}

#[test]
fn when_in_cooldown_reuses_same_channel_for_peer() {
    let twelve = minutes(10).plus(minutes(2));

    let mut channel_bindings = ChannelBindings::new();
    let start = now();

    let channel = channel_bindings.new_channel_to_peer(peer1(), start).unwrap();
    channel_bindings.set_confirmed(channel, start.plus(Duration::from_secs(1)));

    let second_channel = channel_bindings
        .new_channel_to_peer(peer1(), start.plus(twelve))
        .unwrap();

    assert_eq!(second_channel, channel);
}

#[test]
fn channel_that_is_less_than_5_min_old_should_not_be_refreshed() {
    let now = now();
    let channel = ch(peer1(), now);

    let four_minutes_later = now.plus(minutes(4));
    let needs_refresh = channel.needs_refresh(four_minutes_later);

    assert!(!needs_refresh)
}

#[test]
fn channel_with_received_data_but_less_than_5_min_old_should_not_be_refreshed() {
    let now = now();
    let mut channel = ch(peer1(), now);

    let three_minutes_later = now.plus(minutes(3));
    channel.record_received(three_minutes_later);

    let four_minutes_later = now.plus(minutes(4));
    let needs_refresh = channel.needs_refresh(four_minutes_later);

    assert!(!needs_refresh)
}

#[test]
fn channel_with_no_activity_and_older_than_5_minutes_should_not_be_refreshed() {
    let now = now();
    let channel = ch(peer1(), now);

    let six_minutes_later = now.plus(minutes(6));
    let needs_refresh = channel.needs_refresh(six_minutes_later);

    assert!(!needs_refresh)
}

#[test]
fn channel_with_received_data_and_older_than_5_min_should_be_refreshed() {
    let now = now();
    let mut channel = ch(peer1(), now);

    channel.record_received(now.plus(Duration::from_secs(1)));

    let six_minutes_later = now.plus(minutes(6));
    let needs_refresh = channel.needs_refresh(six_minutes_later);

    assert!(needs_refresh)
}

#[test]
fn when_just_expires_channel_cannot_be_rebound() {
    let now = now();
    let channel = ch(peer1(), now);

    let ten_minutes_one_second = now.plus(minutes(10)).plus(Duration::from_secs(1));
    let can_rebind = channel.can_rebind(ten_minutes_one_second);

    assert!(!can_rebind)
}

#[test]
fn when_just_expires_plus_5_minutes_channel_can_be_rebound() {
    let now = now();
    let channel = ch(peer1(), now);

    let fiveteen_minutes = now.plus(minutes(10)).plus(minutes(5));
    let can_rebind = channel.can_rebind(fiveteen_minutes);

    assert!(can_rebind)
}

#[test]
fn next_channel_wraps_from_last_to_first() {
    let mut channel_bindings = ChannelBindings::new();
    let start = Instant::from_nanos(0);

    for n in 0..=4095 {
        channel_bindings
            .new_channel_to_peer(SocketAddr::new(peer1().ip(), n), start)
            .unwrap();
    }
    channel_bindings.handle_failed_binding(FIRST_CHANNEL);
    channel_bindings.handle_failed_binding(FIRST_CHANNEL + 1);

    let channel = channel_bindings
        .new_channel_to_peer(SocketAddr::new(peer1().ip(), 5000), start)
        .unwrap();

    assert_eq!(channel, FIRST_CHANNEL);
}

#[test]
fn set_confirmed_on_unknown_channel_returns_false() {
    let mut channel_bindings = ChannelBindings::new();

    assert!(!channel_bindings.set_confirmed(FIRST_CHANNEL, Instant::from_nanos(0)));
    assert!(!channel_bindings.set_confirmed(0x1234, Instant::from_nanos(0)));
}

#[test]
fn unconfirmed_channel_drops_data() {
    let mut channel_bindings = ChannelBindings::new();
    let start = Instant::from_nanos(0);

    let channel = channel_bindings.new_channel_to_peer(peer1(), start).unwrap();
    let packet = channel_data::encode(channel, b"foobar");

    assert!(channel_bindings.try_decode(&packet, start).is_none());
    assert!(channel_bindings
        .try_decode(&channel_data::encode(channel + 1, b"foobar"), start)
        .is_none());
    assert!(channel_bindings.try_decode(&[0x40], start).is_none());
}

#[test]
fn connected_channel_is_confirmed_and_younger_than_ten_minutes() {
    let mut channel_bindings = ChannelBindings::new();
    let start = Instant::from_nanos(0);

    let channel = channel_bindings.new_channel_to_peer(peer1(), start).unwrap();
    assert_eq!(channel_bindings.connected_channel_to_peer(peer1(), start), None);

    channel_bindings.set_confirmed(channel, start);
    let just_before = Instant::from_nanos(600_000_000_000 - 1);
    let at_lifetime = Instant::from_nanos(600_000_000_000);

    assert_eq!(
        channel_bindings.connected_channel_to_peer(peer1(), just_before),
        Some(channel)
    );
    assert_eq!(channel_bindings.connected_channel_to_peer(peer1(), at_lifetime), None);
    assert_eq!(
        channel_bindings.bound_channel_to_peer(peer1(), at_lifetime),
        Some(channel)
    );
    assert_eq!(
        channel_bindings.bound_channel_to_peer(peer1(), Instant::from_nanos(900_000_000_000)),
        None
    );
}

#[test]
fn channel_with_activity_is_not_handed_to_another_peer() {
    let mut channel_bindings = ChannelBindings::new();
    let start = Instant::from_nanos(0);
    let other = SocketAddr::new(peer1().ip(), 20000);

    for n in 0..=4095 {
        let channel = channel_bindings
            .new_channel_to_peer(SocketAddr::new(peer1().ip(), n), start)
            .unwrap();
        channel_bindings.set_confirmed(channel, start);
    }
    let packet = channel_data::encode(FIRST_CHANNEL, b"x");
    channel_bindings
        .try_decode(&packet, Instant::from_nanos(1))
        .unwrap();

    let later = Instant::from_nanos(900_000_000_000);
    let channel = channel_bindings.new_channel_to_peer(other, later).unwrap();

    assert_eq!(channel, FIRST_CHANNEL + 1);
}

#[test]
fn clear_removes_all_channels() {
    let mut channel_bindings = ChannelBindings::new();
    let start = Instant::from_nanos(0);

    let channel = channel_bindings.new_channel_to_peer(peer1(), start).unwrap();
    channel_bindings.set_confirmed(channel, start);
    channel_bindings.clear();

    assert_eq!(channel_bindings.get(channel), None);
    assert_eq!(channel_bindings.connected_channel_to_peer(peer1(), start), None);
}
