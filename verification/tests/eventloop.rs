use connlib::eventloop::{
    handle_command, handle_portal_error_reply, handle_portal_event, handle_portal_inbound_message,
    handle_portal_success_reply, handle_routing_details_result, handle_tunnel_event, is_stop,
    Action, Command, Eventloop, Outcome, PortalEvent, RoutingDetailsResult, Source, Step,
};
use connlib::ip_network::IpNetwork;
use connlib::messages::{
    ClientEvent, Connect, ConnectionDetails, EgressMessages, ErrorReply, GatewayIceCandidates,
    GatewayResponse, IceParameters, IngressMessages, InitClient, Interface, Relay, RelaysPresence,
    ReplyMessages, TunConfig,
};
use connlib::net::{IpAddr, SocketAddr, SocketAddrV4};
use connlib::relay_socket::RelaySocket;

fn interface() -> Interface {
    Interface {
        ipv4: 0x6440_0001,
        ipv6: 0xfd00_2021_1111_0000_0000_0000_0000_0001,
        upstream_dns: vec![],
    }
}

fn relay(id: u128) -> Relay {
    Relay {
        id,
        socket: RelaySocket::V4(SocketAddrV4::new(0x7f00_0001, 3478)),
        username: "u".to_owned(),
        password: "p".to_owned(),
        realm: "firezone".to_owned(),
    }
}

#[test]
fn commands_preempt_tunnel_and_portal() {
    let (mut eventloop, first) = Eventloop::new::<()>();
    assert!(matches!(first[..], [Action::ConnectPortal]));
    assert_eq!(eventloop.asking(), Source::Commands);

    // A command is acted on, and the commands are asked again.
    assert_eq!(eventloop.poll(Outcome::Ready), Step::Handle);
    assert_eq!(eventloop.asking(), Source::Commands);

    // Only when the commands have nothing is the tunnel asked.
    assert_eq!(eventloop.poll(Outcome::Pending), Step::Ask(Source::Tunnel));
    assert_eq!(eventloop.poll(Outcome::Ready), Step::Handle);
    assert_eq!(eventloop.asking(), Source::Commands);

    // Only when the tunnel has nothing either is the portal asked.
    assert_eq!(eventloop.poll(Outcome::Pending), Step::Ask(Source::Tunnel));
    assert_eq!(eventloop.poll(Outcome::Pending), Step::Ask(Source::Portal));
    assert_eq!(eventloop.poll(Outcome::Ready), Step::Handle);
    assert_eq!(eventloop.asking(), Source::Commands);

    // The loop rests only when all three have nothing.
    assert_eq!(eventloop.poll(Outcome::Pending), Step::Ask(Source::Tunnel));
    assert_eq!(eventloop.poll(Outcome::Pending), Step::Ask(Source::Portal));
    assert_eq!(eventloop.poll(Outcome::Pending), Step::Yield);
    assert_eq!(eventloop.asking(), Source::Commands);
}

#[test]
fn tunnel_errors_start_the_loop_over() {
    let (mut eventloop, _) = Eventloop::new::<()>();

    assert_eq!(eventloop.poll(Outcome::Pending), Step::Ask(Source::Tunnel));
    assert_eq!(eventloop.poll(Outcome::Failed), Step::Ask(Source::Commands));
    assert_eq!(eventloop.asking(), Source::Commands);
}

#[test]
fn stop_or_dropped_queue_or_portal_error_end_the_loop() {
    let (mut eventloop, _) = Eventloop::new::<()>();
    assert_eq!(eventloop.poll(Outcome::Closed), Step::Finish);

    let (mut eventloop, _) = Eventloop::new::<()>();
    assert_eq!(eventloop.poll(Outcome::Pending), Step::Ask(Source::Tunnel));
    assert_eq!(eventloop.poll(Outcome::Pending), Step::Ask(Source::Portal));
    assert_eq!(eventloop.poll(Outcome::Failed), Step::Finish);

    assert!(is_stop(&Command::<()>::Stop));
    assert!(!is_stop(&Command::<()>::Reset));
    assert!(handle_command(Command::<()>::Stop).is_empty());
}

#[test]
fn commands_become_actions() {
    assert!(matches!(
        handle_command(Command::<()>::Reset)[..],
        [Action::ResetTunnel, Action::ConnectPortal]
    ));
    let dns = vec![IpAddr::v4(1, 1, 1, 1)];
    assert!(matches!(
        &handle_command(Command::<()>::SetDns(dns.clone()))[..],
        [Action::UpdateSystemResolvers(d)] if *d == dns
    ));
    assert!(matches!(
        &handle_command(Command::SetTun("tun0"))[..],
        [Action::SetTun("tun0")]
    ));
    assert!(matches!(
        &handle_command(Command::<()>::SetDisabledResources(vec![7]))[..],
        [Action::SetDisabledResources(d)] if *d == vec![7]
    ));
}

#[test]
fn tunnel_events_become_portal_messages() {
    let actions = handle_tunnel_event::<()>(ClientEvent::AddedIceCandidates {
        conn_id: 5,
        candidates: vec!["a".to_owned(), "b".to_owned()],
    });
    let [Action::Send(EgressMessages::BroadcastIceCandidates(sent))] = &actions[..] else {
        panic!("unexpected {}", actions.len())
    };
    assert_eq!(sent.gateway_ids, vec![5]);
    assert_eq!(sent.candidates, vec!["a".to_owned(), "b".to_owned()]);

    let actions = handle_tunnel_event::<()>(ClientEvent::RemovedIceCandidates {
        conn_id: 5,
        candidates: vec!["a".to_owned()],
    });
    assert!(matches!(
        &actions[..],
        [Action::Send(EgressMessages::BroadcastInvalidatedIceCandidates(sent))] if sent.gateway_ids == vec![5]
    ));

    let actions = handle_tunnel_event::<()>(ClientEvent::ConnectionIntent {
        resource: 9,
        connected_gateway_ids: vec![1, 2],
    });
    assert!(matches!(
        &actions[..],
        [Action::Send(EgressMessages::PrepareConnection { resource_id: 9, connected_gateway_ids })]
            if *connected_gateway_ids == vec![1, 2]
    ));

    let actions = handle_tunnel_event::<()>(ClientEvent::RequestAccess {
        resource_id: 9,
        gateway_id: 3,
        maybe_domain: Some("example.com".to_owned()),
    });
    assert!(matches!(
        &actions[..],
        [Action::Send(EgressMessages::ReuseConnection(r))]
            if r.resource_id == 9 && r.gateway_id == 3 && r.payload.as_deref() == Some("example.com")
    ));

    let actions = handle_tunnel_event::<()>(ClientEvent::RequestConnection {
        gateway_id: 3,
        offer: IceParameters {
            username: "u".to_owned(),
            password: "p".to_owned(),
        },
        preshared_key: [4; 32],
        resource_id: 9,
        maybe_domain: None,
    });
    assert!(matches!(
        &actions[..],
        [Action::Send(EgressMessages::RequestConnection(r))]
            if r.gateway_id == 3
                && r.resource_id == 9
                && r.client_preshared_key == [4; 32]
                && r.client_payload.ice_parameters.username == "u"
                && r.client_payload.domain.is_none()
    ));
}

#[test]
fn interface_update_calls_back_with_sentinels_and_routes() {
    let route4 = IpNetwork::new(IpAddr::v4(100, 64, 0, 0), 11).unwrap();
    let route6 = IpNetwork::new(IpAddr::V6(0xfd00_2021_1111 << 80), 48).unwrap();
    let upstream = SocketAddr::new(IpAddr::v4(8, 8, 8, 8), 53);
    let config = TunConfig {
        ip4: 1,
        ip6: 2,
        dns_by_sentinel: vec![
            (IpAddr::v4(100, 100, 111, 1), upstream),
            (IpAddr::v4(100, 100, 111, 2), upstream),
        ],
        ipv4_routes: vec![route4],
        ipv6_routes: vec![route6],
    };

    let actions = handle_tunnel_event::<()>(ClientEvent::TunInterfaceUpdated(config));

    assert!(matches!(
        &actions[..],
        [
            Action::OnSetInterfaceConfig { ipv4: 1, ipv6: 2, dns_servers },
            Action::OnUpdateRoutes { ipv4_routes, ipv6_routes },
        ] if *dns_servers == vec![IpAddr::v4(100, 100, 111, 1), IpAddr::v4(100, 100, 111, 2)]
            && *ipv4_routes == vec![route4]
            && *ipv6_routes == vec![route6]
    ));
}

#[test]
fn init_sets_interface_resources_and_relays_in_order() {
    let actions = handle_portal_inbound_message::<()>(IngressMessages::Init(InitClient {
        interface: interface(),
        resources: vec![],
        relays: vec![relay(1), relay(2)],
    }));

    assert!(matches!(
        &actions[..],
        [
            Action::UpdateInterfaceConfig(_),
            Action::SetResources(_),
            Action::UpdateRelays { disconnected, connected },
        ] if disconnected.is_empty() && connected.len() == 2 && connected[1].id == 2
    ));
}

#[test]
fn candidates_from_portal_are_added_one_by_one() {
    let candidates = vec!["a".to_owned(), "b".to_owned(), "c".to_owned()];

    let added = handle_portal_inbound_message::<()>(IngressMessages::IceCandidates(
        GatewayIceCandidates {
            gateway_id: 4,
            candidates: candidates.clone(),
        },
    ));
    assert_eq!(added.len(), 3);
    for (action, expected) in added.iter().zip(&candidates) {
        assert!(matches!(
            action,
            Action::AddIceCandidate { gateway_id: 4, candidate } if candidate == expected
        ));
    }

    let removed = handle_portal_inbound_message::<()>(IngressMessages::InvalidateIceCandidates(
        GatewayIceCandidates {
            gateway_id: 4,
            candidates,
        },
    ));
    assert!(matches!(
        &removed[..],
        [
            Action::RemoveIceCandidate { gateway_id: 4, .. },
            Action::RemoveIceCandidate { gateway_id: 4, .. },
            Action::RemoveIceCandidate { gateway_id: 4, candidate },
        ] if candidate == "c"
    ));
}

#[test]
fn other_portal_messages_change_one_thing() {
    assert!(matches!(
        &handle_portal_inbound_message::<()>(IngressMessages::ConfigChanged(interface()))[..],
        [Action::UpdateInterfaceConfig(i)] if i.ipv4 == 0x6440_0001
    ));
    assert!(matches!(
        &handle_portal_inbound_message::<()>(IngressMessages::ResourceDeleted(3))[..],
        [Action::RemoveResource(3)]
    ));
    assert!(matches!(
        &handle_portal_inbound_message::<()>(IngressMessages::RelaysPresence(RelaysPresence {
            disconnected_ids: vec![1],
            connected: vec![relay(2)],
        }))[..],
        [Action::UpdateRelays { disconnected, connected }] if *disconnected == vec![1] && connected[0].id == 2
    ));
}

#[test]
fn replies_reach_the_tunnel() {
    let accepted = ReplyMessages::Connect(Connect {
        gateway_payload: GatewayResponse::ConnectionAccepted {
            ice_parameters: IceParameters {
                username: "u".to_owned(),
                password: "p".to_owned(),
            },
        },
        resource_id: 9,
        gateway_public_key: [7; 32],
    });
    assert!(matches!(
        &handle_portal_success_reply::<()>(accepted)[..],
        [Action::AcceptAnswer { resource_id: 9, gateway_public_key, ice_parameters }]
            if *gateway_public_key == [7; 32] && ice_parameters.password == "p"
    ));

    let deprecated = ReplyMessages::Connect(Connect {
        gateway_payload: GatewayResponse::ResourceAccepted,
        resource_id: 9,
        gateway_public_key: [7; 32],
    });
    assert!(handle_portal_success_reply::<()>(deprecated).is_empty());

    let details = ReplyMessages::ConnectionDetails(ConnectionDetails {
        resource_id: 9,
        gateway_id: 3,
        site_id: 5,
    });
    assert!(matches!(
        &handle_portal_success_reply::<()>(details)[..],
        [Action::OnRoutingDetails { resource_id: 9, gateway_id: 3, site_id: 5 }]
    ));
}

#[test]
fn missing_turn_servers_reconnect_to_portal() {
    assert!(matches!(
        &handle_routing_details_result::<()>(RoutingDetailsResult::NoTurnServers)[..],
        [Action::ConnectPortal]
    ));
    assert!(handle_routing_details_result::<()>(RoutingDetailsResult::Accepted).is_empty());
    assert!(handle_routing_details_result::<()>(RoutingDetailsResult::Failed).is_empty());
}

#[test]
fn unmatched_topic_is_joined_again() {
    assert!(matches!(
        &handle_portal_error_reply::<()>(ErrorReply::UnmatchedTopic, "client".to_owned())[..],
        [Action::JoinTopic(topic)] if topic == "client"
    ));
    for reply in [
        ErrorReply::Offline,
        ErrorReply::Disabled,
        ErrorReply::InvalidVersion,
        ErrorReply::NotFound,
        ErrorReply::Other,
    ] {
        assert!(handle_portal_error_reply::<()>(reply, "client".to_owned()).is_empty());
    }
}

#[test]
fn portal_events_are_told_apart() {
    assert!(handle_portal_event::<()>(PortalEvent::HeartbeatSent).is_empty());
    assert!(handle_portal_event::<()>(PortalEvent::JoinedRoom).is_empty());
    assert!(handle_portal_event::<()>(PortalEvent::Closed).is_empty());
    assert!(matches!(
        &handle_portal_event::<()>(PortalEvent::InboundMessage(IngressMessages::ResourceDeleted(1)))[..],
        [Action::RemoveResource(1)]
    ));
    assert!(matches!(
        &handle_portal_event::<()>(PortalEvent::ErrorResponse {
            res: ErrorReply::UnmatchedTopic,
            topic: "client".to_owned(),
        })[..],
        [Action::JoinTopic(_)]
    ));
}
