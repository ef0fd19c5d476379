use connlib::gateway::{id_path, known_firezone_id};
use connlib::gateway_eventloop::{
    handle_connection_request_result, handle_control, handle_ice_candidate_result,
    handle_portal_message, handle_stats_timer, Action, AllowAccess, BroadcastClientIceCandidates,
    ClientIceCandidates, ConnectionRequestOutcome, ConnectionRequestResult, EgressMessages,
    Eventloop, IceCandidateOutcome, IngressMessages, Outcome, Source, Step,
};
use connlib::ip_network::IpNetwork;
use connlib::net::IpAddr;
use connlib::resource::{ResourceDescription, ResourceDescriptionCidr};

fn resource() -> ResourceDescription {
    ResourceDescription::Cidr(ResourceDescriptionCidr {
        id: 7,
        address: IpNetwork::new(IpAddr::v4(10, 0, 0, 0), 8).unwrap(),
        name: "office".to_owned(),
    })
}

#[test]
fn sources_are_asked_in_order() {
    let mut eventloop = Eventloop::new();

    assert_eq!(eventloop.asking(), Source::Control);
    assert_eq!(eventloop.poll(Outcome::Pending), Step::Ask(Source::ConnectionRequests));
    assert_eq!(eventloop.poll(Outcome::Pending), Step::Ask(Source::IceCandidates));
    assert_eq!(eventloop.poll(Outcome::Pending), Step::Ask(Source::Portal));
    assert_eq!(eventloop.poll(Outcome::Pending), Step::Ask(Source::StatsTimer));
    assert_eq!(eventloop.poll(Outcome::Pending), Step::Yield);
    assert_eq!(eventloop.asking(), Source::Control);
}

#[test]
fn whatever_is_handled_starts_the_loop_over() {
    for skipped in 0..5 {
        let mut eventloop = Eventloop::new();
        for _ in 0..skipped {
            assert!(matches!(eventloop.poll(Outcome::Pending), Step::Ask(_)));
        }

        assert_eq!(eventloop.poll(Outcome::Ready), Step::Handle);
        assert_eq!(eventloop.asking(), Source::Control);
    }
}

#[test]
fn ended_queue_and_foreign_portal_events_are_passed_over() {
    let mut eventloop = Eventloop::new();

    assert_eq!(eventloop.poll(Outcome::Ignored), Step::Ask(Source::ConnectionRequests));
    assert_eq!(eventloop.poll(Outcome::Pending), Step::Ask(Source::IceCandidates));
    assert_eq!(eventloop.poll(Outcome::Pending), Step::Ask(Source::Portal));
    assert_eq!(eventloop.poll(Outcome::Ignored), Step::Ask(Source::StatsTimer));
}

#[test]
fn portal_failure_ends_the_loop() {
    let mut eventloop = Eventloop::new();
    eventloop.poll(Outcome::Pending);
    eventloop.poll(Outcome::Pending);
    eventloop.poll(Outcome::Pending);

    assert_eq!(eventloop.poll(Outcome::Failed), Step::Finish);
}

#[test]
fn own_candidates_go_to_the_portal() {
    let actions = handle_control::<String>(BroadcastClientIceCandidates {
        client_ids: vec![1],
        candidates: vec!["a".to_owned()],
    });

    assert!(matches!(
        &actions[..],
        [Action::Send(EgressMessages::BroadcastIceCandidates(c))] if c.client_ids == vec![1]
    ));
}

#[test]
fn connection_request_results_are_reported() {
    let established = handle_connection_request_result::<String>(ConnectionRequestResult {
        client: 1,
        reference: "ref".to_owned(),
        outcome: ConnectionRequestOutcome::Established("sdp".to_owned()),
    });
    assert!(matches!(
        &established[..],
        [Action::Send(EgressMessages::ConnectionReady(ready))]
            if ready.reference == "ref" && ready.gateway_rtc_session_description == "sdp"
    ));

    let failed = handle_connection_request_result(ConnectionRequestResult {
        client: 1,
        reference: "ref".to_owned(),
        outcome: ConnectionRequestOutcome::Failed("boom".to_owned()),
    });
    assert!(matches!(
        &failed[..],
        [Action::CleanupConnection(1), Action::OnError(e)] if e == "boom"
    ));

    let timed_out = handle_connection_request_result::<String>(ConnectionRequestResult {
        client: 1,
        reference: "ref".to_owned(),
        outcome: ConnectionRequestOutcome::TimedOut,
    });
    assert!(timed_out.is_empty());
}

#[test]
fn failed_candidates_are_reported() {
    assert!(handle_ice_candidate_result::<String>(IceCandidateOutcome::Added).is_empty());
    assert!(handle_ice_candidate_result::<String>(IceCandidateOutcome::TimedOut).is_empty());
    assert!(matches!(
        &handle_ice_candidate_result(IceCandidateOutcome::Failed("boom".to_owned()))[..],
        [Action::OnError(e)] if e == "boom"
    ));
}

#[test]
fn portal_messages_become_actions() {
    let allowed = handle_portal_message::<String>(IngressMessages::AllowAccess(AllowAccess {
        client_id: 1,
        resource: resource(),
        expires_at: Some(5),
    }));
    assert!(matches!(
        &allowed[..],
        [Action::AllowAccess(a)] if a.client_id == 1 && a.expires_at == Some(5) && a.resource.id() == 7
    ));

    let candidates = handle_portal_message::<String>(IngressMessages::IceCandidates(
        ClientIceCandidates {
            client_id: 1,
            candidates: vec!["a".to_owned(), "b".to_owned()],
        },
    ));
    assert!(matches!(
        &candidates[..],
        [
            Action::StartAddIceCandidate { client_id: 1, candidate: a },
            Action::StartAddIceCandidate { client_id: 1, candidate: b },
        ] if a == "a" && b == "b"
    ));

    assert!(matches!(
        &handle_stats_timer::<String>()[..],
        [Action::PrintStats]
    ));
}

#[test]
fn firezone_id_comes_from_environment_then_disk() {
    let env = Some("from-env".to_owned());
    let disk = Some("from-disk".to_owned());

    assert_eq!(known_firezone_id(env.clone(), disk.clone()), env);
    assert_eq!(known_firezone_id(Some(String::new()), disk.clone()), disk);
    assert_eq!(known_firezone_id(None, disk.clone()), disk);
    assert_eq!(known_firezone_id(None, Some(String::new())), None);
    assert_eq!(known_firezone_id(None, None), None);
}

#[test]
fn gateway_id_is_kept_under_var_lib() {
    assert_eq!(id_path(), "/var/lib/firezone/gateway_id");
}
