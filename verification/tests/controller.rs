use connlib::controller::{
    connlib_state, disabled_resources, ConnectOutcome, ConnectResult, ConnlibState,
    StartSessionError, Status,
};
use connlib::messages::ResourceView;
use connlib::time::Instant;

fn start() -> Instant {
    Instant::from_nanos(42)
}

fn resources() -> Vec<ResourceView> {
    vec![
        ResourceView {
            id: 1,
            name: "office".to_owned(),
            is_internet_resource: false,
        },
        ResourceView {
            id: 2,
            name: "internet".to_owned(),
            is_internet_resource: true,
        },
    ]
}

fn statuses() -> Vec<Status> {
    vec![
        Status::Disconnected,
        Status::RetryingConnection {
            token: "t".to_owned(),
        },
        Status::Quitting,
        Status::TunnelReady {
            resources: resources(),
        },
        Status::WaitingForPortal {
            start_instant: start(),
            token: "t".to_owned(),
        },
        Status::WaitingForTunnel {
            start_instant: start(),
        },
    ]
}

#[test]
fn network_changes_matter_while_connecting_or_connected() {
    let needs: Vec<bool> = statuses().iter().map(Status::needs_network_changes).collect();

    assert_eq!(needs, vec![false, false, false, true, true, true]);
}

#[test]
fn resource_updates_matter_once_the_portal_is_reached() {
    let needs: Vec<bool> = statuses()
        .iter()
        .map(Status::needs_resource_updates)
        .collect();

    assert_eq!(needs, vec![false, false, false, true, false, true]);
}

#[test]
fn internet_resource_is_found_when_tunnel_is_ready() {
    let ready = Status::TunnelReady {
        resources: resources(),
    };

    assert_eq!(ready.internet_resource().map(|r| r.id), Some(2));
    assert!(Status::Disconnected.internet_resource().is_none());
    assert!(Status::TunnelReady { resources: vec![] }
        .internet_resource()
        .is_none());
}

#[test]
fn session_starts_only_while_there_is_none() {
    let checks: Vec<_> = statuses().iter().map(Status::check_start_session).collect();

    assert_eq!(
        checks,
        vec![
            Ok(()),
            Ok(()),
            Err(StartSessionError::Quitting),
            Err(StartSessionError::AlreadyConnected),
            Err(StartSessionError::AlreadyConnecting),
            Err(StartSessionError::AlreadyConnecting),
        ]
    );
    assert_eq!(
        StartSessionError::Quitting.message(),
        "Can't connect to Firezone, we're quitting"
    );
    assert_eq!(
        StartSessionError::AlreadyConnected.message(),
        "Can't connect to Firezone, we're already connected."
    );
    assert_eq!(
        StartSessionError::AlreadyConnecting.message(),
        "Can't connect to Firezone, we're already connecting."
    );
}

#[test]
fn connect_result_counts_only_while_waiting_for_portal() {
    let mut status = Status::WaitingForPortal {
        start_instant: start(),
        token: "t".to_owned(),
    };
    assert!(matches!(
        status.handle_connect_result(ConnectResult::Connected),
        ConnectOutcome::RaisingTunnel
    ));
    assert!(matches!(status, Status::WaitingForTunnel { start_instant } if start_instant == start()));

    let mut status = Status::WaitingForPortal {
        start_instant: start(),
        token: "t".to_owned(),
    };
    assert!(matches!(
        status.handle_connect_result(ConnectResult::Io("no network".to_owned())),
        ConnectOutcome::WillRetry
    ));
    assert_eq!(status.retry_token(), Some("t".to_owned()));

    let mut status = Status::WaitingForPortal {
        start_instant: start(),
        token: "t".to_owned(),
    };
    assert!(matches!(
        status.handle_connect_result(ConnectResult::Other("boom".to_owned())),
        ConnectOutcome::Failed(e) if e == "boom"
    ));
    assert!(matches!(status, Status::WaitingForPortal { .. }));

    let mut status = Status::Quitting;
    assert!(matches!(
        status.handle_connect_result(ConnectResult::Connected),
        ConnectOutcome::Ignored
    ));
    assert!(matches!(status, Status::Quitting));
    assert_eq!(status.retry_token(), None);
}

#[test]
fn sign_out_disconnects_unless_quitting() {
    let mut status = Status::TunnelReady {
        resources: resources(),
    };
    assert!(status.sign_out());
    assert!(matches!(status, Status::Disconnected));

    let mut status = Status::Quitting;
    assert!(!status.sign_out());
    assert!(matches!(status, Status::Quitting));
}

#[test]
fn tunnel_becomes_ready_from_waiting_for_tunnel() {
    let mut status = Status::WaitingForTunnel {
        start_instant: start(),
    };
    assert!(status.tunnel_ready());
    assert!(matches!(&status, Status::TunnelReady { resources } if resources.is_empty()));
    assert!(!status.tunnel_ready());

    assert!(status.update_resources(resources()));
    assert!(matches!(&status, Status::TunnelReady { resources } if resources.len() == 2));

    let mut status = Status::WaitingForPortal {
        start_instant: start(),
        token: "t".to_owned(),
    };
    assert!(!status.update_resources(resources()));
    assert!(!status.tunnel_ready());
    assert!(matches!(status, Status::WaitingForPortal { .. }));
}

#[test]
fn tray_shows_status_of_signed_in_user() {
    let shown: Vec<ConnlibState> = statuses()
        .iter()
        .map(|s| connlib_state(s, Some("Jane".to_owned()), false))
        .collect();

    assert!(matches!(
        &shown[..],
        [
            ConnlibState::SignedOut,
            ConnlibState::RetryingConnection,
            ConnlibState::Quitting,
            ConnlibState::SignedIn { actor_name, resources },
            ConnlibState::WaitingForPortal,
            ConnlibState::WaitingForTunnel,
        ] if actor_name == "Jane" && resources.len() == 2 && resources[1].name == "internet"
    ));
    assert!(matches!(
        connlib_state(&Status::Disconnected, None, true),
        ConnlibState::WaitingForBrowser
    ));
    assert!(matches!(
        connlib_state(&Status::TunnelReady { resources: vec![] }, None, false),
        ConnlibState::SignedOut
    ));
}

#[test]
fn internet_resource_is_disabled_unless_switched_on() {
    let ready = Status::TunnelReady {
        resources: resources(),
    };

    assert_eq!(disabled_resources(&ready, None), Some(vec![2]));
    assert_eq!(disabled_resources(&ready, Some(false)), Some(vec![2]));
    assert_eq!(disabled_resources(&ready, Some(true)), Some(vec![]));
    assert_eq!(disabled_resources(&Status::Disconnected, Some(false)), None);
}

#[test]
fn sign_in_can_be_cancelled_until_the_tunnel_is_up() {
    let can: Vec<bool> = statuses().iter().map(Status::can_cancel_sign_in).collect();

    assert_eq!(can, vec![true, true, false, false, true, true]);
}
