use connlib::headless;
use connlib::headless::{Family, ServiceControl, ServiceControlResponse, ServiceRunOutcome};
use connlib::ip_network::IpNetwork;
use connlib::net::IpAddr;

#[test]
fn named_pipe_path() {
    assert_eq!(
        headless::named_pipe_path("dev.firezone.client"),
        r"\\.\pipe\dev.firezone.client"
    );
}

#[test]
fn pipe_path_names_the_ipc_service() {
    assert_eq!(headless::pipe_path(), r"\\.\pipe\dev.firezone.client.ipc_service");
}

#[test]
fn default_token_path_is_relative() {
    assert_eq!(headless::default_token_path(), "token.txt");
}

#[test]
fn nrpt_paths_use_backslashes() {
    assert_eq!(
        headless::local_nrpt_path(),
        "SYSTEM\\CurrentControlSet\\Services\\Dnscache\\Parameters\\DnsPolicyConfig"
    );
    assert_eq!(
        headless::group_nrpt_path(),
        "SOFTWARE\\Policies\\Microsoft\\Windows NT\\DNSClient\\DnsPolicyConfig"
    );
}

#[test]
fn token_permissions_always_pass() {
    assert_eq!(headless::check_token_permissions("token.txt"), Ok(()));
}

#[test]
fn bogus_ipv6_resolvers_are_filtered_out() {
    let resolvers = vec![
        IpAddr::v4(1, 1, 1, 1),
        IpAddr::V6(0xfec0_0000_0000_ffff_0000_0000_0000_0001),
        IpAddr::V6(0x2606_4700_4700_0000_0000_0000_0000_1111),
        IpAddr::V6(0xfec1_0000_0000_0000_0000_0000_0000_0001),
    ];

    assert_eq!(
        headless::system_resolvers(&resolvers),
        vec![resolvers[0], resolvers[2], resolvers[3]]
    );
}

#[test]
fn nameservers_are_joined_with_semicolons() {

    let dns_config = vec![
        IpAddr::v4(100, 100, 111, 1),
        IpAddr::V6(0xfd00_2021_1111_8000_0100_0100_0111_0003),
        IpAddr::v4(100, 100, 111, 2),
        IpAddr::V6(1),
    ];

    assert_eq!(
        headless::nameservers(&dns_config, Family::V4),
        "100.100.111.1;100.100.111.2"
    );
    assert_eq!(
        headless::nameservers(&dns_config, Family::V6),
        "fd00:2021:1111:8000:100:100:111:3;::1"
    );
    assert_eq!(
        headless::nameservers(&dns_config, Family::Any),
        "100.100.111.1;fd00:2021:1111:8000:100:100:111:3;100.100.111.2;::1"
    );
    assert_eq!(headless::nameservers(&Vec::new(), Family::Any), "");
}

#[test]
fn route_changes_are_the_differences() {

    let a = IpNetwork::new(IpAddr::v4(10, 0, 0, 0), 8).unwrap();
    let b = IpNetwork::new(IpAddr::v4(11, 0, 0, 0), 8).unwrap();
    let c = IpNetwork::new(IpAddr::V6(0), 0).unwrap();
    let old = vec![a, b];
    let new = vec![b, c];

    assert_eq!(headless::routes_missing_from(&new, &old), vec![c]);
    assert_eq!(headless::routes_missing_from(&old, &new), vec![a]);
    assert!(headless::routes_missing_from(&old, &old).is_empty());
}

#[test]
fn service_shuts_down_on_stop_and_shutdown() {
    let stop = ServiceControlResponse {
        handled: true,
        shut_down: true,
    };
    let noted = ServiceControlResponse {
        handled: true,
        shut_down: false,
    };
    let not_implemented = ServiceControlResponse {
        handled: false,
        shut_down: false,
    };

    assert_eq!(headless::handle_service_control(ServiceControl::Stop), stop);
    assert_eq!(headless::handle_service_control(ServiceControl::Shutdown), stop);
    assert_eq!(headless::handle_service_control(ServiceControl::Interrogate), noted);
    assert_eq!(headless::handle_service_control(ServiceControl::PowerEvent), noted);
    assert_eq!(headless::handle_service_control(ServiceControl::UserEvent), noted);
    assert_eq!(headless::handle_service_control(ServiceControl::Pause), not_implemented);
    assert_eq!(headless::handle_service_control(ServiceControl::Unknown), not_implemented);

    assert_eq!(headless::service_exit_code(ServiceRunOutcome::ShutdownRequested), 0);
    assert_eq!(headless::service_exit_code(ServiceRunOutcome::ListenerFailed), 1);
    assert_eq!(headless::service_exit_code(ServiceRunOutcome::ListenerReturned), 1);
    assert_eq!(headless::service_exit_code(ServiceRunOutcome::ShutdownChannelFailed), 1);
}
