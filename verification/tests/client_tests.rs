use rengarde::client::service::Service;
use rengarde::client::types::{validate_settings, ClientSettings, Settings};
use rengarde::net::{choose_destination, IpAddress, Ipv4Address, NetInterface, SockAddr};

fn v4(a: u8, b: u8, c: u8, d: u8) -> IpAddress {
    IpAddress::V4(Ipv4Address { a, b, c, d })
}

fn iface(name: &str, addrs: Vec<IpAddress>) -> NetInterface {
    NetInterface { name: String::from(name), addrs }
}

fn settings(excluded: Vec<&str>) -> ClientSettings {
    ClientSettings {
        description: None,
        listen_addr: String::from("127.0.0.1:51820"),
        dst_addr: String::from("198.51.100.1:9000"),
        write_timeout: Some(0),
        excluded_interfaces: excluded.into_iter().map(String::from).collect(),
        web_manager: None,
    }
}

fn server_dst() -> SockAddr {
    SockAddr { ip: v4(198, 51, 100, 1), port: 9000 }
}

/// Runs one poll against the service: drops what the poll decides to
/// drop, then creates a path for every candidate, as if every DNS
/// resolution returned the server address.
fn run_poll(svc: &mut Service, ifaces: &Vec<NetInterface>, now_ms: u64) {
    let drops = svc.poll_drop_list(ifaces);
    svc.remove_paths(&drops);
    for (name, ip) in svc.creation_candidates(ifaces) {
        if !svc.has_path(&name) {
            svc.add_path(name, ip, server_dst(), now_ms);
        }
    }
}

#[test]
fn new_service_is_empty() {
    let svc = Service::new(settings(vec![]));
    assert!(!svc.has_path(&String::from("eth0")));
    assert!(svc.fanout_targets().is_empty());
}

#[test]
fn fanout_with_two_interfaces() {
    let mut svc = Service::new(settings(vec![]));
    let ifaces = vec![
        iface("eth0", vec![v4(10, 0, 0, 5)]),
        iface("wlan0", vec![v4(192, 168, 1, 7)]),
    ];
    run_poll(&mut svc, &ifaces, 0);
    assert!(svc.has_path(&String::from("eth0")));
    assert!(svc.has_path(&String::from("wlan0")));
    let mut targets = svc.fanout_targets();
    assert_eq!(targets.len(), 2);
    targets.sort_by(|x, y| x.0.cmp(&y.0));
    assert_eq!(targets[0].0, "eth0");
    assert_eq!(targets[1].0, "wlan0");
    assert_eq!(targets[0].1, server_dst());
    assert_eq!(targets[1].1, server_dst());
}

#[test]
fn interface_disappearing_drops_its_path() {
    let mut svc = Service::new(settings(vec![]));
    let both = vec![
        iface("eth0", vec![v4(10, 0, 0, 5)]),
        iface("wlan0", vec![v4(192, 168, 1, 7)]),
    ];
    run_poll(&mut svc, &both, 0);
    assert_eq!(svc.fanout_targets().len(), 2);

    let only_eth = vec![iface("eth0", vec![v4(10, 0, 0, 5)])];
    let drops = svc.poll_drop_list(&only_eth);
    assert_eq!(drops, vec![String::from("wlan0")]);
    run_poll(&mut svc, &only_eth, 1000);
    assert!(svc.has_path(&String::from("eth0")));
    assert!(!svc.has_path(&String::from("wlan0")));
    assert_eq!(svc.fanout_targets().len(), 1);
}

#[test]
fn excluded_interface_never_gets_a_path() {
    let mut svc = Service::new(settings(vec!["wlan0"]));
    let ifaces = vec![
        iface("eth0", vec![v4(10, 0, 0, 5)]),
        iface("wlan0", vec![v4(192, 168, 1, 7)]),
    ];
    let cands = svc.creation_candidates(&ifaces);
    assert_eq!(cands.len(), 1);
    assert_eq!(cands[0].0, "eth0");
    run_poll(&mut svc, &ifaces, 0);
    assert!(svc.has_path(&String::from("eth0")));
    assert!(!svc.has_path(&String::from("wlan0")));
}

#[test]
fn exclusion_drops_an_existing_path() {
    // A path present while its interface is excluded is dropped by the
    // next poll, even though the interface still has a valid address.
    let mut svc = Service::new(settings(vec!["wlan0"]));
    svc.add_path(String::from("wlan0"), v4(192, 168, 1, 7), server_dst(), 0);
    let ifaces = vec![iface("wlan0", vec![v4(192, 168, 1, 7)])];
    let drops = svc.poll_drop_list(&ifaces);
    assert_eq!(drops, vec![String::from("wlan0")]);
    svc.remove_paths(&drops);
    assert!(!svc.has_path(&String::from("wlan0")));
}

#[test]
fn address_change_recreates_path() {
    let mut svc = Service::new(settings(vec![]));
    let before = vec![iface("eth0", vec![v4(10, 0, 0, 5)])];
    run_poll(&mut svc, &before, 0);

    let before_record = svc.path_record(&String::from("eth0")).unwrap();
    assert_eq!(before_record.src_addr.ip, v4(10, 0, 0, 5));

    let after = vec![iface("eth0", vec![v4(10, 0, 0, 6)])];
    let drops = svc.poll_drop_list(&after);
    assert_eq!(drops, vec![String::from("eth0")]);
    run_poll(&mut svc, &after, 1000);
    let rebound = svc.path_record(&String::from("eth0")).unwrap();
    assert_eq!(rebound.src_addr.ip, v4(10, 0, 0, 6));
    let targets = svc.fanout_targets();
    assert_eq!(targets.len(), 1);
    assert_eq!(targets[0].0, "eth0");
    let cands = svc.creation_candidates(&after);
    assert!(cands.is_empty());
}

#[test]
fn zero_eligible_interfaces_keeps_table_empty() {
    let mut svc = Service::new(settings(vec![]));
    let ifaces = vec![
        iface("dummy0", vec![]),
        iface("tun6", vec![IpAddress::V6(42)]),
        iface("mcast", vec![v4(224, 0, 0, 1)]),
    ];
    assert!(svc.creation_candidates(&ifaces).is_empty());
    run_poll(&mut svc, &ifaces, 0);
    assert!(svc.fanout_targets().is_empty());
}

#[test]
fn dns_failure_leaves_other_paths_unaffected() {
    let mut svc = Service::new(settings(vec![]));
    let ifaces = vec![
        iface("eth0", vec![v4(10, 0, 0, 5)]),
        iface("wlan0", vec![v4(192, 168, 1, 7)]),
    ];
    let resolved_eth: Vec<SockAddr> = vec![server_dst()];
    let resolved_wlan: Vec<SockAddr> = vec![];
    for (name, ip) in svc.creation_candidates(&ifaces) {
        let resolved = if name == "eth0" { &resolved_eth } else { &resolved_wlan };
        match choose_destination(resolved) {
            Some(dst) => svc.add_path(name, ip, dst, 0),
            None => {},
        }
    }
    assert!(svc.has_path(&String::from("eth0")));
    assert!(!svc.has_path(&String::from("wlan0")));
    assert_eq!(svc.fanout_targets().len(), 1);
}

#[test]
fn vpn_peer_learning() {
    let mut svc = Service::new(settings(vec![]));
    let sentinel = SockAddr { ip: v4(0, 0, 0, 0), port: 0 };
    assert_eq!(svc.peer_addr(), sentinel);
    let daemon = SockAddr { ip: v4(127, 0, 0, 1), port: 51820 };
    svc.learn_peer(daemon);
    assert_eq!(svc.peer_addr(), daemon);
}

#[test]
fn recv_error_marks_path_closing_and_stops_fanout() {
    let mut svc = Service::new(settings(vec![]));
    let ifaces = vec![
        iface("eth0", vec![v4(10, 0, 0, 5)]),
        iface("wlan0", vec![v4(192, 168, 1, 7)]),
    ];
    run_poll(&mut svc, &ifaces, 0);
    let eth = String::from("eth0");
    assert_eq!(svc.path_status(&eth), Some(false));
    assert!(svc.note_path_recv_error(&eth));
    assert_eq!(svc.path_status(&eth), Some(true));
    let targets = svc.fanout_targets();
    assert_eq!(targets.len(), 1);
    assert_eq!(targets[0].0, "wlan0");
    let drops = svc.poll_drop_list(&ifaces);
    assert_eq!(drops, vec![eth]);
}

#[test]
fn send_failure_removes_only_the_failing_path() {
    let mut svc = Service::new(settings(vec![]));
    let ifaces = vec![
        iface("eth0", vec![v4(10, 0, 0, 5)]),
        iface("wlan0", vec![v4(192, 168, 1, 7)]),
    ];
    run_poll(&mut svc, &ifaces, 0);
    let targets = svc.fanout_targets();
    assert_eq!(targets.len(), 2);
    let failed = vec![String::from("wlan0")];
    svc.remove_paths(&failed);
    assert!(svc.has_path(&String::from("eth0")));
    assert!(!svc.has_path(&String::from("wlan0")));
    assert_eq!(svc.fanout_targets().len(), 1);
}

#[test]
fn receives_update_the_accounting() {
    let mut svc = Service::new(settings(vec![]));
    let ifaces = vec![iface("eth0", vec![v4(10, 0, 0, 5)])];
    run_poll(&mut svc, &ifaces, 0);
    let eth = String::from("eth0");
    assert!(svc.note_path_received(&eth, 100, 500));
    assert!(svc.note_path_received(&eth, 150, 900));
    let record = svc.path_record(&eth).unwrap();
    assert_eq!(record.last_received_at, 900);
    assert_eq!(record.total_received_bytes, 250);
    // The identity and the addresses stay what the path was created with.
    assert_eq!(record.ifname, "eth0");
    assert_eq!(record.src_addr, SockAddr { ip: v4(10, 0, 0, 5), port: 0 });
    assert_eq!(record.dst_addr, server_dst());
    assert!(!record.is_closing);
    // A receive on an unknown path changes nothing and reports absence.
    assert!(!svc.note_path_received(&String::from("wlan0"), 10, 1000));
    assert_eq!(svc.fanout_targets().len(), 1);
}

#[test]
fn client_validate_settings_coerces_write_timeout() {
    let with_value = Settings { client: settings(vec![]) };
    let validated = validate_settings(Settings {
        client: ClientSettings { write_timeout: Some(25), ..with_value.client.clone() },
    });
    assert_eq!(validated.client.write_timeout, Some(0));
    let missing = validate_settings(Settings {
        client: ClientSettings { write_timeout: None, ..with_value.client.clone() },
    });
    assert_eq!(missing.client.write_timeout, Some(0));
    let zero = validate_settings(Settings {
        client: ClientSettings { write_timeout: Some(0), ..with_value.client },
    });
    assert_eq!(zero.client.write_timeout, Some(0));
    assert_eq!(zero.client.listen_addr, "127.0.0.1:51820");
}
