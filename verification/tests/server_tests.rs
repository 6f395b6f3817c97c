use rengarde::net::{IpAddress, Ipv4Address, SockAddr};
use rengarde::server::config::{validate_settings, Server, Settings};
use rengarde::server::manager::ClientManager;
use rengarde::server::wireguard::{plan_fanout, WireGuardConfig};

fn v4(a: u8, b: u8, c: u8, d: u8) -> IpAddress {
    IpAddress::V4(Ipv4Address { a, b, c, d })
}

fn sa(a: u8, b: u8, c: u8, d: u8, port: u16) -> SockAddr {
    SockAddr { ip: v4(a, b, c, d), port }
}

fn server_settings(client_timeout: Option<u64>, write_timeout: Option<u64>) -> Settings {
    Settings {
        server: Server {
            description: None,
            listen_addr: String::from("0.0.0.0:59401"),
            dst_addr: String::from("127.0.0.1:51820"),
            client_timeout,
            write_timeout,
            web_manager: None,
            wireguard: None,
        },
    }
}

#[test]
fn validate_defaults_missing_client_timeout() {
    let v = validate_settings(server_settings(None, None));
    assert_eq!(v.server.client_timeout, Some(30));
    assert_eq!(v.server.write_timeout, Some(0));
}

#[test]
fn validate_defaults_zero_client_timeout() {
    let v = validate_settings(server_settings(Some(0), Some(0)));
    assert_eq!(v.server.client_timeout, Some(30));
    assert_eq!(v.server.write_timeout, Some(0));
}

#[test]
fn validate_keeps_configured_client_timeout() {
    let v = validate_settings(server_settings(Some(7), Some(15)));
    assert_eq!(v.server.client_timeout, Some(7));
    assert_eq!(v.server.write_timeout, Some(0));
    assert_eq!(v.server.listen_addr, "0.0.0.0:59401");
    assert_eq!(v.server.dst_addr, "127.0.0.1:51820");
}

#[test]
fn wireguard_config_carries_timeouts() {
    let c = WireGuardConfig::new(30, 0);
    assert_eq!(c.client_timeout_secs, 30);
    assert_eq!(c.write_timeout_ms, 0);
}

#[test]
fn upsert_creates_then_refreshes() {
    let mut mgr = ClientManager::new(30);
    assert_eq!(mgr.client_count(), 0);
    let a = sa(203, 0, 113, 10, 40000);
    mgr.add_or_update_client(a, 100, 0);
    assert_eq!(mgr.client_count(), 1);
    mgr.add_or_update_client(a, 150, 2000);
    assert_eq!(mgr.client_count(), 1);
    let snap = mgr.clients();
    assert_eq!(snap.len(), 1);
    assert_eq!(snap[0].0, a);
    assert_eq!(snap[0].1.addr, a);
    assert_eq!(snap[0].1.last_received_at, 2000);
    // The creating datagram is not counted: a fresh record starts at zero
    // and only later receives add to the counter.
    assert_eq!(snap[0].1.total_received_bytes, 150);
}

#[test]
fn distinct_sources_get_distinct_records() {
    let mut mgr = ClientManager::new(30);
    let a = sa(203, 0, 113, 10, 40000);
    let b = sa(203, 0, 113, 10, 40001);
    mgr.add_or_update_client(a, 10, 0);
    mgr.add_or_update_client(b, 20, 0);
    assert_eq!(mgr.client_count(), 2);
}

#[test]
fn remove_client_drops_the_entry() {
    let mut mgr = ClientManager::new(30);
    let a = sa(203, 0, 113, 10, 40000);
    let b = sa(198, 51, 100, 9, 40001);
    mgr.add_or_update_client(a, 10, 0);
    mgr.add_or_update_client(b, 10, 0);
    mgr.remove_client(a);
    assert_eq!(mgr.client_count(), 1);
    let snap = mgr.clients();
    assert_eq!(snap[0].0, b);
}

#[test]
fn server_timeout_drops_silent_client_at_fanout() {
    // Client A sends once at t=0 and goes silent; a tunnel datagram at
    // t=35 s finds it beyond the 30 s timeout, skips it and drops it.
    let mut mgr = ClientManager::new(30);
    let a = sa(203, 0, 113, 10, 40000);
    mgr.add_or_update_client(a, 100, 0);
    let (targets, stale) = plan_fanout(&mgr, 35_000);
    assert!(targets.is_empty());
    assert_eq!(stale, vec![a]);
    mgr.remove_clients(&stale);
    assert_eq!(mgr.client_count(), 0);
}

#[test]
fn sweeper_reaps_only_the_silent() {
    let mut mgr = ClientManager::new(30);
    let silent = sa(203, 0, 113, 10, 40000);
    let active = sa(203, 0, 113, 11, 40000);
    mgr.add_or_update_client(silent, 100, 0);
    mgr.add_or_update_client(active, 100, 20_000);
    mgr.cleanup_timeout_clients(35_000);
    assert_eq!(mgr.client_count(), 1);
    let snap = mgr.clients();
    assert_eq!(snap[0].0, active);
}

#[test]
fn sweeper_keeps_everyone_within_timeout() {
    let mut mgr = ClientManager::new(30);
    mgr.add_or_update_client(sa(203, 0, 113, 10, 1), 1, 10_000);
    mgr.add_or_update_client(sa(203, 0, 113, 10, 2), 1, 20_000);
    // 30 s exactly is not beyond the timeout.
    mgr.cleanup_timeout_clients(40_000);
    assert_eq!(mgr.client_count(), 2);
}

#[test]
fn fanout_targets_every_fresh_client() {
    let mut mgr = ClientManager::new(30);
    let a = sa(203, 0, 113, 10, 40000);
    let b = sa(198, 51, 100, 9, 40001);
    mgr.add_or_update_client(a, 10, 1000);
    mgr.add_or_update_client(b, 10, 2000);
    let (mut targets, stale) = plan_fanout(&mgr, 5000);
    assert!(stale.is_empty());
    targets.sort_by(|x, y| format!("{:?}", x).cmp(&format!("{:?}", y)));
    let mut want = vec![a, b];
    want.sort_by(|x, y| format!("{:?}", x).cmp(&format!("{:?}", y)));
    assert_eq!(targets, want);
}

#[test]
fn fanout_failure_drop_removes_only_failures() {
    let mut mgr = ClientManager::new(30);
    let a = sa(203, 0, 113, 10, 40000);
    let b = sa(198, 51, 100, 9, 40001);
    mgr.add_or_update_client(a, 10, 0);
    mgr.add_or_update_client(b, 10, 0);
    let (targets, stale) = plan_fanout(&mgr, 1000);
    assert_eq!(targets.len(), 2);
    assert!(stale.is_empty());
    // The send to `a` fails; it joins the drop list and is removed.
    let mut drops = stale;
    drops.push(a);
    mgr.remove_clients(&drops);
    assert_eq!(mgr.client_count(), 1);
    assert_eq!(mgr.clients()[0].0, b);
}
