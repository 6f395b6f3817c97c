//! The client's configuration and its per-path record.

use vstd::prelude::*;

use crate::net::SockAddr;

verus! {

/// The client's configuration file, after parsing.
#[derive(Clone, Debug)]
pub struct Settings {
    pub client: ClientSettings,
}

/// The client section of the configuration. `listen_addr` is where the
/// local VPN daemon sends, `dst_addr` names the remote server (a hostname
/// and port, resolved each time a path appears), and interfaces named in
/// `excluded_interfaces` never get a path.
#[derive(Clone, Debug)]
pub struct ClientSettings {
    pub description: Option<String>,
    pub listen_addr: String,
    pub dst_addr: String,
    pub write_timeout: Option<u64>,
    pub excluded_interfaces: Vec<String>,
    pub web_manager: Option<WebManager>,
}

/// The declared but unimplemented management interface.
#[derive(Clone, Debug)]
pub struct WebManager {
    pub listen_addr: Option<String>,
    pub username: Option<String>,
    pub password: Option<String>,
}

/// Fills the defaults in: the write timeout — declared, but not
/// implemented — is forced to zero whatever was configured. Everything
/// else passes through unchanged.
pub fn validate_settings(settings: Settings) -> (r: Settings)
    ensures
        r.client.write_timeout == Option::Some(0u64),
        r.client.description == settings.client.description,
        r.client.listen_addr == settings.client.listen_addr,
        r.client.dst_addr == settings.client.dst_addr,
        r.client.excluded_interfaces == settings.client.excluded_interfaces,
        r.client.web_manager == settings.client.web_manager,
{
    let mut s = settings;
    let write_missing = match &s.client.write_timeout {
        Option::None => true,
        Option::Some(_) => false,
    };
    if write_missing {
        s.client.write_timeout = Option::Some(10);
    }
    let write_zero = match &s.client.write_timeout {
        Option::None => false,
        Option::Some(t) => *t == 0,
    };
    if !write_zero {
        s.client.write_timeout = Option::Some(0);
    }
    s
}

/// One path: a named interface with its bound local address, the resolved
/// server address it sends to, and its receive accounting. The egress
/// socket itself lives with the I/O layer, keyed by the same name.
#[derive(Clone, Debug)]
pub struct SendingRoutine {
    pub ifname: String,
    pub src_addr: SockAddr,
    pub dst_addr: SockAddr,
    pub last_received_at: u64,
    pub total_received_bytes: u64,
    pub is_closing: bool,
}

impl SendingRoutine {
    /// A freshly created path: no bytes received yet, not closing, last
    /// receive set to the creation instant.
    pub fn new(ifname: String, src_addr: SockAddr, dst_addr: SockAddr, now_ms: u64) -> (r:
        SendingRoutine)
        ensures
            r.ifname == ifname,
            r.src_addr == src_addr,
            r.dst_addr == dst_addr,
            r.last_received_at == now_ms,
            r.total_received_bytes == 0,
            !r.is_closing,
    {
        SendingRoutine {
            ifname,
            src_addr,
            dst_addr,
            last_received_at: now_ms,
            total_received_bytes: 0,
            is_closing: false,
        }
    }
}

} // verus!
