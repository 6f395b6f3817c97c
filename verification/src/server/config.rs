//! The server's configuration and its validation: a missing or zero
//! client timeout defaults to 30 seconds, and the declared but inert
//! write timeout is always coerced to zero.

use vstd::prelude::*;

use crate::server::wireguard::WireGuardConfig;

verus! {

/// The server's configuration file, after parsing.
#[derive(Clone, Debug)]
pub struct Settings {
    pub server: Server,
}

/// The server section of the configuration. `listen_addr` is where the
/// clients send, `dst_addr` names the upstream VPN socket.
#[derive(Clone, Debug)]
pub struct Server {
    pub description: Option<String>,
    pub listen_addr: String,
    pub dst_addr: String,
    pub client_timeout: Option<u64>,
    pub write_timeout: Option<u64>,
    pub web_manager: Option<WebManager>,
    pub wireguard: Option<WireGuardConfig>,
}

/// The declared but unimplemented management interface.
#[derive(Clone, Debug)]
pub struct WebManager {
    pub listen_addr: Option<String>,
    pub username: Option<String>,
    pub password: Option<String>,
}

/// Fills the defaults in: a missing or zero client timeout becomes 30
/// seconds, and the write timeout — declared, but not implemented — is
/// forced to zero whatever was configured. Everything else passes through
/// unchanged.
pub fn validate_settings(settings: Settings) -> (r: Settings)
    ensures
        r.server.client_timeout == (match settings.server.client_timeout {
            Option::None => Option::Some(30u64),
            Option::Some(t) => if t == 0 {
                Option::Some(30u64)
            } else {
                Option::Some(t)
            },
        }),
        r.server.write_timeout == Option::Some(0u64),
        r.server.description == settings.server.description,
        r.server.listen_addr == settings.server.listen_addr,
        r.server.dst_addr == settings.server.dst_addr,
        r.server.web_manager == settings.server.web_manager,
        r.server.wireguard == settings.server.wireguard,
{
    let mut s = settings;
    let needs_default = match &s.server.client_timeout {
        Option::None => true,
        Option::Some(t) => *t == 0,
    };
    if needs_default {
        s.server.client_timeout = Option::Some(30);
    }
    let write_missing = match &s.server.write_timeout {
        Option::None => true,
        Option::Some(_) => false,
    };
    if write_missing {
        s.server.write_timeout = Option::Some(10);
    }
    let write_zero = match &s.server.write_timeout {
        Option::None => false,
        Option::Some(t) => *t == 0,
    };
    if !write_zero {
        s.server.write_timeout = Option::Some(0);
    }
    s
}

} // verus!
