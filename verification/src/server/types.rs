//! A connected client of the server: one path per observed source
//! address.

use vstd::prelude::*;

use crate::net::SockAddr;
use crate::{saturating_add_u64, spec_saturating_add_u64};

verus! {

/// A client path record: its observed source address and its receive
/// accounting.
#[derive(Clone, Copy, PartialEq, Eq, Structural, Debug)]
pub struct Client {
    pub addr: SockAddr,
    pub last_received_at: u64,
    pub total_received_bytes: u64,
}

impl Client {
    /// A newly observed client: no bytes counted yet, last receive set to
    /// the observation instant.
    pub fn new(addr: SockAddr, now_ms: u64) -> (r: Client)
        ensures
            r.addr == addr,
            r.last_received_at == now_ms,
            r.total_received_bytes == 0,
    {
        Client { addr, last_received_at: now_ms, total_received_bytes: 0 }
    }

    /// A datagram arrived from this client: refresh the receive time and
    /// add to the byte counter. The address never changes.
    pub fn update(&mut self, bytes_received: u64, now_ms: u64)
        ensures
            final(self).addr == old(self).addr,
            final(self).last_received_at == now_ms,
            final(self).total_received_bytes == spec_saturating_add_u64(
                old(self).total_received_bytes,
                bytes_received,
            ),
    {
        self.last_received_at = now_ms;
        self.total_received_bytes = saturating_add_u64(self.total_received_bytes, bytes_received);
    }
}

/// A record after `update`: what `Client::update` leaves behind.
pub open spec fn spec_client_update(c: Client, bytes_received: u64, now_ms: u64) -> Client {
    Client {
        addr: c.addr,
        last_received_at: now_ms,
        total_received_bytes: spec_saturating_add_u64(c.total_received_bytes, bytes_received),
    }
}

} // verus!
