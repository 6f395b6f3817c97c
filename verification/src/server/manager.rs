//! The server's client manager: the path table keyed by observed source
//! address, the upsert a received datagram performs, and the expiry sweep
//! that reaps silent clients.

use vstd::prelude::*;

use crate::clock::{is_expired, spec_expired};
use crate::net::{addr_in, lemma_addr_in_extend, SockAddr};
use crate::server::table::{
    clients_clear, clients_get, clients_insert, clients_len, clients_model, clients_new,
    clients_remove, clients_snapshot, ClientTable,
};
use crate::server::types::{spec_client_update, Client};

verus! {

/// The server's state: the client table and the configured client
/// timeout, in seconds.
pub struct ClientManager {
    pub clients: ClientTable,
    pub timeout_secs: u64,
}

impl ClientManager {
    /// The table's contents: client source address to record.
    pub open spec fn model(&self) -> Map<SockAddr, Client> {
        clients_model(self.clients)
    }

    /// Every record sits under its own address: the key a datagram's
    /// source was observed as is the address the record carries.
    pub open spec fn wf(&self) -> bool {
        forall|a: SockAddr|
            #[trigger] self.model().contains_key(a) ==> self.model()[a].addr == a
    }

    /// A fresh manager: empty table.
    pub fn new(timeout_seconds: u64) -> (r: ClientManager)
        ensures
            forall|a: SockAddr| !r.model().contains_key(a),
            r.timeout_secs == timeout_seconds,
            r.wf(),
    {
        let mut clients = clients_new();
        clients_clear(&mut clients);
        ClientManager { clients, timeout_secs: timeout_seconds }
    }

    /// A snapshot of the live entries, each exactly once, in no
    /// particular order.
    pub fn clients(&self) -> (r: Vec<(SockAddr, Client)>)
        ensures
            forall|i: int|
                0 <= i < r@.len() ==> self.model().contains_key(#[trigger] r@[i].0)
                    && self.model()[r@[i].0] == r@[i].1,
            forall|a: SockAddr|
                self.model().contains_key(a) ==> exists|i: int|
                    0 <= i < r@.len() && (#[trigger] r@[i].0) == a,
            forall|i: int, j: int| 0 <= i < j < r@.len() ==> r@[i].0 != r@[j].0,
    {
        clients_snapshot(&self.clients)
    }

    /// A datagram arrived from `addr`: refresh that client's record, or
    /// create one if the address is new.
    pub fn add_or_update_client(&mut self, addr: SockAddr, bytes_received: u64, now_ms: u64)
        ensures
            old(self).model().contains_key(addr) ==> final(self).model() == old(
                self,
            ).model().insert(
                addr,
                spec_client_update(old(self).model()[addr], bytes_received, now_ms),
            ),
            !old(self).model().contains_key(addr) ==> final(self).model() == old(
                self,
            ).model().insert(
                addr,
                (Client { addr: addr, last_received_at: now_ms, total_received_bytes: 0 }),
            ),
            final(self).timeout_secs == old(self).timeout_secs,
            old(self).wf() ==> final(self).wf(),
    {
        match clients_get(&self.clients, addr) {
            Some(existing) => {
                let mut updated = existing;
                updated.update(bytes_received, now_ms);
                clients_insert(&mut self.clients, addr, updated);
            },
            None => {
                clients_insert(&mut self.clients, addr, Client::new(addr, now_ms));
            },
        }
    }

    /// Removes the client at `addr`, if present.
    pub fn remove_client(&mut self, addr: SockAddr)
        ensures
            final(self).model() == old(self).model().remove(addr),
            final(self).timeout_secs == old(self).timeout_secs,
            old(self).wf() ==> final(self).wf(),
    {
        clients_remove(&mut self.clients, addr);
    }

    /// Removes the listed clients; other entries stay as they were.
    pub fn remove_clients(&mut self, addrs: &Vec<SockAddr>)
        ensures
            forall|a: SockAddr|
                #[trigger] final(self).model().contains_key(a) <==> (old(
                    self,
                ).model().contains_key(a) && !addr_in(addrs@, a)),
            forall|a: SockAddr|
                #[trigger] final(self).model().contains_key(a) ==> final(self).model()[a] == old(
                    self,
                ).model()[a],
            final(self).timeout_secs == old(self).timeout_secs,
            old(self).wf() ==> final(self).wf(),
    {
        let ghost m0 = self.model();
        let ghost timeout0 = self.timeout_secs;
        let n = addrs.len();
        let mut idx: usize = 0;
        while idx < n
            invariant
                idx <= n,
                n == addrs@.len(),
                forall|a: SockAddr|
                    #[trigger] self.model().contains_key(a) <==> (m0.contains_key(a) && !(exists|
                        j: int,
                    |
                        0 <= j < idx && (#[trigger] addrs@[j]) == a)),
                forall|a: SockAddr|
                    #[trigger] self.model().contains_key(a) ==> self.model()[a] == m0[a],
                self.timeout_secs == timeout0,
            decreases n - idx,
        {
            let ghost prev = self.model();
            clients_remove(&mut self.clients, addrs[idx]);
            proof {
                let ghost removed = addrs@[idx as int];
                assert(self.model() == prev.remove(removed));
                assert forall|a: SockAddr| #[trigger]
                    self.model().contains_key(a) implies (m0.contains_key(a) && !(exists|j: int|
                        0 <= j < idx + 1 && (#[trigger] addrs@[j]) == a)) by {
                    assert(prev.contains_key(a));
                    assert(a != removed);
                    if exists|j: int| 0 <= j < idx + 1 && (#[trigger] addrs@[j]) == a {
                        let j = choose|j: int| 0 <= j < idx + 1 && (#[trigger] addrs@[j]) == a;
                        assert(j < idx);
                        assert(!prev.contains_key(a));
                    }
                };
                assert forall|a: SockAddr|
                    (m0.contains_key(a) && !(exists|j: int|
                        0 <= j < idx + 1 && (#[trigger] addrs@[j]) == a)) implies #[trigger]
                    self.model().contains_key(a) by {
                    assert(!(exists|j: int| 0 <= j < idx && (#[trigger] addrs@[j]) == a));
                    assert(prev.contains_key(a));
                    assert(addrs@[idx as int] != a);
                };
                assert forall|a: SockAddr| #[trigger]
                    self.model().contains_key(a) implies self.model()[a] == m0[a] by {
                    assert(prev.contains_key(a));
                    assert(self.model()[a] == prev[a]);
                };
            }
            idx = idx + 1;
        }
    }

    /// The sweep: drop every client whose last receive lies further back
    /// than the client timeout; everyone else stays untouched.
    pub fn cleanup_timeout_clients(&mut self, now_ms: u64)
        ensures
            forall|a: SockAddr|
                #[trigger] final(self).model().contains_key(a) <==> (old(
                    self,
                ).model().contains_key(a) && !spec_expired(
                    now_ms,
                    old(self).model()[a].last_received_at,
                    old(self).timeout_secs,
                )),
            forall|a: SockAddr|
                #[trigger] final(self).model().contains_key(a) ==> final(self).model()[a] == old(
                    self,
                ).model()[a],
            final(self).timeout_secs == old(self).timeout_secs,
            old(self).wf() ==> final(self).wf(),
    {
        let ghost m0 = self.model();
        let snap = clients_snapshot(&self.clients);
        let mut stale: Vec<SockAddr> = Vec::new();
        let n = snap.len();
        let mut idx: usize = 0;
        while idx < n
            invariant
                idx <= n,
                n == snap@.len(),
                m0 == self.model(),
                forall|i: int|
                    0 <= i < snap@.len() ==> m0.contains_key(#[trigger] snap@[i].0)
                        && m0[snap@[i].0] == snap@[i].1,
                forall|a: SockAddr|
                    m0.contains_key(a) ==> exists|i: int|
                        0 <= i < snap@.len() && (#[trigger] snap@[i].0) == a,
                forall|i: int, j: int| 0 <= i < j < snap@.len() ==> snap@[i].0 != snap@[j].0,
                forall|i: int|
                    0 <= i < stale@.len() ==> m0.contains_key(#[trigger] stale@[i])
                        && spec_expired(now_ms, m0[stale@[i]].last_received_at, self.timeout_secs),
                forall|j: int|
                    0 <= j < idx && spec_expired(
                        now_ms,
                        (#[trigger] snap@[j]).1.last_received_at,
                        self.timeout_secs,
                    ) ==> addr_in(stale@, snap@[j].0),
                forall|i: int, j: int| 0 <= i < j < stale@.len() ==> stale@[i] != stale@[j],
                forall|i: int|
                    0 <= i < stale@.len() ==> exists|j: int|
                        0 <= j < idx && (#[trigger] stale@[i]) == snap@[j].0,
            decreases n - idx,
        {
            if is_expired(now_ms, snap[idx].1.last_received_at, self.timeout_secs) {
                let ghost pre = stale@;
                stale.push(snap[idx].0);
                proof {
                    assert(stale@[pre.len() as int] == snap@[idx as int].0);
                    assert forall|j: int|
                        0 <= j < idx + 1 && spec_expired(
                            now_ms,
                            (#[trigger] snap@[j]).1.last_received_at,
                            self.timeout_secs,
                        ) implies addr_in(stale@, snap@[j].0) by {
                        lemma_addr_in_extend(pre, stale@, snap@[j].0);
                    }
                }
            }
            idx = idx + 1;
        }
        self.remove_clients(&stale);
        proof {
            assert forall|a: SockAddr| #[trigger]
                self.model().contains_key(a) implies (m0.contains_key(a) && !spec_expired(
                now_ms,
                m0[a].last_received_at,
                self.timeout_secs,
            )) by {
                assert(m0.contains_key(a));
                assert(!addr_in(stale@, a));
                if spec_expired(now_ms, m0[a].last_received_at, self.timeout_secs) {
                    let i = choose|i: int| 0 <= i < snap@.len() && (#[trigger] snap@[i].0) == a;
                    assert(snap@[i].1 == m0[a]);
                    assert(addr_in(stale@, snap@[i].0));
                }
            };
            assert forall|a: SockAddr|
                (m0.contains_key(a) && !spec_expired(
                    now_ms,
                    m0[a].last_received_at,
                    self.timeout_secs,
                )) implies #[trigger] self.model().contains_key(a) by {
                if addr_in(stale@, a) {
                    let i = choose|i: int| 0 <= i < stale@.len() && (#[trigger] stale@[i]) == a;
                    assert(spec_expired(now_ms, m0[a].last_received_at, self.timeout_secs));
                }
            };
        }
    }

    /// How many clients are connected.
    pub fn client_count(&self) -> (r: usize)
        ensures
            r == self.model().dom().len(),
    {
        clients_len(&self.clients)
    }
}

} // verus!
