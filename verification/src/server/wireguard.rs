//! The server's tunnel-facing side: the timeouts it runs with, the
//! fan-out plan for a datagram arriving from the VPN, and the laws the
//! fan-out and the sweeper obey.

use vstd::prelude::*;

use crate::clock::{is_expired, spec_elapsed_ms, spec_expired};
use crate::net::{addr_in, lemma_addr_in_extend, SockAddr};
use crate::server::manager::ClientManager;
use crate::server::types::Client;

verus! {

/// The timeouts the tunnel side runs with: the client timeout in seconds,
/// and the declared but inert write timeout in milliseconds.
#[derive(Clone, Copy, PartialEq, Eq, Structural, Debug)]
pub struct WireGuardConfig {
    pub client_timeout_secs: u64,
    pub write_timeout_ms: u64,
}

impl WireGuardConfig {
    pub fn new(client_timeout_seconds: u64, write_timeout_ms: u64) -> (r: WireGuardConfig)
        ensures
            r.client_timeout_secs == client_timeout_seconds,
            r.write_timeout_ms == write_timeout_ms,
    {
        WireGuardConfig { client_timeout_secs: client_timeout_seconds, write_timeout_ms }
    }
}

/// The fan-out plan for one tunnel datagram: the addresses to send to —
/// every client not yet timed out — and the clients found timed out, which
/// are skipped and dropped. Every client lands in exactly one of the two,
/// each exactly once.
pub fn plan_fanout(manager: &ClientManager, now_ms: u64) -> (r: (Vec<SockAddr>, Vec<SockAddr>))
    ensures
        forall|i: int|
            0 <= i < r.0@.len() ==> manager.model().contains_key(#[trigger] r.0@[i])
                && !spec_expired(
                now_ms,
                manager.model()[r.0@[i]].last_received_at,
                manager.timeout_secs,
            ),
        forall|i: int|
            0 <= i < r.1@.len() ==> manager.model().contains_key(#[trigger] r.1@[i])
                && spec_expired(
                now_ms,
                manager.model()[r.1@[i]].last_received_at,
                manager.timeout_secs,
            ),
        forall|a: SockAddr|
            #[trigger] manager.model().contains_key(a) ==> addr_in(r.0@, a) || addr_in(r.1@, a),
        forall|i: int, j: int| 0 <= i < j < r.0@.len() ==> r.0@[i] != r.0@[j],
        forall|i: int, j: int| 0 <= i < j < r.1@.len() ==> r.1@[i] != r.1@[j],
{
    let snap = manager.clients();
    let mut targets: Vec<SockAddr> = Vec::new();
    let mut stale: Vec<SockAddr> = Vec::new();
    let n = snap.len();
    let mut idx: usize = 0;
    while idx < n
        invariant
            idx <= n,
            n == snap@.len(),
            forall|i: int|
                0 <= i < snap@.len() ==> manager.model().contains_key(#[trigger] snap@[i].0)
                    && manager.model()[snap@[i].0] == snap@[i].1,
            forall|a: SockAddr|
                manager.model().contains_key(a) ==> exists|i: int|
                    0 <= i < snap@.len() && (#[trigger] snap@[i].0) == a,
            forall|i: int, j: int| 0 <= i < j < snap@.len() ==> snap@[i].0 != snap@[j].0,
            forall|i: int|
                0 <= i < targets@.len() ==> manager.model().contains_key(#[trigger] targets@[i])
                    && !spec_expired(
                    now_ms,
                    manager.model()[targets@[i]].last_received_at,
                    manager.timeout_secs,
                ),
            forall|i: int|
                0 <= i < stale@.len() ==> manager.model().contains_key(#[trigger] stale@[i])
                    && spec_expired(
                    now_ms,
                    manager.model()[stale@[i]].last_received_at,
                    manager.timeout_secs,
                ),
            forall|j: int|
                0 <= j < idx ==> addr_in(targets@, (#[trigger] snap@[j]).0) || addr_in(
                    stale@,
                    snap@[j].0,
                ),
            forall|i: int|
                0 <= i < targets@.len() ==> exists|j: int|
                    0 <= j < idx && (#[trigger] targets@[i]) == snap@[j].0,
            forall|i: int|
                0 <= i < stale@.len() ==> exists|j: int|
                    0 <= j < idx && (#[trigger] stale@[i]) == snap@[j].0,
            forall|i: int, j: int| 0 <= i < j < targets@.len() ==> targets@[i] != targets@[j],
            forall|i: int, j: int| 0 <= i < j < stale@.len() ==> stale@[i] != stale@[j],
        decreases n - idx,
    {
        if is_expired(now_ms, snap[idx].1.last_received_at, manager.timeout_secs) {
            let ghost pre = stale@;
            stale.push(snap[idx].0);
            proof {
                assert(stale@[pre.len() as int] == snap@[idx as int].0);
                assert forall|j: int|
                    0 <= j < idx + 1 implies addr_in(targets@, (#[trigger] snap@[j]).0) || addr_in(
                    stale@,
                    snap@[j].0,
                ) by {
                    lemma_addr_in_extend(pre, stale@, snap@[j].0);
                }
            }
        } else {
            let ghost pre = targets@;
            targets.push(snap[idx].0);
            proof {
                assert(targets@[pre.len() as int] == snap@[idx as int].0);
                assert forall|j: int|
                    0 <= j < idx + 1 implies addr_in(targets@, (#[trigger] snap@[j]).0) || addr_in(
                    stale@,
                    snap@[j].0,
                ) by {
                    lemma_addr_in_extend(pre, targets@, snap@[j].0);
                }
            }
        }
        idx = idx + 1;
    }
    (targets, stale)
}

/// The fan-out dichotomy: of the clients present when a tunnel datagram
/// arrived, each was either offered the datagram, or dropped; and once the
/// drop list — the timed-out clients and the failed sends — is applied,
/// exactly the dropped ones are gone.
pub proof fn lemma_fanout_dichotomy(
    before: Map<SockAddr, Client>,
    targets: Seq<SockAddr>,
    dropped: Seq<SockAddr>,
    after: Map<SockAddr, Client>,
)
    requires
        forall|a: SockAddr|
            #[trigger] before.contains_key(a) ==> addr_in(targets, a) || addr_in(dropped, a),
        forall|a: SockAddr|
            #[trigger] after.contains_key(a) <==> (before.contains_key(a) && !addr_in(
                dropped,
                a,
            )),
    ensures
        forall|a: SockAddr|
            #[trigger] before.contains_key(a) && !addr_in(dropped, a) ==> addr_in(targets, a)
                && after.contains_key(a),
        forall|a: SockAddr| addr_in(dropped, a) ==> !after.contains_key(a),
{
}

/// Freshness after a sweep: if every client present at the sweep instant
/// had received within the timeout, then at most `delay_ms` later no
/// client still present has been silent for more than the timeout plus
/// that delay. With the sweeper running every five seconds, no entry's
/// silence ever exceeds the client timeout by more than the sweep period.
pub proof fn lemma_sweep_bounds_staleness(
    m: Map<SockAddr, Client>,
    timeout_secs: u64,
    sweep_ms: u64,
    now_ms: u64,
    delay_ms: u64,
)
    requires
        forall|a: SockAddr|
            #[trigger] m.contains_key(a) ==> !spec_expired(
                sweep_ms,
                m[a].last_received_at,
                timeout_secs,
            ),
        sweep_ms <= now_ms,
        now_ms - sweep_ms <= delay_ms,
    ensures
        forall|a: SockAddr|
            #[trigger] m.contains_key(a) ==> spec_elapsed_ms(now_ms, m[a].last_received_at)
                <= timeout_secs * 1000 + delay_ms,
{
    assert forall|a: SockAddr| #[trigger]
        m.contains_key(a) implies spec_elapsed_ms(now_ms, m[a].last_received_at) <= timeout_secs
        * 1000 + delay_ms by {
        let last = m[a].last_received_at;
        assert(spec_elapsed_ms(sweep_ms, last) <= timeout_secs * 1000);
        if last <= sweep_ms {
            assert(now_ms - last == (now_ms - sweep_ms) + (sweep_ms - last));
        }
    };
}

} // verus!
