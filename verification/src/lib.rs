//! A bonded UDP tunnel multiplexer: one logical VPN endpoint split across
//! many physical network paths. Outbound VPN datagrams are duplicated over
//! every live path; return traffic from any path is funnelled back into the
//! single VPN socket. This crate holds the router core: path records and
//! tables, interface eligibility, reconciliation, fan-out planning and
//! expiry. The surrounding I/O (sockets, DNS, timers) lives outside.

use vstd::prelude::*;

pub mod client;
pub mod clock;
pub mod net;
pub mod server;

verus! {

/// Datagrams are carried byte-for-byte up to this many bytes (the Ethernet
/// MTU less headers); larger ones are truncated.
pub const BUFFER_SIZE: usize = 1500;

/// The payload a reader hands on: the first `received` bytes of its buffer.
///
/// Both ingress directions forward exactly the bytes that arrived, so the
/// result is the prefix of `buf` of length `received`.
pub fn prepare_forward(buf: &[u8], received: usize) -> (r: Vec<u8>)
    requires
        received <= buf.len(),
    ensures
        r@ == buf@.subrange(0, received as int),
{
    let mut out: Vec<u8> = Vec::new();
    let mut i: usize = 0;
    while i < received
        invariant
            i <= received,
            received <= buf.len(),
            out@ == buf@.subrange(0, i as int),
        decreases received - i,
    {
        out.push(buf[i]);
        proof {
            assert(out@ =~= buf@.subrange(0, (i + 1) as int));
        }
        i = i + 1;
    }
    out
}

/// A datagram as the wire carries it: at most `BUFFER_SIZE` bytes, longer
/// payloads cut down to the first `BUFFER_SIZE`.
pub fn truncate_to_mtu(data: &Vec<u8>) -> (r: Vec<u8>)
    ensures
        data@.len() <= 1500 ==> r@ == data@,
        data@.len() > 1500 ==> r@ == data@.subrange(0, 1500),
{
    let n: usize = if data.len() < BUFFER_SIZE {
        data.len()
    } else {
        BUFFER_SIZE
    };
    let r = prepare_forward(data.as_slice(), n);
    proof {
        if data@.len() <= 1500 {
            assert(r@ =~= data@);
        }
    }
    r
}

/// Addition that sticks at the top of the range, for cumulative byte
/// counters.
pub open spec fn spec_saturating_add_u64(a: u64, b: u64) -> u64 {
    if a + b > u64::MAX {
        u64::MAX
    } else {
        (a + b) as u64
    }
}

pub fn saturating_add_u64(a: u64, b: u64) -> (r: u64)
    ensures
        r == spec_saturating_add_u64(a, b),
{
    if a > u64::MAX - b {
        u64::MAX
    } else {
        a + b
    }
}

} // verus!
