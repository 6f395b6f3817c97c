//! The server's path table: a concurrent map from observed client source
//! address to client record, held as a `dashmap::DashMap`. Each operation
//! the router needs is a trusted wrapper whose contract speaks of
//! `clients_model`, the table's contents as a map from address to record.

use vstd::prelude::*;

use crate::net::SockAddr;
use crate::server::types::Client;

verus! {

/// The server's path table: client source address to client record.
pub type ClientTable = dashmap::DashMap<SockAddr, Client>;

/// What the table holds: its entries as a map from address to record.
pub uninterp spec fn clients_model(m: ClientTable) -> Map<SockAddr, Client>;

/// Relies on dashmap::DashMap::new: creates a map. Nothing is stated of
/// the result's contents here; `clients_clear` establishes emptiness.
#[verifier::external_body]
pub(crate) fn clients_new() -> (r: ClientTable) {
    dashmap::DashMap::new()
}

/// Relies on dashmap::DashMap::clear: removes every entry.
#[verifier::external_body]
pub(crate) fn clients_clear(m: &mut ClientTable)
    ensures
        forall|a: SockAddr| !clients_model(*final(m)).contains_key(a),
{
    m.clear();
}

/// Relies on dashmap::DashMap::insert: maps `key` to `value`, returning
/// the value the key was mapped to before, if any.
#[verifier::external_body]
pub(crate) fn clients_insert(m: &mut ClientTable, key: SockAddr, value: Client) -> (prior: Option<
    Client,
>)
    ensures
        clients_model(*final(m)) == clients_model(*old(m)).insert(key, value),
        match prior {
            Some(p) => clients_model(*old(m)).contains_key(key) && p == clients_model(
                *old(m),
            )[key],
            None => !clients_model(*old(m)).contains_key(key),
        },
{
    m.insert(key, value)
}

/// Relies on dashmap::DashMap::remove: removes the entry for `key`, if
/// one exists.
#[verifier::external_body]
pub(crate) fn clients_remove(m: &mut ClientTable, key: SockAddr)
    ensures
        clients_model(*final(m)) == clients_model(*old(m)).remove(key),
{
    m.remove(&key);
}

/// Relies on dashmap::DashMap::get: the value mapped to `key`, copied out
/// of the map's read guard.
#[verifier::external_body]
pub(crate) fn clients_get(m: &ClientTable, key: SockAddr) -> (r: Option<Client>)
    ensures
        match r {
            Some(v) => clients_model(*m).contains_key(key) && v == clients_model(*m)[key],
            None => !clients_model(*m).contains_key(key),
        },
{
    m.get(&key).map(|entry| *entry.value())
}

/// Relies on dashmap::DashMap::len: the number of entries.
#[verifier::external_body]
pub(crate) fn clients_len(m: &ClientTable) -> (r: usize)
    ensures
        r == clients_model(*m).dom().len(),
{
    m.len()
}

/// Relies on dashmap::DashMap::iter: yields each entry exactly once, in no
/// particular order; keys and values are copied out of the read guards.
#[verifier::external_body]
pub(crate) fn clients_snapshot(m: &ClientTable) -> (r: Vec<(SockAddr, Client)>)
    ensures
        forall|i: int|
            0 <= i < r@.len() ==> clients_model(*m).contains_key(#[trigger] r@[i].0)
                && clients_model(*m)[r@[i].0] == r@[i].1,
        forall|a: SockAddr|
            clients_model(*m).contains_key(a) ==> exists|i: int|
                0 <= i < r@.len() && (#[trigger] r@[i].0) == a,
        forall|i: int, j: int| 0 <= i < j < r@.len() ==> r@[i].0 != r@[j].0,
{
    m.iter().map(|entry| (*entry.key(), *entry.value())).collect()
}

} // verus!
