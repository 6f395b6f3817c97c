//! The client's path table: a concurrent map from interface name to path
//! record, held as a `dashmap::DashMap`. The map itself is outside code;
//! each operation the router needs is a trusted wrapper whose contract
//! speaks of `routines_model`, the table's contents as a map from name to
//! record.

use vstd::prelude::*;

use crate::client::types::SendingRoutine;

verus! {

#[verifier::external_type_specification]
#[verifier::external_body]
#[verifier::reject_recursive_types(K)]
#[verifier::reject_recursive_types(V)]
#[verifier::reject_recursive_types(S)]
pub struct ExDashMap<K, V, S>(dashmap::DashMap<K, V, S>);

/// The client's path table: interface name to path record.
pub type RoutineTable = dashmap::DashMap<String, SendingRoutine>;

/// What the table holds: its entries as a map from interface name to path
/// record.
pub uninterp spec fn routines_model(m: RoutineTable) -> Map<Seq<char>, SendingRoutine>;

/// Relies on dashmap::DashMap::new: creates a map. Nothing is stated of
/// the result's contents here; `routines_clear` establishes emptiness.
#[verifier::external_body]
pub fn routines_new() -> (r: RoutineTable) {
    dashmap::DashMap::new()
}

/// Relies on dashmap::DashMap::clear: removes every entry.
#[verifier::external_body]
pub fn routines_clear(m: &mut RoutineTable)
    ensures
        forall|k: Seq<char>| !routines_model(*final(m)).contains_key(k),
{
    m.clear();
}

/// Relies on dashmap::DashMap::insert: maps `key` to `value`, returning
/// the value the key was mapped to before, if any.
#[verifier::external_body]
pub fn routines_insert(
    m: &mut RoutineTable,
    key: String,
    value: SendingRoutine,
) -> (prior: Option<SendingRoutine>)
    ensures
        routines_model(*final(m)) == routines_model(*old(m)).insert(key@, value),
        match prior {
            Some(p) => routines_model(*old(m)).contains_key(key@) && p == routines_model(
                *old(m),
            )[key@],
            None => !routines_model(*old(m)).contains_key(key@),
        },
{
    m.insert(key, value)
}

/// Relies on dashmap::DashMap::remove: removes the entry for `key`, if
/// one exists.
#[verifier::external_body]
pub fn routines_remove(m: &mut RoutineTable, key: &String)
    ensures
        routines_model(*final(m)) == routines_model(*old(m)).remove(key@),
{
    m.remove(key);
}

/// Relies on dashmap::DashMap::contains_key.
#[verifier::external_body]
pub fn routines_contains(m: &RoutineTable, key: &String) -> (r: bool)
    ensures
        r == routines_model(*m).contains_key(key@),
{
    m.contains_key(key)
}

/// Relies on dashmap::DashMap::get: the value mapped to `key`, cloned out
/// of the map's read guard.
#[verifier::external_body]
pub fn routines_get(m: &RoutineTable, key: &String) -> (r: Option<SendingRoutine>)
    ensures
        match r {
            Some(v) => routines_model(*m).contains_key(key@) && v == routines_model(*m)[key@],
            None => !routines_model(*m).contains_key(key@),
        },
{
    m.get(key).map(|entry| entry.value().clone())
}

/// Relies on dashmap::DashMap::iter: yields each entry exactly once, in no
/// particular order; keys and values are cloned out of the read guards.
#[verifier::external_body]
pub fn routines_snapshot(m: &RoutineTable) -> (r: Vec<(String, SendingRoutine)>)
    ensures
        forall|i: int|
            0 <= i < r@.len() ==> routines_model(*m).contains_key(#[trigger] r@[i].0@)
                && routines_model(*m)[r@[i].0@] == r@[i].1,
        forall|k: Seq<char>|
            routines_model(*m).contains_key(k) ==> exists|i: int|
                0 <= i < r@.len() && (#[trigger] r@[i].0@) == k,
        forall|i: int, j: int| 0 <= i < j < r@.len() ==> r@[i].0@ != r@[j].0@,
{
    m.iter().map(|entry| (entry.key().clone(), entry.value().clone())).collect()
}

} // verus!
