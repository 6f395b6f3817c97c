//! The client's router core: the path table keyed by interface name, the
//! shared VPN-peer cell, and the decisions the four activities take —
//! which paths a poll removes and creates, which paths a tunnel datagram
//! fans out to, and how a path reply updates its record.
//!
//! The surrounding loops (socket reads and writes, DNS, the poll timer)
//! run outside; they feed events in as plain values and carry the decided
//! actions out.

use vstd::prelude::*;

use crate::client::table::{
    routines_clear, routines_contains, routines_get, routines_insert, routines_model,
    routines_new, routines_remove, routines_snapshot, RoutineTable,
};
use crate::client::types::{ClientSettings, SendingRoutine};
use crate::net::{
    contains_name, find_interface, find_interface_index, first_eligible,
    get_address_by_interface, lemma_name_in_extend, lemma_pair_name_in_extend, name_in,
    pair_contains_name, pair_name_in, IpAddress, NetInterface, SockAddr,
};
use crate::{saturating_add_u64, spec_saturating_add_u64};

verus! {

/// The client's state: its configuration, the path table, and the shared
/// VPN-peer cell, initially the unspecified address.
pub struct Service {
    pub settings: ClientSettings,
    pub routines: RoutineTable,
    pub source_addr: SockAddr,
}

/// The reconciliation rule of one poll: an existing path is dropped when
/// its record is closing, its interface is excluded, its interface no
/// longer exists, the interface has no eligible address, or the eligible
/// address differs from the one the path was created with.
pub open spec fn spec_should_drop(
    name: Seq<char>,
    routine: SendingRoutine,
    ifaces: Seq<NetInterface>,
    excluded: Seq<String>,
) -> bool {
    ||| routine.is_closing
    ||| name_in(excluded, name)
    ||| (match find_interface(ifaces, name) {
        None => true,
        Some(ifc) => match first_eligible(ifc.addrs@) {
            None => true,
            Some(a) => a != routine.src_addr.ip,
        },
    })
}

/// The creation rule of one poll: an interface gets a path when it is not
/// excluded, has no path yet, and offers an eligible address.
pub open spec fn spec_wants_path(
    ifc: NetInterface,
    model: Map<Seq<char>, SendingRoutine>,
    excluded: Seq<String>,
) -> bool {
    &&& !name_in(excluded, ifc.name@)
    &&& !model.contains_key(ifc.name@)
    &&& first_eligible(ifc.addrs@) is Some
}

/// A record after a successful receive: the clock and the byte counter
/// move, everything else stays.
pub open spec fn spec_touch(r: SendingRoutine, bytes: u64, now_ms: u64) -> SendingRoutine {
    SendingRoutine {
        ifname: r.ifname,
        src_addr: r.src_addr,
        dst_addr: r.dst_addr,
        last_received_at: now_ms,
        total_received_bytes: spec_saturating_add_u64(r.total_received_bytes, bytes),
        is_closing: r.is_closing,
    }
}

/// A record after its egress socket failed a receive: only the closing
/// flag moves.
pub open spec fn spec_mark_closing(r: SendingRoutine) -> SendingRoutine {
    SendingRoutine {
        ifname: r.ifname,
        src_addr: r.src_addr,
        dst_addr: r.dst_addr,
        last_received_at: r.last_received_at,
        total_received_bytes: r.total_received_bytes,
        is_closing: true,
    }
}

/// Updates touch only the receive accounting and the closing flag, never
/// the identity or the addresses a record was created with.
pub proof fn lemma_updates_preserve_identity(r: SendingRoutine, bytes: u64, now_ms: u64)
    ensures
        spec_touch(r, bytes, now_ms).ifname == r.ifname,
        spec_touch(r, bytes, now_ms).src_addr == r.src_addr,
        spec_touch(r, bytes, now_ms).dst_addr == r.dst_addr,
        spec_mark_closing(r).ifname == r.ifname,
        spec_mark_closing(r).src_addr == r.src_addr,
        spec_mark_closing(r).dst_addr == r.dst_addr,
{
}

impl Service {
    /// The table's contents: interface name to path record.
    pub open spec fn model(&self) -> Map<Seq<char>, SendingRoutine> {
        routines_model(self.routines)
    }

    /// Every record sits under its own identity: the name a path was
    /// created for is the name its record carries, so one identity holds
    /// at most one record.
    pub open spec fn wf(&self) -> bool {
        forall|k: Seq<char>|
            #[trigger] self.model().contains_key(k) ==> self.model()[k].ifname@ == k
    }

    /// A fresh client: empty path table, VPN peer still unknown.
    pub fn new(settings: ClientSettings) -> (r: Service)
        ensures
            forall|k: Seq<char>| !r.model().contains_key(k),
            r.source_addr == SockAddr::spec_unspecified(),
            r.settings == settings,
            r.wf(),
    {
        let mut routines = routines_new();
        routines_clear(&mut routines);
        Service { settings, routines, source_addr: SockAddr::unspecified() }
    }

    /// Whether a path for this interface name is present.
    pub fn has_path(&self, ifname: &String) -> (r: bool)
        ensures
            r == self.model().contains_key(ifname@),
    {
        routines_contains(&self.routines, ifname)
    }

    /// Whether a path exists and whether it is closing; a reader
    /// terminates on either `None` or `Some(true)`.
    pub fn path_status(&self, ifname: &String) -> (r: Option<bool>)
        ensures
            match r {
                Some(closing) => self.model().contains_key(ifname@) && closing == self.model()[
                    ifname@
                ].is_closing,
                None => !self.model().contains_key(ifname@),
            },
    {
        match routines_get(&self.routines, ifname) {
            Some(routine) => Some(routine.is_closing),
            None => None,
        }
    }

    /// The record of the path for `ifname`, if one exists.
    pub fn path_record(&self, ifname: &String) -> (r: Option<SendingRoutine>)
        ensures
            match r {
                Some(routine) => self.model().contains_key(ifname@) && routine == self.model()[
                    ifname@
                ],
                None => !self.model().contains_key(ifname@),
            },
    {
        routines_get(&self.routines, ifname)
    }

    /// Remembers the source of the latest tunnel datagram as the VPN peer.
    pub fn learn_peer(&mut self, addr: SockAddr)
        ensures
            final(self).source_addr == addr,
            final(self).settings == old(self).settings,
            final(self).model() == old(self).model(),
    {
        self.source_addr = addr;
    }

    /// The address path replies are forwarded to.
    pub fn peer_addr(&self) -> (r: SockAddr)
        ensures
            r == self.source_addr,
    {
        self.source_addr
    }

    /// One reconciliation decision: the names of the paths this poll must
    /// drop, each exactly once.
    pub fn poll_drop_list(&self, interfaces: &Vec<NetInterface>) -> (drops: Vec<String>)
        ensures
            forall|i: int|
                0 <= i < drops@.len() ==> self.model().contains_key(#[trigger] drops@[i]@)
                    && spec_should_drop(
                    drops@[i]@,
                    self.model()[drops@[i]@],
                    interfaces@,
                    self.settings.excluded_interfaces@,
                ),
            forall|k: Seq<char>|
                self.model().contains_key(k) && spec_should_drop(
                    k,
                    self.model()[k],
                    interfaces@,
                    self.settings.excluded_interfaces@,
                ) ==> name_in(drops@, k),
            forall|i: int, j: int| 0 <= i < j < drops@.len() ==> drops@[i]@ != drops@[j]@,
    {
        let snap = routines_snapshot(&self.routines);
        let mut drops: Vec<String> = Vec::new();
        let n = snap.len();
        let mut idx: usize = 0;
        while idx < n
            invariant
                idx <= n,
                n == snap@.len(),
                forall|i: int|
                    0 <= i < snap@.len() ==> self.model().contains_key(#[trigger] snap@[i].0@)
                        && self.model()[snap@[i].0@] == snap@[i].1,
                forall|k: Seq<char>|
                    self.model().contains_key(k) ==> exists|i: int|
                        0 <= i < snap@.len() && (#[trigger] snap@[i].0@) == k,
                forall|i: int, j: int| 0 <= i < j < snap@.len() ==> snap@[i].0@ != snap@[j].0@,
                forall|i: int|
                    0 <= i < drops@.len() ==> self.model().contains_key(#[trigger] drops@[i]@)
                        && spec_should_drop(
                        drops@[i]@,
                        self.model()[drops@[i]@],
                        interfaces@,
                        self.settings.excluded_interfaces@,
                    ),
                forall|j: int|
                    0 <= j < idx && spec_should_drop(
                        #[trigger] snap@[j].0@,
                        snap@[j].1,
                        interfaces@,
                        self.settings.excluded_interfaces@,
                    ) ==> name_in(drops@, snap@[j].0@),
                forall|i: int|
                    0 <= i < drops@.len() ==> exists|j: int|
                        0 <= j < idx && (#[trigger] drops@[i]@) == snap@[j].0@,
                forall|i: int, j: int| 0 <= i < j < drops@.len() ==> drops@[i]@ != drops@[j]@,
            decreases n - idx,
        {
            let name = &snap[idx].0;
            let routine = &snap[idx].1;
            let mut to_drop = routine.is_closing;
            if !to_drop {
                to_drop = contains_name(&self.settings.excluded_interfaces, name);
            }
            if !to_drop {
                match find_interface_index(interfaces, name) {
                    None => {
                        to_drop = true;
                    },
                    Some(j) => {
                        match get_address_by_interface(&interfaces[j]) {
                            None => {
                                to_drop = true;
                            },
                            Some(a) => {
                                to_drop = a != routine.src_addr.ip;
                            },
                        }
                    },
                }
            }
            assert(to_drop == spec_should_drop(
                snap@[idx as int].0@,
                snap@[idx as int].1,
                interfaces@,
                self.settings.excluded_interfaces@,
            ));
            if to_drop {
                let ghost pre = drops@;
                drops.push(name.clone());
                proof {
                    assert(drops@[pre.len() as int]@ == snap@[idx as int].0@);
                    assert forall|j: int|
                        0 <= j < idx + 1 && spec_should_drop(
                            #[trigger] snap@[j].0@,
                            snap@[j].1,
                            interfaces@,
                            self.settings.excluded_interfaces@,
                        ) implies name_in(drops@, snap@[j].0@) by {
                        lemma_name_in_extend(pre, drops@, snap@[j].0@);
                    }
                }
            }
            idx = idx + 1;
        }
        drops
    }

    /// Removes the listed paths from the table; other entries stay as they
    /// were.
    pub fn remove_paths(&mut self, names: &Vec<String>)
        ensures
            forall|k: Seq<char>|
                #[trigger] final(self).model().contains_key(k) <==> (old(
                    self,
                ).model().contains_key(k) && !name_in(names@, k)),
            forall|k: Seq<char>|
                #[trigger] final(self).model().contains_key(k) ==> final(self).model()[k] == old(
                    self,
                ).model()[k],
            final(self).settings == old(self).settings,
            final(self).source_addr == old(self).source_addr,
            old(self).wf() ==> final(self).wf(),
    {
        let ghost m0 = self.model();
        let ghost settings0 = self.settings;
        let ghost src0 = self.source_addr;
        let n = names.len();
        let mut idx: usize = 0;
        while idx < n
            invariant
                idx <= n,
                n == names@.len(),
                forall|k: Seq<char>|
                    #[trigger] self.model().contains_key(k) <==> (m0.contains_key(k) && !(exists|
                        j: int,
                    |
                        0 <= j < idx && (#[trigger] names@[j]@) == k)),
                forall|k: Seq<char>|
                    #[trigger] self.model().contains_key(k) ==> self.model()[k] == m0[k],
                self.settings == settings0,
                self.source_addr == src0,
            decreases n - idx,
        {
            let ghost prev = self.model();
            routines_remove(&mut self.routines, &names[idx]);
            proof {
                let ghost removed = names@[idx as int]@;
                assert(self.model() == prev.remove(removed));
                assert forall|k: Seq<char>| #[trigger]
                    self.model().contains_key(k) implies (m0.contains_key(k) && !(exists|j: int|
                        0 <= j < idx + 1 && (#[trigger] names@[j]@) == k)) by {
                    assert(prev.contains_key(k));
                    assert(k != removed);
                    if exists|j: int| 0 <= j < idx + 1 && (#[trigger] names@[j]@) == k {
                        let j = choose|j: int|
                            0 <= j < idx + 1 && (#[trigger] names@[j]@) == k;
                        assert(j < idx);
                        assert(!prev.contains_key(k));
                    }
                };
                assert forall|k: Seq<char>|
                    (m0.contains_key(k) && !(exists|j: int|
                        0 <= j < idx + 1 && (#[trigger] names@[j]@) == k)) implies #[trigger]
                    self.model().contains_key(k) by {
                    assert(!(exists|j: int| 0 <= j < idx && (#[trigger] names@[j]@) == k));
                    assert(prev.contains_key(k));
                    assert(names@[idx as int]@ != k);
                };
                assert forall|k: Seq<char>| #[trigger]
                    self.model().contains_key(k) implies self.model()[k] == m0[k] by {
                    assert(prev.contains_key(k));
                    assert(self.model()[k] == prev[k]);
                };
            }
            idx = idx + 1;
        }
    }

    /// Creates a path record for an interface and its chosen source
    /// address, aimed at the resolved server address. The caller must have
    /// checked that no path for this name exists: attempting a duplicate
    /// creation is a programming error in the poller.
    pub fn add_path(&mut self, ifname: String, src_ip: IpAddress, dst_addr: SockAddr, now_ms: u64)
        requires
            !old(self).model().contains_key(ifname@),
        ensures
            final(self).model() == old(self).model().insert(
                ifname@,
                (SendingRoutine {
                    ifname: ifname,
                    src_addr: (SockAddr { ip: src_ip, port: 0 }),
                    dst_addr: dst_addr,
                    last_received_at: now_ms,
                    total_received_bytes: 0,
                    is_closing: false,
                }),
            ),
            final(self).settings == old(self).settings,
            final(self).source_addr == old(self).source_addr,
            old(self).wf() ==> final(self).wf(),
    {
        let src_addr = SockAddr { ip: src_ip, port: 0 };
        let routine = SendingRoutine::new(ifname.clone(), src_addr, dst_addr, now_ms);
        routines_insert(&mut self.routines, ifname, routine);
    }

    /// One reconciliation decision: which interfaces this poll should
    /// create paths for, with the source address each would bind. Only the
    /// first interface of a name is considered, and each name at most
    /// once.
    pub fn creation_candidates(&self, interfaces: &Vec<NetInterface>) -> (cands: Vec<
        (String, IpAddress),
    >)
        ensures
            forall|i: int|
                0 <= i < cands@.len() ==> {
                    &&& !name_in(self.settings.excluded_interfaces@, #[trigger] cands@[i].0@)
                    &&& !self.model().contains_key(cands@[i].0@)
                    &&& (match find_interface(interfaces@, cands@[i].0@) {
                        Some(ifc) => first_eligible(ifc.addrs@) == Some(cands@[i].1),
                        None => false,
                    })
                },
            forall|j: int|
                0 <= j < interfaces@.len() && spec_wants_path(
                    #[trigger] interfaces@[j],
                    self.model(),
                    self.settings.excluded_interfaces@,
                ) && (forall|j2: int|
                    0 <= j2 < j ==> (#[trigger] interfaces@[j2]).name@ != interfaces@[j].name@)
                    ==> pair_name_in(cands@, interfaces@[j].name@),
            forall|i: int, j: int| 0 <= i < j < cands@.len() ==> cands@[i].0@ != cands@[j].0@,
    {
        let mut cands: Vec<(String, IpAddress)> = Vec::new();
        let n = interfaces.len();
        let mut idx: usize = 0;
        while idx < n
            invariant
                idx <= n,
                n == interfaces@.len(),
                forall|i: int|
                    0 <= i < cands@.len() ==> {
                        &&& !name_in(self.settings.excluded_interfaces@, #[trigger] cands@[i].0@)
                        &&& !self.model().contains_key(cands@[i].0@)
                        &&& (match find_interface(interfaces@, cands@[i].0@) {
                            Some(ifc) => first_eligible(ifc.addrs@) == Some(cands@[i].1),
                            None => false,
                        })
                    },
                forall|j: int|
                    0 <= j < idx && spec_wants_path(
                        #[trigger] interfaces@[j],
                        self.model(),
                        self.settings.excluded_interfaces@,
                    ) && (forall|j2: int|
                        0 <= j2 < j ==> (#[trigger] interfaces@[j2]).name@ != interfaces@[j].name@)
                        ==> pair_name_in(cands@, interfaces@[j].name@),
                forall|i: int, j: int| 0 <= i < j < cands@.len() ==> cands@[i].0@ != cands@[j].0@,
            decreases n - idx,
        {
            let ifc = &interfaces[idx];
            if !contains_name(&self.settings.excluded_interfaces, &ifc.name) {
                if !routines_contains(&self.routines, &ifc.name) {
                    if !pair_contains_name(&cands, &ifc.name) {
                        match find_interface_index(interfaces, &ifc.name) {
                            Some(j0) => {
                                if j0 == idx {
                                    match get_address_by_interface(ifc) {
                                        Some(a) => {
                                            let ghost pre = cands@;
                                            cands.push((ifc.name.clone(), a));
                                            proof {
                                                assert(cands@[pre.len() as int].0@ == interfaces@[
                                                    idx as int
                                                ].name@);
                                                assert forall|j: int|
                                                    0 <= j < idx + 1 && spec_wants_path(
                                                        #[trigger] interfaces@[j],
                                                        self.model(),
                                                        self.settings.excluded_interfaces@,
                                                    ) && (forall|j2: int|
                                                        0 <= j2 < j ==> (
                                                        #[trigger] interfaces@[j2]).name@
                                                            != interfaces@[j].name@) implies pair_name_in(
                                                    cands@,
                                                    interfaces@[j].name@,
                                                ) by {
                                                    lemma_pair_name_in_extend(
                                                        pre,
                                                        cands@,
                                                        interfaces@[j].name@,
                                                    );
                                                }
                                            }
                                        },
                                        None => {},
                                    }
                                }
                            },
                            None => {
                                proof {
                                    assert(interfaces@[idx as int].name@ == ifc.name@);
                                    assert(false);
                                }
                            },
                        }
                    }
                }
            }
            idx = idx + 1;
        }
        cands
    }

    /// The fan-out plan for one tunnel datagram: every live path's name
    /// and remote address, each exactly once. Closing paths take no new
    /// sends.
    pub fn fanout_targets(&self) -> (targets: Vec<(String, SockAddr)>)
        ensures
            forall|i: int|
                0 <= i < targets@.len() ==> self.model().contains_key(#[trigger] targets@[i].0@)
                    && !self.model()[targets@[i].0@].is_closing && targets@[i].1 == self.model()[
                    targets@[i].0@
                ].dst_addr,
            forall|k: Seq<char>|
                self.model().contains_key(k) && !self.model()[k].is_closing ==> pair_name_in(
                    targets@,
                    k,
                ),
            forall|i: int, j: int| 0 <= i < j < targets@.len() ==> targets@[i].0@ != targets@[j].0@,
    {
        let snap = routines_snapshot(&self.routines);
        let mut targets: Vec<(String, SockAddr)> = Vec::new();
        let n = snap.len();
        let mut idx: usize = 0;
        while idx < n
            invariant
                idx <= n,
                n == snap@.len(),
                forall|i: int|
                    0 <= i < snap@.len() ==> self.model().contains_key(#[trigger] snap@[i].0@)
                        && self.model()[snap@[i].0@] == snap@[i].1,
                forall|k: Seq<char>|
                    self.model().contains_key(k) ==> exists|i: int|
                        0 <= i < snap@.len() && (#[trigger] snap@[i].0@) == k,
                forall|i: int, j: int| 0 <= i < j < snap@.len() ==> snap@[i].0@ != snap@[j].0@,
                forall|i: int|
                    0 <= i < targets@.len() ==> self.model().contains_key(
                        #[trigger] targets@[i].0@,
                    ) && !self.model()[targets@[i].0@].is_closing && targets@[i].1 == self.model()[
                        targets@[i].0@
                    ].dst_addr,
                forall|j: int|
                    0 <= j < idx && !snap@[j].1.is_closing ==> pair_name_in(
                        targets@,
                        #[trigger] snap@[j].0@,
                    ),
                forall|i: int|
                    0 <= i < targets@.len() ==> exists|j: int|
                        0 <= j < idx && (#[trigger] targets@[i].0@) == snap@[j].0@,
                forall|i: int, j: int|
                    0 <= i < j < targets@.len() ==> targets@[i].0@ != targets@[j].0@,
            decreases n - idx,
        {
            let name = &snap[idx].0;
            let routine = &snap[idx].1;
            if !routine.is_closing {
                let ghost pre = targets@;
                targets.push((name.clone(), routine.dst_addr));
                proof {
                    assert(targets@[pre.len() as int].0@ == snap@[idx as int].0@);
                    assert forall|j: int|
                        0 <= j < idx + 1 && !snap@[j].1.is_closing implies pair_name_in(
                        targets@,
                        #[trigger] snap@[j].0@,
                    ) by {
                        lemma_pair_name_in_extend(pre, targets@, snap@[j].0@);
                    }
                }
            }
            idx = idx + 1;
        }
        targets
    }

    /// A reply arrived on a path: refresh its receive time and add to its
    /// byte counter. Returns whether the path was still present; an absent
    /// path leaves the table unchanged.
    pub fn note_path_received(&mut self, ifname: &String, bytes: u64, now_ms: u64) -> (found: bool)
        ensures
            found == old(self).model().contains_key(ifname@),
            found ==> final(self).model() == old(self).model().insert(
                ifname@,
                spec_touch(old(self).model()[ifname@], bytes, now_ms),
            ),
            !found ==> final(self).model() == old(self).model(),
            final(self).settings == old(self).settings,
            final(self).source_addr == old(self).source_addr,
            old(self).wf() ==> final(self).wf(),
    {
        match routines_get(&self.routines, ifname) {
            Some(routine) => {
                let updated = SendingRoutine {
                    last_received_at: now_ms,
                    total_received_bytes: saturating_add_u64(
                        routine.total_received_bytes,
                        bytes,
                    ),
                    ..routine
                };
                routines_insert(&mut self.routines, ifname.clone(), updated);
                true
            },
            None => false,
        }
    }

    /// A receive on a path's egress socket failed: set the record's
    /// closing flag, so the reader terminates and the next poll drops the
    /// path. Returns whether the path was still present.
    pub fn note_path_recv_error(&mut self, ifname: &String) -> (found: bool)
        ensures
            found == old(self).model().contains_key(ifname@),
            found ==> final(self).model() == old(self).model().insert(
                ifname@,
                spec_mark_closing(old(self).model()[ifname@]),
            ),
            !found ==> final(self).model() == old(self).model(),
            final(self).settings == old(self).settings,
            final(self).source_addr == old(self).source_addr,
            old(self).wf() ==> final(self).wf(),
    {
        match routines_get(&self.routines, ifname) {
            Some(routine) => {
                let updated = SendingRoutine { is_closing: true, ..routine };
                routines_insert(&mut self.routines, ifname.clone(), updated);
                true
            },
            None => false,
        }
    }
}

/// One full poll rebinds every interface to its current address: after
/// the poll's drop list is applied and a path is created for each
/// candidate, every non-excluded interface (first of its name) with an
/// eligible address holds a path bound to exactly that address. In
/// particular, a path whose interface's eligible address changed is
/// replaced, bound to the new address, within the same poll.
pub proof fn lemma_poll_rebinds_interfaces(
    before: Map<Seq<char>, SendingRoutine>,
    after_drops: Map<Seq<char>, SendingRoutine>,
    cands: Seq<(String, IpAddress)>,
    created: Map<Seq<char>, SendingRoutine>,
    ifaces: Seq<NetInterface>,
    excluded: Seq<String>,
)
    requires
        // what applying the poll's drop list leaves, as `poll_drop_list`
        // and `remove_paths` guarantee it
        forall|k: Seq<char>|
            #[trigger] after_drops.contains_key(k) <==> (before.contains_key(k)
                && !spec_should_drop(k, before[k], ifaces, excluded)),
        forall|k: Seq<char>| #[trigger] after_drops.contains_key(k) ==> after_drops[k] == before[k],
        // what the candidate list holds, as `creation_candidates`
        // guarantees it of the table the drops left behind
        forall|j: int|
            0 <= j < ifaces.len() && spec_wants_path(#[trigger] ifaces[j], after_drops, excluded)
                && (forall|j2: int|
                0 <= j2 < j ==> (#[trigger] ifaces[j2]).name@ != ifaces[j].name@) ==> pair_name_in(
                cands,
                ifaces[j].name@,
            ),
        forall|i: int|
            0 <= i < cands.len() ==> (match find_interface(ifaces, (#[trigger] cands[i]).0@) {
                Some(ifc) => first_eligible(ifc.addrs@) == Some(cands[i].1),
                None => false,
            }),
        // the table after creation: the survivors, plus one record per
        // candidate bound to the candidate's address, as `add_path`
        // guarantees it
        forall|k: Seq<char>|
            #[trigger] after_drops.contains_key(k) ==> created.contains_key(k) && created[k]
                == after_drops[k],
        forall|i: int|
            0 <= i < cands.len() ==> created.contains_key((#[trigger] cands[i]).0@) && created[
                cands[i].0@
            ].src_addr.ip == cands[i].1,
    ensures
        forall|j: int|
            0 <= j < ifaces.len() && !name_in(excluded, (#[trigger] ifaces[j]).name@) && (forall|
                j2: int,
            |
                0 <= j2 < j ==> (#[trigger] ifaces[j2]).name@ != ifaces[j].name@) && (
            first_eligible(ifaces[j].addrs@) is Some) ==> created.contains_key(ifaces[j].name@)
                && Some(created[ifaces[j].name@].src_addr.ip) == first_eligible(ifaces[j].addrs@),
{
    assert forall|j: int|
        0 <= j < ifaces.len() && !name_in(excluded, (#[trigger] ifaces[j]).name@) && (forall|
            j2: int,
        |
            0 <= j2 < j ==> (#[trigger] ifaces[j2]).name@ != ifaces[j].name@) && (first_eligible(
            ifaces[j].addrs@,
        ) is Some) implies created.contains_key(ifaces[j].name@) && Some(
        created[ifaces[j].name@].src_addr.ip,
    ) == first_eligible(ifaces[j].addrs@) by {
        let name = ifaces[j].name@;
        crate::net::lemma_find_interface_first(ifaces, j);
        if after_drops.contains_key(name) {
            assert(!spec_should_drop(name, before[name], ifaces, excluded));
        } else {
            assert(spec_wants_path(ifaces[j], after_drops, excluded));
            assert(pair_name_in(cands, name));
            let i = choose|i: int| 0 <= i < cands.len() && (#[trigger] cands[i].0@) == name;
            assert(created.contains_key(cands[i].0@));
        }
    }
}

/// The fan-out dichotomy: a datagram offered to the fan-out is offered to
/// every live path, and after the failed sends are applied, a live path
/// either received the send and is still in the table, or its send failed
/// and it is gone — removed in the same iteration.
pub proof fn lemma_fanout_dichotomy(
    before: Map<Seq<char>, SendingRoutine>,
    targets: Seq<(String, SockAddr)>,
    failed: Seq<String>,
    after: Map<Seq<char>, SendingRoutine>,
)
    requires
        forall|k: Seq<char>|
            before.contains_key(k) && !before[k].is_closing ==> pair_name_in(targets, k),
        forall|k: Seq<char>|
            #[trigger] after.contains_key(k) <==> (before.contains_key(k) && !name_in(failed, k)),
    ensures
        forall|k: Seq<char>|
            before.contains_key(k) && !before[k].is_closing ==> pair_name_in(targets, k) && (
            name_in(failed, k) ==> !after.contains_key(k)) && (!name_in(failed, k)
                ==> after.contains_key(k)),
        forall|k: Seq<char>| name_in(failed, k) ==> !after.contains_key(k),
{
}

} // verus!
