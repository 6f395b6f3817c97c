//! Addresses, interfaces, and the rule that picks the one eligible IPv4
//! address of an interface: private, loopback and link-local addresses are
//! accepted outright, multicast is rejected, any other IPv4 address is
//! accepted, and IPv6 addresses are ignored.

use vstd::prelude::*;

verus! {

/// An IPv4 address as its four octets, `a.b.c.d`.
#[derive(Clone, Copy, PartialEq, Eq, Hash, Debug, Structural)]
pub struct Ipv4Address {
    pub a: u8,
    pub b: u8,
    pub c: u8,
    pub d: u8,
}

/// An IP address. IPv6 addresses take no part in path selection and are
/// carried only as their 128-bit value.
#[derive(Clone, Copy, PartialEq, Eq, Hash, Debug, Structural)]
pub enum IpAddress {
    V4(Ipv4Address),
    V6(u128),
}

/// A socket address: an IP address and a port.
#[derive(Clone, Copy, PartialEq, Eq, Hash, Debug, Structural)]
pub struct SockAddr {
    pub ip: IpAddress,
    pub port: u16,
}

impl SockAddr {
    /// The unspecified address `0.0.0.0:0`, the initial value of the shared
    /// VPN-peer cell.
    pub fn unspecified() -> (r: SockAddr)
        ensures
            r == SockAddr::spec_unspecified(),
    {
        SockAddr { ip: IpAddress::V4(Ipv4Address { a: 0, b: 0, c: 0, d: 0 }), port: 0 }
    }

    pub open spec fn spec_unspecified() -> SockAddr {
        SockAddr { ip: IpAddress::V4(Ipv4Address { a: 0, b: 0, c: 0, d: 0 }), port: 0 }
    }
}

/// A local network interface: its name and the addresses bound to it, in
/// the order the system reports them.
#[derive(Clone, Debug)]
pub struct NetInterface {
    pub name: String,
    pub addrs: Vec<IpAddress>,
}

/// 10.0.0.0/8, 172.16.0.0/12 or 192.168.0.0/16.
pub open spec fn spec_is_private(ip: Ipv4Address) -> bool {
    ||| ip.a == 10
    ||| (ip.a == 172 && 16 <= ip.b && ip.b <= 31)
    ||| (ip.a == 192 && ip.b == 168)
}

/// 127.0.0.0/8.
pub open spec fn spec_is_loopback(ip: Ipv4Address) -> bool {
    ip.a == 127
}

/// 169.254.0.0/16.
pub open spec fn spec_is_link_local(ip: Ipv4Address) -> bool {
    ip.a == 169 && ip.b == 254
}

/// 224.0.0.0/4.
pub open spec fn spec_is_multicast(ip: Ipv4Address) -> bool {
    224 <= ip.a && ip.a <= 239
}

/// The selection rule on a single IPv4 address, clauses in order, first
/// match wins: private, loopback and link-local are accepted; multicast is
/// rejected; anything else is accepted.
pub open spec fn spec_eligible_v4(ip: Ipv4Address) -> bool {
    if spec_is_private(ip) {
        true
    } else if spec_is_loopback(ip) {
        true
    } else if spec_is_link_local(ip) {
        true
    } else if spec_is_multicast(ip) {
        false
    } else {
        true
    }
}

/// An address yields a path only if it is an eligible IPv4 address.
pub open spec fn spec_eligible(addr: IpAddress) -> bool {
    match addr {
        IpAddress::V4(v4) => spec_eligible_v4(v4),
        IpAddress::V6(_) => false,
    }
}

/// The first eligible address of a list, if any.
pub open spec fn first_eligible(addrs: Seq<IpAddress>) -> Option<IpAddress>
    decreases addrs.len(),
{
    if addrs.len() == 0 {
        None
    } else if spec_eligible(addrs[0]) {
        Some(addrs[0])
    } else {
        first_eligible(addrs.drop_first())
    }
}

/// If none of the first `i` addresses is eligible, the search may start at
/// `i` instead of at the head.
proof fn lemma_first_eligible_skip(addrs: Seq<IpAddress>, i: int)
    requires
        0 <= i <= addrs.len(),
        forall|j: int| 0 <= j < i ==> !spec_eligible(#[trigger] addrs[j]),
    ensures
        first_eligible(addrs) == first_eligible(addrs.skip(i)),
    decreases i,
{
    if i > 0 {
        assert(addrs.skip(i - 1).drop_first() =~= addrs.skip(i));
        lemma_first_eligible_skip(addrs, i - 1);
        assert(addrs.skip(i - 1)[0] == addrs[i - 1]);
    } else {
        assert(addrs.skip(0) =~= addrs);
    }
}

pub fn is_eligible(addr: &IpAddress) -> (r: bool)
    ensures
        r == spec_eligible(*addr),
{
    match addr {
        IpAddress::V4(v4) => {
            if v4.a == 10 {
                true
            } else if v4.a == 172 && 16 <= v4.b && v4.b <= 31 {
                true
            } else if v4.a == 192 && v4.b == 168 {
                true
            } else if v4.a == 127 {
                true
            } else if v4.a == 169 && v4.b == 254 {
                true
            } else if 224 <= v4.a && v4.a <= 239 {
                false
            } else {
                true
            }
        },
        IpAddress::V6(_) => false,
    }
}

/// The single eligible IPv4 address of an interface: the first address in
/// its list that the selection rule accepts, or nothing.
pub fn get_address_by_interface(iface: &NetInterface) -> (r: Option<IpAddress>)
    ensures
        r == first_eligible(iface.addrs@),
{
    let n = iface.addrs.len();
    let mut i: usize = 0;
    while i < n
        invariant
            0 <= i <= n,
            n == iface.addrs@.len(),
            forall|j: int| 0 <= j < i ==> !spec_eligible(#[trigger] iface.addrs@[j]),
        decreases n - i,
    {
        let addr = iface.addrs[i];
        if is_eligible(&addr) {
            proof {
                lemma_first_eligible_skip(iface.addrs@, i as int);
                assert(iface.addrs@.skip(i as int)[0] == iface.addrs@[i as int]);
            }
            return Some(addr);
        }
        i = i + 1;
    }
    proof {
        lemma_first_eligible_skip(iface.addrs@, n as int);
        assert(iface.addrs@.skip(n as int).len() == 0);
    }
    None
}

/// Path creation takes the first address resolution returned; a
/// resolution that returned none fails the creation.
pub fn choose_destination(addrs: &Vec<SockAddr>) -> (r: Option<SockAddr>)
    ensures
        addrs@.len() == 0 ==> r is None,
        addrs@.len() > 0 ==> r == Some(addrs@[0]),
{
    if addrs.len() == 0 {
        None
    } else {
        Some(addrs[0])
    }
}

/// Whether `name` occurs among `names`, compared as character sequences.
pub open spec fn name_in(names: Seq<String>, name: Seq<char>) -> bool {
    exists|j: int| 0 <= j < names.len() && #[trigger] names[j]@ == name
}

pub fn contains_name(names: &Vec<String>, name: &String) -> (r: bool)
    ensures
        r == name_in(names@, name@),
{
    let n = names.len();
    let mut i: usize = 0;
    while i < n
        invariant
            0 <= i <= n,
            n == names@.len(),
            forall|j: int| 0 <= j < i ==> #[trigger] names@[j]@ != name@,
        decreases n - i,
    {
        let candidate = &names[i];
        if *candidate == *name {
            return true;
        }
        i = i + 1;
    }
    false
}

/// Whether `name` occurs among the first components of `pairs`.
pub open spec fn pair_name_in<T>(pairs: Seq<(String, T)>, name: Seq<char>) -> bool {
    exists|j: int| 0 <= j < pairs.len() && (#[trigger] pairs[j].0@) == name
}

pub fn pair_contains_name<T>(pairs: &Vec<(String, T)>, name: &String) -> (r: bool)
    ensures
        r == pair_name_in(pairs@, name@),
{
    let n = pairs.len();
    let mut i: usize = 0;
    while i < n
        invariant
            i <= n,
            n == pairs@.len(),
            forall|j: int| 0 <= j < i ==> (#[trigger] pairs@[j].0@) != name@,
        decreases n - i,
    {
        let candidate = &pairs[i].0;
        if *candidate == *name {
            return true;
        }
        i = i + 1;
    }
    false
}

/// Whether `a` occurs in `addrs`.
pub open spec fn addr_in(addrs: Seq<SockAddr>, a: SockAddr) -> bool {
    exists|j: int| 0 <= j < addrs.len() && (#[trigger] addrs[j]) == a
}

/// Appending to an address list keeps every address it had, and adds the
/// new one.
pub proof fn lemma_addr_in_extend(pre: Seq<SockAddr>, post: Seq<SockAddr>, a: SockAddr)
    requires
        post.len() == pre.len() + 1,
        forall|i: int| 0 <= i < pre.len() ==> post[i] == pre[i],
    ensures
        addr_in(pre, a) ==> addr_in(post, a),
        post[pre.len() as int] == a ==> addr_in(post, a),
{
    if addr_in(pre, a) {
        let j = choose|j: int| 0 <= j < pre.len() && (#[trigger] pre[j]) == a;
        assert(post[j] == a);
    }
    if post[pre.len() as int] == a {
        assert(0 <= pre.len() < post.len());
    }
}

/// Appending to a name list keeps every name it had, and adds the new
/// one.
pub proof fn lemma_name_in_extend(pre: Seq<String>, post: Seq<String>, k: Seq<char>)
    requires
        post.len() == pre.len() + 1,
        forall|i: int| 0 <= i < pre.len() ==> post[i] == pre[i],
    ensures
        name_in(pre, k) ==> name_in(post, k),
        post[pre.len() as int]@ == k ==> name_in(post, k),
{
    if name_in(pre, k) {
        let j = choose|j: int| 0 <= j < pre.len() && (#[trigger] pre[j]@) == k;
        assert(post[j]@ == k);
    }
    if post[pre.len() as int]@ == k {
        assert(0 <= pre.len() < post.len());
    }
}

/// The same, for lists of name-value pairs.
pub proof fn lemma_pair_name_in_extend<T>(pre: Seq<(String, T)>, post: Seq<(String, T)>, k: Seq<char>)
    requires
        post.len() == pre.len() + 1,
        forall|i: int| 0 <= i < pre.len() ==> post[i] == pre[i],
    ensures
        pair_name_in(pre, k) ==> pair_name_in(post, k),
        post[pre.len() as int].0@ == k ==> pair_name_in(post, k),
{
    if pair_name_in(pre, k) {
        let j = choose|j: int| 0 <= j < pre.len() && (#[trigger] pre[j].0@) == k;
        assert(post[j].0@ == k);
    }
    if post[pre.len() as int].0@ == k {
        assert(0 <= pre.len() < post.len());
    }
}

/// The first interface called `name`, if any.
pub open spec fn find_interface(ifaces: Seq<NetInterface>, name: Seq<char>) -> Option<NetInterface>
    decreases ifaces.len(),
{
    if ifaces.len() == 0 {
        None
    } else if ifaces[0].name@ == name {
        Some(ifaces[0])
    } else {
        find_interface(ifaces.drop_first(), name)
    }
}

proof fn lemma_find_interface_skip(ifaces: Seq<NetInterface>, name: Seq<char>, i: int)
    requires
        0 <= i <= ifaces.len(),
        forall|j: int| 0 <= j < i ==> (#[trigger] ifaces[j]).name@ != name,
    ensures
        find_interface(ifaces, name) == find_interface(ifaces.skip(i), name),
    decreases i,
{
    if i > 0 {
        assert(ifaces.skip(i - 1).drop_first() =~= ifaces.skip(i));
        lemma_find_interface_skip(ifaces, name, i - 1);
        assert(ifaces.skip(i - 1)[0] == ifaces[i - 1]);
    } else {
        assert(ifaces.skip(0) =~= ifaces);
    }
}

/// The first occurrence of a name is what `find_interface` returns.
pub proof fn lemma_find_interface_first(ifaces: Seq<NetInterface>, j: int)
    requires
        0 <= j < ifaces.len(),
        forall|j2: int| 0 <= j2 < j ==> (#[trigger] ifaces[j2]).name@ != ifaces[j].name@,
    ensures
        find_interface(ifaces, ifaces[j].name@) == Some(ifaces[j]),
{
    lemma_find_interface_skip(ifaces, ifaces[j].name@, j);
    assert(ifaces.skip(j)[0] == ifaces[j]);
}

pub fn find_interface_index(ifaces: &Vec<NetInterface>, name: &String) -> (r: Option<usize>)
    ensures
        match r {
            Some(j) => 0 <= j < ifaces@.len() && ifaces@[j as int].name@ == name@ && (forall|j2: int|
                0 <= j2 < j ==> (#[trigger] ifaces@[j2]).name@ != name@) && find_interface(
                ifaces@,
                name@,
            ) == Some(ifaces@[j as int]),
            None => find_interface(ifaces@, name@) is None && (forall|j2: int|
                0 <= j2 < ifaces@.len() ==> (#[trigger] ifaces@[j2]).name@ != name@),
        },
{
    let n = ifaces.len();
    let mut i: usize = 0;
    while i < n
        invariant
            0 <= i <= n,
            n == ifaces@.len(),
            forall|j: int| 0 <= j < i ==> (#[trigger] ifaces@[j]).name@ != name@,
        decreases n - i,
    {
        let candidate = &ifaces[i].name;
        if *candidate == *name {
            proof {
                lemma_find_interface_skip(ifaces@, name@, i as int);
                assert(ifaces@.skip(i as int)[0] == ifaces@[i as int]);
            }
            return Some(i);
        }
        i = i + 1;
    }
    proof {
        lemma_find_interface_skip(ifaces@, name@, n as int);
        assert(ifaces@.skip(n as int).len() == 0);
    }
    None
}

} // verus!
