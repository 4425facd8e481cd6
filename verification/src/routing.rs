//! The routing table and the choice of a route for an outgoing packet.
use vstd::prelude::*;
use crate::error::SyscallErr;
use crate::iface::DeviceModel;
use crate::net_core;
use crate::net_core::{NetGlobals, NetNamespace};
use crate::seqs;
use crate::wire::{self, IpAddress, IpCidr, IpVersion, Ipv4Address};

verus! {

/// The identity of a socket in the directory of routed sockets.
#[derive(Clone, Copy, Debug, PartialEq, Eq, PartialOrd, Ord, Structural)]
pub struct RouteSocketHandle(pub usize);

#[derive(Clone, Copy, Debug, PartialEq, Eq, Structural)]
pub enum InetProtocol {
    Tcp,
    Udp,
    Raw,
}

/// Where a packet goes: through which interface, from which address, to which
/// next hop, and whether it stays on this machine.
#[derive(Clone, Copy, Debug, PartialEq, Eq, Structural)]
pub struct RouteDecision {
    pub ifindex: u32,
    pub source: IpAddress,
    pub next_hop: Option<IpAddress>,
    pub is_local: bool,
}

#[derive(Clone, Copy, Debug, PartialEq, Eq, Structural)]
pub enum RouteKind {
    Local { dst_ifindex: u32 },
    Connected { oif: u32 },
    Gateway { oif: u32, gw: Ipv4Address },
    Unreachable,
}

/// The type of a routing table entry.
#[derive(Clone, Copy, Debug, PartialEq, Eq, Structural)]
pub enum RouteType {
    /// Directly connected network.
    Connected,
    /// Static route (administratively configured).
    Static,
    /// Default route (0.0.0.0/0 or ::/0).
    Default,
}

/// A single entry in the routing table.
#[derive(Clone, Copy, Debug, PartialEq, Eq, Structural)]
pub struct RouteEntry {
    pub destination: IpCidr,
    /// None for connected routes.
    pub next_hop: Option<IpAddress>,
    pub ifindex: u32,
    pub metric: u32,
    pub route_type: RouteType,
}

/// A simple routing table.
pub struct RouteTable {
    pub entries: Vec<RouteEntry>,
}

/// A routing table with lookup and management.
pub struct Router {
    pub table: RouteTable,
}

pub open spec fn not_towards(dest: IpCidr) -> spec_fn(RouteEntry) -> bool {
    |e: RouteEntry| e.destination != dest
}

pub open spec fn not_connected_to(ifindex: u32, dest: IpCidr) -> spec_fn(RouteEntry) -> bool {
    |e: RouteEntry|
        !(e.ifindex == ifindex && e.destination == dest && e.route_type == RouteType::Connected)
}

pub open spec fn not_leased(ifindex: u32) -> spec_fn(RouteEntry) -> bool {
    |e: RouteEntry|
        !(e.ifindex == ifindex && (e.route_type == RouteType::Connected || e.route_type
            == RouteType::Default))
}

pub open spec fn routes_to(dest: IpAddress) -> spec_fn(RouteEntry) -> bool {
    |e: RouteEntry| e.destination.contains(dest)
}

/// Entry `i` is the most specific route to `ip`, of those the one with the
/// lowest metric, and the first of those.
pub open spec fn is_best_route(entries: Seq<RouteEntry>, ip: IpAddress, i: int) -> bool {
    &&& 0 <= i < entries.len()
    &&& entries[i].destination.contains(ip)
    &&& forall|j: int|
        0 <= j < entries.len() && (#[trigger] entries[j]).destination.contains(ip) ==> {
            ||| entries[j].destination.prefix_len < entries[i].destination.prefix_len
            ||| entries[j].destination.prefix_len == entries[i].destination.prefix_len
                && entries[j].metric > entries[i].metric
            ||| entries[j].destination.prefix_len == entries[i].destination.prefix_len
                && entries[j].metric == entries[i].metric && i <= j
        }
}

/// The most specific route to `ip` with the lowest metric.
pub open spec fn best_route(entries: Seq<RouteEntry>, ip: IpAddress) -> Option<RouteEntry> {
    if exists|i: int| is_best_route(entries, ip, i) {
        Some(entries[choose|i: int| is_best_route(entries, ip, i)])
    } else {
        None
    }
}

/// There is one best route at most, and there is one whenever some entry leads
/// to the address. No other is more specific, and of those that are as
/// specific none has a lower metric.
pub proof fn law_best_route(entries: Seq<RouteEntry>, ip: IpAddress)
    ensures
        forall|i: int, j: int|
            is_best_route(entries, ip, i) && is_best_route(entries, ip, j) ==> i == j,
        forall|j: int|
            0 <= j < entries.len() && (#[trigger] entries[j]).destination.contains(ip) ==> (
            best_route(entries, ip) matches Some(b) && b.destination.contains(ip)
                && b.destination.prefix_len >= entries[j].destination.prefix_len && (
            b.destination.prefix_len == entries[j].destination.prefix_len ==> b.metric
                <= entries[j].metric)),
        best_route(entries, ip) is None <==> forall|j: int|
            0 <= j < entries.len() ==> !(#[trigger] entries[j]).destination.contains(ip),
{
    lemma_best_exists(entries, ip, entries.len() as int);
}

proof fn lemma_best_exists(entries: Seq<RouteEntry>, ip: IpAddress, n: int)
    requires
        0 <= n <= entries.len(),
    ensures
        (exists|j: int| 0 <= j < n && (#[trigger] entries[j]).destination.contains(ip)) ==> exists|
            i: int,
        |
            is_best_route(entries.take(n), ip, i),
        n == entries.len() ==> entries.take(n) =~= entries,
    decreases n,
{
    if n > 0 && exists|j: int| 0 <= j < n && (#[trigger] entries[j]).destination.contains(ip) {
        lemma_best_exists(entries, ip, n - 1);
        let t = entries.take(n);
        let s = entries.take(n - 1);
        let last = entries[n - 1];
        if exists|j: int| 0 <= j < n - 1 && (#[trigger] entries[j]).destination.contains(ip) {
            let b = choose|i: int| is_best_route(s, ip, i);
            assert(forall|j: int| 0 <= j < n - 1 ==> #[trigger] t[j] == s[j]);
            assert(t[n - 1] == last);
            if last.destination.contains(ip) && (last.destination.prefix_len
                > s[b].destination.prefix_len || last.destination.prefix_len
                == s[b].destination.prefix_len && last.metric < s[b].metric) {
                assert(is_best_route(t, ip, n - 1));
            } else {
                assert(is_best_route(t, ip, b));
            }
        } else {
            assert(t[n - 1] == last);
            assert forall|j: int| 0 <= j < n - 1 implies !(#[trigger] t[j]).destination.contains(ip) by {
                assert(t[j] == entries[j]);
            }
            assert(is_best_route(t, ip, n - 1));
        }
    }
}

/// Entry `i` leads to `ip` by a block with that prefix length, of those with
/// the lowest metric, and is the first of those.
pub open spec fn is_best_of(entries: Seq<RouteEntry>, ip: IpAddress, len: u8, i: int) -> bool {
    &&& 0 <= i < entries.len()
    &&& entries[i].destination.contains(ip)
    &&& entries[i].destination.prefix_len == len
    &&& forall|j: int|
        0 <= j < entries.len() && (#[trigger] entries[j]).destination.contains(ip)
            && entries[j].destination.prefix_len == len ==> {
            ||| entries[j].metric > entries[i].metric
            ||| entries[j].metric == entries[i].metric && i <= j
        }
}

/// The first route to `ip`, or one as specific with a lower metric.
pub open spec fn preferred_route(entries: Seq<RouteEntry>, ip: IpAddress) -> Option<RouteEntry> {
    match seqs::find_first(entries, routes_to(ip)) {
        None => None,
        Some(e) => Some(
            entries[choose|i: int| is_best_of(entries, ip, e.destination.prefix_len, i)],
        ),
    }
}

/// A route is preferred whenever some entry leads to the address. It leads there
/// too, is as specific as the first that does, and of those that are as
/// specific none has a lower metric.
pub proof fn law_preferred_route(entries: Seq<RouteEntry>, ip: IpAddress)
    ensures
        match seqs::find_first(entries, routes_to(ip)) {
            None => preferred_route(entries, ip) is None && forall|j: int|
                0 <= j < entries.len() ==> !(#[trigger] entries[j]).destination.contains(ip),
            Some(first) => {
                &&& preferred_route(entries, ip) matches Some(e)
                &&& entries.contains(e)
                &&& e.destination.contains(ip)
                &&& e.destination.prefix_len == first.destination.prefix_len
                &&& forall|j: int|
                    0 <= j < entries.len() && (#[trigger] entries[j]).destination.contains(ip)
                        && entries[j].destination.prefix_len == e.destination.prefix_len
                        ==> e.metric <= entries[j].metric
            },
        },
{
    seqs::lemma_found(entries, routes_to(ip));
    match seqs::find_first(entries, routes_to(ip)) {
        None => {
            assert forall|j: int| 0 <= j < entries.len() implies !(
            #[trigger] entries[j]).destination.contains(ip) by {
                assert(!routes_to(ip)(entries[j]));
            }
        },
        Some(first) => {
            let k = choose|k: int| 0 <= k < entries.len() && entries[k] == first;
            assert(routes_to(ip)(entries[k]));
            let len = first.destination.prefix_len;
            lemma_best_of_exists(entries, ip, len, entries.len() as int, k);
            assert(entries.take(entries.len() as int) =~= entries);
            let i = choose|i: int| is_best_of(entries, ip, len, i);
            assert(is_best_of(entries, ip, len, i));
        },
    }
}

proof fn lemma_best_of_exists(entries: Seq<RouteEntry>, ip: IpAddress, len: u8, n: int, k: int)
    requires
        0 <= k < n <= entries.len(),
        entries[k].destination.contains(ip),
        entries[k].destination.prefix_len == len,
    ensures
        exists|i: int| is_best_of(entries.take(n), ip, len, i),
    decreases n,
{
    let t = entries.take(n);
    let s = entries.take(n - 1);
    assert(forall|j: int| 0 <= j < n - 1 ==> #[trigger] t[j] == s[j] && s[j] == entries[j]);
    assert(t[n - 1] == entries[n - 1]);
    if exists|j: int|
        0 <= j < n - 1 && (#[trigger] entries[j]).destination.contains(ip)
            && entries[j].destination.prefix_len == len {
        let j = choose|j: int|
            0 <= j < n - 1 && (#[trigger] entries[j]).destination.contains(ip)
                && entries[j].destination.prefix_len == len;
        lemma_best_of_exists(entries, ip, len, n - 1, j);
        let b = choose|i: int| is_best_of(s, ip, len, i);
        let last = entries[n - 1];
        if last.destination.contains(ip) && last.destination.prefix_len == len && last.metric
            < s[b].metric {
            assert(is_best_of(t, ip, len, n - 1));
        } else {
            assert(is_best_of(t, ip, len, b));
        }
    } else {
        assert(k == n - 1);
        assert forall|j: int|
            0 <= j < n && (#[trigger] t[j]).destination.contains(ip)
                && t[j].destination.prefix_len == len implies j == n - 1 by {
            if j < n - 1 {
                assert(t[j] == entries[j]);
            }
        }
        assert(is_best_of(t, ip, len, n - 1));
    }
}

impl RouteTable {
    /// Every destination is a valid block.
    pub open spec fn wf(self) -> bool {
        forall|i: int| 0 <= i < self.entries@.len() ==> (#[trigger] self.entries@[i]).destination.wf()
    }

    /// An empty table.
    pub fn new() -> (r: RouteTable)
        ensures
            r.wf(),
            r.entries@ == Seq::<RouteEntry>::empty(),
    {
        RouteTable { entries: Vec::new() }
    }

    /// Adds an entry at the end.
    pub fn add(&mut self, entry: RouteEntry)
        requires
            old(self).wf(),
            entry.destination.wf(),
        ensures
            final(self).wf(),
            final(self).entries@ == old(self).entries@.push(entry),
    {
        self.entries.push(entry);
    }

    /// Removes every entry to the destination.
    pub fn remove(&mut self, destination: &IpCidr)
        requires
            old(self).wf(),
        ensures
            final(self).wf(),
            final(self).entries@ == old(self).entries@.filter(not_towards(*destination)),
    {
        let ghost before = self.entries@;
        let ghost p = not_towards(*destination);
        let mut kept: Vec<RouteEntry> = Vec::new();
        let mut i: usize = 0;
        proof {
            reveal(Seq::filter);
        }
        while i < self.entries.len()
            invariant
                i <= self.entries@.len(),
                self.entries@ == before,
                p == not_towards(*destination),
                kept@ == before.take(i as int).filter(p),
            decreases self.entries@.len() - i,
        {
            proof {
                seqs::lemma_filter_step(before, p, i as int);
            }
            if self.entries[i].destination != *destination {
                kept.push(self.entries[i]);
            }
            i = i + 1;
        }
        proof {
            assert(before.take(i as int) =~= before);
            seqs::lemma_filter_elements(before, p);
        }
        self.entries = kept;
    }

    /// Removes the connected routes of an interface to a destination.
    pub fn remove_connected(&mut self, ifindex: u32, dest: &IpCidr)
        requires
            old(self).wf(),
        ensures
            final(self).wf(),
            final(self).entries@ == old(self).entries@.filter(not_connected_to(ifindex, *dest)),
    {
        let ghost before = self.entries@;
        let ghost p = not_connected_to(ifindex, *dest);
        let mut kept: Vec<RouteEntry> = Vec::new();
        let mut i: usize = 0;
        proof {
            reveal(Seq::filter);
        }
        while i < self.entries.len()
            invariant
                i <= self.entries@.len(),
                self.entries@ == before,
                p == not_connected_to(ifindex, *dest),
                kept@ == before.take(i as int).filter(p),
            decreases self.entries@.len() - i,
        {
            proof {
                seqs::lemma_filter_step(before, p, i as int);
            }
            let e = self.entries[i];
            if e.ifindex != ifindex || e.destination != *dest || e.route_type
                != RouteType::Connected {
                kept.push(e);
            }
            i = i + 1;
        }
        proof {
            assert(before.take(i as int) =~= before);
            seqs::lemma_filter_elements(before, p);
        }
        self.entries = kept;
    }

    /// Removes what a lease had put in the table for an interface.
    pub fn remove_leased(&mut self, ifindex: u32)
        requires
            old(self).wf(),
        ensures
            final(self).wf(),
            final(self).entries@ == old(self).entries@.filter(not_leased(ifindex)),
    {
        let ghost before = self.entries@;
        let ghost p = not_leased(ifindex);
        let mut kept: Vec<RouteEntry> = Vec::new();
        let mut i: usize = 0;
        proof {
            reveal(Seq::filter);
        }
        while i < self.entries.len()
            invariant
                i <= self.entries@.len(),
                self.entries@ == before,
                p == not_leased(ifindex),
                kept@ == before.take(i as int).filter(p),
            decreases self.entries@.len() - i,
        {
            proof {
                seqs::lemma_filter_step(before, p, i as int);
            }
            let e = self.entries[i];
            if e.ifindex != ifindex || (e.route_type != RouteType::Connected && e.route_type
                != RouteType::Default) {
                kept.push(e);
            }
            i = i + 1;
        }
        proof {
            assert(before.take(i as int) =~= before);
            seqs::lemma_filter_elements(before, p);
        }
        self.entries = kept;
    }

    /// Whether some entry has the destination.
    pub fn has_destination(&self, dest: &IpCidr) -> (r: bool)
        ensures
            r == exists|i: int| 0 <= i < self.entries@.len() && (#[trigger] self.entries@[i]).destination == *dest,
    {
        let mut i: usize = 0;
        while i < self.entries.len()
            invariant
                i <= self.entries@.len(),
                forall|j: int| 0 <= j < i ==> (#[trigger] self.entries@[j]).destination != *dest,
            decreases self.entries@.len() - i,
        {
            if self.entries[i].destination == *dest {
                return true;
            }
            i = i + 1;
        }
        false
    }
}

/// The connected route that an address block gives rise to: its network for
/// IPv4, the block as it is for IPv6.
pub open spec fn connected_route(cidr: IpCidr, ifindex: u32) -> RouteEntry {
    RouteEntry {
        destination: match cidr.address {
            IpAddress::Ipv4(_) => cidr.spec_network(),
            IpAddress::Ipv6(_) => cidr,
        },
        next_hop: None,
        ifindex,
        metric: 0,
        route_type: RouteType::Connected,
    }
}

/// The default route of a lease.
pub open spec fn default_route(gw: Ipv4Address, ifindex: u32) -> RouteEntry {
    RouteEntry {
        destination: IpCidr { address: IpAddress::Ipv4(Ipv4Address { bits: 0 }), prefix_len: 0 },
        next_hop: Some(IpAddress::Ipv4(gw)),
        ifindex,
        metric: 100,
        route_type: RouteType::Default,
    }
}

/// The routes that a lease puts in the table: none without a block, and a
/// default route only beside a connected one.
pub open spec fn lease_routes(
    cidr: Option<IpCidr>,
    gateway: Option<Ipv4Address>,
    ifindex: u32,
) -> Seq<RouteEntry> {
    match (cidr, gateway) {
        (None, _) => Seq::empty(),
        (Some(c), None) => seq![connected_route(c, ifindex)],
        (Some(c), Some(gw)) => seq![connected_route(c, ifindex), default_route(gw, ifindex)],
    }
}

/// The route to the loopback network.
pub open spec fn loopback_route() -> RouteEntry {
    RouteEntry {
        destination: IpCidr {
            address: IpAddress::Ipv4(Ipv4Address { bits: 0x7f00_0000 }),
            prefix_len: 8,
        },
        next_hop: None,
        ifindex: 1,
        metric: 0,
        route_type: RouteType::Connected,
    }
}

/// The index of `eth0`, or 2 where it is not registered.
pub open spec fn eth0_index(devs: Seq<DeviceModel>) -> u32 {
    match seqs::find_first(devs, net_core::named("eth0"@)) {
        Some(d) => d.nic_id,
        None => 2,
    }
}

/// The routes that a fresh router starts with.
pub open spec fn default_entries(devs: Seq<DeviceModel>, globals: NetGlobals) -> Seq<RouteEntry> {
    seq![loopback_route()] + lease_routes(
        globals.eth0_cidr,
        globals.default_gw,
        eth0_index(devs),
    )
}

impl Router {
    pub open spec fn wf(self) -> bool {
        self.table.wf()
    }

    /// A router without routes.
    pub fn new() -> (r: Router)
        ensures
            r.wf(),
            r.table.entries@ == Seq::<RouteEntry>::empty(),
    {
        Router { table: RouteTable::new() }
    }

    /// Adds a route at the end of the table.
    pub fn add_route(
        &mut self,
        dest: IpCidr,
        next_hop: Option<IpAddress>,
        ifindex: u32,
        metric: u32,
        route_type: RouteType,
    )
        requires
            old(self).wf(),
            dest.wf(),
        ensures
            final(self).wf(),
            final(self).table.entries@ == old(self).table.entries@.push(
                (RouteEntry { destination: dest, next_hop, ifindex, metric, route_type }),
            ),
    {
        self.table.add(RouteEntry { destination: dest, next_hop, ifindex, metric, route_type });
    }

    /// Removes every route to the destination.
    pub fn remove_route(&mut self, dest: &IpCidr)
        requires
            old(self).wf(),
        ensures
            final(self).wf(),
            final(self).table.entries@ == old(self).table.entries@.filter(not_towards(*dest)),
    {
        self.table.remove(dest);
    }

    /// Adds the routes of a lease.
    fn add_lease(&mut self, ifindex: u32, cidr: Option<IpCidr>, gateway: Option<Ipv4Address>)
        requires
            old(self).wf(),
            cidr matches Some(c) ==> c.wf(),
        ensures
            final(self).wf(),
            final(self).table.entries@ == old(self).table.entries@ + lease_routes(
                cidr,
                gateway,
                ifindex,
            ),
    {
        let ghost before = self.table.entries@;
        if let Some(c) = cidr {
            let network = match c.address {
                IpAddress::Ipv4(a) => IpCidr {
                    address: IpAddress::Ipv4(wire::ipv4_cidr_network(a, c.prefix_len)),
                    prefix_len: c.prefix_len,
                },
                IpAddress::Ipv6(_) => c,
            };
            assert(c == (IpCidr { address: c.address, prefix_len: c.prefix_len }));
            self.add_route(network, None, ifindex, 0, RouteType::Connected);
            if let Some(gw) = gateway {
                self.add_route(
                    IpCidr::new(IpAddress::Ipv4(Ipv4Address { bits: 0 }), 0),
                    Some(IpAddress::Ipv4(gw)),
                    ifindex,
                    100,
                    RouteType::Default,
                );
            }
        }
        assert(self.table.entries@ =~= before + lease_routes(cidr, gateway, ifindex));
    }

    /// Puts the routes of a lease in place of those of the lease before it.
    pub fn replace_dhcp_ipv4(
        &mut self,
        ifindex: u32,
        cidr: Option<IpCidr>,
        gateway: Option<Ipv4Address>,
    )
        requires
            old(self).wf(),
            cidr matches Some(c) ==> c.wf(),
        ensures
            final(self).wf(),
            final(self).table.entries@ == old(self).table.entries@.filter(not_leased(ifindex))
                + lease_routes(cidr, gateway, ifindex),
    {
        self.table.remove_leased(ifindex);
        self.add_lease(ifindex, cidr, gateway);
    }

    /// The most specific route to the address: among the entries whose block
    /// holds it the one with the longest prefix, of those the one with the
    /// lowest metric, and the first of equals.
    pub fn lookup_route(&self, dest_ip: Ipv4Address) -> (r: Option<&RouteEntry>)
        requires
            self.wf(),
        ensures
            match r {
                Some(e) => best_route(self.table.entries@, IpAddress::Ipv4(dest_ip)) == Some(*e),
                None => best_route(self.table.entries@, IpAddress::Ipv4(dest_ip)) is None,
            },
    {
        let ip = IpAddress::Ipv4(dest_ip);
        let ghost all = self.table.entries@;
        let mut best: Option<usize> = None;
        let mut i: usize = 0;
        while i < self.table.entries.len()
            invariant
                i <= all.len(),
                all == self.table.entries@,
                self.wf(),
                match best {
                    Some(b) => is_best_route(all.take(i as int), ip, b as int),
                    None => forall|j: int|
                        0 <= j < i ==> !(#[trigger] all[j]).destination.contains(ip),
                },
            decreases all.len() - i,
        {
            let ghost s = all.take(i as int);
            let ghost t = all.take(i + 1);
            proof {
                assert(forall|j: int| 0 <= j < i ==> #[trigger] t[j] == s[j] && s[j] == all[j]);
                assert(t[i as int] == all[i as int]);
            }
            if wire::cidr_contains_addr(self.table.entries[i].destination, ip) {
                let better = match best {
                    Some(b) => {
                        assert(all[b as int] == s[b as int]);
                        let len: u8 = self.table.entries[i].destination.prefix_len;
                        let longest: u8 = self.table.entries[b].destination.prefix_len;
                        len > longest || len == longest && self.table.entries[i].metric
                            < self.table.entries[b].metric
                    },
                    None => true,
                };
                if better {
                    best = Some(i);
                }
            }
            proof {
                match best {
                    Some(b) => {
                        assert(is_best_route(t, ip, b as int));
                    },
                    None => {},
                }
            }
            i = i + 1;
        }
        proof {
            assert(all.take(i as int) =~= all);
            law_best_route(all, ip);
        }
        match best {
            Some(b) => Some(&self.table.entries[b]),
            None => None,
        }
    }

    /// A copy of the most specific route to the address.
    pub fn lookup_route_owned(&self, dest_ip: Ipv4Address) -> (r: Option<RouteEntry>)
        requires
            self.wf(),
        ensures
            r == best_route(self.table.entries@, IpAddress::Ipv4(dest_ip)),
    {
        match self.lookup_route(dest_ip) {
            Some(e) => Some(*e),
            None => None,
        }
    }

    /// The first route whose block holds the address, or one with the same
    /// prefix length and a lower metric.
    pub fn first_route(&self, dest: IpAddress) -> (r: Option<RouteEntry>)
        requires
            self.wf(),
        ensures
            r == preferred_route(self.table.entries@, dest),
    {
        let ghost all = self.table.entries@;
        let mut best: Option<usize> = None;
        let ghost mut len: u8 = 0;
        let mut i: usize = 0;
        while i < self.table.entries.len()
            invariant
                i <= all.len(),
                all == self.table.entries@,
                self.wf(),
                match best {
                    Some(b) => {
                        &&& is_best_of(all.take(i as int), dest, len, b as int)
                        &&& seqs::find_first(all, routes_to(dest)) matches Some(e)
                        &&& e.destination.prefix_len == len
                    },
                    None => forall|j: int| 0 <= j < i ==> !routes_to(dest)(#[trigger] all[j]),
                },
            decreases all.len() - i,
        {
            let ghost s = all.take(i as int);
            let ghost t = all.take(i + 1);
            proof {
                assert(forall|j: int| 0 <= j < i ==> #[trigger] t[j] == s[j] && s[j] == all[j]);
                assert(t[i as int] == all[i as int]);
            }
            if wire::cidr_contains_addr(self.table.entries[i].destination, dest) {
                let better = match best {
                    Some(b) => {
                        assert(all[b as int] == s[b as int]);
                        self.table.entries[i].destination.prefix_len
                            == self.table.entries[b].destination.prefix_len
                            && self.table.entries[i].metric < self.table.entries[b].metric
                    },
                    None => {
                        proof {
                            seqs::lemma_find_first(all, routes_to(dest), i as int);
                            len = all[i as int].destination.prefix_len;
                        }
                        true
                    },
                };
                if better {
                    best = Some(i);
                }
            }
            proof {
                match best {
                    Some(b) => {
                        assert forall|j: int|
                            0 <= j < t.len() && (#[trigger] t[j]).destination.contains(dest)
                                && t[j].destination.prefix_len == len implies t[j].metric
                            > t[b as int].metric || t[j].metric == t[b as int].metric && b <= j by {
                            if j < i {
                                assert(t[j] == s[j]);
                                assert(routes_to(dest)(all[j]));
                            }
                        }
                        assert(is_best_of(t, dest, len, b as int));
                    },
                    None => {},
                }
            }
            i = i + 1;
        }
        assert(all.take(i as int) =~= all);
        match best {
            Some(b) => Some(self.table.entries[b]),
            None => {
                proof {
                    seqs::lemma_find_none(all, routes_to(dest));
                }
                None
            },
        }
    }

    /// Adds the loopback route and the routes of the present lease.
    pub fn fill_default(
        &mut self,
        eth0_ifindex: u32,
        eth0_cidr: Option<IpCidr>,
        default_gw: Option<Ipv4Address>,
    )
        requires
            old(self).wf(),
            eth0_cidr matches Some(c) ==> c.wf(),
        ensures
            final(self).wf(),
            final(self).table.entries@ == old(self).table.entries@ + (seq![loopback_route()]
                + lease_routes(eth0_cidr, default_gw, eth0_ifindex)),
    {
        let ghost before = self.table.entries@;
        self.add_route(
            IpCidr::new(IpAddress::Ipv4(Ipv4Address { bits: 0x7f00_0000 }), 8),
            None,
            1,
            0,
            RouteType::Connected,
        );
        self.add_lease(eth0_ifindex, eth0_cidr, default_gw);
        assert(self.table.entries@ =~= before + (seq![loopback_route()] + lease_routes(
            eth0_cidr,
            default_gw,
            eth0_ifindex,
        )));
    }

    /// Adds the default routes to the namespace's router.
    pub fn init_router(ns: &mut NetNamespace, globals: &NetGlobals)
        requires
            old(ns).wf(),
            globals.wf(),
        ensures
            final(ns).wf(),
            final(ns).devs() == old(ns).devs(),
            final(ns).devices == old(ns).devices,
            final(ns).router.table.entries@ == old(ns).router.table.entries@ + default_entries(
                old(ns).devs(),
                *globals,
            ),
    {
        let idx: u32 = match ns.position_by_name("eth0") {
            Some(i) => {
                assert(ns.devs()[i as int] == ns.devices@[i as int]@);
                ns.devices[i].nic_id
            },
            None => 2,
        };
        ns.router.fill_default(idx, globals.eth0_cidr, globals.default_gw);
    }
}

/// The address a packet leaves an interface with: for IPv4 the first address
/// given to it, for IPv6 the first of that family; `fallback` without one.
pub open spec fn source_on(d: Option<DeviceModel>, ver: IpVersion, fallback: IpAddress) -> IpAddress {
    match d {
        None => fallback,
        Some(dev) => match (match ver {
            IpVersion::Ipv4 => dev.first_addr(),
            IpVersion::Ipv6 => dev.first_v6(),
        }) {
            Some(a) => a,
            None => fallback,
        },
    }
}

/// The route of the table that a destination takes: the most specific for
/// IPv4, the first that leads there for IPv6.
pub open spec fn table_route(entries: Seq<RouteEntry>, dest: IpAddress) -> Option<RouteEntry> {
    match dest {
        IpAddress::Ipv4(_) => best_route(entries, dest),
        IpAddress::Ipv6(_) => preferred_route(entries, dest),
    }
}

/// The decision for a destination: an address of this machine stays on the
/// interface that owns it, a loopback address stays on interface 1, and
/// anything else follows the table.
pub open spec fn spec_route_output(
    devs: Seq<DeviceModel>,
    entries: Seq<RouteEntry>,
    dest: IpAddress,
) -> Result<RouteDecision, SyscallErr> {
    let ver = dest.spec_version();
    match seqs::find_first(devs, net_core::owning(dest)) {
        Some(d) => Ok(
            RouteDecision {
                ifindex: d.nic_id,
                source: source_on(Some(d), ver, IpAddress::spec_localhost(ver)),
                next_hop: None,
                is_local: true,
            },
        ),
        None => if dest.spec_is_loopback() {
            Ok(
                RouteDecision {
                    ifindex: 1,
                    source: source_on(
                        seqs::find_first(devs, net_core::named("lo"@)),
                        ver,
                        IpAddress::spec_localhost(ver),
                    ),
                    next_hop: None,
                    is_local: true,
                },
            )
        } else {
            match table_route(entries, dest) {
                Some(e) => Ok(
                    RouteDecision {
                        ifindex: e.ifindex,
                        source: source_on(
                            seqs::find_first(devs, net_core::indexed(e.ifindex)),
                            ver,
                            IpAddress::spec_unspecified(ver),
                        ),
                        next_hop: e.next_hop,
                        is_local: false,
                    },
                ),
                None => Err(SyscallErr::ENETUNREACH),
            }
        },
    }
}

/// The address that a packet of the family leaves the interface with.
fn source_of(ns: &NetNamespace, pos: Option<usize>, ver: IpVersion, fallback: IpAddress) -> (r:
    IpAddress)
    requires
        pos matches Some(i) ==> i < ns.devices@.len(),
    ensures
        r == source_on(
            match pos {
                Some(i) => Some(ns.devs()[i as int]),
                None => None,
            },
            ver,
            fallback,
        ),
{
    match pos {
        None => fallback,
        Some(i) => {
            let found = match ver {
                IpVersion::Ipv4 => ns.devices[i].first_addr(),
                IpVersion::Ipv6 => ns.devices[i].first_v6(),
            };
            match found {
                Some(a) => a,
                None => fallback,
            }
        },
    }
}

/// The table that a lookup goes by: an empty one is filled with the default
/// routes first.
pub open spec fn filled(ns: NetNamespace, globals: NetGlobals) -> Seq<RouteEntry> {
    if ns.router.table.entries@.len() == 0 {
        default_entries(ns.devs(), globals)
    } else {
        ns.router.table.entries@
    }
}

/// A table that a lookup has filled stays as it is.
pub proof fn lemma_filled_stays(ns: NetNamespace, later: NetNamespace, globals: NetGlobals)
    requires
        later.devices == ns.devices,
        later.router.table.entries@ == filled(ns, globals),
    ensures
        filled(later, globals) == filled(ns, globals),
{
}

/// Decides where a packet to `dest` goes. A router without routes gets the
/// default routes on the way.
pub fn route_output(ns: &mut NetNamespace, globals: &NetGlobals, dest: IpAddress) -> (r: Result<
    RouteDecision,
    SyscallErr,
>)
    requires
        old(ns).wf(),
        globals.wf(),
    ensures
        final(ns).wf(),
        final(ns).devices == old(ns).devices,
        final(ns).router.table.entries@ == filled(*old(ns), *globals),
        r == spec_route_output(old(ns).devs(), filled(*old(ns), *globals), dest),
{
    let ghost table = filled(*ns, *globals);
    if ns.router.table.entries.len() == 0 {
        Router::init_router(ns, globals);
        assert(ns.router.table.entries@ =~= table);
    }
    let ver = dest.version();
    match ns.position_of_owner(dest) {
        Some(i) => {
            let source = source_of(ns, Some(i), ver, IpAddress::localhost(ver));
            Ok(
                RouteDecision {
                    ifindex: ns.devices[i].nic_id,
                    source,
                    next_hop: None,
                    is_local: true,
                },
            )
        },
        None => {
            if dest.is_loopback() {
                let lo = ns.position_by_name("lo");
                let source = source_of(ns, lo, ver, IpAddress::localhost(ver));
                return Ok(RouteDecision { ifindex: 1, source, next_hop: None, is_local: true });
            }
            let route = match dest {
                IpAddress::Ipv4(addr) => ns.router.lookup_route_owned(addr),
                IpAddress::Ipv6(_) => ns.router.first_route(dest),
            };
            match route {
                Some(entry) => {
                    let dev = ns.position_by_index(entry.ifindex);
                    let source = source_of(ns, dev, ver, IpAddress::unspecified(ver));
                    Ok(
                        RouteDecision {
                            ifindex: entry.ifindex,
                            source,
                            next_hop: entry.next_hop,
                            is_local: false,
                        },
                    )
                },
                None => Err(SyscallErr::ENETUNREACH),
            }
        },
    }
}

/// A packet to an address of this machine never leaves it, whatever the table
/// says, and a decision to leave it comes from an entry that leads there.
pub proof fn law_local_stays_local(devs: Seq<DeviceModel>, entries: Seq<RouteEntry>, dest: IpAddress)
    ensures
        (exists|i: int| 0 <= i < devs.len() && (#[trigger] devs[i]).owns(dest)) ==> (
        spec_route_output(devs, entries, dest) matches Ok(d) && d.is_local && d.next_hop is None),
        dest.spec_is_loopback() ==> (spec_route_output(devs, entries, dest) matches Ok(d)
            && d.is_local),
        spec_route_output(devs, entries, dest) matches Ok(d) ==> !d.is_local ==> exists|i: int|
            0 <= i < entries.len() && (#[trigger] entries[i]).destination.contains(dest)
                && entries[i].ifindex == d.ifindex && entries[i].next_hop == d.next_hop,
{
    seqs::lemma_found(devs, net_core::owning(dest));
    if exists|i: int| 0 <= i < devs.len() && (#[trigger] devs[i]).owns(dest) {
        let i = choose|i: int| 0 <= i < devs.len() && (#[trigger] devs[i]).owns(dest);
        assert(net_core::owning(dest)(devs[i]));
    }
    seqs::lemma_found(entries, routes_to(dest));
    law_best_route(entries, dest);
    if let Some(e) = table_route(entries, dest) {
        match dest {
            IpAddress::Ipv4(_) => {
                let k = choose|i: int| is_best_route(entries, dest, i);
                assert(entries[k] == e);
            },
            IpAddress::Ipv6(_) => {
                law_preferred_route(entries, dest);
                let k = choose|k: int| 0 <= k < entries.len() && entries[k] == e;
                assert(entries[k].destination.contains(dest));
            },
        }
    }
}

/// A lease replaced by none leaves no connected or default route of the
/// interface, and touches no other route.
pub proof fn law_lease_withdrawn(entries: Seq<RouteEntry>, ifindex: u32, e: RouteEntry)
    ensures
        entries.filter(not_leased(ifindex)) + lease_routes(None, None, ifindex) == entries.filter(
            not_leased(ifindex),
        ),
        entries.filter(not_leased(ifindex)).contains(e) ==> entries.contains(e) && not_leased(
            ifindex,
        )(e),
        entries.contains(e) && not_leased(ifindex)(e) ==> entries.filter(not_leased(ifindex)).contains(
            e,
        ),
{
    let f = entries.filter(not_leased(ifindex));
    assert(f + Seq::<RouteEntry>::empty() =~= f);
    seqs::lemma_filter_elements(entries, not_leased(ifindex));
    if entries.contains(e) && not_leased(ifindex)(e) {
        seqs::lemma_filter_keeps(entries, not_leased(ifindex), e);
    }
}

/// Removing a destination leaves no route to it and every other route.
pub proof fn law_remove_route(entries: Seq<RouteEntry>, dest: IpCidr, e: RouteEntry)
    ensures
        entries.filter(not_towards(dest)).contains(e) <==> entries.contains(e) && e.destination
            != dest,
{
    seqs::lemma_filter_elements(entries, not_towards(dest));
    if entries.contains(e) && e.destination != dest {
        seqs::lemma_filter_keeps(entries, not_towards(dest), e);
    }
}

} // verus!
