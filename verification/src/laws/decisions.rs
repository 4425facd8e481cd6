//! Where packets go, and what a lease and the registry of interfaces do to
//! that.
use vstd::prelude::*;
use crate::config::dhcp;
use crate::config::dhcp::LeaseModel;
use crate::error::SyscallErr;
use crate::iface::DeviceModel;
use crate::laws::interfaces;
use crate::net_core;
use crate::net_core::{NetGlobals, NetNamespace};
use crate::routing;
use crate::routing::{RouteEntry, RouteType};
use crate::seqs;
use crate::wire::{IpAddress, IpCidr, Ipv4Address, Ipv6Address};

verus! {

/// A packet to an IPv4 address that is not of this machine goes by the entry
/// that leads there with the longest prefix, of those the one with the lowest
/// metric, and of those the first: through its interface, to its next hop, from
/// the first address of that interface.
pub proof fn law_packet_goes_by_the_best_entry(
    devs: Seq<DeviceModel>,
    entries: Seq<RouteEntry>,
    dest: IpAddress,
    k: int,
)
    requires
        dest matches IpAddress::Ipv4(a) && a.bits / 16777216 != 127,
        forall|i: int, j: int|
            0 <= i < devs.len() && 0 <= j < devs[i].ip_addrs.len() ==> (
            #[trigger] devs[i].ip_addrs[j]).address != dest,
        0 <= k < entries.len(),
        entries[k].destination.contains(dest),
        forall|j: int|
            0 <= j < entries.len() && j != k && (#[trigger] entries[j]).destination.contains(dest)
                ==> {
                ||| entries[j].destination.prefix_len < entries[k].destination.prefix_len
                ||| entries[j].destination.prefix_len == entries[k].destination.prefix_len
                    && entries[j].metric > entries[k].metric
                ||| entries[j].destination.prefix_len == entries[k].destination.prefix_len
                    && entries[j].metric == entries[k].metric && k < j
            },
    ensures
        ({
            let r = routing::spec_route_output(devs, entries, dest);
            &&& r matches Ok(d)
            &&& d.ifindex == entries[k].ifindex
            &&& d.next_hop == entries[k].next_hop
            &&& !d.is_local
            &&& (forall|i: int| 0 <= i < devs.len() ==> (#[trigger] devs[i]).nic_id != d.ifindex)
                ==> d.source == IpAddress::Ipv4(Ipv4Address { bits: 0 })
            &&& forall|i: int|
                0 <= i < devs.len() && (#[trigger] devs[i]).nic_id == d.ifindex
                    && devs[i].ip_addrs.len() > 0 && (forall|j: int|
                    0 <= j < i ==> (#[trigger] devs[j]).nic_id != d.ifindex) ==> d.source
                    == devs[i].ip_addrs[0].address
        }),
{
    lemma_nobody_owns(devs, dest);
    assert(routing::is_best_route(entries, dest, k));
    routing::law_best_route(entries, dest);
    let b = choose|i: int| routing::is_best_route(entries, dest, i);
    assert(b == k);
    let id = entries[k].ifindex;
    let p = net_core::indexed(id);
    seqs::lemma_found(devs, p);
    if forall|i: int| 0 <= i < devs.len() ==> (#[trigger] devs[i]).nic_id != id {
        assert forall|j: int| 0 <= j < devs.len() implies !p(devs[j]) by {
            assert(devs[j].nic_id != id);
        }
        seqs::lemma_find_none(devs, p);
    }
    assert forall|i: int|
        0 <= i < devs.len() && (#[trigger] devs[i]).nic_id == id && devs[i].ip_addrs.len() > 0 && (
        forall|j: int| 0 <= j < i ==> (#[trigger] devs[j]).nic_id
            != id) implies routing::spec_route_output(devs, entries, dest)->Ok_0.source
        == devs[i].ip_addrs[0].address by {
        assert forall|j: int| 0 <= j < i implies !p(devs[j]) by {
            assert(devs[j].nic_id != id);
        }
        seqs::lemma_find_first(devs, p, i);
    }
}

proof fn lemma_nobody_owns(devs: Seq<DeviceModel>, dest: IpAddress)
    requires
        forall|i: int, j: int|
            0 <= i < devs.len() && 0 <= j < devs[i].ip_addrs.len() ==> (
            #[trigger] devs[i].ip_addrs[j]).address != dest,
    ensures
        seqs::find_first(devs, net_core::owning(dest)) is None,
{
    let p = net_core::owning(dest);
    assert forall|i: int| 0 <= i < devs.len() implies !p(devs[i]) by {
        if devs[i].owns(dest) {
            let j = choose|j: int|
                0 <= j < devs[i].ip_addrs.len() && (#[trigger] devs[i].ip_addrs[j]).address == dest;
            assert(devs[i].ip_addrs[j].address != dest);
        }
    }
    seqs::lemma_find_none(devs, p);
}

/// Where no entry leads to an address that is not of this machine, there is no
/// route to it.
pub proof fn law_no_entry_no_route(
    devs: Seq<DeviceModel>,
    entries: Seq<RouteEntry>,
    dest: IpAddress,
)
    requires
        match dest {
            IpAddress::Ipv4(a) => a.bits / 16777216 != 127,
            IpAddress::Ipv6(a) => a.bits != 1,
        },
        forall|i: int, j: int|
            0 <= i < devs.len() && 0 <= j < devs[i].ip_addrs.len() ==> (
            #[trigger] devs[i].ip_addrs[j]).address != dest,
        forall|j: int| 0 <= j < entries.len() ==> !(#[trigger] entries[j]).destination.contains(dest),
    ensures
        routing::spec_route_output(devs, entries, dest) is Err,
        routing::spec_route_output(devs, entries, dest)->Err_0 == SyscallErr::ENETUNREACH,
{
    lemma_nobody_owns(devs, dest);
    routing::law_best_route(entries, dest);
    routing::law_preferred_route(entries, dest);
    assert forall|j: int| 0 <= j < entries.len() implies !routing::routes_to(dest)(entries[j]) by {
        assert(!entries[j].destination.contains(dest));
    }
    seqs::lemma_find_none(entries, routing::routes_to(dest));
}

/// A packet to an address of an interface stays on that interface, whatever the
/// routes are; the first that has the address counts.
pub proof fn law_own_address(
    devs: Seq<DeviceModel>,
    entries: Seq<RouteEntry>,
    dest: IpAddress,
    i: int,
    j: int,
)
    requires
        0 <= i < devs.len(),
        0 <= j < devs[i].ip_addrs.len(),
        devs[i].ip_addrs[j].address == dest,
        forall|x: int, y: int|
            0 <= x < i && 0 <= y < devs[x].ip_addrs.len() ==> (
            #[trigger] devs[x].ip_addrs[y]).address != dest,
    ensures
        ({
            let r = routing::spec_route_output(devs, entries, dest);
            &&& r matches Ok(d)
            &&& d.ifindex == devs[i].nic_id
            &&& d.is_local
            &&& d.next_hop is None
            &&& dest is Ipv4 ==> d.source == devs[i].ip_addrs[0].address
            &&& dest is Ipv6 ==> d.source is Ipv6
        }),
{
    let p = net_core::owning(dest);
    assert(devs[i].owns(dest));
    assert forall|x: int| 0 <= x < i implies !p(devs[x]) by {
        if devs[x].owns(dest) {
            let y = choose|y: int|
                0 <= y < devs[x].ip_addrs.len() && (#[trigger] devs[x].ip_addrs[y]).address == dest;
            assert(devs[x].ip_addrs[y].address != dest);
        }
    }
    seqs::lemma_find_first(devs, p, i);
    if dest is Ipv6 {
        seqs::lemma_found(devs[i].ip_addrs, crate::iface::is_v6());
    }
}

/// A packet to the loopback network stays on interface 1.
pub proof fn law_loopback_address(
    devs: Seq<DeviceModel>,
    entries: Seq<RouteEntry>,
    dest: IpAddress,
)
    requires
        match dest {
            IpAddress::Ipv4(a) => a.bits / 16777216 == 127,
            IpAddress::Ipv6(a) => a.bits == 1,
        },
        forall|i: int, j: int|
            0 <= i < devs.len() && 0 <= j < devs[i].ip_addrs.len() ==> (
            #[trigger] devs[i].ip_addrs[j]).address != dest,
    ensures
        ({
            let r = routing::spec_route_output(devs, entries, dest);
            &&& r matches Ok(d)
            &&& d.ifindex == 1
            &&& d.is_local
            &&& d.next_hop is None
        }),
{
    lemma_nobody_owns(devs, dest);
}

/// A lease puts two routes in the table: straight to its network, and to
/// everything by its router. Without a router there is the first alone, and
/// without an address none.
pub proof fn law_lease_routes(c: IpCidr, gw: Ipv4Address, ifindex: u32)
    requires
        c.address is Ipv4,
    ensures
        ({
            let both = routing::lease_routes(Some(c), Some(gw), ifindex);
            let one = routing::lease_routes(Some(c), None, ifindex);
            &&& both.len() == 2
            &&& both[0].destination == c.spec_network()
            &&& both[0].next_hop is None
            &&& both[0].ifindex == ifindex
            &&& both[0].metric == 0
            &&& both[0].route_type == RouteType::Connected
            &&& both[1].destination.prefix_len == 0
            &&& both[1].destination.address == IpAddress::Ipv4(Ipv4Address { bits: 0 })
            &&& both[1].next_hop == Some(IpAddress::Ipv4(gw))
            &&& both[1].ifindex == ifindex
            &&& both[1].metric == 100
            &&& both[1].route_type == RouteType::Default
            &&& one.len() == 1 && one[0] == both[0]
            &&& routing::lease_routes(None, Some(gw), ifindex).len() == 0
        }),
{
}

/// A table that nobody has filled starts with the loopback network on interface
/// 1, followed by the routes of the lease on `eth0`.
pub proof fn law_default_table(devs: Seq<DeviceModel>, g: NetGlobals)
    ensures
        ({
            let t = routing::default_entries(devs, g);
            let id = match seqs::find_first(devs, net_core::named("eth0"@)) {
                Some(d) => d.nic_id,
                None => 2,
            };
            &&& t.len() >= 1
            &&& t[0].destination.address == IpAddress::Ipv4(Ipv4Address { bits: 0x7f00_0000 })
            &&& t[0].destination.prefix_len == 8
            &&& t[0].next_hop is None
            &&& t[0].ifindex == 1
            &&& t.len() == if g.eth0_cidr is None {
                1int
            } else if g.default_gw is None {
                2
            } else {
                3
            }
            &&& g.eth0_cidr is Some ==> t[1].ifindex == id && t[1].next_hop is None
            &&& g.eth0_cidr is Some && g.default_gw is Some ==> t[2].ifindex == id && t[2].next_hop
                == Some(IpAddress::Ipv4(g.default_gw->0)) && t[2].destination.prefix_len == 0
        }),
{
}

/// A lease takes the place of the one before: of the interface's routes only
/// those that a lease puts there go, and other interfaces keep theirs.
pub proof fn law_lease_replaces(entries: Seq<RouteEntry>, ifindex: u32, e: RouteEntry)
    ensures
        entries.filter(routing::not_leased(ifindex)).contains(e) <==> entries.contains(e) && (
        e.ifindex != ifindex || e.route_type == RouteType::Static),
{
    interfaces::lemma_filter_contains(entries, routing::not_leased(ifindex), e);
}

/// What a lease says is what the interface, the routes and the resolver get: the
/// address with its prefix, the router, the name servers; a lost lease says
/// nothing.
pub proof fn law_lease_parts(c: IpCidr, router: Option<Ipv4Address>, dns: Seq<Ipv4Address>)
    ensures
        ({
            let l = LeaseModel::Configured { cidr: c, router, dns };
            &&& l.cidr() == Some(c)
            &&& l.router() == router
            &&& l.dns() == dns
            &&& LeaseModel::Deconfigured.cidr() is None
            &&& LeaseModel::Deconfigured.router() is None
            &&& LeaseModel::Deconfigured.dns().len() == 0
        }),
{
}

/// With a lease the stack has its address last and no other IPv4 address; IPv6
/// addresses stay.
pub proof fn law_leased_addresses(
    addrs: Seq<IpCidr>,
    c: IpCidr,
    router: Option<Ipv4Address>,
    dns: Seq<Ipv4Address>,
    x: IpCidr,
)
    requires
        c.address is Ipv4,
    ensures
        ({
            let after = dhcp::leased_addrs(addrs, LeaseModel::Configured { cidr: c, router, dns });
            let lost = dhcp::leased_addrs(addrs, LeaseModel::Deconfigured);
            &&& after.len() > 0 && after.last() == c
            &&& after.contains(x) <==> x == c || (addrs.contains(x) && x.address is Ipv6)
            &&& lost.contains(x) <==> addrs.contains(x) && x.address is Ipv6
        }),
{
    let p = dhcp::not_v4();
    let kept = addrs.filter(p);
    interfaces::lemma_filter_contains(addrs, p, x);
    let after = kept.push(c);
    assert(after[after.len() - 1] == c);
    if kept.contains(x) {
        let j = choose|j: int| 0 <= j < kept.len() && kept[j] == x;
        assert(after[j] == x);
    }
    if after.contains(x) && x != c {
        let j = choose|j: int| 0 <= j < after.len() && after[j] == x;
        assert(kept[j] == x);
    }
}

/// Recording a lease makes it the only address of `eth0`, the first of that name,
/// and leaves everything else of it and every other interface.
pub proof fn law_recorded_lease(devs: Seq<DeviceModel>, c: IpCidr, i: int, k: int)
    requires
        0 <= i < devs.len(),
        devs[i].name == "eth0"@,
        forall|j: int| 0 <= j < i ==> (#[trigger] devs[j]).name != "eth0"@,
        0 <= k < devs.len(),
    ensures
        ({
            let after = net_core::with_eth0_addr(devs, c);
            &&& after.len() == devs.len()
            &&& after[i].ip_addrs == seq![c]
            &&& after[i].nic_id == devs[i].nic_id
            &&& after[i].name == devs[i].name
            &&& after[i].flags == devs[i].flags
            &&& after[i].mtu == devs[i].mtu
            &&& after[i].hwaddr == devs[i].hwaddr
            &&& k != i ==> after[k] == devs[k]
        }),
{
}

/// An interface is registered under its index: it is found there, what had the
/// index before is gone, every other interface stays, and the order of the
/// indices holds.
pub proof fn law_registered_interface(devs: Seq<DeviceModel>, d: DeviceModel, k: int)
    requires
        net_core::ordered(devs),
        0 <= k < devs.len(),
    ensures
        ({
            let after = net_core::put_device(devs, d);
            &&& after.contains(d)
            &&& after.contains(devs[k]) <==> devs[k].nic_id != d.nic_id || devs[k] == d
            &&& after.len() <= devs.len() + 1
        }),
{
    let lo = devs.filter(net_core::below(d.nic_id));
    let hi = devs.filter(net_core::above(d.nic_id));
    let after = lo.push(d) + hi;
    interfaces::lemma_filter_contains(devs, net_core::below(d.nic_id), devs[k]);
    interfaces::lemma_filter_contains(devs, net_core::above(d.nic_id), devs[k]);
    lemma_split(devs, d.nic_id);
    assert(after[lo.len() as int] == d);
    assert(devs.contains(devs[k]));
    if lo.contains(devs[k]) {
        let j = choose|j: int| 0 <= j < lo.len() && lo[j] == devs[k];
        assert(after[j] == devs[k]);
    }
    if hi.contains(devs[k]) {
        let j = choose|j: int| 0 <= j < hi.len() && hi[j] == devs[k];
        assert(after[lo.len() + 1 + j] == devs[k]);
    }
    if after.contains(devs[k]) && devs[k] != d {
        let j = choose|j: int| 0 <= j < after.len() && after[j] == devs[k];
        if j < lo.len() {
            assert(lo[j] == devs[k]);
        } else {
            assert(j > lo.len());
            assert(hi[j - lo.len() - 1] == devs[k]);
        }
    }
}

proof fn lemma_split(devs: Seq<DeviceModel>, id: u32)
    ensures
        devs.filter(net_core::below(id)).len() + devs.filter(net_core::above(id)).len()
            <= devs.len(),
    decreases devs.len(),
{
    reveal(Seq::filter);
    if devs.len() > 0 {
        lemma_split(devs.drop_last(), id);
    }
}

/// Local traffic without an address, or of the loopback network, belongs to the
/// interface `lo`, whose index is 1 where it is not registered; other traffic to
/// the first interface that has the address.
pub proof fn law_local_interface(
    devs: Seq<DeviceModel>,
    a: IpAddress,
    i: int,
    j: int,
)
    requires
        0 <= i < devs.len(),
        0 <= j < devs[i].ip_addrs.len(),
        devs[i].ip_addrs[j].address == a,
        a matches IpAddress::Ipv4(b) ==> b.bits / 16777216 != 127,
        forall|x: int, y: int|
            0 <= x < i && 0 <= y < devs[x].ip_addrs.len() ==> (
            #[trigger] devs[x].ip_addrs[y]).address != a,
    ensures
        net_core::spec_ifindex_for_local_addr(devs, Some(a)) == devs[i].nic_id,
        (forall|k: int| 0 <= k < devs.len() ==> (#[trigger] devs[k]).name != "lo"@)
            ==> net_core::spec_ifindex_for_local_addr(devs, None) == 1,
{
    let p = net_core::owning(a);
    assert(devs[i].owns(a));
    assert forall|x: int| 0 <= x < i implies !p(devs[x]) by {
        if devs[x].owns(a) {
            let y = choose|y: int|
                0 <= y < devs[x].ip_addrs.len() && (#[trigger] devs[x].ip_addrs[y]).address == a;
            assert(devs[x].ip_addrs[y].address != a);
        }
    }
    seqs::lemma_find_first(devs, p, i);
    if forall|k: int| 0 <= k < devs.len() ==> (#[trigger] devs[k]).name != "lo"@ {
        let n = net_core::named("lo"@);
        assert forall|k: int| 0 <= k < devs.len() implies !n(devs[k]) by {
            assert(devs[k].name != "lo"@);
        }
        seqs::lemma_find_none(devs, n);
    }
}

/// The loopback interface has index 1, the two loopback addresses, and is up.
pub proof fn law_loopback_interface()
    ensures
        ({
            let lo = net_core::lo_model();
            &&& lo.nic_id == 1
            &&& lo.name == "lo"@
            &&& lo.mtu == 65536
            &&& lo.flags == 0x49
            &&& lo.ip_addrs.len() == 2
            &&& lo.ip_addrs[0].address == IpAddress::Ipv4(Ipv4Address { bits: 0x7f00_0001 })
            &&& lo.ip_addrs[0].prefix_len == 8
            &&& lo.ip_addrs[1].address == IpAddress::Ipv6(Ipv6Address { bits: 1 })
            &&& lo.ip_addrs[1].prefix_len == 128
        }),
{
}

/// The Ethernet interface has index 2, the hardware address of the card, no
/// address yet, and is up.
pub proof fn law_ethernet_interface(mac: Seq<u8>)
    ensures
        ({
            let e = net_core::eth0_model(mac);
            &&& e.nic_id == 2
            &&& e.name == "eth0"@
            &&& e.mtu == 1500
            &&& e.flags == 0x1043
            &&& e.ip_addrs.len() == 0
            &&& e.hwaddr == mac
        }),
{
}

/// Every name server of a lease has its line in the resolver's configuration, in
/// order, and a lease without one has none.
pub proof fn law_resolver_lines(dns: Seq<Ipv4Address>, a: Ipv4Address)
    ensures
        dhcp::resolv_conf(dns.push(a)) == (if dns.len() == 0 {
            Seq::<char>::empty()
        } else {
            dhcp::resolv_conf(dns)
        }) + dhcp::resolv_conf(seq![a]),
        dhcp::resolv_conf(seq![a]).len() >= 19,
        dhcp::resolv_conf(seq![a]).take(11) == "nameserver "@,
        dhcp::resolv_conf(seq![a]).last() == '\n',
{
    assert(dns.push(a).drop_last() =~= dns);
    assert(seq![a].drop_last() =~= Seq::<Ipv4Address>::empty());
    let line = dhcp::nameserver_line(a);
    reveal_with_fuel(dhcp::nameserver_lines, 2);
    assert(Seq::<char>::empty() + line =~= line);
    assert(dhcp::nameserver_lines(seq![a]) == line);
    reveal_strlit("nameserver ");
    reveal_strlit(".");
    reveal_strlit("\n");
    let o = a.octets();
    lemma_decimal_len(o[0] as nat);
    lemma_decimal_len(o[1] as nat);
    lemma_decimal_len(o[2] as nat);
    lemma_decimal_len(o[3] as nat);
    assert(line.take(11) =~= "nameserver "@);
}

proof fn lemma_decimal_len(n: nat)
    ensures
        crate::text::decimal(n).len() >= 1,
{
}

/// The loopback stack has the loopback addresses, no hardware address, no gateway,
/// and asks nobody for a lease. The stack of the card has the card's hardware
/// address and the addresses of its interface, and asks for a lease where
/// there is a card.
pub proof fn law_first_stacks(
    devs: Seq<DeviceModel>,
    globals: NetGlobals,
    mac: Option<Seq<u8>>,
    k: int,
)
    requires
        0 <= k < devs.len(),
        devs[k].nic_id == 2,
        forall|j: int| 0 <= j < k ==> (#[trigger] devs[j]).nic_id != 2,
    ensures
        ({
            let lo = dhcp::loopback_config(devs);
            let eth = dhcp::ethernet_config(devs, globals, mac);
            &&& lo.ifindex == 1 && lo.mac is None && lo.gateway is None && !lo.dhcp
            &&& lo.addrs.len() == 2
            &&& lo.addrs[0].address == IpAddress::Ipv4(Ipv4Address { bits: 0x7f00_0001 })
            &&& lo.addrs[1].address == IpAddress::Ipv6(Ipv6Address { bits: 1 })
            &&& eth.ifindex == 2
            &&& eth.addrs == devs[k].ip_addrs
            &&& eth.gateway == globals.default_gw
            &&& mac is Some ==> eth.mac == mac && eth.dhcp
            &&& mac is None ==> eth.mac is Some && !eth.dhcp
        }),
{
    seqs::lemma_find_first(devs, net_core::indexed(2), k);
}

/// The loopback network is reached through the loopback interface, directly, before
/// anything else.
pub proof fn law_loopback_network()
    ensures
        ({
            let r = routing::loopback_route();
            &&& r.destination.address == IpAddress::Ipv4(Ipv4Address { bits: 0x7f00_0000 })
            &&& r.destination.prefix_len == 8
            &&& r.next_hop is None
            &&& r.ifindex == 1
            &&& r.metric == 0
            &&& r.route_type == RouteType::Connected
        }),
{
}

/// A lookup goes by the table; only an empty one is filled with the default routes
/// first.
pub proof fn law_lookup_table(ns: NetNamespace, globals: NetGlobals)
    ensures
        ns.router.table.entries@.len() > 0 ==> routing::filled(ns, globals)
            == ns.router.table.entries@,
        ns.router.table.entries@.len() == 0 ==> routing::filled(ns, globals)
            == routing::default_entries(ns.devs(), globals),
{
}

} // verus!
