//! Requests on interfaces, their addresses and neighbours: what is recorded
//! afterwards.
use vstd::prelude::*;
use crate::bytes;
use crate::error::SyscallErr;
use crate::iface;
use crate::iface::{DeviceKind, DeviceModel};
use crate::laws::answers;
use crate::laws::routes;
use crate::neighbour::NeighbourRow;
use crate::net_core;
use crate::routing;
use crate::routing::RouteType;
use crate::seqs;
use crate::socket::netlink::attr;
use crate::socket::netlink::attr::AttrModel;
use crate::socket::netlink::netlink as wire_format;
use crate::socket::netlink::route;
use crate::socket::netlink::route::link::StepModel;
use crate::socket::netlink::route::{NetModel, StackOp};
use crate::wire::{IpAddress, IpCidr, Ipv4Address};

verus! {

/// The bytes of a request on an IPv4 address: the header of the message and of
/// the address, and the address, as `IFA_ADDRESS` or `IFA_LOCAL`.
pub open spec fn address_request(head: Seq<u8>, ty: u8, addr: Seq<u8>) -> Seq<u8> {
    head + seq![8u8, 0u8, ty, 0u8] + addr
}

/// The block that an address request names.
pub open spec fn named_block(head: Seq<u8>, addr: Seq<u8>) -> IpCidr {
    IpCidr {
        address: IpAddress::Ipv4(Ipv4Address { bits: routes::spelled(addr) as u32 }),
        prefix_len: head[17],
    }
}

proof fn lemma_address_request(head: Seq<u8>, ty: u8, addr: Seq<u8>)
    requires
        head.len() == 24,
        addr.len() == 4,
        ty == 1 || ty == 2,
        head[16] == 2,
    ensures
        ({
            let buf = address_request(head, ty, addr);
            &&& route::addr::requested_cidr(buf.skip(16)) == Ok::<
                IpCidr,
                SyscallErr,
            >(named_block(head, addr))
            &&& bytes::u32_le_at(buf.skip(16), 4) == routes::stored(head.subrange(20, 24))
            &&& bytes::u16_le_at(buf, 4) == head[4] + 256 * head[5]
            &&& bytes::u16_le_at(buf, 6) == head[6] + 256 * head[7]
            &&& buf.len() == 32
        }),
{
    let buf = address_request(head, ty, addr);
    let p = buf.skip(16);
    assert(p.subrange(12, 16) =~= addr);
    routes::lemma_attr_at(p, 8, ty as u16, addr);
    let s = attr::attrs_from(p, 8);
    assert(s[0] == AttrModel { ty: ty as u16, data: addr });
    seqs::lemma_find_first(s, route::addr::holds_address(4), 0);
    assert(bytes::u32_be_at(addr, 0) == routes::spelled(addr));
}

proof fn lemma_device_at(devs: Seq<DeviceModel>, i: int)
    requires
        net_core::ordered(devs),
        0 <= i < devs.len(),
    ensures
        seqs::find_first(devs, net_core::indexed(devs[i].nic_id)) == Some(devs[i]),
        forall|j: int| 0 <= j < devs.len() && j != i ==> (#[trigger] devs[j]).nic_id != devs[i].nic_id,
{
    seqs::lemma_find_first(devs, net_core::indexed(devs[i].nic_id), i);
}

/// An address that is added stands last among those of the interface that the
/// request names, which keeps the others; so does every other interface. The
/// stack of the interface is told, and the last route leads straight to the
/// network of the address. An address that is there already is refused, unless
/// it is to be replaced.
#[verifier::rlimit(40)]
pub proof fn law_added_address(
    q: Seq<Seq<u8>>,
    n: NetModel,
    rows: Seq<NeighbourRow>,
    pid: u32,
    head: Seq<u8>,
    ty: u8,
    addr: Seq<u8>,
    flags: u16,
    i: int,
)
    requires
        head.len() == 24,
        addr.len() == 4,
        ty == 1 || ty == 2,
        head[4] == 20,
        head[5] == 0,
        flags == head[6] + 256 * head[7],
        flags & 1 != 0,
        head[16] == 2,
        net_core::ordered(n.devs),
        0 <= i < n.devs.len(),
        n.devs[i].nic_id == routes::stored(head.subrange(20, 24)),
    ensures
        ({
            let buf = address_request(head, ty, addr);
            let (queue, after, _) = route::handled(q, n, rows, pid, buf);
            let c = named_block(head, addr);
            let d = n.devs[i];
            if d.ip_addrs.contains(c) && (flags & 0x200 != 0 || flags & 0x100 == 0) {
                &&& after == n
                &&& queue == q || answers::answered(q, queue, buf, 17)
            } else {
                &&& queue == q || answers::answered(q, queue, buf, 0)
                &&& after.devs.len() == n.devs.len()
                &&& after.devs[i].ip_addrs.len() > 0
                &&& after.devs[i].ip_addrs.last() == c
                &&& forall|x: IpCidr|
                    d.ip_addrs.contains(x) ==> #[trigger] after.devs[i].ip_addrs.contains(x)
                &&& after.devs[i].nic_id == d.nic_id
                &&& after.devs[i].name == d.name
                &&& after.devs[i].flags == d.flags
                &&& after.devs[i].mtu == d.mtu
                &&& after.devs[i].hwaddr == d.hwaddr
                &&& forall|j: int|
                    0 <= j < n.devs.len() && j != i ==> #[trigger] after.devs[j] == n.devs[j]
                &&& after.entries.len() > 0
                &&& after.entries.last().destination == c.spec_network()
                &&& after.entries.last().next_hop is None
                &&& after.entries.last().ifindex == d.nic_id
                &&& after.entries.last().route_type == RouteType::Connected
                &&& after.stack_ops == n.stack_ops.push(
                    StackOp::RemoveIp { ifindex: d.nic_id, cidr: c },
                ).push(StackOp::AddIp { ifindex: d.nic_id, cidr: c })
                &&& after.neighbours == n.neighbours
            }
        }),
{
    let buf = address_request(head, ty, addr);
    lemma_address_request(head, ty, addr);
    lemma_device_at(n.devs, i);
    let c = named_block(head, addr);
    let d = n.devs[i];
    let id = d.nic_id;
    let seq = bytes::u32_le_at(buf, 8);
    let next = NetModel {
        devs: net_core::replace_device(
            n.devs,
            DeviceModel { ip_addrs: route::addr::with_addr(d.ip_addrs, c), ..d },
        ),
        entries: route::addr::without_network(n.entries, c, id).push(
            route::addr::network_route(c, id),
        ),
        stack_ops: n.stack_ops.push(StackOp::RemoveIp { ifindex: id, cidr: c }).push(
            StackOp::AddIp { ifindex: id, cidr: c },
        ),
        ..n
    };
    routes::lemma_answer(q, next, 0, pid, buf);
    answers::law_errno_answer(q, n, 17, pid, buf);
    assert forall|x: IpCidr| d.ip_addrs.contains(x) implies #[trigger] route::addr::with_addr(
        d.ip_addrs,
        c,
    ).contains(x) by {
        let kept = d.ip_addrs.filter(iface::other_than(c));
        let with = route::addr::with_addr(d.ip_addrs, c);
        if x == c {
            assert(with[with.len() - 1] == c);
        } else if d.ip_addrs.contains(c) {
            seqs::lemma_filter_keeps(d.ip_addrs, iface::other_than(c), x);
            let j = choose|j: int| 0 <= j < kept.len() && kept[j] == x;
            assert(with[j] == x);
        } else {
            let j = choose|j: int| 0 <= j < d.ip_addrs.len() && d.ip_addrs[j] == x;
            assert(with[j] == x);
        }
    }
}

/// An address that is removed is gone from the interface that the request names,
/// which keeps the others; so does every other interface. The stack is told, and
/// the connected routes of the interface to that network go, and no others.
#[verifier::rlimit(40)]
pub proof fn law_removed_address(
    q: Seq<Seq<u8>>,
    n: NetModel,
    rows: Seq<NeighbourRow>,
    pid: u32,
    head: Seq<u8>,
    ty: u8,
    addr: Seq<u8>,
    flags: u16,
    i: int,
    x: IpCidr,
    k: int,
)
    requires
        head.len() == 24,
        addr.len() == 4,
        ty == 1 || ty == 2,
        head[4] == 21,
        head[5] == 0,
        flags == head[6] + 256 * head[7],
        flags & 1 != 0,
        head[16] == 2,
        net_core::ordered(n.devs),
        0 <= i < n.devs.len(),
        n.devs[i].nic_id == routes::stored(head.subrange(20, 24)),
        0 <= k < n.entries.len(),
    ensures
        ({
            let buf = address_request(head, ty, addr);
            let (queue, after, _) = route::handled(q, n, rows, pid, buf);
            let c = named_block(head, addr);
            let d = n.devs[i];
            &&& queue == q || answers::answered(q, queue, buf, 0)
            &&& after.devs.len() == n.devs.len()
            &&& after.devs[i].ip_addrs.contains(x) <==> d.ip_addrs.contains(x) && x != c
            &&& after.devs[i].nic_id == d.nic_id
            &&& after.devs[i].name == d.name
            &&& after.devs[i].flags == d.flags
            &&& forall|j: int|
                0 <= j < n.devs.len() && j != i ==> #[trigger] after.devs[j] == n.devs[j]
            &&& after.entries.contains(n.entries[k]) <==> !(n.entries[k].ifindex == d.nic_id
                && n.entries[k].destination == c.spec_network() && n.entries[k].route_type
                == RouteType::Connected)
            &&& after.stack_ops == n.stack_ops.push(
                StackOp::RemoveIp { ifindex: d.nic_id, cidr: c },
            )
        }),
{
    let buf = address_request(head, ty, addr);
    lemma_address_request(head, ty, addr);
    lemma_device_at(n.devs, i);
    let c = named_block(head, addr);
    let d = n.devs[i];
    let other = iface::other_than(c);
    let kept = d.ip_addrs.filter(other);
    let p = routing::not_connected_to(d.nic_id, c.spec_network());
    let entries = n.entries.filter(p);
    let next = NetModel {
        devs: net_core::replace_device(n.devs, DeviceModel { ip_addrs: kept, ..d }),
        entries,
        stack_ops: n.stack_ops.push(StackOp::RemoveIp { ifindex: d.nic_id, cidr: c }),
        ..n
    };
    routes::lemma_answer(q, next, 0, pid, buf);
    lemma_filter_contains(d.ip_addrs, other, x);
    lemma_filter_contains(n.entries, p, n.entries[k]);
    assert(n.entries.contains(n.entries[k]));
}

/// A filtered list holds what satisfies the predicate, and nothing else.
pub proof fn lemma_filter_contains<T>(s: Seq<T>, p: spec_fn(T) -> bool, x: T)
    ensures
        s.filter(p).contains(x) <==> s.contains(x) && p(x),
{
    let f = s.filter(p);
    seqs::lemma_filter_elements(s, p);
    if f.contains(x) {
        let j = choose|j: int| 0 <= j < f.len() && f[j] == x;
        assert(p(f[j]));
    }
    if s.contains(x) && p(x) {
        seqs::lemma_filter_keeps(s, p, x);
    }
}

/// A request on an address of an interface that is not there changes nothing.
pub proof fn law_address_of_unknown_interface(
    q: Seq<Seq<u8>>,
    n: NetModel,
    rows: Seq<NeighbourRow>,
    pid: u32,
    head: Seq<u8>,
    ty: u8,
    addr: Seq<u8>,
    flags: u16,
)
    requires
        head.len() == 24,
        addr.len() == 4,
        ty == 1 || ty == 2,
        head[4] == 20 || head[4] == 21,
        head[5] == 0,
        flags == head[6] + 256 * head[7],
        flags & 1 != 0,
        head[16] == 2,
        forall|i: int|
            0 <= i < n.devs.len() ==> (#[trigger] n.devs[i]).nic_id != routes::stored(
                head.subrange(20, 24),
            ),
    ensures
        ({
            let buf = address_request(head, ty, addr);
            let (queue, after, _) = route::handled(q, n, rows, pid, buf);
            &&& after == n
            &&& queue == q || answers::answered(q, queue, buf, 19)
        }),
{
    let buf = address_request(head, ty, addr);
    lemma_address_request(head, ty, addr);
    let id = bytes::u32_le_at(buf.skip(16), 4);
    seqs::lemma_find_none(n.devs, net_core::indexed(id));
    answers::law_errno_answer(q, n, 19, pid, buf);
}

/// A request that changes an interface by its index sets those of its flags that
/// the request selects, as the request has them, and leaves the others; the
/// name, the largest packet and the addresses stay, and so does every other
/// interface.
#[verifier::rlimit(40)]
pub proof fn law_changed_flags(
    q: Seq<Seq<u8>>,
    n: NetModel,
    rows: Seq<NeighbourRow>,
    pid: u32,
    buf: Seq<u8>,
    i: int,
    flags: u16,
    wanted: u32,
    change: u32,
)
    requires
        buf.len() == 32,
        buf[4] == 19,
        buf[5] == 0,
        flags == buf[6] + 256 * buf[7],
        flags & 1 != 0,
        net_core::ordered(n.devs),
        0 <= i < n.devs.len(),
        0 < n.devs[i].nic_id < 0x8000_0000,
        n.devs[i].nic_id == routes::stored(buf.subrange(20, 24)),
        wanted == routes::stored(buf.subrange(24, 28)),
        change == routes::stored(buf.subrange(28, 32)),
    ensures
        ({
            let (queue, after, _) = route::handled(q, n, rows, pid, buf);
            let d = n.devs[i];
            &&& queue == q || answers::answered(q, queue, buf, 0)
            &&& after.devs.len() == n.devs.len()
            &&& after.devs[i].flags & change == wanted & change
            &&& after.devs[i].flags & !change == d.flags & !change
            &&& after.devs[i].nic_id == d.nic_id
            &&& after.devs[i].name == d.name
            &&& after.devs[i].mtu == d.mtu
            &&& after.devs[i].ip_addrs == d.ip_addrs
            &&& after.devs[i].hwaddr == d.hwaddr
            &&& forall|j: int|
                0 <= j < n.devs.len() && j != i ==> #[trigger] after.devs[j] == n.devs[j]
            &&& after.entries == n.entries
            &&& after.neighbours == n.neighbours
        }),
{
    let d = n.devs[i];
    let f = d.flags;
    let p = buf.skip(16);
    lemma_device_at(n.devs, i);
    assert(bytes::u16_le_at(buf, 4) == 19);
    assert(bytes::u16_le_at(buf, 6) == flags);
    assert(bytes::u32_le_at(p, 4) == d.nic_id);
    assert(bytes::u32_le_at(p, 8) == wanted);
    assert(bytes::u32_le_at(p, 12) == change);
    assert(attr::attrs_from(p, 16) == Seq::<AttrModel>::empty());
    seqs::lemma_find_last_none(attr::attrs_from(p, 16), attr::of_type(3, 0));
    seqs::lemma_find_last_none(attr::attrs_from(p, 16), attr::of_type(4, 4));
    assert(((f & !change) | (wanted & change)) & change == wanted & change) by (bit_vector);
    assert(((f & !change) | (wanted & change)) & !change == f & !change) by (bit_vector);
    assert(change == 0 ==> f & change == wanted & change) by (bit_vector);
    let changed = DeviceModel {
        flags: if change != 0 {
            route::link::changed_flags(f, wanted, change)
        } else {
            f
        },
        ..d
    };
    let next = NetModel { devs: net_core::replace_device(n.devs, changed), ..n };
    routes::lemma_answer(q, next, 0, pid, buf);
}

/// A request that changes the largest packet of an interface sets it as asked for,
/// and with nothing selected leaves the flags.
#[verifier::rlimit(40)]
pub proof fn law_changed_mtu(
    q: Seq<Seq<u8>>,
    n: NetModel,
    rows: Seq<NeighbourRow>,
    pid: u32,
    head: Seq<u8>,
    mtu: Seq<u8>,
    i: int,
    flags: u16,
)
    requires
        head.len() == 32,
        mtu.len() == 4,
        head[4] == 19,
        head[5] == 0,
        flags == head[6] + 256 * head[7],
        flags & 1 != 0,
        net_core::ordered(n.devs),
        0 <= i < n.devs.len(),
        0 < n.devs[i].nic_id < 0x8000_0000,
        n.devs[i].nic_id == routes::stored(head.subrange(20, 24)),
        routes::stored(head.subrange(28, 32)) == 0,
    ensures
        ({
            let buf = head + routes::four_byte_attr(4, mtu);
            let (queue, after, _) = route::handled(q, n, rows, pid, buf);
            let d = n.devs[i];
            &&& queue == q || answers::answered(q, queue, buf, 0)
            &&& after.devs.len() == n.devs.len()
            &&& after.devs[i].mtu == routes::stored(mtu)
            &&& after.devs[i].flags == d.flags
            &&& after.devs[i].name == d.name
            &&& after.devs[i].ip_addrs == d.ip_addrs
            &&& forall|j: int|
                0 <= j < n.devs.len() && j != i ==> #[trigger] after.devs[j] == n.devs[j]
        }),
{
    let buf = head + routes::four_byte_attr(4, mtu);
    let d = n.devs[i];
    let p = buf.skip(16);
    lemma_device_at(n.devs, i);
    assert(bytes::u16_le_at(buf, 4) == 19);
    assert(bytes::u16_le_at(buf, 6) == flags);
    assert(bytes::u32_le_at(p, 4) == d.nic_id);
    assert(bytes::u32_le_at(p, 12) == 0);
    assert(p.subrange(20, 24) =~= mtu);
    routes::lemma_attr_at(p, 16, 4, mtu);
    let s = attr::attrs_from(p, 16);
    assert(attr::attrs_from(p, 24) == Seq::<AttrModel>::empty());
    assert(s =~= seq![AttrModel { ty: 4, data: mtu }]);
    seqs::lemma_find_last_none(s, attr::of_type(3, 0));
    seqs::lemma_find_last(s, attr::of_type(4, 4), 0);
    let changed = DeviceModel { mtu: bytes::u32_le_at(mtu, 0) as usize, ..d };
    let next = NetModel { devs: net_core::replace_device(n.devs, changed), ..n };
    routes::lemma_answer(q, next, 0, pid, buf);
}

/// The bytes of a request on a neighbour: the header of the message and of the
/// neighbour, its protocol address and its hardware address.
pub open spec fn neighbour_request(head: Seq<u8>, ip: Seq<u8>, mac: Seq<u8>) -> Seq<u8> {
    head + seq![8u8, 0u8, 1u8, 0u8] + ip + seq![10u8, 0u8, 2u8, 0u8] + mac + seq![0u8, 0u8]
}

proof fn lemma_cut_attr_at(p: Seq<u8>, off: int, ty: u16, data: Seq<u8>)
    requires
        0 <= off,
        off % 4 == 0,
        data.len() <= 65531,
        off + 4 + data.len() <= p.len(),
        p[off] + 256 * p[off + 1] == data.len() + 4,
        p[off + 2] + 256 * p[off + 3] == ty,
        p.subrange(off + 4, off + 4 + data.len()) == data,
    ensures
        attr::cut_attrs_from(p, off) == seq![AttrModel { ty, data }] + attr::cut_attrs_from(
            p,
            off + (data.len() + 7) / 4 * 4,
        ),
{
    let len = bytes::u16_le_at(p, off) as int;
    assert(len == data.len() + 4);
    assert(wire_format::aligned(off + len) == off + (data.len() + 7) / 4 * 4);
}

proof fn lemma_neighbour_request(head: Seq<u8>, ip: Seq<u8>, mac: Seq<u8>)
    requires
        head.len() == 28,
        ip.len() == 4,
        mac.len() == 6,
    ensures
        ({
            let buf = neighbour_request(head, ip, mac);
            &&& route::neigh::nda_dst(buf.skip(16)) == Some(
                IpAddress::Ipv4(Ipv4Address { bits: routes::spelled(ip) as u32 }),
            )
            &&& route::neigh::nda_lladdr(buf.skip(16)) == Some(mac)
            &&& bytes::u32_le_at(buf, 20) == routes::stored(head.subrange(20, 24))
            &&& bytes::u16_le_at(buf, 4) == head[4] + 256 * head[5]
            &&& bytes::u16_le_at(buf, 6) == head[6] + 256 * head[7]
            &&& buf.len() == 48
        }),
{
    let buf = neighbour_request(head, ip, mac);
    let p = buf.skip(16);
    assert(p.subrange(16, 20) =~= ip);
    lemma_cut_attr_at(p, 12, 1, ip);
    assert(p.subrange(24, 30) =~= mac);
    lemma_cut_attr_at(p, 20, 2, mac);
    assert(attr::cut_attrs_from(p, 32) == Seq::<AttrModel>::empty());
    let s = attr::cut_attrs_from(p, 12);
    assert(s =~= seq![AttrModel { ty: 1, data: ip }, AttrModel { ty: 2, data: mac }]);
    seqs::lemma_find_last(s, attr::of_type(1, 4), 0);
    seqs::lemma_find_last(s, attr::of_type(2, 6), 1);
    assert(mac.subrange(0, 6) =~= mac);
    assert(bytes::u32_be_at(ip, 0) == routes::spelled(ip));
}

/// A neighbour that is recorded is found under its interface and address with the
/// hardware address that was given, and every other neighbour stays as it is.
#[verifier::rlimit(40)]
pub proof fn law_recorded_neighbour(
    q: Seq<Seq<u8>>,
    n: NetModel,
    rows: Seq<NeighbourRow>,
    pid: u32,
    head: Seq<u8>,
    ip: Seq<u8>,
    mac: Seq<u8>,
    flags: u16,
    ifindex: u32,
    other: (u32, IpAddress),
)
    requires
        head.len() == 28,
        ip.len() == 4,
        mac.len() == 6,
        head[4] == 28,
        head[5] == 0,
        flags == head[6] + 256 * head[7],
        flags & 1 != 0,
        ifindex == routes::stored(head.subrange(20, 24)),
        0 < ip[0] < 224,
    ensures
        ({
            let (queue, after, _) = route::handled(q, n, rows, pid, neighbour_request(head, ip, mac));
            let key = (ifindex, IpAddress::Ipv4(Ipv4Address { bits: routes::spelled(ip) as u32 }));
            &&& queue == q
            &&& after.neighbours.contains_key(key)
            &&& after.neighbours[key].mac == mac
            &&& after.neighbours[key].state == 2
            &&& other != key ==> (after.neighbours.contains_key(other) <==> n.neighbours.contains_key(
                other,
            ))
            &&& other != key && n.neighbours.contains_key(other) ==> after.neighbours[other]
                == n.neighbours[other]
            &&& after.devs == n.devs
            &&& after.entries == n.entries
        }),
{
    lemma_neighbour_request(head, ip, mac);
    let bits = routes::spelled(ip);
    assert(bits / 16777216 == ip[0]);
    assert(bits as u32 == bits);
}

/// A neighbour that is forgotten is gone, and every other stays as it is.
#[verifier::rlimit(40)]
pub proof fn law_forgotten_neighbour(
    q: Seq<Seq<u8>>,
    n: NetModel,
    rows: Seq<NeighbourRow>,
    pid: u32,
    head: Seq<u8>,
    ip: Seq<u8>,
    mac: Seq<u8>,
    flags: u16,
    ifindex: u32,
    other: (u32, IpAddress),
)
    requires
        head.len() == 28,
        ip.len() == 4,
        mac.len() == 6,
        head[4] == 29,
        head[5] == 0,
        flags == head[6] + 256 * head[7],
        flags & 1 != 0,
        ifindex == routes::stored(head.subrange(20, 24)),
    ensures
        ({
            let after = route::handled(q, n, rows, pid, neighbour_request(head, ip, mac)).1;
            let key = (ifindex, IpAddress::Ipv4(Ipv4Address { bits: routes::spelled(ip) as u32 }));
            &&& !after.neighbours.contains_key(key)
            &&& other != key ==> (after.neighbours.contains_key(other) <==> n.neighbours.contains_key(
                other,
            ))
            &&& other != key && n.neighbours.contains_key(other) ==> after.neighbours[other]
                == n.neighbours[other]
            &&& after.devs == n.devs
            &&& after.entries == n.entries
        }),
{
    lemma_neighbour_request(head, ip, mac);
}

/// A request to delete an interface by its index has the pair deleted that it is
/// one end of; other interfaces cannot be deleted, and one that is not there is
/// no device. Nothing changes yet.
#[verifier::rlimit(40)]
pub proof fn law_deleted_interface(
    q: Seq<Seq<u8>>,
    n: NetModel,
    rows: Seq<NeighbourRow>,
    pid: u32,
    buf: Seq<u8>,
    i: int,
    flags: u16,
)
    requires
        buf.len() == 32,
        buf[4] == 17,
        buf[5] == 0,
        flags == buf[6] + 256 * buf[7],
        flags & 1 != 0,
        net_core::ordered(n.devs),
        0 <= i < n.devs.len(),
        0 < n.devs[i].nic_id < 0x8000_0000,
        n.devs[i].nic_id == routes::stored(buf.subrange(20, 24)),
    ensures
        ({
            let (queue, after, step) = route::handled(q, n, rows, pid, buf);
            let d = n.devs[i];
            &&& after == n
            &&& d.kind == DeviceKind::Veth ==> queue == q && step == Ok::<StepModel, SyscallErr>(
                StepModel::DeleteVeth { nic_id: d.nic_id },
            )
            &&& d.kind != DeviceKind::Veth ==> queue == q || answers::answered(q, queue, buf, 95)
        }),
{
    lemma_device_at(n.devs, i);
    assert(bytes::u16_le_at(buf, 4) == 17);
    assert(bytes::u16_le_at(buf, 6) == flags);
    assert(bytes::u32_le_at(buf.skip(16), 4) == n.devs[i].nic_id);
    routes::lemma_answer(q, n, 95, pid, buf);
}

/// A request that names an interface by its index and a process has the interface
/// moved to the namespace of that process; the loopback interface stays.
#[verifier::rlimit(40)]
pub proof fn law_moved_interface(
    q: Seq<Seq<u8>>,
    n: NetModel,
    rows: Seq<NeighbourRow>,
    pid: u32,
    head: Seq<u8>,
    target: Seq<u8>,
    i: int,
    flags: u16,
)
    requires
        head.len() == 32,
        target.len() == 4,
        head[4] == 16,
        head[5] == 0,
        flags == head[6] + 256 * head[7],
        flags & 1 != 0,
        net_core::ordered(n.devs),
        0 <= i < n.devs.len(),
        0 < n.devs[i].nic_id,
        n.devs[i].nic_id == routes::stored(head.subrange(20, 24)),
    ensures
        ({
            let buf = head + routes::four_byte_attr(19, target);
            let (queue, after, step) = route::handled(q, n, rows, pid, buf);
            let d = n.devs[i];
            &&& after == n
            &&& d.kind != DeviceKind::Loopback ==> queue == q && step == Ok::<
                StepModel,
                SyscallErr,
            >(StepModel::Move { nic_id: d.nic_id, target_pid: routes::stored(target) as u32 })
            &&& d.kind == DeviceKind::Loopback ==> queue == q || answers::answered(
                q,
                queue,
                buf,
                16,
            )
        }),
{
    let buf = head + routes::four_byte_attr(19, target);
    let p = buf.skip(16);
    lemma_device_at(n.devs, i);
    assert(bytes::u16_le_at(buf, 4) == 16);
    assert(bytes::u16_le_at(buf, 6) == flags);
    assert(bytes::u32_le_at(p, 4) == n.devs[i].nic_id);
    assert(p.subrange(20, 24) =~= target);
    routes::lemma_attr_at(p, 16, 19, target);
    let s = attr::attrs_from(p, 16);
    assert(attr::attrs_from(p, 24) == Seq::<AttrModel>::empty());
    assert(s =~= seq![AttrModel { ty: 19, data: target }]);
    let top = attr::stripped(s);
    assert(19u16 & 0x7fff == 19) by (bit_vector);
    assert(top =~= seq![AttrModel { ty: 19, data: target }]);
    seqs::lemma_find_last(top, attr::of_type(19, 4), 0);
    routes::lemma_answer(q, n, 16, pid, buf);
}

/// A request for one interface by its index is answered with what is said of that
/// interface, behind what waits; nothing changes.
#[verifier::rlimit(40)]
pub proof fn law_asked_interface(
    q: Seq<Seq<u8>>,
    n: NetModel,
    rows: Seq<NeighbourRow>,
    pid: u32,
    buf: Seq<u8>,
    i: int,
    flags: u16,
)
    requires
        buf.len() == 32,
        buf[4] == 18,
        buf[5] == 0,
        flags == buf[6] + 256 * buf[7],
        flags & 1 != 0,
        flags & 0x300 == 0,
        net_core::ordered(n.devs),
        0 <= i < n.devs.len(),
        0 < n.devs[i].nic_id < 0x8000_0000,
        n.devs[i].nic_id == routes::stored(buf.subrange(20, 24)),
        route::dispatched(q, n, rows, pid, buf).2 is Ok,
    ensures
        ({
            let (queue, after, _) = route::handled(q, n, rows, pid, buf);
            &&& after == n
            &&& queue == q.push(
                route::dump::link_msg(n.devs[i], 0, routes::stored(buf.subrange(8, 12)) as u32, pid),
            )
        }),
{
    lemma_device_at(n.devs, i);
    assert(bytes::u16_le_at(buf, 4) == 18);
    assert(bytes::u16_le_at(buf, 6) == flags);
    assert(flags & (0x300u16 | 0x100u16) == flags & 0x300) by (bit_vector);
    assert(bytes::u32_le_at(buf.skip(16), 4) == n.devs[i].nic_id);
    assert(bytes::u32_le_at(buf, 8) == routes::stored(buf.subrange(8, 12)));
}

/// A request for one neighbour is answered with what is recorded of it, if
/// anything is, and the end of the list; nothing changes.
#[verifier::rlimit(40)]
pub proof fn law_asked_neighbour(
    q: Seq<Seq<u8>>,
    n: NetModel,
    rows: Seq<NeighbourRow>,
    pid: u32,
    head: Seq<u8>,
    ip: Seq<u8>,
    mac: Seq<u8>,
    flags: u16,
    ifindex: u32,
)
    requires
        head.len() == 28,
        ip.len() == 4,
        mac.len() == 6,
        head[4] == 30,
        head[5] == 0,
        flags == head[6] + 256 * head[7],
        flags & 1 != 0,
        flags & 0x300 == 0,
        ifindex == routes::stored(head.subrange(20, 24)),
        route::dispatched(q, n, rows, pid, neighbour_request(head, ip, mac)).2 is Ok,
    ensures
        ({
            let (queue, after, _) = route::handled(q, n, rows, pid, neighbour_request(head, ip, mac));
            let a = IpAddress::Ipv4(Ipv4Address { bits: routes::spelled(ip) as u32 });
            let seq = routes::stored(head.subrange(8, 12)) as u32;
            &&& after == n
            &&& !n.neighbours.contains_key((ifindex, a)) ==> queue.len() == q.len() + 1
            &&& n.neighbours.contains_key((ifindex, a)) ==> queue.len() == q.len() + 2
                && queue[q.len() as int] == route::dump::neigh_msg(
                ifindex,
                a,
                n.neighbours[(ifindex, a)].mac,
                n.neighbours[(ifindex, a)].state,
                0,
                seq,
                pid,
            )
            &&& queue.take(q.len() as int) == q
        }),
{
    let buf = neighbour_request(head, ip, mac);
    lemma_neighbour_request(head, ip, mac);
    assert(flags & (0x300u16 | 0x100u16) == flags & 0x300) by (bit_vector);
    assert(bytes::u32_le_at(buf, 8) == routes::stored(head.subrange(8, 12)));
    let a = IpAddress::Ipv4(Ipv4Address { bits: routes::spelled(ip) as u32 });
    let seq = bytes::u32_le_at(buf, 8);
    let done = route::dump::done_msg(seq, pid);
    assert(q.push(done).take(q.len() as int) =~= q);
    if n.neighbours.contains_key((ifindex, a)) {
        let e = n.neighbours[(ifindex, a)];
        let msg = route::dump::neigh_msg(ifindex, a, e.mac, e.state, 0, seq, pid);
        let msgs = seq![msg, done];
        crate::laws::dumps::lemma_delivered(q, msgs);
        assert((q + msgs).take(q.len() as int) =~= q);
    }
}

/// A request that gives an interface another name renames it, unless another
/// interface has that name; then the name stays, and the asker is told.
#[verifier::rlimit(60)]
pub proof fn law_renamed_interface(
    q: Seq<Seq<u8>>,
    n: NetModel,
    rows: Seq<NeighbourRow>,
    pid: u32,
    head: Seq<u8>,
    name: Seq<u8>,
    i: int,
    flags: u16,
)
    requires
        head.len() == 32,
        name.len() == 4,
        head[4] == 19,
        head[5] == 0,
        flags == head[6] + 256 * head[7],
        flags & 1 != 0,
        net_core::ordered(n.devs),
        0 <= i < n.devs.len(),
        0 < n.devs[i].nic_id < 0x8000_0000,
        n.devs[i].nic_id == routes::stored(head.subrange(20, 24)),
        routes::stored(head.subrange(28, 32)) == 0,
    ensures
        ({
            let buf = head + routes::four_byte_attr(3, name);
            let (queue, after, _) = route::handled(q, n, rows, pid, buf);
            let d = n.devs[i];
            let text = crate::text::nul_text(name);
            let taken = exists|j: int|
                0 <= j < n.devs.len() && j != i && (#[trigger] n.devs[j]).name == text;
            &&& after.devs.len() == n.devs.len()
            &&& taken && text != d.name ==> after.devs[i].name == d.name && (queue == q
                || answers::answered(q, queue, buf, 17))
            &&& !taken ==> after.devs[i].name == text && (queue == q || answers::answered(
                q,
                queue,
                buf,
                0,
            ))
            &&& after.devs[i].flags == d.flags
            &&& after.devs[i].mtu == d.mtu
            &&& after.devs[i].ip_addrs == d.ip_addrs
            &&& forall|j: int|
                0 <= j < n.devs.len() && j != i ==> #[trigger] after.devs[j] == n.devs[j]
        }),
{
    let buf = head + routes::four_byte_attr(3, name);
    let d = n.devs[i];
    let p = buf.skip(16);
    let text = crate::text::nul_text(name);
    lemma_device_at(n.devs, i);
    assert(bytes::u16_le_at(buf, 4) == 19);
    assert(bytes::u16_le_at(buf, 6) == flags);
    assert(bytes::u32_le_at(p, 4) == d.nic_id);
    assert(bytes::u32_le_at(p, 12) == 0);
    assert(p.subrange(20, 24) =~= name);
    routes::lemma_attr_at(p, 16, 3, name);
    let s = attr::attrs_from(p, 16);
    assert(attr::attrs_from(p, 24) == Seq::<AttrModel>::empty());
    assert(s =~= seq![AttrModel { ty: 3, data: name }]);
    seqs::lemma_find_last(s, attr::of_type(3, 0), 0);
    seqs::lemma_find_last_none(s, attr::of_type(4, 4));
    if route::link::name_taken(n.devs, d.nic_id, text) {
        let j = choose|j: int|
            0 <= j < n.devs.len() && (#[trigger] n.devs[j]).nic_id != d.nic_id && n.devs[j].name
                == text;
        assert(j != i);
    }
    let same = NetModel { devs: net_core::replace_device(n.devs, d), ..n };
    let next = NetModel {
        devs: net_core::replace_device(n.devs, DeviceModel { name: text, ..d }),
        ..n
    };
    routes::lemma_answer(q, same, 17, pid, buf);
    routes::lemma_answer(q, next, 0, pid, buf);
}

/// A request for a pair of interfaces with two free names has the two made under
/// these names, and nothing is changed or answered before. A name that some
/// interface has is refused as one that exists, another kind of interface as
/// not supported, and a pair without a name as invalid.
pub proof fn law_asked_pair(
    q: Seq<Seq<u8>>,
    n: NetModel,
    pid: u32,
    buf: Seq<u8>,
    a: Seq<char>,
    b: Seq<char>,
    k: int,
)
    requires
        buf.len() >= 32,
        a.len() > 0,
        b.len() > 0,
        route::link::new_link_request(buf.skip(16)).target_pid is None,
        route::link::new_link_request(buf.skip(16)).kind == Some("veth"@),
        route::link::new_link_request(buf.skip(16)).name == Some(a),
        route::link::new_link_request(buf.skip(16)).peer == Some(b),
    ensures
        ({
            let (queue, after, r) = route::link::newlink(
                q,
                n,
                bytes::u32_le_at(buf, 8),
                pid,
                buf,
            );
            let free = forall|i: int|
                0 <= i < n.devs.len() ==> (#[trigger] n.devs[i]).name != a && n.devs[i].name != b;
            &&& after == n
            &&& free ==> queue == q && r == Ok::<StepModel, SyscallErr>(
                StepModel::CreateVeth { name1: a, name2: b },
            )
            &&& 0 <= k < n.devs.len() && (n.devs[k].name == a || n.devs[k].name == b) ==> (r is Ok
                ==> answers::answered(q, queue, buf, 17))
        }),
{
    reveal_strlit("veth");
    seqs::lemma_found(n.devs, net_core::named(a));
    seqs::lemma_found(n.devs, net_core::named(b));
    answers::law_errno_answer(q, n, 17, pid, buf);
    if forall|i: int|
        0 <= i < n.devs.len() ==> (#[trigger] n.devs[i]).name != a && n.devs[i].name != b {
        assert forall|i: int| 0 <= i < n.devs.len() implies !net_core::named(a)(
            #[trigger] n.devs[i],
        ) && !net_core::named(b)(n.devs[i]) by {}
        seqs::lemma_find_none(n.devs, net_core::named(a));
        seqs::lemma_find_none(n.devs, net_core::named(b));
    }
    if 0 <= k < n.devs.len() {
        if n.devs[k].name == a {
            assert(net_core::named(a)(n.devs[k]));
        }
        if n.devs[k].name == b {
            assert(net_core::named(b)(n.devs[k]));
        }
    }
}

/// A request for a new interface that names no kind is one on the interface that it
/// names; without a name or number it is invalid. Only pairs can be made.
pub proof fn law_asked_kind(q: Seq<Seq<u8>>, n: NetModel, pid: u32, buf: Seq<u8>, kind: Seq<char>)
    requires
        buf.len() >= 32,
        route::link::new_link_request(buf.skip(16)).target_pid is None,
    ensures
        ({
            let req = route::link::new_link_request(buf.skip(16));
            let seq = bytes::u32_le_at(buf, 8);
            let (queue, after, r) = route::link::newlink(q, n, seq, pid, buf);
            let (set, changed, s) = route::link::setlink(q, n, seq, pid, buf);
            &&& req.kind is None && (req.index > 0 || req.name is Some) ==> queue == set && after
                == changed && (r is Ok <==> s is Ok)
            &&& req.kind is None && req.index == 0 && req.name is None ==> after == n && (r is Ok
                ==> answers::answered(q, queue, buf, 22))
            &&& req.kind == Some(kind) && kind.len() > 0 && kind != "veth"@ ==> after == n && (
            r is Ok ==> answers::answered(q, queue, buf, 95))
            &&& req.kind == Some("veth"@) && req.name is None ==> after == n && (r is Ok
                ==> answers::answered(q, queue, buf, 22))
        }),
{
    reveal_strlit("veth");
    answers::law_errno_answer(q, n, 22, pid, buf);
    answers::law_errno_answer(q, n, 95, pid, buf);
}

} // verus!
