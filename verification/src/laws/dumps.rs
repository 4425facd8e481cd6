//! What user space is told of interfaces, addresses, routes and neighbours, by
//! the bytes of the messages.
use vstd::prelude::*;
use vstd::utf8;
use crate::bytes;
use crate::iface::{DeviceKind, DeviceModel};
use crate::laws::routes;
use crate::neighbour::NeighbourRow;
use crate::routing::{RouteEntry, RouteType};
use crate::socket::netlink;
use crate::socket::netlink::attr;
use crate::socket::netlink::attr::AttrModel;
use crate::socket::netlink::netlink as wire_format;
use crate::socket::netlink::route;
use crate::socket::netlink::route::NetModel;
use crate::wire;
use crate::wire::{IpAddress, IpCidr, Ipv4Address};

verus! {

/// The number that two bytes spell in host order.
pub open spec fn short_at(m: Seq<u8>, i: int) -> int {
    m[i] + 256 * m[i + 1]
}

/// The number that four bytes spell in host order.
pub open spec fn long_at(m: Seq<u8>, i: int) -> int {
    m[i] + 256 * m[i + 1] + 65536 * m[i + 2] + 16777216 * m[i + 3]
}

/// A message by its bytes: its own length, type, flags, sequence number and port,
/// and behind them the payload.
proof fn lemma_message(ty: u16, flags: u16, seq: u32, pid: u32, payload: Seq<u8>)
    requires
        payload.len() <= 1_000_000,
    ensures
        ({
            let m = wire_format::nlmsg(ty, flags, seq, pid, payload);
            &&& long_at(m, 0) == m.len()
            &&& short_at(m, 4) == ty
            &&& short_at(m, 6) == flags
            &&& long_at(m, 8) == seq
            &&& long_at(m, 12) == pid
            &&& 16 + payload.len() <= m.len() < 20 + payload.len()
            &&& payload.len() % 4 == 0 ==> m.len() == 16 + payload.len()
            &&& m.subrange(16, 16 + payload.len() as int) == payload
        }),
{
    wire_format::law_message_header(ty, flags, seq, pid, payload);
    lemma_message_length(ty, flags, seq, pid, payload);
    let m = wire_format::nlmsg(ty, flags, seq, pid, payload);
    lemma_host_order(m, 0);
    lemma_host_order(m, 4);
    lemma_host_order(m, 6);
    lemma_host_order(m, 8);
    lemma_host_order(m, 12);
}

proof fn lemma_message_length(ty: u16, flags: u16, seq: u32, pid: u32, payload: Seq<u8>)
    ensures
        wire_format::nlmsg(ty, flags, seq, pid, payload).len() == 16 + wire_format::aligned(
            payload.len() as int,
        ),
{
}

proof fn lemma_host_order(m: Seq<u8>, i: int)
    ensures
        bytes::u16_le_at(m, i) == short_at(m, i),
        bytes::u32_le_at(m, i) == long_at(m, i),
{
}

/// The bytes of an attribute.
#[verifier::opaque]
spec fn is_attr(a: Seq<u8>, ty: u16, data: Seq<u8>) -> bool {
    &&& short_at(a, 0) == data.len() + 4
    &&& short_at(a, 2) == ty
    &&& a.subrange(4, 4 + data.len() as int) == data
}

/// An attribute, by its bytes.
proof fn lemma_rta(ty: u16, data: Seq<u8>)
    requires
        data.len() <= 65531,
    ensures
        wire_format::rta(ty, data).len() == (data.len() + 7) / 4 * 4,
        is_attr(wire_format::rta(ty, data), ty, data),
{
    reveal(is_attr);
    let a = wire_format::rta(ty, data);
    let len = (data.len() + 4) as u16;
    bytes::lemma_le_roundtrip(len, 0);
    bytes::lemma_le_roundtrip(ty, 0);
    let l = bytes::le16(len);
    let t = bytes::le16(ty);
    assert(data.len() % 65536 == data.len());
    assert(a[0] == l[0] && a[1] == l[1] && a[2] == t[0] && a[3] == t[1]);
    assert(a.subrange(4, 4 + data.len() as int) =~= data);
}

/// What stands at an offset in front of something else.
proof fn lemma_part(p: Seq<u8>, off: int, a: Seq<u8>, rest: Seq<u8>)
    requires
        0 <= off <= p.len(),
        p.skip(off) == a + rest,
    ensures
        p.len() == off + a.len() + rest.len(),
        p.subrange(off, off + a.len()) == a,
        p.skip(off + a.len()) == rest,
{
    let s = p.skip(off);
    assert(s.len() == p.len() - off);
    assert(p.subrange(off, off + a.len()) =~= s.subrange(0, a.len() as int));
    assert(s.subrange(0, a.len() as int) =~= a);
    assert(p.skip(off + a.len()) =~= s.skip(a.len() as int));
    assert(s.skip(a.len() as int) =~= rest);
}

/// Numbers that stand in a part stand in the whole.
proof fn lemma_numbers(p: Seq<u8>, off: int, a: Seq<u8>)
    requires
        0 <= off,
        off + a.len() <= p.len(),
        p.subrange(off, off + a.len()) == a,
    ensures
        a.len() >= 2 ==> short_at(p, off) == short_at(a, 0),
        a.len() >= 4 ==> long_at(p, off) == long_at(a, 0) && short_at(p, off + 2) == short_at(a, 2),
{
    if a.len() >= 2 {
        assert(a[0] == p[off] && a[1] == p[off + 1]);
    }
    if a.len() >= 4 {
        assert(a[2] == p[off + 2] && a[3] == p[off + 3]);
    }
}

/// A part of a part is a part.
proof fn lemma_nested_part(p: Seq<u8>, off: int, a: Seq<u8>, x: int, y: int)
    requires
        0 <= off,
        off + a.len() <= p.len(),
        p.subrange(off, off + a.len()) == a,
        0 <= x <= y <= a.len(),
    ensures
        p.subrange(off + x, off + y) == a.subrange(x, y),
{
    assert(p.subrange(off + x, off + y) =~= a.subrange(x, y));
}

/// An attribute in front of others is read as the first.
proof fn lemma_attr_part(p: Seq<u8>, off: int, a: Seq<u8>, ty: u16, data: Seq<u8>, rest: Seq<u8>)
    requires
        0 <= off <= p.len(),
        data.len() <= 65531,
        a.len() == (data.len() + 7) / 4 * 4,
        is_attr(a, ty, data),
        p.skip(off) == a + rest,
    ensures
        attr::attrs_from(p, off) == seq![AttrModel { ty, data }] + attr::attrs_from(
            p,
            off + a.len(),
        ),
        p.skip(off + a.len()) == rest,
        p.len() == off + a.len() + rest.len(),
{
    reveal(is_attr);
    lemma_part(p, off, a, rest);
    lemma_numbers(p, off, a);
    lemma_nested_part(p, off, a, 4, 4 + data.len() as int);
    routes::lemma_attr_at(p, off, ty, data);
}

proof fn lemma_link_head(kind: u16, id: u32, flags: u32)
    ensures
        ({
            let h = seq![0u8, 0u8] + bytes::le16(kind) + bytes::le32(id) + bytes::le32(flags)
                + bytes::le32(0);
            &&& h.len() == 16
            &&& h[0] == 0
            &&& short_at(h, 2) == kind
            &&& long_at(h, 4) == id
            &&& long_at(h, 8) == flags
        }),
{
    let h = seq![0u8, 0u8] + bytes::le16(kind) + bytes::le32(id) + bytes::le32(flags)
        + bytes::le32(0);
    bytes::lemma_le_roundtrip(kind, id);
    bytes::lemma_le_roundtrip(kind, flags);
    let k = bytes::le16(kind);
    let x = bytes::le32(id);
    let f = bytes::le32(flags);
    assert(h[2] == k[0] && h[3] == k[1]);
    assert(h[4] == x[0] && h[5] == x[1] && h[6] == x[2] && h[7] == x[3]);
    assert(h[8] == f[0] && h[9] == f[1] && h[10] == f[2] && h[11] == f[3]);
}

/// The attributes of a description whose header has `off` bytes.
proof fn lemma_two_attrs(
    p: Seq<u8>,
    off: int,
    a: Seq<u8>,
    t1: u16,
    d1: Seq<u8>,
    b: Seq<u8>,
    t2: u16,
    d2: Seq<u8>,
)
    requires
        0 <= off <= p.len(),
        d1.len() <= 65531,
        d2.len() <= 65531,
        a.len() == (d1.len() + 7) / 4 * 4,
        b.len() == (d2.len() + 7) / 4 * 4,
        is_attr(a, t1, d1),
        is_attr(b, t2, d2),
        p.skip(off) == a + (b + Seq::<u8>::empty()),
    ensures
        attr::attrs_from(p, off) == seq![
            AttrModel { ty: t1, data: d1 },
            AttrModel { ty: t2, data: d2 },
        ],
{
    lemma_attr_part(p, off, a, t1, d1, b + Seq::<u8>::empty());
    lemma_attr_part(p, off + a.len(), b, t2, d2, Seq::<u8>::empty());
    assert(attr::attrs_from(p, off + a.len() + b.len()) == Seq::<AttrModel>::empty());
    assert(attr::attrs_from(p, off) =~= seq![
        AttrModel { ty: t1, data: d1 },
        AttrModel { ty: t2, data: d2 },
    ]);
}

proof fn lemma_three_attrs(
    p: Seq<u8>,
    off: int,
    a: Seq<u8>,
    t1: u16,
    d1: Seq<u8>,
    b: Seq<u8>,
    t2: u16,
    d2: Seq<u8>,
    c: Seq<u8>,
    t3: u16,
    d3: Seq<u8>,
)
    requires
        0 <= off <= p.len(),
        d1.len() <= 65531,
        d2.len() <= 65531,
        d3.len() <= 65531,
        a.len() == (d1.len() + 7) / 4 * 4,
        b.len() == (d2.len() + 7) / 4 * 4,
        c.len() == (d3.len() + 7) / 4 * 4,
        is_attr(a, t1, d1),
        is_attr(b, t2, d2),
        is_attr(c, t3, d3),
        p.skip(off) == a + (b + c),
    ensures
        attr::attrs_from(p, off) == seq![
            AttrModel { ty: t1, data: d1 },
            AttrModel { ty: t2, data: d2 },
            AttrModel { ty: t3, data: d3 },
        ],
{
    lemma_attr_part(p, off, a, t1, d1, b + c);
    assert(c + Seq::<u8>::empty() =~= c);
    lemma_two_attrs(p, off + a.len(), b, t2, d2, c, t3, d3);
    assert(attr::attrs_from(p, off) =~= seq![
        AttrModel { ty: t1, data: d1 },
        AttrModel { ty: t2, data: d2 },
        AttrModel { ty: t3, data: d3 },
    ]);
}

/// Where the parts of a description stand.
proof fn lemma_parts(p: Seq<u8>, h: Seq<u8>, x: Seq<u8>, y: Seq<u8>, z: Seq<u8>)
    requires
        p == h + x + y + z,
    ensures
        p.len() == h.len() + x.len() + y.len() + z.len(),
        p.subrange(0, h.len() as int) == h,
        p.subrange(h.len() as int, (h.len() + x.len()) as int) == x,
        p.subrange(
            (h.len() + x.len()) as int,
            (h.len() + x.len() + y.len()) as int,
        ) == y,
        p.subrange((h.len() + x.len() + y.len()) as int, p.len() as int) == z,
        p.skip(h.len() as int) == x + (y + z),
        forall|i: int| 0 <= i < h.len() ==> #[trigger] h[i] == p[i],
{
    assert(p.subrange(0, h.len() as int) =~= h);
    assert(p.subrange(h.len() as int, (h.len() + x.len()) as int) =~= x);
    assert(p.subrange((h.len() + x.len()) as int, (h.len() + x.len() + y.len()) as int) =~= y);
    assert(p.subrange((h.len() + x.len() + y.len()) as int, p.len() as int) =~= z);
    assert(p.skip(h.len() as int) =~= x + (y + z));
}

/// The description of an interface, without the header of its message.
proof fn lemma_link_payload(d: DeviceModel)
    requires
        utf8::encode_utf8(d.name).len() <= 65530,
        d.hwaddr.len() == 6,
        d.mtu <= u32::MAX,
    ensures
        ({
            let p = route::dump::link_payload(d);
            let attrs = attr::attrs_from(p, 16);
            &&& 16 <= p.len() <= 1_000_000
            &&& p[0] == 0
            &&& short_at(p, 2) == if d.nic_id == 1 {
                772int
            } else {
                1
            }
            &&& long_at(p, 4) == d.nic_id
            &&& long_at(p, 8) == d.flags
            &&& attrs.len() == if d.kind == DeviceKind::Loopback {
                2int
            } else {
                3
            }
            &&& attrs[0].ty == 3 && attrs[0].data == utf8::encode_utf8(d.name).push(0)
            &&& attrs[1].ty == 4 && attrs[1].data == bytes::le32(d.mtu as u32)
            &&& d.kind != DeviceKind::Loopback ==> attrs[2].ty == 1 && attrs[2].data == d.hwaddr
        }),
{
    reveal(route::dump::link_payload);
    let p = route::dump::link_payload(d);
    let name = utf8::encode_utf8(d.name).push(0);
    let mtu = bytes::le32(d.mtu as u32);
    let kind: u16 = if d.nic_id == 1 {
        772
    } else {
        1
    };
    let h = seq![0u8, 0u8] + bytes::le16(kind) + bytes::le32(d.nic_id) + bytes::le32(d.flags)
        + bytes::le32(0);
    let a = wire_format::rta(3, name);
    let b = wire_format::rta(4, mtu);
    let c = if d.kind == DeviceKind::Loopback {
        Seq::<u8>::empty()
    } else {
        wire_format::rta(1, d.hwaddr)
    };
    assert(d.mtu as int % 0x1_0000_0000 == d.mtu);
    assert(p == h + a + b + c);
    lemma_link_head(kind, d.nic_id, d.flags);
    lemma_parts(p, h, a, b, c);
    lemma_rta(3, name);
    lemma_rta(4, mtu);
    lemma_rta(1, d.hwaddr);
    lemma_numbers(p, 0, h);
    lemma_nested_part(p, 0, h, 4, 8);
    lemma_nested_part(p, 0, h, 8, 12);
    lemma_numbers(p, 4, h.subrange(4, 8));
    lemma_numbers(p, 8, h.subrange(8, 12));
    assert(p[0] == h[0]);
    if d.kind == DeviceKind::Loopback {
        lemma_two_attrs(p, 16, a, 3, name, b, 4, mtu);
    } else {
        lemma_three_attrs(p, 16, a, 3, name, b, 4, mtu, c, 1, d.hwaddr);
    }
}

/// What is said of an interface: its index, its flags, and as attributes its
/// name with a final zero, its largest packet, and its hardware address unless
/// it is the loopback interface.
pub proof fn law_interface_message(d: DeviceModel, flags: u16, seq: u32, pid: u32)
    requires
        utf8::encode_utf8(d.name).len() <= 65530,
        d.hwaddr.len() == 6,
        d.mtu <= u32::MAX,
    ensures
        ({
            let m = route::dump::link_msg(d, flags, seq, pid);
            let len = route::dump::link_payload(d).len() as int;
            let attrs = attr::attrs_from(m.subrange(16, 16 + len), 16);
            &&& 16 + len <= m.len() < 16 + len + 4
            &&& long_at(m, 0) == m.len()
            &&& short_at(m, 4) == 16
            &&& short_at(m, 6) == flags
            &&& long_at(m, 8) == seq
            &&& long_at(m, 12) == pid
            &&& m[16] == 0
            &&& short_at(m, 18) == if d.nic_id == 1 {
                772int
            } else {
                1
            }
            &&& long_at(m, 20) == d.nic_id
            &&& long_at(m, 24) == d.flags
            &&& attrs.len() == if d.kind == DeviceKind::Loopback {
                2int
            } else {
                3
            }
            &&& attrs[0].ty == 3 && attrs[0].data == utf8::encode_utf8(d.name).push(0)
            &&& attrs[1].ty == 4 && attrs[1].data.len() == 4 && long_at(attrs[1].data, 0) == d.mtu
            &&& d.kind != DeviceKind::Loopback ==> attrs[2].ty == 1 && attrs[2].data == d.hwaddr
        }),
{
    reveal(route::dump::link_msg);
    let p = route::dump::link_payload(d);
    lemma_link_payload(d);
    lemma_message(16, flags, seq, pid, p);
    bytes::lemma_le_roundtrip(0, d.mtu as u32);
    let m = route::dump::link_msg(d, flags, seq, pid);
    lemma_numbers(m, 16, p);
    lemma_nested_part(m, 16, p, 4, 8);
    lemma_nested_part(m, 16, p, 8, 12);
    lemma_numbers(m, 20, p.subrange(4, 8));
    lemma_numbers(m, 24, p.subrange(8, 12));
    lemma_numbers(p, 4, p.subrange(4, 8));
    lemma_numbers(p, 8, p.subrange(8, 12));
    assert(p[0] == m.subrange(16, 16 + p.len() as int)[0]);
}

/// The description of an IPv4 route, without the header of its message.
#[verifier::rlimit(30)]
proof fn lemma_route_payload(e: RouteEntry, a: Ipv4Address)
    requires
        e.destination.address == IpAddress::Ipv4(a),
        e.destination.prefix_len > 0,
        e.next_hop matches Some(g) ==> g is Ipv4,
    ensures
        ({
            let p = route::dump::route_payload(e);
            &&& p.len() == if e.next_hop is Some {
                36int
            } else {
                28
            }
            &&& p[0] == 2
            &&& p[1] == e.destination.prefix_len
            &&& p[7] == if e.route_type == RouteType::Default {
                3int
            } else {
                1
            }
            &&& p.subrange(12, 20) == wire_format::rta(1, a.octets())
            &&& e.next_hop matches Some(g) ==> p.subrange(20, 28) == wire_format::rta(
                5,
                g->Ipv4_0.octets(),
            ) && p.subrange(28, 36) == wire_format::rta(4, bytes::le32(e.ifindex))
            &&& e.next_hop is None ==> p.subrange(20, 28) == wire_format::rta(
                4,
                bytes::le32(e.ifindex),
            )
        }),
{
    reveal(route::dump::route_payload);
    let p = route::dump::route_payload(e);
    let rt = if e.route_type == RouteType::Default {
        3u8
    } else {
        1u8
    };
    let h = seq![2u8, e.destination.prefix_len, 0u8, 0u8, 0u8, 2u8, 3u8, rt] + bytes::le32(0);
    let oif = bytes::le32(e.ifindex);
    bytes::lemma_le_roundtrip(0, e.ifindex);
    wire::lemma_v4_octets(a);
    lemma_rta(1, a.octets());
    lemma_rta(4, oif);
    let x = wire_format::rta(1, a.octets());
    let z = wire_format::rta(4, oif);
    let y = match e.next_hop {
        Some(IpAddress::Ipv4(g)) => wire_format::rta(5, g.octets()),
        _ => Seq::<u8>::empty(),
    };
    if e.next_hop is Some {
        let g = e.next_hop->0->Ipv4_0;
        wire::lemma_v4_octets(g);
        lemma_rta(5, g.octets());
    }
    assert(h.len() == 12);
    assert(p == h + x + y + z);
    lemma_parts(p, h, x, y, z);
    assert(h[0] == p[0] && h[1] == p[1] && h[7] == p[7]);
}

/// The number in an attribute that stands in a message.
proof fn lemma_attr_numbers(m: Seq<u8>, off: int, ty: u16, data: Seq<u8>)
    requires
        0 <= off,
        off + 8 <= m.len(),
        data.len() == 4,
        m.subrange(off, off + 8) == wire_format::rta(ty, data),
    ensures
        short_at(m, off) == 8,
        short_at(m, off + 2) == ty,
        m.subrange(off + 4, off + 8) == data,
        long_at(m, off + 4) == long_at(data, 0),
{
    reveal(is_attr);
    let a = wire_format::rta(ty, data);
    lemma_rta(ty, data);
    lemma_numbers(m, off, a);
    lemma_nested_part(m, off, a, 4, 8);
    lemma_numbers(m, off + 4, data);
}

/// Where a message has the parts of an IPv4 route.
#[verifier::rlimit(30)]
proof fn lemma_route_bytes(m: Seq<u8>, e: RouteEntry, a: Ipv4Address)
    requires
        e.destination.address == IpAddress::Ipv4(a),
        e.destination.prefix_len > 0,
        e.next_hop matches Some(g) ==> g is Ipv4,
        m.len() >= 16 + route::dump::route_payload(e).len(),
        m.subrange(16, 16 + route::dump::route_payload(e).len() as int)
            == route::dump::route_payload(e),
    ensures
        ({
            &&& m[16] == 2
            &&& m[17] == e.destination.prefix_len
            &&& m[23] == if e.route_type == RouteType::Default {
                3int
            } else {
                1
            }
            &&& short_at(m, 28) == 8 && short_at(m, 30) == 1
            &&& routes::spelled(m.subrange(32, 36)) == a.bits
            &&& e.next_hop matches Some(g) ==> {
                &&& short_at(m, 36) == 8 && short_at(m, 38) == 5
                &&& routes::spelled(m.subrange(40, 44)) == g->Ipv4_0.bits
                &&& short_at(m, 44) == 8 && short_at(m, 46) == 4
                &&& long_at(m, 48) == e.ifindex
            }
            &&& e.next_hop is None ==> {
                &&& short_at(m, 36) == 8 && short_at(m, 38) == 4
                &&& long_at(m, 40) == e.ifindex
            }
        }),
{
    let p = route::dump::route_payload(e);
    let oif = bytes::le32(e.ifindex);
    lemma_route_payload(e, a);
    bytes::lemma_le_roundtrip(0, e.ifindex);
    let s = m.subrange(16, 16 + p.len() as int);
    assert(s[0] == m[16] && s[1] == m[17] && s[7] == m[23]);
    wire::lemma_v4_octets(a);
    lemma_nested_part(m, 16, p, 12, 20);
    lemma_attr_numbers(m, 28, 1, a.octets());
    lemma_nested_part(m, 16, p, 20, 28);
    if e.next_hop is Some {
        let g = e.next_hop->0->Ipv4_0;
        wire::lemma_v4_octets(g);
        lemma_attr_numbers(m, 36, 5, g.octets());
        lemma_nested_part(m, 16, p, 28, 36);
        lemma_attr_numbers(m, 44, 4, oif);
    } else {
        lemma_attr_numbers(m, 36, 4, oif);
    }
}

/// What is said of an IPv4 route names its destination, its gateway and its
/// interface as a request for that route does.
#[verifier::rlimit(30)]
pub proof fn law_route_message(e: RouteEntry, seq: u32, pid: u32, a: Ipv4Address)
    requires
        e.destination.address == IpAddress::Ipv4(a),
        e.destination.prefix_len > 0,
        e.next_hop matches Some(g) ==> g is Ipv4,
    ensures
        ({
            let m = route::dump::route_msg(e, seq, pid);
            &&& long_at(m, 0) == m.len()
            &&& short_at(m, 4) == 24
            &&& short_at(m, 6) == 2
            &&& long_at(m, 8) == seq
            &&& long_at(m, 12) == pid
            &&& m[16] == 2
            &&& m[17] == e.destination.prefix_len
            &&& m[23] == if e.route_type == RouteType::Default {
                3int
            } else {
                1
            }
            &&& short_at(m, 28) == 8 && short_at(m, 30) == 1
            &&& routes::spelled(m.subrange(32, 36)) == a.bits
            &&& e.next_hop matches Some(g) ==> {
                &&& short_at(m, 36) == 8 && short_at(m, 38) == 5
                &&& routes::spelled(m.subrange(40, 44)) == g->Ipv4_0.bits
                &&& short_at(m, 44) == 8 && short_at(m, 46) == 4
                &&& long_at(m, 48) == e.ifindex
            }
            &&& e.next_hop is None ==> {
                &&& short_at(m, 36) == 8 && short_at(m, 38) == 4
                &&& long_at(m, 40) == e.ifindex
            }
        }),
{
    reveal(route::dump::route_msg);
    lemma_route_payload(e, a);
    let p = route::dump::route_payload(e);
    lemma_message(24, 2, seq, pid, p);
    lemma_route_bytes(route::dump::route_msg(e, seq, pid), e, a);
}

/// The description of an address, without the header of its message.
#[verifier::rlimit(30)]
proof fn lemma_addr_payload(d: DeviceModel, c: IpCidr)
    requires
        utf8::encode_utf8(d.name).len() <= 65530,
    ensures
        ({
            let p = route::dump::addr_payload(d, c);
            let attrs = attr::attrs_from(p, 8);
            &&& 8 <= p.len() <= 1_000_000
            &&& p[0] == if c.address is Ipv4 {
                2int
            } else {
                10
            }
            &&& p[1] == c.prefix_len
            &&& long_at(p, 4) == d.nic_id
            &&& attrs == seq![
                AttrModel { ty: 1, data: c.address.octets() },
                AttrModel { ty: 2, data: c.address.octets() },
                AttrModel { ty: 3, data: utf8::encode_utf8(d.name).push(0) },
            ]
        }),
{
    reveal(route::dump::addr_payload);
    let p = route::dump::addr_payload(d, c);
    let name = utf8::encode_utf8(d.name).push(0);
    let octets = c.address.octets();
    let family = match c.address {
        IpAddress::Ipv4(_) => 2u8,
        IpAddress::Ipv6(_) => 10u8,
    };
    match c.address {
        IpAddress::Ipv4(x) => {
            wire::lemma_v4_octets(x);
        },
        IpAddress::Ipv6(x) => {
            wire::lemma_v6_octets(x);
        },
    }
    let h = seq![family, c.prefix_len, 0u8, 0u8] + bytes::le32(d.nic_id);
    let a = wire_format::rta(1, octets);
    let b = wire_format::rta(2, octets);
    let l = wire_format::rta(3, name);
    bytes::lemma_le_roundtrip(0, d.nic_id);
    lemma_rta(1, octets);
    lemma_rta(2, octets);
    lemma_rta(3, name);
    assert(h.len() == 8);
    assert(p == h + a + b + l);
    lemma_parts(p, h, a, b, l);
    lemma_three_attrs(p, 8, a, 1, octets, b, 2, octets, l, 3, name);
    assert(h.subrange(4, 8) =~= bytes::le32(d.nic_id));
    lemma_nested_part(p, 0, h, 4, 8);
    lemma_numbers(p, 4, bytes::le32(d.nic_id));
    assert(p[0] == h[0] && p[1] == h[1]);
}

/// What is said of an address: its family, its prefix, the index of its
/// interface, and the address, so that a request with the same bytes would name
/// that very block.
#[verifier::rlimit(30)]
pub proof fn law_address_message(d: DeviceModel, c: IpCidr, seq: u32, pid: u32)
    requires
        utf8::encode_utf8(d.name).len() <= 65530,
    ensures
        ({
            let m = route::dump::addr_msg(d, c, seq, pid);
            let len = route::dump::addr_payload(d, c).len() as int;
            let p = m.subrange(16, 16 + len);
            let attrs = attr::attrs_from(p, 8);
            &&& 16 + len <= m.len() < 16 + len + 4
            &&& long_at(m, 0) == m.len()
            &&& short_at(m, 4) == 20
            &&& short_at(m, 6) == 2
            &&& long_at(m, 8) == seq
            &&& long_at(m, 12) == pid
            &&& m[16] == if c.address is Ipv4 {
                2int
            } else {
                10
            }
            &&& m[17] == c.prefix_len
            &&& long_at(m, 20) == d.nic_id
            &&& attrs.len() == 3
            &&& attrs[0].ty == 1 && attrs[1].ty == 2 && attrs[2].ty == 3
            &&& bytes::be_value(attrs[0].data) == match c.address {
                IpAddress::Ipv4(x) => x.bits as int,
                IpAddress::Ipv6(x) => x.bits as int,
            }
            &&& attrs[0].data.len() == if c.address is Ipv4 {
                4int
            } else {
                16
            }
            &&& attrs[1].data == attrs[0].data
            &&& attrs[2].data == utf8::encode_utf8(d.name).push(0)
            &&& route::addr::requested_cidr(p) == Ok::<IpCidr, crate::error::SyscallErr>(c)
        }),
{
    reveal(route::dump::addr_msg);
    let p = route::dump::addr_payload(d, c);
    let octets = c.address.octets();
    lemma_addr_payload(d, c);
    let attrs = attr::attrs_from(p, 8);
    match c.address {
        IpAddress::Ipv4(x) => {
            wire::lemma_v4_octets(x);
            lemma_four(octets);
            crate::seqs::lemma_find_first(attrs, route::addr::holds_address(4), 0);
        },
        IpAddress::Ipv6(x) => {
            wire::lemma_v6_octets(x);
            bytes::lemma_be_value_bound(x.octets());
            wire::lemma_pow256_16(16);
            assert(octets.subrange(0, 16) =~= octets);
            crate::seqs::lemma_find_first(attrs, route::addr::holds_address(16), 0);
        },
    }
    lemma_message(20, 2, seq, pid, p);
    let m = route::dump::addr_msg(d, c, seq, pid);
    let s = m.subrange(16, 16 + p.len() as int);
    assert(s[0] == m[16] && s[1] == m[17]);
    lemma_nested_part(m, 16, p, 4, 8);
    lemma_numbers(m, 20, p.subrange(4, 8));
    lemma_numbers(p, 4, p.subrange(4, 8));
}

proof fn lemma_four(s: Seq<u8>)
    requires
        s.len() == 4,
    ensures
        bytes::be_value(s) == bytes::u32_be_at(s, 0),
{
    reveal_with_fuel(bytes::be_value, 5);
    let a = s.drop_last();
    let b = a.drop_last();
    let c = b.drop_last();
    assert(c.drop_last() =~= Seq::<u8>::empty());
}

/// The description of an IPv4 neighbour, without the header of its message.
#[verifier::rlimit(30)]
proof fn lemma_neigh_payload(ifindex: u32, a: Ipv4Address, mac: Seq<u8>, state: u16)
    requires
        mac.len() == 6,
    ensures
        ({
            let p = route::dump::neigh_payload(ifindex, IpAddress::Ipv4(a), mac, state);
            &&& p.len() == 32
            &&& p[0] == 2
            &&& long_at(p, 4) == ifindex
            &&& short_at(p, 8) == state
            &&& p.subrange(12, 20) == wire_format::rta(1, a.octets())
            &&& p.subrange(20, 32) == wire_format::rta(2, mac)
        }),
{
    reveal(route::dump::neigh_payload);
    let p = route::dump::neigh_payload(ifindex, IpAddress::Ipv4(a), mac, state);
    let h = seq![2u8, 0u8, 0u8, 0u8] + bytes::le32(ifindex) + bytes::le16(state) + seq![0u8, 0u8];
    bytes::lemma_le_roundtrip(state, ifindex);
    wire::lemma_v4_octets(a);
    lemma_rta(1, a.octets());
    lemma_rta(2, mac);
    let x = wire_format::rta(1, a.octets());
    let y = wire_format::rta(2, mac);
    assert(h.len() == 12);
    assert(p == h + x + y);
    assert(h + x + y + Seq::<u8>::empty() =~= h + x + y);
    lemma_parts(p, h, x, y, Seq::<u8>::empty());
    assert(h.subrange(4, 8) =~= bytes::le32(ifindex));
    assert(h.subrange(8, 10) =~= bytes::le16(state));
    lemma_nested_part(p, 0, h, 4, 8);
    lemma_nested_part(p, 0, h, 8, 10);
    lemma_numbers(p, 4, bytes::le32(ifindex));
    lemma_numbers(p, 8, bytes::le16(state));
    assert(p[0] == h[0]);
}

/// What is said of an IPv4 neighbour: its interface, its state, and its two
/// addresses.
#[verifier::rlimit(30)]
pub proof fn law_neighbour_message(
    ifindex: u32,
    a: Ipv4Address,
    mac: Seq<u8>,
    state: u16,
    flags: u16,
    seq: u32,
    pid: u32,
)
    requires
        mac.len() == 6,
    ensures
        ({
            let m = route::dump::neigh_msg(
                ifindex,
                IpAddress::Ipv4(a),
                mac,
                state,
                flags,
                seq,
                pid,
            );
            &&& m.len() == 48
            &&& long_at(m, 0) == 48
            &&& short_at(m, 4) == 28
            &&& short_at(m, 6) == flags
            &&& long_at(m, 8) == seq
            &&& long_at(m, 12) == pid
            &&& m[16] == 2
            &&& long_at(m, 20) == ifindex
            &&& short_at(m, 24) == state
            &&& short_at(m, 28) == 8 && short_at(m, 30) == 1
            &&& routes::spelled(m.subrange(32, 36)) == a.bits
            &&& short_at(m, 36) == 10 && short_at(m, 38) == 2
            &&& m.subrange(40, 46) == mac
        }),
{
    reveal(route::dump::neigh_msg);
    let ip = IpAddress::Ipv4(a);
    let p = route::dump::neigh_payload(ifindex, ip, mac, state);
    lemma_neigh_payload(ifindex, a, mac, state);
    lemma_message(28, flags, seq, pid, p);
    let m = route::dump::neigh_msg(ifindex, ip, mac, state, flags, seq, pid);
    let s = m.subrange(16, 16 + p.len() as int);
    assert(s[0] == m[16]);
    wire::lemma_v4_octets(a);
    lemma_nested_part(m, 16, p, 4, 8);
    lemma_numbers(m, 20, p.subrange(4, 8));
    lemma_numbers(p, 4, p.subrange(4, 8));
    lemma_nested_part(m, 16, p, 8, 10);
    lemma_numbers(m, 24, p.subrange(8, 10));
    lemma_numbers(p, 8, p.subrange(8, 10));
    lemma_nested_part(m, 16, p, 12, 20);
    lemma_attr_numbers(m, 28, 1, a.octets());
    lemma_nested_part(m, 16, p, 20, 32);
    reveal(is_attr);
    let y = wire_format::rta(2, mac);
    lemma_rta(2, mac);
    lemma_numbers(m, 36, y);
    lemma_nested_part(m, 36, y, 4, 10);
}

/// Messages that all fit stand behind those that waited, in order.
pub proof fn lemma_delivered(q: Seq<Seq<u8>>, msgs: Seq<Seq<u8>>)
    ensures
        netlink::deliver(q, msgs).1 ==> netlink::deliver(q, msgs).0 == q + msgs,
    decreases msgs.len(),
{
    if msgs.len() == 0 {
        assert(q + msgs =~= q);
    } else if netlink::accepts(q, msgs[0]) {
        lemma_delivered(q.push(msgs[0]), msgs.drop_first());
        assert(q.push(msgs[0]) + msgs.drop_first() =~= q + msgs);
    }
}

/// A list that is asked for is queued whole: one message for each interface or
/// route, in order, and one that ends the list. Nothing changes.
#[verifier::rlimit(40)]
pub proof fn law_list(
    q: Seq<Seq<u8>>,
    n: NetModel,
    rows: Seq<NeighbourRow>,
    pid: u32,
    buf: Seq<u8>,
    flags: u16,
)
    requires
        buf.len() >= 16,
        buf[4] == 18 || buf[4] == 26,
        buf[5] == 0,
        flags == buf[6] + 256 * buf[7],
        flags & 0x300 != 0,
        route::dispatched(q, n, rows, pid, buf).2 is Ok,
    ensures
        ({
            let (queue, after, _) = route::dispatched(q, n, rows, pid, buf);
            let seq = long_at(buf, 8) as u32;
            let count = if buf[4] == 18 {
                n.devs.len()
            } else {
                n.entries.len()
            };
            &&& after == n
            &&& queue.len() == q.len() + count + 1
            &&& queue.take(q.len() as int) == q
            &&& buf[4] == 18 ==> forall|i: int|
                0 <= i < n.devs.len() ==> #[trigger] queue[q.len() + i] == route::dump::link_msg(
                    n.devs[i],
                    2,
                    seq,
                    pid,
                )
            &&& buf[4] == 26 ==> forall|i: int|
                0 <= i < n.entries.len() ==> #[trigger] queue[q.len() + i]
                    == route::dump::route_msg(n.entries[i], seq, pid)
            &&& short_at(queue.last(), 4) == 3
            &&& long_at(queue.last(), 8) == seq
        }),
{
    let seq = bytes::u32_le_at(buf, 8);
    assert(bytes::u16_le_at(buf, 4) == buf[4]);
    assert(bytes::u16_le_at(buf, 6) == flags);
    assert(flags & (0x300u16 | 0x100u16) == flags & 0x300) by (bit_vector);
    let list = if buf[4] == 18 {
        route::dump::link_msgs(n.devs, seq, pid)
    } else {
        route::dump::route_msgs(n.entries, seq, pid)
    };
    let msgs = list.push(route::dump::done_msg(seq, pid));
    lemma_delivered(q, msgs);
    bytes::lemma_le_roundtrip(0, 0);
    lemma_message(3, 0, seq, pid, bytes::le32(0));
    assert((q + msgs).take(q.len() as int) =~= q);
}

/// The list of neighbours has one message for each IPv4 neighbour, in order, with
/// its interface, address, hardware address and state; others are left out.
pub proof fn law_neighbour_list(rows: Seq<NeighbourRow>, r: NeighbourRow, seq: u32, pid: u32)
    ensures
        route::dump::neigh_msgs(Seq::empty(), seq, pid).len() == 0,
        r.ip is Ipv4 ==> route::dump::neigh_msgs(rows.push(r), seq, pid)
            == route::dump::neigh_msgs(rows, seq, pid).push(
            route::dump::neigh_msg(
                r.ifindex,
                r.ip,
                r.entry.mac.octets@,
                r.entry.state,
                2,
                seq,
                pid,
            ),
        ),
        r.ip is Ipv6 ==> route::dump::neigh_msgs(rows.push(r), seq, pid)
            == route::dump::neigh_msgs(rows, seq, pid),
{
    assert(rows.push(r).drop_last() =~= rows);
}

} // verus!
