//! Requests on routes: what the table holds afterwards.
use vstd::prelude::*;
use crate::bytes;
use crate::error::SyscallErr;
use crate::laws::answers;
use crate::neighbour::NeighbourRow;
use crate::routing;
use crate::routing::RouteType;
use crate::seqs;
use crate::socket::netlink::attr;
use crate::socket::netlink::attr::AttrModel;
use crate::socket::netlink::netlink as wire_format;
use crate::socket::netlink::route;
use crate::socket::netlink::route::NetModel;
use crate::wire::{IpAddress, IpCidr, Ipv4Address};

verus! {

/// An attribute with four bytes of payload, as it stands in a request.
pub open spec fn four_byte_attr(ty: u8, data: Seq<u8>) -> Seq<u8> {
    seq![8u8, 0u8, ty, 0u8] + data
}

/// The bytes of a request: the header of the message and of the route, the
/// destination, the gateway where there is one, and the interface.
pub open spec fn route_request(
    head: Seq<u8>,
    dst: Seq<u8>,
    gateway: Option<Seq<u8>>,
    oif: Seq<u8>,
) -> Seq<u8> {
    head + four_byte_attr(1, dst) + (match gateway {
        Some(g) => four_byte_attr(5, g),
        None => Seq::<u8>::empty(),
    }) + four_byte_attr(4, oif)
}

/// An attribute that stands in a message is read, and the next is looked for
/// behind it.
pub proof fn lemma_attr_at(p: Seq<u8>, off: int, ty: u16, data: Seq<u8>)
    requires
        0 <= off,
        data.len() <= 65531,
        off + 4 + data.len() <= p.len(),
        p[off] + 256 * p[off + 1] == data.len() + 4,
        p[off + 2] + 256 * p[off + 3] == ty,
        p.subrange(off + 4, off + 4 + data.len()) == data,
    ensures
        attr::attrs_from(p, off) == seq![AttrModel { ty, data }] + attr::attrs_from(
            p,
            off + (data.len() + 7) / 4 * 4,
        ),
{
    let len = bytes::u16_le_at(p, off) as int;
    assert(len == data.len() + 4);
    assert(wire_format::aligned(len) == (data.len() + 7) / 4 * 4);
}

proof fn lemma_end(p: Seq<u8>, off: int)
    requires
        off >= p.len(),
    ensures
        attr::attrs_from(p, off) == Seq::<AttrModel>::empty(),
{
}

/// The attributes of a route request, in order.
proof fn lemma_route_attrs(
    head: Seq<u8>,
    dst: Seq<u8>,
    gateway: Option<Seq<u8>>,
    oif: Seq<u8>,
)
    requires
        head.len() == 28,
        dst.len() == 4,
        oif.len() == 4,
        gateway matches Some(g) ==> g.len() == 4,
    ensures
        ({
            let payload = route_request(head, dst, gateway, oif).skip(16);
            &&& payload.len() >= 12
            &&& attr::last_u32(attr::attrs_from(payload, 12), 4) == Some(bytes::u32_le_at(oif, 0))
            &&& route::neigh::last_v4(attr::attrs_from(payload, 12), 1) == Some(
                Ipv4Address { bits: bytes::u32_be_at(dst, 0) },
            )
            &&& route::neigh::last_v4(attr::attrs_from(payload, 12), 5) == match gateway {
                Some(g) => Some(Ipv4Address { bits: bytes::u32_be_at(g, 0) }),
                None => None,
            }
        }),
{
    let p = route_request(head, dst, gateway, oif).skip(16);
    let a = AttrModel { ty: 1, data: dst };
    let c = AttrModel { ty: 4, data: oif };
    assert(p.subrange(16, 20) =~= dst);
    lemma_attr_at(p, 12, 1, dst);
    match gateway {
        Some(g) => {
            let b = AttrModel { ty: 5, data: g };
            assert(p.subrange(24, 28) =~= g);
            lemma_attr_at(p, 20, 5, g);
            assert(p.subrange(32, 36) =~= oif);
            lemma_attr_at(p, 28, 4, oif);
            lemma_end(p, 36);
            let s = attr::attrs_from(p, 12);
            assert(s =~= seq![a, b, c]);
            seqs::lemma_find_last(s, attr::of_type(4, 4), 2);
            seqs::lemma_find_last(s, attr::of_type(1, 4), 0);
            seqs::lemma_find_last(s, attr::of_type(5, 4), 1);
        },
        None => {
            assert(p.subrange(24, 28) =~= oif);
            lemma_attr_at(p, 20, 4, oif);
            lemma_end(p, 28);
            let s = attr::attrs_from(p, 12);
            assert(s =~= seq![a, c]);
            seqs::lemma_find_last(s, attr::of_type(4, 4), 1);
            seqs::lemma_find_last(s, attr::of_type(1, 4), 0);
            seqs::lemma_find_last_none(s, attr::of_type(5, 4));
        },
    }
}

/// A request that is answered with an error number gets that answer, or none
/// where the queue is full.
pub proof fn lemma_answer(q: Seq<Seq<u8>>, n: NetModel, errno: i32, pid: u32, buf: Seq<u8>)
    requires
        0 <= errno,
        buf.len() >= 16,
    ensures
        ({
            let seq = bytes::u32_le_at(buf, 8);
            let (queue, after, _) = route::reported(
                route::link::replied(route::answer_errno(q, n, errno, seq, pid, buf)),
                seq,
                pid,
                buf,
            );
            &&& after == n
            &&& queue == q || answers::answered(q, queue, buf, errno as int)
        }),
{
    answers::law_errno_answer(q, n, errno, pid, buf);
    let seq = bytes::u32_le_at(buf, 8);
    answers::lemma_error_length(errno, seq, pid, buf.take(16));
    answers::lemma_error_length(
        SyscallErr::ENOBUFS.spec_errno() as i32,
        seq,
        pid,
        buf.take(16),
    );
}

/// The number that four octets spell in network order.
pub open spec fn spelled(s: Seq<u8>) -> int {
    16777216 * s[0] + 65536 * s[1] + 256 * s[2] + s[3]
}

/// The number that four bytes spell in host order.
pub open spec fn stored(s: Seq<u8>) -> int {
    s[0] + 256 * s[1] + 65536 * s[2] + 16777216 * s[3]
}

/// A route that is added is the one asked for: to that destination, with as many
/// bits as the request says, by that gateway or straight where it names none,
/// through that interface. It stands last, behind the routes that were there;
/// with a request to replace, those to the same destination are gone. Nothing
/// else changes.
#[verifier::rlimit(30)]
pub proof fn law_added_route(
    q: Seq<Seq<u8>>,
    n: NetModel,
    rows: Seq<NeighbourRow>,
    pid: u32,
    head: Seq<u8>,
    dst: Seq<u8>,
    gateway: Option<Seq<u8>>,
    oif: Seq<u8>,
    flags: u16,
)
    requires
        head.len() == 28,
        dst.len() == 4,
        oif.len() == 4,
        gateway matches Some(g) ==> g.len() == 4,
        head[4] == 24,
        head[5] == 0,
        flags == head[6] + 256 * head[7],
        flags & 1 != 0,
        head[17] > 0,
        flags & 0x200 == 0 || forall|k: int|
            0 <= k < n.entries.len() ==> !((#[trigger] n.entries[k]).destination.prefix_len == head[17]
                && n.entries[k].destination.address is Ipv4
                && n.entries[k].destination.address->Ipv4_0.bits == spelled(dst)),
    ensures
        ({
            let buf = route_request(head, dst, gateway, oif);
            let (queue, after, _) = route::handled(q, n, rows, pid, buf);
            let e = after.entries.last();
            &&& queue == q || answers::answered(q, queue, buf, 0)
            &&& after.entries.len() > 0
            &&& e.destination.address is Ipv4
            &&& e.destination.address->Ipv4_0.bits == spelled(dst)
            &&& e.destination.prefix_len == head[17]
            &&& gateway matches Some(g) ==> (e.next_hop is Some && e.next_hop->0 is Ipv4
                && e.next_hop->0->Ipv4_0.bits == spelled(g))
            &&& gateway is None ==> e.next_hop is None
            &&& e.ifindex == stored(oif)
            &&& e.metric == 0
            &&& e.route_type == if head[23] == 3 {
                RouteType::Default
            } else {
                RouteType::Static
            }
            &&& flags & 0x100 == 0 ==> after.entries.drop_last() == n.entries
            &&& flags & 0x100 != 0 ==> forall|k: int|
                0 <= k < n.entries.len() ==> (after.entries.drop_last().contains(
                    #[trigger] n.entries[k],
                ) <==> n.entries[k].destination != e.destination)
            &&& after.devs == n.devs
            &&& after.neighbours == n.neighbours
            &&& after.stack_ops == n.stack_ops
            &&& after.globals == n.globals
        }),
{
    let buf = route_request(head, dst, gateway, oif);
    let payload = buf.skip(16);
    lemma_route_attrs(head, dst, gateway, oif);
    assert(buf[4] == head[4] && buf[5] == head[5] && buf[6] == head[6] && buf[7] == head[7]);
    assert(bytes::u16_le_at(buf, 4) == 24);
    assert(bytes::u16_le_at(buf, 6) == flags);
    assert(payload[1] == head[17] && payload[7] == head[23]);
    let c = IpCidr {
        address: IpAddress::Ipv4(Ipv4Address { bits: bytes::u32_be_at(dst, 0) }),
        prefix_len: head[17],
    };
    assert(bytes::u32_be_at(dst, 0) == spelled(dst));
    if route::route::leads_to(n.entries, c) {
        let k = choose|k: int| 0 <= k < n.entries.len() && (#[trigger] n.entries[k]).destination == c;
        assert(n.entries[k].destination == c);
    }
    let p = routing::not_towards(c);
    seqs::lemma_filter_elements(n.entries, p);
    let kept = n.entries.filter(p);
    let e = route::route::requested_route(payload, c, bytes::u32_le_at(oif, 0));
    lemma_answer(q, NetModel { entries: kept.push(e), ..n }, 0, pid, buf);
    lemma_answer(q, NetModel { entries: n.entries.push(e), ..n }, 0, pid, buf);
    assert(kept.push(e).drop_last() =~= kept);
    assert(n.entries.push(e).drop_last() =~= n.entries);
    assert forall|k: int| 0 <= k < n.entries.len() implies (kept.contains(#[trigger] n.entries[k])
        <==> n.entries[k].destination != c) by {
        assert(n.entries.contains(n.entries[k]));
        if p(n.entries[k]) {
            seqs::lemma_filter_keeps(n.entries, p, n.entries[k]);
        } else if kept.contains(n.entries[k]) {
            let j = choose|j: int| 0 <= j < kept.len() && kept[j] == n.entries[k];
            assert(p(kept[j]));
        }
    }
}

/// A request for a route that insists on being the first leaves everything as it
/// is where there is a route to the same destination.
#[verifier::rlimit(30)]
pub proof fn law_exclusive_route(
    q: Seq<Seq<u8>>,
    n: NetModel,
    rows: Seq<NeighbourRow>,
    pid: u32,
    head: Seq<u8>,
    dst: Seq<u8>,
    gateway: Option<Seq<u8>>,
    oif: Seq<u8>,
    flags: u16,
    k: int,
)
    requires
        head.len() == 28,
        dst.len() == 4,
        oif.len() == 4,
        gateway matches Some(g) ==> g.len() == 4,
        head[4] == 24,
        head[5] == 0,
        flags == head[6] + 256 * head[7],
        flags & 1 != 0,
        flags & 0x200 != 0,
        head[17] > 0,
        0 <= k < n.entries.len(),
        n.entries[k].destination.prefix_len == head[17],
        n.entries[k].destination.address matches IpAddress::Ipv4(a) && a.bits == spelled(dst),
    ensures
        ({
            let buf = route_request(head, dst, gateway, oif);
            let (queue, after, _) = route::handled(q, n, rows, pid, buf);
            &&& after == n
            &&& queue == q || answers::answered(q, queue, buf, 17)
        }),
{
    let buf = route_request(head, dst, gateway, oif);
    lemma_answer(q, n, 17, pid, buf);
    lemma_route_attrs(head, dst, gateway, oif);
    assert(buf[4] == head[4] && buf[5] == head[5] && buf[6] == head[6] && buf[7] == head[7]);
    assert(bytes::u16_le_at(buf, 4) == 24);
    assert(bytes::u16_le_at(buf, 6) == flags);
    assert(buf.skip(16)[1] == head[17]);
    let c = IpCidr {
        address: IpAddress::Ipv4(Ipv4Address { bits: bytes::u32_be_at(dst, 0) }),
        prefix_len: head[17],
    };
    assert(bytes::u32_be_at(dst, 0) == spelled(dst));
    assert(n.entries[k].destination == c);
    assert(route::route::leads_to(n.entries, c));
}

/// A request to remove a route takes out those to that destination, and no
/// other; nothing else changes.
#[verifier::rlimit(30)]
pub proof fn law_removed_route(
    q: Seq<Seq<u8>>,
    n: NetModel,
    rows: Seq<NeighbourRow>,
    pid: u32,
    head: Seq<u8>,
    dst: Seq<u8>,
    gateway: Option<Seq<u8>>,
    oif: Seq<u8>,
    flags: u16,
    k: int,
)
    requires
        head.len() == 28,
        dst.len() == 4,
        oif.len() == 4,
        gateway matches Some(g) ==> g.len() == 4,
        head[4] == 25,
        head[5] == 0,
        flags == head[6] + 256 * head[7],
        flags & 1 != 0,
        head[17] > 0,
        0 <= k < n.entries.len(),
    ensures
        ({
            let buf = route_request(head, dst, gateway, oif);
            let (queue, after, _) = route::handled(q, n, rows, pid, buf);
            let meant = n.entries[k].destination.prefix_len == head[17]
                && n.entries[k].destination.address is Ipv4
                && n.entries[k].destination.address->Ipv4_0.bits == spelled(dst);
            &&& queue == q || answers::answered(q, queue, buf, 0)
            &&& after.entries.contains(n.entries[k]) <==> !meant
            &&& after.entries.len() <= n.entries.len()
            &&& after.devs == n.devs
            &&& after.neighbours == n.neighbours
            &&& after.stack_ops == n.stack_ops
            &&& after.globals == n.globals
        }),
{
    let buf = route_request(head, dst, gateway, oif);
    lemma_route_attrs(head, dst, gateway, oif);
    assert(buf[4] == head[4] && buf[5] == head[5] && buf[6] == head[6] && buf[7] == head[7]);
    assert(bytes::u16_le_at(buf, 4) == 25);
    assert(bytes::u16_le_at(buf, 6) == flags);
    assert(buf.skip(16)[1] == head[17]);
    let c = IpCidr {
        address: IpAddress::Ipv4(Ipv4Address { bits: bytes::u32_be_at(dst, 0) }),
        prefix_len: head[17],
    };
    assert(bytes::u32_be_at(dst, 0) == spelled(dst));
    let p = routing::not_towards(c);
    seqs::lemma_filter_elements(n.entries, p);
    let kept = n.entries.filter(p);
    lemma_answer(q, NetModel { entries: kept, ..n }, 0, pid, buf);
    assert(n.entries.contains(n.entries[k]));
    if p(n.entries[k]) {
        seqs::lemma_filter_keeps(n.entries, p, n.entries[k]);
    } else if kept.contains(n.entries[k]) {
        let j = choose|j: int| 0 <= j < kept.len() && kept[j] == n.entries[k];
        assert(p(kept[j]));
    }
}

/// A route to nothing more specific than everything is to the address of all
/// zeros, whatever destination stands in the request.
#[verifier::rlimit(30)]
pub proof fn law_added_default_route(
    q: Seq<Seq<u8>>,
    n: NetModel,
    rows: Seq<NeighbourRow>,
    pid: u32,
    head: Seq<u8>,
    dst: Seq<u8>,
    gateway: Option<Seq<u8>>,
    oif: Seq<u8>,
    flags: u16,
)
    requires
        head.len() == 28,
        dst.len() == 4,
        oif.len() == 4,
        gateway matches Some(g) ==> g.len() == 4,
        head[4] == 24,
        head[5] == 0,
        flags == head[6] + 256 * head[7],
        flags & 1 != 0,
        flags & 0x200 == 0,
        head[17] == 0,
    ensures
        ({
            let after = route::handled(
                q,
                n,
                rows,
                pid,
                route_request(head, dst, gateway, oif),
            ).1;
            let e = after.entries.last();
            &&& after.entries.len() > 0
            &&& e.destination.address == IpAddress::Ipv4(Ipv4Address { bits: 0 })
            &&& e.destination.prefix_len == 0
            &&& gateway matches Some(g) ==> (e.next_hop is Some && e.next_hop->0 is Ipv4
                && e.next_hop->0->Ipv4_0.bits == spelled(g))
            &&& gateway is None ==> e.next_hop is None
            &&& e.ifindex == stored(oif)
        }),
{
    let buf = route_request(head, dst, gateway, oif);
    lemma_route_attrs(head, dst, gateway, oif);
    assert(buf[4] == head[4] && buf[5] == head[5] && buf[6] == head[6] && buf[7] == head[7]);
    assert(bytes::u16_le_at(buf, 4) == 24);
    assert(bytes::u16_le_at(buf, 6) == flags);
    assert(buf.skip(16)[1] == head[17]);
}

/// A request for a route that names no interface, or no destination with a
/// prefix, changes nothing.
#[verifier::rlimit(30)]
pub proof fn law_incomplete_route(
    q: Seq<Seq<u8>>,
    n: NetModel,
    rows: Seq<NeighbourRow>,
    pid: u32,
    head: Seq<u8>,
    flags: u16,
    attrs: Seq<u8>,
)
    requires
        head.len() == 28,
        attrs.len() == 0 || (attrs.len() == 8 && attrs[0] == 8 && attrs[1] == 0 && attrs[2] == 1
            && attrs[3] == 0) || (attrs.len() == 8 && attrs[0] == 8 && attrs[1] == 0 && attrs[2]
            == 4 && attrs[3] == 0 && head[17] > 0),
        head[4] == 24,
        head[5] == 0,
        flags == head[6] + 256 * head[7],
        flags & 1 != 0,
    ensures
        ({
            let (queue, after, _) = route::handled(q, n, rows, pid, head + attrs);
            &&& after == n
            &&& queue == q || answers::answered(q, queue, head + attrs, 22)
        }),
{
    let buf = head + attrs;
    lemma_answer(q, n, 22, pid, buf);
    let p = buf.skip(16);
    assert(bytes::u16_le_at(buf, 4) == 24);
    assert(bytes::u16_le_at(buf, 6) == flags);
    if attrs.len() == 0 {
        lemma_end(p, 12);
        seqs::lemma_find_last_none(attr::attrs_from(p, 12), attr::of_type(4, 4));
    } else {
        let data = attrs.skip(4);
        assert(p.subrange(16, 20) =~= data);
        lemma_attr_at(p, 12, attrs[2] as u16, data);
        lemma_end(p, 20);
        let s = attr::attrs_from(p, 12);
        assert(s =~= seq![AttrModel { ty: attrs[2] as u16, data }]);
        if attrs[2] == 1 {
            seqs::lemma_find_last_none(s, attr::of_type(4, 4));
        } else {
            seqs::lemma_find_last_none(s, attr::of_type(1, 4));
        }
    }
}

} // verus!
