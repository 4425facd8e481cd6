//! Requests that add routes and take them away.
use vstd::prelude::*;
use crate::error::SyscallErr;
use crate::routing;
use crate::routing::{RouteEntry, RouteType};
use crate::socket::netlink::attr;
use crate::socket::netlink::netlink;
use crate::socket::netlink::route;
use crate::socket::netlink::route::neigh;
use crate::socket::netlink::route::{NetModel, Reply, RouteState};
use crate::socket::netlink::NetlinkSocket;
use crate::wire::{IpAddress, IpCidr, Ipv4Address};

verus! {

/// The interface that a route request names.
pub open spec fn requested_oif(payload: Seq<u8>) -> Option<u32> {
    attr::last_u32(attr::attrs_from(payload, 12), netlink::RTA_OIF)
}

/// The destination that a route request names: everything where its prefix is
/// empty.
pub open spec fn requested_dst(payload: Seq<u8>) -> Option<IpCidr> {
    if payload[1] > 0 {
        match neigh::last_v4(attr::attrs_from(payload, 12), netlink::RTA_DST) {
            Some(a) => Some(IpCidr { address: IpAddress::Ipv4(a), prefix_len: payload[1] }),
            None => None,
        }
    } else {
        Some(IpCidr { address: IpAddress::Ipv4(Ipv4Address { bits: 0 }), prefix_len: 0 })
    }
}

/// The prefix that a route request names is not longer than its address.
pub open spec fn dst_fits(buf: Seq<u8>) -> bool {
    buf.len() >= 28 ==> (requested_dst(buf.skip(16)) matches Some(c) ==> c.wf())
}

/// The same of a request for a new route, which is refused before its
/// destination is looked at where it names no interface.
pub open spec fn new_dst_fits(buf: Seq<u8>) -> bool {
    requested_oif(buf.skip(16)) is Some ==> dst_fits(buf)
}

/// The route that a request asks for.
pub open spec fn requested_route(payload: Seq<u8>, dst: IpCidr, oif: u32) -> RouteEntry {
    RouteEntry {
        destination: dst,
        next_hop: match neigh::last_v4(attr::attrs_from(payload, 12), netlink::RTA_GATEWAY) {
            Some(a) => Some(IpAddress::Ipv4(a)),
            None => None,
        },
        ifindex: oif,
        metric: 0,
        route_type: if payload[7] == 3 {
            RouteType::Default
        } else {
            RouteType::Static
        },
    }
}

pub open spec fn leads_to(entries: Seq<RouteEntry>, dst: IpCidr) -> bool {
    exists|i: int| 0 <= i < entries.len() && (#[trigger] entries[i]).destination == dst
}

/// What a request to add a route does.
pub open spec fn newroute(
    q: Seq<Seq<u8>>,
    n: NetModel,
    seq: u32,
    pid: u32,
    flags: u16,
    buf: Seq<u8>,
) -> Reply {
    let payload = buf.skip(16);
    if buf.len() < 28 {
        (q, n, Err(SyscallErr::EINVAL))
    } else {
        match (requested_oif(payload), requested_dst(payload)) {
            (Some(oif), Some(dst)) => if flags & netlink::NLM_F_EXCL != 0 && leads_to(
                n.entries,
                dst,
            ) {
                route::answer_errno(q, n, 17, seq, pid, buf)
            } else {
                let kept = if flags & netlink::NLM_F_REPLACE != 0 {
                    n.entries.filter(routing::not_towards(dst))
                } else {
                    n.entries
                };
                route::answer_errno(
                    q,
                    NetModel { entries: kept.push(requested_route(payload, dst, oif)), ..n },
                    0,
                    seq,
                    pid,
                    buf,
                )
            },
            _ => route::answer_errno(q, n, 22, seq, pid, buf),
        }
    }
}

/// What a request to remove a route does.
pub open spec fn delroute(
    q: Seq<Seq<u8>>,
    n: NetModel,
    seq: u32,
    pid: u32,
    buf: Seq<u8>,
) -> Reply {
    if buf.len() < 28 {
        (q, n, Err(SyscallErr::EINVAL))
    } else {
        match requested_dst(buf.skip(16)) {
            Some(dst) => route::answer_errno(
                q,
                NetModel { entries: n.entries.filter(routing::not_towards(dst)), ..n },
                0,
                seq,
                pid,
                buf,
            ),
            None => route::answer_errno(q, n, 22, seq, pid, buf),
        }
    }
}

/// The destination of a route request.
pub fn build_cidr(dst_len: u8, dst_addr: Option<Ipv4Address>) -> (r: Option<IpCidr>)
    requires
        dst_addr is Some ==> dst_len <= 32,
    ensures
        r == if dst_len > 0 {
            match dst_addr {
                Some(a) => Some(IpCidr { address: IpAddress::Ipv4(a), prefix_len: dst_len }),
                None => None,
            }
        } else {
            Some(IpCidr { address: IpAddress::Ipv4(Ipv4Address { bits: 0 }), prefix_len: 0 })
        },
{
    if dst_len > 0 {
        match dst_addr {
            Some(a) => Some(IpCidr::new(IpAddress::Ipv4(a), dst_len)),
            None => None,
        }
    } else {
        Some(IpCidr::new(IpAddress::v4(0, 0, 0, 0), 0))
    }
}

/// Adds a route.
pub fn handle_newroute(
    seq: u32,
    pid: u32,
    buf: &[u8],
    flags: u16,
    sock: &mut NetlinkSocket,
    net: &mut RouteState,
) -> (r: Result<isize, SyscallErr>)
    requires
        old(sock).wf(),
        old(net).wf(),
        new_dst_fits(buf@),
    ensures
        final(sock).wf(),
        final(net).wf(),
        final(sock).local_portid == old(sock).local_portid,
        (final(sock).queue(), final(net)@, r) == newroute(
            old(sock).queue(),
            old(net)@,
            seq,
            pid,
            flags,
            buf@,
        ),
{
    if buf.len() < 28 {
        return Err(SyscallErr::EINVAL);
    }
    let payload = vstd::slice::slice_subrange(buf, 16, buf.len());
    assert(payload@ =~= buf@.skip(16));
    let attrs = attr::parse_attrs(payload, 12);
    let ifindex: u32 = match attr::find_last_u32(&attrs, netlink::RTA_OIF) {
        Some(i) => i,
        None => return route::send_error(sock, net, buf, seq, pid, 22),
    };
    let dst_addr = if payload[1] > 0 {
        neigh::find_last_v4(&attrs, netlink::RTA_DST)
    } else {
        None
    };
    let dest = match build_cidr(payload[1], dst_addr) {
        Some(c) => c,
        None => return route::send_error(sock, net, buf, seq, pid, 22),
    };
    let route_type = if payload[7] == 3 {
        RouteType::Default
    } else {
        RouteType::Static
    };
    let next_hop = match neigh::find_last_v4(&attrs, netlink::RTA_GATEWAY) {
        Some(a) => Some(IpAddress::Ipv4(a)),
        None => None,
    };
    if flags & netlink::NLM_F_EXCL != 0 && net.ns.router.table.has_destination(&dest) {
        return route::send_error(sock, net, buf, seq, pid, 17);
    }
    if flags & netlink::NLM_F_REPLACE != 0 {
        net.ns.router.remove_route(&dest);
    }
    net.ns.router.add_route(dest, next_hop, ifindex, 0, route_type);
    route::send_ack(sock, net, buf, seq, pid)
}

/// Removes the routes to a destination.
pub fn handle_delroute(
    seq: u32,
    pid: u32,
    buf: &[u8],
    sock: &mut NetlinkSocket,
    net: &mut RouteState,
) -> (r: Result<isize, SyscallErr>)
    requires
        old(sock).wf(),
        old(net).wf(),
        dst_fits(buf@),
    ensures
        final(sock).wf(),
        final(net).wf(),
        final(sock).local_portid == old(sock).local_portid,
        (final(sock).queue(), final(net)@, r) == delroute(
            old(sock).queue(),
            old(net)@,
            seq,
            pid,
            buf@,
        ),
{
    if buf.len() < 28 {
        return Err(SyscallErr::EINVAL);
    }
    let payload = vstd::slice::slice_subrange(buf, 16, buf.len());
    assert(payload@ =~= buf@.skip(16));
    let attrs = attr::parse_attrs(payload, 12);
    let dst_addr = if payload[1] > 0 {
        neigh::find_last_v4(&attrs, netlink::RTA_DST)
    } else {
        None
    };
    let dest = match build_cidr(payload[1], dst_addr) {
        Some(c) => c,
        None => return route::send_error(sock, net, buf, seq, pid, 22),
    };
    net.ns.router.remove_route(&dest);
    route::send_ack(sock, net, buf, seq, pid)
}

} // verus!
