//! Requests on single interfaces and neighbours.
use vstd::prelude::*;
use crate::bytes;
use crate::error::SyscallErr;
use crate::iface::DeviceModel;
use crate::neighbour::{NDA_DST, NDA_LLADDR};
use crate::net_core;
use crate::seqs;
use crate::socket::netlink::attr;
use crate::socket::netlink::attr::AttrModel;
use crate::socket::netlink::netlink;
use crate::socket::netlink::route;
use crate::socket::netlink::route::dump;
use crate::socket::netlink::route::{NetModel, Reply, RouteState};
use crate::socket::netlink::NetlinkSocket;
use crate::wire::{EthernetAddress, IpAddress, Ipv4Address};

verus! {

/// The IPv4 address in front of the payload of the last attribute of a type.
pub open spec fn last_v4(attrs: Seq<AttrModel>, ty: u16) -> Option<Ipv4Address> {
    match attr::last_attr(attrs, ty, 4) {
        Some(a) => Some(Ipv4Address { bits: bytes::u32_be_at(a.data, 0) }),
        None => None,
    }
}

/// The IPv4 address in front of the payload of the last attribute of a type.
pub fn find_last_v4(attrs: &Vec<attr::RtAttr>, ty: u16) -> (r: Option<Ipv4Address>)
    ensures
        r == last_v4(attr::attr_models(attrs@), ty),
{
    proof {
        attr::lemma_last_attr_len(attr::attr_models(attrs@), ty, 4);
    }
    match attr::find_last_attr(attrs, ty, 4) {
        Some(a) => Some(Ipv4Address::from_bytes_at(&a.data, 0)),
        None => None,
    }
}

/// The protocol address that a neighbour request names.
pub open spec fn nda_dst(payload: Seq<u8>) -> Option<IpAddress> {
    match last_v4(attr::cut_attrs_from(payload, 12), NDA_DST) {
        Some(a) => Some(IpAddress::Ipv4(a)),
        None => None,
    }
}

/// The hardware address that a neighbour request names.
pub open spec fn nda_lladdr(payload: Seq<u8>) -> Option<Seq<u8>> {
    match attr::last_attr(attr::cut_attrs_from(payload, 12), NDA_LLADDR, 6) {
        Some(a) => Some(a.data.subrange(0, 6)),
        None => None,
    }
}

/// Reads the addresses of a neighbour request.
pub fn parse_nda_attrs(payload: &[u8]) -> (r: (Option<IpAddress>, Option<EthernetAddress>))
    ensures
        r.0 == nda_dst(payload@),
        match r.1 {
            Some(m) => nda_lladdr(payload@) == Some(m.octets@),
            None => nda_lladdr(payload@) is None,
        },
{
    let attrs = attr::parse_cut_attrs(payload, 12);
    let dst = match find_last_v4(&attrs, NDA_DST) {
        Some(a) => Some(IpAddress::Ipv4(a)),
        None => None,
    };
    proof {
        attr::lemma_last_attr_len(attr::attr_models(attrs@), NDA_LLADDR, 6);
    }
    let mac = match attr::find_last_attr(&attrs, NDA_LLADDR, 6) {
        Some(a) => Some(EthernetAddress::from_bytes_at(&a.data, 0)),
        None => None,
    };
    (dst, mac)
}

/// What a request to forget a neighbour does.
pub open spec fn delneigh(
    q: Seq<Seq<u8>>,
    n: NetModel,
    seq: u32,
    pid: u32,
    buf: Seq<u8>,
) -> Reply {
    if buf.len() < 28 {
        (q, n, Err(SyscallErr::EINVAL))
    } else {
        match nda_dst(buf.skip(16)) {
            None => (q, n, Err(SyscallErr::EINVAL)),
            Some(ip) => route::answer(
                q,
                NetModel {
                    neighbours: n.neighbours.remove((bytes::u32_le_at(buf, 20), ip)),
                    ..n
                },
                dump::done_msg(seq, pid),
            ),
        }
    }
}

/// What a request to record a neighbour does. It is not answered.
pub open spec fn newneigh(q: Seq<Seq<u8>>, n: NetModel, buf: Seq<u8>) -> Reply {
    if buf.len() < 28 {
        (q, n, Err(SyscallErr::EINVAL))
    } else {
        match (nda_dst(buf.skip(16)), nda_lladdr(buf.skip(16))) {
            (Some(ip), Some(mac)) => (
                q,
                NetModel {
                    neighbours: if ip.spec_is_unicast() {
                        n.neighbours.insert(
                            (bytes::u32_le_at(buf, 20), ip),
                            crate::neighbour::EntryModel {
                                mac,
                                state: crate::neighbour::NUD_REACHABLE,
                            },
                        )
                    } else {
                        n.neighbours
                    },
                    ..n
                },
                Ok(0),
            ),
            _ => (q, n, Err(SyscallErr::EINVAL)),
        }
    }
}

/// What a request for one neighbour is answered: the entry, if there is one,
/// and the end of the list.
pub open spec fn getneigh(
    q: Seq<Seq<u8>>,
    n: NetModel,
    seq: u32,
    pid: u32,
    buf: Seq<u8>,
) -> Reply {
    if buf.len() < 28 {
        (q, n, Err(SyscallErr::EINVAL))
    } else {
        match nda_dst(buf.skip(16)) {
            None => (q, n, Err(SyscallErr::EINVAL)),
            Some(ip) => {
                let key = (bytes::u32_le_at(buf, 20), ip);
                let done = dump::done_msg(seq, pid);
                if n.neighbours.contains_key(key) {
                    let e = n.neighbours[key];
                    route::answer_all(
                        q,
                        n,
                        seq![dump::neigh_msg(key.0, ip, e.mac, e.state, 0, seq, pid), done],
                    )
                } else {
                    route::answer(q, n, done)
                }
            },
        }
    }
}

/// Forgets a neighbour.
pub fn handle_delneigh(
    seq: u32,
    pid: u32,
    buf: &[u8],
    sock: &mut NetlinkSocket,
    net: &mut RouteState,
) -> (r: Result<isize, SyscallErr>)
    requires
        old(sock).wf(),
        old(net).wf(),
    ensures
        final(sock).wf(),
        final(net).wf(),
        final(sock).local_portid == old(sock).local_portid,
        (final(sock).queue(), final(net)@, r) == delneigh(
            old(sock).queue(),
            old(net)@,
            seq,
            pid,
            buf@,
        ),
{
    if buf.len() < 28 {
        return Err(SyscallErr::EINVAL);
    }
    let payload = vstd::slice::slice_subrange(buf, 16, buf.len());
    assert(payload@ =~= buf@.skip(16));
    let ifindex: u32 = bytes::get_u32_le(buf, 20);
    let (dst, _) = parse_nda_attrs(payload);
    match dst {
        None => Err(SyscallErr::EINVAL),
        Some(ip) => {
            let _ = net.neighbours.neighbour_delete(ifindex, ip);
            if sock.push_recv(dump::build_done_msg(seq, pid)) {
                Ok(0)
            } else {
                Err(SyscallErr::ENOBUFS)
            }
        },
    }
}

/// Records a neighbour.
pub fn handle_newneigh(
    seq: u32,
    pid: u32,
    buf: &[u8],
    sock: &mut NetlinkSocket,
    net: &mut RouteState,
) -> (r: Result<isize, SyscallErr>)
    requires
        old(sock).wf(),
        old(net).wf(),
    ensures
        *final(sock) == *old(sock),
        final(net).wf(),
        (old(sock).queue(), final(net)@, r) == newneigh(old(sock).queue(), old(net)@, buf@),
{
    if buf.len() < 28 {
        return Err(SyscallErr::EINVAL);
    }
    let payload = vstd::slice::slice_subrange(buf, 16, buf.len());
    assert(payload@ =~= buf@.skip(16));
    let ifindex: u32 = bytes::get_u32_le(buf, 20);
    let (dst, mac) = parse_nda_attrs(payload);
    match (dst, mac) {
        (Some(ip), Some(m)) => {
            net.neighbours.neighbour_record(ifindex, ip, m);
            Ok(0)
        },
        _ => Err(SyscallErr::EINVAL),
    }
}

/// Answers a request for one neighbour.
pub fn handle_getneigh_single(
    seq: u32,
    pid: u32,
    buf: &[u8],
    sock: &mut NetlinkSocket,
    net: &RouteState,
) -> (r: Result<isize, SyscallErr>)
    requires
        old(sock).wf(),
        net.wf(),
    ensures
        final(sock).wf(),
        final(sock).local_portid == old(sock).local_portid,
        (final(sock).queue(), net@, r) == getneigh(old(sock).queue(), net@, seq, pid, buf@),
{
    if buf.len() < 28 {
        return Err(SyscallErr::EINVAL);
    }
    let payload = vstd::slice::slice_subrange(buf, 16, buf.len());
    assert(payload@ =~= buf@.skip(16));
    let ifindex: u32 = bytes::get_u32_le(buf, 20);
    let (dst, _) = parse_nda_attrs(payload);
    let ip = match dst {
        None => return Err(SyscallErr::EINVAL),
        Some(ip) => ip,
    };
    let done = dump::build_done_msg(seq, pid);
    match net.neighbours.get(ifindex, ip) {
        Some(e) => {
            let m = dump::build_neigh_msg(ifindex, ip, &e.mac.octets, e.state, 0, seq, pid);
            let ghost want = seq![m@, done@];
            let mut msgs: Vec<Vec<u8>> = Vec::new();
            msgs.push(m);
            msgs.push(done);
            assert(seqs::contents(msgs@) =~= want);
            if sock.push_all(&msgs) {
                Ok(0)
            } else {
                Err(SyscallErr::ENOBUFS)
            }
        },
        None => if sock.push_recv(done) {
            Ok(0)
        } else {
            Err(SyscallErr::ENOBUFS)
        },
    }
}

/// The interface that a link request is about: by its index where that is
/// positive, else by the name that the last name attribute gives.
pub open spec fn link_target(devs: Seq<DeviceModel>, payload: Seq<u8>) -> Option<DeviceModel> {
    let index = bytes::i32_of(bytes::u32_le_at(payload, 4));
    if index > 0 {
        seqs::find_first(devs, net_core::indexed(index as u32))
    } else {
        match attr::last_text(attr::attrs_from(payload, 16), netlink::IFLA_IFNAME) {
            Some(name) => seqs::find_first(devs, net_core::named(name)),
            None => None,
        }
    }
}

/// Finds the interface that a link request is about.
pub fn find_link_target(net: &RouteState, payload: &[u8]) -> (r: Option<usize>)
    requires
        payload@.len() >= 16,
    ensures
        match r {
            Some(i) => i < net.ns.devices@.len() && link_target(net@.devs, payload@) == Some(
                net.ns.devices@[i as int]@,
            ),
            None => link_target(net@.devs, payload@) is None,
        },
{
    let index: i32 = bytes::to_i32(bytes::get_u32_le(payload, 4));
    if index > 0 {
        net.ns.position_by_index(index as u32)
    } else {
        let attrs = attr::parse_attrs(payload, 16);
        match attr::find_last_text(&attrs, netlink::IFLA_IFNAME) {
            Some(name) => net.ns.position_by_name(name.as_str()),
            None => None,
        }
    }
}

/// What a request for one interface is answered.
pub open spec fn getlink(
    q: Seq<Seq<u8>>,
    n: NetModel,
    seq: u32,
    pid: u32,
    buf: Seq<u8>,
) -> Reply {
    if buf.len() < 16 {
        (q, n, Err(SyscallErr::EINVAL))
    } else if buf.len() < 32 {
        route::answer_errno(q, n, 22, seq, pid, buf)
    } else {
        match link_target(n.devs, buf.skip(16)) {
            None => route::answer_errno(q, n, 19, seq, pid, buf),
            Some(d) => route::answer(q, n, dump::link_msg(d, 0, seq, pid)),
        }
    }
}

/// Answers a request for one interface.
pub fn handle_getlink_single(
    seq: u32,
    pid: u32,
    buf: &[u8],
    sock: &mut NetlinkSocket,
    net: &RouteState,
) -> (r: Result<isize, SyscallErr>)
    requires
        old(sock).wf(),
        dump::names_fit(net@.devs),
    ensures
        final(sock).wf(),
        final(sock).local_portid == old(sock).local_portid,
        (final(sock).queue(), net@, r) == getlink(old(sock).queue(), net@, seq, pid, buf@),
{
    if buf.len() < 16 {
        return Err(SyscallErr::EINVAL);
    }
    if buf.len() < 32 {
        return route::send_error(sock, net, buf, seq, pid, 22);
    }
    let payload = vstd::slice::slice_subrange(buf, 16, buf.len());
    assert(payload@ =~= buf@.skip(16));
    match find_link_target(net, payload) {
        None => route::send_error(sock, net, buf, seq, pid, 19),
        Some(i) => {
            assert(net@.devs[i as int] == net.ns.devices@[i as int]@);
            if sock.push_recv(dump::build_link_msg(&net.ns.devices[i], 0, seq, pid)) {
                Ok(0)
            } else {
                Err(SyscallErr::ENOBUFS)
            }
        },
    }
}

} // verus!
