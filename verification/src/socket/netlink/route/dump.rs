//! The messages that describe interfaces, addresses, routes and neighbours.
use vstd::prelude::*;
use vstd::utf8;
use crate::bytes;
use crate::error::SyscallErr;
use crate::iface::{DeviceKind, DeviceModel, NetDeviceEntry};
use crate::neighbour::{NeighbourRow, NDA_DST, NDA_LLADDR};
use crate::net_core;
use crate::routing::{RouteEntry, RouteType};
use crate::seqs;
use crate::socket::netlink::netlink;
use crate::socket::netlink::NetlinkSocket;
use crate::socket::netlink::route;
use crate::socket::netlink::route::RouteState;
use crate::wire::{IpAddress, IpCidr};

verus! {

/// The name of an interface as an attribute holds it, with a final zero.
pub open spec fn name_bytes(d: DeviceModel) -> Seq<u8> {
    utf8::encode_utf8(d.name).push(0)
}

/// The names fit in attributes.
pub open spec fn names_fit(devs: Seq<DeviceModel>) -> bool {
    forall|i: int| 0 <= i < devs.len() ==> name_bytes(#[trigger] devs[i]).len() <= 65531
}

/// The description of an interface.
#[verifier::opaque]
pub open spec fn link_payload(d: DeviceModel) -> Seq<u8> {
    let kind = if d.nic_id == 1 {
        netlink::ARPHRD_LOOPBACK
    } else {
        netlink::ARPHRD_ETHER
    };
    seq![0u8, 0u8] + bytes::le16(kind) + bytes::le32(d.nic_id) + bytes::le32(d.flags) + bytes::le32(
        0,
    ) + netlink::rta(netlink::IFLA_IFNAME, name_bytes(d)) + netlink::rta(
        netlink::IFLA_MTU,
        bytes::le32((d.mtu as int % 0x1_0000_0000) as u32),
    ) + if d.kind == DeviceKind::Loopback {
        Seq::<u8>::empty()
    } else {
        netlink::rta(netlink::IFLA_ADDRESS, d.hwaddr)
    }
}

#[verifier::opaque]
pub open spec fn link_msg(d: DeviceModel, flags: u16, seq: u32, pid: u32) -> Seq<u8> {
    netlink::nlmsg(netlink::RTM_NEWLINK, flags, seq, pid, link_payload(d))
}

/// One message for each interface.
pub open spec fn link_msgs(devs: Seq<DeviceModel>, seq: u32, pid: u32) -> Seq<Seq<u8>> {
    Seq::new(devs.len(), |i: int| link_msg(devs[i], netlink::NLM_F_MULTI, seq, pid))
}

/// The message that ends a dump.
pub open spec fn done_msg(seq: u32, pid: u32) -> Seq<u8> {
    netlink::nlmsg(netlink::NLMSG_DONE, 0, seq, pid, bytes::le32(0))
}

/// The description of an address of an interface.
#[verifier::opaque]
pub open spec fn addr_payload(d: DeviceModel, c: IpCidr) -> Seq<u8> {
    let family = match c.address {
        IpAddress::Ipv4(_) => 2u8,
        IpAddress::Ipv6(_) => 10u8,
    };
    seq![family, c.prefix_len, 0u8, 0u8] + bytes::le32(d.nic_id) + netlink::rta(
        netlink::IFA_ADDRESS,
        c.address.octets(),
    ) + netlink::rta(netlink::IFA_LOCAL, c.address.octets()) + netlink::rta(
        netlink::IFA_LABEL,
        name_bytes(d),
    )
}

#[verifier::opaque]
pub open spec fn addr_msg(d: DeviceModel, c: IpCidr, seq: u32, pid: u32) -> Seq<u8> {
    netlink::nlmsg(netlink::RTM_NEWADDR, netlink::NLM_F_MULTI, seq, pid, addr_payload(d, c))
}

/// One message for each of the first `n` addresses of an interface.
pub open spec fn device_addr_msgs(d: DeviceModel, n: int, seq: u32, pid: u32) -> Seq<Seq<u8>> {
    Seq::new(n as nat, |i: int| addr_msg(d, d.ip_addrs[i], seq, pid))
}

/// One message for each address of each interface.
pub open spec fn addr_msgs(devs: Seq<DeviceModel>, seq: u32, pid: u32) -> Seq<Seq<u8>>
    decreases devs.len(),
{
    if devs.len() == 0 {
        Seq::empty()
    } else {
        addr_msgs(devs.drop_last(), seq, pid) + device_addr_msgs(
            devs.last(),
            devs.last().ip_addrs.len() as int,
            seq,
            pid,
        )
    }
}

/// The description of a route. Only IPv4 addresses are written.
#[verifier::opaque]
pub open spec fn route_payload(e: RouteEntry) -> Seq<u8> {
    let rt = if e.route_type == RouteType::Default {
        3u8
    } else {
        1u8
    };
    seq![2u8, e.destination.prefix_len, 0u8, 0u8, 0u8, 2u8, 3u8, rt] + bytes::le32(0) + (if
    e.destination.prefix_len > 0 && e.destination.address is Ipv4 {
        netlink::rta(netlink::RTA_DST, e.destination.address.octets())
    } else {
        Seq::<u8>::empty()
    }) + (match e.next_hop {
        Some(IpAddress::Ipv4(a)) => netlink::rta(netlink::RTA_GATEWAY, a.octets()),
        _ => Seq::<u8>::empty(),
    }) + netlink::rta(netlink::RTA_OIF, bytes::le32(e.ifindex))
}

#[verifier::opaque]
pub open spec fn route_msg(e: RouteEntry, seq: u32, pid: u32) -> Seq<u8> {
    netlink::nlmsg(netlink::RTM_NEWROUTE, netlink::NLM_F_MULTI, seq, pid, route_payload(e))
}

/// One message for each route.
pub open spec fn route_msgs(entries: Seq<RouteEntry>, seq: u32, pid: u32) -> Seq<Seq<u8>> {
    Seq::new(entries.len(), |i: int| route_msg(entries[i], seq, pid))
}

/// The description of a neighbour; the address is written for IPv4 only.
#[verifier::opaque]
pub open spec fn neigh_payload(ifindex: u32, ip: IpAddress, mac: Seq<u8>, state: u16) -> Seq<u8> {
    seq![2u8, 0u8, 0u8, 0u8] + bytes::le32(ifindex) + bytes::le16(state) + seq![0u8, 0u8] + (
    match ip {
        IpAddress::Ipv4(a) => netlink::rta(NDA_DST, a.octets()),
        IpAddress::Ipv6(_) => Seq::<u8>::empty(),
    }) + netlink::rta(NDA_LLADDR, mac)
}

#[verifier::opaque]
pub open spec fn neigh_msg(
    ifindex: u32,
    ip: IpAddress,
    mac: Seq<u8>,
    state: u16,
    flags: u16,
    seq: u32,
    pid: u32,
) -> Seq<u8> {
    netlink::nlmsg(netlink::RTM_NEWNEIGH, flags, seq, pid, neigh_payload(ifindex, ip, mac, state))
}

/// One message for each IPv4 neighbour.
pub open spec fn neigh_msgs(rows: Seq<NeighbourRow>, seq: u32, pid: u32) -> Seq<Seq<u8>>
    decreases rows.len(),
{
    if rows.len() == 0 {
        Seq::empty()
    } else {
        let r = rows.last();
        let front = neigh_msgs(rows.drop_last(), seq, pid);
        if r.ip is Ipv4 {
            front.push(
                neigh_msg(
                    r.ifindex,
                    r.ip,
                    r.entry.mac.octets@,
                    r.entry.state,
                    netlink::NLM_F_MULTI,
                    seq,
                    pid,
                ),
            )
        } else {
            front
        }
    }
}

fn name_attr(d: &NetDeviceEntry, ty: u16) -> (r: Vec<u8>)
    requires
        name_bytes(d@).len() <= 65531,
    ensures
        r@ == netlink::rta(ty, name_bytes(d@)),
        r@.len() <= 65536,
{
    let mut name: Vec<u8> = Vec::new();
    bytes::append_bytes(&mut name, d.name.as_str().as_bytes());
    name.push(0);
    assert(name@ =~= name_bytes(d@));
    netlink::rta_data(ty, &name)
}

/// Builds the message that describes an interface.
pub fn build_link_msg(d: &NetDeviceEntry, flags: u16, seq: u32, pid: u32) -> (r: Vec<u8>)
    requires
        name_bytes(d@).len() <= 65531,
    ensures
        r@ == link_msg(d@, flags, seq, pid),
{
    let mut payload: Vec<u8> = Vec::new();
    payload.push(0);
    payload.push(0);
    let kind: u16 = if d.nic_id == 1 {
        netlink::ARPHRD_LOOPBACK
    } else {
        netlink::ARPHRD_ETHER
    };
    netlink::pu16(&mut payload, kind);
    netlink::pu32(&mut payload, d.nic_id);
    netlink::pu32(&mut payload, d.flags);
    netlink::pu32(&mut payload, 0);
    bytes::append_bytes(&mut payload, &name_attr(d, netlink::IFLA_IFNAME));
    let mut mtu: Vec<u8> = Vec::new();
    netlink::pu32(&mut mtu, netlink::low32(d.mtu));
    assert(mtu@ =~= bytes::le32((d.mtu as int % 0x1_0000_0000) as u32));
    bytes::append_bytes(&mut payload, &netlink::rta_data(netlink::IFLA_MTU, &mtu));
    if d.kind != DeviceKind::Loopback {
        bytes::append_bytes(&mut payload, &netlink::rta_data(netlink::IFLA_ADDRESS, &d.hwaddr));
    }
    proof {
        reveal(link_payload);
        reveal(link_msg);
        assert(payload@ =~= link_payload(d@));
    }
    netlink::build_nlmsg(netlink::RTM_NEWLINK, flags, seq, pid, &payload)
}

/// Builds the message that ends a dump.
pub fn build_done_msg(seq: u32, pid: u32) -> (r: Vec<u8>)
    ensures
        r@ == done_msg(seq, pid),
{
    let mut payload: Vec<u8> = Vec::new();
    netlink::pu32(&mut payload, 0);
    assert(payload@ =~= bytes::le32(0));
    netlink::build_nlmsg(netlink::NLMSG_DONE, 0, seq, pid, &payload)
}

fn build_addr_msg(d: &NetDeviceEntry, c: IpCidr, seq: u32, pid: u32) -> (r: Vec<u8>)
    requires
        name_bytes(d@).len() <= 65531,
    ensures
        r@ == addr_msg(d@, c, seq, pid),
{
    let mut payload: Vec<u8> = Vec::new();
    let family: u8 = match c.address {
        IpAddress::Ipv4(_) => 2,
        IpAddress::Ipv6(_) => 10,
    };
    payload.push(family);
    payload.push(c.prefix_len);
    payload.push(0);
    payload.push(0);
    netlink::pu32(&mut payload, d.nic_id);
    let octets = c.address.to_octets();
    bytes::append_bytes(&mut payload, &netlink::rta_data(netlink::IFA_ADDRESS, &octets));
    bytes::append_bytes(&mut payload, &netlink::rta_data(netlink::IFA_LOCAL, &octets));
    bytes::append_bytes(&mut payload, &name_attr(d, netlink::IFA_LABEL));
    proof {
        reveal(addr_payload);
        reveal(addr_msg);
        assert(payload@ =~= addr_payload(d@, c));
    }
    netlink::build_nlmsg(netlink::RTM_NEWADDR, netlink::NLM_F_MULTI, seq, pid, &payload)
}

fn build_route_msg(e: &RouteEntry, seq: u32, pid: u32) -> (r: Vec<u8>)
    ensures
        r@ == route_msg(*e, seq, pid),
{
    let mut payload: Vec<u8> = Vec::new();
    let rt: u8 = if e.route_type == RouteType::Default {
        3
    } else {
        1
    };
    payload.push(2);
    payload.push(e.destination.prefix_len);
    payload.push(0);
    payload.push(0);
    payload.push(0);
    payload.push(2);
    payload.push(3);
    payload.push(rt);
    netlink::pu32(&mut payload, 0);
    if e.destination.prefix_len > 0 {
        if let IpAddress::Ipv4(a) = e.destination.address {
            bytes::append_bytes(&mut payload, &netlink::rta_data(netlink::RTA_DST, &a.to_octets()));
        }
    }
    if let Some(IpAddress::Ipv4(a)) = e.next_hop {
        bytes::append_bytes(&mut payload, &netlink::rta_data(netlink::RTA_GATEWAY, &a.to_octets()));
    }
    let mut oif: Vec<u8> = Vec::new();
    netlink::pu32(&mut oif, e.ifindex);
    assert(oif@ =~= bytes::le32(e.ifindex));
    bytes::append_bytes(&mut payload, &netlink::rta_data(netlink::RTA_OIF, &oif));
    proof {
        reveal(route_payload);
        reveal(route_msg);
        assert(payload@ =~= route_payload(*e));
    }
    netlink::build_nlmsg(netlink::RTM_NEWROUTE, netlink::NLM_F_MULTI, seq, pid, &payload)
}

/// Builds the message that describes a neighbour.
pub fn build_neigh_msg(
    ifindex: u32,
    ip: IpAddress,
    mac: &[u8; 6],
    state: u16,
    flags: u16,
    seq: u32,
    pid: u32,
) -> (r: Vec<u8>)
    ensures
        r@ == neigh_msg(ifindex, ip, mac@, state, flags, seq, pid),
{
    let mut payload: Vec<u8> = Vec::new();
    payload.push(2);
    payload.push(0);
    payload.push(0);
    payload.push(0);
    netlink::pu32(&mut payload, ifindex);
    netlink::pu16(&mut payload, state);
    payload.push(0);
    payload.push(0);
    if let IpAddress::Ipv4(a) = ip {
        bytes::append_bytes(&mut payload, &netlink::rta_data(NDA_DST, &a.to_octets()));
    }
    bytes::append_bytes(&mut payload, &netlink::rta_data(NDA_LLADDR, mac));
    proof {
        reveal(neigh_payload);
        reveal(neigh_msg);
        assert(payload@ =~= neigh_payload(ifindex, ip, mac@, state));
    }
    netlink::build_nlmsg(netlink::RTM_NEWNEIGH, flags, seq, pid, &payload)
}

fn push_dump(sock: &mut NetlinkSocket, msgs: Vec<Vec<u8>>, seq: u32, pid: u32) -> (r: Result<
    isize,
    SyscallErr,
>)
    requires
        old(sock).wf(),
    ensures
        final(sock).wf(),
        final(sock).local_portid == old(sock).local_portid,
        forall|n: route::NetModel|
            #[trigger] route::answer_all(
                old(sock).queue(),
                n,
                seqs::contents(msgs@).push(done_msg(seq, pid)),
            ) == (final(sock).queue(), n, r),
{
    let ghost before = seqs::contents(msgs@);
    let mut all = msgs;
    all.push(build_done_msg(seq, pid));
    assert(seqs::contents(all@) =~= before.push(done_msg(seq, pid)));
    if sock.push_all(&all) {
        Ok(0)
    } else {
        Err(SyscallErr::ENOBUFS)
    }
}

/// Answers a dump of the interfaces.
pub fn handle_getlink(seq: u32, pid: u32, sock: &mut NetlinkSocket, net: &RouteState) -> (r: Result<
    isize,
    SyscallErr,
>)
    requires
        old(sock).wf(),
        names_fit(net@.devs),
    ensures
        final(sock).wf(),
        final(sock).local_portid == old(sock).local_portid,
        (final(sock).queue(), net@, r) == route::answer_all(
            old(sock).queue(),
            net@,
            link_msgs(net@.devs, seq, pid).push(done_msg(seq, pid)),
        ),
{
    let devices = &net.ns.devices;
    let mut msgs: Vec<Vec<u8>> = Vec::new();
    let mut i: usize = 0;
    while i < devices.len()
        invariant
            i <= devices@.len(),
            net@.devs == net_core::models(devices@),
            names_fit(net@.devs),
            seqs::contents(msgs@) =~= link_msgs(net@.devs.take(i as int), seq, pid),
        decreases devices@.len() - i,
    {
        assert(net@.devs[i as int] == devices@[i as int]@);
        let m = build_link_msg(&devices[i], netlink::NLM_F_MULTI, seq, pid);
        proof {
            seqs::lemma_contents_push(msgs@, m);
            assert(link_msgs(net@.devs.take(i + 1), seq, pid) =~= link_msgs(
                net@.devs.take(i as int),
                seq,
                pid,
            ).push(m@));
        }
        msgs.push(m);
        i = i + 1;
    }
    assert(net@.devs.take(i as int) =~= net@.devs);
    push_dump(sock, msgs, seq, pid)
}

/// Answers a dump of the addresses.
pub fn handle_getaddr(seq: u32, pid: u32, sock: &mut NetlinkSocket, net: &RouteState) -> (r: Result<
    isize,
    SyscallErr,
>)
    requires
        old(sock).wf(),
        names_fit(net@.devs),
    ensures
        final(sock).wf(),
        final(sock).local_portid == old(sock).local_portid,
        (final(sock).queue(), net@, r) == route::answer_all(
            old(sock).queue(),
            net@,
            addr_msgs(net@.devs, seq, pid).push(done_msg(seq, pid)),
        ),
{
    let devices = &net.ns.devices;
    let ghost devs = net@.devs;
    let mut msgs: Vec<Vec<u8>> = Vec::new();
    let mut i: usize = 0;
    assert(seqs::contents(msgs@) =~= addr_msgs(devs.take(0), seq, pid));
    while i < devices.len()
        invariant
            i <= devices@.len(),
            devs == net_core::models(devices@),
            names_fit(devs),
            seqs::contents(msgs@) == addr_msgs(devs.take(i as int), seq, pid),
        decreases devices@.len() - i,
    {
        let d = &devices[i];
        assert(devs[i as int] == d@);
        let ghost front = seqs::contents(msgs@);
        let mut k: usize = 0;
        while k < d.ip_addrs.len()
            invariant
                k <= d.ip_addrs@.len(),
                name_bytes(d@).len() <= 65531,
                seqs::contents(msgs@) =~= front + device_addr_msgs(d@, k as int, seq, pid),
            decreases d.ip_addrs@.len() - k,
        {
            let m = build_addr_msg(d, d.ip_addrs[k], seq, pid);
            proof {
                seqs::lemma_contents_push(msgs@, m);
                assert(device_addr_msgs(d@, k + 1, seq, pid) =~= device_addr_msgs(
                    d@,
                    k as int,
                    seq,
                    pid,
                ).push(m@));
            }
            msgs.push(m);
            k = k + 1;
        }
        proof {
            assert(devs.take(i + 1).drop_last() =~= devs.take(i as int));
            assert(devs.take(i + 1).last() == d@);
        }
        i = i + 1;
    }
    assert(devs.take(i as int) =~= devs);
    push_dump(sock, msgs, seq, pid)
}

/// Answers a dump of the routes.
pub fn handle_getroute(seq: u32, pid: u32, sock: &mut NetlinkSocket, net: &RouteState) -> (r: Result<
    isize,
    SyscallErr,
>)
    requires
        old(sock).wf(),
    ensures
        final(sock).wf(),
        final(sock).local_portid == old(sock).local_portid,
        (final(sock).queue(), net@, r) == route::answer_all(
            old(sock).queue(),
            net@,
            route_msgs(net@.entries, seq, pid).push(done_msg(seq, pid)),
        ),
{
    let entries = &net.ns.router.table.entries;
    let mut msgs: Vec<Vec<u8>> = Vec::new();
    let mut i: usize = 0;
    while i < entries.len()
        invariant
            i <= entries@.len(),
            seqs::contents(msgs@) =~= route_msgs(entries@.take(i as int), seq, pid),
        decreases entries@.len() - i,
    {
        let m = build_route_msg(&entries[i], seq, pid);
        proof {
            seqs::lemma_contents_push(msgs@, m);
            assert(route_msgs(entries@.take(i + 1), seq, pid) =~= route_msgs(
                entries@.take(i as int),
                seq,
                pid,
            ).push(m@));
        }
        msgs.push(m);
        i = i + 1;
    }
    assert(entries@.take(i as int) =~= entries@);
    push_dump(sock, msgs, seq, pid)
}

/// Answers a dump of the neighbours.
pub fn handle_getneigh(seq: u32, pid: u32, sock: &mut NetlinkSocket, net: &RouteState) -> (r: Result<
    isize,
    SyscallErr,
>)
    requires
        old(sock).wf(),
        net.wf(),
    ensures
        final(sock).wf(),
        final(sock).local_portid == old(sock).local_portid,
        (final(sock).queue(), net@, r) == route::answer_all(
            old(sock).queue(),
            net@,
            neigh_msgs(net.neighbours.rows@, seq, pid).push(done_msg(seq, pid)),
        ),
{
    let rows = net.neighbours.neighbour_dump();
    let mut msgs: Vec<Vec<u8>> = Vec::new();
    let mut i: usize = 0;
    assert(seqs::contents(msgs@) =~= neigh_msgs(rows@.take(0), seq, pid));
    while i < rows.len()
        invariant
            i <= rows@.len(),
            seqs::contents(msgs@) == neigh_msgs(rows@.take(i as int), seq, pid),
        decreases rows@.len() - i,
    {
        let row = rows[i];
        let ghost front = seqs::contents(msgs@);
        if let IpAddress::Ipv4(_) = row.ip {
            let m = build_neigh_msg(
                row.ifindex,
                row.ip,
                &row.entry.mac.octets,
                row.entry.state,
                netlink::NLM_F_MULTI,
                seq,
                pid,
            );
            proof {
                seqs::lemma_contents_push(msgs@, m);
            }
            msgs.push(m);
        }
        proof {
            assert(rows@.take(i + 1).drop_last() =~= rows@.take(i as int));
            assert(rows@.take(i + 1).last() == row);
        }
        i = i + 1;
    }
    assert(rows@.take(i as int) =~= rows@);
    push_dump(sock, msgs, seq, pid)
}

} // verus!
