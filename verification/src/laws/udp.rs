//! UDP sockets: who gets a datagram, and where one goes to.
use vstd::prelude::*;
use crate::error::SyscallErr;
use crate::iface::DeviceModel;
use crate::routing;
use crate::routing::RouteEntry;
use crate::socket::inet::datagram::udp;
use crate::socket::inet::common::port::registry::{AddressFamily, TransportProtocol};
use crate::socket::inet::common::port::AutoBindPurpose;
use crate::socket::inet::datagram::udp::{
    DatagramModel,
    DeliveryModel,
    SendModel,
    UdpModel,
    UdpSpace,
    UdpState,
};
use crate::socket::EndpointModel;
use crate::wire::{IpAddress, IpEndpoint, IpVersion, Ipv4Address};

verus! {

/// A datagram that comes in reaches one socket at most: a registered one on the
/// port that the datagram is for, which is connected to nobody or to the sender.
/// It is queued last, with its sender, that socket is woken, and nothing else
/// changes.
pub proof fn law_datagram_reaches_its_port(m: UdpSpace, ds: Seq<DeliveryModel>, d: DeliveryModel)
    ensures
        ({
            let (n, woken) = udp::dispatched(m, ds);
            let (after, all) = udp::dispatched(m, ds.push(d));
            ||| after == n && all == woken
            ||| exists|p: u64|
                {
                    &&& #[trigger] n.registered.contains(p)
                    &&& n.sockets.contains_key(p)
                    &&& all == woken.push(p)
                    &&& d.local.port != 0 ==> n.sockets[p].state.local_endpoint is Some
                        && n.sockets[p].state.local_endpoint->0.port == d.local.port
                    &&& n.sockets[p].state.remote_endpoint is None
                        || n.sockets[p].state.remote_endpoint == Some(d.remote)
                    &&& after.registered == n.registered
                    &&& after.sockets.dom() == n.sockets.dom()
                    &&& after.sockets[p].state == n.sockets[p].state
                    &&& after.sockets[p].more == n.sockets[p].more
                    &&& after.sockets[p].rx == n.sockets[p].rx.push(
                        DatagramModel { data: d.payload, from: d.remote },
                    )
                    &&& forall|o: u64|
                        o != p && n.sockets.contains_key(o) ==> #[trigger] after.sockets[o]
                            == n.sockets[o]
                }
        }),
{
    let (n, woken) = udp::dispatched(m, ds);
    let (after, all) = udp::dispatched(m, ds.push(d));
    assert(ds.push(d).drop_last() =~= ds);
    let score = udp::match_scores(n.sockets, d.local, d.remote);
    udp::law_best_is_first_of_highest(n.registered, score);
    match udp::best(n.registered, score) {
        None => {},
        Some(p) => {
            assert(n.registered.contains(p));
            assert(score(p) > 0);
            assert(after.sockets.dom() =~= n.sockets.dom());
        },
    }
}

/// A datagram is not lost: where a registered socket on its port is connected to
/// nobody or to the sender, one such socket gets it; and where one is connected
/// to the sender, one that is so gets it.
pub proof fn law_datagram_is_not_lost(
    m: UdpSpace,
    ds: Seq<DeliveryModel>,
    d: DeliveryModel,
    q: u64,
)
    requires
        udp::dispatched(m, ds).0.registered.contains(q),
        udp::dispatched(m, ds).0.sockets.contains_key(q),
        udp::dispatched(m, ds).0.sockets[q].state.local_endpoint is Some,
        udp::dispatched(m, ds).0.sockets[q].state.local_endpoint->0.port == d.local.port,
        udp::dispatched(m, ds).0.sockets[q].state.remote_endpoint is None || udp::dispatched(
            m,
            ds,
        ).0.sockets[q].state.remote_endpoint == Some(d.remote),
    ensures
        ({
            let (n, woken) = udp::dispatched(m, ds);
            let (after, all) = udp::dispatched(m, ds.push(d));
            &&& all.len() == woken.len() + 1
            &&& after.sockets[all.last()].rx == n.sockets[all.last()].rx.push(
                DatagramModel { data: d.payload, from: d.remote },
            )
            &&& n.sockets[q].state.remote_endpoint is Some
                ==> n.sockets[all.last()].state.remote_endpoint == Some(d.remote)
        }),
{
    let (n, woken) = udp::dispatched(m, ds);
    assert(ds.push(d).drop_last() =~= ds);
    let score = udp::match_scores(n.sockets, d.local, d.remote);
    udp::law_best_is_first_of_highest(n.registered, score);
    let i = choose|i: int| 0 <= i < n.registered.len() && n.registered[i] == q;
    assert(score(n.registered[i]) > 0);
}

/// Datagrams change nothing but the queues: the same sockets are there with the
/// same addresses, in the same order, and no datagram leaves a queue.
pub proof fn law_dispatch_keeps_sockets(m: UdpSpace, ds: Seq<DeliveryModel>, id: u64)
    requires
        m.sockets.contains_key(id),
    ensures
        udp::dispatched(m, ds).0.registered == m.registered,
        udp::dispatched(m, ds).0.sockets.contains_key(id),
        udp::dispatched(m, ds).0.sockets[id].state == m.sockets[id].state,
        udp::dispatched(m, ds).0.sockets[id].more == m.sockets[id].more,
        m.sockets[id].rx.is_prefix_of(udp::dispatched(m, ds).0.sockets[id].rx),
        udp::dispatched(m, ds).1.len() <= ds.len(),
    decreases ds.len(),
{
    if ds.len() > 0 {
        law_dispatch_keeps_sockets(m, ds.drop_last(), id);
    }
}

/// A datagram to an address of this machine reaches a registered socket on the
/// destination port, bound to the destination address or to all, connected to
/// nobody or to the sender. It comes from the sender's own port.
pub proof fn law_local_datagram_reaches_its_port(
    m: UdpSpace,
    id: u64,
    devs: Seq<DeviceModel>,
    entries: Seq<RouteEntry>,
    remote: IpEndpoint,
    data: Seq<u8>,
    k: isize,
)
    requires
        udp::delivered_locally(m, id, devs, entries, remote, data).1 == Ok::<
            Option<isize>,
            SyscallErr,
        >(Some(k)),
        data.len() <= isize::MAX,
    ensures
        k == data.len(),
        m.sockets[id].state.local_endpoint is Some,
        exists|p: u64|
            {
                let n = udp::delivered_locally(m, id, devs, entries, remote, data).0;
                &&& #[trigger] m.registered.contains(p)
                &&& m.sockets.contains_key(p)
                &&& m.sockets[p].state.local_endpoint matches Some(l)
                &&& l.port == remote.port
                &&& l.addr is None || l.addr == Some(remote.addr)
                &&& n.sockets[p].rx.len() == m.sockets[p].rx.len() + 1
                &&& n.sockets[p].rx.last().data == data
                &&& n.sockets[p].rx.last().from.port == m.sockets[id].state.local_endpoint->0.port
                &&& m.sockets[id].state.local_endpoint->0.addr matches Some(a)
                    ==> n.sockets[p].rx.last().from.addr == a
                &&& m.sockets[p].state.remote_endpoint is None || m.sockets[p].state.remote_endpoint
                    == Some(n.sockets[p].rx.last().from)
                &&& n.sockets[p].state == m.sockets[p].state
                &&& n.registered == m.registered
                &&& forall|o: u64|
                    o != p && m.sockets.contains_key(o) ==> #[trigger] n.sockets[o] == m.sockets[o]
            },
{
    let src = udp::source_endpoint(m.sockets[id].state, devs, entries, remote)->0;
    let score = udp::local_scores(m.sockets, remote, src);
    udp::law_best_is_first_of_highest(m.registered, score);
    let p = udp::best(m.registered, score)->0;
    assert(m.registered.contains(p));
    assert(score(p) > 0);
}

/// A datagram to the loopback network, or to an address of an interface, that a
/// socket here would take is not handed to the stack: it is queued, or refused
/// where the queue is full.
pub proof fn law_local_datagram_stays_here(
    m: UdpSpace,
    id: u64,
    devs: Seq<DeviceModel>,
    entries: Seq<RouteEntry>,
    remote: IpEndpoint,
    data: Seq<u8>,
    q: u64,
)
    requires
        remote.addr matches IpAddress::Ipv4(a) && a.bits / 16777216 == 127,
        m.sockets[id].state.local_endpoint matches Some(l) && l.port != 0,
        m.registered.contains(q),
        m.sockets.contains_key(q),
        m.sockets[q].state.remote_endpoint is None,
        m.sockets[q].state.local_endpoint matches Some(l) && l.port == remote.port && (
        l.addr is None || l.addr == Some(remote.addr)),
        data.len() <= isize::MAX,
    ensures
        match udp::delivered_locally(m, id, devs, entries, remote, data) {
            (n, Ok(Some(k))) => k == data.len(),
            (n, Ok(None)) => false,
            (n, Err(e)) => n == m && e == SyscallErr::EAGAIN,
        },
{
    let src = udp::source_endpoint(m.sockets[id].state, devs, entries, remote)->0;
    let score = udp::local_scores(m.sockets, remote, src);
    udp::law_best_is_first_of_highest(m.registered, score);
    let i = choose|i: int| 0 <= i < m.registered.len() && m.registered[i] == q;
    assert(score(m.registered[i]) > 0);
}

/// What the stack is asked to transmit goes to the destination that was named,
/// or without one to the peer, and carries what was kept and then the data. It
/// leaves through the interface that the socket is tied to, else through that
/// of the route. What was kept is gone afterwards.
pub proof fn law_transmitted_datagram(
    m: UdpSpace,
    id: u64,
    devs: Seq<DeviceModel>,
    entries: Seq<RouteEntry>,
    buf: Seq<u8>,
    dest: Option<EndpointModel>,
)
    requires
        m.sockets.contains_key(id),
        udp::sent_msg(m, id, devs, entries, buf, dest, false).1 is Ok,
        udp::sent_msg(m, id, devs, entries, buf, dest, false).1->Ok_0 is Transmit,
    ensures
        ({
            let (n, r) = udp::sent_msg(m, id, devs, entries, buf, dest, false);
            let to = match dest {
                Some(EndpointModel::Ip(e)) => e,
                _ => m.sockets[id].state.remote_endpoint->0,
            };
            let route = routing::spec_route_output(devs, entries, r->Ok_0->remote.addr);
            &&& dest is Some ==> dest->0 is Ip
            &&& dest is None ==> m.sockets[id].state.remote_endpoint is Some
            &&& r->Ok_0->remote.port == to.port
            &&& to.addr is Ipv4 ==> r->Ok_0->remote.addr == to.addr
            &&& to.addr matches IpAddress::Ipv6(a) ==> if 0xffff_0000_0000 <= a.bits
                <= 0xffff_ffff_ffff {
                r->Ok_0->remote.addr matches IpAddress::Ipv4(b) && b.bits == a.bits
                    - 0xffff_0000_0000
            } else {
                r->Ok_0->remote.addr == to.addr
            }
            &&& r->Ok_0->data == m.sockets[id].more + buf
            &&& r->Ok_0->rebind == match m.sockets[id].state.bound_ifindex {
                Some(i) => Some(i),
                None => Some(route->Ok_0.ifindex),
            }
            &&& route is Ok
            &&& n.sockets[id].more.len() == 0
            &&& n.sockets[id].state == m.sockets[id].state
            &&& n.sockets[id].rx == m.sockets[id].rx
            &&& buf.len() <= 65507
        }),
{
}

/// What is announced with more to follow is kept behind what was kept before,
/// and nothing is sent.
pub proof fn law_announced_data_is_kept(
    m: UdpSpace,
    id: u64,
    devs: Seq<DeviceModel>,
    entries: Seq<RouteEntry>,
    buf: Seq<u8>,
    dest: Option<EndpointModel>,
)
    requires
        m.sockets.contains_key(id),
        buf.len() <= isize::MAX,
    ensures
        match udp::sent_msg(m, id, devs, entries, buf, dest, true) {
            (n, Ok(SendModel::Done(k))) => {
                &&& k == buf.len()
                &&& n.sockets[id].more == m.sockets[id].more + buf
                &&& n.sockets[id].rx == m.sockets[id].rx
                &&& n.sockets[id].state == m.sockets[id].state
                &&& n.sockets == m.sockets.insert(id, n.sockets[id])
                &&& n.registered == m.registered
            },
            (n, Ok(_)) => false,
            (n, Err(e)) => n == m,
        },
{
}

/// What a datagram that cannot be sent is refused with: one that is too long, one
/// without a destination or peer, one to the other address family.
pub proof fn law_unsendable_datagram(
    m: UdpSpace,
    id: u64,
    devs: Seq<DeviceModel>,
    entries: Seq<RouteEntry>,
    buf: Seq<u8>,
    dest: Option<EndpointModel>,
    more: bool,
)
    ensures
        ({
            let (n, r) = udp::sent_msg(m, id, devs, entries, buf, dest, more);
            let s = m.sockets[id].state;
            &&& buf.len() > 65507 ==> n == m && r is Err && r->Err_0 == SyscallErr::EMSGSIZE
            &&& buf.len() <= 65507 && dest is None && s.remote_endpoint is None ==> n == m && r is Err
                && r->Err_0 == SyscallErr::ENOTCONN
            &&& buf.len() <= 65507 && dest is Some && !(dest->0 is Ip) ==> n == m && r is Err
                && r->Err_0 == SyscallErr::EINVAL
            &&& buf.len() <= 65507 && dest is Some && dest->0 is Ip && dest->0->Ip_0.addr is Ipv4
                && s.ip_version == IpVersion::Ipv6 && s.ipv6_v6only ==> n == m && r is Err && r->Err_0
                == SyscallErr::EAFNOSUPPORT
        }),
{
}

/// A socket is bound to the address and port that are asked for: all zeros stand
/// for every address, an IPv4 address inside an IPv6 address is taken out, and
/// an address of the other family is refused.
pub proof fn law_bind_target(s: UdpState, e: IpEndpoint)
    ensures
        match udp::bind_target(s, EndpointModel::Ip(e)) {
            Ok(t) => {
                &&& t.port == e.port
                &&& e.addr matches IpAddress::Ipv4(a) ==> t.addr == if a.bits < 16777216 {
                    None
                } else {
                    Some(e.addr)
                }
                &&& e.addr matches IpAddress::Ipv6(a) ==> if a.bits == 0 {
                    t.addr is None
                } else if a.bits < 0xffff_0000_0000 || a.bits > 0xffff_ffff_ffff {
                    t.addr == Some(e.addr)
                } else {
                    t.addr is None || t.addr->0 is Ipv4
                }
            },
            Err(x) => x == SyscallErr::EAFNOSUPPORT && (s.ip_version == IpVersion::Ipv4
                || s.ipv6_v6only),
        },
        s.ip_version == IpVersion::Ipv4 && e.addr is Ipv4 ==> udp::bind_target(
            s,
            EndpointModel::Ip(e),
        ) is Ok,
{
}

/// What a socket asks of the registry of ports is a UDP port, of its own family,
/// at the address and port it is to be bound to, on the interface it is tied to,
/// and with its own leave to share. A socket that is bound asks for nothing.
pub proof fn law_bind_intent(s: UdpState, e: IpEndpoint)
    ensures
        ({
            let r = udp::bind_intent(s, EndpointModel::Ip(e));
            &&& s.local_endpoint is Some ==> r is Err && r->Err_0 == SyscallErr::EINVAL
            &&& r matches Ok(i) ==> {
                &&& i.protocol == TransportProtocol::Udp
                &&& i.family == AddressFamily::Ipv4 <==> s.ip_version == IpVersion::Ipv4
                &&& i.port == e.port
                &&& e.addr matches IpAddress::Ipv4(a) ==> (a.bits >= 16777216 ==> i.address == Some(
                    e.addr,
                ))
                &&& e.addr matches IpAddress::Ipv4(a) ==> (a.bits < 16777216 ==> i.address is None)
                &&& i.ifindex == s.bound_ifindex
                &&& i.reuse_addr == s.reuse_addr
                &&& !i.reuse_port
                &&& i.ipv6_v6only == s.ipv6_v6only
            }
        }),
{
}

/// A socket that connects sends to the address and port that are asked for from
/// then on; all zeros stand for the loopback address. It must be bound, and
/// speak the family.
pub proof fn law_connect_target(s: UdpState, e: IpEndpoint)
    ensures
        ({
            let r = udp::connect_target(s, EndpointModel::Ip(e));
            &&& r matches Ok(t) ==> {
                &&& t.port == e.port
                &&& e.addr matches IpAddress::Ipv4(a) ==> t.addr == if a.bits < 16777216 {
                    IpAddress::Ipv4(Ipv4Address { bits: 0x7f00_0001 })
                } else {
                    e.addr
                }
            }
            &&& s.ip_version == IpVersion::Ipv4 && e.addr is Ipv4 && s.local_endpoint is Some
                ==> r is Ok
            &&& s.ip_version == IpVersion::Ipv4 && e.addr is Ipv4 && s.local_endpoint is None
                ==> r is Err && r->Err_0 == SyscallErr::EINVAL
            &&& s.ip_version == IpVersion::Ipv6 && s.ipv6_v6only && e.addr is Ipv4 ==> r is Err
                && r->Err_0 == SyscallErr::EAFNOSUPPORT
        }),
{
}

/// Datagrams are received in the order in which they came, each once and from its
/// sender, as many bytes of it as fit in the buffer.
pub proof fn law_datagrams_are_received_in_order(m: UdpModel, buf: Seq<u8>)
    ensures
        ({
            let (n, got) = udp::taken(m, buf);
            &&& m.rx.len() == 0 ==> n == m && got is None
            &&& m.rx.len() > 0 ==> {
                &&& n.rx == m.rx.drop_first()
                &&& n.state.local_endpoint == m.state.local_endpoint
                &&& n.state.remote_endpoint == m.state.remote_endpoint
                &&& n.state.last_recv_addr == Some(m.rx[0].from)
                &&& got matches Some((len, from, out))
                &&& from == m.rx[0].from
                &&& len <= buf.len() && len <= m.rx[0].data.len()
                &&& len == buf.len() || len == m.rx[0].data.len()
                &&& out.len() == buf.len()
                &&& out.take(len) == m.rx[0].data.take(len)
                &&& out.skip(len) == buf.skip(len)
            }
        }),
{
    let (n, got) = udp::taken(m, buf);
    if m.rx.len() > 0 {
        let (len, from, out) = got->0;
        assert(out.take(len) =~= m.rx[0].data.take(len));
        assert(out.skip(len) =~= buf.skip(len));
    }
}

/// Who an unbound socket is about to speak to: the one that is named, else its
/// peer; a bound socket, and one that listens, needs nobody.
pub proof fn law_auto_bind_peer(s: UdpState, e: IpEndpoint)
    ensures
        ({
            let named = Some(EndpointModel::Ip(e));
            &&& s.local_endpoint is Some ==> udp::auto_bind_peer(
                s,
                named,
                AutoBindPurpose::Send,
            ) is None
            &&& s.local_endpoint is None ==> udp::auto_bind_peer(s, named, AutoBindPurpose::Send)
                == Some(e)
            &&& s.local_endpoint is None ==> udp::auto_bind_peer(s, None, AutoBindPurpose::Connect)
                == s.remote_endpoint
            &&& udp::auto_bind_peer(s, named, AutoBindPurpose::Listen) is None
        }),
{
}

} // verus!
