//! What a receive hands over, whatever the socket.
use vstd::prelude::*;
use crate::error::SyscallErr;
use crate::event::EPollEvent;
use crate::socket::inet::datagram::udp;
use crate::socket::inet::datagram::udp::UdpModel;
use crate::socket::packet;
use crate::socket::packet::PacketModel;
use crate::socket::unix::datagram::SpaceModel;
use crate::socket::EndpointModel;
use crate::syscall::receive;
use crate::syscall::receive::SourceModel;

verus! {

/// A receive from a UDP socket takes the oldest datagram: its first bytes stand in
/// front of the buffer, as many as fit, and its sender is told. Where there is
/// none the caller has to wait.
pub proof fn law_receive_from_udp(m: UdpModel, buf: Seq<u8>)
    requires
        buf.len() <= isize::MAX,
    ensures
        ({
            let (s, out, r) = receive::taken(SourceModel::Udp(m), buf);
            &&& m.rx.len() == 0 ==> s == SourceModel::Udp(m) && out == buf && r is Err && r->Err_0
                == SyscallErr::EAGAIN
            &&& m.rx.len() > 0 ==> {
                &&& s matches SourceModel::Udp(n)
                &&& n.rx == m.rx.drop_first()
                &&& r matches Ok((k, from))
                &&& from == Some(EndpointModel::Ip(m.rx[0].from))
                &&& k <= buf.len() && k <= m.rx[0].data.len()
                &&& k == buf.len() || k == m.rx[0].data.len()
                &&& out.take(k as int) == m.rx[0].data.take(k as int)
                &&& out.skip(k as int) == buf.skip(k as int)
            }
        }),
{
    crate::laws::udp::law_datagrams_are_received_in_order(m, buf);
}

/// A receive from a packet socket takes the oldest frame, cut to the buffer; a
/// frame has no sender.
pub proof fn law_receive_from_packet(m: PacketModel, buf: Seq<u8>)
    requires
        buf.len() <= isize::MAX,
    ensures
        ({
            let (s, out, r) = receive::taken(SourceModel::Packet(m), buf);
            &&& m.rx.len() == 0 ==> s == SourceModel::Packet(m) && out == buf && r is Err
                && r->Err_0 == SyscallErr::EAGAIN
            &&& m.rx.len() > 0 ==> {
                &&& s matches SourceModel::Packet(n)
                &&& n.rx == m.rx.skip(1)
                &&& r matches Ok((k, from))
                &&& from is None
                &&& k <= buf.len() && k <= m.rx[0].len()
                &&& k == buf.len() || k == m.rx[0].len()
                &&& out.take(k as int) == m.rx[0].take(k as int)
                &&& out.skip(k as int) == buf.skip(k as int)
            }
        }),
{
    if m.rx.len() > 0 {
        let (s, out, r) = receive::taken(SourceModel::Packet(m), buf);
        let k: int = r->Ok_0.0 as int;
        assert(out.take(k) =~= m.rx[0].take(k));
        assert(out.skip(k) =~= buf.skip(k));
    }
}

/// A receive from a netlink socket takes the oldest answer and tells its whole
/// length; the kernel sent it.
pub proof fn law_receive_from_netlink(q: Seq<Seq<u8>>, buf: Seq<u8>)
    requires
        q.len() > 0 ==> q[0].len() <= isize::MAX,
    ensures
        ({
            let (s, out, r) = receive::taken(SourceModel::Netlink(q), buf);
            &&& q.len() == 0 ==> s == SourceModel::Netlink(q) && out == buf && r is Err && r->Err_0
                == SyscallErr::EAGAIN
            &&& q.len() > 0 ==> {
                &&& s == SourceModel::Netlink(q.drop_first())
                &&& r matches Ok((k, from))
                &&& k == q[0].len()
                &&& from == Some(EndpointModel::Netlink(0))
                &&& out.len() == buf.len()
                &&& forall|i: int| 0 <= i < buf.len() && i < q[0].len() ==> #[trigger] out[i]
                    == q[0][i]
                &&& forall|i: int| q[0].len() <= i < buf.len() ==> #[trigger] out[i] == buf[i]
            }
        }),
{
}

/// A receive from a local datagram socket takes the oldest message, cut to the
/// buffer, with the name of its sender; nobody else's messages are touched.
pub proof fn law_receive_from_local(m: SpaceModel, id: u64, other: u64, buf: Seq<u8>)
    requires
        buf.len() <= isize::MAX,
        m.sockets.contains_key(id),
        other != id,
    ensures
        ({
            let q = m.sockets[id].queue;
            let (s, out, r) = receive::taken(SourceModel::UnixDatagram { m, id }, buf);
            &&& s matches SourceModel::UnixDatagram { m: n, id: same }
            &&& same == id
            &&& n.sockets[other] == m.sockets[other]
            &&& q.len() == 0 ==> n.sockets[id].queue == q && out == buf && r is Err && r->Err_0
                == SyscallErr::EAGAIN
            &&& q.len() > 0 ==> {
                &&& n.sockets[id].queue == q.drop_first()
                &&& r matches Ok((k, from))
                &&& k <= buf.len() && k <= q[0].data.len()
                &&& k == buf.len() || k == q[0].data.len()
                &&& q[0].src matches Some(name) ==> from == Some(EndpointModel::Unix(name))
                &&& out.take(k as int) == q[0].data.take(k as int)
                &&& out.skip(k as int) == buf.skip(k as int)
            }
        }),
{
    let q = m.sockets[id].queue;
    let (s, out, r) = receive::taken(SourceModel::UnixDatagram { m, id }, buf);
    if q.len() > 0 {
        let k: int = r->Ok_0.0 as int;
        assert(out.take(k) =~= q[0].data.take(k));
        assert(out.skip(k) =~= buf.skip(k));
    }
}

/// A look at a socket shows what a receive would take.
pub proof fn law_look_shows_what_comes(m: UdpModel, p: PacketModel, q: Seq<Seq<u8>>, buf: Seq<u8>)
    ensures
        ({
            let (_, out, r) = receive::taken(SourceModel::Udp(m), buf);
            receive::looked(SourceModel::Udp(m), buf) == (out, r)
        }),
        ({
            let (_, out, r) = receive::taken(SourceModel::Packet(p), buf);
            receive::looked(SourceModel::Packet(p), buf) == (out, r)
        }),
        ({
            let (_, out, r) = receive::taken(SourceModel::Netlink(q), buf);
            receive::looked(SourceModel::Netlink(q), buf) == (out, r)
        }),
        udp::shown(m, buf) == udp::taken(m, buf).1,
        packet::shown(p, buf) == packet::taken(p, buf).1,
{
}

/// Of two sets of events one holds, without the other, what the other lacks, and in
/// common what both hold; the two parts make up the first set.
pub proof fn law_event_sets(a: EPollEvent, b: EPollEvent)
    ensures
        ({
            let both = a.spec_and(b);
            let rest = a.spec_without(b);
            &&& both.epollin <==> a.epollin && b.epollin
            &&& both.epollout <==> a.epollout && b.epollout
            &&& both.epollrdnorm <==> a.epollrdnorm && b.epollrdnorm
            &&& both.epollwrnorm <==> a.epollwrnorm && b.epollwrnorm
            &&& both.epollerr <==> a.epollerr && b.epollerr
            &&& both.epollhup <==> a.epollhup && b.epollhup
            &&& both.epollrdhup <==> a.epollrdhup && b.epollrdhup
            &&& rest.epollin <==> a.epollin && !both.epollin
            &&& rest.epollout <==> a.epollout && !both.epollout
            &&& rest.epollrdnorm <==> a.epollrdnorm && !both.epollrdnorm
            &&& rest.epollwrnorm <==> a.epollwrnorm && !both.epollwrnorm
            &&& rest.epollerr <==> a.epollerr && !both.epollerr
            &&& rest.epollhup <==> a.epollhup && !both.epollhup
            &&& rest.epollrdhup <==> a.epollrdhup && !both.epollrdhup
        }),
{
}

/// The numbers of the events are those that user space knows: reading, writing,
/// errors and the end of a connection.
pub proof fn law_event_bits(a: EPollEvent)
    ensures
        a.spec_bits() == (if a.epollin {
            0x1int
        } else {
            0
        }) + (if a.epollout {
            0x4int
        } else {
            0
        }) + (if a.epollerr {
            0x8int
        } else {
            0
        }) + (if a.epollhup {
            0x10int
        } else {
            0
        }) + (if a.epollrdnorm {
            0x40int
        } else {
            0
        }) + (if a.epollwrnorm {
            0x100int
        } else {
            0
        }) + (if a.epollrdhup {
            0x2000int
        } else {
            0
        }),
{
}

} // verus!
