//! Receiving from a socket of any kind, the way a call has planned it.
use vstd::prelude::*;
use crate::error::SyscallErr;
use crate::socket;
use crate::socket::inet::datagram::udp;
use crate::socket::inet::datagram::udp::{UdpModel, UdpSocket};
use crate::socket::inet::raw::raw;
use crate::socket::inet::raw::raw::{RawModel, RawSocket};
use crate::socket::inet::stream as tcp;
use crate::socket::inet::stream::inner::{InnerModel, TcpStatus};
use crate::socket::inet::stream::{FastIo, StackIo, TcpModel, TcpSocket};
use crate::socket::netlink::NetlinkSocket;
use crate::socket::packet;
use crate::socket::packet::{PacketModel, PacketSocket};
use crate::socket::unix::datagram;
use crate::socket::unix::datagram::{SpaceModel, UnixDatagrams};
use crate::socket::unix::stream;
use crate::socket::unix::stream::{StreamsModel, UnixStreams};
use crate::socket::{Endpoint, EndpointModel, PSOCK};
use crate::syscall::common::{MSG_DONTWAIT, MSG_ERRQUEUE, MSG_OOB, MSG_PEEK};
use crate::syscall::recvfrom;
use crate::syscall::recvfrom::RecvVia;
use crate::syscall::sendto;
use crate::wire::{IpEndpoint, IpVersion};

verus! {

/// A socket that data is received from, with what its stack does for it: the
/// bytes of a TCP connection, and the `n` bytes of a raw socket's packet,
/// stand in the buffer already.
pub enum SourceModel {
    Tcp {
        m: TcpModel,
        fast: Option<FastIo>,
        before: Option<TcpStatus>,
        moved: Option<usize>,
        after: Seq<Option<TcpStatus>>,
    },
    Udp(UdpModel),
    Raw { m: RawModel, n: int },
    UnixStream { m: StreamsModel, id: u64 },
    UnixDatagram { m: SpaceModel, id: u64 },
    Netlink(Seq<Seq<u8>>),
    Packet(PacketModel),
}

/// How many bytes came and who sent them, or why none came.
pub type Received = Result<(isize, Option<Endpoint>), SyscallErr>;

/// What a [`Received`] says.
pub type ReceivedModel = Result<(isize, Option<EndpointModel>), SyscallErr>;

pub open spec fn received_model(r: Received) -> ReceivedModel {
    match r {
        Ok((n, from)) => Ok((n, socket::opt_model(from))),
        Err(e) => Err(e),
    }
}

/// A number of bytes without a sender.
pub open spec fn unsigned(r: Result<isize, SyscallErr>) -> ReceivedModel {
    match r {
        Ok(n) => Ok((n, None)),
        Err(e) => Err(e),
    }
}

/// Data in front of a buffer.
pub open spec fn put_front(data: Seq<u8>, buf: Seq<u8>) -> Seq<u8> {
    data + buf.skip(data.len() as int)
}

/// As much of a netlink message as a buffer takes, in front of it.
pub open spec fn netlink_front(msg: Seq<u8>, buf: Seq<u8>) -> Seq<u8> {
    let n = if msg.len() <= buf.len() {
        msg.len() as int
    } else {
        buf.len() as int
    };
    msg.take(n) + buf.skip(n)
}

/// What a look at a socket gives: the buffer then, and the answer.
pub open spec fn looked(s: SourceModel, buf: Seq<u8>) -> (Seq<u8>, ReceivedModel) {
    match s {
        SourceModel::Tcp { m, fast, before, moved, .. } => {
            let (data, answer) = tcp::peeked(m, buf.len() as int, fast, before, moved);
            (put_front(data, buf), unsigned(answer))
        },
        SourceModel::Udp(m) => match udp::shown(m, buf) {
            Some((n, from, out)) => (out, Ok((n as isize, Some(EndpointModel::Ip(from))))),
            None => (buf, Err(SyscallErr::EAGAIN)),
        },
        SourceModel::Raw { m, n } => match raw::packet_in(m, buf, n) {
            Some((k, src, out)) => (
                out,
                Ok((k, Some(EndpointModel::Ip(IpEndpoint { addr: src, port: 0 })))),
            ),
            None => (buf, Err(SyscallErr::EAGAIN)),
        },
        SourceModel::UnixStream { m, id } => {
            let (data, answer) = stream::peeked(m, id, buf.len() as int);
            (put_front(data, buf), unsigned(answer))
        },
        SourceModel::UnixDatagram { m, id } => match datagram::shown(m.sockets[id], buf) {
            Some((n, from, out)) => (out, Ok((n as isize, from))),
            None => (buf, Err(SyscallErr::EAGAIN)),
        },
        SourceModel::Netlink(q) => if q.len() == 0 {
            (buf, Err(SyscallErr::EAGAIN))
        } else {
            (
                netlink_front(q[0], buf),
                Ok((q[0].len() as isize, Some(EndpointModel::Netlink(0)))),
            )
        },
        SourceModel::Packet(m) => match packet::shown(m, buf) {
            Some((n, out)) => (out, Ok((n as isize, None))),
            None => (buf, Err(SyscallErr::EAGAIN)),
        },
    }
}

/// What a receive from a socket does: the socket after, the buffer then, and the
/// answer.
pub open spec fn taken(s: SourceModel, buf: Seq<u8>) -> (SourceModel, Seq<u8>, ReceivedModel) {
    match s {
        SourceModel::Tcp { m, fast, before, moved, after } => {
            let (data, next, answer) = tcp::received(
                m,
                buf.len() as int,
                fast,
                before,
                moved,
                after,
            );
            (
                SourceModel::Tcp { m: next, fast, before, moved, after },
                put_front(data, buf),
                unsigned(answer),
            )
        },
        SourceModel::Udp(m) => {
            let (next, got) = udp::taken(m, buf);
            match got {
                Some((n, from, out)) => (
                    SourceModel::Udp(next),
                    out,
                    Ok((n as isize, Some(EndpointModel::Ip(from)))),
                ),
                None => (SourceModel::Udp(next), buf, Err(SyscallErr::EAGAIN)),
            }
        },
        SourceModel::Raw { m, n } => match raw::packet_in(m, buf, n) {
            Some((k, src, out)) => (
                SourceModel::Raw { m: raw::from_source(m, src), n },
                out,
                Ok((k, Some(EndpointModel::Ip(IpEndpoint { addr: src, port: 0 })))),
            ),
            None => (s, buf, Err(SyscallErr::EAGAIN)),
        },
        SourceModel::UnixStream { m, id } => {
            let (next, data, answer) = stream::read(m, id, buf.len() as int);
            (SourceModel::UnixStream { m: next, id }, put_front(data, buf), unsigned(answer))
        },
        SourceModel::UnixDatagram { m, id } => {
            let (next, got) = datagram::taken(m.sockets[id], buf);
            let after = SpaceModel { sockets: m.sockets.insert(id, next), ..m };
            match got {
                Some((n, from, out)) => (
                    SourceModel::UnixDatagram { m: after, id },
                    out,
                    Ok((n as isize, from)),
                ),
                None => (
                    SourceModel::UnixDatagram { m: after, id },
                    buf,
                    Err(SyscallErr::EAGAIN),
                ),
            }
        },
        SourceModel::Netlink(q) => if q.len() == 0 {
            (s, buf, Err(SyscallErr::EAGAIN))
        } else {
            (
                SourceModel::Netlink(q.drop_first()),
                netlink_front(q[0], buf),
                Ok((q[0].len() as isize, Some(EndpointModel::Netlink(0)))),
            )
        },
        SourceModel::Packet(m) => {
            let (next, got) = packet::taken(m, buf);
            match got {
                Some((n, out)) => (SourceModel::Packet(next), out, Ok((n as isize, None))),
                None => (SourceModel::Packet(next), buf, Err(SyscallErr::EAGAIN)),
            }
        },
    }
}

/// What receiving by the plan of a call does: a look leaves the socket as it is.
pub open spec fn received(s: SourceModel, via: RecvVia, buf: Seq<u8>) -> (
    SourceModel,
    Seq<u8>,
    ReceivedModel,
) {
    if via is Peek {
        let (out, r) = looked(s, buf);
        (s, out, r)
    } else {
        taken(s, buf)
    }
}

fn without_sender(r: Result<isize, SyscallErr>) -> (q: Received)
    ensures
        received_model(q) == unsigned(r),
{
    match r {
        Ok(n) => Ok((n, None)),
        Err(e) => Err(e),
    }
}

/// Receives from a TCP socket; see [`TcpSocket::try_recv`] and
/// [`TcpSocket::try_peek`].
pub fn receive_tcp(
    via: RecvVia,
    s: &mut TcpSocket,
    buf: &mut [u8],
    fast: Option<FastIo>,
    io: &StackIo,
) -> (r: Received)
    requires
        old(buf)@.len() <= isize::MAX,
        io.moved matches Some(n) ==> n <= isize::MAX,
        fast matches Some(f) ==> (f.moved matches Some(n) ==> n <= isize::MAX),
        old(s)@.inner is Listening ==> io.after@.len() == old(s)@.inner.handles().len(),
    ensures
        received(
            SourceModel::Tcp {
                m: old(s)@,
                fast,
                before: io.before,
                moved: io.moved,
                after: io.after@,
            },
            via,
            old(buf)@,
        ) == (
            SourceModel::Tcp {
                m: final(s)@,
                fast,
                before: io.before,
                moved: io.moved,
                after: io.after@,
            },
            final(buf)@,
            received_model(r),
        ),
{
    match via {
        RecvVia::Peek => without_sender(s.try_peek(buf, fast, io)),
        _ => without_sender(s.try_recv(buf, fast, io)),
    }
}

/// Receives from a UDP socket.
pub fn receive_udp(via: RecvVia, s: &mut UdpSocket, buf: &mut [u8]) -> (r: Received)
    requires
        old(buf)@.len() <= isize::MAX,
    ensures
        received(SourceModel::Udp(old(s)@), via, old(buf)@) == (
            SourceModel::Udp(final(s)@),
            final(buf)@,
            received_model(r),
        ),
{
    match via {
        RecvVia::Peek => s.try_peek_recvmsg(buf),
        _ => s.try_recvmsg(buf),
    }
}

/// Receives from a raw socket, whose stack has put a packet of `n` bytes in
/// front of the buffer.
pub fn receive_raw(via: RecvVia, s: &mut RawSocket, buf: &mut [u8], n: usize) -> (r: Received)
    requires
        n <= old(buf)@.len() <= isize::MAX,
        match old(s)@.state.ip_version {
            IpVersion::Ipv4 => n >= 16,
            IpVersion::Ipv6 => n >= 40,
        },
    ensures
        received(SourceModel::Raw { m: old(s)@, n: n as int }, via, old(buf)@) == (
            SourceModel::Raw { m: final(s)@, n: n as int },
            final(buf)@,
            received_model(r),
        ),
{
    match via {
        RecvVia::Peek => match s.peek_packet(buf, n) {
            Some((k, from)) => Ok((k, Some(from))),
            None => Err(SyscallErr::EAGAIN),
        },
        _ => match s.take_packet(buf, n) {
            Some(k) => Ok((k, s.remote_endpoint())),
            None => Err(SyscallErr::EAGAIN),
        },
    }
}

/// Receives from a Unix stream socket.
pub fn receive_unix_stream(via: RecvVia, space: &mut UnixStreams, id: u64, buf: &mut [u8]) -> (r:
    Received)
    requires
        old(space).wf(),
        old(space)@.sockets.contains_key(id),
        old(buf)@.len() <= isize::MAX,
    ensures
        final(space).wf(),
        received(SourceModel::UnixStream { m: old(space)@, id }, via, old(buf)@) == (
            SourceModel::UnixStream { m: final(space)@, id },
            final(buf)@,
            received_model(r),
        ),
{
    match via {
        RecvVia::Peek => without_sender(space.try_peek(id, buf)),
        _ => without_sender(space.try_recv(id, buf)),
    }
}

/// Receives from a Unix datagram socket.
pub fn receive_unix_datagram(
    via: RecvVia,
    space: &mut UnixDatagrams,
    id: u64,
    buf: &mut [u8],
) -> (r: Received)
    requires
        old(space).wf(),
        old(space)@.sockets.contains_key(id),
        old(buf)@.len() <= isize::MAX,
    ensures
        final(space).wf(),
        received(SourceModel::UnixDatagram { m: old(space)@, id }, via, old(buf)@) == (
            SourceModel::UnixDatagram { m: final(space)@, id },
            final(buf)@,
            received_model(r),
        ),
{
    match via {
        RecvVia::Peek => space.try_peek_recvmsg(id, buf),
        _ => space.try_recvmsg(id, buf),
    }
}

/// Receives from a netlink socket.
pub fn receive_netlink(via: RecvVia, s: &mut NetlinkSocket, buf: &mut [u8]) -> (r: Received)
    requires
        old(s).wf(),
    ensures
        final(s).wf(),
        final(s).local_portid == old(s).local_portid,
        received(SourceModel::Netlink(old(s).queue()), via, old(buf)@) == (
            SourceModel::Netlink(final(s).queue()),
            final(buf)@,
            received_model(r),
        ),
{
    match via {
        RecvVia::Peek => s.try_peek_recvmsg(buf),
        _ => s.try_recvmsg(buf),
    }
}

/// Receives from a packet socket.
pub fn receive_packet(via: RecvVia, s: &mut PacketSocket, buf: &mut [u8]) -> (r: Received)
    requires
        old(buf)@.len() <= isize::MAX,
    ensures
        received(SourceModel::Packet(old(s)@), via, old(buf)@) == (
            SourceModel::Packet(final(s)@),
            final(buf)@,
            received_model(r),
        ),
{
    match via {
        RecvVia::Peek => without_sender(s.try_peek(buf)),
        _ => without_sender(s.try_recv(buf)),
    }
}

/// Bytes wait at the socket, in front of everything else.
pub open spec fn bytes_wait(s: SourceModel, buf: Seq<u8>) -> bool {
    match s {
        SourceModel::Tcp { m, fast, before, moved, .. } => !m.core.read_shutdown && (
        if tcp::fast_key(m.core) is Some && fast is Some {
            (fast->0).before.can_recv && ((fast->0).moved matches Some(n) && 0 < n <= isize::MAX)
        } else {
            match m.inner {
                InnerModel::Established(_) => (before matches Some(b) && b.can_recv) && (
                moved matches Some(n) && 0 < n <= isize::MAX),
                InnerModel::SelfConnected(c) => c.queue.len() > 0,
                _ => false,
            }
        }),
        SourceModel::Udp(m) => m.rx.len() > 0 && m.rx[0].data.len() > 0,
        SourceModel::Raw { m, n } => match m.state.ip_version {
            IpVersion::Ipv4 => 16 <= n <= isize::MAX,
            IpVersion::Ipv6 => 40 < n <= isize::MAX && !raw::filtered(m.filter, buf[40]),
        },
        SourceModel::UnixStream { m, id } => m.sockets[id].inner matches stream::inner::InnerModel::Connected(c)
            && stream::ring_of(m.rings, c.rx).data.len() > 0,
        SourceModel::UnixDatagram { m, id } => m.sockets[id].queue.len() > 0
            && m.sockets[id].queue[0].data.len() > 0,
        SourceModel::Netlink(q) => q.len() > 0 && 0 < q[0].len() <= isize::MAX,
        SourceModel::Packet(m) => m.rx.len() > 0 && m.rx[0].len() > 0,
    }
}

/// Two calls of `recvfrom`, the first with the flag that only looks and the
/// second without it and otherwise alike: the first takes nothing away, and the
/// second gives the same bytes from the same sender and returns the same
/// number. Where bytes wait and there is room, that number is positive.
pub proof fn law_peek_then_recvfrom(
    s: SourceModel,
    buf: Seq<u8>,
    t: PSOCK,
    nonblock: bool,
    len: u32,
    flags: u32,
    other: u32,
    src_addr: usize,
    socklen: Option<u32>,
)
    requires
        sendto::flags_of(flags).has(MSG_PEEK),
        !sendto::flags_of(other).has(MSG_PEEK),
        sendto::flags_of(flags).has(MSG_OOB) == sendto::flags_of(other).has(MSG_OOB),
        sendto::flags_of(flags).has(MSG_ERRQUEUE) == sendto::flags_of(other).has(MSG_ERRQUEUE),
        sendto::flags_of(flags).has(MSG_DONTWAIT) == sendto::flags_of(other).has(MSG_DONTWAIT),
        recvfrom::recvfrom_plan(t, nonblock, len, flags, src_addr, socklen) is Ok,
        buf.len() <= isize::MAX,
    ensures
        ({
            let second = recvfrom::recvfrom_plan(t, nonblock, len, other, src_addr, socklen);
            let a = recvfrom::recvfrom_plan(t, nonblock, len, flags, src_addr, socklen)->Ok_0;
            let b = second->Ok_0;
            let (s1, out1, r1) = received(s, a.via, buf);
            let (_, out2, r2) = received(s1, b.via, buf);
            &&& second is Ok
            &&& a.len == b.len
            &&& s1 == s
            &&& out1 == out2
            &&& r1 == r2
            &&& r1 matches Ok((n, _)) ==> recvfrom::recvfrom_end(a.via, n, true)
                == recvfrom::recvfrom_end(b.via, n, true)
            &&& bytes_wait(s, buf) && buf.len() > 0 ==> (r1 matches Ok((n, _)) && n > 0)
        }),
{
    recvfrom::law_peek_asks_for_the_same(t, nonblock, len, flags, other, src_addr, socklen);
    match s {
        SourceModel::Tcp { m, fast, before, moved, after } => {
            tcp::law_peek_then_receive(m, buf.len() as int, fast, before, moved, after);
        },
        SourceModel::Udp(m) => {
            udp::law_peek_then_receive(m, buf);
        },
        SourceModel::UnixStream { m, id } => {
            stream::law_peek_then_read(m, id, buf.len() as int);
        },
        SourceModel::UnixDatagram { m, id } => {
            datagram::law_peek_then_receive(m.sockets[id], buf);
        },
        SourceModel::Packet(m) => {
            packet::law_peek_then_receive(m, buf);
        },
        SourceModel::Raw { .. } | SourceModel::Netlink(_) => {},
    }
}

} // verus!
