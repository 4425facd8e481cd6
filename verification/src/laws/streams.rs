//! TCP sockets: naming, handshakes, accepting, moving bytes and ending.
use vstd::prelude::*;
use crate::error::SyscallErr;
use crate::iface::DeviceModel;
use crate::routing::RouteSocketHandle;
use crate::seqs;
use crate::socket::inet::stream;
use crate::socket::inet::stream::events;
use crate::socket::inet::stream::inner;
use crate::socket::inet::stream::inner::{
    ConnectResult,
    Connecting,
    Established,
    Init,
    InnerModel,
    ListeningModel,
    Replacement,
    SelfModel,
    TcpOp,
    TcpState,
    TcpStatus,
};
use crate::socket::inet::stream::io;
use crate::socket::inet::stream::lifecycle;
use crate::socket::inet::stream::{TcpCore, TcpModel};
use crate::event::EPollEvent;
use crate::socket::EndpointModel;
use crate::wire::{IpAddress, IpEndpoint, IpVersion};

verus! {

/// A socket is bound to the port and the address that are asked for: a port of
/// zero takes the free one, an IPv4 address inside an IPv6 address is taken
/// out, and all zeros stay all zeros. An address of the other family is
/// refused, and so is a second bind.
pub proof fn law_socket_is_bound_as_asked(
    m: TcpModel,
    devs: Seq<DeviceModel>,
    e: IpEndpoint,
    free: u16,
)
    requires
        m.core.ip_version == IpVersion::Ipv4,
        e.addr matches IpAddress::Ipv4(a) && a.bits >= 16777216,
    ensures
        match stream::bound(m, devs, EndpointModel::Ip(e), free) {
            (n, Ok(k)) => {
                &&& k == 0
                &&& m.inner matches InnerModel::Init(Init::Unbound(_, _))
                &&& n.inner.local(None).addr == e.addr
                &&& n.inner.local(None).port == if e.port != 0 {
                    e.port
                } else {
                    free
                }
                &&& n.core.bound.bound_addr == Some(e.addr)
                &&& n.core.bound.bound_port == n.inner.local(None).port
                &&& n.core.bound_ifindex == m.core.bound_ifindex
                &&& n.core.reuse_addr == m.core.reuse_addr
                &&& stream::bound(n, devs, EndpointModel::Ip(e), free) == (
                    n,
                    Err::<usize, SyscallErr>(SyscallErr::EINVAL),
                )
            },
            (n, Err(x)) => {
                &&& n == m
                &&& x == SyscallErr::EINVAL
                &&& !(m.inner matches InnerModel::Init(Init::Unbound(_, _)))
            },
        },
{
}

/// An IPv4 socket does not take an IPv6 address, unless that carries an IPv4
/// address, which it takes in its place; an IPv6 socket that wants IPv6 only
/// does not take an IPv4 address.
pub proof fn law_bind_looks_at_the_family(
    m: TcpModel,
    devs: Seq<DeviceModel>,
    bits: u128,
    port: u16,
    free: u16,
)
    requires
        port != 0,
        bits > 0xffff_0100_0000,
    ensures
        ({
            let a = IpAddress::Ipv6(crate::wire::Ipv6Address { bits });
            let r = stream::bound(m, devs, EndpointModel::Ip(IpEndpoint { addr: a, port }), free);
            &&& m.core.ip_version == IpVersion::Ipv4 && bits > 0xffff_ffff_ffff ==> r == (
                m,
                Err::<usize, SyscallErr>(SyscallErr::EAFNOSUPPORT),
            )
            &&& m.core.ip_version == IpVersion::Ipv6 && m.core.ipv6_v6only && bits
                <= 0xffff_ffff_ffff ==> r == (m, Err::<usize, SyscallErr>(SyscallErr::EAFNOSUPPORT))
            &&& bits <= 0xffff_ffff_ffff && r.1 is Ok ==> {
                &&& r.0.inner.local(None).addr matches IpAddress::Ipv4(b)
                &&& b.bits == bits - 0xffff_0000_0000
                &&& r.0.inner.local(None).port == port
            }
            &&& bits > 0xffff_ffff_ffff && r.1 is Ok ==> r.0.inner.local(None) == (IpEndpoint {
                addr: a,
                port,
            })
        }),
{
}

/// A socket connects to the port and address that are asked for; all zeros stand
/// for the loopback address of the family.
pub proof fn law_connect_target(c: TcpCore, e: IpEndpoint)
    ensures
        match stream::connect_target(c, EndpointModel::Ip(e)) {
            Ok(t) => {
                &&& t.port == e.port
                &&& e.addr matches IpAddress::Ipv4(a) ==> t.addr == if a.bits < 16777216 {
                    IpAddress::Ipv4(crate::wire::Ipv4Address { bits: 0x7f00_0001 })
                } else {
                    e.addr
                }
                &&& e.addr matches IpAddress::Ipv6(a) ==> if a.bits == 0 {
                    t.addr == IpAddress::Ipv6(crate::wire::Ipv6Address { bits: 1 })
                } else if a.bits < 0xffff_0000_0000 || a.bits > 0xffff_ffff_ffff {
                    t.addr == e.addr
                } else {
                    t.addr is Ipv4
                }
                &&& c.ip_version == IpVersion::Ipv4 ==> t.addr is Ipv4
                &&& c.ip_version == IpVersion::Ipv6 && c.ipv6_v6only ==> t.addr is Ipv6
            },
            Err(x) => x == SyscallErr::EAFNOSUPPORT && (c.ip_version == IpVersion::Ipv4
                || c.ipv6_v6only),
        },
{
}

/// A handshake that the peer has completed gives a connection between the two
/// ends that it was begun with, over the same handle.
pub proof fn law_handshake_succeeds(m: TcpModel, c: Connecting, s: TcpStatus)
    requires
        m.inner == InnerModel::Connecting(c),
        s.state is Established || s.state is CloseWait,
    ensures
        ({
            let (n, gone, r) = stream::connect_tried(m, Some(s));
            &&& r == Ok::<isize, SyscallErr>(0)
            &&& gone.len() == 0
            &&& n.inner matches InnerModel::Established(e)
            &&& e.handle == c.handle
            &&& e.local == c.local
            &&& e.peer == c.remote
        }),
        ({
            let (n, gone, r) = stream::connect_checked(m, Some(s));
            &&& r == Ok::<usize, SyscallErr>(0)
            &&& gone.len() == 0
            &&& n.inner matches InnerModel::Established(e)
            &&& e.handle == c.handle
            &&& e.local == c.local
            &&& e.peer == c.remote
        }),
{
}

/// A handshake that the peer refused leaves a fresh socket of the same family,
/// and the stack gives the handle up.
pub proof fn law_handshake_is_refused(m: TcpModel, c: Connecting, s: TcpStatus)
    requires
        m.inner == InnerModel::Connecting(c),
        !c.was_established,
        c.result is Connecting,
        s.state is Closed || s.state is TimeWait,
    ensures
        ({
            let (n, gone, r) = stream::connect_tried(m, Some(s));
            &&& r == Err::<isize, SyscallErr>(SyscallErr::ECONNREFUSED)
            &&& gone == seq![c.handle]
            &&& n.inner matches InnerModel::Init(Init::Unbound(_, ver))
            &&& ver == IpVersion::Ipv4 <==> c.local.addr is Ipv4
        }),
{
}

/// A handshake under way stays as it is, and the caller is told to wait.
pub proof fn law_handshake_goes_on(m: TcpModel, c: Connecting, s: TcpStatus)
    requires
        m.inner == InnerModel::Connecting(c),
        !c.was_established,
        c.result is Connecting,
        s.state is SynSent || s.state is SynReceived,
    ensures
        ({
            let (n, gone, r) = stream::connect_tried(m, Some(s));
            &&& r == Err::<isize, SyscallErr>(SyscallErr::EAGAIN)
            &&& gone.len() == 0
            &&& n.inner == InnerModel::Connecting(c)
            &&& !n.core.pollee.epollout && !n.core.pollee.epollin && !n.core.pollee.epollerr
        }),
{
}

/// Accepting takes the connection of the first listener that has one: its handle
/// and its peer. The listener goes on at the same address, with a new handle in
/// that place where the stack took one; where the new one does not listen,
/// nothing is accepted.
pub proof fn law_first_connection_is_accepted(
    l: ListeningModel,
    status: Seq<Option<TcpStatus>>,
    replacement: Replacement,
    i: int,
)
    requires
        0 <= i < status.len(),
        status.len() == l.handles.len(),
        status[i] is Some,
        status[i]->0.state is Established || status[i]->0.state is CloseWait,
        status[i]->0.remote is Some,
        forall|j: int|
            0 <= j < i ==> (#[trigger] status[j]) is None || !(status[j]->0.state is Established
                || status[j]->0.state is CloseWait),
    ensures
        ({
            let (n, r) = inner::accepted(l, status, replacement);
            &&& n.listen_addr == l.listen_addr
            &&& n.handles.len() == l.handles.len()
            &&& replacement is Refused ==> n == l && r is Err && r->Err_0 == SyscallErr::EADDRINUSE
            &&& !(replacement is Refused) ==> r is Ok && r->Ok_0.0 == l.handles[i] && r->Ok_0.1
                == status[i]->0.remote->0
            &&& replacement matches Replacement::Added(h) ==> n.handles[i] == h
            &&& replacement is NotAdded ==> n.handles == l.handles
            &&& forall|j: int|
                0 <= j < l.handles.len() && j != i ==> #[trigger] n.handles[j] == l.handles[j]
        }),
{
    seqs::lemma_first_index(status, inner::connected(), i);
}

/// Without a connection nothing is accepted, and the caller is told to wait.
pub proof fn law_nothing_to_accept(
    l: ListeningModel,
    status: Seq<Option<TcpStatus>>,
    replacement: Replacement,
)
    requires
        forall|j: int|
            0 <= j < status.len() ==> (#[trigger] status[j]) is None || !(
            status[j]->0.state is Established || status[j]->0.state is CloseWait),
    ensures
        inner::accepted(l, status, replacement).0 == l,
        inner::accepted(l, status, replacement).1 is Err,
        inner::accepted(l, status, replacement).1->Err_0 == SyscallErr::EAGAIN,
{
    seqs::lemma_no_index(status, inner::connected());
}

/// The socket of an accepted connection has the ends of the connection, is open
/// both ways, speaks the family of the listener, and has no options set.
pub proof fn law_accepted_socket(listener: TcpCore, e: Established, ifindex: Option<u32>)
    ensures
        ({
            let n = stream::accepted_socket(listener, e, ifindex);
            &&& n.inner.local(None) == e.local
            &&& n.inner.remote(None) == Some(e.peer)
            &&& n.inner.handles() == seq![e.handle]
            &&& n.core.bound.bound_port == e.local.port
            &&& n.core.bound.bound_addr == Some(e.local.addr)
            &&& n.core.bound.socket_handle == Some(e.handle.0)
            &&& ifindex matches Some(i) ==> n.core.bound.ifindex == i && n.core.fast_ifindex == i
                && n.core.fast_route_id == e.handle.0
            &&& ifindex is None ==> n.core.fast_state == 0
            &&& !n.core.read_shutdown && !n.core.write_shutdown
            &&& n.core.ip_version == listener.ip_version
            &&& n.core.ipv6_v6only == listener.ipv6_v6only
            &&& n.core.bound_ifindex is None
        }),
{
}

/// The ends of a socket, by its state: a bound socket has its own end, a
/// connection both, as the stack has them or else as they were begun with, and
/// a socket connected to itself the same end twice.
pub proof fn law_ends(m: InnerModel, status: Option<TcpStatus>)
    ensures
        m matches InnerModel::Init(Init::Unbound(_, _)) ==> m.local(status).port == 0 && m.remote(
            status,
        ) is None,
        m matches InnerModel::Init(Init::Bound { local, .. }) ==> m.local(status) == local,
        m is Init ==> m.remote(status) is None,
        m matches InnerModel::Connecting(c) ==> m.local(status) == c.local && m.remote(status)
            == Some(c.remote),
        m matches InnerModel::Listening(l) ==> {
            &&& m.local(status).port == l.listen_addr.port
            &&& l.listen_addr.addr matches Some(a) ==> m.local(status).addr == a
            &&& m.remote(status) is None
        },
        m matches InnerModel::Established(e) ==> {
            &&& status is None ==> m.local(status) == e.local && m.remote(status) == Some(e.peer)
            &&& status matches Some(s) ==> m.local(status) == (if s.local is Some {
                s.local->0
            } else {
                e.local
            }) && m.remote(status) == Some(
                if s.remote is Some {
                    s.remote->0
                } else {
                    e.peer
                },
            )
        },
        m matches InnerModel::SelfConnected(s) ==> m.local(status) == s.local && m.remote(status)
            == Some(s.local),
{
}

/// What a receive on a connection is answered: as many bytes as the stack gave
/// where there are some; the end where the peer has finished; that the
/// connection was reset where it is gone; and else to wait.
pub proof fn law_receive_answers(m: TcpModel, e: Established, s: TcpStatus, room: int, got: usize)
    requires
        m.inner == InnerModel::Established(e),
        !m.core.read_shutdown,
        m.core.fast_state == 0,
        got <= isize::MAX,
    ensures
        ({
            let (data, n, r) = stream::received(m, room, None, Some(s), Some(got), seq![Some(s)]);
            &&& data.len() == 0
            &&& n.inner == m.inner
            &&& s.can_recv ==> r is Ok && r->Ok_0 == got
            &&& !s.can_recv && (s.state is CloseWait || s.state is Closing || s.state is LastAck
                || s.state is TimeWait) ==> r is Ok && r->Ok_0 == 0
            &&& !s.can_recv && s.state is Closed ==> r is Err && r->Err_0 == SyscallErr::ECONNRESET
            &&& !s.can_recv && s.state is Established && s.may_recv ==> r is Err && r->Err_0
                == SyscallErr::EAGAIN
        }),
{
}

/// What a send on a connection is answered: as many bytes as the stack took where
/// it takes some; that it was reset where it is gone; that it is broken where
/// it was ended here; and else to wait.
pub proof fn law_send_answers(
    m: TcpModel,
    e: Established,
    s: TcpStatus,
    data: Seq<u8>,
    took: usize,
)
    requires
        m.inner == InnerModel::Established(e),
        !m.core.write_shutdown,
        m.core.fast_state == 0,
        took <= isize::MAX,
    ensures
        ({
            let (n, gone, r) = stream::sent(
                m,
                data,
                None,
                None,
                Some(s),
                Some(took),
                seq![Some(s)],
            );
            &&& gone.len() == 0
            &&& n.inner == m.inner
            &&& s.can_send ==> r is Ok && r->Ok_0 == took
            &&& !s.can_send && s.state is Closed ==> r is Err && r->Err_0 == SyscallErr::ECONNRESET
            &&& !s.can_send && (s.state is LastAck || s.state is Closing || s.state is TimeWait)
                ==> r is Err && r->Err_0 == SyscallErr::EPIPE
            &&& !s.can_send && (s.state is Established || s.state is CloseWait) ==> r is Err
                && r->Err_0 == SyscallErr::EAGAIN
        }),
{
}

/// Sockets that have no connection move no bytes.
pub proof fn law_no_connection_no_bytes(m: TcpModel, data: Seq<u8>, room: int)
    requires
        m.core.fast_state == 0,
        !m.core.read_shutdown,
        !m.core.write_shutdown,
    ensures
        m.inner is Init ==> stream::sent(
            m,
            data,
            None,
            None,
            None,
            None,
            Seq::empty(),
        ).2 == Err::<isize, SyscallErr>(SyscallErr::EPIPE),
        m.inner is Listening ==> stream::sent(
            m,
            data,
            None,
            None,
            None,
            None,
            Seq::empty(),
        ).2 == Err::<isize, SyscallErr>(SyscallErr::EINVAL),
        m.inner is Init || m.inner is Listening ==> stream::received(
            m,
            room,
            None,
            None,
            None,
            Seq::empty(),
        ).2 == Err::<isize, SyscallErr>(SyscallErr::EINVAL),
        m.inner is Connecting ==> stream::received(m, room, None, None, None, Seq::empty()).2
            == Err::<isize, SyscallErr>(SyscallErr::EAGAIN),
{
}

/// A socket whose receiving side was ended gets the end, and one whose sending
/// side was ended cannot send; ending one side leaves the other.
pub proof fn law_ended_sides(
    m: TcpModel,
    how: u32,
    room: int,
    data: Seq<u8>,
    s: Option<TcpStatus>,
    k: Option<usize>,
)
    requires
        m.inner is Established || m.inner is SelfConnected,
        how <= 2,
    ensures
        ({
            let (n, r) = stream::shut(m, how);
            &&& r is Ok
            &&& n.core.read_shutdown <==> m.core.read_shutdown || how == 0 || how == 2
            &&& n.core.write_shutdown <==> m.core.write_shutdown || how == 1 || how == 2
            &&& how == 0 || how == 2 ==> {
                let (got, after, answer) = stream::received(n, room, None, s, k, Seq::empty());
                got.len() == 0 && after == n && answer == Ok::<isize, SyscallErr>(0)
            }
            &&& how == 1 || how == 2 ==> {
                let (after, gone, answer) = stream::sent(n, data, None, None, s, k, Seq::empty());
                after == n && answer == Err::<isize, SyscallErr>(SyscallErr::EPIPE)
            }
        }),
{
}

/// A socket connected to itself takes no more bytes than it has room for, in
/// order, and gives them back in that order; looking at them leaves them.
pub proof fn law_self_connection(m: SelfModel, data: Seq<u8>, room: int)
    requires
        m.queue.len() <= m.rx_cap,
        room > 0,
        room <= usize::MAX,
    ensures
        ({
            let (n, r) = inner::self_sent(m, data);
            let (shown, after, k) = inner::self_received(m, room, true);
            let (got, left, j) = inner::self_received(m, room, false);
            &&& n.queue.len() <= n.rx_cap && n.rx_cap == m.rx_cap && n.local == m.local
            &&& m.send_shutdown ==> n == m && r is Err && r->Err_0 == SyscallErr::EPIPE
            &&& r matches Ok(c) ==> n.queue == m.queue + data.take(c as int)
            &&& !m.send_shutdown && data.len() > 0 && m.queue.len() == m.rx_cap ==> r is Err
                && r->Err_0 == SyscallErr::EAGAIN
            &&& !m.send_shutdown && data.len() <= m.rx_cap - m.queue.len() ==> r is Ok && r->Ok_0
                == data.len()
            &&& after == m && shown == got && k == j
            &&& got + left.queue == m.queue
            &&& got.len() <= room
            &&& m.queue.len() > 0 ==> j is Ok && j->Ok_0 == got.len() && (got.len() == room
                || left.queue.len() == 0)
            &&& m.queue.len() == 0 && m.send_shutdown ==> j is Ok && j->Ok_0 == 0
            &&& m.queue.len() == 0 && !m.send_shutdown ==> j is Err && j->Err_0
                == SyscallErr::EAGAIN
        }),
{
    let (got, left, j) = inner::self_received(m, room, false);
    assert(got + left.queue =~= m.queue);
    let (n, r) = inner::self_sent(m, data);
    if r is Ok {
        assert(n.queue =~= m.queue + data.take(r->Ok_0 as int));
    }
}

/// What a poll of a connection tells: that it can be written where the stack takes
/// bytes, that it can be read where bytes wait or the peer has finished, that
/// the peer has finished, and that it is gone.
pub proof fn law_connection_poll(e: Established, p: EPollEvent, s: TcpStatus)
    requires
        !(s.state is Listen || s.state is SynSent || s.state is FinWait1 || s.state is FinWait2),
    ensures
        ({
            let (n, q) = events::polled(InnerModel::Established(e), p, seq![Some(s)]);
            let ended = s.state is CloseWait || s.state is Closing || s.state is LastAck
                || s.state is TimeWait || s.state is Closed;
            &&& n == InnerModel::Established(e)
            &&& q.epollout == s.can_send && q.epollwrnorm == s.can_send
            &&& q.epollin == (s.can_recv || ended) && q.epollrdnorm == q.epollin
            &&& q.epollrdhup == ended
            &&& q.epollhup == (s.state is TimeWait || s.state is Closed)
            &&& !q.epollerr
        }),
{
    assert(seq![Some(s)][0] == Some(s));
}

/// What a poll of a listener tells: that it can be read where some listener is
/// past listening; it stays at its address.
pub proof fn law_listener_poll(
    l: ListeningModel,
    p: EPollEvent,
    status: Seq<Option<TcpStatus>>,
)
    ensures
        ({
            let (n, q) = events::polled(InnerModel::Listening(l), p, status);
            &&& q.epollin <==> exists|i: int|
                0 <= i < status.len() && (#[trigger] status[i]) is Some && !(
                status[i]->0.state is Closed || status[i]->0.state is TimeWait
                    || status[i]->0.state is Listen)
            &&& q.epollrdnorm == q.epollin
            &&& q.epollout == p.epollout
            &&& n matches InnerModel::Listening(k)
            &&& k.handles == l.handles && k.listen_addr == l.listen_addr
        }),
{
    seqs::lemma_first_index_found(status, inner::busy());
}

/// What a poll of a handshake tells: nothing while it is under way, that the
/// socket can be written once it is connected, and everything but more data to
/// come once it was refused.
pub proof fn law_handshake_poll(c: Connecting, p: EPollEvent, s: TcpStatus)
    requires
        !c.was_established,
        c.result is Connecting,
    ensures
        ({
            let (n, q) = events::polled(InnerModel::Connecting(c), p, seq![Some(s)]);
            let up = s.state is Established || s.state is CloseWait;
            let gone = s.state is Closed || s.state is TimeWait;
            &&& q.epollout <==> up || gone
            &&& q.epollin <==> gone
            &&& q.epollerr <==> gone
            &&& q.epollhup <==> gone
            &&& n matches InnerModel::Connecting(k)
            &&& k.handle == c.handle && k.local == c.local && k.remote == c.remote
        }),
{
    assert(seq![Some(s)][0] == Some(s));
}

/// The state numbers that user space knows: 1 for a connection, 2 for a handshake,
/// 10 for a listener, 7 for a socket without a connection, 8 where the peer has
/// finished, 4 and 5 where this side has, 9 and 11 where both have.
pub proof fn law_state_numbers(m: InnerModel, e: Established, s: TcpStatus)
    ensures
        m is Init || m is Closed ==> m.state_code(None) == 7,
        m is Connecting ==> m.state_code(None) == 2,
        m is Listening ==> m.state_code(None) == 10,
        m is SelfConnected ==> m.state_code(None) == 1,
        ({
            let k = InnerModel::Established(e).state_code(Some(s));
            &&& s.state is Established <==> k == 1
            &&& s.state is CloseWait <==> k == 8
            &&& s.state is FinWait1 <==> k == 4
            &&& s.state is FinWait2 <==> k == 5
            &&& s.state is Closing <==> k == 11
            &&& s.state is LastAck <==> k == 9
            &&& s.state is Closed ==> k == 7
        }),
{
}

/// Closing gives up what the stack holds: a connection or a handshake is closed,
/// over its own handle; a socket without one has nothing to give up.
pub proof fn law_close_orders(m: InnerModel, status: Seq<Option<TcpStatus>>)
    ensures
        m matches InnerModel::Established(e) ==> m.close_orders(status).len() == 1
            && m.close_orders(status)[0].handle == e.handle && m.close_orders(status)[0].op
            == TcpOp::Close,
        m matches InnerModel::Connecting(c) ==> m.close_orders(status).len() == 1
            && m.close_orders(status)[0].handle == c.handle && m.close_orders(status)[0].op
            == TcpOp::Close,
        m is Init || m is Closed ==> m.close_orders(status).len() == 0,
{
}

/// Closing a listener tells every one of its sockets that the stack has: those
/// that are past listening are broken off, the others closed.
pub proof fn law_closing_listeners(
    handles: Seq<RouteSocketHandle>,
    status: Seq<Option<TcpStatus>>,
    k: int,
)
    requires
        handles.len() == status.len(),
        0 <= k < handles.len(),
        status[k] is Some,
    ensures
        exists|j: int|
            {
                &&& 0 <= j < inner::closing_orders(handles, status).len()
                &&& (#[trigger] inner::closing_orders(handles, status)[j]).handle == handles[k]
                &&& inner::closing_orders(handles, status)[j].op == TcpOp::Close
                    <==> status[k]->0.state is Closed || status[k]->0.state is TimeWait
                    || status[k]->0.state is Listen
            },
        inner::closing_orders(handles, status).len() <= handles.len(),
{
    lemma_closing(handles, status, k);
}

proof fn lemma_closing(
    handles: Seq<RouteSocketHandle>,
    status: Seq<Option<TcpStatus>>,
    k: int,
)
    requires
        handles.len() <= status.len(),
        0 <= k < handles.len() ==> status[k] is Some,
    ensures
        0 <= k < handles.len() ==> exists|j: int|
            {
                &&& 0 <= j < inner::closing_orders(handles, status).len()
                &&& (#[trigger] inner::closing_orders(handles, status)[j]).handle == handles[k]
                &&& inner::closing_orders(handles, status)[j].op == TcpOp::Close
                    <==> status[k]->0.state is Closed || status[k]->0.state is TimeWait
                    || status[k]->0.state is Listen
            },
        inner::closing_orders(handles, status).len() <= handles.len(),
    decreases handles.len(),
{
    if handles.len() > 0 {
        let rest = inner::closing_orders(handles.drop_last(), status);
        let all = inner::closing_orders(handles, status);
        if k == handles.len() - 1 {
            lemma_closing(handles.drop_last(), status, -1);
            assert(all[all.len() - 1].handle == handles[k]);
        } else {
            lemma_closing(handles.drop_last(), status, k);
            if 0 <= k < handles.len() {
                let j = choose|j: int|
                    {
                        &&& 0 <= j < rest.len()
                        &&& (#[trigger] rest[j]).handle == handles.drop_last()[k]
                        &&& rest[j].op == TcpOp::Close <==> status[k]->0.state is Closed
                            || status[k]->0.state is TimeWait || status[k]->0.state is Listen
                    };
                assert(all[j] == rest[j]);
            }
        }
    }
}

/// An option is set on every handle of a socket, and as it was asked for.
pub proof fn law_options_reach_every_handle(m: InnerModel, op: TcpOp, k: int)
    requires
        m is Listening || m is Connecting || m is Established,
        0 <= k < m.handles().len(),
    ensures
        ({
            let orders = lifecycle::option_orders(lifecycle::option_handles(m), op);
            &&& orders.len() == m.handles().len()
            &&& orders[k].handle == m.handles()[k]
            &&& orders[k].op == op
        }),
{
}

/// What the stack is asked to move bytes over is the handle of the connection;
/// a side that was ended asks nothing.
pub proof fn law_bytes_move_over_the_connection(m: TcpModel, e: Established)
    requires
        m.inner == InnerModel::Established(e),
    ensures
        m.core.read_shutdown ==> stream::recv_ask(m) is Nothing,
        m.core.write_shutdown ==> stream::send_ask(m, None) is Nothing,
        !m.core.read_shutdown && m.core.fast_state == 0 ==> stream::recv_ask(m)
            == stream::StackAsk::Own(e.handle),
        !m.core.write_shutdown && m.core.fast_state == 0 ==> stream::send_ask(m, None)
            == stream::StackAsk::Own(e.handle),
{
}

/// What a program sends out of its memory is sent as if it were in a buffer: after
/// the end of its own side nothing is, and memory that cannot be read is
/// refused.
pub proof fn law_user_send(
    m: TcpModel,
    data: Seq<u8>,
    handshake: Option<TcpStatus>,
    before: Option<TcpStatus>,
    moved: Option<usize>,
    after: Seq<Option<TcpStatus>>,
)
    ensures
        m.core.write_shutdown ==> stream::user_sent(m, Some(data), handshake, before, moved, after)
            == (m, Seq::<RouteSocketHandle>::empty(), Err::<isize, SyscallErr>(SyscallErr::EPIPE)),
        !m.core.write_shutdown ==> stream::user_sent(m, None, handshake, before, moved, after).2
            == Err::<isize, SyscallErr>(SyscallErr::EFAULT),
        m.core.fast_state == 0 ==> stream::user_sent(m, Some(data), handshake, before, moved, after)
            == stream::sent(m, data, handshake, None, before, moved, after),
{
}

/// What a `connect` is told of the handshake, and what a poll sees of one that
/// failed: an error, and no waiting to write. One that can be tried again
/// changes nothing.
pub proof fn law_connect_is_told(c: TcpCore, e: SyscallErr)
    ensures
        inner::connect_answer(ConnectResult::Connected) == Ok::<(), SyscallErr>(()),
        inner::connect_answer(ConnectResult::Connecting) == Err::<(), SyscallErr>(
            SyscallErr::EAGAIN,
        ),
        inner::connect_answer(ConnectResult::Refused) == Err::<(), SyscallErr>(
            SyscallErr::ECONNREFUSED,
        ),
        stream::connect_failed(c, SyscallErr::EAGAIN) == c,
        e != SyscallErr::EAGAIN ==> {
            let p = stream::connect_failed(c, e).pollee;
            &&& p.epollerr && p.epollout && !p.epollin && !p.epollhup
            &&& stream::connect_failed(c, e).bound == c.bound
            &&& stream::connect_failed(c, e).read_shutdown == c.read_shutdown
            &&& stream::connect_failed(c, e).write_shutdown == c.write_shutdown
        },
{
}

/// The sizes of the buffers are those of the stack's socket, where there is one,
/// and those that were asked for before.
pub proof fn law_buffer_sizes(i: Init, e: Established, c: Connecting, s: TcpStatus)
    ensures
        InnerModel::Established(e).capacities(Some(s)) == (s.send_capacity, s.recv_capacity),
        InnerModel::Connecting(c).capacities(Some(s)) == (s.send_capacity, s.recv_capacity),
        InnerModel::Established(e).capacities(None) == (0usize, 0usize),
        InnerModel::Init(i).capacities(None) == (i.buffers().tx, i.buffers().rx),
        InnerModel::Init(i).capacities(Some(s)) == (i.buffers().tx, i.buffers().rx),
{
}

/// The states in a trace are numbered as a connection passes through them.
pub proof fn law_trace_numbers(s: TcpState, t: TcpState)
    ensures
        inner::state_number(s) == inner::state_number(t) ==> s == t,
        inner::state_number(TcpState::Closed) == 0,
        inner::state_number(TcpState::Listen) == 1,
        inner::state_number(TcpState::SynSent) == 2,
        inner::state_number(TcpState::Established) == 4,
        inner::state_number(TcpState::CloseWait) == 7,
        inner::state_number(TcpState::TimeWait) == 10,
{
}

/// What a poll sees of a handshake: nothing while it goes on, room to write once it
/// is through, and everything where it was refused; the error is raised once.
pub proof fn law_handshake_events()
    ensures
        ({
            let going = inner::connect_events(ConnectResult::Connecting);
            &&& !going.epollin && !going.epollrdnorm && !going.epollout && !going.epollwrnorm
            &&& !going.epollerr && !going.epollhup && !going.epollrdhup
        }),
        ({
            let done = inner::connect_events(ConnectResult::Connected);
            &&& done.epollout && done.epollwrnorm
            &&& !done.epollin && !done.epollerr && !done.epollhup && !done.epollrdhup
        }),
        ({
            let refused = inner::connect_events(ConnectResult::Refused);
            &&& refused.epollerr && refused.epollhup && refused.epollrdhup
            &&& refused.epollin && refused.epollrdnorm && refused.epollout && refused.epollwrnorm
        }),
        inner::connect_events(ConnectResult::RefusedConsumed) == (EPollEvent {
            epollerr: false,
            ..inner::connect_events(ConnectResult::Refused)
        }),
{
}

/// The first look at a handshake either finds the connection, or that it was
/// refused, and then the handle is given up, or has to be taken again. A socket
/// that does not connect stays as it is.
pub proof fn law_first_look(m: TcpModel, status: Option<TcpStatus>)
    ensures
        ({
            let (n, gone, r) = stream::connect_checked(m, status);
            &&& !(m.inner is Connecting) ==> n == m && gone.len() == 0 && r is Err && r->Err_0
                == SyscallErr::EAGAIN
            &&& r is Ok ==> r->Ok_0 == 0 && n.inner is Established && gone.len() == 0
            &&& m.inner is Connecting && n.inner is Established ==> r is Ok
                && n.inner->Established_0.handle == m.inner->Connecting_0.handle
                && n.inner->Established_0.local == m.inner->Connecting_0.local
                && n.inner->Established_0.peer == m.inner->Connecting_0.remote
            &&& m.inner is Connecting && n.inner is Init ==> r is Err && r->Err_0
                == SyscallErr::ECONNREFUSED && gone == seq![m.inner->Connecting_0.handle]
            &&& m.inner is Connecting && n.inner is Connecting ==> r is Err && r->Err_0
                == SyscallErr::EAGAIN && gone.len() == 0
        }),
{
}

/// A new socket has no name and no end shut, and nobody waits for it.
pub proof fn law_fresh_socket(ver: IpVersion)
    ensures
        ({
            let c = stream::fresh_core(ver);
            &&& c.ip_version == ver
            &&& !c.read_shutdown && !c.write_shutdown && !c.reuse_addr
            &&& !c.multicast_group_joined && !c.ipv6_v6only
            &&& c.bound.socket_handle is None && c.bound.bound_addr is None && c.bound.bound_port
                == 0
            &&& c.bound_ifindex is None
            &&& c.fast_state == 0
            &&& !c.pollee.epollin && !c.pollee.epollout && !c.pollee.epollerr && !c.pollee.epollhup
        }),
{
}

/// When a socket goes, everybody who waits for it is woken and told that it hung
/// up.
pub proof fn law_everybody_is_woken()
    ensures
        ({
            let w = stream::all_wakes();
            &&& w.recv.epollhup && w.recv.epollin && w.recv.epollrdnorm
            &&& w.send.epollhup && w.send.epollout && w.send.epollwrnorm
            &&& w.connect.epollhup && w.connect.epollout && w.connect.epollerr
            &&& w.accept.epollhup && w.accept.epollin && w.accept.epollrdnorm
        }),
{
}

/// A connection can be written to where the stack takes data and its own side has
/// not ended.
pub proof fn law_writable(s: TcpStatus)
    ensures
        s.can_send && s.state is Established ==> stream::writable_now(s),
        s.can_send && s.state is CloseWait ==> stream::writable_now(s),
        !s.can_send ==> !stream::writable_now(s),
        s.state is Closed || s.state is TimeWait || s.state is Closing || s.state is LastAck
            ==> !stream::writable_now(s),
{
}

/// A receive that the stack made for a connection it was led to directly is answered
/// by what that gave; any other is answered through the state of the socket.
/// After the end of the reading side nothing comes.
pub proof fn law_receive_answer(
    m: TcpModel,
    room: int,
    f: stream::FastIo,
    before: Option<TcpStatus>,
    moved: Option<usize>,
    after: Seq<Option<TcpStatus>>,
)
    ensures
        ({
            let direct = stream::received(m, room, Some(f), before, moved, after);
            let through = stream::received(m, room, None, before, moved, after);
            let own = io::stream_received(m.inner, room, false, before, moved);
            &&& m.core.read_shutdown ==> direct.0.len() == 0 && direct.1 == m && direct.2 == Ok::<
                isize,
                SyscallErr,
            >(0)
            &&& !m.core.read_shutdown && stream::fast_key(m.core) is Some ==> {
                &&& direct.2 == io::recv_answer(Some(f.before), f.moved)
                &&& direct.1.inner == m.inner
                &&& direct.1.core.bound == m.core.bound
                &&& direct.1.core.fast_state == m.core.fast_state
            }
            &&& !m.core.read_shutdown ==> through.0 == own.0 && through.2 == own.2
            &&& !m.core.read_shutdown && stream::fast_key(m.core) is None ==> direct == through
            &&& stream::slowed(m.core).fast_state == if stream::fast_key(m.core) is Some {
                0
            } else {
                m.core.fast_state
            }
        }),
{
}

} // verus!
