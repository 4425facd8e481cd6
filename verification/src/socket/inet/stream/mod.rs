//! TCP sockets.
//!
//! A [`TcpSocket`] is a state machine over the sockets of a protocol stack:
//! its operations take in what the stack reports, and give out what the stack
//! has to do and which waiters to wake.
pub mod events;
pub mod inner;
pub mod io;
pub mod lifecycle;
pub mod tcp_info;

use vstd::prelude::*;
use crate::error::SyscallErr;
use crate::event;
use crate::event::EPollEvent;
use crate::net_core;
use crate::net_core::{NetGlobals, NetNamespace};
use crate::routing;
use crate::routing::RouteSocketHandle;
use crate::seqs;
use crate::socket::inet::common::bound::BoundInner;
use crate::socket::inet::stream::inner::{
    Closed,
    ConnectResult,
    Connecting,
    Established,
    Init,
    Inner,
    InnerModel,
    Replacement,
    SelfModel,
    TcpBuffers,
    TcpOrder,
    TcpState,
    TcpStatus,
    DEFAULT_RX_BUF_SIZE,
    DEFAULT_TX_BUF_SIZE,
};
use crate::socket::inet::stream::lifecycle::{
    ConnectOutcome,
    ConnectPlan,
    ListenOutcome,
    ListenPlan,
};
use crate::socket::{Endpoint, EndpointModel, SocketSlot, PSOCK};
use crate::wire::{IpAddress, IpEndpoint, IpListenEndpoint, IpVersion};

verus! {

/// The mark of a fast key that can be used.
pub const FAST_ESTABLISHED: u8 = 2;

/// What a TCP socket holds besides its connection.
#[derive(Clone, Copy, Debug, PartialEq, Eq, Structural)]
pub struct TcpCore {
    /// The events at the last look.
    pub pollee: EPollEvent,
    pub read_shutdown: bool,
    pub write_shutdown: bool,
    pub reuse_addr: bool,
    pub multicast_group_joined: bool,
    pub bound: BoundInner,
    pub bound_ifindex: Option<u32>,
    pub ip_version: IpVersion,
    pub ipv6_v6only: bool,
    pub fast_route_id: usize,
    pub fast_ifindex: u32,
    pub fast_state: u8,
}

/// A TCP socket.
#[derive(Debug)]
pub struct TcpSocket {
    pub core: TcpCore,
    pub inner: Inner,
}

/// What a [`TcpSocket`] holds.
#[verifier::ext_equal]
pub struct TcpModel {
    pub core: TcpCore,
    pub inner: InnerModel,
}

impl View for TcpSocket {
    type V = TcpModel;

    open spec fn view(&self) -> TcpModel {
        TcpModel { core: self.core, inner: self.inner@ }
    }
}

/// Which events are announced to the waiters of each operation. Those that
/// wait to receive or to send are woken one at a time.
#[derive(Clone, Copy, Debug, PartialEq, Eq, Structural)]
pub struct TcpWakes {
    pub accept: EPollEvent,
    pub connect: EPollEvent,
    pub recv: EPollEvent,
    pub send: EPollEvent,
}

/// What the stack did for one send or receive over the handle that it was
/// asked for: how the connection stood, how many bytes moved, where any could,
/// and how each handle of the socket stands now.
#[derive(Debug)]
pub struct StackIo {
    pub before: Option<TcpStatus>,
    pub moved: Option<usize>,
    pub after: Vec<Option<TcpStatus>>,
}

/// The same over the fast key.
#[derive(Clone, Copy, Debug, PartialEq, Eq, Structural)]
pub struct FastIo {
    pub before: TcpStatus,
    pub moved: Option<usize>,
    pub after: TcpStatus,
}

/// What the stack is asked for a send or a receive.
#[derive(Clone, Copy, Debug, PartialEq, Eq, Structural)]
pub enum StackAsk {
    /// Nothing: the socket answers by itself.
    Nothing,
    /// To move bytes over the handle.
    Own(RouteSocketHandle),
    /// To move bytes over the fast key, and over the handle, if there is one,
    /// where the key leads nowhere.
    Fast { route: RouteSocketHandle, ifindex: u32, own: Option<RouteSocketHandle> },
}

/// Which stacks to run before an operation looks at its connection.
#[derive(Clone, Copy, Debug, PartialEq, Eq, Structural)]
pub enum PollRequest {
    /// The events at the last look will do.
    Skip,
    Stack(u32),
    All,
}

pub open spec fn fresh_core(ver: IpVersion) -> TcpCore {
    TcpCore {
        pollee: event::no_events(),
        read_shutdown: false,
        write_shutdown: false,
        reuse_addr: false,
        multicast_group_joined: false,
        bound: BoundInner { socket_handle: None, ifindex: 0, bound_addr: None, bound_port: 0 },
        bound_ifindex: None,
        ip_version: ver,
        ipv6_v6only: false,
        fast_route_id: 0,
        fast_ifindex: 0,
        fast_state: 0,
    }
}

/// Whether a socket can speak to an address. An IPv6 socket speaks to IPv4
/// too, unless it is told not to.
pub open spec fn family_matches(c: TcpCore, addr: IpAddress) -> bool {
    match c.ip_version {
        IpVersion::Ipv4 => addr is Ipv4,
        IpVersion::Ipv6 => addr is Ipv6 || !c.ipv6_v6only,
    }
}

/// The connection that sends and receives go to directly.
pub open spec fn fast_key(c: TcpCore) -> Option<(RouteSocketHandle, u32)> {
    if c.fast_state == FAST_ESTABLISHED && c.fast_route_id != 0 && c.fast_ifindex != 0 {
        Some((RouteSocketHandle(c.fast_route_id), c.fast_ifindex))
    } else {
        None
    }
}

pub open spec fn published(c: TcpCore, route: usize, ifindex: u32) -> TcpCore {
    TcpCore {
        fast_route_id: route,
        fast_ifindex: ifindex,
        fast_state: FAST_ESTABLISHED,
        ..c
    }
}

pub open spec fn refresh(m: TcpModel, status: Seq<Option<TcpStatus>>) -> TcpModel {
    let (next, pollee) = events::polled(m.inner, m.core.pollee, status);
    TcpModel { core: TcpCore { pollee, ..m.core }, inner: next }
}

/// The endpoint that a bind is about.
pub open spec fn bind_target(c: TcpCore, ep: EndpointModel) -> Result<IpListenEndpoint, SyscallErr> {
    match ep {
        EndpointModel::Ip(e) => {
            let addr = e.addr.spec_unmapped();
            if addr.spec_is_unspecified() {
                Ok(IpListenEndpoint { addr: None, port: e.port })
            } else if !family_matches(c, addr) {
                Err(SyscallErr::EAFNOSUPPORT)
            } else {
                Ok(IpListenEndpoint { addr: Some(addr), port: e.port })
            }
        },
        _ => Err(SyscallErr::EINVAL),
    }
}

/// What a bind does.
pub open spec fn bound(m: TcpModel, devs: Seq<crate::iface::DeviceModel>, ep: EndpointModel, ephemeral: u16) -> (
    TcpModel,
    Result<usize, SyscallErr>,
) {
    match bind_target(m.core, ep) {
        Err(e) => (m, Err(e)),
        Ok(target) => match lifecycle::bound_state(m.inner, target, ephemeral) {
            Err(e) => (m, Err(e)),
            Ok(init) => (
                TcpModel {
                    core: TcpCore {
                        bound: BoundInner {
                            ifindex: net_core::spec_ifindex_for_local_addr(
                                devs,
                                Some(init.local().addr),
                            ),
                            bound_addr: Some(init.local().addr),
                            bound_port: init.local().port,
                            ..m.core.bound
                        },
                        ..m.core
                    },
                    inner: InnerModel::Init(init),
                },
                Ok(0),
            ),
        },
    }
}

/// The endpoint that a connect is about: the loopback address stands for an
/// unspecified one.
pub open spec fn connect_target(c: TcpCore, ep: EndpointModel) -> Result<IpEndpoint, SyscallErr> {
    match ep {
        EndpointModel::Ip(e) => {
            let addr = e.addr.spec_unmapped();
            if !family_matches(c, addr) {
                Err(SyscallErr::EAFNOSUPPORT)
            } else if addr.spec_is_unspecified() {
                Ok(IpEndpoint { addr: IpAddress::spec_localhost(addr.spec_version()), port: e.port })
            } else {
                Ok(IpEndpoint { addr, port: e.port })
            }
        },
        _ => Err(SyscallErr::EINVAL),
    }
}

/// A socket whose connect failed: it reports itself writable, with an error,
/// unless the connect can be tried again.
pub open spec fn connect_failed(c: TcpCore, e: SyscallErr) -> TcpCore {
    if e == SyscallErr::EAGAIN {
        c
    } else {
        TcpCore {
            pollee: EPollEvent { epollout: true, epollerr: true, ..event::no_events() },
            ..c
        }
    }
}

/// What ending the handshake does: the socket after, the handles to remove,
/// the answer.
pub open spec fn connecting_ended(m: InnerModel) -> (
    InnerModel,
    Seq<RouteSocketHandle>,
    Result<usize, SyscallErr>,
) {
    match m {
        InnerModel::Connecting(c) => match c.result {
            ConnectResult::Connected => (
                InnerModel::Established(
                    Established { handle: c.handle, local: c.local, peer: c.remote },
                ),
                Seq::empty(),
                Ok(0),
            ),
            ConnectResult::Connecting => (m, Seq::empty(), Err(SyscallErr::EAGAIN)),
            _ => (
                InnerModel::Init(
                    Init::Unbound(inner::default_buffers(), c.local.addr.spec_version()),
                ),
                seq![c.handle],
                Err(SyscallErr::ECONNREFUSED),
            ),
        },
        _ => (m, Seq::empty(), Err(SyscallErr::EAGAIN)),
    }
}

/// What the first look at a handshake does, right after it began.
pub open spec fn connect_checked(m: TcpModel, status: Option<TcpStatus>) -> (
    TcpModel,
    Seq<RouteSocketHandle>,
    Result<usize, SyscallErr>,
) {
    match m.inner {
        InnerModel::Connecting(_) => {
            let now = refresh(m, seq![status]);
            match now.inner {
                InnerModel::Connecting(c) => if c.result is Connected || c.result is Refused {
                    let (next, gone, answer) = connecting_ended(now.inner);
                    (TcpModel { core: now.core, inner: next }, gone, answer)
                } else {
                    (now, Seq::empty(), Err(SyscallErr::EAGAIN))
                },
                _ => (now, Seq::empty(), Err(SyscallErr::EAGAIN)),
            }
        },
        _ => (m, Seq::empty(), Err(SyscallErr::EAGAIN)),
    }
}

/// What a look at a handshake does. A connection that the stack does not know
/// any more counts as closed.
pub open spec fn connect_tried(m: TcpModel, status: Option<TcpStatus>) -> (
    TcpModel,
    Seq<RouteSocketHandle>,
    Result<isize, SyscallErr>,
) {
    match m.inner {
        InnerModel::Connecting(_) => {
            let now = refresh(m, seq![status]);
            let state = match status {
                Some(s) => s.state,
                None => TcpState::Closed,
            };
            let (next, gone, answer) = connecting_ended(now.inner);
            match now.inner {
                InnerModel::Connecting(c) => if c.result is Connected || (status is Some
                    && c.result is Refused) {
                    let core = if answer is Ok && now.core.bound.socket_handle is Some {
                        published(
                            now.core,
                            now.core.bound.socket_handle->0,
                            now.core.bound.ifindex,
                        )
                    } else {
                        now.core
                    };
                    (TcpModel { core, inner: next }, gone, io::as_isize(answer))
                } else if state is Closed {
                    (
                        TcpModel { core: now.core, inner: next },
                        gone,
                        Err(SyscallErr::ECONNREFUSED),
                    )
                } else {
                    (now, Seq::empty(), Err(SyscallErr::EAGAIN))
                },
                _ => (now, Seq::empty(), Err(SyscallErr::EAGAIN)),
            }
        },
        InnerModel::Established(_) => (m, Seq::empty(), Ok(0)),
        _ => (m, Seq::empty(), Err(SyscallErr::EAGAIN)),
    }
}

/// The waiters of every operation learn that the socket has hung up.
pub open spec fn all_wakes() -> TcpWakes {
    TcpWakes {
        recv: EPollEvent { epollin: true, epollrdnorm: true, epollhup: true, ..event::no_events() },
        send: EPollEvent { epollout: true, epollwrnorm: true, epollhup: true, ..event::no_events() },
        connect: EPollEvent { epollout: true, epollerr: true, epollhup: true, ..event::no_events() },
        accept: EPollEvent { epollin: true, epollrdnorm: true, epollhup: true, ..event::no_events() },
    }
}

/// The waiters of each operation learn which of its events have come up since
/// the last look.
pub open spec fn edge_wakes(before: EPollEvent, now: EPollEvent) -> TcpWakes {
    let up = now.spec_without(before);
    TcpWakes {
        accept: EPollEvent { epollin: up.epollin, epollrdnorm: up.epollrdnorm, ..event::no_events() },
        connect: EPollEvent {
            epollout: up.epollout,
            epollerr: up.epollerr,
            epollhup: up.epollhup,
            ..event::no_events()
        },
        recv: EPollEvent {
            epollin: up.epollin,
            epollrdnorm: up.epollrdnorm,
            epollrdhup: up.epollrdhup,
            epollhup: up.epollhup,
            epollerr: up.epollerr,
            ..event::no_events()
        },
        send: EPollEvent {
            epollout: up.epollout,
            epollwrnorm: up.epollwrnorm,
            epollhup: up.epollhup,
            epollerr: up.epollerr,
            ..event::no_events()
        },
    }
}

/// The socket of an accepted connection.
pub open spec fn accepted_socket(listener: TcpCore, e: Established, ifindex: Option<u32>) -> TcpModel {
    let core = TcpCore {
        bound: BoundInner {
            socket_handle: Some(e.handle.0),
            ifindex: match ifindex {
                Some(i) => i,
                None => 0,
            },
            bound_addr: Some(e.local.addr),
            bound_port: e.local.port,
        },
        ipv6_v6only: listener.ipv6_v6only,
        ..fresh_core(listener.ip_version)
    };
    TcpModel {
        core: match ifindex {
            Some(i) => published(core, e.handle.0, i),
            None => core,
        },
        inner: InnerModel::Established(e),
    }
}

/// Whether a receive would find something, or the end.
pub open spec fn readable_now(s: TcpStatus) -> bool {
    s.can_recv || !s.may_recv || s.state.spec_peer_finished() || s.state is Closed
}

pub open spec fn writable_now(s: TcpStatus) -> bool {
    s.can_send && !(s.state is Closed || s.state is TimeWait || s.state is Closing
        || s.state is LastAck)
}

/// The socket without the fast key that led nowhere.
pub open spec fn slowed(c: TcpCore) -> TcpCore {
    if fast_key(c) is Some {
        TcpCore { fast_state: 0, ..c }
    } else {
        c
    }
}

/// What a receive into a buffer of `room` bytes does: the bytes out of the
/// socket itself, the socket after, the answer.
pub open spec fn received(
    m: TcpModel,
    room: int,
    fast: Option<FastIo>,
    before: Option<TcpStatus>,
    moved: Option<usize>,
    after: Seq<Option<TcpStatus>>,
) -> (Seq<u8>, TcpModel, Result<isize, SyscallErr>) {
    if m.core.read_shutdown {
        (Seq::empty(), m, Ok(0))
    } else if fast_key(m.core) is Some && fast is Some {
        let f = fast->0;
        (
            Seq::empty(),
            TcpModel {
                core: TcpCore {
                    pollee: EPollEvent { epollin: readable_now(f.after), ..m.core.pollee },
                    ..m.core
                },
                ..m
            },
            io::recv_answer(Some(f.before), f.moved),
        )
    } else {
        let (data, next, answer) = io::stream_received(m.inner, room, false, before, moved);
        (data, refresh(TcpModel { core: slowed(m.core), inner: next }, after), answer)
    }
}

/// What a look into a buffer of `room` bytes gives: the bytes out of the socket
/// itself, the answer. Nothing is taken away.
pub open spec fn peeked(
    m: TcpModel,
    room: int,
    fast: Option<FastIo>,
    before: Option<TcpStatus>,
    moved: Option<usize>,
) -> (Seq<u8>, Result<isize, SyscallErr>) {
    if m.core.read_shutdown {
        (Seq::empty(), Ok(0))
    } else if fast_key(m.core) is Some && fast is Some {
        (Seq::empty(), io::recv_answer(Some((fast->0).before), (fast->0).moved))
    } else {
        let (data, _, answer) = io::stream_received(m.inner, room, true, before, moved);
        (data, answer)
    }
}

/// The socket after the look at its handshake that comes before a send, and
/// the handles to remove.
pub open spec fn before_send(m: TcpModel, handshake: Option<TcpStatus>) -> (
    TcpModel,
    Seq<RouteSocketHandle>,
) {
    if m.inner is Connecting {
        let (next, gone, _) = connect_tried(m, handshake);
        (next, gone)
    } else {
        (m, Seq::empty())
    }
}

/// A send through the state of the socket.
pub open spec fn slow_sent(
    m: TcpModel,
    data: Seq<u8>,
    before: Option<TcpStatus>,
    moved: Option<usize>,
    after: Seq<Option<TcpStatus>>,
) -> (TcpModel, Result<isize, SyscallErr>) {
    let (next, answer) = io::stream_sent(m.inner, data, before, moved);
    (refresh(TcpModel { inner: next, ..m }, after), answer)
}

/// What a send does: the socket after, the handles to remove, the answer.
pub open spec fn sent(
    m: TcpModel,
    data: Seq<u8>,
    handshake: Option<TcpStatus>,
    fast: Option<FastIo>,
    before: Option<TcpStatus>,
    moved: Option<usize>,
    after: Seq<Option<TcpStatus>>,
) -> (TcpModel, Seq<RouteSocketHandle>, Result<isize, SyscallErr>) {
    if m.core.write_shutdown {
        (m, Seq::empty(), Err(SyscallErr::EPIPE))
    } else {
        let (now, gone) = before_send(m, handshake);
        if fast_key(m.core) is Some && fast is Some {
            let f = fast->0;
            (
                TcpModel {
                    core: TcpCore {
                        pollee: EPollEvent { epollout: writable_now(f.after), ..now.core.pollee },
                        ..now.core
                    },
                    ..now
                },
                gone,
                io::as_isize(inner::send_answer(Some(f.before), f.moved)),
            )
        } else {
            let core = if fast_key(m.core) is Some {
                TcpCore { fast_state: 0, ..now.core }
            } else {
                now.core
            };
            let (next, answer) = slow_sent(TcpModel { core, ..now }, data, before, moved, after);
            (next, gone, answer)
        }
    }
}

/// The handle over which the bytes of a socket move.
pub open spec fn own_handle(m: InnerModel) -> Option<RouteSocketHandle> {
    match m {
        InnerModel::Established(e) => Some(e.handle),
        _ => None,
    }
}

/// What is asked of the stack by way of a key, if there is one, or of a handle.
pub open spec fn ask_of(key: Option<(RouteSocketHandle, u32)>, own: Option<RouteSocketHandle>) -> StackAsk {
    match key {
        Some((route, ifindex)) => StackAsk::Fast { route, ifindex, own },
        None => match own {
            Some(h) => StackAsk::Own(h),
            None => StackAsk::Nothing,
        },
    }
}

/// What the stack is asked for a receive.
pub open spec fn recv_ask(m: TcpModel) -> StackAsk {
    if m.core.read_shutdown {
        StackAsk::Nothing
    } else {
        ask_of(fast_key(m.core), own_handle(m.inner))
    }
}

/// What the stack is asked for a send, once its word on the handshake is known.
pub open spec fn send_ask(m: TcpModel, handshake: Option<TcpStatus>) -> StackAsk {
    if m.core.write_shutdown {
        StackAsk::Nothing
    } else {
        ask_of(fast_key(m.core), own_handle(before_send(m, handshake).0.inner))
    }
}

/// What a send of user memory does; `copied` is what could be read of it.
pub open spec fn user_sent(
    m: TcpModel,
    copied: Option<Seq<u8>>,
    handshake: Option<TcpStatus>,
    before: Option<TcpStatus>,
    moved: Option<usize>,
    after: Seq<Option<TcpStatus>>,
) -> (TcpModel, Seq<RouteSocketHandle>, Result<isize, SyscallErr>) {
    if m.core.write_shutdown {
        (m, Seq::empty(), Err(SyscallErr::EPIPE))
    } else {
        let (now, gone) = before_send(m, handshake);
        match copied {
            None => (now, gone, Err(SyscallErr::EFAULT)),
            Some(data) => {
                let (next, answer) = slow_sent(now, data, before, moved, after);
                (next, gone, answer)
            },
        }
    }
}

/// What a shutdown does.
pub open spec fn shut(m: TcpModel, how: u32) -> (
    TcpModel,
    Result<(Option<TcpOrder>, TcpWakes), SyscallErr>,
) {
    let (next, order) = lifecycle::shut(m.inner, how);
    match order {
        Err(e) => (TcpModel { inner: next, ..m }, Err(e)),
        Ok(order) => (
            TcpModel {
                core: TcpCore {
                    read_shutdown: m.core.read_shutdown || how != 1,
                    write_shutdown: m.core.write_shutdown || how != 0,
                    ..m.core
                },
                inner: next,
            },
            Ok((order, all_wakes())),
        ),
    }
}

fn every_wake() -> (r: TcpWakes)
    ensures
        r == all_wakes(),
{
    let mut readable = EPollEvent::empty();
    readable.epollin = true;
    readable.epollrdnorm = true;
    readable.epollhup = true;
    let mut writable = EPollEvent::empty();
    writable.epollout = true;
    writable.epollwrnorm = true;
    writable.epollhup = true;
    let mut connected = EPollEvent::empty();
    connected.epollout = true;
    connected.epollerr = true;
    connected.epollhup = true;
    TcpWakes { accept: readable, connect: connected, recv: readable, send: writable }
}

impl TcpSocket {
    pub fn new(ver: IpVersion) -> (r: TcpSocket)
        ensures
            r@ == (TcpModel {
                core: fresh_core(ver),
                inner: InnerModel::Init(Init::Unbound(inner::default_buffers(), ver)),
            }),
    {
        TcpSocket { core: Self::new_core(ver), inner: Inner::Init(Init::new(ver)) }
    }

    fn new_core(ver: IpVersion) -> (r: TcpCore)
        ensures
            r == fresh_core(ver),
    {
        TcpCore {
            pollee: EPollEvent::empty(),
            read_shutdown: false,
            write_shutdown: false,
            reuse_addr: false,
            multicast_group_joined: false,
            bound: BoundInner::new(),
            bound_ifindex: None,
            ip_version: ver,
            ipv6_v6only: false,
            fast_route_id: 0,
            fast_ifindex: 0,
            fast_state: 0,
        }
    }

    pub fn bound_inner(&self) -> (r: BoundInner)
        ensures
            r == self@.core.bound,
    {
        self.core.bound
    }

    fn addr_family_matches(&self, addr: IpAddress) -> (r: bool)
        ensures
            r == family_matches(self@.core, addr),
    {
        match (self.core.ip_version, addr) {
            (IpVersion::Ipv4, IpAddress::Ipv4(_)) => true,
            (IpVersion::Ipv4, IpAddress::Ipv6(_)) => false,
            (IpVersion::Ipv6, IpAddress::Ipv6(_)) => true,
            (IpVersion::Ipv6, IpAddress::Ipv4(_)) => !self.core.ipv6_v6only,
        }
    }

    /// Adds a socket to the registry of open sockets.
    pub fn register_tcp_socket(sockets: &mut Vec<SocketSlot>, id: u64)
        ensures
            final(sockets)@ == old(sockets)@.push(SocketSlot { id, live: true }),
    {
        sockets.push(SocketSlot { id, live: true });
    }

    /// Adds an open socket to the registry of listeners, unless it is there.
    pub fn register_as_listener(
        listeners: &mut Vec<SocketSlot>,
        sockets: &Vec<SocketSlot>,
        id: u64,
    )
        ensures
            ({
                let slot = SocketSlot { id, live: true };
                final(listeners)@ == if sockets@.contains(slot) && !old(listeners)@.contains(slot) {
                    old(listeners)@.push(slot)
                } else {
                    old(listeners)@
                }
            }),
    {
        let slot = SocketSlot { id, live: true };
        if has_slot(sockets, slot) && !has_slot(listeners, slot) {
            listeners.push(slot);
        }
    }

    /// Whether a listener has a connection to accept; if so, its accept
    /// waiters are woken.
    pub fn refresh_accept_ready_after_poll(&self, status: &Vec<Option<TcpStatus>>) -> (r: bool)
        ensures
            r == (self@.inner is Listening && inner::first_pending(status@) is Some),
    {
        match &self.inner {
            Inner::Listening(l) => l.has_pending_connection(status),
            _ => false,
        }
    }

    /// Brings the events up to date; returns those before and those now.
    pub fn update_io_events(&mut self, status: &Vec<Option<TcpStatus>>) -> (r: (
        EPollEvent,
        EPollEvent,
    ))
        requires
            old(self)@.inner is Listening ==> status@.len() == old(self)@.inner.handles().len(),
        ensures
            final(self)@ == refresh(old(self)@, status@),
            r == (old(self)@.core.pollee, final(self)@.core.pollee),
    {
        let previous = self.core.pollee;
        self.inner.update_io_events(&mut self.core.pollee, status);
        (previous, self.core.pollee)
    }

    /// Everyone who waits for the socket, when it is shut down or closed.
    pub fn wake_wait_queues(&self) -> (r: TcpWakes)
        ensures
            r == all_wakes(),
    {
        every_wake()
    }

    /// Brings the events up to date and returns whom to wake: only events
    /// that have come up are announced, so that a waiter for edges sees one
    /// edge.
    pub fn wake_if_ready(&mut self, status: &Vec<Option<TcpStatus>>) -> (r: TcpWakes)
        requires
            old(self)@.inner is Listening ==> status@.len() == old(self)@.inner.handles().len(),
        ensures
            final(self)@ == refresh(old(self)@, status@),
            r == edge_wakes(old(self)@.core.pollee, final(self)@.core.pollee),
    {
        let (previous, events) = self.update_io_events(status);
        let up = events.without(previous);
        let mut accept = EPollEvent::empty();
        accept.epollin = up.epollin;
        accept.epollrdnorm = up.epollrdnorm;
        let mut connect = EPollEvent::empty();
        connect.epollout = up.epollout;
        connect.epollerr = up.epollerr;
        connect.epollhup = up.epollhup;
        let mut recv = accept;
        recv.epollrdhup = up.epollrdhup;
        recv.epollhup = up.epollhup;
        recv.epollerr = up.epollerr;
        let mut send = connect;
        send.epollwrnorm = up.epollwrnorm;
        TcpWakes { accept, connect, recv, send }
    }

    /// Ends the handshake, as far as it is over.
    pub fn finish_connecting(&mut self, removals: &mut Vec<RouteSocketHandle>) -> (r: Result<
        usize,
        SyscallErr,
    >)
        ensures
            ({
                let (next, gone, answer) = connecting_ended(old(self)@.inner);
                &&& final(self)@ == (TcpModel { inner: next, ..old(self)@ })
                &&& final(removals)@ == old(removals)@ + gone
                &&& r == answer
            }),
    {
        let mut ended = Inner::Closed(Closed::new(IpVersion::Ipv4));
        std::mem::swap(&mut self.inner, &mut ended);
        match ended {
            Inner::Connecting(connecting) => {
                let (next, result) = connecting.into_result(removals);
                self.inner = next;
                match result {
                    Ok(_) => Ok(0),
                    Err(e) => Err(e),
                }
            },
            other => {
                self.inner = other;
                Err(SyscallErr::EAGAIN)
            },
        }
    }

    /// Lets sends and receives go to the connection directly.
    pub fn publish_fast_established(&mut self, route: RouteSocketHandle, ifindex: u32)
        ensures
            final(self)@ == (TcpModel {
                core: published(old(self)@.core, route.0, ifindex),
                ..old(self)@
            }),
    {
        self.core.fast_route_id = route.0;
        self.core.fast_ifindex = ifindex;
        self.core.fast_state = FAST_ESTABLISHED;
    }

    fn invalidate_fast(&mut self)
        ensures
            final(self)@ == (TcpModel {
                core: TcpCore { fast_state: 0, ..old(self)@.core },
                ..old(self)@
            }),
    {
        self.core.fast_state = 0;
    }

    /// The connection that sends and receives go to directly.
    pub fn fast_key_established(&self) -> (r: Option<(RouteSocketHandle, u32)>)
        ensures
            r == fast_key(self@.core),
    {
        if self.core.fast_state != FAST_ESTABLISHED || self.core.fast_route_id == 0
            || self.core.fast_ifindex == 0 {
            return None;
        }
        Some((RouteSocketHandle(self.core.fast_route_id), self.core.fast_ifindex))
    }

    fn try_publish_fast_from_bound(&mut self)
        ensures
            final(self)@ == (TcpModel {
                core: match old(self)@.core.bound.socket_handle {
                    Some(h) => published(old(self)@.core, h, old(self)@.core.bound.ifindex),
                    None => old(self)@.core,
                },
                ..old(self)@
            }),
    {
        match self.core.bound.socket_handle {
            Some(h) => {
                let ifindex = self.core.bound.ifindex;
                self.publish_fast_established(RouteSocketHandle(h), ifindex);
            },
            None => {},
        }
    }

    /// Binds the socket to an address of this machine. `ephemeral` is the
    /// port that it gets if it asked for none.
    pub fn bind(&mut self, ns: &NetNamespace, endpoint: &Endpoint, ephemeral: u16) -> (r: Result<
        usize,
        SyscallErr,
    >)
        ensures
            (final(self)@, r) == bound(old(self)@, ns.devs(), endpoint@, ephemeral),
    {
        let ep = match endpoint {
            Endpoint::Ip(ep) => *ep,
            _ => return Err(SyscallErr::EINVAL),
        };
        let addr = ep.addr.unmapped();
        let unspecified = addr.is_unspecified();
        if !unspecified && !self.addr_family_matches(addr) {
            return Err(SyscallErr::EAFNOSUPPORT);
        }
        let target = if unspecified {
            IpListenEndpoint { addr: None, port: ep.port }
        } else {
            IpListenEndpoint { addr: Some(addr), port: ep.port }
        };
        let ghost before = self@;
        let mut taken = Inner::Closed(Closed::new(IpVersion::Ipv4));
        std::mem::swap(&mut self.inner, &mut taken);
        match taken.bind(target, ephemeral) {
            Ok(next) => {
                match &next {
                    Inner::Init(init) => {
                        let local = init.local_endpoint();
                        self.core.bound.ifindex =
                        net_core::ifindex_for_local_addr(ns, Some(local.addr));
                        self.core.bound.bound_addr = Some(local.addr);
                        self.core.bound.bound_port = local.port;
                    },
                    _ => {},
                }
                self.inner = next;
                Ok(0)
            },
            Err((revert, err)) => {
                self.inner = revert;
                Err(err)
            },
        }
    }

    /// Plans the listeners of the socket: one for each of the connections that
    /// may wait.
    pub fn listen(&mut self, ns: &NetNamespace, backlog: u32, ephemeral: u16) -> (r: Result<
        ListenPlan,
        SyscallErr,
    >)
        ensures
            match lifecycle::listen_plan(
                old(self)@.inner,
                ns.devs(),
                backlog as usize,
                ephemeral,
            ) {
                Ok(plan) => r == Ok::<ListenPlan, SyscallErr>(plan),
                Err((_, e)) => r == Err::<ListenPlan, SyscallErr>(e),
            },
            final(self)@ == (TcpModel {
                inner: match lifecycle::listen_plan(
                    old(self)@.inner,
                    ns.devs(),
                    backlog as usize,
                    ephemeral,
                ) {
                    Ok(plan) => lifecycle::bound_to(plan.socket, plan.local, None),
                    Err((next, _)) => next,
                },
                ..old(self)@
            }),
    {
        let mut taken = Inner::Closed(Closed::new(IpVersion::Ipv4));
        std::mem::swap(&mut self.inner, &mut taken);
        match taken.listen(ns, backlog as usize, ephemeral) {
            Ok(plan) => {
                self.inner =
                Inner::Init(
                    Init::Bound { socket: plan.socket, local: plan.local, pending_error: None },
                );
                Ok(plan)
            },
            Err((revert, err)) => {
                self.inner = revert;
                Err(err)
            },
        }
    }

    /// Completes a listen as planned, with what the stack did.
    pub fn finish_listen(
        &mut self,
        ns: &NetNamespace,
        plan: ListenPlan,
        first: ListenOutcome,
        extra: &Vec<Replacement>,
    ) -> (r: Result<usize, SyscallErr>)
        ensures
            match lifecycle::listen_end(plan, first, extra@) {
                Ok(l) => {
                    &&& r == Ok::<usize, SyscallErr>(0)
                    &&& final(self)@ == (TcpModel {
                        core: TcpCore {
                            bound: BoundInner {
                                socket_handle: Some(l.handles[0].0),
                                ifindex: net_core::spec_ifindex_for_local_addr(
                                    ns.devs(),
                                    plan.listen_addr.addr,
                                ),
                                bound_addr: plan.listen_addr.addr,
                                bound_port: plan.listen_addr.port,
                            },
                            ..old(self)@.core
                        },
                        inner: InnerModel::Listening(l),
                    })
                },
                Err((next, e)) => {
                    &&& r == Err::<usize, SyscallErr>(e)
                    &&& final(self)@ == (TcpModel { inner: next, ..old(self)@ })
                },
            },
    {
        match plan.finish(first, extra) {
            Ok(listening) => {
                let addr = listening.listen_addr();
                let ifindex = net_core::ifindex_for_local_addr(ns, addr.addr);
                if listening.handles.len() > 0 {
                    let handle = listening.handles[0];
                    self.core.bound.bind(handle.0, ifindex, addr.addr, addr.port);
                }
                self.inner = Inner::Listening(listening);
                Ok(0)
            },
            Err((revert, err)) => {
                self.inner = revert;
                Err(err)
            },
        }
    }

    /// Plans a connection. On failure the socket reports an error.
    pub fn connect(
        &mut self,
        ns: &mut NetNamespace,
        globals: &NetGlobals,
        endpoint: &Endpoint,
        ephemeral: u16,
    ) -> (r: Result<ConnectPlan, SyscallErr>)
        requires
            old(ns).wf(),
            globals.wf(),
        ensures
            final(ns).wf(),
            final(ns).devices == old(ns).devices,
            final(ns).router.table.entries@ == match connect_target(old(self)@.core, endpoint@) {
                Ok(remote) if lifecycle::connect_source(
                    old(self)@.inner,
                    remote.addr,
                    ephemeral,
                ) is Some => routing::filled(*old(ns), *globals),
                _ => old(ns).router.table.entries@,
            },
            match connect_target(old(self)@.core, endpoint@) {
                Err(e) => r == Err::<ConnectPlan, SyscallErr>(e) && final(self)@ == old(self)@,
                Ok(remote) => match lifecycle::connect_plan(
                    old(self)@.inner,
                    old(ns).devs(),
                    routing::filled(*old(ns), *globals),
                    remote,
                    old(self)@.core.bound_ifindex,
                    ephemeral,
                ) {
                    Ok(plan) => {
                        &&& r == Ok::<ConnectPlan, SyscallErr>(plan)
                        &&& final(self)@ == (TcpModel {
                            inner: lifecycle::bound_to(plan.socket, plan.local, None),
                            ..old(self)@
                        })
                    },
                    Err((next, e)) => {
                        &&& r == Err::<ConnectPlan, SyscallErr>(e)
                        &&& final(self)@ == (TcpModel {
                            core: connect_failed(old(self)@.core, e),
                            inner: next,
                        })
                    },
                },
            },
    {
        let ep = match endpoint {
            Endpoint::Ip(ep) => *ep,
            _ => return Err(SyscallErr::EINVAL),
        };
        let addr = ep.addr.unmapped();
        if !self.addr_family_matches(addr) {
            return Err(SyscallErr::EAFNOSUPPORT);
        }
        let remote = if addr.is_unspecified() {
            IpEndpoint::new(IpAddress::localhost(addr.version()), ep.port)
        } else {
            IpEndpoint::new(addr, ep.port)
        };
        let mut taken = Inner::Closed(Closed::new(IpVersion::Ipv4));
        std::mem::swap(&mut self.inner, &mut taken);
        match taken.connect(ns, globals, remote, self.core.bound_ifindex, ephemeral) {
            Ok(plan) => {
                self.inner =
                Inner::Init(
                    Init::Bound { socket: plan.socket, local: plan.local, pending_error: None },
                );
                Ok(plan)
            },
            Err((revert, err)) => {
                self.inner = revert;
                self.fail_connect(err);
                Err(err)
            },
        }
    }

    fn fail_connect(&mut self, err: SyscallErr)
        ensures
            final(self)@ == (TcpModel {
                core: connect_failed(old(self)@.core, err),
                ..old(self)@
            }),
    {
        if err != SyscallErr::EAGAIN {
            let mut events = EPollEvent::empty();
            events.epollout = true;
            events.epollerr = true;
            self.core.pollee = events;
        }
    }

    /// Takes in what the stack did about a planned connection.
    pub fn finish_connect(&mut self, ns: &NetNamespace, plan: ConnectPlan, outcome: ConnectOutcome) -> (r:
        Result<(), SyscallErr>)
        ensures
            match outcome {
                ConnectOutcome::Started(handle) => {
                    &&& r is Ok
                    &&& final(self)@ == (TcpModel {
                        core: TcpCore {
                            bound: BoundInner {
                                socket_handle: Some(handle.0),
                                ifindex: match old(self)@.core.bound_ifindex {
                                    Some(i) => i,
                                    None => net_core::spec_ifindex_for_local_addr(
                                        ns.devs(),
                                        Some(plan.local.addr),
                                    ),
                                },
                                bound_addr: Some(plan.local.addr),
                                bound_port: plan.local.port,
                            },
                            ..old(self)@.core
                        },
                        inner: InnerModel::Connecting(
                            Connecting {
                                handle,
                                local: plan.local,
                                remote: plan.remote,
                                result: ConnectResult::Connecting,
                                was_established: false,
                            },
                        ),
                    })
                },
                ConnectOutcome::NotAdded => {
                    &&& r == Err::<(), SyscallErr>(SyscallErr::EAGAIN)
                    &&& final(self)@ == (TcpModel {
                        inner: lifecycle::bound_to(inner::default_buffers(), plan.local, None),
                        ..old(self)@
                    })
                },
                ConnectOutcome::Refused => {
                    &&& r == Err::<(), SyscallErr>(SyscallErr::ECONNREFUSED)
                    &&& final(self)@ == (TcpModel {
                        core: connect_failed(old(self)@.core, SyscallErr::ECONNREFUSED),
                        inner: lifecycle::bound_to(
                            inner::default_buffers(),
                            plan.local,
                            Some(SyscallErr::ECONNREFUSED),
                        ),
                    })
                },
            },
    {
        match plan.finish(outcome) {
            Ok(connecting) => {
                let ifindex: u32 = match self.core.bound_ifindex {
                    Some(i) => i,
                    None => net_core::ifindex_for_local_addr(ns, Some(connecting.local.addr)),
                };
                self.core.bound.bind(
                    connecting.handle.0,
                    ifindex,
                    Some(connecting.local.addr),
                    connecting.local.port,
                );
                self.inner = Inner::Connecting(connecting);
                Ok(())
            },
            Err((revert, err)) => {
                self.inner = revert;
                self.fail_connect(err);
                Err(err)
            },
        }
    }

    /// The look at a handshake right after it began, once the stacks have
    /// run.
    pub fn check_connect(&mut self, status: Option<TcpStatus>, removals: &mut Vec<RouteSocketHandle>) -> (r:
        Result<usize, SyscallErr>)
        ensures
            ({
                let (next, gone, answer) = connect_checked(old(self)@, status);
                &&& final(self)@ == next
                &&& final(removals)@ == old(removals)@ + gone
                &&& r == answer
            }),
    {
        let ghost before = self@;
        assert(events::first_of(seq![status]) == status);
        let over = match &mut self.inner {
            Inner::Connecting(c) => {
                let _ = c.update_io_events(&mut self.core.pollee, status);
                c.is_connected() || c.failure_reason().is_some()
            },
            _ => return Err(SyscallErr::EAGAIN),
        };
        assert(self@ == refresh(before, seq![status]));
        if over {
            self.finish_connecting(removals)
        } else {
            Err(SyscallErr::EAGAIN)
        }
    }

    /// A look at the handshake, once the stacks have run. Success lets sends
    /// and receives go to the connection directly.
    pub fn try_connect(&mut self, status: Option<TcpStatus>, removals: &mut Vec<RouteSocketHandle>) -> (r:
        Result<isize, SyscallErr>)
        ensures
            ({
                let (next, gone, answer) = connect_tried(old(self)@, status);
                &&& final(self)@ == next
                &&& final(removals)@ == old(removals)@ + gone
                &&& r == answer
            }),
    {
        let ghost before = self@;
        assert(events::first_of(seq![status]) == status);
        let state = match status {
            Some(s) => s.state,
            None => TcpState::Closed,
        };
        let over = match &mut self.inner {
            Inner::Connecting(c) => {
                let ready = c.update_io_events(&mut self.core.pollee, status);
                c.is_connected() || (ready && c.failure_reason().is_some())
            },
            Inner::Established(_) => return Ok(0),
            _ => return Err(SyscallErr::EAGAIN),
        };
        assert(self@ == refresh(before, seq![status]));
        if over {
            match self.finish_connecting(removals) {
                Ok(_) => {
                    self.try_publish_fast_from_bound();
                    Ok(0)
                },
                Err(e) => Err(e),
            }
        } else if matches!(state, TcpState::Closed) {
            let _ = self.finish_connecting(removals);
            Err(SyscallErr::ECONNREFUSED)
        } else {
            Err(SyscallErr::EAGAIN)
        }
    }

    /// Why the last connect failed, once.
    pub fn take_error(&mut self) -> (r: Option<SyscallErr>)
        ensures
            match old(self)@.inner {
                InnerModel::Init(Init::Bound { socket, local, pending_error }) => {
                    &&& r == pending_error
                    &&& final(self)@ == (TcpModel {
                        inner: lifecycle::bound_to(socket, local, None),
                        ..old(self)@
                    })
                },
                _ => r is None && final(self)@ == old(self)@,
            },
    {
        match self.inner {
            Inner::Init(Init::Bound { socket, local, pending_error }) => {
                self.inner = Inner::Init(Init::Bound { socket, local, pending_error: None });
                pending_error
            },
            _ => None,
        }
    }

    /// The socket of the next connection, and its peer. `ifindex` is the
    /// interface of the connection, where it is known.
    pub fn accept(
        &mut self,
        status: &Vec<Option<TcpStatus>>,
        replacement: Replacement,
        ifindex: Option<u32>,
    ) -> (r: Result<(TcpSocket, IpEndpoint), SyscallErr>)
        requires
            old(self)@.inner is Listening ==> status@.len() == old(self)@.inner.handles().len(),
            forall|i: int| 0 <= i < status@.len() && #[trigger] status@[i] is Some
                ==> status@[i]->0.wf(),
        ensures
            match old(self)@.inner {
                InnerModel::Listening(l) => {
                    let (next, got) = inner::accepted(l, status@, replacement);
                    &&& final(self)@ == (TcpModel {
                        inner: InnerModel::Listening(next),
                        ..old(self)@
                    })
                    &&& match (r, got) {
                        (Ok(x), Ok(y)) => x.1 == y.1 && x.0@ == accepted_socket(
                            old(self)@.core,
                            Established {
                                handle: y.0,
                                local: inner::listen_endpoint(l.listen_addr),
                                peer: y.1,
                            },
                            ifindex,
                        ),
                        (Err(x), Err(y)) => x == y,
                        _ => false,
                    }
                },
                _ => {
                    &&& r == Err::<(TcpSocket, IpEndpoint), SyscallErr>(SyscallErr::EINVAL)
                    &&& final(self)@ == old(self)@
                },
            },
    {
        let (connected, peer) = match self.inner.accept(status, replacement) {
            Ok(x) => x,
            Err(e) => return Err(e),
        };
        let mut core = Self::new_core(self.core.ip_version);
        core.ipv6_v6only = self.core.ipv6_v6only;
        match &connected {
            Inner::Established(e) => {
                let index: u32 = match ifindex {
                    Some(i) => i,
                    None => 0,
                };
                core.bound.bind(e.handle.0, index, Some(e.local.addr), e.local.port);
                if ifindex.is_some() {
                    core.fast_route_id = e.handle.0;
                    core.fast_ifindex = index;
                    core.fast_state = FAST_ESTABLISHED;
                }
            },
            _ => {},
        }
        Ok((TcpSocket { core, inner: connected }, peer))
    }

    pub fn socket_type(&self) -> (r: PSOCK)
        ensures
            r == PSOCK::Stream,
    {
        PSOCK::Stream
    }

    pub fn recv_buf_size(&self, status: Option<TcpStatus>) -> (r: usize)
        ensures
            r == self@.inner.capacities(status).1,
    {
        self.inner.recv_buffer_size(status)
    }

    pub fn send_buf_size(&self, status: Option<TcpStatus>) -> (r: usize)
        ensures
            r == self@.inner.capacities(status).0,
    {
        self.inner.send_buffer_size(status)
    }

    /// Resizes the receive buffer of a fresh socket; the send buffer gets its
    /// first size back. A connection keeps its buffers.
    pub fn set_recv_buf_size(&mut self, size: usize)
        ensures
            final(self)@ == (TcpModel {
                inner: match old(self)@.inner {
                    InnerModel::Init(Init::Unbound(_, ver)) => InnerModel::Init(
                        Init::Unbound(TcpBuffers { rx: size, tx: DEFAULT_TX_BUF_SIZE }, ver),
                    ),
                    InnerModel::SelfConnected(s) => InnerModel::SelfConnected(
                        SelfModel { rx_cap: size, ..s },
                    ),
                    m => m,
                },
                ..old(self)@
            }),
    {
        match &mut self.inner {
            Inner::Init(init) => {
                let _ = init.resize_buffers(size, DEFAULT_TX_BUF_SIZE);
            },
            Inner::SelfConnected(sc) => {
                sc.rx_cap = size;
            },
            _ => {},
        }
    }

    /// Resizes the send buffer of a fresh socket; the receive buffer gets its
    /// first size back. A connection keeps its buffers.
    pub fn set_send_buf_size(&mut self, size: usize)
        ensures
            final(self)@ == (TcpModel {
                inner: match old(self)@.inner {
                    InnerModel::Init(Init::Unbound(_, ver)) => InnerModel::Init(
                        Init::Unbound(TcpBuffers { rx: DEFAULT_RX_BUF_SIZE, tx: size }, ver),
                    ),
                    m => m,
                },
                ..old(self)@
            }),
    {
        match &mut self.inner {
            Inner::Init(init) => {
                let _ = init.resize_buffers(DEFAULT_RX_BUF_SIZE, size);
            },
            _ => {},
        }
    }

    pub fn local_endpoint(&self, status: Option<TcpStatus>) -> (r: Option<Endpoint>)
        ensures
            r is Some,
            r->0@ == EndpointModel::Ip(self@.inner.local(status)),
    {
        Some(Endpoint::Ip(self.inner.local_endpoint(status)))
    }

    pub fn remote_endpoint(&self, status: Option<TcpStatus>) -> (r: Option<Endpoint>)
        ensures
            match self@.inner.remote(status) {
                Some(ep) => r is Some && r->0@ == EndpointModel::Ip(ep),
                None => r is None,
            },
    {
        match self.inner.remote_endpoint(status) {
            Some(ep) => Some(Endpoint::Ip(ep)),
            None => None,
        }
    }

    /// Ends one direction of the connection, or both, and wakes everyone.
    pub fn shutdown(&mut self, how: u32) -> (r: Result<(Option<TcpOrder>, TcpWakes), SyscallErr>)
        ensures
            (final(self)@, r) == shut(old(self)@, how),
    {
        let order = match self.inner.shutdown(how) {
            Ok(order) => order,
            Err(e) => return Err(e),
        };
        if how != 1 {
            self.core.read_shutdown = true;
        }
        if how != 0 {
            self.core.write_shutdown = true;
        }
        Ok((order, every_wake()))
    }

    pub fn set_nagle_enabled(&self, enabled: bool) -> (r: Vec<TcpOrder>)
        ensures
            r@ == lifecycle::option_orders(
                lifecycle::option_handles(self@.inner),
                inner::TcpOp::SetNagle(enabled),
            ),
    {
        self.inner.set_nagle_enabled(enabled)
    }

    pub fn set_keep_alive(&self, enabled: bool) -> (r: Vec<TcpOrder>)
        ensures
            r@ == lifecycle::option_orders(
                lifecycle::option_handles(self@.inner),
                inner::TcpOp::SetKeepAlive(
                    if enabled {
                        Some(inner::KEEP_ALIVE_SECS)
                    } else {
                        None
                    },
                ),
            ),
    {
        self.inner.set_keep_alive(enabled)
    }

    pub fn reuse_addr(&self) -> (r: Result<usize, SyscallErr>)
        ensures
            r == Ok::<usize, SyscallErr>(
                if self@.core.reuse_addr {
                    1
                } else {
                    0
                },
            ),
    {
        Ok(
            if self.core.reuse_addr {
                1
            } else {
                0
            },
        )
    }

    pub fn set_reuse_addr(&mut self, enabled: bool) -> (r: Result<usize, SyscallErr>)
        ensures
            r == Ok::<usize, SyscallErr>(0),
            final(self)@ == (TcpModel {
                core: TcpCore { reuse_addr: enabled, ..old(self)@.core },
                ..old(self)@
            }),
    {
        self.core.reuse_addr = enabled;
        Ok(0)
    }

    /// Holds the socket to an interface, or to none.
    pub fn set_bind_to_device(&mut self, ns: &NetNamespace, ifname: &str) -> (r: Result<
        usize,
        SyscallErr,
    >)
        ensures
            ({
                let found = seqs::find_first(ns.devs(), net_core::named(ifname@));
                &&& r == if ifname@.len() == 0 || found is Some {
                    Ok::<usize, SyscallErr>(0)
                } else {
                    Err(SyscallErr::ENODEV)
                }
                &&& final(self)@ == if r is Ok {
                    TcpModel {
                        core: TcpCore {
                            bound_ifindex: if ifname@.len() == 0 {
                                None
                            } else {
                                Some(found->0.nic_id)
                            },
                            ..old(self)@.core
                        },
                        ..old(self)@
                    }
                } else {
                    old(self)@
                }
            }),
    {
        if ifname.unicode_len() == 0 {
            self.core.bound_ifindex = None;
            return Ok(0);
        }
        match ns.device_by_name(ifname) {
            Some(d) => {
                self.core.bound_ifindex = Some(d.nic_id);
                Ok(0)
            },
            None => Err(SyscallErr::ENODEV),
        }
    }

    pub fn join_multicast_group(&mut self) -> (r: Result<usize, SyscallErr>)
        ensures
            r == Ok::<usize, SyscallErr>(0),
            final(self)@ == (TcpModel {
                core: TcpCore { multicast_group_joined: true, ..old(self)@.core },
                ..old(self)@
            }),
    {
        self.core.multicast_group_joined = true;
        Ok(0)
    }

    pub fn leave_multicast_group(&mut self) -> (r: Result<usize, SyscallErr>)
        ensures
            r == if old(self)@.core.multicast_group_joined {
                Ok::<usize, SyscallErr>(0)
            } else {
                Err(SyscallErr::EADDRNOTAVAIL)
            },
            final(self)@ == (TcpModel {
                core: TcpCore { multicast_group_joined: false, ..old(self)@.core },
                ..old(self)@
            }),
    {
        let joined = self.core.multicast_group_joined;
        self.core.multicast_group_joined = false;
        if joined {
            Ok(0)
        } else {
            Err(SyscallErr::EADDRNOTAVAIL)
        }
    }

    /// A stream has no datagrams to send.
    pub fn send_to(&self, _buf: &[u8], _dest: &Endpoint) -> (r: Result<usize, SyscallErr>)
        ensures
            r == Err::<usize, SyscallErr>(SyscallErr::EOPNOTSUPP),
    {
        Err(SyscallErr::EOPNOTSUPP)
    }

    fn poll_unless(&self, known: bool) -> (r: PollRequest)
        ensures
            r == if known {
                PollRequest::Skip
            } else {
                match fast_key(self@.core) {
                    Some((_, ifindex)) => PollRequest::Stack(ifindex),
                    None => PollRequest::All,
                }
            },
    {
        if known {
            return PollRequest::Skip;
        }
        match self.fast_key_established() {
            Some((_, ifindex)) => PollRequest::Stack(ifindex),
            None => PollRequest::All,
        }
    }

    /// Which stacks to run before a receive: none, if it was readable at the
    /// last look.
    pub fn poll_before_recv(&self) -> (r: PollRequest)
        ensures
            r == if self@.core.pollee.epollin {
                PollRequest::Skip
            } else {
                match fast_key(self@.core) {
                    Some((_, ifindex)) => PollRequest::Stack(ifindex),
                    None => PollRequest::All,
                }
            },
    {
        self.poll_unless(self.core.pollee.epollin)
    }

    /// Which stacks to run before a send.
    pub fn poll_before_send(&self) -> (r: PollRequest)
        ensures
            r == if self@.core.pollee.epollout {
                PollRequest::Skip
            } else {
                match fast_key(self@.core) {
                    Some((_, ifindex)) => PollRequest::Stack(ifindex),
                    None => PollRequest::All,
                }
            },
    {
        self.poll_unless(self.core.pollee.epollout)
    }

    fn ask_stack(&self, own: Option<RouteSocketHandle>) -> (r: StackAsk)
        ensures
            r == ask_of(fast_key(self@.core), own),
    {
        match self.fast_key_established() {
            Some((route, ifindex)) => StackAsk::Fast { route, ifindex, own },
            None => match own {
                Some(h) => StackAsk::Own(h),
                None => StackAsk::Nothing,
            },
        }
    }

    /// What the stack is asked before [`TcpSocket::try_recv`].
    pub fn plan_recv(&self) -> (r: StackAsk)
        ensures
            r == recv_ask(self@),
    {
        if self.core.read_shutdown {
            return StackAsk::Nothing;
        }
        let own = match &self.inner {
            Inner::Established(e) => Some(e.handle),
            _ => None,
        };
        self.ask_stack(own)
    }

    /// What the stack is asked before [`TcpSocket::try_send`], which is then
    /// given the same word on the handshake.
    pub fn plan_send(&self, handshake: Option<TcpStatus>) -> (r: StackAsk)
        ensures
            r == send_ask(self@, handshake),
    {
        if self.core.write_shutdown {
            return StackAsk::Nothing;
        }
        let own = match &self.inner {
            Inner::Established(e) => Some(e.handle),
            Inner::Connecting(c) => {
                let mut now = *c;
                let mut events = self.core.pollee;
                let _ = now.update_io_events(&mut events, handshake);
                if now.is_connected() {
                    Some(now.handle)
                } else {
                    None
                }
            },
            _ => None,
        };
        assert(seq![handshake].len() == 1);
        self.ask_stack(own)
    }

    /// Receives without waiting. `fast` is what the stack did over the fast
    /// key, if it knows that connection; otherwise `io` is what it did over
    /// the state's own handle. The bytes of a connection stand in the buffer
    /// already.
    pub fn try_recv(&mut self, buf: &mut [u8], fast: Option<FastIo>, io: &StackIo) -> (r: Result<
        isize,
        SyscallErr,
    >)
        requires
            old(buf)@.len() <= isize::MAX,
            io.moved matches Some(n) ==> n <= isize::MAX,
            fast matches Some(f) ==> (f.moved matches Some(n) ==> n <= isize::MAX),
            old(self)@.inner is Listening ==> io.after@.len() == old(self)@.inner.handles().len(),
        ensures
            ({
                let (data, next, answer) = received(
                    old(self)@,
                    old(buf)@.len() as int,
                    fast,
                    io.before,
                    io.moved,
                    io.after@,
                );
                &&& final(self)@ == next
                &&& r == answer
                &&& final(buf)@ == data + old(buf)@.skip(data.len() as int)
            }),
    {
        assert(Seq::<u8>::empty() + buf@.skip(0) =~= buf@);
        if self.core.read_shutdown {
            return Ok(0);
        }
        if self.fast_key_established().is_some() {
            match fast {
                Some(f) => {
                    let ret = io::answer_recv(Some(f.before), f.moved);
                    self.core.pollee.epollin =
                    f.after.can_recv || !f.after.may_recv || f.after.state.peer_finished()
                        || matches!(f.after.state, TcpState::Closed);
                    return ret;
                },
                None => {},
            }
            self.invalidate_fast();
        }
        let ret = self.inner.try_recv(buf, io.before, io.moved);
        let _ = self.update_io_events(&io.after);
        ret
    }

    /// Receives without waiting and without taking away. The stack is asked as
    /// for [`TcpSocket::try_recv`], but only to show its bytes: they stand in
    /// the buffer, and the stack still has them too. The socket stays as it is.
    pub fn try_peek(&mut self, buf: &mut [u8], fast: Option<FastIo>, io: &StackIo) -> (r: Result<
        isize,
        SyscallErr,
    >)
        requires
            old(buf)@.len() <= isize::MAX,
            io.moved matches Some(n) ==> n <= isize::MAX,
            fast matches Some(f) ==> (f.moved matches Some(n) ==> n <= isize::MAX),
        ensures
            final(self)@ == old(self)@,
            ({
                let (data, answer) = peeked(
                    old(self)@,
                    old(buf)@.len() as int,
                    fast,
                    io.before,
                    io.moved,
                );
                &&& r == answer
                &&& final(buf)@ == data + old(buf)@.skip(data.len() as int)
            }),
    {
        assert(Seq::<u8>::empty() + buf@.skip(0) =~= buf@);
        if self.core.read_shutdown {
            return Ok(0);
        }
        if self.fast_key_established().is_some() {
            match fast {
                Some(f) => return io::answer_recv(Some(f.before), f.moved),
                None => {},
            }
        }
        self.inner.try_recv_peek(buf, io.before, io.moved)
    }

    /// Sends without waiting. A handshake that is under way is looked at
    /// first, with the stack's word on it in `handshake`.
    pub fn try_send(
        &mut self,
        buf: &[u8],
        handshake: Option<TcpStatus>,
        fast: Option<FastIo>,
        io: &StackIo,
        removals: &mut Vec<RouteSocketHandle>,
    ) -> (r: Result<isize, SyscallErr>)
        requires
            buf@.len() <= isize::MAX,
            io.moved matches Some(n) ==> n <= isize::MAX,
            fast matches Some(f) ==> (f.moved matches Some(n) ==> n <= isize::MAX),
            old(self)@.inner is Listening ==> io.after@.len() == old(self)@.inner.handles().len(),
        ensures
            ({
                let (next, gone, answer) = sent(
                    old(self)@,
                    buf@,
                    handshake,
                    fast,
                    io.before,
                    io.moved,
                    io.after@,
                );
                &&& final(self)@ == next
                &&& final(removals)@ == old(removals)@ + gone
                &&& r == answer
            }),
    {
        let key = self.fast_key_established();
        if self.core.write_shutdown {
            return Err(SyscallErr::EPIPE);
        }
        self.settle_handshake(handshake, removals);
        if key.is_some() {
            match fast {
                Some(f) => {
                    let ret = io::answer_of(inner::answer_send(Some(f.before), f.moved));
                    self.core.pollee.epollout =
                    f.after.can_send && !matches!(
                        f.after.state,
                        TcpState::Closed | TcpState::TimeWait | TcpState::Closing | TcpState::LastAck
                    );
                    return ret;
                },
                None => {},
            }
            self.invalidate_fast();
        }
        self.slow_send(buf, io)
    }

    /// The look at a handshake that comes before a send.
    fn settle_handshake(&mut self, handshake: Option<TcpStatus>, removals: &mut Vec<RouteSocketHandle>)
        ensures
            ({
                let (next, gone) = before_send(old(self)@, handshake);
                &&& final(self)@ == next
                &&& final(removals)@ == old(removals)@ + gone
            }),
            final(self)@.inner is Listening ==> final(self)@.inner == old(self)@.inner,
    {
        if matches!(self.inner, Inner::Connecting(_)) {
            let _ = self.try_connect(handshake, removals);
        }
    }

    fn slow_send(&mut self, buf: &[u8], io: &StackIo) -> (r: Result<isize, SyscallErr>)
        requires
            buf@.len() <= isize::MAX,
            io.moved matches Some(n) ==> n <= isize::MAX,
            old(self)@.inner is Listening ==> io.after@.len() == old(self)@.inner.handles().len(),
        ensures
            (final(self)@, r) == slow_sent(old(self)@, buf@, io.before, io.moved, io.after@),
    {
        let ret = self.inner.try_send(buf, io.before, io.moved);
        let _ = self.update_io_events(&io.after);
        ret
    }

    /// Answers a receive into user memory: `got` is the answer of the receive
    /// and `copied` how many of its bytes user memory took.
    pub fn try_recv_user(
        &mut self,
        room: usize,
        got: Result<isize, SyscallErr>,
        copied: Option<isize>,
        after: &Vec<Option<TcpStatus>>,
    ) -> (r: Result<isize, SyscallErr>)
        requires
            old(self)@.inner is Listening ==> after@.len() == old(self)@.inner.handles().len(),
        ensures
            r == if old(self)@.core.read_shutdown || room == 0 {
                Ok(0)
            } else {
                match got {
                    Err(e) => Err(e),
                    Ok(n) => if n <= 0 {
                        Ok(n)
                    } else {
                        match copied {
                            Some(c) => Ok(c),
                            None => Err(SyscallErr::EFAULT),
                        }
                    },
                }
            },
            final(self)@ == if old(self)@.core.read_shutdown || room == 0 {
                old(self)@
            } else {
                refresh(old(self)@, after@)
            },
    {
        if self.core.read_shutdown || room == 0 {
            return Ok(0);
        }
        let _ = self.update_io_events(after);
        match got {
            Err(e) => Err(e),
            Ok(n) => {
                if n <= 0 {
                    return Ok(n);
                }
                match copied {
                    Some(c) => Ok(c),
                    None => Err(SyscallErr::EFAULT),
                }
            },
        }
    }

    /// Sends what was read of user memory, without waiting.
    pub fn try_send_user(
        &mut self,
        copied: Option<&[u8]>,
        handshake: Option<TcpStatus>,
        io: &StackIo,
        removals: &mut Vec<RouteSocketHandle>,
    ) -> (r: Result<isize, SyscallErr>)
        requires
            copied matches Some(b) ==> b@.len() <= isize::MAX,
            io.moved matches Some(n) ==> n <= isize::MAX,
            old(self)@.inner is Listening ==> io.after@.len() == old(self)@.inner.handles().len(),
        ensures
            ({
                let (next, gone, answer) = user_sent(
                    old(self)@,
                    match copied {
                        Some(b) => Some(b@),
                        None => None,
                    },
                    handshake,
                    io.before,
                    io.moved,
                    io.after@,
                );
                &&& final(self)@ == next
                &&& final(removals)@ == old(removals)@ + gone
                &&& r == answer
            }),
    {
        if self.core.write_shutdown {
            return Err(SyscallErr::EPIPE);
        }
        self.settle_handshake(handshake, removals);
        let data = match copied {
            Some(data) => data,
            None => return Err(SyscallErr::EFAULT),
        };
        self.slow_send(data, io)
    }

    pub fn socket_r_ready(&mut self, status: &Vec<Option<TcpStatus>>) -> (r: bool)
        requires
            old(self)@.inner is Listening ==> status@.len() == old(self)@.inner.handles().len(),
        ensures
            final(self)@ == refresh(old(self)@, status@),
            r == final(self)@.core.pollee.epollin,
    {
        let _ = self.update_io_events(status);
        self.core.pollee.epollin
    }

    pub fn socket_w_ready(&mut self, status: &Vec<Option<TcpStatus>>) -> (r: bool)
        requires
            old(self)@.inner is Listening ==> status@.len() == old(self)@.inner.handles().len(),
        ensures
            final(self)@ == refresh(old(self)@, status@),
            r == final(self)@.core.pollee.epollout,
    {
        let _ = self.update_io_events(status);
        self.core.pollee.epollout
    }

    pub fn socket_hang_up(&self) -> (r: bool)
        ensures
            r == self@.core.pollee.epollhup,
    {
        self.core.pollee.epollhup
    }

    pub fn tcp_state(&self, status: Option<TcpStatus>) -> (r: Option<u8>)
        ensures
            r == Some(self@.inner.state_code(status)),
    {
        Some(self.inner.tcp_state_code(status))
    }

    /// Only an IPv6 socket can be told to keep to IPv6.
    pub fn set_ipv6_v6only(&mut self, enabled: bool) -> (r: Result<usize, SyscallErr>)
        ensures
            r == if old(self)@.core.ip_version == IpVersion::Ipv6 {
                Ok::<usize, SyscallErr>(0)
            } else {
                Err(SyscallErr::ENOPROTOOPT)
            },
            final(self)@ == if r is Ok {
                TcpModel {
                    core: TcpCore { ipv6_v6only: enabled, ..old(self)@.core },
                    ..old(self)@
                }
            } else {
                old(self)@
            },
    {
        if self.core.ip_version != IpVersion::Ipv6 {
            return Err(SyscallErr::ENOPROTOOPT);
        }
        self.core.ipv6_v6only = enabled;
        Ok(0)
    }

    /// Closes the socket: its connections are queued for removal, it reports
    /// that it has hung up, and everyone who waits for it is woken.
    pub fn close(&mut self, status: &Vec<Option<TcpStatus>>, removals: &mut Vec<RouteSocketHandle>) -> (r:
        (Vec<TcpOrder>, TcpWakes))
        requires
            old(self)@.inner is Listening ==> status@.len() == old(self)@.inner.handles().len(),
        ensures
            r.0@ == old(self)@.inner.close_orders(status@),
            r.1 == all_wakes(),
            final(removals)@ == old(removals)@ + old(self)@.inner.handles(),
            final(self)@ == (TcpModel {
                core: TcpCore {
                    fast_state: 0,
                    pollee: EPollEvent {
                        epollin: true,
                        epollrdnorm: true,
                        epollhup: true,
                        epollrdhup: true,
                        ..event::no_events()
                    },
                    ..old(self)@.core
                },
                ..old(self)@
            }),
    {
        self.invalidate_fast();
        let orders = self.inner.close(status, removals);
        let mut events = EPollEvent::empty();
        events.epollin = true;
        events.epollrdnorm = true;
        events.epollhup = true;
        events.epollrdhup = true;
        self.core.pollee = events;
        (orders, every_wake())
    }
}

fn has_slot(slots: &Vec<SocketSlot>, slot: SocketSlot) -> (r: bool)
    ensures
        r == slots@.contains(slot),
{
    let mut i: usize = 0;
    while i < slots.len()
        invariant
            i <= slots@.len(),
            forall|j: int| 0 <= j < i ==> slots@[j] != slot,
        decreases slots@.len() - i,
    {
        if slots[i] == slot {
            assert(slots@[i as int] == slot);
            return true;
        }
        i += 1;
    }
    false
}

/// Sums over the receives since the last report.
#[derive(Clone, Copy, Debug, PartialEq, Eq, Structural)]
pub struct RecvPerf {
    pub calls: usize,
    pub bytes: usize,
    pub eagain: usize,
    pub zero: usize,
    pub requested: usize,
    /// When the last report was made; zero before the first look at the
    /// clock.
    pub last_report: usize,
}

/// A report on the receives of a stretch of time.
#[derive(Clone, Copy, Debug, PartialEq, Eq, Structural)]
pub struct RecvReport {
    pub elapsed_ms: usize,
    pub calls: usize,
    pub bytes: usize,
    pub kib_per_second: usize,
    pub average_request: usize,
    pub eagain: usize,
    pub zero: usize,
}

pub const TCP_RECV_PERF_REPORT_INTERVAL_SECS: usize = 2;

/// How many calls go by between two looks at the clock.
pub const TCP_RECV_PERF_TIME_CHECK_CALLS: usize = 32;

pub open spec fn at_least_one(n: usize) -> usize {
    if n == 0 {
        1
    } else {
        n
    }
}

/// The product, or the largest number that there is.
pub open spec fn capped_product(a: usize, b: usize) -> usize {
    if a * b > usize::MAX {
        usize::MAX
    } else {
        (a * b) as usize
    }
}

/// The sums with one more receive.
pub open spec fn counted(p: RecvPerf, requested: usize, result: Result<isize, SyscallErr>) -> RecvPerf {
    RecvPerf {
        calls: p.calls.wrapping_add(1),
        requested: p.requested.wrapping_add(requested),
        bytes: match result {
            Ok(n) => if n > 0 {
                p.bytes.wrapping_add(n as usize)
            } else {
                p.bytes
            },
            _ => p.bytes,
        },
        zero: match result {
            Ok(n) => if n > 0 {
                p.zero
            } else {
                p.zero.wrapping_add(1)
            },
            _ => p.zero,
        },
        eagain: if result == Err::<isize, SyscallErr>(SyscallErr::EAGAIN) {
            p.eagain.wrapping_add(1)
        } else {
            p.eagain
        },
        ..p
    }
}

/// Whether the sums are due for a report.
pub open spec fn report_due(p: RecvPerf, now: usize, frequency: usize) -> bool {
    &&& p.calls % TCP_RECV_PERF_TIME_CHECK_CALLS == 0
    &&& p.last_report != 0
    &&& now.wrapping_sub(p.last_report) >= capped_product(
        at_least_one(frequency),
        TCP_RECV_PERF_REPORT_INTERVAL_SECS,
    )
}

/// The report that the sums give.
pub open spec fn recv_report(p: RecvPerf, now: usize, frequency: usize) -> RecvReport {
    let elapsed_ms = capped_product(now.wrapping_sub(p.last_report), 1000) / at_least_one(frequency);
    RecvReport {
        elapsed_ms,
        calls: p.calls,
        bytes: p.bytes,
        kib_per_second: capped_product(p.bytes, 1000) / at_least_one(elapsed_ms) / 1024,
        average_request: p.requested / at_least_one(p.calls),
        eagain: p.eagain,
        zero: p.zero,
    }
}

/// Adds a receive to the sums, and makes a report when one is due. `now` is
/// the clock and `frequency` how often it ticks in a second.
pub fn record_tcp_recv_perf(
    perf: &mut RecvPerf,
    requested: usize,
    result: &Result<isize, SyscallErr>,
    now: usize,
    frequency: usize,
) -> (r: Option<RecvReport>)
    ensures
        ({
            let p = counted(*old(perf), requested, *result);
            &&& r == if report_due(p, now, frequency) {
                Some(recv_report(p, now, frequency))
            } else {
                None
            }
            &&& *final(perf) == if report_due(p, now, frequency) {
                RecvPerf { calls: 0, bytes: 0, eagain: 0, zero: 0, requested: 0, last_report: now }
            } else if p.calls % TCP_RECV_PERF_TIME_CHECK_CALLS == 0 && p.last_report == 0 {
                RecvPerf { last_report: now, ..p }
            } else {
                p
            }
        }),
{
    perf.calls = perf.calls.wrapping_add(1);
    perf.requested = perf.requested.wrapping_add(requested);
    match *result {
        Ok(n) => {
            if n > 0 {
                perf.bytes = perf.bytes.wrapping_add(n as usize);
            } else {
                perf.zero = perf.zero.wrapping_add(1);
            }
        },
        Err(e) => {
            if e == SyscallErr::EAGAIN {
                perf.eagain = perf.eagain.wrapping_add(1);
            }
        },
    }
    assert(*perf == counted(*old(perf), requested, *result));
    if perf.calls % TCP_RECV_PERF_TIME_CHECK_CALLS != 0 {
        return None;
    }
    let frequency: usize = if frequency == 0 {
        1
    } else {
        frequency
    };
    if perf.last_report == 0 {
        perf.last_report = now;
        return None;
    }
    let elapsed: usize = now.wrapping_sub(perf.last_report);
    if elapsed < saturating_product(frequency, TCP_RECV_PERF_REPORT_INTERVAL_SECS) {
        return None;
    }
    let elapsed_ms: usize = saturating_product(elapsed, 1000) / frequency;
    let per: usize = if elapsed_ms == 0 {
        1
    } else {
        elapsed_ms
    };
    let calls: usize = if perf.calls == 0 {
        1
    } else {
        perf.calls
    };
    let report = RecvReport {
        elapsed_ms,
        calls: perf.calls,
        bytes: perf.bytes,
        kib_per_second: saturating_product(perf.bytes, 1000) / per / 1024,
        average_request: perf.requested / calls,
        eagain: perf.eagain,
        zero: perf.zero,
    };
    *perf =
    RecvPerf { calls: 0, bytes: 0, eagain: 0, zero: 0, requested: 0, last_report: now };
    Some(report)
}

/// The product, or the largest number that there is.
pub fn saturating_product(a: usize, b: usize) -> (r: usize)
    ensures
        r == capped_product(a, b),
{
    match a.checked_mul(b) {
        Some(p) => p,
        None => usize::MAX,
    }
}

/// Where the stack is asked for nothing, what it would have done changes
/// neither the answer nor the bytes.
pub proof fn law_unasked_stack_does_not_matter(
    m: TcpModel,
    data: Seq<u8>,
    room: int,
    handshake: Option<TcpStatus>,
    fast: Option<FastIo>,
    before: Option<TcpStatus>,
    moved: Option<usize>,
    after: Seq<Option<TcpStatus>>,
)
    ensures
        send_ask(m, handshake) is Nothing ==> sent(m, data, handshake, fast, before, moved, after)
            == sent(m, data, handshake, None, None, None, after),
        recv_ask(m) is Nothing ==> received(m, room, fast, before, moved, after) == received(
            m,
            room,
            None,
            None,
            None,
            after,
        ),
{
}

/// A look takes nothing away: where the stack then moves the bytes that it has
/// shown, the receive that follows gives the same bytes and the same answer.
pub proof fn law_peek_then_receive(
    m: TcpModel,
    room: int,
    fast: Option<FastIo>,
    before: Option<TcpStatus>,
    moved: Option<usize>,
    after: Seq<Option<TcpStatus>>,
)
    ensures
        received(m, room, fast, before, moved, after).0 == peeked(m, room, fast, before, moved).0,
        received(m, room, fast, before, moved, after).2 == peeked(m, room, fast, before, moved).1,
{
}

/// A connect that the peer refuses leaves a fresh socket of the same family,
/// hands its connection over for removal, and answers `ECONNREFUSED`; one that
/// the peer takes leaves an established one.
pub proof fn law_handshake_ends(m: TcpModel, c: Connecting, s: TcpStatus)
    requires
        m.inner == InnerModel::Connecting(c),
        c.result is Connecting,
        !c.was_established,
    ensures
        s.state is Closed ==> ({
            let (next, gone, answer) = connect_tried(m, Some(s));
            &&& next.inner == InnerModel::Init(
                Init::Unbound(inner::default_buffers(), c.local.addr.spec_version()),
            )
            &&& gone == seq![c.handle]
            &&& answer == Err::<isize, SyscallErr>(SyscallErr::ECONNREFUSED)
        }),
        s.state is Established ==> ({
            let (next, gone, answer) = connect_tried(m, Some(s));
            &&& next.inner == InnerModel::Established(
                Established { handle: c.handle, local: c.local, peer: c.remote },
            )
            &&& gone == Seq::<RouteSocketHandle>::empty()
            &&& answer == Ok::<isize, SyscallErr>(0)
        }),
        s.state is SynSent || s.state is SynReceived ==> ({
            let (next, gone, answer) = connect_tried(m, Some(s));
            &&& next.inner == m.inner
            &&& gone == Seq::<RouteSocketHandle>::empty()
            &&& answer == Err::<isize, SyscallErr>(SyscallErr::EAGAIN)
        }),
{
}

/// Waiters hear only of events that were not there at the last look, and of
/// none at all when nothing has changed.
pub proof fn law_wakes_are_edges(m: TcpModel, status: Seq<Option<TcpStatus>>)
    ensures
        ({
            let now = refresh(m, status).core.pollee;
            let w = edge_wakes(m.core.pollee, now);
            let none = event::no_events();
            &&& w.accept.spec_and(m.core.pollee) == none
            &&& w.connect.spec_and(m.core.pollee) == none
            &&& w.recv.spec_and(m.core.pollee) == none
            &&& w.send.spec_and(m.core.pollee) == none
            &&& w.recv.spec_without(now) == none
            &&& w.send.spec_without(now) == none
            &&& w.accept.spec_without(now) == none
            &&& w.connect.spec_without(now) == none
            &&& edge_wakes(now, refresh(refresh(m, status), status).core.pollee) == (TcpWakes {
                accept: none,
                connect: none,
                recv: none,
                send: none,
            })
        }),
{
}

/// After a shutdown of the sending side every send fails with `EPIPE`, and
/// after one of the receiving side every receive finds the end.
pub proof fn law_shutdown_lasts(
    m: TcpModel,
    how: u32,
    data: Seq<u8>,
    room: int,
    handshake: Option<TcpStatus>,
    fast: Option<FastIo>,
    before: Option<TcpStatus>,
    moved: Option<usize>,
    after: Seq<Option<TcpStatus>>,
)
    requires
        shut(m, how).1 is Ok,
    ensures
        how != 0 ==> sent(shut(m, how).0, data, handshake, fast, before, moved, after).2 == Err::<
            isize,
            SyscallErr,
        >(SyscallErr::EPIPE),
        how != 1 ==> received(shut(m, how).0, room, fast, before, moved, after).2 == Ok::<
            isize,
            SyscallErr,
        >(0),
{
}

/// A connection that waits on a listener is accepted, with a listener in its
/// place.
pub proof fn law_accept_takes_a_connection(
    l: inner::ListeningModel,
    status: Seq<Option<TcpStatus>>,
    fresh: RouteSocketHandle,
)
    requires
        status.len() == l.handles.len(),
        exists|i: int| 0 <= i < status.len() && inner::has_connection(#[trigger] status[i]),
    ensures
        ({
            let (next, got) = inner::accepted(l, status, Replacement::Added(fresh));
            &&& got is Ok
            &&& l.handles.contains(got->Ok_0.0)
            &&& next.handles.len() == l.handles.len()
            &&& next.handles.contains(fresh)
            &&& next.listen_addr == l.listen_addr
        }),
{
    let i = choose|i: int| 0 <= i < status.len() && inner::has_connection(#[trigger] status[i]);
    assert(inner::connected()(status[i]));
    seqs::lemma_first_index_found(status, inner::connected());
    let k = inner::first_pending(status)->0;
    let (next, got) = inner::accepted(l, status, Replacement::Added(fresh));
    assert(l.handles[k] == got->Ok_0.0);
    assert(next.handles[k] == fresh);
}

} // verus!
