//! The states of a TCP socket: fresh, connecting, listening, established,
//! connected to itself, closed.
//!
//! The connections themselves are sockets of a protocol stack, known here by
//! their handles. What the stack reports of one comes in as a [`TcpStatus`],
//! and what the stack has to do with one goes out as a [`TcpOrder`].
use vstd::prelude::*;
use std::collections::VecDeque;
use crate::error::SyscallErr;
use crate::event;
use crate::event::EPollEvent;
use crate::routing::RouteSocketHandle;
use crate::seqs;
use crate::wire::{IpAddress, IpEndpoint, IpListenEndpoint, IpVersion};

verus! {

pub const DEFAULT_RX_BUF_SIZE: usize = 65536;

pub const DEFAULT_TX_BUF_SIZE: usize = 65536;

pub const TCP_MSS_DEFAULT: u32 = 32768;

/// The largest segment that a connection announces.
pub const TCP_MSS: u32 = 32768;

/// The most connections that wait for a listening socket.
pub const BACKLOG_SIZE: u32 = 16;

pub const LISTEN_BUFFER_SIZE: usize = 32768;

/// How long a connection that is kept alive may idle.
pub const KEEP_ALIVE_SECS: u64 = 7200;

/// The states of RFC 793, as the stack reports them.
#[derive(Clone, Copy, Debug, PartialEq, Eq, Structural)]
pub enum TcpState {
    Closed,
    Listen,
    SynSent,
    SynReceived,
    Established,
    FinWait1,
    FinWait2,
    CloseWait,
    Closing,
    LastAck,
    TimeWait,
}

/// What the stack reports of one of its sockets.
#[derive(Clone, Copy, Debug, PartialEq, Eq, Structural)]
pub struct TcpStatus {
    pub state: TcpState,
    /// Whether the send buffer takes bytes.
    pub can_send: bool,
    /// Whether bytes wait in the receive buffer.
    pub can_recv: bool,
    /// Whether bytes can still arrive, or wait.
    pub may_recv: bool,
    pub local: Option<IpEndpoint>,
    pub remote: Option<IpEndpoint>,
    pub send_capacity: usize,
    pub recv_capacity: usize,
}

/// What the stack is to do with one of its sockets.
#[derive(Clone, Copy, Debug, PartialEq, Eq, Structural)]
pub enum TcpOp {
    Close,
    Abort,
    SetNagle(bool),
    SetKeepAlive(Option<u64>),
}

#[derive(Clone, Copy, Debug, PartialEq, Eq, Structural)]
pub struct TcpOrder {
    pub handle: RouteSocketHandle,
    pub op: TcpOp,
}

/// The buffer sizes of a socket that the stack does not know yet.
#[derive(Clone, Copy, Debug, PartialEq, Eq, Structural)]
pub struct TcpBuffers {
    pub rx: usize,
    pub tx: usize,
}

#[derive(Clone, Copy, Debug, PartialEq, Eq, Structural)]
pub enum ConnectResult {
    Connected,
    Connecting,
    Refused,
    RefusedConsumed,
}

pub open spec fn default_buffers() -> TcpBuffers {
    TcpBuffers { rx: DEFAULT_RX_BUF_SIZE, tx: DEFAULT_TX_BUF_SIZE }
}

pub fn new_socket() -> (r: TcpBuffers)
    ensures
        r == default_buffers(),
{
    TcpBuffers { rx: DEFAULT_RX_BUF_SIZE, tx: DEFAULT_TX_BUF_SIZE }
}

/// The buffers of a listener beside the first.
pub open spec fn listener_buffers() -> TcpBuffers {
    TcpBuffers { rx: LISTEN_BUFFER_SIZE, tx: LISTEN_BUFFER_SIZE }
}

pub fn new_listener() -> (r: TcpBuffers)
    ensures
        r == listener_buffers(),
{
    TcpBuffers { rx: LISTEN_BUFFER_SIZE, tx: LISTEN_BUFFER_SIZE }
}

impl TcpState {
    /// Whether there is a connection, or a listener.
    pub open spec fn spec_is_open(self) -> bool {
        !(self is Closed || self is TimeWait)
    }

    pub fn is_open(&self) -> (r: bool)
        ensures
            r == self.spec_is_open(),
    {
        !matches!(self, TcpState::Closed | TcpState::TimeWait)
    }

    /// Whether there is a connection.
    pub open spec fn spec_is_active(self) -> bool {
        !(self is Closed || self is TimeWait || self is Listen)
    }

    pub fn is_active(&self) -> (r: bool)
        ensures
            r == self.spec_is_active(),
    {
        !matches!(self, TcpState::Closed | TcpState::TimeWait | TcpState::Listen)
    }

    /// Whether the handshake is over and the connection is not closed by this
    /// side.
    pub open spec fn spec_is_connected(self) -> bool {
        self is Established || self is CloseWait
    }

    pub fn is_connected(&self) -> (r: bool)
        ensures
            r == self.spec_is_connected(),
    {
        matches!(self, TcpState::Established | TcpState::CloseWait)
    }

    /// Whether the peer has closed its half and the connection still stands.
    pub open spec fn spec_peer_finished(self) -> bool {
        self is CloseWait || self is Closing || self is LastAck || self is TimeWait
    }

    pub fn peer_finished(&self) -> (r: bool)
        ensures
            r == self.spec_peer_finished(),
    {
        matches!(
            self,
            TcpState::CloseWait | TcpState::Closing | TcpState::LastAck | TcpState::TimeWait
        )
    }
}

/// The number by which a trace names a state.
pub open spec fn state_number(state: TcpState) -> u64 {
    match state {
        TcpState::Closed => 0,
        TcpState::Listen => 1,
        TcpState::SynSent => 2,
        TcpState::SynReceived => 3,
        TcpState::Established => 4,
        TcpState::FinWait1 => 5,
        TcpState::FinWait2 => 6,
        TcpState::CloseWait => 7,
        TcpState::Closing => 8,
        TcpState::LastAck => 9,
        TcpState::TimeWait => 10,
    }
}

pub fn tcp_state_code(state: &TcpState) -> (r: u64)
    ensures
        r == state_number(*state),
{
    match state {
        TcpState::Closed => 0,
        TcpState::Listen => 1,
        TcpState::SynSent => 2,
        TcpState::SynReceived => 3,
        TcpState::Established => 4,
        TcpState::FinWait1 => 5,
        TcpState::FinWait2 => 6,
        TcpState::CloseWait => 7,
        TcpState::Closing => 8,
        TcpState::LastAck => 9,
        TcpState::TimeWait => 10,
    }
}

impl TcpStatus {
    /// A connection that stands has a peer.
    pub open spec fn wf(self) -> bool {
        self.state.spec_is_connected() ==> self.remote is Some
    }
}

// ---- closed ----------------------------------------------------------

/// The state of a socket that is done with.
#[derive(Clone, Copy, Debug, PartialEq, Eq, Structural)]
pub struct Closed {
    pub ver: IpVersion,
}

impl Closed {
    pub fn new(ver: IpVersion) -> (r: Closed)
        ensures
            r == (Closed { ver }),
    {
        Closed { ver }
    }

    pub fn local_endpoint(&self) -> (r: IpEndpoint)
        ensures
            r == (IpEndpoint { addr: IpAddress::spec_unspecified(self.ver), port: 0 }),
    {
        IpEndpoint::new(IpAddress::unspecified(self.ver), 0)
    }
}

// ---- fresh -----------------------------------------------------------

/// The state of a socket that neither listens nor connects: without an
/// address, or bound to one. The stack does not know it yet.
#[derive(Clone, Copy, Debug, PartialEq, Eq, Structural)]
pub enum Init {
    Unbound(TcpBuffers, IpVersion),
    Bound { socket: TcpBuffers, local: IpEndpoint, pending_error: Option<SyscallErr> },
}

impl Init {
    pub fn new(ver: IpVersion) -> (r: Init)
        ensures
            r == Init::Unbound(default_buffers(), ver),
    {
        Init::Unbound(new_socket(), ver)
    }

    pub open spec fn local(self) -> IpEndpoint {
        match self {
            Init::Unbound(_, ver) => IpEndpoint { addr: IpAddress::spec_unspecified(ver), port: 0 },
            Init::Bound { local, .. } => local,
        }
    }

    /// The address that the socket is bound to, all zeros without one.
    pub fn local_endpoint(&self) -> (r: IpEndpoint)
        ensures
            r == self.local(),
    {
        match self {
            Init::Unbound(_, ver) => IpEndpoint::new(IpAddress::unspecified(*ver), 0),
            Init::Bound { local, .. } => *local,
        }
    }

    pub open spec fn buffers(self) -> TcpBuffers {
        match self {
            Init::Unbound(socket, _) => socket,
            Init::Bound { socket, .. } => socket,
        }
    }

    /// Changes the buffer sizes. Once the socket is bound they stay.
    pub fn resize_buffers(&mut self, rx_size: usize, tx_size: usize) -> (r: Result<(), SyscallErr>)
        ensures
            r is Ok,
            *final(self) == match *old(self) {
                Init::Unbound(_, ver) => Init::Unbound(TcpBuffers { rx: rx_size, tx: tx_size }, ver),
                Init::Bound { .. } => *old(self),
            },
    {
        match *self {
            Init::Unbound(_, ver) => {
                *self = Init::Unbound(TcpBuffers { rx: rx_size, tx: tx_size }, ver);
            },
            Init::Bound { .. } => {},
        }
        Ok(())
    }

    /// Hands a socket without an address to the stack. `attached` is the
    /// handle that the stack gave it, if it took it; `ephemeral` is the port
    /// that it gets. A bound socket is not handed over this way.
    pub fn bind_to_smoltcp(self, ephemeral: u16, attached: Option<RouteSocketHandle>) -> (r: Result<
        (RouteSocketHandle, IpEndpoint),
        (Init, SyscallErr),
    >)
        ensures
            r == match (self, attached) {
                (Init::Unbound(_, ver), Some(handle)) => Ok::<
                    (RouteSocketHandle, IpEndpoint),
                    (Init, SyscallErr),
                >((handle, IpEndpoint { addr: IpAddress::spec_unspecified(ver), port: ephemeral })),
                (Init::Unbound(_, ver), None) => Err(
                    (Init::Unbound(default_buffers(), ver), SyscallErr::EAGAIN),
                ),
                (Init::Bound { .. }, _) => Err(
                    (Init::Unbound(default_buffers(), IpVersion::Ipv4), SyscallErr::EINVAL),
                ),
            },
    {
        match self {
            Init::Unbound(_, ver) => {
                let local = IpEndpoint::new(IpAddress::unspecified(ver), ephemeral);
                match attached {
                    Some(handle) => Ok((handle, local)),
                    None => Err((Init::new(ver), SyscallErr::EAGAIN)),
                }
            },
            Init::Bound { .. } => Err((Init::new(IpVersion::Ipv4), SyscallErr::EINVAL)),
        }
    }
}

// ---- connecting ------------------------------------------------------

/// The state of a socket whose handshake is under way.
#[derive(Clone, Copy, Debug, PartialEq, Eq, Structural)]
pub struct Connecting {
    pub handle: RouteSocketHandle,
    pub local: IpEndpoint,
    pub remote: IpEndpoint,
    pub result: ConnectResult,
    pub was_established: bool,
}

/// How far a handshake is, by what the stack reports: a connection that
/// closes without ever having stood was refused.
pub open spec fn handshake(state: TcpState, was_established: bool) -> ConnectResult {
    if state.spec_is_connected() {
        ConnectResult::Connected
    } else if state.spec_is_open() {
        ConnectResult::Connecting
    } else if was_established {
        ConnectResult::Connected
    } else {
        ConnectResult::Refused
    }
}

/// The events of a handshake that is that far. A refusal that was reported
/// raises no error again.
pub open spec fn connect_events(result: ConnectResult) -> EPollEvent {
    match result {
        ConnectResult::Connected => EPollEvent {
            epollout: true,
            epollwrnorm: true,
            ..event::no_events()
        },
        ConnectResult::Connecting => event::no_events(),
        ConnectResult::Refused => EPollEvent {
            epollin: true,
            epollrdnorm: true,
            epollout: true,
            epollwrnorm: true,
            epollerr: true,
            epollhup: true,
            epollrdhup: true,
        },
        ConnectResult::RefusedConsumed => EPollEvent {
            epollin: true,
            epollrdnorm: true,
            epollout: true,
            epollwrnorm: true,
            epollerr: false,
            epollhup: true,
            epollrdhup: true,
        },
    }
}

/// The handshake after the stack reported `state`.
pub open spec fn refreshed(c: Connecting, state: TcpState) -> Connecting {
    let was_established = c.was_established || state.spec_is_connected();
    let ideal = handshake(state, was_established);
    Connecting {
        was_established,
        result: if c.result is RefusedConsumed && ideal is Refused {
            c.result
        } else {
            ideal
        },
        ..c
    }
}

impl Connecting {
    pub fn new(handle: RouteSocketHandle, local: IpEndpoint, remote: IpEndpoint) -> (r: Connecting)
        ensures
            r == (Connecting {
                handle,
                local,
                remote,
                result: ConnectResult::Connecting,
                was_established: false,
            }),
    {
        Connecting {
            handle,
            local,
            remote,
            result: ConnectResult::Connecting,
            was_established: false,
        }
    }

    pub fn local_endpoint(&self) -> (r: IpEndpoint)
        ensures
            r == self.local,
    {
        self.local
    }

    pub fn remote_endpoint(&self) -> (r: IpEndpoint)
        ensures
            r == self.remote,
    {
        self.remote
    }

    /// Ends the handshake, as far as it is over: the socket is established,
    /// or fresh again with its connection queued for removal.
    pub fn into_result(self, removals: &mut Vec<RouteSocketHandle>) -> (r: (
        Inner,
        Result<(), SyscallErr>,
    ))
        ensures
            r.1 == connect_answer(self.result),
            r.0@ == match self.result {
                ConnectResult::Connected => InnerModel::Established(
                    Established { handle: self.handle, local: self.local, peer: self.remote },
                ),
                ConnectResult::Connecting => InnerModel::Connecting(self),
                _ => InnerModel::Init(
                    Init::Unbound(default_buffers(), self.local.addr.spec_version()),
                ),
            },
            final(removals)@ == match self.result {
                ConnectResult::Connected | ConnectResult::Connecting => old(removals)@,
                _ => old(removals)@.push(self.handle),
            },
    {
        match self.result {
            ConnectResult::Connected => (
                Inner::Established(Established::new(self.handle, self.local, self.remote)),
                Ok(()),
            ),
            ConnectResult::Connecting => (Inner::Connecting(self), Err(SyscallErr::EAGAIN)),
            ConnectResult::Refused | ConnectResult::RefusedConsumed => {
                removals.push(self.handle);
                let ver = self.local.addr.version();
                (Inner::Init(Init::new(ver)), Err(SyscallErr::ECONNREFUSED))
            },
        }
    }

    pub fn is_connected(&self) -> (r: bool)
        ensures
            r == (self.result is Connected),
    {
        matches!(self.result, ConnectResult::Connected)
    }

    /// Why the handshake failed, until that was reported.
    pub fn failure_reason(&self) -> (r: Option<SyscallErr>)
        ensures
            r == if self.result is Refused {
                Some(SyscallErr::ECONNREFUSED)
            } else {
                None
            },
    {
        if matches!(self.result, ConnectResult::Refused) {
            Some(SyscallErr::ECONNREFUSED)
        } else {
            None
        }
    }

    pub fn consume_error(&mut self)
        ensures
            *final(self) == (Connecting {
                result: if old(self).result is Refused {
                    ConnectResult::RefusedConsumed
                } else {
                    old(self).result
                },
                ..*old(self)
            }),
    {
        if matches!(self.result, ConnectResult::Refused) {
            self.result = ConnectResult::RefusedConsumed;
        }
    }

    /// Takes in what the stack reports of the handshake. Says whether it is
    /// over.
    pub fn update_io_events(&mut self, pollee: &mut EPollEvent, status: Option<TcpStatus>) -> (r: bool)
        ensures
            match status {
                Some(s) => {
                    &&& *final(self) == refreshed(*old(self), s.state)
                    &&& *final(pollee) == connect_events(final(self).result)
                    &&& r == !(final(self).result is Connecting)
                },
                None => {
                    &&& *final(self) == *old(self)
                    &&& *final(pollee) == *old(pollee)
                    &&& !r
                },
            },
    {
        let s = match status {
            Some(s) => s,
            None => return false,
        };
        let connected = s.state.is_connected();
        if connected {
            self.was_established = true;
        }
        let ideal = if connected {
            ConnectResult::Connected
        } else if s.state.is_open() {
            ConnectResult::Connecting
        } else if self.was_established {
            ConnectResult::Connected
        } else {
            ConnectResult::Refused
        };
        if !(matches!(self.result, ConnectResult::RefusedConsumed) && matches!(
            ideal,
            ConnectResult::Refused
        )) {
            self.result = ideal;
        }
        let mut events = EPollEvent::empty();
        match self.result {
            ConnectResult::Connected => {
                events.epollout = true;
                events.epollwrnorm = true;
            },
            ConnectResult::Connecting => {},
            ConnectResult::Refused | ConnectResult::RefusedConsumed => {
                events.epollin = true;
                events.epollrdnorm = true;
                events.epollout = true;
                events.epollwrnorm = true;
                events.epollhup = true;
                events.epollrdhup = true;
                events.epollerr = matches!(self.result, ConnectResult::Refused);
            },
        }
        *pollee = events;
        !matches!(self.result, ConnectResult::Connecting)
    }
}

/// What a `connect` answers when the handshake is that far.
pub open spec fn connect_answer(result: ConnectResult) -> Result<(), SyscallErr> {
    match result {
        ConnectResult::Connected => Ok(()),
        ConnectResult::Connecting => Err(SyscallErr::EAGAIN),
        _ => Err(SyscallErr::ECONNREFUSED),
    }
}

// ---- listening -------------------------------------------------------

/// The state of a socket that listens, over one socket of the stack for each
/// connection that can wait.
#[derive(Debug)]
pub struct Listening {
    pub handles: Vec<RouteSocketHandle>,
    /// Which of them had a connection at the last look.
    pub connect: usize,
    pub listen_addr: IpListenEndpoint,
}

/// What a [`Listening`] holds.
#[verifier::ext_equal]
pub struct ListeningModel {
    pub handles: Seq<RouteSocketHandle>,
    pub connect: usize,
    pub listen_addr: IpListenEndpoint,
}

impl View for Listening {
    type V = ListeningModel;

    open spec fn view(&self) -> ListeningModel {
        ListeningModel {
            handles: self.handles@,
            connect: self.connect,
            listen_addr: self.listen_addr,
        }
    }
}

/// One listener for the stack to open: a socket with these buffers, on this
/// interface.
#[derive(Clone, Copy, Debug, PartialEq, Eq, Structural)]
pub struct ListenerPlan {
    pub socket: TcpBuffers,
    pub listen_addr: IpListenEndpoint,
    pub ifindex: u32,
}

/// What became of the listener that is to take an accepted one's place.
#[derive(Clone, Copy, Debug, PartialEq, Eq, Structural)]
pub enum Replacement {
    /// It does not listen.
    Refused,
    /// The stack did not take it.
    NotAdded,
    Added(RouteSocketHandle),
}

pub open spec fn has_connection(s: Option<TcpStatus>) -> bool {
    match s {
        Some(s) => s.state.spec_is_connected(),
        None => false,
    }
}

pub open spec fn is_busy(s: Option<TcpStatus>) -> bool {
    match s {
        Some(s) => s.state.spec_is_active(),
        None => false,
    }
}

pub open spec fn connected() -> spec_fn(Option<TcpStatus>) -> bool {
    |s: Option<TcpStatus>| has_connection(s)
}

pub open spec fn busy() -> spec_fn(Option<TcpStatus>) -> bool {
    |s: Option<TcpStatus>| is_busy(s)
}

/// The first listener with a connection to accept.
pub open spec fn first_pending(status: Seq<Option<TcpStatus>>) -> Option<int> {
    seqs::first_index(status, connected())
}

/// What [`Listening::accept`] does.
pub open spec fn accepted(
    l: ListeningModel,
    status: Seq<Option<TcpStatus>>,
    replacement: Replacement,
) -> (ListeningModel, Result<(RouteSocketHandle, IpEndpoint), SyscallErr>) {
    match first_pending(status) {
        None => (l, Err(SyscallErr::EAGAIN)),
        Some(i) => {
            let peer = status[i]->0.remote->0;
            match replacement {
                Replacement::Refused => (l, Err(SyscallErr::EADDRINUSE)),
                Replacement::NotAdded => (
                    ListeningModel { connect: 0, ..l },
                    Ok((l.handles[i], peer)),
                ),
                Replacement::Added(handle) => (
                    ListeningModel { connect: 0, handles: l.handles.update(i, handle), ..l },
                    Ok((l.handles[i], peer)),
                ),
            }
        },
    }
}

/// The listener and its events, by what the stack reports: it is readable
/// while it is busy with a connection.
pub open spec fn listener_events(
    l: ListeningModel,
    p: EPollEvent,
    status: Seq<Option<TcpStatus>>,
) -> (ListeningModel, EPollEvent) {
    match seqs::first_index(status, busy()) {
        Some(i) => (
            ListeningModel { connect: i as usize, ..l },
            EPollEvent { epollin: true, epollrdnorm: true, ..p },
        ),
        None => (l, EPollEvent { epollin: false, epollrdnorm: false, ..p }),
    }
}

/// What the stack does with the listeners of a socket that closes:
/// connections that nobody accepted are aborted.
pub open spec fn closing_orders(handles: Seq<RouteSocketHandle>, status: Seq<Option<TcpStatus>>) -> Seq<
    TcpOrder,
>
    decreases handles.len(),
{
    if handles.len() == 0 {
        Seq::empty()
    } else {
        let rest = closing_orders(handles.drop_last(), status);
        match status[handles.len() - 1] {
            Some(s) => rest.push(
                TcpOrder {
                    handle: handles.last(),
                    op: if s.state.spec_is_active() {
                        TcpOp::Abort
                    } else {
                        TcpOp::Close
                    },
                },
            ),
            None => rest,
        }
    }
}

impl Listening {
    pub fn new(handles: Vec<RouteSocketHandle>, listen_addr: IpListenEndpoint) -> (r: Listening)
        ensures
            r@ == (ListeningModel { handles: handles@, connect: 0, listen_addr }),
    {
        Listening { handles, connect: 0, listen_addr }
    }

    /// Where the socket listens; all zeros for every address.
    pub fn local_endpoint(&self) -> (r: IpEndpoint)
        ensures
            r == listen_endpoint(self@.listen_addr),
    {
        match self.listen_addr.addr {
            Some(addr) => IpEndpoint::new(addr, self.listen_addr.port),
            None => IpEndpoint::new(IpAddress::unspecified(IpVersion::Ipv4), self.listen_addr.port),
        }
    }

    pub fn listen_addr(&self) -> (r: IpListenEndpoint)
        ensures
            r == self@.listen_addr,
    {
        self.listen_addr
    }

    /// Which listener has a connection to accept.
    pub fn pending(&self, status: &Vec<Option<TcpStatus>>) -> (r: Option<usize>)
        ensures
            match r {
                Some(i) => first_pending(status@) == Some(i as int) && i < status@.len()
                    && has_connection(status@[i as int]),
                None => first_pending(status@) is None,
            },
    {
        let mut i: usize = 0;
        while i < status.len()
            invariant
                i <= status@.len(),
                forall|j: int| 0 <= j < i ==> !connected()(#[trigger] status@[j]),
            decreases status@.len() - i,
        {
            let ready = match &status[i] {
                Some(s) => s.state.is_connected(),
                None => false,
            };
            if ready {
                proof {
                    seqs::lemma_first_index(status@, connected(), i as int);
                }
                return Some(i);
            }
            i += 1;
        }
        proof {
            seqs::lemma_no_index(status@, connected());
        }
        None
    }

    /// The listener that takes the place of one with a connection. `bound` is
    /// the interface of that one, where it is known.
    pub fn plan_replacement(&self, bound: Option<u32>) -> (r: ListenerPlan)
        ensures
            r == (ListenerPlan {
                socket: default_buffers(),
                listen_addr: self@.listen_addr,
                ifindex: match bound {
                    Some(i) => i,
                    None => 1,
                },
            }),
    {
        let ifindex: u32 = match bound {
            Some(i) => i,
            None => 1,
        };
        ListenerPlan { socket: new_socket(), listen_addr: self.listen_addr, ifindex }
    }

    /// Takes the first connection. `replacement` is what became of the new
    /// listener in its place; see [`Listening::plan_replacement`].
    pub fn accept(&mut self, status: &Vec<Option<TcpStatus>>, replacement: Replacement) -> (r: Result<
        (RouteSocketHandle, IpEndpoint),
        SyscallErr,
    >)
        requires
            status@.len() == old(self)@.handles.len(),
            forall|i: int| 0 <= i < status@.len() && #[trigger] status@[i] is Some
                ==> status@[i]->0.wf(),
        ensures
            (final(self)@, r) == accepted(old(self)@, status@, replacement),
    {
        let ghost before = self@;
        let i = match self.pending(status) {
            Some(i) => i,
            None => return Err(SyscallErr::EAGAIN),
        };
        let handle = self.handles[i];
        let peer = match &status[i] {
            Some(s) => match s.remote {
                Some(peer) => peer,
                None => {
                    assert(false);
                    return Err(SyscallErr::EAGAIN);
                },
            },
            None => {
                assert(false);
                return Err(SyscallErr::EAGAIN);
            },
        };
        match replacement {
            Replacement::Refused => return Err(SyscallErr::EADDRINUSE),
            Replacement::NotAdded => {},
            Replacement::Added(fresh) => {
                self.handles.set(i, fresh);
            },
        }
        self.connect = 0;
        Ok((handle, peer))
    }

    /// Whether [`Listening::accept`] would find a connection.
    pub fn has_pending_connection(&self, status: &Vec<Option<TcpStatus>>) -> (r: bool)
        ensures
            r == (first_pending(status@) is Some),
    {
        self.pending(status).is_some()
    }

    /// Readable while one of the listeners is busy with a connection.
    pub fn update_io_events(&mut self, pollee: &mut EPollEvent, status: &Vec<Option<TcpStatus>>)
        requires
            status@.len() == old(self)@.handles.len(),
        ensures
            (final(self)@, *final(pollee)) == listener_events(old(self)@, *old(pollee), status@),
    {
        let mut i: usize = 0;
        while i < status.len()
            invariant
                i <= status@.len(),
                status@.len() == old(self)@.handles.len(),
                forall|j: int| 0 <= j < i ==> !busy()(#[trigger] status@[j]),
                *self == *old(self),
                *pollee == *old(pollee),
            decreases status@.len() - i,
        {
            let active = match &status[i] {
                Some(s) => s.state.is_active(),
                None => false,
            };
            if active {
                proof {
                    seqs::lemma_first_index(status@, busy(), i as int);
                }
                self.connect = i;
                pollee.epollin = true;
                pollee.epollrdnorm = true;
                return;
            }
            i += 1;
        }
        proof {
            seqs::lemma_no_index(status@, busy());
        }
        pollee.epollin = false;
        pollee.epollrdnorm = false;
    }

    /// Closes the listeners and queues them for removal.
    pub fn close(&self, status: &Vec<Option<TcpStatus>>, removals: &mut Vec<RouteSocketHandle>) -> (r:
        Vec<TcpOrder>)
        requires
            status@.len() == self@.handles.len(),
        ensures
            r@ == closing_orders(self@.handles, status@),
            final(removals)@ == old(removals)@ + self@.handles,
    {
        let mut orders: Vec<TcpOrder> = Vec::new();
        let mut i: usize = 0;
        assert(self.handles@.take(0) =~= Seq::<RouteSocketHandle>::empty());
        while i < self.handles.len()
            invariant
                i <= self.handles@.len(),
                status@.len() == self.handles@.len(),
                orders@ == closing_orders(self.handles@.take(i as int), status@),
                removals@ == old(removals)@ + self.handles@.take(i as int),
            decreases self.handles@.len() - i,
        {
            let handle = self.handles[i];
            match &status[i] {
                Some(s) => {
                    let op = if s.state.is_active() {
                        TcpOp::Abort
                    } else {
                        TcpOp::Close
                    };
                    orders.push(TcpOrder { handle, op });
                },
                None => {},
            }
            removals.push(handle);
            assert(self.handles@.take(i + 1).drop_last() =~= self.handles@.take(i as int));
            assert(self.handles@.take(i + 1) =~= self.handles@.take(i as int).push(handle));
            i += 1;
        }
        assert(self.handles@.take(i as int) =~= self.handles@);
        orders
    }
}

pub open spec fn listen_endpoint(l: IpListenEndpoint) -> IpEndpoint {
    IpEndpoint {
        addr: match l.addr {
            Some(addr) => addr,
            None => IpAddress::spec_unspecified(IpVersion::Ipv4),
        },
        port: l.port,
    }
}

// ---- established -----------------------------------------------------

/// The state of a socket with a connection.
#[derive(Clone, Copy, Debug, PartialEq, Eq, Structural)]
pub struct Established {
    pub handle: RouteSocketHandle,
    pub local: IpEndpoint,
    pub peer: IpEndpoint,
}

/// What a send on a connection answers. `taken` is how many bytes the stack
/// took, where its buffer had room.
pub open spec fn send_answer(status: Option<TcpStatus>, taken: Option<usize>) -> Result<
    usize,
    SyscallErr,
> {
    match status {
        None => Err(SyscallErr::EAGAIN),
        Some(s) => if s.can_send {
            match taken {
                Some(n) => Ok(n),
                None => Err(SyscallErr::ECONNABORTED),
            }
        } else if s.state is Closed {
            Err(SyscallErr::ECONNRESET)
        } else if s.state is TimeWait || s.state is Closing || s.state is LastAck {
            Err(SyscallErr::EPIPE)
        } else {
            Err(SyscallErr::EAGAIN)
        },
    }
}

pub fn answer_send(status: Option<TcpStatus>, taken: Option<usize>) -> (r: Result<usize, SyscallErr>)
    ensures
        r == send_answer(status, taken),
{
    let s = match status {
        Some(s) => s,
        None => return Err(SyscallErr::EAGAIN),
    };
    if s.can_send {
        match taken {
            Some(n) => Ok(n),
            None => Err(SyscallErr::ECONNABORTED),
        }
    } else {
        match s.state {
            TcpState::Closed => Err(SyscallErr::ECONNRESET),
            TcpState::TimeWait | TcpState::Closing | TcpState::LastAck => Err(SyscallErr::EPIPE),
            _ => Err(SyscallErr::EAGAIN),
        }
    }
}

/// The events of a connection, by what the stack reports of it.
pub open spec fn connection_events(p: EPollEvent, s: TcpStatus) -> EPollEvent {
    let finished = s.state.spec_peer_finished() || s.state is Closed;
    let gone = s.state is TimeWait || s.state is Closed;
    let up = s.state is Established || s.state is SynReceived;
    EPollEvent {
        epollout: s.can_send,
        epollwrnorm: s.can_send,
        epollin: s.can_recv || finished,
        epollrdnorm: s.can_recv || finished,
        epollhup: if up || finished {
            gone
        } else {
            p.epollhup
        },
        epollrdhup: if up || finished {
            finished
        } else {
            p.epollrdhup
        },
        epollerr: if up || finished {
            false
        } else {
            p.epollerr
        },
    }
}

impl Established {
    pub fn new(handle: RouteSocketHandle, local: IpEndpoint, peer: IpEndpoint) -> (r: Established)
        ensures
            r == (Established { handle, local, peer }),
    {
        Established { handle, local, peer }
    }

    pub open spec fn local_now(self, status: Option<TcpStatus>) -> IpEndpoint {
        match status {
            Some(TcpStatus { local: Some(ep), .. }) => ep,
            _ => self.local,
        }
    }

    pub open spec fn remote_now(self, status: Option<TcpStatus>) -> IpEndpoint {
        match status {
            Some(TcpStatus { remote: Some(ep), .. }) => ep,
            _ => self.peer,
        }
    }

    /// The address of this side: the stack's word, or what it was at first.
    pub fn local_endpoint(&self, status: Option<TcpStatus>) -> (r: IpEndpoint)
        ensures
            r == self.local_now(status),
    {
        match status {
            Some(s) => match s.local {
                Some(ep) => ep,
                None => self.local,
            },
            None => self.local,
        }
    }

    pub fn remote_endpoint(&self, status: Option<TcpStatus>) -> (r: IpEndpoint)
        ensures
            r == self.remote_now(status),
    {
        match status {
            Some(s) => match s.remote {
                Some(ep) => ep,
                None => self.peer,
            },
            None => self.peer,
        }
    }

    /// Answers a send. `taken` is what the stack did, where its buffer had
    /// room: the number of bytes that it took, or nothing if it failed.
    pub fn send_slice(&self, status: Option<TcpStatus>, taken: Option<usize>) -> (r: Result<
        usize,
        SyscallErr,
    >)
        ensures
            r == send_answer(status, taken),
    {
        answer_send(status, taken)
    }

    pub fn update_io_events(&self, pollee: &mut EPollEvent, status: Option<TcpStatus>)
        ensures
            *final(pollee) == match status {
                Some(s) => connection_events(*old(pollee), s),
                None => *old(pollee),
            },
    {
        let s = match status {
            Some(s) => s,
            None => return,
        };
        let is_connected = matches!(s.state, TcpState::Established | TcpState::SynReceived);
        let fin_received = s.state.peer_finished() || matches!(s.state, TcpState::Closed);
        let is_closed = matches!(s.state, TcpState::TimeWait | TcpState::Closed);
        pollee.epollout = s.can_send;
        pollee.epollwrnorm = s.can_send;
        pollee.epollin = s.can_recv || fin_received;
        pollee.epollrdnorm = s.can_recv || fin_received;
        if is_connected {
            pollee.epollhup = false;
            pollee.epollrdhup = false;
            pollee.epollerr = false;
        } else if fin_received && !is_closed {
            pollee.epollrdhup = true;
            pollee.epollhup = false;
            pollee.epollerr = false;
        } else if is_closed {
            pollee.epollhup = true;
            pollee.epollrdhup = true;
            pollee.epollerr = false;
        }
    }

    /// Closes the connection and queues it for removal.
    pub fn close(&self, removals: &mut Vec<RouteSocketHandle>) -> (r: TcpOrder)
        ensures
            r == (TcpOrder { handle: self.handle, op: TcpOp::Close }),
            final(removals)@ == old(removals)@.push(self.handle),
    {
        removals.push(self.handle);
        TcpOrder { handle: self.handle, op: TcpOp::Close }
    }
}

// ---- connected to itself ---------------------------------------------

/// The state of a socket that is its own peer: what it sends waits in a
/// queue until it is received, and the stack is not involved.
#[derive(Debug)]
pub struct SelfConnected {
    pub handle: RouteSocketHandle,
    pub local: IpEndpoint,
    pub buf: VecDeque<u8>,
    pub rx_cap: usize,
    pub send_shutdown: bool,
}

/// What a [`SelfConnected`] holds.
#[verifier::ext_equal]
pub struct SelfModel {
    pub handle: RouteSocketHandle,
    pub local: IpEndpoint,
    pub queue: Seq<u8>,
    pub rx_cap: usize,
    pub send_shutdown: bool,
}

impl View for SelfConnected {
    type V = SelfModel;

    open spec fn view(&self) -> SelfModel {
        SelfModel {
            handle: self.handle,
            local: self.local,
            queue: self.buf@,
            rx_cap: self.rx_cap,
            send_shutdown: self.send_shutdown,
        }
    }
}

pub open spec fn lesser(a: int, b: int) -> int {
    if a < b {
        a
    } else {
        b
    }
}

/// What a send to itself does: as many bytes as there is room for join the
/// queue.
pub open spec fn self_sent(m: SelfModel, data: Seq<u8>) -> (SelfModel, Result<usize, SyscallErr>) {
    let free = m.rx_cap - m.queue.len();
    if m.send_shutdown {
        (m, Err(SyscallErr::EPIPE))
    } else if data.len() == 0 {
        (m, Ok(0))
    } else if free <= 0 {
        (m, Err(SyscallErr::EAGAIN))
    } else {
        let n = lesser(free, data.len() as int);
        (SelfModel { queue: m.queue + data.take(n), ..m }, Ok(n as usize))
    }
}

/// What a receive from itself does, into a buffer of `room` bytes: the bytes
/// received, the state after, the answer.
pub open spec fn self_received(m: SelfModel, room: int, peek: bool) -> (
    Seq<u8>,
    SelfModel,
    Result<usize, SyscallErr>,
) {
    if room == 0 {
        (Seq::empty(), m, Ok(0))
    } else if m.queue.len() == 0 {
        (
            Seq::empty(),
            m,
            if m.send_shutdown {
                Ok(0)
            } else {
                Err(SyscallErr::EAGAIN)
            },
        )
    } else {
        let n = lesser(room, m.queue.len() as int);
        (
            m.queue.take(n),
            if peek {
                m
            } else {
                SelfModel { queue: m.queue.skip(n), ..m }
            },
            Ok(n as usize),
        )
    }
}

impl SelfConnected {
    pub fn new(handle: RouteSocketHandle, local: IpEndpoint, rx_cap: usize) -> (r: SelfConnected)
        ensures
            r@ == (SelfModel {
                handle,
                local,
                queue: Seq::empty(),
                rx_cap,
                send_shutdown: false,
            }),
    {
        SelfConnected { handle, local, buf: VecDeque::new(), rx_cap, send_shutdown: false }
    }

    pub fn local_endpoint(&self) -> (r: IpEndpoint)
        ensures
            r == self@.local,
    {
        self.local
    }

    pub fn remote_endpoint(&self) -> (r: IpEndpoint)
        ensures
            r == self@.local,
    {
        self.local
    }

    pub fn send_slice(&mut self, data: &[u8]) -> (r: Result<usize, SyscallErr>)
        ensures
            (final(self)@, r) == self_sent(old(self)@, data@),
    {
        if self.send_shutdown {
            return Err(SyscallErr::EPIPE);
        }
        if data.len() == 0 {
            return Ok(0);
        }
        if self.buf.len() >= self.rx_cap {
            return Err(SyscallErr::EAGAIN);
        }
        let free: usize = self.rx_cap - self.buf.len();
        let n: usize = if free < data.len() {
            free
        } else {
            data.len()
        };
        let ghost start = self.buf@;
        let mut i: usize = 0;
        assert(start + data@.take(0) =~= start);
        while i < n
            invariant
                i <= n <= data@.len(),
                self.buf@ == start + data@.take(i as int),
                self.rx_cap == old(self).rx_cap,
                self.handle == old(self).handle,
                self.local == old(self).local,
                self.send_shutdown == old(self).send_shutdown,
            decreases n - i,
        {
            self.buf.push_back(data[i]);
            assert(data@.take(i + 1) =~= data@.take(i as int).push(data@[i as int]));
            i += 1;
        }
        Ok(n)
    }

    pub fn recv_into(&mut self, out: &mut [u8], peek: bool) -> (r: Result<usize, SyscallErr>)
        ensures
            ({
                let (data, m, answer) = self_received(old(self)@, old(out)@.len() as int, peek);
                &&& final(self)@ == m
                &&& r == answer
                &&& final(out)@ == data + old(out)@.skip(data.len() as int)
            }),
    {
        let ghost before = out@;
        let ghost m = self@;
        assert(Seq::<u8>::empty() + before.skip(0) =~= before);
        if out.len() == 0 {
            return Ok(0);
        }
        if self.buf.len() == 0 {
            if self.send_shutdown {
                return Ok(0);
            }
            return Err(SyscallErr::EAGAIN);
        }
        let n: usize = if out.len() < self.buf.len() {
            out.len()
        } else {
            self.buf.len()
        };
        let mut i: usize = 0;
        while i < n
            invariant
                i <= n <= out@.len(),
                n <= self.buf@.len(),
                self@ == m,
                before == old(out)@,
                out@.len() == before.len(),
                out@ == m.queue.take(i as int) + before.skip(i as int),
            decreases n - i,
        {
            out[i] = self.buf[i];
            assert(out@ =~= m.queue.take(i + 1) + before.skip(i + 1));
            i += 1;
        }
        if !peek {
            let mut k: usize = 0;
            while k < n
                invariant
                    k <= n <= m.queue.len(),
                    self.buf@ == m.queue.skip(k as int),
                    self.rx_cap == m.rx_cap,
                    self.handle == m.handle,
                    self.local == m.local,
                    self.send_shutdown == m.send_shutdown,
                decreases n - k,
            {
                let _ = self.buf.pop_front();
                assert(self.buf@ =~= m.queue.skip(k + 1));
                k += 1;
            }
        }
        Ok(n)
    }

    pub fn set_send_shutdown(&mut self)
        ensures
            final(self)@ == (SelfModel { send_shutdown: true, ..old(self)@ }),
    {
        self.send_shutdown = true;
    }

    pub fn update_io_events(&self, pollee: &mut EPollEvent)
        ensures
            *final(pollee) == self_events(*old(pollee), self@),
    {
        let writable = !self.send_shutdown && self.buf.len() < self.rx_cap;
        let readable = self.buf.len() > 0 || self.send_shutdown;
        pollee.epollout = writable;
        pollee.epollwrnorm = writable;
        pollee.epollin = readable;
        pollee.epollrdnorm = readable;
    }

    /// Queues the stack's socket for removal.
    pub fn close(&self, removals: &mut Vec<RouteSocketHandle>)
        ensures
            final(removals)@ == old(removals)@.push(self@.handle),
    {
        removals.push(self.handle);
    }
}

pub open spec fn self_events(p: EPollEvent, m: SelfModel) -> EPollEvent {
    let writable = !m.send_shutdown && m.queue.len() < m.rx_cap;
    let readable = m.queue.len() > 0 || m.send_shutdown;
    EPollEvent {
        epollout: writable,
        epollwrnorm: writable,
        epollin: readable,
        epollrdnorm: readable,
        ..p
    }
}

/// Bytes that a socket sends to itself come back in the order in which they
/// were sent, after those that waited already; and a look at them takes
/// nothing away.
pub proof fn law_self_stream_is_fifo(m: SelfModel, data: Seq<u8>, room: int)
    requires
        m.queue.len() <= m.rx_cap,
        room >= 0,
    ensures
        ({
            let (sent, n) = self_sent(m, data);
            let (got, rest, _) = self_received(sent, room, false);
            let (seen, same, _) = self_received(sent, room, true);
            &&& n is Ok ==> got + rest.queue == m.queue + data.take(n->Ok_0 as int)
            &&& n is Err ==> got + rest.queue == m.queue
            &&& sent.queue.len() <= m.rx_cap
            &&& seen == got
            &&& same == sent
        }),
{
    let (sent, n) = self_sent(m, data);
    let (got, rest, _) = self_received(sent, room, false);
    assert(got + rest.queue =~= sent.queue);
    assert(m.queue + data.take(0) =~= m.queue);
}

// ---- all of them -----------------------------------------------------

/// The state of a TCP socket.
#[derive(Debug)]
pub enum Inner {
    Init(Init),
    Connecting(Connecting),
    Listening(Listening),
    Established(Established),
    SelfConnected(SelfConnected),
    Closed(Closed),
}

/// What an [`Inner`] holds.
#[verifier::ext_equal]
pub enum InnerModel {
    Init(Init),
    Connecting(Connecting),
    Listening(ListeningModel),
    Established(Established),
    SelfConnected(SelfModel),
    Closed(Closed),
}

impl View for Inner {
    type V = InnerModel;

    open spec fn view(&self) -> InnerModel {
        match self {
            Inner::Init(i) => InnerModel::Init(*i),
            Inner::Connecting(c) => InnerModel::Connecting(*c),
            Inner::Listening(l) => InnerModel::Listening(l@),
            Inner::Established(e) => InnerModel::Established(*e),
            Inner::SelfConnected(s) => InnerModel::SelfConnected(s@),
            Inner::Closed(c) => InnerModel::Closed(*c),
        }
    }
}

impl InnerModel {
    /// The address of this side. `status` is the stack's word on the
    /// connection, where there is one.
    pub open spec fn local(self, status: Option<TcpStatus>) -> IpEndpoint {
        match self {
            InnerModel::Init(i) => i.local(),
            InnerModel::Connecting(c) => c.local,
            InnerModel::Listening(l) => listen_endpoint(l.listen_addr),
            InnerModel::Established(e) => e.local_now(status),
            InnerModel::SelfConnected(s) => s.local,
            InnerModel::Closed(c) => IpEndpoint {
                addr: IpAddress::spec_unspecified(c.ver),
                port: 0,
            },
        }
    }

    pub open spec fn remote(self, status: Option<TcpStatus>) -> Option<IpEndpoint> {
        match self {
            InnerModel::Connecting(c) => Some(c.remote),
            InnerModel::Established(e) => Some(e.remote_now(status)),
            InnerModel::SelfConnected(s) => Some(s.local),
            _ => None,
        }
    }

    /// The sizes of the send and the receive buffer.
    pub open spec fn capacities(self, status: Option<TcpStatus>) -> (usize, usize) {
        match self {
            InnerModel::Init(i) => (i.buffers().tx, i.buffers().rx),
            InnerModel::SelfConnected(s) => (s.rx_cap, s.rx_cap),
            InnerModel::Connecting(_) | InnerModel::Established(_) => match status {
                Some(s) => (s.send_capacity, s.recv_capacity),
                None => (0, 0),
            },
            _ => (0, 0),
        }
    }

    /// The number that `TCP_INFO` gives the state.
    pub open spec fn state_code(self, status: Option<TcpStatus>) -> u8 {
        match self {
            InnerModel::Init(_) | InnerModel::Closed(_) => 7,
            InnerModel::Connecting(_) => 2,
            InnerModel::Listening(_) => 10,
            InnerModel::SelfConnected(_) => 1,
            InnerModel::Established(_) => match status {
                Some(s) => match s.state {
                    TcpState::Established => 1,
                    TcpState::CloseWait => 8,
                    TcpState::FinWait1 => 4,
                    TcpState::FinWait2 => 5,
                    TcpState::Closing => 11,
                    TcpState::LastAck => 9,
                    _ => 7,
                },
                None => 7,
            },
        }
    }

    /// The handles of the stack's sockets under the socket.
    pub open spec fn handles(self) -> Seq<RouteSocketHandle> {
        match self {
            InnerModel::Connecting(c) => seq![c.handle],
            InnerModel::Listening(l) => l.handles,
            InnerModel::Established(e) => seq![e.handle],
            InnerModel::SelfConnected(s) => seq![s.handle],
            _ => Seq::empty(),
        }
    }

    /// What the stack does when the socket is closed.
    pub open spec fn close_orders(self, status: Seq<Option<TcpStatus>>) -> Seq<TcpOrder> {
        match self {
            InnerModel::Connecting(c) => seq![TcpOrder { handle: c.handle, op: TcpOp::Close }],
            InnerModel::Listening(l) => closing_orders(l.handles, status),
            InnerModel::Established(e) => seq![TcpOrder { handle: e.handle, op: TcpOp::Close }],
            _ => Seq::empty(),
        }
    }
}

fn copy_handles(v: &Vec<RouteSocketHandle>) -> (r: Vec<RouteSocketHandle>)
    ensures
        r@ == v@,
{
    let mut out: Vec<RouteSocketHandle> = Vec::new();
    let mut i: usize = 0;
    while i < v.len()
        invariant
            i <= v@.len(),
            out@ == v@.take(i as int),
        decreases v@.len() - i,
    {
        out.push(v[i]);
        i += 1;
        assert(out@ =~= v@.take(i as int));
    }
    assert(v@.take(i as int) =~= v@);
    out
}

impl Inner {
    /// The handles of the stack's sockets under the socket.
    pub fn stack_handles(&self) -> (r: Vec<RouteSocketHandle>)
        ensures
            r@ == self@.handles(),
    {
        let mut out: Vec<RouteSocketHandle> = Vec::new();
        match self {
            Inner::Listening(l) => {
                return copy_handles(&l.handles);
            },
            Inner::Connecting(c) => {
                out.push(c.handle);
            },
            Inner::Established(e) => {
                out.push(e.handle);
            },
            Inner::SelfConnected(s) => {
                out.push(s.handle);
            },
            Inner::Init(_) | Inner::Closed(_) => {},
        }
        assert(out@ =~= self@.handles());
        out
    }

    /// The address of this side. `status` is the stack's word on the
    /// connection, where there is one.
    pub fn local_endpoint(&self, status: Option<TcpStatus>) -> (r: IpEndpoint)
        ensures
            r == self@.local(status),
    {
        match self {
            Inner::Init(init) => init.local_endpoint(),
            Inner::Connecting(c) => c.local_endpoint(),
            Inner::Listening(l) => l.local_endpoint(),
            Inner::Established(e) => e.local_endpoint(status),
            Inner::SelfConnected(s) => s.local_endpoint(),
            Inner::Closed(c) => c.local_endpoint(),
        }
    }

    pub fn remote_endpoint(&self, status: Option<TcpStatus>) -> (r: Option<IpEndpoint>)
        ensures
            r == self@.remote(status),
    {
        match self {
            Inner::Init(_) | Inner::Listening(_) | Inner::Closed(_) => None,
            Inner::Connecting(c) => Some(c.remote_endpoint()),
            Inner::Established(e) => Some(e.remote_endpoint(status)),
            Inner::SelfConnected(s) => Some(s.remote_endpoint()),
        }
    }

    pub fn send_buffer_size(&self, status: Option<TcpStatus>) -> (r: usize)
        ensures
            r == self@.capacities(status).0,
    {
        match self {
            Inner::Closed(_) | Inner::Listening(_) => 0,
            Inner::SelfConnected(sc) => sc.rx_cap,
            Inner::Init(Init::Bound { socket, .. }) => socket.tx,
            Inner::Init(Init::Unbound(socket, _)) => socket.tx,
            Inner::Connecting(_) | Inner::Established(_) => match status {
                Some(s) => s.send_capacity,
                None => 0,
            },
        }
    }

    pub fn recv_buffer_size(&self, status: Option<TcpStatus>) -> (r: usize)
        ensures
            r == self@.capacities(status).1,
    {
        match self {
            Inner::Closed(_) | Inner::Listening(_) => 0,
            Inner::SelfConnected(sc) => sc.rx_cap,
            Inner::Init(Init::Bound { socket, .. }) => socket.rx,
            Inner::Init(Init::Unbound(socket, _)) => socket.rx,
            Inner::Connecting(_) | Inner::Established(_) => match status {
                Some(s) => s.recv_capacity,
                None => 0,
            },
        }
    }

    /// Closes what the stack holds for the socket and queues it for removal.
    /// `status` is what the stack reports of each listener.
    pub fn close(&self, status: &Vec<Option<TcpStatus>>, removals: &mut Vec<RouteSocketHandle>) -> (r:
        Vec<TcpOrder>)
        requires
            self@ is Listening ==> status@.len() == self@.handles().len(),
        ensures
            r@ == self@.close_orders(status@),
            final(removals)@ == old(removals)@ + self@.handles(),
    {
        let mut orders: Vec<TcpOrder> = Vec::new();
        match self {
            Inner::Init(_) | Inner::Closed(_) => {},
            Inner::Connecting(c) => {
                removals.push(c.handle);
                orders.push(TcpOrder { handle: c.handle, op: TcpOp::Close });
            },
            Inner::Listening(l) => {
                orders = l.close(status, removals);
            },
            Inner::Established(e) => {
                let order = e.close(removals);
                orders.push(order);
            },
            Inner::SelfConnected(s) => {
                s.close(removals);
            },
        }
        orders
    }

    /// The number that `TCP_INFO` gives the state.
    pub fn tcp_state_code(&self, status: Option<TcpStatus>) -> (r: u8)
        ensures
            r == self@.state_code(status),
    {
        match self {
            Inner::Init(_) | Inner::Closed(_) => 7,
            Inner::Connecting(_) => 2,
            Inner::Listening(_) => 10,
            Inner::Established(_) => match status {
                Some(s) => match s.state {
                    TcpState::Established => 1,
                    TcpState::CloseWait => 8,
                    TcpState::FinWait1 => 4,
                    TcpState::FinWait2 => 5,
                    TcpState::Closing => 11,
                    TcpState::LastAck => 9,
                    _ => 7,
                },
                None => 7,
            },
            Inner::SelfConnected(_) => 1,
        }
    }
}

} // verus!
