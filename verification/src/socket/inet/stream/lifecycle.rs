//! How a TCP socket moves from state to state: bind, connect, listen, accept,
//! shutdown.
//!
//! Connecting and listening need the stack between the decision and its
//! outcome. The decision is a plan, which says what the stack has to do, and
//! finishing the plan with what the stack did gives the next state.
use vstd::prelude::*;
use crate::config;
use crate::error::SyscallErr;
use crate::iface::DeviceModel;
use crate::net_core;
use crate::net_core::{NetGlobals, NetNamespace};
use crate::routing;
use crate::routing::{RouteEntry, RouteSocketHandle};
use crate::socket::inet::stream::inner;
use crate::socket::inet::stream::inner::{
    Connecting,
    Established,
    Init,
    Inner,
    InnerModel,
    Listening,
    ListeningModel,
    Replacement,
    SelfModel,
    TcpBuffers,
    TcpOp,
    TcpOrder,
    TcpStatus,
    KEEP_ALIVE_SECS,
};
use crate::wire::{IpAddress, IpEndpoint, IpListenEndpoint};

verus! {

/// The most listeners that the stack keeps for one socket.
pub const MAX_LISTENERS: usize = 16;

/// A connection for the stack to open: a socket with these buffers, on this
/// interface, from `local` to `remote`.
#[derive(Clone, Copy, Debug, PartialEq, Eq, Structural)]
pub struct ConnectPlan {
    pub socket: TcpBuffers,
    pub local: IpEndpoint,
    pub remote: IpEndpoint,
    pub ifindex: u32,
}

/// What the stack did with a [`ConnectPlan`].
#[derive(Clone, Copy, Debug, PartialEq, Eq, Structural)]
pub enum ConnectOutcome {
    /// It did not take the socket.
    NotAdded,
    /// It took the socket, would not connect it, and dropped it.
    Refused,
    Started(RouteSocketHandle),
}

/// Listeners for the stack to open on this interface: a first one with the
/// socket's own buffers, and further ones up to `backlog` in all.
#[derive(Clone, Copy, Debug, PartialEq, Eq, Structural)]
pub struct ListenPlan {
    pub socket: TcpBuffers,
    pub local: IpEndpoint,
    pub listen_addr: IpListenEndpoint,
    pub ifindex: u32,
    pub backlog: usize,
    /// The buffers of each further listener.
    pub further: TcpBuffers,
}

/// What the stack did with the first listener of a [`ListenPlan`].
#[derive(Clone, Copy, Debug, PartialEq, Eq, Structural)]
pub enum ListenOutcome {
    /// It did not take the socket.
    NotAdded,
    /// It took the socket, which would not listen, and dropped it.
    Refused,
    Listening(RouteSocketHandle),
}

/// The socket after it was bound to `endpoint`; `ephemeral` stands for a port
/// of zero.
pub open spec fn bound_state(m: InnerModel, endpoint: IpListenEndpoint, ephemeral: u16) -> Result<
    Init,
    SyscallErr,
> {
    match m {
        InnerModel::Init(Init::Unbound(socket, ver)) => Ok(
            Init::Bound {
                socket,
                local: IpEndpoint {
                    addr: match endpoint.addr {
                        Some(addr) => addr,
                        None => IpAddress::spec_unspecified(ver),
                    },
                    port: if endpoint.port == 0 {
                        ephemeral
                    } else {
                        endpoint.port
                    },
                },
                pending_error: None,
            },
        ),
        _ => Err(SyscallErr::EINVAL),
    }
}

/// A socket bound to `local`, with a failure that nobody has asked for yet.
pub open spec fn bound_to(socket: TcpBuffers, local: IpEndpoint, pending_error: Option<SyscallErr>) -> InnerModel {
    InnerModel::Init(Init::Bound { socket, local, pending_error })
}

/// The buffers and the address that a socket connects with; nothing if it is
/// in no state to connect.
pub open spec fn connect_source(m: InnerModel, source: IpAddress, ephemeral: u16) -> Option<
    (TcpBuffers, IpEndpoint),
> {
    match m {
        InnerModel::Init(Init::Unbound(_, _)) => Some(
            (inner::default_buffers(), IpEndpoint { addr: source, port: ephemeral }),
        ),
        InnerModel::Init(Init::Bound { socket, local, pending_error: None }) => Some(
            (
                socket,
                IpEndpoint {
                    addr: if local.addr.spec_is_unspecified() {
                        source
                    } else {
                        local.addr
                    },
                    port: local.port,
                },
            ),
        ),
        _ => None,
    }
}

/// What a socket that connects asks of the stack, or the state that it is
/// left in with the error.
pub open spec fn connect_plan(
    m: InnerModel,
    devs: Seq<DeviceModel>,
    entries: Seq<RouteEntry>,
    remote: IpEndpoint,
    bound_ifindex: Option<u32>,
    ephemeral: u16,
) -> Result<ConnectPlan, (InnerModel, SyscallErr)> {
    match connect_source(m, config::source_ip(devs, entries, remote.addr), ephemeral) {
        None => Err((m, SyscallErr::EISCONN)),
        Some((socket, local)) => match routing::spec_route_output(devs, entries, remote.addr) {
            Err(e) => Err((bound_to(socket, local, Some(e)), e)),
            Ok(route) => Ok(
                ConnectPlan {
                    socket,
                    local,
                    remote,
                    ifindex: match bound_ifindex {
                        Some(i) => i,
                        None => route.ifindex,
                    },
                },
            ),
        },
    }
}

/// Where a socket listens that is bound to `local`.
pub open spec fn listen_on(local: IpEndpoint) -> IpListenEndpoint {
    IpListenEndpoint {
        addr: if local.addr.spec_is_unspecified() {
            None
        } else {
            Some(local.addr)
        },
        port: local.port,
    }
}

/// What a socket that listens asks of the stack, or the state that it is left
/// in with the error.
pub open spec fn listen_plan(m: InnerModel, devs: Seq<DeviceModel>, backlog: usize, ephemeral: u16) -> Result<
    ListenPlan,
    (InnerModel, SyscallErr),
> {
    let source = match m {
        InnerModel::Init(Init::Unbound(socket, ver)) => Some(
            (socket, IpEndpoint { addr: IpAddress::spec_unspecified(ver), port: ephemeral }),
        ),
        InnerModel::Init(Init::Bound { socket, local, pending_error: None }) => Some(
            (socket, local),
        ),
        _ => None,
    };
    match source {
        None => Err((m, SyscallErr::EINVAL)),
        Some((socket, local)) => if local.port == 0 || backlog > 65535 {
            Err((bound_to(socket, local, None), SyscallErr::EINVAL))
        } else {
            Ok(
                ListenPlan {
                    socket,
                    local,
                    listen_addr: listen_on(local),
                    ifindex: net_core::spec_ifindex_for_local_addr(devs, listen_on(local).addr),
                    backlog: if backlog == 0 {
                        1
                    } else if backlog < MAX_LISTENERS {
                        backlog
                    } else {
                        MAX_LISTENERS
                    },
                    further: inner::listener_buffers(),
                },
            )
        },
    }
}

/// The handles of the further listeners that the stack took.
pub open spec fn added(extra: Seq<Replacement>) -> Seq<RouteSocketHandle>
    decreases extra.len(),
{
    if extra.len() == 0 {
        Seq::empty()
    } else {
        match extra.last() {
            Replacement::Added(h) => added(extra.drop_last()).push(h),
            _ => added(extra.drop_last()),
        }
    }
}

/// The state of a socket that has listened as planned.
pub open spec fn listen_end(plan: ListenPlan, first: ListenOutcome, extra: Seq<Replacement>) -> Result<
    ListeningModel,
    (InnerModel, SyscallErr),
> {
    let fallback = bound_to(inner::default_buffers(), plan.local, None);
    match first {
        ListenOutcome::NotAdded => Err((fallback, SyscallErr::EAGAIN)),
        ListenOutcome::Refused => Err((fallback, SyscallErr::EINVAL)),
        ListenOutcome::Listening(h) => if exists|i: int|
            0 <= i < extra.len() && (#[trigger] extra[i]) is Refused {
            Err((fallback, SyscallErr::EADDRINUSE))
        } else {
            Ok(
                ListeningModel {
                    handles: seq![h] + added(extra),
                    connect: 0,
                    listen_addr: plan.listen_addr,
                },
            )
        },
    }
}

impl ConnectPlan {
    /// The state of a socket whose connection the stack has opened, or the
    /// state that it is left in with the error.
    pub fn finish(self, outcome: ConnectOutcome) -> (r: Result<Connecting, (Inner, SyscallErr)>)
        ensures
            match outcome {
                ConnectOutcome::Started(handle) => r == Ok::<Connecting, (Inner, SyscallErr)>(
                    Connecting {
                        handle,
                        local: self.local,
                        remote: self.remote,
                        result: inner::ConnectResult::Connecting,
                        was_established: false,
                    },
                ),
                ConnectOutcome::NotAdded => r is Err && r->Err_0.0@ == bound_to(
                    inner::default_buffers(),
                    self.local,
                    None,
                ) && r->Err_0.1 == SyscallErr::EAGAIN,
                ConnectOutcome::Refused => r is Err && r->Err_0.0@ == bound_to(
                    inner::default_buffers(),
                    self.local,
                    Some(SyscallErr::ECONNREFUSED),
                ) && r->Err_0.1 == SyscallErr::ECONNREFUSED,
            },
    {
        match outcome {
            ConnectOutcome::Started(handle) => Ok(
                Connecting::new(handle, self.local, self.remote),
            ),
            ConnectOutcome::NotAdded => Err(
                (bound_inner(inner::new_socket(), self.local, None), SyscallErr::EAGAIN),
            ),
            ConnectOutcome::Refused => Err(
                (
                    bound_inner(
                        inner::new_socket(),
                        self.local,
                        Some(SyscallErr::ECONNREFUSED),
                    ),
                    SyscallErr::ECONNREFUSED,
                ),
            ),
        }
    }
}

fn bound_inner(socket: TcpBuffers, local: IpEndpoint, pending_error: Option<SyscallErr>) -> (r: Inner)
    ensures
        r@ == bound_to(socket, local, pending_error),
{
    Inner::Init(Init::Bound { socket, local, pending_error })
}

impl ListenPlan {
    /// The state of a socket whose listeners the stack has opened: the first
    /// one, and the others in turn.
    pub fn finish(self, first: ListenOutcome, extra: &Vec<Replacement>) -> (r: Result<
        Listening,
        (Inner, SyscallErr),
    >)
        ensures
            match (r, listen_end(self, first, extra@)) {
                (Ok(l), Ok(m)) => l@ == m,
                (Err(e), Err(m)) => e.0@ == m.0 && e.1 == m.1,
                _ => false,
            },
    {
        let handle = match first {
            ListenOutcome::NotAdded => return Err(
                (bound_inner(inner::new_socket(), self.local, None), SyscallErr::EAGAIN),
            ),
            ListenOutcome::Refused => return Err(
                (bound_inner(inner::new_socket(), self.local, None), SyscallErr::EINVAL),
            ),
            ListenOutcome::Listening(h) => h,
        };
        let mut handles: Vec<RouteSocketHandle> = Vec::new();
        handles.push(handle);
        let mut i: usize = 0;
        assert(extra@.take(0) =~= Seq::<Replacement>::empty());
        assert(seq![handle] + added(extra@.take(0)) =~= seq![handle]);
        while i < extra.len()
            invariant
                i <= extra@.len(),
                forall|j: int| 0 <= j < i ==> !((#[trigger] extra@[j]) is Refused),
                handles@ == seq![handle] + added(extra@.take(i as int)),
                first == ListenOutcome::Listening(handle),
            decreases extra@.len() - i,
        {
            assert(extra@.take(i + 1).drop_last() =~= extra@.take(i as int));
            match extra[i] {
                Replacement::Refused => {
                    assert(extra@[i as int] is Refused);
                    return Err(
                        (
                            bound_inner(inner::new_socket(), self.local, None),
                            SyscallErr::EADDRINUSE,
                        ),
                    );
                },
                Replacement::NotAdded => {},
                Replacement::Added(h) => {
                    handles.push(h);
                },
            }
            assert(handles@ =~= seq![handle] + added(extra@.take(i + 1)));
            i += 1;
        }
        assert(extra@.take(i as int) =~= extra@);
        Ok(Listening::new(handles, self.listen_addr))
    }
}

/// The orders that give every handle the same option.
pub open spec fn option_orders(handles: Seq<RouteSocketHandle>, op: TcpOp) -> Seq<TcpOrder> {
    Seq::new(handles.len(), |i: int| TcpOrder { handle: handles[i], op })
}

/// The handles that options are set on: a socket connected to itself needs
/// none.
pub open spec fn option_handles(m: InnerModel) -> Seq<RouteSocketHandle> {
    match m {
        InnerModel::SelfConnected(_) => Seq::empty(),
        _ => m.handles(),
    }
}

/// What a shutdown does to the state, and what the stack does.
pub open spec fn shut(m: InnerModel, how: u32) -> (InnerModel, Result<Option<TcpOrder>, SyscallErr>) {
    match m {
        InnerModel::Established(e) => (
            m,
            Ok(
                Some(
                    TcpOrder {
                        handle: e.handle,
                        op: if how == 1 {
                            TcpOp::Close
                        } else {
                            TcpOp::Abort
                        },
                    },
                ),
            ),
        ),
        InnerModel::SelfConnected(s) => (
            if how == 1 || how == 2 {
                InnerModel::SelfConnected(SelfModel { send_shutdown: true, ..s })
            } else {
                m
            },
            Ok(None),
        ),
        InnerModel::Listening(_) => (m, Err(SyscallErr::EINVAL)),
        _ => (m, Err(SyscallErr::ENOTCONN)),
    }
}

impl Inner {
    /// Gives a fresh socket its address. `ephemeral` is the port that it gets
    /// if it asked for none.
    pub fn bind(self, endpoint: IpListenEndpoint, ephemeral: u16) -> (r: Result<
        Inner,
        (Inner, SyscallErr),
    >)
        ensures
            match bound_state(self@, endpoint, ephemeral) {
                Ok(init) => r is Ok && r->Ok_0@ == InnerModel::Init(init),
                Err(e) => r is Err && r->Err_0.0@ == self@ && r->Err_0.1 == e,
            },
    {
        match self {
            Inner::Init(Init::Unbound(socket, ver)) => {
                let port: u16 = if endpoint.port == 0 {
                    ephemeral
                } else {
                    endpoint.port
                };
                let addr = match endpoint.addr {
                    Some(addr) => addr,
                    None => IpAddress::unspecified(ver),
                };
                Ok(bound_inner(socket, IpEndpoint::new(addr, port), None))
            },
            other => Err((other, SyscallErr::EINVAL)),
        }
    }

    /// Plans a connection. `ephemeral` is the port of a socket without an
    /// address; `bound_ifindex` is the interface that the socket is held to.
    pub fn connect(
        self,
        ns: &mut NetNamespace,
        globals: &NetGlobals,
        remote_endpoint: IpEndpoint,
        bound_ifindex: Option<u32>,
        ephemeral: u16,
    ) -> (r: Result<ConnectPlan, (Inner, SyscallErr)>)
        requires
            old(ns).wf(),
            globals.wf(),
        ensures
            final(ns).wf(),
            final(ns).devices == old(ns).devices,
            match (
                r,
                connect_plan(
                    self@,
                    old(ns).devs(),
                    routing::filled(*old(ns), *globals),
                    remote_endpoint,
                    bound_ifindex,
                    ephemeral,
                ),
            ) {
                (Ok(plan), Ok(p)) => plan == p,
                (Err(e), Err(x)) => e.0@ == x.0 && e.1 == x.1,
                _ => false,
            },
            final(ns).router.table.entries@ == if connect_source(
                self@,
                remote_endpoint.addr,
                ephemeral,
            ) is Some {
                routing::filled(*old(ns), *globals)
            } else {
                old(ns).router.table.entries@
            },
    {
        let ghost start = *ns;
        let (socket, local) = match self {
            Inner::Init(Init::Unbound(_, _)) => {
                let addr = config::lookup_source_ip(ns, globals, remote_endpoint.addr);
                proof {
                    routing::lemma_filled_stays(start, *ns, *globals);
                }
                (inner::new_socket(), IpEndpoint::new(addr, ephemeral))
            },
            Inner::Init(Init::Bound { socket, local, pending_error: None }) => {
                let local = if local.addr.is_unspecified() {
                    let addr = config::lookup_source_ip(ns, globals, remote_endpoint.addr);
                    proof {
                        routing::lemma_filled_stays(start, *ns, *globals);
                    }
                    IpEndpoint::new(addr, local.port)
                } else {
                    local
                };
                (socket, local)
            },
            other => return Err((other, SyscallErr::EISCONN)),
        };
        assert(routing::filled(*ns, *globals) == routing::filled(start, *globals));
        let route = match routing::route_output(ns, globals, remote_endpoint.addr) {
            Ok(route) => route,
            Err(e) => return Err((bound_inner(socket, local, Some(e)), e)),
        };
        let ifindex: u32 = match bound_ifindex {
            Some(i) => i,
            None => route.ifindex,
        };
        Ok(ConnectPlan { socket, local, remote: remote_endpoint, ifindex })
    }

    /// Plans the listeners. `ephemeral` is the port of a socket without an
    /// address.
    pub fn listen(self, ns: &NetNamespace, backlog: usize, ephemeral: u16) -> (r: Result<
        ListenPlan,
        (Inner, SyscallErr),
    >)
        ensures
            match (r, listen_plan(self@, ns.devs(), backlog, ephemeral)) {
                (Ok(plan), Ok(p)) => plan == p && 1 <= p.backlog <= MAX_LISTENERS,
                (Err(e), Err(x)) => e.0@ == x.0 && e.1 == x.1,
                _ => false,
            },
    {
        let (socket, local) = match self {
            Inner::Init(Init::Unbound(socket, ver)) => (
                socket,
                IpEndpoint::new(IpAddress::unspecified(ver), ephemeral),
            ),
            Inner::Init(Init::Bound { socket, local, pending_error: None }) => (socket, local),
            other => return Err((other, SyscallErr::EINVAL)),
        };
        if local.port == 0 || backlog > 65535 {
            return Err((bound_inner(socket, local, None), SyscallErr::EINVAL));
        }
        let addr = if local.addr.is_unspecified() {
            None
        } else {
            Some(local.addr)
        };
        let ifindex = net_core::ifindex_for_local_addr(ns, addr);
        let backlog: usize = if backlog == 0 {
            1
        } else if backlog < MAX_LISTENERS {
            backlog
        } else {
            MAX_LISTENERS
        };
        Ok(
            ListenPlan {
                socket,
                local,
                listen_addr: IpListenEndpoint { addr, port: local.port },
                ifindex,
                backlog,
                further: inner::new_listener(),
            },
        )
    }

    /// Takes a connection off a listening socket.
    pub fn accept(&mut self, status: &Vec<Option<TcpStatus>>, replacement: Replacement) -> (r: Result<
        (Inner, IpEndpoint),
        SyscallErr,
    >)
        requires
            old(self)@ is Listening ==> status@.len() == old(self)@.handles().len(),
            forall|i: int| 0 <= i < status@.len() && #[trigger] status@[i] is Some
                ==> status@[i]->0.wf(),
        ensures
            match old(self)@ {
                InnerModel::Listening(l) => {
                    let (next, got) = inner::accepted(l, status@, replacement);
                    &&& final(self)@ == InnerModel::Listening(next)
                    &&& match (r, got) {
                        (Ok(x), Ok(y)) => x.0@ == InnerModel::Established(
                            Established {
                                handle: y.0,
                                local: inner::listen_endpoint(l.listen_addr),
                                peer: y.1,
                            },
                        ) && x.1 == y.1,
                        (Err(x), Err(y)) => x == y,
                        _ => false,
                    }
                },
                m => {
                    &&& r == Err::<(Inner, IpEndpoint), SyscallErr>(SyscallErr::EINVAL)
                    &&& final(self)@ == m
                },
            },
    {
        match self {
            Inner::Listening(listening) => {
                let (handle, peer) = match listening.accept(status, replacement) {
                    Ok(x) => x,
                    Err(e) => return Err(e),
                };
                let local = listening.local_endpoint();
                Ok((Inner::Established(Established::new(handle, local, peer)), peer))
            },
            _ => Err(SyscallErr::EINVAL),
        }
    }

    /// Ends one direction of a connection, or both.
    pub fn shutdown(&mut self, how: u32) -> (r: Result<Option<TcpOrder>, SyscallErr>)
        ensures
            (final(self)@, r) == shut(old(self)@, how),
    {
        match self {
            Inner::Established(e) => {
                let op = if how == 1 {
                    TcpOp::Close
                } else {
                    TcpOp::Abort
                };
                Ok(Some(TcpOrder { handle: e.handle, op }))
            },
            Inner::SelfConnected(sc) => {
                if how == 1 || how == 2 {
                    sc.set_send_shutdown();
                }
                Ok(None)
            },
            Inner::Listening(_) => Err(SyscallErr::EINVAL),
            Inner::Init(_) | Inner::Connecting(_) | Inner::Closed(_) => Err(SyscallErr::ENOTCONN),
        }
    }

    fn order_all(&self, op: TcpOp) -> (r: Vec<TcpOrder>)
        ensures
            r@ == option_orders(option_handles(self@), op),
    {
        let mut orders: Vec<TcpOrder> = Vec::new();
        match self {
            Inner::Init(_) | Inner::SelfConnected(_) | Inner::Closed(_) => {},
            Inner::Connecting(c) => {
                orders.push(TcpOrder { handle: c.handle, op });
            },
            Inner::Established(e) => {
                orders.push(TcpOrder { handle: e.handle, op });
            },
            Inner::Listening(l) => {
                let mut i: usize = 0;
                while i < l.handles.len()
                    invariant
                        i <= l.handles@.len(),
                        orders@ == option_orders(l.handles@.take(i as int), op),
                    decreases l.handles@.len() - i,
                {
                    orders.push(TcpOrder { handle: l.handles[i], op });
                    assert(orders@ =~= option_orders(l.handles@.take(i + 1), op));
                    i += 1;
                }
                assert(l.handles@.take(i as int) =~= l.handles@);
            },
        }
        assert(orders@ =~= option_orders(option_handles(self@), op));
        orders
    }

    /// Switches the coalescing of small segments, where the stack knows the
    /// socket already.
    pub fn set_nagle_enabled(&self, enabled: bool) -> (r: Vec<TcpOrder>)
        ensures
            r@ == option_orders(option_handles(self@), TcpOp::SetNagle(enabled)),
    {
        self.order_all(TcpOp::SetNagle(enabled))
    }

    /// Switches the probes of an idle connection, where the stack knows the
    /// socket already.
    pub fn set_keep_alive(&self, enabled: bool) -> (r: Vec<TcpOrder>)
        ensures
            r@ == option_orders(
                option_handles(self@),
                TcpOp::SetKeepAlive(
                    if enabled {
                        Some(KEEP_ALIVE_SECS)
                    } else {
                        None
                    },
                ),
            ),
    {
        let timeout: Option<u64> = if enabled {
            Some(KEEP_ALIVE_SECS)
        } else {
            None
        };
        self.order_all(TcpOp::SetKeepAlive(timeout))
    }
}

} // verus!
