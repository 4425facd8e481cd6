//! TCP sockets: which addresses and ports a connection or a listener has.
use vstd::prelude::*;
use crate::error::SyscallErr;
use crate::iface::DeviceModel;
use crate::routing;
use crate::routing::{RouteEntry, RouteSocketHandle};
use crate::socket::inet::stream::inner::{Init, InnerModel, TcpBuffers, TcpOp};
use crate::socket::inet::stream::lifecycle;
use crate::wire::{IpAddress, IpEndpoint, IpListenEndpoint, IpVersion};

verus! {

/// A socket that was bound connects from where it was bound: from that port,
/// whatever port would be free, and from that address unless it is all zeros,
/// which stands for the address that an unbound socket would connect from. It
/// leaves through the interface that it is held to, else that of the route.
pub proof fn law_bound_socket_connects_from_its_port(
    m: InnerModel,
    endpoint: IpListenEndpoint,
    free: u16,
    devs: Seq<DeviceModel>,
    entries: Seq<RouteEntry>,
    remote: IpEndpoint,
    bound_ifindex: Option<u32>,
    other: u16,
)
    requires
        lifecycle::bound_state(m, endpoint, free) is Ok,
    ensures
        ({
            let init = lifecycle::bound_state(m, endpoint, free)->Ok_0;
            let route = routing::spec_route_output(devs, entries, remote.addr);
            match lifecycle::connect_plan(
                InnerModel::Init(init),
                devs,
                entries,
                remote,
                bound_ifindex,
                other,
            ) {
                Ok(plan) => {
                    &&& endpoint.port != 0 ==> plan.local.port == endpoint.port
                    &&& endpoint.port == 0 ==> plan.local.port == free
                    &&& plan.remote == remote
                    &&& endpoint.addr matches Some(IpAddress::Ipv4(a)) ==> (a.bits >= 16777216 ==> plan.local.addr == endpoint.addr->0)
                    &&& endpoint.addr matches Some(IpAddress::Ipv6(a)) ==> (a.bits != 0 ==> plan.local.addr == endpoint.addr->0)
                    &&& route is Ok
                    &&& endpoint.addr is None ==> plan.local.addr == route->Ok_0.source
                    &&& bound_ifindex matches Some(i) ==> plan.ifindex == i
                    &&& bound_ifindex is None ==> plan.ifindex == route->Ok_0.ifindex
                },
                Err((InnerModel::Init(Init::Bound { local, pending_error, .. }), e)) => {
                    &&& endpoint.port != 0 ==> local.port == endpoint.port
                    &&& pending_error == Some(e)
                    &&& route is Err && route->Err_0 == e
                },
                Err(_) => false,
            }
        }),
{
}

/// A socket that holds an address and has no failure to tell connects from that
/// port, and from that address unless it is all zeros.
pub proof fn law_local_end_is_kept(
    socket: TcpBuffers,
    local: IpEndpoint,
    devs: Seq<DeviceModel>,
    entries: Seq<RouteEntry>,
    remote: IpEndpoint,
    bound_ifindex: Option<u32>,
    free: u16,
)
    ensures
        ({
            let m = InnerModel::Init(Init::Bound { socket, local, pending_error: None });
            let r = lifecycle::connect_plan(m, devs, entries, remote, bound_ifindex, free);
            &&& r is Ok <==> routing::spec_route_output(devs, entries, remote.addr) is Ok
            &&& r matches Ok(plan) ==> {
                &&& plan.local.port == local.port
                &&& plan.remote == remote
                &&& plan.socket == socket
                &&& local.addr matches IpAddress::Ipv4(a) ==> (a.bits >= 16777216 ==> plan.local.addr == local.addr)
                &&& local.addr matches IpAddress::Ipv6(a) ==> (a.bits != 0 ==> plan.local.addr
                    == local.addr)
            }
        }),
{
}

/// A socket that was never bound connects from the free port and from the
/// address that the route to the peer has.
pub proof fn law_unbound_socket_connects_from_the_free_port(
    socket: TcpBuffers,
    ver: IpVersion,
    devs: Seq<DeviceModel>,
    entries: Seq<RouteEntry>,
    remote: IpEndpoint,
    free: u16,
)
    ensures
        ({
            let m = InnerModel::Init(Init::Unbound(socket, ver));
            match (
                lifecycle::connect_plan(m, devs, entries, remote, None, free),
                routing::spec_route_output(devs, entries, remote.addr),
            ) {
                (Ok(plan), Ok(d)) => {
                    &&& plan.local.port == free
                    &&& plan.local.addr == d.source
                    &&& plan.remote == remote
                    &&& plan.ifindex == d.ifindex
                },
                (Err((left, e)), Err(x)) => e == x && left is Init,
                _ => false,
            }
        }),
{
}

/// Only a socket that is fresh or bound, without a failure to tell, connects;
/// any other stays as it is and is told that it is connected.
pub proof fn law_busy_socket_does_not_connect(
    m: InnerModel,
    devs: Seq<DeviceModel>,
    entries: Seq<RouteEntry>,
    remote: IpEndpoint,
    bound_ifindex: Option<u32>,
    free: u16,
)
    requires
        !(m is Init) || (m matches InnerModel::Init(Init::Bound { pending_error, .. })
            && pending_error is Some),
    ensures
        lifecycle::connect_plan(m, devs, entries, remote, bound_ifindex, free) == Err::<
            lifecycle::ConnectPlan,
            (InnerModel, SyscallErr),
        >((m, SyscallErr::EISCONN)),
{
}

/// A socket is bound once: to the endpoint asked for, with the free port for
/// none, and not again.
pub proof fn law_bound_once(m: InnerModel, a: IpListenEndpoint, b: IpListenEndpoint, free: u16)
    ensures
        match lifecycle::bound_state(m, a, free) {
            Ok(Init::Bound { socket, local, pending_error }) => {
                &&& m matches InnerModel::Init(Init::Unbound(s, ver)) && s == socket
                &&& pending_error is None
                &&& a.addr matches Some(x) ==> local.addr == x
                &&& a.addr is None ==> match local.addr {
                    IpAddress::Ipv4(z) => z.bits == 0 && m->Init_0->Unbound_1 == IpVersion::Ipv4,
                    IpAddress::Ipv6(z) => z.bits == 0 && m->Init_0->Unbound_1 == IpVersion::Ipv6,
                }
                &&& local.port == if a.port != 0 {
                    a.port
                } else {
                    free
                }
                &&& lifecycle::bound_state(
                    InnerModel::Init(lifecycle::bound_state(m, a, free)->Ok_0),
                    b,
                    free,
                ) == Err::<Init, SyscallErr>(SyscallErr::EINVAL)
            },
            Ok(_) => false,
            Err(e) => e == SyscallErr::EINVAL && !(m matches InnerModel::Init(Init::Unbound(_, _))),
        },
{
}

/// A socket that was bound listens where it was bound, on that port, and on that
/// address or, for all zeros, on every address. The queue has at least one
/// place and at most sixteen.
pub proof fn law_bound_socket_listens_on_its_port(
    m: InnerModel,
    endpoint: IpListenEndpoint,
    free: u16,
    devs: Seq<DeviceModel>,
    backlog: usize,
    other: u16,
)
    requires
        lifecycle::bound_state(m, endpoint, free) is Ok,
        endpoint.port != 0,
    ensures
        ({
            let init = lifecycle::bound_state(m, endpoint, free)->Ok_0;
            let r = lifecycle::listen_plan(InnerModel::Init(init), devs, backlog, other);
            &&& backlog > 65535 ==> r is Err && r->Err_0.0 == InnerModel::Init(init) && r->Err_0.1
                == SyscallErr::EINVAL
            &&& backlog <= 65535 ==> {
                &&& r matches Ok(plan)
                &&& plan.listen_addr.port == endpoint.port
                &&& plan.local.port == endpoint.port
                &&& endpoint.addr is None ==> plan.listen_addr.addr is None
                &&& endpoint.addr matches Some(IpAddress::Ipv4(a)) ==> (a.bits >= 16777216 ==> plan.listen_addr.addr == endpoint.addr)
                &&& endpoint.addr matches Some(IpAddress::Ipv6(a)) ==> (a.bits != 0 ==> plan.listen_addr.addr == endpoint.addr)
                &&& backlog == 0 ==> plan.backlog == 1
                &&& 0 < backlog <= 16 ==> plan.backlog == backlog
                &&& backlog > 16 ==> plan.backlog == 16
            }
        }),
{
}

/// A listening socket has the listener that was opened first, listens where it
/// was planned, and goes back to its address where the stack would not have it.
pub proof fn law_listener_keeps_its_address(
    plan: lifecycle::ListenPlan,
    handle: RouteSocketHandle,
)
    ensures
        match lifecycle::listen_end(
            plan,
            lifecycle::ListenOutcome::Listening(handle),
            Seq::empty(),
        ) {
            Ok(l) => l.handles == seq![handle] && l.listen_addr == plan.listen_addr && l.connect
                == 0,
            Err(_) => false,
        },
        lifecycle::listen_end(plan, lifecycle::ListenOutcome::NotAdded, Seq::empty()) matches Err(
            (InnerModel::Init(Init::Bound { local, pending_error, .. }), e),
        ) && local == plan.local && pending_error is None && e == SyscallErr::EAGAIN,
        lifecycle::listen_end(plan, lifecycle::ListenOutcome::Refused, Seq::empty()) matches Err(
            (InnerModel::Init(Init::Bound { local, pending_error, .. }), e),
        ) && local == plan.local && pending_error is None && e == SyscallErr::EINVAL,
{
    assert(lifecycle::added(Seq::empty()) =~= Seq::empty());
    assert(seq![handle] + Seq::<RouteSocketHandle>::empty() =~= seq![handle]);
}

/// Ending only the sending side closes a connection, which still receives;
/// anything else breaks it off. The handle is that of the connection, and a
/// socket without a connection has none to end.
pub proof fn law_shutdown(m: InnerModel, how: u32)
    ensures
        ({
            let (n, r) = lifecycle::shut(m, how);
            &&& m matches InnerModel::Established(e) ==> {
                &&& n == m
                &&& r matches Ok(Some(o))
                &&& o.handle == e.handle
                &&& o.op == TcpOp::Close <==> how == 1
                &&& o.op == TcpOp::Abort <==> how != 1
            }
            &&& m matches InnerModel::SelfConnected(s) ==> {
                &&& r == Ok::<Option<crate::socket::inet::stream::inner::TcpOrder>, SyscallErr>(None)
                &&& n matches InnerModel::SelfConnected(t)
                &&& t.send_shutdown == (s.send_shutdown || how == 1 || how == 2)
            }
            &&& m is Init || m is Connecting || m is Closed ==> n == m && r is Err && r->Err_0
                == SyscallErr::ENOTCONN
            &&& m is Listening ==> n == m && r is Err && r->Err_0 == SyscallErr::EINVAL
        }),
{
}

} // verus!
