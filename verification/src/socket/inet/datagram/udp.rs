//! UDP sockets.
//!
//! The sockets of a kernel are kept together, since a datagram to an address
//! of this machine goes straight into the queue of its receiver. What has to
//! leave the machine is handed back for the protocol stack to transmit.
use vstd::prelude::*;
use std::collections::VecDeque;
use crate::arena::Arena;
use crate::bytes;
use crate::config;
use crate::error::SyscallErr;
use crate::iface::DeviceModel;
use crate::net_core;
use crate::net_core::{NetGlobals, NetNamespace};
use crate::routing;
use crate::routing::{RouteEntry, RouteSocketHandle};
use crate::seqs;
use crate::socket::inet::common::bound::BoundInner;
use crate::socket::inet::common::port::registry::{AddressFamily, BindIntent, TransportProtocol};
use crate::socket::inet::common::port::AutoBindPurpose;
use crate::socket::unix::datagram;
use crate::socket::{opt_model, Endpoint, EndpointModel};
use crate::wire::{IpAddress, IpEndpoint, IpListenEndpoint, IpVersion};

verus! {

/// The most bytes that fit in a datagram.
pub const UDP_MAX_PAYLOAD: usize = 65507;

/// The buffer sizes of a fresh socket.
pub const MAX_BUFFER_SIZE: usize = 65536;

/// What a UDP socket holds besides data.
#[derive(Clone, Copy, Debug, PartialEq, Eq, Structural)]
pub struct UdpState {
    pub socket_handler: RouteSocketHandle,
    pub ip_version: IpVersion,
    pub ipv6_v6only: bool,
    pub remote_endpoint: Option<IpEndpoint>,
    pub local_endpoint: Option<IpListenEndpoint>,
    pub last_recv_addr: Option<IpEndpoint>,
    pub recvbuf_size: usize,
    pub sendbuf_size: usize,
    pub reuse_addr: bool,
    pub ip_recv_err: bool,
    pub multicast_group_joined: bool,
    pub ipv6_checksum_offset: Option<u32>,
    pub bound: BoundInner,
    pub bound_ifindex: Option<u32>,
}

/// A datagram and where it came from.
#[derive(Debug)]
pub struct UdpDatagram {
    pub data: Vec<u8>,
    pub from: IpEndpoint,
}

/// A UDP socket.
#[derive(Debug)]
pub struct UdpSocket {
    pub state: UdpState,
    pub rx_queue: VecDeque<UdpDatagram>,
    /// What was sent with the announcement of more.
    pub msg_more_buf: Vec<u8>,
}

/// What a [`UdpDatagram`] says.
#[verifier::ext_equal]
pub struct DatagramModel {
    pub data: Seq<u8>,
    pub from: IpEndpoint,
}

/// What a [`UdpSocket`] holds.
#[verifier::ext_equal]
pub struct UdpModel {
    pub state: UdpState,
    pub rx: Seq<DatagramModel>,
    pub more: Seq<u8>,
}

impl View for UdpDatagram {
    type V = DatagramModel;

    open spec fn view(&self) -> DatagramModel {
        DatagramModel { data: self.data@, from: self.from }
    }
}

pub open spec fn datagrams(q: Seq<UdpDatagram>) -> Seq<DatagramModel> {
    Seq::new(q.len(), |i: int| q[i]@)
}

impl View for UdpSocket {
    type V = UdpModel;

    open spec fn view(&self) -> UdpModel {
        UdpModel {
            state: self.state,
            rx: datagrams(self.rx_queue@),
            more: self.msg_more_buf@,
        }
    }
}

/// Whether a socket can speak to an address. An IPv6 socket speaks to IPv4
/// too, unless it is told not to.
pub open spec fn family_matches(s: UdpState, addr: IpAddress) -> bool {
    match s.ip_version {
        IpVersion::Ipv4 => addr is Ipv4,
        IpVersion::Ipv6 => addr is Ipv6 || !s.ipv6_v6only,
    }
}

/// The address, or the loopback address in place of an unspecified one.
pub open spec fn or_loopback(addr: IpAddress) -> IpAddress {
    if addr.spec_is_unspecified() {
        IpAddress::spec_localhost(addr.spec_version())
    } else {
        addr
    }
}

/// Where a socket that is bound to an endpoint listens.
pub open spec fn bind_target(s: UdpState, ep: EndpointModel) -> Result<IpListenEndpoint, SyscallErr> {
    match ep {
        EndpointModel::Ip(e) => {
            let addr = e.addr.spec_unmapped();
            if addr.spec_is_unspecified() {
                Ok(IpListenEndpoint { addr: None, port: e.port })
            } else if !family_matches(s, addr) {
                Err(SyscallErr::EAFNOSUPPORT)
            } else {
                Ok(IpListenEndpoint { addr: Some(addr), port: e.port })
            }
        },
        _ => Err(SyscallErr::EINVAL),
    }
}

/// What a socket asks of the registry of ports.
pub open spec fn bind_intent(s: UdpState, ep: EndpointModel) -> Result<BindIntent, SyscallErr> {
    if ep !is Ip || s.local_endpoint is Some {
        Err(SyscallErr::EINVAL)
    } else {
        match bind_target(s, ep) {
            Err(e) => Err(e),
            Ok(t) => Ok(
                BindIntent {
                    protocol: TransportProtocol::Udp,
                    family: match s.ip_version {
                        IpVersion::Ipv4 => AddressFamily::Ipv4,
                        IpVersion::Ipv6 => AddressFamily::Ipv6,
                    },
                    address: t.addr,
                    port: t.port,
                    ifindex: s.bound_ifindex,
                    reuse_addr: s.reuse_addr,
                    reuse_port: false,
                    ipv6_v6only: s.ipv6_v6only,
                },
            ),
        }
    }
}

/// The peer that an unbound socket is about to speak to.
pub open spec fn auto_bind_peer(s: UdpState, peer: Option<EndpointModel>, purpose: AutoBindPurpose) -> Option<
    IpEndpoint,
> {
    if s.local_endpoint is Some || purpose == AutoBindPurpose::Listen {
        None
    } else {
        match peer {
            Some(EndpointModel::Ip(e)) => Some(e),
            _ => s.remote_endpoint,
        }
    }
}

/// Where a socket that connects sends to from then on.
pub open spec fn connect_target(s: UdpState, ep: EndpointModel) -> Result<IpEndpoint, SyscallErr> {
    match ep {
        EndpointModel::Ip(e) => {
            let addr = e.addr.spec_unmapped();
            if !family_matches(s, addr) {
                Err(SyscallErr::EAFNOSUPPORT)
            } else if s.local_endpoint is None {
                Err(SyscallErr::EINVAL)
            } else {
                Ok(IpEndpoint { addr: or_loopback(addr), port: e.port })
            }
        },
        _ => Err(SyscallErr::EINVAL),
    }
}

fn loopback_for(addr: IpAddress) -> (r: IpAddress)
    ensures
        r == or_loopback(addr),
{
    if addr.is_unspecified() {
        IpAddress::localhost(addr.version())
    } else {
        addr
    }
}

impl UdpSocket {
    /// A fresh socket over the stack's socket of that handle.
    pub fn new(ver: IpVersion, socket_handler: RouteSocketHandle) -> (r: UdpSocket)
        ensures
            r@ == (UdpModel {
                state: UdpState {
                    socket_handler,
                    ip_version: ver,
                    ipv6_v6only: false,
                    remote_endpoint: None,
                    local_endpoint: None,
                    last_recv_addr: None,
                    recvbuf_size: MAX_BUFFER_SIZE,
                    sendbuf_size: MAX_BUFFER_SIZE,
                    reuse_addr: false,
                    ip_recv_err: false,
                    multicast_group_joined: false,
                    ipv6_checksum_offset: None,
                    bound: BoundInner {
                        socket_handle: None,
                        ifindex: 0,
                        bound_addr: None,
                        bound_port: 0,
                    },
                    bound_ifindex: None,
                },
                rx: Seq::empty(),
                more: Seq::empty(),
            }),
    {
        let r = UdpSocket {
            state: UdpState {
                socket_handler,
                ip_version: ver,
                ipv6_v6only: false,
                remote_endpoint: None,
                local_endpoint: None,
                last_recv_addr: None,
                recvbuf_size: MAX_BUFFER_SIZE,
                sendbuf_size: MAX_BUFFER_SIZE,
                reuse_addr: false,
                ip_recv_err: false,
                multicast_group_joined: false,
                ipv6_checksum_offset: None,
                bound: BoundInner::new(),
                bound_ifindex: None,
            },
            rx_queue: VecDeque::new(),
            msg_more_buf: Vec::new(),
        };
        assert(r@.rx =~= Seq::<DatagramModel>::empty());
        r
    }

    pub fn bound_inner(&self) -> (r: BoundInner)
        ensures
            r == self@.state.bound,
    {
        self.state.bound
    }

    fn addr_family_matches(&self, addr: IpAddress) -> (r: bool)
        ensures
            r == family_matches(self@.state, addr),
    {
        match (self.state.ip_version, addr) {
            (IpVersion::Ipv4, IpAddress::Ipv4(_)) => true,
            (IpVersion::Ipv4, IpAddress::Ipv6(_)) => false,
            (IpVersion::Ipv6, IpAddress::Ipv6(_)) => true,
            (IpVersion::Ipv6, IpAddress::Ipv4(_)) => !self.state.ipv6_v6only,
        }
    }

    /// Where the stack's socket has to listen for the socket to be bound.
    pub fn bind(&self, endpoint: &Endpoint) -> (r: Result<IpListenEndpoint, SyscallErr>)
        ensures
            r == bind_target(self@.state, endpoint@),
    {
        let ep = match endpoint {
            Endpoint::Ip(ep) => *ep,
            _ => return Err(SyscallErr::EINVAL),
        };
        let addr = ep.addr.unmapped();
        if addr.is_unspecified() {
            Ok(IpListenEndpoint { addr: None, port: ep.port })
        } else if !self.addr_family_matches(addr) {
            Err(SyscallErr::EAFNOSUPPORT)
        } else {
            Ok(IpListenEndpoint { addr: Some(addr), port: ep.port })
        }
    }

    /// Completes the bind: `stack` says whether the stack's socket listens
    /// there now, or nothing where there is no such socket.
    pub fn finish_bind(&mut self, ns: &NetNamespace, target: IpListenEndpoint, stack: Option<bool>) -> (r:
        Result<usize, SyscallErr>)
        ensures
            r == match stack {
                None => Err::<usize, SyscallErr>(SyscallErr::EAGAIN),
                Some(false) => Err(SyscallErr::EINVAL),
                Some(true) => Ok(0),
            },
            final(self)@ == if r is Ok {
                UdpModel {
                    state: UdpState {
                        local_endpoint: Some(target),
                        bound: BoundInner {
                            socket_handle: Some(old(self)@.state.socket_handler.0),
                            ifindex: net_core::spec_ifindex_for_local_addr(ns.devs(), target.addr),
                            bound_addr: target.addr,
                            bound_port: target.port,
                        },
                        ..old(self)@.state
                    },
                    ..old(self)@
                }
            } else {
                old(self)@
            },
    {
        match stack {
            None => Err(SyscallErr::EAGAIN),
            Some(false) => Err(SyscallErr::EINVAL),
            Some(true) => {
                self.state.local_endpoint = Some(target);
                let ifindex: u32 = net_core::ifindex_for_local_addr(ns, target.addr);
                let handle: usize = self.state.socket_handler.0;
                self.state.bound.bind(handle, ifindex, target.addr, target.port);
                Ok(0)
            },
        }
    }

    /// What the socket asks of the registry of ports.
    pub fn snapshot_bind_intent(&self, endpoint: &Endpoint) -> (r: Result<BindIntent, SyscallErr>)
        ensures
            r == bind_intent(self@.state, endpoint@),
    {
        match endpoint {
            Endpoint::Ip(_) => {},
            _ => return Err(SyscallErr::EINVAL),
        }
        if self.state.local_endpoint.is_some() {
            return Err(SyscallErr::EINVAL);
        }
        let target = match self.bind(endpoint) {
            Ok(t) => t,
            Err(e) => return Err(e),
        };
        let family = match self.state.ip_version {
            IpVersion::Ipv4 => AddressFamily::Ipv4,
            IpVersion::Ipv6 => AddressFamily::Ipv6,
        };
        Ok(
            BindIntent::inet(
                TransportProtocol::Udp,
                family,
                target.addr,
                target.port,
                self.state.bound_ifindex,
                self.state.reuse_addr,
                self.state.ipv6_v6only,
            ),
        )
    }

    /// The endpoint that an unbound socket gets before it speaks to a peer: the
    /// source address of packets to it, and any port.
    pub fn auto_bind_endpoint(
        &self,
        peer: &Option<Endpoint>,
        purpose: AutoBindPurpose,
        ns: &mut NetNamespace,
        globals: &NetGlobals,
    ) -> (r: Result<Option<Endpoint>, SyscallErr>)
        requires
            old(ns).wf(),
            globals.wf(),
        ensures
            final(ns).wf(),
            final(ns).devices == old(ns).devices,
            match auto_bind_peer(self@.state, opt_model(*peer), purpose) {
                None => r == Ok::<Option<Endpoint>, SyscallErr>(None) && *final(ns) == *old(ns),
                Some(p) => {
                    &&& r matches Ok(Some(ep))
                    &&& ep@ == EndpointModel::Ip(
                        IpEndpoint {
                            addr: config::source_ip(
                                old(ns).devs(),
                                routing::filled(*old(ns), *globals),
                                or_loopback(p.addr.spec_unmapped()),
                            ),
                            port: 0,
                        },
                    )
                    &&& final(ns).router.table.entries@ == routing::filled(*old(ns), *globals)
                },
            },
    {
        if self.state.local_endpoint.is_some() {
            return Ok(None);
        }
        match purpose {
            AutoBindPurpose::Listen => return Ok(None),
            _ => {},
        }
        let found: Option<IpEndpoint> = match peer {
            Some(Endpoint::Ip(e)) => Some(*e),
            _ => self.state.remote_endpoint,
        };
        match found {
            None => Ok(None),
            Some(p) => {
                let route_addr = loopback_for(p.addr.unmapped());
                let addr = config::lookup_source_ip(ns, globals, route_addr);
                Ok(Some(Endpoint::Ip(IpEndpoint { addr, port: 0 })))
            },
        }
    }

    /// Sets where the socket sends to. The socket must be bound by then.
    pub fn connect(&mut self, endpoint: &Endpoint) -> (r: Result<usize, SyscallErr>)
        ensures
            match connect_target(old(self)@.state, endpoint@) {
                Ok(t) => r == Ok::<usize, SyscallErr>(0) && final(self)@ == (UdpModel {
                    state: UdpState { remote_endpoint: Some(t), ..old(self)@.state },
                    ..old(self)@
                }),
                Err(e) => r == Err::<usize, SyscallErr>(e) && final(self)@ == old(self)@,
            },
    {
        let ep = match endpoint {
            Endpoint::Ip(ep) => *ep,
            _ => return Err(SyscallErr::EINVAL),
        };
        let addr = ep.addr.unmapped();
        if !self.addr_family_matches(addr) {
            return Err(SyscallErr::EAFNOSUPPORT);
        }
        if self.state.local_endpoint.is_none() {
            return Err(SyscallErr::EINVAL);
        }
        self.state.remote_endpoint = Some(IpEndpoint { addr: loopback_for(addr), port: ep.port });
        Ok(0)
    }

    /// The endpoint of the stack's socket as the socket's own.
    pub fn local_endpoint(&self, stack: Option<IpListenEndpoint>) -> (r: Option<Endpoint>)
        ensures
            opt_model(r) == match stack {
                Some(e) => Some(
                    EndpointModel::Ip(
                        IpEndpoint {
                            addr: match e.addr {
                                Some(a) => a,
                                None => IpAddress::spec_unspecified(self@.state.ip_version),
                            },
                            port: e.port,
                        },
                    ),
                ),
                None => None,
            },
    {
        match stack {
            Some(e) => {
                let addr = match e.addr {
                    Some(a) => a,
                    None => IpAddress::unspecified(self.state.ip_version),
                };
                Some(Endpoint::Ip(IpEndpoint { addr, port: e.port }))
            },
            None => None,
        }
    }

    pub fn remote_endpoint(&self) -> (r: Option<Endpoint>)
        ensures
            opt_model(r) == match self@.state.remote_endpoint {
                Some(e) => Some(EndpointModel::Ip(e)),
                None => None,
            },
    {
        match self.state.remote_endpoint {
            Some(e) => Some(Endpoint::Ip(e)),
            None => None,
        }
    }

    /// Ties the socket to the interface of a name, or to none with an empty
    /// name.
    pub fn set_bind_to_device(&mut self, ns: &NetNamespace, ifname: &str) -> (r: Result<
        usize,
        SyscallErr,
    >)
        ensures
            ({
                let found = seqs::find_first(ns.devs(), net_core::named(ifname@));
                &&& r == if ifname@.len() == 0 || found is Some {
                    Ok::<usize, SyscallErr>(0)
                } else {
                    Err(SyscallErr::ENODEV)
                }
                &&& final(self)@ == if r is Ok {
                    UdpModel {
                        state: UdpState {
                            bound_ifindex: if ifname@.len() == 0 {
                                None
                            } else {
                                Some(found->0.nic_id)
                            },
                            ..old(self)@.state
                        },
                        ..old(self)@
                    }
                } else {
                    old(self)@
                }
            }),
    {
        if ifname.unicode_len() == 0 {
            self.state.bound_ifindex = None;
            return Ok(0);
        }
        match ns.device_by_name(ifname) {
            Some(d) => {
                self.state.bound_ifindex = Some(d.nic_id);
                Ok(0)
            },
            None => Err(SyscallErr::ENODEV),
        }
    }

    /// Only an IPv6 socket can be told to keep to IPv6.
    pub fn set_ipv6_v6only(&mut self, enabled: bool) -> (r: Result<usize, SyscallErr>)
        ensures
            r == if old(self)@.state.ip_version == IpVersion::Ipv6 {
                Ok::<usize, SyscallErr>(0)
            } else {
                Err(SyscallErr::ENOPROTOOPT)
            },
            final(self)@ == if r is Ok {
                UdpModel {
                    state: UdpState { ipv6_v6only: enabled, ..old(self)@.state },
                    ..old(self)@
                }
            } else {
                old(self)@
            },
    {
        match self.state.ip_version {
            IpVersion::Ipv6 => {
                self.state.ipv6_v6only = enabled;
                Ok(0)
            },
            IpVersion::Ipv4 => Err(SyscallErr::ENOPROTOOPT),
        }
    }

    pub fn join_multicast_group(&mut self) -> (r: Result<usize, SyscallErr>)
        ensures
            r == Ok::<usize, SyscallErr>(0),
            final(self)@ == (UdpModel {
                state: UdpState { multicast_group_joined: true, ..old(self)@.state },
                ..old(self)@
            }),
    {
        self.state.multicast_group_joined = true;
        Ok(0)
    }

    /// A group can only be left once it was joined.
    pub fn leave_multicast_group(&mut self) -> (r: Result<usize, SyscallErr>)
        ensures
            r == if old(self)@.state.multicast_group_joined {
                Ok::<usize, SyscallErr>(0)
            } else {
                Err(SyscallErr::EADDRNOTAVAIL)
            },
            final(self)@ == (UdpModel {
                state: UdpState { multicast_group_joined: false, ..old(self)@.state },
                ..old(self)@
            }),
    {
        if self.state.multicast_group_joined {
            self.state.multicast_group_joined = false;
            Ok(0)
        } else {
            Err(SyscallErr::EADDRNOTAVAIL)
        }
    }

    /// Receives the first datagram and where it came from. What does not fit in
    /// the buffer is lost.
    pub fn try_recvmsg(&mut self, buf: &mut [u8]) -> (r: Result<
        (isize, Option<Endpoint>),
        SyscallErr,
    >)
        requires
            old(buf)@.len() <= isize::MAX,
        ensures
            ({
                let (next, got) = taken(old(self)@, old(buf)@);
                &&& final(self)@ == next
                &&& match got {
                    Some((n, from, out)) => {
                        &&& r matches Ok((k, ep))
                        &&& k == n
                        &&& opt_model(ep) == Some(EndpointModel::Ip(from))
                        &&& final(buf)@ == out
                    },
                    None => r matches Err(e) && e == SyscallErr::EAGAIN && final(buf)@
                        == old(buf)@,
                }
            }),
    {
        let ghost q = self@.rx;
        match self.rx_queue.pop_front() {
            None => Err(SyscallErr::EAGAIN),
            Some(d) => {
                assert(q[0] == d@);
                assert(self@.rx =~= q.drop_first());
                let n: usize = if d.data.len() < buf.len() {
                    d.data.len()
                } else {
                    buf.len()
                };
                let part = vstd::slice::slice_subrange(d.data.as_slice(), 0, n);
                bytes::write_front(buf, part);
                assert(part@ =~= d.data@.take(n as int));
                self.state.last_recv_addr = Some(d.from);
                Ok((n as isize, Some(Endpoint::Ip(d.from))))
            },
        }
    }

    /// Copies the first datagram, which stays in the queue, and where it came
    /// from: what the next receive with the same room gives.
    pub fn try_peek_recvmsg(&self, buf: &mut [u8]) -> (r: Result<
        (isize, Option<Endpoint>),
        SyscallErr,
    >)
        requires
            old(buf)@.len() <= isize::MAX,
        ensures
            match shown(self@, old(buf)@) {
                Some((n, from, out)) => {
                    &&& r matches Ok((k, ep))
                    &&& k == n
                    &&& opt_model(ep) == Some(EndpointModel::Ip(from))
                    &&& final(buf)@ == out
                },
                None => r matches Err(e) && e == SyscallErr::EAGAIN && final(buf)@ == old(buf)@,
            },
    {
        if self.rx_queue.len() == 0 {
            return Err(SyscallErr::EAGAIN);
        }
        let d = &self.rx_queue[0];
        assert(self@.rx[0] == d@);
        let n: usize = if d.data.len() < buf.len() {
            d.data.len()
        } else {
            buf.len()
        };
        let part = vstd::slice::slice_subrange(d.data.as_slice(), 0, n);
        bytes::write_front(buf, part);
        assert(part@ =~= d.data@.take(n as int));
        Ok((n as isize, Some(Endpoint::Ip(d.from))))
    }

    /// Receives the first datagram; see [`UdpSocket::try_recvmsg`].
    pub fn try_recv(&mut self, buf: &mut [u8]) -> (r: Result<isize, SyscallErr>)
        requires
            old(buf)@.len() <= isize::MAX,
        ensures
            ({
                let (next, got) = taken(old(self)@, old(buf)@);
                &&& final(self)@ == next
                &&& match got {
                    Some((n, _, out)) => r matches Ok(k) && k == n && final(buf)@ == out,
                    None => r matches Err(e) && e == SyscallErr::EAGAIN && final(buf)@
                        == old(buf)@,
                }
            }),
    {
        match self.try_recvmsg(buf) {
            Ok((n, _)) => Ok(n),
            Err(e) => Err(e),
        }
    }

    /// Where the last datagram came from; it is told once.
    pub fn last_recv_addr(&mut self) -> (r: Option<Endpoint>)
        ensures
            opt_model(r) == match old(self)@.state.last_recv_addr {
                Some(e) => Some(EndpointModel::Ip(e)),
                None => None,
            },
            final(self)@ == (UdpModel {
                state: UdpState { last_recv_addr: None, ..old(self)@.state },
                ..old(self)@
            }),
    {
        let last = self.state.last_recv_addr;
        self.state.last_recv_addr = None;
        match last {
            Some(e) => Some(Endpoint::Ip(e)),
            None => None,
        }
    }

    pub fn recv_ready(&self) -> (r: bool)
        ensures
            r == (self@.rx.len() > 0),
    {
        self.rx_queue.len() > 0
    }

    /// Keeps the data where more is announced; else gives out what was kept and
    /// the data behind it.
    fn take_send_buf(&mut self, buf: &[u8], more: bool) -> (r: Option<Vec<u8>>)
        ensures
            match r {
                Some(b) => !more && b@ == old(self)@.more + buf@ && final(self)@ == (UdpModel {
                    more: Seq::empty(),
                    ..old(self)@
                }),
                None => more && final(self)@ == (UdpModel {
                    more: old(self)@.more + buf@,
                    ..old(self)@
                }),
            },
    {
        bytes::append_bytes(&mut self.msg_more_buf, buf);
        if more {
            return None;
        }
        let mut out: Vec<u8> = Vec::new();
        std::mem::swap(&mut out, &mut self.msg_more_buf);
        assert(self@.more =~= Seq::<u8>::empty());
        Some(out)
    }
}

/// What the first datagram comes to in a buffer: how many of its bytes fit,
/// where it came from and the buffer then.
pub open spec fn shown(m: UdpModel, buf: Seq<u8>) -> Option<(int, IpEndpoint, Seq<u8>)> {
    if m.rx.len() == 0 {
        None
    } else {
        Some(
            (
                datagram::copied_len(buf, m.rx[0].data),
                m.rx[0].from,
                datagram::received(buf, m.rx[0].data),
            ),
        )
    }
}

/// What a receive into a buffer does: the socket without its first datagram,
/// and what that came to.
pub open spec fn taken(m: UdpModel, buf: Seq<u8>) -> (
    UdpModel,
    Option<(int, IpEndpoint, Seq<u8>)>,
) {
    if m.rx.len() == 0 {
        (m, None)
    } else {
        (
            UdpModel {
                rx: m.rx.drop_first(),
                state: UdpState { last_recv_addr: Some(m.rx[0].from), ..m.state },
                ..m
            },
            Some(
                (
                    datagram::copied_len(buf, m.rx[0].data),
                    m.rx[0].from,
                    datagram::received(buf, m.rx[0].data),
                ),
            ),
        )
    }
}

/// A look takes nothing away: the receive that follows gives the same bytes from
/// the same sender.
pub proof fn law_peek_then_receive(m: UdpModel, buf: Seq<u8>)
    ensures
        taken(m, buf).1 == shown(m, buf),
{
}

/// How the stack took a datagram.
#[derive(Clone, Copy, Debug, PartialEq, Eq, Structural)]
pub enum StackSend {
    /// There is no such socket in the stack.
    NoSocket,
    /// The stack's socket cannot send now.
    NotReady,
    Sent,
    Unaddressable,
    BufferFull,
    Failed,
}

/// What a send returns once the stack was asked.
pub open spec fn send_result(s: StackSend, len: usize) -> Result<isize, SyscallErr> {
    match s {
        StackSend::NoSocket | StackSend::NotReady | StackSend::BufferFull => Err(
            SyscallErr::EAGAIN,
        ),
        StackSend::Sent => Ok(len as isize),
        StackSend::Unaddressable => Err(SyscallErr::ENOTCONN),
        StackSend::Failed => Err(SyscallErr::ENOBUFS),
    }
}

/// What a send returns once the stack was asked.
pub fn finish_send(s: StackSend, len: usize) -> (r: Result<isize, SyscallErr>)
    requires
        len <= UDP_MAX_PAYLOAD,
    ensures
        r == send_result(s, len),
{
    match s {
        StackSend::NoSocket => Err(SyscallErr::EAGAIN),
        StackSend::NotReady => Err(SyscallErr::EAGAIN),
        StackSend::BufferFull => Err(SyscallErr::EAGAIN),
        StackSend::Sent => Ok(len as isize),
        StackSend::Unaddressable => Err(SyscallErr::ENOTCONN),
        StackSend::Failed => Err(SyscallErr::ENOBUFS),
    }
}

/// What is left to do for a datagram.
#[derive(Debug)]
pub enum UdpSend {
    /// Nothing: it was kept or delivered.
    Done(isize),
    /// The stack has to transmit it, through the interface `rebind` where one
    /// is named.
    Transmit { remote: IpEndpoint, data: Vec<u8>, rebind: Option<u32> },
}

/// What a [`UdpSend`] says.
#[verifier::ext_equal]
pub enum SendModel {
    Done(isize),
    Transmit { remote: IpEndpoint, data: Seq<u8>, rebind: Option<u32> },
}

impl View for UdpSend {
    type V = SendModel;

    open spec fn view(&self) -> SendModel {
        match *self {
            UdpSend::Done(n) => SendModel::Done(n),
            UdpSend::Transmit { remote, data, rebind } => SendModel::Transmit {
                remote,
                data: data@,
                rebind,
            },
        }
    }
}

pub open spec fn send_model(r: Result<UdpSend, SyscallErr>) -> Result<SendModel, SyscallErr> {
    match r {
        Ok(s) => Ok(s@),
        Err(e) => Err(e),
    }
}

/// All UDP sockets, and those among them that receive, in the order in which
/// they were registered.
pub struct UdpSockets {
    pub sockets: Arena<UdpSocket>,
    pub registered: Vec<u64>,
}

/// What [`UdpSockets`] hold.
#[verifier::ext_equal]
pub struct UdpSpace {
    pub sockets: Map<u64, UdpModel>,
    pub registered: Seq<u64>,
}

pub open spec fn socket_models(m: Map<u64, UdpSocket>) -> Map<u64, UdpModel> {
    Map::new(|id: u64| m.contains_key(id), |id: u64| m[id]@)
}

impl View for UdpSockets {
    type V = UdpSpace;

    open spec fn view(&self) -> UdpSpace {
        UdpSpace { sockets: socket_models(self.sockets@), registered: self.registered@ }
    }
}

/// The first of those with the highest score, which must not be zero.
pub open spec fn best(ids: Seq<u64>, score: spec_fn(u64) -> int) -> Option<u64>
    decreases ids.len(),
{
    if ids.len() == 0 {
        None
    } else {
        let b = best(ids.drop_last(), score);
        let high = match b {
            Some(id) => score(id),
            None => 0,
        };
        if score(ids.last()) > high {
            Some(ids.last())
        } else {
            b
        }
    }
}

/// The best is one of those, no other has a higher score, and none before it
/// has the same; there is none only where no score is positive.
pub proof fn law_best_is_first_of_highest(ids: Seq<u64>, score: spec_fn(u64) -> int)
    ensures
        match best(ids, score) {
            Some(b) => exists|i: int|
                #![trigger ids[i]]
                0 <= i < ids.len() && ids[i] == b && score(b) > 0 && (forall|j: int|
                    0 <= j < ids.len() ==> score(#[trigger] ids[j]) <= score(b)) && (forall|j: int|
                    0 <= j < i ==> score(#[trigger] ids[j]) < score(b)),
            None => forall|j: int| 0 <= j < ids.len() ==> score(#[trigger] ids[j]) <= 0,
        },
    decreases ids.len(),
{
    if ids.len() > 0 {
        let t = ids.drop_last();
        law_best_is_first_of_highest(t, score);
        let last = ids.len() - 1;
        match best(t, score) {
            Some(b) => {
                let i = choose|i: int|
                    #![trigger t[i]]
                    0 <= i < t.len() && t[i] == b && score(b) > 0 && (forall|j: int|
                        0 <= j < t.len() ==> score(#[trigger] t[j]) <= score(b)) && (forall|j: int|
                        0 <= j < i ==> score(#[trigger] t[j]) < score(b));
                assert forall|j: int| 0 <= j < t.len() implies score(#[trigger] ids[j]) <= score(
                    b,
                ) by {
                    assert(ids[j] == t[j]);
                }
                assert forall|j: int| 0 <= j < i implies score(#[trigger] ids[j]) < score(b) by {
                    assert(ids[j] == t[j]);
                }
                assert(ids[i] == b);
                assert(ids[last] == ids.last());
            },
            None => {
                assert forall|j: int| 0 <= j < t.len() implies score(#[trigger] ids[j]) <= 0 by {
                    assert(ids[j] == t[j]);
                }
                assert(ids[last] == ids.last());
            },
        }
    }
}

/// How well a socket fits a datagram to `remote` from `src` on this machine:
/// by its own address, and by the peer that it is connected to.
pub open spec fn local_score(s: UdpState, remote: IpEndpoint, src: IpEndpoint) -> int {
    match s.local_endpoint {
        None => 0,
        Some(l) => {
            let by_addr = match l.addr {
                Some(a) => if a == remote.addr {
                    2int
                } else {
                    0
                },
                None => 1,
            };
            let by_peer = match s.remote_endpoint {
                Some(p) => if p == src {
                    2int
                } else {
                    0
                },
                None => 1,
            };
            if l.port == remote.port && by_addr > 0 && by_peer > 0 {
                by_addr + by_peer
            } else {
                0
            }
        },
    }
}

/// How well a socket fits a datagram that came in from `remote` for the stack's
/// socket at `local`. One that is connected elsewhere does not.
pub open spec fn match_score(s: UdpState, local: IpListenEndpoint, remote: IpEndpoint) -> int {
    let port = match s.local_endpoint {
        Some(l) => l.port,
        None => 0,
    };
    if port != local.port {
        0
    } else {
        match s.remote_endpoint {
            Some(p) => if p == remote {
                2
            } else {
                0
            },
            None => 1,
        }
    }
}

/// The score of a socket by its number; one that is gone has none.
pub open spec fn local_scores(
    sockets: Map<u64, UdpModel>,
    remote: IpEndpoint,
    src: IpEndpoint,
) -> spec_fn(u64) -> int {
    |id: u64|
        if sockets.contains_key(id) {
            local_score(sockets[id].state, remote, src)
        } else {
            0
        }
}

pub open spec fn match_scores(
    sockets: Map<u64, UdpModel>,
    local: IpListenEndpoint,
    remote: IpEndpoint,
) -> spec_fn(u64) -> int {
    |id: u64|
        if sockets.contains_key(id) {
            match_score(sockets[id].state, local, remote)
        } else {
            0
        }
}

/// The address is one of this machine.
pub open spec fn is_local_destination(devs: Seq<DeviceModel>, addr: IpAddress) -> bool {
    addr.spec_is_unspecified() || addr.spec_is_loopback() || (addr is Ipv4 && exists|i: int|
        0 <= i < devs.len() && (#[trigger] devs[i]).owns(addr))
}

/// The endpoint that datagrams of a socket to `remote` come from.
pub open spec fn source_endpoint(
    s: UdpState,
    devs: Seq<DeviceModel>,
    entries: Seq<RouteEntry>,
    remote: IpEndpoint,
) -> Option<IpEndpoint> {
    match s.local_endpoint {
        Some(l) => if l.port == 0 {
            None
        } else {
            Some(
                IpEndpoint {
                    addr: match l.addr {
                        Some(a) => a,
                        None => config::source_ip(devs, entries, remote.addr),
                    },
                    port: l.port,
                },
            )
        },
        None => None,
    }
}

/// Delivering a datagram on this machine: the sockets afterwards, and how many
/// bytes were delivered, or nothing where no socket here receives it.
pub open spec fn delivered_locally(
    m: UdpSpace,
    id: u64,
    devs: Seq<DeviceModel>,
    entries: Seq<RouteEntry>,
    remote: IpEndpoint,
    data: Seq<u8>,
) -> (UdpSpace, Result<Option<isize>, SyscallErr>) {
    let src = source_endpoint(m.sockets[id].state, devs, entries, remote);
    if !is_local_destination(devs, remote.addr) || src is None {
        (m, Ok(None))
    } else {
        match best(m.registered, local_scores(m.sockets, remote, src->0)) {
            None => (m, Ok(None)),
            Some(p) => {
                let peer = m.sockets[p];
                if peer.rx.len() >= peer.state.recvbuf_size {
                    (m, Err(SyscallErr::EAGAIN))
                } else {
                    (
                        UdpSpace {
                            sockets: m.sockets.insert(
                                p,
                                UdpModel {
                                    rx: peer.rx.push(DatagramModel { data, from: src->0 }),
                                    ..peer
                                },
                            ),
                            ..m
                        },
                        Ok(Some(data.len() as isize)),
                    )
                }
            },
        }
    }
}

/// The namespace after the source address was looked up where that was needed.
pub open spec fn asks_for_source(m: UdpSpace, id: u64, devs: Seq<DeviceModel>, remote: IpEndpoint) -> bool {
    &&& is_local_destination(devs, remote.addr)
    &&& m.sockets[id].state.local_endpoint matches Some(l)
    &&& l.port != 0
    &&& l.addr is None
}

/// A datagram that came in through the stack.
#[derive(Debug)]
pub struct UdpPacketDelivery {
    pub local: IpListenEndpoint,
    pub remote: IpEndpoint,
    pub payload: Vec<u8>,
}

/// What a [`UdpPacketDelivery`] says.
#[verifier::ext_equal]
pub struct DeliveryModel {
    pub local: IpListenEndpoint,
    pub remote: IpEndpoint,
    pub payload: Seq<u8>,
}

impl View for UdpPacketDelivery {
    type V = DeliveryModel;

    open spec fn view(&self) -> DeliveryModel {
        DeliveryModel { local: self.local, remote: self.remote, payload: self.payload@ }
    }
}

pub open spec fn delivery_models(s: Seq<UdpPacketDelivery>) -> Seq<DeliveryModel> {
    Seq::new(s.len(), |i: int| s[i]@)
}

/// The sockets after datagrams came in, and which of them got one, in order.
pub open spec fn dispatched(m: UdpSpace, ds: Seq<DeliveryModel>) -> (UdpSpace, Seq<u64>)
    decreases ds.len(),
{
    if ds.len() == 0 {
        (m, Seq::empty())
    } else {
        let (n, woken) = dispatched(m, ds.drop_last());
        let d = ds.last();
        match best(n.registered, match_scores(n.sockets, d.local, d.remote)) {
            None => (n, woken),
            Some(p) => (
                UdpSpace {
                    sockets: n.sockets.insert(
                        p,
                        UdpModel {
                            rx: n.sockets[p].rx.push(
                                DatagramModel { data: d.payload, from: d.remote },
                            ),
                            ..n.sockets[p]
                        },
                    ),
                    ..n
                },
                woken.push(p),
            ),
        }
    }
}

pub open spec fn is_present(live: Set<u64>) -> spec_fn(u64) -> bool {
    |id: u64| live.contains(id)
}

/// The checks before a datagram is sent: where it goes to.
pub open spec fn send_target(m: UdpModel, dest: Option<EndpointModel>, len: int) -> Result<
    IpEndpoint,
    SyscallErr,
> {
    let remote = match dest {
        Some(EndpointModel::Ip(e)) => Ok(e),
        Some(_) => Err(SyscallErr::EINVAL),
        None => match m.state.remote_endpoint {
            Some(e) => Ok(e),
            None => Err(SyscallErr::ENOTCONN),
        },
    };
    if len > UDP_MAX_PAYLOAD {
        Err(SyscallErr::EMSGSIZE)
    } else {
        match remote {
            Err(e) => Err(e),
            Ok(e) => {
                let addr = e.addr.spec_unmapped();
                if !family_matches(m.state, addr) {
                    Err(SyscallErr::EAFNOSUPPORT)
                } else {
                    Ok(IpEndpoint { addr, port: e.port })
                }
            },
        }
    }
}

/// A socket sends a datagram to a destination, or without one to its peer.
/// With more announced it is kept. A receiver on this machine gets it at once;
/// else there must be a route, and the stack of the interface that the socket
/// is tied to, or that the route leads through, has to transmit it.
pub open spec fn sent_msg(
    m: UdpSpace,
    id: u64,
    devs: Seq<DeviceModel>,
    entries: Seq<RouteEntry>,
    buf: Seq<u8>,
    dest: Option<EndpointModel>,
    more: bool,
) -> (UdpSpace, Result<SendModel, SyscallErr>) {
    let s = m.sockets[id];
    match send_target(s, dest, buf.len() as int) {
        Err(e) => (m, Err(e)),
        Ok(remote) => {
            let data = s.more + buf;
            if more {
                (
                    UdpSpace {
                        sockets: m.sockets.insert(id, UdpModel { more: data, ..s }),
                        ..m
                    },
                    Ok(SendModel::Done(buf.len() as isize)),
                )
            } else {
                let taken = UdpSpace {
                    sockets: m.sockets.insert(id, UdpModel { more: Seq::empty(), ..s }),
                    ..m
                };
                let (n, r) = delivered_locally(taken, id, devs, entries, remote, data);
                match r {
                    Err(e) => (n, Err(e)),
                    Ok(Some(k)) => (n, Ok(SendModel::Done(k))),
                    Ok(None) => match routing::spec_route_output(devs, entries, remote.addr) {
                        Err(e) => (n, Err(e)),
                        Ok(d) => (
                            n,
                            Ok(
                                SendModel::Transmit {
                                    remote,
                                    data,
                                    rebind: Some(
                                        match s.state.bound_ifindex {
                                            Some(i) => i,
                                            None => d.ifindex,
                                        },
                                    ),
                                },
                            ),
                        ),
                    },
                }
            }
        },
    }
}

/// A socket sends a datagram to its peer; neither the family nor the route is
/// looked at.
pub open spec fn sent(
    m: UdpSpace,
    id: u64,
    devs: Seq<DeviceModel>,
    entries: Seq<RouteEntry>,
    buf: Seq<u8>,
    more: bool,
) -> (UdpSpace, Result<SendModel, SyscallErr>) {
    let s = m.sockets[id];
    if buf.len() > UDP_MAX_PAYLOAD {
        (m, Err(SyscallErr::EMSGSIZE))
    } else {
        match s.state.remote_endpoint {
            None => (m, Err(SyscallErr::ENOTCONN)),
            Some(remote) => {
                let data = s.more + buf;
                if more {
                    (
                        UdpSpace {
                            sockets: m.sockets.insert(id, UdpModel { more: data, ..s }),
                            ..m
                        },
                        Ok(SendModel::Done(buf.len() as isize)),
                    )
                } else {
                    let taken = UdpSpace {
                        sockets: m.sockets.insert(id, UdpModel { more: Seq::empty(), ..s }),
                        ..m
                    };
                    let (n, r) = delivered_locally(taken, id, devs, entries, remote, data);
                    match r {
                        Err(e) => (n, Err(e)),
                        Ok(Some(k)) => (n, Ok(SendModel::Done(k))),
                        Ok(None) => (n, Ok(SendModel::Transmit { remote, data, rebind: None })),
                    }
                }
            },
        }
    }
}

/// Whether the routes are looked at for a datagram to the peer.
pub open spec fn send_asks_router(
    m: UdpSpace,
    id: u64,
    devs: Seq<DeviceModel>,
    buf: Seq<u8>,
    more: bool,
) -> bool {
    match m.sockets[id].state.remote_endpoint {
        Some(remote) => buf.len() <= UDP_MAX_PAYLOAD && !more && asks_for_source(
            m,
            id,
            devs,
            remote,
        ),
        None => false,
    }
}

/// Whether the routes are looked at for a datagram to a destination: for its
/// source, or because nobody on this machine receives it.
pub open spec fn msg_asks_router(
    m: UdpSpace,
    id: u64,
    devs: Seq<DeviceModel>,
    entries: Seq<RouteEntry>,
    buf: Seq<u8>,
    dest: Option<EndpointModel>,
    more: bool,
) -> bool {
    let s = m.sockets[id];
    match send_target(s, dest, buf.len() as int) {
        Err(_) => false,
        Ok(remote) => {
            let taken = UdpSpace {
                sockets: m.sockets.insert(id, UdpModel { more: Seq::empty(), ..s }),
                ..m
            };
            !more && (asks_for_source(m, id, devs, remote) || delivered_locally(
                taken,
                id,
                devs,
                entries,
                remote,
                s.more + buf,
            ).1 == Ok::<Option<isize>, SyscallErr>(None))
        },
    }
}

impl UdpSockets {
    pub open spec fn wf(self) -> bool {
        self.sockets.wf()
    }

    pub fn new() -> (r: UdpSockets)
        ensures
            r.wf(),
            r@ == (UdpSpace { sockets: Map::empty(), registered: Seq::empty() }),
    {
        let r = UdpSockets { sockets: Arena::new(), registered: Vec::new() };
        assert(r@.sockets =~= Map::<u64, UdpModel>::empty());
        r
    }

    /// Lets a socket receive datagrams.
    pub fn register_udp_socket(&mut self, id: u64)
        requires
            old(self).wf(),
        ensures
            final(self).wf(),
            final(self)@ == (UdpSpace { registered: old(self)@.registered.push(id), ..old(self)@ }),
    {
        self.registered.push(id);
    }

    fn update(&mut self, id: u64, s: UdpSocket)
        requires
            old(self).wf(),
            id < old(self).sockets.next_id(),
        ensures
            final(self).wf(),
            final(self)@ == (UdpSpace {
                sockets: old(self)@.sockets.insert(id, s@),
                ..old(self)@
            }),
            final(self).sockets.next_id() == old(self).sockets.next_id(),
    {
        let ghost model = s@;
        let ghost m = self@;
        self.sockets.put(id, s);
        assert(self@.sockets =~= m.sockets.insert(id, model));
    }

    fn find_local_udp_recipient(&self, remote: IpEndpoint, src: IpEndpoint) -> (r: Option<u64>)
        ensures
            r == best(self@.registered, local_scores(self@.sockets, remote, src)),
            r matches Some(p) ==> self@.sockets.contains_key(p),
    {
        let ghost score = local_scores(self@.sockets, remote, src);
        let mut best_match: Option<u64> = None;
        let mut best_score: u32 = 0;
        let mut i: usize = 0;
        while i < self.registered.len()
            invariant
                i <= self.registered@.len(),
                score == local_scores(self@.sockets, remote, src),
                best_match == best(self.registered@.take(i as int), score),
                best_match matches Some(p) ==> self@.sockets.contains_key(p),
                best_score == match best_match {
                    Some(p) => score(p),
                    None => 0,
                },
            decreases self.registered@.len() - i,
        {
            let id: u64 = self.registered[i];
            let s: u32 = match self.sockets.get(id) {
                None => 0,
                Some(sock) => local_score_of(&sock.state, remote, src),
            };
            proof {
                assert(self.registered@.take(i + 1).drop_last() =~= self.registered@.take(i as int));
                assert(self.registered@.take(i + 1).last() == id);
                assert(s == score(id));
            }
            if s > best_score {
                best_score = s;
                best_match = Some(id);
            }
            i = i + 1;
        }
        assert(self.registered@.take(i as int) =~= self.registered@);
        best_match
    }

    fn find_best_match(&self, local: IpListenEndpoint, remote: IpEndpoint) -> (r: Option<u64>)
        ensures
            r == best(self@.registered, match_scores(self@.sockets, local, remote)),
            r matches Some(p) ==> self@.sockets.contains_key(p),
    {
        let ghost score = match_scores(self@.sockets, local, remote);
        let mut best_match: Option<u64> = None;
        let mut best_score: u32 = 0;
        let mut i: usize = 0;
        while i < self.registered.len()
            invariant
                i <= self.registered@.len(),
                score == match_scores(self@.sockets, local, remote),
                best_match == best(self.registered@.take(i as int), score),
                best_match matches Some(p) ==> self@.sockets.contains_key(p),
                best_score == match best_match {
                    Some(p) => score(p),
                    None => 0,
                },
            decreases self.registered@.len() - i,
        {
            let id: u64 = self.registered[i];
            let s: u32 = match self.sockets.get(id) {
                None => 0,
                Some(sock) => match_score_of(&sock.state, local, remote),
            };
            proof {
                assert(self.registered@.take(i + 1).drop_last() =~= self.registered@.take(i as int));
                assert(self.registered@.take(i + 1).last() == id);
                assert(s == score(id));
            }
            if s > best_score {
                best_score = s;
                best_match = Some(id);
            }
            i = i + 1;
        }
        assert(self.registered@.take(i as int) =~= self.registered@);
        best_match
    }

    /// Puts a datagram into the queue of a receiver on this machine.
    fn try_deliver_local(
        &mut self,
        id: u64,
        remote: IpEndpoint,
        data: &Vec<u8>,
        ns: &mut NetNamespace,
        globals: &NetGlobals,
    ) -> (r: Result<Option<isize>, SyscallErr>)
        requires
            old(self).wf(),
            old(self)@.sockets.contains_key(id),
            old(ns).wf(),
            globals.wf(),
            data@.len() <= isize::MAX,
        ensures
            final(self).wf(),
            final(self).sockets.next_id() == old(self).sockets.next_id(),
            final(ns).wf(),
            final(ns).devices == old(ns).devices,
            final(ns).router.table.entries@ == if asks_for_source(
                old(self)@,
                id,
                old(ns).devs(),
                remote,
            ) {
                routing::filled(*old(ns), *globals)
            } else {
                old(ns).router.table.entries@
            },
            (final(self)@, r) == delivered_locally(
                old(self)@,
                id,
                old(ns).devs(),
                routing::filled(*old(ns), *globals),
                remote,
                data@,
            ),
    {
        if !is_local_udp_destination(ns, remote.addr) {
            return Ok(None);
        }
        let local = match self.sockets.get(id) {
            Some(s) => s.state.local_endpoint,
            None => None,
        };
        let src = match local {
            None => return Ok(None),
            Some(l) => {
                if l.port == 0 {
                    return Ok(None);
                }
                let addr = match l.addr {
                    Some(a) => a,
                    None => config::lookup_source_ip(ns, globals, remote.addr),
                };
                IpEndpoint { addr, port: l.port }
            },
        };
        let peer: u64 = match self.find_local_udp_recipient(remote, src) {
            Some(p) => p,
            None => return Ok(None),
        };
        if let Some(s) = self.sockets.get(peer) {
            if s.rx_queue.len() >= s.state.recvbuf_size {
                return Err(SyscallErr::EAGAIN);
            }
        }
        let ghost m = self@;
        if let Some(mut s) = self.sockets.take(peer) {
            let ghost before = s@;
            let copy = bytes::copy_range(data, 0, data.len());
            assert(copy@ =~= data@);
            let d = UdpDatagram { data: copy, from: src };
            let ghost dm = d@;
            s.rx_queue.push_back(d);
            assert(s@.rx =~= before.rx.push(dm));
            let ghost model = s@;
            self.sockets.put(peer, s);
            assert(self@.sockets =~= m.sockets.insert(peer, model));
        }
        Ok(Some(data.len() as isize))
    }

    /// Sends a datagram to the peer of a socket.
    pub fn try_send(
        &mut self,
        id: u64,
        buf: &[u8],
        more: bool,
        ns: &mut NetNamespace,
        globals: &NetGlobals,
    ) -> (r: Result<UdpSend, SyscallErr>)
        requires
            old(self).wf(),
            old(self)@.sockets.contains_key(id),
            old(ns).wf(),
            globals.wf(),
            old(self)@.sockets[id].more.len() + buf@.len() <= isize::MAX,
        ensures
            final(self).wf(),
            final(ns).wf(),
            final(ns).devices == old(ns).devices,
            final(ns).router.table.entries@ == if send_asks_router(
                old(self)@,
                id,
                old(ns).devs(),
                buf@,
                more,
            ) {
                routing::filled(*old(ns), *globals)
            } else {
                old(ns).router.table.entries@
            },
            (final(self)@, send_model(r)) == sent(
                old(self)@,
                id,
                old(ns).devs(),
                routing::filled(*old(ns), *globals),
                buf@,
                more,
            ),
    {
        if buf.len() > UDP_MAX_PAYLOAD {
            return Err(SyscallErr::EMSGSIZE);
        }
        let remote = match self.sockets.get(id) {
            Some(s) => match s.state.remote_endpoint {
                Some(e) => e,
                None => return Err(SyscallErr::ENOTCONN),
            },
            None => return Err(SyscallErr::ENOTCONN),
        };
        let mut s = match self.sockets.take(id) {
            Some(s) => s,
            None => return Err(SyscallErr::ENOTCONN),
        };
        let taken = s.take_send_buf(buf, more);
        self.update(id, s);
        assert(self@.sockets =~= old(self)@.sockets.insert(id, self@.sockets[id]));
        let data = match taken {
            None => return Ok(UdpSend::Done(buf.len() as isize)),
            Some(d) => d,
        };
        match self.try_deliver_local(id, remote, &data, ns, globals) {
            Err(e) => Err(e),
            Ok(Some(n)) => Ok(UdpSend::Done(n)),
            Ok(None) => Ok(UdpSend::Transmit { remote, data, rebind: None }),
        }
    }

    /// Sends a datagram to a destination, or without one to the peer of the
    /// socket.
    #[verifier::rlimit(40)]
    pub fn try_sendmsg(
        &mut self,
        id: u64,
        buf: &[u8],
        dest: &Option<Endpoint>,
        more: bool,
        ns: &mut NetNamespace,
        globals: &NetGlobals,
    ) -> (r: Result<UdpSend, SyscallErr>)
        requires
            old(self).wf(),
            old(self)@.sockets.contains_key(id),
            old(ns).wf(),
            globals.wf(),
            old(self)@.sockets[id].more.len() + buf@.len() <= isize::MAX,
        ensures
            final(self).wf(),
            final(ns).wf(),
            final(ns).devices == old(ns).devices,
            final(ns).router.table.entries@ == if msg_asks_router(
                old(self)@,
                id,
                old(ns).devs(),
                routing::filled(*old(ns), *globals),
                buf@,
                opt_model(*dest),
                more,
            ) {
                routing::filled(*old(ns), *globals)
            } else {
                old(ns).router.table.entries@
            },
            (final(self)@, send_model(r)) == sent_msg(
                old(self)@,
                id,
                old(ns).devs(),
                routing::filled(*old(ns), *globals),
                buf@,
                opt_model(*dest),
                more,
            ),
    {
        let ghost table = routing::filled(*ns, *globals);
        if buf.len() > UDP_MAX_PAYLOAD {
            return Err(SyscallErr::EMSGSIZE);
        }
        let named: Option<IpEndpoint> = match dest {
            Some(Endpoint::Ip(e)) => Some(*e),
            Some(_) => return Err(SyscallErr::EINVAL),
            None => None,
        };
        let mut s = match self.sockets.take(id) {
            Some(s) => s,
            None => return Err(SyscallErr::ENOTCONN),
        };
        let ghost before = s@;
        let target: Option<IpEndpoint> = match named {
            Some(e) => Some(e),
            None => s.state.remote_endpoint,
        };
        let checked: Result<IpEndpoint, SyscallErr> = match target {
            None => Err(SyscallErr::ENOTCONN),
            Some(e) => {
                let addr = e.addr.unmapped();
                if s.addr_family_matches(addr) {
                    Ok(IpEndpoint { addr, port: e.port })
                } else {
                    Err(SyscallErr::EAFNOSUPPORT)
                }
            },
        };
        let bound: Option<u32> = s.state.bound_ifindex;
        let remote = match checked {
            Ok(e) => e,
            Err(e) => {
                self.update(id, s);
                assert(self@.sockets =~= old(self)@.sockets);
                return Err(e);
            },
        };
        let taken = s.take_send_buf(buf, more);
        self.update(id, s);
        assert(self@.sockets =~= old(self)@.sockets.insert(id, self@.sockets[id]));
        let data = match taken {
            None => return Ok(UdpSend::Done(buf.len() as isize)),
            Some(d) => d,
        };
        match self.try_deliver_local(id, remote, &data, ns, globals) {
            Err(e) => Err(e),
            Ok(Some(n)) => Ok(UdpSend::Done(n)),
            Ok(None) => {
                assert(routing::filled(*ns, *globals) =~= table);
                match routing::route_output(ns, globals, remote.addr) {
                    Err(e) => Err(e),
                    Ok(d) => {
                        let ifindex: u32 = match bound {
                            Some(i) => i,
                            None => d.ifindex,
                        };
                        Ok(UdpSend::Transmit { remote, data, rebind: Some(ifindex) })
                    },
                }
            },
        }
    }

    fn prune(&mut self)
        requires
            old(self).wf(),
        ensures
            final(self).wf(),
            final(self).sockets.next_id() == old(self).sockets.next_id(),
            final(self)@ == (UdpSpace {
                registered: old(self)@.registered.filter(is_present(old(self)@.sockets.dom())),
                ..old(self)@
            }),
    {
        let ghost before = self.registered@;
        let ghost p = is_present(self@.sockets.dom());
        let mut kept: Vec<u64> = Vec::new();
        let mut i: usize = 0;
        proof {
            reveal(Seq::filter);
        }
        while i < self.registered.len()
            invariant
                i <= self.registered@.len(),
                self.registered@ == before,
                *self == *old(self),
                p == is_present(self@.sockets.dom()),
                kept@ == before.take(i as int).filter(p),
            decreases self.registered@.len() - i,
        {
            proof {
                seqs::lemma_filter_step(before, p, i as int);
            }
            let id: u64 = self.registered[i];
            if self.sockets.contains(id) {
                kept.push(id);
            }
            i = i + 1;
        }
        assert(before.take(i as int) =~= before);
        self.registered = kept;
    }

    /// Hands datagrams that came in to the sockets that they fit best, and
    /// returns which sockets to wake. Those without one are lost.
    pub fn dispatch_udp_packets(&mut self, deliveries: &Vec<UdpPacketDelivery>) -> (r: Vec<u64>)
        requires
            old(self).wf(),
        ensures
            final(self).wf(),
            (final(self)@, r@) == dispatched(
                UdpSpace {
                    registered: old(self)@.registered.filter(is_present(old(self)@.sockets.dom())),
                    ..old(self)@
                },
                delivery_models(deliveries@),
            ),
    {
        self.prune();
        let ghost start = self@;
        let ghost all = delivery_models(deliveries@);
        let mut woken: Vec<u64> = Vec::new();
        let mut i: usize = 0;
        assert(all.take(0) =~= Seq::<DeliveryModel>::empty());
        while i < deliveries.len()
            invariant
                i <= deliveries@.len(),
                all == delivery_models(deliveries@),
                self.wf(),
                (self@, woken@) == dispatched(start, all.take(i as int)),
            decreases deliveries@.len() - i,
        {
            let d = &deliveries[i];
            let ghost m = self@;
            proof {
                assert(all.take(i + 1).drop_last() =~= all.take(i as int));
                assert(all.take(i + 1).last() == d@);
            }
            match self.find_best_match(d.local, d.remote) {
                None => {},
                Some(p) => {
                    if let Some(mut s) = self.sockets.take(p) {
                        let ghost before = s@;
                        let copy = bytes::copy_range(&d.payload, 0, d.payload.len());
                        assert(copy@ =~= d.payload@);
                        let g = UdpDatagram { data: copy, from: d.remote };
                        let ghost gm = g@;
                        s.rx_queue.push_back(g);
                        assert(s@.rx =~= before.rx.push(gm));
                        let ghost model = s@;
                        self.sockets.put(p, s);
                        assert(self@.sockets =~= m.sockets.insert(p, model));
                        woken.push(p);
                    }
                },
            }
            i = i + 1;
        }
        assert(all.take(i as int) =~= all);
        woken
    }

    /// Closes a socket; the stack's socket of the handle is to be removed.
    pub fn close(&mut self, id: u64) -> (r: Option<RouteSocketHandle>)
        requires
            old(self).wf(),
        ensures
            final(self).wf(),
            final(self)@ == (UdpSpace { sockets: old(self)@.sockets.remove(id), ..old(self)@ }),
            r == if old(self)@.sockets.contains_key(id) {
                Some(old(self)@.sockets[id].state.socket_handler)
            } else {
                None
            },
    {
        let ghost m = self@;
        let r = match self.sockets.take(id) {
            Some(s) => Some(s.state.socket_handler),
            None => None,
        };
        assert(self@.sockets =~= m.sockets.remove(id));
        r
    }
}

/// A datagram that is delivered on this machine stands behind those that its
/// receiver has not read yet, whole and with the endpoint that it came from;
/// no other socket is touched.
pub proof fn law_local_datagram_arrives(
    m: UdpSpace,
    id: u64,
    devs: Seq<DeviceModel>,
    entries: Seq<RouteEntry>,
    remote: IpEndpoint,
    data: Seq<u8>,
)
    requires
        delivered_locally(m, id, devs, entries, remote, data).1 is Ok,
        delivered_locally(m, id, devs, entries, remote, data).1->Ok_0 is Some,
    ensures
        ({
            let (n, r) = delivered_locally(m, id, devs, entries, remote, data);
            let from = source_endpoint(m.sockets[id].state, devs, entries, remote);
            &&& from is Some
            &&& r->Ok_0->0 == data.len() as isize
            &&& exists|p: u64|
                #![trigger n.sockets[p]]
                m.registered.contains(p) && n.sockets[p].rx == m.sockets[p].rx.push(
                    DatagramModel { data, from: from->0 },
                ) && n.sockets == m.sockets.insert(p, n.sockets[p])
        }),
{
    let from = source_endpoint(m.sockets[id].state, devs, entries, remote)->0;
    let score = local_scores(m.sockets, remote, from);
    let p = best(m.registered, score)->0;
    law_best_is_first_of_highest(m.registered, score);
    let (n, _) = delivered_locally(m, id, devs, entries, remote, data);
    assert(m.registered.contains(p));
    assert(n.sockets =~= m.sockets.insert(p, n.sockets[p]));
}

fn local_score_of(s: &UdpState, remote: IpEndpoint, src: IpEndpoint) -> (r: u32)
    ensures
        r == local_score(*s, remote, src),
{
    let l = match s.local_endpoint {
        None => return 0,
        Some(l) => l,
    };
    if l.port != remote.port {
        return 0;
    }
    let by_addr: u32 = match l.addr {
        Some(a) => if a == remote.addr {
            2
        } else {
            return 0;
        },
        None => 1,
    };
    let by_peer: u32 = match s.remote_endpoint {
        Some(p) => if p == src {
            2
        } else {
            return 0;
        },
        None => 1,
    };
    by_addr + by_peer
}

fn match_score_of(s: &UdpState, local: IpListenEndpoint, remote: IpEndpoint) -> (r: u32)
    ensures
        r == match_score(*s, local, remote),
{
    let port: u16 = match s.local_endpoint {
        Some(l) => l.port,
        None => 0,
    };
    if port != local.port {
        return 0;
    }
    match s.remote_endpoint {
        Some(p) => if p == remote {
            2
        } else {
            0
        },
        None => 1,
    }
}

fn is_local_udp_destination(ns: &NetNamespace, addr: IpAddress) -> (r: bool)
    ensures
        r == is_local_destination(ns.devs(), addr),
{
    if addr.is_unspecified() || addr.is_loopback() {
        return true;
    }
    match addr {
        IpAddress::Ipv4(a) => net_core::is_local_addr(ns, a),
        IpAddress::Ipv6(_) => false,
    }
}

/// A datagram never reaches a socket that is connected to someone else.
pub proof fn law_connected_socket_is_private(
    m: UdpSpace,
    local: IpListenEndpoint,
    remote: IpEndpoint,
    p: u64,
)
    requires
        best(m.registered, match_scores(m.sockets, local, remote)) == Some(p),
    ensures
        m.sockets.contains_key(p),
        m.sockets[p].state.remote_endpoint is None || m.sockets[p].state.remote_endpoint == Some(
            remote,
        ),
{
    law_best_is_first_of_highest(m.registered, match_scores(m.sockets, local, remote));
}

/// What was announced as one datagram in pieces is sent as one, in order.
pub proof fn law_more_is_joined(
    m: UdpSpace,
    id: u64,
    devs: Seq<DeviceModel>,
    entries: Seq<RouteEntry>,
    a: Seq<u8>,
    b: Seq<u8>,
)
    requires
        m.sockets.contains_key(id),
        m.sockets[id].state.remote_endpoint is Some,
        a.len() <= UDP_MAX_PAYLOAD,
        b.len() <= UDP_MAX_PAYLOAD,
        !is_local_destination(devs, m.sockets[id].state.remote_endpoint->0.addr),
    ensures
        sent(sent(m, id, devs, entries, a, true).0, id, devs, entries, b, false).1 == Ok::<
            SendModel,
            SyscallErr,
        >(
            SendModel::Transmit {
                remote: m.sockets[id].state.remote_endpoint->0,
                data: m.sockets[id].more + a + b,
                rebind: None,
            },
        ),
{
    assert((m.sockets[id].more + a) + b =~= m.sockets[id].more + a + b);
}

} // verus!
