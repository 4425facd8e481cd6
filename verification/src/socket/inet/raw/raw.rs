//! Raw sockets: packets with a header of their own making.
use vstd::prelude::*;
use crate::bytes;
use crate::config;
use crate::error::SyscallErr;
use crate::iface::{DeviceModel, NetDeviceEntry};
use crate::net_core;
use crate::net_core::{NetGlobals, NetNamespace};
use crate::routing;
use crate::routing::{RouteEntry, RouteSocketHandle};
use crate::seqs;
use crate::socket::inet::datagram::udp::MAX_BUFFER_SIZE;
use crate::socket::inet::raw::checksum;
use crate::socket::{opt_model, Endpoint, EndpointModel};
use crate::wire::{
    IpAddress,
    IpCidr,
    IpEndpoint,
    IpListenEndpoint,
    IpVersion,
    Ipv4Address,
    Ipv6Address,
};

verus! {

/// How many routers a packet may pass.
pub const RAW_HOP_LIMIT: u8 = 64;

/// The most payload of an IPv4 packet.
pub const IPV4_MAX_PAYLOAD: usize = 65515;

/// The most payload of an IPv6 packet.
pub const IPV6_MAX_PAYLOAD: usize = 65535;

/// What a raw socket holds besides its filter.
#[derive(Clone, Copy, Debug, PartialEq, Eq, Structural)]
pub struct RawState {
    pub local_endpoint: Option<IpListenEndpoint>,
    pub remote_endpoint: Option<IpEndpoint>,
    pub ip_version: IpVersion,
    pub ip_protocol: u8,
    pub recvbuf_size: usize,
    pub sendbuf_size: usize,
    pub bound_ifindex: Option<u32>,
    pub ipv6_checksum_offset: Option<u32>,
}

/// A raw socket. It has a socket in every stack; the first sends.
#[derive(Debug)]
pub struct RawSocket {
    pub state: RawState,
    /// One bit for each ICMPv6 type; those whose bit is set are not received.
    pub type_filter: [u32; 8],
    pub socket_handlers: Vec<RouteSocketHandle>,
}

/// What a [`RawSocket`] holds.
#[verifier::ext_equal]
pub struct RawModel {
    pub state: RawState,
    pub filter: Seq<u32>,
    pub handlers: Seq<RouteSocketHandle>,
}

impl View for RawSocket {
    type V = RawModel;

    open spec fn view(&self) -> RawModel {
        RawModel {
            state: self.state,
            filter: self.type_filter@,
            handlers: self.socket_handlers@,
        }
    }
}

/// A packet for the stack to transmit, through the interface `rebind` where
/// one is named.
#[derive(Debug)]
pub struct RawSend {
    pub packet: Vec<u8>,
    pub rebind: Option<u32>,
}

/// An IPv4 packet: a header without options, with its checksum, and the
/// payload.
pub open spec fn ipv4_packet(src: Ipv4Address, dst: Ipv4Address, protocol: u8, payload: Seq<u8>) -> Seq<
    u8,
> {
    let plain = seq![0x45u8, 0u8] + bytes::be16((20 + payload.len()) as u16) + seq![
        0u8,
        0u8,
        0u8,
        0u8,
        RAW_HOP_LIMIT,
        protocol,
        0u8,
        0u8,
    ] + src.octets() + dst.octets() + payload;
    checksum::with_checksum(
        plain,
        10,
        checksum::complement(checksum::words_sum(plain.take(20)) as int),
    )
}

/// An IPv6 packet: the header and the payload.
pub open spec fn ipv6_packet(src: Ipv6Address, dst: Ipv6Address, protocol: u8, payload: Seq<u8>) -> Seq<
    u8,
> {
    seq![0x60u8, 0u8, 0u8, 0u8] + bytes::be16(payload.len() as u16) + seq![protocol, RAW_HOP_LIMIT]
        + src.octets() + dst.octets() + payload
}

/// The payload with a checksum at an offset, if it has room for one there.
pub open spec fn summed_payload(
    src: Ipv6Address,
    dst: Ipv6Address,
    protocol: u8,
    payload: Seq<u8>,
    offset: Option<u32>,
) -> Seq<u8> {
    match offset {
        Some(off) if off as int + 2 <= payload.len() => {
            let z = checksum::with_checksum(payload, off as int, 0);
            checksum::with_checksum(
                payload,
                off as int,
                checksum::complement(
                    checksum::pseudo_sum(
                        src.octets(),
                        dst.octets(),
                        payload.len() as u32,
                        protocol,
                    ) + checksum::words_sum(z),
                ),
            )
        },
        _ => payload,
    }
}

/// The interface that packets to `dest` leave through: the one that the socket
/// is tied to, else that of the route.
pub open spec fn out_ifindex(
    s: RawState,
    devs: Seq<DeviceModel>,
    entries: Seq<RouteEntry>,
    dest: IpAddress,
) -> Option<u32> {
    match s.bound_ifindex {
        Some(i) => Some(i),
        None => match routing::spec_route_output(devs, entries, dest) {
            Ok(d) => Some(d.ifindex),
            Err(_) => None,
        },
    }
}

pub open spec fn is_v6_address() -> spec_fn(IpCidr) -> bool {
    |c: IpCidr| c.address matches IpAddress::Ipv6(a) && a.bits != 0
}

/// The first IPv4 address of an interface, if that is its first address.
pub open spec fn v4_of(devs: Seq<DeviceModel>, ifindex: Option<u32>) -> Option<Ipv4Address> {
    match ifindex {
        Some(i) => match seqs::find_first(devs, net_core::indexed(i)) {
            Some(d) => match d.first_addr() {
                Some(IpAddress::Ipv4(a)) => Some(a),
                _ => None,
            },
            None => None,
        },
        None => None,
    }
}

/// The first IPv6 address of an interface that is not all zeros.
pub open spec fn v6_of(devs: Seq<DeviceModel>, ifindex: Option<u32>) -> Option<Ipv6Address> {
    match ifindex {
        Some(i) => match seqs::find_first(devs, net_core::indexed(i)) {
            Some(d) => match seqs::find_first(d.ip_addrs, is_v6_address()) {
                Some(c) => match c.address {
                    IpAddress::Ipv6(a) => Some(a),
                    IpAddress::Ipv4(_) => None,
                },
                None => None,
            },
            None => None,
        },
        None => None,
    }
}

/// The source address of an IPv4 packet: an address of the interface that it
/// leaves through, else that of the route.
pub open spec fn v4_source(
    devs: Seq<DeviceModel>,
    entries: Seq<RouteEntry>,
    ifindex: Option<u32>,
    dst: Ipv4Address,
) -> Ipv4Address {
    match v4_of(devs, ifindex) {
        Some(a) => a,
        None => match config::source_ip(devs, entries, IpAddress::Ipv4(dst)) {
            IpAddress::Ipv4(a) => a,
            IpAddress::Ipv6(_) => Ipv4Address { bits: 0 },
        },
    }
}

/// The source address of an IPv6 packet.
pub open spec fn v6_source(
    devs: Seq<DeviceModel>,
    entries: Seq<RouteEntry>,
    ifindex: Option<u32>,
    dst: Ipv6Address,
) -> Ipv6Address {
    match v6_of(devs, ifindex) {
        Some(a) => a,
        None => match config::source_ip(devs, entries, IpAddress::Ipv6(dst)) {
            IpAddress::Ipv6(a) => a,
            IpAddress::Ipv4(_) => Ipv6Address { bits: 0 },
        },
    }
}

/// The packet that carries a payload to a destination, and the interface that
/// it leaves through.
pub open spec fn packet_to(
    s: RawState,
    devs: Seq<DeviceModel>,
    entries: Seq<RouteEntry>,
    payload: Seq<u8>,
    dest: EndpointModel,
) -> Result<(Seq<u8>, Option<u32>), SyscallErr> {
    match (s.ip_version, dest) {
        (IpVersion::Ipv4, EndpointModel::Ip(IpEndpoint { addr: IpAddress::Ipv4(dst), .. })) => {
            let out = out_ifindex(s, devs, entries, IpAddress::Ipv4(dst));
            Ok(
                (
                    ipv4_packet(v4_source(devs, entries, out, dst), dst, s.ip_protocol, payload),
                    out,
                ),
            )
        },
        (IpVersion::Ipv6, EndpointModel::Ip(IpEndpoint { addr: IpAddress::Ipv6(dst), .. })) => {
            let out = out_ifindex(s, devs, entries, IpAddress::Ipv6(dst));
            let src = v6_source(devs, entries, out, dst);
            Ok(
                (
                    ipv6_packet(
                        src,
                        dst,
                        s.ip_protocol,
                        summed_payload(src, dst, s.ip_protocol, payload, s.ipv6_checksum_offset),
                    ),
                    out,
                ),
            )
        },
        _ => Err(SyscallErr::EINVAL),
    }
}

/// Where a message goes: to its destination, or without one to the peer.
pub open spec fn send_target(s: RawState, dest: Option<EndpointModel>) -> Option<EndpointModel> {
    match dest {
        Some(e) => Some(e),
        None => match s.remote_endpoint {
            Some(e) => Some(EndpointModel::Ip(e)),
            None => None,
        },
    }
}

/// Whether the routes are looked at for a packet: for the interface, where the
/// socket is tied to none, or for the source, where that has no address.
pub open spec fn asks_router(s: RawState, devs: Seq<DeviceModel>, dest: EndpointModel) -> bool {
    match (s.ip_version, dest) {
        (IpVersion::Ipv4, EndpointModel::Ip(IpEndpoint { addr: IpAddress::Ipv4(_), .. })) =>
            s.bound_ifindex is None || v4_of(devs, s.bound_ifindex) is None,
        (IpVersion::Ipv6, EndpointModel::Ip(IpEndpoint { addr: IpAddress::Ipv6(_), .. })) =>
            s.bound_ifindex is None || v6_of(devs, s.bound_ifindex) is None,
        _ => false,
    }
}

/// A payload fits in a packet of the socket's version.
pub open spec fn payload_fits(s: RawState, len: int) -> bool {
    match s.ip_version {
        IpVersion::Ipv4 => len <= IPV4_MAX_PAYLOAD,
        IpVersion::Ipv6 => len <= IPV6_MAX_PAYLOAD,
    }
}

/// The bit of an ICMPv6 type is set in a filter.
pub open spec fn filtered(filter: Seq<u32>, kind: u8) -> bool {
    filter[(kind / 32) as int] & (1u32 << (kind % 32) as u32) != 0
}

/// What is left of a stack's answer to a send.
pub open spec fn send_result(stack: Option<bool>, len: usize) -> Result<usize, SyscallErr> {
    match stack {
        None => Err(SyscallErr::EAGAIN),
        Some(true) => Ok(len),
        Some(false) => Err(SyscallErr::ENOBUFS),
    }
}

fn build_ipv4_packet(src: Ipv4Address, dst: Ipv4Address, protocol: u8, payload: &[u8]) -> (r: Vec<u8>)
    requires
        payload@.len() <= IPV4_MAX_PAYLOAD,
    ensures
        r@ == ipv4_packet(src, dst, protocol, payload@),
{
    let mut p: Vec<u8> = Vec::new();
    p.push(0x45);
    p.push(0);
    bytes::put_u16_be(&mut p, (20 + payload.len()) as u16);
    p.push(0);
    p.push(0);
    p.push(0);
    p.push(0);
    p.push(RAW_HOP_LIMIT);
    p.push(protocol);
    p.push(0);
    p.push(0);
    bytes::append_bytes(&mut p, &src.to_octets());
    bytes::append_bytes(&mut p, &dst.to_octets());
    bytes::append_bytes(&mut p, payload);
    let ghost plain = seq![0x45u8, 0u8] + bytes::be16((20 + payload@.len()) as u16) + seq![
        0u8,
        0u8,
        0u8,
        0u8,
        RAW_HOP_LIMIT,
        protocol,
        0u8,
        0u8,
    ] + src.octets() + dst.octets() + payload@;
    proof {
        assert(p@ =~= plain);
        assert(checksum::with_checksum(plain, 10, 0) =~= plain);
    }
    checksum::ipv4_fill_checksum(&mut p);
    p
}

fn sum_payload(
    src: Ipv6Address,
    dst: Ipv6Address,
    protocol: u8,
    payload: &[u8],
    offset: Option<u32>,
) -> (r: Vec<u8>)
    requires
        payload@.len() <= IPV6_MAX_PAYLOAD,
    ensures
        r@ == summed_payload(src, dst, protocol, payload@, offset),
        r@.len() == payload@.len(),
{
    let n: usize = payload.len();
    let mut body = bytes::copy_range(payload, 0, n);
    assert(body@ =~= payload@);
    if let Some(off32) = offset {
        if n >= 2 && off32 as u64 <= (n - 2) as u64 {
            let off: usize = off32 as usize;
            body.set(off, 0);
            body.set(off + 1, 0);
            assert(body@ =~= checksum::with_checksum(payload@, off as int, 0));
            let csum: u16 = checksum::ipv6_pseudo_header_checksum(
                src,
                dst,
                n as u32,
                protocol,
                &body,
            );
            body.set(off, (csum / 256) as u8);
            body.set(off + 1, (csum % 256) as u8);
            assert(body@ =~= checksum::with_checksum(payload@, off as int, csum));
        }
    }
    body
}

fn build_ipv6_packet(src: Ipv6Address, dst: Ipv6Address, protocol: u8, payload: &Vec<u8>) -> (r: Vec<
    u8,
>)
    requires
        payload@.len() <= IPV6_MAX_PAYLOAD,
    ensures
        r@ == ipv6_packet(src, dst, protocol, payload@),
{
    let mut p: Vec<u8> = Vec::new();
    p.push(0x60);
    p.push(0);
    p.push(0);
    p.push(0);
    bytes::put_u16_be(&mut p, payload.len() as u16);
    p.push(protocol);
    p.push(RAW_HOP_LIMIT);
    bytes::append_bytes(&mut p, &src.to_octets());
    bytes::append_bytes(&mut p, &dst.to_octets());
    bytes::append_bytes(&mut p, payload);
    assert(p@ =~= ipv6_packet(src, dst, protocol, payload@));
    p
}

fn first_v6_address(d: &NetDeviceEntry) -> (r: Option<Ipv6Address>)
    ensures
        r == match seqs::find_first(d@.ip_addrs, is_v6_address()) {
            Some(c) => match c.address {
                IpAddress::Ipv6(a) => Some(a),
                IpAddress::Ipv4(_) => None,
            },
            None => None,
        },
{
    let mut i: usize = 0;
    while i < d.ip_addrs.len()
        invariant
            i <= d.ip_addrs@.len(),
            forall|j: int| 0 <= j < i ==> !is_v6_address()(#[trigger] d.ip_addrs@[j]),
        decreases d.ip_addrs@.len() - i,
    {
        if let IpAddress::Ipv6(a) = d.ip_addrs[i].address {
            if a.bits != 0 {
                proof {
                    seqs::lemma_find_first(d.ip_addrs@, is_v6_address(), i as int);
                }
                return Some(a);
            }
        }
        i = i + 1;
    }
    proof {
        seqs::lemma_find_none(d.ip_addrs@, is_v6_address());
    }
    None
}

/// In which stacks a raw socket gets a socket: in each, or in that of the
/// default interface where there is none.
pub fn raw_placements(ifindexes: &Vec<u32>) -> (r: Vec<Option<u32>>)
    ensures
        ifindexes@.len() == 0 ==> r@ == seq![None::<u32>],
        ifindexes@.len() > 0 ==> r@ == Seq::new(ifindexes@.len(), |i: int| Some(ifindexes@[i])),
{
    let mut out: Vec<Option<u32>> = Vec::new();
    if ifindexes.len() == 0 {
        out.push(None);
        return out;
    }
    let mut i: usize = 0;
    while i < ifindexes.len()
        invariant
            i <= ifindexes@.len(),
            out@ =~= Seq::new(i as nat, |k: int| Some(ifindexes@[k])),
        decreases ifindexes@.len() - i,
    {
        out.push(Some(ifindexes[i]));
        i = i + 1;
    }
    out
}

impl RawSocket {
    /// A fresh socket over the stacks' sockets of the handles. Of the protocol
    /// the low eight bits count.
    pub fn new(protocol: u32, ip_version: IpVersion, handlers: Vec<RouteSocketHandle>) -> (r: RawSocket)
        ensures
            r@ == (RawModel {
                state: RawState {
                    local_endpoint: None,
                    remote_endpoint: None,
                    ip_version,
                    ip_protocol: (protocol % 256) as u8,
                    recvbuf_size: MAX_BUFFER_SIZE,
                    sendbuf_size: MAX_BUFFER_SIZE,
                    bound_ifindex: None,
                    ipv6_checksum_offset: None,
                },
                filter: Seq::new(8, |i: int| 0u32),
                handlers: handlers@,
            }),
    {
        let r = RawSocket {
            state: RawState {
                local_endpoint: None,
                remote_endpoint: None,
                ip_version,
                ip_protocol: (protocol % 256) as u8,
                recvbuf_size: MAX_BUFFER_SIZE,
                sendbuf_size: MAX_BUFFER_SIZE,
                bound_ifindex: None,
                ipv6_checksum_offset: None,
            },
            type_filter: [0, 0, 0, 0, 0, 0, 0, 0],
            socket_handlers: handlers,
        };
        assert(r@.filter =~= Seq::new(8, |i: int| 0u32));
        r
    }

    /// Binds the socket to an address; ports mean nothing to it.
    pub fn bind(&mut self, endpoint: &Endpoint) -> (r: Result<usize, SyscallErr>)
        ensures
            match endpoint@ {
                EndpointModel::Ip(ep) => r == Ok::<usize, SyscallErr>(0) && final(self)@ == (RawModel {
                    state: RawState {
                        local_endpoint: Some(IpListenEndpoint { addr: Some(ep.addr), port: 0 }),
                        ..old(self)@.state
                    },
                    ..old(self)@
                }),
                _ => r == Err::<usize, SyscallErr>(SyscallErr::EINVAL) && final(self)@ == old(
                    self,
                )@,
            },
    {
        match endpoint {
            Endpoint::Ip(ep) => {
                self.state.local_endpoint = Some(
                    IpListenEndpoint { addr: Some(ep.addr), port: 0 },
                );
                Ok(0)
            },
            _ => Err(SyscallErr::EINVAL),
        }
    }

    /// Sets where the socket sends to.
    pub fn connect(&mut self, endpoint: &Endpoint) -> (r: Result<usize, SyscallErr>)
        ensures
            match endpoint@ {
                EndpointModel::Ip(ep) => r == Ok::<usize, SyscallErr>(0) && final(self)@ == (RawModel {
                    state: RawState { remote_endpoint: Some(ep), ..old(self)@.state },
                    ..old(self)@
                }),
                _ => r == Err::<usize, SyscallErr>(SyscallErr::EINVAL) && final(self)@ == old(
                    self,
                )@,
            },
    {
        match endpoint {
            Endpoint::Ip(ep) => {
                self.state.remote_endpoint = Some(*ep);
                Ok(0)
            },
            _ => Err(SyscallErr::EINVAL),
        }
    }

    /// Ties the socket to the interface of a name.
    pub fn set_bind_to_device(&mut self, ns: &NetNamespace, ifname: &str) -> (r: Result<
        usize,
        SyscallErr,
    >)
        ensures
            match seqs::find_first(ns.devs(), net_core::named(ifname@)) {
                Some(d) => r == Ok::<usize, SyscallErr>(0) && final(self)@ == (RawModel {
                    state: RawState { bound_ifindex: Some(d.nic_id), ..old(self)@.state },
                    ..old(self)@
                }),
                None => r == Err::<usize, SyscallErr>(SyscallErr::ENODEV) && final(self)@ == old(
                    self,
                )@,
            },
    {
        match ns.device_by_name(ifname) {
            Some(d) => {
                self.state.bound_ifindex = Some(d.nic_id);
                Ok(0)
            },
            None => Err(SyscallErr::ENODEV),
        }
    }

    pub fn set_icmp6_filter(&mut self, filter: [u32; 8]) -> (r: Result<usize, SyscallErr>)
        ensures
            r == Ok::<usize, SyscallErr>(0),
            final(self)@ == (RawModel { filter: filter@, ..old(self)@ }),
    {
        self.type_filter = filter;
        Ok(0)
    }

    /// Where checksums are put into IPv6 payloads; words start at even places.
    pub fn set_ipv6_checksum(&mut self, offset: u32) -> (r: Result<usize, SyscallErr>)
        ensures
            r == if offset % 2 != 0 {
                Err::<usize, SyscallErr>(SyscallErr::EINVAL)
            } else {
                Ok(0)
            },
            final(self)@ == if r is Ok {
                RawModel {
                    state: RawState { ipv6_checksum_offset: Some(offset), ..old(self)@.state },
                    ..old(self)@
                }
            } else {
                old(self)@
            },
    {
        if offset % 2 != 0 {
            return Err(SyscallErr::EINVAL);
        }
        self.state.ipv6_checksum_offset = Some(offset);
        Ok(0)
    }

    pub fn local_endpoint(&self) -> (r: Option<Endpoint>)
        ensures
            opt_model(r) == match self@.state.local_endpoint {
                Some(IpListenEndpoint { addr: Some(a), .. }) => Some(
                    EndpointModel::Ip(IpEndpoint { addr: a, port: 0 }),
                ),
                _ => None,
            },
    {
        match self.state.local_endpoint {
            Some(ep) => match ep.addr {
                Some(a) => Some(Endpoint::Ip(IpEndpoint { addr: a, port: 0 })),
                None => None,
            },
            None => None,
        }
    }

    pub fn remote_endpoint(&self) -> (r: Option<Endpoint>)
        ensures
            opt_model(r) == match self@.state.remote_endpoint {
                Some(e) => Some(EndpointModel::Ip(e)),
                None => None,
            },
    {
        match self.state.remote_endpoint {
            Some(e) => Some(Endpoint::Ip(e)),
            None => None,
        }
    }

    fn output_interface(&self, ns: &mut NetNamespace, globals: &NetGlobals, dest: IpAddress) -> (r:
        Option<u32>)
        requires
            old(ns).wf(),
            globals.wf(),
        ensures
            final(ns).wf(),
            final(ns).devices == old(ns).devices,
            final(ns).router.table.entries@ == if self@.state.bound_ifindex is None {
                routing::filled(*old(ns), *globals)
            } else {
                old(ns).router.table.entries@
            },
            routing::filled(*final(ns), *globals) == routing::filled(*old(ns), *globals),
            r == out_ifindex(
                self@.state,
                old(ns).devs(),
                routing::filled(*old(ns), *globals),
                dest,
            ),
    {
        match self.state.bound_ifindex {
            Some(i) => Some(i),
            None => match routing::route_output(ns, globals, dest) {
                Ok(d) => Some(d.ifindex),
                Err(_) => None,
            },
        }
    }

    /// Builds the packet that carries a payload to a destination. A router that
    /// is asked gets its default routes where it has none.
    pub fn send_to(
        &self,
        user_buf: &[u8],
        dest: &Endpoint,
        ns: &mut NetNamespace,
        globals: &NetGlobals,
    ) -> (r: Result<RawSend, SyscallErr>)
        requires
            old(ns).wf(),
            globals.wf(),
            payload_fits(self@.state, user_buf@.len() as int),
        ensures
            final(ns).wf(),
            final(ns).devices == old(ns).devices,
            final(ns).router.table.entries@ == if asks_router(self@.state, old(ns).devs(), dest@) {
                routing::filled(*old(ns), *globals)
            } else {
                old(ns).router.table.entries@
            },
            match r {
                Ok(s) => packet_to(
                    self@.state,
                    old(ns).devs(),
                    routing::filled(*old(ns), *globals),
                    user_buf@,
                    dest@,
                ) == Ok::<(Seq<u8>, Option<u32>), SyscallErr>((s.packet@, s.rebind)),
                Err(e) => packet_to(
                    self@.state,
                    old(ns).devs(),
                    routing::filled(*old(ns), *globals),
                    user_buf@,
                    dest@,
                ) == Err::<(Seq<u8>, Option<u32>), SyscallErr>(e),
            },
    {
        let addr = match dest {
            Endpoint::Ip(ep) => ep.addr,
            _ => return Err(SyscallErr::EINVAL),
        };
        match (self.state.ip_version, addr) {
            (IpVersion::Ipv4, IpAddress::Ipv4(target)) => {
                let out: Option<u32> = self.output_interface(ns, globals, addr);
                let on_interface: Option<Ipv4Address> = match out {
                    Some(i) => match ns.device_by_index(i) {
                        Some(d) => match d.first_addr() {
                            Some(IpAddress::Ipv4(a)) => Some(a),
                            _ => None,
                        },
                        None => None,
                    },
                    None => None,
                };
                let src = match on_interface {
                    Some(a) => a,
                    None => match config::lookup_source_ip(ns, globals, addr) {
                        IpAddress::Ipv4(a) => a,
                        IpAddress::Ipv6(_) => Ipv4Address { bits: 0 },
                    },
                };
                let packet = build_ipv4_packet(src, target, self.state.ip_protocol, user_buf);
                Ok(RawSend { packet, rebind: out })
            },
            (IpVersion::Ipv6, IpAddress::Ipv6(target)) => {
                let out: Option<u32> = self.output_interface(ns, globals, addr);
                let on_interface: Option<Ipv6Address> = match out {
                    Some(i) => match ns.device_by_index(i) {
                        Some(d) => first_v6_address(d),
                        None => None,
                    },
                    None => None,
                };
                let src = match on_interface {
                    Some(a) => a,
                    None => match config::lookup_source_ip(ns, globals, addr) {
                        IpAddress::Ipv6(a) => a,
                        IpAddress::Ipv4(_) => Ipv6Address { bits: 0 },
                    },
                };
                let protocol: u8 = self.state.ip_protocol;
                let body = sum_payload(
                    src,
                    target,
                    protocol,
                    user_buf,
                    self.state.ipv6_checksum_offset,
                );
                let packet = build_ipv6_packet(src, target, protocol, &body);
                Ok(RawSend { packet, rebind: out })
            },
            _ => Err(SyscallErr::EINVAL),
        }
    }

    /// The packet for a payload without a destination: to the peer with a
    /// header, or as it is where there is no peer.
    pub fn try_send(&self, buf: &[u8], ns: &mut NetNamespace, globals: &NetGlobals) -> (r: Result<
        RawSend,
        SyscallErr,
    >)
        requires
            old(ns).wf(),
            globals.wf(),
            self@.state.remote_endpoint is Some ==> payload_fits(
                self@.state,
                buf@.len() as int,
            ),
        ensures
            final(ns).wf(),
            final(ns).devices == old(ns).devices,
            final(ns).router.table.entries@ == match self@.state.remote_endpoint {
                Some(e) if asks_router(self@.state, old(ns).devs(), EndpointModel::Ip(e)) =>
                    routing::filled(*old(ns), *globals),
                _ => old(ns).router.table.entries@,
            },
            ({
                let want = match self@.state.remote_endpoint {
                    Some(e) => packet_to(
                        self@.state,
                        old(ns).devs(),
                        routing::filled(*old(ns), *globals),
                        buf@,
                        EndpointModel::Ip(e),
                    ),
                    None => Ok::<(Seq<u8>, Option<u32>), SyscallErr>((buf@, None)),
                };
                match r {
                    Ok(s) => want == Ok::<(Seq<u8>, Option<u32>), SyscallErr>((s.packet@, s.rebind)),
                    Err(e) => want == Err::<(Seq<u8>, Option<u32>), SyscallErr>(e),
                }
            }),
    {
        match self.state.remote_endpoint {
            Some(e) => self.send_to(buf, &Endpoint::Ip(e), ns, globals),
            None => {
                let packet = bytes::copy_range(buf, 0, buf.len());
                assert(packet@ =~= buf@);
                Ok(RawSend { packet, rebind: None })
            },
        }
    }

    /// The packet for a payload to a destination, or without one as
    /// [`RawSocket::try_send`] makes it.
    pub fn try_sendmsg(
        &self,
        buf: &[u8],
        dest: &Option<Endpoint>,
        ns: &mut NetNamespace,
        globals: &NetGlobals,
    ) -> (r: Result<RawSend, SyscallErr>)
        requires
            old(ns).wf(),
            globals.wf(),
            send_target(self@.state, opt_model(*dest)) is Some ==> payload_fits(
                self@.state,
                buf@.len() as int,
            ),
        ensures
            final(ns).wf(),
            final(ns).devices == old(ns).devices,
            final(ns).router.table.entries@ == match send_target(self@.state, opt_model(*dest)) {
                Some(e) if asks_router(self@.state, old(ns).devs(), e) => routing::filled(
                    *old(ns),
                    *globals,
                ),
                _ => old(ns).router.table.entries@,
            },
            ({
                let want = match send_target(self@.state, opt_model(*dest)) {
                    Some(e) => packet_to(
                        self@.state,
                        old(ns).devs(),
                        routing::filled(*old(ns), *globals),
                        buf@,
                        e,
                    ),
                    None => Ok::<(Seq<u8>, Option<u32>), SyscallErr>((buf@, None)),
                };
                match r {
                    Ok(s) => want == Ok::<(Seq<u8>, Option<u32>), SyscallErr>((s.packet@, s.rebind)),
                    Err(e) => want == Err::<(Seq<u8>, Option<u32>), SyscallErr>(e),
                }
            }),
    {
        match dest {
            Some(ep) => self.send_to(buf, ep, ns, globals),
            None => self.try_send(buf, ns, globals),
        }
    }

    /// Looks at a packet of `nbytes` bytes that stands in front of the buffer and
    /// was left in the stack: how many bytes the caller gets and where they
    /// came from, as [`RawSocket::take_packet`] will tell. The socket notes
    /// nothing.
    pub fn peek_packet(&self, buf: &mut [u8], nbytes: usize) -> (r: Option<(isize, Endpoint)>)
        requires
            nbytes <= old(buf)@.len() <= isize::MAX,
            match self@.state.ip_version {
                IpVersion::Ipv4 => nbytes >= 16,
                IpVersion::Ipv6 => nbytes >= 40,
            },
        ensures
            match packet_in(self@, old(buf)@, nbytes as int) {
                Some((n, src, out)) => {
                    &&& r matches Some((k, from))
                    &&& k == n
                    &&& from@ == EndpointModel::Ip(IpEndpoint { addr: src, port: 0 })
                    &&& final(buf)@ == out
                },
                None => r is None && final(buf)@ == old(buf)@,
            },
    {
        match self.state.ip_version {
            IpVersion::Ipv4 => {
                let src = IpAddress::Ipv4(Ipv4Address::from_bytes_at(buf, 12));
                Some((nbytes as isize, Endpoint::Ip(IpEndpoint { addr: src, port: 0 })))
            },
            IpVersion::Ipv6 => {
                if nbytes > 40 {
                    let kind: u8 = buf[40];
                    let word: u32 = self.type_filter[(kind / 32) as usize];
                    if word & (1u32 << ((kind % 32) as u32)) != 0 {
                        return None;
                    }
                }
                let src = IpAddress::Ipv6(Ipv6Address::from_bytes_at(buf, 8));
                let payload = bytes::copy_range(buf, 40, nbytes);
                bytes::write_front(buf, &payload);
                Some(((nbytes - 40) as isize, Endpoint::Ip(IpEndpoint { addr: src, port: 0 })))
            },
        }
    }

    /// Takes in a packet of `nbytes` bytes that stands in front of the buffer:
    /// notes where it came from, and returns how many bytes the caller gets, or
    /// nothing where the filter does not let it through. Of an IPv6 packet only
    /// the payload is handed on.
    pub fn take_packet(&mut self, buf: &mut [u8], nbytes: usize) -> (r: Option<isize>)
        requires
            nbytes <= old(buf)@.len() <= isize::MAX,
            match old(self)@.state.ip_version {
                IpVersion::Ipv4 => nbytes >= 16,
                IpVersion::Ipv6 => nbytes >= 40,
            },
        ensures
            match packet_in(old(self)@, old(buf)@, nbytes as int) {
                Some((n, src, out)) => {
                    &&& r == Some(n)
                    &&& final(buf)@ == out
                    &&& final(self)@ == from_source(old(self)@, src)
                },
                None => r is None && final(buf)@ == old(buf)@ && final(self)@ == old(self)@,
            },
    {
        match self.peek_packet(buf, nbytes) {
            Some((n, Endpoint::Ip(from))) => {
                self.state.remote_endpoint = Some(from);
                Some(n)
            },
            _ => None,
        }
    }
}

/// What a packet of `nbytes` bytes in front of a buffer comes to: how many bytes
/// the caller gets, where they came from and the buffer then. Nothing where
/// the filter does not let it through.
pub open spec fn packet_in(m: RawModel, buf: Seq<u8>, nbytes: int) -> Option<
    (isize, IpAddress, Seq<u8>),
> {
    match m.state.ip_version {
        IpVersion::Ipv4 => Some(
            (
                nbytes as isize,
                IpAddress::Ipv4(Ipv4Address { bits: bytes::u32_be_at(buf, 12) }),
                buf,
            ),
        ),
        IpVersion::Ipv6 => if nbytes > 40 && filtered(m.filter, buf[40]) {
            None
        } else {
            Some(
                (
                    (nbytes - 40) as isize,
                    IpAddress::Ipv6(Ipv6Address::of(buf.subrange(8, 24))),
                    buf.subrange(40, nbytes) + buf.skip(nbytes - 40),
                ),
            )
        },
    }
}

/// The socket after a packet from an address.
pub open spec fn from_source(m: RawModel, addr: IpAddress) -> RawModel {
    RawModel {
        state: RawState { remote_endpoint: Some(IpEndpoint { addr, port: 0 }), ..m.state },
        ..m
    }
}

/// What a send returns once the stack was asked: nothing where it has no such
/// socket, or whether it took the packet.
pub fn finish_send(stack: Option<bool>, len: usize) -> (r: Result<usize, SyscallErr>)
    ensures
        r == send_result(stack, len),
{
    match stack {
        None => Err(SyscallErr::EAGAIN),
        Some(true) => Ok(len),
        Some(false) => Err(SyscallErr::ENOBUFS),
    }
}

/// Whether a receive goes on with the next stack, by what one stack gave: none
/// where it has no such socket. `None` means to go on.
pub fn after_stack(result: Option<Result<isize, SyscallErr>>) -> (r: Option<
    Result<isize, SyscallErr>,
>)
    ensures
        r == match result {
            Some(Err(SyscallErr::EAGAIN)) | None => None,
            Some(x) => Some(x),
        },
{
    match result {
        Some(Ok(n)) => Some(Ok(n)),
        Some(Err(SyscallErr::EAGAIN)) => None,
        Some(Err(e)) => Some(Err(e)),
        None => None,
    }
}

/// A router that gets an IPv4 packet finds its header in order: the sum over
/// it is all ones.
pub proof fn law_ipv4_header_verifies(
    src: Ipv4Address,
    dst: Ipv4Address,
    protocol: u8,
    payload: Seq<u8>,
)
    requires
        payload.len() <= IPV4_MAX_PAYLOAD,
    ensures
        ({
            let p = ipv4_packet(src, dst, protocol, payload);
            &&& p.len() == 20 + payload.len()
            &&& checksum::fold(checksum::words_sum(p.take(20)) as int) == 65535
            &&& p.skip(20) == payload
        }),
{
    let plain = seq![0x45u8, 0u8] + bytes::be16((20 + payload.len()) as u16) + seq![
        0u8,
        0u8,
        0u8,
        0u8,
        RAW_HOP_LIMIT,
        protocol,
        0u8,
        0u8,
    ] + src.octets() + dst.octets() + payload;
    let p = ipv4_packet(src, dst, protocol, payload);
    let header = plain.take(20);
    let sum = checksum::words_sum(header) as int;
    assert(checksum::with_checksum(header, 10, 0) =~= header);
    checksum::lemma_checksum_adds(header, 10, checksum::complement(sum));
    assert(p.take(20) =~= checksum::with_checksum(header, 10, checksum::complement(sum)));
    assert(sum > 0) by {
        assert(header[0] == 0x45);
    }
    checksum::lemma_complement(sum);
    assert(p.skip(20) =~= payload);
}

} // verus!
