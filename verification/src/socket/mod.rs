//! Sockets: types, addresses, and what all kinds of socket share.
use vstd::prelude::*;
use vstd::utf8;
use crate::bytes;
use crate::error::SyscallErr;
use crate::event;
use crate::event::{EPOLLHUP, EPOLLIN, EPOLLOUT};
use crate::posix::PosixArgsSocketType;
use crate::socket::inet::common::address;
use crate::socket::unix::{UnixEndpoint, UnixName};
use crate::text;
use crate::wire::{IpAddress, IpEndpoint, IpVersion, Ipv4Address, Ipv6Address};

pub mod inet;
pub mod netlink;
pub mod packet;
pub mod unix;

verus! {

pub const AF_UNSPEC: u16 = 0;

pub const AF_UNIX: u16 = 1;

pub const AF_INET: u16 = 2;

pub const AF_INET6: u16 = 10;

pub const AF_NETLINK: u16 = 16;

pub const AF_PACKET: u16 = 17;

pub const SHUT_RD: u32 = 0;

pub const SHUT_WR: u32 = 1;

pub const SHUT_RDWR: u32 = 2;

pub const SOCK_TYPE_MASK: u32 = 0xF;

pub const MAX_BUFFER_SIZE: usize = 65536;

/// A socket type, without the flags of the `type` argument.
#[derive(Debug, Clone, Copy, PartialEq, Eq, Structural)]
pub enum PSOCK {
    Stream,
    Datagram,
    Raw,
    RDM,
    SeqPacket,
    DCCP,
    Packet,
}

/// The socket type of a number.
pub open spec fn psock_of(n: u32) -> Result<PSOCK, SyscallErr> {
    if n == 1 {
        Ok(PSOCK::Stream)
    } else if n == 2 {
        Ok(PSOCK::Datagram)
    } else if n == 3 {
        Ok(PSOCK::Raw)
    } else if n == 4 {
        Ok(PSOCK::RDM)
    } else if n == 5 {
        Ok(PSOCK::SeqPacket)
    } else if n == 6 {
        Ok(PSOCK::DCCP)
    } else if n == 10 {
        Ok(PSOCK::Packet)
    } else {
        Err(SyscallErr::EINVAL)
    }
}

impl PSOCK {
    /// The type in the low four bits of the argument.
    pub fn try_from(x: PosixArgsSocketType) -> (r: Result<PSOCK, SyscallErr>)
        ensures
            r == psock_of((x.bits % 16) as u32),
    {
        match x.types().bits() {
            1 => Ok(PSOCK::Stream),
            2 => Ok(PSOCK::Datagram),
            3 => Ok(PSOCK::Raw),
            4 => Ok(PSOCK::RDM),
            5 => Ok(PSOCK::SeqPacket),
            6 => Ok(PSOCK::DCCP),
            10 => Ok(PSOCK::Packet),
            _ => Err(SyscallErr::EINVAL),
        }
    }
}

/// A link layer endpoint (`sockaddr_ll`).
#[derive(Debug, Clone, Copy)]
pub struct PacketEndpoint {
    pub ifindex: u32,
    pub protocol: u16,
    pub hatype: u16,
    pub pkttype: u8,
    pub halen: u8,
    pub addr: [u8; 8],
}

/// An endpoint of any address family.
#[derive(Debug)]
pub enum Endpoint {
    /// AF_INET / AF_INET6
    Ip(IpEndpoint),
    /// AF_UNIX
    Unix(UnixEndpoint),
    /// AF_NETLINK, by port id
    Netlink(u32),
    /// AF_PACKET
    Packet(PacketEndpoint),
    /// AF_UNSPEC
    Unspecified,
}

/// What an [`Endpoint`] says.
#[verifier::ext_equal]
pub enum EndpointModel {
    Ip(IpEndpoint),
    Unix(UnixName),
    Netlink(u32),
    Packet(PacketEndpoint),
    Unspecified,
}

impl View for Endpoint {
    type V = EndpointModel;

    open spec fn view(&self) -> EndpointModel {
        match self {
            Endpoint::Ip(ep) => EndpointModel::Ip(*ep),
            Endpoint::Unix(u) => EndpointModel::Unix(u@),
            Endpoint::Netlink(id) => EndpointModel::Netlink(*id),
            Endpoint::Packet(p) => EndpointModel::Packet(*p),
            Endpoint::Unspecified => EndpointModel::Unspecified,
        }
    }
}

/// What an optional endpoint says.
pub open spec fn opt_model(ep: Option<Endpoint>) -> Option<EndpointModel> {
    match ep {
        Some(e) => Some(e@),
        None => None,
    }
}

/// What is to be written to a user's `sockaddr` buffer, and the length that is
/// reported, which can be larger than what was written.
#[derive(Debug)]
pub struct SockaddrOut {
    pub bytes: Vec<u8>,
    pub len: u32,
}

/// The endpoint that a `sockaddr` describes.
pub open spec fn sockaddr_endpoint(buf: Seq<u8>) -> Result<EndpointModel, SyscallErr> {
    if buf.len() < 2 {
        Err(SyscallErr::EINVAL)
    } else if bytes::u16_le_at(buf, 0) == AF_UNIX {
        let path = buf.skip(2);
        if path.len() == 0 || path[0] == 0 {
            if path.len() > 1 {
                Ok(EndpointModel::Unix(UnixName::Abstract(path.skip(1))))
            } else {
                Ok(EndpointModel::Unix(UnixName::Unnamed))
            }
        } else if utf8::valid_utf8(text::until_nul(path)) {
            Ok(EndpointModel::Unix(UnixName::Path(utf8::decode_utf8(text::until_nul(path)))))
        } else {
            Err(SyscallErr::EINVAL)
        }
    } else if bytes::u16_le_at(buf, 0) == AF_UNSPEC {
        Ok(EndpointModel::Unspecified)
    } else {
        match address::sockaddr_ip(buf) {
            Ok(ep) => Ok(EndpointModel::Ip(ep)),
            Err(e) => Err(e),
        }
    }
}

/// Why nothing can be written for an endpoint without an address.
pub open spec fn unspec_fill_error(addr: usize, addrlen: usize, socklen: Option<u32>) -> Option<
    SyscallErr,
> {
    if addr == 0 || addrlen == 0 || socklen is None {
        Some(SyscallErr::EFAULT)
    } else if socklen->0 < 2 {
        Some(SyscallErr::EINVAL)
    } else {
        None
    }
}

/// What is written for an endpoint, and the length that is reported: an IP
/// address has to fit, a name is cut to the buffer.
pub open spec fn sockaddr_out(ep: EndpointModel, addr: usize, addrlen: usize, socklen: Option<u32>) -> Result<
    (Seq<u8>, u32),
    SyscallErr,
> {
    match ep {
        EndpointModel::Ip(ip) => match address::ip_fill_error(ip, addr, addrlen, socklen) {
            Some(e) => Err(e),
            None => Ok((address::ip_sockaddr(ip), address::ip_sockaddr(ip).len() as u32)),
        },
        EndpointModel::Unix(name) => if addr == 0 || addrlen == 0 || addrlen % 4 != 0
            || socklen is None {
            Err(SyscallErr::EFAULT)
        } else if socklen->0 < 2 || socklen->0 >= 0x8000_0000 {
            Err(SyscallErr::EINVAL)
        } else {
            let full = unix::sockaddr_un(name, socklen->0 as int);
            Ok((full.take(unix::min_int(socklen->0 as int, full.len() as int)), full.len() as u32))
        },
        EndpointModel::Unspecified => match unspec_fill_error(addr, addrlen, socklen) {
            Some(e) => Err(e),
            None => Ok((bytes::le16(AF_UNSPEC), 2)),
        },
        _ => Err(SyscallErr::EAFNOSUPPORT),
    }
}

/// What a result of that kind says.
pub open spec fn out_model(r: Result<SockaddrOut, SyscallErr>) -> Result<(Seq<u8>, u32), SyscallErr> {
    match r {
        Ok(out) => Ok((out.bytes@, out.len)),
        Err(e) => Err(e),
    }
}

impl Endpoint {
    /// A second value that says the same.
    pub fn duplicate(&self) -> (r: Endpoint)
        ensures
            r@ == self@,
    {
        match self {
            Endpoint::Ip(ep) => Endpoint::Ip(*ep),
            Endpoint::Unix(u) => Endpoint::Unix(u.duplicate()),
            Endpoint::Netlink(id) => Endpoint::Netlink(*id),
            Endpoint::Packet(p) => Endpoint::Packet(*p),
            Endpoint::Unspecified => Endpoint::Unspecified,
        }
    }

    /// Parses a `sockaddr` by its family. Families other than Unix, IPv4, IPv6
    /// and unspecified are refused.
    pub fn from_sockaddr(addr_buf: &[u8]) -> (r: Result<Endpoint, SyscallErr>)
        ensures
            match r {
                Ok(ep) => sockaddr_endpoint(addr_buf@) == Ok::<EndpointModel, SyscallErr>(ep@),
                Err(e) => sockaddr_endpoint(addr_buf@) == Err::<EndpointModel, SyscallErr>(e),
            },
    {
        if addr_buf.len() < 2 {
            return Err(SyscallErr::EINVAL);
        }
        let family: u16 = bytes::get_u16_le(addr_buf, 0);
        match family {
            AF_INET => {
                if addr_buf.len() < 8 {
                    return Err(SyscallErr::EINVAL);
                }
                let port: u16 = bytes::get_u16_be(addr_buf, 2);
                let ip = Ipv4Address::from_bytes_at(addr_buf, 4);
                Ok(Endpoint::Ip(IpEndpoint::new(IpAddress::Ipv4(ip), port)))
            },
            AF_INET6 => {
                if addr_buf.len() < 24 {
                    return Err(SyscallErr::EINVAL);
                }
                let port: u16 = bytes::get_u16_be(addr_buf, 2);
                let ip = Ipv6Address::from_bytes_at(addr_buf, 8);
                Ok(Endpoint::Ip(IpEndpoint::new(IpAddress::Ipv6(ip), port)))
            },
            AF_UNIX => {
                let path = vstd::slice::slice_subrange(addr_buf, 2, addr_buf.len());
                assert(path@ =~= addr_buf@.skip(2));
                if path.len() == 0 || path[0] == 0 {
                    if path.len() > 1 {
                        let name = bytes::copy_range(path, 1, path.len());
                        assert(name@ =~= path@.skip(1));
                        Ok(Endpoint::Unix(UnixEndpoint::Abstract(name)))
                    } else {
                        Ok(Endpoint::Unix(UnixEndpoint::Unnamed))
                    }
                } else {
                    let len: usize = text::nul_position(path);
                    let front = vstd::slice::slice_subrange(path, 0, len);
                    assert(front@ =~= text::until_nul(path@));
                    match text::text_of_bytes(front) {
                        Some(s) => Ok(Endpoint::Unix(UnixEndpoint::Path(s))),
                        None => Err(SyscallErr::EINVAL),
                    }
                }
            },
            AF_UNSPEC => Ok(Endpoint::Unspecified),
            _ => Err(SyscallErr::EAFNOSUPPORT),
        }
    }

    /// The port; 0 for an endpoint that is not an IP endpoint.
    pub fn port(&self) -> (r: u16)
        ensures
            r == match self@ {
                EndpointModel::Ip(ep) => ep.port,
                _ => 0u16,
            },
    {
        match self {
            Endpoint::Ip(ep) => ep.port,
            _ => 0,
        }
    }

    /// What is written to the user's buffer for the endpoint.
    ///
    /// `addr` and `addrlen` are the user's addresses of the buffer and of its
    /// length, `socklen` what was read at the second, if that could be read.
    pub fn fill_sockaddr(&self, addr: usize, addrlen: usize, socklen: Option<u32>) -> (r: Result<
        SockaddrOut,
        SyscallErr,
    >)
        ensures
            out_model(r) == sockaddr_out(self@, addr, addrlen, socklen),
    {
        match self {
            Endpoint::Ip(ep) => address::fill_with_endpoint(*ep, addr, addrlen, socklen),
            Endpoint::Unix(u) => unix::fill_with_endpoint(u, addr, addrlen, socklen),
            Endpoint::Unspecified => {
                if addr == 0 || addrlen == 0 {
                    return Err(SyscallErr::EFAULT);
                }
                let capacity: u32 = match socklen {
                    Some(c) => c,
                    None => return Err(SyscallErr::EFAULT),
                };
                if capacity < 2 {
                    return Err(SyscallErr::EINVAL);
                }
                let mut out: Vec<u8> = Vec::new();
                bytes::put_u16_le(&mut out, AF_UNSPEC);
                assert(out@ =~= bytes::le16(AF_UNSPEC));
                Ok(SockaddrOut { bytes: out, len: 2 })
            },
            Endpoint::Netlink(_) | Endpoint::Packet(_) => Err(SyscallErr::EAFNOSUPPORT),
        }
    }
}

/// Every IP endpoint written as a `sockaddr` is parsed as the endpoint.
pub proof fn law_ip_endpoint_roundtrip(ep: IpEndpoint)
    ensures
        sockaddr_endpoint(address::ip_sockaddr(ep)) == Ok::<EndpointModel, SyscallErr>(
            EndpointModel::Ip(ep),
        ),
{
    address::law_ip_sockaddr_roundtrip(ep);
    let s = address::ip_sockaddr(ep);
    assert(s.len() >= 2);
    match ep.addr {
        IpAddress::Ipv4(_) => {
            assert(s[0] == 2 && s[1] == 0);
        },
        IpAddress::Ipv6(_) => {
            assert(s[0] == 10 && s[1] == 0);
        },
    }
}

/// A path without a zero byte, and an abstract name that is not empty, written
/// to a buffer that has room for them are parsed as what they were.
pub proof fn law_unix_endpoint_roundtrip(name: UnixName, capacity: int)
    requires
        match name {
            UnixName::Path(p) => {
                let b = utf8::encode_utf8(p);
                &&& b.len() > 0
                &&& forall|i: int| 0 <= i < b.len() ==> b[i] != 0
                &&& capacity >= 2 + b.len()
            },
            UnixName::Abstract(a) => a.len() > 0 && capacity >= 3 + a.len(),
            UnixName::Unnamed => capacity >= 2,
        },
    ensures
        sockaddr_endpoint(unix::sockaddr_un(name, capacity)) == Ok::<EndpointModel, SyscallErr>(
            EndpointModel::Unix(name),
        ),
{
    let s = unix::sockaddr_un(name, capacity);
    assert(s[0] == 1 && s[1] == 0);
    let path = s.skip(2);
    match name {
        UnixName::Path(p) => {
            let b = utf8::encode_utf8(p);
            assert(b.take(b.len() as int) =~= b);
            assert(forall|i: int| 0 <= i < b.len() ==> path[i] == b[i]);
            text::lemma_until_nul(path, b.len() as int);
            assert(path.take(b.len() as int) =~= b);
            utf8::encode_utf8_valid_utf8(p);
            utf8::encode_utf8_decode_utf8(p);
        },
        UnixName::Abstract(a) => {
            assert(a.take(a.len() as int) =~= a);
            assert(path[0] == 0);
            assert(path.skip(1) =~= a);
        },
        UnixName::Unnamed => {
            assert(path.len() == 0);
        },
    }
}

/// Which socket serves a `socket` call.
#[derive(Debug, Clone, Copy, PartialEq, Eq, Structural)]
pub enum SocketKind {
    Udp(IpVersion),
    Tcp(IpVersion),
    Raw(IpVersion),
    UnixStream,
    UnixDatagram,
    Netlink,
    Packet,
}

/// The IP socket of a type.
pub open spec fn spec_inet_kind(psock: PSOCK, ver: IpVersion) -> Result<SocketKind, SyscallErr> {
    match psock {
        PSOCK::Datagram => Ok(SocketKind::Udp(ver)),
        PSOCK::Stream => Ok(SocketKind::Tcp(ver)),
        PSOCK::Raw => Ok(SocketKind::Raw(ver)),
        _ => Err(SyscallErr::EINVAL),
    }
}

/// The socket that a domain and a type ask for. `AF_UNSPEC` stands for
/// `AF_INET`; only the low sixteen bits of the domain count.
pub open spec fn spec_alloc_socket(domain: u32, psock: PSOCK) -> Result<SocketKind, SyscallErr> {
    let family = domain % 65536;
    if family == AF_INET || family == AF_UNSPEC {
        spec_inet_kind(psock, IpVersion::Ipv4)
    } else if family == AF_INET6 {
        spec_inet_kind(psock, IpVersion::Ipv6)
    } else if family == AF_UNIX {
        match psock {
            PSOCK::Stream => Ok(SocketKind::UnixStream),
            PSOCK::Datagram | PSOCK::Raw => Ok(SocketKind::UnixDatagram),
            _ => Err(SyscallErr::EAFNOSUPPORT),
        }
    } else if family == AF_NETLINK {
        match psock {
            PSOCK::Raw | PSOCK::Datagram => Ok(SocketKind::Netlink),
            _ => Err(SyscallErr::EINVAL),
        }
    } else if family == AF_PACKET {
        match psock {
            PSOCK::Raw | PSOCK::Datagram => Ok(SocketKind::Packet),
            _ => Err(SyscallErr::EINVAL),
        }
    } else {
        Err(SyscallErr::EAFNOSUPPORT)
    }
}

fn inet_kind(psock: PSOCK, ver: IpVersion) -> (r: Result<SocketKind, SyscallErr>)
    ensures
        r == spec_inet_kind(psock, ver),
{
    match psock {
        PSOCK::Datagram => Ok(SocketKind::Udp(ver)),
        PSOCK::Stream => Ok(SocketKind::Tcp(ver)),
        PSOCK::Raw => Ok(SocketKind::Raw(ver)),
        _ => Err(SyscallErr::EINVAL),
    }
}

/// Chooses the socket for a `socket` call.
pub fn alloc_socket(domain: u32, psock: PSOCK) -> (r: Result<SocketKind, SyscallErr>)
    ensures
        r == spec_alloc_socket(domain, psock),
{
    let family: u16 = (domain % 65536) as u16;
    match family {
        AF_INET | AF_UNSPEC => inet_kind(psock, IpVersion::Ipv4),
        AF_INET6 => inet_kind(psock, IpVersion::Ipv6),
        AF_UNIX => match psock {
            PSOCK::Stream => Ok(SocketKind::UnixStream),
            PSOCK::Datagram | PSOCK::Raw => Ok(SocketKind::UnixDatagram),
            _ => Err(SyscallErr::EAFNOSUPPORT),
        },
        AF_NETLINK => match psock {
            PSOCK::Raw | PSOCK::Datagram => Ok(SocketKind::Netlink),
            _ => Err(SyscallErr::EINVAL),
        },
        AF_PACKET => match psock {
            PSOCK::Raw | PSOCK::Datagram => Ok(SocketKind::Packet),
            _ => Err(SyscallErr::EINVAL),
        },
        _ => Err(SyscallErr::EAFNOSUPPORT),
    }
}

/// Why the two user addresses of a `sockaddr` are refused at once.
pub open spec fn sockaddr_ptr_error(addr: usize, addrlen: usize) -> Option<SyscallErr> {
    if addr == 0 || addrlen == 0 || addrlen % 4 != 0 {
        Some(SyscallErr::EFAULT)
    } else {
        None
    }
}

/// Checks the user's addresses of a buffer and of its length.
pub fn prevalidate_sockaddr(addr: usize, addrlen: usize) -> (r: Result<(), SyscallErr>)
    ensures
        r == match sockaddr_ptr_error(addr, addrlen) {
            Some(e) => Err::<(), SyscallErr>(e),
            None => Ok(()),
        },
{
    if addr == 0 || addrlen == 0 {
        return Err(SyscallErr::EFAULT);
    }
    if addrlen % 4 != 0 {
        return Err(SyscallErr::EFAULT);
    }
    Ok(())
}

/// Why the length that the user states is refused: it could not be read, is
/// negative as a signed number, or has no room for a family.
pub open spec fn socklen_error(socklen: Option<u32>) -> Option<SyscallErr> {
    match socklen {
        None => Some(SyscallErr::EFAULT),
        Some(v) => if v >= 0x8000_0000 || v < 2 {
            Some(SyscallErr::EINVAL)
        } else {
            None
        },
    }
}

/// Checks the length that the user states.
pub fn prevalidate_socklen_value(socklen: Option<u32>) -> (r: Result<(), SyscallErr>)
    ensures
        r == match socklen_error(socklen) {
            Some(e) => Err::<(), SyscallErr>(e),
            None => Ok(()),
        },
{
    match socklen {
        None => Err(SyscallErr::EFAULT),
        Some(v) => {
            if v >= 0x8000_0000 {
                return Err(SyscallErr::EINVAL);
            }
            if v < 2 {
                return Err(SyscallErr::EINVAL);
            }
            Ok(())
        },
    }
}

/// What a report of a socket's own address is: the arguments are checked
/// before the socket, so that a bad argument is never reported as a missing
/// address.
pub open spec fn own_address(local: Option<EndpointModel>, buf: usize, addrlen: usize, socklen: Option<u32>) -> Result<
    (Seq<u8>, u32),
    SyscallErr,
> {
    match sockaddr_ptr_error(buf, addrlen) {
        Some(e) => Err(e),
        None => match socklen_error(socklen) {
            Some(e) => Err(e),
            None => match local {
                None => Err(SyscallErr::ENOTCONN),
                Some(ep) => sockaddr_out(ep, buf, addrlen, socklen),
            },
        },
    }
}

/// Reports a socket's own address.
pub fn addr(local: Option<Endpoint>, buf: usize, addrlen: usize, socklen: Option<u32>) -> (r:
    Result<SockaddrOut, SyscallErr>)
    ensures
        out_model(r) == own_address(opt_model(local), buf, addrlen, socklen),
{
    match prevalidate_sockaddr(buf, addrlen) {
        Ok(_) => {},
        Err(e) => return Err(e),
    }
    match prevalidate_socklen_value(socklen) {
        Ok(_) => {},
        Err(e) => return Err(e),
    }
    match local {
        None => Err(SyscallErr::ENOTCONN),
        Some(ep) => ep.fill_sockaddr(buf, addrlen, socklen),
    }
}

/// What a report of the address of a socket's peer is. The order of checks is
/// that of [`own_address`], with a probe of the user's buffer before the socket
/// is asked.
pub open spec fn peer_address(
    remote: Option<EndpointModel>,
    buf: usize,
    addrlen: usize,
    socklen: Option<u32>,
    writable: bool,
) -> Result<(Seq<u8>, u32), SyscallErr> {
    match sockaddr_ptr_error(buf, addrlen) {
        Some(e) => Err(e),
        None => match socklen_error(socklen) {
            Some(e) => Err(e),
            None => if !writable {
                Err(SyscallErr::EFAULT)
            } else {
                match remote {
                    None => Err(SyscallErr::ENOTCONN),
                    Some(ep) => sockaddr_out(ep, buf, addrlen, socklen),
                }
            },
        },
    }
}

/// Reports the address of a socket's peer; `writable` says whether the probe
/// of the user's buffer succeeded.
pub fn peer_addr(
    remote: Option<Endpoint>,
    buf: usize,
    addrlen: usize,
    socklen: Option<u32>,
    writable: bool,
) -> (r: Result<SockaddrOut, SyscallErr>)
    ensures
        out_model(r) == peer_address(opt_model(remote), buf, addrlen, socklen, writable),
{
    match prevalidate_sockaddr(buf, addrlen) {
        Ok(_) => {},
        Err(e) => return Err(e),
    }
    match prevalidate_socklen_value(socklen) {
        Ok(_) => {},
        Err(e) => return Err(e),
    }
    if !writable {
        return Err(SyscallErr::EFAULT);
    }
    match remote {
        None => Err(SyscallErr::ENOTCONN),
        Some(ep) => ep.fill_sockaddr(buf, addrlen, socklen),
    }
}

/// A socket in a registry, and whether it is still open.
#[derive(Debug, Clone, Copy, PartialEq, Eq, Structural)]
pub struct SocketSlot {
    pub id: u64,
    pub live: bool,
}

/// A raw socket in its registry: whether it is still open, and whether the
/// stack holds a packet for it.
#[derive(Debug, Clone, Copy, PartialEq, Eq, Structural)]
pub struct RawSlot {
    pub slot: SocketSlot,
    pub can_recv: bool,
}

pub open spec fn is_live() -> spec_fn(SocketSlot) -> bool {
    |s: SocketSlot| s.live
}

pub open spec fn raw_is_live() -> spec_fn(RawSlot) -> bool {
    |s: RawSlot| s.slot.live
}

pub open spec fn raw_is_ready() -> spec_fn(RawSlot) -> bool {
    |s: RawSlot| s.slot.live && s.can_recv
}

/// Drops the closed sockets from the registry after a poll, and returns the
/// open ones, in order: each of them refreshes its events and wakes its
/// waiters.
pub fn wake_tcp_waiters(sockets: &mut Vec<SocketSlot>) -> (r: Vec<SocketSlot>)
    ensures
        final(sockets)@ == old(sockets)@.filter(is_live()),
        r@ == old(sockets)@.filter(is_live()),
{
    let ghost before = sockets@;
    let mut live: Vec<SocketSlot> = Vec::new();
    let mut woken: Vec<SocketSlot> = Vec::new();
    let mut i: usize = 0;
    proof {
        reveal(Seq::filter);
    }
    while i < sockets.len()
        invariant
            i <= sockets@.len(),
            sockets@ == before,
            live@ == before.take(i as int).filter(is_live()),
            woken@ == live@,
        decreases sockets@.len() - i,
    {
        proof {
            crate::seqs::lemma_filter_step(before, is_live(), i as int);
        }
        if sockets[i].live {
            live.push(sockets[i]);
            woken.push(sockets[i]);
        }
        i = i + 1;
    }
    assert(before.take(i as int) =~= before);
    *sockets = live;
    woken
}

/// Drops the closed raw sockets from the registry after a poll, and returns
/// those for which the stack holds a packet: one waiter of each is woken.
pub fn wake_raw_waiters(sockets: &mut Vec<RawSlot>) -> (r: Vec<RawSlot>)
    ensures
        final(sockets)@ == old(sockets)@.filter(raw_is_live()),
        r@ == old(sockets)@.filter(raw_is_ready()),
{
    let ghost before = sockets@;
    let mut live: Vec<RawSlot> = Vec::new();
    let mut woken: Vec<RawSlot> = Vec::new();
    let mut i: usize = 0;
    proof {
        reveal(Seq::filter);
    }
    while i < sockets.len()
        invariant
            i <= sockets@.len(),
            sockets@ == before,
            live@ == before.take(i as int).filter(raw_is_live()),
            woken@ == before.take(i as int).filter(raw_is_ready()),
        decreases sockets@.len() - i,
    {
        proof {
            crate::seqs::lemma_filter_step(before, raw_is_live(), i as int);
            crate::seqs::lemma_filter_step(before, raw_is_ready(), i as int);
        }
        if sockets[i].slot.live {
            live.push(sockets[i]);
            if sockets[i].can_recv {
                woken.push(sockets[i]);
            }
        }
        i = i + 1;
    }
    assert(before.take(i as int) =~= before);
    *sockets = live;
    woken
}

/// A socket as a file: what it is ready for.
#[derive(Clone, Copy, Debug, PartialEq, Eq, Structural)]
pub struct SocketFile {
    pub r_ready: bool,
    pub w_ready: bool,
    pub hang_up: bool,
}

impl SocketFile {
    pub fn new(r_ready: bool, w_ready: bool, hang_up: bool) -> (r: SocketFile)
        ensures
            r == (SocketFile { r_ready, w_ready, hang_up }),
    {
        SocketFile { r_ready, w_ready, hang_up }
    }

    /// The events that a poll of the file reports, as bits.
    pub fn poll(&self) -> (r: usize)
        ensures
            r == event::weight(self.r_ready, EPOLLIN) + event::weight(self.w_ready, EPOLLOUT)
                + event::weight(self.hang_up, EPOLLHUP),
    {
        let mut bits: usize = 0;
        if self.r_ready {
            bits += EPOLLIN;
        }
        if self.w_ready {
            bits += EPOLLOUT;
        }
        if self.hang_up {
            bits += EPOLLHUP;
        }
        bits
    }
}

/// Whether an `ioctl` number is one of the interface requests; any other is
/// refused with `ENOTTY`.
pub fn socket_ioctl(cmd: u32) -> (r: Result<(), SyscallErr>)
    ensures
        r == if 0x8900 <= cmd <= 0x89FF {
            Ok::<(), SyscallErr>(())
        } else {
            Err(SyscallErr::ENOTTY)
        },
{
    if cmd >= 0x8900 && cmd <= 0x89FF {
        return Ok(());
    }
    Err(SyscallErr::ENOTTY)
}

} // verus!
