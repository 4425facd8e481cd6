//! The system calls: what they read of their arguments, what they refuse, and
//! what they return.
use vstd::prelude::*;
use crate::bytes;
use crate::error::SyscallErr;
use crate::iface::DeviceModel;
use crate::laws::dumps;
use crate::net_core;
use crate::posix::MsgHdr;
use crate::socket;
use crate::socket::inet::common::address;
use crate::socket::{EndpointModel, SocketKind, PSOCK};
use crate::socket::unix;
use crate::socket::unix::ns;
use crate::socket::unix::UnixName;
use crate::syscall::accept;
use crate::syscall::accept::{AcceptEvent, AcceptKind};
use crate::syscall::bind;
use crate::syscall::bind::BindModel;
use crate::syscall::common::MsgFlags;
use crate::syscall::connect;
use crate::syscall::connect::ConnectStep;
use crate::syscall::getsockopt;
use crate::syscall::getsockopt::SocketFacts;
use crate::syscall::recvfrom;
use crate::syscall::recvmsg;
use crate::syscall::sendmmsg;
use crate::syscall::sendmmsg::BatchStep;
use crate::syscall::sendmsg;
use crate::syscall::sendmsg::{ChunkStep, ChunkedSend, SendShape};
use crate::syscall::sendto;
use crate::syscall::sendto::SenderFacts;
use crate::syscall::setsockopt;
use crate::syscall::setsockopt::OptionChange;
use crate::syscall::socket as socket_call;
use crate::syscall::socketpair;
use crate::syscall::wait;
use crate::syscall::wait::{CallStep, WaitEnd};
use crate::wire;
use crate::wire::{IpAddress, IpEndpoint, IpVersion};

verus! {

/// Which socket a domain and a type stand for: 2 is IPv4, 10 is IPv6, 1 is local;
/// type 1 is a stream, 2 is datagrams, 3 is raw.
pub proof fn law_socket_kinds(domain: u32, psock: PSOCK)
    requires
        domain < 65536,
    ensures
        ({
            let r = socket::spec_alloc_socket(domain, psock);
            let ip = psock == PSOCK::Stream || psock == PSOCK::Datagram || psock == PSOCK::Raw;
            &&& domain == 2 && psock == PSOCK::Stream ==> r is Ok && r->Ok_0 == SocketKind::Tcp(IpVersion::Ipv4)
            &&& domain == 10 && psock == PSOCK::Stream ==> r is Ok && r->Ok_0 == SocketKind::Tcp(IpVersion::Ipv6)
            &&& domain == 2 && psock == PSOCK::Datagram ==> r is Ok && r->Ok_0 == SocketKind::Udp(IpVersion::Ipv4)
            &&& domain == 10 && psock == PSOCK::Datagram ==> r is Ok && r->Ok_0 == SocketKind::Udp(IpVersion::Ipv6)
            &&& domain == 2 && psock == PSOCK::Raw ==> r is Ok && r->Ok_0 == SocketKind::Raw(IpVersion::Ipv4)
            &&& domain == 10 && psock == PSOCK::Raw ==> r is Ok && r->Ok_0 == SocketKind::Raw(IpVersion::Ipv6)
            &&& domain == 1 && psock == PSOCK::Stream ==> r is Ok && r->Ok_0 == SocketKind::UnixStream
            &&& domain == 1 && psock == PSOCK::Datagram ==> r is Ok && r->Ok_0 == SocketKind::UnixDatagram
            &&& domain == 16 && (psock == PSOCK::Raw || psock == PSOCK::Datagram) ==> r is Ok
                && r->Ok_0 == SocketKind::Netlink
            &&& domain == 17 && (psock == PSOCK::Raw || psock == PSOCK::Datagram) ==> r is Ok
                && r->Ok_0 == SocketKind::Packet
            &&& (domain == 2 || domain == 10) && !ip ==> r is Err && r->Err_0 == SyscallErr::EINVAL
            &&& domain > 17 ==> r is Err && r->Err_0 == SyscallErr::EAFNOSUPPORT
        }),
        socket::psock_of(1) == Ok::<PSOCK, SyscallErr>(PSOCK::Stream),
        socket::psock_of(2) == Ok::<PSOCK, SyscallErr>(PSOCK::Datagram),
        socket::psock_of(3) == Ok::<PSOCK, SyscallErr>(PSOCK::Raw),
        socket::psock_of(0) == Err::<PSOCK, SyscallErr>(SyscallErr::EINVAL),
{
}

/// A new socket has the kind that domain and type stand for, and the two flags
/// that stand beside the type, whatever other bits there are.
pub proof fn law_new_socket(domain: u32, bits: u32, n: u32)
    requires
        n == bits & 0xf,
    ensures
        match socket_call::new_socket(domain, bits) {
            Ok(s) => {
                &&& s.nonblock <==> bits & 0x800 == 0x800
                &&& s.cloexec <==> bits & 0x80000 == 0x80000
                &&& socket::psock_of(n) is Ok
                &&& socket::spec_alloc_socket(domain, socket::psock_of(n)->Ok_0) == Ok::<
                    SocketKind,
                    SyscallErr,
                >(s.kind)
            },
            Err(e) => {
                ||| socket::psock_of(n) == Err::<PSOCK, SyscallErr>(e)
                ||| socket::psock_of(n) is Ok && socket::spec_alloc_socket(
                    domain,
                    socket::psock_of(n)->Ok_0,
                ) == Err::<SocketKind, SyscallErr>(e)
            },
        },
{
    crate::posix::law_truncate_keeps_type_and_flags(bits);
    let t = bits & 0x8080F;
    assert(t % 16 == t & 0xf) by (bit_vector);
}

/// A pair is made of local sockets only: two streams for type 1, two datagram
/// sockets for type 2.
pub proof fn law_new_pair(domain: u32, flag: u32)
    requires
        domain < 65536,
        flag == 0 || flag == 0x800,
    ensures
        ({
            let s = socketpair::new_pair(domain, (1 + flag) as u32);
            let d = socketpair::new_pair(domain, (2 + flag) as u32);
            &&& domain == 1 ==> s is Ok && s->Ok_0.kind is Stream && d is Ok
                && d->Ok_0.kind is Datagram
            &&& domain == 1 ==> (s->Ok_0.nonblock <==> flag == 0x800) && !s->Ok_0.cloexec
            &&& domain == 2 || domain == 10 ==> s is Err && s->Err_0
                == SyscallErr::EPROTONOSUPPORT && d is Err && d->Err_0
                == SyscallErr::EPROTONOSUPPORT
        }),
{
    assert(1u32 & 0x8080F == 1 && 2u32 & 0x8080F == 2) by (bit_vector);
    assert(0x801u32 & 0x8080F == 0x801 && 0x802u32 & 0x8080F == 0x802) by (bit_vector);
    assert(0x801u32 & 0x800 == 0x800 && 0x802u32 & 0x800 == 0x800) by (bit_vector);
    assert(1u32 & 0x800 == 0 && 2u32 & 0x800 == 0) by (bit_vector);
    assert(0x801u32 & 0x80000 == 0 && 1u32 & 0x80000 == 0) by (bit_vector);
}

/// The endpoint in a socket address, by its bytes: the family in host order, the
/// port in network order, and the octets of the address, from byte 4 for IPv4
/// and from byte 8 for IPv6. One that is cut short, or of another family, is
/// refused.
pub proof fn law_endpoint_of_address(b: Seq<u8>)
    ensures
        b.len() >= 8 && b[0] == 2 && b[1] == 0 ==> {
            &&& socket::sockaddr_endpoint(b) matches Ok(EndpointModel::Ip(e))
            &&& e.port == 256 * b[2] + b[3]
            &&& e.addr is Ipv4
            &&& e.addr->Ipv4_0.bits == 16777216 * b[4] + 65536 * b[5] + 256 * b[6] + b[7]
        },
        b.len() >= 24 && b[0] == 10 && b[1] == 0 ==> {
            &&& socket::sockaddr_endpoint(b) matches Ok(EndpointModel::Ip(e))
            &&& e.port == 256 * b[2] + b[3]
            &&& e.addr is Ipv6
            &&& e.addr->Ipv6_0.bits == bytes::be_value(b.subrange(8, 24))
        },
        b.len() < 2 || (b.len() < 8 && b[0] == 2 && b[1] == 0) || (b.len() < 24 && b[0] == 10
            && b[1] == 0) ==> socket::sockaddr_endpoint(b) is Err && socket::sockaddr_endpoint(
            b,
        )->Err_0 == SyscallErr::EINVAL,
        b.len() >= 2 && (b[1] != 0 || (b[0] != 0 && b[0] != 1 && b[0] != 2 && b[0] != 10))
            ==> socket::sockaddr_endpoint(b) is Err && socket::sockaddr_endpoint(b)->Err_0
            == SyscallErr::EAFNOSUPPORT,
        b.len() > 3 && b[0] == 1 && b[1] == 0 && b[2] == 0 ==> socket::sockaddr_endpoint(b) == Ok::<
            EndpointModel,
            SyscallErr,
        >(EndpointModel::Unix(UnixName::Abstract(b.skip(3)))),
        b.len() >= 2 && b[0] == 0 && b[1] == 0 ==> socket::sockaddr_endpoint(b) == Ok::<
            EndpointModel,
            SyscallErr,
        >(EndpointModel::Unspecified),
{
    if b.len() >= 8 {
        bytes::lemma_be32_of_octets(b[4], b[5], b[6], b[7]);
    }
    if b.len() >= 24 {
        let s = b.subrange(8, 24);
        bytes::lemma_be_value_bound(s);
        wire::lemma_pow256_16(16);
    }
    if b.len() > 3 {
        assert(b.skip(2).skip(1) =~= b.skip(3));
    }
}

/// The address that is written for an endpoint, by its bytes: 16 of them for IPv4
/// and 24 for IPv6, with the family in host order, the port in network order,
/// and the octets of the address.
pub proof fn law_address_of_endpoint(ep: IpEndpoint)
    ensures
        ({
            let b = address::ip_sockaddr(ep);
            &&& b[1] == 0
            &&& 256 * b[2] + b[3] == ep.port
            &&& ep.addr matches IpAddress::Ipv4(a) ==> {
                &&& b.len() == 16 && b[0] == 2
                &&& 16777216 * b[4] + 65536 * b[5] + 256 * b[6] + b[7] == a.bits
                &&& forall|i: int| 8 <= i < 16 ==> #[trigger] b[i] == 0
            }
            &&& ep.addr matches IpAddress::Ipv6(a) ==> {
                &&& b.len() == 24 && b[0] == 10
                &&& b[4] == 0 && b[5] == 0 && b[6] == 0 && b[7] == 0
                &&& bytes::be_value(b.subrange(8, 24)) == a.bits
            }
        }),
{
    let b = address::ip_sockaddr(ep);
    bytes::lemma_be_roundtrip(ep.port, 0);
    let p = bytes::be16(ep.port);
    assert(b[2] == p[0] && b[3] == p[1]);
    match ep.addr {
        IpAddress::Ipv4(a) => {
            wire::lemma_v4_octets(a);
            let o = a.octets();
            assert(b[4] == o[0] && b[5] == o[1] && b[6] == o[2] && b[7] == o[3]);
        },
        IpAddress::Ipv6(a) => {
            wire::lemma_v6_octets(a);
            bytes::lemma_be_value_bound(a.octets());
            wire::lemma_pow256_16(16);
            assert(b.subrange(8, 24) =~= a.octets());
        },
    }
}

/// Binding to an IPv4 address asks for the address and port in the bytes of the
/// caller: all zeros and the loopback network are always there, the ports below
/// 1024 are for the superuser and for whoever has the capability, and an
/// address that is neither of these nor the machine's own is not available.
pub proof fn law_bind_request(
    devs: Seq<DeviceModel>,
    b: Seq<u8>,
    euid: u32,
    capabilities: u64,
    local: Option<EndpointModel>,
)
    requires
        b.len() >= 8,
        b[0] == 2,
        b[1] == 0,
    ensures
        ({
            let r = bind::bind_step(devs, Ok(b), euid, capabilities, local);
            let port = 256 * b[2] + b[3];
            let free = port >= 1024 || euid == 0 || (capabilities / 1024) % 2 == 1;
            let bits = 16777216 * b[4] + 65536 * b[5] + 256 * b[6] + b[7];
            &&& (b[4] == 0 || b[4] == 127) && free ==> {
                &&& r matches Ok(BindModel::Ip(e))
                &&& e.port == port
                &&& e.addr is Ipv4 && e.addr->Ipv4_0.bits == bits
            }
            &&& (b[4] == 0 || b[4] == 127) && !free ==> r is Err && r->Err_0 == SyscallErr::EACCES
            &&& b[4] != 0 && b[4] != 127 && devs.len() == 0 && !(b[4] == 10 && b[5] == 0 && b[6]
                == 2 && b[7] == 15) ==> r is Err && r->Err_0 == SyscallErr::EADDRNOTAVAIL
        }),
{
    law_endpoint_of_address(b);
    let bits = 16777216 * b[4] + 65536 * b[5] + 256 * b[6] + b[7];
    bytes::lemma_be32_of_octets(b[4], b[5], b[6], b[7]);
    assert(bits / 16777216 == b[4]);
    if devs.len() == 0 {
        crate::seqs::lemma_find_none(devs, net_core::named("eth0"@));
        crate::seqs::lemma_find_none(devs, net_core::named("lo"@));
        bytes::lemma_be32_of_octets(10, 0, 2, 15);
    }
}

/// The file of a local socket lies in the directory that its path names: put
/// together again, directory and name are the path, and the name has no slash.
pub proof fn law_socket_path(path: Seq<char>, i: int)
    requires
        0 <= i < path.len(),
        path[i] == '/',
        forall|j: int| i < j < path.len() ==> #[trigger] path[j] != '/',
    ensures
        ({
            let (parent, name) = bind::split_path(path);
            &&& i > 0 ==> parent == path.take(i)
            &&& i == 0 ==> parent == "/"@
            &&& name == path.skip(i + 1)
            &&& ns::joined_path(parent, name) == path || parent == "/"@
            &&& i == 0 ==> ns::joined_path(parent, name) == path
        }),
{
    lemma_last_slash(path, i);
    reveal_strlit("/");
    let (parent, name) = bind::split_path(path);
    if i == 0 {
        assert("/"@ + name =~= path);
    } else {
        assert(parent + "/"@ + name =~= path);
    }
}

proof fn lemma_last_slash(path: Seq<char>, i: int)
    requires
        0 <= i < path.len(),
        path[i] == '/',
        forall|j: int| i < j < path.len() ==> #[trigger] path[j] != '/',
    ensures
        bind::last_slash(path) == Some(i),
    decreases path.len(),
{
    if i < path.len() - 1 {
        assert(path[path.len() - 1] != '/');
        lemma_last_slash(path.drop_last(), i);
    }
}

/// The name of a socket is written only where the caller gave room for it: with
/// null pointers nothing is, a socket without an address has none to write, and
/// else the address is that of the endpoint.
pub proof fn law_own_name(ep: IpEndpoint, buf: usize, addrlen: usize, room: u32)
    ensures
        socket::own_address(Some(EndpointModel::Ip(ep)), 0, addrlen, Some(room)) is Err,
        socket::own_address(Some(EndpointModel::Ip(ep)), buf, 0, Some(room)) is Err,
        buf != 0 && addrlen != 0 && addrlen % 4 == 0 ==> {
            let r = socket::own_address(Some(EndpointModel::Ip(ep)), buf, addrlen, Some(room));
            let p = socket::peer_address(
                Some(EndpointModel::Ip(ep)),
                buf,
                addrlen,
                Some(room),
                true,
            );
            let need = if ep.addr is Ipv4 {
                16int
            } else {
                24
            };
            &&& need <= room < 0x8000_0000 ==> r is Ok && r->Ok_0.1 == need && r->Ok_0.0.len()
                == need && 256 * r->Ok_0.0[2] + r->Ok_0.0[3] == ep.port
            &&& room < need || room >= 0x8000_0000 ==> r is Err && r->Err_0 == SyscallErr::EINVAL
            &&& p == r
        },
        buf != 0 && addrlen != 0 && addrlen % 4 == 0 && 2 <= room < 0x8000_0000 ==> {
            &&& socket::own_address(None, buf, addrlen, Some(room)) is Err
            &&& socket::own_address(None, buf, addrlen, Some(room))->Err_0 == SyscallErr::ENOTCONN
            &&& socket::peer_address(None, buf, addrlen, Some(room), true) is Err
            &&& socket::peer_address(None, buf, addrlen, Some(room), true)->Err_0
                == SyscallErr::ENOTCONN
        },
{
    law_address_of_endpoint(ep);
}

/// A path that does not begin at the root is looked for below the working
/// directory; one that does is taken as it is.
pub proof fn law_relative_path(cwd: Seq<char>, path: Seq<char>)
    requires
        path.len() > 0,
    ensures
        path[0] == '/' ==> connect::absolute_path(cwd, path) == path,
        path[0] != '/' && cwd.len() > 1 ==> connect::absolute_path(cwd, path) == cwd.push('/')
            + path,
        path[0] != '/' && cwd == "/"@ ==> connect::absolute_path(cwd, path) == cwd + path,
{
    reveal_strlit("/");
    if path[0] != '/' && cwd.len() > 1 {
        assert(cwd + "/"@ + path =~= cwd.push('/') + path);
    }
}

/// A call that would have to wait does so unless it must not; what else the socket
/// answers is returned, an error as its negated number.
pub proof fn law_waiting(n: isize, e: SyscallErr, nonblock: bool)
    ensures
        wait::tried(Ok(n), nonblock) == CallStep::Return(n),
        wait::tried(Err(SyscallErr::EAGAIN), false) == CallStep::Wait,
        wait::tried(Err(SyscallErr::EAGAIN), true) == CallStep::Return((-11) as isize),
        e != SyscallErr::EAGAIN ==> wait::tried(Err(e), nonblock) == CallStep::Return(
            (-e.spec_errno()) as isize,
        ),
        wait::wait_ended(WaitEnd::Interrupted) == -85,
        wait::wait_ended(WaitEnd::TimedOut) == -11,
{
}

/// A connection that takes time is waited for, and a caller that must not wait is
/// told that it is under way.
pub proof fn law_connecting(n: isize, e: SyscallErr, nonblock: bool)
    ensures
        connect::connect_begun(Ok(n), true, nonblock) == ConnectStep::Done(CallStep::Return(n)),
        connect::connect_begun(Err(SyscallErr::EAGAIN), true, false) == ConnectStep::Done(
            CallStep::Wait,
        ),
        connect::connect_begun(Err(SyscallErr::EAGAIN), true, true) == ConnectStep::Done(
            CallStep::Return((-115) as isize),
        ),
        connect::connect_begun(Err(SyscallErr::EAGAIN), false, nonblock) == ConnectStep::Yield,
        e != SyscallErr::EAGAIN ==> connect::connect_begun(Err(e), true, nonblock)
            == ConnectStep::Done(CallStep::Return((-e.spec_errno()) as isize)),
{
}

/// The numbers of the errors are those that user space knows.
pub proof fn law_error_numbers()
    ensures
        SyscallErr::ESRCH.spec_ret() == -3,
        SyscallErr::EIO.spec_ret() == -5,
        SyscallErr::EAGAIN.spec_ret() == -11,
        SyscallErr::ENOMEM.spec_ret() == -12,
        SyscallErr::EACCES.spec_ret() == -13,
        SyscallErr::EFAULT.spec_ret() == -14,
        SyscallErr::EBUSY.spec_ret() == -16,
        SyscallErr::EEXIST.spec_ret() == -17,
        SyscallErr::ENODEV.spec_ret() == -19,
        SyscallErr::ENOTDIR.spec_ret() == -20,
        SyscallErr::EINVAL.spec_ret() == -22,
        SyscallErr::ENFILE.spec_ret() == -23,
        SyscallErr::EMFILE.spec_ret() == -24,
        SyscallErr::ENOSPC.spec_ret() == -28,
        SyscallErr::EPIPE.spec_ret() == -32,
        SyscallErr::EDESTADDRREQ.spec_ret() == -89,
        SyscallErr::EMSGSIZE.spec_ret() == -90,
        SyscallErr::ENOPROTOOPT.spec_ret() == -92,
        SyscallErr::EPROTONOSUPPORT.spec_ret() == -93,
        SyscallErr::ESOCKTNOSUPPORT.spec_ret() == -94,
        SyscallErr::EOPNOTSUPP.spec_ret() == -95,
        SyscallErr::EAFNOSUPPORT.spec_ret() == -97,
        SyscallErr::EADDRINUSE.spec_ret() == -98,
        SyscallErr::EADDRNOTAVAIL.spec_ret() == -99,
        SyscallErr::ENETDOWN.spec_ret() == -100,
        SyscallErr::ENETUNREACH.spec_ret() == -101,
        SyscallErr::ECONNABORTED.spec_ret() == -103,
        SyscallErr::ECONNRESET.spec_ret() == -104,
        SyscallErr::ENOBUFS.spec_ret() == -105,
        SyscallErr::EISCONN.spec_ret() == -106,
        SyscallErr::ENOTCONN.spec_ret() == -107,
        SyscallErr::ECONNREFUSED.spec_ret() == -111,
        SyscallErr::EINPROGRESS.spec_ret() == -115,
{
}

proof fn lemma_flags(bits: u32)
    ensures
        (bits & 0xffff) & 1 == bits & 1,
        (bits & 0xffff) & 2 == bits & 2,
        (bits & 0xffff) & 0x40 == bits & 0x40,
        (bits & 0xffff) & 0x2000 == bits & 0x2000,
{
    assert((bits & 0xffff) & 1 == bits & 1) by (bit_vector);
    assert((bits & 0xffff) & 2 == bits & 2) by (bit_vector);
    assert((bits & 0xffff) & 0x40 == bits & 0x40) by (bit_vector);
    assert((bits & 0xffff) & 0x2000 == bits & 0x2000) by (bit_vector);
}

/// A send of a datagram goes to the address in the caller's bytes; without one the
/// socket must have a peer. A socket without a port gets one first. Nothing
/// is sent out of band, and a flag keeps the call from waiting.
pub proof fn law_send_request(
    f: SenderFacts,
    len: usize,
    flags: u32,
    dest_addr: usize,
    b: Seq<u8>,
)
    requires
        f.socket_type == PSOCK::Datagram,
        b.len() == 16,
        b[0] == 2,
        b[1] == 0,
        len <= 65507,
    ensures
        ({
            let (auto, r) = sendto::sendto_step(f, len, flags, dest_addr, 16, Some(b), true);
            let odd = flags & 1 == 1 || flags & 0x2000 == 0x2000;
            &&& odd ==> !auto && r is Err && r->Err_0 == SyscallErr::EOPNOTSUPP
            &&& !odd ==> (auto <==> f.local_port is None || f.local_port == Some(0u16))
            &&& !odd && dest_addr == 0 && !f.connected ==> r is Err && r->Err_0
                == SyscallErr::EDESTADDRREQ
            &&& !odd && dest_addr == 0 && f.connected ==> r is Ok && r->Ok_0.dest is None
            &&& !odd && dest_addr != 0 ==> {
                &&& r is Ok
                &&& r->Ok_0.dest matches Some(EndpointModel::Ip(e))
                &&& e.port == 256 * b[2] + b[3]
                &&& e.addr is Ipv4
                &&& e.addr->Ipv4_0.bits == 16777216 * b[4] + 65536 * b[5] + 256 * b[6] + b[7]
            }
            &&& r matches Ok(p) ==> p.len == len && (p.nonblock <==> f.nonblock || flags & 0x40
                == 0x40)
        }),
{
    law_endpoint_of_address(b);
    lemma_flags(flags);
}

/// A receive is made as the socket and the flags ask: a look leaves the data, a
/// message has its sender, a stream has none; nothing is received out of band.
pub proof fn law_receive_request(
    t: PSOCK,
    nonblock: bool,
    len: u32,
    flags: u32,
)
    ensures
        ({
            let r = recvfrom::recvfrom_plan(t, nonblock, len, flags, 0, None);
            let look = flags & 2 == 2;
            let now = nonblock || flags & 0x40 == 0x40;
            &&& flags & 1 == 1 ==> r is Err && r->Err_0 == SyscallErr::EINVAL
            &&& flags & 1 != 1 && flags & 0x2000 == 0x2000 ==> r is Err && r->Err_0
                == SyscallErr::EAGAIN
            &&& flags & 1 != 1 && flags & 0x2000 != 0x2000 ==> {
                &&& t == PSOCK::Stream || t == PSOCK::Datagram || t == PSOCK::Raw <==> r is Ok
                &&& r is Err ==> r->Err_0 == SyscallErr::EOPNOTSUPP
                &&& r matches Ok(p) ==> {
                    &&& p.nonblock == now
                    &&& p.via is Peek <==> look
                    &&& p.via is Message <==> !look && t != PSOCK::Stream
                    &&& p.via is User <==> !look && t == PSOCK::Stream && now
                    &&& len <= 67108864 ==> p.len == len
                }
            }
        }),
{
    lemma_flags(flags);
}

/// A message in one piece is sent whole or refused as too long; a stream takes it
/// in pieces.
pub proof fn law_message_shape(t: PSOCK, total: usize, chunk: usize)
    ensures
        ({
            let r = sendmsg::shape_of(t, total, chunk);
            &&& total == 0 ==> r is Ok && r->Ok_0 == SendShape::Empty
            &&& total > 0 && t == PSOCK::Stream ==> r is Ok && r->Ok_0 is Chunked && r->Ok_0->Chunked_0
                <= chunk && r->Ok_0->Chunked_0 <= total
            &&& total > 0 && t != PSOCK::Stream && total <= chunk ==> r is Ok && r->Ok_0
                == SendShape::Single(total)
            &&& total > chunk && t != PSOCK::Stream ==> r is Err && r->Err_0
                == SyscallErr::EMSGSIZE
        }),
{
}

/// A message that was longer than the room for it is cut, and the caller is told
/// its whole length and that it was cut.
pub proof fn law_received_message(
    cap: usize,
    n: isize,
    msg: MsgHdr,
    source: Option<EndpointModel>,
)
    requires
        n >= 0,
    ensures
        ({
            let plan = recvmsg::RecvmsgPlan {
                cap,
                flags: MsgFlags { bits: 0 },
                nonblock: false,
                peek: false,
                user: false,
            };
            let r = recvmsg::received(plan, msg, n, source, 0, None);
            &&& r matches Ok(m)
            &&& m.ret == n
            &&& m.copy <= cap && m.copy <= n && (m.copy == cap || m.copy == n)
            &&& m.flags == if n > cap {
                0x20int
            } else {
                0
            }
            &&& m.controllen == 0
        }),
{
}

/// A batch goes through its messages one after the other, 64 bytes apart, writes
/// the length of each 56 bytes into it, and returns how many it sent; an error
/// counts only where none was.
pub proof fn law_batch(msgvec: usize, vlen: u32, sent: u32, result: isize)
    requires
        vlen <= 1024,
        msgvec <= 0x7fff_0000,
        sent < vlen,
    ensures
        ({
            let at = (msgvec + 64 * sent) as usize;
            &&& sendmmsg::batch_next(msgvec, vlen, sent) == BatchStep::Send(at)
            &&& sendmmsg::batch_next(msgvec, vlen, vlen) == BatchStep::Return(vlen as isize)
            &&& result >= 0 ==> sendmmsg::batch_sent(at, sent, result) == BatchStep::Write(
                (at + 56) as usize,
                result as u32,
            )
            &&& result < 0 && sent > 0 ==> sendmmsg::batch_sent(at, sent, result)
                == BatchStep::Return(sent as isize)
            &&& result < 0 && sent == 0 ==> sendmmsg::batch_sent(at, sent, result)
                == BatchStep::Return(result)
            &&& sendmmsg::batch_start(msgvec, 0) == BatchStep::Return(0)
            &&& sendmmsg::batch_start(msgvec, 1025) == BatchStep::Return((-22) as isize)
        }),
{
}

/// What the options of a socket do: the sizes of its buffers, small segments sent
/// at once where the option is on, probes, and reuse of its address. Options
/// that nobody knows are refused, and so are ones without a value.
pub proof fn law_options_set(v: u32, ptr: usize, len: u32)
    requires
        ptr != 0,
        len >= 4,
    ensures
        setsockopt::option_change(1, 7, ptr, len, Some(v), true) == Ok::<OptionChange, SyscallErr>(
            OptionChange::SendBuf(v as usize),
        ),
        setsockopt::option_change(1, 8, ptr, len, Some(v), true) == Ok::<OptionChange, SyscallErr>(
            OptionChange::RecvBuf(v as usize),
        ),
        setsockopt::option_change(6, 1, ptr, len, Some(v), true) == Ok::<OptionChange, SyscallErr>(
            OptionChange::Nagle(v == 0),
        ),
        setsockopt::option_change(1, 9, ptr, len, Some(1), true) == Ok::<OptionChange, SyscallErr>(
            OptionChange::KeepAlive(true),
        ),
        setsockopt::option_change(1, 9, ptr, len, Some(0), true) == Ok::<OptionChange, SyscallErr>(
            OptionChange::KeepAlive(false),
        ),
        setsockopt::option_change(1, 2, ptr, len, Some(v), true) == Ok::<OptionChange, SyscallErr>(
            OptionChange::ReuseAddr(v != 0),
        ),
        setsockopt::option_change(1, 99, ptr, len, Some(v), true) == Err::<
            OptionChange,
            SyscallErr,
        >(SyscallErr::ENOPROTOOPT),
        setsockopt::option_change(1, 7, 0, len, Some(v), true) == Err::<OptionChange, SyscallErr>(
            SyscallErr::EFAULT,
        ),
        setsockopt::option_change(1, 7, ptr, 0, Some(v), true) == Err::<OptionChange, SyscallErr>(
            SyscallErr::EINVAL,
        ),
{
}

/// What the options of a socket tell: the sizes of its buffers, each its own, the
/// error of its handshake, reuse, and who is at the other end.
pub proof fn law_options_told(f: SocketFacts, ptr: usize, lenptr: usize)
    requires
        ptr != 0,
        lenptr != 0,
        f.send_buf <= u32::MAX,
        f.recv_buf <= u32::MAX,
    ensures
        ({
            let snd = getsockopt::option_value(f, 1, 7, ptr, lenptr, Some(4));
            let rcv = getsockopt::option_value(f, 1, 8, ptr, lenptr, Some(4));
            let err = getsockopt::option_value(f, 1, 4, ptr, lenptr, Some(4));
            let who = getsockopt::option_value(f, 1, 17, ptr, lenptr, Some(12));
            &&& snd is Ok && snd->Ok_0.len() == 4 && dumps::long_at(snd->Ok_0, 0) == f.send_buf
            &&& rcv is Ok && rcv->Ok_0.len() == 4 && dumps::long_at(rcv->Ok_0, 0) == f.recv_buf
            &&& err is Ok && err->Ok_0.len() == 4
            &&& f.handshake is Ok ==> dumps::long_at(err->Ok_0, 0) == 0
            &&& f.handshake == Err::<isize, SyscallErr>(SyscallErr::ECONNREFUSED)
                ==> dumps::long_at(err->Ok_0, 0) == 111
            &&& f.handshake == Err::<isize, SyscallErr>(SyscallErr::EAGAIN) ==> dumps::long_at(
                err->Ok_0,
                0,
            ) == 0
            &&& f.peer_creds matches Ok(c) ==> who is Ok && who->Ok_0.len() == 12
                && dumps::long_at(who->Ok_0, 0) == c.0 && dumps::long_at(who->Ok_0, 4) == c.1
                && dumps::long_at(who->Ok_0, 8) == c.2
            &&& f.peer_creds is Err ==> who is Err && who->Err_0 == f.peer_creds->Err_0
            &&& getsockopt::option_value(f, 1, 7, ptr, lenptr, Some(3)) == Err::<
                Seq<u8>,
                SyscallErr,
            >(SyscallErr::EINVAL)
            &&& getsockopt::option_value(f, 1, 7, 0, lenptr, Some(4)) == Err::<Seq<u8>, SyscallErr>(
                SyscallErr::EFAULT,
            )
        }),
{
    bytes::lemma_le_roundtrip(0, f.send_buf as u32);
    bytes::lemma_le_roundtrip(0, f.recv_buf as u32);
    bytes::lemma_le_roundtrip(0, getsockopt::so_error(f.handshake));
    if f.peer_creds is Ok {
        let c = f.peer_creds->Ok_0;
        bytes::lemma_le_roundtrip(0, c.0);
        bytes::lemma_le_roundtrip(0, c.1);
        bytes::lemma_le_roundtrip(0, c.2);
        let b = getsockopt::creds_bytes(c);
        let x = bytes::le32(c.0);
        let y = bytes::le32(c.1);
        let z = bytes::le32(c.2);
        assert(b[0] == x[0] && b[1] == x[1] && b[2] == x[2] && b[3] == x[3]);
        assert(b[4] == y[0] && b[5] == y[1] && b[6] == y[2] && b[7] == y[3]);
        assert(b[8] == z[0] && b[9] == z[1] && b[10] == z[2] && b[11] == z[3]);
    }
}

/// An accepted connection has a descriptor, or there is none left; the address of
/// the peer is written where the caller asked for it.
pub proof fn law_accept_returns(fd: u32, ep: IpEndpoint, addr: usize, lenptr: usize, room: u32)
    requires
        fd <= 0x7fff_ffff,
        24 <= room < 0x8000_0000,
        lenptr != 0,
        lenptr % 4 == 0,
    ensures
        accept::accept_end(AcceptKind::Tcp, Some(fd), Ok(())) == Ok::<isize, SyscallErr>(
            fd as isize,
        ),
        accept::accept_end(AcceptKind::Tcp, None, Ok(())) == Err::<isize, SyscallErr>(
            SyscallErr::EMFILE,
        ),
        accept::accept_end(AcceptKind::UnixStream, Some(fd), Ok(())) == Ok::<isize, SyscallErr>(
            fd as isize,
        ),
        ({
            let r = accept::peer_written(
                AcceptKind::Tcp,
                Some(EndpointModel::Ip(ep)),
                addr,
                lenptr,
                Some(room),
            );
            &&& addr == 0 ==> r == Ok::<Option<(Seq<u8>, u32)>, SyscallErr>(None)
            &&& addr != 0 ==> {
                &&& r matches Ok(Some((b, len)))
                &&& len == b.len()
                &&& 256 * b[2] + b[3] == ep.port
            }
        }),
{
    law_address_of_endpoint(ep);
}

/// A message of a datagram socket goes to the address in the bytes that its header
/// points at, or to the peer where it points at none; without either it is
/// refused. All of its data is sent, and a socket without a port gets one
/// first.
pub proof fn law_message_request(
    f: SenderFacts,
    flags: u32,
    msg: MsgHdr,
    total: usize,
    b: Seq<u8>,
    e: SyscallErr,
)
    requires
        f.socket_type == PSOCK::Datagram,
        msg.msg_namelen == 16,
        b.len() == 16,
        b[0] == 2,
        b[1] == 0,
        0 < total <= 65535,
    ensures
        ({
            let (auto, r) = sendmsg::sendmsg_step(f, flags, Some(msg), Ok(total), Some(b), 65535);
            let odd = flags & 1 == 1 || flags & 0x2000 == 0x2000;
            &&& odd ==> !auto && r is Err && r->Err_0 == SyscallErr::EOPNOTSUPP
            &&& !odd ==> (auto <==> f.local_port is None || f.local_port == Some(0u16))
            &&& !odd && msg.msg_name == 0 && !f.connected ==> r is Err && r->Err_0
                == SyscallErr::EDESTADDRREQ
            &&& !odd && msg.msg_name == 0 && f.connected ==> r is Ok && r->Ok_0.dest is None
            &&& !odd && msg.msg_name != 0 ==> {
                &&& r is Ok
                &&& r->Ok_0.dest matches Some(EndpointModel::Ip(to))
                &&& to.port == 256 * b[2] + b[3]
                &&& to.addr is Ipv4
                &&& to.addr->Ipv4_0.bits == 16777216 * b[4] + 65536 * b[5] + 256 * b[6] + b[7]
            }
            &&& r matches Ok(p) ==> {
                &&& p.shape == SendShape::Single(total)
                &&& p.reserve == total
                &&& p.nonblock <==> f.nonblock || flags & 0x40 == 0x40
            }
            &&& !odd ==> sendmsg::sendmsg_step(f, flags, None, Ok(total), Some(b), 65535).1 is Err
                && sendmsg::sendmsg_step(f, flags, None, Ok(total), Some(b), 65535).1->Err_0
                == SyscallErr::EFAULT
            &&& !odd ==> sendmsg::sendmsg_step(f, flags, Some(msg), Err(e), Some(b), 65535).1 is Err
                && sendmsg::sendmsg_step(f, flags, Some(msg), Err(e), Some(b), 65535).1->Err_0 == e
        }),
{
    law_endpoint_of_address(b);
    lemma_flags(flags);
}

/// A `recvmsg` takes at most what its header has room for, in one piece at most,
/// looks without taking where a flag asks, and does not wait where the
/// socket or a flag says so.
pub proof fn law_message_is_asked_for(
    t: PSOCK,
    nonblock: bool,
    flags: u32,
    msg: MsgHdr,
    total: usize,
    chunk: usize,
    e: SyscallErr,
)
    ensures
        ({
            let r = recvmsg::recvmsg_plan(t, nonblock, flags, Some(msg), Ok(total), chunk);
            let no_header = recvmsg::recvmsg_plan(t, nonblock, flags, None, Ok(total), chunk);
            let no_room = recvmsg::recvmsg_plan(t, nonblock, flags, Some(msg), Err(e), chunk);
            let look = flags & 2 == 2;
            let now = nonblock || flags & 0x40 == 0x40;
            &&& flags & 1 == 1 ==> r is Err && r->Err_0 == SyscallErr::EINVAL
            &&& flags & 1 != 1 && flags & 0x2000 == 0x2000 ==> r is Err && r->Err_0
                == SyscallErr::EAGAIN
            &&& flags & 1 != 1 && flags & 0x2000 != 0x2000 ==> {
                &&& no_header is Err && no_header->Err_0 == SyscallErr::EFAULT
                &&& no_room is Err && no_room->Err_0 == e
                &&& r matches Ok(p)
                &&& p.cap <= total && p.cap <= chunk && (p.cap == total || p.cap == chunk)
                &&& p.nonblock == now
                &&& p.peek == look
                &&& p.user <==> now && !look && t == PSOCK::Stream
            }
        }),
{
    lemma_flags(flags);
}

/// A `connect` goes to the port and the address in the caller's bytes; a path is
/// taken from the working directory. Bytes that are too many or cannot be
/// read are refused.
pub proof fn law_connect_request(
    addr: usize,
    addrlen: u32,
    b: Seq<u8>,
    cwd: Seq<char>,
    path: Seq<char>,
)
    requires
        addr != 0,
        0 < addrlen <= 512,
    ensures
        b.len() >= 8 && b[0] == 2 && b[1] == 0 ==> {
            &&& connect::connect_endpoint(addr, addrlen, Some(b), cwd) matches Ok(
                EndpointModel::Ip(e),
            )
            &&& e.port == 256 * b[2] + b[3]
            &&& e.addr is Ipv4
            &&& e.addr->Ipv4_0.bits == 16777216 * b[4] + 65536 * b[5] + 256 * b[6] + b[7]
        },
        socket::sockaddr_endpoint(b) == Ok::<EndpointModel, SyscallErr>(
            EndpointModel::Unix(UnixName::Path(path)),
        ) ==> connect::connect_endpoint(addr, addrlen, Some(b), cwd) == Ok::<
            EndpointModel,
            SyscallErr,
        >(EndpointModel::Unix(UnixName::Path(connect::absolute_path(cwd, path)))),
        connect::connect_endpoint(addr, addrlen, None, cwd) == Err::<EndpointModel, SyscallErr>(
            SyscallErr::EFAULT,
        ),
        connect::connect_endpoint(0, addrlen, Some(b), cwd) == Err::<EndpointModel, SyscallErr>(
            SyscallErr::EFAULT,
        ),
        connect::connect_endpoint(addr, 513, Some(b), cwd) == Err::<EndpointModel, SyscallErr>(
            SyscallErr::EINVAL,
        ),
{
    law_endpoint_of_address(b);
}

/// An `accept` returns the new descriptor, waits for a connection unless it must
/// not, goes on waiting where that takes long, and ends on a signal.
pub proof fn law_accepting(fd: isize, e: SyscallErr, nonblock: bool)
    ensures
        accept::accept_step(nonblock, AcceptEvent::Tried(Ok(fd))) == CallStep::Return(fd),
        accept::accept_step(false, AcceptEvent::Tried(Err(SyscallErr::EAGAIN))) == CallStep::Wait,
        accept::accept_step(true, AcceptEvent::Tried(Err(SyscallErr::EAGAIN))) == CallStep::Return(
            (-11) as isize,
        ),
        e != SyscallErr::EAGAIN ==> accept::accept_step(nonblock, AcceptEvent::Tried(Err(e)))
            == CallStep::Return((-e.spec_errno()) as isize),
        accept::accept_step(nonblock, AcceptEvent::TimedOut) == CallStep::Wait,
        accept::accept_step(nonblock, AcceptEvent::Interrupted) == CallStep::Return(
            (-85) as isize,
        ),
{
}

/// To listen on an unspecified address, one in `0.0.0.0/8` or `::`, is to listen on
/// every address, at the port that is asked for or at the free one; any other
/// address and port are kept. What listens on every address is reached over
/// the loopback address.
pub proof fn law_listening(ep: IpEndpoint, free: u16)
    ensures
        ({
            let l = address::spec_listen(ep, free);
            let to = address::spec_to_endpoint(l);
            let all = match ep.addr {
                IpAddress::Ipv4(a) => a.bits < 16777216,
                IpAddress::Ipv6(a) => a.bits == 0,
            };
            &&& ep.port != 0 ==> l.port == ep.port
            &&& ep.port == 0 ==> l.port == if all {
                free
            } else {
                0
            }
            &&& l.addr is None <==> all
            &&& !all ==> l.addr == Some(ep.addr) && to.addr == ep.addr
            &&& all ==> to.addr == IpAddress::Ipv4(wire::Ipv4Address { bits: 0x7f00_0001 })
            &&& to.port == l.port
        }),
{
}

/// A structure that was made of an endpoint describes that endpoint: its port and
/// its address.
pub proof fn law_address_structure(
    a: address::SocketAddrv4,
    b: address::SocketAddrv6,
    ep: IpEndpoint,
)
    ensures
        ep.addr matches IpAddress::Ipv4(v) ==> (a.sin_port@ == bytes::be16(ep.port) && a.sin_addr@
            == ep.addr.octets() ==> a.spec_endpoint() == ep),
        ep.addr is Ipv6 ==> (b.sin6_port@ == bytes::be16(ep.port) && b.sin6_addr@
            == ep.addr.octets() ==> b.spec_endpoint() == ep),
        a.spec_endpoint().port == 256 * a.sin_port@[0] + a.sin_port@[1],
        b.spec_endpoint().port == 256 * b.sin6_port@[0] + b.sin6_port@[1],
        a.spec_endpoint().addr matches IpAddress::Ipv4(v) && v.bits == 16777216 * a.sin_addr@[0]
            + 65536 * a.sin_addr@[1] + 256 * a.sin_addr@[2] + a.sin_addr@[3],
{
    bytes::lemma_be_roundtrip(ep.port, 0);
    if let IpAddress::Ipv4(v) = ep.addr {
        bytes::lemma_be_roundtrip(0, v.bits);
    }
    if let IpAddress::Ipv6(v) = ep.addr {
        wire::lemma_v6_octets(v);
    }
    bytes::lemma_be32_of_octets(a.sin_addr@[0], a.sin_addr@[1], a.sin_addr@[2], a.sin_addr@[3]);
}

/// An address is written where the caller gave a place for it and for its length:
/// an IP address whole or not at all, a name as far as it fits, with the length
/// that it has. Two bytes are the least.
pub proof fn law_written_address(
    ep: IpEndpoint,
    name: UnixName,
    buf: usize,
    lenptr: usize,
    room: u32,
)
    requires
        buf != 0,
        lenptr != 0,
        lenptr % 4 == 0,
    ensures
        ({
            let ip = EndpointModel::Ip(ep);
            let local = EndpointModel::Unix(name);
            let none = EndpointModel::Unspecified;
            let fault = Err::<(Seq<u8>, u32), SyscallErr>(SyscallErr::EFAULT);
            let short = Err::<(Seq<u8>, u32), SyscallErr>(SyscallErr::EINVAL);
            &&& socket::sockaddr_out(ip, 0, lenptr, Some(room)) == fault
            &&& socket::sockaddr_out(ip, buf, 0, Some(room)) == fault
            &&& socket::sockaddr_out(ip, buf, lenptr, None) == fault
            &&& socket::sockaddr_out(local, 0, lenptr, Some(room)) == fault
            &&& socket::sockaddr_out(local, buf, 0, Some(room)) == fault
            &&& socket::sockaddr_out(local, buf, lenptr, None) == fault
            &&& socket::sockaddr_out(none, 0, lenptr, Some(room)) == fault
            &&& socket::sockaddr_out(none, buf, 0, Some(room)) == fault
            &&& socket::sockaddr_out(none, buf, lenptr, None) == fault
            &&& room < 2 ==> socket::sockaddr_out(ip, buf, lenptr, Some(room)) == short
            &&& room < 2 ==> socket::sockaddr_out(local, buf, lenptr, Some(room)) == short
            &&& room < 2 ==> socket::sockaddr_out(none, buf, lenptr, Some(room)) == short
            &&& 24 <= room < 0x8000_0000 ==> socket::sockaddr_out(ip, buf, lenptr, Some(room)) == Ok::<
                (Seq<u8>, u32),
                SyscallErr,
            >((address::ip_sockaddr(ep), address::ip_sockaddr(ep).len() as u32))
            &&& room >= 2 ==> socket::sockaddr_out(none, buf, lenptr, Some(room)) == Ok::<
                (Seq<u8>, u32),
                SyscallErr,
            >((seq![0u8, 0], 2))
            &&& 2 <= room < 0x8000_0000 ==> {
                &&& socket::sockaddr_out(local, buf, lenptr, Some(room)) matches Ok((b, len))
                &&& 2 <= b.len() <= room
                &&& b[0] == 1 && b[1] == 0
                &&& b.len() <= len
                &&& name is Unnamed ==> len == 2
            }
        }),
{
    law_address_of_endpoint(ep);
    if room >= 2 {
        let full = unix::sockaddr_un(name, room as int);
        assert(full.len() <= room + 1);
        assert(full[0] == 1 && full[1] == 0);
        assert(bytes::le16(0) =~= seq![0u8, 0]);
    }
}

/// An abstract name that a socket is bound to is the one in the caller's bytes; a
/// socket that has an IP address cannot have one, and bytes that could not be
/// read are refused with the reason.
pub proof fn law_bind_to_a_name(
    devs: Seq<DeviceModel>,
    b: Seq<u8>,
    euid: u32,
    capabilities: u64,
    ip: IpEndpoint,
    e: SyscallErr,
)
    requires
        4 <= b.len() <= 110,
        b[0] == 1,
        b[1] == 0,
        b[2] == 0,
    ensures
        bind::bind_step(devs, Ok(b), euid, capabilities, None) == Ok::<BindModel, SyscallErr>(
            BindModel::Abstract(b.skip(3)),
        ),
        bind::bind_step(devs, Ok(b), euid, capabilities, Some(EndpointModel::Ip(ip))) == Err::<
            BindModel,
            SyscallErr,
        >(SyscallErr::EAFNOSUPPORT),
        bind::bind_step(devs, Err(e), euid, capabilities, None) == Err::<BindModel, SyscallErr>(e),
        bind::bind_step(devs, Ok(seq![0u8, 0]), euid, capabilities, None) == Err::<
            BindModel,
            SyscallErr,
        >(SyscallErr::EINVAL),
{
    law_endpoint_of_address(b);
    law_endpoint_of_address(seq![0u8, 0]);
}

/// A pair is handed out whole or not at all: where the second descriptor or the
/// place for the two numbers is missing, what was opened is closed again.
pub proof fn law_pair_is_whole(a: u32, b: u32, e: SyscallErr)
    ensures
        ({
            let done = socketpair::pair_end(Ok(a), Ok(b), true);
            let unread = socketpair::pair_end(Ok(a), Ok(b), false);
            let half = socketpair::pair_end(Ok(a), Err(e), true);
            let none = socketpair::pair_end(Err(e), Ok(b), true);
            &&& done.ret == 0 && !done.drop_first && !done.drop_second
            &&& unread.ret == -14 && unread.drop_first && unread.drop_second
            &&& half.ret == -e.spec_errno() && half.drop_first && !half.drop_second
            &&& none.ret == -e.spec_errno() && !none.drop_first && !none.drop_second
        }),
{
}

/// A connection that nobody has a descriptor for is refused; only over TCP does
/// the caller learn that the address of the peer could not be written.
pub proof fn law_accept_fails(fd: u32, e: SyscallErr)
    ensures
        accept::accept_end(AcceptKind::UnixStream, None, Ok(())) == Err::<isize, SyscallErr>(
            SyscallErr::ENFILE,
        ),
        accept::accept_end(AcceptKind::Tcp, None, Err(e)) == Err::<isize, SyscallErr>(
            SyscallErr::EMFILE,
        ),
        accept::accept_end(AcceptKind::Tcp, Some(fd), Err(e)) == Err::<isize, SyscallErr>(e),
        accept::accept_end(AcceptKind::UnixStream, Some(fd), Err(e)) == Ok::<isize, SyscallErr>(
            fd as isize,
        ),
{
}

/// A long send goes on piece by piece while everything is readable and taken: what
/// went through is returned, and an error only where nothing did.
pub proof fn law_long_send(s: ChunkedSend, accessible: usize, result: isize, signal: bool)
    requires
        s.wf(),
        s.done < s.total,
        accessible <= s.next_want(),
        result <= accessible,
    ensures
        accessible > 0 ==> s.ready(accessible) == ChunkStep::Send(accessible),
        s.done == 0 ==> s.ready(0) == ChunkStep::Return((-14) as isize),
        s.done > 0 ==> s.ready(0) == ChunkStep::Return(s.done as isize),
        ({
            let (n, step) = s.sent(accessible, result, signal);
            &&& n.total == s.total && n.cap == s.cap
            &&& result <= 0 ==> n == s && step == ChunkStep::Return(
                if s.done > 0 {
                    s.done as isize
                } else {
                    result
                },
            )
            &&& result > 0 ==> n.done == s.done + result && n.done <= n.total
            &&& result > 0 && !signal && result == accessible && accessible == s.next_want()
                && n.done < s.total ==> step == ChunkStep::Next
            &&& result > 0 && (signal || result < accessible || n.done == s.total)
                ==> step == ChunkStep::Return(n.done as isize)
        }),
{
}

/// The sender of a message is written where the caller asked for it and a message
/// came; room for it that is too small or too large is refused before.
pub proof fn law_sender_is_written(
    n: isize,
    ep: IpEndpoint,
    src_addr: usize,
    lenptr: usize,
    room: u32,
)
    requires
        src_addr != 0,
        lenptr != 0,
        lenptr % 4 == 0,
    ensures
        n >= 0 && 24 <= room < 0x8000_0000 ==> recvfrom::source_written(
            n,
            Some(EndpointModel::Ip(ep)),
            src_addr,
            lenptr,
            Some(room),
        ) == Some((address::ip_sockaddr(ep), address::ip_sockaddr(ep).len() as u32)),
        n < 0 ==> recvfrom::source_written(
            n,
            Some(EndpointModel::Ip(ep)),
            src_addr,
            lenptr,
            Some(room),
        ) is None,
        recvfrom::source_written(n, Some(EndpointModel::Ip(ep)), 0, lenptr, Some(room)) is None,
        recvfrom::source_written(n, None, src_addr, lenptr, Some(room)) is None,
        recvfrom::source_len_error(0, None) is None,
        recvfrom::source_len_error(src_addr, None) == Some(SyscallErr::EFAULT),
        room < 12 || room > 512 ==> recvfrom::source_len_error(src_addr, Some(room)) == Some(
            SyscallErr::EINVAL,
        ),
        12 <= room <= 512 ==> recvfrom::source_len_error(src_addr, Some(room)) is None,
{
    law_address_of_endpoint(ep);
}

} // verus!
