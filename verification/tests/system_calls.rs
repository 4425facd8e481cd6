use kernel_net::error::SyscallErr;
use kernel_net::net_core;
use kernel_net::net_core::NetNamespace;
use kernel_net::posix::MsgHdr;
use kernel_net::socket;
use kernel_net::socket::unix::{UnixEndpoint, UnixKind};
use kernel_net::socket::{Endpoint, SocketFile, SocketKind, PSOCK};
use kernel_net::syscall::accept::{
    accepted_cloexec, finish_accept, peer_out, sys_accept, sys_accept4, AcceptEvent, AcceptKind,
};
use kernel_net::syscall::bind::{path_parts, sys_bind, BindStep};
use kernel_net::syscall::common::{MSG_DONTWAIT, MSG_ERRQUEUE, MSG_OOB, MSG_PEEK, SOL_SOCKET, SOL_TCP};
use kernel_net::syscall::connect::{after_connect, sys_connect, ConnectStep};
use kernel_net::syscall::getpeername::sys_getpeername;
use kernel_net::syscall::getsockname::sys_getsockname;
use kernel_net::syscall::getsockopt::{sys_getsockopt, SocketFacts};
use kernel_net::syscall::listen::sys_listen;
use kernel_net::syscall::recvfrom::{finish_recvfrom, source_out, sys_recvfrom, RecvVia};
use kernel_net::syscall::recvmsg::{after_recvmsg, finish_recvmsg, sys_recvmsg};
use kernel_net::syscall::sendmmsg::{length_written, message_sent, sys_sendmmsg, BatchStep};
use kernel_net::syscall::sendmsg::{after_reserve, sys_sendmsg, ChunkStep, ChunkedSend, SendShape};
use kernel_net::syscall::sendto::{auto_bind_endpoint, sys_sendto, SenderFacts, MAX_TRANSFER};
use kernel_net::syscall::setsockopt::{sys_setsockopt, OptionChange};
use kernel_net::syscall::shutdown::sys_sock_shutdown;
use kernel_net::syscall::socket::sys_socket;
use kernel_net::syscall::socketpair::{finish_pair, sys_socketpair, PairEnd};
use kernel_net::syscall::wait::{after_try, after_wait, CallStep, WaitEnd};
use kernel_net::wire::{IpAddress, IpEndpoint, IpVersion, Ipv4Address};

fn sockaddr_in(a: [u8; 4], port: u16) -> Vec<u8> {
    let mut b = vec![2, 0, (port >> 8) as u8, port as u8];
    b.extend_from_slice(&a);
    b.extend_from_slice(&[0; 8]);
    b
}

fn ip(a: [u8; 4], port: u16) -> IpEndpoint {
    IpEndpoint::new(IpAddress::Ipv4(Ipv4Address::new(a[0], a[1], a[2], a[3])), port)
}

fn header(name: usize, namelen: u32) -> MsgHdr {
    MsgHdr {
        msg_name: name,
        msg_namelen: namelen,
        _pad0: 0,
        msg_iov: 0x1000,
        msg_iovlen: 1,
        msg_control: 0,
        msg_controllen: 0,
        msg_flags: 0,
        _pad1: 0,
    }
}

fn facts(t: PSOCK) -> SenderFacts {
    SenderFacts { socket_type: t, local_port: Some(80), connected: false, nonblock: false }
}

fn started() -> NetNamespace {
    let mut ns = NetNamespace::new();
    net_core::init(&mut ns, None);
    ns
}

#[test]
fn a_socket_is_chosen_by_domain_and_type() {
    let s = sys_socket(2, 1 | 0x800).unwrap();
    assert_eq!(s.kind, SocketKind::Tcp(IpVersion::Ipv4));
    assert!(s.nonblock);
    assert!(!s.cloexec);
    assert_eq!(sys_socket(10, 2).unwrap().kind, SocketKind::Udp(IpVersion::Ipv6));
    assert_eq!(sys_socket(0, 2).unwrap().kind, SocketKind::Udp(IpVersion::Ipv4));
    assert_eq!(sys_socket(1, 1).unwrap().kind, SocketKind::UnixStream);
    assert_eq!(sys_socket(16, 3).unwrap().kind, SocketKind::Netlink);
    assert_eq!(sys_socket(17, 3).unwrap().kind, SocketKind::Packet);
    assert_eq!(sys_socket(2, 7).unwrap_err(), SyscallErr::EINVAL);
    assert_eq!(sys_socket(99, 1).unwrap_err(), SyscallErr::EAFNOSUPPORT);
}

#[test]
fn a_pair_is_of_unix_sockets() {
    let p = sys_socketpair(1, 1 | 0x80000).unwrap();
    assert_eq!(p.kind, UnixKind::Stream);
    assert!(p.cloexec);
    assert_eq!(sys_socketpair(0, 2).unwrap().kind, UnixKind::Datagram);
    assert_eq!(sys_socketpair(2, 1).unwrap_err(), SyscallErr::EPROTONOSUPPORT);
    assert_eq!(sys_socketpair(1, 1 | 0x1000).unwrap_err(), SyscallErr::EINVAL);
    assert_eq!(sys_socketpair(1, 3).unwrap_err(), SyscallErr::ESOCKTNOSUPPORT);
    assert_eq!(sys_socketpair(1, 5).unwrap_err(), SyscallErr::ESOCKTNOSUPPORT);
    assert_eq!(sys_socketpair(1, 15).unwrap_err(), SyscallErr::EINVAL);
}

#[test]
fn a_pair_that_fails_leaves_nothing_open() {
    assert_eq!(
        finish_pair(Ok(3), Ok(4), true),
        PairEnd { ret: 0, drop_first: false, drop_second: false }
    );
    assert_eq!(
        finish_pair(Ok(3), Err(SyscallErr::EMFILE), true),
        PairEnd { ret: -24, drop_first: true, drop_second: false }
    );
    assert_eq!(
        finish_pair(Ok(3), Ok(4), false),
        PairEnd { ret: -14, drop_first: true, drop_second: true }
    );
    assert_eq!(
        finish_pair(Err(SyscallErr::EMFILE), Ok(4), true),
        PairEnd { ret: -24, drop_first: false, drop_second: false }
    );
}

#[test]
fn a_bind_to_an_address() {
    let ns = started();
    match sys_bind(&ns, 0x1000, 16, Some(sockaddr_in([127, 0, 0, 1], 8080)), 1000, 0, &None) {
        Ok(BindStep::Ip(ep)) => assert_eq!(ep, ip([127, 0, 0, 1], 8080)),
        other => panic!("{:?}", other),
    }
    let low = sockaddr_in([127, 0, 0, 1], 80);
    assert_eq!(
        sys_bind(&ns, 0x1000, 16, Some(low.clone()), 1000, 0, &None).unwrap_err(),
        SyscallErr::EACCES
    );
    assert!(sys_bind(&ns, 0x1000, 16, Some(low.clone()), 0, 0, &None).is_ok());
    assert!(sys_bind(&ns, 0x1000, 16, Some(low), 1000, 1 << 10, &None).is_ok());
    assert_eq!(
        sys_bind(&ns, 0x1000, 16, Some(sockaddr_in([8, 8, 8, 8], 8080)), 0, 0, &None).unwrap_err(),
        SyscallErr::EADDRNOTAVAIL
    );
    assert_eq!(
        sys_bind(&ns, 0x1000, 16, None, 0, 0, &None).unwrap_err(),
        SyscallErr::EFAULT
    );
    assert_eq!(
        sys_bind(&ns, 0x1000, 600, None, 0, 0, &None).unwrap_err(),
        SyscallErr::EINVAL
    );
}

#[test]
fn a_bind_to_a_name() {
    let ns = started();
    let mut path = vec![1, 0];
    path.extend_from_slice(b"/tmp/a.sock\0");
    match sys_bind(&ns, 0x1000, path.len() as u32, Some(path), 0, 0, &None) {
        Ok(BindStep::Path { parent, name }) => {
            assert_eq!(parent, "/tmp");
            assert_eq!(name, "a.sock");
        }
        other => panic!("{:?}", other),
    }
    match sys_bind(&ns, 0x1000, 6, Some(vec![1, 0, 0, 65, 66, 67]), 0, 0, &None) {
        Ok(BindStep::Abstract(n)) => assert_eq!(n, b"ABC"),
        other => panic!("{:?}", other),
    }
    assert!(matches!(
        sys_bind(&ns, 0x1000, 2, Some(vec![1, 0]), 0, 0, &None),
        Ok(BindStep::Unnamed)
    ));
    assert_eq!(path_parts("/a.sock"), ("/".to_string(), "a.sock".to_string()));
}

#[test]
fn a_connect_by_path_starts_at_the_working_directory() {
    let mut path = vec![1, 0];
    path.extend_from_slice(b"s.sock\0");
    match sys_connect(0x1000, path.len() as u32, Some(path), "/home/u") {
        Ok(Endpoint::Unix(UnixEndpoint::Path(p))) => assert_eq!(p, "/home/u/s.sock"),
        other => panic!("{:?}", other),
    }
    match sys_connect(0x1000, 16, Some(sockaddr_in([10, 0, 2, 2], 53)), "/") {
        Ok(Endpoint::Ip(ep)) => assert_eq!(ep, ip([10, 0, 2, 2], 53)),
        other => panic!("{:?}", other),
    }
    assert_eq!(sys_connect(0, 16, None, "/").unwrap_err(), SyscallErr::EFAULT);
}

#[test]
fn a_handshake_under_way_is_reported_or_waited_for() {
    let busy = Err(SyscallErr::EAGAIN);
    assert_eq!(after_connect(busy, true, true), ConnectStep::Done(CallStep::Return(-115)));
    assert_eq!(after_connect(busy, true, false), ConnectStep::Done(CallStep::Wait));
    assert_eq!(after_connect(busy, false, false), ConnectStep::Yield);
    assert_eq!(
        after_connect(Err(SyscallErr::ECONNREFUSED), true, false),
        ConnectStep::Done(CallStep::Return(-111))
    );
    assert_eq!(after_connect(Ok(0), true, true), ConnectStep::Done(CallStep::Return(0)));
}

#[test]
fn a_listener_keeps_as_many_as_are_asked_for() {
    assert_eq!(sys_listen(Ok(()), 10), Ok(10));
    assert_eq!(sys_listen(Ok(()), 4096), Ok(16));
    assert_eq!(sys_listen(Err(SyscallErr::EADDRINUSE), 10), Err(SyscallErr::EADDRINUSE));
}

#[test]
fn an_accept_waits_for_a_connection() {
    assert_eq!(sys_accept(false, AcceptEvent::Tried(Err(SyscallErr::EAGAIN))), CallStep::Wait);
    assert_eq!(
        sys_accept(true, AcceptEvent::Tried(Err(SyscallErr::EAGAIN))),
        CallStep::Return(-11)
    );
    assert_eq!(sys_accept(false, AcceptEvent::Tried(Ok(7))), CallStep::Return(7));
    assert_eq!(sys_accept(false, AcceptEvent::TimedOut), CallStep::Wait);
    let a = sys_accept4(7, 0x80000);
    assert!(a.cloexec && !a.nonblock);
    assert!(!sys_accept4(-11, 0x80800).nonblock);
}

#[test]
fn a_new_descriptor_and_its_address_depend_on_the_kind() {
    assert!(accepted_cloexec(AcceptKind::Tcp, true));
    assert!(!accepted_cloexec(AcceptKind::Tcp, false));
    assert!(!accepted_cloexec(AcceptKind::UnixStream, true));
    let peer = Some(Endpoint::Ip(ip([10, 0, 2, 2], 53)));
    let out = peer_out(AcceptKind::Tcp, &peer, 0x1000, 0x2000, Some(16)).unwrap().unwrap();
    assert_eq!(out.bytes, sockaddr_in([10, 0, 2, 2], 53));
    assert!(peer_out(AcceptKind::Tcp, &peer, 0, 0, None).unwrap().is_none());
    assert!(peer_out(AcceptKind::Tcp, &peer, 0x1000, 0, None).is_err());
    let name = Some(Endpoint::Unix(UnixEndpoint::Abstract(b"n".to_vec())));
    assert!(peer_out(AcceptKind::UnixStream, &name, 0x1000, 1, None).unwrap().is_none());
    assert!(peer_out(AcceptKind::UnixStream, &name, 0x1000, 0x2000, None).unwrap().is_none());
    assert!(peer_out(AcceptKind::UnixStream, &name, 0x1000, 0x2000, Some(16)).unwrap().is_some());
    let bad = Err(SyscallErr::EFAULT);
    assert_eq!(finish_accept(AcceptKind::Tcp, Some(5), Ok(())), Ok(5));
    assert_eq!(finish_accept(AcceptKind::Tcp, Some(5), bad), Err(SyscallErr::EFAULT));
    assert_eq!(finish_accept(AcceptKind::UnixStream, Some(5), bad), Ok(5));
    assert_eq!(finish_accept(AcceptKind::Tcp, None, Ok(())), Err(SyscallErr::EMFILE));
    assert_eq!(finish_accept(AcceptKind::UnixStream, None, Ok(())), Err(SyscallErr::ENFILE));
}

#[test]
fn a_sender_without_a_port_gets_a_free_one() {
    assert!(matches!(auto_bind_endpoint(), Endpoint::Ip(ep) if ep == ip([0, 0, 0, 0], 0)));
}

#[test]
fn only_a_call_that_may_wait_waits() {
    assert_eq!(after_try(Err(SyscallErr::EAGAIN), false), CallStep::Wait);
    assert_eq!(after_try(Err(SyscallErr::EAGAIN), true), CallStep::Return(-11));
    assert_eq!(after_try(Err(SyscallErr::EPIPE), false), CallStep::Return(-32));
    assert_eq!(after_try(Ok(12), false), CallStep::Return(12));
    assert_eq!(after_wait(WaitEnd::TimedOut), -11);
    assert_eq!(sys_sock_shutdown(Ok(())), 0);
    assert_eq!(sys_sock_shutdown(Err(SyscallErr::ENOTCONN)), -107);
}

#[test]
fn options_are_set() {
    let set = |level, name, value| sys_setsockopt(level, name, 0x1000, 4, Some(value), true);
    assert_eq!(set(SOL_SOCKET, 7, 4096), Ok(OptionChange::SendBuf(4096)));
    assert_eq!(set(SOL_SOCKET, 8, 4096), Ok(OptionChange::RecvBuf(4096)));
    assert_eq!(set(SOL_TCP, 1, 1), Ok(OptionChange::Nagle(false)));
    assert_eq!(set(SOL_TCP, 1, 0), Ok(OptionChange::Nagle(true)));
    assert_eq!(set(SOL_SOCKET, 9, 1), Ok(OptionChange::KeepAlive(true)));
    assert_eq!(set(SOL_SOCKET, 9, 2), Ok(OptionChange::KeepAlive(false)));
    assert_eq!(set(SOL_SOCKET, 2, 5), Ok(OptionChange::ReuseAddr(true)));
    assert_eq!(set(SOL_SOCKET, 5, 5), Ok(OptionChange::Nothing));
    assert_eq!(set(SOL_SOCKET, 99, 5), Err(SyscallErr::ENOPROTOOPT));
    assert_eq!(set(SOL_SOCKET, 20, 5), Err(SyscallErr::EINVAL));
    assert_eq!(
        sys_setsockopt(SOL_SOCKET, 20, 0x1000, 16, Some(5), true),
        Ok(OptionChange::Nothing)
    );
    assert_eq!(
        sys_setsockopt(SOL_SOCKET, 21, 0x1000, 16, Some(5), false),
        Err(SyscallErr::EFAULT)
    );
    assert_eq!(sys_setsockopt(SOL_SOCKET, 2, 0, 4, Some(1), true), Err(SyscallErr::EFAULT));
    assert_eq!(sys_setsockopt(SOL_SOCKET, 2, 1, 0, Some(1), true), Err(SyscallErr::EINVAL));
    assert_eq!(sys_setsockopt(SOL_SOCKET, 2, 1, 4, None, true), Err(SyscallErr::EFAULT));
}

#[test]
fn options_are_read() {
    let f = SocketFacts {
        socket_type: PSOCK::Stream,
        handshake: Err(SyscallErr::ECONNREFUSED),
        tcp_state: Some(1),
        send_buf: 65536,
        recv_buf: 4096,
        reuse_addr: Ok(1),
        peer_creds: Ok((7, 8, 9)),
    };
    let get = |level, name| sys_getsockopt(&f, level, name, 0x1000, 0x2000, Some(256));
    assert_eq!(get(SOL_SOCKET, 4), Ok(vec![111, 0, 0, 0]));
    assert_eq!(get(SOL_SOCKET, 7), Ok(vec![0, 0, 1, 0]));
    assert_eq!(get(SOL_SOCKET, 8), Ok(vec![0, 16, 0, 0]));
    assert_eq!(get(SOL_SOCKET, 2), Ok(vec![1, 0, 0, 0]));
    assert_eq!(get(SOL_SOCKET, 17), Ok(vec![7, 0, 0, 0, 8, 0, 0, 0, 9, 0, 0, 0]));
    assert_eq!(get(SOL_SOCKET, 20), Ok(vec![0; 16]));
    assert_eq!(get(SOL_TCP, 2), Ok(vec![0, 128, 0, 0]));
    assert_eq!(get(SOL_TCP, 13), Ok(b"reno".to_vec()));
    let info = get(SOL_TCP, 11).unwrap();
    assert_eq!(info.len(), 232);
    assert_eq!(info[0], 1);
    assert_eq!(&info[16..20], &[0, 128, 0, 0]);
    assert_eq!(get(SOL_TCP, 99), Err(SyscallErr::ENOPROTOOPT));
    assert_eq!(get(17, 99), Err(SyscallErr::EOPNOTSUPP));
    assert_eq!(
        sys_getsockopt(&f, SOL_SOCKET, 4, 0x1000, 0x2000, Some(3)),
        Err(SyscallErr::EINVAL)
    );
    assert_eq!(
        sys_getsockopt(&f, SOL_SOCKET, 4, 0, 0x2000, Some(4)),
        Err(SyscallErr::EFAULT)
    );
    assert_eq!(
        sys_getsockopt(&f, SOL_SOCKET, 20, 1, 0x2000, Some(8)),
        Err(SyscallErr::EINVAL)
    );
    assert_eq!(
        sys_getsockopt(&f, SOL_SOCKET, 7, 1, 0x2000, Some(0x8000_0000)),
        Err(SyscallErr::EINVAL)
    );
}

#[test]
fn a_handshake_under_way_is_no_error() {
    let f = SocketFacts {
        socket_type: PSOCK::Stream,
        handshake: Err(SyscallErr::EAGAIN),
        tcp_state: None,
        send_buf: 1,
        recv_buf: 1,
        reuse_addr: Err(SyscallErr::EOPNOTSUPP),
        peer_creds: Err(SyscallErr::ENOPROTOOPT),
    };
    assert_eq!(sys_getsockopt(&f, SOL_SOCKET, 4, 1, 4, Some(4)), Ok(vec![0, 0, 0, 0]));
    assert_eq!(sys_getsockopt(&f, SOL_SOCKET, 2, 1, 4, Some(4)), Err(SyscallErr::EOPNOTSUPP));
    assert_eq!(sys_getsockopt(&f, SOL_SOCKET, 17, 1, 4, Some(4)), Err(SyscallErr::ENOPROTOOPT));
    assert_eq!(sys_getsockopt(&f, SOL_TCP, 11, 1, 4, Some(4)).unwrap()[0], 7);
}

#[test]
fn addresses_are_reported() {
    let ep = || Some(Endpoint::Ip(ip([10, 0, 2, 15], 8080)));
    let out = sys_getsockname(ep(), 0x1000, 0x2000, Some(16)).unwrap();
    assert_eq!(out.bytes, sockaddr_in([10, 0, 2, 15], 8080));
    assert_eq!(out.len, 16);
    assert_eq!(
        sys_getsockname(ep(), 0, 0x2000, Some(16)).unwrap_err(),
        SyscallErr::EFAULT
    );
    let peer = sys_getpeername(ep(), 0x1000, 0x2000, Some(16), true).unwrap();
    assert_eq!(peer.bytes, sockaddr_in([10, 0, 2, 15], 8080));
    assert_eq!(
        sys_getpeername(None, 0x1000, 0x2000, Some(16), true).unwrap_err(),
        SyscallErr::ENOTCONN
    );
}

#[test]
fn a_datagram_needs_a_destination() {
    let mut f = facts(PSOCK::Datagram);
    f.local_port = None;
    let step = sys_sendto(&f, 5, 0, 0, 0, None, true);
    assert!(step.auto_bind);
    assert_eq!(step.plan.unwrap_err(), SyscallErr::EDESTADDRREQ);
    let dest = sockaddr_in([10, 0, 2, 2], 53);
    let step = sys_sendto(&f, 5, MSG_DONTWAIT, 0x1000, 16, Some(dest.clone()), true);
    let plan = step.plan.unwrap();
    assert_eq!(plan.len, 5);
    assert!(plan.nonblock);
    assert!(matches!(plan.dest, Some(Endpoint::Ip(ep)) if ep == ip([10, 0, 2, 2], 53)));
    let short = sys_sendto(&f, 5, 0, 0x1000, 1, Some(dest.clone()), true);
    assert!(!short.auto_bind);
    assert_eq!(short.plan.unwrap_err(), SyscallErr::EINVAL);
    let hidden = sys_sendto(&f, 5, 0, 0x1000, 16, Some(dest), false);
    assert_eq!(hidden.plan.unwrap_err(), SyscallErr::EFAULT);
    f.connected = true;
    assert!(sys_sendto(&f, 5, 0, 0, 0, None, true).plan.is_ok());
}

#[test]
fn a_stream_ignores_a_destination() {
    let f = facts(PSOCK::Stream);
    let step = sys_sendto(&f, usize::MAX, 0, 0x1000, 16, Some(vec![9; 16]), true);
    let plan = step.plan.unwrap();
    assert!(plan.dest.is_none());
    assert_eq!(plan.len, MAX_TRANSFER);
    assert_eq!(
        sys_sendto(&f, 5, 0, 0x1000, 16, None, true).plan.unwrap_err(),
        SyscallErr::EFAULT
    );
    assert_eq!(
        sys_sendto(&f, 5, MSG_OOB, 0, 0, None, true).plan.unwrap_err(),
        SyscallErr::EOPNOTSUPP
    );
    assert_eq!(
        sys_sendto(&facts(PSOCK::SeqPacket), 5, 0, 0, 0, None, true).plan.unwrap_err(),
        SyscallErr::EOPNOTSUPP
    );
    assert!(sys_sendto(&facts(PSOCK::Raw), 5, 0, 0, 0, None, true).plan.unwrap().dest.is_none());
}

#[test]
fn a_message_is_sent_whole_or_in_pieces() {
    let stream = sys_sendmsg(&facts(PSOCK::Stream), 0, Some(header(0, 0)), Ok(5000), None, 4096);
    let plan = stream.plan.unwrap();
    assert_eq!(plan.shape, SendShape::Chunked(4096));
    assert_eq!(plan.reserve, 4096);
    let raw = sys_sendmsg(&facts(PSOCK::Raw), 0, Some(header(0, 0)), Ok(5000), None, 4096);
    assert_eq!(raw.plan.unwrap_err(), SyscallErr::EMSGSIZE);
    let single = sys_sendmsg(&facts(PSOCK::Raw), 0, Some(header(0, 0)), Ok(100), None, 4096);
    assert_eq!(single.plan.unwrap().shape, SendShape::Single(100));
    let udp = facts(PSOCK::Datagram);
    let nowhere = sys_sendmsg(&udp, 0, Some(header(0, 0)), Ok(100), None, 4096);
    assert_eq!(nowhere.plan.unwrap_err(), SyscallErr::EDESTADDRREQ);
    let dest = Some(sockaddr_in([10, 0, 2, 2], 53));
    let there = sys_sendmsg(&udp, 0, Some(header(0x1000, 16)), Ok(100), dest, 4096);
    assert!(there.plan.unwrap().dest.is_some());
    let empty = sys_sendmsg(&udp, 0, Some(header(0, 0)), Ok(0), None, 4096);
    assert!(!empty.auto_bind);
    assert_eq!(empty.plan.unwrap().shape, SendShape::Empty);
    assert_eq!(
        sys_sendmsg(&udp, 0, None, Ok(1), None, 4096).plan.unwrap_err(),
        SyscallErr::EFAULT
    );
    assert_eq!(
        sys_sendmsg(&udp, 0, Some(header(0, 0)), Err(SyscallErr::EINVAL), None, 4096)
            .plan
            .unwrap_err(),
        SyscallErr::EINVAL
    );
    assert_eq!(after_reserve(false), Err(SyscallErr::ENOBUFS));
    assert_eq!(after_reserve(true), Ok(()));
}

#[test]
fn what_went_through_counts_before_an_error() {
    let mut s = ChunkedSend::new(10, 4);
    assert_eq!(s.want(), 4);
    assert_eq!(s.chunk_ready(4), ChunkStep::Send(4));
    assert_eq!(s.chunk_sent(4, 4, false), ChunkStep::Next);
    assert_eq!(s.chunk_sent(4, -32, false), ChunkStep::Return(4));
    let mut t = ChunkedSend::new(10, 4);
    assert_eq!(t.chunk_sent(4, -32, false), ChunkStep::Return(-32));
    assert_eq!(t.chunk_ready(0), ChunkStep::Return(-14));
    let mut u = ChunkedSend::new(10, 4);
    assert_eq!(u.chunk_sent(4, 3, false), ChunkStep::Return(3));
    let mut v = ChunkedSend::new(6, 4);
    assert_eq!(v.chunk_sent(4, 4, false), ChunkStep::Next);
    assert_eq!(v.want(), 2);
    assert_eq!(v.chunk_sent(2, 2, false), ChunkStep::Return(6));
    let mut w = ChunkedSend::new(10, 4);
    assert_eq!(w.chunk_sent(4, 4, true), ChunkStep::Return(4));
}

#[test]
fn a_batch_reports_how_many_were_sent() {
    assert_eq!(sys_sendmmsg(0x1000, 0), BatchStep::Return(0));
    assert_eq!(sys_sendmmsg(0x1000, 1025), BatchStep::Return(-22));
    assert_eq!(sys_sendmmsg(0x1000, 2), BatchStep::Send(0x1000));
    assert_eq!(message_sent(0x1000, 0, 9), BatchStep::Write(0x1038, 9));
    assert_eq!(length_written(0x1000, 2, 0, true), BatchStep::Send(0x1040));
    assert_eq!(message_sent(0x1040, 1, -14), BatchStep::Return(1));
    assert_eq!(message_sent(0x1000, 0, -14), BatchStep::Return(-14));
    assert_eq!(length_written(0x1000, 2, 0, false), BatchStep::Return(-14));
    assert_eq!(length_written(0x1000, 2, 1, true), BatchStep::Return(2));
    assert_eq!(length_written(usize::MAX, 2, 0, true), BatchStep::Return(1));
}

#[test]
fn a_call_receives_by_the_kind_of_its_socket() {
    let p = sys_recvfrom(PSOCK::Stream, true, 100, 0, 0, None).unwrap();
    assert_eq!(p.via, RecvVia::User);
    let p = sys_recvfrom(PSOCK::Stream, false, u32::MAX, 0, 0, None).unwrap();
    assert_eq!(p.via, RecvVia::Stream);
    assert_eq!(p.len, MAX_TRANSFER);
    let p = sys_recvfrom(PSOCK::Datagram, false, 100, MSG_PEEK, 0, None).unwrap();
    assert_eq!(p.via, RecvVia::Peek);
    let p = sys_recvfrom(PSOCK::Stream, true, 100, MSG_PEEK, 0, None).unwrap();
    assert_eq!((p.via, p.len), (RecvVia::Peek, 100));
    let p = sys_recvfrom(PSOCK::Raw, false, 100, MSG_PEEK, 0, None).unwrap();
    assert_eq!(p.via, RecvVia::Peek);
    let p = sys_recvfrom(PSOCK::Raw, false, 100, MSG_DONTWAIT, 1, Some(16)).unwrap();
    assert_eq!(p.via, RecvVia::Message);
    assert!(p.nonblock);
    assert_eq!(finish_recvfrom(&p, 10, true), 10);
    assert_eq!(finish_recvfrom(&p, 10, false), -14);
    assert_eq!(finish_recvfrom(&p, 0, false), 0);
    let refuse = |flags, addr, len| {
        sys_recvfrom(PSOCK::Datagram, false, 1, flags, addr, len).unwrap_err()
    };
    assert_eq!(refuse(MSG_OOB, 0, None), SyscallErr::EINVAL);
    assert_eq!(refuse(MSG_ERRQUEUE, 0, None), SyscallErr::EAGAIN);
    assert_eq!(refuse(0, 1, None), SyscallErr::EFAULT);
    assert_eq!(refuse(0, 1, Some(11)), SyscallErr::EINVAL);
    assert_eq!(refuse(0, 1, Some(513)), SyscallErr::EINVAL);
    assert_eq!(
        sys_recvfrom(PSOCK::SeqPacket, false, 1, 0, 0, None).unwrap_err(),
        SyscallErr::EOPNOTSUPP
    );
}

#[test]
fn the_sender_of_an_empty_message_is_reported() {
    let source = Some(Endpoint::Ip(ip([10, 0, 2, 2], 53)));
    let out = source_out(0, &source, 0x1000, 0x2000, Some(16)).unwrap();
    assert_eq!(out.bytes, sockaddr_in([10, 0, 2, 2], 53));
    assert!(source_out(-11, &source, 0x1000, 0x2000, Some(16)).is_none());
    assert!(source_out(0, &source, 0, 0x2000, Some(16)).is_none());
    assert!(source_out(0, &None, 0x1000, 0x2000, Some(16)).is_none());
}

#[test]
fn a_message_that_does_not_fit_is_cut() {
    let m = header(0x3000, 16);
    let plan = sys_recvmsg(PSOCK::Datagram, false, 0, Some(m), Ok(8), 4096).unwrap();
    assert_eq!(plan.cap, 8);
    assert!(!plan.user);
    let source = Some(Endpoint::Ip(ip([10, 0, 2, 2], 53)));
    let out = after_recvmsg(&plan, &m, 20, &source, 0x2008, Some(16)).unwrap();
    assert_eq!(out.copy, 8);
    assert_eq!(out.flags, 0x20);
    assert_eq!(out.ret, 20);
    assert_eq!(out.name.unwrap().bytes, sockaddr_in([10, 0, 2, 2], 53));
    let out = after_recvmsg(&plan, &header(0, 0), 5, &source, 0x2008, Some(16)).unwrap();
    assert_eq!(out.copy, 5);
    assert_eq!(out.flags, 0);
    assert!(out.name.is_none());
    assert_eq!(after_recvmsg(&plan, &m, -11, &None, 0, None).unwrap_err(), -11);
    assert!(sys_recvmsg(PSOCK::Stream, true, 0, Some(m), Ok(8), 4096).unwrap().user);
    assert!(!sys_recvmsg(PSOCK::Stream, true, MSG_PEEK, Some(m), Ok(8), 4096).unwrap().user);
    assert_eq!(
        sys_recvmsg(PSOCK::Stream, true, 0, None, Ok(8), 4096).unwrap_err(),
        SyscallErr::EFAULT
    );
    assert_eq!(finish_recvmsg(20, true), 20);
    assert_eq!(finish_recvmsg(20, false), -14);
}

#[test]
fn a_socket_is_polled_as_a_file() {
    assert_eq!(SocketFile::new(true, true, false).poll(), 5);
    assert_eq!(SocketFile::new(false, false, true).poll(), 0x10);
    assert_eq!(socket::socket_ioctl(0x8912), Ok(()));
    assert_eq!(socket::socket_ioctl(0x5401), Err(SyscallErr::ENOTTY));
}

#[test]
fn addresses_are_parsed_by_their_family() {
    assert!(matches!(
        Endpoint::from_sockaddr(&[1, 0, 0, 65]),
        Ok(Endpoint::Unix(UnixEndpoint::Abstract(_)))
    ));
    assert!(matches!(Endpoint::from_sockaddr(&[0, 0]), Ok(Endpoint::Unspecified)));
    assert_eq!(Endpoint::from_sockaddr(&[2]).unwrap_err(), SyscallErr::EINVAL);
    assert_eq!(Endpoint::from_sockaddr(&[2, 0, 0, 1]).unwrap_err(), SyscallErr::EINVAL);
    assert_eq!(Endpoint::from_sockaddr(&[99, 0, 0, 1]).unwrap_err(), SyscallErr::EAFNOSUPPORT);
    assert_eq!(
        Endpoint::from_sockaddr(&[1, 0, 0xff, 0xfe, 0]).unwrap_err(),
        SyscallErr::EINVAL
    );
    let ep = Endpoint::from_sockaddr(&sockaddr_in([1, 2, 3, 4], 258)).unwrap();
    assert_eq!(ep.port(), 258);
}
