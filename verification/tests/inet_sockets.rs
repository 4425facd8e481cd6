use kernel_net::error::SyscallErr;
use kernel_net::net_core;
use kernel_net::net_core::{NetGlobals, NetNamespace};
use kernel_net::routing::RouteSocketHandle;
use kernel_net::socket::inet::common::port::registry::{BindIntent, PortRegistry};
use kernel_net::socket::inet::common::port::PortManager;
use kernel_net::socket::inet::datagram::udp;
use kernel_net::socket::inet::datagram::udp::{StackSend, UdpPacketDelivery, UdpSend, UdpSocket, UdpSockets};
use kernel_net::socket::inet::raw::checksum::ipv6_pseudo_header_checksum;
use kernel_net::socket::inet::raw::raw;
use kernel_net::socket::inet::raw::raw::RawSocket;
use kernel_net::socket::inet::stream::inner::{Replacement, TcpOp, TcpState, TcpStatus};
use kernel_net::socket::inet::stream::lifecycle::{ConnectOutcome, ListenOutcome};
use kernel_net::socket::inet::stream::{StackIo, TcpSocket};
use kernel_net::socket::{Endpoint, PSOCK};
use kernel_net::socket::netlink::NetlinkSocket;
use kernel_net::socket::packet::PacketSocket;
use kernel_net::syscall::receive::{receive_netlink, receive_packet, receive_raw, receive_tcp, receive_udp};
use kernel_net::syscall::recvfrom::RecvVia;
use kernel_net::wire::{IpAddress, IpCidr, IpEndpoint, IpListenEndpoint, IpVersion, Ipv4Address, Ipv6Address};

fn v4(a: u8, b: u8, c: u8, d: u8) -> IpAddress {
    IpAddress::Ipv4(Ipv4Address::new(a, b, c, d))
}

fn at(addr: IpAddress, port: u16) -> Endpoint {
    Endpoint::Ip(IpEndpoint::new(addr, port))
}

fn leased() -> (NetNamespace, NetGlobals) {
    let mut ns = NetNamespace::new();
    net_core::init(&mut ns, Some([2, 0, 0, 0, 0, 1]));
    let mut globals = NetGlobals::new();
    net_core::set_eth0_ipv4(&mut ns, &mut globals, IpCidr::new(v4(10, 0, 2, 15), 24));
    globals.set_default_gateway(Some(Ipv4Address::new(10, 0, 2, 2)));
    (ns, globals)
}

fn status(state: TcpState, can_send: bool, can_recv: bool) -> TcpStatus {
    TcpStatus {
        state,
        can_send,
        can_recv,
        may_recv: true,
        local: Some(IpEndpoint::new(v4(10, 0, 2, 15), 8080)),
        remote: Some(IpEndpoint::new(v4(10, 0, 2, 2), 4000)),
        send_capacity: 65536,
        recv_capacity: 65536,
    }
}

#[test]
fn a_port_is_taken_once() {
    let mut ports = PortRegistry::new();
    let intent = BindIntent::legacy_tcp(8080, None);
    let live = vec![1u64, 2];
    let first = PortManager::bind_port(&mut ports, PSOCK::Stream, intent, 1, &live).unwrap().unwrap();
    assert_eq!(
        PortManager::bind_port(&mut ports, PSOCK::Stream, intent, 2, &live).unwrap_err(),
        SyscallErr::EADDRINUSE
    );
    assert!(PortManager::finish_bind(&mut ports, first, 1, Ok(0)).is_ok());
    assert!(PortManager::check_tcp_conflict(&ports, 8080, None));
    assert!(!PortManager::check_tcp_conflict(&ports, 8081, None));
    ports.release(&first);
    assert!(!PortManager::check_tcp_conflict(&ports, 8080, None));
}

#[test]
fn a_bind_that_failed_gives_its_port_back() {
    let mut ports = PortRegistry::new();
    let intent = BindIntent::legacy_udp(53, None, false);
    let live = vec![1u64];
    let r = PortManager::bind_port(&mut ports, PSOCK::Datagram, intent, 1, &live).unwrap().unwrap();
    assert_eq!(
        PortManager::finish_bind(&mut ports, r, 1, Err(SyscallErr::EINVAL)).unwrap_err(),
        SyscallErr::EINVAL
    );
    assert_eq!(PortManager::check_udp_conflict(&ports, 53, None, false), Ok(()));
    assert_eq!(
        PortManager::bind_port(&mut ports, PSOCK::Raw, intent, 1, &live).unwrap(),
        None
    );
}

#[test]
fn a_socket_without_a_port_gets_a_free_one() {
    let mut ports = PortRegistry::new();
    let live = vec![1u64, 2];
    let wanted = Ok(Some(BindIntent::legacy_udp(0, None, false)));
    let a = PortManager::ensure_auto_bound(&mut ports, PSOCK::Datagram, wanted, 1, &live)
        .unwrap()
        .unwrap();
    let b = PortManager::ensure_auto_bound(&mut ports, PSOCK::Datagram, wanted, 2, &live)
        .unwrap()
        .unwrap();
    assert!(a.key.port >= 32768);
    assert_ne!(a.key.port, b.key.port);
    assert_eq!(
        PortManager::ensure_auto_bound(&mut ports, PSOCK::Datagram, Ok(None), 1, &live),
        Ok(None)
    );
    assert_eq!(
        PortManager::ensure_auto_bound(
            &mut ports,
            PSOCK::Datagram,
            Err(SyscallErr::ENETUNREACH),
            1,
            &live
        ),
        Err(SyscallErr::ENETUNREACH)
    );
}

#[test]
fn shared_addresses_share_a_port() {
    let mut ports = PortRegistry::new();
    let live = vec![1u64, 2];
    let shared = BindIntent::legacy_udp(5353, None, true);
    assert!(ports.reserve(shared, 1, &live).is_ok());
    assert!(ports.reserve(shared, 2, &live).is_ok());
    assert_eq!(
        ports.reserve(BindIntent::legacy_udp(5353, None, false), 2, &live).unwrap_err(),
        SyscallErr::EADDRINUSE
    );
    assert!(ports
        .reserve(BindIntent::legacy_udp(5354, Some(v4(127, 0, 0, 1)), false), 1, &live)
        .is_ok());
    assert!(ports
        .reserve(BindIntent::legacy_udp(5354, Some(v4(10, 0, 2, 15)), false), 2, &live)
        .is_ok());
}

fn udp_pair() -> (UdpSockets, u64, u64) {
    let mut u = UdpSockets::new();
    let a = u.sockets.insert(UdpSocket::new(IpVersion::Ipv4, RouteSocketHandle(1))).unwrap();
    let b = u.sockets.insert(UdpSocket::new(IpVersion::Ipv4, RouteSocketHandle(2))).unwrap();
    u.register_udp_socket(a);
    u.register_udp_socket(b);
    (u, a, b)
}

fn bind_udp(u: &mut UdpSockets, ns: &NetNamespace, id: u64, addr: IpAddress, port: u16) {
    let mut s = u.sockets.take(id).unwrap();
    let target = s.bind(&at(addr, port)).unwrap();
    s.finish_bind(ns, target, Some(true)).unwrap();
    u.sockets.put(id, s);
}

#[test]
fn a_datagram_to_this_machine_needs_no_stack() {
    let (mut ns, globals) = leased();
    let (mut u, a, b) = udp_pair();
    bind_udp(&mut u, &ns, a, v4(127, 0, 0, 1), 4000);
    bind_udp(&mut u, &ns, b, v4(127, 0, 0, 1), 4001);
    let sent = u.try_sendmsg(
        a,
        b"hello",
        &Some(at(v4(127, 0, 0, 1), 4001)),
        false,
        &mut ns,
        &globals,
    );
    assert!(matches!(sent, Ok(UdpSend::Done(5))));
    let mut s = u.sockets.take(b).unwrap();
    assert!(s.recv_ready());
    let mut buf = [0u8; 16];
    let (n, from) = s.try_peek_recvmsg(&mut buf).unwrap();
    assert_eq!(n, 5);
    assert_eq!(&buf[..5], b"hello");
    assert!(matches!(from, Some(Endpoint::Ip(ep)) if ep.port == 4000));
    buf = [0u8; 16];
    let (n, from) = s.try_recvmsg(&mut buf).unwrap();
    assert_eq!(n, 5);
    assert_eq!(&buf[..5], b"hello");
    assert!(matches!(from, Some(Endpoint::Ip(ep)) if ep == IpEndpoint::new(v4(127, 0, 0, 1), 4000)));
    assert_eq!(s.try_recvmsg(&mut buf).unwrap_err(), SyscallErr::EAGAIN);
    assert_eq!(s.try_peek_recvmsg(&mut buf).unwrap_err(), SyscallErr::EAGAIN);
}

#[test]
fn a_datagram_for_elsewhere_goes_to_the_stack() {
    let (mut ns, globals) = leased();
    let (mut u, a, _) = udp_pair();
    bind_udp(&mut u, &ns, a, v4(10, 0, 2, 15), 4000);
    match u.try_sendmsg(a, b"q", &Some(at(v4(8, 8, 8, 8), 53)), false, &mut ns, &globals) {
        Ok(UdpSend::Transmit { remote, data, .. }) => {
            assert_eq!(remote, IpEndpoint::new(v4(8, 8, 8, 8), 53));
            assert_eq!(data, b"q");
        }
        other => panic!("{:?}", other),
    }
    assert_eq!(udp::finish_send(StackSend::Sent, 1), Ok(1));
    assert_eq!(udp::finish_send(StackSend::BufferFull, 1), Err(SyscallErr::EAGAIN));
}

#[test]
fn what_the_stack_received_goes_to_the_best_match() {
    let (ns, _) = leased();
    let (mut u, a, b) = udp_pair();
    bind_udp(&mut u, &ns, a, v4(0, 0, 0, 0), 4000);
    bind_udp(&mut u, &ns, b, v4(10, 0, 2, 15), 4000);
    let mut s = u.sockets.take(b).unwrap();
    s.connect(&at(v4(10, 0, 2, 2), 53)).unwrap();
    u.sockets.put(b, s);
    let woken = u.dispatch_udp_packets(&vec![UdpPacketDelivery {
        local: IpListenEndpoint { addr: Some(v4(10, 0, 2, 15)), port: 4000 },
        remote: IpEndpoint::new(v4(10, 0, 2, 2), 53),
        payload: vec![1, 2, 3],
    }]);
    assert_eq!(woken, vec![b]);
    let mut s = u.sockets.take(b).unwrap();
    let mut buf = [0u8; 2];
    assert_eq!(s.try_recv(&mut buf), Ok(2));
    assert_eq!(buf, [1, 2]);
    u.sockets.put(b, s);
    let woken = u.dispatch_udp_packets(&vec![UdpPacketDelivery {
        local: IpListenEndpoint { addr: Some(v4(10, 0, 2, 15)), port: 4000 },
        remote: IpEndpoint::new(v4(10, 0, 2, 9), 53),
        payload: vec![4],
    }]);
    assert_eq!(woken, vec![a]);
}

#[test]
fn a_raw_socket_writes_the_header() {
    let (mut ns, globals) = leased();
    let s = RawSocket::new(1, IpVersion::Ipv4, vec![RouteSocketHandle(5)]);
    let out = s.send_to(&[8, 0, 1, 2], &at(v4(10, 0, 2, 2), 0), &mut ns, &globals).unwrap();
    let p = &out.packet;
    assert_eq!(p.len(), 24);
    assert_eq!(&p[..4], &[0x45, 0, 0, 24]);
    assert_eq!(p[8], 64);
    assert_eq!(p[9], 1);
    assert_eq!(&p[12..20], &[10, 0, 2, 15, 10, 0, 2, 2]);
    assert_eq!(&p[20..], &[8, 0, 1, 2]);
    let sum: u32 = p[..20].chunks(2).map(|w| (w[0] as u32) * 256 + w[1] as u32).sum();
    assert_eq!((sum & 0xffff) + (sum >> 16), 0xffff);
    assert_ne!(&p[10..12], &[0, 0]);
    assert_eq!(out.rebind, Some(2));
    assert_eq!(
        s.send_to(&[], &at(IpAddress::Ipv6(Ipv6Address { bits: 1 }), 0), &mut ns, &globals)
            .unwrap_err(),
        SyscallErr::EINVAL
    );
    assert_eq!(raw::finish_send(Some(false), 4), Err(SyscallErr::ENOBUFS));
}

#[test]
fn a_raw_socket_filters_what_it_receives() {
    let mut s = RawSocket::new(58, IpVersion::Ipv6, vec![RouteSocketHandle(5)]);
    let mut filter = [0u32; 8];
    filter[128 / 32] = 1 << (128 % 32);
    s.set_icmp6_filter(filter).unwrap();
    let mut packet = vec![0u8; 44];
    packet[23] = 1;
    packet[40] = 128;
    assert_eq!(s.take_packet(&mut packet, 44), None);
    assert!(s.peek_packet(&mut packet, 44).is_none());
    packet[40] = 129;
    let mut shown = packet.clone();
    let (n, from) = s.peek_packet(&mut shown, 44).unwrap();
    assert_eq!((n, shown[0]), (4, 129));
    assert!(matches!(from, Endpoint::Ip(ep) if ep.addr == IpAddress::Ipv6(Ipv6Address { bits: 1 })));
    assert!(s.remote_endpoint().is_none());
    assert_eq!(s.take_packet(&mut packet, 44), Some(4));
    assert_eq!(packet[0], 129);
    assert!(matches!(s.remote_endpoint(), Some(Endpoint::Ip(ep)) if ep.addr == IpAddress::Ipv6(Ipv6Address { bits: 1 })));
}

#[test]
fn a_raw_socket_sends_bytes_without_a_target_as_they_are() {
    let (mut ns, globals) = leased();
    let s = RawSocket::new(1, IpVersion::Ipv4, vec![RouteSocketHandle(5)]);
    let big = vec![9u8; 70000];
    let sent = s.try_sendmsg(&big, &None, &mut ns, &globals).unwrap();
    assert_eq!(sent.packet, big);
    assert_eq!(sent.rebind, None);
}

#[test]
fn receiving_goes_by_the_plan_of_the_call() {
    let (mut ns, globals) = leased();
    let (mut u, a, b) = udp_pair();
    bind_udp(&mut u, &ns, a, v4(127, 0, 0, 1), 4000);
    bind_udp(&mut u, &ns, b, v4(127, 0, 0, 1), 4001);
    let dest = Some(at(v4(127, 0, 0, 1), 4001));
    u.try_sendmsg(a, b"hello", &dest, false, &mut ns, &globals).unwrap();
    let mut s = u.sockets.take(b).unwrap();
    let mut buf = [0u8; 3];
    assert_eq!(receive_udp(RecvVia::Peek, &mut s, &mut buf).unwrap().0, 3);
    assert_eq!(receive_udp(RecvVia::Message, &mut s, &mut buf).unwrap().0, 3);
    assert_eq!(&buf, b"hel");
    assert!(receive_udp(RecvVia::Message, &mut s, &mut buf).is_err());
    let mut r = RawSocket::new(1, IpVersion::Ipv4, vec![RouteSocketHandle(5)]);
    let mut packet = vec![0u8; 24];
    packet[12..16].copy_from_slice(&[10, 0, 2, 2]);
    let want = IpEndpoint::new(v4(10, 0, 2, 2), 0);
    let (n, from) = receive_raw(RecvVia::Peek, &mut r, &mut packet, 24).unwrap();
    assert!(n == 24 && matches!(from, Some(Endpoint::Ip(ep)) if ep == want));
    assert!(r.remote_endpoint().is_none());
    let (n, from) = receive_raw(RecvVia::Message, &mut r, &mut packet, 24).unwrap();
    assert!(n == 24 && matches!(from, Some(Endpoint::Ip(ep)) if ep == want));
    let mut t = TcpSocket::new(IpVersion::Ipv4);
    let io = StackIo { before: None, moved: None, after: vec![] };
    assert_eq!(
        receive_tcp(RecvVia::Peek, &mut t, &mut buf, None, &io).unwrap_err(),
        SyscallErr::EINVAL
    );
    let mut k = NetlinkSocket::new(0);
    assert!(k.push_recv(vec![1, 2, 3, 4, 5]));
    assert_eq!(receive_netlink(RecvVia::Peek, &mut k, &mut buf).unwrap().0, 5);
    assert_eq!(receive_netlink(RecvVia::Message, &mut k, &mut buf).unwrap().0, 5);
    assert_eq!(buf, [1, 2, 3]);
    let mut p = PacketSocket::new(3);
    assert_eq!(receive_packet(RecvVia::Peek, &mut p, &mut buf).unwrap_err(), SyscallErr::EAGAIN);
}

#[test]
fn the_checksum_over_ipv6_is_that_of_the_pseudo_header() {
    let one = Ipv6Address { bits: 1 };
    assert_eq!(ipv6_pseudo_header_checksum(one, one, 2, 58, &[0, 0]), 0xffff - 62);
    assert_eq!(ipv6_pseudo_header_checksum(one, one, 3, 58, &[1, 2, 3]), 0xffff - (63 + 0x0102 + 0x0300));
}

#[test]
fn a_listener_hands_out_connections() {
    let (ns, _) = leased();
    let mut l = TcpSocket::new(IpVersion::Ipv4);
    l.bind(&ns, &at(v4(0, 0, 0, 0), 8080), 40000).unwrap();
    let plan = l.listen(&ns, 10, 40000).unwrap();
    assert_eq!(plan.backlog, 10);
    assert_eq!(plan.listen_addr, IpListenEndpoint { addr: None, port: 8080 });
    l.finish_listen(
        &ns,
        plan,
        ListenOutcome::Listening(RouteSocketHandle(3)),
        &vec![Replacement::Added(RouteSocketHandle(4))],
    )
    .unwrap();
    let idle = vec![Some(status(TcpState::Listen, false, false)); 2];
    assert_eq!(
        l.accept(&idle, Replacement::NotAdded, Some(2)).unwrap_err(),
        SyscallErr::EAGAIN
    );
    let ready = vec![
        Some(status(TcpState::Listen, false, false)),
        Some(status(TcpState::Established, true, false)),
    ];
    let (conn, peer) = l.accept(&ready, Replacement::Added(RouteSocketHandle(9)), Some(2)).unwrap();
    assert_eq!(peer, IpEndpoint::new(v4(10, 0, 2, 2), 4000));
    assert_eq!(conn.bound_inner().bound_port, 8080);
    assert_eq!(conn.tcp_state(Some(status(TcpState::Established, true, false))), Some(1));
}

#[test]
fn a_listen_plan_has_room_for_one_at_least() {
    let (ns, _) = leased();
    let mut a = TcpSocket::new(IpVersion::Ipv4);
    a.bind(&ns, &at(v4(0, 0, 0, 0), 8080), 40000).unwrap();
    assert_eq!(a.listen(&ns, 0, 40000).unwrap().backlog, 1);
    let mut b = TcpSocket::new(IpVersion::Ipv4);
    b.bind(&ns, &at(v4(0, 0, 0, 0), 8081), 40000).unwrap();
    assert_eq!(b.listen(&ns, 4096, 40000).unwrap().backlog, 16);
}

#[test]
fn a_handshake_ends_in_a_connection_or_a_refusal() {
    let (mut ns, globals) = leased();
    let mut removals: Vec<RouteSocketHandle> = Vec::new();
    let mut s = TcpSocket::new(IpVersion::Ipv4);
    let plan = s.connect(&mut ns, &globals, &at(v4(10, 0, 2, 2), 4000), 40000).unwrap();
    assert_eq!(plan.ifindex, 2);
    assert_eq!(plan.local, IpEndpoint::new(v4(10, 0, 2, 15), 40000));
    s.finish_connect(&ns, plan, ConnectOutcome::Started(RouteSocketHandle(7))).unwrap();
    let syn = Some(status(TcpState::SynSent, false, false));
    assert_eq!(s.try_connect(syn, &mut removals), Err(SyscallErr::EAGAIN));
    let up = Some(status(TcpState::Established, true, false));
    assert_eq!(s.try_connect(up, &mut removals), Ok(0));
    assert!(removals.is_empty());

    let mut t = TcpSocket::new(IpVersion::Ipv4);
    let plan = t.connect(&mut ns, &globals, &at(v4(10, 0, 2, 2), 4000), 40001).unwrap();
    t.finish_connect(&ns, plan, ConnectOutcome::Started(RouteSocketHandle(8))).unwrap();
    let down = Some(status(TcpState::Closed, false, false));
    assert_eq!(t.try_connect(down, &mut removals), Err(SyscallErr::ECONNREFUSED));
}

#[test]
fn a_connection_is_closed_by_the_stack() {
    let (mut ns, globals) = leased();
    let mut removals: Vec<RouteSocketHandle> = Vec::new();
    let mut s = TcpSocket::new(IpVersion::Ipv4);
    let plan = s.connect(&mut ns, &globals, &at(v4(10, 0, 2, 2), 4000), 40000).unwrap();
    s.finish_connect(&ns, plan, ConnectOutcome::Started(RouteSocketHandle(7))).unwrap();
    let up = Some(status(TcpState::Established, true, false));
    s.try_connect(up, &mut removals).unwrap();
    let (order, _) = s.shutdown(1).unwrap();
    assert!(matches!(order, Some(o) if o.handle == RouteSocketHandle(7) && o.op == TcpOp::Close));
    let io = StackIo { before: up, moved: Some(1), after: vec![up] };
    assert_eq!(
        s.try_send(b"x", None, None, &io, &mut removals),
        Err(SyscallErr::EPIPE)
    );
    let (order, _) = s.shutdown(2).unwrap();
    assert!(matches!(order, Some(o) if o.op == TcpOp::Abort));
    assert_eq!(
        TcpSocket::new(IpVersion::Ipv4).shutdown(1).unwrap_err(),
        SyscallErr::ENOTCONN
    );
}

#[test]
fn bytes_come_from_the_stack_until_the_peer_is_done() {
    let (mut ns, globals) = leased();
    let mut removals: Vec<RouteSocketHandle> = Vec::new();
    let mut s = TcpSocket::new(IpVersion::Ipv4);
    let mut buf = [0u8; 8];
    let plan = s.connect(&mut ns, &globals, &at(v4(10, 0, 2, 2), 4000), 40000).unwrap();
    s.finish_connect(&ns, plan, ConnectOutcome::Started(RouteSocketHandle(7))).unwrap();
    let up = Some(status(TcpState::Established, true, true));
    s.try_connect(up, &mut removals).unwrap();
    let io = StackIo { before: up, moved: Some(5), after: vec![up] };
    assert_eq!(s.try_peek(&mut buf, None, &io), Ok(5));
    assert_eq!(s.try_recv(&mut buf, None, &io), Ok(5));
    let idle = Some(status(TcpState::Established, true, false));
    let io = StackIo { before: idle, moved: None, after: vec![idle] };
    assert_eq!(s.try_recv(&mut buf, None, &io), Err(SyscallErr::EAGAIN));
    let done = Some(status(TcpState::CloseWait, true, false));
    let io = StackIo { before: done, moved: None, after: vec![done] };
    assert_eq!(s.try_recv(&mut buf, None, &io), Ok(0));
    let reset = Some(status(TcpState::Closed, false, false));
    let io = StackIo { before: reset, moved: None, after: vec![reset] };
    assert_eq!(s.try_recv(&mut buf, None, &io), Err(SyscallErr::ECONNRESET));
}
