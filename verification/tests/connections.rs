use kernel_net::error::SyscallErr;
use kernel_net::net_core;
use kernel_net::net_core::{NetGlobals, NetNamespace};
use kernel_net::routing::RouteSocketHandle;
use kernel_net::socket;
use kernel_net::socket::inet::common::bound::BoundInner;
use kernel_net::socket::inet::stream::inner::{
    Connecting, Init, Inner, ListenerPlan, Listening, TcpBuffers, TcpState, TcpStatus,
};
use kernel_net::socket::inet::stream::lifecycle::{ConnectOutcome, ListenOutcome};
use kernel_net::socket::inet::stream::{
    record_tcp_recv_perf, FastIo, PollRequest, RecvPerf, StackAsk, StackIo, TcpSocket,
};
use kernel_net::socket::{Endpoint, RawSlot, SocketSlot};
use kernel_net::wire::{IpAddress, IpCidr, IpEndpoint, IpListenEndpoint, IpVersion, Ipv4Address};

fn v4(a: u8, b: u8, c: u8, d: u8) -> IpAddress {
    IpAddress::Ipv4(Ipv4Address::new(a, b, c, d))
}

fn machine() -> (NetNamespace, NetGlobals) {
    let mut ns = NetNamespace::new();
    net_core::init(&mut ns, Some([2, 0, 0, 0, 0, 1]));
    let mut globals = NetGlobals::new();
    net_core::set_eth0_ipv4(&mut ns, &mut globals, IpCidr::new(v4(10, 0, 2, 15), 24));
    globals.set_default_gateway(Some(Ipv4Address::new(10, 0, 2, 2)));
    (ns, globals)
}

fn word(state: TcpState, can_send: bool, can_recv: bool) -> TcpStatus {
    TcpStatus {
        state,
        can_send,
        can_recv,
        may_recv: true,
        local: Some(IpEndpoint::new(v4(10, 0, 2, 15), 40000)),
        remote: Some(IpEndpoint::new(v4(10, 0, 2, 2), 80)),
        send_capacity: 65536,
        recv_capacity: 65536,
    }
}

/// A socket whose handshake with 10.0.2.2:80 is under way over route 7.
fn connecting() -> TcpSocket {
    let (mut ns, globals) = machine();
    let mut s = TcpSocket::new(IpVersion::Ipv4);
    let to = Endpoint::Ip(IpEndpoint::new(v4(10, 0, 2, 2), 80));
    let plan = s.connect(&mut ns, &globals, &to, 40000).unwrap();
    assert_eq!(plan.local, IpEndpoint::new(v4(10, 0, 2, 15), 40000));
    assert_eq!(plan.ifindex, 2);
    s.finish_connect(&ns, plan, ConnectOutcome::Started(RouteSocketHandle(7))).unwrap();
    s
}

#[test]
fn a_handshake_is_followed_to_its_end() {
    let mut s = connecting();
    let mut gone = Vec::new();
    assert_eq!(s.check_connect(Some(word(TcpState::SynSent, false, false)), &mut gone), Err(SyscallErr::EAGAIN));
    assert_eq!(s.try_connect(Some(word(TcpState::SynSent, false, false)), &mut gone), Err(SyscallErr::EAGAIN));
    assert_eq!(s.plan_recv(), StackAsk::Nothing);
    assert_eq!(s.try_connect(Some(word(TcpState::Established, true, false)), &mut gone), Ok(0));
    assert!(gone.is_empty());
    assert_eq!(s.fast_key_established(), Some((RouteSocketHandle(7), 2)));
    assert_eq!(s.inner.stack_handles(), vec![RouteSocketHandle(7)]);
    assert_eq!(
        s.plan_recv(),
        StackAsk::Fast { route: RouteSocketHandle(7), ifindex: 2, own: Some(RouteSocketHandle(7)) }
    );
    assert_eq!(s.plan_send(None), s.plan_recv());
}

#[test]
fn a_refused_handshake_gives_its_handle_back() {
    let mut s = connecting();
    let mut gone = Vec::new();
    assert_eq!(s.try_connect(None, &mut gone), Err(SyscallErr::ECONNREFUSED));
    assert!(gone.is_empty());
    let closed = Some(word(TcpState::Closed, false, false));
    assert_eq!(s.try_connect(closed, &mut gone), Err(SyscallErr::ECONNREFUSED));
    assert_eq!(gone, vec![RouteSocketHandle(7)]);
    assert!(matches!(s.inner, Inner::Init(Init::Unbound(_, IpVersion::Ipv4))));
}

#[test]
fn a_connect_that_the_stack_refuses_leaves_its_error() {
    let (mut ns, globals) = machine();
    let mut s = TcpSocket::new(IpVersion::Ipv4);
    let to = Endpoint::Ip(IpEndpoint::new(v4(10, 0, 2, 2), 80));
    let plan = s.connect(&mut ns, &globals, &to, 40000).unwrap();
    assert_eq!(s.finish_connect(&ns, plan, ConnectOutcome::Refused), Err(SyscallErr::ECONNREFUSED));
    assert_eq!(s.take_error(), Some(SyscallErr::ECONNREFUSED));
    assert_eq!(s.take_error(), None);
}

#[test]
fn bytes_move_over_the_fast_key() {
    let mut s = connecting();
    let mut gone = Vec::new();
    s.try_connect(Some(word(TcpState::Established, true, false)), &mut gone).unwrap();
    let none = StackIo { before: None, moved: None, after: vec![] };
    let io = FastIo {
        before: word(TcpState::Established, true, false),
        moved: Some(3),
        after: word(TcpState::Established, true, false),
    };
    assert_eq!(s.try_send(b"abc", None, Some(io), &none, &mut gone), Ok(3));
    assert_eq!(s.poll_before_send(), PollRequest::Skip);
    assert_eq!(s.poll_before_recv(), PollRequest::Stack(2));
    let mut buf = [0u8; 8];
    let io = FastIo {
        before: word(TcpState::Established, true, true),
        moved: Some(5),
        after: word(TcpState::Established, true, false),
    };
    assert_eq!(s.try_recv(&mut buf, Some(io), &none), Ok(5));
    let empty = FastIo {
        before: word(TcpState::Established, true, false),
        moved: None,
        after: word(TcpState::Established, true, false),
    };
    assert_eq!(s.try_recv(&mut buf, Some(empty), &none), Err(SyscallErr::EAGAIN));
    // A key that leads nowhere is given up.
    let after = vec![Some(word(TcpState::Established, true, false))];
    let own = StackIo { before: Some(word(TcpState::Established, true, true)), moved: Some(2), after };
    assert_eq!(s.try_recv(&mut buf, None, &own), Ok(2));
    assert_eq!(s.fast_key_established(), None);
    assert_eq!(s.plan_recv(), StackAsk::Own(RouteSocketHandle(7)));
}

#[test]
fn user_memory_that_fails_is_reported() {
    let mut s = connecting();
    let mut gone = Vec::new();
    s.try_connect(Some(word(TcpState::Established, true, true)), &mut gone).unwrap();
    let after = vec![Some(word(TcpState::Established, true, true))];
    assert_eq!(s.try_recv_user(10, Ok(4), Some(4), &after), Ok(4));
    assert_eq!(s.try_recv_user(10, Ok(4), None, &after), Err(SyscallErr::EFAULT));
    assert_eq!(s.try_recv_user(0, Err(SyscallErr::EAGAIN), None, &after), Ok(0));
    let io = StackIo { before: Some(word(TcpState::Established, true, true)), moved: Some(2), after };
    assert_eq!(s.try_send_user(None, None, &io, &mut gone), Err(SyscallErr::EFAULT));
    assert_eq!(s.try_send_user(Some(b"ab"), None, &io, &mut gone), Ok(2));
}

#[test]
fn only_events_that_come_up_wake() {
    let mut s = connecting();
    let mut gone = Vec::new();
    s.try_connect(Some(word(TcpState::Established, false, false)), &mut gone).unwrap();
    let quiet = s.wake_if_ready(&vec![Some(word(TcpState::Established, false, false))]);
    assert!(!quiet.recv.epollin);
    let first = s.wake_if_ready(&vec![Some(word(TcpState::Established, false, true))]);
    assert!(first.recv.epollin);
    assert!(!first.send.epollout);
    let again = s.wake_if_ready(&vec![Some(word(TcpState::Established, false, true))]);
    assert!(!again.recv.epollin);
    let all = s.wake_wait_queues();
    assert!(all.accept.epollhup && all.connect.epollhup && all.recv.epollhup && all.send.epollhup);
}

#[test]
fn a_listener_plans_its_further_sockets() {
    let (ns, _) = machine();
    let mut s = TcpSocket::new(IpVersion::Ipv4);
    s.bind(&ns, &Endpoint::Ip(IpEndpoint::new(v4(0, 0, 0, 0), 8080)), 0).unwrap();
    let plan = s.listen(&ns, 10, 0).unwrap();
    assert_eq!(plan.backlog, 10);
    assert_eq!(plan.further, TcpBuffers { rx: 32768, tx: 32768 });
    assert_eq!(plan.listen_addr, IpListenEndpoint { addr: None, port: 8080 });
    s.finish_listen(&ns, plan, ListenOutcome::Listening(RouteSocketHandle(3)), &vec![]).unwrap();
    let status = vec![Some(word(TcpState::Listen, false, false))];
    assert!(!s.refresh_accept_ready_after_poll(&status));
    assert!(s.refresh_accept_ready_after_poll(&vec![Some(word(TcpState::Established, true, false))]));
}

#[test]
fn the_place_of_an_accepted_listener_is_filled() {
    let at = IpListenEndpoint { addr: Some(v4(10, 0, 2, 15)), port: 8080 };
    let l = Listening::new(vec![RouteSocketHandle(3)], at);
    let plan = l.plan_replacement(Some(2));
    assert_eq!((plan.listen_addr, plan.ifindex), (at, 2));
    let lost: ListenerPlan = l.plan_replacement(None);
    assert_eq!(lost.ifindex, 1);
    assert_eq!(lost.socket, kernel_net::socket::inet::stream::inner::new_socket());
}

#[test]
fn a_listener_is_registered_once() {
    let mut open = Vec::new();
    let mut listeners = Vec::new();
    TcpSocket::register_tcp_socket(&mut open, 4);
    TcpSocket::register_as_listener(&mut listeners, &open, 4);
    TcpSocket::register_as_listener(&mut listeners, &open, 4);
    TcpSocket::register_as_listener(&mut listeners, &open, 5);
    assert_eq!(listeners, vec![SocketSlot { id: 4, live: true }]);
}

#[test]
fn closed_sockets_leave_the_registry_when_it_is_walked() {
    let mut open = vec![SocketSlot { id: 1, live: true }, SocketSlot { id: 2, live: false }];
    let woken = socket::wake_tcp_waiters(&mut open);
    assert_eq!(woken, vec![SocketSlot { id: 1, live: true }]);
    assert_eq!(open, vec![SocketSlot { id: 1, live: true }]);
    let mut raws = vec![
        RawSlot { slot: SocketSlot { id: 1, live: true }, can_recv: false },
        RawSlot { slot: SocketSlot { id: 2, live: true }, can_recv: true },
        RawSlot { slot: SocketSlot { id: 3, live: false }, can_recv: true },
    ];
    let woken = socket::wake_raw_waiters(&mut raws);
    assert_eq!(woken.iter().map(|r| r.slot.id).collect::<Vec<u64>>(), vec![2]);
    assert_eq!(raws.len(), 2);
}

#[test]
fn a_socket_is_handed_to_the_stack_unbound() {
    let fresh = Init::new(IpVersion::Ipv4);
    let (handle, local) = fresh.bind_to_smoltcp(50000, Some(RouteSocketHandle(9))).unwrap();
    assert_eq!(handle, RouteSocketHandle(9));
    assert_eq!(local, IpEndpoint::new(v4(0, 0, 0, 0), 50000));
    assert_eq!(fresh.bind_to_smoltcp(50000, None).unwrap_err().1, SyscallErr::EAGAIN);
}

#[test]
fn an_error_of_a_handshake_is_told_once() {
    let ep = IpEndpoint::new(v4(10, 0, 2, 2), 80);
    let mut c = Connecting::new(RouteSocketHandle(1), ep, ep);
    let mut events = kernel_net::event::EPollEvent::empty();
    c.update_io_events(&mut events, Some(word(TcpState::Closed, false, false)));
    assert_eq!(c.failure_reason(), Some(SyscallErr::ECONNREFUSED));
    c.consume_error();
    assert_eq!(c.failure_reason(), None);
}

#[test]
fn a_bound_socket_knows_its_interface() {
    let (ns, _) = machine();
    let mut b = BoundInner::with_iface(2);
    assert!(!b.is_bound());
    b.bind(5, 2, Some(v4(10, 0, 2, 15)), 80);
    assert!(b.is_bound());
    assert_eq!(b.bound_iface(&ns).unwrap().name, "eth0");
}

#[test]
fn receives_are_reported_on() {
    let mut p = RecvPerf { calls: 0, bytes: 0, eagain: 0, zero: 0, requested: 0, last_report: 0 };
    let mut report = None;
    let mut now = 1000;
    let mut calls = 0;
    while report.is_none() && calls < 10_000 {
        report = record_tcp_recv_perf(&mut p, 2048, &Ok(1024), now, 1000);
        now += 100;
        calls += 1;
    }
    let r = report.unwrap();
    assert_eq!(r.average_request, 2048);
    assert_eq!(r.bytes, 1024 * r.calls);
    assert_eq!(p.calls, 0);
}
