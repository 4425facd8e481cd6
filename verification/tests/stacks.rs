use kernel_net::config::dhcp;
use kernel_net::config::directory::{NetDirectory, RebindStep};
use kernel_net::config::interface::NetInterface;
use kernel_net::config::poll::{record_poll_perf, NetPollControl, PollPerf, WorkerAction, WorkerEvent};
use kernel_net::config::removal;
use kernel_net::config::removal::RemovalStep;
use kernel_net::error::SyscallErr;
use kernel_net::net_core;
use kernel_net::net_core::NetNamespace;
use kernel_net::routing::{InetProtocol, RouteSocketHandle};
use kernel_net::socket::inet::raw::raw::{after_stack, raw_placements};
use kernel_net::socket::inet::stream::inner::{TcpOp, TcpState};
use kernel_net::wire::{IpAddress, IpCidr, Ipv4Address};

fn cidr(d: u8) -> IpCidr {
    IpCidr::new(IpAddress::Ipv4(Ipv4Address::new(10, 0, 2, d)), 24)
}

fn started() -> NetInterface {
    let mut n = NetInterface::new();
    n.init();
    n
}

#[test]
fn the_first_stacks_are_those_of_loopback_and_ethernet() {
    let mut n = NetInterface::new();
    assert!(n.stack_arc(1).is_none());
    n.init();
    assert_eq!(n.stack_ifindexes(), vec![1, 2]);
    assert_eq!(n.poll_now(), vec![1, 2]);
    assert!(n.add_veth_stack(5));
    assert!(n.add_veth_stack(5));
    assert_eq!(n.stack_ifindexes(), vec![1, 2, 5]);
    n.remove_veth_stack(5);
    assert_eq!(n.stack_ifindexes(), vec![1, 2]);
}

#[test]
fn a_route_leads_to_its_socket() {
    let mut n = started();
    let r = n.add_routed_socket_on(InetProtocol::Udp, 2, 17).unwrap();
    let s = n.udp_routed_socket(r).unwrap();
    assert_eq!((s.ifindex, s.handle), (2, 17));
    assert!(n.tcp_routed_socket(r).is_none());
    assert!(n.raw_routed_socket(RouteSocketHandle(999)).is_none());
    assert!(n.add_routed_socket_on(InetProtocol::Udp, 9, 1).is_none());
    let gone = n.remove_routed(r).unwrap();
    assert_eq!(gone.handle, 17);
    assert!(n.udp_routed_socket(r).is_none());
    let t = n.add_routed_socket_on(InetProtocol::Tcp, 1, 4).unwrap();
    assert_eq!(n.tcp_connect(t).unwrap().handle, 4);
}

#[test]
fn a_removed_stack_takes_its_routes_along() {
    let mut n = started();
    n.add_veth_stack(5);
    let r = n.add_routed_socket_on(InetProtocol::Raw, 5, 1).unwrap();
    n.remove_veth_stack(5);
    assert!(n.raw_routed_socket(r).is_none());
}

#[test]
fn a_datagram_socket_moves_to_another_stack() {
    let mut n = started();
    let r = n.add_routed_socket_on(InetProtocol::Udp, 1, 3).unwrap();
    assert_eq!(n.rebind_routed_udp(r, 1), RebindStep::There);
    assert!(matches!(n.rebind_routed_udp(r, 2), RebindStep::Move { .. }));
    assert!(n.finish_rebind(r, 2, 8).is_some());
    let s = n.udp_routed_socket(r).unwrap();
    assert_eq!((s.ifindex, s.handle), (2, 8));
}

#[test]
fn a_stack_has_room_for_two_addresses() {
    let n = started();
    let mut addrs: Vec<IpCidr> = Vec::new();
    n.add_ip_to_stack(2, &mut addrs, cidr(1));
    n.add_ip_to_stack(2, &mut addrs, cidr(2));
    n.add_ip_to_stack(2, &mut addrs, cidr(3));
    assert_eq!(addrs, vec![cidr(1), cidr(2)]);
    n.remove_ip_from_stack(2, &mut addrs, cidr(1));
    assert_eq!(addrs, vec![cidr(2)]);
    n.replace_ip_addrs_on_stack(2, &mut addrs, cidr(9));
    assert_eq!(addrs, vec![cidr(9)]);
    n.replace_ip_addrs_on_stack(7, &mut addrs, cidr(1));
    assert_eq!(addrs, vec![cidr(9)]);
    assert_eq!(n.set_stack_mtu(2, 1400), Some(1400));
    assert_eq!(n.set_stack_mtu(7, 1400), None);
    assert_eq!(n.transmit_on_stack(7, 60, true), Err(SyscallErr::ENETDOWN));
    assert_eq!(n.transmit_on_stack(2, 60, true), Ok(60));
}

#[test]
fn a_busy_stack_is_tried_again() {
    let mut n = started();
    assert!(n.try_poll_stack(2, true));
    assert!(!n.try_poll_stack(2, false));
    assert!(n.poll.retry_armed);
    n.poll.pending = false;
    n.run_deferred_poll_retry();
    assert!(n.poll.poll_request_pending());
    assert!(!n.poll.retry_armed);
    assert!(!n.try_poll_stack(9, true));
    let before = n.poll.tcp_cleanup_generation;
    assert_eq!(n.poll_each_stack_bounded(true), vec![1, 2]);
    assert_eq!(n.poll.tcp_cleanup_generation, before);
    n.poll_each_stack_bounded(false);
    assert_eq!(n.poll.tcp_cleanup_generation, before + 1);
}

#[test]
fn requests_to_poll_are_merged() {
    let mut n = started();
    assert!(n.poll.poll_request_pending());
    assert_eq!(n.net_poll_worker(WorkerEvent::Ready), WorkerAction::Poll);
    assert!(n.request_poll());
    assert!(!n.request_poll());
    assert!(n.poll.poll_request_pending());
    assert_eq!(n.net_poll_worker(WorkerEvent::Ready), WorkerAction::Poll);
    assert!(!n.poll.poll_request_pending());
    assert_eq!(n.net_poll_worker(WorkerEvent::Polled), WorkerAction::Wait);
    assert_eq!(
        n.net_poll_worker(WorkerEvent::Interrupted { stopping: true }),
        WorkerAction::Exit
    );
}

#[test]
fn a_connection_is_removed_when_it_is_closed_or_late() {
    let mut q = Vec::new();
    assert!(removal::enqueue_tcp_socket_removal(&mut q, RouteSocketHandle(1), false, 1000));
    assert!(!removal::enqueue_tcp_socket_removal(&mut q, RouteSocketHandle(1), true, 1000));
    assert!(removal::enqueue_tcp_socket_removal(&mut q, RouteSocketHandle(2), true, 1000));
    assert_eq!(q.len(), 2);
    let open = vec![Some(TcpState::Established), Some(TcpState::SynReceived)];
    let orders = removal::begin_socket_removals(&mut q, &open);
    assert_eq!(orders.len(), 2);
    assert_eq!(orders[1].op, TcpOp::Abort);
    let again = removal::begin_socket_removals(&mut q, &open);
    assert!(again.is_empty());
    let (steps, left) = removal::drain_pending_socket_removals(
        &mut q,
        &vec![Some(TcpState::FinWait1), Some(TcpState::Closed)],
        1001,
    );
    assert_eq!(steps, vec![RemovalStep::Remove(RouteSocketHandle(2))]);
    assert!(left);
    let late = q[0].deadline;
    let (steps, left) =
        removal::drain_pending_socket_removals(&mut q, &vec![Some(TcpState::FinWait1)], late);
    assert_eq!(steps, vec![RemovalStep::AbortAndRemove(RouteSocketHandle(1))]);
    assert!(!left);
}

#[test]
fn a_datagram_socket_is_queued_for_removal_once() {
    let mut q: Vec<RouteSocketHandle> = Vec::new();
    assert!(removal::enqueue_udp_socket_removal(&mut q, RouteSocketHandle(4)));
    removal::enqueue_udp_socket_removal(&mut q, RouteSocketHandle(4));
    assert_eq!(q.len(), 1);
}

#[test]
fn polls_are_reported_now_and_then() {
    let mut p = PollPerf {
        samples: 0,
        last_report: 0,
        full_polls: 0,
        full_progress: 0,
        stack_polls: 0,
        stack_progress: 0,
        lock_busy: 0,
        poll_ticks: 0,
        poll_ticks_max: 0,
    };
    assert!(record_poll_perf(&mut p, false, true, false, 10, 5, 1000).is_none());
    assert_eq!(p.full_polls, 1);
    assert_eq!(p.full_progress, 1);
}

#[test]
fn sockets_are_counted() {
    let n = started();
    assert_eq!(n.socket_stats(3, &vec![1, 2], 4), (3, 3, 4, 0));
}

#[test]
fn an_interrupt_leaves_the_wake_for_later() {
    let mut n = started();
    while n.net_poll_worker(WorkerEvent::Ready) == WorkerAction::Poll {}
    assert!(n.try_poll_irq());
    assert!(n.run_deferred_net_wake());
    assert!(!n.run_deferred_net_wake());
    n.notify_rx_interrupt();
    assert!(!n.request_poll());
}

#[test]
fn a_tick_runs_the_stacks_unless_it_is_switched_off() {
    let mut c = NetPollControl::new();
    assert_eq!(c.net_poll_worker(WorkerEvent::Ready), WorkerAction::Wait);
    assert!(c.run_scheduler_tick_net_fallback());
    assert_eq!(c.net_poll_worker(WorkerEvent::Ready), WorkerAction::Poll);
    assert!(c.set_scheduler_tick_net_fallback_enabled_for_test(false));
    assert!(!c.scheduler_tick_net_fallback_enabled());
    assert!(!c.run_scheduler_tick_net_fallback());
    assert!(!c.poll_request_pending());
}

#[test]
fn an_old_timer_counts_no_more() {
    let mut n = started();
    n.poll.worker_started = true;
    n.poll.pending = false;
    removal::enqueue_tcp_socket_removal(&mut n.tcp_removals, RouteSocketHandle(1), false, 0);
    let generation = n.poll.next_cleanup_generation();
    assert_eq!(n.run_tcp_cleanup_timer(generation), (true, true));
    let _ = n.poll.next_cleanup_generation();
    assert_eq!(n.run_tcp_cleanup_timer(generation), (false, false));
}

#[test]
fn closing_connections_are_looked_after_in_time() {
    let mut q = Vec::new();
    assert_eq!(removal::rearm_tcp_cleanup_poll(&q, &vec![5], 0), None);
    removal::enqueue_tcp_socket_removal(&mut q, RouteSocketHandle(1), false, 0);
    assert_eq!(removal::rearm_tcp_cleanup_poll(&q, &vec![], 0), Some(15_000_000));
    assert_eq!(removal::rearm_tcp_cleanup_poll(&q, &vec![9_000, 4_000], 0), Some(4_000));
    assert_eq!(removal::rearm_tcp_cleanup_poll(&q, &vec![4_000], 7_000), Some(7_000));
}

#[test]
fn a_socket_bound_to_no_interface_goes_to_the_default_stack() {
    let mut ns = NetNamespace::new();
    net_core::init(&mut ns, Some([2, 0, 0, 0, 0, 1]));
    assert_eq!(NetDirectory::default_ifindex(&ns), 2);
    let mut n = started();
    assert!(n.add_socket(2));
    assert!(!n.add_socket(3));
    let r = n.add_routed_socket(&ns, InetProtocol::Udp, 4).unwrap();
    assert_eq!(n.udp_routed_socket(r).unwrap().ifindex, 2);
    assert_eq!(n.directory.unwrap().routed_ifindex(r), Some(2));
}

#[test]
fn dns_servers_are_written_one_to_a_line() {
    let servers = vec![Ipv4Address::new(10, 0, 2, 3), Ipv4Address::new(8, 8, 8, 8)];
    assert_eq!(
        dhcp::write_resolv_conf(&servers),
        "nameserver 10.0.2.3\nnameserver 8.8.8.8\n"
    );
    assert_eq!(dhcp::write_resolv_conf(&vec![]), "# no DHCP nameserver\n");
}

#[test]
fn a_raw_socket_gets_a_socket_in_every_stack() {
    assert_eq!(raw_placements(&vec![1, 2, 5]), vec![Some(1), Some(2), Some(5)]);
    assert_eq!(raw_placements(&vec![]), vec![None]);
    assert_eq!(after_stack(None), None);
    assert_eq!(after_stack(Some(Err(SyscallErr::EAGAIN))), None);
    assert_eq!(after_stack(Some(Ok(4))), Some(Ok(4)));
}
