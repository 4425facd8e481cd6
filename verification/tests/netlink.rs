use kernel_net::error::SyscallErr;
use kernel_net::neighbour::NeighbourTable;
use kernel_net::net_core;
use kernel_net::net_core::{NetGlobals, NetNamespace};
use kernel_net::socket::netlink;
use kernel_net::socket::netlink::attr;
use kernel_net::socket::netlink::netlink as wire_format;
use kernel_net::socket::netlink::route;
use kernel_net::socket::netlink::route::addr;
use kernel_net::socket::netlink::route::link;
use kernel_net::socket::netlink::route::link::LinkStep;
use kernel_net::socket::netlink::route::{handle_netlink_msg, RouteState};
use kernel_net::socket::netlink::segment::{CMsgSegHdr, LinkSegment, RouteNlSegment};
use kernel_net::socket::netlink::NetlinkSocket;
use kernel_net::socket::Endpoint;
use kernel_net::wire::{IpAddress, IpCidr, Ipv4Address};

const RTM_NEWLINK: u16 = 16;
const RTM_GETLINK: u16 = 18;
const RTM_NEWADDR: u16 = 20;
const RTM_DELADDR: u16 = 21;
const RTM_NEWROUTE: u16 = 24;
const RTM_DELROUTE: u16 = 25;
const RTM_NEWNEIGH: u16 = 28;
const RTM_GETNEIGH: u16 = 30;
const NLM_F_REQUEST: u16 = 1;
const NLM_F_ACK: u16 = 4;
const NLM_F_DUMP: u16 = 0x300;
const NLM_F_CREATE: u16 = 0x400;

fn state() -> RouteState {
    let mut ns = NetNamespace::new();
    net_core::init(&mut ns, Some([2, 0, 0, 0, 0, 1]));
    RouteState {
        ns,
        globals: NetGlobals::new(),
        neighbours: NeighbourTable::new(),
        stack_ops: Vec::new(),
    }
}

fn addr_body(prefix: u8, index: u32, ip: [u8; 4]) -> Vec<u8> {
    let mut b = vec![2, prefix, 0, 0];
    b.extend_from_slice(&index.to_le_bytes());
    b.extend_from_slice(&wire_format::rta_data(2, &ip));
    b
}

fn error_of(msg: &[u8]) -> i32 {
    assert_eq!(u16::from_le_bytes([msg[4], msg[5]]), 2);
    i32::from_le_bytes([msg[16], msg[17], msg[18], msg[19]])
}

fn ask(sock: &mut NetlinkSocket, net: &mut RouteState, ty: u16, flags: u16, body: &[u8]) -> Result<LinkStep, SyscallErr> {
    let msg = wire_format::build_nlmsg(ty, flags, 7, 99, body);
    handle_netlink_msg(&msg, sock, net)
}

fn next(sock: &mut NetlinkSocket) -> Vec<u8> {
    let mut buf = [0u8; 4096];
    let n = sock.try_recv(&mut buf).unwrap();
    buf[..n as usize].to_vec()
}

#[test]
fn an_attribute_is_padded() {
    assert_eq!(wire_format::rta_data(3, b"lo\0"), vec![7, 0, 3, 0, b'l', b'o', 0, 0]);
    let parsed = attr::parse_attrs(&wire_format::rta_data(3, b"lo\0"), 0);
    assert_eq!(parsed.len(), 1);
    assert_eq!(parsed[0].ty, 3);
    assert_eq!(parsed[0].data, b"lo\0");
    assert_eq!(attr::find_last_text(&parsed, 3), Some("lo".to_string()));
    assert_eq!(route::nlmsg_align(17), 20);
}

#[test]
fn a_message_has_a_header() {
    let m = wire_format::build_nlmsg(18, 0x301, 7, 99, &[1, 2, 3]);
    assert_eq!(&m[..4], &20u32.to_le_bytes());
    assert_eq!(&m[4..8], &[18, 0, 1, 3]);
    assert_eq!(&m[8..12], &7u32.to_le_bytes());
    assert_eq!(&m[12..16], &99u32.to_le_bytes());
    assert_eq!(route::parse_nlmsg(&m), Some((18, 0x301, 7, 99)));
    assert_eq!(route::parse_nlmsg(&m[..10]), None);
}

#[test]
fn interfaces_are_dumped() {
    let mut net = state();
    let mut sock = NetlinkSocket::new(0);
    ask(&mut sock, &mut net, RTM_GETLINK, NLM_F_REQUEST | NLM_F_DUMP, &[0; 16]).unwrap();
    let first = next(&mut sock);
    assert_eq!(u16::from_le_bytes([first[4], first[5]]), RTM_NEWLINK);
    let name = attr::find_last_text(&attr::parse_attrs(&first[16..], 16), 3);
    assert_eq!(name, Some("lo".to_string()));
    let second = next(&mut sock);
    assert_eq!(
        attr::find_last_text(&attr::parse_attrs(&second[16..], 16), 3),
        Some("eth0".to_string())
    );
    let done = next(&mut sock);
    assert_eq!(u16::from_le_bytes([done[4], done[5]]), 3);
    assert!(!sock.socket_r_ready());
}

#[test]
fn an_address_is_added_and_deleted() {
    let mut net = state();
    let mut sock = NetlinkSocket::new(0);
    let body = addr_body(24, 2, [10, 9, 8, 7]);
    let flags = NLM_F_REQUEST | NLM_F_ACK | NLM_F_CREATE;
    ask(&mut sock, &mut net, RTM_NEWADDR, flags, &body).unwrap();
    assert_eq!(error_of(&next(&mut sock)), 0);
    let c = IpCidr::new(IpAddress::Ipv4(Ipv4Address::new(10, 9, 8, 7)), 24);
    assert!(net.ns.device_by_index(2).unwrap().ip_addrs().contains(&c));
    assert!(net.ns.router.lookup_route_owned(Ipv4Address::new(10, 9, 8, 1)).is_some());
    ask(&mut sock, &mut net, RTM_DELADDR, NLM_F_REQUEST | NLM_F_ACK, &body).unwrap();
    assert_eq!(error_of(&next(&mut sock)), 0);
    assert!(!net.ns.device_by_index(2).unwrap().ip_addrs().contains(&c));
}

#[test]
fn an_address_for_no_interface_is_refused() {
    let mut net = state();
    let mut sock = NetlinkSocket::new(0);
    let body = addr_body(24, 77, [10, 9, 8, 7]);
    let _ = ask(&mut sock, &mut net, RTM_NEWADDR, NLM_F_REQUEST | NLM_F_ACK, &body);
    assert!(error_of(&next(&mut sock)) < 0);
    assert!(net.stack_ops.is_empty());
}

#[test]
fn a_route_is_added_and_deleted() {
    let mut net = state();
    let mut sock = NetlinkSocket::new(0);
    let mut body = vec![2, 16, 0, 0, 254, 3, 0, 1, 0, 0, 0, 0];
    body.extend_from_slice(&wire_format::rta_data(1, &[172, 20, 0, 0]));
    body.extend_from_slice(&wire_format::rta_data(4, &2u32.to_le_bytes()));
    let flags = NLM_F_REQUEST | NLM_F_ACK | NLM_F_CREATE;
    ask(&mut sock, &mut net, RTM_NEWROUTE, flags, &body).unwrap();
    assert_eq!(error_of(&next(&mut sock)), 0);
    let found = net.ns.router.lookup_route_owned(Ipv4Address::new(172, 20, 3, 4)).unwrap();
    assert_eq!(found.ifindex, 2);
    ask(&mut sock, &mut net, RTM_DELROUTE, NLM_F_REQUEST | NLM_F_ACK, &body).unwrap();
    assert_eq!(error_of(&next(&mut sock)), 0);
    assert!(net.ns.router.lookup_route_owned(Ipv4Address::new(172, 20, 3, 4)).is_none());
}

#[test]
fn a_neighbour_is_told_and_dumped() {
    let mut net = state();
    let mut sock = NetlinkSocket::new(0);
    let mut body = vec![2, 0, 0, 0, 2, 0, 0, 0, 2, 0, 0, 0];
    body.extend_from_slice(&wire_format::rta_data(1, &[10, 0, 2, 2]));
    body.extend_from_slice(&wire_format::rta_data(2, &[6, 5, 4, 3, 2, 1]));
    let flags = NLM_F_REQUEST | NLM_F_ACK | NLM_F_CREATE;
    ask(&mut sock, &mut net, RTM_NEWNEIGH, flags, &body).unwrap();
    let ip = IpAddress::Ipv4(Ipv4Address::new(10, 0, 2, 2));
    assert_eq!(net.neighbours.get(2, ip).unwrap().mac.octets, [6, 5, 4, 3, 2, 1]);
    ask(&mut sock, &mut net, RTM_GETNEIGH, NLM_F_REQUEST | NLM_F_DUMP, &[0; 12]).unwrap();
    let row = next(&mut sock);
    assert_eq!(u16::from_le_bytes([row[4], row[5]]), RTM_NEWNEIGH);
}

#[test]
fn a_pair_of_links_is_asked_for() {
    let mut net = state();
    let mut sock = NetlinkSocket::new(0);
    let mut body = vec![0u8; 16];
    body.extend_from_slice(&wire_format::rta_data(3, b"va\0"));
    let mut peer = vec![0u8; 16];
    peer.extend_from_slice(&wire_format::rta_data(3, b"vb\0"));
    let data = wire_format::rta_data(1, &peer);
    let mut info = wire_format::rta_data(1, b"veth\0");
    info.extend_from_slice(&wire_format::rta_data(2, &data));
    body.extend_from_slice(&wire_format::rta_data(18, &info));
    match ask(&mut sock, &mut net, RTM_NEWLINK, NLM_F_REQUEST | NLM_F_CREATE, &body) {
        Ok(LinkStep::CreateVeth { name1, name2 }) => {
            assert_eq!(name1, "va");
            assert_eq!(name2, "vb");
        }
        other => panic!("{:?}", other),
    }
}

#[test]
fn an_unknown_request_is_refused() {
    let mut net = state();
    let mut sock = NetlinkSocket::new(0);
    let _ = ask(&mut sock, &mut net, 4000, NLM_F_REQUEST | NLM_F_ACK, &[0; 16]);
    assert!(error_of(&next(&mut sock)) < 0);
}

#[test]
fn a_netlink_socket_gets_a_port() {
    let mut s = NetlinkSocket::new(0);
    let mut next_portid = 1000u32;
    s.bind(&Endpoint::Netlink(0), &mut next_portid).unwrap();
    assert_eq!(s.local_portid(), 1000);
    assert_eq!(next_portid, 1001);
    assert!(matches!(s.local_endpoint(), Some(Endpoint::Netlink(1000))));
    let mut t = NetlinkSocket::new(0);
    t.bind(&Endpoint::Netlink(42), &mut next_portid).unwrap();
    assert!(matches!(t.local_endpoint(), Some(Endpoint::Netlink(0))));
}

#[test]
fn messages_stay_apart_and_in_order() {
    let mut s = NetlinkSocket::new(0);
    assert!(s.push_recv(vec![1, 2]));
    assert!(s.push_recv(vec![3]));
    let mut buf = [0u8; 8];
    assert_eq!(s.try_peek_recvmsg(&mut buf).unwrap().0, 2);
    assert_eq!(s.try_recv(&mut buf), Ok(2));
    assert_eq!(&buf[..2], &[1, 2]);
    assert_eq!(s.try_recvmsg(&mut buf).unwrap().0, 1);
    assert_eq!(s.try_recv(&mut buf), Err(SyscallErr::EAGAIN));
}

#[test]
fn several_requests_share_a_buffer() {
    let a = wire_format::build_nlmsg(18, 1, 1, 0, &[0; 3]);
    let mut both = a.clone();
    both.extend_from_slice(&wire_format::build_nlmsg(18, 1, 2, 0, &[0; 4]));
    assert_eq!(netlink::next_request(&both, 0), Some(20));
    assert_eq!(netlink::advance(0, 20, both.len()), 20);
    assert_eq!(netlink::next_request(&both, 20), Some(20));
    assert_eq!(netlink::next_request(&both, 40), None);
    assert_eq!(netlink::sendmsg_result(40, 40), Ok(40));
}

#[test]
fn a_pair_whose_creation_cannot_be_acknowledged_goes_again() {
    let net = state();
    let request = wire_format::build_nlmsg(RTM_NEWLINK, NLM_F_REQUEST, 7, 99, &[0; 16]);
    let mut sock = NetlinkSocket::new(0);
    let (undo, r) = route::finish_pair(7, 99, &request, true, &mut sock, &net);
    assert!(!undo);
    assert!(matches!(r, Ok(LinkStep::Replied)));
    assert_eq!(error_of(&next(&mut sock)), 0);
    while sock.push_recv(vec![0; 4]) {}
    let (undo, r) = route::finish_pair(7, 99, &request, true, &mut sock, &net);
    assert!(undo);
    assert_eq!(r.unwrap_err(), SyscallErr::ENOBUFS);
    assert!(!route::finish_pair(7, 99, &request, false, &mut sock, &net).0);
}

#[test]
fn a_link_moves_to_another_namespace() {
    let mut net = state();
    let mut sock = NetlinkSocket::new(0);
    let mut other = NetNamespace::new();
    net_core::init(&mut other, None);
    let mut body = vec![0u8; 4];
    body.extend_from_slice(&2u32.to_le_bytes());
    body.extend_from_slice(&[0; 8]);
    body.extend_from_slice(&wire_format::rta_data(19, &42u32.to_le_bytes()));
    let request = wire_format::build_nlmsg(RTM_NEWLINK, NLM_F_REQUEST, 7, 99, &body);
    assert!(route::check_request(&request, &net));
    match handle_netlink_msg(&request, &mut sock, &mut net) {
        Ok(LinkStep::Move { nic_id, target_pid }) => assert_eq!((nic_id, target_pid), (2, 42)),
        other => panic!("{:?}", other),
    }
    link::finish_move(7, 99, &request, false, &mut sock, &net).unwrap();
    assert_eq!(error_of(&next(&mut sock)), -3);
    link::finish_move(7, 99, &request, true, &mut sock, &net).unwrap();
    assert_eq!(error_of(&next(&mut sock)), 0);
    link::move_device(&mut net.ns, &mut other, 2);
    assert!(net_core::find_by_name(&net.ns, "eth0").is_none());
    assert!(net_core::find_by_name(&other, "eth0").is_some());
}

#[test]
fn a_name_for_the_other_end_is_made_up() {
    let mut net = state();
    assert_eq!(link::infer_veth_peer_name(&mut net, "veth_t01"), "veth_t02");
    assert_eq!(link::infer_veth_peer_name(&mut net, "eth9"), "eth10");
    assert_eq!(link::infer_veth_peer_name(&mut net, "bridge"), "veth0");
}

#[test]
fn a_prefix_longer_than_its_address_is_not_taken() {
    let net = state();
    let fits = wire_format::build_nlmsg(RTM_NEWADDR, NLM_F_REQUEST, 1, 0, &addr_body(24, 2, [10, 0, 0, 1]));
    assert!(route::check_request(&fits, &net));
    let long = wire_format::build_nlmsg(RTM_NEWADDR, NLM_F_REQUEST, 1, 0, &addr_body(33, 2, [10, 0, 0, 1]));
    assert!(!route::check_request(&long, &net));
}

#[test]
fn a_dump_of_nothing_is_ended_too() {
    let mut list: Vec<RouteNlSegment> = Vec::new();
    route::finish_response(&mut list, false);
    assert!(list.is_empty());
    route::finish_response(&mut list, true);
    assert_eq!(list.len(), 1);
    match &list[0] {
        RouteNlSegment::Done(d) => {
            assert_eq!((d.header.flags, d.header.seq, d.body.error_code), (2, 0, 0))
        }
        _ => panic!("no end"),
    }
}

#[test]
fn an_error_of_several_is_marked() {
    let head = CMsgSegHdr { len: 16, type_: 18, flags: 0, seq: 1, pid: 2 };
    let mut list = vec![RouteNlSegment::Error(route::build_nlmsg_error(&head, 22))];
    route::finish_response(&mut list, false);
    match &list[0] {
        RouteNlSegment::Error(e) => assert_eq!((e.header.flags & 2, e.body.error_code), (2, -22)),
        _ => panic!("no error"),
    }
}

#[test]
fn an_address_that_must_be_new_is_not_replaced() {
    let mut net = state();
    let mut sock = NetlinkSocket::new(0);
    let body = addr_body(24, 2, [10, 9, 8, 7]);
    ask(&mut sock, &mut net, RTM_NEWADDR, NLM_F_REQUEST | NLM_F_ACK | NLM_F_CREATE, &body).unwrap();
    assert_eq!(error_of(&next(&mut sock)), 0);
    let routes = net.ns.router.table.entries.len();
    let msg = wire_format::build_nlmsg(RTM_NEWADDR, 0, 7, 99, &body);
    for flags in [0, wire_format::NLM_F_EXCL, wire_format::NLM_F_EXCL | wire_format::NLM_F_REPLACE] {
        assert_eq!(
            addr::handle_newaddr(7, 99, flags, &msg, &mut sock, &mut net),
            Err(SyscallErr::EEXIST)
        );
        assert!(!sock.socket_r_ready());
        assert_eq!(net.ns.router.table.entries.len(), routes);
        assert_eq!(net.ns.device_by_index(2).unwrap().ip_addrs().len(), 1);
    }
    assert!(addr::handle_newaddr(7, 99, wire_format::NLM_F_REPLACE, &msg, &mut sock, &mut net).is_ok());
    assert_eq!(error_of(&next(&mut sock)), 0);
}

#[test]
fn a_segment_is_read_and_written() {
    let head = CMsgSegHdr { len: 32, type_: 18, flags: 1, seq: 5, pid: 6 };
    let link = wire_format::build_nlmsg(18, 1, 5, 6, &[0, 0, 1, 0, 2, 0, 0, 0, 3, 0, 0, 0, 4, 0, 0, 0]);
    let seg = LinkSegment::read_from_buf(&link).unwrap();
    assert_eq!(seg.header, head);
    assert_eq!((seg.body.type_, seg.body.index, seg.body.flags, seg.body.change), (1, 2, 3, 4));
    assert_eq!(LinkSegment::read_from_buf(&link[..20]).err(), Some(-22));
    let ack = route::build_nlmsg_ack(&head);
    assert_eq!(ack.body.error_code, 0);
    let bytes = ack.to_bytes();
    assert_eq!(bytes.len(), 36);
    assert_eq!(&bytes[4..6], &[2, 0]);
    assert_eq!(&bytes[20..24], &32u32.to_le_bytes());
    let mut list = vec![RouteNlSegment::GetLink(seg)];
    route::finish_response(&mut list, true);
    assert_eq!(list.len(), 2);
    match &list[1] {
        RouteNlSegment::Done(d) => {
            assert_eq!((d.header.seq, d.header.pid, d.header.flags), (5, 6, 2));
            assert_eq!(d.body.error_code, 0);
        }
        _ => panic!("no end"),
    }
    match &list[0] {
        RouteNlSegment::GetLink(g) => assert_eq!(g.header.flags, 3),
        _ => panic!("no link"),
    }
    assert_eq!(route::rta_align(5), 8);
}
