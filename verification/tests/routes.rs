use kernel_net::config;
use kernel_net::config::dhcp;
use kernel_net::config::dhcp::DhcpLeaseEvent;
use kernel_net::error::SyscallErr;
use kernel_net::neighbour::NeighbourTable;
use kernel_net::net_core;
use kernel_net::net_core::{NetGlobals, NetNamespace};
use kernel_net::routing;
use kernel_net::routing::{RouteType, Router};
use kernel_net::wire::{EthernetAddress, IpAddress, IpCidr, Ipv4Address, Ipv6Address};

fn v4(a: u8, b: u8, c: u8, d: u8) -> IpAddress {
    IpAddress::Ipv4(Ipv4Address::new(a, b, c, d))
}

fn leased() -> (NetNamespace, NetGlobals) {
    let mut ns = NetNamespace::new();
    net_core::init(&mut ns, Some([2, 0, 0, 0, 0, 1]));
    let mut globals = NetGlobals::new();
    net_core::set_eth0_ipv4(&mut ns, &mut globals, IpCidr::new(v4(10, 0, 2, 15), 24));
    globals.set_default_gateway(Some(Ipv4Address::new(10, 0, 2, 2)));
    (ns, globals)
}

#[test]
fn own_addresses_stay_on_the_machine() {
    let (mut ns, globals) = leased();
    let d = routing::route_output(&mut ns, &globals, v4(10, 0, 2, 15)).unwrap();
    assert_eq!(d.ifindex, 2);
    assert!(d.is_local);
    assert_eq!(d.source, v4(10, 0, 2, 15));
    let lo = routing::route_output(&mut ns, &globals, v4(127, 9, 9, 9)).unwrap();
    assert_eq!(lo.ifindex, 1);
    assert!(lo.is_local);
    assert_eq!(lo.source, v4(127, 0, 0, 1));
}

#[test]
fn other_addresses_go_through_the_gateway() {
    let (mut ns, globals) = leased();
    let near = routing::route_output(&mut ns, &globals, v4(10, 0, 2, 77)).unwrap();
    assert_eq!(near.ifindex, 2);
    assert_eq!(near.next_hop, None);
    assert!(!near.is_local);
    let far = routing::route_output(&mut ns, &globals, v4(8, 8, 8, 8)).unwrap();
    assert_eq!(far.ifindex, 2);
    assert_eq!(far.next_hop, Some(v4(10, 0, 2, 2)));
    assert_eq!(far.source, v4(10, 0, 2, 15));
    assert_eq!(config::lookup_source_ip(&mut ns, &globals, v4(8, 8, 8, 8)), v4(10, 0, 2, 15));
    assert_eq!(config::route_check(&mut ns, &globals, v4(8, 8, 8, 8)), Ok(()));
}

#[test]
fn there_is_no_way_without_a_route() {
    let mut ns = NetNamespace::new();
    net_core::init(&mut ns, None);
    ns.router.add_route(IpCidr::new(v4(127, 0, 0, 0), 8), None, 1, 0, RouteType::Connected);
    let globals = NetGlobals::new();
    assert_eq!(
        routing::route_output(&mut ns, &globals, v4(8, 8, 8, 8)).unwrap_err(),
        SyscallErr::ENETUNREACH
    );
    assert_eq!(
        config::route_check(&mut ns, &globals, v4(8, 8, 8, 8)),
        Err(SyscallErr::ENETUNREACH)
    );
}

#[test]
fn the_longest_prefix_wins() {
    let mut r = Router::new();
    r.add_route(IpCidr::new(v4(0, 0, 0, 0), 0), Some(v4(10, 0, 0, 1)), 2, 0, RouteType::Default);
    r.add_route(IpCidr::new(v4(10, 1, 0, 0), 16), None, 3, 0, RouteType::Static);
    r.add_route(IpCidr::new(v4(10, 1, 2, 0), 24), None, 4, 50, RouteType::Static);
    assert_eq!(r.lookup_route_owned(Ipv4Address::new(10, 1, 2, 3)).unwrap().ifindex, 4);
    assert_eq!(r.lookup_route_owned(Ipv4Address::new(10, 1, 9, 3)).unwrap().ifindex, 3);
    assert_eq!(r.lookup_route_owned(Ipv4Address::new(9, 1, 9, 3)).unwrap().ifindex, 2);
    r.remove_route(&IpCidr::new(v4(10, 1, 2, 0), 24));
    assert_eq!(r.lookup_route_owned(Ipv4Address::new(10, 1, 2, 3)).unwrap().ifindex, 3);
}

#[test]
fn of_equally_specific_routes_the_lower_metric_wins() {
    let mut r = Router::new();
    r.add_route(IpCidr::new(v4(10, 0, 0, 0), 8), None, 2, 100, RouteType::Static);
    r.add_route(IpCidr::new(v4(10, 0, 0, 0), 8), None, 3, 10, RouteType::Static);
    r.add_route(IpCidr::new(v4(10, 0, 0, 0), 8), None, 4, 10, RouteType::Static);
    let dest = Ipv4Address::new(10, 1, 2, 3);
    assert_eq!(r.lookup_route(dest).unwrap().ifindex, 3);
    r.add_route(IpCidr::new(v4(10, 1, 0, 0), 16), None, 5, 500, RouteType::Static);
    assert_eq!(r.lookup_route(dest).unwrap().ifindex, 5);
    let mut s = Router::new();
    let six = IpAddress::Ipv6(Ipv6Address { bits: 1 << 64 });
    s.add_route(IpCidr::new(six, 64), None, 2, 100, RouteType::Static);
    s.add_route(IpCidr::new(six, 64), None, 3, 10, RouteType::Static);
    s.add_route(IpCidr::new(six, 96), None, 4, 0, RouteType::Static);
    assert_eq!(s.first_route(six).unwrap().ifindex, 3);
}

#[test]
fn a_new_lease_replaces_the_routes_of_the_old_one() {
    let mut r = Router::new();
    r.add_route(IpCidr::new(v4(172, 16, 0, 0), 12), None, 2, 0, RouteType::Static);
    r.replace_dhcp_ipv4(
        2,
        Some(IpCidr::new(v4(10, 0, 2, 15), 24)),
        Some(Ipv4Address::new(10, 0, 2, 2)),
    );
    let far = r.lookup_route_owned(Ipv4Address::new(8, 8, 8, 8)).unwrap();
    assert_eq!(far.next_hop, Some(v4(10, 0, 2, 2)));
    let near = r.lookup_route_owned(Ipv4Address::new(10, 0, 2, 9)).unwrap();
    assert_eq!(near.destination, IpCidr::new(v4(10, 0, 2, 0), 24));
    r.replace_dhcp_ipv4(2, None, None);
    assert!(r.lookup_route_owned(Ipv4Address::new(8, 8, 8, 8)).is_none());
    assert!(r.lookup_route_owned(Ipv4Address::new(10, 0, 2, 9)).is_none());
    assert!(r.lookup_route_owned(Ipv4Address::new(172, 16, 0, 1)).is_some());
}

#[test]
fn a_lease_is_taken_and_lost() {
    let mut ns = NetNamespace::new();
    net_core::init(&mut ns, Some([2, 0, 0, 0, 0, 1]));
    let mut globals = NetGlobals::new();
    let mut dns: Vec<Ipv4Address> = Vec::new();
    let event = DhcpLeaseEvent::Configured {
        address: Ipv4Address::new(10, 0, 2, 15),
        prefix_len: 24,
        router: Some(Ipv4Address::new(10, 0, 2, 2)),
        dns_servers: vec![Ipv4Address::new(10, 0, 2, 3)],
    };
    let conf = dhcp::commit_dhcp_event(&mut ns, &mut globals, &mut dns, 2, event);
    assert_eq!(conf, "nameserver 10.0.2.3\n");
    assert_eq!(dns, vec![Ipv4Address::new(10, 0, 2, 3)]);
    assert_eq!(globals.default_gateway(), Some(Ipv4Address::new(10, 0, 2, 2)));
    assert_eq!(net_core::iface_ip(&ns, 2), Some(v4(10, 0, 2, 15)));
    dhcp::commit_dhcp_event(&mut ns, &mut globals, &mut dns, 2, DhcpLeaseEvent::Deconfigured);
    assert_eq!(net_core::iface_ip(&ns, 2), None);
    assert_eq!(globals.default_gateway(), None);
    assert!(dns.is_empty());
    assert!(ns.router.lookup_route_owned(Ipv4Address::new(8, 8, 8, 8)).is_none());
}

#[test]
fn the_stack_takes_its_addresses_from_the_lease() {
    let v6 = IpCidr::new(IpAddress::Ipv6(Ipv6Address { bits: 1 }), 128);
    let old = vec![IpCidr::new(v4(10, 0, 0, 9), 8), v6];
    let event = DhcpLeaseEvent::Configured {
        address: Ipv4Address::new(10, 0, 2, 15),
        prefix_len: 24,
        router: Some(Ipv4Address::new(10, 0, 2, 2)),
        dns_servers: vec![],
    };
    let (addrs, gw) = dhcp::take_dhcp_event(&old, &event);
    assert!(addrs.contains(&IpCidr::new(v4(10, 0, 2, 15), 24)));
    assert!(!addrs.contains(&IpCidr::new(v4(10, 0, 0, 9), 8)));
    assert_eq!(gw, Some(Ipv4Address::new(10, 0, 2, 2)));
    let mut pending: Option<DhcpLeaseEvent> = None;
    assert!(dhcp::capture_dhcp_event(&mut pending, Some(event)));
    assert!(pending.is_some());
    assert!(!dhcp::capture_dhcp_event(&mut pending, None));
    assert!(pending.is_some());
}

#[test]
fn the_first_stacks_are_set_up_from_the_interfaces() {
    let (ns, globals) = leased();
    let lo = dhcp::loopback_stack(&ns);
    assert_eq!(lo.ifindex, 1);
    assert_eq!(lo.mac, None);
    assert!(lo.addrs.contains(&IpCidr::new(v4(127, 0, 0, 1), 8)));
    let eth = dhcp::ethernet_stack(&ns, &globals, Some([2, 0, 0, 0, 0, 1]));
    assert_eq!(eth.ifindex, 2);
    assert_eq!(eth.mac, Some([2, 0, 0, 0, 0, 1]));
    assert!(eth.dhcp);
}

fn arp_reply(sender_mac: [u8; 6], sender_ip: [u8; 4]) -> Vec<u8> {
    let mut f = vec![0xff; 6];
    f.extend_from_slice(&sender_mac);
    f.extend_from_slice(&[0x08, 0x06]);
    f.extend_from_slice(&[0, 1, 8, 0, 6, 4, 0, 2]);
    f.extend_from_slice(&sender_mac);
    f.extend_from_slice(&sender_ip);
    f.extend_from_slice(&[2, 0, 0, 0, 0, 1, 10, 0, 2, 15]);
    f
}

#[test]
fn an_arp_reply_is_remembered() {
    let mut t = NeighbourTable::new();
    t.try_capture_arp_reply(&arp_reply([6, 5, 4, 3, 2, 1], [10, 0, 2, 2]), 2);
    let e = t.get(2, v4(10, 0, 2, 2)).unwrap();
    assert_eq!(e.mac.octets, [6, 5, 4, 3, 2, 1]);
    assert_eq!(t.neighbour_dump().len(), 1);
    assert!(t.get(3, v4(10, 0, 2, 2)).is_none());
}

#[test]
fn other_frames_are_not_remembered() {
    let mut t = NeighbourTable::new();
    let mut request = arp_reply([6, 5, 4, 3, 2, 1], [10, 0, 2, 2]);
    request[21] = 1;
    t.try_capture_arp_reply(&request, 2);
    let mut ip = arp_reply([6, 5, 4, 3, 2, 1], [10, 0, 2, 2]);
    ip[12] = 0x08;
    ip[13] = 0x00;
    t.try_capture_arp_reply(&ip, 2);
    t.try_capture_arp_reply(&[0; 10], 2);
    t.try_capture_arp_reply(&arp_reply([6, 5, 4, 3, 2, 1], [10, 0, 2, 2])[..30], 2);
    assert!(t.neighbour_dump().is_empty());
}

#[test]
fn a_neighbour_is_recorded_and_deleted() {
    let mut t = NeighbourTable::new();
    let mac = EthernetAddress { octets: [1, 1, 1, 1, 1, 1] };
    t.neighbour_record(2, v4(10, 0, 0, 1), mac);
    t.neighbour_record(2, v4(10, 0, 0, 2), mac);
    assert!(t.neighbour_delete(2, v4(10, 0, 0, 1)));
    assert!(!t.neighbour_delete(2, v4(10, 0, 0, 1)));
    assert!(t.get(2, v4(10, 0, 0, 2)).is_some());
}
