use kernel_net::adapter::{DeferredTxQueue, NetRxToken, NetTxToken, NullNetDevice, TxStep, DEFERRED_TX_MAX_PACKETS};
use kernel_net::event::EPollEvent;
use kernel_net::iface::{DeviceKind, NetDeviceEntry};
use kernel_net::ioctl;
use kernel_net::ioctl::{ifreq, IfReply};
use kernel_net::net_core;
use kernel_net::net_core::{NetGlobals, NetNamespace};
use kernel_net::posix::PosixArgsSocketType;
use kernel_net::router_device;
use kernel_net::sysfs_compat;
use kernel_net::wire::{IpAddress, IpCidr, IpVersion, Ipv4Address, Ipv6Address};

fn v4(a: u8, b: u8, c: u8, d: u8) -> IpAddress {
    IpAddress::Ipv4(Ipv4Address::new(a, b, c, d))
}

fn device(name: &str, id: u32, addrs: Vec<IpCidr>) -> NetDeviceEntry {
    let mut d = NetDeviceEntry::new(
        name.to_string(),
        DeviceKind::Ethernet,
        [2, 0, 0, 0, 0, id as u8],
        1500,
        0x1043,
        addrs,
        None,
        6,
    );
    d.set_nic_id(id);
    d
}

fn started() -> NetNamespace {
    let mut ns = NetNamespace::new();
    net_core::init(&mut ns, Some([0x52, 0x54, 0, 0x12, 0x34, 0x56]));
    ns
}

#[test]
fn init_registers_loopback_and_ethernet() {
    let ns = started();
    let lo = net_core::find_by_name(&ns, "lo").unwrap();
    assert_eq!(lo.nic_id(), 1);
    assert_eq!(lo.flags(), 0x49);
    assert_eq!(lo.mtu(), 65536);
    assert_eq!(
        lo.ip_addrs(),
        vec![
            IpCidr::new(v4(127, 0, 0, 1), 8),
            IpCidr::new(IpAddress::Ipv6(Ipv6Address { bits: 1 }), 128)
        ]
    );
    let eth0 = net_core::find_by_index(&ns, 2).unwrap();
    assert_eq!(eth0.iface_name(), "eth0");
    assert_eq!(eth0.flags(), 0x1043);
    assert_eq!(eth0.mac(), [0x52, 0x54, 0, 0x12, 0x34, 0x56]);
    assert!(eth0.ip_addrs().is_empty());
    assert!(net_core::find_by_name(&ns, "eth1").is_none());
}

#[test]
fn init_without_a_card_and_a_second_init() {
    let mut ns = NetNamespace::new();
    net_core::init(&mut ns, None);
    assert_eq!(ns.devices.len(), 1);
    net_core::init(&mut ns, Some([1, 2, 3, 4, 5, 6]));
    assert_eq!(ns.devices.len(), 1);
    assert!(net_core::loopback_iface(&ns).is_some());
}

#[test]
fn devices_are_kept_by_index() {
    let mut ns = started();
    ns.add_device(device("veth9", 9, vec![]));
    ns.add_device(device("veth5", 5, vec![]));
    let names: Vec<String> = ns.devices.iter().map(|d| d.iface_name()).collect();
    assert_eq!(names, vec!["lo", "eth0", "veth5", "veth9"]);
    ns.remove_device(5);
    assert!(ns.device_by_index(5).is_none());
    assert_eq!(ns.position_by_name("veth9"), Some(2));
}

#[test]
fn an_address_that_was_added_can_be_taken_away() {
    let mut d = device("eth7", 7, vec![]);
    let c = IpCidr::new(v4(192, 168, 3, 4), 24);
    d.add_ip_addr(c);
    assert_eq!(d.first_addr(), Some(v4(192, 168, 3, 4)));
    assert!(d.owns(v4(192, 168, 3, 4)));
    d.del_ip_addr(c);
    assert!(d.ip_addrs().is_empty());
    assert_eq!(d.first_v4(), None);
}

#[test]
fn the_leased_address_becomes_that_of_eth0() {
    let mut ns = started();
    let mut globals = NetGlobals::new();
    let c = IpCidr::new(v4(10, 0, 2, 15), 24);
    net_core::set_eth0_ipv4(&mut ns, &mut globals, c);
    assert_eq!(globals.eth0_ipv4_cidr(), Some(c));
    assert_eq!(net_core::iface_ip(&ns, 2), Some(v4(10, 0, 2, 15)));
    assert!(net_core::is_local_addr(&ns, Ipv4Address::new(10, 0, 2, 15)));
    assert!(!net_core::is_local_addr(&ns, Ipv4Address::new(10, 0, 2, 16)));
    assert_eq!(net_core::ifindex_for_local_addr(&ns, Some(v4(10, 0, 2, 15))), 2);
    assert_eq!(net_core::ifindex_for_local_addr(&ns, Some(v4(127, 0, 0, 1))), 1);
}

#[test]
fn interface_numbers_go_up() {
    let mut globals = NetGlobals::new();
    let a = globals.next_ifindex();
    let b = globals.next_ifindex();
    assert_eq!(b, a + 1);
    globals.set_default_gateway(Some(Ipv4Address::new(10, 0, 2, 2)));
    assert_eq!(globals.default_gateway(), Some(Ipv4Address::new(10, 0, 2, 2)));
}

#[test]
fn a_router_knows_its_own_addresses() {
    let d = device("eth7", 7, vec![IpCidr::new(v4(10, 1, 1, 1), 24)]);
    assert!(router_device::is_my_ip(&d, Ipv4Address::new(10, 1, 1, 1)));
    assert!(!router_device::is_my_ip(&d, Ipv4Address::new(10, 1, 1, 2)));
}

#[test]
fn ipv4_addresses_by_their_kinds() {
    assert!(Ipv4Address::new(0, 0, 0, 0).is_unspecified());
    assert!(Ipv4Address::new(127, 3, 2, 1).is_loopback());
    assert!(Ipv4Address::new(10, 0, 0, 1).is_unicast());
    assert!(!Ipv4Address::new(224, 0, 0, 1).is_unicast());
    assert!(!Ipv4Address::new(255, 255, 255, 255).is_unicast());
    assert_eq!(Ipv4Address::new(1, 2, 3, 4).to_octets(), vec![1, 2, 3, 4]);
    assert_eq!(Ipv4Address::from_bytes_at(&[9, 1, 2, 3, 4], 1), Ipv4Address::new(1, 2, 3, 4));
}

#[test]
fn a_mapped_address_is_an_ipv4_address() {
    let mapped = Ipv6Address { bits: 0xffff_0a00_020f };
    assert_eq!(mapped.as_ipv4(), Some(Ipv4Address::new(10, 0, 2, 15)));
    assert_eq!(IpAddress::Ipv6(mapped).unmapped(), v4(10, 0, 2, 15));
    let plain = IpAddress::Ipv6(Ipv6Address { bits: 1 });
    assert_eq!(plain.unmapped(), plain);
    assert_eq!(IpAddress::localhost(IpVersion::Ipv6), plain);
    assert!(IpAddress::unspecified(IpVersion::Ipv4).is_unspecified());
}

#[test]
fn sysfs_shows_the_hardware_address() {
    assert_eq!(sysfs_compat::format_mac([0x52, 0x54, 0, 0x12, 0x34, 0xab]), "52:54:00:12:34:ab\n");
    let files = sysfs_compat::register(&device("eth7", 7, vec![]));
    let mac = files.iter().find(|f| f.name == "address").unwrap();
    assert!(mac.content.starts_with("02:00:00:00:00:07"));
    let mtu = files.iter().find(|f| f.name == "mtu").unwrap();
    assert!(mtu.content.starts_with("1500"));
}

#[test]
fn a_machine_without_a_card_receives_nothing() {
    assert_eq!(NullNetDevice.receive(), None);
    assert_eq!(NullNetDevice.mac_address(), [2, 0, 0, 0, 0, 1]);
    let token = NetRxToken::new(&[1, 2, 3, 4], 3);
    assert_eq!(token.buf, vec![1, 2, 3]);
}

#[test]
fn frames_are_kept_back_while_interrupts_are_off() {
    let token = NetTxToken { inner: 7u64 };
    assert_eq!(token.step(60, true), TxStep::Transmit);
    assert_eq!(token.step(60, false), TxStep::Defer);
    let mut q = DeferredTxQueue::new();
    for i in 0..DEFERRED_TX_MAX_PACKETS {
        assert!(!q.push(1, vec![i as u8]));
    }
    assert!(q.push(1, vec![0xff]));
    assert!(q.drain_deferred_tx(false).is_empty());
    let out = q.drain_deferred_tx(true);
    assert_eq!(out.len(), DEFERRED_TX_MAX_PACKETS);
    assert_eq!(out[0].packet, vec![1]);
    assert_eq!(out[DEFERRED_TX_MAX_PACKETS - 1].packet, vec![0xff]);
    assert!(q.drain_deferred_tx(true).is_empty());
}

#[test]
fn events_have_their_bits() {
    let mut e = EPollEvent::empty();
    assert!(e.is_empty());
    e.epollin = true;
    e.epollrdhup = true;
    assert_eq!(e.bits(), 0x2001);
    let mut mask = EPollEvent::empty();
    mask.epollin = true;
    assert_eq!(e.and(mask).bits(), 1);
    assert_eq!(e.without(mask).bits(), 0x2000);
}

#[test]
fn unknown_type_bits_are_dropped() {
    let t = PosixArgsSocketType::from_bits_truncate(0x8_0801 | 0x1000_0000);
    assert_eq!(t.bits(), 0x8_0801);
    assert_eq!(t.types().bits(), 1);
    assert!(t.is_nonblock());
    assert!(t.is_cloexec());
}

fn request(name: &str) -> ifreq {
    let mut r = ifreq::new();
    r.ifr_name[..name.len()].copy_from_slice(name.as_bytes());
    r
}

fn answered(ns: &mut NetNamespace, cmd: u32, r: ifreq) -> ifreq {
    match ioctl::siocgif_dispatch(ns, cmd, None, Some(r)).unwrap() {
        IfReply::Request(a) => a,
        other => panic!("{:?}", other),
    }
}

#[test]
fn an_interface_reports_what_it_was_told() {
    let mut ns = started();
    let mut r = request("eth0");
    r.ifr_data[..2].copy_from_slice(&0x1003u16.to_le_bytes());
    ioctl::siocgif_dispatch(&mut ns, ioctl::SIOCSIFFLAGS, None, Some(r)).unwrap();
    let got = answered(&mut ns, ioctl::SIOCGIFFLAGS, request("eth0"));
    assert_eq!(&got.ifr_data[..2], &0x1003u16.to_le_bytes());
    let mut r = request("eth0");
    r.ifr_data[..4].copy_from_slice(&1400i32.to_le_bytes());
    ioctl::siocgif_dispatch(&mut ns, ioctl::SIOCSIFMTU, None, Some(r)).unwrap();
    let got = answered(&mut ns, ioctl::SIOCGIFMTU, request("eth0"));
    assert_eq!(&got.ifr_data[..4], &1400i32.to_le_bytes());
    let mut r = request("eth0");
    r.ifr_data[4..8].copy_from_slice(&[10, 0, 2, 99]);
    ioctl::siocgif_dispatch(&mut ns, ioctl::SIOCSIFADDR, None, Some(r)).unwrap();
    let got = answered(&mut ns, ioctl::SIOCGIFADDR, request("eth0"));
    assert_eq!(&got.ifr_data[..8], &[2, 0, 0, 0, 10, 0, 2, 99]);
    let mask = answered(&mut ns, ioctl::SIOCGIFNETMASK, request("eth0"));
    assert_eq!(&mask.ifr_data[4..8], &[255, 255, 255, 0]);
    let all = answered(&mut ns, ioctl::SIOCGIFBRDADDR, request("eth0"));
    assert_eq!(&all.ifr_data[4..8], &[10, 0, 2, 255]);
}

#[test]
fn ephemeral_ports_have_a_range() {
    assert_eq!(net_core::local_port_range(), (32768, 60999));
}
