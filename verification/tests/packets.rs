use std::collections::VecDeque;

use kernel_net::error::SyscallErr;
use kernel_net::ioctl;
use kernel_net::ioctl::{ifconf, ifreq, siocgif_dispatch, IfReply, IfUpdate};
use kernel_net::net_core;
use kernel_net::net_core::{NetGlobals, NetNamespace};
use kernel_net::socket::packet;
use kernel_net::socket::packet::{PacketRegistry, PacketSend, PacketSocket};
use kernel_net::socket::{Endpoint, PacketEndpoint};
use kernel_net::wire::{IpAddress, IpCidr, Ipv4Address};

fn leased() -> NetNamespace {
    let mut ns = NetNamespace::new();
    net_core::init(&mut ns, Some([2, 0, 0, 0, 0, 1]));
    let mut globals = NetGlobals::new();
    let c = IpCidr::new(IpAddress::Ipv4(Ipv4Address::new(10, 0, 2, 15)), 24);
    net_core::set_eth0_ipv4(&mut ns, &mut globals, c);
    ns
}

fn request(name: &str) -> ifreq {
    let mut r = ifreq::new();
    for (i, b) in name.bytes().enumerate() {
        r.ifr_name[i] = b;
    }
    r
}

fn answer(ns: &mut NetNamespace, cmd: u32, r: ifreq) -> ifreq {
    match siocgif_dispatch(ns, cmd, None, Some(r)) {
        Ok(IfReply::Request(q)) => q,
        other => panic!("{:?}", other),
    }
}

fn frame(ethertype: u16, payload: &[u8]) -> Vec<u8> {
    let mut f = vec![0xff, 0xff, 0xff, 0xff, 0xff, 0xff, 2, 0, 0, 0, 0, 9];
    f.extend_from_slice(&ethertype.to_be_bytes());
    f.extend_from_slice(payload);
    f
}

fn bound(protocol: u16, ifindex: u32) -> PacketSocket {
    let mut s = PacketSocket::new(protocol);
    s.bind(&Endpoint::Packet(PacketEndpoint {
        ifindex,
        protocol,
        hatype: 0,
        pkttype: 0,
        halen: 0,
        addr: [0; 8],
    }))
    .unwrap();
    s
}

#[test]
fn interfaces_are_asked_for_their_data() {
    let mut ns = leased();
    let r = answer(&mut ns, ioctl::SIOCGIFADDR, request("eth0"));
    assert_eq!(&r.ifr_data[..8], &[2, 0, 0, 0, 10, 0, 2, 15]);
    let r = answer(&mut ns, ioctl::SIOCGIFNETMASK, request("eth0"));
    assert_eq!(&r.ifr_data[4..8], &[255, 255, 255, 0]);
    let r = answer(&mut ns, ioctl::SIOCGIFBRDADDR, request("eth0"));
    assert_eq!(&r.ifr_data[4..8], &[10, 0, 2, 255]);
    let r = answer(&mut ns, ioctl::SIOCGIFMTU, request("eth0"));
    assert_eq!(&r.ifr_data[..4], &1500i32.to_le_bytes());
    let r = answer(&mut ns, ioctl::SIOCGIFINDEX, request("eth0"));
    assert_eq!(&r.ifr_data[..4], &2i32.to_le_bytes());
    let r = answer(&mut ns, ioctl::SIOCGIFHWADDR, request("eth0"));
    assert_eq!(&r.ifr_data[2..8], &[2, 0, 0, 0, 0, 1]);
    let r = answer(&mut ns, ioctl::SIOCGIFTXQLEN, request("eth0"));
    assert_eq!(&r.ifr_data[..4], &1000i32.to_le_bytes());
    let r = answer(&mut ns, ioctl::SIOCGIFFLAGS, request("lo"));
    assert_eq!(&r.ifr_data[..2], &0x49i16.to_le_bytes());
}

#[test]
fn an_interface_that_is_not_there_has_no_data() {
    let mut ns = leased();
    assert_eq!(
        siocgif_dispatch(&mut ns, ioctl::SIOCGIFMTU, None, Some(request("nope"))).unwrap_err(),
        SyscallErr::ENODEV
    );
    assert_eq!(
        siocgif_dispatch(&mut ns, ioctl::SIOCGIFMTU, None, None).unwrap_err(),
        SyscallErr::EFAULT
    );
}

#[test]
fn an_address_that_is_set_is_read_back() {
    let mut ns = leased();
    let mut r = request("eth0");
    r.ifr_data[..8].copy_from_slice(&[2, 0, 0, 0, 192, 168, 7, 9]);
    match siocgif_dispatch(&mut ns, ioctl::SIOCSIFADDR, None, Some(r)) {
        Ok(IfReply::Done(Some(IfUpdate::ReplaceIp { ifindex, cidr }))) => {
            assert_eq!(ifindex, 2);
            assert_eq!(cidr.address, IpAddress::Ipv4(Ipv4Address::new(192, 168, 7, 9)));
        }
        other => panic!("{:?}", other),
    }
    let back = answer(&mut ns, ioctl::SIOCGIFADDR, request("eth0"));
    assert_eq!(&back.ifr_data[4..8], &[192, 168, 7, 9]);
}

#[test]
fn the_largest_packet_is_set() {
    let mut ns = leased();
    let mut r = request("eth0");
    r.ifr_data[..4].copy_from_slice(&1400i32.to_le_bytes());
    match siocgif_dispatch(&mut ns, ioctl::SIOCSIFMTU, None, Some(r)) {
        Ok(IfReply::Done(Some(IfUpdate::SetMtu { ifindex, mtu }))) => {
            assert_eq!((ifindex, mtu), (2, 1400))
        }
        other => panic!("{:?}", other),
    }
    let back = answer(&mut ns, ioctl::SIOCGIFMTU, request("eth0"));
    assert_eq!(&back.ifr_data[..4], &1400i32.to_le_bytes());
}

#[test]
fn interfaces_are_listed_as_far_as_there_is_room() {
    let mut ns = leased();
    let conf = ifconf { ifc_len: 80, ifc_buf: 0x1000 };
    match siocgif_dispatch(&mut ns, ioctl::SIOCGIFCONF, Some(conf), None) {
        Ok(IfReply::List { conf, entries }) => {
            assert_eq!(entries.len(), 2);
            assert_eq!(conf.ifc_len, 80);
            assert_eq!(&entries[0].ifr_name[..3], b"lo\0");
            assert_eq!(&entries[1].ifr_name[..5], b"eth0\0");
        }
        other => panic!("{:?}", other),
    }
    let small = ifconf { ifc_len: 40, ifc_buf: 0x1000 };
    match siocgif_dispatch(&mut ns, ioctl::SIOCGIFCONF, Some(small), None) {
        Ok(IfReply::List { entries, .. }) => assert_eq!(entries.len(), 1),
        other => panic!("{:?}", other),
    }
}

#[test]
fn a_frame_reaches_the_sockets_that_asked_for_it() {
    let mut reg = PacketRegistry::new();
    PacketSocket::register_packet_socket(&mut reg, 1, bound(0x0806, 2));
    PacketSocket::register_packet_socket(&mut reg, 2, bound(0x0003, 2));
    PacketSocket::register_packet_socket(&mut reg, 3, bound(0x0806, 5));
    let f = frame(0x0806, &[7; 20]);
    assert_eq!(packet::deliver_frame_to_packet_sockets(&mut reg, &f, 2), vec![1, 2]);
    let mut buf = [0u8; 64];
    let n = reg.slots[0].socket.try_peek(&mut buf).unwrap();
    assert_eq!(&buf[..n as usize], &f[..]);
    buf = [0u8; 64];
    let n = reg.slots[0].socket.try_recv(&mut buf).unwrap();
    assert_eq!(&buf[..n as usize], &f[..]);
    assert_eq!(reg.slots[0].socket.try_peek(&mut buf), Err(SyscallErr::EAGAIN));
    assert_eq!(reg.slots[0].socket.try_recv(&mut buf), Err(SyscallErr::EAGAIN));
    assert!(reg.slots[1].socket.socket_r_ready());
    assert!(!reg.slots[2].socket.socket_r_ready());
    reg.close(2);
    let mut queue = VecDeque::new();
    queue.push_back(frame(0x0800, &[1; 20]));
    assert!(packet::deliver_frames_from_veth_queue(&mut reg, 2, &queue).is_empty());
}

#[test]
fn a_short_frame_reaches_nobody() {
    let mut reg = PacketRegistry::new();
    PacketSocket::register_packet_socket(&mut reg, 1, bound(0x0003, 2));
    assert!(packet::deliver_frame_to_packet_sockets(&mut reg, &[0; 10], 2).is_empty());
}

#[test]
fn a_packet_socket_sends_where_it_is_bound() {
    let s = bound(0x0003, 2);
    let f = frame(0x0800, &[1; 20]);
    assert!(matches!(s.try_send(&f), Ok(PacketSend::Transmit(2))));
    assert_eq!(s.finish_send(f.len(), true), Ok(f.len() as isize));
    assert!(PacketSocket::new(0x0003).try_send(&f).is_err());
    assert_eq!(s.listen().unwrap_err(), SyscallErr::EOPNOTSUPP);
}
