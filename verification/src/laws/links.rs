//! Frames and the questions that user space asks of interfaces.
use vstd::prelude::*;
use crate::adapter;
use crate::adapter::TxStep;
use crate::bytes;
use crate::error::SyscallErr;
use crate::iface::DeviceModel;
use crate::ioctl;
use crate::ioctl::{IfUpdate, ReplyModel, RequestModel};
use crate::laws::dumps;
use crate::neighbour;
use crate::net_core;
use crate::seqs;
use crate::socket::packet;
use crate::socket::packet::{PacketModel, SlotModel};
use crate::sysfs_compat;
use crate::text;
use crate::wire;
use crate::wire::Ipv4Address;

verus! {

/// The sender of an ARP reply over Ethernet, by the bytes of the frame: its
/// hardware address stands in bytes 22 to 27, its IPv4 address in bytes 28 to
/// 31. A request tells nothing, and neither does another kind of frame or one
/// that is cut short.
pub proof fn law_arp_sender(frame: Seq<u8>)
    ensures
        frame.len() >= 42 && frame[12] == 8 && frame[13] == 6 && frame[18] == 6 && frame[19] == 4
            && frame[20] == 0 && frame[21] == 2 ==> {
            &&& neighbour::arp_reply_sender(frame) matches Some((ip, mac))
            &&& ip.bits == 16777216 * frame[28] + 65536 * frame[29] + 256 * frame[30] + frame[31]
            &&& mac == frame.subrange(22, 28)
        },
        frame.len() >= 42 && (frame[12] != 8 || frame[13] != 6 || frame[20] != 0 || frame[21] != 2)
            ==> neighbour::arp_reply_sender(frame) is None,
        frame.len() < 14 || (frame.len() < 42 && frame[18] == 6 && frame[19] == 4)
            ==> neighbour::arp_reply_sender(frame) is None,
{
    let p = frame.skip(14);
    if frame.len() >= 42 {
        assert(p.subrange(8, 14) =~= frame.subrange(22, 28));
        let at = 8 + p[4];
        bytes::lemma_be32_of_octets(frame[28], frame[29], frame[30], frame[31]);
    }
}

/// A frame goes to every open packet socket that listens on the interface, or on
/// all, and for the protocol of the frame, which stands in bytes 12 and 13, or
/// for all; it is queued last. The others keep what they have.
pub proof fn law_frame_goes_to_listeners(
    slots: Seq<SlotModel>,
    frame: Seq<u8>,
    ifindex: u32,
    k: int,
)
    requires
        frame.len() >= 14,
        forall|i: int| 0 <= i < slots.len() ==> (#[trigger] slots[i]).live,
        0 <= k < slots.len(),
    ensures
        ({
            let after = packet::frame_delivered(slots, frame, ifindex);
            let s = slots[k].socket;
            let here = s.bound_ifindex == 0 || s.bound_ifindex == ifindex;
            let mine = s.bound_protocol == 3 || s.bound_protocol == 256 * frame[12] + frame[13];
            &&& after.len() == slots.len()
            &&& after[k].id == slots[k].id && after[k].live
            &&& here && mine ==> after[k].socket.rx == s.rx.push(frame)
            &&& !(here && mine) ==> after[k].socket.rx == s.rx
            &&& after[k].socket.bound_ifindex == s.bound_ifindex
            &&& after[k].socket.bound_protocol == s.bound_protocol
        }),
    decreases slots.len(),
{
    let t = slots.drop_last();
    let rest = packet::frame_delivered(t, frame, ifindex);
    lemma_all_stay(t, frame, ifindex);
    if k < t.len() {
        law_frame_goes_to_listeners(t, frame, ifindex, k);
        assert(t[k] == slots[k]);
    }
}

proof fn lemma_all_stay(slots: Seq<SlotModel>, frame: Seq<u8>, ifindex: u32)
    requires
        frame.len() >= 14,
        forall|i: int| 0 <= i < slots.len() ==> (#[trigger] slots[i]).live,
    ensures
        packet::frame_delivered(slots, frame, ifindex).len() == slots.len(),
    decreases slots.len(),
{
    if slots.len() > 0 {
        lemma_all_stay(slots.drop_last(), frame, ifindex);
    }
}

/// Something shorter than the header of a frame goes to nobody.
pub proof fn law_short_frame_is_dropped(slots: Seq<SlotModel>, frame: Seq<u8>, ifindex: u32)
    requires
        frame.len() < 14,
    ensures
        packet::frame_delivered(slots, frame, ifindex) == slots,
        packet::frame_wakes(slots, frame, ifindex).len() == 0,
{
}

/// Frames are received in the order in which they came, as many bytes of each as
/// fit in the buffer.
pub proof fn law_frames_are_received_in_order(m: PacketModel, buf: Seq<u8>)
    requires
        m.rx.len() > 0,
    ensures
        ({
            let (n, got) = packet::taken(m, buf);
            &&& n.rx == m.rx.drop_first()
            &&& n.bound_ifindex == m.bound_ifindex && n.bound_protocol == m.bound_protocol
            &&& got matches Some((len, out))
            &&& len <= m.rx[0].len() && len <= buf.len()
            &&& len == m.rx[0].len() || len == buf.len()
            &&& out.len() == buf.len()
            &&& out.take(len) == m.rx[0].take(len)
            &&& out.skip(len) == buf.skip(len)
        }),
{
    let (n, got) = packet::taken(m, buf);
    let (len, out) = got->0;
    assert(m.rx.skip(1) =~= m.rx.drop_first());
    assert(out.take(len) =~= m.rx[0].take(len));
    assert(out.skip(len) =~= buf.skip(len));
}

/// A frame leaves through the interface that is named; without one the network is
/// down, and nothing at all is sent anywhere.
pub proof fn law_frame_leaves_through(ifindex: u32, len: int)
    requires
        len >= 0,
    ensures
        ({
            let r = packet::send_from(ifindex, len);
            &&& len > 0 && ifindex != 0 ==> r is Ok && r->Ok_0 == packet::PacketSend::Transmit(ifindex)
            &&& len > 0 && ifindex == 0 ==> r is Err && r->Err_0 == SyscallErr::ENETDOWN
            &&& len == 0 ==> r is Ok && r->Ok_0 == packet::PacketSend::Done(0)
        }),
{
}

/// A packet that waits is kept behind the others; where as many wait as may, the
/// oldest goes.
pub proof fn law_deferred_packets(q: Seq<(u64, Seq<u8>)>, device: u64, data: Seq<u8>)
    ensures
        ({
            let after = adapter::deferred_push(q, device, data);
            &&& after.len() > 0
            &&& after.last() == (device, data)
            &&& q.len() < 64 ==> after.drop_last() == q
            &&& q.len() == 64 ==> after.len() == 64 && after.drop_last() == q.drop_first()
        }),
{
    let after = adapter::deferred_push(q, device, data);
    if q.len() < 64 {
        assert(after.drop_last() =~= q);
    } else if q.len() == 64 {
        assert(after.drop_last() =~= q.drop_first());
    }
}

/// A question about an interface that has the name in the request is answered in
/// the data of the request, and changes nothing: its index, its flags, its
/// largest packet, its hardware address.
#[verifier::rlimit(40)]
pub proof fn law_interface_questions(
    devs: Seq<DeviceModel>,
    m: RequestModel,
    d: DeviceModel,
    i: int,
)
    requires
        m.wf(),
        0 <= i < devs.len(),
        devs[i] == d,
        d.name == text::nul_text(m.name),
        forall|j: int| 0 <= j < i ==> (#[trigger] devs[j]).name != d.name,
        d.hwaddr.len() == 6,
        d.mtu <= i32::MAX,
        d.flags < 0x10000,
    ensures
        ({
            let index = ioctl::dispatched(devs, 0x8933, None, Some(m));
            let flags = ioctl::dispatched(devs, 0x8913, None, Some(m));
            let mtu = ioctl::dispatched(devs, 0x8921, None, Some(m));
            let hw = ioctl::dispatched(devs, 0x8927, None, Some(m));
            &&& index.0 == devs && flags.0 == devs && mtu.0 == devs && hw.0 == devs
            &&& index.1 matches Ok(ReplyModel::Request(a)) && a.name == m.name && dumps::long_at(
                a.data,
                0,
            ) == d.nic_id
            &&& flags.1 matches Ok(ReplyModel::Request(a)) && a.name == m.name && dumps::short_at(
                a.data,
                0,
            ) == d.flags
            &&& mtu.1 matches Ok(ReplyModel::Request(a)) && a.name == m.name && dumps::long_at(
                a.data,
                0,
            ) == d.mtu
            &&& hw.1 matches Ok(ReplyModel::Request(a)) && a.name == m.name && dumps::short_at(
                a.data,
                0,
            ) == 1 && a.data.subrange(2, 8) == d.hwaddr
        }),
{
    seqs::lemma_find_first(devs, net_core::named(m.text()), i);
    bytes::lemma_le_roundtrip(d.flags as u16, d.nic_id);
    bytes::lemma_le_roundtrip(1, d.mtu as u32);
    lemma_written(m.data, 0, bytes::le32(d.nic_id));
    lemma_written(m.data, 0, bytes::le16(d.flags as u16));
    lemma_written(m.data, 0, bytes::le32(d.mtu as u32));
    let one = ioctl::overwritten(m.data, 0, bytes::le16(1));
    lemma_written(m.data, 0, bytes::le16(1));
    lemma_written(one, 2, d.hwaddr);
    assert(d.flags % 0x10000 == d.flags);
    assert(bytes::u32_of(d.mtu as i32) == d.mtu);
    let out = ioctl::overwritten(one, 2, d.hwaddr);
    assert(out[0] == one[0] && out[1] == one[1]);
    assert(out.subrange(2, 8) =~= d.hwaddr);
}

proof fn lemma_written(s: Seq<u8>, at: int, data: Seq<u8>)
    requires
        0 <= at,
        at + data.len() <= s.len(),
    ensures
        ioctl::overwritten(s, at, data).len() == s.len(),
        forall|i: int|
            0 <= i < data.len() ==> #[trigger] data[i] == ioctl::overwritten(s, at, data)[at + i],
        forall|i: int|
            0 <= i < s.len() && !(at <= i < at + data.len()) ==> #[trigger] ioctl::overwritten(
                s,
                at,
                data,
            )[i] == s[i],
{
}

/// A question about the address of an interface is answered with its first
/// address where that is an IPv4 address, in bytes 4 to 7 behind the family,
/// and refused where it is not.
#[verifier::rlimit(30)]
pub proof fn law_address_question(
    devs: Seq<DeviceModel>,
    m: RequestModel,
    d: DeviceModel,
    i: int,
)
    requires
        m.wf(),
        0 <= i < devs.len(),
        devs[i] == d,
        d.name == text::nul_text(m.name),
        forall|j: int| 0 <= j < i ==> (#[trigger] devs[j]).name != d.name,
    ensures
        ({
            let r = ioctl::dispatched(devs, 0x8915, None, Some(m));
            &&& r.0 == devs
            &&& d.ip_addrs.len() > 0 && d.ip_addrs[0].address is Ipv4 ==> {
                &&& r.1 matches Ok(ReplyModel::Request(a))
                &&& a.name == m.name
                &&& dumps::short_at(a.data, 0) == 2
                &&& 16777216 * a.data[4] + 65536 * a.data[5] + 256 * a.data[6] + a.data[7]
                    == d.ip_addrs[0].address->Ipv4_0.bits
            }
            &&& d.ip_addrs.len() == 0 || d.ip_addrs[0].address is Ipv6 ==> r.1 is Err
                && r.1->Err_0 == SyscallErr::EADDRNOTAVAIL
        }),
{
    seqs::lemma_find_first(devs, net_core::named(m.text()), i);
    bytes::lemma_le_roundtrip(2, 0);
    if d.ip_addrs.len() > 0 && d.ip_addrs[0].address is Ipv4 {
        let a = d.ip_addrs[0].address->Ipv4_0;
        wire::lemma_v4_octets(a);
        let two = bytes::le16(2);
        let one = ioctl::overwritten(m.data, 0, two);
        lemma_written(m.data, 0, two);
        lemma_written(one, 4, a.octets());
        let out = ioctl::overwritten(one, 4, a.octets());
        assert(out[0] == one[0] && out[1] == one[1]);
        assert(one[0] == two[0] && one[1] == two[1]);
        let o = a.octets();
        assert(out[4] == o[0] && out[5] == o[1] && out[6] == o[2] && out[7] == o[3]);
    }
}

/// The mask of a network has as many ones in front as its prefix, and the
/// broadcast address of a network has ones behind the prefix and the address's
/// own bits in front: for prefixes of whole octets the octets themselves.
pub proof fn law_masks(a: Ipv4Address)
    ensures
        ioctl::mask(0).bits == 0,
        ioctl::mask(8).bits == 0xff00_0000,
        ioctl::mask(16).bits == 0xffff_0000,
        ioctl::mask(24).bits == 0xffff_ff00,
        ioctl::mask(32).bits == 0xffff_ffff,
        ioctl::broadcast(a, 32) == a,
        ioctl::broadcast(a, 24).bits == a.bits / 256 * 256 + 255,
        ioctl::broadcast(a, 16).bits == a.bits / 65536 * 65536 + 65535,
        ioctl::broadcast(a, 8).bits == a.bits / 16777216 * 16777216 + 16777215,
{
    vstd::arithmetic::power2::lemma2_to64();
}

/// An interface that nobody has is no device, whatever is asked or told; a command
/// that nobody knows is refused, and so is one without its data.
pub proof fn law_unknown_interface(devs: Seq<DeviceModel>, m: RequestModel, cmd: u32)
    requires
        m.wf(),
        forall|j: int| 0 <= j < devs.len() ==> (#[trigger] devs[j]).name != text::nul_text(m.name),
    ensures
        cmd == 0x8933 || cmd == 0x8913 || cmd == 0x8915 || cmd == 0x891b || cmd == 0x8919 || cmd
            == 0x8921 || cmd == 0x8927 || cmd == 0x8914 || cmd == 0x8916 || cmd == 0x8922
            ==> ioctl::dispatched(devs, cmd, None, Some(m)) == (
            devs,
            Err::<ReplyModel, SyscallErr>(SyscallErr::ENODEV),
        ),
        cmd == 0x8933 || cmd == 0x8914 ==> ioctl::dispatched(devs, cmd, None, None) == (
            devs,
            Err::<ReplyModel, SyscallErr>(SyscallErr::EFAULT),
        ),
        cmd < 0x8900 || cmd > 0x8950 ==> ioctl::dispatched(devs, cmd, None, Some(m)) == (
            devs,
            Err::<ReplyModel, SyscallErr>(SyscallErr::EOPNOTSUPP),
        ),
{
    let p = net_core::named(m.text());
    assert forall|j: int| 0 <= j < devs.len() implies !p(devs[j]) by {
        assert(devs[j].name != text::nul_text(m.name));
    }
    seqs::lemma_find_none(devs, p);
}

/// An interface that is told something has it afterwards: the flags of the request
/// in its lower half, the address of the request as its only one, the largest
/// packet of the request. The stack is told the same, and other interfaces stay.
#[verifier::rlimit(40)]
pub proof fn law_interface_is_told(
    devs: Seq<DeviceModel>,
    m: RequestModel,
    d: DeviceModel,
    i: int,
    k: int,
)
    requires
        m.wf(),
        net_core::ordered(devs),
        0 <= i < devs.len(),
        0 <= k < devs.len(),
        devs[i] == d,
        d.name == text::nul_text(m.name),
        forall|j: int| 0 <= j < i ==> (#[trigger] devs[j]).name != d.name,
        dumps::long_at(m.data, 0) < 0x8000_0000,
    ensures
        ({
            let (fd, fr) = ioctl::dispatched(devs, 0x8914, None, Some(m));
            let (ad, ar) = ioctl::dispatched(devs, 0x8916, None, Some(m));
            let (md, mr) = ioctl::dispatched(devs, 0x8922, None, Some(m));
            let bits = 16777216 * m.data[4] + 65536 * m.data[5] + 256 * m.data[6] + m.data[7];
            &&& fr is Ok && ar is Ok && mr is Ok
            &&& fd.len() == devs.len() && ad.len() == devs.len() && md.len() == devs.len()
            &&& fd[i].flags % 0x10000 == dumps::short_at(m.data, 0)
            &&& fd[i].flags / 0x10000 == d.flags / 0x10000
            &&& fd[i].ip_addrs == d.ip_addrs && fd[i].mtu == d.mtu && fd[i].name == d.name
            &&& ad[i].ip_addrs.len() == 1
            &&& ad[i].ip_addrs[0].address is Ipv4
            &&& ad[i].ip_addrs[0].address->Ipv4_0.bits == bits
            &&& ad[i].ip_addrs[0].prefix_len == if d.ip_addrs.len() > 0 {
                d.ip_addrs[0].prefix_len
            } else {
                24
            }
            &&& ar == Ok::<ReplyModel, SyscallErr>(
                ReplyModel::Done(
                    Some(IfUpdate::ReplaceIp { ifindex: d.nic_id, cidr: ad[i].ip_addrs[0] }),
                ),
            )
            &&& ad[i].flags == d.flags && ad[i].mtu == d.mtu
            &&& md[i].mtu == dumps::long_at(m.data, 0)
            &&& mr == Ok::<ReplyModel, SyscallErr>(
                ReplyModel::Done(Some(IfUpdate::SetMtu { ifindex: d.nic_id, mtu: md[i].mtu })),
            )
            &&& md[i].flags == d.flags && md[i].ip_addrs == d.ip_addrs
            &&& k != i ==> fd[k] == devs[k] && ad[k] == devs[k] && md[k] == devs[k]
        }),
{
    seqs::lemma_find_first(devs, net_core::named(m.text()), i);
    assert(k != i ==> devs[k].nic_id != d.nic_id);
    bytes::lemma_be32_of_octets(m.data[4], m.data[5], m.data[6], m.data[7]);
    let low = bytes::u16_le_at(m.data, 0) as int;
    assert(low == dumps::short_at(m.data, 0));
    let high = d.flags as int / 0x10000;
    assert((high * 0x10000 + low) % 0x10000 == low);
    assert((high * 0x10000 + low) / 0x10000 == high);
    let v = bytes::u32_le_at(m.data, 0);
    assert(v == dumps::long_at(m.data, 0));
}

/// The list of interfaces has as many entries as there are interfaces and as fit,
/// forty bytes each, in order.
pub proof fn law_interface_list(devs: Seq<DeviceModel>, len: i32, buf: usize)
    requires
        0 <= len,
        devs.len() <= 10_000,
        buf != 0,
    ensures
        ({
            let r = ioctl::dispatched(
                devs,
                0x8912,
                Some(ioctl::ifconf { ifc_len: len, ifc_buf: buf }),
                None,
            );
            &&& r.0 == devs
            &&& r.1 matches Ok(ReplyModel::List { conf, entries })
            &&& conf.ifc_buf == buf
            &&& conf.ifc_len == 40 * entries.len()
            &&& entries.len() <= devs.len()
            &&& 40 * entries.len() <= len
            &&& entries.len() == devs.len() || 40 * (entries.len() + 1) > len
        }),
{
}

/// A hardware address is written as six pairs of hexadecimal digits with colons
/// between them and a line end.
pub proof fn law_mac_text(mac: Seq<u8>, i: int)
    requires
        mac.len() == 6,
        0 <= i < 6,
    ensures
        ({
            let t = sysfs_compat::mac_text(mac);
            &&& t.len() == 18
            &&& hex_value(t[3 * i]) * 16 + hex_value(t[3 * i + 1]) == mac[i]
            &&& i < 5 ==> t[3 * i + 2] == ':'
            &&& t[17] == '\n'
        }),
{
    reveal_strlit(":");
    reveal_strlit("\n");
    let b = mac[i] as int;
    assert(b / 16 < 16 && b % 16 < 16);
    if i == 0 {
    } else if i == 1 {
    } else if i == 2 {
    } else if i == 3 {
    } else if i == 4 {
    } else {
    }
}

/// The value of a hexadecimal digit.
pub open spec fn hex_value(c: char) -> int {
    if '0' <= c && c <= '9' {
        c as int - '0' as int
    } else {
        c as int - 'a' as int + 10
    }
}

/// A frame is sent at once where interrupts are on, kept for later where they are
/// off, and an empty one is dropped.
pub proof fn law_frame_is_sent_or_kept(len: usize)
    ensures
        len > 0 ==> adapter::tx_step(len, true) == TxStep::Transmit,
        len > 0 ==> adapter::tx_step(len, false) == TxStep::Defer,
        adapter::tx_step(0, true) == TxStep::Drop,
        adapter::tx_step(0, false) == TxStep::Drop,
{
}

/// The frames of a queue are delivered one by one, first to last, and everybody
/// whom one of them wakes is woken.
pub proof fn law_queue_is_delivered_in_order(
    slots: Seq<SlotModel>,
    front: Seq<Seq<u8>>,
    f: Seq<u8>,
    ifindex: u32,
    who: u64,
)
    ensures
        packet::frames_delivered(slots, Seq::empty(), ifindex) == slots,
        packet::frames_wake(slots, Seq::empty(), ifindex) == Seq::<u64>::empty(),
        ({
            let before = packet::frames_delivered(slots, front, ifindex);
            let woken = packet::frames_wake(slots, front.push(f), ifindex);
            &&& packet::frames_delivered(slots, front.push(f), ifindex) == packet::frame_delivered(
                before,
                f,
                ifindex,
            )
            &&& packet::frames_wake(slots, front, ifindex).contains(who) ==> woken.contains(who)
            &&& packet::frame_wakes(before, f, ifindex).contains(who) ==> woken.contains(who)
        }),
{
    assert(front.push(f).drop_last() =~= front);
    let before = packet::frames_delivered(slots, front, ifindex);
    let a = packet::frames_wake(slots, front, ifindex);
    let b = packet::frame_wakes(before, f, ifindex);
    let woken = packet::frames_wake(slots, front.push(f), ifindex);
    assert(woken == a + b);
    if a.contains(who) {
        let i = choose|i: int| 0 <= i < a.len() && a[i] == who;
        assert(woken[i] == who);
    }
    if b.contains(who) {
        let i = choose|i: int| 0 <= i < b.len() && b[i] == who;
        assert(woken[a.len() + i] == who);
    }
}

/// Exactly the living sockets that hear a frame are woken by it.
pub proof fn law_listeners_are_woken(
    slots: Seq<SlotModel>,
    frame: Seq<u8>,
    ifindex: u32,
    k: int,
)
    requires
        frame.len() >= 14,
        0 <= k < slots.len(),
        forall|j: int| 0 <= j < slots.len() && j != k ==> (#[trigger] slots[j]).id != slots[k].id,
    ensures
        ({
            let s = slots[k].socket;
            let here = s.bound_ifindex == 0 || s.bound_ifindex == ifindex;
            let mine = s.bound_protocol == 3 || s.bound_protocol == 256 * frame[12] + frame[13];
            packet::frame_wakes(slots, frame, ifindex).contains(slots[k].id) <==> slots[k].live
                && here && mine
        }),
        packet::frame_wakes(slots, frame.take(13), ifindex).len() == 0,
    decreases slots.len(),
{
    let t = slots.drop_last();
    let rest = packet::frame_wakes(t, frame, ifindex);
    let all = packet::frame_wakes(slots, frame, ifindex);
    let id = slots[k].id;
    if k < t.len() {
        assert forall|j: int| 0 <= j < t.len() && j != k implies (#[trigger] t[j]).id != t[k].id by {
            assert(slots[j].id != slots[k].id);
        }
        law_listeners_are_woken(t, frame, ifindex, k);
        assert(slots[slots.len() - 1].id != id);
        if rest.contains(id) {
            let i = choose|i: int| 0 <= i < rest.len() && rest[i] == id;
            assert(all[i] == id);
        }
        if all.contains(id) {
            let i = choose|i: int| 0 <= i < all.len() && all[i] == id;
            assert(rest[i] == id);
        }
    } else {
        assert forall|j: int| 0 <= j < t.len() implies (#[trigger] t[j]).id != id by {
            assert(slots[j].id != slots[k].id);
        }
        lemma_not_woken(t, frame, ifindex, id);
        if all.len() > rest.len() {
            assert(all[rest.len() as int] == id);
        }
    }
}

proof fn lemma_not_woken(slots: Seq<SlotModel>, frame: Seq<u8>, ifindex: u32, id: u64)
    requires
        forall|j: int| 0 <= j < slots.len() ==> (#[trigger] slots[j]).id != id,
    ensures
        !packet::frame_wakes(slots, frame, ifindex).contains(id),
    decreases slots.len(),
{
    if slots.len() > 0 {
        let t = slots.drop_last();
        assert forall|j: int| 0 <= j < t.len() implies (#[trigger] t[j]).id != id by {
            assert(slots[j].id != id);
        }
        lemma_not_woken(t, frame, ifindex, id);
        assert(slots[slots.len() - 1].id != id);
        let rest = packet::frame_wakes(t, frame, ifindex);
        let all = packet::frame_wakes(slots, frame, ifindex);
        if all.contains(id) {
            let i = choose|i: int| 0 <= i < all.len() && all[i] == id;
            if i < rest.len() {
                assert(rest[i] == id);
            }
        }
    }
}

} // verus!
