//! Raw sockets: the packets that they make, and what is read of one.
use vstd::prelude::*;
use crate::bytes;
use crate::error::SyscallErr;
use crate::iface::DeviceModel;
use crate::routing;
use crate::routing::RouteEntry;
use crate::socket::inet::raw::checksum;
use crate::socket::inet::raw::raw;
use crate::socket::inet::raw::raw::{RawModel, RawState};
use crate::socket::EndpointModel;
use crate::wire;
use crate::wire::{IpAddress, IpEndpoint, IpVersion, Ipv4Address, Ipv6Address};

verus! {

/// The packet of an IPv6 socket, by its bytes: version 6 without traffic class
/// and flow label, the length of the payload, the protocol of the socket, 64
/// hops, sixteen octets of an address of this machine, the sixteen octets of the
/// destination, and the payload, of which only a checksum that the socket asked
/// for differs.
pub proof fn law_ipv6_packet_layout(
    s: RawState,
    devs: Seq<DeviceModel>,
    entries: Seq<RouteEntry>,
    payload: Seq<u8>,
    dst: Ipv6Address,
    port: u16,
)
    requires
        s.ip_version == IpVersion::Ipv6,
        payload.len() <= 65535,
    ensures
        ({
            let r = raw::packet_to(
                s,
                devs,
                entries,
                payload,
                EndpointModel::Ip(IpEndpoint { addr: IpAddress::Ipv6(dst), port }),
            );
            &&& r matches Ok((p, out))
            &&& p.len() == 40 + payload.len()
            &&& p[0] == 0x60 && p[1] == 0 && p[2] == 0 && p[3] == 0
            &&& 256 * p[4] + p[5] == payload.len()
            &&& p[6] == s.ip_protocol
            &&& p[7] == 64
            &&& bytes::be_value(p.subrange(24, 40)) == dst.bits
            &&& forall|j: int|
                0 <= j < payload.len() && !(s.ipv6_checksum_offset is Some
                    && s.ipv6_checksum_offset->0 <= j < s.ipv6_checksum_offset->0 + 2)
                    ==> #[trigger] p[40 + j] == payload[j]
        }),
{
    let out = raw::out_ifindex(s, devs, entries, IpAddress::Ipv6(dst));
    let src = raw::v6_source(devs, entries, out, dst);
    let body = raw::summed_payload(src, dst, s.ip_protocol, payload, s.ipv6_checksum_offset);
    let p = raw::ipv6_packet(src, dst, s.ip_protocol, body);
    wire::lemma_v6_octets(src);
    wire::lemma_v6_octets(dst);
    bytes::lemma_be_roundtrip(payload.len() as u16, 0);
    assert(body.len() == payload.len());
    let d = bytes::be16(payload.len() as u16);
    assert(p[4] == d[0] && p[5] == d[1]);
    lemma_bits(dst);
    assert(p.subrange(24, 40) =~= dst.octets());
    assert forall|j: int|
        0 <= j < payload.len() && !(s.ipv6_checksum_offset is Some && s.ipv6_checksum_offset->0 <= j
            < s.ipv6_checksum_offset->0 + 2) implies #[trigger] p[40 + j] == payload[j] by {
        assert(p[40 + j] == body[j]);
    }
}

proof fn lemma_bits(a: Ipv6Address)
    ensures
        bytes::be_value(a.octets()) == a.bits,
{
    wire::lemma_v6_octets(a);
    bytes::lemma_be_value_bound(a.octets());
    wire::lemma_pow256_16(16);
}

/// The packet of an IPv6 socket names as its sender the first address of the
/// interface that it leaves through which is an IPv6 address and not all zeros,
/// and else the source of the route. That is whom the receiver takes it to come
/// from, and what it gets is the payload.
pub proof fn law_ipv6_packet_is_read_back(
    s: RawState,
    devs: Seq<DeviceModel>,
    entries: Seq<RouteEntry>,
    payload: Seq<u8>,
    dst: Ipv6Address,
    port: u16,
    m: RawModel,
)
    requires
        s.ip_version == IpVersion::Ipv6,
        s.ipv6_checksum_offset is None,
        0 < payload.len() <= 65535,
        m.state.ip_version == IpVersion::Ipv6,
        forall|i: int| 0 <= i < m.filter.len() ==> #[trigger] m.filter[i] == 0,
        m.filter.len() == 8,
    ensures
        ({
            let to = EndpointModel::Ip(IpEndpoint { addr: IpAddress::Ipv6(dst), port });
            let (p, out) = raw::packet_to(s, devs, entries, payload, to)->Ok_0;
            let src = raw::v6_source(devs, entries, out, dst);
            &&& raw::packet_in(m, p, p.len() as int) matches Some((n, from, buf))
            &&& n == payload.len()
            &&& from == IpAddress::Ipv6(src)
            &&& buf.take(payload.len() as int) == payload
        }),
{
    let to = EndpointModel::Ip(IpEndpoint { addr: IpAddress::Ipv6(dst), port });
    let (p, out) = raw::packet_to(s, devs, entries, payload, to)->Ok_0;
    let src = raw::v6_source(devs, entries, out, dst);
    wire::lemma_v6_octets(src);
    wire::lemma_v6_octets(dst);
    assert(p.subrange(8, 24) =~= src.octets());
    let kind = p[40];
    assert(kind / 32 < 8);
    assert(0u32 & (1u32 << (kind % 32) as u32) == 0) by (bit_vector);
    let buf = p.subrange(40, p.len() as int) + p.skip(p.len() - 40);
    assert(buf.take(payload.len() as int) =~= payload);
}

/// The interface that a packet leaves through is the one that the socket is tied
/// to, else that of the route to the destination.
pub proof fn law_packet_leaves_through(
    s: RawState,
    devs: Seq<DeviceModel>,
    entries: Seq<RouteEntry>,
    payload: Seq<u8>,
    dest: IpEndpoint,
)
    ensures
        ({
            let r = raw::packet_to(s, devs, entries, payload, EndpointModel::Ip(dest));
            let route = routing::spec_route_output(devs, entries, dest.addr);
            &&& r is Ok <==> (s.ip_version == IpVersion::Ipv4 <==> dest.addr is Ipv4)
            &&& r is Err ==> r->Err_0 == SyscallErr::EINVAL
            &&& r is Ok && s.bound_ifindex is Some ==> r->Ok_0.1 == s.bound_ifindex
            &&& r is Ok && s.bound_ifindex is None && route is Ok ==> r->Ok_0.1 == Some(
                route->Ok_0.ifindex,
            )
            &&& r is Ok && s.bound_ifindex is None && route is Err ==> r->Ok_0.1 is None
        }),
{
}

/// An IPv6 packet that leaves through an interface comes from the first of its
/// addresses that is an IPv6 address and not all zeros: byte 8 to 23 spell it.
pub proof fn law_ipv6_source_is_of_the_interface(
    s: RawState,
    devs: Seq<DeviceModel>,
    entries: Seq<RouteEntry>,
    payload: Seq<u8>,
    dst: Ipv6Address,
    i: int,
    j: int,
    a: Ipv6Address,
)
    requires
        s.ip_version == IpVersion::Ipv6,
        0 <= i < devs.len(),
        s.bound_ifindex == Some(devs[i].nic_id),
        forall|k: int| 0 <= k < i ==> (#[trigger] devs[k]).nic_id != devs[i].nic_id,
        0 <= j < devs[i].ip_addrs.len(),
        devs[i].ip_addrs[j].address == IpAddress::Ipv6(a),
        a.bits != 0,
        forall|k: int|
            0 <= k < j ==> ((#[trigger] devs[i].ip_addrs[k]).address is Ipv4
                || devs[i].ip_addrs[k].address->Ipv6_0.bits == 0),
    ensures
        ({
            let to = EndpointModel::Ip(IpEndpoint { addr: IpAddress::Ipv6(dst), port: 0 });
            let (p, out) = raw::packet_to(s, devs, entries, payload, to)->Ok_0;
            &&& out == Some(devs[i].nic_id)
            &&& bytes::be_value(p.subrange(8, 24)) == a.bits
        }),
{
    crate::seqs::lemma_find_first(devs, crate::net_core::indexed(devs[i].nic_id), i);
    let p = raw::is_v6_address();
    assert forall|k: int| 0 <= k < j implies !p(#[trigger] devs[i].ip_addrs[k]) by {
        assert(devs[i].ip_addrs[k].address is Ipv4 || devs[i].ip_addrs[k].address->Ipv6_0.bits
            == 0);
    }
    assert(p(devs[i].ip_addrs[j]));
    crate::seqs::lemma_find_first(devs[i].ip_addrs, p, j);
    let to = EndpointModel::Ip(IpEndpoint { addr: IpAddress::Ipv6(dst), port: 0 });
    let (q, out) = raw::packet_to(s, devs, entries, payload, to)->Ok_0;
    wire::lemma_v6_octets(a);
    wire::lemma_v6_octets(dst);
    lemma_bits(a);
    assert(q.subrange(8, 24) =~= a.octets());
}

/// The packet of an IPv4 socket, by its bytes: version 4 with five words of
/// header, the length of the whole, no fragments, 64 hops, the protocol of the
/// socket, four octets of an address of this machine, the four octets of the
/// destination, and the payload. The words of the header add up to all ones.
pub proof fn law_ipv4_packet_layout(
    s: RawState,
    devs: Seq<DeviceModel>,
    entries: Seq<RouteEntry>,
    payload: Seq<u8>,
    dst: Ipv4Address,
    port: u16,
    m: RawModel,
)
    requires
        s.ip_version == IpVersion::Ipv4,
        payload.len() <= 65515,
        m.state.ip_version == IpVersion::Ipv4,
    ensures
        ({
            let r = raw::packet_to(
                s,
                devs,
                entries,
                payload,
                EndpointModel::Ip(IpEndpoint { addr: IpAddress::Ipv4(dst), port }),
            );
            &&& r matches Ok((p, out))
            &&& p.len() == 20 + payload.len()
            &&& p[0] == 0x45 && p[1] == 0
            &&& 256 * p[2] + p[3] == p.len()
            &&& p[4] == 0 && p[5] == 0 && p[6] == 0 && p[7] == 0
            &&& p[8] == 64
            &&& p[9] == s.ip_protocol
            &&& 16777216 * p[16] + 65536 * p[17] + 256 * p[18] + p[19] == dst.bits
            &&& forall|j: int| 0 <= j < payload.len() ==> #[trigger] p[20 + j] == payload[j]
            &&& checksum::words_sum(p.take(20)) % 65535 == 0
            &&& raw::packet_in(m, p, p.len() as int) == Some(
                (
                    p.len() as isize,
                    IpAddress::Ipv4(raw::v4_source(devs, entries, out, dst)),
                    p,
                ),
            )
        }),
{
    let out = raw::out_ifindex(s, devs, entries, IpAddress::Ipv4(dst));
    let src = raw::v4_source(devs, entries, out, dst);
    let p = raw::ipv4_packet(src, dst, s.ip_protocol, payload);
    wire::lemma_v4_octets(src);
    wire::lemma_v4_octets(dst);
    let total = (20 + payload.len()) as u16;
    bytes::lemma_be_roundtrip(total, 0);
    let d = bytes::be16(total);
    assert(p[2] == d[0] && p[3] == d[1]);
    let a = dst.octets();
    assert(p[16] == a[0] && p[17] == a[1] && p[18] == a[2] && p[19] == a[3]);
    let b = src.octets();
    assert(p[12] == b[0] && p[13] == b[1] && p[14] == b[2] && p[15] == b[3]);
    raw::law_ipv4_header_verifies(src, dst, s.ip_protocol, payload);
    assert forall|j: int| 0 <= j < payload.len() implies #[trigger] p[20 + j] == payload[j] by {
        assert(p.skip(20)[j] == p[20 + j]);
    }
    let sum = checksum::words_sum(p.take(20)) as int;
    assert(sum % 65535 == 0) by {
        assert((sum - 1) % 65535 == 65534);
    }
}

/// An IPv4 packet that leaves through an interface whose first address is an
/// IPv4 address comes from it: bytes 12 to 15 spell it.
pub proof fn law_ipv4_source_is_of_the_interface(
    s: RawState,
    devs: Seq<DeviceModel>,
    entries: Seq<RouteEntry>,
    payload: Seq<u8>,
    dst: Ipv4Address,
    i: int,
    a: Ipv4Address,
)
    requires
        s.ip_version == IpVersion::Ipv4,
        payload.len() <= 65515,
        0 <= i < devs.len(),
        s.bound_ifindex == Some(devs[i].nic_id),
        forall|k: int| 0 <= k < i ==> (#[trigger] devs[k]).nic_id != devs[i].nic_id,
        devs[i].ip_addrs.len() > 0,
        devs[i].ip_addrs[0].address == IpAddress::Ipv4(a),
    ensures
        ({
            let to = EndpointModel::Ip(IpEndpoint { addr: IpAddress::Ipv4(dst), port: 0 });
            let (p, out) = raw::packet_to(s, devs, entries, payload, to)->Ok_0;
            &&& out == Some(devs[i].nic_id)
            &&& 16777216 * p[12] + 65536 * p[13] + 256 * p[14] + p[15] == a.bits
        }),
{
    crate::seqs::lemma_find_first(devs, crate::net_core::indexed(devs[i].nic_id), i);
    let to = EndpointModel::Ip(IpEndpoint { addr: IpAddress::Ipv4(dst), port: 0 });
    let (p, out) = raw::packet_to(s, devs, entries, payload, to)->Ok_0;
    wire::lemma_v4_octets(a);
    let b = a.octets();
    assert(p[12] == b[0] && p[13] == b[1] && p[14] == b[2] && p[15] == b[3]);
}

/// A receiver of the checksum of an IPv6 payload finds it in order: over the
/// addresses, the length, the protocol and the payload the words add up to all
/// ones.
pub proof fn law_ipv6_checksum_verifies(
    src: Ipv6Address,
    dst: Ipv6Address,
    protocol: u8,
    payload: Seq<u8>,
    off: u32,
)
    requires
        off % 2 == 0,
        off + 2 <= payload.len() <= 65535,
        protocol > 0,
    ensures
        ({
            let p = raw::summed_payload(src, dst, protocol, payload, Some(off));
            &&& p.len() == payload.len()
            &&& (checksum::words_sum(src.octets()) + checksum::words_sum(dst.octets()) + p.len()
                + protocol + checksum::words_sum(p)) % 65535 == 0
        }),
{
    let z = checksum::with_checksum(payload, off as int, 0);
    let len = payload.len() as u32;
    let head = checksum::pseudo_sum(src.octets(), dst.octets(), len, protocol);
    let sum = head + checksum::words_sum(z);
    let c = checksum::complement(sum);
    checksum::lemma_complement(sum);
    checksum::lemma_checksum_adds(payload, off as int, c);
    assert(len / 65536 == 0 && len % 65536 == len);
    assert((sum + c) % 65535 == 0) by {
        assert(checksum::fold(sum + c) == 65535);
        assert((sum + c - 1) % 65535 == 65534);
    }
}

/// A message goes to the destination that is named, else to the peer.
pub proof fn law_raw_target(s: RawState, dest: EndpointModel)
    ensures
        raw::send_target(s, Some(dest)) == Some(dest),
        s.remote_endpoint matches Some(e) ==> raw::send_target(s, None) == Some(
            EndpointModel::Ip(e),
        ),
        s.remote_endpoint is None ==> raw::send_target(s, None) is None,
{
}

/// An ICMPv6 message whose type has its bit set in the filter is not received, and
/// one whose type has not is: bit `kind % 32` of word `kind / 32`.
pub proof fn law_type_filter(m: RawModel, buf: Seq<u8>, n: int, bit: u32)
    requires
        m.state.ip_version == IpVersion::Ipv6,
        m.filter.len() == 8,
        40 < n <= buf.len() <= isize::MAX,
        bit == m.filter[buf[40] as int / 32] & (1u32 << (buf[40] % 32) as u32),
    ensures
        bit != 0 ==> raw::packet_in(m, buf, n) is None,
        bit == 0 ==> {
            &&& raw::packet_in(m, buf, n) matches Some((k, from, out))
            &&& k == n - 40
            &&& out.len() == buf.len()
            &&& out.take(k as int) == buf.subrange(40, n)
            &&& from is Ipv6
        },
{
    let out = buf.subrange(40, n) + buf.skip(n - 40);
    assert(out.take(n - 40) =~= buf.subrange(40, n));
}

/// What a send is answered: as many bytes as were sent, that there is no room, or
/// to wait where the stack has no such socket.
pub proof fn law_raw_send_answers(len: usize)
    ensures
        raw::send_result(Some(true), len) == Ok::<usize, SyscallErr>(len),
        raw::send_result(Some(false), len) == Err::<usize, SyscallErr>(SyscallErr::ENOBUFS),
        raw::send_result(None, len) == Err::<usize, SyscallErr>(SyscallErr::EAGAIN),
{
}

/// After a packet the socket answers whoever sent it.
pub proof fn law_raw_remembers_the_sender(m: RawModel, addr: IpAddress)
    ensures
        raw::from_source(m, addr).state.remote_endpoint == Some(IpEndpoint { addr, port: 0 }),
        raw::from_source(m, addr).state.local_endpoint == m.state.local_endpoint,
        raw::from_source(m, addr).filter == m.filter,
{
}

/// A checksum is over words of two bytes, the first byte the higher; a byte that is
/// left over counts as the higher one of a word.
pub proof fn law_words(a: u8, b: u8, s: Seq<u8>)
    ensures
        checksum::words_sum(Seq::empty()) == 0,
        checksum::words_sum(seq![a]) == 256 * a,
        checksum::words_sum(seq![a, b]) == 256 * a + b,
        checksum::words_sum(seq![a, b] + s) == 256 * a + b + checksum::words_sum(s),
{
    assert(seq![a, b].skip(2) =~= Seq::<u8>::empty());
    assert((seq![a, b] + s).skip(2) =~= s);
}

/// A payload gets its checksum in the two bytes at the offset, and nothing else of
/// it changes; where the offset leaves no room for it, and where none is asked
/// for, the payload goes as it is.
pub proof fn law_checksum_place(
    src: Ipv6Address,
    dst: Ipv6Address,
    protocol: u8,
    payload: Seq<u8>,
    off: u32,
    i: int,
)
    ensures
        raw::summed_payload(src, dst, protocol, payload, None) == payload,
        off + 2 > payload.len() ==> raw::summed_payload(src, dst, protocol, payload, Some(off))
            == payload,
        0 <= i < payload.len() && i != off && i != off + 1 ==> raw::summed_payload(
            src,
            dst,
            protocol,
            payload,
            Some(off),
        )[i] == payload[i],
{
}

/// A packet that came in is handed over by its version: over IPv4 whole, with the
/// sender out of bytes 12 to 15; over IPv6 from byte 40 on, with the sender out of
/// bytes 8 to 23, unless the filter holds it back by its first byte.
pub proof fn law_packet_comes_in(m: RawModel, buf: Seq<u8>, n: int)
    requires
        40 < n <= buf.len() <= isize::MAX,
    ensures
        m.state.ip_version == IpVersion::Ipv4 ==> {
            &&& raw::packet_in(m, buf, n) matches Some((k, from, out))
            &&& k == n && out == buf
            &&& from matches IpAddress::Ipv4(a)
            &&& a.bits == 16777216 * buf[12] + 65536 * buf[13] + 256 * buf[14] + buf[15]
        },
        m.state.ip_version == IpVersion::Ipv6 && raw::filtered(m.filter, buf[40])
            ==> raw::packet_in(m, buf, n) is None,
        m.state.ip_version == IpVersion::Ipv6 && !raw::filtered(m.filter, buf[40]) ==> {
            &&& raw::packet_in(m, buf, n) matches Some((k, from, out))
            &&& k == n - 40
            &&& from matches IpAddress::Ipv6(a)
            &&& a.bits == bytes::be_value(buf.subrange(8, 24))
            &&& out.len() == buf.len()
            &&& forall|i: int| 0 <= i < k ==> #[trigger] out[i] == buf[i + 40]
            &&& forall|i: int| k <= i < buf.len() ==> #[trigger] out[i] == buf[i]
        },
{
    bytes::lemma_be32_of_octets(buf[12], buf[13], buf[14], buf[15]);
    bytes::lemma_be_value_bound(buf.subrange(8, 24));
    wire::lemma_pow256_16(16);
}

} // verus!
