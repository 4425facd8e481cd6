//! The netlink wire format: constants, attributes and messages.
use vstd::prelude::*;
use crate::bytes;
use crate::socket::netlink::segment;

verus! {

/// AF_NETLINK (from linux/socket.h)
pub const AF_NETLINK: u16 = 16;

/// Alignment for netlink messages (4 bytes)
pub const NLMSG_ALIGNTO: usize = 4;

/// No operation
pub const NLMSG_NOOP: u16 = 1;

/// Error (payload is nlmsgerr)
pub const NLMSG_ERROR: u16 = 2;

/// End of a multipart message
pub const NLMSG_DONE: u16 = 3;

/// Data lost
pub const NLMSG_OVERRUN: u16 = 4;

/// Lowest type number for application-specific messages
pub const NLMSG_MIN_TYPE: u16 = 0x10;

/// Request (must be set for all requests)
pub const NLM_F_REQUEST: u16 = 0x01;

/// Multipart message (terminated by NLMSG_DONE)
pub const NLM_F_MULTI: u16 = 0x02;

/// Reply with ack (nlmsgerr with errno=0 on success)
pub const NLM_F_ACK: u16 = 0x04;

/// Echo request (suppress normal response, emit notification)
pub const NLM_F_ECHO: u16 = 0x08;

/// Return the complete table (not just active entries) — used with GET
pub const NLM_F_ROOT: u16 = 0x100;

/// Return all matching entries — used with GET
pub const NLM_F_MATCH: u16 = 0x200;

/// Atomic operation — used with GET
pub const NLM_F_ATOMIC: u16 = 0x400;

/// Convenience: NLM_F_ROOT | NLM_F_MATCH (flags for dump request)
pub const NLM_F_DUMP: u16 = 0x300;

/// Replace existing entry
pub const NLM_F_REPLACE: u16 = 0x100;

/// Do not create, error if exists
pub const NLM_F_EXCL: u16 = 0x200;

/// Create entry if it does not exist
pub const NLM_F_CREATE: u16 = 0x400;

/// Add at end of list
pub const NLM_F_APPEND: u16 = 0x800;

/// Attribute is nested (contains sub-attributes)
pub const NLA_F_NESTED: u16 = 0x8000;

/// Attribute payload is in network byte order
pub const NLA_F_NET_BYTEORDER: u16 = 0x4000;

/// Add network link
pub const RTM_NEWLINK: u16 = 16;

/// Delete network link
pub const RTM_DELLINK: u16 = 17;

/// Get network link configuration
pub const RTM_GETLINK: u16 = 18;

/// Set network link configuration
pub const RTM_SETLINK: u16 = 19;

/// Add network address
pub const RTM_NEWADDR: u16 = 20;

/// Delete network address
pub const RTM_DELADDR: u16 = 21;

/// Get network address configuration
pub const RTM_GETADDR: u16 = 22;

/// Add route
pub const RTM_NEWROUTE: u16 = 24;

/// Delete route
pub const RTM_DELROUTE: u16 = 25;

/// Get route table
pub const RTM_GETROUTE: u16 = 26;

/// Add neighbour table entry
pub const RTM_NEWNEIGH: u16 = 28;

/// Delete neighbour table entry
pub const RTM_DELNEIGH: u16 = 29;

/// Get neighbour table
pub const RTM_GETNEIGH: u16 = 30;

/// Add routing rule
pub const RTM_NEWRULE: u16 = 32;

/// Delete routing rule
pub const RTM_DELRULE: u16 = 33;

/// Get routing rule table
pub const RTM_GETRULE: u16 = 34;

/// Unspecified (padding)
pub const IFLA_UNSPEC: u16 = 0;

/// Interface L2 address
pub const IFLA_ADDRESS: u16 = 1;

/// Interface broadcast address
pub const IFLA_BROADCAST: u16 = 2;

/// Interface name (NUL-terminated string)
pub const IFLA_IFNAME: u16 = 3;

/// Interface MTU
pub const IFLA_MTU: u16 = 4;

/// Link type (index of underlying interface, e.g. VLAN parent)
pub const IFLA_LINK: u16 = 5;

/// Queueing discipline
pub const IFLA_QDISC: u16 = 6;

/// Interface statistics (32-bit counters)
pub const IFLA_STATS: u16 = 7;

/// Path cost
pub const IFLA_COST: u16 = 8;

/// Interface priority
pub const IFLA_PRIORITY: u16 = 9;

/// Master (bridge/bond) interface index
pub const IFLA_MASTER: u16 = 10;

/// Wireless extensions
pub const IFLA_WIRELESS: u16 = 11;

/// Protocol-specific info (e.g. spanning tree per-port)
pub const IFLA_PROTINFO: u16 = 12;

/// Interface transmit queue length
pub const IFLA_TXQLEN: u16 = 13;

/// Device-level HW address map
pub const IFLA_MAP: u16 = 14;

/// Interface weight
pub const IFLA_WEIGHT: u16 = 15;

/// Interface operational state (IF_OPER_*)
pub const IFLA_OPERSTATE: u16 = 16;

/// Interface link mode
pub const IFLA_LINKMODE: u16 = 17;

/// Link info nested attribute (contains IFLA_INFO_KIND, IFLA_INFO_DATA, etc.)
pub const IFLA_LINKINFO: u16 = 18;

/// PID of network namespace (target ns for move)
pub const IFLA_NET_NS_PID: u16 = 19;

/// Interface alias (text name)
pub const IFLA_IFALIAS: u16 = 20;

/// Number of SR-IOV virtual functions
pub const IFLA_NUM_VF: u16 = 21;

/// VF info list nested attribute
pub const IFLA_VFINFO_LIST: u16 = 22;

/// Interface statistics (64-bit counters)
pub const IFLA_STATS64: u16 = 23;

/// VF ports nested attribute
pub const IFLA_VF_PORTS: u16 = 24;

/// Port self nested attribute
pub const IFLA_PORT_SELF: u16 = 25;

/// AF-specific attribute block
pub const IFLA_AF_SPEC: u16 = 26;

/// Interface group
pub const IFLA_GROUP: u16 = 27;

/// FD referring to target network namespace
pub const IFLA_NET_NS_FD: u16 = 28;

/// Extended mask (bitmask of IFLA_EXT_*)
pub const IFLA_EXT_MASK: u16 = 29;

/// Promiscuity count
pub const IFLA_PROMISCUITY: u16 = 30;

/// Number of TX queues
pub const IFLA_NUM_TX_QUEUES: u16 = 31;

/// Number of RX queues
pub const IFLA_NUM_RX_QUEUES: u16 = 32;

/// Carrier state (0=down, 1=up)
pub const IFLA_CARRIER: u16 = 33;

/// Physical port identifier (OID)
pub const IFLA_PHYS_PORT_ID: u16 = 34;

/// Carrier up/down changes counter
pub const IFLA_CARRIER_CHANGES: u16 = 35;

/// Physical switch identifier (OID)
pub const IFLA_PHYS_SWITCH_ID: u16 = 36;

/// Link netns ID for cross-netns references
pub const IFLA_LINK_NETNSID: u16 = 37;

/// Protocol-down reason
pub const IFLA_PROTO_DOWN: u16 = 38;

/// Maximum GSO segment count
pub const IFLA_GSO_MAX_SEGS: u16 = 39;

/// Maximum GSO segment size
pub const IFLA_GSO_MAX_SIZE: u16 = 40;

/// Link kind (e.g. "veth", "bridge") — NUL-terminated string
pub const IFLA_INFO_KIND: u16 = 1;

/// Link kind-specific data — nested
pub const IFLA_INFO_DATA: u16 = 2;

/// Link kind-specific statistics — nested
pub const IFLA_INFO_XSTATS: u16 = 3;

/// Peer info: contains ifinfomsg + IFLA_IFNAME attributes
pub const VETH_INFO_PEER: u16 = 1;

/// Unspecified (padding)
pub const IFA_UNSPEC: u16 = 0;

/// Interface address (primary address)
pub const IFA_ADDRESS: u16 = 1;

/// Local address (for point-to-point links)
pub const IFA_LOCAL: u16 = 2;

/// Address label (e.g. "eth0:0")
pub const IFA_LABEL: u16 = 3;

/// Broadcast address
pub const IFA_BROADCAST: u16 = 4;

/// Anycast address
pub const IFA_ANYCAST: u16 = 5;

/// Address cache info (ifa_cacheinfo struct)
pub const IFA_CACHEINFO: u16 = 6;

/// Multicast address
pub const IFA_MULTICAST: u16 = 7;

/// Address flags (IFA_F_* bitmask)
pub const IFA_FLAGS: u16 = 8;

/// Destination address
pub const RTA_DST: u16 = 1;

/// Output interface index
pub const RTA_OIF: u16 = 4;

/// Gateway address
pub const RTA_GATEWAY: u16 = 5;

/// Ethernet (10/100/1000 Mb)
pub const ARPHRD_ETHER: u16 = 1;

/// Loopback device
pub const ARPHRD_LOOPBACK: u16 = 772;

/// Link state changes (RTM_NEWLINK / RTM_DELLINK)
pub const RTMGRP_LINK: u32 = 1;

/// IPv4 interface address changes (RTM_NEWADDR / RTM_DELADDR)
pub const RTMGRP_IPV4_IFADDR: u32 = 0x10;

/// IPv4 route changes (RTM_NEWROUTE / RTM_DELROUTE)
pub const RTMGRP_IPV4_ROUTE: u32 = 0x40;

/// `len` rounded up to a multiple of four.
pub open spec fn aligned(len: int) -> int {
    (len + 3) / 4 * 4
}

/// `n` zero bytes.
pub open spec fn zero_bytes(n: int) -> Seq<u8> {
    Seq::new(n as nat, |i: int| 0u8)
}

/// An attribute as it stands in a message: length with the header, type,
/// payload, and zeros up to the next multiple of four. A length that does not
/// fit in sixteen bits is cut.
pub open spec fn rta(rta_type: u16, payload: Seq<u8>) -> Seq<u8> {
    bytes::le16((payload.len() % 65536 + 4) as u16) + bytes::le16(rta_type) + payload + zero_bytes(
        aligned(payload.len() as int) - payload.len(),
    )
}

/// The sixteen bytes of a message header.
pub open spec fn nl_header(len: u32, msg_type: u16, flags: u16, seq: u32, pid: u32) -> Seq<u8> {
    bytes::le32(len) + bytes::le16(msg_type) + bytes::le16(flags) + bytes::le32(seq)
        + bytes::le32(pid)
}

/// A message: the header with the length of the whole, the payload, and zeros
/// up to the next multiple of four.
pub open spec fn nlmsg(msg_type: u16, flags: u16, seq: u32, pid: u32, payload: Seq<u8>) -> Seq<u8> {
    nl_header(
        ((16 + aligned(payload.len() as int)) % 0x1_0000_0000) as u32,
        msg_type,
        flags,
        seq,
        pid,
    ) + payload + zero_bytes(aligned(payload.len() as int) - payload.len())
}

/// The reply that reports `errno` for the request whose header is `orig`; zero
/// acknowledges it.
pub open spec fn nlmsg_error(errno: i32, seq: u32, pid: u32, orig: Seq<u8>) -> Seq<u8> {
    nlmsg(NLMSG_ERROR, 0, seq, pid, bytes::le32(bytes::u32_of((-errno) as i32)) + orig)
}

/// The low 32 bits of a length.
pub(crate) fn low32(n: usize) -> (r: u32)
    ensures
        r == n as int % 0x1_0000_0000,
{
    (n as u64 % 0x1_0000_0000u64) as u32
}

/// Aligns a length to the next multiple of [`NLMSG_ALIGNTO`].
pub fn nlmsg_align(len: usize) -> (r: usize)
    requires
        len <= usize::MAX - 3,
    ensures
        r == aligned(len as int),
        len <= r < len + 4,
        r % 4 == 0,
{
    (len + (NLMSG_ALIGNTO - 1)) / NLMSG_ALIGNTO * NLMSG_ALIGNTO
}

fn push_zeros(buf: &mut Vec<u8>, n: usize)
    ensures
        final(buf)@ == old(buf)@ + zero_bytes(n as int),
{
    let ghost before = buf@;
    let mut i: usize = 0;
    while i < n
        invariant
            i <= n,
            buf@ =~= before + zero_bytes(i as int),
        decreases n - i,
    {
        buf.push(0);
        i = i + 1;
    }
}

/// Builds an attribute.
pub fn rta_data(rta_type: u16, payload: &[u8]) -> (r: Vec<u8>)
    requires
        payload@.len() <= usize::MAX - 7,
        payload@.len() % 65536 <= 65531,
    ensures
        r@ == rta(rta_type, payload@),
        r@.len() == 4 + aligned(payload@.len() as int),
{
    let n: usize = payload.len();
    let len: u16 = (n % 65536) as u16 + 4;
    let mut buf: Vec<u8> = Vec::new();
    pu16(&mut buf, len);
    pu16(&mut buf, rta_type);
    bytes::append_bytes(&mut buf, payload);
    push_zeros(&mut buf, nlmsg_align(n) - n);
    buf
}

pub fn pu32(buf: &mut Vec<u8>, v: u32)
    ensures
        final(buf)@ == old(buf)@ + bytes::le32(v),
{
    bytes::put_u32_le(buf, v);
}

pub fn pu16(buf: &mut Vec<u8>, v: u16)
    ensures
        final(buf)@ == old(buf)@ + bytes::le16(v),
{
    bytes::put_u16_le(buf, v);
}

pub fn pu8(buf: &mut Vec<u8>, v: u8)
    ensures
        final(buf)@ == old(buf)@.push(v),
{
    buf.push(v);
}

/// Builds a message: header, payload, padding.
pub fn build_nlmsg(msg_type: u16, flags: u16, seq: u32, pid: u32, payload: &[u8]) -> (r: Vec<u8>)
    requires
        payload@.len() <= usize::MAX - 19,
    ensures
        r@ == nlmsg(msg_type, flags, seq, pid, payload@),
        r@.len() == 16 + aligned(payload@.len() as int),
{
    let n: usize = payload.len();
    let body: usize = nlmsg_align(n);
    let mut buf: Vec<u8> = Vec::new();
    pu32(&mut buf, low32(16 + body));
    pu16(&mut buf, msg_type);
    pu16(&mut buf, flags);
    pu32(&mut buf, seq);
    pu32(&mut buf, pid);
    bytes::append_bytes(&mut buf, payload);
    push_zeros(&mut buf, body - n);
    buf
}

/// Builds the reply that reports an error, or none, for a request.
/// `orig` is the header of the request.
pub fn build_nlmsg_error(errno: i32, seq: u32, pid: u32, orig: &[u8; 16]) -> (r: Vec<u8>)
    requires
        errno > i32::MIN,
    ensures
        r@ == nlmsg_error(errno, seq, pid, orig@),
        r@.len() == 36,
{
    let mut payload: Vec<u8> = Vec::new();
    pu32(&mut payload, bytes::to_u32(-errno));
    let mut i: usize = 0;
    let ghost head = payload@;
    while i < 16
        invariant
            i <= 16,
            orig@.len() == 16,
            payload@ =~= head + orig@.take(i as int),
        decreases 16 - i,
    {
        payload.push(orig[i]);
        i = i + 1;
    }
    assert(orig@.take(16) =~= orig@);
    build_nlmsg(NLMSG_ERROR, 0, seq, pid, &payload)
}

/// A message is a multiple of four bytes long, and a reader finds in its
/// header what the writer was given.
#[verifier::rlimit(40)]
pub proof fn law_message_header(msg_type: u16, flags: u16, seq: u32, pid: u32, payload: Seq<u8>)
    requires
        16 + aligned(payload.len() as int) <= u32::MAX,
    ensures
        ({
            let m = nlmsg(msg_type, flags, seq, pid, payload);
            &&& m.len() % 4 == 0
            &&& bytes::u32_le_at(m, 0) == m.len()
            &&& bytes::u16_le_at(m, 4) == msg_type
            &&& bytes::u16_le_at(m, 6) == flags
            &&& bytes::u32_le_at(m, 8) == seq
            &&& bytes::u32_le_at(m, 12) == pid
            &&& m.subrange(16, 16 + payload.len() as int) == payload
        }),
{
    let m = nlmsg(msg_type, flags, seq, pid, payload);
    let len = (16 + aligned(payload.len() as int)) as u32;
    let h = segment::CMsgSegHdr { len, type_: msg_type, flags, seq, pid };
    let head = nl_header(len, msg_type, flags, seq, pid);
    let zeros = zero_bytes(aligned(payload.len() as int) - payload.len());
    assert(head =~= h.wire());
    assert(m == head + payload + zeros);
    lemma_three_parts(head, payload, zeros);
    segment::lemma_header_roundtrip(h, m, 0);
}

proof fn lemma_three_parts(a: Seq<u8>, b: Seq<u8>, c: Seq<u8>)
    ensures
        (a + b + c).subrange(0, a.len() as int) == a,
        (a + b + c).subrange(a.len() as int, (a.len() + b.len()) as int) == b,
{
    assert((a + b + c).subrange(0, a.len() as int) =~= a);
    assert((a + b + c).subrange(a.len() as int, (a.len() + b.len()) as int) =~= b);
}

} // verus!
