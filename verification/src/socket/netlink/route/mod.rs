//! The requests of the route family: interfaces, addresses, routes and
//! neighbours.
use vstd::prelude::*;
use crate::bytes;
use crate::error::SyscallErr;
use crate::iface::DeviceModel;
use crate::neighbour::{EntryModel, NeighbourKey, NeighbourRow, NeighbourTable};
use crate::net_core::{NetGlobals, NetNamespace};
use crate::routing::RouteEntry;
use crate::socket::netlink;
use crate::socket::netlink::netlink as wire_format;
use crate::socket::netlink::attr;
use crate::socket::netlink::route::link::{LinkStep, StepReply};
use crate::socket::netlink::segment::{
    CMsgSegHdr,
    DoneSegment,
    DoneSegmentBody,
    ErrorSegment,
    ErrorSegmentBody,
    RouteNlSegment,
    SegmentCommon,
};
use crate::socket::netlink::NetlinkSocket;
use crate::wire::IpCidr;

pub mod addr;
pub mod dump;
pub mod link;
pub mod neigh;
pub mod route;

verus! {

/// A change that the protocol stack of an interface has to follow.
#[derive(Clone, Copy, Debug, PartialEq, Eq, Structural)]
pub enum StackOp {
    RemoveIp { ifindex: u32, cidr: IpCidr },
    AddIp { ifindex: u32, cidr: IpCidr },
}

/// What the requests of the route family read and change.
pub struct RouteState {
    pub ns: NetNamespace,
    pub globals: NetGlobals,
    pub neighbours: NeighbourTable,
    /// What the stacks have not been told yet, oldest first.
    pub stack_ops: Vec<StackOp>,
}

/// What a [`RouteState`] holds.
#[verifier::ext_equal]
pub struct NetModel {
    pub devs: Seq<DeviceModel>,
    pub entries: Seq<RouteEntry>,
    pub globals: NetGlobals,
    pub neighbours: Map<NeighbourKey, EntryModel>,
    pub stack_ops: Seq<StackOp>,
}

impl View for RouteState {
    type V = NetModel;

    open spec fn view(&self) -> NetModel {
        NetModel {
            devs: self.ns.devs(),
            entries: self.ns.router.table.entries@,
            globals: self.globals,
            neighbours: self.neighbours@,
            stack_ops: self.stack_ops@,
        }
    }
}

impl RouteState {
    pub open spec fn wf(self) -> bool {
        self.ns.wf() && self.globals.wf() && self.neighbours.wf()
    }
}

/// The queue of the socket, the state, and what the call returns.
pub type Reply = (Seq<Seq<u8>>, NetModel, Result<isize, SyscallErr>);

/// Answering with one message; `ENOBUFS` where the queue does not take it.
pub open spec fn answer(q: Seq<Seq<u8>>, n: NetModel, msg: Seq<u8>) -> Reply {
    if netlink::accepts(q, msg) {
        (q.push(msg), n, Ok(0))
    } else {
        (q, n, Err(SyscallErr::ENOBUFS))
    }
}

/// Answering with several messages, up to the first that the queue does not
/// take.
pub open spec fn answer_all(q: Seq<Seq<u8>>, n: NetModel, msgs: Seq<Seq<u8>>) -> Reply {
    let (q2, all) = netlink::deliver(q, msgs);
    (
        q2,
        n,
        if all {
            Ok(0)
        } else {
            Err(SyscallErr::ENOBUFS)
        },
    )
}

/// Answering a request with an error number; zero acknowledges it.
pub open spec fn answer_errno(
    q: Seq<Seq<u8>>,
    n: NetModel,
    errno: i32,
    seq: u32,
    pid: u32,
    buf: Seq<u8>,
) -> Reply {
    answer(q, n, wire_format::nlmsg_error(errno, seq, pid, buf.take(16)))
}

/// The header of a request.
fn header_of(buf: &[u8]) -> (r: [u8; 16])
    requires
        buf@.len() >= 16,
    ensures
        r@ == buf@.take(16),
{
    let r: [u8; 16] = [
        buf[0],
        buf[1],
        buf[2],
        buf[3],
        buf[4],
        buf[5],
        buf[6],
        buf[7],
        buf[8],
        buf[9],
        buf[10],
        buf[11],
        buf[12],
        buf[13],
        buf[14],
        buf[15],
    ];
    assert(r@ =~= buf@.take(16));
    r
}

/// Queues the answer with an error number.
pub fn send_error(
    sock: &mut NetlinkSocket,
    net: &RouteState,
    buf: &[u8],
    seq: u32,
    pid: u32,
    errno: i32,
) -> (r: Result<isize, SyscallErr>)
    requires
        old(sock).wf(),
        buf@.len() >= 16,
        errno > i32::MIN,
    ensures
        final(sock).wf(),
        final(sock).local_portid == old(sock).local_portid,
        (final(sock).queue(), net@, r) == answer_errno(old(sock).queue(), net@, errno, seq, pid, buf@),
{
    let orig = header_of(buf);
    if sock.push_recv(wire_format::build_nlmsg_error(errno, seq, pid, &orig)) {
        Ok(0)
    } else {
        Err(SyscallErr::ENOBUFS)
    }
}

/// Queues the answer that acknowledges a request.
pub fn send_ack(
    sock: &mut NetlinkSocket,
    net: &RouteState,
    buf: &[u8],
    seq: u32,
    pid: u32,
) -> (r: Result<isize, SyscallErr>)
    requires
        old(sock).wf(),
        buf@.len() >= 16,
    ensures
        final(sock).wf(),
        final(sock).local_portid == old(sock).local_portid,
        (final(sock).queue(), net@, r) == answer_errno(old(sock).queue(), net@, 0, seq, pid, buf@),
{
    send_error(sock, net, buf, seq, pid, 0)
}

/// Type, flags, sequence number and port id of a request.
pub fn parse_nlmsg(buf: &[u8]) -> (r: Option<(u16, u16, u32, u32)>)
    ensures
        r == if buf@.len() < 16 {
            None
        } else {
            Some(
                (
                    bytes::u16_le_at(buf@, 4),
                    bytes::u16_le_at(buf@, 6),
                    bytes::u32_le_at(buf@, 8),
                    bytes::u32_le_at(buf@, 12),
                ),
            )
        },
{
    if buf.len() < 16 {
        return None;
    }
    Some(
        (
            bytes::get_u16_le(buf, 4),
            bytes::get_u16_le(buf, 6),
            bytes::get_u32_le(buf, 8),
            bytes::get_u32_le(buf, 12),
        ),
    )
}

/// A request with that type and those flags asks for a list.
pub open spec fn asks_for_dump(msg_type: u16, flags: u16) -> bool {
    &&& msg_type == wire_format::RTM_GETLINK || msg_type == wire_format::RTM_GETADDR || msg_type
        == wire_format::RTM_GETROUTE || msg_type == wire_format::RTM_GETNEIGH
    &&& flags & (wire_format::NLM_F_DUMP | wire_format::NLM_F_ROOT) != 0
}

/// What a request is answered before failures are reported.
pub open spec fn dispatched(
    q: Seq<Seq<u8>>,
    n: NetModel,
    rows: Seq<NeighbourRow>,
    pid: u32,
    buf: Seq<u8>,
) -> StepReply {
    let t = bytes::u16_le_at(buf, 4);
    let flags = bytes::u16_le_at(buf, 6);
    let seq = bytes::u32_le_at(buf, 8);
    if asks_for_dump(t, flags) {
        let list = if t == wire_format::RTM_GETLINK {
            dump::link_msgs(n.devs, seq, pid)
        } else if t == wire_format::RTM_GETADDR {
            dump::addr_msgs(n.devs, seq, pid)
        } else if t == wire_format::RTM_GETROUTE {
            dump::route_msgs(n.entries, seq, pid)
        } else {
            dump::neigh_msgs(rows, seq, pid)
        };
        link::replied(answer_all(q, n, list.push(dump::done_msg(seq, pid))))
    } else if t == wire_format::RTM_NEWADDR {
        link::replied(addr::newaddr(q, n, seq, pid, flags, buf))
    } else if t == wire_format::RTM_DELADDR {
        link::replied(addr::deladdr(q, n, seq, pid, buf))
    } else if t == wire_format::RTM_NEWLINK {
        link::newlink(q, n, seq, pid, buf)
    } else if t == wire_format::RTM_DELLINK {
        link::dellink(q, n, seq, pid, buf)
    } else if t == wire_format::RTM_SETLINK {
        link::replied(link::setlink(q, n, seq, pid, buf))
    } else if t == wire_format::RTM_NEWROUTE {
        link::replied(route::newroute(q, n, seq, pid, flags, buf))
    } else if t == wire_format::RTM_DELROUTE {
        link::replied(route::delroute(q, n, seq, pid, buf))
    } else if t == wire_format::RTM_DELNEIGH {
        link::replied(neigh::delneigh(q, n, seq, pid, buf))
    } else if t == wire_format::RTM_NEWNEIGH {
        link::replied(neigh::newneigh(q, n, buf))
    } else if t == wire_format::RTM_GETNEIGH {
        link::replied(neigh::getneigh(q, n, seq, pid, buf))
    } else if t == wire_format::RTM_GETLINK {
        link::replied(neigh::getlink(q, n, seq, pid, buf))
    } else {
        (q, n, Err(SyscallErr::EOPNOTSUPP))
    }
}

/// A failure is reported to the sender of the request in a message; only where
/// there is no room for that does the call fail.
pub open spec fn reported(r: StepReply, seq: u32, pid: u32, buf: Seq<u8>) -> StepReply {
    match r.2 {
        Ok(_) => r,
        Err(e) => link::replied(answer_errno(r.0, r.1, e.spec_errno() as i32, seq, pid, buf)),
    }
}

/// What a message to the kernel is answered. Anything but a request is
/// ignored.
pub open spec fn handled(
    q: Seq<Seq<u8>>,
    n: NetModel,
    rows: Seq<NeighbourRow>,
    pid: u32,
    buf: Seq<u8>,
) -> StepReply {
    if buf.len() < 16 || bytes::u16_le_at(buf, 6) & wire_format::NLM_F_REQUEST == 0 {
        (q, n, Ok(link::StepModel::Replied))
    } else {
        reported(dispatched(q, n, rows, pid, buf), bytes::u32_le_at(buf, 8), pid, buf)
    }
}

/// The prefixes of a request are not longer than their addresses, and names
/// that have to be written fit in attributes.
pub open spec fn request_fits(n: NetModel, buf: Seq<u8>) -> bool {
    let t = bytes::u16_le_at(buf, 4);
    buf.len() >= 16 ==> {
        &&& t == wire_format::RTM_GETLINK || t == wire_format::RTM_GETADDR ==> dump::names_fit(
            n.devs,
        )
        &&& t == wire_format::RTM_NEWADDR || t == wire_format::RTM_DELADDR ==> addr::prefix_fits(
            buf,
        )
        &&& t == wire_format::RTM_NEWROUTE ==> route::new_dst_fits(buf)
        &&& t == wire_format::RTM_DELROUTE ==> route::dst_fits(buf)
    }
}

/// Reports the outcome of a request to its sender; see [`reported`].
pub fn finish_request(
    seq: u32,
    pid: u32,
    buf: &[u8],
    result: Result<LinkStep, SyscallErr>,
    sock: &mut NetlinkSocket,
    net: &RouteState,
) -> (r: Result<LinkStep, SyscallErr>)
    requires
        old(sock).wf(),
        buf@.len() >= 16,
    ensures
        final(sock).wf(),
        final(sock).local_portid == old(sock).local_portid,
        (final(sock).queue(), net@, link::step_result(r)) == reported(
            (old(sock).queue(), net@, link::step_result(result)),
            seq,
            pid,
            buf@,
        ),
{
    match result {
        Ok(s) => Ok(s),
        Err(e) => link::no_step(send_error(sock, net, buf, seq, pid, e.errno())),
    }
}

/// Acknowledges that a pair of interfaces was created or deleted. Says also
/// whether a pair that was created has to go again, because its creation could
/// not be acknowledged.
pub fn finish_pair(
    seq: u32,
    pid: u32,
    buf: &[u8],
    created: bool,
    sock: &mut NetlinkSocket,
    net: &RouteState,
) -> (r: (bool, Result<LinkStep, SyscallErr>))
    requires
        old(sock).wf(),
        buf@.len() >= 16,
    ensures
        final(sock).wf(),
        final(sock).local_portid == old(sock).local_portid,
        ({
            let acknowledged = answer_errno(old(sock).queue(), net@, 0, seq, pid, buf@);
            &&& r.0 == (created && acknowledged.2 is Err)
            &&& (final(sock).queue(), net@, link::step_result(r.1)) == reported(
                link::replied(acknowledged),
                seq,
                pid,
                buf@,
            )
        }),
{
    let acknowledged = send_ack(sock, net, buf, seq, pid);
    let undo = created && acknowledged.is_err();
    let step = link::no_step(acknowledged);
    (undo, finish_request(seq, pid, buf, step, sock, net))
}

/// Deals with a message to the kernel.
#[verifier::rlimit(60)]
pub fn handle_netlink_msg(buf: &[u8], sock: &mut NetlinkSocket, net: &mut RouteState) -> (r: Result<
    LinkStep,
    SyscallErr,
>)
    requires
        old(sock).wf(),
        old(net).wf(),
        request_fits(old(net)@, buf@),
    ensures
        final(sock).wf(),
        final(net).wf(),
        final(sock).local_portid == old(sock).local_portid,
        (final(sock).queue(), final(net)@, link::step_result(r)) == handled(
            old(sock).queue(),
            old(net)@,
            old(net).neighbours.rows@,
            old(sock).local_portid,
            buf@,
        ),
{
    let (msg_type, flags, seq, _) = match parse_nlmsg(buf) {
        Some(v) => v,
        None => return Ok(LinkStep::Replied),
    };
    if flags & wire_format::NLM_F_REQUEST == 0 {
        return Ok(LinkStep::Replied);
    }
    let pid: u32 = sock.local_portid();
    let is_get: bool = msg_type == wire_format::RTM_GETLINK || msg_type == wire_format::RTM_GETADDR
        || msg_type == wire_format::RTM_GETROUTE || msg_type == wire_format::RTM_GETNEIGH;
    let is_dump: bool = flags & (wire_format::NLM_F_DUMP | wire_format::NLM_F_ROOT) != 0;
    let result = if is_get && is_dump {
        let r = if msg_type == wire_format::RTM_GETLINK {
            dump::handle_getlink(seq, pid, sock, net)
        } else if msg_type == wire_format::RTM_GETADDR {
            dump::handle_getaddr(seq, pid, sock, net)
        } else if msg_type == wire_format::RTM_GETROUTE {
            dump::handle_getroute(seq, pid, sock, net)
        } else {
            dump::handle_getneigh(seq, pid, sock, net)
        };
        link::no_step(r)
    } else {
        handle_single(msg_type, flags, seq, pid, buf, sock, net)
    };
    finish_request(seq, pid, buf, result, sock, net)
}

#[verifier::rlimit(60)]
fn handle_single(
    msg_type: u16,
    flags: u16,
    seq: u32,
    pid: u32,
    buf: &[u8],
    sock: &mut NetlinkSocket,
    net: &mut RouteState,
) -> (r: Result<LinkStep, SyscallErr>)
    requires
        old(sock).wf(),
        old(net).wf(),
        buf@.len() >= 16,
        request_fits(old(net)@, buf@),
        msg_type == bytes::u16_le_at(buf@, 4),
        flags == bytes::u16_le_at(buf@, 6),
        seq == bytes::u32_le_at(buf@, 8),
        !asks_for_dump(msg_type, flags),
    ensures
        final(sock).wf(),
        final(net).wf(),
        final(sock).local_portid == old(sock).local_portid,
        (final(sock).queue(), final(net)@, link::step_result(r)) == dispatched(
            old(sock).queue(),
            old(net)@,
            old(net).neighbours.rows@,
            pid,
            buf@,
        ),
{
    if msg_type == wire_format::RTM_NEWADDR {
        link::no_step(addr::handle_newaddr(seq, pid, flags, buf, sock, net))
    } else if msg_type == wire_format::RTM_DELADDR {
        link::no_step(addr::handle_deladdr(seq, pid, buf, sock, net))
    } else if msg_type == wire_format::RTM_NEWLINK {
        link::handle_newlink(seq, pid, buf, sock, net)
    } else if msg_type == wire_format::RTM_DELLINK {
        link::handle_dellink(seq, pid, buf, sock, net)
    } else if msg_type == wire_format::RTM_SETLINK {
        link::no_step(link::handle_setlink(seq, pid, buf, sock, net))
    } else if msg_type == wire_format::RTM_NEWROUTE {
        link::no_step(route::handle_newroute(seq, pid, buf, flags, sock, net))
    } else if msg_type == wire_format::RTM_DELROUTE {
        link::no_step(route::handle_delroute(seq, pid, buf, sock, net))
    } else if msg_type == wire_format::RTM_DELNEIGH {
        link::no_step(neigh::handle_delneigh(seq, pid, buf, sock, net))
    } else if msg_type == wire_format::RTM_NEWNEIGH {
        link::no_step(neigh::handle_newneigh(seq, pid, buf, sock, net))
    } else if msg_type == wire_format::RTM_GETNEIGH {
        link::no_step(neigh::handle_getneigh_single(seq, pid, buf, sock, net))
    } else if msg_type == wire_format::RTM_GETLINK {
        link::no_step(neigh::handle_getlink_single(seq, pid, buf, sock, net))
    } else {
        Err(SyscallErr::EOPNOTSUPP)
    }
}

fn names_do_fit(net: &RouteState) -> (r: bool)
    ensures
        r == dump::names_fit(net@.devs),
{
    let devices = &net.ns.devices;
    let mut i: usize = 0;
    while i < devices.len()
        invariant
            i <= devices@.len(),
            net@.devs == crate::net_core::models(devices@),
            forall|j: int| 0 <= j < i ==> dump::name_bytes(#[trigger] net@.devs[j]).len() <= 65531,
        decreases devices@.len() - i,
    {
        assert(net@.devs[i as int] == devices@[i as int]@);
        if devices[i].name.as_str().as_bytes().len() > 65530 {
            return false;
        }
        i = i + 1;
    }
    true
}

/// Whether [`handle_netlink_msg`] can take a message; see [`request_fits`].
pub fn check_request(buf: &[u8], net: &RouteState) -> (r: bool)
    ensures
        r == request_fits(net@, buf@),
{
    if buf.len() < 16 {
        return true;
    }
    let t: u16 = bytes::get_u16_le(buf, 4);
    let payload = vstd::slice::slice_subrange(buf, 16, buf.len());
    assert(payload@ =~= buf@.skip(16));
    if t == wire_format::RTM_GETLINK || t == wire_format::RTM_GETADDR {
        names_do_fit(net)
    } else if t == wire_format::RTM_NEWADDR || t == wire_format::RTM_DELADDR {
        match addr::parse_ifa_addr(payload) {
            Ok(c) => match c.address {
                crate::wire::IpAddress::Ipv4(_) => c.prefix_len <= 32,
                crate::wire::IpAddress::Ipv6(_) => c.prefix_len <= 128,
            },
            Err(_) => true,
        }
    } else if t == wire_format::RTM_NEWROUTE || t == wire_format::RTM_DELROUTE {
        if buf.len() < 28 {
            return true;
        }
        let attrs = attr::parse_attrs(payload, 12);
        if t == wire_format::RTM_NEWROUTE && attr::find_last_u32(
            &attrs,
            wire_format::RTA_OIF,
        ).is_none() {
            return true;
        }
        payload[1] <= 32 || neigh::find_last_v4(&attrs, wire_format::RTA_DST).is_none()
    } else {
        true
    }
}

/// Aligns the length of a message to the next multiple of four.
pub fn nlmsg_align(len: usize) -> (r: usize)
    requires
        len <= usize::MAX - 3,
    ensures
        r == wire_format::aligned(len as int),
        len <= r < len + 4,
        r % 4 == 0,
{
    wire_format::nlmsg_align(len)
}

/// Aligns the length of an attribute to the next multiple of four.
pub fn rta_align(len: usize) -> (r: usize)
    requires
        len <= usize::MAX - 3,
    ensures
        r == wire_format::aligned(len as int),
        len <= r < len + 4,
        r % 4 == 0,
{
    wire_format::nlmsg_align(len)
}

/// The segment that reports an error number for the request with that header.
/// On the wire the number is negative.
pub fn build_nlmsg_error(seg_hdr: &CMsgSegHdr, errno: i32) -> (r: ErrorSegment)
    requires
        errno > i32::MIN,
    ensures
        r.header == (CMsgSegHdr {
            len: 36,
            type_: wire_format::NLMSG_ERROR,
            flags: 0,
            seq: seg_hdr.seq,
            pid: seg_hdr.pid,
        }),
        r.body == (ErrorSegmentBody { error_code: (-errno) as i32, request_header: *seg_hdr }),
        r.attrs@.len() == 0,
{
    let body = ErrorSegmentBody { error_code: -errno, request_header: *seg_hdr };
    SegmentCommon {
        header: CMsgSegHdr {
            len: 36,
            type_: wire_format::NLMSG_ERROR,
            flags: 0,
            seq: seg_hdr.seq,
            pid: seg_hdr.pid,
        },
        body,
        attrs: Vec::new(),
    }
}

/// The header of the segment that ends a list.
pub open spec fn done_header(seq: u32, pid: u32) -> CMsgSegHdr {
    CMsgSegHdr { len: 20, type_: wire_format::NLMSG_DONE, flags: 0, seq, pid }
}

/// The segment that ends a list.
pub fn build_nlmsg_done(seg_hdr: &CMsgSegHdr) -> (r: DoneSegment)
    ensures
        r.header == done_header(seg_hdr.seq, seg_hdr.pid),
        r.body == (DoneSegmentBody { error_code: 0 }),
        r.attrs@.len() == 0,
{
    SegmentCommon {
        header: CMsgSegHdr {
            len: 20,
            type_: wire_format::NLMSG_DONE,
            flags: 0,
            seq: seg_hdr.seq,
            pid: seg_hdr.pid,
        },
        body: DoneSegmentBody { error_code: 0 },
        attrs: Vec::new(),
    }
}

/// The segment that acknowledges a request.
pub fn build_nlmsg_ack(seg_hdr: &CMsgSegHdr) -> (r: ErrorSegment)
    ensures
        r.header == (CMsgSegHdr {
            len: 36,
            type_: wire_format::NLMSG_ERROR,
            flags: 0,
            seq: seg_hdr.seq,
            pid: seg_hdr.pid,
        }),
        r.body == (ErrorSegmentBody { error_code: 0, request_header: *seg_hdr }),
        r.attrs@.len() == 0,
{
    build_nlmsg_error(seg_hdr, 0)
}

/// The header of a segment.
pub open spec fn header(s: RouteNlSegment) -> CMsgSegHdr {
    match s {
        RouteNlSegment::NewLink(s) => s.header,
        RouteNlSegment::DelLink(s) => s.header,
        RouteNlSegment::SetLink(s) => s.header,
        RouteNlSegment::GetLink(s) => s.header,
        RouteNlSegment::NewAddr(s) => s.header,
        RouteNlSegment::DelAddr(s) => s.header,
        RouteNlSegment::GetAddr(s) => s.header,
        RouteNlSegment::NewRoute(s) => s.header,
        RouteNlSegment::DelRoute(s) => s.header,
        RouteNlSegment::GetRoute(s) => s.header,
        RouteNlSegment::Error(s) => s.header,
        RouteNlSegment::Done(s) => s.header,
    }
}

/// A header marked as one of several.
pub open spec fn multi(h: CMsgSegHdr) -> CMsgSegHdr {
    CMsgSegHdr { flags: h.flags | wire_format::NLM_F_MULTI, ..h }
}

/// A segment marked as one of several.
pub open spec fn marked(s: RouteNlSegment) -> RouteNlSegment {
    match s {
        RouteNlSegment::NewLink(s) => RouteNlSegment::NewLink(
            SegmentCommon { header: multi(s.header), ..s },
        ),
        RouteNlSegment::DelLink(s) => RouteNlSegment::DelLink(
            SegmentCommon { header: multi(s.header), ..s },
        ),
        RouteNlSegment::SetLink(s) => RouteNlSegment::SetLink(
            SegmentCommon { header: multi(s.header), ..s },
        ),
        RouteNlSegment::GetLink(s) => RouteNlSegment::GetLink(
            SegmentCommon { header: multi(s.header), ..s },
        ),
        RouteNlSegment::NewAddr(s) => RouteNlSegment::NewAddr(
            SegmentCommon { header: multi(s.header), ..s },
        ),
        RouteNlSegment::DelAddr(s) => RouteNlSegment::DelAddr(
            SegmentCommon { header: multi(s.header), ..s },
        ),
        RouteNlSegment::GetAddr(s) => RouteNlSegment::GetAddr(
            SegmentCommon { header: multi(s.header), ..s },
        ),
        RouteNlSegment::NewRoute(s) => RouteNlSegment::NewRoute(
            SegmentCommon { header: multi(s.header), ..s },
        ),
        RouteNlSegment::DelRoute(s) => RouteNlSegment::DelRoute(
            SegmentCommon { header: multi(s.header), ..s },
        ),
        RouteNlSegment::GetRoute(s) => RouteNlSegment::GetRoute(
            SegmentCommon { header: multi(s.header), ..s },
        ),
        RouteNlSegment::Error(s) => RouteNlSegment::Error(
            SegmentCommon { header: multi(s.header), ..s },
        ),
        RouteNlSegment::Done(s) => RouteNlSegment::Done(
            SegmentCommon { header: multi(s.header), ..s },
        ),
    }
}

fn header_copy(s: &RouteNlSegment) -> (r: CMsgSegHdr)
    ensures
        r == header(*s),
{
    match s {
        RouteNlSegment::NewLink(s) => s.header,
        RouteNlSegment::DelLink(s) => s.header,
        RouteNlSegment::SetLink(s) => s.header,
        RouteNlSegment::GetLink(s) => s.header,
        RouteNlSegment::NewAddr(s) => s.header,
        RouteNlSegment::DelAddr(s) => s.header,
        RouteNlSegment::GetAddr(s) => s.header,
        RouteNlSegment::NewRoute(s) => s.header,
        RouteNlSegment::DelRoute(s) => s.header,
        RouteNlSegment::GetRoute(s) => s.header,
        RouteNlSegment::Error(s) => s.header,
        RouteNlSegment::Done(s) => s.header,
    }
}

fn mark(s: &mut RouteNlSegment)
    ensures
        *final(s) == marked(*old(s)),
{
    match s {
        RouteNlSegment::NewLink(s) => {
            s.header.flags = s.header.flags | wire_format::NLM_F_MULTI;
        },
        RouteNlSegment::DelLink(s) => {
            s.header.flags = s.header.flags | wire_format::NLM_F_MULTI;
        },
        RouteNlSegment::SetLink(s) => {
            s.header.flags = s.header.flags | wire_format::NLM_F_MULTI;
        },
        RouteNlSegment::GetLink(s) => {
            s.header.flags = s.header.flags | wire_format::NLM_F_MULTI;
        },
        RouteNlSegment::NewAddr(s) => {
            s.header.flags = s.header.flags | wire_format::NLM_F_MULTI;
        },
        RouteNlSegment::DelAddr(s) => {
            s.header.flags = s.header.flags | wire_format::NLM_F_MULTI;
        },
        RouteNlSegment::GetAddr(s) => {
            s.header.flags = s.header.flags | wire_format::NLM_F_MULTI;
        },
        RouteNlSegment::NewRoute(s) => {
            s.header.flags = s.header.flags | wire_format::NLM_F_MULTI;
        },
        RouteNlSegment::DelRoute(s) => {
            s.header.flags = s.header.flags | wire_format::NLM_F_MULTI;
        },
        RouteNlSegment::GetRoute(s) => {
            s.header.flags = s.header.flags | wire_format::NLM_F_MULTI;
        },
        RouteNlSegment::Error(s) => {
            s.header.flags = s.header.flags | wire_format::NLM_F_MULTI;
        },
        RouteNlSegment::Done(s) => {
            s.header.flags = s.header.flags | wire_format::NLM_F_MULTI;
        },
    }
}

/// Sequence number and port of the last segment, zero where there is none.
pub open spec fn last_numbers(segments: Seq<RouteNlSegment>) -> (u32, u32) {
    if segments.len() > 0 {
        (header(segments.last()).seq, header(segments.last()).pid)
    } else {
        (0, 0)
    }
}

/// Completes a list of segments: ends a dump with a final segment, which takes
/// number and port of the last one, and marks each segment as one of several.
/// A dump that found nothing is ended too.
pub fn finish_response(segments: &mut Vec<RouteNlSegment>, was_dump: bool)
    ensures
        ({
            let before = old(segments)@;
            let after = final(segments)@;
            let n = before.len() as int;
            &&& after.len() == if was_dump {
                n + 1
            } else {
                n
            }
            &&& forall|i: int| 0 <= i < n ==> #[trigger] after[i] == marked(before[i])
            &&& was_dump ==> {
                &&& after[n] matches RouteNlSegment::Done(s)
                &&& s.header == multi(done_header(last_numbers(before).0, last_numbers(before).1))
                &&& s.body == (DoneSegmentBody { error_code: 0 })
                &&& s.attrs@.len() == 0
            }
        }),
        forall|i: int|
            0 <= i < final(segments)@.len() ==> header(#[trigger] final(segments)@[i]).flags
                & wire_format::NLM_F_MULTI != 0,
{
    let ghost before = segments@;
    if was_dump {
        let n: usize = segments.len();
        let mut seq: u32 = 0;
        let mut pid: u32 = 0;
        if n > 0 {
            let last = header_copy(&segments[n - 1]);
            seq = last.seq;
            pid = last.pid;
        }
        let done_hdr = CMsgSegHdr { len: 0, type_: 0, flags: 0, seq, pid };
        segments.push(RouteNlSegment::Done(build_nlmsg_done(&done_hdr)));
    }
    let ghost listed = segments@;
    let n: usize = segments.len();
    let mut i: usize = 0;
    while i < n
        invariant
            i <= n,
            n == listed.len(),
            segments@.len() == n,
            forall|j: int| 0 <= j < i ==> #[trigger] segments@[j] == marked(listed[j]),
            forall|j: int| i <= j < n ==> #[trigger] segments@[j] == listed[j],
        decreases n - i,
    {
        mark(&mut segments[i]);
        i = i + 1;
    }
    proof {
        assert forall|j: int| 0 <= j < segments@.len() implies header(
            #[trigger] segments@[j],
        ).flags & wire_format::NLM_F_MULTI != 0 by {
            let flags: u16 = header(listed[j]).flags;
            assert((flags | 2) & 2 != 0) by (bit_vector);
        }
    }
}

/// A request that changes nothing because it fails is answered with its error
/// number, and the state stays as it was.
pub proof fn law_failure_is_reported(
    q: Seq<Seq<u8>>,
    n: NetModel,
    e: SyscallErr,
    seq: u32,
    pid: u32,
    buf: Seq<u8>,
)
    ensures
        ({
            let msg = wire_format::nlmsg_error(e.spec_errno() as i32, seq, pid, buf.take(16));
            reported((q, n, Err(e)), seq, pid, buf) == if netlink::accepts(q, msg) {
                (q.push(msg), n, Ok(link::StepModel::Replied))
            } else {
                (q, n, Err(SyscallErr::ENOBUFS))
            }
        }),
{
}

} // verus!
