//! Requests that create, change, move and delete interfaces.
use vstd::prelude::*;
use crate::bytes;
use crate::error::SyscallErr;
use crate::iface::{DeviceKind, DeviceModel, NetDeviceEntry};
use crate::net_core;
use crate::net_core::NetGlobals;
use crate::seqs;
use crate::socket::netlink::attr;
use crate::socket::netlink::netlink;
use crate::socket::netlink::route;
use crate::socket::netlink::route::neigh;
use crate::socket::netlink::route::{NetModel, Reply, RouteState};
use crate::socket::netlink::NetlinkSocket;
use crate::text;

verus! {

/// What is left to do for a link request.
#[derive(Debug)]
pub enum LinkStep {
    /// Nothing: the request is dealt with.
    Replied,
    /// The interface goes to the namespace of a process.
    Move { nic_id: u32, target_pid: u32 },
    /// A pair of interfaces with these names comes into being.
    CreateVeth { name1: String, name2: String },
    /// A pair of interfaces goes, of which this is one.
    DeleteVeth { nic_id: u32 },
}

/// What a [`LinkStep`] says.
#[verifier::ext_equal]
pub enum StepModel {
    Replied,
    Move { nic_id: u32, target_pid: u32 },
    CreateVeth { name1: Seq<char>, name2: Seq<char> },
    DeleteVeth { nic_id: u32 },
}

impl View for LinkStep {
    type V = StepModel;

    open spec fn view(&self) -> StepModel {
        match *self {
            LinkStep::Replied => StepModel::Replied,
            LinkStep::Move { nic_id, target_pid } => StepModel::Move { nic_id, target_pid },
            LinkStep::CreateVeth { name1, name2 } => StepModel::CreateVeth {
                name1: name1@,
                name2: name2@,
            },
            LinkStep::DeleteVeth { nic_id } => StepModel::DeleteVeth { nic_id },
        }
    }
}

/// What a result with a step says.
pub open spec fn step_result(r: Result<LinkStep, SyscallErr>) -> Result<StepModel, SyscallErr> {
    match r {
        Ok(s) => Ok(s@),
        Err(e) => Err(e),
    }
}

/// The queue of the socket, the state, and the step that is left.
pub type StepReply = (Seq<Seq<u8>>, NetModel, Result<StepModel, SyscallErr>);

/// A reply that leaves nothing to do.
pub open spec fn replied(r: Reply) -> StepReply {
    (
        r.0,
        r.1,
        match r.2 {
            Ok(_) => Ok(StepModel::Replied),
            Err(e) => Err(e),
        },
    )
}

/// A result that leaves nothing to do.
pub fn no_step(r: Result<isize, SyscallErr>) -> (s: Result<LinkStep, SyscallErr>)
    ensures
        step_result(s) == match r {
            Ok(_) => Ok::<StepModel, SyscallErr>(StepModel::Replied),
            Err(e) => Err(e),
        },
{
    match r {
        Ok(_) => Ok(LinkStep::Replied),
        Err(e) => Err(e),
    }
}

pub open spec fn has_name(devs: Seq<DeviceModel>, name: Seq<char>) -> bool {
    seqs::find_first(devs, net_core::named(name)) is Some
}

/// Another interface than `id` has the name.
pub open spec fn name_taken(devs: Seq<DeviceModel>, id: u32, name: Seq<char>) -> bool {
    exists|i: int|
        0 <= i < devs.len() && (#[trigger] devs[i]).nic_id != id && devs[i].name == name
}

fn is_name_taken(devices: &Vec<NetDeviceEntry>, id: u32, name: &String) -> (r: bool)
    ensures
        r == name_taken(net_core::models(devices@), id, name@),
{
    let ghost devs = net_core::models(devices@);
    let mut i: usize = 0;
    while i < devices.len()
        invariant
            i <= devices@.len(),
            devs == net_core::models(devices@),
            forall|j: int|
                0 <= j < i ==> !((#[trigger] devs[j]).nic_id != id && devs[j].name == name@),
        decreases devices@.len() - i,
    {
        assert(devs[i as int] == devices@[i as int]@);
        if devices[i].nic_id != id && seqs::str_eq(devices[i].name.as_str(), name.as_str()) {
            return true;
        }
        i = i + 1;
    }
    false
}

/// The flags with the bits of `change` taken from `wanted`.
pub open spec fn changed_flags(flags: u32, wanted: u32, change: u32) -> u32 {
    (flags & !change) | (wanted & change)
}

/// What a request to change an interface does. The flags change before the
/// name is looked at, so they stay changed where the name is refused.
pub open spec fn setlink(
    q: Seq<Seq<u8>>,
    n: NetModel,
    seq: u32,
    pid: u32,
    buf: Seq<u8>,
) -> Reply {
    let payload = buf.skip(16);
    let wanted = bytes::u32_le_at(payload, 8);
    let change = bytes::u32_le_at(payload, 12);
    let attrs = attr::attrs_from(payload, 16);
    if buf.len() < 32 {
        (q, n, Err(SyscallErr::EINVAL))
    } else {
        match set_target(n.devs, payload) {
            None => route::answer_errno(q, n, 19, seq, pid, buf),
            Some(d) => {
                let flagged = DeviceModel {
                    flags: if change != 0 {
                        changed_flags(d.flags, wanted, change)
                    } else {
                        d.flags
                    },
                    ..d
                };
                let name = match attr::last_text(attrs, netlink::IFLA_IFNAME) {
                    Some(s) => s,
                    None => d.name,
                };
                if name != d.name && name_taken(n.devs, d.nic_id, name) {
                    route::answer_errno(
                        q,
                        NetModel { devs: net_core::replace_device(n.devs, flagged), ..n },
                        17,
                        seq,
                        pid,
                        buf,
                    )
                } else {
                    let changed = DeviceModel {
                        name,
                        mtu: match attr::last_u32(attrs, netlink::IFLA_MTU) {
                            Some(m) => m as usize,
                            None => d.mtu,
                        },
                        ..flagged
                    };
                    route::answer_errno(
                        q,
                        NetModel { devs: net_core::replace_device(n.devs, changed), ..n },
                        0,
                        seq,
                        pid,
                        buf,
                    )
                }
            },
        }
    }
}

/// The interface that a request to change one is about: by its index where
/// that is positive, by its name where the index is zero.
pub open spec fn set_target(devs: Seq<DeviceModel>, payload: Seq<u8>) -> Option<DeviceModel> {
    if bytes::i32_of(bytes::u32_le_at(payload, 4)) < 0 {
        None
    } else {
        neigh::link_target(devs, payload)
    }
}

/// Changes flags, name and largest packet of an interface.
#[verifier::rlimit(40)]
pub fn handle_setlink(
    seq: u32,
    pid: u32,
    buf: &[u8],
    sock: &mut NetlinkSocket,
    net: &mut RouteState,
) -> (r: Result<isize, SyscallErr>)
    requires
        old(sock).wf(),
        old(net).wf(),
    ensures
        final(sock).wf(),
        final(net).wf(),
        final(sock).local_portid == old(sock).local_portid,
        (final(sock).queue(), final(net)@, r) == setlink(
            old(sock).queue(),
            old(net)@,
            seq,
            pid,
            buf@,
        ),
{
    if buf.len() < 32 {
        return Err(SyscallErr::EINVAL);
    }
    let payload = vstd::slice::slice_subrange(buf, 16, buf.len());
    assert(payload@ =~= buf@.skip(16));
    let index: i32 = bytes::to_i32(bytes::get_u32_le(payload, 4));
    let wanted: u32 = bytes::get_u32_le(payload, 8);
    let change: u32 = bytes::get_u32_le(payload, 12);
    let attrs = attr::parse_attrs(payload, 16);
    let new_name = attr::find_last_text(&attrs, netlink::IFLA_IFNAME);
    let new_mtu = attr::find_last_u32(&attrs, netlink::IFLA_MTU);
    let target: Option<usize> = if index < 0 {
        None
    } else {
        neigh::find_link_target(net, payload)
    };
    let p: usize = match target {
        Some(p) => p,
        None => return route::send_error(sock, net, buf, seq, pid, 19),
    };
    let ghost devs = net@.devs;
    assert(devs[p as int] == net.ns.devices@[p as int]@);
    let mut d = net.ns.devices[p].duplicate();
    let ghost found = d@;
    assert(found.wf());
    if change != 0 {
        let flags: u32 = d.flags();
        d.set_flags((flags & !change) | (wanted & change));
    }
    if let Some(name) = new_name {
        if !seqs::str_eq(d.name.as_str(), name.as_str()) {
            if is_name_taken(&net.ns.devices, d.nic_id, &name) {
                net.ns.update_device(d);
                return route::send_error(sock, net, buf, seq, pid, 17);
            }
            d.set_iface_name(name.as_str());
        }
    }
    if let Some(mtu) = new_mtu {
        d.set_mtu(mtu as usize);
    }
    net.ns.update_device(d);
    route::send_ack(sock, net, buf, seq, pid)
}

/// What a request to delete an interface does. Only pairs can be deleted; the
/// request is then acknowledged once the pair is gone.
pub open spec fn dellink(
    q: Seq<Seq<u8>>,
    n: NetModel,
    seq: u32,
    pid: u32,
    buf: Seq<u8>,
) -> StepReply {
    if buf.len() < 32 {
        (q, n, Err(SyscallErr::EINVAL))
    } else {
        match neigh::link_target(n.devs, buf.skip(16)) {
            None => replied(route::answer_errno(q, n, 19, seq, pid, buf)),
            Some(d) => if d.kind == DeviceKind::Veth {
                (q, n, Ok(StepModel::DeleteVeth { nic_id: d.nic_id }))
            } else {
                replied(route::answer_errno(q, n, 95, seq, pid, buf))
            },
        }
    }
}

/// Decides on a request to delete an interface.
pub fn handle_dellink(
    seq: u32,
    pid: u32,
    buf: &[u8],
    sock: &mut NetlinkSocket,
    net: &RouteState,
) -> (r: Result<LinkStep, SyscallErr>)
    requires
        old(sock).wf(),
    ensures
        final(sock).wf(),
        final(sock).local_portid == old(sock).local_portid,
        (final(sock).queue(), net@, step_result(r)) == dellink(
            old(sock).queue(),
            net@,
            seq,
            pid,
            buf@,
        ),
{
    if buf.len() < 32 {
        return Err(SyscallErr::EINVAL);
    }
    let payload = vstd::slice::slice_subrange(buf, 16, buf.len());
    assert(payload@ =~= buf@.skip(16));
    match neigh::find_link_target(net, payload) {
        None => no_step(route::send_error(sock, net, buf, seq, pid, 19)),
        Some(p) => {
            let d = &net.ns.devices[p];
            match d.kind {
                DeviceKind::Veth => Ok(LinkStep::DeleteVeth { nic_id: d.nic_id }),
                _ => no_step(route::send_error(sock, net, buf, seq, pid, 95)),
            }
        },
    }
}

/// `veth` and a number.
pub open spec fn veth_name(i: nat) -> Seq<char> {
    "veth"@ + text::decimal(i)
}

/// The name whose final number is one higher, with as many digits at least.
pub open spec fn next_name(name: Seq<char>) -> Option<Seq<char>> {
    let k = text::trailing_digits(name);
    let split = name.len() - k;
    let v = text::digits_value(name.skip(split));
    if k > 0 && v < u64::MAX {
        Some(name.take(split) + text::padded_decimal(v + 1, k))
    } else {
        None
    }
}

/// The first of the names `veth` and a number from `i` on, below 4096, that no
/// interface has.
pub open spec fn free_veth_name(devs: Seq<DeviceModel>, i: int) -> Option<Seq<char>>
    decreases 4096 - i,
{
    if i < 0 || i >= 4096 {
        None
    } else if !has_name(devs, veth_name(i as nat)) {
        Some(veth_name(i as nat))
    } else {
        free_veth_name(devs, i + 1)
    }
}

/// The name for the other end of a pair, and the counter of indices
/// afterwards: the next name if it is free, else a free `veth` name, else one
/// with a new index.
pub open spec fn peer_name(devs: Seq<DeviceModel>, g: NetGlobals, name: Seq<char>) -> (
    Seq<char>,
    NetGlobals,
) {
    match next_name(name) {
        Some(c) if !has_name(devs, c) => (c, g),
        _ => match free_veth_name(devs, 0) {
            Some(c) => (c, g),
            None => (
                veth_name(g.next_ifindex as nat),
                NetGlobals {
                    next_ifindex: if g.next_ifindex < u32::MAX {
                        (g.next_ifindex + 1) as u32
                    } else {
                        0
                    },
                    ..g
                },
            ),
        },
    }
}

fn build_veth_name(i: u64) -> (r: String)
    ensures
        r@ == veth_name(i as nat),
{
    let mut s: String = "veth".to_owned();
    text::push_decimal(&mut s, i);
    s
}

fn build_next_name(name: &str) -> (r: Option<String>)
    ensures
        match r {
            Some(c) => next_name(name@) == Some(c@),
            None => next_name(name@) is None,
        },
{
    let k: usize = text::count_trailing_digits(name);
    if k == 0 {
        return None;
    }
    let len: usize = name.unicode_len();
    let split: usize = len - k;
    let prefix = name.substring_char(0, split);
    let suffix = name.substring_char(split, len);
    proof {
        text::lemma_trailing_are_digits(name@);
        assert(suffix@ =~= name@.skip(split as int));
        assert(prefix@ =~= name@.take(split as int));
        assert forall|i: int| 0 <= i < suffix@.len() implies text::is_digit(
            #[trigger] suffix@[i],
        ) by {
            assert(suffix@[i] == name@[split + i]);
        }
    }
    let num: u64 = match text::parse_digits(suffix) {
        Some(n) => n,
        None => return None,
    };
    if num == u64::MAX {
        return None;
    }
    let mut s: String = prefix.to_owned();
    text::push_padded_decimal(&mut s, num + 1, k);
    Some(s)
}

/// Finds a name for the other end of a pair.
pub fn infer_veth_peer_name(net: &mut RouteState, name: &str) -> (r: String)
    requires
        old(net).wf(),
    ensures
        final(net).wf(),
        (r@, final(net).globals) == peer_name(old(net)@.devs, old(net).globals, name@),
        final(net)@ == (NetModel { globals: final(net).globals, ..old(net)@ }),
{
    if let Some(c) = build_next_name(name) {
        if net.ns.position_by_name(c.as_str()).is_none() {
            return c;
        }
    }
    let ghost devs = net@.devs;
    let mut i: u32 = 0;
    while i < 4096
        invariant
            i <= 4096,
            old(net).wf(),
            *net == *old(net),
            devs == net@.devs,
            free_veth_name(devs, i as int) == free_veth_name(devs, 0),
            match next_name(name@) {
                Some(c) => has_name(devs, c),
                None => true,
            },
        decreases 4096 - i,
    {
        let c = build_veth_name(i as u64);
        if net.ns.position_by_name(c.as_str()).is_none() {
            return c;
        }
        i = i + 1;
    }
    let id: u32 = net.globals.next_ifindex();
    build_veth_name(id as u64)
}

/// The parts of a request for a new interface.
#[verifier::ext_equal]
pub struct NewLinkModel {
    pub index: u32,
    pub name: Option<Seq<char>>,
    pub kind: Option<Seq<char>>,
    pub peer: Option<Seq<char>>,
    pub target_pid: Option<u32>,
}

/// Reads a request for a new interface. Kind and peer stand inside the link
/// information, the peer's name two levels deeper, behind a link header of its
/// own. Of attributes that come twice the later counts.
pub open spec fn new_link_request(payload: Seq<u8>) -> NewLinkModel {
    let top = attr::stripped(attr::attrs_from(payload, 16));
    let info = attr::nested(top, netlink::IFLA_LINKINFO, 0);
    let data = attr::nested(info, netlink::IFLA_INFO_DATA, 0);
    let peer = attr::nested(data, netlink::VETH_INFO_PEER, 16);
    NewLinkModel {
        index: bytes::u32_le_at(payload, 4),
        name: attr::last_text(top, netlink::IFLA_IFNAME),
        kind: attr::last_text(info, netlink::IFLA_INFO_KIND),
        peer: attr::last_text(peer, netlink::IFLA_IFNAME),
        target_pid: attr::last_u32(top, netlink::IFLA_NET_NS_PID),
    }
}

/// What a request for a new interface does: move an existing one to another
/// namespace, change an existing one, or have a pair created.
pub open spec fn newlink(
    q: Seq<Seq<u8>>,
    n: NetModel,
    seq: u32,
    pid: u32,
    buf: Seq<u8>,
) -> StepReply {
    let req = new_link_request(buf.skip(16));
    let no_kind = req.kind is None || req.kind->0.len() == 0;
    let no_name = req.name is None || req.name->0.len() == 0;
    if buf.len() < 32 {
        (q, n, Err(SyscallErr::EINVAL))
    } else if let Some(target_pid) = req.target_pid {
        let target = if req.index > 0 {
            seqs::find_first(n.devs, net_core::indexed(req.index))
        } else {
            match req.name {
                Some(name) => seqs::find_first(n.devs, net_core::named(name)),
                None => None,
            }
        };
        match target {
            None => replied(route::answer_errno(q, n, 19, seq, pid, buf)),
            Some(d) => if d.kind == DeviceKind::Loopback {
                replied(route::answer_errno(q, n, 16, seq, pid, buf))
            } else {
                (q, n, Ok(StepModel::Move { nic_id: d.nic_id, target_pid }))
            },
        }
    } else if no_kind && (req.index > 0 || req.name is Some) {
        replied(setlink(q, n, seq, pid, buf))
    } else if no_kind {
        replied(route::answer_errno(q, n, 22, seq, pid, buf))
    } else if req.kind->0 != "veth"@ {
        replied(route::answer_errno(q, n, 95, seq, pid, buf))
    } else if no_name {
        replied(route::answer_errno(q, n, 22, seq, pid, buf))
    } else {
        let name1 = req.name->0;
        let (name2, globals) = if req.peer is Some && req.peer->0.len() > 0 {
            (req.peer->0, n.globals)
        } else {
            peer_name(n.devs, n.globals, name1)
        };
        let n2 = NetModel { globals, ..n };
        if has_name(n.devs, name1) || has_name(n.devs, name2) {
            replied(route::answer_errno(q, n2, 17, seq, pid, buf))
        } else {
            (q, n2, Ok(StepModel::CreateVeth { name1, name2 }))
        }
    }
}

fn is_empty_text(s: &Option<String>) -> (r: bool)
    ensures
        r == match *s {
            Some(t) => t@.len() == 0,
            None => true,
        },
{
    match s {
        Some(t) => t.as_str().unicode_len() == 0,
        None => true,
    }
}

/// Decides on a request for a new interface.
#[verifier::rlimit(60)]
pub fn handle_newlink(
    seq: u32,
    pid: u32,
    buf: &[u8],
    sock: &mut NetlinkSocket,
    net: &mut RouteState,
) -> (r: Result<LinkStep, SyscallErr>)
    requires
        old(sock).wf(),
        old(net).wf(),
        buf@.len() >= 16,
    ensures
        final(sock).wf(),
        final(net).wf(),
        final(sock).local_portid == old(sock).local_portid,
        (final(sock).queue(), final(net)@, step_result(r)) == newlink(
            old(sock).queue(),
            old(net)@,
            seq,
            pid,
            buf@,
        ),
{
    if buf.len() < 32 {
        return Err(SyscallErr::EINVAL);
    }
    let payload = vstd::slice::slice_subrange(buf, 16, buf.len());
    assert(payload@ =~= buf@.skip(16));
    let ifindex: u32 = bytes::get_u32_le(payload, 4);
    let top = attr::strip_nested(attr::parse_attrs(payload, 16));
    let info = attr::parse_nested(&top, netlink::IFLA_LINKINFO, 0);
    let data = attr::parse_nested(&info, netlink::IFLA_INFO_DATA, 0);
    let peer_attrs = attr::parse_nested(&data, netlink::VETH_INFO_PEER, 16);
    let ifname = attr::find_last_text(&top, netlink::IFLA_IFNAME);
    let kind = attr::find_last_text(&info, netlink::IFLA_INFO_KIND);
    let peer = attr::find_last_text(&peer_attrs, netlink::IFLA_IFNAME);
    let target = attr::find_last_u32(&top, netlink::IFLA_NET_NS_PID);
    if let Some(target_pid) = target {
        let found: Option<usize> = if ifindex > 0 {
            net.ns.position_by_index(ifindex)
        } else {
            match &ifname {
                Some(name) => net.ns.position_by_name(name.as_str()),
                None => None,
            }
        };
        return match found {
            None => no_step(route::send_error(sock, net, buf, seq, pid, 19)),
            Some(p) => {
                assert(net@.devs[p as int] == net.ns.devices@[p as int]@);
                let d = &net.ns.devices[p];
                match d.kind {
                    DeviceKind::Loopback => no_step(
                        route::send_error(sock, net, buf, seq, pid, 16),
                    ),
                    _ => Ok(LinkStep::Move { nic_id: d.nic_id, target_pid }),
                }
            },
        };
    }
    if is_empty_text(&kind) {
        if ifindex > 0 || ifname.is_some() {
            return no_step(handle_setlink(seq, pid, buf, sock, net));
        }
        return no_step(route::send_error(sock, net, buf, seq, pid, 22));
    }
    let is_veth: bool = match &kind {
        Some(k) => seqs::str_eq(k.as_str(), "veth"),
        None => false,
    };
    if !is_veth {
        return no_step(route::send_error(sock, net, buf, seq, pid, 95));
    }
    if is_empty_text(&ifname) {
        return no_step(route::send_error(sock, net, buf, seq, pid, 22));
    }
    let name1: String = match ifname {
        Some(n) => n,
        None => String::new(),
    };
    let use_peer: bool = !is_empty_text(&peer);
    let name2: String = match peer {
        Some(n) if use_peer => n,
        _ => infer_veth_peer_name(net, name1.as_str()),
    };
    if net.ns.position_by_name(name1.as_str()).is_some() || net.ns.position_by_name(
        name2.as_str(),
    ).is_some() {
        return no_step(route::send_error(sock, net, buf, seq, pid, 17));
    }
    Ok(LinkStep::CreateVeth { name1, name2 })
}

/// Answers a request to move an interface, once it is known whether there is
/// such a process; the interface has then been moved.
pub fn finish_move(
    seq: u32,
    pid: u32,
    buf: &[u8],
    process_found: bool,
    sock: &mut NetlinkSocket,
    net: &RouteState,
) -> (r: Result<isize, SyscallErr>)
    requires
        old(sock).wf(),
        buf@.len() >= 16,
    ensures
        final(sock).wf(),
        final(sock).local_portid == old(sock).local_portid,
        (final(sock).queue(), net@, r) == route::answer_errno(
            old(sock).queue(),
            net@,
            if process_found {
                0
            } else {
                3
            },
            seq,
            pid,
            buf@,
        ),
{
    let errno: i32 = if process_found {
        0
    } else {
        3
    };
    route::send_error(sock, net, buf, seq, pid, errno)
}

/// Moves an interface from one namespace to another.
pub fn move_device(src: &mut net_core::NetNamespace, dst: &mut net_core::NetNamespace, nic_id: u32)
    requires
        old(src).wf(),
        old(dst).wf(),
    ensures
        final(src).wf(),
        final(dst).wf(),
        final(src).devs() == old(src).devs().filter(net_core::not_indexed(nic_id)),
        final(src).router == old(src).router,
        final(dst).router == old(dst).router,
        final(dst).devs() == match seqs::find_first(old(src).devs(), net_core::indexed(nic_id)) {
            Some(d) => net_core::put_device(old(dst).devs(), d),
            None => old(dst).devs(),
        },
{
    match src.position_by_index(nic_id) {
        Some(p) => {
            assert(src.devs()[p as int] == src.devices@[p as int]@);
            let d = src.devices[p].duplicate();
            src.remove_device(nic_id);
            dst.add_device(d);
        },
        None => {
            src.remove_device(nic_id);
        },
    }
}

} // verus!
