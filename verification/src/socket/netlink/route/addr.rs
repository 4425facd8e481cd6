//! Requests that give interfaces addresses and take them away.
use vstd::prelude::*;
use vstd::arithmetic::power2;
use crate::bytes;
use crate::error::SyscallErr;
use crate::iface;
use crate::iface::DeviceModel;
use crate::net_core;
use crate::routing;
use crate::routing::{RouteEntry, RouteType};
use crate::seqs;
use crate::socket::netlink::attr;
use crate::socket::netlink::attr::{AttrModel, RtAttr};
use crate::socket::netlink::netlink;
use crate::socket::netlink::route;
use crate::socket::netlink::route::{NetModel, Reply, RouteState, StackOp};
use crate::socket::netlink::NetlinkSocket;
use crate::wire;
use crate::wire::{IpAddress, IpCidr, Ipv4Address, Ipv6Address};

verus! {

/// An attribute that holds an address of at least `min` bytes.
pub open spec fn holds_address(min: int) -> spec_fn(AttrModel) -> bool {
    |a: AttrModel|
        (a.ty == netlink::IFA_ADDRESS || a.ty == netlink::IFA_LOCAL) && a.data.len() >= min
}

/// The block that an address request names, or what is wrong with it.
pub open spec fn requested_cidr(payload: Seq<u8>) -> Result<IpCidr, SyscallErr> {
    let attrs = attr::attrs_from(payload, 8);
    if payload.len() < 8 {
        Err(SyscallErr::EINVAL)
    } else if payload[0] == 2 {
        match seqs::find_first(attrs, holds_address(4)) {
            Some(a) => Ok(
                IpCidr {
                    address: IpAddress::Ipv4(Ipv4Address { bits: bytes::u32_be_at(a.data, 0) }),
                    prefix_len: payload[1],
                },
            ),
            None => Err(SyscallErr::EINVAL),
        }
    } else if payload[0] == 10 {
        match seqs::find_first(attrs, holds_address(16)) {
            Some(a) => Ok(
                IpCidr {
                    address: IpAddress::Ipv6(Ipv6Address::of(a.data.subrange(0, 16))),
                    prefix_len: payload[1],
                },
            ),
            None => Err(SyscallErr::EINVAL),
        }
    } else {
        Err(SyscallErr::EAFNOSUPPORT)
    }
}

/// The prefix that an address request names is not longer than its address.
pub open spec fn prefix_fits(buf: Seq<u8>) -> bool {
    buf.len() >= 16 ==> (requested_cidr(buf.skip(16)) matches Ok(c) ==> c.wf())
}

/// The addresses of an interface with `c` as the last.
pub open spec fn with_addr(addrs: Seq<IpCidr>, c: IpCidr) -> Seq<IpCidr> {
    if addrs.contains(c) {
        addrs.filter(iface::other_than(c)).push(c)
    } else {
        addrs.push(c)
    }
}

/// The route to the network of a block, straight through an interface.
pub open spec fn network_route(c: IpCidr, ifindex: u32) -> RouteEntry {
    RouteEntry {
        destination: c.spec_network(),
        next_hop: None,
        ifindex,
        metric: 0,
        route_type: RouteType::Connected,
    }
}

/// The routes without the connected one of a block.
pub open spec fn without_network(entries: Seq<RouteEntry>, c: IpCidr, ifindex: u32) -> Seq<
    RouteEntry,
> {
    entries.filter(routing::not_connected_to(ifindex, c.spec_network()))
}

/// Whether a request to add an address may find it there: it asks for that, and
/// does not insist on being the first.
pub open spec fn replaces(flags: u16) -> bool {
    flags & netlink::NLM_F_EXCL == 0 && flags & netlink::NLM_F_REPLACE != 0
}

/// What a request to add an address does: the interface and its stack get the
/// address, and the connected route of its network is put in afresh. An
/// address that is there already is an error, unless it is to be replaced.
pub open spec fn newaddr(
    q: Seq<Seq<u8>>,
    n: NetModel,
    seq: u32,
    pid: u32,
    flags: u16,
    buf: Seq<u8>,
) -> Reply {
    let payload = buf.skip(16);
    let ifindex = bytes::u32_le_at(payload, 4);
    if buf.len() < 16 {
        (q, n, Err(SyscallErr::EINVAL))
    } else {
        match requested_cidr(payload) {
            Err(e) => (q, n, Err(e)),
            Ok(c) => match seqs::find_first(n.devs, net_core::indexed(ifindex)) {
                None => (q, n, Err(SyscallErr::ENODEV)),
                Some(d) => if d.ip_addrs.contains(c) && !replaces(flags) {
                    (q, n, Err(SyscallErr::EEXIST))
                } else {
                    route::answer_errno(
                        q,
                        NetModel {
                            devs: net_core::replace_device(
                                n.devs,
                                DeviceModel { ip_addrs: with_addr(d.ip_addrs, c), ..d },
                            ),
                            entries: without_network(n.entries, c, ifindex).push(
                                network_route(c, ifindex),
                            ),
                            stack_ops: n.stack_ops.push(StackOp::RemoveIp { ifindex, cidr: c }).push(
                                StackOp::AddIp { ifindex, cidr: c },
                            ),
                            ..n
                        },
                        0,
                        seq,
                        pid,
                        buf,
                    )
                },
            },
        }
    }
}

/// What a request to remove an address does.
pub open spec fn deladdr(
    q: Seq<Seq<u8>>,
    n: NetModel,
    seq: u32,
    pid: u32,
    buf: Seq<u8>,
) -> Reply {
    let payload = buf.skip(16);
    let ifindex = bytes::u32_le_at(payload, 4);
    if buf.len() < 16 {
        (q, n, Err(SyscallErr::EINVAL))
    } else {
        match requested_cidr(payload) {
            Err(e) => (q, n, Err(e)),
            Ok(c) => match seqs::find_first(n.devs, net_core::indexed(ifindex)) {
                None => (q, n, Err(SyscallErr::ENODEV)),
                Some(d) => route::answer_errno(
                    q,
                    NetModel {
                        devs: net_core::replace_device(
                            n.devs,
                            DeviceModel {
                                ip_addrs: d.ip_addrs.filter(iface::other_than(c)),
                                ..d
                            },
                        ),
                        entries: without_network(n.entries, c, ifindex),
                        stack_ops: n.stack_ops.push(StackOp::RemoveIp { ifindex, cidr: c }),
                        ..n
                    },
                    0,
                    seq,
                    pid,
                    buf,
                ),
            },
        }
    }
}

fn find_address(attrs: &Vec<RtAttr>, min: usize) -> (r: Option<&RtAttr>)
    ensures
        match r {
            Some(a) => a@.data.len() >= min && seqs::find_first(
                attr::attr_models(attrs@),
                holds_address(min as int),
            ) == Some(a@),
            None => seqs::find_first(attr::attr_models(attrs@), holds_address(min as int)) is None,
        },
{
    let mut i: usize = 0;
    while i < attrs.len()
        invariant
            i <= attrs@.len(),
            forall|j: int|
                0 <= j < i ==> !holds_address(min as int)(#[trigger] attr::attr_models(attrs@)[j]),
        decreases attrs@.len() - i,
    {
        assert(attr::attr_models(attrs@)[i as int] == attrs@[i as int]@);
        if (attrs[i].ty == netlink::IFA_ADDRESS || attrs[i].ty == netlink::IFA_LOCAL)
            && attrs[i].data.len() >= min {
            proof {
                seqs::lemma_find_first(
                    attr::attr_models(attrs@),
                    holds_address(min as int),
                    i as int,
                );
            }
            return Some(&attrs[i]);
        }
        i = i + 1;
    }
    proof {
        seqs::lemma_find_none(attr::attr_models(attrs@), holds_address(min as int));
    }
    None
}

/// Reads the block that an address request names.
pub fn parse_ifa_addr(payload: &[u8]) -> (r: Result<IpCidr, SyscallErr>)
    ensures
        r == requested_cidr(payload@),
{
    if payload.len() < 8 {
        return Err(SyscallErr::EINVAL);
    }
    let attrs = attr::parse_attrs(payload, 8);
    match payload[0] {
        2 => match find_address(&attrs, 4) {
            Some(a) => Ok(
                IpCidr {
                    address: IpAddress::Ipv4(Ipv4Address::from_bytes_at(&a.data, 0)),
                    prefix_len: payload[1],
                },
            ),
            None => Err(SyscallErr::EINVAL),
        },
        10 => match find_address(&attrs, 16) {
            Some(a) => Ok(
                IpCidr {
                    address: IpAddress::Ipv6(Ipv6Address::from_bytes_at(&a.data, 0)),
                    prefix_len: payload[1],
                },
            ),
            None => Err(SyscallErr::EINVAL),
        },
        _ => Err(SyscallErr::EAFNOSUPPORT),
    }
}

/// The address with the bits behind the prefix cleared.
pub fn network_base(addr: Ipv4Address, prefix_len: u8) -> (r: Ipv4Address)
    requires
        prefix_len <= 32,
    ensures
        IpAddress::Ipv4(r) == (IpCidr {
            address: IpAddress::Ipv4(addr),
            prefix_len,
        }).spec_network().address,
{
    let host: u8 = 32 - prefix_len;
    let mut unit: u64 = 1;
    let mut k: u8 = 0;
    proof {
        wire::lemma_pow2_width();
    }
    while k < host
        invariant
            k <= host <= 32,
            unit == power2::pow2(k as nat),
        decreases host - k,
    {
        proof {
            wire::lemma_pow2_width();
            power2::lemma_pow2_unfold((k + 1) as nat);
            power2::lemma_pow2_strictly_increases(k as nat, 32);
        }
        unit = unit * 2;
        k = k + 1;
    }
    proof {
        power2::lemma_pow2_pos(host as nat);
        lemma_quotient_fits(addr.bits as int, unit as int);
    }
    Ipv4Address { bits: (addr.bits as u64 / unit * unit) as u32 }
}

proof fn lemma_quotient_fits(x: int, u: int)
    requires
        x >= 0,
        u > 0,
    ensures
        0 <= x / u * u <= x,
{
    assert(0 <= x / u * u <= x) by (nonlinear_arith)
        requires
            x >= 0,
            u > 0,
    ;
}

/// The address with the bits behind the prefix cleared.
pub fn network_base_v6(addr: Ipv6Address, prefix_len: u8) -> (r: Ipv6Address)
    requires
        prefix_len <= 128,
    ensures
        IpAddress::Ipv6(r) == (IpCidr {
            address: IpAddress::Ipv6(addr),
            prefix_len,
        }).spec_network().address,
{
    if prefix_len == 0 {
        proof {
            wire::lemma_pow2_width();
            let unit = power2::pow2(128) as int;
            vstd::arithmetic::div_mod::lemma_basic_div(addr.bits as int, unit);
            assert(0 * unit == 0) by (nonlinear_arith);
        }
        return Ipv6Address { bits: 0 };
    }
    let host: u8 = 128 - prefix_len;
    let mut unit: u128 = 1;
    let mut k: u8 = 0;
    proof {
        wire::lemma_pow2_width();
    }
    while k < host
        invariant
            k <= host <= 127,
            unit == power2::pow2(k as nat),
        decreases host - k,
    {
        proof {
            wire::lemma_pow2_width();
            power2::lemma_pow2_unfold((k + 1) as nat);
            power2::lemma_pow2_strictly_increases((k + 1) as nat, 128);
        }
        unit = unit * 2;
        k = k + 1;
    }
    proof {
        power2::lemma_pow2_pos(host as nat);
        lemma_quotient_fits(addr.bits as int, unit as int);
    }
    Ipv6Address { bits: addr.bits / unit * unit }
}

fn network_of(c: IpCidr) -> (r: IpCidr)
    requires
        c.wf(),
    ensures
        r == c.spec_network(),
        r.wf(),
{
    match c.address {
        IpAddress::Ipv4(a) => IpCidr {
            address: IpAddress::Ipv4(network_base(a, c.prefix_len)),
            prefix_len: c.prefix_len,
        },
        IpAddress::Ipv6(a) => IpCidr {
            address: IpAddress::Ipv6(network_base_v6(a, c.prefix_len)),
            prefix_len: c.prefix_len,
        },
    }
}

fn has_cidr(addrs: &Vec<IpCidr>, c: IpCidr) -> (r: bool)
    ensures
        r == addrs@.contains(c),
{
    let mut i: usize = 0;
    while i < addrs.len()
        invariant
            i <= addrs@.len(),
            forall|j: int| 0 <= j < i ==> addrs@[j] != c,
        decreases addrs@.len() - i,
    {
        if addrs[i] == c {
            return true;
        }
        i = i + 1;
    }
    false
}

/// Adds or replaces an address of an interface. An address that is there
/// already is replaced on demand only.
pub fn handle_newaddr(
    seq: u32,
    pid: u32,
    nl_flags: u16,
    buf: &[u8],
    sock: &mut NetlinkSocket,
    net: &mut RouteState,
) -> (r: Result<isize, SyscallErr>)
    requires
        old(sock).wf(),
        old(net).wf(),
        prefix_fits(buf@),
    ensures
        final(sock).wf(),
        final(net).wf(),
        final(sock).local_portid == old(sock).local_portid,
        (final(sock).queue(), final(net)@, r) == newaddr(
            old(sock).queue(),
            old(net)@,
            seq,
            pid,
            nl_flags,
            buf@,
        ),
{
    if buf.len() < 16 {
        return Err(SyscallErr::EINVAL);
    }
    let payload = vstd::slice::slice_subrange(buf, 16, buf.len());
    assert(payload@ =~= buf@.skip(16));
    let cidr = match parse_ifa_addr(payload) {
        Ok(c) => c,
        Err(e) => return Err(e),
    };
    let ifindex: u32 = bytes::get_u32_le(payload, 4);
    let p: usize = match net.ns.position_by_index(ifindex) {
        Some(p) => p,
        None => return Err(SyscallErr::ENODEV),
    };
    let ghost before = net@;
    assert(net@.devs[p as int] == net.ns.devices@[p as int]@);
    let mut d = net.ns.devices[p].duplicate();
    let ghost found = d@;
    if has_cidr(&d.ip_addrs, cidr) {
        if nl_flags & netlink::NLM_F_EXCL != 0 || nl_flags & netlink::NLM_F_REPLACE == 0 {
            return Err(SyscallErr::EEXIST);
        }
        proof {
            seqs::lemma_filter_elements(d.ip_addrs@, iface::other_than(cidr));
        }
        d.del_ip_addr(cidr);
        d.add_ip_addr(cidr);
    } else {
        d.add_ip_addr(cidr);
    }
    assert(d@ == (DeviceModel { ip_addrs: with_addr(found.ip_addrs, cidr), ..found }));
    net.ns.update_device(d);
    net.stack_ops.push(StackOp::RemoveIp { ifindex, cidr });
    net.stack_ops.push(StackOp::AddIp { ifindex, cidr });
    let network = network_of(cidr);
    net.ns.router.table.remove_connected(ifindex, &network);
    net.ns.router.add_route(network, None, ifindex, 0, RouteType::Connected);
    route::send_ack(sock, net, buf, seq, pid)
}

/// Removes an address of an interface.
pub fn handle_deladdr(
    seq: u32,
    pid: u32,
    buf: &[u8],
    sock: &mut NetlinkSocket,
    net: &mut RouteState,
) -> (r: Result<isize, SyscallErr>)
    requires
        old(sock).wf(),
        old(net).wf(),
        prefix_fits(buf@),
    ensures
        final(sock).wf(),
        final(net).wf(),
        final(sock).local_portid == old(sock).local_portid,
        (final(sock).queue(), final(net)@, r) == deladdr(
            old(sock).queue(),
            old(net)@,
            seq,
            pid,
            buf@,
        ),
{
    if buf.len() < 16 {
        return Err(SyscallErr::EINVAL);
    }
    let payload = vstd::slice::slice_subrange(buf, 16, buf.len());
    assert(payload@ =~= buf@.skip(16));
    let cidr = match parse_ifa_addr(payload) {
        Ok(c) => c,
        Err(e) => return Err(e),
    };
    let ifindex: u32 = bytes::get_u32_le(payload, 4);
    let p: usize = match net.ns.position_by_index(ifindex) {
        Some(p) => p,
        None => return Err(SyscallErr::ENODEV),
    };
    assert(net@.devs[p as int] == net.ns.devices@[p as int]@);
    let mut d = net.ns.devices[p].duplicate();
    proof {
        seqs::lemma_filter_elements(d.ip_addrs@, iface::other_than(cidr));
    }
    d.del_ip_addr(cidr);
    net.ns.update_device(d);
    net.stack_ops.push(StackOp::RemoveIp { ifindex, cidr });
    let network = network_of(cidr);
    net.ns.router.table.remove_connected(ifindex, &network);
    route::send_ack(sock, net, buf, seq, pid)
}

/// Removing an address that was not there before it was added gives the
/// interface back the addresses that it had, and leaves no connected route of
/// that network behind.
pub proof fn law_deladdr_undoes_newaddr(
    addrs: Seq<IpCidr>,
    entries: Seq<RouteEntry>,
    c: IpCidr,
    ifindex: u32,
)
    requires
        !addrs.contains(c),
    ensures
        with_addr(addrs, c).filter(iface::other_than(c)) == addrs,
        without_network(
            without_network(entries, c, ifindex).push(network_route(c, ifindex)),
            c,
            ifindex,
        ) == without_network(entries, c, ifindex),
{
    let s = addrs.push(c);
    assert(s[s.len() - 1] == c);
    seqs::lemma_filter_step(s, iface::other_than(c), addrs.len() as int);
    assert(s.take(s.len() as int) =~= s);
    assert(s.take(addrs.len() as int) =~= addrs);
    assert forall|k: int| 0 <= k < addrs.len() implies iface::other_than(c)(addrs[k]) by {
        assert(addrs.contains(addrs[k]));
    }
    seqs::lemma_filter_all(addrs, iface::other_than(c));
    let p = routing::not_connected_to(ifindex, c.spec_network());
    let kept = entries.filter(p);
    let t = kept.push(network_route(c, ifindex));
    seqs::lemma_filter_step(t, p, kept.len() as int);
    assert(t.take(t.len() as int) =~= t);
    assert(t.take(kept.len() as int) =~= kept);
    seqs::lemma_filter_idempotent(entries, p);
}

} // verus!
