//! Ports: who may hold one beside whom.
use vstd::prelude::*;
use crate::error::SyscallErr;
use crate::seqs;
use crate::socket::inet::common::port::registry;
use crate::socket::inet::common::port::registry::{
    AddressFamily,
    BindIntent,
    PortOwner,
    PortOwnerState,
    PortReservation,
    RegistryModel,
    TransportProtocol,
};
use crate::wire::{IpAddress, Ipv4Address};

verus! {

/// A port that a living socket holds is refused to another: within a family
/// where one of the two wants every address or both want the same, on the same
/// interface or where one of them wants every interface, unless they share a
/// way of reusing it. The table gains no owner.
pub proof fn law_held_port_is_refused(
    m: RegistryModel,
    k: int,
    intent: BindIntent,
    socket: u64,
    live: Seq<u64>,
)
    requires
        0 <= k < m.owners.len(),
        live.contains(m.owners[k].socket),
        intent.port != 0,
        m.owners[k].key.port == intent.port,
        m.owners[k].key.protocol == intent.protocol,
        m.owners[k].key.family == intent.family,
        m.owners[k].key.ifindex is None || intent.ifindex is None || m.owners[k].key.ifindex
            == intent.ifindex,
        m.owners[k].key.address is None || intent.address is None || m.owners[k].key.address
            == intent.address,
        !m.owners[k].reuse_addr || !intent.reuse_addr,
        !m.owners[k].reuse_port || !intent.reuse_port,
    ensures
        registry::reserved(m, intent, socket, live).1 == Err::<PortReservation, SyscallErr>(
            SyscallErr::EADDRINUSE,
        ),
        forall|j: int|
            0 <= j < registry::reserved(m, intent, socket, live).0.owners.len()
                ==> m.owners.contains(
                #[trigger] registry::reserved(m, intent, socket, live).0.owners[j],
            ),
{
    let p = registry::is_live(live);
    let kept = m.owners.filter(p);
    assert(m.owners.contains(m.owners[k]));
    seqs::lemma_filter_keeps(m.owners, p, m.owners[k]);
    seqs::lemma_filter_elements(m.owners, p);
    let j = choose|j: int| 0 <= j < kept.len() && kept[j] == m.owners[k];
    assert(registry::conflicts(kept[j], registry::with_port(intent, intent.port)));
}

/// An IPv6 socket that wants every address, and IPv4 traffic too, keeps the
/// port from IPv4 sockets, and an IPv4 socket keeps it from such a one.
pub proof fn law_dual_stack_port_is_refused(
    m: RegistryModel,
    k: int,
    intent: BindIntent,
    socket: u64,
    live: Seq<u64>,
)
    requires
        0 <= k < m.owners.len(),
        live.contains(m.owners[k].socket),
        intent.port != 0,
        m.owners[k].key.port == intent.port,
        m.owners[k].key.protocol == intent.protocol,
        m.owners[k].key.ifindex is None || intent.ifindex is None || m.owners[k].key.ifindex
            == intent.ifindex,
        (m.owners[k].key.family == AddressFamily::Ipv6 && m.owners[k].key.address is None
            && !m.owners[k].ipv6_v6only && intent.family == AddressFamily::Ipv4) || (
        m.owners[k].key.family == AddressFamily::Ipv4 && intent.family == AddressFamily::Ipv6
            && intent.address is None && !intent.ipv6_v6only),
        !m.owners[k].reuse_addr || !intent.reuse_addr,
        !m.owners[k].reuse_port || !intent.reuse_port,
    ensures
        registry::reserved(m, intent, socket, live).1 == Err::<PortReservation, SyscallErr>(
            SyscallErr::EADDRINUSE,
        ),
{
    let p = registry::is_live(live);
    let kept = m.owners.filter(p);
    assert(m.owners.contains(m.owners[k]));
    seqs::lemma_filter_keeps(m.owners, p, m.owners[k]);
    let j = choose|j: int| 0 <= j < kept.len() && kept[j] == m.owners[k];
    assert(registry::conflicts(kept[j], registry::with_port(intent, intent.port)));
}

/// A port is granted where every living owner of it has another protocol,
/// another address of the same family, another interface, a family that does
/// not reach over, or shares a way of reusing it. The owner is the one asked
/// for; the living owners stay, and those whose sockets are gone leave.
pub proof fn law_other_port_is_granted(
    m: RegistryModel,
    intent: BindIntent,
    socket: u64,
    live: Seq<u64>,
)
    requires
        intent.port != 0,
        m.next_token < u64::MAX,
        forall|k: int|
            0 <= k < m.owners.len() && live.contains((#[trigger] m.owners[k]).socket) ==> {
                ||| m.owners[k].key.port != intent.port
                ||| m.owners[k].key.protocol != intent.protocol
                ||| m.owners[k].key.ifindex is Some && intent.ifindex is Some
                    && m.owners[k].key.ifindex != intent.ifindex
                ||| m.owners[k].key.family == intent.family && m.owners[k].key.address is Some
                    && intent.address is Some && m.owners[k].key.address != intent.address
                ||| m.owners[k].key.family == AddressFamily::Ipv6 && intent.family
                    == AddressFamily::Ipv4 && (m.owners[k].key.address is Some
                    || m.owners[k].ipv6_v6only)
                ||| m.owners[k].key.family == AddressFamily::Ipv4 && intent.family
                    == AddressFamily::Ipv6 && (intent.address is Some || intent.ipv6_v6only)
                ||| m.owners[k].reuse_addr && intent.reuse_addr
                ||| m.owners[k].reuse_port && intent.reuse_port
            },
    ensures
        ({
            let (n, r) = registry::reserved(m, intent, socket, live);
            &&& r matches Ok(x)
            &&& x.owner == socket
            &&& x.key.protocol == intent.protocol
            &&& x.key.family == intent.family
            &&& x.key.address == intent.address
            &&& x.key.port == intent.port
            &&& x.key.ifindex == intent.ifindex
            &&& n.owners.len() > 0
            &&& n.owners.last().key == x.key
            &&& n.owners.last().token == x.token
            &&& n.owners.last().socket == socket
            &&& n.owners.last().state == PortOwnerState::Reserved
            &&& n.owners.last().reuse_addr == intent.reuse_addr
            &&& n.owners.last().reuse_port == intent.reuse_port
            &&& n.owners.last().ipv6_v6only == intent.ipv6_v6only
            &&& n.next_ephemeral == m.next_ephemeral
            &&& n.next_token > x.token
            &&& forall|k: int|
                0 <= k < m.owners.len() && live.contains((#[trigger] m.owners[k]).socket)
                    ==> n.owners.contains(m.owners[k])
            &&& forall|j: int|
                0 <= j < n.owners.len() - 1 ==> m.owners.contains(#[trigger] n.owners[j])
                    && live.contains(n.owners[j].socket)
        }),
{
    let p = registry::is_live(live);
    let kept = m.owners.filter(p);
    let i = registry::with_port(intent, intent.port);
    seqs::lemma_filter_elements(m.owners, p);
    assert forall|j: int| 0 <= j < kept.len() implies !registry::conflicts(
        #[trigger] kept[j],
        i,
    ) by {
        assert(m.owners.contains(kept[j]));
        let k = choose|k: int| 0 <= k < m.owners.len() && m.owners[k] == kept[j];
        assert(p(kept[j]));
        assert(live.contains(m.owners[k].socket));
    }
    let n = registry::reserved(m, intent, socket, live).0;
    assert forall|k: int|
        0 <= k < m.owners.len() && live.contains(
            (#[trigger] m.owners[k]).socket,
        ) implies n.owners.contains(m.owners[k]) by {
        assert(m.owners.contains(m.owners[k]));
        seqs::lemma_filter_keeps(m.owners, p, m.owners[k]);
        let j = choose|j: int| 0 <= j < kept.len() && kept[j] == m.owners[k];
        assert(n.owners[j] == m.owners[k]);
    }
    assert forall|j: int| 0 <= j < n.owners.len() - 1 implies m.owners.contains(
        #[trigger] n.owners[j],
    ) && live.contains(n.owners[j].socket) by {
        assert(n.owners[j] == kept[j]);
        assert(p(kept[j]));
    }
}

/// A socket that names no port gets one of the ephemeral range that no living
/// owner stands on in the same protocol, family and way, and everything else as
/// it was asked for.
pub proof fn law_ephemeral_port_is_free(
    m: RegistryModel,
    intent: BindIntent,
    socket: u64,
    live: Seq<u64>,
    k: int,
)
    requires
        intent.port == 0,
        registry::reserved(m, intent, socket, live).1 is Ok,
    ensures
        ({
            let x = registry::reserved(m, intent, socket, live).1->Ok_0;
            &&& 49152 <= x.key.port <= 65534
            &&& x.key.protocol == intent.protocol
            &&& x.key.family == intent.family
            &&& x.key.address == intent.address
            &&& x.key.ifindex == intent.ifindex
            &&& x.owner == socket
            &&& 0 <= k < m.owners.len() && live.contains(m.owners[k].socket)
                && m.owners[k].key.protocol == intent.protocol && m.owners[k].key.family
                == intent.family && m.owners[k].key.port == x.key.port && (
            m.owners[k].key.ifindex is None || intent.ifindex is None || m.owners[k].key.ifindex
                == intent.ifindex) && (m.owners[k].key.address is None || intent.address is None
                || m.owners[k].key.address == intent.address) ==> (m.owners[k].reuse_addr
                && intent.reuse_addr) || (m.owners[k].reuse_port && intent.reuse_port)
        }),
{
    let p = registry::is_live(live);
    let kept = m.owners.filter(p);
    let start = registry::search_start(m.next_ephemeral);
    lemma_free_port(kept, intent, start, 16383);
    let x = registry::reserved(m, intent, socket, live).1->Ok_0;
    if 0 <= k < m.owners.len() && live.contains(m.owners[k].socket) {
        assert(m.owners.contains(m.owners[k]));
        seqs::lemma_filter_keeps(m.owners, p, m.owners[k]);
        let j = choose|j: int| 0 <= j < kept.len() && kept[j] == m.owners[k];
        assert(!registry::conflicts(kept[j], registry::with_port(intent, x.key.port)));
    }
}

proof fn lemma_free_port(
    owners: Seq<PortOwner>,
    i: BindIntent,
    port: u16,
    n: nat,
)
    requires
        49152 <= port <= 65534,
    ensures
        registry::free_port(owners, i, port, n) matches Some(p) ==> 49152 <= p <= 65534
            && registry::is_free(owners, registry::with_port(i, p)),
    decreases n,
{
    if n > 0 {
        lemma_free_port(owners, i, registry::port_after(port), (n - 1) as nat);
    }
}

/// What one living socket was granted another does not get, whichever of the
/// two asks for every address: only a shared way of reusing the port, or two
/// different addresses, let both in.
pub proof fn law_granted_port_is_exclusive(
    m: RegistryModel,
    a: BindIntent,
    b: BindIntent,
    first: u64,
    second: u64,
    live: Seq<u64>,
    later: Seq<u64>,
)
    requires
        registry::reserved(m, a, first, live).1 is Ok,
        later.contains(first),
        b.port == registry::reserved(m, a, first, live).1->Ok_0.key.port,
        b.port != 0,
        a.protocol == b.protocol,
        a.family == b.family,
        a.ifindex is None || b.ifindex is None || a.ifindex == b.ifindex,
        a.address is None || b.address is None || a.address == b.address,
        !a.reuse_addr || !b.reuse_addr,
        !a.reuse_port || !b.reuse_port,
    ensures
        registry::reserved(
            registry::reserved(m, a, first, live).0,
            b,
            second,
            later,
        ).1 == Err::<PortReservation, SyscallErr>(SyscallErr::EADDRINUSE),
        registry::reserved(
            registry::committed(
                registry::reserved(m, a, first, live).0,
                registry::reserved(m, a, first, live).1->Ok_0,
            ),
            b,
            second,
            later,
        ).1 == Err::<PortReservation, SyscallErr>(SyscallErr::EADDRINUSE),
{
    let n = registry::reserved(m, a, first, live).0;
    let c = registry::committed(n, registry::reserved(m, a, first, live).1->Ok_0);
    let k = n.owners.len() - 1;
    law_held_port_is_refused(n, k, b, second, later);
    law_held_port_is_refused(c, k, b, second, later);
}

/// Making a reservation permanent changes the standing of its owner and
/// nothing else.
pub proof fn law_commit_binds(m: RegistryModel, r: PortReservation, k: int)
    requires
        0 <= k < m.owners.len(),
    ensures
        ({
            let n = registry::committed(m, r);
            &&& n.owners.len() == m.owners.len()
            &&& n.next_token == m.next_token
            &&& n.next_ephemeral == m.next_ephemeral
            &&& n.owners[k].key == m.owners[k].key
            &&& n.owners[k].token == m.owners[k].token
            &&& n.owners[k].socket == m.owners[k].socket
            &&& n.owners[k].reuse_addr == m.owners[k].reuse_addr
            &&& n.owners[k].reuse_port == m.owners[k].reuse_port
            &&& n.owners[k].ipv6_v6only == m.owners[k].ipv6_v6only
            &&& n.owners[k].state == if m.owners[k].key == r.key && m.owners[k].token == r.token
                && m.owners[k].socket == r.owner {
                PortOwnerState::Bound
            } else {
                m.owners[k].state
            }
        }),
{
}

/// Giving a port up takes out its owner and leaves the others in their order.
pub proof fn law_release_frees(m: RegistryModel, r: PortReservation, k: int)
    requires
        0 <= k < m.owners.len(),
    ensures
        ({
            let n = registry::released(m, r);
            let given_up = m.owners[k].key == r.key && m.owners[k].token == r.token
                && m.owners[k].socket == r.owner;
            &&& n.next_token == m.next_token
            &&& n.next_ephemeral == m.next_ephemeral
            &&& n.owners.contains(m.owners[k]) == !given_up
            &&& n.owners.len() <= m.owners.len()
            &&& given_up ==> n.owners.len() < m.owners.len()
        }),
{
    let p = registry::other_than(r);
    seqs::lemma_filter_elements(m.owners, p);
    assert(m.owners.contains(m.owners[k]));
    if p(m.owners[k]) {
        seqs::lemma_filter_keeps(m.owners, p, m.owners[k]);
    } else {
        let f = m.owners.filter(p);
        if f.contains(m.owners[k]) {
            let j = choose|j: int| 0 <= j < f.len() && f[j] == m.owners[k];
            assert(p(f[j]));
        }
        lemma_filter_shrinks(m.owners, p, k);
    }
}

proof fn lemma_filter_shrinks<T>(s: Seq<T>, p: spec_fn(T) -> bool, k: int)
    requires
        0 <= k < s.len(),
        !p(s[k]),
    ensures
        s.filter(p).len() < s.len(),
    decreases s.len(),
{
    reveal(Seq::filter);
    let t = s.drop_last();
    if k == s.len() - 1 {
        seqs::lemma_filter_elements(t, p);
    } else {
        assert(t[k] == s[k]);
        lemma_filter_shrinks(t, p, k);
    }
}

/// The owner of a port that came first leaves, and no other.
pub proof fn law_release_one(
    m: RegistryModel,
    protocol: TransportProtocol,
    port: u16,
    i: int,
)
    requires
        0 <= i < m.owners.len(),
        m.owners[i].key.protocol == protocol,
        m.owners[i].key.port == port,
        forall|j: int|
            0 <= j < i ==> (#[trigger] m.owners[j]).key.protocol != protocol
                || m.owners[j].key.port != port,
    ensures
        registry::released_one(m, protocol, port).owners == m.owners.remove(i),
        registry::released_one(m, protocol, port).next_token == m.next_token,
        registry::released_one(m, protocol, port).next_ephemeral == m.next_ephemeral,
{
    lemma_first_leaves(m.owners, registry::of_port(protocol, port), i);
}

proof fn lemma_first_leaves(
    owners: Seq<PortOwner>,
    p: spec_fn(PortOwner) -> bool,
    i: int,
)
    requires
        0 <= i < owners.len(),
        p(owners[i]),
        forall|j: int| 0 <= j < i ==> !p(#[trigger] owners[j]),
    ensures
        registry::without_first(owners, p) == owners.remove(i),
    decreases owners.len(),
{
    if i == 0 {
        assert(owners.remove(0) =~= owners.drop_first());
    } else {
        let t = owners.drop_first();
        assert forall|j: int| 0 <= j < i - 1 implies !p(#[trigger] t[j]) by {
            assert(t[j] == owners[j + 1]);
        }
        assert(t[i - 1] == owners[i]);
        lemma_first_leaves(t, p, i - 1);
        assert(seq![owners[0]] + t.remove(i - 1) =~= owners.remove(i));
    }
}

/// Whether an IPv4 port could be had, asked before it is bound: not where an owner
/// has the same protocol and port, at the same address or where one of the two
/// has every address, and they do not share it.
pub proof fn law_legacy_conflict(
    owners: Seq<PortOwner>,
    k: int,
    protocol: TransportProtocol,
    port: u16,
    addr: Option<Ipv4Address>,
    reuse: bool,
)
    requires
        0 <= k < owners.len(),
        owners[k].key.protocol == protocol,
        owners[k].key.port == port,
        owners[k].key.family == AddressFamily::Ipv4,
        owners[k].key.address is None || addr is None || owners[k].key.address == Some(
            IpAddress::Ipv4(addr->0),
        ),
        !reuse || !owners[k].reuse_addr,
    ensures
        !registry::is_free(owners, registry::legacy_intent(protocol, port, addr, reuse)),
{
    assert(registry::conflicts(owners[k], registry::legacy_intent(protocol, port, addr, reuse)));
}

/// A port that no owner has in that protocol could be had.
pub proof fn law_unheld_port_is_free(
    owners: Seq<PortOwner>,
    protocol: TransportProtocol,
    port: u16,
    addr: Option<Ipv4Address>,
    reuse: bool,
)
    requires
        forall|k: int|
            0 <= k < owners.len() ==> (#[trigger] owners[k]).key.protocol != protocol
                || owners[k].key.port != port,
    ensures
        registry::is_free(owners, registry::legacy_intent(protocol, port, addr, reuse)),
{
}

} // verus!
