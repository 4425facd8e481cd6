//! Who owns which port.
use vstd::prelude::*;
use crate::error::SyscallErr;
use crate::seqs;
use crate::socket::{Endpoint, EndpointModel};
use crate::wire::{IpAddress, IpEndpoint, Ipv4Address, Ipv6Address};

verus! {

/// The first port that is handed out where none is asked for.
pub const EPHEMERAL_PORT_MIN: u16 = 49152;

/// The last port that is handed out where none is asked for.
pub const EPHEMERAL_PORT_MAX: u16 = 65534;

/// How many ports are handed out where none is asked for.
pub const EPHEMERAL_PORTS: u16 = 16383;

#[derive(Clone, Copy, Debug, PartialEq, Eq, PartialOrd, Ord, Structural)]
pub enum TransportProtocol {
    Tcp,
    Udp,
}

#[derive(Clone, Copy, Debug, PartialEq, Eq, PartialOrd, Ord, Structural)]
pub enum AddressFamily {
    Ipv4,
    Ipv6,
}

/// What a socket asks for when it is bound. No address stands for all, no
/// interface for any.
#[derive(Clone, Copy, Debug, PartialEq, Eq, Structural)]
pub struct BindIntent {
    pub protocol: TransportProtocol,
    pub family: AddressFamily,
    pub address: Option<IpAddress>,
    pub port: u16,
    pub ifindex: Option<u32>,
    pub reuse_addr: bool,
    pub reuse_port: bool,
    pub ipv6_v6only: bool,
}

/// The place that an owner takes up.
#[derive(Clone, Copy, Debug, PartialEq, Eq, Structural)]
pub struct PortKey {
    pub protocol: TransportProtocol,
    pub family: AddressFamily,
    pub address: Option<IpAddress>,
    pub port: u16,
    pub ifindex: Option<u32>,
}

#[derive(Clone, Copy, Debug, PartialEq, Eq, Structural)]
pub enum PortOwnerState {
    /// The place is taken, but the socket is not bound yet.
    Reserved,
    /// The socket is bound.
    Bound,
}

/// An owner of a port. The socket is known by its number.
#[derive(Clone, Copy, Debug, PartialEq, Eq, Structural)]
pub struct PortOwner {
    pub key: PortKey,
    pub token: u64,
    pub socket: u64,
    pub state: PortOwnerState,
    pub reuse_addr: bool,
    pub reuse_port: bool,
    pub ipv6_v6only: bool,
}

/// What identifies one owner, also among others of the same port.
#[derive(Clone, Copy, Debug, PartialEq, Eq, Structural)]
pub struct PortReservation {
    pub key: PortKey,
    pub token: u64,
    pub owner: u64,
}

/// The owners of ports in one namespace, in the order in which they came.
pub struct PortRegistry {
    /// Where the next search for a free port starts.
    pub next_ephemeral: u16,
    /// The identity of the next owner. None is used twice.
    pub next_token: u64,
    pub owners: Vec<PortOwner>,
}

/// The address of all hosts in a family.
pub open spec fn any_address(family: AddressFamily) -> IpAddress {
    match family {
        AddressFamily::Ipv4 => IpAddress::Ipv4(Ipv4Address { bits: 0 }),
        AddressFamily::Ipv6 => IpAddress::Ipv6(Ipv6Address { bits: 0 }),
    }
}

/// The endpoint that a place stands for.
pub open spec fn key_endpoint(k: PortKey) -> EndpointModel {
    EndpointModel::Ip(
        IpEndpoint {
            addr: match k.address {
                Some(a) => a,
                None => any_address(k.family),
            },
            port: k.port,
        },
    )
}

pub open spec fn key_of(i: BindIntent) -> PortKey {
    PortKey {
        protocol: i.protocol,
        family: i.family,
        address: i.address,
        port: i.port,
        ifindex: i.ifindex,
    }
}

/// An intent with an IPv4 address on any interface.
pub open spec fn legacy_intent(
    protocol: TransportProtocol,
    port: u16,
    addr: Option<Ipv4Address>,
    reuse_addr: bool,
) -> BindIntent {
    BindIntent {
        protocol,
        family: AddressFamily::Ipv4,
        address: match addr {
            Some(a) => Some(IpAddress::Ipv4(a)),
            None => None,
        },
        port,
        ifindex: None,
        reuse_addr,
        reuse_port: false,
        ipv6_v6only: false,
    }
}

impl BindIntent {
    pub fn inet(
        protocol: TransportProtocol,
        family: AddressFamily,
        address: Option<IpAddress>,
        port: u16,
        ifindex: Option<u32>,
        reuse_addr: bool,
        ipv6_v6only: bool,
    ) -> (r: BindIntent)
        ensures
            r == (BindIntent {
                protocol,
                family,
                address,
                port,
                ifindex,
                reuse_addr,
                reuse_port: false,
                ipv6_v6only,
            }),
    {
        BindIntent {
            protocol,
            family,
            address,
            port,
            ifindex,
            reuse_addr,
            reuse_port: false,
            ipv6_v6only,
        }
    }

    /// A UDP port for an IPv4 address.
    pub fn legacy_udp(port: u16, address: Option<IpAddress>, reuse_addr: bool) -> (r: BindIntent)
        ensures
            r == (BindIntent {
                address,
                ..legacy_intent(TransportProtocol::Udp, port, None, reuse_addr)
            }),
    {
        BindIntent::inet(
            TransportProtocol::Udp,
            AddressFamily::Ipv4,
            address,
            port,
            None,
            reuse_addr,
            false,
        )
    }

    /// A TCP port for an IPv4 address.
    pub fn legacy_tcp(port: u16, address: Option<IpAddress>) -> (r: BindIntent)
        ensures
            r == (BindIntent {
                address,
                ..legacy_intent(TransportProtocol::Tcp, port, None, false)
            }),
    {
        BindIntent::inet(
            TransportProtocol::Tcp,
            AddressFamily::Ipv4,
            address,
            port,
            None,
            false,
            false,
        )
    }

    /// The endpoint that is asked for.
    pub fn endpoint(&self) -> (r: Endpoint)
        ensures
            r@ == key_endpoint(key_of(*self)),
    {
        let addr = match self.address {
            Some(a) => a,
            None => match self.family {
                AddressFamily::Ipv4 => IpAddress::Ipv4(Ipv4Address { bits: 0 }),
                AddressFamily::Ipv6 => IpAddress::Ipv6(Ipv6Address { bits: 0 }),
            },
        };
        Endpoint::Ip(IpEndpoint { addr, port: self.port })
    }

    /// The place that is asked for.
    pub fn key(&self) -> (r: PortKey)
        ensures
            r == key_of(*self),
    {
        PortKey {
            protocol: self.protocol,
            family: self.family,
            address: self.address,
            port: self.port,
            ifindex: self.ifindex,
        }
    }
}

impl PortReservation {
    /// The endpoint that is reserved.
    pub fn endpoint(&self) -> (r: Endpoint)
        ensures
            r@ == key_endpoint(self.key),
    {
        BindIntent {
            protocol: self.key.protocol,
            family: self.key.family,
            address: self.key.address,
            port: self.key.port,
            ifindex: self.key.ifindex,
            reuse_addr: false,
            reuse_port: false,
            ipv6_v6only: false,
        }.endpoint()
    }
}

/// Two choices meet where they are equal or one of them is open.
pub open spec fn overlap<T>(a: Option<T>, b: Option<T>) -> bool {
    a is None || b is None || a == b
}

/// Two places meet. Across families only an IPv6 owner of all addresses meets
/// IPv4, unless it wants IPv6 only.
pub open spec fn keys_meet(a: PortKey, a_v6only: bool, b: PortKey, b_v6only: bool) -> bool {
    &&& overlap(a.ifindex, b.ifindex)
    &&& if a.family == b.family {
        overlap(a.address, b.address)
    } else if a.family == AddressFamily::Ipv6 {
        a.address is None && !a_v6only
    } else {
        b.address is None && !b_v6only
    }
}

/// An owner stands in the way of an intent.
pub open spec fn conflicts(o: PortOwner, i: BindIntent) -> bool {
    &&& o.key.protocol == i.protocol
    &&& o.key.port == i.port
    &&& keys_meet(o.key, o.ipv6_v6only, key_of(i), i.ipv6_v6only)
    &&& !(i.reuse_addr && o.reuse_addr)
    &&& !(i.reuse_port && o.reuse_port)
}

/// What an owner had asked for.
pub open spec fn intent_of(o: PortOwner) -> BindIntent {
    BindIntent {
        protocol: o.key.protocol,
        family: o.key.family,
        address: o.key.address,
        port: o.key.port,
        ifindex: o.key.ifindex,
        reuse_addr: o.reuse_addr,
        reuse_port: o.reuse_port,
        ipv6_v6only: o.ipv6_v6only,
    }
}

/// No owner stands in the way.
pub open spec fn is_free(owners: Seq<PortOwner>, i: BindIntent) -> bool {
    forall|k: int| 0 <= k < owners.len() ==> !conflicts(#[trigger] owners[k], i)
}

pub open spec fn with_port(i: BindIntent, port: u16) -> BindIntent {
    BindIntent { port, ..i }
}

/// The search starts within the range.
pub open spec fn search_start(next: u16) -> u16 {
    if next < EPHEMERAL_PORT_MIN {
        EPHEMERAL_PORT_MIN
    } else if next > EPHEMERAL_PORT_MAX {
        EPHEMERAL_PORT_MAX
    } else {
        next
    }
}

/// The port behind another in the range, the first behind the last.
pub open spec fn port_after(port: u16) -> u16 {
    if port == EPHEMERAL_PORT_MAX {
        EPHEMERAL_PORT_MIN
    } else {
        (port + 1) as u16
    }
}

/// The first free port from `port` on among the next `n` of the range.
pub open spec fn free_port(owners: Seq<PortOwner>, i: BindIntent, port: u16, n: nat) -> Option<u16>
    decreases n,
{
    if n == 0 {
        None
    } else if is_free(owners, with_port(i, port)) {
        Some(port)
    } else {
        free_port(owners, i, port_after(port), (n - 1) as nat)
    }
}

pub open spec fn is_live(live: Seq<u64>) -> spec_fn(PortOwner) -> bool {
    |o: PortOwner| live.contains(o.socket)
}

pub open spec fn other_than(r: PortReservation) -> spec_fn(PortOwner) -> bool {
    |o: PortOwner| !(o.key == r.key && o.token == r.token && o.socket == r.owner)
}

pub open spec fn is_owner(r: PortReservation) -> spec_fn(PortOwner) -> bool {
    |o: PortOwner| o.key == r.key && o.token == r.token && o.socket == r.owner
}

/// The owner that a reservation stands for.
pub open spec fn owner_of(owners: Seq<PortOwner>, r: PortReservation) -> Option<PortOwner> {
    seqs::find_first(owners, is_owner(r))
}

/// What a [`PortRegistry`] holds.
#[verifier::ext_equal]
pub struct RegistryModel {
    pub next_ephemeral: u16,
    pub next_token: u64,
    pub owners: Seq<PortOwner>,
}

impl View for PortRegistry {
    type V = RegistryModel;

    open spec fn view(&self) -> RegistryModel {
        RegistryModel {
            next_ephemeral: self.next_ephemeral,
            next_token: self.next_token,
            owners: self.owners@,
        }
    }
}

impl RegistryModel {
    /// No owner stands in the way of another, and every owner has an identity
    /// of its own, which was handed out.
    pub open spec fn wf(self) -> bool {
        &&& forall|i: int, j: int|
            0 <= i < j < self.owners.len() ==> !conflicts(
                #[trigger] self.owners[i],
                intent_of(#[trigger] self.owners[j]),
            )
        &&& forall|i: int, j: int|
            0 <= i < j < self.owners.len() ==> (#[trigger] self.owners[i]).token != (
            #[trigger] self.owners[j]).token
        &&& forall|i: int| 0 <= i < self.owners.len() ==> (#[trigger] self.owners[i]).token < self.next_token
    }
}

/// The owner that an intent gives rise to.
pub open spec fn new_owner(i: BindIntent, token: u64, socket: u64) -> PortOwner {
    PortOwner {
        key: key_of(i),
        token,
        socket,
        state: PortOwnerState::Reserved,
        reuse_addr: i.reuse_addr,
        reuse_port: i.reuse_port,
        ipv6_v6only: i.ipv6_v6only,
    }
}

/// Reserving a port: owners whose sockets are gone are left out, an intent
/// without a port gets the next free one, and the owner is added if nothing
/// stands in its way.
pub open spec fn reserved(m: RegistryModel, intent: BindIntent, socket: u64, live: Seq<u64>) -> (
    RegistryModel,
    Result<PortReservation, SyscallErr>,
) {
    let kept = m.owners.filter(is_live(live));
    let found = if intent.port == 0 {
        free_port(kept, intent, search_start(m.next_ephemeral), EPHEMERAL_PORTS as nat)
    } else {
        Some(intent.port)
    };
    match found {
        None => (RegistryModel { owners: kept, ..m }, Err(SyscallErr::ENOSPC)),
        Some(port) => {
            let i = with_port(intent, port);
            let n = RegistryModel {
                owners: kept,
                next_ephemeral: if intent.port == 0 {
                    port_after(port)
                } else {
                    m.next_ephemeral
                },
                ..m
            };
            if !is_free(kept, i) {
                (n, Err(SyscallErr::EADDRINUSE))
            } else if m.next_token == u64::MAX {
                (n, Err(SyscallErr::ENOSPC))
            } else {
                (
                    RegistryModel {
                        owners: kept.push(new_owner(i, m.next_token, socket)),
                        next_token: (m.next_token + 1) as u64,
                        ..n
                    },
                    Ok(PortReservation { key: key_of(i), token: m.next_token, owner: socket }),
                )
            }
        },
    }
}

/// Making a reservation permanent.
pub open spec fn committed(m: RegistryModel, r: PortReservation) -> RegistryModel {
    RegistryModel {
        owners: Seq::new(
            m.owners.len(),
            |i: int|
                if is_owner(r)(m.owners[i]) {
                    PortOwner { state: PortOwnerState::Bound, ..m.owners[i] }
                } else {
                    m.owners[i]
                },
        ),
        ..m
    }
}

/// Giving a reservation up.
pub open spec fn released(m: RegistryModel, r: PortReservation) -> RegistryModel {
    RegistryModel { owners: m.owners.filter(other_than(r)), ..m }
}

pub open spec fn of_port(protocol: TransportProtocol, port: u16) -> spec_fn(PortOwner) -> bool {
    |o: PortOwner| o.key.protocol == protocol && o.key.port == port
}

/// Taking out the owner of a port that came first.
pub open spec fn released_one(m: RegistryModel, protocol: TransportProtocol, port: u16) -> RegistryModel {
    RegistryModel { owners: without_first(m.owners, of_port(protocol, port)), ..m }
}

/// The owners without the first that satisfies `p`.
pub open spec fn without_first(owners: Seq<PortOwner>, p: spec_fn(PortOwner) -> bool) -> Seq<PortOwner>
    decreases owners.len(),
{
    if owners.len() == 0 {
        owners
    } else if p(owners[0]) {
        owners.drop_first()
    } else {
        seq![owners[0]] + without_first(owners.drop_first(), p)
    }
}

proof fn lemma_without_first(owners: Seq<PortOwner>, p: spec_fn(PortOwner) -> bool, i: int)
    requires
        0 <= i <= owners.len(),
        forall|j: int| 0 <= j < i ==> !p(#[trigger] owners[j]),
        i < owners.len() ==> p(owners[i]),
    ensures
        without_first(owners, p) == if i < owners.len() {
            owners.remove(i)
        } else {
            owners
        },
    decreases owners.len(),
{
    if owners.len() > 0 {
        if i == 0 {
            assert(owners.remove(0) =~= owners.drop_first());
        } else {
            let t = owners.drop_first();
            assert(!p(owners[0]));
            assert forall|j: int| 0 <= j < i - 1 implies !p(#[trigger] t[j]) by {
                assert(t[j] == owners[j + 1]);
            }
            lemma_without_first(t, p, i - 1);
            if i < owners.len() {
                assert(seq![owners[0]] + t.remove(i - 1) =~= owners.remove(i));
            } else {
                assert(seq![owners[0]] + t =~= owners);
            }
        }
    }
}

/// What stands in the way of one another does so both ways.
pub proof fn law_conflicts_symmetric(a: PortOwner, b: PortOwner)
    ensures
        conflicts(a, intent_of(b)) == conflicts(b, intent_of(a)),
{
}

/// A subset of the owners of a valid registry is valid.
proof fn lemma_filter_wf(m: RegistryModel, p: spec_fn(PortOwner) -> bool)
    requires
        m.wf(),
    ensures
        (RegistryModel { owners: m.owners.filter(p), ..m }).wf(),
        forall|k: int| 0 <= k < m.owners.filter(p).len() ==> p(#[trigger] m.owners.filter(p)[k]),
    decreases m.owners.len(),
{
    reveal(Seq::filter);
    if m.owners.len() > 0 {
        let t = m.owners.drop_last();
        let n = RegistryModel { owners: t, ..m };
        lemma_filter_wf(n, p);
        let f = t.filter(p);
        assert forall|k: int| 0 <= k < f.len() implies exists|q: int|
            0 <= q < t.len() && t[q] == #[trigger] f[k] by {
            seqs::lemma_filter_elements(t, p);
        }
        assert forall|k: int| 0 <= k < f.len() implies !conflicts(
            #[trigger] f[k],
            intent_of(m.owners.last()),
        ) && f[k].token != m.owners.last().token by {
            let q = choose|q: int| 0 <= q < t.len() && t[q] == f[k];
            assert(m.owners[q] == t[q]);
            assert(m.owners.last() == m.owners[m.owners.len() - 1]);
        }
    }
}

impl PortRegistry {
    pub fn new() -> (r: PortRegistry)
        ensures
            r@.wf(),
            r@ == (RegistryModel {
                next_ephemeral: EPHEMERAL_PORT_MIN,
                next_token: 1,
                owners: Seq::empty(),
            }),
    {
        PortRegistry { next_ephemeral: EPHEMERAL_PORT_MIN, next_token: 1, owners: Vec::new() }
    }

    /// Reserves a port for a socket. `live` lists the sockets that exist.
    pub fn reserve(&mut self, intent: BindIntent, socket: u64, live: &Vec<u64>) -> (r: Result<
        PortReservation,
        SyscallErr,
    >)
        requires
            old(self)@.wf(),
        ensures
            final(self)@.wf(),
            (final(self)@, r) == reserved(old(self)@, intent, socket, live@),
    {
        self.prune_dead_owners(live);
        let mut wanted = intent;
        if intent.port == 0 {
            match self.select_ephemeral(&intent) {
                Ok(p) => {
                    wanted.port = p;
                },
                Err(e) => return Err(e),
            }
        }
        assert(wanted == with_port(intent, wanted.port));
        match self.check_conflict(&wanted) {
            Ok(_) => {},
            Err(e) => return Err(e),
        }
        let token: u64 = match self.allocate_token() {
            Ok(t) => t,
            Err(e) => return Err(e),
        };
        let ghost kept = self.owners@;
        let owner = PortOwner {
            key: wanted.key(),
            token,
            socket,
            state: PortOwnerState::Reserved,
            reuse_addr: wanted.reuse_addr,
            reuse_port: wanted.reuse_port,
            ipv6_v6only: wanted.ipv6_v6only,
        };
        self.owners.push(owner);
        proof {
            assert(intent_of(owner) == wanted);
            let after = self.owners@;
            assert forall|i: int, j: int| 0 <= i < j < after.len() implies !conflicts(
                #[trigger] after[i],
                intent_of(#[trigger] after[j]),
            ) by {
                assert(after[i] == kept[i]);
            }
        }
        Ok(PortReservation { key: owner.key, token, owner: socket })
    }

    /// Makes a reservation permanent, once its socket is bound.
    pub fn commit(&mut self, reservation: &PortReservation, socket: u64) -> (r: Result<
        (),
        SyscallErr,
    >)
        requires
            old(self)@.wf(),
        ensures
            final(self)@.wf(),
            if owner_of(old(self)@.owners, *reservation) is Some && reservation.owner == socket {
                r is Ok && final(self)@ == committed(old(self)@, *reservation)
            } else {
                r == Err::<(), SyscallErr>(SyscallErr::EADDRNOTAVAIL) && final(self)@ == old(self)@
            },
    {
        let ghost before = self.owners@;
        let ghost p = is_owner(*reservation);
        let mut i: usize = 0;
        while i < self.owners.len()
            invariant
                i <= self.owners@.len(),
                self.owners@ == before,
                self@ == old(self)@,
                self@.wf(),
                p == is_owner(*reservation),
                reservation.owner == socket ==> forall|j: int| 0 <= j < i ==> !p(#[trigger] before[j]),
            decreases self.owners@.len() - i,
        {
            let o = self.owners[i];
            if o.key == reservation.key && o.token == reservation.token && o.socket
                == reservation.owner && o.socket == socket {
                proof {
                    seqs::lemma_find_first(before, p, i as int);
                }
                let bound = PortOwner { state: PortOwnerState::Bound, ..o };
                self.owners.set(i, bound);
                proof {
                    assert(self@.owners =~= committed(old(self)@, *reservation).owners);
                    let after = self.owners@;
                    assert forall|a: int, b: int| 0 <= a < b < after.len() implies !conflicts(
                        #[trigger] after[a],
                        intent_of(#[trigger] after[b]),
                    ) by {
                        assert(!conflicts(before[a], intent_of(before[b])));
                    }
                    assert forall|a: int, b: int| 0 <= a < b < after.len() implies (
                    #[trigger] after[a]).token != (#[trigger] after[b]).token by {
                        assert(before[a].token != before[b].token);
                    }
                    assert forall|a: int| 0 <= a < after.len() implies (#[trigger] after[a]).token
                        < self.next_token by {
                        assert(before[a].token < self.next_token);
                    }
                }
                return Ok(());
            }
            i = i + 1;
        }
        proof {
            if reservation.owner == socket {
                seqs::lemma_find_none(before, p);
            }
        }
        Err(SyscallErr::EADDRNOTAVAIL)
    }

    /// Gives a reservation up before the socket was bound.
    pub fn abort(&mut self, reservation: &PortReservation)
        requires
            old(self)@.wf(),
        ensures
            final(self)@.wf(),
            final(self)@ == released(old(self)@, *reservation),
    {
        self.remove_matching(reservation);
    }

    /// Gives a port up.
    pub fn release(&mut self, reservation: &PortReservation)
        requires
            old(self)@.wf(),
        ensures
            final(self)@.wf(),
            final(self)@ == released(old(self)@, *reservation),
    {
        self.remove_matching(reservation);
    }

    /// Takes out the owner of a port that came first.
    pub fn release_one(&mut self, protocol: TransportProtocol, port: u16)
        requires
            old(self)@.wf(),
        ensures
            final(self)@.wf(),
            final(self)@ == released_one(old(self)@, protocol, port),
    {
        let ghost before = self.owners@;
        let ghost p = of_port(protocol, port);
        let mut i: usize = 0;
        while i < self.owners.len() && !(self.owners[i].key.protocol == protocol
            && self.owners[i].key.port == port)
            invariant
                i <= self.owners@.len(),
                self.owners@ == before,
                self@ == old(self)@,
                self@.wf(),
                p == of_port(protocol, port),
                forall|j: int| 0 <= j < i ==> !p(#[trigger] before[j]),
            decreases self.owners@.len() - i,
        {
            i = i + 1;
        }
        proof {
            lemma_without_first(before, p, i as int);
        }
        if i < self.owners.len() {
            let _ = self.owners.remove(i);
            proof {
                let after = self.owners@;
                assert forall|a: int, b: int| 0 <= a < b < after.len() implies !conflicts(
                    #[trigger] after[a],
                    intent_of(#[trigger] after[b]),
                ) && after[a].token != after[b].token by {
                    let a2 = if a < i {
                        a
                    } else {
                        a + 1
                    };
                    let b2 = if b < i {
                        b
                    } else {
                        b + 1
                    };
                    assert(after[a] == before[a2]);
                    assert(after[b] == before[b2]);
                }
                assert forall|a: int| 0 <= a < after.len() implies (#[trigger] after[a]).token
                    < self.next_token by {
                    let a2 = if a < i {
                        a
                    } else {
                        a + 1
                    };
                    assert(after[a] == before[a2]);
                }
            }
        }
    }

    /// Whether an intent could be met.
    pub fn check_conflict(&self, intent: &BindIntent) -> (r: Result<(), SyscallErr>)
        ensures
            r == if is_free(self@.owners, *intent) {
                Ok::<(), SyscallErr>(())
            } else {
                Err(SyscallErr::EADDRINUSE)
            },
    {
        let mut i: usize = 0;
        while i < self.owners.len()
            invariant
                i <= self.owners@.len(),
                forall|j: int| 0 <= j < i ==> !conflicts(#[trigger] self.owners@[j], *intent),
            decreases self.owners@.len() - i,
        {
            let o = self.owners[i];
            if o.key.protocol == intent.protocol && o.key.port == intent.port && keys_overlap(
                &o.key,
                intent,
                &o,
            ) && !reuse_compatible(intent, &o) {
                assert(conflicts(self.owners@[i as int], *intent));
                return Err(SyscallErr::EADDRINUSE);
            }
            i = i + 1;
        }
        Ok(())
    }

    fn select_ephemeral(&mut self, intent: &BindIntent) -> (r: Result<u16, SyscallErr>)
        requires
            old(self)@.wf(),
        ensures
            final(self)@.wf(),
            final(self)@.owners == old(self)@.owners,
            final(self)@.next_token == old(self)@.next_token,
            match free_port(
                old(self)@.owners,
                *intent,
                search_start(old(self)@.next_ephemeral),
                EPHEMERAL_PORTS as nat,
            ) {
                Some(p) => r == Ok::<u16, SyscallErr>(p) && final(self)@.next_ephemeral
                    == port_after(p),
                None => r == Err::<u16, SyscallErr>(SyscallErr::ENOSPC)
                    && final(self)@.next_ephemeral == old(self)@.next_ephemeral,
            },
    {
        let start: u16 = if self.next_ephemeral < EPHEMERAL_PORT_MIN {
            EPHEMERAL_PORT_MIN
        } else if self.next_ephemeral > EPHEMERAL_PORT_MAX {
            EPHEMERAL_PORT_MAX
        } else {
            self.next_ephemeral
        };
        let ghost all = free_port(self@.owners, *intent, start, EPHEMERAL_PORTS as nat);
        let mut port: u16 = start;
        let mut left: u16 = EPHEMERAL_PORTS;
        while left > 0
            invariant
                left <= EPHEMERAL_PORTS,
                EPHEMERAL_PORT_MIN <= port <= EPHEMERAL_PORT_MAX,
                self@ == old(self)@,
                self@.wf(),
                start == search_start(old(self)@.next_ephemeral),
                all == free_port(self@.owners, *intent, start, EPHEMERAL_PORTS as nat),
                free_port(self@.owners, *intent, port, left as nat) == all,
            decreases left,
        {
            let mut candidate = *intent;
            candidate.port = port;
            assert(candidate == with_port(*intent, port));
            let next: u16 = if port == EPHEMERAL_PORT_MAX {
                EPHEMERAL_PORT_MIN
            } else {
                port + 1
            };
            if self.check_conflict(&candidate).is_ok() {
                self.next_ephemeral = next;
                return Ok(port);
            }
            port = next;
            left = left - 1;
        }
        Err(SyscallErr::ENOSPC)
    }

    fn allocate_token(&mut self) -> (r: Result<u64, SyscallErr>)
        requires
            old(self)@.wf(),
        ensures
            final(self)@.wf(),
            final(self)@.owners == old(self)@.owners,
            final(self)@.next_ephemeral == old(self)@.next_ephemeral,
            if old(self)@.next_token == u64::MAX {
                r == Err::<u64, SyscallErr>(SyscallErr::ENOSPC) && final(self)@ == old(self)@
            } else {
                r == Ok::<u64, SyscallErr>(old(self)@.next_token) && final(self)@.next_token
                    == old(self)@.next_token + 1
            },
    {
        let token: u64 = self.next_token;
        if token == u64::MAX {
            return Err(SyscallErr::ENOSPC);
        }
        self.next_token = token + 1;
        Ok(token)
    }

    fn prune_dead_owners(&mut self, live: &Vec<u64>)
        requires
            old(self)@.wf(),
        ensures
            final(self)@.wf(),
            final(self)@ == (RegistryModel {
                owners: old(self)@.owners.filter(is_live(live@)),
                ..old(self)@
            }),
    {
        let ghost before = self.owners@;
        let ghost p = is_live(live@);
        let mut kept: Vec<PortOwner> = Vec::new();
        let mut i: usize = 0;
        proof {
            reveal(Seq::filter);
        }
        while i < self.owners.len()
            invariant
                i <= self.owners@.len(),
                self.owners@ == before,
                self@ == old(self)@,
                p == is_live(live@),
                kept@ == before.take(i as int).filter(p),
            decreases self.owners@.len() - i,
        {
            proof {
                seqs::lemma_filter_step(before, p, i as int);
            }
            let o = self.owners[i];
            if seqs::has_u64(live, o.socket) {
                kept.push(o);
            }
            i = i + 1;
        }
        proof {
            assert(before.take(i as int) =~= before);
            lemma_filter_wf(self@, p);
        }
        self.owners = kept;
    }

    fn remove_matching(&mut self, reservation: &PortReservation)
        requires
            old(self)@.wf(),
        ensures
            final(self)@.wf(),
            final(self)@ == released(old(self)@, *reservation),
    {
        let ghost before = self.owners@;
        let ghost p = other_than(*reservation);
        let mut kept: Vec<PortOwner> = Vec::new();
        let mut i: usize = 0;
        proof {
            reveal(Seq::filter);
        }
        while i < self.owners.len()
            invariant
                i <= self.owners@.len(),
                self.owners@ == before,
                self@ == old(self)@,
                p == other_than(*reservation),
                kept@ == before.take(i as int).filter(p),
            decreases self.owners@.len() - i,
        {
            proof {
                seqs::lemma_filter_step(before, p, i as int);
            }
            let o = self.owners[i];
            if o.key != reservation.key || o.token != reservation.token || o.socket
                != reservation.owner {
                kept.push(o);
            }
            i = i + 1;
        }
        proof {
            assert(before.take(i as int) =~= before);
            lemma_filter_wf(self@, p);
        }
        self.owners = kept;
    }
}

fn keys_overlap(key: &PortKey, intent: &BindIntent, owner: &PortOwner) -> (r: bool)
    ensures
        r == keys_meet(*key, owner.ipv6_v6only, key_of(*intent), intent.ipv6_v6only),
{
    if !ifindex_overlap(key.ifindex, intent.ifindex) {
        return false;
    }
    if key.family == intent.family {
        return address_overlap(key.address, intent.address);
    }
    if key.family == AddressFamily::Ipv6 {
        key.address.is_none() && !owner.ipv6_v6only
    } else {
        intent.address.is_none() && !intent.ipv6_v6only
    }
}

fn address_overlap(left: Option<IpAddress>, right: Option<IpAddress>) -> (r: bool)
    ensures
        r == overlap(left, right),
{
    match (left, right) {
        (Some(a), Some(b)) => a == b,
        _ => true,
    }
}

fn ifindex_overlap(left: Option<u32>, right: Option<u32>) -> (r: bool)
    ensures
        r == overlap(left, right),
{
    match (left, right) {
        (Some(a), Some(b)) => a == b,
        _ => true,
    }
}

fn reuse_compatible(intent: &BindIntent, owner: &PortOwner) -> (r: bool)
    ensures
        r == ((intent.reuse_addr && owner.reuse_addr) || (intent.reuse_port && owner.reuse_port)),
{
    (intent.reuse_addr && owner.reuse_addr) || (intent.reuse_port && owner.reuse_port)
}

/// A port that is found lies in the range and is free, and one is found
/// whenever the range has one.
pub proof fn law_free_port(owners: Seq<PortOwner>, i: BindIntent, port: u16, n: nat)
    requires
        EPHEMERAL_PORT_MIN <= port <= EPHEMERAL_PORT_MAX,
    ensures
        free_port(owners, i, port, n) matches Some(p) ==> {
            &&& EPHEMERAL_PORT_MIN <= p <= EPHEMERAL_PORT_MAX
            &&& is_free(owners, with_port(i, p))
        },
    decreases n,
{
    if n > 0 && !is_free(owners, with_port(i, port)) {
        law_free_port(owners, i, port_after(port), (n - 1) as nat);
    }
}

/// Where a free port lies less than `n` places behind the start, one is found.
proof fn lemma_port_is_found(owners: Seq<PortOwner>, i: BindIntent, port: u16, n: nat, p: u16)
    requires
        EPHEMERAL_PORT_MIN <= port <= EPHEMERAL_PORT_MAX,
        EPHEMERAL_PORT_MIN <= p <= EPHEMERAL_PORT_MAX,
        is_free(owners, with_port(i, p)),
        (if p >= port {
            p - port
        } else {
            p - port + EPHEMERAL_PORTS
        }) < n,
    ensures
        free_port(owners, i, port, n) is Some,
    decreases n,
{
    if p != port && !is_free(owners, with_port(i, port)) {
        lemma_port_is_found(owners, i, port_after(port), (n - 1) as nat, p);
    }
}

/// A search over the whole range fails only where no port of it is free.
pub proof fn law_search_is_complete(owners: Seq<PortOwner>, i: BindIntent, next: u16, p: u16)
    requires
        EPHEMERAL_PORT_MIN <= p <= EPHEMERAL_PORT_MAX,
        is_free(owners, with_port(i, p)),
    ensures
        free_port(owners, i, search_start(next), EPHEMERAL_PORTS as nat) is Some,
{
    lemma_port_is_found(owners, i, search_start(next), EPHEMERAL_PORTS as nat, p);
}

/// Giving up a fresh reservation takes out the new owner and no other; giving
/// it up again changes nothing.
pub proof fn law_release_undoes_reserve(
    m: RegistryModel,
    intent: BindIntent,
    socket: u64,
    live: Seq<u64>,
)
    requires
        m.wf(),
        reserved(m, intent, socket, live).1 is Ok,
    ensures
        ({
            let (after, result) = reserved(m, intent, socket, live);
            let r = result->Ok_0;
            &&& released(after, r).owners == m.owners.filter(is_live(live))
            &&& released(released(after, r), r) == released(after, r)
            &&& owner_of(after.owners, r) is Some
        }),
{
    let kept = m.owners.filter(is_live(live));
    let (after, result) = reserved(m, intent, socket, live);
    let r = result->Ok_0;
    let p = other_than(r);
    lemma_filter_wf(m, is_live(live));
    let s = after.owners;
    let n = kept.len() as int;
    assert(s.drop_last() =~= kept);
    seqs::lemma_filter_step(s, p, n);
    assert(s.take(n + 1) =~= s);
    assert(s.take(n) =~= kept);
    assert(s[n].token == r.token);
    assert forall|k: int| 0 <= k < kept.len() implies p(kept[k]) by {
        assert(kept[k].token < m.next_token);
    }
    seqs::lemma_filter_all(kept, p);
    seqs::lemma_filter_idempotent(s, p);
    assert forall|j: int| 0 <= j < n implies !is_owner(r)(#[trigger] s[j]) by {
        assert(s[j] == kept[j]);
        assert(kept[j].token < m.next_token);
    }
    assert(is_owner(r)(s[n]));
    seqs::lemma_find_first(s, is_owner(r), n);
}

} // verus!
