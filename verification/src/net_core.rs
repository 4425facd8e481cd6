//! The device registry of a network namespace.
//!
//! A namespace keeps its interfaces ordered by index, each index once, next to
//! its router. What DHCP has assigned is kept once for the kernel.
use vstd::prelude::*;
use crate::iface::{DeviceKind, DeviceModel, NetDeviceEntry};
use crate::routing::Router;
use crate::seqs;
use crate::wire::{IpAddress, IpCidr, Ipv4Address, Ipv6Address};

verus! {

pub const IFF_UP: u32 = 0x1;

pub const IFF_BROADCAST: u32 = 0x2;

pub const IFF_LOOPBACK: u32 = 0x8;

pub const IFF_RUNNING: u32 = 0x40;

pub const IFF_NOARP: u32 = 0x80;

pub const IFF_MULTICAST: u32 = 0x1000;

pub const IF_OPER_UP: u8 = 6;

/// The interfaces and the router of one namespace.
pub struct NetNamespace {
    pub devices: Vec<NetDeviceEntry>,
    pub router: Router,
}

/// What is kept once for all namespaces: the lease of `eth0` and the counter
/// that interface indices come from.
pub struct NetGlobals {
    pub eth0_cidr: Option<IpCidr>,
    pub default_gw: Option<Ipv4Address>,
    pub next_ifindex: u32,
}

/// What each entry of a list holds.
pub open spec fn models(s: Seq<NetDeviceEntry>) -> Seq<DeviceModel> {
    Seq::new(s.len(), |i: int| s[i]@)
}

/// Interfaces stand in ascending order of their indices.
pub open spec fn ordered(devs: Seq<DeviceModel>) -> bool {
    forall|i: int, j: int| 0 <= i < j < devs.len() ==> devs[i].nic_id < devs[j].nic_id
}

pub open spec fn named(name: Seq<char>) -> spec_fn(DeviceModel) -> bool {
    |d: DeviceModel| d.name == name
}

pub open spec fn indexed(id: u32) -> spec_fn(DeviceModel) -> bool {
    |d: DeviceModel| d.nic_id == id
}

pub open spec fn owning(addr: IpAddress) -> spec_fn(DeviceModel) -> bool {
    |d: DeviceModel| d.owns(addr)
}

pub open spec fn below(id: u32) -> spec_fn(DeviceModel) -> bool {
    |d: DeviceModel| d.nic_id < id
}

pub open spec fn above(id: u32) -> spec_fn(DeviceModel) -> bool {
    |d: DeviceModel| d.nic_id > id
}

pub open spec fn not_indexed(id: u32) -> spec_fn(DeviceModel) -> bool {
    |d: DeviceModel| d.nic_id != id
}

/// The list with `d` in its place, instead of what had its index.
pub open spec fn put_device(devs: Seq<DeviceModel>, d: DeviceModel) -> Seq<DeviceModel> {
    devs.filter(below(d.nic_id)).push(d) + devs.filter(above(d.nic_id))
}

/// The list with `d` instead of what had its index.
pub open spec fn replace_device(devs: Seq<DeviceModel>, d: DeviceModel) -> Seq<DeviceModel> {
    Seq::new(
        devs.len(),
        |i: int|
            if devs[i].nic_id == d.nic_id {
                d
            } else {
                devs[i]
            },
    )
}

/// The index of `lo`, or 1 where there is none.
pub open spec fn lo_index(devs: Seq<DeviceModel>) -> u32 {
    match seqs::find_first(devs, named("lo"@)) {
        Some(d) => d.nic_id,
        None => 1,
    }
}

/// The index of the interface that local traffic of `addr` belongs to.
pub open spec fn spec_ifindex_for_local_addr(devs: Seq<DeviceModel>, addr: Option<IpAddress>) -> u32 {
    match addr {
        None => lo_index(devs),
        Some(ip) => if ip is Ipv4 && ip.spec_is_loopback() {
            lo_index(devs)
        } else {
            match seqs::find_first(devs, owning(ip)) {
                Some(d) => d.nic_id,
                None => lo_index(devs),
            }
        },
    }
}

/// In an ordered list the entries below an index come first, those above last.
pub proof fn lemma_split_at(devs: Seq<DeviceModel>, id: u32, p: int)
    requires
        ordered(devs),
        0 <= p <= devs.len(),
        forall|i: int| 0 <= i < p ==> (#[trigger] devs[i]).nic_id < id,
        p < devs.len() ==> devs[p].nic_id >= id,
    ensures
        devs.filter(below(id)) == devs.take(p),
        p < devs.len() && devs[p].nic_id == id ==> devs.filter(above(id)) == devs.skip(p + 1),
        !(p < devs.len() && devs[p].nic_id == id) ==> devs.filter(above(id)) == devs.skip(p),
{
    let q = if p < devs.len() && devs[p].nic_id == id {
        p + 1
    } else {
        p
    };
    lemma_filter_middle(devs, below(id), 0, p);
    lemma_filter_middle(devs, above(id), q, devs.len() as int);
    assert(devs.subrange(0, p) =~= devs.take(p));
    assert(devs.subrange(q, devs.len() as int) =~= devs.skip(q));
}

/// Filtering keeps a stretch when exactly the stretch satisfies the predicate.
pub proof fn lemma_filter_middle<T>(s: Seq<T>, pred: spec_fn(T) -> bool, a: int, b: int)
    requires
        0 <= a <= b <= s.len(),
        forall|i: int| 0 <= i < s.len() ==> (pred(#[trigger] s[i]) <==> a <= i < b),
    ensures
        s.filter(pred) == s.subrange(a, b),
    decreases s.len(),
{
    reveal(Seq::filter);
    if s.len() > 0 {
        let t = s.drop_last();
        let n = s.len() as int;
        if b == n && a < n {
            assert forall|i: int| 0 <= i < t.len() implies (pred(#[trigger] t[i]) <==> a <= i < b - 1) by {
                assert(t[i] == s[i]);
            }
            lemma_filter_middle(t, pred, a, b - 1);
            assert(pred(s[n - 1]));
            assert(t.subrange(a, b - 1).push(s[n - 1]) =~= s.subrange(a, b));
        } else {
            let b2 = if b == n {
                n - 1
            } else {
                b
            };
            let a2 = if a == n {
                n - 1
            } else {
                a
            };
            assert forall|i: int| 0 <= i < t.len() implies (pred(#[trigger] t[i]) <==> a2 <= i < b2) by {
                assert(t[i] == s[i]);
            }
            lemma_filter_middle(t, pred, a2, b2);
            assert(!pred(s[n - 1]));
            assert(t.subrange(a2, b2) =~= s.subrange(a, b));
        }
    } else {
        assert(s.subrange(a, b) =~= s);
    }
}

impl NetGlobals {
    /// No lease; indices 1 and 2 are those of `lo` and `eth0`.
    pub fn new() -> (r: NetGlobals)
        ensures
            r.eth0_cidr is None,
            r.default_gw is None,
            r.next_ifindex == 3,
            r.wf(),
    {
        NetGlobals { eth0_cidr: None, default_gw: None, next_ifindex: 3 }
    }

    pub open spec fn wf(self) -> bool {
        self.eth0_cidr matches Some(c) ==> c.wf()
    }

    /// Hands out the next interface index.
    pub fn next_ifindex(&mut self) -> (r: u32)
        ensures
            r == old(self).next_ifindex,
            *final(self) == (NetGlobals {
                next_ifindex: if old(self).next_ifindex < u32::MAX {
                    (old(self).next_ifindex + 1) as u32
                } else {
                    0
                },
                ..*old(self)
            }),
    {
        let id: u32 = self.next_ifindex;
        self.next_ifindex = if id < u32::MAX {
            id + 1
        } else {
            0
        };
        id
    }

    /// The gateway that DHCP has assigned.
    pub fn default_gateway(&self) -> (r: Option<Ipv4Address>)
        ensures
            r == self.default_gw,
    {
        self.default_gw
    }

    pub fn set_default_gateway(&mut self, gw: Option<Ipv4Address>)
        ensures
            *final(self) == (NetGlobals { default_gw: gw, ..*old(self) }),
    {
        self.default_gw = gw;
    }

    /// The block that DHCP has assigned to `eth0`.
    pub fn eth0_ipv4_cidr(&self) -> (r: Option<IpCidr>)
        ensures
            r == self.eth0_cidr,
    {
        self.eth0_cidr
    }
}

impl NetNamespace {
    /// What the interfaces hold, in order of their indices.
    pub open spec fn devs(self) -> Seq<DeviceModel> {
        models(self.devices@)
    }

    pub open spec fn wf(self) -> bool {
        &&& ordered(self.devs())
        &&& forall|i: int| 0 <= i < self.devs().len() ==> (#[trigger] self.devs()[i]).wf()
        &&& self.router.wf()
    }

    pub fn new() -> (r: NetNamespace)
        ensures
            r.wf(),
            r.devs() == Seq::<DeviceModel>::empty(),
            r.router.table.entries@.len() == 0,
    {
        NetNamespace { devices: Vec::new(), router: Router::new() }
    }

    /// Where the first interface of that name stands.
    pub fn position_by_name(&self, name: &str) -> (r: Option<usize>)
        ensures
            match r {
                Some(i) => i < self.devices@.len() && seqs::find_first(self.devs(), named(name@))
                    == Some(self.devs()[i as int]),
                None => seqs::find_first(self.devs(), named(name@)) is None,
            },
    {
        let wanted: String = name.to_owned();
        let mut i: usize = 0;
        while i < self.devices.len()
            invariant
                i <= self.devices@.len(),
                wanted@ == name@,
                forall|j: int| 0 <= j < i ==> !named(name@)(#[trigger] self.devs()[j]),
            decreases self.devices@.len() - i,
        {
            if self.devices[i].name == wanted {
                proof {
                    assert(self.devs()[i as int] == self.devices@[i as int]@);
                    seqs::lemma_find_first(self.devs(), named(name@), i as int);
                }
                return Some(i);
            }
            assert(self.devs()[i as int] == self.devices@[i as int]@);
            i = i + 1;
        }
        proof {
            seqs::lemma_find_none(self.devs(), named(name@));
        }
        None
    }

    /// Where the interface of that index stands.
    pub fn position_by_index(&self, id: u32) -> (r: Option<usize>)
        ensures
            match r {
                Some(i) => i < self.devices@.len() && self.devs()[i as int].nic_id == id
                    && seqs::find_first(self.devs(), indexed(id)) == Some(self.devs()[i as int]),
                None => seqs::find_first(self.devs(), indexed(id)) is None,
            },
    {
        let mut i: usize = 0;
        while i < self.devices.len()
            invariant
                i <= self.devices@.len(),
                forall|j: int| 0 <= j < i ==> !indexed(id)(#[trigger] self.devs()[j]),
            decreases self.devices@.len() - i,
        {
            if self.devices[i].nic_id == id {
                proof {
                    assert(self.devs()[i as int] == self.devices@[i as int]@);
                    seqs::lemma_find_first(self.devs(), indexed(id), i as int);
                }
                return Some(i);
            }
            assert(self.devs()[i as int] == self.devices@[i as int]@);
            i = i + 1;
        }
        proof {
            seqs::lemma_find_none(self.devs(), indexed(id));
        }
        None
    }

    /// Where the first interface that owns the address stands.
    pub fn position_of_owner(&self, addr: IpAddress) -> (r: Option<usize>)
        ensures
            match r {
                Some(i) => i < self.devices@.len() && seqs::find_first(self.devs(), owning(addr))
                    == Some(self.devs()[i as int]),
                None => seqs::find_first(self.devs(), owning(addr)) is None,
            },
    {
        let mut i: usize = 0;
        while i < self.devices.len()
            invariant
                i <= self.devices@.len(),
                forall|j: int| 0 <= j < i ==> !owning(addr)(#[trigger] self.devs()[j]),
            decreases self.devices@.len() - i,
        {
            assert(self.devs()[i as int] == self.devices@[i as int]@);
            if self.devices[i].owns(addr) {
                proof {
                    seqs::lemma_find_first(self.devs(), owning(addr), i as int);
                }
                return Some(i);
            }
            i = i + 1;
        }
        proof {
            seqs::lemma_find_none(self.devs(), owning(addr));
        }
        None
    }

    /// The first interface of that name.
    pub fn device_by_name(&self, name: &str) -> (r: Option<&NetDeviceEntry>)
        ensures
            match r {
                Some(d) => seqs::find_first(self.devs(), named(name@)) == Some(d@),
                None => seqs::find_first(self.devs(), named(name@)) is None,
            },
    {
        match self.position_by_name(name) {
            Some(i) => Some(&self.devices[i]),
            None => None,
        }
    }

    /// The interface of that index.
    pub fn device_by_index(&self, id: u32) -> (r: Option<&NetDeviceEntry>)
        ensures
            match r {
                Some(d) => seqs::find_first(self.devs(), indexed(id)) == Some(d@),
                None => seqs::find_first(self.devs(), indexed(id)) is None,
            },
    {
        match self.position_by_index(id) {
            Some(i) => Some(&self.devices[i]),
            None => None,
        }
    }

    /// Registers an interface under its index; what had the index before goes.
    pub fn add_device(&mut self, d: NetDeviceEntry)
        requires
            old(self).wf(),
            d@.wf(),
        ensures
            final(self).wf(),
            final(self).devs() == put_device(old(self).devs(), d@),
            final(self).router == old(self).router,
    {
        let ghost before = self.devs();
        let ghost model = d@;
        let id: u32 = d.nic_id;
        let mut p: usize = 0;
        while p < self.devices.len() && self.devices[p].nic_id < id
            invariant
                p <= self.devices@.len(),
                before == self.devs(),
                *self == *old(self),
                forall|i: int| 0 <= i < p ==> (#[trigger] before[i]).nic_id < id,
            decreases self.devices@.len() - p,
        {
            assert(before[p as int] == self.devices@[p as int]@);
            p = p + 1;
        }
        proof {
            assert(p < before.len() ==> before[p as int] == self.devices@[p as int]@);
            lemma_split_at(before, id, p as int);
        }
        if p < self.devices.len() && self.devices[p].nic_id == id {
            let _ = self.devices.remove(p);
            self.devices.insert(p, d);
            assert(self.devs() =~= put_device(before, model));
        } else {
            self.devices.insert(p, d);
            assert(self.devs() =~= put_device(before, model));
        }
        proof {
            let after = self.devs();
            assert forall|i: int, j: int| 0 <= i < j < after.len() implies after[i].nic_id
                < after[j].nic_id by {
                assert(after[p as int] == model);
            }
            assert forall|i: int| 0 <= i < after.len() implies (#[trigger] after[i]).wf() by {
                if i < p {
                    assert(after[i] == before[i]);
                } else if i > p {
                    assert(exists|k: int| 0 <= k < before.len() && after[i] == before[k]) by {
                        let k = i - (after.len() - before.len());
                        assert(after[i] == before[k]);
                    }
                }
            }
        }
    }

    /// Puts a changed entry in the place of the one with its index.
    pub fn update_device(&mut self, d: NetDeviceEntry)
        requires
            old(self).wf(),
            d@.wf(),
        ensures
            final(self).wf(),
            final(self).devs() == replace_device(old(self).devs(), d@),
            final(self).router == old(self).router,
    {
        let ghost before = self.devs();
        let ghost model = d@;
        match self.position_by_index(d.nic_id) {
            Some(p) => {
                self.devices.set(p, d);
                assert(self.devs() =~= replace_device(before, model));
            },
            None => {
                proof {
                    seqs::lemma_found(before, indexed(model.nic_id));
                    assert forall|i: int| 0 <= i < before.len() implies before[i].nic_id
                        != model.nic_id by {
                        assert(!indexed(model.nic_id)(before[i]));
                    }
                    assert(self.devs() =~= replace_device(before, model));
                }
            },
        }
        proof {
            let after = self.devs();
            assert forall|i: int| 0 <= i < after.len() implies (#[trigger] after[i]).wf() by {
                assert(before[i].wf());
            }
        }
    }

    /// Unregisters the interface of that index.
    pub fn remove_device(&mut self, id: u32)
        requires
            old(self).wf(),
        ensures
            final(self).wf(),
            final(self).devs() == old(self).devs().filter(not_indexed(id)),
            final(self).router == old(self).router,
    {
        let ghost before = self.devs();
        match self.position_by_index(id) {
            Some(p) => {
                let _ = self.devices.remove(p);
                proof {
                    lemma_filter_all_but(before, id, p as int);
                    assert(self.devs() =~= before.remove(p as int));
                }
            },
            None => {
                proof {
                    seqs::lemma_found(before, indexed(id));
                    assert forall|k: int| 0 <= k < before.len() implies not_indexed(id)(before[k]) by {
                        assert(!indexed(id)(before[k]));
                    }
                    seqs::lemma_filter_all(before, not_indexed(id));
                }
            },
        }
    }
}

/// Leaving out the one interface of an index.
pub proof fn lemma_filter_all_but(devs: Seq<DeviceModel>, id: u32, p: int)
    requires
        ordered(devs),
        0 <= p < devs.len(),
        devs[p].nic_id == id,
    ensures
        devs.filter(not_indexed(id)) == devs.remove(p),
{
    let a = devs.take(p);
    let b = devs.skip(p);
    assert(a + b =~= devs);
    Seq::filter_distributes_over_add(a, b, not_indexed(id));
    seqs::lemma_filter_all(a, not_indexed(id));
    assert forall|i: int| 0 <= i < b.len() implies (not_indexed(id)(#[trigger] b[i]) <==> 1 <= i < b.len()) by {
        assert(b[i] == devs[p + i]);
    }
    lemma_filter_middle(b, not_indexed(id), 1, b.len() as int);
    assert(a + b.subrange(1, b.len() as int) =~= devs.remove(p));
}

/// The loopback interface as it is registered.
pub open spec fn lo_model() -> DeviceModel {
    DeviceModel {
        nic_id: 1,
        name: "lo"@,
        flags: (IFF_UP + IFF_LOOPBACK + IFF_RUNNING) as u32,
        mtu: 65536,
        ip_addrs: seq![
            IpCidr { address: IpAddress::Ipv4(Ipv4Address { bits: 0x7f00_0001 }), prefix_len: 8 },
            IpCidr { address: IpAddress::Ipv6(Ipv6Address { bits: 1 }), prefix_len: 128 },
        ],
        hwaddr: seq![0u8, 0, 0, 0, 0, 0],
        kind: DeviceKind::Loopback,
        peer_ifindex: None,
        operstate: 6,
    }
}

/// The Ethernet interface as it is registered: its address comes from DHCP.
pub open spec fn eth0_model(mac: Seq<u8>) -> DeviceModel {
    DeviceModel {
        nic_id: 2,
        name: "eth0"@,
        flags: (IFF_UP + IFF_BROADCAST + IFF_RUNNING + IFF_MULTICAST) as u32,
        mtu: 1500,
        ip_addrs: Seq::empty(),
        hwaddr: mac,
        kind: DeviceKind::Ethernet,
        peer_ifindex: None,
        operstate: 6,
    }
}

/// Registers loopback under index 1 and, where there is a card, `eth0` under
/// index 2. A namespace that has interfaces already is left alone.
pub fn init(ns: &mut NetNamespace, nic_mac: Option<[u8; 6]>)
    requires
        old(ns).wf(),
    ensures
        final(ns).wf(),
        final(ns).router == old(ns).router,
        old(ns).devs().len() > 0 ==> final(ns).devs() == old(ns).devs(),
        old(ns).devs().len() == 0 ==> final(ns).devs() == match nic_mac {
            Some(mac) => seq![lo_model(), eth0_model(mac@)],
            None => seq![lo_model()],
        },
{
    if ns.devices.len() > 0 {
        return;
    }
    let ghost start = ns.devs();
    let v4 = IpCidr::new(IpAddress::Ipv4(Ipv4Address { bits: 0x7f00_0001 }), 8);
    let v6 = IpCidr::new(IpAddress::Ipv6(Ipv6Address { bits: 1 }), 128);
    let mut lo_addrs: Vec<IpCidr> = Vec::new();
    lo_addrs.push(v4);
    lo_addrs.push(v6);
    let mut lo = NetDeviceEntry::new(
        "lo".to_owned(),
        DeviceKind::Loopback,
        [0u8, 0, 0, 0, 0, 0],
        65536,
        IFF_UP + IFF_LOOPBACK + IFF_RUNNING,
        lo_addrs,
        None,
        6,
    );
    lo.set_nic_id(1);
    assert(lo@ =~= lo_model());
    ns.add_device(lo);
    proof {
        reveal(Seq::filter);
        assert(start =~= Seq::<DeviceModel>::empty());
        assert(ns.devs() =~= seq![lo_model()]);
    }
    if let Some(mac) = nic_mac {
        let mut eth0 = NetDeviceEntry::new(
            "eth0".to_owned(),
            DeviceKind::Ethernet,
            mac,
            1500,
            IFF_UP + IFF_BROADCAST + IFF_RUNNING + IFF_MULTICAST,
            Vec::new(),
            None,
            6,
        );
        eth0.set_nic_id(2);
        assert(eth0@ =~= eth0_model(mac@));
        ns.add_device(eth0);
        proof {
            lemma_split_at(seq![lo_model()], 2, 1);
            assert(seq![lo_model()].take(1) =~= seq![lo_model()]);
            assert(ns.devs() =~= seq![lo_model(), eth0_model(mac@)]);
        }
    }
}

/// The interface of that name in the namespace.
pub fn find_by_name<'a>(ns: &'a NetNamespace, name: &str) -> (r: Option<&'a NetDeviceEntry>)
    ensures
        match r {
            Some(d) => seqs::find_first(ns.devs(), named(name@)) == Some(d@),
            None => seqs::find_first(ns.devs(), named(name@)) is None,
        },
{
    ns.device_by_name(name)
}

/// The interface of that index in the namespace.
pub fn find_by_index(ns: &NetNamespace, idx: u32) -> (r: Option<&NetDeviceEntry>)
    ensures
        match r {
            Some(d) => seqs::find_first(ns.devs(), indexed(idx)) == Some(d@),
            None => seqs::find_first(ns.devs(), indexed(idx)) is None,
        },
{
    ns.device_by_index(idx)
}

/// `eth0` where it is registered, else `lo`.
pub open spec fn spec_default_iface(devs: Seq<DeviceModel>) -> Option<DeviceModel> {
    match seqs::find_first(devs, named("eth0"@)) {
        Some(d) => Some(d),
        None => seqs::find_first(devs, named("lo"@)),
    }
}

/// The interface used by default: `eth0` where it is registered, else `lo`.
pub fn default_iface(ns: &NetNamespace) -> (r: Option<&NetDeviceEntry>)
    ensures
        match r {
            Some(d) => spec_default_iface(ns.devs()) == Some(d@),
            None => spec_default_iface(ns.devs()) is None,
        },
{
    match ns.device_by_name("eth0") {
        Some(d) => Some(d),
        None => ns.device_by_name("lo"),
    }
}

/// The loopback interface `lo`.
pub fn loopback_iface(ns: &NetNamespace) -> (r: Option<&NetDeviceEntry>)
    ensures
        match r {
            Some(d) => seqs::find_first(ns.devs(), named("lo"@)) == Some(d@),
            None => seqs::find_first(ns.devs(), named("lo"@)) is None,
        },
{
    ns.device_by_name("lo")
}

/// The list once `eth0` has `cidr` as its only address.
pub open spec fn with_eth0_addr(devs: Seq<DeviceModel>, cidr: IpCidr) -> Seq<DeviceModel> {
    Seq::new(
        devs.len(),
        |i: int|
            if devs[i].name == "eth0"@ && forall|j: int| 0 <= j < i ==> (#[trigger] devs[j]).name != "eth0"@ {
                DeviceModel { ip_addrs: seq![cidr], ..devs[i] }
            } else {
                devs[i]
            },
    )
}

/// Records the lease of `eth0`: it becomes the interface's only address.
pub fn set_eth0_ipv4(ns: &mut NetNamespace, globals: &mut NetGlobals, cidr: IpCidr)
    requires
        old(ns).wf(),
        cidr.wf(),
    ensures
        final(ns).wf(),
        final(ns).devs() == with_eth0_addr(old(ns).devs(), cidr),
        final(ns).router == old(ns).router,
        *final(globals) == (NetGlobals { eth0_cidr: Some(cidr), ..*old(globals) }),
{
    globals.eth0_cidr = Some(cidr);
    let ghost before = ns.devs();
    let wanted: String = "eth0".to_owned();
    let mut i: usize = 0;
    while i < ns.devices.len()
        invariant
            i <= ns.devices@.len(),
            wanted@ == "eth0"@,
            before == ns.devs(),
            *ns == *old(ns),
            old(ns).wf(),
            cidr.wf(),
            globals.eth0_cidr == Some(cidr),
            globals.default_gw == old(globals).default_gw,
            globals.next_ifindex == old(globals).next_ifindex,
            forall|j: int| 0 <= j < i ==> (#[trigger] before[j]).name != "eth0"@,
        decreases ns.devices@.len() - i,
    {
        assert(before[i as int] == ns.devices@[i as int]@);
        if ns.devices[i].name == wanted {
            let mut addrs: Vec<IpCidr> = Vec::new();
            addrs.push(cidr);
            let mut entry = ns.devices.remove(i);
            entry.ip_addrs = addrs;
            ns.devices.insert(i, entry);
            proof {
                assert(entry@.ip_addrs =~= seq![cidr]);
                assert(ns.devs() =~= with_eth0_addr(before, cidr));
                assert forall|a: int, b: int| 0 <= a < b < ns.devs().len() implies ns.devs()[a].nic_id
                    < ns.devs()[b].nic_id by {
                    assert(before[a].nic_id < before[b].nic_id);
                }
                assert forall|a: int| 0 <= a < ns.devs().len() implies (#[trigger] ns.devs()[a]).wf() by {
                    assert(before[a].wf());
                }
            }
            return;
        }
        i = i + 1;
    }
    assert(ns.devs() =~= with_eth0_addr(before, cidr));
}

/// Whether the address belongs to one of the interfaces.
pub fn is_local_addr(ns: &NetNamespace, addr: Ipv4Address) -> (r: bool)
    ensures
        r == exists|i: int| 0 <= i < ns.devs().len() && (#[trigger] ns.devs()[i]).owns(IpAddress::Ipv4(addr)),
{
    let ip = IpAddress::Ipv4(addr);
    let pos = ns.position_of_owner(ip);
    proof {
        seqs::lemma_found(ns.devs(), owning(ip));
        if let Some(i) = pos {
            assert(owning(ip)(ns.devs()[i as int]));
        } else {
            assert forall|i: int| 0 <= i < ns.devs().len() implies !(#[trigger] ns.devs()[i]).owns(ip) by {
                assert(!owning(ip)(ns.devs()[i]));
            }
        }
    }
    pos.is_some()
}

/// The index of the interface that local traffic of `addr` belongs to:
/// loopback for no address and for `127.0.0.0/8`, else the owner of the
/// address, else loopback.
pub fn ifindex_for_local_addr(ns: &NetNamespace, addr: Option<IpAddress>) -> (r: u32)
    ensures
        r == spec_ifindex_for_local_addr(ns.devs(), addr),
{
    let lo: u32 = match ns.position_by_name("lo") {
        Some(i) => {
            assert(ns.devs()[i as int] == ns.devices@[i as int]@);
            ns.devices[i].nic_id
        },
        None => 1,
    };
    match addr {
        None => lo,
        Some(ip) => {
            if let IpAddress::Ipv4(v4) = ip {
                if v4.is_loopback() {
                    return lo;
                }
            }
            match ns.position_of_owner(ip) {
                Some(i) => {
                    assert(ns.devs()[i as int] == ns.devices@[i as int]@);
                    ns.devices[i].nic_id
                },
                None => lo,
            }
        },
    }
}

/// The range of ephemeral ports that is reported to user space.
pub fn local_port_range() -> (r: (u16, u16))
    ensures
        r == (32768u16, 60999u16),
{
    (32768, 60999)
}

/// The address of the interface of that index that was given first.
pub fn iface_ip(ns: &NetNamespace, ifindex: u32) -> (r: Option<IpAddress>)
    ensures
        r == match seqs::find_first(ns.devs(), indexed(ifindex)) {
            Some(d) => d.first_addr(),
            None => None,
        },
{
    match ns.device_by_index(ifindex) {
        Some(d) => d.first_addr(),
        None => None,
    }
}

} // verus!
