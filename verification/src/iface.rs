//! Network devices: what is known of each interface.
use vstd::prelude::*;
use crate::seqs;
use crate::wire::{IpAddress, IpCidr};

verus! {

/// Network device kind / link-layer type.
#[derive(Clone, Copy, Debug, PartialEq, Eq, Structural)]
pub enum DeviceKind {
    Loopback,
    Ethernet,
    Veth,
}

/// A registered interface: its name, flags, addresses and hardware address.
pub struct NetDeviceEntry {
    pub nic_id: u32,
    pub name: String,
    pub flags: u32,
    pub mtu: usize,
    pub ip_addrs: Vec<IpCidr>,
    pub hwaddr: [u8; 6],
    pub kind: DeviceKind,
    /// For one end of a veth pair, the index of the other end.
    pub peer_ifindex: Option<u32>,
    pub operstate: u32,
}

/// What a [`NetDeviceEntry`] holds.
#[verifier::ext_equal]
pub struct DeviceModel {
    pub nic_id: u32,
    pub name: Seq<char>,
    pub flags: u32,
    pub mtu: usize,
    pub ip_addrs: Seq<IpCidr>,
    pub hwaddr: Seq<u8>,
    pub kind: DeviceKind,
    pub peer_ifindex: Option<u32>,
    pub operstate: u32,
}

impl View for NetDeviceEntry {
    type V = DeviceModel;

    open spec fn view(&self) -> DeviceModel {
        DeviceModel {
            nic_id: self.nic_id,
            name: self.name@,
            flags: self.flags,
            mtu: self.mtu,
            ip_addrs: self.ip_addrs@,
            hwaddr: self.hwaddr@,
            kind: self.kind,
            peer_ifindex: self.peer_ifindex,
            operstate: self.operstate,
        }
    }
}

impl DeviceModel {
    /// Every address block of the interface is a valid one.
    pub open spec fn wf(self) -> bool {
        forall|i: int| 0 <= i < self.ip_addrs.len() ==> (#[trigger] self.ip_addrs[i]).wf()
    }

    /// Whether `addr` is one of the interface's own addresses.
    pub open spec fn owns(self, addr: IpAddress) -> bool {
        exists|i: int| 0 <= i < self.ip_addrs.len() && (#[trigger] self.ip_addrs[i]).address == addr
    }

    /// The address given first.
    pub open spec fn first_addr(self) -> Option<IpAddress> {
        if self.ip_addrs.len() > 0 {
            Some(self.ip_addrs[0].address)
        } else {
            None
        }
    }

    /// The IPv6 address given first.
    pub open spec fn first_v6(self) -> Option<IpAddress> {
        match seqs::find_first(self.ip_addrs, is_v6()) {
            Some(c) => Some(c.address),
            None => None,
        }
    }

    /// The block of the IPv4 address given first.
    pub open spec fn first_v4(self) -> Option<IpCidr> {
        seqs::find_first(self.ip_addrs, is_v4())
    }
}

pub open spec fn is_v6() -> spec_fn(IpCidr) -> bool {
    |c: IpCidr| c.address is Ipv6
}

pub open spec fn is_v4() -> spec_fn(IpCidr) -> bool {
    |c: IpCidr| c.address is Ipv4
}

pub open spec fn other_than(addr: IpCidr) -> spec_fn(IpCidr) -> bool {
    |c: IpCidr| c != addr
}

/// A copy of a list of blocks.
pub fn copy_cidrs(v: &Vec<IpCidr>) -> (r: Vec<IpCidr>)
    ensures
        r@ == v@,
{
    let mut out: Vec<IpCidr> = Vec::new();
    let mut i: usize = 0;
    while i < v.len()
        invariant
            i <= v@.len(),
            out@ =~= v@.take(i as int),
        decreases v@.len() - i,
    {
        out.push(v[i]);
        i = i + 1;
    }
    assert(v@.take(i as int) =~= v@);
    out
}

impl NetDeviceEntry {
    /// An interface that has no index yet.
    pub fn new(
        name: String,
        kind: DeviceKind,
        hwaddr: [u8; 6],
        mtu: usize,
        flags: u32,
        ip_addrs: Vec<IpCidr>,
        peer_ifindex: Option<u32>,
        operstate: u32,
    ) -> (r: NetDeviceEntry)
        ensures
            r@ == (DeviceModel {
                nic_id: 0,
                name: name@,
                flags,
                mtu,
                ip_addrs: ip_addrs@,
                hwaddr: hwaddr@,
                kind,
                peer_ifindex,
                operstate,
            }),
    {
        NetDeviceEntry {
            nic_id: 0,
            name,
            flags,
            mtu,
            ip_addrs,
            hwaddr,
            kind,
            peer_ifindex,
            operstate,
        }
    }

    /// A second entry that holds the same.
    pub fn duplicate(&self) -> (r: NetDeviceEntry)
        ensures
            r@ == self@,
    {
        NetDeviceEntry {
            nic_id: self.nic_id,
            name: self.name.clone(),
            flags: self.flags,
            mtu: self.mtu,
            ip_addrs: copy_cidrs(&self.ip_addrs),
            hwaddr: self.hwaddr,
            kind: self.kind,
            peer_ifindex: self.peer_ifindex,
            operstate: self.operstate,
        }
    }

    /// Gives the interface its index.
    pub fn set_nic_id(&mut self, id: u32)
        ensures
            final(self)@ == (DeviceModel { nic_id: id, ..old(self)@ }),
    {
        self.nic_id = id;
    }

    pub fn nic_id(&self) -> (r: u32)
        ensures
            r == self@.nic_id,
    {
        self.nic_id
    }

    pub fn iface_name(&self) -> (r: String)
        ensures
            r@ == self@.name,
    {
        self.name.clone()
    }

    pub fn set_iface_name(&mut self, name: &str)
        ensures
            final(self)@ == (DeviceModel { name: name@, ..old(self)@ }),
    {
        self.name = name.to_owned();
    }

    pub fn flags(&self) -> (r: u32)
        ensures
            r == self@.flags,
    {
        self.flags
    }

    pub fn set_flags(&mut self, flags: u32)
        ensures
            final(self)@ == (DeviceModel { flags, ..old(self)@ }),
    {
        self.flags = flags;
    }

    pub fn mtu(&self) -> (r: usize)
        ensures
            r == self@.mtu,
    {
        self.mtu
    }

    pub fn set_mtu(&mut self, mtu: usize)
        ensures
            final(self)@ == (DeviceModel { mtu, ..old(self)@ }),
    {
        self.mtu = mtu;
    }

    pub fn ip_addrs(&self) -> (r: Vec<IpCidr>)
        ensures
            r@ == self@.ip_addrs,
    {
        copy_cidrs(&self.ip_addrs)
    }

    /// Gives the interface one address more.
    pub fn add_ip_addr(&mut self, addr: IpCidr)
        ensures
            final(self)@ == (DeviceModel { ip_addrs: old(self)@.ip_addrs.push(addr), ..old(self)@ }),
    {
        self.ip_addrs.push(addr);
    }

    /// Takes the address away, wherever it stands in the list.
    pub fn del_ip_addr(&mut self, addr: IpCidr)
        ensures
            final(self)@ == (DeviceModel {
                ip_addrs: old(self)@.ip_addrs.filter(other_than(addr)),
                ..old(self)@
            }),
    {
        let ghost before = self.ip_addrs@;
        let mut kept: Vec<IpCidr> = Vec::new();
        let mut i: usize = 0;
        proof {
            reveal(Seq::filter);
        }
        while i < self.ip_addrs.len()
            invariant
                i <= self.ip_addrs@.len(),
                self.ip_addrs@ == before,
                kept@ == before.take(i as int).filter(other_than(addr)),
                *self == *old(self),
            decreases self.ip_addrs@.len() - i,
        {
            proof {
                seqs::lemma_filter_step(before, other_than(addr), i as int);
            }
            if self.ip_addrs[i] != addr {
                kept.push(self.ip_addrs[i]);
            }
            i = i + 1;
        }
        assert(before.take(i as int) =~= before);
        self.ip_addrs = kept;
    }

    pub fn mac(&self) -> (r: [u8; 6])
        ensures
            r@ == self@.hwaddr,
    {
        self.hwaddr
    }

    pub fn kind(&self) -> (r: DeviceKind)
        ensures
            r == self@.kind,
    {
        self.kind
    }

    pub fn peer_ifindex(&self) -> (r: Option<u32>)
        ensures
            r == self@.peer_ifindex,
    {
        self.peer_ifindex
    }

    /// Whether `addr` is one of the interface's own addresses.
    pub fn owns(&self, addr: IpAddress) -> (r: bool)
        ensures
            r == self@.owns(addr),
    {
        let mut i: usize = 0;
        while i < self.ip_addrs.len()
            invariant
                i <= self.ip_addrs@.len(),
                forall|j: int| 0 <= j < i ==> self.ip_addrs@[j].address != addr,
            decreases self.ip_addrs@.len() - i,
        {
            if self.ip_addrs[i].address == addr {
                assert(self@.ip_addrs[i as int].address == addr);
                return true;
            }
            i = i + 1;
        }
        false
    }

    /// The address given first.
    pub fn first_addr(&self) -> (r: Option<IpAddress>)
        ensures
            r == self@.first_addr(),
    {
        if self.ip_addrs.len() > 0 {
            Some(self.ip_addrs[0].address)
        } else {
            None
        }
    }

    /// The IPv6 address given first.
    pub fn first_v6(&self) -> (r: Option<IpAddress>)
        ensures
            r == self@.first_v6(),
    {
        let mut i: usize = 0;
        while i < self.ip_addrs.len()
            invariant
                i <= self.ip_addrs@.len(),
                forall|j: int| 0 <= j < i ==> !is_v6()(#[trigger] self.ip_addrs@[j]),
            decreases self.ip_addrs@.len() - i,
        {
            if let IpAddress::Ipv6(_) = self.ip_addrs[i].address {
                proof {
                    seqs::lemma_find_first(self.ip_addrs@, is_v6(), i as int);
                }
                return Some(self.ip_addrs[i].address);
            }
            i = i + 1;
        }
        proof {
            seqs::lemma_find_none(self.ip_addrs@, is_v6());
        }
        None
    }

    /// The block of the IPv4 address given first.
    pub fn first_v4(&self) -> (r: Option<IpCidr>)
        ensures
            r == self@.first_v4(),
    {
        let mut i: usize = 0;
        while i < self.ip_addrs.len()
            invariant
                i <= self.ip_addrs@.len(),
                forall|j: int| 0 <= j < i ==> !is_v4()(#[trigger] self.ip_addrs@[j]),
            decreases self.ip_addrs@.len() - i,
        {
            if let IpAddress::Ipv4(_) = self.ip_addrs[i].address {
                proof {
                    seqs::lemma_find_first(self.ip_addrs@, is_v4(), i as int);
                }
                return Some(self.ip_addrs[i]);
            }
            i = i + 1;
        }
        proof {
            seqs::lemma_find_none(self.ip_addrs@, is_v4());
        }
        None
    }
}

/// An address given to an interface and taken away again is not among its
/// addresses, and the others are as before.
pub proof fn law_del_undoes_add(d: DeviceModel, addr: IpCidr)
    requires
        !d.ip_addrs.contains(addr),
    ensures
        d.ip_addrs.push(addr).filter(other_than(addr)) == d.ip_addrs,
        d.ip_addrs.push(addr).contains(addr),
{
    let s = d.ip_addrs.push(addr);
    assert(s[s.len() - 1] == addr);
    seqs::lemma_filter_step(s, other_than(addr), d.ip_addrs.len() as int);
    assert(s.take(s.len() as int) =~= s);
    assert(s.take(d.ip_addrs.len() as int) =~= d.ip_addrs);
    assert forall|k: int| 0 <= k < d.ip_addrs.len() implies other_than(addr)(d.ip_addrs[k]) by {
        assert(d.ip_addrs.contains(d.ip_addrs[k]));
    }
    seqs::lemma_filter_all(d.ip_addrs, other_than(addr));
}

} // verus!
