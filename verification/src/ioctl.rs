//! The requests about interfaces that a socket takes (`SIOCGIF*`, `SIOCSIF*`).
#![allow(non_camel_case_types)]
use vstd::prelude::*;
use vstd::arithmetic::power2;
use vstd::utf8;
use crate::bytes;
use crate::error::SyscallErr;
use crate::iface::{DeviceModel, NetDeviceEntry};
use crate::net_core;
use crate::net_core::NetNamespace;
use crate::seqs;
use crate::text;
use crate::wire;
use crate::wire::{IpAddress, IpCidr, Ipv4Address};

verus! {

pub const SIOCGIFNAME: u32 = 0x8910;

pub const SIOCGIFCONF: u32 = 0x8912;

pub const SIOCGIFFLAGS: u32 = 0x8913;

pub const SIOCSIFFLAGS: u32 = 0x8914;

pub const SIOCGIFADDR: u32 = 0x8915;

pub const SIOCSIFADDR: u32 = 0x8916;

pub const SIOCGIFBRDADDR: u32 = 0x8919;

pub const SIOCGIFNETMASK: u32 = 0x891b;

pub const SIOCGIFMTU: u32 = 0x8921;

pub const SIOCSIFMTU: u32 = 0x8922;

pub const SIOCGIFHWADDR: u32 = 0x8927;

pub const SIOCGIFINDEX: u32 = 0x8933;

pub const SIOCGIFTXQLEN: u32 = 0x8942;

/// The length of the transmit queue that is reported.
pub const TX_QUEUE_LEN: i32 = 1000;

/// The size of an [`ifreq`] in user memory.
pub const IFREQ_SIZE: usize = 40;

/// Linux `struct ifreq`: a name, and what is asked or told of it.
#[derive(Clone, Copy, Debug)]
pub struct ifreq {
    pub ifr_name: [u8; 16],
    pub ifr_data: [u8; 24],
}

/// Linux `struct ifconf`: room for the list of interfaces.
#[derive(Clone, Copy, Debug, PartialEq, Eq, Structural)]
pub struct ifconf {
    pub ifc_len: i32,
    pub ifc_buf: usize,
}

/// What an [`ifreq`] says.
#[verifier::ext_equal]
pub struct RequestModel {
    pub name: Seq<u8>,
    pub data: Seq<u8>,
}

impl View for ifreq {
    type V = RequestModel;

    open spec fn view(&self) -> RequestModel {
        RequestModel { name: self.ifr_name@, data: self.ifr_data@ }
    }
}

/// The bytes with others written over them from `at` on.
pub open spec fn overwritten(s: Seq<u8>, at: int, data: Seq<u8>) -> Seq<u8> {
    s.take(at) + data + s.skip(at + data.len())
}

impl RequestModel {
    pub open spec fn wf(self) -> bool {
        self.name.len() == 16 && self.data.len() == 24
    }

    /// The name that the request is about.
    pub open spec fn text(self) -> Seq<char> {
        text::nul_text(self.name)
    }

    pub open spec fn with_data(self, at: int, data: Seq<u8>) -> RequestModel {
        RequestModel { data: overwritten(self.data, at, data), ..self }
    }

    /// The request with an interface's name, cut to fifteen bytes, in front
    /// of a zero.
    pub open spec fn with_name(self, name: Seq<char>) -> RequestModel {
        let b = utf8::encode_utf8(name);
        let n = if b.len() < 15 {
            b.len() as int
        } else {
            15
        };
        RequestModel { name: overwritten(self.name, 0, b.take(n).push(0)), ..self }
    }

    /// The request with an IPv4 address, as a socket address without port.
    pub open spec fn with_addr(self, a: Ipv4Address) -> RequestModel {
        self.with_data(0, bytes::le16(2)).with_data(4, a.octets())
    }

    pub open spec fn with_hwaddr(self, hw: Seq<u8>) -> RequestModel {
        self.with_data(0, bytes::le16(1)).with_data(2, hw)
    }

    pub open spec fn addr(self) -> Ipv4Address {
        Ipv4Address::of(self.data[4], self.data[5], self.data[6], self.data[7])
    }
}

pub open spec fn empty_request() -> RequestModel {
    RequestModel { name: Seq::new(16, |i: int| 0u8), data: Seq::new(24, |i: int| 0u8) }
}

impl ifreq {
    pub fn new() -> (r: ifreq)
        ensures
            r@ == empty_request(),
            r@.wf(),
    {
        let r = ifreq { ifr_name: [0; 16], ifr_data: [0; 24] };
        assert(r@.name =~= empty_request().name);
        assert(r@.data =~= empty_request().data);
        r
    }

    fn name_str(&self) -> (r: String)
        ensures
            r@ == self@.text(),
    {
        text::nul_string(self.ifr_name.as_slice())
    }

    fn put(&mut self, at: usize, data: &[u8])
        requires
            at + data@.len() <= 24,
        ensures
            final(self)@ == old(self)@.with_data(at as int, data@),
    {
        let ghost before = self.ifr_data@;
        let mut i: usize = 0;
        assert(overwritten(before, at as int, data@.take(0)) =~= before);
        while i < data.len()
            invariant
                i <= data@.len(),
                at + data@.len() <= 24,
                before.len() == 24,
                self.ifr_name == old(self).ifr_name,
                self.ifr_data@ == overwritten(before, at as int, data@.take(i as int)),
            decreases data@.len() - i,
        {
            self.ifr_data[at + i] = data[i];
            assert(self.ifr_data@ =~= overwritten(before, at as int, data@.take(i + 1)));
            i += 1;
        }
        assert(data@.take(i as int) =~= data@);
    }

    fn set_name(&mut self, name: &str)
        ensures
            final(self)@ == old(self)@.with_name(name@),
    {
        let ghost before = self.ifr_name@;
        let b = name.as_bytes();
        let n: usize = if b.len() < 15 {
            b.len()
        } else {
            15
        };
        let mut i: usize = 0;
        assert(overwritten(before, 0, b@.take(0)) =~= before);
        while i < n
            invariant
                i <= n <= 15,
                n <= b@.len(),
                before.len() == 16,
                self.ifr_data == old(self).ifr_data,
                self.ifr_name@ == overwritten(before, 0, b@.take(i as int)),
            decreases n - i,
        {
            self.ifr_name[i] = b[i];
            assert(self.ifr_name@ =~= overwritten(before, 0, b@.take(i + 1)));
            i += 1;
        }
        self.ifr_name[n] = 0;
        assert(self.ifr_name@ =~= overwritten(before, 0, b@.take(n as int).push(0)));
    }

    fn ifr_ifindex(&self) -> (r: u32)
        ensures
            r == bytes::u32_le_at(self@.data, 0),
    {
        bytes::get_u32_le(self.ifr_data.as_slice(), 0)
    }

    fn set_ifr_ifindex(&mut self, v: u32)
        ensures
            final(self)@ == old(self)@.with_data(0, bytes::le32(v)),
    {
        let mut b: Vec<u8> = Vec::new();
        bytes::put_u32_le(&mut b, v);
        assert(b@ =~= bytes::le32(v));
        self.put(0, b.as_slice());
    }

    fn ifr_flags(&self) -> (r: u16)
        ensures
            r == bytes::u16_le_at(self@.data, 0),
    {
        bytes::get_u16_le(self.ifr_data.as_slice(), 0)
    }

    fn set_ifr_flags(&mut self, v: u16)
        ensures
            final(self)@ == old(self)@.with_data(0, bytes::le16(v)),
    {
        let mut b: Vec<u8> = Vec::new();
        bytes::put_u16_le(&mut b, v);
        assert(b@ =~= bytes::le16(v));
        self.put(0, b.as_slice());
    }

    fn ifr_mtu(&self) -> (r: i32)
        ensures
            r == bytes::i32_of(bytes::u32_le_at(self@.data, 0)),
    {
        bytes::to_i32(self.ifr_ifindex())
    }

    fn set_ifr_mtu(&mut self, v: i32)
        ensures
            final(self)@ == old(self)@.with_data(0, bytes::le32(bytes::u32_of(v))),
    {
        self.set_ifr_ifindex(bytes::to_u32(v));
    }

    fn ifr_addr(&self) -> (r: Ipv4Address)
        ensures
            r == self@.addr(),
    {
        Ipv4Address::new(
            self.ifr_data[4],
            self.ifr_data[5],
            self.ifr_data[6],
            self.ifr_data[7],
        )
    }

    fn set_ifr_addr(&mut self, ip: Ipv4Address)
        ensures
            final(self)@ == old(self)@.with_addr(ip),
    {
        self.set_ifr_flags(2);
        let b = ip.to_octets();
        self.put(4, b.as_slice());
    }

    fn set_ifr_hwaddr(&mut self, hw: [u8; 6])
        ensures
            final(self)@ == old(self)@.with_hwaddr(hw@),
    {
        self.set_ifr_flags(1);
        self.put(2, hw.as_slice());
    }
}

/// A change that the protocol stack of an interface has to follow.
#[derive(Clone, Copy, Debug, PartialEq, Eq, Structural)]
pub enum IfUpdate {
    /// Its only address is this one.
    ReplaceIp { ifindex: u32, cidr: IpCidr },
    SetMtu { ifindex: u32, mtu: usize },
}

/// What a request is answered with.
#[derive(Debug)]
pub enum IfReply {
    /// These entries are written to the room for the list, one behind the
    /// other, and then the header.
    List { conf: ifconf, entries: Vec<ifreq> },
    /// The request is written back.
    Request(ifreq),
    /// Nothing is written back.
    Done(Option<IfUpdate>),
}

#[verifier::ext_equal]
pub enum ReplyModel {
    List { conf: ifconf, entries: Seq<RequestModel> },
    Request(RequestModel),
    Done(Option<IfUpdate>),
}

pub open spec fn requests(s: Seq<ifreq>) -> Seq<RequestModel> {
    Seq::new(s.len(), |i: int| s[i]@)
}

impl View for IfReply {
    type V = ReplyModel;

    open spec fn view(&self) -> ReplyModel {
        match self {
            IfReply::List { conf, entries } => ReplyModel::List {
                conf: *conf,
                entries: requests(entries@),
            },
            IfReply::Request(r) => ReplyModel::Request(r@),
            IfReply::Done(u) => ReplyModel::Done(*u),
        }
    }
}

/// The interface that a request names.
pub open spec fn target(devs: Seq<DeviceModel>, m: RequestModel) -> Option<DeviceModel> {
    seqs::find_first(devs, net_core::named(m.text()))
}

/// The IPv4 address that an interface was given first, where that is its
/// first address.
pub open spec fn leading_v4(d: DeviceModel) -> Option<(Ipv4Address, u8)> {
    if d.ip_addrs.len() > 0 {
        match d.ip_addrs[0].address {
            IpAddress::Ipv4(a) => Some((a, d.ip_addrs[0].prefix_len)),
            IpAddress::Ipv6(_) => None,
        }
    } else {
        None
    }
}

/// The length of the first prefix.
pub open spec fn leading_prefix(d: DeviceModel, absent: u8) -> u8 {
    if d.ip_addrs.len() > 0 {
        d.ip_addrs[0].prefix_len
    } else {
        absent
    }
}

/// The mask that keeps a prefix.
pub open spec fn mask(prefix: u8) -> Ipv4Address {
    Ipv4Address { bits: (0x1_0000_0000 - power2::pow2((32 - prefix) as nat)) as u32 }
}

/// The last address of the block.
pub open spec fn broadcast(a: Ipv4Address, prefix: u8) -> Ipv4Address {
    let host = power2::pow2((32 - prefix) as nat) as int;
    Ipv4Address { bits: (a.bits - a.bits as int % host + host - 1) as u32 }
}

/// Whether a request asks for something to be written back.
pub open spec fn is_question(cmd: u32) -> bool {
    cmd == SIOCGIFINDEX || cmd == SIOCGIFNAME || cmd == SIOCGIFFLAGS || cmd == SIOCGIFADDR || cmd
        == SIOCGIFNETMASK || cmd == SIOCGIFBRDADDR || cmd == SIOCGIFMTU || cmd == SIOCGIFHWADDR
        || cmd == SIOCGIFTXQLEN
}

/// What a question about an interface is answered with.
pub open spec fn answered(devs: Seq<DeviceModel>, cmd: u32, m: RequestModel) -> Result<
    RequestModel,
    SyscallErr,
> {
    if cmd == SIOCGIFNAME {
        let index = bytes::u32_le_at(m.data, 0);
        if index == 0 {
            Err(SyscallErr::ENXIO)
        } else {
            match seqs::find_first(devs, net_core::indexed(index)) {
                Some(d) => Ok(m.with_name(d.name)),
                None => Err(SyscallErr::ENODEV),
            }
        }
    } else {
        match target(devs, m) {
            None => Err(SyscallErr::ENODEV),
            Some(d) => if cmd == SIOCGIFINDEX {
                Ok(m.with_data(0, bytes::le32(d.nic_id)))
            } else if cmd == SIOCGIFFLAGS {
                Ok(m.with_data(0, bytes::le16((d.flags % 0x10000) as u16)))
            } else if cmd == SIOCGIFADDR {
                match leading_v4(d) {
                    Some((a, _)) => Ok(m.with_addr(a)),
                    None => Err(SyscallErr::EADDRNOTAVAIL),
                }
            } else if cmd == SIOCGIFNETMASK {
                Ok(m.with_addr(mask(leading_prefix(d, 0))))
            } else if cmd == SIOCGIFBRDADDR {
                match leading_v4(d) {
                    Some((a, prefix)) => Ok(m.with_addr(broadcast(a, prefix))),
                    None => Err(SyscallErr::EADDRNOTAVAIL),
                }
            } else if cmd == SIOCGIFMTU {
                Ok(m.with_data(0, bytes::le32(bytes::u32_of(d.mtu as i32))))
            } else if cmd == SIOCGIFHWADDR {
                Ok(m.with_hwaddr(d.hwaddr))
            } else {
                Ok(m.with_data(0, bytes::le32(bytes::u32_of(TX_QUEUE_LEN))))
            },
        }
    }
}

/// An interface in the list of interfaces.
pub open spec fn list_entry(d: DeviceModel) -> RequestModel {
    match leading_v4(d) {
        Some((a, _)) => empty_request().with_name(d.name).with_addr(a),
        None => empty_request().with_name(d.name),
    }
}

/// How many entries are written into room for `len` bytes.
pub open spec fn list_len(devs: Seq<DeviceModel>, len: i32) -> int {
    let fit = (len as usize) as int / IFREQ_SIZE as int;
    if fit < devs.len() {
        fit
    } else {
        devs.len() as int
    }
}

/// The list of interfaces, cut to the room for it.
pub open spec fn listed(devs: Seq<DeviceModel>, conf: ifconf) -> ReplyModel {
    if conf.ifc_buf == 0 {
        ReplyModel::List { conf: ifconf { ifc_len: 0, ..conf }, entries: Seq::empty() }
    } else {
        let n = list_len(devs, conf.ifc_len);
        ReplyModel::List {
            conf: ifconf { ifc_len: ((n * IFREQ_SIZE) as usize) as i32, ..conf },
            entries: Seq::new(n as nat, |i: int| list_entry(devs[i])),
        }
    }
}

/// What telling an interface something changes.
pub open spec fn told(devs: Seq<DeviceModel>, cmd: u32, m: RequestModel) -> (
    Seq<DeviceModel>,
    Result<Option<IfUpdate>, SyscallErr>,
) {
    match target(devs, m) {
        None => (devs, Err(SyscallErr::ENODEV)),
        Some(d) => if cmd == SIOCSIFFLAGS {
            let low = bytes::u16_le_at(m.data, 0);
            (
                net_core::replace_device(
                    devs,
                    DeviceModel { flags: (d.flags / 0x10000 * 0x10000 + low) as u32, ..d },
                ),
                Ok(None),
            )
        } else if cmd == SIOCSIFADDR {
            let cidr = IpCidr {
                address: IpAddress::Ipv4(m.addr()),
                prefix_len: leading_prefix(d, 24),
            };
            (
                net_core::replace_device(devs, DeviceModel { ip_addrs: seq![cidr], ..d }),
                Ok(Some(IfUpdate::ReplaceIp { ifindex: d.nic_id, cidr })),
            )
        } else {
            let mtu = bytes::i32_of(bytes::u32_le_at(m.data, 0)) as usize;
            (
                net_core::replace_device(devs, DeviceModel { mtu, ..d }),
                Ok(Some(IfUpdate::SetMtu { ifindex: d.nic_id, mtu })),
            )
        },
    }
}

/// What a request does. `conf` and `req` are what could be read of its
/// argument.
pub open spec fn dispatched(
    devs: Seq<DeviceModel>,
    cmd: u32,
    conf: Option<ifconf>,
    req: Option<RequestModel>,
) -> (Seq<DeviceModel>, Result<ReplyModel, SyscallErr>) {
    if cmd == SIOCGIFCONF {
        match conf {
            None => (devs, Err(SyscallErr::EFAULT)),
            Some(c) => (devs, Ok(listed(devs, c))),
        }
    } else if is_question(cmd) {
        match req {
            None => (devs, Err(SyscallErr::EFAULT)),
            Some(m) => match answered(devs, cmd, m) {
                Ok(a) => (devs, Ok(ReplyModel::Request(a))),
                Err(e) => (devs, Err(e)),
            },
        }
    } else if cmd == SIOCSIFFLAGS || cmd == SIOCSIFADDR || cmd == SIOCSIFMTU {
        match req {
            None => (devs, Err(SyscallErr::EFAULT)),
            Some(m) => {
                let (next, r) = told(devs, cmd, m);
                match r {
                    Ok(u) => (next, Ok(ReplyModel::Done(u))),
                    Err(e) => (next, Err(e)),
                }
            },
        }
    } else {
        (devs, Err(SyscallErr::EOPNOTSUPP))
    }
}

/// Whether the first prefix of the interface is one that an IPv4 address can
/// have; a mask is defined for no other.
pub open spec fn has_ipv4_prefix(devs: Seq<DeviceModel>, m: RequestModel) -> bool {
    match target(devs, m) {
        Some(d) => leading_prefix(d, 0) <= 32,
        None => true,
    }
}

fn find_dev<'a>(ns: &'a NetNamespace, ifr: &ifreq) -> (r: Result<&'a NetDeviceEntry, SyscallErr>)
    ensures
        match (r, target(ns.devs(), ifr@)) {
            (Ok(d), Some(m)) => d@ == m,
            (Err(e), None) => e == SyscallErr::ENODEV,
            _ => false,
        },
{
    let name = ifr.name_str();
    match ns.device_by_name(name.as_str()) {
        Some(d) => Ok(d),
        None => Err(SyscallErr::ENODEV),
    }
}

fn first_v4(d: &NetDeviceEntry) -> (r: Option<(Ipv4Address, u8)>)
    ensures
        r == leading_v4(d@),
{
    if d.ip_addrs.len() == 0 {
        return None;
    }
    match d.ip_addrs[0].address {
        IpAddress::Ipv4(a) => Some((a, d.ip_addrs[0].prefix_len)),
        IpAddress::Ipv6(_) => None,
    }
}

/// How many addresses share a prefix.
fn host_count(prefix: u8) -> (r: u64)
    requires
        prefix <= 32,
    ensures
        r == power2::pow2((32 - prefix) as nat),
        1 <= r <= 0x1_0000_0000,
{
    let host: u8 = 32 - prefix;
    let mut unit: u64 = 1;
    let mut k: u8 = 0;
    proof {
        wire::lemma_pow2_width();
    }
    while k < host
        invariant
            k <= host <= 32,
            1 <= unit <= 0x1_0000_0000,
            unit == power2::pow2(k as nat),
        decreases host - k,
    {
        proof {
            wire::lemma_pow2_width();
            power2::lemma_pow2_unfold((k + 1) as nat);
            if k + 1 < 32 {
                power2::lemma_pow2_strictly_increases((k + 1) as nat, 32);
            }
        }
        unit = unit * 2;
        k = k + 1;
    }
    unit
}

fn netmask(prefix: u8) -> (r: Ipv4Address)
    requires
        prefix <= 32,
    ensures
        r == mask(prefix),
{
    Ipv4Address { bits: (0x1_0000_0000u64 - host_count(prefix)) as u32 }
}

fn broadcast_of(a: Ipv4Address, prefix: u8) -> (r: Ipv4Address)
    requires
        prefix <= 32,
    ensures
        r == broadcast(a, prefix),
{
    let host: u64 = host_count(prefix);
    let bits: u64 = a.bits as u64;
    proof {
        vstd::arithmetic::div_mod::lemma_mod_decreases(bits as nat, host as nat);
    }
    Ipv4Address { bits: (bits - bits % host + (host - 1)) as u32 }
}

/// Answers a question about an interface.
fn siocgif_answer(ns: &NetNamespace, cmd: u32, ifr: ifreq) -> (r: Result<ifreq, SyscallErr>)
    requires
        ns.wf(),
        is_question(cmd),
        cmd == SIOCGIFNETMASK ==> has_ipv4_prefix(ns.devs(), ifr@),
    ensures
        match (r, answered(ns.devs(), cmd, ifr@)) {
            (Ok(x), Ok(y)) => x@ == y,
            (Err(x), Err(y)) => x == y,
            _ => false,
        },
{
    let mut ifr = ifr;
    if cmd == SIOCGIFNAME {
        let index = ifr.ifr_ifindex();
        if index == 0 {
            return Err(SyscallErr::ENXIO);
        }
        return match ns.device_by_index(index) {
            Some(d) => {
                ifr.set_name(d.name.as_str());
                Ok(ifr)
            },
            None => Err(SyscallErr::ENODEV),
        };
    }
    let d = match find_dev(ns, &ifr) {
        Ok(d) => d,
        Err(e) => return Err(e),
    };
    proof {
        let found = target(ns.devs(), ifr@);
        seqs::lemma_found(ns.devs(), net_core::named(ifr@.text()));
        assert(d@.wf());
        if d@.ip_addrs.len() > 0 {
            assert(d@.ip_addrs[0].wf());
        }
    }
    if cmd == SIOCGIFINDEX {
        ifr.set_ifr_ifindex(d.nic_id);
    } else if cmd == SIOCGIFFLAGS {
        ifr.set_ifr_flags((d.flags % 0x10000) as u16);
    } else if cmd == SIOCGIFADDR {
        match first_v4(d) {
            Some((a, _)) => ifr.set_ifr_addr(a),
            None => return Err(SyscallErr::EADDRNOTAVAIL),
        }
    } else if cmd == SIOCGIFNETMASK {
        let prefix: u8 = if d.ip_addrs.len() > 0 {
            d.ip_addrs[0].prefix_len
        } else {
            0
        };
        ifr.set_ifr_addr(netmask(prefix));
    } else if cmd == SIOCGIFBRDADDR {
        match first_v4(d) {
            Some((a, prefix)) => ifr.set_ifr_addr(broadcast_of(a, prefix)),
            None => return Err(SyscallErr::EADDRNOTAVAIL),
        }
    } else if cmd == SIOCGIFMTU {
        ifr.set_ifr_mtu(d.mtu as i32);
    } else if cmd == SIOCGIFHWADDR {
        ifr.set_ifr_hwaddr(d.hwaddr);
    } else {
        ifr.set_ifr_mtu(TX_QUEUE_LEN);
    }
    Ok(ifr)
}

/// The list of interfaces, cut to the room for it.
fn siocgifconf(ns: &NetNamespace, conf: ifconf) -> (r: IfReply)
    ensures
        r@ == listed(ns.devs(), conf),
{
    let mut entries: Vec<ifreq> = Vec::new();
    if conf.ifc_buf == 0 {
        let r = IfReply::List { conf: ifconf { ifc_len: 0, ifc_buf: conf.ifc_buf }, entries };
        assert(r@->entries =~= Seq::<RequestModel>::empty());
        return r;
    }
    let max_bytes: usize = conf.ifc_len as usize;
    let mut written: usize = 0;
    let mut i: usize = 0;
    while i < ns.devices.len() && max_bytes - written >= IFREQ_SIZE
        invariant
            i <= ns.devices@.len(),
            written == i * IFREQ_SIZE,
            written <= max_bytes,
            entries@.len() == i,
            forall|j: int| 0 <= j < i ==> (#[trigger] entries@[j])@ == list_entry(ns.devs()[j]),
        decreases ns.devices@.len() - i,
    {
        let d = &ns.devices[i];
        let mut ifr = ifreq::new();
        ifr.set_name(d.name.as_str());
        match first_v4(d) {
            Some((a, _)) => ifr.set_ifr_addr(a),
            None => {},
        }
        assert(ifr@ == list_entry(ns.devs()[i as int]));
        entries.push(ifr);
        written = written + IFREQ_SIZE;
        i = i + 1;
    }
    proof {
        let n = list_len(ns.devs(), conf.ifc_len);
        assert(i == n);
        assert(requests(entries@) =~= Seq::new(n as nat, |i: int| list_entry(ns.devs()[i])));
    }
    IfReply::List { conf: ifconf { ifc_len: written as i32, ifc_buf: conf.ifc_buf }, entries }
}

/// Tells an interface something.
fn siocsif_tell(ns: &mut NetNamespace, cmd: u32, ifr: &ifreq) -> (r: Result<
    Option<IfUpdate>,
    SyscallErr,
>)
    requires
        old(ns).wf(),
        cmd == SIOCSIFFLAGS || cmd == SIOCSIFADDR || cmd == SIOCSIFMTU,
        cmd == SIOCSIFADDR ==> has_ipv4_prefix(old(ns).devs(), ifr@),
    ensures
        final(ns).wf(),
        final(ns).router == old(ns).router,
        (final(ns).devs(), r) == told(old(ns).devs(), cmd, ifr@),
{
    let mut d = match find_dev(ns, ifr) {
        Ok(d) => d.duplicate(),
        Err(e) => return Err(e),
    };
    proof {
        seqs::lemma_found(ns.devs(), net_core::named(ifr@.text()));
        assert(d@.wf());
    }
    if cmd == SIOCSIFFLAGS {
        let low = ifr.ifr_flags();
        let high: u32 = d.flags / 0x10000 * 0x10000;
        d.set_flags(high + low as u32);
        ns.update_device(d);
        Ok(None)
    } else if cmd == SIOCSIFADDR {
        let prefix_len: u8 = if d.ip_addrs.len() > 0 {
            d.ip_addrs[0].prefix_len
        } else {
            24
        };
        let cidr = IpCidr { address: IpAddress::Ipv4(ifr.ifr_addr()), prefix_len };
        let mut addrs: Vec<IpCidr> = Vec::new();
        addrs.push(cidr);
        assert(addrs@ =~= seq![cidr]);
        d.ip_addrs = addrs;
        let ifindex = d.nic_id;
        ns.update_device(d);
        Ok(Some(IfUpdate::ReplaceIp { ifindex, cidr }))
    } else {
        let mtu: usize = ifr.ifr_mtu() as usize;
        d.set_mtu(mtu);
        let ifindex = d.nic_id;
        ns.update_device(d);
        Ok(Some(IfUpdate::SetMtu { ifindex, mtu }))
    }
}

/// Answers a request about interfaces. `conf` and `req` are what could be read
/// of its argument: the header of a list, or a request. A mask is defined only
/// for the prefix of an IPv4 address, and only such a prefix can be kept for a
/// new one.
pub fn siocgif_dispatch(ns: &mut NetNamespace, cmd: u32, conf: Option<ifconf>, req: Option<ifreq>) -> (r:
    Result<IfReply, SyscallErr>)
    requires
        old(ns).wf(),
        cmd == SIOCGIFNETMASK || cmd == SIOCSIFADDR ==> (req matches Some(q) ==> has_ipv4_prefix(
            old(ns).devs(),
            q@,
        )),
    ensures
        final(ns).wf(),
        final(ns).router == old(ns).router,
        ({
            let (devs, reply) = dispatched(
                old(ns).devs(),
                cmd,
                conf,
                match req {
                    Some(q) => Some(q@),
                    None => None,
                },
            );
            &&& final(ns).devs() == devs
            &&& match (r, reply) {
                (Ok(x), Ok(y)) => x@ == y,
                (Err(x), Err(y)) => x == y,
                _ => false,
            }
        }),
{
    if cmd == SIOCGIFCONF {
        return match conf {
            None => Err(SyscallErr::EFAULT),
            Some(c) => Ok(siocgifconf(ns, c)),
        };
    }
    if cmd == SIOCGIFINDEX || cmd == SIOCGIFNAME || cmd == SIOCGIFFLAGS || cmd == SIOCGIFADDR || cmd
        == SIOCGIFNETMASK || cmd == SIOCGIFBRDADDR || cmd == SIOCGIFMTU || cmd == SIOCGIFHWADDR
        || cmd == SIOCGIFTXQLEN {
        let q = match req {
            None => return Err(SyscallErr::EFAULT),
            Some(q) => q,
        };
        return match siocgif_answer(ns, cmd, q) {
            Ok(a) => Ok(IfReply::Request(a)),
            Err(e) => Err(e),
        };
    }
    if cmd == SIOCSIFFLAGS || cmd == SIOCSIFADDR || cmd == SIOCSIFMTU {
        let q = match req {
            None => return Err(SyscallErr::EFAULT),
            Some(q) => q,
        };
        return match siocsif_tell(ns, cmd, &q) {
            Ok(u) => Ok(IfReply::Done(u)),
            Err(e) => Err(e),
        };
    }
    Err(SyscallErr::EOPNOTSUPP)
}

/// The interface that a request names is found again once it was told
/// something that leaves its name and its index.
proof fn lemma_told_is_found(devs: Seq<DeviceModel>, m: RequestModel, ask: RequestModel, e: DeviceModel)
    requires
        net_core::ordered(devs),
        ask.text() == m.text(),
        target(devs, m) is Some,
        e.nic_id == target(devs, m)->0.nic_id,
        e.name == target(devs, m)->0.name,
    ensures
        target(net_core::replace_device(devs, e), ask) == Some(e),
{
    let d = target(devs, m)->0;
    let p = net_core::named(m.text());
    let after = net_core::replace_device(devs, e);
    seqs::lemma_found(devs, p);
    seqs::lemma_first_index_found(devs, p);
    if seqs::first_index(devs, p) is None {
        let k = choose|k: int| 0 <= k < devs.len() && devs[k] == d;
        assert(p(devs[k]));
    }
    let i = seqs::first_index(devs, p)->0;
    seqs::lemma_find_first(devs, p, i);
    assert(after[i] == e);
    assert forall|j: int| 0 <= j < i implies !p(#[trigger] after[j]) by {
        assert(devs[j].nic_id != d.nic_id);
        assert(after[j] == devs[j]);
    }
    seqs::lemma_find_first(after, p, i);
}

/// An interface that was told an address reports it, under any request that
/// names the interface.
pub proof fn law_address_is_read_back(devs: Seq<DeviceModel>, m: RequestModel, ask: RequestModel)
    requires
        net_core::ordered(devs),
        m.wf(),
        ask.text() == m.text(),
        target(devs, m) is Some,
    ensures
        ({
            let (after, r) = told(devs, SIOCSIFADDR, m);
            &&& r is Ok
            &&& answered(after, SIOCGIFADDR, ask) == Ok::<RequestModel, SyscallErr>(
                ask.with_addr(m.addr()),
            )
        }),
{
    let d = target(devs, m)->0;
    let cidr = IpCidr {
        address: IpAddress::Ipv4(m.addr()),
        prefix_len: leading_prefix(d, 24),
    };
    lemma_told_is_found(devs, m, ask, DeviceModel { ip_addrs: seq![cidr], ..d });
}

/// An interface that was told its flags reports them, and keeps those that a
/// request has no room for.
pub proof fn law_flags_are_read_back(devs: Seq<DeviceModel>, m: RequestModel, ask: RequestModel)
    requires
        net_core::ordered(devs),
        m.wf(),
        ask.text() == m.text(),
        target(devs, m) is Some,
    ensures
        ({
            let (after, r) = told(devs, SIOCSIFFLAGS, m);
            &&& r is Ok
            &&& answered(after, SIOCGIFFLAGS, ask) == Ok::<RequestModel, SyscallErr>(
                ask.with_data(0, bytes::le16(bytes::u16_le_at(m.data, 0))),
            )
            &&& target(after, ask)->0.flags / 0x10000 == target(devs, m)->0.flags / 0x10000
        }),
{
    let d = target(devs, m)->0;
    let low = bytes::u16_le_at(m.data, 0);
    lemma_told_is_found(
        devs,
        m,
        ask,
        DeviceModel { flags: (d.flags / 0x10000 * 0x10000 + low) as u32, ..d },
    );
}

/// An interface that was told the size of its largest packet reports it.
pub proof fn law_mtu_is_read_back(devs: Seq<DeviceModel>, m: RequestModel, ask: RequestModel)
    requires
        net_core::ordered(devs),
        m.wf(),
        ask.text() == m.text(),
        target(devs, m) is Some,
    ensures
        ({
            let (after, r) = told(devs, SIOCSIFMTU, m);
            &&& r is Ok
            &&& answered(after, SIOCGIFMTU, ask) == Ok::<RequestModel, SyscallErr>(
                ask.with_data(0, bytes::le32(bytes::u32_le_at(m.data, 0))),
            )
        }),
{
    let d = target(devs, m)->0;
    let value = bytes::i32_of(bytes::u32_le_at(m.data, 0));
    assert(((value as usize) as i32) == value) by (bit_vector);
    bytes::lemma_i32_roundtrip(value, bytes::u32_le_at(m.data, 0));
    lemma_told_is_found(devs, m, ask, DeviceModel { mtu: value as usize, ..d });
}

} // verus!
