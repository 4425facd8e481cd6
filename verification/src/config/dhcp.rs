//! The address of `eth0`, as DHCP leases it, and what the first stacks start
//! with.
use vstd::prelude::*;
use vstd::string::StringExecFns;
use crate::iface;
use crate::iface::{DeviceKind, DeviceModel, NetDeviceEntry};
use crate::net_core;
use crate::net_core::{NetGlobals, NetNamespace, IFF_BROADCAST, IFF_LOOPBACK, IFF_RUNNING, IFF_UP};
use crate::routing;
use crate::seqs;
use crate::text;
use crate::wire::{IpAddress, IpCidr, Ipv4Address, Ipv6Address};

verus! {

/// A change of the lease.
#[derive(Debug)]
pub enum DhcpLeaseEvent {
    Configured {
        address: Ipv4Address,
        prefix_len: u8,
        router: Option<Ipv4Address>,
        dns_servers: Vec<Ipv4Address>,
    },
    Deconfigured,
}

/// What a [`DhcpLeaseEvent`] says.
#[verifier::ext_equal]
pub enum LeaseModel {
    Configured { cidr: IpCidr, router: Option<Ipv4Address>, dns: Seq<Ipv4Address> },
    Deconfigured,
}

impl View for DhcpLeaseEvent {
    type V = LeaseModel;

    open spec fn view(&self) -> LeaseModel {
        match self {
            DhcpLeaseEvent::Configured { address, prefix_len, router, dns_servers } => {
                LeaseModel::Configured {
                    cidr: IpCidr { address: IpAddress::Ipv4(*address), prefix_len: *prefix_len },
                    router: *router,
                    dns: dns_servers@,
                }
            },
            DhcpLeaseEvent::Deconfigured => LeaseModel::Deconfigured,
        }
    }
}

impl LeaseModel {
    pub open spec fn wf(self) -> bool {
        match self {
            LeaseModel::Configured { cidr, .. } => cidr.wf(),
            LeaseModel::Deconfigured => true,
        }
    }

    pub open spec fn cidr(self) -> Option<IpCidr> {
        match self {
            LeaseModel::Configured { cidr, .. } => Some(cidr),
            LeaseModel::Deconfigured => None,
        }
    }

    pub open spec fn router(self) -> Option<Ipv4Address> {
        match self {
            LeaseModel::Configured { router, .. } => router,
            LeaseModel::Deconfigured => None,
        }
    }

    pub open spec fn dns(self) -> Seq<Ipv4Address> {
        match self {
            LeaseModel::Configured { dns, .. } => dns,
            LeaseModel::Deconfigured => Seq::empty(),
        }
    }
}

pub open spec fn not_v4() -> spec_fn(IpCidr) -> bool {
    |c: IpCidr| !(c.address is Ipv4)
}

/// The addresses of the stack after a change of the lease: the leased one is
/// the only IPv4 address.
pub open spec fn leased_addrs(addrs: Seq<IpCidr>, lease: LeaseModel) -> Seq<IpCidr> {
    match lease.cidr() {
        Some(c) => addrs.filter(not_v4()).push(c),
        None => addrs.filter(not_v4()),
    }
}

/// Without the IPv4 addresses.
fn drop_v4(addrs: &Vec<IpCidr>) -> (r: Vec<IpCidr>)
    ensures
        r@ == addrs@.filter(not_v4()),
{
    let ghost p = not_v4();
    let mut kept: Vec<IpCidr> = Vec::new();
    let mut i: usize = 0;
    proof {
        reveal(Seq::filter);
    }
    while i < addrs.len()
        invariant
            i <= addrs@.len(),
            p == not_v4(),
            kept@ == addrs@.take(i as int).filter(p),
        decreases addrs@.len() - i,
    {
        proof {
            seqs::lemma_filter_step(addrs@, p, i as int);
        }
        match addrs[i].address {
            IpAddress::Ipv4(_) => {},
            IpAddress::Ipv6(_) => {
                kept.push(addrs[i]);
            },
        }
        i += 1;
    }
    assert(addrs@.take(i as int) =~= addrs@);
    kept
}

/// The addresses and the default gateway that the stack of `eth0` has after a
/// change of the lease.
pub fn take_dhcp_event(addrs: &Vec<IpCidr>, event: &DhcpLeaseEvent) -> (r: (
    Vec<IpCidr>,
    Option<Ipv4Address>,
))
    ensures
        r.0@ == leased_addrs(addrs@, event@),
        r.1 == event@.router(),
{
    let mut next = drop_v4(addrs);
    match event {
        DhcpLeaseEvent::Configured { address, prefix_len, router, .. } => {
            next.push(IpCidr { address: IpAddress::Ipv4(*address), prefix_len: *prefix_len });
            (next, *router)
        },
        DhcpLeaseEvent::Deconfigured => (next, None),
    }
}

/// Keeps a change of the lease until it is committed. Only the newest counts:
/// a lease that is lost again is never announced.
pub fn capture_dhcp_event(pending: &mut Option<DhcpLeaseEvent>, event: Option<DhcpLeaseEvent>) -> (r:
    bool)
    ensures
        r == (event is Some),
        *final(pending) == if event is Some {
            event
        } else {
            *old(pending)
        },
{
    match event {
        Some(e) => {
            *pending = Some(e);
            true
        },
        None => false,
    }
}

/// `eth0` without its IPv4 addresses.
pub open spec fn without_eth0_addr(devs: Seq<DeviceModel>) -> Seq<DeviceModel> {
    match seqs::find_first(devs, net_core::named("eth0"@)) {
        Some(d) => net_core::replace_device(
            devs,
            DeviceModel { ip_addrs: d.ip_addrs.filter(not_v4()), ..d },
        ),
        None => devs,
    }
}

/// Records that `eth0` has no lease.
pub fn clear_eth0_ipv4(ns: &mut NetNamespace, globals: &mut NetGlobals)
    requires
        old(ns).wf(),
    ensures
        final(ns).wf(),
        final(ns).devs() == without_eth0_addr(old(ns).devs()),
        final(ns).router == old(ns).router,
        *final(globals) == (NetGlobals { eth0_cidr: None, ..*old(globals) }),
{
    globals.eth0_cidr = None;
    let mut d = match ns.device_by_name("eth0") {
        Some(d) => d.duplicate(),
        None => return,
    };
    let ghost before = d@;
    d.ip_addrs = drop_v4(&d.ip_addrs);
    proof {
        seqs::lemma_found(ns.devs(), net_core::named("eth0"@));
        assert(before.wf());
        seqs::lemma_filter_elements(before.ip_addrs, not_v4());
        assert(d@.wf());
    }
    ns.update_device(d);
}

/// A line of the resolver's configuration.
pub open spec fn nameserver_line(a: Ipv4Address) -> Seq<char> {
    let o = a.octets();
    "nameserver "@ + text::decimal(o[0] as nat) + "."@ + text::decimal(o[1] as nat) + "."@
        + text::decimal(o[2] as nat) + "."@ + text::decimal(o[3] as nat) + "\n"@
}

pub open spec fn nameserver_lines(dns: Seq<Ipv4Address>) -> Seq<char>
    decreases dns.len(),
{
    if dns.len() == 0 {
        Seq::empty()
    } else {
        nameserver_lines(dns.drop_last()) + nameserver_line(dns.last())
    }
}

/// The resolver's configuration for a lease.
pub open spec fn resolv_conf(dns: Seq<Ipv4Address>) -> Seq<char> {
    if dns.len() == 0 {
        "# no DHCP nameserver\n"@
    } else {
        nameserver_lines(dns)
    }
}

/// The text of the resolver's configuration.
pub fn write_resolv_conf(dns_servers: &Vec<Ipv4Address>) -> (r: String)
    ensures
        r@ == resolv_conf(dns_servers@),
{
    if dns_servers.len() == 0 {
        return "# no DHCP nameserver\n".to_owned();
    }
    let mut out = String::new();
    let mut i: usize = 0;
    assert(dns_servers@.take(0) =~= Seq::<Ipv4Address>::empty());
    while i < dns_servers.len()
        invariant
            i <= dns_servers@.len(),
            out@ == nameserver_lines(dns_servers@.take(i as int)),
        decreases dns_servers@.len() - i,
    {
        let ghost before = out@;
        let a = dns_servers[i];
        let o = a.to_octets();
        out.append("nameserver ");
        text::push_decimal(&mut out, o[0] as u64);
        out.append(".");
        text::push_decimal(&mut out, o[1] as u64);
        out.append(".");
        text::push_decimal(&mut out, o[2] as u64);
        out.append(".");
        text::push_decimal(&mut out, o[3] as u64);
        out.append("\n");
        proof {
            assert(dns_servers@.take(i + 1).drop_last() =~= dns_servers@.take(i as int));
            assert(dns_servers@.take(i + 1).last() == a);
            assert(out@ =~= before + nameserver_line(a));
        }
        i += 1;
    }
    assert(dns_servers@.take(i as int) =~= dns_servers@);
    out
}

/// Announces a change of the lease: to the interface, to the routes, to the
/// resolver. Returns the resolver's configuration.
pub fn commit_dhcp_event(
    ns: &mut NetNamespace,
    globals: &mut NetGlobals,
    dns_servers: &mut Vec<Ipv4Address>,
    ifindex: u32,
    event: DhcpLeaseEvent,
) -> (r: String)
    requires
        old(ns).wf(),
        event@.wf(),
    ensures
        final(ns).wf(),
        final(ns).devs() == match event@.cidr() {
            Some(c) => net_core::with_eth0_addr(old(ns).devs(), c),
            None => without_eth0_addr(old(ns).devs()),
        },
        final(ns).router.table.entries@ == old(ns).router.table.entries@.filter(
            routing::not_leased(ifindex),
        ) + routing::lease_routes(event@.cidr(), event@.router(), ifindex),
        *final(globals) == (NetGlobals {
            eth0_cidr: event@.cidr(),
            default_gw: event@.router(),
            ..*old(globals)
        }),
        final(dns_servers)@ == event@.dns(),
        r@ == resolv_conf(event@.dns()),
{
    match event {
        DhcpLeaseEvent::Configured { address, prefix_len, router, dns_servers: dns } => {
            let cidr = IpCidr { address: IpAddress::Ipv4(address), prefix_len };
            net_core::set_eth0_ipv4(ns, globals, cidr);
            globals.set_default_gateway(router);
            ns.router.replace_dhcp_ipv4(ifindex, Some(cidr), router);
            *dns_servers = dns;
        },
        DhcpLeaseEvent::Deconfigured => {
            clear_eth0_ipv4(ns, globals);
            globals.set_default_gateway(None);
            ns.router.replace_dhcp_ipv4(ifindex, None, None);
            *dns_servers = Vec::new();
        },
    }
    write_resolv_conf(dns_servers)
}

/// What a stack starts with.
pub struct StackConfig {
    pub nic: NetDeviceEntry,
    pub ifindex: u32,
    /// The hardware address, on Ethernet.
    pub mac: Option<[u8; 6]>,
    pub addrs: Vec<IpCidr>,
    pub gateway: Option<Ipv4Address>,
    pub dhcp: bool,
}

/// What a [`StackConfig`] says.
#[verifier::ext_equal]
pub struct ConfigModel {
    pub nic: DeviceModel,
    pub ifindex: u32,
    pub mac: Option<Seq<u8>>,
    pub addrs: Seq<IpCidr>,
    pub gateway: Option<Ipv4Address>,
    pub dhcp: bool,
}

impl View for StackConfig {
    type V = ConfigModel;

    open spec fn view(&self) -> ConfigModel {
        ConfigModel {
            nic: self.nic@,
            ifindex: self.ifindex,
            mac: match self.mac {
                Some(m) => Some(m@),
                None => None,
            },
            addrs: self.addrs@,
            gateway: self.gateway,
            dhcp: self.dhcp,
        }
    }
}

/// The stack of the loopback interface.
pub open spec fn loopback_config(devs: Seq<DeviceModel>) -> ConfigModel {
    ConfigModel {
        nic: match seqs::find_first(devs, net_core::named("lo"@)) {
            Some(d) => d,
            None => net_core::lo_model(),
        },
        ifindex: 1,
        mac: None,
        addrs: net_core::lo_model().ip_addrs,
        gateway: None,
        dhcp: false,
    }
}

/// `eth0`, where it is not registered.
pub open spec fn absent_eth0() -> DeviceModel {
    DeviceModel {
        nic_id: 2,
        name: "eth0"@,
        flags: (IFF_UP + IFF_BROADCAST) as u32,
        mtu: 1500,
        ip_addrs: Seq::empty(),
        hwaddr: seq![0u8, 0, 0, 0, 0, 0],
        kind: DeviceKind::Ethernet,
        peer_ifindex: None,
        operstate: 0,
    }
}

/// The stack of the network card: it asks DHCP for an address, if there is a
/// card.
pub open spec fn ethernet_config(
    devs: Seq<DeviceModel>,
    globals: NetGlobals,
    nic_mac: Option<Seq<u8>>,
) -> ConfigModel {
    ConfigModel {
        nic: match seqs::find_first(devs, net_core::named("eth0"@)) {
            Some(d) => d,
            None => absent_eth0(),
        },
        ifindex: 2,
        mac: match nic_mac {
            Some(m) => Some(m),
            None => Some(seq![2u8, 0, 0, 0, 0, 1]),
        },
        addrs: match seqs::find_first(devs, net_core::indexed(2)) {
            Some(d) => d.ip_addrs,
            None => Seq::empty(),
        },
        gateway: globals.default_gw,
        dhcp: nic_mac is Some,
    }
}

/// What the stack of the loopback interface starts with.
pub fn loopback_stack(ns: &NetNamespace) -> (r: StackConfig)
    ensures
        r@ == loopback_config(ns.devs()),
{
    let v4 = IpCidr::new(IpAddress::Ipv4(Ipv4Address { bits: 0x7f00_0001 }), 8);
    let v6 = IpCidr::new(IpAddress::Ipv6(Ipv6Address { bits: 1 }), 128);
    let mut addrs: Vec<IpCidr> = Vec::new();
    addrs.push(v4);
    addrs.push(v6);
    assert(addrs@ =~= net_core::lo_model().ip_addrs);
    let nic = match ns.device_by_name("lo") {
        Some(d) => d.duplicate(),
        None => {
            let mut lo = NetDeviceEntry::new(
                "lo".to_owned(),
                DeviceKind::Loopback,
                [0u8, 0, 0, 0, 0, 0],
                65536,
                IFF_UP + IFF_LOOPBACK + IFF_RUNNING,
                iface::copy_cidrs(&addrs),
                None,
                6,
            );
            lo.set_nic_id(1);
            assert(lo@ =~= net_core::lo_model());
            lo
        },
    };
    StackConfig { nic, ifindex: 1, mac: None, addrs, gateway: None, dhcp: false }
}

/// What the stack of the network card starts with. `nic_mac` is the address of
/// the card, if there is one.
pub fn ethernet_stack(ns: &NetNamespace, globals: &NetGlobals, nic_mac: Option<[u8; 6]>) -> (r:
    StackConfig)
    ensures
        r@ == ethernet_config(
            ns.devs(),
            *globals,
            match nic_mac {
                Some(m) => Some(m@),
                None => None,
            },
        ),
{
    let nic = match ns.device_by_name("eth0") {
        Some(d) => d.duplicate(),
        None => {
            let mut eth = NetDeviceEntry::new(
                "eth0".to_owned(),
                DeviceKind::Ethernet,
                [0u8, 0, 0, 0, 0, 0],
                1500,
                IFF_UP + IFF_BROADCAST,
                Vec::new(),
                None,
                0,
            );
            eth.set_nic_id(2);
            assert(eth@ =~= absent_eth0());
            eth
        },
    };
    let addrs: Vec<IpCidr> = match ns.device_by_index(2) {
        Some(d) => iface::copy_cidrs(&d.ip_addrs),
        None => Vec::new(),
    };
    let null_mac: [u8; 6] = [2, 0, 0, 0, 0, 1];
    assert(null_mac@ =~= seq![2u8, 0, 0, 0, 0, 1]);
    let mac = match nic_mac {
        Some(m) => m,
        None => null_mac,
    };
    StackConfig {
        nic,
        ifindex: 2,
        mac: Some(mac),
        addrs,
        gateway: globals.default_gateway(),
        dhcp: nic_mac.is_some(),
    }
}

/// A lease that is lost leaves no trace: neither an address of `eth0`, nor a
/// route, nor a gateway.
pub proof fn law_lost_lease_leaves_nothing(devs: Seq<DeviceModel>, d: DeviceModel, i: int)
    requires
        seqs::find_first(devs, net_core::named("eth0"@)) == Some(d),
        net_core::ordered(devs),
        0 <= i < devs.len(),
        devs[i] == d,
    ensures
        ({
            let after = without_eth0_addr(devs)[i];
            &&& forall|k: int|
                0 <= k < after.ip_addrs.len() ==> !((#[trigger] after.ip_addrs[k]).address is Ipv4)
            &&& LeaseModel::Deconfigured.router() is None
            &&& routing::lease_routes(
                LeaseModel::Deconfigured.cidr(),
                LeaseModel::Deconfigured.router(),
                d.nic_id,
            ).len() == 0
        }),
{
    seqs::lemma_filter_elements(d.ip_addrs, not_v4());
}

} // verus!
