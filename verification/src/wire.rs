//! IP addresses, blocks and endpoints.
//!
//! An address is kept as the number its octets spell in network order, so that
//! prefixes are quotients and equality is equality of numbers. The values stand
//! for the address types of `smoltcp::wire`; the operations on prefixes go
//! through that crate.
use vstd::prelude::*;
use vstd::arithmetic::power2;
use crate::bytes;

verus! {

/// An IPv4 address, as the number its four octets spell.
#[derive(Clone, Copy, Debug, PartialEq, Eq, Structural)]
pub struct Ipv4Address {
    pub bits: u32,
}

/// An IPv6 address, as the number its sixteen octets spell.
#[derive(Clone, Copy, Debug, PartialEq, Eq, Structural)]
pub struct Ipv6Address {
    pub bits: u128,
}

/// Which version of the protocol a socket speaks.
#[derive(Clone, Copy, Debug, PartialEq, Eq, Structural)]
pub enum IpVersion {
    Ipv4,
    Ipv6,
}

#[derive(Clone, Copy, Debug, PartialEq, Eq, Structural)]
pub enum IpAddress {
    Ipv4(Ipv4Address),
    Ipv6(Ipv6Address),
}

/// An address and the length of its network prefix.
#[derive(Clone, Copy, Debug, PartialEq, Eq, Structural)]
pub struct IpCidr {
    pub address: IpAddress,
    pub prefix_len: u8,
}

#[derive(Clone, Copy, Debug, PartialEq, Eq, Structural)]
pub struct IpEndpoint {
    pub addr: IpAddress,
    pub port: u16,
}

/// A local endpoint to listen on; `None` stands for every local address.
#[derive(Clone, Copy, Debug, PartialEq, Eq, Structural)]
pub struct IpListenEndpoint {
    pub addr: Option<IpAddress>,
    pub port: u16,
}

/// A hardware address.
#[derive(Clone, Copy, Debug)]
pub struct EthernetAddress {
    pub octets: [u8; 6],
}

impl Ipv4Address {
    /// The address `a.b.c.d`.
    pub open spec fn of(a: u8, b: u8, c: u8, d: u8) -> Ipv4Address {
        Ipv4Address { bits: (16777216 * a + 65536 * b + 256 * c + d) as u32 }
    }

    /// The octets in network order.
    pub open spec fn octets(self) -> Seq<u8> {
        bytes::be32(self.bits)
    }

    /// The first octet.
    pub open spec fn head(self) -> int {
        self.bits as int / 16777216
    }

    pub fn new(a: u8, b: u8, c: u8, d: u8) -> (r: Ipv4Address)
        ensures
            r == Ipv4Address::of(a, b, c, d),
            r.octets() == seq![a, b, c, d],
    {
        let bits: u32 = 16777216 * a as u32 + 65536 * b as u32 + 256 * c as u32 + d as u32;
        proof {
            bytes::lemma_be32_of_octets(a, b, c, d);
        }
        Ipv4Address { bits }
    }

    /// Whether the address lies in `0.0.0.0/8`.
    pub open spec fn spec_is_unspecified(self) -> bool {
        self.head() == 0
    }

    pub fn is_unspecified(&self) -> (r: bool)
        ensures
            r == self.spec_is_unspecified(),
    {
        self.bits / 16777216 == 0
    }

    /// Whether the address lies in `127.0.0.0/8`.
    pub open spec fn spec_is_loopback(self) -> bool {
        self.head() == 127
    }

    pub fn is_loopback(&self) -> (r: bool)
        ensures
            r == self.spec_is_loopback(),
    {
        self.bits / 16777216 == 127
    }

    /// Whether the address is neither the broadcast address, nor in
    /// `224.0.0.0/4`, nor in `0.0.0.0/8`.
    pub open spec fn spec_is_unicast(self) -> bool {
        &&& self.bits != 0xffff_ffff
        &&& !(224 <= self.head() < 240)
        &&& !self.spec_is_unspecified()
    }

    pub fn is_unicast(&self) -> (r: bool)
        ensures
            r == self.spec_is_unicast(),
    {
        let head: u32 = self.bits / 16777216;
        self.bits != 0xffff_ffff && !(224 <= head && head < 240) && head != 0
    }

    /// The octets in network order, as a vector.
    pub fn to_octets(&self) -> (r: Vec<u8>)
        ensures
            r@ == self.octets(),
            r@.len() == 4,
    {
        let mut out: Vec<u8> = Vec::new();
        bytes::put_u32_be(&mut out, self.bits);
        out
    }

    /// The address whose octets stand in `buf` from `i` on.
    pub fn from_bytes_at(buf: &[u8], i: usize) -> (r: Ipv4Address)
        requires
            i + 4 <= buf@.len(),
        ensures
            r.bits == bytes::u32_be_at(buf@, i as int),
            r == Ipv4Address::of(buf@[i as int], buf@[i + 1], buf@[i + 2], buf@[i + 3]),
            r.octets() == buf@.subrange(i as int, i + 4),
    {
        Ipv4Address::new(buf[i], buf[i + 1], buf[i + 2], buf[i + 3])
    }
}

/// The prefix of addresses that carry an IPv4 address: `::ffff:0:0/96`.
pub const V4_MAPPED_PREFIX: u128 = 0xffff_0000_0000;

impl Ipv6Address {
    /// The octets in network order.
    pub open spec fn octets(self) -> Seq<u8> {
        bytes::be_digits(self.bits as nat, 16)
    }

    /// The address whose octets are `s`.
    pub open spec fn of(s: Seq<u8>) -> Ipv6Address {
        Ipv6Address { bits: bytes::be_value(s) as u128 }
    }

    /// The IPv4 address inside an address of `::ffff:0:0/96`.
    pub open spec fn spec_as_ipv4(self) -> Option<Ipv4Address> {
        if V4_MAPPED_PREFIX <= self.bits <= V4_MAPPED_PREFIX + 0xffff_ffff {
            Some(Ipv4Address { bits: (self.bits - V4_MAPPED_PREFIX) as u32 })
        } else {
            None
        }
    }

    pub fn as_ipv4(&self) -> (r: Option<Ipv4Address>)
        ensures
            r == self.spec_as_ipv4(),
    {
        if V4_MAPPED_PREFIX <= self.bits && self.bits <= V4_MAPPED_PREFIX + 0xffff_ffff {
            Some(Ipv4Address { bits: (self.bits - V4_MAPPED_PREFIX) as u32 })
        } else {
            None
        }
    }

    /// Whether the address is neither unspecified nor in `ff00::/8`.
    pub open spec fn spec_is_unicast(self) -> bool {
        self.bits != 0 && self.bits < 0xff00_0000_0000_0000_0000_0000_0000_0000u128
    }

    pub fn is_unicast(&self) -> (r: bool)
        ensures
            r == self.spec_is_unicast(),
    {
        self.bits != 0 && self.bits < 0xff00_0000_0000_0000_0000_0000_0000_0000u128
    }

    /// The octets in network order, as a vector.
    pub fn to_octets(&self) -> (r: Vec<u8>)
        ensures
            r@ == self.octets(),
            r@.len() == 16,
    {
        let mut low_first: Vec<u8> = Vec::new();
        let mut rest: u128 = self.bits;
        let mut n: usize = 0;
        while n < 16
            invariant
                n <= 16,
                low_first@.len() == n,
                self.octets() =~= bytes::be_digits(rest as nat, (16 - n) as nat)
                    + low_first@.reverse(),
            decreases 16 - n,
        {
            let ghost before = low_first@;
            let ghost old_rest = rest;
            let ghost old_n = n;
            low_first.push((rest % 256) as u8);
            rest = rest / 256;
            n = n + 1;
            proof {
                let k = (16 - old_n) as nat;
                assert(bytes::be_digits(old_rest as nat, k) == bytes::be_digits(
                    old_rest as nat / 256,
                    (k - 1) as nat,
                ).push((old_rest as nat % 256) as u8));
                assert(low_first@.reverse() =~= seq![(old_rest % 256) as u8] + before.reverse());
            }
        }
        let mut out: Vec<u8> = Vec::new();
        let mut i: usize = 16;
        while i > 0
            invariant
                i <= 16,
                low_first@.len() == 16,
                out@ =~= low_first@.reverse().take(16 - i),
            decreases i,
        {
            i = i - 1;
            out.push(low_first[i]);
        }
        proof {
            assert(bytes::be_digits(rest as nat, 0) =~= Seq::<u8>::empty());
            assert(out@ =~= low_first@.reverse());
        }
        out
    }

    /// The address whose octets stand in `buf` from `i` on.
    pub fn from_bytes_at(buf: &[u8], i: usize) -> (r: Ipv6Address)
        requires
            i + 16 <= buf@.len(),
        ensures
            r.bits == bytes::be_value(buf@.subrange(i as int, i + 16)),
            r == Ipv6Address::of(buf@.subrange(i as int, i + 16)),
            r.octets() == buf@.subrange(i as int, i + 16),
    {
        let n: usize = buf.len();
        let mut v: u128 = 0;
        let mut k: usize = 0;
        while k < 16
            invariant
                k <= 16,
                i + 16 <= n == buf@.len(),
                v == bytes::be_value(buf@.subrange(i as int, i + k)),
            decreases 16 - k,
        {
            proof {
                let part = buf@.subrange(i as int, i + k + 1);
                assert(part.drop_last() =~= buf@.subrange(i as int, i + k));
                assert(part.last() == buf@[i + k]);
                bytes::lemma_be_value_bound(part);
                lemma_pow256_16(part.len());
            }
            v = 256 * v + buf[i + k] as u128;
            k = k + 1;
        }
        proof {
            bytes::lemma_be_digits_of_value(buf@.subrange(i as int, i + 16));
        }
        Ipv6Address { bits: v }
    }
}

/// Sixteen octets fit in 128 bits.
pub proof fn lemma_pow256_16(n: nat)
    requires
        n <= 16,
    ensures
        bytes::pow256(n) <= 0x1_0000_0000_0000_0000_0000_0000_0000_0000,
{
    reveal_with_fuel(bytes::pow256, 17);
}

/// An address is known by its octets.
pub proof fn lemma_v6_octets(a: Ipv6Address)
    ensures
        a.octets().len() == 16,
        Ipv6Address::of(a.octets()) == a,
{
    reveal_with_fuel(bytes::pow256, 17);
    bytes::lemma_be_value_of_digits(a.bits as nat, 16);
}

/// An address is known by its octets.
pub proof fn lemma_v4_octets(a: Ipv4Address)
    ensures
        a.octets().len() == 4,
        bytes::u32_be_at(a.octets(), 0) == a.bits,
{
}

impl IpAddress {
    pub open spec fn spec_version(self) -> IpVersion {
        match self {
            IpAddress::Ipv4(_) => IpVersion::Ipv4,
            IpAddress::Ipv6(_) => IpVersion::Ipv6,
        }
    }

    pub fn version(&self) -> (r: IpVersion)
        ensures
            r == self.spec_version(),
    {
        match self {
            IpAddress::Ipv4(_) => IpVersion::Ipv4,
            IpAddress::Ipv6(_) => IpVersion::Ipv6,
        }
    }

    /// The all-zero address of a family.
    pub open spec fn spec_unspecified(ver: IpVersion) -> IpAddress {
        match ver {
            IpVersion::Ipv4 => IpAddress::Ipv4(Ipv4Address { bits: 0 }),
            IpVersion::Ipv6 => IpAddress::Ipv6(Ipv6Address { bits: 0 }),
        }
    }

    pub fn unspecified(ver: IpVersion) -> (r: IpAddress)
        ensures
            r == IpAddress::spec_unspecified(ver),
    {
        match ver {
            IpVersion::Ipv4 => IpAddress::Ipv4(Ipv4Address { bits: 0 }),
            IpVersion::Ipv6 => IpAddress::Ipv6(Ipv6Address { bits: 0 }),
        }
    }

    /// `127.0.0.1` or `::1`.
    pub open spec fn spec_localhost(ver: IpVersion) -> IpAddress {
        match ver {
            IpVersion::Ipv4 => IpAddress::Ipv4(Ipv4Address { bits: 0x7f00_0001 }),
            IpVersion::Ipv6 => IpAddress::Ipv6(Ipv6Address { bits: 1 }),
        }
    }

    pub fn localhost(ver: IpVersion) -> (r: IpAddress)
        ensures
            r == IpAddress::spec_localhost(ver),
    {
        match ver {
            IpVersion::Ipv4 => IpAddress::Ipv4(Ipv4Address { bits: 0x7f00_0001 }),
            IpVersion::Ipv6 => IpAddress::Ipv6(Ipv6Address { bits: 1 }),
        }
    }

    pub open spec fn spec_v4(a: u8, b: u8, c: u8, d: u8) -> IpAddress {
        IpAddress::Ipv4(Ipv4Address::of(a, b, c, d))
    }

    pub fn v4(a: u8, b: u8, c: u8, d: u8) -> (r: IpAddress)
        ensures
            r == IpAddress::spec_v4(a, b, c, d),
    {
        IpAddress::Ipv4(Ipv4Address::new(a, b, c, d))
    }

    pub open spec fn spec_is_unspecified(self) -> bool {
        match self {
            IpAddress::Ipv4(a) => a.spec_is_unspecified(),
            IpAddress::Ipv6(a) => a.bits == 0,
        }
    }

    pub fn is_unspecified(&self) -> (r: bool)
        ensures
            r == self.spec_is_unspecified(),
    {
        match self {
            IpAddress::Ipv4(a) => a.is_unspecified(),
            IpAddress::Ipv6(a) => a.bits == 0,
        }
    }

    /// Whether the address is in `127.0.0.0/8` or is `::1`.
    pub open spec fn spec_is_loopback(self) -> bool {
        match self {
            IpAddress::Ipv4(a) => a.spec_is_loopback(),
            IpAddress::Ipv6(a) => a.bits == 1,
        }
    }

    pub fn is_loopback(&self) -> (r: bool)
        ensures
            r == self.spec_is_loopback(),
    {
        match self {
            IpAddress::Ipv4(a) => a.is_loopback(),
            IpAddress::Ipv6(a) => a.bits == 1,
        }
    }

    pub open spec fn spec_is_unicast(self) -> bool {
        match self {
            IpAddress::Ipv4(a) => a.spec_is_unicast(),
            IpAddress::Ipv6(a) => a.spec_is_unicast(),
        }
    }

    pub fn is_unicast(&self) -> (r: bool)
        ensures
            r == self.spec_is_unicast(),
    {
        match self {
            IpAddress::Ipv4(a) => a.is_unicast(),
            IpAddress::Ipv6(a) => a.is_unicast(),
        }
    }

    /// The IPv4 address for an IPv6 address that carries one, else the address.
    pub open spec fn spec_unmapped(self) -> IpAddress {
        match self {
            IpAddress::Ipv4(_) => self,
            IpAddress::Ipv6(a) => match a.spec_as_ipv4() {
                Some(v4) => IpAddress::Ipv4(v4),
                None => self,
            },
        }
    }

    pub fn unmapped(self) -> (r: IpAddress)
        ensures
            r == self.spec_unmapped(),
    {
        match self {
            IpAddress::Ipv4(_) => self,
            IpAddress::Ipv6(a) => match a.as_ipv4() {
                Some(v4) => IpAddress::Ipv4(v4),
                None => self,
            },
        }
    }

    /// The octets in network order.
    pub open spec fn octets(self) -> Seq<u8> {
        match self {
            IpAddress::Ipv4(a) => a.octets(),
            IpAddress::Ipv6(a) => a.octets(),
        }
    }

    pub fn to_octets(&self) -> (r: Vec<u8>)
        ensures
            r@ == self.octets(),
            r@.len() == if self is Ipv4 {
                4int
            } else {
                16
            },
    {
        match self {
            IpAddress::Ipv4(a) => a.to_octets(),
            IpAddress::Ipv6(a) => a.to_octets(),
        }
    }

    /// The number of bits in an address of the family.
    pub open spec fn width(self) -> int {
        match self {
            IpAddress::Ipv4(_) => 32,
            IpAddress::Ipv6(_) => 128,
        }
    }

    /// The number that the octets spell.
    pub open spec fn number(self) -> int {
        match self {
            IpAddress::Ipv4(a) => a.bits as int,
            IpAddress::Ipv6(a) => a.bits as int,
        }
    }
}

impl IpEndpoint {
    pub fn new(addr: IpAddress, port: u16) -> (r: IpEndpoint)
        ensures
            r == (IpEndpoint { addr, port }),
    {
        IpEndpoint { addr, port }
    }
}

impl EthernetAddress {
    /// The address whose octets stand in `buf` from `i` on.
    pub fn from_bytes_at(buf: &[u8], i: usize) -> (r: EthernetAddress)
        requires
            i + 6 <= buf@.len(),
        ensures
            r.octets@ == buf@.subrange(i as int, i + 6),
    {
        let r = EthernetAddress {
            octets: [buf[i], buf[i + 1], buf[i + 2], buf[i + 3], buf[i + 4], buf[i + 5]],
        };
        assert(r.octets@ =~= buf@.subrange(i as int, i + 6));
        r
    }
}

impl IpCidr {
    /// A block whose prefix is no longer than its address.
    pub open spec fn wf(self) -> bool {
        self.prefix_len <= self.address.width()
    }

    /// The number of bits behind the prefix.
    pub open spec fn host_bits(self) -> nat {
        (self.address.width() - self.prefix_len) as nat
    }

    /// Whether `addr` is of the block's family and starts with the block's prefix.
    pub open spec fn contains(self, addr: IpAddress) -> bool {
        &&& addr.spec_version() == self.address.spec_version()
        &&& addr.number() / power2::pow2(self.host_bits()) as int == self.address.number() / power2::pow2(
            self.host_bits(),
        ) as int
    }

    /// The block with the bits behind the prefix cleared.
    pub open spec fn spec_network(self) -> IpCidr {
        let unit = power2::pow2(self.host_bits()) as int;
        IpCidr {
            address: match self.address {
                IpAddress::Ipv4(a) => IpAddress::Ipv4(
                    Ipv4Address { bits: (a.bits as int / unit * unit) as u32 },
                ),
                IpAddress::Ipv6(a) => IpAddress::Ipv6(
                    Ipv6Address { bits: (a.bits as int / unit * unit) as u128 },
                ),
            },
            prefix_len: self.prefix_len,
        }
    }

    pub fn new(address: IpAddress, prefix_len: u8) -> (r: IpCidr)
        requires
            prefix_len <= address.width(),
        ensures
            r == (IpCidr { address, prefix_len }),
            r.wf(),
    {
        IpCidr { address, prefix_len }
    }
}

/// `IpCidr::contains_addr` of smoltcp: an IPv4 address is held by the block
/// when both agree once shifted right by the bits behind the prefix, an IPv6
/// address when both agree once masked to the prefix; addresses of the other
/// family are not held. The crate refuses longer prefixes than the address.
#[verifier::external_body]
pub(crate) fn cidr_contains_addr(cidr: IpCidr, addr: IpAddress) -> (r: bool)
    requires
        cidr.wf(),
    ensures
        r == cidr.contains(addr),
{
    let base = match cidr.address {
        IpAddress::Ipv4(a) => smoltcp::wire::IpAddress::Ipv4(smoltcp::wire::Ipv4Address(a.bits.to_be_bytes())),
        IpAddress::Ipv6(a) => smoltcp::wire::IpAddress::Ipv6(smoltcp::wire::Ipv6Address(a.bits.to_be_bytes())),
    };
    let other = match addr {
        IpAddress::Ipv4(a) => smoltcp::wire::IpAddress::Ipv4(smoltcp::wire::Ipv4Address(a.bits.to_be_bytes())),
        IpAddress::Ipv6(a) => smoltcp::wire::IpAddress::Ipv6(smoltcp::wire::Ipv6Address(a.bits.to_be_bytes())),
    };
    smoltcp::wire::IpCidr::new(base, cidr.prefix_len).contains_addr(&other)
}

/// `Ipv4Cidr::network` of smoltcp: the block of the same prefix length whose
/// address has the bits behind the prefix cleared.
#[verifier::external_body]
pub(crate) fn ipv4_cidr_network(address: Ipv4Address, prefix_len: u8) -> (r: Ipv4Address)
    requires
        prefix_len <= 32,
    ensures
        IpAddress::Ipv4(r) == (IpCidr { address: IpAddress::Ipv4(address), prefix_len }).spec_network().address,
{
    let cidr = smoltcp::wire::Ipv4Cidr::new(smoltcp::wire::Ipv4Address(address.bits.to_be_bytes()), prefix_len);
    Ipv4Address { bits: u32::from_be_bytes(cidr.network().address().0) }
}

/// A block holds the address it is written with, and holds every address of
/// its family when the prefix is empty.
pub proof fn law_cidr_holds_its_address(cidr: IpCidr, other: IpAddress)
    requires
        cidr.wf(),
        other.spec_version() == cidr.address.spec_version(),
    ensures
        cidr.contains(cidr.address),
        cidr.prefix_len == 0 ==> cidr.contains(other),
{
    if cidr.prefix_len == 0 {
        lemma_pow2_width();
        let unit = power2::pow2(cidr.host_bits()) as int;
        vstd::arithmetic::div_mod::lemma_basic_div(other.number(), unit);
        vstd::arithmetic::div_mod::lemma_basic_div(cidr.address.number(), unit);
    }
}

pub proof fn lemma_pow2_width()
    ensures
        power2::pow2(32) == 0x1_0000_0000,
        power2::pow2(128) == 0x1_0000_0000_0000_0000_0000_0000_0000_0000,
        power2::pow2(0) == 1,
{
    power2::lemma2_to64();
    power2::lemma2_to64_rest();
    power2::lemma_pow2_adds(64, 64);
}

} // verus!
