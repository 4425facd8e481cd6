//! `sockaddr_in` and `sockaddr_in6`.
use vstd::prelude::*;
use crate::bytes;
use crate::error::SyscallErr;
use crate::socket::{AF_INET, AF_INET6, SockaddrOut};
use crate::wire::{IpAddress, IpEndpoint, IpListenEndpoint, IpVersion, Ipv4Address, Ipv6Address};

verus! {

/// The fields of a `sockaddr_in` behind the family.
#[derive(Debug, Clone, Copy)]
pub struct SocketAddrv4 {
    pub sin_port: [u8; 2],
    pub sin_addr: [u8; 4],
    pub sin_zero: [u8; 8],
}

/// The fields of a `sockaddr_in6` behind the family.
#[derive(Debug, Clone, Copy)]
pub struct SocketAddrv6 {
    pub sin6_port: [u8; 2],
    pub sin6_flowinfo: [u8; 4],
    pub sin6_addr: [u8; 16],
}

pub open spec fn zero_bytes(n: int) -> Seq<u8> {
    Seq::new(n as nat, |i: int| 0u8)
}

impl SocketAddrv4 {
    /// The sixteen bytes of the structure.
    pub open spec fn wire(self) -> Seq<u8> {
        bytes::le16(AF_INET) + self.sin_port@ + self.sin_addr@ + self.sin_zero@
    }

    /// Reads port and address of a `sockaddr_in`.
    pub fn new(buf: &[u8]) -> (r: SocketAddrv4)
        requires
            buf@.len() >= 8,
        ensures
            r.sin_port@ == buf@.subrange(2, 4),
            r.sin_addr@ == buf@.subrange(4, 8),
            r.sin_zero@ == zero_bytes(8),
    {
        let r = SocketAddrv4 {
            sin_port: [buf[2], buf[3]],
            sin_addr: [buf[4], buf[5], buf[6], buf[7]],
            sin_zero: [0, 0, 0, 0, 0, 0, 0, 0],
        };
        assert(r.sin_port@ =~= buf@.subrange(2, 4));
        assert(r.sin_addr@ =~= buf@.subrange(4, 8));
        assert(r.sin_zero@ =~= zero_bytes(8));
        r
    }

    /// Writes the structure; what lies behind it in the buffer becomes zero.
    pub fn fill(&self, addr_buf: &mut [u8])
        requires
            old(addr_buf)@.len() >= 16,
        ensures
            final(addr_buf)@ == self.wire() + zero_bytes(old(addr_buf)@.len() - 16),
    {
        self._fill(addr_buf);
    }

    /// Writes the structure; what lies behind it in the buffer becomes zero.
    pub fn _fill(&self, addr_buf: &mut [u8])
        requires
            old(addr_buf)@.len() >= 16,
        ensures
            final(addr_buf)@ == self.wire() + zero_bytes(old(addr_buf)@.len() - 16),
    {
        fill_zero(addr_buf);
        addr_buf[0] = (AF_INET % 256) as u8;
        addr_buf[1] = (AF_INET / 256) as u8;
        put_at(addr_buf, 2, &self.sin_port);
        put_at(addr_buf, 4, &self.sin_addr);
        put_at(addr_buf, 8, &self.sin_zero);
        assert(addr_buf@ =~= self.wire() + zero_bytes(old(addr_buf)@.len() - 16));
    }

    /// The structure that describes an IPv4 endpoint.
    pub fn from_endpoint(value: IpEndpoint) -> (r: SocketAddrv4)
        requires
            value.addr is Ipv4,
        ensures
            r.sin_port@ == bytes::be16(value.port),
            r.sin_addr@ == value.addr.octets(),
            r.sin_zero@ == zero_bytes(8),
    {
        let o = value.addr.to_octets();
        assert(o@.len() == 4);
        let r = SocketAddrv4 {
            sin_port: [(value.port / 256) as u8, (value.port % 256) as u8],
            sin_addr: [o[0], o[1], o[2], o[3]],
            sin_zero: [0, 0, 0, 0, 0, 0, 0, 0],
        };
        assert(r.sin_port@ =~= bytes::be16(value.port));
        assert(r.sin_addr@ =~= o@);
        assert(r.sin_zero@ =~= zero_bytes(8));
        r
    }

    /// The endpoint that the structure describes.
    pub open spec fn spec_endpoint(self) -> IpEndpoint {
        IpEndpoint {
            addr: IpAddress::Ipv4(
                Ipv4Address::of(
                    self.sin_addr@[0],
                    self.sin_addr@[1],
                    self.sin_addr@[2],
                    self.sin_addr@[3],
                ),
            ),
            port: bytes::u16_be_at(self.sin_port@, 0),
        }
    }

    /// The endpoint that the structure describes.
    pub fn to_ip_endpoint(&self) -> (r: IpEndpoint)
        ensures
            r == self.spec_endpoint(),
    {
        IpEndpoint {
            addr: IpAddress::Ipv4(
                Ipv4Address::new(
                    self.sin_addr[0],
                    self.sin_addr[1],
                    self.sin_addr[2],
                    self.sin_addr[3],
                ),
            ),
            port: 256 * self.sin_port[0] as u16 + self.sin_port[1] as u16,
        }
    }
}

impl SocketAddrv6 {
    /// The 24 bytes of the structure.
    pub open spec fn wire(self) -> Seq<u8> {
        bytes::le16(AF_INET6) + self.sin6_port@ + self.sin6_flowinfo@ + self.sin6_addr@
    }

    /// Reads port, flow and address of a `sockaddr_in6`.
    pub fn new(buf: &[u8]) -> (r: SocketAddrv6)
        requires
            buf@.len() >= 24,
        ensures
            r.sin6_port@ == buf@.subrange(2, 4),
            r.sin6_flowinfo@ == buf@.subrange(4, 8),
            r.sin6_addr@ == buf@.subrange(8, 24),
    {
        let r = SocketAddrv6 {
            sin6_port: [buf[2], buf[3]],
            sin6_flowinfo: [buf[4], buf[5], buf[6], buf[7]],
            sin6_addr: [
                buf[8],
                buf[9],
                buf[10],
                buf[11],
                buf[12],
                buf[13],
                buf[14],
                buf[15],
                buf[16],
                buf[17],
                buf[18],
                buf[19],
                buf[20],
                buf[21],
                buf[22],
                buf[23],
            ],
        };
        assert(r.sin6_port@ =~= buf@.subrange(2, 4));
        assert(r.sin6_flowinfo@ =~= buf@.subrange(4, 8));
        assert(r.sin6_addr@ =~= buf@.subrange(8, 24));
        r
    }

    /// Writes the structure; what lies behind it in the buffer becomes zero.
    pub fn fill(&self, addr_buf: &mut [u8])
        requires
            old(addr_buf)@.len() >= 24,
        ensures
            final(addr_buf)@ == self.wire() + zero_bytes(old(addr_buf)@.len() - 24),
    {
        self._fill(addr_buf);
    }

    /// Writes the structure; what lies behind it in the buffer becomes zero.
    pub fn _fill(&self, addr_buf: &mut [u8])
        requires
            old(addr_buf)@.len() >= 24,
        ensures
            final(addr_buf)@ == self.wire() + zero_bytes(old(addr_buf)@.len() - 24),
    {
        fill_zero(addr_buf);
        addr_buf[0] = (AF_INET6 % 256) as u8;
        addr_buf[1] = (AF_INET6 / 256) as u8;
        put_at(addr_buf, 2, &self.sin6_port);
        put_at(addr_buf, 4, &self.sin6_flowinfo);
        put_at(addr_buf, 8, &self.sin6_addr);
        assert(addr_buf@ =~= self.wire() + zero_bytes(old(addr_buf)@.len() - 24));
    }

    /// The structure that describes an IPv6 endpoint.
    pub fn from_endpoint(value: IpEndpoint) -> (r: SocketAddrv6)
        requires
            value.addr is Ipv6,
        ensures
            r.sin6_port@ == bytes::be16(value.port),
            r.sin6_flowinfo@ == zero_bytes(4),
            r.sin6_addr@ == value.addr.octets(),
    {
        let o = value.addr.to_octets();
        proof {
            bytes::lemma_be_digits_len(value.addr->Ipv6_0.bits as nat, 16);
        }
        assert(o@.len() == 16);
        let r = SocketAddrv6 {
            sin6_port: [(value.port / 256) as u8, (value.port % 256) as u8],
            sin6_flowinfo: [0, 0, 0, 0],
            sin6_addr: [
                o[0],
                o[1],
                o[2],
                o[3],
                o[4],
                o[5],
                o[6],
                o[7],
                o[8],
                o[9],
                o[10],
                o[11],
                o[12],
                o[13],
                o[14],
                o[15],
            ],
        };
        assert(r.sin6_port@ =~= bytes::be16(value.port));
        assert(r.sin6_flowinfo@ =~= zero_bytes(4));
        assert(r.sin6_addr@ =~= o@);
        r
    }

    /// The endpoint that the structure describes.
    pub open spec fn spec_endpoint(self) -> IpEndpoint {
        IpEndpoint {
            addr: IpAddress::Ipv6(Ipv6Address::of(self.sin6_addr@)),
            port: bytes::u16_be_at(self.sin6_port@, 0),
        }
    }

    /// The endpoint that the structure describes.
    pub fn to_ip_endpoint(&self) -> (r: IpEndpoint)
        ensures
            r == self.spec_endpoint(),
    {
        let mut o: Vec<u8> = Vec::new();
        let mut i: usize = 0;
        while i < 16
            invariant
                i <= 16,
                self.sin6_addr@.len() == 16,
                o@ =~= self.sin6_addr@.take(i as int),
            decreases 16 - i,
        {
            o.push(self.sin6_addr[i]);
            i = i + 1;
        }
        assert(o@.subrange(0, 16) =~= self.sin6_addr@);
        IpEndpoint {
            addr: IpAddress::Ipv6(Ipv6Address::from_bytes_at(&o, 0)),
            port: 256 * self.sin6_port[0] as u16 + self.sin6_port[1] as u16,
        }
    }
}

fn fill_zero(buf: &mut [u8])
    ensures
        final(buf)@ == zero_bytes(old(buf)@.len() as int),
{
    let ghost n = buf@.len();
    let mut i: usize = 0;
    while i < buf.len()
        invariant
            i <= buf@.len(),
            buf@.len() == n,
            forall|j: int| 0 <= j < i ==> buf@[j] == 0,
        decreases n - i,
    {
        buf[i] = 0;
        i = i + 1;
    }
    assert(buf@ =~= zero_bytes(n as int));
}

fn put_at(buf: &mut [u8], at: usize, src: &[u8])
    requires
        at + src@.len() <= old(buf)@.len(),
    ensures
        final(buf)@ == old(buf)@.take(at as int) + src@ + old(buf)@.skip(at + src@.len()),
{
    let ghost before = buf@;
    let total: usize = buf.len();
    let mut i: usize = 0;
    while i < src.len()
        invariant
            i <= src@.len(),
            at + src@.len() <= before.len(),
            before.len() == total,
            buf@.len() == before.len(),
            buf@ =~= before.take(at as int) + src@.take(i as int) + before.skip(at + i),
        decreases src@.len() - i,
    {
        buf[at + i] = src[i];
        i = i + 1;
    }
    assert(src@.take(i as int) =~= src@);
}

/// An endpoint to listen on: no address and an unspecified one both stand for
/// every local address, and then a port of zero is replaced by `ephemeral`.
pub open spec fn spec_listen(ep: IpEndpoint, ephemeral: u16) -> IpListenEndpoint {
    if ep.addr.spec_is_unspecified() {
        IpListenEndpoint {
            addr: None,
            port: if ep.port != 0 {
                ep.port
            } else {
                ephemeral
            },
        }
    } else {
        IpListenEndpoint { addr: Some(ep.addr), port: ep.port }
    }
}

fn to_listen(ep: IpEndpoint, ephemeral: u16) -> (r: IpListenEndpoint)
    ensures
        r == spec_listen(ep, ephemeral),
{
    if ep.addr.is_unspecified() {
        if ep.port != 0 {
            IpListenEndpoint { addr: None, port: ep.port }
        } else {
            IpListenEndpoint { addr: None, port: ephemeral }
        }
    } else {
        IpListenEndpoint { addr: Some(ep.addr), port: ep.port }
    }
}

/// The endpoint to reach what listens there: `127.0.0.1` for every address and
/// for an unspecified one.
pub open spec fn spec_to_endpoint(listen: IpListenEndpoint) -> IpEndpoint {
    IpEndpoint {
        addr: match listen.addr {
            Some(a) => if a.spec_is_unspecified() {
                IpAddress::spec_localhost(IpVersion::Ipv4)
            } else {
                a
            },
            None => IpAddress::spec_localhost(IpVersion::Ipv4),
        },
        port: listen.port,
    }
}

pub fn to_endpoint(listen_endpoint: IpListenEndpoint) -> (r: IpEndpoint)
    ensures
        r == spec_to_endpoint(listen_endpoint),
{
    _to_endpoint(listen_endpoint)
}

pub fn _to_endpoint(listen_endpoint: IpListenEndpoint) -> (r: IpEndpoint)
    ensures
        r == spec_to_endpoint(listen_endpoint),
{
    let addr = match listen_endpoint.addr {
        Some(a) => {
            if a.is_unspecified() {
                IpAddress::localhost(IpVersion::Ipv4)
            } else {
                a
            }
        },
        None => IpAddress::localhost(IpVersion::Ipv4),
    };
    IpEndpoint::new(addr, listen_endpoint.port)
}

/// Keeps an unspecified address as it is; no address becomes `0.0.0.0`.
pub fn listen_to_ip_endpoint_preserve(listen: IpListenEndpoint) -> (r: IpEndpoint)
    ensures
        r == (IpEndpoint {
            addr: match listen.addr {
                Some(a) => a,
                None => IpAddress::spec_unspecified(IpVersion::Ipv4),
            },
            port: listen.port,
        }),
{
    let addr = match listen.addr {
        Some(a) => a,
        None => IpAddress::unspecified(IpVersion::Ipv4),
    };
    IpEndpoint::new(addr, listen.port)
}

/// The IP endpoint that a `sockaddr` describes.
pub open spec fn sockaddr_ip(buf: Seq<u8>) -> Result<IpEndpoint, SyscallErr> {
    if buf.len() < 2 {
        Err(SyscallErr::EINVAL)
    } else if bytes::u16_le_at(buf, 0) == AF_INET {
        if buf.len() < 8 {
            Err(SyscallErr::EINVAL)
        } else {
            Ok(
                IpEndpoint {
                    addr: IpAddress::Ipv4(Ipv4Address::of(buf[4], buf[5], buf[6], buf[7])),
                    port: bytes::u16_be_at(buf, 2),
                },
            )
        }
    } else if bytes::u16_le_at(buf, 0) == AF_INET6 {
        if buf.len() < 24 {
            Err(SyscallErr::EINVAL)
        } else {
            Ok(
                IpEndpoint {
                    addr: IpAddress::Ipv6(Ipv6Address::of(buf.subrange(8, 24))),
                    port: bytes::u16_be_at(buf, 2),
                },
            )
        }
    } else {
        Err(SyscallErr::EAFNOSUPPORT)
    }
}

/// Parses a `sockaddr` to listen on; see [`spec_listen`].
pub fn listen_endpoint(addr_buf: &[u8], ephemeral: u16) -> (r: Result<IpListenEndpoint, SyscallErr>)
    ensures
        r == match sockaddr_ip(addr_buf@) {
            Ok(ep) => Ok::<IpListenEndpoint, SyscallErr>(spec_listen(ep, ephemeral)),
            Err(e) => Err(e),
        },
{
    _listen_endpoint(addr_buf, ephemeral)
}

pub fn _listen_endpoint(addr_buf: &[u8], ephemeral: u16) -> (r: Result<
    IpListenEndpoint,
    SyscallErr,
>)
    ensures
        r == match sockaddr_ip(addr_buf@) {
            Ok(ep) => Ok::<IpListenEndpoint, SyscallErr>(spec_listen(ep, ephemeral)),
            Err(e) => Err(e),
        },
{
    if addr_buf.len() < 2 {
        return Err(SyscallErr::EINVAL);
    }
    let family: u16 = bytes::get_u16_le(addr_buf, 0);
    if family == AF_INET {
        if addr_buf.len() < 8 {
            return Err(SyscallErr::EINVAL);
        }
        let sa = SocketAddrv4::new(addr_buf);
        Ok(to_listen(sa.to_ip_endpoint(), ephemeral))
    } else if family == AF_INET6 {
        if addr_buf.len() < 24 {
            return Err(SyscallErr::EINVAL);
        }
        let sa = SocketAddrv6::new(addr_buf);
        Ok(to_listen(sa.to_ip_endpoint(), ephemeral))
    } else {
        Err(SyscallErr::EAFNOSUPPORT)
    }
}

/// Parses a `sockaddr` to connect to; every address and an unspecified one
/// become `127.0.0.1`.
pub fn endpoint(addr_buf: &[u8], ephemeral: u16) -> (r: Result<IpEndpoint, SyscallErr>)
    ensures
        r == match sockaddr_ip(addr_buf@) {
            Ok(ep) => Ok::<IpEndpoint, SyscallErr>(spec_to_endpoint(spec_listen(ep, ephemeral))),
            Err(e) => Err(e),
        },
{
    _endpoint(addr_buf, ephemeral)
}

pub fn _endpoint(addr_buf: &[u8], ephemeral: u16) -> (r: Result<IpEndpoint, SyscallErr>)
    ensures
        r == match sockaddr_ip(addr_buf@) {
            Ok(ep) => Ok::<IpEndpoint, SyscallErr>(spec_to_endpoint(spec_listen(ep, ephemeral))),
            Err(e) => Err(e),
        },
{
    match listen_endpoint(addr_buf, ephemeral) {
        Ok(l) => Ok(to_endpoint(l)),
        Err(e) => Err(e),
    }
}

/// Parses the `sockaddr` that was read from user memory.
pub fn read_sockaddr(buf: &[u8], ephemeral: u16) -> (r: Result<IpEndpoint, SyscallErr>)
    ensures
        r == match sockaddr_ip(buf@) {
            Ok(ep) => Ok::<IpEndpoint, SyscallErr>(spec_to_endpoint(spec_listen(ep, ephemeral))),
            Err(e) => Err(e),
        },
{
    endpoint(buf, ephemeral)
}

/// The bytes of the `sockaddr` that describes an IP endpoint.
pub open spec fn ip_sockaddr(ep: IpEndpoint) -> Seq<u8> {
    match ep.addr {
        IpAddress::Ipv4(a) => bytes::le16(AF_INET) + bytes::be16(ep.port) + a.octets() + zero_bytes(8),
        IpAddress::Ipv6(a) => bytes::le16(AF_INET6) + bytes::be16(ep.port) + zero_bytes(4)
            + a.octets(),
    }
}

/// Why nothing can be written to the user's buffer, where that is so.
///
/// `socklen` is what was read at the user's address of the length.
pub open spec fn ip_fill_error(
    ep: IpEndpoint,
    addr: usize,
    addrlen: usize,
    socklen: Option<u32>,
) -> Option<SyscallErr> {
    if addr == 0 || addrlen == 0 || addrlen % 4 != 0 || socklen is None {
        Some(SyscallErr::EFAULT)
    } else if socklen->0 < 2 || socklen->0 >= 0x8000_0000 || socklen->0 < ip_sockaddr(ep).len() {
        Some(SyscallErr::EINVAL)
    } else {
        None
    }
}

/// What is written to the user's buffer for an IP endpoint; the length that is
/// reported is that of the structure.
pub fn fill_with_endpoint(
    endpoint: IpEndpoint,
    addr: usize,
    addrlen: usize,
    socklen: Option<u32>,
) -> (r: Result<SockaddrOut, SyscallErr>)
    ensures
        match r {
            Ok(out) => ip_fill_error(endpoint, addr, addrlen, socklen) is None && out.bytes@
                == ip_sockaddr(endpoint) && out.len == out.bytes@.len(),
            Err(e) => ip_fill_error(endpoint, addr, addrlen, socklen) == Some(e),
        },
{
    _fill_with_endpoint(endpoint, addr, addrlen, socklen)
}

pub fn _fill_with_endpoint(
    endpoint: IpEndpoint,
    addr: usize,
    addrlen: usize,
    socklen: Option<u32>,
) -> (r: Result<SockaddrOut, SyscallErr>)
    ensures
        match r {
            Ok(out) => ip_fill_error(endpoint, addr, addrlen, socklen) is None && out.bytes@
                == ip_sockaddr(endpoint) && out.len == out.bytes@.len(),
            Err(e) => ip_fill_error(endpoint, addr, addrlen, socklen) == Some(e),
        },
{
    proof {
        lemma_ip_sockaddr_len(endpoint);
    }
    if addr == 0 || addrlen == 0 {
        return Err(SyscallErr::EFAULT);
    }
    if addrlen % 4 != 0 {
        return Err(SyscallErr::EFAULT);
    }
    let len: u32 = match socklen {
        Some(l) => l,
        None => return Err(SyscallErr::EFAULT),
    };
    if len < 2 {
        return Err(SyscallErr::EINVAL);
    }
    if len >= 0x8000_0000 {
        return Err(SyscallErr::EINVAL);
    }
    let required: u32 = match endpoint.addr {
        IpAddress::Ipv4(_) => 16,
        IpAddress::Ipv6(_) => 24,
    };
    if len < required {
        return Err(SyscallErr::EINVAL);
    }
    let mut out: Vec<u8> = bytes::zeros(required as usize);
    match endpoint.addr {
        IpAddress::Ipv4(_) => {
            let sa = SocketAddrv4::from_endpoint(endpoint);
            sa.fill(out.as_mut_slice());
            assert(out@ =~= ip_sockaddr(endpoint));
        },
        IpAddress::Ipv6(_) => {
            let sa = SocketAddrv6::from_endpoint(endpoint);
            sa.fill(out.as_mut_slice());
            assert(out@ =~= ip_sockaddr(endpoint));
        },
    }
    Ok(SockaddrOut { bytes: out, len: required })
}

/// Writes an endpoint back to the user; see [`fill_with_endpoint`].
pub fn write_sockaddr(endpoint: IpEndpoint, addr: usize, addrlen: usize, socklen: Option<u32>) -> (r:
    Result<SockaddrOut, SyscallErr>)
    ensures
        match r {
            Ok(out) => ip_fill_error(endpoint, addr, addrlen, socklen) is None && out.bytes@
                == ip_sockaddr(endpoint) && out.len == out.bytes@.len(),
            Err(e) => ip_fill_error(endpoint, addr, addrlen, socklen) == Some(e),
        },
{
    _fill_with_endpoint(endpoint, addr, addrlen, socklen)
}

proof fn lemma_ip_sockaddr_len(ep: IpEndpoint)
    ensures
        ip_sockaddr(ep).len() == match ep.addr {
            IpAddress::Ipv4(_) => 16int,
            IpAddress::Ipv6(_) => 24int,
        },
{
    if let IpAddress::Ipv6(a) = ep.addr {
        bytes::lemma_be_digits_len(a.bits as nat, 16);
    }
}

/// An IP endpoint written as a `sockaddr` is read back as the endpoint.
pub proof fn law_ip_sockaddr_roundtrip(ep: IpEndpoint)
    ensures
        sockaddr_ip(ip_sockaddr(ep)) == Ok::<IpEndpoint, SyscallErr>(ep),
{
    let s = ip_sockaddr(ep);
    lemma_ip_sockaddr_len(ep);
    bytes::lemma_be_roundtrip(ep.port, 0);
    let p = bytes::be16(ep.port);
    assert(s[2] == p[0] && s[3] == p[1]);
    match ep.addr {
        IpAddress::Ipv4(a) => {
            assert(s[0] == 2 && s[1] == 0);
            let o = a.octets();
            assert(s[4] == o[0] && s[5] == o[1] && s[6] == o[2] && s[7] == o[3]);
            crate::wire::lemma_v4_octets(a);
        },
        IpAddress::Ipv6(a) => {
            assert(s[0] == 10 && s[1] == 0);
            crate::wire::lemma_v6_octets(a);
            assert(s.subrange(8, 24) =~= a.octets());
        },
    }
}

} // verus!
