//! What the socket system calls share.
use vstd::prelude::*;
use crate::error::SyscallErr;

verus! {

/// The most bytes of a socket address.
pub const MAX_ADDR_LEN: usize = 512;

pub const SOL_SOCKET: u32 = 1;

pub const SOL_TCP: u32 = 6;

pub const SOL_IP: u32 = 0;

pub const SOL_UDP: u32 = 17;

pub const SOL_IPV6: u32 = 41;

pub const IPV6_V6ONLY: u32 = 26;

pub const SOL_ICMPV6: u32 = 58;

pub const IP_HDRINCL: u32 = 3;

pub const IPV6_RECVPKTINFO: u32 = 49;

pub const IPV6_RECVHOPLIMIT: u32 = 53;

pub const ICMP6_FILTER: u32 = 1;

pub const SOL_RAW: u32 = 255;

pub const IPV6_CHECKSUM: u32 = 7;

pub const TCP_NODELAY: u32 = 1;

pub const TCP_MAXSEG: u32 = 2;

pub const TCP_INFO: u32 = 11;

pub const TCP_CONGESTION: u32 = 13;

pub const IP_RECVERR: u32 = 11;

pub const MCAST_JOIN_GROUP: u32 = 42;

pub const MCAST_LEAVE_GROUP: u32 = 45;

pub const SO_DEBUG: u32 = 1;

pub const SO_REUSEADDR: u32 = 2;

pub const SO_PEERCRED: u32 = 17;

pub const SO_TYPE: u32 = 3;

pub const SO_ERROR: u32 = 4;

pub const SO_DONTROUTE: u32 = 5;

pub const SO_BROADCAST: u32 = 6;

pub const SO_SNDBUF: u32 = 7;

pub const SO_RCVBUF: u32 = 8;

pub const SO_KEEPALIVE: u32 = 9;

pub const SO_OOBINLINE: u32 = 10;

pub const SO_REUSEPORT: u32 = 15;

pub const SO_BINDTODEVICE: u32 = 25;

pub const SO_RCVTIMEO: u32 = 20;

pub const SO_SNDTIMEO: u32 = 21;

/// Whether a level of socket options is known. An unknown option of a known
/// level is answered differently from an unknown level.
pub open spec fn known_level(level: u32) -> bool {
    level == SOL_IP || level == SOL_SOCKET || level == SOL_TCP || level == SOL_IPV6 || level
        == SOL_ICMPV6 || level == SOL_UDP || level == SOL_RAW
}

/// Whether a level of socket options is known.
pub fn is_known_sockopt_level(level: u32) -> (r: bool)
    ensures
        r == known_level(level),
{
    level == SOL_IP || level == SOL_SOCKET || level == SOL_TCP || level == SOL_IPV6 || level
        == SOL_ICMPV6 || level == SOL_UDP || level == SOL_RAW
}

pub const MSG_OOB: u32 = 0x0001;

pub const MSG_PEEK: u32 = 0x0002;

pub const MSG_DONTROUTE: u32 = 0x0004;

pub const MSG_CTRUNC: u32 = 0x0008;

pub const MSG_PROXY: u32 = 0x0010;

pub const MSG_TRUNC: u32 = 0x0020;

pub const MSG_DONTWAIT: u32 = 0x0040;

pub const MSG_EOR: u32 = 0x0080;

pub const MSG_WAITALL: u32 = 0x0100;

pub const MSG_FIN: u32 = 0x0200;

pub const MSG_SYN: u32 = 0x0400;

pub const MSG_CONFIRM: u32 = 0x0800;

pub const MSG_RST: u32 = 0x1000;

pub const MSG_ERRQUEUE: u32 = 0x2000;

pub const MSG_NOSIGNAL: u32 = 0x4000;

pub const MSG_MORE: u32 = 0x8000;

/// Every flag there is.
pub const MSG_KNOWN_BITS: u32 = 0xFFFF;

/// The flags of the calls that send and receive.
#[derive(Clone, Copy, Debug, PartialEq, Eq, Structural)]
pub struct MsgFlags {
    pub bits: u32,
}

impl MsgFlags {
    /// Whether all bits of `flag` are set.
    pub open spec fn has(self, flag: u32) -> bool {
        self.bits & flag == flag
    }

    /// The flags without the bits that mean nothing.
    pub fn from_bits_truncate(bits: u32) -> (r: MsgFlags)
        ensures
            r.bits == bits & MSG_KNOWN_BITS,
    {
        MsgFlags { bits: bits & MSG_KNOWN_BITS }
    }

    pub fn contains(&self, flag: u32) -> (r: bool)
        ensures
            r == self.has(flag),
    {
        self.bits & flag == flag
    }

    /// Checks the flags of a call that receives, and says whether it must not
    /// wait. There is neither urgent data nor a queue of errors.
    pub fn validate_for_recv(self) -> (r: Result<bool, SyscallErr>)
        ensures
            r == if self.has(MSG_OOB) {
                Err::<bool, SyscallErr>(SyscallErr::EINVAL)
            } else if self.has(MSG_ERRQUEUE) {
                Err(SyscallErr::EAGAIN)
            } else {
                Ok(self.has(MSG_DONTWAIT))
            },
    {
        if self.contains(MSG_OOB) {
            Err(SyscallErr::EINVAL)
        } else if self.contains(MSG_ERRQUEUE) {
            Err(SyscallErr::EAGAIN)
        } else {
            Ok(self.contains(MSG_DONTWAIT))
        }
    }

    /// Checks the flags of a call that sends, and says whether it must not
    /// wait.
    pub fn validate_for_send(self) -> (r: Result<bool, SyscallErr>)
        ensures
            r == if self.has(MSG_OOB) || self.has(MSG_ERRQUEUE) {
                Err::<bool, SyscallErr>(SyscallErr::EOPNOTSUPP)
            } else {
                Ok(self.has(MSG_DONTWAIT))
            },
    {
        if self.contains(MSG_OOB) || self.contains(MSG_ERRQUEUE) {
            Err(SyscallErr::EOPNOTSUPP)
        } else {
            Ok(self.contains(MSG_DONTWAIT))
        }
    }
}

/// Checks the length of a socket address.
pub fn check_addrlen(addrlen: u32) -> (r: Result<(), SyscallErr>)
    ensures
        r == if addrlen > MAX_ADDR_LEN {
            Err::<(), SyscallErr>(SyscallErr::EINVAL)
        } else {
            Ok(())
        },
{
    if addrlen > 512 {
        Err(SyscallErr::EINVAL)
    } else {
        Ok(())
    }
}

/// The bytes of a user's socket address, from its place and length and from
/// what copying that many bytes gave: nothing where the memory is not the
/// user's.
pub open spec fn sockaddr_bytes(addr: usize, addrlen: u32, copied: Option<Seq<u8>>) -> Result<
    Seq<u8>,
    SyscallErr,
> {
    if addrlen > MAX_ADDR_LEN {
        Err(SyscallErr::EINVAL)
    } else if addrlen == 0 {
        Ok(Seq::empty())
    } else if addr == 0 {
        Err(SyscallErr::EFAULT)
    } else {
        match copied {
            Some(b) => Ok(b),
            None => Err(SyscallErr::EFAULT),
        }
    }
}

/// The contents of an optional vector.
pub open spec fn opt_bytes(v: Option<Vec<u8>>) -> Option<Seq<u8>> {
    match v {
        Some(b) => Some(b@),
        None => None,
    }
}

/// The bytes of a user's socket address; see [`sockaddr_bytes`].
pub fn read_sockaddr(addr: usize, addrlen: u32, copied: Option<Vec<u8>>) -> (r: Result<
    Vec<u8>,
    SyscallErr,
>)
    ensures
        match r {
            Ok(b) => sockaddr_bytes(addr, addrlen, opt_bytes(copied)) == Ok::<Seq<u8>, SyscallErr>(
                b@,
            ),
            Err(e) => sockaddr_bytes(addr, addrlen, opt_bytes(copied)) == Err::<Seq<u8>, SyscallErr>(
                e,
            ),
        },
{
    match check_addrlen(addrlen) {
        Ok(_) => {},
        Err(e) => return Err(e),
    }
    if addrlen == 0 {
        let empty: Vec<u8> = Vec::new();
        assert(empty@ =~= Seq::<u8>::empty());
        return Ok(empty);
    }
    if addr == 0 {
        return Err(SyscallErr::EFAULT);
    }
    match copied {
        Some(b) => Ok(b),
        None => Err(SyscallErr::EFAULT),
    }
}

} // verus!
