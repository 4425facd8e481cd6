//! `sendto`.
use vstd::prelude::*;
use crate::error::SyscallErr;
use crate::socket;
use crate::socket::{Endpoint, EndpointModel, PSOCK};
use crate::syscall::common;
use crate::syscall::common::{MsgFlags, MSG_DONTWAIT, MSG_ERRQUEUE, MSG_KNOWN_BITS, MSG_OOB};
use crate::wire::{IpAddress, IpEndpoint, Ipv4Address};

verus! {

/// The most that one call sends or receives.
pub const MAX_TRANSFER: usize = 67108864;

/// What is known of a socket that is to send.
#[derive(Clone, Copy, Debug, PartialEq, Eq, Structural)]
pub struct SenderFacts {
    pub socket_type: PSOCK,
    /// The port of its own address, where it has one.
    pub local_port: Option<u16>,
    /// Whether it has a peer.
    pub connected: bool,
    /// Whether its descriptor must not wait.
    pub nonblock: bool,
}

impl SenderFacts {
    /// Whether the socket is given a port before it sends.
    pub open spec fn wants_port(self) -> bool {
        self.socket_type == PSOCK::Datagram && (self.local_port is None || self.local_port
            == Some(0u16))
    }

    /// Whether the socket is given a port before it sends.
    pub fn needs_port(&self) -> (r: bool)
        ensures
            r == self.wants_port(),
    {
        match self.socket_type {
            PSOCK::Datagram => match self.local_port {
                Some(p) => p == 0,
                None => true,
            },
            _ => false,
        }
    }
}

/// The flags that a number stands for.
pub open spec fn flags_of(bits: u32) -> MsgFlags {
    MsgFlags { bits: bits & MSG_KNOWN_BITS }
}

/// Whether flags are refused by a call that sends.
pub open spec fn unsendable(flags: MsgFlags) -> bool {
    flags.has(MSG_OOB) || flags.has(MSG_ERRQUEUE)
}

/// The most that one call sends of `len` bytes.
pub open spec fn transfer_of(len: usize) -> usize {
    if len < MAX_TRANSFER {
        len
    } else {
        MAX_TRANSFER
    }
}

/// The most that one call sends of `len` bytes.
pub fn transfer_len(len: usize) -> (r: usize)
    ensures
        r == transfer_of(len),
{
    if len < MAX_TRANSFER {
        len
    } else {
        MAX_TRANSFER
    }
}

/// What a `sendto` hands to its socket.
#[derive(Debug)]
pub struct SendPlan {
    pub len: usize,
    pub flags: MsgFlags,
    pub dest: Option<Endpoint>,
    pub nonblock: bool,
}

/// What a [`SendPlan`] says.
pub struct SendModel {
    pub len: usize,
    pub flags: MsgFlags,
    pub dest: Option<EndpointModel>,
    pub nonblock: bool,
}

impl SendPlan {
    pub open spec fn model(self) -> SendModel {
        SendModel {
            len: self.len,
            flags: self.flags,
            dest: socket::opt_model(self.dest),
            nonblock: self.nonblock,
        }
    }
}

/// Whether the call gives its socket a port first, by binding it to
/// [`auto_bind_endpoint`], and what it then hands to the socket. Where that
/// binding fails the call goes on as if it had not been tried.
#[derive(Debug)]
pub struct SendStep {
    pub auto_bind: bool,
    pub plan: Result<SendPlan, SyscallErr>,
}

/// The endpoint that a sender without a port is bound to: any address and a
/// port that is free.
pub fn auto_bind_endpoint() -> (r: Endpoint)
    ensures
        r@ == EndpointModel::Ip(
            IpEndpoint { addr: IpAddress::Ipv4(Ipv4Address { bits: 0 }), port: 0 },
        ),
{
    Endpoint::Ip(IpEndpoint { addr: IpAddress::Ipv4(Ipv4Address { bits: 0 }), port: 0 })
}

/// The destination of a datagram, which has to be one where there is a peer
/// neither.
pub open spec fn destination(
    dest_addr: usize,
    addrlen: u32,
    copied: Option<Seq<u8>>,
) -> Result<Option<EndpointModel>, SyscallErr> {
    if dest_addr == 0 {
        Ok(None)
    } else {
        match common::sockaddr_bytes(dest_addr, addrlen, copied) {
            Err(e) => Err(e),
            Ok(b) => match socket::sockaddr_endpoint(b) {
                Err(e) => Err(e),
                Ok(ep) => Ok(Some(ep)),
            },
        }
    }
}

/// Why a destination is refused before anything else is done.
pub open spec fn early_dest_error(
    t: PSOCK,
    dest_addr: usize,
    addrlen: u32,
    copied: Option<Seq<u8>>,
) -> Option<SyscallErr> {
    if dest_addr == 0 {
        None
    } else if t == PSOCK::Stream {
        match common::sockaddr_bytes(dest_addr, addrlen, copied) {
            Err(e) => Some(e),
            Ok(_) => None,
        }
    } else if t == PSOCK::Datagram && (addrlen < 2 || addrlen > 128) {
        Some(SyscallErr::EINVAL)
    } else {
        None
    }
}

/// What a `sendto` hands to its socket once the flags and the length of the
/// destination are in order. A stream has no use for a destination.
pub open spec fn checked_plan(
    f: SenderFacts,
    len: usize,
    flags: u32,
    dest_addr: usize,
    addrlen: u32,
    copied: Option<Seq<u8>>,
    readable: bool,
) -> Result<SendModel, SyscallErr> {
    let dest = if f.socket_type == PSOCK::Stream {
        Ok(None)
    } else {
        destination(dest_addr, addrlen, copied)
    };
    if f.socket_type != PSOCK::Datagram && f.socket_type != PSOCK::Stream && f.socket_type
        != PSOCK::Raw {
        Err(SyscallErr::EOPNOTSUPP)
    } else {
        match dest {
            Err(e) => Err(e),
            Ok(d) => if f.socket_type == PSOCK::Datagram && d is None && !f.connected {
                Err(SyscallErr::EDESTADDRREQ)
            } else if !readable {
                Err(SyscallErr::EFAULT)
            } else {
                Ok(
                    SendModel {
                        len: transfer_of(len),
                        flags: flags_of(flags),
                        dest: d,
                        nonblock: f.nonblock || flags_of(flags).has(MSG_DONTWAIT),
                    },
                )
            },
        }
    }
}

/// Whether a `sendto` gives its socket a port, and what it hands to the socket.
pub open spec fn sendto_step(
    f: SenderFacts,
    len: usize,
    flags: u32,
    dest_addr: usize,
    addrlen: u32,
    copied: Option<Seq<u8>>,
    readable: bool,
) -> (bool, Result<SendModel, SyscallErr>) {
    if unsendable(flags_of(flags)) {
        (false, Err(SyscallErr::EOPNOTSUPP))
    } else {
        match early_dest_error(f.socket_type, dest_addr, addrlen, copied) {
            Some(e) => (false, Err(e)),
            None => (
                f.wants_port(),
                checked_plan(f, len, flags, dest_addr, addrlen, copied, readable),
            ),
        }
    }
}

/// What a step of that kind says.
pub open spec fn step_model(s: SendStep) -> (bool, Result<SendModel, SyscallErr>) {
    (
        s.auto_bind,
        match s.plan {
            Ok(p) => Ok(p.model()),
            Err(e) => Err(e),
        },
    )
}

fn parsed_destination(dest_addr: usize, addrlen: u32, copied: Option<Vec<u8>>) -> (r: Result<
    Option<Endpoint>,
    SyscallErr,
>)
    ensures
        destination(dest_addr, addrlen, common::opt_bytes(copied)) == match r {
            Ok(d) => Ok::<Option<EndpointModel>, SyscallErr>(socket::opt_model(d)),
            Err(e) => Err(e),
        },
{
    if dest_addr == 0 {
        return Ok(None);
    }
    match common::read_sockaddr(dest_addr, addrlen, copied) {
        Err(e) => Err(e),
        Ok(b) => match Endpoint::from_sockaddr(b.as_slice()) {
            Ok(ep) => Ok(Some(ep)),
            Err(e) => Err(e),
        },
    }
}

/// Whether a `sendto` gives its socket a port first, and what it hands to the
/// socket. `copied` are the bytes of the destination and `readable` says
/// whether the data can be read, as far as the call sends it.
pub fn sys_sendto(
    f: &SenderFacts,
    len: usize,
    flags: u32,
    dest_addr: usize,
    addrlen: u32,
    copied: Option<Vec<u8>>,
    readable: bool,
) -> (r: SendStep)
    ensures
        step_model(r) == sendto_step(
            *f,
            len,
            flags,
            dest_addr,
            addrlen,
            common::opt_bytes(copied),
            readable,
        ),
{
    let msg_flags = MsgFlags::from_bits_truncate(flags);
    let dontwait = match msg_flags.validate_for_send() {
        Ok(d) => d,
        Err(e) => return SendStep { auto_bind: false, plan: Err(e) },
    };
    let nonblock = f.nonblock || dontwait;
    let auto_bind = f.needs_port();
    match f.socket_type {
        PSOCK::Stream => {
            if dest_addr != 0 {
                match common::read_sockaddr(dest_addr, addrlen, copied) {
                    Ok(_) => {},
                    Err(e) => return SendStep { auto_bind: false, plan: Err(e) },
                }
            }
            if !readable {
                return SendStep { auto_bind, plan: Err(SyscallErr::EFAULT) };
            }
            SendStep {
                auto_bind,
                plan: Ok(
                    SendPlan { len: transfer_len(len), flags: msg_flags, dest: None, nonblock },
                ),
            }
        },
        PSOCK::Datagram => {
            if dest_addr != 0 && (addrlen < 2 || addrlen > 128) {
                return SendStep { auto_bind: false, plan: Err(SyscallErr::EINVAL) };
            }
            let dest = match parsed_destination(dest_addr, addrlen, copied) {
                Ok(d) => d,
                Err(e) => return SendStep { auto_bind, plan: Err(e) },
            };
            if dest.is_none() && !f.connected {
                return SendStep { auto_bind, plan: Err(SyscallErr::EDESTADDRREQ) };
            }
            if !readable {
                return SendStep { auto_bind, plan: Err(SyscallErr::EFAULT) };
            }
            SendStep {
                auto_bind,
                plan: Ok(SendPlan { len: transfer_len(len), flags: msg_flags, dest, nonblock }),
            }
        },
        PSOCK::Raw => {
            let dest = match parsed_destination(dest_addr, addrlen, copied) {
                Ok(d) => d,
                Err(e) => return SendStep { auto_bind, plan: Err(e) },
            };
            if !readable {
                return SendStep { auto_bind, plan: Err(SyscallErr::EFAULT) };
            }
            SendStep {
                auto_bind,
                plan: Ok(SendPlan { len: transfer_len(len), flags: msg_flags, dest, nonblock }),
            }
        },
        _ => SendStep { auto_bind, plan: Err(SyscallErr::EOPNOTSUPP) },
    }
}

} // verus!
