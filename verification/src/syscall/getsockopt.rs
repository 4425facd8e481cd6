//! `getsockopt`.
use vstd::prelude::*;
use crate::bytes;
use crate::error::SyscallErr;
use crate::socket::inet::stream::inner::TCP_MSS;
use crate::socket::inet::stream::tcp_info::TcpInfo;
use crate::socket::PSOCK;
use crate::syscall::common::{
    SOL_IP,
    SOL_RAW,
    SOL_SOCKET,
    SOL_TCP,
    SOL_UDP,
    SO_ERROR,
    SO_PEERCRED,
    SO_RCVBUF,
    SO_RCVTIMEO,
    SO_REUSEADDR,
    SO_SNDBUF,
    SO_SNDTIMEO,
    TCP_CONGESTION,
    TCP_INFO,
    TCP_MAXSEG,
};
use crate::syscall::setsockopt;
use crate::syscall::setsockopt::{OptionChange, TIMEVAL_SIZE};

verus! {

/// What is known of a socket whose options are asked for.
#[derive(Clone, Copy, Debug)]
pub struct SocketFacts {
    pub socket_type: PSOCK,
    /// What a look at the handshake answers.
    pub handshake: Result<isize, SyscallErr>,
    pub tcp_state: Option<u8>,
    pub send_buf: usize,
    pub recv_buf: usize,
    pub reuse_addr: Result<usize, SyscallErr>,
    /// The process, the user and the group at the other end.
    pub peer_creds: Result<(u32, u32, u32), SyscallErr>,
}

/// The number that `SO_ERROR` reports: that of the error with which the
/// connect failed, and zero while there is none.
pub open spec fn so_error(handshake: Result<isize, SyscallErr>) -> u32 {
    match handshake {
        Ok(_) => 0,
        Err(e) => if e == SyscallErr::EAGAIN || e == SyscallErr::EOPNOTSUPP {
            0
        } else {
            e.spec_errno() as u32
        },
    }
}

/// The bytes of "reno".
pub open spec fn congestion_name() -> Seq<u8> {
    seq![0x72u8, 0x65, 0x6e, 0x6f]
}

/// The process, the user and the group.
pub open spec fn creds_bytes(c: (u32, u32, u32)) -> Seq<u8> {
    bytes::le32(c.0) + bytes::le32(c.1) + bytes::le32(c.2)
}

/// Whether a level of options is one of the socket's.
pub open spec fn level_fits(level: u32, t: PSOCK) -> bool {
    level == SOL_SOCKET || level == SOL_IP || (level == SOL_TCP && t == PSOCK::Stream) || (level
        == SOL_UDP && t == PSOCK::Datagram) || (level == SOL_RAW && t == PSOCK::Raw)
}

/// The value of an option; its length is reported with it. `optlen` is the
/// room for it, where it could be read.
pub open spec fn option_value(
    f: SocketFacts,
    level: u32,
    optname: u32,
    optval_ptr: usize,
    optlen_ptr: usize,
    optlen: Option<u32>,
) -> Result<Seq<u8>, SyscallErr> {
    if optval_ptr == 0 || optlen_ptr == 0 || optlen is None {
        Err(SyscallErr::EFAULT)
    } else if optlen->0 < 4 {
        Err(SyscallErr::EINVAL)
    } else if level == SOL_SOCKET && optname == SO_ERROR {
        Ok(bytes::le32(so_error(f.handshake)))
    } else if level == SOL_TCP && optname == TCP_MAXSEG {
        Ok(bytes::le32(TCP_MSS))
    } else if level == SOL_TCP && optname == TCP_INFO {
        Ok(
            TcpInfo::of(
                match f.tcp_state {
                    Some(s) => s,
                    None => 7,
                },
                TCP_MSS,
            ).bytes(),
        )
    } else if level == SOL_TCP && optname == TCP_CONGESTION {
        Ok(congestion_name())
    } else if level == SOL_SOCKET && (optname == SO_SNDBUF || optname == SO_RCVBUF || optname
        == SO_REUSEADDR || optname == SO_PEERCRED) {
        if optlen->0 >= 0x8000_0000 {
            Err(SyscallErr::EINVAL)
        } else if optname == SO_SNDBUF {
            Ok(bytes::le32(f.send_buf as u32))
        } else if optname == SO_RCVBUF {
            Ok(bytes::le32(f.recv_buf as u32))
        } else if optname == SO_REUSEADDR {
            match f.reuse_addr {
                Ok(v) => Ok(bytes::le32(v as u32)),
                Err(e) => Err(e),
            }
        } else {
            match f.peer_creds {
                Ok(c) => Ok(creds_bytes(c)),
                Err(e) => Err(e),
            }
        }
    } else if level == SOL_SOCKET && (optname == SO_RCVTIMEO || optname == SO_SNDTIMEO) {
        if optlen->0 < TIMEVAL_SIZE {
            Err(SyscallErr::EINVAL)
        } else {
            Ok(Seq::new(TIMEVAL_SIZE as nat, |i: int| 0u8))
        }
    } else if level_fits(level, f.socket_type) {
        Err(SyscallErr::ENOPROTOOPT)
    } else {
        Err(SyscallErr::EOPNOTSUPP)
    }
}

fn number(v: u32) -> (r: Vec<u8>)
    ensures
        r@ == bytes::le32(v),
{
    let mut out: Vec<u8> = Vec::new();
    bytes::put_u32_le(&mut out, v);
    assert(out@ =~= bytes::le32(v));
    out
}

/// The value of an option.
pub fn sys_getsockopt(
    f: &SocketFacts,
    level: u32,
    optname: u32,
    optval_ptr: usize,
    optlen_ptr: usize,
    optlen: Option<u32>,
) -> (r: Result<Vec<u8>, SyscallErr>)
    ensures
        match (r, option_value(*f, level, optname, optval_ptr, optlen_ptr, optlen)) {
            (Ok(v), Ok(m)) => v@ == m,
            (Err(e), Err(x)) => e == x,
            _ => false,
        },
{
    if optval_ptr == 0 || optlen_ptr == 0 {
        return Err(SyscallErr::EFAULT);
    }
    let room: u32 = match optlen {
        Some(l) => l,
        None => return Err(SyscallErr::EFAULT),
    };
    if room < 4 {
        return Err(SyscallErr::EINVAL);
    }
    if level == SOL_SOCKET && optname == SO_ERROR {
        let v: u32 = match f.handshake {
            Ok(_) => 0,
            Err(e) => {
                if e == SyscallErr::EAGAIN || e == SyscallErr::EOPNOTSUPP {
                    0
                } else {
                    e.errno() as u32
                }
            },
        };
        return Ok(number(v));
    }
    if level == SOL_TCP && optname == TCP_MAXSEG {
        return Ok(number(TCP_MSS));
    }
    if level == SOL_TCP && optname == TCP_INFO {
        let state: u8 = match f.tcp_state {
            Some(s) => s,
            None => 7,
        };
        return Ok(TcpInfo::new(state, TCP_MSS).to_bytes());
    }
    if level == SOL_TCP && optname == TCP_CONGESTION {
        let mut name: Vec<u8> = Vec::new();
        name.push(0x72);
        name.push(0x65);
        name.push(0x6e);
        name.push(0x6f);
        assert(name@ =~= congestion_name());
        return Ok(name);
    }
    if level == SOL_SOCKET && (optname == SO_SNDBUF || optname == SO_RCVBUF || optname
        == SO_REUSEADDR || optname == SO_PEERCRED) {
        if room >= 0x8000_0000 {
            return Err(SyscallErr::EINVAL);
        }
        if optname == SO_SNDBUF {
            return Ok(number(f.send_buf as u32));
        }
        if optname == SO_RCVBUF {
            return Ok(number(f.recv_buf as u32));
        }
        if optname == SO_REUSEADDR {
            return match f.reuse_addr {
                Ok(v) => Ok(number(v as u32)),
                Err(e) => Err(e),
            };
        }
        return match f.peer_creds {
            Ok(c) => {
                let mut out: Vec<u8> = Vec::new();
                bytes::put_u32_le(&mut out, c.0);
                bytes::put_u32_le(&mut out, c.1);
                bytes::put_u32_le(&mut out, c.2);
                assert(out@ =~= creds_bytes(c));
                Ok(out)
            },
            Err(e) => Err(e),
        };
    }
    if level == SOL_SOCKET && (optname == SO_RCVTIMEO || optname == SO_SNDTIMEO) {
        if (room as usize) < TIMEVAL_SIZE {
            return Err(SyscallErr::EINVAL);
        }
        let zeros = bytes::zeros(TIMEVAL_SIZE);
        assert(zeros@ =~= Seq::new(TIMEVAL_SIZE as nat, |i: int| 0u8));
        return Ok(zeros);
    }
    let fits = level == SOL_SOCKET || level == SOL_IP || (level == SOL_TCP && matches!(
        f.socket_type,
        PSOCK::Stream
    )) || (level == SOL_UDP && matches!(f.socket_type, PSOCK::Datagram)) || (level == SOL_RAW
        && matches!(f.socket_type, PSOCK::Raw));
    if fits {
        Err(SyscallErr::ENOPROTOOPT)
    } else {
        Err(SyscallErr::EOPNOTSUPP)
    }
}

/// The size of a buffer that was set is the size that is read.
pub proof fn law_buffer_size_is_read_back(f: SocketFacts, v: u32, ptr: usize, lenptr: usize, room: u32)
    requires
        ptr != 0,
        lenptr != 0,
        4 <= room < 0x8000_0000,
    ensures
        setsockopt::option_change(SOL_SOCKET, SO_SNDBUF, ptr, 4, Some(v), true) == Ok::<
            OptionChange,
            SyscallErr,
        >(OptionChange::SendBuf(v as usize)),
        option_value(
            SocketFacts { send_buf: v as usize, ..f },
            SOL_SOCKET,
            SO_SNDBUF,
            ptr,
            lenptr,
            Some(room),
        ) == Ok::<Seq<u8>, SyscallErr>(bytes::le32(v)),
        setsockopt::option_change(SOL_SOCKET, SO_RCVBUF, ptr, 4, Some(v), true) == Ok::<
            OptionChange,
            SyscallErr,
        >(OptionChange::RecvBuf(v as usize)),
        option_value(
            SocketFacts { recv_buf: v as usize, ..f },
            SOL_SOCKET,
            SO_RCVBUF,
            ptr,
            lenptr,
            Some(room),
        ) == Ok::<Seq<u8>, SyscallErr>(bytes::le32(v)),
{
}

} // verus!
