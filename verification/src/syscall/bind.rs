//! `bind`.
use vstd::prelude::*;
use vstd::string::StrSliceExecFns;
use crate::error::SyscallErr;
use crate::iface::DeviceModel;
use crate::net_core;
use crate::net_core::NetNamespace;
use crate::socket;
use crate::socket::unix::ns::UNIX_PATH_MAX;
use crate::socket::unix::{UnixEndpoint, UnixName};
use crate::socket::{Endpoint, EndpointModel};
use crate::syscall::common;
use crate::wire::{IpAddress, IpEndpoint, Ipv4Address};

verus! {

/// The capability that lets a program bind to a privileged port.
pub const CAP_NET_BIND_SERVICE: u64 = 10;

/// Ports below this one are privileged.
pub const FIRST_FREE_PORT: u16 = 1024;

/// What a `bind` asks for.
#[derive(Debug)]
pub enum BindStep {
    /// An address and a port, to be reserved.
    Ip(IpEndpoint),
    Unnamed,
    /// A name for [`bind_abstract`](crate::socket::unix::bind_abstract).
    Abstract(Vec<u8>),
    /// A socket file of that name in that directory. Once
    /// [`socket_file_step`](crate::socket::unix::stream::socket_file_step) has
    /// no objection, its path is one for
    /// [`bind_path`](crate::socket::unix::bind_path).
    Path { parent: String, name: String },
    /// An endpoint that the socket itself takes.
    Other(Endpoint),
}

/// What a [`BindStep`] says.
#[verifier::ext_equal]
pub enum BindModel {
    Ip(IpEndpoint),
    Unnamed,
    Abstract(Seq<u8>),
    Path { parent: Seq<char>, name: Seq<char> },
    Other(EndpointModel),
}

impl View for BindStep {
    type V = BindModel;

    open spec fn view(&self) -> BindModel {
        match self {
            BindStep::Ip(ep) => BindModel::Ip(*ep),
            BindStep::Unnamed => BindModel::Unnamed,
            BindStep::Abstract(n) => BindModel::Abstract(n@),
            BindStep::Path { parent, name } => BindModel::Path { parent: parent@, name: name@ },
            BindStep::Other(ep) => BindModel::Other(ep@),
        }
    }
}

/// Whether a socket can be bound to an address: to every address of this
/// machine, to that of the default interface, or to a loopback address.
pub open spec fn local_bind_addr(devs: Seq<DeviceModel>, addr: IpAddress) -> bool {
    let own = match net_core::spec_default_iface(devs) {
        Some(d) => match d.first_addr() {
            Some(a) => a,
            None => IpAddress::spec_v4(10, 0, 2, 15),
        },
        None => IpAddress::spec_v4(10, 0, 2, 15),
    };
    addr.spec_is_unspecified() || addr == own || addr.spec_is_loopback()
}

/// Whether a socket can be bound to an address.
pub fn is_local_bind_addr(ns: &NetNamespace, addr: IpAddress) -> (r: bool)
    ensures
        r == local_bind_addr(ns.devs(), addr),
{
    if addr.is_unspecified() || addr.is_loopback() {
        return true;
    }
    let own = match net_core::default_iface(ns) {
        Some(d) => match d.first_addr() {
            Some(a) => a,
            None => IpAddress::v4(10, 0, 2, 15),
        },
        None => IpAddress::v4(10, 0, 2, 15),
    };
    addr == own
}

/// The endpoint of an address: one without a family is an IPv4 address, if it
/// is long enough.
pub open spec fn bind_endpoint(b: Seq<u8>) -> Result<EndpointModel, SyscallErr> {
    match socket::sockaddr_endpoint(b) {
        Ok(EndpointModel::Unspecified) => if b.len() < 16 {
            Ok(EndpointModel::Unspecified)
        } else {
            Ok(
                EndpointModel::Ip(
                    IpEndpoint {
                        addr: IpAddress::Ipv4(Ipv4Address::of(b[4], b[5], b[6], b[7])),
                        port: crate::bytes::u16_be_at(b, 2),
                    },
                ),
            )
        },
        other => other,
    }
}

fn parse_bind_endpoint(b: &[u8]) -> (r: Result<Endpoint, SyscallErr>)
    ensures
        match (r, bind_endpoint(b@)) {
            (Ok(ep), Ok(m)) => ep@ == m,
            (Err(e), Err(x)) => e == x,
            _ => false,
        },
{
    match Endpoint::from_sockaddr(b) {
        Ok(Endpoint::Unspecified) => {
            if b.len() < 16 {
                return Ok(Endpoint::Unspecified);
            }
            let port: u16 = crate::bytes::get_u16_be(b, 2);
            let ip = Ipv4Address::new(b[4], b[5], b[6], b[7]);
            Ok(Endpoint::Ip(IpEndpoint::new(IpAddress::Ipv4(ip), port)))
        },
        other => other,
    }
}

/// Where the last slash of a path stands.
pub open spec fn last_slash(path: Seq<char>) -> Option<int>
    decreases path.len(),
{
    if path.len() == 0 {
        None
    } else if path.last() == '/' {
        Some(path.len() - 1)
    } else {
        last_slash(path.drop_last())
    }
}

/// The directory of a path, and the name in it.
pub open spec fn split_path(path: Seq<char>) -> (Seq<char>, Seq<char>) {
    match last_slash(path) {
        Some(i) => if i == 0 {
            ("/"@, path.skip(1))
        } else {
            (path.take(i), path.skip(i + 1))
        },
        None => ("."@, path),
    }
}

proof fn lemma_last_slash(path: Seq<char>, n: int)
    requires
        0 <= n <= path.len(),
        forall|j: int| n <= j < path.len() ==> path[j] != '/',
    ensures
        last_slash(path) == last_slash(path.take(n)),
    decreases path.len(),
{
    if n < path.len() {
        let t = path.drop_last();
        assert(t.take(n) =~= path.take(n));
        lemma_last_slash(t, n);
    } else {
        assert(path.take(n) =~= path);
    }
}

/// The directory of a path, and the name in it.
pub fn path_parts(path: &str) -> (r: (String, String))
    ensures
        (r.0@, r.1@) == split_path(path@),
{
    let len = path.unicode_len();
    let mut i: usize = len;
    while i > 0
        invariant
            i <= len == path@.len(),
            forall|j: int| i <= j < path@.len() ==> path@[j] != '/',
        decreases i,
    {
        let c = path.get_char(i - 1);
        if c == '/' {
            proof {
                lemma_last_slash(path@, i as int);
                assert(path@.take(i as int).last() == '/');
            }
            let at: usize = i - 1;
            let name = path.substring_char(i, len);
            proof {
                assert(name@ =~= path@.skip(i as int));
            }
            if at == 0 {
                return ("/".to_owned(), name.to_owned());
            }
            let parent = path.substring_char(0, at);
            assert(parent@ =~= path@.take(at as int));
            return (parent.to_owned(), name.to_owned());
        }
        i = i - 1;
    }
    proof {
        lemma_last_slash(path@, 0);
    }
    (".".to_owned(), path.to_owned())
}

/// Whether a program may bind to a port.
pub open spec fn may_bind(port: u16, euid: u32, capabilities: u64) -> bool {
    port >= FIRST_FREE_PORT || euid == 0 || (capabilities / 1024) % 2 == 1
}

/// What a `bind` asks for. `local` is what the socket is bound to already.
pub open spec fn bind_step(
    devs: Seq<DeviceModel>,
    bytes: Result<Seq<u8>, SyscallErr>,
    euid: u32,
    capabilities: u64,
    local: Option<EndpointModel>,
) -> Result<BindModel, SyscallErr> {
    match bytes {
        Err(e) => Err(e),
        Ok(b) => match bind_endpoint(b) {
            Err(e) => Err(e),
            Ok(EndpointModel::Ip(ep)) => if !local_bind_addr(devs, ep.addr) {
                Err(SyscallErr::EADDRNOTAVAIL)
            } else if !may_bind(ep.port, euid, capabilities) {
                Err(SyscallErr::EACCES)
            } else {
                Ok(BindModel::Ip(ep))
            },
            Ok(EndpointModel::Unix(name)) => if local is Some && !(local->0 is Unix) {
                Err(SyscallErr::EAFNOSUPPORT)
            } else {
                match name {
                    UnixName::Unnamed => Ok(BindModel::Unnamed),
                    UnixName::Abstract(n) => if n.len() == 0 || n.len() > UNIX_PATH_MAX - 1 {
                        Err(SyscallErr::EINVAL)
                    } else {
                        Ok(BindModel::Abstract(n))
                    },
                    UnixName::Path(p) => {
                        let (parent, name) = split_path(p);
                        Ok(BindModel::Path { parent, name })
                    },
                }
            },
            Ok(EndpointModel::Unspecified) => Err(SyscallErr::EINVAL),
            Ok(other) => Ok(BindModel::Other(other)),
        },
    }
}

/// What a `bind` asks for. `copied` is what could be read of the address;
/// `euid` and `capabilities` are the program's.
pub fn sys_bind(
    ns: &NetNamespace,
    addr: usize,
    addrlen: u32,
    copied: Option<Vec<u8>>,
    euid: u32,
    capabilities: u64,
    local: &Option<Endpoint>,
) -> (r: Result<BindStep, SyscallErr>)
    ensures
        match (
            r,
            bind_step(
                ns.devs(),
                common::sockaddr_bytes(addr, addrlen, common::opt_bytes(copied)),
                euid,
                capabilities,
                socket::opt_model(*local),
            ),
        ) {
            (Ok(s), Ok(m)) => s@ == m,
            (Err(e), Err(x)) => e == x,
            _ => false,
        },
{
    let bytes = match common::read_sockaddr(addr, addrlen, copied) {
        Ok(b) => b,
        Err(e) => return Err(e),
    };
    let endpoint = match parse_bind_endpoint(bytes.as_slice()) {
        Ok(ep) => ep,
        Err(e) => return Err(e),
    };
    match endpoint {
        Endpoint::Ip(ep) => {
            if !is_local_bind_addr(ns, ep.addr) {
                return Err(SyscallErr::EADDRNOTAVAIL);
            }
            if ep.port < FIRST_FREE_PORT && euid != 0 && (capabilities / 1024) % 2 == 0 {
                return Err(SyscallErr::EACCES);
            }
            Ok(BindStep::Ip(ep))
        },
        Endpoint::Unix(name) => {
            match local {
                Some(Endpoint::Unix(_)) | None => {},
                Some(_) => return Err(SyscallErr::EAFNOSUPPORT),
            }
            match name {
                UnixEndpoint::Unnamed => Ok(BindStep::Unnamed),
                UnixEndpoint::Abstract(n) => {
                    if n.len() == 0 || n.len() > UNIX_PATH_MAX - 1 {
                        return Err(SyscallErr::EINVAL);
                    }
                    Ok(BindStep::Abstract(n))
                },
                UnixEndpoint::Path(p) => {
                    let (parent, name) = path_parts(p.as_str());
                    Ok(BindStep::Path { parent, name })
                },
            }
        },
        Endpoint::Unspecified => Err(SyscallErr::EINVAL),
        other => Ok(BindStep::Other(other)),
    }
}

} // verus!
