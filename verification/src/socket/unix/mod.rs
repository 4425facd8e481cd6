//! Unix domain sockets: addresses and the choice of an implementation.
use vstd::prelude::*;
use vstd::utf8;
use crate::bytes;
use crate::error::SyscallErr;
use crate::socket::unix::datagram::{SpaceModel, UnixDatagramSocket, UnixDatagrams};
use crate::socket::unix::stream::{StreamsModel, UnixStreams};
use crate::socket::{Endpoint, EndpointModel, PSOCK, SockaddrOut};

pub mod datagram;
pub mod ns;
pub mod ring_buffer;
pub mod stream;
pub mod unix;

verus! {

/// The address of a Unix domain socket.
#[derive(Debug)]
pub enum UnixEndpoint {
    /// A path of the file system (such as `/tmp/socket.sock`).
    Path(String),
    /// A name of the abstract namespace, without the zero byte in front.
    Abstract(Vec<u8>),
    /// No name.
    Unnamed,
}

/// The address that a Unix domain socket is bound to.
#[derive(Debug)]
pub enum UnixEndpointBound {
    Path(String),
    Abstract(Vec<u8>),
    Unnamed,
}

/// What a [`UnixEndpoint`] or a [`UnixEndpointBound`] says.
#[verifier::ext_equal]
pub enum UnixName {
    Path(Seq<char>),
    Abstract(Seq<u8>),
    Unnamed,
}

impl View for UnixEndpoint {
    type V = UnixName;

    open spec fn view(&self) -> UnixName {
        match self {
            UnixEndpoint::Path(p) => UnixName::Path(p@),
            UnixEndpoint::Abstract(n) => UnixName::Abstract(n@),
            UnixEndpoint::Unnamed => UnixName::Unnamed,
        }
    }
}

impl View for UnixEndpointBound {
    type V = UnixName;

    open spec fn view(&self) -> UnixName {
        match self {
            UnixEndpointBound::Path(p) => UnixName::Path(p@),
            UnixEndpointBound::Abstract(n) => UnixName::Abstract(n@),
            UnixEndpointBound::Unnamed => UnixName::Unnamed,
        }
    }
}

impl UnixEndpoint {
    /// The address as one that is bound.
    pub fn into_bound(self) -> (r: UnixEndpointBound)
        ensures
            r@ == self@,
    {
        match self {
            UnixEndpoint::Path(p) => UnixEndpointBound::Path(p),
            UnixEndpoint::Abstract(n) => UnixEndpointBound::Abstract(n),
            UnixEndpoint::Unnamed => UnixEndpointBound::Unnamed,
        }
    }

    /// A second value that says the same.
    pub fn duplicate(&self) -> (r: UnixEndpoint)
        ensures
            r@ == self@,
    {
        match self {
            UnixEndpoint::Path(p) => UnixEndpoint::Path(p.clone()),
            UnixEndpoint::Abstract(n) => {
                let c = bytes::copy_range(n, 0, n.len());
                assert(c@ =~= n@);
                UnixEndpoint::Abstract(c)
            },
            UnixEndpoint::Unnamed => UnixEndpoint::Unnamed,
        }
    }
}

impl UnixEndpointBound {
    /// The address as an endpoint.
    pub fn to_endpoint(&self) -> (r: UnixEndpoint)
        ensures
            r@ == self@,
    {
        match self {
            UnixEndpointBound::Path(p) => UnixEndpoint::Path(p.clone()),
            UnixEndpointBound::Abstract(n) => {
                let c = bytes::copy_range(n, 0, n.len());
                assert(c@ =~= n@);
                UnixEndpoint::Abstract(c)
            },
            UnixEndpointBound::Unnamed => UnixEndpoint::Unnamed,
        }
    }

    /// A second value that says the same.
    pub fn duplicate(&self) -> (r: UnixEndpointBound)
        ensures
            r@ == self@,
    {
        self.to_endpoint().into_bound()
    }

    /// Whether two addresses say the same.
    pub fn same(&self, other: &UnixEndpointBound) -> (r: bool)
        ensures
            r == (self@ == other@),
    {
        match (self, other) {
            (UnixEndpointBound::Path(a), UnixEndpointBound::Path(b)) => *a == *b,
            (UnixEndpointBound::Abstract(a), UnixEndpointBound::Abstract(b)) => {
                bytes::bytes_eq(a, b)
            },
            (UnixEndpointBound::Unnamed, UnixEndpointBound::Unnamed) => true,
            _ => false,
        }
    }
}

/// Which implementation serves a Unix domain socket.
#[derive(Debug, Clone, Copy, PartialEq, Eq, Structural)]
pub enum UnixKind {
    Stream,
    Datagram,
}

/// The implementation for a socket type. A `SeqPacket` socket is served by the
/// byte stream, without message boundaries.
pub fn create_unix_socket(socket_type: PSOCK) -> (r: Result<UnixKind, SyscallErr>)
    ensures
        r == match socket_type {
            PSOCK::Stream | PSOCK::SeqPacket => Ok::<UnixKind, SyscallErr>(UnixKind::Stream),
            PSOCK::Datagram | PSOCK::Raw => Ok(UnixKind::Datagram),
            PSOCK::RDM | PSOCK::DCCP | PSOCK::Packet => Err(SyscallErr::ESOCKTNOSUPPORT),
        },
{
    match socket_type {
        PSOCK::Stream => Ok(UnixKind::Stream),
        PSOCK::Datagram | PSOCK::Raw => Ok(UnixKind::Datagram),
        PSOCK::SeqPacket => Ok(UnixKind::Stream),
        PSOCK::RDM | PSOCK::DCCP | PSOCK::Packet => Err(SyscallErr::ESOCKTNOSUPPORT),
    }
}

/// The implementation for a connected pair.
pub fn unix_pair_kind(socket_type: PSOCK) -> (r: Result<UnixKind, SyscallErr>)
    ensures
        r == match socket_type {
            PSOCK::Stream | PSOCK::SeqPacket => Ok::<UnixKind, SyscallErr>(UnixKind::Stream),
            PSOCK::Datagram => Ok(UnixKind::Datagram),
            PSOCK::Raw | PSOCK::RDM | PSOCK::DCCP | PSOCK::Packet => Err(
                SyscallErr::ESOCKTNOSUPPORT,
            ),
        },
{
    match socket_type {
        PSOCK::Stream | PSOCK::SeqPacket => Ok(UnixKind::Stream),
        PSOCK::Datagram => Ok(UnixKind::Datagram),
        PSOCK::Raw | PSOCK::RDM | PSOCK::DCCP | PSOCK::Packet => Err(SyscallErr::ESOCKTNOSUPPORT),
    }
}

/// A connected pair of sockets.
#[derive(Debug, Clone, Copy, PartialEq, Eq, Structural)]
pub enum UnixPair {
    Stream(u64, u64),
    Datagram(u64, u64),
}

/// Makes a connected pair of sockets; nothing where no number for a socket or a
/// queue is left.
pub fn make_unix_socket_pair(
    streams: &mut UnixStreams,
    datagrams: &mut UnixDatagrams,
    is_nonblock: bool,
    socket_type: PSOCK,
) -> (r: Result<Option<UnixPair>, SyscallErr>)
    requires
        old(streams).wf(),
        old(datagrams).wf(),
    ensures
        final(streams).wf(),
        final(datagrams).wf(),
        match socket_type {
            PSOCK::Stream | PSOCK::SeqPacket => {
                let x = old(streams)@.next_socket;
                &&& *final(datagrams) == *old(datagrams)
                &&& r matches Ok(pair)
                &&& match pair {
                    Some(p) => p == UnixPair::Stream(x, (x + 1) as u64) && final(streams)@
                        == stream::pair_opened(old(streams)@, is_nonblock),
                    None => x >= u64::MAX - 1 || old(streams)@.next_ring >= u64::MAX - 1,
                }
            },
            PSOCK::Datagram => {
                let a = old(datagrams)@.next_socket;
                &&& *final(streams) == *old(streams)
                &&& r matches Ok(pair)
                &&& match pair {
                    Some(p) => p == UnixPair::Datagram(a, (a + 1) as u64) && final(datagrams)@
                        == datagram::pair_opened(old(datagrams)@, is_nonblock),
                    None => a >= u64::MAX - 1,
                }
            },
            _ => {
                &&& r == Err::<Option<UnixPair>, SyscallErr>(SyscallErr::ESOCKTNOSUPPORT)
                &&& *final(streams) == *old(streams)
                &&& *final(datagrams) == *old(datagrams)
            },
        },
{
    match unix_pair_kind(socket_type) {
        Err(e) => Err(e),
        Ok(UnixKind::Stream) => match streams.open_pair(is_nonblock) {
            Some((x, y)) => Ok(Some(UnixPair::Stream(x, y))),
            None => Ok(None),
        },
        Ok(UnixKind::Datagram) => match UnixDatagramSocket::new_pair(datagrams, is_nonblock) {
            Some((a, b)) => Ok(Some(UnixPair::Datagram(a, b))),
            None => Ok(None),
        },
    }
}

/// A Unix domain socket, by its kind and its number.
#[derive(Debug, Clone, Copy, PartialEq, Eq, Structural)]
pub enum UnixSocketId {
    Stream(u64),
    Datagram(u64),
}

impl UnixSocketId {
    /// There is such a socket.
    pub open spec fn lives(self, streams: StreamsModel, datagrams: SpaceModel) -> bool {
        match self {
            UnixSocketId::Stream(id) => streams.sockets.contains_key(id),
            UnixSocketId::Datagram(id) => datagrams.sockets.contains_key(id),
        }
    }
}

/// A socket is bound to an abstract name: it takes the name for its own, and the
/// name is entered into the one table of all kinds unless a live socket is
/// there already.
pub open spec fn bound_abstract(
    streams: StreamsModel,
    datagrams: SpaceModel,
    socket: UnixSocketId,
    name: Seq<u8>,
) -> (StreamsModel, SpaceModel, Result<usize, SyscallErr>) {
    match socket {
        UnixSocketId::Stream(id) => {
            let (s, r) = stream::bound_abstract(streams, id, name);
            (s, datagrams, r)
        },
        UnixSocketId::Datagram(id) => {
            let (d, r) = datagram::bound(
                datagrams,
                id,
                EndpointModel::Unix(UnixName::Abstract(name)),
            );
            match r {
                Err(e) => (streams, d, Err(e)),
                Ok(_) => {
                    let (s, q) = stream::claimed_abstract(streams, id, name);
                    (s, d, q)
                },
            }
        },
    }
}

/// A socket is bound to the path of its file. The path is entered into the one
/// table of all kinds, and taken out again where the socket cannot be bound.
pub open spec fn bound_path(
    streams: StreamsModel,
    datagrams: SpaceModel,
    socket: UnixSocketId,
    parent: Seq<char>,
    name: Seq<char>,
) -> (StreamsModel, SpaceModel, Result<usize, SyscallErr>) {
    match socket {
        UnixSocketId::Stream(id) => {
            let (s, r) = stream::bound_path(streams, id, parent, name);
            (s, datagrams, r)
        },
        UnixSocketId::Datagram(id) => {
            let path = ns::joined_path(parent, name);
            let claimed = stream::claimed_path(streams, id, path);
            let (d, r) = datagram::bound(datagrams, id, EndpointModel::Unix(UnixName::Path(path)));
            match r {
                Err(e) => (stream::disclaimed(claimed, id, UnixName::Path(path)), d, Err(e)),
                Ok(n) => (claimed, d, Ok(n)),
            }
        },
    }
}

/// Binds a socket of either kind to an abstract name.
pub fn bind_abstract(
    streams: &mut UnixStreams,
    datagrams: &mut UnixDatagrams,
    socket: UnixSocketId,
    name: &[u8],
) -> (r: Result<usize, SyscallErr>)
    requires
        old(streams).wf(),
        old(datagrams).wf(),
        socket.lives(old(streams)@, old(datagrams)@),
        1 <= name@.len() <= 107,
    ensures
        final(streams).wf(),
        final(datagrams).wf(),
        (final(streams)@, final(datagrams)@, r) == bound_abstract(
            old(streams)@,
            old(datagrams)@,
            socket,
            name@,
        ),
{
    match socket {
        UnixSocketId::Stream(id) => streams.bind_abstract(id, name),
        UnixSocketId::Datagram(id) => {
            let copy = bytes::copy_range(name, 0, name.len());
            assert(copy@ =~= name@);
            match datagrams.bind(id, &Endpoint::Unix(UnixEndpoint::Abstract(copy))) {
                Err(e) => Err(e),
                Ok(_) => streams.claim_abstract(id, name),
            }
        },
    }
}

/// Binds a socket of either kind to the path of its file.
pub fn bind_path(
    streams: &mut UnixStreams,
    datagrams: &mut UnixDatagrams,
    socket: UnixSocketId,
    parent_abs: &str,
    name: &str,
) -> (r: Result<usize, SyscallErr>)
    requires
        old(streams).wf(),
        old(datagrams).wf(),
        socket.lives(old(streams)@, old(datagrams)@),
    ensures
        final(streams).wf(),
        final(datagrams).wf(),
        (final(streams)@, final(datagrams)@, r) == bound_path(
            old(streams)@,
            old(datagrams)@,
            socket,
            parent_abs@,
            name@,
        ),
{
    match socket {
        UnixSocketId::Stream(id) => streams.bind_path(id, parent_abs, name),
        UnixSocketId::Datagram(id) => {
            let path = ns::join_path(parent_abs, name);
            streams.claim_path(id, &path);
            match datagrams.bind(id, &Endpoint::Unix(UnixEndpoint::Path(path.clone()))) {
                Err(e) => {
                    streams.disclaim(id, &UnixEndpointBound::Path(path));
                    Err(e)
                },
                Ok(n) => Ok(n),
            }
        },
    }
}

/// A datagram socket is closed: the name that it has in the table of all kinds is
/// free again.
pub open spec fn datagram_closed(streams: StreamsModel, datagrams: SpaceModel, id: u64) -> (
    StreamsModel,
    SpaceModel,
) {
    (
        match datagrams.sockets[id].local {
            Some(name) => stream::disclaimed(streams, id, name),
            None => streams,
        },
        datagram::closed(datagrams, id),
    )
}

/// Closes a datagram socket.
pub fn close_datagram(streams: &mut UnixStreams, datagrams: &mut UnixDatagrams, id: u64)
    requires
        old(streams).wf(),
        old(datagrams).wf(),
        old(datagrams)@.sockets.contains_key(id),
    ensures
        final(streams).wf(),
        final(datagrams).wf(),
        (final(streams)@, final(datagrams)@) == datagram_closed(
            old(streams)@,
            old(datagrams)@,
            id,
        ),
{
    if let Some(s) = datagrams.sockets.get(id) {
        if let Some(name) = &s.local_addr {
            streams.disclaim(id, name);
        }
    }
    datagrams.close(id);
}

/// An abstract name that a datagram socket was bound to is refused to every
/// stream, and no stream can connect to it, until the datagram socket is closed.
pub proof fn law_kinds_share_names(
    streams: StreamsModel,
    datagrams: SpaceModel,
    id: u64,
    other: u64,
    name: Seq<u8>,
)
    requires
        datagrams.sockets.contains_key(id),
        streams.sockets.contains_key(other),
        1 <= name.len() <= 107,
        bound_abstract(streams, datagrams, UnixSocketId::Datagram(id), name).2 is Ok,
    ensures
        ({
            let (s, d, _) = bound_abstract(streams, datagrams, UnixSocketId::Datagram(id), name);
            let ep = EndpointModel::Unix(UnixName::Abstract(name));
            &&& stream::bound_abstract(s, other, name).1 is Err
            &&& streams.sockets[other].inner == (stream::inner::InnerModel::Init { addr: None })
                ==> stream::bound_abstract(s, other, name).1 == Err::<usize, SyscallErr>(
                SyscallErr::EADDRINUSE,
            )
            &&& stream::server_of(s, ep) == Err::<u64, SyscallErr>(SyscallErr::EOPNOTSUPP)
            &&& !stream::abstract_taken(datagram_closed(s, d, id).0, name)
        }),
{
}

pub open spec fn min_int(a: int, b: int) -> int {
    if a <= b {
        a
    } else {
        b
    }
}

/// The `sockaddr_un` that describes a name to a buffer of `capacity` bytes: the
/// family, then as much of a path as fits and a zero byte where there is room,
/// or a zero byte and as much of an abstract name as fits.
pub open spec fn sockaddr_un(name: UnixName, capacity: int) -> Seq<u8> {
    match name {
        UnixName::Path(p) => {
            let b = utf8::encode_utf8(p);
            let n = min_int(capacity - 2, b.len() as int);
            let head = bytes::le16(crate::socket::AF_UNIX) + b.take(n);
            if 2 + n < capacity {
                head.push(0)
            } else {
                head
            }
        },
        UnixName::Abstract(a) => bytes::le16(crate::socket::AF_UNIX).push(0) + a.take(
            if capacity < 3 {
                0
            } else {
                min_int(capacity - 3, a.len() as int)
            },
        ),
        UnixName::Unnamed => bytes::le16(crate::socket::AF_UNIX),
    }
}

/// What is written to the user's buffer for a Unix address.
///
/// `addr` and `addrlen` are the user's addresses of the buffer and of its
/// length, `socklen` what was read at the second, if that could be read.
pub fn fill_with_endpoint(
    ep: &UnixEndpoint,
    addr: usize,
    addrlen: usize,
    socklen: Option<u32>,
) -> (r: Result<SockaddrOut, SyscallErr>)
    ensures
        match r {
            Err(SyscallErr::EFAULT) => addr == 0 || addrlen == 0 || addrlen % 4 != 0
                || socklen is None,
            Err(e) => e == SyscallErr::EINVAL && addr != 0 && addrlen != 0 && addrlen % 4 == 0 && (
            socklen matches Some(c) && (c < 2 || c >= 0x8000_0000)),
            Ok(out) => {
                &&& addr != 0 && addrlen != 0 && addrlen % 4 == 0
                &&& socklen matches Some(c) && 2 <= c < 0x8000_0000 && {
                    let full = sockaddr_un(ep@, c as int);
                    &&& out.len == full.len()
                    &&& out.bytes@ == full.take(min_int(c as int, full.len() as int))
                }
            },
        },
{
    if addr == 0 || addrlen == 0 {
        return Err(SyscallErr::EFAULT);
    }
    if addrlen % 4 != 0 {
        return Err(SyscallErr::EFAULT);
    }
    let capacity: u32 = match socklen {
        Some(c) => c,
        None => return Err(SyscallErr::EFAULT),
    };
    if capacity < 2 {
        return Err(SyscallErr::EINVAL);
    }
    if capacity >= 0x8000_0000 {
        return Err(SyscallErr::EINVAL);
    }
    let cap: usize = capacity as usize;
    let mut data: Vec<u8> = Vec::new();
    bytes::put_u16_le(&mut data, crate::socket::AF_UNIX);
    match ep {
        UnixEndpoint::Path(path) => {
            let text = path.as_str().as_bytes();
            let n: usize = if cap - 2 < text.len() {
                cap - 2
            } else {
                text.len()
            };
            let part = vstd::slice::slice_subrange(text, 0, n);
            bytes::append_bytes(&mut data, part);
            if data.len() < cap {
                data.push(0);
            }
            assert(part@ =~= utf8::encode_utf8(path@).take(n as int));
        },
        UnixEndpoint::Abstract(name) => {
            data.push(0);
            let room: usize = if cap < 3 {
                0
            } else {
                cap - 3
            };
            let n: usize = if room < name.len() {
                room
            } else {
                name.len()
            };
            let part = vstd::slice::slice_subrange(name.as_slice(), 0, n);
            bytes::append_bytes(&mut data, part);
            assert(part@ =~= name@.take(n as int));
        },
        UnixEndpoint::Unnamed => {},
    }
    assert(data@ =~= sockaddr_un(ep@, cap as int));
    let actual: usize = data.len();
    let write_len: usize = if actual < cap {
        actual
    } else {
        cap
    };
    let out = bytes::copy_range(&data, 0, write_len);
    assert(out@ =~= sockaddr_un(ep@, cap as int).take(write_len as int));
    Ok(SockaddrOut { bytes: out, len: actual as u32 })
}

} // verus!
