//! Unix domain stream sockets.
//!
//! All sockets, the queues between them and the names are kept together. A
//! queue stays while one of its ends is open.
use vstd::prelude::*;
use crate::arena::Arena;
use crate::bytes;
use crate::error::SyscallErr;
use crate::socket::unix::datagram;
use crate::socket::unix::ns;
use crate::socket::unix::ns::{NameTable, UnixAbstractTable, UNIX_PATH_MAX};
use crate::socket::unix::ring_buffer::{RingBuffer, RingStats};
use crate::socket::unix::stream::inner::{
    ConnModel,
    Connected,
    Init,
    Inner,
    InnerModel,
    Listener,
    UNIX_STREAM_DEFAULT_BUF_SIZE,
};
use crate::socket::unix::{UnixEndpoint, UnixEndpointBound, UnixName};
use crate::socket::{opt_model, Endpoint, EndpointModel, SHUT_RD, SHUT_RDWR, SHUT_WR};

pub mod inner;

verus! {

/// How many connections may wait to be accepted.
pub const UNIX_STREAM_BACKLOG: usize = 16;

/// A stream socket.
#[derive(Debug)]
pub struct UnixStreamSocket {
    pub inner: Inner,
    pub is_nonblock: bool,
    pub recv_buf_size: usize,
    pub send_buf_size: usize,
}

/// What a [`UnixStreamSocket`] holds.
#[verifier::ext_equal]
pub struct StreamModel {
    pub inner: InnerModel,
    pub is_nonblock: bool,
    pub recv_buf_size: usize,
    pub send_buf_size: usize,
}

impl View for UnixStreamSocket {
    type V = StreamModel;

    open spec fn view(&self) -> StreamModel {
        StreamModel {
            inner: self.inner@,
            is_nonblock: self.is_nonblock,
            recv_buf_size: self.recv_buf_size,
            send_buf_size: self.send_buf_size,
        }
    }
}

/// A fresh socket in a state.
pub open spec fn fresh(inner: InnerModel, is_nonblock: bool) -> StreamModel {
    StreamModel {
        inner,
        is_nonblock,
        recv_buf_size: UNIX_STREAM_DEFAULT_BUF_SIZE,
        send_buf_size: UNIX_STREAM_DEFAULT_BUF_SIZE,
    }
}

/// The state of a socket after it is given a name. A connected socket can only
/// be told that it has none.
pub open spec fn named(s: InnerModel, ep: EndpointModel) -> (InnerModel, Result<usize, SyscallErr>) {
    match s {
        InnerModel::Listener { .. } => (s, Err(SyscallErr::EOPNOTSUPP)),
        InnerModel::Init { addr } => match ep {
            EndpointModel::Unix(UnixName::Unnamed) => (
                InnerModel::Init { addr: Some(UnixName::Unnamed) },
                Ok(0),
            ),
            EndpointModel::Unix(UnixName::Abstract(n)) => if addr is Some || !abstract_fits(n) {
                (s, Err(SyscallErr::EINVAL))
            } else {
                (InnerModel::Init { addr: Some(UnixName::Abstract(n)) }, Ok(0))
            },
            EndpointModel::Unix(name) => if addr is Some {
                (s, Err(SyscallErr::EINVAL))
            } else {
                (InnerModel::Init { addr: Some(name) }, Ok(0))
            },
            _ => (s, Err(SyscallErr::EINVAL)),
        },
        InnerModel::Connected(c) => match ep {
            EndpointModel::Unix(UnixName::Unnamed) => (
                InnerModel::Connected(ConnModel { addr: Some(UnixName::Unnamed), ..c }),
                Ok(0),
            ),
            EndpointModel::Unix(_) => (s, Err(SyscallErr::EOPNOTSUPP)),
            _ => (s, Err(SyscallErr::EINVAL)),
        },
    }
}

pub open spec fn abstract_fits(name: Seq<u8>) -> bool {
    0 < name.len() < UNIX_PATH_MAX
}

/// The state of a socket after it is told to wait for connections.
pub open spec fn listening(s: InnerModel) -> (InnerModel, Result<usize, SyscallErr>) {
    match s {
        InnerModel::Init { addr: Some(name) } => (
            InnerModel::Listener {
                local: name,
                backlog: UNIX_STREAM_BACKLOG,
                incoming: Seq::empty(),
            },
            Ok(0),
        ),
        InnerModel::Init { addr: None } => (s, Err(SyscallErr::EINVAL)),
        _ => (s, Err(SyscallErr::EOPNOTSUPP)),
    }
}

impl UnixStreamSocket {
    pub fn new(is_nonblock: bool) -> (r: UnixStreamSocket)
        ensures
            r@ == fresh(InnerModel::Init { addr: None }, is_nonblock),
    {
        UnixStreamSocket {
            inner: Inner::Init(Init::new()),
            is_nonblock,
            recv_buf_size: UNIX_STREAM_DEFAULT_BUF_SIZE,
            send_buf_size: UNIX_STREAM_DEFAULT_BUF_SIZE,
        }
    }

    pub fn new_connected(connected: Connected, is_nonblock: bool) -> (r: UnixStreamSocket)
        ensures
            r@ == fresh(InnerModel::Connected(connected@), is_nonblock),
    {
        UnixStreamSocket {
            inner: Inner::Connected(connected),
            is_nonblock,
            recv_buf_size: UNIX_STREAM_DEFAULT_BUF_SIZE,
            send_buf_size: UNIX_STREAM_DEFAULT_BUF_SIZE,
        }
    }

    /// Gives the socket a name.
    pub fn bind(&mut self, endpoint: &Endpoint) -> (r: Result<usize, SyscallErr>)
        ensures
            (final(self)@.inner, r) == named(old(self)@.inner, endpoint@),
            final(self)@ == (StreamModel { inner: final(self)@.inner, ..old(self)@ }),
    {
        match &mut self.inner {
            Inner::Init(init) => {
                let ep = match endpoint {
                    Endpoint::Unix(ep) => ep,
                    _ => return Err(SyscallErr::EINVAL),
                };
                match ep {
                    UnixEndpoint::Unnamed => {
                        init.addr = Some(UnixEndpointBound::Unnamed);
                        Ok(0)
                    },
                    UnixEndpoint::Abstract(name) => {
                        if init.addr.is_some() {
                            return Err(SyscallErr::EINVAL);
                        }
                        if name.len() == 0 || name.len() > UNIX_PATH_MAX - 1 {
                            return Err(SyscallErr::EINVAL);
                        }
                        init.addr = Some(ep.duplicate().into_bound());
                        Ok(0)
                    },
                    UnixEndpoint::Path(_) => {
                        if init.addr.is_some() {
                            return Err(SyscallErr::EINVAL);
                        }
                        init.addr = Some(ep.duplicate().into_bound());
                        Ok(0)
                    },
                }
            },
            Inner::Connected(conn) => match endpoint {
                Endpoint::Unix(UnixEndpoint::Unnamed) => {
                    conn.addr = Some(UnixEndpointBound::Unnamed);
                    Ok(0)
                },
                Endpoint::Unix(_) => Err(SyscallErr::EOPNOTSUPP),
                _ => Err(SyscallErr::EINVAL),
            },
            Inner::Listener(_) => Err(SyscallErr::EOPNOTSUPP),
        }
    }

    /// Tells the socket to wait for connections.
    pub fn listen(&mut self) -> (r: Result<usize, SyscallErr>)
        ensures
            (final(self)@.inner, r) == listening(old(self)@.inner),
            final(self)@ == (StreamModel { inner: final(self)@.inner, ..old(self)@ }),
    {
        let addr = match &self.inner {
            Inner::Init(init) => match &init.addr {
                Some(a) => a.duplicate(),
                None => return Err(SyscallErr::EINVAL),
            },
            _ => return Err(SyscallErr::EOPNOTSUPP),
        };
        self.inner = Inner::Listener(Listener::new(addr, UNIX_STREAM_BACKLOG));
        Ok(0)
    }

    pub fn local_endpoint(&self) -> (r: Option<Endpoint>)
        ensures
            opt_model(r) == datagram::name_endpoint(
                match self@.inner {
                    InnerModel::Init { addr } => addr,
                    InnerModel::Connected(c) => c.addr,
                    InnerModel::Listener { local, .. } => Some(local),
                },
            ),
    {
        match &self.inner {
            Inner::Init(init) => datagram::endpoint_of(&init.addr),
            Inner::Connected(conn) => conn.local_endpoint(),
            Inner::Listener(listener) => Some(listener.endpoint()),
        }
    }

    pub fn remote_endpoint(&self) -> (r: Option<Endpoint>)
        ensures
            opt_model(r) == match self@.inner {
                InnerModel::Connected(c) => datagram::name_endpoint(c.peer_addr),
                _ => None,
            },
    {
        match &self.inner {
            Inner::Connected(conn) => conn.peer_endpoint(),
            _ => None,
        }
    }

    /// Process, user and group of the one who connected.
    pub fn peer_creds(&self) -> (r: Result<(u32, u32, u32), SyscallErr>)
        ensures
            r == match self@.inner {
                InnerModel::Connected(c) => match c.peer_creds {
                    Some(t) => Ok(t),
                    None => Err(SyscallErr::ENOTCONN),
                },
                _ => Err::<(u32, u32, u32), SyscallErr>(SyscallErr::ENOTCONN),
            },
    {
        match &self.inner {
            Inner::Connected(conn) => match conn.peer_creds {
                Some(t) => Ok(t),
                None => Err(SyscallErr::ENOTCONN),
            },
            _ => Err(SyscallErr::ENOTCONN),
        }
    }

    /// A connection is there at once or not at all.
    pub fn connect_ready(&self) -> (r: bool)
        ensures
            r == (self@.inner is Connected),
    {
        match &self.inner {
            Inner::Connected(_) => true,
            _ => false,
        }
    }

    /// Queues a connection for the one who accepts.
    pub fn push_pending_connected(&mut self, conn: Connected) -> (r: Result<usize, SyscallErr>)
        ensures
            r == pending_result(old(self)@.inner),
            final(self)@ == (StreamModel {
                inner: with_pending(old(self)@.inner, conn@),
                ..old(self)@
            }),
    {
        match &mut self.inner {
            Inner::Listener(listener) => {
                if listener.incoming.len() >= listener.backlog {
                    return Err(SyscallErr::EAGAIN);
                }
                listener.push_incoming(conn);
                Ok(0)
            },
            _ => Err(SyscallErr::EOPNOTSUPP),
        }
    }
}

/// Whether a socket takes one more connection.
pub open spec fn pending_result(s: InnerModel) -> Result<usize, SyscallErr> {
    match s {
        InnerModel::Listener { backlog, incoming, .. } => if incoming.len() >= backlog {
            Err(SyscallErr::EAGAIN)
        } else {
            Ok(0)
        },
        _ => Err(SyscallErr::EOPNOTSUPP),
    }
}

/// A socket with one more connection that waits, if it takes it.
pub open spec fn with_pending(s: InnerModel, c: ConnModel) -> InnerModel {
    match s {
        InnerModel::Listener { local, backlog, incoming } if incoming.len() < backlog => {
            InnerModel::Listener { local, backlog, incoming: incoming.push(c) }
        },
        _ => s,
    }
}

/// A queue between two sockets, and which of its ends are open.
#[derive(Debug)]
pub struct SharedRing {
    pub ring: RingBuffer<u8>,
    pub reader_open: bool,
    pub writer_open: bool,
}

/// What a [`SharedRing`] holds.
#[verifier::ext_equal]
pub struct RingModel {
    pub data: Seq<u8>,
    pub capacity: usize,
    pub recv_shutdown: bool,
    pub send_shutdown: bool,
    pub reader_open: bool,
    pub writer_open: bool,
}

impl View for SharedRing {
    type V = RingModel;

    open spec fn view(&self) -> RingModel {
        RingModel {
            data: self.ring@,
            capacity: self.ring.capacity,
            recv_shutdown: self.ring.recv_shutdown,
            send_shutdown: self.ring.send_shutdown,
            reader_open: self.reader_open,
            writer_open: self.writer_open,
        }
    }
}

/// An empty queue.
pub open spec fn fresh_ring(reader_open: bool, writer_open: bool) -> RingModel {
    RingModel {
        data: Seq::empty(),
        capacity: UNIX_STREAM_DEFAULT_BUF_SIZE,
        recv_shutdown: false,
        send_shutdown: false,
        reader_open,
        writer_open,
    }
}

/// The queue of a number. One that is gone holds nothing, takes nothing and is
/// shut at both ends.
pub open spec fn ring_of(rings: Map<u64, RingModel>, id: u64) -> RingModel {
    if rings.contains_key(id) {
        rings[id]
    } else {
        RingModel {
            data: Seq::empty(),
            capacity: 0,
            recv_shutdown: true,
            send_shutdown: true,
            reader_open: false,
            writer_open: false,
        }
    }
}

/// The queues with another value for one of them.
pub open spec fn with_ring(rings: Map<u64, RingModel>, id: u64, r: RingModel) -> Map<
    u64,
    RingModel,
> {
    if rings.contains_key(id) {
        rings.insert(id, r)
    } else {
        rings
    }
}

/// The queues after ends of one are closed; with both ends closed it goes.
pub open spec fn ends_closed(
    rings: Map<u64, RingModel>,
    id: u64,
    reader: bool,
    writer: bool,
) -> Map<u64, RingModel> {
    let r = ring_of(rings, id);
    let reader_open = r.reader_open && !reader;
    let writer_open = r.writer_open && !writer;
    if reader_open || writer_open {
        with_ring(rings, id, RingModel { reader_open, writer_open, ..r })
    } else {
        rings.remove(id)
    }
}

/// The queues after one end of a connection is given up.
pub open spec fn conn_dropped(rings: Map<u64, RingModel>, c: ConnModel) -> Map<u64, RingModel> {
    ends_closed(ends_closed(rings, c.peer_rx, false, true), c.rx, true, false)
}

/// The queues after several connections that no one accepted are given up.
pub open spec fn all_dropped(rings: Map<u64, RingModel>, cs: Seq<ConnModel>) -> Map<u64, RingModel>
    decreases cs.len(),
{
    if cs.len() == 0 {
        rings
    } else {
        conn_dropped(all_dropped(rings, cs.drop_last()), cs.last())
    }
}

/// All stream sockets, their queues and their names.
pub struct UnixStreams {
    pub sockets: Arena<UnixStreamSocket>,
    pub rings: Arena<SharedRing>,
    pub abstract_names: UnixAbstractTable,
    pub path_names: NameTable,
    /// Abstract names that sockets of another kind have. They and those of
    /// streams exclude each other.
    pub other_abstract: NameTable,
    /// Paths that sockets of another kind have.
    pub other_paths: NameTable,
    /// The count of the queues.
    pub ring_stats: RingStats,
    /// The count that is kept by connection and end.
    pub pair_stats: RingStats,
}

/// What [`UnixStreams`] holds.
#[verifier::ext_equal]
pub struct StreamsModel {
    pub sockets: Map<u64, StreamModel>,
    pub rings: Map<u64, RingModel>,
    pub abstract_names: Map<UnixName, u64>,
    pub path_names: Map<UnixName, u64>,
    pub other_abstract: Map<UnixName, u64>,
    pub other_paths: Map<UnixName, u64>,
    pub next_socket: u64,
    pub next_ring: u64,
    pub pair_stats: RingStats,
}

pub open spec fn socket_models(m: Map<u64, UnixStreamSocket>) -> Map<u64, StreamModel> {
    Map::new(|id: u64| m.contains_key(id), |id: u64| m[id]@)
}

pub open spec fn ring_models(m: Map<u64, SharedRing>) -> Map<u64, RingModel> {
    Map::new(|id: u64| m.contains_key(id), |id: u64| m[id]@)
}

impl View for UnixStreams {
    type V = StreamsModel;

    open spec fn view(&self) -> StreamsModel {
        StreamsModel {
            sockets: socket_models(self.sockets@),
            rings: ring_models(self.rings@),
            abstract_names: self.abstract_names.names@,
            path_names: self.path_names@,
            other_abstract: self.other_abstract@,
            other_paths: self.other_paths@,
            next_socket: self.sockets.next_id(),
            next_ring: self.rings.next_id(),
            pair_stats: self.pair_stats,
        }
    }
}

/// The counters say that there are `n` queues of the usual size. A counter
/// starts again at zero after its highest value.
pub open spec fn counted(stats: RingStats, n: nat) -> bool {
    &&& stats.count == n as int % (usize::MAX + 1)
    &&& stats.bytes == (n * UNIX_STREAM_DEFAULT_BUF_SIZE) % (usize::MAX + 1)
}

proof fn lemma_wrapping(x: usize, a: int, k: usize)
    requires
        x == a % (usize::MAX + 1),
    ensures
        x.wrapping_add(k) == (a + k) % (usize::MAX + 1),
        x.wrapping_sub(k) == (a - k) % (usize::MAX + 1),
{
    let m = usize::MAX + 1;
    let k = k as int;
    vstd::arithmetic::div_mod::lemma_small_mod(k as nat, m as nat);
    vstd::arithmetic::div_mod::lemma_add_mod_noop(a, k, m);
    vstd::arithmetic::div_mod::lemma_sub_mod_noop(a, k, m);
    if x + k < m {
        vstd::arithmetic::div_mod::lemma_small_mod((x + k) as nat, m as nat);
    } else {
        vstd::arithmetic::div_mod::lemma_mod_sub_multiples_vanish(x + k, m);
        vstd::arithmetic::div_mod::lemma_small_mod((x + k - m) as nat, m as nat);
    }
    if x >= k {
        vstd::arithmetic::div_mod::lemma_small_mod((x - k) as nat, m as nat);
    } else {
        vstd::arithmetic::div_mod::lemma_mod_add_multiples_vanish(x - k, m);
        vstd::arithmetic::div_mod::lemma_small_mod((x - k + m) as nat, m as nat);
    }
}

proof fn lemma_counted(stats: RingStats, n: nat)
    requires
        counted(stats, n),
    ensures
        counted(stats.made(UNIX_STREAM_DEFAULT_BUF_SIZE), n + 1),
        n > 0 ==> counted(stats.gone(UNIX_STREAM_DEFAULT_BUF_SIZE), (n - 1) as nat),
{
    lemma_wrapping(stats.count, n as int, 1);
    lemma_wrapping(
        stats.bytes,
        n * UNIX_STREAM_DEFAULT_BUF_SIZE,
        UNIX_STREAM_DEFAULT_BUF_SIZE,
    );
}

/// An endpoint whose name a socket of another kind has.
pub open spec fn held_by_other(m: StreamsModel, ep: EndpointModel) -> bool {
    match ep {
        EndpointModel::Unix(UnixName::Abstract(n)) => abstract_fits(n)
            && m.other_abstract.contains_key(UnixName::Abstract(n)),
        EndpointModel::Unix(UnixName::Path(p)) => m.other_paths.contains_key(UnixName::Path(p)),
        _ => false,
    }
}

/// The live socket that a client connects to, or why there is none. A socket of
/// another kind takes no connections.
pub open spec fn server_of(m: StreamsModel, ep: EndpointModel) -> Result<u64, SyscallErr> {
    match ep {
        _ if held_by_other(m, ep) => Err(SyscallErr::EOPNOTSUPP),
        EndpointModel::Unix(UnixName::Abstract(n)) => if !abstract_fits(n) {
            Err(SyscallErr::EINVAL)
        } else {
            match ns::live_socket(m.abstract_names, UnixName::Abstract(n), m.sockets.dom()) {
                Some(id) => Ok(id),
                None => Err(SyscallErr::ECONNREFUSED),
            }
        },
        EndpointModel::Unix(UnixName::Path(p)) => match ns::live_socket(
            m.path_names,
            UnixName::Path(p),
            m.sockets.dom(),
        ) {
            Some(id) => Ok(id),
            None => Err(SyscallErr::ECONNREFUSED),
        },
        EndpointModel::Unix(UnixName::Unnamed) => Err(SyscallErr::EOPNOTSUPP),
        _ => Err(SyscallErr::EAFNOSUPPORT),
    }
}

/// The client `id` connects. The server gets its end of the connection into
/// its queue, and the client becomes connected; a client that cannot is told
/// so, but the server keeps what it got.
pub open spec fn connected(
    m: StreamsModel,
    id: u64,
    ep: EndpointModel,
    creds: Option<(u32, u32, u32)>,
) -> (StreamsModel, Result<usize, SyscallErr>) {
    match server_of(m, ep) {
        Err(e) => if held_by_other(m, ep) {
            (
                StreamsModel {
                    pair_stats: inner::ends_counted(
                        inner::pair_counted(m.pair_stats, UNIX_STREAM_DEFAULT_BUF_SIZE),
                        2,
                    ),
                    ..m
                },
                Err(e),
            )
        } else {
            (m, Err(e))
        },
        Ok(server) => match pending_result(m.sockets[server].inner) {
            Err(e) => (
                StreamsModel {
                    pair_stats: inner::ends_counted(
                        inner::pair_counted(m.pair_stats, UNIX_STREAM_DEFAULT_BUF_SIZE),
                        2,
                    ),
                    ..m
                },
                Err(e),
            ),
            Ok(_) => {
                let a = m.next_ring;
                let b = (m.next_ring + 1) as u64;
                let server_conn = ConnModel {
                    addr: None,
                    peer_addr: None,
                    peer_creds: creds,
                    peer_rx: a,
                    rx: b,
                };
                let pushed = m.sockets.insert(
                    server,
                    StreamModel {
                        inner: with_pending(m.sockets[server].inner, server_conn),
                        ..m.sockets[server]
                    },
                );
                let is_init = m.sockets[id].inner is Init;
                let n = StreamsModel {
                    sockets: pushed,
                    rings: m.rings.insert(a, fresh_ring(is_init, true)).insert(
                        b,
                        fresh_ring(true, is_init),
                    ),
                    next_ring: (m.next_ring + 2) as u64,
                    pair_stats: inner::pair_counted(m.pair_stats, UNIX_STREAM_DEFAULT_BUF_SIZE),
                    ..m
                };
                match m.sockets[id].inner {
                    InnerModel::Init { addr } => (
                        StreamsModel {
                            sockets: pushed.insert(
                                id,
                                StreamModel {
                                    inner: InnerModel::Connected(
                                        ConnModel {
                                            addr,
                                            peer_addr: Some(ep->Unix_0),
                                            peer_creds: creds,
                                            peer_rx: b,
                                            rx: a,
                                        },
                                    ),
                                    ..m.sockets[id]
                                },
                            ),
                            ..n
                        },
                        Ok(0),
                    ),
                    _ => (
                        StreamsModel { pair_stats: inner::end_counted(n.pair_stats), ..n },
                        Err(SyscallErr::EISCONN),
                    ),
                }
            },
        },
    }
}

/// The socket `id` reads. An empty queue whose writer has stopped is the end.
pub open spec fn read(m: StreamsModel, id: u64, n: int) -> (
    StreamsModel,
    Seq<u8>,
    Result<isize, SyscallErr>,
) {
    match m.sockets[id].inner {
        InnerModel::Connected(c) => {
            let r = ring_of(m.rings, c.rx);
            let k = read_len_of(r, n);
            if r.data.len() > 0 {
                (
                    StreamsModel {
                        rings: with_ring(m.rings, c.rx, RingModel { data: r.data.skip(k), ..r }),
                        ..m
                    },
                    r.data.take(k),
                    Ok(k as isize),
                )
            } else if r.send_shutdown {
                (m, Seq::empty(), Ok(0))
            } else {
                (m, Seq::empty(), Err(SyscallErr::EAGAIN))
            }
        },
        _ => (m, Seq::empty(), Err(SyscallErr::ENOTCONN)),
    }
}

/// What the socket `id` would read, with nothing taken away.
pub open spec fn peeked(m: StreamsModel, id: u64, n: int) -> (Seq<u8>, Result<isize, SyscallErr>) {
    match m.sockets[id].inner {
        InnerModel::Connected(c) => {
            let r = ring_of(m.rings, c.rx);
            let k = read_len_of(r, n);
            if r.data.len() > 0 {
                (r.data.take(k), Ok(k as isize))
            } else if r.send_shutdown {
                (Seq::empty(), Ok(0))
            } else {
                (Seq::empty(), Err(SyscallErr::EAGAIN))
            }
        },
        _ => (Seq::empty(), Err(SyscallErr::ENOTCONN)),
    }
}

pub open spec fn read_len_of(r: RingModel, n: int) -> int {
    inner::read_len(r.data, n)
}

/// The socket `id` writes. A full queue whose reader has stopped is broken.
pub open spec fn written(m: StreamsModel, id: u64, data: Seq<u8>) -> (
    StreamsModel,
    Result<isize, SyscallErr>,
) {
    match m.sockets[id].inner {
        InnerModel::Connected(c) => {
            let r = ring_of(m.rings, c.peer_rx);
            let k = inner::write_len(r.data, r.capacity, data.len() as int);
            if r.data.len() < r.capacity {
                (
                    StreamsModel {
                        rings: with_ring(
                            m.rings,
                            c.peer_rx,
                            RingModel { data: r.data + data.take(k), ..r },
                        ),
                        ..m
                    },
                    Ok(k as isize),
                )
            } else if r.recv_shutdown {
                (m, Err(SyscallErr::EPIPE))
            } else {
                (m, Err(SyscallErr::EAGAIN))
            }
        },
        _ => (m, Err(SyscallErr::ENOTCONN)),
    }
}

/// The queues of a connection after its end stops reading, writing or both.
pub open spec fn shut(rings: Map<u64, RingModel>, c: ConnModel, rd: bool, wr: bool) -> Map<
    u64,
    RingModel,
> {
    let a = if rd {
        with_ring(rings, c.rx, RingModel { recv_shutdown: true, ..ring_of(rings, c.rx) })
    } else {
        rings
    };
    if wr {
        with_ring(a, c.peer_rx, RingModel { send_shutdown: true, ..ring_of(a, c.peer_rx) })
    } else {
        a
    }
}

/// The socket `id` stops reading, writing or both.
pub open spec fn shutdown_effect(m: StreamsModel, id: u64, how: u32) -> (
    StreamsModel,
    Result<(), SyscallErr>,
) {
    match m.sockets[id].inner {
        InnerModel::Connected(c) => if how == SHUT_RD || how == SHUT_WR || how == SHUT_RDWR {
            (StreamsModel { rings: shut(m.rings, c, how != SHUT_WR, how != SHUT_RD), ..m }, Ok(()))
        } else {
            (m, Err(SyscallErr::EINVAL))
        },
        _ => (m, Err(SyscallErr::ENOTCONN)),
    }
}

/// The name that a socket gives up when it is closed.
pub open spec fn name_of(s: InnerModel) -> Option<UnixName> {
    match s {
        InnerModel::Init { addr } => addr,
        InnerModel::Connected(c) => c.addr,
        InnerModel::Listener { local, .. } => Some(local),
    }
}

/// The socket `id` is closed: the other end learns of it, and the name is free
/// again.
pub open spec fn closed(m: StreamsModel, id: u64) -> StreamsModel {
    let s = m.sockets[id].inner;
    StreamsModel {
        sockets: m.sockets.remove(id),
        rings: match s {
            InnerModel::Connected(c) => conn_dropped(shut(m.rings, c, true, true), c),
            InnerModel::Listener { incoming, .. } => all_dropped(m.rings, incoming),
            InnerModel::Init { .. } => m.rings,
        },
        abstract_names: match name_of(s) {
            Some(UnixName::Abstract(n)) => m.abstract_names.remove(UnixName::Abstract(n)),
            _ => m.abstract_names,
        },
        path_names: match name_of(s) {
            Some(UnixName::Path(p)) => m.path_names.remove(UnixName::Path(p)),
            _ => m.path_names,
        },
        other_abstract: match name_of(s) {
            Some(UnixName::Abstract(n)) => m.other_abstract.remove(UnixName::Abstract(n)),
            _ => m.other_abstract,
        },
        other_paths: match name_of(s) {
            Some(UnixName::Path(p)) => m.other_paths.remove(UnixName::Path(p)),
            _ => m.other_paths,
        },
        pair_stats: match s {
            InnerModel::Connected(_) => inner::end_counted(m.pair_stats),
            InnerModel::Listener { incoming, .. } => inner::ends_counted(
                m.pair_stats,
                incoming.len(),
            ),
            InnerModel::Init { .. } => m.pair_stats,
        },
        ..m
    }
}

/// An abstract name that a live socket has.
pub open spec fn abstract_taken(m: StreamsModel, name: Seq<u8>) -> bool {
    m.other_abstract.contains_key(UnixName::Abstract(name)) || ns::live_socket(
        m.abstract_names,
        UnixName::Abstract(name),
        m.sockets.dom(),
    ) is Some
}

/// The socket `id` is given an abstract name by which it can be reached. It has
/// the name for its own even where another is reached by it.
pub open spec fn bound_abstract(m: StreamsModel, id: u64, name: Seq<u8>) -> (
    StreamsModel,
    Result<usize, SyscallErr>,
) {
    let s = m.sockets[id];
    let (inner, result) = named(s.inner, EndpointModel::Unix(UnixName::Abstract(name)));
    let n = StreamsModel { sockets: m.sockets.insert(id, StreamModel { inner, ..s }), ..m };
    match result {
        Err(e) => (n, Err(e)),
        Ok(_) => if abstract_taken(n, name) {
            (n, Err(SyscallErr::EADDRINUSE))
        } else {
            (
                StreamsModel {
                    abstract_names: n.abstract_names.insert(UnixName::Abstract(name), id),
                    ..n
                },
                Ok(0),
            )
        },
    }
}

/// The socket `id` is given the path of the file `name` in a directory. Where it
/// cannot be named, no one has the path then.
pub open spec fn bound_path(m: StreamsModel, id: u64, parent: Seq<char>, name: Seq<char>) -> (
    StreamsModel,
    Result<usize, SyscallErr>,
) {
    let key = UnixName::Path(ns::joined_path(parent, name));
    let s = m.sockets[id];
    let (inner, result) = named(s.inner, EndpointModel::Unix(key));
    (
        StreamsModel {
            sockets: m.sockets.insert(id, StreamModel { inner, ..s }),
            path_names: if result is Ok {
                m.path_names.insert(key, id)
            } else {
                m.path_names.remove(key)
            },
            other_paths: m.other_paths.remove(key),
            ..m
        },
        result,
    )
}

/// A socket of another kind enters an abstract name.
pub open spec fn claimed_abstract(m: StreamsModel, socket: u64, name: Seq<u8>) -> (
    StreamsModel,
    Result<usize, SyscallErr>,
) {
    if abstract_taken(m, name) {
        (m, Err(SyscallErr::EADDRINUSE))
    } else {
        (
            StreamsModel {
                other_abstract: m.other_abstract.insert(UnixName::Abstract(name), socket),
                ..m
            },
            Ok(0),
        )
    }
}

/// A socket of another kind enters a path.
pub open spec fn claimed_path(m: StreamsModel, socket: u64, path: Seq<char>) -> StreamsModel {
    StreamsModel {
        path_names: m.path_names.remove(UnixName::Path(path)),
        other_paths: m.other_paths.insert(UnixName::Path(path), socket),
        ..m
    }
}

/// The names without one that a socket has.
pub open spec fn without_own(names: Map<UnixName, u64>, socket: u64, name: UnixName) -> Map<
    UnixName,
    u64,
> {
    if names.contains_key(name) && names[name] == socket {
        names.remove(name)
    } else {
        names
    }
}

/// A socket of another kind gives its name up.
pub open spec fn disclaimed(m: StreamsModel, socket: u64, name: UnixName) -> StreamsModel {
    match name {
        UnixName::Abstract(_) => StreamsModel {
            other_abstract: without_own(m.other_abstract, socket, name),
            ..m
        },
        UnixName::Path(_) => StreamsModel {
            other_paths: without_own(m.other_paths, socket, name),
            ..m
        },
        UnixName::Unnamed => m,
    }
}

/// Whether the file that names a socket is there in the end: its parent is a
/// directory, nothing had the name, and it could be made.
pub open spec fn socket_file(
    parent_is_dir: bool,
    present: bool,
    created: Result<(), SyscallErr>,
) -> Result<(), SyscallErr> {
    if !parent_is_dir {
        Err(SyscallErr::ENOTDIR)
    } else if present || created == Err::<(), SyscallErr>(SyscallErr::EEXIST) {
        Err(SyscallErr::EADDRINUSE)
    } else {
        created
    }
}

/// Whether the file that names a socket is there in the end. It is made only
/// where the parent is a directory and nothing has the name.
pub fn socket_file_step(
    parent_is_dir: bool,
    present: bool,
    created: Result<(), SyscallErr>,
) -> (r: Result<(), SyscallErr>)
    ensures
        r == socket_file(parent_is_dir, present, created),
{
    if !parent_is_dir {
        return Err(SyscallErr::ENOTDIR);
    }
    if present {
        return Err(SyscallErr::EADDRINUSE);
    }
    match created {
        Err(SyscallErr::EEXIST) => Err(SyscallErr::EADDRINUSE),
        other => other,
    }
}

impl UnixStreams {
    pub open spec fn wf(self) -> bool {
        &&& self.sockets.wf()
        &&& self.rings.wf()
        &&& self.abstract_names.wf()
        &&& self.path_names.wf()
        &&& self.other_abstract.wf()
        &&& self.other_paths.wf()
        &&& forall|id: u64|
            self.rings@.contains_key(id) ==> (#[trigger] self.rings@[id]).ring.wf()
                && self.rings@[id].ring.capacity == UNIX_STREAM_DEFAULT_BUF_SIZE
        &&& self.rings@.dom().finite()
        &&& counted(self.ring_stats, self.rings@.dom().len())
    }

    pub fn new() -> (r: UnixStreams)
        ensures
            r.wf(),
            r@ == (StreamsModel {
                sockets: Map::empty(),
                rings: Map::empty(),
                abstract_names: Map::empty(),
                path_names: Map::empty(),
                other_abstract: Map::empty(),
                other_paths: Map::empty(),
                next_socket: 0,
                next_ring: 0,
                pair_stats: RingStats { count: 0, bytes: 0 },
            }),
    {
        let r = UnixStreams {
            sockets: Arena::new(),
            rings: Arena::new(),
            abstract_names: UnixAbstractTable::new(),
            path_names: NameTable::new(),
            other_abstract: NameTable::new(),
            other_paths: NameTable::new(),
            ring_stats: RingStats::new(),
            pair_stats: RingStats::new(),
        };
        proof {
            assert(r@.sockets =~= Map::<u64, StreamModel>::empty());
            assert(r@.rings =~= Map::<u64, RingModel>::empty());
        }
        r
    }

    /// Makes a socket.
    pub fn open(&mut self, is_nonblock: bool) -> (r: Option<u64>)
        requires
            old(self).wf(),
        ensures
            final(self).wf(),
            match r {
                Some(id) => id == old(self)@.next_socket && final(self)@ == (StreamsModel {
                    sockets: old(self)@.sockets.insert(
                        id,
                        fresh(InnerModel::Init { addr: None }, is_nonblock),
                    ),
                    next_socket: (id + 1) as u64,
                    ..old(self)@
                }),
                None => old(self)@.next_socket == u64::MAX && final(self)@ == old(self)@,
            },
    {
        let r = self.sockets.insert(UnixStreamSocket::new(is_nonblock));
        proof {
            if let Some(id) = r {
                assert(self@.sockets =~= old(self)@.sockets.insert(id, self.sockets@[id]@));
            }
        }
        r
    }

    fn add_ring(&mut self, reader_open: bool, writer_open: bool) -> (r: u64)
        requires
            old(self).wf(),
            old(self)@.next_ring < u64::MAX,
        ensures
            final(self).wf(),
            r == old(self)@.next_ring,
            final(self)@ == (StreamsModel {
                rings: old(self)@.rings.insert(r, fresh_ring(reader_open, writer_open)),
                next_ring: (r + 1) as u64,
                ..old(self)@
            }),
    {
        let ring = SharedRing {
            ring: RingBuffer::new(UNIX_STREAM_DEFAULT_BUF_SIZE, &mut self.ring_stats),
            reader_open,
            writer_open,
        };
        let ghost model = ring@;
        match self.rings.insert(ring) {
            Some(id) => {
                proof {
                    lemma_counted(old(self).ring_stats, old(self).rings@.dom().len());
                    assert(self.rings@.dom() =~= old(self).rings@.dom().insert(id));
                    assert(model =~= fresh_ring(reader_open, writer_open));
                    assert(self@.rings =~= old(self)@.rings.insert(id, model));
                }
                id
            },
            None => 0,
        }
    }

    /// Makes two sockets that are connected to each other.
    pub fn open_pair(&mut self, is_nonblock: bool) -> (r: Option<(u64, u64)>)
        requires
            old(self).wf(),
        ensures
            final(self).wf(),
            match r {
                Some((x, y)) => {
                    &&& x == old(self)@.next_socket
                    &&& y == x + 1
                    &&& final(self)@ == pair_opened(old(self)@, is_nonblock)
                },
                None => old(self)@.next_socket >= u64::MAX - 1 || old(self)@.next_ring >= u64::MAX
                    - 1,
            },
    {
        let ghost m = self@;
        if self.rings_left() < 2 {
            return None;
        }
        let a: u64 = self.add_ring(true, true);
        let b: u64 = self.add_ring(true, true);
        inner::pair_made(&mut self.pair_stats, UNIX_STREAM_DEFAULT_BUF_SIZE);
        let (left, right) = Connected::new_pair(a, b);
        let s = UnixStreamSocket::new_connected(left, is_nonblock);
        let t = UnixStreamSocket::new_connected(right, is_nonblock);
        let ghost sm = s@;
        let ghost tm = t@;
        let x: u64 = match self.sockets.insert(s) {
            Some(id) => id,
            None => return None,
        };
        let y: u64 = match self.sockets.insert(t) {
            Some(id) => id,
            None => return None,
        };
        proof {
            assert(sm =~= pair_end(b, a, is_nonblock));
            assert(tm =~= pair_end(a, b, is_nonblock));
            assert(self@.sockets =~= m.sockets.insert(x, sm).insert(y, tm));
        }
        Some((x, y))
    }

    fn rings_left(&self) -> (r: u64)
        ensures
            r == u64::MAX - self@.next_ring,
    {
        u64::MAX - self.rings.next_number()
    }

    /// Gives a socket a name by which no one can reach it yet; see
    /// [`UnixStreams::bind_abstract`] and [`UnixStreams::bind_path`].
    pub fn bind(&mut self, id: u64, endpoint: &Endpoint) -> (r: Result<usize, SyscallErr>)
        requires
            old(self).wf(),
            old(self)@.sockets.contains_key(id),
        ensures
            final(self).wf(),
            ({
                let s = old(self)@.sockets[id];
                let (inner, result) = named(s.inner, endpoint@);
                &&& r == result
                &&& final(self)@ == (StreamsModel {
                    sockets: old(self)@.sockets.insert(id, StreamModel { inner, ..s }),
                    ..old(self)@
                })
            }),
    {
        let ghost m = self@;
        match self.sockets.take(id) {
            Some(mut s) => {
                let r = s.bind(endpoint);
                let ghost model = s@;
                self.sockets.put(id, s);
                assert(self@.sockets =~= m.sockets.insert(id, model));
                r
            },
            None => Err(SyscallErr::EINVAL),
        }
    }

    /// Gives a socket an abstract name by which it can be reached. A name that a
    /// live socket of either kind has is refused, but the socket keeps it as
    /// its own.
    pub fn bind_abstract(&mut self, id: u64, name: &[u8]) -> (r: Result<usize, SyscallErr>)
        requires
            old(self).wf(),
            old(self)@.sockets.contains_key(id),
            1 <= name@.len() <= 107,
        ensures
            final(self).wf(),
            (final(self)@, r) == bound_abstract(old(self)@, id, name@),
    {
        let copy = bytes::copy_range(name, 0, name.len());
        assert(copy@ =~= name@);
        let endpoint = Endpoint::Unix(UnixEndpoint::Abstract(copy));
        if let Err(e) = self.bind(id, &endpoint) {
            return Err(e);
        }
        assert(self.sockets@.dom() =~= self@.sockets.dom());
        let copy = bytes::copy_range(name, 0, name.len());
        assert(copy@ =~= name@);
        if self.other_abstract.get(&UnixEndpointBound::Abstract(copy)).is_some() {
            return Err(SyscallErr::EADDRINUSE);
        }
        self.abstract_names.create_abstract_name_bytes(name, id, &self.sockets)
    }

    /// Gives a socket the path of its file, by which it can be reached. Who had
    /// that path before has it no more.
    pub fn bind_path(&mut self, id: u64, parent_abs: &str, name: &str) -> (r: Result<
        usize,
        SyscallErr,
    >)
        requires
            old(self).wf(),
            old(self)@.sockets.contains_key(id),
        ensures
            final(self).wf(),
            (final(self)@, r) == bound_path(old(self)@, id, parent_abs@, name@),
    {
        let path = ns::join_path(parent_abs, name);
        let key = UnixEndpointBound::Path(path.clone());
        self.other_paths.remove(&key);
        self.path_names.insert(key, id);
        let endpoint = Endpoint::Unix(UnixEndpoint::Path(path.clone()));
        match self.bind(id, &endpoint) {
            Ok(n) => Ok(n),
            Err(e) => {
                self.path_names.remove(&UnixEndpointBound::Path(path));
                assert(self@.path_names =~= old(self)@.path_names.remove(
                    UnixName::Path(ns::joined_path(parent_abs@, name@)),
                ));
                Err(e)
            },
        }
    }

    /// Enters an abstract name for a socket of another kind.
    pub fn claim_abstract(&mut self, socket: u64, name: &[u8]) -> (r: Result<usize, SyscallErr>)
        requires
            old(self).wf(),
        ensures
            final(self).wf(),
            (final(self)@, r) == claimed_abstract(old(self)@, socket, name@),
    {
        assert(self.sockets@.dom() =~= self@.sockets.dom());
        if self.abstract_names.lookup_abstract_name_bytes(name, &self.sockets).is_some() {
            return Err(SyscallErr::EADDRINUSE);
        }
        let copy = bytes::copy_range(name, 0, name.len());
        assert(copy@ =~= name@);
        let key = UnixEndpointBound::Abstract(copy);
        if self.other_abstract.get(&key).is_some() {
            return Err(SyscallErr::EADDRINUSE);
        }
        self.other_abstract.insert(key, socket);
        Ok(0)
    }

    /// Enters a path for a socket of another kind. Who had it before has it no
    /// more.
    pub fn claim_path(&mut self, socket: u64, path: &String)
        requires
            old(self).wf(),
        ensures
            final(self).wf(),
            final(self)@ == claimed_path(old(self)@, socket, path@),
    {
        let key = UnixEndpointBound::Path(path.clone());
        self.path_names.remove(&key);
        self.other_paths.insert(key, socket);
    }

    /// Takes a name out that a socket of another kind has; one that it does not
    /// have stays.
    pub fn disclaim(&mut self, socket: u64, name: &UnixEndpointBound)
        requires
            old(self).wf(),
        ensures
            final(self).wf(),
            final(self)@ == disclaimed(old(self)@, socket, name@),
    {
        match name {
            UnixEndpointBound::Abstract(_) => {
                if let Some(holder) = self.other_abstract.get(name) {
                    if holder == socket {
                        self.other_abstract.remove(name);
                    }
                }
            },
            UnixEndpointBound::Path(_) => {
                if let Some(holder) = self.other_paths.get(name) {
                    if holder == socket {
                        self.other_paths.remove(name);
                    }
                }
            },
            UnixEndpointBound::Unnamed => {},
        }
    }

    /// Tells a socket to wait for connections.
    pub fn listen(&mut self, id: u64) -> (r: Result<usize, SyscallErr>)
        requires
            old(self).wf(),
            old(self)@.sockets.contains_key(id),
        ensures
            final(self).wf(),
            ({
                let s = old(self)@.sockets[id];
                let (inner, result) = listening(s.inner);
                &&& r == result
                &&& final(self)@ == (StreamsModel {
                    sockets: old(self)@.sockets.insert(id, StreamModel { inner, ..s }),
                    ..old(self)@
                })
            }),
    {
        let ghost m = self@;
        match self.sockets.take(id) {
            Some(mut s) => {
                let r = s.listen();
                let ghost model = s@;
                self.sockets.put(id, s);
                assert(self@.sockets =~= m.sockets.insert(id, model));
                r
            },
            None => Err(SyscallErr::EINVAL),
        }
    }

    fn is_held_by_other(&self, endpoint: &Endpoint) -> (r: bool)
        requires
            self.wf(),
        ensures
            r == held_by_other(self@, endpoint@),
    {
        match endpoint {
            Endpoint::Unix(UnixEndpoint::Abstract(name)) => {
                if name.len() == 0 || name.len() > UNIX_PATH_MAX - 1 {
                    return false;
                }
                let copy = bytes::copy_range(name.as_slice(), 0, name.len());
                assert(copy@ =~= name@);
                self.other_abstract.get(&UnixEndpointBound::Abstract(copy)).is_some()
            },
            Endpoint::Unix(UnixEndpoint::Path(path)) => {
                self.other_paths.get(&UnixEndpointBound::Path(path.clone())).is_some()
            },
            _ => false,
        }
    }

    fn find_server(&self, endpoint: &Endpoint) -> (r: Result<u64, SyscallErr>)
        requires
            self.wf(),
        ensures
            r == server_of(self@, endpoint@),
    {
        assert(self.sockets@.dom() =~= self@.sockets.dom());
        if self.is_held_by_other(endpoint) {
            return Err(SyscallErr::EOPNOTSUPP);
        }
        match endpoint {
            Endpoint::Unix(UnixEndpoint::Abstract(name)) => {
                if name.len() == 0 || name.len() > UNIX_PATH_MAX - 1 {
                    return Err(SyscallErr::EINVAL);
                }
                match self.abstract_names.lookup_abstract_name_bytes(name, &self.sockets) {
                    Some(id) => Ok(id),
                    None => Err(SyscallErr::ECONNREFUSED),
                }
            },
            Endpoint::Unix(UnixEndpoint::Path(path)) => {
                let key = UnixEndpointBound::Path(path.clone());
                match self.path_names.get(&key) {
                    Some(id) => if self.sockets.contains(id) {
                        Ok(id)
                    } else {
                        Err(SyscallErr::ECONNREFUSED)
                    },
                    None => Err(SyscallErr::ECONNREFUSED),
                }
            },
            Endpoint::Unix(UnixEndpoint::Unnamed) => Err(SyscallErr::EOPNOTSUPP),
            _ => Err(SyscallErr::EAFNOSUPPORT),
        }
    }

    /// Connects a socket. Who waits to accept is then woken.
    #[verifier::rlimit(60)]
    pub fn connect(&mut self, id: u64, endpoint: &Endpoint, creds: Option<(u32, u32, u32)>) -> (r:
        Result<usize, SyscallErr>)
        requires
            old(self).wf(),
            old(self)@.sockets.contains_key(id),
            old(self)@.next_ring < u64::MAX - 1,
        ensures
            final(self).wf(),
            (final(self)@, r) == connected(old(self)@, id, endpoint@, creds),
    {
        let ghost m = self@;
        let server: u64 = match self.find_server(endpoint) {
            Ok(s) => s,
            Err(e) => {
                if self.is_held_by_other(endpoint) {
                    inner::pair_made(&mut self.pair_stats, UNIX_STREAM_DEFAULT_BUF_SIZE);
                    inner::end_gone(&mut self.pair_stats);
                    inner::end_gone(&mut self.pair_stats);
                    proof {
                        reveal_with_fuel(inner::ends_counted, 3);
                    }
                }
                return Err(e);
            },
        };
        let full: Result<usize, SyscallErr> = match self.sockets.get(server) {
            Some(s) => match &s.inner {
                Inner::Listener(l) => if l.incoming.len() >= l.backlog {
                    Err(SyscallErr::EAGAIN)
                } else {
                    Ok(0)
                },
                _ => Err(SyscallErr::EOPNOTSUPP),
            },
            None => Err(SyscallErr::ECONNREFUSED),
        };
        inner::pair_made(&mut self.pair_stats, UNIX_STREAM_DEFAULT_BUF_SIZE);
        if let Err(e) = full {
            inner::end_gone(&mut self.pair_stats);
            inner::end_gone(&mut self.pair_stats);
            proof {
                reveal_with_fuel(inner::ends_counted, 3);
            }
            return Err(e);
        }
        let is_init: bool = match self.sockets.get(id) {
            Some(s) => match &s.inner {
                Inner::Init(_) => true,
                _ => false,
            },
            None => false,
        };
        let a: u64 = self.add_ring(is_init, true);
        let b: u64 = self.add_ring(true, is_init);
        let ghost with_rings = self@;
        let (mut client_conn, mut server_conn) = Connected::new_pair(a, b);
        client_conn.peer_creds = creds;
        server_conn.peer_creds = creds;
        let ghost sc = server_conn@;
        if let Some(mut s) = self.sockets.take(server) {
            let _ = s.push_pending_connected(server_conn);
            let ghost model = s@;
            self.sockets.put(server, s);
            assert(self@.sockets =~= m.sockets.insert(server, model));
        }
        let ghost pushed = self@;
        if !is_init {
            inner::end_gone(&mut self.pair_stats);
            return Err(SyscallErr::EISCONN);
        }
        let name = match endpoint {
            Endpoint::Unix(ep) => ep.duplicate().into_bound(),
            _ => UnixEndpointBound::Unnamed,
        };
        client_conn.peer_addr = Some(name);
        if let Some(mut s) = self.sockets.take(id) {
            if let Inner::Init(init) = s.inner {
                client_conn.addr = init.addr;
            }
            s.inner = Inner::Connected(client_conn);
            let ghost model = s@;
            self.sockets.put(id, s);
            assert(self@.sockets =~= pushed.sockets.insert(id, model));
        }
        Ok(0)
    }

    /// Accepts the connection that has waited longest: a new socket, and the
    /// name of the other end.
    pub fn accept(&mut self, id: u64) -> (r: Result<(u64, Option<Endpoint>), SyscallErr>)
        requires
            old(self).wf(),
            old(self)@.sockets.contains_key(id),
            old(self)@.next_socket < u64::MAX,
        ensures
            final(self).wf(),
            match old(self)@.sockets[id].inner {
                InnerModel::Listener { local, backlog, incoming } => if incoming.len() == 0 {
                    r == Err::<(u64, Option<Endpoint>), SyscallErr>(SyscallErr::EAGAIN)
                        && final(self)@ == old(self)@
                } else {
                    &&& r matches Ok((new_id, ep))
                    &&& new_id == old(self)@.next_socket
                    &&& opt_model(ep) == datagram::name_endpoint(incoming[0].peer_addr)
                    &&& final(self)@ == (StreamsModel {
                        sockets: old(self)@.sockets.insert(
                            id,
                            StreamModel {
                                inner: InnerModel::Listener {
                                    local,
                                    backlog,
                                    incoming: incoming.drop_first(),
                                },
                                ..old(self)@.sockets[id]
                            },
                        ).insert(new_id, fresh(InnerModel::Connected(incoming[0]), false)),
                        next_socket: (new_id + 1) as u64,
                        ..old(self)@
                    })
                },
                _ => r == Err::<(u64, Option<Endpoint>), SyscallErr>(SyscallErr::EOPNOTSUPP)
                    && final(self)@ == old(self)@,
            },
    {
        let ghost m = self@;
        let mut s = match self.sockets.take(id) {
            Some(s) => s,
            None => return Err(SyscallErr::EOPNOTSUPP),
        };
        let ghost before = s@;
        let popped: Result<Option<Connected>, SyscallErr> = match &mut s.inner {
            Inner::Listener(l) => Ok(l.pop_incoming()),
            _ => Err(SyscallErr::EOPNOTSUPP),
        };
        let ghost model = s@;
        self.sockets.put(id, s);
        assert(self@.sockets =~= m.sockets.insert(id, model));
        match popped {
            Err(e) => {
                assert(self@.sockets =~= m.sockets);
                Err(e)
            },
            Ok(None) => {
                assert(self@.sockets =~= m.sockets);
                Err(SyscallErr::EAGAIN)
            },
            Ok(Some(conn)) => {
                let ep = conn.peer_endpoint();
                let accepted = UnixStreamSocket::new_connected(conn, false);
                let ghost am = accepted@;
                match self.sockets.insert(accepted) {
                    Some(new_id) => {
                        assert(self@.sockets =~= m.sockets.insert(id, model).insert(new_id, am));
                        Ok((new_id, ep))
                    },
                    None => Err(SyscallErr::ENFILE),
                }
            },
        }
    }

    /// The queues that a socket reads and writes.
    fn queues_of(&self, id: u64) -> (r: Option<(u64, u64)>)
        ensures
            r == if self@.sockets.contains_key(id) {
                match self@.sockets[id].inner {
                    InnerModel::Connected(c) => Some((c.rx, c.peer_rx)),
                    _ => None,
                }
            } else {
                None
            },
    {
        match self.sockets.get(id) {
            Some(s) => match &s.inner {
                Inner::Connected(c) => Some((c.rx, c.peer_rx)),
                _ => None,
            },
            None => None,
        }
    }

    /// Reads from a socket.
    pub fn try_recv(&mut self, id: u64, buf: &mut [u8]) -> (r: Result<isize, SyscallErr>)
        requires
            old(self).wf(),
            old(self)@.sockets.contains_key(id),
            old(buf)@.len() <= isize::MAX,
        ensures
            final(self).wf(),
            ({
                let (m, data, result) = read(old(self)@, id, old(buf)@.len() as int);
                &&& final(self)@ == m
                &&& r == result
                &&& final(buf)@ == data + old(buf)@.skip(data.len() as int)
            }),
    {
        let ghost m = self@;
        let ghost b = buf@;
        assert(b.skip(0) =~= b);
        assert(Seq::<u8>::empty() + b =~= b);
        let (rx, _) = match self.queues_of(id) {
            Some(q) => q,
            None => return Err(SyscallErr::ENOTCONN),
        };
        match self.rings.take(rx) {
            None => {
                assert(self@.rings =~= m.rings);
                Ok(0)
            },
            Some(mut shared) => {
                let ghost before = shared@;
                assert(before == m.rings[rx]);
                let got = Connected::try_recv(&mut shared.ring, buf);
                let ended: bool = shared.ring.is_send_shutdown();
                let ghost model = shared@;
                self.rings.put(rx, shared);
                assert(self.rings@.dom() =~= old(self).rings@.dom());
                assert(self@.rings =~= m.rings.insert(rx, model));
                match got {
                    Some(n) => Ok(n as isize),
                    None => {
                        assert(self@.rings =~= m.rings);
                        if ended {
                            Ok(0)
                        } else {
                            Err(SyscallErr::EAGAIN)
                        }
                    },
                }
            },
        }
    }

    /// Reads from a socket and leaves what was read in its queue.
    pub fn try_peek(&self, id: u64, buf: &mut [u8]) -> (r: Result<isize, SyscallErr>)
        requires
            self@.sockets.contains_key(id),
            old(buf)@.len() <= isize::MAX,
        ensures
            ({
                let (data, result) = peeked(self@, id, old(buf)@.len() as int);
                &&& r == result
                &&& final(buf)@ == data + old(buf)@.skip(data.len() as int)
            }),
    {
        let ghost b = buf@;
        assert(b.skip(0) =~= b);
        assert(Seq::<u8>::empty() + b =~= b);
        let (rx, _) = match self.queues_of(id) {
            Some(q) => q,
            None => return Err(SyscallErr::ENOTCONN),
        };
        match self.rings.get(rx) {
            None => Ok(0),
            Some(shared) => {
                assert(shared@ == self@.rings[rx]);
                match Connected::try_peek(&shared.ring, buf) {
                    Some(n) => Ok(n as isize),
                    None => {
                        if shared.ring.is_send_shutdown() {
                            Ok(0)
                        } else {
                            Err(SyscallErr::EAGAIN)
                        }
                    },
                }
            },
        }
    }

    /// Writes to a socket.
    pub fn try_send(&mut self, id: u64, buf: &[u8]) -> (r: Result<isize, SyscallErr>)
        requires
            old(self).wf(),
            old(self)@.sockets.contains_key(id),
            buf@.len() <= isize::MAX,
        ensures
            final(self).wf(),
            (final(self)@, r) == written(old(self)@, id, buf@),
    {
        let ghost m = self@;
        let (_, peer_rx) = match self.queues_of(id) {
            Some(q) => q,
            None => return Err(SyscallErr::ENOTCONN),
        };
        match self.rings.take(peer_rx) {
            None => {
                assert(self@.rings =~= m.rings);
                Err(SyscallErr::EPIPE)
            },
            Some(mut shared) => {
                let ghost before = shared@;
                assert(before == m.rings[peer_rx]);
                let put = Connected::try_send(&mut shared.ring, buf);
                let broken: bool = shared.ring.is_recv_shutdown();
                let ghost model = shared@;
                self.rings.put(peer_rx, shared);
                assert(self.rings@.dom() =~= old(self).rings@.dom());
                assert(self@.rings =~= m.rings.insert(peer_rx, model));
                match put {
                    Some(n) => Ok(n as isize),
                    None => {
                        assert(self@.rings =~= m.rings);
                        if broken {
                            Err(SyscallErr::EPIPE)
                        } else {
                            Err(SyscallErr::EAGAIN)
                        }
                    },
                }
            },
        }
    }

    fn shut_ring(&mut self, id: u64, recv: bool)
        requires
            old(self).wf(),
        ensures
            final(self).wf(),
            final(self)@ == (StreamsModel {
                rings: with_ring(
                    old(self)@.rings,
                    id,
                    if recv {
                        RingModel { recv_shutdown: true, ..ring_of(old(self)@.rings, id) }
                    } else {
                        RingModel { send_shutdown: true, ..ring_of(old(self)@.rings, id) }
                    },
                ),
                ..old(self)@
            }),
            final(self).sockets == old(self).sockets,
            final(self).abstract_names == old(self).abstract_names,
            final(self).path_names == old(self).path_names,
    {
        let ghost m = self@;
        match self.rings.take(id) {
            Some(mut shared) => {
                assert(shared@ == m.rings[id]);
                if recv {
                    shared.ring.set_recv_shutdown();
                } else {
                    shared.ring.set_send_shutdown();
                }
                let ghost model = shared@;
                self.rings.put(id, shared);
                assert(self.rings@.dom() =~= old(self).rings@.dom());
                assert(self@.rings =~= m.rings.insert(id, model));
            },
            None => {
                assert(self@.rings =~= m.rings);
            },
        }
    }

    fn close_ends(&mut self, id: u64, reader: bool, writer: bool)
        requires
            old(self).wf(),
        ensures
            final(self).wf(),
            final(self)@ == (StreamsModel {
                rings: ends_closed(old(self)@.rings, id, reader, writer),
                ..old(self)@
            }),
            final(self).sockets == old(self).sockets,
            final(self).abstract_names == old(self).abstract_names,
            final(self).path_names == old(self).path_names,
    {
        let ghost m = self@;
        match self.rings.take(id) {
            Some(mut shared) => {
                assert(shared@ == m.rings[id]);
                shared.reader_open = shared.reader_open && !reader;
                shared.writer_open = shared.writer_open && !writer;
                let ghost model = shared@;
                if shared.reader_open || shared.writer_open {
                    self.rings.put(id, shared);
                    assert(self.rings@.dom() =~= old(self).rings@.dom());
                    assert(self@.rings =~= m.rings.insert(id, model));
                } else {
                    shared.ring.release(&mut self.ring_stats);
                    proof {
                        lemma_counted(old(self).ring_stats, old(self).rings@.dom().len());
                        assert(self.rings@.dom() =~= old(self).rings@.dom().remove(id));
                    }
                    assert(self@.rings =~= m.rings.remove(id));
                }
            },
            None => {
                assert(self@.rings =~= m.rings.remove(id));
                assert(self@.rings =~= m.rings);
            },
        }
    }

    /// Stops reading, writing or both.
    pub fn shutdown(&mut self, id: u64, how: u32) -> (r: Result<(), SyscallErr>)
        requires
            old(self).wf(),
            old(self)@.sockets.contains_key(id),
        ensures
            final(self).wf(),
            (final(self)@, r) == shutdown_effect(old(self)@, id, how),
    {
        let (rx, peer_rx) = match self.queues_of(id) {
            Some(q) => q,
            None => return Err(SyscallErr::ENOTCONN),
        };
        if how != SHUT_RD && how != SHUT_WR && how != SHUT_RDWR {
            return Err(SyscallErr::EINVAL);
        }
        if how != SHUT_WR {
            self.shut_ring(rx, true);
        }
        if how != SHUT_RD {
            self.shut_ring(peer_rx, false);
        }
        Ok(())
    }

    /// Whether a read, or an accept, would not have to wait.
    pub fn socket_r_ready(&self, id: u64) -> (r: bool)
        requires
            self@.sockets.contains_key(id),
        ensures
            r == match self@.sockets[id].inner {
                InnerModel::Init { .. } => false,
                InnerModel::Connected(c) => ring_of(self@.rings, c.rx).data.len() > 0,
                InnerModel::Listener { incoming, .. } => incoming.len() > 0,
            },
    {
        match self.sockets.get(id) {
            Some(s) => match &s.inner {
                Inner::Init(_) => false,
                Inner::Connected(c) => match self.rings.get(c.rx) {
                    Some(shared) => !shared.ring.is_empty(),
                    None => false,
                },
                Inner::Listener(l) => l.incoming.len() > 0,
            },
            None => false,
        }
    }

    /// Whether a write would not have to wait.
    pub fn socket_w_ready(&self, id: u64) -> (r: bool)
        requires
            self.wf(),
            self@.sockets.contains_key(id),
        ensures
            r == match self@.sockets[id].inner {
                InnerModel::Connected(c) => ring_of(self@.rings, c.peer_rx).data.len() < ring_of(
                    self@.rings,
                    c.peer_rx,
                ).capacity,
                _ => true,
            },
    {
        match self.sockets.get(id) {
            Some(s) => match &s.inner {
                Inner::Connected(c) => match self.rings.get(c.peer_rx) {
                    Some(shared) => {
                        assert(self.rings@[c.peer_rx].ring.wf());
                        shared.ring.free_len() > 0
                    },
                    None => false,
                },
                _ => true,
            },
            None => true,
        }
    }

    /// Whether the other end has stopped writing.
    pub fn socket_hang_up(&self, id: u64) -> (r: bool)
        requires
            self@.sockets.contains_key(id),
        ensures
            r == match self@.sockets[id].inner {
                InnerModel::Connected(c) => ring_of(self@.rings, c.rx).send_shutdown,
                _ => false,
            },
    {
        match self.sockets.get(id) {
            Some(s) => match &s.inner {
                Inner::Connected(c) => match self.rings.get(c.rx) {
                    Some(shared) => shared.ring.is_send_shutdown(),
                    None => true,
                },
                _ => false,
            },
            None => false,
        }
    }

    /// Closes a socket. Who waits at the other end is then woken.
    #[verifier::rlimit(40)]
    pub fn close(&mut self, id: u64)
        requires
            old(self).wf(),
            old(self)@.sockets.contains_key(id),
        ensures
            final(self).wf(),
            final(self)@ == closed(old(self)@, id),
    {
        let ghost m = self@;
        let s = match self.sockets.take(id) {
            Some(s) => s,
            None => return,
        };
        assert(self@.sockets =~= m.sockets.remove(id));
        let ghost model = s@.inner;
        let name: Option<UnixEndpointBound> = match s.inner {
            Inner::Init(init) => init.addr,
            Inner::Connected(c) => {
                self.shut_ring(c.rx, true);
                self.shut_ring(c.peer_rx, false);
                self.close_ends(c.peer_rx, false, true);
                self.close_ends(c.rx, true, false);
                inner::end_gone(&mut self.pair_stats);
                c.addr
            },
            Inner::Listener(l) => {
                let ghost all = inner::conns(l.incoming@);
                let ghost start = self@;
                let mut i: usize = 0;
                assert(all.take(0) =~= Seq::<ConnModel>::empty());
                while i < l.incoming.len()
                    invariant
                        i <= l.incoming@.len(),
                        all == inner::conns(l.incoming@),
                        self.wf(),
                        self@ == (StreamsModel {
                            rings: all_dropped(start.rings, all.take(i as int)),
                            pair_stats: inner::ends_counted(start.pair_stats, i as nat),
                            ..start
                        }),
                    decreases l.incoming@.len() - i,
                {
                    let c = &l.incoming[i];
                    proof {
                        assert(all.take(i + 1).drop_last() =~= all.take(i as int));
                        assert(all.take(i + 1).last() == c@);
                    }
                    self.close_ends(c.peer_rx, false, true);
                    self.close_ends(c.rx, true, false);
                    inner::end_gone(&mut self.pair_stats);
                    i = i + 1;
                }
                assert(all.take(i as int) =~= all);
                Some(l.local_addr)
            },
        };
        match &name {
            Some(UnixEndpointBound::Abstract(n)) => {
                self.abstract_names.remove_abstract_name_bytes(n);
                let copy = bytes::copy_range(n.as_slice(), 0, n.len());
                assert(copy@ =~= n@);
                self.other_abstract.remove(&UnixEndpointBound::Abstract(copy));
            },
            Some(UnixEndpointBound::Path(p)) => {
                self.path_names.remove(&UnixEndpointBound::Path(p.clone()));
                self.other_paths.remove(&UnixEndpointBound::Path(p.clone()));
            },
            _ => {},
        }
    }
}

/// The sockets with two more that are connected to each other.
pub open spec fn pair_opened(m: StreamsModel, is_nonblock: bool) -> StreamsModel {
    let x = m.next_socket;
    let y = (x + 1) as u64;
    let a = m.next_ring;
    let b = (a + 1) as u64;
    StreamsModel {
        sockets: m.sockets.insert(x, pair_end(b, a, is_nonblock)).insert(
            y,
            pair_end(a, b, is_nonblock),
        ),
        rings: m.rings.insert(a, fresh_ring(true, true)).insert(b, fresh_ring(true, true)),
        next_socket: (y + 1) as u64,
        next_ring: (b + 1) as u64,
        pair_stats: inner::pair_counted(m.pair_stats, UNIX_STREAM_DEFAULT_BUF_SIZE),
        ..m
    }
}

/// One end of a pair of sockets.
pub open spec fn pair_end(peer_rx: u64, rx: u64, is_nonblock: bool) -> StreamModel {
    fresh(
        InnerModel::Connected(
            ConnModel { addr: None, peer_addr: None, peer_creds: None, peer_rx, rx },
        ),
        is_nonblock,
    )
}

/// Two sockets over the same two queues, crosswise.
pub open spec fn are_peers(m: StreamsModel, x: u64, y: u64) -> bool {
    &&& m.sockets[x].inner matches InnerModel::Connected(c)
    &&& m.sockets[y].inner matches InnerModel::Connected(d)
    &&& c.rx == d.peer_rx
    &&& c.peer_rx == d.rx
    &&& c.rx != c.peer_rx
    &&& m.rings.contains_key(c.rx)
    &&& m.rings.contains_key(c.peer_rx)
}

/// What one end writes the other reads: the bytes that were in the queue, then
/// those that were written, in order and nothing else.
pub proof fn law_stream_arrives(m: StreamsModel, x: u64, y: u64, data: Seq<u8>, n: int)
    requires
        are_peers(m, x, y),
        ({
            let r = ring_of(m.rings, m.sockets[x].inner->Connected_0.peer_rx);
            r.data.len() + data.len() <= r.capacity
        }),
        data.len() > 0,
        n >= 0,
    ensures
        ({
            let before = ring_of(m.rings, m.sockets[x].inner->Connected_0.peer_rx).data;
            let (m2, r) = written(m, x, data);
            let (m3, got, r3) = read(m2, y, n);
            &&& r == Ok::<isize, SyscallErr>(data.len() as isize)
            &&& r3 is Ok
            &&& got == (before + data).take(inner::read_len(before + data, n))
            &&& are_peers(m3, x, y)
        }),
{
    let c = m.sockets[x].inner->Connected_0;
    let r = ring_of(m.rings, c.peer_rx);
    assert(data.take(data.len() as int) =~= data);
}

/// A new pair is a two-way connection: what one end writes the other reads, in
/// order and nothing else, and the writer itself finds nothing to read. It
/// holds both ways.
pub proof fn law_pair_is_two_way(m: StreamsModel, is_nonblock: bool, data: Seq<u8>, n: int)
    requires
        m.next_socket < u64::MAX - 1,
        m.next_ring < u64::MAX - 1,
        0 < data.len() <= isize::MAX,
        n >= 0,
    ensures
        ({
            let pair = pair_opened(m, is_nonblock);
            let x = m.next_socket;
            let y = (x + 1) as u64;
            &&& are_peers(pair, x, y)
            &&& are_peers(pair, y, x)
            &&& reads_back(pair, x, y, data, n)
            &&& reads_back(pair, y, x, data, n)
        }),
{
    let pair = pair_opened(m, is_nonblock);
    let x = m.next_socket;
    let y = (x + 1) as u64;
    lemma_reads_back(pair, x, y, data, n);
    lemma_reads_back(pair, y, x, data, n);
}

/// What `x` writes over an empty connection, `y` reads back and `x` does not
/// see: the first bytes, as many as the queue takes, and then nothing more.
pub open spec fn reads_back(m: StreamsModel, x: u64, y: u64, data: Seq<u8>, n: int) -> bool {
    let (m2, r) = written(m, x, data);
    let (_, own, own_r) = read(m2, x, n);
    let (m3, got, got_r) = read(m2, y, n);
    let k = inner::write_len(Seq::empty(), UNIX_STREAM_DEFAULT_BUF_SIZE, data.len() as int);
    let sent = data.take(k);
    &&& r == Ok::<isize, SyscallErr>(k as isize)
    &&& got == sent.take(inner::read_len(sent, n))
    &&& got_r == Ok::<isize, SyscallErr>(inner::read_len(sent, n) as isize)
    &&& ring_of(m3.rings, m3.sockets[y].inner->Connected_0.rx).data == sent.skip(
        inner::read_len(sent, n),
    )
    &&& own == Seq::<u8>::empty()
    &&& own_r == Err::<isize, SyscallErr>(SyscallErr::EAGAIN)
}

proof fn lemma_reads_back(m: StreamsModel, x: u64, y: u64, data: Seq<u8>, n: int)
    requires
        are_peers(m, x, y),
        m.rings[m.sockets[x].inner->Connected_0.rx] == fresh_ring(true, true),
        m.rings[m.sockets[y].inner->Connected_0.rx] == fresh_ring(true, true),
        0 < data.len() <= isize::MAX,
        n >= 0,
    ensures
        reads_back(m, x, y, data, n),
{
    let k = inner::write_len(Seq::empty(), UNIX_STREAM_DEFAULT_BUF_SIZE, data.len() as int);
    assert(Seq::<u8>::empty() + data.take(k) =~= data.take(k));
}

/// The two directions of a connection never mix, whatever is under way: what
/// one end writes goes behind what it wrote before, what the other end reads
/// comes from the front of that, and neither touches the other direction.
pub proof fn law_directions_do_not_mix(m: StreamsModel, x: u64, y: u64, data: Seq<u8>, n: int)
    requires
        are_peers(m, x, y),
        data.len() <= isize::MAX,
        0 <= n <= isize::MAX,
    ensures
        ({
            let ahead = m.sockets[x].inner->Connected_0.peer_rx;
            let back = m.sockets[x].inner->Connected_0.rx;
            let (m2, r) = written(m, x, data);
            let (m3, got, q) = read(m, y, n);
            &&& m2.rings[back] == m.rings[back]
            &&& m3.rings[back] == m.rings[back]
            &&& m2.sockets == m.sockets
            &&& m3.sockets == m.sockets
            &&& r matches Ok(k) ==> 0 <= k <= data.len() && m2.rings[ahead].data
                == m.rings[ahead].data + data.take(k as int)
            &&& r is Err ==> m2 == m
            &&& got + m3.rings[ahead].data == m.rings[ahead].data
            &&& q is Err ==> m3 == m
        }),
{
    let ahead = m.sockets[x].inner->Connected_0.peer_rx;
    let r = ring_of(m.rings, ahead);
    let k = inner::read_len(r.data, n);
    assert(r.data.take(k) + r.data.skip(k) =~= r.data);
    assert(Seq::<u8>::empty() + r.data =~= r.data);
}

/// A look takes nothing away: the read that follows gives the same bytes and
/// the same answer.
pub proof fn law_peek_then_read(m: StreamsModel, id: u64, n: int)
    ensures
        read(m, id, n).1 == peeked(m, id, n).0,
        read(m, id, n).2 == peeked(m, id, n).1,
{
}

/// After one end is closed the other reads what is left and then the end.
pub proof fn law_close_is_seen(m: StreamsModel, x: u64, y: u64, n: int)
    requires
        x != y,
        are_peers(m, x, y),
        m.sockets.contains_key(y),
        m.rings[m.sockets[y].inner->Connected_0.rx].reader_open,
        n >= 0,
    ensures
        ({
            let before = ring_of(m.rings, m.sockets[y].inner->Connected_0.rx).data;
            let (_, got, r) = read(closed(m, x), y, n);
            &&& got == before.take(inner::read_len(before, n))
            &&& r == Ok::<isize, SyscallErr>(inner::read_len(before, n) as isize)
        }),
{
    let before = ring_of(m.rings, m.sockets[y].inner->Connected_0.rx).data;
    if before.len() == 0 {
        assert(before.take(0) =~= Seq::<u8>::empty());
    }
}

/// A client that connects and a server that accepts are the two ends of one
/// connection.
pub proof fn law_connect_accept(
    m: StreamsModel,
    id: u64,
    server: u64,
    ep: EndpointModel,
    creds: Option<(u32, u32, u32)>,
)
    requires
        id != server,
        server_of(m, ep) == Ok::<u64, SyscallErr>(server),
        pending_result(m.sockets[server].inner) is Ok,
        m.sockets[id].inner is Init,
        m.next_ring < u64::MAX - 1,
    ensures
        ({
            let (n, r) = connected(m, id, ep, creds);
            let q = n.sockets[server].inner->incoming;
            &&& r is Ok
            &&& n.sockets[id].inner matches InnerModel::Connected(c)
            &&& q.len() == m.sockets[server].inner->incoming.len() + 1
            &&& q.last().rx == c.peer_rx
            &&& q.last().peer_rx == c.rx
            &&& n.rings.contains_key(c.rx)
            &&& n.rings.contains_key(c.peer_rx)
        }),
{
}

/// The sockets after `id` is told to wait for connections.
pub open spec fn with_listener(m: StreamsModel, id: u64) -> StreamsModel {
    StreamsModel {
        sockets: m.sockets.insert(
            id,
            StreamModel { inner: listening(m.sockets[id].inner).0, ..m.sockets[id] },
        ),
        ..m
    }
}

/// A socket that was bound to an abstract name and waits for connections is the
/// one that a client with that name connects to.
pub proof fn law_bound_abstract_is_reached(m: StreamsModel, id: u64, name: Seq<u8>)
    requires
        m.sockets.contains_key(id),
        1 <= name.len() <= 107,
        bound_abstract(m, id, name).1 is Ok,
    ensures
        ({
            let n = bound_abstract(m, id, name).0;
            &&& listening(n.sockets[id].inner).1 is Ok
            &&& server_of(with_listener(n, id), EndpointModel::Unix(UnixName::Abstract(name)))
                == Ok::<u64, SyscallErr>(id)
            &&& pending_result(with_listener(n, id).sockets[id].inner) is Ok
        }),
{
}

/// A socket that was bound to the path of its file and waits for connections is
/// the one that a client with that path connects to.
pub proof fn law_bound_path_is_reached(
    m: StreamsModel,
    id: u64,
    parent: Seq<char>,
    name: Seq<char>,
)
    requires
        m.sockets.contains_key(id),
        bound_path(m, id, parent, name).1 is Ok,
    ensures
        ({
            let n = bound_path(m, id, parent, name).0;
            let ep = EndpointModel::Unix(UnixName::Path(ns::joined_path(parent, name)));
            &&& listening(n.sockets[id].inner).1 is Ok
            &&& server_of(with_listener(n, id), ep) == Ok::<u64, SyscallErr>(id)
            &&& pending_result(with_listener(n, id).sockets[id].inner) is Ok
        }),
{
}

/// From bind to accept: a client that connects to the name that a listening
/// socket was bound to becomes one end of a connection whose other end waits
/// there to be accepted.
pub proof fn law_bind_listen_connect(
    m: StreamsModel,
    id: u64,
    client: u64,
    name: Seq<u8>,
    creds: Option<(u32, u32, u32)>,
)
    requires
        m.sockets.contains_key(id),
        m.sockets[client].inner is Init,
        id != client,
        1 <= name.len() <= 107,
        m.next_ring < u64::MAX - 1,
        bound_abstract(m, id, name).1 is Ok,
    ensures
        ({
            let n = with_listener(bound_abstract(m, id, name).0, id);
            let ep = EndpointModel::Unix(UnixName::Abstract(name));
            let (k, r) = connected(n, client, ep, creds);
            &&& r == Ok::<usize, SyscallErr>(0)
            &&& k.sockets[client].inner matches InnerModel::Connected(c)
            &&& k.sockets[id].inner->incoming.len() == 1
            &&& k.sockets[id].inner->incoming[0].rx == c.peer_rx
            &&& k.sockets[id].inner->incoming[0].peer_rx == c.rx
        }),
{
    law_bound_abstract_is_reached(m, id, name);
    let n = with_listener(bound_abstract(m, id, name).0, id);
    let ep = EndpointModel::Unix(UnixName::Abstract(name));
    law_connect_accept(n, client, id, ep, creds);
}

/// While a socket lives that was bound to an abstract name, no other gets that
/// name, of whichever kind it is. Once it is closed the name is free.
pub proof fn law_abstract_name_is_held(m: StreamsModel, id: u64, other: u64, name: Seq<u8>)
    requires
        m.sockets.contains_key(id),
        m.sockets.contains_key(other),
        id != other,
        1 <= name.len() <= 107,
        bound_abstract(m, id, name).1 is Ok,
    ensures
        ({
            let n = bound_abstract(m, id, name).0;
            &&& bound_abstract(n, other, name).1 is Err
            &&& m.sockets[other].inner == (InnerModel::Init { addr: None }) ==> bound_abstract(
                n,
                other,
                name,
            ).1 == Err::<usize, SyscallErr>(SyscallErr::EADDRINUSE)
            &&& claimed_abstract(n, other, name).1 == Err::<usize, SyscallErr>(
                SyscallErr::EADDRINUSE,
            )
            &&& !abstract_taken(closed(n, id), name)
        }),
{
}

} // verus!
