//! The states of a Unix domain stream socket.
use vstd::prelude::*;
use std::collections::VecDeque;
use crate::socket::unix::datagram;
use crate::socket::unix::ring_buffer;
use crate::socket::unix::ring_buffer::{RingBuffer, RingStats};
use crate::socket::unix::{UnixEndpointBound, UnixName};
use crate::socket::{opt_model, Endpoint, EndpointModel};

verus! {

/// The size of a queue between two sockets, in bytes.
pub const UNIX_STREAM_DEFAULT_BUF_SIZE: usize = 65536;

/// How many queues of connections are counted.
pub fn unix_ring_alive(stats: &RingStats) -> (r: usize)
    ensures
        r == stats.count,
{
    stats.count
}

/// How many bytes the counted queues can hold together.
pub fn unix_ring_bytes(stats: &RingStats) -> (r: usize)
    ensures
        r == stats.bytes,
{
    stats.bytes
}

/// The count after a connection with its two queues is made.
pub open spec fn pair_counted(stats: RingStats, buf_size: usize) -> RingStats {
    stats.made(buf_size).made(buf_size)
}

/// The count after one end of a connection is gone.
pub open spec fn end_counted(stats: RingStats) -> RingStats {
    stats.gone(UNIX_STREAM_DEFAULT_BUF_SIZE).gone(UNIX_STREAM_DEFAULT_BUF_SIZE)
}

/// The count after several ends of connections are gone.
pub open spec fn ends_counted(stats: RingStats, n: nat) -> RingStats
    decreases n,
{
    if n == 0 {
        stats
    } else {
        end_counted(ends_counted(stats, (n - 1) as nat))
    }
}

/// Counts the two queues of a new connection.
pub fn pair_made(stats: &mut RingStats, buf_size: usize)
    ensures
        *final(stats) == pair_counted(*old(stats), buf_size),
{
    stats.ring_made(buf_size);
    stats.ring_made(buf_size);
}

/// Takes two queues out of the count. That happens for each end of a
/// connection that is gone, so that both ends together take four.
pub fn end_gone(stats: &mut RingStats)
    ensures
        *final(stats) == end_counted(*old(stats)),
{
    stats.ring_gone(UNIX_STREAM_DEFAULT_BUF_SIZE);
    stats.ring_gone(UNIX_STREAM_DEFAULT_BUF_SIZE);
}

/// The state of a stream socket.
#[derive(Debug)]
pub enum Inner {
    Init(Init),
    Connected(Connected),
    Listener(Listener),
}

/// Neither connected nor listening.
#[derive(Debug)]
pub struct Init {
    pub addr: Option<UnixEndpointBound>,
}

/// One end of a connection. The queues are known by their numbers.
#[derive(Debug)]
pub struct Connected {
    pub addr: Option<UnixEndpointBound>,
    pub peer_addr: Option<UnixEndpointBound>,
    /// Process, user and group of the one who connected.
    pub peer_creds: Option<(u32, u32, u32)>,
    /// The queue that the other end reads.
    pub peer_rx: u64,
    /// The queue that this end reads.
    pub rx: u64,
}

/// Waiting for connections.
#[derive(Debug)]
pub struct Listener {
    pub local_addr: UnixEndpointBound,
    pub backlog: usize,
    /// Connections that no one has accepted yet.
    pub incoming: VecDeque<Connected>,
}

/// What a [`Connected`] says.
#[verifier::ext_equal]
pub struct ConnModel {
    pub addr: Option<UnixName>,
    pub peer_addr: Option<UnixName>,
    pub peer_creds: Option<(u32, u32, u32)>,
    pub peer_rx: u64,
    pub rx: u64,
}

/// What an [`Inner`] says.
#[verifier::ext_equal]
pub enum InnerModel {
    Init { addr: Option<UnixName> },
    Connected(ConnModel),
    Listener { local: UnixName, backlog: usize, incoming: Seq<ConnModel> },
}

impl View for Connected {
    type V = ConnModel;

    open spec fn view(&self) -> ConnModel {
        ConnModel {
            addr: datagram::opt_name(self.addr),
            peer_addr: datagram::opt_name(self.peer_addr),
            peer_creds: self.peer_creds,
            peer_rx: self.peer_rx,
            rx: self.rx,
        }
    }
}

pub open spec fn conns(s: Seq<Connected>) -> Seq<ConnModel> {
    Seq::new(s.len(), |i: int| s[i]@)
}

impl View for Inner {
    type V = InnerModel;

    open spec fn view(&self) -> InnerModel {
        match *self {
            Inner::Init(i) => InnerModel::Init { addr: datagram::opt_name(i.addr) },
            Inner::Connected(c) => InnerModel::Connected(c@),
            Inner::Listener(l) => InnerModel::Listener {
                local: l.local_addr@,
                backlog: l.backlog,
                incoming: conns(l.incoming@),
            },
        }
    }
}

/// What is left of a queue after up to `n` bytes are read.
pub open spec fn read_len(queue: Seq<u8>, n: int) -> int {
    if n <= queue.len() {
        n
    } else {
        queue.len() as int
    }
}

/// How many of `n` bytes a queue takes.
pub open spec fn write_len(queue: Seq<u8>, capacity: usize, n: int) -> int {
    if n <= capacity - queue.len() {
        n
    } else {
        capacity - queue.len()
    }
}

impl Init {
    pub fn new() -> (r: Init)
        ensures
            r.addr is None,
    {
        Init { addr: None }
    }
}

impl Connected {
    /// The two ends of a connection over two queues: what one writes the other
    /// reads.
    pub fn new_pair(buf_a: u64, buf_b: u64) -> (r: (Connected, Connected))
        ensures
            r.0@ == (ConnModel {
                addr: None,
                peer_addr: None,
                peer_creds: None,
                peer_rx: buf_b,
                rx: buf_a,
            }),
            r.1@ == (ConnModel {
                addr: None,
                peer_addr: None,
                peer_creds: None,
                peer_rx: buf_a,
                rx: buf_b,
            }),
    {
        (
            Connected {
                addr: None,
                peer_addr: None,
                peer_creds: None,
                peer_rx: buf_b,
                rx: buf_a,
            },
            Connected {
                addr: None,
                peer_addr: None,
                peer_creds: None,
                peer_rx: buf_a,
                rx: buf_b,
            },
        )
    }

    /// Reads from the queue of this end; nothing where it is empty.
    pub fn try_recv(rx: &mut RingBuffer<u8>, buf: &mut [u8]) -> (r: Option<usize>)
        requires
            old(rx).wf(),
        ensures
            final(rx).wf(),
            final(rx).same_frame(*old(rx)),
            match r {
                Some(n) => {
                    &&& old(rx)@.len() > 0
                    &&& n == read_len(old(rx)@, old(buf)@.len() as int)
                    &&& final(buf)@ == old(rx)@.take(n as int) + old(buf)@.skip(n as int)
                    &&& final(rx)@ == old(rx)@.skip(n as int)
                },
                None => old(rx)@.len() == 0 && final(rx)@ == old(rx)@ && final(buf)@ == old(buf)@,
            },
    {
        if rx.is_empty() {
            return None;
        }
        Some(rx.pop_slice(buf))
    }

    /// Copies from the queue of this end, in which everything stays; nothing
    /// where it is empty.
    pub fn try_peek(rx: &RingBuffer<u8>, buf: &mut [u8]) -> (r: Option<usize>)
        ensures
            match r {
                Some(n) => {
                    &&& rx@.len() > 0
                    &&& n == read_len(rx@, old(buf)@.len() as int)
                    &&& final(buf)@ == rx@.take(n as int) + old(buf)@.skip(n as int)
                },
                None => rx@.len() == 0 && final(buf)@ == old(buf)@,
            },
    {
        if rx.is_empty() {
            return None;
        }
        Some(rx.peek_slice(buf))
    }

    /// Writes to the queue of the other end; nothing where it is full.
    pub fn try_send(peer_rx: &mut RingBuffer<u8>, buf: &[u8]) -> (r: Option<usize>)
        requires
            old(peer_rx).wf(),
        ensures
            final(peer_rx).wf(),
            final(peer_rx).same_frame(*old(peer_rx)),
            match r {
                Some(n) => {
                    &&& old(peer_rx)@.len() < old(peer_rx).capacity
                    &&& n == write_len(old(peer_rx)@, old(peer_rx).capacity, buf@.len() as int)
                    &&& final(peer_rx)@ == old(peer_rx)@ + buf@.take(n as int)
                },
                None => old(peer_rx)@.len() == old(peer_rx).capacity && final(peer_rx)@
                    == old(peer_rx)@,
            },
    {
        let free: usize = peer_rx.free_len();
        if free == 0 {
            return None;
        }
        let n: usize = if buf.len() < free {
            buf.len()
        } else {
            free
        };
        let part = vstd::slice::slice_subrange(buf, 0, n);
        assert(ring_buffer::clones_are_equal::<u8>());
        let _ = peer_rx.push_slice(part);
        assert(part@ =~= buf@.take(n as int));
        Some(n)
    }

    /// Whether the queue of the other end takes another byte.
    pub fn send_ready(peer_rx: &RingBuffer<u8>) -> (r: bool)
        requires
            peer_rx.wf(),
        ensures
            r == (peer_rx@.len() < peer_rx.capacity),
    {
        peer_rx.free_len() > 0
    }

    pub fn local_endpoint(&self) -> (r: Option<Endpoint>)
        ensures
            opt_model(r) == datagram::name_endpoint(self@.addr),
    {
        datagram::endpoint_of(&self.addr)
    }

    pub fn peer_endpoint(&self) -> (r: Option<Endpoint>)
        ensures
            opt_model(r) == datagram::name_endpoint(self@.peer_addr),
    {
        datagram::endpoint_of(&self.peer_addr)
    }
}

impl Listener {
    pub fn new(addr: UnixEndpointBound, backlog: usize) -> (r: Listener)
        ensures
            r.local_addr == addr,
            r.backlog == backlog,
            conns(r.incoming@) == Seq::<ConnModel>::empty(),
    {
        let r = Listener { local_addr: addr, backlog, incoming: VecDeque::new() };
        assert(conns(r.incoming@) =~= Seq::<ConnModel>::empty());
        r
    }

    /// Queues a connection, unless as many wait as may.
    pub fn push_incoming(&mut self, conn: Connected)
        ensures
            final(self).local_addr == old(self).local_addr,
            final(self).backlog == old(self).backlog,
            conns(final(self).incoming@) == if old(self).incoming@.len() < old(self).backlog {
                conns(old(self).incoming@).push(conn@)
            } else {
                conns(old(self).incoming@)
            },
    {
        if self.incoming.len() < self.backlog {
            let ghost before = conns(self.incoming@);
            let ghost model = conn@;
            self.incoming.push_back(conn);
            assert(conns(self.incoming@) =~= before.push(model));
        }
    }

    /// Takes the connection that has waited longest.
    pub fn pop_incoming(&mut self) -> (r: Option<Connected>)
        ensures
            final(self).local_addr == old(self).local_addr,
            final(self).backlog == old(self).backlog,
            match r {
                Some(c) => old(self).incoming@.len() > 0 && c@ == conns(old(self).incoming@)[0]
                    && conns(final(self).incoming@) == conns(old(self).incoming@).drop_first(),
                None => old(self).incoming@.len() == 0 && conns(final(self).incoming@) == conns(
                    old(self).incoming@,
                ),
            },
    {
        let r = self.incoming.pop_front();
        proof {
            if r is Some {
                assert(conns(self.incoming@) =~= conns(old(self).incoming@).drop_first());
            } else {
                assert(conns(self.incoming@) =~= conns(old(self).incoming@));
            }
        }
        r
    }

    pub fn endpoint(&self) -> (r: Endpoint)
        ensures
            r@ == EndpointModel::Unix(self.local_addr@),
    {
        Endpoint::Unix(self.local_addr.to_endpoint())
    }
}

} // verus!
