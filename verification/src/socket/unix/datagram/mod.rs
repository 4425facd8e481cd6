//! Unix domain datagram sockets.
//!
//! All sockets of a kernel are kept together, since sending puts the message
//! into the queue of another socket. A socket is known by a number; a name
//! whose socket is gone leads nowhere.
use vstd::prelude::*;
use vstd::utf8;
use std::collections::VecDeque;
use crate::arena::Arena;
use crate::bytes;
use crate::error::SyscallErr;
use crate::socket::unix::ns;
use crate::socket::unix::ns::NameTable;
use crate::socket::unix::{UnixEndpoint, UnixEndpointBound, UnixName};
use crate::socket::{opt_model, Endpoint, EndpointModel};
use crate::text;

verus! {

/// How many messages a socket keeps.
pub const DEFAULT_RECV_QUEUE_CAPACITY: usize = 128;

/// The buffer sizes that are reported.
pub const DEFAULT_BUF_SIZE: usize = 65536;

/// A message and who sent it.
#[derive(Debug)]
pub struct DatagramMessage {
    pub data: Vec<u8>,
    pub src_addr: Option<UnixEndpointBound>,
}

/// A datagram socket.
#[derive(Debug)]
pub struct UnixDatagramSocket {
    pub local_addr: Option<UnixEndpointBound>,
    /// Where messages go that name no destination.
    pub peer_addr: Option<UnixEndpointBound>,
    pub recv_queue: VecDeque<DatagramMessage>,
    pub recv_queue_capacity: usize,
    pub is_nonblock: bool,
}

/// What a [`DatagramMessage`] says.
#[verifier::ext_equal]
pub struct MessageModel {
    pub data: Seq<u8>,
    pub src: Option<UnixName>,
}

/// What a [`UnixDatagramSocket`] holds.
#[verifier::ext_equal]
pub struct DatagramModel {
    pub local: Option<UnixName>,
    pub peer: Option<UnixName>,
    pub queue: Seq<MessageModel>,
    pub capacity: usize,
    pub is_nonblock: bool,
}

pub open spec fn opt_name(n: Option<UnixEndpointBound>) -> Option<UnixName> {
    match n {
        Some(n) => Some(n@),
        None => None,
    }
}

/// A name as an endpoint.
pub open spec fn name_endpoint(n: Option<UnixName>) -> Option<EndpointModel> {
    match n {
        Some(n) => Some(EndpointModel::Unix(n)),
        None => None,
    }
}

impl View for DatagramMessage {
    type V = MessageModel;

    open spec fn view(&self) -> MessageModel {
        MessageModel { data: self.data@, src: opt_name(self.src_addr) }
    }
}

pub open spec fn messages(q: Seq<DatagramMessage>) -> Seq<MessageModel> {
    Seq::new(q.len(), |i: int| q[i]@)
}

impl View for UnixDatagramSocket {
    type V = DatagramModel;

    open spec fn view(&self) -> DatagramModel {
        DatagramModel {
            local: opt_name(self.local_addr),
            peer: opt_name(self.peer_addr),
            queue: messages(self.recv_queue@),
            capacity: self.recv_queue_capacity,
            is_nonblock: self.is_nonblock,
        }
    }
}

fn dup_name(n: &Option<UnixEndpointBound>) -> (r: Option<UnixEndpointBound>)
    ensures
        opt_name(r) == opt_name(*n),
{
    match n {
        Some(n) => Some(n.duplicate()),
        None => None,
    }
}

/// The endpoint that a name stands for.
pub fn endpoint_of(n: &Option<UnixEndpointBound>) -> (r: Option<Endpoint>)
    ensures
        opt_model(r) == name_endpoint(opt_name(*n)),
{
    match n {
        Some(n) => Some(Endpoint::Unix(n.to_endpoint())),
        None => None,
    }
}

/// As much of a message as a buffer takes.
pub open spec fn received(buf: Seq<u8>, data: Seq<u8>) -> Seq<u8> {
    let n = copied_len(buf, data);
    data.take(n) + buf.skip(n)
}

pub open spec fn copied_len(buf: Seq<u8>, data: Seq<u8>) -> int {
    if data.len() <= buf.len() {
        data.len() as int
    } else {
        buf.len() as int
    }
}

/// What the first message comes to in a buffer: how many of its bytes fit, who
/// sent it and the buffer then.
pub open spec fn shown(m: DatagramModel, buf: Seq<u8>) -> Option<
    (int, Option<EndpointModel>, Seq<u8>),
> {
    if m.queue.len() == 0 {
        None
    } else {
        Some(
            (
                copied_len(buf, m.queue[0].data),
                name_endpoint(m.queue[0].src),
                received(buf, m.queue[0].data),
            ),
        )
    }
}

/// What a receive into a buffer does: the socket without its first message, and
/// what that came to.
pub open spec fn taken(m: DatagramModel, buf: Seq<u8>) -> (
    DatagramModel,
    Option<(int, Option<EndpointModel>, Seq<u8>)>,
) {
    if m.queue.len() == 0 {
        (m, None)
    } else {
        (
            DatagramModel { queue: m.queue.drop_first(), ..m },
            Some(
                (
                    copied_len(buf, m.queue[0].data),
                    name_endpoint(m.queue[0].src),
                    received(buf, m.queue[0].data),
                ),
            ),
        )
    }
}

impl UnixDatagramSocket {
    pub fn new(is_nonblock: bool) -> (r: UnixDatagramSocket)
        ensures
            r@ == (DatagramModel {
                local: None,
                peer: None,
                queue: Seq::empty(),
                capacity: DEFAULT_RECV_QUEUE_CAPACITY,
                is_nonblock,
            }),
    {
        let r = UnixDatagramSocket {
            local_addr: None,
            peer_addr: None,
            recv_queue: VecDeque::new(),
            recv_queue_capacity: DEFAULT_RECV_QUEUE_CAPACITY,
            is_nonblock,
        };
        assert(r@.queue =~= Seq::<MessageModel>::empty());
        r
    }

    /// Receives the first message with the address of its sender. What does
    /// not fit in the buffer is lost.
    pub fn try_recvmsg(&mut self, buf: &mut [u8]) -> (r: Result<
        (isize, Option<Endpoint>),
        SyscallErr,
    >)
        requires
            old(buf)@.len() <= isize::MAX,
        ensures
            ({
                let (next, got) = taken(old(self)@, old(buf)@);
                &&& final(self)@ == next
                &&& match got {
                    Some((n, from, out)) => {
                        &&& r matches Ok((k, ep))
                        &&& k == n
                        &&& opt_model(ep) == from
                        &&& final(buf)@ == out
                    },
                    None => r matches Err(e) && e == SyscallErr::EAGAIN && final(buf)@
                        == old(buf)@,
                }
            }),
    {
        let ghost q = self@.queue;
        match self.recv_queue.pop_front() {
            None => Err(SyscallErr::EAGAIN),
            Some(msg) => {
                assert(q[0] == msg@);
                assert(self@.queue =~= q.drop_first());
                let n: usize = if msg.data.len() < buf.len() {
                    msg.data.len()
                } else {
                    buf.len()
                };
                let part = vstd::slice::slice_subrange(msg.data.as_slice(), 0, n);
                bytes::write_front(buf, part);
                assert(part@ =~= msg.data@.take(n as int));
                Ok((n as isize, endpoint_of(&msg.src_addr)))
            },
        }
    }

    /// Copies the first message, which stays in the queue, with the address of
    /// its sender.
    pub fn try_peek_recvmsg(&self, buf: &mut [u8]) -> (r: Result<
        (isize, Option<Endpoint>),
        SyscallErr,
    >)
        requires
            old(buf)@.len() <= isize::MAX,
        ensures
            match shown(self@, old(buf)@) {
                Some((n, from, out)) => {
                    &&& r matches Ok((k, ep))
                    &&& k == n
                    &&& opt_model(ep) == from
                    &&& final(buf)@ == out
                },
                None => r matches Err(e) && e == SyscallErr::EAGAIN && final(buf)@ == old(buf)@,
            },
    {
        if self.recv_queue.len() == 0 {
            return Err(SyscallErr::EAGAIN);
        }
        let msg = &self.recv_queue[0];
        assert(self@.queue[0] == msg@);
        let n: usize = if msg.data.len() < buf.len() {
            msg.data.len()
        } else {
            buf.len()
        };
        let part = vstd::slice::slice_subrange(msg.data.as_slice(), 0, n);
        bytes::write_front(buf, part);
        assert(part@ =~= msg.data@.take(n as int));
        Ok((n as isize, endpoint_of(&msg.src_addr)))
    }

    /// Receives the first message; see [`UnixDatagramSocket::try_recvmsg`].
    pub fn try_recv(&mut self, buf: &mut [u8]) -> (r: Result<isize, SyscallErr>)
        requires
            old(buf)@.len() <= isize::MAX,
        ensures
            ({
                let (next, got) = taken(old(self)@, old(buf)@);
                &&& final(self)@ == next
                &&& match got {
                    Some((n, _, out)) => r matches Ok(k) && k == n && final(buf)@ == out,
                    None => r matches Err(e) && e == SyscallErr::EAGAIN && final(buf)@
                        == old(buf)@,
                }
            }),
    {
        match self.try_recvmsg(buf) {
            Ok((n, _)) => Ok(n),
            Err(e) => Err(e),
        }
    }

    pub fn socket_r_ready(&self) -> (r: bool)
        ensures
            r == (self@.queue.len() > 0),
    {
        self.recv_queue.len() > 0
    }

    pub fn socket_w_ready(&self) -> (r: bool)
        ensures
            r == (self@.queue.len() < self@.capacity),
    {
        self.recv_queue.len() < self.recv_queue_capacity
    }

    pub fn local_endpoint(&self) -> (r: Option<Endpoint>)
        ensures
            opt_model(r) == name_endpoint(self@.local),
    {
        endpoint_of(&self.local_addr)
    }

    pub fn remote_endpoint(&self) -> (r: Option<Endpoint>)
        ensures
            opt_model(r) == name_endpoint(self@.peer),
    {
        endpoint_of(&self.peer_addr)
    }

    /// Makes two sockets that send to each other, under names that are made up.
    /// The sockets themselves stay without a name.
    pub fn new_pair(space: &mut UnixDatagrams, is_nonblock: bool) -> (r: Option<(u64, u64)>)
        requires
            old(space).wf(),
        ensures
            final(space).wf(),
            match r {
                Some((a, b)) => {
                    &&& a == old(space)@.next_socket
                    &&& b == a + 1
                    &&& final(space)@ == pair_opened(old(space)@, is_nonblock)
                },
                None => old(space)@.next_socket >= u64::MAX - 1,
            },
    {
        let ghost m = space@;
        let name_a = space.table.allocate_abstract_name();
        let name_b = space.table.allocate_abstract_name();
        let mut sock_a = UnixDatagramSocket::new(is_nonblock);
        let mut sock_b = UnixDatagramSocket::new(is_nonblock);
        sock_a.peer_addr = Some(UnixEndpointBound::Abstract(bytes::copy_range(&name_b, 0, name_b.len())));
        sock_b.peer_addr = Some(UnixEndpointBound::Abstract(bytes::copy_range(&name_a, 0, name_a.len())));
        let ghost na = UnixName::Abstract(name_a@);
        let ghost nb = UnixName::Abstract(name_b@);
        proof {
            assert(name_a@.subrange(0, name_a@.len() as int) =~= name_a@);
            assert(name_b@.subrange(0, name_b@.len() as int) =~= name_b@);
            assert(sock_a@ =~= paired(nb, is_nonblock));
            assert(sock_b@ =~= paired(na, is_nonblock));
        }
        let a: u64 = match space.sockets.insert(sock_a) {
            Some(id) => id,
            None => return None,
        };
        let b: u64 = match space.sockets.insert(sock_b) {
            Some(id) => id,
            None => return None,
        };
        space.table.names.insert(UnixEndpointBound::Abstract(name_a), a);
        space.table.names.insert(UnixEndpointBound::Abstract(name_b), b);
        proof {
            assert(space@.sockets =~= m.sockets.insert(a, paired(nb, is_nonblock)).insert(
                b,
                paired(na, is_nonblock),
            ));
        }
        Some((a, b))
    }
}

/// A fresh socket that sends to a name.
pub open spec fn paired(peer: UnixName, is_nonblock: bool) -> DatagramModel {
    DatagramModel {
        local: None,
        peer: Some(peer),
        queue: Seq::empty(),
        capacity: DEFAULT_RECV_QUEUE_CAPACITY,
        is_nonblock,
    }
}

/// The sockets with two more that send to each other under made-up names.
pub open spec fn pair_opened(m: SpaceModel, is_nonblock: bool) -> SpaceModel {
    let a = m.next_socket;
    let b = (a + 1) as u64;
    let name_a = UnixName::Abstract(abstract_name(m.next_abstract_id));
    let name_b = UnixName::Abstract(abstract_name(m.next_abstract_id.wrapping_add(1)));
    SpaceModel {
        sockets: m.sockets.insert(a, paired(name_b, is_nonblock)).insert(
            b,
            paired(name_a, is_nonblock),
        ),
        names: m.names.insert(name_a, a).insert(name_b, b),
        next_abstract_id: m.next_abstract_id.wrapping_add(1).wrapping_add(1),
        next_socket: (b + 1) as u64,
    }
}

/// The names of datagram sockets.
pub struct BindTable {
    pub names: NameTable,
    pub next_abstract_id: usize,
}

/// The abstract name that is made up for a number.
pub open spec fn abstract_name(id: usize) -> Seq<u8> {
    utf8::encode_utf8("__abstract_"@ + text::decimal(id as nat))
}

impl BindTable {
    pub fn new() -> (r: BindTable)
        ensures
            r.names.wf(),
            r.names@ == Map::<UnixName, u64>::empty(),
            r.next_abstract_id == 0,
    {
        BindTable { names: NameTable::new(), next_abstract_id: 0 }
    }

    /// Gives a socket a name. No name cannot be given.
    pub fn register(&mut self, addr: &UnixEndpointBound, socket: u64)
        requires
            old(self).names.wf(),
        ensures
            final(self).names.wf(),
            final(self).next_abstract_id == old(self).next_abstract_id,
            final(self).names@ == if addr@ == UnixName::Unnamed {
                old(self).names@
            } else {
                old(self).names@.insert(addr@, socket)
            },
    {
        match addr {
            UnixEndpointBound::Unnamed => {},
            _ => {
                self.names.insert(addr.duplicate(), socket);
            },
        }
    }

    /// Takes a name out.
    pub fn unregister(&mut self, addr: &UnixEndpointBound)
        requires
            old(self).names.wf(),
        ensures
            final(self).names.wf(),
            final(self).next_abstract_id == old(self).next_abstract_id,
            final(self).names@ == if addr@ == UnixName::Unnamed {
                old(self).names@
            } else {
                old(self).names@.remove(addr@)
            },
    {
        match addr {
            UnixEndpointBound::Unnamed => {},
            _ => {
                self.names.remove(addr);
            },
        }
    }

    /// The socket that has a name, while it lives.
    pub fn lookup<T>(&self, addr: &UnixEndpointBound, sockets: &Arena<T>) -> (r: Option<u64>)
        requires
            self.names.wf(),
        ensures
            r == named_socket(self.names@, addr@, sockets@.dom()),
    {
        match addr {
            UnixEndpointBound::Unnamed => None,
            _ => match self.names.get(addr) {
                Some(id) => if sockets.contains(id) {
                    Some(id)
                } else {
                    None
                },
                None => None,
            },
        }
    }

    /// Makes up an abstract name.
    pub fn allocate_abstract_name(&mut self) -> (r: Vec<u8>)
        ensures
            r@ == abstract_name(old(self).next_abstract_id),
            final(self).next_abstract_id == old(self).next_abstract_id.wrapping_add(1),
            final(self).names == old(self).names,
    {
        let id: usize = self.next_abstract_id;
        self.next_abstract_id = id.wrapping_add(1);
        let mut s: String = "__abstract_".to_owned();
        text::push_decimal(&mut s, id as u64);
        let mut out: Vec<u8> = Vec::new();
        bytes::append_bytes(&mut out, s.as_str().as_bytes());
        assert(out@ =~= abstract_name(id));
        out
    }
}

/// The live socket that has a name.
pub open spec fn named_socket(names: Map<UnixName, u64>, name: UnixName, live: Set<u64>) -> Option<
    u64,
> {
    if name == UnixName::Unnamed {
        None
    } else {
        ns::live_socket(names, name, live)
    }
}

/// All datagram sockets and their names.
pub struct UnixDatagrams {
    pub sockets: Arena<UnixDatagramSocket>,
    pub table: BindTable,
}

/// What [`UnixDatagrams`] holds.
#[verifier::ext_equal]
pub struct SpaceModel {
    pub sockets: Map<u64, DatagramModel>,
    pub names: Map<UnixName, u64>,
    pub next_abstract_id: usize,
    pub next_socket: u64,
}

pub open spec fn socket_models(m: Map<u64, UnixDatagramSocket>) -> Map<u64, DatagramModel> {
    Map::new(|id: u64| m.contains_key(id), |id: u64| m[id]@)
}

impl View for UnixDatagrams {
    type V = SpaceModel;

    open spec fn view(&self) -> SpaceModel {
        SpaceModel {
            sockets: socket_models(self.sockets@),
            names: self.table.names@,
            next_abstract_id: self.table.next_abstract_id,
            next_socket: self.sockets.next_id(),
        }
    }
}

/// Giving the socket `id` a name.
pub open spec fn bound(m: SpaceModel, id: u64, ep: EndpointModel) -> (
    SpaceModel,
    Result<usize, SyscallErr>,
) {
    match ep {
        EndpointModel::Unix(name) => if m.sockets[id].local is Some {
            (m, Err(SyscallErr::EINVAL))
        } else {
            (
                SpaceModel {
                    sockets: m.sockets.insert(
                        id,
                        DatagramModel { local: Some(name), ..m.sockets[id] },
                    ),
                    names: if name == UnixName::Unnamed {
                        m.names
                    } else {
                        m.names.insert(name, id)
                    },
                    ..m
                },
                Ok(0),
            )
        },
        _ => (m, Err(SyscallErr::EAFNOSUPPORT)),
    }
}

/// Telling the socket `id` where its messages go. The name must lead to a
/// socket, unless it is none.
pub open spec fn connected(m: SpaceModel, id: u64, ep: EndpointModel) -> (
    SpaceModel,
    Result<usize, SyscallErr>,
) {
    match ep {
        EndpointModel::Unix(name) => if name != UnixName::Unnamed && named_socket(
            m.names,
            name,
            m.sockets.dom(),
        ) is None {
            (m, Err(SyscallErr::ECONNREFUSED))
        } else {
            (
                SpaceModel {
                    sockets: m.sockets.insert(
                        id,
                        DatagramModel { peer: Some(name), ..m.sockets[id] },
                    ),
                    ..m
                },
                Ok(0),
            )
        },
        _ => (m, Err(SyscallErr::EAFNOSUPPORT)),
    }
}

/// The socket `id` sends a message to a name: it comes last in the queue of
/// the socket with that name, if that has room.
pub open spec fn sent(m: SpaceModel, id: u64, to: UnixName, data: Seq<u8>) -> (
    SpaceModel,
    Result<isize, SyscallErr>,
) {
    match named_socket(m.names, to, m.sockets.dom()) {
        None => (m, Err(SyscallErr::ECONNREFUSED)),
        Some(p) => {
            let peer = m.sockets[p];
            if peer.queue.len() >= peer.capacity {
                (m, Err(SyscallErr::EAGAIN))
            } else {
                let msg = MessageModel { data, src: m.sockets[id].local };
                (
                    SpaceModel {
                        sockets: m.sockets.insert(
                            p,
                            DatagramModel { queue: peer.queue.push(msg), ..peer },
                        ),
                        ..m
                    },
                    Ok(data.len() as isize),
                )
            }
        },
    }
}

/// A message to a destination, or without one to where the socket is
/// connected.
pub open spec fn sent_msg(m: SpaceModel, id: u64, dest: Option<EndpointModel>, data: Seq<u8>) -> (
    SpaceModel,
    Result<isize, SyscallErr>,
) {
    match dest {
        Some(EndpointModel::Unix(UnixName::Unnamed)) => (m, Err(SyscallErr::EINVAL)),
        Some(EndpointModel::Unix(name)) => sent(m, id, name, data),
        Some(_) => (m, Err(SyscallErr::EAFNOSUPPORT)),
        None => match m.sockets[id].peer {
            Some(name) => sent(m, id, name, data),
            None => (m, Err(SyscallErr::ENOTCONN)),
        },
    }
}

/// The socket `id` is gone, and its name with it.
pub open spec fn closed(m: SpaceModel, id: u64) -> SpaceModel {
    SpaceModel {
        sockets: m.sockets.remove(id),
        names: match m.sockets[id].local {
            Some(UnixName::Unnamed) => m.names,
            Some(name) => m.names.remove(name),
            None => m.names,
        },
        ..m
    }
}

impl UnixDatagrams {
    pub open spec fn wf(self) -> bool {
        self.sockets.wf() && self.table.names.wf()
    }

    pub fn new() -> (r: UnixDatagrams)
        ensures
            r.wf(),
            r@ == (SpaceModel {
                sockets: Map::empty(),
                names: Map::empty(),
                next_abstract_id: 0,
                next_socket: 0,
            }),
    {
        let r = UnixDatagrams { sockets: Arena::new(), table: BindTable::new() };
        assert(r@.sockets =~= Map::<u64, DatagramModel>::empty());
        r
    }

    /// Makes a socket.
    pub fn open(&mut self, is_nonblock: bool) -> (r: Option<u64>)
        requires
            old(self).wf(),
        ensures
            final(self).wf(),
            match r {
                Some(id) => id == old(self)@.next_socket && final(self)@ == (SpaceModel {
                    sockets: old(self)@.sockets.insert(
                        id,
                        DatagramModel {
                            local: None,
                            peer: None,
                            queue: Seq::empty(),
                            capacity: DEFAULT_RECV_QUEUE_CAPACITY,
                            is_nonblock,
                        },
                    ),
                    next_socket: (id + 1) as u64,
                    ..old(self)@
                }),
                None => old(self)@.next_socket == u64::MAX && final(self)@ == old(self)@,
            },
    {
        let r = self.sockets.insert(UnixDatagramSocket::new(is_nonblock));
        proof {
            if let Some(id) = r {
                assert(self@.sockets =~= old(self)@.sockets.insert(id, self.sockets@[id]@));
            }
        }
        r
    }

    /// Gives a socket a name.
    pub fn bind(&mut self, id: u64, endpoint: &Endpoint) -> (r: Result<usize, SyscallErr>)
        requires
            old(self).wf(),
            old(self)@.sockets.contains_key(id),
        ensures
            final(self).wf(),
            (final(self)@, r) == bound(old(self)@, id, endpoint@),
    {
        let unix_ep = match endpoint {
            Endpoint::Unix(ep) => ep,
            _ => return Err(SyscallErr::EAFNOSUPPORT),
        };
        let ghost m = self@;
        match self.sockets.get(id) {
            Some(s) => {
                if s.local_addr.is_some() {
                    return Err(SyscallErr::EINVAL);
                }
            },
            None => {},
        }
        let name = unix_ep.duplicate().into_bound();
        self.table.register(&name, id);
        if let Some(mut s) = self.sockets.take(id) {
            s.local_addr = Some(name);
            let ghost model = s@;
            self.sockets.put(id, s);
            assert(self@.sockets =~= m.sockets.insert(id, model));
        }
        Ok(0)
    }

    /// Tells a socket where its messages go.
    pub fn connect(&mut self, id: u64, endpoint: &Endpoint) -> (r: Result<usize, SyscallErr>)
        requires
            old(self).wf(),
            old(self)@.sockets.contains_key(id),
        ensures
            final(self).wf(),
            (final(self)@, r) == connected(old(self)@, id, endpoint@),
    {
        let unix_ep = match endpoint {
            Endpoint::Unix(ep) => ep,
            _ => return Err(SyscallErr::EAFNOSUPPORT),
        };
        let ghost m = self@;
        let name = unix_ep.duplicate().into_bound();
        assert(self.sockets@.dom() =~= m.sockets.dom());
        match unix_ep {
            UnixEndpoint::Unnamed => {},
            _ => {
                if self.table.lookup(&name, &self.sockets).is_none() {
                    return Err(SyscallErr::ECONNREFUSED);
                }
            },
        }
        if let Some(mut s) = self.sockets.take(id) {
            s.peer_addr = Some(name);
            let ghost model = s@;
            self.sockets.put(id, s);
            assert(self@.sockets =~= m.sockets.insert(id, model));
        }
        Ok(0)
    }

    /// Sends a message to a name. Who waits for the receiver is then woken.
    pub fn send_to_bound(&mut self, id: u64, peer_addr: &UnixEndpointBound, buf: &[u8]) -> (r: Result<
        isize,
        SyscallErr,
    >)
        requires
            old(self).wf(),
            old(self)@.sockets.contains_key(id),
            buf@.len() <= isize::MAX,
        ensures
            final(self).wf(),
            (final(self)@, r) == sent(old(self)@, id, peer_addr@, buf@),
    {
        let ghost m = self@;
        let src_addr = match self.sockets.get(id) {
            Some(s) => dup_name(&s.local_addr),
            None => None,
        };
        assert(self.sockets@.dom() =~= m.sockets.dom());
        let peer: u64 = match self.table.lookup(peer_addr, &self.sockets) {
            Some(p) => p,
            None => return Err(SyscallErr::ECONNREFUSED),
        };
        if let Some(s) = self.sockets.get(peer) {
            if s.recv_queue.len() >= s.recv_queue_capacity {
                return Err(SyscallErr::EAGAIN);
            }
        }
        if let Some(mut s) = self.sockets.take(peer) {
            let ghost before = s@;
            let data = bytes::copy_range(buf, 0, buf.len());
            assert(data@ =~= buf@);
            let msg = DatagramMessage { data, src_addr };
            let ghost msg_model = msg@;
            s.recv_queue.push_back(msg);
            assert(s@.queue =~= before.queue.push(msg_model));
            let ghost model = s@;
            self.sockets.put(peer, s);
            assert(self@.sockets =~= m.sockets.insert(peer, model));
        }
        Ok(buf.len() as isize)
    }

    /// Sends a message to where the socket is connected.
    pub fn try_send(&mut self, id: u64, buf: &[u8]) -> (r: Result<isize, SyscallErr>)
        requires
            old(self).wf(),
            old(self)@.sockets.contains_key(id),
            buf@.len() <= isize::MAX,
        ensures
            final(self).wf(),
            (final(self)@, r) == sent_msg(old(self)@, id, None, buf@),
    {
        let peer = match self.sockets.get(id) {
            Some(s) => dup_name(&s.peer_addr),
            None => None,
        };
        match peer {
            Some(name) => self.send_to_bound(id, &name, buf),
            None => Err(SyscallErr::ENOTCONN),
        }
    }

    /// Sends a message to a destination, or without one to where the socket is
    /// connected.
    pub fn try_sendmsg(&mut self, id: u64, buf: &[u8], dest: &Option<Endpoint>) -> (r: Result<
        isize,
        SyscallErr,
    >)
        requires
            old(self).wf(),
            old(self)@.sockets.contains_key(id),
            buf@.len() <= isize::MAX,
        ensures
            final(self).wf(),
            (final(self)@, r) == sent_msg(old(self)@, id, opt_model(*dest), buf@),
    {
        match dest {
            Some(Endpoint::Unix(UnixEndpoint::Unnamed)) => Err(SyscallErr::EINVAL),
            Some(Endpoint::Unix(ep)) => {
                let name = ep.duplicate().into_bound();
                self.send_to_bound(id, &name, buf)
            },
            Some(_) => Err(SyscallErr::EAFNOSUPPORT),
            None => self.try_send(id, buf),
        }
    }

    /// Receives the first message of a socket.
    pub fn try_recvmsg(&mut self, id: u64, buf: &mut [u8]) -> (r: Result<
        (isize, Option<Endpoint>),
        SyscallErr,
    >)
        requires
            old(self).wf(),
            old(self)@.sockets.contains_key(id),
            old(buf)@.len() <= isize::MAX,
        ensures
            final(self).wf(),
            ({
                let (next, got) = taken(old(self)@.sockets[id], old(buf)@);
                &&& final(self)@ == (SpaceModel {
                    sockets: old(self)@.sockets.insert(id, next),
                    ..old(self)@
                })
                &&& match got {
                    Some((n, from, out)) => {
                        &&& r matches Ok((k, ep))
                        &&& k == n
                        &&& opt_model(ep) == from
                        &&& final(buf)@ == out
                    },
                    None => r matches Err(e) && e == SyscallErr::EAGAIN && final(buf)@
                        == old(buf)@,
                }
            }),
    {
        let ghost m = self@;
        match self.sockets.take(id) {
            Some(mut s) => {
                let r = s.try_recvmsg(buf);
                let ghost model = s@;
                self.sockets.put(id, s);
                assert(self@.sockets =~= m.sockets.insert(id, model));
                r
            },
            None => Err(SyscallErr::EAGAIN),
        }
    }

    /// Copies the first message of a socket, which stays in its queue: what the
    /// next receive with the same room gives.
    pub fn try_peek_recvmsg(&self, id: u64, buf: &mut [u8]) -> (r: Result<
        (isize, Option<Endpoint>),
        SyscallErr,
    >)
        requires
            self@.sockets.contains_key(id),
            old(buf)@.len() <= isize::MAX,
        ensures
            match shown(self@.sockets[id], old(buf)@) {
                Some((n, from, out)) => {
                    &&& r matches Ok((k, ep))
                    &&& k == n
                    &&& opt_model(ep) == from
                    &&& final(buf)@ == out
                },
                None => r matches Err(e) && e == SyscallErr::EAGAIN && final(buf)@ == old(buf)@,
            },
    {
        match self.sockets.get(id) {
            Some(s) => s.try_peek_recvmsg(buf),
            None => Err(SyscallErr::EAGAIN),
        }
    }

    /// Closes a socket.
    pub fn close(&mut self, id: u64)
        requires
            old(self).wf(),
            old(self)@.sockets.contains_key(id),
        ensures
            final(self).wf(),
            final(self)@ == closed(old(self)@, id),
    {
        let ghost m = self@;
        if let Some(s) = self.sockets.take(id) {
            assert(self@.sockets =~= m.sockets.remove(id));
            if let Some(name) = &s.local_addr {
                self.table.unregister(name);
            }
        }
    }
}

/// What one socket sends to the name of another comes out there unchanged,
/// after what was in the queue, with the name of the sender.
pub proof fn law_datagram_arrives(m: SpaceModel, id: u64, to: UnixName, p: u64, data: Seq<u8>)
    requires
        named_socket(m.names, to, m.sockets.dom()) == Some(p),
        m.sockets[p].queue.len() < m.sockets[p].capacity,
    ensures
        ({
            let after = sent(m, id, to, data).0;
            let q = after.sockets[p].queue;
            &&& sent(m, id, to, data).1 is Ok
            &&& q == m.sockets[p].queue.push(MessageModel { data, src: m.sockets[id].local })
            &&& forall|other: u64|
                other != p && m.sockets.contains_key(other) ==> #[trigger] after.sockets[other]
                    == m.sockets[other]
        }),
{
}

/// A socket that was bound to a name is the one that a message to that name
/// reaches, and a client that connects to it sends there.
pub proof fn law_bound_name_is_reached(m: SpaceModel, id: u64, client: u64, name: UnixName)
    requires
        m.sockets.contains_key(id),
        m.sockets.contains_key(client),
        name != UnixName::Unnamed,
        bound(m, id, EndpointModel::Unix(name)).1 is Ok,
    ensures
        ({
            let n = bound(m, id, EndpointModel::Unix(name)).0;
            let (c, r) = connected(n, client, EndpointModel::Unix(name));
            &&& named_socket(n.names, name, n.sockets.dom()) == Some(id)
            &&& r == Ok::<usize, SyscallErr>(0)
            &&& c.sockets[client].peer == Some(name)
            &&& named_socket(c.names, name, c.sockets.dom()) == Some(id)
        }),
{
}

/// A look takes nothing away: the receive that follows gives the same bytes from
/// the same sender.
pub proof fn law_peek_then_receive(m: DatagramModel, buf: Seq<u8>)
    ensures
        taken(m, buf).1 == shown(m, buf),
{
}

/// A closed socket cannot be reached by its name any more.
pub proof fn law_closed_is_unreachable(m: SpaceModel, id: u64, other: u64, data: Seq<u8>)
    requires
        m.sockets.contains_key(id),
        m.sockets[id].local is Some,
    ensures
        sent(closed(m, id), other, m.sockets[id].local->0, data).1 == Err::<isize, SyscallErr>(
            SyscallErr::ECONNREFUSED,
        ),
{
}

/// Names that are made up for two numbers differ.
proof fn lemma_made_up_names_differ(a: usize, b: usize)
    requires
        a != b,
    ensures
        abstract_name(a) != abstract_name(b),
{
    let ta = "__abstract_"@ + text::decimal(a as nat);
    let tb = "__abstract_"@ + text::decimal(b as nat);
    utf8::encode_utf8_decode_utf8(ta);
    utf8::encode_utf8_decode_utf8(tb);
    if ta == tb {
        let n = "__abstract_"@.len() as int;
        assert(ta.skip(n) =~= text::decimal(a as nat));
        assert(tb.skip(n) =~= text::decimal(b as nat));
        text::law_decimal_spells(a as nat);
        text::law_decimal_spells(b as nat);
    }
}

/// Two sockets made as a pair send to each other.
pub proof fn law_pair_is_connected(m: SpaceModel, is_nonblock: bool)
    requires
        m.next_socket < u64::MAX,
    ensures
        ({
            let n = pair_opened(m, is_nonblock);
            let a = m.next_socket;
            let b = (a + 1) as u64;
            &&& named_socket(n.names, n.sockets[a].peer->0, n.sockets.dom()) == Some(b)
            &&& named_socket(n.names, n.sockets[b].peer->0, n.sockets.dom()) == Some(a)
        }),
{
    let id = m.next_abstract_id;
    lemma_made_up_names_differ(id, id.wrapping_add(1));
}

/// A new pair carries messages both ways: what one sends comes out at the
/// other, unchanged and alone, and the sender itself gets nothing.
pub proof fn law_pair_is_two_way(m: SpaceModel, is_nonblock: bool, data: Seq<u8>)
    requires
        m.next_socket < u64::MAX,
    ensures
        ({
            let n = pair_opened(m, is_nonblock);
            let a = m.next_socket;
            let b = (a + 1) as u64;
            let (ab, r) = sent_msg(n, a, None, data);
            let (ba, q) = sent_msg(n, b, None, data);
            &&& r == Ok::<isize, SyscallErr>(data.len() as isize)
            &&& ab.sockets[b].queue == seq![MessageModel { data, src: None }]
            &&& ab.sockets[a].queue.len() == 0
            &&& q == Ok::<isize, SyscallErr>(data.len() as isize)
            &&& ba.sockets[a].queue == seq![MessageModel { data, src: None }]
            &&& ba.sockets[b].queue.len() == 0
        }),
{
    law_pair_is_connected(m, is_nonblock);
    let msg = MessageModel { data, src: None };
    assert(Seq::<MessageModel>::empty().push(msg) =~= seq![msg]);
}

} // verus!
