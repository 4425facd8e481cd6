//! Sockets between processes of one machine: what arrives, in which order, and
//! who is reached.
use vstd::prelude::*;
use vstd::utf8;
use crate::bytes;
use crate::error::SyscallErr;
use crate::socket::unix;
use crate::socket::unix::datagram;
use crate::socket::unix::datagram::{DatagramModel, SpaceModel};
use crate::socket::unix::ns;
use crate::socket::unix::stream;
use crate::socket::unix::stream::inner::{ConnModel, InnerModel};
use crate::socket::unix::stream::StreamsModel;
use crate::socket::unix::unix as pipes;
use crate::socket::unix::unix::{PipesModel, UnixSocket};
use crate::socket::unix::UnixName;
use crate::socket::EndpointModel;

verus! {

/// What is written goes behind what waits for the other end: all of it, or as much
/// as there is room for, and at least something where there is room. Where there
/// is none the writer waits, or is told that nobody reads any more.
pub proof fn law_stream_write(m: StreamsModel, id: u64, c: ConnModel, data: Seq<u8>)
    requires
        m.sockets[id].inner == InnerModel::Connected(c),
        m.rings.contains_key(c.peer_rx),
        m.rings[c.peer_rx].data.len() <= m.rings[c.peer_rx].capacity,
        data.len() <= isize::MAX,
    ensures
        ({
            let (n, r) = stream::written(m, id, data);
            let before = m.rings[c.peer_rx];
            let after = n.rings[c.peer_rx];
            &&& n.sockets == m.sockets
            &&& r matches Ok(k) ==> {
                &&& 0 <= k <= data.len()
                &&& after.data == before.data + data.take(k as int)
                &&& after.data.len() <= after.capacity
                &&& k == data.len() || after.data.len() == after.capacity
            }
            &&& before.data.len() < before.capacity <==> r is Ok
            &&& r is Err ==> n == m && r->Err_0 == if before.recv_shutdown {
                SyscallErr::EPIPE
            } else {
                SyscallErr::EAGAIN
            }
        }),
{
}

/// What is read comes from the front of what waits: as much as was asked for or
/// all there is, and it is gone then. Where nothing waits the reader waits, or
/// is at the end once the writer has ended.
pub proof fn law_stream_read(m: StreamsModel, id: u64, c: ConnModel, room: int)
    requires
        m.sockets[id].inner == InnerModel::Connected(c),
        m.rings.contains_key(c.rx),
        0 <= room <= isize::MAX,
    ensures
        ({
            let (n, got, r) = stream::read(m, id, room);
            let before = m.rings[c.rx];
            &&& n.sockets == m.sockets
            &&& got + n.rings[c.rx].data == before.data
            &&& got.len() <= room
            &&& got.len() == room || n.rings[c.rx].data.len() == 0
            &&& before.data.len() > 0 ==> r is Ok && r->Ok_0 == got.len()
            &&& before.data.len() == 0 && before.send_shutdown ==> r is Ok && r->Ok_0 == 0
            &&& before.data.len() == 0 && !before.send_shutdown ==> n == m && r is Err && r->Err_0
                == SyscallErr::EAGAIN
        }),
{
    let (n, got, r) = stream::read(m, id, room);
    assert(got + n.rings[c.rx].data =~= m.rings[c.rx].data);
}

/// A socket without a connection neither reads nor writes.
pub proof fn law_unconnected_stream(m: StreamsModel, id: u64, data: Seq<u8>, room: int)
    requires
        !(m.sockets[id].inner is Connected),
    ensures
        stream::written(m, id, data).0 == m,
        stream::written(m, id, data).1 is Err,
        stream::written(m, id, data).1->Err_0 == SyscallErr::ENOTCONN,
        stream::read(m, id, room).0 == m,
        stream::read(m, id, room).2 is Err,
        stream::read(m, id, room).2->Err_0 == SyscallErr::ENOTCONN,
        stream::shutdown_effect(m, id, 2).0 == m,
        stream::shutdown_effect(m, id, 2).1 is Err,
        stream::shutdown_effect(m, id, 2).1->Err_0 == SyscallErr::ENOTCONN,
{
}

/// Ending the sending side is seen by the other end, which reads what waits and
/// then the end; ending the receiving side is marked on what this end reads.
/// Nothing that waits is lost, and any other way of ending is refused.
pub proof fn law_stream_shutdown(m: StreamsModel, id: u64, c: ConnModel, how: u32)
    requires
        m.sockets[id].inner == InnerModel::Connected(c),
        m.rings.contains_key(c.peer_rx),
        m.rings.contains_key(c.rx),
        c.rx != c.peer_rx,
    ensures
        ({
            let (n, r) = stream::shutdown_effect(m, id, how);
            &&& how <= 2 <==> r is Ok
            &&& how > 2 ==> n == m && r->Err_0 == SyscallErr::EINVAL
            &&& how <= 2 ==> {
                &&& n.sockets == m.sockets
                &&& n.rings[c.rx].data == m.rings[c.rx].data
                &&& n.rings[c.peer_rx].data == m.rings[c.peer_rx].data
                &&& n.rings[c.peer_rx].send_shutdown <==> m.rings[c.peer_rx].send_shutdown || how
                    == 1 || how == 2
                &&& n.rings[c.rx].recv_shutdown <==> m.rings[c.rx].recv_shutdown || how == 0 || how
                    == 2
                &&& n.rings[c.rx].send_shutdown == m.rings[c.rx].send_shutdown
                &&& n.rings[c.peer_rx].recv_shutdown == m.rings[c.peer_rx].recv_shutdown
            }
        }),
{
}

/// A client reaches the living socket that has the name: it becomes one end of a
/// new connection, remembers the name as its peer's and whom it came from, and
/// the other end waits last with that socket.
pub proof fn law_stream_connects(
    m: StreamsModel,
    id: u64,
    server: u64,
    name: Seq<u8>,
    creds: Option<(u32, u32, u32)>,
    local: UnixName,
    backlog: usize,
    incoming: Seq<ConnModel>,
    addr: Option<UnixName>,
)
    requires
        1 <= name.len() <= 107,
        id != server,
        m.abstract_names.contains_key(UnixName::Abstract(name)),
        m.abstract_names[UnixName::Abstract(name)] == server,
        !m.other_abstract.contains_key(UnixName::Abstract(name)),
        m.sockets.contains_key(server),
        m.sockets[server].inner == (InnerModel::Listener { local, backlog, incoming }),
        m.sockets[id].inner == (InnerModel::Init { addr }),
        m.next_ring < u64::MAX - 1,
    ensures
        ({
            let ep = EndpointModel::Unix(UnixName::Abstract(name));
            let (n, r) = stream::connected(m, id, ep, creds);
            &&& incoming.len() >= backlog ==> r is Err && r->Err_0 == SyscallErr::EAGAIN
                && n.sockets == m.sockets && n.rings == m.rings
            &&& incoming.len() < backlog ==> {
                &&& r is Ok && r->Ok_0 == 0
                &&& n.sockets[id].inner matches InnerModel::Connected(c)
                &&& c.addr == addr
                &&& c.peer_addr == Some(UnixName::Abstract(name))
                &&& n.sockets[server].inner matches InnerModel::Listener { incoming: q, .. }
                &&& q.len() == incoming.len() + 1
                &&& q.drop_last() == incoming
                &&& q.last().rx == c.peer_rx && q.last().peer_rx == c.rx && c.rx != c.peer_rx
                &&& q.last().peer_creds == creds
                &&& n.rings[c.rx].data.len() == 0 && n.rings[c.peer_rx].data.len() == 0
                &&& n.rings[c.rx].capacity > 0 && n.rings[c.peer_rx].capacity > 0
                &&& !n.rings[c.rx].send_shutdown && !n.rings[c.peer_rx].send_shutdown
            }
        }),
{
    assert(incoming.push(
        ConnModel {
            addr: None,
            peer_addr: None,
            peer_creds: creds,
            peer_rx: m.next_ring,
            rx: (m.next_ring + 1) as u64,
        },
    ).drop_last() =~= incoming);
}

/// A name that nobody has refuses, and so does one whose socket is gone; a socket
/// that does not listen cannot be connected to.
pub proof fn law_nobody_listens(
    m: StreamsModel,
    id: u64,
    name: Seq<u8>,
    creds: Option<(u32, u32, u32)>,
)
    requires
        1 <= name.len() <= 107,
        !m.other_abstract.contains_key(UnixName::Abstract(name)),
    ensures
        ({
            let key = UnixName::Abstract(name);
            let (n, r) = stream::connected(m, id, EndpointModel::Unix(key), creds);
            &&& !m.abstract_names.contains_key(key) || !m.sockets.contains_key(m.abstract_names[key])
                ==> n == m && r is Err && r->Err_0 == SyscallErr::ECONNREFUSED
            &&& m.abstract_names.contains_key(key) && m.sockets.contains_key(m.abstract_names[key])
                && !(m.sockets[m.abstract_names[key]].inner is Listener) ==> r is Err && r->Err_0
                == SyscallErr::EOPNOTSUPP
        }),
{
}

/// A bound socket listens under its name, with nobody waiting; one without a name
/// and one that is connected cannot.
pub proof fn law_stream_listens(s: InnerModel)
    ensures
        ({
            let (n, r) = stream::listening(s);
            &&& s matches InnerModel::Init { addr: Some(name) } ==> {
                &&& r is Ok
                &&& n matches InnerModel::Listener { local, backlog, incoming }
                &&& local == name && incoming.len() == 0 && backlog > 0
            }
            &&& s matches InnerModel::Init { addr: None } ==> n == s && r is Err && r->Err_0
                == SyscallErr::EINVAL
            &&& !(s is Init) ==> n == s && r is Err && r->Err_0 == SyscallErr::EOPNOTSUPP
        }),
{
}

/// A socket is named once, with the name that is asked for; an abstract name has
/// 1 to 107 bytes.
pub proof fn law_stream_is_named_once(addr: Option<UnixName>, name: Seq<u8>, path: Seq<char>)
    ensures
        ({
            let s = InnerModel::Init { addr };
            let (a, ra) = stream::named(s, EndpointModel::Unix(UnixName::Abstract(name)));
            let (p, rp) = stream::named(s, EndpointModel::Unix(UnixName::Path(path)));
            &&& addr is Some ==> a == s && p == s && ra is Err && rp is Err && ra->Err_0
                == SyscallErr::EINVAL && rp->Err_0 == SyscallErr::EINVAL
            &&& addr is None ==> rp is Ok && p == (InnerModel::Init { addr: Some(UnixName::Path(path)) })
            &&& addr is None && 1 <= name.len() <= 107 ==> ra is Ok && a == (InnerModel::Init {
                addr: Some(UnixName::Abstract(name)),
            })
            &&& name.len() == 0 || name.len() > 107 ==> a == s && ra is Err && ra->Err_0
                == SyscallErr::EINVAL
        }),
{
}

/// A closed stream leaves no trace: the socket is gone and its name is free, and
/// every other socket stays.
pub proof fn law_closed_stream(m: StreamsModel, id: u64, other: u64)
    requires
        m.sockets.contains_key(id),
        m.sockets.contains_key(other),
        other != id,
    ensures
        ({
            let n = stream::closed(m, id);
            &&& !n.sockets.contains_key(id)
            &&& n.sockets.contains_key(other) && n.sockets[other] == m.sockets[other]
            &&& m.sockets[id].inner matches InnerModel::Init { addr: Some(UnixName::Abstract(a)) }
                ==> !n.abstract_names.contains_key(UnixName::Abstract(a))
            &&& m.sockets[id].inner matches InnerModel::Init { addr: Some(UnixName::Path(p)) }
                ==> !n.path_names.contains_key(UnixName::Path(p))
            &&& m.sockets[id].inner matches InnerModel::Listener {
                local: UnixName::Abstract(a),
                ..
            } ==> !n.abstract_names.contains_key(UnixName::Abstract(a))
        }),
{
}

/// A message reaches the living socket that has the name, last in its queue, whole
/// and with the name of the sender; every other socket stays as it is. It is
/// refused where nobody has the name, and has to wait where the queue is full.
pub proof fn law_message_reaches_the_name(
    m: SpaceModel,
    id: u64,
    to: UnixName,
    data: Seq<u8>,
    other: u64,
)
    requires
        to != UnixName::Unnamed,
        m.sockets.contains_key(id),
        data.len() <= isize::MAX,
    ensures
        ({
            let (n, r) = datagram::sent_msg(m, id, Some(EndpointModel::Unix(to)), data);
            let there = m.names.contains_key(to) && m.sockets.contains_key(m.names[to]);
            let p = m.names[to];
            let full = m.sockets[p].queue.len() >= m.sockets[p].capacity;
            &&& !there ==> n == m && r is Err && r->Err_0 == SyscallErr::ECONNREFUSED
            &&& there && full ==> n == m && r is Err && r->Err_0 == SyscallErr::EAGAIN
            &&& there && !full ==> {
                &&& r is Ok && r->Ok_0 == data.len()
                &&& n.sockets[p].queue.len() == m.sockets[p].queue.len() + 1
                &&& n.sockets[p].queue.drop_last() == m.sockets[p].queue
                &&& n.sockets[p].queue.last().data == data
                &&& n.sockets[p].queue.last().src == m.sockets[id].local
                &&& n.sockets[p].local == m.sockets[p].local
                &&& n.sockets[p].peer == m.sockets[p].peer
                &&& other != p && m.sockets.contains_key(other) ==> n.sockets[other]
                    == m.sockets[other]
                &&& n.names == m.names
            }
        }),
{
    let p = m.names[to];
    let n = datagram::sent_msg(m, id, Some(EndpointModel::Unix(to)), data).0;
    if m.names.contains_key(to) && m.sockets.contains_key(p) && m.sockets[p].queue.len()
        < m.sockets[p].capacity {
        assert(n.sockets[p].queue.drop_last() =~= m.sockets[p].queue);
    }
}

/// Without a destination a message goes to the peer, and nowhere without one; a
/// destination of another family, or without a name, is refused.
pub proof fn law_message_goes_to_the_peer(m: SpaceModel, id: u64, data: Seq<u8>)
    ensures
        ({
            let r = datagram::sent_msg(m, id, None, data);
            let u = datagram::sent_msg(m, id, Some(EndpointModel::Unix(UnixName::Unnamed)), data);
            &&& m.sockets[id].peer is None ==> r.0 == m && r.1 is Err && r.1->Err_0
                == SyscallErr::ENOTCONN
            &&& m.sockets[id].peer matches Some(name) ==> (name != UnixName::Unnamed ==> r
                == datagram::sent_msg(m, id, Some(EndpointModel::Unix(name)), data))
            &&& u.0 == m && u.1 is Err && u.1->Err_0 == SyscallErr::EINVAL
        }),
{
}

/// Messages are received in the order in which they came, each once and from its
/// sender, as many bytes of it as fit in the buffer.
pub proof fn law_messages_are_received_in_order(m: DatagramModel, buf: Seq<u8>)
    ensures
        ({
            let (n, got) = datagram::taken(m, buf);
            &&& m.queue.len() == 0 ==> n == m && got is None
            &&& m.queue.len() > 0 ==> {
                &&& n.queue == m.queue.drop_first()
                &&& n.local == m.local && n.peer == m.peer
                &&& got matches Some((len, from, out))
                &&& len <= buf.len() && len <= m.queue[0].data.len()
                &&& len == buf.len() || len == m.queue[0].data.len()
                &&& out.len() == buf.len()
                &&& out.take(len) == m.queue[0].data.take(len)
                &&& out.skip(len) == buf.skip(len)
                &&& m.queue[0].src matches Some(name) ==> from == Some(EndpointModel::Unix(name))
                &&& m.queue[0].src is None ==> from is None
            }
        }),
{
    let (n, got) = datagram::taken(m, buf);
    if m.queue.len() > 0 {
        let (len, from, out) = got->0;
        assert(out.take(len) =~= m.queue[0].data.take(len));
        assert(out.skip(len) =~= buf.skip(len));
    }
}

/// A socket that is bound has the name that was asked for and is found by it; a
/// second name is refused.
pub proof fn law_datagram_is_named_once(m: SpaceModel, id: u64, name: UnixName)
    requires
        m.sockets.contains_key(id),
        name != UnixName::Unnamed,
    ensures
        ({
            let (n, r) = datagram::bound(m, id, EndpointModel::Unix(name));
            &&& m.sockets[id].local is Some ==> n == m && r is Err && r->Err_0 == SyscallErr::EINVAL
            &&& m.sockets[id].local is None ==> {
                &&& r is Ok && r->Ok_0 == 0
                &&& n.sockets[id].local == Some(name)
                &&& n.sockets[id].queue == m.sockets[id].queue
                &&& n.sockets[id].peer == m.sockets[id].peer
                &&& n.names.contains_key(name) && n.names[name] == id
                &&& forall|x: UnixName|
                    x != name && m.names.contains_key(x) ==> #[trigger] n.names[x] == m.names[x]
            }
        }),
{
}

/// A socket that connects has the name as its peer where somebody lives there, and
/// is refused where nobody does.
pub proof fn law_datagram_connects(m: SpaceModel, id: u64, name: UnixName)
    requires
        m.sockets.contains_key(id),
        name != UnixName::Unnamed,
    ensures
        ({
            let (n, r) = datagram::connected(m, id, EndpointModel::Unix(name));
            let there = m.names.contains_key(name) && m.sockets.contains_key(m.names[name]);
            &&& there ==> r is Ok && n.sockets[id].peer == Some(name) && n.sockets[id].queue
                == m.sockets[id].queue && n.sockets[id].local == m.sockets[id].local && n.names
                == m.names
            &&& !there ==> n == m && r is Err && r->Err_0 == SyscallErr::ECONNREFUSED
        }),
{
}

/// A pipe takes what is written behind what waits, as much as there is room for,
/// and gives it to the other end from the front.
pub proof fn law_pipe<const N: usize>(m: PipesModel, s: UnixSocket<N>, x: Seq<u8>, k: int)
    requires
        m.data.contains_key(s.write_end),
        m.data.contains_key(s.read_end),
        m.data[s.write_end].len() <= N,
        x.len() <= isize::MAX,
        0 <= k <= isize::MAX,
        N <= isize::MAX,
    ensures
        ({
            let (w, r) = pipes::sent(m, s, x);
            let before = m.data[s.write_end];
            &&& r matches Ok(n) ==> {
                &&& 0 <= n <= x.len()
                &&& w.data[s.write_end] == before + x.take(n as int)
                &&& n == x.len() || w.data[s.write_end].len() == N
                &&& w.data == m.data.insert(s.write_end, w.data[s.write_end])
            }
            &&& r is Err ==> w == m && before.len() == N && x.len() > 0 && r->Err_0
                == SyscallErr::EAGAIN
        }),
        ({
            let (w, got, r) = pipes::received(m, s, k);
            let before = m.data[s.read_end];
            &&& r matches Ok(n) ==> {
                &&& n == got.len() && got.len() <= k
                &&& got + w.data[s.read_end] == before
                &&& got.len() == k || w.data[s.read_end].len() == 0
            }
            &&& r is Err ==> w == m && before.len() == 0 && k > 0 && r->Err_0 == SyscallErr::EAGAIN
        }),
{
    let (w, got, r) = pipes::received(m, s, k);
    if r is Ok {
        assert(got + w.data[s.read_end] =~= m.data[s.read_end]);
    }
}

/// The address of a local socket, by its bytes: the family 1 in host order, then
/// the path with a final zero, or a zero and the abstract name.
pub proof fn law_local_address(p: Seq<char>, a: Seq<u8>, capacity: int)
    requires
        capacity >= 3,
        utf8::encode_utf8(p).len() + 3 <= capacity,
        a.len() + 3 <= capacity,
    ensures
        ({
            let path = unix::sockaddr_un(UnixName::Path(p), capacity);
            let name = unix::sockaddr_un(UnixName::Abstract(a), capacity);
            let none = unix::sockaddr_un(UnixName::Unnamed, capacity);
            &&& path[0] == 1 && path[1] == 0
            &&& path.len() == utf8::encode_utf8(p).len() + 3
            &&& path.subrange(2, path.len() - 1) == utf8::encode_utf8(p)
            &&& path.last() == 0
            &&& name[0] == 1 && name[1] == 0 && name[2] == 0
            &&& name.skip(3) == a
            &&& none.len() == 2 && none[0] == 1 && none[1] == 0
        }),
{
    let b = utf8::encode_utf8(p);
    let path = unix::sockaddr_un(UnixName::Path(p), capacity);
    let name = unix::sockaddr_un(UnixName::Abstract(a), capacity);
    assert(b.take(b.len() as int) =~= b);
    assert(path.subrange(2, path.len() - 1) =~= b);
    assert(name.skip(3) =~= a);
}

/// A name that is made up is eight bytes that spell its number, so two numbers have
/// two names.
pub proof fn law_made_up_names(a: u64, b: u64)
    ensures
        ns::ephemeral_name(a).len() == 8,
        ns::ephemeral_name(a) == ns::ephemeral_name(b) ==> a == b,
        a < 256 ==> ns::ephemeral_name(a)[7] == a && ns::ephemeral_name(a)[0] == 0,
{
    let x = ns::ephemeral_name(a);
    let y = ns::ephemeral_name(b);
    let (ah, al) = ((a / 0x1_0000_0000) as u32, (a % 0x1_0000_0000) as u32);
    let (bh, bl) = ((b / 0x1_0000_0000) as u32, (b % 0x1_0000_0000) as u32);
    bytes::lemma_be_roundtrip(0, ah);
    bytes::lemma_be_roundtrip(0, al);
    bytes::lemma_be_roundtrip(0, bh);
    bytes::lemma_be_roundtrip(0, bl);
    assert(x.take(4) =~= bytes::be32(ah) && x.skip(4) =~= bytes::be32(al));
    assert(y.take(4) =~= bytes::be32(bh) && y.skip(4) =~= bytes::be32(bl));
}

/// A path names a socket where its directory is one, nothing has the name, and the
/// file could be made.
pub proof fn law_socket_file(present: bool, created: Result<(), SyscallErr>)
    ensures
        stream::socket_file(false, present, created) == Err::<(), SyscallErr>(SyscallErr::ENOTDIR),
        stream::socket_file(true, true, created) == Err::<(), SyscallErr>(SyscallErr::EADDRINUSE),
        stream::socket_file(true, false, Err(SyscallErr::EEXIST)) == Err::<(), SyscallErr>(
            SyscallErr::EADDRINUSE,
        ),
        created != Err::<(), SyscallErr>(SyscallErr::EEXIST) ==> stream::socket_file(
            true,
            false,
            created,
        ) == created,
        stream::socket_file(true, present, created) is Ok <==> !present && created is Ok,
{
}

/// A pair is two new sockets over two new queues, crosswise: what one writes stands
/// in the queue that the other reads. Both queues are empty and open, and no
/// other socket changes.
pub proof fn law_new_local_pair(m: StreamsModel, nonblock: bool, other: u64)
    requires
        m.next_socket < u64::MAX - 1,
        m.next_ring < u64::MAX - 1,
        other < m.next_socket,
    ensures
        ({
            let n = stream::pair_opened(m, nonblock);
            let x = m.next_socket;
            let y = (m.next_socket + 1) as u64;
            &&& n.sockets.contains_key(x) && n.sockets.contains_key(y)
            &&& n.sockets[x].inner matches InnerModel::Connected(c)
            &&& n.sockets[y].inner matches InnerModel::Connected(d)
            &&& c.rx == d.peer_rx && c.peer_rx == d.rx && c.rx != d.rx
            &&& c.rx >= m.next_ring && d.rx >= m.next_ring
            &&& n.rings.contains_key(c.rx) && n.rings.contains_key(d.rx)
            &&& n.rings[c.rx].data.len() == 0 && n.rings[d.rx].data.len() == 0
            &&& n.rings[c.rx].capacity > 0 && n.rings[d.rx].capacity > 0
            &&& n.rings[c.rx].reader_open && n.rings[c.rx].writer_open
            &&& n.rings[d.rx].reader_open && n.rings[d.rx].writer_open
            &&& !n.rings[c.rx].recv_shutdown && !n.rings[c.rx].send_shutdown
            &&& n.sockets[other] == m.sockets[other]
            &&& n.next_socket > y && n.next_ring > c.rx && n.next_ring > d.rx
        }),
{
}

/// Whom a client reaches: the living socket that has the path or the name. A name
/// without bytes or with too many is none, a socket of another kind takes no
/// connections, and an address of another family is refused.
pub proof fn law_whom_a_client_reaches(
    m: StreamsModel,
    path: Seq<char>,
    name: Seq<u8>,
    ep: crate::wire::IpEndpoint,
)
    ensures
        ({
            let key = UnixName::Path(path);
            let r = stream::server_of(m, EndpointModel::Unix(key));
            let there = m.path_names.contains_key(key) && m.sockets.contains_key(m.path_names[key]);
            &&& m.other_paths.contains_key(key) ==> r is Err && r->Err_0 == SyscallErr::EOPNOTSUPP
            &&& !m.other_paths.contains_key(key) && there ==> r is Ok && r->Ok_0
                == m.path_names[key]
            &&& !m.other_paths.contains_key(key) && !there ==> r is Err && r->Err_0
                == SyscallErr::ECONNREFUSED
        }),
        name.len() == 0 || name.len() > 107 ==> stream::server_of(
            m,
            EndpointModel::Unix(UnixName::Abstract(name)),
        ) == Err::<u64, SyscallErr>(SyscallErr::EINVAL),
        stream::server_of(m, EndpointModel::Unix(UnixName::Unnamed)) == Err::<u64, SyscallErr>(
            SyscallErr::EOPNOTSUPP,
        ),
        stream::server_of(m, EndpointModel::Ip(ep)) == Err::<u64, SyscallErr>(
            SyscallErr::EAFNOSUPPORT,
        ),
{
}

/// When one end of a connection is closed, the other finds nobody to write to, and
/// the end of what it reads.
pub proof fn law_other_end_learns(m: StreamsModel, id: u64, c: ConnModel)
    requires
        m.sockets[id].inner == InnerModel::Connected(c),
        m.rings.contains_key(c.rx),
        m.rings.contains_key(c.peer_rx),
        c.rx != c.peer_rx,
        m.rings[c.rx].writer_open,
        m.rings[c.peer_rx].reader_open,
    ensures
        ({
            let n = stream::closed(m, id);
            let mine = stream::ring_of(n.rings, c.rx);
            let theirs = stream::ring_of(n.rings, c.peer_rx);
            &&& mine.recv_shutdown
            &&& theirs.send_shutdown
            &&& theirs.data == m.rings[c.peer_rx].data
        }),
{
}

} // verus!
