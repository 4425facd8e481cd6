use kernel_net::arena::Arena;
use kernel_net::error::SyscallErr;
use kernel_net::socket::unix;
use kernel_net::socket::unix::datagram::{UnixDatagramSocket, UnixDatagrams};
use kernel_net::socket::unix::ns::UnixAbstractTable;
use kernel_net::socket::unix::ring_buffer::{rb_alive, rb_bytes, RingBuffer, RingStats};
use kernel_net::socket::unix::stream::inner;
use kernel_net::socket::unix::stream::{socket_file_step, UnixStreams};
use kernel_net::socket::unix::unix as pipes;
use kernel_net::socket::unix::{UnixEndpoint, UnixPair, UnixSocketId};
use kernel_net::socket::{Endpoint, PSOCK};
use kernel_net::syscall::receive::{receive_unix_datagram, receive_unix_stream};
use kernel_net::syscall::recvfrom::RecvVia;

fn path(p: &str) -> Endpoint {
    Endpoint::Unix(UnixEndpoint::Path(p.to_string()))
}

fn named(n: &[u8]) -> Endpoint {
    Endpoint::Unix(UnixEndpoint::Abstract(n.to_vec()))
}

#[test]
fn a_ring_gives_back_what_was_put_in() {
    let mut stats = RingStats::new();
    let mut r: RingBuffer<u8> = RingBuffer::new(4, &mut stats);
    assert!(r.push_slice(&[1, 2, 3]).is_some());
    assert!(r.push_slice(&[4, 5]).is_none());
    assert!(r.push(4).is_some());
    assert!(r.push(5).is_none());
    assert!(r.is_full());
    let mut buf = [0u8; 3];
    assert_eq!(r.peek_slice(&mut buf), 3);
    assert_eq!(buf, [1, 2, 3]);
    assert_eq!(r.len(), 4);
    assert_eq!(r.pop_slice(&mut buf), 3);
    assert_eq!(buf, [1, 2, 3]);
    assert_eq!(r.len(), 1);
    assert_eq!(r.free_len(), 3);
    assert_eq!(r.pop(), Some(4));
    assert_eq!(r.pop(), None);
    assert!(!r.is_recv_shutdown());
    r.set_recv_shutdown();
    assert!(r.is_recv_shutdown());
}

#[test]
fn a_ring_takes_what_can_only_be_cloned() {
    let mut stats = RingStats::new();
    let mut r: RingBuffer<String> = RingBuffer::new(2, &mut stats);
    assert!(r.push_slice(&["a".to_string(), "b".to_string(), "c".to_string()]).is_none());
    assert!(r.is_empty());
    assert!(r.push_slice(&["a".to_string(), "b".to_string()]).is_some());
    assert_eq!(r.pop(), Some("a".to_string()));
    assert_eq!(r.pop(), Some("b".to_string()));
    assert_eq!(r.cap(), 2);
}

#[test]
fn a_ring_is_counted_while_it_lives() {
    let mut stats = RingStats::new();
    let a: RingBuffer<u8> = RingBuffer::new(100, &mut stats);
    assert_eq!((rb_alive(&stats), rb_bytes(&stats)), (1, 100));
    let b: RingBuffer<u8> = RingBuffer::new(0, &mut stats);
    assert_eq!((rb_alive(&stats), rb_bytes(&stats)), (2, 100));
    assert!(a.is_empty() && !a.is_full() && a.free_len() == 100);
    assert!(b.is_empty() && b.is_full());
    a.release(&mut stats);
    assert_eq!((rb_alive(&stats), rb_bytes(&stats)), (1, 0));
    b.release(&mut stats);
    assert_eq!((rb_alive(&stats), rb_bytes(&stats)), (0, 0));
}

#[test]
fn the_queues_of_streams_are_counted() {
    let mut s = UnixStreams::new();
    let (a, b) = s.open_pair(false).unwrap();
    assert_eq!((rb_alive(&s.ring_stats), rb_bytes(&s.ring_stats)), (2, 131072));
    assert_eq!(inner::unix_ring_alive(&s.pair_stats), 2);
    s.close(a);
    assert_eq!(rb_alive(&s.ring_stats), 2);
    assert_eq!(inner::unix_ring_alive(&s.pair_stats), 0);
    s.close(b);
    assert_eq!((rb_alive(&s.ring_stats), rb_bytes(&s.ring_stats)), (0, 0));
}

#[test]
fn rings_are_counted() {
    let mut s = RingStats::new();
    s.ring_made(100);
    s.ring_made(50);
    assert_eq!(rb_alive(&s), 2);
    assert_eq!(rb_bytes(&s), 150);
    s.ring_gone(100);
    assert_eq!(rb_alive(&s), 1);
    let mut t = RingStats::new();
    inner::pair_made(&mut t, 65536);
    assert_eq!(inner::unix_ring_alive(&t), 2);
    assert_eq!(inner::unix_ring_bytes(&t), 131072);
    inner::end_gone(&mut t);
    assert_eq!(inner::unix_ring_alive(&t), 0);
}

#[test]
fn a_pair_of_streams_talks_both_ways() {
    let mut s = UnixStreams::new();
    let (a, b) = s.open_pair(false).unwrap();
    assert_eq!(s.try_send(a, b"hello"), Ok(5));
    assert!(s.socket_r_ready(b));
    let mut buf = [0u8; 3];
    assert_eq!(s.try_recv(b, &mut buf), Ok(3));
    assert_eq!(&buf, b"hel");
    assert_eq!(s.try_recv(b, &mut buf), Ok(2));
    assert_eq!(&buf[..2], b"lo");
    assert_eq!(s.try_recv(b, &mut buf), Err(SyscallErr::EAGAIN));
    assert_eq!(s.try_send(b, b"x"), Ok(1));
    assert_eq!(s.try_recv(a, &mut buf), Ok(1));
}

#[test]
fn a_look_at_a_stream_takes_nothing() {
    let mut s = UnixStreams::new();
    let (a, b) = s.open_pair(true).unwrap();
    let mut buf = [0u8; 3];
    assert_eq!(s.try_peek(b, &mut buf), Err(SyscallErr::EAGAIN));
    s.try_send(a, b"hello").unwrap();
    assert_eq!(s.try_peek(b, &mut buf), Ok(3));
    assert_eq!(&buf, b"hel");
    let mut again = [0u8; 3];
    assert_eq!(s.try_recv(b, &mut again), Ok(3));
    assert_eq!(again, buf);
    assert_eq!(s.try_peek(b, &mut buf), Ok(2));
    assert_eq!(s.try_peek(a, &mut buf), Err(SyscallErr::EAGAIN));
    s.try_recv(b, &mut buf).unwrap();
    s.close(a);
    assert_eq!(s.try_peek(b, &mut buf), Ok(0));
    let c = s.open(true).unwrap();
    assert_eq!(s.try_peek(c, &mut buf), Err(SyscallErr::ENOTCONN));
}

#[test]
fn a_closed_stream_is_seen_at_the_other_end() {
    let mut s = UnixStreams::new();
    let (a, b) = s.open_pair(false).unwrap();
    s.try_send(a, b"z").unwrap();
    s.close(a);
    let mut buf = [0u8; 4];
    assert_eq!(s.try_recv(b, &mut buf), Ok(1));
    assert_eq!(s.try_recv(b, &mut buf), Ok(0));
    assert!(s.socket_hang_up(b));
}

#[test]
fn a_stream_is_reached_by_its_name() {
    let mut s = UnixStreams::new();
    let server = s.open(false).unwrap();
    let client = s.open(false).unwrap();
    assert_eq!(
        s.connect(client, &named(b"srv"), None),
        Err(SyscallErr::ECONNREFUSED)
    );
    assert_eq!(s.bind_abstract(server, b"srv"), Ok(0));
    assert_eq!(
        s.connect(client, &named(b"srv"), None),
        Err(SyscallErr::EOPNOTSUPP)
    );
    s.listen(server).unwrap();
    assert_eq!(s.accept(server).unwrap_err(), SyscallErr::EAGAIN);
    s.connect(client, &named(b"srv"), Some((7, 8, 9))).unwrap();
    assert!(s.socket_r_ready(server));
    let (conn, _) = s.accept(server).unwrap();
    s.try_send(client, b"ping").unwrap();
    let mut buf = [0u8; 8];
    assert_eq!(s.try_recv(conn, &mut buf), Ok(4));
    assert_eq!(&buf[..4], b"ping");
}

#[test]
fn an_abstract_name_is_given_once() {
    let mut s = UnixStreams::new();
    let a = s.open(false).unwrap();
    let b = s.open(false).unwrap();
    let c = s.open(false).unwrap();
    assert_eq!(s.bind_abstract(a, b"name"), Ok(0));
    assert_eq!(s.bind_abstract(a, b"second"), Err(SyscallErr::EINVAL));
    assert_eq!(s.bind_abstract(b, b"name"), Err(SyscallErr::EADDRINUSE));
    // The refused socket has the name for its own.
    assert_eq!(s.bind_abstract(b, b"free"), Err(SyscallErr::EINVAL));
    assert!(s.sockets.get(b).unwrap().local_endpoint().is_some());
    s.close(a);
    assert_eq!(s.bind_abstract(c, b"name"), Ok(0));
}

#[test]
fn a_stream_is_reached_by_its_path() {
    let mut s = UnixStreams::new();
    let server = s.open(false).unwrap();
    let root = s.open(false).unwrap();
    let client = s.open(false).unwrap();
    assert_eq!(s.bind_path(server, "/tmp", "srv"), Ok(0));
    assert_eq!(s.bind_path(root, "/", "srv"), Ok(0));
    s.listen(server).unwrap();
    s.listen(root).unwrap();
    assert_eq!(s.connect(client, &path("/tmp/srv"), None), Ok(0));
    assert!(s.socket_r_ready(server));
    assert!(!s.socket_r_ready(root));
    let other = s.open(false).unwrap();
    assert_eq!(s.connect(other, &path("/srv"), None), Ok(0));
    assert!(s.socket_r_ready(root));
    // A socket that cannot be named leaves no path behind.
    assert_eq!(s.bind_path(client, "/tmp", "late"), Err(SyscallErr::EOPNOTSUPP));
    let third = s.open(false).unwrap();
    assert_eq!(s.connect(third, &path("/tmp/late"), None), Err(SyscallErr::ECONNREFUSED));
    s.close(server);
    assert_eq!(s.connect(third, &path("/tmp/srv"), None), Err(SyscallErr::ECONNREFUSED));
}

#[test]
fn both_kinds_share_their_names() {
    let mut s = UnixStreams::new();
    let mut d = UnixDatagrams::new();
    let a = s.open(false).unwrap();
    let b = s.open(false).unwrap();
    let x = d.open(false).unwrap();
    let y = d.open(false).unwrap();
    let (stream, datagram) = (UnixSocketId::Stream, UnixSocketId::Datagram);
    assert_eq!(unix::bind_abstract(&mut s, &mut d, datagram(x), b"n"), Ok(0));
    assert_eq!(
        unix::bind_abstract(&mut s, &mut d, stream(a), b"n"),
        Err(SyscallErr::EADDRINUSE)
    );
    assert_eq!(s.connect(b, &named(b"n"), None), Err(SyscallErr::EOPNOTSUPP));
    unix::close_datagram(&mut s, &mut d, x);
    assert_eq!(s.connect(b, &named(b"n"), None), Err(SyscallErr::ECONNREFUSED));
    assert_eq!(unix::bind_abstract(&mut s, &mut d, stream(b), b"n"), Ok(0));
    assert_eq!(
        unix::bind_abstract(&mut s, &mut d, datagram(y), b"n"),
        Err(SyscallErr::EADDRINUSE)
    );
    let z = d.open(false).unwrap();
    assert_eq!(unix::bind_path(&mut s, &mut d, datagram(z), "/run", "log"), Ok(0));
    assert_eq!(d.try_sendmsg(y, b"hi", &Some(path("/run/log"))), Ok(2));
    let c = s.open(false).unwrap();
    assert_eq!(s.connect(c, &path("/run/log"), None), Err(SyscallErr::EOPNOTSUPP));
    assert_eq!(
        unix::bind_path(&mut s, &mut d, datagram(z), "/run", "two"),
        Err(SyscallErr::EINVAL)
    );
    assert_eq!(s.connect(c, &path("/run/two"), None), Err(SyscallErr::ECONNREFUSED));
    assert_eq!(unix::bind_path(&mut s, &mut d, stream(c), "", "c"), Ok(0));
    assert!(matches!(
        s.sockets.get(c).unwrap().local_endpoint(),
        Some(Endpoint::Unix(UnixEndpoint::Path(p))) if p == "/c"
    ));
}

#[test]
fn a_socket_file_is_made_in_a_directory() {
    assert_eq!(socket_file_step(false, false, Ok(())), Err(SyscallErr::ENOTDIR));
    assert_eq!(socket_file_step(true, true, Ok(())), Err(SyscallErr::EADDRINUSE));
    assert_eq!(
        socket_file_step(true, false, Err(SyscallErr::EEXIST)),
        Err(SyscallErr::EADDRINUSE)
    );
    assert_eq!(
        socket_file_step(true, false, Err(SyscallErr::EACCES)),
        Err(SyscallErr::EACCES)
    );
    assert_eq!(socket_file_step(true, false, Ok(())), Ok(()));
}

#[test]
fn a_call_that_looks_is_followed_by_one_that_takes() {
    let mut s = UnixStreams::new();
    let (a, b) = s.open_pair(true).unwrap();
    s.try_send(a, b"stream").unwrap();
    let mut shown = [0u8; 4];
    let mut got = [0u8; 4];
    let (n, from) = receive_unix_stream(RecvVia::Peek, &mut s, b, &mut shown).unwrap();
    assert!(n == 4 && from.is_none());
    assert_eq!(receive_unix_stream(RecvVia::User, &mut s, b, &mut got).unwrap().0, 4);
    assert_eq!(shown, got);
    assert_eq!(receive_unix_stream(RecvVia::Stream, &mut s, b, &mut got).unwrap().0, 2);
    let mut d = UnixDatagrams::new();
    let (x, y) = UnixDatagramSocket::new_pair(&mut d, true).unwrap();
    d.try_send(x, b"datagram").unwrap();
    assert_eq!(receive_unix_datagram(RecvVia::Peek, &mut d, y, &mut shown).unwrap().0, 4);
    assert_eq!(receive_unix_datagram(RecvVia::Message, &mut d, y, &mut got).unwrap().0, 4);
    assert_eq!((&shown, &got), (b"data", b"data"));
    assert_eq!(
        receive_unix_datagram(RecvVia::Message, &mut d, y, &mut got).unwrap_err(),
        SyscallErr::EAGAIN
    );
}

#[test]
fn a_shut_stream_has_an_end() {
    let mut s = UnixStreams::new();
    let (a, b) = s.open_pair(false).unwrap();
    assert_eq!(s.shutdown(a, 1), Ok(()));
    let mut buf = [0u8; 1];
    assert_eq!(s.try_recv(b, &mut buf), Ok(0));
    assert_eq!(s.shutdown(a, 9), Err(SyscallErr::EINVAL));
    let c = s.open(false).unwrap();
    assert_eq!(s.shutdown(c, 1), Err(SyscallErr::ENOTCONN));
}

#[test]
fn a_full_queue_nobody_reads_is_a_broken_pipe() {
    let mut s = UnixStreams::new();
    let (a, b) = s.open_pair(false).unwrap();
    let big = vec![7u8; 70000];
    assert_eq!(s.try_send(a, &big), Ok(65536));
    assert_eq!(s.try_send(a, b"x"), Err(SyscallErr::EAGAIN));
    assert_eq!(s.shutdown(b, 0), Ok(()));
    assert_eq!(s.try_send(a, b"x"), Err(SyscallErr::EPIPE));
}

#[test]
fn a_datagram_keeps_its_bounds_and_its_sender() {
    let mut d = UnixDatagrams::new();
    let a = d.open(false).unwrap();
    let b = d.open(false).unwrap();
    d.bind(a, &named(b"a")).unwrap();
    d.bind(b, &path("/tmp/b")).unwrap();
    assert_eq!(d.try_sendmsg(a, b"one", &Some(path("/tmp/b"))), Ok(3));
    assert_eq!(d.try_sendmsg(a, b"two!", &Some(path("/tmp/b"))), Ok(4));
    let mut buf = [0u8; 16];
    let (n, from) = d.try_recvmsg(b, &mut buf).unwrap();
    assert_eq!(n, 3);
    assert_eq!(&buf[..3], b"one");
    assert!(matches!(from, Some(Endpoint::Unix(UnixEndpoint::Abstract(n))) if n == b"a"));
    assert_eq!(d.try_recvmsg(b, &mut buf).unwrap().0, 4);
    assert_eq!(d.try_recvmsg(b, &mut buf).unwrap_err(), SyscallErr::EAGAIN);
    d.close(b);
    assert_eq!(
        d.try_sendmsg(a, b"x", &Some(path("/tmp/b"))),
        Err(SyscallErr::ECONNREFUSED)
    );
}

#[test]
fn a_pair_of_datagram_sockets_is_connected() {
    let mut d = UnixDatagrams::new();
    let (a, b) = UnixDatagramSocket::new_pair(&mut d, false).unwrap();
    assert_eq!(d.try_send(a, b"hi"), Ok(2));
    let mut buf = [0u8; 4];
    assert_eq!(d.try_recvmsg(b, &mut buf).unwrap().0, 2);
    assert_eq!(d.try_send(b, b"yo!"), Ok(3));
    assert_eq!(d.try_peek_recvmsg(a, &mut buf).unwrap().0, 3);
    assert_eq!(&buf[..3], b"yo!");
    assert_eq!(d.try_peek_recvmsg(b, &mut buf).unwrap_err(), SyscallErr::EAGAIN);
    assert_eq!(d.try_recvmsg(a, &mut buf).unwrap().0, 3);
    assert_eq!(&buf[..3], b"yo!");
    let c = d.open(false).unwrap();
    assert!(d.try_send(c, b"?").is_err());
}

#[test]
fn pairs_are_made_by_type() {
    let mut s = UnixStreams::new();
    let mut d = UnixDatagrams::new();
    assert!(matches!(
        unix::make_unix_socket_pair(&mut s, &mut d, false, PSOCK::SeqPacket),
        Ok(Some(UnixPair::Stream(_, _)))
    ));
    assert!(matches!(
        unix::make_unix_socket_pair(&mut s, &mut d, false, PSOCK::Datagram),
        Ok(Some(UnixPair::Datagram(_, _)))
    ));
    assert_eq!(
        unix::make_unix_socket_pair(&mut s, &mut d, false, PSOCK::Raw),
        Err(SyscallErr::ESOCKTNOSUPPORT)
    );
}

#[test]
fn two_pipes_make_a_connection() {
    let mut space = pipes::Pipes::<4>::new();
    let (a, b) = pipes::make_unix_socket_pair(&mut space).unwrap();
    let mut buf = [0u8; 3];
    assert_eq!(b.try_recv(&mut space, &mut buf), Err(SyscallErr::EAGAIN));
    assert_eq!(a.try_send(&mut space, b"abcdef"), Ok(4));
    assert_eq!(a.try_send(&mut space, b"ef"), Err(SyscallErr::EAGAIN));
    assert_eq!(a.try_recv(&mut space, &mut buf), Err(SyscallErr::EAGAIN));
    assert_eq!(b.try_send(&mut space, b"xy"), Ok(2));
    assert_eq!(b.try_recv(&mut space, &mut buf), Ok(3));
    assert_eq!(&buf, b"abc");
    assert_eq!(b.try_recv(&mut space, &mut buf), Ok(1));
    assert_eq!(buf[0], b'd');
    assert_eq!(a.try_recv(&mut space, &mut buf), Ok(2));
    assert_eq!(&buf[..2], b"xy");
    let lost = pipes::UnixSocket::<4>::new(77, 78);
    assert_eq!(lost.try_recv(&mut space, &mut buf), Err(SyscallErr::EIO));
    assert_eq!(pipes::answer_of(5), Ok(5));
    assert_eq!(pipes::answer_of(-11), Err(SyscallErr::EAGAIN));
    assert_eq!(pipes::answer_of(-32), Err(SyscallErr::EIO));
    assert_eq!(a.shutdown(0), Ok(()));
}

#[test]
fn a_name_is_written_as_far_as_it_fits() {
    let ep = UnixEndpoint::Path("/tmp/x".to_string());
    let out = unix::fill_with_endpoint(&ep, 0x1000, 0x2000, Some(110)).unwrap();
    assert_eq!(out.bytes, b"\x01\x00/tmp/x\x00");
    assert_eq!(out.len, 9);
    let cut = unix::fill_with_endpoint(&ep, 0x1000, 0x2000, Some(5)).unwrap();
    assert_eq!(cut.bytes, b"\x01\x00/tm");
    let abs = UnixEndpoint::Abstract(b"ab".to_vec());
    let out = unix::fill_with_endpoint(&abs, 0x1000, 0x2000, Some(110)).unwrap();
    assert_eq!(out.bytes, b"\x01\x00\x00ab");
    assert_eq!(
        unix::fill_with_endpoint(&ep, 0x1000, 0x2001, Some(110)).unwrap_err(),
        SyscallErr::EFAULT
    );
    assert_eq!(
        unix::fill_with_endpoint(&ep, 0x1000, 0x2000, Some(1)).unwrap_err(),
        SyscallErr::EINVAL
    );
}

#[test]
fn made_up_names_are_found_until_they_are_removed() {
    let mut sockets: Arena<u8> = Arena::new();
    let id = sockets.insert(1).unwrap();
    let mut names = UnixAbstractTable::new();
    let first = names.next_id;
    assert_eq!(names.alloc_ephemeral_abstract_name(id, &sockets), Ok(0));
    let name = first.to_be_bytes();
    assert_eq!(names.lookup_abstract_name_bytes(&name, &sockets), Some(id));
    assert_eq!(
        names.create_abstract_name_bytes(&name, id, &sockets),
        Err(SyscallErr::EADDRINUSE)
    );
    names.remove_abstract_name_bytes(&name);
    assert_eq!(names.lookup_abstract_name_bytes(&name, &sockets), None);
}

#[test]
fn the_kinds_of_unix_sockets() {
    assert_eq!(unix::create_unix_socket(PSOCK::Stream).unwrap(), unix::UnixKind::Stream);
    assert_eq!(unix::create_unix_socket(PSOCK::Datagram).unwrap(), unix::UnixKind::Datagram);
    assert_eq!(unix::create_unix_socket(PSOCK::Raw).unwrap(), unix::UnixKind::Datagram);
    assert_eq!(unix::create_unix_socket(PSOCK::SeqPacket).unwrap(), unix::UnixKind::Stream);
    assert!(unix::create_unix_socket(PSOCK::Packet).is_err());
}
