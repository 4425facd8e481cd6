//! Packet sockets: whole link layer frames, as they come and go.
use vstd::prelude::*;
use std::collections::VecDeque;
use crate::bytes;
use crate::error::SyscallErr;
use crate::net_core;
use crate::net_core::NetNamespace;
use crate::seqs;
use crate::socket::{Endpoint, EndpointModel, PacketEndpoint, PSOCK};

verus! {

/// Frames of every kind.
pub const ETH_P_ALL: u16 = 0x0003;

pub const ETH_P_ARP: u16 = 0x0806;

pub const ETH_P_IP: u16 = 0x0800;

/// The length of the header of a frame.
pub const ETHERNET_HEADER: usize = 14;

/// What a packet socket is bound to, and the frames that wait for it.
#[derive(Debug)]
pub struct PacketSocketInner {
    /// The interface; zero for all of them.
    pub bound_ifindex: u32,
    pub bound_protocol: u16,
    pub rx_queue: VecDeque<Vec<u8>>,
    pub recvbuf_size: usize,
    pub sendbuf_size: usize,
}

/// A packet socket.
#[derive(Debug)]
pub struct PacketSocket {
    pub inner: PacketSocketInner,
}

/// What a [`PacketSocket`] holds.
#[verifier::ext_equal]
pub struct PacketModel {
    pub bound_ifindex: u32,
    pub bound_protocol: u16,
    pub rx: Seq<Seq<u8>>,
    pub recvbuf_size: usize,
    pub sendbuf_size: usize,
}

impl View for PacketSocket {
    type V = PacketModel;

    open spec fn view(&self) -> PacketModel {
        PacketModel {
            bound_ifindex: self.inner.bound_ifindex,
            bound_protocol: self.inner.bound_protocol,
            rx: seqs::contents(self.inner.rx_queue@),
            recvbuf_size: self.inner.recvbuf_size,
            sendbuf_size: self.inner.sendbuf_size,
        }
    }
}

/// What a send comes to: an answer, or a frame for an interface to transmit.
#[derive(Clone, Copy, Debug, PartialEq, Eq, Structural)]
pub enum PacketSend {
    Done(isize),
    Transmit(u32),
}

/// What a send of `len` bytes from an interface comes to.
pub open spec fn send_from(ifindex: u32, len: int) -> Result<PacketSend, SyscallErr> {
    if len == 0 {
        Ok(PacketSend::Done(0))
    } else if ifindex == 0 {
        Err(SyscallErr::ENETDOWN)
    } else {
        Ok(PacketSend::Transmit(ifindex))
    }
}

/// Whether a socket is to get a frame of that kind from that interface.
pub open spec fn hears(m: PacketModel, ethertype: u16, ifindex: u32) -> bool {
    &&& m.bound_ifindex == 0 || m.bound_ifindex == ifindex
    &&& m.bound_protocol == ETH_P_ALL || m.bound_protocol == ethertype
}

/// A socket after a frame came by.
pub open spec fn heard(m: PacketModel, frame: Seq<u8>, ifindex: u32) -> PacketModel {
    if hears(m, bytes::u16_be_at(frame, 12), ifindex) {
        PacketModel { rx: m.rx.push(frame), ..m }
    } else {
        m
    }
}

/// What the oldest frame comes to in a buffer: how many of its bytes fit, and the
/// buffer then.
pub open spec fn shown(m: PacketModel, buf: Seq<u8>) -> Option<(int, Seq<u8>)> {
    if m.rx.len() == 0 {
        None
    } else {
        let n = fitting(m.rx[0], buf);
        Some((n, m.rx[0].take(n) + buf.skip(n)))
    }
}

/// What a receive into a buffer does: the socket without its oldest frame, and
/// what that came to.
pub open spec fn taken(m: PacketModel, buf: Seq<u8>) -> (PacketModel, Option<(int, Seq<u8>)>) {
    if m.rx.len() == 0 {
        (m, None)
    } else {
        let n = fitting(m.rx[0], buf);
        (PacketModel { rx: m.rx.skip(1), ..m }, Some((n, m.rx[0].take(n) + buf.skip(n))))
    }
}

/// How many bytes of a frame fit in a buffer.
pub open spec fn fitting(frame: Seq<u8>, buf: Seq<u8>) -> int {
    if frame.len() < buf.len() {
        frame.len() as int
    } else {
        buf.len() as int
    }
}

/// A look takes nothing away: the receive that follows gives the same bytes.
pub proof fn law_peek_then_receive(m: PacketModel, buf: Seq<u8>)
    ensures
        taken(m, buf).1 == shown(m, buf),
{
}

impl PacketSocket {
    pub fn new(protocol: u16) -> (r: PacketSocket)
        ensures
            r@ == (PacketModel {
                bound_ifindex: 0,
                bound_protocol: protocol,
                rx: Seq::empty(),
                recvbuf_size: 65536,
                sendbuf_size: 65536,
            }),
    {
        let r = PacketSocket {
            inner: PacketSocketInner {
                bound_ifindex: 0,
                bound_protocol: protocol,
                rx_queue: VecDeque::new(),
                recvbuf_size: 65536,
                sendbuf_size: 65536,
            },
        };
        assert(r@.rx =~= Seq::<Seq<u8>>::empty());
        r
    }

    /// Adds an open socket to the registry.
    pub fn register_packet_socket(registry: &mut PacketRegistry, id: u64, socket: PacketSocket)
        ensures
            final(registry)@ == old(registry)@.push(SlotModel { id, live: true, socket: socket@ }),
    {
        let ghost before = registry@;
        registry.slots.push(PacketSlot { id, live: true, socket });
        assert(registry@ =~= before.push(SlotModel { id, live: true, socket: socket@ }));
    }

    pub fn is_bound(&self) -> (r: bool)
        ensures
            r == (self@.bound_ifindex != 0),
    {
        self.inner.bound_ifindex != 0
    }

    /// Binds the socket to an interface and a kind of frame. Without an
    /// address it stays as it is.
    pub fn bind(&mut self, endpoint: &Endpoint) -> (r: Result<usize, SyscallErr>)
        ensures
            match endpoint@ {
                EndpointModel::Packet(ep) => {
                    &&& r == Ok::<usize, SyscallErr>(0)
                    &&& final(self)@ == (PacketModel {
                        bound_ifindex: ep.ifindex,
                        bound_protocol: ep.protocol,
                        ..old(self)@
                    })
                },
                EndpointModel::Unspecified => {
                    &&& r == Ok::<usize, SyscallErr>(0)
                    &&& final(self)@ == old(self)@
                },
                _ => {
                    &&& r == Err::<usize, SyscallErr>(SyscallErr::EINVAL)
                    &&& final(self)@ == old(self)@
                },
            },
    {
        match endpoint {
            Endpoint::Packet(ep) => {
                self.inner.bound_ifindex = ep.ifindex;
                self.inner.bound_protocol = ep.protocol;
                Ok(0)
            },
            Endpoint::Unspecified => Ok(0),
            _ => Err(SyscallErr::EINVAL),
        }
    }

    pub fn listen(&self) -> (r: Result<usize, SyscallErr>)
        ensures
            r == Err::<usize, SyscallErr>(SyscallErr::EOPNOTSUPP),
    {
        Err(SyscallErr::EOPNOTSUPP)
    }

    pub fn connect(&self, _endpoint: &Endpoint) -> (r: Result<usize, SyscallErr>)
        ensures
            r == Err::<usize, SyscallErr>(SyscallErr::EOPNOTSUPP),
    {
        Err(SyscallErr::EOPNOTSUPP)
    }

    pub fn accept(&self) -> (r: Result<usize, SyscallErr>)
        ensures
            r == Err::<usize, SyscallErr>(SyscallErr::EOPNOTSUPP),
    {
        Err(SyscallErr::EOPNOTSUPP)
    }

    pub fn socket_type(&self) -> (r: PSOCK)
        ensures
            r == PSOCK::Raw,
    {
        PSOCK::Raw
    }

    pub fn recv_buf_size(&self) -> (r: usize)
        ensures
            r == self@.recvbuf_size,
    {
        self.inner.recvbuf_size
    }

    pub fn send_buf_size(&self) -> (r: usize)
        ensures
            r == self@.sendbuf_size,
    {
        self.inner.sendbuf_size
    }

    pub fn set_recv_buf_size(&mut self, size: usize)
        ensures
            final(self)@ == (PacketModel { recvbuf_size: size, ..old(self)@ }),
    {
        self.inner.recvbuf_size = size;
    }

    pub fn set_send_buf_size(&mut self, size: usize)
        ensures
            final(self)@ == (PacketModel { sendbuf_size: size, ..old(self)@ }),
    {
        self.inner.sendbuf_size = size;
    }

    /// Binds the socket to the interface of that name, or to all of them.
    pub fn set_bind_to_device(&mut self, ns: &NetNamespace, ifname: &str) -> (r: Result<
        usize,
        SyscallErr,
    >)
        ensures
            ({
                let found = seqs::find_first(ns.devs(), net_core::named(ifname@));
                &&& r == if ifname@.len() == 0 || found is Some {
                    Ok::<usize, SyscallErr>(0)
                } else {
                    Err(SyscallErr::ENODEV)
                }
                &&& final(self)@ == if r is Ok {
                    PacketModel {
                        bound_ifindex: if ifname@.len() == 0 {
                            0
                        } else {
                            found->0.nic_id
                        },
                        ..old(self)@
                    }
                } else {
                    old(self)@
                }
            }),
    {
        if ifname.unicode_len() == 0 {
            self.inner.bound_ifindex = 0;
            return Ok(0);
        }
        match ns.device_by_name(ifname) {
            Some(d) => {
                self.inner.bound_ifindex = d.nic_id;
                Ok(0)
            },
            None => Err(SyscallErr::ENODEV),
        }
    }

    /// The interface and the kind of frame, once the socket is bound.
    pub fn local_endpoint(&self) -> (r: Option<Endpoint>)
        ensures
            r is Some <==> self@.bound_ifindex != 0,
            r is Some ==> r->0 is Packet && ({
                let p = r->0->Packet_0;
                &&& p.ifindex == self@.bound_ifindex
                &&& p.protocol == self@.bound_protocol
                &&& p.hatype == 1
                &&& p.pkttype == 0
                &&& p.halen == 6
                &&& p.addr@ == seq![0u8, 0u8, 0u8, 0u8, 0u8, 0u8, 0u8, 0u8]
            }),
    {
        if self.inner.bound_ifindex == 0 {
            return None;
        }
        let addr: [u8; 8] = [0, 0, 0, 0, 0, 0, 0, 0];
        assert(addr@ =~= seq![0u8, 0u8, 0u8, 0u8, 0u8, 0u8, 0u8, 0u8]);
        Some(
            Endpoint::Packet(
                PacketEndpoint {
                    ifindex: self.inner.bound_ifindex,
                    protocol: self.inner.bound_protocol,
                    hatype: 1,
                    pkttype: 0,
                    halen: 6,
                    addr,
                },
            ),
        )
    }

    pub fn remote_endpoint(&self) -> (r: Option<Endpoint>)
        ensures
            r is None,
    {
        None
    }

    /// There is nothing to shut down.
    pub fn shutdown(&self, _how: u32) -> (r: Result<(), SyscallErr>)
        ensures
            r is Ok,
    {
        Ok(())
    }

    /// Takes the oldest frame; what does not fit in the buffer is lost.
    pub fn try_recv(&mut self, buf: &mut [u8]) -> (r: Result<isize, SyscallErr>)
        requires
            old(buf)@.len() <= isize::MAX,
        ensures
            ({
                let (next, got) = taken(old(self)@, old(buf)@);
                &&& final(self)@ == next
                &&& match got {
                    Some((n, out)) => r == Ok::<isize, SyscallErr>(n as isize) && final(buf)@
                        == out,
                    None => r == Err::<isize, SyscallErr>(SyscallErr::EAGAIN) && final(buf)@
                        == old(buf)@,
                }
            }),
    {
        let ghost before = self@;
        let ghost q = self.inner.rx_queue@;
        match self.inner.rx_queue.pop_front() {
            None => Err(SyscallErr::EAGAIN),
            Some(frame) => {
                assert(frame@ == before.rx[0]);
                assert(self@.rx =~= before.rx.skip(1));
                let ghost out = buf@;
                let n: usize = if frame.len() < buf.len() {
                    frame.len()
                } else {
                    buf.len()
                };
                let mut i: usize = 0;
                assert(frame@.take(0) + out.skip(0) =~= out);
                while i < n
                    invariant
                        i <= n <= frame@.len(),
                        n <= buf@.len(),
                        buf@.len() == out.len(),
                        buf@ == frame@.take(i as int) + out.skip(i as int),
                    decreases n - i,
                {
                    buf[i] = frame[i];
                    assert(buf@ =~= frame@.take(i + 1) + out.skip(i + 1));
                    i += 1;
                }
                Ok(n as isize)
            },
        }
    }

    /// Copies the oldest frame, which stays in the queue: what the next receive
    /// with the same room gives.
    pub fn try_peek(&self, buf: &mut [u8]) -> (r: Result<isize, SyscallErr>)
        requires
            old(buf)@.len() <= isize::MAX,
        ensures
            match shown(self@, old(buf)@) {
                Some((n, out)) => r == Ok::<isize, SyscallErr>(n as isize) && final(buf)@ == out,
                None => r == Err::<isize, SyscallErr>(SyscallErr::EAGAIN) && final(buf)@
                    == old(buf)@,
            },
    {
        if self.inner.rx_queue.len() == 0 {
            return Err(SyscallErr::EAGAIN);
        }
        let frame = &self.inner.rx_queue[0];
        assert(frame@ == self@.rx[0]);
        let n: usize = if frame.len() < buf.len() {
            frame.len()
        } else {
            buf.len()
        };
        let part = vstd::slice::slice_subrange(frame.as_slice(), 0, n);
        bytes::write_front(buf, part);
        assert(part@ =~= frame@.take(n as int));
        Ok(n as isize)
    }

    /// What sending a frame comes to.
    pub fn try_send(&self, buf: &[u8]) -> (r: Result<PacketSend, SyscallErr>)
        ensures
            r == send_from(self@.bound_ifindex, buf@.len() as int),
    {
        self.send_on(buf, self.inner.bound_ifindex)
    }

    fn send_on(&self, buf: &[u8], ifindex: u32) -> (r: Result<PacketSend, SyscallErr>)
        ensures
            r == send_from(ifindex, buf@.len() as int),
    {
        if buf.len() == 0 {
            return Ok(PacketSend::Done(0));
        }
        if ifindex == 0 {
            return Err(SyscallErr::ENETDOWN);
        }
        Ok(PacketSend::Transmit(ifindex))
    }

    /// Completes a send: `transmitted` says whether the interface took the
    /// frame.
    pub fn finish_send(&self, len: usize, transmitted: bool) -> (r: Result<isize, SyscallErr>)
        requires
            len <= isize::MAX,
        ensures
            r == if transmitted {
                Ok(len as isize)
            } else {
                Err::<isize, SyscallErr>(SyscallErr::ENETDOWN)
            },
    {
        if transmitted {
            Ok(len as isize)
        } else {
            Err(SyscallErr::ENETDOWN)
        }
    }

    /// What sending a frame comes to, when an address may name another
    /// interface.
    pub fn try_sendmsg(&self, buf: &[u8], dest: Option<Endpoint>) -> (r: Result<
        PacketSend,
        SyscallErr,
    >)
        ensures
            r == send_from(
                match dest {
                    Some(Endpoint::Packet(ep)) => if ep.ifindex != 0 {
                        ep.ifindex
                    } else {
                        self@.bound_ifindex
                    },
                    _ => self@.bound_ifindex,
                },
                buf@.len() as int,
            ),
    {
        match dest {
            Some(Endpoint::Packet(ep)) => {
                if ep.ifindex != 0 {
                    return self.send_on(buf, ep.ifindex);
                }
            },
            _ => {},
        }
        self.try_send(buf)
    }

    pub fn socket_r_ready(&self) -> (r: bool)
        ensures
            r == (self@.rx.len() > 0),
    {
        self.inner.rx_queue.len() > 0
    }

    pub fn socket_w_ready(&self) -> (r: bool)
        ensures
            r == (self@.bound_ifindex != 0),
    {
        self.inner.bound_ifindex != 0
    }
}

/// A packet socket in the registry, and whether it is still open.
#[derive(Debug)]
pub struct PacketSlot {
    pub id: u64,
    pub live: bool,
    pub socket: PacketSocket,
}

/// The packet sockets.
#[derive(Debug)]
pub struct PacketRegistry {
    pub slots: Vec<PacketSlot>,
}

#[verifier::ext_equal]
pub struct SlotModel {
    pub id: u64,
    pub live: bool,
    pub socket: PacketModel,
}

impl View for PacketSlot {
    type V = SlotModel;

    open spec fn view(&self) -> SlotModel {
        SlotModel { id: self.id, live: self.live, socket: self.socket@ }
    }
}

impl View for PacketRegistry {
    type V = Seq<SlotModel>;

    open spec fn view(&self) -> Seq<SlotModel> {
        slot_models(self.slots@)
    }
}

pub open spec fn slot_models(s: Seq<PacketSlot>) -> Seq<SlotModel> {
    Seq::new(s.len(), |i: int| s[i]@)
}

/// The registry after a frame came by: the closed sockets are gone, and the
/// open ones that hear it have it last in their queue.
pub open spec fn frame_delivered(slots: Seq<SlotModel>, frame: Seq<u8>, ifindex: u32) -> Seq<SlotModel>
    decreases slots.len(),
{
    if frame.len() < ETHERNET_HEADER {
        slots
    } else if slots.len() == 0 {
        Seq::empty()
    } else {
        let rest = frame_delivered(slots.drop_last(), frame, ifindex);
        let s = slots.last();
        if s.live {
            rest.push(SlotModel { socket: heard(s.socket, frame, ifindex), ..s })
        } else {
            rest
        }
    }
}

/// The sockets that a frame wakes.
pub open spec fn frame_wakes(slots: Seq<SlotModel>, frame: Seq<u8>, ifindex: u32) -> Seq<u64>
    decreases slots.len(),
{
    if frame.len() < ETHERNET_HEADER || slots.len() == 0 {
        Seq::empty()
    } else {
        let rest = frame_wakes(slots.drop_last(), frame, ifindex);
        let s = slots.last();
        if s.live && hears(s.socket, bytes::u16_be_at(frame, 12), ifindex) {
            rest.push(s.id)
        } else {
            rest
        }
    }
}

pub open spec fn is_open() -> spec_fn(SlotModel) -> bool {
    |s: SlotModel| s.live
}

pub open spec fn other_slot(id: u64) -> spec_fn(SlotModel) -> bool {
    |s: SlotModel| s.live && s.id != id
}

impl PacketRegistry {
    pub fn new() -> (r: PacketRegistry)
        ensures
            r@ == Seq::<SlotModel>::empty(),
    {
        let r = PacketRegistry { slots: Vec::new() };
        assert(r@ =~= Seq::<SlotModel>::empty());
        r
    }

    /// Drops a socket that closes from the registry, with any other that is
    /// closed.
    pub fn close(&mut self, id: u64)
        ensures
            final(self)@ == old(self)@.filter(other_slot(id)),
    {
        let ghost start = self@;
        let ghost mut k: int = 0;
        let mut i: usize = 0;
        proof {
            reveal(Seq::filter);
            assert(start.take(0).filter(other_slot(id)) =~= Seq::<SlotModel>::empty());
        }
        while i < self.slots.len()
            invariant
                0 <= k <= start.len(),
                i <= self.slots@.len(),
                self@.take(i as int) == start.take(k).filter(other_slot(id)),
                self@.skip(i as int) == start.skip(k),
            decreases self.slots@.len() - i,
        {
            let ghost m = self@;
            proof {
                assert(m.skip(i as int)[0] == m[i as int]);
                assert(m.skip(i as int).len() == m.len() - i);
            assert(start.skip(k).len() == start.len() - k);
            assert(start.skip(k)[0] == start[k]);
                seqs::lemma_filter_step(start, other_slot(id), k);
            }
            if self.slots[i].live && self.slots[i].id != id {
                proof {
                    assert(m.take(i + 1) =~= m.take(i as int).push(m[i as int]));
                    assert(m.skip(i + 1) =~= start.skip(k + 1)) by {
                        assert(m.skip(i + 1) =~= m.skip(i as int).skip(1));
                        assert(start.skip(k + 1) =~= start.skip(k).skip(1));
                    }
                }
                i += 1;
            } else {
                let _ = self.slots.remove(i);
                proof {
                    assert(self@.take(i as int) =~= m.take(i as int));
                    assert(self@.skip(i as int) =~= m.skip(i as int).skip(1));
                    assert(start.skip(k + 1) =~= start.skip(k).skip(1));
                }
            }
            proof {
                k = k + 1;
            }
        }
        proof {
            assert(self@.skip(i as int).len() == 0);
            assert(start.take(k) =~= start);
            assert(self@.take(i as int) =~= self@);
        }
    }
}

/// Hands a frame that came in on an interface to the sockets that hear it;
/// returns them, for one waiter of each to be woken.
pub fn deliver_frame_to_packet_sockets(registry: &mut PacketRegistry, frame: &[u8], ifindex: u32) -> (r:
    Vec<u64>)
    ensures
        final(registry)@ == frame_delivered(old(registry)@, frame@, ifindex),
        r@ == frame_wakes(old(registry)@, frame@, ifindex),
{
    let mut woken: Vec<u64> = Vec::new();
    if frame.len() < ETHERNET_HEADER {
        return woken;
    }
    let ethertype: u16 = bytes::get_u16_be(frame, 12);
    let ghost start = registry@;
    let ghost mut k: int = 0;
    let mut i: usize = 0;
    proof {
        assert(start.take(0) =~= Seq::<SlotModel>::empty());
        assert(registry@.skip(0) =~= start);
        assert(start.skip(0) =~= start);
        assert(registry@.take(0) =~= Seq::<SlotModel>::empty());
    }
    while i < registry.slots.len()
        invariant
            0 <= k <= start.len(),
            i <= registry.slots@.len(),
            frame@.len() >= ETHERNET_HEADER,
            ethertype == bytes::u16_be_at(frame@, 12),
            registry@.take(i as int) == frame_delivered(start.take(k), frame@, ifindex),
            registry@.skip(i as int) == start.skip(k),
            woken@ == frame_wakes(start.take(k), frame@, ifindex),
        decreases registry.slots@.len() - i,
    {
        let ghost m = registry@;
        proof {
            assert(m.skip(i as int)[0] == m[i as int]);
            assert(m.skip(i as int).len() == m.len() - i);
            assert(start.skip(k).len() == start.len() - k);
            assert(start.skip(k)[0] == start[k]);
            assert(start.take(k + 1).drop_last() =~= start.take(k));
            assert(start.take(k + 1).last() == start[k]);
            assert(m.skip(i + 1) =~= m.skip(i as int).skip(1));
            assert(start.skip(k + 1) =~= start.skip(k).skip(1));
        }
        if !registry.slots[i].live {
            let _ = registry.slots.remove(i);
            proof {
                assert(registry@.take(i as int) =~= m.take(i as int));
                assert(registry@.skip(i as int) =~= m.skip(i as int).skip(1));
            }
        } else {
            let slot = &mut registry.slots[i];
            let bound = slot.socket.inner.bound_ifindex;
            let protocol = slot.socket.inner.bound_protocol;
            let id = slot.id;
            let matches_iface = bound == 0 || bound == ifindex;
            let matches_proto = protocol == ETH_P_ALL || protocol == ethertype;
            if matches_iface && matches_proto {
                let copy = bytes::copy_range(frame, 0, frame.len());
                assert(copy@ =~= frame@);
                slot.socket.inner.rx_queue.push_back(copy);
                woken.push(id);
                proof {
                    let now = registry@;
                    assert(now[i as int].socket.rx =~= m[i as int].socket.rx.push(frame@));
                    assert(now[i as int] == (SlotModel {
                        socket: heard(m[i as int].socket, frame@, ifindex),
                        ..m[i as int]
                    }));
                    assert(now.take(i + 1) =~= m.take(i as int).push(now[i as int]));
                    assert(now.skip(i + 1) =~= m.skip(i + 1));
                }
            } else {
                assert(registry@ =~= m);
                assert(m.take(i + 1) =~= m.take(i as int).push(m[i as int]));
            }
            i += 1;
        }
        proof {
            k = k + 1;
        }
    }
    proof {
        assert(registry@.skip(i as int).len() == 0);
        assert(start.take(k) =~= start);
        assert(registry@.take(i as int) =~= registry@);
    }
    woken
}

/// The registry after the frames of a queue, in order.
pub open spec fn frames_delivered(slots: Seq<SlotModel>, frames: Seq<Seq<u8>>, ifindex: u32) -> Seq<
    SlotModel,
>
    decreases frames.len(),
{
    if frames.len() == 0 {
        slots
    } else {
        frame_delivered(frames_delivered(slots, frames.drop_last(), ifindex), frames.last(), ifindex)
    }
}

pub open spec fn frames_wake(slots: Seq<SlotModel>, frames: Seq<Seq<u8>>, ifindex: u32) -> Seq<u64>
    decreases frames.len(),
{
    if frames.len() == 0 {
        Seq::empty()
    } else {
        frames_wake(slots, frames.drop_last(), ifindex) + frame_wakes(
            frames_delivered(slots, frames.drop_last(), ifindex),
            frames.last(),
            ifindex,
        )
    }
}

/// Hands the frames that wait on one end of a veth pair to the sockets that
/// hear them.
pub fn deliver_frames_from_veth_queue(
    registry: &mut PacketRegistry,
    ifindex: u32,
    rx_queue: &VecDeque<Vec<u8>>,
) -> (r: Vec<u64>)
    ensures
        final(registry)@ == frames_delivered(
            old(registry)@,
            seqs::contents(rx_queue@),
            ifindex,
        ),
        r@ == frames_wake(old(registry)@, seqs::contents(rx_queue@), ifindex),
{
    let mut woken: Vec<u64> = Vec::new();
    let ghost start = registry@;
    let ghost frames = seqs::contents(rx_queue@);
    let mut i: usize = 0;
    while i < rx_queue.len()
        invariant
            i <= rx_queue@.len(),
            frames == seqs::contents(rx_queue@),
            registry@ == frames_delivered(start, frames.take(i as int), ifindex),
            woken@ == frames_wake(start, frames.take(i as int), ifindex),
        decreases rx_queue@.len() - i,
    {
        let mut more = deliver_frame_to_packet_sockets(
            registry,
            rx_queue[i].as_slice(),
            ifindex,
        );
        woken.append(&mut more);
        assert(frames.take(i + 1).drop_last() =~= frames.take(i as int));
        assert(frames.take(i + 1).last() == rx_queue@[i as int]@);
        i += 1;
    }
    assert(frames.take(i as int) =~= frames);
    woken
}

/// An open socket that hears a frame receives it, whole and after those that
/// waited already; one that does not is left alone.
pub proof fn law_frame_reaches_its_socket(slots: Seq<SlotModel>, k: int, frame: Seq<u8>, ifindex: u32)
    requires
        0 <= k < slots.len(),
        slots[k].live,
        frame.len() >= ETHERNET_HEADER,
    ensures
        exists|j: int|
            0 <= j < frame_delivered(slots, frame, ifindex).len() && #[trigger] frame_delivered(
                slots,
                frame,
                ifindex,
            )[j] == (SlotModel {
                socket: if hears(slots[k].socket, bytes::u16_be_at(frame, 12), ifindex) {
                    PacketModel { rx: slots[k].socket.rx.push(frame), ..slots[k].socket }
                } else {
                    slots[k].socket
                },
                ..slots[k]
            }),
    decreases slots.len(),
{
    let all = frame_delivered(slots, frame, ifindex);
    let rest = frame_delivered(slots.drop_last(), frame, ifindex);
    if k == slots.len() - 1 {
        assert(all[all.len() - 1] == (SlotModel {
            socket: heard(slots[k].socket, frame, ifindex),
            ..slots[k]
        }));
    } else {
        law_frame_reaches_its_socket(slots.drop_last(), k, frame, ifindex);
        assert(slots.drop_last()[k] == slots[k]);
        let j = choose|j: int|
            0 <= j < rest.len() && #[trigger] rest[j] == (SlotModel {
                socket: heard(slots[k].socket, frame, ifindex),
                ..slots[k]
            });
        assert(all[j] == rest[j]);
    }
}

} // verus!
