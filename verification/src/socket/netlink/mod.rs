//! Netlink sockets of the route family.
use vstd::prelude::*;
use std::collections::VecDeque;
use crate::bytes;
use crate::error::SyscallErr;
use crate::seqs;
use crate::socket::{Endpoint, EndpointModel, opt_model};

pub mod attr;
pub mod netlink;
pub mod route;
pub mod segment;

verus! {

/// How many messages a socket keeps.
pub const MAX_NETLINK_QUEUE_LEN: usize = 1024;

/// How many bytes the messages of a socket have at most.
pub const MAX_NETLINK_QUEUE_BYTES: usize = 262144;

/// A netlink socket: the replies that wait to be received, and the port id
/// that replies carry.
pub struct NetlinkSocket {
    pub protocol: u32,
    pub recv_queue: VecDeque<Vec<u8>>,
    pub local_portid: u32,
}

/// How many bytes a list of messages has.
pub open spec fn total_bytes(q: Seq<Seq<u8>>) -> nat
    decreases q.len(),
{
    if q.len() == 0 {
        0
    } else {
        total_bytes(q.drop_last()) + q.last().len()
    }
}

/// Whether a queue takes one message more.
pub open spec fn accepts(q: Seq<Seq<u8>>, msg: Seq<u8>) -> bool {
    q.len() < MAX_NETLINK_QUEUE_LEN && total_bytes(q) + msg.len() <= MAX_NETLINK_QUEUE_BYTES
}

/// The queue after messages are put in one by one up to the first that it does
/// not take, and whether it took them all.
pub open spec fn deliver(q: Seq<Seq<u8>>, msgs: Seq<Seq<u8>>) -> (Seq<Seq<u8>>, bool)
    decreases msgs.len(),
{
    if msgs.len() == 0 {
        (q, true)
    } else if accepts(q, msgs[0]) {
        deliver(q.push(msgs[0]), msgs.drop_first())
    } else {
        (q, false)
    }
}

pub proof fn lemma_total_bytes(q: Seq<Seq<u8>>, i: int)
    requires
        0 <= i <= q.len(),
    ensures
        total_bytes(q.take(i)) <= total_bytes(q),
        i < q.len() ==> total_bytes(q.take(i + 1)) == total_bytes(q.take(i)) + q[i].len(),
        i < q.len() ==> q[i].len() <= total_bytes(q),
    decreases q.len() - i,
{
    if i < q.len() {
        assert(q.take(i + 1).drop_last() =~= q.take(i));
        assert(q.take(i + 1).last() == q[i]);
        lemma_total_bytes(q, i + 1);
    } else {
        assert(q.take(i) =~= q);
    }
}

/// Without its first message a queue has that many bytes fewer.
pub proof fn lemma_total_bytes_first(q: Seq<Seq<u8>>)
    requires
        q.len() > 0,
    ensures
        total_bytes(q) == q[0].len() + total_bytes(q.drop_first()),
    decreases q.len(),
{
    if q.len() == 1 {
        assert(q.drop_last() =~= Seq::<Seq<u8>>::empty());
        assert(q.drop_first() =~= Seq::<Seq<u8>>::empty());
    } else {
        lemma_total_bytes_first(q.drop_last());
        assert(q.drop_last().drop_first() =~= q.drop_first().drop_last());
    }
}

impl NetlinkSocket {
    /// The messages that wait to be received.
    pub open spec fn queue(self) -> Seq<Seq<u8>> {
        seqs::contents(self.recv_queue@)
    }

    /// The queue stays within its limits.
    pub open spec fn wf(self) -> bool {
        &&& self.queue().len() <= MAX_NETLINK_QUEUE_LEN
        &&& total_bytes(self.queue()) <= MAX_NETLINK_QUEUE_BYTES
    }

    pub fn new(protocol: u32) -> (r: NetlinkSocket)
        ensures
            r.wf(),
            r.protocol == protocol,
            r.local_portid == 0,
            r.queue() == Seq::<Seq<u8>>::empty(),
    {
        let r = NetlinkSocket { protocol, recv_queue: VecDeque::new(), local_portid: 0 };
        assert(r.queue() =~= Seq::<Seq<u8>>::empty());
        r
    }

    pub fn local_portid(&self) -> (r: u32)
        ensures
            r == self.local_portid,
    {
        self.local_portid
    }

    /// Queues a message and says whether there was room for it, by number of
    /// messages and by bytes. Whoever waits for a message is then woken.
    pub fn push_recv(&mut self, msg: Vec<u8>) -> (r: bool)
        requires
            old(self).wf(),
        ensures
            final(self).wf(),
            r == accepts(old(self).queue(), msg@),
            final(self).queue() == if r {
                old(self).queue().push(msg@)
            } else {
                old(self).queue()
            },
            final(self).protocol == old(self).protocol,
            final(self).local_portid == old(self).local_portid,
    {
        let ghost q = self.queue();
        let ghost m = msg@;
        if self.recv_queue.len() >= MAX_NETLINK_QUEUE_LEN {
            return false;
        }
        let mut total: usize = 0;
        let mut i: usize = 0;
        while i < self.recv_queue.len()
            invariant
                i <= self.recv_queue@.len(),
                q == self.queue(),
                self.wf(),
                *self == *old(self),
                total == total_bytes(q.take(i as int)),
                total_bytes(q) <= MAX_NETLINK_QUEUE_BYTES,
            decreases self.recv_queue@.len() - i,
        {
            proof {
                lemma_total_bytes(q, i as int);
                lemma_total_bytes(q, i + 1);
                assert(q[i as int] == self.recv_queue@[i as int]@);
            }
            total = total + self.recv_queue[i].len();
            i = i + 1;
        }
        assert(q.take(i as int) =~= q);
        if msg.len() > MAX_NETLINK_QUEUE_BYTES - total {
            return false;
        }
        self.recv_queue.push_back(msg);
        proof {
            assert(self.queue() =~= q.push(m));
            assert(q.push(m).drop_last() =~= q);
        }
        true
    }

    /// Queues messages one by one, up to the first that there is no room for;
    /// says whether all are queued.
    pub fn push_all(&mut self, msgs: &Vec<Vec<u8>>) -> (r: bool)
        requires
            old(self).wf(),
        ensures
            final(self).wf(),
            (final(self).queue(), r) == deliver(old(self).queue(), seqs::contents(msgs@)),
            final(self).protocol == old(self).protocol,
            final(self).local_portid == old(self).local_portid,
    {
        let ghost all = seqs::contents(msgs@);
        let ghost start = self.queue();
        let mut i: usize = 0;
        assert(all.skip(0) =~= all);
        while i < msgs.len()
            invariant
                i <= msgs@.len(),
                all == seqs::contents(msgs@),
                start == old(self).queue(),
                self.wf(),
                self.protocol == old(self).protocol,
                self.local_portid == old(self).local_portid,
                deliver(self.queue(), all.skip(i as int)) == deliver(start, all),
            decreases msgs@.len() - i,
        {
            let m = bytes::copy_range(&msgs[i], 0, msgs[i].len());
            proof {
                assert(m@ =~= all[i as int]);
                assert(all.skip(i as int)[0] == all[i as int]);
                assert(all.skip(i as int).drop_first() =~= all.skip(i + 1));
            }
            let ghost before = self.queue();
            if !self.push_recv(m) {
                assert(deliver(before, all.skip(i as int)) == (before, false));
                return false;
            }
            i = i + 1;
        }
        assert(all.skip(i as int) =~= Seq::<Seq<u8>>::empty());
        true
    }

    /// Queues one message for whoever owns the socket.
    pub fn push_netlink_message(&mut self, data: Vec<u8>) -> (r: Result<(), SyscallErr>)
        requires
            old(self).wf(),
        ensures
            final(self).wf(),
            r == if accepts(old(self).queue(), data@) {
                Ok::<(), SyscallErr>(())
            } else {
                Err(SyscallErr::ENOBUFS)
            },
            final(self).queue() == if r is Ok {
                old(self).queue().push(data@)
            } else {
                old(self).queue()
            },
            final(self).local_portid == old(self).local_portid,
    {
        if self.push_recv(data) {
            Ok(())
        } else {
            Err(SyscallErr::ENOBUFS)
        }
    }

    /// Binds the socket. Port id zero asks for one; the next is taken.
    pub fn bind(&mut self, ep: &Endpoint, next_portid: &mut u32) -> (r: Result<usize, SyscallErr>)
        ensures
            r == Ok::<usize, SyscallErr>(0),
            ep@ == EndpointModel::Netlink(0) ==> final(self).local_portid == *old(next_portid)
                && *final(next_portid) == if *old(next_portid) < u32::MAX {
                (*old(next_portid) + 1) as u32
            } else {
                0
            },
            ep@ != EndpointModel::Netlink(0) ==> final(self).local_portid == old(self).local_portid
                && *final(next_portid) == *old(next_portid),
            final(self).queue() == old(self).queue(),
            final(self).protocol == old(self).protocol,
    {
        if let Endpoint::Netlink(id) = ep {
            if *id == 0 {
                let mine: u32 = *next_portid;
                *next_portid = if mine < u32::MAX {
                    mine + 1
                } else {
                    0
                };
                self.local_portid = mine;
            }
        }
        Ok(0)
    }

    /// The socket's own endpoint.
    pub fn local_endpoint(&self) -> (r: Option<Endpoint>)
        ensures
            opt_model(r) == Some(EndpointModel::Netlink(self.local_portid)),
    {
        Some(Endpoint::Netlink(self.local_portid))
    }

    /// Receives the first message: as much of it as fits is copied, and its
    /// whole length is returned.
    pub fn try_recv(&mut self, buf: &mut [u8]) -> (r: Result<isize, SyscallErr>)
        requires
            old(self).wf(),
        ensures
            final(self).wf(),
            final(self).local_portid == old(self).local_portid,
            final(self).protocol == old(self).protocol,
            old(self).queue().len() == 0 ==> r == Err::<isize, SyscallErr>(SyscallErr::EAGAIN)
                && final(self).queue() == old(self).queue() && final(buf)@ == old(buf)@,
            old(self).queue().len() > 0 ==> {
                let msg = old(self).queue()[0];
                let n = if msg.len() <= old(buf)@.len() {
                    msg.len() as int
                } else {
                    old(buf)@.len() as int
                };
                &&& r == Ok::<isize, SyscallErr>(msg.len() as isize)
                &&& final(self).queue() == old(self).queue().drop_first()
                &&& final(buf)@ == msg.take(n) + old(buf)@.skip(n)
            },
    {
        let ghost q = self.queue();
        if self.recv_queue.len() == 0 {
            return Err(SyscallErr::EAGAIN);
        }
        let (n, _) = match self.try_peek_recvmsg(buf) {
            Ok(t) => t,
            Err(e) => return Err(e),
        };
        let _ = self.recv_queue.pop_front();
        proof {
            assert(self.queue() =~= q.drop_first());
            lemma_total_bytes_first(q);
        }
        Ok(n)
    }

    /// Like [`NetlinkSocket::try_recv`], with the kernel as the sender.
    pub fn try_recvmsg(&mut self, buf: &mut [u8]) -> (r: Result<
        (isize, Option<Endpoint>),
        SyscallErr,
    >)
        requires
            old(self).wf(),
        ensures
            final(self).wf(),
            final(self).local_portid == old(self).local_portid,
            match r {
                Ok((n, from)) => {
                    let msg = old(self).queue()[0];
                    let m = if msg.len() <= old(buf)@.len() {
                        msg.len() as int
                    } else {
                        old(buf)@.len() as int
                    };
                    &&& old(self).queue().len() > 0
                    &&& n == msg.len()
                    &&& opt_model(from) == Some(EndpointModel::Netlink(0))
                    &&& final(self).queue() == old(self).queue().drop_first()
                    &&& final(buf)@ == msg.take(m) + old(buf)@.skip(m)
                },
                Err(e) => e == SyscallErr::EAGAIN && old(self).queue().len() == 0
                    && final(self).queue() == old(self).queue() && final(buf)@ == old(buf)@,
            },
    {
        proof {
            if self.queue().len() > 0 {
                lemma_total_bytes(self.queue(), 0);
            }
        }
        match self.try_recv(buf) {
            Ok(n) => Ok((n, Some(Endpoint::Netlink(0)))),
            Err(e) => Err(e),
        }
    }

    /// Copies the first message without receiving it, and returns its whole
    /// length.
    pub fn try_peek_recvmsg(&self, buf: &mut [u8]) -> (r: Result<
        (isize, Option<Endpoint>),
        SyscallErr,
    >)
        requires
            self.wf(),
        ensures
            match r {
                Ok((n, from)) => {
                    let msg = self.queue()[0];
                    let m = if msg.len() <= old(buf)@.len() {
                        msg.len() as int
                    } else {
                        old(buf)@.len() as int
                    };
                    &&& self.queue().len() > 0
                    &&& n == msg.len()
                    &&& opt_model(from) == Some(EndpointModel::Netlink(0))
                    &&& final(buf)@ == msg.take(m) + old(buf)@.skip(m)
                },
                Err(e) => e == SyscallErr::EAGAIN && self.queue().len() == 0 && final(buf)@
                    == old(buf)@,
            },
    {
        if self.recv_queue.len() == 0 {
            return Err(SyscallErr::EAGAIN);
        }
        let ghost q = self.queue();
        let ghost before = buf@;
        let data = &self.recv_queue[0];
        let orig_len: usize = data.len();
        let n: usize = if orig_len < buf.len() {
            orig_len
        } else {
            buf.len()
        };
        proof {
            assert(q[0] == self.recv_queue@[0]@);
            lemma_total_bytes(q, 0);
        }
        let part = vstd::slice::slice_subrange(data.as_slice(), 0, n);
        bytes::write_front(buf, part);
        assert(part@ =~= q[0].take(n as int));
        Ok((orig_len as isize, Some(Endpoint::Netlink(0))))
    }

    /// Messages come from the kernel.
    pub fn last_recv_addr(&self) -> (r: Option<Endpoint>)
        ensures
            opt_model(r) == Some(EndpointModel::Netlink(0)),
    {
        Some(Endpoint::Netlink(0))
    }

    /// Whether a message waits.
    pub fn socket_r_ready(&self) -> (r: bool)
        ensures
            r == (self.queue().len() > 0),
    {
        self.recv_queue.len() > 0
    }
}

/// Where a send buffer has a complete request at `consumed`: its length.
pub open spec fn request_at(buf: Seq<u8>, consumed: int) -> Option<int> {
    if consumed + 16 > buf.len() {
        None
    } else {
        let len = bytes::u32_le_at(buf, consumed) as int;
        if len < 16 || consumed + len > buf.len() {
            None
        } else {
            Some(len)
        }
    }
}

/// The length of the request at `consumed`; nothing where the buffer holds no
/// complete one there, which ends the walk over a buffer.
pub fn next_request(buf: &[u8], consumed: usize) -> (r: Option<usize>)
    ensures
        match r {
            Some(n) => request_at(buf@, consumed as int) == Some(n as int),
            None => request_at(buf@, consumed as int) is None,
        },
{
    let total: usize = buf.len();
    if consumed > total || total - consumed < 16 {
        return None;
    }
    let len32: u32 = bytes::get_u32_le(buf, consumed);
    if len32 < 16 || len32 as u64 > (total - consumed) as u64 {
        return None;
    }
    Some(len32 as usize)
}

/// Where the request behind one of `len` bytes starts.
pub fn advance(consumed: usize, len: usize, total: usize) -> (r: usize)
    requires
        consumed + len <= total,
    ensures
        r == consumed + netlink::aligned(len as int) || (r == total && consumed
            + netlink::aligned(len as int) > total),
{
    if len > usize::MAX - 3 {
        return total;
    }
    let step: usize = netlink::nlmsg_align(len);
    if step > total - consumed {
        total
    } else {
        consumed + step
    }
}

/// What a send returns: the whole length once a request was found, else
/// `EINVAL`.
pub fn sendmsg_result(buf_len: usize, consumed: usize) -> (r: Result<isize, SyscallErr>)
    requires
        buf_len <= isize::MAX,
    ensures
        r == if consumed == 0 {
            Err::<isize, SyscallErr>(SyscallErr::EINVAL)
        } else {
            Ok(buf_len as isize)
        },
{
    if consumed == 0 {
        return Err(SyscallErr::EINVAL);
    }
    Ok(buf_len as isize)
}

/// A message that is queued is received after those queued before it, and
/// then no more.
pub proof fn law_queue_is_fifo(q: Seq<Seq<u8>>, msg: Seq<u8>)
    ensures
        q.push(msg).last() == msg,
        q.len() > 0 ==> q.push(msg)[0] == q[0] && q.push(msg).drop_first() == q.drop_first().push(
            msg,
        ),
        q.len() == 0 ==> q.push(msg)[0] == msg && q.push(msg).drop_first() == q,
{
    if q.len() > 0 {
        assert(q.push(msg).drop_first() =~= q.drop_first().push(msg));
    } else {
        assert(q.push(msg).drop_first() =~= q);
    }
}

/// What is queued before a message is refused is a front of what was to be
/// queued, behind what was there.
pub proof fn law_deliver_is_prefix(q: Seq<Seq<u8>>, msgs: Seq<Seq<u8>>) -> (n: int)
    ensures
        0 <= n <= msgs.len(),
        deliver(q, msgs).0 == q + msgs.take(n),
        deliver(q, msgs).1 <==> n == msgs.len(),
    decreases msgs.len(),
{
    if msgs.len() == 0 {
        assert(q + msgs.take(0) =~= q);
        0
    } else if accepts(q, msgs[0]) {
        let m = law_deliver_is_prefix(q.push(msgs[0]), msgs.drop_first());
        assert(q.push(msgs[0]) + msgs.drop_first().take(m) =~= q + msgs.take(m + 1));
        m + 1
    } else {
        assert(q + msgs.take(0) =~= q);
        0
    }
}

} // verus!
