//! The answers to netlink requests, by their bytes.
use vstd::prelude::*;
use crate::bytes;
use crate::error::SyscallErr;
use crate::socket::netlink;
use crate::socket::netlink::netlink as wire_format;
use crate::socket::netlink::route;
use crate::socket::netlink::route::link::StepModel;
use crate::socket::netlink::route::NetModel;

verus! {

/// The answer that reports an error number, by its bytes: 36 of them, of the
/// type for errors, with the sequence number and the port of the asker, the
/// number negated, and the header of the request.
pub proof fn law_error_message(errno: i32, seq: u32, pid: u32, orig: Seq<u8>)
    requires
        0 <= errno,
        orig.len() == 16,
    ensures
        ({
            let m = wire_format::nlmsg_error(errno, seq, pid, orig);
            &&& m.len() == 36
            &&& m[0] == 36 && m[1] == 0 && m[2] == 0 && m[3] == 0
            &&& m[4] == 2 && m[5] == 0 && m[6] == 0 && m[7] == 0
            &&& m[8] + 256 * m[9] + 65536 * m[10] + 16777216 * m[11] == seq
            &&& m[12] + 256 * m[13] + 65536 * m[14] + 16777216 * m[15] == pid
            &&& m[16] + 256 * m[17] + 65536 * m[18] + 16777216 * m[19] == if errno == 0 {
                0
            } else {
                0x1_0000_0000 - errno
            }
            &&& m.subrange(20, 36) == orig
        }),
{
    let e = bytes::u32_of((-errno) as i32);
    let payload = bytes::le32(e) + orig;
    let m = wire_format::nlmsg(2, 0, seq, pid, payload);
    bytes::lemma_le_roundtrip(2, 36);
    bytes::lemma_le_roundtrip(0, seq);
    bytes::lemma_le_roundtrip(0, pid);
    bytes::lemma_le_roundtrip(0, e);
    assert(payload.len() == 20);
    assert(wire_format::aligned(20) == 20);
    assert(m.len() == 36);
    assert(m.subrange(20, 36) =~= orig);
    let l = bytes::le32(36);
    assert(m[0] == l[0] && m[1] == l[1] && m[2] == l[2] && m[3] == l[3]);
    let s = bytes::le32(seq);
    assert(m[8] == s[0] && m[9] == s[1] && m[10] == s[2] && m[11] == s[3]);
    let p = bytes::le32(pid);
    assert(m[12] == p[0] && m[13] == p[1] && m[14] == p[2] && m[15] == p[3]);
    let x = bytes::le32(e);
    assert(m[16] == x[0] && m[17] == x[1] && m[18] == x[2] && m[19] == x[3]);
    assert(bytes::le16(2) =~= seq![2u8, 0u8]);
    assert(bytes::le16(0) =~= seq![0u8, 0u8]);
    assert(m[4] == 2 && m[5] == 0 && m[6] == 0 && m[7] == 0);
}

/// An answer that reports an error number has one length.
pub proof fn lemma_error_length(errno: i32, seq: u32, pid: u32, orig: Seq<u8>)
    requires
        orig.len() == 16,
    ensures
        wire_format::nlmsg_error(errno, seq, pid, orig).len() == 36,
{
}

/// An answer goes behind the messages that wait already. Where the queue is full,
/// with as many messages or as many bytes as it takes, nothing is queued and the
/// call says so.
pub proof fn law_answer_is_queued(q: Seq<Seq<u8>>, n: NetModel, msg: Seq<u8>)
    ensures
        route::answer(q, n, msg).1 == n,
        match route::answer(q, n, msg).2 {
            Ok(k) => k == 0 && route::answer(q, n, msg).0 == q.push(msg) && q.len() < 1024
                && netlink::total_bytes(q.push(msg)) <= 262144,
            Err(e) => e == SyscallErr::ENOBUFS && route::answer(q, n, msg).0 == q && (q.len()
                >= 1024 || netlink::total_bytes(q.push(msg)) > 262144),
        },
{
    assert(q.push(msg).drop_last() =~= q);
    assert(q.push(msg).last() == msg);
}

/// Whether a queue grew by one answer to a request: behind the messages that
/// waited, with the sequence number that stands in the request, and with this
/// error number.
pub open spec fn answered(before: Seq<Seq<u8>>, after: Seq<Seq<u8>>, buf: Seq<u8>, errno: int) -> bool {
    &&& after.len() == before.len() + 1
    &&& after.drop_last() == before
    &&& after.last().len() == 36
    &&& after.last()[4] == 2 && after.last()[5] == 0
    &&& forall|i: int| 8 <= i < 12 ==> #[trigger] after.last()[i] == buf[i]
    &&& after.last()[16] + 256 * after.last()[17] + 65536 * after.last()[18] + 16777216
        * after.last()[19] == if errno == 0 {
        0
    } else {
        0x1_0000_0000 - errno
    }
}

/// A request that is answered with an error number is so answered, or the queue
/// is full and stays as it is.
pub proof fn law_errno_answer(
    q: Seq<Seq<u8>>,
    n: NetModel,
    errno: i32,
    pid: u32,
    buf: Seq<u8>,
)
    requires
        0 <= errno,
        buf.len() >= 16,
    ensures
        ({
            let seq = bytes::u32_le_at(buf, 8);
            let (q2, n2, r) = route::answer_errno(q, n, errno, seq, pid, buf);
            &&& n2 == n
            &&& r is Ok ==> answered(q, q2, buf, errno as int)
            &&& r is Err ==> q2 == q && r->Err_0 == SyscallErr::ENOBUFS
        }),
{
    let seq = bytes::u32_le_at(buf, 8);
    let m = wire_format::nlmsg_error(errno, seq, pid, buf.take(16));
    law_error_message(errno, seq, pid, buf.take(16));
    lemma_answered(q, m, buf, errno as int);
}

proof fn lemma_answered(q: Seq<Seq<u8>>, m: Seq<u8>, buf: Seq<u8>, errno: int)
    requires
        buf.len() >= 16,
        m.len() == 36,
        m[4] == 2,
        m[5] == 0,
        m[8] + 256 * m[9] + 65536 * m[10] + 16777216 * m[11] == bytes::u32_le_at(buf, 8),
        m[16] + 256 * m[17] + 65536 * m[18] + 16777216 * m[19] == if errno == 0 {
            0
        } else {
            0x1_0000_0000 - errno
        },
    ensures
        answered(q, q.push(m), buf, errno),
{
    assert(q.push(m).drop_last() =~= q);
    assert(q.push(m).last() == m);
    assert(bytes::u32_le_at(buf, 8) == buf[8] + 256 * buf[9] + 65536 * buf[10] + 16777216 * buf[11]);
    lemma_same_bytes(m[8], m[9], m[10], m[11], buf[8], buf[9], buf[10], buf[11]);
}

proof fn lemma_same_bytes(a: u8, b: u8, c: u8, d: u8, e: u8, f: u8, g: u8, h: u8)
    requires
        a + 256 * b + 65536 * c + 16777216 * d == e + 256 * f + 65536 * g + 16777216 * h,
    ensures
        a == e && b == f && c == g && d == h,
{
    lemma_low_byte(a, b + 256 * c + 65536 * d, e, f + 256 * g + 65536 * h);
    lemma_low_byte(b, c + 256 * d, f, g + 256 * h);
    lemma_low_byte(c, d as int, g, h as int);
}

proof fn lemma_low_byte(a: u8, high: int, b: u8, other: int)
    requires
        a + 256 * high == b + 256 * other,
    ensures
        a == b && high == other,
{
}

/// The requests in a buffer stand one behind the other, each with its length in
/// front; one that is shorter than a header or longer than what is left ends
/// the list.
pub proof fn law_requests_in_a_buffer(front: Seq<u8>, m: Seq<u8>, rest: Seq<u8>)
    requires
        16 <= m.len() <= 0x7fff_ffff,
        m[0] + 256 * m[1] + 65536 * m[2] + 16777216 * m[3] == m.len(),
    ensures
        netlink::request_at(front + m + rest, front.len() as int) == Some(m.len() as int),
        rest.len() < 16 ==> netlink::request_at(front + m + rest, (front.len() + m.len()) as int)
            is None,
        netlink::request_at(front + m.drop_last(), front.len() as int) is None,
{
    let b = front + m + rest;
    let n: int = front.len() as int;
    assert(b[n] == m[0] && b[n + 1] == m[1] && b[n + 2] == m[2] && b[n + 3] == m[3]);
    let c = front + m.drop_last();
    if m.len() > 16 {
        assert(c[n] == m[0] && c[n + 1] == m[1] && c[n + 2] == m[2] && c[n + 3] == m[3]);
    }
}

/// A request whose length is less than that of a header is none.
pub proof fn law_short_request(b: Seq<u8>, at: int)
    requires
        0 <= at,
        at + 16 <= b.len(),
        b[at] < 16,
        b[at + 1] == 0,
        b[at + 2] == 0,
        b[at + 3] == 0,
    ensures
        netlink::request_at(b, at) is None,
{
}

/// Several answers are queued one behind the other, up to the first that the queue
/// has no room for; the request succeeds where all of them are.
pub proof fn law_several_answers(q: Seq<Seq<u8>>, n: NetModel, msgs: Seq<Seq<u8>>)
    ensures
        ({
            let (after, same, r) = route::answer_all(q, n, msgs);
            &&& same == n
            &&& q.len() <= after.len() <= q.len() + msgs.len()
            &&& after == q + msgs.take(after.len() - q.len())
            &&& r is Ok <==> after.len() == q.len() + msgs.len()
            &&& r is Err ==> r->Err_0 == SyscallErr::ENOBUFS
        }),
    decreases msgs.len(),
{
    if msgs.len() == 0 {
        assert(q + msgs.take(0) =~= q);
    } else if netlink::accepts(q, msgs[0]) {
        let rest = msgs.drop_first();
        law_several_answers(q.push(msgs[0]), n, rest);
        let after = netlink::deliver(q, msgs).0;
        let k: int = after.len() - q.len();
        assert(q.push(msgs[0]) + rest.take(k - 1) =~= q + msgs.take(k));
    } else {
        assert(q + msgs.take(0) =~= q);
    }
}

/// A request that is cut before the end of its own header is invalid, and changes
/// nothing.
pub proof fn law_cut_requests(q: Seq<Seq<u8>>, n: NetModel, seq: u32, pid: u32, buf: Seq<u8>)
    ensures
        buf.len() < 28 ==> route::neigh::newneigh(q, n, buf) == (
            q,
            n,
            Err::<isize, SyscallErr>(SyscallErr::EINVAL),
        ),
        buf.len() < 28 ==> route::neigh::getneigh(q, n, seq, pid, buf) == (
            q,
            n,
            Err::<isize, SyscallErr>(SyscallErr::EINVAL),
        ),
        buf.len() < 32 ==> route::link::newlink(q, n, seq, pid, buf) == (
            q,
            n,
            Err::<StepModel, SyscallErr>(SyscallErr::EINVAL),
        ),
{
}

} // verus!
