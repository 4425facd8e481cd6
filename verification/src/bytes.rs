//! Byte order and byte sequences.
//!
//! Kernel structures that user space reads directly (netlink headers, `ifreq`,
//! `sockaddr` families) are in host order, which is little-endian on every
//! machine the kernel runs on. Ports and addresses are in network order.
use vstd::prelude::*;

verus! {

/// `v` in little-endian order.
pub open spec fn le16(v: u16) -> Seq<u8> {
    seq![(v % 256) as u8, (v / 256) as u8]
}

/// `v` in little-endian order.
pub open spec fn le32(v: u32) -> Seq<u8> {
    seq![
        (v % 256) as u8,
        (v / 256 % 256) as u8,
        (v / 65536 % 256) as u8,
        (v / 16777216) as u8,
    ]
}

/// `v` in big-endian order.
pub open spec fn be16(v: u16) -> Seq<u8> {
    seq![(v / 256) as u8, (v % 256) as u8]
}

/// `v` in big-endian order.
pub open spec fn be32(v: u32) -> Seq<u8> {
    seq![
        (v / 16777216) as u8,
        (v / 65536 % 256) as u8,
        (v / 256 % 256) as u8,
        (v % 256) as u8,
    ]
}

/// The little-endian number in the two bytes from `i` on.
pub open spec fn u16_le_at(s: Seq<u8>, i: int) -> u16 {
    (s[i] + 256 * s[i + 1]) as u16
}

/// The big-endian number in the two bytes from `i` on.
pub open spec fn u16_be_at(s: Seq<u8>, i: int) -> u16 {
    (256 * s[i] + s[i + 1]) as u16
}

/// The little-endian number in the four bytes from `i` on.
pub open spec fn u32_le_at(s: Seq<u8>, i: int) -> u32 {
    (s[i] + 256 * s[i + 1] + 65536 * s[i + 2] + 16777216 * s[i + 3]) as u32
}

/// The big-endian number in the four bytes from `i` on.
pub open spec fn u32_be_at(s: Seq<u8>, i: int) -> u32 {
    (16777216 * s[i] + 65536 * s[i + 1] + 256 * s[i + 2] + s[i + 3]) as u32
}

/// The two's complement reading of `v`.
pub open spec fn i32_of(v: u32) -> i32 {
    if v < 0x8000_0000 {
        v as i32
    } else {
        (v - 0x1_0000_0000) as i32
    }
}

/// The two's complement bits of `v`.
pub open spec fn u32_of(v: i32) -> u32 {
    if v >= 0 {
        v as u32
    } else {
        (v + 0x1_0000_0000) as u32
    }
}

/// The number whose base 256 digits are `s`, most significant first.
pub open spec fn be_value(s: Seq<u8>) -> nat
    decreases s.len(),
{
    if s.len() == 0 {
        0
    } else {
        256 * be_value(s.drop_last()) + s.last() as nat
    }
}

/// The `n` lowest base 256 digits of `v`, most significant first.
pub open spec fn be_digits(v: nat, n: nat) -> Seq<u8>
    decreases n,
{
    if n == 0 {
        Seq::empty()
    } else {
        be_digits(v / 256, (n - 1) as nat).push((v % 256) as u8)
    }
}

/// 256 to the power `n`.
pub open spec fn pow256(n: nat) -> nat
    decreases n,
{
    if n == 0 {
        1
    } else {
        256 * pow256((n - 1) as nat)
    }
}

/// A number of `n` digits stays below the `n`-th power of the base.
pub proof fn lemma_be_value_bound(s: Seq<u8>)
    ensures
        be_value(s) < pow256(s.len()),
    decreases s.len(),
{
    if s.len() > 0 {
        lemma_be_value_bound(s.drop_last());
    }
}

/// Digits of a number, read back, are the number; and the other way round.
pub proof fn lemma_be_digits_of_value(s: Seq<u8>)
    ensures
        be_digits(be_value(s), s.len()) =~= s,
    decreases s.len(),
{
    if s.len() > 0 {
        lemma_be_digits_of_value(s.drop_last());
        let v = be_value(s);
        let hi = be_value(s.drop_last());
        let lo = s.last() as nat;
        assert(v == 256 * hi + lo);
        assert(v / 256 == hi);
        assert(v % 256 == lo);
        assert(s.drop_last().push(s.last()) =~= s);
    }
}

pub proof fn lemma_be_value_of_digits(v: nat, n: nat)
    requires
        v < pow256(n),
    ensures
        be_digits(v, n).len() == n,
        be_value(be_digits(v, n)) == v,
    decreases n,
{
    if n > 0 {
        let m = (n - 1) as nat;
        assert(v / 256 < pow256(m)) by {
            assert(pow256(n) == 256 * pow256(m));
        }
        lemma_be_value_of_digits(v / 256, m);
        let d = be_digits(v, n);
        assert(d.drop_last() =~= be_digits(v / 256, m));
        assert(d.last() == (v % 256) as u8);
    }
}

pub proof fn lemma_be_digits_len(v: nat, n: nat)
    ensures
        be_digits(v, n).len() == n,
    decreases n,
{
    if n > 0 {
        lemma_be_digits_len(v / 256, (n - 1) as nat);
    }
}

/// Reading back what was laid out in host order gives the number.
pub proof fn lemma_le_roundtrip(a: u16, b: u32)
    ensures
        u16_le_at(le16(a), 0) == a,
        u32_le_at(le32(b), 0) == b,
        le16(a).len() == 2,
        le32(b).len() == 4,
{
}

/// Reading back what was laid out in network order gives the number.
pub proof fn lemma_be_roundtrip(a: u16, b: u32)
    ensures
        u16_be_at(be16(a), 0) == a,
        u32_be_at(be32(b), 0) == b,
        be16(a).len() == 2,
        be32(b).len() == 4,
{
}

/// The digits of a number put together from four octets are the octets.
pub proof fn lemma_be32_of_octets(a: u8, b: u8, c: u8, d: u8)
    ensures
        0 <= 16777216 * a + 65536 * b + 256 * c + d <= u32::MAX,
        be32((16777216 * a + 65536 * b + 256 * c + d) as u32) == seq![a, b, c, d],
{
    let v: int = 16777216 * a + 65536 * b + 256 * c + d;
    let q1: int = 65536 * a + 256 * b + c;
    let q2: int = 256 * a + b;
    assert(v / 256 == q1 && v % 256 == d);
    assert(v / 65536 == q2 && v / 16777216 == a);
    assert(q1 % 256 == c && q2 % 256 == b);
    let w = v as u32;
    assert(w / 16777216 == a && w / 65536 == q2 && w / 256 == q1);
    assert(be32(w) =~= seq![a, b, c, d]);
}

pub proof fn lemma_i32_roundtrip(v: i32, u: u32)
    ensures
        i32_of(u32_of(v)) == v,
        u32_of(i32_of(u)) == u,
{
}

pub fn get_u16_le(buf: &[u8], i: usize) -> (r: u16)
    requires
        i + 2 <= buf@.len(),
    ensures
        r == u16_le_at(buf@, i as int),
{
    buf[i] as u16 + 256 * buf[i + 1] as u16
}

pub fn get_u16_be(buf: &[u8], i: usize) -> (r: u16)
    requires
        i + 2 <= buf@.len(),
    ensures
        r == u16_be_at(buf@, i as int),
{
    256 * buf[i] as u16 + buf[i + 1] as u16
}

pub fn get_u32_le(buf: &[u8], i: usize) -> (r: u32)
    requires
        i + 4 <= buf@.len(),
    ensures
        r == u32_le_at(buf@, i as int),
{
    buf[i] as u32 + 256 * buf[i + 1] as u32 + 65536 * buf[i + 2] as u32 + 16777216 * buf[i
        + 3] as u32
}

/// The signed reading of a 32-bit word.
pub fn to_i32(v: u32) -> (r: i32)
    ensures
        r == i32_of(v),
{
    if v < 0x8000_0000 {
        v as i32
    } else {
        (v as i64 - 0x1_0000_0000i64) as i32
    }
}

/// The bits of a signed 32-bit number.
pub fn to_u32(v: i32) -> (r: u32)
    ensures
        r == u32_of(v),
{
    if v >= 0 {
        v as u32
    } else {
        (v as i64 + 0x1_0000_0000i64) as u32
    }
}

/// Appends `src` to `dst`.
pub fn append_bytes(dst: &mut Vec<u8>, src: &[u8])
    ensures
        final(dst)@ == old(dst)@ + src@,
{
    let ghost before = dst@;
    let mut i: usize = 0;
    while i < src.len()
        invariant
            i <= src@.len(),
            dst@ =~= before + src@.take(i as int),
        decreases src@.len() - i,
    {
        dst.push(src[i]);
        i = i + 1;
        assert(src@.take(i as int) =~= src@.take(i - 1).push(src@[i - 1]));
    }
    assert(src@.take(i as int) =~= src@);
}

/// A copy of the bytes from `from` up to `to`.
pub fn copy_range(src: &[u8], from: usize, to: usize) -> (r: Vec<u8>)
    requires
        from <= to <= src@.len(),
    ensures
        r@ == src@.subrange(from as int, to as int),
{
    let mut out: Vec<u8> = Vec::new();
    let mut i: usize = from;
    while i < to
        invariant
            from <= i <= to <= src@.len(),
            out@ =~= src@.subrange(from as int, i as int),
        decreases to - i,
    {
        out.push(src[i]);
        i = i + 1;
    }
    out
}

/// A vector of `n` zero bytes.
pub fn zeros(n: usize) -> (r: Vec<u8>)
    ensures
        r@ == Seq::new(n as nat, |i: int| 0u8),
{
    let mut out: Vec<u8> = Vec::new();
    let mut i: usize = 0;
    while i < n
        invariant
            i <= n,
            out@ =~= Seq::new(i as nat, |j: int| 0u8),
        decreases n - i,
    {
        out.push(0);
        i = i + 1;
    }
    out
}

/// Writes `src` over the front of `dst`; what lies behind stays.
pub fn write_front(dst: &mut [u8], src: &[u8])
    requires
        src@.len() <= old(dst)@.len(),
    ensures
        final(dst)@ == src@ + old(dst)@.skip(src@.len() as int),
{
    let ghost before = dst@;
    let mut i: usize = 0;
    while i < src.len()
        invariant
            i <= src@.len() <= before.len(),
            dst@.len() == before.len(),
            dst@ =~= src@.take(i as int) + before.skip(i as int),
        decreases src@.len() - i,
    {
        dst[i] = src[i];
        i = i + 1;
    }
    assert(src@.take(i as int) =~= src@);
}

pub fn put_u16_le(buf: &mut Vec<u8>, v: u16)
    ensures
        final(buf)@ == old(buf)@ + le16(v),
{
    buf.push((v % 256) as u8);
    buf.push((v / 256) as u8);
}

pub fn put_u32_le(buf: &mut Vec<u8>, v: u32)
    ensures
        final(buf)@ == old(buf)@ + le32(v),
{
    buf.push((v % 256) as u8);
    buf.push((v / 256 % 256) as u8);
    buf.push((v / 65536 % 256) as u8);
    buf.push((v / 16777216) as u8);
}

pub fn put_u16_be(buf: &mut Vec<u8>, v: u16)
    ensures
        final(buf)@ == old(buf)@ + be16(v),
{
    buf.push((v / 256) as u8);
    buf.push((v % 256) as u8);
}

pub fn put_u32_be(buf: &mut Vec<u8>, v: u32)
    ensures
        final(buf)@ == old(buf)@ + be32(v),
{
    buf.push((v / 16777216) as u8);
    buf.push((v / 65536 % 256) as u8);
    buf.push((v / 256 % 256) as u8);
    buf.push((v % 256) as u8);
}

/// Whether two byte strings are the same.
pub fn bytes_eq(a: &[u8], b: &[u8]) -> (r: bool)
    ensures
        r == (a@ == b@),
{
    if a.len() != b.len() {
        return false;
    }
    let mut i: usize = 0;
    while i < a.len()
        invariant
            i <= a@.len(),
            a@.len() == b@.len(),
            forall|j: int| 0 <= j < i ==> a@[j] == b@[j],
        decreases a@.len() - i,
    {
        if a[i] != b[i] {
            return false;
        }
        i = i + 1;
    }
    assert(a@ =~= b@);
    true
}

} // verus!
