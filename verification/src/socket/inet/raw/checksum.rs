//! Internet checksums.
use vstd::prelude::*;
use vstd::arithmetic::div_mod;
use crate::bytes;
use crate::wire::Ipv6Address;

verus! {

/// The sum of the sixteen-bit words that bytes spell, the higher byte first;
/// an odd last byte counts as the higher one.
pub open spec fn words_sum(s: Seq<u8>) -> nat
    decreases s.len(),
{
    if s.len() == 0 {
        0
    } else if s.len() == 1 {
        256 * s[0] as nat
    } else {
        256 * s[0] as nat + s[1] as nat + words_sum(s.skip(2))
    }
}

/// A sum in ones' complement: carries are added in again until it fits in
/// sixteen bits.
pub open spec fn fold(sum: int) -> int {
    if sum <= 0 {
        0
    } else {
        (sum - 1) % 65535 + 1
    }
}

/// The complement of a folded sum.
pub open spec fn complement(sum: int) -> u16 {
    (65535 - fold(sum)) as u16
}

/// The sum over the pseudo-header that a payload is sent with over IPv6: the
/// addresses, the length, and the next header.
pub open spec fn pseudo_sum(src: Seq<u8>, dst: Seq<u8>, len: u32, next_header: u8) -> int {
    words_sum(src) + words_sum(dst) + (len / 65536) as int + (len % 65536) as int
        + next_header as int
}

proof fn lemma_fold_step(sum: int)
    requires
        sum > 0,
    ensures
        fold(sum % 65536 + sum / 65536) == fold(sum),
        sum % 65536 + sum / 65536 > 0,
{
    let h = sum / 65536;
    let l = sum % 65536;
    div_mod::lemma_mod_multiples_vanish(h, l + h - 1, 65535);
    assert(65535 * h + (l + h - 1) == sum - 1);
}

/// A bound on the sum of the words.
pub proof fn lemma_words_bound(s: Seq<u8>)
    ensures
        words_sum(s) <= 65535 * ((s.len() + 1) / 2),
    decreases s.len(),
{
    if s.len() >= 2 {
        lemma_words_bound(s.skip(2));
    }
}

proof fn lemma_words_at(s: Seq<u8>, i: int)
    requires
        0 <= i < s.len(),
        i % 2 == 0,
    ensures
        i + 1 < s.len() ==> words_sum(s.skip(i)) == 256 * s[i] as int + s[i + 1] as int + words_sum(
            s.skip(i + 2),
        ),
        i + 1 == s.len() ==> words_sum(s.skip(i)) == 256 * s[i] as int,
{
    let t = s.skip(i);
    if i + 1 < s.len() {
        assert(t.skip(2) =~= s.skip(i + 2));
    }
}

fn sum_words(buf: &[u8]) -> (r: u32)
    requires
        buf@.len() <= 65535,
    ensures
        r == words_sum(buf@),
        r <= 65535 * 32768,
{
    let n: usize = buf.len();
    let mut sum: u32 = 0;
    let mut i: usize = 0;
    proof {
        lemma_words_bound(buf@);
        assert(buf@.skip(0) =~= buf@);
    }
    while i < n
        invariant
            n == buf@.len() <= 65535,
            i <= n + 1,
            i % 2 == 0,
            i <= n ==> sum + words_sum(buf@.skip(i as int)) == words_sum(buf@),
            i > n ==> sum == words_sum(buf@),
            words_sum(buf@) <= 65535 * 32768,
        decreases n + 2 - i,
    {
        proof {
            lemma_words_at(buf@, i as int);
        }
        let word: u32 = if i + 1 < n {
            buf[i] as u32 * 256 + buf[i + 1] as u32
        } else {
            buf[i] as u32 * 256
        };
        proof {
            if i + 2 <= n {
                lemma_words_bound(buf@.skip(i + 2));
            }
        }
        sum = sum + word;
        i = i + 2;
    }
    proof {
        if i == n {
            assert(buf@.skip(i as int) =~= Seq::<u8>::empty());
        }
    }
    sum
}

fn fold_sum(sum: u32) -> (r: u16)
    ensures
        r == fold(sum as int),
{
    let mut s: u32 = sum;
    while s > 65535
        invariant
            fold(s as int) == fold(sum as int),
            s == 0 ==> sum == 0,
        decreases s,
    {
        proof {
            lemma_fold_step(s as int);
        }
        s = s % 65536 + s / 65536;
    }
    s as u16
}

/// The checksum of a payload that is sent over IPv6.
pub fn ipv6_pseudo_header_checksum(
    src_addr: Ipv6Address,
    dst_addr: Ipv6Address,
    payload_len: u32,
    next_header: u8,
    payload: &[u8],
) -> (r: u16)
    requires
        payload@.len() <= 65535,
    ensures
        r == complement(
            pseudo_sum(src_addr.octets(), dst_addr.octets(), payload_len, next_header) + words_sum(
                payload@,
            ),
        ),
{
    let src = src_addr.to_octets();
    let dst = dst_addr.to_octets();
    proof {
        lemma_words_bound(src@);
        lemma_words_bound(dst@);
    }
    let mut sum: u32 = sum_words(&src);
    sum = sum + sum_words(&dst);
    sum = sum + payload_len / 65536;
    sum = sum + payload_len % 65536;
    sum = sum + next_header as u32;
    sum = sum + sum_words(payload);
    65535 - fold_sum(sum)
}

/// The bytes with a checksum at `off`.
pub open spec fn with_checksum(s: Seq<u8>, off: int, sum: u16) -> Seq<u8> {
    s.update(off, (sum / 256) as u8).update(off + 1, (sum % 256) as u8)
}

/// Putting a checksum in the place of zeros adds it to the sum.
pub proof fn lemma_checksum_adds(s: Seq<u8>, off: int, sum: u16)
    requires
        0 <= off,
        off + 2 <= s.len(),
        off % 2 == 0,
    ensures
        words_sum(with_checksum(s, off, sum)) == words_sum(with_checksum(s, off, 0)) + sum,
    decreases s.len(),
{
    let a = with_checksum(s, off, sum);
    let z = with_checksum(s, off, 0);
    if off == 0 {
        assert(a.skip(2) =~= z.skip(2));
    } else {
        let t = s.skip(2);
        lemma_checksum_adds(t, off - 2, sum);
        assert(a.skip(2) =~= with_checksum(t, off - 2, sum));
        assert(z.skip(2) =~= with_checksum(t, off - 2, 0));
    }
}

/// A sum and its complement make all ones.
pub proof fn lemma_complement(sum: int)
    requires
        sum > 0,
    ensures
        fold(sum + complement(sum) as int) == 65535,
{
    let q = (sum - 1) / 65535;
    let f = fold(sum);
    div_mod::lemma_fundamental_div_mod(sum - 1, 65535);
    assert(sum + (65535 - f) - 1 == 65535 * q + 65534);
    div_mod::lemma_mod_multiples_vanish(q, 65534, 65535);
}

/// Whoever adds up what was sent with a checksum in it gets all ones.
pub proof fn law_checksum_verifies(pseudo: int, payload: Seq<u8>, off: int)
    requires
        pseudo > 0,
        0 <= off,
        off + 2 <= payload.len(),
        off % 2 == 0,
    ensures
        ({
            let z = with_checksum(payload, off, 0);
            let sent = with_checksum(payload, off, complement(pseudo + words_sum(z)));
            fold(pseudo + words_sum(sent)) == 65535
        }),
{
    let z = with_checksum(payload, off, 0);
    let sum = pseudo + words_sum(z);
    lemma_checksum_adds(payload, off, complement(sum));
    lemma_complement(sum);
}

/// `Ipv4Packet::fill_checksum` of smoltcp, for a packet whose header says that
/// it is twenty bytes long: the checksum field, bytes ten and eleven, becomes
/// the complement of the ones' complement sum over the header with that field
/// zero. Nothing else changes.
#[verifier::external_body]
pub(crate) fn ipv4_fill_checksum(packet: &mut Vec<u8>)
    requires
        old(packet)@.len() >= 20,
        old(packet)@[0] == 0x45,
    ensures
        final(packet)@ == with_checksum(
            old(packet)@,
            10,
            complement(words_sum(with_checksum(old(packet)@, 10, 0).take(20)) as int),
        ),
{
    smoltcp::wire::Ipv4Packet::new_unchecked(packet.as_mut_slice()).fill_checksum();
}

} // verus!
