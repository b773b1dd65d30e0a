//! The 16-bit one's-complement checksum shared by the IPv4 header and
//! the ICMP messages: the bytes are read as big-endian 16-bit words, the
//! words are summed, carries are folded back in until the sum fits 16
//! bits, and the result is complemented.

use crate::endian::{be16_hi, be16_lo};
use vstd::prelude::*;

verus! {

/// The plain sum of the big-endian 16-bit words of `s`. An odd trailing
/// byte counts as the high byte of a final word padded with zero.
pub open spec fn sum16(s: Seq<u8>) -> int
    decreases s.len(),
{
    if s.len() == 0 {
        0
    } else if s.len() == 1 {
        (s[0] as int) * 256
    } else {
        (s[0] as int) * 256 + (s[1] as int) + sum16(s.skip(2))
    }
}

/// Folds the carries of a word sum back into 16 bits (end-around carry).
pub open spec fn fold16(x: int) -> int
    decreases x,
    when x >= 0
{
    if x < 0x10000 {
        x
    } else {
        fold16(x % 0x10000 + x / 0x10000)
    }
}

/// The one's-complement checksum of `s`.
pub open spec fn ocsum(s: Seq<u8>) -> u16 {
    (0xffff - fold16(sum16(s))) as u16
}

/// The word sum is never negative and grows at most one word per byte.
pub proof fn lemma_sum16_bound(s: Seq<u8>)
    ensures
        0 <= sum16(s) <= s.len() * 65535,
    decreases s.len(),
{
    if s.len() >= 2 {
        lemma_sum16_bound(s.skip(2));
    }
}

/// `x` exceeds its folded form by `k` whole multiples of 0xffff.
pub open spec fn fold16_slack(x: int, k: int) -> bool {
    0 <= k && x == fold16(x) + 0xffff * k
}

/// Folding lands in a 16-bit word, keeps a positive sum positive, and
/// only ever removes whole multiples of 0xffff from the sum.
pub proof fn lemma_fold16_properties(x: int)
    requires
        x >= 0,
    ensures
        0 <= fold16(x) <= 0xffff,
        x > 0 ==> fold16(x) > 0,
        exists|k: int| #[trigger] fold16_slack(x, k),
    decreases x,
{
    if x < 0x10000 {
        assert(fold16_slack(x, 0));
    } else {
        let q = x / 0x10000;
        let r = x % 0x10000;
        vstd::arithmetic::div_mod::lemma_fundamental_div_mod(x, 0x10000);
        let y = r + q;
        assert(x == 0xffff * q + y);
        lemma_fold16_properties(y);
        let k = choose|k: int| #[trigger] fold16_slack(y, k);
        assert(x == fold16(y) + 0xffff * (q + k));
        assert(fold16(x) == fold16(y));
        assert(fold16_slack(x, q + k));
    }
}

/// Replacing the word at an even position changes the sum by exactly the
/// difference of the words.
pub proof fn lemma_sum16_update_word(s: Seq<u8>, p: int, hi: u8, lo: u8)
    requires
        0 <= p,
        p % 2 == 0,
        p + 1 < s.len(),
    ensures
        sum16(s.update(p, hi).update(p + 1, lo)) == sum16(s) - (s[p] as int) * 256 - (s[p
            + 1] as int) + (hi as int) * 256 + (lo as int),
    decreases p,
{
    let t = s.update(p, hi).update(p + 1, lo);
    if p == 0 {
        assert(t.skip(2) =~= s.skip(2));
        assert(t[0] == hi && t[1] == lo);
    } else {
        lemma_sum16_update_word(s.skip(2), p - 2, hi, lo);
        assert(t.skip(2) =~= s.skip(2).update(p - 2, hi).update(p - 1, lo));
        assert(t[0] == s[0] && t[1] == s[1]);
    }
}

/// The receiver's validation: once the checksum of `x` computed with its
/// field read as zero is stored back into that field (an even position
/// `p`), the one's-complement sum of the bytes as they stand folds to
/// all ones.
pub proof fn lemma_stored_checksum_folds_to_all_ones(x: Seq<u8>, p: int)
    requires
        0 <= p,
        p % 2 == 0,
        p + 1 < x.len(),
    ensures
        ({
            let ck = ocsum(x.update(p, 0u8).update(p + 1, 0u8));
            fold16(sum16(x.update(p, be16_hi(ck)).update(p + 1, be16_lo(ck)))) == 0xffff
        }),
{
    let gen = x.update(p, 0u8).update(p + 1, 0u8);
    lemma_sum16_bound(gen);
    let s0 = sum16(gen);
    lemma_fold16_properties(s0);
    let ck = ocsum(gen);
    assert(ck == 0xffff - fold16(s0));
    let wire = x.update(p, be16_hi(ck)).update(p + 1, be16_lo(ck));
    assert(wire =~= gen.update(p, be16_hi(ck)).update(p + 1, be16_lo(ck)));
    lemma_sum16_update_word(gen, p, be16_hi(ck), be16_lo(ck));
    assert(gen[p] == 0 && gen[p + 1] == 0);
    assert((be16_hi(ck) as int) * 256 + (be16_lo(ck) as int) == ck as int);
    let s1 = sum16(wire);
    assert(s1 == s0 + ck);
    let k = choose|k: int| #[trigger] fold16_slack(s0, k);
    assert(s1 == 0xffff * (k + 1));
    lemma_fold16_properties(s1);
    let k2 = choose|k2: int| #[trigger] fold16_slack(s1, k2);
    assert(fold16(s1) == 0xffff * (k + 1 - k2));
}

/// Appending one whole word to an even-length byte string adds that word
/// to the sum.
pub proof fn lemma_sum16_snoc2(s: Seq<u8>, a: u8, b: u8)
    requires
        s.len() % 2 == 0,
    ensures
        sum16(s.push(a).push(b)) == sum16(s) + (a as int) * 256 + (b as int),
    decreases s.len(),
{
    let t = s.push(a).push(b);
    if s.len() == 0 {
        assert(t.len() == 2 && t[0] == a && t[1] == b);
        assert(t.skip(2) =~= Seq::<u8>::empty());
        assert(sum16(Seq::<u8>::empty()) == 0);
    } else {
        lemma_sum16_snoc2(s.skip(2), a, b);
        assert(t.len() == s.len() + 2 && t[0] == s[0] && t[1] == s[1]);
        assert(t.skip(2) =~= s.skip(2).push(a).push(b));
    }
}

/// Appending a lone trailing byte to an even-length byte string adds it
/// as the high byte of a zero-padded word.
pub proof fn lemma_sum16_snoc1(s: Seq<u8>, a: u8)
    requires
        s.len() % 2 == 0,
    ensures
        sum16(s.push(a)) == sum16(s) + (a as int) * 256,
    decreases s.len(),
{
    if s.len() == 0 {
    } else {
        lemma_sum16_snoc1(s.skip(2), a);
        assert(s.push(a).skip(2) =~= s.skip(2).push(a));
    }
}

/// Computes the one's-complement checksum of `data`.
pub fn checksum16(data: &Vec<u8>) -> (r: u16)
    requires
        data@.len() <= 65536,
    ensures
        r == ocsum(data@),
{
    let n = data.len();
    let mut acc: u32 = 0;
    let mut i: usize = 0;
    while i + 2 <= n
        invariant
            data@.len() == n,
            n <= 65536,
            i % 2 == 0,
            i <= n,
            acc == sum16(data@.take(i as int)),
        decreases n - i,
    {
        proof {
            lemma_sum16_bound(data@.take(i as int));
            lemma_sum16_snoc2(data@.take(i as int), data@[i as int], data@[i + 1]);
            assert(data@.take(i + 2) =~= data@.take(i as int).push(data@[i as int]).push(
                data@[i + 1],
            ));
        }
        let w: u32 = (data[i] as u32) * 256 + (data[i + 1] as u32);
        acc = acc + w;
        i = i + 2;
    }
    if i < n {
        proof {
            lemma_sum16_bound(data@.take(i as int));
            lemma_sum16_snoc1(data@.take(i as int), data@[i as int]);
            assert(data@.take(i + 1) =~= data@.take(i as int).push(data@[i as int]));
        }
        acc = acc + (data[i] as u32) * 256;
        i = i + 1;
    }
    proof {
        assert(data@.take(n as int) =~= data@);
        lemma_sum16_bound(data@);
    }
    while acc > 0xffff
        invariant
            acc <= 65536 * 65535,
            fold16(acc as int) == fold16(sum16(data@)),
        decreases acc,
    {
        acc = acc % 0x10000 + acc / 0x10000;
    }
    0xffffu16 - (acc as u16)
}

} // verus!
