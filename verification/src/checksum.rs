//! The ones'-complement checksum used by the IPv4 header and by TCP.
//!
//! The data is read as big-endian 16-bit words (a trailing odd byte is
//! padded with a zero on the right), the words are added with end-around
//! carry, and the checksum is the complement of the sum.

use vstd::prelude::*;

verus! {

/// Ones'-complement addition of two 16-bit words: the carry out of the top
/// bit is added back into the lowest bit.
pub open spec fn oc_add(a: u16, b: u16) -> u16 {
    if a + b > 0xffff {
        (a + b - 0xffff) as u16
    } else {
        (a + b) as u16
    }
}

/// Ones'-complement sum of the words of `b[0..i]`; an odd final byte is
/// padded with a zero on the right.
pub open spec fn oc_sum(b: Seq<u8>, i: int) -> u16
    decreases i,
{
    if i <= 0 || i > b.len() {
        0
    } else if i % 2 == 1 {
        oc_add(oc_sum(b, i - 1), ((b[i - 1] as int) * 0x100) as u16)
    } else {
        oc_add(oc_sum(b, i - 2), ((b[i - 2] as int) * 0x100 + (b[i - 1] as int)) as u16)
    }
}

/// The checksum of `b`: the complement of the ones'-complement word sum.
pub open spec fn spec_checksum(b: Seq<u8>) -> u16 {
    !oc_sum(b, b.len() as int)
}

fn oc_add_word(a: u16, b: u16) -> (r: u16)
    ensures
        r == oc_add(a, b),
{
    let s: u32 = a as u32 + b as u32;
    if s > 0xffff {
        (s - 0xffff) as u16
    } else {
        s as u16
    }
}

/// Compute the checksum of `data`, as `spec_checksum` defines it.
pub fn internet_checksum(data: &[u8]) -> (ck: u16)
    ensures
        ck == spec_checksum(data@),
{
    let n: usize = data.len();
    let mut acc: u16 = 0;
    let mut i: usize = 0;
    while i + 1 < n
        invariant
            n == data@.len(),
            i <= n,
            i % 2 == 0,
            acc == oc_sum(data@, i as int),
        decreases n - i,
    {
        let w: u16 = (data[i] as u16) * 0x100 + (data[i + 1] as u16);
        acc = oc_add_word(acc, w);
        assert(oc_sum(data@, i + 2) == oc_add(oc_sum(data@, i as int), w));
        i += 2;
    }
    if i < n {
        let w: u16 = (data[i] as u16) * 0x100;
        acc = oc_add_word(acc, w);
        assert(oc_sum(data@, i + 1) == oc_add(oc_sum(data@, i as int), w));
        i += 1;
    }
    assert(i == n);
    !acc
}

/// Two byte sequences that agree up to `i` have the same word sum there.
proof fn lemma_oc_sum_prefix_eq(a: Seq<u8>, b: Seq<u8>, i: int)
    requires
        0 <= i <= a.len(),
        i <= b.len(),
        forall|k: int| 0 <= k < i ==> a[k] == b[k],
    ensures
        oc_sum(a, i) == oc_sum(b, i),
    decreases i,
{
    if i >= 2 {
        lemma_oc_sum_prefix_eq(a, b, i - 2);
        if i % 2 == 1 {
            lemma_oc_sum_prefix_eq(a, b, i - 1);
        }
    } else if i == 1 {
        lemma_oc_sum_prefix_eq(a, b, 0);
    }
}

/// The order in which two words join a ones'-complement sum does not
/// matter.
proof fn lemma_oc_shuffle(x: u16, c: u16, w: u16)
    ensures
        oc_add(oc_add(x, c), w) == oc_add(oc_add(x, w), c),
{
}

/// A constant carried into a ones'-complement sum at position `i` is still
/// carried at any later position `n`, as long as the summed bytes agree in
/// between.
proof fn lemma_oc_sum_carry(a: Seq<u8>, b: Seq<u8>, c: u16, i: int, n: int)
    requires
        0 <= i <= n,
        n <= a.len(),
        n <= b.len(),
        i % 2 == 0,
        forall|k: int| i <= k < n ==> a[k] == b[k],
        oc_sum(a, i) == oc_add(oc_sum(b, i), c),
    ensures
        oc_sum(a, n) == oc_add(oc_sum(b, n), c),
    decreases n - i,
{
    if n > i {
        if n % 2 == 1 {
            lemma_oc_sum_carry(a, b, c, i, n - 1);
            let w = (((a[n - 1] as int) * 0x100) as u16);
            lemma_oc_shuffle(oc_sum(b, n - 1), c, w);
        } else {
            lemma_oc_sum_carry(a, b, c, i, n - 2);
            let w = (((a[n - 2] as int) * 0x100 + (a[n - 1] as int)) as u16);
            lemma_oc_shuffle(oc_sum(b, n - 2), c, w);
        }
    }
}

/// Writing the checksum of `b0` over a zero word of `b0` at even position
/// `p` makes the whole ones'-complement sum `0xffff`: exactly the test a
/// receiving stack applies to a checksummed header.
pub proof fn lemma_patched_sum_is_ffff(b0: Seq<u8>, p: int)
    requires
        0 <= p,
        p % 2 == 0,
        p + 2 <= b0.len(),
        b0[p] == 0,
        b0[p + 1] == 0,
    ensures
        ({
            let ck = spec_checksum(b0);
            let b = b0.update(p, (ck >> 8) as u8).update(p + 1, (ck & 0xff) as u8);
            oc_sum(b, b0.len() as int) == 0xffff
        }),
{
    let n = b0.len() as int;
    let ck = spec_checksum(b0);
    let b = b0.update(p, (ck >> 8) as u8).update(p + 1, (ck & 0xff) as u8);
    lemma_oc_sum_prefix_eq(b, b0, p);
    assert(((ck >> 8) as u8 as u16) * 0x100 + ((ck & 0xff) as u8 as u16) == ck) by (bit_vector);
    assert(oc_sum(b, p + 2) == oc_add(oc_sum(b, p), ck));
    assert(oc_sum(b0, p + 2) == oc_add(oc_sum(b0, p), ((0 * 0x100 + 0) as u16)));
    assert(oc_sum(b0, p + 2) == oc_sum(b0, p));
    assert(oc_sum(b, p + 2) == oc_add(oc_sum(b0, p + 2), ck));
    lemma_oc_sum_carry(b, b0, ck, p + 2, n);
    let x = oc_sum(b0, n);
    assert(x as int + (!x) as int == 0xffff) by (bit_vector);
    assert(oc_add(x, !x) == 0xffff);
}

} // verus!
