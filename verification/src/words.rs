//! Fixed-width words read from byte buffers.
//!
//! Wide variants compare 32-, 64- or 128-bit windows of the two buffers at a
//! time. A window is read as an unsigned integer with the first byte in the
//! most significant position, so that equal words mean equal bytes, and the
//! leading zeros of an XOR of two words count the bytes that agree, in buffer
//! order. The lemmas here turn facts about words back into facts about bytes.

use vstd::prelude::*;
use vstd::std_specs::bits::axiom_u64_leading_zeros;
use vstd::std_specs::bits::u64_leading_zeros;

verus! {

/// The 4 bytes of `s` starting at `i`, first byte most significant.
pub open spec fn word32_of(s: Seq<u8>, i: int) -> u32 {
    ((s[i] as u32) << 24) | ((s[i + 1] as u32) << 16) | ((s[i + 2] as u32) << 8) | (s[i
        + 3] as u32)
}

/// The 8 bytes of `s` starting at `i`, first byte most significant.
pub open spec fn word64_of(s: Seq<u8>, i: int) -> u64 {
    ((s[i] as u64) << 56) | ((s[i + 1] as u64) << 48) | ((s[i + 2] as u64) << 40) | ((s[i
        + 3] as u64) << 32) | ((s[i + 4] as u64) << 24) | ((s[i + 5] as u64) << 16) | ((s[i
        + 6] as u64) << 8) | (s[i + 7] as u64)
}

/// The 16 bytes of `s` starting at `i`, first byte most significant.
pub open spec fn word128_of(s: Seq<u8>, i: int) -> u128 {
    ((word64_of(s, i) as u128) << 64) | (word64_of(s, i + 8) as u128)
}

/// Bounds-checked 32-bit read at offset `i`.
pub fn read_u32(s: &[u8], i: usize) -> (r: u32)
    requires
        i + 4 <= s@.len(),
    ensures
        r == word32_of(s@, i as int),
{
    ((s[i] as u32) << 24) | ((s[i + 1] as u32) << 16) | ((s[i + 2] as u32) << 8) | (s[i
        + 3] as u32)
}

/// Bounds-checked 64-bit read at offset `i`.
pub fn read_u64(s: &[u8], i: usize) -> (r: u64)
    requires
        i + 8 <= s@.len(),
    ensures
        r == word64_of(s@, i as int),
{
    ((s[i] as u64) << 56) | ((s[i + 1] as u64) << 48) | ((s[i + 2] as u64) << 40) | ((s[i
        + 3] as u64) << 32) | ((s[i + 4] as u64) << 24) | ((s[i + 5] as u64) << 16) | ((s[i
        + 6] as u64) << 8) | (s[i + 7] as u64)
}

/// Bounds-checked 128-bit read at offset `i`.
pub fn read_u128(s: &[u8], i: usize) -> (r: u128)
    requires
        i + 16 <= s@.len(),
    ensures
        r == word128_of(s@, i as int),
{
    proof {
        vstd::slice::axiom_spec_len(s);
    }
    ((read_u64(s, i) as u128) << 64) | (read_u64(s, i + 8) as u128)
}

/// Equal 32-bit words mean the 4 bytes under them agree.
pub proof fn lemma_word32_agree(a: Seq<u8>, b: Seq<u8>, i: int)
    requires
        0 <= i,
        i + 4 <= a.len(),
        i + 4 <= b.len(),
        word32_of(a, i) == word32_of(b, i),
    ensures
        forall|t: int| i <= t < i + 4 ==> a[t] == b[t],
{
    let (a0, a1, a2, a3) = (a[i], a[i + 1], a[i + 2], a[i + 3]);
    let (b0, b1, b2, b3) = (b[i], b[i + 1], b[i + 2], b[i + 3]);
    assert(a0 == b0 && a1 == b1 && a2 == b2 && a3 == b3) by (bit_vector)
        requires
            ((a0 as u32) << 24) | ((a1 as u32) << 16) | ((a2 as u32) << 8) | (a3 as u32) == ((
            b0 as u32) << 24) | ((b1 as u32) << 16) | ((b2 as u32) << 8) | (b3 as u32),
    ;
}

/// Equal 64-bit words mean the 8 bytes under them agree.
pub proof fn lemma_word64_agree(a: Seq<u8>, b: Seq<u8>, i: int)
    requires
        0 <= i,
        i + 8 <= a.len(),
        i + 8 <= b.len(),
        word64_of(a, i) == word64_of(b, i),
    ensures
        forall|t: int| i <= t < i + 8 ==> a[t] == b[t],
{
    let wa = word64_of(a, i);
    let wb = word64_of(b, i);
    assert(wa ^ wb == 0u64) by (bit_vector)
        requires
            wa == wb,
    ;
    axiom_u64_leading_zeros(wa ^ wb);
    lemma_word64_leading(a, b, i, 8);
}

/// Equal 128-bit words mean the 16 bytes under them agree.
pub proof fn lemma_word128_agree(a: Seq<u8>, b: Seq<u8>, i: int)
    requires
        0 <= i,
        i + 16 <= a.len(),
        i + 16 <= b.len(),
        word128_of(a, i) == word128_of(b, i),
    ensures
        forall|t: int| i <= t < i + 16 ==> a[t] == b[t],
{
    let (ah, al) = (word64_of(a, i), word64_of(a, i + 8));
    let (bh, bl) = (word64_of(b, i), word64_of(b, i + 8));
    assert(ah == bh && al == bl) by (bit_vector)
        requires
            ((ah as u128) << 64) | (al as u128) == ((bh as u128) << 64) | (bl as u128),
    ;
    lemma_word64_agree(a, b, i);
    lemma_word64_agree(a, b, i + 8);
}

/// When the XOR of two 64-bit words has at least `8 * k` leading zeros, the
/// first `k` bytes under the words agree. With the first byte in the most
/// significant position, the leading-zero count runs in buffer order, so the
/// count is a valid advance for a left-to-right scan.
pub proof fn lemma_word64_leading(a: Seq<u8>, b: Seq<u8>, i: int, k: int)
    requires
        0 <= i,
        i + 8 <= a.len(),
        i + 8 <= b.len(),
        0 <= k <= 8,
        8 * k <= u64_leading_zeros(word64_of(a, i) ^ word64_of(b, i)),
    ensures
        forall|t: int| i <= t < i + k ==> a[t] == b[t],
{
    let x = word64_of(a, i) ^ word64_of(b, i);
    axiom_u64_leading_zeros(x);
    let lzv = u64_leading_zeros(x) as u64;
    let kk = k as u64;
    let shl: u64 = (64 - lzv) as u64;
    let shk: u64 = (64 - 8 * k) as u64;
    assert(vstd::prelude::sub(64u64, lzv) == shl) by (bit_vector)
        requires
            lzv <= 64,
            shl + lzv == 64,
    ;
    assert(x >> shk == 0) by (bit_vector)
        requires
            x >> shl == 0,
            shl <= shk,
    ;
    let (a0, a1, a2, a3) = (a[i], a[i + 1], a[i + 2], a[i + 3]);
    let (a4, a5, a6, a7) = (a[i + 4], a[i + 5], a[i + 6], a[i + 7]);
    let (b0, b1, b2, b3) = (b[i], b[i + 1], b[i + 2], b[i + 3]);
    let (b4, b5, b6, b7) = (b[i + 4], b[i + 5], b[i + 6], b[i + 7]);
    assert((kk >= 1 ==> a0 == b0) && (kk >= 2 ==> a1 == b1) && (kk >= 3 ==> a2 == b2) && (kk >= 4
        ==> a3 == b3) && (kk >= 5 ==> a4 == b4) && (kk >= 6 ==> a5 == b5) && (kk >= 7 ==> a6 == b6)
        && (kk >= 8 ==> a7 == b7)) by (bit_vector)
        requires
            kk <= 8,
            shk + 8 * kk == 64,
            ((((a0 as u64) << 56) | ((a1 as u64) << 48) | ((a2 as u64) << 40) | ((a3 as u64) << 32)
                | ((a4 as u64) << 24) | ((a5 as u64) << 16) | ((a6 as u64) << 8) | (a7 as u64)) ^ (((
            b0 as u64) << 56) | ((b1 as u64) << 48) | ((b2 as u64) << 40) | ((b3 as u64) << 32) | ((
            b4 as u64) << 24) | ((b5 as u64) << 16) | ((b6 as u64) << 8) | (b7 as u64)))
                >> shk == 0,
    ;
}

} // verus!
