//! Word-at-a-time variants: compare 32-, 64- or 128-bit windows of the two
//! buffers and fall back to a byte-wise tail scan to pinpoint the mismatch.
//! All reads are bounds-checked against the shorter length.

use vstd::prelude::*;

use crate::model::agree_up_to;
use crate::model::common_prefix_len;
use crate::model::lemma_common_prefix_len_is;
use crate::words::lemma_word32_agree;
use crate::words::lemma_word64_agree;
use crate::words::lemma_word64_leading;
use crate::words::lemma_word128_agree;
use crate::words::read_u32;
use crate::words::read_u64;
use crate::words::read_u128;

verus! {

/// 64-bit windows while they are equal, one 32-bit probe to shrink the
/// remaining window, then a byte-wise tail scan.
#[verifier::loop_isolation(false)]
pub fn bytes_diff_original(base: &[u8], target: &[u8]) -> (n: usize)
    ensures
        n == common_prefix_len(base@, target@),
{
    let blen = base.len();
    let tlen = target.len();
    let end = if blen < tlen { blen } else { tlen };
    let mut i: usize = 0;
    while end - i >= 8
        invariant
            i <= end,
            agree_up_to(base@, target@, i as int),
        decreases end - i,
    {
        if read_u64(base, i) != read_u64(target, i) {
            break;
        }
        proof {
            lemma_word64_agree(base@, target@, i as int);
        }
        i += 8;
    }
    if end - i >= 4 && read_u32(base, i) == read_u32(target, i) {
        proof {
            lemma_word32_agree(base@, target@, i as int);
        }
        i += 4;
    }
    while i < end
        invariant
            i <= end,
            agree_up_to(base@, target@, i as int),
        decreases end - i,
    {
        if base[i] != target[i] {
            proof {
                lemma_common_prefix_len_is(base@, target@, i as int);
            }
            return i;
        }
        i += 1;
    }
    proof {
        lemma_common_prefix_len_is(base@, target@, end as int);
    }
    end
}

/// 128-bit windows while they are equal, then a 64-bit and a 32-bit probe to
/// shrink the remaining window, then a byte-wise tail scan.
#[verifier::loop_isolation(false)]
pub fn bytes_diff_original_128(base: &[u8], target: &[u8]) -> (n: usize)
    ensures
        n == common_prefix_len(base@, target@),
{
    let blen = base.len();
    let tlen = target.len();
    let end = if blen < tlen { blen } else { tlen };
    let mut i: usize = 0;
    while end - i >= 16
        invariant
            i <= end,
            agree_up_to(base@, target@, i as int),
        decreases end - i,
    {
        if read_u128(base, i) != read_u128(target, i) {
            break;
        }
        proof {
            lemma_word128_agree(base@, target@, i as int);
        }
        i += 16;
    }
    if end - i >= 8 && read_u64(base, i) == read_u64(target, i) {
        proof {
            lemma_word64_agree(base@, target@, i as int);
        }
        i += 8;
    }
    if end - i >= 4 && read_u32(base, i) == read_u32(target, i) {
        proof {
            lemma_word32_agree(base@, target@, i as int);
        }
        i += 4;
    }
    while i < end
        invariant
            i <= end,
            agree_up_to(base@, target@, i as int),
        decreases end - i,
    {
        if base[i] != target[i] {
            proof {
                lemma_common_prefix_len_is(base@, target@, i as int);
            }
            return i;
        }
        i += 1;
    }
    proof {
        lemma_common_prefix_len_is(base@, target@, end as int);
    }
    end
}

/// Bit-trick variant: XOR two 64-bit windows and divide the leading-zero
/// count by eight to learn how many of the window's bytes agree. The windows
/// are read with the first byte most significant, so the count runs in buffer
/// order; a byte-wise tail scan then pinpoints the mismatch.
#[verifier::loop_isolation(false)]
pub fn bytes_diff_bitwise(base: &[u8], target: &[u8]) -> (n: usize)
    ensures
        n == common_prefix_len(base@, target@),
{
    let blen = base.len();
    let tlen = target.len();
    let end = if blen < tlen { blen } else { tlen };
    let mut i: usize = 0;
    while end - i >= 8
        invariant
            i <= end,
            agree_up_to(base@, target@, i as int),
        decreases end - i,
    {
        let a = read_u64(base, i);
        let b = read_u64(target, i);
        let lz = (a ^ b).leading_zeros();
        let lz3 = (lz >> 3) as usize;
        proof {
            vstd::std_specs::bits::axiom_u64_leading_zeros(a ^ b);
            assert(lz >> 3 == lz / 8) by (bit_vector);
            lemma_word64_leading(base@, target@, i as int, lz3 as int);
        }
        i += lz3;
        if lz3 != 8 {
            break;
        }
    }
    while i < end
        invariant
            i <= end,
            agree_up_to(base@, target@, i as int),
        decreases end - i,
    {
        if base[i] != target[i] {
            proof {
                lemma_common_prefix_len_is(base@, target@, i as int);
            }
            return i;
        }
        i += 1;
    }
    proof {
        lemma_common_prefix_len_is(base@, target@, end as int);
    }
    end
}

} // verus!
