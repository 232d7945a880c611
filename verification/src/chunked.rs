//! Chunked variants: count leading equal fixed-width chunks, then rescan the
//! remainder byte by byte. Chunk equality alone only proves the mismatch is
//! not before the chunked offset; the byte-wise tail pinpoints it.

use vstd::prelude::*;

use crate::model::agree_up_to;
use crate::model::common_prefix_len;
use crate::model::lemma_common_prefix_len_bound;
use crate::model::lemma_common_prefix_len_correct;
use crate::model::lemma_common_prefix_len_is;
use crate::model::lemma_common_prefix_len_skip;
use crate::wide::bytes_diff_original;

verus! {

/// Block-equality test: do the two buffers agree on the whole window
/// `[off, off + len)`?
#[verifier::loop_isolation(false)]
fn chunk_eq(a: &[u8], b: &[u8], off: usize, len: usize) -> (r: bool)
    requires
        off + len <= a@.len(),
        off + len <= b@.len(),
    ensures
        r <==> (forall|t: int| off <= t < off + len ==> a@[t] == b@[t]),
{
    proof {
        vstd::slice::axiom_spec_len(a);
    }
    let mut j: usize = 0;
    while j < len
        invariant
            j <= len,
            forall|t: int| off <= t < off + j ==> a@[t] == b@[t],
        decreases len - j,
    {
        if a[off + j] != b[off + j] {
            return false;
        }
        j += 1;
    }
    true
}

/// Generic fixed-chunk-width scan: count how many leading `n`-byte chunks of
/// the two buffers are equal as blocks, then scan the remainder byte-wise
/// from that offset.
#[verifier::loop_isolation(false)]
pub fn bytes_diff_chunked<const N: usize>(xs: &[u8], ys: &[u8]) -> (n: usize)
    requires
        N >= 1,
    ensures
        n == common_prefix_len(xs@, ys@),
{
    let xlen = xs.len();
    let ylen = ys.len();
    let end = if xlen < ylen { xlen } else { ylen };
    let mut off: usize = 0;
    while end - off >= N
        invariant
            off <= end,
            agree_up_to(xs@, ys@, off as int),
        decreases end - off,
    {
        if !chunk_eq(xs, ys, off, N) {
            break;
        }
        off += N;
    }
    while off < end
        invariant
            off <= end,
            agree_up_to(xs@, ys@, off as int),
        decreases end - off,
    {
        if xs[off] != ys[off] {
            proof {
                lemma_common_prefix_len_is(xs@, ys@, off as int);
            }
            return off;
        }
        off += 1;
    }
    proof {
        lemma_common_prefix_len_is(xs@, ys@, end as int);
    }
    end
}

/// Chunk width 8.
pub fn bytes_diff_chunked8(base: &[u8], target: &[u8]) -> (n: usize)
    ensures
        n == common_prefix_len(base@, target@),
{
    bytes_diff_chunked::<8>(base, target)
}

/// Chunk width 16.
pub fn bytes_diff_chunked16(base: &[u8], target: &[u8]) -> (n: usize)
    ensures
        n == common_prefix_len(base@, target@),
{
    bytes_diff_chunked::<16>(base, target)
}

/// Chunk width 32.
pub fn bytes_diff_chunked32(base: &[u8], target: &[u8]) -> (n: usize)
    ensures
        n == common_prefix_len(base@, target@),
{
    bytes_diff_chunked::<32>(base, target)
}

/// Chunk width 64.
pub fn bytes_diff_chunked64(base: &[u8], target: &[u8]) -> (n: usize)
    ensures
        n == common_prefix_len(base@, target@),
{
    bytes_diff_chunked::<64>(base, target)
}

/// Chunk width 128.
pub fn bytes_diff_chunked128(base: &[u8], target: &[u8]) -> (n: usize)
    ensures
        n == common_prefix_len(base@, target@),
{
    bytes_diff_chunked::<128>(base, target)
}

/// 128-byte chunks, each compared by delegating to the word-at-a-time scan on
/// a pair of subslices; the tail past the last equal chunk is delegated too.
#[verifier::loop_isolation(false)]
pub fn bytes_diff_chunked_original(base: &[u8], target: &[u8]) -> (n: usize)
    ensures
        n == common_prefix_len(base@, target@),
{
    let blen = base.len();
    let tlen = target.len();
    let end = if blen < tlen { blen } else { tlen };
    let mut sum: usize = 0;
    while end - sum >= 128
        invariant
            sum <= end,
            agree_up_to(base@, target@, sum as int),
        decreases end - sum,
    {
        let l = &base[sum..sum + 128];
        let r = &target[sum..sum + 128];
        let n = bytes_diff_original(l, r);
        proof {
            lemma_common_prefix_len_bound(l@, r@);
            lemma_common_prefix_len_correct(l@, r@);
            assert forall|t: int| 0 <= t < sum + n implies base@[t] == target@[t] by {
                if t >= sum {
                    assert(l@[t - sum] == base@[t]);
                    assert(r@[t - sum] == target@[t]);
                }
            }
        }
        sum += n;
        if n != 128 {
            break;
        }
    }
    let l = &base[sum..blen];
    let r = &target[sum..tlen];
    let n = bytes_diff_original(l, r);
    proof {
        lemma_common_prefix_len_bound(l@, r@);
        lemma_common_prefix_len_skip(base@, target@, sum as int);
        assert(l@ =~= base@.skip(sum as int));
        assert(r@ =~= target@.skip(sum as int));
    }
    sum + n
}

/// Dispatch on input size: plain word-at-a-time scan for short inputs, the
/// 128-byte chunked scan for longer ones.
pub fn bytes_diff_hybrid_original(base: &[u8], target: &[u8]) -> (n: usize)
    ensures
        n == common_prefix_len(base@, target@),
{
    let blen = base.len();
    let tlen = target.len();
    let end = if blen < tlen { blen } else { tlen };
    if end <= 128 {
        return bytes_diff_original(base, target);
    }
    bytes_diff_chunked_original(base, target)
}

} // verus!
