//! Scalar variants: one byte at a time, in three styles.

use vstd::prelude::*;

use crate::model::agree_up_to;
use crate::model::common_prefix_len;
use crate::model::lemma_common_prefix_len_is;

verus! {

/// Baseline linear scan: compare byte `i` of each buffer for increasing `i`
/// and stop at the first mismatch, or at the end of the shorter buffer.
#[verifier::loop_isolation(false)]
pub fn bytes_diff_naive(a: &[u8], b: &[u8]) -> (n: usize)
    ensures
        n == common_prefix_len(a@, b@),
{
    let alen = a.len();
    let blen = b.len();
    let shortest = if alen < blen { alen } else { blen };

    let mut index: usize = 0;
    while index < shortest
        invariant
            index <= shortest,
            agree_up_to(a@, b@, index as int),
        decreases shortest - index,
    {
        if a[index] != b[index] {
            proof {
                lemma_common_prefix_len_is(a@, b@, index as int);
            }
            return index;
        }
        index += 1;
    }

    proof {
        lemma_common_prefix_len_is(a@, b@, shortest as int);
    }
    shortest
}

/// Pairwise scan over the zipped buffers: walk the pairs in step and report
/// the position of the first unequal pair, or the number of pairs when all
/// of them are equal.
#[verifier::loop_isolation(false)]
pub fn bytes_diff_functional_naive(base: &[u8], target: &[u8]) -> (n: usize)
    ensures
        n == common_prefix_len(base@, target@),
{
    let blen = base.len();
    let tlen = target.len();
    let limit = if blen < tlen { blen } else { tlen };
    let mut end: usize = 0;
    while end < limit
        invariant
            end <= limit,
            agree_up_to(base@, target@, end as int),
        decreases limit - end,
    {
        if base[end] != target[end] {
            proof {
                lemma_common_prefix_len_is(base@, target@, end as int);
            }
            return end;
        }
        end += 1;
    }
    proof {
        lemma_common_prefix_len_is(base@, target@, end as int);
    }
    end
}

/// Declarative formulation: count the leading pairs that are equal, taking
/// pairs only while they match.
#[verifier::loop_isolation(false)]
pub fn bytes_diff_functional(base: &[u8], target: &[u8]) -> (n: usize)
    ensures
        n == common_prefix_len(base@, target@),
{
    let blen = base.len();
    let tlen = target.len();
    let limit = if blen < tlen { blen } else { tlen };
    let mut count: usize = 0;
    while count < limit && base[count] == target[count]
        invariant
            count <= limit,
            agree_up_to(base@, target@, count as int),
        decreases limit - count,
    {
        count += 1;
    }
    proof {
        lemma_common_prefix_len_is(base@, target@, count as int);
    }
    count
}

} // verus!
