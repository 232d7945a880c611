//! The mathematical model: what the common prefix length of two byte
//! sequences is, and the laws every variant is proved against.

use vstd::prelude::*;

verus! {

/// The bytes of `a` and `b` agree at every index below `n`.
pub open spec fn agree_up_to(a: Seq<u8>, b: Seq<u8>, n: int) -> bool {
    forall|i: int| 0 <= i < n ==> a[i] == b[i]
}

/// The length of the longest common prefix of `a` and `b`: the first index at
/// which they hold different bytes, or the length of the shorter sequence when
/// one is a prefix of the other.
pub open spec fn common_prefix_len(a: Seq<u8>, b: Seq<u8>) -> int
    decreases a.len(),
{
    if a.len() == 0 || b.len() == 0 {
        0
    } else if a[0] != b[0] {
        0
    } else {
        1 + common_prefix_len(a.skip(1), b.skip(1))
    }
}

/// `n` is a point of divergence of `a` and `b`: all bytes below it agree, and
/// it is either the end of the shorter sequence or an index where they differ.
/// Exactly one such `n` exists, so this characterizes `common_prefix_len`.
pub open spec fn diverges_at(a: Seq<u8>, b: Seq<u8>, n: int) -> bool {
    &&& 0 <= n <= a.len()
    &&& n <= b.len()
    &&& agree_up_to(a, b, n)
    &&& (n < a.len() && n < b.len() ==> a[n] != b[n])
}

/// `common_prefix_len` is a point of divergence.
pub proof fn lemma_common_prefix_len_diverges(a: Seq<u8>, b: Seq<u8>)
    ensures
        diverges_at(a, b, common_prefix_len(a, b)),
    decreases a.len(),
{
    if a.len() == 0 || b.len() == 0 {
    } else if a[0] != b[0] {
    } else {
        lemma_common_prefix_len_diverges(a.skip(1), b.skip(1));
        let m = common_prefix_len(a.skip(1), b.skip(1));
        let n = common_prefix_len(a, b);
        assert forall|i: int| 0 <= i < n implies a[i] == b[i] by {
            if i >= 1 {
                assert(a.skip(1)[i - 1] == a[i]);
                assert(b.skip(1)[i - 1] == b[i]);
            }
        }
        if n < a.len() && n < b.len() {
            assert(a.skip(1)[m] == a[n]);
            assert(b.skip(1)[m] == b[n]);
        }
    }
}

/// Points of divergence are unique, so exhibiting one pins the result down.
pub proof fn lemma_common_prefix_len_is(a: Seq<u8>, b: Seq<u8>, n: int)
    requires
        diverges_at(a, b, n),
    ensures
        n == common_prefix_len(a, b),
{
    lemma_common_prefix_len_diverges(a, b);
    let m = common_prefix_len(a, b);
    if n < m {
        assert(a[n] == b[n]);
        assert(false);
    }
    if m < n {
        assert(a[m] == b[m]);
        assert(false);
    }
}

/// Bound law: the result never exceeds the length of either input.
pub proof fn lemma_common_prefix_len_bound(a: Seq<u8>, b: Seq<u8>)
    ensures
        0 <= common_prefix_len(a, b) <= a.len(),
        common_prefix_len(a, b) <= b.len(),
{
    lemma_common_prefix_len_diverges(a, b);
}

/// Prefix-correctness law: for the result `n`, the first `n` bytes of the two
/// sequences agree, and either `n` is the length of the shorter sequence or
/// the byte at `n` differs.
pub proof fn lemma_common_prefix_len_correct(a: Seq<u8>, b: Seq<u8>)
    ensures
        agree_up_to(a, b, common_prefix_len(a, b)),
        common_prefix_len(a, b) == vstd::math::min(a.len() as int, b.len() as int)
            || a[common_prefix_len(a, b)] != b[common_prefix_len(a, b)],
{
    lemma_common_prefix_len_diverges(a, b);
}

/// Symmetry law: swapping the two inputs does not change the result.
pub proof fn lemma_common_prefix_len_symmetric(a: Seq<u8>, b: Seq<u8>)
    ensures
        common_prefix_len(a, b) == common_prefix_len(b, a),
{
    lemma_common_prefix_len_diverges(a, b);
    let n = common_prefix_len(a, b);
    assert forall|i: int| 0 <= i < n implies b[i] == a[i] by {
        assert(a[i] == b[i]);
    }
    lemma_common_prefix_len_is(b, a, n);
}

/// Shorter-view law: when every byte of `a` also stands at the same index in
/// `b` (as with two views of one underlying buffer, cut to different lengths),
/// the result is exactly the shorter length, `a.len()`.
pub proof fn lemma_common_prefix_len_of_prefix(a: Seq<u8>, b: Seq<u8>)
    requires
        a.len() <= b.len(),
        agree_up_to(a, b, a.len() as int),
    ensures
        common_prefix_len(a, b) == a.len(),
{
    lemma_common_prefix_len_is(a, b, a.len() as int);
}

/// Resumption law: once the first `m` bytes are known to agree, the scan may
/// resume on the suffixes; the total is `m` plus the answer on the suffixes.
pub proof fn lemma_common_prefix_len_skip(a: Seq<u8>, b: Seq<u8>, m: int)
    requires
        0 <= m <= a.len(),
        m <= b.len(),
        agree_up_to(a, b, m),
    ensures
        common_prefix_len(a, b) == m + common_prefix_len(a.skip(m), b.skip(m)),
{
    lemma_common_prefix_len_diverges(a.skip(m), b.skip(m));
    let k = common_prefix_len(a.skip(m), b.skip(m));
    assert forall|i: int| 0 <= i < m + k implies a[i] == b[i] by {
        if i >= m {
            assert(a.skip(m)[i - m] == a[i]);
            assert(b.skip(m)[i - m] == b[i]);
        }
    }
    if m + k < a.len() && m + k < b.len() {
        assert(a.skip(m)[k] == a[m + k]);
        assert(b.skip(m)[k] == b[m + k]);
    }
    lemma_common_prefix_len_is(a, b, m + k);
}

} // verus!
