//! The amortizing growth rule for the owned buffer: round the requested size
//! up to the next power of two, then double it again.  Each reallocation
//! therefore at least doubles the available room, which bounds the number of
//! reallocations by the logarithm of the final size.

use vstd::prelude::*;
use vstd::arithmetic::power2::pow2;

verus! {

/// The smallest power of two that is at least `n` (and at least 1).
pub open spec fn next_pow2(n: int) -> int
    decreases n,
{
    if n <= 1 {
        1
    } else {
        2 * next_pow2((n + 1) / 2)
    }
}

/// The size a reallocation aims for when `n` bytes must fit: the next power
/// of two at or above `n`, doubled once more.
pub open spec fn grow_target(n: int) -> int {
    2 * next_pow2(n)
}

/// The growth rule never asks for less than what must fit: `next_pow2(n) >= n`.
pub proof fn lemma_next_pow2_ge(n: int)
    ensures
        next_pow2(n) >= n,
        next_pow2(n) >= 1,
    decreases n,
{
    if n > 1 {
        lemma_next_pow2_ge((n + 1) / 2);
    }
}

/// The target of a reallocation that must fit `n` bytes leaves at least as
/// much room again: `grow_target(n) >= 2 * n`.
pub proof fn lemma_grow_target_doubles(n: int)
    ensures
        grow_target(n) >= 2 * n,
        grow_target(n) >= 2,
{
    lemma_next_pow2_ge(n);
}

/// The growth rule never overshoots fourfold: `next_pow2(n) <= 2 * (n - 1)`
/// once there are at least two bytes to fit.
pub proof fn lemma_next_pow2_le(n: int)
    ensures
        n >= 2 ==> next_pow2(n) <= 2 * (n - 1),
    decreases n,
{
    if n == 2 {
        assert(next_pow2(1) == 1);
    } else if n >= 3 {
        let m = (n + 1) / 2;
        lemma_next_pow2_le(m);
        lemma_next_pow2_ge(m);
        assert(m >= 2);
        assert(next_pow2(n) == 2 * next_pow2(m));
        assert(next_pow2(m) <= 2 * (m - 1));
        assert(4 * m <= 2 * n + 2);
    }
}

/// Whenever four times the needed size is addressable, the growth target is
/// addressable too: the practical way for a caller to discharge
/// [`crate::ffi::FfiString::push_str`]'s growth obligation.
pub proof fn lemma_grow_target_fits(n: int)
    requires
        0 <= n,
        4 * n <= usize::MAX,
    ensures
        grow_target(n) <= usize::MAX,
{
    if n <= 1 {
        assert(next_pow2(n) == 1);
    } else {
        lemma_next_pow2_le(n);
    }
}

/// Growth is sub-linear in the number of appends: when every reallocation at
/// least doubles the capacity, the capacity after `k` reallocations is at
/// least `2^k`, so a buffer of final capacity `c` has seen at most `log2(c)`
/// reallocations.  `caps` lists the capacity right after each reallocation.
pub proof fn lemma_doubling_growth(caps: Seq<int>)
    requires
        caps.len() >= 1,
        caps[0] >= 2,
        forall|i: int| 0 <= i < caps.len() - 1 ==> #[trigger] caps[i + 1] >= 2 * caps[i],
    ensures
        caps.last() >= pow2(caps.len() as nat),
    decreases caps.len(),
{
    if caps.len() == 1 {
        assert(pow2(1) == 2) by {
            vstd::arithmetic::power2::lemma2_to64();
        }
    } else {
        let front = caps.drop_last();
        lemma_doubling_growth(front);
        assert(caps[(caps.len() - 2) + 1] >= 2 * caps[caps.len() - 2]);
        assert(pow2(caps.len() as nat) == 2 * pow2((caps.len() - 1) as nat)) by {
            vstd::arithmetic::power2::lemma_pow2_unfold(caps.len() as nat);
        }
    }
}

/// Computes `next_pow2(n)`.
pub fn next_pow2_exec(n: usize) -> (r: usize)
    requires
        next_pow2(n as int) <= usize::MAX,
    ensures
        r as int == next_pow2(n as int),
    decreases n,
{
    if n <= 1 {
        1
    } else {
        proof {
            lemma_next_pow2_ge(((n + 1) / 2) as int);
        }
        let half = (n - 1) / 2 + 1;
        assert(half as int == (n + 1) / 2);
        2 * next_pow2_exec(half)
    }
}

} // verus!
