//! Mapping of transform bins to signed frequency indices.
//!
//! A transform of `n` points yields bins `0..n`. The upper half of them stands
//! for negative frequencies, so bin `k` is folded to the signed index
//! `((k + n/2) mod n) - n/2`, which lies in `[-n/2, n - n/2)`. The physical
//! frequency of a bin is that index divided by the time one block takes.

use vstd::prelude::*;
use vstd::arithmetic::div_mod::{
    lemma_add_mod_noop, lemma_fundamental_div_mod, lemma_fundamental_div_mod_converse,
    lemma_mod_bound, lemma_mod_multiples_basic, lemma_mod_multiples_vanish, lemma_small_mod,
};

verus! {

/// The signed index of bin `k` in a transform of `n` points.
///
/// `%` is the mathematical remainder here, so a negative `k` folds like
/// `k + n`.
pub open spec fn centered_index(k: int, n: int) -> int
    recommends
        n > 0,
{
    (k + n / 2) % n - n / 2
}

/// Folds bin `k` of an `n`-point transform to its signed index.
///
/// Bins below `n - n/2` keep their index; the others, which stand for negative
/// frequencies, come out as `k mod n - n`.
pub fn centered_bin(k: usize, n: usize) -> (c: i64)
    requires
        n > 0,
    ensures
        c == centered_index(k as int, n as int),
{
    let half: usize = n / 2;
    let r: usize = k % n;
    proof {
        lemma_add_mod_noop(k as int, half as int, n as int);
        lemma_small_mod(half as nat, n as nat);
    }
    if r >= n - half {
        proof {
            lemma_mod_multiples_vanish(-1, r + half, n as int);
            lemma_small_mod((r + half - n) as nat, n as nat);
        }
        -((n - r) as i64)
    } else {
        proof {
            lemma_small_mod((r + half) as nat, n as nat);
        }
        r as i64
    }
}

/// Bin zero is frequency zero, whatever the block length.
pub proof fn zero_bin_is_zero(n: int)
    requires
        n > 0,
    ensures
        centered_index(0, n) == 0,
{
    lemma_small_mod((n / 2) as nat, n as nat);
}

/// With an even block length the middle bin, the Nyquist bin, folds to the
/// negative end of the range: the sign changes exactly there.
pub proof fn nyquist_bin_folds_negative(n: int)
    requires
        n > 0,
        n % 2 == 0,
    ensures
        centered_index(n / 2, n) == -(n / 2),
        n >= 2 ==> centered_index(n / 2 - 1, n) == n / 2 - 1,
{
    lemma_mod_multiples_vanish(-1, n / 2 + n / 2, n);
    lemma_small_mod(0, n as nat);
    if n >= 2 {
        lemma_small_mod((n - 1) as nat, n as nat);
    }
}

/// The last bin is the bin before zero: it folds like index `-1`, and for a
/// block of two or more samples that is `-1` itself.
pub proof fn last_bin_is_minus_one(n: int)
    requires
        n > 0,
    ensures
        centered_index(n - 1, n) == centered_index(-1, n),
        n >= 2 ==> centered_index(n - 1, n) == -1,
{
    lemma_mod_multiples_vanish(1, -1 + n / 2, n);
    if n >= 2 {
        lemma_small_mod((n / 2 - 1) as nat, n as nat);
    }
}

/// Bins a whole block length apart fold to the same index.
pub proof fn folding_is_periodic(k: int, n: int)
    requires
        n > 0,
    ensures
        centered_index(k + n, n) == centered_index(k, n),
{
    lemma_mod_multiples_vanish(1, k + n / 2, n);
}

/// The folded index lies in the `n` indices around zero and differs from the
/// bin by a multiple of the block length.
pub proof fn folded_index_is_near_zero(k: int, n: int)
    requires
        n > 0,
    ensures
        -(n / 2) <= centered_index(k, n) < n - n / 2,
        (centered_index(k, n) - k) % n == 0,
{
    let h = n / 2;
    let f = centered_index(k, n);
    lemma_mod_bound(k + h, n);
    lemma_fundamental_div_mod(k + h, n);
    let d = (k + h) / n;
    assert(f - k == -d * n) by (nonlinear_arith)
        requires
            k + h == n * d + (f + h),
    ;
    lemma_mod_multiples_basic(-d, n);
}

/// A number among the `n` indices around zero that differs from bin `k` by a
/// multiple of the block length is the folded index of `k`.
pub proof fn folded_index_is_unique(k: int, n: int, c: int)
    requires
        n > 0,
        -(n / 2) <= c < n - n / 2,
        (c - k) % n == 0,
    ensures
        c == centered_index(k, n),
{
    let h = n / 2;
    let f = centered_index(k, n);
    lemma_mod_bound(k + h, n);
    lemma_fundamental_div_mod(k + h, n);
    let d = (k + h) / n;
    lemma_fundamental_div_mod(c - k, n);
    let e = (c - k) / n;
    assert(c + h == (e + d) * n + (f + h)) by (nonlinear_arith)
        requires
            c - k == n * e,
            k + h == n * d + (f + h),
    ;
    lemma_fundamental_div_mod_converse(c + h, n, e + d, f + h);
    lemma_small_mod((c + h) as nat, n as nat);
}

} // verus!
