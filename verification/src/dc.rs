//! Taking the mean off a block.
//!
//! The mean of a block of integer samples is a fraction with the block length
//! as its denominator. To stay exact, a sample less the mean is kept as that
//! difference times the block length, which is an integer:
//! `len * x[k] - (x[0] + .. + x[len-1])`. Whoever needs the difference itself
//! divides by the block length.

use crate::sample::Sample;
use crate::segment::Block;
use vstd::prelude::*;

verus! {

/// A sample less the mean of its block, times the length of the block.
#[derive(Clone, Copy, Debug, PartialEq, Eq, Structural)]
pub struct Residual {
    /// The key of the sample it was made from.
    pub key: u32,
    /// Real part: `len * i - sum of all i`.
    pub re: i128,
    /// Imaginary part: `len * q - sum of all q`.
    pub im: i128,
}

/// A block with its mean taken off.
#[derive(Clone, Debug, PartialEq, Eq)]
pub struct DcFreeBlock {
    /// Position of the block among the blocks of its sensor, from zero.
    pub index: usize,
    /// Sum of the in-phase parts; the real part of the mean times the length.
    pub sum_i: u128,
    /// Sum of the quadrature parts; the imaginary part of the mean times the
    /// length.
    pub sum_q: u128,
    /// One residual per sample, in the order of the samples.
    pub residuals: Vec<Residual>,
}

/// Sum of the in-phase parts of `s`.
pub open spec fn sum_i(s: Seq<Sample>) -> int
    decreases s.len(),
{
    if s.len() == 0 {
        0
    } else {
        sum_i(s.drop_last()) + s.last().i
    }
}

/// Sum of the quadrature parts of `s`.
pub open spec fn sum_q(s: Seq<Sample>) -> int
    decreases s.len(),
{
    if s.len() == 0 {
        0
    } else {
        sum_q(s.drop_last()) + s.last().q
    }
}

/// Real part of sample `k` of `s` less the mean of `s`, times the length.
pub open spec fn residual_re(s: Seq<Sample>, k: int) -> int
    recommends
        0 <= k < s.len(),
{
    s.len() * s[k].i - sum_i(s)
}

/// Imaginary part of sample `k` of `s` less the mean of `s`, times the length.
pub open spec fn residual_im(s: Seq<Sample>, k: int) -> int
    recommends
        0 <= k < s.len(),
{
    s.len() * s[k].q - sum_q(s)
}

/// `out` holds, sample by sample, the residuals of `s`.
pub open spec fn is_dc_free(s: Seq<Sample>, out: Seq<Residual>) -> bool {
    &&& out.len() == s.len()
    &&& forall|k: int|
        0 <= k < s.len() ==> (#[trigger] out[k]).key == s[k].key && out[k].re == residual_re(s, k)
            && out[k].im == residual_im(s, k)
}

/// Sum of the real parts of `r`.
pub open spec fn total_re(r: Seq<Residual>) -> int
    decreases r.len(),
{
    if r.len() == 0 {
        0
    } else {
        total_re(r.drop_last()) + r.last().re
    }
}

/// Sum of the imaginary parts of `r`.
pub open spec fn total_im(r: Seq<Residual>) -> int
    decreases r.len(),
{
    if r.len() == 0 {
        0
    } else {
        total_im(r.drop_last()) + r.last().im
    }
}

proof fn lemma_sums_bounded(s: Seq<Sample>)
    ensures
        0 <= sum_i(s) <= s.len() * 0xffff,
        0 <= sum_q(s) <= s.len() * 0xffff,
    decreases s.len(),
{
    if s.len() > 0 {
        lemma_sums_bounded(s.drop_last());
    }
}

/// Adds up the two parts of the samples.
pub fn block_sums(samples: &Vec<Sample>) -> (sums: (u128, u128))
    ensures
        sums.0 == sum_i(samples@),
        sums.1 == sum_q(samples@),
{
    let mut acc_i: u128 = 0;
    let mut acc_q: u128 = 0;
    let mut j: usize = 0;
    while j < samples.len()
        invariant
            j <= samples.len(),
            acc_i == sum_i(samples@.take(j as int)),
            acc_q == sum_q(samples@.take(j as int)),
        decreases samples.len() - j,
    {
        proof {
            lemma_sums_bounded(samples@.take(j as int));
            assert(samples@.take(j + 1).drop_last() =~= samples@.take(j as int));
        }
        acc_i = acc_i + samples[j].i as u128;
        acc_q = acc_q + samples[j].q as u128;
        j = j + 1;
    }
    proof {
        assert(samples@.take(samples.len() as int) =~= samples@);
    }
    (acc_i, acc_q)
}

/// Takes the mean of the block off each of its samples.
///
/// The mean is that of this block alone. The residuals come in the order of
/// the samples and keep their keys.
pub fn remove_dc(block: &Block) -> (out: DcFreeBlock)
    ensures
        out.index == block.index,
        out.sum_i == sum_i(block.samples@),
        out.sum_q == sum_q(block.samples@),
        is_dc_free(block.samples@, out.residuals@),
{
    let len: usize = block.samples.len();
    let (sum_re, sum_im) = block_sums(&block.samples);
    proof {
        lemma_sums_bounded(block.samples@);
    }
    let mut residuals: Vec<Residual> = Vec::new();
    let mut k: usize = 0;
    while k < len
        invariant
            k <= len,
            len == block.samples.len(),
            sum_re == sum_i(block.samples@),
            sum_im == sum_q(block.samples@),
            sum_re <= len * 0xffff,
            sum_im <= len * 0xffff,
            residuals@.len() == k,
            forall|t: int|
                0 <= t < k ==> (#[trigger] residuals@[t]).key == block.samples@[t].key
                    && residuals@[t].re == residual_re(block.samples@, t) && residuals@[t].im
                    == residual_im(block.samples@, t),
        decreases len - k,
    {
        let s: Sample = block.samples[k];
        assert(len * s.i <= 0xffff_ffff_ffff_ffff * 0xffff && len * s.q <= 0xffff_ffff_ffff_ffff
            * 0xffff) by (nonlinear_arith)
            requires
                len <= 0xffff_ffff_ffff_ffff,
                s.i <= 0xffff,
                s.q <= 0xffff,
        ;
        let re: i128 = (len as i128) * (s.i as i128) - (sum_re as i128);
        let im: i128 = (len as i128) * (s.q as i128) - (sum_im as i128);
        residuals.push(Residual { key: s.key, re, im });
        k = k + 1;
    }
    DcFreeBlock { index: block.index, sum_i: sum_re, sum_q: sum_im, residuals }
}

proof fn lemma_partial_totals(s: Seq<Sample>, r: Seq<Residual>, m: int)
    requires
        is_dc_free(s, r),
        0 <= m <= s.len(),
    ensures
        total_re(r.take(m)) == s.len() * sum_i(s.take(m)) - m * sum_i(s),
        total_im(r.take(m)) == s.len() * sum_q(s.take(m)) - m * sum_q(s),
    decreases m,
{
    if m > 0 {
        lemma_partial_totals(s, r, m - 1);
        assert(r.take(m).drop_last() =~= r.take(m - 1));
        assert(s.take(m).drop_last() =~= s.take(m - 1));
        let len = s.len() as int;
        let x = s[m - 1];
        assert(r.take(m).last() == r[m - 1]);
        assert(s.take(m).last() == x);
        let pi = sum_i(s.take(m - 1));
        let pq = sum_q(s.take(m - 1));
        let ti = sum_i(s);
        let tq = sum_q(s);
        assert(len * (pi + x.i) - m * ti == (len * pi - (m - 1) * ti) + (len * x.i - ti))
            by (nonlinear_arith);
        assert(len * (pq + x.q) - m * tq == (len * pq - (m - 1) * tq) + (len * x.q - tq))
            by (nonlinear_arith);
    }
}

/// The residuals of a block add up to zero in both parts: the block that is
/// left when the mean is taken off has the mean zero, exactly.
pub proof fn residuals_sum_to_zero(s: Seq<Sample>, r: Seq<Residual>)
    requires
        is_dc_free(s, r),
    ensures
        total_re(r) == 0,
        total_im(r) == 0,
{
    lemma_partial_totals(s, r, s.len() as int);
    assert(r.take(s.len() as int) =~= r);
    assert(s.take(s.len() as int) =~= s);
}

proof fn lemma_constant_sums(s: Seq<Sample>, ci: int, cq: int)
    requires
        forall|k: int| 0 <= k < s.len() ==> (#[trigger] s[k]).i == ci && s[k].q == cq,
    ensures
        sum_i(s) == s.len() * ci,
        sum_q(s) == s.len() * cq,
    decreases s.len(),
{
    if s.len() > 0 {
        lemma_constant_sums(s.drop_last(), ci, cq);
        let m = s.len() as int;
        assert((m - 1) * ci + ci == m * ci) by (nonlinear_arith);
        assert((m - 1) * cq + cq == m * cq) by (nonlinear_arith);
    }
}

/// Where all samples of a block are the same, every residual is zero in both
/// parts.
pub proof fn constant_block_has_zero_residuals(s: Seq<Sample>, r: Seq<Residual>)
    requires
        is_dc_free(s, r),
        forall|k: int| 0 <= k < s.len() ==> (#[trigger] s[k]).i == s[0].i && s[k].q == s[0].q,
    ensures
        forall|k: int| 0 <= k < r.len() ==> (#[trigger] r[k]).re == 0 && r[k].im == 0,
{
    if s.len() > 0 {
        lemma_constant_sums(s, s[0].i as int, s[0].q as int);
    }
}

} // verus!
