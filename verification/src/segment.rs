//! Cutting a sensor's samples into blocks of equal length.

use crate::config::Config;
use crate::sample::Sample;
use vstd::arithmetic::div_mod::lemma_fundamental_div_mod;
use vstd::prelude::*;

verus! {

/// A run of consecutive samples of one sensor, as long as the configured block
/// length.
#[derive(Clone, Debug, PartialEq, Eq)]
pub struct Block {
    /// Position of the block among the blocks of its sensor, from zero.
    pub index: usize,
    /// The samples, in the order in which they were read.
    pub samples: Vec<Sample>,
}

/// The sample count of a sensor is no multiple of the block length.
#[derive(Clone, Copy, Debug, PartialEq, Eq, Structural)]
pub struct LengthMismatch {
    /// How many samples the sensor has.
    pub len: usize,
    /// The block length they were to be cut by.
    pub block_len: usize,
}

/// The `b`-th run of `n` samples of `s`.
pub open spec fn chunk(s: Seq<Sample>, n: int, b: int) -> Seq<Sample>
    recommends
        n > 0,
        0 <= b,
        (b + 1) * n <= s.len(),
{
    s.subrange(b * n, b * n + n)
}

/// `blocks` is `s` cut into consecutive runs of `n` samples, none left over.
pub open spec fn is_segmentation(s: Seq<Sample>, n: int, blocks: Seq<Block>) -> bool {
    &&& blocks.len() * n == s.len()
    &&& forall|b: int|
        0 <= b < blocks.len() ==> (#[trigger] blocks[b]).index == b && blocks[b].samples@ == chunk(
            s,
            n,
            b,
        )
}

/// Cuts the samples of one sensor into blocks.
///
/// The blocks follow each other without gap or overlap and keep the order of
/// the samples. A count that the block length does not divide is refused; no
/// samples give no blocks.
pub fn segment(cfg: &Config, samples: &Vec<Sample>) -> (r: Result<Vec<Block>, LengthMismatch>)
    ensures
        samples.len() % cfg.spec_block_len() != 0 ==> r == Err::<Vec<Block>, LengthMismatch>(
            LengthMismatch { len: samples.len(), block_len: cfg.spec_block_len() },
        ),
        samples.len() % cfg.spec_block_len() == 0 ==> r is Ok && r->Ok_0@.len() == samples.len()
            / cfg.spec_block_len() && is_segmentation(
            samples@,
            cfg.spec_block_len() as int,
            r->Ok_0@,
        ),
{
    let n: usize = cfg.block_len();
    let len: usize = samples.len();
    if len % n != 0 {
        return Err(LengthMismatch { len, block_len: n });
    }
    let count: usize = len / n;
    proof {
        lemma_fundamental_div_mod(len as int, n as int);
    }
    let mut blocks: Vec<Block> = Vec::new();
    let mut b: usize = 0;
    let mut start: usize = 0;
    while b < count
        invariant
            n > 0,
            len == samples.len(),
            n * count == len,
            b <= count,
            start == b * n,
            blocks@.len() == b,
            forall|c: int|
                0 <= c < b ==> (#[trigger] blocks@[c]).index == c && blocks@[c].samples@ == chunk(
                    samples@,
                    n as int,
                    c,
                ),
        decreases count - b,
    {
        assert(start + n <= len) by (nonlinear_arith)
            requires
                start == b * n,
                b < count,
                n * count == len,
                n > 0,
        ;
        let mut items: Vec<Sample> = Vec::new();
        let mut j: usize = 0;
        while j < n
            invariant
                j <= n,
                start + n <= len,
                len == samples.len(),
                items@.len() == j,
                forall|t: int| 0 <= t < j ==> items@[t] == samples@[start + t],
            decreases n - j,
        {
            items.push(samples[start + j]);
            j = j + 1;
        }
        assert(items@ =~= chunk(samples@, n as int, b as int));
        blocks.push(Block { index: b, samples: items });
        assert((b + 1) * n == start + n) by (nonlinear_arith)
            requires
                start == b * n,
        ;
        start = start + n;
        b = b + 1;
    }
    assert(blocks@.len() * n == len) by (nonlinear_arith)
        requires
            blocks@.len() == count,
            n * count == len,
    ;
    Ok(blocks)
}

} // verus!
