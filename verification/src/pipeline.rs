//! From the samples of a sensor to what the transform is fed with, and to the
//! keys of the rows that come out.
//!
//! A sensor whose sample count the block length does not divide yields
//! nothing: no blocks and no rows. That concerns this sensor alone; the others
//! of a run are worked on as if it were not there.

use crate::config::Config;
use crate::dc::{is_dc_free, remove_dc, sum_i, sum_q, DcFreeBlock};
use crate::freq::{centered_bin, centered_index};
use crate::sample::Sample;
use crate::segment::{chunk, is_segmentation, segment, LengthMismatch};
use vstd::arithmetic::div_mod::{lemma_fundamental_div_mod, lemma_fundamental_div_mod_converse};
use vstd::prelude::*;

verus! {

/// What says which row a transformed value belongs to.
#[derive(Clone, Copy, Debug, PartialEq, Eq, Structural)]
pub struct RowKey {
    /// The key of the sample that stood at this place in the input.
    pub key: u32,
    /// The block, counted from zero.
    pub block: usize,
    /// The bin within the block, counted from zero.
    pub bin: usize,
    /// The bin folded to its signed index; divided by the time one block
    /// takes it is the frequency of the row.
    pub centered: i64,
}

/// `blocks` holds `s` cut into runs of `n` samples, each with its own mean
/// taken off.
pub open spec fn is_prepared(s: Seq<Sample>, n: int, blocks: Seq<DcFreeBlock>) -> bool {
    &&& blocks.len() * n == s.len()
    &&& forall|b: int|
        0 <= b < blocks.len() ==> {
            &&& (#[trigger] blocks[b]).index == b
            &&& blocks[b].sum_i == sum_i(chunk(s, n, b))
            &&& blocks[b].sum_q == sum_q(chunk(s, n, b))
            &&& is_dc_free(chunk(s, n, b), blocks[b].residuals@)
        }
}

/// What a sensor with the samples `s` has to yield at block length `n`.
pub open spec fn is_outcome(
    s: Seq<Sample>,
    n: int,
    out: Result<Vec<DcFreeBlock>, LengthMismatch>,
) -> bool {
    if (s.len() as int) % n == 0 {
        out is Ok && is_prepared(s, n, out->Ok_0@)
    } else {
        out is Err && out->Err_0.len == s.len() && out->Err_0.block_len == n
    }
}

/// The key of the row at place `p` of a sensor with the samples `s`.
pub open spec fn row_key_at(s: Seq<Sample>, n: int, p: int) -> RowKey
    recommends
        n > 0,
        0 <= p < s.len(),
{
    RowKey {
        key: s[p].key,
        block: (p / n) as usize,
        bin: (p % n) as usize,
        centered: centered_index(p % n, n) as i64,
    }
}

/// The keys of the rows of a sensor with the samples `s`: one for each sample
/// where `n` divides their number, none where it does not.
pub open spec fn row_keys_of(s: Seq<Sample>, n: int) -> Seq<RowKey> {
    if (s.len() as int) % n == 0 {
        Seq::new(s.len(), |p: int| row_key_at(s, n, p))
    } else {
        Seq::empty()
    }
}

/// Cuts the samples of one sensor into blocks and takes the mean off each.
pub fn prepare_sensor(cfg: &Config, samples: &Vec<Sample>) -> (out: Result<
    Vec<DcFreeBlock>,
    LengthMismatch,
>)
    ensures
        is_outcome(samples@, cfg.spec_block_len() as int, out),
{
    let n: usize = cfg.block_len();
    match segment(cfg, samples) {
        Err(e) => Err(e),
        Ok(blocks) => {
            let mut done: Vec<DcFreeBlock> = Vec::new();
            let mut b: usize = 0;
            while b < blocks.len()
                invariant
                    b <= blocks.len(),
                    is_segmentation(samples@, n as int, blocks@),
                    done@.len() == b,
                    forall|c: int|
                        0 <= c < b ==> {
                            &&& (#[trigger] done@[c]).index == c
                            &&& done@[c].sum_i == sum_i(chunk(samples@, n as int, c))
                            &&& done@[c].sum_q == sum_q(chunk(samples@, n as int, c))
                            &&& is_dc_free(chunk(samples@, n as int, c), done@[c].residuals@)
                        },
                decreases blocks.len() - b,
            {
                let free = remove_dc(&blocks[b]);
                done.push(free);
                b = b + 1;
            }
            Ok(done)
        },
    }
}

/// Prepares each sensor of a run by itself.
///
/// What comes out for a sensor depends on its own samples alone: one that is
/// refused leaves the others as they are.
pub fn prepare_all(cfg: &Config, sensors: &Vec<Vec<Sample>>) -> (out: Vec<
    Result<Vec<DcFreeBlock>, LengthMismatch>,
>)
    ensures
        out@.len() == sensors@.len(),
        forall|i: int|
            0 <= i < sensors@.len() ==> is_outcome(
                (#[trigger] sensors@[i])@,
                cfg.spec_block_len() as int,
                out@[i],
            ),
{
    let mut out: Vec<Result<Vec<DcFreeBlock>, LengthMismatch>> = Vec::new();
    let mut i: usize = 0;
    while i < sensors.len()
        invariant
            i <= sensors.len(),
            out@.len() == i,
            forall|j: int|
                0 <= j < i ==> is_outcome(
                    (#[trigger] sensors@[j])@,
                    cfg.spec_block_len() as int,
                    out@[j],
                ),
        decreases sensors.len() - i,
    {
        let one = prepare_sensor(cfg, &sensors[i]);
        out.push(one);
        i = i + 1;
    }
    out
}

/// The keys of the rows of one sensor, in the order of its samples.
///
/// The value that the transform puts at a place belongs to the row whose key
/// stands at that place.
pub fn row_keys(cfg: &Config, samples: &Vec<Sample>) -> (rows: Vec<RowKey>)
    ensures
        rows@ == row_keys_of(samples@, cfg.spec_block_len() as int),
{
    let n: usize = cfg.block_len();
    let len: usize = samples.len();
    let mut rows: Vec<RowKey> = Vec::new();
    if len % n != 0 {
        return rows;
    }
    let mut block: usize = 0;
    let mut bin: usize = 0;
    let mut p: usize = 0;
    while p < len
        invariant
            n > 0,
            len == samples.len(),
            p <= len,
            bin < n,
            p == block * n + bin,
            rows@.len() == p,
            forall|t: int| 0 <= t < p ==> rows@[t] == row_key_at(samples@, n as int, t),
        decreases len - p,
    {
        proof {
            assert(block == (p as int) / (n as int) && bin == (p as int) % (n as int)) by {
                lemma_fundamental_div_mod_converse(p as int, n as int, block as int, bin as int);
            }
        }
        let centered: i64 = centered_bin(bin, n);
        rows.push(RowKey { key: samples[p].key, block, bin, centered });
        p = p + 1;
        if bin + 1 == n {
            assert((block + 1) * n + 0 == block * n + bin + 1) by (nonlinear_arith)
                requires
                    bin + 1 == n,
            ;
            assert(block < p) by (nonlinear_arith)
                requires
                    p == block * n + bin + 1,
                    n > 0,
            ;
            block = block + 1;
            bin = 0;
        } else {
            bin = bin + 1;
        }
    }
    assert(rows@ =~= row_keys_of(samples@, n as int));
    rows
}

/// A sensor whose sample count the block length does not divide has no rows.
pub proof fn refused_sensor_has_no_rows(s: Seq<Sample>, n: int)
    requires
        n > 0,
        (s.len() as int) % n != 0,
    ensures
        row_keys_of(s, n).len() == 0,
{
}

/// A sensor whose sample count the block length divides has one row for each
/// bin of each of its blocks: `s.len() / n` blocks with `n` rows each, and the
/// row of bin `k` of block `b` carries the key of sample `k` of that block.
pub proof fn accepted_sensor_has_a_row_per_bin(s: Seq<Sample>, n: int, b: int, k: int)
    requires
        n > 0,
        (s.len() as int) % n == 0,
        0 <= b < s.len() / (n as nat),
        0 <= k < n,
    ensures
        row_keys_of(s, n).len() == (s.len() as int / n) * n,
        0 <= b * n + k < s.len(),
        row_keys_of(s, n)[b * n + k] == (RowKey {
            key: chunk(s, n, b)[k].key,
            block: b as usize,
            bin: k as usize,
            centered: centered_index(k, n) as i64,
        }),
{
    let len = s.len() as int;
    lemma_fundamental_div_mod(len, n);
    let count = len / n;
    assert(count * n == len) by (nonlinear_arith)
        requires
            len == n * count + 0,
    ;
    assert(0 <= b * n && b * n + n <= len) by (nonlinear_arith)
        requires
            0 <= b < count,
            0 < n,
            count * n == len,
    ;
    assert(chunk(s, n, b)[k] == s[b * n + k]);
    lemma_fundamental_div_mod_converse(b * n + k, n, b, k);
}

/// What a sensor yields is fixed by its samples and the block length: two
/// outcomes of the same input agree in everything.
pub proof fn same_input_same_outcome(
    s: Seq<Sample>,
    n: int,
    x: Result<Vec<DcFreeBlock>, LengthMismatch>,
    y: Result<Vec<DcFreeBlock>, LengthMismatch>,
)
    requires
        n > 0,
        is_outcome(s, n, x),
        is_outcome(s, n, y),
    ensures
        x is Ok <==> y is Ok,
        x is Err ==> x->Err_0 == y->Err_0,
        x is Ok ==> x->Ok_0@.len() == y->Ok_0@.len(),
        x is Ok ==> forall|b: int|
            0 <= b < x->Ok_0@.len() ==> {
                &&& (#[trigger] x->Ok_0@[b]).index == y->Ok_0@[b].index
                &&& x->Ok_0@[b].sum_i == y->Ok_0@[b].sum_i
                &&& x->Ok_0@[b].sum_q == y->Ok_0@[b].sum_q
                &&& x->Ok_0@[b].residuals@ == y->Ok_0@[b].residuals@
            },
{
    if x is Ok {
        let xs = x->Ok_0@;
        let ys = y->Ok_0@;
        assert(xs.len() == ys.len()) by (nonlinear_arith)
            requires
                xs.len() * n == ys.len() * n,
                n > 0,
        ;
        assert forall|b: int| 0 <= b < xs.len() implies (#[trigger] xs[b]).residuals@
            == ys[b].residuals@ && xs[b].index == ys[b].index && xs[b].sum_i == ys[b].sum_i
            && xs[b].sum_q == ys[b].sum_q by {
            assert(ys[b].index == b);
            assert(xs[b].residuals@ =~= ys[b].residuals@);
        }
    }
}

} // verus!
