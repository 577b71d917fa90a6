use lod_prepare::dc::{block_sums, remove_dc, DcFreeBlock, Residual};
use lod_prepare::sample::Sample;
use lod_prepare::segment::Block;

#[test]
fn sums_add_both_parts() {
    let samples = vec![
        Sample { key: 1, i: 1, q: 2 },
        Sample { key: 2, i: 3, q: 6 },
        Sample { key: 3, i: 65535, q: 0 },
    ];
    assert_eq!(block_sums(&samples), (65539, 8));
    assert_eq!(block_sums(&Vec::new()), (0, 0));
}

#[test]
fn residuals_are_scaled_differences_from_the_mean() {
    let block = Block {
        index: 7,
        samples: vec![Sample { key: 10, i: 1, q: 2 }, Sample { key: 11, i: 3, q: 6 }],
    };
    assert_eq!(
        remove_dc(&block),
        DcFreeBlock {
            index: 7,
            sum_i: 4,
            sum_q: 8,
            residuals: vec![
                Residual { key: 10, re: -2, im: -4 },
                Residual { key: 11, re: 2, im: 4 },
            ],
        }
    );
}

#[test]
fn residuals_of_three_uneven_samples() {
    let block = Block {
        index: 0,
        samples: vec![
            Sample { key: 1, i: 0, q: 10 },
            Sample { key: 1, i: 1, q: 10 },
            Sample { key: 1, i: 5, q: 13 },
        ],
    };
    let out = remove_dc(&block);
    assert_eq!(out.sum_i, 6);
    assert_eq!(out.sum_q, 33);
    let re: Vec<i128> = out.residuals.iter().map(|r| r.re).collect();
    let im: Vec<i128> = out.residuals.iter().map(|r| r.im).collect();
    assert_eq!(re, vec![-6, -3, 9]);
    assert_eq!(im, vec![-3, -3, 6]);
}

#[test]
fn residuals_add_up_to_zero() {
    let samples: Vec<Sample> = (0u32..64)
        .map(|p| Sample { key: p, i: ((p * p * 37 + 11) % 4096) as u16, q: ((p * 991) % 4096) as u16 })
        .collect();
    let out = remove_dc(&Block { index: 0, samples });
    assert_eq!(out.residuals.iter().map(|r| r.re).sum::<i128>(), 0);
    assert_eq!(out.residuals.iter().map(|r| r.im).sum::<i128>(), 0);
    assert!(out.residuals.iter().any(|r| r.re != 0));
}

#[test]
fn a_constant_block_leaves_only_zeros() {
    let samples: Vec<Sample> = (0u32..64).map(|p| Sample { key: p, i: 2048, q: 2048 }).collect();
    let out = remove_dc(&Block { index: 3, samples });
    assert_eq!(out.index, 3);
    assert_eq!(out.sum_i, 64 * 2048);
    assert_eq!(out.sum_q, 64 * 2048);
    assert_eq!(out.residuals.len(), 64);
    for (p, r) in out.residuals.iter().enumerate() {
        assert_eq!(*r, Residual { key: p as u32, re: 0, im: 0 });
    }
}

#[test]
fn extreme_samples_do_not_overflow() {
    let mut samples: Vec<Sample> = vec![Sample { key: 0, i: 65535, q: 0 }; 1000];
    samples.push(Sample { key: 1, i: 0, q: 65535 });
    let out = remove_dc(&Block { index: 0, samples });
    assert_eq!(out.sum_i, 65_535_000);
    assert_eq!(out.sum_q, 65_535);
    assert_eq!(out.residuals[0], Residual { key: 0, re: 65_535, im: -65_535 });
    assert_eq!(out.residuals[1000], Residual { key: 1, re: -65_535_000, im: 65_535_000 });
}

#[test]
fn an_empty_block_has_no_residuals() {
    let out = remove_dc(&Block { index: 0, samples: Vec::new() });
    assert_eq!(out, DcFreeBlock { index: 0, sum_i: 0, sum_q: 0, residuals: Vec::new() });
}
