use lod_prepare::config::{Config, WindowKind};
use lod_prepare::dc::remove_dc;
use lod_prepare::group::split_by_key;
use lod_prepare::pipeline::{prepare_all, prepare_sensor, row_keys, RowKey};
use lod_prepare::sample::Sample;
use lod_prepare::segment::{segment, LengthMismatch};

fn sensor(len: usize, seed: u32) -> Vec<Sample> {
    (0..len as u32)
        .map(|p| Sample {
            key: seed * 1000 + p,
            i: ((p * 37 + seed) % 4096) as u16,
            q: ((p * p + 3 * seed) % 4096) as u16,
        })
        .collect()
}

#[test]
fn prepared_blocks_are_the_segments_without_their_means() {
    let cfg = Config::new(8, WindowKind::Rectangular).unwrap();
    let samples = sensor(24, 1);
    let prepared = prepare_sensor(&cfg, &samples).unwrap();
    let blocks = segment(&cfg, &samples).unwrap();
    assert_eq!(prepared.len(), 3);
    for (b, block) in blocks.iter().enumerate() {
        assert_eq!(prepared[b], remove_dc(block));
        assert_eq!(prepared[b].index, b);
        assert_eq!(prepared[b].residuals.len(), 8);
    }
}

#[test]
fn means_do_not_carry_over_between_blocks() {
    let cfg = Config::new(2, WindowKind::Rectangular).unwrap();
    let samples = vec![
        Sample { key: 1, i: 10, q: 0 },
        Sample { key: 2, i: 20, q: 0 },
        Sample { key: 3, i: 1000, q: 7 },
        Sample { key: 4, i: 1000, q: 9 },
    ];
    let prepared = prepare_sensor(&cfg, &samples).unwrap();
    assert_eq!(prepared[0].sum_i, 30);
    assert_eq!(prepared[1].sum_i, 2000);
    assert_eq!(prepared[1].sum_q, 16);
    let re: Vec<i128> = prepared.iter().flat_map(|b| b.residuals.iter().map(|r| r.re)).collect();
    let im: Vec<i128> = prepared.iter().flat_map(|b| b.residuals.iter().map(|r| r.im)).collect();
    assert_eq!(re, vec![-10, 10, 0, 0]);
    assert_eq!(im, vec![0, 0, -2, 2]);
}

#[test]
fn a_sensor_with_a_remainder_is_refused() {
    let cfg = Config::new(64, WindowKind::Rectangular).unwrap();
    assert_eq!(
        prepare_sensor(&cfg, &sensor(61, 1)),
        Err(LengthMismatch { len: 61, block_len: 64 })
    );
}

#[test]
fn a_sensor_without_samples_is_prepared_to_nothing() {
    let cfg = Config::new(64, WindowKind::Rectangular).unwrap();
    assert_eq!(prepare_sensor(&cfg, &Vec::new()), Ok(Vec::new()));
    assert_eq!(row_keys(&cfg, &Vec::new()), Vec::new());
}

#[test]
fn a_refused_sensor_does_not_stop_the_others() {
    let cfg = Config::new(64, WindowKind::Rectangular).unwrap();
    let sensors = vec![sensor(61, 1), sensor(128, 2)];
    let out = prepare_all(&cfg, &sensors);
    assert_eq!(out.len(), 2);
    assert_eq!(out[0], Err(LengthMismatch { len: 61, block_len: 64 }));
    assert_eq!(out[1], prepare_sensor(&cfg, &sensors[1]));
    assert_eq!(out[1].as_ref().unwrap().len(), 2);
    let rows: Vec<usize> = sensors.iter().map(|s| row_keys(&cfg, s).len()).collect();
    assert_eq!(rows, vec![0, 128]);
}

#[test]
fn a_run_without_sensors_yields_nothing() {
    let cfg = Config::new(64, WindowKind::Rectangular).unwrap();
    assert_eq!(prepare_all(&cfg, &Vec::new()), Vec::new());
}

#[test]
fn row_keys_count_blocks_and_bins() {
    let cfg = Config::new(4, WindowKind::Rectangular).unwrap();
    let samples = sensor(8, 5);
    let rows = row_keys(&cfg, &samples);
    let expected: Vec<RowKey> = vec![
        RowKey { key: 5000, block: 0, bin: 0, centered: 0 },
        RowKey { key: 5001, block: 0, bin: 1, centered: 1 },
        RowKey { key: 5002, block: 0, bin: 2, centered: -2 },
        RowKey { key: 5003, block: 0, bin: 3, centered: -1 },
        RowKey { key: 5004, block: 1, bin: 0, centered: 0 },
        RowKey { key: 5005, block: 1, bin: 1, centered: 1 },
        RowKey { key: 5006, block: 1, bin: 2, centered: -2 },
        RowKey { key: 5007, block: 1, bin: 3, centered: -1 },
    ];
    assert_eq!(rows, expected);
}

#[test]
fn row_keys_of_a_block_of_one() {
    let cfg = Config::new(1, WindowKind::Rectangular).unwrap();
    let rows = row_keys(&cfg, &sensor(3, 0));
    let expected: Vec<RowKey> = vec![
        RowKey { key: 0, block: 0, bin: 0, centered: 0 },
        RowKey { key: 1, block: 1, bin: 0, centered: 0 },
        RowKey { key: 2, block: 2, bin: 0, centered: 0 },
    ];
    assert_eq!(rows, expected);
}

#[test]
fn running_twice_gives_the_same() {
    let cfg = Config::new(64, WindowKind::Hamming).unwrap();
    let sensors = vec![sensor(61, 1), sensor(128, 2), sensor(0, 3), sensor(64, 4)];
    assert_eq!(prepare_all(&cfg, &sensors), prepare_all(&cfg, &sensors));
    for s in &sensors {
        assert_eq!(row_keys(&cfg, s), row_keys(&cfg, s));
    }
}

#[test]
fn a_measuring_point_with_a_remainder_is_skipped_alone() {
    let cfg = Config::new(64, WindowKind::Rectangular).unwrap();
    let mut samples: Vec<Sample> = (0..61).map(|p| Sample { key: 1, i: p, q: 2 * p }).collect();
    samples.extend((0..128).map(|p| Sample { key: 2, i: 3 * p, q: p }));
    let points = split_by_key(&samples);
    assert_eq!(points.len(), 2);
    let out = prepare_all(&cfg, &points);
    assert_eq!(out[0], Err(LengthMismatch { len: 61, block_len: 64 }));
    assert_eq!(out[1].as_ref().unwrap().len(), 2);
    let rows: Vec<RowKey> = points.iter().flat_map(|p| row_keys(&cfg, p)).collect();
    assert_eq!(rows.len(), 2 * 64);
    assert!(rows.iter().all(|r| r.key == 2));
    assert_eq!(rows[127], RowKey { key: 2, block: 1, bin: 63, centered: -1 });
}
