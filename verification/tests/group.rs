use lod_prepare::group::split_by_key;
use lod_prepare::sample::Sample;

fn keyed(keys: &[u32]) -> Vec<Sample> {
    keys.iter().enumerate().map(|(p, k)| Sample { key: *k, i: p as u16, q: 7 }).collect()
}

#[test]
fn no_samples_split_into_no_groups() {
    assert_eq!(split_by_key(&Vec::new()), Vec::<Vec<Sample>>::new());
}

#[test]
fn one_key_is_one_group() {
    let samples = keyed(&[4, 4, 4]);
    assert_eq!(split_by_key(&samples), vec![samples.clone()]);
    let single = keyed(&[9]);
    assert_eq!(split_by_key(&single), vec![single.clone()]);
}

#[test]
fn the_cut_is_where_the_key_changes() {
    let samples = keyed(&[1, 1, 2, 3, 3, 3]);
    let groups = split_by_key(&samples);
    assert_eq!(
        groups,
        vec![samples[0..2].to_vec(), samples[2..3].to_vec(), samples[3..6].to_vec()]
    );
}

#[test]
fn a_key_that_comes_back_starts_a_new_group() {
    let samples = keyed(&[1, 1, 2, 1]);
    let groups = split_by_key(&samples);
    assert_eq!(
        groups,
        vec![samples[0..2].to_vec(), samples[2..3].to_vec(), samples[3..4].to_vec()]
    );
}

#[test]
fn groups_joined_are_the_samples() {
    let samples = keyed(&[5, 5, 5, 6, 7, 7, 8, 8, 8, 8, 5]);
    let groups = split_by_key(&samples);
    assert_eq!(groups.len(), 5);
    assert_eq!(groups.concat(), samples);
    for g in &groups {
        assert!(!g.is_empty());
        assert!(g.iter().all(|s| s.key == g[0].key));
    }
    for pair in groups.windows(2) {
        assert_ne!(pair[0][0].key, pair[1][0].key);
    }
}
