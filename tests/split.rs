use logreg::split::{random_draws, random_shuffle, shuffle_rows, split, split_with_draws, SplitError, TrainRatio};

fn sorted(mut v: Vec<u32>) -> Vec<u32> {
    v.sort();
    v
}

#[test]
fn shuffle_with_given_draws() {
    let mut rows = vec![10u32, 20, 30, 40, 50];
    shuffle_rows(&mut rows, &vec![0, 0, 1, 2, 0]);
    assert_eq!(rows, vec![50, 30, 40, 10, 20]);
}

#[test]
fn shuffle_with_identity_draws_keeps_order() {
    let mut rows = vec![1u32, 2, 3, 4];
    shuffle_rows(&mut rows, &vec![0, 1, 2, 3]);
    assert_eq!(rows, vec![1, 2, 3, 4]);
}

#[test]
fn split_with_given_draws_cuts_shuffled_rows() {
    let rows = vec![10u32, 20, 30, 40, 50];
    let (train, test) = split_with_draws(rows, TrainRatio::new(3, 5), &vec![0, 0, 1, 2, 0]).unwrap();
    assert_eq!(train, vec![50, 30, 40]);
    assert_eq!(test, vec![10, 20]);
}

#[test]
fn split_sizes_follow_floor_of_ratio() {
    let cases: Vec<(usize, u64, u64, usize)> =
        vec![(10, 1, 3, 3), (7, 2, 3, 4), (100, 7, 10, 70), (3, 1, 2, 1), (9, 99, 100, 8)];
    for (n, part, whole, expected) in cases {
        let rows: Vec<usize> = (0..n).collect();
        let (train, test) = split(rows, TrainRatio::new(part, whole)).unwrap();
        assert_eq!(train.len(), expected);
        assert_eq!(test.len(), n - expected);
    }
}

#[test]
fn split_is_a_permutation_of_the_rows() {
    let rows: Vec<u32> = (0..50).map(|i| i % 7).collect();
    let (train, test) = split(rows.clone(), TrainRatio::new(7, 10)).unwrap();
    let mut joined = train.clone();
    joined.extend(test.iter().cloned());
    assert_eq!(sorted(joined), sorted(rows));
}

#[test]
fn split_keeps_rows_whole() {
    let rows: Vec<Vec<f64>> = (0..20).map(|i| vec![i as f64, -(i as f64), (i % 2) as f64]).collect();
    let (train, test) = split(rows, TrainRatio::new(1, 2)).unwrap();
    assert_eq!(train.len(), 10);
    assert_eq!(test.len(), 10);
    for row in train.iter().chain(test.iter()) {
        assert_eq!(row[1], -row[0]);
        assert_eq!(row[2], ((row[0] as i64) % 2) as f64);
    }
}

#[test]
fn split_of_empty_table_fails() {
    let rows: Vec<u32> = Vec::new();
    assert_eq!(split(rows, TrainRatio::new(7, 10)), Err(SplitError::EmptyDataset));
}

#[test]
fn split_leaving_no_training_row_fails() {
    assert_eq!(split(vec![1u32], TrainRatio::new(1, 2)), Err(SplitError::EmptyTrainSet));
    assert_eq!(split(vec![1u32, 2, 3], TrainRatio::new(1, 4)), Err(SplitError::EmptyTrainSet));
}

#[test]
fn train_ratio_bounds() {
    assert!(TrainRatio::new(7, 10).is_in_unit_interval());
    assert!(!TrainRatio::new(0, 10).is_in_unit_interval());
    assert!(!TrainRatio::new(10, 10).is_in_unit_interval());
    assert!(!TrainRatio::new(1, 0).is_in_unit_interval());
}

#[test]
fn random_draws_stay_in_range() {
    let draws = random_draws(200);
    assert_eq!(draws.len(), 200);
    for (k, d) in draws.iter().enumerate() {
        assert!(*d <= k);
    }
    assert_eq!(draws[0], 0);
}

#[test]
fn random_shuffle_moves_rows() {
    let original: Vec<u32> = (0..100).collect();
    let mut moved = false;
    for _ in 0..3 {
        let mut rows = original.clone();
        random_shuffle(&mut rows);
        assert_eq!(sorted(rows.clone()), original);
        if rows != original {
            moved = true;
        }
    }
    assert!(moved);
}
