use bestbind::aggregate::{rank_descending, trimmed_mean};

#[test]
fn five_passes_trim_min_and_max() {
    // Five samples: the single minimum and maximum are discarded.
    assert_eq!(trimmed_mean(&vec![10, 20, 30, 40, 50]), 30);
}

#[test]
fn two_passes_plain_mean() {
    // Fewer than three samples: the untrimmed mean.
    assert_eq!(trimmed_mean(&vec![10, 20]), 15);
}

#[test]
fn single_sample_is_its_own_score() {
    assert_eq!(trimmed_mean(&vec![42]), 42);
}

#[test]
fn three_passes_keep_middle_sample() {
    assert_eq!(trimmed_mean(&vec![1, 100, 7]), 7);
}

#[test]
fn equal_samples_score_unchanged() {
    assert_eq!(trimmed_mean(&vec![5, 5, 5, 5]), 5);
}

#[test]
fn trim_discards_one_extreme_instance_each() {
    // Two equal minima: only one is discarded.
    assert_eq!(trimmed_mean(&vec![10, 10, 40, 70]), (10 + 40) / 2);
}

#[test]
fn large_samples_do_not_overflow() {
    let m = u64::MAX;
    assert_eq!(trimmed_mean(&vec![m, m, m]), m);
    assert_eq!(trimmed_mean(&vec![m, m]), m);
}

#[test]
fn ranking_orders_by_descending_score() {
    let ranked = rank_descending(vec![(0, 30), (1, 45)]);
    assert_eq!(ranked, vec![(1, 45), (0, 30)]);
}

#[test]
fn ranking_keeps_every_entry() {
    let mut ranked = rank_descending(vec![(0, 5), (1, 9), (2, 9), (3, 1)]);
    assert_eq!(ranked[0].1, 9);
    assert_eq!(ranked[1].1, 9);
    assert_eq!(ranked[2], (0, 5));
    assert_eq!(ranked[3], (3, 1));
    ranked.sort();
    assert_eq!(ranked, vec![(0, 5), (1, 9), (2, 9), (3, 1)]);
}

#[test]
fn ranking_of_empty_and_single() {
    assert_eq!(rank_descending(vec![]), vec![]);
    assert_eq!(rank_descending(vec![(0, 7)]), vec![(0, 7)]);
}
