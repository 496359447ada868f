use hashsearch::partition::partition;

#[test]
fn first_worker_starts_at_one() {
    assert_eq!(partition(0, 4, 100, 0), Some((1, 101)));
}

#[test]
fn worker_starts_after_the_batches_before_it() {
    assert_eq!(partition(1, 4, 100, 0), Some((101, 201)));
    assert_eq!(partition(3, 4, 100, 0), Some((301, 401)));
}

#[test]
fn next_round_is_one_stride_further() {
    assert_eq!(partition(0, 4, 100, 1), Some((401, 501)));
    assert_eq!(partition(2, 4, 100, 3), Some((1401, 1501)));
}

#[test]
fn single_worker_takes_everything_in_order() {
    for r in 0..10u64 {
        assert_eq!(partition(0, 1, 7, r), Some((7 * r + 1, 7 * r + 8)));
    }
}

#[test]
fn empty_batches_are_empty() {
    assert_eq!(partition(0, 3, 0, 0), Some((1, 1)));
    assert_eq!(partition(2, 3, 0, u64::MAX), Some((1, 1)));
}

#[test]
fn batch_past_the_largest_candidate_is_none() {
    assert_eq!(partition(0, 1, 100, u64::MAX / 100), None);
    assert_eq!(partition(0, 1, 100, u64::MAX), None);
    assert_eq!(partition(0, 2, 1, u64::MAX), None);
    assert_eq!(partition(0, 1, 1, u64::MAX - 1), None);
    assert_eq!(partition(0, 1, 1, u64::MAX - 2), Some((u64::MAX - 1, u64::MAX)));
}

#[test]
fn last_batch_that_fits() {
    let rounds: u64 = (u64::MAX - 1) / 100;
    assert_eq!(partition(0, 1, 100, rounds - 1), Some((100 * (rounds - 1) + 1, 100 * rounds + 1)));
}

#[test]
fn first_rounds_cover_every_candidate_once() {
    for workers in 1..=5usize {
        for batch in 0..=4usize {
            for rounds in 1..=4u64 {
                let total: usize = batch * workers * rounds as usize;
                let mut seen: Vec<u32> = vec![0; total + 2];
                for i in 0..workers {
                    for r in 0..rounds {
                        let (first, end) = partition(i, workers, batch, r).unwrap();
                        assert_eq!(end - first, batch as u64);
                        for n in first..end {
                            assert!(n >= 1 && n as usize <= total);
                            seen[n as usize] += 1;
                        }
                    }
                }
                for n in 1..=total {
                    assert_eq!(seen[n], 1);
                }
                assert_eq!(seen[0], 0);
                assert_eq!(seen[total + 1], 0);
            }
        }
    }
}

#[test]
fn batches_of_one_worker_ascend() {
    for workers in 1..=4usize {
        for i in 0..workers {
            let mut last_end: u64 = 0;
            for r in 0..6u64 {
                let (first, end) = partition(i, workers, 10, r).unwrap();
                assert!(first >= last_end);
                assert!(first < end);
                last_end = end;
            }
        }
    }
}
