use hashsearch::error::SearchError;
use hashsearch::mask::make_check_mask;
use hashsearch::worker::{scan_batch, send_all, Halt, Match, Runner, Worker, BATCH_SIZE};

fn candidates(found: &[Match]) -> Vec<u64> {
    found.iter().map(|m| m.candidate).collect()
}

#[test]
fn batch_size_is_one_hundred() {
    assert_eq!(BATCH_SIZE, 100);
}

#[test]
fn scan_finds_the_candidates_with_one_trailing_zero() {
    let mask = make_check_mask(1).unwrap();
    let found = scan_batch(&mask, 1, 101);
    assert_eq!(candidates(&found), vec![14, 75, 92]);
    assert_eq!(found[0].hex, "18d8d609947c6b82b9607704ae40d3317038e709238514de750b5c7411ba4c20");
    assert_eq!(found[1].hex, "da10d604e00de4afd92ddb4059a3c2c0976b4e006b96db4a5c30721ce171fd10");
    assert_eq!(found[2].hex, "6d743e06572ee1ce30f6b28c20b29b0a02957d3b63093bf8334daa55a5594470");
}

#[test]
fn scan_finds_the_candidates_with_two_trailing_zeros() {
    let mask = make_check_mask(2).unwrap();
    let found = scan_batch(&mask, 1, 1001);
    assert_eq!(candidates(&found), vec![502, 929]);
    assert_eq!(found[0].hex, "7db92b28b91ff20e4447b40e75cc369a38cc93be36be69ae4b3a08cc6e968a00");
}

#[test]
fn scan_with_empty_mask_reports_every_candidate() {
    let mask = make_check_mask(0).unwrap();
    let found = scan_batch(&mask, 1, 4);
    assert_eq!(candidates(&found), vec![1, 2, 3]);
    assert_eq!(found[0].hex, "7c9fa136d4413fa6173637e883b6998d32e1d675f88cddff9dcbcf331820f4b8");
    assert_eq!(found[1].hex, "d86e8112f3c4c4442126f8e9f44f16867da487f29052bf91b810457db34209a4");
    assert_eq!(found[2].hex, "35be322d094f9d154a8aba4733b8497f180353bd7ae7b0a15f90b586b549f28b");
}

#[test]
fn scan_leaves_out_the_end() {
    let mask = make_check_mask(1).unwrap();
    assert_eq!(candidates(&scan_batch(&mask, 14, 15)), vec![14]);
    assert_eq!(candidates(&scan_batch(&mask, 13, 14)), Vec::<u64>::new());
}

#[test]
fn scan_of_an_empty_or_reversed_range_finds_nothing() {
    let mask = make_check_mask(0).unwrap();
    assert!(scan_batch(&mask, 5, 5).is_empty());
    assert!(scan_batch(&mask, 9, 3).is_empty());
}

#[test]
fn worker_needs_workers_a_place_and_a_batch() {
    assert_eq!(Worker::new(0, 0, 100), Err(SearchError::NoWorkers));
    assert_eq!(Worker::new(3, 0, 0), Err(SearchError::NoWorkers));
    assert_eq!(Worker::new(3, 3, 100), Err(SearchError::NoSuchWorker));
    assert_eq!(Worker::new(4, 3, 0), Err(SearchError::NoSuchWorker));
    assert_eq!(Worker::new(2, 3, 0), Err(SearchError::EmptyBatch));
    assert!(Worker::new(2, 3, 1).is_ok());
}

#[test]
fn new_worker_has_done_no_round() {
    let worker = Worker::new(1, 3, 100).unwrap();
    assert_eq!(worker.index(), 1);
    assert_eq!(worker.workers(), 3);
    assert_eq!(worker.batch(), 100);
    assert_eq!(worker.round(), 0);
    assert_eq!(worker.next_range(), Some((101, 201)));
}

#[test]
fn worker_advances_by_one_stride_each_round() {
    let mask = make_check_mask(1).unwrap();
    let mut worker = Worker::new(1, 3, 100).unwrap();
    let first = worker.next_batch(&mask).unwrap();
    assert_eq!(
        candidates(&first),
        vec![111, 117, 136, 138, 145, 148, 171, 173, 177, 178, 181, 187, 199]
    );
    assert_eq!(worker.round(), 1);
    assert_eq!(worker.next_range(), Some((401, 501)));
    let second = worker.next_batch(&mask).unwrap();
    assert_eq!(candidates(&second), vec![413, 429, 438, 443, 469, 473, 496]);
    assert_eq!(worker.next_range(), Some((701, 801)));
    assert_eq!(worker.index(), 1);
    assert_eq!(worker.workers(), 3);
    assert_eq!(worker.batch(), 100);
}

#[test]
fn what_a_worker_reports_ascends() {
    let mask = make_check_mask(1).unwrap();
    for i in 0..3usize {
        let mut worker = Worker::new(i, 3, 100).unwrap();
        let mut all: Vec<u64> = Vec::new();
        for _ in 0..4 {
            all.extend(candidates(&worker.next_batch(&mask).unwrap()));
        }
        assert!(!all.is_empty());
        for pair in all.windows(2) {
            assert!(pair[0] < pair[1]);
        }
    }
}

#[test]
fn workers_together_find_what_one_scan_finds() {
    let mask = make_check_mask(1).unwrap();
    let mut all: Vec<u64> = Vec::new();
    for i in 0..3usize {
        let mut worker = Worker::new(i, 3, 100).unwrap();
        for _ in 0..4 {
            all.extend(candidates(&worker.next_batch(&mask).unwrap()));
        }
    }
    all.sort();
    assert_eq!(all, candidates(&scan_batch(&mask, 1, 1201)));
    assert_eq!(all.len(), 70);
}

#[test]
fn every_reported_digest_ends_in_zero() {
    let mask = make_check_mask(1).unwrap();
    let mut worker = Worker::new(0, 2, 100).unwrap();
    for _ in 0..5 {
        for found in worker.next_batch(&mask).unwrap() {
            assert_eq!(found.hex.len(), 64);
            assert_eq!(found.hex.chars().last(), Some('0'));
        }
    }
}

#[test]
fn worker_stops_at_the_end_of_the_candidates() {
    let mask = make_check_mask(64).unwrap();
    let mut worker = Worker::new(0, 1, usize::MAX).unwrap();
    assert_eq!(worker.next_range(), None);
    assert_eq!(worker.next_batch(&mask), None);
    assert_eq!(worker.round(), 0);
    assert_eq!(worker.next_batch(&mask), None);
}

#[test]
fn send_all_puts_the_matches_into_the_channel_in_order() {
    let (tx, rx) = crossbeam_channel::unbounded::<Match>();
    let mask = make_check_mask(1).unwrap();
    let batch = scan_batch(&mask, 1, 101);
    let mut buffer = batch.clone();
    assert_eq!(send_all(&tx, &mut buffer), 3);
    assert!(buffer.is_empty());
    drop(tx);
    let arrived: Vec<Match> = rx.iter().collect();
    assert_eq!(arrived, batch);
}

#[test]
fn send_all_stops_when_nobody_listens() {
    let (tx, rx) = crossbeam_channel::unbounded::<Match>();
    drop(rx);
    let mask = make_check_mask(1).unwrap();
    let mut buffer = scan_batch(&mask, 1, 101);
    assert_eq!(buffer.len(), 3);
    assert_eq!(send_all(&tx, &mut buffer), 0);
    assert!(buffer.is_empty());
    assert_eq!(send_all(&tx, &mut buffer), 0);
    assert!(buffer.is_empty());
}

#[test]
fn send_all_leaves_the_buffer_ready_for_the_next_batch() {
    let (tx, rx) = crossbeam_channel::unbounded::<Match>();
    let mask = make_check_mask(1).unwrap();
    let mut buffer = scan_batch(&mask, 1, 101);
    assert_eq!(send_all(&tx, &mut buffer), 3);
    buffer.extend(scan_batch(&mask, 101, 201));
    assert_eq!(send_all(&tx, &mut buffer), 13);
    assert!(buffer.is_empty());
    drop(tx);
    let arrived: Vec<u64> = rx.iter().map(|m| m.candidate).collect();
    assert_eq!(
        arrived,
        vec![14, 75, 92, 111, 117, 136, 138, 145, 148, 171, 173, 177, 178, 181, 187, 199]
    );
}

#[test]
fn runner_reports_each_round_on_its_channel() {
    let (tx, rx) = crossbeam_channel::unbounded::<Match>();
    let mask = make_check_mask(1).unwrap();
    let mut runner = Runner::new(Worker::new(2, 3, 100).unwrap(), mask, tx);
    assert_eq!(runner.mask(), mask);
    assert_eq!(runner.worker().index(), 2);
    assert_eq!(runner.run_round(), None);
    assert_eq!(runner.worker().round(), 1);
    assert_eq!(runner.run_round(), None);
    assert_eq!(runner.worker().round(), 2);
    drop(runner);
    let arrived: Vec<u64> = rx.iter().map(|m| m.candidate).collect();
    assert_eq!(arrived, vec![206, 216, 230, 242, 244, 247, 502, 519, 546, 583]);
}

#[test]
fn runner_goes_on_while_it_finds_nothing_to_send() {
    let (tx, rx) = crossbeam_channel::unbounded::<Match>();
    drop(rx);
    let mask = make_check_mask(64).unwrap();
    let mut runner = Runner::new(Worker::new(0, 1, 10).unwrap(), mask, tx);
    assert_eq!(runner.run_round(), None);
    assert_eq!(runner.run_round(), None);
    assert_eq!(runner.worker().round(), 2);
}

#[test]
fn runner_ends_when_the_candidates_run_out() {
    let (tx, rx) = crossbeam_channel::unbounded::<Match>();
    let mask = make_check_mask(0).unwrap();
    let mut runner = Runner::new(Worker::new(0, 1, usize::MAX).unwrap(), mask, tx);
    assert_eq!(runner.run_round(), Some(Halt::Exhausted));
    assert_eq!(runner.worker().round(), 0);
    assert_eq!(runner.run(), Halt::Exhausted);
    drop(runner);
    assert!(rx.recv().is_err());
}

#[test]
fn runner_ends_when_nobody_listens() {
    let (tx, rx) = crossbeam_channel::unbounded::<Match>();
    drop(rx);
    let mask = make_check_mask(1).unwrap();
    let mut runner = Runner::new(Worker::new(0, 1, 100).unwrap(), mask, tx);
    assert_eq!(runner.run(), Halt::Refused);
    assert_eq!(runner.worker().round(), 1);
}

#[test]
fn runner_is_refused_in_the_first_round_that_holds_a_match() {
    let (tx, rx) = crossbeam_channel::unbounded::<Match>();
    drop(rx);
    let mask = make_check_mask(2).unwrap();
    let mut runner = Runner::new(Worker::new(0, 1, 100).unwrap(), mask, tx);
    assert_eq!(runner.run(), Halt::Refused);
    assert_eq!(runner.worker().round(), 6);
    assert_eq!(runner.worker().index(), 0);
    assert_eq!(runner.worker().workers(), 1);
    assert_eq!(runner.worker().batch(), 100);
    assert_eq!(runner.mask(), mask);
    let last = scan_batch(&mask, 501, 601);
    assert_eq!(last.len(), 1);
    assert_eq!(last[0].candidate, 502);
    assert!(scan_batch(&mask, 1, 501).is_empty());
}

#[test]
fn exhausted_runner_has_no_batch_left() {
    let (tx, _rx) = crossbeam_channel::unbounded::<Match>();
    let mask = make_check_mask(64).unwrap();
    let mut runner = Runner::new(Worker::new(1, 2, usize::MAX).unwrap(), mask, tx);
    assert_eq!(runner.run(), Halt::Exhausted);
    assert_eq!(runner.worker().round(), 0);
    assert_eq!(runner.worker().next_range(), None);
}
