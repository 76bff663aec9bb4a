use truckersmp::batch::Batch;
use truckersmp::error::Error;
use truckersmp::gate::Gate;

#[test]
fn gate_without_permits_is_refused() {
    assert_eq!(Gate::new(5, 0).err(), Some(Error::ConcurrencyAdmissionFailure));
    assert_eq!(Gate::new(0, 0).err(), Some(Error::ConcurrencyAdmissionFailure));
}

#[test]
fn fresh_gate_holds_no_permit() {
    let gate = Gate::new(50, 8).unwrap();
    assert_eq!(gate.in_flight(), 0);
    assert_eq!(gate.limit(), 8);
    assert_eq!(gate.jobs(), 50);
    assert!(!gate.is_drained());
}

#[test]
fn gate_without_jobs_is_drained() {
    let mut gate = Gate::new(0, 3).unwrap();
    assert!(gate.is_drained());
    assert_eq!(gate.try_acquire(), None);
}

#[test]
fn gate_admits_jobs_in_order_up_to_the_limit() {
    let mut gate = Gate::new(50, 8).unwrap();
    for expected in 0..8 {
        assert_eq!(gate.try_acquire(), Some(expected));
        assert_eq!(gate.in_flight(), expected + 1);
    }
    assert_eq!(gate.try_acquire(), None);
    assert_eq!(gate.try_acquire(), None);
    assert_eq!(gate.in_flight(), 8);
}

#[test]
fn released_permit_admits_the_next_job() {
    let mut gate = Gate::new(5, 2).unwrap();
    assert_eq!(gate.try_acquire(), Some(0));
    assert_eq!(gate.try_acquire(), Some(1));
    assert_eq!(gate.try_acquire(), None);
    assert!(gate.release(1));
    assert_eq!(gate.in_flight(), 1);
    assert_eq!(gate.try_acquire(), Some(2));
    assert_eq!(gate.try_acquire(), None);
}

#[test]
fn release_of_a_job_without_permit_changes_nothing() {
    let mut gate = Gate::new(4, 2).unwrap();
    assert!(!gate.release(0));
    assert_eq!(gate.try_acquire(), Some(0));
    assert!(!gate.release(1));
    assert!(!gate.release(4));
    assert!(!gate.release(usize::MAX));
    assert_eq!(gate.in_flight(), 1);
    assert!(gate.release(0));
    assert!(!gate.release(0));
    assert_eq!(gate.in_flight(), 0);
    assert_eq!(gate.try_acquire(), Some(1));
}

#[test]
fn fifty_jobs_never_hold_more_than_eight_permits() {
    let mut gate = Gate::new(50, 8).unwrap();
    let mut running: Vec<usize> = Vec::new();
    let mut started = 0;
    let mut finished = 0;
    let mut round = 0usize;
    while !gate.is_drained() {
        while let Some(job) = gate.try_acquire() {
            assert_eq!(job, started);
            started += 1;
            running.push(job);
            assert!(gate.in_flight() <= 8);
            assert_eq!(gate.in_flight(), running.len());
        }
        assert!(running.len() == 8 || started == 50);
        let pick = (round * 5 + 3) % running.len();
        let job = running.remove(pick);
        assert!(gate.release(job));
        finished += 1;
        round += 1;
        assert_eq!(gate.in_flight(), running.len());
        assert!(gate.in_flight() <= 8);
    }
    assert_eq!(started, 50);
    assert_eq!(finished, 50);
    assert_eq!(gate.in_flight(), 0);
    assert_eq!(gate.try_acquire(), None);
}

#[test]
fn limit_above_the_number_of_jobs_admits_all() {
    let mut gate = Gate::new(3, 8).unwrap();
    assert_eq!(gate.try_acquire(), Some(0));
    assert_eq!(gate.try_acquire(), Some(1));
    assert_eq!(gate.try_acquire(), Some(2));
    assert_eq!(gate.try_acquire(), None);
    assert_eq!(gate.in_flight(), 3);
    assert!(gate.release(0) && gate.release(2) && gate.release(1));
    assert!(gate.is_drained());
}

#[test]
fn batch_without_permits_is_refused() {
    assert_eq!(Batch::<u8>::new(3, 0).err(), Some(Error::ConcurrencyAdmissionFailure));
}

#[test]
fn batch_hands_out_outcomes_only_when_drained() {
    let mut batch: Batch<char> = Batch::new(3, 2).unwrap();
    assert_eq!(batch.jobs(), 3);
    assert_eq!(batch.outcomes(), None);
    assert_eq!(batch.start_next(), Some(0));
    assert_eq!(batch.start_next(), Some(1));
    assert_eq!(batch.start_next(), None);
    assert_eq!(batch.in_flight(), 2);
    assert!(batch.complete(1, 'b'));
    assert_eq!(batch.outcomes(), None);
    assert_eq!(batch.start_next(), Some(2));
    assert!(batch.complete(2, 'c'));
    assert!(!batch.is_drained());
    assert!(batch.complete(0, 'a'));
    assert!(batch.is_drained());
    assert_eq!(batch.in_flight(), 0);
    assert_eq!(batch.outcomes(), Some(vec!['a', 'b', 'c']));
}

#[test]
fn batch_refuses_outcomes_of_jobs_that_do_not_run() {
    let mut batch: Batch<u32> = Batch::new(2, 1).unwrap();
    assert!(!batch.complete(0, 7));
    assert_eq!(batch.start_next(), Some(0));
    assert!(!batch.complete(1, 7));
    assert!(!batch.complete(2, 7));
    assert!(batch.complete(0, 1));
    assert!(!batch.complete(0, 2));
    assert_eq!(batch.start_next(), Some(1));
    assert!(batch.complete(1, 3));
    assert_eq!(batch.outcomes(), Some(vec![1, 3]));
}

#[test]
fn empty_batch_is_drained_at_once() {
    let mut batch: Batch<bool> = Batch::new(0, 8).unwrap();
    assert!(batch.is_drained());
    assert_eq!(batch.start_next(), None);
    assert_eq!(batch.outcomes(), Some(vec![]));
}

#[test]
fn batch_of_fifty_runs_at_most_eight_at_a_time() {
    let mut batch: Batch<usize> = Batch::new(50, 8).unwrap();
    let mut running: Vec<usize> = Vec::new();
    let mut most = 0;
    loop {
        while let Some(job) = batch.start_next() {
            running.push(job);
        }
        most = most.max(batch.in_flight());
        assert!(batch.in_flight() <= 8);
        match running.pop() {
            Some(job) => assert!(batch.complete(job, job * 2)),
            None => break,
        }
    }
    assert_eq!(most, 8);
    let expected: Vec<usize> = (0..50).map(|job| job * 2).collect();
    assert_eq!(batch.outcomes(), Some(expected));
}
