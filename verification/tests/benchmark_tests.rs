use katana_bench::benchmark::{
    poll_interval_millis, total_steps, BenchmarkMetrics, BenchmarkRun, Step, TransactionReceipt,
};
use katana_bench::duration::Duration;
use katana_bench::felt::Felt;

fn small(n: u128) -> Felt {
    Felt::from_u128(n)
}

fn accepted(hashes: &[u128]) -> Vec<Result<Felt, String>> {
    hashes.iter().map(|h| Ok(small(*h))).collect()
}

#[test]
fn run_submits_batches_and_polls_the_last() {
    let mut run = BenchmarkRun::new(5, 2);
    assert_eq!(run.step(), Step::Submit { start: 0, end: 2 });
    assert_eq!(run.record_batch(accepted(&[10, 11])), Ok(()));
    assert_eq!(run.step(), Step::Submit { start: 2, end: 4 });
    assert_eq!(run.record_batch(accepted(&[12, 13])), Ok(()));
    assert_eq!(run.step(), Step::Submit { start: 4, end: 5 });
    assert_eq!(run.record_batch(accepted(&[14])), Ok(()));
    assert_eq!(run.step(), Step::AwaitReceipt { tx_hash: small(14) });
    run.record_receipt();
    assert_eq!(run.step(), Step::Finish);
    let second = Duration::new(1, 0).unwrap();
    let metrics = run.metrics(&second, &Duration::new(2, 500).unwrap());
    assert_eq!(metrics.total_transactions, 5);
    assert_eq!(metrics.avg_latency, Duration::from_millis(200));
    assert_eq!(metrics.total_duration, Duration::new(2, 500).unwrap());
    assert_eq!(*run.submitted(), vec![small(10), small(11), small(12), small(13), small(14)]);
}

#[test]
fn run_with_full_batches() {
    let mut run = BenchmarkRun::new(4, 2);
    assert_eq!(run.record_batch(accepted(&[1, 2])), Ok(()));
    assert_eq!(run.step(), Step::Submit { start: 2, end: 4 });
    assert_eq!(run.record_batch(accepted(&[3, 4])), Ok(()));
    assert_eq!(run.step(), Step::AwaitReceipt { tx_hash: small(4) });
}

#[test]
fn run_without_transactions_is_finished() {
    let run = BenchmarkRun::new(0, 3);
    assert_eq!(run.step(), Step::Finish);
    assert!(run.submitted().is_empty());
    let second = Duration::new(1, 0).unwrap();
    let metrics = run.metrics(&second, &second);
    assert_eq!(metrics.total_transactions, 0);
    assert_eq!(metrics.avg_latency, Duration::from_millis(0));
}

#[test]
fn run_stops_at_the_first_refusal() {
    let mut run = BenchmarkRun::new(6, 3);
    let results =
        vec![Ok(small(1)), Err("first".to_string()), Err("second".to_string())];
    assert_eq!(run.record_batch(results), Err("first".to_string()));
    assert_eq!(run.step(), Step::Abort);
    run.record_receipt();
    assert_eq!(run.step(), Step::Abort);
    let second = Duration::new(1, 0).unwrap();
    assert_eq!(run.metrics(&second, &second).total_transactions, 1);
    assert_eq!(*run.submitted(), vec![small(1)]);
}

#[test]
fn average_latency_divides_the_submission_time() {
    let submission = Duration::new(10, 7).unwrap();
    let total = Duration::new(20, 0).unwrap();
    let metrics = BenchmarkMetrics::new(3, &submission, &total);
    assert_eq!(metrics.avg_latency, Duration::new(3, 333_333_335).unwrap());
    let many = BenchmarkMetrics::new(1 << 32, &Duration::new(1 << 33, 0).unwrap(), &total);
    assert_eq!(many.avg_latency, Duration::new(2, 0).unwrap());
    let standard = std::time::Duration::new(10, 7) / 3;
    assert_eq!(metrics.avg_latency.as_nanos(), standard.as_nanos());
}

#[test]
fn steps_of_all_kinds_are_summed() {
    let receipts = vec![
        TransactionReceipt::Invoke { steps: 1 },
        TransactionReceipt::L1Handler { steps: 20 },
        TransactionReceipt::Declare { steps: 300 },
        TransactionReceipt::Deploy { steps: 4000 },
        TransactionReceipt::DeployAccount { steps: 50000 },
    ];
    assert_eq!(total_steps(&receipts), 54321);
    assert_eq!(total_steps(&vec![]), 0);
    assert_eq!(total_steps(&vec![TransactionReceipt::Invoke { steps: u64::MAX }]), u64::MAX);
}

#[test]
fn poll_interval_is_in_milliseconds() {
    assert_eq!(poll_interval_millis(&Duration::from_millis(5)), 5);
    assert_eq!(poll_interval_millis(&Duration::new(1, 999_999).unwrap()), 1000);
    let longest = Duration::new(u64::MAX, 999_999_999).unwrap();
    let standard = std::time::Duration::new(u64::MAX, 999_999_999);
    assert_eq!(poll_interval_millis(&longest), standard.as_millis() as u64);
}

#[test]
fn durations_are_normal() {
    assert_eq!(Duration::new(1, 1_000_000_000), None);
    let duration = Duration::from_millis(1234);
    assert_eq!((duration.as_secs(), duration.subsec_nanos()), (1, 234_000_000));
    assert_eq!(duration.as_nanos(), 1_234_000_000);
    assert_eq!(duration.as_millis(), 1234);
    assert_eq!(duration.split(4), Duration::new(0, 308_500_000).unwrap());
}
