use ingestion::error::IngestionError;
use ingestion::executor::{next_backoff, Executor, Flush, FlushAction, GroupShape, RetryConfig};
use ingestion::pipeline::ExporterGroup;

fn retry(max_attempts: usize, initial: u64, max: u64) -> RetryConfig {
    RetryConfig { max_attempts, initial_backoff_ms: initial, max_backoff_ms: max }
}

/// Drives a flush, answering exports from `answer(group, member, call_no)`.
/// Returns the actions taken and the outcome.
fn drive(shapes: Vec<GroupShape>, r: RetryConfig, mut answer: impl FnMut(usize, usize, usize) -> bool) -> (Vec<String>, Result<(), IngestionError>) {
    let (mut f, mut a): (Flush, FlushAction) = Flush::start(shapes, r);
    let mut log = Vec::new();
    let mut calls = 0;
    loop {
        match a {
            FlushAction::Export { group, member } => {
                log.push(format!("export {group}.{member}"));
                let ok = answer(group, member, calls);
                calls += 1;
                a = f.on_export(ok);
            }
            FlushAction::Backoff { group, ms } => {
                log.push(format!("sleep {group} {ms}"));
                a = f.on_backoff_elapsed();
            }
            FlushAction::Dropped { group } => {
                log.push(format!("drop {group}"));
                a = f.on_dropped();
            }
            FlushAction::Done(r) => return (log, r),
        }
    }
}

#[test]
fn default_retry_config() {
    let r = RetryConfig::default();
    assert_eq!(r.max_attempts, 3);
    assert_eq!(r.initial_backoff_ms, 100);
    assert_eq!(r.max_backoff_ms, 10_000);
}

#[test]
fn backoff_doubles_and_caps() {
    assert_eq!(next_backoff(100, 10_000), 200);
    assert_eq!(next_backoff(6_000, 10_000), 10_000);
    assert_eq!(next_backoff(5_000, 10_000), 10_000);
    assert_eq!(next_backoff(u64::MAX, u64::MAX), u64::MAX);
    assert_eq!(next_backoff(0, 10), 0);
}

#[test]
fn flat_group_succeeds_first_time() {
    let (log, r) = drive(vec![GroupShape::Flat], RetryConfig::default(), |_, _, _| true);
    assert_eq!(log, vec!["export 0.0"]);
    assert!(r.is_ok());
}

#[test]
fn flat_group_exhausts_retries_with_exponential_backoff() {
    let (log, r) = drive(vec![GroupShape::Flat], retry(4, 100, 250), |_, _, _| false);
    assert_eq!(log, vec!["export 0.0", "sleep 0 100", "export 0.0", "sleep 0 200", "export 0.0", "sleep 0 250", "export 0.0", "drop 0"]);
    assert!(matches!(r, Err(IngestionError::MaxRetriesExhausted { attempts: 4 })));
}

#[test]
fn flat_group_recovers_on_retry() {
    let (log, r) = drive(vec![GroupShape::Flat], RetryConfig::default(), |_, _, n| n == 1);
    assert_eq!(log, vec!["export 0.0", "sleep 0 100", "export 0.0"]);
    assert!(r.is_ok());
}

#[test]
fn one_of_first_success_wins() {
    let (log, r) = drive(vec![GroupShape::OneOf(3)], RetryConfig::default(), |_, m, _| m == 1);
    assert_eq!(log, vec!["export 0.0", "export 0.1"]);
    assert!(r.is_ok());
}

#[test]
fn one_of_retries_from_head_after_all_fail() {
    let (log, r) = drive(vec![GroupShape::OneOf(2)], retry(2, 50, 1000), |_, _, _| false);
    assert_eq!(log, vec!["export 0.0", "export 0.1", "sleep 0 50", "export 0.0", "export 0.1", "drop 0"]);
    assert!(matches!(r, Err(IngestionError::MaxRetriesExhausted { attempts: 2 })));
}

#[test]
fn empty_one_of_group_only_backs_off() {
    let (log, r) = drive(vec![GroupShape::OneOf(0)], retry(3, 10, 1000), |_, _, _| true);
    assert_eq!(log, vec!["sleep 0 10", "sleep 0 20", "drop 0"]);
    assert!(matches!(r, Err(IngestionError::MaxRetriesExhausted { attempts: 3 })));
}

#[test]
fn groups_run_in_order() {
    let (log, r) = drive(vec![GroupShape::Flat, GroupShape::OneOf(2), GroupShape::Flat], retry(1, 10, 10), |g, m, _| g == 0 || (g == 1 && m == 1) || g == 2);
    assert_eq!(log, vec!["export 0.0", "export 1.0", "export 1.1", "export 2.0"]);
    assert!(r.is_ok());
}

#[test]
fn a_failed_group_drops_the_batch_for_itself_only() {
    // group 0 exhausts its retries; groups 1 and 2 still receive the batch
    let (log, r) = drive(vec![GroupShape::Flat, GroupShape::Flat, GroupShape::OneOf(2)], retry(2, 10, 100), |g, m, _| g == 1 || (g == 2 && m == 1));
    assert_eq!(log, vec!["export 0.0", "sleep 0 10", "export 0.0", "drop 0", "export 1.0", "export 2.0", "export 2.1"]);
    assert!(matches!(r, Err(IngestionError::MaxRetriesExhausted { attempts: 2 })));
    // a later group failing too still ends with the same error
    let (log, r) = drive(vec![GroupShape::Flat, GroupShape::Flat], retry(1, 10, 10), |_, _, _| false);
    assert_eq!(log, vec!["export 0.0", "drop 0", "export 1.0", "drop 1"]);
    assert!(matches!(r, Err(IngestionError::MaxRetriesExhausted { attempts: 1 })));
}

#[test]
fn no_groups_is_an_immediate_success() {
    let (log, r) = drive(vec![], retry(0, 10, 10), |_, _, _| false);
    assert!(log.is_empty());
    assert!(r.is_ok());
}

#[test]
fn each_group_starts_with_the_initial_backoff() {
    // group 0 fails once then succeeds; group 1 fails once: its wait restarts at 100
    let (log, _) = drive(vec![GroupShape::Flat, GroupShape::Flat], retry(3, 100, 1000), |g, _, n| (g == 0 && n == 1) || (g == 1 && n == 3));
    assert_eq!(log, vec!["export 0.0", "sleep 0 100", "export 0.0", "export 1.0", "sleep 1 100", "export 1.0"]);
}

#[test]
fn executor_flush_starts_fresh_for_every_batch() {
    let ex: Executor<u8> = Executor::new(vec![ExporterGroup::OneOf(vec![1, 2]), ExporterGroup::Flat(3)], RetryConfig::default());
    assert_eq!(ex.shapes(), vec![GroupShape::OneOf(2), GroupShape::Flat]);
    let (f1, a1) = ex.begin_flush();
    let (f2, a2) = ex.begin_flush();
    assert!(matches!(a1, FlushAction::Export { group: 0, member: 0 }));
    assert!(matches!(a2, FlushAction::Export { group: 0, member: 0 }));
    assert_eq!(f1.attempt, f2.attempt);
    assert_eq!(f1.backoff_ms, 100);
    let mut ex = ex;
    assert_eq!(*ex.exporter_mut(0, 1), 2);
    assert_eq!(*ex.exporter_mut(1, 0), 3);
}

#[test]
fn failing_one_of_group_is_tried_max_attempts_times_each_member() {
    let (log, r) = drive(vec![GroupShape::OneOf(2)], retry(3, 10, 1000), |_, _, _| false);
    let exports = log.iter().filter(|l| l.starts_with("export")).count();
    assert_eq!(exports, 6);
    assert_eq!(log.len(), 3 * (2 + 1));
    assert_eq!(log, vec!["export 0.0", "export 0.1", "sleep 0 10", "export 0.0", "export 0.1", "sleep 0 20", "export 0.0", "export 0.1", "drop 0"]);
    assert!(matches!(r, Err(IngestionError::MaxRetriesExhausted { attempts: 3 })));
}

#[test]
fn no_failover_position_is_kept_between_flushes() {
    let x = Executor::new(vec![ExporterGroup::OneOf(vec![7u8, 8u8])], retry(3, 10, 1000));
    // the first flush succeeds at the second member
    let (mut f, a) = x.begin_flush();
    assert!(matches!(a, FlushAction::Export { group: 0, member: 0 }));
    assert!(matches!(f.on_export(false), FlushAction::Export { group: 0, member: 1 }));
    assert!(matches!(f.on_export(true), FlushAction::Done(Ok(()))));
    // the next flush starts again at the first member
    let (f2, a2) = x.begin_flush();
    assert!(matches!(a2, FlushAction::Export { group: 0, member: 0 }));
    assert_eq!((f2.group, f2.attempt, f2.member), (0, 0, 0));
}
