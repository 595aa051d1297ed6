use dorst::job::{JobResult, Outcome};
use dorst::report::Aggregator;

fn ok(target: &str, destination: &str, updated: bool) -> JobResult {
    JobResult {
        target: target.to_owned(),
        destination: destination.to_owned(),
        outcome: Outcome::Success { updated },
    }
}

fn failed(target: &str, destination: &str, message: &str) -> JobResult {
    JobResult {
        target: target.to_owned(),
        destination: destination.to_owned(),
        outcome: Outcome::Failure { message: message.to_owned() },
    }
}

#[test]
fn new_aggregator_has_counted_nothing() {
    let aggregator = Aggregator::new(2);
    assert_eq!(aggregator.total_jobs(), 2);
    assert_eq!(aggregator.completed_count(), 0);
    assert_eq!(aggregator.error_count(), 0);
    assert!(!aggregator.is_complete());
}

#[test]
fn run_without_jobs_is_complete() {
    let aggregator = Aggregator::new(0);
    assert!(aggregator.is_complete());
    let report = aggregator.finalize();
    assert_eq!(report.completed_count, 0);
    assert_eq!(report.error_count, 0);
    assert!(report.updated_targets.is_empty());
    assert!(report.error_messages.is_empty());
}

#[test]
fn mixture_of_successes_and_failures_is_counted() {
    let mut aggregator = Aggregator::new(5);
    aggregator.record(ok("a", "/m/a", false));
    aggregator.record(failed("b", "/m/b", "unsupported URL protocol"));
    aggregator.record(ok("c", "/m/c", true));
    aggregator.record(failed("d", "/m/d", "authentication required"));
    assert!(!aggregator.is_complete());
    aggregator.record(ok("e", "/m/e", false));
    assert!(aggregator.is_complete());
    let report = aggregator.finalize();
    assert_eq!(report.completed_count, 3);
    assert_eq!(report.error_count, 2);
    assert_eq!(report.error_messages.len(), 2);
    assert_eq!(
        report.error_messages,
        vec!["b: unsupported URL protocol".to_owned(), "d: authentication required".to_owned()]
    );
    assert_eq!(report.updated_targets, vec!["c".to_owned()]);
}

#[test]
fn counts_do_not_depend_on_order() {
    let mut one = Aggregator::new(3);
    one.record(ok("a", "/m/a", true));
    one.record(failed("b", "/m/b", "x"));
    one.record(ok("c", "/m/c", false));
    let mut other = Aggregator::new(3);
    other.record(failed("b", "/m/b", "x"));
    other.record(ok("c", "/m/c", false));
    other.record(ok("a", "/m/a", true));
    let (one, other) = (one.finalize(), other.finalize());
    assert_eq!(one.completed_count, other.completed_count);
    assert_eq!(one.error_count, other.error_count);
    assert_eq!(one.error_messages.len(), other.error_messages.len());
}

#[test]
fn updated_target_is_listed_once() {
    let mut aggregator = Aggregator::new(2);
    aggregator.record(ok("a", "/m/a", true));
    aggregator.record(ok("a", "/b/a.dorst", true));
    let report = aggregator.finalize();
    assert_eq!(report.completed_count, 2);
    assert_eq!(report.updated_targets, vec!["a".to_owned()]);
}

#[test]
fn recorded_jobs_are_known() {
    let mut aggregator = Aggregator::new(2);
    assert!(!aggregator.is_recorded("a", "/m/a"));
    aggregator.record(ok("a", "/m/a", false));
    assert!(aggregator.is_recorded("a", "/m/a"));
    assert!(!aggregator.is_recorded("a", "/b/a.dorst"));
    assert!(!aggregator.is_recorded("b", "/m/a"));
}

#[test]
fn report_may_be_asked_for_again() {
    let mut aggregator = Aggregator::new(1);
    aggregator.record(failed("a", "/m/a", "x"));
    let first = aggregator.finalize();
    let second = aggregator.finalize();
    assert_eq!(first.completed_count, second.completed_count);
    assert_eq!(first.error_count, second.error_count);
    assert_eq!(first.updated_targets, second.updated_targets);
    assert_eq!(first.error_messages, second.error_messages);
}

#[test]
fn jobs_passed_over_are_not_waited_for() {
    let mut aggregator = Aggregator::new(2);
    aggregator.record(failed("a", "/m/a", "x"));
    assert!(!aggregator.is_complete());
    assert!(aggregator.can_forgo(1));
    assert!(!aggregator.can_forgo(2));
    aggregator.forgo(1);
    assert_eq!(aggregator.total_jobs(), 1);
    assert!(aggregator.is_complete());
}
