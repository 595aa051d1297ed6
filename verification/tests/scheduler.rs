use dorst::scheduler::{Admission, Scheduler, POLL_INTERVAL_MS};

#[test]
fn unbounded_scheduler_launches_everything_at_once() {
    let mut scheduler = Scheduler::new(3, None);
    assert_eq!(scheduler.poll(), Admission::Dispatch(0));
    assert_eq!(scheduler.poll(), Admission::Dispatch(1));
    assert_eq!(scheduler.poll(), Admission::Dispatch(2));
    assert_eq!(scheduler.in_flight(), 3);
    assert_eq!(scheduler.poll(), Admission::Drained);
    assert!(!scheduler.is_done());
}

#[test]
fn bounded_scheduler_waits_at_its_limit() {
    let mut scheduler = Scheduler::new(3, Some(1));
    assert_eq!(scheduler.poll(), Admission::Dispatch(0));
    assert_eq!(scheduler.poll(), Admission::Wait);
    assert_eq!(scheduler.poll(), Admission::Wait);
    assert_eq!(scheduler.in_flight(), 1);
    assert!(scheduler.complete());
    assert_eq!(scheduler.in_flight(), 0);
    assert_eq!(scheduler.poll(), Admission::Dispatch(1));
    assert_eq!(scheduler.poll(), Admission::Wait);
    assert!(scheduler.complete());
    assert_eq!(scheduler.poll(), Admission::Dispatch(2));
    assert_eq!(scheduler.poll(), Admission::Drained);
    assert!(!scheduler.is_done());
    assert!(scheduler.complete());
    assert!(scheduler.is_done());
}

#[test]
fn in_flight_never_passes_the_limit() {
    let limit = 2;
    let total = 7;
    let mut scheduler = Scheduler::new(total, Some(limit));
    let mut launched = Vec::new();
    let mut observed = 0;
    let mut turn = 0;
    while !scheduler.is_done() {
        match scheduler.poll() {
            Admission::Dispatch(index) => launched.push(index),
            Admission::Wait | Admission::Drained => {
                assert!(scheduler.complete());
            }
        }
        assert!(scheduler.in_flight() <= limit);
        observed = observed.max(scheduler.in_flight());
        turn += 1;
        assert!(turn < 100);
    }
    assert_eq!(observed, limit);
    assert_eq!(launched, (0..total).collect::<Vec<usize>>());
}

#[test]
fn completion_without_a_flight_is_not_counted() {
    let mut scheduler = Scheduler::new(2, Some(2));
    assert!(!scheduler.complete());
    assert_eq!(scheduler.poll(), Admission::Dispatch(0));
    assert!(scheduler.complete());
    assert!(!scheduler.complete());
    assert_eq!(scheduler.in_flight(), 0);
}

#[test]
fn limit_of_zero_admits_nothing() {
    let mut scheduler = Scheduler::new(2, Some(0));
    assert_eq!(scheduler.poll(), Admission::Wait);
    assert_eq!(scheduler.in_flight(), 0);
}

#[test]
fn run_without_targets_is_done() {
    let mut scheduler = Scheduler::new(0, Some(3));
    assert_eq!(scheduler.poll(), Admission::Drained);
    assert!(scheduler.is_done());
}

#[test]
fn poll_interval_is_short() {
    assert_eq!(POLL_INTERVAL_MS, 50);
}
