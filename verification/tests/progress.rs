use dorst::progress::{
    bar_position, transfer_events, BarPosition, Fraction, ProgressEvent, Stage, TransferStats,
};

fn stats(total: usize, received: usize, total_deltas: usize, indexed_deltas: usize) -> TransferStats {
    TransferStats {
        total_objects: total,
        indexed_objects: 0,
        received_objects: received,
        local_objects: 0,
        total_deltas,
        indexed_deltas,
        received_bytes: 0,
    }
}

fn as_float(p: BarPosition) -> f64 {
    p.num as f64 / p.den as f64
}

#[test]
fn fraction_is_done_of_total() {
    assert_eq!(Fraction::new(3, 12), Fraction { num: 3, den: 12 });
    assert_eq!(Fraction::new(0, 5), Fraction { num: 0, den: 5 });
    assert_eq!(Fraction::new(5, 5), Fraction { num: 5, den: 5 });
}

#[test]
fn fraction_without_total_is_complete() {
    assert_eq!(Fraction::new(0, 0), Fraction { num: 1, den: 1 });
    assert_eq!(Fraction::new(7, 0), Fraction { num: 1, den: 1 });
    assert_eq!(Fraction::complete(), Fraction { num: 1, den: 1 });
    assert_eq!(Fraction::zero(), Fraction { num: 0, den: 1 });
}

#[test]
fn fraction_never_passes_one() {
    assert_eq!(Fraction::new(9, 4), Fraction { num: 4, den: 4 });
}

#[test]
fn transfer_fills_the_first_half_of_the_bar() {
    let p = bar_position(Stage::Cloning, Fraction { num: 1, den: 2 });
    assert_eq!(p, BarPosition { num: 1, den: 4 });
    assert_eq!(as_float(p), 0.25);
    let p = bar_position(Stage::Fetching, Fraction { num: 0, den: 8 });
    assert_eq!(as_float(p), 0.0);
    let p = bar_position(Stage::Fetching, Fraction { num: 7, den: 8 });
    assert!(as_float(p) < 0.5);
}

#[test]
fn deltas_fill_the_second_half_of_the_bar() {
    let p = bar_position(Stage::ResolvingDeltas, Fraction { num: 0, den: 4 });
    assert_eq!(p, BarPosition { num: 4, den: 8 });
    assert_eq!(as_float(p), 0.5);
    let p = bar_position(Stage::ResolvingDeltas, Fraction { num: 1, den: 2 });
    assert_eq!(as_float(p), 0.75);
    let p = bar_position(Stage::ResolvingDeltas, Fraction { num: 4, den: 4 });
    assert_eq!(as_float(p), 1.0);
}

#[test]
fn bar_takes_a_missing_total_as_completion() {
    let p = bar_position(Stage::Cloning, Fraction { num: 0, den: 0 });
    assert_eq!(p, BarPosition { num: 1, den: 1 });
    let p = bar_position(Stage::ResolvingDeltas, Fraction { num: 3, den: 0 });
    assert_eq!(as_float(p), 1.0);
}

#[test]
fn bar_position_holds_the_largest_counts() {
    let p = bar_position(Stage::ResolvingDeltas, Fraction { num: u64::MAX, den: u64::MAX });
    assert_eq!(p.num, 2 * (u64::MAX as u128));
    assert_eq!(p.den, 2 * (u64::MAX as u128));
}

#[test]
fn objects_received_give_progress() {
    let (events, stage) = transfer_events(Stage::Cloning, Stage::Cloning, &stats(10, 4, 0, 0));
    assert_eq!(events, vec![ProgressEvent::Progress(Fraction { num: 4, den: 10 })]);
    assert_eq!(stage, Stage::Cloning);
}

#[test]
fn all_objects_received_switch_to_deltas() {
    let (events, stage) = transfer_events(Stage::Fetching, Stage::Fetching, &stats(10, 10, 6, 3));
    assert_eq!(
        events,
        vec![
            ProgressEvent::StageChanged(Stage::ResolvingDeltas),
            ProgressEvent::Progress(Fraction { num: 3, den: 6 }),
        ]
    );
    assert_eq!(stage, Stage::ResolvingDeltas);
    let (events, stage) = transfer_events(Stage::Fetching, stage, &stats(10, 10, 6, 5));
    assert_eq!(events, vec![ProgressEvent::Progress(Fraction { num: 5, den: 6 })]);
    assert_eq!(stage, Stage::ResolvingDeltas);
}

#[test]
fn no_deltas_count_as_resolved() {
    let (events, _) = transfer_events(Stage::Cloning, Stage::ResolvingDeltas, &stats(3, 3, 0, 0));
    assert_eq!(events, vec![ProgressEvent::Progress(Fraction { num: 1, den: 1 })]);
}

#[test]
fn objects_after_deltas_switch_back() {
    let (events, stage) = transfer_events(Stage::Cloning, Stage::ResolvingDeltas, &stats(8, 2, 0, 0));
    assert_eq!(
        events,
        vec![
            ProgressEvent::StageChanged(Stage::Cloning),
            ProgressEvent::Progress(Fraction { num: 2, den: 8 }),
        ]
    );
    assert_eq!(stage, Stage::Cloning);
}
