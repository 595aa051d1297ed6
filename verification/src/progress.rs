//! Progress of one transfer: statistics in, stages and fractions out.

use vstd::prelude::*;

verus! {

/// The counters that the backend reports while objects arrive.
#[derive(Clone, Copy, Debug, PartialEq, Eq, Structural)]
pub struct TransferStats {
    pub total_objects: usize,
    pub indexed_objects: usize,
    pub received_objects: usize,
    pub local_objects: usize,
    pub total_deltas: usize,
    pub indexed_deltas: usize,
    pub received_bytes: usize,
}

/// A phase of a transfer.
#[derive(Clone, Copy, Debug, PartialEq, Eq, Structural)]
pub enum Stage {
    Cloning,
    Fetching,
    ResolvingDeltas,
}

/// A share of finished work, `num / den`.
#[derive(Clone, Copy, Debug, PartialEq, Eq, Structural)]
pub struct Fraction {
    pub num: u64,
    pub den: u64,
}

/// A position on a bar that shows a transfer and its delta resolution as one.
#[derive(Clone, Copy, Debug, PartialEq, Eq, Structural)]
pub struct BarPosition {
    pub num: u128,
    pub den: u128,
}

/// What a job tells its observer.
#[derive(Clone, Copy, Debug, PartialEq, Eq, Structural)]
pub enum ProgressEvent {
    Started,
    StageChanged(Stage),
    Progress(Fraction),
    Finished,
}

/// The share `done / total`, where nothing to do counts as all done and
/// `done` counts up to `total` at most.
pub open spec fn share(done: int, total: int) -> Fraction {
    if total <= 0 {
        Fraction { num: 1, den: 1 }
    } else if done >= total {
        Fraction { num: total as u64, den: total as u64 }
    } else {
        Fraction { num: done as u64, den: total as u64 }
    }
}

impl Fraction {
    /// The fraction lies in `[0, 1]`.
    pub open spec fn wf(self) -> bool {
        0 < self.den && self.num <= self.den
    }

    /// The fraction is all of the work.
    pub open spec fn is_complete(self) -> bool {
        self.den == 0 || self.num >= self.den
    }

    /// `done` of `total`; see [`share`].
    pub fn new(done: usize, total: usize) -> (f: Fraction)
        ensures
            f == share(done as int, total as int),
            f.wf(),
            total > 0 && done <= total ==> f.num == done && f.den == total,
    {
        if total == 0 {
            Fraction { num: 1, den: 1 }
        } else if done >= total {
            Fraction { num: total as u64, den: total as u64 }
        } else {
            Fraction { num: done as u64, den: total as u64 }
        }
    }

    /// All of the work.
    pub fn complete() -> (f: Fraction)
        ensures
            f == (Fraction { num: 1, den: 1 }),
            f.wf(),
            f.is_complete(),
    {
        Fraction { num: 1, den: 1 }
    }

    /// None of the work.
    pub fn zero() -> (f: Fraction)
        ensures
            f == (Fraction { num: 0, den: 1 }),
            f.wf(),
    {
        Fraction { num: 0, den: 1 }
    }
}

/// Where `fraction` of `stage` stands on a combined bar: the transfer fills the
/// first half, delta resolution the second. A fraction without a denominator
/// stands for finished work, and a numerator counts up to the denominator.
pub open spec fn bar_position_of(stage: Stage, fraction: Fraction) -> BarPosition {
    if fraction.den == 0 {
        BarPosition { num: 1, den: 1 }
    } else {
        let num = if fraction.num > fraction.den {
            fraction.den
        } else {
            fraction.num
        };
        match stage {
            Stage::ResolvingDeltas => BarPosition {
                num: (num + fraction.den) as u128,
                den: (2 * fraction.den) as u128,
            },
            _ => BarPosition { num: num as u128, den: (2 * fraction.den) as u128 },
        }
    }
}

impl BarPosition {
    /// The position lies in `[0, 1]`.
    pub open spec fn wf(self) -> bool {
        0 < self.den && self.num <= self.den
    }

    /// The position lies in the first half of the bar, `[0, 1/2)`.
    pub open spec fn in_first_half(self) -> bool {
        0 < self.den && 2 * self.num < self.den
    }

    /// The position lies in the second half of the bar, `[1/2, 1]`.
    pub open spec fn in_second_half(self) -> bool {
        0 < self.den && self.den <= 2 * self.num && self.num <= self.den
    }
}

/// The position of `fraction` on a combined bar; see [`bar_position_of`].
pub fn bar_position(stage: Stage, fraction: Fraction) -> (p: BarPosition)
    ensures
        p == bar_position_of(stage, fraction),
        p.wf(),
{
    if fraction.den == 0 {
        BarPosition { num: 1, den: 1 }
    } else {
        let num: u64 = if fraction.num > fraction.den {
            fraction.den
        } else {
            fraction.num
        };
        let den: u128 = 2 * (fraction.den as u128);
        match stage {
            Stage::ResolvingDeltas => BarPosition {
                num: num as u128 + fraction.den as u128,
                den,
            },
            _ => BarPosition { num: num as u128, den },
        }
    }
}

/// On a combined bar an unfinished transfer stays in the first half, delta
/// resolution stays in the second half, and a position is never outside the bar.
pub proof fn lemma_bar_halves(stage: Stage, fraction: Fraction)
    ensures
        bar_position_of(stage, fraction).wf(),
        stage != Stage::ResolvingDeltas && 0 < fraction.den && fraction.num < fraction.den
            ==> bar_position_of(stage, fraction).in_first_half(),
        stage == Stage::ResolvingDeltas && 0 < fraction.den ==> bar_position_of(
            stage,
            fraction,
        ).in_second_half(),
        fraction.den == 0 ==> bar_position_of(stage, fraction) == (BarPosition { num: 1, den: 1 }),
{
}

/// Delta resolution has begun: every object has been received.
pub open spec fn all_received(stats: TransferStats) -> bool {
    stats.received_objects == stats.total_objects
}

/// The stage that `stats` belong to, for a transfer whose own stage is
/// `transfer`; `None` while the backend knows no totals yet.
pub open spec fn stage_of(transfer: Stage, stats: TransferStats) -> Option<Stage> {
    if all_received(stats) {
        Some(Stage::ResolvingDeltas)
    } else if stats.total_objects > 0 {
        Some(transfer)
    } else {
        None
    }
}

/// The fraction that `stats` stand for: deltas indexed of deltas in all once
/// every object has been received, objects received of objects in all before.
pub open spec fn fraction_of(stats: TransferStats) -> Option<Fraction> {
    if all_received(stats) {
        Some(share(stats.indexed_deltas as int, stats.total_deltas as int))
    } else if stats.total_objects > 0 {
        Some(share(stats.received_objects as int, stats.total_objects as int))
    } else {
        None
    }
}

/// The events that `stats` give rise to while the observer believes the job to
/// be in `current`: a change of stage where the stage differs, then the fraction.
pub open spec fn transfer_events_of(
    transfer: Stage,
    current: Stage,
    stats: TransferStats,
) -> Seq<ProgressEvent> {
    match (stage_of(transfer, stats), fraction_of(stats)) {
        (Some(stage), Some(fraction)) => {
            if stage == current {
                seq![ProgressEvent::Progress(fraction)]
            } else {
                seq![ProgressEvent::StageChanged(stage), ProgressEvent::Progress(fraction)]
            }
        },
        _ => Seq::empty(),
    }
}

/// The stage after `stats` were seen in `current`.
pub open spec fn stage_after(transfer: Stage, current: Stage, stats: TransferStats) -> Stage {
    match stage_of(transfer, stats) {
        Some(stage) => stage,
        None => current,
    }
}

/// Turns one report of the backend into events; returns them with the stage
/// that the observer is in afterwards.
pub fn transfer_events(transfer: Stage, current: Stage, stats: &TransferStats) -> (out: (
    Vec<ProgressEvent>,
    Stage,
))
    ensures
        out.0@ == transfer_events_of(transfer, current, *stats),
        out.1 == stage_after(transfer, current, *stats),
        forall|i: int|
            0 <= i < out.0@.len() ==> (#[trigger] out.0@[i] matches ProgressEvent::Progress(f)
                ==> f.wf()),
{
    let mut events: Vec<ProgressEvent> = Vec::new();
    if stats.received_objects == stats.total_objects {
        let fraction = Fraction::new(stats.indexed_deltas, stats.total_deltas);
        if current != Stage::ResolvingDeltas {
            events.push(ProgressEvent::StageChanged(Stage::ResolvingDeltas));
        }
        events.push(ProgressEvent::Progress(fraction));
        assert(events@ =~= transfer_events_of(transfer, current, *stats));
        (events, Stage::ResolvingDeltas)
    } else if stats.total_objects > 0 {
        let fraction = Fraction::new(stats.received_objects, stats.total_objects);
        if current != transfer {
            events.push(ProgressEvent::StageChanged(transfer));
        }
        events.push(ProgressEvent::Progress(fraction));
        assert(events@ =~= transfer_events_of(transfer, current, *stats));
        (events, transfer)
    } else {
        (events, current)
    }
}

} // verus!
