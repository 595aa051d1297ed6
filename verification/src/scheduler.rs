//! Admission of targets under a ceiling on how many run at once.

use vstd::prelude::*;

verus! {

/// How long a caller that was told to wait sleeps before it asks again, in
/// milliseconds.
pub const POLL_INTERVAL_MS: u64 = 50;

/// What the scheduler tells its caller.
#[derive(Clone, Copy, Debug, PartialEq, Eq, Structural)]
pub enum Admission {
    /// Launch the target with this index now.
    Dispatch(usize),
    /// As many targets run as may; ask again after one has ended.
    Wait,
    /// Every target has been launched.
    Drained,
}

/// Admits the targets of a run, in the order submitted.
#[derive(Clone, Copy, Debug)]
pub struct Scheduler {
    limit: Option<usize>,
    total: usize,
    dispatched: usize,
    finished: usize,
}

/// What a [`Scheduler`] stands for in contracts.
pub struct SchedulerView {
    /// The ceiling on targets in flight; `None` where there is none.
    pub limit: Option<nat>,
    /// The number of targets of the run.
    pub total: nat,
    /// The number of targets launched so far.
    pub dispatched: nat,
    /// The number of launched targets that have ended.
    pub finished: nat,
}

impl SchedulerView {
    /// The number of targets that have been launched and have not ended.
    pub open spec fn in_flight(self) -> int {
        self.dispatched - self.finished
    }

    /// Another target may be launched without passing the ceiling.
    pub open spec fn has_room(self) -> bool {
        match self.limit {
            None => true,
            Some(n) => self.in_flight() < n,
        }
    }

    /// No more targets have ended than were launched, no more were launched than
    /// there are, and no more are in flight than the ceiling allows.
    pub open spec fn wf(self) -> bool {
        &&& self.finished <= self.dispatched <= self.total
        &&& self.limit matches Some(n) ==> self.in_flight() <= n
    }

    /// Every target has been launched and has ended.
    pub open spec fn is_done(self) -> bool {
        self.finished == self.total
    }

    /// What the scheduler answers when asked.
    pub open spec fn admission(self) -> Admission {
        if self.dispatched >= self.total {
            Admission::Drained
        } else if self.has_room() {
            Admission::Dispatch(self.dispatched as usize)
        } else {
            Admission::Wait
        }
    }

    /// The scheduler after it was asked.
    pub open spec fn polled(self) -> SchedulerView {
        if self.dispatched < self.total && self.has_room() {
            SchedulerView { dispatched: self.dispatched + 1, ..self }
        } else {
            self
        }
    }

    /// The scheduler after it was told that a target has ended: it counts the
    /// target where one is in flight.
    pub open spec fn completed(self) -> SchedulerView {
        if self.in_flight() > 0 {
            SchedulerView { finished: self.finished + 1, ..self }
        } else {
            self
        }
    }
}

/// The scheduler of a run that has not begun.
pub open spec fn initial_scheduler(total: nat, limit: Option<nat>) -> SchedulerView {
    SchedulerView { limit, total, dispatched: 0, finished: 0 }
}

impl View for Scheduler {
    type V = SchedulerView;

    closed spec fn view(&self) -> SchedulerView {
        SchedulerView {
            limit: match self.limit {
                Some(n) => Some(n as nat),
                None => None,
            },
            total: self.total as nat,
            dispatched: self.dispatched as nat,
            finished: self.finished as nat,
        }
    }
}

impl Scheduler {
    #[verifier::type_invariant]
    spec fn valid(self) -> bool {
        self@.wf()
    }

    /// A scheduler for `total` targets of which at most `limit` run at once;
    /// without a limit all of them may.
    pub fn new(total: usize, limit: Option<usize>) -> (s: Scheduler)
        ensures
            s@ == initial_scheduler(
                total as nat,
                match limit {
                    Some(n) => Some(n as nat),
                    None => None,
                },
            ),
            s@.wf(),
    {
        Scheduler { limit, total, dispatched: 0, finished: 0 }
    }

    /// The number of targets in flight.
    pub fn in_flight(&self) -> (n: usize)
        ensures
            n == self@.in_flight(),
            self@.wf(),
            self@.limit matches Some(limit) ==> n <= limit,
    {
        proof {
            use_type_invariant(self);
        }
        self.dispatched - self.finished
    }

    /// Whether every target has been launched and has ended.
    pub fn is_done(&self) -> (done: bool)
        ensures
            done == self@.is_done(),
            self@.wf(),
    {
        proof {
            use_type_invariant(self);
        }
        self.finished == self.total
    }

    /// Asks for the next target. The scheduler admits the targets in the order
    /// submitted, one for each call, as long as fewer are in flight than the
    /// limit allows; it says `Wait` while the limit is reached and `Drained`
    /// once all have been launched.
    pub fn poll(&mut self) -> (admission: Admission)
        ensures
            admission == old(self)@.admission(),
            final(self)@ == old(self)@.polled(),
            final(self)@.wf(),
    {
        proof {
            use_type_invariant(&*self);
        }
        if self.dispatched >= self.total {
            return Admission::Drained;
        }
        let room = match self.limit {
            None => true,
            Some(n) => self.dispatched - self.finished < n,
        };
        if room {
            let index = self.dispatched;
            self.dispatched = self.dispatched + 1;
            Admission::Dispatch(index)
        } else {
            Admission::Wait
        }
    }

    /// Tells the scheduler that a target in flight has ended, with all its
    /// destinations. Returns whether one was in flight.
    pub fn complete(&mut self) -> (counted: bool)
        ensures
            counted == (old(self)@.in_flight() > 0),
            final(self)@ == old(self)@.completed(),
            final(self)@.wf(),
    {
        proof {
            use_type_invariant(&*self);
        }
        if self.dispatched > self.finished {
            self.finished = self.finished + 1;
            true
        } else {
            false
        }
    }
}

/// What happens to a scheduler: it is asked for a target, or told that one ended.
pub enum Occurrence {
    Poll,
    Complete,
}

/// The scheduler after `occurrences`, in order.
pub open spec fn scheduler_run(start: SchedulerView, occurrences: Seq<Occurrence>) -> SchedulerView
    decreases occurrences.len(),
{
    if occurrences.len() == 0 {
        start
    } else {
        let before = scheduler_run(start, occurrences.drop_last());
        match occurrences.last() {
            Occurrence::Poll => before.polled(),
            Occurrence::Complete => before.completed(),
        }
    }
}

/// Asking and telling keep a scheduler well-formed.
pub proof fn lemma_steps_keep_wf(s: SchedulerView)
    requires
        s.wf(),
    ensures
        s.polled().wf(),
        s.completed().wf(),
{
}

/// Under a limit of `n`, whatever the order in which targets are asked for and
/// end, at no point are more than `n` of them in flight.
pub proof fn lemma_concurrency_bound(total: nat, n: nat, occurrences: Seq<Occurrence>)
    ensures
        scheduler_run(initial_scheduler(total, Some(n)), occurrences).wf(),
        0 <= scheduler_run(initial_scheduler(total, Some(n)), occurrences).in_flight() <= n,
        scheduler_run(initial_scheduler(total, Some(n)), occurrences).limit == Some(n),
    decreases occurrences.len(),
{
    if occurrences.len() > 0 {
        lemma_concurrency_bound(total, n, occurrences.drop_last());
    }
}

/// Without a limit every target is launched when asked for: the scheduler never
/// says `Wait`.
pub proof fn lemma_unbounded_never_waits(s: SchedulerView)
    requires
        s.limit is None,
    ensures
        s.admission() != Admission::Wait,
{
}

/// No target starves. A scheduler says `Wait` only while targets are in flight,
/// as many as the limit; once one of them has ended, the next target in the
/// order submitted is launched. (A limit of zero admits nothing.)
pub proof fn lemma_no_starvation(s: SchedulerView)
    requires
        s.wf(),
        s.limit != Some(0nat),
        s.admission() == Admission::Wait,
    ensures
        s.in_flight() > 0,
        s.limit == Some(s.in_flight() as nat),
        s.completed().admission() == Admission::Dispatch(s.dispatched as usize),
        s.polled() == s,
{
}

/// Targets are launched in the order submitted: a launch hands out the index
/// that follows the one handed out before.
pub proof fn lemma_dispatch_in_order(s: SchedulerView)
    requires
        s.wf(),
        s.total <= usize::MAX,
    ensures
        s.admission() matches Admission::Dispatch(index) ==> index == s.dispatched
            && s.polled().dispatched == s.dispatched + 1,
        s.admission() is Drained <==> s.dispatched == s.total,
{
}

} // verus!
