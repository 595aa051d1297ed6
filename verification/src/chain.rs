//! The jobs of one target: its destinations, one after the other.

use crate::job::{initial_job, initial_step, MirrorJob, Outcome, OutcomeView, Step};
use crate::target::{
    backup_destination, backup_destination_of, primary_destination, primary_destination_of,
};
use vstd::prelude::*;
use vstd::string::*;

verus! {

/// What a failed destination means for those that follow it.
#[derive(Clone, Copy, Debug, PartialEq, Eq, Structural)]
pub enum ChainPolicy {
    /// Each destination is attempted, whatever became of the ones before.
    Independent,
    /// The destinations after a failed one are skipped.
    Chained,
}

/// A directory to mirror into, and whether the mirror in it is bare.
#[derive(Clone, Debug)]
pub struct Destination {
    pub path: String,
    pub bare: bool,
}

/// What a [`Destination`] stands for in contracts.
pub struct DestinationView {
    pub path: Seq<char>,
    pub bare: bool,
}

impl View for Destination {
    type V = DestinationView;

    open spec fn view(&self) -> DestinationView {
        DestinationView { path: self.path@, bare: self.bare }
    }
}

/// The views of a list of destinations.
pub open spec fn destination_views(list: Seq<Destination>) -> Seq<DestinationView> {
    Seq::new(list.len(), |i: int| list[i]@)
}

/// The destinations of `target`: the primary one under `primary_root`, then,
/// where backups are enabled, a bare one under `backup_root`.
pub open spec fn destinations_of(
    target: Seq<char>,
    primary_root: Seq<char>,
    primary_bare: bool,
    backup_root: Seq<char>,
    backup: bool,
) -> Seq<DestinationView> {
    let primary = DestinationView {
        path: primary_destination_of(primary_root, target),
        bare: primary_bare,
    };
    if backup {
        seq![
            primary,
            DestinationView { path: backup_destination_of(backup_root, target), bare: true },
        ]
    } else {
        seq![primary]
    }
}

/// The destinations of `target`; see [`destinations_of`].
pub fn plan_destinations(
    target: &str,
    primary_root: &str,
    primary_bare: bool,
    backup_root: &str,
    backup: bool,
) -> (list: Vec<Destination>)
    ensures
        destination_views(list@) == destinations_of(
            target@,
            primary_root@,
            primary_bare,
            backup_root@,
            backup,
        ),
        list@.len() == if backup {
            2nat
        } else {
            1nat
        },
{
    let mut list: Vec<Destination> = Vec::new();
    list.push(Destination { path: primary_destination(primary_root, target), bare: primary_bare });
    if backup {
        list.push(Destination { path: backup_destination(backup_root, target), bare: true });
    }
    assert(destination_views(list@) =~= destinations_of(
        target@,
        primary_root@,
        primary_bare,
        backup_root@,
        backup,
    ));
    list
}

/// What precedes the message of a failed destination in the text of a chain's
/// errors, for every destination but the first.
pub const BACKUP_PREFIX: &'static str = " backup: ";

/// The jobs of one target, run one at a time by one worker.
#[derive(Debug)]
pub struct Chain {
    target: String,
    destinations: Vec<Destination>,
    policy: ChainPolicy,
    finished: usize,
    skipped: usize,
    errors: String,
}

/// What a [`Chain`] stands for in contracts.
pub struct ChainView {
    pub target: Seq<char>,
    pub destinations: Seq<DestinationView>,
    pub policy: ChainPolicy,
    /// The number of destinations whose job has ended.
    pub finished: nat,
    /// The number of destinations that were passed over.
    pub skipped: nat,
    /// The messages of the failed destinations so far, as one text.
    pub errors: Seq<char>,
}

impl ChainView {
    /// No more destinations are behind the chain than it has.
    pub open spec fn wf(self) -> bool {
        self.finished + self.skipped <= self.destinations.len()
    }

    /// The number of destinations still to be attempted.
    pub open spec fn remaining(self) -> int {
        self.destinations.len() - self.finished - self.skipped
    }

    /// Nothing is left to attempt.
    pub open spec fn is_done(self) -> bool {
        self.remaining() <= 0
    }

    /// The text of the errors after a job failed with `message`.
    pub open spec fn errors_with(self, message: Seq<char>) -> Seq<char> {
        if self.finished == 0 {
            self.errors + message
        } else {
            self.errors + BACKUP_PREFIX@ + message
        }
    }

    /// The chain after its current job ended with `outcome`.
    pub open spec fn after(self, outcome: OutcomeView) -> ChainView {
        if self.is_done() {
            self
        } else {
            match outcome {
                OutcomeView::Success { .. } => ChainView { finished: self.finished + 1, ..self },
                OutcomeView::Failure { message } => ChainView {
                    finished: self.finished + 1,
                    skipped: if self.policy == ChainPolicy::Chained {
                        (self.destinations.len() - self.finished - 1) as nat
                    } else {
                        self.skipped
                    },
                    errors: self.errors_with(message),
                    ..self
                },
            }
        }
    }
}

/// The chain of a target that has not begun.
pub open spec fn initial_chain(
    target: Seq<char>,
    destinations: Seq<DestinationView>,
    policy: ChainPolicy,
) -> ChainView {
    ChainView { target, destinations, policy, finished: 0, skipped: 0, errors: Seq::empty() }
}

impl View for Chain {
    type V = ChainView;

    closed spec fn view(&self) -> ChainView {
        ChainView {
            target: self.target@,
            destinations: destination_views(self.destinations@),
            policy: self.policy,
            finished: self.finished as nat,
            skipped: self.skipped as nat,
            errors: self.errors@,
        }
    }
}

impl Chain {
    #[verifier::type_invariant]
    spec fn valid(self) -> bool {
        self.finished + self.skipped <= self.destinations@.len()
    }

    /// The chain of `target` over `destinations`, in their order.
    pub fn new(target: &str, destinations: Vec<Destination>, policy: ChainPolicy) -> (c: Chain)
        ensures
            c@ == initial_chain(target@, destination_views(destinations@), policy),
            c@.wf(),
    {
        Chain {
            target: target.to_owned(),
            destinations,
            policy,
            finished: 0,
            skipped: 0,
            errors: String::new(),
        }
    }

    /// The target of the chain.
    pub fn target(&self) -> (t: &str)
        ensures
            t@ == self@.target,
    {
        self.target.as_str()
    }

    /// Whether nothing is left to attempt.
    pub fn is_done(&self) -> (done: bool)
        ensures
            done == self@.is_done(),
            self@.wf(),
    {
        proof {
            use_type_invariant(self);
        }
        let len = self.destinations.len();
        self.finished + self.skipped >= len
    }

    /// The number of destinations whose job has ended.
    pub fn finished(&self) -> (n: usize)
        ensures
            n == self@.finished,
    {
        self.finished
    }

    /// The number of destinations that were passed over after a failure.
    pub fn skipped(&self) -> (n: usize)
        ensures
            n == self@.skipped,
    {
        self.skipped
    }

    /// The messages of the failed destinations so far, as one text: empty while
    /// none has failed.
    pub fn errors(&self) -> (text: &str)
        ensures
            text@ == self@.errors,
    {
        self.errors.as_str()
    }

    /// The job for the next destination, with its first step; `None` once
    /// nothing is left to attempt. The destinations come in their order, the
    /// next one only after the job of the one before has ended.
    pub fn next_job(&self) -> (next: Option<(MirrorJob, Step)>)
        ensures
            self@.wf(),
            next is Some <==> !self@.is_done(),
            next matches Some((job, step)) ==> {
                let destination = self@.destinations[self@.finished as int];
                &&& job@ == initial_job(self@.target, destination.path, destination.bare)
                &&& step@ == initial_step(job@)
            },
    {
        proof {
            use_type_invariant(self);
        }
        let len = self.destinations.len();
        if self.finished + self.skipped >= len {
            return None;
        }
        let destination = &self.destinations[self.finished];
        assert(self@.destinations[self@.finished as int] == destination@);
        Some(MirrorJob::new(self.target.as_str(), destination.path.as_str(), destination.bare))
    }

    /// Tells the chain how the job of its current destination ended. A failure
    /// adds its message to the text of the errors and, in a chained chain, has
    /// the destinations that follow passed over.
    pub fn finish_job(&mut self, outcome: &Outcome)
        ensures
            final(self)@ == old(self)@.after(outcome@),
            final(self)@.wf(),
    {
        proof {
            use_type_invariant(&*self);
        }
        let len = self.destinations.len();
        if self.finished + self.skipped >= len {
            return ;
        }
        match outcome {
            Outcome::Success { .. } => {
                self.finished = self.finished + 1;
            },
            Outcome::Failure { message } => {
                let mut text = self.errors.clone();
                if self.finished > 0 {
                    text.append(BACKUP_PREFIX);
                }
                text.append(message.as_str());
                self.errors = text;
                if self.policy == ChainPolicy::Chained {
                    self.skipped = self.destinations.len() - self.finished - 1;
                }
                self.finished = self.finished + 1;
            },
        }
    }
}

/// A chain that is done has accounted for each of its destinations once: as
/// one whose job has ended, or as one passed over.
pub proof fn lemma_chain_accounts(chain: ChainView)
    requires
        chain.wf(),
        chain.is_done(),
    ensures
        chain.finished + chain.skipped == chain.destinations.len(),
{
}

/// A chain attempts its destinations in order and ends: each job that ends
/// leaves fewer to attempt, and a chained chain attempts none after a failure.
pub proof fn lemma_chain_progress(chain: ChainView, outcome: OutcomeView)
    requires
        chain.wf(),
        !chain.is_done(),
    ensures
        chain.after(outcome).wf(),
        chain.after(outcome).remaining() < chain.remaining(),
        chain.after(outcome).finished == chain.finished + 1,
        chain.policy == ChainPolicy::Chained && outcome is Failure ==> chain.after(
            outcome,
        ).is_done(),
        chain.policy == ChainPolicy::Independent ==> chain.after(outcome).skipped == chain.skipped,
        outcome is Success ==> chain.after(outcome).errors == chain.errors,
{
}

} // verus!
