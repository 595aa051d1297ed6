//! One run over a list of targets: admission, the chain of each target, and the
//! report. The caller runs the chains on workers of its own and hands back what
//! they produce.

use crate::chain::{destinations_of, plan_destinations, Chain, ChainPolicy, ChainView, initial_chain};
use crate::job::{
    fetch_inputs, initial_job, lemma_fetch_reports_change, results_run, JobResult, JobResultView,
    OutcomeView,
};
use crate::report::{
    aggregate, failures, found_updated, lemma_aggregate, successes, Aggregator, AggregatorView,
    RunReport,
};
use crate::target::{
    backup_destination, backup_destination_of, primary_destination, primary_destination_of,
    INVALID,
};
use crate::text::all_distinct;
use crate::scheduler::{Admission, Scheduler, SchedulerView, initial_scheduler};
use vstd::prelude::*;
use vstd::string::*;

verus! {

/// How a run is laid out.
#[derive(Clone, Debug)]
pub struct RunOptions {
    /// The directory under which the primary mirrors stand.
    pub primary_root: String,
    /// Whether the primary mirrors are bare.
    pub primary_bare: bool,
    /// The directory under which the backup mirrors stand.
    pub backup_root: String,
    /// Whether each target is mirrored into a backup as well.
    pub backup: bool,
    /// The ceiling on targets in flight.
    pub limit: Option<usize>,
    /// What a failed destination means for the backup of its target.
    pub policy: ChainPolicy,
}

/// What a [`RunOptions`] stands for in contracts.
pub struct OptionsView {
    pub primary_root: Seq<char>,
    pub primary_bare: bool,
    pub backup_root: Seq<char>,
    pub backup: bool,
    pub limit: Option<nat>,
    pub policy: ChainPolicy,
}

impl View for RunOptions {
    type V = OptionsView;

    open spec fn view(&self) -> OptionsView {
        OptionsView {
            primary_root: self.primary_root@,
            primary_bare: self.primary_bare,
            backup_root: self.backup_root@,
            backup: self.backup,
            limit: match self.limit {
                Some(n) => Some(n as nat),
                None => None,
            },
            policy: self.policy,
        }
    }
}

impl OptionsView {
    /// The number of destinations of each target.
    pub open spec fn destinations_per_target(self) -> nat {
        if self.backup {
            2
        } else {
            1
        }
    }

    /// The chain of `target` before it has begun.
    pub open spec fn chain_of(self, target: Seq<char>) -> ChainView {
        initial_chain(
            target,
            destinations_of(
                target,
                self.primary_root,
                self.primary_bare,
                self.backup_root,
                self.backup,
            ),
            self.policy,
        )
    }
}

/// What the engine tells its caller to do next.
#[derive(Debug)]
pub enum Directive {
    /// Run this chain, the one of the target with this index, on a worker.
    Launch { index: usize, chain: Chain },
    /// As many targets run as may; ask again after a short sleep.
    Wait,
    /// Every target has been launched.
    Drained,
}

/// The state of one run.
#[derive(Debug)]
pub struct Engine {
    targets: Vec<String>,
    options: RunOptions,
    scheduler: Scheduler,
    aggregator: Aggregator,
}

/// What an [`Engine`] stands for in contracts.
pub struct EngineView {
    pub targets: Seq<Seq<char>>,
    pub options: OptionsView,
    pub scheduler: SchedulerView,
    pub aggregator: AggregatorView,
}

impl EngineView {
    /// The parts of the engine fit together.
    pub open spec fn wf(self) -> bool {
        &&& self.scheduler.wf()
        &&& self.scheduler.total == self.targets.len()
        &&& self.scheduler.limit == self.options.limit
        &&& self.aggregator.wf()
    }

    /// Every target has been launched and has ended.
    pub open spec fn is_finished(self) -> bool {
        self.scheduler.is_done()
    }

    /// A result has been recorded for every job that the run expects.
    pub open spec fn is_complete(self) -> bool {
        self.aggregator.is_complete()
    }

    /// Whether `result` is taken: the run still waits for results, and none has
    /// come for the same target and destination.
    pub open spec fn takes(self, result: JobResultView) -> bool {
        !self.aggregator.is_complete() && !self.aggregator.has(result.target, result.destination)
    }

    /// Whether the end of a chain that passed over `skipped` destinations is
    /// taken: a target is in flight, and the run waits for that many results at
    /// least.
    pub open spec fn takes_chain_end(self, skipped: nat) -> bool {
        self.scheduler.in_flight() > 0 && self.aggregator.results.len() + skipped
            <= self.aggregator.total_jobs
    }

    /// The engine after it was handed `result`: a result that is taken joins the
    /// results, and nothing else changes.
    pub open spec fn recorded(self, result: JobResultView) -> EngineView {
        if self.takes(result) {
            EngineView {
                aggregator: AggregatorView {
                    results: self.aggregator.results.push(result),
                    ..self.aggregator
                },
                ..self
            }
        } else {
            self
        }
    }

    /// The engine after it was told of the end of a chain that passed over
    /// `skipped` destinations: where the end is taken, a target leaves the
    /// flight and the run waits for `skipped` results fewer.
    pub open spec fn chain_ended(self, skipped: nat) -> EngineView {
        if self.takes_chain_end(skipped) {
            EngineView {
                scheduler: self.scheduler.completed(),
                aggregator: AggregatorView {
                    total_jobs: (self.aggregator.total_jobs - skipped) as nat,
                    ..self.aggregator
                },
                ..self
            }
        } else {
            self
        }
    }
}

/// The directories that `target` is mirrored into.
pub open spec fn paths_of(target: Seq<char>, options: OptionsView) -> Seq<Seq<char>> {
    if options.backup {
        seq![
            primary_destination_of(options.primary_root, target),
            backup_destination_of(options.backup_root, target),
        ]
    } else {
        seq![primary_destination_of(options.primary_root, target)]
    }
}

/// The directories that `targets` are mirrored into, in the order of the targets.
pub open spec fn planned_paths(targets: Seq<Seq<char>>, options: OptionsView) -> Seq<Seq<char>>
    decreases targets.len(),
{
    if targets.len() == 0 {
        Seq::empty()
    } else {
        planned_paths(targets.drop_last(), options) + paths_of(targets.last(), options)
    }
}

/// The engine of a run that has not begun.
pub open spec fn initial_engine(targets: Seq<Seq<char>>, options: OptionsView) -> EngineView {
    EngineView {
        targets,
        options,
        scheduler: initial_scheduler(targets.len(), options.limit),
        aggregator: AggregatorView {
            total_jobs: targets.len() * options.destinations_per_target(),
            results: Seq::empty(),
        },
    }
}

impl View for Engine {
    type V = EngineView;

    closed spec fn view(&self) -> EngineView {
        EngineView {
            targets: self.targets.deep_view(),
            options: self.options@,
            scheduler: self.scheduler@,
            aggregator: self.aggregator@,
        }
    }
}

impl Engine {
    /// The engine keeps what it was given.
    pub closed spec fn wf(&self) -> bool {
        &&& self@.wf()
        &&& self.aggregator.wf()
    }

    /// An engine for one run over `targets`. The run expects one result for each
    /// destination of each target; their number must fit the machine's word.
    pub fn new(targets: Vec<String>, options: RunOptions) -> (engine: Engine)
        requires
            options.backup ==> targets@.len() * 2 <= usize::MAX,
        ensures
            engine.wf(),
            engine@ == initial_engine(targets.deep_view(), options@),
    {
        let count: usize = targets.len();
        let total: usize = if options.backup {
            count * 2
        } else {
            count
        };
        let scheduler = Scheduler::new(count, options.limit);
        let aggregator = Aggregator::new(total);
        Engine { targets, options, scheduler, aggregator }
    }

    /// The number of targets of the run.
    pub fn target_count(&self) -> (n: usize)
        ensures
            n == self@.targets.len(),
    {
        self.targets.len()
    }

    /// The number of targets in flight.
    pub fn in_flight(&self) -> (n: usize)
        ensures
            n == self@.scheduler.in_flight(),
            self@.scheduler.limit matches Some(limit) ==> n <= limit,
    {
        self.scheduler.in_flight()
    }

    /// Asks what to do next. A target is launched where the limit leaves room,
    /// in the order of the list, with the chain of its destinations.
    pub fn poll(&mut self) -> (directive: Directive)
        requires
            old(self).wf(),
        ensures
            final(self).wf(),
            final(self)@ == (EngineView { scheduler: old(self)@.scheduler.polled(), ..old(self)@ }),
            match old(self)@.scheduler.admission() {
                Admission::Dispatch(i) => directive matches Directive::Launch { index, chain }
                    && index == i && i < old(self)@.targets.len() && chain@ == old(
                    self,
                )@.options.chain_of(old(self)@.targets[i as int]),
                Admission::Wait => directive is Wait,
                Admission::Drained => directive is Drained,
            },
    {
        match self.scheduler.poll() {
            Admission::Dispatch(index) => {
                let target = self.targets[index].as_str();
                let destinations = plan_destinations(
                    target,
                    self.options.primary_root.as_str(),
                    self.options.primary_bare,
                    self.options.backup_root.as_str(),
                    self.options.backup,
                );
                let chain = Chain::new(target, destinations, self.options.policy);
                Directive::Launch { index, chain }
            },
            Admission::Wait => Directive::Wait,
            Admission::Drained => Directive::Drained,
        }
    }

    /// Hands the engine the result of one job. Returns whether it was taken: a
    /// result is refused where the run waits for none, or has one for the same
    /// target and destination already.
    pub fn record(&mut self, result: JobResult) -> (taken: bool)
        requires
            old(self).wf(),
        ensures
            final(self).wf(),
            taken == old(self)@.takes(result@),
            final(self)@ == old(self)@.recorded(result@),
    {
        if self.aggregator.is_complete() {
            return false;
        }
        if self.aggregator.is_recorded(result.target.as_str(), result.destination.as_str()) {
            return false;
        }
        self.aggregator.record(result);
        true
    }

    /// Tells the engine that the chain of a target in flight has ended, having
    /// passed over `skipped` of its destinations. The target leaves the flight,
    /// and the run no longer waits for results of the destinations passed over.
    /// Returns whether the end was taken.
    pub fn chain_done(&mut self, skipped: usize) -> (taken: bool)
        requires
            old(self).wf(),
        ensures
            final(self).wf(),
            taken == old(self)@.takes_chain_end(skipped as nat),
            final(self)@ == old(self)@.chain_ended(skipped as nat),
    {
        if self.scheduler.in_flight() == 0 || !self.aggregator.can_forgo(skipped) {
            return false;
        }
        self.scheduler.complete();
        self.aggregator.forgo(skipped);
        true
    }

    /// The directories that the run mirrors into, in the order of the targets.
    pub fn destinations(&self) -> (paths: Vec<String>)
        ensures
            paths.deep_view() == planned_paths(self@.targets, self@.options),
    {
        let mut paths: Vec<String> = Vec::new();
        let mut i: usize = 0;
        proof {
            assert(self@.targets.subrange(0, 0) =~= Seq::<Seq<char>>::empty());
            assert(paths.deep_view() =~= Seq::<Seq<char>>::empty());
        }
        while i < self.targets.len()
            invariant
                i <= self.targets.len(),
                self@.targets == self.targets.deep_view(),
                self@.options == self.options@,
                paths.deep_view() == planned_paths(
                    self@.targets.subrange(0, i as int),
                    self@.options,
                ),
            decreases self.targets.len() - i,
        {
            let ghost before = paths.deep_view();
            let ghost prefix = self@.targets.subrange(0, i as int + 1);
            proof {
                assert(prefix.drop_last() =~= self@.targets.subrange(0, i as int));
                assert(prefix.last() == self.targets@[i as int]@);
            }
            let target = self.targets[i].as_str();
            paths.push(primary_destination(self.options.primary_root.as_str(), target));
            if self.options.backup {
                paths.push(backup_destination(self.options.backup_root.as_str(), target));
            }
            proof {
                assert(paths.deep_view() =~= before + paths_of(target@, self@.options));
            }
            i = i + 1;
        }
        proof {
            assert(self@.targets.subrange(0, self.targets.len() as int) =~= self@.targets);
        }
        paths
    }

    /// Whether the run mirrors into each directory once. Two targets that share
    /// a directory would overwrite each other; the caller turns such a list down.
    pub fn has_distinct_destinations(&self) -> (distinct: bool)
        ensures
            distinct == planned_paths(self@.targets, self@.options).no_duplicates(),
    {
        let paths = self.destinations();
        all_distinct(&paths)
    }

    /// Whether every target has been launched and has ended.
    pub fn is_finished(&self) -> (done: bool)
        ensures
            done == self@.is_finished(),
    {
        self.scheduler.is_done()
    }

    /// Whether a result has been recorded for every job that the run expects.
    pub fn is_complete(&self) -> (done: bool)
        requires
            self.wf(),
        ensures
            done == self@.is_complete(),
    {
        self.aggregator.is_complete()
    }

    /// The report of a run that is complete.
    pub fn finalize(&self) -> (report: RunReport)
        requires
            self.wf(),
            self@.is_complete(),
        ensures
            report@ == self@.aggregator.report(),
            report@.completed_count + report@.error_count == self@.aggregator.total_jobs,
            report@.error_messages.len() == report@.error_count,
    {
        self.aggregator.finalize()
    }
}

/// The failure of one job touches no other: whatever a result says, recording
/// it leaves the targets, their admission and the results of the other jobs as
/// they were, and adds at most one result.
pub proof fn lemma_results_are_isolated(engine: EngineView, result: JobResultView)
    requires
        engine.wf(),
    ensures
        engine.recorded(result).wf(),
        engine.recorded(result).targets == engine.targets,
        engine.recorded(result).options == engine.options,
        engine.recorded(result).scheduler == engine.scheduler,
        engine.recorded(result).scheduler.admission() == engine.scheduler.admission(),
        engine.recorded(result).aggregator.total_jobs == engine.aggregator.total_jobs,
        engine.recorded(result).aggregator.results.len() <= engine.aggregator.results.len() + 1,
        forall|i: int|
            0 <= i < engine.aggregator.results.len() ==> engine.recorded(
                result,
            ).aggregator.results[i] == engine.aggregator.results[i],
{
    if engine.takes(result) {
        let before = engine.aggregator.results;
        let after = engine.recorded(result).aggregator.results;
        lemma_aggregate(before);
        assert forall|i: int, j: int| 0 <= i < j < after.len() implies !((
        #[trigger] after[i]).target == (#[trigger] after[j]).target && after[i].destination
            == after[j].destination) by {
            if j < before.len() {
                assert(after[i] == before[i] && after[j] == before[j]);
            } else {
                assert(after[i] == before[i]);
            }
        }
    }
}

/// Under a limit, whatever the engine is asked and told, no more targets are in
/// flight than the limit allows.
pub proof fn lemma_engine_keeps_the_limit(engine: EngineView, result: JobResultView, skipped: nat)
    requires
        engine.wf(),
    ensures
        (EngineView { scheduler: engine.scheduler.polled(), ..engine }).wf(),
        engine.recorded(result).wf(),
        engine.chain_ended(skipped).wf(),
        engine.scheduler.limit matches Some(n) ==> engine.scheduler.polled().in_flight() <= n
            && engine.recorded(result).scheduler.in_flight() <= n && engine.chain_ended(
            skipped,
        ).scheduler.in_flight() <= n,
{
    lemma_results_are_isolated(engine, result);
}

/// What one chain hands in by the time it ends: the results of its jobs, and
/// the number of destinations that it passed over.
pub struct ChainYield {
    pub results: Seq<JobResultView>,
    pub skipped: nat,
}

/// The aggregator after each of `chains` has handed in what it yields.
pub open spec fn settled(start: AggregatorView, chains: Seq<ChainYield>) -> AggregatorView
    decreases chains.len(),
{
    if chains.len() == 0 {
        start
    } else {
        let before = settled(start, chains.drop_last());
        AggregatorView {
            total_jobs: (before.total_jobs - chains.last().skipped) as nat,
            results: before.results + chains.last().results,
        }
    }
}

/// A run whose chains have all ended is complete. Each chain accounts for each
/// of its destinations once, with a result or as passed over; once every target
/// has handed in what its chain yields, the run waits for nothing, whatever the
/// order and whatever failed.
pub proof fn lemma_run_completes(
    targets: Seq<Seq<char>>,
    options: OptionsView,
    chains: Seq<ChainYield>,
)
    requires
        chains.len() == targets.len(),
        forall|i: int|
            0 <= i < chains.len() ==> (#[trigger] chains[i]).results.len() + chains[i].skipped
                == options.destinations_per_target(),
    ensures
        settled(initial_engine(targets, options).aggregator, chains).is_complete(),
        settled(initial_engine(targets, options).aggregator, chains).report().completed_count
            + settled(initial_engine(targets, options).aggregator, chains).report().error_count
            == settled(initial_engine(targets, options).aggregator, chains).results.len(),
{
    let start = initial_engine(targets, options).aggregator;
    lemma_settled(start, options.destinations_per_target(), chains);
    lemma_aggregate(settled(start, chains).results);
    assert(targets.len() * options.destinations_per_target() == chains.len()
        * options.destinations_per_target());
}

/// After `chains` have handed in what they yield, the run waits for as many
/// results fewer as they had destinations.
proof fn lemma_settled(start: AggregatorView, per: nat, chains: Seq<ChainYield>)
    requires
        start.results.len() == 0,
        start.total_jobs >= chains.len() * per,
        forall|i: int|
            0 <= i < chains.len() ==> (#[trigger] chains[i]).results.len() + chains[i].skipped
                == per,
    ensures
        settled(start, chains).total_jobs - settled(start, chains).results.len()
            == start.total_jobs - chains.len() * per,
        settled(start, chains).results.len() <= chains.len() * per,
    decreases chains.len(),
{
    if chains.len() > 0 {
        let front = chains.drop_last();
        assert(front.len() * per + per == chains.len() * per) by (nonlinear_arith)
            requires
                front.len() + 1 == chains.len(),
        ;
        assert forall|i: int| 0 <= i < front.len() implies (#[trigger] front[i]).results.len()
            + front[i].skipped == per by {
            assert(front[i] == chains[i]);
        }
        lemma_settled(start, per, front);
        assert(chains.last() == chains[chains.len() - 1]);
    } else {
        assert(chains.len() * per == 0) by (nonlinear_arith)
            requires
                chains.len() == 0,
        ;
    }
}

/// What a job comes to when it is run again while nothing has changed, for a
/// job that came to `first` before: a job that failed fails again; a job that
/// ended well finds its destination, fetches, and finds the ref it watches
/// where it was. The first half is the backend's to keep: the library takes it
/// as given.
pub open spec fn rerun_unchanged(first: JobResultView, second: JobResultView) -> bool {
    &&& first.outcome is Failure ==> second.outcome is Failure
    &&& first.outcome is Success ==> first.target != INVALID@ && exists|bare: bool, head: Seq<u8>|
        #[trigger] results_run(
            initial_job(first.target, first.destination, bare),
            fetch_inputs(head, head),
        ) == seq![second]
}

/// Each job of `second` is the rerun of the job of `first` in its place.
pub open spec fn reruns_unchanged(first: Seq<JobResultView>, second: Seq<JobResultView>) -> bool {
    &&& second.len() == first.len()
    &&& forall|i: int| 0 <= i < first.len() ==> rerun_unchanged(#[trigger] first[i], second[i])
}

/// A second run against remotes that have not changed reports no update and the
/// counts of the first run: where every job that failed fails again and every
/// other job fetches and finds nothing moved, the report of the second run
/// lists no updated target and counts as many errors and as many completed jobs
/// as the report of the first.
pub proof fn lemma_unchanged_rerun(first: Seq<JobResultView>, second: Seq<JobResultView>)
    requires
        reruns_unchanged(first, second),
    ensures
        aggregate(second).error_count == aggregate(first).error_count,
        aggregate(second).completed_count == aggregate(first).completed_count,
        aggregate(second).error_messages.len() == aggregate(first).error_messages.len(),
        aggregate(second).updated_targets.len() == 0,
        forall|i: int|
            0 <= i < second.len() && (#[trigger] first[i]).outcome is Success ==> second[i].outcome
                == (OutcomeView::Success { updated: false }),
{
    assert forall|i: int| 0 <= i < second.len() implies ((#[trigger] first[i]).outcome is Success
        ==> second[i].outcome == (OutcomeView::Success { updated: false })) && (
    first[i].outcome is Failure ==> second[i].outcome is Failure) by {
        assert(rerun_unchanged(first[i], second[i]));
        if first[i].outcome is Success {
            let (bare, head) = choose|bare: bool, head: Seq<u8>|
                #[trigger] results_run(
                    initial_job(first[i].target, first[i].destination, bare),
                    fetch_inputs(head, head),
                ) == seq![second[i]];
            lemma_fetch_reports_change(first[i].target, first[i].destination, bare, head, head);
            let results = results_run(
                initial_job(first[i].target, first[i].destination, bare),
                fetch_inputs(head, head),
            );
            assert(results[0] == second[i]);
        }
    }
    lemma_counts_follow_kinds(first, second);
    lemma_aggregate(first);
    lemma_aggregate(second);
    let updated = aggregate(second).updated_targets;
    if updated.len() > 0 {
        assert(updated.contains(updated[0]));
        assert(found_updated(second, updated[0]));
        let k = choose|k: int|
            0 <= k < second.len() && (#[trigger] second[k]).target == updated[0]
                && second[k].outcome == (OutcomeView::Success { updated: true });
        assert(first[k].outcome is Success || first[k].outcome is Failure);
    }
}

/// Two runs whose jobs end alike, one by one, count alike.
proof fn lemma_counts_follow_kinds(a: Seq<JobResultView>, b: Seq<JobResultView>)
    requires
        a.len() == b.len(),
        forall|i: int|
            0 <= i < a.len() ==> ((#[trigger] a[i]).outcome is Success <==> b[i].outcome is Success),
    ensures
        successes(a) == successes(b),
        failures(a) == failures(b),
    decreases a.len(),
{
    if a.len() > 0 {
        let front_a = a.drop_last();
        let front_b = b.drop_last();
        assert forall|i: int| 0 <= i < front_a.len() implies ((#[trigger] front_a[i]).outcome is Success
            <==> front_b[i].outcome is Success) by {
            assert(front_a[i] == a[i] && front_b[i] == b[i]);
        }
        lemma_counts_follow_kinds(front_a, front_b);
        assert(a.last() == a[a.len() - 1] && b.last() == b[b.len() - 1]);
    }
}

} // verus!
