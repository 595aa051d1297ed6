//! The outcome of a run: job results collected into counts and lists.

use crate::job::{JobResult, JobResultView, Outcome, OutcomeView};
use crate::text::{clone_texts, contains_text, has_substring, occurs_at};
use crate::target::{display_name_of, names_target, strip_slash};
use crate::util::{lemma_last_slash, name_of};
use vstd::prelude::*;
use vstd::string::*;

verus! {

/// What a run came to.
#[derive(Debug)]
pub struct RunReport {
    /// The jobs that ended well.
    pub completed_count: usize,
    /// The jobs that failed.
    pub error_count: usize,
    /// The targets that a fetch found changed, each once, in the order found.
    pub updated_targets: Vec<String>,
    /// One line for each failed job, in the order recorded.
    pub error_messages: Vec<String>,
}

/// What a [`RunReport`] stands for in contracts.
pub struct ReportView {
    pub completed_count: nat,
    pub error_count: nat,
    pub updated_targets: Seq<Seq<char>>,
    pub error_messages: Seq<Seq<char>>,
}

impl View for RunReport {
    type V = ReportView;

    open spec fn view(&self) -> ReportView {
        ReportView {
            completed_count: self.completed_count as nat,
            error_count: self.error_count as nat,
            updated_targets: self.updated_targets.deep_view(),
            error_messages: self.error_messages.deep_view(),
        }
    }
}

/// The report of a run in which nothing has ended yet.
pub open spec fn empty_report() -> ReportView {
    ReportView {
        completed_count: 0,
        error_count: 0,
        updated_targets: Seq::empty(),
        error_messages: Seq::empty(),
    }
}

/// The line that reports a failure: the target, a colon, a space, the message.
pub open spec fn error_line(target: Seq<char>, message: Seq<char>) -> Seq<char> {
    target + seq![':', ' '] + message
}

/// The line of a failure names the failed target and says what went wrong: it
/// holds the target, with it the display name of a target that has one of its
/// own, and the message.
pub proof fn lemma_error_line(target: Seq<char>, message: Seq<char>)
    ensures
        occurs_at(error_line(target, message), target, 0),
        names_target(target) ==> has_substring(
            error_line(target, message),
            display_name_of(target),
        ),
        occurs_at(error_line(target, message), message, target.len() as int + 2),
        has_substring(error_line(target, message), message),
{
    let line = error_line(target, message);
    let end = target.len() as int;
    assert(line.subrange(0, end) =~= target);
    if names_target(target) {
        let stored = strip_slash(target);
        let name = name_of(stored);
        let stop = stored.len() as int;
        lemma_last_slash(stored);
        assert(line.subrange(stop - name.len(), stop) =~= name);
        assert(occurs_at(line, name, stop - name.len()));
    }
    assert(line.subrange(end + 2, end + 2 + message.len()) =~= message);
    assert(occurs_at(line, message, end + 2));
}

/// The report after one more result.
pub open spec fn report_after(report: ReportView, result: JobResultView) -> ReportView {
    match result.outcome {
        OutcomeView::Success { updated } => ReportView {
            completed_count: report.completed_count + 1,
            updated_targets: if updated && !report.updated_targets.contains(result.target) {
                report.updated_targets.push(result.target)
            } else {
                report.updated_targets
            },
            ..report
        },
        OutcomeView::Failure { message } => ReportView {
            error_count: report.error_count + 1,
            error_messages: report.error_messages.push(error_line(result.target, message)),
            ..report
        },
    }
}

/// The report of `results`, recorded in order.
pub open spec fn aggregate(results: Seq<JobResultView>) -> ReportView
    decreases results.len(),
{
    if results.len() == 0 {
        empty_report()
    } else {
        report_after(aggregate(results.drop_last()), results.last())
    }
}

/// How many of `results` are successes.
pub open spec fn successes(results: Seq<JobResultView>) -> nat
    decreases results.len(),
{
    if results.len() == 0 {
        0
    } else if results.last().outcome is Success {
        successes(results.drop_last()) + 1
    } else {
        successes(results.drop_last())
    }
}

/// How many of `results` are failures.
pub open spec fn failures(results: Seq<JobResultView>) -> nat
    decreases results.len(),
{
    if results.len() == 0 {
        0
    } else if results.last().outcome is Failure {
        failures(results.drop_last()) + 1
    } else {
        failures(results.drop_last())
    }
}

/// `target` was found changed by one of `results`.
pub open spec fn found_updated(results: Seq<JobResultView>, target: Seq<char>) -> bool {
    exists|i: int|
        0 <= i < results.len() && (#[trigger] results[i]).target == target && results[i].outcome
            == (OutcomeView::Success { updated: true })
}

/// Whatever the mixture of successes and failures and whatever their order: the
/// report counts each result once, as a success or as a failure, holds one line
/// for each failure, and lists exactly the targets found changed, none twice.
pub proof fn lemma_aggregate(results: Seq<JobResultView>)
    ensures
        aggregate(results).completed_count == successes(results),
        aggregate(results).error_count == failures(results),
        aggregate(results).error_messages.len() == failures(results),
        successes(results) + failures(results) == results.len(),
        aggregate(results).updated_targets.no_duplicates(),
        forall|t: Seq<char>| #[trigger]
            aggregate(results).updated_targets.contains(t) <==> found_updated(results, t),
    decreases results.len(),
{
    if results.len() > 0 {
        let front = results.drop_last();
        let last = results.last();
        lemma_aggregate(front);
        let before = aggregate(front).updated_targets;
        let after = aggregate(results).updated_targets;
        assert forall|t: Seq<char>| #[trigger] after.contains(t) <==> found_updated(results, t) by {
            if after.contains(t) {
                if before.contains(t) {
                    assert(found_updated(front, t));
                    let i = choose|i: int|
                        0 <= i < front.len() && (#[trigger] front[i]).target == t
                            && front[i].outcome == (OutcomeView::Success { updated: true });
                    assert(results[i] == front[i]);
                } else {
                    let k = choose|k: int| 0 <= k < after.len() && after[k] == t;
                    if k < before.len() {
                        assert(before[k] == t);
                    }
                    assert(results[results.len() - 1] == last);
                }
            }
            if found_updated(results, t) {
                let i = choose|i: int|
                    0 <= i < results.len() && (#[trigger] results[i]).target == t
                        && results[i].outcome == (OutcomeView::Success { updated: true });
                if i < front.len() {
                    assert(front[i] == results[i]);
                    assert(found_updated(front, t));
                    assert(before.contains(t));
                    let k = choose|k: int| 0 <= k < before.len() && before[k] == t;
                    assert(after[k] == t);
                } else {
                    if before.contains(t) {
                        let k = choose|k: int| 0 <= k < before.len() && before[k] == t;
                        assert(after[k] == t);
                    } else {
                        assert(after[before.len() as int] == t);
                    }
                }
            }
        }
    }
}

/// The counts of a report do not depend on the order in which the results came.
pub proof fn lemma_counts_ignore_order(a: Seq<JobResultView>, b: Seq<JobResultView>)
    requires
        a.to_multiset() == b.to_multiset(),
    ensures
        aggregate(a).completed_count == aggregate(b).completed_count,
        aggregate(a).error_count == aggregate(b).error_count,
        aggregate(a).error_messages.len() == aggregate(b).error_messages.len(),
{
    lemma_aggregate(a);
    lemma_aggregate(b);
    lemma_successes_ignore_order(a, b);
    a.to_multiset_ensures();
    b.to_multiset_ensures();
}

/// The number of successes does not depend on order.
proof fn lemma_successes_ignore_order(a: Seq<JobResultView>, b: Seq<JobResultView>)
    requires
        a.to_multiset() == b.to_multiset(),
    ensures
        successes(a) == successes(b),
    decreases a.len(),
{
    a.to_multiset_ensures();
    b.to_multiset_ensures();
    if a.len() == 0 {
        assert(b.len() == 0);
    } else {
        let last = a.last();
        assert(a.to_multiset().count(last) > 0) by {
            assert(a.contains(last));
        }
        assert(b.contains(last));
        let k = choose|k: int| 0 <= k < b.len() && b[k] == last;
        let front = a.drop_last();
        let rest = b.remove(k);
        assert(a =~= front.push(last));
        assert(front.to_multiset() =~= a.to_multiset().remove(last)) by {
            front.to_multiset_ensures();
        }
        assert(rest.to_multiset() =~= b.to_multiset().remove(last));
        lemma_successes_ignore_order(front, rest);
        lemma_successes_remove(b, k);
    }
}

/// Taking one result out lowers the number of successes by one where it was a
/// success, and leaves it where it was a failure.
proof fn lemma_successes_remove(b: Seq<JobResultView>, k: int)
    requires
        0 <= k < b.len(),
    ensures
        successes(b) == successes(b.remove(k)) + if b[k].outcome is Success {
            1nat
        } else {
            0nat
        },
    decreases b.len(),
{
    if k == b.len() - 1 {
        assert(b.remove(k) =~= b.drop_last());
    } else {
        lemma_successes_remove(b.drop_last(), k);
        assert(b.remove(k).drop_last() =~= b.drop_last().remove(k));
        assert(b.remove(k).last() == b.last());
    }
}

/// The jobs of `results` are pairwise distinct: no target was recorded twice for
/// one destination.
pub open spec fn distinct_jobs(results: Seq<JobResultView>) -> bool {
    forall|i: int, j: int|
        0 <= i < j < results.len() ==> !((#[trigger] results[i]).target == (
        #[trigger] results[j]).target && results[i].destination == results[j].destination)
}

/// What an aggregator stands for: how many jobs it waits for, and the results
/// that it has recorded.
pub struct AggregatorView {
    pub total_jobs: nat,
    pub results: Seq<JobResultView>,
}

impl AggregatorView {
    /// The report so far.
    pub open spec fn report(self) -> ReportView {
        aggregate(self.results)
    }

    /// Every job has been recorded.
    pub open spec fn is_complete(self) -> bool {
        self.report().completed_count + self.report().error_count == self.total_jobs
    }

    /// A result for `target` into `destination` has been recorded.
    pub open spec fn has(self, target: Seq<char>, destination: Seq<char>) -> bool {
        exists|i: int|
            0 <= i < self.results.len() && (#[trigger] self.results[i]).target == target
                && self.results[i].destination == destination
    }

    /// No job was recorded twice, and no more jobs than were expected.
    pub open spec fn wf(self) -> bool {
        &&& self.results.len() <= self.total_jobs
        &&& distinct_jobs(self.results)
    }
}

/// Collects the results of a run. It belongs to one owner; workers hand their
/// results to that owner.
#[derive(Debug)]
pub struct Aggregator {
    total_jobs: usize,
    report: RunReport,
    results: Vec<JobResult>,
}

impl View for Aggregator {
    type V = AggregatorView;

    closed spec fn view(&self) -> AggregatorView {
        AggregatorView {
            total_jobs: self.total_jobs as nat,
            results: Seq::new(self.results@.len(), |i: int| self.results@[i]@),
        }
    }
}

impl Aggregator {
    /// The aggregator keeps what it was given: its report is the report of the
    /// results recorded, and its view is well-formed.
    pub closed spec fn wf(&self) -> bool {
        &&& self@.wf()
        &&& self.report@ == self@.report()
    }

    /// An aggregator that waits for `total_jobs` results.
    pub fn new(total_jobs: usize) -> (a: Aggregator)
        ensures
            a.wf(),
            a@.total_jobs == total_jobs,
            a@.results == Seq::<JobResultView>::empty(),
            a@.report() == empty_report(),
    {
        let a = Aggregator {
            total_jobs,
            report: RunReport {
                completed_count: 0,
                error_count: 0,
                updated_targets: Vec::new(),
                error_messages: Vec::new(),
            },
            results: Vec::new(),
        };
        assert(a@.results =~= Seq::<JobResultView>::empty());
        assert(a.report.updated_targets.deep_view() =~= Seq::<Seq<char>>::empty());
        assert(a.report.error_messages.deep_view() =~= Seq::<Seq<char>>::empty());
        a
    }

    /// The number of results that the run is to produce.
    pub fn total_jobs(&self) -> (n: usize)
        ensures
            n == self@.total_jobs,
    {
        self.total_jobs
    }

    /// The number of jobs recorded as ended well.
    pub fn completed_count(&self) -> (n: usize)
        requires
            self.wf(),
        ensures
            n == self@.report().completed_count,
            n == successes(self@.results),
    {
        proof {
            lemma_aggregate(self@.results);
        }
        self.report.completed_count
    }

    /// The number of jobs recorded as failed.
    pub fn error_count(&self) -> (n: usize)
        requires
            self.wf(),
        ensures
            n == self@.report().error_count,
            n == failures(self@.results),
    {
        proof {
            lemma_aggregate(self@.results);
        }
        self.report.error_count
    }

    /// Whether a result for `target` into `destination` has been recorded.
    pub fn is_recorded(&self, target: &str, destination: &str) -> (found: bool)
        ensures
            found == self@.has(target@, destination@),
    {
        let wanted_target = target.to_owned();
        let wanted_destination = destination.to_owned();
        let mut i: usize = 0;
        while i < self.results.len()
            invariant
                i <= self.results.len(),
                wanted_target@ == target@,
                wanted_destination@ == destination@,
                forall|j: int|
                    0 <= j < i ==> !((#[trigger] self@.results[j]).target == target@
                        && self@.results[j].destination == destination@),
            decreases self.results.len() - i,
        {
            if self.results[i].target == wanted_target && self.results[i].destination
                == wanted_destination {
                assert(self@.results[i as int] == self.results@[i as int]@);
                return true;
            }
            i = i + 1;
        }
        false
    }

    /// Whether every job has been recorded.
    pub fn is_complete(&self) -> (done: bool)
        requires
            self.wf(),
        ensures
            done == self@.is_complete(),
            done == (self@.results.len() == self@.total_jobs),
    {
        proof {
            lemma_aggregate(self@.results);
        }
        self.report.completed_count + self.report.error_count == self.total_jobs
    }

    /// Records the end of one job: a success counts as completed, and its target
    /// joins the updated targets where it was found changed and is not among them
    /// yet; a failure counts as an error and adds its line to the messages.
    ///
    /// A job is recorded once, and no more jobs than the run has.
    pub fn record(&mut self, result: JobResult)
        requires
            old(self).wf(),
            !old(self)@.is_complete(),
            !old(self)@.has(result@.target, result@.destination),
        ensures
            final(self).wf(),
            final(self)@.total_jobs == old(self)@.total_jobs,
            final(self)@.results == old(self)@.results.push(result@),
            final(self)@.report() == report_after(old(self)@.report(), result@),
    {
        proof {
            lemma_aggregate(self@.results);
        }
        let ghost before = self@.results;
        match &result.outcome {
            Outcome::Success { updated } => {
                self.report.completed_count = self.report.completed_count + 1;
                if *updated && !contains_text(&self.report.updated_targets, &result.target) {
                    self.report.updated_targets.push(result.target.clone());
                    assert(self.report.updated_targets.deep_view() =~= old(
                        self,
                    ).report.updated_targets.deep_view().push(result.target@));
                }
            },
            Outcome::Failure { message } => {
                self.report.error_count = self.report.error_count + 1;
                let mut line = result.target.clone();
                line.append(": ");
                line.append(message.as_str());
                proof {
                    reveal_strlit(": ");
                    assert(": "@ =~= seq![':', ' ']);
                    assert(line@ == error_line(result.target@, message@));
                }
                self.report.error_messages.push(line);
                assert(self.report.error_messages.deep_view() =~= old(
                    self,
                ).report.error_messages.deep_view().push(error_line(result.target@, message@)));
            },
        }
        self.results.push(result);
        proof {
            let after = self@.results;
            assert(after =~= before.push(result@));
            assert(after.drop_last() =~= before);
            assert(after.last() == result@);
            assert forall|i: int, j: int| 0 <= i < j < after.len() implies !((
            #[trigger] after[i]).target == (#[trigger] after[j]).target && after[i].destination
                == after[j].destination) by {
                if j < before.len() {
                    assert(after[i] == before[i] && after[j] == before[j]);
                } else {
                    assert(after[i] == before[i]);
                    assert(!old(self)@.has(result@.target, result@.destination));
                }
            }
        }
    }

    /// Whether the run still waits for `count` results at least.
    pub fn can_forgo(&self, count: usize) -> (can: bool)
        requires
            self.wf(),
        ensures
            can == (self@.results.len() + count <= self@.total_jobs),
    {
        proof {
            lemma_aggregate(self@.results);
        }
        count <= self.total_jobs - (self.report.completed_count + self.report.error_count)
    }

    /// Takes `count` jobs out of the run: their destinations were passed over, and
    /// no result will come for them.
    pub fn forgo(&mut self, count: usize)
        requires
            old(self).wf(),
            old(self)@.results.len() + count <= old(self)@.total_jobs,
        ensures
            final(self).wf(),
            final(self)@.total_jobs == old(self)@.total_jobs - count,
            final(self)@.results == old(self)@.results,
    {
        self.total_jobs = self.total_jobs - count;
    }

    /// The report of a run whose jobs have all been recorded. It may be asked for
    /// again, and is then the same.
    pub fn finalize(&self) -> (report: RunReport)
        requires
            self.wf(),
            self@.is_complete(),
        ensures
            report@ == self@.report(),
            report@.completed_count + report@.error_count == self@.total_jobs,
            report@.completed_count == successes(self@.results),
            report@.error_count == failures(self@.results),
            report@.error_messages.len() == report@.error_count,
    {
        proof {
            lemma_aggregate(self@.results);
        }
        RunReport {
            completed_count: self.report.completed_count,
            error_count: self.report.error_count,
            updated_targets: clone_texts(&self.report.updated_targets),
            error_messages: clone_texts(&self.report.error_messages),
        }
    }
}

} // verus!
