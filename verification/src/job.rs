//! One mirror job: a target brought into one destination by clone or fetch.
//!
//! The job decides; the caller performs. Each step hands the caller a request
//! for the backend, and the caller answers with what the backend returned.

use crate::progress::{
    stage_after, transfer_events, transfer_events_of, ProgressEvent, Stage, TransferStats,
};
use crate::target::INVALID;
use vstd::prelude::*;
use vstd::string::*;

verus! {

/// The refspec of a mirror: every ref of the remote, forced.
pub const MIRROR_REFSPEC: &'static str = "+refs/*:refs/*";

/// The name of the remote that a mirror is fetched from.
pub const ORIGIN: &'static str = "origin";

/// The ref that a mirror is watched by: a fetch moves what it names.
pub const HEAD: &'static str = "HEAD";

/// The ref that a working copy is watched by: a fetch leaves its own `HEAD`
/// alone and moves the one it keeps of its origin.
pub const ORIGIN_HEAD: &'static str = "refs/remotes/origin/HEAD";

/// The setting that marks a repository as a mirror of its origin.
pub const MIRROR_KEY: &'static str = "remote.origin.mirror";

/// The message of a job whose target is the one that stands for an empty
/// identifier: there is nothing to clone or to fetch from.
pub const INVALID_TARGET: &'static str = "Invalid URL";

/// The message of a job whose caller answered a request with the answer to another.
pub const UNEXPECTED_RESPONSE: &'static str = "unexpected response from the backend";

/// Where a job stands.
#[derive(Clone, Copy, Debug, PartialEq, Eq, Structural)]
pub enum Phase {
    Deciding,
    Cloning,
    Fetching,
    ResolvingHead,
    Done,
    Failed,
}

impl Phase {
    /// The job has ended, well or badly.
    pub open spec fn is_terminal(self) -> bool {
        self == Phase::Done || self == Phase::Failed
    }
}

/// Whether a destination is created or brought up to date.
#[derive(Clone, Copy, Debug, PartialEq, Eq, Structural)]
pub enum Operation {
    Clone,
    Fetch,
}

/// The operation for a destination: fetch into one that exists, clone into one
/// that does not.
pub open spec fn operation_for(destination_exists: bool) -> Operation {
    if destination_exists {
        Operation::Fetch
    } else {
        Operation::Clone
    }
}

/// Chooses between clone and fetch; see [`operation_for`].
pub fn choose_operation(destination_exists: bool) -> (op: Operation)
    ensures
        op == operation_for(destination_exists),
        op == Operation::Clone <==> !destination_exists,
        op == Operation::Fetch <==> destination_exists,
{
    if destination_exists {
        Operation::Fetch
    } else {
        Operation::Clone
    }
}

/// How a job ended.
#[derive(Clone, Debug)]
pub enum Outcome {
    Success { updated: bool },
    Failure { message: String },
}

/// What an [`Outcome`] stands for in contracts.
pub enum OutcomeView {
    Success { updated: bool },
    Failure { message: Seq<char> },
}

impl View for Outcome {
    type V = OutcomeView;

    open spec fn view(&self) -> OutcomeView {
        match self {
            Outcome::Success { updated } => OutcomeView::Success { updated: *updated },
            Outcome::Failure { message } => OutcomeView::Failure { message: message@ },
        }
    }
}

/// The end of one job: which target, into which destination, and how it went.
#[derive(Clone, Debug)]
pub struct JobResult {
    pub target: String,
    pub destination: String,
    pub outcome: Outcome,
}

/// What a [`JobResult`] stands for in contracts.
pub struct JobResultView {
    pub target: Seq<char>,
    pub destination: Seq<char>,
    pub outcome: OutcomeView,
}

impl View for JobResult {
    type V = JobResultView;

    open spec fn view(&self) -> JobResultView {
        JobResultView {
            target: self.target@,
            destination: self.destination@,
            outcome: self.outcome@,
        }
    }
}

/// What the caller is to ask of the backend.
#[derive(Clone, Debug)]
pub enum Request {
    /// Find out whether the destination exists.
    Probe { destination: String },
    /// Clone `url` into `destination`, bare or with a working tree. Where a
    /// `refspec` is given the origin is created to fetch by it; `all_tags` asks
    /// for every tag of the remote, and `mark_mirror` for the setting that marks
    /// the clone as a mirror of its origin.
    Clone {
        url: String,
        destination: String,
        bare: bool,
        refspec: Option<String>,
        all_tags: bool,
        mark_mirror: bool,
    },
    /// Read what the ref `watch` names in the repository at `destination`, then
    /// download from its remote `remote`, or from `url` where it has no such
    /// remote, without merging. A ref that names nothing is a failure.
    Fetch { url: String, destination: String, remote: String, watch: String },
    /// Point `HEAD` at the default branch of the remote where `set_head` holds.
    /// Where `compare` names a ref, report the object that this ref named
    /// before the transfer and the one that it names now.
    ResolveHead { destination: String, set_head: bool, compare: Option<String> },
}

/// What a [`Request`] stands for in contracts.
pub enum RequestView {
    Probe { destination: Seq<char> },
    Clone {
        url: Seq<char>,
        destination: Seq<char>,
        bare: bool,
        refspec: Option<Seq<char>>,
        all_tags: bool,
        mark_mirror: bool,
    },
    Fetch { url: Seq<char>, destination: Seq<char>, remote: Seq<char>, watch: Seq<char> },
    ResolveHead { destination: Seq<char>, set_head: bool, compare: Option<Seq<char>> },
}

impl View for Request {
    type V = RequestView;

    open spec fn view(&self) -> RequestView {
        match self {
            Request::Probe { destination } => RequestView::Probe { destination: destination@ },
            Request::Clone {
                url,
                destination,
                bare,
                refspec,
                all_tags,
                mark_mirror,
            } => RequestView::Clone {
                url: url@,
                destination: destination@,
                bare: *bare,
                refspec: match refspec {
                    Some(r) => Some(r@),
                    None => None,
                },
                all_tags: *all_tags,
                mark_mirror: *mark_mirror,
            },
            Request::Fetch { url, destination, remote, watch } => RequestView::Fetch {
                url: url@,
                destination: destination@,
                remote: remote@,
                watch: watch@,
            },
            Request::ResolveHead { destination, set_head, compare } => RequestView::ResolveHead {
                destination: destination@,
                set_head: *set_head,
                compare: match compare {
                    Some(name) => Some(name@),
                    None => None,
                },
            },
        }
    }
}

/// What the backend returned.
#[derive(Clone, Debug)]
pub enum Response {
    /// The answer to `Probe`.
    Probed { exists: bool },
    /// The answer to `Clone` and to `Fetch` that went well.
    Transferred,
    /// The answer to `ResolveHead`: the object that the ref to compare named
    /// before the transfer, and the one it names now.
    HeadResolved { before: Vec<u8>, after: Vec<u8> },
    /// The backend failed, with its message.
    Failed { message: String },
}

/// What a [`Response`] stands for in contracts.
pub enum ResponseView {
    Probed { exists: bool },
    Transferred,
    HeadResolved { before: Seq<u8>, after: Seq<u8> },
    Failed { message: Seq<char> },
}

impl View for Response {
    type V = ResponseView;

    open spec fn view(&self) -> ResponseView {
        match self {
            Response::Probed { exists } => ResponseView::Probed { exists: *exists },
            Response::Transferred => ResponseView::Transferred,
            Response::HeadResolved { before, after } => ResponseView::HeadResolved {
                before: before@,
                after: after@,
            },
            Response::Failed { message } => ResponseView::Failed { message: message@ },
        }
    }
}

/// What one step of a job yields: the next request, the events to pass on, and
/// the result once the job has ended.
#[derive(Debug)]
pub struct Step {
    pub request: Option<Request>,
    pub events: Vec<ProgressEvent>,
    pub result: Option<JobResult>,
}

/// What a [`Step`] stands for in contracts.
pub struct StepView {
    pub request: Option<RequestView>,
    pub events: Seq<ProgressEvent>,
    pub result: Option<JobResultView>,
}

impl View for Step {
    type V = StepView;

    open spec fn view(&self) -> StepView {
        StepView {
            request: match self.request {
                Some(r) => Some(r@),
                None => None,
            },
            events: self.events@,
            result: match self.result {
                Some(r) => Some(r@),
                None => None,
            },
        }
    }
}

/// The state of one job.
#[derive(Debug)]
pub struct MirrorJob {
    target: String,
    destination: String,
    bare: bool,
    phase: Phase,
    stage: Stage,
    operation: Option<Operation>,
}

/// What a [`MirrorJob`] stands for in contracts.
pub struct JobView {
    pub target: Seq<char>,
    pub destination: Seq<char>,
    pub bare: bool,
    pub phase: Phase,
    /// The stage that the observer was last told of.
    pub stage: Stage,
    /// What the job decided on, once it has.
    pub operation: Option<Operation>,
}

impl View for MirrorJob {
    type V = JobView;

    closed spec fn view(&self) -> JobView {
        JobView {
            target: self.target@,
            destination: self.destination@,
            bare: self.bare,
            phase: self.phase,
            stage: self.stage,
            operation: self.operation,
        }
    }
}

impl JobView {
    /// Whether a transfer changed what the destination holds: a fetch did where
    /// the watched ref names another object after it than before; a clone did
    /// not.
    pub open spec fn found_update(self, before: Seq<u8>, after: Seq<u8>) -> bool {
        self.operation == Some(Operation::Fetch) && before != after
    }

    /// Whether the job left a destination that must not be fetched into: it
    /// failed after it had begun to clone. The caller removes such a
    /// destination, or leaves that to whoever purges.
    pub open spec fn left_partial_destination(self) -> bool {
        self.phase == Phase::Failed && self.operation == Some(Operation::Clone)
    }
}

/// A job that has not asked anything yet.
pub open spec fn initial_job(target: Seq<char>, destination: Seq<char>, bare: bool) -> JobView {
    JobView {
        target,
        destination,
        bare,
        phase: Phase::Deciding,
        stage: Stage::Cloning,
        operation: None,
    }
}

/// The first step of every job: it announces itself and asks whether its
/// destination exists.
pub open spec fn initial_step(job: JobView) -> StepView {
    StepView {
        request: Some(RequestView::Probe { destination: job.destination }),
        events: seq![ProgressEvent::Started],
        result: None,
    }
}

/// The step that ends a job with `outcome`.
pub open spec fn final_step(job: JobView, outcome: OutcomeView) -> StepView {
    StepView {
        request: None,
        events: seq![ProgressEvent::Finished],
        result: Some(
            JobResultView { target: job.target, destination: job.destination, outcome },
        ),
    }
}

/// The step of a job that has ended: nothing more is asked, said or produced.
pub open spec fn idle_step() -> StepView {
    StepView { request: None, events: Seq::empty(), result: None }
}

/// The request to clone for `job`: a bare job asks for a mirror, with the
/// refspec of a mirror, every tag and the mark of a mirror; another job asks
/// for a plain clone.
pub open spec fn clone_request(job: JobView) -> RequestView {
    RequestView::Clone {
        url: job.target,
        destination: job.destination,
        bare: job.bare,
        refspec: if job.bare {
            Some(MIRROR_REFSPEC@)
        } else {
            None
        },
        all_tags: job.bare,
        mark_mirror: job.bare,
    }
}

/// The ref by which a fetch is judged: the same ref is read before the
/// transfer and after it. It is `HEAD` in a mirror, and the `HEAD` kept of the
/// origin in a working copy.
pub open spec fn watched_ref(bare: bool) -> Seq<char> {
    if bare {
        HEAD@
    } else {
        ORIGIN_HEAD@
    }
}

/// The request to fetch for `job`: from the origin, or from the target where
/// the destination knows no origin, with the watched ref read first.
pub open spec fn fetch_request(job: JobView) -> RequestView {
    RequestView::Fetch {
        url: job.target,
        destination: job.destination,
        remote: ORIGIN@,
        watch: watched_ref(job.bare),
    }
}

/// The job after the backend's `response`.
pub open spec fn job_after(job: JobView, response: ResponseView) -> JobView {
    if job.phase.is_terminal() {
        job
    } else {
        match (job.phase, response) {
            (_, ResponseView::Failed { .. }) => JobView { phase: Phase::Failed, ..job },
            (Phase::Deciding, ResponseView::Probed { exists }) => {
                if job.target == INVALID@ {
                    JobView { phase: Phase::Failed, ..job }
                } else if exists {
                    JobView {
                        phase: Phase::Fetching,
                        stage: Stage::Fetching,
                        operation: Some(Operation::Fetch),
                        ..job
                    }
                } else {
                    JobView {
                        phase: Phase::Cloning,
                        stage: Stage::Cloning,
                        operation: Some(Operation::Clone),
                        ..job
                    }
                }
            },
            (Phase::Cloning, ResponseView::Transferred) => {
                if job.bare {
                    JobView { phase: Phase::ResolvingHead, ..job }
                } else {
                    JobView { phase: Phase::Done, ..job }
                }
            },
            (Phase::Fetching, ResponseView::Transferred) => JobView {
                phase: Phase::ResolvingHead,
                ..job
            },
            (Phase::ResolvingHead, ResponseView::HeadResolved { .. }) => JobView {
                phase: Phase::Done,
                ..job
            },
            _ => JobView { phase: Phase::Failed, ..job },
        }
    }
}

/// What the job yields on the backend's `response`.
pub open spec fn step_after(job: JobView, response: ResponseView) -> StepView {
    if job.phase.is_terminal() {
        idle_step()
    } else {
        match (job.phase, response) {
            (_, ResponseView::Failed { message }) => final_step(
                job,
                OutcomeView::Failure { message },
            ),
            (Phase::Deciding, ResponseView::Probed { exists }) => {
                if job.target == INVALID@ {
                    final_step(job, OutcomeView::Failure { message: INVALID_TARGET@ })
                } else if exists {
                    StepView {
                        request: Some(fetch_request(job)),
                        events: seq![ProgressEvent::StageChanged(Stage::Fetching)],
                        result: None,
                    }
                } else {
                    StepView {
                        request: Some(clone_request(job)),
                        events: seq![ProgressEvent::StageChanged(Stage::Cloning)],
                        result: None,
                    }
                }
            },
            (Phase::Cloning, ResponseView::Transferred) => {
                if job.bare {
                    StepView {
                        request: Some(
                            RequestView::ResolveHead {
                                destination: job.destination,
                                set_head: true,
                                compare: None,
                            },
                        ),
                        events: Seq::empty(),
                        result: None,
                    }
                } else {
                    final_step(job, OutcomeView::Success { updated: false })
                }
            },
            (Phase::Fetching, ResponseView::Transferred) => StepView {
                request: Some(
                    RequestView::ResolveHead {
                        destination: job.destination,
                        set_head: job.bare,
                        compare: Some(watched_ref(job.bare)),
                    },
                ),
                events: Seq::empty(),
                result: None,
            },
            (Phase::ResolvingHead, ResponseView::HeadResolved { before, after }) => final_step(
                job,
                OutcomeView::Success { updated: job.found_update(before, after) },
            ),
            _ => final_step(job, OutcomeView::Failure { message: UNEXPECTED_RESPONSE@ }),
        }
    }
}

/// The job after a report of transfer statistics: only a job that is
/// transferring listens.
pub open spec fn job_after_stats(job: JobView, stats: TransferStats) -> JobView {
    match job.phase {
        Phase::Cloning => JobView { stage: stage_after(Stage::Cloning, job.stage, stats), ..job },
        Phase::Fetching => JobView {
            stage: stage_after(Stage::Fetching, job.stage, stats),
            ..job
        },
        _ => job,
    }
}

/// The events of a report of transfer statistics.
pub open spec fn events_after_stats(job: JobView, stats: TransferStats) -> Seq<ProgressEvent> {
    match job.phase {
        Phase::Cloning => transfer_events_of(Stage::Cloning, job.stage, stats),
        Phase::Fetching => transfer_events_of(Stage::Fetching, job.stage, stats),
        _ => Seq::empty(),
    }
}

/// Whether two object names differ.
fn differ(a: &Vec<u8>, b: &Vec<u8>) -> (d: bool)
    ensures
        d == (a@ != b@),
{
    if a.len() != b.len() {
        return true;
    }
    let mut i: usize = 0;
    while i < a.len()
        invariant
            i <= a.len(),
            a.len() == b.len(),
            forall|j: int| 0 <= j < i ==> a@[j] == b@[j],
        decreases a.len() - i,
    {
        if a[i] != b[i] {
            return true;
        }
        i = i + 1;
    }
    assert(a@ =~= b@);
    false
}

impl MirrorJob {
    /// A job for `target` into `destination`, with its first step. A bare job
    /// keeps a mirror; another keeps a working copy.
    pub fn new(target: &str, destination: &str, bare: bool) -> (out: (MirrorJob, Step))
        ensures
            out.0@ == initial_job(target@, destination@, bare),
            out.1@ == initial_step(out.0@),
    {
        let job = MirrorJob {
            target: target.to_owned(),
            destination: destination.to_owned(),
            bare,
            phase: Phase::Deciding,
            stage: Stage::Cloning,
            operation: None,
        };
        let mut events: Vec<ProgressEvent> = Vec::new();
        events.push(ProgressEvent::Started);
        let step = Step {
            request: Some(Request::Probe { destination: destination.to_owned() }),
            events,
            result: None,
        };
        assert(step@.events =~= initial_step(job@).events);
        (job, step)
    }

    /// The target that the job mirrors.
    pub fn target(&self) -> (t: &str)
        ensures
            t@ == self@.target,
    {
        self.target.as_str()
    }

    /// The directory that the job mirrors into.
    pub fn destination(&self) -> (d: &str)
        ensures
            d@ == self@.destination,
    {
        self.destination.as_str()
    }

    /// Where the job stands.
    pub fn phase(&self) -> (p: Phase)
        ensures
            p == self@.phase,
    {
        self.phase
    }

    /// The stage that the observer was last told of.
    pub fn stage(&self) -> (s: Stage)
        ensures
            s == self@.stage,
    {
        self.stage
    }

    /// Whether the job left a destination that must not be fetched into.
    pub fn left_partial_destination(&self) -> (b: bool)
        ensures
            b == self@.left_partial_destination(),
    {
        self.phase == Phase::Failed && match self.operation {
            Some(Operation::Clone) => true,
            _ => false,
        }
    }

    /// The job has ended.
    pub fn is_finished(&self) -> (b: bool)
        ensures
            b == self@.phase.is_terminal(),
    {
        self.phase == Phase::Done || self.phase == Phase::Failed
    }

    fn watched(&self) -> (name: &'static str)
        ensures
            name@ == watched_ref(self@.bare),
    {
        if self.bare {
            HEAD
        } else {
            ORIGIN_HEAD
        }
    }

    fn finish(&self, outcome: Outcome) -> (step: Step)
        ensures
            step@ == final_step(self@, outcome@),
    {
        let mut events: Vec<ProgressEvent> = Vec::new();
        events.push(ProgressEvent::Finished);
        let step = Step {
            request: None,
            events,
            result: Some(
                JobResult {
                    target: self.target.clone(),
                    destination: self.destination.clone(),
                    outcome,
                },
            ),
        };
        assert(step@.events =~= final_step(self@, outcome@).events);
        step
    }

    fn fail(&mut self, message: String) -> (step: Step)
        ensures
            final(self)@ == (JobView { phase: Phase::Failed, ..old(self)@ }),
            step@ == final_step(old(self)@, OutcomeView::Failure { message: message@ }),
    {
        self.phase = Phase::Failed;
        self.finish(Outcome::Failure { message })
    }

    /// Takes the backend's answer to the last request and yields the next step.
    ///
    /// A destination that exists is fetched into, one that does not is cloned
    /// into; a job whose target is `INVALID` ends as failed instead, and asks the
    /// backend for no transfer. A failure of the backend ends the job with the
    /// backend's message,
    /// whatever the job was doing. An answer that does not belong to the last
    /// request ends the job as failed. A job that has ended stays as it is.
    pub fn advance(&mut self, response: Response) -> (step: Step)
        ensures
            final(self)@ == job_after(old(self)@, response@),
            step@ == step_after(old(self)@, response@),
    {
        if self.is_finished() {
            return Step { request: None, events: Vec::new(), result: None };
        }
        match response {
            Response::Failed { message } => self.fail(message),
            Response::Probed { exists } => {
                if self.phase != Phase::Deciding {
                    return self.fail(UNEXPECTED_RESPONSE.to_owned());
                }
                if self.target == INVALID.to_owned() {
                    return self.fail(INVALID_TARGET.to_owned());
                }
                let mut events: Vec<ProgressEvent> = Vec::new();
                match choose_operation(exists) {
                    Operation::Fetch => {
                        self.phase = Phase::Fetching;
                        self.stage = Stage::Fetching;
                        self.operation = Some(Operation::Fetch);
                        events.push(ProgressEvent::StageChanged(Stage::Fetching));
                        let step = Step {
                            request: Some(
                                Request::Fetch {
                                    url: self.target.clone(),
                                    destination: self.destination.clone(),
                                    remote: ORIGIN.to_owned(),
                                    watch: self.watched().to_owned(),
                                },
                            ),
                            events,
                            result: None,
                        };
                        assert(step@.events =~= step_after(old(self)@, response@).events);
                        step
                    },
                    Operation::Clone => {
                        self.phase = Phase::Cloning;
                        self.stage = Stage::Cloning;
                        self.operation = Some(Operation::Clone);
                        events.push(ProgressEvent::StageChanged(Stage::Cloning));
                        let refspec = if self.bare {
                            Some(MIRROR_REFSPEC.to_owned())
                        } else {
                            None
                        };
                        let step = Step {
                            request: Some(
                                Request::Clone {
                                    url: self.target.clone(),
                                    destination: self.destination.clone(),
                                    bare: self.bare,
                                    refspec,
                                    all_tags: self.bare,
                                    mark_mirror: self.bare,
                                },
                            ),
                            events,
                            result: None,
                        };
                        assert(step@.events =~= step_after(old(self)@, response@).events);
                        step
                    },
                }
            },
            Response::Transferred => {
                match self.phase {
                    Phase::Cloning => {
                        if self.bare {
                            self.phase = Phase::ResolvingHead;
                            Step {
                                request: Some(
                                    Request::ResolveHead {
                                        destination: self.destination.clone(),
                                        set_head: true,
                                        compare: None,
                                    },
                                ),
                                events: Vec::new(),
                                result: None,
                            }
                        } else {
                            self.phase = Phase::Done;
                            self.finish(Outcome::Success { updated: false })
                        }
                    },
                    Phase::Fetching => {
                        self.phase = Phase::ResolvingHead;
                        Step {
                            request: Some(
                                Request::ResolveHead {
                                    destination: self.destination.clone(),
                                    set_head: self.bare,
                                    compare: Some(self.watched().to_owned()),
                                },
                            ),
                            events: Vec::new(),
                            result: None,
                        }
                    },
                    _ => self.fail(UNEXPECTED_RESPONSE.to_owned()),
                }
            },
            Response::HeadResolved { before, after } => {
                if self.phase != Phase::ResolvingHead {
                    return self.fail(UNEXPECTED_RESPONSE.to_owned());
                }
                let fetched = match self.operation {
                    Some(Operation::Fetch) => true,
                    _ => false,
                };
                let updated = fetched && differ(&before, &after);
                self.phase = Phase::Done;
                self.finish(Outcome::Success { updated })
            },
        }
    }

    /// Takes a report of transfer statistics and yields the events for the
    /// observer. A job that is not transferring yields none.
    pub fn on_transfer(&mut self, stats: &TransferStats) -> (events: Vec<ProgressEvent>)
        ensures
            final(self)@ == job_after_stats(old(self)@, *stats),
            events@ == events_after_stats(old(self)@, *stats),
    {
        match self.phase {
            Phase::Cloning => {
                let (events, stage) = transfer_events(Stage::Cloning, self.stage, stats);
                self.stage = stage;
                events
            },
            Phase::Fetching => {
                let (events, stage) = transfer_events(Stage::Fetching, self.stage, stats);
                self.stage = stage;
                events
            },
            _ => Vec::new(),
        }
    }
}


/// One thing that reaches a job: statistics while the backend transfers, or the
/// backend's answer to the last request.
pub enum Input {
    Stats(TransferStats),
    Answer(ResponseView),
}

/// The job after `input`.
pub open spec fn job_fed(job: JobView, input: Input) -> JobView {
    match input {
        Input::Stats(stats) => job_after_stats(job, stats),
        Input::Answer(response) => job_after(job, response),
    }
}

/// The events that `input` gives rise to.
pub open spec fn events_fed(job: JobView, input: Input) -> Seq<ProgressEvent> {
    match input {
        Input::Stats(stats) => events_after_stats(job, stats),
        Input::Answer(response) => step_after(job, response).events,
    }
}

/// The results that `input` gives rise to: one or none.
pub open spec fn results_fed(job: JobView, input: Input) -> Seq<JobResultView> {
    match input {
        Input::Stats(_) => Seq::empty(),
        Input::Answer(response) => match step_after(job, response).result {
            Some(result) => seq![result],
            None => Seq::empty(),
        },
    }
}

/// The job after all of `inputs`, in order.
pub open spec fn job_run(job: JobView, inputs: Seq<Input>) -> JobView
    decreases inputs.len(),
{
    if inputs.len() == 0 {
        job
    } else {
        job_fed(job_run(job, inputs.drop_last()), inputs.last())
    }
}

/// The events of all of `inputs`, in order.
pub open spec fn events_run(job: JobView, inputs: Seq<Input>) -> Seq<ProgressEvent>
    decreases inputs.len(),
{
    if inputs.len() == 0 {
        Seq::empty()
    } else {
        events_run(job, inputs.drop_last()) + events_fed(
            job_run(job, inputs.drop_last()),
            inputs.last(),
        )
    }
}

/// The results of all of `inputs`, in order.
pub open spec fn results_run(job: JobView, inputs: Seq<Input>) -> Seq<JobResultView>
    decreases inputs.len(),
{
    if inputs.len() == 0 {
        Seq::empty()
    } else {
        results_run(job, inputs.drop_last()) + results_fed(
            job_run(job, inputs.drop_last()),
            inputs.last(),
        )
    }
}

/// Whatever reaches a job that has not ended: it never announces itself again,
/// it says `Finished` at most once, as its last word and exactly when it has
/// ended, every fraction it reports lies in `[0, 1]`, and it produces one result
/// when it has ended and none before, for its own target and destination.
pub proof fn lemma_job_trace(job: JobView, inputs: Seq<Input>)
    requires
        !job.phase.is_terminal(),
    ensures
        ({
            let end = job_run(job, inputs);
            let events = events_run(job, inputs);
            let results = results_run(job, inputs);
            &&& end.target == job.target
            &&& end.destination == job.destination
            &&& end.bare == job.bare
            &&& forall|i: int| 0 <= i < events.len() ==> events[i] != ProgressEvent::Started
            &&& forall|i: int|
                0 <= i < events.len() && events[i] == ProgressEvent::Finished ==> i == events.len()
                    - 1
            &&& forall|i: int|
                0 <= i < events.len() ==> (#[trigger] events[i] matches ProgressEvent::Progress(f)
                    ==> f.wf())
            &&& end.phase.is_terminal() <==> events.len() > 0 && events.last()
                == ProgressEvent::Finished
            &&& results.len() == if end.phase.is_terminal() {
                1nat
            } else {
                0nat
            }
            &&& forall|i: int|
                0 <= i < results.len() ==> (#[trigger] results[i]).target == job.target
                    && results[i].destination == job.destination
            &&& forall|i: int|
                0 <= i < results.len() ==> ((#[trigger] results[i]).outcome is Success
                    <==> end.phase == Phase::Done)
        }),
    decreases inputs.len(),
{
    if inputs.len() > 0 {
        let front = inputs.drop_last();
        lemma_job_trace(job, front);
        let mid = job_run(job, front);
        let before = events_run(job, front);
        let added = events_fed(mid, inputs.last());
        let events = events_run(job, inputs);
        let results = results_run(job, inputs);
        assert(events == before + added);
        assert(results == results_run(job, front) + results_fed(mid, inputs.last()));
        if mid.phase.is_terminal() {
            assert(added =~= Seq::empty());
            assert(events =~= before);
            assert(results =~= results_run(job, front));
        } else {
            assert forall|i: int| 0 <= i < before.len() implies before[i]
                != ProgressEvent::Finished by {
                if before[i] == ProgressEvent::Finished {
                    assert(i == before.len() - 1);
                }
            }
            assert forall|i: int| 0 <= i < events.len() implies events[i]
                != ProgressEvent::Started by {
                if i < before.len() {
                    assert(events[i] == before[i]);
                } else {
                    assert(events[i] == added[i - before.len()]);
                }
            }
            assert forall|i: int|
                0 <= i < events.len() && events[i] == ProgressEvent::Finished implies i
                == events.len() - 1 by {
                if i < before.len() {
                    assert(events[i] == before[i]);
                } else {
                    assert(events[i] == added[i - before.len()]);
                }
            }
            assert forall|i: int| 0 <= i < events.len() implies (
            #[trigger] events[i] matches ProgressEvent::Progress(f) ==> f.wf()) by {
                if i < before.len() {
                    assert(events[i] == before[i]);
                } else {
                    assert(events[i] == added[i - before.len()]);
                }
            }
            if added.len() > 0 {
                assert(events.last() == added.last());
            } else {
                assert(events =~= before);
            }
        }
    }
}

/// From its first word on, a job says `Started` first and never again, and
/// `Finished` last and only when it has ended.
pub proof fn lemma_job_events_ordered(
    target: Seq<char>,
    destination: Seq<char>,
    bare: bool,
    inputs: Seq<Input>,
)
    ensures
        ({
            let job = initial_job(target, destination, bare);
            let events = initial_step(job).events + events_run(job, inputs);
            &&& events[0] == ProgressEvent::Started
            &&& forall|i: int| 0 < i < events.len() ==> events[i] != ProgressEvent::Started
            &&& forall|i: int|
                0 <= i < events.len() && events[i] == ProgressEvent::Finished ==> i == events.len()
                    - 1
            &&& job_run(job, inputs).phase.is_terminal() <==> events.last()
                == ProgressEvent::Finished
        }),
{
    let job = initial_job(target, destination, bare);
    lemma_job_trace(job, inputs);
    let tail = events_run(job, inputs);
    let events = initial_step(job).events + tail;
    assert forall|i: int| 0 < i < events.len() implies events[i] != ProgressEvent::Started by {
        assert(events[i] == tail[i - 1]);
    }
    assert forall|i: int|
        0 <= i < events.len() && events[i] == ProgressEvent::Finished implies i == events.len()
        - 1 by {
        if i > 0 {
            assert(events[i] == tail[i - 1]);
        }
    }
    if tail.len() > 0 {
        assert(events.last() == tail.last());
    }
}

/// The choice between clone and fetch rests on the destination alone: a job
/// asks for a clone where its destination is absent and for a fetch where it
/// exists, whatever its target, unless the target is `INVALID`.
pub proof fn lemma_decision(target: Seq<char>, destination: Seq<char>, bare: bool, exists: bool)
    requires
        target != INVALID@,
    ensures
        ({
            let job = initial_job(target, destination, bare);
            let step = step_after(job, ResponseView::Probed { exists });
            let next = job_after(job, ResponseView::Probed { exists });
            &&& !exists ==> next.phase == Phase::Cloning && step.request == Some(
                clone_request(job),
            )
            &&& exists ==> next.phase == Phase::Fetching && step.request == Some(
                fetch_request(job),
            )
            &&& bare ==> clone_request(job) == (RequestView::Clone {
                url: target,
                destination,
                bare: true,
                refspec: Some(MIRROR_REFSPEC@),
                all_tags: true,
                mark_mirror: true,
            })
        }),
{
}

/// A fetch that leaves the watched ref where it was reports no update; one that moves it
/// reports one. A clone never reports an update.
pub proof fn lemma_updated(job: JobView, before: Seq<u8>, after: Seq<u8>)
    requires
        job.phase == Phase::ResolvingHead,
    ensures
        step_after(job, ResponseView::HeadResolved { before, after }).result matches Some(result)
            && result.outcome == (OutcomeView::Success {
            updated: job.found_update(before, after),
        }),
        before == after ==> step_after(
            job,
            ResponseView::HeadResolved { before, after },
        ).result.unwrap().outcome == (OutcomeView::Success { updated: false }),
{
}

/// The target `INVALID` is never handed to the backend: whatever the first
/// answer to its job, the job ends as failed and asks for nothing more.
pub proof fn lemma_invalid_target(destination: Seq<char>, bare: bool, response: ResponseView)
    ensures
        job_after(initial_job(INVALID@, destination, bare), response).phase == Phase::Failed,
        step_after(initial_job(INVALID@, destination, bare), response).request is None,
        step_after(initial_job(INVALID@, destination, bare), response).result matches Some(result)
            && result.outcome is Failure && result.target == INVALID@ && result.destination
            == destination,
        initial_step(initial_job(INVALID@, destination, bare)).request == Some(
            RequestView::Probe { destination },
        ),
{
}

/// What reaches a job that fetches into a destination that exists, from a
/// backend that does not fail: the destination is there, the transfer went
/// well, and the watched ref named `before` and names `after`.
pub open spec fn fetch_inputs(before: Seq<u8>, after: Seq<u8>) -> Seq<Input> {
    seq![
        Input::Answer(ResponseView::Probed { exists: true }),
        Input::Answer(ResponseView::Transferred),
        Input::Answer(ResponseView::HeadResolved { before, after }),
    ]
}

/// A run against a remote that has not changed reports no update and no
/// failure: a job that fetches and finds the watched ref where it was ends well,
/// with one result that says so. Where the ref has moved the result reports the
/// update.
pub proof fn lemma_fetch_reports_change(
    target: Seq<char>,
    destination: Seq<char>,
    bare: bool,
    before: Seq<u8>,
    after: Seq<u8>,
)
    requires
        target != INVALID@,
    ensures
        job_run(initial_job(target, destination, bare), fetch_inputs(before, after)).phase
            == Phase::Done,
        results_run(initial_job(target, destination, bare), fetch_inputs(before, after)) == seq![
            JobResultView {
                target,
                destination,
                outcome: OutcomeView::Success { updated: before != after },
            },
        ],
{
    let job = initial_job(target, destination, bare);
    let inputs = fetch_inputs(before, after);
    let two = inputs.drop_last();
    let one = two.drop_last();
    assert(one.drop_last() =~= Seq::<Input>::empty());
    assert(one.last() == inputs[0]);
    assert(two.last() == inputs[1]);
    assert(inputs.last() == inputs[2]);
    reveal_with_fuel(job_run, 4);
    reveal_with_fuel(results_run, 4);
    assert(job_run(job, one).phase == Phase::Fetching);
    assert(job_run(job, two).phase == Phase::ResolvingHead);
    assert(results_run(job, two) =~= Seq::<JobResultView>::empty());
    assert(results_run(job, inputs) =~= seq![
        JobResultView {
            target,
            destination,
            outcome: OutcomeView::Success { updated: before != after },
        },
    ]);
}

} // verus!
