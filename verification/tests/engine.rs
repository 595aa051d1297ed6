use dorst::chain::{plan_destinations, Chain, ChainPolicy};
use dorst::engine::{Directive, Engine, RunOptions};
use dorst::job::{MirrorJob, Outcome, Request, Response, Step};
use dorst::progress::ProgressEvent;
use dorst::report::RunReport;

/// A backend that works on names alone: a target that begins with `http://`
/// can be reached, a destination exists once it was cloned into, and the
/// remote's head is a number that a commit raises.
struct Remote {
    destinations: Vec<(String, u8)>,
    head: u8,
    operations: Vec<String>,
}

impl Remote {
    fn new() -> Remote {
        Remote { destinations: Vec::new(), head: 1, operations: Vec::new() }
    }

    fn commit(&mut self) {
        self.head += 1;
    }

    fn position(&self, destination: &str) -> Option<usize> {
        self.destinations.iter().position(|(d, _)| d == destination)
    }

    fn answer(&mut self, request: Request, before: &mut u8) -> Response {
        match request {
            Request::Probe { destination } => {
                Response::Probed { exists: self.position(&destination).is_some() }
            }
            Request::Clone { url, destination, .. } => {
                self.operations.push(format!("clone {destination}"));
                if url.starts_with("http://") {
                    self.destinations.push((destination, self.head));
                    Response::Transferred
                } else {
                    Response::Failed { message: "unsupported URL protocol".to_owned() }
                }
            }
            Request::Fetch { destination, .. } => {
                self.operations.push(format!("fetch {destination}"));
                let at = self.position(&destination).unwrap();
                *before = self.destinations[at].1;
                self.destinations[at].1 = self.head;
                Response::Transferred
            }
            Request::ResolveHead { destination, .. } => {
                let at = self.position(&destination).unwrap();
                Response::HeadResolved { before: vec![*before], after: vec![self.destinations[at].1] }
            }
        }
    }
}

fn run_job(remote: &mut Remote, mut job: MirrorJob, mut step: Step) -> (Outcome, Vec<ProgressEvent>) {
    let mut events = Vec::new();
    let mut before = 0;
    loop {
        events.append(&mut step.events);
        if let Some(result) = step.result {
            assert_eq!(result.target, job.target());
            assert_eq!(result.destination, job.destination());
            return (result.outcome, events);
        }
        let response = remote.answer(step.request.unwrap(), &mut before);
        step = job.advance(response);
    }
}

fn run_chain(remote: &mut Remote, engine: &mut Engine, mut chain: Chain) {
    while let Some((job, step)) = chain.next_job() {
        let target = job.target().to_owned();
        let destination = job.destination().to_owned();
        let (outcome, events) = run_job(remote, job, step);
        assert_eq!(events.first(), Some(&ProgressEvent::Started));
        assert_eq!(events.last(), Some(&ProgressEvent::Finished));
        chain.finish_job(&outcome);
        assert!(engine.record(dorst::job::JobResult { target, destination, outcome }));
    }
    assert!(chain.is_done());
    assert!(engine.chain_done(chain.skipped()));
}

fn run(remote: &mut Remote, targets: &[&str], backup: bool, limit: Option<usize>, policy: ChainPolicy) -> RunReport {
    let options = RunOptions {
        primary_root: "/src".to_owned(),
        primary_bare: false,
        backup_root: "/backup".to_owned(),
        backup,
        limit,
        policy,
    };
    let mut engine = Engine::new(targets.iter().map(|t| (*t).to_owned()).collect(), options);
    let mut waiting: Vec<Chain> = Vec::new();
    let mut turn = 0;
    while !engine.is_finished() {
        match engine.poll() {
            Directive::Launch { index, chain } => {
                assert_eq!(chain.target(), targets[index]);
                waiting.push(chain);
            }
            Directive::Wait | Directive::Drained => {
                let chain = waiting.pop().unwrap();
                run_chain(remote, &mut engine, chain);
            }
        }
        if let Some(limit) = limit {
            assert!(engine.in_flight() <= limit);
        }
        turn += 1;
        assert!(turn < 1000);
    }
    assert!(engine.is_complete());
    engine.finalize()
}

#[test]
fn absent_destination_is_cloned_and_reported() {
    let mut remote = Remote::new();
    let report = run(&mut remote, &["http://localhost:7868"], false, None, ChainPolicy::Independent);
    assert_eq!(remote.operations, vec!["clone /src/localhost:7868".to_owned()]);
    assert_eq!(report.completed_count, 1);
    assert_eq!(report.error_count, 0);
    assert!(report.updated_targets.is_empty());
    assert!(report.error_messages.is_empty());
}

#[test]
fn new_commit_is_fetched_and_reported_as_update() {
    let mut remote = Remote::new();
    run(&mut remote, &["http://localhost:7868"], false, None, ChainPolicy::Independent);
    remote.commit();
    let report = run(&mut remote, &["http://localhost:7868"], false, None, ChainPolicy::Independent);
    assert_eq!(
        remote.operations,
        vec!["clone /src/localhost:7868".to_owned(), "fetch /src/localhost:7868".to_owned()]
    );
    assert_eq!(report.updated_targets, vec!["http://localhost:7868".to_owned()]);
    assert_eq!(report.completed_count, 1);
    assert_eq!(report.error_count, 0);
}

#[test]
fn second_run_against_unchanged_remote_reports_no_update() {
    let mut remote = Remote::new();
    let first = run(&mut remote, &["http://localhost:7868"], true, None, ChainPolicy::Independent);
    let second = run(&mut remote, &["http://localhost:7868"], true, None, ChainPolicy::Independent);
    assert!(second.updated_targets.is_empty());
    assert_eq!(first.error_count, second.error_count);
    assert_eq!(second.completed_count, 2);
}

#[test]
fn unreachable_target_is_reported_and_the_rest_goes_on() {
    let mut remote = Remote::new();
    let report = run(
        &mut remote,
        &["somewhere/init-test-target", "http://localhost:7868"],
        false,
        Some(1),
        ChainPolicy::Independent,
    );
    assert_eq!(report.error_count, 1);
    assert_eq!(report.error_messages.len(), 1);
    assert!(report.error_messages[0].contains("init-test-target"));
    assert!(report.error_messages[0].contains("unsupported URL protocol"));
    assert_eq!(report.error_messages[0], "somewhere/init-test-target: unsupported URL protocol");
    assert_eq!(report.completed_count, 1);
    assert!(remote.operations.contains(&"clone /src/localhost:7868".to_owned()));
}

#[test]
fn one_valid_and_one_invalid_target_are_both_recorded() {
    for targets in [["http://localhost:7868", "invalid"], ["invalid", "http://localhost:7868"]] {
        let mut remote = Remote::new();
        let report = run(&mut remote, &targets, false, None, ChainPolicy::Independent);
        assert_eq!(report.completed_count, 1);
        assert_eq!(report.error_count, 1);
        assert_eq!(report.error_messages, vec!["invalid: unsupported URL protocol".to_owned()]);
    }
}

#[test]
fn backup_error() {
    let mut remote = Remote::new();
    let report = run(&mut remote, &["test_backup"], true, None, ChainPolicy::Independent);
    assert!(report.completed_count == 0);
    assert!(report.updated_targets.len() == 0);
    assert!(report.error_count == 2);
    assert!(report.error_messages.len() == 2);
    assert_eq!(
        remote.operations,
        vec!["clone /src/test_backup".to_owned(), "clone /backup/test_backup.dorst".to_owned()]
    );
}

#[test]
fn backup() {
    let mut remote = Remote::new();
    let first = run(&mut remote, &["http://localhost:7870"], true, None, ChainPolicy::Independent);
    assert!(first.completed_count == 2);
    remote.commit();
    let second = run(&mut remote, &["http://localhost:7870"], true, None, ChainPolicy::Independent);
    assert!(second.completed_count == 2);
    assert!(second.updated_targets.len() == 1);
    assert!(second.error_count == 0);
    assert!(remote.position("/backup/localhost:7870.dorst").is_some());
    assert!(remote.position("/src/localhost:7870").is_some());
}

#[test]
fn invalid_url() {
    let mut remote = Remote::new();
    let report = run(&mut remote, &["INVALID"], false, None, ChainPolicy::Independent);
    assert!(report.error_messages.len() > 0);
    assert_eq!(report.error_messages, vec!["INVALID: Invalid URL".to_owned()]);
    assert!(remote.operations.is_empty());
}

#[test]
fn chained_backup_is_skipped_after_a_failed_primary() {
    let mut remote = Remote::new();
    let report = run(&mut remote, &["invalid", "http://localhost:7868"], true, Some(2), ChainPolicy::Chained);
    assert_eq!(report.error_count, 1);
    assert_eq!(report.completed_count, 2);
    assert_eq!(
        remote.operations.iter().filter(|o| o.contains("invalid")).count(),
        1
    );
}

#[test]
fn window_task_limiter() {
    let mut remote = Remote::new();
    let report = run(&mut remote, &["invalid1", "invalid2", "invalid3"], false, Some(1), ChainPolicy::Independent);
    assert_eq!(report.error_count, 3);
    assert_eq!(report.completed_count, 0);
}

#[test]
fn engine_refuses_a_result_twice() {
    let options = RunOptions {
        primary_root: "/src".to_owned(),
        primary_bare: true,
        backup_root: "/backup".to_owned(),
        backup: false,
        limit: None,
        policy: ChainPolicy::Independent,
    };
    let mut engine = Engine::new(vec!["a".to_owned(), "b".to_owned()], options);
    assert_eq!(engine.target_count(), 2);
    let result = |target: &str| dorst::job::JobResult {
        target: target.to_owned(),
        destination: format!("/src/{target}"),
        outcome: Outcome::Success { updated: false },
    };
    assert!(!engine.chain_done(0));
    assert!(engine.record(result("a")));
    assert!(!engine.record(result("a")));
    assert!(engine.record(result("b")));
    assert!(engine.is_complete());
    assert!(!engine.record(result("c")));
    assert!(!engine.is_finished());
}

#[test]
fn chain_collects_the_errors_of_its_destinations() {
    let destinations = plan_destinations("http://h/repo", "/src", false, "/backup", true);
    assert_eq!(destinations.len(), 2);
    assert_eq!(destinations[0].path, "/src/repo");
    assert!(!destinations[0].bare);
    assert_eq!(destinations[1].path, "/backup/repo.dorst");
    assert!(destinations[1].bare);
    let mut chain = Chain::new("http://h/repo", destinations, ChainPolicy::Independent);
    assert_eq!(chain.errors(), "");
    let (job, _) = chain.next_job().unwrap();
    assert_eq!(job.destination(), "/src/repo");
    chain.finish_job(&Outcome::Failure { message: "first".to_owned() });
    assert_eq!(chain.errors(), "first");
    let (job, _) = chain.next_job().unwrap();
    assert_eq!(job.destination(), "/backup/repo.dorst");
    chain.finish_job(&Outcome::Failure { message: "second".to_owned() });
    assert_eq!(chain.errors(), "first backup: second");
    assert!(chain.next_job().is_none());
    assert_eq!(chain.finished(), 2);
    assert_eq!(chain.skipped(), 0);
    chain.finish_job(&Outcome::Success { updated: true });
    assert_eq!(chain.finished(), 2);
}

#[test]
fn chain_marks_a_failed_backup() {
    let destinations = plan_destinations("t", "/src", false, "/backup", true);
    let mut chain = Chain::new("t", destinations, ChainPolicy::Chained);
    chain.finish_job(&Outcome::Success { updated: false });
    chain.finish_job(&Outcome::Failure { message: "second".to_owned() });
    assert_eq!(chain.errors(), " backup: second");
    assert!(chain.is_done());
}

#[test]
fn chained_chain_stops_at_a_failure() {
    let destinations = plan_destinations("t", "/src", false, "/backup", true);
    let mut chain = Chain::new("t", destinations, ChainPolicy::Chained);
    chain.finish_job(&Outcome::Failure { message: "first".to_owned() });
    assert!(chain.is_done());
    assert!(chain.next_job().is_none());
    assert_eq!(chain.finished(), 1);
    assert_eq!(chain.skipped(), 1);
}

#[test]
fn engine_knows_where_its_targets_go() {
    let options = |backup: bool, backup_root: &str| RunOptions {
        primary_root: "/src".to_owned(),
        primary_bare: false,
        backup_root: backup_root.to_owned(),
        backup,
        limit: None,
        policy: ChainPolicy::Independent,
    };
    let targets = vec!["http://h/a".to_owned(), "git@h:b".to_owned()];
    let engine = Engine::new(targets.clone(), options(true, "/backup"));
    assert_eq!(
        engine.destinations(),
        vec!["/src/a", "/backup/a.dorst", "/src/git@h:b", "/backup/git@h:b.dorst"]
    );
    assert!(engine.has_distinct_destinations());
    let engine = Engine::new(targets, options(false, "/backup"));
    assert_eq!(engine.destinations(), vec!["/src/a", "/src/git@h:b"]);
    let same_name = vec!["http://h/a".to_owned(), "http://other/a".to_owned()];
    assert!(!Engine::new(same_name, options(false, "/backup")).has_distinct_destinations());
    let crossing = vec!["a".to_owned(), "a.dorst".to_owned()];
    assert!(!Engine::new(crossing.clone(), options(true, "/src")).has_distinct_destinations());
    assert!(Engine::new(crossing, options(true, "/backup")).has_distinct_destinations());
    assert!(Engine::new(Vec::new(), options(true, "/backup")).has_distinct_destinations());
}

#[test]
fn mirror() {
    let expected = "COMPLETED\u{1b}[0m \
                    \u{1b}[37m(\u{1b}[0m\u{1b}[1;92m1\u{1b}[0m\u{1b}[37m)\u{1b}[0m";
    let mut remote = Remote::new();
    let clone = run(&mut remote, &["http://localhost:7868"], false, Some(1), ChainPolicy::Chained);
    assert!(dorst::cli::completed_line(clone.completed_count, clone.error_count).contains(expected));
    remote.commit();
    let fetch = run(&mut remote, &["http://localhost:7868"], false, Some(1), ChainPolicy::Chained);
    assert!(dorst::cli::completed_line(fetch.completed_count, fetch.error_count).contains(expected));
    assert_eq!(
        remote.operations,
        vec!["clone /src/localhost:7868".to_owned(), "fetch /src/localhost:7868".to_owned()]
    );
}
