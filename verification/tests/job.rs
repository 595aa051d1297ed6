use dorst::job::{
    choose_operation, JobResult, MirrorJob, Operation, Outcome, Phase, Request, Response, Step,
    INVALID_TARGET, MIRROR_KEY, MIRROR_REFSPEC, ORIGIN, UNEXPECTED_RESPONSE,
};
use dorst::progress::{Fraction, ProgressEvent, Stage, TransferStats};

fn received(received: usize, total: usize) -> TransferStats {
    TransferStats {
        total_objects: total,
        indexed_objects: received,
        received_objects: received,
        local_objects: 0,
        total_deltas: 4,
        indexed_deltas: 1,
        received_bytes: 0,
    }
}

fn success(result: &Option<JobResult>) -> Option<bool> {
    match result {
        Some(JobResult { outcome: Outcome::Success { updated }, .. }) => Some(*updated),
        _ => None,
    }
}

fn failure(result: &Option<JobResult>) -> Option<String> {
    match result {
        Some(JobResult { outcome: Outcome::Failure { message }, .. }) => Some(message.clone()),
        _ => None,
    }
}

fn started(step: &Step) -> bool {
    step.events == vec![ProgressEvent::Started] && step.result.is_none()
}

#[test]
fn absent_destination_is_cloned() {
    assert_eq!(choose_operation(false), Operation::Clone);
    let (mut job, first) = MirrorJob::new("http://localhost:7868", "/tmp/x/localhost:7868", true);
    assert!(started(&first));
    assert!(matches!(first.request, Some(Request::Probe { ref destination }) if destination == "/tmp/x/localhost:7868"));
    assert_eq!(job.phase(), Phase::Deciding);
    let step = job.advance(Response::Probed { exists: false });
    assert_eq!(job.phase(), Phase::Cloning);
    assert_eq!(step.events, vec![ProgressEvent::StageChanged(Stage::Cloning)]);
    match step.request {
        Some(Request::Clone { url, destination, bare, refspec, all_tags, mark_mirror }) => {
            assert_eq!(url, "http://localhost:7868");
            assert_eq!(destination, "/tmp/x/localhost:7868");
            assert!(bare);
            assert_eq!(refspec.as_deref(), Some("+refs/*:refs/*"));
            assert!(all_tags);
            assert!(mark_mirror);
        }
        other => panic!("{:?}", other),
    }
    assert_eq!(MIRROR_REFSPEC, "+refs/*:refs/*");
    assert_eq!(MIRROR_KEY, "remote.origin.mirror");
    assert_eq!(ORIGIN, "origin");
}

#[test]
fn present_destination_is_fetched() {
    assert_eq!(choose_operation(true), Operation::Fetch);
    let (mut job, _) = MirrorJob::new("http://localhost:7868", "/tmp/x/localhost:7868", true);
    let step = job.advance(Response::Probed { exists: true });
    assert_eq!(job.phase(), Phase::Fetching);
    assert_eq!(step.events, vec![ProgressEvent::StageChanged(Stage::Fetching)]);
    match step.request {
        Some(Request::Fetch { url, destination, remote, watch }) => {
            assert_eq!(url, "http://localhost:7868");
            assert_eq!(destination, "/tmp/x/localhost:7868");
            assert_eq!(remote, "origin");
            assert_eq!(watch, "HEAD");
        }
        other => panic!("{:?}", other),
    }
}

#[test]
fn working_copy_is_cloned_without_refspec() {
    let (mut job, _) = MirrorJob::new("t", "d", false);
    let step = job.advance(Response::Probed { exists: false });
    assert!(matches!(
        step.request,
        Some(Request::Clone { bare: false, refspec: None, all_tags: false, mark_mirror: false, .. })
    ));
    let step = job.advance(Response::Transferred);
    assert_eq!(job.phase(), Phase::Done);
    assert!(job.is_finished());
    assert_eq!(step.events, vec![ProgressEvent::Finished]);
    assert!(step.request.is_none());
    assert_eq!(success(&step.result), Some(false));
}

#[test]
fn bare_clone_resolves_head_and_reports_no_update() {
    let (mut job, _) = MirrorJob::new("t", "d", true);
    job.advance(Response::Probed { exists: false });
    let step = job.advance(Response::Transferred);
    assert_eq!(job.phase(), Phase::ResolvingHead);
    assert!(step.events.is_empty());
    assert!(matches!(
        step.request,
        Some(Request::ResolveHead { ref destination, set_head: true, compare: None }) if destination == "d"
    ));
    let step = job.advance(Response::HeadResolved { before: vec![1], after: vec![2] });
    assert_eq!(job.phase(), Phase::Done);
    assert_eq!(step.events, vec![ProgressEvent::Finished]);
    assert_eq!(success(&step.result), Some(false));
    let result = step.result.unwrap();
    assert_eq!(result.target, "t");
    assert_eq!(result.destination, "d");
}

#[test]
fn fetch_that_moves_head_reports_an_update() {
    let (mut job, _) = MirrorJob::new("t", "d", true);
    job.advance(Response::Probed { exists: true });
    let step = job.advance(Response::Transferred);
    assert!(matches!(
        step.request,
        Some(Request::ResolveHead { set_head: true, compare: Some(ref name), .. }) if name == "HEAD"
    ));
    let step = job.advance(Response::HeadResolved { before: vec![0xaa; 20], after: vec![0xbb; 20] });
    assert_eq!(success(&step.result), Some(true));
}

#[test]
fn fetch_that_leaves_head_reports_no_update() {
    let (mut job, _) = MirrorJob::new("t", "d", false);
    job.advance(Response::Probed { exists: true });
    let step = job.advance(Response::Transferred);
    assert!(matches!(
        step.request,
        Some(Request::ResolveHead { set_head: false, compare: Some(ref name), .. })
            if name == "refs/remotes/origin/HEAD"
    ));
    let step = job.advance(Response::HeadResolved { before: vec![0xaa; 20], after: vec![0xaa; 20] });
    assert_eq!(success(&step.result), Some(false));
    assert_eq!(job.phase(), Phase::Done);
}

#[test]
fn object_names_of_different_length_differ() {
    let (mut job, _) = MirrorJob::new("t", "d", true);
    job.advance(Response::Probed { exists: true });
    job.advance(Response::Transferred);
    let step = job.advance(Response::HeadResolved { before: vec![1, 2], after: vec![1, 2, 3] });
    assert_eq!(success(&step.result), Some(true));
}

#[test]
fn backend_failure_ends_the_job_from_any_phase() {
    for answers in 0..3 {
        let (mut job, _) = MirrorJob::new("t", "d", true);
        if answers > 0 {
            job.advance(Response::Probed { exists: true });
        }
        if answers > 1 {
            job.advance(Response::Transferred);
        }
        let step = job.advance(Response::Failed { message: "unsupported URL protocol".to_owned() });
        assert_eq!(job.phase(), Phase::Failed);
        assert!(job.is_finished());
        assert_eq!(step.events, vec![ProgressEvent::Finished]);
        assert!(step.request.is_none());
        assert_eq!(failure(&step.result).as_deref(), Some("unsupported URL protocol"));
    }
}

#[test]
fn answer_to_another_request_fails_the_job() {
    let (mut job, _) = MirrorJob::new("t", "d", true);
    let step = job.advance(Response::Transferred);
    assert_eq!(job.phase(), Phase::Failed);
    assert_eq!(failure(&step.result).as_deref(), Some(UNEXPECTED_RESPONSE));
    let (mut job, _) = MirrorJob::new("t", "d", true);
    job.advance(Response::Probed { exists: true });
    let step = job.advance(Response::Probed { exists: true });
    assert_eq!(failure(&step.result).as_deref(), Some(UNEXPECTED_RESPONSE));
    let (mut job, _) = MirrorJob::new("t", "d", true);
    let step = job.advance(Response::HeadResolved { before: vec![], after: vec![] });
    assert_eq!(failure(&step.result).as_deref(), Some(UNEXPECTED_RESPONSE));
}

#[test]
fn ended_job_stays_as_it_is() {
    let (mut job, _) = MirrorJob::new("t", "d", false);
    job.advance(Response::Probed { exists: false });
    job.advance(Response::Transferred);
    for response in [
        Response::Transferred,
        Response::Probed { exists: true },
        Response::Failed { message: "late".to_owned() },
    ] {
        let step = job.advance(response);
        assert_eq!(job.phase(), Phase::Done);
        assert!(step.request.is_none());
        assert!(step.events.is_empty());
        assert!(step.result.is_none());
    }
    assert!(job.on_transfer(&received(1, 2)).is_empty());
}

#[test]
fn transfer_reports_become_events_while_transferring() {
    let (mut job, _) = MirrorJob::new("t", "d", true);
    assert!(job.on_transfer(&received(1, 2)).is_empty());
    job.advance(Response::Probed { exists: false });
    assert_eq!(
        job.on_transfer(&received(1, 2)),
        vec![ProgressEvent::Progress(Fraction { num: 1, den: 2 })]
    );
    assert_eq!(job.stage(), Stage::Cloning);
    assert_eq!(
        job.on_transfer(&received(2, 2)),
        vec![
            ProgressEvent::StageChanged(Stage::ResolvingDeltas),
            ProgressEvent::Progress(Fraction { num: 1, den: 4 }),
        ]
    );
    assert_eq!(job.stage(), Stage::ResolvingDeltas);
    job.advance(Response::Transferred);
    assert!(job.on_transfer(&received(2, 2)).is_empty());
}

#[test]
fn events_begin_with_started_and_end_with_finished() {
    let (mut job, first) = MirrorJob::new("t", "d", true);
    let mut events = first.events;
    events.extend(job.advance(Response::Probed { exists: true }).events);
    events.extend(job.on_transfer(&received(1, 3)));
    events.extend(job.on_transfer(&received(3, 3)));
    events.extend(job.advance(Response::Transferred).events);
    events.extend(job.advance(Response::HeadResolved { before: vec![1], after: vec![1] }).events);
    events.extend(job.advance(Response::Transferred).events);
    assert_eq!(events.first(), Some(&ProgressEvent::Started));
    assert_eq!(events.last(), Some(&ProgressEvent::Finished));
    assert_eq!(events.iter().filter(|e| **e == ProgressEvent::Started).count(), 1);
    assert_eq!(events.iter().filter(|e| **e == ProgressEvent::Finished).count(), 1);
    assert_eq!(job.target(), "t");
    assert_eq!(job.destination(), "d");
}

#[test]
fn failed_clone_leaves_a_destination_to_remove() {
    let (mut job, _) = MirrorJob::new("t", "d", true);
    assert!(!job.left_partial_destination());
    job.advance(Response::Probed { exists: false });
    assert!(!job.left_partial_destination());
    job.advance(Response::Failed { message: "connection reset".to_owned() });
    assert!(job.left_partial_destination());
    let (mut job, _) = MirrorJob::new("t", "d", true);
    job.advance(Response::Probed { exists: false });
    job.advance(Response::Transferred);
    job.advance(Response::Failed { message: "No default branch".to_owned() });
    assert!(job.left_partial_destination());
}

#[test]
fn failed_fetch_leaves_its_destination_usable() {
    let (mut job, _) = MirrorJob::new("t", "d", true);
    job.advance(Response::Failed { message: "no configuration".to_owned() });
    assert!(!job.left_partial_destination());
    let (mut job, _) = MirrorJob::new("t", "d", true);
    job.advance(Response::Probed { exists: true });
    job.advance(Response::Failed { message: "connection reset".to_owned() });
    assert!(!job.left_partial_destination());
}

#[test]
fn invalid_target_is_not_handed_to_the_backend() {
    for exists in [false, true] {
        let (mut job, first) = MirrorJob::new("INVALID", "/src/INVALID", true);
        assert!(matches!(first.request, Some(Request::Probe { .. })));
        let step = job.advance(Response::Probed { exists });
        assert_eq!(job.phase(), Phase::Failed);
        assert!(step.request.is_none());
        assert_eq!(step.events, vec![ProgressEvent::Finished]);
        assert_eq!(failure(&step.result).as_deref(), Some(INVALID_TARGET));
        assert!(!job.left_partial_destination());
    }
    assert_eq!(INVALID_TARGET, "Invalid URL");
}

#[test]
fn working_copy_is_watched_by_the_head_of_its_origin() {
    let (mut job, _) = MirrorJob::new("t", "d", false);
    let step = job.advance(Response::Probed { exists: true });
    match step.request {
        Some(Request::Fetch { watch, .. }) => assert_eq!(watch, "refs/remotes/origin/HEAD"),
        other => panic!("{:?}", other),
    }
}
