use koan::graphql::ids::{new_id, parse_queue_item_id, queue_item_text};
use koan::graphql::jobs::{JobRegistry, JobState, MAX_HISTORY};
use koan::graphql::mutations::job_end;
use koan::player::QueueItemId;

#[test]
fn one_job_per_kind_runs_at_a_time() {
    let mut reg = JobRegistry::new();
    let first = reg.start("scan").unwrap();
    let clash = reg.start("scan").unwrap_err();
    assert_eq!(first.id, clash.id);

    reg.finish(&first.id, JobState::Succeeded, "done");
    let second = reg.start("scan").unwrap();
    assert_ne!(first.id, second.id);
}

#[test]
fn different_kinds_do_not_block_each_other() {
    let mut reg = JobRegistry::new();
    reg.start("scan").unwrap();
    assert!(reg.start("remoteSync").is_ok());
    assert_eq!(reg.list().len(), 2);
}

#[test]
fn a_job_can_be_followed() {
    let mut reg = JobRegistry::new();
    let job = reg.start("scan").unwrap();
    assert_eq!(job.kind, "scan");
    assert_eq!(job.state, JobState::Running);
    assert_eq!(job.message, "scan started");
    reg.finish(&job.id, JobState::Failed, "no disk");
    let after = reg.get(&job.id).unwrap();
    assert_eq!(after.state, JobState::Failed);
    assert_eq!(after.message, "no disk");
    // Nobody knows this one.
    reg.finish("nobody", JobState::Succeeded, "done");
    assert!(reg.get("nobody").is_none());
}

#[test]
fn jobs_are_listed_by_identifier() {
    let mut reg = JobRegistry::new();
    reg.start_as("b", "2".into()).unwrap();
    reg.start_as("a", "1".into()).unwrap();
    reg.start_as("c", "3".into()).unwrap();
    let ids: Vec<String> = reg.list().into_iter().map(|j| j.id).collect();
    assert_eq!(ids, vec!["1", "2", "3"]);
}

#[test]
fn new_jobs_come_last() {
    let mut reg = JobRegistry::new();
    for kind in ["a", "b", "c"] {
        reg.start(kind).unwrap();
    }
    let kinds: Vec<String> = reg.list().into_iter().map(|j| j.kind).collect();
    assert_eq!(kinds, vec!["a", "b", "c"]);
}

#[test]
fn ended_jobs_are_forgotten_when_there_are_many() {
    let mut reg = JobRegistry::new();
    let running = reg.start_as("other", "000".into()).unwrap();
    for n in 1..MAX_HISTORY {
        let job = reg.start_as("scan", format!("{n:03}")).unwrap();
        reg.finish(&job.id, JobState::Succeeded, "done");
    }
    assert_eq!(reg.list().len(), MAX_HISTORY);
    let last = reg.start_as("scan", "999".into()).unwrap();
    let left: Vec<String> = reg.list().into_iter().map(|j| j.id).collect();
    assert_eq!(left, vec![running.id, last.id]);
}

#[test]
fn an_identifier_in_use_is_replaced() {
    let mut reg = JobRegistry::new();
    reg.start_as("a", "1".into()).unwrap();
    reg.start_as("b", "1".into()).unwrap();
    let jobs = reg.list();
    assert_eq!(jobs.len(), 1);
    assert_eq!(jobs[0].kind, "b");
}

#[test]
fn identifiers_have_version_seven() {
    let id = new_id();
    assert_eq!(id.len(), 36);
    assert_eq!(&id[14..15], "7");
    assert_ne!(id, new_id());
    assert!(parse_queue_item_id(&id).is_ok());
}

#[test]
fn identifiers_read_back() {
    let id = QueueItemId(0x0123_4567_89ab_cdef_0011_2233_4455_6677);
    let text = queue_item_text(id);
    assert_eq!(text, "01234567-89ab-cdef-0011-223344556677");
    assert_eq!(parse_queue_item_id(&text).unwrap(), id);
    // Capital letters and braces are fine too.
    assert_eq!(
        parse_queue_item_id("{01234567-89AB-CDEF-0011-223344556677}").unwrap(),
        id
    );
}

#[test]
fn what_is_no_identifier_is_named() {
    let complaint = parse_queue_item_id("nope").unwrap_err();
    assert!(complaint.starts_with("invalid queue item ID 'nope': "));
}

#[test]
fn jobs_end_well_or_not() {
    assert_eq!(
        job_end(Some(Ok("3 added".into()))),
        (JobState::Succeeded, "3 added".into())
    );
    assert_eq!(
        job_end(Some(Err("no disk".into()))),
        (JobState::Failed, "no disk".into())
    );
    assert_eq!(
        job_end(None),
        (JobState::Failed, "failed to spawn worker thread".into())
    );
}
