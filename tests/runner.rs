use kubelet::edges::EdgeTable;
use kubelet::runner::{Outcome, Runner, RunnerAction, Stage};
use kubelet::transition::Transition;

const TAGGED: u64 = 10;
const ROAM: u64 = 11;
const EAT: u64 = 12;
const SLEEP: u64 = 13;
const RELEASED: u64 = 14;

fn moose_edges() -> EdgeTable {
    let mut e = EdgeTable::new();
    e.declare(TAGGED, ROAM);
    e.declare(ROAM, EAT);
    e.declare(EAT, SLEEP);
    e.declare(SLEEP, ROAM);
    e
}

fn go(edges: &EdgeTable, from: u64, to: u64) -> Transition {
    Transition::next(edges, from, to).expect("declared edge")
}

#[test]
fn happy_path_publishes_before_each_handler() {
    let edges = moose_edges();
    let mut r = Runner::new(TAGGED, RELEASED, moose_edges());
    assert_eq!(r.current(), TAGGED);
    assert_eq!(r.stage(), Stage::Entering);
    assert_eq!(r.status_reported(Ok(())), RunnerAction::PublishThenNext(TAGGED));
    assert_eq!(r.transition_returned(go(&edges, TAGGED, ROAM)), RunnerAction::Enter(ROAM));
    assert_eq!(r.status_reported(Ok(())), RunnerAction::PublishThenNext(ROAM));
    assert_eq!(r.transition_returned(go(&edges, ROAM, EAT)), RunnerAction::Enter(EAT));
    assert_eq!(r.status_reported(Ok(())), RunnerAction::PublishThenNext(EAT));
    assert_eq!(r.transition_returned(go(&edges, EAT, SLEEP)), RunnerAction::Enter(SLEEP));
    assert_eq!(r.status_reported(Ok(())), RunnerAction::PublishThenNext(SLEEP));
    assert_eq!(r.transition_returned(go(&edges, SLEEP, ROAM)), RunnerAction::Enter(ROAM));
    assert_eq!(r.current(), ROAM);
    assert!(!r.is_finished());
}

#[test]
fn deletion_mid_roam_enters_released() {
    let edges = moose_edges();
    let mut r = Runner::new(TAGGED, RELEASED, moose_edges());
    r.status_reported(Ok(()));
    r.transition_returned(go(&edges, TAGGED, ROAM));
    assert_eq!(r.status_reported(Ok(())), RunnerAction::PublishThenNext(ROAM));
    // The handler of Roam is in flight when the deletion arrives.
    r.deletion_signalled();
    assert_eq!(r.transition_returned(go(&edges, ROAM, EAT)), RunnerAction::Enter(RELEASED));
    assert!(r.entered_deleted());
    assert_eq!(r.status_reported(Ok(())), RunnerAction::PublishThenNext(RELEASED));
    assert_eq!(r.transition_returned(Transition::complete_ok()), RunnerAction::Exit(Outcome::Succeeded));
    assert!(r.is_finished());
}

#[test]
fn handler_domain_failure_publishes_failure_once() {
    let mut r = Runner::new(TAGGED, RELEASED, moose_edges());
    r.status_reported(Ok(()));
    assert_eq!(
        r.transition_returned(Transition::complete_err("e_msg".to_string())),
        RunnerAction::Exit(Outcome::Failed("e_msg".to_string()))
    );
    assert!(r.is_finished());
    assert_eq!(r.status_reported(Ok(())), RunnerAction::Ignore);
    assert_eq!(r.transition_returned(Transition::complete_ok()), RunnerAction::Ignore);
}

#[test]
fn fatal_ends_machine() {
    let mut r = Runner::new(TAGGED, RELEASED, moose_edges());
    r.status_reported(Ok(()));
    assert_eq!(
        r.transition_returned(Transition::fatal("bad".to_string())),
        RunnerAction::Exit(Outcome::Fatal("bad".to_string()))
    );
    assert!(r.is_finished());
}

#[test]
fn status_failure_skips_handler() {
    let mut r = Runner::new(TAGGED, RELEASED, moose_edges());
    assert_eq!(
        r.status_reported(Err("no status".to_string())),
        RunnerAction::Exit(Outcome::Failed("no status".to_string()))
    );
    assert!(r.is_finished());
}

#[test]
fn undeclared_successor_is_fatal() {
    let mut other = EdgeTable::new();
    other.declare(TAGGED, EAT);
    let mut r = Runner::new(TAGGED, RELEASED, moose_edges());
    r.status_reported(Ok(()));
    assert_eq!(
        r.transition_returned(go(&other, TAGGED, EAT)),
        RunnerAction::Exit(Outcome::Fatal("transition to an undeclared state".to_string()))
    );
}

#[test]
fn complete_from_initial_state_ends_without_more_states() {
    let mut r = Runner::new(TAGGED, RELEASED, moose_edges());
    r.status_reported(Ok(()));
    assert_eq!(r.transition_returned(Transition::complete_ok()), RunnerAction::Exit(Outcome::Succeeded));
    r.deletion_signalled();
    assert!(!r.entered_deleted());
    assert_eq!(r.status_reported(Ok(())), RunnerAction::Ignore);
    assert_eq!(r.current(), TAGGED);
}

#[test]
fn deletion_before_initial_status_enters_deleted_once() {
    let mut r = Runner::new(TAGGED, RELEASED, moose_edges());
    r.deletion_signalled();
    assert_eq!(r.status_reported(Ok(())), RunnerAction::Enter(RELEASED));
    r.deletion_signalled();
    assert_eq!(r.status_reported(Ok(())), RunnerAction::PublishThenNext(RELEASED));
    assert_eq!(r.transition_returned(Transition::complete_ok()), RunnerAction::Exit(Outcome::Succeeded));
}

#[test]
fn deletion_does_not_override_completion() {
    let mut r = Runner::new(TAGGED, RELEASED, moose_edges());
    r.status_reported(Ok(()));
    r.deletion_signalled();
    assert_eq!(
        r.transition_returned(Transition::complete_err("x".to_string())),
        RunnerAction::Exit(Outcome::Failed("x".to_string()))
    );
    assert!(!r.entered_deleted());
}
