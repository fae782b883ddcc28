use kubelet::edges::EdgeTable;
use kubelet::runner::{Runner, RunnerAction};
use kubelet::states::{volume_mount_edges, ErrorState, VolumeMount, ERROR, TERMINATED, VOLUME_MOUNT};
use kubelet::transition::Transition;

const VALID: u64 = 20;
const TEST: u64 = 21;

#[test]
fn it_can_transition_to_valid_state() {
    let mut edges = EdgeTable::new();
    edges.declare(TEST, VALID);
    let t = Transition::next(&edges, TEST, VALID);
    match t {
        Some(Transition::Next(h)) => {
            assert_eq!(h.from_state(), TEST);
            assert_eq!(h.state(), VALID);
        }
        _ => panic!("expected a successor"),
    }
}

#[test]
fn state_it_can_transition_to_valid_state() {
    let mut edges = EdgeTable::new();
    edges.declare(TEST, VALID);
    assert!(edges.allows(TEST, VALID));
    assert!(matches!(Transition::next(&edges, TEST, VALID), Some(Transition::Next(_))));
}

#[test]
fn illegal_edge_is_refused() {
    let a: u64 = 1;
    let b: u64 = 2;
    let c: u64 = 3;
    let mut edges = EdgeTable::new();
    edges.declare(a, b);
    assert!(Transition::next(&edges, a, c).is_none());
    assert!(!edges.allows(a, c));
    assert!(!edges.allows(b, a));
}

#[test]
fn self_edge_must_be_declared() {
    let mut edges = EdgeTable::new();
    assert!(Transition::next(&edges, 5, 5).is_none());
    edges.declare(5, 5);
    assert!(Transition::next(&edges, 5, 5).is_some());
}

#[test]
fn terminal_transitions() {
    assert!(matches!(Transition::complete_ok(), Transition::Complete(Ok(()))));
    match Transition::complete_err("boom".to_string()) {
        Transition::Complete(Err(m)) => assert_eq!(m, "boom"),
        _ => panic!("expected an error"),
    }
    match Transition::fatal("lost".to_string()) {
        Transition::Fatal(m) => assert_eq!(m, "lost"),
        _ => panic!("expected a fatal error"),
    }
}

#[test]
fn typed_edge_names_both_states() {
    let err = ErrorState { message: "no volume".to_string() };
    match Transition::to(&VolumeMount, &err) {
        Transition::Next(h) => {
            assert_eq!(h.from_state(), VOLUME_MOUNT);
            assert_eq!(h.state(), ERROR);
        }
        _ => panic!("expected a successor"),
    }
}

#[test]
fn runner_adopts_typed_successor() {
    let mut r = Runner::new(VOLUME_MOUNT, TERMINATED, volume_mount_edges(7));
    assert_eq!(r.status_reported(Ok(())), RunnerAction::PublishThenNext(VOLUME_MOUNT));
    let t = Transition::to(&VolumeMount, &ErrorState { message: "x".to_string() });
    assert_eq!(r.transition_returned(t), RunnerAction::Enter(ERROR));
}
