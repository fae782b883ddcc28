use kubelet::states::{volume_mount_edges, Stub, Terminated, VolumeMount, ERROR, VOLUME_MOUNT};
use kubelet::status::{make_status, Phase, Status};
use kubelet::transition::Transition;

fn pairs(v: &[(&str, &str)]) -> Vec<(String, String)> {
    v.iter().map(|(a, b)| (a.to_string(), b.to_string())).collect()
}

#[test]
fn same_status_gives_same_patch() {
    let s = Status { phase: Some(Phase::Running), message: Some("Gahrooo!".to_string()) };
    assert_eq!(s.to_patch(), s.to_patch());
    assert_eq!(s.to_patch(), pairs(&[("phase", "Running"), ("message", "Gahrooo!")]));
}

#[test]
fn patch_holds_only_set_fields() {
    let s = Status { phase: None, message: Some("Bye, alice!".to_string()) };
    assert_eq!(s.to_patch(), pairs(&[("message", "Bye, alice!")]));
    let s = Status { phase: Some(Phase::Pending), message: None };
    assert_eq!(s.to_patch(), pairs(&[("phase", "Pending")]));
    assert!(Status { phase: None, message: None }.to_patch().is_empty());
}

#[test]
fn failed_status() {
    let s = Status::failed("Error tracking moose: e_msg.".to_string());
    assert_eq!(s, make_status(Phase::Failed, "Error tracking moose: e_msg.".to_string()));
    assert_eq!(s.to_patch(), pairs(&[("phase", "Failed"), ("message", "Error tracking moose: e_msg.")]));
}

#[test]
fn phase_names() {
    assert_eq!(Phase::Succeeded.name(), "Succeeded");
    assert_eq!(Phase::Unknown.name(), "Unknown");
}

#[test]
fn stub_completes() {
    assert!(matches!(Stub.next(), Transition::Complete(Ok(()))));
    assert_eq!(Stub.status(), Status { phase: None, message: None });
}

#[test]
fn terminated_stops_workload() {
    assert!(matches!(Terminated.next(None), Transition::Complete(Ok(()))));
    assert!(matches!(Terminated.next(Some(Ok(()))), Transition::Complete(Ok(()))));
    match Terminated.next(Some(Err("stuck".to_string()))) {
        Transition::Fatal(e) => assert_eq!(e, "stuck"),
        _ => panic!("expected a fatal error"),
    }
    assert_eq!(Terminated.json_status(), make_status(Phase::Succeeded, "Terminated".to_string()));
}

#[test]
fn volume_mount_moves_on_or_errors() {
    let starting: u64 = 7;
    let edges = volume_mount_edges(starting);
    match VolumeMount.next(&edges, Ok(()), starting) {
        (Some(Transition::Next(h)), None) => {
            assert_eq!(h.from_state(), VOLUME_MOUNT);
            assert_eq!(h.state(), starting);
        }
        _ => panic!("expected the ready state"),
    }
    match VolumeMount.next(&edges, Err("no volume".to_string()), starting) {
        (Some(Transition::Next(h)), Some(m)) => {
            assert_eq!(h.state(), ERROR);
            assert_eq!(m, "no volume");
        }
        _ => panic!("expected the error state"),
    }
    let (t, _) = VolumeMount.next(&edges, Ok(()), 99);
    assert!(t.is_none());
    assert_eq!(VolumeMount.json_status(), make_status(Phase::Pending, "VolumeMount".to_string()));
}
