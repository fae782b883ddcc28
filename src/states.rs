//! States that providers share: each decides its successor from the result of
//! the outside work it stands for, which its task performs and hands in.
use vstd::prelude::*;
use crate::edges::{EdgeTable, StateId};
use crate::status::{make_status, Phase, Status};
use crate::transition::{StateKind, Transition, TransitionTo};

verus! {

/// The state that mounts an object's volumes.
pub const VOLUME_MOUNT: StateId = 1;
/// The state that records an error and reports it.
pub const ERROR: StateId = 2;
/// The state of an object whose workload was stopped after deletion.
pub const TERMINATED: StateId = 3;
/// The placeholder state.
pub const STUB: StateId = 4;

/// A placeholder state: it ends the machine at once and publishes an empty status.
#[derive(Debug, Default)]
pub struct Stub;

impl Stub {
    pub fn next(self) -> (r: Transition)
        ensures
            r == Transition::Complete(Ok(())),
    {
        Transition::complete_ok()
    }

    pub fn status(&self) -> (r: Status)
        ensures
            r@ == (Option::<Phase>::None, Option::<Seq<char>>::None),
    {
        Status { phase: None, message: None }
    }
}

/// The object was deleted: its workload is stopped.
#[derive(Debug, Default)]
pub struct Terminated;

impl Terminated {
    /// `stop` is the result of stopping the object's workload, `None` where none
    /// was running. A failure to stop it is a framework failure.
    pub fn next(self, stop: Option<Result<(), String>>) -> (r: Transition)
        ensures
            r == match stop {
                Some(Err(e)) => Transition::Fatal(e),
                _ => Transition::Complete(Ok(())),
            },
    {
        match stop {
            Some(Err(e)) => Transition::fatal(e),
            _ => Transition::complete_ok(),
        }
    }

    pub fn json_status(&self) -> (r: Status)
        ensures
            r@ == (Some(Phase::Succeeded), Some("Terminated"@)),
    {
        make_status(Phase::Succeeded, "Terminated".to_string())
    }
}

/// An error was met: the machine records its message and reports it.
#[derive(Debug)]
pub struct ErrorState {
    pub message: String,
}

impl StateKind for Stub {
    open spec fn kind(&self) -> StateId {
        STUB
    }

    fn id(&self) -> (r: StateId) {
        STUB
    }
}

impl StateKind for Terminated {
    open spec fn kind(&self) -> StateId {
        TERMINATED
    }

    fn id(&self) -> (r: StateId) {
        TERMINATED
    }
}

impl StateKind for VolumeMount {
    open spec fn kind(&self) -> StateId {
        VOLUME_MOUNT
    }

    fn id(&self) -> (r: StateId) {
        VOLUME_MOUNT
    }
}

impl StateKind for ErrorState {
    open spec fn kind(&self) -> StateId {
        ERROR
    }

    fn id(&self) -> (r: StateId) {
        ERROR
    }
}

impl TransitionTo<ErrorState> for VolumeMount {
}

/// The object's volumes are being mounted.
#[derive(Debug, Default)]
pub struct VolumeMount;

/// The edges out of the volume-mount state, to `ready` and to the error state.
pub fn volume_mount_edges(ready: StateId) -> (r: EdgeTable)
    ensures
        r@ == set![(VOLUME_MOUNT, ready), (VOLUME_MOUNT, ERROR)],
{
    let mut r = EdgeTable::new();
    r.declare(VOLUME_MOUNT, ready);
    r.declare(VOLUME_MOUNT, ERROR);
    proof {
        assert(r@ =~= set![(VOLUME_MOUNT, ready), (VOLUME_MOUNT, ERROR)]);
    }
    r
}

impl VolumeMount {
    /// `mounted` is the result of mounting the volumes. On success the machine
    /// moves on to `ready`; on failure to the error state, with the failure's
    /// message for it. `None` in place of the transition where `edges` lacks
    /// the edge taken.
    pub fn next(self, edges: &EdgeTable, mounted: Result<(), String>, ready: StateId) -> (r: (
        Option<Transition>,
        Option<String>,
    ))
        ensures
            ({
                let to = if mounted is Ok { ready } else { ERROR };
                &&& r.0.is_some() == edges@.contains((VOLUME_MOUNT, to))
                &&& r.0 matches Some(Transition::Next(h)) ==> h.spec_from() == VOLUME_MOUNT && h.spec_to() == to
                &&& r.0 matches Some(t) ==> t is Next
            }),
            r.1 == match mounted {
                Ok(()) => None,
                Err(e) => Some(e),
            },
    {
        match mounted {
            Ok(()) => (Transition::next(edges, VOLUME_MOUNT, ready), None),
            Err(e) => (Transition::next(edges, VOLUME_MOUNT, ERROR), Some(e)),
        }
    }

    pub fn json_status(&self) -> (r: Status)
        ensures
            r@ == (Some(Phase::Pending), Some("VolumeMount"@)),
    {
        make_status(Phase::Pending, "VolumeMount".to_string())
    }
}

} // verus!
