//! Status values published for objects, and the patch documents they project to.
use vstd::prelude::*;

verus! {

/// The phase of an object's life, as the cluster reports it.
#[derive(Clone, Copy, PartialEq, Eq, Structural, Debug)]
pub enum Phase {
    Pending,
    Running,
    Succeeded,
    Failed,
    Unknown,
}

/// The name under which a phase is published.
pub open spec fn phase_name(p: Phase) -> Seq<char> {
    match p {
        Phase::Pending => "Pending"@,
        Phase::Running => "Running"@,
        Phase::Succeeded => "Succeeded"@,
        Phase::Failed => "Failed"@,
        Phase::Unknown => "Unknown"@,
    }
}

impl Phase {
    /// The name under which this phase is published.
    pub fn name(&self) -> (r: String)
        ensures
            r@ == phase_name(*self),
    {
        match self {
            Phase::Pending => "Pending".to_string(),
            Phase::Running => "Running".to_string(),
            Phase::Succeeded => "Succeeded".to_string(),
            Phase::Failed => "Failed".to_string(),
            Phase::Unknown => "Unknown".to_string(),
        }
    }
}

/// What the runtime wishes the cluster to observe of one object; an unset field
/// is left as the cluster has it.
#[derive(Debug, PartialEq, Eq)]
pub struct Status {
    pub phase: Option<Phase>,
    pub message: Option<String>,
}

/// The mathematical content of a status.
pub type StatusView = (Option<Phase>, Option<Seq<char>>);

impl View for Status {
    type V = StatusView;

    open spec fn view(&self) -> StatusView {
        (self.phase, match self.message {
            Some(m) => Some(m@),
            None => None,
        })
    }
}

/// A patch document: the fields to set under the object's status, in order.
pub type PatchView = Seq<(Seq<char>, Seq<char>)>;

/// The patch document of a status: its phase, then its message, each where set.
pub open spec fn patch_of(s: StatusView) -> PatchView {
    let phase: PatchView = match s.0 {
        Some(p) => seq![("phase"@, phase_name(p))],
        None => Seq::empty(),
    };
    let message: PatchView = match s.1 {
        Some(m) => seq![("message"@, m)],
        None => Seq::empty(),
    };
    phase + message
}

/// The identities of a list of fields.
pub open spec fn fields_view(f: Seq<(String, String)>) -> PatchView {
    f.map_values(|e: (String, String)| (e.0@, e.1@))
}

/// A status with the given phase and message.
pub fn make_status(phase: Phase, message: String) -> (r: Status)
    ensures
        r@ == (Some(phase), Some(message@)),
{
    Status { phase: Some(phase), message: Some(message) }
}

impl Status {
    /// The status that says the machine failed, and why.
    pub fn failed(message: String) -> (r: Status)
        ensures
            r@ == (Some(Phase::Failed), Some(message@)),
    {
        make_status(Phase::Failed, message)
    }

    /// The patch document that publishes this status.
    pub fn to_patch(&self) -> (r: Vec<(String, String)>)
        ensures
            fields_view(r@) == patch_of(self@),
    {
        let mut r: Vec<(String, String)> = Vec::new();
        if let Some(p) = &self.phase {
            r.push(("phase".to_string(), p.name()));
        }
        if let Some(m) = &self.message {
            r.push(("message".to_string(), m.clone()));
        }
        proof {
            assert(fields_view(r@) =~= patch_of(self@));
        }
        r
    }
}

/// Publishing a status is a function of the status alone: equal statuses give
/// identical patch documents, every time.
pub proof fn lemma_patch_is_function(a: StatusView, b: StatusView)
    requires
        a == b,
    ensures
        patch_of(a) == patch_of(b),
{
}

} // verus!
