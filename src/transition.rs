//! The outcome of one state handler, and the only way to name a successor.
use vstd::prelude::*;
use crate::edges::{EdgeTable, StateId};

verus! {

/// Marks, on state types, that one state may hand over to another.
pub trait TransitionTo<S> {
}

/// A state type, with the identity its values carry in the graph.
pub trait StateKind {
    spec fn kind(&self) -> StateId;

    fn id(&self) -> (r: StateId)
        ensures
            r == self.kind();
}

/// Tears down an object's data once its machine has stopped.
pub trait AsyncDrop {
    /// Releases whatever the object's data holds elsewhere.
    fn async_drop(self);
}

/// A successor state, together with the state that named it. Its fields are
/// private: it is obtained only through `Transition::next`, which checks the edge.
pub struct StateHolder {
    from: StateId,
    to: StateId,
}

impl StateHolder {
    pub closed spec fn spec_from(&self) -> StateId {
        self.from
    }

    pub closed spec fn spec_to(&self) -> StateId {
        self.to
    }

    /// The state that produced this successor.
    pub fn from_state(&self) -> (r: StateId)
        ensures
            r == self.spec_from(),
    {
        self.from
    }

    /// The successor state.
    pub fn state(&self) -> (r: StateId)
        ensures
            r == self.spec_to(),
    {
        self.to
    }
}

/// What a state handler asks of the runner.
pub enum Transition {
    /// Continue with the held successor.
    Next(StateHolder),
    /// Stop, with the machine's result.
    Complete(Result<(), String>),
    /// Stop: the framework itself failed.
    Fatal(String),
}

impl Transition {
    /// Builds `Next` from `from` to `to`, provided the edge was declared;
    /// `None` for an undeclared edge.
    pub fn next(edges: &EdgeTable, from: StateId, to: StateId) -> (r: Option<Transition>)
        ensures
            r.is_some() == edges@.contains((from, to)),
            r matches Some(Transition::Next(h)) ==> h.spec_from() == from && h.spec_to() == to,
            r matches Some(t) ==> t is Next,
    {
        if edges.allows(from, to) {
            Some(Transition::Next(StateHolder { from, to }))
        } else {
            None
        }
    }

    /// Builds `Next` from a state of type `I` to one of type `S`: the bound
    /// `I: TransitionTo<S>` makes an undeclared edge fail to compile.
    pub fn to<I: StateKind + TransitionTo<S>, S: StateKind>(from: &I, to: &S) -> (r: Transition)
        ensures
            r matches Transition::Next(h) && h.spec_from() == from.kind() && h.spec_to() == to.kind(),
    {
        Transition::Next(StateHolder { from: from.id(), to: to.id() })
    }

    /// A successful end of the machine.
    pub fn complete_ok() -> (r: Transition)
        ensures
            r == Transition::Complete(Ok(())),
    {
        Transition::Complete(Ok(()))
    }

    /// An end of the machine with a domain error.
    pub fn complete_err(message: String) -> (r: Transition)
        ensures
            r == Transition::Complete(Err(message)),
    {
        Transition::Complete(Err(message))
    }

    /// An end of the machine with a framework failure.
    pub fn fatal(message: String) -> (r: Transition)
        ensures
            r == Transition::Fatal(message),
    {
        Transition::Fatal(message)
    }
}

} // verus!
