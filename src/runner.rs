//! The per-object runner: decides, from each handler result, what happens next.
//! The surrounding task performs the calls it asks for and reports back.
use vstd::prelude::*;
use crate::edges::{EdgeTable, StateId};
use crate::transition::Transition;

verus! {

/// Where the runner stands in the current state's cycle.
#[derive(Clone, Copy, PartialEq, Eq, Structural, Debug)]
pub enum Stage {
    /// The state was entered; its status is being produced.
    Entering,
    /// The status was published; the state's handler is running.
    Running,
    /// The machine has stopped.
    Finished,
}

/// An observable step of the runner, in the order in which it was asked for.
pub enum Call {
    /// A state was entered.
    Enter(StateId),
    /// The status of a state was published.
    Patch(StateId),
    /// The handler of a state was run.
    Next(StateId),
    /// A failure status was published.
    PatchFailed,
}

/// How a machine ended.
#[derive(Debug, PartialEq, Eq)]
pub enum Outcome {
    Succeeded,
    /// A domain error: a failure status is published for it.
    Failed(String),
    /// A framework failure: reported upward.
    Fatal(String),
}

/// What the runner asks of its task.
#[derive(Debug, PartialEq, Eq)]
pub enum RunnerAction {
    /// Produce the status of this newly entered state.
    Enter(StateId),
    /// Publish the status just produced, then run this state's handler.
    PublishThenNext(StateId),
    /// Stop; for `Failed`, publish its failure status first.
    Exit(Outcome),
    /// Nothing to do.
    Ignore,
}

/// The mathematical state of a runner.
pub struct RunnerView {
    pub current: StateId,
    pub deleted_state: StateId,
    pub stage: Stage,
    pub deletion_pending: bool,
    pub entered_deleted: bool,
    pub edges: Set<(StateId, StateId)>,
    pub history: Seq<Call>,
}

/// The message of the failure that an undeclared edge causes.
pub open spec fn illegal_edge_message() -> Seq<char> {
    "transition to an undeclared state"@
}

/// A fresh runner in its initial state.
pub open spec fn start(initial: StateId, deleted: StateId, edges: Set<(StateId, StateId)>) -> RunnerView {
    RunnerView {
        current: initial,
        deleted_state: deleted,
        stage: Stage::Entering,
        deletion_pending: false,
        entered_deleted: false,
        edges,
        history: seq![Call::Enter(initial)],
    }
}

/// Whether a pending deletion takes over at the runner's next decision.
pub open spec fn diverts(v: RunnerView) -> bool {
    v.deletion_pending && !v.entered_deleted
}

/// The runner abandons its state and enters the deletion state.
pub open spec fn divert(v: RunnerView) -> RunnerView {
    RunnerView {
        current: v.deleted_state,
        stage: Stage::Entering,
        deletion_pending: false,
        entered_deleted: true,
        history: v.history.push(Call::Enter(v.deleted_state)),
        ..v
    }
}

/// The runner stops, having published `extra` on the way.
pub open spec fn finish(v: RunnerView, extra: Seq<Call>) -> RunnerView {
    RunnerView { stage: Stage::Finished, deletion_pending: false, history: v.history + extra, ..v }
}

/// After the current state's status was produced (`ok`) or failed.
pub open spec fn status_step(v: RunnerView, ok: bool) -> RunnerView {
    if v.stage != Stage::Entering {
        v
    } else if diverts(v) {
        divert(v)
    } else if ok {
        RunnerView {
            stage: Stage::Running,
            history: v.history.push(Call::Patch(v.current)).push(Call::Next(v.current)),
            ..v
        }
    } else {
        finish(v, seq![Call::PatchFailed])
    }
}

/// Whether `t` names a successor through a declared edge from the current state.
pub open spec fn legal_next(v: RunnerView, t: Transition) -> bool {
    match t {
        Transition::Next(h) => h.spec_from() == v.current && v.edges.contains((v.current, h.spec_to())),
        _ => false,
    }
}

/// After the current state's handler returned `t`.
pub open spec fn transition_step(v: RunnerView, t: Transition) -> RunnerView {
    if v.stage != Stage::Running {
        v
    } else {
        match t {
        Transition::Next(h) => if diverts(v) {
            divert(v)
        } else if legal_next(v, t) {
            RunnerView {
                current: h.spec_to(),
                stage: Stage::Entering,
                history: v.history.push(Call::Enter(h.spec_to())),
                ..v
            }
        } else {
            finish(v, Seq::empty())
        },
        Transition::Complete(Ok(())) => finish(v, Seq::empty()),
        Transition::Complete(Err(_)) => finish(v, seq![Call::PatchFailed]),
        Transition::Fatal(_) => finish(v, Seq::empty()),
        }
    }
}

/// After the object's deletion was signalled.
pub open spec fn deletion_step(v: RunnerView) -> RunnerView {
    if v.stage != Stage::Finished && !v.entered_deleted {
        RunnerView { deletion_pending: true, ..v }
    } else {
        v
    }
}

/// Every handler run was immediately preceded by the publication of that state's status.
pub open spec fn status_before_next(h: Seq<Call>) -> bool {
    forall|i: int| 0 <= i < h.len() && (#[trigger] h[i]) is Next
        ==> i > 0 && h[i - 1] == Call::Patch(h[i]->Next_0)
}

/// Every state entered after the first was reached by a declared edge from the
/// state whose handler ran just before, or is the deletion state.
pub open spec fn edges_sound(h: Seq<Call>, edges: Set<(StateId, StateId)>, deleted: StateId) -> bool {
    forall|i: int| 0 < i < h.len() && (#[trigger] h[i]) is Enter
        ==> h[i]->Enter_0 == deleted || (h[i - 1] is Next && edges.contains((h[i - 1]->Next_0, h[i]->Enter_0)))
}

/// The invariant of every runner.
pub open spec fn runner_inv(v: RunnerView) -> bool {
    &&& v.history.len() > 0
    &&& v.history[0] is Enter
    &&& status_before_next(v.history)
    &&& edges_sound(v.history, v.edges, v.deleted_state)
    &&& v.stage == Stage::Entering ==> v.history.last() == Call::Enter(v.current)
    &&& v.stage == Stage::Running ==> v.history.last() == Call::Next(v.current)
    &&& v.deletion_pending ==> v.stage != Stage::Finished && !v.entered_deleted
}

/// Drives one object's machine.
pub struct Runner {
    edges: EdgeTable,
    current: StateId,
    deleted_state: StateId,
    stage: Stage,
    deletion_pending: bool,
    entered_deleted: bool,
    history: Ghost<Seq<Call>>,
}

impl View for Runner {
    type V = RunnerView;

    closed spec fn view(&self) -> RunnerView {
        RunnerView {
            current: self.current,
            deleted_state: self.deleted_state,
            stage: self.stage,
            deletion_pending: self.deletion_pending,
            entered_deleted: self.entered_deleted,
            edges: self.edges@,
            history: self.history@,
        }
    }
}

impl Runner {
    /// A runner that starts in `initial` and goes to `deleted` when the object is
    /// deleted. Its first action is to produce the status of `initial`.
    pub fn new(initial: StateId, deleted: StateId, edges: EdgeTable) -> (r: Runner)
        ensures
            r@ == start(initial, deleted, edges@),
            runner_inv(r@),
    {
        let ghost h0 = seq![Call::Enter(initial)];
        Runner {
            edges,
            current: initial,
            deleted_state: deleted,
            stage: Stage::Entering,
            deletion_pending: false,
            entered_deleted: false,
            history: Ghost(h0),
        }
    }

    /// The state the machine is in.
    pub fn current(&self) -> (r: StateId)
        ensures
            r == self@.current,
    {
        self.current
    }

    /// Where the runner stands in the current state's cycle.
    pub fn stage(&self) -> (r: Stage)
        ensures
            r == self@.stage,
    {
        self.stage
    }

    /// Whether the machine has stopped.
    pub fn is_finished(&self) -> (r: bool)
        ensures
            r == (self@.stage == Stage::Finished),
    {
        self.stage == Stage::Finished
    }

    /// Whether the runner has entered the deletion state.
    pub fn entered_deleted(&self) -> (r: bool)
        ensures
            r == self@.entered_deleted,
    {
        self.entered_deleted
    }

    fn divert_exec(&mut self) -> (r: RunnerAction)
        requires
            runner_inv(old(self)@),
        ensures
            final(self)@ == divert(old(self)@),
            r == RunnerAction::Enter(old(self)@.deleted_state),
    {
        self.current = self.deleted_state;
        self.stage = Stage::Entering;
        self.deletion_pending = false;
        self.entered_deleted = true;
        let ghost h1 = self.history@.push(Call::Enter(self.deleted_state));
        self.history = Ghost(h1);
        RunnerAction::Enter(self.deleted_state)
    }

    /// Reports the result of producing the current state's status. On success the
    /// status is published before the state's handler runs; on failure the handler
    /// is not run and the machine ends with the error. A pending deletion takes
    /// over either way.
    pub fn status_reported(&mut self, status: Result<(), String>) -> (r: RunnerAction)
        requires
            runner_inv(old(self)@),
        ensures
            final(self)@ == status_step(old(self)@, status is Ok),
            runner_inv(final(self)@),
            old(self)@.stage != Stage::Entering ==> r == RunnerAction::Ignore,
            old(self)@.stage == Stage::Entering && diverts(old(self)@)
                ==> r == RunnerAction::Enter(old(self)@.deleted_state),
            old(self)@.stage == Stage::Entering && !diverts(old(self)@) && status is Ok
                ==> r == RunnerAction::PublishThenNext(old(self)@.current),
            old(self)@.stage == Stage::Entering && !diverts(old(self)@) && status is Err
                ==> r == RunnerAction::Exit(Outcome::Failed(status->Err_0)),
    {
        proof {
            lemma_status_step_keeps_inv(self@, status is Ok);
        }
        if self.stage != Stage::Entering {
            return RunnerAction::Ignore;
        }
        if self.deletion_pending && !self.entered_deleted {
            return self.divert_exec();
        }
        match status {
            Ok(()) => {
                self.stage = Stage::Running;
                let ghost h1 = self.history@.push(Call::Patch(self.current)).push(
                    Call::Next(self.current),
                );
                self.history = Ghost(h1);
                RunnerAction::PublishThenNext(self.current)
            },
            Err(e) => {
                self.stage = Stage::Finished;
                self.deletion_pending = false;
                let ghost h1 = self.history@ + seq![Call::PatchFailed];
                self.history = Ghost(h1);
                RunnerAction::Exit(Outcome::Failed(e))
            },
        }
    }

    /// Reports what the current state's handler returned. A successor is adopted
    /// only through a declared edge from the current state; an undeclared one
    /// ends the machine as a framework failure. A pending deletion turns any
    /// successor into the deletion state; an end of the machine stands.
    pub fn transition_returned(&mut self, t: Transition) -> (r: RunnerAction)
        requires
            runner_inv(old(self)@),
        ensures
            final(self)@ == transition_step(old(self)@, t),
            runner_inv(final(self)@),
            old(self)@.stage != Stage::Running ==> r == RunnerAction::Ignore,
            old(self)@.stage == Stage::Running ==> match t {
                Transition::Next(h) => if diverts(old(self)@) {
                    r == RunnerAction::Enter(old(self)@.deleted_state)
                } else if legal_next(old(self)@, t) {
                    r == RunnerAction::Enter(h.spec_to())
                } else {
                    r matches RunnerAction::Exit(Outcome::Fatal(m)) && m@ == illegal_edge_message()
                },
                Transition::Complete(Ok(())) => r == RunnerAction::Exit(Outcome::Succeeded),
                Transition::Complete(Err(e)) => r == RunnerAction::Exit(Outcome::Failed(e)),
                Transition::Fatal(e) => r == RunnerAction::Exit(Outcome::Fatal(e)),
            },
    {
        proof {
            lemma_transition_step_keeps_inv(self@, t);
        }
        if self.stage != Stage::Running {
            return RunnerAction::Ignore;
        }
        match t {
            Transition::Next(h) => {
                if self.deletion_pending && !self.entered_deleted {
                    return self.divert_exec();
                }
                let from = h.from_state();
                let to = h.state();
                if from == self.current && self.edges.allows(self.current, to) {
                    self.current = to;
                    self.stage = Stage::Entering;
                    let ghost h1 = self.history@.push(Call::Enter(to));
                    self.history = Ghost(h1);
                    RunnerAction::Enter(to)
                } else {
                    self.stage = Stage::Finished;
                    self.deletion_pending = false;
                    proof {
                        assert(self.history@ + Seq::<Call>::empty() =~= self.history@);
                    }
                    RunnerAction::Exit(Outcome::Fatal("transition to an undeclared state".to_string()))
                }
            },
            Transition::Complete(result) => {
                self.stage = Stage::Finished;
                self.deletion_pending = false;
                match result {
                    Ok(()) => {
                        proof {
                            assert(self.history@ + Seq::<Call>::empty() =~= self.history@);
                        }
                        RunnerAction::Exit(Outcome::Succeeded)
                    },
                    Err(e) => {
                        let ghost h1 = self.history@ + seq![Call::PatchFailed];
                self.history = Ghost(h1);
                        RunnerAction::Exit(Outcome::Failed(e))
                    },
                }
            },
            Transition::Fatal(e) => {
                self.stage = Stage::Finished;
                self.deletion_pending = false;
                proof {
                    assert(self.history@ + Seq::<Call>::empty() =~= self.history@);
                }
                RunnerAction::Exit(Outcome::Fatal(e))
            },
        }
    }

    /// Signals that the object was deleted. Level-triggered: the runner's next
    /// decision enters the deletion state, unless the machine has stopped or has
    /// already entered it.
    pub fn deletion_signalled(&mut self)
        requires
            runner_inv(old(self)@),
        ensures
            final(self)@ == deletion_step(old(self)@),
            runner_inv(final(self)@),
    {
        if self.stage != Stage::Finished && !self.entered_deleted {
            self.deletion_pending = true;
        }
    }
}

/// Each step of the runner keeps its invariant.
pub proof fn lemma_steps_keep_inv(v: RunnerView, ok: bool, t: Transition)
    requires
        runner_inv(v),
    ensures
        runner_inv(status_step(v, ok)),
        runner_inv(transition_step(v, t)),
        runner_inv(deletion_step(v)),
{
    lemma_status_step_keeps_inv(v, ok);
    lemma_transition_step_keeps_inv(v, t);
}

proof fn lemma_status_step_keeps_inv(v: RunnerView, ok: bool)
    requires
        runner_inv(v),
    ensures
        runner_inv(status_step(v, ok)),
{
    let h = v.history;
    if v.stage == Stage::Entering {
        if diverts(v) {
            lemma_divert_keeps_inv(v);
        } else if ok {
            let h1 = h.push(Call::Patch(v.current));
            let h2 = h1.push(Call::Next(v.current));
            assert forall|i: int| 0 <= i < h2.len() && (#[trigger] h2[i]) is Next
                implies i > 0 && h2[i - 1] == Call::Patch(h2[i]->Next_0) by {
                if i < h.len() {
                    assert(h2[i] == h[i]);
                    assert(h2[i - 1] == h[i - 1]);
                }
            }
            assert forall|i: int| 0 < i < h2.len() && (#[trigger] h2[i]) is Enter
                implies h2[i]->Enter_0 == v.deleted_state || (h2[i - 1] is Next && v.edges.contains((h2[i - 1]->Next_0, h2[i]->Enter_0))) by {
                assert(i < h.len());
                assert(h2[i] == h[i]);
                assert(h2[i - 1] == h[i - 1]);
            }
        } else {
            lemma_finish_keeps_inv(v, seq![Call::PatchFailed]);
        }
    }
}

proof fn lemma_transition_step_keeps_inv(v: RunnerView, t: Transition)
    requires
        runner_inv(v),
    ensures
        runner_inv(transition_step(v, t)),
{
    let h = v.history;
    if v.stage == Stage::Running {
        match t {
            Transition::Next(hd) => {
                if diverts(v) {
                    lemma_divert_keeps_inv(v);
                } else if legal_next(v, t) {
                    let h1 = h.push(Call::Enter(hd.spec_to()));
                    assert forall|i: int| 0 <= i < h1.len() && (#[trigger] h1[i]) is Next
                        implies i > 0 && h1[i - 1] == Call::Patch(h1[i]->Next_0) by {
                        assert(i < h.len());
                        assert(h1[i] == h[i]);
                        assert(h1[i - 1] == h[i - 1]);
                    }
                    assert forall|i: int| 0 < i < h1.len() && (#[trigger] h1[i]) is Enter
                        implies h1[i]->Enter_0 == v.deleted_state || (h1[i - 1] is Next && v.edges.contains((h1[i - 1]->Next_0, h1[i]->Enter_0))) by {
                        if i < h.len() {
                            assert(h1[i] == h[i]);
                            assert(h1[i - 1] == h[i - 1]);
                        } else {
                            assert(h1[i - 1] == h.last());
                        }
                    }
                } else {
                    lemma_finish_keeps_inv(v, Seq::empty());
                }
            },
            Transition::Complete(Ok(())) => lemma_finish_keeps_inv(v, Seq::empty()),
            Transition::Complete(Err(_)) => lemma_finish_keeps_inv(v, seq![Call::PatchFailed]),
            Transition::Fatal(_) => lemma_finish_keeps_inv(v, Seq::empty()),
        }
    }
}

proof fn lemma_divert_keeps_inv(v: RunnerView)
    requires
        runner_inv(v),
    ensures
        runner_inv(divert(v)),
{
    let h = v.history;
    let h1 = h.push(Call::Enter(v.deleted_state));
    assert forall|i: int| 0 <= i < h1.len() && (#[trigger] h1[i]) is Next
        implies i > 0 && h1[i - 1] == Call::Patch(h1[i]->Next_0) by {
        assert(i < h.len());
        assert(h1[i] == h[i]);
        assert(h1[i - 1] == h[i - 1]);
    }
    assert forall|i: int| 0 < i < h1.len() && (#[trigger] h1[i]) is Enter
        implies h1[i]->Enter_0 == v.deleted_state || (h1[i - 1] is Next && v.edges.contains((h1[i - 1]->Next_0, h1[i]->Enter_0))) by {
        if i < h.len() {
            assert(h1[i] == h[i]);
            assert(h1[i - 1] == h[i - 1]);
        }
    }
    assert(h1[0] == h[0]);
}

proof fn lemma_finish_keeps_inv(v: RunnerView, extra: Seq<Call>)
    requires
        runner_inv(v),
        forall|j: int| 0 <= j < extra.len() ==> #[trigger] extra[j] == Call::PatchFailed,
    ensures
        runner_inv(finish(v, extra)),
{
    let h = v.history;
    let h1 = h + extra;
    assert forall|i: int| 0 <= i < h1.len() && (#[trigger] h1[i]) is Next
        implies i > 0 && h1[i - 1] == Call::Patch(h1[i]->Next_0) by {
        if i >= h.len() {
            assert(h1[i] == extra[i - h.len()]);
        } else {
            assert(h1[i] == h[i]);
            assert(h1[i - 1] == h[i - 1]);
        }
    }
    assert forall|i: int| 0 < i < h1.len() && (#[trigger] h1[i]) is Enter
        implies h1[i]->Enter_0 == v.deleted_state || (h1[i - 1] is Next && v.edges.contains((h1[i - 1]->Next_0, h1[i]->Enter_0))) by {
        if i >= h.len() {
            assert(h1[i] == extra[i - h.len()]);
        } else {
            assert(h1[i] == h[i]);
            assert(h1[i - 1] == h[i - 1]);
        }
    }
    assert(h1[0] == h[0]);
}

/// A fresh runner satisfies the runner invariant.
pub proof fn lemma_start_inv(initial: StateId, deleted: StateId, edges: Set<(StateId, StateId)>)
    ensures
        runner_inv(start(initial, deleted, edges)),
{
}

/// In every runner, each run of a state's handler comes right after the
/// publication of that same state's status.
pub proof fn lemma_status_precedes_next(v: RunnerView)
    requires
        runner_inv(v),
    ensures
        status_before_next(v.history),
        forall|i: int| 0 <= i < v.history.len() && (#[trigger] v.history[i]) is Next
            ==> i > 0 && v.history[i - 1] == Call::Patch(v.history[i]->Next_0),
{
}

/// In every runner, each state entered after the first is the deletion state or
/// was reached through a declared edge from the state whose handler ran last.
pub proof fn lemma_entered_states_follow_edges(v: RunnerView)
    requires
        runner_inv(v),
    ensures
        edges_sound(v.history, v.edges, v.deleted_state),
{
}

/// A deletion signalled to a live runner that has not yet entered the deletion
/// state makes its very next decision enter it: after the status being produced
/// (whatever its result), or after the handler in flight if that names a
/// successor. A handler that ends the machine ends it.
pub proof fn lemma_deletion_reaches_deleted_state(v: RunnerView, ok: bool, t: Transition)
    requires
        runner_inv(v),
        v.stage != Stage::Finished,
        !v.entered_deleted,
    ensures
        deletion_step(v).deletion_pending,
        deletion_step(v).stage == Stage::Entering ==> {
            let w = status_step(deletion_step(v), ok);
            w.current == v.deleted_state && w.entered_deleted && w.stage == Stage::Entering
                && w.history == v.history.push(Call::Enter(v.deleted_state))
        },
        deletion_step(v).stage == Stage::Running && t is Next ==> {
            let w = transition_step(deletion_step(v), t);
            w.current == v.deleted_state && w.entered_deleted && w.stage == Stage::Entering
                && w.history == v.history.push(Call::Enter(v.deleted_state))
        },
        deletion_step(v).stage == Stage::Running && !(t is Next) ==> transition_step(
            deletion_step(v),
            t,
        ).stage == Stage::Finished,
{
}

/// An object deleted before its initial state's status was produced enters the
/// deletion state next, without running the initial state's handler.
pub proof fn lemma_early_deletion(initial: StateId, deleted: StateId, edges: Set<(StateId, StateId)>, ok: bool)
    ensures
        ({
            let w = status_step(deletion_step(start(initial, deleted, edges)), ok);
            &&& w.current == deleted
            &&& w.entered_deleted
            &&& w.stage == Stage::Entering
            &&& w.history == seq![Call::Enter(initial), Call::Enter(deleted)]
        }),
{
    assert(seq![Call::Enter(initial)].push(Call::Enter(deleted)) =~= seq![Call::Enter(initial), Call::Enter(deleted)]);
}

/// Once the deletion state was entered, no signal or step diverts to it again:
/// the deletion state is entered through a deletion at most once.
pub proof fn lemma_deletion_entered_once(v: RunnerView, ok: bool, t: Transition)
    requires
        runner_inv(v),
        v.entered_deleted,
    ensures
        deletion_step(v) == v,
        !diverts(v),
        status_step(v, ok).entered_deleted,
        transition_step(v, t).entered_deleted,
{
}

/// A machine that ends, whichever way, stays ended: no further state is entered,
/// nothing more is published, and a later deletion changes nothing.
pub proof fn lemma_end_is_final(v: RunnerView, result: Result<(), String>, ok: bool, t: Transition)
    requires
        runner_inv(v),
        v.stage == Stage::Running,
        !diverts(v),
    ensures
        ({
            let w = transition_step(v, Transition::Complete(result));
            &&& w.stage == Stage::Finished
            &&& result is Ok ==> w.history == v.history
            &&& status_step(w, ok) == w
            &&& transition_step(w, t) == w
            &&& deletion_step(w) == w
        }),
{
    assert(v.history + Seq::<Call>::empty() =~= v.history);
}

} // verus!
