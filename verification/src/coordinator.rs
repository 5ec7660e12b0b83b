//! The composite state machine that every gated system reads.
//!
//! Only the coordinator writes the composite state. A transition to another
//! phase is requested at any time and committed at the start of the next
//! evaluation pass, so a pass never sees a state that is half applied.
use vstd::prelude::*;

use crate::asset_gate::AssetGate;
use crate::game_state::{CompositeState, GameState, GameStateTransitionState};

verus! {

/// What the loading capability reports for the groups of one phase.
#[derive(Clone, Copy, Debug, PartialEq, Eq, Structural)]
pub enum LoadSignal {
    /// Some handle is still outstanding and none has failed.
    Pending,
    /// Every handle of every group in scope is resolved.
    Ready,
    /// A handle in scope failed to load.
    Failed,
}

/// A committed change of phase: the phase that was left and the one entered.
#[derive(Clone, Copy, Debug, PartialEq, Eq, Structural)]
pub struct Transition {
    pub exited: GameState,
    pub entered: GameState,
}

/// What one evaluation pass did.
#[derive(Clone, Copy, Debug, PartialEq, Eq, Structural)]
pub enum PassOutcome {
    /// A requested phase was committed; its loading gate starts over.
    Committed(Transition),
    /// The loading gate is still waiting for handles.
    Waiting,
    /// Loading of the active phase has failed; its loading gate stays shut.
    LoadFailed,
    /// All groups were ready: loading moved to the staging step.
    Advanced,
    /// The staging step was passed: the state is settled.
    Settled,
    /// The state was settled already.
    Idle,
}

/// The coordinator as a plain value: the committed state, the request that
/// waits for the next pass, and whether loading of the active phase failed.
pub struct CoordinatorView {
    pub state: CompositeState,
    pub pending: Option<GameState>,
    pub load_failed: bool,
}

/// The coordinator after the waiting request, if any, is committed.
pub open spec fn after_commit(c: CoordinatorView) -> CoordinatorView {
    match c.pending {
        Some(target) => CoordinatorView {
            state: CompositeState {
                loading: GameStateTransitionState::AssetLoading,
                phase: target,
            },
            pending: None,
            load_failed: false,
        },
        None => c,
    }
}

/// The coordinator after one step of the loading gate under `signal`.
pub open spec fn after_advance(c: CoordinatorView, signal: LoadSignal) -> CoordinatorView {
    match c.state.loading {
        GameStateTransitionState::AssetLoading => if c.load_failed {
            c
        } else {
            match signal {
                LoadSignal::Ready => CoordinatorView {
                    state: CompositeState {
                        loading: GameStateTransitionState::Next,
                        phase: c.state.phase,
                    },
                    ..c
                },
                LoadSignal::Failed => CoordinatorView { load_failed: true, ..c },
                LoadSignal::Pending => c,
            }
        },
        GameStateTransitionState::Next => CoordinatorView {
            state: CompositeState {
                loading: GameStateTransitionState::Done,
                phase: c.state.phase,
            },
            ..c
        },
        GameStateTransitionState::Done => c,
    }
}

/// What a step of the loading gate reports.
pub open spec fn advance_outcome(c: CoordinatorView, signal: LoadSignal) -> PassOutcome {
    match c.state.loading {
        GameStateTransitionState::AssetLoading => if c.load_failed {
            PassOutcome::LoadFailed
        } else {
            match signal {
                LoadSignal::Ready => PassOutcome::Advanced,
                LoadSignal::Failed => PassOutcome::LoadFailed,
                LoadSignal::Pending => PassOutcome::Waiting,
            }
        },
        GameStateTransitionState::Next => PassOutcome::Settled,
        GameStateTransitionState::Done => PassOutcome::Idle,
    }
}

/// The coordinator after one evaluation pass: a waiting request is committed
/// and takes the whole pass; without one the loading gate makes a step.
pub open spec fn after_pass(c: CoordinatorView, signal: LoadSignal) -> CoordinatorView {
    if c.pending is Some {
        after_commit(c)
    } else {
        after_advance(c, signal)
    }
}

/// What an evaluation pass reports.
pub open spec fn pass_outcome(c: CoordinatorView, signal: LoadSignal) -> PassOutcome {
    match c.pending {
        Some(target) => PassOutcome::Committed(
            (Transition { exited: c.state.phase, entered: target }),
        ),
        None => advance_outcome(c, signal),
    }
}

/// The single writer of the composite state.
pub struct StateCoordinator {
    state: CompositeState,
    pending: Option<GameState>,
    load_failed: bool,
}

impl View for StateCoordinator {
    type V = CoordinatorView;

    closed spec fn view(&self) -> CoordinatorView {
        CoordinatorView { state: self.state, pending: self.pending, load_failed: self.load_failed }
    }
}

impl StateCoordinator {
    /// A failure is only ever recorded while the phase is still loading.
    pub open spec fn wf(&self) -> bool {
        self@.load_failed ==> self@.state.loading == GameStateTransitionState::AssetLoading
    }

    /// A coordinator in the process-initial state, with nothing requested.
    pub fn new() -> (r: Self)
        ensures
            r.wf(),
            r@.state == CompositeState::initial(),
            r@.pending is None,
            !r@.load_failed,
    {
        StateCoordinator {
            state: CompositeState {
                loading: GameStateTransitionState::AssetLoading,
                phase: GameState::GameStart,
            },
            pending: None,
            load_failed: false,
        }
    }

    /// The committed state.
    pub fn current(&self) -> (r: CompositeState)
        ensures
            r == self@.state,
    {
        self.state
    }

    /// The request that the next pass will commit, if there is one.
    pub fn pending(&self) -> (r: Option<GameState>)
        ensures
            r == self@.pending,
    {
        self.pending
    }

    /// Whether loading of the active phase has failed.
    pub fn load_failed(&self) -> (r: bool)
        ensures
            r == self@.load_failed,
    {
        self.load_failed
    }

    /// Whether the committed state is exactly `state`.
    pub fn is_in(&self, state: CompositeState) -> (r: bool)
        ensures
            r == (self@.state == state),
    {
        self.state.loading == state.loading && self.state.phase == state.phase
    }

    /// Asks for a transition to `target`. The committed state does not change;
    /// a request that was still waiting is replaced.
    pub fn request(&mut self, target: GameState)
        requires
            old(self).wf(),
        ensures
            final(self).wf(),
            final(self)@ == (CoordinatorView { pending: Some(target), ..old(self)@ }),
    {
        self.pending = Some(target);
    }

    /// Commits the waiting request: the requested phase becomes active and its
    /// loading gate starts over. Without a request nothing changes.
    pub fn commit(&mut self) -> (r: Option<Transition>)
        requires
            old(self).wf(),
        ensures
            final(self).wf(),
            final(self)@ == after_commit(old(self)@),
            r == match old(self)@.pending {
                Some(target) => Some(
                    (Transition { exited: old(self)@.state.phase, entered: target }),
                ),
                None => None,
            },
    {
        match self.pending {
            Some(target) => {
                let exited = self.state.phase;
                self.state = CompositeState {
                    loading: GameStateTransitionState::AssetLoading,
                    phase: target,
                };
                self.pending = None;
                self.load_failed = false;
                Some(Transition { exited, entered: target })
            },
            None => None,
        }
    }

    /// One step of the loading gate. While loading, `Ready` opens it and
    /// `Failed` shuts it until another phase is committed; the staging step
    /// that follows is passed whatever the signal.
    pub fn advance_loading(&mut self, signal: LoadSignal) -> (r: PassOutcome)
        requires
            old(self).wf(),
        ensures
            final(self).wf(),
            final(self)@ == after_advance(old(self)@, signal),
            r == advance_outcome(old(self)@, signal),
    {
        match self.state.loading {
            GameStateTransitionState::AssetLoading => {
                if self.load_failed {
                    PassOutcome::LoadFailed
                } else {
                    match signal {
                        LoadSignal::Ready => {
                            self.state.loading = GameStateTransitionState::Next;
                            PassOutcome::Advanced
                        },
                        LoadSignal::Failed => {
                            self.load_failed = true;
                            PassOutcome::LoadFailed
                        },
                        LoadSignal::Pending => PassOutcome::Waiting,
                    }
                }
            },
            GameStateTransitionState::Next => {
                self.state.loading = GameStateTransitionState::Done;
                PassOutcome::Settled
            },
            GameStateTransitionState::Done => PassOutcome::Idle,
        }
    }

    /// One evaluation pass under a given signal.
    pub fn evaluate_with(&mut self, signal: LoadSignal) -> (r: PassOutcome)
        requires
            old(self).wf(),
        ensures
            final(self).wf(),
            final(self)@ == after_pass(old(self)@, signal),
            r == pass_outcome(old(self)@, signal),
    {
        match self.commit() {
            Some(transition) => PassOutcome::Committed(transition),
            None => self.advance_loading(signal),
        }
    }

    /// One evaluation pass, with the signal read from `gate` for the phase
    /// that is active when the pass begins.
    pub fn evaluate(&mut self, gate: &AssetGate) -> (r: PassOutcome)
        requires
            old(self).wf(),
        ensures
            final(self).wf(),
            final(self)@ == after_pass(old(self)@, gate.spec_signal(old(self)@.state.phase)),
            r == pass_outcome(old(self)@, gate.spec_signal(old(self)@.state.phase)),
    {
        let signal = gate.signal(self.state.phase);
        self.evaluate_with(signal)
    }

    /// The step taken before the first visible tick: the main menu is
    /// requested and committed at once.
    pub fn pre_startup(&mut self)
        requires
            old(self).wf(),
        ensures
            final(self).wf(),
            final(self)@.state == (CompositeState {
                loading: GameStateTransitionState::AssetLoading,
                phase: GameState::MainMenu,
            }),
            final(self)@.pending is None,
            !final(self)@.load_failed,
    {
        self.request(GameState::MainMenu);
        let _ = self.commit();
    }
}

/// A request changes nothing that a gated system can observe before the next
/// pass, and of several requests made before a pass only the last counts.
pub proof fn lemma_last_request_wins(c: CoordinatorView, first: GameState, second: GameState)
    ensures
        (CoordinatorView { pending: Some(first), ..c }).state == c.state,
        after_commit(
            (CoordinatorView {
                pending: Some(second),
                ..(CoordinatorView { pending: Some(first), ..c })
            }),
        ) == after_commit((CoordinatorView { pending: Some(second), ..c })),
        after_commit((CoordinatorView { pending: Some(second), ..c })).state == (CompositeState {
            loading: GameStateTransitionState::AssetLoading,
            phase: second,
        }),
{
}

/// A pass never leaves the declared product, and it moves the loading axis
/// only forwards unless it commits a request: settled stays settled, and the
/// staging step is never taken back to loading.
pub proof fn lemma_pass_is_forward(c: CoordinatorView, signal: LoadSignal)
    requires
        c.pending is None,
    ensures
        crate::game_state::declared_product().contains(after_pass(c, signal).state),
        after_pass(c, signal).state.phase == c.state.phase,
        c.state.loading == GameStateTransitionState::Done ==> after_pass(c, signal).state
            == c.state,
        c.state.loading == GameStateTransitionState::Next ==> after_pass(c, signal).state.loading
            == GameStateTransitionState::Done,
        c.state.loading == GameStateTransitionState::AssetLoading ==> (after_pass(
            c,
            signal,
        ).state.loading == GameStateTransitionState::Next <==> (signal == LoadSignal::Ready
            && !c.load_failed)),
        c.state.loading == GameStateTransitionState::AssetLoading ==> after_pass(
            c,
            signal,
        ).state.loading != GameStateTransitionState::Done,
{
    crate::game_state::lemma_state_in_declared_product(after_pass(c, signal).state);
}

} // verus!
