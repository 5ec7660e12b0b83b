//! The state axes and their pairing.
use vstd::prelude::*;

verus! {

/// How far the content required by the active phase has loaded.
#[derive(Clone, Copy, Debug, PartialEq, Eq, Structural, Hash)]
pub enum GameStateTransitionState {
    /// Required asset groups are still outstanding.
    AssetLoading,
    /// Every required group is ready; a staging step before `Done`.
    Next,
    /// Fully settled: input routing and refresh run only here.
    Done,
}

/// The high-level phase of the application.
#[derive(Clone, Copy, Debug, PartialEq, Eq, Structural, Hash)]
pub enum GameState {
    /// The value a process starts with, before any transition.
    GameStart,
    /// Declared, but no transition leads here yet.
    LoadingScreen,
    MainMenu,
    InGame,
}

/// Whether play is suspended. Nothing reads this axis yet.
#[derive(Clone, Copy, Debug, PartialEq, Eq, Structural, Hash)]
pub enum PauseState {
    Paused,
    Running,
}

impl Default for GameStateTransitionState {
    fn default() -> (r: Self)
        ensures
            r == GameStateTransitionState::AssetLoading,
    {
        GameStateTransitionState::AssetLoading
    }
}

impl Default for GameState {
    fn default() -> (r: Self)
        ensures
            r == GameState::GameStart,
    {
        GameState::GameStart
    }
}

impl Default for PauseState {
    fn default() -> (r: Self)
        ensures
            r == PauseState::Paused,
    {
        PauseState::Paused
    }
}

/// The pair that gates all other behaviour.
#[derive(Clone, Copy, Debug, PartialEq, Eq, Structural, Hash)]
pub struct CompositeState {
    pub loading: GameStateTransitionState,
    pub phase: GameState,
}

/// The loading phases, in the order they are passed through.
pub open spec fn loading_phases() -> Seq<GameStateTransitionState> {
    seq![
        GameStateTransitionState::AssetLoading,
        GameStateTransitionState::Next,
        GameStateTransitionState::Done,
    ]
}

/// The application phases.
pub open spec fn app_phases() -> Seq<GameState> {
    seq![GameState::GameStart, GameState::LoadingScreen, GameState::MainMenu, GameState::InGame]
}

/// The declared product of the two axes.
pub open spec fn declared_product() -> Set<CompositeState> {
    Set::new(
        |s: CompositeState| loading_phases().contains(s.loading) && app_phases().contains(s.phase),
    )
}

impl CompositeState {
    /// The pair of `loading` and `phase`.
    pub fn new(loading: GameStateTransitionState, phase: GameState) -> (r: Self)
        ensures
            r.loading == loading,
            r.phase == phase,
    {
        CompositeState { loading, phase }
    }

    /// The state a process starts in.
    pub open spec fn initial() -> CompositeState {
        CompositeState {
            loading: GameStateTransitionState::AssetLoading,
            phase: GameState::GameStart,
        }
    }

    /// The conjunction of both axis checks that gated systems declare.
    pub fn matches(&self, loading: GameStateTransitionState, phase: GameState) -> (r: bool)
        ensures
            r == (self.loading == loading && self.phase == phase),
    {
        self.loading == loading && self.phase == phase
    }
}

impl Default for CompositeState {
    fn default() -> (r: Self)
        ensures
            r == CompositeState::initial(),
    {
        CompositeState {
            loading: GameStateTransitionState::AssetLoading,
            phase: GameState::GameStart,
        }
    }
}

/// Every pair of axis values lies in the declared product: no state outside
/// it can be built, stored or observed.
pub proof fn lemma_state_in_declared_product(s: CompositeState)
    ensures
        declared_product().contains(s),
{
    assert(loading_phases()[0] == GameStateTransitionState::AssetLoading);
    assert(loading_phases()[1] == GameStateTransitionState::Next);
    assert(loading_phases()[2] == GameStateTransitionState::Done);
    assert(app_phases()[0] == GameState::GameStart);
    assert(app_phases()[1] == GameState::LoadingScreen);
    assert(app_phases()[2] == GameState::MainMenu);
    assert(app_phases()[3] == GameState::InGame);
}

} // verus!
