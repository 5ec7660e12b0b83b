//! The shell: the coordinator together with everything it gates.
//!
//! The scheduler outside drives three passes. The evaluation pass commits a
//! requested phase or moves the loading gate, and swaps the trees and the
//! level timer when the phase changes. The variable-rate pass routes button
//! interactions, and the fixed-rate pass ticks the timer and refreshes the
//! clock; both touch the interface only in the settled state they are for.
use std::time::Duration;
use vstd::prelude::*;

use crate::asset_gate::{
    has_group, has_handle, names_unique, resolves_into, signal_for, AssetGate, GateError, GroupView,
    HandleStatus,
};
use crate::coordinator::{
    after_pass, pass_outcome, CoordinatorView, PassOutcome, StateCoordinator,
};
use crate::game_state::{CompositeState, GameState, GameStateTransitionState};
use crate::menu::{menu_group, MenuAssetCollection};
use crate::player::{
    duration_nanos, max_duration_nanos, tick_level_timer, whole_seconds, LevelTimer, TickOutcome,
};
use crate::ui::hud::{clock_text, timer_text_tags, update_hud_timer};
use crate::ui::menu::{menu_button_system, routed_all, ButtonResponse, InteractionChange};
use crate::ui::{
    font_group, has_live_root, is_live_root, is_sole, is_tree_of, load_assets, phase_tree,
    same_shape,
    torn_down, world_wf, FontAssetCollection, NodeView, UiWorld,
};

verus! {

/// The state in which button interactions are routed.
pub open spec fn input_live(state: CompositeState) -> bool {
    state.loading == GameStateTransitionState::Done && state.phase == GameState::MainMenu
}

/// The state in which the clock on screen is refreshed.
pub open spec fn refresh_live(state: CompositeState) -> bool {
    state.loading == GameStateTransitionState::Done && state.phase == GameState::InGame
}

/// What a fixed-rate pass did.
#[derive(Clone, Copy, Debug, PartialEq, Eq, Structural)]
pub struct FixedOutcome {
    pub tick: TickOutcome,
    /// Whether the clock on screen was rewritten.
    pub refreshed: bool,
}

/// The shell as plain values. A timer stands for its elapsed nanoseconds.
pub struct ShellView {
    pub coordinator: CoordinatorView,
    pub gate: Seq<GroupView>,
    pub ui: Seq<NodeView>,
    pub timers: Seq<nat>,
}

/// What holds of a shell at every moment: the arena and the asset gate are
/// well formed, only the active phase has a live tree, and a level timer
/// exists exactly while the game is the active phase.
pub open spec fn shell_inv(s: ShellView) -> bool {
    &&& world_wf(s.ui)
    &&& names_unique(s.gate)
    &&& s.coordinator.load_failed ==> s.coordinator.state.loading
        == GameStateTransitionState::AssetLoading
    &&& forall|phase: GameState| #[trigger]
        has_live_root(s.ui, phase) ==> phase == s.coordinator.state.phase
    &&& s.timers.len() == if s.coordinator.state.phase == GameState::InGame {
        1nat
    } else {
        0nat
    }
}

/// The coordinator and what it gates.
pub struct Shell {
    coordinator: StateCoordinator,
    gate: AssetGate,
    ui: UiWorld,
    timers: Vec<LevelTimer>,
}

impl View for Shell {
    type V = ShellView;

    closed spec fn view(&self) -> ShellView {
        ShellView {
            coordinator: self.coordinator@,
            gate: self.gate@,
            ui: self.ui@,
            timers: self.timers@.map_values(|t: LevelTimer| t@),
        }
    }
}

impl Shell {
    /// The parts are well formed and fit together.
    pub closed spec fn wf(&self) -> bool {
        &&& shell_inv(self@)
        &&& self.coordinator.wf()
        &&& self.gate.wf()
        &&& self.ui.wf()
        &&& forall|i: int| 0 <= i < self.timers@.len() ==> (#[trigger] self.timers@[i]).wf()
    }

    /// A well-formed shell satisfies the invariant of shells.
    pub proof fn lemma_wf_gives_inv(&self)
        requires
            self.wf(),
        ensures
            shell_inv(self@),
    {
    }

    /// A shell in the process-initial state: no groups, no trees, no timer.
    pub fn new() -> (r: Self)
        ensures
            r.wf(),
            r@.coordinator == (CoordinatorView {
                state: CompositeState::initial(),
                pending: None,
                load_failed: false,
            }),
            r@.gate == Seq::<GroupView>::empty(),
            r@.ui == Seq::<NodeView>::empty(),
            r@.timers == Seq::<nat>::empty(),
    {
        let r = Shell {
            coordinator: StateCoordinator::new(),
            gate: AssetGate::new(),
            ui: UiWorld::new(),
            timers: Vec::new(),
        };
        proof {
            assert(r@.timers =~= Seq::<nat>::empty());
            assert forall|phase: GameState| !has_live_root(r@.ui, phase) by {
                if has_live_root(r@.ui, phase) {
                    let i = choose|i: int| is_live_root(r@.ui, i, phase);
                }
            }
        }
        r
    }

    /// The coordinator, to read.
    pub fn coordinator(&self) -> (r: &StateCoordinator)
        ensures
            r@ == self@.coordinator,
    {
        &self.coordinator
    }

    /// The asset gate, to read.
    pub fn gate(&self) -> (r: &AssetGate)
        ensures
            r@ == self@.gate,
    {
        &self.gate
    }

    /// The arena, to read.
    pub fn ui(&self) -> (r: &UiWorld)
        ensures
            r@ == self@.ui,
    {
        &self.ui
    }

    /// The committed state.
    pub fn current(&self) -> (r: CompositeState)
        ensures
            r == self@.coordinator.state,
    {
        self.coordinator.current()
    }

    /// The level timer of the game in progress, to read.
    pub fn level_timer(&self) -> (r: Option<&LevelTimer>)
        ensures
            match r {
                Some(t) => self@.timers.len() == 1 && t@ == self@.timers[0],
                None => self@.timers.len() != 1,
            },
    {
        if self.timers.len() == 1 {
            Some(&self.timers[0])
        } else {
            None
        }
    }

    /// Asks for a transition to `target`; see [`StateCoordinator::request`].
    pub fn request(&mut self, target: GameState)
        requires
            old(self).wf(),
        ensures
            final(self).wf(),
            final(self)@ == (ShellView {
                coordinator: CoordinatorView { pending: Some(target), ..old(self)@.coordinator },
                ..old(self)@
            }),
    {
        self.coordinator.request(target);
    }

    /// Registers the groups the shell itself needs: the fonts, then the
    /// sounds of the menu. The first refusal ends the call.
    pub fn load_assets(&mut self) -> (r: Result<
        (FontAssetCollection, MenuAssetCollection),
        GateError,
    >)
        requires
            old(self).wf(),
        ensures
            final(self).wf(),
            final(self)@.coordinator == old(self)@.coordinator,
            final(self)@.ui == old(self)@.ui,
            final(self)@.timers == old(self)@.timers,
            r is Ok <==> !has_group(old(self)@.gate, "fonts"@) && !has_group(
                old(self)@.gate,
                "menu"@,
            ),
            match r {
                Ok(found) => {
                    &&& final(self)@.gate == old(self)@.gate.push(font_group()).push(menu_group())
                    &&& found.0 == (FontAssetCollection { regular: 0, bold: 1, mono: 2 })
                    &&& found.1 == (MenuAssetCollection { press_sound: 0, hover_sound: 1 })
                },
                Err(e) => {
                    &&& e == GateError::DuplicateGroup
                    &&& final(self)@.gate == if has_group(old(self)@.gate, "fonts"@) {
                        old(self)@.gate
                    } else {
                        old(self)@.gate.push(font_group())
                    }
                },
            },
    {
        proof {
            reveal_strlit("fonts");
            reveal_strlit("menu");
            assert("fonts"@ != "menu"@) by {
                assert("fonts"@.len() == 5);
                assert("menu"@.len() == 4);
            }
        }
        let fonts = match load_assets(&mut self.gate) {
            Ok(fonts) => fonts,
            Err(e) => {
                return Err(e);
            },
        };
        proof {
            let mid = old(self)@.gate.push(font_group());
            assert(has_group(mid, "menu"@) <==> has_group(old(self)@.gate, "menu"@)) by {
                if has_group(mid, "menu"@) {
                    let k = choose|k: int| 0 <= k < mid.len() && mid[k].name == "menu"@;
                    assert(k < old(self)@.gate.len());
                    assert(old(self)@.gate[k].name == "menu"@);
                }
                if has_group(old(self)@.gate, "menu"@) {
                    let k = choose|k: int|
                        0 <= k < old(self)@.gate.len() && old(self)@.gate[k].name == "menu"@;
                    assert(mid[k].name == "menu"@);
                }
            }
        }
        match MenuAssetCollection::register(&mut self.gate) {
            Ok(sounds) => Ok((fonts, sounds)),
            Err(e) => Err(e),
        }
    }

    /// Registers an asset group; see [`AssetGate::register`].
    pub fn register(&mut self, name: &str, scope: GameState, required: usize) -> (r: Result<
        usize,
        GateError,
    >)
        requires
            old(self).wf(),
        ensures
            final(self).wf(),
            final(self)@.coordinator == old(self)@.coordinator,
            final(self)@.ui == old(self)@.ui,
            final(self)@.timers == old(self)@.timers,
            match r {
                Ok(k) => {
                    &&& !has_group(old(self)@.gate, name@)
                    &&& k == old(self)@.gate.len()
                    &&& final(self)@.gate == old(self)@.gate.push(
                        (GroupView {
                            name: name@,
                            scope,
                            handles: Seq::new(required as nat, |i: int| HandleStatus::Pending),
                        }),
                    )
                },
                Err(e) => {
                    &&& e == GateError::DuplicateGroup
                    &&& has_group(old(self)@.gate, name@)
                    &&& final(self)@.gate == old(self)@.gate
                },
            },
    {
        self.gate.register(name, scope, required)
    }

    /// Records that a handle resolved; see [`AssetGate::resolve`].
    pub fn resolve(&mut self, name: &str, handle: usize) -> (r: Result<(), GateError>)
        requires
            old(self).wf(),
        ensures
            final(self).wf(),
            final(self)@.coordinator == old(self)@.coordinator,
            final(self)@.ui == old(self)@.ui,
            final(self)@.timers == old(self)@.timers,
            resolves_into(old(self)@.gate, final(self)@.gate),
            r == Err::<(), GateError>(GateError::UnknownGroup) <==> !has_group(
                old(self)@.gate,
                name@,
            ),
            r is Ok <==> has_handle(old(self)@.gate, name@, handle as int),
            r is Err ==> final(self)@.gate == old(self)@.gate,
            forall|k: int|
                0 <= k < old(self)@.gate.len() && old(self)@.gate[k].name == name@ ==> {
                    &&& r == Err::<(), GateError>(GateError::UnknownHandle) <==> handle >= old(self)@.gate[k].handles.len()
                    &&& r is Ok ==> final(self)@.gate == old(self)@.gate.update(
                        k,
                        (GroupView {
                            handles: old(self)@.gate[k].handles.update(
                                handle as int,
                                HandleStatus::Resolved,
                            ),
                            ..old(self)@.gate[k]
                        }),
                    )
                },
    {
        self.gate.resolve(name, handle)
    }

    /// Records that a handle failed to load; see [`AssetGate::fail`].
    pub fn fail(&mut self, name: &str, handle: usize) -> (r: Result<(), GateError>)
        requires
            old(self).wf(),
        ensures
            final(self).wf(),
            final(self)@.coordinator == old(self)@.coordinator,
            final(self)@.ui == old(self)@.ui,
            final(self)@.timers == old(self)@.timers,
            resolves_into(old(self)@.gate, final(self)@.gate),
            r == Err::<(), GateError>(GateError::UnknownGroup) <==> !has_group(
                old(self)@.gate,
                name@,
            ),
            r is Ok <==> has_handle(old(self)@.gate, name@, handle as int),
            r is Err ==> final(self)@.gate == old(self)@.gate,
            forall|k: int|
                0 <= k < old(self)@.gate.len() && old(self)@.gate[k].name == name@ ==> {
                    &&& r == Err::<(), GateError>(GateError::UnknownHandle) <==> handle >= old(self)@.gate[k].handles.len()
                    &&& r is Ok ==> final(self)@.gate == old(self)@.gate.update(
                        k,
                        (GroupView {
                            handles: old(self)@.gate[k].handles.update(
                                handle as int,
                                if old(self)@.gate[k].handles[handle as int]
                                    == HandleStatus::Resolved {
                                    HandleStatus::Resolved
                                } else {
                                    HandleStatus::Failed
                                },
                            ),
                            ..old(self)@.gate[k]
                        }),
                    )
                },
    {
        self.gate.fail(name, handle)
    }

    /// Swaps what belongs to a phase: the tree of `exited` is torn down and
    /// that of `entered` spawned, and the level timer goes and comes with
    /// the game.
    fn swap_phase(&mut self, exited: GameState, entered: GameState)
        requires
            old(self).ui.wf(),
            forall|phase: GameState| #[trigger]
                has_live_root(old(self).ui@, phase) ==> phase == exited,
        ensures
            final(self).coordinator == old(self).coordinator,
            final(self).gate == old(self).gate,
            final(self).ui.wf(),
            final(self).ui@ == torn_down(old(self).ui@, exited) + phase_tree(
                entered,
                old(self).ui@.len() as int,
            ),
            forall|phase: GameState| #[trigger]
                has_live_root(final(self).ui@, phase) ==> phase == entered,
            forall|i: int|
                0 <= i < final(self).timers@.len() ==> (#[trigger] final(self).timers@[i]).wf(),
            final(self)@.timers == if entered == GameState::InGame {
                seq![0nat]
            } else {
                Seq::<nat>::empty()
            },
    {
        self.ui.exit(exited);
        let ghost cleared = self.ui@;
        proof {
            assert forall|phase: GameState| !has_live_root(cleared, phase) by {
                if has_live_root(cleared, phase) {
                    let i = choose|i: int| is_live_root(cleared, i, phase);
                    assert(is_live_root(old(self).ui@, i, phase));
                    assert(has_live_root(old(self).ui@, phase));
                    assert(phase == exited);
                }
            }
        }
        let _ = self.ui.enter(entered);
        proof {
            let tree = phase_tree(entered, cleared.len() as int);
            assert(is_tree_of(tree, cleared.len() as int, entered));
            assert forall|phase: GameState| #[trigger]
                has_live_root(self.ui@, phase) implies phase == entered by {
                let i = choose|i: int| is_live_root(self.ui@, i, phase);
                assert(!has_live_root(cleared, entered));
                assert(self.ui@ == cleared + tree);
                if i < cleared.len() {
                    assert(self.ui@[i] == cleared[i]);
                    assert(is_live_root(cleared, i, phase));
                    assert(has_live_root(cleared, phase));
                } else {
                    assert(self.ui@[i] == tree[i - cleared.len()]);
                }
            }
        }
        self.timers = Vec::new();
        match entered {
            GameState::InGame => {
                self.timers.push(LevelTimer::new());
            },
            _ => {},
        }
        proof {
            if entered == GameState::InGame {
                assert(self@.timers =~= seq![0nat]);
            } else {
                assert(self@.timers =~= Seq::<nat>::empty());
            }
        }
    }

    /// One evaluation pass. A requested phase is committed and takes the
    /// whole pass: its loading gate starts over, the tree of the phase left
    /// is torn down and that of the phase entered is spawned, and the level
    /// timer is dropped and, for the game, started anew at zero. Without a
    /// request the loading gate makes one step on what the asset gate says.
    pub fn evaluation_pass(&mut self) -> (r: PassOutcome)
        requires
            old(self).wf(),
        ensures
            final(self).wf(),
            final(self)@.gate == old(self)@.gate,
            r == pass_outcome(
                old(self)@.coordinator,
                signal_for(old(self)@.gate, old(self)@.coordinator.state.phase),
            ),
            final(self)@.coordinator == after_pass(
                old(self)@.coordinator,
                signal_for(old(self)@.gate, old(self)@.coordinator.state.phase),
            ),
            match old(self)@.coordinator.pending {
                Some(target) => {
                    &&& final(self)@.ui == torn_down(
                        old(self)@.ui,
                        old(self)@.coordinator.state.phase,
                    ) + phase_tree(target, old(self)@.ui.len() as int)
                    &&& final(self)@.timers == if target == GameState::InGame {
                        seq![0nat]
                    } else {
                        Seq::<nat>::empty()
                    }
                },
                None => final(self)@.ui == old(self)@.ui && final(self)@.timers == old(self)@.timers,
            },
    {
        let outcome = self.coordinator.evaluate(&self.gate);
        match outcome {
            PassOutcome::Committed(transition) => {
                self.swap_phase(transition.exited, transition.entered);
            },
            _ => {},
        }
        outcome
    }

    /// The step before the first visible tick: the main menu becomes the
    /// active phase, with its loading gate shut and its tree spawned.
    pub fn startup(&mut self)
        requires
            old(self).wf(),
        ensures
            final(self).wf(),
            final(self)@.gate == old(self)@.gate,
            final(self)@.coordinator == (CoordinatorView {
                state: CompositeState {
                    loading: GameStateTransitionState::AssetLoading,
                    phase: GameState::MainMenu,
                },
                pending: None,
                load_failed: false,
            }),
            final(self)@.ui == torn_down(old(self)@.ui, old(self)@.coordinator.state.phase)
                + phase_tree(GameState::MainMenu, old(self)@.ui.len() as int),
            final(self)@.timers == Seq::<nat>::empty(),
    {
        let exited = self.coordinator.current().phase;
        self.coordinator.pre_startup();
        self.swap_phase(exited, GameState::MainMenu);
    }

    /// The variable-rate pass over the changes of interaction state that one
    /// tick reported. In the settled main menu they are routed in order and
    /// each gets its response; in any other state nothing is routed, nothing
    /// changes and there are no responses.
    pub fn variable_pass(&mut self, changes: &Vec<InteractionChange>) -> (r: Vec<
        Option<ButtonResponse>,
    >)
        requires
            old(self).wf(),
        ensures
            final(self).wf(),
            final(self)@.gate == old(self)@.gate,
            final(self)@.timers == old(self)@.timers,
            final(self)@.coordinator.state == old(self)@.coordinator.state,
            input_live(old(self)@.coordinator.state) ==> (
                final(self)@.ui,
                final(self)@.coordinator,
                r@,
            ) == routed_all(old(self)@.ui, old(self)@.coordinator, changes@),
            !input_live(old(self)@.coordinator.state) ==> final(self)@ == old(self)@ && r@.len()
                == 0,
    {
        let live = self.coordinator.is_in(
            CompositeState { loading: GameStateTransitionState::Done, phase: GameState::MainMenu },
        );
        if !live {
            return Vec::new();
        }
        let r = menu_button_system(&mut self.ui, &mut self.coordinator, changes);
        proof {
            lemma_same_shape_keeps_roots(old(self).ui@, self.ui@);
        }
        r
    }

    /// The fixed-rate pass. The level timer, where there is exactly one,
    /// advances by `delta`; in the settled game the clock on screen is then
    /// rewritten, where there is exactly one clock element.
    pub fn fixed_pass(&mut self, delta: Duration) -> (r: FixedOutcome)
        requires
            old(self).wf(),
        ensures
            final(self).wf(),
            final(self)@.gate == old(self)@.gate,
            final(self)@.coordinator == old(self)@.coordinator,
            final(self)@.timers.len() == old(self)@.timers.len(),
            old(self)@.timers.len() != 1 ==> r.tick == TickOutcome::NoSingleTimer && !r.refreshed
                && final(self)@.timers == old(self)@.timers,
            old(self)@.timers.len() == 1 ==> {
                let fits = old(self)@.timers[0] + duration_nanos(delta) <= max_duration_nanos();
                &&& r.tick == if fits {
                    TickOutcome::Ticked
                } else {
                    TickOutcome::Saturated
                }
                &&& final(self)@.timers[0] == if fits {
                    old(self)@.timers[0] + duration_nanos(delta)
                } else {
                    old(self)@.timers[0]
                }
            },
            r.refreshed <==> (refresh_live(old(self)@.coordinator.state) && old(self)@.timers.len() == 1 && exists|t: int| is_sole(old(self)@.ui, timer_text_tags(), t)),
            !r.refreshed ==> final(self)@.ui == old(self)@.ui,
            r.refreshed ==> forall|t: int|
                is_sole(old(self)@.ui, timer_text_tags(), t) ==> final(self)@.ui == old(self)@.ui.update(
                    t,
                    (NodeView {
                        text: clock_text(whole_seconds(final(self)@.timers[0])),
                        ..old(self)@.ui[t]
                    }),
                ),
    {
        let tick = tick_level_timer(&mut self.timers, delta);
        let live = self.coordinator.is_in(
            CompositeState { loading: GameStateTransitionState::Done, phase: GameState::InGame },
        );
        let refreshed = if live {
            update_hud_timer(&mut self.ui, &self.timers)
        } else {
            false
        };
        proof {
            if refreshed {
                let t = choose|t: int| is_sole(old(self).ui@, timer_text_tags(), t);
                assert(same_shape(old(self).ui@, self.ui@));
                lemma_same_shape_keeps_roots(old(self).ui@, self.ui@);
            }
            assert(self@.timers.len() == old(self)@.timers.len());
            if old(self)@.timers.len() == 1 {
                assert(self@.timers[0] == self.timers@[0]@);
                assert(old(self)@.timers[0] == old(self).timers@[0]@);
            }
        }
        FixedOutcome { tick, refreshed }
    }
}

/// Arenas of the same shape have the same live roots.
pub proof fn lemma_same_shape_keeps_roots(a: Seq<NodeView>, b: Seq<NodeView>)
    requires
        same_shape(a, b),
    ensures
        forall|phase: GameState| has_live_root(a, phase) == has_live_root(b, phase),
{
    assert forall|phase: GameState| has_live_root(a, phase) == has_live_root(b, phase) by {
        if has_live_root(a, phase) {
            let i = choose|i: int| is_live_root(a, i, phase);
            assert(is_live_root(b, i, phase));
        }
        if has_live_root(b, phase) {
            let i = choose|i: int| is_live_root(b, i, phase);
            assert(is_live_root(a, i, phase));
        }
    }
}

/// Gated systems run only in the settled state: while a phase is loading or
/// staged, neither input routing nor refresh is live, and the two are never
/// live together.
pub proof fn lemma_gates_need_settled_state(state: CompositeState)
    ensures
        state.loading != GameStateTransitionState::Done ==> !input_live(state) && !refresh_live(
            state,
        ),
        !(input_live(state) && refresh_live(state)),
{
}

} // verus!
