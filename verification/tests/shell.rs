use std::time::Duration;

use platformer_flow::coordinator::{PassOutcome, Transition};
use platformer_flow::game_state::{CompositeState, GameState, GameStateTransitionState};
use platformer_flow::player::TickOutcome;
use platformer_flow::schedule::{FixedOutcome, Shell};
use platformer_flow::ui::menu::{ButtonResponse, InteractionChange, SoundCue};
use platformer_flow::ui::{ButtonShade, Interaction, RootHandle};

fn state(loading: GameStateTransitionState, phase: GameState) -> CompositeState {
    CompositeState::new(loading, phase)
}

fn route(shell: &mut Shell, node: usize, interaction: Interaction) -> Option<ButtonResponse> {
    let responses = shell.variable_pass(&vec![InteractionChange { node, interaction }]);
    responses.first().copied().flatten()
}

fn settled_menu() -> Shell {
    let mut shell = Shell::new();
    shell.register("menu", GameState::MainMenu, 2).unwrap();
    shell.startup();
    shell.resolve("menu", 0).unwrap();
    shell.resolve("menu", 1).unwrap();
    assert_eq!(shell.evaluation_pass(), PassOutcome::Advanced);
    assert_eq!(shell.evaluation_pass(), PassOutcome::Settled);
    shell
}

fn settled_game() -> Shell {
    let mut shell = settled_menu();
    route(&mut shell, 5, Interaction::Pressed).unwrap();
    shell.evaluation_pass();
    assert_eq!(shell.evaluation_pass(), PassOutcome::Advanced);
    assert_eq!(shell.evaluation_pass(), PassOutcome::Settled);
    shell
}

#[test]
fn startup_reaches_settled_menu_without_input() {
    let mut shell = Shell::new();
    assert_eq!(
        shell.coordinator().current(),
        state(GameStateTransitionState::AssetLoading, GameState::GameStart)
    );
    shell.register("menu", GameState::MainMenu, 2).unwrap();
    shell.startup();
    assert_eq!(
        shell.coordinator().current(),
        state(GameStateTransitionState::AssetLoading, GameState::MainMenu)
    );
    assert_eq!(shell.ui().root_of(GameState::MainMenu), Some(RootHandle { index: 0 }));
    assert_eq!(shell.evaluation_pass(), PassOutcome::Waiting);
    shell.resolve("menu", 0).unwrap();
    assert_eq!(shell.evaluation_pass(), PassOutcome::Waiting);
    assert_eq!(
        shell.coordinator().current(),
        state(GameStateTransitionState::AssetLoading, GameState::MainMenu)
    );
    shell.resolve("menu", 1).unwrap();
    assert_eq!(shell.evaluation_pass(), PassOutcome::Advanced);
    assert_eq!(
        shell.coordinator().current(),
        state(GameStateTransitionState::Next, GameState::MainMenu)
    );
    assert_eq!(shell.evaluation_pass(), PassOutcome::Settled);
    assert_eq!(
        shell.coordinator().current(),
        state(GameStateTransitionState::Done, GameState::MainMenu)
    );
    assert_eq!(shell.evaluation_pass(), PassOutcome::Idle);
}

#[test]
fn pressing_play_leads_to_loading_in_game() {
    let mut shell = settled_menu();
    let r = route(&mut shell, 5, Interaction::Pressed).unwrap();
    assert_eq!(r.request, Some(GameState::InGame));
    assert_eq!(r.cue, Some(SoundCue::Press));
    assert_eq!(r.shade, ButtonShade::Active);
    // The request is not visible within the same tick.
    assert_eq!(
        shell.coordinator().current(),
        state(GameStateTransitionState::Done, GameState::MainMenu)
    );
    assert_eq!(
        shell.evaluation_pass(),
        PassOutcome::Committed(Transition {
            exited: GameState::MainMenu,
            entered: GameState::InGame
        })
    );
    // The game has no asset groups, and still passes through its own gate.
    assert_eq!(
        shell.coordinator().current(),
        state(GameStateTransitionState::AssetLoading, GameState::InGame)
    );
    assert_eq!(shell.ui().root_of(GameState::MainMenu), None);
    assert_eq!(shell.ui().root_of(GameState::InGame), Some(RootHandle { index: 11 }));
    assert_eq!(shell.ui().live_count(), 8);
    assert!(shell.level_timer().is_some());
    assert_eq!(shell.evaluation_pass(), PassOutcome::Advanced);
    assert_eq!(shell.evaluation_pass(), PassOutcome::Settled);
    assert_eq!(
        shell.coordinator().current(),
        state(GameStateTransitionState::Done, GameState::InGame)
    );
}

#[test]
fn input_is_routed_only_in_the_settled_menu() {
    let mut shell = Shell::new();
    shell.register("menu", GameState::MainMenu, 1).unwrap();
    shell.startup();
    assert_eq!(route(&mut shell, 5, Interaction::Pressed), None);
    shell.resolve("menu", 0).unwrap();
    shell.evaluation_pass();
    assert_eq!(shell.coordinator().current().loading, GameStateTransitionState::Next);
    assert_eq!(route(&mut shell, 5, Interaction::Pressed), None);
    assert_eq!(shell.coordinator().pending(), None);
    assert_eq!(shell.ui().node(5).unwrap().interaction(), Interaction::Idle);
    shell.evaluation_pass();
    assert!(route(&mut shell, 5, Interaction::Hovered).is_some());
    assert_eq!(route(&mut shell, 6, Interaction::Hovered), None);
}

#[test]
fn clock_is_refreshed_only_in_the_settled_game() {
    let mut shell = settled_menu();
    assert_eq!(
        shell.fixed_pass(Duration::from_secs(1)),
        FixedOutcome { tick: TickOutcome::NoSingleTimer, refreshed: false }
    );
    route(&mut shell, 5, Interaction::Pressed).unwrap();
    shell.evaluation_pass();
    // Loading: the timer runs, the clock on screen waits.
    assert_eq!(
        shell.fixed_pass(Duration::from_secs(61)),
        FixedOutcome { tick: TickOutcome::Ticked, refreshed: false }
    );
    assert_eq!(shell.ui().node(15).unwrap().text(), "00:00");
    shell.evaluation_pass();
    shell.evaluation_pass();
    assert_eq!(
        shell.fixed_pass(Duration::from_secs(64)),
        FixedOutcome { tick: TickOutcome::Ticked, refreshed: true }
    );
    assert_eq!(shell.ui().node(15).unwrap().text(), "02:05");
    assert_eq!(shell.level_timer().unwrap().elapsed_secs(), 125);
}

#[test]
fn leaving_the_game_destroys_timer_and_overlay() {
    let mut shell = settled_game();
    shell.fixed_pass(Duration::from_secs(30));
    shell.request(GameState::MainMenu);
    assert_eq!(
        shell.evaluation_pass(),
        PassOutcome::Committed(Transition {
            exited: GameState::InGame,
            entered: GameState::MainMenu
        })
    );
    assert!(shell.level_timer().is_none());
    assert_eq!(shell.ui().root_of(GameState::InGame), None);
    assert_eq!(shell.ui().root_of(GameState::MainMenu), Some(RootHandle { index: 19 }));
    assert_eq!(shell.ui().live_count(), 11);
}

#[test]
fn a_new_game_starts_its_timer_at_zero() {
    let mut shell = settled_game();
    shell.fixed_pass(Duration::from_secs(30));
    assert_eq!(shell.level_timer().unwrap().elapsed_secs(), 30);
    shell.request(GameState::InGame);
    shell.evaluation_pass();
    assert!(shell.level_timer().is_some());
    assert_eq!(shell.level_timer().unwrap().elapsed_secs(), 0);
    assert_eq!(shell.ui().live_count(), 8);
    assert_eq!(shell.ui().find_one(platformer_flow::ui::UiTags {
        refreshable: true,
        hud: true,
        timer: true
    }), Some(23));
}

#[test]
fn failed_load_keeps_the_menu_from_settling() {
    let mut shell = Shell::new();
    shell.register("menu", GameState::MainMenu, 2).unwrap();
    shell.startup();
    shell.resolve("menu", 0).unwrap();
    shell.fail("menu", 1).unwrap();
    assert_eq!(shell.evaluation_pass(), PassOutcome::LoadFailed);
    assert!(shell.coordinator().load_failed());
    shell.resolve("menu", 1).unwrap();
    assert_eq!(shell.evaluation_pass(), PassOutcome::LoadFailed);
    assert_eq!(shell.coordinator().current().loading, GameStateTransitionState::AssetLoading);
    assert_eq!(route(&mut shell, 5, Interaction::Pressed), None);
}

#[test]
fn shell_registers_fonts_then_menu_sounds() {
    let mut shell = Shell::new();
    let (fonts, sounds) = shell.load_assets().unwrap();
    assert_eq!((fonts.regular, fonts.bold, fonts.mono), (0, 1, 2));
    assert_eq!((sounds.press_sound, sounds.hover_sound), (0, 1));
    assert_eq!(shell.gate().len(), 2);
    assert_eq!(shell.gate().index_of("fonts"), Some(0));
    assert_eq!(shell.gate().index_of("menu"), Some(1));
    assert!(shell.load_assets().is_err());
    assert_eq!(shell.gate().len(), 2);
    shell.startup();
    assert_eq!(shell.evaluation_pass(), PassOutcome::Waiting);
    shell.resolve("menu", 0).unwrap();
    shell.resolve("menu", 1).unwrap();
    assert_eq!(shell.evaluation_pass(), PassOutcome::Advanced);
}

#[test]
fn new_shell_is_empty_and_at_the_start() {
    let shell = Shell::new();
    assert_eq!(shell.current(), CompositeState::default());
    assert_eq!(shell.coordinator().pending(), None);
    assert_eq!(shell.gate().len(), 0);
    assert_eq!(shell.ui().len(), 0);
    assert!(shell.level_timer().is_none());
}

#[test]
fn nothing_is_answered_outside_the_settled_menu() {
    let mut shell = Shell::new();
    shell.startup();
    let changes = vec![
        InteractionChange { node: 5, interaction: Interaction::Hovered },
        InteractionChange { node: 5, interaction: Interaction::Pressed },
    ];
    assert!(shell.variable_pass(&changes).is_empty());
    assert_eq!(shell.coordinator().pending(), None);
    shell.evaluation_pass();
    shell.evaluation_pass();
    let responses = shell.variable_pass(&changes);
    assert_eq!(responses.len(), 2);
    assert_eq!(responses[0].unwrap().cue, Some(SoundCue::Hover));
    assert_eq!(responses[1].unwrap().request, Some(GameState::InGame));
    assert_eq!(shell.coordinator().pending(), Some(GameState::InGame));
}
