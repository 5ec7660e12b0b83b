use platformer_flow::coordinator::StateCoordinator;
use platformer_flow::game_state::GameState;
use platformer_flow::ui::menu::{
    button_response, cleanup_menu_ui, menu_button_system, render_menu_ui, route_interaction,
    ButtonResponse, InteractionChange, SoundCue,
};
use platformer_flow::ui::{
    ButtonShade, Interaction, LifecycleError, MainMenuUiButton, RootHandle, UiKind, UiTags,
    UiWorld,
};

const NO_TAGS: UiTags = UiTags { refreshable: false, hud: false, timer: false };

#[test]
fn new_world_is_empty() {
    let w = UiWorld::new();
    assert_eq!(w.len(), 0);
    assert_eq!(w.live_count(), 0);
    assert!(w.node(0).is_none());
    assert_eq!(w.root_of(GameState::MainMenu), None);
    assert_eq!(w.find_one(NO_TAGS), None);
}

#[test]
fn menu_tree_has_title_and_three_buttons() {
    let mut w = UiWorld::new();
    assert_eq!(render_menu_ui(&mut w), Ok(RootHandle { index: 0 }));
    assert_eq!(w.len(), 11);
    assert_eq!(w.live_count(), 11);
    let parents: Vec<Option<usize>> = (0..11).map(|i| w.node(i).unwrap().parent()).collect();
    assert_eq!(
        parents,
        vec![
            None,
            Some(0),
            Some(1),
            Some(1),
            Some(0),
            Some(4),
            Some(5),
            Some(4),
            Some(7),
            Some(4),
            Some(9)
        ]
    );
    let texts: Vec<&str> = (0..11).map(|i| w.node(i).unwrap().text()).collect();
    assert_eq!(
        texts,
        vec!["", "", "Another", "2D Platformer", "", "", "PLAY", "", "OPTIONS", "", "QUIT"]
    );
    assert_eq!(w.node(0).unwrap().marker(), Some(GameState::MainMenu));
    assert_eq!(w.node(0).unwrap().kind(), UiKind::Panel);
    for i in 1..11 {
        assert_eq!(w.node(i).unwrap().marker(), None);
        assert!(w.node(i).unwrap().is_alive());
        assert_eq!(w.node(i).unwrap().tags(), NO_TAGS);
    }
    assert_eq!(w.node(5).unwrap().action(), Some(MainMenuUiButton::Play));
    assert_eq!(w.node(7).unwrap().action(), Some(MainMenuUiButton::Options));
    assert_eq!(w.node(9).unwrap().action(), Some(MainMenuUiButton::Quit));
    for i in [5, 7, 9] {
        assert_eq!(w.node(i).unwrap().kind(), UiKind::Button);
        assert_eq!(w.node(i).unwrap().shade(), ButtonShade::Neutral);
        assert_eq!(w.node(i).unwrap().interaction(), Interaction::Idle);
    }
    assert_eq!(w.node(6).unwrap().kind(), UiKind::Label);
    assert_eq!(w.node(6).unwrap().action(), None);
}

#[test]
fn enter_then_exit_leaves_no_live_node() {
    for phase in
        [GameState::GameStart, GameState::LoadingScreen, GameState::MainMenu, GameState::InGame]
    {
        let mut w = UiWorld::new();
        let root = w.enter(phase).unwrap();
        assert_eq!(w.root_of(phase), Some(root));
        assert!(w.live_count() >= 1);
        w.exit(phase);
        assert_eq!(w.live_count(), 0);
        assert_eq!(w.root_of(phase), None);
        for i in 0..w.len() {
            assert!(!w.node(i).unwrap().is_alive());
        }
    }
}

#[test]
fn exit_spares_other_trees() {
    let mut w = UiWorld::new();
    w.enter(GameState::MainMenu).unwrap();
    let hud = w.enter(GameState::InGame).unwrap();
    assert_eq!(hud, RootHandle { index: 11 });
    assert_eq!(w.live_count(), 19);
    w.exit(GameState::MainMenu);
    assert_eq!(w.live_count(), 8);
    for i in 0..11 {
        assert!(!w.node(i).unwrap().is_alive());
    }
    for i in 11..19 {
        assert!(w.node(i).unwrap().is_alive());
    }
    assert_eq!(w.root_of(GameState::InGame), Some(hud));
    // Leaving a phase that has no tree changes nothing.
    w.exit(GameState::LoadingScreen);
    assert_eq!(w.live_count(), 8);
}

#[test]
fn entering_twice_is_rejected() {
    let mut w = UiWorld::new();
    assert_eq!(w.enter(GameState::MainMenu), Ok(RootHandle { index: 0 }));
    assert_eq!(w.enter(GameState::MainMenu), Err(LifecycleError::AlreadyEntered));
    assert_eq!(w.len(), 11);
    assert_eq!(w.live_count(), 11);
    assert_eq!(render_menu_ui(&mut w), Err(LifecycleError::AlreadyEntered));
    assert_eq!(w.len(), 11);
}

#[test]
fn entering_again_after_exit_spawns_a_new_tree() {
    let mut w = UiWorld::new();
    w.enter(GameState::MainMenu).unwrap();
    cleanup_menu_ui(&mut w);
    assert_eq!(w.live_count(), 0);
    assert_eq!(w.enter(GameState::MainMenu), Ok(RootHandle { index: 11 }));
    assert_eq!(w.live_count(), 11);
    assert_eq!(w.node(16).unwrap().parent(), Some(15));
    assert_eq!(w.node(16).unwrap().action(), Some(MainMenuUiButton::Play));
    assert_eq!(w.root_of(GameState::MainMenu), Some(RootHandle { index: 11 }));
}

#[test]
fn phase_without_a_tree_of_its_own_gets_a_bare_root() {
    let mut w = UiWorld::new();
    assert_eq!(w.enter(GameState::LoadingScreen), Ok(RootHandle { index: 0 }));
    assert_eq!(w.len(), 1);
    assert_eq!(w.node(0).unwrap().marker(), Some(GameState::LoadingScreen));
    assert_eq!(w.node(0).unwrap().parent(), None);
    assert_eq!(w.enter(GameState::LoadingScreen), Err(LifecycleError::AlreadyEntered));
}

#[test]
fn find_one_wants_exactly_one_match() {
    let mut w = UiWorld::new();
    let clock = UiTags { refreshable: true, hud: true, timer: true };
    let hud = UiTags { refreshable: false, hud: true, timer: false };
    assert_eq!(w.find_one(clock), None);
    w.enter(GameState::InGame).unwrap();
    assert_eq!(w.find_one(clock), Some(4));
    assert_eq!(w.find_one(UiTags { refreshable: true, hud: false, timer: false }), Some(4));
    // Two elements of the overlay carry the overlay marker: none is picked.
    assert_eq!(w.find_one(hud), None);
    assert_eq!(w.find_one(NO_TAGS), None);
    w.exit(GameState::InGame);
    assert_eq!(w.find_one(clock), None);
}

#[test]
fn response_maps_state_to_shade() {
    let a = MainMenuUiButton::Options;
    assert_eq!(
        button_response(a, Interaction::Hovered, Interaction::Idle).shade,
        ButtonShade::Neutral
    );
    assert_eq!(
        button_response(a, Interaction::Idle, Interaction::Hovered).shade,
        ButtonShade::Highlighted
    );
    assert_eq!(
        button_response(a, Interaction::Hovered, Interaction::Pressed).shade,
        ButtonShade::Active
    );
}

#[test]
fn cues_come_on_edges_only() {
    let a = MainMenuUiButton::Play;
    assert_eq!(
        button_response(a, Interaction::Idle, Interaction::Hovered).cue,
        Some(SoundCue::Hover)
    );
    assert_eq!(button_response(a, Interaction::Hovered, Interaction::Hovered).cue, None);
    assert_eq!(
        button_response(a, Interaction::Hovered, Interaction::Pressed).cue,
        Some(SoundCue::Press)
    );
    assert_eq!(button_response(a, Interaction::Pressed, Interaction::Pressed).cue, None);
    assert_eq!(
        button_response(a, Interaction::Pressed, Interaction::Hovered).cue,
        Some(SoundCue::Hover)
    );
    assert_eq!(button_response(a, Interaction::Hovered, Interaction::Idle).cue, None);
    assert_eq!(button_response(a, Interaction::Pressed, Interaction::Pressed).request, None);
}

#[test]
fn pressing_play_requests_the_game() {
    let r = button_response(MainMenuUiButton::Play, Interaction::Hovered, Interaction::Pressed);
    assert_eq!(
        r,
        ButtonResponse {
            shade: ButtonShade::Active,
            cue: Some(SoundCue::Press),
            request: Some(GameState::InGame),
            unsupported: None,
        }
    );
}

#[test]
fn options_and_quit_report_not_implemented() {
    for action in [MainMenuUiButton::Options, MainMenuUiButton::Quit] {
        let r = button_response(action, Interaction::Hovered, Interaction::Pressed);
        assert_eq!(r.unsupported, Some(action));
        assert_eq!(r.request, None);
        assert_eq!(r.cue, Some(SoundCue::Press));
        let held = button_response(action, Interaction::Pressed, Interaction::Pressed);
        assert_eq!(held.unsupported, None);
    }
}

#[test]
fn button_system_records_state_and_requests() {
    let mut w = UiWorld::new();
    let mut c = StateCoordinator::new();
    w.enter(GameState::MainMenu).unwrap();
    let r = route_interaction(&mut w, &mut c, 5, Interaction::Hovered).unwrap();
    assert_eq!(r.cue, Some(SoundCue::Hover));
    assert_eq!(w.node(5).unwrap().interaction(), Interaction::Hovered);
    assert_eq!(w.node(5).unwrap().shade(), ButtonShade::Highlighted);
    assert_eq!(c.pending(), None);
    let r = route_interaction(&mut w, &mut c, 5, Interaction::Pressed).unwrap();
    assert_eq!(r.request, Some(GameState::InGame));
    assert_eq!(c.pending(), Some(GameState::InGame));
    assert_eq!(w.node(5).unwrap().shade(), ButtonShade::Active);
    // Still pressed: no second cue, no second request.
    let r = route_interaction(&mut w, &mut c, 5, Interaction::Pressed).unwrap();
    assert_eq!(r.cue, None);
    assert_eq!(r.request, None);
    let r = route_interaction(&mut w, &mut c, 7, Interaction::Pressed).unwrap();
    assert_eq!(r.unsupported, Some(MainMenuUiButton::Options));
    assert_eq!(c.pending(), Some(GameState::InGame));
}

#[test]
fn button_system_ignores_what_is_no_live_button() {
    let mut w = UiWorld::new();
    let mut c = StateCoordinator::new();
    w.enter(GameState::MainMenu).unwrap();
    assert_eq!(route_interaction(&mut w, &mut c, 6, Interaction::Pressed), None);
    assert_eq!(route_interaction(&mut w, &mut c, 0, Interaction::Pressed), None);
    assert_eq!(route_interaction(&mut w, &mut c, 99, Interaction::Pressed), None);
    w.exit(GameState::MainMenu);
    assert_eq!(route_interaction(&mut w, &mut c, 5, Interaction::Pressed), None);
    assert_eq!(c.pending(), None);
    assert_eq!(w.node(5).unwrap().interaction(), Interaction::Idle);
}

#[test]
fn changes_of_one_tick_are_routed_in_order() {
    let mut w = UiWorld::new();
    let mut c = StateCoordinator::new();
    w.enter(GameState::MainMenu).unwrap();
    let changes = vec![
        InteractionChange { node: 7, interaction: Interaction::Hovered },
        InteractionChange { node: 6, interaction: Interaction::Hovered },
        InteractionChange { node: 5, interaction: Interaction::Pressed },
        InteractionChange { node: 7, interaction: Interaction::Hovered },
        InteractionChange { node: 7, interaction: Interaction::Idle },
        InteractionChange { node: 5, interaction: Interaction::Pressed },
    ];
    let responses = menu_button_system(&mut w, &mut c, &changes);
    assert_eq!(responses.len(), 6);
    assert_eq!(responses[0].unwrap().cue, Some(SoundCue::Hover));
    assert_eq!(responses[1], None);
    assert_eq!(
        responses[2],
        Some(ButtonResponse {
            shade: ButtonShade::Active,
            cue: Some(SoundCue::Press),
            request: Some(GameState::InGame),
            unsupported: None,
        })
    );
    // The second report of the same state is no edge.
    assert_eq!(responses[3].unwrap().cue, None);
    assert_eq!(responses[3].unwrap().shade, ButtonShade::Highlighted);
    assert_eq!(responses[4].unwrap().shade, ButtonShade::Neutral);
    assert_eq!(responses[5].unwrap().request, None);
    assert_eq!(w.node(7).unwrap().interaction(), Interaction::Idle);
    assert_eq!(w.node(7).unwrap().shade(), ButtonShade::Neutral);
    assert_eq!(w.node(5).unwrap().shade(), ButtonShade::Active);
    assert_eq!(c.pending(), Some(GameState::InGame));
    assert_eq!(c.current().phase, GameState::GameStart);
}

#[test]
fn no_changes_no_responses() {
    let mut w = UiWorld::new();
    let mut c = StateCoordinator::new();
    w.enter(GameState::MainMenu).unwrap();
    assert!(menu_button_system(&mut w, &mut c, &Vec::new()).is_empty());
    assert_eq!(c.pending(), None);
}
