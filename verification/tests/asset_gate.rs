use platformer_flow::asset_gate::{AssetGate, GateError};
use platformer_flow::coordinator::LoadSignal;
use platformer_flow::game_state::GameState;

#[test]
fn empty_gate_is_ready_for_every_scope() {
    let gate = AssetGate::new();
    assert_eq!(gate.len(), 0);
    assert!(gate.all_ready(GameState::MainMenu));
    assert!(gate.all_ready(GameState::InGame));
    assert!(!gate.any_failed(GameState::MainMenu));
    assert_eq!(gate.signal(GameState::InGame), LoadSignal::Ready);
    assert!(!gate.is_ready("menu"));
}

#[test]
fn register_gives_positions_and_refuses_duplicates() {
    let mut gate = AssetGate::new();
    assert_eq!(gate.register("fonts", GameState::GameStart, 3), Ok(0));
    assert_eq!(gate.register("menu", GameState::MainMenu, 2), Ok(1));
    assert_eq!(gate.register("menu", GameState::InGame, 5), Err(GateError::DuplicateGroup));
    assert_eq!(gate.len(), 2);
    assert_eq!(gate.index_of("menu"), Some(1));
    assert_eq!(gate.index_of("fonts"), Some(0));
    assert_eq!(gate.index_of("sounds"), None);
}

#[test]
fn group_without_handles_is_ready() {
    let mut gate = AssetGate::new();
    assert_eq!(gate.register("nothing", GameState::InGame, 0), Ok(0));
    assert!(gate.is_ready("nothing"));
    assert!(gate.all_ready(GameState::InGame));
}

#[test]
fn group_is_ready_when_all_members_resolved() {
    let mut gate = AssetGate::new();
    gate.register("menu", GameState::MainMenu, 2).unwrap();
    assert!(!gate.is_ready("menu"));
    assert_eq!(gate.signal(GameState::MainMenu), LoadSignal::Pending);
    assert_eq!(gate.resolve("menu", 0), Ok(()));
    assert!(!gate.is_ready("menu"));
    assert!(!gate.all_ready(GameState::MainMenu));
    assert_eq!(gate.resolve("menu", 1), Ok(()));
    assert!(gate.is_ready("menu"));
    assert!(gate.all_ready(GameState::MainMenu));
    assert_eq!(gate.signal(GameState::MainMenu), LoadSignal::Ready);
}

#[test]
fn all_ready_iff_each_group_in_scope_is_ready() {
    let mut gate = AssetGate::new();
    gate.register("a", GameState::MainMenu, 1).unwrap();
    gate.register("b", GameState::MainMenu, 1).unwrap();
    gate.register("c", GameState::InGame, 1).unwrap();
    let check = |gate: &AssetGate| {
        assert_eq!(
            gate.all_ready(GameState::MainMenu),
            gate.is_ready("a") && gate.is_ready("b")
        );
        assert_eq!(gate.all_ready(GameState::InGame), gate.is_ready("c"));
    };
    check(&gate);
    gate.resolve("a", 0).unwrap();
    check(&gate);
    assert!(!gate.all_ready(GameState::MainMenu));
    gate.resolve("c", 0).unwrap();
    check(&gate);
    assert!(gate.all_ready(GameState::InGame));
    assert!(!gate.all_ready(GameState::MainMenu));
    gate.resolve("b", 0).unwrap();
    check(&gate);
    assert!(gate.all_ready(GameState::MainMenu));
}

#[test]
fn readiness_never_reverts() {
    let mut gate = AssetGate::new();
    gate.register("menu", GameState::MainMenu, 2).unwrap();
    gate.register("game", GameState::InGame, 1).unwrap();
    gate.resolve("menu", 0).unwrap();
    gate.resolve("menu", 1).unwrap();
    assert!(gate.all_ready(GameState::MainMenu));
    gate.resolve("menu", 0).unwrap();
    assert!(gate.all_ready(GameState::MainMenu));
    assert_eq!(gate.fail("menu", 1), Ok(()));
    assert!(gate.all_ready(GameState::MainMenu));
    assert!(!gate.any_failed(GameState::MainMenu));
    gate.fail("game", 0).unwrap();
    assert!(gate.all_ready(GameState::MainMenu));
    assert_eq!(gate.signal(GameState::MainMenu), LoadSignal::Ready);
}

#[test]
fn failure_is_signalled_for_its_scope_only() {
    let mut gate = AssetGate::new();
    gate.register("menu", GameState::MainMenu, 2).unwrap();
    gate.register("game", GameState::InGame, 1).unwrap();
    gate.resolve("menu", 0).unwrap();
    gate.fail("menu", 1).unwrap();
    assert!(gate.any_failed(GameState::MainMenu));
    assert!(!gate.any_failed(GameState::InGame));
    assert_eq!(gate.signal(GameState::MainMenu), LoadSignal::Failed);
    assert_eq!(gate.signal(GameState::InGame), LoadSignal::Pending);
    // A later success of the same handle clears the failure.
    gate.resolve("menu", 1).unwrap();
    assert_eq!(gate.signal(GameState::MainMenu), LoadSignal::Ready);
}

#[test]
fn unknown_group_and_handle_are_refused() {
    let mut gate = AssetGate::new();
    gate.register("menu", GameState::MainMenu, 2).unwrap();
    assert_eq!(gate.resolve("sounds", 0), Err(GateError::UnknownGroup));
    assert_eq!(gate.fail("sounds", 0), Err(GateError::UnknownGroup));
    assert_eq!(gate.resolve("menu", 2), Err(GateError::UnknownHandle));
    assert_eq!(gate.fail("menu", 7), Err(GateError::UnknownHandle));
    assert!(!gate.is_ready("menu"));
    assert!(!gate.any_failed(GameState::MainMenu));
}

#[test]
fn group_reports_its_name_scope_and_size() {
    let mut gate = AssetGate::new();
    gate.register("menu", GameState::MainMenu, 2).unwrap();
    assert!(gate.group(1).is_none());
    let group = gate.group(0).unwrap();
    assert_eq!(group.name(), "menu");
    assert_eq!(group.scope(), GameState::MainMenu);
    assert_eq!(group.required(), 2);
    assert!(!group.ready());
    assert!(!group.failed());
    gate.resolve("menu", 0).unwrap();
    gate.fail("menu", 1).unwrap();
    let group = gate.group(0).unwrap();
    assert!(!group.ready());
    assert!(group.failed());
}

#[test]
fn fonts_and_menu_sounds_register_their_groups() {
    let mut gate = AssetGate::new();
    let fonts = platformer_flow::ui::load_assets(&mut gate).unwrap();
    assert_eq!((fonts.regular, fonts.bold, fonts.mono), (0, 1, 2));
    let sounds = platformer_flow::menu::MenuAssetCollection::register(&mut gate).unwrap();
    assert_eq!((sounds.press_sound, sounds.hover_sound), (0, 1));
    assert_eq!(sounds.handle_for(platformer_flow::ui::menu::SoundCue::Press), 0);
    assert_eq!(sounds.handle_for(platformer_flow::ui::menu::SoundCue::Hover), 1);
    assert_eq!(gate.len(), 2);
    assert_eq!(gate.group(0).unwrap().name(), "fonts");
    assert_eq!(gate.group(0).unwrap().scope(), GameState::GameStart);
    assert_eq!(gate.group(0).unwrap().required(), 3);
    assert_eq!(gate.group(1).unwrap().name(), "menu");
    assert_eq!(gate.group(1).unwrap().scope(), GameState::MainMenu);
    assert_eq!(gate.group(1).unwrap().required(), 2);
    assert_eq!(platformer_flow::ui::load_assets(&mut gate), Err(GateError::DuplicateGroup));
    assert_eq!(
        platformer_flow::menu::MenuAssetCollection::register(&mut gate),
        Err(GateError::DuplicateGroup)
    );
    assert_eq!(gate.len(), 2);
    // The menu waits for its sounds, not for the fonts.
    gate.resolve("menu", 0).unwrap();
    gate.resolve("menu", 1).unwrap();
    assert!(gate.all_ready(GameState::MainMenu));
    assert!(!gate.all_ready(GameState::GameStart));
}
