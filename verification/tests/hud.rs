use std::time::Duration;

use platformer_flow::game_state::GameState;
use platformer_flow::player::{tick_level_timer, LevelTimer, TickOutcome};
use platformer_flow::ui::hud::{format_elapsed, render_hud_ui, update_hud_timer};
use platformer_flow::ui::{LifecycleError, RootHandle, UiKind, UiTags, UiWorld};

#[test]
fn two_minutes_five_seconds() {
    assert_eq!(format_elapsed(125), "02:05");
}

#[test]
fn seconds_are_the_remainder_of_sixty() {
    assert_eq!(format_elapsed(0), "00:00");
    assert_eq!(format_elapsed(9), "00:09");
    assert_eq!(format_elapsed(59), "00:59");
    assert_eq!(format_elapsed(60), "01:00");
    assert_eq!(format_elapsed(61), "01:01");
    assert_eq!(format_elapsed(119), "01:59");
    assert_eq!(format_elapsed(185), "03:05");
    assert_eq!(format_elapsed(599), "09:59");
    assert_eq!(format_elapsed(600), "10:00");
    assert_eq!(format_elapsed(3599), "59:59");
}

#[test]
fn minutes_grow_beyond_two_places() {
    assert_eq!(format_elapsed(6000), "100:00");
    assert_eq!(format_elapsed(60 * 1234 + 7), "1234:07");
    assert_eq!(format_elapsed(u64::MAX), "307445734561825860:15");
}

#[test]
fn format_agrees_with_division_and_remainder() {
    for elapsed in (0..20_000u64).step_by(37) {
        assert_eq!(format_elapsed(elapsed), format!("{:0>2}:{:0>2}", elapsed / 60, elapsed % 60));
    }
}

#[test]
fn hud_tree_has_clock_and_score() {
    let mut w = UiWorld::new();
    assert_eq!(render_hud_ui(&mut w), Ok(RootHandle { index: 0 }));
    assert_eq!(w.len(), 8);
    let parents: Vec<Option<usize>> = (0..8).map(|i| w.node(i).unwrap().parent()).collect();
    assert_eq!(
        parents,
        vec![None, Some(0), Some(1), Some(2), Some(2), Some(1), Some(5), Some(5)]
    );
    let texts: Vec<&str> = (0..8).map(|i| w.node(i).unwrap().text()).collect();
    assert_eq!(texts, vec!["", "", "", "TIME", "00:00", "", "SCORE", "------"]);
    assert_eq!(w.node(0).unwrap().marker(), Some(GameState::InGame));
    assert_eq!(
        w.node(4).unwrap().tags(),
        UiTags { refreshable: true, hud: true, timer: true }
    );
    assert_eq!(
        w.node(7).unwrap().tags(),
        UiTags { refreshable: false, hud: true, timer: false }
    );
    assert_eq!(w.node(3).unwrap().tags(), UiTags { refreshable: false, hud: false, timer: false });
    assert_eq!(w.node(4).unwrap().kind(), UiKind::Label);
    assert_eq!(render_hud_ui(&mut w), Err(LifecycleError::AlreadyEntered));
    assert_eq!(w.len(), 8);
}

#[test]
fn clock_is_refreshed_from_the_one_timer() {
    let mut w = UiWorld::new();
    w.enter(GameState::InGame).unwrap();
    let mut timers = vec![LevelTimer::new()];
    assert_eq!(tick_level_timer(&mut timers, Duration::from_millis(125_900)), TickOutcome::Ticked);
    assert!(update_hud_timer(&mut w, &timers));
    assert_eq!(w.node(4).unwrap().text(), "02:05");
    assert_eq!(w.node(3).unwrap().text(), "TIME");
    assert_eq!(w.node(7).unwrap().text(), "------");
    assert_eq!(w.live_count(), 8);
}

#[test]
fn refresh_is_skipped_without_a_single_timer() {
    let mut w = UiWorld::new();
    w.enter(GameState::InGame).unwrap();
    let none: Vec<LevelTimer> = Vec::new();
    assert!(!update_hud_timer(&mut w, &none));
    assert_eq!(w.node(4).unwrap().text(), "00:00");
    let mut two = vec![LevelTimer::new(), LevelTimer::new()];
    two[0].tick(Duration::from_secs(70));
    two[1].tick(Duration::from_secs(80));
    assert!(!update_hud_timer(&mut w, &two));
    assert_eq!(w.node(4).unwrap().text(), "00:00");
}

#[test]
fn refresh_is_skipped_without_a_clock_element() {
    let mut timers = vec![LevelTimer::new()];
    timers[0].tick(Duration::from_secs(5));
    let mut w = UiWorld::new();
    assert!(!update_hud_timer(&mut w, &timers));
    w.enter(GameState::MainMenu).unwrap();
    assert!(!update_hud_timer(&mut w, &timers));
    w.enter(GameState::InGame).unwrap();
    w.exit(GameState::InGame);
    assert!(!update_hud_timer(&mut w, &timers));
    assert_eq!(w.node(15).unwrap().text(), "00:00");
    for i in 0..11 {
        assert!(w.node(i).unwrap().is_alive());
    }
}
