//! The in-game overlay: its tree and the level clock it shows.
use vstd::prelude::*;
use vstd::string::StringExecFns;

use crate::game_state::GameState;
use crate::player::{whole_seconds, LevelTimer};
use crate::ui::{
    has_live_root, is_live_root, is_sole, label, lemma_same_shape_keeps_wf, lemma_spawned_tree,
    no_tags, panel, spawn_label, spawn_panel, LifecycleError, NodeView, RootHandle, UiTags,
    UiWorld,
};

verus! {

/// The character of a decimal digit.
pub open spec fn digit(d: nat) -> char {
    if d == 0 {
        '0'
    } else if d == 1 {
        '1'
    } else if d == 2 {
        '2'
    } else if d == 3 {
        '3'
    } else if d == 4 {
        '4'
    } else if d == 5 {
        '5'
    } else if d == 6 {
        '6'
    } else if d == 7 {
        '7'
    } else if d == 8 {
        '8'
    } else {
        '9'
    }
}

/// A number written in decimal, without leading zeros.
pub open spec fn decimal(n: nat) -> Seq<char>
    decreases n,
{
    if n < 10 {
        seq![digit(n)]
    } else {
        decimal(n / 10).push(digit(n % 10))
    }
}

/// A number written in decimal, filled with a zero to two places.
pub open spec fn two_places(n: nat) -> Seq<char> {
    if n < 10 {
        seq!['0', digit(n)]
    } else {
        decimal(n)
    }
}

/// Elapsed seconds as minutes and seconds: the whole minutes, a colon, and
/// the seconds left over, each on at least two places.
pub open spec fn clock_text(elapsed: nat) -> Seq<char> {
    two_places(elapsed / 60) + seq![':'] + two_places(elapsed % 60)
}

/// The markers of the element that shows the level clock.
pub open spec fn timer_text_tags() -> UiTags {
    UiTags { refreshable: true, hud: true, timer: true }
}

/// The tree of the overlay, spawned from slot `base` on: a header with the
/// clock on one side and the score on the other.
pub open spec fn hud_tree(base: int) -> Seq<NodeView> {
    seq![
        panel(None, Some(GameState::InGame)),
        panel(Some(base), None),
        panel(Some(base + 1), None),
        label(base + 2, no_tags(), "TIME"@),
        label(base + 2, timer_text_tags(), "00:00"@),
        panel(Some(base + 1), None),
        label(base + 5, no_tags(), "SCORE"@),
        label(base + 5, (UiTags { refreshable: false, hud: true, timer: false }), "------"@),
    ]
}

fn push_digit(out: &mut String, d: u64)
    requires
        d < 10,
    ensures
        final(out)@ == old(out)@.push(digit(d as nat)),
{
    proof {
        reveal_strlit("0");
        reveal_strlit("1");
        reveal_strlit("2");
        reveal_strlit("3");
        reveal_strlit("4");
        reveal_strlit("5");
        reveal_strlit("6");
        reveal_strlit("7");
        reveal_strlit("8");
        reveal_strlit("9");
    }
    let s = if d == 0 {
        "0"
    } else if d == 1 {
        "1"
    } else if d == 2 {
        "2"
    } else if d == 3 {
        "3"
    } else if d == 4 {
        "4"
    } else if d == 5 {
        "5"
    } else if d == 6 {
        "6"
    } else if d == 7 {
        "7"
    } else if d == 8 {
        "8"
    } else {
        "9"
    };
    assert(s@ =~= seq![digit(d as nat)]);
    out.append(s);
    assert(out@ =~= old(out)@.push(digit(d as nat)));
}

fn push_decimal(out: &mut String, n: u64)
    ensures
        final(out)@ == old(out)@ + decimal(n as nat),
    decreases n,
{
    if n >= 10 {
        push_decimal(out, n / 10);
    }
    push_digit(out, n % 10);
    assert(out@ =~= old(out)@ + decimal(n as nat));
}

fn push_two_places(out: &mut String, n: u64)
    ensures
        final(out)@ == old(out)@ + two_places(n as nat),
{
    if n < 10 {
        push_digit(out, 0);
    }
    push_decimal(out, n);
    assert(out@ =~= old(out)@ + two_places(n as nat));
}

/// Writes elapsed seconds as `mm:ss`.
pub fn format_elapsed(elapsed: u64) -> (r: String)
    ensures
        r@ == clock_text(elapsed as nat),
{
    let mut out = String::new();
    push_two_places(&mut out, elapsed / 60);
    proof {
        reveal_strlit(":");
    }
    out.append(":");
    push_two_places(&mut out, elapsed % 60);
    assert(out@ =~= clock_text(elapsed as nat));
    out
}

/// Spawns the tree of the overlay and hands out its root. An overlay that is
/// live already is not spawned again: the call is refused and nothing
/// changes.
pub fn render_hud_ui(world: &mut UiWorld) -> (r: Result<RootHandle, LifecycleError>)
    requires
        old(world).wf(),
    ensures
        final(world).wf(),
        match r {
            Ok(root) => {
                &&& !has_live_root(old(world)@, GameState::InGame)
                &&& root.index == old(world)@.len()
                &&& final(world)@ == old(world)@ + hud_tree(old(world)@.len() as int)
                &&& is_live_root(final(world)@, root.index as int, GameState::InGame)
            },
            Err(e) => {
                &&& e == LifecycleError::AlreadyEntered
                &&& has_live_root(old(world)@, GameState::InGame)
                &&& final(world)@ == old(world)@
            },
        },
{
    if world.root_of(GameState::InGame).is_some() {
        return Err(LifecycleError::AlreadyEntered);
    }
    let root = spawn_panel(world, None, Some(GameState::InGame));
    let header = compose_header(world, root);
    let left = compose_header_vertical_container(world, header);
    compose_header_timer(world, left);
    let right = compose_header_vertical_container(world, header);
    compose_header_score(world, right);
    proof {
        let base = old(world)@.len() as int;
        assert(world@ =~= old(world)@ + hud_tree(base));
        lemma_spawned_tree(old(world)@, hud_tree(base), GameState::InGame);
    }
    Ok(RootHandle { index: root })
}

/// The header row under the root.
fn compose_header(world: &mut UiWorld, root: usize) -> (r: usize)
    ensures
        r == old(world)@.len(),
        final(world)@ == old(world)@.push(panel(Some(root as int), None)),
{
    spawn_panel(world, Some(root), None)
}

/// A column in the header.
fn compose_header_vertical_container(world: &mut UiWorld, header: usize) -> (r: usize)
    ensures
        r == old(world)@.len(),
        final(world)@ == old(world)@.push(panel(Some(header as int), None)),
{
    spawn_panel(world, Some(header), None)
}

/// The caption of the clock and the clock itself, which starts at zero and
/// is the one element that is refreshed.
fn compose_header_timer(world: &mut UiWorld, column: usize)
    ensures
        final(world)@ == old(world)@.push(label(column as int, no_tags(), "TIME"@)).push(
            label(column as int, timer_text_tags(), "00:00"@),
        ),
{
    spawn_label(world, column, UiTags { refreshable: false, hud: false, timer: false }, "TIME");
    spawn_label(world, column, UiTags { refreshable: true, hud: true, timer: true }, "00:00");
}

/// The caption of the score and its placeholder.
fn compose_header_score(world: &mut UiWorld, column: usize)
    ensures
        final(world)@ == old(world)@.push(label(column as int, no_tags(), "SCORE"@)).push(
            label(
                column as int,
                (UiTags { refreshable: false, hud: true, timer: false }),
                "------"@,
            ),
        ),
{
    spawn_label(world, column, UiTags { refreshable: false, hud: false, timer: false }, "SCORE");
    spawn_label(world, column, UiTags { refreshable: false, hud: true, timer: false }, "------");
}

/// Brings the clock on screen up to date.
///
/// The text changes only when there is exactly one clock element and exactly
/// one level timer; otherwise the step is skipped and nothing changes.
pub fn update_hud_timer(world: &mut UiWorld, timers: &Vec<LevelTimer>) -> (updated: bool)
    requires
        old(world).wf(),
    ensures
        final(world).wf(),
        updated <==> (timers@.len() == 1 && exists|t: int|
            is_sole(old(world)@, timer_text_tags(), t)),
        !updated ==> final(world)@ == old(world)@,
        updated ==> forall|t: int|
            is_sole(old(world)@, timer_text_tags(), t) ==> final(world)@ == old(world)@.update(
                t,
                (NodeView {
                    text: clock_text(whole_seconds(timers@[0]@)),
                    ..old(world)@[t]
                }),
            ),
{
    let wanted = UiTags { refreshable: true, hud: true, timer: true };
    assert(wanted == timer_text_tags());
    let target = world.find_one(wanted);
    match target {
        Some(t) => {
            assert(is_sole(old(world)@, timer_text_tags(), t as int));
            if timers.len() != 1 {
                return false;
            }
            let elapsed = timers[0].elapsed_secs();
            let text = format_elapsed(elapsed);
            world.set_text(t, text);
            proof {
                lemma_same_shape_keeps_wf(old(world)@, world@);
            }
            true
        },
        None => false,
    }
}

} // verus!
