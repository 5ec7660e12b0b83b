//! The main menu: its tree, its teardown and its buttons.
use vstd::prelude::*;

use crate::coordinator::{CoordinatorView, StateCoordinator};
use crate::game_state::GameState;
use crate::ui::{
    belongs, fresh_node, has_live_root, is_live_root, label, lemma_same_shape_keeps_wf,
    lemma_spawned_tree, no_tags, panel, same_shape, spawn_label, spawn_panel, torn_down,
    ButtonShade,
    Interaction, LifecycleError, NodeView, RootHandle, UiKind, UiTags, UiWorld,
};
pub use crate::ui::MainMenuUiButton;

verus! {

/// The sound that accompanies an interaction.
#[derive(Clone, Copy, Debug, PartialEq, Eq, Structural)]
pub enum SoundCue {
    Hover,
    Press,
}

/// What follows from one change of a button's interaction state.
#[derive(Clone, Copy, Debug, PartialEq, Eq, Structural)]
pub struct ButtonResponse {
    /// How the button is drawn from now on.
    pub shade: ButtonShade,
    /// The cue to play, once, for this change.
    pub cue: Option<SoundCue>,
    /// The phase that was requested from the coordinator.
    pub request: Option<GameState>,
    /// The action that was activated but is not implemented.
    pub unsupported: Option<MainMenuUiButton>,
}

/// The shade that shows an interaction state.
pub open spec fn shade_for(interaction: Interaction) -> ButtonShade {
    match interaction {
        Interaction::Idle => ButtonShade::Neutral,
        Interaction::Hovered => ButtonShade::Highlighted,
        Interaction::Pressed => ButtonShade::Active,
    }
}

/// The response to a button moving from `previous` to `current`. Cues,
/// requests and refusals come on the edge into a state, not while it lasts.
pub open spec fn response_to(
    action: MainMenuUiButton,
    previous: Interaction,
    current: Interaction,
) -> ButtonResponse {
    let pressed = current == Interaction::Pressed && previous != Interaction::Pressed;
    let hovered = current == Interaction::Hovered && previous != Interaction::Hovered;
    ButtonResponse {
        shade: shade_for(current),
        cue: if pressed {
            Some(SoundCue::Press)
        } else if hovered {
            Some(SoundCue::Hover)
        } else {
            None
        },
        request: if pressed && action == MainMenuUiButton::Play {
            Some(GameState::InGame)
        } else {
            None
        },
        unsupported: if pressed && action != MainMenuUiButton::Play {
            Some(action)
        } else {
            None
        },
    }
}

/// Computes the response to one change of interaction state.
pub fn button_response(
    action: MainMenuUiButton,
    previous: Interaction,
    current: Interaction,
) -> (r: ButtonResponse)
    ensures
        r == response_to(action, previous, current),
{
    let pressed = current == Interaction::Pressed && previous != Interaction::Pressed;
    let hovered = current == Interaction::Hovered && previous != Interaction::Hovered;
    let shade = match current {
        Interaction::Idle => ButtonShade::Neutral,
        Interaction::Hovered => ButtonShade::Highlighted,
        Interaction::Pressed => ButtonShade::Active,
    };
    let cue = if pressed {
        Some(SoundCue::Press)
    } else if hovered {
        Some(SoundCue::Hover)
    } else {
        None
    };
    let is_play = match action {
        MainMenuUiButton::Play => true,
        _ => false,
    };
    ButtonResponse {
        shade,
        cue,
        request: if pressed && is_play {
            Some(GameState::InGame)
        } else {
            None
        },
        unsupported: if pressed && !is_play {
            Some(action)
        } else {
            None
        },
    }
}

/// Whether node `i` is a live button that carries an action.
pub open spec fn is_menu_button(nodes: Seq<NodeView>, i: int) -> bool {
    &&& 0 <= i < nodes.len()
    &&& nodes[i].alive
    &&& nodes[i].kind == UiKind::Button
    &&& nodes[i].action is Some
}

/// One reported change: the slot of the element and its new state.
#[derive(Clone, Copy, Debug, PartialEq, Eq, Structural)]
pub struct InteractionChange {
    pub node: usize,
    pub interaction: Interaction,
}

/// The response to one change: that of the button in slot `node`, or none
/// where that slot holds no live button of the menu.
pub open spec fn routed_response(
    nodes: Seq<NodeView>,
    node: int,
    interaction: Interaction,
) -> Option<ButtonResponse> {
    if is_menu_button(nodes, node) {
        Some(response_to(nodes[node].action->0, nodes[node].interaction, interaction))
    } else {
        None
    }
}

/// The arena after one change: a live menu button records the new state and
/// its shade, anything else stays as it is.
pub open spec fn routed_ui(nodes: Seq<NodeView>, node: int, interaction: Interaction) -> Seq<
    NodeView,
> {
    if is_menu_button(nodes, node) {
        nodes.update(
            node,
            (NodeView { interaction, shade: shade_for(interaction), ..nodes[node] }),
        )
    } else {
        nodes
    }
}

/// The coordinator after a response: a requested phase waits for the next
/// pass.
pub open spec fn routed_coordinator(
    c: CoordinatorView,
    response: Option<ButtonResponse>,
) -> CoordinatorView {
    match response {
        Some(r) => match r.request {
            Some(target) => CoordinatorView { pending: Some(target), ..c },
            None => c,
        },
        None => c,
    }
}

/// The arena, the coordinator and the responses after a run of changes,
/// routed one after the other.
pub open spec fn routed_all(
    nodes: Seq<NodeView>,
    c: CoordinatorView,
    changes: Seq<InteractionChange>,
) -> (Seq<NodeView>, CoordinatorView, Seq<Option<ButtonResponse>>)
    decreases changes.len(),
{
    if changes.len() == 0 {
        (nodes, c, Seq::<Option<ButtonResponse>>::empty())
    } else {
        let before = routed_all(nodes, c, changes.drop_last());
        let change = changes.last();
        let response = routed_response(before.0, change.node as int, change.interaction);
        (
            routed_ui(before.0, change.node as int, change.interaction),
            routed_coordinator(before.1, response),
            before.2.push(response),
        )
    }
}

/// Routes one reported change of interaction state of node `node`.
///
/// For a live menu button the new state and its shade are recorded, and a
/// press of the play button asks the coordinator for the game. Anything else
/// is no button of the menu: nothing changes and there is no response.
pub fn route_interaction(
    world: &mut UiWorld,
    coordinator: &mut StateCoordinator,
    node: usize,
    interaction: Interaction,
) -> (r: Option<ButtonResponse>)
    requires
        old(world).wf(),
        old(coordinator).wf(),
    ensures
        final(world).wf(),
        final(coordinator).wf(),
        same_shape(old(world)@, final(world)@),
        final(coordinator)@.state == old(coordinator)@.state,
        r == routed_response(old(world)@, node as int, interaction),
        final(world)@ == routed_ui(old(world)@, node as int, interaction),
        final(coordinator)@ == routed_coordinator(old(coordinator)@, r),
{
    let (action, previous) = match world.node(node) {
        Some(n) => {
            let is_button = match n.kind() {
                UiKind::Button => true,
                _ => false,
            };
            if !n.is_alive() || !is_button {
                return None;
            }
            match n.action() {
                Some(action) => (action, n.interaction()),
                None => {
                    return None;
                },
            }
        },
        None => {
            return None;
        },
    };
    let response = button_response(action, previous, interaction);
    world.set_interaction(node, interaction, response.shade);
    proof {
        lemma_same_shape_keeps_wf(old(world)@, world@);
    }
    match response.request {
        Some(target) => {
            coordinator.request(target);
        },
        None => {},
    }
    Some(response)
}

/// Routes the changes of one tick, in the order they were reported, and
/// gives the response to each.
pub fn menu_button_system(
    world: &mut UiWorld,
    coordinator: &mut StateCoordinator,
    changes: &Vec<InteractionChange>,
) -> (r: Vec<Option<ButtonResponse>>)
    requires
        old(world).wf(),
        old(coordinator).wf(),
    ensures
        final(world).wf(),
        final(coordinator).wf(),
        same_shape(old(world)@, final(world)@),
        final(coordinator)@.state == old(coordinator)@.state,
        (final(world)@, final(coordinator)@, r@) == routed_all(
            old(world)@,
            old(coordinator)@,
            changes@,
        ),
{
    let mut responses: Vec<Option<ButtonResponse>> = Vec::new();
    let mut i: usize = 0;
    while i < changes.len()
        invariant
            i <= changes.len(),
            world.wf(),
            coordinator.wf(),
            same_shape(old(world)@, world@),
            coordinator@.state == old(coordinator)@.state,
            (world@, coordinator@, responses@) == routed_all(
                old(world)@,
                old(coordinator)@,
                changes@.take(i as int),
            ),
        decreases changes.len() - i,
    {
        proof {
            assert(changes@.take(i + 1).drop_last() =~= changes@.take(i as int));
            assert(changes@.take(i + 1).last() == changes@[i as int]);
        }
        let change = changes[i];
        let response = route_interaction(world, coordinator, change.node, change.interaction);
        responses.push(response);
        i += 1;
    }
    proof {
        assert(changes@.take(i as int) =~= changes@);
    }
    responses
}

/// A button of the menu.
pub open spec fn button(parent: int, action: MainMenuUiButton) -> NodeView {
    fresh_node(
        Some(parent),
        None,
        UiKind::Button,
        no_tags(),
        Some(action),
        Seq::<char>::empty(),
    )
}

/// The tree of the main menu, spawned from slot `base` on: the root, a title
/// of two lines, and a column of three buttons, each with its caption.
pub open spec fn menu_tree(base: int) -> Seq<NodeView> {
    seq![
        panel(None, Some(GameState::MainMenu)),
        panel(Some(base), None),
        label(base + 1, no_tags(), "Another"@),
        label(base + 1, no_tags(), "2D Platformer"@),
        panel(Some(base), None),
        button(base + 4, MainMenuUiButton::Play),
        label(base + 5, no_tags(), "PLAY"@),
        button(base + 4, MainMenuUiButton::Options),
        label(base + 7, no_tags(), "OPTIONS"@),
        button(base + 4, MainMenuUiButton::Quit),
        label(base + 9, no_tags(), "QUIT"@),
    ]
}

/// Appends a button with its caption under `parent`.
fn spawn_button(world: &mut UiWorld, parent: usize, action: MainMenuUiButton, caption: &str)
    ensures
        final(world)@ == old(world)@.push(button(parent as int, action)).push(
            label(old(world)@.len() as int, no_tags(), caption@),
        ),
{
    let slot = world.spawn(Some(parent), None, UiKind::Button, UiTags {
        refreshable: false,
        hud: false,
        timer: false,
    }, Some(action), "");
    proof {
        reveal_strlit("");
        assert(""@ =~= Seq::<char>::empty());
    }
    world.spawn(Some(slot), None, UiKind::Label, UiTags {
        refreshable: false,
        hud: false,
        timer: false,
    }, None, caption);
}

/// Spawns the tree of the main menu and hands out its root. A menu that is
/// live already is not spawned again: the call is refused and nothing
/// changes.
pub fn render_menu_ui(world: &mut UiWorld) -> (r: Result<RootHandle, LifecycleError>)
    requires
        old(world).wf(),
    ensures
        final(world).wf(),
        match r {
            Ok(root) => {
                &&& !has_live_root(old(world)@, GameState::MainMenu)
                &&& root.index == old(world)@.len()
                &&& final(world)@ == old(world)@ + menu_tree(old(world)@.len() as int)
                &&& is_live_root(final(world)@, root.index as int, GameState::MainMenu)
            },
            Err(e) => {
                &&& e == LifecycleError::AlreadyEntered
                &&& has_live_root(old(world)@, GameState::MainMenu)
                &&& final(world)@ == old(world)@
            },
        },
{
    if world.root_of(GameState::MainMenu).is_some() {
        return Err(LifecycleError::AlreadyEntered);
    }
    let none = UiTags { refreshable: false, hud: false, timer: false };
    let root = spawn_panel(world, None, Some(GameState::MainMenu));
    let title = spawn_panel(world, Some(root), None);
    spawn_label(world, title, none, "Another");
    spawn_label(world, title, none, "2D Platformer");
    let buttons = spawn_panel(world, Some(root), None);
    spawn_button(world, buttons, MainMenuUiButton::Play, "PLAY");
    spawn_button(world, buttons, MainMenuUiButton::Options, "OPTIONS");
    spawn_button(world, buttons, MainMenuUiButton::Quit, "QUIT");
    proof {
        let base = old(world)@.len() as int;
        assert(world@ =~= old(world)@ + menu_tree(base));
        lemma_spawned_tree(old(world)@, menu_tree(base), GameState::MainMenu);
    }
    Ok(RootHandle { index: root })
}

/// Tears down the tree of the main menu, root and all descendants.
pub fn cleanup_menu_ui(world: &mut UiWorld)
    requires
        old(world).wf(),
    ensures
        final(world).wf(),
        final(world)@ == torn_down(old(world)@, GameState::MainMenu),
        forall|i: int|
            0 <= i < final(world)@.len() && final(world)@[i].alive ==> !belongs(
                final(world)@,
                i,
                GameState::MainMenu,
            ),
        !has_live_root(final(world)@, GameState::MainMenu),
{
    world.exit(GameState::MainMenu);
}

} // verus!
