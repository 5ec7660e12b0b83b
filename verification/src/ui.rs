//! The user-interface trees and their lifecycle.
//!
//! Every element lives in one arena and names its parent by index; a parent
//! always comes before its children. A tree belongs to the phase whose marker
//! its root carries, and an element belongs to the tree that owns it: the
//! marker is found by walking up, never copied down.
use vstd::prelude::*;

use crate::asset_gate::{has_group, AssetGate, GateError, GroupView, HandleStatus};
use crate::game_state::GameState;
use crate::ui::hud::{hud_tree, render_hud_ui};
use crate::ui::menu::{menu_tree, render_menu_ui};

pub mod hud;
pub mod menu;

verus! {

/// What kind of element a node is.
#[derive(Clone, Copy, Debug, PartialEq, Eq, Structural)]
pub enum UiKind {
    Panel,
    Label,
    Button,
}

/// The interaction state the scene graph reports for an element.
#[derive(Clone, Copy, Debug, PartialEq, Eq, Structural)]
pub enum Interaction {
    Idle,
    Hovered,
    Pressed,
}

/// How a button is drawn.
#[derive(Clone, Copy, Debug, PartialEq, Eq, Structural)]
pub enum ButtonShade {
    Neutral,
    Highlighted,
    Active,
}

/// What activating a menu button means.
#[derive(Clone, Copy, Debug, PartialEq, Eq, Structural)]
pub enum MainMenuUiButton {
    Play,
    Options,
    Quit,
}

/// The markers by which single elements are looked up.
#[derive(Clone, Copy, Debug, PartialEq, Eq, Structural)]
pub struct UiTags {
    /// The content is synchronised from live data on every fixed step.
    pub refreshable: bool,
    /// The element is part of the in-game overlay.
    pub hud: bool,
    /// The element shows the level clock.
    pub timer: bool,
}

/// Why the lifecycle manager refused a call.
#[derive(Clone, Copy, Debug, PartialEq, Eq, Structural)]
pub enum LifecycleError {
    /// The phase has a live tree already.
    AlreadyEntered,
}

/// The root of a spawned tree: the only handle handed out.
#[derive(Clone, Copy, Debug, PartialEq, Eq, Structural)]
pub struct RootHandle {
    pub index: usize,
}

/// A node as a plain value.
pub struct NodeView {
    pub parent: Option<int>,
    pub marker: Option<GameState>,
    pub kind: UiKind,
    pub tags: UiTags,
    pub action: Option<MainMenuUiButton>,
    pub text: Seq<char>,
    pub shade: ButtonShade,
    pub interaction: Interaction,
    pub alive: bool,
}

/// One element of a tree.
pub struct UiNode {
    parent: Option<usize>,
    marker: Option<GameState>,
    kind: UiKind,
    tags: UiTags,
    action: Option<MainMenuUiButton>,
    text: String,
    shade: ButtonShade,
    interaction: Interaction,
    alive: bool,
}

impl View for UiNode {
    type V = NodeView;

    closed spec fn view(&self) -> NodeView {
        NodeView {
            parent: match self.parent {
                Some(p) => Some(p as int),
                None => None,
            },
            marker: self.marker,
            kind: self.kind,
            tags: self.tags,
            action: self.action,
            text: self.text@,
            shade: self.shade,
            interaction: self.interaction,
            alive: self.alive,
        }
    }
}

impl UiNode {
    /// The slot of the parent; a root has none.
    pub fn parent(&self) -> (r: Option<usize>)
        ensures
            match r {
                Some(p) => self@.parent == Some(p as int),
                None => self@.parent is None,
            },
    {
        self.parent
    }

    /// The phase this node is marked with; only roots are marked.
    pub fn marker(&self) -> (r: Option<GameState>)
        ensures
            r == self@.marker,
    {
        self.marker
    }

    /// What kind of element the node is.
    pub fn kind(&self) -> (r: UiKind)
        ensures
            r == self@.kind,
    {
        self.kind
    }

    /// The markers by which the node is looked up.
    pub fn tags(&self) -> (r: UiTags)
        ensures
            r == self@.tags,
    {
        self.tags
    }

    /// What activating the node means, for a button of the menu.
    pub fn action(&self) -> (r: Option<MainMenuUiButton>)
        ensures
            r == self@.action,
    {
        self.action
    }

    /// The text the node shows.
    pub fn text(&self) -> (r: &str)
        ensures
            r@ == self@.text,
    {
        self.text.as_str()
    }

    /// How the node is drawn.
    pub fn shade(&self) -> (r: ButtonShade)
        ensures
            r == self@.shade,
    {
        self.shade
    }

    /// The interaction state last recorded for the node.
    pub fn interaction(&self) -> (r: Interaction)
        ensures
            r == self@.interaction,
    {
        self.interaction
    }

    /// Whether the node has not been torn down.
    pub fn is_alive(&self) -> (r: bool)
        ensures
            r == self@.alive,
    {
        self.alive
    }
}

/// No markers.
pub open spec fn no_tags() -> UiTags {
    UiTags { refreshable: false, hud: false, timer: false }
}

/// A freshly spawned node: alive, idle, drawn neutral.
pub open spec fn fresh_node(
    parent: Option<int>,
    marker: Option<GameState>,
    kind: UiKind,
    tags: UiTags,
    action: Option<MainMenuUiButton>,
    text: Seq<char>,
) -> NodeView {
    NodeView {
        parent,
        marker,
        kind,
        tags,
        action,
        text,
        shade: ButtonShade::Neutral,
        interaction: Interaction::Idle,
        alive: true,
    }
}

/// Whether node `i` is owned by a root that carries the marker of `phase`.
pub open spec fn belongs(nodes: Seq<NodeView>, i: int, phase: GameState) -> bool
    decreases i,
{
    if i < 0 || i >= nodes.len() {
        false
    } else {
        match nodes[i].parent {
            None => nodes[i].marker == Some(phase),
            Some(p) => 0 <= p < i && belongs(nodes, p, phase),
        }
    }
}

/// Whether node `i` is the live root of the tree of `phase`.
pub open spec fn is_live_root(nodes: Seq<NodeView>, i: int, phase: GameState) -> bool {
    &&& 0 <= i < nodes.len()
    &&& nodes[i].alive
    &&& nodes[i].parent is None
    &&& nodes[i].marker == Some(phase)
}

/// Whether `phase` has a live tree.
pub open spec fn has_live_root(nodes: Seq<NodeView>, phase: GameState) -> bool {
    exists|i: int| is_live_root(nodes, i, phase)
}

/// Whether the parent of node `i`, if it has one, comes before it and lives
/// as long as it does.
pub open spec fn parent_ok(nodes: Seq<NodeView>, i: int) -> bool {
    match nodes[i].parent {
        Some(p) => 0 <= p < i && (nodes[i].alive ==> nodes[p].alive),
        None => true,
    }
}

/// Parents come first, a live node has a live parent, and a phase has at most
/// one live root.
pub open spec fn world_wf(nodes: Seq<NodeView>) -> bool {
    &&& forall|i: int| 0 <= i < nodes.len() ==> #[trigger] parent_ok(nodes, i)
    &&& forall|i: int, j: int, phase: GameState|
        is_live_root(nodes, i, phase) && is_live_root(nodes, j, phase) ==> i == j
}

/// The arena after the tree of `phase` is torn down: every node the tree owns
/// is dead, every other node is as it was.
pub open spec fn torn_down(nodes: Seq<NodeView>, phase: GameState) -> Seq<NodeView> {
    Seq::new(
        nodes.len(),
        |i: int|
            if belongs(nodes, i, phase) {
                NodeView { alive: false, ..nodes[i] }
            } else {
                nodes[i]
            },
    )
}

/// Whether a node is live and carries every marker that `wanted` names.
pub open spec fn tagged(n: NodeView, wanted: UiTags) -> bool {
    &&& n.alive
    &&& wanted.refreshable ==> n.tags.refreshable
    &&& wanted.hud ==> n.tags.hud
    &&& wanted.timer ==> n.tags.timer
}

/// Whether node `i` matches `wanted` and no other node does.
pub open spec fn is_sole(nodes: Seq<NodeView>, wanted: UiTags, i: int) -> bool {
    &&& 0 <= i < nodes.len()
    &&& tagged(nodes[i], wanted)
    &&& forall|j: int| 0 <= j < nodes.len() && tagged(#[trigger] nodes[j], wanted) ==> j == i
}

/// The arena of user-interface elements.
pub struct UiWorld {
    nodes: Vec<UiNode>,
}

impl View for UiWorld {
    type V = Seq<NodeView>;

    closed spec fn view(&self) -> Seq<NodeView> {
        self.nodes@.map_values(|n: UiNode| n@)
    }
}

impl UiWorld {
    /// The arena is well formed.
    pub open spec fn wf(&self) -> bool {
        world_wf(self@)
    }

    /// An arena without elements.
    pub fn new() -> (r: Self)
        ensures
            r.wf(),
            r@ == Seq::<NodeView>::empty(),
    {
        let r = UiWorld { nodes: Vec::new() };
        assert(r@ =~= Seq::<NodeView>::empty());
        r
    }

    /// The number of slots, dead ones included.
    pub fn len(&self) -> (r: usize)
        ensures
            r == self@.len(),
    {
        self.nodes.len()
    }

    /// The node in slot `i`.
    pub fn node(&self, i: usize) -> (r: Option<&UiNode>)
        ensures
            match r {
                Some(n) => i < self@.len() && n@ == self@[i as int],
                None => i >= self@.len(),
            },
    {
        if i < self.nodes.len() {
            Some(&self.nodes[i])
        } else {
            None
        }
    }

    /// The number of live nodes.
    pub fn live_count(&self) -> (r: usize)
        ensures
            r == self@.filter(|n: NodeView| n.alive).len(),
    {
        let mut count: usize = 0;
        let mut i: usize = 0;
        while i < self.nodes.len()
            invariant
                i <= self.nodes.len(),
                count <= i,
                count == self@.take(i as int).filter(|n: NodeView| n.alive).len(),
            decreases self.nodes.len() - i,
        {
            proof {
                assert(self@.take(i + 1).drop_last() =~= self@.take(i as int));
                reveal(Seq::filter);
            }
            if self.nodes[i].alive {
                count += 1;
            }
            i += 1;
        }
        assert(self@.take(i as int) =~= self@);
        count
    }

    /// The live root of the tree of `phase`, if the phase has one.
    pub fn root_of(&self, phase: GameState) -> (r: Option<RootHandle>)
        ensures
            match r {
                Some(h) => is_live_root(self@, h.index as int, phase),
                None => !has_live_root(self@, phase),
            },
    {
        let mut i: usize = 0;
        while i < self.nodes.len()
            invariant
                i <= self.nodes.len(),
                forall|j: int| 0 <= j < i ==> !is_live_root(self@, j, phase),
            decreases self.nodes.len() - i,
        {
            let n = &self.nodes[i];
            let marked = match n.marker {
                Some(m) => m == phase,
                None => false,
            };
            if n.alive && n.parent.is_none() && marked {
                return Some(RootHandle { index: i });
            }
            i += 1;
        }
        None
    }

    /// Appends a fresh node and gives its slot.
    pub(crate) fn spawn(
        &mut self,
        parent: Option<usize>,
        marker: Option<GameState>,
        kind: UiKind,
        tags: UiTags,
        action: Option<MainMenuUiButton>,
        text: &str,
    ) -> (r: usize)
        ensures
            r == old(self)@.len(),
            final(self)@ == old(self)@.push(
                fresh_node(
                    match parent {
                        Some(p) => Some(p as int),
                        None => None,
                    },
                    marker,
                    kind,
                    tags,
                    action,
                    text@,
                ),
            ),
    {
        let r = self.nodes.len();
        let node = UiNode {
            parent,
            marker,
            kind,
            tags,
            action,
            text: text.to_owned(),
            shade: ButtonShade::Neutral,
            interaction: Interaction::Idle,
            alive: true,
        };
        self.nodes.push(node);
        assert(self@ =~= old(self)@.push(node@));
        r
    }

    /// Replaces the text of node `i`.
    pub(crate) fn set_text(&mut self, i: usize, text: String)
        requires
            i < old(self)@.len(),
        ensures
            final(self)@ == old(self)@.update(
                i as int,
                (NodeView { text: text@, ..old(self)@[i as int] }),
            ),
    {
        self.nodes[i].text = text;
        assert(self@ =~= old(self)@.update(
            i as int,
            (NodeView { text: text@, ..old(self)@[i as int] }),
        ));
    }

    /// Records the interaction state of node `i` and how it is drawn.
    pub(crate) fn set_interaction(&mut self, i: usize, interaction: Interaction, shade: ButtonShade)
        requires
            i < old(self)@.len(),
        ensures
            final(self)@ == old(self)@.update(
                i as int,
                (NodeView { interaction, shade, ..old(self)@[i as int] }),
            ),
    {
        self.nodes[i].interaction = interaction;
        self.nodes[i].shade = shade;
        assert(self@ =~= old(self)@.update(
            i as int,
            (NodeView { interaction, shade, ..old(self)@[i as int] }),
        ));
    }

    /// Tears down the tree of `phase`: after the call no live node is owned by
    /// a root with that marker, however deep it hangs. Nodes of other trees
    /// are untouched.
    pub fn exit(&mut self, phase: GameState)
        requires
            old(self).wf(),
        ensures
            final(self).wf(),
            final(self)@ == torn_down(old(self)@, phase),
            forall|i: int|
                0 <= i < final(self)@.len() && final(self)@[i].alive ==> !belongs(
                    final(self)@,
                    i,
                    phase,
                ),
            !has_live_root(final(self)@, phase),
    {
        let mut owned: Vec<bool> = Vec::new();
        let mut i: usize = 0;
        while i < self.nodes.len()
            invariant
                i <= self.nodes.len(),
                world_wf(old(self)@),
                self@.len() == old(self)@.len(),
                owned@.len() == i,
                forall|j: int| 0 <= j < i ==> owned@[j] == belongs(old(self)@, j, phase),
                forall|j: int| 0 <= j < i ==> self@[j] == torn_down(old(self)@, phase)[j],
                forall|j: int| i <= j < self@.len() ==> self@[j] == old(self)@[j],
            decreases self.nodes.len() - i,
        {
            assert(self@[i as int] == self.nodes@[i as int]@);
            assert(old(self)@[i as int] == self@[i as int]);
            assert(parent_ok(old(self)@, i as int));
            let flag = match self.nodes[i].parent {
                Some(p) => owned[p],
                None => match self.nodes[i].marker {
                    Some(m) => m == phase,
                    None => false,
                },
            };
            assert(flag == belongs(old(self)@, i as int, phase));
            let ghost before = self@;
            if flag {
                self.nodes[i].alive = false;
            }
            assert(self@ =~= before.update(i as int, torn_down(old(self)@, phase)[i as int]));
            owned.push(flag);
            i += 1;
        }
        assert(self@ =~= torn_down(old(self)@, phase));
        proof {
            lemma_torn_down_is_complete(old(self)@, phase);
        }
    }

    /// The one live node that carries every marker in `wanted`. Without a
    /// match, and with more than one, there is no answer: none is picked.
    pub fn find_one(&self, wanted: UiTags) -> (r: Option<usize>)
        ensures
            match r {
                Some(i) => is_sole(self@, wanted, i as int),
                None => forall|i: int| !is_sole(self@, wanted, i),
            },
    {
        let mut found: Option<usize> = None;
        let mut i: usize = 0;
        while i < self.nodes.len()
            invariant
                i <= self.nodes.len(),
                match found {
                    Some(f) => f < i && tagged(self@[f as int], wanted) && forall|j: int|
                        0 <= j < i && tagged(#[trigger] self@[j], wanted) ==> j == f,
                    None => forall|j: int| 0 <= j < i ==> !tagged(#[trigger] self@[j], wanted),
                },
            decreases self.nodes.len() - i,
        {
            let n = &self.nodes[i];
            assert(n@ == self@[i as int]);
            let hit = n.alive && (!wanted.refreshable || n.tags.refreshable) && (!wanted.hud
                || n.tags.hud) && (!wanted.timer || n.tags.timer);
            assert(hit == tagged(self@[i as int], wanted));
            if hit {
                match found {
                    Some(f) => {
                        assert forall|k: int| !is_sole(self@, wanted, k) by {
                            if is_sole(self@, wanted, k) {
                                assert(tagged(self@[f as int], wanted));
                                assert(tagged(self@[i as int], wanted));
                            }
                        }
                        return None;
                    },
                    None => {
                        found = Some(i);
                    },
                }
            }
            i += 1;
        }
        found
    }
}

/// Whether two arenas agree on every parent, marker and life.
pub open spec fn same_shape(a: Seq<NodeView>, b: Seq<NodeView>) -> bool {
    &&& a.len() == b.len()
    &&& forall|k: int|
        0 <= k < a.len() ==> {
            &&& (#[trigger] b[k]).parent == a[k].parent
            &&& b[k].marker == a[k].marker
            &&& b[k].alive == a[k].alive
        }
}

/// Changing what nodes show changes neither the shape of a tree nor which
/// nodes live, so a well-formed arena stays well formed.
pub proof fn lemma_same_shape_keeps_wf(a: Seq<NodeView>, b: Seq<NodeView>)
    requires
        world_wf(a),
        same_shape(a, b),
    ensures
        world_wf(b),
{
    assert forall|k: int| 0 <= k < b.len() implies #[trigger] parent_ok(b, k) by {
        assert(parent_ok(a, k));
        assert(b[k].parent == a[k].parent);
        match a[k].parent {
            Some(p) => {
                assert(b[p].alive == a[p].alive);
            },
            None => {},
        }
    }
    assert forall|i: int, j: int, phase: GameState|
        is_live_root(b, i, phase) && is_live_root(b, j, phase) implies i == j by {
        assert(is_live_root(a, i, phase));
        assert(is_live_root(a, j, phase));
    }
}

/// Tearing a tree down changes no parent and no marker, so ownership is what
/// it was before.
pub proof fn lemma_torn_down_keeps_ownership(
    nodes: Seq<NodeView>,
    phase: GameState,
    i: int,
    other: GameState,
)
    ensures
        belongs(torn_down(nodes, phase), i, other) == belongs(nodes, i, other),
    decreases i,
{
    if 0 <= i < nodes.len() {
        match nodes[i].parent {
            None => {},
            Some(p) => {
                if 0 <= p < i {
                    lemma_torn_down_keeps_ownership(nodes, phase, p, other);
                }
            },
        }
    }
}

/// After a teardown no live node is owned by the phase, the phase has no
/// live root, and the arena is still well formed.
pub proof fn lemma_torn_down_is_complete(nodes: Seq<NodeView>, phase: GameState)
    requires
        world_wf(nodes),
    ensures
        world_wf(torn_down(nodes, phase)),
        !has_live_root(torn_down(nodes, phase), phase),
        forall|i: int|
            0 <= i < nodes.len() && torn_down(nodes, phase)[i].alive ==> !belongs(
                torn_down(nodes, phase),
                i,
                phase,
            ),
{
    let after = torn_down(nodes, phase);
    assert forall|i: int| 0 <= i < nodes.len() && after[i].alive implies !belongs(
        after,
        i,
        phase,
    ) by {
        lemma_torn_down_keeps_ownership(nodes, phase, i, phase);
    }
    assert forall|i: int| !is_live_root(after, i, phase) by {
        if is_live_root(after, i, phase) {
            assert(belongs(after, i, phase));
        }
    }
    assert forall|i: int| 0 <= i < after.len() implies #[trigger] parent_ok(after, i) by {
        assert(parent_ok(nodes, i));
        assert(nodes[i].parent == after[i].parent);
        match nodes[i].parent {
            Some(p) => {
                assert(0 <= p < i);
                if after[i].alive {
                    assert(!belongs(nodes, i, phase));
                    assert(!belongs(nodes, p, phase));
                }
            },
            None => {},
        }
    }
    assert forall|i: int, j: int, other: GameState|
        is_live_root(after, i, other) && is_live_root(after, j, other) implies i == j by {
        assert(is_live_root(nodes, i, other));
        assert(is_live_root(nodes, j, other));
    }
}

/// A panel without markers, action or text.
pub open spec fn panel(parent: Option<int>, marker: Option<GameState>) -> NodeView {
    fresh_node(parent, marker, UiKind::Panel, no_tags(), None, Seq::<char>::empty())
}

/// A line of text.
pub open spec fn label(parent: int, tags: UiTags, text: Seq<char>) -> NodeView {
    fresh_node(Some(parent), None, UiKind::Label, tags, None, text)
}

/// Whether `tree`, spawned from slot `base` on, is one tree of `phase`: a
/// marked root, and below it live nodes that each hang on an earlier node of
/// the tree.
pub open spec fn is_tree_of(tree: Seq<NodeView>, base: int, phase: GameState) -> bool {
    &&& tree.len() > 0
    &&& tree[0].parent is None
    &&& tree[0].marker == Some(phase)
    &&& forall|k: int| 0 <= k < tree.len() ==> (#[trigger] tree[k]).alive
    &&& forall|k: int|
        0 < k < tree.len() ==> (#[trigger] tree[k]).parent is Some && base <= tree[k].parent->0
            < base + k
}

/// Spawning a tree for a phase that has none keeps the arena well formed,
/// makes the first new node the live root of the phase, and puts every new
/// node under it.
pub proof fn lemma_spawned_tree(nodes: Seq<NodeView>, tree: Seq<NodeView>, phase: GameState)
    requires
        world_wf(nodes),
        !has_live_root(nodes, phase),
        is_tree_of(tree, nodes.len() as int, phase),
    ensures
        world_wf(nodes + tree),
        is_live_root(nodes + tree, nodes.len() as int, phase),
        forall|i: int|
            nodes.len() <= i < nodes.len() + tree.len() ==> belongs(nodes + tree, i, phase),
{
    let base = nodes.len() as int;
    let after = nodes + tree;
    assert forall|i: int| 0 <= i < after.len() implies #[trigger] parent_ok(after, i) by {
        if i < base {
            assert(parent_ok(nodes, i));
            assert(after[i] == nodes[i]);
            match nodes[i].parent {
                Some(p) => {
                    assert(after[p] == nodes[p]);
                },
                None => {},
            }
        } else {
            assert(after[i] == tree[i - base]);
            if i > base {
                let p = tree[i - base].parent->0;
                assert(after[p] == tree[p - base]);
            }
        }
    }
    assert forall|i: int, j: int, other: GameState|
        is_live_root(after, i, other) && is_live_root(after, j, other) implies i == j by {
        if i < base {
            assert(after[i] == nodes[i]);
            assert(is_live_root(nodes, i, other));
        } else {
            assert(after[i] == tree[i - base]);
        }
        if j < base {
            assert(after[j] == nodes[j]);
            assert(is_live_root(nodes, j, other));
        } else {
            assert(after[j] == tree[j - base]);
        }
    }
    assert(after[base] == tree[0]);
    assert forall|i: int| base <= i < base + tree.len() implies belongs(after, i, phase) by {
        lemma_spawned_node_belongs(nodes, tree, phase, i - base);
    }
}

proof fn lemma_spawned_node_belongs(
    nodes: Seq<NodeView>,
    tree: Seq<NodeView>,
    phase: GameState,
    k: int,
)
    requires
        is_tree_of(tree, nodes.len() as int, phase),
        0 <= k < tree.len(),
    ensures
        belongs(nodes + tree, nodes.len() + k, phase),
    decreases k,
{
    let base = nodes.len() as int;
    let after = nodes + tree;
    assert(after[base + k] == tree[k]);
    if k > 0 {
        let p = tree[k].parent->0;
        lemma_spawned_node_belongs(nodes, tree, phase, p - base);
    }
}

/// Appends a panel.
pub(crate) fn spawn_panel(
    world: &mut UiWorld,
    parent: Option<usize>,
    marker: Option<GameState>,
) -> (r: usize)
    ensures
        r == old(world)@.len(),
        final(world)@ == old(world)@.push(
            panel(
                match parent {
                    Some(p) => Some(p as int),
                    None => None,
                },
                marker,
            ),
        ),
{
    proof {
        reveal_strlit("");
        assert(""@ =~= Seq::<char>::empty());
    }
    world.spawn(parent, marker, UiKind::Panel, UiTags {
        refreshable: false,
        hud: false,
        timer: false,
    }, None, "")
}

/// Appends a line of text under `parent`.
pub(crate) fn spawn_label(world: &mut UiWorld, parent: usize, tags: UiTags, text: &str) -> (r:
    usize)
    ensures
        r == old(world)@.len(),
        final(world)@ == old(world)@.push(label(parent as int, tags, text@)),
{
    world.spawn(Some(parent), None, UiKind::Label, tags, None, text)
}

/// The tree that entering `phase` spawns from slot `base` on. The menu and
/// the game have trees of their own; another phase gets a bare root.
pub open spec fn phase_tree(phase: GameState, base: int) -> Seq<NodeView> {
    match phase {
        GameState::MainMenu => menu_tree(base),
        GameState::InGame => hud_tree(base),
        _ => seq![panel(None, Some(phase))],
    }
}

/// The arena after `phase` is entered: a phase that has a live tree keeps it
/// and gets no second one.
pub open spec fn entered(nodes: Seq<NodeView>, phase: GameState) -> Seq<NodeView> {
    if has_live_root(nodes, phase) {
        nodes
    } else {
        nodes + phase_tree(phase, nodes.len() as int)
    }
}

impl UiWorld {
    /// Spawns the tree of `phase` and hands out its root. Entering a phase
    /// twice without leaving it in between is refused, and nothing changes.
    pub fn enter(&mut self, phase: GameState) -> (r: Result<RootHandle, LifecycleError>)
        requires
            old(self).wf(),
        ensures
            final(self).wf(),
            final(self)@ == entered(old(self)@, phase),
            match r {
                Ok(root) => {
                    &&& !has_live_root(old(self)@, phase)
                    &&& root.index == old(self)@.len()
                    &&& is_live_root(final(self)@, root.index as int, phase)
                },
                Err(e) => e == LifecycleError::AlreadyEntered && has_live_root(old(self)@, phase),
            },
    {
        match phase {
            GameState::MainMenu => render_menu_ui(self),
            GameState::InGame => render_hud_ui(self),
            _ => {
                if self.root_of(phase).is_some() {
                    return Err(LifecycleError::AlreadyEntered);
                }
                let root = spawn_panel(self, None, Some(phase));
                proof {
                    let tree = phase_tree(phase, old(self)@.len() as int);
                    assert(self@ =~= old(self)@ + tree);
                    lemma_spawned_tree(old(self)@, tree, phase);
                }
                Ok(RootHandle { index: root })
            },
        }
    }
}

/// A node that was there before a tree was spawned is owned by whom it was.
pub proof fn lemma_spawn_keeps_ownership(
    nodes: Seq<NodeView>,
    tree: Seq<NodeView>,
    i: int,
    phase: GameState,
)
    requires
        0 <= i < nodes.len(),
    ensures
        belongs(nodes + tree, i, phase) == belongs(nodes, i, phase),
    decreases i,
{
    assert((nodes + tree)[i] == nodes[i]);
    match nodes[i].parent {
        None => {},
        Some(p) => {
            if 0 <= p < i {
                lemma_spawn_keeps_ownership(nodes, tree, p, phase);
            }
        },
    }
}

/// Entering a phase and leaving it at once leaves nothing of it behind: no
/// live node is owned by the phase, every node that was spawned is dead, and
/// the nodes of other trees are as they were before.
pub proof fn lemma_enter_then_exit_leaves_nothing(nodes: Seq<NodeView>, phase: GameState)
    requires
        world_wf(nodes),
    ensures
        world_wf(torn_down(entered(nodes, phase), phase)),
        !has_live_root(torn_down(entered(nodes, phase), phase), phase),
        forall|i: int|
            0 <= i < entered(nodes, phase).len() && torn_down(entered(nodes, phase), phase)[i].alive
                ==> !belongs(torn_down(entered(nodes, phase), phase), i, phase),
        forall|i: int|
            nodes.len() <= i < entered(nodes, phase).len() ==> !torn_down(
                entered(nodes, phase),
                phase,
            )[i].alive,
        forall|i: int|
            0 <= i < nodes.len() && !belongs(nodes, i, phase) ==> torn_down(
                entered(nodes, phase),
                phase,
            )[i] == nodes[i],
{
    let mid = entered(nodes, phase);
    if has_live_root(nodes, phase) {
        lemma_torn_down_is_complete(nodes, phase);
    } else {
        let tree = phase_tree(phase, nodes.len() as int);
        lemma_spawned_tree(nodes, tree, phase);
        lemma_torn_down_is_complete(mid, phase);
        assert forall|i: int| 0 <= i < nodes.len() && !belongs(nodes, i, phase) implies torn_down(
            mid,
            phase,
        )[i] == nodes[i] by {
            lemma_spawn_keeps_ownership(nodes, tree, i, phase);
        }
    }
}

/// The fonts of the interface, each as the position of its handle in the
/// group registered for them.
#[derive(Clone, Copy, Debug, PartialEq, Eq, Structural)]
pub struct FontAssetCollection {
    pub regular: usize,
    pub bold: usize,
    pub mono: usize,
}

/// The group of the fonts: three pending handles, requested when the process
/// starts. No later phase waits for them.
pub open spec fn font_group() -> GroupView {
    GroupView {
        name: "fonts"@,
        scope: GameState::GameStart,
        handles: Seq::new(3, |i: int| HandleStatus::Pending),
    }
}

/// Registers the group of the fonts. Registering it a second time is refused
/// and changes nothing.
pub fn load_assets(gate: &mut AssetGate) -> (r: Result<FontAssetCollection, GateError>)
    requires
        old(gate).wf(),
    ensures
        final(gate).wf(),
        match r {
            Ok(fonts) => {
                &&& !has_group(old(gate)@, "fonts"@)
                &&& final(gate)@ == old(gate)@.push(font_group())
                &&& fonts == (FontAssetCollection { regular: 0, bold: 1, mono: 2 })
            },
            Err(e) => {
                &&& e == GateError::DuplicateGroup
                &&& has_group(old(gate)@, "fonts"@)
                &&& final(gate)@ == old(gate)@
            },
        },
{
    match gate.register("fonts", GameState::GameStart, 3) {
        Ok(_) => Ok(FontAssetCollection { regular: 0, bold: 1, mono: 2 }),
        Err(e) => Err(e),
    }
}

} // verus!
