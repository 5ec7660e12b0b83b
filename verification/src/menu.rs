//! The assets of the main menu.
use vstd::prelude::*;

use crate::asset_gate::{has_group, AssetGate, GateError, GroupView, HandleStatus};
use crate::game_state::GameState;
use crate::ui::menu::SoundCue;

verus! {

/// The sounds of the menu's buttons, each as the position of its handle in
/// the group registered for them.
#[derive(Clone, Copy, Debug, PartialEq, Eq, Structural)]
pub struct MenuAssetCollection {
    pub press_sound: usize,
    pub hover_sound: usize,
}

/// The group of the menu's sounds: two pending handles that the main menu
/// waits for.
pub open spec fn menu_group() -> GroupView {
    GroupView {
        name: "menu"@,
        scope: GameState::MainMenu,
        handles: Seq::new(2, |i: int| HandleStatus::Pending),
    }
}

impl MenuAssetCollection {
    /// Registers the group of the menu's sounds. Registering it a second
    /// time is refused and changes nothing.
    pub fn register(gate: &mut AssetGate) -> (r: Result<MenuAssetCollection, GateError>)
        requires
            old(gate).wf(),
        ensures
            final(gate).wf(),
            match r {
                Ok(sounds) => {
                    &&& !has_group(old(gate)@, "menu"@)
                    &&& final(gate)@ == old(gate)@.push(menu_group())
                    &&& sounds == (MenuAssetCollection { press_sound: 0, hover_sound: 1 })
                },
                Err(e) => {
                    &&& e == GateError::DuplicateGroup
                    &&& has_group(old(gate)@, "menu"@)
                    &&& final(gate)@ == old(gate)@
                },
            },
    {
        match gate.register("menu", GameState::MainMenu, 2) {
            Ok(_) => Ok(MenuAssetCollection { press_sound: 0, hover_sound: 1 }),
            Err(e) => Err(e),
        }
    }

    /// The handle of the sound that plays for `cue`.
    pub fn handle_for(&self, cue: SoundCue) -> (r: usize)
        ensures
            r == match cue {
                SoundCue::Press => self.press_sound,
                SoundCue::Hover => self.hover_sound,
            },
    {
        match cue {
            SoundCue::Press => self.press_sound,
            SoundCue::Hover => self.hover_sound,
        }
    }
}

} // verus!
