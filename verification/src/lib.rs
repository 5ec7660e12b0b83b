//! Flow control for a small platformer shell.
//!
//! Two axes of lifecycle state gate everything else: how far the content a
//! phase needs has loaded, and which phase the application is in. On top of
//! that pair the crate keeps the user-interface trees of each phase, routes
//! button interactions, and refreshes the on-screen level clock.
pub mod asset_gate;
pub mod coordinator;
pub mod game_state;
pub mod menu;
pub mod player;
pub mod schedule;
pub mod ui;
