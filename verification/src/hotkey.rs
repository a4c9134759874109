//! The global hotkey that toggles the launcher.
use vstd::prelude::*;

verus! {

#[derive(Debug, Clone, Copy)]
pub enum HotkeyEvent {
    ToggleLauncher,
}

/// The id under which `Alt+Space` is registered.
pub const HOTKEY_ID: i32 = 1;

} // verus!
