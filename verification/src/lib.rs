//! PopMax, a keyboard-driven application launcher: the verified logic behind
//! its search box, bang shortcuts, results list, favorites, app scan, tray
//! icon and launch-at-login setting.
pub mod app_theme;
pub mod autostart;
pub mod bangs;
pub mod components;
pub mod hotkey;
pub mod launcher;
pub mod list;
pub mod scanner;
pub mod text;
pub mod tray;
pub mod types;
pub mod utils;
pub mod windows_icons;
