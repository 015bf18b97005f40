use vstd::prelude::*;

pub mod config;
pub mod text;
pub mod battery;
pub mod backlight;
pub mod navigation;
pub mod interaction;
pub mod icon;
pub mod dynamicshortcuts;
pub mod system_monitor;
pub mod user_cache;
pub mod paths;
pub mod parse;
pub mod display;
pub mod clock;
pub mod desktop_user;

verus! {
} // verus!
