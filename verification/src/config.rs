//! Display and key-binding settings with their defaults.
use vstd::prelude::*;

verus! {

broadcast use vstd::string::group_string_axioms;

/// How the terminal output is produced.
#[derive(Debug)]
pub struct DisplayConfig {
    pub fps: u32,
    pub color_mode: String,
    pub show_status_bar: bool,
}

/// Which key does what, by key name.
#[derive(Debug)]
pub struct KeybindingsConfig {
    pub next_mode: String,
    pub prev_mode: String,
    pub quit: String,
    pub toggle_status: String,
    pub increase_sensitivity: String,
    pub decrease_sensitivity: String,
}

impl Default for DisplayConfig {
    /// 30 frames per second, true color, status bar shown.
    fn default() -> (c: Self)
        ensures
            c.fps == 30,
            c.color_mode@ == "truecolor"@,
            c.show_status_bar,
    {
        DisplayConfig { fps: 30, color_mode: "truecolor".to_string(), show_status_bar: true }
    }
}

impl Default for KeybindingsConfig {
    /// Tab and Shift+Tab cycle modes, `q` quits, `s` toggles the status
    /// bar, `+` and `-` change the sensitivity.
    fn default() -> (c: Self)
        ensures
            c.next_mode@ == "Tab"@,
            c.prev_mode@ == "Shift+Tab"@,
            c.quit@ == "q"@,
            c.toggle_status@ == "s"@,
            c.increase_sensitivity@ == "+"@,
            c.decrease_sensitivity@ == "-"@,
    {
        KeybindingsConfig {
            next_mode: "Tab".to_string(),
            prev_mode: "Shift+Tab".to_string(),
            quit: "q".to_string(),
            toggle_status: "s".to_string(),
            increase_sensitivity: "+".to_string(),
            decrease_sensitivity: "-".to_string(),
        }
    }
}

} // verus!
