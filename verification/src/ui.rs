//! Frame pacing and label placement of the terminal front end.
use vstd::prelude::*;
use crate::visualizations::render::Rect;

verus! {

/// Frame rate actually used: inside tmux the configured rate is capped at
/// 30 frames per second to spare the multiplexer, elsewhere it is raised to
/// at least 60.
pub fn effective_fps(configured_fps: u32, in_tmux: bool) -> (fps: u32)
    ensures
        in_tmux ==> fps == if configured_fps < 30 {
            configured_fps
        } else {
            30
        },
        !in_tmux ==> fps == if configured_fps > 60 {
            configured_fps
        } else {
            60
        },
{
    if in_tmux {
        if configured_fps < 30 {
            configured_fps
        } else {
            30
        }
    } else {
        if configured_fps > 60 {
            configured_fps
        } else {
            60
        }
    }
}

/// Whether a frame is skipped: inside tmux, while the terminal pane does
/// not have the focus, a visualization that floods the terminal with color
/// escape sequences pauses; everything else keeps drawing.
pub fn pause_rendering(in_tmux: bool, focused: bool, heavy: bool) -> (pause: bool)
    ensures
        pause == (in_tmux && !focused && heavy),
{
    in_tmux && !focused && heavy
}

/// Milliseconds per frame at `fps` frames per second, a rate of 0 counting
/// as 1.
pub fn frame_interval_ms(fps: u32) -> (ms: u64)
    ensures
        ms == 1000int / (if fps == 0 {
            1int
        } else {
            fps as int
        }),
        ms <= 1000,
{
    let f: u64 = if fps == 0 {
        1
    } else {
        fps as u64
    };
    1000 / f
}

/// Where the name label of the visualization goes: on the bottom row of
/// the area, centered, at most as wide as the area.
pub open spec fn spec_label_area(area: Rect, label_width: u16) -> Rect {
    Rect {
        x: (area.x + (if label_width <= area.width {
            (area.width - label_width) / 2
        } else {
            0
        })) as u16,
        y: (area.y + area.height - 1) as u16,
        width: if label_width < area.width {
            label_width
        } else {
            area.width
        },
        height: 1,
    }
}

/// Where the name label of the visualization goes: on the bottom row of
/// the area, centered, at most as wide as the area.
pub fn label_area(area: Rect, label_width: u16) -> (r: Rect)
    requires
        area.fits(),
        area.height >= 1,
    ensures
        r == spec_label_area(area, label_width),
{
    let slack = if label_width <= area.width {
        area.width - label_width
    } else {
        0
    };
    let width = if label_width < area.width {
        label_width
    } else {
        area.width
    };
    Rect { x: area.x + slack / 2, y: area.y + area.height - 1, width, height: 1 }
}

/// The label lies inside the area it labels.
pub proof fn lemma_label_inside(area: Rect, label_width: u16)
    requires
        area.fits(),
        area.height >= 1,
    ensures
        ({
            let r = spec_label_area(area, label_width);
            &&& area.x <= r.x
            &&& r.x + r.width <= area.x + area.width
            &&& area.y <= r.y
            &&& r.y + r.height <= area.y + area.height
        }),
{
}

/// The key of a key press, as far as the front end tells keys apart.
#[derive(Clone, Copy, Debug, PartialEq, Eq, Structural)]
pub enum Key {
    Char(char),
    Tab,
    BackTab,
    Other,
}

/// A key press with the modifier keys held.
#[derive(Clone, Copy, Debug, PartialEq, Eq, Structural)]
pub struct KeyPress {
    pub key: Key,
    pub shift: bool,
    pub control: bool,
}

/// What the front end does for a key of its own.
#[derive(Clone, Copy, Debug, PartialEq, Eq, Structural)]
pub enum AppCommand {
    Quit,
    NextVisualization,
    PrevVisualization,
    SensitivityUp,
    SensitivityDown,
    BeatIntensityUp,
    BeatIntensityDown,
    ColorDetailUp,
    ColorDetailDown,
    ToggleStatusBar,
}

/// The front end's key map: `q` or Ctrl+C quit, Tab and Shift+Tab (or
/// BackTab) cycle visualizations, `+`/`=` and `-` change the sensitivity,
/// `b`/`B` the beat intensity, `]`/`[` the color detail, and `s` toggles
/// the status bar. Other keys belong to the visualization shown.
pub open spec fn spec_command_for_key(k: KeyPress) -> Option<AppCommand> {
    match k.key {
        Key::Char(c) => if c == 'q' {
            Some(AppCommand::Quit)
        } else if c == '+' || c == '=' {
            Some(AppCommand::SensitivityUp)
        } else if c == '-' {
            Some(AppCommand::SensitivityDown)
        } else if c == 'b' {
            Some(AppCommand::BeatIntensityUp)
        } else if c == 'B' {
            Some(AppCommand::BeatIntensityDown)
        } else if c == ']' {
            Some(AppCommand::ColorDetailUp)
        } else if c == '[' {
            Some(AppCommand::ColorDetailDown)
        } else if c == 's' {
            Some(AppCommand::ToggleStatusBar)
        } else if c == 'c' && k.control {
            Some(AppCommand::Quit)
        } else {
            None
        },
        Key::Tab => if k.shift {
            Some(AppCommand::PrevVisualization)
        } else {
            Some(AppCommand::NextVisualization)
        },
        Key::BackTab => Some(AppCommand::PrevVisualization),
        Key::Other => None,
    }
}

/// The front end's command for a key press, `None` for keys it leaves to
/// the visualization shown.
pub fn command_for_key(k: KeyPress) -> (c: Option<AppCommand>)
    ensures
        c == spec_command_for_key(k),
{
    match k.key {
        Key::Char('q') => Some(AppCommand::Quit),
        Key::Tab => if k.shift {
            Some(AppCommand::PrevVisualization)
        } else {
            Some(AppCommand::NextVisualization)
        },
        Key::BackTab => Some(AppCommand::PrevVisualization),
        Key::Char('+') | Key::Char('=') => Some(AppCommand::SensitivityUp),
        Key::Char('-') => Some(AppCommand::SensitivityDown),
        Key::Char('b') => Some(AppCommand::BeatIntensityUp),
        Key::Char('B') => Some(AppCommand::BeatIntensityDown),
        Key::Char(']') => Some(AppCommand::ColorDetailUp),
        Key::Char('[') => Some(AppCommand::ColorDetailDown),
        Key::Char('s') => Some(AppCommand::ToggleStatusBar),
        Key::Char('c') if k.control => Some(AppCommand::Quit),
        _ => None,
    }
}


/// The front end's keys, whatever modifiers are held: `q` quits; `+` and
/// `=` raise the sensitivity and `-` lowers it; `b` raises the beat
/// intensity and `B` lowers it; `]` raises the color detail and `[` lowers
/// it; `s` toggles the status bar; `c` quits with Ctrl held and is left to
/// the visualization without; Tab steps to the next visualization, Shift+Tab
/// and BackTab to the previous one. Every other key is left to the
/// visualization shown.
pub proof fn lemma_key_map(shift: bool, control: bool, c: char)
    ensures
        spec_command_for_key(KeyPress { key: Key::Char('q'), shift, control }) == Some(AppCommand::Quit),
        spec_command_for_key(KeyPress { key: Key::Char('+'), shift, control }) == Some(AppCommand::SensitivityUp),
        spec_command_for_key(KeyPress { key: Key::Char('='), shift, control }) == Some(AppCommand::SensitivityUp),
        spec_command_for_key(KeyPress { key: Key::Char('-'), shift, control }) == Some(AppCommand::SensitivityDown),
        spec_command_for_key(KeyPress { key: Key::Char('b'), shift, control }) == Some(AppCommand::BeatIntensityUp),
        spec_command_for_key(KeyPress { key: Key::Char('B'), shift, control }) == Some(AppCommand::BeatIntensityDown),
        spec_command_for_key(KeyPress { key: Key::Char(']'), shift, control }) == Some(AppCommand::ColorDetailUp),
        spec_command_for_key(KeyPress { key: Key::Char('['), shift, control }) == Some(AppCommand::ColorDetailDown),
        spec_command_for_key(KeyPress { key: Key::Char('s'), shift, control }) == Some(AppCommand::ToggleStatusBar),
        spec_command_for_key(KeyPress { key: Key::Char('c'), shift, control: true }) == Some(AppCommand::Quit),
        spec_command_for_key(KeyPress { key: Key::Char('c'), shift, control: false }) is None,
        spec_command_for_key(KeyPress { key: Key::Tab, shift: false, control }) == Some(AppCommand::NextVisualization),
        spec_command_for_key(KeyPress { key: Key::Tab, shift: true, control }) == Some(AppCommand::PrevVisualization),
        spec_command_for_key(KeyPress { key: Key::BackTab, shift, control }) == Some(AppCommand::PrevVisualization),
        spec_command_for_key(KeyPress { key: Key::Other, shift, control }) is None,
        (c != 'q' && c != '+' && c != '=' && c != '-' && c != 'b' && c != 'B' && c != ']' && c != '['
            && c != 's' && c != 'c') ==> spec_command_for_key(KeyPress { key: Key::Char(c), shift, control })
            is None,
{
}


/// The name label is centered on the bottom row of the area: as wide as
/// the label or the area, whichever is narrower, with the columns left
/// over split evenly, the extra one (when their count is odd) on the right.
pub proof fn lemma_label_centered(area: Rect, label_width: u16)
    requires
        area.fits(),
        area.height >= 1,
    ensures
        ({
            let r = spec_label_area(area, label_width);
            let left = r.x - area.x;
            let right = area.x + area.width - (r.x + r.width);
            &&& r.y == area.y + area.height - 1
            &&& r.height == 1
            &&& r.width == if label_width < area.width { label_width } else { area.width }
            &&& 0 <= left <= right <= left + 1
        }),
{
}

} // verus!
