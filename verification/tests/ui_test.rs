use terminal_vibes::ui::{
    command_for_key, effective_fps, frame_interval_ms, label_area, pause_rendering, AppCommand, Key,
    KeyPress,
};
use terminal_vibes::visualizations::render::Rect;

fn press(key: Key) -> KeyPress {
    KeyPress { key, shift: false, control: false }
}

#[test]
fn fps_capped_in_tmux_raised_elsewhere() {
    assert_eq!(effective_fps(30, true), 30);
    assert_eq!(effective_fps(144, true), 30);
    assert_eq!(effective_fps(20, true), 20);
    assert_eq!(effective_fps(30, false), 60);
    assert_eq!(effective_fps(144, false), 144);
}

#[test]
fn frame_interval() {
    assert_eq!(frame_interval_ms(60), 16);
    assert_eq!(frame_interval_ms(30), 33);
    assert_eq!(frame_interval_ms(0), 1000);
}

#[test]
fn label_centered_on_bottom_row() {
    let area = Rect { x: 2, y: 3, width: 20, height: 10 };
    assert_eq!(label_area(area, 8), Rect { x: 8, y: 12, width: 8, height: 1 });
    assert_eq!(label_area(area, 30), Rect { x: 2, y: 12, width: 20, height: 1 });
}

#[test]
fn key_map() {
    assert_eq!(command_for_key(press(Key::Char('q'))), Some(AppCommand::Quit));
    assert_eq!(command_for_key(press(Key::Tab)), Some(AppCommand::NextVisualization));
    assert_eq!(
        command_for_key(KeyPress { key: Key::Tab, shift: true, control: false }),
        Some(AppCommand::PrevVisualization)
    );
    assert_eq!(command_for_key(press(Key::BackTab)), Some(AppCommand::PrevVisualization));
    assert_eq!(command_for_key(press(Key::Char('='))), Some(AppCommand::SensitivityUp));
    assert_eq!(command_for_key(press(Key::Char('['))), Some(AppCommand::ColorDetailDown));
    assert_eq!(command_for_key(press(Key::Char('c'))), None);
    assert_eq!(
        command_for_key(KeyPress { key: Key::Char('c'), shift: false, control: true }),
        Some(AppCommand::Quit)
    );
    assert_eq!(command_for_key(press(Key::Other)), None);
    assert_eq!(command_for_key(press(Key::Char('p'))), None);
}

#[test]
fn heavy_visualizations_pause_when_unfocused_in_tmux() {
    assert!(pause_rendering(true, false, true));
    assert!(!pause_rendering(true, true, true));
    assert!(!pause_rendering(false, false, true));
    assert!(!pause_rendering(true, false, false));
}
