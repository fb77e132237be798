use terminal_vibes::config::{DisplayConfig, KeybindingsConfig};

#[test]
fn display_config_defaults() {
    let d = DisplayConfig::default();
    assert_eq!(d.fps, 30);
    assert_eq!(d.color_mode, "truecolor");
    assert!(d.show_status_bar);
}

#[test]
fn keybindings_config_defaults() {
    let k = KeybindingsConfig::default();
    assert_eq!(k.quit, "q");
    assert_eq!(k.next_mode, "Tab");
    assert_eq!(k.prev_mode, "Shift+Tab");
    assert_eq!(k.toggle_status, "s");
    assert_eq!(k.increase_sensitivity, "+");
    assert_eq!(k.decrease_sensitivity, "-");
}
