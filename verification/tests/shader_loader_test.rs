use terminal_vibes::gpu::shader_loader::{first_match, ShaderEntry, ShaderEvent, ShaderLoader};

fn entry(name: &str, path: Option<&str>) -> ShaderEntry {
    ShaderEntry {
        name: name.to_string(),
        source: format!("// {name}"),
        path: path.map(|p| p.to_string()),
    }
}

fn loader() -> ShaderLoader {
    ShaderLoader::with_shaders(vec![
        entry("plasma", None),
        entry("a", Some("/s/a.wgsl")),
        entry("b", Some("/s/b.wgsl")),
        entry("c", Some("/s/c.wgsl")),
    ])
}

#[test]
fn shader_cycle_and_names() {
    let mut l = loader();
    assert_eq!(l.shader_count(), 4);
    assert_eq!(l.current_name(), "plasma");
    l.prev();
    assert_eq!(l.current_name(), "c");
    l.next();
    l.next();
    assert_eq!(l.current_name(), "a");
    assert_eq!(l.current_source(), "// a");
}

#[test]
fn shader_empty_loader() {
    let mut l = ShaderLoader::with_shaders(Vec::new());
    l.next();
    assert_eq!(l.current_name(), "none");
    assert_eq!(l.current_source(), "");
    assert!(l.current().is_none());
}

#[test]
fn shader_reload_marks_current() {
    let mut l = loader();
    l.next();
    let idx = l.position_of("/s/a.wgsl").unwrap();
    assert_eq!(idx, 1);
    assert!(l.reload(idx, "new a".to_string()));
    assert_eq!(l.current_source(), "new a");
    let idx = l.position_of("/s/c.wgsl").unwrap();
    assert!(!l.reload(idx, "new c".to_string()));
    assert_eq!(l.position_of("/s/zzz.wgsl"), None);
}

#[test]
fn shader_remove_adjusts_current() {
    let mut l = loader();
    l.next();
    l.next(); // showing "b"
    assert!(!l.remove(0)); // earlier shader goes: still "b"
    assert_eq!(l.current_name(), "b");
    assert!(l.remove(1)); // the shown one goes
    assert_eq!(l.current_name(), "c");
    assert!(l.remove(1)); // shown was last: moves to new last
    assert_eq!(l.current_name(), "a");
    assert!(!l.remove(0));
    assert_eq!(l.shader_count(), 0);
    assert_eq!(l.current_name(), "none");
    l.add(entry("d", Some("/s/d.wgsl")));
    assert_eq!(l.current_name(), "d");
}

#[test]
fn shader_events_update_the_list() {
    let mut l = loader();
    l.next(); // showing "a"
    // A modified file that a shader came from is reloaded.
    assert!(l.handle_event(ShaderEvent::Modified("/s/a.wgsl".to_string()), Some("fresh".to_string())));
    assert_eq!(l.current_source(), "fresh");
    // Unknown files and unreadable files change nothing.
    assert!(!l.handle_event(ShaderEvent::Modified("/s/x.wgsl".to_string()), Some("x".to_string())));
    assert!(!l.handle_event(ShaderEvent::Modified("/s/b.wgsl".to_string()), None));
    assert!(!l.handle_event(ShaderEvent::Removed("/s/x.wgsl".to_string()), None));
    assert_eq!(l.shader_count(), 4);
    // A created file becomes a new shader named after its stem.
    assert!(!l.handle_event(ShaderEvent::Created("/s/new_one.wgsl".to_string()), Some("n".to_string())));
    assert!(!l.handle_event(ShaderEvent::Created("/s/unread.wgsl".to_string()), None));
    assert_eq!(l.shader_count(), 5);
    assert_eq!(l.position_of("/s/new_one.wgsl"), Some(4));
    l.prev();
    l.prev(); // showing "new_one"
    assert_eq!(l.current_name(), "new_one");
    assert_eq!(l.current_source(), "n");
    // Removing the shown shader asks for a rebuild.
    assert!(l.handle_event(ShaderEvent::Removed("/s/new_one.wgsl".to_string()), None));
    assert_eq!(l.current_name(), "c");
    assert_eq!(l.shader_count(), 4);
}

#[test]
fn shader_paths_compare_as_paths() {
    let mut l = loader();
    // `Path` equality goes by components, so a doubled separator matches.
    assert_eq!(l.position_of("/s//a.wgsl"), Some(1));
    assert!(!l.handle_event(ShaderEvent::Removed("/s//c.wgsl".to_string()), None));
    assert_eq!(l.shader_count(), 3);
    assert_eq!(l.position_of("/s/c.wgsl"), None);
    assert_eq!(l.position_of("/s/a.wgsl/b"), None);
}

#[test]
fn shader_first_match_and_matched_updates() {
    assert_eq!(first_match(&[false, true, true]), Some(1));
    assert_eq!(first_match(&[false, false]), None);
    assert_eq!(first_match(&[]), None);

    let mut l = loader();
    l.next(); // showing "a"
    assert_eq!(l.path_matches("/s/a.wgsl"), vec![false, true, false, false]);
    assert_eq!(l.path_matches("/s/none.wgsl"), vec![false; 4]);
    // The shown shader's own file is re-read: rebuild, new source.
    assert!(l.reload_matched(&[false, true, false, false], "a2".to_string()));
    assert_eq!(l.current_source(), "a2");
    // Another file: no rebuild.
    assert!(!l.reload_matched(&[false, false, true, true], "b2".to_string()));
    assert_eq!(l.current_source(), "a2");
    assert!(!l.reload_matched(&[false; 4], "x".to_string()));
    // Removing an earlier shader keeps showing "a".
    assert!(!l.remove_matched(&[true, false, false, false]));
    assert_eq!(l.current_name(), "a");
    assert!(!l.remove_matched(&[false, false, false]));
    assert_eq!(l.shader_count(), 3);
}

#[test]
fn shader_list_from_builtins_and_files() {
    let l = ShaderLoader::with_files(
        vec![entry("plasma", None), entry("tunnel", None)],
        vec![
            ("/home/u/shaders/glow.wgsl".to_string(), "g".to_string()),
            ("/home/u/shaders/warp.wgsl".to_string(), "w".to_string()),
        ],
    );
    assert_eq!(l.shader_count(), 4);
    assert_eq!(l.current_name(), "plasma");
    assert_eq!(l.position_of("/home/u/shaders/warp.wgsl"), Some(3));
    let mut l = l;
    l.prev();
    assert_eq!(l.current_name(), "warp");
    assert_eq!(l.current_source(), "w");
    l.prev();
    assert_eq!(l.current_name(), "glow");
}

#[test]
fn shader_names_are_file_stems() {
    let mut l = ShaderLoader::with_files(
        vec![entry("plasma", None)],
        vec![
            ("/s/my.fancy.wgsl".to_string(), "1".to_string()),
            ("/s/.hidden".to_string(), "2".to_string()),
            ("rel/plain".to_string(), "3".to_string()),
        ],
    );
    l.next();
    assert_eq!(l.current_name(), "my.fancy");
    l.next();
    assert_eq!(l.current_name(), ".hidden");
    l.next();
    assert_eq!(l.current_name(), "plain");
    assert!(!l.handle_event(ShaderEvent::Created("/s/new.frag.wgsl".to_string()), Some("4".to_string())));
    assert_eq!(l.position_of("/s/new.frag.wgsl"), Some(4));
}

#[test]
fn shader_builtins_survive_events() {
    let mut l = loader();
    for p in ["/s/a.wgsl", "/s/b.wgsl", "/s/c.wgsl", "/s/zzz.wgsl"] {
        l.handle_event(ShaderEvent::Removed(p.to_string()), None);
    }
    assert_eq!(l.shader_count(), 1);
    assert_eq!(l.current_name(), "plasma");
    assert!(!l.handle_event(ShaderEvent::Modified("/s/a.wgsl".to_string()), Some("x".to_string())));
    assert_eq!(l.current_source(), "// plasma");
}
