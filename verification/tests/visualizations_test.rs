use terminal_vibes::visualizations::registry::VisualizationRegistry;

/// A mock visualization for testing the registry.
struct MockViz {
    name: String,
    updated: bool,
}

impl MockViz {
    fn new(name: &str) -> Self {
        Self { name: name.to_string(), updated: false }
    }

    fn name(&self) -> &str {
        &self.name
    }

    fn update(&mut self) {
        self.updated = true;
    }
}

#[test]
fn test_registry_starts_empty() {
    let registry: VisualizationRegistry<MockViz> = VisualizationRegistry::new();
    assert_eq!(registry.len(), 0);
    assert!(registry.current().is_none());
}

#[test]
fn test_registry_register_and_access() {
    let mut registry = VisualizationRegistry::new();
    registry.register(MockViz::new("test1"));
    registry.register(MockViz::new("test2"));
    assert_eq!(registry.len(), 2);
    assert_eq!(registry.current().unwrap().name(), "test1");
}

#[test]
fn test_registry_cycle_next() {
    let mut registry = VisualizationRegistry::new();
    registry.register(MockViz::new("a"));
    registry.register(MockViz::new("b"));
    registry.register(MockViz::new("c"));

    assert_eq!(registry.current().unwrap().name(), "a");
    registry.next();
    assert_eq!(registry.current().unwrap().name(), "b");
    registry.next();
    assert_eq!(registry.current().unwrap().name(), "c");
    registry.next();
    // wraps around
    assert_eq!(registry.current().unwrap().name(), "a");
}

#[test]
fn test_registry_cycle_prev() {
    let mut registry = VisualizationRegistry::new();
    registry.register(MockViz::new("a"));
    registry.register(MockViz::new("b"));
    registry.register(MockViz::new("c"));

    assert_eq!(registry.current().unwrap().name(), "a");
    registry.prev();
    // wraps around to end
    assert_eq!(registry.current().unwrap().name(), "c");
    registry.prev();
    assert_eq!(registry.current().unwrap().name(), "b");
}

#[test]
fn test_registry_update_current() {
    let mut registry = VisualizationRegistry::new();
    registry.register(MockViz::new("test"));

    if let Some(viz) = registry.current_mut() {
        viz.update();
    }
    assert!(registry.current().unwrap().updated);
}

#[test]
fn registry_next_then_prev_returns_and_empty_stays_put() {
    let mut registry = VisualizationRegistry::new();
    registry.next();
    registry.prev();
    assert!(registry.is_empty());
    assert!(registry.current_mut().is_none());
    for name in ["a", "b", "c", "d"] {
        registry.register(MockViz::new(name));
    }
    registry.next();
    registry.next();
    registry.prev();
    assert_eq!(registry.current().unwrap().name(), "b");
    for _ in 0..4 {
        registry.next();
    }
    assert_eq!(registry.current().unwrap().name(), "b");
}
