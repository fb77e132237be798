use terminal_vibes::visualizations::life::{life_on_key, RenderMode};
use terminal_vibes::visualizations::starfield::{hash_u32, next_density};
use terminal_vibes::visualizations::tunnel::TunnelShape;

#[test]
fn render_mode_cycle_and_names() {
    assert_eq!(RenderMode::Character.next(), RenderMode::HalfBlock);
    assert_eq!(RenderMode::HalfBlock.next(), RenderMode::Braille);
    assert_eq!(RenderMode::Braille.next(), RenderMode::Character);
    for m in [RenderMode::Character, RenderMode::HalfBlock, RenderMode::Braille] {
        assert_eq!(RenderMode::from_name(m.name()), Some(m));
    }
    assert_eq!(RenderMode::HalfBlock.name(), "halfblock");
    assert_eq!(RenderMode::from_name("half-block"), None);
}

#[test]
fn tunnel_shape_cycle() {
    assert_eq!(TunnelShape::Circle.next(), TunnelShape::Hexagon);
    assert_eq!(TunnelShape::Square.next(), TunnelShape::Circle);
    assert_eq!(TunnelShape::Hexagon.name(), "hexagon");
    let s = TunnelShape::Square;
    assert_eq!(s.next().next().next(), s);
}

#[test]
fn star_hash_known_values() {
    assert_eq!(hash_u32(0), 0);
    assert_eq!(hash_u32(1), 824515495);
    assert_eq!(hash_u32(12345), 1747545881);
}

#[test]
fn star_density_cycle() {
    assert_eq!(next_density(250), 500);
    assert_eq!(next_density(500), 1000);
    assert_eq!(next_density(1000), 250);
    assert_eq!(next_density(7), 250);
}

#[test]
fn life_m_key_cycles_render_mode() {
    assert_eq!(life_on_key(RenderMode::Character, 'm'), (RenderMode::HalfBlock, true));
    assert_eq!(life_on_key(RenderMode::HalfBlock, 'm'), (RenderMode::Braille, true));
    assert_eq!(life_on_key(RenderMode::Braille, 'x'), (RenderMode::Braille, false));
}

#[test]
fn star_hash_never_collides_on_small_seeds() {
    let mut seen = std::collections::HashSet::new();
    for seed in 0..20000u32 {
        assert!(seen.insert(hash_u32(seed)));
    }
    assert!(seen.insert(hash_u32(u32::MAX)));
}
