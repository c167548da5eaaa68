use antsim::colony::{AntState, Colony};
use antsim::config::{Config, ConfigVar};
use antsim::map::{Grid, Pos};
use antsim::render::{grey_scale, pos_inside_area, PrintRenderer};
use antsim::rng::Rand;
use antsim::AntDirection;

#[test]
fn test_pos_inside_area() {
    let p1 = Pos::new(0, -50);
    let p2 = Pos::new(0, -150);
    assert!(pos_inside_area(p1, 200, 200));
    assert!(!pos_inside_area(p2, 200, 200));
}

#[test]
fn grey_scale_bands() {
    assert_eq!(grey_scale(800), '#');
    assert_eq!(grey_scale(700), '%');
    assert_eq!(grey_scale(500), '+');
    assert_eq!(grey_scale(300), '=');
    assert_eq!(grey_scale(200), '-');
    assert_eq!(grey_scale(120), ':');
    assert_eq!(grey_scale(50), '.');
    assert_eq!(grey_scale(0), '.');
}

#[test]
fn render_map_shows_the_nest() {
    let g = Grid::new("Map", 10, 10);
    let r = PrintRenderer::new('H', 'F', 'O', '*');
    let rows = r.render_map(&g);
    assert_eq!(rows.len(), 10);
    for row in &rows {
        assert_eq!(row.chars().count(), 10);
    }
    assert_eq!(rows[5].chars().nth(5).unwrap(), 'H');
    assert_eq!(rows[0].chars().nth(0).unwrap(), ' ');
}

#[test]
fn render_draws_ants_over_blank_tiles() {
    let g = Grid::new("Map", 10, 10);
    let mut colony = Colony::new();
    let mut rng = Rand::from_seed(8);
    colony.add_ant(1, Pos::new(2, 3), AntState::Seeker, &mut rng);
    let r = PrintRenderer::new('H', 'F', 'O', '*');
    let rows = r.render(&g, &colony.ants);
    assert_eq!(rows.len(), 10);
    assert_eq!(rows[3].chars().nth(2).unwrap(), '*');
    // the nest tile is not blank, so the nest wins over an ant on it
    let mut colony2 = Colony::new();
    colony2.add_ant(1, Pos::new(5, 5), AntState::Seeker, &mut rng);
    let rows2 = r.render(&g, &colony2.ants);
    assert_eq!(rows2[5].chars().nth(5).unwrap(), 'H');
}

#[test]
fn layer_merge_prefers_the_map() {
    let r = PrintRenderer::new('H', 'F', 'O', '*');
    let map_layer = vec![String::from(" A "), String::from("B  ")];
    let ant_layer = vec![String::from("xyz"), String::from("uvw")];
    let merged = r.process_string_layers(map_layer, ant_layer);
    assert_eq!(merged[0], "xAz");
    assert_eq!(merged[1], "Bvw");
}

#[test]
fn layer_merge_lets_ants_through_any_whitespace() {
    let r = PrintRenderer::new('H', 'F', 'O', '*');
    let map_layer = vec![String::from("\tA\u{00A0}")];
    let ant_layer = vec![String::from("xyz")];
    let merged = r.process_string_layers(map_layer, ant_layer);
    assert_eq!(merged[0], "xAz");
}

#[test]
fn layer_merge_truncates_to_the_shorter_layer() {
    let r = PrintRenderer::new('H', 'F', 'O', '*');
    let map_layer = vec![String::from("  "), String::from("AB"), String::from("C")];
    let ant_layer = vec![String::from("wxyz"), String::from("u")];
    let merged = r.process_string_layers(map_layer, ant_layer);
    assert_eq!(merged.len(), 2);
    assert_eq!(merged[0], "wx");
    assert_eq!(merged[1], "A");
}

#[test]
fn config_var_clamps_on_every_mutation() {
    let mut v = ConfigVar::new("speed", 5, 0, 10);
    v.set(42);
    assert_eq!(v.val(), 10);
    v.set(-3);
    assert_eq!(v.val(), 0);
    v.decr();
    assert_eq!(v.val(), 0);
    v.set(10);
    v.incr();
    assert_eq!(v.val(), 10);
    v.set(7);
    v.incr();
    assert_eq!(v.val(), 8);
    v.decr();
    assert_eq!(v.val(), 7);
    assert_eq!(v.min(), 0);
    assert_eq!(v.max(), 10);
    assert_eq!(v.name(), "speed");
}

#[test]
fn config_defaults_and_order() {
    let c = Config::init();
    let vars = c.vars();
    assert_eq!(vars.len(), 8);
    assert_eq!(vars[2].name(), "Max steps");
    assert_eq!(vars[2].val(), 100);
    assert_eq!(vars[3].val(), 10);
    assert_eq!(vars[4].val(), 115);
    assert_eq!(vars[5].val(), 46);
    assert_eq!(vars[6].val(), 2);
    assert_eq!(vars[7].val(), 79);
}

#[test]
fn config_steps_one_parameter_at_a_time() {
    let mut c = Config::init();
    c.incr_var(2);
    assert_eq!(c.max_steps.val(), 101);
    assert_eq!(c.min_ph_c.val(), 10);
    c.decr_var(3);
    c.decr_var(3);
    assert_eq!(c.min_ph_c.val(), 8);
    // saturation at the bounds
    let mut c2 = Config::init();
    for _ in 0..200 {
        c2.decr_var(3);
    }
    assert_eq!(c2.min_ph_c.val(), 0);
}

#[test]
fn directions_and_turns() {
    assert_eq!(AntDirection::Up.vec(), (0, 1));
    assert_eq!(AntDirection::Down.vec(), (0, -1));
    assert_eq!(AntDirection::Right.vec(), (1, 0));
    assert_eq!(AntDirection::Left.vec(), (-1, 0));
    assert!(matches!(AntDirection::from_index(0), AntDirection::Up));
    assert!(matches!(AntDirection::from_index(1), AntDirection::Down));
    assert!(matches!(AntDirection::from_index(2), AntDirection::Left));
    assert!(matches!(AntDirection::from_index(3), AntDirection::Right));
    let mut rng = Rand::from_seed(9);
    for _ in 0..20 {
        let t = AntDirection::Up.random_turn(&mut rng);
        assert!(matches!(t, AntDirection::Right | AntDirection::Left));
        let t = AntDirection::Left.random_turn(&mut rng);
        assert!(matches!(t, AntDirection::Up | AntDirection::Down));
    }
}

#[test]
fn seeded_draws_are_reproducible() {
    let mut a = Rand::from_seed(11);
    let mut b = Rand::from_seed(11);
    for _ in 0..200 {
        assert_eq!(a.coin(), b.coin());
    }
}
