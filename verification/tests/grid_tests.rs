use antsim::map::{Grid, PhType, Pheromone, Pos, Tile, TileType};

#[test]
fn neighbours_interior() {
    let g = Grid::new("Map", 10, 10);
    let n = g.get_neightbours(Pos::new(5, 5));
    assert_eq!(n.len(), 8);
    for t in &n {
        assert!(!(t.pos.x == 5 && t.pos.y == 5));
        assert!(t.pos.x >= 0 && t.pos.x < 10);
        assert!(t.pos.y >= 0 && t.pos.y < 10);
        assert!((t.pos.x - 5).abs() <= 1 && (t.pos.y - 5).abs() <= 1);
    }
}

#[test]
fn neighbours_corner() {
    let g = Grid::new("Map", 10, 10);
    let n = g.get_neightbours(Pos::new(0, 0));
    assert_eq!(n.len(), 3);
    for t in &n {
        assert!(!(t.pos.x == 0 && t.pos.y == 0));
        assert!(t.pos.x >= 0 && t.pos.x < 10);
        assert!(t.pos.y >= 0 && t.pos.y < 10);
    }
    let n2 = g.get_neightbours(Pos::new(9, 9));
    assert_eq!(n2.len(), 3);
}

#[test]
fn neighbours_edge() {
    let g = Grid::new("Map", 10, 10);
    let n = g.get_neightbours(Pos::new(0, 5));
    assert_eq!(n.len(), 5);
}

#[test]
fn nest_is_centred_and_unique() {
    let g = Grid::new("Map", 10, 10);
    assert_eq!(g.nest_pos(), Pos::new(5, 5));
    let mut nests = 0;
    for y in 0..10 {
        for x in 0..10 {
            if g.get_xy(x, y).tile_type == TileType::Nest {
                nests += 1;
            }
        }
    }
    assert_eq!(nests, 1);
}

#[test]
fn food_patches_cover_exact_area() {
    // Eight non-overlapping 20-by-6 patches always fit on the default grid,
    // wherever the random placement lands, so the food tile count is fixed.
    let g = Grid::new("Map", 115, 46);
    let mut food = 0;
    for y in 0..46 {
        for x in 0..115 {
            if g.get_xy(x, y).tile_type == TileType::Food {
                food += 1;
            }
        }
    }
    assert_eq!(food, 8 * 20 * 6);
}

#[test]
fn food_keeps_clear_of_the_nest() {
    let g = Grid::new("Map", 115, 46);
    let nest = g.nest_pos();
    for t in g.get_neightbours(nest) {
        assert_eq!(t.tile_type, TileType::Empty);
    }
    assert_eq!(g.get(nest).tile_type, TileType::Nest);
}

#[test]
fn small_grid_has_no_food() {
    let g = Grid::new("Map", 10, 10);
    for y in 0..10 {
        for x in 0..10 {
            assert!(g.get_xy(x, y).tile_type != TileType::Food);
            assert!(g.get_xy(x, y).pheromone.is_none());
        }
    }
}

#[test]
fn reached_nest_only_next_to_it() {
    let g = Grid::new("Map", 10, 10);
    assert!(g.reached_nest(Pos::new(4, 4)));
    assert!(g.reached_nest(Pos::new(6, 5)));
    assert!(!g.reached_nest(Pos::new(5, 5)));
    assert!(!g.reached_nest(Pos::new(0, 0)));
    assert!(!g.reached_nest(Pos::new(7, 5)));
}

#[test]
fn drop_ph_creates_and_accumulates() {
    let mut g = Grid::new("Map", 10, 10);
    let p = Pos::new(2, 2);
    g.drop_ph(PhType::FoodTrail, p, 40);
    let ph = g.get(p).pheromone.unwrap();
    assert_eq!(ph.conc(), 40);
    assert!(matches!(ph.ph_type(), PhType::FoodTrail));
    // accumulation is unconditional: the kind is not checked
    g.drop_ph(PhType::Exploration, p, 30);
    let ph = g.get(p).pheromone.unwrap();
    assert_eq!(ph.conc(), 70);
    assert!(matches!(ph.ph_type(), PhType::FoodTrail));
}

#[test]
fn drop_ph_fresh_tile_takes_given_kind() {
    let mut g = Grid::new("Map", 10, 10);
    let p = Pos::new(7, 3);
    g.drop_ph(PhType::Exploration, p, 35);
    let ph = g.get(p).pheromone.unwrap();
    assert!(matches!(ph.ph_type(), PhType::Exploration));
    assert_eq!(ph.conc(), 35);
}

#[test]
fn evaporation_truncates_and_clears_below_floor() {
    let mut t = Tile::empty(0, 0);
    t.pheromone = Some(Pheromone::food(100));
    t.evaporate(2);
    assert_eq!(t.pheromone.unwrap().conc(), 98);

    let mut t2 = Tile::empty(0, 0);
    t2.pheromone = Some(Pheromone::food(31));
    t2.evaporate(10);
    // 31 * 90 / 100 = 27, below the floor of 30: cleared entirely
    assert!(t2.pheromone.is_none());

    let mut t3 = Tile::empty(0, 0);
    t3.pheromone = Some(Pheromone::food(29));
    t3.evaporate(0);
    // already below the floor: cleared even at rate zero
    assert!(t3.pheromone.is_none());
}

#[test]
fn evaporation_rate_zero_is_idempotent() {
    let mut g = Grid::new("Map", 10, 10);
    let p = Pos::new(3, 3);
    g.drop_ph(PhType::FoodTrail, p, 50);
    g.evaporate_all(0);
    assert_eq!(g.get(p).pheromone.unwrap().conc(), 50);
    g.evaporate_all(0);
    assert_eq!(g.get(p).pheromone.unwrap().conc(), 50);
}

#[test]
fn evaporate_all_respects_floor_everywhere() {
    let mut g = Grid::new("Map", 10, 10);
    g.drop_ph(PhType::FoodTrail, Pos::new(1, 1), 25);
    g.drop_ph(PhType::FoodTrail, Pos::new(2, 1), 500);
    g.evaporate_all(2);
    for y in 0..10 {
        for x in 0..10 {
            if let Some(ph) = g.get_xy(x, y).pheromone {
                assert!(ph.conc() >= 30);
            }
        }
    }
    assert!(g.get(Pos::new(1, 1)).pheromone.is_none());
    assert_eq!(g.get(Pos::new(2, 1)).pheromone.unwrap().conc(), 490);
}

#[test]
fn clear_reverts_food_to_empty() {
    let g0 = Grid::new("Map", 115, 46);
    let mut g = g0;
    let mut found = None;
    for y in 0..46 {
        for x in 0..115 {
            if g.get_xy(x, y).tile_type == TileType::Food {
                found = Some(Pos::new(x, y));
            }
        }
    }
    let p = found.expect("the default grid always holds food");
    g.clear(p);
    assert_eq!(g.get(p).tile_type, TileType::Empty);
}

#[test]
fn dist_sq_exact_values() {
    assert_eq!(Pos::dist_sq(Pos::new(0, 0), Pos::new(3, 4)), 25);
    assert_eq!(Pos::dist_sq(Pos::new(2, 2), Pos::new(2, 2)), 0);
    assert_eq!(Pos::dist_sq(Pos::new(-1, -1), Pos::new(1, 1)), 8);
}

#[test]
fn grid_getters() {
    let g = Grid::new("Map", 10, 8);
    assert_eq!(g.width(), 10);
    assert_eq!(g.height(), 8);
    assert_eq!(g.name(), "Map");
    assert_eq!(g.min_width(), -5);
    assert_eq!(g.max_width(), 5);
    assert_eq!(g.min_height(), -4);
    assert_eq!(g.max_height(), 4);
    assert_eq!(g.get_xy(3, 2).pos, Pos::new(3, 2));
}

#[test]
fn tile_constructors_and_chars() {
    assert_eq!(Tile::empty(1, 2).char(), ' ');
    assert_eq!(Tile::border(0, 0).char(), ' ');
    assert_eq!(Tile::food(0, 0).char(), '@');
    assert_eq!(Tile::nest(Pos::new(4, 4)).char(), 'H');
    assert_eq!(TileType::Food.char(), '@');
    assert_eq!(TileType::Nest.char(), 'H');
    assert_eq!(Tile::food(7, 9).pos, Pos::new(7, 9));
    assert!(Tile::nest(Pos::new(1, 1)).pheromone.is_none());
}

#[test]
fn pheromone_constructors() {
    let e = Pheromone::expl(12);
    assert!(matches!(e.ph_type(), PhType::Exploration));
    assert_eq!(e.conc(), 12);
    let f = Pheromone::food(44);
    assert!(matches!(f.ph_type(), PhType::FoodTrail));
    assert_eq!(f.conc(), 44);
}
