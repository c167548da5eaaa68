use antsim::colony::{AntState, Colony};
use antsim::config::Config;
use antsim::map::{Grid, PhType, Pos, TileType};
use antsim::rng::Rand;
use antsim::simulation::Simulation;

#[test]
fn state_count_sums_to_total() {
    let mut colony = Colony::new();
    let mut rng = Rand::from_seed(1);
    colony.add_ant(1, Pos::new(1, 1), AntState::Seeker, &mut rng);
    colony.add_ant(1, Pos::new(1, 1), AntState::Seeker, &mut rng);
    colony.add_ant(1, Pos::new(2, 2), AntState::Returner, &mut rng);
    colony.add_ant(1, Pos::new(3, 3), AntState::Follower, &mut rng);
    colony.add_ant(1, Pos::new(4, 4), AntState::Noob, &mut rng);
    let c = colony.ants.state_count();
    assert_eq!(c.seeker, 2);
    assert_eq!(c.returner, 1);
    assert_eq!(c.follower, 1);
    assert_eq!(c.noob, 1);
    assert_eq!(c.seeker + c.returner + c.follower + c.noob, 5);
    assert_eq!(c.get(AntState::Seeker), 2);
    assert_eq!(c.get(AntState::Noob), 1);
}

#[test]
fn colony_ids_are_dense() {
    let mut colony = Colony::new();
    let mut rng = Rand::from_seed(2);
    for _ in 0..4 {
        colony.add_ant(1, Pos::new(0, 0), AntState::Seeker, &mut rng);
    }
    assert_eq!(colony.ants.id, vec![0, 1, 2, 3]);
    assert_eq!(colony.ants.steps, vec![0, 0, 0, 0]);
    assert_eq!(colony.food, 0);
}

#[test]
fn spawned_ants_sit_at_the_nest() {
    let mut sim = Simulation::new(Grid::new("Map", 10, 10));
    sim.spwan_ant();
    sim.spwan_ant();
    sim.spwan_ant();
    assert_eq!(sim.colony.ants.id, vec![0, 1, 2]);
    for p in &sim.colony.ants.position {
        assert_eq!(*p, Pos::new(5, 5));
    }
    for s in &sim.colony.ants.speed {
        assert_eq!(*s, 1);
    }
    // no pheromone anywhere, and the default minimum is positive: seekers
    for st in &sim.colony.ants.state {
        assert_eq!(*st, AntState::Seeker);
    }
}

#[test]
fn food_is_monotone_across_ticks() {
    let mut sim = Simulation::new(Grid::new("Map", 115, 46));
    for _ in 0..30 {
        sim.spwan_ant();
    }
    let mut prev = sim.colony.food;
    for _ in 0..60 {
        sim.step().unwrap();
        assert!(sim.colony.food >= prev);
        prev = sim.colony.food;
    }
}

#[test]
fn seeker_exceeding_max_steps_becomes_noob() {
    // One seeker at the nest of a 10-by-10 grid with a zero step budget:
    // after one tick it has become a noob with a fresh step counter.
    let mut cfg = Config::init();
    cfg.max_steps.set(0);
    let mut sim = Simulation::with_config(Grid::new("Map", 10, 10), cfg);
    sim.spwan_ant();
    assert_eq!(sim.colony.ants.state[0], AntState::Seeker);
    sim.step().unwrap();
    assert_eq!(sim.colony.ants.state[0], AntState::Noob);
    assert_eq!(sim.colony.ants.steps[0], 0);
    // the noob pass stepped it straight onto the nest tile
    assert_eq!(sim.colony.ants.position[0], Pos::new(5, 5));
}

#[test]
fn returner_steps_toward_nest_and_drops_trail() {
    // A returner with no pheromone in its path moves one axis step toward
    // the nest and leaves the configured food-trail amount on its new tile.
    let mut cfg = Config::init();
    cfg.evaporation_rate.set(0);
    let mut sim = Simulation::with_config(Grid::new("Map", 10, 10), cfg);
    let mut rng = Rand::from_seed(3);
    sim.colony.add_ant(1, Pos::new(3, 3), AntState::Returner, &mut rng);
    sim.step().unwrap();
    let p = sim.colony.ants.position[0];
    assert!(p == Pos::new(4, 3) || p == Pos::new(3, 4));
    let ph = sim.map.get(p).pheromone.expect("the returner drops pheromone where it lands");
    assert_eq!(ph.conc(), 79);
    assert!(matches!(ph.ph_type(), PhType::FoodTrail));
    assert_eq!(sim.colony.ants.state[0], AntState::Returner);
}

#[test]
fn recruitment_threshold_decides_the_state() {
    // Summed pheromone 9 against a minimum of 10 recruits a seeker;
    // raising the sum to 10 recruits a follower.
    let mut sim = Simulation::new(Grid::new("Map", 10, 10));
    let nest = sim.map.nest_pos();
    sim.map.drop_ph(PhType::FoodTrail, Pos::new(nest.x - 1, nest.y), 9);
    sim.spwan_ant();
    assert_eq!(sim.colony.ants.state[0], AntState::Seeker);
    sim.map.drop_ph(PhType::FoodTrail, Pos::new(nest.x, nest.y - 1), 1);
    sim.spwan_ant();
    assert_eq!(sim.colony.ants.state[1], AntState::Follower);
}

#[test]
fn follower_without_outward_pheromone_reverts_to_seeker() {
    // No pheromone-bearing outward neighbour and no adjacent food: the
    // follower becomes a seeker and does not move this tick.
    let mut sim = Simulation::new(Grid::new("Map", 10, 10));
    let mut rng = Rand::from_seed(4);
    sim.colony.add_ant(1, Pos::new(3, 3), AntState::Follower, &mut rng);
    sim.step().unwrap();
    assert_eq!(sim.colony.ants.state[0], AntState::Seeker);
    assert_eq!(sim.colony.ants.position[0], Pos::new(3, 3));
}

#[test]
fn follower_advances_onto_the_only_outward_trail() {
    // Exactly one pheromone-bearing outward neighbour exists, so the
    // uniform pick must land on it.
    let mut cfg = Config::init();
    cfg.evaporation_rate.set(0);
    let mut sim = Simulation::with_config(Grid::new("Map", 10, 10), cfg);
    sim.map.drop_ph(PhType::FoodTrail, Pos::new(3, 2), 50);
    let mut rng = Rand::from_seed(5);
    sim.colony.add_ant(1, Pos::new(3, 3), AntState::Follower, &mut rng);
    sim.step().unwrap();
    assert_eq!(sim.colony.ants.position[0], Pos::new(3, 2));
    assert_eq!(sim.colony.ants.state[0], AntState::Follower);
}

#[test]
fn seeker_next_to_food_becomes_returner() {
    let mut sim = Simulation::new(Grid::new("Map", 115, 46));
    let spot = find_spot_next_to_food(&sim.map);
    let mut rng = Rand::from_seed(6);
    sim.colony.add_ant(0, spot, AntState::Seeker, &mut rng);
    sim.step().unwrap();
    assert_eq!(sim.colony.ants.state[0], AntState::Returner);
    assert_eq!(sim.colony.ants.steps[0], 0);
}

#[test]
fn follower_next_to_food_becomes_returner() {
    let mut sim = Simulation::new(Grid::new("Map", 115, 46));
    let spot = find_spot_next_to_food(&sim.map);
    let mut rng = Rand::from_seed(7);
    sim.colony.add_ant(1, spot, AntState::Follower, &mut rng);
    sim.step().unwrap();
    assert_eq!(sim.colony.ants.state[0], AntState::Returner);
}

#[test]
fn returner_arriving_at_the_nest_delivers_food() {
    // The arrival depends on a coin flip, so try fresh simulations until
    // one lands next to the nest. The delivery increments the food count
    // and re-recruits the ant onto its own fresh trail (follower); the
    // follower pass of the same tick then finds no outward trail beyond it
    // and reverts it to seeker — the documented fixed-order effect.
    let mut delivered = false;
    for seed in 0..100u64 {
        let mut sim = Simulation::new(Grid::new("Map", 10, 10));
        sim.rng = Rand::from_seed(seed);
        let mut rng = Rand::from_seed(seed + 1000);
        sim.colony.add_ant(1, Pos::new(3, 4), AntState::Returner, &mut rng);
        sim.step().unwrap();
        if sim.colony.food == 1 {
            assert_eq!(sim.colony.ants.state[0], AntState::Seeker);
            assert_eq!(sim.colony.ants.position[0], Pos::new(4, 4));
            delivered = true;
            break;
        } else {
            assert_eq!(sim.colony.food, 0);
            assert_eq!(sim.colony.ants.state[0], AntState::Returner);
        }
    }
    assert!(delivered);
}

#[test]
fn reset_rebuilds_from_the_new_config() {
    let mut sim = Simulation::new(Grid::new("Map", 60, 30));
    for _ in 0..5 {
        sim.spwan_ant();
    }
    sim.step().unwrap();
    let mut cfg = Config::init();
    cfg.map_width.set(400);
    cfg.map_height.set(10);
    sim.reset(cfg);
    // out-of-range requests were clamped by the config itself
    assert_eq!(sim.map.width(), 350);
    assert_eq!(sim.map.height(), 25);
    assert_eq!(sim.colony.food, 0);
    assert_eq!(sim.colony.ants.id.len(), 0);
    assert!(!sim.done);
}

#[test]
fn history_records_every_tick() {
    let mut sim = Simulation::new(Grid::new("Map", 10, 10));
    sim.spwan_ant();
    sim.spwan_ant();
    for _ in 0..3 {
        sim.step().unwrap();
    }
    assert_eq!(sim.history.step, vec![0, 1, 2]);
    assert_eq!(sim.history.food_total.len(), 3);
    assert_eq!(sim.history.food_step.len(), 3);
    for c in &sim.history.ants {
        assert_eq!(c.seeker + c.returner + c.follower + c.noob, 2);
    }
    assert_eq!(*sim.history.food_total.last().unwrap(), sim.colony.food);
}

#[test]
fn pheromone_stays_at_or_above_floor_after_ticks() {
    let mut sim = Simulation::new(Grid::new("Map", 115, 46));
    for _ in 0..20 {
        sim.spwan_ant();
    }
    for _ in 0..25 {
        sim.step().unwrap();
        for y in 0..46 {
            for x in 0..115 {
                if let Some(ph) = sim.map.get_xy(x, y).pheromone {
                    assert!(ph.conc() >= 30);
                }
            }
        }
    }
}

fn find_spot_next_to_food(map: &Grid) -> Pos {
    for y in 0..map.height() {
        for x in 0..map.width() {
            let p = Pos::new(x, y);
            if map.get(p).tile_type != TileType::Food {
                for t in map.get_neightbours(p) {
                    if t.tile_type == TileType::Food {
                        return p;
                    }
                }
            }
        }
    }
    panic!("the default grid always holds food with a non-food edge");
}
