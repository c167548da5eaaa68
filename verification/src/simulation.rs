//! The simulation: per-tick behaviour systems, the pheromone system, and
//! the orchestrating tick with its history log.

use vstd::prelude::*;

use crate::colony::{count_state, AntCollection, AntState, Colony, StateCounts};
use crate::config::Config;
use crate::map::{
    dist_sq_spec, dropped_ph, evaporated_tile, ph_at_floor, row_major_before, touches, Grid,
    PhType, Pos, Tile, TileType,
};
use crate::rng::Rand;
use crate::AntDirection;

verus! {

broadcast use crate::config::ConfigVar::lemma_wf_range;

/// An append-only time series with one entry per tick: step index,
/// per-state ant counts, cumulative food, and the food gained that tick.
#[derive(Clone)]
pub struct SimData {
    pub step: Vec<i32>,
    pub ants: Vec<StateCounts>,
    pub food_total: Vec<i32>,
    pub food_step: Vec<i32>,
}

impl SimData {
    pub open spec fn spec_len(self) -> int {
        self.step@.len() as int
    }

    /// The four series always advance together.
    pub open spec fn wf(self) -> bool {
        &&& self.ants@.len() == self.spec_len()
        &&& self.food_total@.len() == self.spec_len()
        &&& self.food_step@.len() == self.spec_len()
        &&& forall|i: int| 0 <= i < self.spec_len() ==> #[trigger] self.food_total@[i] >= 0
    }

    pub fn new() -> (r: SimData)
        ensures
            r.wf(),
            r.spec_len() == 0,
    {
        SimData { step: Vec::new(), ants: Vec::new(), food_total: Vec::new(), food_step: Vec::new() }
    }

    /// Appends one tick's record.
    pub fn push(&mut self, step: i32, ants: StateCounts, food_total: i32, food_step: i32)
        requires
            old(self).wf(),
            food_total >= 0,
        ensures
            final(self).wf(),
            final(self).step@ == old(self).step@.push(step),
            final(self).ants@ == old(self).ants@.push(ants),
            final(self).food_total@ == old(self).food_total@.push(food_total),
            final(self).food_step@ == old(self).food_step@.push(food_step),
    {
        self.step.push(step);
        self.ants.push(ants);
        self.food_total.push(food_total);
        self.food_step.push(food_step);
    }
}

/// The error a tick may report. No current operation fails; the type keeps
/// room in the signature for future fallible operations.
#[derive(Debug, Clone, Copy, PartialEq, Eq, Structural)]
pub enum SimError {
    InvariantBroken,
}

/// The pheromone concentration on the nest neighbour at offset `(dx, dy)`,
/// or zero where that position leaves the grid or carries no pheromone.
pub open spec fn ph_term(g: Grid, dx: int, dy: int) -> int {
    let q = Pos { x: (g.nest().x + dx) as i32, y: (g.nest().y + dy) as i32 };
    if g.in_bounds(q) {
        match g.tile_at(q).pheromone {
            Some(p) => p.concentration as int,
            None => 0,
        }
    } else {
        0
    }
}

/// The summed pheromone concentration over all tiles adjacent to the nest.
pub open spec fn nest_ph_sum(g: Grid) -> int {
    ph_term(g, -1, -1) + ph_term(g, 0, -1) + ph_term(g, 1, -1) + ph_term(g, -1, 0) + ph_term(
        g,
        1,
        0,
    ) + ph_term(g, -1, 1) + ph_term(g, 0, 1) + ph_term(g, 1, 1)
}

/// The recruitment rule: an ant arriving at (or spawned into) the nest
/// becomes a Follower exactly when the summed pheromone around the nest
/// reaches the configured minimum, and a Seeker otherwise.
pub open spec fn recruit_spec(g: Grid, c: Config) -> AntState {
    if nest_ph_sum(g) >= c.min_ph_c.spec_val() {
        AntState::Follower
    } else {
        AntState::Seeker
    }
}

/// Reads one term of `nest_ph_sum` from the grid.
fn ph_term_at(g: &Grid, dx: i32, dy: i32) -> (r: i64)
    requires
        g.wf(),
        -1 <= dx <= 1,
        -1 <= dy <= 1,
    ensures
        r == ph_term(*g, dx as int, dy as int),
        0 <= r <= i32::MAX,
{
    let q = Pos::new(g.nest_pos().x + dx, g.nest_pos().y + dy);
    if 0 <= q.x && q.x < g.width() && 0 <= q.y && q.y < g.height() {
        match g.get(q).pheromone {
            Some(p) => p.concentration as i64,
            None => 0,
        }
    } else {
        0
    }
}

pub open spec fn sign_spec(v: int) -> int {
    if v > 0 {
        1
    } else if v < 0 {
        -1
    } else {
        0
    }
}

/// A single axis step toward the nest: the coin decides whether the x or
/// the y axis moves (by the sign of the difference, possibly zero).
pub open spec fn toward_nest_step(g: Grid, pos: Pos, coin: bool) -> Pos {
    if coin {
        Pos { x: (pos.x + sign_spec(g.nest().x - pos.x)) as i32, y: pos.y }
    } else {
        Pos { x: pos.x, y: (pos.y + sign_spec(g.nest().y - pos.y)) as i32 }
    }
}

/// A neighbour of `pos` holding food.
pub open spec fn food_neighbour(g: Grid, pos: Pos, q: Pos) -> bool {
    &&& g.in_bounds(q)
    &&& touches(pos, q)
    &&& g.tile_at(q).tile_type == TileType::Food
}

/// A neighbour a returner prefers: it already carries pheromone and is
/// strictly closer to the nest than the ant stands.
pub open spec fn returner_neighbour(g: Grid, pos: Pos, q: Pos) -> bool {
    &&& g.in_bounds(q)
    &&& touches(pos, q)
    &&& g.tile_at(q).pheromone is Some
    &&& dist_sq_spec(q, g.nest()) < dist_sq_spec(pos, g.nest())
}

/// A neighbour a noob steps onto: strictly closer to the nest, with no
/// pheromone condition.
pub open spec fn noob_neighbour(g: Grid, pos: Pos, q: Pos) -> bool {
    &&& g.in_bounds(q)
    &&& touches(pos, q)
    &&& dist_sq_spec(q, g.nest()) < dist_sq_spec(pos, g.nest())
}

/// A neighbour a follower may advance to: it carries pheromone and lies at
/// least as far from the nest as the ant stands.
pub open spec fn follower_neighbour(g: Grid, pos: Pos, q: Pos) -> bool {
    &&& g.in_bounds(q)
    &&& touches(pos, q)
    &&& g.tile_at(q).pheromone is Some
    &&& dist_sq_spec(g.nest(), q) >= dist_sq_spec(pos, g.nest())
}

/// The first food-holding neighbour in row-major order, when one exists.
pub open spec fn first_food_result(g: Grid, pos: Pos, r: Option<Pos>) -> bool {
    match r {
        Some(p) => food_neighbour(g, pos, p) && (forall|q: Pos|
            food_neighbour(g, pos, q) ==> !row_major_before(q, p)),
        None => forall|q: Pos| !food_neighbour(g, pos, q),
    }
}

/// Finds the first food-holding neighbour of `pos` in row-major order.
#[verifier::loop_isolation(false)]
pub fn find_food_neighbour(map: &Grid, pos: Pos) -> (r: Option<Pos>)
    requires
        map.wf(),
        map.in_bounds(pos),
    ensures
        first_food_result(*map, pos, r),
{
    let neighbours = map.get_neightbours(pos);
    let mut i: usize = 0;
    while i < neighbours.len()
        invariant
            0 <= i <= neighbours@.len(),
            forall|j: int|
                0 <= j < i ==> !food_neighbour(*map, pos, (#[trigger] neighbours@[j]).pos),
        decreases neighbours@.len() - i,
    {
        let t = neighbours[i];
        if matches!(t.tile_type, TileType::Food) {
            proof {
                assert forall|q: Pos| food_neighbour(*map, pos, q) implies !row_major_before(
                    q,
                    t.pos,
                ) by {
                    if row_major_before(q, t.pos) {
                        let k = choose|k: int|
                            0 <= k < neighbours@.len() && neighbours@[k].pos == q;
                        if k > i {
                            assert(row_major_before(neighbours@[i as int].pos, neighbours@[k].pos));
                        }
                        assert(k < i);
                        assert(!food_neighbour(*map, pos, neighbours@[k].pos));
                    }
                }
            }
            return Some(t.pos);
        }
        i = i + 1;
    }
    proof {
        assert forall|q: Pos| !food_neighbour(*map, pos, q) by {
            if food_neighbour(*map, pos, q) {
                let k = choose|k: int| 0 <= k < neighbours@.len() && neighbours@[k].pos == q;
                assert(!food_neighbour(*map, pos, neighbours@[k].pos));
            }
        }
    }
    None
}

/// Where a returner moves from `pos`: the first pheromone-bearing,
/// strictly nest-ward neighbour in row-major order, or — when none exists —
/// one coin-chosen axis step toward the nest.
#[verifier::loop_isolation(false)]
pub fn returner_target(map: &Grid, pos: Pos, coin: bool) -> (r: Pos)
    requires
        map.wf(),
        map.in_bounds(pos),
    ensures
        map.in_bounds(r),
        (exists|q: Pos| returner_neighbour(*map, pos, q)) ==> returner_neighbour(*map, pos, r)
            && (forall|q: Pos| returner_neighbour(*map, pos, q) ==> !row_major_before(q, r)),
        (!exists|q: Pos| returner_neighbour(*map, pos, q)) ==> r == toward_nest_step(
            *map,
            pos,
            coin,
        ),
{
    let neighbours = map.get_neightbours(pos);
    let nest = map.nest_pos();
    let own_d = Pos::dist_sq(pos, nest);
    let mut i: usize = 0;
    while i < neighbours.len()
        invariant
            0 <= i <= neighbours@.len(),
            forall|j: int|
                0 <= j < i ==> !returner_neighbour(*map, pos, (#[trigger] neighbours@[j]).pos),
        decreases neighbours@.len() - i,
    {
        let t = neighbours[i];
        if t.pheromone.is_some() && Pos::dist_sq(t.pos, nest) < own_d {
            proof {
                assert forall|q: Pos| returner_neighbour(*map, pos, q) implies !row_major_before(
                    q,
                    t.pos,
                ) by {
                    if row_major_before(q, t.pos) {
                        let k = choose|k: int|
                            0 <= k < neighbours@.len() && neighbours@[k].pos == q;
                        if k > i {
                            assert(row_major_before(neighbours@[i as int].pos, neighbours@[k].pos));
                        }
                        assert(k < i);
                        assert(!returner_neighbour(*map, pos, neighbours@[k].pos));
                    }
                }
            }
            return t.pos;
        }
        i = i + 1;
    }
    proof {
        assert forall|q: Pos| !returner_neighbour(*map, pos, q) by {
            if returner_neighbour(*map, pos, q) {
                let k = choose|k: int| 0 <= k < neighbours@.len() && neighbours@[k].pos == q;
                assert(!returner_neighbour(*map, pos, neighbours@[k].pos));
            }
        }
    }
    step_toward_nest(map, pos, coin)
}

/// Where a noob moves from `pos`: like a returner's move, without the
/// pheromone condition.
#[verifier::loop_isolation(false)]
pub fn noob_target(map: &Grid, pos: Pos, coin: bool) -> (r: Pos)
    requires
        map.wf(),
        map.in_bounds(pos),
    ensures
        map.in_bounds(r),
        (exists|q: Pos| noob_neighbour(*map, pos, q)) ==> noob_neighbour(*map, pos, r) && (
        forall|q: Pos| noob_neighbour(*map, pos, q) ==> !row_major_before(q, r)),
        (!exists|q: Pos| noob_neighbour(*map, pos, q)) ==> r == toward_nest_step(*map, pos, coin),
{
    let neighbours = map.get_neightbours(pos);
    let nest = map.nest_pos();
    let own_d = Pos::dist_sq(pos, nest);
    let mut i: usize = 0;
    while i < neighbours.len()
        invariant
            0 <= i <= neighbours@.len(),
            forall|j: int|
                0 <= j < i ==> !noob_neighbour(*map, pos, (#[trigger] neighbours@[j]).pos),
        decreases neighbours@.len() - i,
    {
        let t = neighbours[i];
        if Pos::dist_sq(t.pos, nest) < own_d {
            proof {
                assert forall|q: Pos| noob_neighbour(*map, pos, q) implies !row_major_before(
                    q,
                    t.pos,
                ) by {
                    if row_major_before(q, t.pos) {
                        let k = choose|k: int|
                            0 <= k < neighbours@.len() && neighbours@[k].pos == q;
                        if k > i {
                            assert(row_major_before(neighbours@[i as int].pos, neighbours@[k].pos));
                        }
                        assert(k < i);
                        assert(!noob_neighbour(*map, pos, neighbours@[k].pos));
                    }
                }
            }
            return t.pos;
        }
        i = i + 1;
    }
    proof {
        assert forall|q: Pos| !noob_neighbour(*map, pos, q) by {
            if noob_neighbour(*map, pos, q) {
                let k = choose|k: int| 0 <= k < neighbours@.len() && neighbours@[k].pos == q;
                assert(!noob_neighbour(*map, pos, neighbours@[k].pos));
            }
        }
    }
    step_toward_nest(map, pos, coin)
}

/// One coin-chosen axis step toward the nest.
fn step_toward_nest(map: &Grid, pos: Pos, coin: bool) -> (r: Pos)
    requires
        map.wf(),
        map.in_bounds(pos),
    ensures
        r == toward_nest_step(*map, pos, coin),
        map.in_bounds(r),
{
    let nest = map.nest_pos();
    if coin {
        let dx = if nest.x > pos.x {
            1
        } else if nest.x < pos.x {
            -1
        } else {
            0
        };
        Pos::new(pos.x + dx, pos.y)
    } else {
        let dy = if nest.y > pos.y {
            1
        } else if nest.y < pos.y {
            -1
        } else {
            0
        };
        Pos::new(pos.x, pos.y + dy)
    }
}

/// Picks uniformly among the pheromone-bearing, nest-outward neighbours of
/// `pos`, or reports that none exists.
#[verifier::loop_isolation(false)]
pub fn follower_pick(map: &Grid, pos: Pos, rng: &mut Rand) -> (r: Option<Pos>)
    requires
        map.wf(),
        map.in_bounds(pos),
    ensures
        (match r {
            Some(p) => follower_neighbour(*map, pos, p),
            None => forall|q: Pos| !follower_neighbour(*map, pos, q),
        }),
{
    let neighbours = map.get_neightbours(pos);
    let nest = map.nest_pos();
    let own_d = Pos::dist_sq(pos, nest);
    let mut candidates: Vec<Pos> = Vec::new();
    let mut i: usize = 0;
    while i < neighbours.len()
        invariant
            0 <= i <= neighbours@.len(),
            forall|j: int|
                0 <= j < candidates@.len() ==> follower_neighbour(
                    *map,
                    pos,
                    #[trigger] candidates@[j],
                ),
            forall|j: int|
                0 <= j < i ==> (follower_neighbour(*map, pos, (#[trigger] neighbours@[j]).pos)
                    ==> exists|k: int|
                    0 <= k < candidates@.len() && candidates@[k] == neighbours@[j].pos),
        decreases neighbours@.len() - i,
    {
        let t = neighbours[i];
        let ghost pre = candidates@;
        if t.pheromone.is_some() && Pos::dist_sq(nest, t.pos) >= own_d {
            candidates.push(t.pos);
        }
        proof {
            assert forall|j: int|
                0 <= j < i + 1 && follower_neighbour(
                    *map,
                    pos,
                    (#[trigger] neighbours@[j]).pos,
                ) implies exists|k: int|
                0 <= k < candidates@.len() && candidates@[k] == neighbours@[j].pos by {
                if j < i {
                    let k = choose|k: int| 0 <= k < pre.len() && pre[k] == neighbours@[j].pos;
                    assert(candidates@[k] == neighbours@[j].pos);
                } else {
                    assert(candidates@[candidates@.len() - 1] == neighbours@[i as int].pos);
                }
            }
        }
        i = i + 1;
    }
    if candidates.len() > 0 {
        let pick = rng.next_below(candidates.len());
        Some(candidates[pick])
    } else {
        proof {
            assert forall|q: Pos| !follower_neighbour(*map, pos, q) by {
                if follower_neighbour(*map, pos, q) {
                    let k = choose|k: int|
                        0 <= k < neighbours@.len() && neighbours@[k].pos == q;
                }
            }
        }
        None
    }
}

/// Where a seeker lands from `pos`: its facing vector scaled by its speed,
/// each axis clamped to the grid.
pub open spec fn seeker_step_spec(w: int, h: int, pos: Pos, dir: AntDirection, speed: i32) -> Pos {
    let d = dir.vec_spec();
    Pos {
        x: crate::map::clamped_coord(pos.x + d.0 * speed, w) as i32,
        y: crate::map::clamped_coord(pos.y + d.1 * speed, h) as i32,
    }
}

/// Advances a seeker one movement along its facing direction.
pub fn seeker_step(map: &Grid, pos: Pos, dir: AntDirection, speed: i32) -> (r: Pos)
    requires
        map.wf(),
    ensures
        r == seeker_step_spec(map.spec_width(), map.spec_height(), pos, dir, speed),
        map.in_bounds(r),
{
    let (dx, dy) = dir.vec();
    proof {
        assert(-1 <= dx <= 1 && -1 <= dy <= 1);
        assert(dx as i64 * speed as i64 == dx * speed && -0x80000000 <= dx as i64 * speed as i64
            <= 0x80000000) by (nonlinear_arith)
            requires
                -1 <= dx <= 1,
                -0x80000000 <= speed <= 0x7fffffff,
        ;
        assert(dy as i64 * speed as i64 == dy * speed && -0x80000000 <= dy as i64 * speed as i64
            <= 0x80000000) by (nonlinear_arith)
            requires
                -1 <= dy <= 1,
                -0x80000000 <= speed <= 0x7fffffff,
        ;
    }
    let x_new: i64 = pos.x as i64 + (dx as i64) * (speed as i64);
    let y_new: i64 = pos.y as i64 + (dy as i64) * (speed as i64);
    let w1: i64 = map.width() as i64 - 1;
    let h1: i64 = map.height() as i64 - 1;
    let xc: i64 = if x_new < 0 {
        0
    } else if x_new > w1 {
        w1
    } else {
        x_new
    };
    let yc: i64 = if y_new < 0 {
        0
    } else if y_new > h1 {
        h1
    } else {
        y_new
    };
    Pos::new(xc as i32, yc as i32)
}

/// Every ant stands on the grid.
pub open spec fn ants_in_bounds(c: AntCollection, g: Grid) -> bool {
    forall|i: int| 0 <= i < c.position@.len() ==> g.in_bounds(#[trigger] c.position@[i])
}

/// `b` is reachable from `a` within one tick's movement: the same tile or
/// an adjacent one.
pub open spec fn within_one_tile(a: Pos, b: Pos) -> bool {
    a == b || touches(a, b)
}

/// The frame of one behaviour system: the ant count, ids, speeds and
/// travel histories stay, and every ant that was not in the system's state
/// keeps all its attributes.
pub open spec fn system_frame(c0: AntCollection, c1: AntCollection, st: AntState) -> bool {
    &&& c1.spec_len() == c0.spec_len()
    &&& c1.id@ == c0.id@
    &&& c1.speed@ == c0.speed@
    &&& c1.travel@ == c0.travel@
    &&& forall|j: int|
        0 <= j < c0.spec_len() && c0.state@[j] != st ==> #[trigger] c1.state@[j] == c0.state@[j]
            && c1.position@[j] == c0.position@[j] && c1.steps@[j] == c0.steps@[j]
            && c1.direction@[j] == c0.direction@[j]
}

/// A grid change in which at most food tiles revert to empty; positions,
/// pheromone and everything else stay.
pub open spec fn grid_food_cleared_only(g0: Grid, g1: Grid) -> bool {
    &&& g1.spec_width() == g0.spec_width()
    &&& g1.spec_height() == g0.spec_height()
    &&& g1.nest() == g0.nest()
    &&& g1.spec_name() == g0.spec_name()
    &&& forall|p: Pos|
        g0.in_bounds(p) ==> ((#[trigger] g1.tile_at(p)).pos == g0.tile_at(p).pos && g1.tile_at(
            p,
        ).pheromone == g0.tile_at(p).pheromone && (g1.tile_at(p).tile_type == g0.tile_at(
            p,
        ).tile_type || (g0.tile_at(p).tile_type == TileType::Food && g1.tile_at(p).tile_type
            == TileType::Empty)))
}

/// A grid change in which tile kinds stay and pheromone is only deposited,
/// never removed.
pub open spec fn grid_ph_added_only(g0: Grid, g1: Grid) -> bool {
    &&& g1.spec_width() == g0.spec_width()
    &&& g1.spec_height() == g0.spec_height()
    &&& g1.nest() == g0.nest()
    &&& g1.spec_name() == g0.spec_name()
    &&& forall|p: Pos|
        g0.in_bounds(p) ==> ((#[trigger] g1.tile_at(p)).pos == g0.tile_at(p).pos && g1.tile_at(
            p,
        ).tile_type == g0.tile_at(p).tile_type && (g0.tile_at(p).pheromone is Some ==> g1.tile_at(
            p,
        ).pheromone is Some))
}

/// A step counter bumped by one, saturating at the integer maximum.
pub open spec fn sat_inc(v: i32) -> i32 {
    if v < i32::MAX {
        (v + 1) as i32
    } else {
        v
    }
}

/// A 90-degree turn: vertical facings turn horizontal and vice versa.
pub open spec fn turned_from(d0: AntDirection, d1: AntDirection) -> bool {
    match d0 {
        AntDirection::Up | AntDirection::Down => d1 == AntDirection::Right || d1
            == AntDirection::Left,
        AntDirection::Right | AntDirection::Left => d1 == AntDirection::Up || d1
            == AntDirection::Down,
    }
}

/// A food count bumped by one delivery, saturating at the integer maximum.
pub open spec fn sat_inc_int(f: int) -> int {
    if f < i32::MAX {
        f + 1
    } else {
        f
    }
}

/// The grid relation of one food consumption: the tile at `p` reverts to
/// empty and every other tile stays.
pub open spec fn grid_after_clear(g0: Grid, g1: Grid, p: Pos) -> bool {
    &&& g1.spec_width() == g0.spec_width()
    &&& g1.spec_height() == g0.spec_height()
    &&& g1.nest() == g0.nest()
    &&& g1.spec_name() == g0.spec_name()
    &&& g1.tile_at(p) == (Tile { tile_type: TileType::Empty, ..g0.tile_at(p) })
    &&& forall|q: Pos| g0.in_bounds(q) && q != p ==> #[trigger] g1.tile_at(q) == g0.tile_at(q)
}

/// The grid relation of one food-trail deposit at `p`: accumulation onto an
/// existing pheromone, or a fresh food-trail one, every other tile staying.
pub open spec fn grid_after_trail_drop(g0: Grid, g1: Grid, p: Pos, amount: int) -> bool {
    &&& g1.spec_width() == g0.spec_width()
    &&& g1.spec_height() == g0.spec_height()
    &&& g1.nest() == g0.nest()
    &&& g1.spec_name() == g0.spec_name()
    &&& g1.tile_at(p) == (Tile {
        pheromone: Some(dropped_ph(g0.tile_at(p).pheromone, PhType::FoodTrail, amount)),
        ..g0.tile_at(p)
    })
    &&& forall|q: Pos| g0.in_bounds(q) && q != p ==> #[trigger] g1.tile_at(q) == g0.tile_at(q)
}

/// One seeker's slice of the pass, against the grid `g_in` it inspected:
/// its counter grows by one and it may turn; with food beside it, it
/// becomes a returner, the first food neighbour in row-major order is
/// consumed, and it stands still; with its budget exhausted it becomes a
/// noob and stands still; otherwise it stays a seeker and advances along
/// its facing.
pub open spec fn seeker_ant_step(
    c0: AntCollection,
    c1: AntCollection,
    j: int,
    g_in: Grid,
    g_out: Grid,
    cfg: Config,
) -> bool {
    if c0.state@[j] == AntState::Seeker {
        let p0 = c0.position@[j];
        let s1 = sat_inc(c0.steps@[j]);
        let found = exists|q: Pos| food_neighbour(g_in, p0, q);
        &&& (c1.direction@[j] == c0.direction@[j] || turned_from(
            c0.direction@[j],
            c1.direction@[j],
        ))
        &&& (found ==> c1.state@[j] == AntState::Returner && c1.steps@[j] == 0 && c1.position@[j]
            == p0 && (exists|fq: Pos|
            #[trigger] first_food_result(g_in, p0, Some(fq)) && grid_after_clear(g_in, g_out, fq)))
        &&& (!found && s1 > cfg.max_steps.spec_val() ==> c1.state@[j] == AntState::Noob
            && c1.steps@[j] == 0 && c1.position@[j] == p0 && g_out == g_in)
        &&& (!found && s1 <= cfg.max_steps.spec_val() ==> c1.state@[j] == AntState::Seeker
            && c1.steps@[j] == s1 && c1.position@[j] == seeker_step_spec(
            g_in.spec_width(),
            g_in.spec_height(),
            p0,
            c1.direction@[j],
            c0.speed@[j],
        ) && g_out == g_in)
    } else {
        g_out == g_in
    }
}

/// The grids a seeker pass threads through: `gs[j]` is the grid ant `j`
/// inspected and `gs[j + 1]` what it left behind.
pub open spec fn seeker_trace(
    c0: AntCollection,
    c1: AntCollection,
    gs: Seq<Grid>,
    cfg: Config,
) -> bool {
    &&& gs.len() == c0.spec_len() + 1
    &&& forall|j: int|
        0 <= j < c0.spec_len() ==> seeker_ant_step(c0, c1, j, #[trigger] gs[j], gs[j + 1], cfg)
}

/// The whole seeker pass from `g0` to `g1`: some chain of grids connects
/// every ant's exact step.
pub open spec fn seeker_pass_rel(
    c0: AntCollection,
    c1: AntCollection,
    g0: Grid,
    g1: Grid,
    cfg: Config,
) -> bool {
    exists|gs: Seq<Grid>|
        #[trigger] seeker_trace(c0, c1, gs, cfg) && gs[0] == g0 && gs[c0.spec_len()] == g1
}

/// Decides the behavioural state of an ant at the nest, per the
/// recruitment rule.
pub fn decide_ant_state(map: &Grid, config: &Config) -> (r: AntState)
    requires
        map.wf(),
        config.wf(),
    ensures
        r == recruit_spec(*map, *config),
        r == AntState::Follower || r == AntState::Seeker,
{
    let sum: i64 = ph_term_at(map, -1, -1) + ph_term_at(map, 0, -1) + ph_term_at(map, 1, -1)
        + ph_term_at(map, -1, 0) + ph_term_at(map, 1, 0) + ph_term_at(map, -1, 1) + ph_term_at(
        map,
        0,
        1,
    ) + ph_term_at(map, 1, 1);
    if sum >= config.min_ph_c.val() as i64 {
        AntState::Follower
    } else {
        AntState::Seeker
    }
}

/// One tick of the seeker pass: every seeker counts a step, may turn,
/// consumes adjacent food (becoming a returner), gives up after too many
/// steps (becoming a noob), or otherwise advances along its facing
/// direction.
#[verifier::loop_isolation(false)]
#[verifier::rlimit(50)]
fn seeker_system(colony: &mut Colony, map: &mut Grid, config: &Config, rng: &mut Rand)
    requires
        old(colony).wf(),
        old(map).wf(),
        config.wf(),
        ants_in_bounds(old(colony).ants, *old(map)),
    ensures
        final(colony).wf(),
        final(map).wf(),
        ants_in_bounds(final(colony).ants, *final(map)),
        grid_food_cleared_only(*old(map), *final(map)),
        final(colony).food == old(colony).food,
        system_frame(old(colony).ants, final(colony).ants, AntState::Seeker),
        seeker_pass_rel(old(colony).ants, final(colony).ants, *old(map), *final(map), *config),
{
    let len = colony.ants.state.len();
    let ghost mut gs: Seq<Grid> = seq![*map];
    let mut i: usize = 0;
    while i < len
        invariant
            0 <= i <= len,
            len == old(colony).ants.spec_len(),
            colony.wf(),
            map.wf(),
            ants_in_bounds(colony.ants, *map),
            grid_food_cleared_only(*old(map), *map),
            colony.food == old(colony).food,
            colony.ants.spec_len() == len,
            colony.ants.id@ == old(colony).ants.id@,
            colony.ants.speed@ == old(colony).ants.speed@,
            colony.ants.travel@ == old(colony).ants.travel@,
            gs.len() == i + 1,
            gs[0] == *old(map),
            gs[i as int] == *map,
            forall|j: int|
                i <= j < len ==> #[trigger] colony.ants.state@[j] == old(colony).ants.state@[j],
            forall|j: int|
                i <= j < len ==> #[trigger] colony.ants.position@[j] == old(
                    colony,
                ).ants.position@[j],
            forall|j: int|
                i <= j < len ==> #[trigger] colony.ants.steps@[j] == old(colony).ants.steps@[j],
            forall|j: int|
                i <= j < len ==> #[trigger] colony.ants.direction@[j] == old(
                    colony,
                ).ants.direction@[j],
            forall|j: int|
                0 <= j < i && old(colony).ants.state@[j] != AntState::Seeker
                    ==> #[trigger] colony.ants.state@[j] == old(colony).ants.state@[j],
            forall|j: int|
                0 <= j < i && old(colony).ants.state@[j] != AntState::Seeker
                    ==> #[trigger] colony.ants.position@[j] == old(colony).ants.position@[j],
            forall|j: int|
                0 <= j < i && old(colony).ants.state@[j] != AntState::Seeker
                    ==> #[trigger] colony.ants.steps@[j] == old(colony).ants.steps@[j],
            forall|j: int|
                0 <= j < i && old(colony).ants.state@[j] != AntState::Seeker
                    ==> #[trigger] colony.ants.direction@[j] == old(colony).ants.direction@[j],
            forall|j: int|
                0 <= j < i ==> seeker_ant_step(
                    old(colony).ants,
                    colony.ants,
                    j,
                    #[trigger] gs[j],
                    gs[j + 1],
                    *config,
                ),
        decreases len - i,
    {
        let ghost g_head = *map;
        if matches!(colony.ants.state[i], AntState::Seeker) {
            let s0 = colony.ants.steps[i];
            let s1 = if s0 < i32::MAX {
                s0 + 1
            } else {
                s0
            };
            colony.ants.steps[i] = s1;
            if rng.next_below(5) == 0 {
                let d0 = colony.ants.direction[i];
                let d1 = d0.random_turn(rng);
                colony.ants.direction[i] = d1;
            }
            let pos = colony.ants.position[i];
            match find_food_neighbour(map, pos) {
                Some(fp) => {
                    colony.ants.state[i] = AntState::Returner;
                    map.clear(fp);
                    colony.ants.steps[i] = 0;
                    proof {
                        assert(first_food_result(g_head, pos, Some(fp)) && grid_after_clear(
                            g_head,
                            *map,
                            fp,
                        ));
                    }
                },
                None => {
                    if colony.ants.steps[i] > config.max_steps.val() {
                        colony.ants.state[i] = AntState::Noob;
                        colony.ants.steps[i] = 0;
                    } else {
                        let d = colony.ants.direction[i];
                        let sp = colony.ants.speed[i];
                        let new_pos = seeker_step(map, pos, d, sp);
                        colony.ants.position[i] = new_pos;
                    }
                },
            }
        }
        proof {
            gs = gs.push(*map);
            assert(seeker_ant_step(
                old(colony).ants,
                colony.ants,
                i as int,
                gs[i as int],
                gs[i + 1],
                *config,
            ));
        }
        i = i + 1;
    }
    proof {
        assert(seeker_trace(old(colony).ants, colony.ants, gs, *config));
        assert(seeker_pass_rel(old(colony).ants, colony.ants, *old(map), *map, *config));
    }
}

/// One returner's slice of the pass, against the grid `g_in` it inspected:
/// it steps onto the first pheromone-bearing, strictly nest-ward neighbour
/// in row-major order — or, with no such neighbour, one coin-chosen axis
/// step toward the nest — then unconditionally drops the configured
/// food-trail amount where it lands. Arriving next to the nest it delivers
/// exactly one food and is re-recruited against the grid holding its fresh
/// trail; otherwise it stays a returner and delivers nothing.
pub open spec fn returner_ant_step(
    c0: AntCollection,
    c1: AntCollection,
    j: int,
    g_in: Grid,
    g_out: Grid,
    f_in: int,
    f_out: int,
    cfg: Config,
) -> bool {
    if c0.state@[j] == AntState::Returner {
        let p0 = c0.position@[j];
        let p1 = c1.position@[j];
        let has_trail = exists|q: Pos| returner_neighbour(g_in, p0, q);
        &&& (has_trail ==> returner_neighbour(g_in, p0, p1) && (forall|q: Pos|
            returner_neighbour(g_in, p0, q) ==> !row_major_before(q, p1)))
        &&& (!has_trail ==> p1 == toward_nest_step(g_in, p0, true) || p1 == toward_nest_step(
            g_in,
            p0,
            false,
        ))
        &&& grid_after_trail_drop(g_in, g_out, p1, cfg.ph_drop.spec_val() as int)
        &&& (g_out.nest_adjacent(p1) ==> c1.state@[j] == recruit_spec(g_out, cfg) && f_out
            == sat_inc_int(f_in))
        &&& (!g_out.nest_adjacent(p1) ==> c1.state@[j] == AntState::Returner && f_out == f_in)
    } else {
        g_out == g_in && f_out == f_in
    }
}

/// The grids and food counts a returner pass threads through.
pub open spec fn returner_trace(
    c0: AntCollection,
    c1: AntCollection,
    gs: Seq<Grid>,
    fs: Seq<int>,
    cfg: Config,
) -> bool {
    &&& gs.len() == c0.spec_len() + 1
    &&& fs.len() == c0.spec_len() + 1
    &&& forall|j: int|
        0 <= j < c0.spec_len() ==> returner_ant_step(
            c0,
            c1,
            j,
            #[trigger] gs[j],
            gs[j + 1],
            fs[j],
            fs[j + 1],
            cfg,
        )
}

/// The whole returner pass from `g0` to `g1` and food `f0` to `f1`.
pub open spec fn returner_pass_rel(
    c0: AntCollection,
    c1: AntCollection,
    g0: Grid,
    g1: Grid,
    f0: int,
    f1: int,
    cfg: Config,
) -> bool {
    exists|gs: Seq<Grid>, fs: Seq<int>|
        #[trigger] returner_trace(c0, c1, gs, fs, cfg) && gs[0] == g0 && gs[c0.spec_len()] == g1
            && fs[0] == f0 && fs[c0.spec_len()] == f1
}

/// One tick of the returner pass: every returner steps toward the nest
/// (preferring a pheromone trail), drops food-trail pheromone where it
/// lands, and on reaching a nest-adjacent tile delivers one food and is
/// re-recruited.
#[verifier::loop_isolation(false)]
#[verifier::rlimit(50)]
fn returner_system(colony: &mut Colony, map: &mut Grid, config: &Config, rng: &mut Rand)
    requires
        old(colony).wf(),
        old(map).wf(),
        config.wf(),
        ants_in_bounds(old(colony).ants, *old(map)),
    ensures
        final(colony).wf(),
        final(map).wf(),
        ants_in_bounds(final(colony).ants, *final(map)),
        grid_ph_added_only(*old(map), *final(map)),
        final(colony).food >= old(colony).food,
        system_frame(old(colony).ants, final(colony).ants, AntState::Returner),
        final(colony).ants.steps@ == old(colony).ants.steps@,
        final(colony).ants.direction@ == old(colony).ants.direction@,
        returner_pass_rel(
            old(colony).ants,
            final(colony).ants,
            *old(map),
            *final(map),
            old(colony).food as int,
            final(colony).food as int,
            *config,
        ),
{
    let len = colony.ants.state.len();
    let ghost mut gs: Seq<Grid> = seq![*map];
    let ghost mut fs: Seq<int> = seq![colony.food as int];
    let mut i: usize = 0;
    while i < len
        invariant
            0 <= i <= len,
            len == old(colony).ants.spec_len(),
            colony.wf(),
            map.wf(),
            ants_in_bounds(colony.ants, *map),
            grid_ph_added_only(*old(map), *map),
            colony.food >= old(colony).food,
            colony.ants.spec_len() == len,
            colony.ants.id@ == old(colony).ants.id@,
            colony.ants.speed@ == old(colony).ants.speed@,
            colony.ants.travel@ == old(colony).ants.travel@,
            colony.ants.steps@ == old(colony).ants.steps@,
            colony.ants.direction@ == old(colony).ants.direction@,
            gs.len() == i + 1,
            gs[0] == *old(map),
            gs[i as int] == *map,
            fs.len() == i + 1,
            fs[0] == old(colony).food as int,
            fs[i as int] == colony.food as int,
            forall|j: int|
                i <= j < len ==> #[trigger] colony.ants.state@[j] == old(colony).ants.state@[j],
            forall|j: int|
                i <= j < len ==> #[trigger] colony.ants.position@[j] == old(
                    colony,
                ).ants.position@[j],
            forall|j: int|
                0 <= j < i && old(colony).ants.state@[j] != AntState::Returner
                    ==> #[trigger] colony.ants.state@[j] == old(colony).ants.state@[j],
            forall|j: int|
                0 <= j < i && old(colony).ants.state@[j] != AntState::Returner
                    ==> #[trigger] colony.ants.position@[j] == old(colony).ants.position@[j],
            forall|j: int|
                0 <= j < i ==> returner_ant_step(
                    old(colony).ants,
                    colony.ants,
                    j,
                    #[trigger] gs[j],
                    gs[j + 1],
                    fs[j],
                    fs[j + 1],
                    *config,
                ),
        decreases len - i,
    {
        let ghost g_head = *map;
        if matches!(colony.ants.state[i], AntState::Returner) {
            let pos = colony.ants.position[i];
            let coin = rng.coin();
            let new_pos = returner_target(map, pos, coin);
            colony.ants.position[i] = new_pos;
            map.drop_ph(PhType::FoodTrail, new_pos, config.ph_drop.val());
            proof {
                assert(grid_after_trail_drop(g_head, *map, new_pos, config.ph_drop.spec_val() as int));
            }
            if map.reached_nest(new_pos) {
                let st = decide_ant_state(map, config);
                colony.ants.state[i] = st;
                let f = colony.food;
                colony.food = if f < i32::MAX {
                    f + 1
                } else {
                    f
                };
            }
        }
        proof {
            gs = gs.push(*map);
            fs = fs.push(colony.food as int);
            assert(returner_ant_step(
                old(colony).ants,
                colony.ants,
                i as int,
                gs[i as int],
                gs[i + 1],
                fs[i as int],
                fs[i + 1],
                *config,
            ));
        }
        i = i + 1;
    }
    proof {
        assert(returner_trace(old(colony).ants, colony.ants, gs, fs, *config));
        assert(returner_pass_rel(
            old(colony).ants,
            colony.ants,
            *old(map),
            *map,
            old(colony).food as int,
            colony.food as int,
            *config,
        ));
    }
}

/// What one tick does to an ant that began it as a noob: it steps onto the
/// first strictly nest-ward neighbour in row-major order — or, when none
/// exists, one axis step toward the nest on a coin-chosen axis — and, when
/// its new tile touches the nest, it is re-recruited (without delivering
/// food).
pub open spec fn noob_outcome(c0: AntCollection, c1: AntCollection, j: int, g: Grid, cfg: Config) -> bool {
    let p0 = c0.position@[j];
    let p1 = c1.position@[j];
    &&& within_one_tile(p0, p1)
    &&& g.in_bounds(p1)
    &&& ((exists|q: Pos| noob_neighbour(g, p0, q)) ==> noob_neighbour(g, p0, p1) && (forall|q: Pos|
        noob_neighbour(g, p0, q) ==> !row_major_before(q, p1)))
    &&& (!(exists|q: Pos| noob_neighbour(g, p0, q)) ==> p1 == toward_nest_step(g, p0, true) || p1
        == toward_nest_step(g, p0, false))
    &&& c1.state@[j] == (if g.nest_adjacent(p1) {
        recruit_spec(g, cfg)
    } else {
        AntState::Noob
    })
}

/// One tick of the noob pass: every noob steps toward the nest exactly as
/// a returner does but drops no pheromone, and on reaching a nest-adjacent
/// tile is re-recruited.
#[verifier::loop_isolation(false)]
#[verifier::rlimit(50)]
fn noob_system(colony: &mut Colony, map: &Grid, config: &Config, rng: &mut Rand)
    requires
        old(colony).wf(),
        map.wf(),
        config.wf(),
        ants_in_bounds(old(colony).ants, *map),
    ensures
        final(colony).wf(),
        ants_in_bounds(final(colony).ants, *map),
        final(colony).food == old(colony).food,
        system_frame(old(colony).ants, final(colony).ants, AntState::Noob),
        final(colony).ants.steps@ == old(colony).ants.steps@,
        final(colony).ants.direction@ == old(colony).ants.direction@,
        forall|j: int|
            0 <= j < old(colony).ants.spec_len() && old(colony).ants.state@[j]
                == AntState::Noob ==> noob_outcome(
                old(colony).ants,
                final(colony).ants,
                j,
                *map,
                *config,
            ),
{
    let len = colony.ants.state.len();
    let mut i: usize = 0;
    while i < len
        invariant
            0 <= i <= len,
            len == old(colony).ants.spec_len(),
            colony.wf(),
            ants_in_bounds(colony.ants, *map),
            colony.food == old(colony).food,
            colony.ants.spec_len() == len,
            colony.ants.id@ == old(colony).ants.id@,
            colony.ants.speed@ == old(colony).ants.speed@,
            colony.ants.travel@ == old(colony).ants.travel@,
            colony.ants.steps@ == old(colony).ants.steps@,
            colony.ants.direction@ == old(colony).ants.direction@,
            forall|j: int|
                i <= j < len ==> #[trigger] colony.ants.state@[j] == old(colony).ants.state@[j],
            forall|j: int|
                i <= j < len ==> #[trigger] colony.ants.position@[j] == old(
                    colony,
                ).ants.position@[j],
            forall|j: int|
                0 <= j < i && old(colony).ants.state@[j] != AntState::Noob
                    ==> #[trigger] colony.ants.state@[j] == old(colony).ants.state@[j],
            forall|j: int|
                0 <= j < i && old(colony).ants.state@[j] != AntState::Noob
                    ==> #[trigger] colony.ants.position@[j] == old(colony).ants.position@[j],
            forall|j: int|
                0 <= j < i && old(colony).ants.state@[j] == AntState::Noob ==> noob_outcome(
                    old(colony).ants,
                    colony.ants,
                    j,
                    *map,
                    *config,
                ),
        decreases len - i,
    {
        if matches!(colony.ants.state[i], AntState::Noob) {
            let pos = colony.ants.position[i];
            let coin = rng.coin();
            let new_pos = noob_target(map, pos, coin);
            colony.ants.position[i] = new_pos;
            if map.reached_nest(new_pos) {
                let st = decide_ant_state(map, config);
                colony.ants.state[i] = st;
            }
        }
        i = i + 1;
    }
}

/// One follower's slice of the pass, against the grid `g_in` it inspected:
/// with an outward trail neighbour available it advances onto one (chosen
/// at random); with none it reverts to seeker and stands still.
/// Independently, with food beside it, it becomes a returner and the first
/// food neighbour in row-major order is consumed.
pub open spec fn follower_ant_step(
    c0: AntCollection,
    c1: AntCollection,
    j: int,
    g_in: Grid,
    g_out: Grid,
) -> bool {
    if c0.state@[j] == AntState::Follower {
        let p0 = c0.position@[j];
        let p1 = c1.position@[j];
        let has_out = exists|q: Pos| follower_neighbour(g_in, p0, q);
        let has_food = exists|q: Pos| food_neighbour(g_in, p0, q);
        &&& (has_out ==> follower_neighbour(g_in, p0, p1))
        &&& (!has_out ==> p1 == p0)
        &&& (has_food ==> c1.state@[j] == AntState::Returner && (exists|fq: Pos|
            #[trigger] first_food_result(g_in, p0, Some(fq)) && grid_after_clear(g_in, g_out, fq)))
        &&& (!has_food ==> g_out == g_in && c1.state@[j] == (if has_out {
            AntState::Follower
        } else {
            AntState::Seeker
        }))
    } else {
        g_out == g_in
    }
}

/// The grids a follower pass threads through.
pub open spec fn follower_trace(c0: AntCollection, c1: AntCollection, gs: Seq<Grid>) -> bool {
    &&& gs.len() == c0.spec_len() + 1
    &&& forall|j: int|
        0 <= j < c0.spec_len() ==> follower_ant_step(c0, c1, j, #[trigger] gs[j], gs[j + 1])
}

/// The whole follower pass from `g0` to `g1`.
pub open spec fn follower_pass_rel(c0: AntCollection, c1: AntCollection, g0: Grid, g1: Grid) -> bool {
    exists|gs: Seq<Grid>|
        #[trigger] follower_trace(c0, c1, gs) && gs[0] == g0 && gs[c0.spec_len()] == g1
}

/// One tick of the follower pass: every follower advances to a uniformly
/// chosen pheromone-bearing neighbour at least as far from the nest,
/// reverts to seeker when none exists, and — independently — consumes
/// adjacent food and becomes a returner.
#[verifier::loop_isolation(false)]
#[verifier::rlimit(50)]
fn follower_system(colony: &mut Colony, map: &mut Grid, config: &Config, rng: &mut Rand)
    requires
        old(colony).wf(),
        old(map).wf(),
        config.wf(),
        ants_in_bounds(old(colony).ants, *old(map)),
    ensures
        final(colony).wf(),
        final(map).wf(),
        ants_in_bounds(final(colony).ants, *final(map)),
        grid_food_cleared_only(*old(map), *final(map)),
        final(colony).food == old(colony).food,
        system_frame(old(colony).ants, final(colony).ants, AntState::Follower),
        final(colony).ants.steps@ == old(colony).ants.steps@,
        final(colony).ants.direction@ == old(colony).ants.direction@,
        follower_pass_rel(old(colony).ants, final(colony).ants, *old(map), *final(map)),
{
    let len = colony.ants.state.len();
    let ghost mut gs: Seq<Grid> = seq![*map];
    let mut i: usize = 0;
    while i < len
        invariant
            0 <= i <= len,
            len == old(colony).ants.spec_len(),
            colony.wf(),
            map.wf(),
            ants_in_bounds(colony.ants, *map),
            grid_food_cleared_only(*old(map), *map),
            colony.food == old(colony).food,
            colony.ants.spec_len() == len,
            colony.ants.id@ == old(colony).ants.id@,
            colony.ants.speed@ == old(colony).ants.speed@,
            colony.ants.travel@ == old(colony).ants.travel@,
            colony.ants.steps@ == old(colony).ants.steps@,
            colony.ants.direction@ == old(colony).ants.direction@,
            gs.len() == i + 1,
            gs[0] == *old(map),
            gs[i as int] == *map,
            forall|j: int|
                i <= j < len ==> #[trigger] colony.ants.state@[j] == old(colony).ants.state@[j],
            forall|j: int|
                i <= j < len ==> #[trigger] colony.ants.position@[j] == old(
                    colony,
                ).ants.position@[j],
            forall|j: int|
                0 <= j < i && old(colony).ants.state@[j] != AntState::Follower
                    ==> #[trigger] colony.ants.state@[j] == old(colony).ants.state@[j],
            forall|j: int|
                0 <= j < i && old(colony).ants.state@[j] != AntState::Follower
                    ==> #[trigger] colony.ants.position@[j] == old(colony).ants.position@[j],
            forall|j: int|
                0 <= j < i ==> follower_ant_step(
                    old(colony).ants,
                    colony.ants,
                    j,
                    #[trigger] gs[j],
                    gs[j + 1],
                ),
        decreases len - i,
    {
        let ghost g_head = *map;
        if matches!(colony.ants.state[i], AntState::Follower) {
            let pos = colony.ants.position[i];
            match follower_pick(map, pos, rng) {
                Some(t) => {
                    colony.ants.position[i] = t;
                },
                None => {
                    colony.ants.state[i] = AntState::Seeker;
                },
            }
            match find_food_neighbour(map, pos) {
                Some(fp) => {
                    colony.ants.state[i] = AntState::Returner;
                    map.clear(fp);
                    proof {
                        assert(first_food_result(g_head, pos, Some(fp)) && grid_after_clear(
                            g_head,
                            *map,
                            fp,
                        ));
                    }
                },
                None => {},
            }
        }
        proof {
            gs = gs.push(*map);
            assert(follower_ant_step(
                old(colony).ants,
                colony.ants,
                i as int,
                gs[i as int],
                gs[i + 1],
            ));
        }
        i = i + 1;
    }
    proof {
        assert(follower_trace(old(colony).ants, colony.ants, gs));
        assert(follower_pass_rel(old(colony).ants, colony.ants, *old(map), *map));
    }
}

/// The per-state counts of a state array, as one history record.
pub open spec fn counts_of(s: Seq<AntState>) -> StateCounts {
    StateCounts {
        seeker: count_state(s, AntState::Seeker) as i32,
        returner: count_state(s, AntState::Returner) as i32,
        follower: count_state(s, AntState::Follower) as i32,
        noob: count_state(s, AntState::Noob) as i32,
    }
}

/// The intermediate states one tick passes through: the colony after each
/// behaviour pass, and the grid after each pass that mutates it.
pub struct TickTrace {
    pub after_seekers: AntCollection,
    pub grid_after_seekers: Grid,
    pub after_returners: AntCollection,
    pub grid_after_returners: Grid,
    pub after_noobs: AntCollection,
    pub grid_after_followers: Grid,
}

/// One whole tick, from colony `c0`, grid `g0` and food `f0` to colony
/// `c_end`, grid `g_end` and food `f_end`: the seeker, returner, noob and
/// follower passes run in that fixed order through the trace's
/// intermediate states, each pinned by its per-ant step relation, and the
/// pheromone system then evaporates every tile once.
pub open spec fn tick_rel(
    c0: AntCollection,
    g0: Grid,
    f0: int,
    t: TickTrace,
    c_end: AntCollection,
    g_end: Grid,
    f_end: int,
    cfg: Config,
) -> bool {
    &&& system_frame(c0, t.after_seekers, AntState::Seeker)
    &&& grid_food_cleared_only(g0, t.grid_after_seekers)
    &&& seeker_pass_rel(c0, t.after_seekers, g0, t.grid_after_seekers, cfg)
    &&& system_frame(t.after_seekers, t.after_returners, AntState::Returner)
    &&& t.after_returners.steps@ == t.after_seekers.steps@
    &&& t.after_returners.direction@ == t.after_seekers.direction@
    &&& grid_ph_added_only(t.grid_after_seekers, t.grid_after_returners)
    &&& returner_pass_rel(
        t.after_seekers,
        t.after_returners,
        t.grid_after_seekers,
        t.grid_after_returners,
        f0,
        f_end,
        cfg,
    )
    &&& system_frame(t.after_returners, t.after_noobs, AntState::Noob)
    &&& t.after_noobs.steps@ == t.after_returners.steps@
    &&& t.after_noobs.direction@ == t.after_returners.direction@
    &&& (forall|j: int|
        0 <= j < t.after_returners.spec_len() && t.after_returners.state@[j]
            == AntState::Noob ==> noob_outcome(
            t.after_returners,
            t.after_noobs,
            j,
            t.grid_after_returners,
            cfg,
        ))
    &&& system_frame(t.after_noobs, c_end, AntState::Follower)
    &&& c_end.steps@ == t.after_noobs.steps@
    &&& c_end.direction@ == t.after_noobs.direction@
    &&& grid_food_cleared_only(t.grid_after_returners, t.grid_after_followers)
    &&& follower_pass_rel(t.after_noobs, c_end, t.grid_after_returners, t.grid_after_followers)
    &&& g_end.spec_width() == t.grid_after_followers.spec_width()
    &&& g_end.spec_height() == t.grid_after_followers.spec_height()
    &&& g_end.nest() == t.grid_after_followers.nest()
    &&& (forall|p: Pos|
        t.grid_after_followers.in_bounds(p) ==> #[trigger] g_end.tile_at(p) == evaporated_tile(
            t.grid_after_followers.tile_at(p),
            cfg.evaporation_rate.spec_val() as int,
        ))
}

/// The simulation: one grid, one colony, the tick history, and the
/// parameter snapshot the ticks run under.
pub struct Simulation {
    pub map: Grid,
    pub done: bool,
    pub paused: bool,
    pub colony: Colony,
    pub history: SimData,
    pub rng: Rand,
    pub config: Config,
}

impl Simulation {
    /// The simulation invariant: grid, colony, parameters and history are
    /// each well formed, and every ant stands on the grid.
    pub open spec fn wf(self) -> bool {
        &&& self.map.wf()
        &&& self.colony.wf()
        &&& self.config.wf()
        &&& self.history.wf()
        &&& ants_in_bounds(self.colony.ants, self.map)
    }

    /// Builds a simulation around an existing grid, with default
    /// parameters, an empty colony and an empty history.
    pub fn new(map: Grid) -> (r: Simulation)
        requires
            map.wf(),
        ensures
            r.wf(),
            r.map == map,
            r.done == false,
            r.paused == false,
            r.colony.food == 0,
            r.colony.ants.spec_len() == 0,
            r.history.spec_len() == 0,
            r.config.is_default(),
    {
        Simulation {
            map,
            done: false,
            paused: false,
            colony: Colony::new(),
            history: SimData::new(),
            rng: Rand::new(),
            config: Config::init(),
        }
    }

    /// Builds a simulation around an existing grid with a given parameter
    /// snapshot.
    pub fn with_config(map: Grid, config: Config) -> (r: Simulation)
        requires
            map.wf(),
            config.wf(),
        ensures
            r.wf(),
            r.map == map,
            r.done == false,
            r.paused == false,
            r.colony.food == 0,
            r.colony.ants.spec_len() == 0,
            r.history.spec_len() == 0,
            r.config == config,
    {
        Simulation {
            map,
            done: false,
            paused: false,
            colony: Colony::new(),
            history: SimData::new(),
            rng: Rand::new(),
            config,
        }
    }

    /// Discards the colony, rebuilds the grid at the new configuration's
    /// width and height — freshly constructed, so pheromone-free and with
    /// food exactly in newly placed patches — and installs the new
    /// parameters. The history is kept, as reporting spans resets.
    pub fn reset(&mut self, config: Config)
        requires
            old(self).wf(),
            config.wf(),
        ensures
            final(self).wf(),
            final(self).config == config,
            final(self).map.spec_width() == config.map_width.spec_val() as int,
            final(self).map.spec_height() == config.map_height.spec_val() as int,
            final(self).colony.food == 0,
            final(self).colony.ants.spec_len() == 0,
            final(self).done == false,
            final(self).paused == old(self).paused,
            final(self).history == old(self).history,
            forall|p: Pos|
                final(self).map.in_bounds(p) ==> (#[trigger] final(self).map.tile_at(
                    p,
                )).pheromone is None,
            forall|p: Pos|
                final(self).map.in_bounds(p) ==> (#[trigger] final(self).map.tile_at(
                    p,
                )).tile_type != TileType::Border,
            exists|rects: Seq<(i32, i32)>|
                #[trigger] crate::map::placement_ok(
                    rects,
                    config.map_width.spec_val() as int,
                    config.map_height.spec_val() as int,
                    final(self).map.nest(),
                ) && crate::map::food_exactly_in(final(self).map, rects)
                    && crate::map::placement_saturated(
                    rects,
                    config.map_width.spec_val() as int,
                    config.map_height.spec_val() as int,
                    final(self).map.nest(),
                ),
    {
        self.colony = Colony::new();
        let w = config.map_width.val();
        let h = config.map_height.val();
        self.map = Grid::with_rng("Map", w, h, &mut self.rng);
        self.config = config;
        self.done = false;
    }

    /// Inserts one ant at the nest, with speed one and a state chosen by
    /// the recruitment rule.
    pub fn spwan_ant(&mut self)
        requires
            old(self).wf(),
            old(self).colony.ants.spec_len() < i32::MAX,
        ensures
            final(self).wf(),
            final(self).map == old(self).map,
            final(self).history == old(self).history,
            final(self).done == old(self).done,
            final(self).paused == old(self).paused,
            final(self).config == old(self).config,
            final(self).colony.food == old(self).colony.food,
            final(self).colony.ants.spec_len() == old(self).colony.ants.spec_len() + 1,
            final(self).colony.ants.position@ == old(self).colony.ants.position@.push(
                old(self).map.nest(),
            ),
            final(self).colony.ants.state@ == old(self).colony.ants.state@.push(
                recruit_spec(old(self).map, old(self).config),
            ),
            final(self).colony.ants.speed@ == old(self).colony.ants.speed@.push(1i32),
            final(self).colony.ants.steps@ == old(self).colony.ants.steps@.push(0i32),
            final(self).colony.ants.travel@.len() == old(self).colony.ants.travel@.len() + 1,
            final(self).colony.ants.travel@[old(self).colony.ants.spec_len()]@
                == Seq::<Pos>::empty(),
            forall|j: int|
                0 <= j < old(self).colony.ants.spec_len()
                    ==> #[trigger] final(self).colony.ants.travel@[j] == old(
                    self,
                ).colony.ants.travel@[j],
    {
        let ant_state = decide_ant_state(&self.map, &self.config);
        let nest = self.map.nest_pos();
        self.colony.add_ant(1, nest, ant_state, &mut self.rng);
        proof {
            assert forall|i: int|
                0 <= i < self.colony.ants.position@.len() implies self.map.in_bounds(
                #[trigger] self.colony.ants.position@[i],
            ) by {
                if i < old(self).colony.ants.position@.len() {
                    assert(old(self).map.in_bounds(old(self).colony.ants.position@[i]));
                }
            }
        }
    }


    /// Advances the simulation one tick: the four behaviour systems run in
    /// their fixed order (seeker, returner, noob, follower), the pheromone
    /// system evaporates every tile, and one history entry is appended.
    /// The colony's food never decreases, and afterwards every pheromone
    /// on the grid sits at or above the floor.
    pub fn step(&mut self) -> (r: Result<(), SimError>)
        requires
            old(self).wf(),
            old(self).history.spec_len() < i32::MAX,
        ensures
            r is Ok,
            final(self).wf(),
            final(self).done == old(self).done,
            final(self).paused == old(self).paused,
            final(self).config == old(self).config,
            final(self).colony.food >= old(self).colony.food,
            final(self).colony.ants.spec_len() == old(self).colony.ants.spec_len(),
            final(self).colony.ants.id@ == old(self).colony.ants.id@,
            final(self).colony.ants.speed@ == old(self).colony.ants.speed@,
            final(self).colony.ants.travel@ == old(self).colony.ants.travel@,
            final(self).map.spec_width() == old(self).map.spec_width(),
            final(self).map.spec_height() == old(self).map.spec_height(),
            final(self).map.nest() == old(self).map.nest(),
            forall|p: Pos|
                final(self).map.in_bounds(p) ==> ph_at_floor(
                    (#[trigger] final(self).map.tile_at(p)).pheromone,
                ),
            final(self).history.step@ == old(self).history.step@.push(
                old(self).history.spec_len() as i32,
            ),
            final(self).history.ants@ == old(self).history.ants@.push(
                counts_of(final(self).colony.ants.state@),
            ),
            final(self).history.food_total@ == old(self).history.food_total@.push(
                final(self).colony.food,
            ),
            final(self).history.food_step@ == old(self).history.food_step@.push(
                (final(self).colony.food - (if old(self).history.spec_len() > 0 {
                    old(self).history.food_total@.last() as int
                } else {
                    0int
                })) as i32,
            ),
            exists|t: TickTrace|
                tick_rel(
                    old(self).colony.ants,
                    old(self).map,
                    old(self).colony.food as int,
                    t,
                    final(self).colony.ants,
                    final(self).map,
                    final(self).colony.food as int,
                    old(self).config,
                ),
    {
        let config = self.config;
        seeker_system(&mut self.colony, &mut self.map, &config, &mut self.rng);
        let ghost c1 = self.colony.ants;
        let ghost g1 = self.map;
        returner_system(&mut self.colony, &mut self.map, &config, &mut self.rng);
        let ghost c2 = self.colony.ants;
        let ghost g2 = self.map;
        noob_system(&mut self.colony, &self.map, &config, &mut self.rng);
        let ghost c3 = self.colony.ants;
        follower_system(&mut self.colony, &mut self.map, &config, &mut self.rng);
        let ghost g4 = self.map;
        self.map.evaporate_all(config.evaporation_rate.val());
        proof {
            let t = TickTrace {
                after_seekers: c1,
                grid_after_seekers: g1,
                after_returners: c2,
                grid_after_returners: g2,
                after_noobs: c3,
                grid_after_followers: g4,
            };
            assert(tick_rel(
                old(self).colony.ants,
                old(self).map,
                old(self).colony.food as int,
                t,
                self.colony.ants,
                self.map,
                self.colony.food as int,
                old(self).config,
            ));
            assert(exists|tr: TickTrace|
                tick_rel(
                    old(self).colony.ants,
                    old(self).map,
                    old(self).colony.food as int,
                    tr,
                    self.colony.ants,
                    self.map,
                    self.colony.food as int,
                    old(self).config,
                ));
        }
        let ghost mid = *self;

        let state_count = self.colony.ants.state_count();
        let hl = self.history.food_total.len();
        let last_total = if hl > 0 {
            self.history.food_total[hl - 1]
        } else {
            0
        };
        let food_rate = self.colony.food - last_total;
        let idx = self.history.step.len() as i32;
        self.history.push(idx, state_count, self.colony.food, food_rate);
        proof {
            assert(self.colony.ants == mid.colony.ants && self.map == mid.map && self.colony.food
                == mid.colony.food);
        }
        Ok(())
    }
}

} // verus!
