//! An ant-colony foraging simulation on a two-dimensional tile grid.
//!
//! Ants leave the nest, wander in search of food, lay pheromone trails when
//! returning with food, and recruit other ants that follow those trails.
//! The crate holds the simulation engine: the tile/pheromone grid, the
//! ant-state machine, and the per-tick update systems. Rendering and input
//! belong to the host program.

use vstd::prelude::*;

pub mod colony;
pub mod config;
pub mod map;
pub mod render;
pub mod rng;
pub mod simulation;

use crate::rng::Rand;

verus! {

/// The four cardinal facing directions of an ant.
#[derive(Clone, Copy, PartialEq, Eq, Structural, Debug)]
pub enum AntDirection {
    Up,
    Down,
    Right,
    Left,
}

impl AntDirection {
    /// The unit movement vector of this direction, as `(dx, dy)`.
    pub fn vec(&self) -> (r: (i32, i32))
        ensures
            r == self.vec_spec(),
    {
        match *self {
            AntDirection::Up => (0, 1),
            AntDirection::Down => (0, -1),
            AntDirection::Right => (1, 0),
            AntDirection::Left => (-1, 0),
        }
    }

    pub open spec fn vec_spec(self) -> (i32, i32) {
        match self {
            AntDirection::Up => (0i32, 1i32),
            AntDirection::Down => (0i32, -1i32),
            AntDirection::Right => (1i32, 0i32),
            AntDirection::Left => (-1i32, 0i32),
        }
    }

    /// The direction a uniform draw below 4 stands for.
    pub open spec fn index_spec(i: int) -> AntDirection {
        if i == 0 {
            AntDirection::Up
        } else if i == 1 {
            AntDirection::Down
        } else if i == 2 {
            AntDirection::Left
        } else {
            AntDirection::Right
        }
    }

    pub fn from_index(i: usize) -> (r: AntDirection)
        ensures
            r == AntDirection::index_spec(i as int),
    {
        match i {
            0 => AntDirection::Up,
            1 => AntDirection::Down,
            2 => AntDirection::Left,
            _ => AntDirection::Right,
        }
    }

    /// A random 90-degree turn: a vertical facing picks uniformly between
    /// the two horizontal directions and vice versa — never a reversal and
    /// never a no-op.
    pub fn random_turn(self, rng: &mut Rand) -> (r: AntDirection)
        ensures
            (self == AntDirection::Up || self == AntDirection::Down) ==> (r == AntDirection::Right
                || r == AntDirection::Left),
            (self == AntDirection::Right || self == AntDirection::Left) ==> (r == AntDirection::Up
                || r == AntDirection::Down),
    {
        match self {
            AntDirection::Up | AntDirection::Down => {
                if rng.coin() {
                    AntDirection::Right
                } else {
                    AntDirection::Left
                }
            },
            AntDirection::Right | AntDirection::Left => {
                if rng.coin() {
                    AntDirection::Up
                } else {
                    AntDirection::Down
                }
            },
        }
    }
}

} // verus!
