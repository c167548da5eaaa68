//! The tile grid: positions, tiles, pheromone, and the map that owns them.

use vstd::prelude::*;

use crate::rng::Rand;

verus! {

/// A grid-relative integer coordinate pair, with the origin at the top left.
#[derive(Clone, Copy, PartialEq, Eq, Structural, Debug)]
pub struct Pos {
    pub x: i32,
    pub y: i32,
}

impl Pos {
    pub fn new(x: i32, y: i32) -> (r: Pos)
        ensures
            r == (Pos { x, y }),
    {
        Self { x, y }
    }

    /// The squared Euclidean distance between two positions. Distances are
    /// only ever compared, and squaring keeps the comparison exact in
    /// integers.
    pub fn dist_sq(pos1: Pos, pos2: Pos) -> (r: i64)
        requires
            -1048576 <= pos1.x <= 1048576,
            -1048576 <= pos1.y <= 1048576,
            -1048576 <= pos2.x <= 1048576,
            -1048576 <= pos2.y <= 1048576,
        ensures
            r == dist_sq_spec(pos1, pos2),
    {
        let dx: i64 = pos1.x as i64 - pos2.x as i64;
        let dy: i64 = pos1.y as i64 - pos2.y as i64;
        proof {
            assert(dx * dx <= 0x400000000000 && dx * dx >= 0) by (nonlinear_arith)
                requires
                    -2097152 <= dx <= 2097152,
            ;
            assert(dy * dy <= 0x400000000000 && dy * dy >= 0) by (nonlinear_arith)
                requires
                    -2097152 <= dy <= 2097152,
            ;
        }
        dx * dx + dy * dy
    }
}

pub open spec fn dist_sq_spec(pos1: Pos, pos2: Pos) -> int {
    (pos1.x - pos2.x) * (pos1.x - pos2.x) + (pos1.y - pos2.y) * (pos1.y - pos2.y)
}

/// True when `q` sits in the 3-by-3 block around `center`, excluding
/// `center` itself.
pub open spec fn touches(center: Pos, q: Pos) -> bool {
    &&& -1 <= q.x - center.x <= 1
    &&& -1 <= q.y - center.y <= 1
    &&& q != center
}

/// Row-major order on positions: by row first, then by column.
pub open spec fn row_major_before(a: Pos, b: Pos) -> bool {
    a.y < b.y || (a.y == b.y && a.x < b.x)
}

/// The kinds of scent an ant can leave behind.
#[derive(Clone, Copy, PartialEq, Eq, Structural, Debug)]
pub enum PhType {
    Exploration,
    FoodTrail,
}

/// A decaying scalar marker on a tile.
#[derive(Clone, Copy, PartialEq, Eq, Structural, Debug)]
pub struct Pheromone {
    pub ph_type: PhType,
    pub concentration: i32,
}

impl Pheromone {
    pub fn expl(amount: i32) -> (r: Pheromone)
        ensures
            r == (Pheromone { ph_type: PhType::Exploration, concentration: amount }),
    {
        Self { ph_type: PhType::Exploration, concentration: amount }
    }

    pub fn food(amount: i32) -> (r: Pheromone)
        ensures
            r == (Pheromone { ph_type: PhType::FoodTrail, concentration: amount }),
    {
        Self { ph_type: PhType::FoodTrail, concentration: amount }
    }

    pub fn ph_type(&self) -> (r: PhType)
        ensures
            r == self.ph_type,
    {
        self.ph_type
    }

    pub fn conc(&self) -> (r: i32)
        ensures
            r == self.concentration,
    {
        self.concentration
    }
}

/// The concentration carried by an optional pheromone is never negative.
pub open spec fn ph_wf(ph: Option<Pheromone>) -> bool {
    match ph {
        Some(p) => p.concentration >= 0,
        None => true,
    }
}

/// What one tick of evaporation at `rate` percent leaves of a pheromone:
/// the concentration is multiplied by `(1 - rate/100)` and truncated, and
/// anything below the floor of 30 is cleared entirely.
pub open spec fn evaporated(ph: Option<Pheromone>, rate: int) -> Option<Pheromone> {
    match ph {
        None => None,
        Some(p) => {
            let c = p.concentration * (100 - rate) / 100;
            if c < 30 {
                None
            } else {
                Some(Pheromone { ph_type: p.ph_type, concentration: c as i32 })
            }
        },
    }
}

/// A whole tile after one tick of evaporation.
pub open spec fn evaporated_tile(t: Tile, rate: int) -> Tile {
    Tile { pheromone: evaporated(t.pheromone, rate), ..t }
}

/// A pheromone, when present at all, sits at or above the floor of 30.
pub open spec fn ph_at_floor(ph: Option<Pheromone>) -> bool {
    match ph {
        Some(p) => p.concentration >= 30,
        None => true,
    }
}

/// Evaporation at rate zero is the identity on every pheromone at or above
/// the floor: the concentration is unchanged tick over tick, and no
/// floor-triggered clearing occurs.
pub proof fn lemma_evaporation_zero_rate_stable(ph: Pheromone)
    requires
        ph.concentration >= 30,
    ensures
        evaporated(Some(ph), 0) == Some(ph),
{
    assert(ph.concentration * 100 / 100 == ph.concentration) by (nonlinear_arith);
}

/// The fixed kinds of tile.
#[derive(Clone, Copy, PartialEq, Eq, Structural, Debug)]
pub enum TileType {
    Border,
    Empty,
    Food,
    Nest,
}

impl TileType {
    /// The character a text renderer draws for this tile kind.
    pub fn char(&self) -> (r: char)
        ensures
            r == self.char_spec(),
    {
        match *self {
            TileType::Border => ' ',
            TileType::Empty => ' ',
            TileType::Food => '@',
            TileType::Nest => 'H',
        }
    }

    pub open spec fn char_spec(self) -> char {
        match self {
            TileType::Border => ' ',
            TileType::Empty => ' ',
            TileType::Food => '@',
            TileType::Nest => 'H',
        }
    }
}

/// One grid cell: a kind, an optional pheromone, and its own position
/// (repeated here so neighbour queries can hand out self-describing tiles).
#[derive(Clone, Copy, Debug)]
pub struct Tile {
    pub tile_type: TileType,
    pub pheromone: Option<Pheromone>,
    pub pos: Pos,
}

impl Tile {
    pub fn empty(x: i32, y: i32) -> (r: Tile)
        ensures
            r == (Tile {
                tile_type: TileType::Empty,
                pheromone: None::<Pheromone>,
                pos: Pos { x, y },
            }),
    {
        Self { tile_type: TileType::Empty, pheromone: None, pos: Pos::new(x, y) }
    }

    pub fn nest(pos: Pos) -> (r: Tile)
        ensures
            r == (Tile { tile_type: TileType::Nest, pheromone: None::<Pheromone>, pos }),
    {
        Self { tile_type: TileType::Nest, pheromone: None, pos }
    }

    pub fn border(x: i32, y: i32) -> (r: Tile)
        ensures
            r == (Tile {
                tile_type: TileType::Border,
                pheromone: None::<Pheromone>,
                pos: Pos { x, y },
            }),
    {
        Self { tile_type: TileType::Border, pheromone: None, pos: Pos::new(x, y) }
    }

    pub fn food(x: i32, y: i32) -> (r: Tile)
        ensures
            r == (Tile {
                tile_type: TileType::Food,
                pheromone: None::<Pheromone>,
                pos: Pos { x, y },
            }),
    {
        Self { tile_type: TileType::Food, pheromone: None, pos: Pos::new(x, y) }
    }

    pub fn char(&self) -> (r: char)
        ensures
            r == self.tile_type.char_spec(),
    {
        self.tile_type.char()
    }

    /// Applies one tick of evaporation at `rate` percent to this tile's
    /// pheromone, clearing it when the result falls below the floor of 30.
    pub fn evaporate(&mut self, rate: i32)
        requires
            ph_wf(old(self).pheromone),
            0 <= rate <= 100,
        ensures
            *final(self) == (Tile { pheromone: evaporated(old(self).pheromone, rate as int), ..*old(self) }),
            ph_wf(final(self).pheromone),
    {
        match self.pheromone {
            Some(ph) => {
                let conc: u64 = ph.concentration as u64;
                let factor: u64 = (100 - rate) as u64;
                proof {
                    assert(conc * factor <= 0x7fffffff * 100) by (nonlinear_arith)
                        requires
                            0 <= conc <= 0x7fffffff,
                            0 <= factor <= 100,
                    ;
                    assert(conc * factor / 100 <= conc) by (nonlinear_arith)
                        requires
                            0 <= factor <= 100,
                    ;
                }
                let scaled: u64 = conc * factor / 100;
                if scaled < 30 {
                    self.pheromone = None;
                } else {
                    self.pheromone = Some(
                        Pheromone { ph_type: ph.ph_type, concentration: scaled as i32 },
                    );
                }
            },
            None => {},
        }
    }
}

/// The tile grid: a row-major matrix of tiles with a fixed size and one
/// nest tile at the centre.
pub struct Grid {
    name: String,
    width: i32,
    height: i32,
    tiles: Vec<Tile>,
    nest_pos: Pos,
}

/// The largest accepted edge length of the grid; keeps every coordinate
/// computation comfortably inside the machine integer types.
pub const MAX_EDGE: i32 = 65536;

impl Grid {
    pub closed spec fn spec_width(self) -> int {
        self.width as int
    }

    pub closed spec fn spec_height(self) -> int {
        self.height as int
    }

    pub closed spec fn nest(self) -> Pos {
        self.nest_pos
    }

    pub closed spec fn tile_seq(self) -> Seq<Tile> {
        self.tiles@
    }

    pub closed spec fn spec_name(self) -> Seq<char> {
        self.name@
    }

    pub open spec fn in_bounds(self, p: Pos) -> bool {
        0 <= p.x < self.spec_width() && 0 <= p.y < self.spec_height()
    }

    /// The row-major index of a position.
    pub open spec fn idx(self, p: Pos) -> int {
        p.y * self.spec_width() + p.x
    }

    /// The tile stored at an in-bounds position.
    pub open spec fn tile_at(self, p: Pos) -> Tile {
        self.tile_seq()[self.idx(p)]
    }

    /// The grid's invariant: the matrix has exactly width-by-height tiles,
    /// each tile knows its own position, every pheromone concentration is
    /// non-negative, and exactly one tile — the nest, fixed at the centre —
    /// has the nest type.
    pub open spec fn wf(self) -> bool {
        &&& 2 <= self.spec_width() <= MAX_EDGE
        &&& 2 <= self.spec_height() <= MAX_EDGE
        &&& self.tile_seq().len() == self.spec_width() * self.spec_height()
        &&& forall|p: Pos|
            self.in_bounds(p) ==> (#[trigger] self.tile_at(p)).pos == p
        &&& forall|p: Pos| self.in_bounds(p) ==> ph_wf((#[trigger] self.tile_at(p)).pheromone)
        &&& self.nest().x == self.spec_width() / 2
        &&& self.nest().y == self.spec_height() / 2
        &&& self.in_bounds(self.nest())
        &&& self.tile_at(self.nest()).tile_type == TileType::Nest
        &&& forall|p: Pos|
            self.in_bounds(p) && p != self.nest() ==> (#[trigger] self.tile_at(
                p,
            )).tile_type != TileType::Nest
    }

    /// True when the nest lies in the 3-by-3 block around `p` (excluding
    /// `p` itself): the notion of "having reached the nest".
    pub open spec fn nest_adjacent(self, p: Pos) -> bool {
        touches(p, self.nest())
    }

    pub fn width(&self) -> (r: i32)
        ensures
            r == self.spec_width(),
    {
        self.width
    }

    pub fn height(&self) -> (r: i32)
        ensures
            r == self.spec_height(),
    {
        self.height
    }

    pub fn name(&self) -> (r: &String)
        ensures
            r@ == self.spec_name(),
    {
        &self.name
    }

    pub fn nest_pos(&self) -> (r: Pos)
        ensures
            r == self.nest(),
    {
        self.nest_pos
    }

    pub fn get(&self, pos: Pos) -> (r: &Tile)
        requires
            self.wf(),
            self.in_bounds(pos),
        ensures
            *r == self.tile_at(pos),
    {
        proof {
            lemma_row_major_index(self.spec_width(), self.spec_height(), pos);
        }
        let i: usize = (pos.y as usize) * (self.width as usize) + (pos.x as usize);
        &self.tiles[i]
    }

    pub fn get_xy(&self, x: i32, y: i32) -> (r: &Tile)
        requires
            self.wf(),
            self.in_bounds(Pos { x, y }),
        ensures
            *r == self.tile_at(Pos { x, y }),
    {
        let pos = Pos::new(x, y);
        self.get(pos)
    }

    /// Replaces the tile at `pos`, keeping the stored position honest.
    /// The nest tile can only be replaced by another nest tile, and any
    /// other tile by a non-nest one, so that exactly one nest remains.
    fn set_tile(&mut self, pos: Pos, tile: Tile)
        requires
            old(self).wf(),
            old(self).in_bounds(pos),
            tile.pos == pos,
            ph_wf(tile.pheromone),
            (tile.tile_type == TileType::Nest) == (pos == old(self).nest()),
        ensures
            final(self).wf(),
            final(self).spec_width() == old(self).spec_width(),
            final(self).spec_height() == old(self).spec_height(),
            final(self).nest() == old(self).nest(),
            final(self).spec_name() == old(self).spec_name(),
            final(self).tile_at(pos) == tile,
            forall|q: Pos|
                old(self).in_bounds(q) && q != pos ==> #[trigger] final(self).tile_at(q) == old(
                    self,
                ).tile_at(q),
    {
        proof {
            lemma_row_major_index(self.spec_width(), self.spec_height(), pos);
        }
        let i: usize = (pos.y as usize) * (self.width as usize) + (pos.x as usize);
        self.tiles[i] = tile;
        proof {
            assert forall|q: Pos| self.in_bounds(q) && q != pos implies #[trigger] self.tile_at(q)
                == old(self).tile_at(q) by {
                lemma_row_major_index(self.spec_width(), self.spec_height(), q);
                lemma_row_major_distinct(self.spec_width(), pos, q);
            }
        }
    }

    /// Sets the tile at `pos` back to empty; used when an ant consumes the
    /// food there.
    pub fn clear(&mut self, pos: Pos)
        requires
            old(self).wf(),
            old(self).in_bounds(pos),
            old(self).tile_at(pos).tile_type == TileType::Food,
        ensures
            final(self).wf(),
            final(self).spec_width() == old(self).spec_width(),
            final(self).spec_height() == old(self).spec_height(),
            final(self).nest() == old(self).nest(),
            final(self).spec_name() == old(self).spec_name(),
            final(self).tile_at(pos) == (Tile {
                tile_type: TileType::Empty,
                ..old(self).tile_at(pos)
            }),
            forall|q: Pos|
                old(self).in_bounds(q) && q != pos ==> #[trigger] final(self).tile_at(q) == old(
                    self,
                ).tile_at(q),
    {
        let mut t = *self.get(pos);
        t.tile_type = TileType::Empty;
        self.set_tile(pos, t);
    }

    /// Deposits `amount` of pheromone at `pos`: an existing pheromone
    /// accumulates (whatever its kind, saturating at the integer maximum),
    /// and an empty tile gets a fresh pheromone of the given kind.
    pub fn drop_ph(&mut self, ph_type: PhType, pos: Pos, amount: i32)
        requires
            old(self).wf(),
            old(self).in_bounds(pos),
            amount >= 0,
        ensures
            final(self).wf(),
            final(self).spec_width() == old(self).spec_width(),
            final(self).spec_height() == old(self).spec_height(),
            final(self).nest() == old(self).nest(),
            final(self).spec_name() == old(self).spec_name(),
            final(self).tile_at(pos) == (Tile {
                pheromone: Some(dropped_ph(old(self).tile_at(pos).pheromone, ph_type, amount as int)),
                ..old(self).tile_at(pos)
            }),
            forall|q: Pos|
                old(self).in_bounds(q) && q != pos ==> #[trigger] final(self).tile_at(q) == old(
                    self,
                ).tile_at(q),
    {
        let mut t = *self.get(pos);
        match t.pheromone {
            Some(ph) => {
                let c = if ph.concentration <= i32::MAX - amount {
                    ph.concentration + amount
                } else {
                    i32::MAX
                };
                t.pheromone = Some(Pheromone { ph_type: ph.ph_type, concentration: c });
            },
            None => {
                t.pheromone = Some(Pheromone { ph_type, concentration: amount });
            },
        }
        self.set_tile(pos, t);
    }

    pub fn min_height(&self) -> (r: i32)
        requires
            self.wf(),
        ensures
            r == -(self.spec_height() / 2),
    {
        -(self.height / 2)
    }

    pub fn max_height(&self) -> (r: i32)
        requires
            self.wf(),
        ensures
            r == self.spec_height() / 2,
    {
        self.height / 2
    }

    pub fn min_width(&self) -> (r: i32)
        requires
            self.wf(),
        ensures
            r == -(self.spec_width() / 2),
    {
        -(self.width / 2)
    }

    pub fn max_width(&self) -> (r: i32)
        requires
            self.wf(),
        ensures
            r == self.spec_width() / 2,
    {
        self.width / 2
    }

    /// Builds a grid: all tiles empty, the nest at the centre, and food
    /// scattered in rectangular patches at random positions drawn from a
    /// fresh entropy-seeded source.
    pub fn new(name: &str, width: i32, height: i32) -> (r: Grid)
        requires
            2 <= width <= MAX_EDGE,
            2 <= height <= MAX_EDGE,
        ensures
            r.wf(),
            r.spec_width() == width,
            r.spec_height() == height,
            r.spec_name() == name@,
            forall|p: Pos| r.in_bounds(p) ==> (#[trigger] r.tile_at(p)).pheromone is None,
            forall|p: Pos|
                r.in_bounds(p) ==> (#[trigger] r.tile_at(p)).tile_type != TileType::Border,
            exists|rects: Seq<(i32, i32)>|
                #[trigger] placement_ok(rects, width as int, height as int, r.nest())
                    && food_exactly_in(r, rects) && placement_saturated(
                    rects,
                    width as int,
                    height as int,
                    r.nest(),
                ),
    {
        let mut rng = Rand::new();
        Grid::with_rng(name, width, height, &mut rng)
    }

    /// Builds a grid as `new` does, drawing the random food placement from
    /// the given source, so that a seeded source gives a reproducible grid.
    ///
    /// Food patches are 20 by 6 tiles, rejected when their top-left corner
    /// falls inside the exclusion box around the nest or when they would
    /// overlap an earlier patch. Random placement is capped; remaining
    /// patches fall back to the first allowed spots in row-major order,
    /// and a grid with no room simply gets fewer patches.
    #[verifier::loop_isolation(false)]
    pub fn with_rng(name: &str, width: i32, height: i32, rng: &mut Rand) -> (r: Grid)
        requires
            2 <= width <= MAX_EDGE,
            2 <= height <= MAX_EDGE,
        ensures
            r.wf(),
            r.spec_width() == width,
            r.spec_height() == height,
            r.spec_name() == name@,
            forall|p: Pos| r.in_bounds(p) ==> (#[trigger] r.tile_at(p)).pheromone is None,
            forall|p: Pos|
                r.in_bounds(p) ==> (#[trigger] r.tile_at(p)).tile_type != TileType::Border,
            exists|rects: Seq<(i32, i32)>|
                #[trigger] placement_ok(rects, width as int, height as int, r.nest())
                    && food_exactly_in(r, rects) && placement_saturated(
                    rects,
                    width as int,
                    height as int,
                    r.nest(),
                ),
    {
        let nest_pos = Pos::new(width / 2, height / 2);
        let mut tiles: Vec<Tile> = Vec::new();

        // All-empty matrix, row by row.
        let mut y: i32 = 0;
        while y < height
            invariant
                0 <= y <= height,
                tiles@.len() == y * width,
                forall|px: int, py: int|
                    0 <= px < width && 0 <= py < y ==> #[trigger] tiles@[py * width + px]
                        == empty_tile(px, py),
            decreases height - y,
        {
            let mut x: i32 = 0;
            while x < width
                invariant
                    0 <= y < height,
                    0 <= x <= width,
                    tiles@.len() == y * width + x,
                    forall|px: int, py: int|
                        0 <= px < width && (0 <= py < y || (py == y && 0 <= px < x))
                            ==> #[trigger] tiles@[py * width + px] == empty_tile(px, py),
                decreases width - x,
            {
                tiles.push(Tile::empty(x, y));
                proof {
                    assert forall|px: int, py: int|
                        0 <= px < width && (0 <= py < y || (py == y && 0 <= px < x
                            + 1)) implies #[trigger] tiles@[py * width + px] == empty_tile(
                        px,
                        py,
                    ) by {
                        if py == y && px == x {
                            assert(tiles@[y * width + x] == empty_tile(x as int, y as int));
                        } else if py == y {
                            assert(py * width + px < y * width + x);
                        } else {
                            lemma_mul_step(py, width as int);
                            lemma_mul_le(py + 1, y as int, width as int);
                            assert(py * width + px < y * width + x);
                        }
                    }
                }
                x = x + 1;
            }
            proof {
                lemma_mul_step(y as int, width as int);
            }
            y = y + 1;
        }

        // The nest tile at the centre.
        proof {
            lemma_row_major_index(width as int, height as int, nest_pos);
            lemma_mul_comm(width as int, height as int);
        }
        let ni: usize = (nest_pos.y as usize) * (width as usize) + (nest_pos.x as usize);
        tiles[ni] = Tile::nest(nest_pos);
        proof {
            assert forall|px: int, py: int| 0 <= px < width && 0 <= py < height implies {
                &&& proto_tile_ok(#[trigger] tiles@[py * width + px], px, py, nest_pos)
                &&& tiles@[py * width + px].tile_type != TileType::Food
            } by {
                let q = Pos { x: px as i32, y: py as i32 };
                lemma_row_major_index(width as int, height as int, q);
                if q != nest_pos {
                    lemma_row_major_distinct(width as int, nest_pos, q);
                }
            }
            assert(proto_wf(tiles@, width as int, height as int, nest_pos));
            assert(food_cover(tiles@, Seq::<(i32, i32)>::empty(), width as int, height as int));
        }

        // Random food patches, when the grid can hold one.
        let mut rects: Vec<(i32, i32)> = Vec::new();
        if width > 20 && height > 6 {
            let mut piles: i32 = 0;
            let mut attempts: i32 = 0;
            while piles < 8 && attempts < 1000
                invariant
                    proto_wf(tiles@, width as int, height as int, nest_pos),
                    food_cover(tiles@, rects@, width as int, height as int),
                    placement_ok(rects@, width as int, height as int, nest_pos),
                    0 <= piles <= 8,
                    0 <= attempts <= 1000,
                    rects@.len() == piles,
                    rect_list_ok(rects@),
                decreases 1000 - attempts,
            {
                attempts = attempts + 1;
                let rx = rng.next_below((width - 20) as usize) as i32;
                let ry = rng.next_below((height - 6) as usize) as i32;
                if block_allowed(&rects, nest_pos, rx, ry) {
                    let ghost pre_tiles = tiles@;
                    let ghost pre_rects = rects@;
                    paint_block(&mut tiles, width, height, nest_pos, rx, ry);
                    rects.push((rx, ry));
                    piles = piles + 1;
                    proof {
                        lemma_place_extends(
                            pre_tiles,
                            tiles@,
                            pre_rects,
                            width as int,
                            height as int,
                            nest_pos,
                            rx,
                            ry,
                        );
                    }
                }
            }

            // Fallback: scan for the first allowed spots deterministically.
            if piles < 8 {
                let mut ry: i32 = 0;
                while ry < height - 6
                    invariant
                        proto_wf(tiles@, width as int, height as int, nest_pos),
                        food_cover(tiles@, rects@, width as int, height as int),
                        placement_ok(rects@, width as int, height as int, nest_pos),
                        0 <= ry <= height - 6,
                        0 <= piles <= 8,
                        rects@.len() == piles,
                        rect_list_ok(rects@),
                        piles < 8 ==> forall|cx: int, cy: int|
                            0 <= cx < width - 20 && 0 <= cy < ry ==> !block_clear_spec(
                                rects@,
                                nest_pos,
                                cx,
                                cy,
                            ),
                    decreases height - 6 - ry,
                {
                    let mut rx: i32 = 0;
                    while rx < width - 20
                        invariant
                            proto_wf(tiles@, width as int, height as int, nest_pos),
                            food_cover(tiles@, rects@, width as int, height as int),
                            placement_ok(rects@, width as int, height as int, nest_pos),
                            0 <= rx <= width - 20,
                            0 <= ry < height - 6,
                            0 <= piles <= 8,
                            rects@.len() == piles,
                            rect_list_ok(rects@),
                            piles < 8 ==> forall|cx: int, cy: int|
                                ((0 <= cx < width - 20 && 0 <= cy < ry) || (cy == ry && 0 <= cx
                                    < rx)) ==> !block_clear_spec(rects@, nest_pos, cx, cy),
                        decreases width - 20 - rx,
                    {
                        if piles < 8 && block_allowed(&rects, nest_pos, rx, ry) {
                            let ghost pre_tiles = tiles@;
                            let ghost pre_rects = rects@;
                            paint_block(&mut tiles, width, height, nest_pos, rx, ry);
                            rects.push((rx, ry));
                            piles = piles + 1;
                            proof {
                                lemma_place_extends(
                                    pre_tiles,
                                    tiles@,
                                    pre_rects,
                                    width as int,
                                    height as int,
                                    nest_pos,
                                    rx,
                                    ry,
                                );
                                if piles < 8 {
                                    assert forall|cx: int, cy: int|
                                        ((0 <= cx < width - 20 && 0 <= cy < ry) || (cy == ry && 0
                                            <= cx < rx + 1)) implies !block_clear_spec(
                                        rects@,
                                        nest_pos,
                                        cx,
                                        cy,
                                    ) by {
                                        if block_clear_spec(rects@, nest_pos, cx, cy) {
                                            if cx == rx && cy == ry {
                                                let k = pre_rects.len() as int;
                                                assert(rects@[k] == (rx, ry));
                                                assert(rects@[k].0 + 20 <= cx || cx + 20
                                                    <= rects@[k].0 || rects@[k].1 + 6 <= cy || cy
                                                    + 6 <= rects@[k].1);
                                            } else {
                                                lemma_block_clear_monotone(
                                                    pre_rects,
                                                    (rx, ry),
                                                    nest_pos,
                                                    cx,
                                                    cy,
                                                );
                                            }
                                        }
                                    }
                                }
                            }
                        }
                        rx = rx + 1;
                    }
                    ry = ry + 1;
                }
            }
            proof {
                assert(placement_saturated(rects@, width as int, height as int, nest_pos));
            }
        } else {
            proof {
                assert(placement_saturated(rects@, width as int, height as int, nest_pos));
            }
        }

        let r = Grid {
            name: name.to_owned(),
            width,
            height,
            tiles,
            nest_pos,
        };
        proof {
            assert forall|p: Pos| r.in_bounds(p) implies {
                let t = #[trigger] r.tile_at(p);
                &&& t.pos == p
                &&& t.pheromone is None
                &&& (t.tile_type == TileType::Nest <==> p == nest_pos)
                &&& t.tile_type != TileType::Border
                &&& (t.tile_type == TileType::Food <==> covered_by(rects@, p.x as int, p.y as int))
            } by {
                lemma_row_major_index(width as int, height as int, p);
                assert(proto_tile_ok(
                    r.tile_seq()[p.y as int * (width as int) + p.x as int],
                    p.x as int,
                    p.y as int,
                    nest_pos,
                ));
                assert(r.tile_seq()[p.y as int * (width as int) + p.x as int].tile_type
                    == TileType::Food <==> covered_by(rects@, p.x as int, p.y as int));
                assert(r.tile_at(p) == r.tile_seq()[p.y as int * (width as int) + p.x as int]);
            }
            assert(placement_ok(rects@, width as int, height as int, r.nest()) && food_exactly_in(
                r,
                rects@,
            ));
        }
        r
    }

    /// The up-to-8 tiles in the 3-by-3 block centred on `pos`, excluding
    /// `pos` itself, with each axis independently clamped to the grid
    /// boundary, in row-major order. A corner yields 3 tiles, an edge 5,
    /// an interior position 8.
    #[verifier::loop_isolation(false)]
    pub fn get_neightbours(&self, pos: Pos) -> (r: Vec<Tile>)
        requires
            self.wf(),
            self.in_bounds(pos),
        ensures
            3 <= r@.len() <= 8,
            forall|i: int|
                0 <= i < r@.len() ==> neighbour_tile_ok(*self, pos, #[trigger] r@[i]),
            forall|q: Pos|
                #[trigger] touches(pos, q) && self.in_bounds(q) ==> exists|i: int|
                    0 <= i < r@.len() && r@[i].pos == q,
            forall|i: int, j: int|
                0 <= i < j < r@.len() ==> row_major_before(r@[i].pos, r@[j].pos),
    {
        let x0 = self.clamp_width(pos.x - 1);
        let x1 = self.clamp_width(pos.x + 1);
        let y0 = self.clamp_height(pos.y - 1);
        let y1 = self.clamp_height(pos.y + 1);
        let ghost sx: int = x1 - x0 + 1;
        let mut neighbours: Vec<Tile> = Vec::new();
        let mut y = y0;
        while y <= y1
            invariant
                y0 <= y <= y1 + 1,
                neighbours@.len() == (y - y0) * sx - (if y > pos.y {
                    1int
                } else {
                    0int
                }),
                forall|i: int|
                    0 <= i < neighbours@.len() ==> neighbour_tile_ok(
                        *self,
                        pos,
                        #[trigger] neighbours@[i],
                    ),
                forall|i: int| 0 <= i < neighbours@.len() ==> (#[trigger] neighbours@[i]).pos.y < y,
                forall|i: int, j: int|
                    0 <= i < j < neighbours@.len() ==> row_major_before(
                        neighbours@[i].pos,
                        neighbours@[j].pos,
                    ),
                forall|q: Pos|
                    #[trigger] touches(pos, q) && self.in_bounds(q) && q.y < y ==> exists|i: int|
                        0 <= i < neighbours@.len() && neighbours@[i].pos == q,
            decreases y1 + 1 - y,
        {
            let mut x = x0;
            while x <= x1
                invariant
                    x0 <= x <= x1 + 1,
                    y0 <= y <= y1,
                    neighbours@.len() == (y - y0) * sx + (x - x0) - (if y > pos.y || (y == pos.y
                        && x > pos.x) {
                        1int
                    } else {
                        0int
                    }),
                    forall|i: int|
                        0 <= i < neighbours@.len() ==> neighbour_tile_ok(
                            *self,
                            pos,
                            #[trigger] neighbours@[i],
                        ),
                    forall|i: int|
                        0 <= i < neighbours@.len() ==> (#[trigger] neighbours@[i]).pos.y < y || (
                        neighbours@[i].pos.y == y && neighbours@[i].pos.x < x),
                    forall|i: int, j: int|
                        0 <= i < j < neighbours@.len() ==> row_major_before(
                            neighbours@[i].pos,
                            neighbours@[j].pos,
                        ),
                    forall|q: Pos|
                        #[trigger] touches(pos, q) && self.in_bounds(q) && (q.y < y || (q.y == y
                            && q.x < x)) ==> exists|i: int|
                            0 <= i < neighbours@.len() && neighbours@[i].pos == q,
                decreases x1 + 1 - x,
            {
                let ghost pre = neighbours@;
                if !(x == pos.x && y == pos.y) {
                    let t = *self.get_xy(x, y);
                    neighbours.push(t);
                }
                proof {
                    assert forall|q: Pos|
                        touches(pos, q) && self.in_bounds(q) && (q.y < y || (q.y == y && q.x < x
                            + 1)) implies exists|i: int|
                        0 <= i < neighbours@.len() && neighbours@[i].pos == q by {
                        if q.y < y || (q.y == y && q.x < x) {
                            let k = choose|i: int| 0 <= i < pre.len() && pre[i].pos == q;
                            assert(neighbours@[k].pos == q);
                        } else {
                            assert(q == (Pos { x, y }));
                            assert(neighbours@[neighbours@.len() - 1].pos == q);
                        }
                    }
                }
                x = x + 1;
            }
            proof {
                lemma_mul_step(y - y0, sx);
            }
            y = y + 1;
        }
        proof {
            lemma_mul_small_range(y1 + 1 - y0, sx);
        }
        neighbours
    }

    /// Applies one tick of evaporation at `rate` percent to every tile.
    /// Afterwards every pheromone still present sits at or above the floor
    /// of 30; anything that fell below it has been cleared.
    #[verifier::loop_isolation(false)]
    pub fn evaporate_all(&mut self, rate: i32)
        requires
            old(self).wf(),
            0 <= rate <= 100,
        ensures
            final(self).wf(),
            final(self).spec_width() == old(self).spec_width(),
            final(self).spec_height() == old(self).spec_height(),
            final(self).nest() == old(self).nest(),
            final(self).spec_name() == old(self).spec_name(),
            forall|p: Pos|
                old(self).in_bounds(p) ==> #[trigger] final(self).tile_at(p) == evaporated_tile(
                    old(self).tile_at(p),
                    rate as int,
                ),
            forall|p: Pos|
                final(self).in_bounds(p) ==> ph_at_floor(
                    (#[trigger] final(self).tile_at(p)).pheromone,
                ),
    {
        let w = self.width;
        let h = self.height;
        let mut y: i32 = 0;
        while y < h
            invariant
                0 <= y <= h,
                self.wf(),
                self.spec_width() == old(self).spec_width(),
                self.spec_height() == old(self).spec_height(),
                self.nest() == old(self).nest(),
                self.spec_name() == old(self).spec_name(),
                forall|p: Pos|
                    old(self).in_bounds(p) && p.y < y ==> #[trigger] self.tile_at(p)
                        == evaporated_tile(old(self).tile_at(p), rate as int),
                forall|p: Pos|
                    old(self).in_bounds(p) && p.y >= y ==> #[trigger] self.tile_at(p) == old(
                        self,
                    ).tile_at(p),
            decreases h - y,
        {
            let mut x: i32 = 0;
            while x < w
                invariant
                    0 <= x <= w,
                    0 <= y < h,
                    self.wf(),
                    self.spec_width() == old(self).spec_width(),
                    self.spec_height() == old(self).spec_height(),
                    self.nest() == old(self).nest(),
                    self.spec_name() == old(self).spec_name(),
                    forall|p: Pos|
                        old(self).in_bounds(p) && (p.y < y || (p.y == y && p.x < x))
                            ==> #[trigger] self.tile_at(p) == evaporated_tile(
                            old(self).tile_at(p),
                            rate as int,
                        ),
                    forall|p: Pos|
                        old(self).in_bounds(p) && (p.y > y || (p.y == y && p.x >= x))
                            ==> #[trigger] self.tile_at(p) == old(self).tile_at(p),
                decreases w - x,
            {
                let pos = Pos::new(x, y);
                let mut t = *self.get(pos);
                t.evaporate(rate);
                self.set_tile(pos, t);
                x = x + 1;
            }
            y = y + 1;
        }
        proof {
            assert forall|p: Pos| self.in_bounds(p) implies ph_at_floor(
                (#[trigger] self.tile_at(p)).pheromone,
            ) by {
                assert(self.tile_at(p) == evaporated_tile(old(self).tile_at(p), rate as int));
                match old(self).tile_at(p).pheromone {
                    Some(q) => {
                        assert(q.concentration >= 0);
                        assert(0 <= q.concentration * (100 - rate) / 100 <= q.concentration)
                            by (nonlinear_arith)
                            requires
                                q.concentration >= 0,
                                0 <= rate <= 100,
                        ;
                    },
                    None => {},
                }
            }
        }
    }

    /// True exactly when some neighbour of `pos` is the nest tile.
    pub fn reached_nest(&self, pos: Pos) -> (r: bool)
        requires
            self.wf(),
            self.in_bounds(pos),
        ensures
            r == self.nest_adjacent(pos),
    {
        let neighbours = self.get_neightbours(pos);
        let mut i: usize = 0;
        while i < neighbours.len()
            invariant
                0 <= i <= neighbours@.len(),
                self.wf(),
                self.in_bounds(pos),
                forall|j: int|
                    0 <= j < i ==> neighbour_tile_ok(*self, pos, #[trigger] neighbours@[j]),
                forall|j: int|
                    i <= j < neighbours@.len() ==> neighbour_tile_ok(
                        *self,
                        pos,
                        #[trigger] neighbours@[j],
                    ),
                forall|q: Pos|
                    #[trigger] touches(pos, q) && self.in_bounds(q) ==> exists|k: int|
                        0 <= k < neighbours@.len() && neighbours@[k].pos == q,
                forall|j: int| 0 <= j < i ==> (#[trigger] neighbours@[j]).pos != self.nest(),
            decreases neighbours@.len() - i,
        {
            if neighbours[i].pos == self.nest_pos {
                return true;
            }
            i = i + 1;
        }
        proof {
            if self.nest_adjacent(pos) {
                assert(touches(pos, self.nest()) && self.in_bounds(self.nest()));
            }
        }
        false
    }

    fn clamp_height(&self, num: i32) -> (r: i32)
        requires
            self.spec_height() >= 1,
        ensures
            r == clamped_coord(num as int, self.spec_height()),
    {
        if num < 0 {
            0
        } else if num > self.height - 1 {
            self.height - 1
        } else {
            num
        }
    }

    fn clamp_width(&self, num: i32) -> (r: i32)
        requires
            self.spec_width() >= 1,
        ensures
            r == clamped_coord(num as int, self.spec_width()),
    {
        if num < 0 {
            0
        } else if num > self.width - 1 {
            self.width - 1
        } else {
            num
        }
    }
}

/// A coordinate clamped into `[0, edge)`.
pub open spec fn clamped_coord(num: int, edge: int) -> int {
    if num < 0 {
        0
    } else if num > edge - 1 {
        edge - 1
    } else {
        num
    }
}

/// What deposition leaves at a tile: accumulation onto an existing
/// pheromone (saturating, keeping its kind), or a fresh pheromone of the
/// deposited kind.
pub open spec fn dropped_ph(ph: Option<Pheromone>, ph_type: PhType, amount: int) -> Pheromone {
    match ph {
        Some(p) => Pheromone {
            ph_type: p.ph_type,
            concentration: if p.concentration + amount <= i32::MAX {
                (p.concentration + amount) as i32
            } else {
                i32::MAX as i32
            },
        },
        None => Pheromone { ph_type, concentration: amount as i32 },
    }
}

/// An all-empty tile carrying its own coordinates.
pub open spec fn empty_tile(px: int, py: int) -> Tile {
    Tile {
        tile_type: TileType::Empty,
        pheromone: None,
        pos: Pos { x: px as i32, y: py as i32 },
    }
}

/// What construction maintains of a tile while the matrix is being built:
/// honest position, no pheromone, nest type exactly at the nest, no border.
pub open spec fn proto_tile_ok(t: Tile, px: int, py: int, nest: Pos) -> bool {
    &&& t.pos == (Pos { x: px as i32, y: py as i32 })
    &&& t.pheromone is None
    &&& (t.tile_type == TileType::Nest <==> (px == nest.x && py == nest.y))
    &&& t.tile_type != TileType::Border
}

/// The construction invariant over the whole matrix.
pub open spec fn proto_wf(tiles: Seq<Tile>, width: int, height: int, nest: Pos) -> bool {
    &&& tiles.len() == width * height
    &&& forall|px: int, py: int|
        0 <= px < width && 0 <= py < height ==> proto_tile_ok(
            #[trigger] tiles[py * width + px],
            px,
            py,
            nest,
        )
}

/// Every recorded patch corner is a small non-negative coordinate.
pub open spec fn rect_list_ok(rects: Seq<(i32, i32)>) -> bool {
    forall|k: int|
        0 <= k < rects.len() ==> 0 <= (#[trigger] rects[k]).0 <= MAX_EDGE && 0 <= rects[k].1
            <= MAX_EDGE
}

/// True when the 20-by-6 patch with top-left corner `rect` covers `(px, py)`.
pub open spec fn rect_covers(rect: (i32, i32), px: int, py: int) -> bool {
    rect.0 <= px < rect.0 + 20 && rect.1 <= py < rect.1 + 6
}

/// True when some recorded patch covers `(px, py)`.
pub open spec fn covered_by(rects: Seq<(i32, i32)>, px: int, py: int) -> bool {
    exists|k: int| 0 <= k < rects.len() && rect_covers(#[trigger] rects[k], px, py)
}

/// Two 20-by-6 patches share at least one tile.
pub open spec fn rects_overlap(a: (i32, i32), b: (i32, i32)) -> bool {
    !(a.0 + 20 <= b.0 || b.0 + 20 <= a.0 || a.1 + 6 <= b.1 || b.1 + 6 <= a.1)
}

/// One food patch as construction accepts it: inside the grid, its corner
/// outside the nest's exclusion band on both axes.
pub open spec fn rect_ok(r: (i32, i32), width: int, height: int, nest: Pos) -> bool {
    &&& 0 <= r.0 <= width - 20
    &&& 0 <= r.1 <= height - 6
    &&& (r.0 < nest.x - 10 || r.0 > nest.x + 10)
    &&& (r.1 < nest.y - 10 || r.1 > nest.y + 10)
}

/// What holds of every outcome of food placement: at most eight accepted
/// patches, pairwise non-overlapping.
pub open spec fn placement_ok(rects: Seq<(i32, i32)>, width: int, height: int, nest: Pos) -> bool {
    &&& rects.len() <= 8
    &&& forall|k: int| 0 <= k < rects.len() ==> rect_ok(#[trigger] rects[k], width, height, nest)
    &&& forall|k1: int, k2: int|
        #![trigger rects[k1], rects[k2]]
        0 <= k1 < k2 < rects.len() ==> !rects_overlap(rects[k1], rects[k2])
}

/// Placement ran to saturation: either all eight patches were placed, or
/// no corner in the sampled range still passes the acceptance test against
/// the recorded patches (the guarantee of the attempt cap plus the
/// row-major fallback scan).
pub open spec fn placement_saturated(
    rects: Seq<(i32, i32)>,
    width: int,
    height: int,
    nest: Pos,
) -> bool {
    rects.len() == 8 || (forall|cx: int, cy: int|
        0 <= cx < width - 20 && 0 <= cy < height - 6 ==> !block_clear_spec(rects, nest, cx, cy))
}

/// Acceptance against a longer patch list is harder: a corner that fails
/// against a prefix fails against the extended list.
proof fn lemma_block_clear_monotone(
    rects: Seq<(i32, i32)>,
    nr: (i32, i32),
    nest: Pos,
    cx: int,
    cy: int,
)
    requires
        block_clear_spec(rects.push(nr), nest, cx, cy),
    ensures
        block_clear_spec(rects, nest, cx, cy),
{
    let nrects = rects.push(nr);
    assert forall|k: int|
        0 <= k < rects.len() implies (#[trigger] rects[k]).0 + 20 <= cx || cx + 20 <= rects[k].0
        || rects[k].1 + 6 <= cy || cy + 6 <= rects[k].1 by {
        assert(nrects[k] == rects[k]);
        assert(nrects[k].0 + 20 <= cx || cx + 20 <= nrects[k].0 || nrects[k].1 + 6 <= cy || cy + 6
            <= nrects[k].1);
    }
}

/// Food tiles stand exactly where the recorded patches cover.
pub open spec fn food_exactly_in(g: Grid, rects: Seq<(i32, i32)>) -> bool {
    forall|p: Pos|
        g.in_bounds(p) ==> (((#[trigger] g.tile_at(p)).tile_type == TileType::Food) <==> covered_by(
            rects,
            p.x as int,
            p.y as int,
        ))
}

/// The same coverage statement over the raw tile matrix while it is built.
pub open spec fn food_cover(tiles: Seq<Tile>, rects: Seq<(i32, i32)>, width: int, height: int) -> bool {
    forall|px: int, py: int|
        0 <= px < width && 0 <= py < height ==> (((#[trigger] tiles[py * width + px]).tile_type
            == TileType::Food) <==> covered_by(rects, px, py))
}

/// Painting one accepted patch extends the recorded list by exactly its
/// own coverage and keeps the list acceptable.
proof fn lemma_place_extends(
    t0: Seq<Tile>,
    t1: Seq<Tile>,
    rects: Seq<(i32, i32)>,
    width: int,
    height: int,
    nest: Pos,
    rx: i32,
    ry: i32,
)
    requires
        food_cover(t0, rects, width, height),
        placement_ok(rects, width, height, nest),
        rects.len() < 8,
        block_clear_spec(rects, nest, rx as int, ry as int),
        0 <= rx <= width - 20,
        0 <= ry <= height - 6,
        forall|px: int, py: int|
            0 <= px < width && 0 <= py < height ==> #[trigger] t1[py * width + px] == (if rx <= px
                < rx + 20 && ry <= py < ry + 6 {
                Tile { tile_type: TileType::Food, ..t0[py * width + px] }
            } else {
                t0[py * width + px]
            }),
    ensures
        food_cover(t1, rects.push((rx, ry)), width, height),
        placement_ok(rects.push((rx, ry)), width, height, nest),
{
    let nr = (rx, ry);
    let nrects = rects.push(nr);
    assert forall|k: int| 0 <= k < nrects.len() implies rect_ok(
        #[trigger] nrects[k],
        width,
        height,
        nest,
    ) by {
        if k < rects.len() {
            assert(nrects[k] == rects[k]);
        } else {
            assert(nrects[k] == nr);
        }
    }
    assert forall|k1: int, k2: int|
        #![trigger nrects[k1], nrects[k2]]
        0 <= k1 < k2 < nrects.len() implies !rects_overlap(nrects[k1], nrects[k2]) by {
        if k2 < rects.len() {
            assert(nrects[k1] == rects[k1] && nrects[k2] == rects[k2]);
        } else {
            assert(nrects[k2] == nr && nrects[k1] == rects[k1]);
        }
    }
    assert forall|px: int, py: int|
        0 <= px < width && 0 <= py < height implies (((#[trigger] t1[py * width + px]).tile_type
        == TileType::Food) <==> covered_by(nrects, px, py)) by {
        if rx <= px < rx + 20 && ry <= py < ry + 6 {
            assert(rect_covers(nrects[rects.len() as int], px, py));
        } else {
            if covered_by(nrects, px, py) {
                let k = choose|k: int| 0 <= k < nrects.len() && rect_covers(nrects[k], px, py);
                assert(k < rects.len());
                assert(rect_covers(rects[k], px, py));
                assert(covered_by(rects, px, py));
            }
            if covered_by(rects, px, py) {
                let k = choose|k: int| 0 <= k < rects.len() && rect_covers(rects[k], px, py);
                assert(nrects[k] == rects[k]);
                assert(rect_covers(nrects[k], px, py));
                assert(covered_by(nrects, px, py));
            }
        }
    }
}

/// A food patch corner is allowed when it avoids the exclusion box around
/// the nest on both axes and its 20-by-6 patch overlaps no earlier patch.
pub open spec fn block_clear_spec(rects: Seq<(i32, i32)>, nest: Pos, rx: int, ry: int) -> bool {
    &&& (rx < nest.x - 10 || rx > nest.x + 10)
    &&& (ry < nest.y - 10 || ry > nest.y + 10)
    &&& forall|k: int|
        0 <= k < rects.len() ==> (#[trigger] rects[k]).0 + 20 <= rx || rx + 20 <= rects[k].0
            || rects[k].1 + 6 <= ry || ry + 6 <= rects[k].1
}

/// Decides `block_clear_spec` for a candidate patch corner.
#[verifier::loop_isolation(false)]
fn block_allowed(rects: &Vec<(i32, i32)>, nest: Pos, rx: i32, ry: i32) -> (r: bool)
    requires
        0 <= rx <= MAX_EDGE,
        0 <= ry <= MAX_EDGE,
        0 <= nest.x <= MAX_EDGE,
        0 <= nest.y <= MAX_EDGE,
        rect_list_ok(rects@),
    ensures
        r == block_clear_spec(rects@, nest, rx as int, ry as int),
        r ==> ry > nest.y || ry + 6 <= nest.y,
{
    if !(rx < nest.x - 10 || rx > nest.x + 10) {
        return false;
    }
    if !(ry < nest.y - 10 || ry > nest.y + 10) {
        return false;
    }
    let mut k: usize = 0;
    while k < rects.len()
        invariant
            0 <= k <= rects@.len(),
            forall|j: int|
                0 <= j < k ==> (#[trigger] rects@[j]).0 + 20 <= rx || rx + 20 <= rects@[j].0
                    || rects@[j].1 + 6 <= ry || ry + 6 <= rects@[j].1,
        decreases rects@.len() - k,
    {
        let (ax, ay) = rects[k];
        if !(ax + 20 <= rx || rx + 20 <= ax || ay + 6 <= ry || ry + 6 <= ay) {
            return false;
        }
        k = k + 1;
    }
    true
}

/// Paints one 20-by-6 food patch whose rows all avoid the nest's row, so
/// the construction invariant survives.
#[verifier::loop_isolation(false)]
fn paint_block(tiles: &mut Vec<Tile>, width: i32, height: i32, nest: Pos, rx: i32, ry: i32)
    requires
        2 <= width <= MAX_EDGE,
        2 <= height <= MAX_EDGE,
        proto_wf(old(tiles)@, width as int, height as int, nest),
        0 <= rx <= width - 20,
        0 <= ry <= height - 6,
        ry > nest.y || ry + 6 <= nest.y,
    ensures
        proto_wf(final(tiles)@, width as int, height as int, nest),
        forall|px: int, py: int|
            0 <= px < width && 0 <= py < height ==> #[trigger] final(tiles)@[py * width + px] == (
            if rx <= px < rx + 20 && ry <= py < ry + 6 {
                Tile { tile_type: TileType::Food, ..old(tiles)@[py * width + px] }
            } else {
                old(tiles)@[py * width + px]
            }),
{
    let mut yy = ry;
    while yy < ry + 6
        invariant
            ry <= yy <= ry + 6,
            proto_wf(tiles@, width as int, height as int, nest),
            forall|px: int, py: int|
                0 <= px < width && 0 <= py < height ==> #[trigger] tiles@[py * width + px] == (
                if rx <= px < rx + 20 && ry <= py < yy {
                    Tile { tile_type: TileType::Food, ..old(tiles)@[py * width + px] }
                } else {
                    old(tiles)@[py * width + px]
                }),
        decreases ry + 6 - yy,
    {
        let mut xx = rx;
        while xx < rx + 20
            invariant
                rx <= xx <= rx + 20,
                ry <= yy < ry + 6,
                proto_wf(tiles@, width as int, height as int, nest),
                forall|px: int, py: int|
                    0 <= px < width && 0 <= py < height ==> #[trigger] tiles@[py * width + px]
                        == (if (rx <= px < rx + 20 && ry <= py < yy) || (py == yy && rx <= px
                        < xx) {
                        Tile { tile_type: TileType::Food, ..old(tiles)@[py * width + px] }
                    } else {
                        old(tiles)@[py * width + px]
                    }),
            decreases rx + 20 - xx,
        {
            let q = Pos::new(xx, yy);
            proof {
                lemma_row_major_index(width as int, height as int, q);
            }
            let i: usize = (yy as usize) * (width as usize) + (xx as usize);
            tiles[i] = Tile::food(xx, yy);
            proof {
                assert forall|px: int, py: int| 0 <= px < width && 0 <= py < height implies {
                    &&& proto_tile_ok(#[trigger] tiles@[py * width + px], px, py, nest)
                    &&& tiles@[py * width + px] == (if (rx <= px < rx + 20 && ry <= py < yy) || (
                    py == yy && rx <= px < xx + 1) {
                        Tile { tile_type: TileType::Food, ..old(tiles)@[py * width + px] }
                    } else {
                        old(tiles)@[py * width + px]
                    })
                } by {
                    let w = Pos { x: px as i32, y: py as i32 };
                    lemma_row_major_index(width as int, height as int, w);
                    if w != q {
                        lemma_row_major_distinct(width as int, q, w);
                    }
                }
            }
            xx = xx + 1;
        }
        yy = yy + 1;
    }
}

/// A tile handed out by the neighbour query: an in-bounds tile of the grid,
/// adjacent to (and distinct from) the queried centre, equal to what the
/// grid stores at its position.
pub open spec fn neighbour_tile_ok(m: Grid, center: Pos, t: Tile) -> bool {
    &&& m.in_bounds(t.pos)
    &&& touches(center, t.pos)
    &&& t == m.tile_at(t.pos)
}

proof fn lemma_mul_step(a: int, b: int)
    by (nonlinear_arith)
    ensures
        (a + 1) * b == a * b + b,
{
}

proof fn lemma_mul_le(a: int, b: int, c: int)
    by (nonlinear_arith)
    requires
        a <= b,
        c >= 0,
    ensures
        a * c <= b * c,
{
}

proof fn lemma_mul_comm(a: int, b: int)
    by (nonlinear_arith)
    ensures
        a * b == b * a,
{
}

proof fn lemma_mul_small_range(rows: int, cols: int)
    by (nonlinear_arith)
    requires
        2 <= rows <= 3,
        2 <= cols <= 3,
    ensures
        4 <= rows * cols <= 9,
{
}

/// A row-major index stays inside a `width * height` grid.
proof fn lemma_row_major_index(width: int, height: int, p: Pos)
    by (nonlinear_arith)
    requires
        1 <= width <= 65536,
        1 <= height <= 65536,
        0 <= p.x < width,
        0 <= p.y < height,
    ensures
        0 <= p.y * width + p.x < width * height,
        width * height <= 0x100000000,
{
}

/// Distinct in-bounds positions have distinct row-major indices.
proof fn lemma_row_major_distinct(width: int, p: Pos, q: Pos)
    by (nonlinear_arith)
    requires
        1 <= width,
        0 <= p.x < width,
        0 <= q.x < width,
        p != q,
    ensures
        p.y * width + p.x != q.y * width + q.x,
{
}

} // verus!
