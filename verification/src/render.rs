//! A plain-text renderer: the grid and the ants as rows of characters.

use vstd::prelude::*;

use crate::colony::AntCollection;
use crate::map::{Grid, Pos};

verus! {

/// Relies on `String::push`: appends exactly one character at the end.
#[verifier::external_body]
fn push_char(s: &mut String, c: char)
    ensures
        final(s)@ == old(s)@.push(c),
{
    s.push(c)
}

/// True when `pos`, in coordinates centred on the middle of the area,
/// falls inside a `width` by `height` viewport.
pub fn pos_inside_area(pos: Pos, width: i32, height: i32) -> (r: bool)
    requires
        0 <= width <= crate::map::MAX_EDGE,
        0 <= height <= crate::map::MAX_EDGE,
    ensures
        r == (-(width / 2) <= pos.x < width / 2 && -(height / 2) <= pos.y < height / 2),
{
    let max_x = width / 2;
    let max_y = height / 2;
    (pos.x < max_x && pos.x >= -max_x) && (pos.y < max_y && pos.y >= -max_y)
}

/// The code points Unicode marks as white space: the blank characters a
/// map layer lets the ant layer show through.
pub open spec fn whitespace_char(c: char) -> bool {
    ||| 0x9 <= c as int <= 0xD
    ||| c as int == 0x20
    ||| c as int == 0x85
    ||| c as int == 0xA0
    ||| c as int == 0x1680
    ||| 0x2000 <= c as int <= 0x200A
    ||| c as int == 0x2028
    ||| c as int == 0x2029
    ||| c as int == 0x202F
    ||| c as int == 0x205F
    ||| c as int == 0x3000
}

/// Decides `whitespace_char`.
pub fn is_whitespace_char(c: char) -> (r: bool)
    ensures
        r == whitespace_char(c),
{
    let u = c as u32;
    (9 <= u && u <= 13) || u == 0x20 || u == 0x85 || u == 0xA0 || u == 0x1680 || (0x2000 <= u && u
        <= 0x200A) || u == 0x2028 || u == 0x2029 || u == 0x202F || u == 0x205F || u == 0x3000
}

/// The character a monochrome display uses for a pheromone concentration:
/// denser concentrations map to denser glyphs.
pub fn grey_scale(amount: i32) -> (r: char)
    ensures
        r == grey_scale_spec(amount as int),
{
    if amount >= 800 {
        '#'
    } else if amount >= 600 {
        '%'
    } else if amount >= 450 {
        '+'
    } else if amount >= 300 {
        '='
    } else if amount >= 150 {
        '-'
    } else if amount >= 100 {
        ':'
    } else {
        '.'
    }
}

pub open spec fn grey_scale_spec(amount: int) -> char {
    if amount >= 800 {
        '#'
    } else if amount >= 600 {
        '%'
    } else if amount >= 450 {
        '+'
    } else if amount >= 300 {
        '='
    } else if amount >= 150 {
        '-'
    } else if amount >= 100 {
        ':'
    } else {
        '.'
    }
}

/// Renders the grid and the ants with one fixed character per element.
pub struct PrintRenderer {
    anthill: char,
    food: char,
    obstacle: char,
    ant: char,
}

impl PrintRenderer {
    pub closed spec fn ant_char(self) -> char {
        self.ant
    }

    pub fn new(anthill: char, food: char, obstacle: char, ant: char) -> (r: PrintRenderer)
        ensures
            r.ant_char() == ant,
    {
        Self { anthill, food, obstacle, ant }
    }

    /// One row of characters per grid row, one tile character per tile.
    #[verifier::loop_isolation(false)]
    pub fn render_map(&self, map: &Grid) -> (r: Vec<String>)
        requires
            map.wf(),
        ensures
            r@.len() == map.spec_height(),
            forall|y: int|
                0 <= y < map.spec_height() ==> (#[trigger] r@[y])@.len() == map.spec_width(),
            forall|y: int, x: int|
                0 <= y < map.spec_height() && 0 <= x < map.spec_width() ==> (#[trigger] (
                r@[y]@[x])) == map.tile_at(Pos { x: x as i32, y: y as i32 }).tile_type.char_spec(),
    {
        let mut rows: Vec<String> = Vec::new();
        let mut y: i32 = 0;
        while y < map.height()
            invariant
                0 <= y <= map.spec_height(),
                rows@.len() == y,
                forall|yy: int| 0 <= yy < y ==> (#[trigger] rows@[yy])@.len() == map.spec_width(),
                forall|yy: int, x: int|
                    0 <= yy < y && 0 <= x < map.spec_width() ==> (#[trigger] (rows@[yy]@[x]))
                        == map.tile_at(Pos { x: x as i32, y: yy as i32 }).tile_type.char_spec(),
            decreases map.spec_height() - y,
        {
            let mut row = String::new();
            let mut x: i32 = 0;
            while x < map.width()
                invariant
                    0 <= x <= map.spec_width(),
                    0 <= y < map.spec_height(),
                    row@.len() == x,
                    forall|xx: int|
                        0 <= xx < x ==> row@[xx] == map.tile_at(
                            Pos { x: xx as i32, y: y as i32 },
                        ).tile_type.char_spec(),
                decreases map.spec_width() - x,
            {
                let c = map.get_xy(x, y).char();
                push_char(&mut row, c);
                x = x + 1;
            }
            rows.push(row);
            y = y + 1;
        }
        rows
    }

    /// A layer of the ants alone: spaces everywhere except the ant
    /// character, which stands at every in-viewport ant's position and
    /// nowhere else.
    #[verifier::loop_isolation(false)]
    pub fn render_ants(&self, ants: &AntCollection, width: i32, height: i32) -> (r: Vec<String>)
        requires
            ants.wf(),
            0 <= width <= crate::map::MAX_EDGE,
            0 <= height <= crate::map::MAX_EDGE,
        ensures
            r@.len() == height,
            forall|y: int| 0 <= y < height ==> (#[trigger] r@[y])@.len() == width,
            forall|y: int, x: int|
                0 <= y < height && 0 <= x < width ==> ((#[trigger] (r@[y]@[x])) == ' ' || r@[y]@[x]
                    == self.ant_char()),
            forall|i: int|
                0 <= i < ants.spec_len() && 0 <= (#[trigger] ants.position@[i]).x < width && 0
                    <= ants.position@[i].y < height ==> r@[ants.position@[i].y as int]@[ants.position@[i].x as int]
                    == self.ant_char(),
            forall|y: int, x: int|
                0 <= y < height && 0 <= x < width && (#[trigger] (r@[y]@[x])) != ' ' ==> exists|
                    i: int,
                |
                    0 <= i < ants.spec_len() && ants.position@[i] == (Pos {
                        x: x as i32,
                        y: y as i32,
                    }),
    {
        let mut grid: Vec<Vec<char>> = Vec::new();
        let mut y: i32 = 0;
        while y < height
            invariant
                0 <= y <= height,
                grid@.len() == y,
                forall|yy: int| 0 <= yy < y ==> (#[trigger] grid@[yy])@.len() == width,
                forall|yy: int, x: int|
                    0 <= yy < y && 0 <= x < width ==> (#[trigger] (grid@[yy]@[x])) == ' ',
            decreases height - y,
        {
            let mut row: Vec<char> = Vec::new();
            let mut x: i32 = 0;
            while x < width
                invariant
                    0 <= x <= width,
                    row@.len() == x,
                    forall|xx: int| 0 <= xx < x ==> row@[xx] == ' ',
                decreases width - x,
            {
                row.push(' ');
                x = x + 1;
            }
            grid.push(row);
            y = y + 1;
        }

        let mut i: usize = 0;
        while i < ants.position.len()
            invariant
                0 <= i <= ants.spec_len(),
                grid@.len() == height,
                forall|yy: int| 0 <= yy < height ==> (#[trigger] grid@[yy])@.len() == width,
                forall|yy: int, x: int|
                    0 <= yy < height && 0 <= x < width ==> ((#[trigger] (grid@[yy]@[x])) == ' '
                        || grid@[yy]@[x] == self.ant_char()),
                forall|j: int|
                    0 <= j < i && 0 <= (#[trigger] ants.position@[j]).x < width && 0
                        <= ants.position@[j].y < height
                        ==> grid@[ants.position@[j].y as int]@[ants.position@[j].x as int]
                        == self.ant_char(),
                forall|yy: int, x: int|
                    0 <= yy < height && 0 <= x < width && (#[trigger] (grid@[yy]@[x])) != ' '
                        ==> exists|j: int|
                        0 <= j < i && ants.position@[j] == (Pos { x: x as i32, y: yy as i32 }),
            decreases ants.spec_len() - i,
        {
            let ghost pre = grid@;
            let p = ants.position[i];
            if 0 <= p.x && p.x < width && 0 <= p.y && p.y < height {
                let yi = p.y as usize;
                let xi = p.x as usize;
                let row = &mut grid[yi];
                row[xi] = self.ant;
            }
            proof {
                assert forall|yy: int, x: int|
                    0 <= yy < height && 0 <= x < width && (#[trigger] (grid@[yy]@[x]))
                        != ' ' implies exists|j: int|
                    0 <= j < i + 1 && ants.position@[j] == (Pos { x: x as i32, y: yy as i32 }) by {
                    if 0 <= p.x < width && 0 <= p.y < height && yy == p.y && x == p.x {
                        assert(ants.position@[i as int] == (Pos { x: x as i32, y: yy as i32 }));
                    } else {
                        assert(grid@[yy]@[x] == pre[yy]@[x]);
                        let j = choose|j: int|
                            0 <= j < i && ants.position@[j] == (Pos { x: x as i32, y: yy as i32 });
                        assert(0 <= j < i + 1 && ants.position@[j] == (Pos {
                            x: x as i32,
                            y: yy as i32,
                        }));
                    }
                }
            }
            i = i + 1;
        }

        let mut rows: Vec<String> = Vec::new();
        let mut y2: i32 = 0;
        while y2 < height
            invariant
                0 <= y2 <= height,
                rows@.len() == y2,
                grid@.len() == height,
                forall|yy: int| 0 <= yy < height ==> (#[trigger] grid@[yy])@.len() == width,
                forall|yy: int| 0 <= yy < y2 ==> (#[trigger] rows@[yy])@ == grid@[yy]@,
            decreases height - y2,
        {
            let mut row = String::new();
            let mut x: i32 = 0;
            while x < width
                invariant
                    0 <= x <= width,
                    0 <= y2 < height,
                    row@.len() == x,
                    grid@.len() == height,
                    forall|yy: int| 0 <= yy < height ==> (#[trigger] grid@[yy])@.len() == width,
                    forall|xx: int| 0 <= xx < x ==> row@[xx] == grid@[y2 as int]@[xx],
                decreases width - x,
            {
                let c = grid[y2 as usize][x as usize];
                push_char(&mut row, c);
                x = x + 1;
            }
            proof {
                assert(row@ =~= grid@[y2 as int]@);
            }
            rows.push(row);
            y2 = y2 + 1;
        }
        rows
    }

    /// Merges two layers, truncated to the shorter one on both axes: where
    /// the map layer shows a whitespace character, the ant layer shows
    /// through.
    #[verifier::loop_isolation(false)]
    pub fn process_string_layers(&self, map_layer: Vec<String>, ant_layer: Vec<String>) -> (r: Vec<
        String,
    >)
        ensures
            r@.len() == vstd::math::min(map_layer@.len() as int, ant_layer@.len() as int),
            forall|y: int|
                0 <= y < r@.len() ==> (#[trigger] r@[y])@.len() == vstd::math::min(
                    map_layer@[y]@.len() as int,
                    ant_layer@[y]@.len() as int,
                ),
            forall|y: int, x: int|
                0 <= y < r@.len() && 0 <= x < r@[y]@.len() ==> (#[trigger] (r@[y]@[x])) == (
                if whitespace_char(map_layer@[y]@[x]) {
                    ant_layer@[y]@[x]
                } else {
                    map_layer@[y]@[x]
                }),
    {
        let ylen = if map_layer.len() < ant_layer.len() {
            map_layer.len()
        } else {
            ant_layer.len()
        };
        let mut merged: Vec<String> = Vec::new();
        let mut y: usize = 0;
        while y < ylen
            invariant
                0 <= y <= ylen,
                ylen == vstd::math::min(map_layer@.len() as int, ant_layer@.len() as int),
                merged@.len() == y,
                forall|yy: int|
                    0 <= yy < y ==> (#[trigger] merged@[yy])@.len() == vstd::math::min(
                        map_layer@[yy]@.len() as int,
                        ant_layer@[yy]@.len() as int,
                    ),
                forall|yy: int, x: int|
                    0 <= yy < y && 0 <= x < merged@[yy]@.len() ==> (#[trigger] (merged@[yy]@[x]))
                        == (if whitespace_char(map_layer@[yy]@[x]) {
                        ant_layer@[yy]@[x]
                    } else {
                        map_layer@[yy]@[x]
                    }),
            decreases ylen - y,
        {
            let ml = &map_layer[y];
            let al = &ant_layer[y];
            let mut row = String::new();
            let mut x: usize = 0;
            let mlen = ml.unicode_len();
            let alen = al.unicode_len();
            let xlen = if mlen < alen {
                mlen
            } else {
                alen
            };
            while x < xlen
                invariant
                    0 <= x <= xlen,
                    xlen == vstd::math::min(ml@.len() as int, al@.len() as int),
                    0 <= y < map_layer@.len(),
                    0 <= y < ant_layer@.len(),
                    ml@ == map_layer@[y as int]@,
                    al@ == ant_layer@[y as int]@,
                    row@.len() == x,
                    forall|xx: int|
                        0 <= xx < x ==> row@[xx] == (if whitespace_char(ml@[xx]) {
                            al@[xx]
                        } else {
                            ml@[xx]
                        }),
                decreases xlen - x,
            {
                let mc = ml.get_char(x);
                let ac = al.get_char(x);
                if is_whitespace_char(mc) {
                    push_char(&mut row, ac);
                } else {
                    push_char(&mut row, mc);
                }
                x = x + 1;
            }
            merged.push(row);
            y = y + 1;
        }
        merged
    }

    /// Renders the map with the ants drawn over its blank tiles: each cell
    /// shows its tile's character, except that an ant on a blank tile shows
    /// through.
    pub fn render(&self, map: &Grid, ants: &AntCollection) -> (r: Vec<String>)
        requires
            map.wf(),
            ants.wf(),
        ensures
            r@.len() == map.spec_height(),
            forall|y: int|
                0 <= y < map.spec_height() ==> (#[trigger] r@[y])@.len() == map.spec_width(),
            forall|y: int, x: int|
                0 <= y < map.spec_height() && 0 <= x < map.spec_width() && map.tile_at(
                    Pos { x: x as i32, y: y as i32 },
                ).tile_type.char_spec() != ' ' ==> (#[trigger] (r@[y]@[x])) == map.tile_at(
                    Pos { x: x as i32, y: y as i32 },
                ).tile_type.char_spec(),
            forall|i: int|
                0 <= i < ants.spec_len() && map.in_bounds(#[trigger] ants.position@[i])
                    && map.tile_at(ants.position@[i]).tile_type.char_spec() == ' '
                    ==> r@[ants.position@[i].y as int]@[ants.position@[i].x as int]
                    == self.ant_char(),
    {
        let map_layer = self.render_map(map);
        let ant_layer = self.render_ants(ants, map.width(), map.height());
        self.process_string_layers(map_layer, ant_layer)
    }
}

} // verus!
