//! The backdrop: a field of floor tiles with a wall around it.

use vstd::prelude::*;
use crate::color::Color;
use crate::geom::{Vector, UNIT};

verus! {

/// One tile of the backdrop.
#[derive(Clone, Copy, Debug, PartialEq, Eq, Structural)]
pub struct Tile {
    pub pos: Vector,
    pub glyph: char,
    pub color: Color,
}

/// The number of whole cells in a length given in millionths of a cell. A
/// negative length holds none.
pub open spec fn whole_cells(length: i64) -> int {
    if length <= 0 {
        0
    } else {
        length as int / UNIT as int
    }
}

/// The tile in column `x` and row `y` of a map `width` by `height` tiles
/// large: a wall on the outermost columns and rows, floor elsewhere.
pub open spec fn tile_at(x: int, y: int, width: int, height: int) -> Tile {
    Tile {
        pos: Vector { x: (x * UNIT) as i64, y: (y * UNIT) as i64 },
        glyph: if x == 0 || x == width - 1 || y == 0 || y == height - 1 {
            '#'
        } else {
            '.'
        },
        color: Color::Black,
    }
}

/// Whether `map` is the map of `width` by `height` tiles, column by column.
pub open spec fn is_map(map: Seq<Tile>, width: int, height: int) -> bool {
    &&& map.len() == width * height
    &&& forall|x: int, y: int|
        0 <= x < width && 0 <= y < height ==> map[x * height + y] == #[trigger] tile_at(
            x,
            y,
            width,
            height,
        )
}

/// Where the tile of column `x` and row `y` stands in a map, seen from the
/// fill line at column `filled`, row `row`.
proof fn lemma_tile_index(x: int, y: int, filled: int, row: int, height: int)
    by (nonlinear_arith)
    requires
        0 <= x,
        0 <= y < height,
        0 <= row <= height,
        x < filled || (x == filled && y < row),
    ensures
        0 <= x * height + y < filled * height + row,
{
}

/// Generates the map for a field of `size`: one tile for every whole cell,
/// column by column from the left, each column from the top.
pub fn generate_map(size: Vector) -> (map: Vec<Tile>)
    requires
        whole_cells(size.x) * whole_cells(size.y) <= usize::MAX,
    ensures
        is_map(map@, whole_cells(size.x), whole_cells(size.y)),
{
    let width: i64 = if size.x <= 0 { 0 } else { size.x / UNIT };
    let height: i64 = if size.y <= 0 { 0 } else { size.y / UNIT };
    let mut map: Vec<Tile> = Vec::new();
    let mut x: i64 = 0;
    while x < width
        invariant
            0 <= x <= width,
            0 <= height,
            width * UNIT <= i64::MAX,
            height * UNIT <= i64::MAX,
            map@.len() == x * height,
            forall|i: int, j: int|
                0 <= i < x && 0 <= j < height ==> map@[i * height + j] == #[trigger] tile_at(
                    i,
                    j,
                    width as int,
                    height as int,
                ),
        decreases width - x,
    {
        let mut y: i64 = 0;
        while y < height
            invariant
                0 <= x < width,
                0 <= y <= height,
                width * UNIT <= i64::MAX,
                height * UNIT <= i64::MAX,
                map@.len() == x * height + y,
                forall|i: int, j: int|
                    0 <= i && 0 <= j < height && (i < x || (i == x && j < y)) ==> map@[i * height
                        + j] == #[trigger] tile_at(i, j, width as int, height as int),
            decreases height - y,
        {
            let mut tile = Tile {
                pos: Vector { x: x * UNIT, y: y * UNIT },
                glyph: '.',
                color: Color::Black,
            };
            if x == 0 || x == width - 1 || y == 0 || y == height - 1 {
                tile.glyph = '#';
            }
            let ghost before = map@;
            map.push(tile);
            proof {
                assert forall|i: int, j: int|
                    0 <= i && 0 <= j < height && (i < x || (i == x && j < y + 1)) implies map@[i
                    * height + j] == #[trigger] tile_at(i, j, width as int, height as int) by {
                    if i == x && j == y {
                    } else {
                        lemma_tile_index(i, j, x as int, y as int, height as int);
                        assert(map@[i * height + j] == before[i * height + j]);
                    }
                }
            }
            y += 1;
        }
        proof {
            assert((x + 1) * height == x * height + height) by (nonlinear_arith);
        }
        x += 1;
    }
    map
}

} // verus!
