//! The grid: which points it holds, where they land on the screen, and
//! which of them collide.

use vstd::prelude::*;
use vstd::arithmetic::div_mod::lemma_multiply_divide_lt;
use crate::color::Color;
use crate::error::Error;
use crate::geom::{Vector, HALF_UNIT, UNIT};

verus! {

/// A scaled distance along one axis from which two points are too far
/// apart to collide on any screen.
const FAR: i128 = 0x10_0000_0000_0000;

/// A falling object: where it is, how fast it moves, and which colour it
/// is drawn in.
#[derive(Clone, Copy, Debug, PartialEq, Eq, Structural)]
pub struct Asteroid {
    /// Position in millionths of a cell.
    pub pos: Vector,
    /// Velocity in millionths of a cell per second.
    pub velocity: Vector,
    pub color: Color,
}

/// The distance covered in `micros` microseconds at `speed` millionths of a
/// cell per second, in millionths of a cell. A fraction of a millionth is
/// cut off, towards zero in either direction.
pub open spec fn travel(speed: i64, micros: u64) -> int {
    if speed >= 0 {
        speed * micros / (UNIT as int)
    } else {
        -((-speed) * micros / (UNIT as int))
    }
}

/// The coordinate nearest to `value` that the coordinate type can hold.
pub open spec fn clamped(value: int) -> i64 {
    if value < i64::MIN {
        i64::MIN
    } else if value > i64::MAX {
        i64::MAX
    } else {
        value as i64
    }
}

/// Where a coordinate `from` ends up after `micros` microseconds at `speed`.
pub open spec fn advanced(from: i64, speed: i64, micros: u64) -> i64 {
    clamped(from + travel(speed, micros))
}

/// Computes [`advanced`].
fn advance(from: i64, speed: i64, micros: u64) -> (to: i64)
    ensures
        to == advanced(from, speed, micros),
{
    assert(-0x8000_0000_0000_0000 * 0x1_0000_0000_0000_0000 <= speed * micros
        <= 0x8000_0000_0000_0000 * 0x1_0000_0000_0000_0000 - 1) by (nonlinear_arith)
        requires
            -0x8000_0000_0000_0000 <= speed < 0x8000_0000_0000_0000,
            0 <= micros < 0x1_0000_0000_0000_0000,
    ;
    assert((-speed) * micros == -(speed * micros)) by (nonlinear_arith);
    let covered: i128 = (speed as i128) * (micros as i128) / 1_000_000;
    assert(-0x8000_0000_0000_0000 * 0x1_0000_0000_0000_0000 <= covered
        <= 0x8000_0000_0000_0000 * 0x1_0000_0000_0000_0000);
    let to: i128 = (from as i128) + covered;
    if to < i64::MIN as i128 {
        i64::MIN
    } else if to > i64::MAX as i128 {
        i64::MAX
    } else {
        to as i64
    }
}

impl Asteroid {
    /// Where this asteroid is after `micros` microseconds of flight.
    pub open spec fn after(self, micros: u64) -> Asteroid {
        Asteroid {
            pos: Vector {
                x: advanced(self.pos.x, self.velocity.x, micros),
                y: advanced(self.pos.y, self.velocity.y, micros),
            },
            velocity: self.velocity,
            color: self.color,
        }
    }

    /// Moves the asteroid along its velocity for `time_delta` microseconds.
    /// The grid is not consulted: an asteroid may leave it.
    pub fn update(&mut self, time_delta: u64)
        ensures
            *final(self) == old(self).after(time_delta),
    {
        self.pos = Vector {
            x: advance(self.pos.x, self.velocity.x, time_delta),
            y: advance(self.pos.y, self.velocity.y, time_delta),
        };
    }
}

/// A square grid of `grid_size` cells per side laid over a screen of
/// `width` by `height` pixels.
///
/// One cell covers `width / grid_size` by `height / grid_size` pixels. That
/// tile size is never stored: what depends on it is computed from the three
/// numbers, without rounding in between.
///
/// A grid may be built with no cells at all. It then holds no point, and a
/// session refuses to start on it.
#[derive(Clone, Copy, Debug, PartialEq, Eq, Structural)]
pub struct Grid {
    /// Screen width in whole pixels.
    pub width: u32,
    /// Screen height in whole pixels.
    pub height: u32,
    /// Number of cells per side.
    pub grid_size: u32,
}

impl Grid {
    /// Whether `point` lies inside the grid: both coordinates in the
    /// half-open range from 0 to `grid_size` cells.
    pub open spec fn contains(self, point: Vector) -> bool {
        &&& 0 <= point.x < self.grid_size * UNIT
        &&& 0 <= point.y < self.grid_size * UNIT
    }

    /// The screen position that stands for `point` in a collision test,
    /// multiplied by `grid_size`. For a point of the grid that is the tile
    /// size times the point moved by half a cell; a point outside the grid
    /// stands for itself.
    pub open spec fn scaled(self, point: Vector) -> (int, int) {
        if self.contains(point) {
            (self.width * (point.x + HALF_UNIT), self.height * (point.y + HALF_UNIT))
        } else {
            (self.grid_size * point.x, self.grid_size * point.y)
        }
    }

    /// The size of one tile in millionths of a pixel, rounded down.
    pub open spec fn tile(self) -> Vector {
        Vector {
            x: (self.width * UNIT / (self.grid_size as int)) as i64,
            y: (self.height * UNIT / (self.grid_size as int)) as i64,
        }
    }

    /// The pixel at the centre of the tile that a point of the grid falls
    /// in, shifted by the point's offset within its cell: the tile size
    /// times the point moved by half a cell, rounded down to a millionth of
    /// a pixel.
    pub open spec fn screen_point(self, point: Vector) -> Vector {
        Vector {
            x: (self.width * (point.x + HALF_UNIT) / (self.grid_size as int)) as i64,
            y: (self.height * (point.y + HALF_UNIT) / (self.grid_size as int)) as i64,
        }
    }

    /// Whether `a` and `b` collide: the distance between their screen
    /// positions is strictly less than half the diagonal of a tile. Both
    /// sides are squared and multiplied by the square of `grid_size`, so
    /// nothing is divided or rounded.
    pub open spec fn collides(self, a: Vector, b: Vector) -> bool {
        let dx = self.scaled(a).0 - self.scaled(b).0;
        let dy = self.scaled(a).1 - self.scaled(b).1;
        4 * (dx * dx + dy * dy) < (self.width * self.width + self.height * self.height) * (UNIT
            * UNIT)
    }

    /// The grid of `grid` cells per side on a screen of `width` by `height`
    /// pixels.
    pub fn new(width: u32, height: u32, grid: u32) -> (g: Grid)
        ensures
            g.width == width,
            g.height == height,
            g.grid_size == grid,
    {
        Grid { width, height, grid_size: grid }
    }

    /// The size of one tile in millionths of a pixel, rounded down. A grid
    /// without cells has no tiles.
    pub fn tile_size(self) -> (tile: Result<Vector, Error>)
        ensures
            self.grid_size > 0 ==> tile == Ok::<Vector, Error>(self.tile()),
            self.grid_size == 0 ==> tile == Err::<Vector, Error>(Error::EmptyGrid),
    {
        if self.grid_size == 0 {
            return Err(Error::EmptyGrid);
        }
        let x = (self.width as i64) * UNIT / (self.grid_size as i64);
        let y = (self.height as i64) * UNIT / (self.grid_size as i64);
        Ok(Vector { x, y })
    }

    /// Checks whether a point is inside the grid.
    pub fn is_in(self, point: Vector) -> (inside: bool)
        ensures
            inside == self.contains(point),
    {
        let side: i64 = (self.grid_size as i64) * UNIT;
        point.x >= 0 && point.x < side && point.y >= 0 && point.y < side
    }

    /// Translates a point of the grid to screen pixels, centred in its tile.
    /// A point outside the grid has no pixel.
    pub fn translate_to_screen(self, point: Vector) -> (pixel: Result<Vector, Error>)
        ensures
            self.contains(point) ==> pixel == Ok::<Vector, Error>(self.screen_point(point)),
            !self.contains(point) ==> pixel == Err::<Vector, Error>(Error::OutOfBounds),
    {
        if !self.is_in(point) {
            return Err(Error::OutOfBounds);
        }
        let x = Self::centre(self.width, self.grid_size, point.x);
        let y = Self::centre(self.height, self.grid_size, point.y);
        Ok(Vector { x, y })
    }

    /// The pixel coordinate of a grid coordinate on one axis of `extent`
    /// pixels.
    fn centre(extent: u32, grid_size: u32, coordinate: i64) -> (pixel: i64)
        requires
            0 <= coordinate < grid_size * UNIT,
        ensures
            pixel == extent * (coordinate + HALF_UNIT) / (grid_size as int),
    {
        let shifted: i128 = (coordinate as i128) + (HALF_UNIT as i128);
        proof {
            lemma_pixel(extent, grid_size, coordinate);
            assert(0 <= extent * shifted <= 0x1_0000_0000 * 0x8000_0000_0000_0000)
                by (nonlinear_arith)
                requires
                    0 <= extent < 0x1_0000_0000,
                    0 <= shifted < 0x8000_0000_0000_0000,
            ;
        }
        let scaled: i128 = (extent as i128) * shifted;
        (scaled / (grid_size as i128)) as i64
    }

    /// Computes [`Grid::scaled`].
    fn scale(self, point: Vector) -> (scaled: (i128, i128))
        ensures
            scaled.0 == self.scaled(point).0,
            scaled.1 == self.scaled(point).1,
            -0x1_0000_0000 * 0x8000_0000_0000_0000 <= scaled.0 <= 0x1_0000_0000
                * 0x8000_0000_0000_0000,
            -0x1_0000_0000 * 0x8000_0000_0000_0000 <= scaled.1 <= 0x1_0000_0000
                * 0x8000_0000_0000_0000,
    {
        if self.is_in(point) {
            let x = Self::times(self.width, (point.x as i128) + (HALF_UNIT as i128));
            let y = Self::times(self.height, (point.y as i128) + (HALF_UNIT as i128));
            (x, y)
        } else {
            let x = Self::times(self.grid_size, point.x as i128);
            let y = Self::times(self.grid_size, point.y as i128);
            (x, y)
        }
    }

    /// The product of a count and a coordinate.
    fn times(count: u32, coordinate: i128) -> (product: i128)
        requires
            -0x8000_0000_0000_0000 <= coordinate <= 0x8000_0000_0000_0000,
        ensures
            product == count * coordinate,
            -0x1_0000_0000 * 0x8000_0000_0000_0000 <= product <= 0x1_0000_0000
                * 0x8000_0000_0000_0000,
    {
        assert(-0x1_0000_0000 * 0x8000_0000_0000_0000 <= count * coordinate <= 0x1_0000_0000
            * 0x8000_0000_0000_0000) by (nonlinear_arith)
            requires
                0 <= count < 0x1_0000_0000,
                -0x8000_0000_0000_0000 <= coordinate <= 0x8000_0000_0000_0000,
        ;
        (count as i128) * coordinate
    }

    /// Takes two points and checks whether they are close enough on the
    /// screen to touch. A point outside the grid is compared by its own
    /// coordinates, as if they were pixels.
    pub fn collide(self, a: Vector, b: Vector) -> (hit: bool)
        ensures
            hit == self.collides(a, b),
    {
        let first = self.scale(a);
        let second = self.scale(b);
        let dx: i128 = if first.0 >= second.0 {
            first.0 - second.0
        } else {
            second.0 - first.0
        };
        let dy: i128 = if first.1 >= second.1 {
            first.1 - second.1
        } else {
            second.1 - first.1
        };
        let w: i128 = self.width as i128;
        let h: i128 = self.height as i128;
        proof {
            let sx = self.scaled(a).0 - self.scaled(b).0;
            let sy = self.scaled(a).1 - self.scaled(b).1;
            assert(dx * dx == sx * sx) by (nonlinear_arith)
                requires
                    dx == sx || dx == -sx,
            ;
            assert(dy * dy == sy * sy) by (nonlinear_arith)
                requires
                    dy == sy || dy == -sy,
            ;
            assert(0 <= w * w + h * h <= 0x2_0000_0000_0000_0000) by (nonlinear_arith)
                requires
                    0 <= w < 0x1_0000_0000,
                    0 <= h < 0x1_0000_0000,
            ;
            assert((w * w + h * h) * (UNIT * UNIT) <= 0x2_0000_0000_0000_0000
                * 1_000_000_000_000) by (nonlinear_arith)
                requires
                    0 <= w * w + h * h <= 0x2_0000_0000_0000_0000,
                    UNIT * UNIT == 1_000_000_000_000,
            ;
            assert(0 <= dx * dx && 0 <= dy * dy) by (nonlinear_arith);
        }
        let reach: i128 = (w * w + h * h) * 1_000_000_000_000;
        if dx >= FAR || dy >= FAR {
            proof {
                if dx >= FAR {
                    assert(dx * dx >= FAR * FAR) by (nonlinear_arith)
                        requires
                            dx >= FAR,
                    ;
                } else {
                    assert(dy * dy >= FAR * FAR) by (nonlinear_arith)
                        requires
                            dy >= FAR,
                    ;
                }
            }
            return false;
        }
        proof {
            assert(dx * dx <= FAR * FAR) by (nonlinear_arith)
                requires
                    0 <= dx <= FAR,
            ;
            assert(dy * dy <= FAR * FAR) by (nonlinear_arith)
                requires
                    0 <= dy <= FAR,
            ;
        }
        4 * (dx * dx + dy * dy) < reach
    }
}

/// A collision does not depend on which point is named first.
pub proof fn lemma_collide_is_symmetric(grid: Grid, a: Vector, b: Vector)
    ensures
        grid.collides(a, b) == grid.collides(b, a),
{
    let dx = grid.scaled(a).0 - grid.scaled(b).0;
    let dy = grid.scaled(a).1 - grid.scaled(b).1;
    assert(dx * dx == (-dx) * (-dx) && dy * dy == (-dy) * (-dy)) by (nonlinear_arith);
}

/// On a screen that is not empty, every point collides with itself.
pub proof fn lemma_collide_is_reflexive(grid: Grid, point: Vector)
    requires
        grid.width > 0 || grid.height > 0,
    ensures
        grid.collides(point, point),
{
    assert((grid.width * grid.width + grid.height * grid.height) * (UNIT * UNIT) > 0)
        by (nonlinear_arith)
        requires
            grid.width >= 0,
            grid.height >= 0,
            grid.width > 0 || grid.height > 0,
            UNIT == 1_000_000,
    ;
}

/// Between two points of the grid, a collision depends on the screen and on
/// how far apart the points are in cells, not on the number of cells.
pub proof fn lemma_collide_on_grid(grid: Grid, a: Vector, b: Vector)
    requires
        grid.contains(a),
        grid.contains(b),
    ensures
        grid.collides(a, b) <==> 4 * (grid.width * grid.width * ((a.x - b.x) * (a.x - b.x))
            + grid.height * grid.height * ((a.y - b.y) * (a.y - b.y))) < (grid.width * grid.width
            + grid.height * grid.height) * (UNIT * UNIT),
{
    let w = grid.width as int;
    let h = grid.height as int;
    let dx = a.x - b.x;
    let dy = a.y - b.y;
    assert(w * (a.x + HALF_UNIT) - w * (b.x + HALF_UNIT) == w * dx) by (nonlinear_arith)
        requires
            dx == a.x - b.x,
    ;
    assert(h * (a.y + HALF_UNIT) - h * (b.y + HALF_UNIT) == h * dy) by (nonlinear_arith)
        requires
            dy == a.y - b.y,
    ;
    assert((w * dx) * (w * dx) == w * w * (dx * dx)) by (nonlinear_arith);
    assert((h * dy) * (h * dy) == h * h * (dy * dy)) by (nonlinear_arith);
}

/// On a screen that is not empty, two points of the grid that are less than
/// half a cell apart along each axis collide.
pub proof fn lemma_close_points_collide(grid: Grid, a: Vector, b: Vector)
    requires
        grid.contains(a),
        grid.contains(b),
        grid.width > 0 || grid.height > 0,
        -UNIT < 2 * (a.x - b.x) < UNIT,
        -UNIT < 2 * (a.y - b.y) < UNIT,
    ensures
        grid.collides(a, b),
{
    lemma_collide_on_grid(grid, a, b);
    let w = grid.width as int;
    let h = grid.height as int;
    let dx = a.x - b.x;
    let dy = a.y - b.y;
    let u = UNIT as int;
    assert(w * w + h * h > 0 && 0 <= w * w && 0 <= h * h) by (nonlinear_arith)
        requires
            w >= 0,
            h >= 0,
            w > 0 || h > 0,
    ;
    assert(4 * (dx * dx) <= (u - 1) * (u - 1)) by (nonlinear_arith)
        requires
            -u < 2 * dx < u,
    ;
    assert(4 * (dy * dy) <= (u - 1) * (u - 1)) by (nonlinear_arith)
        requires
            -u < 2 * dy < u,
    ;
    assert(4 * (w * w * (dx * dx) + h * h * (dy * dy)) <= (w * w + h * h) * ((u - 1) * (u - 1)))
        by (nonlinear_arith)
        requires
            4 * (dx * dx) <= (u - 1) * (u - 1),
            4 * (dy * dy) <= (u - 1) * (u - 1),
            0 <= w * w,
            0 <= h * h,
    ;
    assert((w * w + h * h) * ((u - 1) * (u - 1)) < (w * w + h * h) * (u * u)) by (nonlinear_arith)
        requires
            w * w + h * h > 0,
            u == 1_000_000,
    ;
}

/// On a square screen, two points of the grid that are a whole cell or more
/// apart along some axis do not collide.
pub proof fn lemma_distant_points_miss(grid: Grid, a: Vector, b: Vector)
    requires
        grid.contains(a),
        grid.contains(b),
        grid.width == grid.height,
        a.x - b.x >= UNIT || b.x - a.x >= UNIT || a.y - b.y >= UNIT || b.y - a.y >= UNIT,
    ensures
        !grid.collides(a, b),
{
    lemma_collide_on_grid(grid, a, b);
    let w = grid.width as int;
    let dx = a.x - b.x;
    let dy = a.y - b.y;
    let u = UNIT as int;
    assert(dx * dx + dy * dy >= u * u) by (nonlinear_arith)
        requires
            dx >= u || -dx >= u || dy >= u || -dy >= u,
            u > 0,
    ;
    assert(4 * (w * w * (dx * dx) + w * w * (dy * dy)) >= (w * w + w * w) * (u * u))
        by (nonlinear_arith)
        requires
            dx * dx + dy * dy >= u * u,
            w * w >= 0,
    ;
    assert(w * w >= 0) by (nonlinear_arith);
}

/// The pixel of a point of the grid is the point's scaled screen position
/// divided by `grid_size`, rounded down: the two differ by less than a
/// millionth of a pixel.
pub proof fn lemma_screen_point_rounds_down(grid: Grid, point: Vector)
    requires
        grid.contains(point),
    ensures
        grid.grid_size * grid.screen_point(point).x <= grid.scaled(point).0 < grid.grid_size * (
        grid.screen_point(point).x + 1),
        grid.grid_size * grid.screen_point(point).y <= grid.scaled(point).1 < grid.grid_size * (
        grid.screen_point(point).y + 1),
{
    lemma_pixel(grid.width, grid.grid_size, point.x);
    lemma_pixel(grid.height, grid.grid_size, point.y);
}

/// The corner of a cell of the grid is drawn inside the screen.
pub proof fn lemma_cell_is_drawn_on_screen(grid: Grid, column: u32, row: u32)
    requires
        column < grid.grid_size,
        row < grid.grid_size,
    ensures
        grid.contains(Vector { x: (column * UNIT) as i64, y: (row * UNIT) as i64 }),
        0 <= grid.screen_point(Vector { x: (column * UNIT) as i64, y: (row * UNIT) as i64 }).x
            <= grid.width * UNIT,
        0 <= grid.screen_point(Vector { x: (column * UNIT) as i64, y: (row * UNIT) as i64 }).y
            <= grid.height * UNIT,
{
    let g = grid.grid_size as int;
    let u = UNIT as int;
    assert(0 <= column * u < g * u && 0 <= row * u < g * u && g * u <= i64::MAX)
        by (nonlinear_arith)
        requires
            0 <= column < g,
            0 <= row < g,
            g <= u32::MAX,
            u == 1_000_000,
    ;
    lemma_cell_pixel(grid.width, grid.grid_size, column);
    lemma_cell_pixel(grid.height, grid.grid_size, row);
}

/// The pixel coordinate of a grid coordinate is its product with the
/// extent, divided by `grid_size`, rounded down, and fits the coordinate
/// type.
proof fn lemma_pixel(extent: u32, grid_size: u32, coordinate: i64)
    requires
        0 <= coordinate < grid_size * UNIT,
    ensures
        (extent * (coordinate + HALF_UNIT) / (grid_size as int)) as i64 == extent * (coordinate
            + HALF_UNIT) / (grid_size as int),
        grid_size * (extent * (coordinate + HALF_UNIT) / (grid_size as int)) <= extent * (
        coordinate + HALF_UNIT) < grid_size * (extent * (coordinate + HALF_UNIT) / (
        grid_size as int) + 1),
        0 <= extent * (coordinate + HALF_UNIT) / (grid_size as int),
{
    let g = grid_size as int;
    let n = extent * (coordinate + HALF_UNIT);
    let bound = extent * (UNIT + HALF_UNIT) + 1;
    assert(0 <= n < g * bound) by (nonlinear_arith)
        requires
            0 <= extent,
            1 <= g,
            0 <= coordinate < g * UNIT,
            HALF_UNIT == 500_000,
            UNIT == 1_000_000,
            n == extent * (coordinate + HALF_UNIT),
            bound == extent * (UNIT + HALF_UNIT) + 1,
    ;
    lemma_multiply_divide_lt(n, g, bound);
    vstd::arithmetic::div_mod::lemma_div_pos_is_pos(n, g);
    vstd::arithmetic::div_mod::lemma_fundamental_div_mod(n, g);
    vstd::arithmetic::div_mod::lemma_mod_bound(n, g);
    assert(g * (n / g + 1) == g * (n / g) + g) by (nonlinear_arith);
    assert(bound <= 0x1_0000_0000 * 1_500_000) by (nonlinear_arith)
        requires
            0 <= extent < 0x1_0000_0000,
            bound == extent * (UNIT + HALF_UNIT) + 1,
            HALF_UNIT == 500_000,
            UNIT == 1_000_000,
    ;
}

/// The pixel coordinate of the corner of a cell lies within the extent.
proof fn lemma_cell_pixel(extent: u32, grid_size: u32, cell: u32)
    requires
        cell < grid_size,
    ensures
        0 <= extent * (cell * UNIT + HALF_UNIT) / (grid_size as int) <= extent * UNIT,
        (cell * UNIT) as i64 == cell * UNIT,
        (extent * (cell * UNIT + HALF_UNIT) / (grid_size as int)) as i64 == extent * (cell * UNIT
            + HALF_UNIT) / (grid_size as int),
{
    let g = grid_size as int;
    let u = UNIT as int;
    let h = HALF_UNIT as int;
    let n = extent * (cell * u + h);
    assert(0 <= cell * u < g * u && g * u <= i64::MAX) by (nonlinear_arith)
        requires
            0 <= cell < g,
            g <= u32::MAX,
            u == 1_000_000,
    ;
    lemma_pixel(extent, grid_size, (cell * u) as i64);
    let q = n / g;
    assert(g * q <= n);
    assert(2 * n == extent * u * (2 * cell + 1)) by (nonlinear_arith)
        requires
            n == extent * (cell * u + h),
            u == 2 * h,
    ;
    assert(2 * g * q <= extent * u * (2 * cell + 1)) by (nonlinear_arith)
        requires
            g * q <= n,
            2 * n == extent * u * (2 * cell + 1),
    ;
    assert(q <= extent * u) by (nonlinear_arith)
        requires
            2 * g * q <= extent * u * (2 * cell + 1),
            0 <= cell < g,
            0 <= extent,
            0 < u,
            0 <= q,
    ;
}

} // verus!
