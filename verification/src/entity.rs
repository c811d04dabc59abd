//! Difficulty profiles and the waves they generate.

use vstd::prelude::*;
use rand::rngs::ThreadRng;
use crate::color::Color;
use crate::geom::UNIT;
use crate::grid::{Asteroid, Grid};
use crate::random::{choose_column, gen_range, thread_rng};
use crate::wave::{is_spread, lemma_wave_is_spread, wave_from, wave_of};

verus! {

/// A difficulty profile: how fast a wave falls and how much of the grid's
/// width it tries to fill.
#[derive(Clone, Copy, Debug, PartialEq, Eq)]
pub struct Level {
    pub color: Color,
    /// Lowest and highest speed of a wave, in millionths of a cell per
    /// second. Each wave draws one speed for all its asteroids.
    pub speed_range: (i64, i64),
    /// Lowest and highest share of the grid's width that a wave samples,
    /// in millionths.
    pub fill_ratio_range: (u32, u32),
}

/// What a draw from the range `low` to `high` may give: any value from
/// `low` up to but not including `high`, and `low` itself where the range
/// holds no such value.
pub open spec fn drawn_from(low: int, high: int, value: int) -> bool {
    if low < high {
        low <= value < high
    } else {
        value == low
    }
}

/// The number of columns sampled for a fill ratio of `ratio` millionths on
/// a grid `grid_size` cells wide: the product in whole cells, rounded down.
pub open spec fn sample_count(ratio: int, grid_size: int) -> int {
    ratio * grid_size / (UNIT as int)
}

/// Draws a value from the range `low` to `high`.
fn draw(rng: &mut ThreadRng, low: i64, high: i64) -> (value: i64)
    ensures
        drawn_from(low as int, high as int, value as int),
{
    if low < high {
        gen_range(rng, low, high)
    } else {
        low
    }
}

/// The columns of a grid `grid_size` cells wide, left to right.
fn all_columns(grid_size: u32) -> (columns: Vec<u32>)
    ensures
        columns@.len() == grid_size,
        forall|i: int| 0 <= i < grid_size ==> columns@[i] == i,
{
    let mut columns: Vec<u32> = Vec::new();
    let mut column: u32 = 0;
    while column < grid_size
        invariant
            column <= grid_size,
            columns@.len() == column,
            forall|i: int| 0 <= i < column ==> columns@[i] == i,
        decreases grid_size - column,
    {
        columns.push(column);
        column += 1;
    }
    columns
}

/// Computes the number of columns sampled for a fill ratio of `ratio`
/// millionths on a grid `grid_size` cells wide.
pub fn count_samples(ratio: u32, grid_size: u32) -> (count: u64)
    ensures
        count == sample_count(ratio as int, grid_size as int),
{
    assert(0 <= ratio * grid_size <= u64::MAX) by (nonlinear_arith)
        requires
            0 <= ratio <= u32::MAX,
            0 <= grid_size <= u32::MAX,
    ;
    (ratio as u64) * (grid_size as u64) / 1_000_000
}

impl Level {
    /// Whether neither range is inverted.
    pub open spec fn valid(self) -> bool {
        &&& self.speed_range.0 <= self.speed_range.1
        &&& self.fill_ratio_range.0 <= self.fill_ratio_range.1
    }

    /// Checks that neither range is inverted.
    pub fn is_valid(&self) -> (ok: bool)
        ensures
            ok == self.valid(),
    {
        self.speed_range.0 <= self.speed_range.1 && self.fill_ratio_range.0
            <= self.fill_ratio_range.1
    }

    /// Whether `ratio`, `speed` and `samples` are draws that this profile
    /// can make on `grid`: the ratio and the speed come from their ranges,
    /// and the samples are as many columns of the grid as the ratio asks.
    pub open spec fn draws(self, grid: Grid, ratio: int, speed: i64, samples: Seq<u32>) -> bool {
        &&& drawn_from(self.fill_ratio_range.0 as int, self.fill_ratio_range.1 as int, ratio)
        &&& drawn_from(self.speed_range.0 as int, self.speed_range.1 as int, speed as int)
        &&& samples.len() == sample_count(ratio, grid.grid_size as int)
        &&& forall|i: int| 0 <= i < samples.len() ==> samples[i] < grid.grid_size
    }

    /// Whether `wave` is a wave that this profile can generate on `grid`.
    pub open spec fn yields(self, grid: Grid, wave: Seq<Asteroid>) -> bool {
        exists|ratio: int, speed: i64, samples: Seq<u32>|
            #[trigger] self.draws(grid, ratio, speed, samples) && wave == wave_of(
                samples,
                speed,
                self.color,
            )
    }

    /// The most columns that a wave of this profile samples on `grid`.
    pub open spec fn most_samples(self, grid: Grid) -> int {
        if self.fill_ratio_range.0 <= self.fill_ratio_range.1 {
            sample_count(self.fill_ratio_range.1 as int, grid.grid_size as int)
        } else {
            sample_count(self.fill_ratio_range.0 as int, grid.grid_size as int)
        }
    }

    /// Generates one wave of asteroids for `grid`.
    ///
    /// A fill ratio and a speed are drawn from the profile's ranges, then
    /// as many columns as the ratio asks are sampled from the grid, with
    /// repetition. The wave is what [`wave_from`] makes of those samples.
    pub fn generate_wave(&self, grid: Grid) -> (wave: Vec<Asteroid>)
        ensures
            self.yields(grid, wave@),
            wave@.len() <= self.most_samples(grid),
            is_spread(wave@, grid.grid_size),
    {
        let mut rng = thread_rng();
        let (min, max) = self.fill_ratio_range;
        let ratio = draw(&mut rng, min as i64, max as i64) as u32;
        let asteroids_number = count_samples(ratio, grid.grid_size);

        let (v_min, v_max) = self.speed_range;
        let asteroids_speed = draw(&mut rng, v_min, v_max);

        let grid_positions = all_columns(grid.grid_size);
        let mut positions: Vec<u32> = Vec::new();
        let mut i: u64 = 0;
        proof {
            lemma_count_of_empty_grid(ratio as int, grid.grid_size as int);
        }
        while i < asteroids_number
            invariant
                i <= asteroids_number,
                asteroids_number > 0 ==> grid.grid_size > 0,
                positions@.len() == i,
                grid_positions@.len() == grid.grid_size,
                forall|k: int| 0 <= k < grid.grid_size ==> grid_positions@[k] == k,
                forall|k: int| 0 <= k < positions@.len() ==> positions@[k] < grid.grid_size,
            decreases asteroids_number - i,
        {
            match choose_column(&mut rng, &grid_positions) {
                Some(p) => positions.push(p),
                None => {},
            }
            i += 1;
        }
        let wave = wave_from(&positions, asteroids_speed, self.color);
        proof {
            assert(self.draws(grid, ratio as int, asteroids_speed, positions@));
            lemma_generated_wave(*self, grid, wave@);
        }
        wave
    }
}

/// The law of generated waves. A wave that a profile can generate on a
/// grid is spread along the grid's top row, holds no more asteroids than
/// the profile samples at most, and all its asteroids have the profile's
/// colour and fall straight down at one speed drawn from the profile's
/// range.
pub proof fn lemma_generated_wave(level: Level, grid: Grid, wave: Seq<Asteroid>)
    requires
        level.yields(grid, wave),
    ensures
        is_spread(wave, grid.grid_size),
        wave.len() <= level.most_samples(grid),
        forall|i: int|
            0 <= i < wave.len() ==> {
                let asteroid = #[trigger] wave[i];
                &&& asteroid.color == level.color
                &&& asteroid.velocity.x == 0
                &&& asteroid.velocity.y == wave[0].velocity.y
                &&& drawn_from(
                    level.speed_range.0 as int,
                    level.speed_range.1 as int,
                    asteroid.velocity.y as int,
                )
            },
{
    let (ratio, speed, samples) = choose|ratio: int, speed: i64, samples: Seq<u32>|
        #[trigger] level.draws(grid, ratio, speed, samples) && wave == wave_of(
            samples,
            speed,
            level.color,
        );
    lemma_wave_is_spread(samples, speed, level.color, grid.grid_size);
    let (low, high) = level.fill_ratio_range;
    lemma_count_is_monotonic(
        ratio,
        if low <= high {
            high as int
        } else {
            low as int
        },
        grid.grid_size as int,
    );
}

/// No column is sampled on a grid without columns.
proof fn lemma_count_of_empty_grid(ratio: int, grid_size: int)
    requires
        0 <= ratio,
        0 <= grid_size,
    ensures
        sample_count(ratio, grid_size) > 0 ==> grid_size > 0,
{
    if grid_size == 0 {
        assert(ratio * grid_size == 0) by (nonlinear_arith)
            requires
                grid_size == 0,
        ;
    }
}

/// A larger fill ratio never samples fewer columns.
proof fn lemma_count_is_monotonic(ratio: int, larger: int, grid_size: int)
    requires
        0 <= ratio <= larger,
        0 <= grid_size,
    ensures
        sample_count(ratio, grid_size) <= sample_count(larger, grid_size),
{
    assert(ratio * grid_size <= larger * grid_size) by (nonlinear_arith)
        requires
            0 <= ratio <= larger,
            0 <= grid_size,
    ;
    vstd::arithmetic::div_mod::lemma_div_is_ordered(
        ratio * grid_size,
        larger * grid_size,
        UNIT as int,
    );
}

/// The six standard profiles, easiest first.
pub open spec fn standard_levels() -> Seq<Level> {
    seq![
        Level {
            color: Color::White,
            speed_range: (1_500_000, 1_500_500),
            fill_ratio_range: (200_000, 250_000),
        },
        Level {
            color: Color::Red,
            speed_range: (1_800_000, 2_000_000),
            fill_ratio_range: (250_000, 270_000),
        },
        Level {
            color: Color::Indigo,
            speed_range: (2_000_000, 2_200_000),
            fill_ratio_range: (350_000, 400_000),
        },
        Level {
            color: Color::Orange,
            speed_range: (2_000_000, 2_100_000),
            fill_ratio_range: (440_000, 480_000),
        },
        Level {
            color: Color::Green,
            speed_range: (2_500_000, 3_500_000),
            fill_ratio_range: (300_000, 350_000),
        },
        Level {
            color: Color::Blue,
            speed_range: (3_000_000, 3_800_000),
            fill_ratio_range: (500_000, 710_000),
        },
    ]
}

/// Builds the table of the six standard profiles.
pub fn levels() -> (table: Vec<Level>)
    ensures
        table@ == standard_levels(),
{
    let mut table: Vec<Level> = Vec::new();
    table.push(
        Level {
            color: Color::White,
            speed_range: (1_500_000, 1_500_500),
            fill_ratio_range: (200_000, 250_000),
        },
    );
    table.push(
        Level {
            color: Color::Red,
            speed_range: (1_800_000, 2_000_000),
            fill_ratio_range: (250_000, 270_000),
        },
    );
    table.push(
        Level {
            color: Color::Indigo,
            speed_range: (2_000_000, 2_200_000),
            fill_ratio_range: (350_000, 400_000),
        },
    );
    table.push(
        Level {
            color: Color::Orange,
            speed_range: (2_000_000, 2_100_000),
            fill_ratio_range: (440_000, 480_000),
        },
    );
    table.push(
        Level {
            color: Color::Green,
            speed_range: (2_500_000, 3_500_000),
            fill_ratio_range: (300_000, 350_000),
        },
    );
    table.push(
        Level {
            color: Color::Blue,
            speed_range: (3_000_000, 3_800_000),
            fill_ratio_range: (500_000, 710_000),
        },
    );
    table
}

/// Every standard profile is valid.
pub proof fn lemma_standard_levels_valid()
    ensures
        standard_levels().len() == 6,
        forall|i: int| 0 <= i < 6 ==> (#[trigger] standard_levels()[i]).valid(),
{
}

} // verus!
