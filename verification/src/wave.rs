//! Placement of one wave of asteroids along the top row of the grid.
//!
//! A wave starts from a list of sampled columns, which may repeat and may
//! touch. The columns are put in ascending order, every column that has a
//! neighbour within one column of it is dropped, and one asteroid is emitted
//! for each column that is left.

use vstd::prelude::*;
use vstd::relations::{sorted_by, total_ordering};
use vstd::seq_lib::{group_to_multiset_ensures, lemma_sorted_unique};
use crate::color::Color;
use crate::geom::{Vector, UNIT};
use crate::grid::Asteroid;

verus! {

/// The order on columns by which a wave is sorted.
pub open spec fn column_leq() -> spec_fn(u32, u32) -> bool {
    |a: u32, b: u32| a <= b
}

/// The columns of `samples` in ascending order, repetitions kept.
pub open spec fn ascending(samples: Seq<u32>) -> Seq<u32> {
    samples.sort_by(column_leq())
}

/// Whether two columns are more than one column apart.
pub open spec fn apart(a: u32, b: u32) -> bool {
    a - b > 1 || b - a > 1
}

/// Whether the column at index `i` of `columns` is kept: it is more than
/// one column away from the column before it and from the column after it.
/// The first column has nothing before it and the last nothing after it, so
/// on that side they always pass.
pub open spec fn keeps(columns: Seq<u32>, i: int) -> bool {
    &&& i == 0 || apart(columns[i], columns[i - 1])
    &&& i == columns.len() - 1 || apart(columns[i], columns[i + 1])
}

/// The kept columns among the first `n` of `columns`, in their order.
pub open spec fn isolated_prefix(columns: Seq<u32>, n: int) -> Seq<u32>
    decreases n,
{
    if n <= 0 {
        Seq::empty()
    } else if keeps(columns, n - 1) {
        isolated_prefix(columns, n - 1).push(columns[n - 1])
    } else {
        isolated_prefix(columns, n - 1)
    }
}

/// The columns of `columns` that have no neighbour within one column.
pub open spec fn isolated(columns: Seq<u32>) -> Seq<u32> {
    isolated_prefix(columns, columns.len() as int)
}

/// The asteroid spawned at the top of `column`, falling at `speed`.
pub open spec fn asteroid_at(column: u32, speed: i64, color: Color) -> Asteroid {
    Asteroid {
        pos: Vector { x: (column * UNIT) as i64, y: 0 },
        velocity: Vector { x: 0, y: speed },
        color,
    }
}

/// One asteroid per column, in the order of `columns`.
pub open spec fn spawned(columns: Seq<u32>, speed: i64, color: Color) -> Seq<Asteroid> {
    Seq::new(columns.len(), |i: int| asteroid_at(columns[i], speed, color))
}

/// The wave that comes out of the sampled columns `samples`.
pub open spec fn wave_of(samples: Seq<u32>, speed: i64, color: Color) -> Seq<Asteroid> {
    spawned(isolated(ascending(samples)), speed, color)
}

proof fn lemma_column_leq_total()
    ensures
        total_ordering(column_leq()),
{
}

/// What [`ascending`] is: the one sequence that holds the columns of
/// `samples`, each as often as `samples` does, with no column before a
/// smaller one.
pub proof fn lemma_ascending(samples: Seq<u32>, other: Seq<u32>)
    ensures
        sorted_by(ascending(samples), column_leq()),
        ascending(samples).to_multiset() == samples.to_multiset(),
        ascending(samples).len() == samples.len(),
        sorted_by(other, column_leq()) && other.to_multiset() == samples.to_multiset() ==> other
            == ascending(samples),
{
    lemma_column_leq_total();
    samples.lemma_sort_by_ensures(column_leq());
    vstd::seq_lib::to_multiset_len(ascending(samples));
    vstd::seq_lib::to_multiset_len(samples);
    if sorted_by(other, column_leq()) && other.to_multiset() == samples.to_multiset() {
        lemma_sorted_unique(other, ascending(samples), column_leq());
    }
}

/// Sorts `samples` into ascending order.
pub fn sort_columns(samples: &Vec<u32>) -> (sorted: Vec<u32>)
    ensures
        sorted@ == ascending(samples@),
        sorted_by(sorted@, column_leq()),
        sorted@.to_multiset() == samples@.to_multiset(),
{
    let mut sorted: Vec<u32> = Vec::new();
    let mut k: usize = 0;
    assert(samples@.take(0) == sorted@);
    while k < samples.len()
        invariant
            k <= samples.len(),
            sorted_by(sorted@, column_leq()),
            sorted@.to_multiset() == samples@.take(k as int).to_multiset(),
        decreases samples.len() - k,
    {
        let x = samples[k];
        let mut j: usize = sorted.len();
        while j > 0 && sorted[j - 1] > x
            invariant
                j <= sorted.len(),
                forall|t: int| j <= t < sorted.len() ==> sorted[t] > x,
            decreases j,
        {
            j -= 1;
        }
        proof {
            broadcast use group_to_multiset_ensures;
            assert(samples@.take(k + 1) == samples@.take(k as int).push(x));
        }
        let ghost before = sorted@;
        sorted.insert(j, x);
        assert(sorted_by(sorted@, column_leq())) by {
            assert forall|a: int, b: int| 0 <= a < b < sorted@.len() implies sorted@[a]
                <= sorted@[b] by {
                let a0 = if a < j { a } else { a - 1 };
                let b0 = if b < j { b } else { b - 1 };
                if a != j && b != j {
                    assert(column_leq()(before[a0], before[b0]));
                } else if a == j {
                    assert(before[b0] > x);
                } else {
                    if j > 0 {
                        assert(a0 <= j - 1);
                        if a0 < j - 1 {
                            assert(column_leq()(before[a0], before[j - 1]));
                        }
                    }
                }
            }
        }
        k += 1;
    }
    proof {
        assert(samples@.take(k as int) == samples@);
        lemma_ascending(samples@, sorted@);
    }
    sorted
}

/// Whether the columns `a` and `b` are more than one column apart.
fn columns_apart(a: u32, b: u32) -> (yes: bool)
    ensures
        yes == apart(a, b),
{
    if a >= b {
        a - b > 1
    } else {
        b - a > 1
    }
}

/// Drops every column that has a neighbour within one column of it.
pub fn isolate(columns: &Vec<u32>) -> (kept: Vec<u32>)
    ensures
        kept@ == isolated(columns@),
{
    let n = columns.len();
    let mut kept: Vec<u32> = Vec::new();
    let mut i: usize = 0;
    while i < n
        invariant
            n == columns.len(),
            i <= n,
            kept@ == isolated_prefix(columns@, i as int),
        decreases n - i,
    {
        let x = columns[i];
        let clear_before = i == 0 || columns_apart(x, columns[i - 1]);
        let clear_after = i == n - 1 || columns_apart(x, columns[i + 1]);
        if clear_before && clear_after {
            kept.push(x);
        }
        i += 1;
    }
    kept
}

/// Emits one asteroid at the top of each of `columns`, all falling at
/// `speed` and all of colour `color`.
pub fn spawn(columns: &Vec<u32>, speed: i64, color: Color) -> (wave: Vec<Asteroid>)
    ensures
        wave@ == spawned(columns@, speed, color),
{
    let mut wave: Vec<Asteroid> = Vec::new();
    let mut i: usize = 0;
    while i < columns.len()
        invariant
            i <= columns.len(),
            wave@.len() == i,
            forall|k: int| 0 <= k < i ==> wave@[k] == asteroid_at(columns@[k], speed, color),
        decreases columns.len() - i,
    {
        let column = columns[i];
        assert(0 <= column * UNIT <= i64::MAX) by (nonlinear_arith)
            requires
                0 <= column <= u32::MAX,
                UNIT == 1_000_000,
        ;
        wave.push(
            Asteroid {
                pos: Vector { x: (column as i64) * UNIT, y: 0 },
                velocity: Vector { x: 0, y: speed },
                color,
            },
        );
        i += 1;
    }
    wave
}

/// Builds the wave for the sampled columns `samples`: sorts them, drops the
/// crowded ones, and emits an asteroid for each column that is left.
pub fn wave_from(samples: &Vec<u32>, speed: i64, color: Color) -> (wave: Vec<Asteroid>)
    ensures
        wave@ == wave_of(samples@, speed, color),
{
    let sorted = sort_columns(samples);
    let kept = isolate(&sorted);
    spawn(&kept, speed, color)
}

/// Whether `column` stands among the first `n` of `columns`.
spec fn among(columns: Seq<u32>, n: int, column: u32) -> bool {
    exists|k: int| 0 <= k < n && #[trigger] columns[k] == column
}

/// What is kept of the first `n` columns of an ascending sequence: no more
/// than `n` columns, each taken from those `n`, and any two of them more
/// than one column apart.
proof fn lemma_isolated_prefix(columns: Seq<u32>, n: int)
    requires
        sorted_by(columns, column_leq()),
        0 <= n <= columns.len(),
    ensures
        isolated_prefix(columns, n).len() <= n,
        forall|i: int|
            0 <= i < isolated_prefix(columns, n).len() ==> among(
                columns,
                n,
                #[trigger] isolated_prefix(columns, n)[i],
            ),
        forall|i: int, j: int|
            0 <= i < j < isolated_prefix(columns, n).len() ==> isolated_prefix(columns, n)[j]
                - isolated_prefix(columns, n)[i] > 1,
    decreases n,
{
    if n > 0 {
        lemma_isolated_prefix(columns, n - 1);
        let before = isolated_prefix(columns, n - 1);
        let all = isolated_prefix(columns, n);
        if keeps(columns, n - 1) {
            assert forall|i: int| 0 <= i < all.len() implies among(
                columns,
                n,
                #[trigger] all[i],
            ) by {
                if i < before.len() {
                    assert(among(columns, n - 1, before[i]));
                    let k = choose|k: int| 0 <= k < n - 1 && #[trigger] columns[k] == before[i];
                    assert(columns[k] == all[i]);
                } else {
                    assert(columns[n - 1] == all[i]);
                }
            }
            assert forall|i: int, j: int| 0 <= i < j < all.len() implies all[j] - all[i]
                > 1 by {
                if j == before.len() {
                    assert(among(columns, n - 1, before[i]));
                    let k = choose|k: int| 0 <= k < n - 1 && #[trigger] columns[k] == before[i];
                    assert(column_leq()(columns[n - 2], columns[n - 1]));
                    if k < n - 2 {
                        assert(column_leq()(columns[k], columns[n - 2]));
                    }
                }
            }
        } else {
            assert forall|i: int| 0 <= i < all.len() implies among(
                columns,
                n,
                #[trigger] all[i],
            ) by {
                assert(among(columns, n - 1, before[i]));
                let k = choose|k: int| 0 <= k < n - 1 && #[trigger] columns[k] == before[i];
                assert(columns[k] == all[i]);
            }
        }
    }
}

/// Whether `wave` is spread along the top row of a grid `grid_size` cells
/// wide: each asteroid sits on the top edge at the corner of a column of
/// the grid, and from one asteroid to the next the column grows by more
/// than one.
pub open spec fn is_spread(wave: Seq<Asteroid>, grid_size: u32) -> bool {
    &&& forall|i: int|
        0 <= i < wave.len() ==> {
            let pos = (#[trigger] wave[i]).pos;
            pos.y == 0 && 0 <= pos.x < grid_size * UNIT && pos.x % UNIT == 0
        }
    &&& forall|i: int, j: int|
        0 <= i < j < wave.len() ==> (#[trigger] wave[i]).pos.x + UNIT < (#[trigger] wave[j]).pos.x
}

/// The spacing law of a wave. Whatever columns were sampled below
/// `grid_size`, the wave holds no more asteroids than there were samples,
/// it is spread along the top row, and every asteroid in it falls straight
/// down at `speed` and has colour `color`.
pub proof fn lemma_wave_is_spread(samples: Seq<u32>, speed: i64, color: Color, grid_size: u32)
    requires
        forall|i: int| 0 <= i < samples.len() ==> samples[i] < grid_size,
    ensures
        wave_of(samples, speed, color).len() <= samples.len(),
        is_spread(wave_of(samples, speed, color), grid_size),
        forall|i: int|
            0 <= i < wave_of(samples, speed, color).len() ==> {
                let asteroid = #[trigger] wave_of(samples, speed, color)[i];
                asteroid.velocity == (Vector { x: 0, y: speed }) && asteroid.color == color
            },
{
    let sorted = ascending(samples);
    let kept = isolated(sorted);
    let wave = wave_of(samples, speed, color);
    lemma_ascending(samples, sorted);
    lemma_isolated_prefix(sorted, sorted.len() as int);
    assert forall|i: int| 0 <= i < kept.len() implies kept[i] < grid_size by {
        assert(among(sorted, sorted.len() as int, kept[i]));
        let k = choose|k: int| 0 <= k < sorted.len() && #[trigger] sorted[k] == kept[i];
        assert(sorted.contains(sorted[k]));
        vstd::seq_lib::to_multiset_contains(sorted, sorted[k]);
        vstd::seq_lib::to_multiset_contains(samples, sorted[k]);
    }
    assert forall|i: int| 0 <= i < wave.len() implies {
        let pos = (#[trigger] wave[i]).pos;
        pos.y == 0 && 0 <= pos.x < grid_size * UNIT && pos.x % UNIT == 0
    } by {
        lemma_column_corner(kept[i], grid_size);
    }
    assert forall|i: int, j: int| 0 <= i < j < wave.len() implies (#[trigger] wave[i]).pos.x
        + UNIT < (#[trigger] wave[j]).pos.x by {
        lemma_column_corner(kept[i], grid_size);
        lemma_column_corner(kept[j], grid_size);
    }
}

/// The corner of a column below `grid_size` fits the coordinate type, lies
/// inside that many cells, and is a whole number of cells.
proof fn lemma_column_corner(column: u32, grid_size: u32)
    requires
        column < grid_size,
    ensures
        (column * UNIT) as i64 == column * UNIT,
        0 <= column * UNIT < grid_size * UNIT,
        (column * UNIT) % (UNIT as int) == 0,
{
    assert(UNIT == 1_000_000);
}

} // verus!
