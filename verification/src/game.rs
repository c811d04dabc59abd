//! The session: one player, the live asteroids, the score, and the rules
//! that turn one frame into the next.

use vstd::prelude::*;
use crate::color::Color;
use crate::entity::Level;
use crate::error::Error;
use crate::geom::{Vector, UNIT};
use crate::grid::{Asteroid, Grid};
use crate::utils::{bracket_of, level_index, BRACKETS};

verus! {

/// The score that a session starts with.
pub const START_SCORE: i32 = 500;

/// Which of the four directional keys are held down in one frame.
#[derive(Clone, Copy, Debug, PartialEq, Eq, Structural)]
pub struct Keys {
    pub left: bool,
    pub right: bool,
    pub up: bool,
    pub down: bool,
}

/// Whether the session goes on.
#[derive(Clone, Copy, Debug, PartialEq, Eq, Structural)]
pub enum Status {
    Running,
    /// The player was hit. No frame changes a lost session.
    Lost,
}

/// Something that has a place on the grid and a colour: the player.
#[derive(Clone, Copy, Debug, PartialEq, Eq, Structural)]
pub struct Entity {
    pub pos: Vector,
    pub color: Color,
}

/// The state of a session.
pub struct Game {
    player: Entity,
    asteroids: Vec<Asteroid>,
    time_delta: u64,
    grid: Grid,
    score: i32,
    levels: Vec<Level>,
    status: Status,
}

/// What a session holds, as plain values.
pub struct GameView {
    pub player: Entity,
    pub asteroids: Seq<Asteroid>,
    /// Microseconds that the last frame took.
    pub time_delta: u64,
    pub grid: Grid,
    pub score: i32,
    pub levels: Seq<Level>,
    pub status: Status,
}

/// The place where the player starts on a grid `grid_size` cells wide:
/// centred across, one row above the bottom edge.
pub open spec fn start_of(grid_size: u32) -> Vector {
    Vector { x: (grid_size * UNIT / 2) as i64, y: ((grid_size - 1) * UNIT) as i64 }
}

/// Whether every profile in `levels` is valid.
pub open spec fn all_valid(levels: Seq<Level>) -> bool {
    forall|i: int| 0 <= i < levels.len() ==> (#[trigger] levels[i]).valid()
}

/// The test that an asteroid is on `grid`.
pub open spec fn on_grid(grid: Grid) -> spec_fn(Asteroid) -> bool {
    |asteroid: Asteroid| grid.contains(asteroid.pos)
}

/// The flight of an asteroid over `micros` microseconds.
pub open spec fn flight(micros: u64) -> spec_fn(Asteroid) -> Asteroid {
    |asteroid: Asteroid| asteroid.after(micros)
}

/// The score after `removed` asteroids have left the grid: one point for
/// each, up to the largest score there is.
pub open spec fn credited(score: i32, removed: int) -> i32 {
    if score + removed > i32::MAX {
        i32::MAX
    } else {
        (score + removed) as i32
    }
}

/// Where the keys in `keys` would take a player at `pos`: one cell per key
/// held, opposite keys cancelling.
pub open spec fn target(pos: Vector, keys: Keys) -> Vector {
    Vector {
        x: (pos.x - step(keys.left) + step(keys.right)) as i64,
        y: (pos.y - step(keys.up) + step(keys.down)) as i64,
    }
}

/// The distance that one key moves the player: a cell if it is held.
pub open spec fn step(held: bool) -> int {
    if held {
        UNIT as int
    } else {
        0
    }
}

impl GameView {
    /// What every session keeps true: the grid has cells, the table has a
    /// valid profile for every bracket, and the player is on the grid.
    pub open spec fn well_formed(self) -> bool {
        &&& self.grid.grid_size > 0
        &&& self.levels.len() >= BRACKETS
        &&& all_valid(self.levels)
        &&& self.grid.contains(self.player.pos)
    }

    /// Whether every live asteroid is on the grid.
    pub open spec fn all_on_grid(self) -> bool {
        forall|i: int|
            0 <= i < self.asteroids.len() ==> self.grid.contains((#[trigger] self.asteroids[i]).pos)
    }

    /// The profile that governs the next wave: the one for the score.
    pub open spec fn level(self) -> Level {
        self.levels[bracket_of(self.score as int)]
    }

    /// The session after every asteroid has flown for the last frame's time.
    pub open spec fn moved(self) -> GameView {
        GameView { asteroids: self.asteroids.map_values(flight(self.time_delta)), ..self }
    }

    /// The session after the asteroids that left the grid are removed, each
    /// of them credited to the score once.
    pub open spec fn culled(self) -> GameView {
        let kept = self.asteroids.filter(on_grid(self.grid));
        GameView {
            asteroids: kept,
            score: credited(self.score, self.asteroids.len() - kept.len()),
            ..self
        }
    }

    /// Whether no asteroid is left in the spawn row, the top row of the
    /// grid.
    pub open spec fn spawn_row_clear(self) -> bool {
        forall|i: int|
            0 <= i < self.asteroids.len() ==> (#[trigger] self.asteroids[i]).pos.y >= UNIT
    }

    /// The session after `wave` has joined the live asteroids.
    pub open spec fn with_wave(self, wave: Seq<Asteroid>) -> GameView {
        GameView { asteroids: self.asteroids + wave, ..self }
    }

    /// The session after the player has followed `keys`. A move that would
    /// leave the grid is not made at all.
    pub open spec fn steered(self, keys: Keys) -> GameView {
        let to = target(self.player.pos, keys);
        if self.grid.contains(to) {
            GameView { player: Entity { pos: to, color: self.player.color }, ..self }
        } else {
            self
        }
    }

    /// Whether some live asteroid collides with the player.
    pub open spec fn struck(self) -> bool {
        exists|i: int|
            0 <= i < self.asteroids.len() && self.grid.collides(
                (#[trigger] self.asteroids[i]).pos,
                self.player.pos,
            )
    }

    /// The session after the collision test: lost if the player is struck.
    pub open spec fn judged(self) -> GameView {
        if self.struck() {
            GameView { status: Status::Lost, ..self }
        } else {
            self
        }
    }
}

impl View for Game {
    type V = GameView;

    closed spec fn view(&self) -> GameView {
        GameView {
            player: self.player,
            asteroids: self.asteroids@,
            time_delta: self.time_delta,
            grid: self.grid,
            score: self.score,
            levels: self.levels@,
            status: self.status,
        }
    }
}

impl Game {
    #[verifier::type_invariant]
    spec fn inv(self) -> bool {
        self@.well_formed()
    }

    /// Starts a session on a screen of `width` by `height` pixels with a
    /// grid of `grid_size` cells per side, governed by the profiles in
    /// `levels`, easiest first.
    ///
    /// A grid without cells is refused as [`Error::EmptyGrid`]. A table
    /// that lacks a profile for some bracket of the score is refused as
    /// [`Error::InvalidDifficultyScore`], and one that holds a profile with
    /// an inverted range as [`Error::InvertedRange`].
    pub fn new(width: u32, height: u32, grid_size: u32, levels: Vec<Level>) -> (game: Result<
        Game,
        Error,
    >)
        ensures
            grid_size == 0 ==> game matches Err(Error::EmptyGrid),
            grid_size > 0 && levels@.len() < BRACKETS ==> game matches Err(
                Error::InvalidDifficultyScore,
            ),
            grid_size > 0 && levels@.len() >= BRACKETS && !all_valid(levels@) ==> game matches Err(
                Error::InvertedRange,
            ),
            grid_size > 0 && levels@.len() >= BRACKETS && all_valid(levels@) ==> ({
                &&& game matches Ok(started)
                &&& started@.well_formed()
                &&& started@ == (GameView {
                    player: Entity { pos: start_of(grid_size), color: Color::White },
                    asteroids: Seq::<Asteroid>::empty(),
                    time_delta: 0,
                    grid: Grid { width, height, grid_size },
                    score: START_SCORE,
                    levels: levels@,
                    status: Status::Running,
                })
            }),
    {
        if grid_size == 0 {
            return Err(Error::EmptyGrid);
        }
        if levels.len() < BRACKETS {
            return Err(Error::InvalidDifficultyScore);
        }
        let mut i: usize = 0;
        while i < levels.len()
            invariant
                grid_size > 0,
                levels@.len() >= BRACKETS,
                i <= levels.len(),
                forall|k: int| 0 <= k < i ==> (#[trigger] levels@[k]).valid(),
            decreases levels.len() - i,
        {
            if !levels[i].is_valid() {
                assert(!levels@[i as int].valid());
                return Err(Error::InvertedRange);
            }
            i += 1;
        }
        assert(0 <= grid_size * UNIT / 2 < grid_size * UNIT <= i64::MAX && 0 <= (grid_size - 1)
            * UNIT < grid_size * UNIT) by (nonlinear_arith)
            requires
                0 < grid_size <= u32::MAX,
                UNIT == 1_000_000,
        ;
        let side: i64 = (grid_size as i64) * UNIT;
        let player = Entity { pos: Vector { x: side / 2, y: side - UNIT }, color: Color::White };
        Ok(
            Game {
                player,
                asteroids: Vec::new(),
                time_delta: 0,
                grid: Grid::new(width, height, grid_size),
                score: START_SCORE,
                levels,
                status: Status::Running,
            },
        )
    }

    /// The player.
    pub fn player(&self) -> (player: Entity)
        ensures
            player == self@.player,
            self@.grid.contains(player.pos),
    {
        proof {
            use_type_invariant(self);
        }
        self.player
    }

    /// The live asteroids, oldest first.
    pub fn asteroids(&self) -> (asteroids: &Vec<Asteroid>)
        ensures
            asteroids@ == self@.asteroids,
    {
        &self.asteroids
    }

    /// The score.
    pub fn score(&self) -> (score: i32)
        ensures
            score == self@.score,
    {
        self.score
    }

    /// The grid that the session is played on.
    pub fn grid(&self) -> (grid: Grid)
        ensures
            grid == self@.grid,
            grid.grid_size > 0,
    {
        proof {
            use_type_invariant(self);
        }
        self.grid
    }

    /// Microseconds that the last frame took.
    pub fn time_delta(&self) -> (micros: u64)
        ensures
            micros == self@.time_delta,
    {
        self.time_delta
    }

    /// The difficulty table, easiest profile first.
    pub fn levels(&self) -> (levels: &Vec<Level>)
        ensures
            levels@ == self@.levels,
            levels@.len() >= BRACKETS,
            all_valid(levels@),
    {
        proof {
            use_type_invariant(self);
        }
        &self.levels
    }

    /// Whether the session goes on.
    pub fn status(&self) -> (status: Status)
        ensures
            status == self@.status,
    {
        self.status
    }

    /// Puts `asteroid` among the live asteroids, after those already there.
    pub fn add_asteroid(&mut self, asteroid: Asteroid)
        ensures
            final(self)@ == (GameView {
                asteroids: old(self)@.asteroids.push(asteroid),
                ..old(self)@
            }),
    {
        proof {
            use_type_invariant(&*self);
        }
        let mut asteroids = self.take_asteroids();
        asteroids.push(asteroid);
        self.asteroids = asteroids;
    }

    /// Moves the live asteroids out of the session, leaving none behind.
    fn take_asteroids(&mut self) -> (asteroids: Vec<Asteroid>)
        ensures
            asteroids@ == old(self)@.asteroids,
            final(self)@ == (GameView { asteroids: Seq::<Asteroid>::empty(), ..old(self)@ }),
    {
        proof {
            use_type_invariant(&*self);
        }
        let mut asteroids: Vec<Asteroid> = Vec::new();
        std::mem::swap(&mut asteroids, &mut self.asteroids);
        asteroids
    }

    /// Records how long the last frame took, in microseconds.
    pub fn update_time_step(&mut self, elapsed: u64)
        ensures
            final(self)@ == (GameView { time_delta: elapsed, ..old(self)@ }),
    {
        proof {
            use_type_invariant(&*self);
        }
        self.time_delta = elapsed;
    }

    /// Moves every live asteroid along its velocity for the time that the
    /// last frame took.
    pub fn update_asteroids(&mut self)
        ensures
            final(self)@ == old(self)@.moved(),
    {
        proof {
            use_type_invariant(&*self);
        }
        let time_unit = self.time_delta;
        let mut asteroids = self.take_asteroids();
        let ghost before = asteroids@;
        let mut i: usize = 0;
        while i < asteroids.len()
            invariant
                i <= asteroids.len(),
                asteroids@.len() == before.len(),
                forall|k: int| 0 <= k < i ==> asteroids@[k] == before[k].after(time_unit),
                forall|k: int| i <= k < before.len() ==> asteroids@[k] == before[k],
            decreases asteroids.len() - i,
        {
            let mut asteroid = asteroids[i];
            asteroid.update(time_unit);
            asteroids.set(i, asteroid);
            i += 1;
        }
        assert(asteroids@ == before.map_values(flight(time_unit)));
        self.asteroids = asteroids;
    }

    /// Removes the asteroids that are out of sight, and adds one point to
    /// the score for each of them.
    pub fn clear_asteroids(&mut self)
        ensures
            final(self)@ == old(self)@.culled(),
            final(self)@.all_on_grid(),
    {
        proof {
            use_type_invariant(&*self);
        }
        let grid = self.grid;
        let asteroids = self.take_asteroids();
        let mut kept: Vec<Asteroid> = Vec::new();
        let mut i: usize = 0;
        assert(asteroids@.take(0).filter(on_grid(grid)) == kept@) by {
            reveal(Seq::filter);
        }
        while i < asteroids.len()
            invariant
                i <= asteroids.len(),
                kept@ == asteroids@.take(i as int).filter(on_grid(grid)),
                kept@.len() <= i,
                forall|k: int| 0 <= k < kept@.len() ==> grid.contains((#[trigger] kept@[k]).pos),
            decreases asteroids.len() - i,
        {
            let asteroid = asteroids[i];
            proof {
                assert(asteroids@.take(i + 1) == asteroids@.take(i as int).push(asteroid));
                asteroids@.take(i as int).lemma_filter_push(asteroid, on_grid(grid));
            }
            if grid.is_in(asteroid.pos) {
                kept.push(asteroid);
            }
            i += 1;
        }
        assert(asteroids@.take(i as int) == asteroids@);
        let removed: i128 = (asteroids.len() - kept.len()) as i128;
        let total: i128 = (self.score as i128) + removed;
        self.score = if total > i32::MAX as i128 {
            i32::MAX
        } else {
            total as i32
        };
        self.asteroids = kept;
    }

    /// Whether no live asteroid is left in the top row.
    fn spawn_row_is_clear(&self) -> (clear: bool)
        ensures
            clear == self@.spawn_row_clear(),
    {
        let mut i: usize = 0;
        while i < self.asteroids.len()
            invariant
                i <= self.asteroids.len(),
                forall|k: int| 0 <= k < i ==> (#[trigger] self.asteroids@[k]).pos.y >= UNIT,
            decreases self.asteroids.len() - i,
        {
            if self.asteroids[i].pos.y < UNIT {
                return false;
            }
            i += 1;
        }
        true
    }

    /// Puts `wave` among the live asteroids, after those already there.
    pub fn add_wave(&mut self, wave: Vec<Asteroid>)
        ensures
            final(self)@ == old(self)@.with_wave(wave@),
    {
        proof {
            use_type_invariant(&*self);
        }
        let mut asteroids = self.take_asteroids();
        let mut wave = wave;
        asteroids.append(&mut wave);
        self.asteroids = asteroids;
    }

    /// Brings in a new wave once all the asteroids of the top row are gone.
    /// The wave comes from the profile for the current score.
    pub fn generate_asteroids(&mut self)
        ensures
            !old(self)@.spawn_row_clear() ==> final(self)@ == old(self)@,
            old(self)@.spawn_row_clear() ==> exists|wave: Seq<Asteroid>|
                #[trigger] old(self)@.level().yields(old(self)@.grid, wave) && final(self)@ == old(
                    self,
                )@.with_wave(wave),
            old(self)@.all_on_grid() ==> final(self)@.all_on_grid(),
    {
        proof {
            use_type_invariant(&*self);
        }
        if !self.spawn_row_is_clear() {
            return ;
        }
        let level = self.levels[level_index(self.score)];
        let new_wave = level.generate_wave(self.grid);
        let ghost wave = new_wave@;
        self.add_wave(new_wave);
        assert(old(self)@.level().yields(old(self)@.grid, wave));
    }

    /// Moves the player by one cell for each key held, unless that would
    /// take the player off the grid.
    pub fn move_player(&mut self, keys: Keys)
        ensures
            final(self)@ == old(self)@.steered(keys),
    {
        proof {
            use_type_invariant(&*self);
        }
        assert(self.grid.grid_size * UNIT <= 0x1_0000_0000 * 1_000_000) by (nonlinear_arith)
            requires
                self.grid.grid_size <= u32::MAX,
                UNIT == 1_000_000,
        ;
        let mut position = self.player.pos;
        if keys.left {
            position.x = position.x - UNIT;
        }
        if keys.right {
            position.x = position.x + UNIT;
        }
        if keys.up {
            position.y = position.y - UNIT;
        }
        if keys.down {
            position.y = position.y + UNIT;
        }
        if self.grid.is_in(position) {
            self.player = Entity { pos: position, color: self.player.color };
        }
    }

    /// Whether some live asteroid collides with the player.
    pub fn player_is_struck(&self) -> (struck: bool)
        ensures
            struck == self@.struck(),
    {
        let mut i: usize = 0;
        while i < self.asteroids.len()
            invariant
                i <= self.asteroids.len(),
                forall|k: int|
                    0 <= k < i ==> !self.grid.collides(
                        (#[trigger] self.asteroids@[k]).pos,
                        self.player.pos,
                    ),
            decreases self.asteroids.len() - i,
        {
            if self.grid.collide(self.asteroids[i].pos, self.player.pos) {
                return true;
            }
            i += 1;
        }
        false
    }

    /// Ends the session if some live asteroid collides with the player.
    pub fn judge(&mut self) -> (status: Status)
        ensures
            final(self)@ == old(self)@.judged(),
            status == final(self)@.status,
    {
        proof {
            use_type_invariant(&*self);
        }
        if self.player_is_struck() {
            self.status = Status::Lost;
        }
        self.status
    }

    /// Plays one frame that took `elapsed` microseconds with the keys in
    /// `keys` held: the asteroids fly, those that left the grid are removed
    /// and credited, a new wave comes in if the top row is clear, the player
    /// moves, and the session is lost if an asteroid now touches the player.
    /// A lost session stays as it is.
    pub fn update(&mut self, elapsed: u64, keys: Keys) -> (status: Status)
        ensures
            status == final(self)@.status,
            old(self)@.status == Status::Lost ==> final(self)@ == old(self)@,
            old(self)@.status == Status::Running ==> {
                let swept = (GameView { time_delta: elapsed, ..old(self)@ }).moved().culled();
                if swept.spawn_row_clear() {
                    exists|wave: Seq<Asteroid>|
                        #[trigger] swept.level().yields(swept.grid, wave) && final(self)@
                            == swept.with_wave(wave).steered(keys).judged()
                } else {
                    final(self)@ == swept.steered(keys).judged()
                }
            },
            old(self)@.status == Status::Running ==> final(self)@.all_on_grid(),
            final(self)@.score >= old(self)@.score,
            final(self)@.well_formed(),
    {
        proof {
            use_type_invariant(&*self);
        }
        match self.status {
            Status::Lost => {
                return Status::Lost;
            },
            Status::Running => {},
        }
        self.update_time_step(elapsed);
        self.update_asteroids();
        self.clear_asteroids();
        self.generate_asteroids();
        self.move_player(keys);
        self.judge()
    }
}

/// Filtering twice by one test keeps what filtering once keeps.
proof fn lemma_filter_twice<A>(items: Seq<A>, test: spec_fn(A) -> bool)
    ensures
        items.filter(test).filter(test) == items.filter(test),
    decreases items.len(),
{
    reveal(Seq::filter);
    if items.len() > 0 {
        lemma_filter_twice(items.drop_last(), test);
        if test(items.last()) {
            items.drop_last().filter(test).lemma_filter_push(items.last(), test);
        }
    }
}

/// The culling law. An asteroid stays exactly if it is on the grid, those
/// that stay keep their order, and the score grows by one for each that
/// went, as far as the score's type reaches. Culling again changes
/// nothing: no asteroid is removed or credited twice.
pub proof fn lemma_cull(before: GameView)
    ensures
        before.culled().all_on_grid(),
        before.culled().asteroids == before.asteroids.filter(on_grid(before.grid)),
        before.culled().asteroids.len() <= before.asteroids.len(),
        before.all_on_grid() ==> before.culled() == before,
        before.culled().score >= before.score,
        before.culled().score < i32::MAX ==> before.culled().score == before.score + (
        before.asteroids.len() - before.culled().asteroids.len()),
        before.culled().culled() == before.culled(),
{
    let test = on_grid(before.grid);
    let kept = before.asteroids.filter(test);
    before.asteroids.lemma_filter_len(test);
    assert forall|i: int| 0 <= i < kept.len() implies before.grid.contains(
        (#[trigger] kept[i]).pos,
    ) by {
        before.asteroids.lemma_filter_pred(test, i);
    }
    lemma_filter_twice(before.asteroids, test);
    if before.all_on_grid() {
        lemma_filter_keeps_all(before.asteroids, test);
    }
}

/// A filter keeps a sequence whole when every item passes the test.
proof fn lemma_filter_keeps_all<A>(items: Seq<A>, test: spec_fn(A) -> bool)
    requires
        forall|i: int| 0 <= i < items.len() ==> test(#[trigger] items[i]),
    ensures
        items.filter(test) == items,
    decreases items.len(),
{
    reveal(Seq::filter);
    if items.len() > 0 {
        lemma_filter_keeps_all(items.drop_last(), test);
        assert(items.drop_last().push(items.last()) == items);
    }
}

} // verus!
