use asteroid_dodge::color::Color;
use asteroid_dodge::entity::{levels, Level};
use asteroid_dodge::error::Error;
use asteroid_dodge::game::{Entity, Game, Keys, Status, START_SCORE};
use asteroid_dodge::geom::{Vector, UNIT};
use asteroid_dodge::grid::{Asteroid, Grid};

const NONE: Keys = Keys { left: false, right: false, up: false, down: false };
const LEFT: Keys = Keys { left: true, right: false, up: false, down: false };
const RIGHT: Keys = Keys { left: false, right: true, up: false, down: false };
const UP: Keys = Keys { left: false, right: false, up: true, down: false };
const DOWN: Keys = Keys { left: false, right: false, up: false, down: true };

fn v(x: f64, y: f64) -> Vector {
    Vector::new((x * 1_000_000.0).round() as i64, (y * 1_000_000.0).round() as i64)
}

fn session() -> Game {
    match Game::new(1000, 1000, 30, levels()) {
        Ok(game) => game,
        Err(error) => panic!("{}", error.message()),
    }
}

fn rock(x: f64, y: f64, speed: f64) -> Asteroid {
    Asteroid { pos: v(x, y), velocity: v(0.0, speed), color: Color::Yellow }
}

/// A resting asteroid in the top row, far from the player: while it is
/// there no wave comes in.
fn blocker() -> Asteroid {
    rock(0.0, 0.5, 0.0)
}

#[test]
fn new_session_starts_centred_above_the_bottom_edge() {
    let game = session();
    assert_eq!(game.player(), Entity { pos: v(15.0, 29.0), color: Color::White });
    assert_eq!(game.grid(), Grid::new(1000, 1000, 30));
    assert_eq!(game.score(), START_SCORE);
    assert_eq!(game.score(), 500);
    assert_eq!(game.status(), Status::Running);
    assert!(game.asteroids().is_empty());
    assert!(game.grid().is_in(game.player().pos));
}

#[test]
fn new_session_on_odd_and_tiny_grids() {
    let odd = Game::new(100, 100, 7, levels()).ok().unwrap();
    assert_eq!(odd.player().pos, v(3.5, 6.0));
    let tiny = Game::new(100, 100, 1, levels()).ok().unwrap();
    assert_eq!(tiny.player().pos, v(0.5, 0.0));
    assert!(tiny.grid().is_in(tiny.player().pos));
    let huge = Game::new(1, 1, u32::MAX, levels()).ok().unwrap();
    assert!(huge.grid().is_in(huge.player().pos));
}

#[test]
fn new_session_rejects_a_grid_without_cells() {
    assert_eq!(Game::new(1000, 1000, 0, levels()).err(), Some(Error::EmptyGrid));
    assert_eq!(Game::new(1000, 1000, 0, Vec::new()).err(), Some(Error::EmptyGrid));
    assert_eq!(Error::EmptyGrid.message(), "the grid has no cells");
}

#[test]
fn new_session_rejects_a_table_with_a_bracket_missing() {
    let short: Vec<Level> = levels().into_iter().take(5).collect();
    assert_eq!(Game::new(1000, 1000, 30, short).err(), Some(Error::InvalidDifficultyScore));
    assert_eq!(Game::new(1000, 1000, 30, Vec::new()).err(), Some(Error::InvalidDifficultyScore));
}

#[test]
fn new_session_rejects_an_inverted_range() {
    let mut table = levels();
    table[2].speed_range = (2_200_000, 2_000_000);
    assert_eq!(Game::new(1000, 1000, 30, table).err(), Some(Error::InvertedRange));

    let mut table = levels();
    table[5].fill_ratio_range = (710_000, 500_000);
    assert_eq!(Game::new(1000, 1000, 30, table).err(), Some(Error::InvertedRange));
    assert_eq!(
        Error::InvertedRange.message(),
        "a difficulty range has its ends the wrong way round"
    );
}

#[test]
fn asteroid_off_the_grid_is_culled_on_the_next_tick() {
    let mut game = session();
    game.add_asteroid(rock(15.0, 31.0, 0.0));
    game.add_asteroid(blocker());
    assert_eq!(game.update(0, NONE), Status::Running);
    assert_eq!(game.asteroids(), &vec![blocker()]);
    assert_eq!(game.score(), 501);
}

#[test]
fn asteroid_that_leaves_is_removed_once_and_credited_once() {
    let mut game = session();
    game.add_asteroid(blocker());
    game.add_asteroid(rock(3.0, 29.5, 2.0));
    game.add_asteroid(rock(5.0, 10.0, 2.0));

    assert_eq!(game.update(200_000, NONE), Status::Running);
    assert_eq!(game.asteroids(), &vec![blocker(), rock(3.0, 29.9, 2.0), rock(5.0, 10.4, 2.0)]);
    assert_eq!(game.score(), 500);

    assert_eq!(game.update(100_000, NONE), Status::Running);
    assert_eq!(game.asteroids(), &vec![blocker(), rock(5.0, 10.6, 2.0)]);
    assert_eq!(game.score(), 501);

    assert_eq!(game.update(100_000, NONE), Status::Running);
    assert_eq!(game.asteroids(), &vec![blocker(), rock(5.0, 10.8, 2.0)]);
    assert_eq!(game.score(), 501);
}

#[test]
fn clear_asteroids_keeps_the_order_and_counts_what_left() {
    let mut game = session();
    game.add_asteroid(rock(1.0, 1.0, 0.0));
    game.add_asteroid(rock(30.0, 1.0, 0.0));
    game.add_asteroid(rock(2.0, 2.0, 0.0));
    game.add_asteroid(rock(2.0, -0.1, 0.0));
    game.add_asteroid(rock(-1.0, 5.0, 0.0));
    game.add_asteroid(rock(3.0, 29.999999, 0.0));
    game.clear_asteroids();
    assert_eq!(
        game.asteroids(),
        &vec![rock(1.0, 1.0, 0.0), rock(2.0, 2.0, 0.0), rock(3.0, 29.999999, 0.0)]
    );
    assert_eq!(game.score(), 503);
    game.clear_asteroids();
    assert_eq!(game.asteroids().len(), 3);
    assert_eq!(game.score(), 503);
}

#[test]
fn update_asteroids_uses_the_recorded_time_step() {
    let mut game = session();
    game.add_asteroid(rock(1.0, 1.0, 1.5));
    game.add_asteroid(rock(2.0, 40.0, -4.0));
    game.update_asteroids();
    assert_eq!(game.asteroids(), &vec![rock(1.0, 1.0, 1.5), rock(2.0, 40.0, -4.0)]);
    game.update_time_step(2_000_000);
    game.update_asteroids();
    assert_eq!(game.asteroids(), &vec![rock(1.0, 4.0, 1.5), rock(2.0, 32.0, -4.0)]);
    assert_eq!(game.score(), 500);
}

#[test]
fn wave_comes_in_when_the_top_row_is_clear() {
    let level = levels()[4];
    for _ in 0..50 {
        let mut game = session();
        game.add_asteroid(rock(4.0, 12.0, 0.0));
        game.generate_asteroids();
        let asteroids = game.asteroids();
        assert_eq!(asteroids[0], rock(4.0, 12.0, 0.0));
        assert!(asteroids.len() - 1 <= 10);
        for asteroid in &asteroids[1..] {
            assert_eq!(asteroid.pos.y, 0);
            assert_eq!(asteroid.pos.x % UNIT, 0);
            assert!(game.grid().is_in(asteroid.pos));
            assert_eq!(asteroid.color, level.color);
            assert_eq!(asteroid.velocity.x, 0);
            assert!((2_500_000..3_500_000).contains(&asteroid.velocity.y));
        }
        for pair in asteroids[1..].windows(2) {
            assert!(pair[1].pos.x - pair[0].pos.x > UNIT);
        }
    }
}

#[test]
fn no_wave_comes_in_while_the_top_row_is_occupied() {
    let mut game = session();
    game.add_asteroid(rock(4.0, 0.999999, 0.0));
    game.generate_asteroids();
    assert_eq!(game.asteroids(), &vec![rock(4.0, 0.999999, 0.0)]);
    for _ in 0..10 {
        assert_eq!(game.update(1000, NONE), Status::Running);
        assert_eq!(game.asteroids().len(), 1);
    }
}

#[test]
fn waves_appear_sooner_or_later() {
    let mut game = session();
    let mut seen = 0;
    for _ in 0..200 {
        game.generate_asteroids();
        seen += game.asteroids().len();
        game.update_time_step(1_000_000);
        game.update_asteroids();
        game.clear_asteroids();
    }
    assert!(seen > 0);
}

#[test]
fn harder_profile_governs_once_the_score_is_reached() {
    let mut game = session();
    for _ in 0..49 {
        game.add_asteroid(rock(40.0, 40.0, 0.0));
    }
    game.add_asteroid(blocker());
    assert_eq!(game.update(0, NONE), Status::Running);
    assert_eq!(game.score(), 549);
    assert_eq!(game.asteroids(), &vec![blocker()]);

    let mut blue = 0;
    for _ in 0..100 {
        let mut game = session();
        for _ in 0..50 {
            game.add_asteroid(rock(40.0, 40.0, 0.0));
        }
        game.add_asteroid(rock(0.0, 5.0, 0.0));
        game.clear_asteroids();
        assert_eq!(game.score(), 550);
        game.generate_asteroids();
        for asteroid in &game.asteroids()[1..] {
            assert_eq!(asteroid.color, Color::Blue);
            assert!((3_000_000..3_800_000).contains(&asteroid.velocity.y));
            blue += 1;
        }
    }
    assert!(blue > 0);
}

#[test]
fn add_wave_appends_in_order() {
    let mut game = session();
    game.add_asteroid(rock(1.0, 1.0, 0.0));
    game.add_wave(vec![rock(2.0, 0.0, 1.0), rock(4.0, 0.0, 1.0)]);
    game.add_wave(Vec::new());
    assert_eq!(
        game.asteroids(),
        &vec![rock(1.0, 1.0, 0.0), rock(2.0, 0.0, 1.0), rock(4.0, 0.0, 1.0)]
    );
}

#[test]
fn player_moves_one_cell_per_key() {
    let mut game = session();
    game.add_asteroid(blocker());
    game.update(0, LEFT);
    assert_eq!(game.player().pos, v(14.0, 29.0));
    game.update(0, UP);
    assert_eq!(game.player().pos, v(14.0, 28.0));
    game.update(0, RIGHT);
    assert_eq!(game.player().pos, v(15.0, 28.0));
    game.update(0, DOWN);
    assert_eq!(game.player().pos, v(15.0, 29.0));
    game.update(0, NONE);
    assert_eq!(game.player().pos, v(15.0, 29.0));
    assert_eq!(game.player().color, Color::White);
}

#[test]
fn player_moves_diagonally_and_opposite_keys_cancel() {
    let mut game = session();
    game.move_player(Keys { left: true, right: false, up: true, down: false });
    assert_eq!(game.player().pos, v(14.0, 28.0));
    game.move_player(Keys { left: true, right: true, up: false, down: false });
    assert_eq!(game.player().pos, v(14.0, 28.0));
    game.move_player(Keys { left: true, right: true, up: true, down: true });
    assert_eq!(game.player().pos, v(14.0, 28.0));
    game.move_player(Keys { left: false, right: true, up: true, down: true });
    assert_eq!(game.player().pos, v(15.0, 28.0));
}

#[test]
fn move_off_the_grid_is_dropped_not_clamped() {
    let mut game = session();
    game.move_player(DOWN);
    assert_eq!(game.player().pos, v(15.0, 29.0));
    // Half of a diagonal move would be legal; none of it is made.
    game.move_player(Keys { left: true, right: false, up: false, down: true });
    assert_eq!(game.player().pos, v(15.0, 29.0));

    for _ in 0..40 {
        game.move_player(LEFT);
    }
    assert_eq!(game.player().pos, v(0.0, 29.0));
    for _ in 0..40 {
        game.move_player(UP);
    }
    assert_eq!(game.player().pos, v(0.0, 0.0));
    for _ in 0..40 {
        game.move_player(RIGHT);
    }
    assert_eq!(game.player().pos, v(29.0, 0.0));
}

#[test]
fn collision_ends_the_session_for_good() {
    let mut game = session();
    game.add_asteroid(blocker());
    game.add_asteroid(rock(15.0, 28.0, 1.0));
    assert!(!game.player_is_struck());
    assert_eq!(game.update(200_000, NONE), Status::Running);
    assert_eq!(game.update(200_000, NONE), Status::Lost);
    assert_eq!(game.status(), Status::Lost);
    assert!(game.player_is_struck());
    let asteroids = game.asteroids().clone();
    assert_eq!(asteroids, vec![blocker(), rock(15.0, 28.4, 1.0)]);

    for keys in [NONE, LEFT, RIGHT, UP, DOWN] {
        assert_eq!(game.update(5_000_000, keys), Status::Lost);
        assert_eq!(game.asteroids(), &asteroids);
        assert_eq!(game.player().pos, v(15.0, 29.0));
        assert_eq!(game.score(), 500);
    }
}

#[test]
fn asteroid_in_the_next_column_does_not_hit() {
    let mut game = session();
    game.add_asteroid(blocker());
    game.add_asteroid(rock(14.0, 29.0, 0.0));
    game.add_asteroid(rock(16.0, 29.0, 0.0));
    game.add_asteroid(rock(15.0, 28.0, 0.0));
    assert_eq!(game.update(1000, NONE), Status::Running);
    assert!(!game.player_is_struck());
}

#[test]
fn player_can_walk_into_an_asteroid() {
    let mut game = session();
    game.add_asteroid(blocker());
    game.add_asteroid(rock(14.0, 29.0, 0.0));
    assert_eq!(game.update(1000, LEFT), Status::Lost);
    assert_eq!(game.player().pos, v(14.0, 29.0));
}

#[test]
fn asteroid_that_leaves_in_the_same_frame_cannot_hit() {
    let mut game = session();
    game.add_asteroid(blocker());
    game.add_asteroid(rock(15.0, 28.5, 2.0));
    assert_eq!(game.update(1_000_000, NONE), Status::Running);
    assert_eq!(game.asteroids(), &vec![blocker()]);
    assert_eq!(game.score(), 501);
}

#[test]
fn every_asteroid_is_on_the_grid_after_a_tick() {
    let mut game = session();
    for frame in 0..400u64 {
        let keys = Keys {
            left: frame % 3 == 0,
            right: frame % 5 == 0,
            up: frame % 7 == 0,
            down: frame % 11 == 0,
        };
        let before = game.score();
        let status = game.update(50_000, keys);
        assert_eq!(status, game.status());
        assert!(game.score() >= before);
        assert!(game.grid().is_in(game.player().pos));
        if status == Status::Lost {
            assert!(game.player_is_struck());
            break;
        }
        assert!(!game.player_is_struck());
        for asteroid in game.asteroids() {
            assert!(game.grid().is_in(asteroid.pos));
        }
    }
}

#[test]
fn judge_loses_the_session_only_on_a_hit() {
    let mut game = session();
    game.add_asteroid(rock(15.0, 27.0, 0.0));
    assert_eq!(game.judge(), Status::Running);
    game.add_asteroid(rock(15.0, 29.5, 0.0));
    assert_eq!(game.judge(), Status::Lost);
    assert_eq!(game.status(), Status::Lost);
    game.clear_asteroids();
    game.move_player(LEFT);
    assert_eq!(game.judge(), Status::Lost);
}

#[test]
fn frame_time_is_recorded() {
    let mut game = session();
    assert_eq!(game.time_delta(), 0);
    game.add_asteroid(blocker());
    game.update(16_667, NONE);
    assert_eq!(game.time_delta(), 16_667);
    game.update_time_step(5);
    assert_eq!(game.time_delta(), 5);
    assert_eq!(game.levels(), &levels());
}
