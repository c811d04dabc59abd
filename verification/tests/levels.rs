use asteroid_dodge::color::{palette, Color};
use asteroid_dodge::entity::{levels, Level};
use asteroid_dodge::error::Error;
use asteroid_dodge::utils::{get_level, level_index, select_level, BRACKETS};

#[test]
fn the_table_holds_the_six_standard_profiles() {
    assert_eq!(
        levels(),
        vec![
            Level {
                color: Color::White,
                speed_range: (1_500_000, 1_500_500),
                fill_ratio_range: (200_000, 250_000)
            },
            Level {
                color: Color::Red,
                speed_range: (1_800_000, 2_000_000),
                fill_ratio_range: (250_000, 270_000)
            },
            Level {
                color: Color::Indigo,
                speed_range: (2_000_000, 2_200_000),
                fill_ratio_range: (350_000, 400_000)
            },
            Level {
                color: Color::Orange,
                speed_range: (2_000_000, 2_100_000),
                fill_ratio_range: (440_000, 480_000)
            },
            Level {
                color: Color::Green,
                speed_range: (2_500_000, 3_500_000),
                fill_ratio_range: (300_000, 350_000)
            },
            Level {
                color: Color::Blue,
                speed_range: (3_000_000, 3_800_000),
                fill_ratio_range: (500_000, 710_000)
            },
        ]
    );
    assert_eq!(levels().len(), BRACKETS);
    assert!(levels().iter().all(|level| level.is_valid()));
}

#[test]
fn level_index_follows_the_thresholds() {
    let expected = [
        (i32::MIN, 0),
        (-1, 0),
        (0, 0),
        (99, 0),
        (100, 1),
        (199, 1),
        (200, 2),
        (349, 2),
        (350, 3),
        (449, 3),
        (450, 4),
        (500, 4),
        (549, 4),
        (550, 5),
        (551, 5),
        (100_000, 5),
        (i32::MAX, 5),
    ];
    for (score, index) in expected {
        assert_eq!(level_index(score), index);
    }
}

#[test]
fn level_index_never_falls_as_the_score_rises() {
    let mut last = 0;
    for score in -50..700 {
        let index = level_index(score);
        assert!(index >= last);
        assert!(index < BRACKETS);
        last = index;
    }
    assert_eq!(last, 5);
}

#[test]
fn get_level_picks_from_the_standard_table() {
    let table = levels();
    for score in -10..600 {
        assert_eq!(get_level(score), table[level_index(score)]);
    }
    assert_eq!(get_level(0), table[0]);
    assert_eq!(get_level(0).color, Color::White);
    assert_eq!(get_level(550), table[5]);
    assert_eq!(get_level(550).color, Color::Blue);
    assert_eq!(get_level(549).color, Color::Green);
}

#[test]
fn select_level_reads_the_given_table() {
    let table = levels();
    assert_eq!(select_level(&table, 0), Ok(table[0]));
    assert_eq!(select_level(&table, 120), Ok(table[1]));
    assert_eq!(select_level(&table, 550), Ok(table[5]));

    let mut custom = levels();
    custom[3].color = Color::Yellow;
    assert_eq!(select_level(&custom, 400).map(|level| level.color), Ok(Color::Yellow));
}

#[test]
fn select_level_fails_where_the_table_has_no_profile() {
    let short: Vec<Level> = levels().into_iter().take(3).collect();
    assert_eq!(select_level(&short, 349), Ok(short[2]));
    assert_eq!(select_level(&short, 350), Err(Error::InvalidDifficultyScore));
    assert_eq!(select_level(&short, 10_000), Err(Error::InvalidDifficultyScore));
    assert_eq!(select_level(&Vec::new(), 0), Err(Error::InvalidDifficultyScore));
    assert_eq!(
        Error::InvalidDifficultyScore.message(),
        "the score matches no difficulty level"
    );
}

#[test]
fn palette_lists_every_colour_with_its_label() {
    let colors = palette();
    assert_eq!(
        colors,
        vec![
            Color::White,
            Color::Black,
            Color::Red,
            Color::Orange,
            Color::Yellow,
            Color::Green,
            Color::Cyan,
            Color::Blue,
            Color::Purple,
            Color::Indigo,
        ]
    );
    let labels: Vec<&str> = colors.iter().map(|color| color.label()).collect();
    assert_eq!(
        labels,
        vec![
            "WHITE", "BLACK", "RED", "ORANGE", "YELLOW", "GREEN", "CYAN", "BLUE", "PURPLE",
            "INDIGO"
        ]
    );
    for level in levels() {
        assert!(colors.contains(&level.color));
    }
}
