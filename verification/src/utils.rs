//! Choice of the difficulty profile from the score.

use vstd::prelude::*;
use crate::entity::{levels, standard_levels, Level};
use crate::error::Error;

verus! {

/// Number of score brackets, and so of profiles that a table needs.
pub const BRACKETS: usize = 6;

/// The bracket that `score` falls in, counted from 0. The brackets are
/// tried lowest first and the first that matches wins: below 100, below
/// 200, below 350, below 450, below 550, and everything from 550 up.
pub open spec fn bracket_of(score: int) -> int {
    if score < 100 {
        0
    } else if score < 200 {
        1
    } else if score < 350 {
        2
    } else if score < 450 {
        3
    } else if score < 550 {
        4
    } else {
        5
    }
}

/// Computes the bracket that `score` falls in.
pub fn level_index(score: i32) -> (index: usize)
    ensures
        index == bracket_of(score as int),
        index < BRACKETS,
{
    if score < 100 {
        0
    } else if score < 200 {
        1
    } else if score < 350 {
        2
    } else if score < 450 {
        3
    } else if score < 550 {
        4
    } else {
        5
    }
}

/// Picks the profile for `score` from `table`, which holds the profile of
/// bracket 0 first. Fails if the table has no profile for the bracket.
pub fn select_level(table: &Vec<Level>, score: i32) -> (level: Result<Level, Error>)
    ensures
        bracket_of(score as int) < table@.len() ==> level == Ok::<Level, Error>(
            table@[bracket_of(score as int)],
        ),
        bracket_of(score as int) >= table@.len() ==> level == Err::<Level, Error>(
            Error::InvalidDifficultyScore,
        ),
{
    let index = level_index(score);
    if index < table.len() {
        Ok(table[index])
    } else {
        Err(Error::InvalidDifficultyScore)
    }
}

/// Picks the standard profile for `score`.
pub fn get_level(score: i32) -> (level: Level)
    ensures
        level == standard_levels()[bracket_of(score as int)],
{
    let table = levels();
    table[level_index(score)]
}

/// The bracket never falls as the score rises, and every score has one.
pub proof fn lemma_bracket_is_monotonic(lower: int, higher: int)
    requires
        lower <= higher,
    ensures
        0 <= bracket_of(lower) <= bracket_of(higher) < BRACKETS,
{
}

} // verus!
