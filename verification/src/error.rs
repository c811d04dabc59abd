use vstd::prelude::*;

verus! {

/// What the library can refuse.
#[derive(Clone, Copy, Debug, PartialEq, Eq, Structural)]
pub enum Error {
    /// A point to be drawn lies outside the grid.
    OutOfBounds,
    /// A score matches no bracket of the difficulty table.
    InvalidDifficultyScore,
    /// A grid without cells was configured.
    EmptyGrid,
    /// A difficulty profile has a range whose lower end exceeds its upper end.
    InvertedRange,
}

impl Error {
    /// What the error says to a reader.
    pub open spec fn message_of(self) -> Seq<char> {
        match self {
            Error::OutOfBounds => "the point is outside of drawable surface"@,
            Error::InvalidDifficultyScore => "the score matches no difficulty level"@,
            Error::EmptyGrid => "the grid has no cells"@,
            Error::InvertedRange => "a difficulty range has its ends the wrong way round"@,
        }
    }

    /// What the error says to a reader.
    pub fn message(self) -> (message: &'static str)
        ensures
            message@ == self.message_of(),
    {
        match self {
            Error::OutOfBounds => "the point is outside of drawable surface",
            Error::InvalidDifficultyScore => "the score matches no difficulty level",
            Error::EmptyGrid => "the grid has no cells",
            Error::InvertedRange => "a difficulty range has its ends the wrong way round",
        }
    }
}

} // verus!
