use vstd::prelude::*;

verus! {

/// The fixed palette from which entities take their colour.
#[derive(Clone, Copy, Debug, PartialEq, Eq, Structural)]
pub enum Color {
    White,
    Black,
    Red,
    Orange,
    Yellow,
    Green,
    Cyan,
    Blue,
    Purple,
    Indigo,
}

impl Color {
    /// The name under which the colour's artwork is filed.
    pub open spec fn label_of(self) -> Seq<char> {
        match self {
            Color::White => "WHITE"@,
            Color::Black => "BLACK"@,
            Color::Red => "RED"@,
            Color::Orange => "ORANGE"@,
            Color::Yellow => "YELLOW"@,
            Color::Green => "GREEN"@,
            Color::Cyan => "CYAN"@,
            Color::Blue => "BLUE"@,
            Color::Purple => "PURPLE"@,
            Color::Indigo => "INDIGO"@,
        }
    }

    /// The name under which the colour's artwork is filed.
    pub fn label(self) -> (label: &'static str)
        ensures
            label@ == self.label_of(),
    {
        match self {
            Color::White => "WHITE",
            Color::Black => "BLACK",
            Color::Red => "RED",
            Color::Orange => "ORANGE",
            Color::Yellow => "YELLOW",
            Color::Green => "GREEN",
            Color::Cyan => "CYAN",
            Color::Blue => "BLUE",
            Color::Purple => "PURPLE",
            Color::Indigo => "INDIGO",
        }
    }
}

/// Every colour of the palette, once.
pub open spec fn all_colors() -> Seq<Color> {
    seq![
        Color::White,
        Color::Black,
        Color::Red,
        Color::Orange,
        Color::Yellow,
        Color::Green,
        Color::Cyan,
        Color::Blue,
        Color::Purple,
        Color::Indigo,
    ]
}

/// Lists the palette.
pub fn palette() -> (colors: Vec<Color>)
    ensures
        colors@ == all_colors(),
{
    let mut colors: Vec<Color> = Vec::new();
    colors.push(Color::White);
    colors.push(Color::Black);
    colors.push(Color::Red);
    colors.push(Color::Orange);
    colors.push(Color::Yellow);
    colors.push(Color::Green);
    colors.push(Color::Cyan);
    colors.push(Color::Blue);
    colors.push(Color::Purple);
    colors.push(Color::Indigo);
    colors
}

/// No colour is missing from the palette.
pub proof fn lemma_palette_is_complete(color: Color)
    ensures
        all_colors().contains(color),
{
    let i: int = match color {
        Color::White => 0,
        Color::Black => 1,
        Color::Red => 2,
        Color::Orange => 3,
        Color::Yellow => 4,
        Color::Green => 5,
        Color::Cyan => 6,
        Color::Blue => 7,
        Color::Purple => 8,
        Color::Indigo => 9,
    };
    assert(all_colors()[i] == color);
}

/// No two colours share a label.
pub proof fn lemma_labels_are_distinct(a: Color, b: Color)
    requires
        a != b,
    ensures
        a.label_of() != b.label_of(),
{
    reveal_strlit("WHITE");
    reveal_strlit("BLACK");
    reveal_strlit("RED");
    reveal_strlit("ORANGE");
    reveal_strlit("YELLOW");
    reveal_strlit("GREEN");
    reveal_strlit("CYAN");
    reveal_strlit("BLUE");
    reveal_strlit("PURPLE");
    reveal_strlit("INDIGO");
    let x = a.label_of();
    let y = b.label_of();
    if x.len() == y.len() {
        assert(x[0] != y[0] || x[1] != y[1]);
    }
}

} // verus!
