//! The face catalog: one of six pip patterns, each drawn as a fixed
//! five-line block of text art.

use vstd::prelude::*;

verus! {

/// One of the six pip patterns a die can show.
#[derive(Clone, Copy, PartialEq, Eq, Structural, Debug)]
pub enum Pips {
    One,
    Two,
    Three,
    Four,
    Five,
    Six,
}

/// The five text-art lines that draw a given face, as mathematical
/// sequences of characters.
pub open spec fn spec_glyph(p: Pips) -> Seq<Seq<char>> {
    match p {
        Pips::One => seq![
            "┌─────────┐"@,
            "│         │"@,
            "│    ●    │"@,
            "│         │"@,
            "└─────────┘"@,
        ],
        Pips::Two => seq![
            "┌─────────┐"@,
            "│    ●    │"@,
            "│         │"@,
            "│    ●    │"@,
            "└─────────┘"@,
        ],
        Pips::Three => seq![
            "┌─────────┐"@,
            "│ ●       │"@,
            "│    ●    │"@,
            "│       ● │"@,
            "└─────────┘"@,
        ],
        Pips::Four => seq![
            "┌─────────┐"@,
            "│ ●     ● │"@,
            "│         │"@,
            "│ ●     ● │"@,
            "└─────────┘"@,
        ],
        Pips::Five => seq![
            "┌─────────┐"@,
            "│ ●     ● │"@,
            "│    ●    │"@,
            "│ ●     ● │"@,
            "└─────────┘"@,
        ],
        Pips::Six => seq![
            "┌─────────┐"@,
            "│ ●     ● │"@,
            "│ ●     ● │"@,
            "│ ●     ● │"@,
            "└─────────┘"@,
        ],
    }
}

/// The face that shows a given outcome value. Values outside 1..=6,
/// which no die produces, give the six-pip face.
pub open spec fn face_of_value(v: int) -> Pips {
    if v == 1 {
        Pips::One
    } else if v == 2 {
        Pips::Two
    } else if v == 3 {
        Pips::Three
    } else if v == 4 {
        Pips::Four
    } else if v == 5 {
        Pips::Five
    } else {
        Pips::Six
    }
}

/// Taking a face's value and mapping it back gives that face: the
/// value-to-face mapping is the identity on the six outcomes.
pub proof fn lemma_face_of_value_inverse(p: Pips)
    ensures
        face_of_value(p.spec_value()) == p,
{
}

impl Pips {
    /// The numeric outcome this face stands for, as a mathematical value.
    pub open spec fn spec_value(self) -> int {
        match self {
            Pips::One => 1,
            Pips::Two => 2,
            Pips::Three => 3,
            Pips::Four => 4,
            Pips::Five => 5,
            Pips::Six => 6,
        }
    }

    /// The numeric outcome this face stands for, always in 1..=6.
    pub fn value(&self) -> (v: i32)
        ensures
            v == self.spec_value(),
            1 <= v <= 6,
    {
        match self {
            Pips::One => 1,
            Pips::Two => 2,
            Pips::Three => 3,
            Pips::Four => 4,
            Pips::Five => 5,
            Pips::Six => 6,
        }
    }

    /// The face for a drawn outcome: exactly the value's own face, so a
    /// die set from a draw shows the value that was drawn.
    pub fn from_outcome(value: i32) -> (f: Pips)
        requires
            1 <= value <= 6,
        ensures
            f == face_of_value(value as int),
            f.spec_value() == value,
    {
        match value {
            1 => Pips::One,
            2 => Pips::Two,
            3 => Pips::Three,
            4 => Pips::Four,
            5 => Pips::Five,
            _ => Pips::Six,
        }
    }

    /// The five text-art lines that draw this face, exactly as
    /// `spec_glyph` describes them.
    pub fn as_array(&self) -> (r: [&'static str; 5])
        ensures
            forall|i: int| 0 <= i < 5 ==> (#[trigger] r@[i])@ == spec_glyph(*self)[i],
    {
        match self {
            Pips::One => [
                "┌─────────┐",
                "│         │",
                "│    ●    │",
                "│         │",
                "└─────────┘",
            ],
            Pips::Two => [
                "┌─────────┐",
                "│    ●    │",
                "│         │",
                "│    ●    │",
                "└─────────┘",
            ],
            Pips::Three => [
                "┌─────────┐",
                "│ ●       │",
                "│    ●    │",
                "│       ● │",
                "└─────────┘",
            ],
            Pips::Four => [
                "┌─────────┐",
                "│ ●     ● │",
                "│         │",
                "│ ●     ● │",
                "└─────────┘",
            ],
            Pips::Five => [
                "┌─────────┐",
                "│ ●     ● │",
                "│    ●    │",
                "│ ●     ● │",
                "└─────────┘",
            ],
            Pips::Six => [
                "┌─────────┐",
                "│ ●     ● │",
                "│ ●     ● │",
                "│ ●     ● │",
                "└─────────┘",
            ],
        }
    }
}

} // verus!
