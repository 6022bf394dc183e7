use vstd::prelude::*;

verus! {

/// The two sides.
#[derive(Clone, Copy, Debug, PartialEq, Eq, Structural)]
pub enum Color {
    White,
    Black,
}

/// The slot of a side in a table indexed by side: White first.
pub open spec fn color_slot(side: Color) -> int {
    match side {
        Color::White => 0,
        Color::Black => 1,
    }
}

impl Color {
    /// The slot of this side in a table indexed by side.
    pub fn slot(self) -> (r: usize)
        ensures
            r == color_slot(self),
    {
        match self {
            Color::White => 0,
            Color::Black => 1,
        }
    }
}

/// White converts to `true`, Black to `false`.
impl From<Color> for bool {
    fn from(color: Color) -> bool {
        match color {
            Color::White => true,
            Color::Black => false,
        }
    }
}

impl vstd::std_specs::convert::FromSpecImpl<Color> for bool {
    open spec fn obeys_from_spec() -> bool {
        true
    }

    open spec fn from_spec(v: Color) -> bool {
        v == Color::White
    }
}

} // verus!
