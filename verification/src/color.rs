//! One cell of a frame.

use vstd::prelude::*;
use crate::level::FULL;

verus! {

/// A color of four channels, each from 0 to [`FULL`].
#[derive(Debug, Clone, Copy, PartialEq, Eq, Structural)]
pub struct Color {
    pub red: u32,
    pub green: u32,
    pub blue: u32,
    pub alpha: u32,
}

impl Color {
    /// The color that shows a height: as much blue as the height, no red, no
    /// green, and nothing shining through.
    pub open spec fn shade_of(level: int) -> Color {
        Color { red: 0, green: 0, blue: level as u32, alpha: FULL }
    }

    pub fn shade(level: u32) -> (c: Color)
        ensures
            c == Color::shade_of(level as int),
    {
        Color { red: 0, green: 0, blue: level, alpha: FULL }
    }
}

} // verus!
