//! One grid cell: a life flag and the colors it is drawn with.

use vstd::prelude::*;

use crate::common::color::Color;

verus! {

/// A single cell of the world. `alive` is the automaton state; `color` is
/// what the renderer shows, and for dying cells it lags behind `alive` while
/// the background fades out.
#[derive(Clone, Copy, Debug, Eq, PartialEq, Structural)]
pub struct Cell {
    pub alive: bool,
    pub color: Color,
}

impl Default for Cell {
    /// A dead cell in the default colors.
    fn default() -> (c: Self)
        ensures
            !c.alive,
            c.color == Color::default_spec(),
    {
        Self { alive: false, color: Color::default() }
    }
}

} // verus!
