//! Shared geometry helpers: grid points and axis-aligned rectangles.

pub mod args;
pub mod color;
pub mod rule_parser;
pub mod point;

use vstd::prelude::*;

verus! {

/// How many debug-info pages the renderer cycles through, page 0 meaning
/// "hidden".
pub const DEBUG_INFO_PAGE_TOTAL: i32 = 2;

/// Why a configuration string was rejected.
#[derive(Clone, Copy, Debug, Eq, PartialEq, Structural)]
pub enum ParseError {
    /// The input does not match the accepted notation.
    InvalidValue,
}

/// A rectangle given by its two corners, `(x1, y1)` inclusive-low and
/// `(x2, y2)` inclusive-high (callers decide the convention; this type is
/// just the four coordinates).
#[derive(Debug)]
pub struct RectAbsolute<W> {
    pub x1: W,
    pub y1: W,
    pub x2: W,
    pub y2: W,
}

/// The intersection of two rectangles: the largest rectangle contained in
/// both. If the rectangles are disjoint the result is empty (`x1 > x2` or
/// `y1 > y2`).
pub fn intersect(r1: &RectAbsolute<i32>, r2: &RectAbsolute<i32>) -> (r: RectAbsolute<i32>)
    ensures
        r.x1 == if r1.x1 >= r2.x1 { r1.x1 } else { r2.x1 },
        r.y1 == if r1.y1 >= r2.y1 { r1.y1 } else { r2.y1 },
        r.x2 == if r1.x2 <= r2.x2 { r1.x2 } else { r2.x2 },
        r.y2 == if r1.y2 <= r2.y2 { r1.y2 } else { r2.y2 },
{
    let x1 = if r1.x1 >= r2.x1 { r1.x1 } else { r2.x1 };
    let y1 = if r1.y1 >= r2.y1 { r1.y1 } else { r2.y1 };
    let x2 = if r1.x2 <= r2.x2 { r1.x2 } else { r2.x2 };
    let y2 = if r1.y2 <= r2.y2 { r1.y2 } else { r2.y2 };

    RectAbsolute { x1, y1, x2, y2 }
}

} // verus!
