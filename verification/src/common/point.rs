//! Integer grid coordinates.
//!
//! A [`Point`] doubles as an absolute cell address and as a relative offset
//! (a pattern point, a neighbor delta). The eight step methods move one cell
//! in the compass directions of the Moore neighborhood.

use vstd::prelude::*;

verus! {

/// An integer pair: a grid cell address or a relative offset.
#[derive(Clone, Copy, Debug, Eq, Hash, PartialEq, Structural)]
pub struct Point {
    pub x: i32,
    pub y: i32,
}

impl Point {
    pub fn new(x: i32, y: i32) -> (p: Self)
        ensures
            p.x == x,
            p.y == y,
    {
        Self { x, y }
    }

    /// The x coordinate read as a horizontal extent.
    pub fn width(&self) -> (w: i32)
        ensures
            w == self.x,
    {
        self.x
    }

    /// The y coordinate read as a vertical extent.
    pub fn height(&self) -> (h: i32)
        ensures
            h == self.y,
    {
        self.y
    }

    pub fn left(&self) -> (p: Self)
        requires
            self.x > i32::MIN,
        ensures
            p.x == self.x - 1,
            p.y == self.y,
    {
        Self::new(self.x - 1, self.y)
    }

    pub fn right(&self) -> (p: Self)
        requires
            self.x < i32::MAX,
        ensures
            p.x == self.x + 1,
            p.y == self.y,
    {
        Self::new(self.x + 1, self.y)
    }

    pub fn up(&self) -> (p: Self)
        requires
            self.y > i32::MIN,
        ensures
            p.x == self.x,
            p.y == self.y - 1,
    {
        Self::new(self.x, self.y - 1)
    }

    pub fn up_left(&self) -> (p: Self)
        requires
            self.x > i32::MIN,
            self.y > i32::MIN,
        ensures
            p.x == self.x - 1,
            p.y == self.y - 1,
    {
        Self::new(self.x - 1, self.y - 1)
    }

    pub fn up_right(&self) -> (p: Self)
        requires
            self.x < i32::MAX,
            self.y > i32::MIN,
        ensures
            p.x == self.x + 1,
            p.y == self.y - 1,
    {
        Self::new(self.x + 1, self.y - 1)
    }

    pub fn down(&self) -> (p: Self)
        requires
            self.y < i32::MAX,
        ensures
            p.x == self.x,
            p.y == self.y + 1,
    {
        Self::new(self.x, self.y + 1)
    }

    pub fn down_left(&self) -> (p: Self)
        requires
            self.x > i32::MIN,
            self.y < i32::MAX,
        ensures
            p.x == self.x - 1,
            p.y == self.y + 1,
    {
        Self::new(self.x - 1, self.y + 1)
    }

    pub fn down_right(&self) -> (p: Self)
        requires
            self.x < i32::MAX,
            self.y < i32::MAX,
        ensures
            p.x == self.x + 1,
            p.y == self.y + 1,
    {
        Self::new(self.x + 1, self.y + 1)
    }

    /// Componentwise sum, `self + rhs`.
    pub fn plus(&self, rhs: &Point) -> (p: Self)
        requires
            i32::MIN <= self.x + rhs.x <= i32::MAX,
            i32::MIN <= self.y + rhs.y <= i32::MAX,
        ensures
            p.x == self.x + rhs.x,
            p.y == self.y + rhs.y,
    {
        Self::new(self.x + rhs.x, self.y + rhs.y)
    }

    /// Componentwise difference, `self - rhs`.
    pub fn minus(&self, rhs: &Point) -> (p: Self)
        requires
            i32::MIN <= self.x - rhs.x <= i32::MAX,
            i32::MIN <= self.y - rhs.y <= i32::MAX,
        ensures
            p.x == self.x - rhs.x,
            p.y == self.y - rhs.y,
    {
        Self::new(self.x - rhs.x, self.y - rhs.y)
    }

    /// Both coordinates halved, truncating toward zero; with a size this is
    /// the center of the spanned rectangle.
    pub fn half(&self) -> (p: Self)
        requires
            self.x >= 0,
            self.y >= 0,
        ensures
            p.x == self.x as int / 2,
            p.y == self.y as int / 2,
    {
        Self::new(self.x / 2, self.y / 2)
    }

    /// Whether the point lies inside the rectangle `[0, size.x) x [0, size.y)`.
    pub fn is_contained(&self, size: &Self) -> (r: bool)
        ensures
            r == (0 <= self.x < size.x && 0 <= self.y < size.y),
    {
        if self.x < 0 || self.y < 0 {
            return false;
        }

        if self.x >= size.width() || self.y >= size.height() {
            return false;
        }

        true
    }
}

} // verus!
