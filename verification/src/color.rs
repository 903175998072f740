//! Palette-indexed terminal colors.
//!
//! A [`Color`] holds an optional background and foreground entry of the
//! 256-color terminal palette; `None` means "leave the channel as it is".
//! Turning a color into an escape sequence is the renderer's business, not
//! this module's.

use vstd::prelude::*;

verus! {

/// An optional pair of 256-color palette indices.
#[derive(Clone, Copy, Debug, Eq, PartialEq, Structural)]
pub struct Color {
    pub bg_color: Option<u8>,
    pub fg_color: Option<u8>,
}

impl Color {
    /// A color with both channels set.
    pub fn new(bg_color: u8, fg_color: u8) -> (c: Self)
        ensures
            c.bg_color == Some(bg_color),
            c.fg_color == Some(fg_color),
    {
        Self { bg_color: Some(bg_color), fg_color: Some(fg_color) }
    }

    /// A color that overrides neither channel.
    pub fn none() -> (c: Self)
        ensures
            c.bg_color is None,
            c.fg_color is None,
    {
        Self { bg_color: None, fg_color: None }
    }

    /// Black on black.
    pub fn null() -> (c: Self)
        ensures
            c.bg_color == Some(0u8),
            c.fg_color == Some(0u8),
    {
        Self { bg_color: Some(0), fg_color: Some(0) }
    }

    /// The default text color: light gray on black.
    pub fn text() -> (c: Self)
        ensures
            c.bg_color == Some(0u8),
            c.fg_color == Some(7u8),
    {
        Self { bg_color: Some(0), fg_color: Some(7) }
    }
}

} // verus!
