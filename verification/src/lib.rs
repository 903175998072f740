//! A terminal-style cellular automaton engine: a toroidal grid of cells
//! evolved by configurable birth/survival rules, with a color model that
//! fades dying cells toward a background color.

pub mod color;
pub mod common;
pub mod state;
