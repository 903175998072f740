//! The simulation's configuration, as handed in from outside.
//!
//! Command-line parsing itself lives with the binary; the engine only sees
//! this plain record of already-validated values.

use vstd::prelude::*;

use crate::common::color::Rgba;
use crate::state::cell_setup::{setup_equiv, CellSetup};
use crate::state::rules::Rules;

verus! {

/// Everything the simulation can be configured with.
pub struct Args {
    /// The initial seed pattern.
    pub cell_setup: CellSetup,
    /// The background color of living cells.
    pub color_bg_alive: Rgba,
    /// The background color of fully decayed dead cells.
    pub color_bg_dead: Rgba,
    /// Milliseconds before the life starts evolving.
    pub delay: u64,
    /// The per-tick color step for dying cells: 1 is very slow, 255 instant,
    /// 0 freezes the color, and negative values give "funny colors".
    pub fading_speed: i32,
    /// How many ticks run per second.
    pub frames_per_second: u16,
    /// Whether to start paused, for editing.
    pub paused: bool,
    /// Whether living cells are colored by position instead of the flat
    /// live color.
    pub rainbow: bool,
    /// The birth and survival rules.
    pub rules: Rules,
    /// Screen-saver mode: reseed with a random soup after this many frames.
    pub screen_saver: Option<u32>,
}

impl Default for Args {
    /// The stock configuration: the r-pentonimo pattern under Conway's Life
    /// rules, warm orange on deep green, a fading speed of 140, ten frames
    /// per second after a one-second delay, not paused, no rainbow, no
    /// screen saver.
    fn default() -> (a: Self)
        ensures
            a.cell_setup is RPentonimo,
            a.color_bg_alive == (Rgba { r: 0xEE, g: 0x88, b: 0x22, a: 255u8 }),
            a.color_bg_dead == (Rgba { r: 0x11, g: 0x30, b: 0x11, a: 255u8 }),
            a.delay == 1000,
            a.fading_speed == 140,
            a.frames_per_second == 10,
            !a.paused,
            !a.rainbow,
            a.rules.birth@ == seq![3u32],
            a.rules.survival@ == seq![2u32, 3u32],
            a.screen_saver is None,
    {
        let mut birth: Vec<u32> = Vec::new();
        birth.push(3);
        let mut survival: Vec<u32> = Vec::new();
        survival.push(2);
        survival.push(3);
        proof {
            assert(birth@ =~= seq![3u32]);
            assert(survival@ =~= seq![2u32, 3u32]);
        }

        Args {
            cell_setup: CellSetup::RPentonimo,
            color_bg_alive: Rgba { r: 0xEE, g: 0x88, b: 0x22, a: 255 },
            color_bg_dead: Rgba { r: 0x11, g: 0x30, b: 0x11, a: 255 },
            delay: 1000,
            fading_speed: 140,
            frames_per_second: 10,
            paused: false,
            rainbow: false,
            rules: Rules { birth, survival },
            screen_saver: None,
        }
    }
}

impl Clone for Args {
    /// A clone carries the same configuration.
    fn clone(&self) -> (res: Self)
        ensures
            setup_equiv(self.cell_setup, res.cell_setup),
            res.color_bg_alive == self.color_bg_alive,
            res.color_bg_dead == self.color_bg_dead,
            res.delay == self.delay,
            res.fading_speed == self.fading_speed,
            res.frames_per_second == self.frames_per_second,
            res.paused == self.paused,
            res.rainbow == self.rainbow,
            res.rules.birth@ == self.rules.birth@,
            res.rules.survival@ == self.rules.survival@,
            res.screen_saver == self.screen_saver,
    {
        Args {
            cell_setup: self.cell_setup.clone(),
            color_bg_alive: self.color_bg_alive,
            color_bg_dead: self.color_bg_dead,
            delay: self.delay,
            fading_speed: self.fading_speed,
            frames_per_second: self.frames_per_second,
            paused: self.paused,
            rainbow: self.rainbow,
            rules: self.rules.clone(),
            screen_saver: self.screen_saver,
        }
    }
}

} // verus!
