//! The interactive simulation state: the world plus pause, cursor, timing
//! and screen-saver bookkeeping, driven by resize, tick and key events from
//! outside.

pub mod cell;
pub mod cell_image;
pub mod cell_setup;
pub mod rng;
pub mod rules;
pub mod world;

use vstd::prelude::*;

use crate::common::args::Args;
use crate::common::point::Point;
use crate::common::DEBUG_INFO_PAGE_TOTAL;
use crate::state::cell_setup::{
    lemma_setup_equiv_sym, lemma_setup_equiv_text, lemma_setup_equiv_trans, setup_equiv,
    setup_text, soup_text, CellSetup,
};
use crate::state::world::{update_rel, World};

verus! {

/// The configuration bounds a running simulation relies on: the fade speed
/// and pattern text within what the engine takes, and the screen-saver
/// deadline arithmetic free of overflow.
pub open spec fn args_wf(args: Args) -> bool {
    &&& args.fading_speed >= i32::MIN + 256
    &&& setup_text(args.cell_setup).len() < i32::MAX
    &&& (args.screen_saver matches Some(sv) ==> sv + 60 <= u32::MAX)
}

/// The whole interactive simulation.
pub struct State {
    pub args: Args,
    pub cursor_pos: Point,
    pub debug_info_page: i32,
    pub elapsed_time: u64,
    pub pause: bool,
    pub screen_size: Point,
    pub world: World,
}

/// The alpha value after one screen-saver bookkeeping step: ramping up
/// toward opaque during the first thirty frames, back down toward
/// transparent after the configured deadline, untouched in between.
pub open spec fn saver_alpha(a: u8, elapsed: u64, sv: u32) -> u8 {
    if elapsed < 30 {
        if a + 10 <= 255 {
            (a + 10) as u8
        } else {
            255u8
        }
    } else if elapsed > sv + 30 {
        if a >= 10 {
            (a - 10) as u8
        } else {
            0u8
        }
    } else {
        a
    }
}

/// Whether `w` is a freshly built and seeded screen-saver world for the
/// configuration `args` on a `screen`-sized grid: a random soup pattern of
/// bounded extent, fully transparent, seeded around the center.
pub open spec fn fresh_saver_world(w: World, args: Args, screen: Point) -> bool {
    &&& w.wf()
    &&& w.birth_rule@ == args.rules.birth@
    &&& w.survival_rule@ == args.rules.survival@
    &&& w.color_bg_alive == args.color_bg_alive
    &&& w.color_bg_dead == args.color_bg_dead
    &&& w.fading_speed == args.fading_speed
    &&& w.color_alpha == 0
    &&& (w.cell_setup matches CellSetup::Special(t) && exists|sw: int, sh: int|
        15 <= sw <= 75 && 5 <= sh <= 25 && #[trigger] soup_text(t@, sw, sh))
    &&& w.size == screen
    &&& w.freshly_seeded()
}

/// How one screen-saver bookkeeping step relates the state after to the
/// state before: without screen-saver mode nothing happens; with it, the
/// world's alpha ramps, and past the deadline the world is thrown away for
/// a fresh random soup and the clock starts over.
pub open spec fn screen_saver_rel(pre: State, post: State) -> bool {
    &&& post.args == pre.args
    &&& post.cursor_pos == pre.cursor_pos
    &&& post.debug_info_page == pre.debug_info_page
    &&& post.pause == pre.pause
    &&& post.screen_size == pre.screen_size
    &&& match pre.args.screen_saver {
        Option::None => post.world == pre.world && post.elapsed_time == pre.elapsed_time,
        Option::Some(sv) => {
            if pre.elapsed_time >= sv + 60 {
                &&& post.elapsed_time == 0
                &&& fresh_saver_world(post.world, pre.args, pre.screen_size)
            } else {
                &&& post.elapsed_time == pre.elapsed_time
                &&& post.world.cells@ == pre.world.cells@
                &&& post.world.size == pre.world.size
                &&& post.world.birth_rule@ == pre.world.birth_rule@
                &&& post.world.survival_rule@ == pre.world.survival_rule@
                &&& post.world.cell_setup == pre.world.cell_setup
                &&& post.world.color_bg_alive == pre.world.color_bg_alive
                &&& post.world.color_bg_dead == pre.world.color_bg_dead
                &&& post.world.fading_speed == pre.world.fading_speed
                &&& post.world.color_alpha == saver_alpha(
                    pre.world.color_alpha,
                    pre.elapsed_time,
                    sv,
                )
            }
        },
    }
}

impl State {
    /// The running invariant: a well-formed world, workable configuration
    /// bounds, and a screen size whose area fits the grid arithmetic.
    pub open spec fn wf(self) -> bool {
        &&& self.world.wf()
        &&& args_wf(self.args)
        &&& self.screen_size.x >= 0
        &&& self.screen_size.y >= 0
        &&& self.screen_size.x * self.screen_size.y <= i32::MAX
    }

    /// Builds the initial state for a configuration: clock at zero, cursor
    /// at the origin, pause as configured, and a world that the first
    /// resize will populate.
    pub fn from_args(args: Args) -> (s: State)
        requires
            args_wf(args),
        ensures
            s.wf(),
            setup_equiv(s.args.cell_setup, args.cell_setup),
            s.args.color_bg_alive == args.color_bg_alive,
            s.args.color_bg_dead == args.color_bg_dead,
            s.args.delay == args.delay,
            s.args.fading_speed == args.fading_speed,
            s.args.frames_per_second == args.frames_per_second,
            s.args.paused == args.paused,
            s.args.rainbow == args.rainbow,
            s.args.rules.birth@ == args.rules.birth@,
            s.args.rules.survival@ == args.rules.survival@,
            s.args.screen_saver == args.screen_saver,
            s.cursor_pos == (Point { x: 0i32, y: 0i32 }),
            s.debug_info_page == 0,
            s.elapsed_time == 0,
            s.pause == args.paused,
            s.screen_size == (Point { x: 0i32, y: 0i32 }),
            s.world.birth_rule@ == args.rules.birth@,
            s.world.survival_rule@ == args.rules.survival@,
            s.world.color_bg_alive == args.color_bg_alive,
            s.world.color_bg_dead == args.color_bg_dead,
            s.world.fading_speed == args.fading_speed,
            s.world.cells@.len() == 0,
            args.screen_saver is None ==> s.world.color_alpha == 255 && setup_equiv(
                s.world.cell_setup,
                args.cell_setup,
            ),
    {
        let pause = args.paused;
        let args_clone = args.clone();
        proof {
            lemma_setup_equiv_text(args.cell_setup, args_clone.cell_setup);
        }

        let world = World::from_args(args_clone);
        proof {
            if args.screen_saver is None {
                lemma_setup_equiv_sym(args.cell_setup, args_clone.cell_setup);
                lemma_setup_equiv_trans(
                    world.cell_setup,
                    args_clone.cell_setup,
                    args.cell_setup,
                );
            }
        }

        let s = State {
            args,
            cursor_pos: Point::new(0, 0),
            debug_info_page: 0,
            elapsed_time: 0,
            pause,
            screen_size: Point::new(0, 0),
            world,
        };
        proof {
            assert(s.screen_size.x * s.screen_size.y == 0) by (nonlinear_arith)
                requires
                    s.screen_size.x == 0,
            ;
        }
        s
    }

    /// Takes over a new screen size and rebuilds the world's grid for it,
    /// re-seeding the configured pattern around the new center.
    pub fn resize(&mut self, screen_size: &Point)
        requires
            old(self).wf(),
            screen_size.x >= 0,
            screen_size.y >= 0,
            screen_size.x * screen_size.y <= i32::MAX,
        ensures
            final(self).wf(),
            final(self).screen_size == *screen_size,
            final(self).world.wf(),
            final(self).world.same_config(old(self).world),
            final(self).world.size == *screen_size,
            final(self).world.freshly_seeded(),
            final(self).args == old(self).args,
            final(self).cursor_pos == old(self).cursor_pos,
            final(self).debug_info_page == old(self).debug_info_page,
            final(self).elapsed_time == old(self).elapsed_time,
            final(self).pause == old(self).pause,
    {
        self.screen_size = *screen_size;
        self.world.resize(screen_size);
    }

    /// One tick: when not paused, runs the screen-saver bookkeeping, counts
    /// the clock up and advances the world one generation.
    pub fn elapse_time(&mut self)
        requires
            old(self).wf(),
            old(self).elapsed_time < u64::MAX,
        ensures
            final(self).wf(),
            old(self).pause ==> *final(self) == *old(self),
            !old(self).pause ==> exists|mid: State|
                {
                    &&& #[trigger] screen_saver_rel(*old(self), mid)
                    &&& final(self).args == mid.args
                    &&& final(self).cursor_pos == mid.cursor_pos
                    &&& final(self).debug_info_page == mid.debug_info_page
                    &&& final(self).pause == mid.pause
                    &&& final(self).screen_size == mid.screen_size
                    &&& final(self).elapsed_time == mid.elapsed_time + 1
                    &&& update_rel(mid.world, final(self).world)
                },
    {
        if self.pause {
            return;
        }

        self.handle_screen_saver();
        let ghost mid = *self;
        self.elapsed_time = self.elapsed_time + 1;
        self.world.update();
        proof {
            assert(screen_saver_rel(*old(self), mid));
        }
    }

    /// The screen-saver bookkeeping: fade the whole picture in over the
    /// first thirty frames, fade it back out after the configured number of
    /// frames, and once the fade-out is over throw the world away for a
    /// fresh random soup and restart the clock.
    fn handle_screen_saver(&mut self)
        requires
            old(self).wf(),
        ensures
            final(self).wf(),
            screen_saver_rel(*old(self), *final(self)),
    {
        match self.args.screen_saver {
            Some(screen_saver) => {
                if self.elapsed_time < 30 {
                    let bumped = self.world.color_alpha as i32 + 10;
                    let next = if 255 <= bumped {
                        255
                    } else {
                        bumped
                    };
                    self.world.color_alpha = next as u8;
                }

                if self.elapsed_time > (screen_saver + 30) as u64 {
                    let dropped = self.world.color_alpha as i32 - 10;
                    let next = if 0 >= dropped {
                        0
                    } else {
                        dropped
                    };
                    self.world.color_alpha = next as u8;
                }

                if self.elapsed_time >= (screen_saver + 60) as u64 {
                    let args_clone = self.args.clone();
                    proof {
                        lemma_setup_equiv_text(self.args.cell_setup, args_clone.cell_setup);
                    }
                    self.world = World::from_args(args_clone);
                    let screen = self.screen_size;
                    self.world.resize(&screen);
                    self.elapsed_time = 0;
                }
            },
            None => {},
        }
    }

    /// Stops or restarts time; editing is only possible while stopped.
    pub fn toggle_pause(&mut self)
        ensures
            final(self).pause == !old(self).pause,
            final(self).args == old(self).args,
            final(self).cursor_pos == old(self).cursor_pos,
            final(self).debug_info_page == old(self).debug_info_page,
            final(self).elapsed_time == old(self).elapsed_time,
            final(self).screen_size == old(self).screen_size,
            final(self).world == old(self).world,
    {
        self.pause = !self.pause;
    }

    /// While paused, flips the cell under the cursor between fully alive
    /// and fully dead; no other cell changes. Does nothing while running.
    pub fn toggle_life_at_cursor(&mut self)
        requires
            old(self).wf(),
            old(self).pause ==> 0 <= old(self).cursor_pos.x < old(self).world.size.x && 0 <= old(
                self,
            ).cursor_pos.y < old(self).world.size.y,
        ensures
            final(self).wf(),
            !old(self).pause ==> *final(self) == *old(self),
            old(self).pause ==> {
                let w = old(self).world;
                let i = w.size.x * old(self).cursor_pos.y + old(self).cursor_pos.x;
                &&& final(self).world.cells@ == w.cells@.update(
                    i,
                    if w.cells@[i].alive {
                        w.dead_cell()
                    } else {
                        w.alive_cell()
                    },
                )
                &&& final(self).world.same_config(w)
                &&& final(self).world.size == w.size
            },
            final(self).args == old(self).args,
            final(self).cursor_pos == old(self).cursor_pos,
            final(self).debug_info_page == old(self).debug_info_page,
            final(self).elapsed_time == old(self).elapsed_time,
            final(self).pause == old(self).pause,
            final(self).screen_size == old(self).screen_size,
    {
        if !self.pause {
            return;
        }

        proof {
            crate::state::world::lemma_grid_index_bounds(
                self.world.size.x as int,
                self.world.size.y as int,
                self.cursor_pos.x as int,
                self.cursor_pos.y as int,
            );
        }
        let i = (self.world.size.width() * self.cursor_pos.y + self.cursor_pos.x) as usize;
        if self.world.cells[i].alive {
            self.world.set_dead(i);
        } else {
            self.world.set_alive(i);
        }
    }

    /// Cycles the debug overlay to its next page, wrapping back to hidden
    /// after the last one.
    pub fn debug_info_next_page(&mut self)
        requires
            old(self).debug_info_page < i32::MAX,
        ensures
            final(self).debug_info_page == (if old(self).debug_info_page + 1
                > DEBUG_INFO_PAGE_TOTAL {
                0int
            } else {
                old(self).debug_info_page + 1
            }),
            final(self).args == old(self).args,
            final(self).cursor_pos == old(self).cursor_pos,
            final(self).elapsed_time == old(self).elapsed_time,
            final(self).pause == old(self).pause,
            final(self).screen_size == old(self).screen_size,
            final(self).world == old(self).world,
    {
        self.debug_info_page += 1;

        if self.debug_info_page > DEBUG_INFO_PAGE_TOTAL {
            self.debug_info_page = 0;
        }
    }

    /// While paused, moves the cursor one cell left, stopping at the left
    /// edge.
    pub fn move_cursor_left(&mut self)
        requires
            old(self).cursor_pos.x > i32::MIN,
        ensures
            !old(self).pause ==> *final(self) == *old(self),
            old(self).pause ==> final(self).cursor_pos.x == (if old(self).cursor_pos.x - 1 <= 0 {
                0int
            } else {
                old(self).cursor_pos.x - 1
            }),
            final(self).cursor_pos.y == old(self).cursor_pos.y,
            final(self).args == old(self).args,
            final(self).debug_info_page == old(self).debug_info_page,
            final(self).elapsed_time == old(self).elapsed_time,
            final(self).pause == old(self).pause,
            final(self).screen_size == old(self).screen_size,
            final(self).world == old(self).world,
    {
        if !self.pause {
            return;
        }

        self.cursor_pos.x -= 1;

        if self.cursor_pos.x <= 0 {
            self.cursor_pos.x = 0;
        }
    }

    /// While paused, moves the cursor one cell right, stopping at the right
    /// edge of the screen.
    pub fn move_cursor_right(&mut self)
        requires
            old(self).cursor_pos.x < i32::MAX,
            old(self).screen_size.x > i32::MIN,
        ensures
            !old(self).pause ==> *final(self) == *old(self),
            old(self).pause ==> final(self).cursor_pos.x == (if old(self).cursor_pos.x + 1 >= old(
                self,
            ).screen_size.x - 1 {
                old(self).screen_size.x - 1
            } else {
                old(self).cursor_pos.x + 1
            }),
            final(self).cursor_pos.y == old(self).cursor_pos.y,
            final(self).args == old(self).args,
            final(self).debug_info_page == old(self).debug_info_page,
            final(self).elapsed_time == old(self).elapsed_time,
            final(self).pause == old(self).pause,
            final(self).screen_size == old(self).screen_size,
            final(self).world == old(self).world,
    {
        if !self.pause {
            return;
        }

        self.cursor_pos.x += 1;

        if self.cursor_pos.x >= self.screen_size.width() - 1 {
            self.cursor_pos.x = self.screen_size.width() - 1;
        }
    }

    /// While paused, moves the cursor one cell up, stopping at the top
    /// edge.
    pub fn move_cursor_up(&mut self)
        requires
            old(self).cursor_pos.y > i32::MIN,
        ensures
            !old(self).pause ==> *final(self) == *old(self),
            old(self).pause ==> final(self).cursor_pos.y == (if old(self).cursor_pos.y - 1 <= 0 {
                0int
            } else {
                old(self).cursor_pos.y - 1
            }),
            final(self).cursor_pos.x == old(self).cursor_pos.x,
            final(self).args == old(self).args,
            final(self).debug_info_page == old(self).debug_info_page,
            final(self).elapsed_time == old(self).elapsed_time,
            final(self).pause == old(self).pause,
            final(self).screen_size == old(self).screen_size,
            final(self).world == old(self).world,
    {
        if !self.pause {
            return;
        }

        self.cursor_pos.y -= 1;

        if self.cursor_pos.y <= 0 {
            self.cursor_pos.y = 0;
        }
    }

    /// While paused, moves the cursor one cell down, stopping at the bottom
    /// edge of the screen.
    pub fn move_cursor_down(&mut self)
        requires
            old(self).cursor_pos.y < i32::MAX,
            old(self).screen_size.y > i32::MIN,
        ensures
            !old(self).pause ==> *final(self) == *old(self),
            old(self).pause ==> final(self).cursor_pos.y == (if old(self).cursor_pos.y + 1 >= old(
                self,
            ).screen_size.y - 1 {
                old(self).screen_size.y - 1
            } else {
                old(self).cursor_pos.y + 1
            }),
            final(self).cursor_pos.x == old(self).cursor_pos.x,
            final(self).args == old(self).args,
            final(self).debug_info_page == old(self).debug_info_page,
            final(self).elapsed_time == old(self).elapsed_time,
            final(self).pause == old(self).pause,
            final(self).screen_size == old(self).screen_size,
            final(self).world == old(self).world,
    {
        if !self.pause {
            return;
        }

        self.cursor_pos.y += 1;

        if self.cursor_pos.y >= self.screen_size.height() - 1 {
            self.cursor_pos.y = self.screen_size.height() - 1;
        }
    }
}

} // verus!
