//! The automaton engine: a toroidal grid of cells evolved one generation per
//! update.
//!
//! The grid is a flat row-major array of `size.x * size.y` cells. Neighbor
//! lookups wrap around both edges (a torus); seeding places a pattern at the
//! grid center and silently drops points that fall outside. Each update
//! decides every cell from the previous generation alone: a live cell stays
//! alive iff its Moore-neighbor count is in the survival rule, a dead cell
//! is born iff the count is in the birth rule. Cells that come up alive get
//! the solid live color; cells that come up dead keep fading toward the dead
//! color instead of snapping to it.

use vstd::arithmetic::div_mod::{
    lemma_add_mod_noop_right, lemma_div_pos_is_pos, lemma_fundamental_div_mod,
    lemma_fundamental_div_mod_converse_div, lemma_fundamental_div_mod_converse_mod,
    lemma_mod_add_multiples_vanish, lemma_mod_division_less_than_divisor,
    lemma_multiply_divide_lt, lemma_small_mod,
};
use vstd::prelude::*;

use crate::common::args::Args;
use crate::common::color::{Color, Rgba};
use crate::common::point::Point;
use crate::state::cell::Cell;
use crate::state::cell_image::{image_points, kept_lines, lemma_max_width_nonneg, max_width, CellImage};
use crate::state::cell_setup::{setup_equiv, setup_text, soup_text, CellSetup};
use crate::state::rng::{new_rng, rand_range_i32};

verus! {

/// 1 for a live cell, 0 for a dead one.
pub open spec fn b2i(b: bool) -> int {
    if b {
        1
    } else {
        0
    }
}

/// Whether the cell at toroidal coordinates `(x, y)` is alive: both
/// coordinates are wrapped into range first.
pub open spec fn alive_at(alive: Seq<bool>, w: int, h: int, x: int, y: int) -> bool {
    alive[w * (y % h) + (x % w)]
}

/// The number of live cells among the eight Moore neighbors of `(x, y)`,
/// looked up with toroidal wraparound.
pub open spec fn neighbor_count(alive: Seq<bool>, w: int, h: int, x: int, y: int) -> int {
    b2i(alive_at(alive, w, h, x - 1, y)) + b2i(alive_at(alive, w, h, x + 1, y)) + b2i(
        alive_at(alive, w, h, x, y - 1),
    ) + b2i(alive_at(alive, w, h, x - 1, y - 1)) + b2i(alive_at(alive, w, h, x + 1, y - 1)) + b2i(
        alive_at(alive, w, h, x, y + 1),
    ) + b2i(alive_at(alive, w, h, x - 1, y + 1)) + b2i(alive_at(alive, w, h, x + 1, y + 1))
}

/// Whether the cell at in-range coordinates `(x, y)` is alive in the next
/// generation: survival rule for live cells, birth rule for dead ones,
/// decided on the pre-update grid alone.
pub open spec fn next_alive(
    alive: Seq<bool>,
    w: int,
    h: int,
    birth: Seq<u32>,
    survival: Seq<u32>,
    x: int,
    y: int,
) -> bool {
    let n = neighbor_count(alive, w, h, x, y);
    if alive[w * y + x] {
        survival.contains(n as u32)
    } else {
        birth.contains(n as u32)
    }
}

/// One full generation step of the life grid.
pub open spec fn step_alive(
    alive: Seq<bool>,
    w: int,
    h: int,
    birth: Seq<u32>,
    survival: Seq<u32>,
) -> Seq<bool> {
    Seq::new(alive.len(), |i: int| next_alive(alive, w, h, birth, survival, i % w, i / w))
}

/// The automaton: grid, rule tables, and the colors cells are drawn with.
pub struct World {
    pub birth_rule: Vec<u32>,
    pub cell_setup: CellSetup,
    pub cells: Vec<Cell>,
    pub color_alpha: u8,
    pub color_bg_alive: Rgba,
    pub color_bg_dead: Rgba,
    pub fading_speed: i32,
    pub size: Point,
    pub survival_rule: Vec<u32>,
}

impl World {
    /// The configuration bounds that hold for a world's whole life: the fade
    /// speed stays clear of the extreme the fade arithmetic cannot take, and
    /// the seed pattern text is addressable with 32-bit coordinates.
    pub open spec fn settings_wf(self) -> bool {
        &&& self.fading_speed >= i32::MIN + 256
        &&& setup_text(self.cell_setup).len() < i32::MAX
    }

    /// The grid invariant: nonnegative extents whose product fits `i32`, and
    /// exactly one cell per grid position.
    pub open spec fn grid_wf(self) -> bool {
        &&& self.size.x >= 0
        &&& self.size.y >= 0
        &&& self.size.x * self.size.y <= i32::MAX
        &&& self.cells@.len() == self.size.x * self.size.y
    }

    pub open spec fn wf(self) -> bool {
        self.settings_wf() && self.grid_wf()
    }

    /// The life grid alone: one flag per cell.
    pub open spec fn alive_map(self) -> Seq<bool> {
        self.cells@.map_values(|c: Cell| c.alive)
    }

    /// Everything but the grid and its size: rule tables, seed pattern and
    /// colors agree.
    pub open spec fn same_config(self, other: World) -> bool {
        &&& self.birth_rule@ == other.birth_rule@
        &&& self.cell_setup == other.cell_setup
        &&& self.color_alpha == other.color_alpha
        &&& self.color_bg_alive == other.color_bg_alive
        &&& self.color_bg_dead == other.color_bg_dead
        &&& self.fading_speed == other.fading_speed
        &&& self.survival_rule@ == other.survival_rule@
    }

    /// The cell a position gets when it comes up alive: the solid live
    /// background over the default foreground.
    pub open spec fn alive_cell(self) -> Cell {
        Cell { alive: true, color: Color { fg: Rgba::default_spec(), bg: self.color_bg_alive } }
    }

    /// The cell a position gets at seeding time when it is dead: the dead
    /// background exactly.
    pub open spec fn dead_cell(self) -> Cell {
        Cell { alive: false, color: Color { fg: Rgba::default_spec(), bg: self.color_bg_dead } }
    }

    /// The cell an existing cell turns into when it dies during a tick: dead,
    /// with its background moved one bounded fade step toward the dead color
    /// and its foreground kept.
    pub open spec fn faded_cell(self, c: Cell) -> Cell {
        Cell {
            alive: false,
            color: Color {
                fg: c.color.fg,
                bg: c.color.bg.faded(self.color_bg_dead, self.fading_speed as int),
            },
        }
    }

    /// Where the seed pattern is placed: the grid center minus half the
    /// pattern size, truncating.
    pub open spec fn seed_origin_x(self) -> int {
        self.size.x / 2 - max_width(kept_lines(setup_text(self.cell_setup))) / 2
    }

    pub open spec fn seed_origin_y(self) -> int {
        self.size.y / 2 - kept_lines(setup_text(self.cell_setup)).len() / 2
    }

    /// Whether seeding puts a live cell at grid position `(x, y)`: some
    /// pattern point, translated by the seed origin, lands there.
    pub open spec fn seeded_at(self, x: int, y: int) -> bool {
        let pts = image_points(kept_lines(setup_text(self.cell_setup)));
        exists|k: int|
            0 <= k < pts.len() && pts[k].x + self.seed_origin_x() == x && pts[k].y
                + self.seed_origin_y() == y
    }

    /// The cell at grid coordinates `(x, y)`.
    pub open spec fn cell_at(self, x: int, y: int) -> Cell {
        self.cells@[self.size.x * y + x]
    }

    /// Whether the grid holds exactly the freshly seeded pattern: live cells
    /// where the centered pattern has points inside the grid, dead cells
    /// everywhere else.
    pub open spec fn freshly_seeded(self) -> bool {
        forall|x: int, y: int|
            0 <= x < self.size.x && 0 <= y < self.size.y ==> #[trigger] self.cell_at(x, y) == (
            if self.seeded_at(x, y) {
                self.alive_cell()
            } else {
                self.dead_cell()
            })
    }
}

/// The row-major index of in-range coordinates is in range of the cell
/// array.
pub proof fn lemma_grid_index_bounds(w: int, h: int, x: int, y: int)
    requires
        0 <= x < w,
        0 <= y < h,
    ensures
        0 <= w * y + x < w * h,
{
    assert(0 <= w * y + x < w * h) by (nonlinear_arith)
        requires
            0 <= x < w,
            0 <= y < h,
    ;
}

/// Distinct in-range coordinates get distinct row-major indices.
pub proof fn lemma_grid_index_injective(w: int, x1: int, y1: int, x2: int, y2: int)
    requires
        0 <= x1 < w,
        0 <= x2 < w,
        y1 >= 0,
        y2 >= 0,
        w * y1 + x1 == w * y2 + x2,
    ensures
        x1 == x2 && y1 == y2,
{
    assert(x1 == x2 && y1 == y2) by (nonlinear_arith)
        requires
            0 <= x1 < w,
            0 <= x2 < w,
            y1 >= 0,
            y2 >= 0,
            w * y1 + x1 == w * y2 + x2,
    ;
}

impl World {
    /// Builds a world from a configuration: an empty zero-by-zero grid that
    /// the first resize will populate. In screen-saver mode the configured
    /// pattern is replaced by a random soup of random extent and the world
    /// starts fully transparent for its fade-in.
    pub fn from_args(args: Args) -> (w: World)
        requires
            args.fading_speed >= i32::MIN + 256,
            setup_text(args.cell_setup).len() < i32::MAX,
        ensures
            w.wf(),
            w.birth_rule@ == args.rules.birth@,
            w.survival_rule@ == args.rules.survival@,
            w.color_bg_alive == args.color_bg_alive,
            w.color_bg_dead == args.color_bg_dead,
            w.fading_speed == args.fading_speed,
            w.size == (Point { x: 0i32, y: 0i32 }),
            w.cells@.len() == 0,
            args.screen_saver is None ==> w.color_alpha == 255 && setup_equiv(
                w.cell_setup,
                args.cell_setup,
            ),
            args.screen_saver is Some ==> w.color_alpha == 0 && (w.cell_setup matches
                CellSetup::Special(t) && exists|sw: int, sh: int|
                15 <= sw <= 75 && 5 <= sh <= 25 && #[trigger] soup_text(t@, sw, sh)),
    {
        let (color_alpha, cell_setup) = if args.screen_saver.is_some() {
            let mut rng = new_rng();
            let width = rand_range_i32(&mut rng, 15, 75);
            let height = rand_range_i32(&mut rng, 5, 25);
            let soup = CellSetup::rect_soup(width, height);
            proof {
                assert(setup_text(soup).len() <= 25 * 76) by (nonlinear_arith)
                    requires
                        15 <= width <= 75,
                        5 <= height <= 25,
                        setup_text(soup).len() == height * (width as int + 1),
                ;
            }
            (0u8, soup)
        } else {
            (255u8, args.cell_setup)
        };

        let w = Self {
            birth_rule: args.rules.birth,
            cell_setup,
            cells: Vec::new(),
            color_alpha,
            color_bg_alive: args.color_bg_alive,
            color_bg_dead: args.color_bg_dead,
            fading_speed: args.fading_speed,
            size: Point::new(0, 0),
            survival_rule: args.rules.survival,
        };
        proof {
            assert(w.size.x * w.size.y == 0) by (nonlinear_arith)
                requires
                    w.size.x == 0,
            ;
        }
        w
    }

    /// `n` wrapped into `[0, m)`: ordinary remainder, shifted up once when it
    /// comes out negative.
    fn toroidal_mod(n: i32, m: i32) -> (r: i32)
        requires
            m > 0,
        ensures
            r == n as int % m as int,
    {
        let modulus = n % m;

        proof {
            if n < 0 {
                let r0 = (-(n as int)) % (m as int);
                let q0 = (-(n as int)) / (m as int);
                lemma_fundamental_div_mod(-(n as int), m as int);
                if r0 == 0 {
                    assert(n as int == (-q0) * (m as int) + 0) by (nonlinear_arith)
                        requires
                            -(n as int) == q0 * (m as int),
                    ;
                    lemma_fundamental_div_mod_converse_mod(n as int, m as int, -q0, 0);
                } else {
                    assert(n as int == (-q0 - 1) * (m as int) + ((m as int) - r0))
                        by (nonlinear_arith)
                        requires
                            -(n as int) == q0 * (m as int) + r0,
                    ;
                    lemma_fundamental_div_mod_converse_mod(
                        n as int,
                        m as int,
                        -q0 - 1,
                        m as int - r0,
                    );
                }
            }
        }

        if modulus < 0 {
            return m + modulus;
        }
        modulus
    }

    /// Any coordinate mapped onto the torus: both components wrapped into
    /// range.
    fn transform_toroidal_point(&self, p: &Point) -> (q: Point)
        requires
            self.size.x >= 1,
            self.size.y >= 1,
        ensures
            q.x == p.x as int % self.size.x as int,
            q.y == p.y as int % self.size.y as int,
            0 <= q.x < self.size.x,
            0 <= q.y < self.size.y,
    {
        let new_x = Self::toroidal_mod(p.x, self.size.width());
        let new_y = Self::toroidal_mod(p.y, self.size.height());
        Point::new(new_x, new_y)
    }

    /// The flat index of in-range coordinates.
    fn point_index(&self, p: &Point) -> (idx: usize)
        requires
            self.grid_wf(),
            0 <= p.x < self.size.x,
            0 <= p.y < self.size.y,
        ensures
            idx == self.size.x * p.y + p.x,
            idx < self.cells@.len(),
    {
        proof {
            lemma_grid_index_bounds(self.size.x as int, self.size.y as int, p.x as int, p.y as int);
        }
        (self.size.width() * p.y + p.x) as usize
    }

    /// Makes the cell at flat index `i` alive, with the solid live color.
    pub fn set_alive(&mut self, i: usize)
        requires
            i < old(self).cells@.len(),
        ensures
            final(self).cells@ == old(self).cells@.update(i as int, old(self).alive_cell()),
            final(self).same_config(*old(self)),
            final(self).size == old(self).size,
    {
        let bg = self.color_bg_alive;

        let cell = Cell { alive: true, color: Color { fg: Rgba::default(), bg } };

        self.cells[i] = cell;
    }

    /// Makes the cell at in-range coordinates `p` alive.
    fn set_alive_p(&mut self, p: Point)
        requires
            old(self).grid_wf(),
            0 <= p.x < old(self).size.x,
            0 <= p.y < old(self).size.y,
        ensures
            final(self).cells@ == old(self).cells@.update(
                old(self).size.x * p.y + p.x,
                old(self).alive_cell(),
            ),
            final(self).same_config(*old(self)),
            final(self).size == old(self).size,
    {
        let i = self.point_index(&p);
        self.set_alive(i);
    }

    /// Makes the cell at flat index `i` dead with the dead color exactly —
    /// no fading. Used at seeding time and by the manual editor.
    pub fn set_dead(&mut self, i: usize)
        requires
            i < old(self).cells@.len(),
        ensures
            final(self).cells@ == old(self).cells@.update(i as int, old(self).dead_cell()),
            final(self).same_config(*old(self)),
            final(self).size == old(self).size,
    {
        let cell = Cell {
            alive: false,
            color: Color { fg: Rgba::default(), bg: self.color_bg_dead },
        };

        self.cells[i] = cell;
    }

    /// Marks the cell at flat index `i` dead and moves its background one
    /// bounded fade step toward the dead color, leaving a decay trail
    /// instead of an instant cutoff.
    pub fn set_dead_fading(&mut self, i: usize)
        requires
            i < old(self).cells@.len(),
            old(self).fading_speed >= i32::MIN + 256,
        ensures
            final(self).cells@ == old(self).cells@.update(
                i as int,
                old(self).faded_cell(old(self).cells@[i as int]),
            ),
            final(self).same_config(*old(self)),
            final(self).size == old(self).size,
    {
        let target = self.color_bg_dead;
        let fading_speed = self.fading_speed;
        let mut cell = self.cells[i];
        cell.alive = false;
        cell.color.bg.fade(&target, fading_speed);
        self.cells[i] = cell;
    }

    /// Replaces the whole grid with dead cells in the dead color, one per
    /// grid position.
    fn setup_blank(&mut self)
        requires
            old(self).size.x >= 0,
            old(self).size.y >= 0,
            old(self).size.x * old(self).size.y <= i32::MAX,
        ensures
            final(self).grid_wf(),
            final(self).cells@.len() == old(self).size.x * old(self).size.y,
            forall|i: int|
                0 <= i < final(self).cells@.len() ==> final(self).cells@[i] == old(
                    self,
                ).dead_cell(),
            final(self).same_config(*old(self)),
            final(self).size == old(self).size,
    {
        let dead_cell = Cell {
            alive: false,
            color: Color { fg: Rgba::default(), bg: self.color_bg_dead },
        };

        let total = (self.size.width() * self.size.height()) as usize;
        let mut cells: Vec<Cell> = Vec::new();
        while cells.len() < total
            invariant
                cells@.len() <= total,
                forall|i: int| 0 <= i < cells@.len() ==> cells@[i] == dead_cell,
            decreases total - cells@.len(),
        {
            cells.push(dead_cell);
        }
        self.cells = cells;
    }

    /// Wipes the grid to all-dead and re-applies the seed pattern, centered;
    /// pattern points that fall outside the grid are dropped, never wrapped.
    pub fn setup_cells(&mut self)
        requires
            old(self).settings_wf(),
            old(self).size.x >= 0,
            old(self).size.y >= 0,
            old(self).size.x * old(self).size.y <= i32::MAX,
        ensures
            final(self).wf(),
            final(self).same_config(*old(self)),
            final(self).size == old(self).size,
            final(self).freshly_seeded(),
    {
        self.setup_blank();

        let ghost lines = kept_lines(setup_text(self.cell_setup));
        proof {
            lemma_max_width_nonneg(lines);
        }

        let cell_image = CellImage::from_setup(&self.cell_setup);
        let cell_image_pos = self.size.half().minus(&cell_image.size.half());

        let ghost pts = image_points(lines);
        let ghost ox = self.seed_origin_x();
        let ghost oy = self.seed_origin_y();
        let ghost alive = self.alive_cell();
        let ghost dead = self.dead_cell();
        let ghost w = self.size.x as int;
        let ghost h = self.size.y as int;

        proof {
            assert forall|x: int, y: int|
                0 <= x < w && 0 <= y < h implies #[trigger] self.cell_at(x, y) == dead by {
                lemma_grid_index_bounds(w, h, x, y);
            }
        }

        let mut idx: usize = 0;
        while idx < cell_image.living_points.len()
            invariant
                0 <= idx <= cell_image.living_points@.len(),
                cell_image.living_points@ == pts,
                cell_image_pos.x == ox,
                cell_image_pos.y == oy,
                self.settings_wf(),
                self.grid_wf(),
                self.same_config(*old(self)),
                self.size == old(self).size,
                w == self.size.x as int,
                h == self.size.y as int,
                ox == self.seed_origin_x(),
                oy == self.seed_origin_y(),
                pts == image_points(kept_lines(setup_text(self.cell_setup))),
                alive == self.alive_cell(),
                dead == self.dead_cell(),
                forall|x: int, y: int|
                    0 <= x < w && 0 <= y < h ==> #[trigger] self.cell_at(x, y) == (
                    if (exists|k: int|
                        0 <= k < idx && pts[k].x + ox == x && pts[k].y + oy == y) {
                        alive
                    } else {
                        dead
                    }),
            decreases cell_image.living_points@.len() - idx,
        {
            let p = cell_image.living_points[idx];
            let sx: i64 = cell_image_pos.x as i64 + p.x as i64;
            let sy: i64 = cell_image_pos.y as i64 + p.y as i64;

            if 0 <= sx && sx < self.size.width() as i64 && 0 <= sy && sy
                < self.size.height() as i64 {
                let target = Point::new(sx as i32, sy as i32);
                let ghost prev = *self;
                let ghost before = self.cells@;
                self.set_alive_p(target);
                proof {
                    lemma_grid_index_bounds(w, h, target.x as int, target.y as int);
                    assert forall|x: int, y: int|
                        0 <= x < w && 0 <= y < h implies #[trigger] self.cell_at(x, y) == (
                    if (exists|k: int|
                        0 <= k < idx + 1 && pts[k].x + ox == x && pts[k].y + oy == y) {
                        alive
                    } else {
                        dead
                    }) by {
                        lemma_grid_index_bounds(w, h, x, y);
                        assert(prev.cell_at(x, y) == before[w * y + x]);
                        if w * y + x == w * (target.y as int) + target.x as int {
                            lemma_grid_index_injective(w, x, y, target.x as int, target.y as int);
                            assert(pts[idx as int].x + ox == x && pts[idx as int].y + oy == y);
                        } else {
                            assert(self.cells@[w * y + x] == before[w * y + x]);
                            assert(!(pts[idx as int].x + ox == x && pts[idx as int].y + oy == y));
                        }
                    }
                }
            } else {
                proof {
                    assert forall|x: int, y: int|
                        0 <= x < w && 0 <= y < h implies #[trigger] self.cell_at(x, y) == (
                    if (exists|k: int|
                        0 <= k < idx + 1 && pts[k].x + ox == x && pts[k].y + oy == y) {
                        alive
                    } else {
                        dead
                    }) by {
                        if pts[idx as int].x + ox == x && pts[idx as int].y + oy == y {
                            assert(false);
                        }
                    }
                }
            }

            idx += 1;
        }
    }

    /// Replaces the grid size, reallocates the cell array, and re-seeds the
    /// configured pattern around the new center.
    pub fn resize(&mut self, size: &Point)
        requires
            old(self).settings_wf(),
            size.x >= 0,
            size.y >= 0,
            size.x * size.y <= i32::MAX,
        ensures
            final(self).wf(),
            final(self).same_config(*old(self)),
            final(self).size == *size,
            final(self).freshly_seeded(),
    {
        self.size = *size;
        self.setup_cells();
    }

    /// The flat indices of the eight Moore neighbors of `p`, wrapped around
    /// the torus, in the order left, right, up, up-left, up-right, down,
    /// down-left, down-right.
    fn get_neighbour_indices(&self, p: &Point) -> (r: Vec<usize>)
        requires
            self.grid_wf(),
            self.size.x >= 1,
            self.size.y >= 1,
            0 <= p.x < self.size.x,
            0 <= p.y < self.size.y,
        ensures
            r@.len() == 8,
            forall|k: int| 0 <= k < 8 ==> #[trigger] r@[k] < self.cells@.len(),
            r@[0] == self.size.x * (p.y as int % self.size.y as int) + ((p.x - 1) % self.size.x
                as int),
            r@[1] == self.size.x * (p.y as int % self.size.y as int) + ((p.x + 1) % self.size.x
                as int),
            r@[2] == self.size.x * ((p.y - 1) % self.size.y as int) + (p.x as int % self.size.x
                as int),
            r@[3] == self.size.x * ((p.y - 1) % self.size.y as int) + ((p.x - 1) % self.size.x
                as int),
            r@[4] == self.size.x * ((p.y - 1) % self.size.y as int) + ((p.x + 1) % self.size.x
                as int),
            r@[5] == self.size.x * ((p.y + 1) % self.size.y as int) + (p.x as int % self.size.x
                as int),
            r@[6] == self.size.x * ((p.y + 1) % self.size.y as int) + ((p.x - 1) % self.size.x
                as int),
            r@[7] == self.size.x * ((p.y + 1) % self.size.y as int) + ((p.x + 1) % self.size.x
                as int),
    {
        let mut r: Vec<usize> = Vec::new();
        let q0 = self.transform_toroidal_point(&p.left());
        let q1 = self.transform_toroidal_point(&p.right());
        let q2 = self.transform_toroidal_point(&p.up());
        let q3 = self.transform_toroidal_point(&p.up_left());
        let q4 = self.transform_toroidal_point(&p.up_right());
        let q5 = self.transform_toroidal_point(&p.down());
        let q6 = self.transform_toroidal_point(&p.down_left());
        let q7 = self.transform_toroidal_point(&p.down_right());
        r.push(self.point_index(&q0));
        r.push(self.point_index(&q1));
        r.push(self.point_index(&q2));
        r.push(self.point_index(&q3));
        r.push(self.point_index(&q4));
        r.push(self.point_index(&q5));
        r.push(self.point_index(&q6));
        r.push(self.point_index(&q7));
        r
    }

    /// How many of the eight toroidal neighbors of `p` are alive.
    fn count_neighbor_cells(&self, p: &Point) -> (count: u32)
        requires
            self.grid_wf(),
            self.size.x >= 1,
            self.size.y >= 1,
            0 <= p.x < self.size.x,
            0 <= p.y < self.size.y,
        ensures
            count == neighbor_count(
                self.alive_map(),
                self.size.x as int,
                self.size.y as int,
                p.x as int,
                p.y as int,
            ),
            count <= 8,
    {
        let neighbour_indices = self.get_neighbour_indices(p);
        let mut count: u32 = 0;

        if self.cells[neighbour_indices[0]].alive {
            count += 1;
        }
        if self.cells[neighbour_indices[1]].alive {
            count += 1;
        }
        if self.cells[neighbour_indices[2]].alive {
            count += 1;
        }
        if self.cells[neighbour_indices[3]].alive {
            count += 1;
        }
        if self.cells[neighbour_indices[4]].alive {
            count += 1;
        }
        if self.cells[neighbour_indices[5]].alive {
            count += 1;
        }
        if self.cells[neighbour_indices[6]].alive {
            count += 1;
        }
        if self.cells[neighbour_indices[7]].alive {
            count += 1;
        }

        proof {
            assert(forall|i: int|
                0 <= i < self.cells@.len() ==> #[trigger] self.alive_map()[i] == self.cells@[i].alive);
        }

        count
    }

    /// Advances the world one generation. Every cell is decided from the
    /// pre-update grid alone; cells that come up alive get the live color,
    /// cells that come up dead fade one step toward the dead color.
    pub fn update(&mut self)
        requires
            old(self).wf(),
        ensures
            update_rel(*old(self), *final(self)),
    {
        let ghost am = self.alive_map();
        let ghost birth = self.birth_rule@;
        let ghost survival = self.survival_rule@;
        let ghost w = self.size.x as int;
        let ghost h = self.size.y as int;

        let mut is_alive: Vec<bool> = Vec::new();

        let mut y: i32 = 0;
        while y < self.size.height()
            invariant
                self == old(self),
                old(self).wf(),
                am == self.alive_map(),
                birth == self.birth_rule@,
                survival == self.survival_rule@,
                w == self.size.x as int,
                h == self.size.y as int,
                0 <= y <= h,
                is_alive@.len() == w * y,
                forall|j: int|
                    0 <= j < is_alive@.len() ==> #[trigger] is_alive@[j] == next_alive(
                        am,
                        w,
                        h,
                        birth,
                        survival,
                        j % w,
                        j / w,
                    ),
            decreases h - y,
        {
            let mut x: i32 = 0;
            while x < self.size.width()
                invariant
                    self == old(self),
                    old(self).wf(),
                    am == self.alive_map(),
                    birth == self.birth_rule@,
                    survival == self.survival_rule@,
                    w == self.size.x as int,
                    h == self.size.y as int,
                    0 <= y < h,
                    0 <= x <= w,
                    is_alive@.len() == w * y + x,
                    forall|j: int|
                        0 <= j < is_alive@.len() ==> #[trigger] is_alive@[j] == next_alive(
                            am,
                            w,
                            h,
                            birth,
                            survival,
                            j % w,
                            j / w,
                        ),
                decreases w - x,
            {
                let i = self.point_index(&Point::new(x, y));
                let neighbour_cell_count = self.count_neighbor_cells(&Point::new(x, y));

                let next = if self.cells[i].alive {
                    rule_contains(&self.survival_rule, neighbour_cell_count)
                } else {
                    rule_contains(&self.birth_rule, neighbour_cell_count)
                };
                is_alive.push(next);

                proof {
                    assert(w * y + x == (y as int) * w + x) by (nonlinear_arith);
                    lemma_fundamental_div_mod_converse_mod(w * y + x, w, y as int, x as int);
                    lemma_fundamental_div_mod_converse_div(w * y + x, w, y as int, x as int);
                    assert(self.alive_map()[w * y + x] == self.cells@[w * y + x].alive);
                    assert(is_alive@[w * y + x] == next_alive(
                        am,
                        w,
                        h,
                        birth,
                        survival,
                        x as int,
                        y as int,
                    ));
                }
                x += 1;
            }
            proof {
                assert(w * (y + 1) == w * y + w) by (nonlinear_arith);
            }
            y += 1;
        }

        proof {
            if h == 0 {
                assert(w * h == 0) by (nonlinear_arith)
                    requires
                        h == 0,
                ;
            }
            assert(is_alive@.len() == self.cells@.len());
        }

        let ghost cells0 = self.cells@;

        let mut i: usize = 0;
        while i < self.cells.len()
            invariant
                0 <= i <= self.cells@.len(),
                self.cells@.len() == cells0.len(),
                is_alive@.len() == cells0.len(),
                self.same_config(*old(self)),
                self.size == old(self).size,
                self.settings_wf(),
                cells0 == old(self).cells@,
                forall|j: int|
                    0 <= j < i ==> #[trigger] self.cells@[j] == (if is_alive@[j] {
                        old(self).alive_cell()
                    } else {
                        old(self).faded_cell(cells0[j])
                    }),
                forall|j: int| i <= j < cells0.len() ==> #[trigger] self.cells@[j] == cells0[j],
            decreases self.cells@.len() - i,
        {
            if is_alive[i] {
                self.set_alive(i);
            } else {
                self.set_dead_fading(i);
            }
            i += 1;
        }

        proof {
            assert forall|x: int, y: int|
                0 <= x < old(self).size.x && 0 <= y < old(self).size.y implies #[trigger] self
                .cell_at(x, y) == (if next_alive(am, w, h, birth, survival, x, y) {
                old(self).alive_cell()
            } else {
                old(self).faded_cell(old(self).cell_at(x, y))
            }) by {
                lemma_grid_index_bounds(w, h, x, y);
                assert(w * y + x == y * w + x) by (nonlinear_arith);
                lemma_fundamental_div_mod_converse_mod(w * y + x, w, y, x);
                lemma_fundamental_div_mod_converse_div(w * y + x, w, y, x);
            }
            assert(self.alive_map() =~= step_alive(am, w, h, birth, survival));
        }
    }
}

/// How a world after one `update` relates to the world before it: the
/// configuration and size are kept, and every cell is decided from the old
/// grid — the live cell look for cells that come up alive, one fade step for
/// cells that come up dead.
pub open spec fn update_rel(pre: World, post: World) -> bool {
    &&& post.wf()
    &&& post.same_config(pre)
    &&& post.size == pre.size
    &&& post.cells@.len() == pre.cells@.len()
    &&& forall|x: int, y: int|
        0 <= x < pre.size.x && 0 <= y < pre.size.y ==> #[trigger] post.cell_at(x, y) == (
        if next_alive(
            pre.alive_map(),
            pre.size.x as int,
            pre.size.y as int,
            pre.birth_rule@,
            pre.survival_rule@,
            x,
            y,
        ) {
            pre.alive_cell()
        } else {
            pre.faded_cell(pre.cell_at(x, y))
        })
    &&& post.alive_map() == step_alive(
        pre.alive_map(),
        pre.size.x as int,
        pre.size.y as int,
        pre.birth_rule@,
        pre.survival_rule@,
    )
}

/// The grid after `k` generation steps.
pub open spec fn iter_alive(
    alive: Seq<bool>,
    w: int,
    h: int,
    birth: Seq<u32>,
    survival: Seq<u32>,
    k: nat,
) -> Seq<bool>
    decreases k,
{
    if k == 0 {
        alive
    } else {
        step_alive(iter_alive(alive, w, h, birth, survival, (k - 1) as nat), w, h, birth, survival)
    }
}

/// Stepping never changes the number of cells.
pub proof fn lemma_iter_alive_len(
    alive: Seq<bool>,
    w: int,
    h: int,
    birth: Seq<u32>,
    survival: Seq<u32>,
    k: nat,
)
    ensures
        iter_alive(alive, w, h, birth, survival, k).len() == alive.len(),
    decreases k,
{
    if k > 0 {
        lemma_iter_alive_len(alive, w, h, birth, survival, (k - 1) as nat);
    }
}

/// On any torus with `w, h >= 1`, every one of the eight Moore-neighbor
/// offsets of any coordinate — wrapped toroidally — yields a flat index
/// inside `[0, w * h)`.
pub proof fn lemma_neighbor_lookup_in_bounds(w: int, h: int, x: int, y: int, dx: int, dy: int)
    requires
        w >= 1,
        h >= 1,
        -1 <= dx <= 1,
        -1 <= dy <= 1,
    ensures
        0 <= w * ((y + dy) % h) + ((x + dx) % w) < w * h,
{
    lemma_mod_division_less_than_divisor(x + dx, w);
    lemma_mod_division_less_than_divisor(y + dy, h);
    lemma_grid_index_bounds(w, h, (x + dx) % w, (y + dy) % h);
}

/// A live cell with no live neighbors dies under the survival rule `{2, 3}`
/// in one generation, whatever the birth rule.
pub proof fn lemma_isolated_cell_dies(
    alive: Seq<bool>,
    w: int,
    h: int,
    birth: Seq<u32>,
    survival: Seq<u32>,
    x: int,
    y: int,
)
    requires
        1 <= w,
        1 <= h,
        0 <= x < w,
        0 <= y < h,
        alive.len() == w * h,
        alive[w * y + x],
        neighbor_count(alive, w, h, x, y) == 0,
        survival == seq![2u32, 3u32],
    ensures
        !next_alive(alive, w, h, birth, survival, x, y),
{
    assert(survival[0] == 2u32 && survival[1] == 3u32);
    assert(!survival.contains(0u32));
}

/// A dead cell under the birth rule `{3}` is born in one generation exactly
/// when it has three live neighbors.
pub proof fn lemma_dead_cell_birth(
    alive: Seq<bool>,
    w: int,
    h: int,
    birth: Seq<u32>,
    survival: Seq<u32>,
    x: int,
    y: int,
)
    requires
        1 <= w,
        1 <= h,
        0 <= x < w,
        0 <= y < h,
        alive.len() == w * h,
        !alive[w * y + x],
        birth == seq![3u32],
    ensures
        next_alive(alive, w, h, birth, survival, x, y) <==> neighbor_count(alive, w, h, x, y)
            == 3,
{
    assert(birth[0] == 3u32);
    let n = neighbor_count(alive, w, h, x, y);
    assert(0 <= n <= 8);
    if n == 3 {
        assert(birth.contains(3u32));
    }
}

/// With an empty birth rule one generation step never brings a dead cell to
/// life: a cell alive afterwards was alive before.
pub proof fn lemma_empty_birth_step(
    alive: Seq<bool>,
    w: int,
    h: int,
    birth: Seq<u32>,
    survival: Seq<u32>,
    i: int,
)
    requires
        w >= 1,
        birth.len() == 0,
        0 <= i < alive.len(),
    ensures
        step_alive(alive, w, h, birth, survival)[i] ==> alive[i],
{
    lemma_fundamental_div_mod(i, w);
    assert((i / w) * w == w * (i / w)) by (nonlinear_arith);
    assert(w * (i / w) + i % w == i);
}

/// With an empty birth rule no dead cell is ever born, however many
/// generations pass: a cell alive after `k` steps was alive at the start.
pub proof fn lemma_empty_birth_never_born(
    alive: Seq<bool>,
    w: int,
    h: int,
    birth: Seq<u32>,
    survival: Seq<u32>,
    k: nat,
    i: int,
)
    requires
        w >= 1,
        birth.len() == 0,
        0 <= i < alive.len(),
    ensures
        iter_alive(alive, w, h, birth, survival, k)[i] ==> alive[i],
    decreases k,
{
    if k > 0 {
        let prev = iter_alive(alive, w, h, birth, survival, (k - 1) as nat);
        lemma_iter_alive_len(alive, w, h, birth, survival, (k - 1) as nat);
        lemma_empty_birth_step(prev, w, h, birth, survival, i);
        lemma_empty_birth_never_born(alive, w, h, birth, survival, (k - 1) as nat, i);
    }
}

/// The grid translated toroidally by `(dx, dy)`: cell `(x, y)` of the
/// result holds what cell `(x - dx, y - dy)`, wrapped around the torus,
/// held before.
pub open spec fn translated(alive: Seq<bool>, w: int, h: int, dx: int, dy: int) -> Seq<bool> {
    Seq::new(alive.len(), |i: int| alive[w * ((i / w - dy) % h) + ((i % w - dx) % w)])
}

/// A toroidal lookup into a translated grid is the lookup into the grid
/// itself, shifted back.
proof fn lemma_alive_at_translated(
    alive: Seq<bool>,
    w: int,
    h: int,
    dx: int,
    dy: int,
    u: int,
    v: int,
)
    requires
        w >= 1,
        h >= 1,
        alive.len() == w * h,
    ensures
        alive_at(translated(alive, w, h, dx, dy), w, h, u, v) == alive_at(
            alive,
            w,
            h,
            u - dx,
            v - dy,
        ),
{
    lemma_mod_division_less_than_divisor(u, w);
    lemma_mod_division_less_than_divisor(v, h);
    let k = w * (v % h) + (u % w);
    lemma_grid_index_bounds(w, h, u % w, v % h);
    assert(w * (v % h) == (v % h) * w) by (nonlinear_arith);
    lemma_fundamental_div_mod_converse_div(k, w, v % h, u % w);
    lemma_fundamental_div_mod_converse_mod(k, w, v % h, u % w);
    lemma_add_mod_noop_right(-dx, u, w);
    lemma_add_mod_noop_right(-dy, v, h);
}

/// The lookup does not care whether its coordinates were already wrapped.
proof fn lemma_alive_at_mod_args(
    alive: Seq<bool>,
    w: int,
    h: int,
    u: int,
    v: int,
    ox: int,
    oy: int,
)
    requires
        w >= 1,
        h >= 1,
    ensures
        alive_at(alive, w, h, (u % w) + ox, (v % h) + oy) == alive_at(alive, w, h, u + ox, v + oy),
{
    lemma_add_mod_noop_right(ox, u, w);
    lemma_add_mod_noop_right(oy, v, h);
}

/// The neighbor count of a translated grid is the count at the shifted
/// position of the grid itself.
proof fn lemma_neighbor_count_translated(
    alive: Seq<bool>,
    w: int,
    h: int,
    dx: int,
    dy: int,
    x: int,
    y: int,
)
    requires
        w >= 1,
        h >= 1,
        alive.len() == w * h,
    ensures
        neighbor_count(translated(alive, w, h, dx, dy), w, h, x, y) == neighbor_count(
            alive,
            w,
            h,
            x - dx,
            y - dy,
        ),
{
    lemma_alive_at_translated(alive, w, h, dx, dy, x - 1, y);
    lemma_alive_at_translated(alive, w, h, dx, dy, x + 1, y);
    lemma_alive_at_translated(alive, w, h, dx, dy, x, y - 1);
    lemma_alive_at_translated(alive, w, h, dx, dy, x - 1, y - 1);
    lemma_alive_at_translated(alive, w, h, dx, dy, x + 1, y - 1);
    lemma_alive_at_translated(alive, w, h, dx, dy, x, y + 1);
    lemma_alive_at_translated(alive, w, h, dx, dy, x - 1, y + 1);
    lemma_alive_at_translated(alive, w, h, dx, dy, x + 1, y + 1);
}

/// The neighbor count does not care whether its coordinates were already
/// wrapped.
proof fn lemma_neighbor_count_mod_args(alive: Seq<bool>, w: int, h: int, u: int, v: int)
    requires
        w >= 1,
        h >= 1,
    ensures
        neighbor_count(alive, w, h, u % w, v % h) == neighbor_count(alive, w, h, u, v),
{
    lemma_alive_at_mod_args(alive, w, h, u, v, -1, 0);
    lemma_alive_at_mod_args(alive, w, h, u, v, 1, 0);
    lemma_alive_at_mod_args(alive, w, h, u, v, 0, -1);
    lemma_alive_at_mod_args(alive, w, h, u, v, -1, -1);
    lemma_alive_at_mod_args(alive, w, h, u, v, 1, -1);
    lemma_alive_at_mod_args(alive, w, h, u, v, 0, 1);
    lemma_alive_at_mod_args(alive, w, h, u, v, -1, 1);
    lemma_alive_at_mod_args(alive, w, h, u, v, 1, 1);
}

/// Translation invariance of the automaton: stepping a toroidally
/// translated grid gives the translation of the stepped grid. A pattern
/// therefore evolves the same way wherever it sits on the torus.
pub proof fn lemma_step_translation_invariant(
    alive: Seq<bool>,
    w: int,
    h: int,
    birth: Seq<u32>,
    survival: Seq<u32>,
    dx: int,
    dy: int,
)
    requires
        w >= 1,
        h >= 1,
        alive.len() == w * h,
    ensures
        step_alive(translated(alive, w, h, dx, dy), w, h, birth, survival) == translated(
            step_alive(alive, w, h, birth, survival),
            w,
            h,
            dx,
            dy,
        ),
{
    let moved = translated(alive, w, h, dx, dy);
    let stepped = step_alive(alive, w, h, birth, survival);
    let lhs = step_alive(moved, w, h, birth, survival);
    let rhs = translated(stepped, w, h, dx, dy);

    assert forall|i: int| 0 <= i < w * h implies lhs[i] == rhs[i] by {
        let x = i % w;
        let y = i / w;
        lemma_mod_division_less_than_divisor(i, w);
        lemma_div_pos_is_pos(i, w);
        lemma_multiply_divide_lt(i, w, h);
        lemma_fundamental_div_mod(i, w);
        assert(y * w == w * y) by (nonlinear_arith);
        assert(w * y + x == i);

        // The left side decides cell (x, y) on the translated grid.
        lemma_neighbor_count_translated(alive, w, h, dx, dy, x, y);

        // The right side decides the shifted-back cell on the grid itself.
        let xs = (x - dx) % w;
        let ys = (y - dy) % h;
        lemma_mod_division_less_than_divisor(x - dx, w);
        lemma_mod_division_less_than_divisor(y - dy, h);
        let j = w * ys + xs;
        lemma_grid_index_bounds(w, h, xs, ys);
        assert(w * ys == ys * w) by (nonlinear_arith);
        lemma_fundamental_div_mod_converse_div(j, w, ys, xs);
        lemma_fundamental_div_mod_converse_mod(j, w, ys, xs);
        lemma_neighbor_count_mod_args(alive, w, h, x - dx, y - dy);
    }
    assert(lhs =~= rhs);
}

/// A value one torus width around its range reduces by at most one shift.
proof fn lemma_mod_near(a: int, m: int)
    requires
        m > 0,
        -m <= a < 2 * m,
    ensures
        a % m == (if a < 0 {
            a + m
        } else if a >= m {
            a - m
        } else {
            a
        }),
{
    if a < 0 {
        lemma_small_mod((a + m) as nat, m as nat);
        lemma_mod_add_multiples_vanish(a, m);
    } else if a >= m {
        lemma_small_mod((a - m) as nat, m as nat);
        lemma_mod_add_multiples_vanish(a - m, m);
    } else {
        lemma_small_mod(a as nat, m as nat);
    }
}

/// The four phases of the glider, placed with its bounding box at (2, 2):
/// the shape
/// ```text
///   .O.
///   ..O
///   OOO
/// ```
/// and what Conway's rules make of it, one tick at a time.
pub open spec fn glider1_at(u: int, v: int) -> bool {
    ||| (u, v) == (3int, 2int)
    ||| (u, v) == (4int, 3int)
    ||| (u, v) == (2int, 4int)
    ||| (u, v) == (3int, 4int)
    ||| (u, v) == (4int, 4int)
}

pub open spec fn glider2_at(u: int, v: int) -> bool {
    ||| (u, v) == (2int, 3int)
    ||| (u, v) == (4int, 3int)
    ||| (u, v) == (3int, 4int)
    ||| (u, v) == (4int, 4int)
    ||| (u, v) == (3int, 5int)
}

pub open spec fn glider3_at(u: int, v: int) -> bool {
    ||| (u, v) == (4int, 3int)
    ||| (u, v) == (2int, 4int)
    ||| (u, v) == (4int, 4int)
    ||| (u, v) == (3int, 5int)
    ||| (u, v) == (4int, 5int)
}

pub open spec fn glider4_at(u: int, v: int) -> bool {
    ||| (u, v) == (3int, 3int)
    ||| (u, v) == (4int, 4int)
    ||| (u, v) == (5int, 4int)
    ||| (u, v) == (3int, 5int)
    ||| (u, v) == (4int, 5int)
}

/// Whether the grid holds exactly the pattern `pat`: alive there, dead
/// everywhere else.
pub open spec fn grid_is(alive: Seq<bool>, w: int, h: int, pat: spec_fn(int, int) -> bool) -> bool {
    forall|u: int, v: int| 0 <= u < w && 0 <= v < h ==> alive[w * v + u] == #[trigger] pat(u, v)
}

/// One generation of Conway's rules turns the first glider phase into the
/// second, on any torus of width and height at least 10.
proof fn lemma_glider_step_1(alive: Seq<bool>, w: int, h: int)
    requires
        w >= 10,
        h >= 10,
        alive.len() == w * h,
        grid_is(alive, w, h, |u: int, v: int| glider1_at(u, v)),
    ensures
        grid_is(
            step_alive(alive, w, h, seq![3u32], seq![2u32, 3u32]),
            w,
            h,
            |u: int, v: int| glider2_at(u, v),
        ),
{
    lemma_glider_step_general(alive, w, h, |u: int, v: int| glider1_at(u, v), |u: int, v: int| glider2_at(u, v));
}

/// One generation turns the second glider phase into the third.
proof fn lemma_glider_step_2(alive: Seq<bool>, w: int, h: int)
    requires
        w >= 10,
        h >= 10,
        alive.len() == w * h,
        grid_is(alive, w, h, |u: int, v: int| glider2_at(u, v)),
    ensures
        grid_is(
            step_alive(alive, w, h, seq![3u32], seq![2u32, 3u32]),
            w,
            h,
            |u: int, v: int| glider3_at(u, v),
        ),
{
    lemma_glider_step_general(
        alive,
        w,
        h,
        |u: int, v: int| glider2_at(u, v),
        |u: int, v: int| glider3_at(u, v),
    );
}

/// One generation turns the third glider phase into the fourth.
proof fn lemma_glider_step_3(alive: Seq<bool>, w: int, h: int)
    requires
        w >= 10,
        h >= 10,
        alive.len() == w * h,
        grid_is(alive, w, h, |u: int, v: int| glider3_at(u, v)),
    ensures
        grid_is(
            step_alive(alive, w, h, seq![3u32], seq![2u32, 3u32]),
            w,
            h,
            |u: int, v: int| glider4_at(u, v),
        ),
{
    lemma_glider_step_general(
        alive,
        w,
        h,
        |u: int, v: int| glider3_at(u, v),
        |u: int, v: int| glider4_at(u, v),
    );
}

/// One generation turns the fourth glider phase into the first again,
/// shifted one cell down-right.
proof fn lemma_glider_step_4(alive: Seq<bool>, w: int, h: int)
    requires
        w >= 10,
        h >= 10,
        alive.len() == w * h,
        grid_is(alive, w, h, |u: int, v: int| glider4_at(u, v)),
    ensures
        grid_is(
            step_alive(alive, w, h, seq![3u32], seq![2u32, 3u32]),
            w,
            h,
            |u: int, v: int| glider1_at(u - 1, v - 1),
        ),
{
    lemma_glider_step_general(
        alive,
        w,
        h,
        |u: int, v: int| glider4_at(u, v),
        |u: int, v: int| glider1_at(u - 1, v - 1),
    );
}

/// Glider periodicity at every toroidal placement: a grid holding exactly
/// the glider shifted by any `(dx, dy)` — wrapped around the torus as
/// needed — holds, four generations later, exactly the glider shifted by
/// `(dx + 1, dy + 1)`.
pub proof fn lemma_glider_period_four_anywhere(
    alive: Seq<bool>,
    w: int,
    h: int,
    dx: int,
    dy: int,
)
    requires
        w >= 10,
        h >= 10,
        alive.len() == w * h,
        grid_is(alive, w, h, |u: int, v: int| glider1_at((u - dx) % w, (v - dy) % h)),
    ensures
        grid_is(
            iter_alive(alive, w, h, seq![3u32], seq![2u32, 3u32], 4),
            w,
            h,
            |u: int, v: int| glider1_at((u - (dx + 1)) % w, (v - (dy + 1)) % h),
        ),
{
    let birth = seq![3u32];
    let survival = seq![2u32, 3u32];
    let base = translated(alive, w, h, -dx, -dy);

    // The grid shifted back is exactly the glider at its home position.
    assert forall|u: int, v: int| 0 <= u < w && 0 <= v < h implies base[w * v + u]
        == #[trigger] glider1_at(u, v) by {
        lemma_grid_index_bounds(w, h, u, v);
        assert(w * v == v * w) by (nonlinear_arith);
        lemma_fundamental_div_mod_converse_div(w * v + u, w, v, u);
        lemma_fundamental_div_mod_converse_mod(w * v + u, w, v, u);
        let u2 = (u + dx) % w;
        let v2 = (v + dy) % h;
        lemma_mod_division_less_than_divisor(u + dx, w);
        lemma_mod_division_less_than_divisor(v + dy, h);
        let placed = |a: int, b: int| glider1_at((a - dx) % w, (b - dy) % h);
        assert(alive[w * v2 + u2] == placed(u2, v2));
        assert(placed(u2, v2) == glider1_at((u2 - dx) % w, (v2 - dy) % h));
        lemma_add_mod_noop_right(-dx, u + dx, w);
        lemma_add_mod_noop_right(-dy, v + dy, h);
        lemma_small_mod(u as nat, w as nat);
        lemma_small_mod(v as nat, h as nat);
    }

    // Shifting forward again gives the grid back.
    assert forall|i: int| 0 <= i < w * h implies translated(base, w, h, dx, dy)[i]
        == #[trigger] alive[i] by {
        let x = i % w;
        let y = i / w;
        lemma_mod_division_less_than_divisor(i, w);
        lemma_div_pos_is_pos(i, w);
        lemma_multiply_divide_lt(i, w, h);
        lemma_fundamental_div_mod(i, w);
        assert(y * w == w * y) by (nonlinear_arith);

        let x3 = (x - dx) % w;
        let y3 = (y - dy) % h;
        lemma_mod_division_less_than_divisor(x - dx, w);
        lemma_mod_division_less_than_divisor(y - dy, h);
        let k = w * y3 + x3;
        lemma_grid_index_bounds(w, h, x3, y3);
        assert(w * y3 == y3 * w) by (nonlinear_arith);
        lemma_fundamental_div_mod_converse_div(k, w, y3, x3);
        lemma_fundamental_div_mod_converse_mod(k, w, y3, x3);
        lemma_add_mod_noop_right(dx, x - dx, w);
        lemma_add_mod_noop_right(dy, y - dy, h);
        lemma_small_mod(x as nat, w as nat);
        lemma_small_mod(y as nat, h as nat);
    }
    assert(translated(base, w, h, dx, dy) =~= alive);

    // Step the home-position glider four times and carry the translation
    // through each step.
    let b1 = step_alive(base, w, h, birth, survival);
    let b2 = step_alive(b1, w, h, birth, survival);
    let b3 = step_alive(b2, w, h, birth, survival);
    let b4 = step_alive(b3, w, h, birth, survival);
    lemma_glider_step_1(base, w, h);
    lemma_glider_step_2(b1, w, h);
    lemma_glider_step_3(b2, w, h);
    lemma_glider_step_4(b3, w, h);

    let a1 = step_alive(alive, w, h, birth, survival);
    let a2 = step_alive(a1, w, h, birth, survival);
    let a3 = step_alive(a2, w, h, birth, survival);
    let a4 = step_alive(a3, w, h, birth, survival);
    lemma_step_translation_invariant(base, w, h, birth, survival, dx, dy);
    assert(a1 == translated(b1, w, h, dx, dy));
    lemma_step_translation_invariant(b1, w, h, birth, survival, dx, dy);
    assert(a2 == translated(b2, w, h, dx, dy));
    lemma_step_translation_invariant(b2, w, h, birth, survival, dx, dy);
    assert(a3 == translated(b3, w, h, dx, dy));
    lemma_step_translation_invariant(b3, w, h, birth, survival, dx, dy);
    assert(a4 == translated(b4, w, h, dx, dy));

    assert(iter_alive(alive, w, h, birth, survival, 0) == alive);
    assert(iter_alive(alive, w, h, birth, survival, 1) == a1);
    assert(iter_alive(alive, w, h, birth, survival, 2) == a2);
    assert(iter_alive(alive, w, h, birth, survival, 3) == a3);
    assert(iter_alive(alive, w, h, birth, survival, 4) == a4);

    // Read the translated result back as the glider at (dx + 1, dy + 1).
    assert forall|u: int, v: int| 0 <= u < w && 0 <= v < h implies a4[w * v + u]
        == #[trigger] glider1_at((u - (dx + 1)) % w, (v - (dy + 1)) % h) by {
        lemma_grid_index_bounds(w, h, u, v);
        assert(w * v == v * w) by (nonlinear_arith);
        lemma_fundamental_div_mod_converse_div(w * v + u, w, v, u);
        lemma_fundamental_div_mod_converse_mod(w * v + u, w, v, u);
        let u4 = (u - dx) % w;
        let v4 = (v - dy) % h;
        lemma_mod_division_less_than_divisor(u - dx, w);
        lemma_mod_division_less_than_divisor(v - dy, h);
        lemma_grid_index_bounds(w, h, u4, v4);
        let shifted = |a: int, b: int| glider1_at(a - 1, b - 1);
        assert(b4[w * v4 + u4] == shifted(u4, v4));
        assert(shifted(u4, v4) == glider1_at(u4 - 1, v4 - 1));
        // (u - dx) wrapped then shifted by one more cell equals
        // (u - dx - 1) wrapped, except when the wrap lands on 0 — and
        // there both sides miss the glider's box.
        lemma_add_mod_noop_right(-1, u - dx, w);
        lemma_add_mod_noop_right(-1, v - dy, h);
        if u4 >= 1 {
            lemma_small_mod((u4 - 1) as nat, w as nat);
        } else {
            lemma_mod_near(u4 - 1, w);
        }
        if v4 >= 1 {
            lemma_small_mod((v4 - 1) as nat, h as nat);
        } else {
            lemma_mod_near(v4 - 1, h);
        }
    }
}

/// One generation step between two exactly-held patterns, proved cell by
/// cell: the workhorse behind the four glider phase lemmas. The two
/// patterns must be related by Conway's rules; the solver checks that for
/// every cell.
#[verifier::rlimit(100)]
proof fn lemma_glider_step_general(
    alive: Seq<bool>,
    w: int,
    h: int,
    pre: spec_fn(int, int) -> bool,
    post: spec_fn(int, int) -> bool,
)
    requires
        w >= 10,
        h >= 10,
        alive.len() == w * h,
        grid_is(alive, w, h, pre),
        forall|u: int, v: int| #[trigger] pre(u, v) ==> 2 <= u <= 5 && 2 <= v <= 5,
        forall|x: int, y: int|
            1 <= x <= 6 && 1 <= y <= 6 ==> (#[trigger] post(x, y) == (if pre(x, y) {
                glider_count(pre, x, y) == 2 || glider_count(pre, x, y) == 3
            } else {
                glider_count(pre, x, y) == 3
            })),
        forall|u: int, v: int| #[trigger] post(u, v) ==> 2 <= u <= 5 && 2 <= v <= 5,
    ensures
        grid_is(step_alive(alive, w, h, seq![3u32], seq![2u32, 3u32]), w, h, post),
{
    let birth = seq![3u32];
    let survival = seq![2u32, 3u32];
    let stepped = step_alive(alive, w, h, birth, survival);

    assert forall|x: int, y: int| 0 <= x < w && 0 <= y < h implies stepped[w * y + x]
        == #[trigger] post(x, y) by {
        lemma_grid_index_bounds(w, h, x, y);
        assert(y * w == w * y) by (nonlinear_arith);
        lemma_fundamental_div_mod_converse_div(w * y + x, w, y, x);
        lemma_fundamental_div_mod_converse_mod(w * y + x, w, y, x);
        assert(stepped[w * y + x] == next_alive(alive, w, h, birth, survival, x, y));

        lemma_glider_count(alive, w, h, pre, x, y);
        let n = neighbor_count(alive, w, h, x, y);
        assert(survival[0] == 2u32 && survival[1] == 3u32 && birth[0] == 3u32);
        assert(0 <= n <= 8);
        if n == 2 {
            assert(survival.contains(2u32));
        }
        if n == 3 {
            assert(survival.contains(3u32));
            assert(birth.contains(3u32));
        }
    }
}

/// The number of live neighbors a cell sees when the grid holds exactly a
/// pattern confined to the box `[2, 5] x [2, 5]`.
pub open spec fn glider_count(pat: spec_fn(int, int) -> bool, x: int, y: int) -> int {
    b2i(pat(x - 1, y)) + b2i(pat(x + 1, y)) + b2i(pat(x, y - 1)) + b2i(pat(x - 1, y - 1)) + b2i(
        pat(x + 1, y - 1),
    ) + b2i(pat(x, y + 1)) + b2i(pat(x - 1, y + 1)) + b2i(pat(x + 1, y + 1))
}

/// On a torus of at least 10 by 10, the toroidal neighbor count over a grid
/// holding exactly a box-confined pattern equals the plain, unwrapped count.
proof fn lemma_glider_count(
    alive: Seq<bool>,
    w: int,
    h: int,
    pat: spec_fn(int, int) -> bool,
    x: int,
    y: int,
)
    requires
        w >= 10,
        h >= 10,
        alive.len() == w * h,
        grid_is(alive, w, h, pat),
        forall|u: int, v: int| #[trigger] pat(u, v) ==> 2 <= u <= 5 && 2 <= v <= 5,
        0 <= x < w,
        0 <= y < h,
    ensures
        neighbor_count(alive, w, h, x, y) == glider_count(pat, x, y),
{
    lemma_glider_lookup(alive, w, h, pat, x - 1, y);
    lemma_glider_lookup(alive, w, h, pat, x + 1, y);
    lemma_glider_lookup(alive, w, h, pat, x, y - 1);
    lemma_glider_lookup(alive, w, h, pat, x - 1, y - 1);
    lemma_glider_lookup(alive, w, h, pat, x + 1, y - 1);
    lemma_glider_lookup(alive, w, h, pat, x, y + 1);
    lemma_glider_lookup(alive, w, h, pat, x - 1, y + 1);
    lemma_glider_lookup(alive, w, h, pat, x + 1, y + 1);
}

/// A single toroidal lookup into a grid holding a box-confined pattern:
/// wrapping never reaches the box from the outside, so the lookup is the
/// plain pattern value.
proof fn lemma_glider_lookup(
    alive: Seq<bool>,
    w: int,
    h: int,
    pat: spec_fn(int, int) -> bool,
    u: int,
    v: int,
)
    requires
        w >= 10,
        h >= 10,
        alive.len() == w * h,
        grid_is(alive, w, h, pat),
        forall|a: int, b: int| #[trigger] pat(a, b) ==> 2 <= a <= 5 && 2 <= b <= 5,
        -1 <= u <= w,
        -1 <= v <= h,
    ensures
        alive_at(alive, w, h, u, v) == pat(u, v),
{
    lemma_mod_near(u, w);
    lemma_mod_near(v, h);
    lemma_mod_division_less_than_divisor(u, w);
    lemma_mod_division_less_than_divisor(v, h);
    assert(alive[w * (v % h) + (u % w)] == pat(u % w, v % h));
    if u % w != u || v % h != v {
        assert(!pat(u % w, v % h));
        assert(!pat(u, v));
    }
}

/// Whether `n` occurs in a rule table.
fn rule_contains(rule: &Vec<u32>, n: u32) -> (r: bool)
    ensures
        r == rule@.contains(n),
{
    let mut k: usize = 0;
    while k < rule.len()
        invariant
            0 <= k <= rule@.len(),
            forall|j: int| 0 <= j < k ==> rule@[j] != n,
        decreases rule@.len() - k,
    {
        if rule[k] == n {
            return true;
        }
        k += 1;
    }
    false
}

} // verus!
