use termgol::common::args::Args;
use termgol::common::color::Rgba;
use termgol::common::point::Point;
use termgol::state::cell_setup::CellSetup;
use termgol::state::world::World;

fn channel_distance(c: &Rgba, t: &Rgba) -> i32 {
    let dr = (c.r as i32 - t.r as i32).abs();
    let dg = (c.g as i32 - t.g as i32).abs();
    let db = (c.b as i32 - t.b as i32).abs();
    dr.max(dg).max(db)
}

#[test]
fn fade_converges_without_overshooting() {
    let target = Rgba::new(20, 200, 120, 255);
    let mut color = Rgba::new(120, 100, 220, 255);
    let speed = 30;

    // Every channel starts 100 away from the target, so the fade must
    // land exactly on the target within ceil(100 / 30) = 4 steps.
    let mut distance = channel_distance(&color, &target);
    assert_eq!(distance, 100);
    for step in 0..4 {
        color.fade(&target, speed);
        let next_distance = channel_distance(&color, &target);
        assert!(
            next_distance == (distance - speed).max(0),
            "unexpected distance after step {step}"
        );
        distance = next_distance;
    }
    assert_eq!(color, Rgba::new(20, 200, 120, 255));

    // Once on the target the color stays there.
    color.fade(&target, speed);
    assert_eq!(color, Rgba::new(20, 200, 120, 255));
}

#[test]
fn fade_snaps_to_the_target_when_the_distance_is_below_the_speed() {
    let target = Rgba::new(10, 10, 10, 255);
    let mut color = Rgba::new(13, 7, 10, 255);
    color.fade(&target, 200);
    assert_eq!(color, Rgba::new(10, 10, 10, 255));
}

#[test]
fn fading_speed_zero_freezes_dying_cells() {
    let mut args = Args::default();
    args.cell_setup = CellSetup::Blank;
    args.fading_speed = 0;
    let mut world = World::from_args(args);
    world.resize(&Point::new(3, 3));

    let i = (3 * 1 + 1) as usize;
    world.set_alive(i);
    let alive_bg = world.cells[i].color.bg;
    assert_ne!(alive_bg, world.color_bg_dead);

    // The cell dies but, with fading speed 0, appears as if it were not
    // dying: its color never moves.
    for _ in 0..10 {
        world.set_dead_fading(i);
        assert!(!world.cells[i].alive);
        assert_eq!(world.cells[i].color.bg, alive_bg);
    }
}

#[test]
fn negative_fading_speed_moves_channels_away_from_the_target() {
    let target = Rgba::new(0, 0, 0, 255);
    let mut color = Rgba::new(100, 0, 0, 255);
    color.fade(&target, -10);
    // The red channel is pushed away from the target; channels already on
    // the target stay.
    assert_eq!(color.r, 110);
    assert_eq!(color.g, 0);
    assert_eq!(color.b, 0);
}

#[test]
fn dying_cells_fade_step_by_step_during_updates() {
    let mut args = Args::default();
    args.cell_setup = CellSetup::Blank;
    args.fading_speed = 40;
    args.color_bg_alive = Rgba::new(200, 0, 0, 255);
    args.color_bg_dead = Rgba::new(0, 0, 0, 255);
    let mut world = World::from_args(args);
    world.resize(&Point::new(5, 5));

    let i = (5 * 2 + 2) as usize;
    world.set_alive(i);

    // The lone cell dies on the first update and then keeps fading by 40
    // per update: 200, 160, 120, 80, 40, 0.
    for expected in [160, 120, 80, 40, 0, 0] {
        world.update();
        assert!(!world.cells[i].alive);
        assert_eq!(world.cells[i].color.bg.r, expected);
    }
}

#[test]
fn blend_mixes_channels_by_alpha() {
    let over = Rgba::new(100, 200, 50, 128);
    let under = Rgba::new(0, 0, 0, 255);
    let blended = over.blend(&under);
    assert_eq!(blended.r, (128 * 100 / 255) as u8);
    assert_eq!(blended.g, (128 * 200 / 255) as u8);
    assert_eq!(blended.b, (128 * 50 / 255) as u8);
    assert_eq!(blended.a, 255);
}

#[test]
fn blend_keeps_an_opaque_color_and_drops_a_transparent_one() {
    let opaque = Rgba::new(1, 2, 3, 255);
    let transparent = Rgba::new(9, 9, 9, 0);
    let under = Rgba::new(4, 5, 6, 255);
    assert_eq!(opaque.blend(&under), opaque);
    assert_eq!(transparent.blend(&under), under);
}
