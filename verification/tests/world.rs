use termgol::common::args::Args;
use termgol::common::point::Point;
use termgol::state::cell_setup::CellSetup;
use termgol::state::world::World;

fn world_with_rules(birth: Vec<u32>, survival: Vec<u32>, width: i32, height: i32) -> World {
    let mut args = Args::default();
    args.cell_setup = CellSetup::Blank;
    args.rules.birth = birth;
    args.rules.survival = survival;
    let mut world = World::from_args(args);
    world.resize(&Point::new(width, height));
    world
}

fn set_alive_at(world: &mut World, x: i32, y: i32) {
    let i = (world.size.x * y + x) as usize;
    world.set_alive(i);
}

fn alive_cells(world: &World) -> Vec<(i32, i32)> {
    let mut out = Vec::new();
    for y in 0..world.size.y {
        for x in 0..world.size.x {
            if world.cells[(world.size.x * y + x) as usize].alive {
                out.push((x, y));
            }
        }
    }
    out
}

#[test]
fn blank_world_resize_makes_all_dead_cells() {
    let world = world_with_rules(vec![3], vec![2, 3], 6, 4);
    assert_eq!(world.cells.len(), 24);
    assert!(alive_cells(&world).is_empty());
}

#[test]
fn isolated_live_cell_dies_after_one_update() {
    let mut world = world_with_rules(vec![3], vec![2, 3], 5, 5);
    set_alive_at(&mut world, 2, 2);
    assert_eq!(alive_cells(&world), vec![(2, 2)]);

    world.update();

    assert!(alive_cells(&world).is_empty());
}

#[test]
fn dead_cell_with_three_neighbors_is_born() {
    let mut world = world_with_rules(vec![3], vec![2, 3], 7, 7);
    set_alive_at(&mut world, 2, 2);
    set_alive_at(&mut world, 2, 3);
    set_alive_at(&mut world, 2, 4);

    world.update();

    assert!(world.cells[(7 * 3 + 3) as usize].alive);
}

#[test]
fn dead_cell_with_two_neighbors_stays_dead() {
    let mut world = world_with_rules(vec![3], vec![2, 3], 7, 7);
    set_alive_at(&mut world, 2, 2);
    set_alive_at(&mut world, 2, 3);

    world.update();

    assert!(!world.cells[(7 * 3 + 3) as usize].alive);
}

#[test]
fn dead_cell_with_four_neighbors_stays_dead() {
    let mut world = world_with_rules(vec![3], vec![2, 3], 7, 7);
    set_alive_at(&mut world, 2, 2);
    set_alive_at(&mut world, 2, 3);
    set_alive_at(&mut world, 2, 4);
    set_alive_at(&mut world, 3, 2);

    world.update();

    assert!(!world.cells[(7 * 3 + 3) as usize].alive);
}

#[test]
fn glider_translates_one_diagonal_cell_every_four_updates() {
    let mut world = world_with_rules(vec![3], vec![2, 3], 10, 10);
    // The classic glider, upper-left corner at (3, 3):
    //   .O.
    //   ..O
    //   OOO
    let glider = [(4, 3), (5, 4), (3, 5), (4, 5), (5, 5)];
    for (x, y) in glider {
        set_alive_at(&mut world, x, y);
    }

    for _ in 0..4 {
        world.update();
    }

    let mut expected: Vec<(i32, i32)> = glider.iter().map(|(x, y)| (x + 1, y + 1)).collect();
    expected.sort();
    let mut actual = alive_cells(&world);
    actual.sort();
    assert_eq!(actual, expected);
}

#[test]
fn glider_crosses_the_toroidal_edge_and_comes_back_around() {
    let mut world = world_with_rules(vec![3], vec![2, 3], 6, 6);
    let glider = [(1, 0), (2, 1), (0, 2), (1, 2), (2, 2)];
    for (x, y) in glider {
        set_alive_at(&mut world, x, y);
    }

    // On a 6x6 torus the glider returns to its starting cells after
    // traveling the full diagonal: 6 * 4 updates.
    for _ in 0..24 {
        world.update();
    }

    let mut expected: Vec<(i32, i32)> = glider.to_vec();
    expected.sort();
    let mut actual = alive_cells(&world);
    actual.sort();
    assert_eq!(actual, expected);
}

#[test]
fn toroidal_neighbor_counts_wrap_at_every_edge() {
    // On a 2x2 torus every cell sees the other three cells (and itself)
    // through wrapping; with all four alive each neighbor count is 8, so
    // with survival rule {8} everything survives.
    let mut world = world_with_rules(vec![], vec![8], 2, 2);
    for (x, y) in [(0, 0), (1, 0), (0, 1), (1, 1)] {
        set_alive_at(&mut world, x, y);
    }

    world.update();
    assert_eq!(alive_cells(&world).len(), 4);

    // With survival rule {3} the same neighbor counts kill every cell.
    let mut world = world_with_rules(vec![], vec![3], 2, 2);
    for (x, y) in [(0, 0), (1, 0), (0, 1), (1, 1)] {
        set_alive_at(&mut world, x, y);
    }

    world.update();
    assert!(alive_cells(&world).is_empty());
}

#[test]
fn empty_birth_rule_never_births_cells() {
    let mut world = world_with_rules(vec![], vec![2, 3], 8, 8);
    for (x, y) in [(2, 2), (2, 3), (3, 2), (3, 3), (5, 5), (5, 6), (6, 5)] {
        set_alive_at(&mut world, x, y);
    }

    let mut before = alive_cells(&world);
    for _ in 0..6 {
        world.update();
        let after = alive_cells(&world);
        for cell in &after {
            assert!(before.contains(cell), "a dead cell was born at {cell:?}");
        }
        before = after;
    }
}

#[test]
fn update_on_an_empty_grid_is_a_no_op() {
    let mut world = world_with_rules(vec![3], vec![2, 3], 0, 0);
    assert_eq!(world.cells.len(), 0);
    world.update();
    assert_eq!(world.cells.len(), 0);
}

#[test]
fn rpentonimo_reseeds_five_centered_cells_on_a_40_by_20_grid() {
    let mut args = Args::default();
    args.cell_setup = CellSetup::RPentonimo;
    let mut world = World::from_args(args);
    world.resize(&Point::new(40, 20));

    // The pattern text spans 5 lines (including the blank first and last
    // line) by 3 columns, so its top-left corner lands at
    // (40/2 - 3/2, 20/2 - 5/2) = (19, 8).
    let mut actual = alive_cells(&world);
    actual.sort();
    let mut expected = vec![(19, 9), (20, 9), (20, 10), (21, 10), (20, 11)];
    expected.sort();
    assert_eq!(actual, expected);
}

#[test]
fn rpentonimo_clipped_by_a_small_grid_drops_only_outside_points() {
    let mut args = Args::default();
    args.cell_setup = CellSetup::RPentonimo;
    let mut world = World::from_args(args);
    world.resize(&Point::new(40, 20));
    world.resize(&Point::new(2, 2));

    // The seed origin is now (0, -1); of the five pattern points only
    // (0, 1), (1, 1) and (1, 2) stay inside, landing at (0, 0), (1, 0)
    // and (1, 1). Nothing wraps around.
    let mut actual = alive_cells(&world);
    actual.sort();
    let mut expected = vec![(0, 0), (1, 0), (1, 1)];
    expected.sort();
    assert_eq!(actual, expected);
}

#[test]
fn set_dead_resets_the_cell_to_the_dead_color() {
    let mut world = world_with_rules(vec![3], vec![2, 3], 3, 3);
    set_alive_at(&mut world, 1, 1);
    let i = (3 * 1 + 1) as usize;
    assert_eq!(world.cells[i].color.bg, world.color_bg_alive);

    world.set_dead(i);
    assert!(!world.cells[i].alive);
    assert_eq!(world.cells[i].color.bg, world.color_bg_dead);
}
