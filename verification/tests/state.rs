use termgol::common::args::Args;
use termgol::common::point::Point;
use termgol::state::cell_setup::CellSetup;
use termgol::state::State;

fn paused_state(width: i32, height: i32) -> State {
    let mut args = Args::default();
    args.cell_setup = CellSetup::Blank;
    args.paused = true;
    let mut state = State::from_args(args);
    state.resize(&Point::new(width, height));
    state
}

#[test]
fn from_args_starts_at_the_origin_with_the_clock_at_zero() {
    let state = State::from_args(Args::default());
    assert_eq!((state.cursor_pos.x, state.cursor_pos.y), (0, 0));
    assert_eq!(state.elapsed_time, 0);
    assert_eq!(state.debug_info_page, 0);
    assert!(!state.pause);
    assert_eq!(state.world.cells.len(), 0);
}

#[test]
fn toggle_pause_flips_back_and_forth() {
    let mut state = State::from_args(Args::default());
    assert!(!state.pause);
    state.toggle_pause();
    assert!(state.pause);
    state.toggle_pause();
    assert!(!state.pause);
}

#[test]
fn elapse_time_ticks_the_clock_and_the_world() {
    let mut args = Args::default();
    args.cell_setup = CellSetup::Blank;
    let mut state = State::from_args(args);
    state.resize(&Point::new(5, 5));

    let i = (5 * 2 + 2) as usize;
    state.world.set_alive(i);
    state.elapse_time();

    assert_eq!(state.elapsed_time, 1);
    // The lone cell has no neighbors and dies.
    assert!(!state.world.cells[i].alive);
}

#[test]
fn elapse_time_does_nothing_while_paused() {
    let mut state = paused_state(5, 5);
    let i = (5 * 2 + 2) as usize;
    state.world.set_alive(i);

    state.elapse_time();

    assert_eq!(state.elapsed_time, 0);
    assert!(state.world.cells[i].alive);
}

#[test]
fn toggle_life_at_cursor_flips_a_single_cell() {
    let mut state = paused_state(4, 4);
    state.cursor_pos = Point::new(2, 1);
    let i = (4 * 1 + 2) as usize;

    assert!(!state.world.cells[i].alive);
    state.toggle_life_at_cursor();
    assert!(state.world.cells[i].alive);
    let alive_count = state.world.cells.iter().filter(|c| c.alive).count();
    assert_eq!(alive_count, 1);

    state.toggle_life_at_cursor();
    assert!(!state.world.cells[i].alive);
}

#[test]
fn toggle_life_at_cursor_requires_pause() {
    let mut args = Args::default();
    args.cell_setup = CellSetup::Blank;
    let mut state = State::from_args(args);
    state.resize(&Point::new(4, 4));
    state.cursor_pos = Point::new(1, 1);

    state.toggle_life_at_cursor();
    assert!(state.world.cells.iter().all(|c| !c.alive));
}

#[test]
fn cursor_moves_clamp_to_the_screen() {
    let mut state = paused_state(4, 3);

    state.move_cursor_left();
    assert_eq!((state.cursor_pos.x, state.cursor_pos.y), (0, 0));
    state.move_cursor_up();
    assert_eq!((state.cursor_pos.x, state.cursor_pos.y), (0, 0));

    for _ in 0..10 {
        state.move_cursor_right();
    }
    assert_eq!(state.cursor_pos.x, 3);
    for _ in 0..10 {
        state.move_cursor_down();
    }
    assert_eq!(state.cursor_pos.y, 2);

    state.move_cursor_left();
    assert_eq!(state.cursor_pos.x, 2);
    state.move_cursor_up();
    assert_eq!(state.cursor_pos.y, 1);
}

#[test]
fn cursor_does_not_move_while_running() {
    let mut state = paused_state(4, 3);
    state.toggle_pause();
    state.move_cursor_right();
    state.move_cursor_down();
    assert_eq!((state.cursor_pos.x, state.cursor_pos.y), (0, 0));
}

#[test]
fn debug_info_page_cycles_through_all_pages() {
    let mut state = State::from_args(Args::default());
    assert_eq!(state.debug_info_page, 0);
    state.debug_info_next_page();
    assert_eq!(state.debug_info_page, 1);
    state.debug_info_next_page();
    assert_eq!(state.debug_info_page, 2);
    state.debug_info_next_page();
    assert_eq!(state.debug_info_page, 0);
}

#[test]
fn screen_saver_mode_reseeds_after_the_deadline() {
    let mut args = Args::default();
    args.screen_saver = Some(0);
    let mut state = State::from_args(args);
    state.resize(&Point::new(10, 6));

    // The fresh screen-saver world starts fully transparent and carries a
    // random soup instead of the configured pattern.
    assert_eq!(state.world.color_alpha, 0);
    assert!(matches!(state.world.cell_setup, CellSetup::Special(_)));

    // The deadline is 60 frames: on the tick that starts at 60 the world
    // is thrown away and the clock restarts.
    for _ in 0..60 {
        state.elapse_time();
    }
    assert_eq!(state.elapsed_time, 60);
    state.elapse_time();
    assert_eq!(state.elapsed_time, 1);
    assert_eq!(state.world.size.x, 10);
    assert_eq!(state.world.size.y, 6);
    assert!(matches!(state.world.cell_setup, CellSetup::Special(_)));
}

#[test]
fn screen_saver_alpha_ramps_in_over_the_first_frames() {
    let mut args = Args::default();
    args.screen_saver = Some(100);
    let mut state = State::from_args(args);
    state.resize(&Point::new(8, 5));

    assert_eq!(state.world.color_alpha, 0);
    state.elapse_time();
    assert_eq!(state.world.color_alpha, 10);
    state.elapse_time();
    assert_eq!(state.world.color_alpha, 20);
}
