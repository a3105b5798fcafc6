use command_life::engine::Ctx;
use command_life::engine::KeyCode;
use command_life::life::Life;
use command_life::menu::CursorPosition;
use command_life::menu::Menu;
use command_life::menu::Transitions;
use command_life::rng::Rng;

fn test_ctx(cols: u16, rows: u16, dt: u64, seed: u64) -> Ctx {
    Ctx { cols, rows, dt, rng: Rng::from_seed(seed) }
}

fn test_menu(cols: u16, rows: u16) -> Menu {
    Menu {
        min_cols: 10,
        min_rows: 10,
        max_cols: 999,
        max_rows: 999,
        selected_cols: cols,
        selected_rows: rows,
        cursor_position: CursorPosition::Cols,
        next_state: Transitions::No,
    }
}

fn dead_life(cols: u16, rows: u16) -> Life {
    Life::from_menu(&test_menu(cols, rows))
}

fn unpause(l: &mut Life) {
    l.input_handle(KeyCode::Char(' '));
    assert!(l.is_running());
}

fn step_once(l: &mut Life, ctx: &mut Ctx) {
    ctx.dt = 500;
    l.update(ctx);
}

fn grid_of(l: &Life) -> Vec<Vec<bool>> {
    let (cols, rows) = l.size();
    let mut g = Vec::new();
    for x in 0..cols as usize {
        let mut col = Vec::new();
        for y in 0..rows as usize {
            col.push(l.is_alive(x, y));
        }
        g.push(col);
    }
    g
}

#[test]
fn all_dead_grid_stays_dead() {
    let mut ctx = test_ctx(10, 10, 0, 1);
    let mut l = dead_life(10, 10);
    unpause(&mut l);
    step_once(&mut l, &mut ctx);
    for x in 0..10 {
        for y in 0..10 {
            assert!(!l.is_alive(x, y));
        }
    }
}

#[test]
fn isolated_cell_dies() {
    let mut ctx = test_ctx(10, 10, 0, 1);
    let mut l = dead_life(10, 10);
    l.set_cell(5, 5, true);
    assert!(l.is_alive(5, 5));
    unpause(&mut l);
    step_once(&mut l, &mut ctx);
    for x in 0..10 {
        for y in 0..10 {
            assert!(!l.is_alive(x, y));
        }
    }
}

#[test]
fn corner_cell_dies_without_panic() {
    let mut ctx = test_ctx(10, 10, 0, 1);
    let mut l = dead_life(10, 10);
    l.set_cell(0, 0, true);
    unpause(&mut l);
    step_once(&mut l, &mut ctx);
    assert!(!l.is_alive(0, 0));
}

#[test]
fn single_cell_grid_steps_in_bounds() {
    let mut menu = test_menu(10, 10);
    menu.selected_cols = 1;
    menu.selected_rows = 1;
    let mut l = Life::from_menu(&menu);
    l.set_cell(0, 0, true);
    unpause(&mut l);
    let mut ctx = test_ctx(1, 1, 0, 1);
    step_once(&mut l, &mut ctx);
    assert!(!l.is_alive(0, 0));
}

#[test]
fn block_is_stable_for_many_steps() {
    let mut ctx = test_ctx(10, 10, 0, 1);
    let mut l = dead_life(10, 10);
    l.set_cell(4, 4, true);
    l.set_cell(4, 5, true);
    l.set_cell(5, 4, true);
    l.set_cell(5, 5, true);
    let before = grid_of(&l);
    unpause(&mut l);
    for _ in 0..5 {
        step_once(&mut l, &mut ctx);
        assert_eq!(grid_of(&l), before);
    }
}

#[test]
fn block_at_corner_is_stable() {
    let mut ctx = test_ctx(10, 10, 0, 1);
    let mut l = dead_life(10, 10);
    l.set_cell(0, 0, true);
    l.set_cell(0, 1, true);
    l.set_cell(1, 0, true);
    l.set_cell(1, 1, true);
    let before = grid_of(&l);
    unpause(&mut l);
    step_once(&mut l, &mut ctx);
    assert_eq!(grid_of(&l), before);
}

#[test]
fn blinker_oscillates() {
    let mut ctx = test_ctx(10, 10, 0, 1);
    let mut l = dead_life(10, 10);
    l.set_cell(4, 3, true);
    l.set_cell(4, 4, true);
    l.set_cell(4, 5, true);
    let vertical = grid_of(&l);
    unpause(&mut l);
    step_once(&mut l, &mut ctx);
    assert!(l.is_alive(3, 4));
    assert!(l.is_alive(4, 4));
    assert!(l.is_alive(5, 4));
    assert!(!l.is_alive(4, 3));
    assert!(!l.is_alive(4, 5));
    step_once(&mut l, &mut ctx);
    assert_eq!(grid_of(&l), vertical);
}

#[test]
fn pause_toggle_is_a_pure_flip() {
    let mut l = dead_life(10, 10);
    assert!(!l.is_running());
    l.input_handle(KeyCode::Char(' '));
    assert!(l.is_running());
    l.input_handle(KeyCode::Char(' '));
    assert!(!l.is_running());
    l.input_handle(KeyCode::Up);
    assert!(!l.is_running());
}

#[test]
fn paused_updates_never_mutate_the_grid() {
    let mut ctx = test_ctx(10, 10, 0, 1);
    let mut l = dead_life(10, 10);
    l.set_cell(4, 3, true);
    l.set_cell(4, 4, true);
    l.set_cell(4, 5, true);
    let before = grid_of(&l);
    for _ in 0..10 {
        ctx.dt = 700;
        l.update(&mut ctx);
        assert_eq!(grid_of(&l), before);
    }
}

#[test]
fn step_gating_is_split_invariant() {
    // The same pattern advances exactly once whether half a second of
    // elapsed time arrives in one update or in five.
    let mut single = dead_life(10, 10);
    let mut split = dead_life(10, 10);
    for l in [&mut single, &mut split] {
        l.set_cell(4, 3, true);
        l.set_cell(4, 4, true);
        l.set_cell(4, 5, true);
        unpause(l);
    }
    let mut ctx = test_ctx(10, 10, 0, 1);
    ctx.dt = 500;
    single.update(&mut ctx);
    for _ in 0..5 {
        ctx.dt = 100;
        split.update(&mut ctx);
    }
    assert_eq!(grid_of(&single), grid_of(&split));
    // Exactly one advance: a blinker after one step is horizontal.
    assert!(split.is_alive(3, 4) && split.is_alive(5, 4) && !split.is_alive(4, 3));
}

#[test]
fn short_updates_do_not_step_early() {
    let mut ctx = test_ctx(10, 10, 0, 1);
    let mut l = dead_life(10, 10);
    l.set_cell(4, 3, true);
    l.set_cell(4, 4, true);
    l.set_cell(4, 5, true);
    let before = grid_of(&l);
    unpause(&mut l);
    for _ in 0..4 {
        ctx.dt = 100;
        l.update(&mut ctx);
        assert_eq!(grid_of(&l), before);
    }
    ctx.dt = 100;
    l.update(&mut ctx);
    assert_ne!(grid_of(&l), before);
}

#[test]
fn zero_dt_advances_nothing() {
    let mut ctx = test_ctx(10, 10, 0, 1);
    let mut l = dead_life(10, 10);
    l.set_cell(4, 3, true);
    l.set_cell(4, 4, true);
    l.set_cell(4, 5, true);
    let before = grid_of(&l);
    unpause(&mut l);
    for _ in 0..100 {
        ctx.dt = 0;
        l.update(&mut ctx);
    }
    assert_eq!(grid_of(&l), before);
}

#[test]
fn fixed_seed_reproduces_the_same_grid() {
    let mut ctx_a = test_ctx(30, 20, 0, 42);
    let mut ctx_b = test_ctx(30, 20, 0, 42);
    let a = Life::new(&mut ctx_a);
    let b = Life::new(&mut ctx_b);
    assert_eq!(grid_of(&a), grid_of(&b));
}

#[test]
fn different_seeds_give_a_plausible_density() {
    let mut ctx = test_ctx(50, 50, 0, 7);
    let l = Life::new(&mut ctx);
    let live: usize = grid_of(&l).iter().map(|c| c.iter().filter(|b| **b).count()).sum();
    // At threshold one half an all-dead or all-live seeding means the
    // random stream is broken.
    assert!(live > 0 && live < 2500);
}

#[test]
fn direct_start_is_seeded_menu_start_is_not() {
    let mut ctx = test_ctx(40, 40, 0, 99);
    let direct = Life::new(&mut ctx);
    let via_menu = Life::from_menu(&test_menu(40, 40));
    let live_direct: usize =
        grid_of(&direct).iter().map(|c| c.iter().filter(|b| **b).count()).sum();
    let live_menu: usize =
        grid_of(&via_menu).iter().map(|c| c.iter().filter(|b| **b).count()).sum();
    assert!(live_direct > 0);
    assert_eq!(live_menu, 0);
}
