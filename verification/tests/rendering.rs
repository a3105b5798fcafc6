use command_life::engine::Ctx;
use command_life::engine::KeyCode;
use command_life::life::Life;
use command_life::menu::CursorPosition;
use command_life::menu::Menu;
use command_life::menu::Transitions;
use command_life::render::Cell;
use command_life::render::Color;
use command_life::render::draw;
use command_life::render::draw_rec;
use command_life::render::draw_text;
use command_life::render::new_frame;
use command_life::rng::Rng;

fn test_ctx(cols: u16, rows: u16) -> Ctx {
    Ctx { cols, rows, dt: 0, rng: Rng::from_seed(0) }
}

#[test]
fn new_frame_is_defaulted_to_the_context_size() {
    let ctx = test_ctx(4, 3);
    let f = new_frame(&ctx);
    assert_eq!(f.len(), 4);
    for col in &f {
        assert_eq!(col.len(), 3);
        for cell in col {
            assert_eq!(cell, &Cell::default());
            assert_eq!(cell.background_color, Color::Blue);
            assert_eq!(cell.char, ' ');
        }
    }
}

#[test]
fn diffing_identical_frames_plans_no_writes() {
    let ctx = test_ctx(5, 4);
    let f = new_frame(&ctx);
    let writes = draw(&f, &f, false);
    assert_eq!(writes.len(), 0);
}

#[test]
fn diffing_after_a_draw_round_trip_plans_no_writes() {
    let ctx = test_ctx(6, 5);
    let prev = new_frame(&ctx);
    let mut new = new_frame(&ctx);
    new[2][3].char = 'X';
    let first = draw(&prev, &new, false);
    assert_eq!(first.len(), 1);
    let again = draw(&new, &new, false);
    assert_eq!(again.len(), 0);
}

#[test]
fn forced_draw_plans_every_cell() {
    let ctx = test_ctx(7, 3);
    let prev = new_frame(&ctx);
    let new = new_frame(&ctx);
    let writes = draw(&prev, &new, true);
    assert_eq!(writes.len(), 21);
}

#[test]
fn planned_writes_carry_the_reserved_row_offset() {
    let ctx = test_ctx(2, 2);
    let prev = new_frame(&ctx);
    let new = new_frame(&ctx);
    let writes = draw(&prev, &new, true);
    // Column-major: all of column zero first, each screen row one below
    // its grid row.
    assert_eq!(writes.len(), 4);
    assert_eq!((writes[0].x, writes[0].y), (0, 1));
    assert_eq!((writes[1].x, writes[1].y), (0, 2));
    assert_eq!((writes[2].x, writes[2].y), (1, 1));
    assert_eq!((writes[3].x, writes[3].y), (1, 2));
}

#[test]
fn diff_plans_exactly_the_changed_cells() {
    let ctx = test_ctx(4, 4);
    let prev = new_frame(&ctx);
    let mut new = new_frame(&ctx);
    new[0][0].char = 'A';
    new[3][2] = Cell { foreground_color: Color::White, background_color: Color::Black, char: 'B' };
    let writes = draw(&prev, &new, false);
    assert_eq!(writes.len(), 2);
    assert_eq!((writes[0].x, writes[0].y, writes[0].cell.char), (0, 1, 'A'));
    assert_eq!((writes[1].x, writes[1].y, writes[1].cell.char), (3, 3, 'B'));
}

#[test]
fn draw_rec_fills_and_clips() {
    let ctx = test_ctx(5, 5);
    let mut f = new_frame(&ctx);
    let paint = Cell { foreground_color: Color::White, background_color: Color::Black, char: '#' };
    draw_rec(3, 3, 4, 4, paint, &mut f);
    for x in 0..5 {
        for y in 0..5 {
            if x >= 3 && y >= 3 {
                assert_eq!(f[x][y], paint);
            } else {
                assert_eq!(f[x][y], Cell::default());
            }
        }
    }
}

#[test]
fn draw_text_writes_characters_and_clips() {
    let ctx = test_ctx(4, 2);
    let mut f = new_frame(&ctx);
    let base = Cell { foreground_color: Color::White, background_color: Color::Black, char: ' ' };
    draw_text(2, 1, "HELLO", base, &mut f);
    assert_eq!(f[2][1].char, 'H');
    assert_eq!(f[3][1].char, 'E');
    assert_eq!(f[2][1].background_color, Color::Black);
    assert_eq!(f[0][1], Cell::default());
    assert_eq!(f[2][0], Cell::default());
}

#[test]
fn menu_draw_shows_title_fields_and_highlight() {
    let mut ctx = test_ctx(40, 12);
    let mut m = Menu::new(&mut ctx);
    m.selected_cols = 25;
    m.selected_rows = 999;
    let mut f = new_frame(&ctx);
    m.draw(&mut f);
    // Title inside the panel.
    assert_eq!(f[3][2].char, 'W');
    assert_eq!(f[4][2].char, 'E');
    // The column line, its value in decimal after the fixed prefix.
    assert_eq!(f[3][5].char, 'C');
    assert_eq!(f[21][5].char, '2');
    assert_eq!(f[22][5].char, '5');
    assert_eq!(f[23][5].char, ' ');
    assert_eq!(f[24][5].char, '+');
    // The row line shows three digits.
    assert_eq!(f[21][6].char, '9');
    assert_eq!(f[22][6].char, '9');
    assert_eq!(f[23][6].char, '9');
    // The cursor starts on the column field: its line is highlighted, the
    // others are not.
    assert_eq!(f[3][5].background_color, Color::DarkRed);
    assert_eq!(f[3][6].background_color, Color::Black);
    assert_eq!(f[3][8].char, 'P');
    assert_eq!(f[3][8].background_color, Color::Black);
    // The panel fills the box, and the frame outside it stays default.
    assert_eq!(f[2][2].background_color, Color::Black);
    assert_eq!(f[1][1], Cell::default());
    assert_eq!(f[30][10], Cell::default());
}

#[test]
fn menu_highlight_follows_the_cursor() {
    let mut ctx = test_ctx(40, 12);
    let mut m = Menu::new(&mut ctx);
    m.input_handle(KeyCode::Down);
    let mut f = new_frame(&ctx);
    m.draw(&mut f);
    assert_eq!(f[3][5].background_color, Color::Black);
    assert_eq!(f[3][6].background_color, Color::DarkRed);
}

#[test]
fn life_draw_shows_two_tone_cells_and_pause_overlay() {
    let menu = Menu {
        min_cols: 10,
        min_rows: 10,
        max_cols: 999,
        max_rows: 999,
        selected_cols: 12,
        selected_rows: 12,
        cursor_position: CursorPosition::Play,
        next_state: Transitions::Life,
    };
    let mut l = Life::from_menu(&menu);
    l.set_cell(10, 10, true);
    let ctx = test_ctx(12, 12);
    let mut f = new_frame(&ctx);
    l.draw(&mut f);
    // Cells: an X for a live cell, a blank on the grid background for dead.
    assert_eq!(f[10][10].char, 'X');
    assert_eq!(f[10][10].background_color, Color::DarkGrey);
    assert_eq!(f[11][11].char, ' ');
    assert_eq!(f[11][11].background_color, Color::DarkGrey);
    // Paused: the indicator box and label sit on top of the grid.
    assert_eq!(f[3][3].char, 'P');
    assert_eq!(f[7][3].char, 'E');
    assert_eq!(f[3][3].background_color, Color::Black);
    assert_eq!(f[2][2].char, ' ');
    assert_eq!(f[2][2].background_color, Color::Black);
}

#[test]
fn running_life_draw_has_no_overlay() {
    let menu = Menu {
        min_cols: 10,
        min_rows: 10,
        max_cols: 999,
        max_rows: 999,
        selected_cols: 12,
        selected_rows: 12,
        cursor_position: CursorPosition::Play,
        next_state: Transitions::Life,
    };
    let mut l = Life::from_menu(&menu);
    l.input_handle(KeyCode::Char(' '));
    let ctx = test_ctx(12, 12);
    let mut f = new_frame(&ctx);
    l.draw(&mut f);
    assert_eq!(f[3][3].char, ' ');
    assert_eq!(f[3][3].background_color, Color::DarkGrey);
}

#[test]
fn life_draw_truncates_to_a_smaller_frame() {
    let menu = Menu {
        min_cols: 10,
        min_rows: 10,
        max_cols: 999,
        max_rows: 999,
        selected_cols: 20,
        selected_rows: 20,
        cursor_position: CursorPosition::Play,
        next_state: Transitions::Life,
    };
    let mut l = Life::from_menu(&menu);
    l.set_cell(19, 19, true);
    l.input_handle(KeyCode::Char(' '));
    let ctx = test_ctx(6, 6);
    let mut f = new_frame(&ctx);
    l.draw(&mut f);
    assert_eq!(f.len(), 6);
    for col in &f {
        assert_eq!(col.len(), 6);
    }
}
