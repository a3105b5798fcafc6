//! The configuration menu: a cursor over the column count, the row count and
//! a play entry.
//!
//! Up and down move the cursor cyclically through the three fields; left and
//! right decrement and increment the selected numeric field, clamped to its
//! inclusive bounds, and do nothing on the play entry. Confirming the play
//! entry with space or enter raises the transition flag that carries the
//! selected dimensions into the simulation; the flag is never reset, since
//! the menu is discarded as soon as the transition is taken.

use vstd::prelude::*;

use crate::engine::Ctx;
use crate::engine::KeyCode;
use crate::life::Life;
use crate::life::from_menu_view;
use crate::render::Cell;
use crate::render::Color;
use crate::render::Frame;
use crate::render::dec_digits;
use crate::render::push_digits;
use crate::render::draw_chars;
use crate::render::draw_rec;
use crate::render::draw_text;
use crate::render::fview;
use crate::render::grid_dims;
use crate::render::lemma_rec_painted_dims;
use crate::render::lemma_text_painted_dims;
use crate::render::rec_painted;
use crate::render::str_chars;
use crate::render::text_painted;

verus! {

/// The menu field the cursor rests on.
#[derive(Clone, Copy, Debug, PartialEq, Eq, Structural)]
pub enum CursorPosition {
    Cols,
    Rows,
    Play,
}

impl CursorPosition {
    /// The field above this one, cyclically.
    pub open spec fn spec_move_up(self) -> CursorPosition {
        match self {
            CursorPosition::Cols => CursorPosition::Play,
            CursorPosition::Rows => CursorPosition::Cols,
            CursorPosition::Play => CursorPosition::Rows,
        }
    }

    /// The field below this one, cyclically.
    pub open spec fn spec_move_down(self) -> CursorPosition {
        match self {
            CursorPosition::Cols => CursorPosition::Rows,
            CursorPosition::Rows => CursorPosition::Play,
            CursorPosition::Play => CursorPosition::Cols,
        }
    }

    /// Move the cursor one field up, wrapping around.
    pub fn move_up(&self) -> (r: CursorPosition)
        ensures
            r == self.spec_move_up(),
    {
        match self {
            CursorPosition::Cols => CursorPosition::Play,
            CursorPosition::Rows => CursorPosition::Cols,
            CursorPosition::Play => CursorPosition::Rows,
        }
    }

    /// Move the cursor one field down, wrapping around.
    pub fn move_down(&self) -> (r: CursorPosition)
        ensures
            r == self.spec_move_down(),
    {
        match self {
            CursorPosition::Cols => CursorPosition::Rows,
            CursorPosition::Rows => CursorPosition::Play,
            CursorPosition::Play => CursorPosition::Cols,
        }
    }
}

/// The transition a menu can announce: none, or into the simulation.
#[derive(Clone, Copy, Debug, PartialEq, Eq, Structural)]
#[non_exhaustive]
pub enum Transitions {
    No,
    Life,
}

/// The menu screen: field bounds, the selected dimensions, the cursor and
/// the pending transition flag.
#[derive(Clone, Copy, Debug)]
pub struct Menu {
    pub min_cols: u16,
    pub min_rows: u16,
    pub max_cols: u16,
    pub max_rows: u16,
    pub selected_cols: u16,
    pub selected_rows: u16,
    pub cursor_position: CursorPosition,
    pub next_state: Transitions,
}

/// The menu after a decrement of the selected field: numeric fields clamp at
/// their minimum, the play entry ignores it.
pub open spec fn menu_decrease(m: Menu) -> Menu {
    match m.cursor_position {
        CursorPosition::Cols => if m.selected_cols > m.min_cols {
            Menu { selected_cols: (m.selected_cols - 1) as u16, ..m }
        } else {
            m
        },
        CursorPosition::Rows => if m.selected_rows > m.min_rows {
            Menu { selected_rows: (m.selected_rows - 1) as u16, ..m }
        } else {
            m
        },
        CursorPosition::Play => m,
    }
}

/// The menu after an increment of the selected field: numeric fields clamp
/// at their maximum, the play entry ignores it.
pub open spec fn menu_increase(m: Menu) -> Menu {
    match m.cursor_position {
        CursorPosition::Cols => if m.selected_cols < m.max_cols {
            Menu { selected_cols: (m.selected_cols + 1) as u16, ..m }
        } else {
            m
        },
        CursorPosition::Rows => if m.selected_rows < m.max_rows {
            Menu { selected_rows: (m.selected_rows + 1) as u16, ..m }
        } else {
            m
        },
        CursorPosition::Play => m,
    }
}

/// The menu after one key: arrows move the cursor or adjust the selected
/// field; space or enter on the play entry raises the transition flag; every
/// other key is ignored.
pub open spec fn menu_input(m: Menu, key: KeyCode) -> Menu {
    match key {
        KeyCode::Up => Menu { cursor_position: m.cursor_position.spec_move_up(), ..m },
        KeyCode::Down => Menu { cursor_position: m.cursor_position.spec_move_down(), ..m },
        KeyCode::Left => menu_decrease(m),
        KeyCode::Right => menu_increase(m),
        KeyCode::Char(c) => if c == ' ' && m.cursor_position is Play {
            Menu { next_state: Transitions::Life, ..m }
        } else {
            m
        },
        KeyCode::Enter => if m.cursor_position is Play {
            Menu { next_state: Transitions::Life, ..m }
        } else {
            m
        },
        _ => m,
    }
}

impl Menu {
    /// A fresh menu: bounds 10 to 999 for both dimensions, the current
    /// terminal size selected, the cursor on the column field, no pending
    /// transition.
    pub fn new(ctx: &mut Ctx) -> (m: Menu)
        ensures
            *final(ctx) == *old(ctx),
            m == (Menu {
                min_cols: 10u16,
                min_rows: 10u16,
                max_cols: 999u16,
                max_rows: 999u16,
                selected_cols: old(ctx).cols,
                selected_rows: old(ctx).rows,
                cursor_position: CursorPosition::Cols,
                next_state: Transitions::No,
            }),
    {
        Menu {
            min_cols: 10,
            min_rows: 10,
            max_cols: 999,
            max_rows: 999,
            selected_cols: ctx.cols,
            selected_rows: ctx.rows,
            cursor_position: CursorPosition::Cols,
            next_state: Transitions::No,
        }
    }

    /// Decrement the selected numeric field, clamped to its minimum.
    pub fn decrease_value(&mut self)
        ensures
            *final(self) == menu_decrease(*old(self)),
    {
        match self.cursor_position {
            CursorPosition::Cols => {
                if self.selected_cols > self.min_cols {
                    self.selected_cols = self.selected_cols - 1;
                }
            },
            CursorPosition::Rows => {
                if self.selected_rows > self.min_rows {
                    self.selected_rows = self.selected_rows - 1;
                }
            },
            _ => {},
        }
    }

    /// Increment the selected numeric field, clamped to its maximum.
    pub fn increase_value(&mut self)
        ensures
            *final(self) == menu_increase(*old(self)),
    {
        match self.cursor_position {
            CursorPosition::Cols => {
                if self.selected_cols < self.max_cols {
                    self.selected_cols = self.selected_cols + 1;
                }
            },
            CursorPosition::Rows => {
                if self.selected_rows < self.max_rows {
                    self.selected_rows = self.selected_rows + 1;
                }
            },
            _ => {},
        }
    }

    /// React to one key, as `menu_input` describes.
    pub fn input_handle(&mut self, key: KeyCode)
        ensures
            *final(self) == menu_input(*old(self), key),
    {
        match key {
            KeyCode::Up => {
                self.cursor_position = self.cursor_position.move_up();
            },
            KeyCode::Down => {
                self.cursor_position = self.cursor_position.move_down();
            },
            KeyCode::Left => self.decrease_value(),
            KeyCode::Right => self.increase_value(),
            KeyCode::Char(c) => {
                if c == ' ' && self.cursor_position == CursorPosition::Play {
                    self.next_state = Transitions::Life;
                }
            },
            KeyCode::Enter => {
                if self.cursor_position == CursorPosition::Play {
                    self.next_state = Transitions::Life;
                }
            },
            _ => {},
        }
    }

    /// Draw the menu into the frame, as `menu_frame` describes.
    pub fn draw(&self, frame: &mut Frame)
        ensures
            fview(*final(frame)) == menu_frame(*self, fview(*old(frame))),
    {
        let cell = Cell {
            foreground_color: Color::White,
            background_color: Color::Black,
            char: ' ',
        };
        let selected_cell = Cell {
            foreground_color: Color::White,
            background_color: Color::DarkRed,
            char: ' ',
        };
        let cols_cell = if self.cursor_position == CursorPosition::Cols {
            selected_cell
        } else {
            cell
        };
        let rows_cell = if self.cursor_position == CursorPosition::Rows {
            selected_cell
        } else {
            cell
        };
        let play_cell = if self.cursor_position == CursorPosition::Play {
            selected_cell
        } else {
            cell
        };
        draw_rec(2, 2, 25, 8, cell, frame);
        draw_text(3, 2, "WELCOME TO COMMAND LIFE", cell, frame);
        let mut cols_text = str_chars("COLS            - ");
        push_digits(&mut cols_text, self.selected_cols);
        let mut cols_tail = str_chars(" +");
        cols_text.append(&mut cols_tail);
        proof {
            assert(cols_text@ =~= cols_line(*self));
        }
        draw_chars(3, 5, &cols_text, cols_cell, frame);
        let mut rows_text = str_chars("ROWS            - ");
        push_digits(&mut rows_text, self.selected_rows);
        let mut rows_tail = str_chars(" +");
        rows_text.append(&mut rows_tail);
        proof {
            assert(rows_text@ =~= rows_line(*self));
        }
        draw_chars(3, 6, &rows_text, rows_cell, frame);
        draw_text(3, 8, "PLAY", play_cell, frame);
    }

    /// The freshly constructed simulation, when the play entry was
    /// confirmed; nothing before that.
    pub fn next(&self) -> (r: Option<Life>)
        ensures
            r is Some <==> self.next_state is Life,
            r matches Some(l) ==> l.wf() && l@ == from_menu_view(*self),
    {
        match self.next_state {
            Transitions::No => None,
            Transitions::Life => Some(Life::from_menu(self)),
        }
    }

    /// The menu advances nothing per tick.
    pub fn update(&mut self, _ctx: &mut Ctx)
        ensures
            *final(self) == *old(self),
            *final(_ctx) == *old(_ctx),
    {
    }
}

/// The plain menu cell: white on black.
pub open spec fn menu_cell() -> Cell {
    Cell { foreground_color: Color::White, background_color: Color::Black, char: ' ' }
}

/// The highlight for the field under the cursor: white on dark red.
pub open spec fn menu_selected_cell() -> Cell {
    Cell { foreground_color: Color::White, background_color: Color::DarkRed, char: ' ' }
}

/// The cell a field's line is drawn on: highlighted when the cursor is on it.
pub open spec fn cell_for(m: Menu, p: CursorPosition) -> Cell {
    if m.cursor_position == p {
        menu_selected_cell()
    } else {
        menu_cell()
    }
}

/// The text of the column-count line, the selected value in decimal.
pub open spec fn cols_line(m: Menu) -> Seq<char> {
    "COLS            - "@ + dec_digits(m.selected_cols as nat) + " +"@
}

/// The text of the row-count line, the selected value in decimal.
pub open spec fn rows_line(m: Menu) -> Seq<char> {
    "ROWS            - "@ + dec_digits(m.selected_rows as nat) + " +"@
}

/// What the menu paints over a frame: its boxed panel, the title, the two
/// numeric field lines and the play entry, the line under the cursor
/// highlighted.
pub open spec fn menu_frame(m: Menu, f: Seq<Seq<Cell>>) -> Seq<Seq<Cell>> {
    let panel = rec_painted(f, 2, 2, 25, 8, menu_cell());
    let titled = text_painted(panel, 3, 2, "WELCOME TO COMMAND LIFE"@, menu_cell());
    let with_cols = text_painted(titled, 3, 5, cols_line(m), cell_for(m, CursorPosition::Cols));
    let with_rows = text_painted(with_cols, 3, 6, rows_line(m), cell_for(m, CursorPosition::Rows));
    text_painted(with_rows, 3, 8, "PLAY"@, cell_for(m, CursorPosition::Play))
}

/// The pause toggle restated for the menu cursor: moving up and then down,
/// or down and then up, restores the field, and three moves in the same
/// direction cycle through all fields back to the start. Four moves of one
/// direction land one past the start; alternating four moves return to it.
pub proof fn lemma_cursor_cycle(p: CursorPosition)
    ensures
        p.spec_move_up().spec_move_down() == p,
        p.spec_move_down().spec_move_up() == p,
        p.spec_move_up().spec_move_up().spec_move_up() == p,
        p.spec_move_down().spec_move_down().spec_move_down() == p,
{
}

/// Clamping: a decrement at the minimum, or an increment at the maximum,
/// leaves the menu unchanged.
pub proof fn lemma_field_clamping(m: Menu)
    ensures
        m.cursor_position is Cols && m.selected_cols <= m.min_cols ==> menu_decrease(m) == m,
        m.cursor_position is Rows && m.selected_rows <= m.min_rows ==> menu_decrease(m) == m,
        m.cursor_position is Cols && m.selected_cols >= m.max_cols ==> menu_increase(m) == m,
        m.cursor_position is Rows && m.selected_rows >= m.max_rows ==> menu_increase(m) == m,
{
}


/// Drawing the menu never changes a frame's shape.
pub proof fn lemma_menu_frame_dims(m: Menu, f: Seq<Seq<Cell>>, cols: int, rows: int)
    requires
        grid_dims(f, cols, rows),
    ensures
        grid_dims(menu_frame(m, f), cols, rows),
{
    let panel = rec_painted(f, 2, 2, 25, 8, menu_cell());
    lemma_rec_painted_dims(f, 2, 2, 25, 8, menu_cell(), cols, rows);
    let titled = text_painted(panel, 3, 2, "WELCOME TO COMMAND LIFE"@, menu_cell());
    lemma_text_painted_dims(panel, 3, 2, "WELCOME TO COMMAND LIFE"@, menu_cell(), cols, rows);
    let with_cols = text_painted(titled, 3, 5, cols_line(m), cell_for(m, CursorPosition::Cols));
    lemma_text_painted_dims(titled, 3, 5, cols_line(m), cell_for(m, CursorPosition::Cols), cols, rows);
    let with_rows = text_painted(with_cols, 3, 6, rows_line(m), cell_for(m, CursorPosition::Rows));
    lemma_text_painted_dims(with_cols, 3, 6, rows_line(m), cell_for(m, CursorPosition::Rows), cols, rows);
    lemma_text_painted_dims(with_rows, 3, 8, "PLAY"@, cell_for(m, CursorPosition::Play), cols, rows);
}

} // verus!

