//! The frame model and the renderer's diff planner.
//!
//! A `Frame` is a grid of `Cell`s, the intended screen content for one tick,
//! stored column-major: the outer vector runs over columns, the inner over
//! rows. `draw` compares a new frame against the previous one and plans the
//! cell writes the terminal needs: all of them on a forced redraw, only the
//! changed ones otherwise. The writes carry absolute screen coordinates with
//! the grid row shifted down by one, since screen row zero stays reserved.

use vstd::prelude::*;

use crate::engine::Ctx;

verus! {

/// The colors the visualizer draws with.
#[derive(Clone, Copy, Debug, PartialEq, Eq, Structural)]
pub enum Color {
    Black,
    Blue,
    White,
    DarkGrey,
    DarkRed,
}

/// One screen cell: its colors and the glyph shown in it.
#[derive(Clone, Copy, Debug, PartialEq, Eq, Structural)]
pub struct Cell {
    pub foreground_color: Color,
    pub background_color: Color,
    pub char: char,
}

/// The cell an allocated frame starts from: a space on the base background.
pub open spec fn default_cell() -> Cell {
    Cell { foreground_color: Color::Black, background_color: Color::Blue, char: ' ' }
}

impl Default for Cell {
    fn default() -> (c: Cell)
        ensures
            c == default_cell(),
    {
        Cell { foreground_color: Color::Black, background_color: Color::Blue, char: ' ' }
    }
}

/// A full grid of intended screen content, column-major.
pub type Frame = Vec<Vec<Cell>>;

/// The mathematical content of a frame: a sequence of columns of cells.
pub open spec fn fview(f: Frame) -> Seq<Seq<Cell>> {
    f@.map_values(|col: Vec<Cell>| col@)
}

/// A grid is rectangular with the given dimensions.
pub open spec fn grid_dims<T>(g: Seq<Seq<T>>, cols: int, rows: int) -> bool {
    g.len() == cols && forall|x: int| 0 <= x < cols ==> (#[trigger] g[x]).len() == rows
}

/// A grid of default cells with the given dimensions.
pub open spec fn blank_frame(cols: nat, rows: nat) -> Seq<Seq<Cell>> {
    Seq::new(cols, |x: int| Seq::new(rows, |y: int| default_cell()))
}

/// Allocate a frame of the context's current dimensions, every cell
/// defaulted.
pub fn new_frame(ctx: &Ctx) -> (f: Frame)
    ensures
        fview(f) == blank_frame(ctx.cols as nat, ctx.rows as nat),
        grid_dims(fview(f), ctx.cols as int, ctx.rows as int),
{
    let cols = ctx.cols;
    let rows = ctx.rows;
    let mut f: Frame = Vec::new();
    while f.len() < cols as usize
        invariant
            f@.len() <= cols,
            forall|x: int|
                0 <= x < f@.len() ==> (#[trigger] f@[x])@.len() == rows,
            forall|x: int, y: int|
                0 <= x < f@.len() && 0 <= y < rows ==> f@[x]@[y] == default_cell(),
        decreases cols - f.len(),
    {
        let mut col: Vec<Cell> = Vec::new();
        while col.len() < rows as usize
            invariant
                col@.len() <= rows,
                forall|y: int| 0 <= y < col@.len() ==> col@[y] == default_cell(),
            decreases rows - col.len(),
        {
            col.push(Cell::default());
        }
        f.push(col);
    }
    proof {
        let target = blank_frame(cols as nat, rows as nat);
        assert forall|x: int| 0 <= x < cols implies fview(f)[x] == target[x] by {
            assert(fview(f)[x] == f@[x]@);
            assert(fview(f)[x] =~= target[x]);
        }
        assert(fview(f) =~= target);
    }
    f
}

/// One planned terminal write: put `cell` at absolute screen position
/// (`x`, `y`). `y` is already shifted one row down from the grid row.
#[derive(Clone, Copy, Debug, PartialEq, Eq, Structural)]
pub struct CellWrite {
    pub x: u16,
    pub y: u16,
    pub cell: Cell,
}

/// The write that puts the new frame's cell (x, y) on the screen.
pub open spec fn write_at(new: Seq<Seq<Cell>>, x: int, y: int) -> CellWrite {
    CellWrite { x: x as u16, y: (y + 1) as u16, cell: new[x][y] }
}

/// Whether position (x, y) must be written: always under a forced redraw,
/// otherwise only when the new cell differs from the previous one.
pub open spec fn must_write(
    prev: Seq<Seq<Cell>>,
    new: Seq<Seq<Cell>>,
    force: bool,
    x: int,
    y: int,
) -> bool {
    force || new[x][y] != prev[x][y]
}

/// The writes planned for column x, rows y and below, in row order.
pub open spec fn col_writes(
    prev: Seq<Seq<Cell>>,
    new: Seq<Seq<Cell>>,
    force: bool,
    x: int,
    y: int,
) -> Seq<CellWrite>
    decreases new[x].len() - y,
{
    if y < 0 || y >= new[x].len() {
        Seq::empty()
    } else {
        let rest = col_writes(prev, new, force, x, y + 1);
        if must_write(prev, new, force, x, y) {
            seq![write_at(new, x, y)] + rest
        } else {
            rest
        }
    }
}

/// The writes planned for columns x and beyond, column by column.
pub open spec fn writes_from(
    prev: Seq<Seq<Cell>>,
    new: Seq<Seq<Cell>>,
    force: bool,
    x: int,
) -> Seq<CellWrite>
    decreases new.len() - x,
{
    if x < 0 || x >= new.len() {
        Seq::empty()
    } else {
        col_writes(prev, new, force, x, 0) + writes_from(prev, new, force, x + 1)
    }
}

/// Every write the renderer emits for one frame, outer index the column,
/// inner the row.
pub open spec fn frame_writes(
    prev: Seq<Seq<Cell>>,
    new: Seq<Seq<Cell>>,
    force: bool,
) -> Seq<CellWrite> {
    writes_from(prev, new, force, 0)
}

/// Plan the terminal writes for one frame. Under `force` every cell of the
/// new frame is written (the caller also clears the screen first); otherwise
/// only the cells that changed since the previous frame are, so the two
/// frames must have equal dimensions.
pub fn draw(prev_frame: &Frame, new_frame: &Frame, force: bool) -> (out: Vec<CellWrite>)
    requires
        new_frame@.len() <= u16::MAX,
        forall|x: int|
            0 <= x < new_frame@.len() ==> (#[trigger] new_frame@[x])@.len() <= u16::MAX,
        !force ==> prev_frame@.len() == new_frame@.len(),
        !force ==> forall|x: int|
            0 <= x < new_frame@.len()
                ==> (#[trigger] prev_frame@[x])@.len() == new_frame@[x]@.len(),
    ensures
        out@ == frame_writes(fview(*prev_frame), fview(*new_frame), force),
{
    let ghost p = fview(*prev_frame);
    let ghost n = fview(*new_frame);
    let mut out: Vec<CellWrite> = Vec::new();
    let mut x: usize = 0;
    while x < new_frame.len()
        invariant
            x <= new_frame@.len(),
            p == fview(*prev_frame),
            n == fview(*new_frame),
            new_frame@.len() <= u16::MAX,
            forall|i: int|
                0 <= i < new_frame@.len() ==> (#[trigger] new_frame@[i])@.len() <= u16::MAX,
            !force ==> prev_frame@.len() == new_frame@.len(),
            !force ==> forall|i: int|
                0 <= i < new_frame@.len()
                    ==> (#[trigger] prev_frame@[i])@.len() == new_frame@[i]@.len(),
            frame_writes(p, n, force) == out@ + writes_from(p, n, force, x as int),
        decreases new_frame@.len() - x,
    {
        let col = &new_frame[x];
        let mut y: usize = 0;
        proof {
            assert(writes_from(p, n, force, x as int) == col_writes(p, n, force, x as int, 0)
                + writes_from(p, n, force, x as int + 1));
        }
        while y < col.len()
            invariant
                x < new_frame@.len(),
                y <= col@.len(),
                col == &new_frame[x as int],
                p == fview(*prev_frame),
                n == fview(*new_frame),
                new_frame@.len() <= u16::MAX,
                col@.len() <= u16::MAX,
                !force ==> prev_frame@.len() == new_frame@.len(),
                !force ==> prev_frame@[x as int]@.len() == col@.len(),
                frame_writes(p, n, force) == out@ + col_writes(p, n, force, x as int, y as int)
                    + writes_from(p, n, force, x as int + 1),
            decreases col@.len() - y,
        {
            proof {
                assert(n[x as int] == col@);
                assert(!force ==> p[x as int] == prev_frame@[x as int]@);
            }
            let cell = col[y];
            let changed = if force {
                true
            } else {
                let prev_cell = prev_frame[x][y];
                cell != prev_cell
            };
            let ghost colw_rest = col_writes(p, n, force, x as int, y as int + 1);
            proof {
                assert(changed == must_write(p, n, force, x as int, y as int));
                assert(col_writes(p, n, force, x as int, y as int) == (
                    if must_write(p, n, force, x as int, y as int) {
                        seq![write_at(n, x as int, y as int)] + colw_rest
                    } else {
                        colw_rest
                    }
                ));
            }
            if changed {
                let ghost out0 = out@;
                let w = CellWrite { x: x as u16, y: (y + 1) as u16, cell };
                out.push(w);
                proof {
                    assert(w == write_at(n, x as int, y as int));
                    assert(out0 + (seq![w] + colw_rest) =~= out@ + colw_rest);
                }
            }
            y = y + 1;
        }
        x = x + 1;
    }
    proof {
        assert(out@ + writes_from(p, n, force, new_frame@.len() as int) =~= out@);
    }
    out
}

proof fn lemma_col_unchanged(g: Seq<Seq<Cell>>, x: int, y: int)
    ensures
        col_writes(g, g, false, x, y) == Seq::<CellWrite>::empty(),
    decreases g[x].len() - y,
{
    if 0 <= y < g[x].len() {
        lemma_col_unchanged(g, x, y + 1);
    }
}

proof fn lemma_writes_from_unchanged(g: Seq<Seq<Cell>>, x: int)
    ensures
        writes_from(g, g, false, x) == Seq::<CellWrite>::empty(),
    decreases g.len() - x,
{
    if 0 <= x < g.len() {
        lemma_col_unchanged(g, x, 0);
        lemma_writes_from_unchanged(g, x + 1);
        assert(col_writes(g, g, false, x, 0) + writes_from(g, g, false, x + 1)
            =~= Seq::<CellWrite>::empty());
    }
}

/// Renderer idempotence: diffing a frame against itself without force plans
/// no writes at all, so a drawn frame re-submitted unchanged costs nothing.
pub proof fn lemma_no_change_no_writes(g: Seq<Seq<Cell>>)
    ensures
        frame_writes(g, g, false) == Seq::<CellWrite>::empty(),
{
    lemma_writes_from_unchanged(g, 0);
}

proof fn lemma_col_force_len(prev: Seq<Seq<Cell>>, new: Seq<Seq<Cell>>, x: int, y: int)
    requires
        0 <= y <= new[x].len(),
    ensures
        col_writes(prev, new, true, x, y).len() == new[x].len() - y,
    decreases new[x].len() - y,
{
    if y < new[x].len() {
        lemma_col_force_len(prev, new, x, y + 1);
    }
}

proof fn lemma_writes_from_force_len(
    prev: Seq<Seq<Cell>>,
    new: Seq<Seq<Cell>>,
    cols: int,
    rows: int,
    x: int,
)
    requires
        grid_dims(new, cols, rows),
        0 <= x <= cols,
    ensures
        writes_from(prev, new, true, x).len() == (cols - x) * rows,
    decreases cols - x,
{
    if x < cols {
        lemma_col_force_len(prev, new, x, 0);
        lemma_writes_from_force_len(prev, new, cols, rows, x + 1);
        assert(new[x].len() == rows);
        assert((cols - x) * rows == rows + (cols - x - 1) * rows) by (nonlinear_arith);
    } else {
        assert((cols - x) * rows == 0) by (nonlinear_arith)
            requires
                x == cols,
        ;
    }
}

/// The forced path writes every cell: a forced redraw of a cols x rows frame
/// plans exactly cols * rows writes, whatever the previous frame held.
pub proof fn lemma_force_writes_all(
    prev: Seq<Seq<Cell>>,
    new: Seq<Seq<Cell>>,
    cols: int,
    rows: int,
)
    requires
        grid_dims(new, cols, rows),
        cols >= 0,
    ensures
        frame_writes(prev, new, true).len() == cols * rows,
{
    lemma_writes_from_force_len(prev, new, cols, rows, 0);
}

/// The grid with `cell` painted over the rectangle of width `w` and height
/// `h` whose top-left corner is (x, y); writes outside the grid are dropped.
pub open spec fn rec_painted(
    f: Seq<Seq<Cell>>,
    x: int,
    y: int,
    w: int,
    h: int,
    cell: Cell,
) -> Seq<Seq<Cell>> {
    Seq::new(
        f.len(),
        |i: int|
            Seq::new(
                f[i].len(),
                |j: int|
                    if x <= i < x + w && y <= j < y + h {
                        cell
                    } else {
                        f[i][j]
                    },
            ),
    )
}

/// Paint a filled rectangle of `clear_cel` onto the frame, top-left corner
/// (x, y), width w, height h; cells beyond the frame bounds are skipped.
pub fn draw_rec(x: usize, y: usize, w: usize, h: usize, clear_cel: Cell, frame: &mut Frame)
    requires
        x + w <= usize::MAX,
        y + h <= usize::MAX,
    ensures
        fview(*final(frame)) == rec_painted(fview(*old(frame)), x as int, y as int, w as int, h as int, clear_cel),
{
    let ghost f0 = fview(*old(frame));
    let mut x_index: usize = x;
    while x_index < x + w
        invariant
            x <= x_index <= x + w,
            x + w <= usize::MAX,
            y + h <= usize::MAX,
            frame@.len() == f0.len(),
            forall|a: int| 0 <= a < f0.len() ==> (#[trigger] frame@[a])@.len() == f0[a].len(),
            forall|a: int, b: int|
                0 <= a < f0.len() && 0 <= b < f0[a].len()
                    ==> frame@[a]@[b] == (if x <= a < x_index && y <= b < y + h {
                        clear_cel
                    } else {
                        f0[a][b]
                    }),
        decreases x + w - x_index,
    {
        if x_index < frame.len() {
            let mut y_index: usize = y;
            while y_index < y + h
                invariant
                    x <= x_index < x + w,
                    x_index < frame@.len(),
                    y <= y_index <= y + h,
                    y + h <= usize::MAX,
                    frame@.len() == f0.len(),
                    forall|a: int| 0 <= a < f0.len() ==> (#[trigger] frame@[a])@.len() == f0[a].len(),
                    forall|a: int, b: int|
                        0 <= a < f0.len() && 0 <= b < f0[a].len()
                            ==> frame@[a]@[b] == (if x <= a < x_index && y <= b < y + h {
                                clear_cel
                            } else if a == x_index && y <= b < y_index {
                                clear_cel
                            } else {
                                f0[a][b]
                            }),
                decreases y + h - y_index,
            {
                if y_index < frame[x_index].len() {
                    frame[x_index][y_index] = clear_cel;
                }
                y_index = y_index + 1;
            }
        }
        x_index = x_index + 1;
    }
    proof {
        let target = rec_painted(f0, x as int, y as int, w as int, h as int, clear_cel);
        assert forall|a: int| 0 <= a < f0.len() implies fview(*frame)[a] == target[a] by {
            assert(fview(*frame)[a] == frame@[a]@);
            assert forall|b: int| 0 <= b < f0[a].len() implies frame@[a]@[b] == target[a][b] by {
                assert(frame@[a]@[b] == (if x <= a < x + w && y <= b < y + h {
                    clear_cel
                } else {
                    f0[a][b]
                }));
            }
            assert(fview(*frame)[a] =~= target[a]);
        }
        assert(fview(*frame) =~= target);
    }
}

/// The cell that shows character `k` of `text` on `cell`'s colors.
pub open spec fn text_cell(text: Seq<char>, cell: Cell, k: int) -> Cell {
    Cell {
        foreground_color: cell.foreground_color,
        background_color: cell.background_color,
        char: text[k],
    }
}

/// The grid with the characters of `text` written horizontally starting at
/// (x, y), each in a copy of `cell`; writes outside the grid are dropped.
pub open spec fn text_painted(
    f: Seq<Seq<Cell>>,
    x: int,
    y: int,
    text: Seq<char>,
    cell: Cell,
) -> Seq<Seq<Cell>> {
    Seq::new(
        f.len(),
        |i: int|
            Seq::new(
                f[i].len(),
                |j: int|
                    if j == y && x <= i < x + text.len() {
                        text_cell(text, cell, i - x)
                    } else {
                        f[i][j]
                    },
            ),
    )
}

/// Write the characters of `text` into the frame left to right from (x, y),
/// every character on `cel`'s colors; characters that would fall outside the
/// frame are dropped.
pub fn draw_chars(x: usize, y: usize, text: &Vec<char>, cel: Cell, frame: &mut Frame)
    ensures
        fview(*final(frame)) == text_painted(fview(*old(frame)), x as int, y as int, text@, cel),
{
    let ghost f0 = fview(*old(frame));
    let n = text.len();
    let limit = if x >= frame.len() {
        0
    } else {
        let room = frame.len() - x;
        if n < room {
            n
        } else {
            room
        }
    };
    let mut x_offset: usize = 0;
    while x_offset < limit
        invariant
            0 <= x_offset <= limit,
            n == text@.len(),
            limit <= n,
            x + limit <= f0.len() || limit == 0,
            x + limit <= usize::MAX,
            frame@.len() == f0.len(),
            limit == (if x >= f0.len() {
                0int
            } else if n < f0.len() - x {
                n as int
            } else {
                f0.len() - x
            }),
            forall|a: int| 0 <= a < f0.len() ==> (#[trigger] frame@[a])@.len() == f0[a].len(),
            forall|a: int, b: int|
                0 <= a < f0.len() && 0 <= b < f0[a].len()
                    ==> (#[trigger] frame@[a]@[b]) == (if b == y && x <= a < x + x_offset {
                        text_cell(text@, cel, a - x)
                    } else {
                        f0[a][b]
                    }),
        decreases limit - x_offset,
    {
        let c = text[x_offset];
        let i = x + x_offset;
        if y < frame[i].len() {
            let c_cell = Cell { char: c, ..cel };
            frame[i][y] = c_cell;
        }
        x_offset = x_offset + 1;
    }
    proof {
        let target = text_painted(f0, x as int, y as int, text@, cel);
        assert forall|a: int| 0 <= a < f0.len() implies fview(*frame)[a] == target[a] by {
            assert(fview(*frame)[a] == frame@[a]@);
            assert forall|b: int| 0 <= b < f0[a].len() implies frame@[a]@[b] == target[a][b] by {
                if b == y && x <= a < x + text@.len() && a < x + limit {
                    assert(frame@[a]@[b] == text_cell(text@, cel, a - x));
                    assert(target[a][b] == text_cell(text@, cel, a - x));
                } else {
                    assert(frame@[a]@[b] == f0[a][b]);
                    assert(target[a][b] == f0[a][b]);
                }
            }
            assert(fview(*frame)[a] =~= target[a]);
        }
        assert(fview(*frame) =~= target);
    }
}

/// The characters of a string slice, in order, as a vector.
pub fn str_chars(s: &str) -> (v: Vec<char>)
    ensures
        v@ == s@,
{
    let n = s.unicode_len();
    let mut v: Vec<char> = Vec::new();
    while v.len() < n
        invariant
            v@.len() <= n,
            n == s@.len(),
            v@ == s@.take(v@.len() as int),
        decreases n - v.len(),
    {
        let c = s.get_char(v.len());
        let ghost v0 = v@;
        v.push(c);
        proof {
            assert(v@ =~= s@.take(v@.len() as int));
        }
    }
    proof {
        assert(v@ =~= s@);
    }
    v
}

/// Write `text` into the frame left to right from (x, y), every character on
/// `cel`'s colors; characters that would fall outside the frame are dropped.
pub fn draw_text(x: usize, y: usize, text: &str, cel: Cell, frame: &mut Frame)
    ensures
        fview(*final(frame)) == text_painted(fview(*old(frame)), x as int, y as int, text@, cel),
{
    let v = str_chars(text);
    draw_chars(x, y, &v, cel, frame);
}

/// The character showing decimal digit `d`.
pub open spec fn digit_char(d: nat) -> char {
    ((48 + d) as u8) as char
}

/// The decimal digits of `n`, most significant first.
pub open spec fn dec_digits(n: nat) -> Seq<char>
    decreases n,
{
    if n < 10 {
        seq![digit_char(n)]
    } else {
        dec_digits(n / 10).push(digit_char(n % 10))
    }
}

/// Append the decimal digits of `n` to `out`.
pub fn push_digits(out: &mut Vec<char>, n: u16)
    ensures
        final(out)@ == old(out)@ + dec_digits(n as nat),
    decreases n,
{
    if n < 10 {
        out.push((48 + (n as u8)) as char);
        proof {
            assert(out@ =~= old(out)@ + dec_digits(n as nat));
        }
    } else {
        push_digits(out, n / 10);
        out.push((48 + ((n % 10) as u8)) as char);
        proof {
            assert(out@ =~= old(out)@ + dec_digits(n as nat));
        }
    }
}


/// Painting a rectangle never changes a frame's shape.
pub proof fn lemma_rec_painted_dims(
    f: Seq<Seq<Cell>>,
    x: int,
    y: int,
    w: int,
    h: int,
    cell: Cell,
    cols: int,
    rows: int,
)
    requires
        grid_dims(f, cols, rows),
    ensures
        grid_dims(rec_painted(f, x, y, w, h, cell), cols, rows),
{
    assert forall|i: int| 0 <= i < cols implies (#[trigger] rec_painted(f, x, y, w, h, cell)[i]).len()
        == rows by {
        assert(f[i].len() == rows);
    }
}

/// Writing text never changes a frame's shape.
pub proof fn lemma_text_painted_dims(
    f: Seq<Seq<Cell>>,
    x: int,
    y: int,
    text: Seq<char>,
    cell: Cell,
    cols: int,
    rows: int,
)
    requires
        grid_dims(f, cols, rows),
    ensures
        grid_dims(text_painted(f, x, y, text, cell), cols, rows),
{
    assert forall|i: int| 0 <= i < cols implies (#[trigger] text_painted(f, x, y, text, cell)[i]).len()
        == rows by {
        assert(f[i].len() == rows);
    }
}

} // verus!

