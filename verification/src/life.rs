//! The cellular automaton: a double-buffered boolean grid under rule tables.
//!
//! Each step computes the next grid wholly from the current one, so no cell
//! reads its own tick's writes, and then the buffers swap. A cell's fate is
//! decided by its live-neighbor count in the Moore neighborhood: the eight
//! adjacent grid positions, bounded by the grid with no wraparound. Three
//! lookup tables, indexed by that count, say whether a live cell stays
//! alive, a dead cell is born, and a live cell dies; otherwise the cell
//! carries over. A countdown gates stepping: the elapsed tick time drains
//! it, and only when it reaches zero does the grid advance, the countdown
//! resetting to its default. A space keypress toggles the running flag;
//! while paused nothing advances and nothing drains.

use vstd::prelude::*;

use crate::engine::Ctx;
use crate::engine::KeyCode;
use crate::menu::Menu;
use crate::render::Cell;
use crate::render::Color;
use crate::render::Frame;
use crate::render::fview;
use crate::render::grid_dims;
use crate::render::rec_painted;
use crate::render::text_painted;
use crate::render::draw_rec;
use crate::render::draw_text;
use crate::rng::rng_value;

verus! {

/// The default step interval: the grid advances every half second.
pub const STEP_MS: u64 = 500;

/// Seeding threshold over the full 32-bit draw range: half of it, so each
/// cell starts alive with probability one half.
pub const ALIVE_THRESHOLD: u32 = 0x8000_0000;

/// Whether the simulation is advancing or paused.
#[derive(Clone, Copy, Debug, PartialEq, Eq, Structural)]
enum Status {
    Pause,
    Running,
}

/// The simulation screen: the double-buffered cell grids, the rule tables,
/// the seeding threshold, the grid dimensions, the step countdown, the
/// running flag, and whether the grid was seeded randomly.
pub struct Life {
    current_cells: Vec<Vec<bool>>,
    next_cells: Vec<Vec<bool>>,
    alive_rule: Vec<bool>,
    dead_rule: Vec<bool>,
    born_rule: Vec<bool>,
    alive_threshold: u32,
    rows: u32,
    cols: u32,
    step_ms: u64,
    status: Status,
    seeded: bool,
}

/// The mathematical content of a boolean grid, column-major.
pub open spec fn gview(g: Vec<Vec<bool>>) -> Seq<Seq<bool>> {
    g@.map_values(|col: Vec<bool>| col@)
}

/// The abstract state of the simulation.
pub ghost struct LifeView {
    pub grid: Seq<Seq<bool>>,
    pub alive_rule: Seq<bool>,
    pub dead_rule: Seq<bool>,
    pub born_rule: Seq<bool>,
    pub alive_threshold: u32,
    pub cols: nat,
    pub rows: nat,
    pub step_ms: u64,
    pub running: bool,
    pub seeded: bool,
}

impl View for Life {
    type V = LifeView;

    closed spec fn view(&self) -> LifeView {
        LifeView {
            grid: gview(self.current_cells),
            alive_rule: self.alive_rule@,
            dead_rule: self.dead_rule@,
            born_rule: self.born_rule@,
            alive_threshold: self.alive_threshold,
            cols: self.cols as nat,
            rows: self.rows as nat,
            step_ms: self.step_ms,
            running: self.status is Running,
            seeded: self.seeded,
        }
    }
}

impl Life {
    /// The concrete state is well formed: both buffers are rectangular with
    /// the stated dimensions and the abstract state is well formed too.
    pub closed spec fn wf(&self) -> bool {
        &&& self.current_cells@.len() == self.cols
        &&& forall|x: int|
            0 <= x < self.cols ==> (#[trigger] self.current_cells@[x])@.len() == self.rows
        &&& self.next_cells@.len() == self.cols
        &&& forall|x: int|
            0 <= x < self.cols ==> (#[trigger] self.next_cells@[x])@.len() == self.rows
        &&& self.alive_rule@.len() == 9
        &&& self.dead_rule@.len() == 9
        &&& self.born_rule@.len() == 9
        &&& 0 < self.step_ms <= STEP_MS
    }

}

/// One where true counts as one, false as zero.
pub open spec fn b2i(b: bool) -> int {
    if b {
        1
    } else {
        0
    }
}

/// Whether position (x, y) holds a live cell; everything outside the grid
/// reads as dead, so no neighbor count ever draws on an out-of-bounds
/// position.
pub open spec fn cell_at(g: Seq<Seq<bool>>, x: int, y: int) -> bool {
    0 <= x < g.len() && 0 <= y < g[x].len() && g[x][y]
}

/// The live cells among the eight Moore neighbors of (x, y), the cell
/// itself excluded.
pub open spec fn live_neighbors(g: Seq<Seq<bool>>, x: int, y: int) -> int {
    b2i(cell_at(g, x - 1, y - 1)) + b2i(cell_at(g, x - 1, y)) + b2i(cell_at(g, x - 1, y + 1))
        + b2i(cell_at(g, x, y - 1)) + b2i(cell_at(g, x, y + 1)) + b2i(cell_at(g, x + 1, y - 1))
        + b2i(cell_at(g, x + 1, y)) + b2i(cell_at(g, x + 1, y + 1))
}

/// A cell's next state under the rule tables, given its current state and
/// its live-neighbor count: a live cell stays by the alive table or a dead
/// cell is born by the born table; failing that a live cell dies by the
/// dead table; otherwise the state carries over.
pub open spec fn step_cell(
    alive: bool,
    n: int,
    alive_rule: Seq<bool>,
    born_rule: Seq<bool>,
    dead_rule: Seq<bool>,
) -> bool {
    if (alive && alive_rule[n]) || (!alive && born_rule[n]) {
        true
    } else if alive && dead_rule[n] {
        false
    } else {
        alive
    }
}

/// Helper for `step_grid`: the next state of the cell at (x, y).
pub open spec fn step_at(
    g: Seq<Seq<bool>>,
    alive_rule: Seq<bool>,
    born_rule: Seq<bool>,
    dead_rule: Seq<bool>,
    x: int,
    y: int,
) -> bool {
    step_cell(g[x][y], live_neighbors(g, x, y), alive_rule, born_rule, dead_rule)
}

/// One full step: every cell advances simultaneously from the same grid.
pub open spec fn step_grid(
    g: Seq<Seq<bool>>,
    alive_rule: Seq<bool>,
    born_rule: Seq<bool>,
    dead_rule: Seq<bool>,
) -> Seq<Seq<bool>> {
    Seq::new(
        g.len(),
        |x: int| Seq::new(g[x].len(), |y: int| step_at(g, alive_rule, born_rule, dead_rule, x, y)),
    )
}

/// The state after one tick of elapsed time `dt`: paused states ignore it;
/// otherwise the countdown drains, and when `dt` reaches it the grid steps
/// and the countdown resets to the default interval. Time beyond the
/// countdown is discarded, and a zero `dt` advances nothing.
pub open spec fn life_update(v: LifeView, dt: u64) -> LifeView {
    if !v.running {
        v
    } else if dt >= v.step_ms {
        LifeView {
            grid: step_grid(v.grid, v.alive_rule, v.born_rule, v.dead_rule),
            step_ms: STEP_MS,
            ..v
        }
    } else {
        LifeView { step_ms: (v.step_ms - dt) as u64, ..v }
    }
}

/// The state after one key: space toggles the running flag, everything else
/// is ignored.
pub open spec fn life_input(v: LifeView, key: KeyCode) -> LifeView {
    if key == KeyCode::Char(' ') {
        LifeView { running: !v.running, ..v }
    } else {
        v
    }
}

/// Whether position (x, y) holds a live cell, reading anything outside the
/// grid as dead.
fn is_live(g: &Vec<Vec<bool>>, x: usize, y: usize) -> (b: bool)
    ensures
        b == cell_at(gview(*g), x as int, y as int),
{
    if x < g.len() {
        let col = &g[x];
        if y < col.len() {
            col[y]
        } else {
            false
        }
    } else {
        false
    }
}

/// Count the live Moore neighbors of (x, y), reading out-of-bounds
/// positions as dead.
fn count_neighbors(g: &Vec<Vec<bool>>, x: usize, y: usize) -> (n: u32)
    requires
        x < gview(*g).len(),
        y < gview(*g)[x as int].len(),
    ensures
        n == live_neighbors(gview(*g), x as int, y as int),
        n <= 8,
{
    // Reading the lengths as usize values puts their machine bounds in
    // scope, so the neighbor coordinates below cannot overflow.
    let _cols_len = g.len();
    let _col_len = g[x].len();
    proof {
        assert(gview(*g)[x as int] == g@[x as int]@);
    }
    let mut n: u32 = 0;
    if x > 0 {
        if y > 0 {
            if is_live(g, x - 1, y - 1) {
                n = n + 1;
            }
        }
        if is_live(g, x - 1, y) {
            n = n + 1;
        }
        if is_live(g, x - 1, y + 1) {
            n = n + 1;
        }
    }
    if y > 0 {
        if is_live(g, x, y - 1) {
            n = n + 1;
        }
    }
    if is_live(g, x, y + 1) {
        n = n + 1;
    }
    if y > 0 {
        if is_live(g, x + 1, y - 1) {
            n = n + 1;
        }
    }
    if is_live(g, x + 1, y) {
        n = n + 1;
    }
    if is_live(g, x + 1, y + 1) {
        n = n + 1;
    }
    proof {
        assert(b2i(cell_at(gview(*g), x as int - 1, y as int - 1)) == (if x > 0 && y > 0
            && cell_at(gview(*g), x as int - 1, y as int - 1) {
            1int
        } else {
            0int
        }));
    }
    n
}

impl Life {
    /// React to one key, as `life_input` describes: space toggles pause.
    pub fn input_handle(&mut self, key: KeyCode)
        requires
            old(self).wf(),
        ensures
            final(self).wf(),
            final(self)@ == life_input(old(self)@, key),
    {
        match key {
            KeyCode::Char(c) => {
                if c == ' ' {
                    self.status = if self.status == Status::Pause {
                        Status::Running
                    } else {
                        Status::Pause
                    };
                }
            },
            _ => {},
        }
    }

    /// Advance every cell one step from the current grid into the back
    /// buffer, then swap the buffers.
    fn step(&mut self)
        requires
            old(self).wf(),
        ensures
            final(self).wf(),
            final(self)@ == (LifeView {
                grid: step_grid(
                    old(self)@.grid,
                    old(self)@.alive_rule,
                    old(self)@.born_rule,
                    old(self)@.dead_rule,
                ),
                ..old(self)@
            }),
    {
        let ghost g0 = gview(self.current_cells);
        let ghost target = step_grid(g0, self.alive_rule@, self.born_rule@, self.dead_rule@);
        let cols = self.cols as usize;
        let rows = self.rows as usize;
        let mut x: usize = 0;
        while x < cols
            invariant
                old(self).wf(),
                x <= cols,
                cols == old(self).cols,
                rows == old(self).rows,
                self.current_cells == old(self).current_cells,
                self.alive_rule == old(self).alive_rule,
                self.dead_rule == old(self).dead_rule,
                self.born_rule == old(self).born_rule,
                self.alive_threshold == old(self).alive_threshold,
                self.cols == old(self).cols,
                self.rows == old(self).rows,
                self.step_ms == old(self).step_ms,
                self.status == old(self).status,
                self.seeded == old(self).seeded,
                g0 == gview(self.current_cells),
                self.next_cells@.len() == cols,
                forall|i: int|
                    0 <= i < cols ==> (#[trigger] self.next_cells@[i])@.len() == rows,
                forall|i: int, j: int|
                    0 <= i < x && 0 <= j < rows
                        ==> (#[trigger] self.next_cells@[i]@[j]) == step_at(
                        g0,
                        old(self)@.alive_rule,
                        old(self)@.born_rule,
                        old(self)@.dead_rule,
                        i,
                        j,
                    ),
            decreases cols - x,
        {
            let mut y: usize = 0;
            while y < rows
                invariant
                    old(self).wf(),
                    x < cols,
                    y <= rows,
                    cols == old(self).cols,
                    rows == old(self).rows,
                    self.current_cells == old(self).current_cells,
                    self.alive_rule == old(self).alive_rule,
                    self.dead_rule == old(self).dead_rule,
                    self.born_rule == old(self).born_rule,
                    self.alive_threshold == old(self).alive_threshold,
                    self.cols == old(self).cols,
                    self.rows == old(self).rows,
                    self.step_ms == old(self).step_ms,
                    self.status == old(self).status,
                    self.seeded == old(self).seeded,
                    g0 == gview(self.current_cells),
                    self.next_cells@.len() == cols,
                    forall|i: int|
                        0 <= i < cols ==> (#[trigger] self.next_cells@[i])@.len() == rows,
                    forall|i: int, j: int|
                        0 <= i < x && 0 <= j < rows
                            ==> (#[trigger] self.next_cells@[i]@[j]) == step_at(
                            g0,
                            old(self)@.alive_rule,
                            old(self)@.born_rule,
                            old(self)@.dead_rule,
                            i,
                            j,
                        ),
                    forall|j: int|
                        0 <= j < y
                            ==> (#[trigger] self.next_cells@[x as int]@[j]) == step_at(
                            g0,
                            old(self)@.alive_rule,
                            old(self)@.born_rule,
                            old(self)@.dead_rule,
                            x as int,
                            j,
                        ),
                decreases rows - y,
            {
                proof {
                    assert(gview(self.current_cells)[x as int] == self.current_cells@[x as int]@);
                }
                let n = count_neighbors(&self.current_cells, x, y);
                let cur = self.current_cells[x][y];
                let idx = n as usize;
                let b = if (cur && self.alive_rule[idx]) || (!cur && self.born_rule[idx]) {
                    true
                } else if cur && self.dead_rule[idx] {
                    false
                } else {
                    cur
                };
                self.next_cells[x][y] = b;
                y = y + 1;
            }
            x = x + 1;
        }
        core::mem::swap(&mut self.current_cells, &mut self.next_cells);
        proof {
            assert forall|i: int| 0 <= i < cols implies gview(self.current_cells)[i]
                == target[i] by {
                assert(gview(self.current_cells)[i] == self.current_cells@[i]@);
                assert(g0[i].len() == rows);
                assert forall|j: int| 0 <= j < rows implies self.current_cells@[i]@[j]
                    == target[i][j] by {
                    assert(self.current_cells@[i]@[j] == step_at(
                        g0,
                        old(self)@.alive_rule,
                        old(self)@.born_rule,
                        old(self)@.dead_rule,
                        i,
                        j,
                    ));
                }
                assert(gview(self.current_cells)[i] =~= target[i]);
            }
            assert(gview(self.current_cells) =~= target);
        }
    }

    /// Advance the state by one tick of `ctx.dt` elapsed milliseconds, as
    /// `life_update` describes; the context is left unchanged.
    pub fn update(&mut self, ctx: &mut Ctx)
        requires
            old(self).wf(),
        ensures
            final(self).wf(),
            final(self)@ == life_update(old(self)@, old(ctx).dt),
            *final(ctx) == *old(ctx),
    {
        if self.status == Status::Pause {
            return ;
        }
        if ctx.dt >= self.step_ms {
            self.step_ms = STEP_MS;
            self.step();
        } else {
            self.step_ms = self.step_ms - ctx.dt;
        }
    }
}


/// The default tables: standard Life. A live cell stays with two or three
/// live neighbors, a dead cell is born with exactly three, and every other
/// count kills a live cell.
pub open spec fn default_alive_rule() -> Seq<bool> {
    seq![false, false, true, true, false, false, false, false, false]
}

/// The default dying table: every neighbor count but two and three.
pub open spec fn default_dead_rule() -> Seq<bool> {
    seq![true, true, false, false, true, true, true, true, true]
}

/// The default birth table: exactly three live neighbors.
pub open spec fn default_born_rule() -> Seq<bool> {
    seq![false, false, false, true, false, false, false, false, false]
}

/// Whether seeding makes cell (x, y) start alive: its draw from the stream,
/// taken in column-major order, falls below the threshold.
pub open spec fn seeded_cell(seed: u64, start: nat, rows: nat, thresh: u32, x: int, y: int) -> bool {
    rng_value(seed, (start + x * rows + y) as nat) < thresh
}

/// The grid seeding produces from draws `start` and on of the stream.
pub open spec fn seeded_grid(seed: u64, start: nat, cols: nat, rows: nat, thresh: u32) -> Seq<Seq<bool>> {
    Seq::new(
        cols,
        |x: int| Seq::new(rows, |y: int| seeded_cell(seed, start, rows, thresh, x, y)),
    )
}

/// A grid after seeding on top of it: a cell ends alive when it was alive
/// already or its draw falls below the threshold.
pub open spec fn seeded_over(g: Seq<Seq<bool>>, seed: u64, start: nat, rows: nat, thresh: u32) -> Seq<Seq<bool>> {
    Seq::new(
        g.len(),
        |x: int|
            Seq::new(g[x].len(), |y: int| g[x][y] || seeded_cell(seed, start, rows, thresh, x, y)),
    )
}

/// An all-dead grid of the given dimensions.
pub open spec fn dead_grid_view(cols: nat, rows: nat) -> Seq<Seq<bool>> {
    Seq::new(cols, |x: int| Seq::new(rows, |y: int| false))
}

/// The simulation a confirmed menu starts: sized from the selected counts,
/// entirely dead, unseeded, paused, under the default tables.
pub open spec fn from_menu_view(m: Menu) -> LifeView {
    LifeView {
        grid: dead_grid_view(m.selected_cols as nat, m.selected_rows as nat),
        alive_rule: default_alive_rule(),
        dead_rule: default_dead_rule(),
        born_rule: default_born_rule(),
        alive_threshold: ALIVE_THRESHOLD,
        cols: m.selected_cols as nat,
        rows: m.selected_rows as nat,
        step_ms: STEP_MS,
        running: false,
        seeded: false,
    }
}

/// Build one rule table from its nine entries.
fn rule_table(
    e0: bool,
    e1: bool,
    e2: bool,
    e3: bool,
    e4: bool,
    e5: bool,
    e6: bool,
    e7: bool,
    e8: bool,
) -> (r: Vec<bool>)
    ensures
        r@ == seq![e0, e1, e2, e3, e4, e5, e6, e7, e8],
{
    let mut r: Vec<bool> = Vec::new();
    r.push(e0);
    r.push(e1);
    r.push(e2);
    r.push(e3);
    r.push(e4);
    r.push(e5);
    r.push(e6);
    r.push(e7);
    r.push(e8);
    proof {
        assert(r@ =~= seq![e0, e1, e2, e3, e4, e5, e6, e7, e8]);
    }
    r
}

/// Allocate an all-dead grid of the given dimensions.
fn dead_grid(cols: usize, rows: usize) -> (g: Vec<Vec<bool>>)
    ensures
        g@.len() == cols,
        forall|x: int| 0 <= x < cols ==> (#[trigger] g@[x])@.len() == rows,
        forall|x: int, y: int| 0 <= x < cols && 0 <= y < rows ==> !(g@[x]@[y]),
{
    let mut g: Vec<Vec<bool>> = Vec::new();
    while g.len() < cols
        invariant
            g@.len() <= cols,
            forall|x: int| 0 <= x < g@.len() ==> (#[trigger] g@[x])@.len() == rows,
            forall|x: int, y: int| 0 <= x < g@.len() && 0 <= y < rows ==> !(g@[x]@[y]),
        decreases cols - g.len(),
    {
        let mut col: Vec<bool> = Vec::new();
        while col.len() < rows
            invariant
                col@.len() <= rows,
                forall|y: int| 0 <= y < col@.len() ==> !(col@[y]),
            decreases rows - col.len(),
        {
            col.push(false);
        }
        g.push(col);
    }
    g
}

impl Life {
    /// Seed the current grid from the context's random source: one draw per
    /// cell in column-major order, setting the cell alive when the draw
    /// falls below the threshold.
    fn fill_current(&mut self, ctx: &mut Ctx)
        requires
            old(self).wf(),
        ensures
            final(self).wf(),
            final(self)@ == (LifeView {
                grid: seeded_over(
                    old(self)@.grid,
                    old(ctx).rng.spec_seed(),
                    old(ctx).rng.spec_drawn(),
                    old(self)@.rows,
                    old(self)@.alive_threshold,
                ),
                ..old(self)@
            }),
            final(ctx).cols == old(ctx).cols,
            final(ctx).rows == old(ctx).rows,
            final(ctx).dt == old(ctx).dt,
            final(ctx).rng.spec_seed() == old(ctx).rng.spec_seed(),
            final(ctx).rng.spec_drawn() == old(ctx).rng.spec_drawn() + old(self)@.cols * old(
                self,
            )@.rows,
    {
        let ghost g0 = gview(self.current_cells);
        let ghost seed = ctx.rng.spec_seed();
        let ghost start = ctx.rng.spec_drawn();
        let cols = self.cols as usize;
        let rows = self.rows as usize;
        let mut x: usize = 0;
        while x < cols
            invariant
                old(self).wf(),
                x <= cols,
                cols == old(self).cols,
                rows == old(self).rows,
                self.next_cells == old(self).next_cells,
                self.alive_rule == old(self).alive_rule,
                self.dead_rule == old(self).dead_rule,
                self.born_rule == old(self).born_rule,
                self.alive_threshold == old(self).alive_threshold,
                self.cols == old(self).cols,
                self.rows == old(self).rows,
                self.step_ms == old(self).step_ms,
                self.status == old(self).status,
                self.seeded == old(self).seeded,
                self.current_cells@.len() == cols,
                forall|i: int|
                    0 <= i < cols ==> (#[trigger] self.current_cells@[i])@.len() == rows,
                ctx.cols == old(ctx).cols,
                ctx.rows == old(ctx).rows,
                ctx.dt == old(ctx).dt,
                ctx.rng.spec_seed() == seed,
                ctx.rng.spec_drawn() == start + x * rows,
                forall|i: int, j: int|
                    0 <= i < x && 0 <= j < rows
                        ==> (#[trigger] self.current_cells@[i]@[j]) == (g0[i][j] || seeded_cell(
                        seed,
                        start,
                        rows as nat,
                        old(self).alive_threshold,
                        i,
                        j,
                    )),
                forall|i: int, j: int|
                    x <= i < cols && 0 <= j < rows
                        ==> (#[trigger] self.current_cells@[i]@[j]) == g0[i][j],
            decreases cols - x,
        {
            let mut y: usize = 0;
            while y < rows
                invariant
                    old(self).wf(),
                    x < cols,
                    y <= rows,
                    cols == old(self).cols,
                    rows == old(self).rows,
                    self.next_cells == old(self).next_cells,
                    self.alive_rule == old(self).alive_rule,
                    self.dead_rule == old(self).dead_rule,
                    self.born_rule == old(self).born_rule,
                    self.alive_threshold == old(self).alive_threshold,
                    self.cols == old(self).cols,
                    self.rows == old(self).rows,
                    self.step_ms == old(self).step_ms,
                    self.status == old(self).status,
                    self.seeded == old(self).seeded,
                    self.current_cells@.len() == cols,
                    forall|i: int|
                        0 <= i < cols ==> (#[trigger] self.current_cells@[i])@.len() == rows,
                    ctx.cols == old(ctx).cols,
                    ctx.rows == old(ctx).rows,
                    ctx.dt == old(ctx).dt,
                    ctx.rng.spec_seed() == seed,
                    ctx.rng.spec_drawn() == start + x * rows + y,
                    forall|i: int, j: int|
                        0 <= i < x && 0 <= j < rows
                            ==> (#[trigger] self.current_cells@[i]@[j]) == (g0[i][j]
                            || seeded_cell(
                            seed,
                            start,
                            rows as nat,
                            old(self).alive_threshold,
                            i,
                            j,
                        )),
                    forall|j: int|
                        0 <= j < y
                            ==> (#[trigger] self.current_cells@[x as int]@[j]) == (g0[x as int][j]
                            || seeded_cell(
                            seed,
                            start,
                            rows as nat,
                            old(self).alive_threshold,
                            x as int,
                            j,
                        )),
                    forall|j: int|
                        y <= j < rows
                            ==> (#[trigger] self.current_cells@[x as int]@[j]) == g0[x as int][j],
                    forall|i: int, j: int|
                        x < i < cols && 0 <= j < rows
                            ==> (#[trigger] self.current_cells@[i]@[j]) == g0[i][j],
                decreases rows - y,
            {
                let r = ctx.rng.next_u32();
                if r < self.alive_threshold {
                    self.current_cells[x][y] = true;
                }
                y = y + 1;
            }
            proof {
                assert(start + x * rows + rows == start + (x + 1) * rows) by (nonlinear_arith);
            }
            x = x + 1;
        }
        proof {
            let target = seeded_over(
                g0,
                seed,
                start,
                rows as nat,
                old(self).alive_threshold,
            );
            assert forall|i: int| 0 <= i < cols implies gview(self.current_cells)[i]
                == target[i] by {
                assert(gview(self.current_cells)[i] == self.current_cells@[i]@);
                assert(g0[i].len() == rows);
                assert forall|j: int| 0 <= j < rows implies self.current_cells@[i]@[j]
                    == target[i][j] by {
                    assert(self.current_cells@[i]@[j] == (g0[i][j] || seeded_cell(
                        seed,
                        start,
                        rows as nat,
                        old(self).alive_threshold,
                        i,
                        j,
                    )));
                }
                assert(gview(self.current_cells)[i] =~= target[i]);
            }
            assert(gview(self.current_cells) =~= target);
            assert(old(self)@.grid == g0);
            assert(old(self)@.cols * old(self)@.rows == cols * rows);
        }
    }

    /// A fresh simulation sized to the terminal: default tables, paused,
    /// the grid seeded at random from the context's random source.
    pub fn new(ctx: &mut Ctx) -> (l: Life)
        ensures
            l.wf(),
            l@ == (LifeView {
                grid: seeded_grid(
                    old(ctx).rng.spec_seed(),
                    old(ctx).rng.spec_drawn(),
                    old(ctx).cols as nat,
                    old(ctx).rows as nat,
                    ALIVE_THRESHOLD,
                ),
                alive_rule: default_alive_rule(),
                dead_rule: default_dead_rule(),
                born_rule: default_born_rule(),
                alive_threshold: ALIVE_THRESHOLD,
                cols: old(ctx).cols as nat,
                rows: old(ctx).rows as nat,
                step_ms: STEP_MS,
                running: false,
                seeded: true,
            }),
            final(ctx).cols == old(ctx).cols,
            final(ctx).rows == old(ctx).rows,
            final(ctx).dt == old(ctx).dt,
            final(ctx).rng.spec_seed() == old(ctx).rng.spec_seed(),
            final(ctx).rng.spec_drawn() == old(ctx).rng.spec_drawn() + old(ctx).cols as nat * old(
                ctx,
            ).rows as nat,
    {
        let cols = ctx.cols;
        let rows = ctx.rows;
        let mut new_life = Life {
            current_cells: dead_grid(cols as usize, rows as usize),
            next_cells: dead_grid(cols as usize, rows as usize),
            alive_rule: rule_table(false, false, true, true, false, false, false, false, false),
            dead_rule: rule_table(true, true, false, false, true, true, true, true, true),
            born_rule: rule_table(false, false, false, true, false, false, false, false, false),
            alive_threshold: ALIVE_THRESHOLD,
            cols: cols as u32,
            rows: rows as u32,
            step_ms: STEP_MS,
            status: Status::Pause,
            seeded: true,
        };
        proof {
            assert(new_life.wf());
        }
        let ghost before = new_life@;
        new_life.fill_current(ctx);
        proof {
            let seeded = seeded_grid(
                old(ctx).rng.spec_seed(),
                old(ctx).rng.spec_drawn(),
                cols as nat,
                rows as nat,
                ALIVE_THRESHOLD,
            );
            let over = seeded_over(
                before.grid,
                old(ctx).rng.spec_seed(),
                old(ctx).rng.spec_drawn(),
                rows as nat,
                ALIVE_THRESHOLD,
            );
            assert forall|i: int| 0 <= i < cols implies over[i] == seeded[i] by {
                assert(before.grid[i].len() == rows as int);
                assert forall|j: int| 0 <= j < rows implies over[i][j] == seeded[i][j] by {
                    assert(!before.grid[i][j]);
                }
                assert(over[i] =~= seeded[i]);
            }
            assert(over =~= seeded);
        }
        new_life
    }

    /// The simulation a confirmed menu starts, as `from_menu_view`
    /// describes: sized from the selected counts and entirely dead.
    pub fn from_menu(menu: &Menu) -> (l: Life)
        ensures
            l.wf(),
            l@ == from_menu_view(*menu),
    {
        let l = Life {
            current_cells: dead_grid(menu.selected_cols as usize, menu.selected_rows as usize),
            next_cells: dead_grid(menu.selected_cols as usize, menu.selected_rows as usize),
            alive_rule: rule_table(false, false, true, true, false, false, false, false, false),
            dead_rule: rule_table(true, true, false, false, true, true, true, true, true),
            born_rule: rule_table(false, false, false, true, false, false, false, false, false),
            alive_threshold: ALIVE_THRESHOLD,
            cols: menu.selected_cols as u32,
            rows: menu.selected_rows as u32,
            step_ms: STEP_MS,
            status: Status::Pause,
            seeded: false,
        };
        proof {
            let dead = dead_grid_view(menu.selected_cols as nat, menu.selected_rows as nat);
            assert forall|i: int| 0 <= i < menu.selected_cols implies l@.grid[i] == dead[i] by {
                assert(l@.grid[i] == l.current_cells@[i]@);
                assert(l@.grid[i] =~= dead[i]);
            }
            assert(l@.grid =~= dead);
        }
        l
    }

    /// Whether the cell at (x, y) is alive.
    pub fn is_alive(&self, x: usize, y: usize) -> (b: bool)
        requires
            self.wf(),
            x < self@.cols,
            y < self@.rows,
        ensures
            b == self@.grid[x as int][y as int],
    {
        proof {
            assert(self@.grid[x as int] == self.current_cells@[x as int]@);
        }
        self.current_cells[x][y]
    }

    /// Whether the simulation is advancing rather than paused.
    pub fn is_running(&self) -> (b: bool)
        ensures
            b == self@.running,
    {
        self.status == Status::Running
    }

    /// The grid dimensions, columns then rows.
    pub fn size(&self) -> (r: (u32, u32))
        ensures
            r.0 == self@.cols,
            r.1 == self@.rows,
    {
        (self.cols, self.rows)
    }

    /// Overwrite the cell at (x, y); everything else stays.
    pub fn set_cell(&mut self, x: usize, y: usize, alive: bool)
        requires
            old(self).wf(),
            x < old(self)@.cols,
            y < old(self)@.rows,
        ensures
            final(self).wf(),
            final(self)@ == (LifeView {
                grid: old(self)@.grid.update(
                    x as int,
                    old(self)@.grid[x as int].update(y as int, alive),
                ),
                ..old(self)@
            }),
    {
        proof {
            assert(old(self)@.grid[x as int] == old(self).current_cells@[x as int]@);
        }
        self.current_cells[x][y] = alive;
        proof {
            let target = old(self)@.grid.update(
                x as int,
                old(self)@.grid[x as int].update(y as int, alive),
            );
            assert forall|i: int| 0 <= i < self.cols implies gview(self.current_cells)[i]
                == target[i] by {
                assert(gview(self.current_cells)[i] == self.current_cells@[i]@);
                if i == x {
                    assert(self.current_cells@[i]@ =~= target[i]);
                } else {
                    assert(self.current_cells@[i]@ =~= target[i]);
                }
            }
            assert(gview(self.current_cells) =~= target);
        }
    }
}


/// The two-tone cell a grid position draws as: an 'X' for a live cell, a
/// blank for a dead one, both white on dark grey.
pub open spec fn live_glyph(alive: bool) -> Cell {
    Cell {
        foreground_color: Color::White,
        background_color: Color::DarkGrey,
        char: if alive {
            'X'
        } else {
            ' '
        },
    }
}

/// The cell the pause overlay is drawn with: white on black.
pub open spec fn pause_cell() -> Cell {
    Cell { foreground_color: Color::White, background_color: Color::Black, char: ' ' }
}

/// A frame with the cell grid painted over it: positions covered by the
/// grid show its two-tone glyphs, the rest of the frame stays; a frame
/// smaller than the grid truncates it silently.
pub open spec fn cells_painted(grid: Seq<Seq<bool>>, f: Seq<Seq<Cell>>) -> Seq<Seq<Cell>> {
    Seq::new(
        f.len(),
        |x: int|
            Seq::new(
                f[x].len(),
                |y: int|
                    if x < grid.len() && y < grid[x].len() {
                        live_glyph(grid[x][y])
                    } else {
                        f[x][y]
                    },
            ),
    )
}

/// What the simulation paints over a frame: the cell grid, and on top of it,
/// when paused, the pause indicator box with its label, drawn last so the
/// grid never overdraws it.
pub open spec fn life_frame(v: LifeView, f: Seq<Seq<Cell>>) -> Seq<Seq<Cell>> {
    let base = cells_painted(v.grid, f);
    if !v.running {
        text_painted(rec_painted(base, 2, 2, 7, 3, pause_cell()), 3, 3, "PAUSE"@, pause_cell())
    } else {
        base
    }
}

impl Life {
    /// Draw the simulation into the frame, as `life_frame` describes.
    pub fn draw(&self, frame: &mut Frame)
        requires
            self.wf(),
        ensures
            fview(*final(frame)) == life_frame(self@, fview(*old(frame))),
    {
        let ghost f0 = fview(*old(frame));
        let ghost g = self@.grid;
        let cols = self.cols as usize;
        let rows = self.rows as usize;
        let mut x: usize = 0;
        while x < cols
            invariant
                self.wf(),
                x <= cols,
                cols == self.cols,
                rows == self.rows,
                g == self@.grid,
                frame@.len() == f0.len(),
                forall|a: int| 0 <= a < f0.len() ==> (#[trigger] frame@[a])@.len() == f0[a].len(),
                forall|a: int, b: int|
                    0 <= a < f0.len() && 0 <= b < f0[a].len()
                        ==> (#[trigger] frame@[a]@[b]) == (if a < x && a < g.len() && b
                        < g[a].len() {
                        live_glyph(g[a][b])
                    } else {
                        f0[a][b]
                    }),
            decreases cols - x,
        {
            proof {
                assert(g[x as int] == self.current_cells@[x as int]@);
            }
            let mut y: usize = 0;
            while y < rows
                invariant
                    self.wf(),
                    x < cols,
                    y <= rows,
                    cols == self.cols,
                    rows == self.rows,
                    g == self@.grid,
                    frame@.len() == f0.len(),
                    forall|a: int|
                        0 <= a < f0.len() ==> (#[trigger] frame@[a])@.len() == f0[a].len(),
                    forall|a: int, b: int|
                        0 <= a < f0.len() && 0 <= b < f0[a].len()
                            ==> (#[trigger] frame@[a]@[b]) == (if (a < x || (a == x && b < y)) && a
                            < g.len() && b < g[a].len() {
                            live_glyph(g[a][b])
                        } else {
                            f0[a][b]
                        }),
                decreases rows - y,
            {
                if x < frame.len() {
                    if y < frame[x].len() {
                        let alive = self.current_cells[x][y];
                        let cell = Cell {
                            foreground_color: Color::White,
                            background_color: Color::DarkGrey,
                            char: if alive {
                                'X'
                            } else {
                                ' '
                            },
                        };
                        frame[x][y] = cell;
                    }
                }
                y = y + 1;
            }
            x = x + 1;
        }
        proof {
            let target = cells_painted(g, f0);
            assert forall|a: int| 0 <= a < f0.len() implies fview(*frame)[a] == target[a] by {
                assert(fview(*frame)[a] == frame@[a]@);
                assert forall|b: int| 0 <= b < f0[a].len() implies frame@[a]@[b]
                    == target[a][b] by {
                    if a < g.len() && b < g[a].len() {
                        assert(frame@[a]@[b] == live_glyph(g[a][b]));
                        assert(target[a][b] == live_glyph(g[a][b]));
                    } else {
                        assert(frame@[a]@[b] == f0[a][b]);
                        assert(target[a][b] == f0[a][b]);
                    }
                }
                assert(fview(*frame)[a] =~= target[a]);
            }
            assert(fview(*frame) =~= target);
        }
        if self.status == Status::Pause {
            let pause = Cell {
                foreground_color: Color::White,
                background_color: Color::Black,
                char: ' ',
            };
            draw_rec(2, 2, 7, 3, pause, frame);
            draw_text(3, 3, "PAUSE", pause, frame);
        }
    }
}


/// No spontaneous birth: under tables whose birth entry for zero neighbors
/// is off, stepping an all-dead grid produces an all-dead grid.
pub proof fn lemma_dead_grid_stays_dead(
    g: Seq<Seq<bool>>,
    alive_rule: Seq<bool>,
    born_rule: Seq<bool>,
    dead_rule: Seq<bool>,
)
    requires
        !born_rule[0],
        forall|x: int, y: int|
            0 <= x < g.len() && 0 <= y < g[x].len() ==> !(#[trigger] g[x][y]),
    ensures
        forall|x: int, y: int|
            0 <= x < g.len() && 0 <= y < g[x].len() ==> !(#[trigger] step_grid(
                g,
                alive_rule,
                born_rule,
                dead_rule,
            )[x][y]),
{
    assert forall|x: int, y: int|
        0 <= x < g.len() && 0 <= y < g[x].len() implies !(#[trigger] step_grid(
        g,
        alive_rule,
        born_rule,
        dead_rule,
    )[x][y]) by {
        assert(live_neighbors(g, x, y) == 0);
        assert(step_grid(g, alive_rule, born_rule, dead_rule)[x][y] == step_at(
            g,
            alive_rule,
            born_rule,
            dead_rule,
            x,
            y,
        ));
    }
}

/// An isolated live cell dies: with the stay-alive entry for zero neighbors
/// off and the dying entry on, a live cell without live neighbors is dead
/// after one step.
pub proof fn lemma_isolated_cell_dies(
    g: Seq<Seq<bool>>,
    alive_rule: Seq<bool>,
    born_rule: Seq<bool>,
    dead_rule: Seq<bool>,
    x: int,
    y: int,
)
    requires
        !alive_rule[0],
        dead_rule[0],
        0 <= x < g.len(),
        0 <= y < g[x].len(),
        g[x][y],
        live_neighbors(g, x, y) == 0,
    ensures
        !step_grid(g, alive_rule, born_rule, dead_rule)[x][y],
{
}

/// Boundary safety: a position outside the grid never reads as live, so a
/// neighbor count sums in-bounds positions only, and always lies between
/// zero and eight.
pub proof fn lemma_neighbors_in_bounds(g: Seq<Seq<bool>>, x: int, y: int)
    ensures
        forall|i: int, j: int|
            !(0 <= i < g.len() && 0 <= j < g[i].len()) ==> !cell_at(g, i, j),
        0 <= live_neighbors(g, x, y) <= 8,
{
}

/// The pause toggle is a pure flip: one space key inverts the running flag
/// and touches nothing else, and a second restores the state exactly.
pub proof fn lemma_pause_toggle(v: LifeView)
    ensures
        life_input(life_input(v, KeyCode::Char(' ')), KeyCode::Char(' ')) == v,
        life_input(v, KeyCode::Char(' ')).running == !v.running,
        life_input(v, KeyCode::Char(' ')).grid == v.grid,
{
}

/// The state after updates with each elapsed time of `dts`, in order.
pub open spec fn run_updates(v: LifeView, dts: Seq<u64>) -> LifeView
    decreases dts.len(),
{
    if dts.len() == 0 {
        v
    } else {
        run_updates(life_update(v, dts[0]), dts.drop_first())
    }
}

/// The total of a sequence of elapsed times.
pub open spec fn sum_dts(dts: Seq<u64>) -> int
    decreases dts.len(),
{
    if dts.len() == 0 {
        0
    } else {
        dts[0] + sum_dts(dts.drop_first())
    }
}

proof fn lemma_sum_nonneg(dts: Seq<u64>)
    ensures
        sum_dts(dts) >= 0,
    decreases dts.len(),
{
    if dts.len() > 0 {
        lemma_sum_nonneg(dts.drop_first());
    }
}

/// While paused, updates change nothing at all, however many arrive.
pub proof fn lemma_paused_updates_stall(v: LifeView, dts: Seq<u64>)
    requires
        !v.running,
    ensures
        run_updates(v, dts) == v,
    decreases dts.len(),
{
    if dts.len() > 0 {
        assert(life_update(v, dts[0]) == v);
        lemma_paused_updates_stall(v, dts.drop_first());
    }
}

/// Updates summing to no elapsed time change nothing, running or not, as
/// long as the countdown has time left.
proof fn lemma_zero_sum_updates(v: LifeView, dts: Seq<u64>)
    requires
        sum_dts(dts) == 0,
        0 < v.step_ms,
    ensures
        run_updates(v, dts) == v,
    decreases dts.len(),
{
    if dts.len() > 0 {
        lemma_sum_nonneg(dts.drop_first());
        assert(dts[0] == 0);
        assert(life_update(v, 0) == v);
        lemma_zero_sum_updates(v, dts.drop_first());
    }
}

/// Step gating: while running, a sequence of elapsed times summing exactly
/// to the countdown advances the grid exactly once, however the time is
/// split across the updates, and leaves the countdown reset to the default
/// interval.
pub proof fn lemma_step_gating(v: LifeView, dts: Seq<u64>)
    requires
        v.running,
        0 < v.step_ms,
        sum_dts(dts) == v.step_ms,
    ensures
        run_updates(v, dts) == (LifeView {
            grid: step_grid(v.grid, v.alive_rule, v.born_rule, v.dead_rule),
            step_ms: STEP_MS,
            ..v
        }),
    decreases dts.len(),
{
    lemma_sum_nonneg(dts.drop_first());
    let d0 = dts[0];
    let rest = dts.drop_first();
    if d0 >= v.step_ms {
        assert(d0 == v.step_ms);
        assert(sum_dts(rest) == 0);
        let v1 = life_update(v, d0);
        assert(v1.step_ms == STEP_MS);
        lemma_zero_sum_updates(v1, rest);
    } else {
        let v1 = life_update(v, d0);
        if d0 == 0 {
            assert(v1 == v);
        }
        assert(v1.step_ms == v.step_ms - d0);
        assert(sum_dts(rest) == v1.step_ms);
        lemma_step_gating(v1, rest);
    }
}

/// A grid holding exactly one live 2 by 2 block, its top-left corner at
/// (bx, by).
pub open spec fn block_grid(cols: nat, rows: nat, bx: int, by: int) -> Seq<Seq<bool>> {
    Seq::new(cols, |x: int| Seq::new(rows, |y: int| bx <= x < bx + 2 && by <= y < by + 2))
}

/// The grid after `n` steps under the given tables.
pub open spec fn step_n(
    g: Seq<Seq<bool>>,
    alive_rule: Seq<bool>,
    born_rule: Seq<bool>,
    dead_rule: Seq<bool>,
    n: nat,
) -> Seq<Seq<bool>>
    decreases n,
{
    if n == 0 {
        g
    } else {
        step_grid(step_n(g, alive_rule, born_rule, dead_rule, (n - 1) as nat), alive_rule, born_rule, dead_rule)
    }
}

proof fn lemma_block_one_step(cols: nat, rows: nat, bx: int, by: int)
    requires
        0 <= bx,
        bx + 2 <= cols,
        0 <= by,
        by + 2 <= rows,
    ensures
        step_grid(
            block_grid(cols, rows, bx, by),
            default_alive_rule(),
            default_born_rule(),
            default_dead_rule(),
        ) == block_grid(cols, rows, bx, by),
{
    let g = block_grid(cols, rows, bx, by);
    let s = step_grid(g, default_alive_rule(), default_born_rule(), default_dead_rule());
    assert forall|x: int| 0 <= x < cols implies s[x] == g[x] by {
        assert forall|y: int| 0 <= y < rows implies s[x][y] == g[x][y] by {
            assert(s[x][y] == step_at(
                g,
                default_alive_rule(),
                default_born_rule(),
                default_dead_rule(),
                x,
                y,
            ));
            let n = live_neighbors(g, x, y);
            if bx <= x < bx + 2 && by <= y < by + 2 {
                assert(n == 3);
                assert(default_alive_rule()[3]);
            } else {
                assert(n <= 2);
                assert(!default_born_rule()[0] && !default_born_rule()[1]
                    && !default_born_rule()[2]);
            }
        }
        assert(s[x] =~= g[x]);
    }
    assert(s =~= g);
}

/// A live 2 by 2 block is a still life: under the default tables the grid
/// holding exactly one block, fully inside its bounds, reproduces itself on
/// every step.
pub proof fn lemma_block_stable(cols: nat, rows: nat, bx: int, by: int, n: nat)
    requires
        0 <= bx,
        bx + 2 <= cols,
        0 <= by,
        by + 2 <= rows,
    ensures
        step_n(
            block_grid(cols, rows, bx, by),
            default_alive_rule(),
            default_born_rule(),
            default_dead_rule(),
            n,
        ) == block_grid(cols, rows, bx, by),
    decreases n,
{
    if n > 0 {
        lemma_block_stable(cols, rows, bx, by, (n - 1) as nat);
        lemma_block_one_step(cols, rows, bx, by);
    }
}


/// Drawing the simulation never changes a frame's shape.
pub proof fn lemma_life_frame_dims(v: LifeView, f: Seq<Seq<Cell>>, cols: int, rows: int)
    requires
        grid_dims(f, cols, rows),
    ensures
        grid_dims(life_frame(v, f), cols, rows),
{
    let base = cells_painted(v.grid, f);
    assert forall|i: int| 0 <= i < cols implies (#[trigger] base[i]).len() == rows by {
        assert(f[i].len() == rows);
    }
    if !v.running {
        crate::render::lemma_rec_painted_dims(base, 2, 2, 7, 3, pause_cell(), cols, rows);
        crate::render::lemma_text_painted_dims(
            rec_painted(base, 2, 2, 7, 3, pause_cell()),
            3,
            3,
            "PAUSE"@,
            pause_cell(),
            cols,
            rows,
        );
    }
}

} // verus!




