//! The engine: the shared context, the event model, the state variants and
//! the per-tick transition.
//!
//! One tick routes the pending input events (two keys always exit), advances
//! the current state by the elapsed time, draws it into a fresh frame, and
//! applies a pending state transition. The surrounding binary runs the loop:
//! it measures the elapsed time, polls the terminal for events, and hands the
//! produced frame to the render worker.

use vstd::prelude::*;

use crate::life::Life;
use crate::life::LifeView;
use crate::life::from_menu_view;
use crate::life::life_frame;
use crate::life::life_input;
use crate::life::life_update;
use crate::menu::Menu;
use crate::menu::menu_frame;
use crate::menu::menu_input;
use crate::render::Cell;
use crate::render::Frame;
use crate::render::blank_frame;
use crate::render::fview;
use crate::render::grid_dims;
use crate::render::new_frame;
use crate::rng::Rng;

verus! {

/// The shared per-tick context: terminal dimensions, elapsed milliseconds
/// since the previous tick, and the seeded random source.
pub struct Ctx {
    pub cols: u16,
    pub rows: u16,
    /// Elapsed time since the previous tick, in milliseconds.
    pub dt: u64,
    pub rng: Rng,
}

/// The key codes the screens react to.
#[derive(Clone, Copy, Debug, PartialEq, Eq, Structural)]
pub enum KeyCode {
    Up,
    Down,
    Left,
    Right,
    Enter,
    Esc,
    Char(char),
    Other,
}

/// One input event: a key press, or a terminal resize to (cols, rows).
#[derive(Clone, Copy, Debug, PartialEq, Eq, Structural)]
pub enum Event {
    Key(KeyCode),
    Resize(u16, u16),
}

/// The keys that end the main loop wherever they arrive.
pub open spec fn is_exit_key(key: KeyCode) -> bool {
    key == KeyCode::Esc || key == KeyCode::Char('q')
}

/// The current screen: exactly one is live at any tick. The engine never
/// inspects a screen's internals; it drives this variant through the four
/// capability methods below.
pub enum State {
    Menu(Menu),
    Life(Life),
}

/// The abstract state of the current screen.
pub ghost enum StateView {
    Menu(Menu),
    Life(LifeView),
}

impl View for State {
    type V = StateView;

    open spec fn view(&self) -> StateView {
        match self {
            State::Menu(m) => StateView::Menu(*m),
            State::Life(l) => StateView::Life(l@),
        }
    }
}

/// The screen after one key.
pub open spec fn state_input(s: StateView, key: KeyCode) -> StateView {
    match s {
        StateView::Menu(m) => StateView::Menu(menu_input(m, key)),
        StateView::Life(v) => StateView::Life(life_input(v, key)),
    }
}

/// The screen after one tick of elapsed time: the menu advances nothing.
pub open spec fn state_update(s: StateView, dt: u64) -> StateView {
    match s {
        StateView::Menu(m) => StateView::Menu(m),
        StateView::Life(v) => StateView::Life(life_update(v, dt)),
    }
}

/// What the screen paints over a frame.
pub open spec fn state_frame(s: StateView, f: Seq<Seq<Cell>>) -> Seq<Seq<Cell>> {
    match s {
        StateView::Menu(m) => menu_frame(m, f),
        StateView::Life(v) => life_frame(v, f),
    }
}

/// The screen after a pending transition is applied: a menu whose play
/// entry was confirmed becomes the simulation it configured; everything
/// else stays.
pub open spec fn state_next(s: StateView) -> StateView {
    match s {
        StateView::Menu(m) => if m.next_state is Life {
            StateView::Life(from_menu_view(m))
        } else {
            StateView::Menu(m)
        },
        StateView::Life(v) => StateView::Life(v),
    }
}

impl State {
    /// The current screen's concrete state is well formed.
    pub open spec fn wf(&self) -> bool {
        match self {
            State::Menu(_) => true,
            State::Life(l) => l.wf(),
        }
    }

    /// Route one key to the current screen.
    pub fn input_handle(&mut self, key: KeyCode)
        requires
            old(self).wf(),
        ensures
            final(self).wf(),
            final(self)@ == state_input(old(self)@, key),
    {
        match self {
            State::Menu(m) => m.input_handle(key),
            State::Life(l) => l.input_handle(key),
        }
    }

    /// Advance the current screen by one tick of `ctx.dt` elapsed time.
    pub fn update(&mut self, ctx: &mut Ctx)
        requires
            old(self).wf(),
        ensures
            final(self).wf(),
            final(self)@ == state_update(old(self)@, old(ctx).dt),
            *final(ctx) == *old(ctx),
    {
        match self {
            State::Menu(m) => m.update(ctx),
            State::Life(l) => l.update(ctx),
        }
    }

    /// Draw the current screen into the frame.
    pub fn draw(&self, frame: &mut Frame)
        requires
            self.wf(),
        ensures
            fview(*final(frame)) == state_frame(self@, fview(*old(frame))),
    {
        match self {
            State::Menu(m) => m.draw(frame),
            State::Life(l) => l.draw(frame),
        }
    }

    /// The freshly constructed screen a pending transition announces, if
    /// one is pending.
    pub fn next(&self) -> (r: Option<State>)
        requires
            self.wf(),
        ensures
            r is Some <==> state_next(self@) != self@,
            r matches Some(s2) ==> s2.wf() && s2@ == state_next(self@),
    {
        match self {
            State::Menu(m) => match m.next() {
                Some(l) => Some(State::Life(l)),
                None => None,
            },
            State::Life(_) => None,
        }
    }
}

/// What routing the pending events leaves behind: the screen after the keys
/// it saw, the terminal dimensions after the resizes, whether a resize
/// forced a full redraw, and whether an exit key ended the loop.
pub ghost struct RouteOut {
    pub s: StateView,
    pub cols: u16,
    pub rows: u16,
    pub force: bool,
    pub exit: bool,
}

/// Route the pending events in order: keys go to the screen, except the
/// exit keys, which end the tick at once, the later events unread; resizes
/// update the dimensions and force a full redraw.
pub open spec fn route_events(
    s: StateView,
    cols: u16,
    rows: u16,
    force: bool,
    events: Seq<Event>,
) -> RouteOut
    decreases events.len(),
{
    if events.len() == 0 {
        RouteOut { s, cols, rows, force, exit: false }
    } else {
        match events[0] {
            Event::Key(k) => if is_exit_key(k) {
                RouteOut { s, cols, rows, force, exit: true }
            } else {
                route_events(state_input(s, k), cols, rows, force, events.drop_first())
            },
            Event::Resize(x, y) => route_events(s, x, y, true, events.drop_first()),
        }
    }
}

/// Drawing the current screen never changes a frame's shape, so a frame
/// allocated at the context's dimensions is submitted at those dimensions.
pub proof fn lemma_state_frame_dims(s: StateView, f: Seq<Seq<Cell>>, cols: int, rows: int)
    requires
        grid_dims(f, cols, rows),
    ensures
        grid_dims(state_frame(s, f), cols, rows),
{
    match s {
        StateView::Menu(m) => crate::menu::lemma_menu_frame_dims(m, f, cols, rows),
        StateView::Life(v) => crate::life::lemma_life_frame_dims(v, f, cols, rows),
    }
}

/// One engine tick. The pending events are routed; when an exit key is
/// among them the tick returns nothing and the loop ends. Otherwise the
/// screen advances by the elapsed time, draws itself into a fresh frame of
/// the current dimensions, and a pending transition replaces the screen.
/// The caller submits the returned frame, with its force flag, to the
/// render worker.
pub fn tick(state: &mut State, ctx: &mut Ctx, events: &Vec<Event>) -> (out: Option<(Frame, bool)>)
    requires
        old(state).wf(),
    ensures
        final(state).wf(),
        final(ctx).dt == old(ctx).dt,
        final(ctx).rng == old(ctx).rng,
        ({
            let r = route_events(old(state)@, old(ctx).cols, old(ctx).rows, false, events@);
            &&& final(ctx).cols == r.cols
            &&& final(ctx).rows == r.rows
            &&& r.exit ==> out is None && final(state)@ == r.s
            &&& !r.exit ==> {
                let s1 = state_update(r.s, old(ctx).dt);
                &&& out matches Some(p) && p.1 == r.force && fview(p.0) == state_frame(
                    s1,
                    blank_frame(r.cols as nat, r.rows as nat),
                ) && grid_dims(fview(p.0), r.cols as int, r.rows as int)
                &&& final(state)@ == state_next(s1)
            }
        }),
{
    let ghost r = route_events(old(state)@, old(ctx).cols, old(ctx).rows, false, events@);
    let mut force = false;
    let mut exit = false;
    let mut i: usize = 0;
    proof {
        assert(events@.skip(0) =~= events@);
    }
    while i < events.len() && !exit
        invariant
            i <= events@.len(),
            state.wf(),
            ctx.dt == old(ctx).dt,
            ctx.rng == old(ctx).rng,
            !exit ==> r == route_events(state@, ctx.cols, ctx.rows, force, events@.skip(i as int)),
            exit ==> r == (RouteOut {
                s: state@,
                cols: ctx.cols,
                rows: ctx.rows,
                force,
                exit: true,
            }),
        decreases events@.len() - i,
    {
        proof {
            assert(events@.skip(i as int)[0] == events@[i as int]);
            assert(events@.skip(i as int).drop_first() =~= events@.skip(i as int + 1));
        }
        match events[i] {
            Event::Key(k) => {
                if k == KeyCode::Esc || k == KeyCode::Char('q') {
                    exit = true;
                } else {
                    state.input_handle(k);
                }
            },
            Event::Resize(x, y) => {
                ctx.cols = x;
                ctx.rows = y;
                force = true;
            },
        }
        i = i + 1;
    }
    if exit {
        return None;
    }
    proof {
        assert(events@.skip(events@.len() as int) =~= Seq::<Event>::empty());
    }
    state.update(ctx);
    let mut frame = new_frame(ctx);
    proof {
        lemma_state_frame_dims(
            state@,
            fview(frame),
            ctx.cols as int,
            ctx.rows as int,
        );
    }
    state.draw(&mut frame);
    let out = Some((frame, force));
    match state.next() {
        Some(n) => {
            *state = n;
        },
        None => {},
    }
    out
}

} // verus!

