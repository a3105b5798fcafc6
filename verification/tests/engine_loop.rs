use command_life::engine::Ctx;
use command_life::engine::Event;
use command_life::engine::KeyCode;
use command_life::engine::State;
use command_life::engine::tick;
use command_life::menu::CursorPosition;
use command_life::menu::Menu;
use command_life::render::Color;
use command_life::rng::Rng;

fn test_ctx(cols: u16, rows: u16) -> Ctx {
    Ctx { cols, rows, dt: 0, rng: Rng::from_seed(3) }
}

#[test]
fn exit_key_ends_the_tick_without_a_frame() {
    let mut ctx = test_ctx(30, 10);
    let mut state = State::Menu(Menu::new(&mut ctx));
    let events = vec![Event::Key(KeyCode::Down), Event::Key(KeyCode::Esc)];
    let out = tick(&mut state, &mut ctx, &events);
    assert!(out.is_none());
    // The key before the exit key was still routed.
    match &state {
        State::Menu(m) => assert_eq!(m.cursor_position, CursorPosition::Rows),
        State::Life(_) => panic!("the menu must still be current"),
    }
}

#[test]
fn quit_character_ends_the_tick_too() {
    let mut ctx = test_ctx(30, 10);
    let mut state = State::Menu(Menu::new(&mut ctx));
    let events = vec![Event::Key(KeyCode::Char('q'))];
    assert!(tick(&mut state, &mut ctx, &events).is_none());
}

#[test]
fn a_plain_tick_returns_an_unforced_frame_of_the_context_size() {
    let mut ctx = test_ctx(30, 10);
    let mut state = State::Menu(Menu::new(&mut ctx));
    let events = Vec::new();
    let (frame, force) = tick(&mut state, &mut ctx, &events).expect("no exit key was sent");
    assert!(!force);
    assert_eq!(frame.len(), 30);
    assert_eq!(frame[0].len(), 10);
    // The menu drew itself into the frame.
    assert_eq!(frame[3][2].char, 'W');
}

#[test]
fn resize_updates_the_context_and_forces_a_redraw() {
    let mut ctx = test_ctx(30, 10);
    let mut state = State::Menu(Menu::new(&mut ctx));
    let events = vec![Event::Resize(44, 13)];
    let (frame, force) = tick(&mut state, &mut ctx, &events).expect("no exit key was sent");
    assert!(force);
    assert_eq!(ctx.cols, 44);
    assert_eq!(ctx.rows, 13);
    assert_eq!(frame.len(), 44);
    assert_eq!(frame[0].len(), 13);
}

#[test]
fn confirming_play_swaps_the_screen_at_the_tick_boundary() {
    let mut ctx = test_ctx(30, 12);
    let mut state = State::Menu(Menu::new(&mut ctx));
    let events = vec![Event::Key(KeyCode::Up), Event::Key(KeyCode::Enter)];
    let (frame, _) = tick(&mut state, &mut ctx, &events).expect("no exit key was sent");
    // The frame of this tick still shows the menu; the new screen takes
    // over from the next tick on.
    assert_eq!(frame[3][2].char, 'W');
    match &state {
        State::Life(_) => {},
        State::Menu(_) => panic!("the confirmed menu must have become the simulation"),
    }
    let (frame2, _) = tick(&mut state, &mut ctx, &Vec::new()).expect("no exit key was sent");
    assert_eq!(frame2[1][1].background_color, Color::DarkGrey);
    assert_eq!(frame2[3][3].char, 'P');
}

#[test]
fn the_simulation_advances_across_ticks() {
    let mut ctx = test_ctx(30, 12);
    let mut state = State::Menu(Menu::new(&mut ctx));
    tick(&mut state, &mut ctx, &vec![Event::Key(KeyCode::Up), Event::Key(KeyCode::Enter)])
        .expect("no exit key was sent");
    match &mut state {
        State::Life(l) => {
            l.set_cell(4, 3, true);
            l.set_cell(4, 4, true);
            l.set_cell(4, 5, true);
        },
        State::Menu(_) => panic!("the simulation must be current"),
    }
    // Unpause, then let half a second elapse.
    tick(&mut state, &mut ctx, &vec![Event::Key(KeyCode::Char(' '))]).expect("no exit");
    ctx.dt = 500;
    tick(&mut state, &mut ctx, &Vec::new()).expect("no exit");
    match &state {
        State::Life(l) => {
            assert!(l.is_alive(3, 4));
            assert!(l.is_alive(4, 4));
            assert!(l.is_alive(5, 4));
            assert!(!l.is_alive(4, 3));
        },
        State::Menu(_) => panic!("the simulation must be current"),
    }
}
