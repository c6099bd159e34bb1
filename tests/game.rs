use rusty_snake::engine::{resolve, Control, Input, Segment};
use rusty_snake::grid::{Direction, Position, HEIGHT, WIDTH};

fn pos(x: u8, y: u8) -> Position {
    Position { x, y }
}

#[test]
fn single_segment_takes_every_direction() {
    let inputs = [
        (Input::Up, Direction::Up),
        (Input::Down, Direction::Down),
        (Input::Left, Direction::Left),
        (Input::Right, Direction::Right),
    ];
    let currents = [Direction::Up, Direction::Down, Direction::Left, Direction::Right, Direction::Idle];
    for (input, want) in inputs {
        for cur in currents {
            assert_eq!(resolve(1, cur, input), want);
        }
    }
}

#[test]
fn longer_trail_refuses_reversal() {
    assert_eq!(resolve(2, Direction::Up, Input::Down), Direction::Up);
    assert_eq!(resolve(2, Direction::Down, Input::Up), Direction::Down);
    assert_eq!(resolve(3, Direction::Left, Input::Right), Direction::Left);
    assert_eq!(resolve(3, Direction::Right, Input::Left), Direction::Right);
    assert_eq!(resolve(2, Direction::Up, Input::Left), Direction::Left);
    assert_eq!(resolve(2, Direction::Right, Input::Up), Direction::Up);
    assert_eq!(resolve(2, Direction::Idle, Input::Down), Direction::Down);
}

#[test]
fn other_inputs_keep_heading() {
    for input in [Input::Quit, Input::Restart, Input::Nothing] {
        assert_eq!(resolve(1, Direction::Left, input), Direction::Left);
        assert_eq!(resolve(4, Direction::Up, input), Direction::Up);
    }
}

#[test]
fn moves_saturate_at_borders() {
    assert_eq!(pos(0, 0).move_saturating(Direction::Up), pos(0, 0));
    assert_eq!(pos(0, 0).move_saturating(Direction::Left), pos(0, 0));
    assert_eq!(pos(WIDTH - 1, HEIGHT - 1).move_saturating(Direction::Right), pos(79, 49));
    assert_eq!(pos(WIDTH - 1, HEIGHT - 1).move_saturating(Direction::Down), pos(79, 49));
    assert_eq!(pos(5, 5).move_saturating(Direction::Up), pos(5, 4));
    assert_eq!(pos(5, 5).move_saturating(Direction::Down), pos(5, 6));
    assert_eq!(pos(5, 5).move_saturating(Direction::Left), pos(4, 5));
    assert_eq!(pos(5, 5).move_saturating(Direction::Right), pos(6, 5));
    assert_eq!(pos(5, 5).move_saturating(Direction::Idle), pos(5, 5));
}

#[test]
fn step_back_is_the_reverse_move() {
    assert_eq!(pos(5, 5).step_back(Direction::Up), pos(5, 6));
    assert_eq!(pos(5, 5).step_back(Direction::Down), pos(5, 4));
    assert_eq!(pos(5, 5).step_back(Direction::Left), pos(6, 5));
    assert_eq!(pos(5, 5).step_back(Direction::Right), pos(4, 5));
    assert_eq!(pos(0, 49).step_back(Direction::Up), pos(0, 49));
    assert_eq!(pos(0, 0).step_back(Direction::Right), pos(0, 0));
}

#[test]
fn random_positions_stay_on_grid() {
    for _ in 0..1000 {
        let p = Position::random();
        assert!(p.x < WIDTH && p.y < HEIGHT);
    }
}

#[test]
fn new_game_starts_at_start_cell() {
    let c = Control::new();
    assert_eq!(c.segments(), vec![Segment { position: pos(30, 25), direction: Direction::Idle }]);
    assert_eq!(c.score(), 1);
    assert!(!c.is_game_over());
    let t = c.target();
    assert!(t.x < WIDTH && t.y < HEIGHT);
}

#[test]
fn end_to_end_growth() {
    let mut c = Control::start(pos(10, 10), 0);
    let o = c.advance(Input::Right, 100, pos(0, 0));
    assert!(o.moved && !o.quit && !o.cleared);
    assert_eq!(c.segments(), vec![Segment { position: pos(31, 25), direction: Direction::Right }]);
    assert!(!c.is_game_over());
    assert_eq!(c.score(), 1);

    c.place_target(pos(32, 25));
    c.advance(Input::Right, 200, pos(3, 4));
    assert_eq!(c.score(), 2);
    assert_eq!(
        c.segments(),
        vec![
            Segment { position: pos(32, 25), direction: Direction::Right },
            Segment { position: pos(31, 25), direction: Direction::Right },
        ]
    );
    assert_eq!(c.target(), pos(3, 4));
    assert!(!c.is_game_over());
}

#[test]
fn growth_goes_behind_the_tail() {
    let mut c = Control::start(pos(30, 24), 0);
    c.advance(Input::Up, 100, pos(40, 40));
    assert_eq!(
        c.segments(),
        vec![
            Segment { position: pos(30, 24), direction: Direction::Up },
            Segment { position: pos(30, 25), direction: Direction::Up },
        ]
    );
    assert_eq!(c.target(), pos(40, 40));
}

#[test]
fn directions_follow_the_leader() {
    let mut c = Control::start(pos(31, 25), 0);
    c.advance(Input::Right, 100, pos(0, 0));
    assert_eq!(c.score(), 2);
    c.advance(Input::Down, 200, pos(0, 0));
    assert_eq!(
        c.segments(),
        vec![
            Segment { position: pos(31, 26), direction: Direction::Down },
            Segment { position: pos(31, 25), direction: Direction::Down },
        ]
    );
    c.advance(Input::Nothing, 300, pos(0, 0));
    assert_eq!(
        c.segments(),
        vec![
            Segment { position: pos(31, 27), direction: Direction::Down },
            Segment { position: pos(31, 26), direction: Direction::Down },
        ]
    );
}

#[test]
fn reversal_refused_during_play() {
    let mut c = Control::start(pos(31, 25), 0);
    c.advance(Input::Right, 100, pos(0, 0));
    c.advance(Input::Left, 200, pos(0, 0));
    assert_eq!(c.segments()[0], Segment { position: pos(32, 25), direction: Direction::Right });
}

#[test]
fn sequential_up_then_down_on_single_segment() {
    let mut c = Control::start(pos(0, 0), 0);
    c.advance(Input::Up, 100, pos(0, 0));
    assert_eq!(c.segments()[0], Segment { position: pos(30, 24), direction: Direction::Up });
    c.advance(Input::Down, 200, pos(0, 0));
    assert_eq!(c.segments()[0], Segment { position: pos(30, 25), direction: Direction::Down });
}

#[test]
fn cadence_gate_holds_positions() {
    let mut c = Control::start(pos(0, 0), 0);
    let o = c.advance(Input::Right, 100, pos(0, 0));
    assert!(o.moved);
    let o = c.advance(Input::Up, 130, pos(0, 0));
    assert!(!o.moved);
    assert_eq!(c.segments(), vec![Segment { position: pos(31, 25), direction: Direction::Up }]);
    let o = c.advance(Input::Nothing, 150, pos(0, 0));
    assert!(o.moved);
    assert_eq!(c.segments()[0].position, pos(31, 24));
}

#[test]
fn single_segment_never_collides() {
    let mut solo = Control::start(pos(0, 0), 0);
    for k in 1..5u64 {
        solo.advance(Input::Left, k * 100, pos(0, 0));
        solo.advance(Input::Right, k * 100 + 50, pos(0, 0));
    }
    assert!(!solo.is_game_over());
    assert_eq!(solo.segments(), vec![Segment { position: pos(30, 25), direction: Direction::Right }]);
}

#[test]
fn head_on_body_is_game_over() {
    // Head at the left border, heading left, with a segment behind it clamped
    // onto the same column: the head stays put while that segment catches up.
    let mut c = Control::start(pos(29, 25), 0);
    c.advance(Input::Left, 100, pos(0, 0));
    assert_eq!(c.score(), 2);
    let mut now: u64 = 100;
    while !c.is_game_over() && now < 100_000 {
        now += 100;
        c.advance(Input::Nothing, now, pos(0, 0));
    }
    assert!(c.is_game_over());
    let frozen = c.segments();
    let o = c.advance(Input::Up, now + 100, pos(0, 0));
    assert!(!o.moved);
    assert_eq!(c.segments(), frozen);
    assert!(c.is_game_over());
    let o = c.advance(Input::Restart, now + 200, pos(7, 8));
    assert!(o.cleared);
    assert!(!c.is_game_over());
    assert_eq!(c.segments(), vec![Segment { position: pos(30, 25), direction: Direction::Idle }]);
    assert_eq!(c.target(), pos(7, 8));
    // The new game counts its cadence from the restart.
    let o = c.advance(Input::Right, now + 249, pos(7, 8));
    assert!(!o.moved);
    assert_eq!(c.segments(), vec![Segment { position: pos(30, 25), direction: Direction::Right }]);
    let o = c.advance(Input::Nothing, now + 250, pos(7, 8));
    assert!(o.moved);
    assert_eq!(c.segments(), vec![Segment { position: pos(31, 25), direction: Direction::Right }]);
}

#[test]
fn start_waits_for_cadence_from_its_time() {
    let mut c = Control::start(pos(0, 0), 1000);
    assert!(!c.advance(Input::Left, 1049, pos(0, 0)).moved);
    assert_eq!(c.segments()[0].position, pos(30, 25));
    assert!(c.advance(Input::Nothing, 1050, pos(0, 0)).moved);
    assert_eq!(c.segments()[0].position, pos(29, 25));
}

#[test]
fn reset_twice_equals_once() {
    let mut c = Control::start(pos(29, 25), 0);
    c.advance(Input::Left, 100, pos(0, 0));
    c.reset();
    c.reset();
    assert_eq!(c.segments(), vec![Segment { position: pos(30, 25), direction: Direction::Idle }]);
    assert!(!c.is_game_over());
    assert_eq!(c.score(), 1);
}

#[test]
fn quit_is_signalled_in_every_state() {
    let mut c = Control::start(pos(0, 0), 0);
    assert!(c.advance(Input::Quit, 10, pos(0, 0)).quit);
    assert!(!c.advance(Input::Nothing, 20, pos(0, 0)).quit);
    let mut g = Control::start(pos(29, 25), 0);
    g.advance(Input::Left, 100, pos(0, 0));
    let mut now: u64 = 100;
    while !g.is_game_over() && now < 100_000 {
        now += 100;
        g.step(Input::Nothing, now);
    }
    assert!(g.is_game_over());
    assert!(g.step(Input::Quit, now + 100).quit);
}
