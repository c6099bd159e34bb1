//! The simulation: input resolution, movement, collision, growth and reset.
use crate::grid::{lemma_move_in_bounds, Direction, Position};
use vstd::prelude::*;

verus! {

/// Milliseconds that must pass between two movement ticks.
pub const CADENCE_MS: u64 = 50;

/// What the player pressed during one frame.
#[derive(Clone, Copy, Debug, PartialEq, Eq, Structural)]
pub enum Input {
    Up,
    Down,
    Left,
    Right,
    Quit,
    Restart,
    Nothing,
}

/// The heading that an input asks for, if it is a directional one.
pub open spec fn requested(input: Input) -> Option<Direction> {
    match input {
        Input::Up => Some(Direction::Up),
        Input::Down => Some(Direction::Down),
        Input::Left => Some(Direction::Left),
        Input::Right => Some(Direction::Right),
        _ => None,
    }
}

/// The head's heading after `input`, for a trail of `len` segments whose head
/// heads `current`: a one-segment trail takes any heading, a longer one refuses
/// to reverse.
pub open spec fn resolved(len: nat, current: Direction, input: Input) -> Direction {
    match requested(input) {
        Some(d) => if len > 1 && d == current.reverse() {
            current
        } else {
            d
        },
        None => current,
    }
}

/// A piece of the trail: where it is and where it was last heading.
#[derive(Clone, Copy, Debug, PartialEq, Eq, Structural)]
pub struct Segment {
    pub position: Position,
    pub direction: Direction,
}

/// Every segment moved one step along its own heading.
pub open spec fn moved_trail(t: Seq<Segment>) -> Seq<Segment> {
    t.map_values(|s: Segment| Segment { position: s.position.moved(s.direction), direction: s.direction })
}

/// Some segment behind the head stands on the head's cell.
pub open spec fn collides(t: Seq<Segment>) -> bool {
    exists|i: int| 1 <= i < t.len() && #[trigger] t[i].position == t[0].position
}

/// The trail with one more segment behind its tail, heading as the tail does.
pub open spec fn grown(t: Seq<Segment>) -> Seq<Segment> {
    t.push(Segment { position: t.last().position.behind(t.last().direction), direction: t.last().direction })
}

/// Each segment but the head takes the heading that the one ahead of it had.
pub open spec fn propagated(t: Seq<Segment>) -> Seq<Segment> {
    Seq::new(
        t.len(),
        |i: int|
            if i == 0 {
                t[0]
            } else {
                Segment { position: t[i].position, direction: t[i - 1].direction }
            },
    )
}

pub fn move_all(t: &Vec<Segment>) -> (r: Vec<Segment>)
    ensures
        r@ == moved_trail(t@),
{
    let mut r: Vec<Segment> = Vec::new();
    let mut i: usize = 0;
    while i < t.len()
        invariant
            i <= t.len(),
            r@ == moved_trail(t@).take(i as int),
        decreases t.len() - i,
    {
        let s = t[i];
        r.push(Segment { position: s.position.move_saturating(s.direction), direction: s.direction });
        proof {
            assert(moved_trail(t@).take(i as int + 1) =~= moved_trail(t@).take(i as int).push(
                moved_trail(t@)[i as int],
            ));
        }
        i = i + 1;
    }
    assert(moved_trail(t@).take(t.len() as int) =~= moved_trail(t@));
    r
}

pub fn head_collides(t: &Vec<Segment>) -> (r: bool)
    requires
        t.len() >= 1,
    ensures
        r == collides(t@),
{
    let head = t[0].position;
    let mut i: usize = 1;
    while i < t.len()
        invariant
            1 <= i <= t.len(),
            head == t@[0].position,
            forall|j: int| 1 <= j < i ==> t@[j].position != head,
        decreases t.len() - i,
    {
        if t[i].position == head {
            return true;
        }
        i = i + 1;
    }
    false
}

pub fn grow(t: &mut Vec<Segment>)
    requires
        old(t).len() >= 1,
        old(t).len() < usize::MAX,
    ensures
        final(t)@ == grown(old(t)@),
{
    let last = t[t.len() - 1];
    t.push(Segment { position: last.position.step_back(last.direction), direction: last.direction });
}

pub fn propagate(t: &Vec<Segment>) -> (r: Vec<Segment>)
    ensures
        r@ == propagated(t@),
{
    let mut r: Vec<Segment> = Vec::new();
    let mut i: usize = 0;
    while i < t.len()
        invariant
            i <= t.len(),
            r@ == propagated(t@).take(i as int),
        decreases t.len() - i,
    {
        if i == 0 {
            r.push(t[0]);
        } else {
            r.push(Segment { position: t[i].position, direction: t[i - 1].direction });
        }
        proof {
            assert(propagated(t@).take(i as int + 1) =~= propagated(t@).take(i as int).push(
                propagated(t@)[i as int],
            ));
        }
        i = i + 1;
    }
    assert(propagated(t@).take(t.len() as int) =~= propagated(t@));
    r
}


pub fn resolve(len: usize, current: Direction, input: Input) -> (r: Direction)
    ensures
        r == resolved(len as nat, current, input),
{
    let d = match input {
        Input::Up => Direction::Up,
        Input::Down => Direction::Down,
        Input::Left => Direction::Left,
        Input::Right => Direction::Right,
        _ => {
            return current;
        },
    };
    if len > 1 && d == current.opposite() {
        current
    } else {
        d
    }
}

/// The cell where a new game's trail starts.
pub open spec fn start_position() -> Position {
    Position { x: 30, y: 25 }
}

/// What a frame asks of the driver besides drawing the state.
#[derive(Clone, Copy, Debug, PartialEq, Eq, Structural)]
pub struct Outcome {
    /// The player asked to end the program.
    pub quit: bool,
    /// A new game began: the screen is to be cleared.
    pub cleared: bool,
    /// The trail moved one tick.
    pub moved: bool,
}

/// The mathematical state of a game.
pub struct ControlView {
    pub trail: Seq<Segment>,
    pub target: Position,
    pub game_over: bool,
    pub last_step: u64,
}

impl ControlView {
    pub open spec fn wf(self) -> bool {
        &&& self.trail.len() >= 1
        &&& forall|i: int| 0 <= i < self.trail.len() ==> (#[trigger] self.trail[i]).position.in_bounds()
        &&& self.target.in_bounds()
    }

    /// A new game whose target is `target`, begun at time `now`.
    pub open spec fn fresh(target: Position, now: u64) -> ControlView {
        ControlView {
            trail: seq![Segment { position: start_position(), direction: Direction::Idle }],
            target,
            game_over: false,
            last_step: now,
        }
    }

    /// The state after a reset that drew `target`: a new game begun at time 0,
    /// whatever came before.
    pub open spec fn after_reset(self, target: Position) -> ControlView {
        ControlView::fresh(target, 0)
    }

    /// At least the cadence has passed since the last tick.
    pub open spec fn gate_open(self, now: u64) -> bool {
        now as int >= self.last_step as int + CADENCE_MS as int
    }

    /// The head turned as `input` asks, where the rules allow it.
    pub open spec fn steered(self, input: Input) -> ControlView {
        ControlView {
            trail: self.trail.update(
                0,
                Segment {
                    position: self.trail[0].position,
                    direction: resolved(self.trail.len(), self.trail[0].direction, input),
                },
            ),
            ..self
        }
    }

    /// One movement tick at time `now`; `fresh` is the target drawn should the
    /// head reach the current one.
    pub open spec fn ticked(self, now: u64, fresh: Position) -> ControlView {
        let m = moved_trail(self.trail);
        if collides(m) {
            ControlView { trail: m, game_over: true, ..self }
        } else if m[0].position == self.target {
            ControlView { trail: propagated(grown(m)), target: fresh, last_step: now, ..self }
        } else {
            ControlView { trail: propagated(m), last_step: now, ..self }
        }
    }

    /// The state after one frame with `input` at time `now`.
    pub open spec fn advanced(self, input: Input, now: u64, fresh: Position) -> ControlView {
        if self.game_over {
            if input == Input::Restart {
                ControlView::fresh(fresh, now)
            } else {
                self
            }
        } else {
            let s = self.steered(input);
            if s.gate_open(now) {
                s.ticked(now, fresh)
            } else {
                s
            }
        }
    }

    /// What one frame with `input` at time `now` reports.
    pub open spec fn outcome(self, input: Input, now: u64) -> Outcome {
        Outcome {
            quit: input == Input::Quit,
            cleared: self.game_over && input == Input::Restart,
            moved: !self.game_over && self.gate_open(now),
        }
    }
}

/// A running game.
pub struct Control {
    game_over: bool,
    last_step: u64,
    trail: Vec<Segment>,
    target: Position,
}

impl View for Control {
    type V = ControlView;

    closed spec fn view(&self) -> ControlView {
        ControlView {
            trail: self.trail@,
            target: self.target,
            game_over: self.game_over,
            last_step: self.last_step,
        }
    }
}

proof fn lemma_ticked_wf(v: ControlView, now: u64, fresh: Position)
    requires
        v.wf(),
        fresh.in_bounds(),
    ensures
        v.ticked(now, fresh).wf(),
{
    let m = moved_trail(v.trail);
    assert forall|i: int| 0 <= i < m.len() implies (#[trigger] m[i]).position.in_bounds() by {
        lemma_move_in_bounds(v.trail[i].position, v.trail[i].direction);
    }
    let g = grown(m);
    lemma_move_in_bounds(m.last().position, m.last().direction.reverse());
    assert forall|i: int| 0 <= i < g.len() implies (#[trigger] g[i]).position.in_bounds() by {
        if i < m.len() {
            assert(g[i] == m[i]);
        }
    }
    let next_grown = propagated(g);
    assert forall|i: int| 0 <= i < next_grown.len() implies (#[trigger] next_grown[i]).position.in_bounds() by {
        assert(next_grown[i].position == g[i].position);
    }
    let next_plain = propagated(m);
    assert forall|i: int| 0 <= i < next_plain.len() implies (#[trigger] next_plain[i]).position.in_bounds() by {
        assert(next_plain[i].position == m[i].position);
    }
}

impl Control {
    /// A new game with the given target, begun at time `now`.
    pub fn start(target: Position, now: u64) -> (r: Control)
        requires
            target.in_bounds(),
        ensures
            r@ == ControlView::fresh(target, now),
            r@.wf(),
    {
        let r = Control {
            game_over: false,
            last_step: now,
            trail: vec![Segment { position: Position { x: 30, y: 25 }, direction: Direction::Idle }],
            target,
        };
        assert(r@.trail =~= ControlView::fresh(target, now).trail);
        r
    }

    /// A new game with a target drawn at random, for a clock that reads 0 now.
    pub fn new() -> (r: Control)
        ensures
            r@ == ControlView::fresh(r@.target, 0),
            r@.wf(),
    {
        Control::start(Position::random(), 0)
    }

    /// Throws the current game away and starts a new one, as `new` does.
    pub fn reset(&mut self)
        ensures
            final(self)@ == old(self)@.after_reset(final(self)@.target),
            final(self)@.wf(),
    {
        *self = Control::new();
    }

    /// Moves the target to `p`.
    pub fn place_target(&mut self, p: Position)
        requires
            old(self)@.wf(),
            p.in_bounds(),
        ensures
            final(self)@ == (ControlView { target: p, ..old(self)@ }),
            final(self)@.wf(),
    {
        self.target = p;
    }

    /// One frame: `input` is what the player pressed, `now` the time in
    /// milliseconds, and `fresh` the target to use should a new one be needed.
    pub fn advance(&mut self, input: Input, now: u64, fresh: Position) -> (r: Outcome)
        requires
            old(self)@.wf(),
            old(self)@.trail.len() < usize::MAX,
            fresh.in_bounds(),
        ensures
            final(self)@ == old(self)@.advanced(input, now, fresh),
            final(self)@.wf(),
            r == old(self)@.outcome(input, now),
            r.quit == (input == Input::Quit),
    {
        let quit = input == Input::Quit;
        if self.game_over {
            if input == Input::Restart {
                *self = Control::start(fresh, now);
                return Outcome { quit, cleared: true, moved: false };
            }
            return Outcome { quit, cleared: false, moved: false };
        }
        let head = self.trail[0];
        let d = resolve(self.trail.len(), head.direction, input);
        self.trail.set(0, Segment { position: head.position, direction: d });
        proof {
            let s = old(self)@.steered(input);
            assert(self@.trail =~= s.trail);
            assert forall|i: int| 0 <= i < s.trail.len() implies (#[trigger] s.trail[i]).position.in_bounds() by {
                assert(s.trail[i].position == old(self)@.trail[i].position);
            }
        }
        let gate = self.last_step <= now && now - self.last_step >= CADENCE_MS;
        if !gate {
            return Outcome { quit, cleared: false, moved: false };
        }
        proof {
            lemma_ticked_wf(self@, now, fresh);
        }
        let mut m = move_all(&self.trail);
        if head_collides(&m) {
            self.trail = m;
            self.game_over = true;
            return Outcome { quit, cleared: false, moved: true };
        }
        if m[0].position == self.target {
            grow(&mut m);
            self.target = fresh;
        }
        self.trail = propagate(&m);
        self.last_step = now;
        Outcome { quit, cleared: false, moved: true }
    }

    /// One frame at time `now` (milliseconds) with `input`; a target that is
    /// needed is drawn at random.
    pub fn step(&mut self, input: Input, now: u64) -> (r: Outcome)
        requires
            old(self)@.wf(),
            old(self)@.trail.len() < usize::MAX,
        ensures
            exists|t: Position| #[trigger] t.in_bounds() && final(self)@ == old(self)@.advanced(input, now, t),
            final(self)@.wf(),
            r == old(self)@.outcome(input, now),
            r.quit == (input == Input::Quit),
    {
        let fresh = Position::random();
        self.advance(input, now, fresh)
    }

    /// The trail, head first.
    pub fn segments(&self) -> (r: Vec<Segment>)
        ensures
            r@ == self@.trail,
    {
        self.trail.clone()
    }

    pub fn target(&self) -> (r: Position)
        ensures
            r == self@.target,
    {
        self.target
    }

    /// The score is the length of the trail.
    pub fn score(&self) -> (r: usize)
        ensures
            r == self@.trail.len(),
    {
        self.trail.len()
    }

    pub fn is_game_over(&self) -> (r: bool)
        ensures
            r == self@.game_over,
    {
        self.game_over
    }
}

} // verus!
