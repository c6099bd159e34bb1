//! Properties of the simulation that hold across calls and inputs.
use crate::engine::{collides, moved_trail, requested, resolved, start_position, ControlView, Input, Segment};
use crate::grid::{Direction, Position};
use vstd::prelude::*;

verus! {

/// A one-segment trail that is still in play takes every directional input
/// as its new heading.
pub proof fn lemma_single_segment_always_turns(v: ControlView, input: Input, now: u64, fresh: Position, d: Direction)
    requires
        v.wf(),
        !v.game_over,
        v.trail.len() == 1,
        requested(input) == Some(d),
    ensures
        resolved(1, v.trail[0].direction, input) == d,
        v.advanced(input, now, fresh).trail[0].direction == d,
{
}

/// On a longer trail the head refuses to reverse, and takes every other
/// directional input.
pub proof fn lemma_no_reversal(v: ControlView, input: Input, now: u64, fresh: Position, d: Direction)
    requires
        v.wf(),
        !v.game_over,
        v.trail.len() > 1,
        requested(input) == Some(d),
    ensures
        d == v.trail[0].direction.reverse() ==> v.advanced(input, now, fresh).trail[0].direction
            == v.trail[0].direction,
        d != v.trail[0].direction.reverse() ==> v.advanced(input, now, fresh).trail[0].direction == d,
{
    let s = v.steered(input);
    assert(s.trail[0].direction == resolved(v.trail.len(), v.trail[0].direction, input));
    if s.gate_open(now) {
        let m = moved_trail(s.trail);
        assert(m[0].direction == s.trail[0].direction);
    }
}

/// When the head lands on another segment, the game is over with the trail
/// as it moved, its headings not passed on, and from then on no input but a
/// restart changes anything.
pub proof fn lemma_collision_ends_game(
    v: ControlView,
    input: Input,
    now: u64,
    fresh: Position,
    later: Input,
    later_now: u64,
    later_fresh: Position,
)
    requires
        v.wf(),
        !v.game_over,
        v.gate_open(now),
        collides(moved_trail(v.steered(input).trail)),
        later != Input::Restart,
    ensures
        v.advanced(input, now, fresh).game_over,
        v.advanced(input, now, fresh).trail == moved_trail(v.steered(input).trail),
        v.advanced(input, now, fresh).advanced(later, later_now, later_fresh) == v.advanced(
            input,
            now,
            fresh,
        ),
{
}

/// Reaching the target adds exactly one segment, so one point, and puts the
/// freshly drawn target in place.
pub proof fn lemma_growth(v: ControlView, input: Input, now: u64, fresh: Position)
    requires
        v.wf(),
        !v.game_over,
        v.gate_open(now),
        !collides(moved_trail(v.steered(input).trail)),
        moved_trail(v.steered(input).trail)[0].position == v.target,
    ensures
        v.advanced(input, now, fresh).trail.len() == v.trail.len() + 1,
        v.advanced(input, now, fresh).target == fresh,
        !v.advanced(input, now, fresh).game_over,
{
}

/// A restart after the game is over begins a new game at the restart's time.
pub proof fn lemma_restart_records_time(v: ControlView, now: u64, fresh: Position)
    requires
        v.wf(),
        v.game_over,
    ensures
        v.advanced(Input::Restart, now, fresh) == ControlView::fresh(fresh, now),
        v.advanced(Input::Restart, now, fresh).last_step == now,
        !v.advanced(Input::Restart, now, fresh).gate_open(now),
{
}

/// Resetting twice leaves the same new game as resetting once: one idle
/// segment at the start cell, in play.
pub proof fn lemma_reset_idempotent(v: ControlView, t1: Position, t2: Position)
    ensures
        v.after_reset(t1).after_reset(t2) == v.after_reset(t2),
        v.after_reset(t2).trail == seq![Segment { position: start_position(), direction: Direction::Idle }],
        !v.after_reset(t2).game_over,
{
}

/// Before the cadence has passed, a frame moves nothing, though the input is
/// still resolved.
pub proof fn lemma_cadence_gate(v: ControlView, input: Input, now: u64, fresh: Position)
    requires
        v.wf(),
        !v.game_over,
        !v.gate_open(now),
    ensures
        v.advanced(input, now, fresh) == v.steered(input),
        v.advanced(input, now, fresh).trail.len() == v.trail.len(),
        forall|i: int|
            0 <= i < v.trail.len() ==> (#[trigger] v.advanced(input, now, fresh).trail[i]).position
                == v.trail[i].position,
{
}

} // verus!
