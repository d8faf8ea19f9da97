//! Turning, moving and colliding: the deterministic rules of a tick.

use crate::field::{Bounds, Cell, Field};
use crate::state::PlayerEvent;
use vstd::prelude::*;

verus! {

/// The step that a movement input asks for; `None` for every other input.
pub open spec fn turn_of(event: PlayerEvent) -> Option<(i16, i16)> {
    match event {
        PlayerEvent::Up => Some((0i16, -1i16)),
        PlayerEvent::Down => Some((0i16, 1i16)),
        PlayerEvent::Left => Some((-1i16, 0i16)),
        PlayerEvent::Right => Some((1i16, 0i16)),
        _ => None,
    }
}

/// Whether `step` is a heading: rest, or one cell along one axis.
pub open spec fn is_heading(step: (i16, i16)) -> bool {
    ||| step == (0i16, 0i16)
    ||| step == (0i16, -1i16)
    ||| step == (0i16, 1i16)
    ||| step == (-1i16, 0i16)
    ||| step == (1i16, 0i16)
}

/// Whether step `b` is the exact reverse of step `a`.
pub open spec fn reverses(a: (i16, i16), b: (i16, i16)) -> bool {
    a.0 + b.0 == 0 && a.1 + b.1 == 0
}

/// The heading after `event`: the step the input asks for, unless the input
/// asks for none or for a turn straight back, in which case `prev` stays.
pub open spec fn resolved_heading(event: PlayerEvent, prev: (i16, i16)) -> (i16, i16) {
    match turn_of(event) {
        Some(step) => if reverses(prev, step) {
            prev
        } else {
            step
        },
        None => prev,
    }
}

/// One coordinate moved by `d`. A result below zero is clamped to zero; so is
/// one past the largest coordinate. Zero lies outside every field, so either
/// way the move is seen as leaving the grid.
pub open spec fn shifted(c: u16, d: i16) -> u16 {
    let target = c + d;
    if 0 <= target <= u16::MAX {
        target as u16
    } else {
        0
    }
}

/// The snake after one move by `step`: a new head in front, the tail dropped.
/// An empty snake moves as if it were a single cell at the origin.
pub open spec fn advanced(snake: Seq<Cell>, step: (i16, i16)) -> Seq<Cell> {
    let body = if snake.len() == 0 {
        seq![(0u16, 0u16)]
    } else {
        snake
    };
    seq![(shifted(body[0].0, step.0), shifted(body[0].1, step.1))] + body.drop_last()
}

/// The head lies on a cell of the rest of the body.
pub open spec fn bites_itself(snake: Seq<Cell>) -> bool {
    exists|i: int| 1 <= i < snake.len() && #[trigger] snake[i] == snake[0]
}

/// The snake has hit a wall or itself. An empty snake hits nothing.
pub open spec fn crashed(snake: Seq<Cell>, bounds: Bounds) -> bool {
    snake.len() > 0 && (!bounds.contains(snake[0]) || bites_itself(snake))
}

/// Resolves the heading for this tick from the player's input and the heading
/// of the previous tick.
pub fn find_direction(event: &PlayerEvent, prev: (i16, i16)) -> (heading: (i16, i16))
    ensures
        heading == resolved_heading(*event, prev),
        // A turn straight back is refused.
        forall|step: (i16, i16)|
            turn_of(*event) == Some(step) && reverses(prev, step) ==> heading == prev,
        // An input that asks for no turn changes nothing.
        turn_of(*event) is None ==> heading == prev,
        // A heading stays a heading.
        is_heading(prev) ==> is_heading(heading),
{
    let delta: (i16, i16) = match event {
        PlayerEvent::Up => (0, -1),
        PlayerEvent::Down => (0, 1),
        PlayerEvent::Left => (-1, 0),
        PlayerEvent::Right => (1, 0),
        _ => prev,
    };
    if prev.0 as i32 + delta.0 as i32 == 0 && prev.1 as i32 + delta.1 as i32 == 0 {
        prev
    } else {
        delta
    }
}

/// Moves one coordinate by `d`.
pub fn shift(c: u16, d: i16) -> (moved: u16)
    ensures
        moved == shifted(c, d),
{
    let target: i32 = c as i32 + d as i32;
    if target < 0 || target > 65535 {
        0
    } else {
        target as u16
    }
}

/// Moves the snake by `(dx, dy)`.
pub fn locomote(snake: &mut Vec<Cell>, dx: i16, dy: i16)
    ensures
        final(snake)@ == advanced(old(snake)@, (dx, dy)),
        final(snake)@.len() == if old(snake)@.len() == 0 {
            1
        } else {
            old(snake)@.len()
        },
{
    if snake.is_empty() {
        snake.push((0, 0));
    }
    let (x, y) = snake[0];
    let last: usize = snake.len() - 1;
    snake.remove(last);
    snake.insert(0, (shift(x, dx), shift(y, dy)));
    assert(snake@ =~= advanced(old(snake)@, (dx, dy)));
}

/// Checks whether the snake has collided with a wall or with itself.
pub fn collided(snake: &[Cell], field: &Field) -> (hit: bool)
    ensures
        hit == crashed(snake@, field@),
        // A head outside the field is a collision.
        snake@.len() > 0 && !field@.contains(snake@[0]) ==> hit,
        // A head on another cell of the body is a collision.
        bites_itself(snake@) ==> hit,
        snake@.len() == 0 ==> !hit,
{
    if snake.len() == 0 {
        return false;
    }
    let head: Cell = snake[0];
    if !field.contains(head) {
        return true;
    }
    let mut i: usize = 1;
    while i < snake.len()
        invariant
            1 <= i,
            snake@.len() > 0,
            head == snake@[0],
            forall|j: int| 1 <= j < i && j < snake@.len() ==> snake@[j] != head,
        decreases snake@.len() - i,
    {
        if snake[i].0 == head.0 && snake[i].1 == head.1 {
            return true;
        }
        i += 1;
    }
    false
}

} // verus!
