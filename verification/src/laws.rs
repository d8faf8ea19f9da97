//! What holds of every tick, proved from the definition of a tick.

use crate::engine::{
    advance_of, draws_fit, first_place, is_first_at, lemma_first_place, tick_allows, tick_of,
    tick_ran, Advance, PlayError,
};
use crate::field::{Bounds, Cell};
use crate::motion::{bites_itself, crashed, is_heading, resolved_heading, reverses, turn_of};
use crate::random::settled;
use crate::state::{GameResult, PlayerEvent, Snapshot};
use vstd::prelude::*;

verus! {

impl Snapshot {
    /// The cell onto which the snake's head moves on `event`.
    pub open spec fn head_on(self, bounds: Bounds, event: PlayerEvent) -> Cell {
        self.moved_on(bounds, event).snake[0]
    }

    /// The food that a tick leaves in place: all of it, but for the item that
    /// the snake eats where the cell its tail leaves holds one.
    pub open spec fn food_left(self, bounds: Bounds) -> Seq<Cell> {
        if self.food.contains(self.vacated(bounds)) {
            self.food.remove(first_place(self.food, self.vacated(bounds)))
        } else {
            self.food
        }
    }

    /// No food item that the tick leaves in place lies under the snake or on the
    /// cell onto which its head moves.
    pub open spec fn path_clear(self, bounds: Bounds, event: PlayerEvent) -> bool {
        forall|c: Cell| #[trigger]
            self.food_left(bounds).contains(c) ==> !self.snake_in_play(bounds).contains(c) && c
                != self.head_on(bounds, event)
    }
}

/// A snake heading somewhere cannot turn straight back: an input that asks for
/// the reverse of the heading leaves the heading as it is.
pub proof fn lemma_no_reversal(event: PlayerEvent, prev: (i16, i16))
    requires
        prev != (0i16, 0i16),
        turn_of(event) matches Some(step) && step.0 == -prev.0 && step.1 == -prev.1,
    ensures
        resolved_heading(event, prev) == prev,
{
    assert(reverses(prev, turn_of(event)->0));
}

/// A heading stays a heading: from rest or from a step of one cell along one
/// axis, every input leads to rest or to such a step.
pub proof fn lemma_heading_stays_heading(event: PlayerEvent, prev: (i16, i16))
    requires
        is_heading(prev),
    ensures
        is_heading(resolved_heading(event, prev)),
{
}

/// A tick ends the game exactly when the snake, once moved, has its head outside
/// the field or on another cell of its body. Neither the food nor the draws
/// have a say in it.
pub proof fn lemma_game_over_iff_crashed(
    pre: Snapshot,
    bounds: Bounds,
    event: PlayerEvent,
    post: Snapshot,
    result: Result<GameResult, PlayError>,
)
    requires
        tick_allows(pre, bounds, event, post, result),
    ensures
        result == Ok::<GameResult, PlayError>(GameResult::GameOver) <==> crashed(
            pre.moved_on(bounds, event).snake,
            bounds,
        ),
        bites_itself(pre.moved_on(bounds, event).snake) ==> result == Ok::<
            GameResult,
            PlayError,
        >(GameResult::GameOver),
        !bounds.contains(pre.head_on(bounds, event)) ==> result == Ok::<GameResult, PlayError>(
            GameResult::GameOver,
        ),
{
    let (first, fresh) = choose|first: Cell, fresh: Option<Cell>|
        #[trigger] draws_fit(pre, bounds, event, first, fresh) && (post, result) == tick_of(
            pre,
            bounds,
            event,
            first,
            fresh,
        );
    assert(pre.stocked(first).moved_on(bounds, event).snake == pre.moved_on(bounds, event).snake);
}

/// The snake never shrinks. Over a tick it grows by one cell if it eats and not
/// at all if it does not, counted from the single cell it starts as where the
/// state held no snake. The score goes up by one exactly when the snake eats.
pub proof fn lemma_length_and_score(
    pre: Snapshot,
    bounds: Bounds,
    event: PlayerEvent,
    post: Snapshot,
    result: Result<GameResult, PlayError>,
)
    requires
        tick_allows(pre, bounds, event, post, result),
    ensures
        post.snake.len() >= pre.snake.len(),
        post.score == pre.score || post.score == pre.score + 1,
        post.snake.len() == pre.snake_in_play(bounds).len() + (post.score - pre.score),
        pre.snake.len() > 0 ==> post.snake.len() == pre.snake.len() + (post.score - pre.score),
{
    let (first, fresh) = choose|first: Cell, fresh: Option<Cell>|
        #[trigger] draws_fit(pre, bounds, event, first, fresh) && (post, result) == tick_of(
            pre,
            bounds,
            event,
            first,
            fresh,
        );
    let ready = pre.stocked(first);
    assert(ready.moved_on(bounds, event).snake.len() == pre.snake_in_play(bounds).len());
}

/// A state whose cells all lie in the field keeps them there over a tick, but
/// for the head of a snake that has just hit a wall: after a tick that does not
/// end the game every cell of the snake and every food item lies in the field,
/// and after any tick all food and all of the snake behind its head does.
pub proof fn lemma_bounds_kept(
    pre: Snapshot,
    bounds: Bounds,
    event: PlayerEvent,
    post: Snapshot,
    result: Result<GameResult, PlayError>,
)
    requires
        bounds.valid(),
        pre.within(bounds),
        tick_allows(pre, bounds, event, post, result),
    ensures
        bounds.encloses(post.food),
        forall|i: int| 1 <= i < post.snake.len() ==> bounds.contains(#[trigger] post.snake[i]),
        result != Ok::<GameResult, PlayError>(GameResult::GameOver) ==> post.within(bounds),
{
    let (first, fresh) = choose|first: Cell, fresh: Option<Cell>|
        #[trigger] draws_fit(pre, bounds, event, first, fresh) && (post, result) == tick_of(
            pre,
            bounds,
            event,
            first,
            fresh,
        );
    let ready = pre.stocked(first);
    let body = ready.snake_in_play(bounds);
    let moved = ready.moved_on(bounds, event);
    assert(bounds.encloses(body));
    assert(bounds.encloses(ready.food));
    assert forall|i: int| 1 <= i < moved.snake.len() implies bounds.contains(
        #[trigger] moved.snake[i],
    ) by {
        assert(moved.snake[i] == body[i - 1]);
    }
    let (mid, advance) = advance_of(ready, bounds, event);
    if advance == Advance::Fed {
        let place = first_place(ready.food, ready.vacated(bounds));
        assert(is_first_at(ready.food, ready.vacated(bounds), place)) by {
            let k = choose|k: int|
                0 <= k < ready.food.len() && ready.food[k] == ready.vacated(bounds);
            lemma_has_first(ready.food, ready.vacated(bounds), k);
        }
        assert forall|i: int| 0 <= i < mid.food.len() implies bounds.contains(
            #[trigger] mid.food[i],
        ) by {
            if i < place {
                assert(mid.food[i] == ready.food[i]);
            } else {
                assert(mid.food[i] == ready.food[i + 1]);
            }
        }
        assert forall|i: int| 1 <= i < mid.snake.len() implies bounds.contains(
            #[trigger] mid.snake[i],
        ) by {
            if i < moved.snake.len() {
                assert(mid.snake[i] == moved.snake[i]);
            } else {
                assert(mid.snake[i] == body.last());
            }
        }
        assert(mid.snake[0] == moved.snake[0]);
    }
}

/// A cell that occurs among `cells` has a first place there.
pub proof fn lemma_has_first(cells: Seq<Cell>, cell: Cell, k: int)
    requires
        0 <= k < cells.len(),
        cells[k] == cell,
    ensures
        is_first_at(cells, cell, first_place(cells, cell)),
        first_place(cells, cell) <= k,
    decreases k,
{
    if exists|j: int| 0 <= j < k && cells[j] == cell {
        let j = choose|j: int| 0 <= j < k && cells[j] == cell;
        lemma_has_first(cells, cell, j);
    } else {
        assert(is_first_at(cells, cell, k));
        lemma_first_place(cells, cell, k);
    }
}

/// After a tick that lets the game go on, the snake and the food share a cell
/// exactly when a food item that the tick left in place lay under the snake or
/// on the cell onto which its head moved. So where the path is clear, no cell
/// holds both.
pub proof fn lemma_food_exclusive(
    pre: Snapshot,
    bounds: Bounds,
    event: PlayerEvent,
    first: Cell,
    fresh: Option<Cell>,
)
    requires
        draws_fit(pre, bounds, event, first, fresh),
        tick_of(pre, bounds, event, first, fresh).1 == Ok::<GameResult, PlayError>(
            GameResult::Continue,
        ),
    ensures
        pre.stocked(first).path_clear(bounds, event) <==> tick_of(
            pre,
            bounds,
            event,
            first,
            fresh,
        ).0.food_clear_of_snake(),
{
    let ready = pre.stocked(first);
    let body = ready.snake_in_play(bounds);
    let tail = ready.vacated(bounds);
    let head = ready.head_on(bounds, event);
    let left = ready.food_left(bounds);
    let post = tick_of(pre, bounds, event, first, fresh).0;
    let fed = advance_of(ready, bounds, event).1 == Advance::Fed;
    // The new snake is the new head and then the old snake, whose tail has
    // left unless the snake has eaten. The new food is the food left in
    // place, and then the new item if the snake has eaten.
    let kept = if fed {
        body
    } else {
        body.drop_last()
    };
    let placed = if fed {
        seq![fresh->0]
    } else {
        Seq::empty()
    };
    assert(post.snake =~= seq![head] + kept);
    assert(post.food =~= left + placed);
    assert(body =~= body.drop_last() + seq![tail]);
    assert(!fed ==> !left.contains(tail));
    assert(fed ==> !post.snake.contains(fresh->0));
    assert forall|c: Cell|
        (post.snake.contains(c) && post.food.contains(c)) <==> (#[trigger] left.contains(c) && (
        body.contains(c) || c == head)) by {
        lemma_contains_add(seq![head], kept, c);
        lemma_contains_add(left, placed, c);
        lemma_contains_add(body.drop_last(), seq![tail], c);
        assert(seq![head].contains(c) <==> c == head) by {
            assert(seq![head][0] == head);
        }
        assert(seq![tail].contains(c) <==> c == tail) by {
            assert(seq![tail][0] == tail);
        }
        if fed {
            assert(placed.contains(c) <==> c == fresh->0) by {
                assert(placed[0] == fresh->0);
            }
        }
    }
    if ready.path_clear(bounds, event) {
        assert forall|c: Cell| !(post.snake.contains(c) && post.food.contains(c)) by {
            assert(left.contains(c) ==> !body.contains(c) && c != head);
        }
    }
    if post.food_clear_of_snake() {
        assert forall|c: Cell| #[trigger] left.contains(c) implies !body.contains(c) && c
            != head by {
            assert(!(post.snake.contains(c) && post.food.contains(c)));
        }
    }
}

/// A cell is among two runs of cells put end to end exactly when it is among
/// one of them.
proof fn lemma_contains_add(front: Seq<Cell>, back: Seq<Cell>, cell: Cell)
    ensures
        (front + back).contains(cell) <==> front.contains(cell) || back.contains(cell),
{
    let both = front + back;
    if both.contains(cell) {
        let k = choose|k: int| 0 <= k < both.len() && both[k] == cell;
        if k < front.len() {
            assert(front[k] == cell);
        } else {
            assert(back[k - front.len()] == cell);
        }
    }
    if front.contains(cell) {
        let k = choose|k: int| 0 <= k < front.len() && front[k] == cell;
        assert(both[k] == cell);
    }
    if back.contains(cell) {
        let k = choose|k: int| 0 <= k < back.len() && back[k] == cell;
        assert(both[front.len() + k] == cell);
    }
}

/// The same for a state that has food already, so that no first item is drawn:
/// after a tick that lets the game go on, no cell holds both a piece of the
/// snake and a food item exactly when the path was clear.
pub proof fn lemma_food_exclusive_when_stocked(
    pre: Snapshot,
    bounds: Bounds,
    event: PlayerEvent,
    post: Snapshot,
    result: Result<GameResult, PlayError>,
)
    requires
        pre.food.len() > 0,
        tick_allows(pre, bounds, event, post, result),
        result == Ok::<GameResult, PlayError>(GameResult::Continue),
    ensures
        pre.path_clear(bounds, event) <==> post.food_clear_of_snake(),
{
    let (first, fresh) = choose|first: Cell, fresh: Option<Cell>|
        #[trigger] draws_fit(pre, bounds, event, first, fresh) && (post, result) == tick_of(
            pre,
            bounds,
            event,
            first,
            fresh,
        );
    assert(pre.stocked(first) == pre);
    lemma_food_exclusive(pre, bounds, event, first, fresh);
}

/// A tick that ran on some draws is a tick that the rules allow: what it took
/// for the first food item lies in the field, and what it placed for a new item
/// lies on a free cell of the field.
pub proof fn lemma_tick_ran_allows(
    pre: Snapshot,
    bounds: Bounds,
    event: PlayerEvent,
    drawn: Seq<Cell>,
    post: Snapshot,
    result: Result<GameResult, PlayError>,
)
    requires
        bounds.valid(),
        tick_ran(pre, bounds, event, drawn, post, result),
    ensures
        tick_allows(pre, bounds, event, post, result),
{
    let seeds: int = if pre.food.len() == 0 {
        1
    } else {
        0
    };
    let first = if seeds == 1 {
        drawn[0]
    } else {
        bounds.center()
    };
    let tried = drawn.skip(seeds);
    let (mid, advance) = advance_of(pre.stocked(first), bounds, event);
    if advance == Advance::Fed {
        let fresh = settled(tried, mid.snake + mid.food);
        if fresh is Some {
            let cell = tried.last();
            assert(cell == drawn[drawn.len() - 1]);
            lemma_contains_add(mid.snake, mid.food, cell);
        }
        assert(draws_fit(pre, bounds, event, first, fresh));
    } else {
        assert(draws_fit(pre, bounds, event, first, None));
    }
}

/// Whether a tick on some input leads from `before` to `after` and lets the
/// game go on.
pub open spec fn goes_on(bounds: Bounds, before: Snapshot, after: Snapshot) -> bool {
    exists|event: PlayerEvent| #[trigger]
        tick_allows(
            before,
            bounds,
            event,
            after,
            Ok::<GameResult, PlayError>(GameResult::Continue),
        )
}

/// Whether the state at place `i` of `states` leads to the next one by a tick
/// that lets the game go on.
pub open spec fn step_goes_on(bounds: Bounds, states: Seq<Snapshot>, i: int) -> bool {
    goes_on(bounds, states[i], states[i + 1])
}

/// Whether `states` are the states of a session, in order: the first is blank,
/// and each leads to the next by a tick that lets the game go on.
pub open spec fn session(bounds: Bounds, states: Seq<Snapshot>) -> bool {
    &&& states.len() > 0
    &&& states[0] == Snapshot::blank()
    &&& forall|i: int| 0 <= i < states.len() - 1 ==> #[trigger] step_goes_on(bounds, states, i)
}

/// Every state that a session reaches lies inside the field and has a heading
/// for its direction. Once the first tick is over it has a snake, whose length
/// is its score and one, and food.
pub proof fn lemma_session_states(bounds: Bounds, states: Seq<Snapshot>, i: int)
    requires
        bounds.valid(),
        session(bounds, states),
        0 <= i < states.len(),
    ensures
        states[i].within(bounds),
        is_heading(states[i].direction),
        i > 0 ==> states[i].snake.len() == states[i].score + 1,
        i > 0 ==> states[i].food.len() > 0,
    decreases i,
{
    if i > 0 {
        lemma_session_states(bounds, states, i - 1);
        let before = states[i - 1];
        let after = states[i];
        assert(step_goes_on(bounds, states, i - 1));
        let event = choose|event: PlayerEvent| #[trigger]
            tick_allows(
                before,
                bounds,
                event,
                after,
                Ok::<GameResult, PlayError>(GameResult::Continue),
            );
        let result = Ok::<GameResult, PlayError>(GameResult::Continue);
        lemma_bounds_kept(before, bounds, event, after, result);
        lemma_length_and_score(before, bounds, event, after, result);
        lemma_heading_stays_heading(event, before.direction);
        let (first, fresh) = choose|first: Cell, fresh: Option<Cell>|
            #[trigger] draws_fit(before, bounds, event, first, fresh) && (after, result) == tick_of(
                before,
                bounds,
                event,
                first,
                fresh,
            );
        assert(before.stocked(first).food.len() > 0);
    }
}

/// Over a session the snake never shrinks.
pub proof fn lemma_session_length(bounds: Bounds, states: Seq<Snapshot>, i: int, j: int)
    requires
        session(bounds, states),
        0 <= i <= j < states.len(),
    ensures
        states[i].snake.len() <= states[j].snake.len(),
    decreases j - i,
{
    if i < j {
        lemma_session_length(bounds, states, i, j - 1);
        assert(step_goes_on(bounds, states, j - 1));
        let event = choose|event: PlayerEvent| #[trigger]
            tick_allows(
                states[j - 1],
                bounds,
                event,
                states[j],
                Ok::<GameResult, PlayError>(GameResult::Continue),
            );
        lemma_length_and_score(
            states[j - 1],
            bounds,
            event,
            states[j],
            Ok::<GameResult, PlayError>(GameResult::Continue),
        );
    }
}

} // verus!
