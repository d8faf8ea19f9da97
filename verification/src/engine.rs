//! The transition function: one tick of the game.

use crate::field::{Bounds, Cell, Field};
use crate::laws::{
    lemma_bounds_kept, lemma_food_exclusive_when_stocked, lemma_game_over_iff_crashed,
    lemma_heading_stays_heading, lemma_length_and_score, lemma_tick_ran_allows,
};
use crate::motion::{
    advanced, collided, crashed, find_direction, is_heading, locomote, resolved_heading,
};
use crate::random::{
    cells_samples, cells_since, lemma_cells_samples_few, lemma_cells_since, lemma_record_grows,
    random_exclude, random_position, sampling_done, settled, RandomSource,
};
use crate::state::{GameResult, GameState, PlayerEvent, Snapshot};
use vstd::prelude::*;

verus! {

/// How many cells `play` draws for a new food item before it gives up.
pub const SPAWN_ATTEMPTS: u32 = 100_000;

/// Why a tick could not be completed.
#[derive(Clone, Copy, Debug, PartialEq, Eq, Structural)]
pub enum PlayError {
    /// The snake ate, and every cell drawn for the next food item was taken.
    SpawnExhausted,
}

/// What the part of a tick that needs no random number has done.
#[derive(Clone, Copy, Debug, PartialEq, Eq, Structural)]
pub enum Advance {
    /// The snake moved into a wall or into itself.
    Crashed,
    /// The snake moved and found nothing.
    Moved,
    /// The snake moved and ate: it has grown and the food item is gone, but no
    /// new item has been placed yet.
    Fed,
}

/// Whether `i` is the place of the first `cell` among `cells`.
pub open spec fn is_first_at(cells: Seq<Cell>, cell: Cell, i: int) -> bool {
    &&& 0 <= i < cells.len()
    &&& cells[i] == cell
    &&& forall|j: int| 0 <= j < i ==> cells[j] != cell
}

/// The place of the first `cell` among `cells`, where there is one.
pub open spec fn first_place(cells: Seq<Cell>, cell: Cell) -> int {
    choose|i: int| is_first_at(cells, cell, i)
}

/// A cell occurs first at one place only, and `first_place` names it.
pub proof fn lemma_first_place(cells: Seq<Cell>, cell: Cell, i: int)
    requires
        is_first_at(cells, cell, i),
    ensures
        first_place(cells, cell) == i,
        cells.contains(cell),
{
    let k = first_place(cells, cell);
    assert(is_first_at(cells, cell, k));
    if k < i {
        assert(cells[k] != cell);
    } else if i < k {
        assert(cells[i] != cell);
    }
}

impl Snapshot {
    /// The snake with which a tick starts: the one there is, or a single cell at
    /// the center of the field where none has been placed yet.
    pub open spec fn snake_in_play(self, bounds: Bounds) -> Seq<Cell> {
        if self.snake.len() == 0 {
            seq![bounds.center()]
        } else {
            self.snake
        }
    }

    /// The food with which a tick starts: the items there are, or the single
    /// item `first` where there is none.
    pub open spec fn food_in_play(self, first: Cell) -> Seq<Cell> {
        if self.food.len() == 0 {
            seq![first]
        } else {
            self.food
        }
    }

    /// This state with `first` as its food where it has none.
    pub open spec fn stocked(self, first: Cell) -> Snapshot {
        Snapshot {
            snake: self.snake,
            food: self.food_in_play(first),
            direction: self.direction,
            score: self.score,
        }
    }

    /// The heading that the snake takes on `event`.
    pub open spec fn heading_on(self, event: PlayerEvent) -> (i16, i16) {
        resolved_heading(event, self.direction)
    }

    /// This state after the snake has turned and moved on `event`.
    pub open spec fn moved_on(self, bounds: Bounds, event: PlayerEvent) -> Snapshot {
        Snapshot {
            snake: advanced(self.snake_in_play(bounds), self.heading_on(event)),
            food: self.food,
            direction: self.heading_on(event),
            score: self.score,
        }
    }

    /// The cell that the snake's tail leaves when it moves.
    pub open spec fn vacated(self, bounds: Bounds) -> Cell {
        self.snake_in_play(bounds).last()
    }

    /// The state after the snake, having moved, has eaten the food item on the
    /// cell its tail left: the tail is back, the item is gone, the score is up.
    pub open spec fn fed_on(self, bounds: Bounds, event: PlayerEvent) -> Snapshot {
        Snapshot {
            snake: self.moved_on(bounds, event).snake.push(self.vacated(bounds)),
            food: self.food.remove(first_place(self.food, self.vacated(bounds))),
            direction: self.heading_on(event),
            score: self.score + 1,
        }
    }

    /// This state with one more food item, on `cell`.
    pub open spec fn restocked(self, cell: Cell) -> Snapshot {
        Snapshot {
            snake: self.snake,
            food: self.food.push(cell),
            direction: self.direction,
            score: self.score,
        }
    }

    /// Whether a new food item may go on `cell`: it is a cell of the field that
    /// holds neither a piece of the snake nor a food item.
    pub open spec fn free_at(self, bounds: Bounds, cell: Cell) -> bool {
        bounds.contains(cell) && !self.snake.contains(cell) && !self.food.contains(cell)
    }
}

/// The part of a tick that needs no random number: the snake is placed if it
/// was not, turns, moves, and either crashes, eats the food item on the cell its
/// tail left, or finds nothing.
pub open spec fn advance_of(pre: Snapshot, bounds: Bounds, event: PlayerEvent) -> (
    Snapshot,
    Advance,
) {
    if crashed(pre.moved_on(bounds, event).snake, bounds) {
        (pre.moved_on(bounds, event), Advance::Crashed)
    } else if pre.food.contains(pre.vacated(bounds)) {
        (pre.fed_on(bounds, event), Advance::Fed)
    } else {
        (pre.moved_on(bounds, event), Advance::Moved)
    }
}

/// A whole tick, given what was drawn: `first` is the cell drawn for the first
/// food item, used where the state has none, and `fresh` is the cell found for
/// the new item after the snake has eaten, if one was found.
pub open spec fn tick_of(
    pre: Snapshot,
    bounds: Bounds,
    event: PlayerEvent,
    first: Cell,
    fresh: Option<Cell>,
) -> (Snapshot, Result<GameResult, PlayError>) {
    let (mid, advance) = advance_of(pre.stocked(first), bounds, event);
    match advance {
        Advance::Crashed => (mid, Ok(GameResult::GameOver)),
        Advance::Moved => (mid, Ok(GameResult::Continue)),
        Advance::Fed => match fresh {
            Some(cell) => (mid.restocked(cell), Ok(GameResult::Continue)),
            None => (mid, Err(PlayError::SpawnExhausted)),
        },
    }
}

/// What every draw satisfies: the first food item lies in the field, and a new
/// item lies on a free cell of the field.
pub open spec fn draws_fit(
    pre: Snapshot,
    bounds: Bounds,
    event: PlayerEvent,
    first: Cell,
    fresh: Option<Cell>,
) -> bool {
    &&& bounds.contains(first)
    &&& fresh matches Some(cell) ==> advance_of(pre.stocked(first), bounds, event).0.free_at(
        bounds,
        cell,
    )
}

/// Whether a tick on `event` may lead from `pre` to `post` with `result`: it
/// does so for some draws that fit.
pub open spec fn tick_allows(
    pre: Snapshot,
    bounds: Bounds,
    event: PlayerEvent,
    post: Snapshot,
    result: Result<GameResult, PlayError>,
) -> bool {
    exists|first: Cell, fresh: Option<Cell>|
        #[trigger] draws_fit(pre, bounds, event, first, fresh) && (post, result) == tick_of(
            pre,
            bounds,
            event,
            first,
            fresh,
        )
}

/// Whether a tick on `event` for which the cells `drawn` were drawn, in this
/// order, leads from `pre` to `post` with `result`.
///
/// A state without food takes the first cell drawn as its first food item. All
/// further cells are drawn for the new item of a snake that has eaten, by
/// rejection against the snake and the food: a tick in which the snake does not
/// eat draws none.
pub open spec fn tick_ran(
    pre: Snapshot,
    bounds: Bounds,
    event: PlayerEvent,
    drawn: Seq<Cell>,
    post: Snapshot,
    result: Result<GameResult, PlayError>,
) -> bool {
    let seeds: int = if pre.food.len() == 0 {
        1
    } else {
        0
    };
    let first = if seeds == 1 {
        drawn[0]
    } else {
        bounds.center()
    };
    let tried = drawn.skip(seeds);
    let (mid, advance) = advance_of(pre.stocked(first), bounds, event);
    &&& drawn.len() >= seeds
    &&& bounds.encloses(drawn)
    &&& if advance == Advance::Fed {
        &&& sampling_done(tried, mid.snake + mid.food, SPAWN_ATTEMPTS as nat)
        &&& (post, result) == tick_of(
            pre,
            bounds,
            event,
            first,
            settled(tried, mid.snake + mid.food),
        )
    } else {
        &&& tried.len() == 0
        &&& (post, result) == tick_of(pre, bounds, event, first, None)
    }
}

/// The place of the first `cell` among `cells`.
fn position(cells: &[Cell], cell: Cell) -> (place: Option<usize>)
    ensures
        match place {
            Some(i) => is_first_at(cells@, cell, i as int),
            None => !cells@.contains(cell),
        },
{
    let mut i: usize = 0;
    while i < cells.len()
        invariant
            forall|j: int| 0 <= j < i && j < cells@.len() ==> cells@[j] != cell,
        decreases cells@.len() - i,
    {
        if cells[i].0 == cell.0 && cells[i].1 == cell.1 {
            return Some(i);
        }
        i += 1;
    }
    None
}

/// The cells of `front` followed by those of `back`.
fn chained(front: &[Cell], back: &[Cell]) -> (all: Vec<Cell>)
    ensures
        all@ == front@ + back@,
{
    let mut all: Vec<Cell> = Vec::new();
    let mut i: usize = 0;
    while i < front.len()
        invariant
            i <= front@.len(),
            all@ == front@.take(i as int),
        decreases front@.len() - i,
    {
        all.push(front[i]);
        i += 1;
        assert(all@ =~= front@.take(i as int));
    }
    let mut j: usize = 0;
    assert(all@ =~= front@ + back@.take(0));
    while j < back.len()
        invariant
            j <= back@.len(),
            all@ == front@ + back@.take(j as int),
        decreases back@.len() - j,
    {
        all.push(back[j]);
        j += 1;
        assert(all@ =~= front@ + back@.take(j as int));
    }
    assert(all@ =~= front@ + back@);
    all
}

/// The part of a tick that needs no random number. It places the snake at the
/// center of the field if there is none, resolves the heading, moves the snake
/// and checks for a collision. If the snake got through and the cell its tail
/// left holds a food item, the snake grows back onto that cell, the item is
/// removed and the score goes up by one; placing a new item is left to the
/// caller.
pub fn advance(state: &mut GameState, field: &Field, event: &PlayerEvent) -> (advance: Advance)
    requires
        old(state).score < u32::MAX,
    ensures
        (final(state)@, advance) == advance_of(old(state)@, field@, *event),
{
    if state.snake.is_empty() {
        state.snake.push(field.center());
    }
    assert(state.snake@ =~= old(state)@.snake_in_play(field@));
    state.direction = find_direction(event, state.direction);
    let past_tail: Cell = state.snake[state.snake.len() - 1];
    locomote(&mut state.snake, state.direction.0, state.direction.1);
    if collided(state.snake.as_slice(), field) {
        return Advance::Crashed;
    }
    match position(state.food.as_slice(), past_tail) {
        Some(i) => {
            proof {
                lemma_first_place(state.food@, past_tail, i as int);
            }
            state.snake.push(past_tail);
            state.food.remove(i);
            state.score = state.score + 1;
            Advance::Fed
        },
        None => Advance::Moved,
    }
}

/// One tick of the game with the cells already drawn: `first` becomes the
/// first food item of a state that has none, and `fresh`, if there is one,
/// becomes the new item of a snake that has eaten. With `fresh` absent, a
/// snake that has eaten ends the tick in `Err(SpawnExhausted)`. Neither cell is
/// checked against the field or the snake: the tick is the one that `play`
/// makes when these are its draws.
pub fn tick(
    state: &mut GameState,
    field: &Field,
    event: &PlayerEvent,
    first: Cell,
    fresh: Option<Cell>,
) -> (result: Result<GameResult, PlayError>)
    requires
        old(state).score < u32::MAX,
    ensures
        (final(state)@, result) == tick_of(old(state)@, field@, *event, first, fresh),
{
    if state.food.is_empty() {
        state.food.push(first);
    }
    assert(state@.food =~= old(state)@.food_in_play(first));
    match advance(state, field, event) {
        Advance::Crashed => Ok(GameResult::GameOver),
        Advance::Moved => Ok(GameResult::Continue),
        Advance::Fed => match fresh {
            Some(cell) => {
                state.food.push(cell);
                Ok(GameResult::Continue)
            },
            None => Err(PlayError::SpawnExhausted),
        },
    }
}

/// Runs one tick of the game.
///
/// A state without food first gets one item on a cell drawn from the field.
/// Then the snake is placed if there is none, turns, moves and is checked for
/// a collision, as `advance` does it. A snake that has eaten gets a new food
/// item on a cell drawn from the field, drawn again while it is taken by the
/// snake or by food, and at most `SPAWN_ATTEMPTS` times.
///
/// The result is `Ok(GameOver)` when the snake crashed, `Ok(Continue)` when the
/// tick is complete, and `Err(SpawnExhausted)` when the snake has eaten and no
/// free cell was drawn; the state then lacks the new item and nothing else.
pub fn play<R: RandomSource>(
    state: &mut GameState,
    field: &Field,
    event: &PlayerEvent,
    rng: &mut R,
) -> (result: Result<GameResult, PlayError>)
    requires
        old(state).score < u32::MAX,
    ensures
        // What was drawn: cells of the field, column first, and nothing else.
        final(rng).samples() == old(rng).samples() + cells_samples(
            field@,
            cells_since(old(rng).samples(), final(rng).samples()),
        ),
        // What became of the state, given what was drawn.
        tick_ran(
            old(state)@,
            field@,
            *event,
            cells_since(old(rng).samples(), final(rng).samples()),
            final(state)@,
            result,
        ),
        tick_allows(old(state)@, field@, *event, final(state)@, result),
        // The game ends exactly when the moved snake is outside the field or on itself.
        result == Ok::<GameResult, PlayError>(GameResult::GameOver) <==> crashed(
            old(state)@.moved_on(field@, *event).snake,
            field@,
        ),
        // A heading stays a heading.
        is_heading(old(state)@.direction) ==> is_heading(final(state)@.direction),
        // The snake never shrinks, and grows by one cell exactly when it scores.
        final(state)@.snake.len() >= old(state)@.snake.len(),
        final(state)@.snake.len() == old(state)@.snake_in_play(field@).len()
            + final(state)@.score - old(state)@.score,
        final(state)@.score == old(state)@.score || final(state)@.score == old(state)@.score + 1,
        // Unless the game ends, a state inside the field stays inside it.
        old(state)@.within(field@) && result != Ok::<GameResult, PlayError>(GameResult::GameOver)
            ==> final(state)@.within(field@),
        // With food on the grid and a clear path, snake and food end up apart.
        old(state)@.food.len() > 0 && result == Ok::<GameResult, PlayError>(GameResult::Continue)
            ==> (old(state)@.path_clear(field@, *event) <==> final(state)@.food_clear_of_snake()),
{
    let ghost pre = state@;
    let ghost before = rng.samples();
    let ghost mut drawn: Seq<Cell> = Seq::empty();
    let ghost mut first: Cell = field@.center();
    proof {
        use_type_invariant(field);
        lemma_cells_samples_few(field@, before, first);
    }
    if state.food.is_empty() {
        let cell: Cell = random_position(field, rng);
        state.food.push(cell);
        proof {
            drawn = seq![cell];
            first = cell;
            lemma_cells_samples_few(field@, before, cell);
        }
    }
    let ghost seeds = drawn;
    assert(state@.food =~= pre.food_in_play(first));
    let ghost ready = state@;
    let advance = advance(state, field, event);
    let ghost mid = state@;
    let result: Result<GameResult, PlayError> = match advance {
        Advance::Crashed => Ok(GameResult::GameOver),
        Advance::Moved => Ok(GameResult::Continue),
        Advance::Fed => {
            let exclude: Vec<Cell> = chained(state.snake.as_slice(), state.food.as_slice());
            let ghost between = rng.samples();
            let spot = random_exclude(field, rng, exclude.as_slice(), SPAWN_ATTEMPTS);
            proof {
                let tried = cells_since(between, rng.samples());
                lemma_record_grows(field@, before, drawn, tried);
                drawn = drawn + tried;
            }
            match spot {
                Some(cell) => {
                    state.food.push(cell);
                    Ok(GameResult::Continue)
                },
                None => Err(PlayError::SpawnExhausted),
            }
        },
    };
    proof {
        lemma_cells_since(before, field@, drawn);
        assert(tick_ran(pre, field@, *event, drawn, state@, result)) by {
            assert(ready == pre.stocked(first));
            assert((mid, advance) == advance_of(ready, field@, *event));
            assert(drawn.skip(seeds.len() as int) =~= if advance == Advance::Fed {
                drawn.skip(seeds.len() as int)
            } else {
                Seq::empty()
            });
            if advance == Advance::Fed {
                assert(state@ == match settled(
                    drawn.skip(seeds.len() as int),
                    mid.snake + mid.food,
                ) {
                    Some(cell) => mid.restocked(cell),
                    None => mid,
                });
            }
        }
        lemma_tick_ran_allows(pre, field@, *event, drawn, state@, result);
        lemma_game_over_iff_crashed(pre, field@, *event, state@, result);
        if is_heading(pre.direction) {
            lemma_heading_stays_heading(*event, pre.direction);
        }
        lemma_length_and_score(pre, field@, *event, state@, result);
        if pre.within(field@) {
            lemma_bounds_kept(pre, field@, *event, state@, result);
        }
        if pre.food.len() > 0 && result == Ok::<GameResult, PlayError>(GameResult::Continue) {
            lemma_food_exclusive_when_stocked(pre, field@, *event, state@, result);
        }
    }
    result
}

} // verus!
