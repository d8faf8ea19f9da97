//! What a session holds between ticks, and the signals that pass between the
//! engine and its host.

use crate::field::{Bounds, Cell};
use vstd::prelude::*;

verus! {

/// One logical input per tick.
#[derive(Clone, Copy, Debug, PartialEq, Eq, Structural)]
pub enum PlayerEvent {
    Up,
    Down,
    Left,
    Right,
    Quit,
    /// No input arrived during this tick.
    Idle,
    /// A signal of the user interface alone; the engine treats it as `Idle`.
    ToggleArrowKeys,
}

/// How a tick ended.
#[derive(Clone, Copy, Debug, PartialEq, Eq, Structural)]
pub enum GameResult {
    Continue,
    /// The snake hit a wall or itself. The session is over; a new game starts
    /// from a new `GameState`.
    GameOver,
}

/// The mutable state of one session.
#[derive(Debug)]
pub struct GameState {
    /// The snake's cells, head first.
    pub snake: Vec<Cell>,
    /// The food items on the grid.
    pub food: Vec<Cell>,
    /// The heading applied on the last tick, as a step `(dx, dy)`.
    pub direction: (i16, i16),
    /// How many food items the snake has eaten in this session.
    pub score: u32,
}

/// The mathematical content of a `GameState`.
pub struct Snapshot {
    pub snake: Seq<Cell>,
    pub food: Seq<Cell>,
    pub direction: (i16, i16),
    pub score: nat,
}

impl Snapshot {
    /// The state before the first tick: nothing is placed yet.
    pub open spec fn blank() -> Snapshot {
        Snapshot { snake: Seq::empty(), food: Seq::empty(), direction: (0, 0), score: 0 }
    }

    /// Every snake and food cell lies inside `bounds`.
    pub open spec fn within(self, bounds: Bounds) -> bool {
        bounds.encloses(self.snake) && bounds.encloses(self.food)
    }

    /// No cell holds both a piece of the snake and a food item.
    pub open spec fn food_clear_of_snake(self) -> bool {
        forall|c: Cell| !(self.snake.contains(c) && self.food.contains(c))
    }
}

impl View for GameState {
    type V = Snapshot;

    open spec fn view(&self) -> Snapshot {
        Snapshot {
            snake: self.snake@,
            food: self.food@,
            direction: self.direction,
            score: self.score as nat,
        }
    }
}

impl GameState {
    /// The state at the start of a session. The snake's head and the first food
    /// item are placed by the first tick.
    pub fn new() -> (state: GameState)
        ensures
            state@ == Snapshot::blank(),
    {
        GameState { snake: Vec::new(), food: Vec::new(), direction: (0, 0), score: 0 }
    }
}

impl Default for GameState {
    fn default() -> (state: GameState)
        ensures
            state@ == Snapshot::blank(),
    {
        GameState::new()
    }
}

} // verus!
