//! A snake game engine: a bounded grid, a snake that grows by eating, and a
//! transition function that advances the game by one tick per player input.
//!
//! The engine knows nothing about rendering or input devices. A host owns a
//! [`Field`] and a [`GameState`], feeds one [`PlayerEvent`] per tick to
//! [`play`], and draws whatever the state holds afterwards. The modules
//! `terminal` and `input` hold what a front end decides without touching a
//! device: what to draw for a frame, and what a key means.

pub mod engine;
pub mod field;
pub mod input;
pub mod laws;
pub mod motion;
pub mod random;
pub mod state;
pub mod terminal;

pub use engine::{advance, play, tick, Advance, PlayError, SPAWN_ATTEMPTS};
pub use field::{Bounds, Cell, Field};
pub use input::{
    event_for_key, event_for_pressed, event_for_touch, is_new_event, poll_again, poll_step, Key,
    PollStep, Reading, TouchControls,
};
pub use motion::{collided, find_direction, locomote, shift};
pub use random::{
    occupies, random_exclude, random_position, FnSource, RandomSource, ScriptedSource,
    ThreadRandom,
};
pub use state::{GameResult, GameState, PlayerEvent, Snapshot};
pub use terminal::{Draw, Symbol, TerminalUI};
