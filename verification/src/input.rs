//! From what a keyboard or a pointer reports to the logical input of a tick.

use crate::state::PlayerEvent;
use vstd::prelude::*;

verus! {

/// A key, as far as the game tells keys apart.
#[derive(Clone, Copy, Debug, PartialEq, Eq, Structural)]
pub enum Key {
    Up,
    Down,
    Left,
    Right,
    Escape,
    Char(char),
    Other,
}

/// What a key means on a terminal: the arrows steer, `q` quits, any other key
/// counts as no input.
pub open spec fn terminal_event(key: Key) -> PlayerEvent {
    match key {
        Key::Up => PlayerEvent::Up,
        Key::Down => PlayerEvent::Down,
        Key::Left => PlayerEvent::Left,
        Key::Right => PlayerEvent::Right,
        Key::Char(c) => if c == 'q' {
            PlayerEvent::Quit
        } else {
            PlayerEvent::Idle
        },
        _ => PlayerEvent::Idle,
    }
}

/// What keys held down at once mean in a window: escape quits, and of the
/// arrows right goes before left, left before down, down before up.
pub open spec fn pressed_event(up: bool, down: bool, left: bool, right: bool, escape: bool)
    -> PlayerEvent {
    if escape {
        PlayerEvent::Quit
    } else if right {
        PlayerEvent::Right
    } else if left {
        PlayerEvent::Left
    } else if down {
        PlayerEvent::Down
    } else if up {
        PlayerEvent::Up
    } else {
        PlayerEvent::Idle
    }
}

/// What a touch means that lies on the arrow pads marked `true`: the first pad
/// hit, taken in the order up, down, left, right.
pub open spec fn touch_event(up: bool, down: bool, left: bool, right: bool) -> Option<
    PlayerEvent,
> {
    if up {
        Some(PlayerEvent::Up)
    } else if down {
        Some(PlayerEvent::Down)
    } else if left {
        Some(PlayerEvent::Left)
    } else if right {
        Some(PlayerEvent::Right)
    } else {
        None
    }
}

/// The input that a key pressed on a terminal stands for.
pub fn event_for_key(key: Key) -> (event: PlayerEvent)
    ensures
        event == terminal_event(key),
{
    match key {
        Key::Up => PlayerEvent::Up,
        Key::Down => PlayerEvent::Down,
        Key::Left => PlayerEvent::Left,
        Key::Right => PlayerEvent::Right,
        Key::Char(c) => {
            if c == 'q' {
                PlayerEvent::Quit
            } else {
                PlayerEvent::Idle
            }
        },
        _ => PlayerEvent::Idle,
    }
}

/// The input that the keys pressed in a window stand for.
pub fn event_for_pressed(up: bool, down: bool, left: bool, right: bool, escape: bool) -> (event:
    PlayerEvent)
    ensures
        event == pressed_event(up, down, left, right, escape),
{
    let mut event = PlayerEvent::Idle;
    if up {
        event = PlayerEvent::Up;
    }
    if down {
        event = PlayerEvent::Down;
    }
    if left {
        event = PlayerEvent::Left;
    }
    if right {
        event = PlayerEvent::Right;
    }
    if escape {
        event = PlayerEvent::Quit;
    }
    event
}

/// The input that a touch on the arrow pads stands for, if it hit one.
pub fn event_for_touch(up: bool, down: bool, left: bool, right: bool) -> (event: Option<
    PlayerEvent,
>)
    ensures
        event == touch_event(up, down, left, right),
{
    if up {
        Some(PlayerEvent::Up)
    } else if down {
        Some(PlayerEvent::Down)
    } else if left {
        Some(PlayerEvent::Left)
    } else if right {
        Some(PlayerEvent::Right)
    } else {
        None
    }
}

/// Whether `event` is an input worth ending a wait for: it is one, and it is
/// not the one that came before.
pub fn is_new_event(event: PlayerEvent, prev: PlayerEvent) -> (fresh: bool)
    ensures
        fresh == (event != PlayerEvent::Idle && event != prev),
{
    event != PlayerEvent::Idle && event != prev
}

/// What a window reports in one pass of polling for input.
#[derive(Clone, Copy, Debug, PartialEq, Eq, Structural)]
pub struct Reading {
    /// Which of the keys are pressed.
    pub up: bool,
    pub down: bool,
    pub left: bool,
    pub right: bool,
    pub escape: bool,
    /// Whether the pointer was pressed.
    pub touched: bool,
    /// Which of the arrow pads the pointer is on.
    pub on_up: bool,
    pub on_down: bool,
    pub on_left: bool,
    pub on_right: bool,
    /// Whether the pointer is on the switch that shows and hides the arrow pads.
    pub on_toggle: bool,
    /// Whether the time allowed for polling is up.
    pub timed_out: bool,
}

/// The touch controls of a window.
#[derive(Clone, Copy, Debug, PartialEq, Eq, Structural)]
pub struct TouchControls {
    /// Whether the arrow pads are shown, and so take touches.
    pub arrows_visible: bool,
    /// Whether the switch that shows them is on.
    pub toggle_on: bool,
}

/// What one pass of polling comes to.
#[derive(Clone, Copy, Debug, PartialEq, Eq, Structural)]
pub struct PollStep {
    /// The input gathered so far.
    pub event: PlayerEvent,
    /// Whether polling ends with this pass.
    pub done: bool,
    /// Whether the touch controls have changed and are to be drawn again.
    pub redraw: bool,
}

/// The input after the keys of `reading` have had their say: what they stand
/// for if any is pressed, and `event` as it was if none is.
pub open spec fn keyed(event: PlayerEvent, reading: Reading) -> PlayerEvent {
    let pressed = pressed_event(
        reading.up,
        reading.down,
        reading.left,
        reading.right,
        reading.escape,
    );
    if pressed != PlayerEvent::Idle {
        pressed
    } else {
        event
    }
}

/// The input after the pointer has had its say as well: a touch on a visible
/// arrow pad overrides the keys.
pub open spec fn pointed(controls: TouchControls, event: PlayerEvent, reading: Reading)
    -> PlayerEvent {
    if reading.touched && controls.arrows_visible {
        match touch_event(reading.on_up, reading.on_down, reading.on_left, reading.on_right) {
            Some(touched) => touched,
            None => keyed(event, reading),
        }
    } else {
        keyed(event, reading)
    }
}

/// The touch controls after one pass: a touch on the switch flips it, and the
/// arrow pads show exactly while it is on.
pub open spec fn switched(controls: TouchControls, reading: Reading) -> TouchControls {
    if reading.touched && reading.on_toggle {
        TouchControls { arrows_visible: !controls.toggle_on, toggle_on: !controls.toggle_on }
    } else {
        controls
    }
}

/// What one pass of polling comes to. A touch on the switch ends polling with
/// the toggle signal. Otherwise polling ends when its time is up or when an
/// input has come in that differs from `prev`, the input of the tick before.
pub open spec fn poll_step_of(
    controls: TouchControls,
    event: PlayerEvent,
    prev: PlayerEvent,
    reading: Reading,
) -> PollStep {
    if reading.touched && reading.on_toggle {
        PollStep { event: PlayerEvent::ToggleArrowKeys, done: true, redraw: true }
    } else {
        PollStep {
            event: pointed(controls, event, reading),
            done: reading.timed_out || (pointed(controls, event, reading) != PlayerEvent::Idle
                && pointed(controls, event, reading) != prev),
            redraw: false,
        }
    }
}

/// Decides one pass of polling in a window: `event` is the input gathered in
/// the passes before, `prev` the input of the tick before, and `reading` what
/// the window reports now.
pub fn poll_step(
    controls: &mut TouchControls,
    event: PlayerEvent,
    prev: PlayerEvent,
    reading: &Reading,
) -> (step: PollStep)
    ensures
        step == poll_step_of(*old(controls), event, prev, *reading),
        *final(controls) == switched(*old(controls), *reading),
{
    let mut event = event;
    let pressed = event_for_pressed(
        reading.up,
        reading.down,
        reading.left,
        reading.right,
        reading.escape,
    );
    if pressed != PlayerEvent::Idle {
        event = pressed;
    }
    if reading.touched {
        if controls.arrows_visible {
            match event_for_touch(reading.on_up, reading.on_down, reading.on_left, reading.on_right)
            {
                Some(touched) => {
                    event = touched;
                },
                None => {},
            }
        }
        if reading.on_toggle {
            controls.toggle_on = !controls.toggle_on;
            controls.arrows_visible = controls.toggle_on;
            return PollStep { event: PlayerEvent::ToggleArrowKeys, done: true, redraw: true };
        }
    }
    PollStep { event, done: reading.timed_out || is_new_event(event, prev), redraw: false }
}

/// How long to poll once more, if at all. After a tick whose input was the
/// toggle signal the window polls again for as long as its time is not up;
/// after any other input one poll is all.
pub open spec fn poll_again_of(prev: PlayerEvent, timeout_ms: u64, elapsed_ms: u64) -> Option<
    u64,
> {
    if prev == PlayerEvent::ToggleArrowKeys && elapsed_ms < timeout_ms {
        Some((timeout_ms - elapsed_ms) as u64)
    } else {
        None
    }
}

/// Decides whether a window that has polled polls once more, and for how many
/// milliseconds: `prev` is the input of the tick before, `timeout_ms` the time
/// allowed in all and `elapsed_ms` the time used so far.
pub fn poll_again(prev: PlayerEvent, timeout_ms: u64, elapsed_ms: u64) -> (remaining: Option<u64>)
    ensures
        remaining == poll_again_of(prev, timeout_ms, elapsed_ms),
{
    if prev == PlayerEvent::ToggleArrowKeys && elapsed_ms < timeout_ms {
        Some(timeout_ms - elapsed_ms)
    } else {
        None
    }
}

} // verus!
