//! Input state: movement intents, the close request, and mouse look.
//!
//! Cursor positions and look angles are whole numbers of fixed units. The
//! units are chosen so that, at the look sensitivity of a tenth of a degree
//! for each pixel of cursor travel, one cursor unit turns the view by exactly
//! one angle unit.

use vstd::prelude::*;

verus! {

/// Cursor units in one pixel.
pub const CURSOR_UNITS_PER_PIXEL: i64 = 256;

/// Pixels of cursor travel that turn the view by one degree.
pub const PIXELS_PER_DEGREE: i64 = 10;

/// Angle units in one degree.
pub const ANGLE_UNITS_PER_DEGREE: i64 = 2560;

/// The yaw that a new game starts with: a quarter turn.
pub const START_YAW: i64 = 230_400;

/// The keys that the game tells apart.
#[derive(Clone, Copy, Debug, PartialEq, Eq)]
pub enum Key {
    Escape,
    W,
    S,
    A,
    D,
    Space,
    Other,
}

/// What happened to a key.
#[derive(Clone, Copy, Debug, PartialEq, Eq)]
pub enum Action {
    Press,
    Release,
    Repeat,
}

/// An event of the window, as far as the game reads it. A cursor position
/// is given in cursor units.
#[derive(Clone, Copy, Debug, PartialEq, Eq)]
pub enum WindowEvent {
    Key(Key, Action),
    CursorPos(i64, i64),
    Close,
    Other,
}

/// The input state that the frame loop keeps between frames.
#[derive(Clone, Copy, Debug, PartialEq, Eq)]
pub struct GameState {
    /// Set once the game should close.
    pub close: bool,
    pub up: bool,
    pub down: bool,
    pub left: bool,
    pub right: bool,
    pub jump: bool,
    /// True until the first cursor sample has been seen.
    pub first_mouse: bool,
    /// The last cursor sample, in cursor units.
    pub last_mouse_x: i64,
    pub last_mouse_y: i64,
    /// Look angles, in angle units.
    pub yaw: i64,
    pub pitch: i64,
}

/// The nearest `i64` to `v`.
pub open spec fn clamped(v: int) -> i64 {
    if v < i64::MIN {
        i64::MIN
    } else if v > i64::MAX {
        i64::MAX
    } else {
        v as i64
    }
}

/// The state after `key` went down or up. Escape and unknown keys move no
/// intent.
pub open spec fn with_key(state: GameState, key: Key, held: bool) -> GameState {
    match key {
        Key::W => GameState { up: held, ..state },
        Key::S => GameState { down: held, ..state },
        Key::A => GameState { left: held, ..state },
        Key::D => GameState { right: held, ..state },
        Key::Space => GameState { jump: held, ..state },
        Key::Escape => state,
        Key::Other => state,
    }
}

/// The state after a cursor sample at (`x`, `y`). The first sample is only
/// taken as the reference. Every later one turns the view by its distance
/// from the reference: yaw falls as the cursor moves right, pitch rises with
/// the cursor's y. Neither angle is wrapped or limited short of the ends of
/// `i64`.
pub open spec fn with_cursor(state: GameState, x: i64, y: i64) -> GameState {
    if state.first_mouse {
        GameState { first_mouse: false, last_mouse_x: x, last_mouse_y: y, ..state }
    } else {
        GameState {
            last_mouse_x: x,
            last_mouse_y: y,
            yaw: clamped(state.yaw - (x - state.last_mouse_x)),
            pitch: clamped(state.pitch + (y - state.last_mouse_y)),
            ..state
        }
    }
}

/// The state after `event`.
pub open spec fn after_event(state: GameState, event: WindowEvent) -> GameState {
    match event {
        WindowEvent::Key(Key::Escape, Action::Press) => GameState { close: true, ..state },
        WindowEvent::Key(key, Action::Press) => with_key(state, key, true),
        WindowEvent::Key(key, Action::Release) => with_key(state, key, false),
        WindowEvent::Key(_, Action::Repeat) => state,
        WindowEvent::CursorPos(x, y) => with_cursor(state, x, y),
        WindowEvent::Close => GameState { close: true, ..state },
        WindowEvent::Other => state,
    }
}

impl GameState {
    /// The state at startup: no intent, no cursor sample yet, looking a
    /// quarter turn to the side and level.
    pub fn new() -> (state: GameState)
        ensures
            state == (GameState {
                close: false,
                up: false,
                down: false,
                left: false,
                right: false,
                jump: false,
                first_mouse: true,
                last_mouse_x: 0,
                last_mouse_y: 0,
                yaw: START_YAW,
                pitch: 0,
            }),
            state.yaw == 90 * ANGLE_UNITS_PER_DEGREE,
    {
        GameState {
            close: false,
            up: false,
            down: false,
            left: false,
            right: false,
            jump: false,
            first_mouse: true,
            last_mouse_x: 0,
            last_mouse_y: 0,
            yaw: START_YAW,
            pitch: 0,
        }
    }
}

/// `angle` turned by `from - to` angle units, held at the ends of `i64`.
fn turned(angle: i64, from: i64, to: i64) -> (result: i64)
    ensures
        result == clamped(angle + (from - to)),
{
    let wide: i128 = angle as i128 + (from as i128 - to as i128);
    if wide < i64::MIN as i128 {
        i64::MIN
    } else if wide > i64::MAX as i128 {
        i64::MAX
    } else {
        wide as i64
    }
}

/// Sets or clears the intent that `key` stands for.
fn set_key(game_state: &mut GameState, key: Key, held: bool)
    ensures
        *final(game_state) == with_key(*old(game_state), key, held),
{
    match key {
        Key::W => { game_state.up = held; },
        Key::S => { game_state.down = held; },
        Key::A => { game_state.left = held; },
        Key::D => { game_state.right = held; },
        Key::Space => { game_state.jump = held; },
        Key::Escape => {},
        Key::Other => {},
    }
}

/// Applies one window event to the input state.
///
/// A key press sets its intent and a release clears it, with no debounce.
/// Pressing escape, or the window's close signal, requests the close. A
/// cursor sample drives mouse look as [`with_cursor`] says.
pub fn handle_window_event(game_state: &mut GameState, event: WindowEvent)
    ensures
        *final(game_state) == after_event(*old(game_state), event),
{
    match event {
        WindowEvent::Key(Key::Escape, Action::Press) => {
            game_state.close = true;
        },
        WindowEvent::Key(key, Action::Press) => {
            set_key(game_state, key, true);
        },
        WindowEvent::Key(key, Action::Release) => {
            set_key(game_state, key, false);
        },
        WindowEvent::Key(_, Action::Repeat) => {},
        WindowEvent::CursorPos(x, y) => {
            if game_state.first_mouse {
                game_state.last_mouse_x = x;
                game_state.last_mouse_y = y;
                game_state.first_mouse = false;
            } else {
                game_state.yaw = turned(game_state.yaw, game_state.last_mouse_x, x);
                game_state.pitch = turned(game_state.pitch, y, game_state.last_mouse_y);
                game_state.last_mouse_x = x;
                game_state.last_mouse_y = y;
            }
        },
        WindowEvent::Close => {
            game_state.close = true;
        },
        WindowEvent::Other => {},
    }
}

/// The first cursor sample changes neither yaw nor pitch: it is latched as
/// the reference, and the state goes over to tracking.
pub proof fn lemma_first_sample_latches(state: GameState, x: i64, y: i64)
    requires
        state.first_mouse,
    ensures
        after_event(state, WindowEvent::CursorPos(x, y)) == (GameState {
            first_mouse: false,
            last_mouse_x: x,
            last_mouse_y: y,
            ..state
        }),
        after_event(state, WindowEvent::CursorPos(x, y)).yaw == state.yaw,
        after_event(state, WindowEvent::CursorPos(x, y)).pitch == state.pitch,
{
}

/// While tracking, a cursor sample turns the view by the cursor's travel
/// since the last sample times the sensitivity, a tenth of a degree for each
/// pixel: yaw by that much down, pitch by that much up. This holds as long
/// as the new angles fit an `i64`; the sample becomes the new reference.
pub proof fn lemma_tracking_sample_turns(state: GameState, x: i64, y: i64)
    requires
        !state.first_mouse,
        i64::MIN <= state.yaw - (x - state.last_mouse_x) <= i64::MAX,
        i64::MIN <= state.pitch + (y - state.last_mouse_y) <= i64::MAX,
    ensures
        ({
            let after = after_event(state, WindowEvent::CursorPos(x, y));
            &&& (after.yaw - state.yaw) * PIXELS_PER_DEGREE * CURSOR_UNITS_PER_PIXEL == -(x
                - state.last_mouse_x) * ANGLE_UNITS_PER_DEGREE
            &&& (after.pitch - state.pitch) * PIXELS_PER_DEGREE * CURSOR_UNITS_PER_PIXEL == (y
                - state.last_mouse_y) * ANGLE_UNITS_PER_DEGREE
            &&& after.last_mouse_x == x
            &&& after.last_mouse_y == y
            &&& !after.first_mouse
        }),
{
}

/// Cursor samples touch nothing but the look state: intents and the close
/// request stay as they are.
pub proof fn lemma_cursor_keeps_intents(state: GameState, x: i64, y: i64)
    ensures
        ({
            let after = after_event(state, WindowEvent::CursorPos(x, y));
            &&& after.close == state.close
            &&& after.up == state.up
            &&& after.down == state.down
            &&& after.left == state.left
            &&& after.right == state.right
            &&& after.jump == state.jump
        }),
{
}

/// Once the close has been requested, no event takes the request back.
pub proof fn lemma_close_is_kept(state: GameState, event: WindowEvent)
    requires
        state.close,
    ensures
        after_event(state, event).close,
{
}

} // verus!
