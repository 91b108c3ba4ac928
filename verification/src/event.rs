//! The event model the core consumes: one closed tagged union spanning the
//! window, keyboard, cursor and gamepad event families, plus the recurring
//! end-of-frame signal. Every payload is a plain value; analog readings are
//! carried in thousandths (milli-units) of their natural unit.

use vstd::prelude::*;

verus! {

/// A press or release transition for an input code.
#[derive(Debug, Clone, Copy, PartialEq, Eq, Hash, Structural)]
pub enum ElementState {
    Pressed,
    Released,
}

/// A gamepad button, one variant per physical control.
#[derive(Debug, Clone, Copy, PartialEq, Eq, Hash, Structural)]
pub enum GamepadButton {
    South,
    East,
    North,
    West,
    C,
    Z,
    LeftTrigger,
    LeftTrigger2,
    RightTrigger,
    RightTrigger2,
    Select,
    Start,
    Mode,
    LeftThumb,
    RightThumb,
    DPadUp,
    DPadDown,
    DPadLeft,
    DPadRight,
    Unknown,
}

/// A gamepad analog axis.
#[derive(Debug, Clone, Copy, PartialEq, Eq, Hash, Structural)]
pub enum GamepadAxis {
    LeftStickX,
    LeftStickY,
    LeftZ,
    RightStickX,
    RightStickY,
    RightZ,
    DPadX,
    DPadY,
    Unknown,
}

/// What happened on a gamepad. Analog values are in milli-units: a reading
/// of `1.0` on the platform side arrives here as `1000`.
#[derive(Debug, Clone, Copy, PartialEq, Eq, Structural)]
pub enum GamepadEventType {
    ButtonPressed(GamepadButton),
    ButtonReleased(GamepadButton),
    ButtonChanged(GamepadButton, i32),
    AxisChanged(GamepadAxis, i32),
    Connected,
    Disconnected,
}

/// One gamepad event: which pad it came from and what happened.
#[derive(Debug, Clone, Copy, PartialEq, Eq, Structural)]
pub struct GamePadEvent {
    /// Identifier of the gamepad the event came from.
    pub id: u64,
    /// What happened.
    pub event: GamepadEventType,
}

/// Application-defined events injected into the platform event stream.
#[derive(Debug, Clone, Copy, PartialEq, Eq, Structural)]
pub enum CustomEvent {
    GamePadEvent(GamePadEvent),
}

/// An event addressed to one window. Cursor positions are in milli-pixels.
#[derive(Debug, Clone, Copy, PartialEq, Eq, Structural)]
pub enum WindowEvent {
    Resized { width: u32, height: u32 },
    Focused(bool),
    CursorEntered,
    CursorLeft,
    CursorMoved { x: i64, y: i64 },
    KeyboardInput { state: ElementState, key: u32 },
    Other,
}

/// One item of the inbound platform event stream.
#[derive(Debug, Clone, Copy, PartialEq, Eq, Structural)]
pub enum Event {
    /// An event addressed to the window named by `window_id`.
    WindowEvent { window_id: u64, event: WindowEvent },
    /// An application-defined event, such as a gamepad edge.
    UserEvent(CustomEvent),
    /// The recurring end-of-frame signal: all events of the current burst
    /// have been drained and a frame may be drawn.
    RedrawEventsCleared,
    /// An event the core does not consume.
    Other,
}

} // verus!
