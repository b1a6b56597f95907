//! Input events and their payloads.
//!
//! Positions and movements are whole layout units, times are milliseconds,
//! and scale factors, forces and sensitivities are thousandths.

use crate::kinds::InteractionType;
use crate::numeric::norm_sq;
use crate::numeric::vector_norm_sq;
use vstd::prelude::*;

verus! {

/// A point, or a displacement between two points.
#[derive(Clone, Copy, Debug, PartialEq, Eq, Structural)]
pub struct Position {
    pub x: i32,
    pub y: i32,
}

/// A width and a height.
#[derive(Clone, Copy, Debug, PartialEq, Eq, Structural)]
pub struct Size {
    pub width: u32,
    pub height: u32,
}

/// The visible part of the document.
#[derive(Clone, Copy, Debug, PartialEq, Eq, Structural)]
pub struct Viewport {
    pub width: u32,
    pub height: u32,
    /// Zoom factor in thousandths.
    pub scale: u32,
    pub offset_x: i32,
    pub offset_y: i32,
}

/// The square of the distance between two points.
pub open spec fn distance_sq(a: Position, b: Position) -> int {
    norm_sq(b.x - a.x, b.y - a.y)
}

/// Computes the square of the distance between two points.
pub fn position_distance_sq(a: Position, b: Position) -> (r: u128)
    ensures
        r == distance_sq(a, b),
        r <= 0x2_0000_0000_0000_0000,
{
    vector_norm_sq(b.x as i64 - a.x as i64, b.y as i64 - a.y as i64)
}

/// The modifier keys that are held down.
#[derive(Clone, Copy, Debug, PartialEq, Eq, Structural)]
pub struct EventModifiers {
    pub ctrl: bool,
    pub shift: bool,
    pub alt: bool,
    pub meta: bool,
}

/// One finger on the surface.
#[derive(Clone, Copy, Debug, PartialEq, Eq, Structural)]
pub struct TouchPoint {
    pub identifier: u32,
    pub position: Position,
    pub radius: Option<u32>,
    /// Degrees.
    pub rotation_angle: Option<i32>,
    /// Thousandths of full pressure.
    pub force: Option<u32>,
}

/// The touches of one touch event.
#[derive(Clone, Debug)]
pub struct TouchData {
    /// Every touch that is on the surface.
    pub touches: Vec<TouchPoint>,
    /// The touches that this event is about.
    pub changed_touches: Vec<TouchPoint>,
    pub target_touches: Vec<TouchPoint>,
    pub force: Option<u32>,
    pub rotation_angle: Option<i32>,
    /// Thousandths: 1000 is no change.
    pub scale: Option<u32>,
}

/// The button that a mouse event is about.
#[derive(Clone, Copy, Debug, PartialEq, Eq, Structural)]
pub enum MouseButton {
    NoButton,
    Left,
    Middle,
    Right,
    Back,
    Forward,
}

/// The pointer at one mouse event.
#[derive(Clone, Copy, Debug, PartialEq, Eq, Structural)]
pub struct MouseData {
    pub button: MouseButton,
    /// The buttons that are held, one bit each.
    pub buttons: u16,
    pub position: Position,
    pub movement: Option<Position>,
    pub wheel_delta: Option<Position>,
}

/// The key of one keyboard event.
#[derive(Clone, Debug)]
pub struct KeyboardData {
    pub key: String,
    pub code: String,
    pub char_code: Option<u32>,
    pub key_code: Option<u32>,
    pub repeat: bool,
}

/// The kinds of gesture.
#[derive(Clone, Copy, Debug, PartialEq, Eq, Structural, Hash)]
pub enum GestureType {
    Tap,
    DoubleTap,
    LongPress,
    Pinch,
    Rotate,
    Swipe,
    Pan,
}

/// A gesture that the host has recognised itself.
#[derive(Clone, Copy, Debug, PartialEq, Eq, Structural)]
pub struct GestureData {
    pub gesture_type: GestureType,
    pub start_position: Position,
    pub current_position: Position,
    pub delta: Position,
    /// Units per second.
    pub velocity: Option<Position>,
    pub scale: Option<u32>,
    pub rotation: Option<i32>,
    pub distance: Option<u64>,
    pub duration: u64,
}

/// How the adapter wants an event to be delivered.
#[derive(Clone, Copy, Debug, PartialEq, Eq, Structural)]
pub struct DeliveryHints {
    /// The shortest time, in microseconds, between two events of a
    /// high-frequency kind.
    pub throttle_threshold: u32,
    pub batch_events: bool,
    pub use_passive: bool,
}

/// One input occurrence submitted to the runtime.
#[derive(Clone, Debug)]
pub struct InteractionEvent {
    pub event_type: InteractionType,
    pub target_element: Option<String>,
    pub position: Option<Position>,
    pub timestamp: u64,
    pub touch_data: Option<TouchData>,
    pub mouse_data: Option<MouseData>,
    pub keyboard_data: Option<KeyboardData>,
    pub gesture_data: Option<GestureData>,
    /// The distance scrolled, for scroll and wheel events.
    pub scroll_delta: Option<Position>,
    /// The new size of the viewport, for resize events.
    pub viewport_size: Option<Size>,
    pub modifiers: EventModifiers,
    /// Filled in when the event is adapted to the device.
    pub hints: Option<DeliveryHints>,
}

/// A copy of an optional text.
pub fn copy_text(text: &Option<String>) -> (r: Option<String>)
    ensures
        r == *text,
{
    match text {
        Some(t) => Some(t.clone()),
        None => None,
    }
}

/// A copy of a list of touches.
pub fn copy_touches(touches: &Vec<TouchPoint>) -> (r: Vec<TouchPoint>)
    ensures
        r@ == touches@,
{
    let mut out: Vec<TouchPoint> = Vec::new();
    let mut i: usize = 0;
    while i < touches.len()
        invariant
            i <= touches.len(),
            out@ == touches@.take(i as int),
        decreases touches.len() - i,
    {
        out.push(touches[i]);
        assert(touches@.take(i as int + 1) =~= touches@.take(i as int).push(touches@[i as int]));
        i += 1;
    }
    assert(touches@.take(touches.len() as int) =~= touches@);
    out
}

} // verus!
