//! The responses that the interaction manager gives to events.

use crate::events::{EventModifiers, GestureType, MouseButton, Position, Size, TouchPoint};
use vstd::prelude::*;

verus! {

/// The state of an element as the user acts on it.
#[derive(Clone, Copy, Debug, PartialEq, Eq, Structural)]
pub enum InteractionStateType {
    Idle,
    Hover,
    Active,
    Pressed,
    Dragging,
    Focused,
    Disabled,
}

/// The kinds of answer.
#[derive(Clone, Copy, Debug, PartialEq, Eq, Structural)]
pub enum ResponseType {
    EventProcessed,
    StateChanged,
    Click,
    DoubleClick,
    TouchStart,
    TouchMove,
    TouchEnd,
    Tap,
    DragStart,
    Drag,
    DragEnd,
    KeyDown,
    KeyUp,
    KeyPress,
    Gesture,
    Scroll,
    FocusChanged,
    Resize,
    Delegated,
}

/// What a response carries, by the kind of the response.
#[derive(Debug)]
pub enum ResponseData {
    Empty,
    State { state: InteractionStateType },
    Click { position: Position, button: MouseButton, click_count: u32 },
    DoubleClick { position: Position, button: MouseButton, click_count: u32 },
    TouchStart { touch_count: usize },
    TouchMove { touches: Vec<TouchPoint>, scale: Option<u32>, rotation: Option<i32> },
    TouchEnd { remaining_touches: usize },
    Tap { position: Position, duration: u64 },
    DragStart { start_position: Position },
    Drag { position: Position, movement: Option<Position> },
    KeyDown { key: String, modifiers: EventModifiers },
    KeyUp { key: String },
    KeyPress { key: String, char_code: Option<u32> },
    Gesture {
        gesture_type: GestureType,
        delta: Position,
        scale: Option<u32>,
        rotation: Option<i32>,
        velocity: Option<Position>,
    },
    Scroll { delta: Option<Position> },
    Focus { focused: bool },
    Resize { size: Option<Size> },
    Delegated { handler_id: String, original_target: String },
}

/// What the manager answers to an event.
#[derive(Debug)]
pub struct InteractionResponse {
    pub target_element: Option<String>,
    pub response_type: ResponseType,
    pub data: ResponseData,
    /// The time at which the event was handled.
    pub timestamp: u64,
}

/// A response as a contract writes it down. A response that carries a list
/// of touches is written with the touches themselves; any other response
/// is written as it is.
pub enum Expected {
    Exactly(InteractionResponse),
    TouchMove {
        target: Option<String>,
        touches: Seq<TouchPoint>,
        scale: Option<u32>,
        rotation: Option<i32>,
        timestamp: u64,
    },
}

/// Whether the response `given` is the response `expected`.
pub open spec fn meets(given: InteractionResponse, expected: Expected) -> bool {
    match expected {
        Expected::Exactly(response) => given == response,
        Expected::TouchMove { target, touches, scale, rotation, timestamp } => {
            &&& given.target_element == target
            &&& given.response_type == ResponseType::TouchMove
            &&& given.timestamp == timestamp
            &&& given.data is TouchMove
            &&& given.data->TouchMove_touches@ == touches
            &&& given.data->TouchMove_scale == scale
            &&& given.data->TouchMove_rotation == rotation
        },
    }
}

/// Whether the responses `given` are the responses `expected`, one by one.
pub open spec fn all_meet(given: Seq<InteractionResponse>, expected: Seq<Expected>) -> bool {
    &&& given.len() == expected.len()
    &&& forall|i: int| 0 <= i < given.len() ==> meets(#[trigger] given[i], expected[i])
}

/// A response to an event handled at `now`.
pub open spec fn response(
    target: Option<String>,
    response_type: ResponseType,
    data: ResponseData,
    now: u64,
) -> Expected {
    Expected::Exactly(
        InteractionResponse { target_element: target, response_type, data, timestamp: now },
    )
}

/// Responses that meet their descriptions still do when a response that
/// meets its description joins each list.
pub proof fn lemma_all_meet_push(
    given: Seq<InteractionResponse>,
    expected: Seq<Expected>,
    next_given: InteractionResponse,
    next_expected: Expected,
)
    requires
        all_meet(given, expected),
        meets(next_given, next_expected),
    ensures
        all_meet(given.push(next_given), expected.push(next_expected)),
{
    let g = given.push(next_given);
    let e = expected.push(next_expected);
    assert forall|i: int| 0 <= i < g.len() implies meets(#[trigger] g[i], e[i]) by {
        if i < given.len() {
            assert(g[i] == given[i]);
            assert(e[i] == expected[i]);
        }
    }
}

/// Two lists of responses that meet their descriptions still do when the
/// second of each follows the first.
pub proof fn lemma_all_meet_concat(
    given: Seq<InteractionResponse>,
    expected: Seq<Expected>,
    more_given: Seq<InteractionResponse>,
    more_expected: Seq<Expected>,
)
    requires
        all_meet(given, expected),
        all_meet(more_given, more_expected),
    ensures
        all_meet(given + more_given, expected + more_expected),
{
    let g = given + more_given;
    let e = expected + more_expected;
    assert forall|i: int| 0 <= i < g.len() implies meets(#[trigger] g[i], e[i]) by {
        if i < given.len() {
            assert(g[i] == given[i]);
            assert(e[i] == expected[i]);
        } else {
            assert(g[i] == more_given[i - given.len()]);
            assert(e[i] == more_expected[i - given.len()]);
        }
    }
}

impl InteractionResponse {
    /// A response to an event handled at `now`.
    pub fn new_at(
        target_element: Option<String>,
        response_type: ResponseType,
        data: ResponseData,
        now: u64,
    ) -> (r: Self)
        ensures
            r == (InteractionResponse { target_element, response_type, data, timestamp: now }),
    {
        InteractionResponse { target_element, response_type, data, timestamp: now }
    }

    /// A response to an event handled now.
    pub fn new(target_element: Option<String>, response_type: ResponseType, data: ResponseData) -> (r:
        Self)
        ensures
            r.target_element == target_element,
            r.response_type == response_type,
            r.data == data,
    {
        InteractionResponse {
            target_element,
            response_type,
            data,
            timestamp: crate::clock::get_current_timestamp(),
        }
    }
}

} // verus!
